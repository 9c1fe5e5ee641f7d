//! The platform that a forum post was published from.

use vstd::prelude::*;

verus! {

/// Platforms a post may come from.
#[derive(Clone, Copy, Debug, PartialEq, Eq, Structural)]
pub enum Platform {
    /// Mobile web UI.
    WebMobile,
    /// Not known.
    Unknown,
    /// Android.
    Android,
    /// iOS.
    Ios,
}

/// The platform field of a post as the server sends it: a number or a
/// string of one.
#[derive(Clone, Debug)]
pub enum PlatformValue {
    IntValue(i32),
    StringValue(String),
}

/// The platform that a code stands for: -1, 0, 1 and 2 are web mobile,
/// unknown, Android and iOS; any other code is unknown.
pub open spec fn platform_of_code(code: int) -> Platform {
    if code == -1 {
        Platform::WebMobile
    } else if code == 1 {
        Platform::Android
    } else if code == 2 {
        Platform::Ios
    } else {
        Platform::Unknown
    }
}

/// The platform that a field value stands for; a string counts only when it
/// spells one of the known codes exactly.
pub open spec fn platform_of(v: PlatformValue) -> Platform {
    match v {
        PlatformValue::IntValue(n) => platform_of_code(n as int),
        PlatformValue::StringValue(s) => if s@ == "-1"@ {
            Platform::WebMobile
        } else if s@ == "1"@ {
            Platform::Android
        } else if s@ == "2"@ {
            Platform::Ios
        } else {
            Platform::Unknown
        },
    }
}

impl PlatformValue {
    /// The platform that the value stands for.
    pub fn platform(&self) -> (r: Platform)
        ensures
            r == platform_of(*self),
    {
        match self {
            PlatformValue::StringValue(v) => {
                proof {
                    reveal_strlit("-1");
                    reveal_strlit("0");
                    reveal_strlit("1");
                    reveal_strlit("2");
                    assert("-1"@ =~= seq!['-', '1']);
                    assert("0"@ =~= seq!['0']);
                    assert("1"@ =~= seq!['1']);
                    assert("2"@ =~= seq!['2']);
                }
                if *v == String::from_str("-1") {
                    Platform::WebMobile
                } else if *v == String::from_str("0") {
                    assert(v@[0] != "1"@[0] && v@[0] != "2"@[0]);
                    Platform::Unknown
                } else if *v == String::from_str("1") {
                    Platform::Android
                } else if *v == String::from_str("2") {
                    Platform::Ios
                } else {
                    Platform::Unknown
                }
            },
            PlatformValue::IntValue(v) => {
                if *v == -1 {
                    Platform::WebMobile
                } else if *v == 0 {
                    Platform::Unknown
                } else if *v == 1 {
                    Platform::Android
                } else if *v == 2 {
                    Platform::Ios
                } else {
                    Platform::Unknown
                }
            },
        }
    }
}

} // verus!
