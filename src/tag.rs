//! A tag that renders itself.

use vstd::prelude::*;

verus! {

/// A markup tag that knows its own text and its attribute.
pub trait Tag {
    /// The markup text of the tag.
    fn to_bbcode(&self) -> String;

    /// The attribute, if any.
    fn attr(&self) -> Option<&str>;
}

} // verus!
