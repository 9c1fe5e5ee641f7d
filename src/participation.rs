//! Participation status of a user across the rounds of an event, rendered
//! as markup and as plain text.

use vstd::prelude::*;

use crate::bbcode::{
    bbcode_to_string, decimal, lemma_items_text_single, put, put_decimal, BBCodeItem, Color, Url,
};
use crate::color::WebColor;
use crate::post::{find_post_link, generate_find_post_link};

verus! {

/// How a user took part in one thread.
#[derive(Clone, Copy, Debug, PartialEq, Eq, Structural)]
pub enum Participation {
    /// Took part in the right format.
    Valid,
    /// Did not take part.
    Missed,
    /// Took part, but not in the right format.
    Invalid,
}

/// What a thread is used for.
#[derive(Clone, Copy, Debug, PartialEq, Eq, Structural)]
pub enum ThreadType {
    Poll,
    PollResult,
}

/// One thread of a round, with a user's participation in it.
pub struct Thread {
    /// Thread name.
    pub name: String,
    /// Where the thread's data is kept.
    pub path: String,
    /// The user's participation.
    pub state: Participation,
    /// Floor of the user's post.
    pub floor: usize,
    /// Id of the user's post.
    pub pid: String,
    /// Floors that broke the rule against duplicate polls.
    pub duplicate: Vec<usize>,
    /// Allowed choices of a poll; each choice may have several spellings.
    pub choices: Option<Vec<Vec<String>>>,
    /// Most choices a poll may select.
    pub max_choice: Option<usize>,
    /// What the thread is used for.
    pub thread_type: ThreadType,
}

/// Threads of one kind in a round: a named group, or a single thread
/// without a name.
pub struct ThreadGroup {
    /// Group name.
    pub name: Option<String>,
    /// Threads of the group.
    pub thread: Vec<Thread>,
}

/// A round of an event: a list of thread groups.
pub struct Round {
    /// Round name.
    pub name: String,
    /// Groups of the round.
    pub group: Vec<ThreadGroup>,
}

/// Points given to a user.
pub struct Reward {
    pub ww: i32,
    pub tsb: i32,
    pub energy: i32,
    pub credit: i32,
}

/// Rewards by the number of rounds that a user missed.
pub struct RewardPolicy {
    pub complete: Reward,
    pub missing1: Reward,
    pub missing2: Reward,
    pub missing3: Reward,
    pub missing4: Reward,
}

/// The parts joined with `sep` between each two.
pub open spec fn join(parts: Seq<Seq<char>>, sep: Seq<char>) -> Seq<char>
    decreases parts.len(),
{
    if parts.len() == 0 {
        Seq::empty()
    } else if parts.len() == 1 {
        parts[0]
    } else {
        join(parts.drop_last(), sep) + sep + parts.last()
    }
}

/// `n` spaces.
pub open spec fn spaces(n: nat) -> Seq<char> {
    Seq::new(n, |i: int| ' ')
}

/// `name#floor`.
pub open spec fn post_label(t: Thread) -> Seq<char> {
    t.name@ + "#"@ + decimal(t.floor as nat)
}

/// The markup of a thread: a link to the post for a good one, the name
/// alone for a missed one, and a link around dark red text for a bad one.
pub open spec fn thread_text(t: Thread) -> Seq<char> {
    match t.state {
        Participation::Valid => "[url="@ + find_post_link(t.pid@) + "]"@ + post_label(t) + "[/url]"@,
        Participation::Missed => t.name@,
        Participation::Invalid => "[url="@ + find_post_link(t.pid@) + "]"@ + ("[color="@
            + "DarkRed"@ + "]"@ + post_label(t) + "[/color]"@) + "[/url]"@,
    }
}

/// Names of the threads that were not done right.
pub open spec fn missed_names(ts: Seq<Thread>) -> Seq<Seq<char>>
    decreases ts.len(),
{
    if ts.len() == 0 {
        Seq::empty()
    } else if ts.last().state != Participation::Valid {
        missed_names(ts.drop_last()).push(ts.last().name@)
    } else {
        missed_names(ts.drop_last())
    }
}

/// `name【body】`, or `body` alone where the name is empty.
pub open spec fn grouped(name: Seq<char>, body: Seq<char>) -> Seq<char> {
    if name.len() == 0 {
        body
    } else {
        name + "【"@ + body + "】"@
    }
}

/// A group without a name has a thread.
pub open spec fn group_wf(g: ThreadGroup) -> bool {
    g.name is Some || g.thread@.len() > 0
}

/// What a group says of missed threads, if any were missed.
pub open spec fn group_missed(g: ThreadGroup) -> Option<Seq<char>> {
    match g.name {
        Some(n) => {
            let m = missed_names(g.thread@);
            if m.len() == 0 {
                None
            } else {
                Some(grouped(n@, join(m, "；"@)))
            }
        },
        None => if g.thread@[0].state == Participation::Valid {
            None
        } else {
            Some(g.thread@[0].name@)
        },
    }
}

/// The markup of a group: its threads joined with `；`, under the group's
/// name where it has one.
pub open spec fn group_text(g: ThreadGroup) -> Seq<char> {
    let body = join(g.thread@.map_values(|t: Thread| thread_text(t)), "；"@);
    match g.name {
        Some(n) => grouped(n@, body),
        None => body,
    }
}

/// What the groups say of missed threads, in order, leaving out those with
/// nothing missed.
pub open spec fn missed_infos(gs: Seq<ThreadGroup>) -> Seq<Seq<char>>
    decreases gs.len(),
{
    if gs.len() == 0 {
        Seq::empty()
    } else {
        match group_missed(gs.last()) {
            Some(info) => missed_infos(gs.drop_last()).push(info),
            None => missed_infos(gs.drop_last()),
        }
    }
}

/// All groups of a round are well formed.
pub open spec fn round_wf(r: Round) -> bool {
    forall|k: int| 0 <= k < r.group@.len() ==> #[trigger] group_wf(r.group@[k])
}

/// A round is missed where any of its groups missed a thread.
pub open spec fn round_missed(r: Round) -> bool {
    exists|k: int| 0 <= k < r.group@.len() && #[trigger] group_missed(r.group@[k]) is Some
}

/// `missed <round> <infos>`, indented, if anything was missed.
pub open spec fn round_missed_info(r: Round, indent: nat) -> Option<Seq<char>> {
    let infos = missed_infos(r.group@);
    if infos.len() == 0 {
        None
    } else {
        Some(spaces(indent) + "missed "@ + r.name@ + " "@ + join(infos, " "@))
    }
}

/// `<idx>. <groups>`, the groups' markup joined with spaces.
pub open spec fn round_text(r: Round, idx: nat) -> Seq<char> {
    decimal(idx) + ". "@ + join(r.group@.map_values(|g: ThreadGroup| group_text(g)), " "@)
}

/// `[<value><unit>]` where the value is positive, nothing otherwise.
pub open spec fn reward_part(value: i32, unit: Seq<char>) -> Seq<Seq<char>> {
    if value > 0 {
        seq![decimal(value as nat) + unit]
    } else {
        Seq::empty()
    }
}

/// The positive parts of a reward joined with ` + `.
pub open spec fn reward_text(r: Reward) -> Seq<char> {
    join(
        reward_part(r.ww, "ww"@) + reward_part(r.tsb, "tsb"@) + reward_part(r.energy, "能量值"@)
            + reward_part(r.credit, "积分"@),
        " + "@,
    )
}

/// The reward for a number of missed rounds; four or more count as four.
pub open spec fn policy_reward(p: RewardPolicy, missing_rounds: nat) -> Reward {
    if missing_rounds == 0 {
        p.complete
    } else if missing_rounds == 1 {
        p.missing1
    } else if missing_rounds == 2 {
        p.missing2
    } else if missing_rounds == 3 {
        p.missing3
    } else {
        p.missing4
    }
}

/// Appends `s` to `out`.
fn put_string(out: &mut String, s: &String)
    ensures
        final(out)@ == old(out)@ + s@,
{
    put(out, s.as_str());
}

/// The strings of `parts` joined with `sep` between each two.
fn join_strings(parts: &Vec<String>, sep: &str) -> (r: String)
    ensures
        r@ == join(parts@.map_values(|p: String| p@), sep@),
{
    let ghost views = parts@.map_values(|p: String| p@);
    let mut out = String::new();
    let mut k: usize = 0;
    while k < parts.len()
        invariant
            k <= parts@.len(),
            views == parts@.map_values(|p: String| p@),
            out@ == join(views.take(k as int), sep@),
        decreases parts@.len() - k,
    {
        if k > 0 {
            put(&mut out, sep);
        }
        put_string(&mut out, &parts[k]);
        k = k + 1;
        proof {
            let t = views.take(k as int);
            assert(t.drop_last() =~= views.take(k - 1));
            if k == 1 {
                assert(views.take(0) =~= Seq::<Seq<char>>::empty());
            }
        }
    }
    assert(views.take(k as int) =~= views);
    out
}

impl Thread {
    /// The markup of the thread's status.
    pub fn generate_bbcode(&self) -> (r: String)
        ensures
            r@ == thread_text(*self),
    {
        let mut label = String::new();
        put_string(&mut label, &self.name);
        put(&mut label, "#");
        put_decimal(&mut label, self.floor);
        let ghost lv = label@;
        match self.state {
            Participation::Valid => {
                let mut kids: Vec<BBCodeItem> = Vec::new();
                kids.push(BBCodeItem::Text(label));
                assert(kids@.len() == 1 && kids@[0] == BBCodeItem::Text(label));
                let url = Url::new(generate_find_post_link(self.pid.as_str()), kids);
                let r = bbcode_to_string(&url);
                proof {
                    lemma_items_text_single(url.children@);
                    assert(lv =~= post_label(*self));
                }
                assert(r@ =~= thread_text(*self));
                r
            },
            Participation::Missed => self.name.clone(),
            Participation::Invalid => {
                let mut inner: Vec<BBCodeItem> = Vec::new();
                inner.push(BBCodeItem::Text(label));
                assert(inner@.len() == 1 && inner@[0] == BBCodeItem::Text(label));
                let color = Color::new(WebColor::DarkRed, inner);
                let mut kids: Vec<BBCodeItem> = Vec::new();
                kids.push(BBCodeItem::Color(color));
                assert(kids@.len() == 1 && kids@[0] == BBCodeItem::Color(color));
                let url = Url::new(generate_find_post_link(self.pid.as_str()), kids);
                let r = bbcode_to_string(&url);
                proof {
                    lemma_items_text_single(color.children@);
                    lemma_items_text_single(url.children@);
                    assert(lv =~= post_label(*self));
                }
                assert(r@ =~= thread_text(*self));
                r
            },
        }
    }
}

/// `name【body】`, or `body` alone where the name is empty.
fn grouped_string(name: &String, body: String) -> (r: String)
    ensures
        r@ == grouped(name@, body@),
{
    if name.unicode_len() == 0 {
        body
    } else {
        let mut r = String::new();
        put_string(&mut r, name);
        put(&mut r, "【");
        put_string(&mut r, &body);
        put(&mut r, "】");
        assert(r@ =~= grouped(name@, body@));
        r
    }
}

impl ThreadGroup {
    /// A named group of threads.
    pub fn new_group(name: String, thread: Vec<Thread>) -> (r: ThreadGroup)
        ensures
            r.name == Some(name),
            r.thread == thread,
    {
        ThreadGroup { name: Some(name), thread }
    }

    /// A group of one thread, without a name.
    pub fn new_single(thread: Thread) -> (r: ThreadGroup)
        ensures
            r.name is None,
            r.thread@ == seq![thread],
            group_wf(r),
    {
        let mut v: Vec<Thread> = Vec::new();
        v.push(thread);
        ThreadGroup { name: None, thread: v }
    }

    /// What the group says of missed threads: `name【a；b】` for a named
    /// group, the thread's name for a single thread; `None` where nothing
    /// was missed.
    pub fn missed_info(&self) -> (r: Option<String>)
        requires
            group_wf(*self),
        ensures
            r matches Some(s) ==> group_missed(*self) == Some(s@),
            r is None ==> group_missed(*self) is None,
    {
        match &self.name {
            Some(group_name) => {
                let mut missed: Vec<String> = Vec::new();
                let mut k: usize = 0;
                while k < self.thread.len()
                    invariant
                        k <= self.thread@.len(),
                        missed@.map_values(|p: String| p@) == missed_names(
                            self.thread@.take(k as int),
                        ),
                    decreases self.thread@.len() - k,
                {
                    let ghost before = missed@;
                    proof {
                        assert(self.thread@.take(k + 1).drop_last() =~= self.thread@.take(
                            k as int,
                        ));
                    }
                    if self.thread[k].state != Participation::Valid {
                        missed.push(self.thread[k].name.clone());
                        proof {
                            assert(missed@.map_values(|p: String| p@) =~= before.map_values(
                                |p: String| p@,
                            ).push(self.thread@[k as int].name@));
                        }
                    }
                    k = k + 1;
                }
                assert(self.thread@.take(k as int) =~= self.thread@);
                if missed.len() == 0 {
                    None
                } else {
                    let body = join_strings(&missed, "；");
                    Some(grouped_string(group_name, body))
                }
            },
            None => {
                if self.thread[0].state == Participation::Valid {
                    None
                } else {
                    Some(self.thread[0].name.clone())
                }
            },
        }
    }

    /// The markup of the group: its threads' markup joined with `；`, under
    /// the group's name where it has a non-empty one.
    pub fn generate_bbcode(&self) -> (r: String)
        ensures
            r@ == group_text(*self),
    {
        let mut codes: Vec<String> = Vec::new();
        let mut k: usize = 0;
        while k < self.thread.len()
            invariant
                k <= self.thread@.len(),
                codes@.len() == k,
                forall|q: int| 0 <= q < k ==> #[trigger] codes@[q]@ == thread_text(self.thread@[q]),
            decreases self.thread@.len() - k,
        {
            let code = self.thread[k].generate_bbcode();
            codes.push(code);
            k = k + 1;
        }
        assert(codes@.map_values(|p: String| p@) =~= self.thread@.map_values(
            |t: Thread| thread_text(t),
        ));
        let body = join_strings(&codes, "；");
        match &self.name {
            Some(name) => grouped_string(name, body),
            None => body,
        }
    }
}

impl Round {
    /// Whether the user missed any thread of the round.
    pub fn is_missed(&self) -> (r: bool)
        requires
            round_wf(*self),
        ensures
            r == round_missed(*self),
    {
        let mut k: usize = 0;
        while k < self.group.len()
            invariant
                k <= self.group@.len(),
                round_wf(*self),
                forall|q: int| 0 <= q < k ==> #[trigger] group_missed(self.group@[q]) is None,
            decreases self.group@.len() - k,
        {
            assert(group_wf(self.group@[k as int]));
            if self.group[k].missed_info().is_some() {
                return true;
            }
            k = k + 1;
        }
        false
    }

    /// `missed <round> <infos>`, indented by `indent` spaces, where the user
    /// missed anything in the round.
    pub fn missed_info(&self, indent: usize) -> (r: Option<String>)
        requires
            round_wf(*self),
        ensures
            r matches Some(s) ==> round_missed_info(*self, indent as nat) == Some(s@),
            r is None ==> round_missed_info(*self, indent as nat) is None,
    {
        let mut infos: Vec<String> = Vec::new();
        let mut k: usize = 0;
        while k < self.group.len()
            invariant
                k <= self.group@.len(),
                round_wf(*self),
                infos@.map_values(|p: String| p@) == missed_infos(self.group@.take(k as int)),
            decreases self.group@.len() - k,
        {
            assert(group_wf(self.group@[k as int]));
            let ghost before = infos@;
            proof {
                assert(self.group@.take(k + 1).drop_last() =~= self.group@.take(k as int));
            }
            match self.group[k].missed_info() {
                Some(info) => {
                    let ghost iv = info@;
                    infos.push(info);
                    proof {
                        assert(infos@.map_values(|p: String| p@) =~= before.map_values(
                            |p: String| p@,
                        ).push(iv));
                    }
                },
                None => {},
            }
            k = k + 1;
        }
        assert(self.group@.take(k as int) =~= self.group@);
        if infos.len() == 0 {
            return None;
        }
        let mut r = String::new();
        let mut i: usize = 0;
        while i < indent
            invariant
                i <= indent,
                r@ == spaces(i as nat),
            decreases indent - i,
        {
            crate::text::push_char(&mut r, ' ');
            i = i + 1;
            assert(r@ =~= spaces(i as nat));
        }
        put(&mut r, "missed ");
        put_string(&mut r, &self.name);
        put(&mut r, " ");
        let joined = join_strings(&infos, " ");
        put_string(&mut r, &joined);
        assert(r@ =~= round_missed_info(*self, indent as nat)->0);
        Some(r)
    }

    /// `<idx>. <groups>`: the round's groups' markup joined with spaces.
    pub fn generate_bbcode(&self, idx: usize) -> (r: String)
        ensures
            r@ == round_text(*self, idx as nat),
    {
        let mut codes: Vec<String> = Vec::new();
        let mut k: usize = 0;
        while k < self.group.len()
            invariant
                k <= self.group@.len(),
                codes@.len() == k,
                forall|q: int| 0 <= q < k ==> #[trigger] codes@[q]@ == group_text(self.group@[q]),
            decreases self.group@.len() - k,
        {
            let code = self.group[k].generate_bbcode();
            codes.push(code);
            k = k + 1;
        }
        assert(codes@.map_values(|p: String| p@) =~= self.group@.map_values(
            |g: ThreadGroup| group_text(g),
        ));
        let mut r = String::new();
        put_decimal(&mut r, idx);
        put(&mut r, ". ");
        let joined = join_strings(&codes, " ");
        put_string(&mut r, &joined);
        assert(r@ =~= round_text(*self, idx as nat));
        r
    }
}

/// Adds `<value><unit>` to `parts` where the value is positive.
fn push_reward_part(parts: &mut Vec<String>, value: i32, unit: &str)
    ensures
        final(parts)@.map_values(|p: String| p@) == old(parts)@.map_values(|p: String| p@)
            + reward_part(value, unit@),
{
    if value > 0 {
        let mut s = String::new();
        put_decimal(&mut s, value as usize);
        put(&mut s, unit);
        let ghost before = parts@;
        parts.push(s);
        assert(parts@.map_values(|p: String| p@) =~= before.map_values(|p: String| p@)
            + reward_part(value, unit@));
    } else {
        assert(parts@.map_values(|p: String| p@) =~= parts@.map_values(|p: String| p@)
            + reward_part(value, unit@));
    }
}

impl Reward {
    /// The positive parts of the reward, such as `5ww + 2积分`.
    pub fn generate_reward_text(&self) -> (r: String)
        ensures
            r@ == reward_text(*self),
    {
        let mut parts: Vec<String> = Vec::new();
        assert(parts@.map_values(|p: String| p@) =~= Seq::<Seq<char>>::empty());
        push_reward_part(&mut parts, self.ww, "ww");
        push_reward_part(&mut parts, self.tsb, "tsb");
        push_reward_part(&mut parts, self.energy, "能量值");
        push_reward_part(&mut parts, self.credit, "积分");
        proof {
            assert(parts@.map_values(|p: String| p@) =~= reward_part(self.ww, "ww"@) + reward_part(
                self.tsb,
                "tsb"@,
            ) + reward_part(self.energy, "能量值"@) + reward_part(self.credit, "积分"@));
        }
        join_strings(&parts, " + ")
    }
}

impl RewardPolicy {
    /// The reward text for a user who missed `missing_rounds` rounds.
    pub fn generate_reward_text(&self, missing_rounds: usize) -> (r: String)
        ensures
            r@ == reward_text(policy_reward(*self, missing_rounds as nat)),
    {
        match missing_rounds {
            0 => self.complete.generate_reward_text(),
            1 => self.missing1.generate_reward_text(),
            2 => self.missing2.generate_reward_text(),
            3 => self.missing3.generate_reward_text(),
            _ => self.missing4.generate_reward_text(),
        }
    }
}

} // verus!
