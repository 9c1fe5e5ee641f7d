//! A cursor over a fixed sequence of characters.

use vstd::prelude::*;

use crate::text::chars_of;

verus! {

/// Cursor over the characters of a text.
///
/// The position only moves forward, one character at a time, except for a
/// single step back with [`Scanner::back`].
pub struct Scanner {
    /// Characters of the text.
    chars: Vec<char>,
    /// Number of characters.
    pub(crate) chars_count: usize,
    /// Current position: the index of the next character to consume.
    position: usize,
}

impl Scanner {
    /// The characters under the cursor.
    pub closed spec fn text(&self) -> Seq<char> {
        self.chars@
    }

    /// The current position.
    pub closed spec fn pos(&self) -> int {
        self.position as int
    }

    /// The stored count of characters agrees with the text.
    pub closed spec fn count_matches(&self) -> bool {
        self.chars_count == self.chars@.len()
    }

    /// The count of characters agrees with the text, and the position lies
    /// within it.
    pub open spec fn wf(&self) -> bool {
        &&& self.count_matches()
        &&& 0 <= self.pos() <= self.text().len() <= usize::MAX
    }

    /// Creates a scanner at the start of `source`.
    pub fn new(source: &str) -> (r: Scanner)
        ensures
            r.wf(),
            r.text() == source@,
            r.pos() == 0,
    {
        let chars = chars_of(source);
        let chars_count = chars.len();
        Scanner { chars, chars_count, position: 0 }
    }

    /// Whether the position has gone past the end of the text.
    pub fn done(&self) -> (r: bool)
        requires
            self.wf(),
        ensures
            r == (self.pos() > self.text().len()),
    {
        self.position > self.chars_count
    }

    /// The character at the current position, if any.
    pub fn curr(&self) -> (r: Option<&char>)
        requires
            self.wf(),
        ensures
            r == (if self.pos() < self.text().len() {
                Some(&self.text()[self.pos()])
            } else {
                None::<&char>
            }),
    {
        if self.position < self.chars.len() {
            Some(&self.chars[self.position])
        } else {
            None
        }
    }

    /// The character one past the current position, if any, without moving.
    pub fn peek(&mut self) -> (r: Option<&char>)
        requires
            old(self).wf(),
        ensures
            *final(self) == *old(self),
            r == (if old(self).pos() + 1 < old(self).text().len() {
                Some(&old(self).text()[old(self).pos() + 1])
            } else {
                None::<&char>
            }),
    {
        if self.done() {
            return None;
        }
        if self.position < self.chars.len() && self.position + 1 < self.chars.len() {
            Some(&self.chars[self.position + 1])
        } else {
            None
        }
    }

    /// Consumes the character at the current position and returns it, or
    /// returns `None` at the end of the text.
    pub fn next(&mut self) -> (r: Option<char>)
        requires
            old(self).wf(),
        ensures
            final(self).wf(),
            final(self).text() == old(self).text(),
            if old(self).pos() < old(self).text().len() {
                &&& r == Some(old(self).text()[old(self).pos()])
                &&& final(self).pos() == old(self).pos() + 1
            } else {
                &&& r is None
                &&& final(self).pos() == old(self).pos()
            },
    {
        if self.done() {
            return None;
        }
        if self.position < self.chars.len() {
            let ch = self.chars[self.position];
            self.position = self.position + 1;
            Some(ch)
        } else {
            None
        }
    }

    /// Moves the position one step back; stays at the start.
    pub fn back(&mut self)
        requires
            old(self).wf(),
        ensures
            final(self).wf(),
            final(self).text() == old(self).text(),
            final(self).pos() == if old(self).pos() == 0 {
                0
            } else {
                old(self).pos() - 1
            },
    {
        if self.position() == 0 {
            return;
        }
        self.position = self.position - 1;
    }

    /// The characters from `start` up to, not including, `end`.
    pub fn get_range(&self, start: usize, end: usize) -> (r: &[char])
        requires
            self.wf(),
            start <= end <= self.text().len(),
        ensures
            r@ == self.text().subrange(start as int, end as int),
    {
        &self.chars.as_slice()[start..end]
    }

    /// The current position.
    pub fn position(&self) -> (r: usize)
        ensures
            r == self.pos(),
    {
        self.position
    }
}

} // verus!
