//! The scan buffer: the input that has not been consumed yet, together with
//! the one parse error that may be in flight.

use std::str::Chars;
use vstd::prelude::*;
use vstd::std_specs::iter::IteratorSpec;
use vstd::string::*;

pub mod scanner;

verus! {

/// A cursor over the unconsumed input.
///
/// The view of a feeder is the sequence of characters that remain. Offsets
/// and lengths are counted in characters throughout.
pub struct Feeder {
    /// The text that has not been consumed.
    pub remaining: String,
    /// Set when a parser has met malformed syntax.
    pub error_occuring: bool,
    /// The reason recorded with the error; a later error overwrites it.
    pub error_reason: String,
}

/// What contracts see of a feeder: the text that remains and the error that
/// is recorded.
pub struct FeederState {
    pub remaining: Seq<char>,
    pub error_occuring: bool,
    pub error_reason: Seq<char>,
}

impl View for Feeder {
    type V = Seq<char>;

    open spec fn view(&self) -> Seq<char> {
        self.remaining@
    }
}

impl Feeder {
    /// The whole state of the feeder.
    pub open spec fn state(&self) -> FeederState {
        FeederState {
            remaining: self.remaining@,
            error_occuring: self.error_occuring,
            error_reason: self.error_reason@,
        }
    }

    /// A buffer over `text`, with no error pending.
    pub fn new(text: &str) -> (feeder: Feeder)
        ensures
            feeder@ == text@,
            !feeder.error_occuring,
            feeder.error_reason@ == Seq::<char>::empty(),
    {
        Feeder {
            remaining: String::from_str(text),
            error_occuring: false,
            error_reason: String::new(),
        }
    }

    /// The number of characters that remain.
    pub fn len(&self) -> (n: usize)
        ensures
            n == self@.len(),
    {
        self.remaining.as_str().unicode_len()
    }

    /// The character at offset `n`.
    pub fn nth(&self, n: usize) -> (ch: char)
        requires
            n < self@.len(),
        ensures
            ch == self@[n as int],
    {
        self.remaining.as_str().get_char(n)
    }

    /// The characters from offset `from` on; none when `from` lies at or
    /// beyond the end.
    pub fn chars_after(&self, from: usize) -> (chars: Chars<'_>)
        ensures
            chars.remaining() == Self::tail(self@, from as int),
    {
        let mut chars = self.remaining.as_str().chars();
        let mut skipped: usize = 0;
        while skipped < from
            invariant
                skipped <= from,
                chars.remaining() == Self::tail(self@, skipped as int),
            decreases from - skipped,
        {
            let _ = chars.next();
            skipped += 1;
        }
        chars
    }

    /// What is left of `text` from offset `from` on.
    pub open spec fn tail(text: Seq<char>, from: int) -> Seq<char> {
        if 0 <= from <= text.len() {
            text.skip(from)
        } else {
            Seq::empty()
        }
    }

    /// Whether the unconsumed text begins with `pattern`.
    pub fn starts_with(&self, pattern: &str) -> (found: bool)
        ensures
            found == pattern@.is_prefix_of(self@),
    {
        let mut wanted = pattern.chars();
        let mut given = self.remaining.as_str().chars();
        let ghost mut matched: int = 0;
        loop
            invariant
                0 <= matched <= pattern@.len(),
                matched <= self@.len(),
                wanted.remaining() == pattern@.skip(matched),
                given.remaining() == self@.skip(matched),
                pattern@.take(matched) == self@.take(matched),
            decreases pattern@.len() - matched,
        {
            match wanted.next() {
                None => {
                    return true;
                },
                Some(w) => {
                    match given.next() {
                        Some(g) => {
                            if g != w {
                                return false;
                            }
                        },
                        None => {
                            return false;
                        },
                    }
                },
            }
            proof {
                matched = matched + 1;
            }
        }
    }

    /// Removes the first `n` characters and returns them.
    pub fn consume(&mut self, n: usize) -> (cut: String)
        requires
            n <= old(self)@.len(),
        ensures
            cut@ == old(self)@.take(n as int),
            final(self)@ == old(self)@.skip(n as int),
            final(self).error_occuring == old(self).error_occuring,
            final(self).error_reason@ == old(self).error_reason@,
    {
        let text = self.remaining.as_str();
        let len = text.unicode_len();
        let cut = String::from_str(text.substring_char(0, n));
        let rest = String::from_str(text.substring_char(n, len));
        self.remaining = rest;
        cut
    }

    /// Records a parse error, replacing any that was pending.
    pub fn set_error(&mut self, reason: String)
        ensures
            final(self)@ == old(self)@,
            final(self).error_occuring,
            final(self).error_reason@ == reason@,
    {
        self.error_occuring = true;
        self.error_reason = reason;
    }
}

} // verus!
