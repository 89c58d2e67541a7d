//! The decisions of the log tailer. The caller owns the file: before each
//! poll it reports the file's length, rewinds to the start when told to, reads
//! what follows its cursor and hands that text over; the tailer gives back the
//! complete lines and keeps an unterminated last line until its end arrives.
use vstd::prelude::*;
use crate::parser::{chars_of, text};

verus! {

/// A line without its line break: a final `\r` is dropped as well.
pub open spec fn strip_cr(l: Seq<char>) -> Seq<char> {
    if l.len() > 0 && l.last() == '\r' {
        l.drop_last()
    } else {
        l
    }
}

/// The lines of `s` that end at or after `i`, the current one starting at
/// `start`, each terminated by `\n`.
pub open spec fn lines_from(s: Seq<char>, i: int, start: int) -> Seq<Seq<char>>
    decreases s.len() - i,
{
    if i < 0 || i >= s.len() {
        Seq::empty()
    } else if s[i] == '\n' {
        seq![strip_cr(s.subrange(start, i))] + lines_from(s, i + 1, i + 1)
    } else {
        lines_from(s, i + 1, start)
    }
}

/// What follows the last `\n` of `s` at or after `i`, or from `start` when
/// there is none.
pub open spec fn rest_from(s: Seq<char>, i: int, start: int) -> Seq<char>
    decreases s.len() - i,
{
    if i < 0 || i >= s.len() {
        s.subrange(start, s.len() as int)
    } else if s[i] == '\n' {
        rest_from(s, i + 1, i + 1)
    } else {
        rest_from(s, i + 1, start)
    }
}

/// The complete lines of `s`.
pub open spec fn complete_lines(s: Seq<char>) -> Seq<Seq<char>> {
    lines_from(s, 0, 0)
}

/// The unterminated tail of `s`.
pub open spec fn partial_line(s: Seq<char>) -> Seq<char> {
    rest_from(s, 0, 0)
}

pub open spec fn texts(v: Seq<String>) -> Seq<Seq<char>> {
    Seq::new(v.len(), |i: int| v[i]@)
}

/// Cursor state of a tailed log file.
pub struct Tailer {
    /// length of the file at the previous poll
    pub last_size: u64,
    /// text read after the last line break so far
    pub pending: String,
}

impl Tailer {
    /// A tailer for a file whose length is `len` when it is opened.
    pub fn new(len: u64) -> (t: Tailer)
        ensures
            t.last_size == len,
            t.pending@ == Seq::<char>::empty(),
    {
        Tailer { last_size: len, pending: String::new() }
    }

    /// Records the file's length at the start of a poll. Answers whether the
    /// file has shrunk since the previous poll, in which case it was truncated
    /// or replaced: the caller must read it again from offset 0, and the
    /// partial line held from the old file is dropped.
    pub fn observe_len(&mut self, len: u64) -> (rewind: bool)
        ensures
            rewind == (len < old(self).last_size),
            final(self).last_size == len,
            rewind ==> final(self).pending@ == Seq::<char>::empty(),
            !rewind ==> final(self).pending == old(self).pending,
    {
        let rewind = len < self.last_size;
        if rewind {
            self.pending = String::new();
        }
        self.last_size = len;
        rewind
    }

    /// Takes the text read in this poll and returns the lines it completes,
    /// without their line breaks; the unterminated rest is kept for the next
    /// poll.
    pub fn accept(&mut self, chunk: &str) -> (lines: Vec<String>)
        ensures
            texts(lines@) == complete_lines(old(self).pending@ + chunk@),
            final(self).pending@ == partial_line(old(self).pending@ + chunk@),
            final(self).last_size == old(self).last_size,
    {
        let joined = self.pending.clone().concat(chunk);
        let ghost all = joined@;
        let s = chars_of(joined.as_str());
        let n = s.len();
        let mut lines: Vec<String> = Vec::new();
        let mut start: usize = 0;
        let mut i: usize = 0;
        while i < n
            invariant
                n == s@.len(),
                s@ == all,
                joined@ == all,
                start <= i <= n,
                texts(lines@) + lines_from(all, i as int, start as int) == complete_lines(all),
                rest_from(all, i as int, start as int) == partial_line(all),
            decreases n - i,
        {
            if s[i] == '\n' {
                let end = if i > start && s[i - 1] == '\r' {
                    i - 1
                } else {
                    i
                };
                let l = text(joined.as_str(), start, end);
                proof {
                    assert(l@ == strip_cr(all.subrange(start as int, i as int)));
                }
                let ghost before = lines@;
                lines.push(l);
                proof {
                    assert(texts(lines@) =~= texts(before).push(l@));
                    assert(texts(lines@) + lines_from(all, i + 1, i + 1) =~= texts(before)
                        + lines_from(all, i as int, start as int));
                }
                start = i + 1;
            }
            i = i + 1;
        }
        self.pending = text(joined.as_str(), start, n);
        proof {
            assert(lines_from(all, n as int, start as int) =~= Seq::<Seq<char>>::empty());
            assert(texts(lines@) =~= texts(lines@) + Seq::<Seq<char>>::empty());
        }
        lines
    }
}

} // verus!
