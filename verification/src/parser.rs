//! Position-tracking character scanner with line-continuation splicing.
//!
//! [`Parser`] produces the logical characters of a source text one at a time
//! and maintains the (line, column) position of the most recently produced
//! character, 1-based, starting at (1, 1). A backslash immediately followed
//! by a newline is a line-continuation splice: both characters vanish from
//! the output and from the position accounting. A backslash followed by
//! anything else is returned literally, but the counters advance by the
//! peeked character's rule even though that character stays unconsumed, so
//! its column is counted once more on the next call. That double advance is
//! kept deliberately: downstream diagnostics were built against it.

use vstd::prelude::*;
use vstd::string::StrSliceExecFns;

verus! {

/// The abstract state of a [`Parser`]: the scanned text, how many of its
/// characters have been consumed, and the current position counters.
pub struct ParserState {
    /// The full source text, as a sequence of characters.
    pub src: Seq<char>,
    /// Number of characters already consumed.
    pub pos: int,
    /// Line of the most recently produced character, 1-based.
    pub line: int,
    /// Column of the most recently produced character, 1-based.
    pub col: int,
}

/// One scanning step over `src` starting at `pos` with position counters
/// `(line, col)`: the produced character (or `None` at exhaustion), then the
/// consumed-character count and the counters after the step.
///
/// Line-continuation splices (`\` directly followed by a newline) are
/// consumed silently; a lone `\` is produced literally while the counters
/// advance by the rule of the character peeked after it.
pub open spec fn scan_step(src: Seq<char>, pos: int, line: int, col: int) -> (Option<char>, int, int, int)
    recommends
        0 <= pos <= src.len(),
    decreases src.len() - pos,
{
    if pos < 0 || pos >= src.len() {
        (None::<char>, pos, line, col)
    } else if src[pos] == '\\' {
        if pos + 1 >= src.len() {
            // a trailing backslash is consumed, and nothing follows it
            (None::<char>, pos + 1, line, col)
        } else if src[pos + 1] == '\n' {
            // splice: both characters vanish, counters untouched
            scan_step(src, pos + 2, line, col)
        } else {
            // lone backslash: produced literally, counters advanced by the
            // peeked character's rule, which is a plain column advance since
            // that character is not a newline
            (Some('\\'), pos + 1, line, col + 1)
        }
    } else if src[pos] == '\n' {
        (Some('\n'), pos + 1, line + 1, 1)
    } else {
        (Some(src[pos]), pos + 1, line, col + 1)
    }
}

/// Position-tracking scanner over a source text.
pub struct Parser {
    /// The characters of the source text.
    chars: Vec<char>,
    /// Number of characters already consumed.
    pos: usize,
    /// Line of the most recently produced character, 1-based.
    line: usize,
    /// Column of the most recently produced character, 1-based.
    col: usize,
}

impl View for Parser {
    type V = ParserState;

    closed spec fn view(&self) -> ParserState {
        ParserState {
            src: self.chars@,
            pos: self.pos as int,
            line: self.line as int,
            col: self.col as int,
        }
    }
}

impl Parser {
    /// Basic well-formedness: the consumed count stays within the text, and
    /// each counter is 1-based and bounded by the consumed count, since one
    /// call advances a counter at most once and consumes at least one
    /// character when it does.
    pub open spec fn wf(self) -> bool {
        &&& 0 <= self@.pos <= self@.src.len()
        &&& self@.src.len() < usize::MAX
        &&& 1 <= self@.line <= 1 + self@.pos
        &&& 1 <= self@.col <= 1 + self@.pos
    }

    /// Make a scanner over `s`, positioned before its first character.
    pub fn new(s: &str) -> (r: Parser)
        requires
            s@.len() < usize::MAX,
        ensures
            r.wf(),
            r@.src == s@,
            r@.pos == 0,
            r@.line == 1,
            r@.col == 1,
    {
        let n = s.unicode_len();
        let mut chars: Vec<char> = Vec::new();
        let mut i: usize = 0;
        while i < n
            invariant
                i <= n,
                n == s@.len(),
                chars@ == s@.subrange(0, i as int),
            decreases n - i,
        {
            chars.push(s.get_char(i));
            proof {
                assert(chars@ =~= s@.subrange(0, i as int + 1));
            }
            i = i + 1;
        }
        proof {
            assert(chars@ =~= s@);
        }
        Parser { chars, pos: 0, line: 1, col: 1 }
    }

    /// Line of the most recently produced character.
    pub fn line(&self) -> (r: usize)
        ensures
            r == self@.line,
    {
        self.line
    }

    /// Column of the most recently produced character.
    pub fn col(&self) -> (r: usize)
        ensures
            r == self@.col,
    {
        self.col
    }

    /// Advance the position counters by the rule of `c`: a newline moves to
    /// the start of the next line, anything else moves one column right.
    pub fn advance_state(&mut self, c: char)
        requires
            old(self)@.line < usize::MAX,
            old(self)@.col < usize::MAX,
        ensures
            final(self)@.src == old(self)@.src,
            final(self)@.pos == old(self)@.pos,
            (if c == '\n' {
                final(self)@.line == old(self)@.line + 1 && final(self)@.col == 1
            } else {
                final(self)@.line == old(self)@.line && final(self)@.col == old(self)@.col + 1
            }),
    {
        match c {
            '\n' => {
                self.line = self.line + 1;
                self.col = 1;
            }
            _ => {
                self.col = self.col + 1;
            }
        }
    }

    /// Produce the next logical character, or `None` once the text is
    /// exhausted (idempotently: further calls keep returning `None` without
    /// side effects). The result and the new state are exactly one
    /// [`scan_step`] from the old state.
    pub fn char(&mut self) -> (r: Option<char>)
        requires
            old(self).wf(),
        ensures
            final(self).wf(),
            final(self)@.src == old(self)@.src,
            ({
                let step = scan_step(old(self)@.src, old(self)@.pos, old(self)@.line, old(self)@.col);
                r == step.0
                    && final(self)@.pos == step.1
                    && final(self)@.line == step.2
                    && final(self)@.col == step.3
            }),
    {
        let ghost src: Seq<char> = self.chars@;
        let ghost pos0: int = self.pos as int;
        let ghost line0: int = self.line as int;
        let ghost col0: int = self.col as int;
        loop
            invariant
                src == old(self)@.src,
                pos0 == old(self)@.pos,
                line0 == old(self)@.line,
                col0 == old(self)@.col,
                self.chars@ == src,
                self.line as int == line0,
                self.col as int == col0,
                pos0 <= self.pos as int,
                self.pos <= self.chars.len(),
                self.chars@.len() < usize::MAX,
                1 <= line0 <= 1 + pos0,
                1 <= col0 <= 1 + pos0,
                scan_step(src, self.pos as int, line0, col0)
                    == scan_step(src, pos0, line0, col0),
            decreases self.chars.len() - self.pos,
        {
            if self.pos >= self.chars.len() {
                return None;
            }
            let c = self.chars[self.pos];
            if c == '\\' {
                if self.pos + 1 >= self.chars.len() {
                    self.pos = self.pos + 1;
                    return None;
                }
                let d = self.chars[self.pos + 1];
                if d == '\n' {
                    self.pos = self.pos + 2;
                } else {
                    self.pos = self.pos + 1;
                    self.advance_state(d);
                    return Some('\\');
                }
            } else {
                self.pos = self.pos + 1;
                self.advance_state(c);
                return Some(c);
            }
        }
    }
}

} // verus!
