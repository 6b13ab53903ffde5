//! The input stream abstraction.
//!
//! An [`Input`] presents one cursor/backtracking interface over three
//! kinds of source: in-memory text, the contents of a seekable file, and
//! a non-seekable stream.  The caller reads one character at a time
//! ([`Input::getc`], [`Input::peekc`]) and reports the outcome
//! ([`Input::success`], [`Input::failure`]); nested backtracking saves
//! and restores cursors through a mark stack ([`Input::mark`],
//! [`Input::rewind`], [`Input::unmark`]).
//!
//! For a non-seekable stream, every character consumed since the oldest
//! live mark is kept in a replay buffer, indexed by offset relative to
//! that mark, so a rewind re-reads buffered characters instead of the
//! source.  Popping the last live mark flushes the buffer onto the
//! stream's sink — newest character first, the order of a push-back onto
//! the head of a stream — so uncommitted lookahead does not leak.
//!
//! The logical content of every kind of source is the character sequence
//! [`Input::stream`]; reading past its end, or onto an embedded `'\0'`,
//! yields the end marker `'\0'`.  OS-level plumbing (opening files,
//! draining pipes) lives outside this crate: callers hand the contents
//! in as text.

use vstd::prelude::*;

use crate::state::Cursor;
use crate::state::State;
use crate::state::STATE_POS_MAX;
use crate::state::cursor_advance;
use crate::state::state_advance;

verus! {

broadcast use vstd::seq::group_seq_axioms;

/// What an [`Input`] wraps: in-memory text, the contents of a seekable
/// file, or a non-seekable stream.
#[derive(Clone, Copy, PartialEq, Eq, Structural, Debug)]
pub enum StreamKind {
    Text,
    File,
    Pipe,
}

/// The character of `s` at `pos`, with `'\0'` marking the end of the
/// stream.
pub open spec fn peek_at(s: Seq<char>, pos: int) -> char {
    if 0 <= pos < s.len() {
        s[pos]
    } else {
        '\0'
    }
}

/// A position that lies inside a stream of length `len`.
pub open spec fn pos_wf(st: State, len: int) -> bool {
    &&& st.wf()
    &&& 0 <= st.pos <= len
    &&& 0 <= st.row <= st.pos
    &&& 0 <= st.col <= st.pos
    &&& st.term == 0
}

/// The saved cursor at index `i` of a mark stack kept as parallel
/// sequences of positions and last-characters.
pub open spec fn mark_at(marks: Seq<State>, lasts: Seq<char>, i: int) -> Cursor {
    Cursor { st: marks[i], last: lasts[i] }
}

/// An input stream: a source of characters, the cursor reached so far,
/// and the mark stack and replay buffer that backtracking uses.
pub struct Input {
    pub kind: StreamKind,
    pub filename: String,
    /// The full logical content of the source.
    pub text: Vec<char>,
    /// The position reached.
    pub state: State,
    /// The character consumed last, `'\0'` before the first read.
    pub last: char,
    /// While `false`, marks, rewinds and unmarks are inert.
    pub backtrack: bool,
    /// Saved positions, oldest first.
    pub marks: Vec<State>,
    /// The saved last-characters, parallel to `marks`.
    pub lasts: Vec<char>,
    /// Whether a non-seekable stream currently keeps a replay buffer.
    pub buffering: bool,
    /// Characters consumed since the oldest live mark (non-seekable
    /// streams only).
    pub buffer: Vec<char>,
    /// Characters flushed back out when the last live mark was popped
    /// (non-seekable streams only), newest first.
    pub sink: Vec<char>,
}

impl Input {
    /// The logical character content of the source.
    pub open spec fn stream(self) -> Seq<char> {
        self.text@
    }

    /// The cursor: position reached and character consumed last.
    pub open spec fn cursor(self) -> Cursor {
        Cursor { st: self.state, last: self.last }
    }

    /// The mark stack, oldest first.
    pub open spec fn marks_view(self) -> Seq<Cursor> {
        Seq::new(self.marks@.len(), |i: int| mark_at(self.marks@, self.lasts@, i))
    }

    /// Everything the stream invariant needs: the cursor and every mark
    /// lie inside the stream, marks are ordered and no newer than the
    /// cursor, and the replay buffer mirrors the characters between the
    /// oldest mark and the furthest point read.
    pub open spec fn wf(self) -> bool {
        &&& self.text@.len() <= STATE_POS_MAX
        &&& pos_wf(self.state, self.text@.len() as int)
        &&& self.marks@.len() == self.lasts@.len()
        &&& forall|i: int|
            0 <= i < self.marks@.len() ==> pos_wf(#[trigger] self.marks@[i], self.text@.len() as int)
        &&& forall|i: int, j: int|
            0 <= i <= j < self.marks@.len() ==> #[trigger] self.marks@[i].pos
                <= #[trigger] self.marks@[j].pos
        &&& (self.marks@.len() > 0 ==> self.marks@[self.marks@.len() - 1].pos <= self.state.pos)
        &&& (self.kind != StreamKind::Pipe ==> !self.buffering && self.buffer@.len() == 0
            && self.sink@.len() == 0)
        &&& (!self.buffering ==> self.buffer@.len() == 0)
        &&& (self.buffering ==> {
            &&& self.kind == StreamKind::Pipe
            &&& self.marks@.len() > 0
            &&& self.marks@[0].pos + self.buffer@.len() <= self.text@.len()
            &&& self.buffer@ == self.text@.subrange(
                self.marks@[0].pos as int,
                self.marks@[0].pos + self.buffer@.len(),
            )
            &&& self.state.pos <= self.marks@[0].pos + self.buffer@.len()
        })
    }
}

/// The characters of `s`, as a vector.
pub fn str_to_chars(s: &str) -> (v: Vec<char>)
    ensures
        v@ == s@,
{
    let n = s.unicode_len();
    let mut v: Vec<char> = Vec::new();
    let mut i: usize = 0;
    while i < n
        invariant
            n == s@.len(),
            0 <= i <= n,
            v@ == s@.take(i as int),
        decreases n - i,
    {
        let c = s.get_char(i);
        v.push(c);
        proof {
            assert(v@ =~= s@.take(i + 1));
        }
        i = i + 1;
    }
    proof {
        assert(v@ =~= s@);
    }
    v
}

impl Input {
    /// A freshly constructed input over `text`: cursor at the start,
    /// backtracking off, no marks, no buffered or flushed characters.
    pub open spec fn fresh(self, kind: StreamKind, filename: Seq<char>, text: Seq<char>) -> bool {
        &&& self.kind == kind
        &&& self.filename@ == filename
        &&& self.stream() == text
        &&& self.state == (State { pos: 0 as i64, row: 0 as i64, col: 0 as i64, term: 0 as i64 })
        &&& self.last == '\0'
        &&& self.backtrack == false
        &&& self.marks_view() == Seq::<Cursor>::empty()
        &&& !self.buffering
        &&& self.buffer@.len() == 0
        &&& self.sink@.len() == 0
    }

    fn new_with(kind: StreamKind, filename: &str, text: Vec<char>) -> (inp: Input)
        requires
            text@.len() <= STATE_POS_MAX,
        ensures
            inp.fresh(kind, filename@, text@),
            inp.wf(),
    {
        let inp = Input {
            kind,
            filename: filename.to_owned(),
            text,
            state: State { pos: 0, row: 0, col: 0, term: 0 },
            last: '\0',
            backtrack: false,
            marks: Vec::new(),
            lasts: Vec::new(),
            buffering: false,
            buffer: Vec::new(),
            sink: Vec::new(),
        };
        proof {
            assert(inp.marks@.len() == 0);
            assert(inp.marks_view().len() == 0);
            assert(inp.marks_view() =~= Seq::<Cursor>::empty());
        }
        inp
    }

    /// An input over in-memory text.
    pub fn new_string(filename: &str, string: &str) -> (inp: Input)
        requires
            string@.len() <= STATE_POS_MAX,
        ensures
            inp.fresh(StreamKind::Text, filename@, string@),
            inp.wf(),
    {
        Input::new_with(StreamKind::Text, filename, str_to_chars(string))
    }

    /// An input over the first `length` characters of `string`.
    pub fn new_nstring(filename: &str, string: &str, length: usize) -> (inp: Input)
        requires
            length <= string@.len(),
            string@.len() <= STATE_POS_MAX,
        ensures
            inp.fresh(StreamKind::Text, filename@, string@.take(length as int)),
            inp.wf(),
    {
        let all = str_to_chars(string);
        let mut v: Vec<char> = Vec::new();
        let mut i: usize = 0;
        while i < length
            invariant
                length <= all@.len(),
                all@ == string@,
                0 <= i <= length,
                v@ == string@.take(i as int),
            decreases length - i,
        {
            let c = all[i];
            v.push(c);
            proof {
                assert(v@ =~= string@.take(i + 1));
            }
            i = i + 1;
        }
        Input::new_with(StreamKind::Text, filename, v)
    }

    /// An input over the contents of a seekable file, read by the
    /// caller.
    pub fn new_file(filename: &str, contents: &str) -> (inp: Input)
        requires
            contents@.len() <= STATE_POS_MAX,
        ensures
            inp.fresh(StreamKind::File, filename@, contents@),
            inp.wf(),
    {
        Input::new_with(StreamKind::File, filename, str_to_chars(contents))
    }

    /// An input over a non-seekable stream whose pending characters are
    /// `source`.  Characters consumed under a live mark are buffered for
    /// replay; see [`Input::unmark`] for where they are flushed.
    pub fn new_pipe(filename: &str, source: &str) -> (inp: Input)
        requires
            source@.len() <= STATE_POS_MAX,
        ensures
            inp.fresh(StreamKind::Pipe, filename@, source@),
            inp.wf(),
    {
        Input::new_with(StreamKind::Pipe, filename, str_to_chars(source))
    }

    /// Make marks, rewinds and unmarks active.
    pub fn backtrack_enable(&mut self)
        ensures
            *final(self) == (Input { backtrack: true, ..*old(self) }),
    {
        self.backtrack = true;
    }

    /// Make marks, rewinds and unmarks inert, a performance escape hatch
    /// while no ambiguous alternation is in play.
    pub fn backtrack_disable(&mut self)
        ensures
            *final(self) == (Input { backtrack: false, ..*old(self) }),
    {
        self.backtrack = false;
    }

    /// The character under the cursor.  The caller checks for the end of
    /// the stream first, through [`Input::peekc`].
    pub fn getc(&self) -> (c: char)
        requires
            self.wf(),
            self.state.pos < self.stream().len(),
        ensures
            c == self.stream()[self.state.pos as int],
    {
        let n = self.text.len();
        proof {
            assert(0 <= self.state.pos < n);
        }
        match self.kind {
            StreamKind::Pipe => {
                if self.buffering && self.buffer.len() > 0 && self.in_buffer_range() {
                    proof {
                        assert(self.marks@[0].pos <= self.marks@[self.marks@.len() - 1].pos);
                        assert(self.marks@[0].pos <= self.state.pos);
                        assert(self.buffer@[self.state.pos - self.marks@[0].pos] == self.text@[
                            self.state.pos as int]);
                    }
                    self.buffer[(self.state.pos - self.marks[0].pos) as usize]
                } else {
                    self.text[self.state.pos as usize]
                }
            },
            _ => self.text[self.state.pos as usize],
        }
    }

    /// Whether the cursor still lies under the replay buffer.
    fn in_buffer_range(&self) -> (r: bool)
        requires
            self.wf(),
            self.buffering,
        ensures
            r == (self.state.pos < self.marks@[0].pos + self.buffer@.len()),
    {
        self.state.pos < self.marks[0].pos + self.buffer.len() as i64
    }

    /// The character under the cursor, without advancing: `'\0'` at (or
    /// past) the end of the stream.
    pub fn peekc(&self) -> (c: char)
        requires
            self.wf(),
        ensures
            c == peek_at(self.stream(), self.state.pos as int),
    {
        if self.state.pos < self.text.len() as i64 {
            self.getc()
        } else {
            '\0'
        }
    }

    /// Whether the stream is exhausted: the next character is the end
    /// marker.
    pub fn terminated(&self) -> (r: bool)
        requires
            self.wf(),
        ensures
            r == (peek_at(self.stream(), self.state.pos as int) == '\0'),
    {
        self.peekc() == '\0'
    }

    /// Undo the physical read of a character whose match failed.  The
    /// sources this crate wraps are memory-backed, so nothing has to be
    /// undone; the cursor, which never moved, stays where it was.
    pub fn failure(&mut self, c: char)
        requires
            old(self).wf(),
        ensures
            *final(self) == *old(self),
    {
        let _ = c;
    }

    /// Record the successful consumption of `c`, the character that was
    /// under the cursor: the position advances (a newline starts a new
    /// row), `c` becomes the last character, and a non-seekable stream
    /// under a live mark appends a freshly read `c` to the replay
    /// buffer.
    pub fn success(&mut self, c: char)
        requires
            old(self).wf(),
            old(self).state.pos < old(self).stream().len(),
            c == old(self).stream()[old(self).state.pos as int],
        ensures
            final(self).wf(),
            final(self).cursor() == cursor_advance(old(self).cursor(), c),
            final(self).state == state_advance(old(self).state, c),
            *final(self) == (Input {
                state: final(self).state,
                last: final(self).last,
                buffer: final(self).buffer,
                ..*old(self)
            }),
            final(self).buffer@ == if old(self).buffering && old(self).state.pos == old(
                self,
            ).marks@[0].pos + old(self).buffer@.len() {
                old(self).buffer@.push(c)
            } else {
                old(self).buffer@
            },
    {
        if self.kind == StreamKind::Pipe && self.buffering && !self.in_buffer_range() {
            self.buffer.push(c);
            proof {
                assert(self.buffer@ =~= self.text@.subrange(
                    self.marks@[0].pos as int,
                    self.marks@[0].pos + old(self).buffer@.len() + 1,
                ));
            }
        }
        self.last = c;
        self.state.pos = self.state.pos + 1;
        if c == '\n' {
            self.state.row = self.state.row + 1;
            self.state.col = 0;
        } else {
            self.state.col = self.state.col + 1;
        }
    }

    /// Push the cursor onto the mark stack, so that a later rewind can
    /// restore it.  On a non-seekable stream, the first live mark starts
    /// the replay buffer.  Inert while backtracking is off.
    pub fn mark(&mut self)
        requires
            old(self).wf(),
        ensures
            final(self).wf(),
            !old(self).backtrack ==> *final(self) == *old(self),
            old(self).backtrack ==> {
                &&& final(self).marks_view() == old(self).marks_view().push(old(self).cursor())
                &&& *final(self) == (Input {
                    marks: final(self).marks,
                    lasts: final(self).lasts,
                    buffering: final(self).buffering,
                    buffer: final(self).buffer,
                    ..*old(self)
                })
                &&& final(self).buffer@ == old(self).buffer@
                &&& final(self).buffering == (old(self).buffering || (old(self).kind
                    == StreamKind::Pipe && old(self).marks@.len() == 0))
            },
    {
        if !self.backtrack {
            return ;
        }
        self.marks.push(self.state);
        self.lasts.push(self.last);
        if self.kind == StreamKind::Pipe && self.marks.len() == 1 {
            self.buffering = true;
        }
        proof {
            assert(self.marks_view() =~= old(self).marks_view().push(old(self).cursor()));
            if self.buffering {
                assert(self.buffer@ =~= self.text@.subrange(
                    self.marks@[0].pos as int,
                    self.marks@[0].pos + self.buffer@.len(),
                ));
            }
        }
    }

    /// Pop the mark stack.  Popping the last live mark of a non-seekable
    /// stream flushes the replay buffer onto the sink — newest character
    /// first, the order of a push-back onto the head of a stream — so
    /// uncommitted lookahead does not leak.  Inert while backtracking is
    /// off.
    pub fn unmark(&mut self)
        requires
            old(self).wf(),
            old(self).backtrack ==> old(self).marks_view().len() > 0,
        ensures
            final(self).wf(),
            !old(self).backtrack ==> *final(self) == *old(self),
            old(self).backtrack ==> {
                &&& final(self).marks_view() == old(self).marks_view().drop_last()
                &&& *final(self) == (Input {
                    marks: final(self).marks,
                    lasts: final(self).lasts,
                    buffering: final(self).buffering,
                    buffer: final(self).buffer,
                    sink: final(self).sink,
                    ..*old(self)
                })
                &&& if old(self).kind == StreamKind::Pipe && old(self).marks@.len() == 1 {
                    &&& final(self).sink@ == old(self).sink@ + old(self).buffer@.reverse()
                    &&& final(self).buffer@.len() == 0
                    &&& !final(self).buffering
                } else {
                    &&& final(self).sink@ == old(self).sink@
                    &&& final(self).buffer@ == old(self).buffer@
                    &&& final(self).buffering == old(self).buffering
                }
            },
    {
        if !self.backtrack {
            return ;
        }
        proof {
            assert(self.marks@.len() == self.marks_view().len());
        }
        let _ = self.marks.pop();
        let _ = self.lasts.pop();
        if self.kind == StreamKind::Pipe && self.marks.len() == 0 && self.buffering {
            let n = self.buffer.len();
            let mut k: usize = 0;
            proof {
                assert(self.sink@ =~= old(self).sink@ + self.buffer@.subrange(
                    n as int,
                    n as int,
                ).reverse());
            }
            while k < n
                invariant
                    n == self.buffer@.len(),
                    0 <= k <= n,
                    self.sink@ == old(self).sink@ + self.buffer@.subrange(
                        n - k,
                        n as int,
                    ).reverse(),
                    self.buffer@ == old(self).buffer@,
                    self.marks@.len() == 0,
                    self.lasts@.len() == 0,
                    self.kind == old(self).kind,
                    self.filename == old(self).filename,
                    self.text == old(self).text,
                    self.state == old(self).state,
                    self.last == old(self).last,
                    self.backtrack == old(self).backtrack,
                    self.buffering == old(self).buffering,
                decreases n - k,
            {
                let c = self.buffer[n - 1 - k];
                self.sink.push(c);
                proof {
                    assert(self.sink@ =~= old(self).sink@ + self.buffer@.subrange(
                        n - (k + 1),
                        n as int,
                    ).reverse()) by {
                        assert(self.buffer@.subrange(n - (k + 1), n as int).reverse() =~= self
                            .buffer@.subrange(n - k, n as int).reverse().push(
                            self.buffer@[n - 1 - k],
                        ));
                    }
                }
                k = k + 1;
            }
            proof {
                assert(self.buffer@.subrange(0, n as int) =~= self.buffer@);
                assert(self.sink@ =~= old(self).sink@ + old(self).buffer@.reverse());
            }
            self.buffer.clear();
            self.buffering = false;
        } else {
            proof {
                if old(self).kind == StreamKind::Pipe && old(self).marks@.len() == 1 {
                    assert(old(self).buffer@.len() == 0);
                    assert(self.sink@ =~= old(self).sink@ + old(self).buffer@.reverse());
                }
            }
        }
        proof {
            assert(self.marks_view() =~= old(self).marks_view().drop_last());
            if self.buffering {
                assert(self.marks@[0] == old(self).marks@[0]);
            }
        }
    }

    /// Restore the cursor saved by the newest live mark, leaving the
    /// mark in place so the same checkpoint can be rewound to again.
    /// For a seekable file this is where the physical seek would happen;
    /// the memory-backed cursor restore covers it.  Inert while
    /// backtracking is off.
    pub fn rewind(&mut self)
        requires
            old(self).wf(),
            old(self).backtrack ==> old(self).marks_view().len() > 0,
        ensures
            final(self).wf(),
            !old(self).backtrack ==> *final(self) == *old(self),
            old(self).backtrack ==> {
                &&& final(self).cursor() == old(self).marks_view().last()
                &&& *final(self) == (Input {
                    state: final(self).state,
                    last: final(self).last,
                    ..*old(self)
                })
            },
    {
        if !self.backtrack {
            return ;
        }
        proof {
            assert(self.marks@.len() == self.marks_view().len());
        }
        let top = self.marks.len() - 1;
        self.state = self.marks[top];
        self.last = self.lasts[top];
    }
}

} // verus!
