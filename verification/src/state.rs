//! Stream positions.
//!
//! A [`State`] is an immutable snapshot of an input stream: the character
//! offset, the row and the column reached so far.  It is the atomic unit
//! that backtracking saves and restores.  The sentinel returned by
//! [`mpc_state_invalid`] (every coordinate `-1`) denotes "no position", the
//! state of a freshly constructed error that records no failure yet.

use vstd::prelude::*;

verus! {

/// Upper bound on any stream coordinate.  Far beyond any real input, it
/// leaves headroom so that advancing a position by one character can never
/// overflow an `i64`.
pub const STATE_POS_MAX: i64 = 0x4000_0000_0000_0000;

/// A snapshot of an input stream position: character offset, row and
/// column, each starting at zero.  `term` flags an artificial
/// end-of-stream marker: it is set on an error raised where no further
/// character was available, and survives the union of errors from several
/// failed alternatives at the same offset.
#[derive(Clone, Copy, PartialEq, Eq, Structural, Debug)]
pub struct State {
    pub pos: i64,
    pub row: i64,
    pub col: i64,
    pub term: i64,
}

impl State {
    /// Every coordinate is either the "no position" sentinel `-1` or a
    /// bounded non-negative offset, and `term` is a flag.
    pub open spec fn wf(self) -> bool {
        &&& -1 <= self.pos <= STATE_POS_MAX
        &&& -1 <= self.row <= STATE_POS_MAX
        &&& -1 <= self.col <= STATE_POS_MAX
        &&& (self.term == 0 || self.term == 1)
    }
}

/// The "no position" sentinel, as a value.
pub open spec fn state_invalid_spec() -> State {
    State { pos: -1 as i64, row: -1 as i64, col: -1 as i64, term: 0 as i64 }
}

/// The position one character past `st`, after consuming `c`: the offset
/// grows by one; a newline moves to the start of the next row, any other
/// character to the next column.
pub open spec fn state_advance(st: State, c: char) -> State {
    if c == '\n' {
        State { pos: (st.pos + 1) as i64, row: (st.row + 1) as i64, col: 0, term: st.term }
    } else {
        State { pos: (st.pos + 1) as i64, row: st.row, col: (st.col + 1) as i64, term: st.term }
    }
}

/// A full cursor over a stream: the position reached, together with the
/// character consumed last (`'\0'` before the first read).  Word-boundary
/// matchers look at that character; backtracking saves and restores it
/// together with the position.
#[derive(Clone, Copy, PartialEq, Eq, Structural, Debug)]
pub struct Cursor {
    pub st: State,
    pub last: char,
}

/// The cursor one character past `cur`, after consuming `c`.
pub open spec fn cursor_advance(cur: Cursor, c: char) -> Cursor {
    Cursor { st: state_advance(cur.st, c), last: c }
}

/// The "no position" sentinel: a state that points nowhere, used by errors
/// that record no failure yet.
pub fn mpc_state_invalid() -> (s: State)
    ensures
        s.pos == -1 && s.row == -1 && s.col == -1 && s.term == 0,
{
    State { pos: -1, row: -1, col: -1, term: 0 }
}

/// The position of the first character of a stream.
pub fn mpc_state_new() -> (s: State)
    ensures
        s.pos == 0 && s.row == 0 && s.col == 0 && s.term == 0,
{
    State { pos: 0, row: 0, col: 0, term: 0 }
}

} // verus!
