//! Parse errors and their merge policy.
//!
//! A [`ParseErr`] records the deepest failure a parse reached: its
//! position, the descriptions of what was expected there, the offending
//! character, and — for a semantic rejection — a custom failure message.
//!
//! When several alternatives fail, their errors are merged: the error at
//! the larger offset wins outright (the longest match gives the most
//! specific diagnostic); at equal offsets the expected sets are unioned,
//! de-duplicated in insertion order, and a custom failure message on
//! either side is preserved.  The pure merge is [`merge_errv`]; the laws
//! it obeys are proved in [`lemma_merge_deeper_wins`] and
//! [`lemma_merge_same_pos`].

use vstd::prelude::*;

use crate::chars::char_to_string;
use crate::chars::push_char;
use crate::state::State;

verus! {

/// The mathematical content of a parse error: everything but the source
/// name, which only the diagnostic rendering uses.
pub struct ErrV {
    pub state: State,
    pub expected: Seq<Seq<char>>,
    pub failure: Option<Seq<char>>,
    pub received: char,
}

/// A structured parse error.
///
/// `expected_num` mirrors the length of `expected`; `filename` names the
/// input source for diagnostics; `failure` carries the message of a
/// semantic rejection, which merging never discards; `received` is the
/// character found at the failure position (`'\0'` where the stream
/// ended).
pub struct ParseErr {
    pub state: State,
    pub expected_num: usize,
    pub filename: String,
    pub failure: Option<String>,
    pub expected: Vec<String>,
    pub received: char,
}

/// The views of a sequence of strings.
pub open spec fn strs_view(v: Seq<String>) -> Seq<Seq<char>> {
    v.map_values(|s: String| s@)
}

impl View for ParseErr {
    type V = ErrV;

    open spec fn view(&self) -> ErrV {
        ErrV {
            state: self.state,
            expected: strs_view(self.expected@),
            failure: match self.failure {
                Some(m) => Some(m@),
                None => None,
            },
            received: self.received,
        }
    }
}

impl ParseErr {
    /// The position is sound and the recorded count matches the list of
    /// expected descriptions.
    pub open spec fn wf(self) -> bool {
        &&& self.state.wf()
        &&& self.expected_num == self.expected@.len()
    }
}

/// `xs` with `e` appended, unless `e` already occurs in `xs`.
pub open spec fn push_unique(xs: Seq<Seq<char>>, e: Seq<char>) -> Seq<Seq<char>> {
    if xs.contains(e) {
        xs
    } else {
        xs.push(e)
    }
}

/// The union of two ordered description sets: every element of `ys`, in
/// order, is appended to `xs` unless already present.
pub open spec fn union_expected(xs: Seq<Seq<char>>, ys: Seq<Seq<char>>) -> Seq<Seq<char>>
    decreases ys.len(),
{
    if ys.len() == 0 {
        xs
    } else {
        union_expected(push_unique(xs, ys.first()), ys.drop_first())
    }
}

/// Merging two errors: the deeper one wins outright; at equal offsets the
/// expected sets are unioned (insertion order kept, duplicates dropped),
/// the end-of-stream flag survives from either side, a custom failure
/// message on either side is preserved (the first argument's is
/// preferred), and the offending character of the first argument is kept.
pub open spec fn merge_errv(x: ErrV, y: ErrV) -> ErrV {
    if x.state.pos > y.state.pos {
        x
    } else if y.state.pos > x.state.pos {
        y
    } else {
        ErrV {
            state: State {
                pos: x.state.pos,
                row: x.state.row,
                col: x.state.col,
                term: if x.state.term == 1 || y.state.term == 1 {
                    1
                } else {
                    0
                },
            },
            expected: union_expected(x.expected, y.expected),
            failure: if x.failure is Some {
                x.failure
            } else {
                y.failure
            },
            received: x.received,
        }
    }
}

/// Whether `v` holds a string whose characters are `s`.
fn str_vec_contains(v: &Vec<String>, s: &String) -> (r: bool)
    ensures
        r == strs_view(v@).contains(s@),
{
    let n = v.len();
    let mut i: usize = 0;
    while i < n
        invariant
            n == v@.len(),
            0 <= i <= n,
            forall|j: int| 0 <= j < i ==> strs_view(v@)[j] != s@,
        decreases n - i,
    {
        if v[i].eq(s) {
            assert(strs_view(v@)[i as int] == s@);
            return true;
        }
        i = i + 1;
    }
    assert forall|j: int| 0 <= j < v@.len() implies strs_view(v@)[j] != s@ by {}
    assert(!strs_view(v@).contains(s@));
    false
}

proof fn lemma_union_snoc(xs: Seq<Seq<char>>, ys: Seq<Seq<char>>, e: Seq<char>)
    ensures
        union_expected(xs, ys.push(e)) == push_unique(union_expected(xs, ys), e),
    decreases ys.len(),
{
    if ys.len() == 0 {
        assert(ys.push(e).first() == e);
        assert(ys.push(e).drop_first() =~= Seq::<Seq<char>>::empty());
        assert(union_expected(xs, ys.push(e)) == union_expected(push_unique(xs, e), Seq::<
            Seq<char>,
        >::empty()));
    } else {
        assert(ys.push(e).first() == ys.first());
        assert(ys.push(e).drop_first() =~= ys.drop_first().push(e));
        lemma_union_snoc(push_unique(xs, ys.first()), ys.drop_first(), e);
    }
}

/// Merge two errors that arose on the same input.
///
/// The result is exactly [`merge_errv`] of the two views; the source name
/// is taken from whichever error wins (they name the same source).
pub fn mpc_err_merge(x: ParseErr, y: ParseErr) -> (r: ParseErr)
    requires
        x.wf(),
        y.wf(),
    ensures
        r.wf(),
        r@ == merge_errv(x@, y@),
        r.filename@ == x.filename@ || r.filename@ == y.filename@,
{
    if x.state.pos > y.state.pos {
        x
    } else if y.state.pos > x.state.pos {
        y
    } else {
        let ghost gx = x@;
        let ghost gy = y@;
        let mut exp = x.expected;
        let y_exp = y.expected;
        let n = y_exp.len();
        let mut i: usize = 0;
        while i < n
            invariant
                n == y_exp@.len(),
                0 <= i <= n,
                strs_view(exp@) == union_expected(gx.expected, strs_view(y_exp@).take(i as int)),
            decreases n - i,
        {
            proof {
                assert(strs_view(y_exp@).take(i + 1) =~= strs_view(y_exp@).take(i as int).push(
                    strs_view(y_exp@)[i as int],
                ));
                lemma_union_snoc(
                    gx.expected,
                    strs_view(y_exp@).take(i as int),
                    strs_view(y_exp@)[i as int],
                );
            }
            if !str_vec_contains(&exp, &y_exp[i]) {
                let s = y_exp[i].clone();
                exp.push(s);
                proof {
                    assert(strs_view(exp@) =~= union_expected(
                        gx.expected,
                        strs_view(y_exp@).take(i + 1),
                    ));
                }
            } else {
                proof {
                    assert(strs_view(exp@) =~= union_expected(
                        gx.expected,
                        strs_view(y_exp@).take(i + 1),
                    ));
                }
            }
            i = i + 1;
        }
        proof {
            assert(strs_view(y_exp@).take(n as int) =~= strs_view(y_exp@));
        }
        let num = exp.len();
        let r = ParseErr {
            state: State {
                pos: x.state.pos,
                row: x.state.row,
                col: x.state.col,
                term: if x.state.term == 1 || y.state.term == 1 {
                    1
                } else {
                    0
                },
            },
            expected_num: num,
            filename: x.filename,
            failure: if x.failure.is_some() {
                x.failure
            } else {
                y.failure
            },
            expected: exp,
            received: x.received,
        };
        r
    }
}

/// No description occurs twice.
pub open spec fn distinct_descs(xs: Seq<Seq<char>>) -> bool {
    forall|i: int, j: int| 0 <= i < j < xs.len() ==> xs[i] != xs[j]
}

proof fn lemma_union_membership(xs: Seq<Seq<char>>, ys: Seq<Seq<char>>, e: Seq<char>)
    ensures
        union_expected(xs, ys).contains(e) <==> xs.contains(e) || ys.contains(e),
    decreases ys.len(),
{
    if ys.len() == 0 {
    } else {
        lemma_union_membership(push_unique(xs, ys.first()), ys.drop_first(), e);
        assert(push_unique(xs, ys.first()).contains(e) <==> xs.contains(e) || ys.first() == e) by {
            if xs.contains(e) {
                let i = choose|i: int| 0 <= i < xs.len() && xs[i] == e;
                assert(push_unique(xs, ys.first())[i] == e);
            }
            if !xs.contains(ys.first()) && ys.first() == e {
                assert(push_unique(xs, ys.first()).last() == e);
            }
            if push_unique(xs, ys.first()).contains(e) && !xs.contains(e) && ys.first() != e {
                let i = choose|i: int|
                    0 <= i < push_unique(xs, ys.first()).len() && push_unique(xs, ys.first())[i]
                        == e;
                if !xs.contains(ys.first()) {
                    assert(i < xs.len() + 1);
                    if i < xs.len() {
                        assert(xs[i] == e);
                    }
                }
            }
        }
        assert(ys.contains(e) <==> ys.first() == e || ys.drop_first().contains(e)) by {
            if ys.contains(e) {
                let i = choose|i: int| 0 <= i < ys.len() && ys[i] == e;
                if i > 0 {
                    assert(ys.drop_first()[i - 1] == e);
                }
            }
            if ys.drop_first().contains(e) {
                let i = choose|i: int| 0 <= i < ys.drop_first().len() && ys.drop_first()[i] == e;
                assert(ys[i + 1] == e);
            }
        }
    }
}

proof fn lemma_union_distinct(xs: Seq<Seq<char>>, ys: Seq<Seq<char>>)
    requires
        distinct_descs(xs),
    ensures
        distinct_descs(union_expected(xs, ys)),
    decreases ys.len(),
{
    if ys.len() == 0 {
    } else {
        assert(distinct_descs(push_unique(xs, ys.first()))) by {
            if !xs.contains(ys.first()) {
                let p = xs.push(ys.first());
                assert forall|i: int, j: int| 0 <= i < j < p.len() implies p[i] != p[j] by {
                    if j < xs.len() {
                    } else {
                        assert(p[j] == ys.first());
                        assert(p[i] == xs[i]);
                        assert(!xs.contains(ys.first()));
                    }
                }
            }
        }
        lemma_union_distinct(push_unique(xs, ys.first()), ys.drop_first());
    }
}

/// Merging errors at two different offsets yields the deeper error,
/// whichever order the arguments come in.
pub proof fn lemma_merge_deeper_wins(x: ErrV, y: ErrV)
    requires
        x.state.pos < y.state.pos,
    ensures
        merge_errv(x, y) == y,
        merge_errv(y, x) == y,
{
}

/// Merging two errors at one offset unions their expected sets: the
/// result holds exactly the descriptions of both sides and, when the
/// first side held no duplicates, none at all.
pub proof fn lemma_merge_same_pos(x: ErrV, y: ErrV)
    requires
        x.state.pos == y.state.pos,
    ensures
        forall|e: Seq<char>|
            merge_errv(x, y).expected.contains(e) <==> x.expected.contains(e)
                || y.expected.contains(e),
        distinct_descs(x.expected) ==> distinct_descs(merge_errv(x, y).expected),
{
    assert forall|e: Seq<char>|
        merge_errv(x, y).expected.contains(e) <==> x.expected.contains(e) || y.expected.contains(
            e,
        ) by {
        lemma_union_membership(x.expected, y.expected, e);
    }
    if distinct_descs(x.expected) {
        lemma_union_distinct(x.expected, y.expected);
    }
}

/// The digit character of `d`, for `d` under ten.
pub open spec fn digit_char(d: nat) -> char {
    if d == 0 {
        '0'
    } else if d == 1 {
        '1'
    } else if d == 2 {
        '2'
    } else if d == 3 {
        '3'
    } else if d == 4 {
        '4'
    } else if d == 5 {
        '5'
    } else if d == 6 {
        '6'
    } else if d == 7 {
        '7'
    } else if d == 8 {
        '8'
    } else {
        '9'
    }
}

/// The decimal spelling of `n`.
pub open spec fn dec_digits(n: nat) -> Seq<char>
    decreases n,
{
    if n < 10 {
        seq![digit_char(n)]
    } else {
        dec_digits(n / 10) + seq![digit_char(n % 10)]
    }
}

fn digit_char_exec(d: u64) -> (c: char)
    requires
        d < 10,
    ensures
        c == digit_char(d as nat),
{
    if d == 0 {
        '0'
    } else if d == 1 {
        '1'
    } else if d == 2 {
        '2'
    } else if d == 3 {
        '3'
    } else if d == 4 {
        '4'
    } else if d == 5 {
        '5'
    } else if d == 6 {
        '6'
    } else if d == 7 {
        '7'
    } else if d == 8 {
        '8'
    } else {
        '9'
    }
}

/// The decimal spelling of `n`, as a string.
pub fn u64_to_string(n: u64) -> (r: String)
    ensures
        r@ == dec_digits(n as nat),
    decreases n,
{
    if n < 10 {
        char_to_string(digit_char_exec(n))
    } else {
        let mut s = u64_to_string(n / 10);
        push_char(&mut s, digit_char_exec(n % 10));
        proof {
            assert(s@ =~= dec_digits((n / 10) as nat) + seq![digit_char((n % 10) as nat)]);
        }
        s
    }
}

/// `i` as a count: negative coordinates (the "no position" sentinel)
/// render as zero.
pub open spec fn nat_of(i: int) -> nat {
    if i >= 0 {
        i as nat
    } else {
        0
    }
}

/// The expected descriptions joined for reading: "a", "a or b",
/// "a, b or c" — or "nothing" where no expectation was recorded.
pub open spec fn join_descs(l: Seq<Seq<char>>) -> Seq<char>
    decreases l.len(),
{
    if l.len() == 0 {
        "nothing"@
    } else if l.len() == 1 {
        l[0]
    } else if l.len() == 2 {
        l[0] + " or "@ + l[1]
    } else {
        l[0] + ", "@ + join_descs(l.drop_first())
    }
}

/// How the offending character reads: the character quoted, or "end
/// of input" where the stream had ended.
pub open spec fn received_desc(c: char) -> Seq<char> {
    if c == '\0' {
        "end of input"@
    } else {
        seq!['\'', c, '\'']
    }
}

/// The human-readable report of an error: the source name, the
/// one-based row and column, and either the custom failure message
/// or the joined expectations with the offending character.
pub open spec fn render_err(e: ErrV, fname: Seq<char>) -> Seq<char> {
    let head = fname + seq![':'] + dec_digits(nat_of(e.state.row + 1)) + seq![':'] + dec_digits(
        nat_of(e.state.col + 1),
    ) + ": error: "@;
    match e.failure {
        Some(m) => head + m,
        None => head + "expected "@ + join_descs(e.expected) + " at "@ + received_desc(
            e.received,
        ),
    }
}

fn join_descs_exec(v: &Vec<String>, idx: usize) -> (r: String)
    requires
        idx <= v@.len(),
    ensures
        r@ == join_descs(strs_view(v@).skip(idx as int)),
    decreases v@.len() - idx,
{
    let n = v.len();
    let ghost l = strs_view(v@).skip(idx as int);
    if idx >= n {
        proof {
            assert(l.len() == 0);
        }
        "nothing".to_owned()
    } else if idx + 1 == n {
        proof {
            assert(l[0] == v@[idx as int]@);
        }
        v[idx].clone()
    } else if idx + 2 == n {
        let mut s = v[idx].clone();
        s.append(" or ");
        s.append(v[idx + 1].as_str());
        proof {
            assert(l[0] == v@[idx as int]@);
            assert(l[1] == v@[idx + 1]@);
            assert(s@ =~= l[0] + " or "@ + l[1]);
        }
        s
    } else {
        let mut s = v[idx].clone();
        s.append(", ");
        let rest = join_descs_exec(v, idx + 1);
        s.append(rest.as_str());
        proof {
            assert(l[0] == v@[idx as int]@);
            assert(l.drop_first() =~= strs_view(v@).skip(idx + 1));
            assert(s@ =~= l[0] + ", "@ + join_descs(l.drop_first()));
        }
        s
    }
}

/// Render `e` as its human-readable report; see [`render_err`].
pub fn mpc_err_string(e: &ParseErr) -> (r: String)
    requires
        e.wf(),
    ensures
        r@ == render_err(e@, e.filename@),
{
    let mut out = e.filename.clone();
    push_char(&mut out, ':');
    let row1: u64 = if e.state.row >= 0 {
        (e.state.row + 1) as u64
    } else {
        0
    };
    let rs = u64_to_string(row1);
    out.append(rs.as_str());
    push_char(&mut out, ':');
    let col1: u64 = if e.state.col >= 0 {
        (e.state.col + 1) as u64
    } else {
        0
    };
    let cs = u64_to_string(col1);
    out.append(cs.as_str());
    out.append(": error: ");
    let ghost head = e.filename@ + seq![':'] + dec_digits(nat_of(e.state.row + 1)) + seq![':']
        + dec_digits(nat_of(e.state.col + 1)) + ": error: "@;
    proof {
        assert(out@ =~= head);
    }
    match &e.failure {
        Some(m) => {
            out.append(m.as_str());
            proof {
                assert(out@ =~= render_err(e@, e.filename@));
            }
            out
        },
        None => {
            out.append("expected ");
            let joined = join_descs_exec(&e.expected, 0);
            out.append(joined.as_str());
            out.append(" at ");
            if e.received == '\0' {
                out.append("end of input");
            } else {
                push_char(&mut out, '\'');
                push_char(&mut out, e.received);
                push_char(&mut out, '\'');
            }
            proof {
                assert(strs_view(e.expected@).skip(0) =~= strs_view(e.expected@));
                assert(out@ =~= render_err(e@, e.filename@));
            }
            out
        },
    }
}

/// Release an error.
pub fn mpc_err_delete(e: ParseErr)
{
    let _ = e;
}

} // verus!
