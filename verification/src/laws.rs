//! Proved laws of the evaluation engine.
//!
//! Each law is a public proof about [`eval_spec`], the engine's
//! mathematical semantics; [`crate::eval::eval`] is proved to follow
//! that semantics, so every law carries over to the executable
//! matcher.  The merge laws for errors stand beside the merge itself,
//! in [`crate::err`].

use vstd::prelude::*;

use crate::err::ErrV;
use crate::eval::EvalOut;
use crate::eval::eval_many;
use crate::eval::eval_spec;
use crate::parser::SpecParser;
use crate::state::Cursor;
use crate::val::Fold;
use crate::val::SpecVal;
use crate::val::fold_spec;

verus! {

/// Backtracking integrity: with backtracking active, a failed
/// alternation leaves the cursor exactly where it began, however far
/// its alternatives consumed before failing.
pub proof fn lemma_or_backtracking(
    d: Seq<(Seq<char>, SpecParser)>,
    l: Seq<SpecParser>,
    s: Seq<char>,
    cur: Cursor,
    fuel: nat,
    e: ErrV,
    cur2: Cursor,
)
    requires
        eval_spec(d, SpecParser::Or(l), s, cur, true, fuel) == (EvalOut::Fail { e, cur: cur2 }),
    ensures
        cur2 == cur,
{
    let r = crate::eval::eval_or(d, l, s, cur, cur, true, fuel, None);
    match r {
        EvalOut::Match { v, cur: c1 } => {},
        EvalOut::Fail { e: e1, cur: c1 } => {},
        EvalOut::NoFuel => {},
    }
}

/// A failed sequence likewise restores the cursor while backtracking
/// is active: the first hard failure of a part is reported, but no
/// partial consumption leaks out.
pub proof fn lemma_and_backtracking(
    d: Seq<(Seq<char>, SpecParser)>,
    f: Fold,
    l: Seq<SpecParser>,
    s: Seq<char>,
    cur: Cursor,
    fuel: nat,
    e: ErrV,
    cur2: Cursor,
)
    requires
        eval_spec(d, SpecParser::And(f, l), s, cur, true, fuel) == (EvalOut::Fail {
            e,
            cur: cur2,
        }),
    ensures
        cur2 == cur,
{
    let r = crate::eval::eval_and(d, f, l, s, cur, true, fuel, Seq::empty());
    match r {
        EvalOut::Match { v, cur: c1 } => {},
        EvalOut::Fail { e: e1, cur: c1 } => {},
        EvalOut::NoFuel => {},
    }
}


/// A failed alternative leaves no consumption behind for its
/// sibling: with backtracking active, whatever the first alternative
/// consumed before failing, the second is attempted from the
/// alternation's own start, and its success is the alternation's.
pub proof fn lemma_or_retries_from_mark(
    d: Seq<(Seq<char>, SpecParser)>,
    a: SpecParser,
    b: SpecParser,
    s: Seq<char>,
    cur: Cursor,
    fuel: nat,
    e1: ErrV,
    cur1: Cursor,
    v: SpecVal,
    cur2: Cursor,
)
    requires
        eval_spec(d, a, s, cur, true, fuel) == (EvalOut::Fail { e: e1, cur: cur1 }),
        eval_spec(d, b, s, cur, true, fuel) == (EvalOut::Match { v, cur: cur2 }),
    ensures
        eval_spec(d, SpecParser::Or(seq![a, b]), s, cur, true, fuel) == (EvalOut::Match {
            v,
            cur: cur2,
        }),
{
    let l = seq![a, b];
    assert(l.first() == a);
    assert(l.drop_first() =~= seq![b]);
    assert(seq![b].first() == b);
    assert(crate::eval::eval_or(d, seq![b], s, cur, cur1, true, fuel, Some(e1))
        == (EvalOut::Match { v, cur: cur2 }));
    assert(crate::eval::eval_or(d, l, s, cur, cur, true, fuel, None) == (EvalOut::Match {
        v,
        cur: cur2,
    }));
}

/// Repetition over a parser that fails without consuming ends at
/// once: the repetition succeeds with the fold of an empty
/// collection, and the cursor stays where the failure left it — the
/// position it started at.
pub proof fn lemma_many_stops_on_empty_failure(
    d: Seq<(Seq<char>, SpecParser)>,
    f: Fold,
    a: SpecParser,
    s: Seq<char>,
    cur: Cursor,
    bt: bool,
    fuel: nat,
    e: ErrV,
    cur1: Cursor,
)
    requires
        eval_spec(d, a, s, cur, bt, fuel) == (EvalOut::Fail { e, cur: cur1 }),
        cur1.st.pos == cur.st.pos,
    ensures
        eval_spec(d, SpecParser::Many(f, Box::new(a)), s, cur, bt, fuel) == (EvalOut::Match {
            v: fold_spec(f, Seq::<SpecVal>::empty()),
            cur: cur1,
        }),
{
    assert(eval_many(d, f, a, s, cur, bt, fuel, Seq::empty()) == (EvalOut::Match {
        v: fold_spec(f, Seq::<SpecVal>::empty()),
        cur: cur1,
    }));
}

/// One-or-more repetition over the same failing parser fails, and
/// passes that first failure on unchanged.
pub proof fn lemma_many1_needs_one(
    d: Seq<(Seq<char>, SpecParser)>,
    f: Fold,
    a: SpecParser,
    s: Seq<char>,
    cur: Cursor,
    bt: bool,
    fuel: nat,
    e: ErrV,
    cur1: Cursor,
)
    requires
        eval_spec(d, a, s, cur, bt, fuel) == (EvalOut::Fail { e, cur: cur1 }),
    ensures
        eval_spec(d, SpecParser::Many1(f, Box::new(a)), s, cur, bt, fuel) == (EvalOut::Fail {
            e,
            cur: cur1,
        }),
{
}

} // verus!
