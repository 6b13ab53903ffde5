//! Combinator nodes.
//!
//! A [`Parser`] is a tagged variant standing for one parser: a
//! primitive matcher, a unary wrapper, an n-ary combinator, or a named
//! reference.  Nodes own their children exclusively; a recursive
//! grammar refers to other rules through [`Parser::Named`] links,
//! resolved at evaluation time in a [`DefTable`], so the node graph
//! itself stays a tree and ownership stays simple.
//!
//! Every constructor states the exact node it builds, over the
//! mathematical mirror [`SpecParser`] of the node type.

use vstd::prelude::*;

use crate::chars::CharClass;
use crate::chars::is_alnum_char;
use crate::val::ApplyKind;
use crate::val::ApplyToKind;
use crate::val::CheckKind;
use crate::val::CheckWithKind;
use crate::val::CtorKind;
use crate::val::Fold;
use crate::val::SpecVal;
use crate::val::Val;
use crate::val::val_clone;

verus! {

broadcast use vstd::seq::group_seq_axioms;

/// A boundary test: a predicate over the character consumed last and
/// the character ahead, matched without consuming anything.
#[derive(Clone, Copy, PartialEq, Eq, Structural, Debug)]
pub enum AnchorTest {
    /// Nothing has been consumed yet.
    StartOfInput,
    /// No character is ahead.
    EndOfInput,
    /// Exactly one side of the boundary is alphanumeric.
    WordBoundary,
    /// The character consumed last was a newline.
    LineStart,
}

/// Whether the boundary test `t` holds between the character consumed
/// last (`prev`, `'\0'` at the very start) and the character ahead
/// (`next`, `'\0'` at the end of the stream).
pub open spec fn anchor_matches(t: AnchorTest, prev: char, next: char) -> bool {
    match t {
        AnchorTest::StartOfInput => prev == '\0',
        AnchorTest::EndOfInput => next == '\0',
        AnchorTest::WordBoundary => is_alnum_char(prev) != is_alnum_char(next),
        AnchorTest::LineStart => prev == '\n',
    }
}

/// Run the boundary test `t`.
pub fn anchor_test(t: AnchorTest, prev: char, next: char) -> (r: bool)
    ensures
        r == anchor_matches(t, prev, next),
{
    match t {
        AnchorTest::StartOfInput => prev == '\0',
        AnchorTest::EndOfInput => next == '\0',
        AnchorTest::WordBoundary => {
            let p = crate::chars::class_test(CharClass::AlphaNum, prev);
            let n = crate::chars::class_test(CharClass::AlphaNum, next);
            p != n
        },
        AnchorTest::LineStart => prev == '\n',
    }
}

/// One combinator node.  `Or` and `And` own their alternatives and
/// parts in order; `Named` is a non-owning reference resolved in a
/// [`DefTable`].
pub enum Parser {
    /// Any single character.
    Any,
    /// One given character.
    CharEq(char),
    /// One character in an inclusive range.
    CharRange(char, char),
    /// One character out of a set.
    OneOf(String),
    /// One character not in a set.
    NoneOf(String),
    /// One character of a named class.
    Satisfy(CharClass),
    /// A literal string, all or nothing.
    StrLit(String),
    /// Succeed, consume nothing, yield nothing.
    Pass,
    /// Fail with a custom message.
    FailWith(String),
    /// Succeed, consume nothing, yield a constructed value.
    Lift(CtorKind),
    /// Succeed, consume nothing, yield a copy of a fixed value.
    LiftVal(Box<Val>),
    /// A boundary test; consumes nothing.
    Anchor(AnchorTest),
    /// Succeed, consume nothing, yield the position reached.
    StateGet,
    /// Evaluate the child; on failure replace the expected set with one
    /// label.
    Expect(Box<Parser>, String),
    /// Evaluate the child, then rewrite its value.
    Apply(Box<Parser>, ApplyKind),
    /// Evaluate the child, then rewrite its value with a companion.
    ApplyTo(Box<Parser>, ApplyToKind, Box<Val>),
    /// Evaluate the child, then fail under the label unless the value
    /// passes the check.
    Check(Box<Parser>, CheckKind, String),
    /// As `Check`, with a companion value.
    CheckWith(Box<Parser>, CheckWithKind, Box<Val>, String),
    /// Negative lookahead: succeed with a constructed value where the
    /// child fails; never consume.
    Not(Box<Parser>, CtorKind),
    /// Optional: the child's value, or a constructed default where it
    /// fails without consuming.
    Maybe(Box<Parser>, CtorKind),
    /// Zero or more of the child, folded.
    Many(Fold, Box<Parser>),
    /// One or more of the child, folded.
    Many1(Fold, Box<Parser>),
    /// Exactly `n` of the child, folded.
    Count(u64, Fold, Box<Parser>),
    /// Evaluate the child with backtracking disabled.
    Predictive(Box<Parser>),
    /// Ordered alternatives: the first success wins.
    Or(Vec<Parser>),
    /// A sequence, its values folded.
    And(Fold, Vec<Parser>),
    /// A reference to a rule by name.
    Named(String),
}

/// The mathematical mirror of [`Parser`].
pub enum SpecParser {
    Any,
    CharEq(char),
    CharRange(char, char),
    OneOf(Seq<char>),
    NoneOf(Seq<char>),
    Satisfy(CharClass),
    StrLit(Seq<char>),
    Pass,
    FailWith(Seq<char>),
    Lift(CtorKind),
    LiftVal(SpecVal),
    Anchor(AnchorTest),
    StateGet,
    Expect(Box<SpecParser>, Seq<char>),
    Apply(Box<SpecParser>, ApplyKind),
    ApplyTo(Box<SpecParser>, ApplyToKind, SpecVal),
    Check(Box<SpecParser>, CheckKind, Seq<char>),
    CheckWith(Box<SpecParser>, CheckWithKind, SpecVal, Seq<char>),
    Not(Box<SpecParser>, CtorKind),
    Maybe(Box<SpecParser>, CtorKind),
    Many(Fold, Box<SpecParser>),
    Many1(Fold, Box<SpecParser>),
    Count(u64, Fold, Box<SpecParser>),
    Predictive(Box<SpecParser>),
    Or(Seq<SpecParser>),
    And(Fold, Seq<SpecParser>),
    Named(Seq<char>),
}

/// The mathematical mirror of a node.
pub open spec fn parser_view(p: Parser) -> SpecParser
    decreases p,
{
    match p {
        Parser::Any => SpecParser::Any,
        Parser::CharEq(c) => SpecParser::CharEq(c),
        Parser::CharRange(a, b) => SpecParser::CharRange(a, b),
        Parser::OneOf(s) => SpecParser::OneOf(s@),
        Parser::NoneOf(s) => SpecParser::NoneOf(s@),
        Parser::Satisfy(k) => SpecParser::Satisfy(k),
        Parser::StrLit(s) => SpecParser::StrLit(s@),
        Parser::Pass => SpecParser::Pass,
        Parser::FailWith(m) => SpecParser::FailWith(m@),
        Parser::Lift(k) => SpecParser::Lift(k),
        Parser::LiftVal(v) => SpecParser::LiftVal(v@),
        Parser::Anchor(t) => SpecParser::Anchor(t),
        Parser::StateGet => SpecParser::StateGet,
        Parser::Expect(a, e) => SpecParser::Expect(Box::new(parser_view(*a)), e@),
        Parser::Apply(a, k) => SpecParser::Apply(Box::new(parser_view(*a)), k),
        Parser::ApplyTo(a, k, x) => SpecParser::ApplyTo(Box::new(parser_view(*a)), k, x@),
        Parser::Check(a, k, e) => SpecParser::Check(Box::new(parser_view(*a)), k, e@),
        Parser::CheckWith(a, k, x, e) => SpecParser::CheckWith(
            Box::new(parser_view(*a)),
            k,
            x@,
            e@,
        ),
        Parser::Not(a, k) => SpecParser::Not(Box::new(parser_view(*a)), k),
        Parser::Maybe(a, k) => SpecParser::Maybe(Box::new(parser_view(*a)), k),
        Parser::Many(f, a) => SpecParser::Many(f, Box::new(parser_view(*a))),
        Parser::Many1(f, a) => SpecParser::Many1(f, Box::new(parser_view(*a))),
        Parser::Count(n, f, a) => SpecParser::Count(n, f, Box::new(parser_view(*a))),
        Parser::Predictive(a) => SpecParser::Predictive(Box::new(parser_view(*a))),
        Parser::Or(l) => SpecParser::Or(parsers_view(l@)),
        Parser::And(f, l) => SpecParser::And(f, parsers_view(l@)),
        Parser::Named(n) => SpecParser::Named(n@),
    }
}

/// The mathematical mirrors of a list of nodes.
pub open spec fn parsers_view(l: Seq<Parser>) -> Seq<SpecParser>
    decreases l,
{
    Seq::new(
        l.len(),
        |i: int|
            if 0 <= i < l.len() {
                parser_view(l[i])
            } else {
                SpecParser::Pass
            },
    )
}

impl View for Parser {
    type V = SpecParser;

    open spec fn view(&self) -> SpecParser {
        parser_view(*self)
    }
}

/// A deep copy of a node.
pub fn parser_clone(p: &Parser) -> (r: Parser)
    ensures
        r@ == p@,
    decreases *p,
{
    match p {
        Parser::Any => Parser::Any,
        Parser::CharEq(c) => Parser::CharEq(*c),
        Parser::CharRange(a, b) => Parser::CharRange(*a, *b),
        Parser::OneOf(s) => Parser::OneOf(s.clone()),
        Parser::NoneOf(s) => Parser::NoneOf(s.clone()),
        Parser::Satisfy(k) => Parser::Satisfy(*k),
        Parser::StrLit(s) => Parser::StrLit(s.clone()),
        Parser::Pass => Parser::Pass,
        Parser::FailWith(m) => Parser::FailWith(m.clone()),
        Parser::Lift(k) => Parser::Lift(*k),
        Parser::LiftVal(v) => Parser::LiftVal(Box::new(val_clone(v))),
        Parser::Anchor(t) => Parser::Anchor(*t),
        Parser::StateGet => Parser::StateGet,
        Parser::Expect(a, e) => Parser::Expect(Box::new(parser_clone(a)), e.clone()),
        Parser::Apply(a, k) => Parser::Apply(Box::new(parser_clone(a)), *k),
        Parser::ApplyTo(a, k, x) => Parser::ApplyTo(
            Box::new(parser_clone(a)),
            *k,
            Box::new(val_clone(x)),
        ),
        Parser::Check(a, k, e) => Parser::Check(Box::new(parser_clone(a)), *k, e.clone()),
        Parser::CheckWith(a, k, x, e) => Parser::CheckWith(
            Box::new(parser_clone(a)),
            *k,
            Box::new(val_clone(x)),
            e.clone(),
        ),
        Parser::Not(a, k) => Parser::Not(Box::new(parser_clone(a)), *k),
        Parser::Maybe(a, k) => Parser::Maybe(Box::new(parser_clone(a)), *k),
        Parser::Many(f, a) => Parser::Many(*f, Box::new(parser_clone(a))),
        Parser::Many1(f, a) => Parser::Many1(*f, Box::new(parser_clone(a))),
        Parser::Count(n, f, a) => Parser::Count(*n, *f, Box::new(parser_clone(a))),
        Parser::Predictive(a) => Parser::Predictive(Box::new(parser_clone(a))),
        Parser::Or(l) => {
            let mut out: Vec<Parser> = Vec::new();
            let mut i: usize = 0;
            while i < l.len()
                invariant
                    *p == Parser::Or(*l),
                    0 <= i <= l@.len(),
                    out@.len() == i,
                    forall|j: int| 0 <= j < i ==> parser_view(#[trigger] out@[j]) == parser_view(
                        l@[j],
                    ),
                decreases l@.len() - i,
            {
                proof {
                    assert(decreases_to!(*p => p->Or_0));
                    assert(p->Or_0 == *l);
                    assert(decreases_to!(*l => l@));
                    assert(decreases_to!(l@ => l@[i as int]));
                }
                let c = parser_clone(&l[i]);
                out.push(c);
                i = i + 1;
            }
            proof {
                assert(parsers_view(out@) =~= parsers_view(l@));
            }
            Parser::Or(out)
        },
        Parser::And(f, l) => {
            let mut out: Vec<Parser> = Vec::new();
            let mut i: usize = 0;
            while i < l.len()
                invariant
                    *p == Parser::And(*f, *l),
                    0 <= i <= l@.len(),
                    out@.len() == i,
                    forall|j: int| 0 <= j < i ==> parser_view(#[trigger] out@[j]) == parser_view(
                        l@[j],
                    ),
                decreases l@.len() - i,
            {
                proof {
                    assert(decreases_to!(*p => p->And_1));
                    assert(p->And_1 == *l);
                    assert(decreases_to!(*l => l@));
                    assert(decreases_to!(l@ => l@[i as int]));
                }
                let c = parser_clone(&l[i]);
                out.push(c);
                i = i + 1;
            }
            proof {
                assert(parsers_view(out@) =~= parsers_view(l@));
            }
            Parser::And(*f, out)
        },
        Parser::Named(n) => Parser::Named(n.clone()),
    }
}

/// The rule table a grammar's named references resolve in: rule names
/// mapped to their nodes, the earliest definition of a name winning.
pub struct DefTable {
    pub defs: Vec<(String, Parser)>,
}

/// The mathematical mirror of a rule table.
pub open spec fn defs_view(l: Seq<(String, Parser)>) -> Seq<(Seq<char>, SpecParser)> {
    Seq::new(
        l.len(),
        |i: int|
            if 0 <= i < l.len() {
                (l[i].0@, parser_view(l[i].1))
            } else {
                (Seq::empty(), SpecParser::Pass)
            },
    )
}

/// The node defined under `name`, if any: the earliest entry wins.
pub open spec fn lookup_def(d: Seq<(Seq<char>, SpecParser)>, name: Seq<char>) -> Option<SpecParser>
    decreases d.len(),
{
    if d.len() == 0 {
        None
    } else if d.first().0 == name {
        Some(d.first().1)
    } else {
        lookup_def(d.drop_first(), name)
    }
}

impl View for DefTable {
    type V = Seq<(Seq<char>, SpecParser)>;

    open spec fn view(&self) -> Seq<(Seq<char>, SpecParser)> {
        defs_view(self.defs@)
    }
}

impl DefTable {
    /// An empty rule table.
    pub fn new() -> (d: DefTable)
        ensures
            d@ == Seq::<(Seq<char>, SpecParser)>::empty(),
    {
        let d = DefTable { defs: Vec::new() };
        proof {
            assert(d@ =~= Seq::<(Seq<char>, SpecParser)>::empty());
        }
        d
    }

    /// The node defined under `name`, if any.
    pub fn get(&self, name: &str) -> (r: Option<&Parser>)
        ensures
            match r {
                Some(p) => lookup_def(self@, name@) == Some(p@),
                None => lookup_def(self@, name@) is None,
            },
    {
        let n = self.defs.len();
        let mut i: usize = 0;
        let key = name.to_owned();
        proof {
            assert(self@.skip(0) =~= self@);
        }
        while i < n
            invariant
                n == self.defs@.len(),
                0 <= i <= n,
                key@ == name@,
                lookup_def(self@, name@) == lookup_def(self@.skip(i as int), name@),
            decreases n - i,
        {
            proof {
                assert(self@.skip(i as int).first() == self@[i as int]);
                assert(self@[i as int].0 == self.defs@[i as int].0@);
            }
            if self.defs[i].0.eq(&key) {
                return Some(&self.defs[i].1);
            }
            proof {
                assert(self@.skip(i as int).drop_first() =~= self@.skip(i + 1));
            }
            i = i + 1;
        }
        proof {
            assert(self@.skip(n as int).len() == 0);
        }
        None
    }

    /// Whether `name` is defined.
    pub fn contains(&self, name: &str) -> (r: bool)
        ensures
            r == (lookup_def(self@, name@) is Some),
    {
        self.get(name).is_some()
    }
}

/// Match any single character.
pub fn mpc_any() -> (p: Parser)
    ensures
        p@ == SpecParser::Any,
{
    Parser::Any
}

/// Match the character `c`.
pub fn mpc_char(c: char) -> (p: Parser)
    ensures
        p@ == SpecParser::CharEq(c),
{
    Parser::CharEq(c)
}

/// Match one character between `s` and `e` inclusive.
pub fn mpc_range(s: char, e: char) -> (p: Parser)
    ensures
        p@ == SpecParser::CharRange(s, e),
{
    Parser::CharRange(s, e)
}

/// Match one character out of `s`.
pub fn mpc_oneof(s: &str) -> (p: Parser)
    ensures
        p@ == SpecParser::OneOf(s@),
{
    Parser::OneOf(s.to_owned())
}

/// Match one character not in `s`.
pub fn mpc_noneof(s: &str) -> (p: Parser)
    ensures
        p@ == SpecParser::NoneOf(s@),
{
    Parser::NoneOf(s.to_owned())
}

/// Match one character of the class `k`.
pub fn mpc_satisfy(k: CharClass) -> (p: Parser)
    ensures
        p@ == SpecParser::Satisfy(k),
{
    Parser::Satisfy(k)
}

/// Match the literal string `s`, all or nothing.
pub fn mpc_string(s: &str) -> (p: Parser)
    ensures
        p@ == SpecParser::StrLit(s@),
{
    Parser::StrLit(s.to_owned())
}

/// Succeed, consuming nothing and yielding nothing.
pub fn mpc_pass() -> (p: Parser)
    ensures
        p@ == SpecParser::Pass,
{
    Parser::Pass
}

/// Fail with the custom message `m`.
pub fn mpc_fail(m: &str) -> (p: Parser)
    ensures
        p@ == SpecParser::FailWith(m@),
{
    Parser::FailWith(m.to_owned())
}

/// Fail with the pre-formatted custom message `m`.
pub fn mpc_failf(m: String) -> (p: Parser)
    ensures
        p@ == SpecParser::FailWith(m@),
{
    Parser::FailWith(m)
}

/// Succeed with the value the named constructor yields.
pub fn mpc_lift(k: CtorKind) -> (p: Parser)
    ensures
        p@ == SpecParser::Lift(k),
{
    Parser::Lift(k)
}

/// Succeed with a copy of `x`.
pub fn mpc_lift_val(x: Val) -> (p: Parser)
    ensures
        p@ == SpecParser::LiftVal(x@),
{
    Parser::LiftVal(Box::new(x))
}

/// Match the boundary test `t`, consuming nothing.
pub fn mpc_anchor(t: AnchorTest) -> (p: Parser)
    ensures
        p@ == SpecParser::Anchor(t),
{
    Parser::Anchor(t)
}

/// Succeed with the position reached, consuming nothing.
pub fn mpc_state() -> (p: Parser)
    ensures
        p@ == SpecParser::StateGet,
{
    Parser::StateGet
}

/// On failure of `a`, report the single expectation `e` instead of
/// `a`'s own.
pub fn mpc_expect(a: Parser, e: &str) -> (p: Parser)
    ensures
        p@ == SpecParser::Expect(Box::new(a@), e@),
{
    Parser::Expect(Box::new(a), e.to_owned())
}

/// As [`mpc_expect`], with a pre-formatted label.
pub fn mpc_expectf(a: Parser, e: String) -> (p: Parser)
    ensures
        p@ == SpecParser::Expect(Box::new(a@), e@),
{
    Parser::Expect(Box::new(a), e)
}

/// Rewrite `a`'s value with the named apply `f`.
pub fn mpc_apply(a: Parser, f: ApplyKind) -> (p: Parser)
    ensures
        p@ == SpecParser::Apply(Box::new(a@), f),
{
    Parser::Apply(Box::new(a), f)
}

/// Rewrite `a`'s value with the named two-place apply `f` and the
/// companion `x`.
pub fn mpc_apply_to(a: Parser, f: ApplyToKind, x: Val) -> (p: Parser)
    ensures
        p@ == SpecParser::ApplyTo(Box::new(a@), f, x@),
{
    Parser::ApplyTo(Box::new(a), f, Box::new(x))
}

/// Fail under the label `e` unless `a`'s value passes the named check
/// `f`.
pub fn mpc_check(a: Parser, f: CheckKind, e: &str) -> (p: Parser)
    ensures
        p@ == SpecParser::Check(Box::new(a@), f, e@),
{
    Parser::Check(Box::new(a), f, e.to_owned())
}

/// As [`mpc_check`], against the companion `x`.
pub fn mpc_check_with(a: Parser, f: CheckWithKind, x: Val, e: &str) -> (p: Parser)
    ensures
        p@ == SpecParser::CheckWith(Box::new(a@), f, x@, e@),
{
    Parser::CheckWith(Box::new(a), f, Box::new(x), e.to_owned())
}

/// As [`mpc_check`], with a pre-formatted label.
pub fn mpc_checkf(a: Parser, f: CheckKind, e: String) -> (p: Parser)
    ensures
        p@ == SpecParser::Check(Box::new(a@), f, e@),
{
    Parser::Check(Box::new(a), f, e)
}

/// As [`mpc_check_with`], with a pre-formatted label.
pub fn mpc_check_withf(a: Parser, f: CheckWithKind, x: Val, e: String) -> (p: Parser)
    ensures
        p@ == SpecParser::CheckWith(Box::new(a@), f, x@, e@),
{
    Parser::CheckWith(Box::new(a), f, Box::new(x), e)
}

/// Negative lookahead: succeed, yielding nothing, where `a` fails;
/// never consume.
pub fn mpc_not(a: Parser) -> (p: Parser)
    ensures
        p@ == SpecParser::Not(Box::new(a@), CtorKind::Null),
{
    Parser::Not(Box::new(a), CtorKind::Null)
}

/// Negative lookahead yielding the named constructor's value.
pub fn mpc_not_lift(a: Parser, lf: CtorKind) -> (p: Parser)
    ensures
        p@ == SpecParser::Not(Box::new(a@), lf),
{
    Parser::Not(Box::new(a), lf)
}

/// Optional: `a`'s value, or nothing where `a` fails without
/// consuming.
pub fn mpc_maybe(a: Parser) -> (p: Parser)
    ensures
        p@ == SpecParser::Maybe(Box::new(a@), CtorKind::Null),
{
    Parser::Maybe(Box::new(a), CtorKind::Null)
}

/// Optional with a constructed default.
pub fn mpc_maybe_lift(a: Parser, lf: CtorKind) -> (p: Parser)
    ensures
        p@ == SpecParser::Maybe(Box::new(a@), lf),
{
    Parser::Maybe(Box::new(a), lf)
}

/// Zero or more of `a`, folded with `f`.
pub fn mpc_many(f: Fold, a: Parser) -> (p: Parser)
    ensures
        p@ == SpecParser::Many(f, Box::new(a@)),
{
    Parser::Many(f, Box::new(a))
}

/// One or more of `a`, folded with `f`.
pub fn mpc_many1(f: Fold, a: Parser) -> (p: Parser)
    ensures
        p@ == SpecParser::Many1(f, Box::new(a@)),
{
    Parser::Many1(f, Box::new(a))
}

/// Exactly `n` of `a`, folded with `f`.
pub fn mpc_count(n: u64, f: Fold, a: Parser) -> (p: Parser)
    ensures
        p@ == SpecParser::Count(n, f, Box::new(a@)),
{
    Parser::Count(n, f, Box::new(a))
}

/// The ordered alternatives `alts`: the first success wins.
pub fn mpc_or(alts: Vec<Parser>) -> (p: Parser)
    ensures
        p@ == SpecParser::Or(parsers_view(alts@)),
{
    Parser::Or(alts)
}

/// The sequence `parts`, their values folded with `f`.
pub fn mpc_and(f: Fold, parts: Vec<Parser>) -> (p: Parser)
    ensures
        p@ == SpecParser::And(f, parsers_view(parts@)),
{
    Parser::And(f, parts)
}

/// Evaluate `a` with backtracking disabled: a performance escape hatch
/// for a parser known to need no lookahead.
pub fn mpc_predictive(a: Parser) -> (p: Parser)
    ensures
        p@ == SpecParser::Predictive(Box::new(a@)),
{
    Parser::Predictive(Box::new(a))
}

/// A reference to the rule `name`, to be resolved in a [`DefTable`]
/// when evaluated.  The rule may be defined later, through
/// [`mpc_define`]; a reference that is still undefined when evaluated
/// reports an error.
pub fn mpc_new(name: &str) -> (p: Parser)
    ensures
        p@ == SpecParser::Named(name@),
{
    Parser::Named(name.to_owned())
}

/// A deep copy of `a`.
pub fn mpc_copy(a: &Parser) -> (p: Parser)
    ensures
        p@ == a@,
{
    parser_clone(a)
}

/// Define the rule `name` as `a` in `d`.  A fresh definition shadows
/// any earlier one.
pub fn mpc_define(d: &mut DefTable, name: &str, a: Parser)
    ensures
        final(d)@ == seq![(name@, a@)] + old(d)@,
        lookup_def(final(d)@, name@) == Some(a@),
{
    let ghost before = d@;
    d.defs.insert(0, (name.to_owned(), a));
    proof {
        assert(d@ =~= seq![(name@, parser_view(d.defs@[0].1))] + before);
        assert(d@.first() == (name@, parser_view(d.defs@[0].1)));
    }
}

/// Remove every definition of `name` from `d`; every other name
/// keeps exactly the definition it had.
pub fn mpc_undefine(d: &mut DefTable, name: &str)
    ensures
        lookup_def(final(d)@, name@) is None,
        final(d)@.len() <= old(d)@.len(),
        forall|m: Seq<char>|
            m != name@ ==> #[trigger] lookup_def(final(d)@, m) == lookup_def(old(d)@, m),
{
    let mut kept: Vec<(String, Parser)> = Vec::new();
    let key = name.to_owned();
    loop
        invariant
            key@ == name@,
            lookup_def(defs_view(kept@), name@) is None,
            kept@.len() + d.defs@.len() <= old(d)@.len(),
            forall|m: Seq<char>|
                m != name@ ==> #[trigger] lookup_def(defs_view(kept@) + defs_view(d.defs@), m)
                    == lookup_def(old(d)@, m),
        ensures
            d.defs@.len() == 0,
        decreases d.defs@.len(),
    {
        if d.defs.len() == 0 {
            break ;
        }
        let ghost pre = defs_view(kept@);
        let ghost rem_pre = defs_view(d.defs@);
        let (n, p) = d.defs.remove(0);
        let ghost gn = n@;
        let ghost gp = parser_view(p);
        proof {
            assert(rem_pre =~= seq![(gn, gp)] + defs_view(d.defs@));
        }
        if !n.eq(&key) {
            kept.push((n, p));
            proof {
                lemma_lookup_snoc(pre, gn, gp, name@);
                assert(defs_view(kept@) =~= pre.push((gn, gp)));
                assert forall|m: Seq<char>| m != name@ implies #[trigger] lookup_def(
                    defs_view(kept@) + defs_view(d.defs@),
                    m,
                ) == lookup_def(old(d)@, m) by {
                    assert(defs_view(kept@) + defs_view(d.defs@) =~= pre + (seq![(gn, gp)]
                        + defs_view(d.defs@)));
                    assert(lookup_def(pre + rem_pre, m) == lookup_def(old(d)@, m));
                }
            }
        } else {
            proof {
                assert forall|m: Seq<char>| m != name@ implies #[trigger] lookup_def(
                    defs_view(kept@) + defs_view(d.defs@),
                    m,
                ) == lookup_def(old(d)@, m) by {
                    lemma_lookup_concat(pre, seq![(gn, gp)] + defs_view(d.defs@), m);
                    lemma_lookup_concat(pre, defs_view(d.defs@), m);
                    assert((seq![(gn, gp)] + defs_view(d.defs@)).first() == (gn, gp));
                    assert((seq![(gn, gp)] + defs_view(d.defs@)).drop_first() =~= defs_view(
                        d.defs@,
                    ));
                    assert(lookup_def(pre + rem_pre, m) == lookup_def(old(d)@, m));
                    assert(pre + rem_pre =~= pre + (seq![(gn, gp)] + defs_view(d.defs@)));
                }
            }
        }
    }
    proof {
        assert(defs_view(d.defs@).len() == 0);
        assert forall|m: Seq<char>| m != name@ implies #[trigger] lookup_def(
            defs_view(kept@),
            m,
        ) == lookup_def(old(d)@, m) by {
            assert(defs_view(kept@) + defs_view(d.defs@) =~= defs_view(kept@));
        }
    }
    d.defs = kept;
}

proof fn lemma_lookup_concat(a: Seq<(Seq<char>, SpecParser)>, b: Seq<(Seq<char>, SpecParser)>, m: Seq<char>)
    ensures
        lookup_def(a + b, m) == (if lookup_def(a, m) is Some {
            lookup_def(a, m)
        } else {
            lookup_def(b, m)
        }),
    decreases a.len(),
{
    if a.len() == 0 {
        assert(a + b =~= b);
    } else {
        assert((a + b).first() == a.first());
        assert((a + b).drop_first() =~= a.drop_first() + b);
        lemma_lookup_concat(a.drop_first(), b, m);
    }
}

/// Release a parser; the nodes it owns go with it.
pub fn mpc_delete(p: Parser)
{
    let _ = p;
}

/// Release a whole rule table and every parser defined in it.
pub fn mpc_cleanup(d: DefTable)
{
    let _ = d;
}

proof fn lemma_lookup_snoc(
    d: Seq<(Seq<char>, SpecParser)>,
    n: Seq<char>,
    p: SpecParser,
    name: Seq<char>,
)
    requires
        n != name,
        lookup_def(d, name) is None,
    ensures
        lookup_def(d.push((n, p)), name) is None,
    decreases d.len(),
{
    if d.len() == 0 {
        assert(d.push((n, p)).first() == (n, p));
        assert(d.push((n, p)).drop_first() =~= Seq::<(Seq<char>, SpecParser)>::empty());
    } else {
        assert(d.push((n, p)).first() == d.first());
        assert(d.push((n, p)).drop_first() =~= d.drop_first().push((n, p)));
        lemma_lookup_snoc(d.drop_first(), n, p, name);
    }
}

} // verus!
