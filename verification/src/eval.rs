//! The evaluation engine.
//!
//! [`eval_spec`] is the mathematical semantics of the combinators: a
//! pure, recursive function from a rule table, a node, a stream, a
//! cursor, a backtracking flag and a recursion budget to an outcome —
//! a value with the cursor reached, an error with the cursor left, or
//! budget exhaustion.  The executable matcher [`eval`] walks a
//! [`Parser`] against an [`Input`] and is proved to return exactly
//! what [`eval_spec`] says, while preserving the stream, the mark
//! stack and the backtracking flag.
//!
//! The budget (`fuel`) bounds the depth of rule recursion and the
//! number of repetition steps; the top-level drivers grant a budget
//! generous enough for any parse whose depth is in proportion to the
//! input, and report exhaustion as an error rather than looping
//! forever on a grammar that consumes nothing.

use vstd::prelude::*;

use crate::chars::CharClass;
use crate::chars::char_to_string;
use crate::chars::class_matches;
use crate::chars::class_test;
use crate::chars::push_char;
use crate::chars::str_contains_char;
use crate::err::ErrV;
use crate::err::ParseErr;
use crate::err::merge_errv;
use crate::err::mpc_err_merge;
use crate::err::strs_view;
use crate::input::Input;
use crate::input::peek_at;
use crate::parser::AnchorTest;
use crate::parser::DefTable;
use crate::parser::Parser;
use crate::parser::SpecParser;
use crate::parser::anchor_matches;
use crate::parser::anchor_test;
use crate::parser::lookup_def;
use crate::parser::parsers_view;
use crate::state::Cursor;
use crate::state::State;
use crate::state::cursor_advance;
use crate::val::Fold;
use crate::val::SpecVal;
use crate::val::Val;
use crate::val::apply_exec;
use crate::val::apply_to_exec;
use crate::val::check_exec;
use crate::val::check_with_exec;
use crate::val::ctor_exec;
use crate::val::fold_exec;
use crate::val::val_clone;
use crate::val::vals_view;
use crate::val::apply_spec;
use crate::val::apply_to_spec;
use crate::val::check_spec;
use crate::val::check_with_spec;
use crate::val::ctor_spec;
use crate::val::fold_spec;

verus! {

broadcast use vstd::seq::group_seq_axioms;

/// The outcome of evaluating a node: a value with the cursor reached,
/// an error with the cursor left behind, or an exhausted recursion
/// budget.
pub enum EvalOut {
    Match { v: SpecVal, cur: Cursor },
    Fail { e: ErrV, cur: Cursor },
    NoFuel,
}

/// Whether `p` is a single-character primitive matcher.
pub open spec fn is_char_prim(p: SpecParser) -> bool {
    ||| p is Any
    ||| p is CharEq
    ||| p is CharRange
    ||| p is OneOf
    ||| p is NoneOf
    ||| p is Satisfy
}

/// Whether the single-character primitive `p` matches `c`.  The end
/// marker `'\0'` matches nothing.
pub open spec fn prim_match(p: SpecParser, c: char) -> bool {
    c != '\0' && match p {
        SpecParser::Any => true,
        SpecParser::CharEq(x) => c == x,
        SpecParser::CharRange(a, b) => a <= c <= b,
        SpecParser::OneOf(s) => s.contains(c),
        SpecParser::NoneOf(s) => !s.contains(c),
        SpecParser::Satisfy(k) => class_matches(k, c),
        _ => false,
    }
}

/// The description of the class `k`, for error reports.
pub open spec fn class_desc(k: CharClass) -> Seq<char> {
    match k {
        CharClass::Whitespace => "whitespace"@,
        CharClass::Digit => "digit"@,
        CharClass::HexDigit => "hexadecimal digit"@,
        CharClass::OctDigit => "octal digit"@,
        CharClass::Lower => "lowercase letter"@,
        CharClass::Upper => "uppercase letter"@,
        CharClass::Alpha => "letter"@,
        CharClass::AlphaNum => "alphanumeric character"@,
    }
}

/// The description of the boundary test `t`, for error reports.
pub open spec fn anchor_desc(t: AnchorTest) -> Seq<char> {
    match t {
        AnchorTest::StartOfInput => "start of input"@,
        AnchorTest::EndOfInput => "end of input"@,
        AnchorTest::WordBoundary => "word boundary"@,
        AnchorTest::LineStart => "start of line"@,
    }
}

/// What a failed primitive reports it expected.
pub open spec fn prim_desc(p: SpecParser) -> Seq<char> {
    match p {
        SpecParser::Any => "any character"@,
        SpecParser::CharEq(c) => seq!['\'', c, '\''],
        SpecParser::CharRange(a, b) => "character between '"@ + seq![a] + "' and '"@ + seq![b]
            + seq!['\''],
        SpecParser::OneOf(s) => "one of '"@ + s + seq!['\''],
        SpecParser::NoneOf(s) => "none of '"@ + s + seq!['\''],
        SpecParser::Satisfy(k) => class_desc(k),
        SpecParser::StrLit(s) => seq!['"'] + s + seq!['"'],
        SpecParser::Anchor(t) => anchor_desc(t),
        _ => Seq::empty(),
    }
}

/// A fresh error at `st`: the given expectations, no custom message,
/// the offending character `rec`.  An error raised where the stream
/// had ended carries the end-of-stream flag.
pub open spec fn err_new_spec(st: State, descs: Seq<Seq<char>>, rec: char) -> ErrV {
    ErrV {
        state: State {
            pos: st.pos,
            row: st.row,
            col: st.col,
            term: if rec == '\0' {
                1
            } else {
                0
            },
        },
        expected: descs,
        failure: None,
        received: rec,
    }
}

/// A fresh custom-message error at `st`.
pub open spec fn err_fail_spec(st: State, m: Seq<char>, rec: char) -> ErrV {
    ErrV {
        state: State {
            pos: st.pos,
            row: st.row,
            col: st.col,
            term: if rec == '\0' {
                1
            } else {
                0
            },
        },
        expected: Seq::empty(),
        failure: Some(m),
        received: rec,
    }
}

/// One step of a single-character primitive: match the character
/// under the cursor and advance, or report what was expected.
pub open spec fn char_prim_step(p: SpecParser, s: Seq<char>, cur: Cursor) -> EvalOut {
    let c = peek_at(s, cur.st.pos as int);
    if prim_match(p, c) {
        EvalOut::Match { v: SpecVal::Str(seq![c]), cur: cursor_advance(cur, c) }
    } else {
        EvalOut::Fail { e: err_new_spec(cur.st, seq![prim_desc(p)], c), cur }
    }
}

/// How many leading characters of `x` stand at `pos` in `s`.  The end
/// marker `'\0'` never counts as standing anywhere.
pub open spec fn str_match_len(s: Seq<char>, pos: int, x: Seq<char>) -> nat
    decreases x.len(),
{
    if x.len() == 0 {
        0
    } else if peek_at(s, pos) == x.first() && x.first() != '\0' {
        1 + str_match_len(s, pos + 1, x.drop_first())
    } else {
        0
    }
}

/// The cursor after consuming the characters of `t` in order.
pub open spec fn cursor_advance_seq(cur: Cursor, t: Seq<char>) -> Cursor
    decreases t.len(),
{
    if t.len() == 0 {
        cur
    } else {
        cursor_advance_seq(cursor_advance(cur, t.first()), t.drop_first())
    }
}

/// What evaluating the node `p` yields: `d` resolves named references,
/// `s` is the stream, `cur` the cursor, `bt` whether backtracking is
/// active, `fuel` the remaining recursion budget.  Each arm is the
/// contract of one combinator.
pub open spec fn eval_spec(
    d: Seq<(Seq<char>, SpecParser)>,
    p: SpecParser,
    s: Seq<char>,
    cur: Cursor,
    bt: bool,
    fuel: nat,
) -> EvalOut
    decreases fuel, p, 0int, 0int,
{
    match p {
        SpecParser::Any => char_prim_step(p, s, cur),
        SpecParser::CharEq(_) => char_prim_step(p, s, cur),
        SpecParser::CharRange(_, _) => char_prim_step(p, s, cur),
        SpecParser::OneOf(_) => char_prim_step(p, s, cur),
        SpecParser::NoneOf(_) => char_prim_step(p, s, cur),
        SpecParser::Satisfy(_) => char_prim_step(p, s, cur),
        SpecParser::StrLit(x) => {
            let k = str_match_len(s, cur.st.pos as int, x);
            if k == x.len() {
                EvalOut::Match { v: SpecVal::Str(x), cur: cursor_advance_seq(cur, x) }
            } else {
                let curk = if bt {
                    cur
                } else {
                    cursor_advance_seq(cur, x.take(k as int))
                };
                EvalOut::Fail {
                    e: err_new_spec(curk.st, seq![prim_desc(p)], peek_at(s, curk.st.pos as int)),
                    cur: curk,
                }
            }
        },
        SpecParser::Pass => EvalOut::Match { v: SpecVal::Null, cur },
        SpecParser::FailWith(m) => EvalOut::Fail {
            e: err_fail_spec(cur.st, m, peek_at(s, cur.st.pos as int)),
            cur,
        },
        SpecParser::Lift(k) => EvalOut::Match { v: ctor_spec(k), cur },
        SpecParser::LiftVal(v) => EvalOut::Match { v, cur },
        SpecParser::Anchor(t) => {
            let c = peek_at(s, cur.st.pos as int);
            if anchor_matches(t, cur.last, c) {
                EvalOut::Match { v: SpecVal::Null, cur }
            } else {
                EvalOut::Fail { e: err_new_spec(cur.st, seq![prim_desc(p)], c), cur }
            }
        },
        SpecParser::StateGet => EvalOut::Match { v: SpecVal::State(cur.st), cur },
        SpecParser::Expect(a, lbl) => {
            let r = eval_spec(d, *a, s, cur, bt, fuel);
            match r {
                EvalOut::Fail { e, cur: cur1 } => EvalOut::Fail {
                    e: ErrV { expected: seq![lbl], ..e },
                    cur: cur1,
                },
                _ => r,
            }
        },
        SpecParser::Apply(a, k) => {
            let r = eval_spec(d, *a, s, cur, bt, fuel);
            match r {
                EvalOut::Match { v, cur: cur1 } => EvalOut::Match {
                    v: apply_spec(k, v),
                    cur: cur1,
                },
                _ => r,
            }
        },
        SpecParser::ApplyTo(a, k, x) => {
            let r = eval_spec(d, *a, s, cur, bt, fuel);
            match r {
                EvalOut::Match { v, cur: cur1 } => EvalOut::Match {
                    v: apply_to_spec(k, v, x),
                    cur: cur1,
                },
                _ => r,
            }
        },
        SpecParser::Check(a, k, lbl) => {
            let r = eval_spec(d, *a, s, cur, bt, fuel);
            match r {
                EvalOut::Match { v, cur: cur1 } => if check_spec(k, v) {
                    EvalOut::Match { v, cur: cur1 }
                } else {
                    EvalOut::Fail {
                        e: err_new_spec(cur1.st, seq![lbl], peek_at(s, cur1.st.pos as int)),
                        cur: cur1,
                    }
                },
                _ => r,
            }
        },
        SpecParser::CheckWith(a, k, x, lbl) => {
            let r = eval_spec(d, *a, s, cur, bt, fuel);
            match r {
                EvalOut::Match { v, cur: cur1 } => if check_with_spec(k, v, x) {
                    EvalOut::Match { v, cur: cur1 }
                } else {
                    EvalOut::Fail {
                        e: err_new_spec(cur1.st, seq![lbl], peek_at(s, cur1.st.pos as int)),
                        cur: cur1,
                    }
                },
                _ => r,
            }
        },
        SpecParser::Not(a, k) => {
            let r = eval_spec(d, *a, s, cur, bt, fuel);
            match r {
                EvalOut::Match { v: _, cur: cur1 } => {
                    let cur2 = if bt {
                        cur
                    } else {
                        cur1
                    };
                    EvalOut::Fail {
                        e: err_new_spec(
                            cur2.st,
                            seq!["opposite"@],
                            peek_at(s, cur2.st.pos as int),
                        ),
                        cur: cur2,
                    }
                },
                EvalOut::Fail { e: _, cur: cur1 } => {
                    let cur2 = if bt {
                        cur
                    } else {
                        cur1
                    };
                    EvalOut::Match { v: ctor_spec(k), cur: cur2 }
                },
                EvalOut::NoFuel => EvalOut::NoFuel,
            }
        },
        SpecParser::Maybe(a, k) => {
            let r = eval_spec(d, *a, s, cur, bt, fuel);
            match r {
                EvalOut::Fail { e, cur: cur1 } => if cur1.st.pos == cur.st.pos {
                    EvalOut::Match { v: ctor_spec(k), cur: cur1 }
                } else {
                    EvalOut::Fail { e, cur: cur1 }
                },
                _ => r,
            }
        },
        SpecParser::Many(f, a) => eval_many(d, f, *a, s, cur, bt, fuel, Seq::empty()),
        SpecParser::Many1(f, a) => {
            let r = eval_spec(d, *a, s, cur, bt, fuel);
            match r {
                EvalOut::Match { v, cur: cur1 } => if fuel == 0 {
                    EvalOut::NoFuel
                } else {
                    eval_many(d, f, *a, s, cur1, bt, (fuel - 1) as nat, seq![v])
                },
                _ => r,
            }
        },
        SpecParser::Count(n, f, a) => {
            let r = eval_count(d, n as nat, f, *a, s, cur, bt, fuel, Seq::empty());
            match r {
                EvalOut::Fail { e, cur: cur1 } => EvalOut::Fail {
                    e,
                    cur: if bt {
                        cur
                    } else {
                        cur1
                    },
                },
                _ => r,
            }
        },
        SpecParser::Predictive(a) => eval_spec(d, *a, s, cur, false, fuel),
        SpecParser::Or(l) => {
            let r = eval_or(d, l, s, cur, cur, bt, fuel, None);
            match r {
                EvalOut::Fail { e, cur: cur1 } => EvalOut::Fail {
                    e,
                    cur: if bt {
                        cur
                    } else {
                        cur1
                    },
                },
                _ => r,
            }
        },
        SpecParser::And(f, l) => {
            let r = eval_and(d, f, l, s, cur, bt, fuel, Seq::empty());
            match r {
                EvalOut::Fail { e, cur: cur1 } => EvalOut::Fail {
                    e,
                    cur: if bt {
                        cur
                    } else {
                        cur1
                    },
                },
                _ => r,
            }
        },
        SpecParser::Named(nm) => {
            if fuel == 0 {
                EvalOut::NoFuel
            } else {
                match lookup_def(d, nm) {
                    Some(q) => eval_spec(d, q, s, cur, bt, (fuel - 1) as nat),
                    None => EvalOut::Fail {
                        e: err_fail_spec(
                            cur.st,
                            "undefined parser "@ + nm,
                            peek_at(s, cur.st.pos as int),
                        ),
                        cur,
                    },
                }
            }
        },
    }
}

/// Try the alternatives `l` in order; the first success wins, and
/// the errors of failed alternatives merge into `acc` as they come.
/// While backtracking is active, every alternative is retried from
/// `cur0`, the cursor the alternation marked — a failed sibling
/// leaves no consumption behind for the next one.  With backtracking
/// off, rewinding is inert and each alternative starts where the
/// previous one's failure ended (`cur`).
pub open spec fn eval_or(
    d: Seq<(Seq<char>, SpecParser)>,
    l: Seq<SpecParser>,
    s: Seq<char>,
    cur0: Cursor,
    cur: Cursor,
    bt: bool,
    fuel: nat,
    acc: Option<ErrV>,
) -> EvalOut
    decreases fuel, l, 1int, 0int,
{
    if l.len() == 0 {
        EvalOut::Fail {
            e: match acc {
                Some(e) => e,
                None => err_new_spec(cur.st, Seq::empty(), peek_at(s, cur.st.pos as int)),
            },
            cur,
        }
    } else {
        let start = if bt {
            cur0
        } else {
            cur
        };
        let r = eval_spec(d, l.first(), s, start, bt, fuel);
        match r {
            EvalOut::Fail { e, cur: cur1 } => eval_or(
                d,
                l.drop_first(),
                s,
                cur0,
                cur1,
                bt,
                fuel,
                Some(
                    match acc {
                        Some(a) => merge_errv(a, e),
                        None => e,
                    },
                ),
            ),
            _ => r,
        }
    }
}

/// Evaluate the parts `l` in order from `cur`, collecting their
/// values onto `acc`; the first failure is definitive and is passed
/// on unchanged.
pub open spec fn eval_and(
    d: Seq<(Seq<char>, SpecParser)>,
    f: Fold,
    l: Seq<SpecParser>,
    s: Seq<char>,
    cur: Cursor,
    bt: bool,
    fuel: nat,
    acc: Seq<SpecVal>,
) -> EvalOut
    decreases fuel, l, 1int, 0int,
{
    if l.len() == 0 {
        EvalOut::Match { v: fold_spec(f, acc), cur }
    } else {
        let r = eval_spec(d, l.first(), s, cur, bt, fuel);
        match r {
            EvalOut::Match { v, cur: cur1 } => eval_and(
                d,
                f,
                l.drop_first(),
                s,
                cur1,
                bt,
                fuel,
                acc.push(v),
            ),
            _ => r,
        }
    }
}

/// Repeat `a` from `cur`, collecting values onto `acc`.  A failure
/// that consumed nothing since the last success ends the loop with
/// the fold of what was collected; a failure after consumption is a
/// hard error.  Each repetition spends one unit of budget.
pub open spec fn eval_many(
    d: Seq<(Seq<char>, SpecParser)>,
    f: Fold,
    a: SpecParser,
    s: Seq<char>,
    cur: Cursor,
    bt: bool,
    fuel: nat,
    acc: Seq<SpecVal>,
) -> EvalOut
    decreases fuel, a, 2int, 0int,
{
    let r = eval_spec(d, a, s, cur, bt, fuel);
    match r {
        EvalOut::Match { v, cur: cur1 } => if fuel == 0 {
            EvalOut::NoFuel
        } else {
            eval_many(d, f, a, s, cur1, bt, (fuel - 1) as nat, acc.push(v))
        },
        EvalOut::Fail { e, cur: cur1 } => if cur1.st.pos == cur.st.pos {
            EvalOut::Match { v: fold_spec(f, acc), cur: cur1 }
        } else {
            EvalOut::Fail { e, cur: cur1 }
        },
        EvalOut::NoFuel => EvalOut::NoFuel,
    }
}

/// Repeat `a` exactly `n` more times from `cur`, collecting values
/// onto `acc`; any failure before the count is reached is passed on.
pub open spec fn eval_count(
    d: Seq<(Seq<char>, SpecParser)>,
    n: nat,
    f: Fold,
    a: SpecParser,
    s: Seq<char>,
    cur: Cursor,
    bt: bool,
    fuel: nat,
    acc: Seq<SpecVal>,
) -> EvalOut
    decreases fuel, a, 2int, n,
{
    if n == 0 {
        EvalOut::Match { v: fold_spec(f, acc), cur }
    } else {
        let r = eval_spec(d, a, s, cur, bt, fuel);
        match r {
            EvalOut::Match { v, cur: cur1 } => eval_count(
                d,
                (n - 1) as nat,
                f,
                a,
                s,
                cur1,
                bt,
                fuel,
                acc.push(v),
            ),
            _ => r,
        }
    }
}

/// The outcome an executable evaluation hands back: a value, an
/// error, or an exhausted recursion budget.
pub enum Ev {
    Match(Val),
    Fail(ParseErr),
    NoFuel,
}

/// The mathematical content of an optional error.
pub open spec fn opt_err_view(a: Option<ParseErr>) -> Option<ErrV> {
    match a {
        Some(e) => Some(e@),
        None => None,
    }
}

/// What evaluation may touch: the cursor moves and a non-seekable
/// stream may buffer or flush, but the stream content, its kind and
/// name, the backtracking flag and the mark stack come out as they
/// went in, and the invariant holds throughout.
pub open spec fn frame_ok(pre: Input, post: Input) -> bool {
    &&& post.wf()
    &&& post.stream() == pre.stream()
    &&& post.kind == pre.kind
    &&& post.filename == pre.filename
    &&& post.backtrack == pre.backtrack
    &&& post.marks_view() == pre.marks_view()
}

/// Whether the executable outcome `r`, ending at `cur_fin` on an
/// input named `fname`, is exactly the outcome `o` of the
/// specification.
pub open spec fn out_rel(o: EvalOut, r: Ev, cur_fin: Cursor, fname: Seq<char>) -> bool {
    match r {
        Ev::Match(v) => o == (EvalOut::Match { v: v@, cur: cur_fin }),
        Ev::Fail(e) => o == (EvalOut::Fail { e: e@, cur: cur_fin }) && e.wf() && e.filename@
            == fname,
        Ev::NoFuel => o == EvalOut::NoFuel,
    }
}

/// A fresh error at the cursor, expecting `descs`.
fn err_expected_here(inp: &Input, descs: Vec<String>) -> (e: ParseErr)
    requires
        inp.wf(),
    ensures
        e@ == err_new_spec(inp.state, strs_view(descs@), peek_at(inp.stream(), inp.state.pos as int)),
        e.wf(),
        e.filename@ == inp.filename@,
{
    let c = inp.peekc();
    let n = descs.len();
    ParseErr {
        state: State {
            pos: inp.state.pos,
            row: inp.state.row,
            col: inp.state.col,
            term: if c == '\0' {
                1
            } else {
                0
            },
        },
        expected_num: n,
        filename: inp.filename.clone(),
        failure: None,
        expected: descs,
        received: c,
    }
}

/// A fresh custom-message error at the cursor.
fn err_fail_here(inp: &Input, m: String) -> (e: ParseErr)
    requires
        inp.wf(),
    ensures
        e@ == err_fail_spec(inp.state, m@, peek_at(inp.stream(), inp.state.pos as int)),
        e.wf(),
        e.filename@ == inp.filename@,
{
    let c = inp.peekc();
    let e = ParseErr {
        state: State {
            pos: inp.state.pos,
            row: inp.state.row,
            col: inp.state.col,
            term: if c == '\0' {
                1
            } else {
                0
            },
        },
        expected_num: 0,
        filename: inp.filename.clone(),
        failure: Some(m),
        expected: Vec::new(),
        received: c,
    };
    proof {
        assert(strs_view(e.expected@) =~= Seq::<Seq<char>>::empty());
    }
    e
}

/// The description of the class `k`, as a string.
fn class_desc_str(k: CharClass) -> (r: String)
    ensures
        r@ == class_desc(k),
{
    match k {
        CharClass::Whitespace => "whitespace".to_owned(),
        CharClass::Digit => "digit".to_owned(),
        CharClass::HexDigit => "hexadecimal digit".to_owned(),
        CharClass::OctDigit => "octal digit".to_owned(),
        CharClass::Lower => "lowercase letter".to_owned(),
        CharClass::Upper => "uppercase letter".to_owned(),
        CharClass::Alpha => "letter".to_owned(),
        CharClass::AlphaNum => "alphanumeric character".to_owned(),
    }
}

/// The description of the failed node `p`, as a string.
fn prim_desc_str(p: &Parser) -> (r: String)
    ensures
        r@ == prim_desc(p@),
{
    match p {
        Parser::Any => "any character".to_owned(),
        Parser::CharEq(c) => {
            let mut r = String::new();
            push_char(&mut r, '\'');
            push_char(&mut r, *c);
            push_char(&mut r, '\'');
            proof {
                assert(r@ =~= seq!['\'', *c, '\'']);
            }
            r
        },
        Parser::CharRange(a, b) => {
            let mut r = "character between '".to_owned();
            push_char(&mut r, *a);
            r.append("' and '");
            push_char(&mut r, *b);
            push_char(&mut r, '\'');
            proof {
                assert(r@ =~= "character between '"@ + seq![*a] + "' and '"@ + seq![*b]
                    + seq!['\'']);
            }
            r
        },
        Parser::OneOf(s) => {
            let mut r = "one of '".to_owned();
            r.append(s.as_str());
            push_char(&mut r, '\'');
            proof {
                assert(r@ =~= "one of '"@ + s@ + seq!['\'']);
            }
            r
        },
        Parser::NoneOf(s) => {
            let mut r = "none of '".to_owned();
            r.append(s.as_str());
            push_char(&mut r, '\'');
            proof {
                assert(r@ =~= "none of '"@ + s@ + seq!['\'']);
            }
            r
        },
        Parser::Satisfy(k) => class_desc_str(*k),
        Parser::StrLit(s) => {
            let mut r = String::new();
            push_char(&mut r, '"');
            r.append(s.as_str());
            push_char(&mut r, '"');
            proof {
                assert(r@ =~= seq!['"'] + s@ + seq!['"']);
            }
            r
        },
        Parser::Anchor(t) => match t {
            AnchorTest::StartOfInput => "start of input".to_owned(),
            AnchorTest::EndOfInput => "end of input".to_owned(),
            AnchorTest::WordBoundary => "word boundary".to_owned(),
            AnchorTest::LineStart => "start of line".to_owned(),
        },
        _ => {
            let r = String::new();
            proof {
                assert(r@ =~= prim_desc(p@));
            }
            r
        },
    }
}

/// Whether the single-character primitive `p` matches `c`.
fn prim_test(p: &Parser, c: char) -> (r: bool)
    ensures
        is_char_prim(p@) ==> r == prim_match(p@, c),
{
    match p {
        Parser::Any => c != '\0',
        Parser::CharEq(x) => c != '\0' && c == *x,
        Parser::CharRange(a, b) => c != '\0' && *a <= c && c <= *b,
        Parser::OneOf(s) => c != '\0' && str_contains_char(s.as_str(), c),
        Parser::NoneOf(s) => c != '\0' && !str_contains_char(s.as_str(), c),
        Parser::Satisfy(k) => c != '\0' && class_test(*k, c),
        _ => false,
    }
}

proof fn lemma_cursor_advance_snoc(cur: Cursor, t: Seq<char>, c: char)
    ensures
        cursor_advance_seq(cur, t.push(c)) == cursor_advance(cursor_advance_seq(cur, t), c),
    decreases t.len(),
{
    if t.len() == 0 {
        assert(t.push(c).first() == c);
        assert(t.push(c).drop_first() =~= Seq::<char>::empty());
        assert(cursor_advance_seq(cursor_advance(cur, c), Seq::<char>::empty())
            == cursor_advance(cur, c));
        assert(cursor_advance_seq(cur, Seq::<char>::empty()) == cur);
    } else {
        assert(t.push(c).first() == t.first());
        assert(t.push(c).drop_first() =~= t.drop_first().push(c));
        lemma_cursor_advance_snoc(cursor_advance(cur, t.first()), t.drop_first(), c);
    }
}

/// One single-character primitive step against the input: the
/// executable mirror of [`char_prim_step`].
fn eval_char_prim(p: &Parser, inp: &mut Input) -> (r: Ev)
    requires
        old(inp).wf(),
        is_char_prim(p@),
    ensures
        frame_ok(*old(inp), *final(inp)),
        out_rel(
            char_prim_step(p@, old(inp).stream(), old(inp).cursor()),
            r,
            final(inp).cursor(),
            old(inp).filename@,
        ),
{
    let c = inp.peekc();
    if prim_test(p, c) {
        proof {
            assert(c != '\0');
            assert(inp.state.pos < inp.stream().len());
        }
        inp.success(c);
        Ev::Match(Val::Str(char_to_string(c)))
    } else {
        inp.failure(c);
        let desc = prim_desc_str(p);
        let mut descs: Vec<String> = Vec::new();
        descs.push(desc);
        let e = err_expected_here(inp, descs);
        proof {
            assert(strs_view(e.expected@) =~= seq![prim_desc(p@)]);
        }
        Ev::Fail(e)
    }
}

/// What a literal-string node yields: the `StrLit` arm of
/// [`eval_spec`], as its own function.
pub open spec fn strlit_step(x: Seq<char>, s: Seq<char>, cur: Cursor, bt: bool) -> EvalOut {
    let k = str_match_len(s, cur.st.pos as int, x);
    if k == x.len() {
        EvalOut::Match { v: SpecVal::Str(x), cur: cursor_advance_seq(cur, x) }
    } else {
        let curk = if bt {
            cur
        } else {
            cursor_advance_seq(cur, x.take(k as int))
        };
        EvalOut::Fail {
            e: err_new_spec(
                curk.st,
                seq![prim_desc(SpecParser::StrLit(x))],
                peek_at(s, curk.st.pos as int),
            ),
            cur: curk,
        }
    }
}

/// Match a literal string against the input: the executable mirror
/// of [`strlit_step`].
fn eval_strlit(p: &Parser, x: &String, inp: &mut Input) -> (r: Ev)
    requires
        old(inp).wf(),
        *p == Parser::StrLit(*x),
    ensures
        frame_ok(*old(inp), *final(inp)),
        out_rel(
            strlit_step(x@, old(inp).stream(), old(inp).cursor(), old(inp).backtrack),
            r,
            final(inp).cursor(),
            old(inp).filename@,
        ),
{
    let ghost cur0 = old(inp).cursor();
    let ghost s = old(inp).stream();
    let ghost bt = old(inp).backtrack;
    inp.mark();
    let n = x.as_str().unicode_len();
    let mut k: usize = 0;
    proof {
        assert(x@.take(0) =~= Seq::<char>::empty());
        assert(x@.skip(0) =~= x@);
    }
    while k < n
        invariant
            *p == Parser::StrLit(*x),
            n == x@.len(),
            0 <= k <= n,
            inp.wf(),
            inp.stream() == s,
            inp.kind == old(inp).kind,
            inp.filename == old(inp).filename,
            inp.backtrack == bt,
            cur0 == old(inp).cursor(),
            s == old(inp).stream(),
            bt == old(inp).backtrack,
            inp.marks_view() == if bt {
                old(inp).marks_view().push(cur0)
            } else {
                old(inp).marks_view()
            },
            inp.cursor() == cursor_advance_seq(cur0, x@.take(k as int)),
            str_match_len(s, cur0.st.pos as int, x@) == k + str_match_len(
                s,
                inp.state.pos as int,
                x@.skip(k as int),
            ),
        decreases n - k,
    {
        let c = inp.peekc();
        let xc = x.as_str().get_char(k);
        proof {
            assert(x@.skip(k as int).first() == x@[k as int]);
        }
        if c == xc && c != '\0' {
            proof {
                assert(inp.state.pos < inp.stream().len());
                assert(x@.skip(k as int).drop_first() =~= x@.skip(k + 1));
                assert(x@.take(k + 1) =~= x@.take(k as int).push(x@[k as int]));
                lemma_cursor_advance_snoc(cur0, x@.take(k as int), x@[k as int]);
            }
            inp.success(c);
            k = k + 1;
        } else {
            proof {
                assert(str_match_len(s, inp.state.pos as int, x@.skip(k as int)) == 0);
                assert(str_match_len(s, cur0.st.pos as int, x@) == k);
                assert(k < x@.len());
            }
            inp.rewind();
            inp.unmark();
            proof {
                if bt {
                    assert(old(inp).marks_view().push(cur0).last() == cur0);
                    assert(old(inp).marks_view().push(cur0).drop_last() =~= old(
                        inp,
                    ).marks_view());
                }
            }
            let desc = prim_desc_str(p);
            let mut descs: Vec<String> = Vec::new();
            descs.push(desc);
            let e = err_expected_here(inp, descs);
            proof {
                assert(strs_view(e.expected@) =~= seq![prim_desc(p@)]);
            }
            return Ev::Fail(e);
        }
    }
    proof {
        assert(x@.skip(n as int).len() == 0);
        assert(str_match_len(s, cur0.st.pos as int, x@) == x@.len());
        assert(x@.take(n as int) =~= x@);
    }
    inp.unmark();
    proof {
        if bt {
            assert(old(inp).marks_view().push(cur0).drop_last() =~= old(inp).marks_view());
        }
    }
    Ev::Match(Val::Str(x.clone()))
}







/// Evaluate the node `p` against `inp`: the executable mirror of
/// [`eval_spec`], proved to yield exactly its outcome while
/// preserving the stream, the mark stack and the backtracking flag.
#[verifier::spinoff_prover]
#[verifier::rlimit(100)]
pub fn eval(d: &DefTable, p: &Parser, inp: &mut Input, fuel: u64) -> (r: Ev)
    requires
        old(inp).wf(),
    ensures
        frame_ok(*old(inp), *final(inp)),
        out_rel(
            eval_spec(
                d@,
                p@,
                old(inp).stream(),
                old(inp).cursor(),
                old(inp).backtrack,
                fuel as nat,
            ),
            r,
            final(inp).cursor(),
            old(inp).filename@,
        ),
    decreases fuel, p@, 0int, 0int,
{
    let ghost cur0 = old(inp).cursor();
    let ghost s = old(inp).stream();
    let ghost bt = old(inp).backtrack;
    match p {
        Parser::Any => { return eval_char_prim(p, inp); },
        Parser::CharEq(_) => { return eval_char_prim(p, inp); },
        Parser::CharRange(_, _) => { return eval_char_prim(p, inp); },
        Parser::OneOf(_) => { return eval_char_prim(p, inp); },
        Parser::NoneOf(_) => { return eval_char_prim(p, inp); },
        Parser::Satisfy(_) => { return eval_char_prim(p, inp); },
        Parser::StrLit(x) => {
            let r = eval_strlit(p, x, inp);
            proof {
                assert(eval_spec(d@, p@, s, cur0, bt, fuel as nat) == strlit_step(x@, s, cur0, bt));
            }
            r
        },
        Parser::Pass => { return Ev::Match(Val::Null); },
        Parser::FailWith(m) => {
            let e = err_fail_here(inp, m.clone());
            Ev::Fail(e)
        },
        Parser::Lift(k) => { return Ev::Match(ctor_exec(*k)); },
        Parser::LiftVal(v) => { return Ev::Match(val_clone(v)); },
        Parser::Anchor(t) => {
            let c = inp.peekc();
            if anchor_test(*t, inp.last, c) {
                Ev::Match(Val::Null)
            } else {
                let desc = prim_desc_str(p);
                let mut descs: Vec<String> = Vec::new();
                descs.push(desc);
                let e = err_expected_here(inp, descs);
                proof {
                    assert(strs_view(e.expected@) =~= seq![prim_desc(p@)]);
                }
                Ev::Fail(e)
            }
        },
        Parser::StateGet => { return Ev::Match(Val::State(inp.state)); },
        Parser::Expect(a, lbl) => {
            let r = eval(d, a, inp, fuel);
            match r {
                Ev::Fail(e) => {
                    let mut descs: Vec<String> = Vec::new();
                    descs.push(lbl.clone());
                    let e2 = ParseErr {
                        state: e.state,
                        expected_num: 1,
                        filename: e.filename,
                        failure: e.failure,
                        expected: descs,
                        received: e.received,
                    };
                    proof {
                        assert(strs_view(e2.expected@) =~= seq![lbl@]);
                    }
                    Ev::Fail(e2)
                },
                other => other,
            }
        },
        Parser::Apply(a, k) => {
            let r = eval(d, a, inp, fuel);
            match r {
                Ev::Match(v) => Ev::Match(apply_exec(*k, v)),
                other => other,
            }
        },
        Parser::ApplyTo(a, k, x) => {
            let r = eval(d, a, inp, fuel);
            match r {
                Ev::Match(v) => Ev::Match(apply_to_exec(*k, v, x)),
                other => other,
            }
        },
        Parser::Check(a, k, lbl) => {
            let r = eval(d, a, inp, fuel);
            match r {
                Ev::Match(v) => {
                    if check_exec(*k, &v) {
                        Ev::Match(v)
                    } else {
                        let _ = v;
                        let mut descs: Vec<String> = Vec::new();
                        descs.push(lbl.clone());
                        let e = err_expected_here(inp, descs);
                        proof {
                            assert(strs_view(e.expected@) =~= seq![lbl@]);
                        }
                        Ev::Fail(e)
                    }
                },
                other => other,
            }
        },
        Parser::CheckWith(a, k, x, lbl) => {
            let r = eval(d, a, inp, fuel);
            match r {
                Ev::Match(v) => {
                    if check_with_exec(*k, &v, x) {
                        Ev::Match(v)
                    } else {
                        let _ = v;
                        let mut descs: Vec<String> = Vec::new();
                        descs.push(lbl.clone());
                        let e = err_expected_here(inp, descs);
                        proof {
                            assert(strs_view(e.expected@) =~= seq![lbl@]);
                        }
                        Ev::Fail(e)
                    }
                },
                other => other,
            }
        },
        Parser::Not(a, k) => {
            inp.mark();
            let r = eval(d, a, inp, fuel);
            inp.rewind();
            inp.unmark();
            proof {
                if bt {
                    assert(old(inp).marks_view().push(cur0).last() == cur0);
                    assert(old(inp).marks_view().push(cur0).drop_last() =~= old(
                        inp,
                    ).marks_view());
                }
            }
            match r {
                Ev::Match(v) => {
                    let _ = v;
                    let mut descs: Vec<String> = Vec::new();
                    descs.push("opposite".to_owned());
                    let e = err_expected_here(inp, descs);
                    proof {
                        assert(strs_view(e.expected@) =~= seq!["opposite"@]);
                    }
                    Ev::Fail(e)
                },
                Ev::Fail(e) => {
                    let _ = e;
                    Ev::Match(ctor_exec(*k))
                },
                Ev::NoFuel => Ev::NoFuel,
            }
        },
        Parser::Maybe(a, k) => {
            let pos0 = inp.state.pos;
            let r = eval(d, a, inp, fuel);
            match r {
                Ev::Fail(e) => {
                    if inp.state.pos == pos0 {
                        let _ = e;
                        Ev::Match(ctor_exec(*k))
                    } else {
                        Ev::Fail(e)
                    }
                },
                other => other,
            }
        },
        Parser::Many(f, a) => {
            let acc: Vec<Val> = Vec::new();
            proof {
                assert(vals_view(acc@) =~= Seq::<SpecVal>::empty());
            }
            return eval_many_go(d, *f, a, inp, fuel, acc);
        },
        Parser::Many1(f, a) => {
            let r = eval(d, a, inp, fuel);
            match r {
                Ev::Match(v) => {
                    if fuel == 0 {
                        Ev::NoFuel
                    } else {
                        let mut acc: Vec<Val> = Vec::new();
                        let ghost gv = v@;
                        acc.push(v);
                        proof {
                            assert(vals_view(acc@) =~= seq![gv]);
                        }
                        eval_many_go(d, *f, a, inp, fuel - 1, acc)
                    }
                },
                other => other,
            }
        },
        Parser::Count(n, f, a) => {
            inp.mark();
            let acc: Vec<Val> = Vec::new();
            proof {
                assert(vals_view(acc@) =~= Seq::<SpecVal>::empty());
            }
            let r = eval_count_go(d, *n, *f, a, inp, fuel, acc);
            match r {
                Ev::Fail(e) => {
                    inp.rewind();
                    inp.unmark();
                    proof {
                        if bt {
                            assert(old(inp).marks_view().push(cur0).last() == cur0);
                            assert(old(inp).marks_view().push(cur0).drop_last() =~= old(
                                inp,
                            ).marks_view());
                        }
                    }
                    Ev::Fail(e)
                },
                other => {
                    inp.unmark();
                    proof {
                        if bt {
                            assert(old(inp).marks_view().push(cur0).drop_last() =~= old(
                                inp,
                            ).marks_view());
                        }
                    }
                    other
                },
            }
        },
        Parser::Predictive(a) => {
            let was = inp.backtrack;
            inp.backtrack_disable();
            let r = eval(d, a, inp, fuel);
            if was {
                inp.backtrack_enable();
            }
            r
        },
        Parser::Or(l) => {
            inp.mark();
            proof {
                assert(parsers_view(l@).skip(0) =~= parsers_view(l@));
                if bt {
                    assert(old(inp).marks_view().push(cur0).last() == cur0);
                }
            }
            let r = eval_or_go(d, l, 0, inp, fuel, None, Ghost(cur0));
            match r {
                Ev::Fail(e) => {
                    inp.rewind();
                    inp.unmark();
                    proof {
                        if bt {
                            assert(old(inp).marks_view().push(cur0).last() == cur0);
                            assert(old(inp).marks_view().push(cur0).drop_last() =~= old(
                                inp,
                            ).marks_view());
                        }
                    }
                    Ev::Fail(e)
                },
                other => {
                    inp.unmark();
                    proof {
                        if bt {
                            assert(old(inp).marks_view().push(cur0).drop_last() =~= old(
                                inp,
                            ).marks_view());
                        }
                    }
                    other
                },
            }
        },
        Parser::And(f, l) => {
            inp.mark();
            let acc: Vec<Val> = Vec::new();
            proof {
                assert(parsers_view(l@).skip(0) =~= parsers_view(l@));
                assert(vals_view(acc@) =~= Seq::<SpecVal>::empty());
            }
            let r = eval_and_go(d, *f, l, 0, inp, fuel, acc);
            match r {
                Ev::Fail(e) => {
                    inp.rewind();
                    inp.unmark();
                    proof {
                        if bt {
                            assert(old(inp).marks_view().push(cur0).last() == cur0);
                            assert(old(inp).marks_view().push(cur0).drop_last() =~= old(
                                inp,
                            ).marks_view());
                        }
                    }
                    Ev::Fail(e)
                },
                other => {
                    inp.unmark();
                    proof {
                        if bt {
                            assert(old(inp).marks_view().push(cur0).drop_last() =~= old(
                                inp,
                            ).marks_view());
                        }
                    }
                    other
                },
            }
        },
        Parser::Named(nm) => {
            if fuel == 0 {
                Ev::NoFuel
            } else {
                match d.get(nm.as_str()) {
                    Some(q) => eval(d, q, inp, fuel - 1),
                    None => {
                        let mut m = "undefined parser ".to_owned();
                        m.append(nm.as_str());
                        let e = err_fail_here(inp, m);
                        Ev::Fail(e)
                    },
                }
            }
        },
    }
}

/// Try the alternatives of `alts` from `idx` on, merging the errors
/// of those that fail into `acc`: the executable mirror of
/// [`eval_or`].  Before each attempt the cursor is rewound to the
/// alternation's mark, `cur0`, so that — while backtracking is
/// active — a failed sibling leaves no consumption behind.
fn eval_or_go(
    d: &DefTable,
    alts: &Vec<Parser>,
    idx: usize,
    inp: &mut Input,
    fuel: u64,
    acc: Option<ParseErr>,
    Ghost(cur0): Ghost<Cursor>,
) -> (r: Ev)
    requires
        old(inp).wf(),
        idx <= alts@.len(),
        match acc {
            Some(e) => e.wf() && e.filename@ == old(inp).filename@,
            None => true,
        },
        old(inp).backtrack ==> old(inp).marks_view().len() > 0 && old(inp).marks_view().last()
            == cur0,
    ensures
        frame_ok(*old(inp), *final(inp)),
        out_rel(
            eval_or(
                d@,
                parsers_view(alts@).skip(idx as int),
                old(inp).stream(),
                cur0,
                old(inp).cursor(),
                old(inp).backtrack,
                fuel as nat,
                opt_err_view(acc),
            ),
            r,
            final(inp).cursor(),
            old(inp).filename@,
        ),
    decreases fuel, parsers_view(alts@).skip(idx as int), 1int, 0int,
{
    let n = alts.len();
    if idx >= n {
        proof {
            assert(parsers_view(alts@).skip(idx as int).len() == 0);
            assert(strs_view(Seq::<String>::empty()) =~= Seq::<Seq<char>>::empty());
        }
        match acc {
            Some(e) => Ev::Fail(e),
            None => {
                let e = err_expected_here(inp, Vec::new());
                proof {
                    assert(strs_view(e.expected@) =~= Seq::<Seq<char>>::empty());
                }
                Ev::Fail(e)
            },
        }
    } else {
        let ghost rem = parsers_view(alts@).skip(idx as int);
        proof {
            assert(rem.first() == parsers_view(alts@)[idx as int]);
            assert(rem.first() == alts@[idx as int]@);
            assert(decreases_to!(rem => rem[0]));
            assert(rem.drop_first() =~= parsers_view(alts@).skip(idx + 1));
            assert(decreases_to!(rem => rem.drop_first()));
        }
        inp.rewind();
        let r0 = eval(d, &alts[idx], inp, fuel);
        match r0 {
            Ev::Fail(e) => {
                let acc2 = match acc {
                    Some(a) => Some(mpc_err_merge(a, e)),
                    None => Some(e),
                };
                eval_or_go(d, alts, idx + 1, inp, fuel, acc2, Ghost(cur0))
            },
            other => other,
        }
    }
}

/// Evaluate the parts of `parts` from `idx` on, collecting values
/// onto `acc`: the executable mirror of [`eval_and`].
fn eval_and_go(
    d: &DefTable,
    f: Fold,
    parts: &Vec<Parser>,
    idx: usize,
    inp: &mut Input,
    fuel: u64,
    acc: Vec<Val>,
) -> (r: Ev)
    requires
        old(inp).wf(),
        idx <= parts@.len(),
    ensures
        frame_ok(*old(inp), *final(inp)),
        out_rel(
            eval_and(
                d@,
                f,
                parsers_view(parts@).skip(idx as int),
                old(inp).stream(),
                old(inp).cursor(),
                old(inp).backtrack,
                fuel as nat,
                vals_view(acc@),
            ),
            r,
            final(inp).cursor(),
            old(inp).filename@,
        ),
    decreases fuel, parsers_view(parts@).skip(idx as int), 1int, 0int,
{
    let n = parts.len();
    if idx >= n {
        proof {
            assert(parsers_view(parts@).skip(idx as int).len() == 0);
        }
        let v = fold_exec(f, acc);
        Ev::Match(v)
    } else {
        let ghost rem = parsers_view(parts@).skip(idx as int);
        proof {
            assert(rem.first() == parsers_view(parts@)[idx as int]);
            assert(rem.first() == parts@[idx as int]@);
            assert(decreases_to!(rem => rem[0]));
            assert(rem.drop_first() =~= parsers_view(parts@).skip(idx + 1));
            assert(decreases_to!(rem => rem.drop_first()));
        }
        let r0 = eval(d, &parts[idx], inp, fuel);
        match r0 {
            Ev::Match(v) => {
                let mut acc = acc;
                let ghost accv = vals_view(acc@);
                acc.push(v);
                proof {
                    assert(vals_view(acc@) =~= accv.push(acc@[acc@.len() - 1]@));
                }
                eval_and_go(d, f, parts, idx + 1, inp, fuel, acc)
            },
            other => other,
        }
    }
}

/// Repeat `a`, collecting values onto `acc`: the executable mirror of
/// [`eval_many`].
fn eval_many_go(d: &DefTable, f: Fold, a: &Parser, inp: &mut Input, fuel: u64, acc: Vec<Val>) -> (r:
    Ev)
    requires
        old(inp).wf(),
    ensures
        frame_ok(*old(inp), *final(inp)),
        out_rel(
            eval_many(
                d@,
                f,
                a@,
                old(inp).stream(),
                old(inp).cursor(),
                old(inp).backtrack,
                fuel as nat,
                vals_view(acc@),
            ),
            r,
            final(inp).cursor(),
            old(inp).filename@,
        ),
    decreases fuel, a@, 2int, 0int,
{
    let pos0 = inp.state.pos;
    let r0 = eval(d, a, inp, fuel);
    match r0 {
        Ev::Match(v) => {
            if fuel == 0 {
                Ev::NoFuel
            } else {
                let mut acc = acc;
                let ghost accv = vals_view(acc@);
                acc.push(v);
                proof {
                    assert(vals_view(acc@) =~= accv.push(acc@[acc@.len() - 1]@));
                }
                eval_many_go(d, f, a, inp, fuel - 1, acc)
            }
        },
        Ev::Fail(e) => {
            if inp.state.pos == pos0 {
                let _ = e;
                let v = fold_exec(f, acc);
                Ev::Match(v)
            } else {
                Ev::Fail(e)
            }
        },
        Ev::NoFuel => Ev::NoFuel,
    }
}

/// Repeat `a` exactly `n` more times, collecting values onto `acc`:
/// the executable mirror of [`eval_count`].
fn eval_count_go(
    d: &DefTable,
    n: u64,
    f: Fold,
    a: &Parser,
    inp: &mut Input,
    fuel: u64,
    acc: Vec<Val>,
) -> (r: Ev)
    requires
        old(inp).wf(),
    ensures
        frame_ok(*old(inp), *final(inp)),
        out_rel(
            eval_count(
                d@,
                n as nat,
                f,
                a@,
                old(inp).stream(),
                old(inp).cursor(),
                old(inp).backtrack,
                fuel as nat,
                vals_view(acc@),
            ),
            r,
            final(inp).cursor(),
            old(inp).filename@,
        ),
    decreases fuel, a@, 2int, n,
{
    if n == 0 {
        let v = fold_exec(f, acc);
        Ev::Match(v)
    } else {
        let r0 = eval(d, a, inp, fuel);
        match r0 {
            Ev::Match(v) => {
                let mut acc = acc;
                let ghost accv = vals_view(acc@);
                acc.push(v);
                proof {
                    assert(vals_view(acc@) =~= accv.push(acc@[acc@.len() - 1]@));
                }
                eval_count_go(d, n - 1, f, a, inp, fuel, acc)
            },
            other => other,
        }
    }
}


/// The recursion budget granted for an input of `len` characters:
/// generous for any parse whose rule recursion and repetition depth
/// stay in proportion to the input, yet modest enough that a grammar
/// looping without consuming is cut off before the call stack is.
pub open spec fn parse_fuel(len: nat) -> nat {
    64 * len + 256
}

/// The error reported when the recursion budget runs out: a grammar
/// looped without consuming, or recursion far outgrew the input.
pub open spec fn depth_err_spec() -> ErrV {
    ErrV {
        state: crate::state::state_invalid_spec(),
        expected: Seq::empty(),
        failure: Some("parse depth limit exceeded"@),
        received: '\0',
    }
}

/// Whether the driver outcome `r` reports the evaluation outcome `o`:
/// a match becomes the value, a failure becomes the error, an
/// exhausted budget becomes the depth error.
pub open spec fn parse_rel(o: EvalOut, r: Result<Val, ParseErr>, fname: Seq<char>) -> bool {
    match o {
        EvalOut::Match { v, cur } => r is Ok && r->Ok_0@ == v,
        EvalOut::Fail { e, cur } => r is Err && r->Err_0@ == e && r->Err_0.wf()
            && r->Err_0.filename@ == fname,
        EvalOut::NoFuel => r is Err && r->Err_0@ == depth_err_spec() && r->Err_0.wf()
            && r->Err_0.filename@ == fname,
    }
}

/// The cursor at the start of a stream.
pub open spec fn start_cursor() -> Cursor {
    Cursor { st: State { pos: 0 as i64, row: 0 as i64, col: 0 as i64, term: 0 as i64 }, last: '\0' }
}

/// An input this large or smaller leaves the recursion budget within
/// range.
pub const PARSE_LEN_MAX: u64 = 0x10_0000_0000_0000;

fn depth_err(filename: &String) -> (e: ParseErr)
    ensures
        e@ == depth_err_spec(),
        e.wf(),
        e.filename@ == filename@,
{
    let e = ParseErr {
        state: State { pos: -1, row: -1, col: -1, term: 0 },
        expected_num: 0,
        filename: filename.clone(),
        failure: Some("parse depth limit exceeded".to_owned()),
        expected: Vec::new(),
        received: '\0',
    };
    proof {
        assert(strs_view(e.expected@) =~= Seq::<Seq<char>>::empty());
    }
    e
}

fn run_parse(p: &Parser, defs: &DefTable, mut inp: Input, fuel: u64) -> (r: Result<Val, ParseErr>)
    requires
        inp.wf(),
        inp.backtrack,
    ensures
        parse_rel(
            eval_spec(defs@, p@, inp.stream(), inp.cursor(), true, fuel as nat),
            r,
            inp.filename@,
        ),
{
    let res = eval(defs, p, &mut inp, fuel);
    match res {
        Ev::Match(v) => Ok(v),
        Ev::Fail(e) => Err(e),
        Ev::NoFuel => Err(depth_err(&inp.filename)),
    }
}

/// Parse the in-memory text `string`, named `filename` for
/// diagnostics, with the parser `p`, resolving named rules in
/// `defs`.  Backtracking is enabled and the full recursion budget
/// granted; the result is exactly what [`eval_spec`] says for a
/// fresh cursor.
pub fn mpc_parse(filename: &str, string: &str, p: &Parser, defs: &DefTable) -> (r: Result<
    Val,
    ParseErr,
>)
    requires
        string@.len() <= PARSE_LEN_MAX,
    ensures
        parse_rel(
            eval_spec(defs@, p@, string@, start_cursor(), true, parse_fuel(string@.len())),
            r,
            filename@,
        ),
{
    let mut inp = Input::new_string(filename, string);
    inp.backtrack_enable();
    let len = string.unicode_len();
    let fuel: u64 = 64 * (len as u64) + 256;
    run_parse(p, defs, inp, fuel)
}

/// Parse the first `length` characters of `string`, as
/// [`mpc_parse`] does the whole.
pub fn mpc_nparse(filename: &str, string: &str, length: usize, p: &Parser, defs: &DefTable) -> (r:
    Result<Val, ParseErr>)
    requires
        length <= string@.len(),
        string@.len() <= PARSE_LEN_MAX,
    ensures
        parse_rel(
            eval_spec(
                defs@,
                p@,
                string@.take(length as int),
                start_cursor(),
                true,
                parse_fuel(length as nat),
            ),
            r,
            filename@,
        ),
{
    let mut inp = Input::new_nstring(filename, string, length);
    inp.backtrack_enable();
    let fuel: u64 = 64 * (length as u64) + 256;
    run_parse(p, defs, inp, fuel)
}

/// Parse the contents of a seekable file, read by the caller, with
/// the parser `p`.
pub fn mpc_parse_file_contents(filename: &str, contents: &str, p: &Parser, defs: &DefTable) -> (r:
    Result<Val, ParseErr>)
    requires
        contents@.len() <= PARSE_LEN_MAX,
    ensures
        parse_rel(
            eval_spec(defs@, p@, contents@, start_cursor(), true, parse_fuel(contents@.len())),
            r,
            filename@,
        ),
{
    let mut inp = Input::new_file(filename, contents);
    inp.backtrack_enable();
    let len = contents.unicode_len();
    let fuel: u64 = 64 * (len as u64) + 256;
    run_parse(p, defs, inp, fuel)
}

/// Parse the pending characters of a non-seekable stream, drained by
/// the caller, with the parser `p`.
pub fn mpc_parse_pipe_chars(filename: &str, source: &str, p: &Parser, defs: &DefTable) -> (r:
    Result<Val, ParseErr>)
    requires
        source@.len() <= PARSE_LEN_MAX,
    ensures
        parse_rel(
            eval_spec(defs@, p@, source@, start_cursor(), true, parse_fuel(source@.len())),
            r,
            filename@,
        ),
{
    let mut inp = Input::new_pipe(filename, source);
    inp.backtrack_enable();
    let len = source.unicode_len();
    let fuel: u64 = 64 * (len as u64) + 256;
    run_parse(p, defs, inp, fuel)
}


} // verus!
