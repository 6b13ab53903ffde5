//! Semantic values and the hooks that transform them.
//!
//! A parser produces a [`Val`]: nothing, a string, an integer, a tree,
//! or a captured stream position.  Sequence and repetition combinators
//! hand the ordered values of their parts to a *fold* ([`Fold`]); unary
//! combinators rewrite one value with an *apply* ([`ApplyKind`],
//! [`ApplyToKind`]), test it with a *check* ([`CheckKind`],
//! [`CheckWithKind`]), or conjure one from nothing with a *constructor*
//! ([`CtorKind`]).  Each hook is a named, pure transformation defined
//! here by a specification function, so that every contract that
//! mentions a hook says exactly what it computes.
//!
//! Discarded partial values — from a failed alternative, or from a
//! sequence that fails halfway — are released by ownership; no
//! destructor callbacks are threaded through the combinators.

use vstd::prelude::*;

use crate::ast::Ast;
use crate::ast::SpecAst;
use crate::ast::ast_clone;
use crate::ast::ast_view;
use crate::ast::empty_spec_ast;
use crate::chars::EscTable;
use crate::chars::char_to_string;
use crate::chars::escape_spec;
use crate::chars::escape_str;
use crate::chars::strtol_spec;
use crate::chars::strtol_str;
use crate::chars::triml_spec;
use crate::chars::triml_str;
use crate::chars::trimr_spec;
use crate::chars::trimr_str;
use crate::chars::unescape_spec;
use crate::chars::unescape_str;
use crate::state::State;
use crate::state::state_invalid_spec;

verus! {

broadcast use vstd::seq::group_seq_axioms;

/// A semantic value: nothing, a string, an integer, a tree, or a
/// captured stream position.
pub enum Val {
    Null,
    Str(String),
    Int(i64),
    Ast(Ast),
    State(State),
}

/// The mathematical content of a [`Val`].
pub enum SpecVal {
    Null,
    Str(Seq<char>),
    Int(i64),
    Ast(SpecAst),
    State(State),
}

impl View for Val {
    type V = SpecVal;

    open spec fn view(&self) -> SpecVal {
        match self {
            Val::Null => SpecVal::Null,
            Val::Str(s) => SpecVal::Str(s@),
            Val::Int(n) => SpecVal::Int(*n),
            Val::Ast(a) => SpecVal::Ast(ast_view(*a)),
            Val::State(st) => SpecVal::State(*st),
        }
    }
}

/// The mathematical contents of a list of values.
pub open spec fn vals_view(l: Seq<Val>) -> Seq<SpecVal> {
    Seq::new(
        l.len(),
        |i: int|
            if 0 <= i < l.len() {
                l[i]@
            } else {
                SpecVal::Null
            },
    )
}

/// A copy of `v`: the same value.
pub fn val_clone(v: &Val) -> (r: Val)
    ensures
        r@ == v@,
{
    match v {
        Val::Null => Val::Null,
        Val::Str(s) => Val::Str(s.clone()),
        Val::Int(n) => Val::Int(*n),
        Val::Ast(a) => Val::Ast(ast_clone(a)),
        Val::State(st) => Val::State(*st),
    }
}

/// A named fold: how a sequence or repetition combinator combines the
/// ordered values of its parts into one value.
#[derive(Clone, Copy, PartialEq, Eq, Structural, Debug)]
pub enum Fold {
    /// Discard everything and yield nothing.
    Null,
    /// Keep the first value.
    Fst,
    /// Keep the second value.
    Snd,
    /// Keep the third value.
    Trd,
    /// Concatenate the string values.
    StrFold,
    /// Gather the tree values under one `>` node; a single tree stands
    /// alone.
    AstFold,
    /// Stamp a captured position onto the tree that follows it.
    StateAst,
}

/// The concatenation of the string payloads of `vs`, in order; values
/// that are no strings contribute nothing.
pub open spec fn strfold_spec(vs: Seq<SpecVal>) -> Seq<char>
    decreases vs.len(),
{
    if vs.len() == 0 {
        Seq::empty()
    } else {
        (match vs.first() {
            SpecVal::Str(s) => s,
            _ => Seq::empty(),
        }) + strfold_spec(vs.drop_first())
    }
}

/// The tree payloads of `vs`, in order; values that are no trees are
/// dropped.
pub open spec fn ast_items(vs: Seq<SpecVal>) -> Seq<SpecAst>
    decreases vs.len(),
{
    if vs.len() == 0 {
        Seq::empty()
    } else {
        (match vs.first() {
            SpecVal::Ast(a) => seq![a],
            _ => Seq::empty(),
        }) + ast_items(vs.drop_first())
    }
}

/// What [`Fold::AstFold`] yields: no tree gives nothing, one tree
/// stands alone, several become the children of a fresh `>` node at
/// the first tree's position.
pub open spec fn fold_ast_spec(vs: Seq<SpecVal>) -> SpecVal {
    let kept = ast_items(vs);
    if kept.len() == 0 {
        SpecVal::Null
    } else if kept.len() == 1 {
        SpecVal::Ast(kept[0])
    } else {
        SpecVal::Ast(
            SpecAst {
                tag: seq!['>'],
                contents: Seq::empty(),
                state: kept[0].state,
                children: kept,
            },
        )
    }
}

/// What [`Fold::StateAst`] yields: a captured position followed by a
/// tree gives that tree stamped with the position; anything else gives
/// nothing.
pub open spec fn state_ast_spec(vs: Seq<SpecVal>) -> SpecVal {
    if vs.len() == 2 && vs[0] is State && vs[1] is Ast {
        SpecVal::Ast(SpecAst { state: vs[0]->State_0, ..vs[1]->Ast_0 })
    } else {
        SpecVal::Null
    }
}

/// What the named fold `f` yields on the ordered values `vs`.
pub open spec fn fold_spec(f: Fold, vs: Seq<SpecVal>) -> SpecVal {
    match f {
        Fold::Null => SpecVal::Null,
        Fold::Fst => if vs.len() >= 1 {
            vs[0]
        } else {
            SpecVal::Null
        },
        Fold::Snd => if vs.len() >= 2 {
            vs[1]
        } else {
            SpecVal::Null
        },
        Fold::Trd => if vs.len() >= 3 {
            vs[2]
        } else {
            SpecVal::Null
        },
        Fold::StrFold => SpecVal::Str(strfold_spec(vs)),
        Fold::AstFold => fold_ast_spec(vs),
        Fold::StateAst => state_ast_spec(vs),
    }
}

proof fn lemma_strfold_snoc(vs: Seq<SpecVal>, v: SpecVal)
    ensures
        strfold_spec(vs.push(v)) == strfold_spec(vs) + (match v {
            SpecVal::Str(s) => s,
            _ => Seq::<char>::empty(),
        }),
    decreases vs.len(),
{
    if vs.len() == 0 {
        assert(vs.push(v).drop_first() =~= Seq::<SpecVal>::empty());
        assert(strfold_spec(Seq::<SpecVal>::empty()) =~= Seq::<char>::empty());
        assert(strfold_spec(vs.push(v)) =~= strfold_spec(vs) + (match v {
            SpecVal::Str(s) => s,
            _ => Seq::<char>::empty(),
        }));
    } else {
        assert(vs.push(v).first() == vs.first());
        assert(vs.push(v).drop_first() =~= vs.drop_first().push(v));
        lemma_strfold_snoc(vs.drop_first(), v);
        assert(strfold_spec(vs.push(v)) =~= strfold_spec(vs) + (match v {
            SpecVal::Str(s) => s,
            _ => Seq::<char>::empty(),
        }));
    }
}

proof fn lemma_ast_items_snoc(vs: Seq<SpecVal>, v: SpecVal)
    ensures
        ast_items(vs.push(v)) == ast_items(vs) + (match v {
            SpecVal::Ast(a) => seq![a],
            _ => Seq::<SpecAst>::empty(),
        }),
    decreases vs.len(),
{
    if vs.len() == 0 {
        assert(vs.push(v).drop_first() =~= Seq::<SpecVal>::empty());
        assert(ast_items(Seq::<SpecVal>::empty()) =~= Seq::<SpecAst>::empty());
        assert(ast_items(vs.push(v)) =~= ast_items(vs) + (match v {
            SpecVal::Ast(a) => seq![a],
            _ => Seq::<SpecAst>::empty(),
        }));
    } else {
        assert(vs.push(v).first() == vs.first());
        assert(vs.push(v).drop_first() =~= vs.drop_first().push(v));
        lemma_ast_items_snoc(vs.drop_first(), v);
        assert(ast_items(vs.push(v)) =~= ast_items(vs) + (match v {
            SpecVal::Ast(a) => seq![a],
            _ => Seq::<SpecAst>::empty(),
        }));
    }
}

/// Apply the named fold `f` to the ordered values `vs`.
pub fn fold_exec(f: Fold, vs: Vec<Val>) -> (r: Val)
    ensures
        r@ == fold_spec(f, vals_view(vs@)),
{
    let ghost gvs = vals_view(vs@);
    match f {
        Fold::Null => Val::Null,
        Fold::Fst => {
            if vs.len() >= 1 {
                let mut vs = vs;
                let v = vs.remove(0);
                v
            } else {
                Val::Null
            }
        },
        Fold::Snd => {
            if vs.len() >= 2 {
                let mut vs = vs;
                let v = vs.remove(1);
                v
            } else {
                Val::Null
            }
        },
        Fold::Trd => {
            if vs.len() >= 3 {
                let mut vs = vs;
                let v = vs.remove(2);
                v
            } else {
                Val::Null
            }
        },
        Fold::StrFold => {
            let mut out = String::new();
            let mut i: usize = 0;
            proof {
                assert(gvs.take(0) =~= Seq::<SpecVal>::empty());
                assert(strfold_spec(gvs.take(0)) =~= Seq::<char>::empty());
            }
            while i < vs.len()
                invariant
                    gvs == vals_view(vs@),
                    0 <= i <= vs@.len(),
                    gvs.len() == vs@.len(),
                    out@ == strfold_spec(gvs.take(i as int)),
                decreases vs@.len() - i,
            {
                proof {
                    assert(gvs.take(i + 1) =~= gvs.take(i as int).push(gvs[i as int]));
                    lemma_strfold_snoc(gvs.take(i as int), gvs[i as int]);
                }
                match &vs[i] {
                    Val::Str(s) => {
                        out.append(s.as_str());
                    },
                    _ => {},
                }
                proof {
                    assert(out@ =~= strfold_spec(gvs.take(i + 1)));
                }
                i = i + 1;
            }
            proof {
                assert(gvs.take(vs@.len() as int) =~= gvs);
            }
            Val::Str(out)
        },
        Fold::AstFold => {
            let mut kept: Vec<Ast> = Vec::new();
            let mut i: usize = 0;
            proof {
                assert(gvs.take(0) =~= Seq::<SpecVal>::empty());
                assert(ast_items(gvs.take(0)) =~= Seq::<SpecAst>::empty());
                assert(crate::ast::asts_view(kept@) =~= ast_items(gvs.take(0)));
            }
            while i < vs.len()
                invariant
                    gvs == vals_view(vs@),
                    0 <= i <= vs@.len(),
                    gvs.len() == vs@.len(),
                    crate::ast::asts_view(kept@) == ast_items(gvs.take(i as int)),
                decreases vs@.len() - i,
            {
                proof {
                    assert(gvs.take(i + 1) =~= gvs.take(i as int).push(gvs[i as int]));
                    lemma_ast_items_snoc(gvs.take(i as int), gvs[i as int]);
                }
                match &vs[i] {
                    Val::Ast(a) => {
                        let c = ast_clone(a);
                        kept.push(c);
                    },
                    _ => {},
                }
                proof {
                    assert(crate::ast::asts_view(kept@) =~= ast_items(gvs.take(i + 1)));
                }
                i = i + 1;
            }
            proof {
                assert(gvs.take(vs@.len() as int) =~= gvs);
            }
            let ghost items = ast_items(gvs);
            if kept.len() == 0 {
                Val::Null
            } else if kept.len() == 1 {
                let mut kept = kept;
                let a = kept.remove(0);
                proof {
                    assert(ast_view(a) == items[0]);
                }
                Val::Ast(a)
            } else {
                let st = kept[0].state;
                proof {
                    assert(ast_view(kept@[0]) == items[0]);
                }
                let r = Ast {
                    tag: char_to_string('>'),
                    contents: String::new(),
                    state: st,
                    children: kept,
                };
                proof {
                    assert(ast_view(r).children =~= items);
                    assert(ast_view(r).tag =~= seq!['>']);
                    assert(ast_view(r).contents =~= Seq::<char>::empty());
                }
                Val::Ast(r)
            }
        },
        Fold::StateAst => {
            if vs.len() != 2 {
                return Val::Null;
            }
            let is_shape = matches!(&vs[0], Val::State(_)) && matches!(&vs[1], Val::Ast(_));
            if !is_shape {
                return Val::Null;
            }
            let mut vs = vs;
            let second = vs.remove(1);
            let first = vs.remove(0);
            match (first, second) {
                (Val::State(st), Val::Ast(a)) => {
                    let r = Ast { state: st, ..a };
                    proof {
                        assert(ast_view(r) == (SpecAst { state: st, ..gvs[1]->Ast_0 }));
                    }
                    Val::Ast(r)
                },
                _ => Val::Null,
            }
        },
    }
}

/// A named check: a predicate a `check` combinator tests a value
/// against.
#[derive(Clone, Copy, PartialEq, Eq, Structural, Debug)]
pub enum CheckKind {
    /// The value is a non-empty string.
    StrNonEmpty,
    /// The value is an integer that is zero or more.
    IntNonNegative,
}

/// Whether `v` passes the named check `k`.
pub open spec fn check_spec(k: CheckKind, v: SpecVal) -> bool {
    match k {
        CheckKind::StrNonEmpty => v is Str && v->Str_0.len() > 0,
        CheckKind::IntNonNegative => v is Int && v->Int_0 >= 0,
    }
}

/// Test `v` against the named check `k`.
pub fn check_exec(k: CheckKind, v: &Val) -> (r: bool)
    ensures
        r == check_spec(k, v@),
{
    match k {
        CheckKind::StrNonEmpty => match v {
            Val::Str(s) => !s.as_str().is_empty(),
            _ => false,
        },
        CheckKind::IntNonNegative => match v {
            Val::Int(n) => *n >= 0,
            _ => false,
        },
    }
}

/// A named two-place check, testing a value against a fixed companion
/// value.
#[derive(Clone, Copy, PartialEq, Eq, Structural, Debug)]
pub enum CheckWithKind {
    /// The value is a string equal to the companion string.
    StrEq,
}

/// Whether `v` passes the named check `k` against the companion `x`.
pub open spec fn check_with_spec(k: CheckWithKind, v: SpecVal, x: SpecVal) -> bool {
    match k {
        CheckWithKind::StrEq => v is Str && x is Str && v->Str_0 == x->Str_0,
    }
}

/// Test `v` against the named check `k` and the companion `x`.
pub fn check_with_exec(k: CheckWithKind, v: &Val, x: &Val) -> (r: bool)
    ensures
        r == check_with_spec(k, v@, x@),
{
    match k {
        CheckWithKind::StrEq => match (v, x) {
            (Val::Str(s), Val::Str(t)) => s.eq(t),
            _ => false,
        },
    }
}

/// A named constructor: how a lift combinator conjures a value.
#[derive(Clone, Copy, PartialEq, Eq, Structural, Debug)]
pub enum CtorKind {
    /// Nothing.
    Null,
    /// The empty string.
    EmptyStr,
}

/// The value the named constructor `k` yields.
pub open spec fn ctor_spec(k: CtorKind) -> SpecVal {
    match k {
        CtorKind::Null => SpecVal::Null,
        CtorKind::EmptyStr => SpecVal::Str(Seq::empty()),
    }
}

/// Run the named constructor `k`.
pub fn ctor_exec(k: CtorKind) -> (r: Val)
    ensures
        r@ == ctor_spec(k),
{
    match k {
        CtorKind::Null => Val::Null,
        CtorKind::EmptyStr => Val::Str(String::new()),
    }
}

/// A named apply: a pure rewriting of one value.
#[derive(Clone, Copy, PartialEq, Eq, Structural, Debug)]
pub enum ApplyKind {
    /// Discard the value.
    Free,
    /// Read a string as a decimal integer.
    Int,
    /// Read a string as a hexadecimal integer.
    Hex,
    /// Read a string as an octal integer.
    Oct,
    /// Drop a string's leading whitespace.
    StrTrimL,
    /// Drop a string's trailing whitespace.
    StrTrimR,
    /// Drop a string's leading and trailing whitespace.
    StrTrim,
    /// Escape a string under the full table.
    Escape,
    /// Escape only the `/` delimiter.
    EscapeRegex,
    /// Escape only the `"` delimiter.
    EscapeStringRaw,
    /// Escape only the `'` delimiter.
    EscapeCharRaw,
    /// Unescape a string under the full table.
    Unescape,
    /// Unescape only the `/` delimiter.
    UnescapeRegex,
    /// Unescape only the `"` delimiter.
    UnescapeStringRaw,
    /// Unescape only the `'` delimiter.
    UnescapeCharRaw,
    /// Wrap a string as a leaf tree holding it as contents.
    StrAst,
    /// Ensure a tree value has a root node to hang tags on.
    AstRoot,
}

/// What the named apply `k` yields on `v`.  The applies that rewrite
/// strings leave any other value as it is; the applies that rewrite
/// trees likewise.
pub open spec fn apply_spec(k: ApplyKind, v: SpecVal) -> SpecVal {
    match k {
        ApplyKind::Free => SpecVal::Null,
        ApplyKind::Int => if v is Str {
            SpecVal::Int(strtol_spec(v->Str_0, 10) as i64)
        } else {
            v
        },
        ApplyKind::Hex => if v is Str {
            SpecVal::Int(strtol_spec(v->Str_0, 16) as i64)
        } else {
            v
        },
        ApplyKind::Oct => if v is Str {
            SpecVal::Int(strtol_spec(v->Str_0, 8) as i64)
        } else {
            v
        },
        ApplyKind::StrTrimL => if v is Str {
            SpecVal::Str(triml_spec(v->Str_0))
        } else {
            v
        },
        ApplyKind::StrTrimR => if v is Str {
            SpecVal::Str(trimr_spec(v->Str_0))
        } else {
            v
        },
        ApplyKind::StrTrim => if v is Str {
            SpecVal::Str(trimr_spec(triml_spec(v->Str_0)))
        } else {
            v
        },
        ApplyKind::Escape => if v is Str {
            SpecVal::Str(escape_spec(EscTable::Default, v->Str_0))
        } else {
            v
        },
        ApplyKind::EscapeRegex => if v is Str {
            SpecVal::Str(escape_spec(EscTable::Regex, v->Str_0))
        } else {
            v
        },
        ApplyKind::EscapeStringRaw => if v is Str {
            SpecVal::Str(escape_spec(EscTable::StringRaw, v->Str_0))
        } else {
            v
        },
        ApplyKind::EscapeCharRaw => if v is Str {
            SpecVal::Str(escape_spec(EscTable::CharRaw, v->Str_0))
        } else {
            v
        },
        ApplyKind::Unescape => if v is Str {
            SpecVal::Str(unescape_spec(EscTable::Default, v->Str_0))
        } else {
            v
        },
        ApplyKind::UnescapeRegex => if v is Str {
            SpecVal::Str(unescape_spec(EscTable::Regex, v->Str_0))
        } else {
            v
        },
        ApplyKind::UnescapeStringRaw => if v is Str {
            SpecVal::Str(unescape_spec(EscTable::StringRaw, v->Str_0))
        } else {
            v
        },
        ApplyKind::UnescapeCharRaw => if v is Str {
            SpecVal::Str(unescape_spec(EscTable::CharRaw, v->Str_0))
        } else {
            v
        },
        ApplyKind::StrAst => if v is Str {
            SpecVal::Ast(
                SpecAst {
                    tag: Seq::empty(),
                    contents: v->Str_0,
                    state: state_invalid_spec(),
                    children: Seq::empty(),
                },
            )
        } else {
            v
        },
        ApplyKind::AstRoot => if v is Ast {
            SpecVal::Ast(crate::ast::add_root_spec(v->Ast_0))
        } else {
            v
        },
    }
}

/// Run the named apply `k` on `v`.
pub fn apply_exec(k: ApplyKind, v: Val) -> (r: Val)
    ensures
        r@ == apply_spec(k, v@),
{
    match k {
        ApplyKind::Free => Val::Null,
        ApplyKind::Int => match v {
            Val::Str(s) => Val::Int(strtol_str(s.as_str(), 10)),
            other => other,
        },
        ApplyKind::Hex => match v {
            Val::Str(s) => Val::Int(strtol_str(s.as_str(), 16)),
            other => other,
        },
        ApplyKind::Oct => match v {
            Val::Str(s) => Val::Int(strtol_str(s.as_str(), 8)),
            other => other,
        },
        ApplyKind::StrTrimL => match v {
            Val::Str(s) => Val::Str(triml_str(s.as_str())),
            other => other,
        },
        ApplyKind::StrTrimR => match v {
            Val::Str(s) => Val::Str(trimr_str(s.as_str())),
            other => other,
        },
        ApplyKind::StrTrim => match v {
            Val::Str(s) => {
                let l = triml_str(s.as_str());
                Val::Str(trimr_str(l.as_str()))
            },
            other => other,
        },
        ApplyKind::Escape => match v {
            Val::Str(s) => Val::Str(escape_str(EscTable::Default, s.as_str())),
            other => other,
        },
        ApplyKind::EscapeRegex => match v {
            Val::Str(s) => Val::Str(escape_str(EscTable::Regex, s.as_str())),
            other => other,
        },
        ApplyKind::EscapeStringRaw => match v {
            Val::Str(s) => Val::Str(escape_str(EscTable::StringRaw, s.as_str())),
            other => other,
        },
        ApplyKind::EscapeCharRaw => match v {
            Val::Str(s) => Val::Str(escape_str(EscTable::CharRaw, s.as_str())),
            other => other,
        },
        ApplyKind::Unescape => match v {
            Val::Str(s) => Val::Str(unescape_str(EscTable::Default, s.as_str())),
            other => other,
        },
        ApplyKind::UnescapeRegex => match v {
            Val::Str(s) => Val::Str(unescape_str(EscTable::Regex, s.as_str())),
            other => other,
        },
        ApplyKind::UnescapeStringRaw => match v {
            Val::Str(s) => Val::Str(unescape_str(EscTable::StringRaw, s.as_str())),
            other => other,
        },
        ApplyKind::UnescapeCharRaw => match v {
            Val::Str(s) => Val::Str(unescape_str(EscTable::CharRaw, s.as_str())),
            other => other,
        },
        ApplyKind::StrAst => match v {
            Val::Str(s) => {
                let a = Ast {
                    tag: String::new(),
                    contents: s,
                    state: State { pos: -1, row: -1, col: -1, term: 0 },
                    children: Vec::new(),
                };
                proof {
                    assert(ast_view(a).children =~= Seq::<SpecAst>::empty());
                    assert(ast_view(a).tag =~= Seq::<char>::empty());
                }
                Val::Ast(a)
            },
            other => other,
        },
        ApplyKind::AstRoot => match v {
            Val::Ast(a) => Val::Ast(crate::ast::mpc_ast_add_root(a)),
            other => other,
        },
    }
}

/// A named two-place apply, rewriting a value with a fixed companion
/// value.
#[derive(Clone, Copy, PartialEq, Eq, Structural, Debug)]
pub enum ApplyToKind {
    /// Replace a tree's tag with the companion string.
    AstTag,
    /// Prefix the companion string and a `|` separator to a tree's
    /// tag.
    AstAddTag,
}

/// What the named two-place apply `k` yields on `v` with companion
/// `x`.  Where the shapes do not fit, `v` stays as it is.
pub open spec fn apply_to_spec(k: ApplyToKind, v: SpecVal, x: SpecVal) -> SpecVal {
    match k {
        ApplyToKind::AstTag => if v is Ast && x is Str {
            SpecVal::Ast(SpecAst { tag: x->Str_0, ..v->Ast_0 })
        } else {
            v
        },
        ApplyToKind::AstAddTag => if v is Ast && x is Str {
            SpecVal::Ast(SpecAst { tag: x->Str_0 + seq!['|'] + v->Ast_0.tag, ..v->Ast_0 })
        } else {
            v
        },
    }
}

/// Run the named two-place apply `k` on `v` with companion `x`.
pub fn apply_to_exec(k: ApplyToKind, v: Val, x: &Val) -> (r: Val)
    ensures
        r@ == apply_to_spec(k, v@, x@),
{
    match k {
        ApplyToKind::AstTag => match (v, x) {
            (Val::Ast(a), Val::Str(t)) => Val::Ast(crate::ast::mpc_ast_tag(a, t.as_str())),
            (other, _) => other,
        },
        ApplyToKind::AstAddTag => match (v, x) {
            (Val::Ast(a), Val::Str(t)) => Val::Ast(crate::ast::mpc_ast_add_tag(a, t.as_str())),
            (other, _) => other,
        },
    }
}

/// Release a value; ownership already frees it, so there is nothing
/// left to do.
pub fn mpcf_dtor_null(x: Val) {
    let _ = x;
}

/// Conjure nothing.
pub fn mpcf_ctor_null() -> (r: Val)
    ensures
        r@ == SpecVal::Null,
{
    ctor_exec(CtorKind::Null)
}

/// Conjure the empty string.
pub fn mpcf_ctor_str() -> (r: Val)
    ensures
        r@ == SpecVal::Str(Seq::<char>::empty()),
{
    ctor_exec(CtorKind::EmptyStr)
}

/// Discard `x` and yield nothing.
pub fn mpcf_free(x: Val) -> (r: Val)
    ensures
        r@ == apply_spec(ApplyKind::Free, x@),
{
    apply_exec(ApplyKind::Free, x)
}

/// Read a string value as a decimal integer.
pub fn mpcf_int(x: Val) -> (r: Val)
    ensures
        r@ == apply_spec(ApplyKind::Int, x@),
{
    apply_exec(ApplyKind::Int, x)
}

/// Read a string value as a hexadecimal integer.
pub fn mpcf_hex(x: Val) -> (r: Val)
    ensures
        r@ == apply_spec(ApplyKind::Hex, x@),
{
    apply_exec(ApplyKind::Hex, x)
}

/// Read a string value as an octal integer.
pub fn mpcf_oct(x: Val) -> (r: Val)
    ensures
        r@ == apply_spec(ApplyKind::Oct, x@),
{
    apply_exec(ApplyKind::Oct, x)
}

/// Drop a string value's leading whitespace.
pub fn mpcf_strtriml(x: Val) -> (r: Val)
    ensures
        r@ == apply_spec(ApplyKind::StrTrimL, x@),
{
    apply_exec(ApplyKind::StrTrimL, x)
}

/// Drop a string value's trailing whitespace.
pub fn mpcf_strtrimr(x: Val) -> (r: Val)
    ensures
        r@ == apply_spec(ApplyKind::StrTrimR, x@),
{
    apply_exec(ApplyKind::StrTrimR, x)
}

/// Drop a string value's whitespace on both sides.
pub fn mpcf_strtrim(x: Val) -> (r: Val)
    ensures
        r@ == apply_spec(ApplyKind::StrTrim, x@),
{
    apply_exec(ApplyKind::StrTrim, x)
}

/// Escape a string value under the full table.
pub fn mpcf_escape(x: Val) -> (r: Val)
    ensures
        r@ == apply_spec(ApplyKind::Escape, x@),
{
    apply_exec(ApplyKind::Escape, x)
}

/// Escape only the regex delimiter in a string value.
pub fn mpcf_escape_regex(x: Val) -> (r: Val)
    ensures
        r@ == apply_spec(ApplyKind::EscapeRegex, x@),
{
    apply_exec(ApplyKind::EscapeRegex, x)
}

/// Escape only the double quote in a string value.
pub fn mpcf_escape_string_raw(x: Val) -> (r: Val)
    ensures
        r@ == apply_spec(ApplyKind::EscapeStringRaw, x@),
{
    apply_exec(ApplyKind::EscapeStringRaw, x)
}

/// Escape only the single quote in a string value.
pub fn mpcf_escape_char_raw(x: Val) -> (r: Val)
    ensures
        r@ == apply_spec(ApplyKind::EscapeCharRaw, x@),
{
    apply_exec(ApplyKind::EscapeCharRaw, x)
}

/// Unescape a string value under the full table.
pub fn mpcf_unescape(x: Val) -> (r: Val)
    ensures
        r@ == apply_spec(ApplyKind::Unescape, x@),
{
    apply_exec(ApplyKind::Unescape, x)
}

/// Unescape only the regex delimiter in a string value.
pub fn mpcf_unescape_regex(x: Val) -> (r: Val)
    ensures
        r@ == apply_spec(ApplyKind::UnescapeRegex, x@),
{
    apply_exec(ApplyKind::UnescapeRegex, x)
}

/// Unescape only the double quote in a string value.
pub fn mpcf_unescape_string_raw(x: Val) -> (r: Val)
    ensures
        r@ == apply_spec(ApplyKind::UnescapeStringRaw, x@),
{
    apply_exec(ApplyKind::UnescapeStringRaw, x)
}

/// Unescape only the single quote in a string value.
pub fn mpcf_unescape_char_raw(x: Val) -> (r: Val)
    ensures
        r@ == apply_spec(ApplyKind::UnescapeCharRaw, x@),
{
    apply_exec(ApplyKind::UnescapeCharRaw, x)
}

/// Fold a sequence of values into nothing.
pub fn mpcf_null(xs: Vec<Val>) -> (r: Val)
    ensures
        r@ == fold_spec(Fold::Null, vals_view(xs@)),
{
    fold_exec(Fold::Null, xs)
}

/// Keep the first of the folded values.
pub fn mpcf_fst(xs: Vec<Val>) -> (r: Val)
    ensures
        r@ == fold_spec(Fold::Fst, vals_view(xs@)),
{
    fold_exec(Fold::Fst, xs)
}

/// Keep the second of the folded values.
pub fn mpcf_snd(xs: Vec<Val>) -> (r: Val)
    ensures
        r@ == fold_spec(Fold::Snd, vals_view(xs@)),
{
    fold_exec(Fold::Snd, xs)
}

/// Keep the third of the folded values.
pub fn mpcf_trd(xs: Vec<Val>) -> (r: Val)
    ensures
        r@ == fold_spec(Fold::Trd, vals_view(xs@)),
{
    fold_exec(Fold::Trd, xs)
}

/// Release every folded value and yield nothing.
pub fn mpcf_all_free(xs: Vec<Val>) -> (r: Val)
    ensures
        r@ == fold_spec(Fold::Null, vals_view(xs@)),
{
    fold_exec(Fold::Null, xs)
}

/// Keep the first folded value; the rest are released by ownership.
pub fn mpcf_fst_free(xs: Vec<Val>) -> (r: Val)
    ensures
        r@ == fold_spec(Fold::Fst, vals_view(xs@)),
{
    fold_exec(Fold::Fst, xs)
}

/// Keep the second folded value; the rest are released by ownership.
pub fn mpcf_snd_free(xs: Vec<Val>) -> (r: Val)
    ensures
        r@ == fold_spec(Fold::Snd, vals_view(xs@)),
{
    fold_exec(Fold::Snd, xs)
}

/// Keep the third folded value; the rest are released by ownership.
pub fn mpcf_trd_free(xs: Vec<Val>) -> (r: Val)
    ensures
        r@ == fold_spec(Fold::Trd, vals_view(xs@)),
{
    fold_exec(Fold::Trd, xs)
}

/// Release every folded value and yield nothing.
pub fn mpcf_freefold(xs: Vec<Val>) -> (r: Val)
    ensures
        r@ == fold_spec(Fold::Null, vals_view(xs@)),
{
    fold_exec(Fold::Null, xs)
}

/// Concatenate the folded string values.
pub fn mpcf_strfold(xs: Vec<Val>) -> (r: Val)
    ensures
        r@ == fold_spec(Fold::StrFold, vals_view(xs@)),
{
    fold_exec(Fold::StrFold, xs)
}

/// Gather the folded tree values under one node.
pub fn mpcf_fold_ast(xs: Vec<Val>) -> (r: Val)
    ensures
        r@ == fold_spec(Fold::AstFold, vals_view(xs@)),
{
    fold_exec(Fold::AstFold, xs)
}

/// Wrap a string value as a leaf tree.
pub fn mpcf_str_ast(x: Val) -> (r: Val)
    ensures
        r@ == apply_spec(ApplyKind::StrAst, x@),
{
    apply_exec(ApplyKind::StrAst, x)
}

/// Stamp a captured position onto the tree that follows it.
pub fn mpcf_state_ast(xs: Vec<Val>) -> (r: Val)
    ensures
        r@ == fold_spec(Fold::StateAst, vals_view(xs@)),
{
    fold_exec(Fold::StateAst, xs)
}

} // verus!
