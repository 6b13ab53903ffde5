//! The runtime grammar compiler.
//!
//! A grammar is text in a small declarative language, compiled into
//! combinator nodes at runtime:
//!
//! - a grammar file is a list of rules, `name : body ;`;
//! - a body is an alternation of sequences, the alternatives parted
//!   by `|`;
//! - a sequence is one or more factors, side by side;
//! - a factor is a base with optional repetition suffixes: `*` for
//!   zero or more, `+` for one or more, `?` for optional, `{n}` for
//!   exactly `n`;
//! - a base is a string literal `"…"`, a character literal `'…'`, a
//!   reference `<name>` or a bare `name`, or a grouped alternation
//!   `( … )`.  Literals use the usual backslash escapes.  Regex
//!   literals are not part of this surface: a pre-built matcher is
//!   supplied through the rule table instead, and referenced by
//!   name.
//!
//! Compilation is two-pass: every rule name is registered first, so
//! rules may refer to each other and to themselves; then each body
//! is built, references compiling to named links.  A reference that
//! names neither a rule of the grammar nor an entry of the caller's
//! table is a compile-time error — reported before any input is
//! parsed, never as a parse-time failure.  The whole pipeline is
//! pinned down against a specification-level reading of the text:
//! [`grammar_rules_spec`] says which rules a text spells,
//! [`build_spec`] which node a body compiles to, and [`mpca_lang`]
//! succeeds exactly when the text parses and every reference
//! resolves, installing precisely [`install_rules`] of its rules.
//!
//! Compiled rules build trees: a matched literal becomes a leaf
//! tagged `string` or `char`, a sequence gathers its parts under a
//! `>` node, and each rule prefixes its name to the tag of whatever
//! its body built.

use vstd::prelude::*;

use crate::chars::CharClass;
use crate::chars::EscTable;
use crate::chars::chars_to_string;
use crate::chars::class_test;
use crate::chars::unescape_str;
use crate::parser::DefTable;
use crate::parser::Parser;
use crate::parser::SpecParser;
use crate::parser::lookup_def;
use crate::parser::mpc_define;
use crate::parser::mpc_new;
use crate::parser::mpc_predictive;
use crate::val::ApplyKind;
use crate::combinators::mpca_add_tag;
use crate::combinators::mpca_and;
use crate::combinators::mpca_count;
use crate::combinators::mpca_many;
use crate::combinators::mpca_many1;
use crate::combinators::mpca_maybe;
use crate::combinators::mpca_or;
use crate::combinators::mpca_tag;
use crate::combinators::mpc_tok;
use crate::parser::mpc_apply;
use crate::parser::mpc_string;

verus! {

broadcast use vstd::seq::group_seq_axioms;

/// Options of the grammar compiler.
#[derive(Clone, Copy, PartialEq, Eq, Structural, Debug)]
pub struct LangFlags {
    /// Wrap every alternation in a predictive node: commit to the
    /// first alternative that starts matching, with no backtracking
    /// across `|`.
    pub predictive: bool,
    /// Do not skip whitespace after literals.
    pub whitespace_sensitive: bool,
}

impl Default for LangFlags {
    /// Backtracking alternation, whitespace skipped after literals.
    fn default() -> (r: LangFlags)
        ensures
            r == (LangFlags { predictive: false, whitespace_sensitive: false }),
    {
        LangFlags { predictive: false, whitespace_sensitive: false }
    }
}

/// A grammar compile error: where in the grammar text, and what went
/// wrong.  Deliberately a type of its own — a broken grammar is
/// caught before any input is parsed and never surfaces as a parse
/// error.
#[derive(Debug)]
pub struct GrammarErr {
    /// Character offset into the grammar text.
    pub pos: usize,
    /// What went wrong.
    pub message: String,
}

/// The body of a rule, parsed but not yet built: the tree of the
/// grammar surface.
pub enum GExpr {
    /// A string literal, unescaped.
    Lit(String),
    /// A character literal, unescaped.
    Chr(String),
    /// A reference to a rule or a table entry.
    Ref(String),
    /// Factors side by side.
    Cat(Vec<GExpr>),
    /// Alternatives parted by `|`.
    Alt(Vec<GExpr>),
    /// Zero or more.
    Star(Box<GExpr>),
    /// One or more.
    Plus(Box<GExpr>),
    /// Optional.
    Opt(Box<GExpr>),
    /// Exactly `n`.
    Rep(u64, Box<GExpr>),
}

/// The mathematical mirror of [`GExpr`].
pub enum SpecGExpr {
    Lit(Seq<char>),
    Chr(Seq<char>),
    Ref(Seq<char>),
    Cat(Seq<SpecGExpr>),
    Alt(Seq<SpecGExpr>),
    Star(Box<SpecGExpr>),
    Plus(Box<SpecGExpr>),
    Opt(Box<SpecGExpr>),
    Rep(u64, Box<SpecGExpr>),
}

/// The mathematical mirror of a parsed body.
pub open spec fn gexpr_view(e: GExpr) -> SpecGExpr
    decreases e,
{
    match e {
        GExpr::Lit(s) => SpecGExpr::Lit(s@),
        GExpr::Chr(s) => SpecGExpr::Chr(s@),
        GExpr::Ref(n) => SpecGExpr::Ref(n@),
        GExpr::Cat(l) => SpecGExpr::Cat(
            Seq::new(
                l@.len(),
                |i: int|
                    if 0 <= i < l@.len() {
                        gexpr_view(l@[i])
                    } else {
                        SpecGExpr::Lit(Seq::empty())
                    },
            ),
        ),
        GExpr::Alt(l) => SpecGExpr::Alt(
            Seq::new(
                l@.len(),
                |i: int|
                    if 0 <= i < l@.len() {
                        gexpr_view(l@[i])
                    } else {
                        SpecGExpr::Lit(Seq::empty())
                    },
            ),
        ),
        GExpr::Star(b) => SpecGExpr::Star(Box::new(gexpr_view(*b))),
        GExpr::Plus(b) => SpecGExpr::Plus(Box::new(gexpr_view(*b))),
        GExpr::Opt(b) => SpecGExpr::Opt(Box::new(gexpr_view(*b))),
        GExpr::Rep(n, b) => SpecGExpr::Rep(n, Box::new(gexpr_view(*b))),
    }
}

impl View for GExpr {
    type V = SpecGExpr;

    open spec fn view(&self) -> SpecGExpr {
        gexpr_view(*self)
    }
}

/// The mathematical mirrors of a list of bodies.
pub open spec fn gexprs_view(l: Seq<GExpr>) -> Seq<SpecGExpr> {
    Seq::new(
        l.len(),
        |i: int|
            if 0 <= i < l.len() {
                gexpr_view(l[i])
            } else {
                SpecGExpr::Lit(Seq::empty())
            },
    )
}

/// The mathematical mirror of a parsed rule list: each name with its
/// body.
pub open spec fn rules_view(rs: Seq<(String, GExpr)>) -> Seq<(Seq<char>, SpecGExpr)> {
    Seq::new(
        rs.len(),
        |i: int|
            if 0 <= i < rs.len() {
                (rs[i].0@, gexpr_view(rs[i].1))
            } else {
                (Seq::<char>::empty(), SpecGExpr::Lit(Seq::empty()))
            },
    )
}

/// The node a literal of the grammar surface compiles to: the text
/// matched (as a token unless the grammar is whitespace-sensitive),
/// wrapped as a leaf tree and tagged.
pub open spec fn lit_node_spec(s: Seq<char>, tag: Seq<char>, flags: LangFlags) -> SpecParser {
    SpecParser::ApplyTo(
        Box::new(
            SpecParser::Apply(
                Box::new(
                    if flags.whitespace_sensitive {
                        SpecParser::StrLit(s)
                    } else {
                        crate::combinators::tok_spec(SpecParser::StrLit(s))
                    },
                ),
                ApplyKind::StrAst,
            ),
        ),
        crate::val::ApplyToKind::AstTag,
        crate::val::SpecVal::Str(tag),
    )
}

/// The combinator node a parsed body compiles to: the exact
/// surface-to-node translation that [`grammar_build`] installs.
pub open spec fn build_spec(e: SpecGExpr, flags: LangFlags) -> SpecParser
    decreases e, 0int,
{
    match e {
        SpecGExpr::Lit(s) => lit_node_spec(s, "string"@, flags),
        SpecGExpr::Chr(s) => lit_node_spec(s, "char"@, flags),
        SpecGExpr::Ref(n) => SpecParser::Named(n),
        SpecGExpr::Cat(l) => SpecParser::And(
            crate::val::Fold::AstFold,
            build_list_spec(l, flags),
        ),
        SpecGExpr::Alt(l) => if flags.predictive {
            SpecParser::Predictive(Box::new(SpecParser::Or(build_list_spec(l, flags))))
        } else {
            SpecParser::Or(build_list_spec(l, flags))
        },
        SpecGExpr::Star(b) => SpecParser::Many(
            crate::val::Fold::AstFold,
            Box::new(build_spec(*b, flags)),
        ),
        SpecGExpr::Plus(b) => SpecParser::Many1(
            crate::val::Fold::AstFold,
            Box::new(build_spec(*b, flags)),
        ),
        SpecGExpr::Opt(b) => SpecParser::Maybe(
            Box::new(build_spec(*b, flags)),
            crate::val::CtorKind::Null,
        ),
        SpecGExpr::Rep(n, b) => SpecParser::Count(
            n,
            crate::val::Fold::AstFold,
            Box::new(build_spec(*b, flags)),
        ),
    }
}

/// The nodes a list of bodies compiles to.
pub open spec fn build_list_spec(l: Seq<SpecGExpr>, flags: LangFlags) -> Seq<SpecParser>
    decreases l, 1int,
{
    Seq::new(
        l.len(),
        |i: int|
            if 0 <= i < l.len() {
                build_spec(l[i], flags)
            } else {
                SpecParser::Pass
            },
    )
}

/// The parser a whole rule compiles to: its body's node, with the
/// rule's name prefixed to the tag of every tree it builds.
pub open spec fn rule_node_spec(name: Seq<char>, e: SpecGExpr, flags: LangFlags) -> SpecParser {
    SpecParser::ApplyTo(
        Box::new(build_spec(e, flags)),
        crate::val::ApplyToKind::AstAddTag,
        crate::val::SpecVal::Str(name),
    )
}

/// The table after installing a rule list over `d`: each rule's
/// compiled, tagged node defined under its name, in order, a later
/// rule shadowing an earlier one of the same name.
pub open spec fn install_rules(
    d: Seq<(Seq<char>, SpecParser)>,
    rs: Seq<(Seq<char>, SpecGExpr)>,
    flags: LangFlags,
) -> Seq<(Seq<char>, SpecParser)>
    decreases rs.len(),
{
    if rs.len() == 0 {
        d
    } else {
        install_rules(
            seq![(rs.first().0, rule_node_spec(rs.first().0, rs.first().1, flags))] + d,
            rs.drop_first(),
            flags,
        )
    }
}

proof fn lemma_install_snoc(
    d: Seq<(Seq<char>, SpecParser)>,
    rs: Seq<(Seq<char>, SpecGExpr)>,
    x: (Seq<char>, SpecGExpr),
    flags: LangFlags,
)
    ensures
        install_rules(d, rs.push(x), flags) == seq![(x.0, rule_node_spec(x.0, x.1, flags))]
            + install_rules(d, rs, flags),
    decreases rs.len(),
{
    if rs.len() == 0 {
        assert(rs.push(x).first() == x);
        assert(rs.push(x).drop_first() =~= Seq::<(Seq<char>, SpecGExpr)>::empty());
        assert(install_rules(
            seq![(x.0, rule_node_spec(x.0, x.1, flags))] + d,
            Seq::<(Seq<char>, SpecGExpr)>::empty(),
            flags,
        ) == seq![(x.0, rule_node_spec(x.0, x.1, flags))] + d);
    } else {
        assert(rs.push(x).first() == rs.first());
        assert(rs.push(x).drop_first() =~= rs.drop_first().push(x));
        lemma_install_snoc(
            seq![(rs.first().0, rule_node_spec(rs.first().0, rs.first().1, flags))] + d,
            rs.drop_first(),
            x,
            flags,
        );
    }
}

/// Every name the expression refers to, in order of appearance.
pub open spec fn gexpr_refs(e: GExpr) -> Seq<Seq<char>>
    decreases e, 0int,
{
    match e {
        GExpr::Lit(_) => Seq::empty(),
        GExpr::Chr(_) => Seq::empty(),
        GExpr::Ref(n) => seq![n@],
        GExpr::Cat(l) => gexpr_list_refs(l@),
        GExpr::Alt(l) => gexpr_list_refs(l@),
        GExpr::Star(b) => gexpr_refs(*b),
        GExpr::Plus(b) => gexpr_refs(*b),
        GExpr::Opt(b) => gexpr_refs(*b),
        GExpr::Rep(_, b) => gexpr_refs(*b),
    }
}

/// The names referred to anywhere in a list of expressions.
pub open spec fn gexpr_list_refs(l: Seq<GExpr>) -> Seq<Seq<char>>
    decreases l, 1int,
{
    if l.len() == 0 {
        Seq::empty()
    } else {
        gexpr_refs(l.first()) + gexpr_list_refs(l.drop_first())
    }
}

/// The names of a rule list, in order.
pub open spec fn rule_names(rules: Seq<(String, GExpr)>) -> Seq<Seq<char>> {
    Seq::new(
        rules.len(),
        |i: int|
            if 0 <= i < rules.len() {
                rules[i].0@
            } else {
                Seq::empty()
            },
    )
}

/// Whether the name `n` can be resolved: it names a rule of the
/// grammar, or an entry of the caller's table.
pub open spec fn name_known(
    names: Seq<Seq<char>>,
    d: Seq<(Seq<char>, SpecParser)>,
    n: Seq<char>,
) -> bool {
    names.contains(n) || lookup_def(d, n) is Some
}

/// Whether every reference of `e` can be resolved.
pub open spec fn refs_known(
    e: GExpr,
    names: Seq<Seq<char>>,
    d: Seq<(Seq<char>, SpecParser)>,
) -> bool {
    forall|j: int|
        0 <= j < gexpr_refs(e).len() ==> name_known(names, d, #[trigger] gexpr_refs(e)[j])
}

/// Every name the mirrored expression refers to, in order.
pub open spec fn sg_refs(e: SpecGExpr) -> Seq<Seq<char>>
    decreases e, 0int,
{
    match e {
        SpecGExpr::Lit(_) => Seq::empty(),
        SpecGExpr::Chr(_) => Seq::empty(),
        SpecGExpr::Ref(n) => seq![n],
        SpecGExpr::Cat(l) => sg_list_refs(l),
        SpecGExpr::Alt(l) => sg_list_refs(l),
        SpecGExpr::Star(b) => sg_refs(*b),
        SpecGExpr::Plus(b) => sg_refs(*b),
        SpecGExpr::Opt(b) => sg_refs(*b),
        SpecGExpr::Rep(_, b) => sg_refs(*b),
    }
}

/// The names referred to anywhere in a list of mirrored expressions.
pub open spec fn sg_list_refs(l: Seq<SpecGExpr>) -> Seq<Seq<char>>
    decreases l, 1int,
{
    if l.len() == 0 {
        Seq::empty()
    } else {
        sg_refs(l.first()) + sg_list_refs(l.drop_first())
    }
}

/// The names of a mirrored rule list, in order.
pub open spec fn sg_rule_names(rs: Seq<(Seq<char>, SpecGExpr)>) -> Seq<Seq<char>> {
    Seq::new(
        rs.len(),
        |i: int|
            if 0 <= i < rs.len() {
                rs[i].0
            } else {
                Seq::empty()
            },
    )
}

/// Whether every reference of every rule body resolves: to a rule of
/// the set, or to an entry of the table `d`.
pub open spec fn rules_resolve(rs: Seq<(Seq<char>, SpecGExpr)>, d: Seq<(Seq<char>, SpecParser)>) -> bool {
    forall|i: int, j: int|
        0 <= i < rs.len() && 0 <= j < sg_refs(rs[i].1).len() ==> name_known(
            sg_rule_names(rs),
            d,
            #[trigger] sg_refs(rs[i].1)[j],
        )
}

proof fn lemma_refs_view(e: GExpr)
    ensures
        sg_refs(gexpr_view(e)) == gexpr_refs(e),
    decreases e, 0int,
{
    match e {
        GExpr::Cat(l) => {
            assert(gexpr_view(e)->Cat_0 =~= gexprs_view(l@));
            lemma_refs_view_list(l@);
        },
        GExpr::Alt(l) => {
            assert(gexpr_view(e)->Alt_0 =~= gexprs_view(l@));
            lemma_refs_view_list(l@);
        },
        GExpr::Star(b) => {
            lemma_refs_view(*b);
        },
        GExpr::Plus(b) => {
            lemma_refs_view(*b);
        },
        GExpr::Opt(b) => {
            lemma_refs_view(*b);
        },
        GExpr::Rep(_, b) => {
            lemma_refs_view(*b);
        },
        _ => {},
    }
}

proof fn lemma_refs_view_list(l: Seq<GExpr>)
    ensures
        sg_list_refs(gexprs_view(l)) == gexpr_list_refs(l),
    decreases l, 1int,
{
    if l.len() == 0 {
        assert(gexprs_view(l).len() == 0);
    } else {
        assert(gexprs_view(l).first() == gexpr_view(l.first()));
        assert(gexprs_view(l).drop_first() =~= gexprs_view(l.drop_first()));
        lemma_refs_view(l.first());
        lemma_refs_view_list(l.drop_first());
    }
}

/// The largest repetition count the surface accepts.
pub const REP_COUNT_MAX: u64 = 0x1000_0000_0000_0000;

/// The index of the first non-whitespace character of `t` at or
/// after `i`.
pub open spec fn ws_end(t: Seq<char>, i: int) -> int
    decreases t.len() - i,
{
    if 0 <= i < t.len() && crate::chars::is_space_char(t[i]) {
        ws_end(t, i + 1)
    } else {
        i
    }
}

/// Whether `c` can appear in a rule name.
pub open spec fn is_name_char(c: char) -> bool {
    crate::chars::is_alnum_char(c) || c == '_' || c == '-'
}

/// Whether a factor of the surface can begin with `c`.
pub open spec fn factor_start(c: char) -> bool {
    c == '"' || c == '\'' || c == '<' || c == '(' || is_name_char(c)
}

/// The index just past the run of name characters at `i`.
pub open spec fn name_end(t: Seq<char>, i: int) -> int
    decreases t.len() - i,
{
    if 0 <= i < t.len() && is_name_char(t[i]) {
        name_end(t, i + 1)
    } else {
        i
    }
}

/// The rule name read at `i`, where one starts there.
pub open spec fn name_spec(t: Seq<char>, i: int) -> Option<(Seq<char>, int)> {
    let j = name_end(t, i);
    if j == i {
        None
    } else {
        Some((t.subrange(i, j), j))
    }
}

/// The raw text of a quoted literal from `k` to its closing `delim`,
/// a backslash carrying the following character through.
pub open spec fn quote_scan(t: Seq<char>, k: int, delim: char) -> Option<(Seq<char>, int)>
    decreases t.len() - k,
{
    if k < 0 || k >= t.len() {
        None
    } else if t[k] == delim {
        Some((Seq::empty(), k + 1))
    } else if t[k] == '\\' && k + 1 < t.len() {
        match quote_scan(t, k + 2, delim) {
            Some(p) => Some((seq![t[k], t[k + 1]] + p.0, p.1)),
            None => None,
        }
    } else {
        match quote_scan(t, k + 1, delim) {
            Some(p) => Some((seq![t[k]] + p.0, p.1)),
            None => None,
        }
    }
}

/// The unescaped text of the literal whose opening `delim` stands at
/// `i`.
pub open spec fn quoted_spec(t: Seq<char>, i: int, delim: char) -> Option<(Seq<char>, int)> {
    match quote_scan(t, i + 1, delim) {
        Some(p) => Some((crate::chars::unescape_spec(EscTable::Default, p.0), p.1)),
        None => None,
    }
}

/// The digits of a repetition count read from `k`, onto `acc`; a
/// count beyond [`REP_COUNT_MAX`] is malformed.
pub open spec fn count_scan(t: Seq<char>, k: int, acc: int) -> Option<(int, int)>
    decreases t.len() - k,
{
    if 0 <= k < t.len() && crate::chars::is_digit_char(t[k]) {
        if acc > REP_COUNT_MAX {
            None
        } else {
            count_scan(t, k + 1, acc * 10 + (t[k] as int - '0' as int))
        }
    } else {
        Some((acc, k))
    }
}

/// The `{n}` count whose opening brace stands at `i`.
pub open spec fn count_spec(t: Seq<char>, i: int) -> Option<(int, int)> {
    match count_scan(t, i + 1, 0) {
        Some(p) => if p.1 > i + 1 && 0 <= p.1 < t.len() && t[p.1] == '}' {
            Some((p.0, p.1 + 1))
        } else {
            None
        },
        None => None,
    }
}

/// One base item at `i`.  In this and the readers below, an arm that
/// would recurse without the sub-read having advanced yields `None`
/// instead: it only keeps the recursion well founded, and the
/// executable reader's contracts show such an arm is never the one
/// taken.
pub open spec fn base_spec(t: Seq<char>, i: int) -> Option<(SpecGExpr, int)>
    decreases t.len() - i, 0int,
{
    if i < 0 || i >= t.len() {
        None
    } else if t[i] == '"' {
        match quoted_spec(t, i, '"') {
            Some(p) => Some((SpecGExpr::Lit(p.0), p.1)),
            None => None,
        }
    } else if t[i] == '\'' {
        match quoted_spec(t, i, '\'') {
            Some(p) => Some((SpecGExpr::Chr(p.0), p.1)),
            None => None,
        }
    } else if t[i] == '/' {
        None
    } else if t[i] == '<' {
        match name_spec(t, i + 1) {
            Some(p) => if 0 <= p.1 < t.len() && t[p.1] == '>' {
                Some((SpecGExpr::Ref(p.0), p.1 + 1))
            } else {
                None
            },
            None => None,
        }
    } else if t[i] == '(' {
        match alt_spec(t, i + 1) {
            Some(p) => {
                let j = ws_end(t, p.1);
                if j < p.1 {
                    None
                } else if j < t.len() && t[j] == ')' {
                    Some((p.0, j + 1))
                } else {
                    None
                }
            },
            None => None,
        }
    } else {
        match name_spec(t, i) {
            Some(p) => Some((SpecGExpr::Ref(p.0), p.1)),
            None => None,
        }
    }
}

/// The repetition suffixes following a base that ended at `k`.
pub open spec fn suffix_spec(t: Seq<char>, k: int, e: SpecGExpr) -> Option<(SpecGExpr, int)>
    decreases t.len() - k, 0int,
{
    if 0 <= k < t.len() && t[k] == '*' {
        suffix_spec(t, k + 1, SpecGExpr::Star(Box::new(e)))
    } else if 0 <= k < t.len() && t[k] == '+' {
        suffix_spec(t, k + 1, SpecGExpr::Plus(Box::new(e)))
    } else if 0 <= k < t.len() && t[k] == '?' {
        suffix_spec(t, k + 1, SpecGExpr::Opt(Box::new(e)))
    } else if 0 <= k < t.len() && t[k] == '{' {
        match count_spec(t, k) {
            Some(p) => if p.1 <= k || p.1 > t.len() {
                None
            } else {
                suffix_spec(t, p.1, SpecGExpr::Rep(p.0 as u64, Box::new(e)))
            },
            None => None,
        }
    } else {
        Some((e, k))
    }
}

/// One factor at `i`: a base with its suffixes.
pub open spec fn factor_spec(t: Seq<char>, i: int) -> Option<(SpecGExpr, int)>
    decreases t.len() - i, 1int,
{
    match base_spec(t, i) {
        Some(p) => if p.1 < i || p.1 > t.len() {
            None
        } else {
            suffix_spec(t, p.1, p.0)
        },
        None => None,
    }
}

/// One expression, or the factors of a sequence gathered.
pub open spec fn gather(parts: Seq<SpecGExpr>, alt: bool) -> SpecGExpr {
    if parts.len() == 1 {
        parts[0]
    } else if alt {
        SpecGExpr::Alt(parts)
    } else {
        SpecGExpr::Cat(parts)
    }
}

/// The factors following the first, gathered onto `parts`; the
/// sequence ends before a character no factor starts with.
pub open spec fn seq_rest_spec(t: Seq<char>, k: int, parts: Seq<SpecGExpr>) -> Option<
    (SpecGExpr, int),
>
    decreases t.len() - k, 2int,
{
    let k1 = ws_end(t, k);
    if k1 < k {
        None
    } else if k1 >= t.len() || !factor_start(t[k1]) {
        Some((gather(parts, false), k))
    } else {
        match factor_spec(t, k1) {
            Some(p) => if p.1 <= k1 || p.1 > t.len() {
                None
            } else {
                seq_rest_spec(t, p.1, parts.push(p.0))
            },
            None => None,
        }
    }
}

/// A sequence of factors at `i`.
pub open spec fn seq_spec(t: Seq<char>, i: int) -> Option<(SpecGExpr, int)>
    decreases t.len() - i, 3int,
{
    match factor_spec(t, i) {
        Some(p) => if p.1 <= i || p.1 > t.len() {
            None
        } else {
            seq_rest_spec(t, p.1, seq![p.0])
        },
        None => None,
    }
}

/// The alternatives following the first, each behind a `|`.
pub open spec fn alt_rest_spec(t: Seq<char>, k: int, alts: Seq<SpecGExpr>) -> Option<
    (SpecGExpr, int),
>
    decreases t.len() - k, 4int,
{
    let k1 = ws_end(t, k);
    if k1 < k {
        None
    } else if k1 >= t.len() || t[k1] != '|' {
        Some((gather(alts, true), k))
    } else {
        let k2 = ws_end(t, k1 + 1);
        if k2 < k1 + 1 || k2 > t.len() {
            None
        } else {
            match seq_spec(t, k2) {
                Some(p) => if p.1 <= k2 || p.1 > t.len() {
                    None
                } else {
                    alt_rest_spec(t, p.1, alts.push(p.0))
                },
                None => None,
            }
        }
    }
}

/// An alternation at `i`, leading whitespace skipped.
pub open spec fn alt_spec(t: Seq<char>, i: int) -> Option<(SpecGExpr, int)>
    decreases t.len() - i, 5int,
{
    let i1 = ws_end(t, i);
    if i1 < i || i1 > t.len() {
        None
    } else {
        match seq_spec(t, i1) {
            Some(p) => if p.1 <= i1 || p.1 > t.len() {
                None
            } else {
                alt_rest_spec(t, p.1, seq![p.0])
            },
            None => None,
        }
    }
}

/// The rules of a grammar text from `i` on, onto `acc`: each one
/// `name : body ;`.
pub open spec fn rules_spec(t: Seq<char>, i: int, acc: Seq<(Seq<char>, SpecGExpr)>) -> Option<
    Seq<(Seq<char>, SpecGExpr)>,
>
    decreases t.len() - i, 6int,
{
    let j = ws_end(t, i);
    if j < i {
        None
    } else if j >= t.len() {
        Some(acc)
    } else {
        match name_spec(t, j) {
            None => None,
            Some(np) => {
                let k1 = np.1;
                if k1 <= j || k1 > t.len() {
                    None
                } else {
                    let k2 = ws_end(t, k1);
                    if k2 < k1 || k2 >= t.len() || t[k2] != ':' {
                        None
                    } else {
                        match alt_spec(t, k2 + 1) {
                            None => None,
                            Some(bp) => if bp.1 <= k2 || bp.1 > t.len() {
                                None
                            } else {
                                let k5 = ws_end(t, bp.1);
                                if k5 < bp.1 || k5 >= t.len() || t[k5] != ';' {
                                    None
                                } else {
                                    rules_spec(t, k5 + 1, acc.push((np.0, bp.0)))
                                }
                            },
                        }
                    }
                }
            },
        }
    }
}

/// The rule list a whole grammar text spells, or nothing where the
/// text is malformed.
pub open spec fn grammar_rules_spec(t: Seq<char>) -> Option<Seq<(Seq<char>, SpecGExpr)>> {
    rules_spec(t, 0, Seq::empty())
}

/// The single expression a grammar text spells, with nothing but
/// whitespace around it.
pub open spec fn grammar_expr_spec(t: Seq<char>) -> Option<SpecGExpr> {
    match alt_spec(t, 0) {
        Some(p) => if ws_end(t, p.1) == t.len() {
            Some(p.0)
        } else {
            None
        },
        None => None,
    }
}

/// Whether every reference of the expression resolves in `d`.
pub open spec fn expr_resolves(e: SpecGExpr, d: Seq<(Seq<char>, SpecParser)>) -> bool {
    forall|j: int|
        0 <= j < sg_refs(e).len() ==> lookup_def(d, #[trigger] sg_refs(e)[j]) is Some
}

/// Whether `names` holds the view of `s`.
fn names_contain(names: &Vec<String>, s: &String) -> (r: bool)
    ensures
        r == strs_of(names@).contains(s@),
{
    let n = names.len();
    let mut i: usize = 0;
    while i < n
        invariant
            n == names@.len(),
            0 <= i <= n,
            forall|j: int| 0 <= j < i ==> strs_of(names@)[j] != s@,
        decreases n - i,
    {
        if names[i].eq(s) {
            proof {
                assert(strs_of(names@)[i as int] == s@);
            }
            return true;
        }
        i = i + 1;
    }
    proof {
        assert(!strs_of(names@).contains(s@));
    }
    false
}

/// The views of a list of names.
pub open spec fn strs_of(v: Seq<String>) -> Seq<Seq<char>> {
    Seq::new(
        v.len(),
        |i: int|
            if 0 <= i < v.len() {
                v[i]@
            } else {
                Seq::empty()
            },
    )
}

/// The first reference of `e` that resolves neither among `names`
/// nor in `d`, if any.
pub fn gexpr_check_refs(e: &GExpr, names: &Vec<String>, d: &DefTable) -> (r: Option<String>)
    ensures
        match r {
            None => refs_known(*e, strs_of(names@), d@),
            Some(n) => !name_known(strs_of(names@), d@, n@) && gexpr_refs(*e).contains(n@),
        },
    decreases *e, 1int,
{
    match e {
        GExpr::Lit(_) => {
            proof {
                assert(gexpr_refs(*e).len() == 0);
            }
            None
        },
        GExpr::Chr(_) => {
            proof {
                assert(gexpr_refs(*e).len() == 0);
            }
            None
        },
        GExpr::Ref(n) => {
            if names_contain(names, n) || d.contains(n.as_str()) {
                proof {
                    assert(gexpr_refs(*e) =~= seq![n@]);
                    assert(gexpr_refs(*e)[0] == n@);
                    assert(name_known(strs_of(names@), d@, n@));
                }
                None
            } else {
                proof {
                    assert(gexpr_refs(*e) =~= seq![n@]);
                    assert(gexpr_refs(*e)[0] == n@);
                }
                Some(n.clone())
            }
        },
        GExpr::Cat(l) => {
            let r = gexpr_list_check_refs(e, l, names, d);
            r
        },
        GExpr::Alt(l) => {
            let r = gexpr_list_check_refs(e, l, names, d);
            r
        },
        GExpr::Star(b) => {
            proof {
                assert(decreases_to!(*e => e->Star_0));
            }
            let r = gexpr_check_refs(b, names, d);
            proof {
                assert(gexpr_refs(*e) == gexpr_refs(**b));
            }
            r
        },
        GExpr::Plus(b) => {
            proof {
                assert(decreases_to!(*e => e->Plus_0));
            }
            let r = gexpr_check_refs(b, names, d);
            proof {
                assert(gexpr_refs(*e) == gexpr_refs(**b));
            }
            r
        },
        GExpr::Opt(b) => {
            proof {
                assert(decreases_to!(*e => e->Opt_0));
            }
            let r = gexpr_check_refs(b, names, d);
            proof {
                assert(gexpr_refs(*e) == gexpr_refs(**b));
            }
            r
        },
        GExpr::Rep(_, b) => {
            proof {
                assert(decreases_to!(*e => e->Rep_1));
            }
            let r = gexpr_check_refs(b, names, d);
            proof {
                assert(gexpr_refs(*e) == gexpr_refs(**b));
            }
            r
        },
    }
}

proof fn lemma_list_refs_take(l: Seq<GExpr>, k: int)
    requires
        0 <= k < l.len(),
    ensures
        gexpr_list_refs(l.take(k + 1)) == gexpr_list_refs(l.take(k)) + gexpr_refs(l[k]),
    decreases k,
{
    if k == 0 {
        assert(l.take(1).first() == l[0]);
        assert(l.take(1).drop_first() =~= Seq::<GExpr>::empty());
        assert(l.take(0) =~= Seq::<GExpr>::empty());
        assert(gexpr_list_refs(l.take(1)) =~= gexpr_list_refs(l.take(0)) + gexpr_refs(l[0]));
    } else {
        assert(l.take(k + 1).first() == l[0]);
        assert(l.take(k).first() == l[0]);
        assert(l.take(k + 1).drop_first() =~= l.drop_first().take(k));
        assert(l.take(k).drop_first() =~= l.drop_first().take(k - 1));
        lemma_list_refs_take(l.drop_first(), k - 1);
        assert(l.drop_first()[k - 1] == l[k]);
        assert(gexpr_list_refs(l.take(k + 1)) =~= gexpr_list_refs(l.take(k)) + gexpr_refs(
            l[k],
        ));
    }
}

fn gexpr_list_check_refs(parent: &GExpr, l: &Vec<GExpr>, names: &Vec<String>, d: &DefTable) -> (r:
    Option<String>)
    requires
        *parent == GExpr::Cat(*l) || *parent == GExpr::Alt(*l),
    ensures
        match r {
            None => refs_known(*parent, strs_of(names@), d@),
            Some(n) => !name_known(strs_of(names@), d@, n@) && gexpr_refs(*parent).contains(n@),
        },
    decreases *parent, 0int,
{
    let n = l.len();
    let mut i: usize = 0;
    proof {
        assert(l@.take(0) =~= Seq::<GExpr>::empty());
    }
    while i < n
        invariant
            *parent == GExpr::Cat(*l) || *parent == GExpr::Alt(*l),
            n == l@.len(),
            0 <= i <= n,
            forall|j: int|
                0 <= j < gexpr_list_refs(l@.take(i as int)).len() ==> name_known(
                    strs_of(names@),
                    d@,
                    #[trigger] gexpr_list_refs(l@.take(i as int))[j],
                ),
        decreases n - i,
    {
        proof {
            if *parent is Cat {
                assert(decreases_to!(*parent => parent->Cat_0));
                assert(parent->Cat_0 == *l);
            } else {
                assert(decreases_to!(*parent => parent->Alt_0));
                assert(parent->Alt_0 == *l);
            }
            assert(decreases_to!(*l => l@));
            assert(decreases_to!(l@ => l@[i as int]));
        }
        let r = gexpr_check_refs(&l[i], names, d);
        match r {
            Some(bad) => {
                proof {
                    lemma_list_refs_contains(l@, i as int, bad@);
                }
                return Some(bad);
            },
            None => {},
        }
        proof {
            lemma_list_refs_take(l@, i as int);
            assert forall|j: int|
                0 <= j < gexpr_list_refs(l@.take(i + 1)).len() implies name_known(
                strs_of(names@),
                d@,
                #[trigger] gexpr_list_refs(l@.take(i + 1))[j],
            ) by {
                let pre = gexpr_list_refs(l@.take(i as int));
                let own = gexpr_refs(l@[i as int]);
                if j < pre.len() {
                    assert(gexpr_list_refs(l@.take(i + 1))[j] == pre[j]);
                } else {
                    assert(gexpr_list_refs(l@.take(i + 1))[j] == own[j - pre.len()]);
                    assert(gexpr_refs(l@[i as int])[j - pre.len()] == own[j - pre.len()]);
                }
            }
        }
        i = i + 1;
    }
    proof {
        assert(l@.take(n as int) =~= l@);
        match *parent {
            GExpr::Cat(_) => {
                assert(gexpr_refs(*parent) == gexpr_list_refs(l@));
            },
            GExpr::Alt(_) => {
                assert(gexpr_refs(*parent) == gexpr_list_refs(l@));
            },
            _ => {},
        }
    }
    None
}

/// Build the combinator node of a parsed body: literals become
/// tagged leaves (tokenised unless the grammar is
/// whitespace-sensitive), references become named links, sequences
/// and repetitions gather trees, and — under the predictive flag —
/// alternations commit without backtracking.
fn build_expr(e: &GExpr, flags: LangFlags) -> (p: Parser)
    ensures
        p@ == build_spec(e@, flags),
    decreases *e, 1int,
{
    match e {
        GExpr::Lit(s) => {
            let lit = if flags.whitespace_sensitive {
                mpc_string(s.as_str())
            } else {
                mpc_tok(mpc_string(s.as_str()))
            };
            mpca_tag(mpc_apply(lit, ApplyKind::StrAst), "string")
        },
        GExpr::Chr(s) => {
            let lit = if flags.whitespace_sensitive {
                mpc_string(s.as_str())
            } else {
                mpc_tok(mpc_string(s.as_str()))
            };
            mpca_tag(mpc_apply(lit, ApplyKind::StrAst), "char")
        },
        GExpr::Ref(n) => mpc_new(n.as_str()),
        GExpr::Cat(l) => {
            let parts = build_list(e, l, flags);
            let body = mpca_and(parts);
            proof {
                assert(body@->And_1 =~= build_list_spec(gexprs_view(l@), flags));
                assert(e@->Cat_0 =~= gexprs_view(l@));
            }
            body
        },
        GExpr::Alt(l) => {
            let alts = build_list(e, l, flags);
            let body = mpca_or(alts);
            proof {
                assert(body@->Or_0 =~= build_list_spec(gexprs_view(l@), flags));
                assert(e@->Alt_0 =~= gexprs_view(l@));
            }
            if flags.predictive {
                mpc_predictive(body)
            } else {
                body
            }
        },
        GExpr::Star(b) => {
            proof {
                assert(decreases_to!(*e => e->Star_0));
            }
            mpca_many(build_expr(b, flags))
        },
        GExpr::Plus(b) => {
            proof {
                assert(decreases_to!(*e => e->Plus_0));
            }
            mpca_many1(build_expr(b, flags))
        },
        GExpr::Opt(b) => {
            proof {
                assert(decreases_to!(*e => e->Opt_0));
            }
            mpca_maybe(build_expr(b, flags))
        },
        GExpr::Rep(n, b) => {
            proof {
                assert(decreases_to!(*e => e->Rep_1));
            }
            mpca_count(*n, build_expr(b, flags))
        },
    }
}

fn build_list(parent: &GExpr, l: &Vec<GExpr>, flags: LangFlags) -> (ps: Vec<Parser>)
    requires
        *parent == GExpr::Cat(*l) || *parent == GExpr::Alt(*l),
    ensures
        crate::parser::parsers_view(ps@) == build_list_spec(gexprs_view(l@), flags),
    decreases *parent, 0int,
{
    let n = l.len();
    let mut out: Vec<Parser> = Vec::new();
    let mut i: usize = 0;
    while i < n
        invariant
            *parent == GExpr::Cat(*l) || *parent == GExpr::Alt(*l),
            n == l@.len(),
            0 <= i <= n,
            out@.len() == i,
            forall|j: int|
                0 <= j < i ==> crate::parser::parser_view(#[trigger] out@[j]) == build_spec(
                    gexpr_view(l@[j]),
                    flags,
                ),
        decreases n - i,
    {
        proof {
            if *parent is Cat {
                assert(decreases_to!(*parent => parent->Cat_0));
                assert(parent->Cat_0 == *l);
            } else {
                assert(decreases_to!(*parent => parent->Alt_0));
                assert(parent->Alt_0 == *l);
            }
            assert(decreases_to!(*l => l@));
            assert(decreases_to!(l@ => l@[i as int]));
        }
        let p = build_expr(&l[i], flags);
        out.push(p);
        i = i + 1;
    }
    proof {
        assert(crate::parser::parsers_view(out@) =~= build_list_spec(gexprs_view(l@), flags));
    }
    out
}

proof fn lemma_list_refs_contains(l: Seq<GExpr>, i: int, x: Seq<char>)
    requires
        0 <= i < l.len(),
        gexpr_refs(l[i]).contains(x),
    ensures
        gexpr_list_refs(l).contains(x),
    decreases l.len(),
{
    if i == 0 {
        let k = choose|k: int| 0 <= k < gexpr_refs(l[0]).len() && gexpr_refs(l[0])[k] == x;
        assert(gexpr_list_refs(l)[k] == x);
    } else {
        lemma_list_refs_contains(l.drop_first(), i - 1, x);
        assert(l.drop_first()[i - 1] == l[i]);
        let k = choose|k: int|
            0 <= k < gexpr_list_refs(l.drop_first()).len() && gexpr_list_refs(l.drop_first())[k]
                == x;
        assert(gexpr_list_refs(l)[gexpr_refs(l.first()).len() + k] == x);
    }
}

/// Resolve and install a parsed rule set: pass one checks that every
/// reference names a rule of the set or an entry already in `d`;
/// pass two builds each body and defines it under its rule name.
///
/// Compilation succeeds exactly when every reference resolves; a
/// failed compilation reports the offending name and leaves `d`
/// untouched, so a broken grammar can never hand back a working
/// parser.
pub fn grammar_build(d: &mut DefTable, flags: LangFlags, rules: Vec<(String, GExpr)>) -> (r:
    Result<(), GrammarErr>)
    ensures
        r is Ok <==> rules_resolve(rules_view(rules@), old(d)@),
        r is Ok ==> final(d)@ == install_rules(old(d)@, rules_view(rules@), flags),
        r is Err ==> final(d)@ == old(d)@,
{
    let mut names: Vec<String> = Vec::new();
    let rn = rules.len();
    let mut i: usize = 0;
    while i < rn
        invariant
            rn == rules@.len(),
            0 <= i <= rn,
            names@.len() == i,
            forall|j: int| 0 <= j < i ==> strs_of(names@)[j] == rule_names(rules@)[j],
        decreases rn - i,
    {
        let entry = &rules[i];
        let nm = entry.0.clone();
        names.push(nm);
        i = i + 1;
    }
    proof {
        assert(strs_of(names@) =~= rule_names(rules@));
    }
    let mut i: usize = 0;
    while i < rn
        invariant
            rn == rules@.len(),
            0 <= i <= rn,
            strs_of(names@) == rule_names(rules@),
            forall|j: int|
                0 <= j < i ==> refs_known(#[trigger] rules@[j].1, rule_names(rules@), d@),
            *d == *old(d),
        decreases rn - i,
    {
        let entry = &rules[i];
        match gexpr_check_refs(&entry.1, &names, d) {
            Some(bad) => {
                proof {
                    let rv = rules_view(rules@);
                    let refs = gexpr_refs(rules@[i as int].1);
                    assert(refs.contains(bad@));
                    let k = choose|k: int| 0 <= k < refs.len() && refs[k] == bad@;
                    assert(!name_known(rule_names(rules@), d@, refs[k]));
                    lemma_refs_view(rules@[i as int].1);
                    assert(rv[i as int].1 == gexpr_view(rules@[i as int].1));
                    assert(sg_refs(rv[i as int].1)[k] == bad@);
                    assert(sg_rule_names(rv) =~= rule_names(rules@));
                    assert(!rules_resolve(rv, old(d)@));
                }
                let mut msg = "undefined rule reference: ".to_owned();
                msg.append(bad.as_str());
                return Err(GrammarErr { pos: 0, message: msg });
            },
            None => {},
        }
        i = i + 1;
    }
    proof {
        assert forall|i: int, j: int|
            0 <= i < rules_view(rules@).len() && 0 <= j < sg_refs(
                rules_view(rules@)[i].1,
            ).len() implies name_known(
            sg_rule_names(rules_view(rules@)),
            d@,
            #[trigger] sg_refs(rules_view(rules@)[i].1)[j],
        ) by {
            lemma_refs_view(rules@[i].1);
            assert(rules_view(rules@)[i].1 == gexpr_view(rules@[i].1));
            assert(sg_rule_names(rules_view(rules@)) =~= rule_names(rules@));
            assert(name_known(rule_names(rules@), d@, gexpr_refs(rules@[i].1)[j]));
        }
    }
    let ghost d0 = d@;
    let mut i: usize = 0;
    proof {
        assert(rules_view(rules@).take(0) =~= Seq::<(Seq<char>, SpecGExpr)>::empty());
    }
    while i < rn
        invariant
            rn == rules@.len(),
            0 <= i <= rn,
            d@ == install_rules(d0, rules_view(rules@).take(i as int), flags),
        decreases rn - i,
    {
        let entry = &rules[i];
        let body = build_expr(&entry.1, flags);
        let tagged = mpca_add_tag(body, entry.0.as_str());
        proof {
            assert(tagged@ == rule_node_spec(entry.0@, gexpr_view(entry.1), flags));
        }
        let ghost before = d@;
        mpc_define(d, entry.0.as_str(), tagged);
        proof {
            let rv = rules_view(rules@);
            assert(rv[i as int] == (entry.0@, gexpr_view(entry.1)));
            assert(rv.take(i + 1) =~= rv.take(i as int).push(rv[i as int]));
            lemma_install_snoc(d0, rv.take(i as int), rv[i as int], flags);
            assert(d@ =~= seq![(entry.0@, tagged@)] + before);
            assert(d@ =~= install_rules(d0, rv.take(i + 1), flags));
        }
        i = i + 1;
    }
    proof {
        assert(rules_view(rules@).take(rn as int) =~= rules_view(rules@));
    }
    Ok(())
}

fn gerr(pos: usize, msg: &str) -> (e: GrammarErr)
    ensures
        e.pos == pos,
        e.message@ == msg@,
{
    GrammarErr { pos, message: msg.to_owned() }
}

/// The index of the first non-whitespace character at or after `i`.
fn skip_ws(t: &Vec<char>, i: usize) -> (r: usize)
    requires
        i <= t@.len(),
    ensures
        i <= r <= t@.len(),
        r as int == ws_end(t@, i as int),
{
    let n = t.len();
    let mut k = i;
    while k < n && class_test(CharClass::Whitespace, t[k])
        invariant
            i <= k <= n,
            n == t@.len(),
            ws_end(t@, i as int) == ws_end(t@, k as int),
        decreases n - k,
    {
        k = k + 1;
    }
    k
}

/// Whether `c` can appear in a rule name.
fn is_ident_char(c: char) -> (r: bool)
    ensures
        r == is_name_char(c),
{
    class_test(CharClass::AlphaNum, c) || c == '_' || c == '-'
}

/// Read a rule name at `i`: one or more letters, digits, `_` or `-`.
fn parse_ident(t: &Vec<char>, i: usize) -> (r: Option<(String, usize)>)
    requires
        i <= t@.len(),
    ensures
        match r {
            Some(p) => i < p.1 <= t@.len() && name_spec(t@, i as int) == Some((p.0@, p.1 as int)),
            None => name_spec(t@, i as int) is None,
        },
{
    let n = t.len();
    let mut k = i;
    let mut buf: Vec<char> = Vec::new();
    while k < n && is_ident_char(t[k])
        invariant
            i <= k <= n,
            n == t@.len(),
            name_end(t@, i as int) == name_end(t@, k as int),
            buf@ == t@.subrange(i as int, k as int),
        decreases n - k,
    {
        buf.push(t[k]);
        proof {
            assert(buf@ =~= t@.subrange(i as int, k + 1));
        }
        k = k + 1;
    }
    proof {
        assert(name_end(t@, k as int) == k);
    }
    if k == i {
        None
    } else {
        proof {
            assert(buf@ =~= t@.subrange(i as int, name_end(t@, i as int)));
        }
        Some((chars_to_string(&buf), k))
    }
}

/// Read a quoted literal opening at `i` with the delimiter `delim`,
/// honouring backslash pairs; yields the text between the
/// delimiters, unescaped.
fn parse_quoted(t: &Vec<char>, i: usize, delim: char) -> (r: Result<(String, usize), GrammarErr>)
    requires
        i < t@.len(),
    ensures
        match r {
            Ok(p) => i < p.1 <= t@.len() && quoted_spec(t@, i as int, delim) == Some((
                p.0@,
                p.1 as int,
            )),
            Err(_) => quoted_spec(t@, i as int, delim) is None,
        },
{
    let n = t.len();
    let mut k = i + 1;
    let mut raw: Vec<char> = Vec::new();
    while k < n && t[k] != delim
        invariant
            i < k <= n,
            n == t@.len(),
            quote_scan(t@, i + 1, delim) == (match quote_scan(t@, k as int, delim) {
                Some(p) => Some((raw@ + p.0, p.1)),
                None => None::<(Seq<char>, int)>,
            }),
        decreases n - k,
    {
        if t[k] == '\\' && k + 1 < n {
            let ghost pre = raw@;
            raw.push(t[k]);
            raw.push(t[k + 1]);
            proof {
                assert(raw@ =~= pre + seq![t@[k as int], t@[k + 1]]);
                assert forall|q: (Seq<char>, int)|
                    quote_scan(t@, k + 2, delim) == Some(q) implies pre + (seq![
                    t@[k as int],
                    t@[k + 1],
                ] + q.0) =~= raw@ + q.0 by {}
            }
            k = k + 2;
        } else {
            let ghost pre = raw@;
            raw.push(t[k]);
            proof {
                assert(raw@ =~= pre + seq![t@[k as int]]);
                assert forall|q: (Seq<char>, int)|
                    quote_scan(t@, k + 1, delim) == Some(q) implies pre + (seq![t@[k as int]]
                    + q.0) =~= raw@ + q.0 by {}
            }
            k = k + 1;
        }
    }
    if k >= n {
        return Err(gerr(i, "unterminated literal"));
    }
    proof {
        assert(quote_scan(t@, k as int, delim) == Some((Seq::<char>::empty(), k + 1)));
        assert(raw@ + Seq::<char>::empty() =~= raw@);
    }
    let raw_s = chars_to_string(&raw);
    let cooked = unescape_str(EscTable::Default, raw_s.as_str());
    Ok((cooked, k + 1))
}

/// Read the decimal count of a `{n}` suffix whose `{` stands at `i`.
fn parse_count(t: &Vec<char>, i: usize) -> (r: Result<(u64, usize), GrammarErr>)
    requires
        i < t@.len(),
    ensures
        match r {
            Ok(p) => i < p.1 <= t@.len() && count_spec(t@, i as int) == Some((
                p.0 as int,
                p.1 as int,
            )),
            Err(_) => count_spec(t@, i as int) is None,
        },
{
    let n = t.len();
    let mut k = i + 1;
    let mut acc: u64 = 0;
    let mut any = false;
    while k < n && class_test(CharClass::Digit, t[k])
        invariant
            i < k <= n,
            n == t@.len(),
            any == (k > i + 1),
            acc <= 0xA000_0000_0000_0009,
            count_scan(t@, i + 1, 0) == count_scan(t@, k as int, acc as int),
        decreases n - k,
    {
        let c = t[k];
        let dv = (c as u64) - ('0' as u64);
        if acc > REP_COUNT_MAX {
            return Err(gerr(k, "repetition count too large"));
        }
        proof {
            assert(t@[k as int] as int - '0' as int == dv as int);
        }
        acc = acc * 10 + dv;
        any = true;
        k = k + 1;
    }
    proof {
        assert(count_scan(t@, k as int, acc as int) == Some((acc as int, k as int)));
    }
    if !any {
        return Err(gerr(k, "repetition count expected"));
    }
    if k >= n || t[k] != '}' {
        return Err(gerr(k, "expected closing brace of repetition count"));
    }
    Ok((acc, k + 1))
}

/// Whether a factor can begin with `c`.
fn starts_factor(c: char) -> (r: bool)
    ensures
        r == factor_start(c),
{
    c == '"' || c == '\'' || c == '<' || c == '(' || is_ident_char(c)
}

/// Read one base item at `i`: a literal, a reference, or a grouped
/// alternation.
fn parse_base(t: &Vec<char>, i: usize) -> (r: Result<(GExpr, usize), GrammarErr>)
    requires
        i <= t@.len(),
    ensures
        match r {
            Ok(p) => i < p.1 <= t@.len() && base_spec(t@, i as int) == Some((p.0@, p.1 as int)),
            Err(_) => base_spec(t@, i as int) is None,
        },
    decreases t@.len() - i, 0int,
{
    let n = t.len();
    if i >= n {
        return Err(gerr(i, "grammar item expected"));
    }
    let c = t[i];
    if c == '"' {
        match parse_quoted(t, i, '"') {
            Ok((s, k)) => Ok((GExpr::Lit(s), k)),
            Err(e) => Err(e),
        }
    } else if c == '\'' {
        match parse_quoted(t, i, '\'') {
            Ok((s, k)) => Ok((GExpr::Chr(s), k)),
            Err(e) => Err(e),
        }
    } else if c == '/' {
        Err(
            gerr(
                i,
                "regex literals have no built-in matcher; supply one through the rule table and refer to it by name",
            ),
        )
    } else if c == '<' {
        match parse_ident(t, i + 1) {
            Some((name, k)) => {
                if k < n && t[k] == '>' {
                    Ok((GExpr::Ref(name), k + 1))
                } else {
                    Err(gerr(k, "expected closing bracket of reference"))
                }
            },
            None => Err(gerr(i + 1, "rule name expected after opening bracket")),
        }
    } else if c == '(' {
        match parse_alt(t, i + 1) {
            Ok((e, k2)) => {
                let k3 = skip_ws(t, k2);
                if k3 < n && t[k3] == ')' {
                    Ok((e, k3 + 1))
                } else {
                    Err(gerr(k3, "expected closing parenthesis"))
                }
            },
            Err(e) => Err(e),
        }
    } else {
        match parse_ident(t, i) {
            Some((name, k)) => Ok((GExpr::Ref(name), k)),
            None => Err(gerr(i, "grammar item expected")),
        }
    }
}

/// Read one factor at `i`: a base with its repetition suffixes.
fn parse_factor(t: &Vec<char>, i: usize) -> (r: Result<(GExpr, usize), GrammarErr>)
    requires
        i <= t@.len(),
    ensures
        match r {
            Ok(p) => i < p.1 <= t@.len() && factor_spec(t@, i as int) == Some((
                p.0@,
                p.1 as int,
            )),
            Err(_) => factor_spec(t@, i as int) is None,
        },
    decreases t@.len() - i, 1int,
{
    let n = t.len();
    let base = parse_base(t, i);
    match base {
        Err(e) => Err(e),
        Ok((e0, k0)) => {
            let mut e = e0;
            let mut k = k0;
            while k < n && (t[k] == '*' || t[k] == '+' || t[k] == '?' || t[k] == '{')
                invariant
                    i < k <= n,
                    n == t@.len(),
                    factor_spec(t@, i as int) == suffix_spec(t@, k as int, e@),
                decreases n - k,
            {
                let c = t[k];
                if c == '*' {
                    e = GExpr::Star(Box::new(e));
                    k = k + 1;
                } else if c == '+' {
                    e = GExpr::Plus(Box::new(e));
                    k = k + 1;
                } else if c == '?' {
                    e = GExpr::Opt(Box::new(e));
                    k = k + 1;
                } else {
                    match parse_count(t, k) {
                        Ok((cnt, k2)) => {
                            e = GExpr::Rep(cnt, Box::new(e));
                            k = k2;
                        },
                        Err(err) => {
                            return Err(err);
                        },
                    }
                }
            }
            Ok((e, k))
        },
    }
}

/// Read a sequence of factors at `i`.
fn parse_seq(t: &Vec<char>, i: usize) -> (r: Result<(GExpr, usize), GrammarErr>)
    requires
        i <= t@.len(),
    ensures
        match r {
            Ok(p) => i < p.1 <= t@.len() && seq_spec(t@, i as int) == Some((p.0@, p.1 as int)),
            Err(_) => seq_spec(t@, i as int) is None,
        },
    decreases t@.len() - i, 2int,
{
    let n = t.len();
    let first = parse_factor(t, i);
    match first {
        Err(e) => Err(e),
        Ok((e0, k0)) => {
            let ghost ge0 = e0@;
            let mut parts: Vec<GExpr> = Vec::new();
            parts.push(e0);
            let mut k = k0;
            proof {
                assert(gexprs_view(parts@) =~= seq![ge0]);
            }
            loop
                invariant
                    i < k <= n,
                    n == t@.len(),
                    parts@.len() >= 1,
                    seq_spec(t@, i as int) == seq_rest_spec(t@, k as int, gexprs_view(parts@)),
                ensures
                    i < k <= n,
                    parts@.len() >= 1,
                    seq_spec(t@, i as int) == Some(
                        (gather(gexprs_view(parts@), false), k as int),
                    ),
                decreases n - k,
            {
                let k1 = skip_ws(t, k);
                if k1 >= n || !starts_factor(t[k1]) {
                    break ;
                }
                match parse_factor(t, k1) {
                    Ok((e2, k2)) => {
                        let ghost pre = gexprs_view(parts@);
                        let ghost ge2 = e2@;
                        parts.push(e2);
                        proof {
                            assert(gexprs_view(parts@) =~= pre.push(ge2));
                        }
                        k = k2;
                    },
                    Err(e) => {
                        return Err(e);
                    },
                }
            }
            if parts.len() == 1 {
                let ghost gv = gexprs_view(parts@);
                let mut parts = parts;
                let e = parts.remove(0);
                proof {
                    assert(e@ == gv[0]);
                }
                Ok((e, k))
            } else {
                let ghost gv = gexprs_view(parts@);
                let out = GExpr::Cat(parts);
                proof {
                    assert(out@->Cat_0 =~= gv);
                }
                Ok((out, k))
            }
        },
    }
}

/// Read an alternation at `i`: sequences parted by `|`.
fn parse_alt(t: &Vec<char>, i: usize) -> (r: Result<(GExpr, usize), GrammarErr>)
    requires
        i <= t@.len(),
    ensures
        match r {
            Ok(p) => i < p.1 <= t@.len() && alt_spec(t@, i as int) == Some((p.0@, p.1 as int)),
            Err(_) => alt_spec(t@, i as int) is None,
        },
    decreases t@.len() - i, 3int,
{
    let n = t.len();
    let i1 = skip_ws(t, i);
    let first = parse_seq(t, i1);
    match first {
        Err(e) => Err(e),
        Ok((e0, k0)) => {
            let ghost ge0 = e0@;
            let mut alts: Vec<GExpr> = Vec::new();
            alts.push(e0);
            let mut k = k0;
            proof {
                assert(gexprs_view(alts@) =~= seq![ge0]);
            }
            loop
                invariant
                    i <= i1 < k <= n,
                    n == t@.len(),
                    alts@.len() >= 1,
                    alt_spec(t@, i as int) == alt_rest_spec(t@, k as int, gexprs_view(alts@)),
                ensures
                    i < k <= n,
                    alts@.len() >= 1,
                    alt_spec(t@, i as int) == Some((gather(gexprs_view(alts@), true), k as int)),
                decreases n - k,
            {
                let k1 = skip_ws(t, k);
                if k1 >= n || t[k1] != '|' {
                    break ;
                }
                let k2 = skip_ws(t, k1 + 1);
                match parse_seq(t, k2) {
                    Ok((e2, k3)) => {
                        let ghost pre = gexprs_view(alts@);
                        let ghost ge2 = e2@;
                        alts.push(e2);
                        proof {
                            assert(gexprs_view(alts@) =~= pre.push(ge2));
                        }
                        k = k3;
                    },
                    Err(e) => {
                        return Err(e);
                    },
                }
            }
            if alts.len() == 1 {
                let ghost gv = gexprs_view(alts@);
                let mut alts = alts;
                let e = alts.remove(0);
                proof {
                    assert(e@ == gv[0]);
                }
                Ok((e, k))
            } else {
                let ghost gv = gexprs_view(alts@);
                let out = GExpr::Alt(alts);
                proof {
                    assert(out@->Alt_0 =~= gv);
                }
                Ok((out, k))
            }
        },
    }
}

/// Read a whole rule list, `name : body ;` to the end of the text:
/// the rules returned are exactly the ones the text spells
/// ([`grammar_rules_spec`]), and a malformed text is rejected.
pub fn grammar_parse_rules(text: &str) -> (r: Result<Vec<(String, GExpr)>, GrammarErr>)
    ensures
        match r {
            Ok(rules) => grammar_rules_spec(text@) == Some(rules_view(rules@)),
            Err(_) => grammar_rules_spec(text@) is None,
        },
{
    let t = crate::input::str_to_chars(text);
    let n = t.len();
    let mut rules: Vec<(String, GExpr)> = Vec::new();
    let mut i: usize = 0;
    proof {
        assert(rules_view(rules@) =~= Seq::<(Seq<char>, SpecGExpr)>::empty());
    }
    loop
        invariant
            i <= n,
            n == t@.len(),
            t@ == text@,
            rules_spec(t@, 0, Seq::empty()) == rules_spec(t@, i as int, rules_view(rules@)),
        decreases n - i,
    {
        let k = skip_ws(&t, i);
        if k >= n {
            return Ok(rules);
        }
        match parse_ident(&t, k) {
            None => {
                return Err(gerr(k, "rule name expected"));
            },
            Some((name, k1)) => {
                let k2 = skip_ws(&t, k1);
                if k2 >= n || t[k2] != ':' {
                    return Err(gerr(k2, "expected colon after rule name"));
                }
                match parse_alt(&t, k2 + 1) {
                    Err(e) => {
                        return Err(e);
                    },
                    Ok((body, k4)) => {
                        let k5 = skip_ws(&t, k4);
                        if k5 >= n || t[k5] != ';' {
                            return Err(gerr(k5, "expected semicolon after rule body"));
                        }
                        let ghost pre = rules_view(rules@);
                        let ghost gname = name@;
                        let ghost gbody = body@;
                        rules.push((name, body));
                        proof {
                            assert(rules_view(rules@) =~= pre.push((gname, gbody)));
                        }
                        i = k5 + 1;
                    },
                }
            },
        }
    }
}

/// Compile a grammar text: parse its rules, then resolve and install
/// them in `d` as [`grammar_build`] does.  Compilation succeeds
/// exactly when the text parses and every reference resolves — among
/// the text's own rules or in `d` — and then installs precisely the
/// compiled, tagged rules ([`install_rules`]); a text that is
/// malformed or refers to an unknown name changes nothing.
pub fn mpca_lang(flags: LangFlags, language: &str, d: &mut DefTable) -> (r: Result<
    (),
    GrammarErr,
>)
    ensures
        match grammar_rules_spec(language@) {
            Some(rs) => if rules_resolve(rs, old(d)@) {
                r is Ok && final(d)@ == install_rules(old(d)@, rs, flags)
            } else {
                r is Err && final(d)@ == old(d)@
            },
            None => r is Err && final(d)@ == old(d)@,
        },
{
    match grammar_parse_rules(language) {
        Err(e) => Err(e),
        Ok(rules) => grammar_build(d, flags, rules),
    }
}

/// Compile a single grammar expression against the table `d`: the
/// returned parser is exactly the compiled node of the expression the
/// text spells, and compilation fails exactly on a malformed text or
/// a reference that `d` does not define.
pub fn mpca_grammer(flags: LangFlags, grammar: &str, d: &DefTable) -> (r: Result<
    Parser,
    GrammarErr,
>)
    ensures
        match grammar_expr_spec(grammar@) {
            Some(e) => if expr_resolves(e, d@) {
                r is Ok && r->Ok_0@ == build_spec(e, flags)
            } else {
                r is Err
            },
            None => r is Err,
        },
{
    let t = crate::input::str_to_chars(grammar);
    let n = t.len();
    match parse_alt(&t, 0) {
        Err(e) => Err(e),
        Ok((body, k)) => {
            let k2 = skip_ws(&t, k);
            if k2 < n {
                return Err(gerr(k2, "unexpected text after grammar expression"));
            }
            proof {
                assert(grammar_expr_spec(grammar@) == Some(gexpr_view(body)));
            }
            let names: Vec<String> = Vec::new();
            match gexpr_check_refs(&body, &names, d) {
                Some(bad) => {
                    proof {
                        let refs = gexpr_refs(body);
                        assert(refs.contains(bad@));
                        let j = choose|j: int| 0 <= j < refs.len() && refs[j] == bad@;
                        assert(!strs_of(names@).contains(bad@));
                        lemma_refs_view(body);
                        assert(sg_refs(gexpr_view(body))[j] == bad@);
                        assert(!expr_resolves(gexpr_view(body), d@));
                    }
                    let mut msg = "undefined rule reference: ".to_owned();
                    msg.append(bad.as_str());
                    Err(GrammarErr { pos: 0, message: msg })
                },
                None => {
                    proof {
                        lemma_refs_view(body);
                        assert(strs_of(names@) =~= Seq::<Seq<char>>::empty());
                        assert forall|j: int|
                            0 <= j < sg_refs(gexpr_view(body)).len() implies lookup_def(
                            d@,
                            #[trigger] sg_refs(gexpr_view(body))[j],
                        ) is Some by {
                            assert(name_known(strs_of(names@), d@, gexpr_refs(body)[j]));
                            assert(!strs_of(names@).contains(gexpr_refs(body)[j]));
                        }
                    }
                    Ok(build_expr(&body, flags))
                },
            }
        },
    }
}

} // verus!
