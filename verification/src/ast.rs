//! The generic tree output type.
//!
//! An [`Ast`] is a tagged node with text contents, the stream position
//! it was read at, and an ordered list of children that it owns.  Fold
//! hooks build these trees instead of opaque application values.
//!
//! Structural equality ([`mpc_ast_eq`]) compares tags, contents and
//! children but deliberately ignores the stream position, so that trees
//! read from different places still compare equal.

use vstd::prelude::*;

use crate::chars::char_to_string;
use crate::state::State;
use crate::state::state_invalid_spec;

verus! {

broadcast use vstd::seq::group_seq_axioms;

/// The mathematical content of a tree node.
pub struct SpecAst {
    pub tag: Seq<char>,
    pub contents: Seq<char>,
    pub state: State,
    pub children: Seq<SpecAst>,
}

/// A tree node: a tag, text contents, the position the node was read
/// at, and its children, owned by the node.
pub struct Ast {
    pub tag: String,
    pub contents: String,
    pub state: State,
    pub children: Vec<Ast>,
}

/// The tree with empty tag and contents, no position and no children.
pub open spec fn empty_spec_ast() -> SpecAst {
    SpecAst {
        tag: Seq::empty(),
        contents: Seq::empty(),
        state: state_invalid_spec(),
        children: Seq::empty(),
    }
}

/// The mathematical tree a node stands for.
pub open spec fn ast_view(a: Ast) -> SpecAst
    decreases a,
{
    SpecAst {
        tag: a.tag@,
        contents: a.contents@,
        state: a.state,
        children: Seq::new(
            a.children@.len(),
            |i: int|
                if 0 <= i < a.children@.len() {
                    ast_view(a.children@[i])
                } else {
                    empty_spec_ast()
                },
        ),
    }
}

impl View for Ast {
    type V = SpecAst;

    open spec fn view(&self) -> SpecAst {
        ast_view(*self)
    }
}

/// The mathematical trees of a list of nodes.
pub open spec fn asts_view(l: Seq<Ast>) -> Seq<SpecAst> {
    Seq::new(
        l.len(),
        |i: int|
            if 0 <= i < l.len() {
                ast_view(l[i])
            } else {
                empty_spec_ast()
            },
    )
}

/// A deep copy of `a`: the same tree.
pub fn ast_clone(a: &Ast) -> (r: Ast)
    ensures
        r@ == a@,
    decreases *a,
{
    let mut children: Vec<Ast> = Vec::new();
    let mut i: usize = 0;
    while i < a.children.len()
        invariant
            0 <= i <= a.children@.len(),
            children@.len() == i,
            forall|j: int| 0 <= j < i ==> ast_view(#[trigger] children@[j]) == ast_view(
                a.children@[j],
            ),
        decreases a.children@.len() - i,
    {
        proof {
            assert(decreases_to!(*a => a.children));
            assert(decreases_to!(a.children => a.children@));
            assert(decreases_to!(a.children@ => a.children@[i as int]));
        }
        let c = ast_clone(&a.children[i]);
        children.push(c);
        i = i + 1;
    }
    let r = Ast {
        tag: a.tag.clone(),
        contents: a.contents.clone(),
        state: a.state,
        children,
    };
    proof {
        assert(ast_view(r).children =~= ast_view(*a).children);
        assert(ast_view(r) == ast_view(*a));
    }
    r
}

/// Whether two trees have the same shape, tags and contents.  The
/// stream positions are deliberately ignored.
pub open spec fn ast_eq_spec(x: SpecAst, y: SpecAst) -> bool
    decreases x, 0int,
{
    &&& x.tag == y.tag
    &&& x.contents == y.contents
    &&& ast_eq_list(x.children, y.children)
}

/// Pairwise [`ast_eq_spec`] over two lists of trees.
pub open spec fn ast_eq_list(xs: Seq<SpecAst>, ys: Seq<SpecAst>) -> bool
    decreases xs, 1int,
{
    if xs.len() != ys.len() {
        false
    } else if xs.len() == 0 {
        true
    } else {
        ast_eq_spec(xs.first(), ys.first()) && ast_eq_list(xs.drop_first(), ys.drop_first())
    }
}

proof fn lemma_ast_eq_list_index(xs: Seq<SpecAst>, ys: Seq<SpecAst>)
    ensures
        ast_eq_list(xs, ys) <==> (xs.len() == ys.len() && forall|i: int|
            0 <= i < xs.len() ==> ast_eq_spec(#[trigger] xs[i], ys[i])),
    decreases xs.len(),
{
    if xs.len() == ys.len() && xs.len() > 0 {
        lemma_ast_eq_list_index(xs.drop_first(), ys.drop_first());
        assert forall|i: int|
            0 <= i < xs.drop_first().len() implies (xs.drop_first()[i] == xs[i + 1]
            && ys.drop_first()[i] == ys[i + 1]) by {}
        if xs.len() == ys.len() && forall|i: int|
            0 <= i < xs.len() ==> ast_eq_spec(#[trigger] xs[i], ys[i]) {
            assert forall|i: int|
                0 <= i < xs.drop_first().len() implies ast_eq_spec(
                #[trigger] xs.drop_first()[i],
                ys.drop_first()[i],
            ) by {
                assert(ast_eq_spec(xs[i + 1], ys[i + 1]));
            }
        }
        if ast_eq_list(xs, ys) {
            assert forall|i: int| 0 <= i < xs.len() implies ast_eq_spec(
                #[trigger] xs[i],
                ys[i],
            ) by {
                if i == 0 {
                } else {
                    assert(ast_eq_spec(xs.drop_first()[i - 1], ys.drop_first()[i - 1]));
                }
            }
        }
    }
}

/// Whether two trees are structurally equal: same tags, contents and
/// children, positions ignored.
pub fn mpc_ast_eq(a: &Ast, b: &Ast) -> (r: bool)
    ensures
        r == ast_eq_spec(a@, b@),
    decreases *a,
{
    if !a.tag.eq(&b.tag) {
        proof {
            lemma_ast_eq_list_index(a@.children, b@.children);
        }
        return false;
    }
    if !a.contents.eq(&b.contents) {
        proof {
            lemma_ast_eq_list_index(a@.children, b@.children);
        }
        return false;
    }
    proof {
        lemma_ast_eq_list_index(a@.children, b@.children);
    }
    if a.children.len() != b.children.len() {
        return false;
    }
    let mut i: usize = 0;
    while i < a.children.len()
        invariant
            a.children@.len() == b.children@.len(),
            0 <= i <= a.children@.len(),
            forall|j: int| 0 <= j < i ==> ast_eq_spec(#[trigger] a@.children[j], b@.children[j]),
            a@.tag == b@.tag,
            a@.contents == b@.contents,
        decreases a.children@.len() - i,
    {
        proof {
            assert(decreases_to!(*a => a.children));
            assert(decreases_to!(a.children => a.children@));
            assert(decreases_to!(a.children@ => a.children@[i as int]));
        }
        if !mpc_ast_eq(&a.children[i], &b.children[i]) {
            proof {
                lemma_ast_eq_list_index(a@.children, b@.children);
                assert(a@.children[i as int] == ast_view(a.children@[i as int]));
            }
            return false;
        }
        i = i + 1;
    }
    proof {
        lemma_ast_eq_list_index(a@.children, b@.children);
    }
    true
}

/// A fresh leaf node with the given tag and contents, at no position.
pub fn mpc_ast_new(tag: &str, contents: &str) -> (a: Ast)
    ensures
        a@ == (SpecAst {
            tag: tag@,
            contents: contents@,
            state: state_invalid_spec(),
            children: Seq::empty(),
        }),
{
    let a = Ast {
        tag: tag.to_owned(),
        contents: contents.to_owned(),
        state: State { pos: -1, row: -1, col: -1, term: 0 },
        children: Vec::new(),
    };
    proof {
        assert(a@.children =~= Seq::<SpecAst>::empty());
    }
    a
}

/// A fresh node with the given tag, empty contents and the given
/// children, at no position.
pub fn mpc_ast_build(tag: &str, children: Vec<Ast>) -> (a: Ast)
    ensures
        a@ == (SpecAst {
            tag: tag@,
            contents: Seq::empty(),
            state: state_invalid_spec(),
            children: asts_view(children@),
        }),
{
    let a = Ast {
        tag: tag.to_owned(),
        contents: String::new(),
        state: State { pos: -1, row: -1, col: -1, term: 0 },
        children,
    };
    proof {
        assert(a@.children =~= asts_view(a.children@));
    }
    a
}

/// What [`mpc_ast_add_root`] yields: a node that already is a root —
/// one without children, or one tagged `>` — stays; any other is
/// wrapped as the only child of a fresh `>` node.
pub open spec fn add_root_spec(x: SpecAst) -> SpecAst {
    if x.children.len() == 0 || x.tag == seq!['>'] {
        x
    } else {
        SpecAst {
            tag: seq!['>'],
            contents: Seq::empty(),
            state: state_invalid_spec(),
            children: seq![x],
        }
    }
}

/// Ensure `a` has a root node to hang tags on; see [`add_root_spec`].
pub fn mpc_ast_add_root(a: Ast) -> (r: Ast)
    ensures
        r@ == add_root_spec(a@),
{
    proof {
        reveal_strlit(">");
    }
    let gt = char_to_string('>');
    proof {
        assert(gt@ =~= seq!['>']);
    }
    if a.children.len() == 0 || a.tag.eq(&gt) {
        a
    } else {
        let ghost ga = a@;
        let mut children: Vec<Ast> = Vec::new();
        children.push(a);
        let r = Ast {
            tag: gt,
            contents: String::new(),
            state: State { pos: -1, row: -1, col: -1, term: 0 },
            children,
        };
        proof {
            assert(r@.children =~= seq![ga]);
        }
        r
    }
}

/// `r` with `a` appended to its children.
pub fn mpc_ast_add_child(r: Ast, a: Ast) -> (out: Ast)
    ensures
        out@ == (SpecAst { children: r@.children.push(a@), ..r@ }),
{
    let mut r = r;
    let ghost old_r = r;
    r.children.push(a);
    proof {
        assert(r@.children =~= ast_view(old_r).children.push(ast_view(a)));
    }
    r
}

/// `a` with `t` and a `|` separator prefixed to its tag.
pub fn mpc_ast_add_tag(a: Ast, t: &str) -> (r: Ast)
    ensures
        r@ == (SpecAst { tag: t@ + seq!['|'] + a@.tag, ..a@ }),
{
    proof {
        reveal_strlit("|");
    }
    let ghost ga = a@;
    let mut tag = t.to_owned();
    tag.append("|");
    tag.append(a.tag.as_str());
    let r = Ast { tag, ..a };
    proof {
        assert(r@.tag =~= t@ + seq!['|'] + ga.tag);
        assert(r@.children =~= ga.children);
    }
    r
}

/// `a` with `t` prefixed to its tag: the bare `t` where the tag was
/// empty, `t` and a `|` separator otherwise.
pub fn mpc_ast_add_root_tag(a: Ast, t: &str) -> (r: Ast)
    ensures
        r@ == (SpecAst {
            tag: if a@.tag.len() == 0 {
                t@
            } else {
                t@ + seq!['|'] + a@.tag
            },
            ..a@
        }),
{
    if a.tag.as_str().is_empty() {
        let r = Ast { tag: t.to_owned(), ..a };
        r
    } else {
        mpc_ast_add_tag(a, t)
    }
}

/// `a` with its tag replaced by `t`.
pub fn mpc_ast_tag(a: Ast, t: &str) -> (r: Ast)
    ensures
        r@ == (SpecAst { tag: t@, ..a@ }),
{
    Ast { tag: t.to_owned(), ..a }
}

/// `a` with its position replaced by `s`.
pub fn mpc_ast_state(a: Ast, s: State) -> (r: Ast)
    ensures
        r@ == (SpecAst { state: s, ..a@ }),
{
    Ast { state: s, ..a }
}

/// Release a tree; its children go with it.
pub fn mpc_ast_delete(a: Ast)
{
    let _ = a;
}

/// The index of the first child at or after `lb` whose tag is `tag`,
/// or `-1` where none is.
pub open spec fn find_child(cs: Seq<SpecAst>, tag: Seq<char>, lb: int) -> int
    decreases cs.len() - lb,
{
    if lb < 0 || lb >= cs.len() {
        -1
    } else if cs[lb].tag == tag {
        lb
    } else {
        find_child(cs, tag, lb + 1)
    }
}

/// The index of the first child tagged `t`, or `-1`.
pub fn mpc_ast_get_index(a: &Ast, t: &str) -> (r: i64)
    requires
        a@.children.len() <= i64::MAX,
    ensures
        r == find_child(a@.children, t@, 0),
{
    mpc_ast_get_index_lb(a, t, 0)
}

/// The index of the first child tagged `t` at or after `lb`, or `-1`.
pub fn mpc_ast_get_index_lb(a: &Ast, t: &str, lb: i64) -> (r: i64)
    requires
        0 <= lb,
        a@.children.len() <= i64::MAX,
    ensures
        r == find_child(a@.children, t@, lb as int),
{
    let n = a.children.len();
    if lb >= n as i64 {
        return -1;
    }
    let mut i: usize = lb as usize;
    let key = t.to_owned();
    while i < n
        invariant
            n == a.children@.len(),
            lb <= i <= n,
            key@ == t@,
            find_child(a@.children, t@, lb as int) == find_child(a@.children, t@, i as int),
            n <= i64::MAX,
        decreases n - i,
    {
        proof {
            assert(a@.children[i as int] == ast_view(a.children@[i as int]));
        }
        if a.children[i].tag.eq(&key) {
            return i as i64;
        }
        i = i + 1;
    }
    -1
}

/// The first child tagged `t`, where there is one.
pub fn mpc_ast_get_child<'a>(a: &'a Ast, t: &str) -> (r: Option<&'a Ast>)
    requires
        a@.children.len() <= i64::MAX,
    ensures
        match r {
            Some(c) => find_child(a@.children, t@, 0) >= 0 && c@ == a@.children[find_child(
                a@.children,
                t@,
                0,
            )],
            None => find_child(a@.children, t@, 0) == -1,
        },
{
    mpc_ast_get_child_lb(a, t, 0)
}

/// The first child tagged `t` at or after `lb`, where there is one.
pub fn mpc_ast_get_child_lb<'a>(a: &'a Ast, t: &str, lb: i64) -> (r: Option<&'a Ast>)
    requires
        0 <= lb,
        a@.children.len() <= i64::MAX,
    ensures
        match r {
            Some(c) => find_child(a@.children, t@, lb as int) >= 0 && c@ == a@.children[find_child(
                a@.children,
                t@,
                lb as int,
            )],
            None => find_child(a@.children, t@, lb as int) == -1,
        },
{
    let idx = mpc_ast_get_index_lb(a, t, lb);
    if idx < 0 {
        proof {
            lemma_find_child_in_range(a@.children, t@, lb as int);
        }
        None
    } else {
        let n = a.children.len();
        proof {
            lemma_find_child_in_range(a@.children, t@, lb as int);
            assert(idx < n as i64);
            assert(a@.children[idx as int] == ast_view(a.children@[idx as int]));
        }
        let c_ref = &a.children[idx as usize];
        proof {
            assert(*c_ref == a.children@[idx as int]);
            assert(c_ref@ == a@.children[idx as int]);
        }
        Some(c_ref)
    }
}

proof fn lemma_find_child_in_range(cs: Seq<SpecAst>, tag: Seq<char>, lb: int)
    ensures
        find_child(cs, tag, lb) == -1 || (lb <= find_child(cs, tag, lb) < cs.len()),
    decreases cs.len() - lb,
{
    if 0 <= lb < cs.len() && cs[lb].tag != tag {
        lemma_find_child_in_range(cs, tag, lb + 1);
    }
}

/// The order a traversal walks a tree in.
#[derive(Clone, Copy, PartialEq, Eq, Structural, Debug)]
pub enum AstTravOrder {
    /// Parents before their children.
    Pre,
    /// Children before their parents.
    Post,
}

/// Every node of the tree `a` in the given order: the node around
/// its children's flattening (before for `Pre`, after for `Post`).
pub open spec fn flatten_ord(a: SpecAst, ord: AstTravOrder) -> Seq<SpecAst>
    decreases a, 0int,
{
    match ord {
        AstTravOrder::Pre => seq![a] + flatten_ord_list(a.children, ord),
        AstTravOrder::Post => flatten_ord_list(a.children, ord) + seq![a],
    }
}

/// The flattenings of a list of trees, in order.
pub open spec fn flatten_ord_list(l: Seq<SpecAst>, ord: AstTravOrder) -> Seq<SpecAst>
    decreases l, 1int,
{
    if l.len() == 0 {
        Seq::empty()
    } else {
        flatten_ord(l.first(), ord) + flatten_ord_list(l.drop_first(), ord)
    }
}

proof fn lemma_flatten_list_take(l: Seq<SpecAst>, ord: AstTravOrder, k: int)
    requires
        0 <= k < l.len(),
    ensures
        flatten_ord_list(l.take(k + 1), ord) == flatten_ord_list(l.take(k), ord) + flatten_ord(
            l[k],
            ord,
        ),
    decreases k,
{
    if k == 0 {
        assert(l.take(1).first() == l[0]);
        assert(l.take(1).drop_first() =~= Seq::<SpecAst>::empty());
        assert(l.take(0) =~= Seq::<SpecAst>::empty());
        assert(flatten_ord_list(l.take(1), ord) =~= flatten_ord_list(l.take(0), ord)
            + flatten_ord(l[0], ord));
    } else {
        assert(l.take(k + 1).first() == l[0]);
        assert(l.take(k).first() == l[0]);
        assert(l.take(k + 1).drop_first() =~= l.drop_first().take(k));
        assert(l.take(k).drop_first() =~= l.drop_first().take(k - 1));
        lemma_flatten_list_take(l.drop_first(), ord, k - 1);
        assert(l.drop_first()[k - 1] == l[k]);
        assert(flatten_ord_list(l.take(k + 1), ord) =~= flatten_ord_list(l.take(k), ord)
            + flatten_ord(l[k], ord));
    }
}

fn flatten_push(a: &Ast, ord: AstTravOrder, out: &mut Vec<Ast>)
    ensures
        asts_view(final(out)@) == asts_view(old(out)@) + flatten_ord(a@, ord),
    decreases *a, 1int,
{
    let ghost base = asts_view(old(out)@);
    if matches!(ord, AstTravOrder::Pre) {
        let c = ast_clone(a);
        out.push(c);
        proof {
            assert(asts_view(out@) =~= base + seq![ast_view(*a)]);
        }
    }
    let ghost mid = asts_view(out@);
    flatten_children(a, ord, out);
    proof {
        assert(asts_view(out@) == mid + flatten_ord_list(a@.children, ord));
    }
    if matches!(ord, AstTravOrder::Post) {
        let c = ast_clone(a);
        out.push(c);
        proof {
            assert(asts_view(out@) =~= base + flatten_ord_list(a@.children, ord) + seq![
                ast_view(*a),
            ]);
            assert(asts_view(out@) =~= base + (flatten_ord_list(a@.children, ord) + seq![
                ast_view(*a),
            ]));
        }
    } else {
        proof {
            assert(asts_view(out@) =~= base + (seq![ast_view(*a)] + flatten_ord_list(
                a@.children,
                ord,
            )));
        }
    }
}

fn flatten_children(a: &Ast, ord: AstTravOrder, out: &mut Vec<Ast>)
    ensures
        asts_view(final(out)@) == asts_view(old(out)@) + flatten_ord_list(a@.children, ord),
    decreases *a, 0int,
{
    let ghost base = asts_view(old(out)@);
    let n = a.children.len();
    let mut i: usize = 0;
    proof {
        assert(a@.children.take(0) =~= Seq::<SpecAst>::empty());
        assert(flatten_ord_list(a@.children.take(0), ord) =~= Seq::<SpecAst>::empty());
        assert(base + flatten_ord_list(a@.children.take(0), ord) =~= base);
    }
    while i < n
        invariant
            n == a.children@.len(),
            0 <= i <= n,
            a@.children.len() == n,
            asts_view(out@) == base + flatten_ord_list(a@.children.take(i as int), ord),
        decreases n - i,
    {
        proof {
            assert(decreases_to!(*a => a.children));
            assert(decreases_to!(a.children => a.children@));
            assert(decreases_to!(a.children@ => a.children@[i as int]));
            assert(a@.children[i as int] == ast_view(a.children@[i as int]));
        }
        let ghost pre = asts_view(out@);
        flatten_push(&a.children[i], ord, out);
        proof {
            lemma_flatten_list_take(a@.children, ord, i as int);
            assert(asts_view(out@) =~= base + flatten_ord_list(a@.children.take(i + 1), ord));
        }
        i = i + 1;
    }
    proof {
        assert(a@.children.take(n as int) =~= a@.children);
    }
}

/// A traversal in progress: the nodes of the tree in order, and how
/// far the walk has come.
pub struct AstTrav {
    /// The flattened nodes, copies of the tree's own.
    pub nodes: Vec<Ast>,
    /// The next node to hand out.
    pub idx: usize,
}

/// Begin a traversal of `a` in the given order.
pub fn mpc_ast_traverse_start(a: &Ast, ord: AstTravOrder) -> (t: AstTrav)
    ensures
        asts_view(t.nodes@) == flatten_ord(a@, ord),
        t.idx == 0,
{
    let mut nodes: Vec<Ast> = Vec::new();
    proof {
        assert(asts_view(nodes@) =~= Seq::<SpecAst>::empty());
    }
    flatten_push(a, ord, &mut nodes);
    proof {
        assert(asts_view(nodes@) =~= flatten_ord(a@, ord));
    }
    AstTrav { nodes, idx: 0 }
}

/// The next node of the traversal, or nothing once every node has
/// been handed out.
pub fn mpc_ast_traverse_next(t: &mut AstTrav) -> (r: Option<Ast>)
    ensures
        final(t).nodes@ == old(t).nodes@,
        match r {
            Some(a) => old(t).idx < old(t).nodes@.len() && a@ == asts_view(old(t).nodes@)[old(
                t,
            ).idx as int] && final(t).idx == old(t).idx + 1,
            None => old(t).idx >= old(t).nodes@.len() && final(t).idx == old(t).idx,
        },
{
    if t.idx < t.nodes.len() {
        let a = ast_clone(&t.nodes[t.idx]);
        t.idx = t.idx + 1;
        Some(a)
    } else {
        None
    }
}

/// End a traversal early, releasing it.
pub fn mpc_ast_traverse_free(t: AstTrav)
{
    let _ = t;
}

} // verus!
