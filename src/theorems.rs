use vstd::prelude::*;
use crate::span::{LineColumn, SimpleSpan, span_contains, position_le};
use crate::locations::{KindView, LocationsView, spans_at, named_at, named_kind, matching};
use crate::visitor::{NodeKind, SyntaxNode, node_locations, tree_locations, forest_locations};
use crate::engine::answer;

verus! {

/// `m` is `t` or a node nested somewhere inside it.
pub open spec fn in_tree(m: SyntaxNode, t: SyntaxNode) -> bool
    decreases t,
{
    m == t || in_forest(m, t.children@)
}

/// `m` is one of the trees of `s` or nested inside one of them.
pub open spec fn in_forest(m: SyntaxNode, s: Seq<SyntaxNode>) -> bool
    decreases s,
{
    s.len() > 0 && (in_forest(m, s.subrange(0, s.len() - 1)) || in_tree(m, s[s.len() - 1]))
}

proof fn lemma_contains_concat<T>(a: Seq<T>, b: Seq<T>, x: T)
    ensures
        (a + b).contains(x) <==> a.contains(x) || b.contains(x),
{
    if (a + b).contains(x) {
        let i = choose|i: int| 0 <= i < (a + b).len() && (a + b)[i] == x;
        if i < a.len() {
            assert(a[i] == x);
        } else {
            assert(b[i - a.len()] == x);
        }
    }
    if a.contains(x) {
        let i = choose|i: int| 0 <= i < a.len() && a[i] == x;
        assert((a + b)[i] == x);
    }
    if b.contains(x) {
        let i = choose|i: int| 0 <= i < b.len() && b[i] == x;
        assert((a + b)[a.len() + i] == x);
    }
}

/// The index of a tree holds `x` in the part that `f` selects exactly when
/// some node of the tree contributes `x` there itself.
proof fn lemma_tree_member<T>(t: SyntaxNode, f: spec_fn(LocationsView) -> Seq<T>, x: T)
    requires
        f(LocationsView::empty()) == Seq::<T>::empty(),
        forall|a: LocationsView, b: LocationsView| #[trigger] f(a.concat(b)) == f(a) + f(b),
    ensures
        f(tree_locations(t)).contains(x) <==> exists|m: SyntaxNode|
            in_tree(m, t) && #[trigger] f(node_locations(m)).contains(x),
    decreases t,
{
    lemma_forest_member(t.children@, f, x);
    lemma_contains_concat(f(node_locations(t)), f(forest_locations(t.children@)), x);
    assert(f(tree_locations(t)) == f(node_locations(t)) + f(forest_locations(t.children@)));
    if f(tree_locations(t)).contains(x) {
        if f(node_locations(t)).contains(x) {
            assert(in_tree(t, t));
        } else {
            let m = choose|m: SyntaxNode|
                in_forest(m, t.children@) && #[trigger] f(node_locations(m)).contains(x);
            assert(in_tree(m, t));
        }
    }
    if exists|m: SyntaxNode| in_tree(m, t) && #[trigger] f(node_locations(m)).contains(x) {
        let m = choose|m: SyntaxNode| in_tree(m, t) && #[trigger] f(node_locations(m)).contains(x);
        if m != t {
            assert(in_forest(m, t.children@));
        }
    }
}

proof fn lemma_forest_member<T>(s: Seq<SyntaxNode>, f: spec_fn(LocationsView) -> Seq<T>, x: T)
    requires
        f(LocationsView::empty()) == Seq::<T>::empty(),
        forall|a: LocationsView, b: LocationsView| #[trigger] f(a.concat(b)) == f(a) + f(b),
    ensures
        f(forest_locations(s)).contains(x) <==> exists|m: SyntaxNode|
            in_forest(m, s) && #[trigger] f(node_locations(m)).contains(x),
    decreases s,
{
    if s.len() > 0 {
        let init = s.subrange(0, s.len() - 1);
        let last = s[s.len() - 1];
        lemma_forest_member(init, f, x);
        lemma_tree_member(last, f, x);
        lemma_contains_concat(f(forest_locations(init)), f(tree_locations(last)), x);
        assert(f(forest_locations(s)) == f(forest_locations(init)) + f(tree_locations(last)));
        if exists|m: SyntaxNode| in_forest(m, s) && #[trigger] f(node_locations(m)).contains(x) {
            let m = choose|m: SyntaxNode|
                in_forest(m, s) && #[trigger] f(node_locations(m)).contains(x);
            assert(in_forest(m, init) || in_tree(m, last));
        }
        if f(forest_locations(init)).contains(x) {
            let m = choose|m: SyntaxNode|
                in_forest(m, init) && #[trigger] f(node_locations(m)).contains(x);
            assert(in_forest(m, s));
        }
        if f(tree_locations(last)).contains(x) {
            let m = choose|m: SyntaxNode| in_tree(m, last) && #[trigger] f(node_locations(m)).contains(x);
            assert(in_forest(m, s));
        }
    } else {
        assert(f(forest_locations(s)) =~= Seq::<T>::empty());
    }
}

/// The spans of a tree's index under `Block` are exactly those of its unsafe
/// block expressions.
pub proof fn lemma_blocks_of_tree(t: SyntaxNode, s: SimpleSpan)
    ensures
        tree_locations(t).blocks.contains(s) <==> exists|m: SyntaxNode|
            #[trigger] in_tree(m, t) && m.kind == NodeKind::UnsafeBlock && m.span == s,
{
    let f = |l: LocationsView| l.blocks;
    lemma_tree_member(t, f, s);
    if tree_locations(t).blocks.contains(s) {
        let m = choose|m: SyntaxNode| in_tree(m, t) && #[trigger] f(node_locations(m)).contains(s);
        assert(node_locations(m).blocks.contains(s));
    }
    if exists|m: SyntaxNode| #[trigger] in_tree(m, t) && m.kind == NodeKind::UnsafeBlock && m.span == s {
        let m = choose|m: SyntaxNode| #[trigger] in_tree(m, t) && m.kind == NodeKind::UnsafeBlock && m.span == s;
        assert(node_locations(m).blocks[0] == s);
        assert(f(node_locations(m)).contains(s));
    }
}

/// The named spans of a tree's index under `Function` are exactly those of its
/// function items marked `unsafe`, each with its identifier.
pub proof fn lemma_functions_of_tree(t: SyntaxNode, e: (SimpleSpan, Seq<char>))
    ensures
        tree_locations(t).functions.contains(e) <==> exists|m: SyntaxNode|
            #[trigger] in_tree(m, t) && m.kind == NodeKind::Function && m.unsafety && m.span == e.0
                && m.name@ == e.1,
{
    let f = |l: LocationsView| l.functions;
    lemma_tree_member(t, f, e);
    if tree_locations(t).functions.contains(e) {
        let m = choose|m: SyntaxNode| in_tree(m, t) && #[trigger] f(node_locations(m)).contains(e);
        assert(node_locations(m).functions.contains(e));
    }
    if exists|m: SyntaxNode|
        #[trigger] in_tree(m, t) && m.kind == NodeKind::Function && m.unsafety && m.span == e.0
            && m.name@ == e.1 {
        let m = choose|m: SyntaxNode|
            #[trigger] in_tree(m, t) && m.kind == NodeKind::Function && m.unsafety && m.span == e.0
                && m.name@ == e.1;
        assert(node_locations(m).functions[0] == e);
        assert(f(node_locations(m)).contains(e));
    }
}

proof fn lemma_spans_at(s: Seq<SimpleSpan>, p: LineColumn, k: KindView)
    ensures
        forall|i: int| 0 <= i < spans_at(s, p, k).len() ==> spans_at(s, p, k)[i] == k,
        spans_at(s, p, k).contains(k) <==> exists|i: int| 0 <= i < s.len() && span_contains(s[i], p),
    decreases s.len(),
{
    if s.len() > 0 {
        let init = s.drop_last();
        let tail = if span_contains(s.last(), p) { seq![k] } else { seq![] };
        lemma_spans_at(init, p, k);
        lemma_contains_concat(spans_at(init, p, k), tail, k);
        assert(spans_at(s, p, k) == spans_at(init, p, k) + tail);
        if exists|i: int| 0 <= i < s.len() && span_contains(s[i], p) {
            let i = choose|i: int| 0 <= i < s.len() && span_contains(s[i], p);
            if i < s.len() - 1 {
                assert(init[i] == s[i]);
            } else {
                assert(tail[0] == k);
            }
        }
        if spans_at(init, p, k).contains(k) {
            let i = choose|i: int| 0 <= i < init.len() && span_contains(init[i], p);
            assert(s[i] == init[i]);
        }
    }
}

proof fn lemma_named_at(s: Seq<(SimpleSpan, Seq<char>)>, p: LineColumn, is_trait: bool, n: Seq<char>)
    ensures
        forall|i: int| 0 <= i < named_at(s, p, is_trait).len() ==> !(named_at(s, p, is_trait)[i] is Block)
            && !(named_at(s, p, is_trait)[i] is Impl),
        named_at(s, p, is_trait).contains(named_kind(n, is_trait)) <==> exists|i: int|
            0 <= i < s.len() && s[i].1 == n && span_contains(s[i].0, p),
    decreases s.len(),
{
    if s.len() > 0 {
        let init = s.drop_last();
        let x = named_kind(n, is_trait);
        let tail = if span_contains(s.last().0, p) {
            seq![named_kind(s.last().1, is_trait)]
        } else {
            seq![]
        };
        lemma_named_at(init, p, is_trait, n);
        lemma_contains_concat(named_at(init, p, is_trait), tail, x);
        assert(named_at(s, p, is_trait) == named_at(init, p, is_trait) + tail);
        if exists|i: int| 0 <= i < s.len() && s[i].1 == n && span_contains(s[i].0, p) {
            let i = choose|i: int| 0 <= i < s.len() && s[i].1 == n && span_contains(s[i].0, p);
            if i < s.len() - 1 {
                assert(init[i] == s[i]);
            } else {
                assert(tail[0] == x);
            }
        }
        if named_at(init, p, is_trait).contains(x) {
            let i = choose|i: int| 0 <= i < init.len() && init[i].1 == n && span_contains(init[i].0, p);
            assert(s[i] == init[i]);
        }
        if tail.contains(x) {
            assert(s[s.len() - 1].1 == n);
        }
    }
}

proof fn lemma_matching_parts(l: LocationsView, p: LineColumn, n: Seq<char>)
    ensures
        matching(l, p).contains(KindView::Block) <==> spans_at(l.blocks, p, KindView::Block).contains(
            KindView::Block,
        ),
        named_at(l.functions, p, false).contains(KindView::Function(n)) ==> matching(l, p).contains(
            KindView::Function(n),
        ),
        named_at(l.traits, p, true).contains(KindView::Trait(n)) ==> matching(l, p).contains(
            KindView::Trait(n),
        ),
        spans_at(l.impls, p, KindView::Impl).contains(KindView::Impl) ==> matching(l, p).contains(
            KindView::Impl,
        ),
{
    let a = spans_at(l.blocks, p, KindView::Block);
    let b = named_at(l.functions, p, false);
    let c = named_at(l.traits, p, true);
    let d = spans_at(l.impls, p, KindView::Impl);
    lemma_named_at(l.functions, p, false, n);
    lemma_named_at(l.traits, p, true, n);
    lemma_spans_at(l.impls, p, KindView::Impl);
    lemma_contains_concat(a, b, KindView::Block);
    lemma_contains_concat(a + b, c, KindView::Block);
    lemma_contains_concat(a + b + c, d, KindView::Block);
    lemma_contains_concat(a, b, KindView::Function(n));
    lemma_contains_concat(a + b, c, KindView::Function(n));
    lemma_contains_concat(a + b + c, d, KindView::Function(n));
    lemma_contains_concat(a + b, c, KindView::Trait(n));
    lemma_contains_concat(a + b + c, d, KindView::Trait(n));
    lemma_contains_concat(a + b + c, d, KindView::Impl);
    assert(matching(l, p) == a + b + c + d);
}

/// A query on an analyzed file reports `Block` exactly when the position lies
/// within the span of some unsafe block expression of the file's syntax tree.
pub proof fn lemma_block_reported_iff(tree: SyntaxNode, p: LineColumn)
    ensures
        matching(tree_locations(tree), p).contains(KindView::Block) <==> exists|m: SyntaxNode|
            #[trigger] in_tree(m, tree) && m.kind == NodeKind::UnsafeBlock && span_contains(m.span, p),
{
    let l = tree_locations(tree);
    lemma_matching_parts(l, p, seq![]);
    lemma_spans_at(l.blocks, p, KindView::Block);
    if matching(l, p).contains(KindView::Block) {
        let i = choose|i: int| 0 <= i < l.blocks.len() && span_contains(l.blocks[i], p);
        lemma_blocks_of_tree(tree, l.blocks[i]);
        assert(l.blocks.contains(l.blocks[i]));
    }
    if exists|m: SyntaxNode| #[trigger] in_tree(m, tree) && m.kind == NodeKind::UnsafeBlock && span_contains(m.span, p) {
        let m = choose|m: SyntaxNode| #[trigger] in_tree(m, tree) && m.kind == NodeKind::UnsafeBlock && span_contains(m.span, p);
        lemma_blocks_of_tree(tree, m.span);
        let i = choose|i: int| 0 <= i < l.blocks.len() && l.blocks[i] == m.span;
        assert(span_contains(l.blocks[i], p));
    }
}

/// A query reports `Function(name)` at every position inside an unsafe
/// function item of the file.
pub proof fn lemma_function_reported(tree: SyntaxNode, f: SyntaxNode, p: LineColumn)
    requires
        in_tree(f, tree),
        f.kind == NodeKind::Function,
        f.unsafety,
        span_contains(f.span, p),
    ensures
        matching(tree_locations(tree), p).contains(KindView::Function(f.name@)),
{
    let l = tree_locations(tree);
    let e = (f.span, f.name@);
    lemma_functions_of_tree(tree, e);
    let i = choose|i: int| 0 <= i < l.functions.len() && l.functions[i] == e;
    lemma_named_at(l.functions, p, false, f.name@);
    assert(l.functions[i].1 == f.name@ && span_contains(l.functions[i].0, p));
    lemma_matching_parts(l, p, f.name@);
}

/// The node is recorded in the index: an unsafe block, or a function, trait
/// or impl marked `unsafe`.
pub open spec fn is_recorded(c: SyntaxNode) -> bool {
    c.kind == NodeKind::UnsafeBlock || (c.unsafety && c.kind != NodeKind::Other)
}

/// The kind a query reports for a recorded node.
pub open spec fn reported_kind(c: SyntaxNode) -> KindView {
    match c.kind {
        NodeKind::Function => KindView::Function(c.name@),
        NodeKind::Trait => KindView::Trait(c.name@),
        NodeKind::Impl => KindView::Impl,
        _ => KindView::Block,
    }
}

/// A query reports a recorded construct, with its kind and name, at every
/// position inside its span.
pub proof fn lemma_construct_reported(tree: SyntaxNode, c: SyntaxNode, p: LineColumn)
    requires
        in_tree(c, tree),
        is_recorded(c),
        span_contains(c.span, p),
    ensures
        matching(tree_locations(tree), p).contains(reported_kind(c)),
{
    let l = tree_locations(tree);
    match c.kind {
        NodeKind::UnsafeBlock => {
            assert(in_tree(c, tree));
            lemma_block_reported_iff(tree, p);
        },
        NodeKind::Function => {
            lemma_function_reported(tree, c, p);
        },
        NodeKind::Trait => {
            let f = |v: LocationsView| v.traits;
            let e = (c.span, c.name@);
            lemma_tree_member(tree, f, e);
            assert(node_locations(c).traits[0] == e);
            assert(f(node_locations(c)).contains(e));
            let i = choose|i: int| 0 <= i < l.traits.len() && l.traits[i] == e;
            lemma_named_at(l.traits, p, true, c.name@);
            assert(l.traits[i].1 == c.name@ && span_contains(l.traits[i].0, p));
            lemma_matching_parts(l, p, c.name@);
        },
        NodeKind::Impl => {
            let f = |v: LocationsView| v.impls;
            lemma_tree_member(tree, f, c.span);
            assert(node_locations(c).impls[0] == c.span);
            assert(f(node_locations(c)).contains(c.span));
            let i = choose|i: int| 0 <= i < l.impls.len() && l.impls[i] == c.span;
            lemma_spans_at(l.impls, p, KindView::Impl);
            assert(span_contains(l.impls[i], p));
            lemma_matching_parts(l, p, seq![]);
        },
        NodeKind::Other => {},
    }
}

/// The first and the last position of any recorded construct (block,
/// function, trait or impl) are both reported with its kind.
pub proof fn lemma_boundaries_reported(tree: SyntaxNode, c: SyntaxNode)
    requires
        in_tree(c, tree),
        is_recorded(c),
        position_le(c.span.start, c.span.end),
    ensures
        matching(tree_locations(tree), c.span.start).contains(reported_kind(c)),
        matching(tree_locations(tree), c.span.end).contains(reported_kind(c)),
{
    lemma_construct_reported(tree, c, c.span.start);
    lemma_construct_reported(tree, c, c.span.end);
}

proof fn lemma_in_tree_trans(a: SyntaxNode, b: SyntaxNode, c: SyntaxNode)
    requires
        in_tree(a, b),
        in_tree(b, c),
    ensures
        in_tree(a, c),
    decreases c,
{
    if b != c {
        lemma_in_forest_trans(a, b, c.children@);
    }
}

proof fn lemma_in_forest_trans(a: SyntaxNode, b: SyntaxNode, s: Seq<SyntaxNode>)
    requires
        in_tree(a, b),
        in_forest(b, s),
    ensures
        in_forest(a, s),
    decreases s,
{
    let init = s.subrange(0, s.len() - 1);
    if in_forest(b, init) {
        lemma_in_forest_trans(a, b, init);
    } else {
        lemma_in_tree_trans(a, b, s[s.len() - 1]);
    }
}

/// `inner` lies within `outer`, endpoints included.
pub open spec fn span_within(inner: SimpleSpan, outer: SimpleSpan) -> bool {
    position_le(outer.start, inner.start) && position_le(inner.end, outer.end)
}

/// Every node's span lies within its parent's, as a parser's spans do.
pub open spec fn well_nested(t: SyntaxNode) -> bool
    decreases t,
{
    forest_nested(t.span, t.children@)
}

/// Each tree of `s` lies within `outer` and is well nested itself.
pub open spec fn forest_nested(outer: SimpleSpan, s: Seq<SyntaxNode>) -> bool
    decreases s,
{
    s.len() > 0 ==> forest_nested(outer, s.subrange(0, s.len() - 1)) && span_within(
        s[s.len() - 1].span,
        outer,
    ) && well_nested(s[s.len() - 1])
}

proof fn lemma_nested_subtree(m: SyntaxNode, t: SyntaxNode)
    requires
        well_nested(t),
        in_tree(m, t),
    ensures
        well_nested(m),
        span_within(m.span, t.span),
    decreases t,
{
    if m != t {
        lemma_nested_subforest(m, t.span, t.children@);
    }
}

proof fn lemma_nested_subforest(m: SyntaxNode, outer: SimpleSpan, s: Seq<SyntaxNode>)
    requires
        forest_nested(outer, s),
        in_forest(m, s),
    ensures
        well_nested(m),
        span_within(m.span, outer),
    decreases s,
{
    let init = s.subrange(0, s.len() - 1);
    if in_forest(m, init) {
        lemma_nested_subforest(m, outer, init);
    } else {
        lemma_nested_subtree(m, s[s.len() - 1]);
    }
}

/// A position inside an unsafe block nested in an unsafe function is reported
/// both as `Block` and as `Function` with the function's name.
pub proof fn lemma_nested_block_in_function(tree: SyntaxNode, f: SyntaxNode, b: SyntaxNode, p: LineColumn)
    requires
        well_nested(tree),
        in_tree(f, tree),
        f.kind == NodeKind::Function,
        f.unsafety,
        in_tree(b, f),
        b.kind == NodeKind::UnsafeBlock,
        span_contains(b.span, p),
    ensures
        matching(tree_locations(tree), p).contains(KindView::Block),
        matching(tree_locations(tree), p).contains(KindView::Function(f.name@)),
{
    lemma_nested_subtree(f, tree);
    lemma_nested_subtree(b, f);
    lemma_in_tree_trans(b, f, tree);
    lemma_block_reported_iff(tree, p);
    lemma_function_reported(tree, f, p);
}

/// Analyzing a file again from the same tree leaves the cache as the first
/// analysis left it; analyzing it from a changed tree leaves exactly the new
/// tree's index for it, with nothing kept of the old one.
pub proof fn lemma_reanalyze_overwrites(
    cache: Map<Seq<char>, LocationsView>,
    path: Seq<char>,
    first: SyntaxNode,
    second: SyntaxNode,
)
    ensures
        cache.insert(path, tree_locations(first)).insert(path, tree_locations(first)) == cache.insert(
            path,
            tree_locations(first),
        ),
        cache.insert(path, tree_locations(first)).insert(path, tree_locations(second)) == cache.insert(
            path,
            tree_locations(second),
        ),
        cache.insert(path, tree_locations(first)).insert(path, tree_locations(second))[path]
            == tree_locations(second),
{
    assert(cache.insert(path, tree_locations(first)).insert(path, tree_locations(first)) =~= cache.insert(
        path,
        tree_locations(first),
    ));
    assert(cache.insert(path, tree_locations(first)).insert(path, tree_locations(second)) =~= cache.insert(
        path,
        tree_locations(second),
    ));
}

/// Analyzing one file changes neither whether another file is in the cache nor
/// what a query on it answers.
pub proof fn lemma_cross_file_isolation(
    cache: Map<Seq<char>, LocationsView>,
    analyzed: Seq<char>,
    tree: SyntaxNode,
    other: Seq<char>,
    p: LineColumn,
)
    requires
        analyzed != other,
    ensures
        cache.insert(analyzed, tree_locations(tree)).contains_key(other) == cache.contains_key(other),
        answer(cache.insert(analyzed, tree_locations(tree)), other, p) == answer(cache, other, p),
{
}

/// After a query has analyzed a file on first use, the file is in the cache,
/// later queries on it are answered from the index that analysis stored, and
/// the cache is the one an explicit analysis would have left.
pub proof fn lemma_lazy_analysis_is_cached(
    cache: Map<Seq<char>, LocationsView>,
    path: Seq<char>,
    tree: SyntaxNode,
    p: LineColumn,
)
    ensures
        cache.insert(path, tree_locations(tree)).contains_key(path),
        answer(cache.insert(path, tree_locations(tree)), path, p) == matching(tree_locations(tree), p),
        cache.insert(path, tree_locations(tree)).insert(path, tree_locations(tree)) == cache.insert(
            path,
            tree_locations(tree),
        ),
{
    lemma_reanalyze_overwrites(cache, path, tree, tree);
}

} // verus!
