use vstd::prelude::*;
use crate::span::{LineColumn, SimpleSpan, span_contains};

verus! {

/// A span together with the identifier declared there.
#[derive(Clone, Debug)]
pub struct NamedSpan {
    pub span: SimpleSpan,
    pub name: String,
}

impl View for NamedSpan {
    type V = (SimpleSpan, Seq<char>);

    open spec fn view(&self) -> (SimpleSpan, Seq<char>) {
        (self.span, self.name@)
    }
}

/// What one file holds: the spans of its unsafe blocks, unsafe functions (with
/// their names), unsafe traits (with their names) and unsafe impls.
pub struct LocationsView {
    pub blocks: Seq<SimpleSpan>,
    pub functions: Seq<(SimpleSpan, Seq<char>)>,
    pub traits: Seq<(SimpleSpan, Seq<char>)>,
    pub impls: Seq<SimpleSpan>,
}

impl LocationsView {
    pub open spec fn empty() -> LocationsView {
        LocationsView { blocks: seq![], functions: seq![], traits: seq![], impls: seq![] }
    }

    /// The entries of `self` followed by those of `o`, kind by kind.
    pub open spec fn concat(self, o: LocationsView) -> LocationsView {
        LocationsView {
            blocks: self.blocks + o.blocks,
            functions: self.functions + o.functions,
            traits: self.traits + o.traits,
            impls: self.impls + o.impls,
        }
    }
}

pub proof fn lemma_concat_assoc(a: LocationsView, b: LocationsView, c: LocationsView)
    ensures
        a.concat(b).concat(c) == a.concat(b.concat(c)),
{
    assert(a.concat(b).concat(c).blocks =~= a.concat(b.concat(c)).blocks);
    assert(a.concat(b).concat(c).functions =~= a.concat(b.concat(c)).functions);
    assert(a.concat(b).concat(c).traits =~= a.concat(b.concat(c)).traits);
    assert(a.concat(b).concat(c).impls =~= a.concat(b.concat(c)).impls);
}

pub proof fn lemma_concat_empty(a: LocationsView)
    ensures
        a.concat(LocationsView::empty()) == a,
        LocationsView::empty().concat(a) == a,
{
    assert(a.concat(LocationsView::empty()).blocks =~= a.blocks);
    assert(a.concat(LocationsView::empty()).functions =~= a.functions);
    assert(a.concat(LocationsView::empty()).traits =~= a.traits);
    assert(a.concat(LocationsView::empty()).impls =~= a.impls);
    assert(LocationsView::empty().concat(a).blocks =~= a.blocks);
    assert(LocationsView::empty().concat(a).functions =~= a.functions);
    assert(LocationsView::empty().concat(a).traits =~= a.traits);
    assert(LocationsView::empty().concat(a).impls =~= a.impls);
}

/// The kind of unsafe construct found at a position.
#[derive(Clone, Debug, PartialEq, Eq, Hash)]
pub enum UnsafeLocationKind {
    Block,
    Function(String),
    Trait(String),
    Impl,
}

pub enum KindView {
    Block,
    Function(Seq<char>),
    Trait(Seq<char>),
    Impl,
}

impl View for UnsafeLocationKind {
    type V = KindView;

    open spec fn view(&self) -> KindView {
        match self {
            UnsafeLocationKind::Block => KindView::Block,
            UnsafeLocationKind::Function(n) => KindView::Function(n@),
            UnsafeLocationKind::Trait(n) => KindView::Trait(n@),
            UnsafeLocationKind::Impl => KindView::Impl,
        }
    }
}

pub open spec fn kinds_view(v: Seq<UnsafeLocationKind>) -> Seq<KindView> {
    v.map_values(|k: UnsafeLocationKind| k@)
}

/// One `k` for each span of `s` that holds `p`, in the order of `s`.
pub open spec fn spans_at(s: Seq<SimpleSpan>, p: LineColumn, k: KindView) -> Seq<KindView>
    decreases s.len(),
{
    if s.len() == 0 {
        seq![]
    } else {
        spans_at(s.drop_last(), p, k) + if span_contains(s.last(), p) {
            seq![k]
        } else {
            seq![]
        }
    }
}

pub open spec fn named_kind(name: Seq<char>, is_trait: bool) -> KindView {
    if is_trait {
        KindView::Trait(name)
    } else {
        KindView::Function(name)
    }
}

/// One entry for each named span of `s` that holds `p`, carrying its name.
pub open spec fn named_at(s: Seq<(SimpleSpan, Seq<char>)>, p: LineColumn, is_trait: bool) -> Seq<
    KindView,
>
    decreases s.len(),
{
    if s.len() == 0 {
        seq![]
    } else {
        named_at(s.drop_last(), p, is_trait) + if span_contains(s.last().0, p) {
            seq![named_kind(s.last().1, is_trait)]
        } else {
            seq![]
        }
    }
}

/// Every entry of `l` whose span holds `p`: blocks, then functions, traits, impls.
pub open spec fn matching(l: LocationsView, p: LineColumn) -> Seq<KindView> {
    spans_at(l.blocks, p, KindView::Block) + named_at(l.functions, p, false) + named_at(
        l.traits,
        p,
        true,
    ) + spans_at(l.impls, p, KindView::Impl)
}

/// The unsafe constructs found in one file.
#[derive(Clone, Debug)]
pub struct UnsafeLocations {
    pub blocks: Vec<SimpleSpan>,
    pub functions: Vec<NamedSpan>,
    pub traits: Vec<NamedSpan>,
    pub impls: Vec<SimpleSpan>,
}

impl View for UnsafeLocations {
    type V = LocationsView;

    open spec fn view(&self) -> LocationsView {
        LocationsView {
            blocks: self.blocks@,
            functions: self.functions@.map_values(|n: NamedSpan| n@),
            traits: self.traits@.map_values(|n: NamedSpan| n@),
            impls: self.impls@,
        }
    }
}

fn push_spans_at(spans: &Vec<SimpleSpan>, p: LineColumn, is_impl: bool, out: &mut Vec<UnsafeLocationKind>)
    ensures
        kinds_view(final(out)@) == kinds_view(old(out)@) + spans_at(
            spans@,
            p,
            if is_impl { KindView::Impl } else { KindView::Block },
        ),
{
    let ghost k = if is_impl { KindView::Impl } else { KindView::Block };
    let ghost start = kinds_view(out@);
    let mut i: usize = 0;
    while i < spans.len()
        invariant
            i <= spans@.len(),
            k == (if is_impl { KindView::Impl } else { KindView::Block }),
            kinds_view(out@) == start + spans_at(spans@.subrange(0, i as int), p, k),
        decreases spans@.len() - i,
    {
        let ghost before = out@;
        if spans[i].contains(p) {
            let kind = if is_impl {
                UnsafeLocationKind::Impl
            } else {
                UnsafeLocationKind::Block
            };
            assert(kind@ == k);
            out.push(kind);
            assert(out@ == before.push(kind));
            assert(kinds_view(out@) =~= kinds_view(before) + seq![k]);
        }
        assert(spans@.subrange(0, i + 1).drop_last() =~= spans@.subrange(0, i as int));
        assert(kinds_view(out@) =~= start + spans_at(spans@.subrange(0, i + 1), p, k));
        i += 1;
    }
    assert(spans@.subrange(0, spans@.len() as int) =~= spans@);
}

fn push_named_at(named: &Vec<NamedSpan>, p: LineColumn, is_trait: bool, out: &mut Vec<UnsafeLocationKind>)
    ensures
        kinds_view(final(out)@) == kinds_view(old(out)@) + named_at(
            named@.map_values(|n: NamedSpan| n@),
            p,
            is_trait,
        ),
{
    let ghost start = kinds_view(out@);
    let ghost all = named@.map_values(|n: NamedSpan| n@);
    let mut i: usize = 0;
    while i < named.len()
        invariant
            i <= named@.len(),
            all == named@.map_values(|n: NamedSpan| n@),
            kinds_view(out@) == start + named_at(all.subrange(0, i as int), p, is_trait),
        decreases named@.len() - i,
    {
        let ghost before = out@;
        let entry = &named[i];
        if entry.span.contains(p) {
            let name = entry.name.clone();
            if is_trait {
                out.push(UnsafeLocationKind::Trait(name));
            } else {
                out.push(UnsafeLocationKind::Function(name));
            }
            assert(kinds_view(out@) =~= kinds_view(before) + seq![named_kind(entry.name@, is_trait)]);
        }
        assert(all.subrange(0, i + 1).drop_last() =~= all.subrange(0, i as int));
        assert(all.subrange(0, i + 1).last() == all[i as int]);
        assert(kinds_view(out@) =~= start + named_at(all.subrange(0, i + 1), p, is_trait));
        i += 1;
    }
    assert(all.subrange(0, all.len() as int) =~= all);
}

impl UnsafeLocations {
    /// An index with no entries.
    pub fn new() -> (r: UnsafeLocations)
        ensures
            r@ == LocationsView::empty(),
    {
        let r = UnsafeLocations { blocks: Vec::new(), functions: Vec::new(), traits: Vec::new(), impls: Vec::new() };
        assert(r@.functions =~= seq![]);
        assert(r@.traits =~= seq![]);
        r
    }

    /// Every construct of this file whose span holds `location`.
    pub fn get_matching(&self, location: LineColumn) -> (r: Vec<UnsafeLocationKind>)
        ensures
            kinds_view(r@) == matching(self@, location),
    {
        let mut r: Vec<UnsafeLocationKind> = Vec::new();
        assert(kinds_view(r@) =~= seq![]);
        push_spans_at(&self.blocks, location, false, &mut r);
        push_named_at(&self.functions, location, false, &mut r);
        push_named_at(&self.traits, location, true, &mut r);
        push_spans_at(&self.impls, location, true, &mut r);
        assert(kinds_view(r@) =~= matching(self@, location));
        r
    }
}

} // verus!
