use vstd::prelude::*;
use crate::span::SimpleSpan;
use crate::locations::{LocationsView, NamedSpan, UnsafeLocations, lemma_concat_assoc, lemma_concat_empty};

verus! {

/// The kinds of syntax node that can carry an `unsafe` marker.
#[derive(Clone, Copy, Debug, PartialEq, Eq, Structural)]
pub enum NodeKind {
    /// An `unsafe { ... }` block expression.
    UnsafeBlock,
    /// A function item.
    Function,
    /// A trait declaration.
    Trait,
    /// A trait implementation.
    Impl,
    /// Any other node; only its children are looked at.
    Other,
}

/// A node of a parsed source file: its kind, whether its declaration is marked
/// `unsafe`, its full extent, its declared identifier (empty where the kind has
/// none) and the nodes nested in it.
#[derive(Debug)]
pub struct SyntaxNode {
    pub kind: NodeKind,
    pub unsafety: bool,
    pub span: SimpleSpan,
    pub name: String,
    pub children: Vec<SyntaxNode>,
}

/// What the node itself, without its children, adds to the index.
pub open spec fn node_locations(n: SyntaxNode) -> LocationsView {
    let e = LocationsView::empty();
    match n.kind {
        NodeKind::UnsafeBlock => LocationsView { blocks: seq![n.span], ..e },
        NodeKind::Function => if n.unsafety {
            LocationsView { functions: seq![(n.span, n.name@)], ..e }
        } else {
            e
        },
        NodeKind::Trait => if n.unsafety {
            LocationsView { traits: seq![(n.span, n.name@)], ..e }
        } else {
            e
        },
        NodeKind::Impl => if n.unsafety {
            LocationsView { impls: seq![n.span], ..e }
        } else {
            e
        },
        NodeKind::Other => e,
    }
}

/// The index of a whole tree: the node first, then its children in order.
pub open spec fn tree_locations(n: SyntaxNode) -> LocationsView
    decreases n,
{
    node_locations(n).concat(forest_locations(n.children@))
}

/// The index of a sequence of trees, one after the other.
pub open spec fn forest_locations(s: Seq<SyntaxNode>) -> LocationsView
    decreases s,
{
    if s.len() == 0 {
        LocationsView::empty()
    } else {
        forest_locations(s.subrange(0, s.len() - 1)).concat(tree_locations(s[s.len() - 1]))
    }
}

/// Collects the unsafe constructs of a syntax tree.
pub struct UnsafeVisitor {
    pub found: UnsafeLocations,
}

impl View for UnsafeVisitor {
    type V = LocationsView;

    open spec fn view(&self) -> LocationsView {
        self.found@
    }
}

impl UnsafeVisitor {
    /// A visitor that has found nothing yet.
    pub fn new() -> (r: UnsafeVisitor)
        ensures
            r@ == LocationsView::empty(),
    {
        UnsafeVisitor { found: UnsafeLocations::new() }
    }

    /// Records the node itself when it is an unsafe block, or an unsafe
    /// function, trait or impl.
    fn record(&mut self, node: &SyntaxNode)
        ensures
            final(self)@ == old(self)@.concat(node_locations(*node)),
    {
        let ghost before = self@;
        match node.kind {
            NodeKind::UnsafeBlock => {
                self.found.blocks.push(node.span);
            },
            NodeKind::Function => {
                if node.unsafety {
                    let entry = NamedSpan { span: node.span, name: node.name.clone() };
                    self.found.functions.push(entry);
                }
            },
            NodeKind::Trait => {
                if node.unsafety {
                    let entry = NamedSpan { span: node.span, name: node.name.clone() };
                    self.found.traits.push(entry);
                }
            },
            NodeKind::Impl => {
                if node.unsafety {
                    self.found.impls.push(node.span);
                }
            },
            NodeKind::Other => {},
        }
        assert(self@.blocks =~= before.concat(node_locations(*node)).blocks);
        assert(self@.functions =~= before.concat(node_locations(*node)).functions);
        assert(self@.traits =~= before.concat(node_locations(*node)).traits);
        assert(self@.impls =~= before.concat(node_locations(*node)).impls);
    }

    /// Visits `node` and everything nested in it, recording each unsafe
    /// construct; matched nodes are searched further too.
    pub fn visit_node(&mut self, node: &SyntaxNode)
        ensures
            final(self)@ == old(self)@.concat(tree_locations(*node)),
        decreases *node,
    {
        let ghost start = self@;
        self.record(node);
        let ghost own = node_locations(*node);
        proof {
            lemma_concat_empty(start.concat(own));
            assert(node.children@.subrange(0, 0) =~= Seq::<SyntaxNode>::empty());
        }
        let mut i: usize = 0;
        while i < node.children.len()
            invariant
                i <= node.children@.len(),
                own == node_locations(*node),
                self@ == start.concat(own).concat(
                    forest_locations(node.children@.subrange(0, i as int)),
                ),
            decreases node.children@.len() - i,
        {
            let ghost before = self@;
            assert(decreases_to!(*node => node.children@[i as int]));
            self.visit_node(&node.children[i]);
            let ghost done = node.children@.subrange(0, i as int);
            let ghost next = node.children@.subrange(0, i + 1);
            proof {
                assert(next.subrange(0, next.len() - 1) =~= done);
                lemma_concat_assoc(
                    start.concat(own),
                    forest_locations(done),
                    tree_locations(node.children@[i as int]),
                );
            }
            i += 1;
        }
        proof {
            assert(node.children@.subrange(0, node.children@.len() as int) =~= node.children@);
            lemma_concat_assoc(start, own, forest_locations(node.children@));
        }
    }

    /// Visits a whole file from its root node.
    pub fn visit_file(&mut self, root: &SyntaxNode)
        ensures
            final(self)@ == old(self)@.concat(tree_locations(*root)),
    {
        self.visit_node(root);
    }

    /// The index built so far.
    pub fn into_locations(self) -> (r: UnsafeLocations)
        ensures
            r@ == self@,
    {
        self.found
    }
}

/// The index of a file whose syntax tree is `root`.
pub fn locations_of(root: &SyntaxNode) -> (r: UnsafeLocations)
    ensures
        r@ == tree_locations(*root),
{
    let mut visitor = UnsafeVisitor::new();
    visitor.visit_file(root);
    proof {
        lemma_concat_empty(tree_locations(*root));
    }
    visitor.into_locations()
}

} // verus!
