//! Control-flow graphs. The basic blocks of a method body are held in a
//! vector; the edges between them are held in a `petgraph` graph whose node
//! `i` stands for block `i`.

use vstd::prelude::*;
use petgraph::graph::{Graph, NodeIndex};
use fixedbitset::FixedBitSet;
use petgraph::visit::Dfs;
use petgraph::{Directed, Direction};
use crate::types::views;

verus! {

/// `petgraph::graph::Graph`, carried as an opaque value.
#[verifier::external_type_specification]
#[verifier::external_body]
#[verifier::reject_recursive_types(N)]
#[verifier::reject_recursive_types(E)]
#[verifier::reject_recursive_types(Ty)]
#[verifier::reject_recursive_types(Ix)]
pub struct ExGraph<N, E, Ty, Ix>(Graph<N, E, Ty, Ix>);

/// `petgraph::Directed`, the marker of graphs with directed edges.
#[verifier::external_type_specification]
#[verifier::external_body]
pub struct ExDirected(Directed);

/// `petgraph::graph::NodeIndex`, the identifier of a node.
#[verifier::external_type_specification]
#[verifier::external_body]
#[verifier::reject_recursive_types(Ix)]
pub struct ExNodeIndex<Ix>(NodeIndex<Ix>);

/// `petgraph::visit::Dfs`, the state of a depth-first walk, carried as an
/// opaque value.
#[verifier::external_type_specification]
#[verifier::external_body]
#[verifier::reject_recursive_types(N)]
#[verifier::reject_recursive_types(VM)]
pub struct ExDfs<N, VM>(Dfs<N, VM>);

/// `fixedbitset::FixedBitSet`, in which a walk marks the nodes it has
/// handed out.
#[verifier::external_type_specification]
#[verifier::external_body]
pub struct ExFixedBitSet(FixedBitSet);

/// The edges of a control-flow graph: a directed graph without weights.
pub type EdgeGraph = Graph<(), (), Directed, usize>;

/// The state of a depth-first walk over an [`EdgeGraph`].
pub type Walk = Dfs<NodeIndex<usize>, FixedBitSet>;

/// What a graph holds: for each node, in index order, the targets of its
/// outgoing edges in the order in which the graph lists them.
pub uninterp spec fn graph_successors(g: EdgeGraph) -> Seq<Seq<int>>;

/// `Graph::node_count`: the number of nodes.
#[verifier::external_body]
pub(crate) fn graph_node_count(g: &EdgeGraph) -> (n: usize)
    ensures
        n == graph_successors(*g).len(),
{
    g.node_count()
}

/// `Graph::neighbors_directed` with `Outgoing`: the targets of the edges
/// that leave `v`, in the graph's order; none if `v` is no node. Every
/// target is a node of the graph.
#[verifier::external_body]
pub(crate) fn graph_neighbors(g: &EdgeGraph, v: usize) -> (targets: Vec<usize>)
    ensures
        v < graph_successors(*g).len() ==> targets@.map_values(|w: usize| w as int)
            == graph_successors(*g)[v as int],
        v >= graph_successors(*g).len() ==> targets@.len() == 0,
        forall|k: int| 0 <= k < targets@.len() ==> targets@[k] < graph_successors(*g).len(),
{
    g.neighbors_directed(NodeIndex::new(v), Direction::Outgoing).map(|w| w.index()).collect()
}

/// `Graph::with_capacity`: a graph without nodes.
#[verifier::external_body]
pub(crate) fn graph_empty() -> (g: EdgeGraph)
    ensures
        graph_successors(g) == Seq::<Seq<int>>::empty(),
{
    Graph::with_capacity(0, 0)
}

/// `Graph::add_node`: appends a node without edges and returns its index.
#[verifier::external_body]
pub(crate) fn graph_add_node(g: &mut EdgeGraph) -> (index: usize)
    ensures
        index == graph_successors(*old(g)).len(),
        graph_successors(*final(g)) == graph_successors(*old(g)).push(Seq::<int>::empty()),
{
    g.add_node(()).index()
}

/// `Graph::add_edge`: adds an edge from `a` to `b`; the graph lists the
/// newest edge of a node first.
#[verifier::external_body]
pub(crate) fn graph_add_edge(g: &mut EdgeGraph, a: usize, b: usize)
    requires
        a < graph_successors(*old(g)).len(),
        b < graph_successors(*old(g)).len(),
    ensures
        graph_successors(*final(g)) == graph_successors(*old(g)).update(
            a as int,
            seq![b as int] + graph_successors(*old(g))[a as int],
        ),
{
    g.add_edge(NodeIndex::new(a), NodeIndex::new(b), ());
}

/// The nodes that a walk still holds on its stack.
pub uninterp spec fn walk_pending(walk: Walk) -> Set<int>;

/// The nodes that a walk has handed out.
pub uninterp spec fn walk_discovered(walk: Walk) -> Set<int>;

/// The number of nodes that a walk was made for.
pub uninterp spec fn walk_limit(walk: Walk) -> nat;

/// `Dfs::new`: a walk that holds only `start`, has handed out nothing, and
/// is made for the nodes of `g`.
#[verifier::external_body]
pub(crate) fn walk_new(g: &EdgeGraph, start: usize) -> (walk: Walk)
    ensures
        walk_pending(walk) == set![start as int],
        walk_discovered(walk) == Set::<int>::empty(),
        walk_limit(walk) == graph_successors(*g).len(),
{
    Dfs::new(g, NodeIndex::new(start))
}

/// `Dfs::next`: takes nodes off the stack until one comes that was not
/// handed out before, marks it, puts those of its successors on the stack
/// that were not handed out, and returns it; returns `None` once the stack
/// is empty. Stated here is what holds of every order in which the stack
/// may hold its nodes.
#[verifier::external_body]
pub(crate) fn walk_next(walk: &mut Walk, g: &EdgeGraph) -> (next: Option<usize>)
    requires
        walk_limit(*old(walk)) == graph_successors(*g).len(),
        forall|x: int| walk_pending(*old(walk)).contains(x) ==> 0 <= x < walk_limit(*old(walk)),
    ensures
        walk_limit(*final(walk)) == walk_limit(*old(walk)),
        forall|x: int|
            walk_pending(*old(walk)).contains(x) ==> walk_pending(*final(walk)).contains(x)
                || walk_discovered(*final(walk)).contains(x),
        match next {
            Some(v) => {
                &&& walk_pending(*old(walk)).contains(v as int)
                &&& !walk_discovered(*old(walk)).contains(v as int)
                &&& walk_discovered(*final(walk)) == walk_discovered(*old(walk)).insert(v as int)
                &&& forall|x: int|
                    walk_pending(*final(walk)).contains(x) ==> 0 <= x < walk_limit(*old(walk)) && (
                    walk_pending(*old(walk)).contains(x) || graph_successors(*g)[v as int].contains(
                        x,
                    ))
                &&& forall|x: int|
                    graph_successors(*g)[v as int].contains(x) ==> walk_pending(
                        *final(walk),
                    ).contains(x) || walk_discovered(*final(walk)).contains(x)
            },
            None => {
                &&& walk_pending(*final(walk)) == Set::<int>::empty()
                &&& walk_discovered(*final(walk)) == walk_discovered(*old(walk))
            },
        },
{
    walk.next(g).map(|v| v.index())
}

/// A straight-line region of code: statements in order, and the condition
/// of the branch that ends it, if it ends in one.
#[derive(Debug, PartialEq, Eq)]
pub struct BasicBlock<N, C> {
    pub stmts: Vec<N>,
    pub terminator: Option<C>,
}

/// Model of a [`BasicBlock`].
pub struct BasicBlockView<NV, CV> {
    pub stmts: Seq<NV>,
    pub terminator: Option<CV>,
}

impl<N: View, C: View> View for BasicBlock<N, C> {
    type V = BasicBlockView<N::V, C::V>;

    open spec fn view(&self) -> BasicBlockView<N::V, C::V> {
        BasicBlockView {
            stmts: views(self.stmts@),
            terminator: match self.terminator {
                Some(c) => Some(c@),
                None => None,
            },
        }
    }
}

impl<NV, CV> BasicBlockView<NV, CV> {
    /// The block without statements and without a terminator.
    pub open spec fn empty() -> Self {
        BasicBlockView { stmts: Seq::empty(), terminator: None }
    }
}

impl<N: View, C: View> BasicBlock<N, C> {
    /// A block without statements and without a terminator.
    pub fn empty() -> (block: Self)
        ensures
            block@ == BasicBlockView::<N::V, C::V>::empty(),
    {
        let block = BasicBlock { stmts: Vec::new(), terminator: None };
        assert(block@.stmts =~= Seq::empty());
        block
    }
}

/// The control-flow graph of one method body. Block `i` is node `i` of
/// `graph`.
#[derive(Debug)]
pub struct Cfg<N, C> {
    pub blocks: Vec<BasicBlock<N, C>>,
    pub graph: EdgeGraph,
    pub entry_point: usize,
    pub exit_point: usize,
}

/// Model of a [`Cfg`]: the blocks, and for each block the blocks that its
/// edges lead to.
pub struct CfgView<NV, CV> {
    pub blocks: Seq<BasicBlockView<NV, CV>>,
    pub successors: Seq<Seq<int>>,
    pub entry_point: int,
    pub exit_point: int,
}

impl<N: View, C: View> View for Cfg<N, C> {
    type V = CfgView<N::V, C::V>;

    open spec fn view(&self) -> CfgView<N::V, C::V> {
        CfgView {
            blocks: views(self.blocks@),
            successors: graph_successors(self.graph),
            entry_point: self.entry_point as int,
            exit_point: self.exit_point as int,
        }
    }
}

impl<N, C> Cfg<N, C> {
    /// For each block, the blocks that its edges lead to.
    pub open spec fn successors(&self) -> Seq<Seq<int>> {
        graph_successors(self.graph)
    }

    /// The graph has one node per block, and the entry and the exit are
    /// blocks.
    pub open spec fn wf(&self) -> bool {
        &&& self.successors().len() == self.blocks@.len()
        &&& self.entry_point < self.blocks@.len()
        &&& self.exit_point < self.blocks@.len()
    }

    /// A graph over `blocks` without edges. `None` if the entry or the exit
    /// is no block.
    pub fn new(blocks: Vec<BasicBlock<N, C>>, entry_point: usize, exit_point: usize) -> (res:
        Option<Self>)
        ensures
            res is Some <==> entry_point < blocks@.len() && exit_point < blocks@.len(),
            match res {
                Some(cfg) => {
                    &&& cfg.wf()
                    &&& cfg.blocks == blocks
                    &&& cfg.entry_point == entry_point
                    &&& cfg.exit_point == exit_point
                    &&& forall|v: int| 0 <= v < blocks@.len() ==> cfg.successors()[v].len() == 0
                },
                None => true,
            },
    {
        if entry_point >= blocks.len() || exit_point >= blocks.len() {
            return None;
        }
        let mut graph = graph_empty();
        let mut i: usize = 0;
        while i < blocks.len()
            invariant
                i <= blocks@.len(),
                graph_successors(graph).len() == i,
                forall|v: int| 0 <= v < i ==> graph_successors(graph)[v].len() == 0,
            decreases blocks@.len() - i,
        {
            graph_add_node(&mut graph);
            i = i + 1;
        }
        Some(Cfg { blocks, graph, entry_point, exit_point })
    }

    /// Puts `graph` under `blocks`. `None` unless the graph has one node per
    /// block and the entry and the exit are blocks.
    pub fn from_graph(
        blocks: Vec<BasicBlock<N, C>>,
        graph: EdgeGraph,
        entry_point: usize,
        exit_point: usize,
    ) -> (res: Option<Self>)
        ensures
            res is Some <==> graph_successors(graph).len() == blocks@.len() && entry_point
                < blocks@.len() && exit_point < blocks@.len(),
            match res {
                Some(cfg) => {
                    &&& cfg.wf()
                    &&& cfg.blocks == blocks
                    &&& cfg.graph == graph
                    &&& cfg.entry_point == entry_point
                    &&& cfg.exit_point == exit_point
                },
                None => true,
            },
    {
        if graph_node_count(&graph) != blocks.len() || entry_point >= blocks.len() || exit_point
            >= blocks.len() {
            return None;
        }
        Some(Cfg { blocks, graph, entry_point, exit_point })
    }

    /// Adds an edge from block `from` to block `to`, which becomes the first
    /// successor of `from`. Returns `false`, and changes nothing, if one of
    /// them is no block.
    pub fn add_edge(&mut self, from: usize, to: usize) -> (added: bool)
        requires
            old(self).wf(),
        ensures
            final(self).wf(),
            added == (from < old(self).blocks@.len() && to < old(self).blocks@.len()),
            final(self).blocks == old(self).blocks,
            final(self).entry_point == old(self).entry_point,
            final(self).exit_point == old(self).exit_point,
            added ==> final(self).successors() == old(self).successors().update(
                from as int,
                seq![to as int] + old(self).successors()[from as int],
            ),
            !added ==> final(self).successors() == old(self).successors(),
    {
        if from < self.blocks.len() && to < self.blocks.len() {
            graph_add_edge(&mut self.graph, from, to);
            true
        } else {
            false
        }
    }

    /// The blocks that the edges of block `v` lead to, in the graph's order;
    /// none if `v` is no block.
    pub fn successors_of(&self, v: usize) -> (targets: Vec<usize>)
        requires
            self.wf(),
        ensures
            v < self.blocks@.len() ==> targets@.map_values(|w: usize| w as int)
                == self.successors()[v as int],
            v >= self.blocks@.len() ==> targets@.len() == 0,
            forall|k: int| 0 <= k < targets@.len() ==> targets@[k] < self.blocks@.len(),
    {
        graph_neighbors(&self.graph, v)
    }
}

} // verus!
