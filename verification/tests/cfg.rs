use jvm_decompiler::cfg::{BasicBlock, Cfg};
use jvm_decompiler::expr::{Expr, Statement};
use petgraph::graph::Graph;
use petgraph::Directed;

fn blocks(n: usize) -> Vec<BasicBlock<Statement, Expr>> {
    (0..n).map(|_| BasicBlock { stmts: vec![], terminator: None }).collect()
}

#[test]
fn new_graph_has_no_edges() {
    let cfg = Cfg::new(blocks(3), 0, 2).unwrap();
    assert_eq!(cfg.blocks.len(), 3);
    assert_eq!(cfg.graph.node_count(), 3);
    assert_eq!(cfg.graph.edge_count(), 0);
    assert_eq!(cfg.entry_point, 0);
    assert_eq!(cfg.exit_point, 2);
    for v in 0..3 {
        assert_eq!(cfg.successors_of(v), Vec::<usize>::new());
    }
}

#[test]
fn entry_and_exit_must_be_blocks() {
    assert!(Cfg::new(blocks(2), 2, 0).is_none());
    assert!(Cfg::new(blocks(2), 0, 2).is_none());
    assert!(Cfg::new(blocks(0), 0, 0).is_none());
    assert!(Cfg::new(blocks(1), 0, 0).is_some());
}

#[test]
fn newest_edge_comes_first() {
    let mut cfg = Cfg::new(blocks(4), 0, 3).unwrap();
    assert!(cfg.add_edge(0, 1));
    assert!(cfg.add_edge(0, 2));
    assert!(cfg.add_edge(0, 3));
    assert!(cfg.add_edge(2, 0));
    assert_eq!(cfg.successors_of(0), vec![3, 2, 1]);
    assert_eq!(cfg.successors_of(1), Vec::<usize>::new());
    assert_eq!(cfg.successors_of(2), vec![0]);
}

#[test]
fn parallel_edges_and_loops_are_kept() {
    let mut cfg = Cfg::new(blocks(2), 0, 1).unwrap();
    assert!(cfg.add_edge(1, 1));
    assert!(cfg.add_edge(1, 0));
    assert!(cfg.add_edge(1, 0));
    assert_eq!(cfg.successors_of(1), vec![0, 0, 1]);
}

#[test]
fn edge_to_a_missing_block_is_refused() {
    let mut cfg = Cfg::new(blocks(2), 0, 1).unwrap();
    assert!(!cfg.add_edge(0, 2));
    assert!(!cfg.add_edge(2, 0));
    assert_eq!(cfg.graph.edge_count(), 0);
    assert_eq!(cfg.successors_of(0), Vec::<usize>::new());
}

#[test]
fn successors_of_a_missing_block() {
    let cfg = Cfg::new(blocks(2), 0, 1).unwrap();
    assert_eq!(cfg.successors_of(7), Vec::<usize>::new());
}

#[test]
fn graph_must_have_one_node_per_block() {
    let mut graph: Graph<(), (), Directed, usize> = Graph::default();
    let a = graph.add_node(());
    let b = graph.add_node(());
    graph.add_edge(a, b, ());
    graph.add_edge(b, a, ());
    graph.add_edge(a, a, ());
    assert!(Cfg::from_graph(blocks(3), graph.clone(), 0, 1).is_none());
    assert!(Cfg::from_graph(blocks(1), graph.clone(), 0, 0).is_none());
    assert!(Cfg::from_graph(blocks(2), graph.clone(), 2, 1).is_none());
    assert!(Cfg::from_graph(blocks(2), graph.clone(), 1, 2).is_none());
    let cfg = Cfg::from_graph(blocks(2), graph, 1, 0).unwrap();
    assert_eq!(cfg.entry_point, 1);
    assert_eq!(cfg.exit_point, 0);
    assert_eq!(cfg.successors_of(0), vec![0, 1]);
    assert_eq!(cfg.successors_of(1), vec![0]);
}
