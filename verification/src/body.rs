//! Rewriting of whole method bodies: every block of a control-flow graph is
//! rewritten at the stack depth with which control reaches it.

use vstd::prelude::*;
use vstd::set_lib::{lemma_int_range, lemma_len_subset, set_int_range};
use crate::cfg::{
    graph_neighbors, graph_successors, walk_discovered, walk_limit, walk_new, walk_next,
    walk_pending, BasicBlock, BasicBlockView, Cfg, CfgView, Walk,
};
use crate::error::TransformError;
use crate::expr::{assign_view, mk_assign, Expr, ExprView, Statement, StatementView};
use crate::instructions::{Instruction, JumpCondition};
use crate::names::{local, local_name};
use crate::stack_to_var::{
    condition_spec, execute_spec, lemma_condition_keeps_depth, lemma_execute_keeps_depth,
    local_target, local_variable, Effect, StackLayout,
};
use crate::types::{reversed, views, Modifier};
use crate::unit::{
    CompilationUnit, Declaration, DeclarationView, Metadata, MetadataView, Method, MethodView,
};

verus! {

/// The effect of a sequence of instructions run in order from `depth`: the
/// statements of all of them, and the depth the last one leaves. The first
/// instruction that cannot be rewritten gives the error.
pub open spec fn sequence_spec(depth: int, instructions: Seq<Instruction>, md: MetadataView)
    -> Result<Effect, TransformError>
    decreases instructions.len(),
{
    if instructions.len() == 0 {
        Ok(Effect { statements: Seq::empty(), depth })
    } else {
        match sequence_spec(depth, instructions.drop_last(), md) {
            Err(e) => Err(e),
            Ok(before) => match execute_spec(before.depth, instructions.last(), md) {
                Err(e) => Err(e),
                Ok(step) => Ok(
                    Effect { statements: before.statements + step.statements, depth: step.depth },
                ),
            },
        }
    }
}

/// A rewritten block and the depth with which control leaves it.
pub struct BlockEffect {
    pub block: BasicBlockView<StatementView, ExprView>,
    pub exit: int,
}

/// The rewriting of a block that control enters with `depth`: its
/// instructions in order, then its branch condition, which consumes its
/// operands.
pub open spec fn block_spec(
    depth: int,
    block: BasicBlock<Instruction, JumpCondition>,
    md: MetadataView,
) -> Result<BlockEffect, TransformError> {
    match sequence_spec(depth, block.stmts@, md) {
        Err(e) => Err(e),
        Ok(body) => match block.terminator {
            None => Ok(
                BlockEffect {
                    block: BasicBlockView { stmts: body.statements, terminator: None },
                    exit: body.depth,
                },
            ),
            Some(condition) => match condition_spec(body.depth, condition) {
                Err(e) => Err(e),
                Ok((expr, left)) => Ok(
                    BlockEffect {
                        block: BasicBlockView { stmts: body.statements, terminator: Some(expr) },
                        exit: left,
                    },
                ),
            },
        },
    }
}

/// No jump stands among the instructions.
pub open spec fn jump_free(instructions: Seq<Instruction>) -> bool {
    forall|i: int| 0 <= i < instructions.len() ==> !(#[trigger] instructions[i] is Jump)
}

/// An error in a prefix of a sequence is the error of the sequence.
proof fn lemma_prefix_error(depth: int, instructions: Seq<Instruction>, i: int, md: MetadataView)
    requires
        0 <= i <= instructions.len(),
        sequence_spec(depth, instructions.take(i), md) is Err,
    ensures
        sequence_spec(depth, instructions, md) == sequence_spec(depth, instructions.take(i), md),
    decreases instructions.len() - i,
{
    if i == instructions.len() {
        assert(instructions.take(i) =~= instructions);
    } else {
        assert(instructions.take(i + 1).drop_last() =~= instructions.take(i));
        lemma_prefix_error(depth, instructions, i + 1, md);
    }
}

/// No sequence of instructions fails with a depth mismatch: that error
/// belongs to the edges between blocks.
proof fn lemma_sequence_error(depth: int, instructions: Seq<Instruction>, md: MetadataView)
    ensures
        sequence_spec(depth, instructions, md) matches Err(e) ==> !(e is DepthMismatch),
    decreases instructions.len(),
{
    if instructions.len() > 0 {
        lemma_sequence_error(depth, instructions.drop_last(), md);
    }
}

/// No block fails with a depth mismatch.
proof fn lemma_block_error(
    depth: int,
    block: BasicBlock<Instruction, JumpCondition>,
    md: MetadataView,
)
    ensures
        block_spec(depth, block, md) matches Err(e) ==> !(e is DepthMismatch),
{
    lemma_sequence_error(depth, block.stmts@, md);
}

proof fn lemma_prefix_depth(depth: int, instructions: Seq<Instruction>, i: int, md: MetadataView)
    requires
        depth >= 0,
        0 <= i <= instructions.len(),
        sequence_spec(depth, instructions.take(i), md) is Ok,
    ensures
        sequence_spec(depth, instructions.take(i), md)->Ok_0.depth >= 0,
    decreases i,
{
    if i > 0 {
        let prefix = instructions.take(i);
        assert(prefix.drop_last() =~= instructions.take(i - 1));
        lemma_prefix_depth(depth, instructions, i - 1, md);
        let before = sequence_spec(depth, instructions.take(i - 1), md)->Ok_0;
        lemma_execute_keeps_depth(before.depth, prefix.last(), md);
    } else {
        assert(instructions.take(0).len() == 0);
    }
}

/// The depth is never negative: if a sequence of instructions that starts
/// at a depth that is not negative can be rewritten, then so can each of
/// its prefixes, and the depth after each instruction is not negative.
pub proof fn lemma_depth_never_negative(
    depth: int,
    instructions: Seq<Instruction>,
    i: int,
    md: MetadataView,
)
    requires
        depth >= 0,
        0 <= i <= instructions.len(),
        sequence_spec(depth, instructions, md) is Ok,
    ensures
        sequence_spec(depth, instructions.take(i), md) is Ok,
        sequence_spec(depth, instructions.take(i), md)->Ok_0.depth >= 0,
{
    if sequence_spec(depth, instructions.take(i), md) is Err {
        lemma_prefix_error(depth, instructions, i, md);
    }
    lemma_prefix_depth(depth, instructions, i, md);
}

/// A block that control enters with a depth that is not negative is left
/// with a depth that is not negative.
pub proof fn lemma_block_keeps_depth(
    depth: int,
    block: BasicBlock<Instruction, JumpCondition>,
    md: MetadataView,
)
    requires
        depth >= 0,
    ensures
        block_spec(depth, block, md) matches Ok(effect) ==> effect.exit >= 0,
{
    if sequence_spec(depth, block.stmts@, md) is Ok {
        lemma_depth_never_negative(depth, block.stmts@, block.stmts@.len() as int, md);
        assert(block.stmts@.take(block.stmts@.len() as int) =~= block.stmts@);
        let body = sequence_spec(depth, block.stmts@, md)->Ok_0;
        match block.terminator {
            Some(condition) => {
                lemma_condition_keeps_depth(body.depth, condition);
            },
            None => {},
        }
    }
}

/// Rewrites one block that control enters with depth `entry`; returns the
/// rewritten block and the depth with which control leaves it.
pub fn rewrite_block(
    block: &BasicBlock<Instruction, JumpCondition>,
    entry: StackLayout,
    metadata: &Metadata,
) -> (res: Result<(BasicBlock<Statement, Expr>, StackLayout), TransformError>)
    requires
        entry.wf(),
        jump_free(block.stmts@),
    ensures
        match (block_spec(entry.0 as int, *block, metadata@), res) {
            (Ok(effect), Ok(done)) => done.0@ == effect.block && done.1.0 == effect.exit
                && done.1.wf(),
            (Err(e), Err(r)) => r == e,
            _ => false,
        },
{
    let mut layout = entry;
    let mut stmts: Vec<Statement> = Vec::new();
    let mut i: usize = 0;
    assert(block.stmts@.take(0) =~= Seq::empty());
    assert(views(stmts@) =~= Seq::empty());
    while i < block.stmts.len()
        invariant
            i <= block.stmts@.len(),
            layout.wf(),
            jump_free(block.stmts@),
            sequence_spec(entry.0 as int, block.stmts@.take(i as int), metadata@) == Ok::<
                Effect,
                TransformError,
            >(Effect { statements: views(stmts@), depth: layout.0 as int }),
        decreases block.stmts@.len() - i,
    {
        let ghost before = views(stmts@);
        assert(block.stmts@.take(i + 1).drop_last() =~= block.stmts@.take(i as int));
        assert(block.stmts@.take(i + 1).last() == block.stmts@[i as int]);
        match layout.execute(&block.stmts[i], metadata) {
            Err(e) => {
                proof {
                    lemma_prefix_error(entry.0 as int, block.stmts@, i + 1, metadata@);
                }
                return Err(e);
            },
            Ok(mut emitted) => {
                let ghost added = views(emitted@);
                stmts.append(&mut emitted);
                assert(views(stmts@) =~= before + added);
            },
        }
        i = i + 1;
    }
    assert(block.stmts@.take(i as int) =~= block.stmts@);
    match block.terminator {
        None => {
            let done = BasicBlock { stmts, terminator: None };
            Ok((done, layout))
        },
        Some(condition) => match layout.cond_to_expr(&condition) {
            Err(e) => Err(e),
            Ok(expr) => {
                let done = BasicBlock { stmts, terminator: Some(expr) };
                Ok((done, layout))
            },
        },
    }
}

/// Whether the edge list of `path[i]` holds `path[i + 1]`.
pub open spec fn edge_at(successors: Seq<Seq<int>>, path: Seq<int>, i: int) -> bool {
    successors[path[i]].contains(path[i + 1])
}

/// A walk along edges: a non-empty sequence of nodes, each one a successor
/// of the one before it.
pub open spec fn is_path(successors: Seq<Seq<int>>, path: Seq<int>) -> bool {
    &&& path.len() > 0
    &&& forall|i: int| 0 <= i < path.len() ==> 0 <= #[trigger] path[i] < successors.len()
    &&& forall|i: int| 0 <= i < path.len() - 1 ==> #[trigger] edge_at(successors, path, i)
}

/// Whether some walk along edges leads from `from` to `to`.
pub open spec fn reachable(successors: Seq<Seq<int>>, from: int, to: int) -> bool {
    exists|path: Seq<int>| #[trigger]
        is_path(successors, path) && path[0] == from && path.last() == to
}

/// Whether block `v` can be rewritten at the depth that `depths` gives it,
/// and leaves the depth that `depths` gives to each of its successors.
pub open spec fn flows(
    blocks: Seq<BasicBlock<Instruction, JumpCondition>>,
    successors: Seq<Seq<int>>,
    md: MetadataView,
    depths: Seq<int>,
    v: int,
) -> bool {
    match block_spec(depths[v], blocks[v], md) {
        Err(_) => false,
        Ok(effect) => forall|k: int|
            0 <= k < successors[v].len() ==> depths[#[trigger] successors[v][k]] == effect.exit,
    }
}

/// An assignment of entry depths to blocks under which the body can be
/// rewritten: the entry block starts at depth 0, and every block that can be
/// reached from it can be rewritten and agrees with all its successors.
pub open spec fn consistent(
    blocks: Seq<BasicBlock<Instruction, JumpCondition>>,
    successors: Seq<Seq<int>>,
    entry_point: int,
    md: MetadataView,
    depths: Seq<int>,
) -> bool {
    &&& depths.len() == blocks.len()
    &&& depths[entry_point] == 0
    &&& forall|v: int|
        0 <= v < blocks.len() && #[trigger] reachable(successors, entry_point, v) ==> flows(
            blocks,
            successors,
            md,
            depths,
            v,
        )
}

/// The rewritten blocks under an assignment of entry depths: a block that
/// can be reached from the entry is rewritten at its depth, any other is
/// left empty.
pub open spec fn rewritten(
    blocks: Seq<BasicBlock<Instruction, JumpCondition>>,
    successors: Seq<Seq<int>>,
    entry_point: int,
    md: MetadataView,
    depths: Seq<int>,
) -> Seq<BasicBlockView<StatementView, ExprView>> {
    Seq::new(
        blocks.len(),
        |v: int|
            if reachable(successors, entry_point, v) {
                match block_spec(depths[v], blocks[v], md) {
                    Ok(effect) => effect.block,
                    Err(_) => BasicBlockView::empty(),
                }
            } else {
                BasicBlockView::empty()
            },
    )
}

/// Whether some block that can be reached from the entry, entered with some
/// depth that is not negative, fails with `error`.
pub open spec fn fails_in_block(
    blocks: Seq<BasicBlock<Instruction, JumpCondition>>,
    successors: Seq<Seq<int>>,
    entry_point: int,
    md: MetadataView,
    error: TransformError,
) -> bool {
    exists|v: int, d: int|
        0 <= v < blocks.len() && reachable(successors, entry_point, v) && d >= 0
            && #[trigger] block_spec(d, blocks[v], md) == Err::<BlockEffect, TransformError>(error)
}

/// Whether control can reach `block` with `depth`: it is the entry block
/// and the depth is 0, or some block that can be reached from the entry
/// has an edge to it and, entered with some depth that is not negative, is
/// left with `depth`.
pub open spec fn arrives_with(
    blocks: Seq<BasicBlock<Instruction, JumpCondition>>,
    successors: Seq<Seq<int>>,
    entry_point: int,
    md: MetadataView,
    block: int,
    depth: int,
) -> bool {
    ||| block == entry_point && depth == 0
    ||| exists|u: int, d: int|
        0 <= u < blocks.len() && reachable(successors, entry_point, u) && d >= 0
            && successors[u].contains(block) && #[trigger] block_spec(d, blocks[u], md) == Ok::<
            BlockEffect,
            TransformError,
        >(block_spec(d, blocks[u], md)->Ok_0) && block_spec(d, blocks[u], md)->Ok_0.exit == depth
}

/// Whether the body can be rewritten: some assignment of entry depths is
/// consistent.
pub open spec fn rewritable(cfg: Cfg<Instruction, JumpCondition>, md: MetadataView) -> bool {
    exists|depths: Seq<int>| #[trigger]
        consistent(cfg.blocks@, cfg.successors(), cfg.entry_point as int, md, depths)
}

/// Whether `out` is the rewriting of `cfg`: the same edges, entry and exit,
/// and the blocks rewritten under a consistent assignment of entry depths.
pub open spec fn is_rewriting(
    cfg: Cfg<Instruction, JumpCondition>,
    md: MetadataView,
    out: CfgView<StatementView, ExprView>,
) -> bool {
    &&& out.successors == cfg.successors()
    &&& out.entry_point == cfg.entry_point
    &&& out.exit_point == cfg.exit_point
    &&& exists|depths: Seq<int>| #[trigger]
        consistent(cfg.blocks@, cfg.successors(), cfg.entry_point as int, md, depths)
            && out.blocks == rewritten(
            cfg.blocks@,
            cfg.successors(),
            cfg.entry_point as int,
            md,
            depths,
        )
}

/// Two consistent assignments give every block that a path from the entry
/// leads to the same depth.
pub proof fn lemma_consistent_along_path(
    blocks: Seq<BasicBlock<Instruction, JumpCondition>>,
    successors: Seq<Seq<int>>,
    entry_point: int,
    md: MetadataView,
    first: Seq<int>,
    second: Seq<int>,
    path: Seq<int>,
)
    requires
        successors.len() == blocks.len(),
        consistent(blocks, successors, entry_point, md, first),
        consistent(blocks, successors, entry_point, md, second),
        is_path(successors, path),
        path[0] == entry_point,
    ensures
        first[path.last()] == second[path.last()],
    decreases path.len(),
{
    if path.len() > 1 {
        let shorter = path.drop_last();
        assert forall|i: int| 0 <= i < shorter.len() - 1 implies #[trigger] edge_at(
            successors,
            shorter,
            i,
        ) by {
            assert(edge_at(successors, path, i));
        }
        assert(is_path(successors, shorter));
        lemma_consistent_along_path(blocks, successors, entry_point, md, first, second, shorter);
        let last = path.len() - 2;
        let from = path[last];
        assert(from == shorter.last());
        assert(edge_at(successors, path, last));
        let k = choose|k: int| 0 <= k < successors[from].len() && successors[from][k] == path[last + 1];
        assert(reachable(successors, entry_point, from));
        assert(flows(blocks, successors, md, first, from));
        assert(flows(blocks, successors, md, second, from));
        assert(first[successors[from][k]] == second[successors[from][k]]);
    }
}

/// The rewriting does not depend on which consistent assignment is taken:
/// any two give the same blocks.
pub proof fn lemma_rewriting_unique(
    blocks: Seq<BasicBlock<Instruction, JumpCondition>>,
    successors: Seq<Seq<int>>,
    entry_point: int,
    md: MetadataView,
    first: Seq<int>,
    second: Seq<int>,
)
    requires
        successors.len() == blocks.len(),
        consistent(blocks, successors, entry_point, md, first),
        consistent(blocks, successors, entry_point, md, second),
    ensures
        rewritten(blocks, successors, entry_point, md, first) == rewritten(
            blocks,
            successors,
            entry_point,
            md,
            second,
        ),
{
    assert forall|v: int| 0 <= v < blocks.len() implies rewritten(
        blocks,
        successors,
        entry_point,
        md,
        first,
    )[v] == rewritten(blocks, successors, entry_point, md, second)[v] by {
        if reachable(successors, entry_point, v) {
            let path = choose|path: Seq<int>| #[trigger]
                is_path(successors, path) && path[0] == entry_point && path.last() == v;
            lemma_consistent_along_path(blocks, successors, entry_point, md, first, second, path);
        }
    }
    assert(rewritten(blocks, successors, entry_point, md, first) =~= rewritten(
        blocks,
        successors,
        entry_point,
        md,
        second,
    ));
}

/// At a merge point all predecessors agree: under a consistent assignment,
/// two reachable blocks that have an edge to the same block are left with
/// the same depth. So a body in which they are left with different depths
/// cannot be rewritten.
pub proof fn lemma_merge_point(
    blocks: Seq<BasicBlock<Instruction, JumpCondition>>,
    successors: Seq<Seq<int>>,
    entry_point: int,
    md: MetadataView,
    depths: Seq<int>,
    first: int,
    second: int,
    target: int,
)
    requires
        consistent(blocks, successors, entry_point, md, depths),
        0 <= first < blocks.len(),
        0 <= second < blocks.len(),
        reachable(successors, entry_point, first),
        reachable(successors, entry_point, second),
        successors[first].contains(target),
        successors[second].contains(target),
    ensures
        block_spec(depths[first], blocks[first], md) is Ok,
        block_spec(depths[second], blocks[second], md) is Ok,
        block_spec(depths[first], blocks[first], md)->Ok_0.exit == block_spec(
            depths[second],
            blocks[second],
            md,
        )->Ok_0.exit,
{
    assert(flows(blocks, successors, md, depths, first));
    assert(flows(blocks, successors, md, depths, second));
    let i = choose|i: int| 0 <= i < successors[first].len() && successors[first][i] == target;
    let j = choose|j: int| 0 <= j < successors[second].len() && successors[second][j] == target;
    assert(depths[successors[first][i]] == depths[successors[second][j]]);
}

spec fn labelled(entry: Seq<Option<StackLayout>>, w: int) -> bool {
    0 <= w < entry.len() && entry[w] is Some
}

spec fn label(entry: Seq<Option<StackLayout>>, w: int) -> int {
    match entry[w] {
        Some(layout) => layout.0 as int,
        None => 0,
    }
}

spec fn inv_paths(
    successors: Seq<Seq<int>>,
    entry_point: int,
    entry: Seq<Option<StackLayout>>,
    paths: Seq<Seq<int>>,
) -> bool {
    &&& paths.len() == entry.len()
    &&& forall|w: int| #[trigger]
        labelled(entry, w) ==> is_path(successors, paths[w]) && paths[w][0] == entry_point
            && paths[w].last() == w && label(entry, w) >= 0
}

spec fn agrees(entry: Seq<Option<StackLayout>>, depths: Seq<int>) -> bool {
    forall|w: int| #[trigger] labelled(entry, w) ==> depths[w] == label(entry, w)
}

spec fn inv_forced(
    blocks: Seq<BasicBlock<Instruction, JumpCondition>>,
    successors: Seq<Seq<int>>,
    entry_point: int,
    md: MetadataView,
    entry: Seq<Option<StackLayout>>,
) -> bool {
    forall|depths: Seq<int>| #[trigger]
        consistent(blocks, successors, entry_point, md, depths) ==> agrees(entry, depths)
}

spec fn processed(
    blocks: Seq<BasicBlock<Instruction, JumpCondition>>,
    successors: Seq<Seq<int>>,
    md: MetadataView,
    entry: Seq<Option<StackLayout>>,
    out: Seq<BasicBlock<Statement, Expr>>,
    v: int,
) -> bool {
    &&& labelled(entry, v)
    &&& match block_spec(label(entry, v), blocks[v], md) {
        Err(_) => false,
        Ok(effect) => {
            &&& out[v]@ == effect.block
            &&& forall|k: int|
                0 <= k < successors[v].len() ==> labelled(entry, #[trigger] successors[v][k])
                    && label(entry, successors[v][k]) == effect.exit
        },
    }
}

spec fn inv_arrived(
    blocks: Seq<BasicBlock<Instruction, JumpCondition>>,
    successors: Seq<Seq<int>>,
    entry_point: int,
    md: MetadataView,
    entry: Seq<Option<StackLayout>>,
) -> bool {
    forall|w: int| #[trigger]
        labelled(entry, w) ==> arrives_with(blocks, successors, entry_point, md, w, label(entry, w))
}

spec fn extends(before: Seq<Option<StackLayout>>, after: Seq<Option<StackLayout>>) -> bool {
    &&& before.len() == after.len()
    &&& forall|w: int| #[trigger] labelled(before, w) ==> after[w] == before[w]
}

proof fn lemma_bounded_set(s: Set<int>, n: int)
    requires
        0 <= n,
        forall|x: int| s.contains(x) ==> 0 <= x < n,
    ensures
        s.finite(),
        s.len() <= n,
{
    lemma_int_range(0, n);
    assert(s.subset_of(set_int_range(0, n)));
    lemma_len_subset(s, set_int_range(0, n));
}

/// Under a consistent assignment, a successor of a labelled block has the
/// depth with which the block is left.
proof fn lemma_forced_step(
    blocks: Seq<BasicBlock<Instruction, JumpCondition>>,
    successors: Seq<Seq<int>>,
    entry_point: int,
    md: MetadataView,
    entry: Seq<Option<StackLayout>>,
    paths: Seq<Seq<int>>,
    depths: Seq<int>,
    v: int,
    k: int,
)
    requires
        entry.len() == blocks.len(),
        inv_paths(successors, entry_point, entry, paths),
        inv_forced(blocks, successors, entry_point, md, entry),
        labelled(entry, v),
        0 <= k < successors[v].len(),
        consistent(blocks, successors, entry_point, md, depths),
    ensures
        depths[v] == label(entry, v),
        block_spec(label(entry, v), blocks[v], md) is Ok,
        depths[successors[v][k]] == block_spec(label(entry, v), blocks[v], md)->Ok_0.exit,
{
    assert(agrees(entry, depths));
    assert(is_path(successors, paths[v]));
    assert(reachable(successors, entry_point, v));
    assert(flows(blocks, successors, md, depths, v));
}

/// Under a consistent assignment every labelled block can be rewritten at
/// its label.
proof fn lemma_forced_block(
    blocks: Seq<BasicBlock<Instruction, JumpCondition>>,
    successors: Seq<Seq<int>>,
    entry_point: int,
    md: MetadataView,
    entry: Seq<Option<StackLayout>>,
    paths: Seq<Seq<int>>,
    depths: Seq<int>,
    v: int,
)
    requires
        entry.len() == blocks.len(),
        inv_paths(successors, entry_point, entry, paths),
        inv_forced(blocks, successors, entry_point, md, entry),
        labelled(entry, v),
        consistent(blocks, successors, entry_point, md, depths),
    ensures
        block_spec(label(entry, v), blocks[v], md) is Ok,
{
    assert(agrees(entry, depths));
    assert(is_path(successors, paths[v]));
    assert(reachable(successors, entry_point, v));
    assert(flows(blocks, successors, md, depths, v));
}

/// A set of blocks that holds the start of a path and with each block its
/// successors holds the end of the path.
proof fn lemma_path_labelled(
    successors: Seq<Seq<int>>,
    entry: Seq<Option<StackLayout>>,
    path: Seq<int>,
)
    requires
        is_path(successors, path),
        labelled(entry, path[0]),
        forall|v: int, k: int|
            labelled(entry, v) && 0 <= k < successors[v].len() ==> labelled(
                entry,
                #[trigger] successors[v][k],
            ),
    ensures
        labelled(entry, path.last()),
    decreases path.len(),
{
    if path.len() > 1 {
        let shorter = path.drop_last();
        assert forall|i: int| 0 <= i < shorter.len() - 1 implies #[trigger] edge_at(
            successors,
            shorter,
            i,
        ) by {
            assert(edge_at(successors, path, i));
        }
        assert(is_path(successors, shorter));
        lemma_path_labelled(successors, entry, shorter);
        let last = path.len() - 2;
        assert(edge_at(successors, path, last));
        let from = path[last];
        assert(from == shorter.last());
        let k = choose|k: int| 0 <= k < successors[from].len() && successors[from][k] == path[last + 1];
        assert(labelled(entry, successors[from][k]));
    }
}

spec fn walk_limit_ok(walk: Walk, n: nat) -> bool {
    &&& walk_limit(walk) == n
    &&& forall|x: int| walk_pending(walk).contains(x) ==> 0 <= x < n
}

spec fn inv_processed(
    blocks: Seq<BasicBlock<Instruction, JumpCondition>>,
    successors: Seq<Seq<int>>,
    md: MetadataView,
    entry: Seq<Option<StackLayout>>,
    out: Seq<BasicBlock<Statement, Expr>>,
    discovered: Set<int>,
) -> bool {
    forall|v: int| #[trigger]
        discovered.contains(v) ==> 0 <= v < blocks.len() && processed(
            blocks,
            successors,
            md,
            entry,
            out,
            v,
        )
}

spec fn inv_tracked(entry: Seq<Option<StackLayout>>, discovered: Set<int>, pending: Set<int>)
    -> bool {
    forall|w: int| #[trigger]
        labelled(entry, w) ==> discovered.contains(w) || pending.contains(w)
}

spec fn inv_untouched(out: Seq<BasicBlock<Statement, Expr>>, discovered: Set<int>) -> bool {
    forall|v: int|
        0 <= v < out.len() && !discovered.contains(v) ==> (#[trigger] out[v])@
            == BasicBlockView::<StatementView, ExprView>::empty()
}

/// What was processed stays processed when labels are only added and the
/// block itself is not rewritten again.
proof fn lemma_processed_extends(
    blocks: Seq<BasicBlock<Instruction, JumpCondition>>,
    successors: Seq<Seq<int>>,
    md: MetadataView,
    before: Seq<Option<StackLayout>>,
    after: Seq<Option<StackLayout>>,
    out_before: Seq<BasicBlock<Statement, Expr>>,
    out_after: Seq<BasicBlock<Statement, Expr>>,
    v: int,
)
    requires
        processed(blocks, successors, md, before, out_before, v),
        extends(before, after),
        out_after[v] == out_before[v],
    ensures
        processed(blocks, successors, md, after, out_after, v),
{
    assert(labelled(before, v));
    assert(after[v] == before[v]);
    let effect = block_spec(label(before, v), blocks[v], md)->Ok_0;
    assert forall|k: int| 0 <= k < successors[v].len() implies labelled(
        after,
        #[trigger] successors[v][k],
    ) && label(after, successors[v][k]) == effect.exit by {
        assert(labelled(before, successors[v][k]));
    }
}

/// Once every labelled block is processed, the labels are a consistent
/// assignment, and the blocks written are the rewriting under it.
proof fn lemma_finished(
    blocks: Seq<BasicBlock<Instruction, JumpCondition>>,
    successors: Seq<Seq<int>>,
    entry_point: int,
    md: MetadataView,
    entry: Seq<Option<StackLayout>>,
    paths: Seq<Seq<int>>,
    out: Seq<BasicBlock<Statement, Expr>>,
    discovered: Set<int>,
) -> (depths: Seq<int>)
    requires
        entry.len() == blocks.len(),
        out.len() == blocks.len(),
        successors.len() == blocks.len(),
        0 <= entry_point < blocks.len(),
        entry[entry_point] == Some(StackLayout(0)),
        inv_paths(successors, entry_point, entry, paths),
        inv_processed(blocks, successors, md, entry, out, discovered),
        inv_tracked(entry, discovered, Set::<int>::empty()),
        inv_untouched(out, discovered),
    ensures
        consistent(blocks, successors, entry_point, md, depths),
        views(out) == rewritten(blocks, successors, entry_point, md, depths),
{
    let depths = Seq::new(blocks.len(), |w: int| label(entry, w));
    assert(labelled(entry, entry_point));
    assert forall|v: int, k: int|
        labelled(entry, v) && 0 <= k < successors[v].len() implies labelled(
        entry,
        #[trigger] successors[v][k],
    ) by {
        assert(discovered.contains(v));
        assert(processed(blocks, successors, md, entry, out, v));
    }
    assert forall|v: int|
        0 <= v < blocks.len() && #[trigger] reachable(successors, entry_point, v) implies flows(
        blocks,
        successors,
        md,
        depths,
        v,
    ) by {
        let path = choose|path: Seq<int>| #[trigger]
            is_path(successors, path) && path[0] == entry_point && path.last() == v;
        lemma_path_labelled(successors, entry, path);
        assert(labelled(entry, v));
        assert(discovered.contains(v));
        assert(processed(blocks, successors, md, entry, out, v));
        let effect = block_spec(label(entry, v), blocks[v], md)->Ok_0;
        assert forall|k: int| 0 <= k < successors[v].len() implies depths[#[trigger] successors[v][k]]
            == effect.exit by {
            assert(labelled(entry, successors[v][k]));
        }
    }
    assert forall|v: int| 0 <= v < blocks.len() implies #[trigger] views(out)[v] == rewritten(
        blocks,
        successors,
        entry_point,
        md,
        depths,
    )[v] by {
        if reachable(successors, entry_point, v) {
            let path = choose|path: Seq<int>| #[trigger]
                is_path(successors, path) && path[0] == entry_point && path.last() == v;
            lemma_path_labelled(successors, entry, path);
            assert(labelled(entry, v));
            assert(discovered.contains(v));
            assert(processed(blocks, successors, md, entry, out, v));
        } else {
            if discovered.contains(v) {
                assert(processed(blocks, successors, md, entry, out, v));
                assert(labelled(entry, v));
                assert(is_path(successors, paths[v]));
                assert(false);
            }
            assert(out[v]@ == BasicBlockView::<StatementView, ExprView>::empty());
        }
    }
    assert(views(out) =~= rewritten(blocks, successors, entry_point, md, depths));
    depths
}

/// Rewrites a method body. The blocks are visited depth first from the entry
/// block, which starts at depth 0; each block is rewritten at the depth with
/// which control reaches it, and hands the depth it leaves to its
/// successors. A block that cannot be reached from the entry is left empty.
///
/// The result is `Ok` exactly if an assignment of entry depths exists under
/// which every reachable block can be rewritten and agrees with its
/// successors; the blocks are then the rewriting under it. A block that two
/// paths reach with different depths is named in the error.
#[verifier::loop_isolation(false)]
pub fn transform(cfg: Cfg<Instruction, JumpCondition>, metadata: &Metadata) -> (res: Result<
    Cfg<Statement, Expr>,
    TransformError,
>)
    requires
        cfg.wf(),
        forall|b: int| 0 <= b < cfg.blocks@.len() ==> jump_free((#[trigger] cfg.blocks@[b]).stmts@),
    ensures
        match res {
            Ok(out) => out.wf() && out.graph == cfg.graph && is_rewriting(cfg, metadata@, out@),
            Err(e) => {
                &&& !rewritable(cfg, metadata@)
                &&& match e {
                    TransformError::DepthMismatch { block, expected, found } => {
                        &&& block < cfg.blocks@.len()
                        &&& expected != found
                        &&& arrives_with(
                            cfg.blocks@,
                            cfg.successors(),
                            cfg.entry_point as int,
                            metadata@,
                            block as int,
                            expected as int,
                        )
                        &&& arrives_with(
                            cfg.blocks@,
                            cfg.successors(),
                            cfg.entry_point as int,
                            metadata@,
                            block as int,
                            found as int,
                        )
                    },
                    _ => fails_in_block(
                        cfg.blocks@,
                        cfg.successors(),
                        cfg.entry_point as int,
                        metadata@,
                        e,
                    ),
                }
            },
        },
{
    let Cfg { blocks, graph, entry_point, exit_point } = cfg;
    let n = blocks.len();
    let ghost succ = graph_successors(graph);
    let ghost md = metadata@;
    let ghost e0 = entry_point as int;
    let mut entry: Vec<Option<StackLayout>> = Vec::new();
    let mut out: Vec<BasicBlock<Statement, Expr>> = Vec::new();
    let mut i: usize = 0;
    while i < n
        invariant
            i <= n,
            entry@.len() == i,
            out@.len() == i,
            forall|j: int| 0 <= j < i ==> entry@[j] is None,
            forall|j: int|
                0 <= j < i ==> (#[trigger] out@[j])@
                    == BasicBlockView::<StatementView, ExprView>::empty(),
        decreases n - i,
    {
        entry.push(None);
        out.push(BasicBlock::empty());
        i = i + 1;
    }
    entry.set(entry_point, Some(StackLayout::new()));
    let ghost mut paths: Seq<Seq<int>> = Seq::new(n as nat, |w: int| seq![w]);
    let mut walk = walk_new(&graph, entry_point);
    let mut done = false;
    proof {
        assert forall|depths: Seq<int>| #[trigger]
            consistent(blocks@, succ, e0, md, depths) implies agrees(entry@, depths) by {
            assert forall|w: int| #[trigger] labelled(entry@, w) implies depths[w] == label(
                entry@,
                w,
            ) by {
                assert(w == e0);
            }
        }
        assert forall|w: int| #[trigger] labelled(entry@, w) implies is_path(succ, paths[w])
            && paths[w][0] == e0 && paths[w].last() == w && label(entry@, w) >= 0 by {
            assert(w == e0);
        }
        assert forall|w: int| #[trigger] labelled(entry@, w) implies arrives_with(
            blocks@,
            succ,
            e0,
            md,
            w,
            label(entry@, w),
        ) by {
            assert(w == e0);
        }
    }
    while !done
        invariant
            entry@.len() == n,
            out@.len() == n,
            walk_limit_ok(walk, n as nat),
            walk_discovered(walk).finite(),
            entry@[e0] == Some(StackLayout(0)),
            inv_paths(succ, e0, entry@, paths),
            inv_forced(blocks@, succ, e0, md, entry@),
            inv_arrived(blocks@, succ, e0, md, entry@),
            inv_processed(blocks@, succ, md, entry@, out@, walk_discovered(walk)),
            inv_tracked(entry@, walk_discovered(walk), walk_pending(walk)),
            inv_untouched(out@, walk_discovered(walk)),
            forall|x: int| walk_pending(walk).contains(x) ==> #[trigger] labelled(entry@, x),
            done ==> walk_pending(walk) == Set::<int>::empty(),
        decreases
                n - walk_discovered(walk).len(),
                if done {
                    0int
                } else {
                    1int
                },
    {
        let ghost disc0 = walk_discovered(walk);
        let ghost pend0 = walk_pending(walk);
        proof {
            lemma_bounded_set(disc0, n as int);
        }
        match walk_next(&mut walk, &graph) {
            None => {
                done = true;
            },
            Some(v) => {
                let ghost disc1 = walk_discovered(walk);
                let ghost pend1 = walk_pending(walk);
                let ghost entry0 = entry@;
                let ghost out0 = out@;
                proof {
                    assert(labelled(entry@, v as int));
                    lemma_bounded_set(disc1, n as int);
                }
                let layout = entry[v].unwrap();
                let (block, exit) = match rewrite_block(&blocks[v], layout, metadata) {
                    Err(e) => {
                        proof {
                            lemma_block_error(layout.0 as int, blocks@[v as int], md);
                            assert(is_path(succ, paths[v as int]));
                            assert(reachable(succ, e0, v as int));
                            assert(block_spec(layout.0 as int, blocks@[v as int], md) == Err::<
                                BlockEffect,
                                TransformError,
                            >(e));
                            assert(fails_in_block(blocks@, succ, e0, md, e));
                            assert forall|depths: Seq<int>|
                                !#[trigger] consistent(blocks@, succ, e0, md, depths) by {
                                if consistent(blocks@, succ, e0, md, depths) {
                                    lemma_forced_block(
                                        blocks@,
                                        succ,
                                        e0,
                                        md,
                                        entry@,
                                        paths,
                                        depths,
                                        v as int,
                                    );
                                }
                            }
                        }
                        return Err(e);
                    },
                    Ok(done_block) => done_block,
                };
                let ghost effect = block_spec(layout.0 as int, blocks@[v as int], md)->Ok_0;
                out.set(v, block);
                let targets = graph_neighbors(&graph, v);
                assert(targets@.len() == succ[v as int].len());
                let mut k: usize = 0;
                while k < targets.len()
                    invariant
                        k <= targets@.len(),
                        entry@.len() == n,
                        extends(entry0, entry@),
                        inv_paths(succ, e0, entry@, paths),
                        inv_forced(blocks@, succ, e0, md, entry@),
                        inv_arrived(blocks@, succ, e0, md, entry@),
                        inv_tracked(entry@, disc1, pend1),
                        forall|j: int|
                            0 <= j < k ==> labelled(entry@, #[trigger] succ[v as int][j]) && label(
                                entry@,
                                succ[v as int][j],
                            ) == effect.exit,
                    decreases targets@.len() - k,
                {
                    let w = targets[k];
                    let ghost entry1 = entry@;
                    assert(targets@.map_values(|w: usize| w as int)[k as int] == w as int);
                    assert(succ[v as int][k as int] == w as int);
                    assert(labelled(entry@, v as int));
                    assert(entry@[v as int] == entry0[v as int]);
                    match entry[w] {
                        Some(known) => {
                            if known.0 != exit.0 {
                                proof {
                                    assert(labelled(entry@, w as int));
                                    assert(is_path(succ, paths[v as int]));
                                    assert(reachable(succ, e0, v as int));
                                    assert(succ[v as int].contains(w as int));
                                    assert(block_spec(layout.0 as int, blocks@[v as int], md) == Ok::<
                                        BlockEffect,
                                        TransformError,
                                    >(effect));
                                    assert(arrives_with(blocks@, succ, e0, md, w as int, exit.0 as int));
                                    assert(arrives_with(
                                        blocks@,
                                        succ,
                                        e0,
                                        md,
                                        w as int,
                                        label(entry@, w as int),
                                    ));
                                    assert forall|depths: Seq<int>|
                                        !#[trigger] consistent(blocks@, succ, e0, md, depths) by {
                                        if consistent(blocks@, succ, e0, md, depths) {
                                            lemma_forced_step(
                                                blocks@,
                                                succ,
                                                e0,
                                                md,
                                                entry@,
                                                paths,
                                                depths,
                                                v as int,
                                                k as int,
                                            );
                                            assert(agrees(entry@, depths));
                                        }
                                    }
                                }
                                return Err(
                                    TransformError::DepthMismatch {
                                        block: w,
                                        expected: exit.0,
                                        found: known.0,
                                    },
                                );
                            }
                        },
                        None => {
                            entry.set(w, Some(exit));
                            proof {
                                let path = paths[v as int].push(w as int);
                                assert(is_path(succ, paths[v as int]));
                                assert forall|i: int| 0 <= i < path.len() - 1 implies #[trigger] edge_at(
                                    succ,
                                    path,
                                    i,
                                ) by {
                                    if i < path.len() - 2 {
                                        assert(edge_at(succ, paths[v as int], i));
                                    }
                                }
                                assert(is_path(succ, path));
                                paths = paths.update(w as int, path);
                                assert forall|x: int| #[trigger] labelled(entry@, x) implies is_path(
                                    succ,
                                    paths[x],
                                ) && paths[x][0] == e0 && paths[x].last() == x && label(entry@, x)
                                    >= 0 by {
                                    if x != w {
                                        assert(labelled(entry1, x));
                                    }
                                }
                                assert forall|depths: Seq<int>| #[trigger]
                                    consistent(blocks@, succ, e0, md, depths) implies agrees(
                                    entry@,
                                    depths,
                                ) by {
                                    lemma_forced_step(
                                        blocks@,
                                        succ,
                                        e0,
                                        md,
                                        entry1,
                                        paths.update(w as int, paths[v as int]),
                                        depths,
                                        v as int,
                                        k as int,
                                    );
                                    assert(agrees(entry1, depths));
                                    assert forall|x: int| #[trigger] labelled(entry@, x) implies depths[x]
                                        == label(entry@, x) by {
                                        if x != w {
                                            assert(labelled(entry1, x));
                                        }
                                    }
                                }
                                assert forall|x: int| #[trigger] labelled(entry@, x) implies disc1.contains(
                                    x,
                                ) || pend1.contains(x) by {
                                    if x != w {
                                        assert(labelled(entry1, x));
                                    } else {
                                        assert(succ[v as int].contains(w as int));
                                    }
                                }
                                assert forall|x: int| #[trigger] labelled(entry0, x) implies entry@[x]
                                    == entry0[x] by {
                                    assert(entry1[x] == entry0[x]);
                                }
                                assert(reachable(succ, e0, v as int));
                                assert(succ[v as int].contains(w as int));
                                assert(block_spec(layout.0 as int, blocks@[v as int], md) == Ok::<
                                    BlockEffect,
                                    TransformError,
                                >(effect));
                                assert(arrives_with(blocks@, succ, e0, md, w as int, exit.0 as int));
                                assert forall|x: int| #[trigger] labelled(entry@, x) implies arrives_with(
                                    blocks@,
                                    succ,
                                    e0,
                                    md,
                                    x,
                                    label(entry@, x),
                                ) by {
                                    if x != w {
                                        assert(labelled(entry1, x));
                                    }
                                }
                            }
                        },
                    }
                    proof {
                        assert forall|j: int| 0 <= j < k + 1 implies labelled(
                            entry@,
                            #[trigger] succ[v as int][j],
                        ) && label(entry@, succ[v as int][j]) == effect.exit by {
                            if j < k {
                                assert(labelled(entry1, succ[v as int][j]));
                            }
                        }
                    }
                    k = k + 1;
                }
                proof {
                    assert(processed(blocks@, succ, md, entry@, out@, v as int));
                    assert forall|u: int| #[trigger] disc1.contains(u) implies 0 <= u < blocks@.len()
                        && processed(blocks@, succ, md, entry@, out@, u) by {
                        if u != v {
                            assert(disc0.contains(u));
                            lemma_processed_extends(blocks@, succ, md, entry0, entry@, out0, out@, u);
                        }
                    }
                    assert forall|x: int| walk_pending(walk).contains(x) implies #[trigger] labelled(
                        entry@,
                        x,
                    ) by {
                        if pend0.contains(x) {
                            assert(labelled(entry0, x));
                        } else {
                            let j = choose|j: int|
                                0 <= j < succ[v as int].len() && succ[v as int][j] == x;
                            assert(labelled(entry@, succ[v as int][j]));
                        }
                    }
                    assert(labelled(entry0, e0));
                }
            },
        }
    }
    proof {
        let depths = lemma_finished(
            blocks@,
            succ,
            e0,
            md,
            entry@,
            paths,
            out@,
            walk_discovered(walk),
        );
    }
    Ok(Cfg { blocks: out, graph, entry_point, exit_point })
}

/// The slot of the first parameter: slot 0 of an instance method holds the
/// instance.
pub open spec fn first_parameter_slot(modifiers: Seq<Modifier>) -> nat {
    if modifiers.contains(Modifier::Static) {
        0
    } else {
        1
    }
}

/// The statement that binds slot 0 to the current instance.
pub open spec fn this_binding() -> StatementView {
    assign_view(local_target(0), ExprView::This)
}

/// A body with the binding of the instance put before the statements of its
/// entry block.
pub open spec fn with_this_binding(cfg: CfgView<StatementView, ExprView>) -> CfgView<
    StatementView,
    ExprView,
> {
    CfgView {
        blocks: cfg.blocks.update(
            cfg.entry_point,
            BasicBlockView {
                stmts: seq![this_binding()] + cfg.blocks[cfg.entry_point].stmts,
                terminator: cfg.blocks[cfg.entry_point].terminator,
            },
        ),
        successors: cfg.successors,
        entry_point: cfg.entry_point,
        exit_point: cfg.exit_point,
    }
}

/// A method with its parameters bound: each parameter is named after its
/// local slot, counted from the first parameter slot in signature order,
/// and the body of an instance method starts by binding the instance.
pub open spec fn bound(method: MethodView<CfgView<StatementView, ExprView>>) -> MethodView<
    CfgView<StatementView, ExprView>,
> {
    MethodView {
        modifiers: method.modifiers,
        name: method.name,
        signature: method.signature,
        parameter_names: Seq::new(
            method.signature.parameters.len(),
            |i: int| local_name((first_parameter_slot(method.modifiers) + i) as nat),
        ),
        code: match method.code {
            Some(cfg) => if method.modifiers.contains(Modifier::Static) {
                Some(cfg)
            } else {
                Some(with_this_binding(cfg))
            },
            None => None,
        },
    }
}

fn has_modifier(modifiers: &Vec<Modifier>, wanted: Modifier) -> (found: bool)
    ensures
        found == modifiers@.contains(wanted),
{
    let mut i: usize = 0;
    while i < modifiers.len()
        invariant
            i <= modifiers@.len(),
            forall|j: int| 0 <= j < i ==> modifiers@[j] != wanted,
        decreases modifiers@.len() - i,
    {
        if modifiers[i] == wanted {
            return true;
        }
        i = i + 1;
    }
    false
}

/// Binds `this` and the parameters of a method to their local slots.
pub fn handle_parameters(method: &mut Method<Cfg<Statement, Expr>>)
    requires
        old(method).code matches Some(cfg) ==> cfg.wf(),
    ensures
        final(method)@ == bound(old(method)@),
        final(method).code matches Some(cfg) ==> cfg.wf(),
{
    let is_static = has_modifier(&method.modifiers, Modifier::Static);
    let first: usize = if is_static {
        0
    } else {
        1
    };
    let count = method.signature.parameters.len();
    let mut names: Vec<String> = Vec::new();
    let mut i: usize = 0;
    while i < count
        invariant
            i <= count,
            first <= 1,
            names@.len() == i,
            forall|j: int| 0 <= j < i ==> (#[trigger] names@[j])@ == local_name((first + j) as nat),
        decreases count - i,
    {
        names.push(local(first + i));
        i = i + 1;
    }
    method.parameter_names = names;
    assert(views(method.parameter_names@) =~= bound(old(method)@).parameter_names);
    if !is_static {
        let mut code: Option<Cfg<Statement, Expr>> = None;
        std::mem::swap(&mut method.code, &mut code);
        match code {
            Some(mut cfg) => {
                let ghost before = cfg@;
                let entry_point = cfg.entry_point;
                let mut block = BasicBlock::empty();
                cfg.blocks.set_and_swap(entry_point, &mut block);
                let ghost old_block = block@;
                block.stmts.insert(0, mk_assign(local_variable(0), Expr::This));
                assert(views(block.stmts@) =~= seq![this_binding()] + old_block.stmts);
                cfg.blocks.set(entry_point, block);
                assert(cfg@.blocks =~= with_this_binding(before).blocks);
                method.code = Some(cfg);
            },
            None => {},
        }
    }
}

/// What stack elimination needs of a declaration: it is no constructor,
/// and the body of a method is a well-formed graph without jumps inside its
/// blocks.
pub open spec fn ready(declaration: Declaration<Cfg<Instruction, JumpCondition>>) -> bool {
    match declaration {
        Declaration::Method(method) => match method.code {
            Some(cfg) => cfg.wf() && forall|b: int|
                0 <= b < cfg.blocks@.len() ==> jump_free((#[trigger] cfg.blocks@[b]).stmts@),
            None => true,
        },
        Declaration::Constructor(_) => false,
        Declaration::Field(_) => true,
    }
}

/// Whether `after` is what stack elimination makes of `before`: a field
/// stays as it is; a method keeps its modifiers, name and signature, its
/// body (if it has one) is rewritten, and its parameters are bound.
pub open spec fn declaration_done(
    before: Declaration<Cfg<Instruction, JumpCondition>>,
    md: MetadataView,
    after: DeclarationView<CfgView<StatementView, ExprView>>,
) -> bool {
    match before {
        Declaration::Field(field) => after == DeclarationView::<
            CfgView<StatementView, ExprView>,
        >::Field(field@),
        Declaration::Constructor(_) => false,
        Declaration::Method(method) => exists|code: Option<CfgView<StatementView, ExprView>>|
            {
                &&& #[trigger] code_done(method.code, md, code)
                &&& after == DeclarationView::Method(
                    bound(
                        MethodView {
                            modifiers: method.modifiers@,
                            name: method.name@,
                            signature: method.signature@,
                            parameter_names: views(method.parameter_names@),
                            code,
                        },
                    ),
                )
            },
    }
}

/// Whether `after` is the rewriting of the body `before`, if there is one.
pub open spec fn code_done(
    before: Option<Cfg<Instruction, JumpCondition>>,
    md: MetadataView,
    after: Option<CfgView<StatementView, ExprView>>,
) -> bool {
    match before {
        None => after is None,
        Some(cfg) => match after {
            Some(out) => is_rewriting(cfg, md, out),
            None => false,
        },
    }
}

/// Whether the body of a declaration cannot be rewritten.
pub open spec fn blocked(
    declaration: Declaration<Cfg<Instruction, JumpCondition>>,
    md: MetadataView,
) -> bool {
    match declaration {
        Declaration::Method(method) => match method.code {
            Some(cfg) => !rewritable(cfg, md),
            None => false,
        },
        _ => false,
    }
}

/// Eliminates the operand stack from every method of a unit: each body is
/// rewritten over variables, and the parameters of each method are bound.
/// The first body that cannot be rewritten gives the error.
pub fn stack_to_vars(unit: CompilationUnit<Cfg<Instruction, JumpCondition>>) -> (res: Result<
    CompilationUnit<Cfg<Statement, Expr>>,
    TransformError,
>)
    requires
        forall|i: int| 0 <= i < unit.declarations@.len() ==> ready(#[trigger] unit.declarations@[i]),
    ensures
        match res {
            Ok(out) => {
                &&& out.typ == unit.typ
                &&& out.modifiers == unit.modifiers
                &&& out.metadata == unit.metadata
                &&& out.declarations@.len() == unit.declarations@.len()
                &&& forall|i: int|
                    0 <= i < unit.declarations@.len() ==> declaration_done(
                        unit.declarations@[i],
                        unit.metadata@,
                        (#[trigger] out.declarations@[i])@,
                    )
            },
            Err(_) => exists|i: int|
                0 <= i < unit.declarations@.len() && blocked(
                    #[trigger] unit.declarations@[i],
                    unit.metadata@,
                ) && forall|j: int|
                    0 <= j < i ==> !blocked(#[trigger] unit.declarations@[j], unit.metadata@),
        },
{
    let CompilationUnit { typ, modifiers, declarations, metadata } = unit;
    let ghost given = declarations@;
    let ghost md = metadata@;
    let mut rest = reversed(declarations);
    let mut done: Vec<Declaration<Cfg<Statement, Expr>>> = Vec::new();
    while rest.len() > 0
        invariant
            rest@.len() + done@.len() == given.len(),
            md == metadata@,
            given == unit.declarations@,
            metadata == unit.metadata,
            forall|i: int| 0 <= i < given.len() ==> ready(#[trigger] given[i]),
            forall|i: int|
                0 <= i < rest@.len() ==> rest@[i] == given[given.len() - 1 - i],
            forall|i: int|
                0 <= i < done@.len() ==> declaration_done(given[i], md, (#[trigger] done@[i])@),
            forall|i: int| 0 <= i < done@.len() ==> !blocked(#[trigger] given[i], md),
        decreases rest@.len(),
    {
        let ghost index = done@.len() as int;
        let declaration = rest.pop().unwrap();
        assert(declaration == given[index]);
        assert(ready(given[index]));
        match declaration {
            Declaration::Method(method) => {
                let Method { modifiers, name, signature, parameter_names, code } = method;
                let code = match code {
                    None => None,
                    Some(cfg) => match transform(cfg, &metadata) {
                        Err(e) => {
                            assert(blocked(unit.declarations@[index], unit.metadata@));
                            return Err(e);
                        },
                        Ok(out) => Some(out),
                    },
                };
                let mut method = Method { modifiers, name, signature, parameter_names, code };
                let ghost unbound = method@;
                assert(code_done(given[index]->Method_0.code, md, unbound.code));
                handle_parameters(&mut method);
                done.push(Declaration::Method(method));
            },
            Declaration::Constructor(_) => {
                unreached::<()>();
            },
            Declaration::Field(field) => {
                done.push(Declaration::Field(field));
            },
        }
    }
    Ok(CompilationUnit { typ, modifiers, declarations: done, metadata })
}

} // verus!
