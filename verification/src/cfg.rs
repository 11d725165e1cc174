//! The control-flow graph model: straight-line statements chain through
//! unconditional edges; `if` fans out over conditional edges and
//! reconverges in a merge node; every loop form gets a condition node, a
//! guarded body edge, a back edge, and an unconditional exit edge.
//!
//! `spec_translate` defines the exact node and edge lists of the lowering,
//! `translate` builds them, and `theorem_translate_well_formed` proves the
//! shape invariant: one entry node without predecessors, every other node
//! entered by at least one edge, and every edge connecting nodes of the
//! graph.

use vstd::prelude::*;

use crate::ast::{Block, Expression, SpecBlock, SpecElseIf, SpecExpression, SpecStatement, Statement};

verus! {

/// One basic block: the statements that execute straight through it. A
/// control-flow junction is an empty node.
#[derive(Debug, PartialEq)]
pub struct CFGNode {
    pub statements: Vec<Statement>,
}

/// An edge of the graph: taken under a guard expression, or always.
#[derive(Debug, PartialEq)]
pub enum CFGEdge {
    Conditional(Expression),
    Unconditional(),
}

/// The mathematical form of an edge.
pub enum SpecCfgEdge {
    Conditional(SpecExpression),
    Unconditional,
}

impl View for CFGNode {
    type V = Seq<SpecStatement>;

    open spec fn view(&self) -> Seq<SpecStatement> {
        crate::ast::view_stmt_seq(self.statements@)
    }
}

impl View for CFGEdge {
    type V = SpecCfgEdge;

    open spec fn view(&self) -> SpecCfgEdge {
        match self {
            CFGEdge::Conditional(e) => SpecCfgEdge::Conditional(crate::ast::view_expr(*e)),
            CFGEdge::Unconditional() => SpecCfgEdge::Unconditional,
        }
    }
}

/// One directed edge: from node `from` to node `to`, with its kind.
pub struct SpecCfgEdgeRec {
    pub from: int,
    pub to: int,
    pub edge: SpecCfgEdge,
}

// ---------------------------------------------------------------------------
// The meaning of translation: a fold over the statement list.
// ---------------------------------------------------------------------------

/// The state of a translation: the nodes and edges built so far and the
/// index of the node new control flow continues from.
pub struct SpecCfgState {
    pub nodes: Seq<Seq<SpecStatement>>,
    pub edges: Seq<SpecCfgEdgeRec>,
    pub cursor: int,
}

/// The contents of a branch or loop-body node: the block's leading
/// statement, or nothing for an empty block.
pub open spec fn first_stmt(b: SpecBlock) -> Seq<SpecStatement> {
    if b.statements.len() == 0 {
        Seq::empty()
    } else {
        seq![b.statements[0]]
    }
}

/// The loop guard of a statement: the `while` condition, the `repeat`
/// post-condition, the inclusive bounds check of a numeric `for`, or the
/// exhaustion check of a generic `for` (its first control variable is not
/// nil).
pub open spec fn loop_guard(s: SpecStatement) -> SpecExpression {
    match s {
        SpecStatement::While(w) => w.condition,
        SpecStatement::Repeat(r) => r.condition,
        SpecStatement::NumericFor(f) => SpecExpression::LessThanOrEqual(
            Box::new(SpecExpression::Variable(crate::ast::SpecVariable::Identifier(f.identifier))),
            Box::new(f.end),
        ),
        SpecStatement::GenericFor(f) => {
            if f.identifier_list.len() == 0 {
                SpecExpression::Nil
            } else {
                SpecExpression::NotEqual(
                    Box::new(
                        SpecExpression::Variable(
                            crate::ast::SpecVariable::Identifier(f.identifier_list[0]),
                        ),
                    ),
                    Box::new(SpecExpression::Nil),
                )
            }
        },
        _ => SpecExpression::Nil,
    }
}

/// The body block of a loop statement.
pub open spec fn loop_body(s: SpecStatement) -> SpecBlock {
    match s {
        SpecStatement::While(w) => w.block,
        SpecStatement::Repeat(r) => r.block,
        SpecStatement::NumericFor(f) => f.block,
        SpecStatement::GenericFor(f) => f.block,
        _ => SpecBlock { statements: Seq::empty(), last_statement: None },
    }
}

pub open spec fn is_loop_stmt(s: SpecStatement) -> bool {
    s is While || s is Repeat || s is NumericFor || s is GenericFor
}

/// Add one branch node per `elseif` clause, each entered from the cursor
/// under its own condition.
pub open spec fn add_elseifs(
    nodes: Seq<Seq<SpecStatement>>,
    edges: Seq<SpecCfgEdgeRec>,
    cursor: int,
    eis: Seq<SpecElseIf>,
) -> (Seq<Seq<SpecStatement>>, Seq<SpecCfgEdgeRec>)
    decreases eis.len(),
{
    if eis.len() == 0 {
        (nodes, edges)
    } else {
        add_elseifs(
            nodes.push(first_stmt(eis[0].block)),
            edges.push(
                SpecCfgEdgeRec {
                    from: cursor,
                    to: nodes.len() as int,
                    edge: SpecCfgEdge::Conditional(eis[0].condition),
                },
            ),
            cursor,
            eis.drop_first(),
        )
    }
}

/// Unconditional edges from every branch node in `[from, until)` into the
/// merge node.
pub open spec fn add_merge_edges(
    edges: Seq<SpecCfgEdgeRec>,
    from: int,
    until: int,
    merge: int,
) -> Seq<SpecCfgEdgeRec>
    decreases until - from,
{
    if from >= until {
        edges
    } else {
        add_merge_edges(
            edges.push(SpecCfgEdgeRec { from: from, to: merge, edge: SpecCfgEdge::Unconditional }),
            from + 1,
            until,
            merge,
        )
    }
}

/// Lower one statement from the given state: the shape of the graph each
/// statement contributes.
pub open spec fn cfg_step(st: SpecCfgState, s: SpecStatement) -> SpecCfgState {
    match s {
        SpecStatement::If(i) => {
            // one branch node per clause, entered from the cursor
            let n0 = st.nodes.len() as int;
            let nodes1 = st.nodes.push(first_stmt(i.block));
            let edges1 = st.edges.push(
                SpecCfgEdgeRec {
                    from: st.cursor,
                    to: n0,
                    edge: SpecCfgEdge::Conditional(i.condition),
                },
            );
            let (nodes2, edges2) = add_elseifs(nodes1, edges1, st.cursor, i.elseif_blocks);
            let nodes3 = match i.else_block {
                Some(eb) => nodes2.push(first_stmt(eb)),
                None => nodes2,
            };
            let edges3 = match i.else_block {
                Some(_) => edges2.push(
                    SpecCfgEdgeRec {
                        from: st.cursor,
                        to: nodes2.len() as int,
                        edge: SpecCfgEdge::Unconditional,
                    },
                ),
                None => edges2,
            };
            // one merge node that every branch converges into
            let merge = nodes3.len() as int;
            let nodes4 = nodes3.push(Seq::empty());
            let edges4 = add_merge_edges(edges3, n0, merge, merge);
            SpecCfgState { nodes: nodes4, edges: edges4, cursor: merge }
        },
        _ => {
            if is_loop_stmt(s) {
                // condition node, guarded body edge, back edge, exit edge
                let c = st.nodes.len() as int;
                let nodes1 = st.nodes.push(Seq::empty());
                let edges1 = st.edges.push(
                    SpecCfgEdgeRec { from: st.cursor, to: c, edge: SpecCfgEdge::Unconditional },
                );
                let b = c + 1;
                let nodes2 = nodes1.push(first_stmt(loop_body(s)));
                let edges2 = edges1.push(
                    SpecCfgEdgeRec {
                        from: c,
                        to: b,
                        edge: SpecCfgEdge::Conditional(loop_guard(s)),
                    },
                ).push(SpecCfgEdgeRec { from: b, to: c, edge: SpecCfgEdge::Unconditional });
                let m = c + 2;
                let nodes3 = nodes2.push(Seq::empty());
                let edges3 = edges2.push(
                    SpecCfgEdgeRec { from: c, to: m, edge: SpecCfgEdge::Unconditional },
                );
                SpecCfgState { nodes: nodes3, edges: edges3, cursor: m }
            } else {
                // a straight-line statement: one node holding it
                let n = st.nodes.len() as int;
                SpecCfgState {
                    nodes: st.nodes.push(seq![s]),
                    edges: st.edges.push(
                        SpecCfgEdgeRec {
                            from: st.cursor,
                            to: n,
                            edge: SpecCfgEdge::Unconditional,
                        },
                    ),
                    cursor: n,
                }
            }
        },
    }
}

/// Lower a statement list in order.
pub open spec fn cfg_run(st: SpecCfgState, stmts: Seq<SpecStatement>) -> SpecCfgState
    decreases stmts.len(),
{
    if stmts.len() == 0 {
        st
    } else {
        cfg_run(cfg_step(st, stmts[0]), stmts.drop_first())
    }
}

/// The whole graph of a block: a fresh empty entry node, then every
/// statement in order. The block's terminal `break`/`return`, which ends
/// control flow, adds no node.
pub open spec fn spec_translate(b: SpecBlock) -> SpecCfgState {
    cfg_run(
        SpecCfgState {
            nodes: seq![Seq::<SpecStatement>::empty()],
            edges: Seq::empty(),
            cursor: 0,
        },
        b.statements,
    )
}

// ---------------------------------------------------------------------------
// Facts about the fold, used to keep indices within the graph's capacity
// and to show the shape invariants.
// ---------------------------------------------------------------------------

/// Node `j` is entered by at least one edge.
pub open spec fn has_incoming(edges: Seq<SpecCfgEdgeRec>, j: int) -> bool {
    exists|k: int| 0 <= k < edges.len() && (#[trigger] edges[k]).to == j
}

/// Every node but the entry has at least one incoming edge.
pub open spec fn all_covered(st: SpecCfgState) -> bool {
    forall|j: int| 1 <= j < st.nodes.len() ==> #[trigger] has_incoming(st.edges, j)
}

/// An incoming edge survives appending further edges.
proof fn lemma_has_incoming_mono(e1: Seq<SpecCfgEdgeRec>, e2: Seq<SpecCfgEdgeRec>, j: int)
    requires
        e1.len() <= e2.len(),
        forall|k: int| 0 <= k < e1.len() ==> e2[k] == e1[k],
        has_incoming(e1, j),
    ensures
        has_incoming(e2, j),
{
    let k = choose|k: int| 0 <= k < e1.len() && (#[trigger] e1[k]).to == j;
    assert(0 <= k < e2.len() && e2[k].to == j);
}

/// A state is coherent when its cursor is a node and all edges connect
/// nodes.
pub open spec fn state_wf(st: SpecCfgState) -> bool {
    &&& 0 <= st.cursor < st.nodes.len()
    &&& forall|k: int|
        0 <= k < st.edges.len() ==> 0 <= (#[trigger] st.edges[k]).from < st.nodes.len() && 0
            <= st.edges[k].to < st.nodes.len()
    &&& forall|k: int| 0 <= k < st.edges.len() ==> 0 < (#[trigger] st.edges[k]).to
}

proof fn lemma_add_elseifs_wf(
    nodes: Seq<Seq<SpecStatement>>,
    edges: Seq<SpecCfgEdgeRec>,
    cursor: int,
    eis: Seq<SpecElseIf>,
)
    requires
        0 <= cursor < nodes.len(),
        forall|k: int|
            0 <= k < edges.len() ==> 0 <= (#[trigger] edges[k]).from < nodes.len() && 0
                < edges[k].to < nodes.len(),
    ensures
        ({
            let (n2, e2) = add_elseifs(nodes, edges, cursor, eis);
            &&& n2.len() == nodes.len() + eis.len()
            &&& e2.len() == edges.len() + eis.len()
            &&& forall|k: int|
                0 <= k < e2.len() ==> 0 <= (#[trigger] e2[k]).from < n2.len() && 0 < e2[k].to
                    < n2.len()
            &&& forall|k: int| 0 <= k < edges.len() ==> e2[k] == edges[k]
            &&& forall|t: int|
                0 <= t < eis.len() ==> (#[trigger] e2[edges.len() + t]).to == nodes.len() + t
        }),
    decreases eis.len(),
{
    if eis.len() > 0 {
        let nodes1 = nodes.push(first_stmt(eis[0].block));
        let edges1 = edges.push(
            SpecCfgEdgeRec {
                from: cursor,
                to: nodes.len() as int,
                edge: SpecCfgEdge::Conditional(eis[0].condition),
            },
        );
        assert(nodes.len() > 0);
        lemma_add_elseifs_wf(nodes1, edges1, cursor, eis.drop_first());
        let e2 = add_elseifs(nodes1, edges1, cursor, eis.drop_first()).1;
        assert forall|t: int|
            0 <= t < eis.len() implies (#[trigger] e2[edges.len() + t]).to == nodes.len() + t by {
            if t == 0 {
                assert(e2[edges.len() as int] == edges1[edges.len() as int]);
            } else {
                assert(e2[edges1.len() + (t - 1)].to == nodes1.len() + (t - 1));
            }
        }
    }
}

proof fn lemma_add_merge_edges_wf(
    edges: Seq<SpecCfgEdgeRec>,
    from: int,
    until: int,
    merge: int,
    bound: int,
)
    requires
        0 < merge < bound,
        0 <= from,
        until <= bound,
        forall|k: int|
            0 <= k < edges.len() ==> 0 <= (#[trigger] edges[k]).from < bound && 0 < edges[k].to
                < bound,
    ensures
        ({
            let e2 = add_merge_edges(edges, from, until, merge);
            &&& e2.len() == edges.len() + if until > from {
                until - from
            } else {
                0
            }
            &&& forall|k: int|
                0 <= k < e2.len() ==> 0 <= (#[trigger] e2[k]).from < bound && 0 < e2[k].to < bound
            &&& forall|k: int| 0 <= k < edges.len() ==> e2[k] == edges[k]
            &&& from < until ==> has_incoming(e2, merge)
        }),
    decreases until - from,
{
    if from < until {
        assert(edges.push(
            SpecCfgEdgeRec { from: from, to: merge, edge: SpecCfgEdge::Unconditional },
        )[edges.len() as int].to == merge);
        lemma_add_merge_edges_wf(
            edges.push(SpecCfgEdgeRec { from: from, to: merge, edge: SpecCfgEdge::Unconditional }),
            from + 1,
            until,
            merge,
            bound,
        );
    }
}

/// One step keeps the state coherent, only appends to the edge list,
/// gives every node it adds an incoming edge, and grows the graph.
proof fn lemma_cfg_step_wf(st: SpecCfgState, s: SpecStatement)
    requires
        state_wf(st),
    ensures
        state_wf(cfg_step(st, s)),
        cfg_step(st, s).nodes.len() > st.nodes.len(),
        cfg_step(st, s).edges.len() >= st.edges.len(),
        forall|k: int| 0 <= k < st.edges.len() ==> cfg_step(st, s).edges[k] == st.edges[k],
        all_covered(st) ==> all_covered(cfg_step(st, s)),
{
    let stepped = cfg_step(st, s);
    match s {
        SpecStatement::If(i) => {
            let n0 = st.nodes.len() as int;
            let nodes1 = st.nodes.push(first_stmt(i.block));
            let edges1 = st.edges.push(
                SpecCfgEdgeRec {
                    from: st.cursor,
                    to: n0,
                    edge: SpecCfgEdge::Conditional(i.condition),
                },
            );
            lemma_add_elseifs_wf(nodes1, edges1, st.cursor, i.elseif_blocks);
            let (nodes2, edges2) = add_elseifs(nodes1, edges1, st.cursor, i.elseif_blocks);
            let nodes3 = match i.else_block {
                Some(eb) => nodes2.push(first_stmt(eb)),
                None => nodes2,
            };
            let edges3 = match i.else_block {
                Some(_) => edges2.push(
                    SpecCfgEdgeRec {
                        from: st.cursor,
                        to: nodes2.len() as int,
                        edge: SpecCfgEdge::Unconditional,
                    },
                ),
                None => edges2,
            };
            let merge = nodes3.len() as int;
            lemma_add_merge_edges_wf(edges3, n0, merge, merge, merge + 1);
            let edges4 = add_merge_edges(edges3, n0, merge, merge);
            assert(forall|k: int| 0 <= k < st.edges.len() ==> edges4[k] == st.edges[k]);
            if all_covered(st) {
                assert forall|j: int| 1 <= j < stepped.nodes.len() implies #[trigger]
                has_incoming(stepped.edges, j) by {
                    if j < st.nodes.len() {
                        lemma_has_incoming_mono(st.edges, edges4, j);
                    } else if j == n0 {
                        assert(edges1[st.edges.len() as int].to == n0);
                        lemma_has_incoming_mono(edges1, edges4, j);
                    } else if j < n0 + 1 + i.elseif_blocks.len() {
                        let t = j - (n0 + 1);
                        assert(edges2[edges1.len() + t].to == nodes1.len() + t);
                        lemma_has_incoming_mono(edges2, edges4, j);
                    } else if j < merge {
                        // only the `else` branch node lies between the
                        // clause nodes and the merge node
                        assert(i.else_block is Some && j == nodes2.len() as int);
                        assert(edges3[edges2.len() as int].to == j);
                        lemma_has_incoming_mono(edges3, edges4, j);
                    } else {
                        assert(j == merge);
                        assert(has_incoming(edges4, merge));
                    }
                }
            }
        },
        _ => {
            if is_loop_stmt(s) {
                let c = st.nodes.len() as int;
                let e0 = st.edges.len() as int;
                if all_covered(st) {
                    assert forall|j: int| 1 <= j < stepped.nodes.len() implies #[trigger]
                    has_incoming(stepped.edges, j) by {
                        if j < st.nodes.len() {
                            lemma_has_incoming_mono(st.edges, stepped.edges, j);
                        } else if j == c {
                            assert(stepped.edges[e0].to == c);
                        } else if j == c + 1 {
                            assert(stepped.edges[e0 + 1].to == c + 1);
                        } else {
                            assert(j == c + 2);
                            assert(stepped.edges[e0 + 3].to == c + 2);
                        }
                    }
                }
            } else {
                let n = st.nodes.len() as int;
                let e0 = st.edges.len() as int;
                if all_covered(st) {
                    assert forall|j: int| 1 <= j < stepped.nodes.len() implies #[trigger]
                    has_incoming(stepped.edges, j) by {
                        if j < st.nodes.len() {
                            lemma_has_incoming_mono(st.edges, stepped.edges, j);
                        } else {
                            assert(j == n);
                            assert(stepped.edges[e0].to == n);
                        }
                    }
                }
            }
        },
    }
}

/// A run from a coherent state stays coherent, keeps every node covered,
/// and only grows.
proof fn lemma_cfg_run_wf(st: SpecCfgState, stmts: Seq<SpecStatement>)
    requires
        state_wf(st),
    ensures
        state_wf(cfg_run(st, stmts)),
        cfg_run(st, stmts).nodes.len() >= st.nodes.len(),
        cfg_run(st, stmts).edges.len() >= st.edges.len(),
        all_covered(st) ==> all_covered(cfg_run(st, stmts)),
    decreases stmts.len(),
{
    if stmts.len() > 0 {
        lemma_cfg_step_wf(st, stmts[0]);
        lemma_cfg_run_wf(cfg_step(st, stmts[0]), stmts.drop_first());
    }
}

// ---------------------------------------------------------------------------
// The published shape law and the executable translation.
// ---------------------------------------------------------------------------

/// The output invariant of translation: the entry node is node zero, it is
/// the one node with no incoming edge (every other node has at least one),
/// every edge connects existing nodes, and the cursor the translation ends
/// on is a node of the graph.
pub proof fn theorem_translate_well_formed(b: SpecBlock)
    ensures
        spec_translate(b).nodes.len() > 0,
        state_wf(spec_translate(b)),
        forall|k: int|
            0 <= k < spec_translate(b).edges.len() ==> 0 < (#[trigger] spec_translate(
                b,
            ).edges[k]).to < spec_translate(b).nodes.len(),
        forall|j: int|
            1 <= j < spec_translate(b).nodes.len() ==> #[trigger] has_incoming(
                spec_translate(b).edges,
                j,
            ),
{
    let init = SpecCfgState {
        nodes: seq![Seq::<SpecStatement>::empty()],
        edges: Seq::empty(),
        cursor: 0,
    };
    lemma_cfg_run_wf(init, b.statements);
}


// ---------------------------------------------------------------------------
// The executable translation.
// ---------------------------------------------------------------------------

/// One directed edge of a built graph: from node `from` to node `to`.
pub struct CfgEdgeRec {
    pub from: usize,
    pub to: usize,
    pub edge: CFGEdge,
}

impl View for CfgEdgeRec {
    type V = SpecCfgEdgeRec;

    open spec fn view(&self) -> SpecCfgEdgeRec {
        SpecCfgEdgeRec { from: self.from as int, to: self.to as int, edge: self.edge@ }
    }
}

/// The control-flow graph: an explicit node and edge arena addressed by
/// indices into `nodes`, since back edges make the structure cyclic.
pub struct Cfg {
    pub nodes: Vec<CFGNode>,
    pub edges: Vec<CfgEdgeRec>,
}

pub open spec fn view_nodes(ns: Seq<CFGNode>) -> Seq<Seq<SpecStatement>>
    decreases ns.len(),
{
    if ns.len() == 0 {
        Seq::empty()
    } else {
        seq![ns[0]@] + view_nodes(ns.drop_first())
    }
}

pub open spec fn view_edges(es: Seq<CfgEdgeRec>) -> Seq<SpecCfgEdgeRec>
    decreases es.len(),
{
    if es.len() == 0 {
        Seq::empty()
    } else {
        seq![es[0]@] + view_edges(es.drop_first())
    }
}

pub proof fn lemma_view_nodes_push(s: Seq<CFGNode>, x: CFGNode)
    ensures
        view_nodes(s.push(x)) == view_nodes(s).push(x@),
    decreases s.len(),
{
    if s.len() == 0 {
        assert(s.push(x).drop_first() =~= s);
        assert(view_nodes(s.push(x)) =~= view_nodes(s).push(x@));
    } else {
        assert(s.push(x).drop_first() =~= s.drop_first().push(x));
        lemma_view_nodes_push(s.drop_first(), x);
        assert(view_nodes(s.push(x)) =~= view_nodes(s).push(x@));
    }
}

pub proof fn lemma_view_edges_push(s: Seq<CfgEdgeRec>, x: CfgEdgeRec)
    ensures
        view_edges(s.push(x)) == view_edges(s).push(x@),
    decreases s.len(),
{
    if s.len() == 0 {
        assert(s.push(x).drop_first() =~= s);
        assert(view_edges(s.push(x)) =~= view_edges(s).push(x@));
    } else {
        assert(s.push(x).drop_first() =~= s.drop_first().push(x));
        lemma_view_edges_push(s.drop_first(), x);
        assert(view_edges(s.push(x)) =~= view_edges(s).push(x@));
    }
}

pub proof fn lemma_view_nodes_len(s: Seq<CFGNode>)
    ensures
        view_nodes(s).len() == s.len(),
    decreases s.len(),
{
    if s.len() > 0 {
        lemma_view_nodes_len(s.drop_first());
    }
}

/// The state a node list, an edge list and a cursor stand for.
pub open spec fn exec_state(nodes: Seq<CFGNode>, edges: Seq<CfgEdgeRec>, cursor: int) -> SpecCfgState {
    SpecCfgState { nodes: view_nodes(nodes), edges: view_edges(edges), cursor: cursor }
}

/// Running one more statement is one more step.
proof fn lemma_cfg_run_push(st: SpecCfgState, u: Seq<SpecStatement>, x: SpecStatement)
    ensures
        cfg_run(st, u.push(x)) == cfg_step(cfg_run(st, u), x),
    decreases u.len(),
{
    reveal_with_fuel(cfg_run, 2);
    if u.len() == 0 {
        assert(u.push(x)[0] == x);
        assert(u.push(x).drop_first() =~= Seq::<SpecStatement>::empty());
    } else {
        assert(u.push(x)[0] == u[0]);
        assert(u.push(x).drop_first() =~= u.drop_first().push(x));
        lemma_cfg_run_push(cfg_step(st, u[0]), u.drop_first(), x);
    }
}

/// One more `elseif` clause adds one more branch node and its edge.
proof fn lemma_add_elseifs_push(
    nodes: Seq<Seq<SpecStatement>>,
    edges: Seq<SpecCfgEdgeRec>,
    cursor: int,
    u: Seq<SpecElseIf>,
    x: SpecElseIf,
)
    ensures
        add_elseifs(nodes, edges, cursor, u.push(x)).0 == add_elseifs(
            nodes,
            edges,
            cursor,
            u,
        ).0.push(first_stmt(x.block)),
        add_elseifs(nodes, edges, cursor, u.push(x)).1 == add_elseifs(
            nodes,
            edges,
            cursor,
            u,
        ).1.push(
            SpecCfgEdgeRec {
                from: cursor,
                to: add_elseifs(nodes, edges, cursor, u).0.len() as int,
                edge: SpecCfgEdge::Conditional(x.condition),
            },
        ),
    decreases u.len(),
{
    reveal_with_fuel(add_elseifs, 2);
    if u.len() == 0 {
        assert(u.push(x)[0] == x);
        assert(u.push(x).drop_first() =~= Seq::<SpecElseIf>::empty());
    } else {
        assert(u.push(x)[0] == u[0]);
        assert(u.push(x).drop_first() =~= u.drop_first().push(x));
        lemma_add_elseifs_push(
            nodes.push(first_stmt(u[0].block)),
            edges.push(
                SpecCfgEdgeRec {
                    from: cursor,
                    to: nodes.len() as int,
                    edge: SpecCfgEdge::Conditional(u[0].condition),
                },
            ),
            cursor,
            u.drop_first(),
            x,
        );
    }
}

/// One more merge edge extends the range by one.
proof fn lemma_add_merge_edges_snoc(edges: Seq<SpecCfgEdgeRec>, from: int, until: int, merge: int)
    requires
        from <= until,
    ensures
        add_merge_edges(edges, from, until + 1, merge) == add_merge_edges(
            edges,
            from,
            until,
            merge,
        ).push(SpecCfgEdgeRec { from: until, to: merge, edge: SpecCfgEdge::Unconditional }),
    decreases until - from,
{
    reveal_with_fuel(add_merge_edges, 2);
    if from < until {
        lemma_add_merge_edges_snoc(
            edges.push(SpecCfgEdgeRec { from: from, to: merge, edge: SpecCfgEdge::Unconditional }),
            from + 1,
            until,
            merge,
        );
    }
}

/// The contents of a branch or loop-body node, as owned statements.
fn first_stmt_vec(b: &Block) -> (r: Vec<Statement>)
    ensures
        crate::ast::view_stmt_seq(r@) == first_stmt(b@),
{
    let mut v: Vec<Statement> = Vec::new();
    if b.statements.len() > 0 {
        let s = b.statements[0].clone();
        let ghost gs = crate::ast::view_stmt(s);
        v.push(s);
        proof {
            reveal_with_fuel(crate::ast::view_stmt_seq, 2);
            crate::ast::lemma_view_stmt_seq_len(b.statements@);
            crate::ast::lemma_view_stmt_seq_index(b.statements@, 0);
            assert(v@.drop_first() =~= Seq::<Statement>::empty());
            assert(crate::ast::view_stmt_seq(v@) =~= seq![gs]);
        }
    } else {
        proof {
            crate::ast::lemma_view_stmt_seq_len(b.statements@);
            assert(crate::ast::view_stmt_seq(v@) =~= Seq::<SpecStatement>::empty());
        }
    }
    v
}

/// The guard expression of a loop statement, built as `loop_guard` says.
fn guard_of(s: &Statement) -> (r: Expression)
    requires
        is_loop_stmt(s@),
    ensures
        r@ == loop_guard(s@),
{
    match s {
        Statement::While(w) => w.condition.clone(),
        Statement::Repeat(rp) => rp.condition.clone(),
        Statement::NumericFor(f) => {
            let r = Expression::LessThanOrEqual(
                Box::new(
                    Expression::Variable(crate::ast::Variable::Identifier(f.identifier.clone())),
                ),
                Box::new(f.end.clone()),
            );
            proof {
                reveal_with_fuel(crate::ast::view_expr, 3);
            }
            r
        },
        Statement::GenericFor(f) => {
            if f.identifier_list.len() == 0 {
                Expression::Nil
            } else {
                let r = Expression::NotEqual(
                    Box::new(
                        Expression::Variable(
                            crate::ast::Variable::Identifier(f.identifier_list[0].clone()),
                        ),
                    ),
                    Box::new(Expression::Nil),
                );
                proof {
                    reveal_with_fuel(crate::ast::view_expr, 3);
                }
                r
            }
        },
        _ => {
            proof {
                assert(false);
            }
            Expression::Nil
        },
    }
}

/// The body block of a loop statement.
fn body_of(s: &Statement) -> (r: &Block)
    requires
        is_loop_stmt(s@),
    ensures
        r@ == loop_body(s@),
{
    match s {
        Statement::While(w) => &w.block,
        Statement::Repeat(rp) => &rp.block,
        Statement::NumericFor(f) => &f.block,
        Statement::GenericFor(f) => &f.block,
        _ => {
            proof {
                assert(false);
            }
            vstd::pervasive::unreached()
        },
    }
}

impl crate::ast::NumericForStatement {
    /// The step a numeric `for` advances by each iteration: the written
    /// step expression, or the literal `1` when it is omitted. Together
    /// with the inclusive bounds check of `loop_guard`, this fixes the
    /// loop's iteration semantics.
    pub fn effective_step(&self) -> (r: Expression)
        ensures
            self.step is Some ==> r@ == self.step->0@,
            self.step is None ==> r@ == SpecExpression::LiteralNumber(
                crate::ast::LuaNumber { negative: false, mantissa: 1, exponent: 0 },
            ),
    {
        match &self.step {
            Some(e) => e.clone(),
            None => Expression::LiteralNumber(
                crate::ast::LuaNumber { negative: false, mantissa: 1, exponent: 0 },
            ),
        }
    }
}

/// Lower a straight-line statement: one node holding it, entered from the
/// cursor.
#[verifier::rlimit(100)]
#[verifier::spinoff_prover]
fn step_simple(
    nodes: &mut Vec<CFGNode>,
    edges: &mut Vec<CfgEdgeRec>,
    cursor: usize,
    s: &Statement,
) -> (new_cursor: usize)
    requires
        !(s@ is If),
        !is_loop_stmt(s@),
    ensures
        exec_state(final(nodes)@, final(edges)@, new_cursor as int) == cfg_step(
            exec_state(old(nodes)@, old(edges)@, cursor as int),
            s@,
        ),
{
    let ghost st0 = exec_state(nodes@, edges@, cursor as int);
    let n = nodes.len();
    let one = s.clone();
    let ghost gs = crate::ast::view_stmt(one);
    let mut v: Vec<Statement> = Vec::new();
    v.push(one);
    proof {
        reveal_with_fuel(crate::ast::view_stmt_seq, 2);
        assert(v@.drop_first() =~= Seq::<Statement>::empty());
        assert(crate::ast::view_stmt_seq(v@) =~= seq![gs]);
    }
    let node = CFGNode { statements: v };
    let edge = CfgEdgeRec { from: cursor, to: n, edge: CFGEdge::Unconditional() };
    proof {
        lemma_view_nodes_len(nodes@);
        lemma_view_nodes_push(nodes@, node);
        lemma_view_edges_push(edges@, edge);
    }
    nodes.push(node);
    edges.push(edge);
    n
}

/// Lower a loop statement: condition node, guarded body edge, back edge,
/// exit edge.
#[verifier::rlimit(100)]
#[verifier::spinoff_prover]
fn step_loop(
    nodes: &mut Vec<CFGNode>,
    edges: &mut Vec<CfgEdgeRec>,
    cursor: usize,
    s: &Statement,
) -> (new_cursor: usize)
    requires
        is_loop_stmt(s@),
    ensures
        exec_state(final(nodes)@, final(edges)@, new_cursor as int) == cfg_step(
            exec_state(old(nodes)@, old(edges)@, cursor as int),
            s@,
        ),
{
    let ghost st0 = exec_state(nodes@, edges@, cursor as int);
    let c = nodes.len();
    let cond_node = CFGNode { statements: Vec::new() };
    let entry_edge = CfgEdgeRec { from: cursor, to: c, edge: CFGEdge::Unconditional() };
    proof {
        lemma_view_nodes_len(nodes@);
        lemma_view_nodes_push(nodes@, cond_node);
        lemma_view_edges_push(edges@, entry_edge);
        assert(crate::ast::view_stmt_seq(Seq::<Statement>::empty())
            =~= Seq::<SpecStatement>::empty());
    }
    nodes.push(cond_node);
    edges.push(entry_edge);
    let b = nodes.len();
    let guard = guard_of(s);
    let body_node = CFGNode { statements: first_stmt_vec(body_of(s)) };
    let guard_edge = CfgEdgeRec { from: c, to: b, edge: CFGEdge::Conditional(guard) };
    let back_edge = CfgEdgeRec { from: b, to: c, edge: CFGEdge::Unconditional() };
    proof {
        lemma_view_nodes_push(nodes@, body_node);
        lemma_view_edges_push(edges@, guard_edge);
    }
    nodes.push(body_node);
    edges.push(guard_edge);
    proof {
        lemma_view_edges_push(edges@, back_edge);
    }
    edges.push(back_edge);
    let m = nodes.len();
    let merge_node = CFGNode { statements: Vec::new() };
    let exit_edge = CfgEdgeRec { from: c, to: m, edge: CFGEdge::Unconditional() };
    proof {
        lemma_view_nodes_push(nodes@, merge_node);
        lemma_view_edges_push(edges@, exit_edge);
    }
    nodes.push(merge_node);
    edges.push(exit_edge);
    proof {
        let stepped = cfg_step(st0, s@);
        assert(view_nodes(nodes@) == stepped.nodes);
        assert(view_edges(edges@) == stepped.edges);
    }
    m
}

/// Push one branch node and its conditional edge per `elseif` clause.
#[verifier::rlimit(100)]
#[verifier::spinoff_prover]
fn push_elseifs(
    nodes: &mut Vec<CFGNode>,
    edges: &mut Vec<CfgEdgeRec>,
    cursor: usize,
    eis: &Vec<crate::ast::ElseIf>,
)
    ensures
        final(nodes)@.len() >= old(nodes)@.len(),
        view_nodes(final(nodes)@) == add_elseifs(
            view_nodes(old(nodes)@),
            view_edges(old(edges)@),
            cursor as int,
            crate::ast::view_elseif_seq(eis@),
        ).0,
        view_edges(final(edges)@) == add_elseifs(
            view_nodes(old(nodes)@),
            view_edges(old(edges)@),
            cursor as int,
            crate::ast::view_elseif_seq(eis@),
        ).1,
{
    let ghost nodes1 = view_nodes(nodes@);
    let ghost edges1 = view_edges(edges@);
    let ghost seis = crate::ast::view_elseif_seq(eis@);
    let ghost len0 = nodes@.len();
    let mut k: usize = 0;
    proof {
        crate::ast::lemma_view_elseif_seq_len(eis@);
        assert(seis.take(0) =~= Seq::<SpecElseIf>::empty());
    }
    while k < eis.len()
        invariant
            k <= eis.len(),
            nodes@.len() == len0 + k,
            seis == crate::ast::view_elseif_seq(eis@),
            seis.len() == eis@.len(),
            view_nodes(nodes@) == add_elseifs(nodes1, edges1, cursor as int, seis.take(k as int)).0,
            view_edges(edges@) == add_elseifs(nodes1, edges1, cursor as int, seis.take(k as int)).1,
        decreases eis.len() - k,
    {
        let to = nodes.len();
        let clause_node = CFGNode { statements: first_stmt_vec(&eis[k].block) };
        let clause_edge = CfgEdgeRec {
            from: cursor,
            to: to,
            edge: CFGEdge::Conditional(eis[k].condition.clone()),
        };
        proof {
            crate::ast::lemma_view_elseif_seq_index(eis@, k as int);
            lemma_view_nodes_len(nodes@);
            lemma_view_nodes_push(nodes@, clause_node);
            lemma_view_edges_push(edges@, clause_edge);
            lemma_add_elseifs_push(nodes1, edges1, cursor as int, seis.take(k as int), seis[k as int]);
            assert(seis.take(k as int).push(seis[k as int]) =~= seis.take(k + 1));
        }
        nodes.push(clause_node);
        edges.push(clause_edge);
        k += 1;
    }
    proof {
        assert(seis.take(seis.len() as int) =~= seis);
    }
}

/// Push one unconditional edge into the merge node from every branch node
/// in `[from, merge)`.
#[verifier::rlimit(100)]
#[verifier::spinoff_prover]
fn push_merge_edges(edges: &mut Vec<CfgEdgeRec>, from: usize, merge: usize)
    requires
        from <= merge,
    ensures
        view_edges(final(edges)@) == add_merge_edges(
            view_edges(old(edges)@),
            from as int,
            merge as int,
            merge as int,
        ),
{
    let ghost edges3 = view_edges(edges@);
    let mut j: usize = from;
    proof {
        reveal_with_fuel(add_merge_edges, 1);
    }
    while j < merge
        invariant
            from <= j <= merge,
            view_edges(edges@) == add_merge_edges(edges3, from as int, j as int, merge as int),
        decreases merge - j,
    {
        let merge_edge = CfgEdgeRec { from: j, to: merge, edge: CFGEdge::Unconditional() };
        proof {
            lemma_view_edges_push(edges@, merge_edge);
            lemma_add_merge_edges_snoc(edges3, from as int, j as int, merge as int);
        }
        edges.push(merge_edge);
        j += 1;
    }
}

/// Lower an `if` statement: one branch node per clause under the cursor,
/// then a merge node every branch converges into.
#[verifier::rlimit(100)]
#[verifier::spinoff_prover]
fn step_if(
    nodes: &mut Vec<CFGNode>,
    edges: &mut Vec<CfgEdgeRec>,
    cursor: usize,
    i: &crate::ast::IfStatement,
    Ghost(si): Ghost<crate::ast::SpecIfStatement>,
) -> (new_cursor: usize)
    requires
        si.condition == i.condition@,
        si.block == i.block@,
        si.elseif_blocks == crate::ast::view_elseif_seq(i.elseif_blocks@),
        i.else_block is Some <==> si.else_block is Some,
        i.else_block is Some ==> si.else_block->0 == i.else_block->0@,
    ensures
        exec_state(final(nodes)@, final(edges)@, new_cursor as int) == cfg_step(
            exec_state(old(nodes)@, old(edges)@, cursor as int),
            SpecStatement::If(si),
        ),
{
    let ghost st0 = exec_state(nodes@, edges@, cursor as int);
    let n0 = nodes.len();
    let branch_node = CFGNode { statements: first_stmt_vec(&i.block) };
    let branch_edge = CfgEdgeRec {
        from: cursor,
        to: n0,
        edge: CFGEdge::Conditional(i.condition.clone()),
    };
    proof {
        lemma_view_nodes_len(nodes@);
        lemma_view_nodes_push(nodes@, branch_node);
        lemma_view_edges_push(edges@, branch_edge);
    }
    nodes.push(branch_node);
    edges.push(branch_edge);
    let ghost nodes1 = view_nodes(nodes@);
    let ghost edges1 = view_edges(edges@);
    proof {
        assert(nodes1 == st0.nodes.push(first_stmt(si.block)));
        assert(edges1 == st0.edges.push(
            SpecCfgEdgeRec {
                from: st0.cursor,
                to: n0 as int,
                edge: SpecCfgEdge::Conditional(si.condition),
            },
        ));
    }
    push_elseifs(nodes, edges, cursor, &i.elseif_blocks);
    let ghost nodes2 = view_nodes(nodes@);
    let ghost edges2 = view_edges(edges@);
    let n2 = nodes.len();
    if let Some(eb) = &i.else_block {
        let else_node = CFGNode { statements: first_stmt_vec(eb) };
        let else_edge = CfgEdgeRec { from: cursor, to: n2, edge: CFGEdge::Unconditional() };
        proof {
            lemma_view_nodes_len(nodes@);
            lemma_view_nodes_push(nodes@, else_node);
            lemma_view_edges_push(edges@, else_edge);
        }
        nodes.push(else_node);
        edges.push(else_edge);
    }
    let ghost nodes3 = view_nodes(nodes@);
    let ghost edges3 = view_edges(edges@);
    let merge = nodes.len();
    let merge_node = CFGNode { statements: Vec::new() };
    proof {
        lemma_view_nodes_len(nodes@);
        lemma_view_nodes_push(nodes@, merge_node);
        assert(crate::ast::view_stmt_seq(Seq::<Statement>::empty())
            =~= Seq::<SpecStatement>::empty());
        reveal_with_fuel(add_merge_edges, 1);
    }
    nodes.push(merge_node);
    push_merge_edges(edges, n0, merge);
    proof {
        let stepped = cfg_step(st0, SpecStatement::If(si));
        assert(view_nodes(nodes@) == stepped.nodes);
        assert(view_edges(edges@) == stepped.edges);
    }
    merge
}

/// Lower one statement into the graph under construction; the new cursor
/// is returned. Exactly `cfg_step` on the state the arguments stand for.
fn translate_step(
    nodes: &mut Vec<CFGNode>,
    edges: &mut Vec<CfgEdgeRec>,
    cursor: usize,
    s: &Statement,
) -> (new_cursor: usize)
    ensures
        exec_state(final(nodes)@, final(edges)@, new_cursor as int) == cfg_step(
            exec_state(old(nodes)@, old(edges)@, cursor as int),
            s@,
        ),
{
    match s {
        Statement::If(i) => {
            let ghost si = (match s@ {
                SpecStatement::If(x) => x,
                _ => arbitrary(),
            });
            step_if(nodes, edges, cursor, i, Ghost(si))
        },
        Statement::While(_) | Statement::Repeat(_) | Statement::NumericFor(_)
            | Statement::GenericFor(_) => step_loop(nodes, edges, cursor, s),
        _ => step_simple(nodes, edges, cursor, s),
    }
}

/// Build the control-flow graph of a block: a fresh empty entry node,
/// then every statement in order, exactly as `spec_translate` prescribes.
#[verifier::rlimit(100)]
#[verifier::spinoff_prover]
pub fn translate(block: &Block) -> (r: Cfg)
    ensures
        view_nodes(r.nodes@) == spec_translate(block@).nodes,
        view_edges(r.edges@) == spec_translate(block@).edges,
{
    let mut nodes: Vec<CFGNode> = Vec::new();
    nodes.push(CFGNode { statements: Vec::new() });
    let mut edges: Vec<CfgEdgeRec> = Vec::new();
    let mut cursor: usize = 0;
    let ghost init = SpecCfgState {
        nodes: seq![Seq::<SpecStatement>::empty()],
        edges: Seq::empty(),
        cursor: 0,
    };
    let ghost stmts = block@.statements;
    proof {
        reveal_with_fuel(view_nodes, 2);
        reveal_with_fuel(view_edges, 2);
        assert(crate::ast::view_stmt_seq(Seq::<Statement>::empty())
            =~= Seq::<SpecStatement>::empty());
        assert(view_nodes(nodes@) =~= init.nodes);
        assert(view_edges(edges@) =~= init.edges);
        crate::ast::lemma_view_stmt_seq_len(block.statements@);
        assert(stmts.take(0) =~= Seq::<SpecStatement>::empty());
    }
    let n = block.statements.len();
    let mut idx: usize = 0;
    while idx < n
        invariant
            idx <= n,
            n == block.statements@.len(),
            stmts == block@.statements,
            stmts.len() == n,
            exec_state(nodes@, edges@, cursor as int) == cfg_run(init, stmts.take(idx as int)),
        decreases n - idx,
    {
        let s = &block.statements[idx];
        proof {
            crate::ast::lemma_view_stmt_seq_index(block.statements@, idx as int);
        }
        cursor = translate_step(&mut nodes, &mut edges, cursor, s);
        proof {
            lemma_cfg_run_push(init, stmts.take(idx as int), stmts[idx as int]);
            assert(stmts.take(idx as int).push(stmts[idx as int]) =~= stmts.take(idx + 1));
        }
        idx += 1;
    }
    proof {
        assert(stmts.take(n as int) =~= stmts);
    }
    Cfg { nodes, edges }
}

} // verus!
