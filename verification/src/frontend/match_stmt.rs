//! The planner of MATCH: it decides in which order the nodes and
//! relationships of a pattern graph are found.

use vstd::prelude::*;
use crate::backend::{BackendDesc, Token};
use crate::error::{Error, ErrorKind};
use crate::frontend::context::{ContextView, PlanningContext};
use crate::frontend::expr::{
    entries_view, expr_model, exprs_view, lemma_exprs_view_push, Expr, ExprView, MapEntryExpr, MapEntryView,
    Op,
};
use crate::frontend::expr_planner::{context_kept, done, fail, Outcome};
use crate::frontend::pattern::{
    parse_pattern_graph_spec, PatternGraph, PatternGraphView, PatternNodeView, PatternRelView,
};
use crate::frontend::pattern_builder::parse_pattern_graph;
use crate::frontend::plan::{plan_model, Dir, LogicalPlan, PlanView};
use crate::frontend::syntax::{ParseNode, ParseTree};
use crate::value::Slot;

verus! {

/// How many elements of `done` are still false.
pub open spec fn pending(done: Seq<bool>) -> nat
    decreases done.len(),
{
    if done.len() == 0 {
        0
    } else {
        pending(done.drop_last()) + if done.last() {
            0nat
        } else {
            1nat
        }
    }
}

/// Marking an element leaves no more pending, and one less if it was.
pub proof fn lemma_pending_update(done: Seq<bool>, i: int)
    requires
        0 <= i < done.len(),
    ensures
        pending(done.update(i, true)) <= pending(done),
        !done[i] ==> pending(done.update(i, true)) < pending(done),
    decreases done.len(),
{
    let after = done.update(i, true);
    if i == done.len() - 1 {
        assert(after.drop_last() =~= done.drop_last());
    } else {
        lemma_pending_update(done.drop_last(), i);
        assert(after.drop_last() =~= done.drop_last().update(i, true));
    }
}

/// The place of the first node from `from` on with the identifier `tok`, or
/// the number of nodes if there is none.
pub open spec fn node_index(v: Seq<PatternNodeView>, tok: Token, from: int) -> int
    decreases v.len() - from,
{
    if 0 <= from < v.len() {
        if v[from].identifier == tok {
            from
        } else {
            node_index(v, tok, from + 1)
        }
    } else {
        v.len() as int
    }
}

/// Whether the node with the identifier `tok` is solved.
pub open spec fn node_solved(v: Seq<PatternNodeView>, nodes_done: Seq<bool>, tok: Token) -> bool {
    let i = node_index(v, tok, 0);
    0 <= i < nodes_done.len() && nodes_done[i]
}

/// The marks once the node with the identifier `tok` is solved.
pub open spec fn mark_node(v: Seq<PatternNodeView>, nodes_done: Seq<bool>, tok: Token) -> Seq<
    bool,
> {
    let i = node_index(v, tok, 0);
    if 0 <= i < nodes_done.len() {
        nodes_done.update(i, true)
    } else {
        nodes_done
    }
}

/// Whether the planner can expand along the relationship now: it is not
/// solved, it has both nodes, and one of them is solved.
pub open spec fn expandable(
    pg: PatternGraphView,
    nodes_done: Seq<bool>,
    rels_done: Seq<bool>,
    i: int,
) -> bool {
    &&& 0 <= i < pg.e.len()
    &&& i < rels_done.len()
    &&& !rels_done[i]
    &&& pg.e[i].right_node is Some
    &&& (node_solved(pg.v, nodes_done, pg.e[i].left_node) || node_solved(
        pg.v,
        nodes_done,
        pg.e[i].right_node->0,
    ))
}

/// The place of the first relationship from `from` on that can be expanded,
/// or the number of relationships if there is none.
pub open spec fn candidate(
    pg: PatternGraphView,
    nodes_done: Seq<bool>,
    rels_done: Seq<bool>,
    from: int,
) -> int
    decreases pg.e.len() - from,
{
    if 0 <= from < pg.e.len() {
        if expandable(pg, nodes_done, rels_done, from) {
            from
        } else {
            candidate(pg, nodes_done, rels_done, from + 1)
        }
    } else {
        pg.e.len() as int
    }
}

/// The place of the first element from `from` on that is false, or the length
/// if there is none.
pub open spec fn first_pending(done: Seq<bool>, from: int) -> int
    decreases done.len() - from,
{
    if 0 <= from < done.len() {
        if !done[from] {
            from
        } else {
            first_pending(done, from + 1)
        }
    } else {
        done.len() as int
    }
}

/// The place of the first element from `from` on that is true, or the length
/// if there is none.
pub open spec fn first_done(done: Seq<bool>, from: int) -> int
    decreases done.len() - from,
{
    if 0 <= from < done.len() {
        if done[from] {
            from
        } else {
            first_done(done, from + 1)
        }
    } else {
        done.len() as int
    }
}

/// The label that a scan for the node may use: its first.
pub open spec fn scan_label(node: PatternNodeView) -> Option<Token> {
    if node.labels.len() > 0 {
        Some(node.labels[0])
    } else {
        None
    }
}

/// The slot of the token in the active scope.
pub open spec fn slot_in(ctx: ContextView, tok: Token) -> Slot {
    ctx.scope->0.slot_for(tok) as usize
}

/// The direction seen from the other node.
pub open spec fn reverse_dir(dir: Option<Dir>) -> Option<Dir> {
    match dir {
        Some(d) => Some(d.reversed()),
        None => None,
    }
}

/// Where the planner stands while it solves a pattern graph.
pub struct Solving {
    pub ctx: ContextView,
    pub plan: PlanView,
    pub nodes_done: Seq<bool>,
    pub rels_done: Seq<bool>,
}

/// The expansion along the relationship `rel`, from its solved node to the
/// other: from the left node where that is solved, else from the right node,
/// with the direction reversed. The slots are asked for in the order source,
/// relationship, destination.
pub open spec fn expand_step(pg: PatternGraphView, s: Solving, c: int) -> Solving {
    let rel = pg.e[c];
    let from_left = node_solved(pg.v, s.nodes_done, rel.left_node);
    let src_tok = if from_left {
        rel.left_node
    } else {
        rel.right_node->0
    };
    let dst_tok = if from_left {
        rel.right_node->0
    } else {
        rel.left_node
    };
    let dir = if from_left {
        rel.dir
    } else {
        reverse_dir(rel.dir)
    };
    let ctx1 = s.ctx.with_slot(src_tok);
    let ctx2 = ctx1.with_slot(rel.identifier);
    let ctx3 = ctx2.with_slot(dst_tok);
    Solving {
        ctx: ctx3,
        plan: PlanView::Expand {
            src: Box::new(s.plan),
            src_slot: slot_in(s.ctx, src_tok),
            rel_slot: slot_in(ctx1, rel.identifier),
            dst_slot: slot_in(ctx2, dst_tok),
            rel_type: rel.rel_type,
            dir,
        },
        nodes_done: mark_node(pg.v, s.nodes_done, dst_tok),
        rels_done: s.rels_done.update(c, true),
    }
}

/// Direction reversal: where the left node of a relationship is not solved,
/// the expansion starts at its right node, ends at its left node, and sees
/// the direction from the other side, so that an outbound relationship is
/// expanded as an inbound one.
pub proof fn lemma_expand_from_right(pg: PatternGraphView, s: Solving, c: int)
    requires
        expandable(pg, s.nodes_done, s.rels_done, c),
        !node_solved(pg.v, s.nodes_done, pg.e[c].left_node),
    ensures
        expand_step(pg, s, c).plan == (PlanView::Expand {
            src: Box::new(s.plan),
            src_slot: slot_in(s.ctx, pg.e[c].right_node->0),
            rel_slot: slot_in(s.ctx.with_slot(pg.e[c].right_node->0), pg.e[c].identifier),
            dst_slot: slot_in(
                s.ctx.with_slot(pg.e[c].right_node->0).with_slot(pg.e[c].identifier),
                pg.e[c].left_node,
            ),
            rel_type: pg.e[c].rel_type,
            dir: reverse_dir(pg.e[c].dir),
        }),
        pg.e[c].dir == Some(Dir::Out) ==> reverse_dir(pg.e[c].dir) == Some(Dir::In),
        pg.e[c].dir == Some(Dir::In) ==> reverse_dir(pg.e[c].dir) == Some(Dir::Out),
        node_solved(pg.v, s.nodes_done, pg.e[c].right_node->0),
{
}

/// The cross product with a scan for the node at `p`, which nothing solved
/// connects to.
pub open spec fn nest_step(pg: PatternGraphView, s: Solving, p: int) -> Solving {
    let node = pg.v[p];
    Solving {
        ctx: s.ctx.with_slot(node.identifier),
        plan: PlanView::NestLoop {
            outer: Box::new(s.plan),
            inner: Box::new(
                PlanView::NodeScan {
                    src: Box::new(PlanView::Argument),
                    slot: slot_in(s.ctx, node.identifier),
                    labels: scan_label(node),
                },
            ),
            predicate: ExprView::Bool(true),
        },
        nodes_done: s.nodes_done.update(p, true),
        rels_done: s.rels_done,
    }
}

/// Solves what is left of the pattern graph: as long as a relationship can be
/// expanded, the first such is; else the first node that is not solved is
/// scanned and joined.
pub open spec fn solve_spec(pg: PatternGraphView, s: Solving) -> Solving
    decreases pending(s.nodes_done) + pending(s.rels_done),
{
    if s.nodes_done.len() != pg.v.len() || s.rels_done.len() != pg.e.len() {
        s
    } else {
        let c = candidate(pg, s.nodes_done, s.rels_done, 0);
        if 0 <= c < pg.e.len() && expandable(pg, s.nodes_done, s.rels_done, c) {
            proof {
                lemma_step_decreases(pg, s);
            }
            solve_spec(pg, expand_step(pg, s, c))
        } else {
            let p = first_pending(s.nodes_done, 0);
            if 0 <= p < pg.v.len() && !s.nodes_done[p] {
                proof {
                    lemma_step_decreases(pg, s);
                }
                solve_spec(pg, nest_step(pg, s, p))
            } else {
                s
            }
        }
    }
}

/// Each step of the solver leaves less to solve, and keeps the marks in step
/// with the graph.
pub proof fn lemma_step_decreases(pg: PatternGraphView, s: Solving)
    requires
        s.nodes_done.len() == pg.v.len(),
        s.rels_done.len() == pg.e.len(),
    ensures
        ({
            let c = candidate(pg, s.nodes_done, s.rels_done, 0);
            0 <= c < pg.e.len() && expandable(pg, s.nodes_done, s.rels_done, c) ==> {
                let t = expand_step(pg, s, c);
                &&& pending(t.nodes_done) + pending(t.rels_done) < pending(s.nodes_done) + pending(
                    s.rels_done,
                )
                &&& t.nodes_done.len() == pg.v.len()
                &&& t.rels_done.len() == pg.e.len()
            }
        }),
        ({
            let p = first_pending(s.nodes_done, 0);
            0 <= p < pg.v.len() && !s.nodes_done[p] ==> {
                let t = nest_step(pg, s, p);
                &&& pending(t.nodes_done) + pending(t.rels_done) < pending(s.nodes_done) + pending(
                    s.rels_done,
                )
                &&& t.nodes_done.len() == pg.v.len()
                &&& t.rels_done.len() == pg.e.len()
            }
        }),
{
    let c = candidate(pg, s.nodes_done, s.rels_done, 0);
    if 0 <= c < pg.e.len() && expandable(pg, s.nodes_done, s.rels_done, c) {
        lemma_pending_update(s.rels_done, c);
        let rel = pg.e[c];
        let from_left = node_solved(pg.v, s.nodes_done, rel.left_node);
        let dst_tok = if from_left {
            rel.right_node->0
        } else {
            rel.left_node
        };
        let i = node_index(pg.v, dst_tok, 0);
        if 0 <= i < s.nodes_done.len() {
            lemma_pending_update(s.nodes_done, i);
        }
    }
    let p = first_pending(s.nodes_done, 0);
    if 0 <= p < pg.v.len() && !s.nodes_done[p] {
        lemma_pending_update(s.nodes_done, p);
    }
}

/// The marks at the start: what the pattern says is solved.
pub open spec fn nodes_solved(v: Seq<PatternNodeView>) -> Seq<bool> {
    Seq::new(v.len(), |i: int| v[i].solved)
}

/// The marks at the start: what the pattern says is solved.
pub open spec fn rels_solved(e: Seq<PatternRelView>) -> Seq<bool> {
    Seq::new(e.len(), |i: int| e[i].solved)
}

/// Where the solver starts: from the plan so far if a node of the pattern is
/// solved already, else from a scan for the first node.
pub open spec fn seed_spec(pg: PatternGraphView, ctx: ContextView, src: PlanView) -> Solving {
    let nodes_done = nodes_solved(pg.v);
    let rels_done = rels_solved(pg.e);
    if first_done(nodes_done, 0) < nodes_done.len() || pg.v.len() == 0 {
        Solving { ctx, plan: src, nodes_done, rels_done }
    } else {
        Solving {
            ctx: ctx.with_slot(pg.v[0].identifier),
            plan: PlanView::NodeScan {
                src: Box::new(src),
                slot: slot_in(ctx, pg.v[0].identifier),
                labels: scan_label(pg.v[0]),
            },
            nodes_done: nodes_done.update(0, true),
            rels_done,
        }
    }
}

/// The checks that the entity in `slot` has the labels `labels[from..]`,
/// added to `acc`.
pub open spec fn label_checks(labels: Seq<Token>, from: int, slot: Slot, acc: Seq<ExprView>)
    -> Seq<ExprView>
    decreases labels.len() - from,
{
    if 0 <= from < labels.len() {
        label_checks(labels, from + 1, slot, acc.push(ExprView::HasLabel(slot, labels[from])))
    } else {
        acc
    }
}

/// The checks that the entity in `slot` has the properties `props[from..]`,
/// added to `acc`.
pub open spec fn prop_checks(props: Seq<MapEntryView>, from: int, slot: Slot, acc: Seq<ExprView>)
    -> Seq<ExprView>
    decreases props.len() - from,
{
    if 0 <= from < props.len() {
        prop_checks(
            props,
            from + 1,
            slot,
            acc.push(
                ExprView::BinaryOp {
                    left: Box::new(
                        ExprView::Prop(Box::new(ExprView::Slot(slot)), props[from].key),
                    ),
                    right: Box::new(props[from].val),
                    op: Op::Eq,
                },
            ),
        )
    } else {
        acc
    }
}

/// The plan filtered by all of `checks`: unchanged where there is none.
pub open spec fn filtered(plan: PlanView, checks: Seq<ExprView>) -> PlanView {
    if checks.len() == 0 {
        plan
    } else if checks.len() == 1 {
        PlanView::Selection { src: Box::new(plan), predicate: checks[0] }
    } else {
        PlanView::Selection { src: Box::new(plan), predicate: ExprView::And(checks) }
    }
}

/// The plan with a filter for each of the nodes `v[from..]` that asks for
/// labels or properties.
pub open spec fn node_filters(
    v: Seq<PatternNodeView>,
    from: int,
    ctx: ContextView,
    plan: PlanView,
) -> (ContextView, PlanView)
    decreases v.len() - from,
{
    if 0 <= from < v.len() {
        let slot = slot_in(ctx, v[from].identifier);
        let checks = prop_checks(
            v[from].props,
            0,
            slot,
            label_checks(v[from].labels, 0, slot, Seq::empty()),
        );
        node_filters(v, from + 1, ctx.with_slot(v[from].identifier), filtered(plan, checks))
    } else {
        (ctx, plan)
    }
}

/// The plan with a filter for each of the relationships `e[from..]` that asks
/// for properties.
pub open spec fn rel_filters(e: Seq<PatternRelView>, from: int, ctx: ContextView, plan: PlanView)
    -> (ContextView, PlanView)
    decreases e.len() - from,
{
    if 0 <= from < e.len() {
        let slot = slot_in(ctx, e[from].identifier);
        let checks = prop_checks(e[from].props, 0, slot, Seq::empty());
        rel_filters(e, from + 1, ctx.with_slot(e[from].identifier), filtered(plan, checks))
    } else {
        (ctx, plan)
    }
}

/// The plan that finds the pattern graph, on top of `src`: the seed, the
/// expansions and joins, the filters of the nodes, those of the
/// relationships, and the WHERE clause.
pub open spec fn match_subplan_spec(pg: PatternGraphView, ctx: ContextView, src: PlanView) -> (
    ContextView,
    PlanView,
) {
    let solved = solve_spec(pg, seed_spec(pg, ctx, src));
    let (ctx1, plan1) = node_filters(pg.v, 0, solved.ctx, solved.plan);
    let (ctx2, plan2) = rel_filters(pg.e, 0, ctx1, plan1);
    match pg.predicate {
        Some(predicate) => (ctx2, PlanView::Selection { src: Box::new(plan2), predicate }),
        None => (ctx2, plan2),
    }
}

/// The slots of the tokens `toks[from..]`, added to `acc`.
pub open spec fn slots_of(toks: Seq<Token>, from: int, ctx: ContextView, acc: Seq<Slot>) -> (
    ContextView,
    Seq<Slot>,
)
    decreases toks.len() - from,
{
    if 0 <= from < toks.len() {
        slots_of(toks, from + 1, ctx.with_slot(toks[from]), acc.push(slot_in(ctx, toks[from])))
    } else {
        (ctx, acc)
    }
}

/// The identifiers of the nodes `v[from..]` that were declared before the
/// pattern, added to `acc`.
pub open spec fn bound_nodes(v: Seq<PatternNodeView>, from: int, acc: Seq<Token>) -> Seq<Token>
    decreases v.len() - from,
{
    if 0 <= from < v.len() {
        bound_nodes(
            v,
            from + 1,
            if v[from].bound {
                acc.push(v[from].identifier)
            } else {
                acc
            },
        )
    } else {
        acc
    }
}

/// The identifiers of the relationships `e[from..]` that were declared before
/// the pattern, added to `acc`.
pub open spec fn bound_rels(e: Seq<PatternRelView>, from: int, acc: Seq<Token>) -> Seq<Token>
    decreases e.len() - from,
{
    if 0 <= from < e.len() {
        bound_rels(
            e,
            from + 1,
            if e[from].bound {
                acc.push(e[from].identifier)
            } else {
                acc
            },
        )
    } else {
        acc
    }
}

/// The identifiers of the pattern that were declared before it: those of its
/// nodes, then those of its relationships.
pub open spec fn bound_identifiers(pg: PatternGraphView) -> Seq<Token> {
    bound_rels(pg.e, 0, bound_nodes(pg.v, 0, Seq::empty()))
}

/// The plan of a pattern graph on top of `src`. A plain pattern gives its
/// subplan on `src`. An optional pattern that holds identifiers declared
/// before it gives its subplan on the driving row, applied to each row of
/// `src` in which the slots of those identifiers are non-null. Any other
/// optional pattern gives its subplan on `src`, with the slots of the
/// identifiers that it introduces set to null where it finds nothing.
pub open spec fn plan_pattern_spec(pg: PatternGraphView, ctx: ContextView, src: PlanView) -> (
    ContextView,
    PlanView,
) {
    if !pg.optional {
        match_subplan_spec(pg, ctx, src)
    } else if bound_identifiers(pg).len() > 0 {
        let (ctx1, rhs) = match_subplan_spec(pg, ctx, PlanView::Argument);
        let (ctx2, conditions) = slots_of(bound_identifiers(pg), 0, ctx1, Seq::empty());
        (
            ctx2,
            PlanView::ConditionalApply { lhs: Box::new(src), rhs: Box::new(rhs), conditions },
        )
    } else {
        let (ctx1, inner) = match_subplan_spec(pg, ctx, src);
        let (ctx2, slots) = slots_of(pg.unbound_identifiers, 0, ctx1, Seq::empty());
        (ctx2, PlanView::Optional { src: Box::new(inner), slots })
    }
}

/// The plan of a MATCH statement on top of `src`.
pub open spec fn plan_match_spec(
    stmt: ParseTree,
    ctx: ContextView,
    src: PlanView,
    bd: &BackendDesc,
) -> Outcome<PlanView> {
    let parsed = parse_pattern_graph_spec(stmt, ctx, bd);
    match parsed.result {
        Err(e) => fail(parsed.ctx, e),
        Ok(pg) => {
            let (ctx1, plan) = plan_pattern_spec(pg, parsed.ctx, src);
            done(ctx1, plan)
        },
    }
}

/// The place of the first node with the identifier `tok`.
fn node_position(pg: &PatternGraph, tok: Token) -> (i: usize)
    ensures
        i == node_index(pg@.v, tok, 0),
        i <= pg.v.len(),
{
    let mut i: usize = 0;
    while i < pg.v.len()
        invariant
            i <= pg.v.len(),
            node_index(pg@.v, tok, i as int) == node_index(pg@.v, tok, 0),
        decreases pg.v.len() - i,
    {
        if pg.v[i].identifier == tok {
            return i;
        }
        i += 1;
    }
    i
}

/// Whether the node with the identifier `tok` is solved.
fn is_solved(pg: &PatternGraph, nodes_done: &Vec<bool>, tok: Token) -> (solved: bool)
    ensures
        solved == node_solved(pg@.v, nodes_done@, tok),
{
    let i = node_position(pg, tok);
    i < nodes_done.len() && nodes_done[i]
}

/// The first relationship that can be expanded.
fn find_candidate(pg: &PatternGraph, nodes_done: &Vec<bool>, rels_done: &Vec<bool>) -> (c: usize)
    ensures
        c == candidate(pg@, nodes_done@, rels_done@, 0),
        c <= pg.e.len(),
        c < pg.e.len() ==> expandable(pg@, nodes_done@, rels_done@, c as int),
        c == pg.e.len() ==> !(0 <= c < pg.e.len() && expandable(
            pg@,
            nodes_done@,
            rels_done@,
            c as int,
        )),
{
    let mut i: usize = 0;
    while i < pg.e.len()
        invariant
            i <= pg.e.len(),
            candidate(pg@, nodes_done@, rels_done@, i as int) == candidate(
                pg@,
                nodes_done@,
                rels_done@,
                0,
            ),
        decreases pg.e.len() - i,
    {
        if i < rels_done.len() && !rels_done[i] {
            match pg.e[i].right_node {
                Some(right) => {
                    if is_solved(pg, nodes_done, pg.e[i].left_node) || is_solved(
                        pg,
                        nodes_done,
                        right,
                    ) {
                        return i;
                    }
                },
                None => {},
            }
        }
        i += 1;
    }
    i
}

/// The first element that is false.
fn find_pending(done: &Vec<bool>) -> (p: usize)
    ensures
        p == first_pending(done@, 0),
        p <= done.len(),
        p < done.len() ==> !done@[p as int],
{
    let mut i: usize = 0;
    while i < done.len()
        invariant
            i <= done.len(),
            first_pending(done@, i as int) == first_pending(done@, 0),
        decreases done.len() - i,
    {
        if !done[i] {
            return i;
        }
        i += 1;
    }
    i
}

/// The first element that is true.
fn find_done(done: &Vec<bool>) -> (p: usize)
    ensures
        p == first_done(done@, 0),
        p <= done.len(),
{
    let mut i: usize = 0;
    while i < done.len()
        invariant
            i <= done.len(),
            first_done(done@, i as int) == first_done(done@, 0),
        decreases done.len() - i,
    {
        if done[i] {
            return i;
        }
        i += 1;
    }
    i
}

/// The label that a scan for the node may use.
fn first_label(pg: &PatternGraph, i: usize) -> (label: Option<Token>)
    requires
        i < pg.v.len(),
    ensures
        label == scan_label(pg@.v[i as int]),
{
    if pg.v[i].labels.len() > 0 {
        Some(pg.v[i].labels[0])
    } else {
        None
    }
}

/// The marks of the pattern graph at the start.
fn initial_marks(pg: &PatternGraph) -> (marks: (Vec<bool>, Vec<bool>))
    ensures
        marks.0@ == nodes_solved(pg@.v),
        marks.1@ == rels_solved(pg@.e),
{
    let mut nodes_done: Vec<bool> = Vec::new();
    let mut i: usize = 0;
    while i < pg.v.len()
        invariant
            i <= pg.v.len(),
            nodes_done@.len() == i,
            forall|j: int| 0 <= j < i ==> nodes_done@[j] == pg@.v[j].solved,
        decreases pg.v.len() - i,
    {
        nodes_done.push(pg.v[i].solved);
        i += 1;
    }
    let mut rels_done: Vec<bool> = Vec::new();
    let mut k: usize = 0;
    while k < pg.e.len()
        invariant
            k <= pg.e.len(),
            rels_done@.len() == k,
            forall|j: int| 0 <= j < k ==> rels_done@[j] == pg@.e[j].solved,
        decreases pg.e.len() - k,
    {
        rels_done.push(pg.e[k].solved);
        k += 1;
    }
    assert(nodes_done@ =~= nodes_solved(pg@.v));
    assert(rels_done@ =~= rels_solved(pg@.e));
    (nodes_done, rels_done)
}

/// The direction seen from the other node.
fn reverse_of(dir: Option<Dir>) -> (r: Option<Dir>)
    ensures
        r == reverse_dir(dir),
{
    match dir {
        Some(d) => Some(d.reverse()),
        None => None,
    }
}

/// Solves what is left of the pattern graph, on top of `plan`.
fn solve(
    pc: &mut PlanningContext,
    plan: LogicalPlan,
    pg: &PatternGraph,
    nodes_done: Vec<bool>,
    rels_done: Vec<bool>,
) -> (solved: LogicalPlan)
    requires
        old(pc)@.active(),
        nodes_done.len() == pg.v.len(),
        rels_done.len() == pg.e.len(),
    ensures
        context_kept(*old(pc), *final(pc)),
        ({
            let spec = solve_spec(
                pg@,
                Solving {
                    ctx: old(pc)@,
                    plan: plan@,
                    nodes_done: nodes_done@,
                    rels_done: rels_done@,
                },
            );
            final(pc)@ == spec.ctx && solved@ == spec.plan
        }),
{
    let mut plan = plan;
    let mut nodes_done = nodes_done;
    let mut rels_done = rels_done;
    let ghost start = Solving {
        ctx: pc@,
        plan: plan@,
        nodes_done: nodes_done@,
        rels_done: rels_done@,
    };
    loop
        invariant
            context_kept(*old(pc), *pc),
            nodes_done.len() == pg.v.len(),
            rels_done.len() == pg.e.len(),
            solve_spec(
                pg@,
                Solving {
                    ctx: pc@,
                    plan: plan@,
                    nodes_done: nodes_done@,
                    rels_done: rels_done@,
                },
            ) == solve_spec(pg@, start),
        ensures
            context_kept(*old(pc), *pc),
            solve_spec(pg@, start) == (Solving {
                ctx: pc@,
                plan: plan@,
                nodes_done: nodes_done@,
                rels_done: rels_done@,
            }),
        decreases pending(nodes_done@) + pending(rels_done@),
    {
        let ghost now = Solving {
            ctx: pc@,
            plan: plan@,
            nodes_done: nodes_done@,
            rels_done: rels_done@,
        };
        proof {
            lemma_step_decreases(pg@, now);
        }
        let c = find_candidate(pg, &nodes_done, &rels_done);
        if c < pg.e.len() {
            let rel = &pg.e[c];
            let from_left = is_solved(pg, &nodes_done, rel.left_node);
            let right = match rel.right_node {
                Some(t) => t,
                None => vstd::pervasive::unreached(),
            };
            let src_tok = if from_left {
                rel.left_node
            } else {
                right
            };
            let dst_tok = if from_left {
                right
            } else {
                rel.left_node
            };
            let dir = if from_left {
                rel.dir
            } else {
                reverse_of(rel.dir)
            };
            let src_slot = pc.get_or_alloc_slot(src_tok);
            let rel_slot = pc.get_or_alloc_slot(rel.identifier);
            let dst_slot = pc.get_or_alloc_slot(dst_tok);
            plan =
            LogicalPlan::Expand {
                src: Box::new(plan),
                src_slot,
                rel_slot,
                dst_slot,
                rel_type: rel.rel_type,
                dir,
            };
            let di = node_position(pg, dst_tok);
            if di < nodes_done.len() {
                nodes_done.set(di, true);
            }
            rels_done.set(c, true);
            assert(Solving {
                ctx: pc@,
                plan: plan@,
                nodes_done: nodes_done@,
                rels_done: rels_done@,
            } == expand_step(pg@, now, c as int));
        } else {
            let p = find_pending(&nodes_done);
            if p < pg.v.len() {
                let slot = pc.get_or_alloc_slot(pg.v[p].identifier);
                plan =
                LogicalPlan::NestLoop {
                    outer: Box::new(plan),
                    inner: Box::new(
                        LogicalPlan::NodeScan {
                            src: Box::new(LogicalPlan::Argument),
                            slot,
                            labels: first_label(pg, p),
                        },
                    ),
                    predicate: Expr::Bool(true),
                };
                nodes_done.set(p, true);
                proof {
                    reveal_with_fuel(plan_model, 3);
                }
                assert(Solving {
                    ctx: pc@,
                    plan: plan@,
                    nodes_done: nodes_done@,
                    rels_done: rels_done@,
                } == nest_step(pg@, now, p as int));
            } else {
                break ;
            }
        }
    }
    plan
}

/// The plan filtered by all of `checks`.
fn filter(plan: LogicalPlan, checks: Vec<Expr>) -> (r: LogicalPlan)
    ensures
        r@ == filtered(plan@, exprs_view(checks@)),
{
    let mut checks = checks;
    if checks.len() == 0 {
        plan
    } else if checks.len() == 1 {
        match checks.pop() {
            Some(predicate) => LogicalPlan::Selection { src: Box::new(plan), predicate },
            None => vstd::pervasive::unreached(),
        }
    } else {
        LogicalPlan::Selection { src: Box::new(plan), predicate: Expr::And(checks) }
    }
}

/// Adds to `checks` the checks that the entity in `slot` has the labels.
fn push_label_checks(labels: &Vec<Token>, slot: Slot, checks: &mut Vec<Expr>)
    ensures
        exprs_view(final(checks)@) == label_checks(labels@, 0, slot, exprs_view(old(checks)@)),
{
    let mut i: usize = 0;
    while i < labels.len()
        invariant
            i <= labels.len(),
            label_checks(labels@, i as int, slot, exprs_view(checks@)) == label_checks(
                labels@,
                0,
                slot,
                exprs_view(old(checks)@),
            ),
        decreases labels.len() - i,
    {
        let check = Expr::HasLabel(slot, labels[i]);
        proof {
            lemma_exprs_view_push(checks@, check);
        }
        checks.push(check);
        i += 1;
    }
}

/// Adds to `checks` the checks that the entity in `slot` has the properties.
fn push_prop_checks(props: &Vec<MapEntryExpr>, slot: Slot, checks: &mut Vec<Expr>)
    ensures
        exprs_view(final(checks)@) == prop_checks(
            entries_view(props@),
            0,
            slot,
            exprs_view(old(checks)@),
        ),
{
    let mut i: usize = 0;
    while i < props.len()
        invariant
            i <= props.len(),
            prop_checks(entries_view(props@), i as int, slot, exprs_view(checks@)) == prop_checks(
                entries_view(props@),
                0,
                slot,
                exprs_view(old(checks)@),
            ),
        decreases props.len() - i,
    {
        let check = Expr::BinaryOp {
            left: Box::new(Expr::Prop(Box::new(Expr::Slot(slot)), props[i].key)),
            right: Box::new(props[i].val.duplicate()),
            op: Op::Eq,
        };
        proof {
            reveal_with_fuel(expr_model, 4);
            lemma_exprs_view_push(checks@, check);
        }
        checks.push(check);
        i += 1;
    }
}

/// Filters the plan by what the nodes of the pattern ask for.
fn filter_nodes(pc: &mut PlanningContext, plan: LogicalPlan, pg: &PatternGraph) -> (r: LogicalPlan)
    requires
        old(pc)@.active(),
    ensures
        context_kept(*old(pc), *final(pc)),
        (final(pc)@, r@) == node_filters(pg@.v, 0, old(pc)@, plan@),
{
    let ghost start = plan@;
    let mut plan = plan;
    let mut i: usize = 0;
    while i < pg.v.len()
        invariant
            i <= pg.v.len(),
            context_kept(*old(pc), *pc),
            node_filters(pg@.v, i as int, pc@, plan@) == node_filters(
                pg@.v,
                0,
                old(pc)@,
                start,
            ),
        decreases pg.v.len() - i,
    {
        let slot = pc.get_or_alloc_slot(pg.v[i].identifier);
        let mut checks: Vec<Expr> = Vec::new();
        assert(exprs_view(checks@) =~= Seq::empty());
        push_label_checks(&pg.v[i].labels, slot, &mut checks);
        push_prop_checks(&pg.v[i].props, slot, &mut checks);
        plan = filter(plan, checks);
        i += 1;
    }
    plan
}

/// Filters the plan by what the relationships of the pattern ask for.
fn filter_rels(pc: &mut PlanningContext, plan: LogicalPlan, pg: &PatternGraph) -> (r: LogicalPlan)
    requires
        old(pc)@.active(),
    ensures
        context_kept(*old(pc), *final(pc)),
        (final(pc)@, r@) == rel_filters(pg@.e, 0, old(pc)@, plan@),
{
    let ghost start = plan@;
    let mut plan = plan;
    let mut i: usize = 0;
    while i < pg.e.len()
        invariant
            i <= pg.e.len(),
            context_kept(*old(pc), *pc),
            rel_filters(pg@.e, i as int, pc@, plan@) == rel_filters(
                pg@.e,
                0,
                old(pc)@,
                start,
            ),
        decreases pg.e.len() - i,
    {
        let slot = pc.get_or_alloc_slot(pg.e[i].identifier);
        let mut checks: Vec<Expr> = Vec::new();
        assert(exprs_view(checks@) =~= Seq::empty());
        push_prop_checks(&pg.e[i].props, slot, &mut checks);
        plan = filter(plan, checks);
        i += 1;
    }
    plan
}

/// Plans how to find a pattern graph, on top of `src`.
pub fn plan_match_patterngraph(pc: &mut PlanningContext, src: LogicalPlan, pg: &PatternGraph) -> (r:
    LogicalPlan)
    requires
        old(pc)@.active(),
    ensures
        context_kept(*old(pc), *final(pc)),
        (final(pc)@, r@) == match_subplan_spec(pg@, old(pc)@, src@),
{
    let (nodes_done, rels_done) = initial_marks(pg);
    let mut nodes_done = nodes_done;
    let seeded = if find_done(&nodes_done) < nodes_done.len() || pg.v.len() == 0 {
        src
    } else {
        let slot = pc.get_or_alloc_slot(pg.v[0].identifier);
        nodes_done.set(0, true);
        LogicalPlan::NodeScan { src: Box::new(src), slot, labels: first_label(pg, 0) }
    };
    let solved = solve(pc, seeded, pg, nodes_done, rels_done);
    let with_nodes = filter_nodes(pc, solved, pg);
    let with_rels = filter_rels(pc, with_nodes, pg);
    match &pg.predicate {
        Some(predicate) => LogicalPlan::Selection {
            src: Box::new(with_rels),
            predicate: predicate.duplicate(),
        },
        None => with_rels,
    }
}

/// The slots of the tokens.
pub fn slots_for(pc: &mut PlanningContext, toks: &Vec<Token>) -> (slots: Vec<Slot>)
    requires
        old(pc)@.active(),
    ensures
        context_kept(*old(pc), *final(pc)),
        (final(pc)@, slots@) == slots_of(toks@, 0, old(pc)@, Seq::empty()),
{
    let mut slots: Vec<Slot> = Vec::new();
    let mut i: usize = 0;
    while i < toks.len()
        invariant
            i <= toks.len(),
            context_kept(*old(pc), *pc),
            slots_of(toks@, i as int, pc@, slots@) == slots_of(
                toks@,
                0,
                old(pc)@,
                Seq::empty(),
            ),
        decreases toks.len() - i,
    {
        let slot = pc.get_or_alloc_slot(toks[i]);
        slots.push(slot);
        i += 1;
    }
    slots
}

/// The identifiers of the pattern that were declared before it.
fn bound_ids(pg: &PatternGraph) -> (ids: Vec<Token>)
    ensures
        ids@ == bound_identifiers(pg@),
{
    let mut ids: Vec<Token> = Vec::new();
    let mut i: usize = 0;
    while i < pg.v.len()
        invariant
            i <= pg.v.len(),
            bound_nodes(pg@.v, i as int, ids@) == bound_nodes(pg@.v, 0, Seq::empty()),
        decreases pg.v.len() - i,
    {
        if pg.v[i].bound {
            ids.push(pg.v[i].identifier);
        }
        i += 1;
    }
    let ghost nodes = ids@;
    let mut k: usize = 0;
    while k < pg.e.len()
        invariant
            k <= pg.e.len(),
            bound_rels(pg@.e, k as int, ids@) == bound_rels(pg@.e, 0, nodes),
        decreases pg.e.len() - k,
    {
        if pg.e[k].bound {
            ids.push(pg.e[k].identifier);
        }
        k += 1;
    }
    ids
}

/// Plans a pattern graph, plain or optional, on top of `src`.
pub fn plan_pattern(pc: &mut PlanningContext, src: LogicalPlan, pg: &PatternGraph) -> (r:
    LogicalPlan)
    requires
        old(pc)@.active(),
    ensures
        context_kept(*old(pc), *final(pc)),
        (final(pc)@, r@) == plan_pattern_spec(pg@, old(pc)@, src@),
{
    if !pg.optional {
        return plan_match_patterngraph(pc, src, pg);
    }
    let bound = bound_ids(pg);
    if bound.len() > 0 {
        let rhs = plan_match_patterngraph(pc, LogicalPlan::Argument, pg);
        let conditions = slots_for(pc, &bound);
        LogicalPlan::ConditionalApply { lhs: Box::new(src), rhs: Box::new(rhs), conditions }
    } else {
        let inner = plan_match_patterngraph(pc, src, pg);
        let slots = slots_for(pc, &pg.unbound_identifiers);
        LogicalPlan::Optional { src: Box::new(inner), slots }
    }
}

/// Plans a MATCH statement on top of `src`.
pub fn plan_match(pc: &mut PlanningContext, src: LogicalPlan, match_stmt: &ParseNode) -> (r: Result<
    LogicalPlan,
    Error,
>)
    requires
        old(pc)@.active(),
    ensures
        context_kept(*old(pc), *final(pc)),
        ({
            let spec = plan_match_spec(match_stmt@, old(pc)@, src@, old(pc).backend_desc);
            match r {
                Ok(plan) => spec.result == Ok::<PlanView, ErrorKind>(plan@) && final(pc)@
                    == spec.ctx,
                Err(err) => spec.result == Err::<PlanView, ErrorKind>(err.kind),
            }
        }),
{
    match parse_pattern_graph(pc, match_stmt) {
        Err(e) => Err(e),
        Ok(pg) => Ok(plan_pattern(pc, src, &pg)),
    }
}

} // verus!
