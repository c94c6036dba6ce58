//! The planner of CREATE.

use vstd::prelude::*;
use crate::backend::BackendDesc;
use crate::error::{Error, ErrorKind};
use crate::frontend::context::{ContextView, PlanningContext};
use crate::frontend::expr::clone_entries;
use crate::frontend::expr_planner::{context_kept, done, fail, Outcome};
use crate::frontend::match_stmt::slot_in;
use crate::frontend::pattern::{
    parse_pattern_graph_spec, PatternGraph, PatternGraphView, PatternNodeView, PatternRelView,
};
use crate::frontend::pattern_builder::parse_pattern_graph;
use crate::frontend::plan::{
    node_specs_view, rel_specs_view, Dir, LogicalPlan, NodeSpec, NodeSpecView, PlanView, RelSpec,
    RelSpecView,
};
use crate::frontend::syntax::{ParseNode, ParseTree};

verus! {

/// The nodes to create among `v[from..]`, added to `acc`: those whose
/// identifier was not declared before the pattern. A node that was is a
/// reference to something known.
pub open spec fn nodes_to_create(
    v: Seq<PatternNodeView>,
    from: int,
    ctx: ContextView,
    acc: Seq<NodeSpecView>,
) -> (ContextView, Seq<NodeSpecView>)
    decreases v.len() - from,
{
    if 0 <= from < v.len() {
        if v[from].bound {
            nodes_to_create(v, from + 1, ctx, acc)
        } else {
            nodes_to_create(
                v,
                from + 1,
                ctx.with_slot(v[from].identifier),
                acc.push(
                    NodeSpecView {
                        slot: slot_in(ctx, v[from].identifier),
                        labels: v[from].labels,
                        props: v[from].props,
                    },
                ),
            )
        }
    } else {
        (ctx, acc)
    }
}

/// The relationship to create for `rel`. It must have a direction and a
/// type. It starts at the left node if it is outbound, at the right node if
/// it is inbound. The slots are asked for in the order relationship, left
/// node, right node.
pub open spec fn rel_to_create(rel: PatternRelView, ctx: ContextView) -> Outcome<RelSpecView> {
    if rel.right_node is None {
        fail(ctx, ErrorKind::UnexpectedRule)
    } else if rel.dir is None {
        fail(ctx, ErrorKind::UndirectedCreate)
    } else if rel.rel_type is None {
        fail(ctx, ErrorKind::UntypedCreate)
    } else {
        let ctx1 = ctx.with_slot(rel.identifier);
        let ctx2 = ctx1.with_slot(rel.left_node);
        let ctx3 = ctx2.with_slot(rel.right_node->0);
        let left = slot_in(ctx1, rel.left_node);
        let right = slot_in(ctx2, rel.right_node->0);
        done(
            ctx3,
            RelSpecView {
                slot: slot_in(ctx, rel.identifier),
                rel_type: rel.rel_type->0,
                start_node_slot: if rel.dir == Some(Dir::Out) {
                    left
                } else {
                    right
                },
                end_node_slot: if rel.dir == Some(Dir::Out) {
                    right
                } else {
                    left
                },
                props: rel.props,
            },
        )
    }
}

/// The relationships to create for `e[from..]`, added to `acc`.
pub open spec fn rels_to_create(
    e: Seq<PatternRelView>,
    from: int,
    ctx: ContextView,
    acc: Seq<RelSpecView>,
) -> Outcome<Seq<RelSpecView>>
    decreases e.len() - from,
{
    if 0 <= from < e.len() {
        let first = rel_to_create(e[from], ctx);
        match first.result {
            Ok(rel) => rels_to_create(e, from + 1, first.ctx, acc.push(rel)),
            Err(err) => fail(first.ctx, err),
        }
    } else {
        done(ctx, acc)
    }
}

/// The plan that creates what the pattern graph describes, for each row of
/// `src`.
pub open spec fn create_spec(pg: PatternGraphView, ctx: ContextView, src: PlanView) -> Outcome<
    PlanView,
> {
    let (ctx1, nodes) = nodes_to_create(pg.v, 0, ctx, Seq::empty());
    let rels = rels_to_create(pg.e, 0, ctx1, Seq::empty());
    match rels.result {
        Ok(rels_ok) => done(
            rels.ctx,
            PlanView::Create { src: Box::new(src), nodes, rels: rels_ok },
        ),
        Err(err) => fail(rels.ctx, err),
    }
}

/// The plan of a CREATE statement on top of `src`.
pub open spec fn plan_create_spec(
    stmt: ParseTree,
    ctx: ContextView,
    src: PlanView,
    bd: &BackendDesc,
) -> Outcome<PlanView> {
    let parsed = parse_pattern_graph_spec(stmt, ctx, bd);
    match parsed.result {
        Err(e) => fail(parsed.ctx, e),
        Ok(pg) => create_spec(pg, parsed.ctx, src),
    }
}

/// Plans the creation of what a pattern graph describes, for each row of
/// `src`.
pub fn plan_create_patterngraph(pc: &mut PlanningContext, src: LogicalPlan, pg: &PatternGraph) -> (r:
    Result<LogicalPlan, Error>)
    requires
        old(pc)@.active(),
    ensures
        context_kept(*old(pc), *final(pc)),
        ({
            let spec = create_spec(pg@, old(pc)@, src@);
            match r {
                Ok(plan) => spec.result == Ok::<PlanView, ErrorKind>(plan@) && final(pc)@
                    == spec.ctx,
                Err(err) => spec.result == Err::<PlanView, ErrorKind>(err.kind),
            }
        }),
{
    let mut nodes: Vec<NodeSpec> = Vec::new();
    assert(node_specs_view(nodes@) =~= Seq::empty());
    let mut i: usize = 0;
    while i < pg.v.len()
        invariant
            i <= pg.v.len(),
            context_kept(*old(pc), *pc),
            nodes_to_create(pg@.v, i as int, pc@, node_specs_view(nodes@)) == nodes_to_create(
                pg@.v,
                0,
                old(pc)@,
                Seq::empty(),
            ),
        decreases pg.v.len() - i,
    {
        if !pg.v[i].bound {
            let slot = pc.get_or_alloc_slot(pg.v[i].identifier);
            let spec = NodeSpec {
                slot,
                labels: pg.v[i].labels.clone(),
                props: clone_entries(&pg.v[i].props),
            };
            assert(node_specs_view(nodes@.push(spec)) =~= node_specs_view(nodes@).push(spec@));
            nodes.push(spec);
        }
        i += 1;
    }
    let ghost after_nodes = pc@;
    let mut rels: Vec<RelSpec> = Vec::new();
    assert(rel_specs_view(rels@) =~= Seq::empty());
    let mut k: usize = 0;
    while k < pg.e.len()
        invariant
            k <= pg.e.len(),
            context_kept(*old(pc), *pc),
            nodes_to_create(pg@.v, 0, old(pc)@, Seq::empty()) == (
                after_nodes,
                node_specs_view(nodes@),
            ),
            rels_to_create(pg@.e, k as int, pc@, rel_specs_view(rels@)) == rels_to_create(
                pg@.e,
                0,
                after_nodes,
                Seq::empty(),
            ),
        decreases pg.e.len() - k,
    {
        let rel = &pg.e[k];
        let right_node = match rel.right_node {
            Some(t) => t,
            None => {
                return Err(Error::new(ErrorKind::UnexpectedRule));
            },
        };
        let dir = match rel.dir {
            Some(d) => d,
            None => {
                return Err(Error::new(ErrorKind::UndirectedCreate));
            },
        };
        let rel_type = match rel.rel_type {
            Some(t) => t,
            None => {
                return Err(Error::new(ErrorKind::UntypedCreate));
            },
        };
        let slot = pc.get_or_alloc_slot(rel.identifier);
        let left = pc.get_or_alloc_slot(rel.left_node);
        let right = pc.get_or_alloc_slot(right_node);
        let (start_node_slot, end_node_slot) = match dir {
            Dir::Out => (left, right),
            Dir::In => (right, left),
        };
        let spec = RelSpec {
            slot,
            rel_type,
            start_node_slot,
            end_node_slot,
            props: clone_entries(&rel.props),
        };
        assert(rel_specs_view(rels@.push(spec)) =~= rel_specs_view(rels@).push(spec@));
        rels.push(spec);
        k += 1;
    }
    Ok(LogicalPlan::Create { src: Box::new(src), nodes, rels })
}

/// Plans a CREATE statement on top of `src`.
pub fn plan_create(pc: &mut PlanningContext, src: LogicalPlan, create_stmt: &ParseNode) -> (r:
    Result<LogicalPlan, Error>)
    requires
        old(pc)@.active(),
    ensures
        context_kept(*old(pc), *final(pc)),
        ({
            let spec = plan_create_spec(create_stmt@, old(pc)@, src@, old(pc).backend_desc);
            match r {
                Ok(plan) => spec.result == Ok::<PlanView, ErrorKind>(plan@) && final(pc)@
                    == spec.ctx,
                Err(err) => spec.result == Err::<PlanView, ErrorKind>(err.kind),
            }
        }),
{
    match parse_pattern_graph(pc, create_stmt) {
        Err(e) => Err(e),
        Ok(pg) => plan_create_patterngraph(pc, src, &pg),
    }
}

} // verus!
