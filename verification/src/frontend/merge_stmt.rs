//! The planner of MERGE: find the pattern, and create it where it is not
//! found.

use vstd::prelude::*;
use crate::backend::BackendDesc;
use crate::error::{Error, ErrorKind};
use crate::frontend::context::{ContextView, PlanningContext};
use crate::frontend::create_stmt::{create_spec, plan_create_patterngraph};
use crate::frontend::expr_planner::{context_kept, done, fail, Outcome};
use crate::frontend::match_stmt::{
    match_subplan_spec, plan_match_patterngraph, slots_for, slots_of,
};
use crate::frontend::pattern::{parse_pattern_graph_spec, PatternGraphView};
use crate::frontend::pattern_builder::parse_pattern_graph;
use crate::frontend::plan::{LogicalPlan, PlanView};
use crate::frontend::syntax::{ParseNode, ParseTree};

verus! {

/// The plan that merges a pattern graph: the plan that finds the pattern, and
/// for a row in which the slots of the identifiers that the pattern
/// introduces are null, the plan that creates it. Both start from the driving
/// row.
pub open spec fn merge_spec(pg: PatternGraphView, ctx: ContextView) -> Outcome<PlanView> {
    let (ctx1, lhs) = match_subplan_spec(pg, ctx, PlanView::Argument);
    let rhs = create_spec(pg, ctx1, PlanView::Argument);
    match rhs.result {
        Err(e) => fail(rhs.ctx, e),
        Ok(rhs_ok) => {
            let (ctx2, conditions) = slots_of(pg.unbound_identifiers, 0, rhs.ctx, Seq::empty());
            done(
                ctx2,
                PlanView::AntiConditionalApply {
                    lhs: Box::new(lhs),
                    rhs: Box::new(rhs_ok),
                    conditions,
                },
            )
        },
    }
}

/// The plan of a MERGE statement.
pub open spec fn plan_merge_spec(stmt: ParseTree, ctx: ContextView, bd: &BackendDesc) -> Outcome<
    PlanView,
> {
    let parsed = parse_pattern_graph_spec(stmt, ctx, bd);
    match parsed.result {
        Err(e) => fail(parsed.ctx, e),
        Ok(pg) => merge_spec(pg, parsed.ctx),
    }
}

/// Plans a MERGE statement. The plan starts from the driving row: what `src`
/// holds is not part of it.
pub fn plan_merge(pc: &mut PlanningContext, src: LogicalPlan, merge_stmt: &ParseNode) -> (r: Result<
    LogicalPlan,
    Error,
>)
    requires
        old(pc)@.active(),
    ensures
        context_kept(*old(pc), *final(pc)),
        ({
            let spec = plan_merge_spec(merge_stmt@, old(pc)@, old(pc).backend_desc);
            match r {
                Ok(plan) => spec.result == Ok::<PlanView, ErrorKind>(plan@) && final(pc)@
                    == spec.ctx,
                Err(err) => spec.result == Err::<PlanView, ErrorKind>(err.kind),
            }
        }),
{
    let pg = match parse_pattern_graph(pc, merge_stmt) {
        Err(e) => {
            return Err(e);
        },
        Ok(pg) => pg,
    };
    let lhs = plan_match_patterngraph(pc, LogicalPlan::Argument, &pg);
    let rhs = match plan_create_patterngraph(pc, LogicalPlan::Argument, &pg) {
        Err(e) => {
            return Err(e);
        },
        Ok(rhs) => rhs,
    };
    let conditions = slots_for(pc, &pg.unbound_identifiers);
    Ok(LogicalPlan::AntiConditionalApply { lhs: Box::new(lhs), rhs: Box::new(rhs), conditions })
}

} // verus!
