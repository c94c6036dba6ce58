//! The planner of UNWIND.

use vstd::prelude::*;
use crate::backend::BackendDesc;
use crate::error::{Error, ErrorKind};
use crate::frontend::context::{ContextView, PlanningContext};
use crate::frontend::expr_planner::{
    context_kept, done, fail, lemma_children, plan_expr_ctx, plan_expr_in, Outcome,
};
use crate::frontend::match_stmt::slot_in;
use crate::frontend::plan::{LogicalPlan, PlanView};
use crate::frontend::syntax::{ParseNode, ParseTree};

verus! {

/// The plan of an UNWIND statement on top of `src`: the list is planned in
/// the active scope, then the alias is declared and gets its slot.
pub open spec fn plan_unwind_spec(
    stmt: ParseTree,
    ctx: ContextView,
    src: PlanView,
    bd: &BackendDesc,
) -> Outcome<PlanView> {
    if stmt.children.len() < 2 {
        fail(ctx, ErrorKind::UnexpectedRule)
    } else {
        let list = plan_expr_ctx(stmt.children[0], ctx, bd);
        match list.result {
            Err(e) => fail(list.ctx, e),
            Ok(list_expr) => {
                let alias = list.ctx.token(stmt.children[1].text);
                let ctx1 = list.ctx.tokenize(stmt.children[1].text).declare_tok(alias);
                done(
                    ctx1.with_slot(alias),
                    PlanView::Unwind { src: Box::new(src), list_expr, alias: slot_in(ctx1, alias) },
                )
            },
        }
    }
}

/// Plans an UNWIND statement on top of `src`.
pub fn plan_unwind(pc: &mut PlanningContext, src: LogicalPlan, unwind_stmt: &ParseNode) -> (r:
    Result<LogicalPlan, Error>)
    requires
        old(pc)@.active(),
    ensures
        context_kept(*old(pc), *final(pc)),
        ({
            let spec = plan_unwind_spec(unwind_stmt@, old(pc)@, src@, old(pc).backend_desc);
            match r {
                Ok(plan) => spec.result == Ok::<PlanView, ErrorKind>(plan@) && final(pc)@
                    == spec.ctx,
                Err(err) => spec.result == Err::<PlanView, ErrorKind>(err.kind),
            }
        }),
{
    proof {
        lemma_children(*unwind_stmt);
    }
    if unwind_stmt.children.len() < 2 {
        return Err(Error::new(ErrorKind::UnexpectedRule));
    }
    let list_expr = match plan_expr_in(pc, &unwind_stmt.children[0]) {
        Ok(e) => e,
        Err(e) => {
            return Err(e);
        },
    };
    let alias_token = pc.declare(unwind_stmt.children[1].text.as_str());
    let alias = pc.get_or_alloc_slot(alias_token);
    Ok(LogicalPlan::Unwind { src: Box::new(src), list_expr, alias })
}

} // verus!
