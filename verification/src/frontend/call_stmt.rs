//! The planner of CALL.

use vstd::prelude::*;
use crate::backend::BackendDesc;
use crate::error::{Error, ErrorKind};
use crate::frontend::context::{ContextView, PlanningContext};

use crate::frontend::expr_planner::{
    context_kept, done, fail, in_context, lemma_children, names_in, plan_exprs, plan_exprs_spec,
    Outcome,
};
use crate::frontend::plan::{LogicalPlan, PlanView};
use crate::frontend::syntax::{ParseNode, ParseTree, Rule};

verus! {

/// The plan of a CALL statement on top of `src`: the name of the procedure is
/// interned and must be one that the backend describes; the arguments are
/// planned in the active scope, from left to right.
pub open spec fn plan_call_spec(stmt: ParseTree, ctx: ContextView, src: PlanView, bd: &BackendDesc)
    -> Outcome<PlanView> {
    if stmt.children.len() < 1 || stmt.children[0].rule != Rule::Id {
        fail(ctx, ErrorKind::UnexpectedRule)
    } else {
        let name = ctx.token(stmt.children[0].text);
        let ctx1 = ctx.tokenize(stmt.children[0].text);
        if bd.func_type_of(name) is None {
            fail(ctx1, ErrorKind::UnknownProcedure)
        } else {
            let args = in_context(
                ctx1,
                plan_exprs_spec(stmt.children, 1, names_in(ctx1), bd, Seq::empty()),
            );
            match args.result {
                Ok(args_ok) => done(
                    args.ctx,
                    PlanView::Call { src: Box::new(src), name, args: args_ok },
                ),
                Err(e) => fail(args.ctx, e),
            }
        }
    }
}

/// Plans a CALL statement on top of `src`.
pub fn plan_call(pc: &mut PlanningContext, src: LogicalPlan, call_stmt: &ParseNode) -> (r: Result<
    LogicalPlan,
    Error,
>)
    requires
        old(pc)@.active(),
    ensures
        context_kept(*old(pc), *final(pc)),
        ({
            let spec = plan_call_spec(call_stmt@, old(pc)@, src@, old(pc).backend_desc);
            match r {
                Ok(plan) => spec.result == Ok::<PlanView, ErrorKind>(plan@) && final(pc)@
                    == spec.ctx,
                Err(err) => spec.result == Err::<PlanView, ErrorKind>(err.kind),
            }
        }),
{
    proof {
        lemma_children(*call_stmt);
    }
    if call_stmt.children.len() < 1 || call_stmt.children[0].rule != Rule::Id {
        return Err(Error::new(ErrorKind::UnexpectedRule));
    }
    let name = pc.tokenize(call_stmt.children[0].text.as_str());
    if pc.backend_desc.find(name).is_none() {
        return Err(Error::new(ErrorKind::UnknownProcedure));
    }
    let mut scope = pc.detach_scope();
    let r = plan_exprs(&mut scope, &mut pc.tokens, pc.backend_desc, &call_stmt.children, 1);
    pc.attach_scope(scope);
    match r {
        Ok(args) => Ok(LogicalPlan::Call { src: Box::new(src), name, args }),
        Err(e) => Err(e),
    }
}

} // verus!
