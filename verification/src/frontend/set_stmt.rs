//! The planner of SET.

use vstd::prelude::*;
use crate::backend::{BackendDesc, Tokens};
use crate::error::{Error, ErrorKind};
use crate::frontend::context::PlanningContext;

use crate::frontend::expr_planner::{
    context_kept, failed, in_context, lemma_children, names_in, names_of, plan_expr,
    plan_expr_spec, planned, Names, Planned,
};
use crate::frontend::plan::{actions_view, LogicalPlan, PlanView, SetAction, SetActionView};
use crate::frontend::scope::Scope;
use crate::frontend::syntax::{trees_view, ParseNode, ParseTree, Rule};

verus! {

/// The change that one assignment asks for. The names of the entity and of
/// the key are interned first, then the value is planned, and then the slot
/// of the entity is asked for.
pub open spec fn set_action_spec(assignment: ParseTree, names: Names, bd: &BackendDesc) -> Planned<
    SetActionView,
> {
    match assignment.rule {
        Rule::SingleAssignment => if assignment.children.len() < 3 {
            failed(names, ErrorKind::UnexpectedRule)
        } else {
            let entity = names.token(assignment.children[0].text);
            let names1 = names.tokenize(assignment.children[0].text);
            let key = names1.token(assignment.children[1].text);
            let names2 = names1.tokenize(assignment.children[1].text);
            let value = plan_expr_spec(assignment.children[2], names2, bd);
            match value.result {
                Ok(v) => planned(
                    value.names.with_slot(entity),
                    SetActionView::SingleAssign {
                        entity: value.names.slot_for(entity),
                        key,
                        value: v,
                    },
                ),
                Err(e) => failed(value.names, e),
            }
        },
        Rule::AppendAssignment | Rule::OverwriteAssignment => if assignment.children.len() < 2 {
            failed(names, ErrorKind::UnexpectedRule)
        } else {
            let entity = names.token(assignment.children[0].text);
            let names1 = names.tokenize(assignment.children[0].text);
            let value = plan_expr_spec(assignment.children[1], names1, bd);
            match value.result {
                Ok(v) => planned(
                    value.names.with_slot(entity),
                    if assignment.rule == Rule::AppendAssignment {
                        SetActionView::Append { entity: value.names.slot_for(entity), value: v }
                    } else {
                        SetActionView::Overwrite { entity: value.names.slot_for(entity), value: v }
                    },
                ),
                Err(e) => failed(value.names, e),
            }
        },
        _ => failed(names, ErrorKind::UnexpectedRule),
    }
}

/// The changes that the assignments `parts[from..]` ask for, added to `acc`.
pub open spec fn set_actions_spec(
    parts: Seq<ParseTree>,
    from: int,
    names: Names,
    bd: &BackendDesc,
    acc: Seq<SetActionView>,
) -> Planned<Seq<SetActionView>>
    decreases parts.len() - from,
{
    if 0 <= from < parts.len() {
        let first = set_action_spec(parts[from], names, bd);
        match first.result {
            Ok(action) => set_actions_spec(parts, from + 1, first.names, bd, acc.push(action)),
            Err(e) => failed(first.names, e),
        }
    } else {
        planned(names, acc)
    }
}

/// The plan of a SET statement on top of `src`.
pub open spec fn plan_set_spec(stmt: ParseTree, names: Names, src: PlanView, bd: &BackendDesc)
    -> Planned<PlanView> {
    let actions = set_actions_spec(stmt.children, 0, names, bd, Seq::empty());
    match actions.result {
        Ok(updates) => planned(
            actions.names,
            PlanView::SetProperties { src: Box::new(src), updates },
        ),
        Err(e) => failed(actions.names, e),
    }
}

/// Plans one assignment of a SET statement.
fn plan_assignment(scope: &mut Scope, tokens: &mut Tokens, bd: &BackendDesc, assignment: &ParseNode)
    -> (r: Result<SetAction, Error>)
    ensures
        final(scope).wf(),
        final(tokens).wf(),
        ({
            let spec = set_action_spec(assignment@, names_of(*old(tokens), *old(scope)), bd);
            match r {
                Ok(action) => spec.result == Ok::<SetActionView, ErrorKind>(action@) && names_of(
                    *final(tokens),
                    *final(scope),
                ) == spec.names,
                Err(err) => spec.result == Err::<SetActionView, ErrorKind>(err.kind),
            }
        }),
{
    proof {
        use_type_invariant(&*scope);
        use_type_invariant(&*tokens);
    }
    proof {
        lemma_children(*assignment);
    }
    match assignment.rule {
        Rule::SingleAssignment => {
            if assignment.children.len() < 3 {
                return Err(Error::new(ErrorKind::UnexpectedRule));
            }
            let entity = tokens.tokenize(assignment.children[0].text.as_str());
            let key = tokens.tokenize(assignment.children[1].text.as_str());
            match plan_expr(scope, tokens, bd, &assignment.children[2]) {
                Ok(value) => Ok(
                    SetAction::SingleAssign { entity: scope.get_or_alloc_slot(entity), key, value },
                ),
                Err(e) => Err(e),
            }
        },
        Rule::AppendAssignment => {
            if assignment.children.len() < 2 {
                return Err(Error::new(ErrorKind::UnexpectedRule));
            }
            let entity = tokens.tokenize(assignment.children[0].text.as_str());
            match plan_expr(scope, tokens, bd, &assignment.children[1]) {
                Ok(value) => Ok(
                    SetAction::Append { entity: scope.get_or_alloc_slot(entity), value },
                ),
                Err(e) => Err(e),
            }
        },
        Rule::OverwriteAssignment => {
            if assignment.children.len() < 2 {
                return Err(Error::new(ErrorKind::UnexpectedRule));
            }
            let entity = tokens.tokenize(assignment.children[0].text.as_str());
            match plan_expr(scope, tokens, bd, &assignment.children[1]) {
                Ok(value) => Ok(
                    SetAction::Overwrite { entity: scope.get_or_alloc_slot(entity), value },
                ),
                Err(e) => Err(e),
            }
        },
        _ => Err(Error::new(ErrorKind::UnexpectedRule)),
    }
}

/// Plans the assignments of a SET statement.
pub fn parse_set_clause(
    scope: &mut Scope,
    tokens: &mut Tokens,
    bd: &BackendDesc,
    set_stmt: &ParseNode,
) -> (r: Result<Vec<SetAction>, Error>)
    ensures
        final(scope).wf(),
        final(tokens).wf(),
        ({
            let spec = set_actions_spec(
                set_stmt@.children,
                0,
                names_of(*old(tokens), *old(scope)),
                bd,
                Seq::empty(),
            );
            match r {
                Ok(actions) => spec.result == Ok::<Seq<SetActionView>, ErrorKind>(
                    actions_view(actions@),
                ) && names_of(*final(tokens), *final(scope)) == spec.names,
                Err(err) => spec.result == Err::<Seq<SetActionView>, ErrorKind>(err.kind),
            }
        }),
{
    proof {
        use_type_invariant(&*scope);
        use_type_invariant(&*tokens);
    }
    proof {
        lemma_children(*set_stmt);
    }
    let mut actions: Vec<SetAction> = Vec::new();
    assert(actions_view(actions@) =~= Seq::empty());
    let mut i: usize = 0;
    while i < set_stmt.children.len()
        invariant
            i <= set_stmt.children.len(),
            scope.wf(),
            tokens.wf(),
            set_stmt@.children == trees_view(set_stmt.children@),
            set_actions_spec(
                set_stmt@.children,
                i as int,
                names_of(*tokens, *scope),
                bd,
                actions_view(actions@),
            ) == set_actions_spec(
                set_stmt@.children,
                0,
                names_of(*old(tokens), *old(scope)),
                bd,
                Seq::empty(),
            ),
        decreases set_stmt.children.len() - i,
    {
        match plan_assignment(scope, tokens, bd, &set_stmt.children[i]) {
            Ok(action) => {
                assert(actions_view(actions@.push(action)) =~= actions_view(actions@).push(
                    action@,
                ));
                actions.push(action);
            },
            Err(e) => {
                return Err(e);
            },
        }
        i += 1;
    }
    Ok(actions)
}

/// Plans a SET statement on top of `src`.
pub fn plan_set(pc: &mut PlanningContext, src: LogicalPlan, set_stmt: &ParseNode) -> (r: Result<
    LogicalPlan,
    Error,
>)
    requires
        old(pc)@.active(),
    ensures
        context_kept(*old(pc), *final(pc)),
        ({
            let spec = in_context(
                old(pc)@,
                plan_set_spec(set_stmt@, names_in(old(pc)@), src@, old(pc).backend_desc),
            );
            match r {
                Ok(plan) => spec.result == Ok::<PlanView, ErrorKind>(plan@) && final(pc)@
                    == spec.ctx,
                Err(err) => spec.result == Err::<PlanView, ErrorKind>(err.kind),
            }
        }),
{
    let mut scope = pc.detach_scope();
    let r = parse_set_clause(&mut scope, &mut pc.tokens, pc.backend_desc, set_stmt);
    pc.attach_scope(scope);
    match r {
        Ok(updates) => Ok(LogicalPlan::SetProperties { src: Box::new(src), updates }),
        Err(e) => Err(e),
    }
}

} // verus!
