//! The entry point of the frontend: from the text of a query to its plan.

use vstd::prelude::*;
use crate::backend::{BackendDesc, Tokens};
use crate::error::{Error, ErrorKind};
use crate::frontend::call_stmt::{plan_call, plan_call_spec};
use crate::frontend::context::{ContextView, PlanningContext};
use crate::frontend::create_stmt::{plan_create, plan_create_spec};
use crate::frontend::expr_planner::{
    context_kept, done, fail, in_context, lemma_children, names_in, Outcome,
};
use crate::frontend::match_stmt::{plan_match, plan_match_spec};
use crate::frontend::merge_stmt::{plan_merge, plan_merge_spec};
use crate::frontend::parse_shape::lemma_parsed_is_accepted;
use crate::frontend::parser::{parse_spec, CypherParser};
use crate::frontend::plan::{LogicalPlan, PlanView};
use crate::frontend::scope::ScopeView;
use crate::frontend::set_stmt::{plan_set, plan_set_spec};
use crate::frontend::syntax::{trees_view, ParseNode, ParseTree, Rule};
use crate::frontend::unwind_stmt::{plan_unwind, plan_unwind_spec};
use crate::frontend::with_stmt::{plan_projection_spec, plan_return, plan_with};

verus! {

/// The plan of one statement on top of `src`. The end of the input changes
/// nothing; a rule that is no statement is an error.
pub open spec fn plan_statement_spec(
    stmt: ParseTree,
    ctx: ContextView,
    src: PlanView,
    bd: &BackendDesc,
) -> Outcome<PlanView> {
    match stmt.rule {
        Rule::MatchStmt => plan_match_spec(stmt, ctx, src, bd),
        Rule::UnwindStmt => plan_unwind_spec(stmt, ctx, src, bd),
        Rule::CreateStmt => plan_create_spec(stmt, ctx, src, bd),
        Rule::MergeStmt => plan_merge_spec(stmt, ctx, bd),
        Rule::ReturnStmt => plan_projection_spec(stmt, ctx, src, bd, true),
        Rule::CallStmt => plan_call_spec(stmt, ctx, src, bd),
        Rule::WithStmt => plan_projection_spec(stmt, ctx, src, bd, false),
        Rule::SetStmt => in_context(ctx, plan_set_spec(stmt, names_in(ctx), src, bd)),
        Rule::Eoi => done(ctx, src),
        _ => fail(ctx, ErrorKind::UnexpectedRule),
    }
}

/// The plan of the statements `stmts[from..]`, each on top of the one before.
pub open spec fn plan_statements_spec(
    stmts: Seq<ParseTree>,
    from: int,
    ctx: ContextView,
    plan: PlanView,
    bd: &BackendDesc,
) -> Outcome<PlanView>
    decreases stmts.len() - from,
{
    if 0 <= from < stmts.len() {
        let first = plan_statement_spec(stmts[from], ctx, plan, bd);
        match first.result {
            Ok(next) => plan_statements_spec(stmts, from + 1, first.ctx, next, bd),
            Err(e) => fail(first.ctx, e),
        }
    } else {
        done(ctx, plan)
    }
}

/// The plan of a query: that of its statements, on top of the driving row.
pub open spec fn plan_query_spec(query: ParseTree, ctx: ContextView, bd: &BackendDesc) -> Outcome<
    PlanView,
> {
    plan_statements_spec(query.children, 0, ctx, PlanView::Argument, bd)
}

/// The plan of the text of a query: a syntax error where the text does not
/// follow the grammar, else the plan of its parse tree.
pub open spec fn plan_text_spec(text: Seq<char>, ctx: ContextView, bd: &BackendDesc) -> Outcome<
    PlanView,
> {
    match parse_spec(text) {
        Some(query) => plan_query_spec(query, ctx, bd),
        None => fail(ctx, ErrorKind::Syntax),
    }
}

/// Whether what a planner that works in a context returned, and the context
/// it left, are what `spec` says.
pub open spec fn plan_outcome(
    r: Result<LogicalPlan, Error>,
    after: ContextView,
    spec: Outcome<PlanView>,
) -> bool {
    match r {
        Ok(plan) => spec.result == Ok::<PlanView, ErrorKind>(plan@) && after == spec.ctx,
        Err(err) => spec.result == Err::<PlanView, ErrorKind>(err.kind),
    }
}

/// Plans one statement on top of `src`.
pub fn plan_statement(pc: &mut PlanningContext, src: LogicalPlan, stmt: &ParseNode) -> (r: Result<
    LogicalPlan,
    Error,
>)
    requires
        old(pc)@.active(),
    ensures
        context_kept(*old(pc), *final(pc)),
        plan_outcome(
            r,
            final(pc)@,
            plan_statement_spec(stmt@, old(pc)@, src@, old(pc).backend_desc),
        ),
{
    match stmt.rule {
        Rule::MatchStmt => plan_match(pc, src, stmt),
        Rule::UnwindStmt => plan_unwind(pc, src, stmt),
        Rule::CreateStmt => plan_create(pc, src, stmt),
        Rule::MergeStmt => plan_merge(pc, src, stmt),
        Rule::ReturnStmt => plan_return(pc, src, stmt),
        Rule::CallStmt => plan_call(pc, src, stmt),
        Rule::WithStmt => plan_with(pc, src, stmt),
        Rule::SetStmt => plan_set(pc, src, stmt),
        Rule::Eoi => Ok(src),
        _ => Err(Error::new(ErrorKind::UnexpectedRule)),
    }
}

/// Plans the statements of a query.
pub fn plan_query(pc: &mut PlanningContext, query: &ParseNode) -> (r: Result<LogicalPlan, Error>)
    requires
        old(pc)@.active(),
    ensures
        context_kept(*old(pc), *final(pc)),
        plan_outcome(r, final(pc)@, plan_query_spec(query@, old(pc)@, old(pc).backend_desc)),
{
    proof {
        lemma_children(*query);
    }
    let mut plan = LogicalPlan::Argument;
    let mut i: usize = 0;
    while i < query.children.len()
        invariant
            i <= query.children.len(),
            context_kept(*old(pc), *pc),
            query@.children == trees_view(query.children@),
            plan_statements_spec(query@.children, i as int, pc@, plan@, pc.backend_desc)
                == plan_query_spec(query@, old(pc)@, pc.backend_desc),
        decreases query.children.len() - i,
    {
        match plan_statement(pc, plan, &query.children[i]) {
            Ok(next) => {
                plan = next;
            },
            Err(e) => {
                return Err(e);
            },
        }
        i += 1;
    }
    Ok(plan)
}

/// The frontend: it holds the table of tokens between queries, and what is
/// known of the backend.
#[derive(Debug)]
pub struct Frontend {
    pub tokens: Tokens,
    pub backend_desc: BackendDesc,
}

impl Frontend {
    /// Plans a query in a fresh context. The tokens that planning interns
    /// stay in the table of the frontend. A query is refused for its syntax
    /// or for what it means, never as a malformed tree.
    pub fn plan(&mut self, query_str: &str) -> (r: Result<LogicalPlan, Error>)
        ensures
            final(self).backend_desc == old(self).backend_desc,
            ({
                let spec = plan_text_spec(
                    query_str@,
                    ContextView {
                        history: Seq::empty(),
                        scope: Some(ScopeView::empty()),
                        tokens: old(self).tokens@,
                        anon_rel_seq: 0,
                        anon_node_seq: 0,
                    },
                    &old(self).backend_desc,
                );
                match r {
                    Ok(plan) => spec.result == Ok::<PlanView, ErrorKind>(plan@)
                        && final(self).tokens@ == spec.ctx.tokens,
                    Err(err) => spec.result == Err::<PlanView, ErrorKind>(err.kind),
                }
            }),
            r matches Err(e) ==> e.kind != ErrorKind::UnexpectedRule,
    {
        let mut tokens = Tokens::new();
        core::mem::swap(&mut self.tokens, &mut tokens);
        let mut pc = PlanningContext::new(tokens, &self.backend_desc);
        let r = self.plan_in_context(query_str, &mut pc);
        let PlanningContext { tokens, .. } = pc;
        self.tokens = tokens;
        r
    }

    /// Plans a query in the given context.
    pub fn plan_in_context<'i, 'pc>(
        &self,
        query_str: &str,
        pc: &'i mut PlanningContext<'pc>,
    ) -> (r: Result<LogicalPlan, Error>)
        requires
            old(pc)@.active(),
        ensures
            context_kept(*old(pc), *final(pc)),
            plan_outcome(r, final(pc)@, plan_text_spec(query_str@, old(pc)@, old(pc).backend_desc)),
            r matches Err(e) ==> e.kind != ErrorKind::UnexpectedRule,
    {
        let parsed = CypherParser::parse(query_str);
        proof {
            lemma_parsed_is_accepted(query_str@, pc@, pc.backend_desc);
        }
        match parsed {
            Ok(query) => plan_query(pc, &query),
            Err(e) => Err(e),
        }
    }
}

} // verus!
