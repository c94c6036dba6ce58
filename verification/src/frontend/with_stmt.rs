//! The planner of WITH and RETURN: a projection from the scope so far into a
//! new one.

use vstd::prelude::*;
use crate::backend::{intern_table, BackendDesc, Token, Tokens};
use crate::error::{Error, ErrorKind};
use crate::frontend::context::{ContextView, PlanningContext};
use crate::frontend::expr::{
    entries_view, exprs_view, Expr, ExprView, MapEntryExpr, MapEntryView,
};
use crate::frontend::expr_planner::{
    context_kept, done, fail, failed, lemma_children, names_of, plan_expr, plan_expr_spec,
    plan_exprs, plan_exprs_spec, planned, Names, Outcome, Planned,
};
use crate::frontend::plan::{
    opt_expr_view, projections_view, slotted_view, LogicalPlan, PlanView, Projection,
    ProjectionView,
};
use crate::frontend::scope::{Scope, ScopeView};
use crate::frontend::syntax::{trees_view, ParseNode, ParseTree, Rule};
use crate::value::Slot;

verus! {

/// Whether the expression holds a call of a function that works over a group
/// of rows.
pub open spec fn is_aggregating(e: ExprView) -> bool
    decreases e,
{
    match e {
        ExprView::And(items) => any_aggregating(items, 0),
        ExprView::Or(items) => any_aggregating(items, 0),
        ExprView::List(items) => any_aggregating(items, 0),
        ExprView::Not(inner) => is_aggregating(*inner),
        ExprView::Negate(inner) => is_aggregating(*inner),
        ExprView::BinaryOp { left, right, op } => is_aggregating(*left) || is_aggregating(*right),
        ExprView::MapLit(entries) => any_entry_aggregating(entries, 0),
        ExprView::Prop(inner, key) => is_aggregating(*inner),
        ExprView::FuncCall { name, args, aggregating } => aggregating || any_aggregating(args, 0),
        _ => false,
    }
}

/// Whether one of `items[from..]` holds such a call.
pub open spec fn any_aggregating(items: Seq<ExprView>, from: int) -> bool
    decreases items, items.len() - from,
{
    if 0 <= from < items.len() {
        is_aggregating(items[from]) || any_aggregating(items, from + 1)
    } else {
        false
    }
}

/// Whether the value of one of `entries[from..]` holds such a call.
pub open spec fn any_entry_aggregating(entries: Seq<MapEntryView>, from: int) -> bool
    decreases entries, entries.len() - from,
{
    if 0 <= from < entries.len() {
        is_aggregating(entries[from].val) || any_entry_aggregating(entries, from + 1)
    } else {
        false
    }
}

/// Where a projection stands: the table of tokens, the scope that it reads
/// and the scope that it fills.
pub struct Boundary {
    pub tokens: Seq<Seq<char>>,
    pub old_scope: ScopeView,
    pub new_scope: ScopeView,
}

impl Boundary {
    /// The names as the expressions of the projection see them.
    pub open spec fn reading(self) -> Names {
        Names { tokens: self.tokens, scope: self.old_scope }
    }

    /// The names as what follows the projection sees them.
    pub open spec fn filling(self) -> Names {
        Names { tokens: self.tokens, scope: self.new_scope }
    }

    /// The boundary once the alias has been declared in the new scope and
    /// has its slot there.
    pub open spec fn bind(self, alias: Token) -> Boundary {
        Boundary { new_scope: self.new_scope.declare(alias).with_slot(alias), ..self }
    }

    /// The slot of the alias in the new scope.
    pub open spec fn dst(self, alias: Token) -> Slot {
        self.new_scope.slot_for(alias) as usize
    }
}

/// What a step of a projection comes to.
pub struct Projected<T> {
    pub at: Boundary,
    pub result: Result<T, ErrorKind>,
}

/// One projection for each of the identifiers `named[from..]`, added to
/// `acc`: its value is read from its slot in the old scope, its name stays.
pub open spec fn project_all_spec(
    named: Seq<Token>,
    from: int,
    at: Boundary,
    acc: Seq<ProjectionView>,
) -> (Boundary, Seq<ProjectionView>)
    decreases named.len() - from,
{
    if 0 <= from < named.len() {
        let tok = named[from];
        let read = Boundary { old_scope: at.old_scope.with_slot(tok), ..at };
        project_all_spec(
            named,
            from + 1,
            read.bind(tok),
            acc.push(
                ProjectionView {
                    expr: ExprView::Slot(at.old_scope.slot_for(tok) as usize),
                    alias: tok,
                    dst: at.dst(tok),
                },
            ),
        )
    } else {
        (at, acc)
    }
}

/// The names of the projections.
pub open spec fn aliases(projections: Seq<ProjectionView>) -> Seq<Token> {
    Seq::new(projections.len(), |i: int| projections[i].alias)
}

/// Wildcard projection: the projections for `*` carry exactly the named
/// identifiers of the old scope, in the order of their declaration, after the
/// projections that stood before.
pub proof fn lemma_project_all(
    named: Seq<Token>,
    from: int,
    at: Boundary,
    acc: Seq<ProjectionView>,
)
    requires
        0 <= from <= named.len(),
    ensures
        aliases(project_all_spec(named, from, at, acc).1) == aliases(acc) + named.subrange(
            from,
            named.len() as int,
        ),
        project_all_spec(named, from, at, acc).0.tokens == at.tokens,
        project_all_spec(named, from, at, acc).0.old_scope.named == at.old_scope.named,
    decreases named.len() - from,
{
    if from < named.len() {
        let tok = named[from];
        let read = Boundary { old_scope: at.old_scope.with_slot(tok), ..at };
        let next = acc.push(
            ProjectionView {
                expr: ExprView::Slot(at.old_scope.slot_for(tok) as usize),
                alias: tok,
                dst: at.dst(tok),
            },
        );
        lemma_project_all(named, from + 1, read.bind(tok), next);
        assert(aliases(next) + named.subrange(from + 1, named.len() as int) =~= aliases(acc)
            + named.subrange(from, named.len() as int));
    } else {
        assert(aliases(acc) + named.subrange(from, named.len() as int) =~= aliases(acc));
    }
}

/// One projection `expr [AS alias]`: the expression is planned in the old
/// scope; the alias, which is the text of the expression where none is
/// given, is interned, declared in the new scope and gets its slot there.
pub open spec fn projection_spec(part: ParseTree, at: Boundary, bd: &BackendDesc) -> Projected<
    ProjectionView,
> {
    if part.children.len() < 1 {
        Projected { at, result: Err(ErrorKind::UnexpectedRule) }
    } else {
        let e = plan_expr_spec(part.children[0], at.reading(), bd);
        let read = Boundary { tokens: e.names.tokens, old_scope: e.names.scope, ..at };
        match e.result {
            Err(err) => Projected { at: read, result: Err(err) },
            Ok(expr) => {
                let text = if part.children.len() >= 2 {
                    part.children[1].text
                } else {
                    part.children[0].text
                };
                let alias = read.reading().token(text);
                let named = Boundary { tokens: intern_table(read.tokens, text), ..read };
                Projected {
                    at: named.bind(alias),
                    result: Ok(ProjectionView { expr, alias, dst: named.dst(alias) }),
                }
            },
        }
    }
}

/// The projections that the parts `parts[from..]` of a statement ask for,
/// added to `acc`. The clauses that follow the projections are passed over;
/// any other rule is an error.
pub open spec fn projections_spec(
    parts: Seq<ParseTree>,
    from: int,
    at: Boundary,
    bd: &BackendDesc,
    acc: Seq<ProjectionView>,
) -> Projected<Seq<ProjectionView>>
    decreases parts.len() - from,
{
    if 0 <= from < parts.len() {
        match parts[from].rule {
            Rule::Projection => {
                let p = projection_spec(parts[from], at, bd);
                match p.result {
                    Ok(projection) => projections_spec(
                        parts,
                        from + 1,
                        p.at,
                        bd,
                        acc.push(projection),
                    ),
                    Err(e) => Projected { at: p.at, result: Err(e) },
                }
            },
            Rule::ProjectAll => {
                let (at1, acc1) = project_all_spec(at.old_scope.named, 0, at, acc);
                projections_spec(parts, from + 1, at1, bd, acc1)
            },
            Rule::OrderClause | Rule::SkipClause | Rule::LimitClause | Rule::WhereClause =>
                projections_spec(parts, from + 1, at, bd, acc),
            _ => Projected { at, result: Err(ErrorKind::UnexpectedRule) },
        }
    } else {
        Projected { at, result: Ok(acc) }
    }
}

/// Whether one of `projections[from..]` aggregates.
pub open spec fn has_aggregation(projections: Seq<ProjectionView>, from: int) -> bool
    decreases projections.len() - from,
{
    if 0 <= from < projections.len() {
        is_aggregating(projections[from].expr) || has_aggregation(projections, from + 1)
    } else {
        false
    }
}

/// Those of `projections[from..]` whose expression aggregates, if
/// `aggregating`, else the others; each with its slot, added to `acc`.
pub open spec fn select_projections(
    projections: Seq<ProjectionView>,
    from: int,
    aggregating: bool,
    acc: Seq<(ExprView, Slot)>,
) -> Seq<(ExprView, Slot)>
    decreases projections.len() - from,
{
    if 0 <= from < projections.len() {
        select_projections(
            projections,
            from + 1,
            aggregating,
            if is_aggregating(projections[from].expr) == aggregating {
                acc.push((projections[from].expr, projections[from].dst))
            } else {
                acc
            },
        )
    } else {
        acc
    }
}

/// The operator that evaluates the projections on `src`: an aggregation if
/// one of them aggregates, with the others as the grouping key.
pub open spec fn projected(src: PlanView, projections: Seq<ProjectionView>) -> PlanView {
    if has_aggregation(projections, 0) {
        PlanView::Aggregate {
            src: Box::new(src),
            grouping: select_projections(projections, 0, false, Seq::empty()),
            aggregations: select_projections(projections, 0, true, Seq::empty()),
        }
    } else {
        PlanView::Project { src: Box::new(src), projections }
    }
}

/// Aggregation grouping: the selection takes each projection of the asked
/// kind, and no other.
pub proof fn lemma_select_projections(
    projections: Seq<ProjectionView>,
    from: int,
    aggregating: bool,
    acc: Seq<(ExprView, Slot)>,
)
    requires
        0 <= from <= projections.len(),
    ensures
        (forall|i: int|
            from <= i < projections.len() ==> is_aggregating(#[trigger] projections[i].expr)
                != aggregating) ==> select_projections(projections, from, aggregating, acc) == acc,
        (forall|i: int|
            from <= i < projections.len() ==> is_aggregating(#[trigger] projections[i].expr)
                == aggregating) ==> select_projections(projections, from, aggregating, acc) == acc
            + Seq::new(
            (projections.len() - from) as nat,
            |i: int| (projections[from + i].expr, projections[from + i].dst),
        ),
    decreases projections.len() - from,
{
    if from < projections.len() {
        let next = if is_aggregating(projections[from].expr) == aggregating {
            acc.push((projections[from].expr, projections[from].dst))
        } else {
            acc
        };
        lemma_select_projections(projections, from + 1, aggregating, next);
        if forall|i: int|
            from <= i < projections.len() ==> is_aggregating(#[trigger] projections[i].expr)
                == aggregating {
            assert(next + Seq::new(
                (projections.len() - (from + 1)) as nat,
                |i: int| (projections[from + 1 + i].expr, projections[from + 1 + i].dst),
            ) =~= acc + Seq::new(
                (projections.len() - from) as nat,
                |i: int| (projections[from + i].expr, projections[from + i].dst),
            ));
        }
    } else {
        assert(acc + Seq::new(
            (projections.len() - from) as nat,
            |i: int| (projections[from + i].expr, projections[from + i].dst),
        ) =~= acc);
    }
}

/// The place of the first of `parts[from..]` with the rule `rule`, or the
/// number of parts if there is none.
pub open spec fn clause_index(parts: Seq<ParseTree>, rule: Rule, from: int) -> int
    decreases parts.len() - from,
{
    if 0 <= from < parts.len() {
        if parts[from].rule == rule {
            from
        } else {
            clause_index(parts, rule, from + 1)
        }
    } else {
        parts.len() as int
    }
}

/// The expression of the first clause with the rule `rule`, if there is one,
/// planned with the names `names`.
pub open spec fn clause_expr_spec(
    parts: Seq<ParseTree>,
    rule: Rule,
    names: Names,
    bd: &BackendDesc,
) -> Planned<Option<ExprView>> {
    let i = clause_index(parts, rule, 0);
    if 0 <= i < parts.len() {
        if parts[i].children.len() < 1 {
            failed(names, ErrorKind::UnexpectedRule)
        } else {
            let e = plan_expr_spec(parts[i].children[0], names, bd);
            match e.result {
                Ok(expr) => planned(e.names, Some(expr)),
                Err(err) => failed(e.names, err),
            }
        }
    } else {
        planned(names, None)
    }
}

/// The plan with the order that the statement asks for, if it asks for one.
pub open spec fn order_spec(parts: Seq<ParseTree>, names: Names, plan: PlanView, bd: &BackendDesc)
    -> Planned<PlanView> {
    let o = clause_index(parts, Rule::OrderClause, 0);
    if 0 <= o < parts.len() {
        let keys = plan_exprs_spec(parts[o].children, 0, names, bd, Seq::empty());
        match keys.result {
            Ok(sort_by) => planned(keys.names, PlanView::Sort { src: Box::new(plan), sort_by }),
            Err(e) => failed(keys.names, e),
        }
    } else {
        planned(names, plan)
    }
}

/// The plan with the bounds on the number of rows that the statement asks
/// for, if it asks for any.
pub open spec fn limit_spec(parts: Seq<ParseTree>, names: Names, plan: PlanView, bd: &BackendDesc)
    -> Planned<PlanView> {
    let skip = clause_expr_spec(parts, Rule::SkipClause, names, bd);
    match skip.result {
        Err(e) => failed(skip.names, e),
        Ok(skip_expr) => {
            let limit = clause_expr_spec(parts, Rule::LimitClause, skip.names, bd);
            match limit.result {
                Err(e) => failed(limit.names, e),
                Ok(limit_expr) => planned(
                    limit.names,
                    if skip_expr is Some || limit_expr is Some {
                        PlanView::Limit { src: Box::new(plan), skip: skip_expr, limit: limit_expr }
                    } else {
                        plan
                    },
                ),
            }
        },
    }
}

/// The plan with the condition that the statement asks for, if it asks for
/// one.
pub open spec fn condition_spec(
    parts: Seq<ParseTree>,
    names: Names,
    plan: PlanView,
    bd: &BackendDesc,
) -> Planned<PlanView> {
    let cond = clause_expr_spec(parts, Rule::WhereClause, names, bd);
    match cond.result {
        Err(e) => failed(cond.names, e),
        Ok(Some(predicate)) => planned(
            cond.names,
            PlanView::Selection { src: Box::new(plan), predicate },
        ),
        Ok(None) => planned(cond.names, plan),
    }
}

/// The plan with the clauses that follow the projections, each on top of the
/// one before: the order, then skip and limit, then the condition. Their
/// expressions are planned in the new scope.
pub open spec fn clauses_spec(
    parts: Seq<ParseTree>,
    names: Names,
    plan: PlanView,
    bd: &BackendDesc,
) -> Planned<PlanView> {
    let sorted = order_spec(parts, names, plan, bd);
    match sorted.result {
        Err(e) => failed(sorted.names, e),
        Ok(sorted_plan) => {
            let limited = limit_spec(parts, sorted.names, sorted_plan, bd);
            match limited.result {
                Err(e) => failed(limited.names, e),
                Ok(limited_plan) => condition_spec(parts, limited.names, limited_plan, bd),
            }
        },
    }
}

/// The fields that the projections give to the result.
pub open spec fn fields_of(projections: Seq<ProjectionView>) -> Seq<(Token, Slot)> {
    Seq::new(projections.len(), |i: int| (projections[i].alias, projections[i].dst))
}

/// What a statement that projects comes to, from the boundary `at` on: the
/// projections, the operator that evaluates them on `src`, and the clauses on
/// top; for a statement that returns rows, the result on top of all.
pub open spec fn boundary_spec(
    stmt: ParseTree,
    at: Boundary,
    src: PlanView,
    bd: &BackendDesc,
    produce: bool,
) -> Projected<PlanView> {
    let ps = projections_spec(stmt.children, 0, at, bd, Seq::empty());
    match ps.result {
        Err(e) => Projected { at: ps.at, result: Err(e) },
        Ok(projections) => {
            let c = clauses_spec(stmt.children, ps.at.filling(), projected(src, projections), bd);
            let end = Boundary { tokens: c.names.tokens, new_scope: c.names.scope, ..ps.at };
            match c.result {
                Err(e) => Projected { at: end, result: Err(e) },
                Ok(plan) => Projected {
                    at: end,
                    result: Ok(
                        if produce {
                            PlanView::ProduceResult {
                                src: Box::new(plan),
                                fields: fields_of(projections),
                            }
                        } else {
                            plan
                        },
                    ),
                },
            }
        },
    }
}

/// The plan of a WITH statement, or of a RETURN statement if `produce` is set, on top
/// of `src`. The scope so far is retired and the new scope becomes the active
/// one.
pub open spec fn plan_projection_spec(
    stmt: ParseTree,
    ctx: ContextView,
    src: PlanView,
    bd: &BackendDesc,
    produce: bool,
) -> Outcome<PlanView> {
    let at = Boundary {
        tokens: ctx.tokens,
        old_scope: ctx.scope->0,
        new_scope: ScopeView::empty(),
    };
    let b = boundary_spec(stmt, at, src, bd, produce);
    match b.result {
        Err(e) => fail(ctx, e),
        Ok(plan) => done(
            ContextView {
                history: ctx.history.push(b.at.old_scope),
                scope: Some(b.at.new_scope),
                tokens: b.at.tokens,
                ..ctx
            },
            plan,
        ),
    }
}

/// Whether the expression holds a call of a function that works over a group
/// of rows.
pub fn expr_aggregates(e: &Expr) -> (r: bool)
    ensures
        r == is_aggregating(e@),
    decreases e, 1nat,
{
    match e {
        Expr::And(items) => any_aggregates(items),
        Expr::Or(items) => any_aggregates(items),
        Expr::List(items) => any_aggregates(items),
        Expr::Not(inner) => expr_aggregates(inner),
        Expr::Negate(inner) => expr_aggregates(inner),
        Expr::BinaryOp { left, right, op } => expr_aggregates(left) || expr_aggregates(right),
        Expr::MapLit(entries) => any_entry_aggregates(entries),
        Expr::Prop(inner, key) => expr_aggregates(inner),
        Expr::FuncCall { name, args, aggregating } => *aggregating || any_aggregates(args),
        _ => false,
    }
}

/// Whether one of the expressions holds such a call.
fn any_aggregates(items: &Vec<Expr>) -> (r: bool)
    ensures
        r == any_aggregating(exprs_view(items@), 0),
    decreases items, 0nat,
{
    let mut i: usize = 0;
    while i < items.len()
        invariant
            i <= items.len(),
            any_aggregating(exprs_view(items@), i as int) == any_aggregating(
                exprs_view(items@),
                0,
            ),
        decreases items.len() - i,
    {
        if expr_aggregates(&items[i]) {
            return true;
        }
        i += 1;
    }
    false
}

/// Whether the value of one of the entries holds such a call.
fn any_entry_aggregates(entries: &Vec<MapEntryExpr>) -> (r: bool)
    ensures
        r == any_entry_aggregating(entries_view(entries@), 0),
    decreases entries, 0nat,
{
    let mut i: usize = 0;
    while i < entries.len()
        invariant
            i <= entries.len(),
            any_entry_aggregating(entries_view(entries@), i as int) == any_entry_aggregating(
                entries_view(entries@),
                0,
            ),
        decreases entries.len() - i,
    {
        if expr_aggregates(&entries[i].val) {
            return true;
        }
        i += 1;
    }
    false
}

/// The boundary that a table of tokens and two scopes stand at.
pub open spec fn boundary_of(tokens: Tokens, old_scope: Scope, new_scope: Scope) -> Boundary {
    Boundary { tokens: tokens@, old_scope: old_scope@, new_scope: new_scope@ }
}

/// Adds one projection for each named identifier of the old scope.
fn project_all(
    old_scope: &mut Scope,
    new_scope: &mut Scope,
    Ghost(tokens): Ghost<Seq<Seq<char>>>,
    acc: &mut Vec<Projection>,
)
    ensures
        final(old_scope).wf(),
        final(new_scope).wf(),
        ({
            let at = Boundary { tokens, old_scope: old(old_scope)@, new_scope: old(new_scope)@ };
            let end = Boundary { tokens, old_scope: final(old_scope)@, new_scope: final(new_scope)@ };
            (end, projections_view(final(acc)@)) == project_all_spec(
                at.old_scope.named,
                0,
                at,
                projections_view(old(acc)@),
            )
        }),
{
    proof {
        use_type_invariant(&*old_scope);
        use_type_invariant(&*new_scope);
    }
    let named = old_scope.named().clone();
    let mut i: usize = 0;
    while i < named.len()
        invariant
            i <= named.len(),
            old_scope.wf(),
            new_scope.wf(),
            named@ == old(old_scope)@.named,
            project_all_spec(
                named@,
                i as int,
                Boundary { tokens, old_scope: old_scope@, new_scope: new_scope@ },
                projections_view(acc@),
            ) == project_all_spec(
                named@,
                0,
                Boundary { tokens, old_scope: old(old_scope)@, new_scope: old(new_scope)@ },
                projections_view(old(acc)@),
            ),
        decreases named.len() - i,
    {
        let tok = named[i];
        let src_slot = old_scope.get_or_alloc_slot(tok);
        new_scope.declare_tok(tok);
        let dst = new_scope.get_or_alloc_slot(tok);
        let projection = Projection { expr: Expr::Slot(src_slot), alias: tok, dst };
        assert(projections_view(acc@.push(projection)) =~= projections_view(acc@).push(
            projection@,
        ));
        acc.push(projection);
        i += 1;
    }
}

/// Plans one projection `expr [AS alias]`.
fn plan_projection(
    old_scope: &mut Scope,
    new_scope: &mut Scope,
    tokens: &mut Tokens,
    bd: &BackendDesc,
    part: &ParseNode,
) -> (r: Result<Projection, Error>)
    ensures
        final(old_scope).wf(),
        final(new_scope).wf(),
        final(tokens).wf(),
        ({
            let spec = projection_spec(
                part@,
                boundary_of(*old(tokens), *old(old_scope), *old(new_scope)),
                bd,
            );
            match r {
                Ok(p) => spec.result == Ok::<ProjectionView, ErrorKind>(p@) && boundary_of(
                    *final(tokens),
                    *final(old_scope),
                    *final(new_scope),
                ) == spec.at,
                Err(err) => spec.result == Err::<ProjectionView, ErrorKind>(err.kind),
            }
        }),
{
    proof {
        use_type_invariant(&*old_scope);
        use_type_invariant(&*new_scope);
        use_type_invariant(&*tokens);
    }
    proof {
        lemma_children(*part);
    }
    if part.children.len() < 1 {
        return Err(Error::new(ErrorKind::UnexpectedRule));
    }
    let expr = match plan_expr(old_scope, tokens, bd, &part.children[0]) {
        Ok(e) => e,
        Err(e) => {
            return Err(e);
        },
    };
    let alias = if part.children.len() >= 2 {
        new_scope.declare(tokens, part.children[1].text.as_str())
    } else {
        new_scope.declare(tokens, part.children[0].text.as_str())
    };
    let dst = new_scope.get_or_alloc_slot(alias);
    Ok(Projection { expr, alias, dst })
}

/// Plans the projections of a statement.
fn plan_projections(
    old_scope: &mut Scope,
    new_scope: &mut Scope,
    tokens: &mut Tokens,
    bd: &BackendDesc,
    stmt: &ParseNode,
) -> (r: Result<Vec<Projection>, Error>)
    ensures
        final(old_scope).wf(),
        final(new_scope).wf(),
        final(tokens).wf(),
        ({
            let spec = projections_spec(
                stmt@.children,
                0,
                boundary_of(*old(tokens), *old(old_scope), *old(new_scope)),
                bd,
                Seq::empty(),
            );
            match r {
                Ok(ps) => spec.result == Ok::<Seq<ProjectionView>, ErrorKind>(
                    projections_view(ps@),
                ) && boundary_of(*final(tokens), *final(old_scope), *final(new_scope)) == spec.at,
                Err(err) => spec.result == Err::<Seq<ProjectionView>, ErrorKind>(err.kind),
            }
        }),
{
    proof {
        use_type_invariant(&*old_scope);
        use_type_invariant(&*new_scope);
        use_type_invariant(&*tokens);
    }
    proof {
        lemma_children(*stmt);
    }
    let mut projections: Vec<Projection> = Vec::new();
    assert(projections_view(projections@) =~= Seq::empty());
    let mut i: usize = 0;
    while i < stmt.children.len()
        invariant
            i <= stmt.children.len(),
            old_scope.wf(),
            new_scope.wf(),
            tokens.wf(),
            stmt@.children == trees_view(stmt.children@),
            projections_spec(
                stmt@.children,
                i as int,
                boundary_of(*tokens, *old_scope, *new_scope),
                bd,
                projections_view(projections@),
            ) == projections_spec(
                stmt@.children,
                0,
                boundary_of(*old(tokens), *old(old_scope), *old(new_scope)),
                bd,
                Seq::empty(),
            ),
        decreases stmt.children.len() - i,
    {
        match stmt.children[i].rule {
            Rule::Projection => {
                match plan_projection(old_scope, new_scope, tokens, bd, &stmt.children[i]) {
                    Ok(p) => {
                        assert(projections_view(projections@.push(p)) =~= projections_view(
                            projections@,
                        ).push(p@));
                        projections.push(p);
                    },
                    Err(e) => {
                        return Err(e);
                    },
                }
            },
            Rule::ProjectAll => {
                project_all(old_scope, new_scope, Ghost(tokens@), &mut projections);
            },
            Rule::OrderClause | Rule::SkipClause | Rule::LimitClause | Rule::WhereClause => {},
            _ => {
                return Err(Error::new(ErrorKind::UnexpectedRule));
            },
        }
        i += 1;
    }
    Ok(projections)
}

/// Whether one of the projections aggregates.
fn aggregates(projections: &Vec<Projection>) -> (r: bool)
    ensures
        r == has_aggregation(projections_view(projections@), 0),
{
    let mut i: usize = 0;
    while i < projections.len()
        invariant
            i <= projections.len(),
            has_aggregation(projections_view(projections@), i as int) == has_aggregation(
                projections_view(projections@),
                0,
            ),
        decreases projections.len() - i,
    {
        if expr_aggregates(&projections[i].expr) {
            return true;
        }
        i += 1;
    }
    false
}

/// The projections that aggregate, if `aggregating`, else the others; each
/// with its slot.
fn select(projections: &Vec<Projection>, aggregating: bool) -> (r: Vec<(Expr, Slot)>)
    ensures
        slotted_view(r@) == select_projections(
            projections_view(projections@),
            0,
            aggregating,
            Seq::empty(),
        ),
{
    let mut out: Vec<(Expr, Slot)> = Vec::new();
    assert(slotted_view(out@) =~= Seq::empty());
    let mut i: usize = 0;
    while i < projections.len()
        invariant
            i <= projections.len(),
            select_projections(
                projections_view(projections@),
                i as int,
                aggregating,
                slotted_view(out@),
            ) == select_projections(
                projections_view(projections@),
                0,
                aggregating,
                Seq::empty(),
            ),
        decreases projections.len() - i,
    {
        if expr_aggregates(&projections[i].expr) == aggregating {
            let item = (projections[i].expr.duplicate(), projections[i].dst);
            assert(slotted_view(out@.push(item)) =~= slotted_view(out@).push((item.0@, item.1)));
            out.push(item);
        }
        i += 1;
    }
    out
}

/// The operator that evaluates the projections on `src`.
pub fn project(src: LogicalPlan, projections: Vec<Projection>) -> (r: LogicalPlan)
    ensures
        r@ == projected(src@, projections_view(projections@)),
{
    if aggregates(&projections) {
        let grouping = select(&projections, false);
        let aggregations = select(&projections, true);
        LogicalPlan::Aggregate { src: Box::new(src), grouping, aggregations }
    } else {
        LogicalPlan::Project { src: Box::new(src), projections }
    }
}

/// The place of the first part of the statement with the rule `rule`.
fn find_clause(stmt: &ParseNode, rule: Rule) -> (i: usize)
    ensures
        i == clause_index(stmt@.children, rule, 0),
        i <= stmt.children.len(),
        i < stmt.children.len() ==> stmt.children@[i as int].rule == rule,
{
    proof {
        lemma_children(*stmt);
    }
    let mut i: usize = 0;
    while i < stmt.children.len()
        invariant
            i <= stmt.children.len(),
            stmt@.children == trees_view(stmt.children@),
            clause_index(stmt@.children, rule, i as int) == clause_index(stmt@.children, rule, 0),
        decreases stmt.children.len() - i,
    {
        if stmt.children[i].rule == rule {
            return i;
        }
        i += 1;
    }
    i
}

/// Plans the expression of the first clause with the rule `rule`, if there is
/// one.
fn plan_clause_expr(
    scope: &mut Scope,
    tokens: &mut Tokens,
    bd: &BackendDesc,
    stmt: &ParseNode,
    rule: Rule,
) -> (r: Result<Option<Expr>, Error>)
    ensures
        final(scope).wf(),
        final(tokens).wf(),
        ({
            let spec = clause_expr_spec(
                stmt@.children,
                rule,
                names_of(*old(tokens), *old(scope)),
                bd,
            );
            match r {
                Ok(e) => spec.result == Ok::<Option<ExprView>, ErrorKind>(opt_expr_view(e))
                    && names_of(*final(tokens), *final(scope)) == spec.names,
                Err(err) => spec.result == Err::<Option<ExprView>, ErrorKind>(err.kind),
            }
        }),
{
    proof {
        use_type_invariant(&*scope);
        use_type_invariant(&*tokens);
    }
    proof {
        lemma_children(*stmt);
    }
    let i = find_clause(stmt, rule);
    if i < stmt.children.len() {
        proof {
            lemma_children(stmt.children@[i as int]);
        }
        if stmt.children[i].children.len() < 1 {
            return Err(Error::new(ErrorKind::UnexpectedRule));
        }
        match plan_expr(scope, tokens, bd, &stmt.children[i].children[0]) {
            Ok(e) => Ok(Some(e)),
            Err(e) => Err(e),
        }
    } else {
        Ok(None)
    }
}

/// What a planner that works on a scope and a table of tokens returned, held
/// against what `spec` says.
pub open spec fn plan_planned(
    r: Result<LogicalPlan, Error>,
    tokens: Tokens,
    scope: Scope,
    spec: Planned<PlanView>,
) -> bool {
    match r {
        Ok(p) => spec.result == Ok::<PlanView, ErrorKind>(p@) && names_of(tokens, scope)
            == spec.names,
        Err(err) => spec.result == Err::<PlanView, ErrorKind>(err.kind),
    }
}

/// Plans the order that the statement asks for, on top of `plan`.
fn plan_order(
    scope: &mut Scope,
    tokens: &mut Tokens,
    bd: &BackendDesc,
    stmt: &ParseNode,
    plan: LogicalPlan,
) -> (r: Result<LogicalPlan, Error>)
    ensures
        final(scope).wf(),
        final(tokens).wf(),
        plan_planned(
            r,
            *final(tokens),
            *final(scope),
            order_spec(stmt@.children, names_of(*old(tokens), *old(scope)), plan@, bd),
        ),
{
    proof {
        use_type_invariant(&*scope);
        use_type_invariant(&*tokens);
    }
    proof {
        lemma_children(*stmt);
    }
    let o = find_clause(stmt, Rule::OrderClause);
    if o < stmt.children.len() {
        proof {
            lemma_children(stmt.children@[o as int]);
        }
        match plan_exprs(scope, tokens, bd, &stmt.children[o].children, 0) {
            Ok(sort_by) => Ok(LogicalPlan::Sort { src: Box::new(plan), sort_by }),
            Err(e) => Err(e),
        }
    } else {
        Ok(plan)
    }
}

/// Plans the bounds on the number of rows that the statement asks for, on top
/// of `plan`.
fn plan_limit(
    scope: &mut Scope,
    tokens: &mut Tokens,
    bd: &BackendDesc,
    stmt: &ParseNode,
    plan: LogicalPlan,
) -> (r: Result<LogicalPlan, Error>)
    ensures
        final(scope).wf(),
        final(tokens).wf(),
        plan_planned(
            r,
            *final(tokens),
            *final(scope),
            limit_spec(stmt@.children, names_of(*old(tokens), *old(scope)), plan@, bd),
        ),
{
    proof {
        use_type_invariant(&*scope);
        use_type_invariant(&*tokens);
    }
    let skip = match plan_clause_expr(scope, tokens, bd, stmt, Rule::SkipClause) {
        Ok(e) => e,
        Err(e) => {
            return Err(e);
        },
    };
    let limit = match plan_clause_expr(scope, tokens, bd, stmt, Rule::LimitClause) {
        Ok(e) => e,
        Err(e) => {
            return Err(e);
        },
    };
    if skip.is_some() || limit.is_some() {
        Ok(LogicalPlan::Limit { src: Box::new(plan), skip, limit })
    } else {
        Ok(plan)
    }
}

/// Plans the condition that the statement asks for, on top of `plan`.
fn plan_condition(
    scope: &mut Scope,
    tokens: &mut Tokens,
    bd: &BackendDesc,
    stmt: &ParseNode,
    plan: LogicalPlan,
) -> (r: Result<LogicalPlan, Error>)
    ensures
        final(scope).wf(),
        final(tokens).wf(),
        plan_planned(
            r,
            *final(tokens),
            *final(scope),
            condition_spec(stmt@.children, names_of(*old(tokens), *old(scope)), plan@, bd),
        ),
{
    proof {
        use_type_invariant(&*scope);
        use_type_invariant(&*tokens);
    }
    match plan_clause_expr(scope, tokens, bd, stmt, Rule::WhereClause) {
        Ok(Some(predicate)) => Ok(LogicalPlan::Selection { src: Box::new(plan), predicate }),
        Ok(None) => Ok(plan),
        Err(e) => Err(e),
    }
}

/// Plans the clauses that follow the projections, on top of `plan`.
fn plan_clauses(
    scope: &mut Scope,
    tokens: &mut Tokens,
    bd: &BackendDesc,
    stmt: &ParseNode,
    plan: LogicalPlan,
) -> (r: Result<LogicalPlan, Error>)
    ensures
        final(scope).wf(),
        final(tokens).wf(),
        plan_planned(
            r,
            *final(tokens),
            *final(scope),
            clauses_spec(stmt@.children, names_of(*old(tokens), *old(scope)), plan@, bd),
        ),
{
    proof {
        use_type_invariant(&*scope);
        use_type_invariant(&*tokens);
    }
    let sorted = match plan_order(scope, tokens, bd, stmt, plan) {
        Ok(p) => p,
        Err(e) => {
            return Err(e);
        },
    };
    let limited = match plan_limit(scope, tokens, bd, stmt, sorted) {
        Ok(p) => p,
        Err(e) => {
            return Err(e);
        },
    };
    plan_condition(scope, tokens, bd, stmt, limited)
}

/// The fields that the projections give to the result.
fn result_fields(projections: &Vec<Projection>) -> (fields: Vec<(Token, Slot)>)
    ensures
        fields@ == fields_of(projections_view(projections@)),
{
    let mut fields: Vec<(Token, Slot)> = Vec::new();
    let mut i: usize = 0;
    while i < projections.len()
        invariant
            i <= projections.len(),
            fields@.len() == i,
            forall|j: int|
                0 <= j < i ==> fields@[j] == (projections@[j].alias, projections@[j].dst),
        decreases projections.len() - i,
    {
        fields.push((projections[i].alias, projections[i].dst));
        i += 1;
    }
    assert(fields@ =~= fields_of(projections_view(projections@)));
    fields
}

/// Plans a statement that projects, between the scope that it reads and the
/// one that it fills.
fn plan_boundary(
    old_scope: &mut Scope,
    new_scope: &mut Scope,
    tokens: &mut Tokens,
    bd: &BackendDesc,
    stmt: &ParseNode,
    src: LogicalPlan,
    produce: bool,
) -> (r: Result<LogicalPlan, Error>)
    ensures
        final(old_scope).wf(),
        final(new_scope).wf(),
        final(tokens).wf(),
        ({
            let spec = boundary_spec(
                stmt@,
                boundary_of(*old(tokens), *old(old_scope), *old(new_scope)),
                src@,
                bd,
                produce,
            );
            match r {
                Ok(p) => spec.result == Ok::<PlanView, ErrorKind>(p@) && boundary_of(
                    *final(tokens),
                    *final(old_scope),
                    *final(new_scope),
                ) == spec.at,
                Err(err) => spec.result == Err::<PlanView, ErrorKind>(err.kind),
            }
        }),
{
    proof {
        use_type_invariant(&*old_scope);
        use_type_invariant(&*new_scope);
        use_type_invariant(&*tokens);
    }
    let projections = match plan_projections(old_scope, new_scope, tokens, bd, stmt) {
        Ok(ps) => ps,
        Err(e) => {
            return Err(e);
        },
    };
    let fields = result_fields(&projections);
    let plan = project(src, projections);
    match plan_clauses(new_scope, tokens, bd, stmt, plan) {
        Ok(p) => {
            if produce {
                Ok(LogicalPlan::ProduceResult { src: Box::new(p), fields })
            } else {
                Ok(p)
            }
        },
        Err(e) => Err(e),
    }
}

/// Plans a statement that projects. Where planning fails, the scope so far
/// stays the active one.
fn plan_projection_stmt(
    pc: &mut PlanningContext,
    src: LogicalPlan,
    stmt: &ParseNode,
    produce: bool,
) -> (r: Result<LogicalPlan, Error>)
    requires
        old(pc)@.active(),
    ensures
        context_kept(*old(pc), *final(pc)),
        ({
            let spec = plan_projection_spec(
                stmt@,
                old(pc)@,
                src@,
                old(pc).backend_desc,
                produce,
            );
            match r {
                Ok(plan) => spec.result == Ok::<PlanView, ErrorKind>(plan@) && final(pc)@
                    == spec.ctx,
                Err(err) => spec.result == Err::<PlanView, ErrorKind>(err.kind),
            }
        }),
{
    let mut old_scope = pc.detach_scope();
    let mut new_scope = pc.create_scope();
    let r = plan_boundary(
        &mut old_scope,
        &mut new_scope,
        &mut pc.tokens,
        pc.backend_desc,
        stmt,
        src,
        produce,
    );
    match r {
        Ok(plan) => {
            pc.retire_scope(old_scope);
            pc.attach_scope(new_scope);
            Ok(plan)
        },
        Err(e) => {
            pc.attach_scope(old_scope);
            Err(e)
        },
    }
}

/// Plans a WITH statement on top of `src`.
pub fn plan_with(pc: &mut PlanningContext, src: LogicalPlan, with_stmt: &ParseNode) -> (r: Result<
    LogicalPlan,
    Error,
>)
    requires
        old(pc)@.active(),
    ensures
        context_kept(*old(pc), *final(pc)),
        ({
            let spec = plan_projection_spec(
                with_stmt@,
                old(pc)@,
                src@,
                old(pc).backend_desc,
                false,
            );
            match r {
                Ok(plan) => spec.result == Ok::<PlanView, ErrorKind>(plan@) && final(pc)@
                    == spec.ctx,
                Err(err) => spec.result == Err::<PlanView, ErrorKind>(err.kind),
            }
        }),
{
    plan_projection_stmt(pc, src, with_stmt, false)
}

/// Plans a RETURN statement on top of `src`.
pub fn plan_return(pc: &mut PlanningContext, src: LogicalPlan, return_stmt: &ParseNode) -> (r:
    Result<LogicalPlan, Error>)
    requires
        old(pc)@.active(),
    ensures
        context_kept(*old(pc), *final(pc)),
        ({
            let spec = plan_projection_spec(
                return_stmt@,
                old(pc)@,
                src@,
                old(pc).backend_desc,
                true,
            );
            match r {
                Ok(plan) => spec.result == Ok::<PlanView, ErrorKind>(plan@) && final(pc)@
                    == spec.ctx,
                Err(err) => spec.result == Err::<PlanView, ErrorKind>(err.kind),
            }
        }),
{
    plan_projection_stmt(pc, src, return_stmt, true)
}

} // verus!
