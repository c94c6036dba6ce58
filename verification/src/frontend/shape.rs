//! The shape of the parse trees that the planner takes without complaint.
//! A tree of this shape is never rejected as malformed; planning it can only
//! fail for what it means.

use vstd::prelude::*;
use crate::backend::BackendDesc;
use crate::error::ErrorKind;

use crate::frontend::context::ContextView;
use crate::frontend::create_stmt::{nodes_to_create, rel_to_create, rels_to_create};
use crate::frontend::expr::{ExprView, MapEntryView};
use crate::frontend::expr_planner::{
    is_numeral, names_in, op_of, plan_entries_ctx, plan_entries_spec, plan_expr_ctx,
    plan_expr_spec, plan_exprs_spec, Names,
};

use crate::frontend::match_stmt::match_subplan_spec;
use crate::frontend::pattern::{
    node_parts_spec, parse_pattern_graph_spec, parse_pattern_node_spec, parse_pattern_rel_spec,
    pattern_parts_spec, rel_parts_spec, segments_spec, NodeParts, PatternGraphView,
    PatternRelView, RelParts, Walk,
};
use crate::frontend::plan::{Dir, PlanView, ProjectionView, RelSpecView, SetActionView};
use crate::frontend::query::{plan_query_spec, plan_statement_spec, plan_statements_spec};
use crate::frontend::scope::ScopeView;
use crate::frontend::set_stmt::{set_action_spec, set_actions_spec};
use crate::frontend::syntax::{ParseTree, Rule};

use crate::frontend::with_stmt::{
    clause_expr_spec, clause_index, clauses_spec, limit_spec, order_spec, project_all_spec,
    projected, projection_spec, projections_spec, Boundary,
};

verus! {

/// Planning failed because the tree was malformed.
pub open spec fn malformed<T>(r: Result<T, ErrorKind>) -> bool {
    r is Err && r->Err_0 == ErrorKind::UnexpectedRule
}

/// The tree is an expression as the grammar builds it: each rule has the
/// children that it needs, and an integer is written in digits.
pub open spec fn expr_shaped(t: ParseTree) -> bool
    decreases t,
{
    match t.rule {
        Rule::Int => is_numeral(t.text),
        Rule::Float | Rule::Str | Rule::True | Rule::False | Rule::Null | Rule::Id => true,
        Rule::List | Rule::And | Rule::Or => forall|i: int|
            0 <= i < t.children.len() ==> expr_shaped(#[trigger] t.children[i]),
        Rule::MapLit => forall|i: int|
            0 <= i < t.children.len() ==> pair_shaped(#[trigger] t.children[i]),
        Rule::Not | Rule::Negate => t.children.len() == 1 && expr_shaped(t.children[0]),
        Rule::PropLookup => t.children.len() == 2 && t.children[1].rule == Rule::Id
            && expr_shaped(t.children[0]),
        Rule::FuncCall => t.children.len() >= 1 && t.children[0].rule == Rule::Id && forall|i: int|
            1 <= i < t.children.len() ==> expr_shaped(#[trigger] t.children[i]),
        _ => op_of(t.rule) is Some && t.children.len() == 2 && expr_shaped(t.children[0])
            && expr_shaped(t.children[1]),
    }
}

/// The tree is a pair of a map literal: a key and an expression.
pub open spec fn pair_shaped(t: ParseTree) -> bool
    decreases t,
{
    t.rule == Rule::MapPair && t.children.len() == 2 && t.children[0].rule == Rule::Id
        && expr_shaped(t.children[1])
}

/// All of `ts[from..]` are expressions.
pub open spec fn exprs_shaped(ts: Seq<ParseTree>, from: int) -> bool {
    forall|i: int| from <= i < ts.len() ==> expr_shaped(#[trigger] ts[i])
}

/// All of `ts` are pairs of a map literal.
pub open spec fn pairs_shaped(ts: Seq<ParseTree>) -> bool {
    forall|i: int| 0 <= i < ts.len() ==> pair_shaped(#[trigger] ts[i])
}

/// An expression of the right shape is not rejected as malformed.
pub proof fn lemma_expr_accepted(node: ParseTree, names: Names, bd: &BackendDesc)
    requires
        expr_shaped(node),
    ensures
        !malformed(plan_expr_spec(node, names, bd).result),
    decreases node, 0nat,
{
    match node.rule {
        Rule::List | Rule::And | Rule::Or => {
            lemma_exprs_accepted(node.children, 0, names, bd, Seq::empty());
        },
        Rule::MapLit => {
            lemma_entries_accepted(node.children, 0, names, bd, Seq::empty());
        },
        Rule::Not | Rule::Negate => {
            lemma_expr_accepted(node.children[0], names, bd);
        },
        Rule::PropLookup => {
            lemma_expr_accepted(node.children[0], names, bd);
        },
        Rule::FuncCall => {
            let name = names.token(node.children[0].text);
            if bd.func_type_of(name) is Some {
                lemma_exprs_accepted(
                    node.children,
                    1,
                    names.tokenize(node.children[0].text),
                    bd,
                    Seq::empty(),
                );
            }
        },
        _ => {
            if op_of(node.rule) is Some {
                lemma_expr_accepted(node.children[0], names, bd);
                let left = plan_expr_spec(node.children[0], names, bd);
                if left.result is Ok {
                    lemma_expr_accepted(node.children[1], left.names, bd);
                }
            }
        },
    }
}

/// Expressions of the right shape are not rejected as malformed.
pub proof fn lemma_exprs_accepted(
    nodes: Seq<ParseTree>,
    from: int,
    names: Names,
    bd: &BackendDesc,
    acc: Seq<ExprView>,
)
    requires
        0 <= from,
        exprs_shaped(nodes, from),
    ensures
        !malformed(plan_exprs_spec(nodes, from, names, bd, acc).result),
    decreases nodes, nodes.len() - from,
{
    if 0 <= from < nodes.len() {
        lemma_expr_accepted(nodes[from], names, bd);
        let first = plan_expr_spec(nodes[from], names, bd);
        match first.result {
            Ok(e) => {
                lemma_exprs_accepted(nodes, from + 1, first.names, bd, acc.push(e));
            },
            Err(_) => {},
        }
    }
}

/// The pairs of a map literal of the right shape are not rejected as
/// malformed.
pub proof fn lemma_entries_accepted(
    nodes: Seq<ParseTree>,
    from: int,
    names: Names,
    bd: &BackendDesc,
    acc: Seq<MapEntryView>,
)
    requires
        0 <= from,
        pairs_shaped(nodes),
    ensures
        !malformed(plan_entries_spec(nodes, from, names, bd, acc).result),
    decreases nodes, nodes.len() - from,
{
    if 0 <= from < nodes.len() {
        let pair = nodes[from];
        assert(pair_shaped(pair));
        let key = names.token(pair.children[0].text);
        let named = names.tokenize(pair.children[0].text);
        lemma_expr_accepted(pair.children[1], named, bd);
        let val = plan_expr_spec(pair.children[1], named, bd);
        match val.result {
            Ok(e) => {
                lemma_entries_accepted(
                    nodes,
                    from + 1,
                    val.names,
                    bd,
                    acc.push(MapEntryView { key, val: e }),
                );
            },
            Err(_) => {},
        }
    }
}

/// The trees are the parts of a node pattern: an identifier, labels, a map.
pub open spec fn node_parts_shaped(parts: Seq<ParseTree>) -> bool {
    forall|i: int|
        0 <= i < parts.len() ==> {
            let part = #[trigger] parts[i];
            part.rule == Rule::Id || part.rule == Rule::Label || (part.rule == Rule::MapLit
                && pairs_shaped(part.children))
        }
}

/// The tree is a node pattern as the grammar builds it.
pub open spec fn node_shaped(t: ParseTree) -> bool {
    t.rule == Rule::Node && node_parts_shaped(t.children)
}

/// The trees are the parts of a relationship pattern: arrows, an
/// identifier, a type, a map.
pub open spec fn rel_parts_shaped(parts: Seq<ParseTree>) -> bool {
    forall|i: int|
        0 <= i < parts.len() ==> {
            let part = #[trigger] parts[i];
            part.rule == Rule::Id || part.rule == Rule::RelType || part.rule == Rule::LeftArrow
                || part.rule == Rule::RightArrow || (part.rule == Rule::MapLit && pairs_shaped(
                part.children,
            ))
        }
}

/// The tree is a relationship pattern as the grammar builds it.
pub open spec fn rel_shaped(t: ParseTree) -> bool {
    t.rule == Rule::Rel && rel_parts_shaped(t.children)
}

/// The tree is a pattern as the grammar builds it: nodes with relationships
/// between them.
pub open spec fn pattern_shaped(t: ParseTree) -> bool {
    &&& t.rule == Rule::Pattern
    &&& t.children.len() % 2 == 1
    &&& segments_shaped(t.children)
}

/// The trees are nodes with relationships between them.
pub open spec fn segments_shaped(segments: Seq<ParseTree>) -> bool {
    forall|i: int|
        0 <= i < segments.len() ==> if i % 2 == 0 {
            node_shaped(#[trigger] segments[i])
        } else {
            rel_shaped(segments[i])
        }
}

/// The parts of a node pattern of the right shape are not rejected as
/// malformed.
proof fn lemma_node_parts_accepted(
    node: ParseTree,
    from: int,
    ctx: ContextView,
    bd: &BackendDesc,
    acc: NodeParts,
)
    requires
        node_shaped(node),
        0 <= from,
    ensures
        !malformed(node_parts_spec(node.children, from, ctx, bd, acc).result),
    decreases node.children.len() - from,
{
    let parts = node.children;
    if 0 <= from < parts.len() {
        let part = parts[from];
        match part.rule {
            Rule::Id => {
                lemma_node_parts_accepted(
                    node,
                    from + 1,
                    ctx.tokenize(part.text),
                    bd,
                    NodeParts { identifier: Some(ctx.token(part.text)), ..acc },
                );
            },
            Rule::Label => {
                let (tokens, labels) = crate::frontend::pattern::label_tokens(
                    part.children,
                    0,
                    ctx.tokens,
                    acc.labels,
                );
                lemma_node_parts_accepted(
                    node,
                    from + 1,
                    ctx.with_tokens(tokens),
                    bd,
                    NodeParts { labels, ..acc },
                );
            },
            Rule::MapLit => {
                lemma_entries_accepted(part.children, 0, names_in(ctx), bd, Seq::empty());
                let m = plan_entries_ctx(part, ctx, bd);
                match m.result {
                    Ok(props) => {
                        lemma_node_parts_accepted(
                            node,
                            from + 1,
                            m.ctx,
                            bd,
                            NodeParts { props, ..acc },
                        );
                    },
                    Err(_) => {},
                }
            },
            _ => {},
        }
    }
}

/// The parts of a relationship pattern of the right shape are not rejected
/// as malformed.
proof fn lemma_rel_parts_accepted(
    rel: ParseTree,
    from: int,
    ctx: ContextView,
    bd: &BackendDesc,
    acc: RelParts,
)
    requires
        rel_shaped(rel),
        0 <= from,
    ensures
        !malformed(rel_parts_spec(rel.children, from, ctx, bd, acc).result),
    decreases rel.children.len() - from,
{
    let parts = rel.children;
    if 0 <= from < parts.len() {
        let part = parts[from];
        match part.rule {
            Rule::Id => {
                lemma_rel_parts_accepted(
                    rel,
                    from + 1,
                    ctx.tokenize(part.text),
                    bd,
                    RelParts { identifier: Some(ctx.token(part.text)), ..acc },
                );
            },
            Rule::RelType => {
                lemma_rel_parts_accepted(
                    rel,
                    from + 1,
                    ctx.tokenize(part.text),
                    bd,
                    RelParts { rel_type: Some(ctx.token(part.text)), ..acc },
                );
            },
            Rule::LeftArrow => {
                lemma_rel_parts_accepted(
                    rel,
                    from + 1,
                    ctx,
                    bd,
                    RelParts { dir: Some(Dir::In), ..acc },
                );
            },
            Rule::RightArrow => {
                if acc.dir is None {
                    lemma_rel_parts_accepted(
                        rel,
                        from + 1,
                        ctx,
                        bd,
                        RelParts { dir: Some(Dir::Out), ..acc },
                    );
                }
            },
            Rule::MapLit => {
                lemma_entries_accepted(part.children, 0, names_in(ctx), bd, Seq::empty());
                let m = plan_entries_ctx(part, ctx, bd);
                match m.result {
                    Ok(props) => {
                        lemma_rel_parts_accepted(rel, from + 1, m.ctx, bd, RelParts { props, ..acc });
                    },
                    Err(_) => {},
                }
            },
            _ => {},
        }
    }
}

/// Every relationship of the graph has its right node.
pub open spec fn rels_complete(graph: PatternGraphView) -> bool {
    forall|i: int| 0 <= i < graph.e.len() ==> (#[trigger] graph.e[i]).right_node is Some
}

/// The segments of a pattern of the right shape are not rejected as
/// malformed, and leave every relationship of the graph with its right node.
proof fn lemma_segments_accepted(
    pattern: ParseTree,
    from: int,
    ctx: ContextView,
    bd: &BackendDesc,
    walk: Walk,
)
    requires
        pattern_shaped(pattern),
        0 <= from,
        from % 2 == 1 ==> walk.prior_node is Some,
        rels_complete(walk.graph),
    ensures
        !malformed(segments_spec(pattern.children, from, ctx, bd, walk).result),
        segments_spec(pattern.children, from, ctx, bd, walk).result matches Ok(end)
            ==> rels_complete(end.graph),
    decreases pattern.children.len() - from,
{
    let segments = pattern.children;
    if 0 <= from < segments.len() {
        let segment = segments[from];
        if from % 2 == 0 {
            assert(node_shaped(segment));
            lemma_node_parts_accepted(
                segment,
                0,
                ctx,
                bd,
                NodeParts { identifier: None, labels: Seq::empty(), props: Seq::empty() },
            );
            let parsed = parse_pattern_node_spec(segment, ctx, bd);
            match parsed.result {
                Err(_) => {},
                Ok(node) => {
                    let introduced = !node.anonymous && !node.bound;
                    let ctx1 = if introduced {
                        parsed.ctx.declare_tok(node.identifier)
                    } else {
                        parsed.ctx
                    };
                    let g0 = if introduced {
                        walk.graph.introduce(node.identifier)
                    } else {
                        walk.graph
                    };
                    let g1 = g0.merge_node(node);
                    let g2 = match walk.prior_rel {
                        Some(rel) => g1.merge_rel(
                            PatternRelView { right_node: Some(node.identifier), ..rel },
                        ),
                        None => g1,
                    };
                    assert(rels_complete(g2)) by {
                        assert(g1.e == walk.graph.e);
                        assert forall|i: int| 0 <= i < g2.e.len() implies (
                        #[trigger] g2.e[i]).right_node is Some by {
                            if i < g1.e.len() {
                                assert(g2.e[i] == walk.graph.e[i]);
                            }
                        }
                    }
                    lemma_segments_accepted(
                        pattern,
                        from + 1,
                        ctx1,
                        bd,
                        Walk { graph: g2, prior_node: Some(node.identifier), prior_rel: None },
                    );
                },
            }
        } else {
            assert(rel_shaped(segment));
            let left_node = walk.prior_node->0;
            lemma_rel_parts_accepted(
                segment,
                0,
                ctx,
                bd,
                RelParts { identifier: None, rel_type: None, dir: None, props: Seq::empty() },
            );
            let parsed = parse_pattern_rel_spec(segment, left_node, ctx, bd);
            match parsed.result {
                Err(_) => {},
                Ok(rel) => {
                    let introduced = !rel.anonymous && !rel.bound;
                    let ctx1 = if introduced {
                        parsed.ctx.declare_tok(rel.identifier)
                    } else {
                        parsed.ctx
                    };
                    let g0 = if introduced {
                        walk.graph.introduce(rel.identifier)
                    } else {
                        walk.graph
                    };
                    lemma_segments_accepted(
                        pattern,
                        from + 1,
                        ctx1,
                        bd,
                        Walk { graph: g0, prior_node: None, prior_rel: Some(rel) },
                    );
                },
            }
        }
    }
}

/// The trees are the parts of a statement made of patterns: the mark of an
/// optional match, patterns, a condition.
pub open spec fn pattern_parts_shaped(parts: Seq<ParseTree>) -> bool {
    forall|i: int|
        0 <= i < parts.len() ==> {
            let part = #[trigger] parts[i];
            part.rule == Rule::OptionalClause || pattern_shaped(part) || (part.rule
                == Rule::WhereClause && part.children.len() >= 1 && expr_shaped(part.children[0]))
        }
}

/// The tree is a statement made of patterns, as the grammar builds it.
pub open spec fn patterns_shaped(t: ParseTree) -> bool {
    pattern_parts_shaped(t.children)
}

/// The parts of a statement made of patterns, of the right shape, are not
/// rejected as malformed, and leave every relationship with its right node.
proof fn lemma_pattern_parts_accepted(
    stmt: ParseTree,
    from: int,
    ctx: ContextView,
    bd: &BackendDesc,
    graph: PatternGraphView,
)
    requires
        patterns_shaped(stmt),
        0 <= from,
        rels_complete(graph),
    ensures
        !malformed(pattern_parts_spec(stmt.children, from, ctx, bd, graph).result),
        pattern_parts_spec(stmt.children, from, ctx, bd, graph).result matches Ok(pg)
            ==> rels_complete(pg),
    decreases stmt.children.len() - from,
{
    let parts = stmt.children;
    if 0 <= from < parts.len() {
        let part = parts[from];
        match part.rule {
            Rule::OptionalClause => {
                lemma_pattern_parts_accepted(
                    stmt,
                    from + 1,
                    ctx,
                    bd,
                    PatternGraphView { optional: true, ..graph },
                );
            },
            Rule::Pattern => {
                let start = Walk { graph, prior_node: None, prior_rel: None };
                lemma_segments_accepted(part, 0, ctx, bd, start);
                let walked = segments_spec(part.children, 0, ctx, bd, start);
                match walked.result {
                    Ok(walk) => {
                        lemma_pattern_parts_accepted(stmt, from + 1, walked.ctx, bd, walk.graph);
                    },
                    Err(_) => {},
                }
            },
            Rule::WhereClause => {
                lemma_expr_accepted(part.children[0], names_in(ctx), bd);
                let p = plan_expr_ctx(part.children[0], ctx, bd);
                match p.result {
                    Ok(e) => {
                        lemma_pattern_parts_accepted(
                            stmt,
                            from + 1,
                            p.ctx,
                            bd,
                            PatternGraphView { predicate: Some(e), ..graph },
                        );
                    },
                    Err(_) => {},
                }
            },
            _ => {},
        }
    }
}

/// Relationships that have their right nodes are not rejected as malformed
/// when they are to be created.
proof fn lemma_rels_to_create_accepted(
    e: Seq<PatternRelView>,
    from: int,
    ctx: ContextView,
    acc: Seq<RelSpecView>,
)
    requires
        0 <= from,
        forall|i: int| 0 <= i < e.len() ==> (#[trigger] e[i]).right_node is Some,
    ensures
        !malformed(rels_to_create(e, from, ctx, acc).result),
    decreases e.len() - from,
{
    if 0 <= from < e.len() {
        let first = rel_to_create(e[from], ctx);
        match first.result {
            Ok(rel) => {
                lemma_rels_to_create_accepted(e, from + 1, first.ctx, acc.push(rel));
            },
            Err(_) => {},
        }
    }
}

/// The tree is a statement that projects, as the grammar builds it.
pub open spec fn projections_shaped(t: ParseTree) -> bool {
    projection_parts_shaped(t.children)
}

/// The trees are the parts of a statement that projects: projections and
/// the clauses that follow them.
pub open spec fn projection_parts_shaped(parts: Seq<ParseTree>) -> bool {
    forall|i: int| 0 <= i < parts.len() ==> projection_part_shaped(#[trigger] parts[i])
}

/// The tree is a projection or a clause that follows the projections.
pub open spec fn projection_part_shaped(part: ParseTree) -> bool {
    match part.rule {
        Rule::ProjectAll => true,
        Rule::OrderClause => exprs_shaped(part.children, 0),
        Rule::Projection | Rule::SkipClause | Rule::LimitClause | Rule::WhereClause =>
            part.children.len() >= 1 && expr_shaped(part.children[0]),
        _ => false,
    }
}

/// The projections of a statement of the right shape are not rejected as
/// malformed.
proof fn lemma_projections_accepted(
    stmt: ParseTree,
    from: int,
    at: Boundary,
    bd: &BackendDesc,
    acc: Seq<ProjectionView>,
)
    requires
        projections_shaped(stmt),
        0 <= from,
    ensures
        !malformed(projections_spec(stmt.children, from, at, bd, acc).result),
    decreases stmt.children.len() - from,
{
    let parts = stmt.children;
    if 0 <= from < parts.len() {
        let part = parts[from];
        match part.rule {
            Rule::Projection => {
                lemma_expr_accepted(part.children[0], at.reading(), bd);
                let p = projection_spec(part, at, bd);
                match p.result {
                    Ok(projection) => {
                        lemma_projections_accepted(stmt, from + 1, p.at, bd, acc.push(projection));
                    },
                    Err(_) => {},
                }
            },
            Rule::ProjectAll => {
                let (at1, acc1) = project_all_spec(at.old_scope.named, 0, at, acc);
                lemma_projections_accepted(stmt, from + 1, at1, bd, acc1);
            },
            Rule::OrderClause | Rule::SkipClause | Rule::LimitClause | Rule::WhereClause => {
                lemma_projections_accepted(stmt, from + 1, at, bd, acc);
            },
            _ => {},
        }
    }
}

/// The first clause with the rule `rule` has that rule.
proof fn lemma_clause_index(parts: Seq<ParseTree>, rule: Rule, from: int)
    requires
        0 <= from <= parts.len(),
    ensures
        from <= clause_index(parts, rule, from) <= parts.len(),
        clause_index(parts, rule, from) < parts.len() ==> parts[clause_index(
            parts,
            rule,
            from,
        )].rule == rule,
    decreases parts.len() - from,
{
    if 0 <= from < parts.len() && parts[from].rule != rule {
        lemma_clause_index(parts, rule, from + 1);
    }
}

/// The expression of a clause of a statement of the right shape is not
/// rejected as malformed.
proof fn lemma_clause_expr_accepted(stmt: ParseTree, rule: Rule, names: Names, bd: &BackendDesc)
    requires
        projections_shaped(stmt),
        rule == Rule::SkipClause || rule == Rule::LimitClause || rule == Rule::WhereClause,
    ensures
        !malformed(clause_expr_spec(stmt.children, rule, names, bd).result),
{
    lemma_clause_index(stmt.children, rule, 0);
    let i = clause_index(stmt.children, rule, 0);
    if 0 <= i < stmt.children.len() {
        let part = stmt.children[i];
        lemma_expr_accepted(part.children[0], names, bd);
    }
}

/// The clauses of a statement of the right shape are not rejected as
/// malformed.
proof fn lemma_clauses_accepted(stmt: ParseTree, names: Names, plan: PlanView, bd: &BackendDesc)
    requires
        projections_shaped(stmt),
    ensures
        !malformed(clauses_spec(stmt.children, names, plan, bd).result),
{
    let parts = stmt.children;
    lemma_clause_index(parts, Rule::OrderClause, 0);
    let o = clause_index(parts, Rule::OrderClause, 0);
    if 0 <= o < parts.len() {
        let part = parts[o];
        lemma_exprs_accepted(part.children, 0, names, bd, Seq::empty());
    }
    let sorted = order_spec(parts, names, plan, bd);
    match sorted.result {
        Err(_) => {},
        Ok(sorted_plan) => {
            lemma_clause_expr_accepted(stmt, Rule::SkipClause, sorted.names, bd);
            let skip = clause_expr_spec(parts, Rule::SkipClause, sorted.names, bd);
            if skip.result is Ok {
                lemma_clause_expr_accepted(stmt, Rule::LimitClause, skip.names, bd);
            }
            let limited = limit_spec(parts, sorted.names, sorted_plan, bd);
            match limited.result {
                Err(_) => {},
                Ok(limited_plan) => {
                    lemma_clause_expr_accepted(stmt, Rule::WhereClause, limited.names, bd);
                },
            }
        },
    }
}

/// The tree is a SET statement as the grammar builds it.
pub open spec fn assignments_shaped(t: ParseTree) -> bool {
    assignment_parts_shaped(t.children)
}

/// The trees are assignments.
pub open spec fn assignment_parts_shaped(parts: Seq<ParseTree>) -> bool {
    forall|i: int| 0 <= i < parts.len() ==> assignment_shaped(#[trigger] parts[i])
}

/// The tree is an assignment as the grammar builds it.
pub open spec fn assignment_shaped(part: ParseTree) -> bool {
    match part.rule {
        Rule::SingleAssignment => part.children.len() >= 3 && expr_shaped(part.children[2]),
        Rule::AppendAssignment | Rule::OverwriteAssignment => part.children.len() >= 2
            && expr_shaped(part.children[1]),
        _ => false,
    }
}

/// The assignments of a statement of the right shape are not rejected as
/// malformed.
proof fn lemma_set_actions_accepted(
    stmt: ParseTree,
    from: int,
    names: Names,
    bd: &BackendDesc,
    acc: Seq<SetActionView>,
)
    requires
        assignments_shaped(stmt),
        0 <= from,
    ensures
        !malformed(set_actions_spec(stmt.children, from, names, bd, acc).result),
    decreases stmt.children.len() - from,
{
    let parts = stmt.children;
    if 0 <= from < parts.len() {
        let assignment = parts[from];
        match assignment.rule {
            Rule::SingleAssignment => {
                let names1 = names.tokenize(assignment.children[0].text);
                let names2 = names1.tokenize(assignment.children[1].text);
                lemma_expr_accepted(assignment.children[2], names2, bd);
            },
            Rule::AppendAssignment | Rule::OverwriteAssignment => {
                let names1 = names.tokenize(assignment.children[0].text);
                lemma_expr_accepted(assignment.children[1], names1, bd);
            },
            _ => {},
        }
        let first = set_action_spec(assignment, names, bd);
        match first.result {
            Ok(action) => {
                lemma_set_actions_accepted(stmt, from + 1, first.names, bd, acc.push(action));
            },
            Err(_) => {},
        }
    }
}

/// The tree is a statement as the grammar builds it.
pub open spec fn statement_shaped(t: ParseTree) -> bool {
    match t.rule {
        Rule::MatchStmt | Rule::CreateStmt | Rule::MergeStmt => patterns_shaped(t),
        Rule::UnwindStmt => t.children.len() >= 2 && expr_shaped(t.children[0]),
        Rule::WithStmt | Rule::ReturnStmt => projections_shaped(t),
        Rule::CallStmt => t.children.len() >= 1 && t.children[0].rule == Rule::Id && exprs_shaped(
            t.children,
            1,
        ),
        Rule::SetStmt => assignments_shaped(t),
        Rule::Eoi => true,
        _ => false,
    }
}

/// The trees are statements.
pub open spec fn statements_shaped(stmts: Seq<ParseTree>) -> bool {
    forall|i: int| 0 <= i < stmts.len() ==> statement_shaped(#[trigger] stmts[i])
}

/// The tree is a query as the grammar builds it.
pub open spec fn query_shaped(t: ParseTree) -> bool {
    statements_shaped(t.children)
}

/// A statement of the right shape is not rejected as malformed.
pub proof fn lemma_statement_accepted(
    stmt: ParseTree,
    ctx: ContextView,
    src: PlanView,
    bd: &BackendDesc,
)
    requires
        statement_shaped(stmt),
    ensures
        !malformed(plan_statement_spec(stmt, ctx, src, bd).result),
{
    match stmt.rule {
        Rule::MatchStmt => {
            lemma_pattern_parts_accepted(stmt, 0, ctx, bd, PatternGraphView::empty());
        },
        Rule::CreateStmt => {
            lemma_pattern_parts_accepted(stmt, 0, ctx, bd, PatternGraphView::empty());
            let parsed = parse_pattern_graph_spec(stmt, ctx, bd);
            match parsed.result {
                Ok(pg) => {
                    let (ctx1, nodes) = nodes_to_create(pg.v, 0, parsed.ctx, Seq::empty());
                    lemma_rels_to_create_accepted(pg.e, 0, ctx1, Seq::empty());
                },
                Err(_) => {},
            }
        },
        Rule::MergeStmt => {
            lemma_pattern_parts_accepted(stmt, 0, ctx, bd, PatternGraphView::empty());
            let parsed = parse_pattern_graph_spec(stmt, ctx, bd);
            match parsed.result {
                Ok(pg) => {
                    let (ctx1, lhs) = match_subplan_spec(pg, parsed.ctx, PlanView::Argument);
                    let (ctx2, nodes) = nodes_to_create(pg.v, 0, ctx1, Seq::empty());
                    lemma_rels_to_create_accepted(pg.e, 0, ctx2, Seq::empty());
                },
                Err(_) => {},
            }
        },
        Rule::UnwindStmt => {
            lemma_expr_accepted(stmt.children[0], names_in(ctx), bd);
        },
        Rule::WithStmt | Rule::ReturnStmt => {
            let at = Boundary {
                tokens: ctx.tokens,
                old_scope: ctx.scope->0,
                new_scope: ScopeView::empty(),
            };
            lemma_projections_accepted(stmt, 0, at, bd, Seq::empty());
            let ps = projections_spec(stmt.children, 0, at, bd, Seq::empty());
            match ps.result {
                Ok(projections) => {
                    lemma_clauses_accepted(stmt, ps.at.filling(), projected(src, projections), bd);
                },
                Err(_) => {},
            }
        },
        Rule::CallStmt => {
            let ctx1 = ctx.tokenize(stmt.children[0].text);
            lemma_exprs_accepted(stmt.children, 1, names_in(ctx1), bd, Seq::empty());
        },
        Rule::SetStmt => {
            lemma_set_actions_accepted(stmt, 0, names_in(ctx), bd, Seq::empty());
        },
        _ => {},
    }
}

/// The statements of a query of the right shape are not rejected as
/// malformed.
pub proof fn lemma_statements_accepted(
    query: ParseTree,
    from: int,
    ctx: ContextView,
    plan: PlanView,
    bd: &BackendDesc,
)
    requires
        query_shaped(query),
        0 <= from,
    ensures
        !malformed(plan_statements_spec(query.children, from, ctx, plan, bd).result),
    decreases query.children.len() - from,
{
    if 0 <= from < query.children.len() {
        lemma_statement_accepted(query.children[from], ctx, plan, bd);
        let first = plan_statement_spec(query.children[from], ctx, plan, bd);
        match first.result {
            Ok(next) => {
                lemma_statements_accepted(query, from + 1, first.ctx, next, bd);
            },
            Err(_) => {},
        }
    }
}

/// A query of the right shape is not rejected as malformed.
pub proof fn lemma_query_accepted(query: ParseTree, ctx: ContextView, bd: &BackendDesc)
    requires
        query_shaped(query),
    ensures
        !malformed(plan_query_spec(query, ctx, bd).result),
{
    lemma_statements_accepted(query, 0, ctx, PlanView::Argument, bd);
}

} // verus!
