//! What planning never takes back: the table of tokens and the history of
//! scopes only grow, and the counters of made-up names only rise.

use vstd::prelude::*;
use crate::backend::{intern_table, intern_token, BackendDesc, Token};

use crate::frontend::context::ContextView;
use crate::frontend::create_stmt::{create_spec, nodes_to_create, rel_to_create, rels_to_create};
use crate::frontend::expr::{ExprView, MapEntryView};
use crate::frontend::expr_planner::{
    names_in, op_of, plan_entries_ctx, plan_entries_spec, plan_expr_ctx, plan_expr_spec,
    plan_exprs_spec, Names,
};
use crate::frontend::match_stmt::{
    filtered, label_checks, prop_checks, slot_in,
    bound_identifiers, expand_step, expandable, first_pending, candidate, lemma_step_decreases,
    match_subplan_spec, nest_step, node_filters, pending, plan_pattern_spec, rel_filters,
    seed_spec, slots_of, solve_spec, Solving,
};

use crate::frontend::parser::parse_spec;
use crate::frontend::pattern::{
    label_tokens, node_parts_spec, parse_pattern_graph_spec, parse_pattern_node_spec,
    parse_pattern_rel_spec, pattern_parts_spec, rel_parts_spec, segments_spec, NodeParts,
    PatternGraphView, PatternNodeView, PatternRelView, RelParts, Walk,
};
use crate::frontend::plan::{Dir, NodeSpecView, PlanView, ProjectionView, RelSpecView, SetActionView};
use crate::frontend::query::{plan_statement_spec, plan_statements_spec, plan_text_spec};
use crate::frontend::set_stmt::{set_action_spec, set_actions_spec};
use crate::frontend::scope::ScopeView;
use crate::frontend::syntax::{ParseTree, Rule};

use crate::frontend::with_stmt::{
    clause_expr_spec, clause_index, clauses_spec, limit_spec, order_spec, project_all_spec,
    projected, projection_spec, projections_spec, Boundary,
};
use crate::value::Slot;

verus! {

/// The sequence `b` starts with the sequence `a`.
pub open spec fn starts_with<T>(b: Seq<T>, a: Seq<T>) -> bool {
    a.len() <= b.len() && forall|i: int| 0 <= i < a.len() ==> a[i] == b[i]
}

/// The context `after` holds what the context `before` held: every token
/// with its string, every retired scope, a scope if there was one, and no
/// smaller counters.
pub open spec fn grown(before: ContextView, after: ContextView) -> bool {
    &&& starts_with(after.tokens, before.tokens)
    &&& starts_with(after.history, before.history)
    &&& before.anon_rel_seq <= after.anon_rel_seq
    &&& before.anon_node_seq <= after.anon_node_seq
    &&& before.scope is Some ==> after.scope is Some
}

/// Interning keeps every token with its string.
pub proof fn lemma_intern_grows(table: Seq<Seq<char>>, s: Seq<char>)
    ensures
        starts_with(intern_table(table, s), table),
{
}

/// Planning an expression keeps every token with its string.
pub proof fn lemma_expr_grows(node: ParseTree, names: Names, bd: &BackendDesc)
    ensures
        starts_with(plan_expr_spec(node, names, bd).names.tokens, names.tokens),
    decreases node, 0nat,
{
    match node.rule {
        Rule::List | Rule::And | Rule::Or => {
            lemma_exprs_grow(node.children, 0, names, bd, Seq::empty());
        },
        Rule::MapLit => {
            lemma_entries_grow(node.children, 0, names, bd, Seq::empty());
        },
        Rule::Not | Rule::Negate => {
            if node.children.len() == 1 {
                lemma_expr_grows(node.children[0], names, bd);
            }
        },
        Rule::PropLookup => {
            if node.children.len() == 2 && node.children[1].rule == Rule::Id {
                lemma_expr_grows(node.children[0], names, bd);
            }
        },
        Rule::FuncCall => {
            if node.children.len() >= 1 && node.children[0].rule == Rule::Id {
                let name = names.token(node.children[0].text);
                if bd.func_type_of(name) is Some {
                    lemma_exprs_grow(
                        node.children,
                        1,
                        names.tokenize(node.children[0].text),
                        bd,
                        Seq::empty(),
                    );
                }
            }
        },
        _ => {
            if op_of(node.rule) is Some && node.children.len() == 2 {
                lemma_expr_grows(node.children[0], names, bd);
                let left = plan_expr_spec(node.children[0], names, bd);
                if left.result is Ok {
                    lemma_expr_grows(node.children[1], left.names, bd);
                }
            }
        },
    }
}

/// Planning a list of expressions keeps every token with its string.
pub proof fn lemma_exprs_grow(
    nodes: Seq<ParseTree>,
    from: int,
    names: Names,
    bd: &BackendDesc,
    acc: Seq<ExprView>,
)
    ensures
        starts_with(plan_exprs_spec(nodes, from, names, bd, acc).names.tokens, names.tokens),
    decreases nodes, nodes.len() - from,
{
    if 0 <= from < nodes.len() {
        lemma_expr_grows(nodes[from], names, bd);
        let first = plan_expr_spec(nodes[from], names, bd);
        match first.result {
            Ok(e) => {
                lemma_exprs_grow(nodes, from + 1, first.names, bd, acc.push(e));
            },
            Err(_) => {},
        }
    }
}

/// Planning the entries of a map keeps every token with its string.
pub proof fn lemma_entries_grow(
    nodes: Seq<ParseTree>,
    from: int,
    names: Names,
    bd: &BackendDesc,
    acc: Seq<MapEntryView>,
)
    ensures
        starts_with(plan_entries_spec(nodes, from, names, bd, acc).names.tokens, names.tokens),
    decreases nodes, nodes.len() - from,
{
    if 0 <= from < nodes.len() {
        let pair = nodes[from];
        if !(pair.rule != Rule::MapPair || pair.children.len() != 2 || pair.children[0].rule
            != Rule::Id) {
            let key = names.token(pair.children[0].text);
            let named = names.tokenize(pair.children[0].text);
            lemma_expr_grows(pair.children[1], named, bd);
            let val = plan_expr_spec(pair.children[1], named, bd);
            match val.result {
                Ok(e) => {
                    lemma_entries_grow(
                        nodes,
                        from + 1,
                        val.names,
                        bd,
                        acc.push(MapEntryView { key, val: e }),
                    );
                },
                Err(_) => {},
            }
        }
    }
}

/// Interning labels keeps every token with its string.
proof fn lemma_labels_grow(
    children: Seq<ParseTree>,
    from: int,
    tokens: Seq<Seq<char>>,
    acc: Seq<Token>,
)
    ensures
        starts_with(label_tokens(children, from, tokens, acc).0, tokens),
    decreases children.len() - from,
{
    if 0 <= from < children.len() {
        lemma_labels_grow(
            children,
            from + 1,
            intern_table(tokens, children[from].text),
            acc.push(intern_token(tokens, children[from].text) as usize),
        );
    }
}

/// Reading the parts of a node pattern takes nothing back.
proof fn lemma_node_parts_grow(
    parts: Seq<ParseTree>,
    from: int,
    ctx: ContextView,
    bd: &BackendDesc,
    acc: NodeParts,
)
    ensures
        grown(ctx, node_parts_spec(parts, from, ctx, bd, acc).ctx),
    decreases parts.len() - from,
{
    if 0 <= from < parts.len() {
        let part = parts[from];
        match part.rule {
            Rule::Id => {
                lemma_node_parts_grow(
                    parts,
                    from + 1,
                    ctx.tokenize(part.text),
                    bd,
                    NodeParts { identifier: Some(ctx.token(part.text)), ..acc },
                );
            },
            Rule::Label => {
                lemma_labels_grow(part.children, 0, ctx.tokens, acc.labels);
                let (tokens, labels) = label_tokens(part.children, 0, ctx.tokens, acc.labels);
                lemma_node_parts_grow(
                    parts,
                    from + 1,
                    ctx.with_tokens(tokens),
                    bd,
                    NodeParts { labels, ..acc },
                );
            },
            Rule::MapLit => {
                lemma_entries_grow(part.children, 0, names_in(ctx), bd, Seq::empty());
                let m = plan_entries_ctx(part, ctx, bd);
                match m.result {
                    Ok(props) => {
                        lemma_node_parts_grow(parts, from + 1, m.ctx, bd, NodeParts { props, ..acc });
                    },
                    Err(_) => {},
                }
            },
            _ => {},
        }
    }
}

/// Reading the parts of a relationship pattern takes nothing back.
proof fn lemma_rel_parts_grow(
    parts: Seq<ParseTree>,
    from: int,
    ctx: ContextView,
    bd: &BackendDesc,
    acc: RelParts,
)
    ensures
        grown(ctx, rel_parts_spec(parts, from, ctx, bd, acc).ctx),
    decreases parts.len() - from,
{
    if 0 <= from < parts.len() {
        let part = parts[from];
        match part.rule {
            Rule::Id => {
                lemma_rel_parts_grow(
                    parts,
                    from + 1,
                    ctx.tokenize(part.text),
                    bd,
                    RelParts { identifier: Some(ctx.token(part.text)), ..acc },
                );
            },
            Rule::RelType => {
                lemma_rel_parts_grow(
                    parts,
                    from + 1,
                    ctx.tokenize(part.text),
                    bd,
                    RelParts { rel_type: Some(ctx.token(part.text)), ..acc },
                );
            },
            Rule::LeftArrow => {
                lemma_rel_parts_grow(
                    parts,
                    from + 1,
                    ctx,
                    bd,
                    RelParts { dir: Some(Dir::In), ..acc },
                );
            },
            Rule::RightArrow => {
                if acc.dir is None {
                    lemma_rel_parts_grow(
                        parts,
                        from + 1,
                        ctx,
                        bd,
                        RelParts { dir: Some(Dir::Out), ..acc },
                    );
                }
            },
            Rule::MapLit => {
                lemma_entries_grow(part.children, 0, names_in(ctx), bd, Seq::empty());
                let m = plan_entries_ctx(part, ctx, bd);
                match m.result {
                    Ok(props) => {
                        lemma_rel_parts_grow(parts, from + 1, m.ctx, bd, RelParts { props, ..acc });
                    },
                    Err(_) => {},
                }
            },
            _ => {},
        }
    }
}

/// Walking the segments of a pattern takes nothing back.
proof fn lemma_segments_grow(
    segments: Seq<ParseTree>,
    from: int,
    ctx: ContextView,
    bd: &BackendDesc,
    walk: Walk,
)
    ensures
        grown(ctx, segments_spec(segments, from, ctx, bd, walk).ctx),
    decreases segments.len() - from,
{
    if 0 <= from < segments.len() {
        let segment = segments[from];
        match segment.rule {
            Rule::Node => {
                lemma_node_parts_grow(
                    segment.children,
                    0,
                    ctx,
                    bd,
                    NodeParts { identifier: None, labels: Seq::empty(), props: Seq::empty() },
                );
                let parsed = parse_pattern_node_spec(segment, ctx, bd);
                match parsed.result {
                    Err(_) => {},
                    Ok(node) => {
                        let introduced = !node.anonymous && !node.bound;
                        let ctx1 = if introduced {
                            parsed.ctx.declare_tok(node.identifier)
                        } else {
                            parsed.ctx
                        };
                        let g0 = if introduced {
                            walk.graph.introduce(node.identifier)
                        } else {
                            walk.graph
                        };
                        let g1 = g0.merge_node(node);
                        let g2 = match walk.prior_rel {
                            Some(rel) => g1.merge_rel(
                                PatternRelView { right_node: Some(node.identifier), ..rel },
                            ),
                            None => g1,
                        };
                        lemma_segments_grow(
                            segments,
                            from + 1,
                            ctx1,
                            bd,
                            Walk { graph: g2, prior_node: Some(node.identifier), prior_rel: None },
                        );
                    },
                }
            },
            Rule::Rel => match walk.prior_node {
                None => {},
                Some(left_node) => {
                    lemma_rel_parts_grow(
                        segment.children,
                        0,
                        ctx,
                        bd,
                        RelParts {
                            identifier: None,
                            rel_type: None,
                            dir: None,
                            props: Seq::empty(),
                        },
                    );
                    let parsed = parse_pattern_rel_spec(segment, left_node, ctx, bd);
                    match parsed.result {
                        Err(_) => {},
                        Ok(rel) => {
                            let introduced = !rel.anonymous && !rel.bound;
                            let ctx1 = if introduced {
                                parsed.ctx.declare_tok(rel.identifier)
                            } else {
                                parsed.ctx
                            };
                            let g0 = if introduced {
                                walk.graph.introduce(rel.identifier)
                            } else {
                                walk.graph
                            };
                            lemma_segments_grow(
                                segments,
                                from + 1,
                                ctx1,
                                bd,
                                Walk { graph: g0, prior_node: None, prior_rel: Some(rel) },
                            );
                        },
                    }
                },
            },
            _ => {},
        }
    }
}

/// Reading the parts of a statement with patterns takes nothing back.
proof fn lemma_pattern_parts_grow(
    parts: Seq<ParseTree>,
    from: int,
    ctx: ContextView,
    bd: &BackendDesc,
    graph: PatternGraphView,
)
    ensures
        grown(ctx, pattern_parts_spec(parts, from, ctx, bd, graph).ctx),
    decreases parts.len() - from,
{
    if 0 <= from < parts.len() {
        let part = parts[from];
        match part.rule {
            Rule::OptionalClause => {
                lemma_pattern_parts_grow(
                    parts,
                    from + 1,
                    ctx,
                    bd,
                    PatternGraphView { optional: true, ..graph },
                );
            },
            Rule::Pattern => {
                let start = Walk { graph, prior_node: None, prior_rel: None };
                lemma_segments_grow(part.children, 0, ctx, bd, start);
                let walked = segments_spec(part.children, 0, ctx, bd, start);
                match walked.result {
                    Ok(walk) => {
                        lemma_pattern_parts_grow(parts, from + 1, walked.ctx, bd, walk.graph);
                    },
                    Err(_) => {},
                }
            },
            Rule::WhereClause => {
                if part.children.len() >= 1 {
                    lemma_expr_grows(part.children[0], names_in(ctx), bd);
                    let p = plan_expr_ctx(part.children[0], ctx, bd);
                    match p.result {
                        Ok(e) => {
                            lemma_pattern_parts_grow(
                                parts,
                                from + 1,
                                p.ctx,
                                bd,
                                PatternGraphView { predicate: Some(e), ..graph },
                            );
                        },
                        Err(_) => {},
                    }
                }
            },
            _ => {},
        }
    }
}

/// The context `after` differs from the context `before` in its active scope
/// at most.
pub open spec fn scope_only(before: ContextView, after: ContextView) -> bool {
    after == (ContextView { scope: after.scope, ..before }) && (before.scope is Some
        ==> after.scope is Some)
}

/// The solver changes the active scope only.
proof fn lemma_solve_scope_only(pg: PatternGraphView, s: Solving)
    ensures
        scope_only(s.ctx, solve_spec(pg, s).ctx),
    decreases pending(s.nodes_done) + pending(s.rels_done),
{
    if s.nodes_done.len() == pg.v.len() && s.rels_done.len() == pg.e.len() {
        lemma_step_decreases(pg, s);
        let c = candidate(pg, s.nodes_done, s.rels_done, 0);
        if 0 <= c < pg.e.len() && expandable(pg, s.nodes_done, s.rels_done, c) {
            lemma_solve_scope_only(pg, expand_step(pg, s, c));
        } else {
            let p = first_pending(s.nodes_done, 0);
            if 0 <= p < pg.v.len() && !s.nodes_done[p] {
                lemma_solve_scope_only(pg, nest_step(pg, s, p));
            }
        }
    }
}

/// The filters of the nodes change the active scope only.
proof fn lemma_node_filters_scope_only(
    v: Seq<PatternNodeView>,
    from: int,
    ctx: ContextView,
    plan: PlanView,
)
    ensures
        scope_only(ctx, node_filters(v, from, ctx, plan).0),
    decreases v.len() - from,
{
    if 0 <= from < v.len() {
        let slot = slot_in(ctx, v[from].identifier);
        let checks = prop_checks(
            v[from].props,
            0,
            slot,
            label_checks(v[from].labels, 0, slot, Seq::empty()),
        );
        lemma_node_filters_scope_only(
            v,
            from + 1,
            ctx.with_slot(v[from].identifier),
            filtered(plan, checks),
        );
    }
}

/// The filters of the relationships change the active scope only.
proof fn lemma_rel_filters_scope_only(
    e: Seq<PatternRelView>,
    from: int,
    ctx: ContextView,
    plan: PlanView,
)
    ensures
        scope_only(ctx, rel_filters(e, from, ctx, plan).0),
    decreases e.len() - from,
{
    if 0 <= from < e.len() {
        let slot = slot_in(ctx, e[from].identifier);
        let checks = prop_checks(e[from].props, 0, slot, Seq::empty());
        lemma_rel_filters_scope_only(
            e,
            from + 1,
            ctx.with_slot(e[from].identifier),
            filtered(plan, checks),
        );
    }
}

/// Asking for slots changes the active scope only.
proof fn lemma_slots_of_scope_only(toks: Seq<Token>, from: int, ctx: ContextView, acc: Seq<Slot>)
    ensures
        scope_only(ctx, slots_of(toks, from, ctx, acc).0),
    decreases toks.len() - from,
{
    if 0 <= from < toks.len() {
        lemma_slots_of_scope_only(
            toks,
            from + 1,
            ctx.with_slot(toks[from]),
            acc.push(slot_in(ctx, toks[from])),
        );
    }
}

/// Planning how to find a pattern graph changes the active scope only.
pub proof fn lemma_match_subplan_scope_only(pg: PatternGraphView, ctx: ContextView, src: PlanView)
    ensures
        scope_only(ctx, match_subplan_spec(pg, ctx, src).0),
{
    lemma_solve_scope_only(pg, seed_spec(pg, ctx, src));
    let solved = solve_spec(pg, seed_spec(pg, ctx, src));
    lemma_node_filters_scope_only(pg.v, 0, solved.ctx, solved.plan);
    let (ctx1, plan1) = node_filters(pg.v, 0, solved.ctx, solved.plan);
    lemma_rel_filters_scope_only(pg.e, 0, ctx1, plan1);
}

/// Planning a pattern graph, plain or optional, changes the active scope
/// only.
pub proof fn lemma_plan_pattern_scope_only(pg: PatternGraphView, ctx: ContextView, src: PlanView)
    ensures
        scope_only(ctx, plan_pattern_spec(pg, ctx, src).0),
{
    if !pg.optional {
        lemma_match_subplan_scope_only(pg, ctx, src);
    } else if bound_identifiers(pg).len() > 0 {
        lemma_match_subplan_scope_only(pg, ctx, PlanView::Argument);
        let (ctx1, rhs) = match_subplan_spec(pg, ctx, PlanView::Argument);
        lemma_slots_of_scope_only(bound_identifiers(pg), 0, ctx1, Seq::empty());
    } else {
        lemma_match_subplan_scope_only(pg, ctx, src);
        let (ctx1, inner) = match_subplan_spec(pg, ctx, src);
        lemma_slots_of_scope_only(pg.unbound_identifiers, 0, ctx1, Seq::empty());
    }
}

/// Choosing the nodes to create changes the active scope only.
proof fn lemma_nodes_to_create_scope_only(
    v: Seq<PatternNodeView>,
    from: int,
    ctx: ContextView,
    acc: Seq<NodeSpecView>,
)
    ensures
        scope_only(ctx, nodes_to_create(v, from, ctx, acc).0),
    decreases v.len() - from,
{
    if 0 <= from < v.len() {
        if v[from].bound {
            lemma_nodes_to_create_scope_only(v, from + 1, ctx, acc);
        } else {
            lemma_nodes_to_create_scope_only(
                v,
                from + 1,
                ctx.with_slot(v[from].identifier),
                acc.push(
                    NodeSpecView {
                        slot: slot_in(ctx, v[from].identifier),
                        labels: v[from].labels,
                        props: v[from].props,
                    },
                ),
            );
        }
    }
}

/// Choosing the relationships to create changes the active scope only.
proof fn lemma_rels_to_create_scope_only(
    e: Seq<PatternRelView>,
    from: int,
    ctx: ContextView,
    acc: Seq<RelSpecView>,
)
    ensures
        scope_only(ctx, rels_to_create(e, from, ctx, acc).ctx),
    decreases e.len() - from,
{
    if 0 <= from < e.len() {
        let first = rel_to_create(e[from], ctx);
        match first.result {
            Ok(rel) => {
                lemma_rels_to_create_scope_only(e, from + 1, first.ctx, acc.push(rel));
            },
            Err(_) => {},
        }
    }
}

/// Planning the creation of a pattern graph changes the active scope only.
pub proof fn lemma_create_scope_only(pg: PatternGraphView, ctx: ContextView, src: PlanView)
    ensures
        scope_only(ctx, create_spec(pg, ctx, src).ctx),
{
    lemma_nodes_to_create_scope_only(pg.v, 0, ctx, Seq::empty());
    let (ctx1, nodes) = nodes_to_create(pg.v, 0, ctx, Seq::empty());
    lemma_rels_to_create_scope_only(pg.e, 0, ctx1, Seq::empty());
}

/// The changes of a SET statement keep every token with its string.
proof fn lemma_set_actions_grow(
    parts: Seq<ParseTree>,
    from: int,
    names: Names,
    bd: &BackendDesc,
    acc: Seq<SetActionView>,
)
    ensures
        starts_with(set_actions_spec(parts, from, names, bd, acc).names.tokens, names.tokens),
    decreases parts.len() - from,
{
    if 0 <= from < parts.len() {
        let assignment = parts[from];
        match assignment.rule {
            Rule::SingleAssignment => {
                if assignment.children.len() >= 3 {
                    let names1 = names.tokenize(assignment.children[0].text);
                    let names2 = names1.tokenize(assignment.children[1].text);
                    lemma_expr_grows(assignment.children[2], names2, bd);
                }
            },
            Rule::AppendAssignment | Rule::OverwriteAssignment => {
                if assignment.children.len() >= 2 {
                    let names1 = names.tokenize(assignment.children[0].text);
                    lemma_expr_grows(assignment.children[1], names1, bd);
                }
            },
            _ => {},
        }
        let first = set_action_spec(parts[from], names, bd);
        match first.result {
            Ok(action) => {
                lemma_set_actions_grow(parts, from + 1, first.names, bd, acc.push(action));
            },
            Err(_) => {},
        }
    }
}

/// The projections for everything leave the tokens alone.
proof fn lemma_project_all_tokens(
    named: Seq<Token>,
    from: int,
    at: Boundary,
    acc: Seq<ProjectionView>,
)
    ensures
        project_all_spec(named, from, at, acc).0.tokens == at.tokens,
    decreases named.len() - from,
{
    if 0 <= from < named.len() {
        let tok = named[from];
        let read = Boundary { old_scope: at.old_scope.with_slot(tok), ..at };
        lemma_project_all_tokens(
            named,
            from + 1,
            read.bind(tok),
            acc.push(
                ProjectionView {
                    expr: ExprView::Slot(at.old_scope.slot_for(tok) as usize),
                    alias: tok,
                    dst: at.dst(tok),
                },
            ),
        );
    }
}

/// The projections of a statement keep every token with its string.
proof fn lemma_projections_grow(
    parts: Seq<ParseTree>,
    from: int,
    at: Boundary,
    bd: &BackendDesc,
    acc: Seq<ProjectionView>,
)
    ensures
        starts_with(projections_spec(parts, from, at, bd, acc).at.tokens, at.tokens),
    decreases parts.len() - from,
{
    if 0 <= from < parts.len() {
        match parts[from].rule {
            Rule::Projection => {
                if parts[from].children.len() >= 1 {
                    lemma_expr_grows(parts[from].children[0], at.reading(), bd);
                }
                let p = projection_spec(parts[from], at, bd);
                match p.result {
                    Ok(projection) => {
                        lemma_projections_grow(parts, from + 1, p.at, bd, acc.push(projection));
                    },
                    Err(_) => {},
                }
            },
            Rule::ProjectAll => {
                lemma_project_all_tokens(at.old_scope.named, 0, at, acc);
                let (at1, acc1) = project_all_spec(at.old_scope.named, 0, at, acc);
                lemma_projections_grow(parts, from + 1, at1, bd, acc1);
            },
            Rule::OrderClause | Rule::SkipClause | Rule::LimitClause | Rule::WhereClause => {
                lemma_projections_grow(parts, from + 1, at, bd, acc);
            },
            _ => {},
        }
    }
}

/// The expression of a clause keeps every token with its string.
proof fn lemma_clause_expr_grows(parts: Seq<ParseTree>, rule: Rule, names: Names, bd: &BackendDesc)
    ensures
        starts_with(clause_expr_spec(parts, rule, names, bd).names.tokens, names.tokens),
{
    let i = clause_index(parts, rule, 0);
    if 0 <= i < parts.len() && parts[i].children.len() >= 1 {
        lemma_expr_grows(parts[i].children[0], names, bd);
    }
}

/// The clauses that follow the projections keep every token with its string.
proof fn lemma_clauses_grow(parts: Seq<ParseTree>, names: Names, plan: PlanView, bd: &BackendDesc)
    ensures
        starts_with(clauses_spec(parts, names, plan, bd).names.tokens, names.tokens),
{
    let o = clause_index(parts, Rule::OrderClause, 0);
    if 0 <= o < parts.len() {
        lemma_exprs_grow(parts[o].children, 0, names, bd, Seq::empty());
    }
    let sorted = order_spec(parts, names, plan, bd);
    match sorted.result {
        Err(_) => {},
        Ok(sorted_plan) => {
            lemma_clause_expr_grows(parts, Rule::SkipClause, sorted.names, bd);
            let skip = clause_expr_spec(parts, Rule::SkipClause, sorted.names, bd);
            if skip.result is Ok {
                lemma_clause_expr_grows(parts, Rule::LimitClause, skip.names, bd);
            }
            let limited = limit_spec(parts, sorted.names, sorted_plan, bd);
            match limited.result {
                Err(_) => {},
                Ok(limited_plan) => {
                    lemma_clause_expr_grows(parts, Rule::WhereClause, limited.names, bd);
                },
            }
        },
    }
}

/// One statement takes nothing back.
pub proof fn lemma_statement_grows(
    stmt: ParseTree,
    ctx: ContextView,
    src: PlanView,
    bd: &BackendDesc,
)
    ensures
        grown(ctx, plan_statement_spec(stmt, ctx, src, bd).ctx),
{
    match stmt.rule {
        Rule::MatchStmt => {
            lemma_pattern_parts_grow(stmt.children, 0, ctx, bd, PatternGraphView::empty());
            let parsed = parse_pattern_graph_spec(stmt, ctx, bd);
            match parsed.result {
                Ok(pg) => {
                    lemma_plan_pattern_scope_only(pg, parsed.ctx, src);
                },
                Err(_) => {},
            }
        },
        Rule::UnwindStmt => {
            if stmt.children.len() >= 2 {
                lemma_expr_grows(stmt.children[0], names_in(ctx), bd);
            }
        },
        Rule::CreateStmt => {
            lemma_pattern_parts_grow(stmt.children, 0, ctx, bd, PatternGraphView::empty());
            let parsed = parse_pattern_graph_spec(stmt, ctx, bd);
            match parsed.result {
                Ok(pg) => {
                    lemma_create_scope_only(pg, parsed.ctx, src);
                },
                Err(_) => {},
            }
        },
        Rule::MergeStmt => {
            lemma_pattern_parts_grow(stmt.children, 0, ctx, bd, PatternGraphView::empty());
            let parsed = parse_pattern_graph_spec(stmt, ctx, bd);
            match parsed.result {
                Ok(pg) => {
                    lemma_match_subplan_scope_only(pg, parsed.ctx, PlanView::Argument);
                    let (ctx1, lhs) = match_subplan_spec(pg, parsed.ctx, PlanView::Argument);
                    lemma_create_scope_only(pg, ctx1, PlanView::Argument);
                    let rhs = create_spec(pg, ctx1, PlanView::Argument);
                    if rhs.result is Ok {
                        lemma_slots_of_scope_only(pg.unbound_identifiers, 0, rhs.ctx, Seq::empty());
                    }
                },
                Err(_) => {},
            }
        },
        Rule::ReturnStmt | Rule::WithStmt => {
            let produce = stmt.rule == Rule::ReturnStmt;
            let at = Boundary {
                tokens: ctx.tokens,
                old_scope: ctx.scope->0,
                new_scope: ScopeView::empty(),
            };
            lemma_projections_grow(stmt.children, 0, at, bd, Seq::empty());
            let ps = projections_spec(stmt.children, 0, at, bd, Seq::empty());
            match ps.result {
                Ok(projections) => {
                    lemma_clauses_grow(
                        stmt.children,
                        ps.at.filling(),
                        projected(src, projections),
                        bd,
                    );
                },
                Err(_) => {},
            }
        },
        Rule::CallStmt => {
            if stmt.children.len() >= 1 && stmt.children[0].rule == Rule::Id {
                let ctx1 = ctx.tokenize(stmt.children[0].text);
                lemma_exprs_grow(stmt.children, 1, names_in(ctx1), bd, Seq::empty());
            }
        },
        Rule::SetStmt => {
            lemma_set_actions_grow(stmt.children, 0, names_in(ctx), bd, Seq::empty());
        },
        _ => {},
    }
}

/// The statements of a query take nothing back.
pub proof fn lemma_statements_grow(
    stmts: Seq<ParseTree>,
    from: int,
    ctx: ContextView,
    plan: PlanView,
    bd: &BackendDesc,
)
    ensures
        grown(ctx, plan_statements_spec(stmts, from, ctx, plan, bd).ctx),
    decreases stmts.len() - from,
{
    if 0 <= from < stmts.len() {
        lemma_statement_grows(stmts[from], ctx, plan, bd);
        let first = plan_statement_spec(stmts[from], ctx, plan, bd);
        match first.result {
            Ok(next) => {
                lemma_statements_grow(stmts, from + 1, first.ctx, next, bd);
            },
            Err(_) => {},
        }
    }
}

/// Planning never takes back: whatever the text of a query, the context
/// afterwards holds every token of before with its string and every retired
/// scope of before, and it has a scope if it had one.
pub proof fn lemma_planning_grows(text: Seq<char>, ctx: ContextView, bd: &BackendDesc)
    ensures
        grown(ctx, plan_text_spec(text, ctx, bd).ctx),
{
    match parse_spec(text) {
        Some(query) => {
            lemma_statements_grow(query.children, 0, ctx, PlanView::Argument, bd);
        },
        None => {},
    }
}

} // verus!
