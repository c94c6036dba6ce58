//! Which identifiers a query names: planning an expression names none, and a
//! pattern names exactly the identifiers that it introduces.

use vstd::prelude::*;
use crate::backend::{BackendDesc, Token};
use crate::frontend::context::ContextView;
use crate::frontend::expr::{ExprView, MapEntryView};
use crate::frontend::expr_planner::{
    names_in, op_of, plan_entries_ctx, plan_entries_spec, plan_expr_ctx, plan_expr_spec,
    plan_exprs_spec, Names,
};
use crate::frontend::pattern::{
    label_tokens, node_parts_spec, parse_pattern_graph_spec, parse_pattern_node_spec,
    parse_pattern_rel_spec, pattern_parts_spec, rel_parts_spec, segments_spec, NodeParts,
    PatternGraphView, PatternRelView, RelParts, Walk,
};
use crate::frontend::plan::Dir;
use crate::frontend::syntax::{ParseTree, Rule};

verus! {

/// Planning an expression declares nothing: the named identifiers of the
/// scope stay as they are.
pub proof fn lemma_expr_keeps_named(node: ParseTree, names: Names, bd: &BackendDesc)
    ensures
        plan_expr_spec(node, names, bd).names.scope.named == names.scope.named,
    decreases node, 0nat,
{
    match node.rule {
        Rule::List | Rule::And | Rule::Or => {
            lemma_exprs_keep_named(node.children, 0, names, bd, Seq::empty());
        },
        Rule::MapLit => {
            lemma_entries_keep_named(node.children, 0, names, bd, Seq::empty());
        },
        Rule::Not | Rule::Negate => {
            if node.children.len() == 1 {
                lemma_expr_keeps_named(node.children[0], names, bd);
            }
        },
        Rule::PropLookup => {
            if node.children.len() == 2 && node.children[1].rule == Rule::Id {
                lemma_expr_keeps_named(node.children[0], names, bd);
            }
        },
        Rule::FuncCall => {
            if node.children.len() >= 1 && node.children[0].rule == Rule::Id {
                let name = names.token(node.children[0].text);
                if bd.func_type_of(name) is Some {
                    lemma_exprs_keep_named(
                        node.children,
                        1,
                        names.tokenize(node.children[0].text),
                        bd,
                        Seq::empty(),
                    );
                }
            }
        },
        _ => {
            if op_of(node.rule) is Some && node.children.len() == 2 {
                lemma_expr_keeps_named(node.children[0], names, bd);
                let left = plan_expr_spec(node.children[0], names, bd);
                if left.result is Ok {
                    lemma_expr_keeps_named(node.children[1], left.names, bd);
                }
            }
        },
    }
}

/// Planning a list of expressions declares nothing.
pub proof fn lemma_exprs_keep_named(
    nodes: Seq<ParseTree>,
    from: int,
    names: Names,
    bd: &BackendDesc,
    acc: Seq<ExprView>,
)
    ensures
        plan_exprs_spec(nodes, from, names, bd, acc).names.scope.named == names.scope.named,
    decreases nodes, nodes.len() - from,
{
    if 0 <= from < nodes.len() {
        lemma_expr_keeps_named(nodes[from], names, bd);
        let first = plan_expr_spec(nodes[from], names, bd);
        match first.result {
            Ok(e) => {
                lemma_exprs_keep_named(nodes, from + 1, first.names, bd, acc.push(e));
            },
            Err(_) => {},
        }
    }
}

/// Planning the entries of a map declares nothing.
pub proof fn lemma_entries_keep_named(
    nodes: Seq<ParseTree>,
    from: int,
    names: Names,
    bd: &BackendDesc,
    acc: Seq<MapEntryView>,
)
    ensures
        plan_entries_spec(nodes, from, names, bd, acc).names.scope.named == names.scope.named,
    decreases nodes, nodes.len() - from,
{
    if 0 <= from < nodes.len() {
        let pair = nodes[from];
        if !(pair.rule != Rule::MapPair || pair.children.len() != 2 || pair.children[0].rule
            != Rule::Id) {
            let key = names.token(pair.children[0].text);
            let named = names.tokenize(pair.children[0].text);
            lemma_expr_keeps_named(pair.children[1], named, bd);
            let val = plan_expr_spec(pair.children[1], named, bd);
            match val.result {
                Ok(e) => {
                    lemma_entries_keep_named(
                        nodes,
                        from + 1,
                        val.names,
                        bd,
                        acc.push(MapEntryView { key, val: e }),
                    );
                },
                Err(_) => {},
            }
        }
    }
}

/// The context has a scope with the named identifiers `named`.
pub open spec fn names_are(ctx: ContextView, named: Seq<Token>) -> bool {
    ctx.scope is Some && ctx.scope->0.named == named
}

/// Reading the parts of a node pattern declares nothing.
proof fn lemma_node_parts_keep_named(
    parts: Seq<ParseTree>,
    from: int,
    ctx: ContextView,
    bd: &BackendDesc,
    acc: NodeParts,
)
    requires
        ctx.scope is Some,
    ensures
        names_are(node_parts_spec(parts, from, ctx, bd, acc).ctx, ctx.scope->0.named),
    decreases parts.len() - from,
{
    if 0 <= from < parts.len() {
        let part = parts[from];
        match part.rule {
            Rule::Id => {
                lemma_node_parts_keep_named(
                    parts,
                    from + 1,
                    ctx.tokenize(part.text),
                    bd,
                    NodeParts { identifier: Some(ctx.token(part.text)), ..acc },
                );
            },
            Rule::Label => {
                let (tokens, labels) = label_tokens(part.children, 0, ctx.tokens, acc.labels);
                lemma_node_parts_keep_named(
                    parts,
                    from + 1,
                    ctx.with_tokens(tokens),
                    bd,
                    NodeParts { labels, ..acc },
                );
            },
            Rule::MapLit => {
                lemma_entries_keep_named(part.children, 0, names_in(ctx), bd, Seq::empty());
                let m = plan_entries_ctx(part, ctx, bd);
                match m.result {
                    Ok(props) => {
                        lemma_node_parts_keep_named(
                            parts,
                            from + 1,
                            m.ctx,
                            bd,
                            NodeParts { props, ..acc },
                        );
                    },
                    Err(_) => {},
                }
            },
            _ => {},
        }
    }
}

/// Reading the parts of a relationship pattern declares nothing.
proof fn lemma_rel_parts_keep_named(
    parts: Seq<ParseTree>,
    from: int,
    ctx: ContextView,
    bd: &BackendDesc,
    acc: RelParts,
)
    requires
        ctx.scope is Some,
    ensures
        names_are(rel_parts_spec(parts, from, ctx, bd, acc).ctx, ctx.scope->0.named),
    decreases parts.len() - from,
{
    if 0 <= from < parts.len() {
        let part = parts[from];
        match part.rule {
            Rule::Id => {
                lemma_rel_parts_keep_named(
                    parts,
                    from + 1,
                    ctx.tokenize(part.text),
                    bd,
                    RelParts { identifier: Some(ctx.token(part.text)), ..acc },
                );
            },
            Rule::RelType => {
                lemma_rel_parts_keep_named(
                    parts,
                    from + 1,
                    ctx.tokenize(part.text),
                    bd,
                    RelParts { rel_type: Some(ctx.token(part.text)), ..acc },
                );
            },
            Rule::LeftArrow => {
                lemma_rel_parts_keep_named(
                    parts,
                    from + 1,
                    ctx,
                    bd,
                    RelParts { dir: Some(Dir::In), ..acc },
                );
            },
            Rule::RightArrow => {
                if acc.dir is None {
                    lemma_rel_parts_keep_named(
                        parts,
                        from + 1,
                        ctx,
                        bd,
                        RelParts { dir: Some(Dir::Out), ..acc },
                    );
                }
            },
            Rule::MapLit => {
                lemma_entries_keep_named(part.children, 0, names_in(ctx), bd, Seq::empty());
                let m = plan_entries_ctx(part, ctx, bd);
                match m.result {
                    Ok(props) => {
                        lemma_rel_parts_keep_named(
                            parts,
                            from + 1,
                            m.ctx,
                            bd,
                            RelParts { props, ..acc },
                        );
                    },
                    Err(_) => {},
                }
            },
            _ => {},
        }
    }
}

/// Walking the segments of a pattern names exactly the identifiers that the
/// walk notes as introduced.
proof fn lemma_segments_name_introduced(
    segments: Seq<ParseTree>,
    from: int,
    ctx: ContextView,
    bd: &BackendDesc,
    walk: Walk,
    base: Seq<Token>,
)
    requires
        names_are(ctx, base + walk.graph.unbound_identifiers),
    ensures
        segments_spec(segments, from, ctx, bd, walk).result matches Ok(end) ==> names_are(
            segments_spec(segments, from, ctx, bd, walk).ctx,
            base + end.graph.unbound_identifiers,
        ),
    decreases segments.len() - from,
{
    if 0 <= from < segments.len() {
        let segment = segments[from];
        match segment.rule {
            Rule::Node => {
                lemma_node_parts_keep_named(
                    segment.children,
                    0,
                    ctx,
                    bd,
                    NodeParts { identifier: None, labels: Seq::empty(), props: Seq::empty() },
                );
                let parsed = parse_pattern_node_spec(segment, ctx, bd);
                match parsed.result {
                    Err(_) => {},
                    Ok(node) => {
                        let introduced = !node.anonymous && !node.bound;
                        let ctx1 = if introduced {
                            parsed.ctx.declare_tok(node.identifier)
                        } else {
                            parsed.ctx
                        };
                        let g0 = if introduced {
                            walk.graph.introduce(node.identifier)
                        } else {
                            walk.graph
                        };
                        let g1 = g0.merge_node(node);
                        let g2 = match walk.prior_rel {
                            Some(rel) => g1.merge_rel(
                                PatternRelView {
                                    right_node: Some(node.identifier),
                                    ..rel
                                },
                            ),
                            None => g1,
                        };
                        assert(g2.unbound_identifiers == g0.unbound_identifiers);
                        if introduced {
                            assert(base + walk.graph.unbound_identifiers.push(node.identifier)
                                =~= (base + walk.graph.unbound_identifiers).push(
                                node.identifier,
                            ));
                        }
                        lemma_segments_name_introduced(
                            segments,
                            from + 1,
                            ctx1,
                            bd,
                            Walk { graph: g2, prior_node: Some(node.identifier), prior_rel: None },
                            base,
                        );
                    },
                }
            },
            Rule::Rel => match walk.prior_node {
                None => {},
                Some(left_node) => {
                    lemma_rel_parts_keep_named(
                        segment.children,
                        0,
                        ctx,
                        bd,
                        RelParts {
                            identifier: None,
                            rel_type: None,
                            dir: None,
                            props: Seq::empty(),
                        },
                    );
                    let parsed = parse_pattern_rel_spec(segment, left_node, ctx, bd);
                    match parsed.result {
                        Err(_) => {},
                        Ok(rel) => {
                            let introduced = !rel.anonymous && !rel.bound;
                            let ctx1 = if introduced {
                                parsed.ctx.declare_tok(rel.identifier)
                            } else {
                                parsed.ctx
                            };
                            let g0 = if introduced {
                                walk.graph.introduce(rel.identifier)
                            } else {
                                walk.graph
                            };
                            if introduced {
                                assert(base + walk.graph.unbound_identifiers.push(rel.identifier)
                                    =~= (base + walk.graph.unbound_identifiers).push(
                                    rel.identifier,
                                ));
                            }
                            lemma_segments_name_introduced(
                                segments,
                                from + 1,
                                ctx1,
                                bd,
                                Walk { graph: g0, prior_node: None, prior_rel: Some(rel) },
                                base,
                            );
                        },
                    }
                },
            },
            _ => {},
        }
    }
}

/// Reading the parts of a statement names exactly the identifiers that the
/// graph notes as introduced.
proof fn lemma_parts_name_introduced(
    parts: Seq<ParseTree>,
    from: int,
    ctx: ContextView,
    bd: &BackendDesc,
    graph: PatternGraphView,
    base: Seq<Token>,
)
    requires
        names_are(ctx, base + graph.unbound_identifiers),
    ensures
        pattern_parts_spec(parts, from, ctx, bd, graph).result matches Ok(pg) ==> names_are(
            pattern_parts_spec(parts, from, ctx, bd, graph).ctx,
            base + pg.unbound_identifiers,
        ),
    decreases parts.len() - from,
{
    if 0 <= from < parts.len() {
        let part = parts[from];
        match part.rule {
            Rule::OptionalClause => {
                lemma_parts_name_introduced(
                    parts,
                    from + 1,
                    ctx,
                    bd,
                    PatternGraphView { optional: true, ..graph },
                    base,
                );
            },
            Rule::Pattern => {
                let start = Walk { graph, prior_node: None, prior_rel: None };
                lemma_segments_name_introduced(part.children, 0, ctx, bd, start, base);
                let walked = segments_spec(part.children, 0, ctx, bd, start);
                match walked.result {
                    Ok(walk) => {
                        lemma_parts_name_introduced(
                            parts,
                            from + 1,
                            walked.ctx,
                            bd,
                            walk.graph,
                            base,
                        );
                    },
                    Err(_) => {},
                }
            },
            Rule::WhereClause => {
                if part.children.len() >= 1 {
                    lemma_expr_keeps_named(part.children[0], names_in(ctx), bd);
                    let p = plan_expr_ctx(part.children[0], ctx, bd);
                    match p.result {
                        Ok(e) => {
                            lemma_parts_name_introduced(
                                parts,
                                from + 1,
                                p.ctx,
                                bd,
                                PatternGraphView { predicate: Some(e), ..graph },
                                base,
                            );
                        },
                        Err(_) => {},
                    }
                }
            },
            _ => {},
        }
    }
}

/// What a pattern names: after the patterns of a statement have been read,
/// the named identifiers of the scope are those from before, followed by the
/// identifiers that the pattern graph notes as introduced. An identifier that
/// was made up for an element without a name is not among them, so a
/// projection of everything does not show it.
pub proof fn lemma_pattern_names(stmt: ParseTree, ctx: ContextView, bd: &BackendDesc)
    requires
        ctx.active(),
    ensures
        parse_pattern_graph_spec(stmt, ctx, bd).result matches Ok(pg) ==> names_are(
            parse_pattern_graph_spec(stmt, ctx, bd).ctx,
            ctx.scope->0.named + pg.unbound_identifiers,
        ),
{
    assert(ctx.scope->0.named + PatternGraphView::empty().unbound_identifiers
        =~= ctx.scope->0.named);
    lemma_parts_name_introduced(
        stmt.children,
        0,
        ctx,
        bd,
        PatternGraphView::empty(),
        ctx.scope->0.named,
    );
}

} // verus!
