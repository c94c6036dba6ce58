//! The builder of pattern graphs: it reads the parse tree of the patterns of
//! one statement.

use vstd::prelude::*;
use crate::backend::Token;
use crate::error::{Error, ErrorKind};
use crate::frontend::context::PlanningContext;
use crate::frontend::expr::{entries_view, MapEntryExpr};
use crate::frontend::expr_planner::{context_kept, lemma_children, parse_map_in, plan_expr_in};
use crate::frontend::labels::canonicalize;
use crate::frontend::pattern::{
    label_tokens, node_parts_spec, parse_pattern_graph_spec, parse_pattern_node_spec,
    parse_pattern_rel_spec, pattern_parts_spec, rel_parts_spec, segments_spec, NodeParts,
    PatternGraph, PatternGraphView, PatternNode, PatternNodeView, PatternRel, PatternRelView,
    RelParts, Walk,
};
use crate::frontend::plan::Dir;
use crate::frontend::syntax::{trees_view, ParseNode, Rule};

verus! {

/// Interns the labels under `part` and adds their tokens to `labels`.
fn read_labels(pc: &mut PlanningContext, part: &ParseNode, labels: &mut Vec<Token>)
    requires
        old(pc)@.active(),
    ensures
        context_kept(*old(pc), *final(pc)),
        ({
            let (tokens, all) = label_tokens(part@.children, 0, old(pc)@.tokens, old(labels)@);
            final(pc)@ == old(pc)@.with_tokens(tokens) && final(labels)@ == all
        }),
{
    proof {
        lemma_children(*part);
    }
    let mut j: usize = 0;
    while j < part.children.len()
        invariant
            j <= part.children.len(),
            context_kept(*old(pc), *pc),
            part@.children == trees_view(part.children@),
            pc@ == old(pc)@.with_tokens(pc@.tokens),
            label_tokens(part@.children, j as int, pc@.tokens, labels@) == label_tokens(
                part@.children,
                0,
                old(pc)@.tokens,
                old(labels)@,
            ),
        decreases part.children.len() - j,
    {
        let tok = pc.tokenize(part.children[j].text.as_str());
        labels.push(tok);
        j += 1;
    }
}

/// Reads one node of a pattern.
pub fn parse_pattern_node(pc: &mut PlanningContext, pattern_node: &ParseNode) -> (r: Result<
    PatternNode,
    Error,
>)
    requires
        old(pc)@.active(),
    ensures
        context_kept(*old(pc), *final(pc)),
        ({
            let spec = parse_pattern_node_spec(pattern_node@, old(pc)@, old(pc).backend_desc);
            match r {
                Ok(n) => spec.result == Ok::<PatternNodeView, ErrorKind>(n@) && final(pc)@
                    == spec.ctx,
                Err(err) => spec.result == Err::<PatternNodeView, ErrorKind>(err.kind),
            }
        }),
{
    proof {
        lemma_children(*pattern_node);
    }
    let mut identifier: Option<Token> = None;
    let mut labels: Vec<Token> = Vec::new();
    let mut props: Vec<MapEntryExpr> = Vec::new();
    assert(entries_view(props@) =~= Seq::empty());
    let mut i: usize = 0;
    while i < pattern_node.children.len()
        invariant
            i <= pattern_node.children.len(),
            context_kept(*old(pc), *pc),
            pattern_node@.children == trees_view(pattern_node.children@),
            node_parts_spec(
                pattern_node@.children,
                i as int,
                pc@,
                pc.backend_desc,
                NodeParts { identifier, labels: labels@, props: entries_view(props@) },
            ) == node_parts_spec(
                pattern_node@.children,
                0,
                old(pc)@,
                pc.backend_desc,
                NodeParts { identifier: None, labels: Seq::empty(), props: Seq::empty() },
            ),
        decreases pattern_node.children.len() - i,
    {
        let part = &pattern_node.children[i];
        match part.rule {
            Rule::Id => {
                identifier = Some(pc.tokenize(part.text.as_str()));
            },
            Rule::Label => {
                read_labels(pc, part, &mut labels);
            },
            Rule::MapLit => {
                match parse_map_in(pc, part) {
                    Ok(entries) => {
                        props = entries;
                    },
                    Err(e) => {
                        return Err(e);
                    },
                }
            },
            _ => {
                return Err(Error::new(ErrorKind::UnexpectedRule));
            },
        }
        i += 1;
    }
    let anonymous = identifier.is_none();
    let id = match identifier {
        Some(t) => t,
        None => pc.new_anon_node(),
    };
    let labels = canonicalize(&labels);
    let is_bound = pc.is_declared(id);
    Ok(PatternNode { identifier: id, labels, props, anonymous, bound: is_bound, solved: is_bound })
}

/// Reads one relationship of a pattern, to the right of the node `left_node`.
pub fn parse_pattern_rel(pc: &mut PlanningContext, left_node: Token, pattern_rel: &ParseNode) -> (r:
    Result<PatternRel, Error>)
    requires
        old(pc)@.active(),
    ensures
        context_kept(*old(pc), *final(pc)),
        ({
            let spec = parse_pattern_rel_spec(
                pattern_rel@,
                left_node,
                old(pc)@,
                old(pc).backend_desc,
            );
            match r {
                Ok(rel) => spec.result == Ok::<PatternRelView, ErrorKind>(rel@) && final(pc)@
                    == spec.ctx,
                Err(err) => spec.result == Err::<PatternRelView, ErrorKind>(err.kind),
            }
        }),
{
    proof {
        lemma_children(*pattern_rel);
    }
    let mut identifier: Option<Token> = None;
    let mut rel_type: Option<Token> = None;
    let mut dir: Option<Dir> = None;
    let mut props: Vec<MapEntryExpr> = Vec::new();
    assert(entries_view(props@) =~= Seq::empty());
    let mut i: usize = 0;
    while i < pattern_rel.children.len()
        invariant
            i <= pattern_rel.children.len(),
            context_kept(*old(pc), *pc),
            pattern_rel@.children == trees_view(pattern_rel.children@),
            rel_parts_spec(
                pattern_rel@.children,
                i as int,
                pc@,
                pc.backend_desc,
                RelParts { identifier, rel_type, dir, props: entries_view(props@) },
            ) == rel_parts_spec(
                pattern_rel@.children,
                0,
                old(pc)@,
                pc.backend_desc,
                RelParts { identifier: None, rel_type: None, dir: None, props: Seq::empty() },
            ),
        decreases pattern_rel.children.len() - i,
    {
        let part = &pattern_rel.children[i];
        match part.rule {
            Rule::Id => {
                identifier = Some(pc.tokenize(part.text.as_str()));
            },
            Rule::RelType => {
                rel_type = Some(pc.tokenize(part.text.as_str()));
            },
            Rule::LeftArrow => {
                dir = Some(Dir::In);
            },
            Rule::RightArrow => {
                if dir.is_some() {
                    return Err(Error::new(ErrorKind::DirectedBothWays));
                }
                dir = Some(Dir::Out);
            },
            Rule::MapLit => {
                match parse_map_in(pc, part) {
                    Ok(entries) => {
                        props = entries;
                    },
                    Err(e) => {
                        return Err(e);
                    },
                }
            },
            _ => {
                return Err(Error::new(ErrorKind::UnexpectedRule));
            },
        }
        i += 1;
    }
    let anonymous = identifier.is_none();
    let id = match identifier {
        Some(t) => t,
        None => pc.new_anon_rel(),
    };
    let is_bound = pc.is_declared(id);
    Ok(
        PatternRel {
            left_node,
            right_node: None,
            identifier: id,
            rel_type,
            dir,
            props,
            anonymous,
            bound: is_bound,
            solved: is_bound,
        },
    )
}

/// The model of a relationship that may be absent.
pub open spec fn opt_rel_view(rel: Option<PatternRel>) -> Option<PatternRelView> {
    match rel {
        Some(r) => Some(r@),
        None => None,
    }
}

/// Reads the nodes and relationships of one pattern into the graph.
fn walk_pattern(pc: &mut PlanningContext, pg: &mut PatternGraph, pattern: &ParseNode) -> (r:
    Result<(), Error>)
    requires
        old(pc)@.active(),
    ensures
        context_kept(*old(pc), *final(pc)),
        ({
            let spec = segments_spec(
                pattern@.children,
                0,
                old(pc)@,
                old(pc).backend_desc,
                Walk { graph: old(pg)@, prior_node: None, prior_rel: None },
            );
            match r {
                Ok(_) => spec.result is Ok && final(pg)@ == spec.result->Ok_0.graph && final(pc)@
                    == spec.ctx,
                Err(err) => spec.result == Err::<Walk, ErrorKind>(err.kind),
            }
        }),
{
    proof {
        lemma_children(*pattern);
    }
    let mut prior_node_id: Option<Token> = None;
    let mut prior_rel: Option<PatternRel> = None;
    let mut i: usize = 0;
    while i < pattern.children.len()
        invariant
            i <= pattern.children.len(),
            context_kept(*old(pc), *pc),
            pattern@.children == trees_view(pattern.children@),
            segments_spec(
                pattern@.children,
                i as int,
                pc@,
                pc.backend_desc,
                Walk { graph: pg@, prior_node: prior_node_id, prior_rel: opt_rel_view(prior_rel) },
            ) == segments_spec(
                pattern@.children,
                0,
                old(pc)@,
                pc.backend_desc,
                Walk { graph: old(pg)@, prior_node: None, prior_rel: None },
            ),
        decreases pattern.children.len() - i,
    {
        let segment = &pattern.children[i];
        match segment.rule {
            Rule::Node => {
                match parse_pattern_node(pc, segment) {
                    Err(e) => {
                        return Err(e);
                    },
                    Ok(current_node) => {
                        let id = current_node.identifier;
                        if !current_node.anonymous && !current_node.bound {
                            pc.declare_tok(id);
                            pg.unbound_identifiers.push(id);
                        }
                        prior_node_id = Some(id);
                        pg.merge_node(current_node);
                        let waiting = prior_rel;
                        prior_rel = None;
                        match waiting {
                            Some(rel) => {
                                let mut rel = rel;
                                rel.right_node = Some(id);
                                pg.merge_rel(rel);
                            },
                            None => {},
                        }
                    },
                }
            },
            Rule::Rel => {
                match prior_node_id {
                    None => {
                        return Err(Error::new(ErrorKind::UnexpectedRule));
                    },
                    Some(left_node) => {
                        match parse_pattern_rel(pc, left_node, segment) {
                            Err(e) => {
                                return Err(e);
                            },
                            Ok(current_rel) => {
                                if !current_rel.anonymous && !current_rel.bound {
                                    pc.declare_tok(current_rel.identifier);
                                    pg.unbound_identifiers.push(current_rel.identifier);
                                }
                                prior_rel = Some(current_rel);
                                prior_node_id = None;
                            },
                        }
                    },
                }
            },
            _ => {
                return Err(Error::new(ErrorKind::UnexpectedRule));
            },
        }
        i += 1;
    }
    Ok(())
}

/// Reads the patterns of a statement into a pattern graph.
pub fn parse_pattern_graph(pc: &mut PlanningContext, patterns: &ParseNode) -> (r: Result<
    PatternGraph,
    Error,
>)
    requires
        old(pc)@.active(),
    ensures
        context_kept(*old(pc), *final(pc)),
        ({
            let spec = parse_pattern_graph_spec(patterns@, old(pc)@, old(pc).backend_desc);
            match r {
                Ok(pg) => spec.result == Ok::<PatternGraphView, ErrorKind>(pg@) && final(pc)@
                    == spec.ctx,
                Err(err) => spec.result == Err::<PatternGraphView, ErrorKind>(err.kind),
            }
        }),
{
    proof {
        lemma_children(*patterns);
    }
    let mut pg = PatternGraph::new();
    let mut i: usize = 0;
    while i < patterns.children.len()
        invariant
            i <= patterns.children.len(),
            context_kept(*old(pc), *pc),
            patterns@.children == trees_view(patterns.children@),
            pattern_parts_spec(patterns@.children, i as int, pc@, pc.backend_desc, pg@)
                == pattern_parts_spec(
                patterns@.children,
                0,
                old(pc)@,
                pc.backend_desc,
                PatternGraphView::empty(),
            ),
        decreases patterns.children.len() - i,
    {
        let part = &patterns.children[i];
        match part.rule {
            Rule::OptionalClause => {
                pg.optional = true;
            },
            Rule::Pattern => {
                match walk_pattern(pc, &mut pg, part) {
                    Ok(_) => {},
                    Err(e) => {
                        return Err(e);
                    },
                }
            },
            Rule::WhereClause => {
                proof {
                    lemma_children(*part);
                }
                if part.children.len() < 1 {
                    return Err(Error::new(ErrorKind::UnexpectedRule));
                }
                match plan_expr_in(pc, &part.children[0]) {
                    Ok(e) => {
                        pg.predicate = Some(e);
                    },
                    Err(e) => {
                        return Err(e);
                    },
                }
            },
            _ => {
                return Err(Error::new(ErrorKind::UnexpectedRule));
            },
        }
        i += 1;
    }
    Ok(pg)
}

} // verus!
