//! The pattern graph: what a pattern of nodes and relationships asks for,
//! before the planner decides in which order to find it.

use vstd::prelude::*;
use crate::backend::{intern_table, intern_token, BackendDesc, Token};
use crate::error::ErrorKind;
use crate::frontend::context::ContextView;
use crate::frontend::expr::{entries_view, Expr, ExprView, MapEntryExpr, MapEntryView};
use crate::frontend::expr_planner::{done, fail, plan_entries_ctx, plan_expr_ctx, Outcome};
use crate::frontend::labels::canonical;
use crate::frontend::plan::{opt_expr_view, Dir};
use crate::frontend::syntax::{ParseTree, Rule};

verus! {

/// A node of a pattern.
#[derive(Debug, PartialEq)]
pub struct PatternNode {
    pub identifier: Token,
    /// Sorted, each label once.
    pub labels: Vec<Token>,
    pub props: Vec<MapEntryExpr>,
    /// Whether the pattern gave the node no identifier, as the second node of
    /// `(a)-->()`; it then has one that was made up.
    pub anonymous: bool,
    /// Whether the identifier was declared before the pattern, as `a` is in
    /// the second pattern of `MATCH (a) WITH a MATCH (a)-->(b)`.
    pub bound: bool,
    pub solved: bool,
}

/// The model of a node of a pattern.
pub struct PatternNodeView {
    pub identifier: Token,
    pub labels: Seq<Token>,
    pub props: Seq<MapEntryView>,
    pub anonymous: bool,
    pub bound: bool,
    pub solved: bool,
}

impl View for PatternNode {
    type V = PatternNodeView;

    open spec fn view(&self) -> PatternNodeView {
        PatternNodeView {
            identifier: self.identifier,
            labels: self.labels@,
            props: entries_view(self.props@),
            anonymous: self.anonymous,
            bound: self.bound,
            solved: self.solved,
        }
    }
}

impl PatternNode {
    /// Merges what another mention of the same node says into this one. A
    /// later mention adds nothing.
    pub fn merge(&mut self, _other: &PatternNode)
        ensures
            *final(self) == *old(self),
    {
    }
}

/// A relationship of a pattern.
#[derive(Debug, PartialEq)]
pub struct PatternRel {
    pub identifier: Token,
    pub rel_type: Option<Token>,
    pub left_node: Token,
    pub right_node: Option<Token>,
    /// The direction, seen from the left node.
    pub dir: Option<Dir>,
    pub props: Vec<MapEntryExpr>,
    pub anonymous: bool,
    pub bound: bool,
    pub solved: bool,
}

/// The model of a relationship of a pattern.
pub struct PatternRelView {
    pub identifier: Token,
    pub rel_type: Option<Token>,
    pub left_node: Token,
    pub right_node: Option<Token>,
    pub dir: Option<Dir>,
    pub props: Seq<MapEntryView>,
    pub anonymous: bool,
    pub bound: bool,
    pub solved: bool,
}

impl View for PatternRel {
    type V = PatternRelView;

    open spec fn view(&self) -> PatternRelView {
        PatternRelView {
            identifier: self.identifier,
            rel_type: self.rel_type,
            left_node: self.left_node,
            right_node: self.right_node,
            dir: self.dir,
            props: entries_view(self.props@),
            anonymous: self.anonymous,
            bound: self.bound,
            solved: self.solved,
        }
    }
}

/// The models of a sequence of pattern nodes.
pub open spec fn pattern_nodes_view(nodes: Seq<PatternNode>) -> Seq<PatternNodeView> {
    Seq::new(nodes.len(), |i: int| nodes[i]@)
}

/// The models of a sequence of pattern relationships.
pub open spec fn pattern_rels_view(rels: Seq<PatternRel>) -> Seq<PatternRelView> {
    Seq::new(rels.len(), |i: int| rels[i]@)
}

/// The nodes and relationships of all patterns of one statement.
#[derive(Debug)]
pub struct PatternGraph {
    /// The nodes, in the order in which the text first mentions them.
    pub v: Vec<PatternNode>,
    pub e: Vec<PatternRel>,
    /// The identifiers that this pattern introduces. In the second pattern of
    /// `MATCH (n) WITH n MATCH (n)-[r]->(p)` these are `r` and `p`.
    pub unbound_identifiers: Vec<Token>,
    /// Whether the pattern is that of an OPTIONAL MATCH.
    pub optional: bool,
    /// What must hold for the pattern to match: the WHERE clause.
    pub predicate: Option<Expr>,
}

/// The model of a pattern graph.
pub struct PatternGraphView {
    pub v: Seq<PatternNodeView>,
    pub e: Seq<PatternRelView>,
    pub unbound_identifiers: Seq<Token>,
    pub optional: bool,
    pub predicate: Option<ExprView>,
}

impl PatternGraphView {
    /// The graph without nodes.
    pub open spec fn empty() -> PatternGraphView {
        PatternGraphView {
            v: Seq::empty(),
            e: Seq::empty(),
            unbound_identifiers: Seq::empty(),
            optional: false,
            predicate: None,
        }
    }

    /// The identifiers of the nodes, in the order of their first mention.
    pub open spec fn v_order(self) -> Seq<Token> {
        Seq::new(self.v.len(), |i: int| self.v[i].identifier)
    }

    /// Whether the graph holds a node with this identifier.
    pub open spec fn has_node(self, id: Token) -> bool {
        exists|i: int| 0 <= i < self.v.len() && self.v[i].identifier == id
    }

    /// No two nodes share an identifier.
    pub open spec fn wf(self) -> bool {
        forall|i: int, j: int|
            0 <= i < j < self.v.len() ==> self.v[i].identifier != self.v[j].identifier
    }

    /// The graph with the node `n`, which is added where no node has its
    /// identifier yet.
    pub open spec fn merge_node(self, n: PatternNodeView) -> PatternGraphView {
        if self.has_node(n.identifier) {
            self
        } else {
            PatternGraphView { v: self.v.push(n), ..self }
        }
    }

    /// The graph with one more relationship.
    pub open spec fn merge_rel(self, r: PatternRelView) -> PatternGraphView {
        PatternGraphView { e: self.e.push(r), ..self }
    }

    /// The graph with one more identifier that the pattern introduces.
    pub open spec fn introduce(self, id: Token) -> PatternGraphView {
        PatternGraphView { unbound_identifiers: self.unbound_identifiers.push(id), ..self }
    }
}

impl View for PatternGraph {
    type V = PatternGraphView;

    open spec fn view(&self) -> PatternGraphView {
        PatternGraphView {
            v: pattern_nodes_view(self.v@),
            e: pattern_rels_view(self.e@),
            unbound_identifiers: self.unbound_identifiers@,
            optional: self.optional,
            predicate: opt_expr_view(self.predicate),
        }
    }
}

impl PatternGraph {
    /// A graph without nodes.
    pub fn new() -> (pg: PatternGraph)
        ensures
            pg@ == PatternGraphView::empty(),
    {
        let pg = PatternGraph {
            v: Vec::new(),
            e: Vec::new(),
            unbound_identifiers: Vec::new(),
            optional: false,
            predicate: None,
        };
        assert(pg@.v =~= Seq::empty());
        assert(pg@.e =~= Seq::empty());
        pg
    }

    /// Adds the node to the graph, or merges it into the node that has its
    /// identifier.
    pub fn merge_node(&mut self, n: PatternNode)
        ensures
            final(self)@ == old(self)@.merge_node(n@),
            old(self)@.wf() ==> final(self)@.wf(),
    {
        let mut i: usize = 0;
        while i < self.v.len()
            invariant
                i <= self.v.len(),
                *self == *old(self),
                forall|j: int| 0 <= j < i ==> self@.v[j].identifier != n.identifier,
            decreases self.v.len() - i,
        {
            if self.v[i].identifier == n.identifier {
                assert(self@.v[i as int].identifier == n.identifier);
                return ;
            }
            i += 1;
        }
        self.v.push(n);
        assert(self@.v =~= old(self)@.v.push(n@));
    }

    /// Adds the relationship to the graph.
    pub fn merge_rel(&mut self, r: PatternRel)
        ensures
            final(self)@ == old(self)@.merge_rel(r@),
    {
        self.e.push(r);
        assert(self@.e =~= old(self)@.e.push(r@));
    }
}

/// What the parts of a node pattern have said so far.
pub struct NodeParts {
    pub identifier: Option<Token>,
    pub labels: Seq<Token>,
    pub props: Seq<MapEntryView>,
}

/// The tokens of the labels `children[from..]`, added to `acc`, and the table
/// that holds them.
pub open spec fn label_tokens(
    children: Seq<ParseTree>,
    from: int,
    tokens: Seq<Seq<char>>,
    acc: Seq<Token>,
) -> (Seq<Seq<char>>, Seq<Token>)
    decreases children.len() - from,
{
    if 0 <= from < children.len() {
        label_tokens(
            children,
            from + 1,
            intern_table(tokens, children[from].text),
            acc.push(intern_token(tokens, children[from].text) as usize),
        )
    } else {
        (tokens, acc)
    }
}

/// What `parts[from..]` of a node pattern say, added to `acc`: an identifier,
/// labels, a map of properties.
pub open spec fn node_parts_spec(
    parts: Seq<ParseTree>,
    from: int,
    ctx: ContextView,
    bd: &BackendDesc,
    acc: NodeParts,
) -> Outcome<NodeParts>
    decreases parts.len() - from,
{
    if 0 <= from < parts.len() {
        let part = parts[from];
        match part.rule {
            Rule::Id => node_parts_spec(
                parts,
                from + 1,
                ctx.tokenize(part.text),
                bd,
                NodeParts { identifier: Some(ctx.token(part.text)), ..acc },
            ),
            Rule::Label => {
                let (tokens, labels) = label_tokens(part.children, 0, ctx.tokens, acc.labels);
                node_parts_spec(
                    parts,
                    from + 1,
                    ctx.with_tokens(tokens),
                    bd,
                    NodeParts { labels, ..acc },
                )
            },
            Rule::MapLit => {
                let m = plan_entries_ctx(part, ctx, bd);
                match m.result {
                    Ok(props) => node_parts_spec(
                        parts,
                        from + 1,
                        m.ctx,
                        bd,
                        NodeParts { props, ..acc },
                    ),
                    Err(e) => fail(m.ctx, e),
                }
            },
            _ => fail(ctx, ErrorKind::UnexpectedRule),
        }
    } else {
        done(ctx, acc)
    }
}

/// The pattern node that a parse tree stands for. A node without identifier
/// gets a made-up one. The labels come in canonical form. The node is bound,
/// and solved, if its identifier is declared in the active scope.
pub open spec fn parse_pattern_node_spec(node: ParseTree, ctx: ContextView, bd: &BackendDesc)
    -> Outcome<PatternNodeView> {
    let parts = node_parts_spec(
        node.children,
        0,
        ctx,
        bd,
        NodeParts { identifier: None, labels: Seq::empty(), props: Seq::empty() },
    );
    match parts.result {
        Err(e) => fail(parts.ctx, e),
        Ok(p) => {
            let anonymous = p.identifier is None;
            let ctx1 = if anonymous {
                parts.ctx.new_anon_node()
            } else {
                parts.ctx
            };
            let identifier = match p.identifier {
                Some(t) => t,
                None => parts.ctx.anon_node_token(),
            };
            let bound = ctx1.scope->0.is_declared(identifier);
            done(
                ctx1,
                PatternNodeView {
                    identifier,
                    labels: canonical(p.labels),
                    props: p.props,
                    anonymous,
                    bound,
                    solved: bound,
                },
            )
        },
    }
}

/// What the parts of a relationship pattern have said so far.
pub struct RelParts {
    pub identifier: Option<Token>,
    pub rel_type: Option<Token>,
    pub dir: Option<Dir>,
    pub props: Seq<MapEntryView>,
}

/// What `parts[from..]` of a relationship pattern say, added to `acc`. A left
/// arrow makes the relationship inbound, a right arrow outbound; a right arrow
/// on a relationship that has a direction already is an error.
pub open spec fn rel_parts_spec(
    parts: Seq<ParseTree>,
    from: int,
    ctx: ContextView,
    bd: &BackendDesc,
    acc: RelParts,
) -> Outcome<RelParts>
    decreases parts.len() - from,
{
    if 0 <= from < parts.len() {
        let part = parts[from];
        match part.rule {
            Rule::Id => rel_parts_spec(
                parts,
                from + 1,
                ctx.tokenize(part.text),
                bd,
                RelParts { identifier: Some(ctx.token(part.text)), ..acc },
            ),
            Rule::RelType => rel_parts_spec(
                parts,
                from + 1,
                ctx.tokenize(part.text),
                bd,
                RelParts { rel_type: Some(ctx.token(part.text)), ..acc },
            ),
            Rule::LeftArrow => rel_parts_spec(
                parts,
                from + 1,
                ctx,
                bd,
                RelParts { dir: Some(Dir::In), ..acc },
            ),
            Rule::RightArrow => if acc.dir is Some {
                fail(ctx, ErrorKind::DirectedBothWays)
            } else {
                rel_parts_spec(parts, from + 1, ctx, bd, RelParts { dir: Some(Dir::Out), ..acc })
            },
            Rule::MapLit => {
                let m = plan_entries_ctx(part, ctx, bd);
                match m.result {
                    Ok(props) => rel_parts_spec(
                        parts,
                        from + 1,
                        m.ctx,
                        bd,
                        RelParts { props, ..acc },
                    ),
                    Err(e) => fail(m.ctx, e),
                }
            },
            _ => fail(ctx, ErrorKind::UnexpectedRule),
        }
    } else {
        done(ctx, acc)
    }
}

/// The pattern relationship that a parse tree stands for, to the right of the
/// node `left_node`. Its right node is not known yet.
pub open spec fn parse_pattern_rel_spec(
    rel: ParseTree,
    left_node: Token,
    ctx: ContextView,
    bd: &BackendDesc,
) -> Outcome<PatternRelView> {
    let parts = rel_parts_spec(
        rel.children,
        0,
        ctx,
        bd,
        RelParts { identifier: None, rel_type: None, dir: None, props: Seq::empty() },
    );
    match parts.result {
        Err(e) => fail(parts.ctx, e),
        Ok(p) => {
            let anonymous = p.identifier is None;
            let ctx1 = if anonymous {
                parts.ctx.new_anon_rel()
            } else {
                parts.ctx
            };
            let identifier = match p.identifier {
                Some(t) => t,
                None => parts.ctx.anon_rel_token(),
            };
            let bound = ctx1.scope->0.is_declared(identifier);
            done(
                ctx1,
                PatternRelView {
                    identifier,
                    rel_type: p.rel_type,
                    left_node,
                    right_node: None,
                    dir: p.dir,
                    props: p.props,
                    anonymous,
                    bound,
                    solved: bound,
                },
            )
        },
    }
}

/// Where the builder stands in one pattern: the graph so far, the node just
/// read, and the relationship that waits for its right node.
pub struct Walk {
    pub graph: PatternGraphView,
    pub prior_node: Option<Token>,
    pub prior_rel: Option<PatternRelView>,
}

/// The walk after the segments `segments[from..]` of one pattern. A named
/// identifier that is not yet declared is declared and noted as introduced by
/// the pattern. A node ends the relationship that waits for it.
pub open spec fn segments_spec(
    segments: Seq<ParseTree>,
    from: int,
    ctx: ContextView,
    bd: &BackendDesc,
    walk: Walk,
) -> Outcome<Walk>
    decreases segments.len() - from,
{
    if 0 <= from < segments.len() {
        let segment = segments[from];
        match segment.rule {
            Rule::Node => {
                let parsed = parse_pattern_node_spec(segment, ctx, bd);
                match parsed.result {
                    Err(e) => fail(parsed.ctx, e),
                    Ok(node) => {
                        let introduced = !node.anonymous && !node.bound;
                        let ctx1 = if introduced {
                            parsed.ctx.declare_tok(node.identifier)
                        } else {
                            parsed.ctx
                        };
                        let g0 = if introduced {
                            walk.graph.introduce(node.identifier)
                        } else {
                            walk.graph
                        };
                        let g1 = g0.merge_node(node);
                        let g2 = match walk.prior_rel {
                            Some(rel) => g1.merge_rel(
                                PatternRelView { right_node: Some(node.identifier), ..rel },
                            ),
                            None => g1,
                        };
                        segments_spec(
                            segments,
                            from + 1,
                            ctx1,
                            bd,
                            Walk { graph: g2, prior_node: Some(node.identifier), prior_rel: None },
                        )
                    },
                }
            },
            Rule::Rel => match walk.prior_node {
                None => fail(ctx, ErrorKind::UnexpectedRule),
                Some(left_node) => {
                    let parsed = parse_pattern_rel_spec(segment, left_node, ctx, bd);
                    match parsed.result {
                        Err(e) => fail(parsed.ctx, e),
                        Ok(rel) => {
                            let introduced = !rel.anonymous && !rel.bound;
                            let ctx1 = if introduced {
                                parsed.ctx.declare_tok(rel.identifier)
                            } else {
                                parsed.ctx
                            };
                            let g0 = if introduced {
                                walk.graph.introduce(rel.identifier)
                            } else {
                                walk.graph
                            };
                            segments_spec(
                                segments,
                                from + 1,
                                ctx1,
                                bd,
                                Walk { graph: g0, prior_node: None, prior_rel: Some(rel) },
                            )
                        },
                    }
                },
            },
            _ => fail(ctx, ErrorKind::UnexpectedRule),
        }
    } else {
        done(ctx, walk)
    }
}

/// The graph after the parts `parts[from..]` of a statement: the mark of an
/// optional match, patterns, and a WHERE clause.
pub open spec fn pattern_parts_spec(
    parts: Seq<ParseTree>,
    from: int,
    ctx: ContextView,
    bd: &BackendDesc,
    graph: PatternGraphView,
) -> Outcome<PatternGraphView>
    decreases parts.len() - from,
{
    if 0 <= from < parts.len() {
        let part = parts[from];
        match part.rule {
            Rule::OptionalClause => pattern_parts_spec(
                parts,
                from + 1,
                ctx,
                bd,
                PatternGraphView { optional: true, ..graph },
            ),
            Rule::Pattern => {
                let walked = segments_spec(
                    part.children,
                    0,
                    ctx,
                    bd,
                    Walk { graph, prior_node: None, prior_rel: None },
                );
                match walked.result {
                    Ok(walk) => pattern_parts_spec(parts, from + 1, walked.ctx, bd, walk.graph),
                    Err(e) => fail(walked.ctx, e),
                }
            },
            Rule::WhereClause => if part.children.len() < 1 {
                fail(ctx, ErrorKind::UnexpectedRule)
            } else {
                let p = plan_expr_ctx(part.children[0], ctx, bd);
                match p.result {
                    Ok(e) => pattern_parts_spec(
                        parts,
                        from + 1,
                        p.ctx,
                        bd,
                        PatternGraphView { predicate: Some(e), ..graph },
                    ),
                    Err(e) => fail(p.ctx, e),
                }
            },
            _ => fail(ctx, ErrorKind::UnexpectedRule),
        }
    } else {
        done(ctx, graph)
    }
}

/// The pattern graph of a statement.
pub open spec fn parse_pattern_graph_spec(stmt: ParseTree, ctx: ContextView, bd: &BackendDesc)
    -> Outcome<PatternGraphView> {
    pattern_parts_spec(stmt.children, 0, ctx, bd, PatternGraphView::empty())
}

} // verus!
