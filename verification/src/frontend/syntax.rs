//! The parse tree that the planner reads.

use vstd::prelude::*;

verus! {

/// The kinds of nodes in a parse tree.
#[derive(Debug, PartialEq, Eq, Copy, Clone, Structural)]
pub enum Rule {
    /// A whole query: its statements, then `Eoi`.
    Query,
    /// `[OPTIONAL] MATCH pattern, .. [WHERE expr]`.
    MatchStmt,
    OptionalClause,
    /// A chain of nodes and relationships: `node (rel node)*`.
    Pattern,
    /// `( [id] [label] [map] )`.
    Node,
    /// `[<] - [ [id] [: rel_type] [map] ] - [>]`.
    Rel,
    LeftArrow,
    RightArrow,
    RelType,
    /// The labels of a node; each child is an `Id`.
    Label,
    Id,
    /// A map literal; each child is a `MapPair`.
    MapLit,
    /// `id : expr`.
    MapPair,
    WhereClause,
    CreateStmt,
    MergeStmt,
    WithStmt,
    ReturnStmt,
    UnwindStmt,
    CallStmt,
    SetStmt,
    /// `id . id = expr`.
    SingleAssignment,
    /// `id += expr`.
    AppendAssignment,
    /// `id = expr`.
    OverwriteAssignment,
    /// `expr [AS id]`.
    Projection,
    /// `*`.
    ProjectAll,
    OrderClause,
    SkipClause,
    LimitClause,
    Or,
    And,
    Not,
    Negate,
    Eq,
    NotEq,
    Lt,
    Gt,
    LtEq,
    GtEq,
    Add,
    Sub,
    Mul,
    Div,
    Mod,
    /// `expr . id`.
    PropLookup,
    /// `id ( expr, .. )`.
    FuncCall,
    List,
    Int,
    Float,
    /// A string literal; its text holds the quotes.
    Str,
    True,
    False,
    Null,
    /// The end of the input.
    Eoi,
}

/// A node of a parse tree: its kind, the text that it spans, and the nodes
/// below it.
#[derive(Debug, PartialEq)]
pub struct ParseNode {
    pub rule: Rule,
    pub text: String,
    pub children: Vec<ParseNode>,
}

/// The model of a parse tree.
pub struct ParseTree {
    pub rule: Rule,
    pub text: Seq<char>,
    pub children: Seq<ParseTree>,
}

/// The model of a node of a parse tree.
pub open spec fn tree_model(n: ParseNode) -> ParseTree
    decreases n,
{
    ParseTree { rule: n.rule, text: n.text@, children: trees_view(n.children@) }
}

/// The models of a sequence of nodes.
pub open spec fn trees_view(nodes: Seq<ParseNode>) -> Seq<ParseTree>
    decreases nodes,
{
    Seq::new(
        nodes.len(),
        |i: int|
            if 0 <= i < nodes.len() {
                tree_model(nodes[i])
            } else {
                ParseTree { rule: Rule::Eoi, text: Seq::empty(), children: Seq::empty() }
            },
    )
}

impl View for ParseNode {
    type V = ParseTree;

    open spec fn view(&self) -> ParseTree {
        tree_model(*self)
    }
}

/// The model of a sequence with one more node at its end.
pub proof fn lemma_trees_view_push(nodes: Seq<ParseNode>, n: ParseNode)
    ensures
        trees_view(nodes.push(n)) == trees_view(nodes).push(n@),
{
    assert(trees_view(nodes.push(n)) =~= trees_view(nodes).push(n@));
}

impl ParseNode {
    /// A node without children.
    pub fn leaf(rule: Rule, text: String) -> (n: ParseNode)
        ensures
            n@ == (ParseTree { rule, text: text@, children: Seq::empty() }),
    {
        let n = ParseNode { rule, text, children: Vec::new() };
        assert(trees_view(n.children@) =~= Seq::empty());
        n
    }

    /// A node over the given children.
    pub fn new(rule: Rule, text: String, children: Vec<ParseNode>) -> (n: ParseNode)
        ensures
            n@ == (ParseTree { rule, text: text@, children: trees_view(children@) }),
            n.children == children,
    {
        ParseNode { rule, text, children }
    }
}

} // verus!
