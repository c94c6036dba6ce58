//! The grammar of statements and queries, and the parser that follows it.
//!
//! ```text
//! query      = statement+
//! statement  = match | unwind | create | merge | with | return | call | set
//! match      = [OPTIONAL] MATCH pattern (, pattern)* [WHERE expr]
//! unwind     = UNWIND expr AS word
//! create     = CREATE pattern (, pattern)*
//! merge      = MERGE pattern
//! with       = WITH projection (, projection)* [order] [SKIP expr] [LIMIT expr] [WHERE expr]
//! return     = RETURN projection (, projection)* [order] [SKIP expr] [LIMIT expr]
//! order      = ORDER BY expr (, expr)*
//! projection = * | expr [AS word]
//! call       = CALL word (. word)* ( [expr (, expr)*] )
//! set        = SET assignment (, assignment)*
//! assignment = word . word = expr | word += expr | word = expr
//! pattern    = node (rel node)*
//! node       = ( [word] (: word)* [map] )
//! rel        = [<] - [ [ [word] [: word] [map] ] ] - [>]
//! map        = { [word : expr (, word : expr)*] }
//! expr       = and (OR and)*
//! and        = not (AND not)*
//! not        = NOT not | comparison
//! comparison = sum ((= | <> | < | > | <= | >=) sum)*
//! sum        = product ((+ | -) product)*
//! product    = unary ((* | / | %) unary)*
//! unary      = - unary | atom (. word)*
//! atom       = integer | decimal | string | TRUE | FALSE | NULL | word
//!            | word ( [expr (, expr)*] ) | [ [expr (, expr)*] ] | map | ( expr )
//! ```
//!
//! Keywords are read in any case. Each tree holds the text that it spans.

use vstd::prelude::*;
use crate::error::{Error, ErrorKind};
use crate::frontend::lexer::{lex_spec, LexKind};
use crate::frontend::parse_expr::{
    ahead, at_kw, expr_list_spec, expr_spec, is_kw, kind_at, kind_is, leaf, make_leaf, make_tree,
    one, parse_expr, parse_expr_list_to, parsed_as, parsed_list_as, proceeds, tree, two, Input,
    Parsed, ParsedList, Source,
};
use crate::frontend::parse_pattern::{
    parse_pattern, parse_patterns, pattern_spec, patterns_spec,
};
use crate::frontend::syntax::{lemma_trees_view_push, trees_view, ParseNode, ParseTree, Rule};

verus! {

/// The trees `acc`, and the clause `kw expr` at `pos` as a tree with the rule
/// `rule`, if the word `kw` stands there.
pub open spec fn opt_clause(inp: Input, pos: int, kw: Seq<char>, rule: Rule, acc: Seq<ParseTree>)
    -> ParsedList {
    if pos < inp.len() && is_kw(inp, pos, kw) {
        match expr_spec(inp, pos + 1) {
            Some((e, next)) => if ahead(inp, pos + 1, next) {
                Some((acc.push(tree(inp, rule, pos, next, seq![e])), next))
            } else {
                None
            },
            None => None,
        }
    } else {
        Some((acc, pos))
    }
}

/// The kinds of things that stand in lists with commas between them.
#[derive(Debug, PartialEq, Eq, Copy, Clone, Structural)]
pub enum ItemKind {
    /// `*`, or `expr [AS word]`.
    Projection,
    /// `word . word = expr`, `word += expr` or `word = expr`.
    Assignment,
    /// An expression to order by.
    SortKey,
}

/// A projection: `*`, or `expr [AS word]`.
pub open spec fn projection_item(inp: Input, pos: int) -> Parsed {
    if kind_at(inp, pos) == Some(LexKind::Star) {
        Some((leaf(inp, Rule::ProjectAll, pos), pos + 1))
    } else {
        match expr_spec(inp, pos) {
            Some((e, next)) => if !ahead(inp, pos, next) {
                None
            } else if is_kw(inp, next, "as"@) && kind_at(inp, next + 1) == Some(LexKind::Word) {
                Some(
                    (
                        tree(
                            inp,
                            Rule::Projection,
                            pos,
                            next + 2,
                            seq![e, leaf(inp, Rule::Id, next + 1)],
                        ),
                        next + 2,
                    ),
                )
            } else {
                Some((tree(inp, Rule::Projection, pos, next, seq![e]), next))
            },
            None => None,
        }
    }
}

/// The tree of an assignment whose value starts at `at`, with the children
/// `targets` before the value.
pub open spec fn assignment_value(
    inp: Input,
    pos: int,
    at: int,
    rule: Rule,
    targets: Seq<ParseTree>,
) -> Parsed {
    match expr_spec(inp, at) {
        Some((value, next)) => if ahead(inp, at, next) {
            Some((tree(inp, rule, pos, next, targets.push(value)), next))
        } else {
            None
        },
        None => None,
    }
}

/// An assignment: `word . word = expr`, `word += expr` or `word = expr`.
pub open spec fn assignment_item(inp: Input, pos: int) -> Parsed {
    if kind_at(inp, pos) != Some(LexKind::Word) {
        None
    } else if kind_at(inp, pos + 1) == Some(LexKind::Dot) && kind_at(inp, pos + 2) == Some(
        LexKind::Word,
    ) && kind_at(inp, pos + 3) == Some(LexKind::Eq) {
        assignment_value(
            inp,
            pos,
            pos + 4,
            Rule::SingleAssignment,
            seq![leaf(inp, Rule::Id, pos), leaf(inp, Rule::Id, pos + 2)],
        )
    } else if kind_at(inp, pos + 1) == Some(LexKind::PlusEq) {
        assignment_value(
            inp,
            pos,
            pos + 2,
            Rule::AppendAssignment,
            seq![leaf(inp, Rule::Id, pos)],
        )
    } else if kind_at(inp, pos + 1) == Some(LexKind::Eq) {
        assignment_value(
            inp,
            pos,
            pos + 2,
            Rule::OverwriteAssignment,
            seq![leaf(inp, Rule::Id, pos)],
        )
    } else {
        None
    }
}

/// One item of the kind `kind`.
pub open spec fn item_spec(inp: Input, pos: int, kind: ItemKind) -> Parsed {
    match kind {
        ItemKind::Projection => projection_item(inp, pos),
        ItemKind::Assignment => assignment_item(inp, pos),
        ItemKind::SortKey => expr_spec(inp, pos),
    }
}

/// Items of the kind `kind` with commas between them, from `pos` on, added to
/// `acc`.
pub open spec fn items_spec(inp: Input, pos: int, kind: ItemKind, acc: Seq<ParseTree>)
    -> ParsedList
    decreases inp.len() - pos,
{
    if pos >= inp.len() {
        None
    } else {
        match item_spec(inp, pos, kind) {
            Some((item, next)) => if !ahead(inp, pos, next) {
                None
            } else if kind_at(inp, next) == Some(LexKind::Comma) {
                items_spec(inp, next + 1, kind, acc.push(item))
            } else {
                Some((acc.push(item), next))
            },
            None => None,
        }
    }
}

/// The trees `acc`, and the clause `ORDER BY expr, ..` at `pos`, if it stands
/// there.
pub open spec fn opt_order(inp: Input, pos: int, acc: Seq<ParseTree>) -> ParsedList {
    if pos < inp.len() && is_kw(inp, pos, "order"@) {
        if !is_kw(inp, pos + 1, "by"@) {
            None
        } else {
            match items_spec(inp, pos + 2, ItemKind::SortKey, Seq::empty()) {
                Some((keys, next)) => Some(
                    (acc.push(tree(inp, Rule::OrderClause, pos, next, keys)), next),
                ),
                None => None,
            }
        }
    } else {
        Some((acc, pos))
    }
}

/// `[OPTIONAL] MATCH pattern, .. [WHERE expr]`.
pub open spec fn match_stmt_spec(inp: Input, pos: int) -> Parsed {
    let optional = pos < inp.len() && is_kw(inp, pos, "optional"@);
    let pos1 = if optional {
        pos + 1
    } else {
        pos
    };
    let c0 = if optional {
        seq![leaf(inp, Rule::OptionalClause, pos)]
    } else {
        Seq::empty()
    };
    if !(pos1 < inp.len() && is_kw(inp, pos1, "match"@)) {
        None
    } else {
        match patterns_spec(inp, pos1 + 1, c0) {
            Some((c1, pos2)) => match opt_clause(inp, pos2, "where"@, Rule::WhereClause, c1) {
                Some((c2, pos3)) => if ahead(inp, pos, pos3) {
                    Some((tree(inp, Rule::MatchStmt, pos, pos3, c2), pos3))
                } else {
                    None
                },
                None => None,
            },
            None => None,
        }
    }
}

/// `CREATE pattern, ..`.
pub open spec fn create_stmt_spec(inp: Input, pos: int) -> Parsed {
    if !(pos < inp.len() && is_kw(inp, pos, "create"@)) {
        None
    } else {
        match patterns_spec(inp, pos + 1, Seq::empty()) {
            Some((patterns, next)) => if ahead(inp, pos, next) {
                Some((tree(inp, Rule::CreateStmt, pos, next, patterns), next))
            } else {
                None
            },
            None => None,
        }
    }
}

/// `MERGE pattern`.
pub open spec fn merge_stmt_spec(inp: Input, pos: int) -> Parsed {
    if !(pos < inp.len() && is_kw(inp, pos, "merge"@)) {
        None
    } else {
        match pattern_spec(inp, pos + 1) {
            Some((pattern, next)) => if ahead(inp, pos, next) {
                Some((tree(inp, Rule::MergeStmt, pos, next, seq![pattern]), next))
            } else {
                None
            },
            None => None,
        }
    }
}

/// `UNWIND expr AS word`.
pub open spec fn unwind_stmt_spec(inp: Input, pos: int) -> Parsed {
    if !(pos < inp.len() && is_kw(inp, pos, "unwind"@)) {
        None
    } else {
        match expr_spec(inp, pos + 1) {
            Some((list, next)) => if ahead(inp, pos + 1, next) && is_kw(inp, next, "as"@)
                && kind_at(inp, next + 1) == Some(LexKind::Word) {
                Some(
                    (
                        tree(
                            inp,
                            Rule::UnwindStmt,
                            pos,
                            next + 2,
                            seq![list, leaf(inp, Rule::Id, next + 1)],
                        ),
                        next + 2,
                    ),
                )
            } else {
                None
            },
            None => None,
        }
    }
}

/// `WITH projection, .. [ORDER BY expr, ..] [SKIP expr] [LIMIT expr] [WHERE
/// expr]`, or, if `produce`, the same with RETURN and without the last
/// clause.
pub open spec fn projection_stmt_spec(inp: Input, pos: int, produce: bool) -> Parsed {
    if !(pos < inp.len() && is_kw(
        inp,
        pos,
        if produce {
            "return"@
        } else {
            "with"@
        },
    )) {
        None
    } else {
        match items_spec(inp, pos + 1, ItemKind::Projection, Seq::empty()) {
            None => None,
            Some((c1, pos1)) => match opt_order(inp, pos1, c1) {
                None => None,
                Some((c2, pos2)) => match opt_clause(inp, pos2, "skip"@, Rule::SkipClause, c2) {
                    None => None,
                    Some((c3, pos3)) => match opt_clause(
                        inp,
                        pos3,
                        "limit"@,
                        Rule::LimitClause,
                        c3,
                    ) {
                        None => None,
                        Some((c4, pos4)) => {
                            let last = if produce {
                                Some((c4, pos4))
                            } else {
                                opt_clause(inp, pos4, "where"@, Rule::WhereClause, c4)
                            };
                            match last {
                                None => None,
                                Some((c5, pos5)) => if ahead(inp, pos, pos5) {
                                    Some(
                                        (
                                            tree(
                                                inp,
                                                if produce {
                                                    Rule::ReturnStmt
                                                } else {
                                                    Rule::WithStmt
                                                },
                                                pos,
                                                pos5,
                                                c5,
                                            ),
                                            pos5,
                                        ),
                                    )
                                } else {
                                    None
                                },
                            }
                        },
                    },
                },
            },
        }
    }
}

/// Where the name that starts before `pos` ends: after its last `. word`.
pub open spec fn name_end(inp: Input, pos: int) -> int
    decreases inp.len() - pos,
{
    if kind_at(inp, pos) == Some(LexKind::Dot) && kind_at(inp, pos + 1) == Some(LexKind::Word) {
        name_end(inp, pos + 2)
    } else {
        pos
    }
}

/// `CALL word[. word]* ( [expr, ..] )`.
pub open spec fn call_stmt_spec(inp: Input, pos: int) -> Parsed {
    if !(pos < inp.len() && is_kw(inp, pos, "call"@) && kind_at(inp, pos + 1) == Some(
        LexKind::Word,
    )) {
        None
    } else {
        let end = name_end(inp, pos + 2);
        if kind_at(inp, end) != Some(LexKind::LParen) {
            None
        } else {
            match expr_list_spec(inp, end + 1, LexKind::RParen) {
                Some((args, next)) => if ahead(inp, pos, next) {
                    Some(
                        (
                            tree(
                                inp,
                                Rule::CallStmt,
                                pos,
                                next,
                                seq![tree(inp, Rule::Id, pos + 1, end, Seq::empty())] + args,
                            ),
                            next,
                        ),
                    )
                } else {
                    None
                },
                None => None,
            }
        }
    }
}

/// `SET assignment, ..`.
pub open spec fn set_stmt_spec(inp: Input, pos: int) -> Parsed {
    if !(pos < inp.len() && is_kw(inp, pos, "set"@)) {
        None
    } else {
        match items_spec(inp, pos + 1, ItemKind::Assignment, Seq::empty()) {
            Some((assignments, next)) => if ahead(inp, pos, next) {
                Some((tree(inp, Rule::SetStmt, pos, next, assignments), next))
            } else {
                None
            },
            None => None,
        }
    }
}

/// One statement; the word that it starts with tells which.
pub open spec fn statement_spec(inp: Input, pos: int) -> Parsed {
    if is_kw(inp, pos, "match"@) || is_kw(inp, pos, "optional"@) {
        match_stmt_spec(inp, pos)
    } else if is_kw(inp, pos, "unwind"@) {
        unwind_stmt_spec(inp, pos)
    } else if is_kw(inp, pos, "create"@) {
        create_stmt_spec(inp, pos)
    } else if is_kw(inp, pos, "merge"@) {
        merge_stmt_spec(inp, pos)
    } else if is_kw(inp, pos, "with"@) {
        projection_stmt_spec(inp, pos, false)
    } else if is_kw(inp, pos, "return"@) {
        projection_stmt_spec(inp, pos, true)
    } else if is_kw(inp, pos, "call"@) {
        call_stmt_spec(inp, pos)
    } else if is_kw(inp, pos, "set"@) {
        set_stmt_spec(inp, pos)
    } else {
        None
    }
}

/// The statements from `pos` to the end of the input, added to `acc`.
pub open spec fn statements_spec(inp: Input, pos: int, acc: Seq<ParseTree>) -> Option<
    Seq<ParseTree>,
>
    decreases inp.len() - pos,
{
    if pos >= inp.len() {
        Some(acc)
    } else {
        match statement_spec(inp, pos) {
            Some((stmt, next)) => if ahead(inp, pos, next) {
                statements_spec(inp, next, acc.push(stmt))
            } else {
                None
            },
            None => None,
        }
    }
}

/// The tree that marks the end of the input.
pub open spec fn eoi() -> ParseTree {
    ParseTree { rule: Rule::Eoi, text: Seq::empty(), children: Seq::empty() }
}

/// A query: one statement or more, up to the end of the input.
pub open spec fn query_spec(inp: Input) -> Option<ParseTree> {
    if inp.len() == 0 {
        None
    } else {
        match statements_spec(inp, 0, Seq::empty()) {
            Some(stmts) => Some(tree(inp, Rule::Query, 0, inp.len(), stmts.push(eoi()))),
            None => None,
        }
    }
}

/// The parse tree of the text of a query, if the text follows the grammar.
pub open spec fn parse_spec(text: Seq<char>) -> Option<ParseTree> {
    match lex_spec(text) {
        Some(lexemes) => query_spec(Input { chars: text, lexemes }),
        None => None,
    }
}

/// Adds the clause `kw expr` at `pos`, if the word `kw` stands there.
fn push_opt_clause(
    inp: &Source,
    pos: usize,
    kw: &str,
    rule: Rule,
    children: &mut Vec<ParseNode>,
) -> (r: Option<usize>)
    requires
        inp.wf(),
        pos <= inp.len(),
    ensures
        match r {
            Some(next) => opt_clause(inp@, pos as int, kw@, rule, trees_view(old(children)@))
                == Some((trees_view(final(children)@), next as int)) && pos <= next <= inp.len(),
            None => opt_clause(inp@, pos as int, kw@, rule, trees_view(old(children)@)) is None,
        },
{
    if at_kw(inp, pos, kw) {
        match parse_expr(inp, pos + 1) {
            Some((e, next)) => {
                let clause = make_tree(inp, rule, pos, next, one(e));
                proof {
                    lemma_trees_view_push(children@, clause);
                }
                children.push(clause);
                Some(next)
            },
            None => None,
        }
    } else {
        Some(pos)
    }
}

/// Parses a projection.
fn parse_projection_item(inp: &Source, pos: usize) -> (r: Option<(ParseNode, usize)>)
    requires
        inp.wf(),
        pos <= inp.len(),
    ensures
        parsed_as(r, projection_item(inp@, pos as int)),
        proceeds(inp, r, pos),
{
    if kind_is(inp, pos, LexKind::Star) {
        return Some((make_leaf(inp, Rule::ProjectAll, pos), pos + 1));
    }
    match parse_expr(inp, pos) {
        Some((e, next)) => {
            if at_kw(inp, next, "as") && kind_is(inp, next + 1, LexKind::Word) {
                let alias = make_leaf(inp, Rule::Id, next + 1);
                Some((make_tree(inp, Rule::Projection, pos, next + 2, two(e, alias)), next + 2))
            } else {
                Some((make_tree(inp, Rule::Projection, pos, next, one(e)), next))
            }
        },
        None => None,
    }
}

/// Parses the value of an assignment and makes its tree.
fn parse_assignment_value(
    inp: &Source,
    pos: usize,
    at: usize,
    rule: Rule,
    targets: Vec<ParseNode>,
) -> (r: Option<(ParseNode, usize)>)
    requires
        inp.wf(),
        pos < at <= inp.len(),
    ensures
        parsed_as(r, assignment_value(inp@, pos as int, at as int, rule, trees_view(targets@))),
        proceeds(inp, r, pos),
{
    match parse_expr(inp, at) {
        Some((value, next)) => {
            let mut children = targets;
            proof {
                lemma_trees_view_push(children@, value);
            }
            children.push(value);
            Some((make_tree(inp, rule, pos, next, children), next))
        },
        None => None,
    }
}

/// Parses an assignment.
fn parse_assignment_item(inp: &Source, pos: usize) -> (r: Option<(ParseNode, usize)>)
    requires
        inp.wf(),
        pos <= inp.len(),
    ensures
        parsed_as(r, assignment_item(inp@, pos as int)),
        proceeds(inp, r, pos),
{
    if !kind_is(inp, pos, LexKind::Word) {
        None
    } else if kind_is(inp, pos + 1, LexKind::Dot) && kind_is(inp, pos + 2, LexKind::Word)
        && kind_is(inp, pos + 3, LexKind::Eq) {
        let entity = make_leaf(inp, Rule::Id, pos);
        let key = make_leaf(inp, Rule::Id, pos + 2);
        parse_assignment_value(inp, pos, pos + 4, Rule::SingleAssignment, two(entity, key))
    } else if kind_is(inp, pos + 1, LexKind::PlusEq) {
        let entity = make_leaf(inp, Rule::Id, pos);
        parse_assignment_value(inp, pos, pos + 2, Rule::AppendAssignment, one(entity))
    } else if kind_is(inp, pos + 1, LexKind::Eq) {
        let entity = make_leaf(inp, Rule::Id, pos);
        parse_assignment_value(inp, pos, pos + 2, Rule::OverwriteAssignment, one(entity))
    } else {
        None
    }
}

/// Parses one item of the kind `kind`.
fn parse_item(inp: &Source, pos: usize, kind: ItemKind) -> (r: Option<(ParseNode, usize)>)
    requires
        inp.wf(),
        pos <= inp.len(),
    ensures
        parsed_as(r, item_spec(inp@, pos as int, kind)),
        proceeds(inp, r, pos),
{
    match kind {
        ItemKind::Projection => parse_projection_item(inp, pos),
        ItemKind::Assignment => parse_assignment_item(inp, pos),
        ItemKind::SortKey => parse_expr(inp, pos),
    }
}

/// Parses items of the kind `kind` with commas between them.
fn parse_items(inp: &Source, pos: usize, kind: ItemKind) -> (r: Option<(Vec<ParseNode>, usize)>)
    requires
        inp.wf(),
        pos <= inp.len(),
    ensures
        parsed_list_as(r, items_spec(inp@, pos as int, kind, Seq::empty())),
        proceeds(inp, r, pos),
{
    let mut items: Vec<ParseNode> = Vec::new();
    assert(trees_view(items@) =~= Seq::empty());
    let mut p: usize = pos;
    loop
        invariant
            inp.wf(),
            pos <= p <= inp.len(),
            items_spec(inp@, p as int, kind, trees_view(items@)) == items_spec(
                inp@,
                pos as int,
                kind,
                Seq::empty(),
            ),
        decreases inp.len() - p,
    {
        if p >= inp.lexemes.len() {
            return None;
        }
        match parse_item(inp, p, kind) {
            Some((item, next)) => {
                proof {
                    lemma_trees_view_push(items@, item);
                }
                items.push(item);
                if kind_is(inp, next, LexKind::Comma) {
                    p = next + 1;
                } else {
                    return Some((items, next));
                }
            },
            None => {
                return None;
            },
        }
    }
}

/// Adds the clause `ORDER BY expr, ..` at `pos`, if it stands there.
fn push_opt_order(inp: &Source, pos: usize, children: &mut Vec<ParseNode>) -> (r: Option<usize>)
    requires
        inp.wf(),
        pos <= inp.len(),
    ensures
        match r {
            Some(next) => opt_order(inp@, pos as int, trees_view(old(children)@)) == Some(
                (trees_view(final(children)@), next as int),
            ) && pos <= next <= inp.len(),
            None => opt_order(inp@, pos as int, trees_view(old(children)@)) is None,
        },
{
    if at_kw(inp, pos, "order") {
        if !at_kw(inp, pos + 1, "by") {
            return None;
        }
        match parse_items(inp, pos + 2, ItemKind::SortKey) {
            Some((keys, next)) => {
                let clause = make_tree(inp, Rule::OrderClause, pos, next, keys);
                proof {
                    lemma_trees_view_push(children@, clause);
                }
                children.push(clause);
                Some(next)
            },
            None => None,
        }
    } else {
        Some(pos)
    }
}

/// Parses a MATCH statement.
fn parse_match_stmt(inp: &Source, pos: usize) -> (r: Option<(ParseNode, usize)>)
    requires
        inp.wf(),
        pos <= inp.len(),
    ensures
        parsed_as(r, match_stmt_spec(inp@, pos as int)),
        proceeds(inp, r, pos),
{
    let mut children: Vec<ParseNode> = Vec::new();
    assert(trees_view(children@) =~= Seq::empty());
    let mut pos1: usize = pos;
    if at_kw(inp, pos, "optional") {
        let mark = make_leaf(inp, Rule::OptionalClause, pos);
        proof {
            lemma_trees_view_push(children@, mark);
        }
        children.push(mark);
        assert(trees_view(children@) =~= seq![leaf(inp@, Rule::OptionalClause, pos as int)]);
        pos1 = pos + 1;
    }
    if !at_kw(inp, pos1, "match") {
        return None;
    }
    let (patterns, pos2) = match parse_patterns(inp, pos1 + 1, children) {
        Some(x) => x,
        None => {
            return None;
        },
    };
    let mut children = patterns;
    match push_opt_clause(inp, pos2, "where", Rule::WhereClause, &mut children) {
        Some(pos3) => Some((make_tree(inp, Rule::MatchStmt, pos, pos3, children), pos3)),
        None => None,
    }
}

/// Parses a CREATE statement.
fn parse_create_stmt(inp: &Source, pos: usize) -> (r: Option<(ParseNode, usize)>)
    requires
        inp.wf(),
        pos <= inp.len(),
    ensures
        parsed_as(r, create_stmt_spec(inp@, pos as int)),
        proceeds(inp, r, pos),
{
    if !at_kw(inp, pos, "create") {
        return None;
    }
    let children: Vec<ParseNode> = Vec::new();
    assert(trees_view(children@) =~= Seq::empty());
    match parse_patterns(inp, pos + 1, children) {
        Some((patterns, next)) => Some(
            (make_tree(inp, Rule::CreateStmt, pos, next, patterns), next),
        ),
        None => None,
    }
}

/// Parses a MERGE statement.
fn parse_merge_stmt(inp: &Source, pos: usize) -> (r: Option<(ParseNode, usize)>)
    requires
        inp.wf(),
        pos <= inp.len(),
    ensures
        parsed_as(r, merge_stmt_spec(inp@, pos as int)),
        proceeds(inp, r, pos),
{
    if !at_kw(inp, pos, "merge") {
        return None;
    }
    match parse_pattern(inp, pos + 1) {
        Some((pattern, next)) => Some(
            (make_tree(inp, Rule::MergeStmt, pos, next, one(pattern)), next),
        ),
        None => None,
    }
}

/// Parses an UNWIND statement.
fn parse_unwind_stmt(inp: &Source, pos: usize) -> (r: Option<(ParseNode, usize)>)
    requires
        inp.wf(),
        pos <= inp.len(),
    ensures
        parsed_as(r, unwind_stmt_spec(inp@, pos as int)),
        proceeds(inp, r, pos),
{
    if !at_kw(inp, pos, "unwind") {
        return None;
    }
    match parse_expr(inp, pos + 1) {
        Some((list, next)) => {
            if at_kw(inp, next, "as") && kind_is(inp, next + 1, LexKind::Word) {
                let alias = make_leaf(inp, Rule::Id, next + 1);
                Some((make_tree(inp, Rule::UnwindStmt, pos, next + 2, two(list, alias)), next + 2))
            } else {
                None
            }
        },
        None => None,
    }
}

/// Parses a WITH statement, or a RETURN statement if `produce`.
fn parse_projection_stmt(inp: &Source, pos: usize, produce: bool) -> (r: Option<
    (ParseNode, usize),
>)
    requires
        inp.wf(),
        pos <= inp.len(),
    ensures
        parsed_as(r, projection_stmt_spec(inp@, pos as int, produce)),
        proceeds(inp, r, pos),
{
    let starts = if produce {
        at_kw(inp, pos, "return")
    } else {
        at_kw(inp, pos, "with")
    };
    if !starts {
        return None;
    }
    let (items, pos1) = match parse_items(inp, pos + 1, ItemKind::Projection) {
        Some(x) => x,
        None => {
            return None;
        },
    };
    let mut children = items;
    let pos2 = match push_opt_order(inp, pos1, &mut children) {
        Some(p) => p,
        None => {
            return None;
        },
    };
    let pos3 = match push_opt_clause(inp, pos2, "skip", Rule::SkipClause, &mut children) {
        Some(p) => p,
        None => {
            return None;
        },
    };
    let pos4 = match push_opt_clause(inp, pos3, "limit", Rule::LimitClause, &mut children) {
        Some(p) => p,
        None => {
            return None;
        },
    };
    if produce {
        Some((make_tree(inp, Rule::ReturnStmt, pos, pos4, children), pos4))
    } else {
        match push_opt_clause(inp, pos4, "where", Rule::WhereClause, &mut children) {
            Some(pos5) => Some((make_tree(inp, Rule::WithStmt, pos, pos5, children), pos5)),
            None => None,
        }
    }
}

/// Where the name that starts before `pos` ends.
fn scan_name(inp: &Source, pos: usize) -> (end: usize)
    requires
        inp.wf(),
        pos <= inp.len(),
    ensures
        end == name_end(inp@, pos as int),
        pos <= end <= inp.len(),
{
    let mut p: usize = pos;
    while kind_is(inp, p, LexKind::Dot) && kind_is(inp, p + 1, LexKind::Word)
        invariant
            inp.wf(),
            pos <= p <= inp.len(),
            name_end(inp@, p as int) == name_end(inp@, pos as int),
        decreases inp.len() - p,
    {
        p = p + 2;
    }
    p
}

/// Parses a CALL statement.
fn parse_call_stmt(inp: &Source, pos: usize) -> (r: Option<(ParseNode, usize)>)
    requires
        inp.wf(),
        pos <= inp.len(),
    ensures
        parsed_as(r, call_stmt_spec(inp@, pos as int)),
        proceeds(inp, r, pos),
{
    if !(at_kw(inp, pos, "call") && kind_is(inp, pos + 1, LexKind::Word)) {
        return None;
    }
    let end = scan_name(inp, pos + 2);
    if !kind_is(inp, end, LexKind::LParen) {
        return None;
    }
    match parse_expr_list_to(inp, end + 1, LexKind::RParen) {
        Some((args, next)) => {
            let none: Vec<ParseNode> = Vec::new();
            assert(trees_view(none@) =~= Seq::empty());
            let name = make_tree(inp, Rule::Id, pos + 1, end, none);
            let mut children = one(name);
            let mut args = args;
            let ghost all = seq![name@] + trees_view(args@);
            children.append(&mut args);
            assert(trees_view(children@) =~= all);
            Some((make_tree(inp, Rule::CallStmt, pos, next, children), next))
        },
        None => None,
    }
}

/// Parses a SET statement.
fn parse_set_stmt(inp: &Source, pos: usize) -> (r: Option<(ParseNode, usize)>)
    requires
        inp.wf(),
        pos <= inp.len(),
    ensures
        parsed_as(r, set_stmt_spec(inp@, pos as int)),
        proceeds(inp, r, pos),
{
    if !at_kw(inp, pos, "set") {
        return None;
    }
    match parse_items(inp, pos + 1, ItemKind::Assignment) {
        Some((assignments, next)) => Some(
            (make_tree(inp, Rule::SetStmt, pos, next, assignments), next),
        ),
        None => None,
    }
}

/// Parses one statement.
fn parse_statement(inp: &Source, pos: usize) -> (r: Option<(ParseNode, usize)>)
    requires
        inp.wf(),
        pos <= inp.len(),
    ensures
        parsed_as(r, statement_spec(inp@, pos as int)),
        proceeds(inp, r, pos),
{
    if at_kw(inp, pos, "match") || at_kw(inp, pos, "optional") {
        parse_match_stmt(inp, pos)
    } else if at_kw(inp, pos, "unwind") {
        parse_unwind_stmt(inp, pos)
    } else if at_kw(inp, pos, "create") {
        parse_create_stmt(inp, pos)
    } else if at_kw(inp, pos, "merge") {
        parse_merge_stmt(inp, pos)
    } else if at_kw(inp, pos, "with") {
        parse_projection_stmt(inp, pos, false)
    } else if at_kw(inp, pos, "return") {
        parse_projection_stmt(inp, pos, true)
    } else if at_kw(inp, pos, "call") {
        parse_call_stmt(inp, pos)
    } else if at_kw(inp, pos, "set") {
        parse_set_stmt(inp, pos)
    } else {
        None
    }
}

/// Parses the statements of a query.
fn parse_query(inp: &Source) -> (r: Option<ParseNode>)
    requires
        inp.wf(),
    ensures
        match r {
            Some(query) => query_spec(inp@) == Some(query@),
            None => query_spec(inp@) is None,
        },
{
    let n: usize = inp.lexemes.len();
    if n == 0 {
        return None;
    }
    let mut stmts: Vec<ParseNode> = Vec::new();
    assert(trees_view(stmts@) =~= Seq::empty());
    let mut p: usize = 0;
    while p < n
        invariant
            inp.wf(),
            n == inp.len(),
            p <= n,
            statements_spec(inp@, p as int, trees_view(stmts@)) == statements_spec(
                inp@,
                0,
                Seq::empty(),
            ),
        decreases n - p,
    {
        match parse_statement(inp, p) {
            Some((stmt, next)) => {
                proof {
                    lemma_trees_view_push(stmts@, stmt);
                }
                stmts.push(stmt);
                p = next;
            },
            None => {
                return None;
            },
        }
    }
    let end = ParseNode::leaf(Rule::Eoi, String::new());
    proof {
        lemma_trees_view_push(stmts@, end);
    }
    stmts.push(end);
    Some(make_tree(inp, Rule::Query, 0, n, stmts))
}

/// The parser of queries.
pub struct CypherParser;

impl CypherParser {
    /// Parses the text of a query. Text that does not follow the grammar is a
    /// syntax error.
    pub fn parse(query_str: &str) -> (r: Result<ParseNode, Error>)
        ensures
            query_str@.len() <= usize::MAX,
            match r {
                Ok(query) => parse_spec(query_str@) == Some(query@),
                Err(e) => e.kind == ErrorKind::Syntax && parse_spec(query_str@) is None,
            },
    {
        let inp = match Source::new(query_str) {
            Some(inp) => inp,
            None => {
                return Err(Error::new(ErrorKind::Syntax));
            },
        };
        match parse_query(&inp) {
            Some(query) => Ok(query),
            None => Err(Error::new(ErrorKind::Syntax)),
        }
    }
}

} // verus!
