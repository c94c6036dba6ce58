//! The grammar of patterns, and the parser that follows it.

use vstd::prelude::*;
use crate::frontend::lexer::LexKind;
use crate::frontend::parse_expr::{
    ahead, kind_at, kind_is, leaf, make_leaf, make_tree, map_spec, parse_map, parsed_as,
    parsed_list_as, proceeds, tree, Input, Parsed, ParsedList, Source,
};
use crate::frontend::syntax::{lemma_trees_view_push, trees_view, ParseNode, ParseTree, Rule};

verus! {

/// The trees `acc`, and the identifier at `pos` if a word stands there.
pub open spec fn opt_id(inp: Input, pos: int, acc: Seq<ParseTree>) -> (Seq<ParseTree>, int) {
    if kind_at(inp, pos) == Some(LexKind::Word) {
        (acc.push(leaf(inp, Rule::Id, pos)), pos + 1)
    } else {
        (acc, pos)
    }
}

/// The labels `: word` from `pos` on, added to `acc`.
pub open spec fn labels_tail(inp: Input, pos: int, acc: Seq<ParseTree>) -> (Seq<ParseTree>, int)
    decreases inp.len() - pos,
{
    if kind_at(inp, pos) == Some(LexKind::Colon) && kind_at(inp, pos + 1) == Some(LexKind::Word) {
        labels_tail(inp, pos + 2, acc.push(leaf(inp, Rule::Id, pos + 1)))
    } else {
        (acc, pos)
    }
}

/// The trees `acc`, and the labels at `pos` if there are any.
pub open spec fn opt_labels(inp: Input, pos: int, acc: Seq<ParseTree>) -> (Seq<ParseTree>, int) {
    let (labels, next) = labels_tail(inp, pos, Seq::empty());
    if labels.len() > 0 {
        (acc.push(tree(inp, Rule::Label, pos, next, labels)), next)
    } else {
        (acc, pos)
    }
}

/// The trees `acc`, and the map at `pos` if `{` stands there.
pub open spec fn opt_map(inp: Input, pos: int, acc: Seq<ParseTree>) -> ParsedList {
    if kind_at(inp, pos) == Some(LexKind::LBrace) {
        match map_spec(inp, pos) {
            Some((m, next)) => Some((acc.push(m), next)),
            None => None,
        }
    } else {
        Some((acc, pos))
    }
}

/// A node: `( [word] [: word]* [map] )`.
pub open spec fn node_spec(inp: Input, pos: int) -> Parsed {
    if kind_at(inp, pos) != Some(LexKind::LParen) {
        None
    } else {
        let (c1, pos1) = opt_id(inp, pos + 1, Seq::empty());
        let (c2, pos2) = opt_labels(inp, pos1, c1);
        match opt_map(inp, pos2, c2) {
            Some((c3, pos3)) => if kind_at(inp, pos3) == Some(LexKind::RParen) {
                Some((tree(inp, Rule::Node, pos, pos3 + 1, c3), pos3 + 1))
            } else {
                None
            },
            None => None,
        }
    }
}

/// The trees `acc`, and the type `: word` at `pos` if it stands there.
pub open spec fn opt_rel_type(inp: Input, pos: int, acc: Seq<ParseTree>) -> (
    Seq<ParseTree>,
    int,
) {
    if kind_at(inp, pos) == Some(LexKind::Colon) && kind_at(inp, pos + 1) == Some(LexKind::Word) {
        (acc.push(leaf(inp, Rule::RelType, pos + 1)), pos + 2)
    } else {
        (acc, pos)
    }
}

/// The trees `acc`, and what the brackets `[ [word] [: word] [map] ]` at `pos`
/// hold, if `[` stands there.
pub open spec fn rel_detail(inp: Input, pos: int, acc: Seq<ParseTree>) -> ParsedList {
    if kind_at(inp, pos) == Some(LexKind::LBracket) {
        let (c1, pos1) = opt_id(inp, pos + 1, acc);
        let (c2, pos2) = opt_rel_type(inp, pos1, c1);
        match opt_map(inp, pos2, c2) {
            Some((c3, pos3)) => if kind_at(inp, pos3) == Some(LexKind::RBracket) {
                Some((c3, pos3 + 1))
            } else {
                None
            },
            None => None,
        }
    } else {
        Some((acc, pos))
    }
}

/// A relationship: `[<] - [detail] - [>]`.
pub open spec fn rel_spec(inp: Input, pos: int) -> Parsed {
    let left = kind_at(inp, pos) == Some(LexKind::Lt);
    let c0 = if left {
        seq![leaf(inp, Rule::LeftArrow, pos)]
    } else {
        Seq::empty()
    };
    let pos1 = if left {
        pos + 1
    } else {
        pos
    };
    if kind_at(inp, pos1) != Some(LexKind::Dash) {
        None
    } else {
        match rel_detail(inp, pos1 + 1, c0) {
            None => None,
            Some((c1, pos2)) => if kind_at(inp, pos2) != Some(LexKind::Dash) {
                None
            } else {
                let right = kind_at(inp, pos2 + 1) == Some(LexKind::Gt);
                let c2 = if right {
                    c1.push(leaf(inp, Rule::RightArrow, pos2 + 1))
                } else {
                    c1
                };
                let pos3 = if right {
                    pos2 + 2
                } else {
                    pos2 + 1
                };
                Some((tree(inp, Rule::Rel, pos, pos3, c2), pos3))
            },
        }
    }
}

/// A pattern: `node (rel node)*`.
pub open spec fn pattern_spec(inp: Input, pos: int) -> Parsed {
    match node_spec(inp, pos) {
        Some((first, next)) => if ahead(inp, pos, next) {
            pattern_tail(inp, pos, next, seq![first])
        } else {
            None
        },
        None => None,
    }
}

/// The rest of a pattern that started at `start`, from `pos` on.
pub open spec fn pattern_tail(inp: Input, start: int, pos: int, acc: Seq<ParseTree>) -> Parsed
    decreases inp.len() - pos,
{
    if kind_at(inp, pos) == Some(LexKind::Lt) || kind_at(inp, pos) == Some(LexKind::Dash) {
        match rel_spec(inp, pos) {
            Some((rel, pos1)) => if !ahead(inp, pos, pos1) {
                None
            } else {
                match node_spec(inp, pos1) {
                    Some((node, pos2)) => if ahead(inp, pos1, pos2) {
                        pattern_tail(inp, start, pos2, acc.push(rel).push(node))
                    } else {
                        None
                    },
                    None => None,
                }
            },
            None => None,
        }
    } else {
        Some((tree(inp, Rule::Pattern, start, pos, acc), pos))
    }
}

/// Patterns with commas between them, from `pos` on, added to `acc`.
pub open spec fn patterns_spec(inp: Input, pos: int, acc: Seq<ParseTree>) -> ParsedList
    decreases inp.len() - pos,
{
    if pos >= inp.len() {
        None
    } else {
        match pattern_spec(inp, pos) {
            Some((pattern, next)) => if !ahead(inp, pos, next) {
                None
            } else if kind_at(inp, next) == Some(LexKind::Comma) {
                patterns_spec(inp, next + 1, acc.push(pattern))
            } else {
                Some((acc.push(pattern), next))
            },
            None => None,
        }
    }
}

/// Adds the identifier at `pos`, if a word stands there.
pub(crate) fn push_opt_id(inp: &Source, pos: usize, children: &mut Vec<ParseNode>) -> (next: usize)
    requires
        inp.wf(),
        pos <= inp.len(),
    ensures
        (trees_view(final(children)@), next as int) == opt_id(
            inp@,
            pos as int,
            trees_view(old(children)@),
        ),
        pos <= next <= inp.len(),
{
    if kind_is(inp, pos, LexKind::Word) {
        let id = make_leaf(inp, Rule::Id, pos);
        proof {
            lemma_trees_view_push(children@, id);
        }
        children.push(id);
        pos + 1
    } else {
        pos
    }
}

/// The labels from `pos` on.
fn parse_labels(inp: &Source, pos: usize) -> (r: (Vec<ParseNode>, usize))
    requires
        inp.wf(),
        pos <= inp.len(),
    ensures
        (trees_view(r.0@), r.1 as int) == labels_tail(inp@, pos as int, Seq::empty()),
        pos <= r.1 <= inp.len(),
        r.0@.len() > 0 ==> pos < r.1,
{
    let mut labels: Vec<ParseNode> = Vec::new();
    assert(trees_view(labels@) =~= Seq::empty());
    let mut p: usize = pos;
    while kind_is(inp, p, LexKind::Colon) && kind_is(inp, p + 1, LexKind::Word)
        invariant
            inp.wf(),
            pos <= p <= inp.len(),
            labels@.len() > 0 ==> pos < p,
            labels_tail(inp@, p as int, trees_view(labels@)) == labels_tail(
                inp@,
                pos as int,
                Seq::empty(),
            ),
        decreases inp.len() - p,
    {
        let label = make_leaf(inp, Rule::Id, p + 1);
        proof {
            lemma_trees_view_push(labels@, label);
        }
        labels.push(label);
        p = p + 2;
    }
    (labels, p)
}

/// Adds the labels at `pos`, if there are any.
fn push_opt_labels(inp: &Source, pos: usize, children: &mut Vec<ParseNode>) -> (next: usize)
    requires
        inp.wf(),
        pos <= inp.len(),
    ensures
        (trees_view(final(children)@), next as int) == opt_labels(
            inp@,
            pos as int,
            trees_view(old(children)@),
        ),
        pos <= next <= inp.len(),
{
    let (labels, next) = parse_labels(inp, pos);
    if labels.len() > 0 {
        let node = make_tree(inp, Rule::Label, pos, next, labels);
        proof {
            lemma_trees_view_push(children@, node);
        }
        children.push(node);
        next
    } else {
        pos
    }
}

/// Adds the map at `pos`, if `{` stands there.
pub(crate) fn push_opt_map(inp: &Source, pos: usize, children: &mut Vec<ParseNode>) -> (r: Option<usize>)
    requires
        inp.wf(),
        pos <= inp.len(),
    ensures
        match r {
            Some(next) => opt_map(inp@, pos as int, trees_view(old(children)@)) == Some(
                (trees_view(final(children)@), next as int),
            ) && pos <= next <= inp.len(),
            None => opt_map(inp@, pos as int, trees_view(old(children)@)) is None,
        },
{
    if kind_is(inp, pos, LexKind::LBrace) {
        match parse_map(inp, pos) {
            Some((m, next)) => {
                proof {
                    lemma_trees_view_push(children@, m);
                }
                children.push(m);
                Some(next)
            },
            None => None,
        }
    } else {
        Some(pos)
    }
}

/// Parses a node.
pub fn parse_node(inp: &Source, pos: usize) -> (r: Option<(ParseNode, usize)>)
    requires
        inp.wf(),
        pos <= inp.len(),
    ensures
        parsed_as(r, node_spec(inp@, pos as int)),
        proceeds(inp, r, pos),
{
    if !kind_is(inp, pos, LexKind::LParen) {
        return None;
    }
    let mut children: Vec<ParseNode> = Vec::new();
    assert(trees_view(children@) =~= Seq::empty());
    let pos1 = push_opt_id(inp, pos + 1, &mut children);
    let pos2 = push_opt_labels(inp, pos1, &mut children);
    match push_opt_map(inp, pos2, &mut children) {
        Some(pos3) => {
            if kind_is(inp, pos3, LexKind::RParen) {
                Some((make_tree(inp, Rule::Node, pos, pos3 + 1, children), pos3 + 1))
            } else {
                None
            }
        },
        None => None,
    }
}

/// Adds the type at `pos`, if `: word` stands there.
fn push_opt_rel_type(inp: &Source, pos: usize, children: &mut Vec<ParseNode>) -> (next: usize)
    requires
        inp.wf(),
        pos <= inp.len(),
    ensures
        (trees_view(final(children)@), next as int) == opt_rel_type(
            inp@,
            pos as int,
            trees_view(old(children)@),
        ),
        pos <= next <= inp.len(),
{
    if kind_is(inp, pos, LexKind::Colon) && kind_is(inp, pos + 1, LexKind::Word) {
        let rel_type = make_leaf(inp, Rule::RelType, pos + 1);
        proof {
            lemma_trees_view_push(children@, rel_type);
        }
        children.push(rel_type);
        pos + 2
    } else {
        pos
    }
}

/// Adds what the brackets at `pos` hold, if `[` stands there.
fn push_rel_detail(inp: &Source, pos: usize, children: &mut Vec<ParseNode>) -> (r: Option<usize>)
    requires
        inp.wf(),
        pos <= inp.len(),
    ensures
        match r {
            Some(next) => rel_detail(inp@, pos as int, trees_view(old(children)@)) == Some(
                (trees_view(final(children)@), next as int),
            ) && pos <= next <= inp.len(),
            None => rel_detail(inp@, pos as int, trees_view(old(children)@)) is None,
        },
{
    if kind_is(inp, pos, LexKind::LBracket) {
        let pos1 = push_opt_id(inp, pos + 1, children);
        let pos2 = push_opt_rel_type(inp, pos1, children);
        match push_opt_map(inp, pos2, children) {
            Some(pos3) => {
                if kind_is(inp, pos3, LexKind::RBracket) {
                    Some(pos3 + 1)
                } else {
                    None
                }
            },
            None => None,
        }
    } else {
        Some(pos)
    }
}

/// Parses a relationship.
pub fn parse_rel(inp: &Source, pos: usize) -> (r: Option<(ParseNode, usize)>)
    requires
        inp.wf(),
        pos <= inp.len(),
    ensures
        parsed_as(r, rel_spec(inp@, pos as int)),
        proceeds(inp, r, pos),
{
    let mut children: Vec<ParseNode> = Vec::new();
    assert(trees_view(children@) =~= Seq::empty());
    let mut pos1: usize = pos;
    if kind_is(inp, pos, LexKind::Lt) {
        let arrow = make_leaf(inp, Rule::LeftArrow, pos);
        proof {
            lemma_trees_view_push(children@, arrow);
        }
        children.push(arrow);
        pos1 = pos + 1;
        assert(trees_view(children@) =~= seq![leaf(inp@, Rule::LeftArrow, pos as int)]);
    }
    if !kind_is(inp, pos1, LexKind::Dash) {
        return None;
    }
    let pos2 = match push_rel_detail(inp, pos1 + 1, &mut children) {
        Some(pos2) => pos2,
        None => {
            return None;
        },
    };
    if !kind_is(inp, pos2, LexKind::Dash) {
        return None;
    }
    let mut pos3: usize = pos2 + 1;
    if kind_is(inp, pos2 + 1, LexKind::Gt) {
        let arrow = make_leaf(inp, Rule::RightArrow, pos2 + 1);
        proof {
            lemma_trees_view_push(children@, arrow);
        }
        children.push(arrow);
        pos3 = pos2 + 2;
    }
    Some((make_tree(inp, Rule::Rel, pos, pos3, children), pos3))
}

/// Parses a pattern.
pub fn parse_pattern(inp: &Source, pos: usize) -> (r: Option<(ParseNode, usize)>)
    requires
        inp.wf(),
        pos <= inp.len(),
    ensures
        parsed_as(r, pattern_spec(inp@, pos as int)),
        proceeds(inp, r, pos),
{
    let (first, next) = match parse_node(inp, pos) {
        Some(x) => x,
        None => {
            return None;
        },
    };
    let mut segments: Vec<ParseNode> = Vec::new();
    segments.push(first);
    assert(trees_view(segments@) =~= seq![first@]);
    let mut p: usize = next;
    while kind_is(inp, p, LexKind::Lt) || kind_is(inp, p, LexKind::Dash)
        invariant
            inp.wf(),
            pos < p <= inp.len(),
            pattern_tail(inp@, pos as int, p as int, trees_view(segments@)) == pattern_spec(
                inp@,
                pos as int,
            ),
        decreases inp.len() - p,
    {
        let (rel, pos1) = match parse_rel(inp, p) {
            Some(x) => x,
            None => {
                return None;
            },
        };
        let (node, pos2) = match parse_node(inp, pos1) {
            Some(x) => x,
            None => {
                return None;
            },
        };
        proof {
            lemma_trees_view_push(segments@, rel);
            lemma_trees_view_push(segments@.push(rel), node);
        }
        segments.push(rel);
        segments.push(node);
        p = pos2;
    }
    Some((make_tree(inp, Rule::Pattern, pos, p, segments), p))
}

/// Parses patterns with commas between them, and adds them to `acc`.
pub fn parse_patterns(inp: &Source, pos: usize, acc: Vec<ParseNode>) -> (r: Option<
    (Vec<ParseNode>, usize),
>)
    requires
        inp.wf(),
        pos <= inp.len(),
    ensures
        parsed_list_as(r, patterns_spec(inp@, pos as int, trees_view(acc@))),
        proceeds(inp, r, pos),
{
    let mut patterns = acc;
    let mut p: usize = pos;
    loop
        invariant
            inp.wf(),
            pos <= p <= inp.len(),
            patterns_spec(inp@, p as int, trees_view(patterns@)) == patterns_spec(
                inp@,
                pos as int,
                trees_view(acc@),
            ),
        decreases inp.len() - p,
    {
        if p >= inp.lexemes.len() {
            return None;
        }
        match parse_pattern(inp, p) {
            Some((pattern, next)) => {
                proof {
                    lemma_trees_view_push(patterns@, pattern);
                }
                patterns.push(pattern);
                if kind_is(inp, next, LexKind::Comma) {
                    p = next + 1;
                } else {
                    return Some((patterns, next));
                }
            },
            None => {
                return None;
            },
        }
    }
}

} // verus!
