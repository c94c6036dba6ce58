//! What the parser builds: trees of the shape that the planner takes. So a
//! query that parses is never rejected as malformed.

use vstd::prelude::*;
use crate::backend::BackendDesc;
use crate::frontend::context::ContextView;
use crate::frontend::expr_planner::is_numeral;
use crate::frontend::lexer::{
    digits_end, is_digit, lex_from, lex_spec, lexeme_at, LexKind, Lexeme,
};
use crate::frontend::parse_expr::{
    ahead, atom_spec, binary_spec, binary_tail, call_spec, expr_list_spec, expr_list_tail,
    expr_spec, is_kw, junction_spec, junction_tail, kind_at, leaf, lookups_spec, map_spec,
    map_tail, negation_spec, op_rule, tree, unary_spec, word_atom_spec, Input,
};
use crate::frontend::parse_pattern::{
    labels_tail, node_spec, opt_id, opt_labels, opt_map, opt_rel_type, pattern_spec,
    pattern_tail, patterns_spec, rel_detail, rel_spec,
};
use crate::frontend::parser::{
    assignment_item, assignment_value, eoi, item_spec, items_spec, name_end, opt_clause, opt_order,
    parse_spec, projection_item, projection_stmt_spec, statement_spec, statements_spec, ItemKind,
};
use crate::frontend::query::plan_text_spec;
use crate::frontend::shape::{
    assignment_parts_shaped, assignment_shaped, expr_shaped, exprs_shaped, lemma_query_accepted,
    malformed, projection_part_shaped,
    node_parts_shaped, node_shaped, pair_shaped, pairs_shaped, pattern_parts_shaped,
    pattern_shaped, projection_parts_shaped, query_shaped, rel_parts_shaped, rel_shaped,
    segments_shaped, statement_shaped, statements_shaped,
};
use crate::frontend::syntax::{ParseTree, Rule};

verus! {

/// Every lexeme of an integer spans decimal digits.
pub open spec fn ints_numeral(chars: Seq<char>, lexemes: Seq<Lexeme>) -> bool {
    forall|i: int|
        0 <= i < lexemes.len() && (#[trigger] lexemes[i]).kind == LexKind::Int ==> is_numeral(
            chars.subrange(lexemes[i].start as int, lexemes[i].end as int),
        )
}

/// The digits from `pos` on are digits, up to where they end.
proof fn lemma_digits_end(src: Seq<char>, pos: int)
    requires
        0 <= pos <= src.len(),
    ensures
        pos <= digits_end(src, pos) <= src.len(),
        forall|k: int| pos <= k < digits_end(src, pos) ==> is_digit(#[trigger] src[k]),
    decreases src.len() - pos,
{
    if pos < src.len() && is_digit(src[pos]) {
        lemma_digits_end(src, pos + 1);
    }
}

/// The lexer gives integers that are written in digits.
proof fn lemma_lex_ints(src: Seq<char>, pos: int, acc: Seq<Lexeme>)
    requires
        0 <= pos,
        src.len() <= usize::MAX,
        ints_numeral(src, acc),
    ensures
        lex_from(src, pos, acc) matches Some(lexemes) ==> ints_numeral(src, lexemes),
    decreases src.len() - pos,
{
    if 0 <= pos < src.len() {
        if crate::frontend::lexer::is_space(src[pos]) {
            lemma_lex_ints(src, pos + 1, acc);
        } else {
            match lexeme_at(src, pos) {
                Some(lexeme) => {
                    if pos < lexeme.end <= src.len() {
                        if lexeme.kind == LexKind::Int {
                            lemma_digits_end(src, pos + 1);
                            let text = src.subrange(lexeme.start as int, lexeme.end as int);
                            assert forall|i: int| 0 <= i < text.len() implies '0'
                                <= #[trigger] text[i] <= '9' by {
                                assert(text[i] == src[pos + i]);
                            }
                        }
                        let next = acc.push(lexeme);
                        assert forall|i: int|
                            0 <= i < next.len() && (#[trigger] next[i]).kind
                                == LexKind::Int implies is_numeral(
                            src.subrange(next[i].start as int, next[i].end as int),
                        ) by {
                            if i < acc.len() {
                                assert(next[i] == acc[i]);
                            }
                        }
                        lemma_lex_ints(src, lexeme.end as int, next);
                    }
                },
                None => {},
            }
        }
    }
}

/// The input is one that the lexer gave.
pub open spec fn lexed(inp: Input) -> bool {
    ints_numeral(inp.chars, inp.lexemes)
}

/// An expression parses into an expression of the right shape.
proof fn lemma_expr_shape(inp: Input, pos: int)
    requires
        lexed(inp),
    ensures
        expr_spec(inp, pos) matches Some((t, _)) ==> expr_shaped(t),
    decreases inp.len() - pos, 20nat,
{
    lemma_junction_shape(inp, pos, true);
}

/// A junction parses into an expression of the right shape.
proof fn lemma_junction_shape(inp: Input, pos: int, disj: bool)
    requires
        lexed(inp),
    ensures
        junction_spec(inp, pos, disj) matches Some((t, _)) ==> expr_shaped(t),
    decreases inp.len() - pos,
        if disj {
            19nat
        } else {
            17nat
        },
{
    if disj {
        lemma_junction_shape(inp, pos, false);
    } else {
        lemma_negation_shape(inp, pos);
    }
    let first = if disj {
        junction_spec(inp, pos, false)
    } else {
        negation_spec(inp, pos)
    };
    match first {
        Some((operand, next)) => {
            if ahead(inp, pos, next) {
                lemma_junction_tail_shape(inp, pos, next, disj, seq![operand]);
            }
        },
        None => {},
    }
}

/// The rest of a junction over operands of the right shape parses into an
/// expression of the right shape.
proof fn lemma_junction_tail_shape(
    inp: Input,
    start: int,
    pos: int,
    disj: bool,
    acc: Seq<ParseTree>,
)
    requires
        lexed(inp),
        exprs_shaped(acc, 0),
        acc.len() >= 1,
    ensures
        junction_tail(inp, start, pos, disj, acc) matches Some((t, _)) ==> expr_shaped(t),
    decreases inp.len() - pos, 0nat,
{
    if pos < inp.len() && is_kw(
        inp,
        pos,
        if disj {
            "or"@
        } else {
            "and"@
        },
    ) {
        if disj {
            lemma_junction_shape(inp, pos + 1, false);
        } else {
            lemma_negation_shape(inp, pos + 1);
        }
        let more = if disj {
            junction_spec(inp, pos + 1, false)
        } else {
            negation_spec(inp, pos + 1)
        };
        match more {
            Some((operand, next)) => {
                if ahead(inp, pos + 1, next) {
                    lemma_junction_tail_shape(inp, start, next, disj, acc.push(operand));
                }
            },
            None => {},
        }
    } else if acc.len() == 1 {
        assert(expr_shaped(acc[0]));
    } else {
        let t = tree(
            inp,
            if disj {
                Rule::Or
            } else {
                Rule::And
            },
            start,
            pos,
            acc,
        );
        assert forall|i: int| 0 <= i < t.children.len() implies expr_shaped(
            #[trigger] t.children[i],
        ) by {
            assert(expr_shaped(acc[i]));
        }
    }
}

/// A negation parses into an expression of the right shape.
proof fn lemma_negation_shape(inp: Input, pos: int)
    requires
        lexed(inp),
    ensures
        negation_spec(inp, pos) matches Some((t, _)) ==> expr_shaped(t),
    decreases inp.len() - pos, 16nat,
{
    if pos < inp.len() && is_kw(inp, pos, "not"@) {
        lemma_negation_shape(inp, pos + 1);
    } else {
        lemma_binary_shape(inp, pos, 0);
    }
}

/// A chain of operators parses into an expression of the right shape.
proof fn lemma_binary_shape(inp: Input, pos: int, level: nat)
    requires
        lexed(inp),
    ensures
        binary_spec(inp, pos, level) matches Some((t, _)) ==> expr_shaped(t),
    decreases inp.len() - pos,
        if level <= 3 {
            (15 - level) as nat
        } else {
            12nat
        },
{
    if level >= 3 {
        lemma_unary_shape(inp, pos);
    } else {
        lemma_binary_shape(inp, pos, level + 1);
        match binary_spec(inp, pos, level + 1) {
            Some((left, next)) => {
                if ahead(inp, pos, next) {
                    lemma_binary_tail_shape(inp, pos, next, level, left);
                }
            },
            None => {},
        }
    }
}

/// The rest of a chain of operators, after an operand of the right shape,
/// parses into an expression of the right shape.
proof fn lemma_binary_tail_shape(inp: Input, start: int, pos: int, level: nat, left: ParseTree)
    requires
        lexed(inp),
        expr_shaped(left),
    ensures
        binary_tail(inp, start, pos, level, left) matches Some((t, _)) ==> expr_shaped(t),
    decreases inp.len() - pos, 0nat,
{
    if level < 3 {
        match op_rule(inp, pos, level) {
            Some(rule) => {
                lemma_binary_shape(inp, pos + 1, level + 1);
                match binary_spec(inp, pos + 1, level + 1) {
                    Some((right, next)) => {
                        if ahead(inp, pos + 1, next) {
                            let joined = tree(inp, rule, start, next, seq![left, right]);
                            assert(expr_shaped(joined));
                            lemma_binary_tail_shape(inp, start, next, level, joined);
                        }
                    },
                    None => {},
                }
            },
            None => {},
        }
    }
}

/// A unary expression parses into an expression of the right shape.
proof fn lemma_unary_shape(inp: Input, pos: int)
    requires
        lexed(inp),
    ensures
        unary_spec(inp, pos) matches Some((t, _)) ==> expr_shaped(t),
    decreases inp.len() - pos, 11nat,
{
    if kind_at(inp, pos) == Some(LexKind::Dash) {
        lemma_unary_shape(inp, pos + 1);
    } else {
        lemma_atom_shape(inp, pos);
        match atom_spec(inp, pos) {
            Some((base, next)) => {
                if ahead(inp, pos, next) {
                    lemma_lookups_shape(inp, pos, next, base);
                }
            },
            None => {},
        }
    }
}

/// The lookups that follow an expression of the right shape give one.
proof fn lemma_lookups_shape(inp: Input, start: int, pos: int, base: ParseTree)
    requires
        expr_shaped(base),
    ensures
        expr_shaped(lookups_spec(inp, start, pos, base).0),
    decreases inp.len() - pos,
{
    if kind_at(inp, pos) == Some(LexKind::Dot) && kind_at(inp, pos + 1) == Some(LexKind::Word) {
        let looked = tree(
            inp,
            Rule::PropLookup,
            start,
            pos + 2,
            seq![base, leaf(inp, Rule::Id, pos + 1)],
        );
        assert(expr_shaped(looked));
        lemma_lookups_shape(inp, start, pos + 2, looked);
    }
}

/// An atom parses into an expression of the right shape.
proof fn lemma_atom_shape(inp: Input, pos: int)
    requires
        lexed(inp),
    ensures
        atom_spec(inp, pos) matches Some((t, _)) ==> expr_shaped(t),
    decreases inp.len() - pos, 9nat,
{
    match kind_at(inp, pos) {
        Some(LexKind::Int) => {
            assert(inp.lexemes[pos].kind == LexKind::Int);
        },
        Some(LexKind::Word) => {
            lemma_word_atom_shape(inp, pos);
        },
        Some(LexKind::LParen) => {
            lemma_expr_shape(inp, pos + 1);
        },
        Some(LexKind::LBracket) => {
            lemma_expr_list_shape(inp, pos + 1, LexKind::RBracket);
        },
        Some(LexKind::LBrace) => {
            lemma_map_shape(inp, pos);
        },
        _ => {},
    }
}

/// An atom that starts with a word parses into an expression of the right
/// shape.
proof fn lemma_word_atom_shape(inp: Input, pos: int)
    requires
        lexed(inp),
        kind_at(inp, pos) == Some(LexKind::Word),
    ensures
        word_atom_spec(inp, pos) matches Some((t, _)) ==> expr_shaped(t),
    decreases inp.len() - pos, 8nat,
{
    if kind_at(inp, pos + 1) == Some(LexKind::LParen) {
        lemma_call_shape(inp, pos);
    }
}

/// A call of a function parses into an expression of the right shape.
proof fn lemma_call_shape(inp: Input, pos: int)
    requires
        lexed(inp),
    ensures
        call_spec(inp, pos) matches Some((t, _)) ==> expr_shaped(t),
    decreases inp.len() - pos, 7nat,
{
    if kind_at(inp, pos + 1) == Some(LexKind::LParen) {
        lemma_expr_list_shape(inp, pos + 2, LexKind::RParen);
        match expr_list_spec(inp, pos + 2, LexKind::RParen) {
            Some((args, next)) => {
                let children = seq![leaf(inp, Rule::Id, pos)] + args;
                assert forall|i: int| 1 <= i < children.len() implies expr_shaped(
                    #[trigger] children[i],
                ) by {
                    assert(children[i] == args[i - 1]);
                }
            },
            None => {},
        }
    }
}

/// A list of expressions parses into expressions of the right shape.
proof fn lemma_expr_list_shape(inp: Input, pos: int, close: LexKind)
    requires
        lexed(inp),
    ensures
        expr_list_spec(inp, pos, close) matches Some((ts, _)) ==> exprs_shaped(ts, 0),
    decreases inp.len() - pos, 22nat,
{
    if kind_at(inp, pos) != Some(close) {
        lemma_expr_list_tail_shape(inp, pos, close, Seq::empty());
    }
}

/// The rest of a list of expressions parses into expressions of the right
/// shape.
proof fn lemma_expr_list_tail_shape(inp: Input, pos: int, close: LexKind, acc: Seq<ParseTree>)
    requires
        lexed(inp),
        exprs_shaped(acc, 0),
    ensures
        expr_list_tail(inp, pos, close, acc) matches Some((ts, _)) ==> exprs_shaped(ts, 0),
    decreases inp.len() - pos, 21nat,
{
    if pos < inp.len() {
        lemma_expr_shape(inp, pos);
        match expr_spec(inp, pos) {
            Some((item, next)) => {
                if ahead(inp, pos, next) {
                    if kind_at(inp, next) == Some(LexKind::Comma) {
                        lemma_expr_list_tail_shape(inp, next + 1, close, acc.push(item));
                    }
                }
            },
            None => {},
        }
    }
}

/// A map parses into a map literal whose pairs are of the right shape.
proof fn lemma_map_shape(inp: Input, pos: int)
    requires
        lexed(inp),
    ensures
        map_spec(inp, pos) matches Some((t, _)) ==> t.rule == Rule::MapLit && pairs_shaped(
            t.children,
        ) && expr_shaped(t),
    decreases inp.len() - pos, 6nat,
{
    if kind_at(inp, pos) == Some(LexKind::LBrace) && kind_at(inp, pos + 1) != Some(
        LexKind::RBrace,
    ) {
        lemma_map_tail_shape(inp, pos, pos + 1, Seq::empty());
    }
}

/// The rest of a map, after pairs of the right shape, parses into a map
/// literal whose pairs are of the right shape.
proof fn lemma_map_tail_shape(inp: Input, start: int, pos: int, acc: Seq<ParseTree>)
    requires
        lexed(inp),
        pairs_shaped(acc),
    ensures
        map_tail(inp, start, pos, acc) matches Some((t, _)) ==> t.rule == Rule::MapLit
            && pairs_shaped(t.children) && expr_shaped(t),
    decreases inp.len() - pos, 0nat,
{
    if !(pos >= inp.len() || kind_at(inp, pos) != Some(LexKind::Word) || kind_at(inp, pos + 1)
        != Some(LexKind::Colon)) {
        lemma_expr_shape(inp, pos + 2);
        match expr_spec(inp, pos + 2) {
            Some((value, next)) => {
                if ahead(inp, pos + 2, next) {
                    let pair = tree(
                        inp,
                        Rule::MapPair,
                        pos,
                        next,
                        seq![leaf(inp, Rule::Id, pos), value],
                    );
                    assert(pair_shaped(pair));
                    if kind_at(inp, next) == Some(LexKind::Comma) {
                        lemma_map_tail_shape(inp, start, next + 1, acc.push(pair));
                    }
                }
            },
            None => {},
        }
    }
}

/// The labels of a node are identifiers.
proof fn lemma_labels_tail(inp: Input, pos: int, acc: Seq<ParseTree>)
    ensures
        labels_tail(inp, pos, acc).0.len() >= acc.len(),
    decreases inp.len() - pos,
{
    if kind_at(inp, pos) == Some(LexKind::Colon) && kind_at(inp, pos + 1) == Some(LexKind::Word) {
        lemma_labels_tail(inp, pos + 2, acc.push(leaf(inp, Rule::Id, pos + 1)));
    }
}

/// A node parses into a node of the right shape.
proof fn lemma_node_shape(inp: Input, pos: int)
    requires
        lexed(inp),
    ensures
        node_spec(inp, pos) matches Some((t, _)) ==> node_shaped(t),
{
    if kind_at(inp, pos) == Some(LexKind::LParen) {
        let (c1, pos1) = opt_id(inp, pos + 1, Seq::empty());
        assert(node_parts_shaped(c1));
        let (c2, pos2) = opt_labels(inp, pos1, c1);
        assert(node_parts_shaped(c2));
        if kind_at(inp, pos2) == Some(LexKind::LBrace) {
            lemma_map_shape(inp, pos2);
        }
        match opt_map(inp, pos2, c2) {
            Some((c3, pos3)) => {
                assert(node_parts_shaped(c3));
            },
            None => {},
        }
    }
}

/// A relationship parses into a relationship of the right shape.
proof fn lemma_rel_shape(inp: Input, pos: int)
    requires
        lexed(inp),
    ensures
        rel_spec(inp, pos) matches Some((t, _)) ==> rel_shaped(t),
{
    let left = kind_at(inp, pos) == Some(LexKind::Lt);
    let c0 = if left {
        seq![leaf(inp, Rule::LeftArrow, pos)]
    } else {
        Seq::empty()
    };
    let pos1 = if left {
        pos + 1
    } else {
        pos
    };
    assert(rel_parts_shaped(c0));
    if kind_at(inp, pos1) == Some(LexKind::Dash) {
        if kind_at(inp, pos1 + 1) == Some(LexKind::LBracket) {
            let (c1, p1) = opt_id(inp, pos1 + 2, c0);
            assert(rel_parts_shaped(c1));
            let (c2, p2) = opt_rel_type(inp, p1, c1);
            assert(rel_parts_shaped(c2));
            if kind_at(inp, p2) == Some(LexKind::LBrace) {
                lemma_map_shape(inp, p2);
            }
            match opt_map(inp, p2, c2) {
                Some((c3, p3)) => {
                    assert(rel_parts_shaped(c3));
                },
                None => {},
            }
        }
        match rel_detail(inp, pos1 + 1, c0) {
            Some((c1, pos2)) => {
                assert(rel_parts_shaped(c1));
                if kind_at(inp, pos2) == Some(LexKind::Dash) {
                    let right = kind_at(inp, pos2 + 1) == Some(LexKind::Gt);
                    let c2 = if right {
                        c1.push(leaf(inp, Rule::RightArrow, pos2 + 1))
                    } else {
                        c1
                    };
                    assert(rel_parts_shaped(c2));
                }
            },
            None => {},
        }
    }
}

/// A pattern parses into a pattern of the right shape.
proof fn lemma_pattern_shape(inp: Input, pos: int)
    requires
        lexed(inp),
    ensures
        pattern_spec(inp, pos) matches Some((t, _)) ==> pattern_shaped(t),
{
    lemma_node_shape(inp, pos);
    match node_spec(inp, pos) {
        Some((first, next)) => {
            if ahead(inp, pos, next) {
                lemma_pattern_tail_shape(inp, pos, next, seq![first]);
            }
        },
        None => {},
    }
}

/// The rest of a pattern, after segments of the right shape, parses into a
/// pattern of the right shape.
proof fn lemma_pattern_tail_shape(inp: Input, start: int, pos: int, acc: Seq<ParseTree>)
    requires
        lexed(inp),
        segments_shaped(acc),
        acc.len() % 2 == 1,
    ensures
        pattern_tail(inp, start, pos, acc) matches Some((t, _)) ==> pattern_shaped(t),
    decreases inp.len() - pos,
{
    if kind_at(inp, pos) == Some(LexKind::Lt) || kind_at(inp, pos) == Some(LexKind::Dash) {
        lemma_rel_shape(inp, pos);
        match rel_spec(inp, pos) {
            Some((rel, pos1)) => {
                if ahead(inp, pos, pos1) {
                    lemma_node_shape(inp, pos1);
                    match node_spec(inp, pos1) {
                        Some((node, pos2)) => {
                            if ahead(inp, pos1, pos2) {
                                let next = acc.push(rel).push(node);
                                assert forall|i: int| 0 <= i < next.len() implies if i % 2 == 0 {
                                    node_shaped(#[trigger] next[i])
                                } else {
                                    rel_shaped(next[i])
                                } by {
                                    if i < acc.len() {
                                        assert(next[i] == acc[i]);
                                    }
                                }
                                lemma_pattern_tail_shape(inp, start, pos2, next);
                            }
                        },
                        None => {},
                    }
                }
            },
            None => {},
        }
    }
}

/// Patterns parse into patterns of the right shape.
proof fn lemma_patterns_shape(inp: Input, pos: int, acc: Seq<ParseTree>)
    requires
        lexed(inp),
        pattern_parts_shaped(acc),
    ensures
        patterns_spec(inp, pos, acc) matches Some((ts, _)) ==> pattern_parts_shaped(ts),
    decreases inp.len() - pos,
{
    if pos < inp.len() {
        lemma_pattern_shape(inp, pos);
        match pattern_spec(inp, pos) {
            Some((pattern, next)) => {
                if ahead(inp, pos, next) {
                    assert(pattern_parts_shaped(acc.push(pattern)));
                    if kind_at(inp, next) == Some(LexKind::Comma) {
                        lemma_patterns_shape(inp, next + 1, acc.push(pattern));
                    }
                }
            },
            None => {},
        }
    }
}

/// The tree is of the right shape for an item of the kind `kind`.
pub open spec fn item_shaped(kind: ItemKind, item: ParseTree) -> bool {
    match kind {
        ItemKind::Projection => projection_part_shaped(item),
        ItemKind::Assignment => assignment_shaped(item),
        ItemKind::SortKey => expr_shaped(item),
    }
}

/// The trees are of the right shape for the items of the kind `kind`.
pub open spec fn items_shaped(kind: ItemKind, items: Seq<ParseTree>) -> bool {
    forall|i: int| 0 <= i < items.len() ==> item_shaped(kind, #[trigger] items[i])
}

/// A projection parses into a projection of the right shape.
proof fn lemma_projection_item_shape(inp: Input, pos: int)
    requires
        lexed(inp),
    ensures
        projection_item(inp, pos) matches Some((t, _)) ==> projection_part_shaped(t),
{
    if kind_at(inp, pos) != Some(LexKind::Star) {
        lemma_expr_shape(inp, pos);
    }
}

/// An assignment with its value parses into an assignment of the right
/// shape.
proof fn lemma_assignment_value_shape(
    inp: Input,
    pos: int,
    at: int,
    rule: Rule,
    targets: Seq<ParseTree>,
)
    requires
        lexed(inp),
        (rule == Rule::SingleAssignment && targets.len() == 2) || ((rule
            == Rule::AppendAssignment || rule == Rule::OverwriteAssignment) && targets.len()
            == 1),
    ensures
        assignment_value(inp, pos, at, rule, targets) matches Some((t, _)) ==> assignment_shaped(
            t,
        ),
{
    lemma_expr_shape(inp, at);
}

/// An assignment parses into an assignment of the right shape.
proof fn lemma_assignment_item_shape(inp: Input, pos: int)
    requires
        lexed(inp),
    ensures
        assignment_item(inp, pos) matches Some((t, _)) ==> assignment_shaped(t),
{
    if kind_at(inp, pos) == Some(LexKind::Word) {
        if kind_at(inp, pos + 1) == Some(LexKind::Dot) && kind_at(inp, pos + 2) == Some(
            LexKind::Word,
        ) && kind_at(inp, pos + 3) == Some(LexKind::Eq) {
            lemma_assignment_value_shape(
                inp,
                pos,
                pos + 4,
                Rule::SingleAssignment,
                seq![leaf(inp, Rule::Id, pos), leaf(inp, Rule::Id, pos + 2)],
            );
        } else if kind_at(inp, pos + 1) == Some(LexKind::PlusEq) {
            lemma_assignment_value_shape(
                inp,
                pos,
                pos + 2,
                Rule::AppendAssignment,
                seq![leaf(inp, Rule::Id, pos)],
            );
        } else if kind_at(inp, pos + 1) == Some(LexKind::Eq) {
            lemma_assignment_value_shape(
                inp,
                pos,
                pos + 2,
                Rule::OverwriteAssignment,
                seq![leaf(inp, Rule::Id, pos)],
            );
        }
    }
}

/// An item parses into an item of the right shape.
proof fn lemma_item_shape(inp: Input, pos: int, kind: ItemKind)
    requires
        lexed(inp),
    ensures
        item_spec(inp, pos, kind) matches Some((t, _)) ==> item_shaped(kind, t),
{
    match kind {
        ItemKind::Projection => {
            lemma_projection_item_shape(inp, pos);
        },
        ItemKind::Assignment => {
            lemma_assignment_item_shape(inp, pos);
        },
        ItemKind::SortKey => {
            lemma_expr_shape(inp, pos);
        },
    }
}

/// Items parse into items of the right shape.
proof fn lemma_items_shape(inp: Input, pos: int, kind: ItemKind, acc: Seq<ParseTree>)
    requires
        lexed(inp),
        items_shaped(kind, acc),
    ensures
        items_spec(inp, pos, kind, acc) matches Some((ts, _)) ==> items_shaped(kind, ts),
    decreases inp.len() - pos,
{
    if pos < inp.len() {
        lemma_item_shape(inp, pos, kind);
        match item_spec(inp, pos, kind) {
            Some((item, next)) => {
                if ahead(inp, pos, next) {
                    if kind_at(inp, next) == Some(LexKind::Comma) {
                        lemma_items_shape(inp, next + 1, kind, acc.push(item));
                    }
                }
            },
            None => {},
        }
    }
}

/// A clause with one expression keeps its statement in shape.
proof fn lemma_opt_clause_shape(
    inp: Input,
    pos: int,
    kw: Seq<char>,
    rule: Rule,
    acc: Seq<ParseTree>,
)
    requires
        lexed(inp),
        rule == Rule::WhereClause || rule == Rule::SkipClause || rule == Rule::LimitClause,
    ensures
        opt_clause(inp, pos, kw, rule, acc) matches Some((ts, _)) ==> {
            &&& pattern_parts_shaped(acc) && rule == Rule::WhereClause ==> pattern_parts_shaped(ts)
            &&& projection_parts_shaped(acc) ==> projection_parts_shaped(ts)
        },
{
    if pos < inp.len() && is_kw(inp, pos, kw) {
        lemma_expr_shape(inp, pos + 1);
    }
}

/// The clause that orders keeps its statement in shape.
proof fn lemma_opt_order_shape(inp: Input, pos: int, acc: Seq<ParseTree>)
    requires
        lexed(inp),
        projection_parts_shaped(acc),
    ensures
        opt_order(inp, pos, acc) matches Some((ts, _)) ==> projection_parts_shaped(ts),
{
    if pos < inp.len() && is_kw(inp, pos, "order"@) && is_kw(inp, pos + 1, "by"@) {
        lemma_items_shape(inp, pos + 2, ItemKind::SortKey, Seq::empty());
        match items_spec(inp, pos + 2, ItemKind::SortKey, Seq::empty()) {
            Some((keys, next)) => {
                assert(exprs_shaped(keys, 0)) by {
                    assert forall|i: int| 0 <= i < keys.len() implies expr_shaped(
                        #[trigger] keys[i],
                    ) by {
                        assert(item_shaped(ItemKind::SortKey, keys[i]));
                    }
                }
            },
            None => {},
        }
    }
}

/// A statement parses into a statement of the right shape.
proof fn lemma_statement_shape(inp: Input, pos: int)
    requires
        lexed(inp),
    ensures
        statement_spec(inp, pos) matches Some((t, _)) ==> statement_shaped(t),
{
    if is_kw(inp, pos, "match"@) || is_kw(inp, pos, "optional"@) {
        let optional = pos < inp.len() && is_kw(inp, pos, "optional"@);
        let pos1 = if optional {
            pos + 1
        } else {
            pos
        };
        let c0 = if optional {
            seq![leaf(inp, Rule::OptionalClause, pos)]
        } else {
            Seq::empty()
        };
        assert(pattern_parts_shaped(c0));
        if pos1 < inp.len() && is_kw(inp, pos1, "match"@) {
            lemma_patterns_shape(inp, pos1 + 1, c0);
            match patterns_spec(inp, pos1 + 1, c0) {
                Some((c1, pos2)) => {
                    lemma_opt_clause_shape(inp, pos2, "where"@, Rule::WhereClause, c1);
                },
                None => {},
            }
        }
    } else if is_kw(inp, pos, "unwind"@) {
        if pos < inp.len() {
            lemma_expr_shape(inp, pos + 1);
        }
    } else if is_kw(inp, pos, "create"@) {
        if pos < inp.len() {
            lemma_patterns_shape(inp, pos + 1, Seq::empty());
        }
    } else if is_kw(inp, pos, "merge"@) {
        if pos < inp.len() {
            lemma_pattern_shape(inp, pos + 1);
            match pattern_spec(inp, pos + 1) {
                Some((pattern, next)) => {
                    assert(pattern_parts_shaped(seq![pattern]));
                },
                None => {},
            }
        }
    } else if is_kw(inp, pos, "with"@) {
        lemma_projection_stmt_shape(inp, pos, false);
    } else if is_kw(inp, pos, "return"@) {
        lemma_projection_stmt_shape(inp, pos, true);
    } else if is_kw(inp, pos, "call"@) {
        if pos < inp.len() && kind_at(inp, pos + 1) == Some(LexKind::Word) {
            let end = name_end(inp, pos + 2);
            if kind_at(inp, end) == Some(LexKind::LParen) {
                lemma_expr_list_shape(inp, end + 1, LexKind::RParen);
                match expr_list_spec(inp, end + 1, LexKind::RParen) {
                    Some((args, next)) => {
                        let children = seq![tree(inp, Rule::Id, pos + 1, end, Seq::empty())] + args;
                        assert forall|i: int| 1 <= i < children.len() implies expr_shaped(
                            #[trigger] children[i],
                        ) by {
                            assert(children[i] == args[i - 1]);
                        }
                    },
                    None => {},
                }
            }
        }
    } else if is_kw(inp, pos, "set"@) {
        if pos < inp.len() {
            lemma_items_shape(inp, pos + 1, ItemKind::Assignment, Seq::empty());
            match items_spec(inp, pos + 1, ItemKind::Assignment, Seq::empty()) {
                Some((items, next)) => {
                    assert(assignment_parts_shaped(items)) by {
                        assert forall|i: int| 0 <= i < items.len() implies assignment_shaped(
                            #[trigger] items[i],
                        ) by {
                            assert(item_shaped(ItemKind::Assignment, items[i]));
                        }
                    }
                },
                None => {},
            }
        }
    }
}

/// A statement that projects parses into a statement of the right shape.
proof fn lemma_projection_stmt_shape(inp: Input, pos: int, produce: bool)
    requires
        lexed(inp),
    ensures
        projection_stmt_spec(inp, pos, produce) matches Some((t, _)) ==> statement_shaped(t),
{
    if pos < inp.len() && is_kw(
        inp,
        pos,
        if produce {
            "return"@
        } else {
            "with"@
        },
    ) {
        lemma_items_shape(inp, pos + 1, ItemKind::Projection, Seq::empty());
        match items_spec(inp, pos + 1, ItemKind::Projection, Seq::empty()) {
            None => {},
            Some((c1, pos1)) => {
                assert(projection_parts_shaped(c1)) by {
                    assert forall|i: int| 0 <= i < c1.len() implies projection_part_shaped(
                        #[trigger] c1[i],
                    ) by {
                        assert(item_shaped(ItemKind::Projection, c1[i]));
                    }
                }
                lemma_opt_order_shape(inp, pos1, c1);
                match opt_order(inp, pos1, c1) {
                    None => {},
                    Some((c2, pos2)) => {
                        lemma_opt_clause_shape(inp, pos2, "skip"@, Rule::SkipClause, c2);
                        match opt_clause(inp, pos2, "skip"@, Rule::SkipClause, c2) {
                            None => {},
                            Some((c3, pos3)) => {
                                lemma_opt_clause_shape(inp, pos3, "limit"@, Rule::LimitClause, c3);
                                match opt_clause(inp, pos3, "limit"@, Rule::LimitClause, c3) {
                                    None => {},
                                    Some((c4, pos4)) => {
                                        lemma_opt_clause_shape(
                                            inp,
                                            pos4,
                                            "where"@,
                                            Rule::WhereClause,
                                            c4,
                                        );
                                    },
                                }
                            },
                        }
                    },
                }
            },
        }
    }
}

/// Statements parse into statements of the right shape.
proof fn lemma_statements_shape(inp: Input, pos: int, acc: Seq<ParseTree>)
    requires
        lexed(inp),
        statements_shaped(acc),
    ensures
        statements_spec(inp, pos, acc) matches Some(ts) ==> statements_shaped(ts),
    decreases inp.len() - pos,
{
    if pos < inp.len() {
        lemma_statement_shape(inp, pos);
        match statement_spec(inp, pos) {
            Some((stmt, next)) => {
                if ahead(inp, pos, next) {
                    lemma_statements_shape(inp, next, acc.push(stmt));
                }
            },
            None => {},
        }
    }
}

/// The parser builds queries of the right shape.
pub proof fn lemma_parse_shaped(text: Seq<char>)
    requires
        text.len() <= usize::MAX,
    ensures
        parse_spec(text) matches Some(query) ==> query_shaped(query),
{
    lemma_lex_ints(text, 0, Seq::empty());
    match lex_spec(text) {
        Some(lexemes) => {
            let inp = Input { chars: text, lexemes };
            lemma_statements_shape(inp, 0, Seq::empty());
            match statements_spec(inp, 0, Seq::empty()) {
                Some(stmts) => {
                    assert(statement_shaped(eoi()));
                    assert(statements_shaped(stmts.push(eoi())));
                },
                None => {},
            }
        },
        None => {},
    }
}

/// What parses is planned: the text of a query is either refused by the
/// parser, or planning fails for what the query means, or there is a plan; a
/// query that the parser took is never rejected as a malformed tree.
pub proof fn lemma_parsed_is_accepted(text: Seq<char>, ctx: ContextView, bd: &BackendDesc)
    requires
        text.len() <= usize::MAX,
    ensures
        !malformed(plan_text_spec(text, ctx, bd).result),
{
    lemma_parse_shaped(text);
    match parse_spec(text) {
        Some(query) => {
            lemma_query_accepted(query, ctx, bd);
        },
        None => {},
    }
}

} // verus!
