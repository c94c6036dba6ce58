use gqlite::frontend::lexer::{lex, LexKind};
use gqlite::frontend::{CypherParser, ParseNode, Rule};
use gqlite::ErrorKind;

fn leaf(rule: Rule, text: &str) -> ParseNode {
    ParseNode { rule, text: text.to_string(), children: vec![] }
}

fn node(rule: Rule, text: &str, children: Vec<ParseNode>) -> ParseNode {
    ParseNode { rule, text: text.to_string(), children }
}

fn kinds(text: &str) -> Option<Vec<(LexKind, usize, usize)>> {
    let chars: Vec<char> = text.chars().collect();
    lex(&chars).map(|ls| ls.iter().map(|l| (l.kind, l.start, l.end)).collect())
}

#[test]
fn lex_words_numbers_and_strings() {
    assert_eq!(
        kinds("ab_1 12 1.5 'x y' \"z\""),
        Some(vec![
            (LexKind::Word, 0, 4),
            (LexKind::Int, 5, 7),
            (LexKind::Float, 8, 11),
            (LexKind::Str, 12, 17),
            (LexKind::Str, 18, 21),
        ])
    );
    assert_eq!(kinds(""), Some(vec![]));
    assert_eq!(kinds(" \t\r\n"), Some(vec![]));
    assert_eq!(
        kinds("1."),
        Some(vec![(LexKind::Int, 0, 1), (LexKind::Dot, 1, 2)])
    );
    assert_eq!(
        kinds("1.x"),
        Some(vec![(LexKind::Int, 0, 1), (LexKind::Dot, 1, 2), (LexKind::Word, 2, 3)])
    );
}

#[test]
fn lex_punctuation() {
    assert_eq!(
        kinds("()[]{},:.-+*/%<>=<=>=<>+="),
        Some(vec![
            (LexKind::LParen, 0, 1),
            (LexKind::RParen, 1, 2),
            (LexKind::LBracket, 2, 3),
            (LexKind::RBracket, 3, 4),
            (LexKind::LBrace, 4, 5),
            (LexKind::RBrace, 5, 6),
            (LexKind::Comma, 6, 7),
            (LexKind::Colon, 7, 8),
            (LexKind::Dot, 8, 9),
            (LexKind::Dash, 9, 10),
            (LexKind::Plus, 10, 11),
            (LexKind::Star, 11, 12),
            (LexKind::Slash, 12, 13),
            (LexKind::Percent, 13, 14),
            (LexKind::NotEq, 14, 16),
            (LexKind::Eq, 16, 17),
            (LexKind::LtEq, 17, 19),
            (LexKind::GtEq, 19, 21),
            (LexKind::NotEq, 21, 23),
            (LexKind::PlusEq, 23, 25),
        ])
    );
    assert_eq!(
        kinds("<-->"),
        Some(vec![
            (LexKind::Lt, 0, 1),
            (LexKind::Dash, 1, 2),
            (LexKind::Dash, 2, 3),
            (LexKind::Gt, 3, 4),
        ])
    );
}

#[test]
fn lex_rejects_what_starts_no_lexeme() {
    assert_eq!(kinds("a ? b"), None);
    assert_eq!(kinds("'open"), None);
    assert_eq!(kinds("a # b"), None);
    assert_eq!(kinds("\u{e9}"), None);
}

#[test]
fn parse_match_statement() {
    let query = CypherParser::parse("match (a:A:B {k: 1})<-[r:T]-() where a.k = 2").unwrap();
    let pattern = node(
        Rule::Pattern,
        "(a:A:B {k: 1})<-[r:T]-()",
        vec![
            node(
                Rule::Node,
                "(a:A:B {k: 1})",
                vec![
                    leaf(Rule::Id, "a"),
                    node(Rule::Label, ":A:B", vec![leaf(Rule::Id, "A"), leaf(Rule::Id, "B")]),
                    node(
                        Rule::MapLit,
                        "{k: 1}",
                        vec![node(
                            Rule::MapPair,
                            "k: 1",
                            vec![leaf(Rule::Id, "k"), leaf(Rule::Int, "1")],
                        )],
                    ),
                ],
            ),
            node(
                Rule::Rel,
                "<-[r:T]-",
                vec![leaf(Rule::LeftArrow, "<"), leaf(Rule::Id, "r"), leaf(Rule::RelType, "T")],
            ),
            node(Rule::Node, "()", vec![]),
        ],
    );
    let condition = node(
        Rule::WhereClause,
        "where a.k = 2",
        vec![node(
            Rule::Eq,
            "a.k = 2",
            vec![
                node(Rule::PropLookup, "a.k", vec![leaf(Rule::Id, "a"), leaf(Rule::Id, "k")]),
                leaf(Rule::Int, "2"),
            ],
        )],
    );
    assert_eq!(
        query,
        node(
            Rule::Query,
            "match (a:A:B {k: 1})<-[r:T]-() where a.k = 2",
            vec![
                node(
                    Rule::MatchStmt,
                    "match (a:A:B {k: 1})<-[r:T]-() where a.k = 2",
                    vec![pattern, condition],
                ),
                leaf(Rule::Eoi, ""),
            ],
        )
    );
}

#[test]
fn parse_statements_in_a_row() {
    let query = CypherParser::parse(
        "  OPTIONAL MATCH (a)  UNWIND [1] AS x CREATE (b) MERGE (c) WITH * RETURN a AS z CALL f.g(a) SET a.k = 1, a += {}, a = b ",
    )
    .unwrap();
    let rules: Vec<Rule> = query.children.iter().map(|c| c.rule).collect();
    assert_eq!(
        rules,
        vec![
            Rule::MatchStmt,
            Rule::UnwindStmt,
            Rule::CreateStmt,
            Rule::MergeStmt,
            Rule::WithStmt,
            Rule::ReturnStmt,
            Rule::CallStmt,
            Rule::SetStmt,
            Rule::Eoi,
        ]
    );
    assert_eq!(query.children[0].children[0], leaf(Rule::OptionalClause, "OPTIONAL"));
    assert_eq!(query.children[4].children, vec![leaf(Rule::ProjectAll, "*")]);
    assert_eq!(
        query.children[5].children,
        vec![node(
            Rule::Projection,
            "a AS z",
            vec![leaf(Rule::Id, "a"), leaf(Rule::Id, "z")]
        )]
    );
    assert_eq!(
        query.children[6].children,
        vec![leaf(Rule::Id, "f.g"), leaf(Rule::Id, "a")]
    );
    let set_rules: Vec<Rule> = query.children[7].children.iter().map(|c| c.rule).collect();
    assert_eq!(
        set_rules,
        vec![Rule::SingleAssignment, Rule::AppendAssignment, Rule::OverwriteAssignment]
    );
    assert_eq!(query.children[7].text, "SET a.k = 1, a += {}, a = b");
}

#[test]
fn parse_expression_shapes() {
    let query =
        CypherParser::parse("RETURN NOT a AND (b OR c) AND f(1, [2]).x.y <= -d % 2").unwrap();
    let projection = &query.children[0].children[0];
    assert_eq!(projection.rule, Rule::Projection);
    let and = &projection.children[0];
    assert_eq!(and.rule, Rule::And);
    assert_eq!(and.children.len(), 3);
    assert_eq!(and.children[0], node(Rule::Not, "NOT a", vec![leaf(Rule::Id, "a")]));
    assert_eq!(
        and.children[1],
        node(Rule::Or, "b OR c", vec![leaf(Rule::Id, "b"), leaf(Rule::Id, "c")])
    );
    let call = node(
        Rule::FuncCall,
        "f(1, [2])",
        vec![
            leaf(Rule::Id, "f"),
            leaf(Rule::Int, "1"),
            node(Rule::List, "[2]", vec![leaf(Rule::Int, "2")]),
        ],
    );
    let lookups = node(
        Rule::PropLookup,
        "f(1, [2]).x.y",
        vec![
            node(Rule::PropLookup, "f(1, [2]).x", vec![call, leaf(Rule::Id, "x")]),
            leaf(Rule::Id, "y"),
        ],
    );
    assert_eq!(
        and.children[2],
        node(
            Rule::LtEq,
            "f(1, [2]).x.y <= -d % 2",
            vec![
                lookups,
                node(
                    Rule::Mod,
                    "-d % 2",
                    vec![
                        node(Rule::Negate, "-d", vec![leaf(Rule::Id, "d")]),
                        leaf(Rule::Int, "2")
                    ]
                ),
            ],
        )
    );
}

#[test]
fn parse_projection_clauses() {
    let query =
        CypherParser::parse("WITH a, b AS c ORDER BY a, c SKIP 1 LIMIT 2 WHERE a RETURN c LIMIT 1")
            .unwrap();
    let with_rules: Vec<Rule> = query.children[0].children.iter().map(|c| c.rule).collect();
    assert_eq!(
        with_rules,
        vec![
            Rule::Projection,
            Rule::Projection,
            Rule::OrderClause,
            Rule::SkipClause,
            Rule::LimitClause,
            Rule::WhereClause,
        ]
    );
    assert_eq!(
        query.children[0].children[2],
        node(Rule::OrderClause, "ORDER BY a, c", vec![leaf(Rule::Id, "a"), leaf(Rule::Id, "c")])
    );
    let return_rules: Vec<Rule> = query.children[1].children.iter().map(|c| c.rule).collect();
    assert_eq!(return_rules, vec![Rule::Projection, Rule::LimitClause]);
}

#[test]
fn parse_rejects_bad_text() {
    for text in [
        "",
        "   ",
        "MATCH",
        "MATCH (a",
        "MATCH (a)-(b)",
        "MATCH (a)-[r",
        "MATCH (a) WHERE",
        "MATCH a",
        "RETURN",
        "RETURN match",
        "RETURN a AS",
        "RETURN a,",
        "RETURN (a",
        "RETURN [1, 2",
        "RETURN {a 1}",
        "RETURN a ORDER a",
        "UNWIND [1] x",
        "CALL f",
        "SET a",
        "SET a.b",
        "MERGE",
        "CREATE (a), ",
        "a",
        "'s'",
        "RETURN 1 RETURN",
    ] {
        match CypherParser::parse(text) {
            Ok(tree) => panic!("{:?} parsed as {:?}", text, tree),
            Err(e) => assert_eq!(e.kind, ErrorKind::Syntax),
        }
    }
}

#[test]
fn keywords_are_not_identifiers_in_expressions() {
    assert!(CypherParser::parse("RETURN where").is_err());
    assert!(CypherParser::parse("RETURN matches").is_ok());
    assert!(CypherParser::parse("MATCH (match)").is_ok());
    assert!(CypherParser::parse("ReTuRn TRUE, fAlSe, Null").is_ok());
}
