use gqlite::backend::{BackendDesc, FuncSignature, FuncType, Tokens};
use gqlite::frontend::expr_planner::{
    int_value, parse_map_expression, plan_expr, plan_exprs, unquoted,
};
use gqlite::frontend::match_stmt::{plan_match_patterngraph, plan_pattern, slots_for};
use gqlite::frontend::pattern::{PatternGraph, PatternNode, PatternRel};
use gqlite::frontend::query::{plan_query, plan_statement};
use gqlite::frontend::set_stmt::{parse_set_clause, plan_set};
use gqlite::frontend::unwind_stmt::plan_unwind;
use gqlite::frontend::with_stmt::{expr_aggregates, plan_return, plan_with, project};
use gqlite::frontend::{
    Dir, Expr, LogicalPlan, MapEntryExpr, ParseNode, PlanningContext, Projection, Rule, Scope,
    SetAction,
};
use gqlite::{ErrorKind, Type};

fn leaf(rule: Rule, text: &str) -> ParseNode {
    ParseNode::leaf(rule, text.to_string())
}

fn node(rule: Rule, children: Vec<ParseNode>) -> ParseNode {
    ParseNode::new(rule, String::new(), children)
}

fn no_functions() -> BackendDesc {
    BackendDesc::new(vec![])
}

#[test]
fn integer_literals() {
    assert_eq!(int_value("0").unwrap(), 0);
    assert_eq!(int_value("007").unwrap(), 7);
    assert_eq!(int_value("9223372036854775807").unwrap(), i64::MAX);
    assert_eq!(int_value("9223372036854775808").unwrap_err().kind, ErrorKind::IntegerOutOfRange);
    assert_eq!(
        int_value("99999999999999999999999999").unwrap_err().kind,
        ErrorKind::IntegerOutOfRange
    );
    assert_eq!(int_value("").unwrap_err().kind, ErrorKind::UnexpectedRule);
    assert_eq!(int_value("12a").unwrap_err().kind, ErrorKind::UnexpectedRule);
    assert_eq!(int_value("-1").unwrap_err().kind, ErrorKind::UnexpectedRule);
}

#[test]
fn string_literals_lose_their_quotes() {
    assert_eq!(unquoted("'bob'"), "bob");
    assert_eq!(unquoted("\"\""), "");
    assert_eq!(unquoted("'"), "'");
    assert_eq!(unquoted(""), "");
    assert_eq!(unquoted("'it's'"), "it's");
}

#[test]
fn expression_planner_gives_slots_in_order() {
    let bd = no_functions();
    let mut tokens = Tokens::new();
    let mut scope = Scope::new();
    let tree = node(
        Rule::Add,
        vec![
            leaf(Rule::Id, "b"),
            node(Rule::PropLookup, vec![leaf(Rule::Id, "a"), leaf(Rule::Id, "b")]),
        ],
    );
    let e = plan_expr(&mut scope, &mut tokens, &bd, &tree).unwrap();
    assert_eq!(
        e,
        Expr::BinaryOp {
            left: Box::new(Expr::Slot(0)),
            right: Box::new(Expr::Prop(Box::new(Expr::Slot(1)), 0)),
            op: gqlite::frontend::Op::Add,
        }
    );
    assert_eq!(tokens.lookup(0), Some("b"));
    assert_eq!(tokens.lookup(1), Some("a"));
    assert_eq!(scope.slot(0), Some(0));
    assert_eq!(scope.slot(1), Some(1));
    assert!(!scope.is_declared(0));
}

#[test]
fn expression_planner_rejects_malformed_trees() {
    let bd = no_functions();
    let bad = [
        node(Rule::Not, vec![]),
        node(Rule::Negate, vec![leaf(Rule::Int, "1"), leaf(Rule::Int, "2")]),
        node(Rule::Add, vec![leaf(Rule::Int, "1")]),
        node(Rule::PropLookup, vec![leaf(Rule::Id, "a")]),
        node(Rule::PropLookup, vec![leaf(Rule::Id, "a"), leaf(Rule::Int, "1")]),
        node(Rule::FuncCall, vec![]),
        node(Rule::FuncCall, vec![leaf(Rule::Int, "1")]),
        node(Rule::MapLit, vec![leaf(Rule::Id, "a")]),
        node(Rule::MapLit, vec![node(Rule::MapPair, vec![leaf(Rule::Id, "a")])]),
        leaf(Rule::Int, "x"),
        leaf(Rule::MatchStmt, ""),
        leaf(Rule::Eoi, ""),
        node(Rule::List, vec![leaf(Rule::Int, "1"), leaf(Rule::Pattern, "")]),
    ];
    for tree in bad.iter() {
        let mut tokens = Tokens::new();
        let mut scope = Scope::new();
        match plan_expr(&mut scope, &mut tokens, &bd, tree) {
            Ok(e) => panic!("{:?} planned as {:?}", tree, e),
            Err(e) => assert_eq!(e.kind, ErrorKind::UnexpectedRule),
        }
    }
}

#[test]
fn expression_lists_and_maps() {
    let bd = BackendDesc::new(vec![FuncSignature {
        func_type: FuncType::Scalar,
        name: 0,
        returns: Type::Any,
        args: vec![],
    }]);
    let mut tokens = Tokens::new();
    let f = tokens.tokenize("f");
    let mut scope = Scope::new();
    let items = vec![leaf(Rule::Pattern, ""), leaf(Rule::Int, "1"), leaf(Rule::Str, "'s'")];
    assert_eq!(
        plan_exprs(&mut scope, &mut tokens, &bd, &items, 1).unwrap(),
        vec![Expr::Int(1), Expr::String("s".to_string())]
    );
    assert_eq!(plan_exprs(&mut scope, &mut tokens, &bd, &items, 3).unwrap(), vec![]);
    assert_eq!(
        plan_exprs(&mut scope, &mut tokens, &bd, &items, 0).unwrap_err().kind,
        ErrorKind::UnexpectedRule
    );
    let map = node(
        Rule::MapLit,
        vec![node(
            Rule::MapPair,
            vec![
                leaf(Rule::Id, "k"),
                node(Rule::FuncCall, vec![leaf(Rule::Id, "f"), leaf(Rule::Id, "k")]),
            ],
        )],
    );
    let k = 1;
    assert_eq!(
        parse_map_expression(&mut scope, &mut tokens, &bd, &map).unwrap(),
        vec![MapEntryExpr {
            key: k,
            val: Expr::FuncCall { name: f, args: vec![Expr::Slot(0)], aggregating: false },
        }]
    );
    assert_eq!(tokens.lookup(k), Some("k"));
    assert_eq!(scope.slot(k), Some(0));
}

#[test]
fn set_clause_on_a_tree() {
    let bd = no_functions();
    let mut tokens = Tokens::new();
    let mut scope = Scope::new();
    let stmt = node(
        Rule::SetStmt,
        vec![
            node(
                Rule::OverwriteAssignment,
                vec![leaf(Rule::Id, "a"), leaf(Rule::Id, "b")],
            ),
            node(
                Rule::SingleAssignment,
                vec![leaf(Rule::Id, "b"), leaf(Rule::Id, "k"), leaf(Rule::Null, "null")],
            ),
        ],
    );
    let actions = parse_set_clause(&mut scope, &mut tokens, &bd, &stmt).unwrap();
    // The value is planned before the entity gets its slot.
    assert_eq!(
        actions,
        vec![
            SetAction::Overwrite { entity: 1, value: Expr::Slot(0) },
            SetAction::SingleAssign { entity: 0, key: 2, value: Expr::Null },
        ]
    );
    assert_eq!(tokens.lookup(0), Some("a"));
    assert_eq!(tokens.lookup(1), Some("b"));
    assert_eq!(scope.slot(1), Some(0));
    assert_eq!(scope.slot(0), Some(1));
}

#[test]
fn statements_reject_malformed_trees() {
    let bd = no_functions();
    let mut pc = PlanningContext::new(Tokens::new(), &bd);
    let unexpected = |r: Result<LogicalPlan, gqlite::Error>| match r {
        Ok(p) => panic!("planned {:?}", p),
        Err(e) => assert_eq!(e.kind, ErrorKind::UnexpectedRule),
    };
    let arg = || LogicalPlan::Argument;
    unexpected(plan_set(&mut pc, arg(), &node(Rule::SetStmt, vec![leaf(Rule::Id, "a")])));
    unexpected(plan_set(
        &mut pc,
        arg(),
        &node(Rule::SetStmt, vec![node(Rule::AppendAssignment, vec![leaf(Rule::Id, "a")])]),
    ));
    unexpected(plan_unwind(&mut pc, arg(), &node(Rule::UnwindStmt, vec![leaf(Rule::Int, "1")])));
    unexpected(plan_statement(&mut pc, arg(), &leaf(Rule::Node, "")));
    unexpected(plan_statement(&mut pc, arg(), &node(Rule::MatchStmt, vec![leaf(Rule::Id, "a")])));
    unexpected(plan_statement(
        &mut pc,
        arg(),
        &node(Rule::MatchStmt, vec![node(Rule::Pattern, vec![leaf(Rule::Rel, "")])]),
    ));
    unexpected(plan_statement(
        &mut pc,
        arg(),
        &node(Rule::MatchStmt, vec![node(Rule::Pattern, vec![leaf(Rule::Int, "1")])]),
    ));
    unexpected(plan_statement(
        &mut pc,
        arg(),
        &node(Rule::MatchStmt, vec![node(Rule::WhereClause, vec![])]),
    ));
    unexpected(plan_statement(
        &mut pc,
        arg(),
        &node(
            Rule::MatchStmt,
            vec![node(Rule::Pattern, vec![node(Rule::Node, vec![leaf(Rule::Int, "1")])])],
        ),
    ));
    unexpected(plan_statement(&mut pc, arg(), &node(Rule::CallStmt, vec![])));
    unexpected(plan_with(&mut pc, arg(), &node(Rule::WithStmt, vec![leaf(Rule::Node, "")])));
    unexpected(plan_with(
        &mut pc,
        arg(),
        &node(Rule::WithStmt, vec![node(Rule::Projection, vec![])]),
    ));
    unexpected(plan_return(
        &mut pc,
        arg(),
        &node(Rule::ReturnStmt, vec![leaf(Rule::ProjectAll, "*"), node(Rule::SkipClause, vec![])]),
    ));
    unexpected(plan_query(&mut pc, &node(Rule::Query, vec![leaf(Rule::Int, "1")])));
    assert!(pc.has_scope());
    assert_eq!(pc.scope_history.len(), 0);
}

#[test]
fn statement_at_the_end_of_input_changes_nothing() {
    let bd = no_functions();
    let mut pc = PlanningContext::new(Tokens::new(), &bd);
    let src = LogicalPlan::NodeScan { src: Box::new(LogicalPlan::Argument), slot: 4, labels: None };
    let same = LogicalPlan::NodeScan { src: Box::new(LogicalPlan::Argument), slot: 4, labels: None };
    assert_eq!(plan_statement(&mut pc, src, &leaf(Rule::Eoi, "")).unwrap(), same);
    assert_eq!(
        plan_query(&mut pc, &node(Rule::Query, vec![])).unwrap(),
        LogicalPlan::Argument
    );
    assert_eq!(pc.tokens.len(), 0);
}

#[test]
fn aggregating_expressions() {
    let count =
        |args: Vec<Expr>| Expr::FuncCall { name: 1, args, aggregating: true };
    let scalar =
        |args: Vec<Expr>| Expr::FuncCall { name: 2, args, aggregating: false };
    assert!(expr_aggregates(&count(vec![])));
    assert!(!expr_aggregates(&scalar(vec![Expr::Slot(0)])));
    assert!(expr_aggregates(&scalar(vec![Expr::Slot(0), count(vec![])])));
    assert!(expr_aggregates(&Expr::List(vec![Expr::Int(1), count(vec![])])));
    assert!(expr_aggregates(&Expr::MapLit(vec![MapEntryExpr { key: 0, val: count(vec![]) }])));
    assert!(expr_aggregates(&Expr::Not(Box::new(count(vec![])))));
    assert!(expr_aggregates(&Expr::Negate(Box::new(count(vec![])))));
    assert!(expr_aggregates(&Expr::Prop(Box::new(count(vec![])), 3)));
    assert!(expr_aggregates(&Expr::And(vec![Expr::Null, count(vec![])])));
    assert!(expr_aggregates(&Expr::Or(vec![count(vec![]), Expr::Null])));
    assert!(expr_aggregates(&Expr::BinaryOp {
        left: Box::new(Expr::Int(1)),
        right: Box::new(count(vec![])),
        op: gqlite::frontend::Op::Add,
    }));
    for plain in [
        Expr::Int(1),
        Expr::Null,
        Expr::Slot(0),
        Expr::HasLabel(0, 1),
        Expr::List(vec![]),
        Expr::And(vec![Expr::Bool(true)]),
    ] {
        assert!(!expr_aggregates(&plain));
    }
}

#[test]
fn projection_operator() {
    let arg = || LogicalPlan::Argument;
    let count = || Expr::FuncCall { name: 1, args: vec![Expr::Slot(0)], aggregating: true };
    assert_eq!(
        project(arg(), vec![]),
        LogicalPlan::Project { src: Box::new(arg()), projections: vec![] }
    );
    assert_eq!(
        project(
            arg(),
            vec![
                Projection { expr: count(), alias: 5, dst: 0 },
                Projection { expr: Expr::Slot(1), alias: 6, dst: 1 },
                Projection { expr: Expr::Slot(2), alias: 7, dst: 2 },
                Projection { expr: Expr::List(vec![count()]), alias: 8, dst: 3 },
            ]
        ),
        LogicalPlan::Aggregate {
            src: Box::new(arg()),
            grouping: vec![(Expr::Slot(1), 1), (Expr::Slot(2), 2)],
            aggregations: vec![(count(), 0), (Expr::List(vec![count()]), 3)],
        }
    );
}

fn pattern_node(identifier: usize, solved: bool) -> PatternNode {
    PatternNode { identifier, labels: vec![], props: vec![], anonymous: false, bound: solved, solved }
}

fn pattern_rel(identifier: usize, left: usize, right: Option<usize>, dir: Option<Dir>) -> PatternRel {
    PatternRel {
        identifier,
        rel_type: None,
        left_node: left,
        right_node: right,
        dir,
        props: vec![],
        anonymous: false,
        bound: false,
        solved: false,
    }
}

fn expand(src: LogicalPlan, slots: (usize, usize, usize), dir: Option<Dir>) -> LogicalPlan {
    LogicalPlan::Expand {
        src: Box::new(src),
        src_slot: slots.0,
        rel_slot: slots.1,
        dst_slot: slots.2,
        rel_type: None,
        dir,
    }
}

#[test]
fn solver_expands_outward_from_what_is_solved() {
    // (10)-[20]->(11)<-[21]-(12), (13), with 11 solved beforehand.
    let bd = no_functions();
    let mut pc = PlanningContext::new(Tokens::new(), &bd);
    let mut pg = PatternGraph::new();
    for (id, solved) in [(10, false), (11, true), (12, false), (13, false)] {
        pg.merge_node(pattern_node(id, solved));
    }
    pg.merge_rel(pattern_rel(20, 10, Some(11), Some(Dir::Out)));
    pg.merge_rel(pattern_rel(21, 11, Some(12), Some(Dir::In)));
    pg.merge_rel(pattern_rel(22, 14, None, None));
    let plan = plan_match_patterngraph(&mut pc, LogicalPlan::Argument, &pg);
    let first = expand(LogicalPlan::Argument, (0, 1, 2), Some(Dir::In));
    let second = expand(first, (0, 3, 4), Some(Dir::In));
    assert_eq!(
        plan,
        LogicalPlan::NestLoop {
            outer: Box::new(second),
            inner: Box::new(LogicalPlan::NodeScan {
                src: Box::new(LogicalPlan::Argument),
                slot: 5,
                labels: None
            }),
            predicate: Expr::Bool(true),
        }
    );
    assert_eq!(pc.scope().slot(11), Some(0));
    assert_eq!(pc.scope().slot(20), Some(1));
    assert_eq!(pc.scope().slot(10), Some(2));
    assert_eq!(pc.scope().slot(21), Some(3));
    assert_eq!(pc.scope().slot(12), Some(4));
    assert_eq!(pc.scope().slot(13), Some(5));
    // A relationship without a right node is never expanded; it still has a
    // slot, from the filters.
    assert_eq!(pc.scope().slot(22), Some(6));
    assert_eq!(pc.scope().slot(14), None);
}

#[test]
fn solver_on_an_empty_graph() {
    let bd = no_functions();
    let mut pc = PlanningContext::new(Tokens::new(), &bd);
    let pg = PatternGraph::new();
    assert_eq!(plan_pattern(&mut pc, LogicalPlan::Argument, &pg), LogicalPlan::Argument);
    assert_eq!(slots_for(&mut pc, &vec![7, 8, 7]), vec![0, 1, 0]);
}

#[test]
fn solver_closes_a_cycle() {
    // (1)-[5]->(2)-[6]->(1)
    let bd = no_functions();
    let mut pc = PlanningContext::new(Tokens::new(), &bd);
    let mut pg = PatternGraph::new();
    pg.merge_node(pattern_node(1, false));
    pg.merge_node(pattern_node(2, false));
    pg.merge_rel(pattern_rel(5, 1, Some(2), Some(Dir::Out)));
    pg.merge_rel(pattern_rel(6, 2, Some(1), Some(Dir::Out)));
    let plan = plan_match_patterngraph(&mut pc, LogicalPlan::Argument, &pg);
    let scan = LogicalPlan::NodeScan { src: Box::new(LogicalPlan::Argument), slot: 0, labels: None };
    let first = expand(scan, (0, 1, 2), Some(Dir::Out));
    assert_eq!(plan, expand(first, (2, 3, 0), Some(Dir::Out)));
}
