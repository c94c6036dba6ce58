use gqlite::backend::{BackendDesc, FuncSignature, FuncType, Token, Tokens};
use gqlite::frontend::{
    Dir, Expr, Frontend, LogicalPlan, MapEntryExpr, NodeSpec, Op, PlanningContext, Projection,
    RelSpec, Scope,
};
use gqlite::{Error, ErrorKind, Type};

// Outcome of test planning: the plan plus what the checks need beside it.
struct PlanArtifacts {
    plan: LogicalPlan,
    scopes: Vec<Scope>,
    tokens: Tokens,
}

impl PlanArtifacts {
    fn slot(&self, k: Token) -> usize {
        for scope in &self.scopes {
            if let Some(s) = scope.slot(k) {
                return s;
            }
        }
        panic!("No slot for token: {:?}", self.tokens.lookup(k))
    }

    fn tokenize(&mut self, content: &str) -> Token {
        self.tokens.tokenize(content)
    }
}

fn plan(q: &str) -> Result<PlanArtifacts, Error> {
    let mut tokens = Tokens::new();
    let tok_expr = tokens.tokenize("expr");
    let fn_count = tokens.tokenize("count");
    let backend_desc = BackendDesc::new(vec![FuncSignature {
        func_type: FuncType::Aggregating,
        name: fn_count,
        returns: Type::Integer,
        args: vec![(tok_expr, Type::Any)],
    }]);
    let frontend = Frontend { tokens: Tokens::new(), backend_desc: BackendDesc::new(vec![]) };
    let mut pc = PlanningContext::new(tokens, &backend_desc);
    let plan = frontend.plan_in_context(q, &mut pc);

    let last_scope = pc.scope().clone();
    let mut scopes: Vec<Scope> = pc.scope_history.iter().map(|s| s.clone()).collect();
    scopes.push(last_scope);
    scopes.reverse();
    match plan {
        Ok(plan) => Ok(PlanArtifacts { plan, scopes, tokens: pc.tokens }),
        Err(e) => {
            println!("{}", e.message());
            Err(e)
        }
    }
}

fn scan(slot: usize, labels: Option<Token>) -> LogicalPlan {
    LogicalPlan::NodeScan { src: Box::new(LogicalPlan::Argument), slot, labels }
}

fn kind_of(q: &str) -> ErrorKind {
    match plan(q) {
        Ok(p) => panic!("planned: {:?}", p.plan),
        Err(e) => e.kind,
    }
}

#[test]
fn plan_match_return() -> Result<(), Error> {
    let mut p = plan("MATCH (a) RETURN a")?;
    let id_a = p.tokenize("a");
    assert_eq!(
        p.plan,
        LogicalPlan::ProduceResult {
            src: Box::new(LogicalPlan::Project {
                src: Box::new(scan(0, None)),
                projections: vec![Projection { expr: Expr::Slot(0), alias: id_a, dst: 0 }],
            }),
            fields: vec![(id_a, 0)],
        }
    );
    assert_eq!(p.slot(id_a), 0);
    Ok(())
}

#[test]
fn plan_match_expand_with_label() -> Result<(), Error> {
    let mut p = plan("MATCH (a:Person)-[:KNOWS]->(b) RETURN b")?;
    let id_b = p.tokenize("b");
    let person = p.tokenize("Person");
    let knows = p.tokenize("KNOWS");
    assert_eq!(
        p.plan,
        LogicalPlan::ProduceResult {
            src: Box::new(LogicalPlan::Project {
                src: Box::new(LogicalPlan::Selection {
                    src: Box::new(LogicalPlan::Expand {
                        src: Box::new(scan(0, Some(person))),
                        src_slot: 0,
                        rel_slot: 1,
                        dst_slot: 2,
                        rel_type: Some(knows),
                        dir: Some(Dir::Out),
                    }),
                    predicate: Expr::HasLabel(0, person),
                }),
                projections: vec![Projection { expr: Expr::Slot(2), alias: id_b, dst: 0 }],
            }),
            fields: vec![(id_b, 0)],
        }
    );
    Ok(())
}

#[test]
fn plan_match_disconnected() -> Result<(), Error> {
    let p = plan("MATCH (a), (b)")?;
    assert_eq!(
        p.plan,
        LogicalPlan::NestLoop {
            outer: Box::new(scan(0, None)),
            inner: Box::new(scan(1, None)),
            predicate: Expr::Bool(true),
        }
    );
    Ok(())
}

#[test]
fn plan_merge_node() -> Result<(), Error> {
    let mut p = plan("MERGE (a:Person {id:1})")?;
    let id_a = p.tokenize("a");
    let person = p.tokenize("Person");
    let key_id = p.tokenize("id");
    assert_eq!(
        p.plan,
        LogicalPlan::AntiConditionalApply {
            lhs: Box::new(LogicalPlan::Selection {
                src: Box::new(scan(0, Some(person))),
                predicate: Expr::And(vec![
                    Expr::HasLabel(0, person),
                    Expr::BinaryOp {
                        left: Box::new(Expr::Prop(Box::new(Expr::Slot(0)), key_id)),
                        right: Box::new(Expr::Int(1)),
                        op: Op::Eq,
                    },
                ]),
            }),
            rhs: Box::new(LogicalPlan::Create {
                src: Box::new(LogicalPlan::Argument),
                nodes: vec![NodeSpec {
                    slot: 0,
                    labels: vec![person],
                    props: vec![MapEntryExpr { key: key_id, val: Expr::Int(1) }],
                }],
                rels: vec![],
            }),
            conditions: vec![p.slot(id_a)],
        }
    );
    Ok(())
}

#[test]
fn return_wildcard_projects_named_identifiers_only() -> Result<(), Error> {
    let mut p = plan("MATCH (a)-->(b) RETURN *")?;
    let id_a = p.tokenize("a");
    let id_b = p.tokenize("b");
    assert_eq!(
        p.plan,
        LogicalPlan::ProduceResult {
            src: Box::new(LogicalPlan::Project {
                src: Box::new(LogicalPlan::Expand {
                    src: Box::new(scan(0, None)),
                    src_slot: 0,
                    rel_slot: 1,
                    dst_slot: 2,
                    rel_type: None,
                    dir: Some(Dir::Out),
                }),
                projections: vec![
                    Projection { expr: Expr::Slot(0), alias: id_a, dst: 0 },
                    Projection { expr: Expr::Slot(2), alias: id_b, dst: 1 },
                ],
            }),
            fields: vec![(id_a, 0), (id_b, 1)],
        }
    );
    Ok(())
}

#[test]
fn expand_from_right_endpoint_reverses_direction() -> Result<(), Error> {
    let mut p = plan("MATCH (y) WITH y MATCH (x)-[r]->(y)")?;
    let id_y = p.tokenize("y");
    assert_eq!(
        p.plan,
        LogicalPlan::Expand {
            src: Box::new(LogicalPlan::Project {
                src: Box::new(scan(0, None)),
                projections: vec![Projection { expr: Expr::Slot(0), alias: id_y, dst: 0 }],
            }),
            src_slot: 0,
            rel_slot: 1,
            dst_slot: 2,
            rel_type: None,
            dir: Some(Dir::In),
        }
    );
    let id_x = p.tokenize("x");
    let id_r = p.tokenize("r");
    assert_eq!(p.slot(id_y), 0);
    assert_eq!(p.slot(id_r), 1);
    assert_eq!(p.slot(id_x), 2);
    Ok(())
}

#[test]
fn expand_from_left_endpoint_keeps_direction() -> Result<(), Error> {
    let p = plan("MATCH (x)<-[r]-(y)")?;
    assert_eq!(
        p.plan,
        LogicalPlan::Expand {
            src: Box::new(scan(0, None)),
            src_slot: 0,
            rel_slot: 1,
            dst_slot: 2,
            rel_type: None,
            dir: Some(Dir::In),
        }
    );
    Ok(())
}

#[test]
fn undirected_relationship_has_no_direction() -> Result<(), Error> {
    let p = plan("MATCH (x)-[r]-(y)")?;
    assert_eq!(
        p.plan,
        LogicalPlan::Expand {
            src: Box::new(scan(0, None)),
            src_slot: 0,
            rel_slot: 1,
            dst_slot: 2,
            rel_type: None,
            dir: None,
        }
    );
    Ok(())
}

#[test]
fn optional_match_without_bound_identifiers() -> Result<(), Error> {
    let mut p = plan("OPTIONAL MATCH (a)-[r]->(b)")?;
    let id_a = p.tokenize("a");
    let id_r = p.tokenize("r");
    let id_b = p.tokenize("b");
    assert_eq!(
        p.plan,
        LogicalPlan::Optional {
            src: Box::new(LogicalPlan::Expand {
                src: Box::new(scan(0, None)),
                src_slot: 0,
                rel_slot: 1,
                dst_slot: 2,
                rel_type: None,
                dir: Some(Dir::Out),
            }),
            slots: vec![p.slot(id_a), p.slot(id_r), p.slot(id_b)],
        }
    );
    Ok(())
}

#[test]
fn optional_match_with_bound_identifier() -> Result<(), Error> {
    let p = plan("MATCH (a) OPTIONAL MATCH (a)-->(b)")?;
    assert_eq!(
        p.plan,
        LogicalPlan::ConditionalApply {
            lhs: Box::new(scan(0, None)),
            rhs: Box::new(LogicalPlan::Expand {
                src: Box::new(LogicalPlan::Argument),
                src_slot: 0,
                rel_slot: 1,
                dst_slot: 2,
                rel_type: None,
                dir: Some(Dir::Out),
            }),
            conditions: vec![0],
        }
    );
    Ok(())
}

#[test]
fn aggregation_groups_by_the_other_projections() -> Result<(), Error> {
    let mut p = plan("MATCH (x) RETURN x.k, count(x)")?;
    let key_k = p.tokenize("k");
    let count = p.tokenize("count");
    let alias_k = p.tokenize("x.k");
    let alias_count = p.tokenize("count(x)");
    assert_eq!(
        p.plan,
        LogicalPlan::ProduceResult {
            src: Box::new(LogicalPlan::Aggregate {
                src: Box::new(scan(0, None)),
                grouping: vec![(Expr::Prop(Box::new(Expr::Slot(0)), key_k), 0)],
                aggregations: vec![(
                    Expr::FuncCall { name: count, args: vec![Expr::Slot(0)], aggregating: true },
                    1
                )],
            }),
            fields: vec![(alias_k, 0), (alias_count, 1)],
        }
    );
    Ok(())
}

#[test]
fn aggregation_alone_has_empty_grouping() -> Result<(), Error> {
    let mut p = plan("MATCH (x) RETURN count(x) AS n")?;
    let count = p.tokenize("count");
    let alias_n = p.tokenize("n");
    assert_eq!(
        p.plan,
        LogicalPlan::ProduceResult {
            src: Box::new(LogicalPlan::Aggregate {
                src: Box::new(scan(0, None)),
                grouping: vec![],
                aggregations: vec![(
                    Expr::FuncCall { name: count, args: vec![Expr::Slot(0)], aggregating: true },
                    0
                )],
            }),
            fields: vec![(alias_n, 0)],
        }
    );
    Ok(())
}

#[test]
fn plan_create_nodes_and_relationship() -> Result<(), Error> {
    let mut p = plan("CREATE (a:Person {name: 'ann'})-[r:KNOWS]->(b)")?;
    let person = p.tokenize("Person");
    let name = p.tokenize("name");
    let knows = p.tokenize("KNOWS");
    assert_eq!(
        p.plan,
        LogicalPlan::Create {
            src: Box::new(LogicalPlan::Argument),
            nodes: vec![
                NodeSpec {
                    slot: 0,
                    labels: vec![person],
                    props: vec![MapEntryExpr { key: name, val: Expr::String("ann".to_string()) }],
                },
                NodeSpec { slot: 1, labels: vec![], props: vec![] },
            ],
            rels: vec![RelSpec {
                slot: 2,
                rel_type: knows,
                start_node_slot: 0,
                end_node_slot: 1,
                props: vec![],
            }],
        }
    );
    Ok(())
}

#[test]
fn plan_create_inbound_relationship_swaps_ends() -> Result<(), Error> {
    let mut p = plan("CREATE (a)<-[:KNOWS]-(b)")?;
    let knows = p.tokenize("KNOWS");
    assert_eq!(
        p.plan,
        LogicalPlan::Create {
            src: Box::new(LogicalPlan::Argument),
            nodes: vec![
                NodeSpec { slot: 0, labels: vec![], props: vec![] },
                NodeSpec { slot: 1, labels: vec![], props: vec![] },
            ],
            rels: vec![RelSpec {
                slot: 2,
                rel_type: knows,
                start_node_slot: 1,
                end_node_slot: 0,
                props: vec![],
            }],
        }
    );
    Ok(())
}

#[test]
fn plan_create_reuses_declared_node() -> Result<(), Error> {
    let mut p = plan("MATCH (a) CREATE (a)-[:KNOWS]->(b)")?;
    let knows = p.tokenize("KNOWS");
    assert_eq!(
        p.plan,
        LogicalPlan::Create {
            src: Box::new(scan(0, None)),
            nodes: vec![NodeSpec { slot: 1, labels: vec![], props: vec![] }],
            rels: vec![RelSpec {
                slot: 2,
                rel_type: knows,
                start_node_slot: 0,
                end_node_slot: 1,
                props: vec![],
            }],
        }
    );
    Ok(())
}

#[test]
fn plan_with_order_skip_limit_where() -> Result<(), Error> {
    let mut p = plan("MATCH (a) WITH a AS b ORDER BY b.age SKIP 1 LIMIT 2 WHERE b.age > 3")?;
    let id_b = p.tokenize("b");
    let age = p.tokenize("age");
    let b_age = || Expr::Prop(Box::new(Expr::Slot(0)), age);
    assert_eq!(
        p.plan,
        LogicalPlan::Selection {
            src: Box::new(LogicalPlan::Limit {
                src: Box::new(LogicalPlan::Sort {
                    src: Box::new(LogicalPlan::Project {
                        src: Box::new(scan(0, None)),
                        projections: vec![Projection { expr: Expr::Slot(0), alias: id_b, dst: 0 }],
                    }),
                    sort_by: vec![b_age()],
                }),
                skip: Some(Expr::Int(1)),
                limit: Some(Expr::Int(2)),
            }),
            predicate: Expr::BinaryOp {
                left: Box::new(b_age()),
                right: Box::new(Expr::Int(3)),
                op: Op::Gt,
            },
        }
    );
    assert_eq!(p.scopes.len(), 2);
    Ok(())
}

#[test]
fn plan_match_where_comes_last() -> Result<(), Error> {
    let mut p = plan("MATCH (a:A {k: 1})-[r {w: 2}]->(b) WHERE a.x = b.x OR NOT a.y")?;
    let label_a = p.tokenize("A");
    let k = p.tokenize("k");
    let w = p.tokenize("w");
    let x = p.tokenize("x");
    let y = p.tokenize("y");
    let (a, r, b) = (0, 2, 1);
    assert_eq!(
        p.plan,
        LogicalPlan::Selection {
            src: Box::new(LogicalPlan::Selection {
                src: Box::new(LogicalPlan::Selection {
                    src: Box::new(LogicalPlan::Expand {
                        src: Box::new(scan(a, Some(label_a))),
                        src_slot: a,
                        rel_slot: r,
                        dst_slot: b,
                        rel_type: None,
                        dir: Some(Dir::Out),
                    }),
                    predicate: Expr::And(vec![
                        Expr::HasLabel(a, label_a),
                        Expr::BinaryOp {
                            left: Box::new(Expr::Prop(Box::new(Expr::Slot(a)), k)),
                            right: Box::new(Expr::Int(1)),
                            op: Op::Eq,
                        },
                    ]),
                }),
                predicate: Expr::BinaryOp {
                    left: Box::new(Expr::Prop(Box::new(Expr::Slot(r)), w)),
                    right: Box::new(Expr::Int(2)),
                    op: Op::Eq,
                },
            }),
            predicate: Expr::Or(vec![
                Expr::BinaryOp {
                    left: Box::new(Expr::Prop(Box::new(Expr::Slot(a)), x)),
                    right: Box::new(Expr::Prop(Box::new(Expr::Slot(b)), x)),
                    op: Op::Eq,
                },
                Expr::Not(Box::new(Expr::Prop(Box::new(Expr::Slot(a)), y))),
            ]),
        }
    );
    Ok(())
}

#[test]
fn plan_call_known_procedure() -> Result<(), Error> {
    let mut p = plan("CALL count(1, 'x')")?;
    let count = p.tokenize("count");
    assert_eq!(
        p.plan,
        LogicalPlan::Call {
            src: Box::new(LogicalPlan::Argument),
            name: count,
            args: vec![Expr::Int(1), Expr::String("x".to_string())],
        }
    );
    Ok(())
}

#[test]
fn plan_expression_precedence() -> Result<(), Error> {
    let p = plan("RETURN 1 + 2 * 3 - -4 AS v")?;
    let expected = Expr::BinaryOp {
        left: Box::new(Expr::BinaryOp {
            left: Box::new(Expr::Int(1)),
            right: Box::new(Expr::BinaryOp {
                left: Box::new(Expr::Int(2)),
                right: Box::new(Expr::Int(3)),
                op: Op::Mul,
            }),
            op: Op::Add,
        }),
        right: Box::new(Expr::Negate(Box::new(Expr::Int(4)))),
        op: Op::Sub,
    };
    match p.plan {
        LogicalPlan::ProduceResult { src, .. } => match *src {
            LogicalPlan::Project { projections, .. } => {
                assert_eq!(projections.len(), 1);
                assert_eq!(projections[0].expr, expected);
            }
            other => panic!("{:?}", other),
        },
        other => panic!("{:?}", other),
    }
    Ok(())
}

#[test]
fn plan_literals() -> Result<(), Error> {
    let p = plan("RETURN [true, FALSE, null, \"s\", 9223372036854775807, 0.5, {}] AS v")?;
    match p.plan {
        LogicalPlan::ProduceResult { src, .. } => match *src {
            LogicalPlan::Project { projections, .. } => {
                assert_eq!(
                    projections[0].expr,
                    Expr::List(vec![
                        Expr::Bool(true),
                        Expr::Bool(false),
                        Expr::Null,
                        Expr::String("s".to_string()),
                        Expr::Int(i64::MAX),
                        Expr::Float("0.5".to_string()),
                        Expr::MapLit(vec![]),
                    ])
                );
            }
            other => panic!("{:?}", other),
        },
        other => panic!("{:?}", other),
    }
    Ok(())
}

#[test]
fn error_syntax() {
    assert_eq!(kind_of("MATCH (a"), ErrorKind::Syntax);
    assert_eq!(kind_of(""), ErrorKind::Syntax);
    assert_eq!(kind_of("MATCH (a) RETURN"), ErrorKind::Syntax);
    assert_eq!(kind_of("RETURN 'open"), ErrorKind::Syntax);
    assert_eq!(kind_of("RETURN a ? b"), ErrorKind::Syntax);
    assert_eq!(kind_of("FROBNICATE (a)"), ErrorKind::Syntax);
}

#[test]
fn error_directed_both_ways() {
    assert_eq!(kind_of("MATCH (a)<-[r]->(b)"), ErrorKind::DirectedBothWays);
}

#[test]
fn error_undirected_create() {
    assert_eq!(kind_of("CREATE (a)-[:KNOWS]-(b)"), ErrorKind::UndirectedCreate);
    assert_eq!(kind_of("MERGE (a)-[:KNOWS]-(b)"), ErrorKind::UndirectedCreate);
}

#[test]
fn error_untyped_create() {
    assert_eq!(kind_of("CREATE (a)-[r]->(b)"), ErrorKind::UntypedCreate);
}

#[test]
fn error_unknown_function() {
    assert_eq!(kind_of("RETURN frob(1)"), ErrorKind::UnknownFunction);
}

#[test]
fn error_unknown_procedure() {
    assert_eq!(kind_of("CALL db.frob()"), ErrorKind::UnknownProcedure);
}

#[test]
fn error_integer_out_of_range() {
    assert_eq!(kind_of("RETURN 9223372036854775808"), ErrorKind::IntegerOutOfRange);
}

#[test]
fn failed_projection_keeps_the_scope() {
    let mut tokens = Tokens::new();
    tokens.tokenize("a");
    let backend_desc = BackendDesc::new(vec![]);
    let frontend = Frontend { tokens: Tokens::new(), backend_desc: BackendDesc::new(vec![]) };
    let mut pc = PlanningContext::new(tokens, &backend_desc);
    assert!(frontend.plan_in_context("MATCH (a)", &mut pc).is_ok());
    assert!(frontend.plan_in_context("WITH frob(a) AS b", &mut pc).is_err());
    assert!(pc.is_declared(0));
    assert_eq!(pc.scope_history.len(), 0);
}

#[test]
fn frontend_plan_keeps_tokens() -> Result<(), Error> {
    let mut frontend = Frontend { tokens: Tokens::new(), backend_desc: BackendDesc::new(vec![]) };
    let first = frontend.plan("MATCH (a:Person)")?;
    let person = frontend.tokens.tokenize("Person");
    let labelled = |slot: usize| LogicalPlan::Selection {
        src: Box::new(scan(slot, Some(person))),
        predicate: Expr::HasLabel(slot, person),
    };
    assert_eq!(first, labelled(0));
    assert_eq!(frontend.tokens.lookup(0), Some("a"));
    assert_eq!(frontend.tokens.lookup(person), Some("Person"));
    let second = frontend.plan("MATCH (b:Person)")?;
    assert_eq!(second, labelled(0));
    assert_eq!(frontend.tokens.len(), 3);
    Ok(())
}

#[test]
fn parsed_queries_are_never_malformed_trees() {
    let queries = [
        "MATCH (a) RETURN a",
        "MATCH (a)<-[r]->(b)",
        "CREATE (a)-[:T]-(b)",
        "CREATE (a)-[r]->(b)",
        "MERGE (a {k: [1, {j: 2}]})-[:T {w: -1}]->()",
        "RETURN frob(1)",
        "RETURN count(count(1)) AS n ORDER BY n, 1 SKIP 2 LIMIT 3",
        "WITH * WHERE 1 < 2 AND NOT 3 >= 4 OR 5 <> 6 RETURN *",
        "CALL a.b.c()",
        "CALL count()",
        "UNWIND [] AS x SET x.k = 1, x += {k: x}, x = x",
        "MATCH (:A)-->(:B)<--() WHERE true",
        "OPTIONAL MATCH (a), (b)-[]-(c) WITH a, b AS c MATCH (c)-->(a) RETURN c.d.e",
        "RETURN 18446744073709551616",
        "RETURN (((1)))",
        "MATCH (a",
        "nonsense",
    ];
    for q in queries {
        if let Err(e) = plan(q) {
            assert_ne!(e.kind, ErrorKind::UnexpectedRule, "{}", q);
        }
    }
}

#[test]
fn planning_keeps_tokens_and_retired_scopes() {
    let mut tokens = Tokens::new();
    tokens.tokenize("zero");
    tokens.tokenize("one");
    let backend_desc = BackendDesc::new(vec![]);
    let frontend = Frontend { tokens: Tokens::new(), backend_desc: BackendDesc::new(vec![]) };
    let mut pc = PlanningContext::new(tokens, &backend_desc);
    let mut seen = 2;
    let mut retired = 0;
    for q in ["MATCH (a)-->(b)", "WITH a, b AS one", "RETURN frob(a)", "RETURN one", "MATCH ("] {
        let _ = frontend.plan_in_context(q, &mut pc);
        assert!(pc.tokens.len() >= seen);
        assert!(pc.scope_history.len() >= retired);
        assert_eq!(pc.tokens.lookup(0), Some("zero"));
        assert_eq!(pc.tokens.lookup(1), Some("one"));
        assert!(pc.has_scope());
        seen = pc.tokens.len();
        retired = pc.scope_history.len();
    }
    assert_eq!(retired, 2);
}

#[test]
fn a_pattern_names_what_it_introduces() -> Result<(), Error> {
    let p = plan("MATCH (a)-[r]->()-->(b), (a)-->(c)")?;
    let named: Vec<&str> =
        p.scopes[0].named().iter().map(|t| p.tokens.lookup(*t).unwrap()).collect();
    assert_eq!(named, vec!["a", "r", "b", "c"]);
    Ok(())
}
