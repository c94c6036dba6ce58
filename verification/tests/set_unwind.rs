use gqlite::backend::{BackendDesc, FuncSignature, FuncType, Token, Tokens};
use gqlite::frontend::{
    Expr, Frontend, LogicalPlan, MapEntryExpr, PlanningContext, Scope, SetAction,
};
use gqlite::{Error, Type};

// Outcome of test planning: the plan plus what the checks need beside it.
struct PlanArtifacts {
    plan: LogicalPlan,
    scopes: Vec<Scope>,
    tokens: Tokens,
}

impl PlanArtifacts {
    fn slot(&self, k: Token) -> usize {
        for scope in &self.scopes {
            if let Some(s) = scope.slot(k) {
                return s;
            }
        }
        panic!("No slot for token: {:?}", self.tokens.lookup(k))
    }

    fn tokenize(&mut self, content: &str) -> Token {
        self.tokens.tokenize(content)
    }
}

fn plan(q: &str) -> Result<PlanArtifacts, Error> {
    let mut tokens = Tokens::new();
    let tok_expr = tokens.tokenize("expr");
    let fn_count = tokens.tokenize("count");
    let backend_desc = BackendDesc::new(vec![FuncSignature {
        func_type: FuncType::Aggregating,
        name: fn_count,
        returns: Type::Integer,
        args: vec![(tok_expr, Type::Any)],
    }]);
    let frontend = Frontend { tokens: Tokens::new(), backend_desc: BackendDesc::new(vec![]) };
    let mut pc = PlanningContext::new(tokens, &backend_desc);
    let plan = frontend.plan_in_context(q, &mut pc);

    let last_scope = pc.scope().clone();
    let mut scopes: Vec<Scope> = pc.scope_history.iter().map(|s| s.clone()).collect();
    scopes.push(last_scope);
    scopes.reverse();
    match plan {
        Ok(plan) => Ok(PlanArtifacts { plan, scopes, tokens: pc.tokens }),
        Err(e) => {
            println!("{}", e.message());
            Err(e)
        }
    }
}

#[test]
fn plan_set_single_property() -> Result<(), Error> {
    let mut p = plan("MATCH (a) SET a.name = 'bob'")?;

    let id_a = p.tokenize("a");
    let key_name = p.tokenize("name");

    assert_eq!(
        p.plan,
        LogicalPlan::SetProperties {
            src: Box::new(LogicalPlan::NodeScan {
                src: Box::new(LogicalPlan::Argument),
                slot: p.slot(id_a),
                labels: None
            }),
            updates: vec![SetAction::SingleAssign {
                entity: p.slot(id_a),
                key: key_name,
                value: Expr::String("bob".to_string())
            }]
        }
    );
    Ok(())
}

#[test]
fn plan_set_overwrite_entity() -> Result<(), Error> {
    let mut p = plan("MATCH (a), (b) SET a = b")?;
    let id_a = p.tokenize("a");
    let id_b = p.tokenize("b");
    let _key_name = p.tokenize("name");

    assert_eq!(
        p.plan,
        LogicalPlan::SetProperties {
            src: Box::new(LogicalPlan::NestLoop {
                outer: Box::new(LogicalPlan::NodeScan {
                    src: Box::new(LogicalPlan::Argument),
                    slot: p.slot(id_a),
                    labels: None
                }),
                inner: Box::new(LogicalPlan::NodeScan {
                    src: Box::new(LogicalPlan::Argument),
                    slot: p.slot(id_b),
                    labels: None
                }),
                predicate: Expr::Bool(true),
            }),
            updates: vec![SetAction::Overwrite {
                entity: p.slot(id_a),
                value: Expr::Slot(p.slot(id_b)),
            }]
        }
    );
    Ok(())
}

#[test]
fn plan_set_append_map() -> Result<(), Error> {
    let mut p = plan("MATCH (a) SET a += {name: 'baz'}")?;
    let id_a = p.tokenize("a");
    let key_name = p.tokenize("name");

    assert_eq!(
        p.plan,
        LogicalPlan::SetProperties {
            src: Box::new(LogicalPlan::NodeScan {
                src: Box::new(LogicalPlan::Argument),
                slot: p.slot(id_a),
                labels: None
            }),
            updates: vec![SetAction::Append {
                entity: p.slot(id_a),
                value: Expr::MapLit(vec![MapEntryExpr {
                    key: key_name,
                    val: Expr::String("baz".to_string())
                },]),
            }]
        }
    );
    Ok(())
}

#[test]
fn plan_unwind() -> Result<(), Error> {
    let mut p = plan("UNWIND [[1], [2, 1.0]] AS x")?;

    let id_x = p.tokenize("x");
    assert_eq!(
        p.plan,
        LogicalPlan::Unwind {
            src: Box::new(LogicalPlan::Argument),
            list_expr: Expr::List(vec![
                Expr::List(vec![Expr::Int(1)]),
                Expr::List(vec![Expr::Int(2), Expr::Float(format!("{:?}", 1.0))]),
            ]),
            alias: p.slot(id_x),
        }
    );
    Ok(())
}
