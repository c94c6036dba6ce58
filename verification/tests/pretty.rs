use gqlite::backend::Tokens;
use gqlite::frontend::pretty::{join, name_of, slot_string};
use gqlite::frontend::{
    Dir, Expr, LogicalPlan, MapEntryExpr, NodeSpec, Op, Projection, RelSpec, SetAction,
};
use gqlite::text::{chars_of, decimal_string, signed_decimal_string, string_of};
use gqlite::value::{Row, Val};
use gqlite::{Error, ErrorKind};

fn tokens() -> Tokens {
    let mut t = Tokens::new();
    for name in ["a", "b", "Person", "KNOWS", "name", "count"] {
        t.tokenize(name);
    }
    t
}

fn scan_a() -> LogicalPlan {
    LogicalPlan::NodeScan { src: Box::new(LogicalPlan::Argument), slot: 0, labels: Some(2) }
}

#[test]
fn decimal_numerals() {
    assert_eq!(decimal_string(0), "0");
    assert_eq!(decimal_string(7), "7");
    assert_eq!(decimal_string(10), "10");
    assert_eq!(decimal_string(1234567890), "1234567890");
    assert_eq!(decimal_string(u64::MAX), "18446744073709551615");
    assert_eq!(signed_decimal_string(0), "0");
    assert_eq!(signed_decimal_string(-1), "-1");
    assert_eq!(signed_decimal_string(i64::MAX), "9223372036854775807");
    assert_eq!(signed_decimal_string(i64::MIN), "-9223372036854775808");
}

#[test]
fn text_helpers() {
    let chars = chars_of("h\u{e9}llo");
    assert_eq!(chars, vec!['h', '\u{e9}', 'l', 'l', 'o']);
    assert_eq!(string_of(&chars, 1, 3), "\u{e9}l");
    assert_eq!(string_of(&chars, 2, 2), "");
    assert_eq!(string_of(&chars, 0, 5), "h\u{e9}llo");
    assert_eq!(join(&vec![], ", "), "");
    assert_eq!(join(&vec!["x".to_string()], ", "), "x");
    assert_eq!(join(&vec!["x".to_string(), "".to_string(), "y".to_string()], "; "), "x; ; y");
}

#[test]
fn names_and_slots() {
    let t = tokens();
    assert_eq!(name_of(&t, 2), "Person");
    assert_eq!(name_of(&t, 99), "?");
    assert_eq!(slot_string(12), "Slot(12)");
}

#[test]
fn values_as_text() {
    assert_eq!(Val::Null.to_text(), "NULL");
    assert_eq!(Val::String("x y".to_string()).to_text(), "x y");
    assert_eq!(Val::Node(17).to_text(), "Node(17)");
    assert_eq!(Val::Rel { node: 3, rel_index: 40 }.to_text(), "Rel(3/40)");
    assert_eq!(Val::Node(9).as_node_id(), 9);
    let row = Row { slots: vec![Val::Null, Val::Node(1)] };
    assert_eq!(row.slots.len(), 2);
}

#[test]
fn error_messages() {
    assert_eq!(Error::new(ErrorKind::Syntax).message(), "syntax error in query");
    assert_eq!(
        Error::new(ErrorKind::UndirectedCreate).message(),
        "relationships to create must have a direction"
    );
    assert_eq!(
        Error::new(ErrorKind::UntypedCreate).message(),
        "relationships to create must have a type"
    );
    assert_eq!(Error::new(ErrorKind::UnknownFunction).message(), "unknown function");
    assert_eq!(Error::new(ErrorKind::UnknownProcedure).message(), "unknown procedure");
    assert_eq!(
        Error::new(ErrorKind::IntegerOutOfRange).message(),
        "integer literal out of range"
    );
    assert_eq!(Error::new(ErrorKind::UnexpectedRule).message(), "malformed parse tree");
    assert_eq!(Error::new(ErrorKind::Syntax), Error { kind: ErrorKind::Syntax });
}

#[test]
fn expressions_as_text() {
    let t = tokens();
    let slot = |n: usize| Expr::Slot(n);
    assert_eq!(Expr::Int(-5).fmt_pretty(&t), "-5");
    assert_eq!(Expr::Float("1.50".to_string()).fmt_pretty(&t), "1.50");
    assert_eq!(Expr::String("bob".to_string()).fmt_pretty(&t), "\"bob\"");
    assert_eq!(Expr::Bool(true).fmt_pretty(&t), "true");
    assert_eq!(Expr::Bool(false).fmt_pretty(&t), "false");
    assert_eq!(Expr::Null.fmt_pretty(&t), "NULL");
    assert_eq!(Expr::List(vec![]).fmt_pretty(&t), "[]");
    assert_eq!(Expr::List(vec![Expr::Int(1), slot(2)]).fmt_pretty(&t), "[1, Slot(2)]");
    assert_eq!(
        Expr::MapLit(vec![
            MapEntryExpr { key: 4, val: Expr::Int(1) },
            MapEntryExpr { key: 0, val: Expr::Null },
        ])
        .fmt_pretty(&t),
        "{name: 1, a: NULL}"
    );
    assert_eq!(Expr::Prop(Box::new(slot(0)), 4).fmt_pretty(&t), "Slot(0).name");
    assert_eq!(Expr::HasLabel(1, 2).fmt_pretty(&t), "Slot(1):Person");
    assert_eq!(
        Expr::FuncCall { name: 5, args: vec![slot(0), Expr::Int(2)], aggregating: true }
            .fmt_pretty(&t),
        "count(Slot(0), 2)"
    );
    assert_eq!(
        Expr::BinaryOp { left: Box::new(slot(0)), right: Box::new(Expr::Int(1)), op: Op::GtEq }
            .fmt_pretty(&t),
        "(Slot(0) >= 1)"
    );
    assert_eq!(
        Expr::And(vec![Expr::Bool(true), Expr::Not(Box::new(slot(1)))]).fmt_pretty(&t),
        "(true AND NOT Slot(1))"
    );
    assert_eq!(
        Expr::Or(vec![Expr::Negate(Box::new(slot(1))), Expr::Null]).fmt_pretty(&t),
        "(-Slot(1) OR NULL)"
    );
    let ops = [
        (Op::Eq, "="),
        (Op::NotEq, "<>"),
        (Op::Lt, "<"),
        (Op::Gt, ">"),
        (Op::LtEq, "<="),
        (Op::GtEq, ">="),
        (Op::Add, "+"),
        (Op::Sub, "-"),
        (Op::Mul, "*"),
        (Op::Div, "/"),
        (Op::Mod, "%"),
    ];
    for (op, text) in ops {
        let e = Expr::BinaryOp { left: Box::new(Expr::Int(1)), right: Box::new(Expr::Int(2)), op };
        assert_eq!(e.fmt_pretty(&t), format!("(1 {} 2)", text));
    }
}

#[test]
fn expression_copy_is_equal() {
    let e = Expr::And(vec![
        Expr::List(vec![Expr::Int(1), Expr::Float("2.0".to_string())]),
        Expr::MapLit(vec![MapEntryExpr { key: 1, val: Expr::String("s".to_string()) }]),
        Expr::FuncCall {
            name: 3,
            args: vec![Expr::Prop(Box::new(Expr::Slot(0)), 2)],
            aggregating: false,
        },
        Expr::Or(vec![Expr::Not(Box::new(Expr::Null)), Expr::HasLabel(1, 2)]),
        Expr::BinaryOp {
            left: Box::new(Expr::Negate(Box::new(Expr::Bool(true)))),
            right: Box::new(Expr::Int(4)),
            op: Op::Mod,
        },
    ]);
    assert_eq!(e.duplicate(), e);
}

#[test]
fn plan_leaves_and_scans_as_text() {
    let t = tokens();
    assert_eq!(LogicalPlan::Argument.fmt_pretty("", &t), "Argument()");
    assert_eq!(
        scan_a().fmt_pretty("", &t),
        "NodeScan(\nsrc=Argument()\nslot=Slot(0)\nlabels=[Person])"
    );
    let unlabelled =
        LogicalPlan::NodeScan { src: Box::new(LogicalPlan::Argument), slot: 3, labels: None };
    assert_eq!(
        unlabelled.fmt_pretty("  ", &t),
        "NodeScan(\n  src=Argument()\n  slot=Slot(3)\n  labels=[])"
    );
}

#[test]
fn plan_expand_as_text() {
    let t = tokens();
    let expand = LogicalPlan::Expand {
        src: Box::new(scan_a()),
        src_slot: 0,
        rel_slot: 1,
        dst_slot: 2,
        rel_type: Some(3),
        dir: Some(Dir::Out),
    };
    assert_eq!(
        expand.fmt_pretty("", &t),
        "Expand(\nsrc=NodeScan(\n  src=Argument()\n  slot=Slot(0)\n  labels=[Person])\nsrc_slot=Slot(0)\nrel_slot=Slot(1)\ndst_slot=Slot(2),\nrel_type=KNOWS,\ndir=Some(Out))"
    );
    let any = LogicalPlan::Expand {
        src: Box::new(LogicalPlan::Argument),
        src_slot: 0,
        rel_slot: 1,
        dst_slot: 2,
        rel_type: None,
        dir: None,
    };
    assert_eq!(
        any.fmt_pretty("", &t),
        "Expand(\nsrc=Argument()\nsrc_slot=Slot(0)\nrel_slot=Slot(1)\ndst_slot=Slot(2),\nrel_type=<any>,\ndir=None)"
    );
    let inbound = LogicalPlan::Expand {
        src: Box::new(LogicalPlan::Argument),
        src_slot: 0,
        rel_slot: 1,
        dst_slot: 2,
        rel_type: None,
        dir: Some(Dir::In),
    };
    assert!(inbound.fmt_pretty("", &t).ends_with("dir=Some(In))"));
}

#[test]
fn plan_projection_as_text() {
    let t = tokens();
    let projection = Projection { expr: Expr::Slot(0), alias: 1, dst: 4 };
    assert_eq!(projection.fmt_pretty(&t), "Project(Slot(0) => Slot(4) as `b`");
    let project = LogicalPlan::ProduceResult {
        src: Box::new(LogicalPlan::Project {
            src: Box::new(LogicalPlan::Argument),
            projections: vec![
                Projection { expr: Expr::Slot(0), alias: 0, dst: 0 },
                Projection { expr: Expr::Int(1), alias: 1, dst: 1 },
            ],
        }),
        fields: vec![(0, 0), (1, 1)],
    };
    assert_eq!(
        project.fmt_pretty("", &t),
        "ProduceResult(\n  src=Project(\n      src=Argument(),\n      projections=[Project(Slot(0) => Slot(0) as `a`, Project(1 => Slot(1) as `b`]),\n  fields=[a, b])"
    );
}

#[test]
fn plan_operators_as_text() {
    let t = tokens();
    let arg = || Box::new(LogicalPlan::Argument);
    assert_eq!(
        LogicalPlan::Selection { src: arg(), predicate: Expr::Bool(true) }.fmt_pretty("", &t),
        "Selection(\n  src=Argument()\n  predicate=true)"
    );
    assert_eq!(
        LogicalPlan::Limit { src: arg(), skip: None, limit: Some(Expr::Int(3)) }
            .fmt_pretty("", &t),
        "Limit(\n  src=Argument()\n  skip=None,\n  limit=Some(3))"
    );
    assert_eq!(
        LogicalPlan::Sort { src: arg(), sort_by: vec![Expr::Slot(0), Expr::Slot(1)] }
            .fmt_pretty("", &t),
        "Sort(\n  src=Argument()\n  by=[Slot(0), Slot(1)])"
    );
    assert_eq!(
        LogicalPlan::Aggregate {
            src: arg(),
            grouping: vec![(Expr::Slot(0), 0)],
            aggregations: vec![(
                Expr::FuncCall { name: 5, args: vec![Expr::Slot(0)], aggregating: true },
                1
            )],
        }
        .fmt_pretty("", &t),
        "Aggregate(\nsrc=Argument()\ngrouping=[Slot(0) => Slot(0)]\naggregations=[count(Slot(0)) => Slot(1)])"
    );
    assert_eq!(
        LogicalPlan::ConditionalApply { lhs: arg(), rhs: arg(), conditions: vec![1, 2] }
            .fmt_pretty("", &t),
        "ConditionalApply(\nlhs=Argument()\nrhs=Argument()\nconditions=[Slot(1), Slot(2)])"
    );
    assert_eq!(
        LogicalPlan::AntiConditionalApply { lhs: arg(), rhs: arg(), conditions: vec![] }
            .fmt_pretty("", &t),
        "AntiConditionalApply(\nlhs=Argument()\nrhs=Argument()\nconditions=[])"
    );
    assert_eq!(
        LogicalPlan::Optional { src: arg(), slots: vec![0] }.fmt_pretty("", &t),
        "Optional(\nsrc=Argument()\nslots=[Slot(0)])"
    );
    assert_eq!(
        LogicalPlan::NestLoop { outer: arg(), inner: arg(), predicate: Expr::Bool(true) }
            .fmt_pretty("", &t),
        "NestLoop(\nouter=Argument()\ninner=Argument()\npredicate=true)"
    );
    assert_eq!(
        LogicalPlan::Unwind { src: arg(), list_expr: Expr::List(vec![]), alias: 2 }
            .fmt_pretty("", &t),
        "Unwind(\nsrc=Argument()\nlist=[]\nalias=Slot(2))"
    );
    assert_eq!(
        LogicalPlan::Call { src: arg(), name: 5, args: vec![Expr::Int(1)] }.fmt_pretty("", &t),
        "Call(\nsrc=Argument()\nname=count\nargs=[1])"
    );
}

#[test]
fn plan_writes_as_text() {
    let t = tokens();
    let arg = || Box::new(LogicalPlan::Argument);
    assert_eq!(
        LogicalPlan::SetProperties {
            src: arg(),
            updates: vec![
                SetAction::SingleAssign { entity: 0, key: 4, value: Expr::Int(1) },
                SetAction::Append { entity: 1, value: Expr::MapLit(vec![]) },
                SetAction::Overwrite { entity: 2, value: Expr::Slot(0) },
            ],
        }
        .fmt_pretty("", &t),
        "SetProperties(\nsrc=Argument()\nupdates=[Slot(0).name = 1, Slot(1) += {}, Slot(2) = Slot(0)])"
    );
    assert_eq!(
        LogicalPlan::Create {
            src: arg(),
            nodes: vec![
                NodeSpec {
                    slot: 0,
                    labels: vec![2],
                    props: vec![MapEntryExpr { key: 4, val: Expr::String("x".to_string()) }],
                },
                NodeSpec { slot: 1, labels: vec![], props: vec![] },
            ],
            rels: vec![RelSpec {
                slot: 2,
                rel_type: 3,
                start_node_slot: 0,
                end_node_slot: 1,
                props: vec![],
            }],
        }
        .fmt_pretty("", &t),
        "Create(\n  src=Argument(),\n  nodes=[NodeSpec(Slot(0), [Person], {name: \"x\"}), NodeSpec(Slot(1), [], {})],\n  rels=[RelSpec(Slot(2), KNOWS, Slot(0) -> Slot(1), {})])"
    );
}
