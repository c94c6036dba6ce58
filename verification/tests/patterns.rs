use gqlite::backend::{BackendDesc, Tokens};
use gqlite::frontend::pattern::{PatternGraph, PatternNode, PatternRel};
use gqlite::frontend::pattern_builder::parse_pattern_graph;
use gqlite::frontend::{CypherParser, Dir, Expr, MapEntryExpr, PlanningContext};
use gqlite::{Error, ErrorKind};

fn graph_of(pc: &mut PlanningContext, q: &str) -> Result<PatternGraph, Error> {
    let query = CypherParser::parse(q)?;
    parse_pattern_graph(pc, &query.children[0])
}

#[test]
fn labels_come_in_canonical_form() -> Result<(), Error> {
    let bd = BackendDesc::new(vec![]);
    let mut pc = PlanningContext::new(Tokens::new(), &bd);
    let first = graph_of(&mut pc, "MATCH (a:A:B:A)")?;
    let second = graph_of(&mut pc, "MATCH (b:B:A)")?;
    let label_a = pc.tokenize("A");
    let label_b = pc.tokenize("B");
    assert!(label_a < label_b);
    assert_eq!(first.v[0].labels, vec![label_a, label_b]);
    assert_eq!(first.v[0].labels, second.v[0].labels);
    Ok(())
}

#[test]
fn pattern_graph_of_a_path() -> Result<(), Error> {
    let bd = BackendDesc::new(vec![]);
    let mut pc = PlanningContext::new(Tokens::new(), &bd);
    let pg = graph_of(&mut pc, "MATCH (a:P {k: 1})-[r:T]->()<--(c), (a)")?;
    let a = pc.tokenize("a");
    let p = pc.tokenize("P");
    let k = pc.tokenize("k");
    let r = pc.tokenize("r");
    let t = pc.tokenize("T");
    let c = pc.tokenize("c");
    let anon_node = pc.tokenize("AnonNode#0");
    let anon_rel = pc.tokenize("AnonRel#0");
    assert_eq!(
        pg.v,
        vec![
            PatternNode {
                identifier: a,
                labels: vec![p],
                props: vec![MapEntryExpr { key: k, val: Expr::Int(1) }],
                anonymous: false,
                bound: false,
                solved: false,
            },
            PatternNode {
                identifier: anon_node,
                labels: vec![],
                props: vec![],
                anonymous: true,
                bound: false,
                solved: false,
            },
            PatternNode {
                identifier: c,
                labels: vec![],
                props: vec![],
                anonymous: false,
                bound: false,
                solved: false,
            },
        ]
    );
    assert_eq!(
        pg.e,
        vec![
            PatternRel {
                identifier: r,
                rel_type: Some(t),
                left_node: a,
                right_node: Some(anon_node),
                dir: Some(Dir::Out),
                props: vec![],
                anonymous: false,
                bound: false,
                solved: false,
            },
            PatternRel {
                identifier: anon_rel,
                rel_type: None,
                left_node: anon_node,
                right_node: Some(c),
                dir: Some(Dir::In),
                props: vec![],
                anonymous: true,
                bound: false,
                solved: false,
            },
        ]
    );
    assert_eq!(pg.unbound_identifiers, vec![a, r, c]);
    assert!(!pg.optional);
    assert_eq!(pg.predicate, None);
    assert!(pc.is_declared(a));
    assert!(pc.is_declared(r));
    assert!(pc.is_declared(c));
    assert!(!pc.is_declared(anon_node));
    assert!(!pc.is_declared(anon_rel));
    Ok(())
}

#[test]
fn declared_identifiers_are_bound_and_solved() -> Result<(), Error> {
    let bd = BackendDesc::new(vec![]);
    let mut pc = PlanningContext::new(Tokens::new(), &bd);
    let a = pc.declare("a");
    let pg = graph_of(&mut pc, "OPTIONAL MATCH (a)-->(b) WHERE b.x")?;
    let b = pc.tokenize("b");
    let x = pc.tokenize("x");
    assert!(pg.optional);
    assert_eq!(pg.v[0].identifier, a);
    assert!(pg.v[0].bound && pg.v[0].solved);
    assert!(!pg.v[1].bound && !pg.v[1].solved);
    assert_eq!(pg.unbound_identifiers, vec![b]);
    assert_eq!(pg.predicate, Some(Expr::Prop(Box::new(Expr::Slot(0)), x)));
    Ok(())
}

#[test]
fn merge_node_keeps_the_first_mention() {
    let mut pg = PatternGraph::new();
    let node = |identifier: usize, labels: Vec<usize>| PatternNode {
        identifier,
        labels,
        props: vec![],
        anonymous: false,
        bound: false,
        solved: false,
    };
    pg.merge_node(node(3, vec![1]));
    pg.merge_node(node(5, vec![]));
    pg.merge_node(node(3, vec![2]));
    assert_eq!(pg.v, vec![node(3, vec![1]), node(5, vec![])]);
    let mut first = node(3, vec![1]);
    first.merge(&node(3, vec![2]));
    assert_eq!(first, node(3, vec![1]));
    pg.merge_rel(PatternRel {
        identifier: 7,
        rel_type: None,
        left_node: 3,
        right_node: Some(5),
        dir: None,
        props: vec![],
        anonymous: false,
        bound: false,
        solved: false,
    });
    assert_eq!(pg.e.len(), 1);
    assert_eq!(pg.e[0].identifier, 7);
}

#[test]
fn both_arrows_are_an_error() {
    let bd = BackendDesc::new(vec![]);
    let mut pc = PlanningContext::new(Tokens::new(), &bd);
    match graph_of(&mut pc, "MATCH (a)<-[r]->(b)") {
        Ok(pg) => panic!("{:?}", pg),
        Err(e) => {
            assert_eq!(e.kind, ErrorKind::DirectedBothWays);
            assert_eq!(
                e.message(),
                "relationship can't be directed in both directions. If you want to find relationships in either direction, leave the arrows out"
            );
        }
    }
}
