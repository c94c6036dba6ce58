use gqlite::backend::{BackendDesc, FuncSignature, FuncType, Tokens};
use gqlite::frontend::labels::canonicalize;
use gqlite::frontend::plan::{Dir, RelType};
use gqlite::frontend::{PlanningContext, Scope};
use gqlite::Type;

#[test]
fn tokenize_is_by_string_equality() {
    let mut tokens = Tokens::new();
    let a = tokens.tokenize("a");
    let b = tokens.tokenize("b");
    let a_again = tokens.tokenize("a");
    let upper = tokens.tokenize("A");
    let empty = tokens.tokenize("");
    assert_eq!(a, 0);
    assert_eq!(b, 1);
    assert_eq!(a_again, a);
    assert_eq!(upper, 2);
    assert_eq!(empty, 3);
    assert_ne!(a, b);
    assert_ne!(a, upper);
    assert_eq!(tokens.len(), 4);
}

#[test]
fn lookup_gives_the_string_back() {
    let mut tokens = Tokens::new();
    assert_eq!(tokens.lookup(0), None);
    let knows = tokens.tokenize("KNOWS");
    let name = tokens.tokenize("name");
    assert_eq!(tokens.lookup(knows), Some("KNOWS"));
    assert_eq!(tokens.lookup(name), Some("name"));
    assert_eq!(tokens.lookup(2), None);
}

#[test]
fn slots_are_stable_within_a_scope() {
    let mut scope = Scope::new();
    assert_eq!(scope.num_slots(), 0);
    assert_eq!(scope.slot(7), None);
    let first = scope.get_or_alloc_slot(7);
    let second = scope.get_or_alloc_slot(3);
    assert_eq!(first, 0);
    assert_eq!(second, 1);
    assert_eq!(scope.get_or_alloc_slot(7), 0);
    assert_eq!(scope.get_or_alloc_slot(3), 1);
    assert_eq!(scope.get_or_alloc_slot(7), 0);
    assert_eq!(scope.num_slots(), 2);
    assert_eq!(scope.slot(7), Some(0));
    assert_eq!(scope.slot(3), Some(1));
}

#[test]
fn reserved_slots_are_not_given_out() {
    let mut scope = Scope::new();
    assert_eq!(scope.get_or_alloc_slot(5), 0);
    scope.reserve_slots(3);
    assert_eq!(scope.num_slots(), 4);
    assert_eq!(scope.get_or_alloc_slot(6), 4);
    assert_eq!(scope.get_or_alloc_slot(5), 0);
    scope.reserve_slots(0);
    assert_eq!(scope.num_slots(), 5);
}

#[test]
fn declare_tok_reports_new_identifiers() {
    let mut scope = Scope::new();
    assert!(!scope.is_declared(4));
    assert!(scope.declare_tok(4));
    assert!(scope.is_declared(4));
    assert!(!scope.declare_tok(4));
    assert!(scope.declare_tok(2));
    assert_eq!(scope.named(), &vec![4, 2]);
    assert_eq!(scope.num_slots(), 0);
}

#[test]
fn scope_declare_interns_and_declares() {
    let mut tokens = Tokens::new();
    let mut scope = Scope::new();
    let x = scope.declare(&mut tokens, "x");
    assert_eq!(x, 0);
    assert!(scope.is_declared(x));
    assert_eq!(scope.declare(&mut tokens, "x"), x);
    assert_eq!(scope.named(), &vec![x]);
    let copy = scope.clone();
    assert_eq!(copy.named(), scope.named());
    assert_eq!(copy.num_slots(), scope.num_slots());
}

#[test]
fn anonymous_names_are_counted_separately() {
    let bd = BackendDesc::new(vec![]);
    let mut pc = PlanningContext::new(Tokens::new(), &bd);
    let r0 = pc.new_anon_rel();
    let n0 = pc.new_anon_node();
    let r1 = pc.new_anon_rel();
    let n1 = pc.new_anon_node();
    assert_eq!(pc.tokens.lookup(r0), Some("AnonRel#0"));
    assert_eq!(pc.tokens.lookup(n0), Some("AnonNode#0"));
    assert_eq!(pc.tokens.lookup(r1), Some("AnonRel#1"));
    assert_eq!(pc.tokens.lookup(n1), Some("AnonNode#1"));
    assert!(!pc.is_declared(r0));
    assert!(!pc.is_declared(n0));
    for _ in 0..9 {
        pc.new_anon_rel();
    }
    let r11 = pc.new_anon_rel();
    assert_eq!(pc.tokens.lookup(r11), Some("AnonRel#11"));
}

#[test]
fn context_scope_handling() {
    let bd = BackendDesc::new(vec![]);
    let mut pc = PlanningContext::new(Tokens::new(), &bd);
    let a = pc.declare("a");
    assert!(pc.is_declared(a));
    assert_eq!(pc.get_or_alloc_slot(a), 0);
    let b = pc.tokenize("b");
    assert!(!pc.is_declared(b));
    assert!(pc.declare_tok(b));
    assert!(!pc.declare_tok(b));
    assert_eq!(pc.scope_mut().get_or_alloc_slot(b), 1);
    assert_eq!(pc.scope().num_slots(), 2);

    let old = pc.detach_scope();
    let mut fresh = pc.create_scope();
    assert_eq!(fresh.num_slots(), 0);
    assert_eq!(fresh.get_or_alloc_slot(b), 0);
    pc.retire_scope(old);
    pc.attach_scope(fresh);
    assert_eq!(pc.scope_history.len(), 1);
    assert_eq!(pc.scope_history[0].slot(b), Some(1));
    assert_eq!(pc.get_or_alloc_slot(b), 0);
    assert!(!pc.is_declared(a));
}

#[test]
fn backend_desc_finds_functions_by_name() {
    let bd = BackendDesc::new(vec![
        FuncSignature { func_type: FuncType::Scalar, name: 4, returns: Type::Any, args: vec![] },
        FuncSignature {
            func_type: FuncType::Aggregating,
            name: 9,
            returns: Type::Integer,
            args: vec![(1, Type::Any)],
        },
        FuncSignature { func_type: FuncType::Scalar, name: 9, returns: Type::Any, args: vec![] },
    ]);
    assert_eq!(bd.find(4), Some(FuncType::Scalar));
    assert_eq!(bd.find(9), Some(FuncType::Aggregating));
    assert_eq!(bd.find(5), None);
}

#[test]
fn labels_are_sorted_and_deduplicated() {
    assert_eq!(canonicalize(&vec![]), Vec::<usize>::new());
    assert_eq!(canonicalize(&vec![5]), vec![5]);
    assert_eq!(canonicalize(&vec![3, 9, 3]), vec![3, 9]);
    assert_eq!(canonicalize(&vec![9, 3]), vec![3, 9]);
    assert_eq!(canonicalize(&vec![4, 1, 3, 1, 4, 2, 2]), vec![1, 2, 3, 4]);
    assert_eq!(canonicalize(&vec![3, 9, 3]), canonicalize(&vec![9, 3]));
}

#[test]
fn direction_reverses() {
    assert_eq!(Dir::Out.reverse(), Dir::In);
    assert_eq!(Dir::In.reverse(), Dir::Out);
    assert_eq!(Dir::Out.reverse().reverse(), Dir::Out);
}

#[test]
fn rel_type_token() {
    assert_eq!(RelType::Defined(3).token(), 3);
    assert_eq!(RelType::Anon(8).token(), 8);
}
