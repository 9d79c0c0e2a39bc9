use rlox_jasm::{CompileError, Kind, ScopeArena, Signature};

#[test]
fn offsets_follow_declaration_order() {
    let mut arena = ScopeArena::new();
    let s = arena.open(None, None, None).unwrap();
    arena.add_var(s, 10, 4, Kind::Number).unwrap();
    arena.add_var(s, 11, 1, Kind::Boolean).unwrap();
    arena.add_var(s, 12, 4, Kind::String).unwrap();
    assert_eq!(arena.get_var(s, 10).unwrap().offset, 0);
    assert_eq!(arena.get_var(s, 11).unwrap().offset, 4);
    assert_eq!(arena.get_var(s, 12).unwrap().offset, 5);
    assert_eq!(arena.get(s).pos(), 9);
}

#[test]
fn duplicate_variable_in_same_scope_fails() {
    let mut arena = ScopeArena::new();
    let s = arena.open(None, None, None).unwrap();
    assert!(arena.add_var(s, 1, 4, Kind::Number).is_ok());
    assert_eq!(arena.add_var(s, 1, 1, Kind::Boolean), Err(CompileError::DuplicateName(1)));
    assert_eq!(arena.get(s).pos(), 4);
}

#[test]
fn duplicate_function_in_same_scope_fails() {
    let mut arena = ScopeArena::new();
    let s = arena.open(None, None, None).unwrap();
    let sig = Signature { arity: 0, returns: Kind::Void, params: vec![] };
    assert!(arena.add_signature(s, 3, sig.clone()).is_ok());
    assert_eq!(arena.add_signature(s, 3, sig), Err(CompileError::DuplicateName(3)));
}

#[test]
fn shadowing_in_child_scope_succeeds() {
    let mut arena = ScopeArena::new();
    let root = arena.open(None, None, None).unwrap();
    arena.add_var(root, 1, 4, Kind::Number).unwrap();
    let sig = Signature { arity: 0, returns: Kind::Void, params: vec![] };
    arena.add_signature(root, 2, sig.clone()).unwrap();
    let child = arena.open(Some(root), None, None).unwrap();
    assert!(arena.add_var(child, 1, 1, Kind::Boolean).is_ok());
    assert!(arena.add_signature(child, 2, sig).is_ok());
    let v = arena.get_var(child, 1).unwrap();
    assert_eq!(v.kind, Kind::Boolean);
    assert_eq!(v.offset, 0);
    assert_eq!(arena.get_var(root, 1).unwrap().kind, Kind::Number);
}

#[test]
fn lookup_walks_outward_and_fails_at_root() {
    let mut arena = ScopeArena::new();
    let root = arena.open(None, None, None).unwrap();
    arena.add_var(root, 5, 4, Kind::String).unwrap();
    let child = arena.open(Some(root), None, None).unwrap();
    let grandchild = arena.open(Some(child), None, None).unwrap();
    assert_eq!(arena.get_var(grandchild, 5).unwrap().kind, Kind::String);
    assert!(arena.has_var(grandchild, 5));
    assert!(!arena.has_var(grandchild, 6));
    assert_eq!(arena.get_var(grandchild, 6), Err(CompileError::UnknownName(6)));
    assert!(!arena.has_signature(grandchild, 5));
    assert!(arena.get_signature(grandchild, 5).is_err());
}

#[test]
fn generations_count_nesting_depth() {
    let mut arena = ScopeArena::new();
    let root = arena.open(None, None, None).unwrap();
    let child = arena.open(Some(root), None, None).unwrap();
    let explicit = arena.open(Some(child), Some(7), Some(1)).unwrap();
    assert_eq!(arena.get(root).gen(), 1);
    assert_eq!(arena.get(child).gen(), 2);
    assert_eq!(arena.get(explicit).gen(), 7);
    assert!(!arena.get(root).has_parent());
    assert!(arena.get(child).has_parent());
    assert_eq!(arena.get(explicit).id(), Some(1));
    assert_eq!(arena.open(Some(99), None, None), Err(CompileError::UnknownScope));
}

#[test]
fn is_void_follows_owner_signature() {
    let mut arena = ScopeArena::new();
    let root = arena.open(None, None, None).unwrap();
    assert!(arena.get(root).is_void());
    let f = arena.open(Some(root), None, Some(4)).unwrap();
    arena
        .add_signature(f, 4, Signature { arity: 0, returns: Kind::Number, params: vec![] })
        .unwrap();
    assert!(!arena.get(f).is_void());
    let g = arena.open(Some(root), None, Some(5)).unwrap();
    arena
        .add_signature(g, 5, Signature { arity: 0, returns: Kind::Void, params: vec![] })
        .unwrap();
    assert!(arena.get(g).is_void());
}
