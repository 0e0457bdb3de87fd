use ark_mir::mir::LocalId;
use ark_mir::scope::LocalScope;

#[test]
fn later_declarations_shadow_earlier_ones() {
    let mut s = LocalScope::new();
    assert_eq!(s.declare_local("x"), LocalId(0));
    assert_eq!(s.declare_local("y"), LocalId(1));
    assert_eq!(s.declare_local("x"), LocalId(2));
    assert_eq!(s.lookup_local("x"), Some(LocalId(2)));
    assert_eq!(s.lookup_local("y"), Some(LocalId(1)));
    assert_eq!(s.lookup_local("z"), None);
    assert_eq!(s.next_local, 3);
}

#[test]
fn temporaries_are_named_after_their_id() {
    let mut s = LocalScope::new();
    s.declare_local("a");
    let t = s.new_temp();
    assert_eq!(t, LocalId(1));
    assert_eq!(s.locals[1].0, "__tmp_1");
    assert_eq!(s.lookup_local("__tmp_1"), Some(LocalId(1)));
}
