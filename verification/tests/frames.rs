use frame_vm::address::Address;
use frame_vm::errors::ErrorType;
use frame_vm::flow::ControlFlow;
use frame_vm::frames::{Frame, Heap};
use frame_vm::values::Value;

fn at(line: u64) -> Address {
    Address::new(line, "test.wt".to_string())
}

fn num(i: i64) -> Value {
    Value::Integer(i)
}

fn text(s: &str) -> Value {
    Value::String(s.to_string())
}

fn fault(r: Result<(), ControlFlow>) -> frame_vm::errors::Error {
    match r {
        Err(ControlFlow::Error(e)) => e,
        other => panic!("expected a fault, got {:?}", other),
    }
}

#[test]
fn new_frame_is_empty_and_unlinked() {
    let mut heap = Heap::new();
    let f = Frame::new(&mut heap);
    assert!(heap.holds(f));
    assert_eq!(f.root(&heap), None);
    assert_eq!(f.closure(&heap), None);
    assert!(!f.has(&heap, "x".to_string()));
}

#[test]
fn new_frames_are_distinct() {
    let mut heap = Heap::new();
    let a = Frame::new(&mut heap);
    let b = Frame::new(&mut heap);
    assert_ne!(a, b);
}

#[test]
fn define_then_lookup() {
    let mut heap = Heap::new();
    let f = Frame::new(&mut heap);
    assert_eq!(f.define(&mut heap, at(1), "hello".to_string(), text("World")), Ok(()));
    assert!(f.has(&heap, "hello".to_string()));
    assert_eq!(f.lookup(&heap, at(2), "hello".to_string()), Ok(text("World")));
}

#[test]
fn closure_wins_over_root() {
    let mut heap = Heap::new();
    let closure = Frame::new(&mut heap);
    let root = Frame::new(&mut heap);
    let f = Frame::new(&mut heap);
    closure.define(&mut heap, at(1), "x".to_string(), num(1)).unwrap();
    root.define(&mut heap, at(1), "x".to_string(), num(2)).unwrap();
    f.set_closure(&mut heap, closure);
    f.set_root(&mut heap, root);
    assert_eq!(f.lookup(&heap, at(2), "x".to_string()), Ok(num(1)));
}

#[test]
fn closure_wins_over_root_chain() {
    let mut heap = Heap::new();
    let closure = Frame::new(&mut heap);
    let near = Frame::new(&mut heap);
    let far = Frame::new(&mut heap);
    let f = Frame::new(&mut heap);
    closure.define(&mut heap, at(1), "x".to_string(), num(1)).unwrap();
    far.define(&mut heap, at(1), "x".to_string(), num(2)).unwrap();
    near.set_root(&mut heap, far);
    f.set_closure(&mut heap, closure);
    f.set_root(&mut heap, near);
    assert_eq!(f.lookup(&heap, at(2), "x".to_string()), Ok(num(1)));
}

#[test]
fn locals_win_over_closure_and_root() {
    let mut heap = Heap::new();
    let closure = Frame::new(&mut heap);
    let root = Frame::new(&mut heap);
    let f = Frame::new(&mut heap);
    closure.define(&mut heap, at(1), "x".to_string(), num(1)).unwrap();
    root.define(&mut heap, at(1), "x".to_string(), num(2)).unwrap();
    f.set_closure(&mut heap, closure);
    f.set_root(&mut heap, root);
    f.define(&mut heap, at(1), "x".to_string(), num(3)).unwrap();
    assert_eq!(f.lookup(&heap, at(2), "x".to_string()), Ok(num(3)));
    assert_eq!(closure.lookup(&heap, at(2), "x".to_string()), Ok(num(1)));
    assert_eq!(root.lookup(&heap, at(2), "x".to_string()), Ok(num(2)));
}

#[test]
fn root_is_asked_when_closure_does_not_know() {
    let mut heap = Heap::new();
    let closure = Frame::new(&mut heap);
    let root = Frame::new(&mut heap);
    let f = Frame::new(&mut heap);
    closure.define(&mut heap, at(1), "role".to_string(), text("first")).unwrap();
    root.define(&mut heap, at(1), "hello".to_string(), text("World")).unwrap();
    f.set_closure(&mut heap, closure);
    f.set_root(&mut heap, root);
    assert_eq!(f.lookup(&heap, at(2), "hello".to_string()), Ok(text("World")));
    assert_eq!(f.lookup(&heap, at(2), "role".to_string()), Ok(text("first")));
}

#[test]
fn has_follows_closure_chain() {
    let mut heap = Heap::new();
    let outer = Frame::new(&mut heap);
    let inner = Frame::new(&mut heap);
    let f = Frame::new(&mut heap);
    outer.define(&mut heap, at(1), "x".to_string(), num(1)).unwrap();
    inner.set_closure(&mut heap, outer);
    f.set_closure(&mut heap, inner);
    assert!(f.has(&heap, "x".to_string()));
    assert_eq!(f.lookup(&heap, at(2), "x".to_string()), Ok(num(1)));
}

#[test]
fn has_follows_root_chain() {
    let mut heap = Heap::new();
    let far = Frame::new(&mut heap);
    let near = Frame::new(&mut heap);
    let f = Frame::new(&mut heap);
    far.define(&mut heap, at(1), "x".to_string(), num(1)).unwrap();
    near.set_root(&mut heap, far);
    f.set_root(&mut heap, near);
    assert!(f.has(&heap, "x".to_string()));
    assert!(!f.has(&heap, "y".to_string()));
}

#[test]
fn has_sees_closure_of_a_root_ancestor() {
    let mut heap = Heap::new();
    let captured = Frame::new(&mut heap);
    let instance = Frame::new(&mut heap);
    let f = Frame::new(&mut heap);
    captured.define(&mut heap, at(1), "x".to_string(), num(7)).unwrap();
    instance.set_closure(&mut heap, captured);
    f.set_root(&mut heap, instance);
    assert!(f.has(&heap, "x".to_string()));
    assert_eq!(f.lookup(&heap, at(2), "x".to_string()), Ok(num(7)));
}

#[test]
fn lookup_of_unknown_name_is_not_found() {
    let mut heap = Heap::new();
    let f = Frame::new(&mut heap);
    let e = match f.lookup(&heap, at(9), "ghost".to_string()) {
        Err(ControlFlow::Error(e)) => e,
        other => panic!("expected a fault, got {:?}", other),
    };
    assert_eq!(e.kind, ErrorType::Runtime);
    assert_eq!(e.address, at(9));
    assert_eq!(e.message, "not found: \"ghost\"");
    assert_eq!(e.hint, "check variable existence.");
}

#[test]
fn names_in_messages_are_quoted_and_escaped() {
    let mut heap = Heap::new();
    let f = Frame::new(&mut heap);
    let e = match f.lookup(&heap, at(9), "a\"b\n".to_string()) {
        Err(ControlFlow::Error(e)) => e,
        other => panic!("expected a fault, got {:?}", other),
    };
    assert_eq!(e.message, "not found: \"a\\\"b\\n\"");
}

#[test]
fn define_rejects_redefinition() {
    let mut heap = Heap::new();
    let f = Frame::new(&mut heap);
    assert_eq!(f.define(&mut heap, at(1), "x".to_string(), num(1)), Ok(()));
    let e = fault(f.define(&mut heap, at(2), "x".to_string(), num(2)));
    assert_eq!(e.kind, ErrorType::Runtime);
    assert_eq!(e.address, at(2));
    assert_eq!(e.message, "already defined: \"x\"");
    assert_eq!(e.hint, "check variable overrides.");
    assert_eq!(f.lookup(&heap, at(3), "x".to_string()), Ok(num(1)));
}

#[test]
fn define_shadows_outer_scopes() {
    let mut heap = Heap::new();
    let outer = Frame::new(&mut heap);
    let f = Frame::new(&mut heap);
    outer.define(&mut heap, at(1), "x".to_string(), num(1)).unwrap();
    f.set_closure(&mut heap, outer);
    assert_eq!(f.define(&mut heap, at(2), "x".to_string(), num(2)), Ok(()));
    assert_eq!(f.lookup(&heap, at(3), "x".to_string()), Ok(num(2)));
    assert_eq!(outer.lookup(&heap, at(3), "x".to_string()), Ok(num(1)));
}

#[test]
fn set_requires_prior_existence() {
    let mut heap = Heap::new();
    let closure = Frame::new(&mut heap);
    let root = Frame::new(&mut heap);
    let f = Frame::new(&mut heap);
    f.set_closure(&mut heap, closure);
    f.set_root(&mut heap, root);
    let e = fault(f.set(&mut heap, at(4), "x".to_string(), num(1)));
    assert_eq!(e.kind, ErrorType::Runtime);
    assert_eq!(e.address, at(4));
    assert_eq!(e.message, "not found: \"x\"");
    assert!(!f.has(&heap, "x".to_string()));
    assert!(!closure.has(&heap, "x".to_string()));
    assert!(!root.has(&heap, "x".to_string()));
}

#[test]
fn set_changes_the_local_binding() {
    let mut heap = Heap::new();
    let f = Frame::new(&mut heap);
    f.define(&mut heap, at(1), "x".to_string(), num(1)).unwrap();
    assert_eq!(f.set(&mut heap, at(2), "x".to_string(), num(5)), Ok(()));
    assert_eq!(f.lookup(&heap, at(3), "x".to_string()), Ok(num(5)));
}

#[test]
fn set_changes_the_binding_where_it_lives() {
    let mut heap = Heap::new();
    let root = Frame::new(&mut heap);
    let closure = Frame::new(&mut heap);
    let f = Frame::new(&mut heap);
    root.define(&mut heap, at(1), "hello".to_string(), text("World")).unwrap();
    closure.define(&mut heap, at(1), "role".to_string(), text("first")).unwrap();
    f.set_root(&mut heap, root);
    f.set_closure(&mut heap, closure);
    assert_eq!(f.set(&mut heap, at(2), "hello".to_string(), text("Petr!")), Ok(()));
    assert_eq!(f.set(&mut heap, at(2), "role".to_string(), text("second")), Ok(()));
    assert_eq!(root.lookup(&heap, at(3), "hello".to_string()), Ok(text("Petr!")));
    assert_eq!(closure.lookup(&heap, at(3), "role".to_string()), Ok(text("second")));
    assert_eq!(f.closure(&heap), Some(closure));
    assert!(!closure.has(&heap, "hello".to_string()));
}

#[test]
fn set_prefers_the_closure_binding() {
    let mut heap = Heap::new();
    let closure = Frame::new(&mut heap);
    let root = Frame::new(&mut heap);
    let f = Frame::new(&mut heap);
    closure.define(&mut heap, at(1), "x".to_string(), num(1)).unwrap();
    root.define(&mut heap, at(1), "x".to_string(), num(2)).unwrap();
    f.set_closure(&mut heap, closure);
    f.set_root(&mut heap, root);
    f.set(&mut heap, at(2), "x".to_string(), num(10)).unwrap();
    assert_eq!(closure.lookup(&heap, at(3), "x".to_string()), Ok(num(10)));
    assert_eq!(root.lookup(&heap, at(3), "x".to_string()), Ok(num(2)));
}

#[test]
fn siblings_do_not_see_each_other() {
    let mut heap = Heap::new();
    let a = Frame::new(&mut heap);
    let b = Frame::new(&mut heap);
    a.define(&mut heap, at(1), "x".to_string(), num(1)).unwrap();
    b.define(&mut heap, at(1), "y".to_string(), num(2)).unwrap();
    assert!(a.has(&heap, "x".to_string()));
    assert!(!a.has(&heap, "y".to_string()));
    assert!(b.has(&heap, "y".to_string()));
    assert!(!b.has(&heap, "x".to_string()));
    assert!(a.lookup(&heap, at(2), "y".to_string()).is_err());
    assert!(b.set(&mut heap, at(2), "x".to_string(), num(3)).is_err());
    assert_eq!(a.lookup(&heap, at(3), "x".to_string()), Ok(num(1)));
}

#[test]
fn a_shared_frame_is_live() {
    let mut heap = Heap::new();
    let defining = Frame::new(&mut heap);
    defining.define(&mut heap, at(1), "y".to_string(), num(5)).unwrap();
    let first = Frame::new(&mut heap);
    first.set_closure(&mut heap, defining);
    let second = Frame::new(&mut heap);
    second.set_closure(&mut heap, defining);
    assert_eq!(first.lookup(&heap, at(2), "y".to_string()), Ok(num(5)));
    defining.set(&mut heap, at(3), "y".to_string(), num(9)).unwrap();
    assert_eq!(first.lookup(&heap, at(4), "y".to_string()), Ok(num(9)));
    second.set(&mut heap, at(5), "y".to_string(), num(11)).unwrap();
    assert_eq!(first.lookup(&heap, at(6), "y".to_string()), Ok(num(11)));
    assert_eq!(defining.lookup(&heap, at(6), "y".to_string()), Ok(num(11)));
}

#[test]
fn set_root_links_directly_without_a_root() {
    let mut heap = Heap::new();
    let instance = Frame::new(&mut heap);
    let f = Frame::new(&mut heap);
    f.set_root(&mut heap, instance);
    assert_eq!(f.root(&heap), Some(instance));
    assert_eq!(instance.root(&heap), None);
}

#[test]
fn set_root_links_at_the_end_of_the_chain() {
    let mut heap = Heap::new();
    let instance = Frame::new(&mut heap);
    let outer = Frame::new(&mut heap);
    let middle = Frame::new(&mut heap);
    let f = Frame::new(&mut heap);
    middle.set_root(&mut heap, outer);
    f.set_root(&mut heap, middle);
    f.set_root(&mut heap, instance);
    assert_eq!(f.root(&heap), Some(middle));
    assert_eq!(middle.root(&heap), Some(outer));
    assert_eq!(outer.root(&heap), Some(instance));
    assert_eq!(instance.root(&heap), None);
    instance.define(&mut heap, at(1), "field".to_string(), num(4)).unwrap();
    assert_eq!(f.lookup(&heap, at(2), "field".to_string()), Ok(num(4)));
}

#[test]
fn put_binds_or_replaces() {
    let mut heap = Heap::new();
    let f = Frame::new(&mut heap);
    f.put(&mut heap, "x".to_string(), num(1));
    assert_eq!(f.lookup(&heap, at(1), "x".to_string()), Ok(num(1)));
    f.put(&mut heap, "x".to_string(), num(2));
    assert_eq!(f.lookup(&heap, at(1), "x".to_string()), Ok(num(2)));
}

#[test]
fn holds_tells_frames_of_the_heap() {
    let mut heap = Heap::new();
    let mut other = Heap::new();
    let _a = Frame::new(&mut other);
    let b = Frame::new(&mut other);
    let _f = Frame::new(&mut heap);
    assert!(!heap.holds(b));
}

#[test]
fn reaches_follows_both_links() {
    let mut heap = Heap::new();
    let top = Frame::new(&mut heap);
    let closure = Frame::new(&mut heap);
    let root = Frame::new(&mut heap);
    let f = Frame::new(&mut heap);
    let other = Frame::new(&mut heap);
    closure.set_root(&mut heap, top);
    f.set_closure(&mut heap, closure);
    f.set_root(&mut heap, root);
    assert!(f.reaches(&heap, f));
    assert!(f.reaches(&heap, closure));
    assert!(f.reaches(&heap, root));
    assert!(f.reaches(&heap, top));
    assert!(!f.reaches(&heap, other));
    assert!(!top.reaches(&heap, f));
    assert!(!root.reaches(&heap, closure));
}

#[test]
fn root_end_is_the_last_of_the_chain() {
    let mut heap = Heap::new();
    let outer = Frame::new(&mut heap);
    let middle = Frame::new(&mut heap);
    let f = Frame::new(&mut heap);
    assert_eq!(f.root_end(&heap), f);
    middle.set_root(&mut heap, outer);
    f.set_root(&mut heap, middle);
    assert_eq!(f.root_end(&heap), outer);
    assert_eq!(middle.root_end(&heap), outer);
    assert_eq!(outer.root_end(&heap), outer);
}

#[test]
fn set_closure_replaces_the_closure() {
    let mut heap = Heap::new();
    let a = Frame::new(&mut heap);
    let b = Frame::new(&mut heap);
    let f = Frame::new(&mut heap);
    a.define(&mut heap, at(1), "x".to_string(), num(1)).unwrap();
    b.define(&mut heap, at(1), "x".to_string(), num(2)).unwrap();
    f.set_closure(&mut heap, a);
    assert_eq!(f.lookup(&heap, at(2), "x".to_string()), Ok(num(1)));
    f.set_closure(&mut heap, b);
    assert_eq!(f.closure(&heap), Some(b));
    assert_eq!(f.lookup(&heap, at(2), "x".to_string()), Ok(num(2)));
}

#[test]
fn many_names_in_one_frame() {
    let mut heap = Heap::new();
    let f = Frame::new(&mut heap);
    for i in 0..50 {
        assert_eq!(f.define(&mut heap, at(i), format!("v{}", i), num(i as i64)), Ok(()));
    }
    for i in 0..50 {
        assert_eq!(f.lookup(&heap, at(i), format!("v{}", i)), Ok(num(i as i64)));
    }
    f.set(&mut heap, at(0), "v7".to_string(), num(700)).unwrap();
    assert_eq!(f.lookup(&heap, at(0), "v7".to_string()), Ok(num(700)));
    assert_eq!(f.lookup(&heap, at(0), "v8".to_string()), Ok(num(8)));
    assert!(f.define(&mut heap, at(0), "v49".to_string(), num(0)).is_err());
}

#[test]
fn the_empty_name_is_a_name() {
    let mut heap = Heap::new();
    let f = Frame::new(&mut heap);
    assert!(!f.has(&heap, String::new()));
    f.define(&mut heap, at(1), String::new(), num(1)).unwrap();
    assert_eq!(f.lookup(&heap, at(1), String::new()), Ok(num(1)));
}
