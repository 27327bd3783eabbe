use std::rc::Rc;

use minigrep::{AppError, Gadget, Node, NodeLink, Owner, Point, SelfRef, S};

#[test]
fn point_move_to() {
    let mut p = Point { x: 0, y: 0 };
    p.move_to(2, 3);
    assert_eq!((p.x, p.y), (2, 3));
    p.move_to(3, 4);
    assert_eq!((p.x, p.y), (3, 4));
}

#[test]
fn s_fills_only_when_empty() {
    let mut s = S::new("");
    assert_eq!(s.get_a_or_inset_new(""), None);
    assert_eq!(s.get_a_or_inset_new("first"), Some("first"));
    assert_eq!(s.get_a_or_inset_new("second"), Some("first"));
    let mut t = S::new("kept");
    assert_eq!(t.get_a_or_inset_new("other"), Some("kept"));
}

#[test]
fn node_children_and_parent() {
    let leaf = Rc::new(Node::new(3));
    assert_eq!(leaf.get_value(), 3);
    assert!(leaf.get_parent().is_none());
    assert!(leaf.get_children().is_empty());
    {
        let branch = Rc::new(Node::new(5));
        branch.add_child(Rc::clone(&leaf));
        leaf.set_parent(NodeLink::to(&branch));
        let parent = leaf.get_parent().unwrap();
        assert_eq!(parent.get_value(), 5);
        let kids = branch.get_children();
        assert_eq!(kids.len(), 1);
        assert_eq!(kids[0].get_value(), 3);
        assert_eq!(Rc::strong_count(&leaf), 3);
        assert_eq!(Rc::strong_count(&branch), 2);
        assert_eq!(Rc::weak_count(&branch), 1);
    }
    // The branch is gone: the weak parent link no longer reaches it.
    assert!(leaf.get_parent().is_none());
    assert_eq!(Rc::strong_count(&leaf), 1);
}

#[test]
fn owner_and_gadgets() {
    let owner = Rc::new(Owner::new("Gadget Man"));
    assert_eq!(owner.name(), "Gadget Man");
    let g1 = Rc::new(Gadget::new(1, owner.clone()));
    let g2 = Rc::new(Gadget::new(2, owner.clone()));
    owner.add_gadget(&g1);
    owner.add_gadget(&g2);
    assert_eq!(g1.id(), 1);
    assert!(Rc::ptr_eq(g2.owner(), &owner));
    let links = owner.gadgets.replace(Vec::new());
    let ids: Vec<i32> = links.iter().map(|l| l.upgrade().unwrap().id()).collect();
    assert_eq!(ids, vec![1, 2]);
    owner.gadgets.replace(links);
    // Gadgets keep the owner alive; the owner does not keep gadgets alive.
    assert_eq!(Rc::strong_count(&owner), 3);
    assert_eq!(Rc::strong_count(&g1), 1);
}

#[test]
fn self_ref_access() {
    let mut t = SelfRef::new("hello");
    assert_eq!(t.value(), "hello");
    t.init();
    assert_eq!(t.pointer_to_value(), "hello");
    assert_eq!(t.value(), "hello");
}

#[test]
fn app_error_from_parse() {
    let e: AppError = "not a number".parse::<usize>().unwrap_err().into();
    assert_eq!(e.kind(), "parse");
    assert_eq!(e.message(), "invalid digit found in string");
    assert_eq!(e.describe(), "AppError: parse - invalid digit found in string");
}

#[test]
fn app_error_from_io() {
    let io = std::io::Error::new(std::io::ErrorKind::NotFound, "no poem");
    let e = AppError::from(io);
    assert_eq!(e.kind(), "io");
    assert_eq!(e.message(), "no poem");
    assert_eq!(e.describe(), "AppError: io - no poem");
}
