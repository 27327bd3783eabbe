use vstd::prelude::*;
use std::cell::RefCell;
use std::rc::{Rc, Weak};

verus! {

/// A weak reference to a `Node` shared through `Rc`: it does not keep the
/// node alive, so a child's link to its parent makes no reference cycle.
#[derive(Debug)]
#[verifier::external_body]
pub struct NodeLink {
    link: Weak<Node>,
}

impl NodeLink {
    /// Calls `Weak::new`: a link that points to no node. Nothing is promised
    /// of the result, since a link's target is not visible to the contracts.
    #[verifier::external_body]
    fn dangling() -> (r: NodeLink) {
        NodeLink { link: Weak::new() }
    }

    /// Calls `Rc::downgrade`: a link to the node that `node` points to.
    /// Nothing is promised of the result, since a link's target is not visible
    /// to the contracts.
    #[verifier::external_body]
    pub fn to(node: &Rc<Node>) -> (r: NodeLink) {
        NodeLink { link: Rc::downgrade(node) }
    }

    /// Calls `Weak::upgrade`: a strong reference to the node, or `None` once
    /// it has been dropped. Nothing is promised of the result: whether the
    /// node is still alive depends on the strong counts at run time.
    #[verifier::external_body]
    pub fn upgrade(&self) -> (r: Option<Rc<Node>>) {
        self.link.upgrade()
    }
}

/// The changeable parent link of a node. Its `RefCell` is reached only
/// through `replace`, which holds no borrow beyond the call, so no borrow is
/// ever outstanding and `RefCell::replace` cannot panic.
#[derive(Debug)]
#[verifier::external_body]
struct ParentCell {
    cell: RefCell<NodeLink>,
}

impl ParentCell {
    /// Calls `RefCell::new` on `link`. Nothing is promised: what the cell holds
    /// is not visible to the contracts.
    #[verifier::external_body]
    fn new(link: NodeLink) -> (r: ParentCell) {
        ParentCell { cell: RefCell::new(link) }
    }

    /// Calls `RefCell::replace`: puts `link` in and hands back the link held
    /// before. Nothing is promised of the result: the cell
    /// changes behind a shared reference, which the contracts cannot follow.
    #[verifier::external_body]
    fn replace(&self, link: NodeLink) -> (r: NodeLink) {
        self.cell.replace(link)
    }
}

/// The changeable list of children of a node. Like `ParentCell`, its
/// `RefCell` is reached only through `replace`, so no borrow is ever
/// outstanding.
#[derive(Debug)]
#[verifier::external_body]
struct ChildrenCell {
    cell: RefCell<Vec<Rc<Node>>>,
}

impl ChildrenCell {
    /// Calls `RefCell::new` on `children`. Nothing is promised: what the cell holds
    /// is not visible to the contracts.
    #[verifier::external_body]
    fn new(children: Vec<Rc<Node>>) -> (r: ChildrenCell) {
        ChildrenCell { cell: RefCell::new(children) }
    }

    /// Calls `RefCell::replace`: puts `children` in and hands back the list
    /// held before. Nothing is promised of the result: the cell
    /// changes behind a shared reference, which the contracts cannot follow.
    #[verifier::external_body]
    fn replace(&self, children: Vec<Rc<Node>>) -> (r: Vec<Rc<Node>>) {
        self.cell.replace(children)
    }
}

/// A tree node: a value, a weak link to its parent and strong links to its
/// children, both changeable through a shared reference.
#[derive(Debug)]
pub struct Node {
    value: i32,
    parent: ParentCell,
    children: ChildrenCell,
}

impl Node {
    /// The node's value.
    pub closed spec fn spec_value(&self) -> i32 {
        self.value
    }

    /// A node holding `value`, with no parent and no children.
    pub fn new(value: i32) -> (r: Node)
        ensures
            r.spec_value() == value,
    {
        Node {
            value,
            parent: ParentCell::new(NodeLink::dangling()),
            children: ChildrenCell::new(Vec::new()),
        }
    }

    /// Adds `child` to the node's children.
    pub fn add_child(&self, child: Rc<Node>) {
        let mut kids = self.children.replace(Vec::new());
        kids.push(child);
        self.children.replace(kids);
    }

    /// Makes `parent` the node's parent link.
    pub fn set_parent(&self, parent: NodeLink) {
        self.parent.replace(parent);
    }

    /// The node's value.
    pub fn get_value(&self) -> (r: i32)
        ensures
            r == self.spec_value(),
    {
        self.value
    }

    /// The parent, if a parent link was set and that node is still alive.
    pub fn get_parent(&self) -> (r: Option<Rc<Node>>) {
        let link = self.parent.replace(NodeLink::dangling());
        let parent = link.upgrade();
        self.parent.replace(link);
        parent
    }

    /// The children added so far, in order.
    pub fn get_children(&self) -> (r: Vec<Rc<Node>>) {
        let kids = self.children.replace(Vec::new());
        let copy = kids.clone();
        self.children.replace(kids);
        copy
    }
}

/// A text together with a second way to reach it, which exists once `init`
/// has been called.
pub struct SelfRef {
    value: String,
    initialized: bool,
}

impl SelfRef {
    /// The text held.
    pub closed spec fn text(&self) -> Seq<char> {
        self.value@
    }

    /// Whether `init` has been called.
    pub closed spec fn is_initialized(&self) -> bool {
        self.initialized
    }

    /// A holder of `txt` whose second access is not set up yet.
    pub fn new(txt: &str) -> (r: SelfRef)
        ensures
            r.text() == txt@,
            !r.is_initialized(),
    {
        SelfRef { value: String::from_str(txt), initialized: false }
    }

    /// Sets up the second access to the text.
    pub fn init(&mut self)
        ensures
            final(self).text() == old(self).text(),
            final(self).is_initialized(),
    {
        self.initialized = true;
    }

    /// The text held.
    pub fn value(&self) -> (r: &str)
        ensures
            r@ == self.text(),
    {
        self.value.as_str()
    }

    /// The text held, reached through the access that `init` set up.
    pub fn pointer_to_value(&self) -> (r: &String)
        requires
            self.is_initialized(),
        ensures
            r@ == self.text(),
    {
        &self.value
    }
}

} // verus!
