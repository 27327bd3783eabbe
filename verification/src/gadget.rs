use vstd::prelude::*;
use std::cell::RefCell;
use std::rc::{Rc, Weak};

verus! {

/// A weak reference to a `Gadget` shared through `Rc`: it does not keep the
/// gadget alive, so an owner and its gadgets form no reference cycle.
#[derive(Debug)]
#[verifier::external_body]
pub struct GadgetLink {
    link: Weak<Gadget>,
}

impl GadgetLink {
    /// Calls `Rc::downgrade`: a link to the gadget that `gadget` points to.
    /// Nothing is promised of the result, since a link's target is not visible
    /// to the contracts.
    #[verifier::external_body]
    pub fn to(gadget: &Rc<Gadget>) -> (r: GadgetLink) {
        GadgetLink { link: Rc::downgrade(gadget) }
    }

    /// Calls `Weak::upgrade`: a strong reference to the gadget, or `None` once
    /// it has been dropped. Nothing is promised of the result: whether the
    /// gadget is still alive depends on the strong counts at run time.
    #[verifier::external_body]
    pub fn upgrade(&self) -> (r: Option<Rc<Gadget>>) {
        self.link.upgrade()
    }
}

/// The changeable list of an owner's links to its gadgets. Its `RefCell` is
/// reached only through `replace`, which holds no borrow beyond the call, so
/// no borrow is ever outstanding and `RefCell::replace` cannot panic.
#[derive(Debug)]
#[verifier::external_body]
pub struct GadgetLinks {
    cell: RefCell<Vec<GadgetLink>>,
}

impl GadgetLinks {
    /// Calls `RefCell::new` on `links`. Nothing is promised: what the cell holds
    /// is not visible to the contracts.
    #[verifier::external_body]
    fn new(links: Vec<GadgetLink>) -> (r: GadgetLinks) {
        GadgetLinks { cell: RefCell::new(links) }
    }

    /// Calls `RefCell::replace`: puts `links` in and hands back the list held
    /// before. Nothing is promised of the result: the cell
    /// changes behind a shared reference, which the contracts cannot follow.
    #[verifier::external_body]
    pub fn replace(&self, links: Vec<GadgetLink>) -> (r: Vec<GadgetLink>) {
        self.cell.replace(links)
    }
}

/// The owner of gadgets; it refers to them weakly.
#[derive(Debug)]
pub struct Owner {
    name: String,
    pub gadgets: GadgetLinks,
}

/// A gadget, which keeps its owner alive.
#[derive(Debug)]
pub struct Gadget {
    id: i32,
    owner: Rc<Owner>,
}

impl Owner {
    /// The owner's name.
    pub closed spec fn spec_name(&self) -> Seq<char> {
        self.name@
    }

    /// An owner called `name` with no gadgets.
    pub fn new(name: &str) -> (r: Owner)
        ensures
            r.spec_name() == name@,
    {
        Owner { name: String::from_str(name), gadgets: GadgetLinks::new(Vec::new()) }
    }

    /// Records a weak link to `gadget` after the links recorded so far.
    pub fn add_gadget(&self, gadget: &Rc<Gadget>) {
        let mut links = self.gadgets.replace(Vec::new());
        links.push(GadgetLink::to(gadget));
        self.gadgets.replace(links);
    }

    /// The owner's name.
    pub fn name(&self) -> (r: &str)
        ensures
            r@ == self.spec_name(),
    {
        self.name.as_str()
    }
}

impl Gadget {
    /// The gadget's number.
    pub closed spec fn spec_id(&self) -> i32 {
        self.id
    }

    /// The gadget's owner.
    pub closed spec fn spec_owner(&self) -> Rc<Owner> {
        self.owner
    }

    /// A gadget numbered `id` that belongs to `owner`.
    pub fn new(id: i32, owner: Rc<Owner>) -> (r: Gadget)
        ensures
            r.spec_id() == id,
            r.spec_owner() == owner,
    {
        Gadget { id, owner }
    }

    /// The gadget's number.
    pub fn id(&self) -> (r: i32)
        ensures
            r == self.spec_id(),
    {
        self.id
    }

    /// The gadget's owner.
    pub fn owner(&self) -> (r: &Rc<Owner>)
        ensures
            *r == self.spec_owner(),
    {
        &self.owner
    }
}

} // verus!
