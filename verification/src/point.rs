use vstd::prelude::*;

verus! {

/// A point in the plane with unsigned coordinates.
#[derive(Debug)]
pub struct Point {
    pub x: u32,
    pub y: u32,
}

impl Point {
    /// Moves the point to `(x, y)`.
    pub fn move_to(&mut self, x: u32, y: u32)
        ensures
            final(self).x == x,
            final(self).y == y,
    {
        self.x = x;
        self.y = y;
    }
}

/// A holder of a string that is filled on demand: an empty string counts as
/// "not yet set".
pub struct S {
    a: String,
}

/// The text that `S` holds after `get_a_or_inset_new` was called with
/// `input` on a holder of `a`: the old text if it was non-empty, else `input`.
pub open spec fn fill_if_empty(a: Seq<char>, input: Seq<char>) -> Seq<char> {
    if a.len() == 0 {
        input
    } else {
        a
    }
}

/// Once the text is non-empty it stays as it is: filling again, with any
/// input, changes nothing.
pub proof fn lemma_filled_text_is_kept(a: Seq<char>, first: Seq<char>, second: Seq<char>)
    requires
        fill_if_empty(a, first).len() > 0,
    ensures
        fill_if_empty(fill_if_empty(a, first), second) == fill_if_empty(a, first),
{
}

impl S {
    /// The text held.
    pub closed spec fn text(&self) -> Seq<char> {
        self.a@
    }

    /// Makes a holder of `a` (the empty string means "not set").
    pub fn new(a: &str) -> (r: S)
        ensures
            r.text() == a@,
    {
        S { a: String::from_str(a) }
    }

    /// The held text, or `None` when it is empty.
    fn get_non_empty_a(&self) -> (r: Option<&str>)
        ensures
            r is None <==> self.text().len() == 0,
            r matches Some(t) ==> t@ == self.text(),
    {
        if self.a.as_str().is_empty() {
            None
        } else {
            Some(self.a.as_str())
        }
    }

    /// Returns the held text; when it is empty, first replaces it by `input_s`.
    /// The result is `None` exactly when the text is still empty afterwards.
    pub fn get_a_or_inset_new(&mut self, input_s: &str) -> (r: Option<&str>)
        ensures
            final(self).text() == fill_if_empty(old(self).text(), input_s@),
            r is None <==> final(self).text().len() == 0,
            r matches Some(t) ==> t@ == final(self).text(),
    {
        let may_empty_a = self.get_non_empty_a();
        if may_empty_a.is_none() {
            self.a = String::from_str(input_s);
        }
        self.get_non_empty_a()
    }
}

} // verus!
