//! The prototype pattern: a value that reproduces itself by cloning.

use vstd::prelude::*;

verus! {

/// A value with one text field and one numeric field, cloneable exactly.
pub struct Prototype {
    field1: String,
    field2: i32,
}

impl View for Prototype {
    type V = (Seq<char>, int);

    closed spec fn view(&self) -> (Seq<char>, int) {
        (self.field1@, self.field2 as int)
    }
}

impl Clone for Prototype {
    fn clone(&self) -> (r: Prototype)
        ensures
            r@ == self@,
    {
        Prototype { field1: self.field1.clone(), field2: self.field2 }
    }
}

impl Prototype {
    pub fn new(field1: String, field2: i32) -> (p: Prototype)
        ensures
            p@ == (field1@, field2 as int),
    {
        Prototype { field1, field2 }
    }

    /// A copy indistinguishable from the original.
    pub fn clone_prototype(&self) -> (p: Prototype)
        ensures
            p@ == self@,
    {
        self.clone()
    }

    pub fn field1(&self) -> (s: &String)
        ensures
            s@ == self@.0,
    {
        &self.field1
    }

    pub fn field2(&self) -> (n: i32)
        ensures
            n as int == self@.1,
    {
        self.field2
    }
}

} // verus!
