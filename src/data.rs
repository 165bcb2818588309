use vstd::prelude::*;

verus! {

/// A list of integers, owned by value.
pub struct Data {
    v: Vec<i32>,
}

impl Data {
    pub closed spec fn values(&self) -> Seq<i32> {
        self.v@
    }

    pub fn new() -> (d: Data)
        ensures
            d.values() == Seq::<i32>::empty(),
    {
        Data { v: Vec::new() }
    }

    /// Takes the list by value and appends `i` to it; the list is consumed.
    pub fn push(self, i: i32) {
        let mut v = self.v;
        v.push(i);
    }
}

} // verus!
