use vstd::prelude::*;

verus! {

/// A single integer cell.
pub struct Foo {
    num: i32,
}

impl Foo {
    /// The value held.
    pub closed spec fn value(&self) -> i32 {
        self.num
    }

    /// Replaces the value held.
    pub fn set(&mut self, value: i32)
        ensures
            final(self).value() == value,
    {
        self.num = value;
    }

    /// Returns the value held.
    pub fn get(&self) -> (r: i32)
        ensures
            r == self.value(),
    {
        self.num
    }

    /// A cell holding zero.
    pub fn new() -> (r: Foo)
        ensures
            r.value() == 0,
    {
        Foo { num: 0 }
    }
}

} // verus!
