//! The read-group field of a compressed alignment record, where the value
//! minus one stands for no group.

use vstd::prelude::*;

verus! {

/// A record's read-group identifier, or none.
#[derive(Clone, Copy, Debug, Default, Eq, PartialEq, Structural)]
pub struct ReadGroup(pub Option<i32>);

/// The read group a stored signed value denotes: any negative value means
/// no group.
pub open spec fn read_group_from_i32(n: i32) -> ReadGroup {
    if n < 0 {
        ReadGroup(None)
    } else {
        ReadGroup(Some(n))
    }
}

/// The signed value a read group is stored as: minus one for no group.
pub open spec fn i32_from_read_group(read_group: ReadGroup) -> i32 {
    match read_group.0 {
        Some(id) => id,
        None => (-1) as i32,
    }
}

impl From<i32> for ReadGroup {
    fn from(n: i32) -> (r: Self) {
        if n < 0 {
            ReadGroup(None)
        } else {
            ReadGroup(Some(n))
        }
    }
}

impl vstd::std_specs::convert::FromSpecImpl<i32> for ReadGroup {
    open spec fn obeys_from_spec() -> bool {
        true
    }

    open spec fn from_spec(n: i32) -> ReadGroup {
        read_group_from_i32(n)
    }
}

impl From<ReadGroup> for i32 {
    fn from(read_group: ReadGroup) -> (r: Self) {
        match read_group.0 {
            Some(id) => id,
            None => (-1) as i32,
        }
    }
}

impl vstd::std_specs::convert::FromSpecImpl<ReadGroup> for i32 {
    open spec fn obeys_from_spec() -> bool {
        true
    }

    open spec fn from_spec(read_group: ReadGroup) -> i32 {
        i32_from_read_group(read_group)
    }
}

impl ReadGroup {
    /// The identifier, or none for the no-group value.
    pub fn get(&self) -> (r: Option<i32>)
        ensures
            r == self.0,
    {
        self.0
    }
}

} // verus!
