//! Endpoint addresses: texts such as `10.0.0.1:9000`, which the library
//! compares and copies and never reads.

use vstd::prelude::*;

verus! {

/// The texts of a list of addresses.
pub open spec fn texts(addresses: Seq<String>) -> Seq<Seq<char>> {
    Seq::new(addresses.len(), |i: int| addresses[i]@)
}

/// A copy of a list of addresses.
pub fn clone_addresses(addresses: &Vec<String>) -> (copy: Vec<String>)
    ensures
        copy@ == addresses@,
        texts(copy@) == texts(addresses@),
{
    let mut copy: Vec<String> = Vec::new();
    let mut i: usize = 0;
    while i < addresses.len()
        invariant
            i <= addresses.len(),
            copy@ == addresses@.take(i as int),
        decreases addresses.len() - i,
    {
        copy.push(addresses[i].clone());
        i += 1;
    }
    copy
}

} // verus!
