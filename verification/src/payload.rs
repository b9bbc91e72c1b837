//! The payload source: the bytes that a work item carries, picked at random
//! from the payloads that were loaded.

use vstd::prelude::*;
use crate::random::{choose_item, thread_rng};

verus! {

/// Picks the payload of the next work item: one of `payloads`, whichever chance
/// will have, and `None` exactly when there is none to pick from.
pub fn next_payload(payloads: &Vec<Vec<u8>>) -> (payload: Option<&Vec<u8>>)
    ensures
        payload is None <==> payloads@.len() == 0,
        payload matches Some(bytes) ==> exists|i: int|
            0 <= i < payloads@.len() && payloads@[i]@ == bytes@,
{
    let mut rng = thread_rng();
    choose_item(payloads, &mut rng)
}

} // verus!
