//! The connection pool: one connection for each endpoint address that has been
//! dispatched to.
//!
//! The pool keeps the addresses; a connection is known by its handle, the
//! position of its address in the pool. The caller keeps the open streams under
//! those handles. Connections are never dropped, so a handle stays good.

use vstd::prelude::*;
use crate::address::texts;

verus! {

/// The pool after a connection to `address` was opened: the address is added
/// behind the others unless it is pooled already.
pub open spec fn spec_opened(pool: Seq<Seq<char>>, address: Seq<char>) -> Seq<Seq<char>> {
    if pool.contains(address) {
        pool
    } else {
        pool.push(address)
    }
}

/// The pool after connections to all of `requests` were asked for, in order.
pub open spec fn spec_opened_all(pool: Seq<Seq<char>>, requests: Seq<Seq<char>>) -> Seq<Seq<char>>
    decreases requests.len(),
{
    if requests.len() == 0 {
        pool
    } else {
        spec_opened_all(spec_opened(pool, requests.first()), requests.drop_first())
    }
}

/// The addresses to which a connection is open.
pub struct ConnectionPool {
    addresses: Vec<String>,
}

impl View for ConnectionPool {
    type V = Seq<Seq<char>>;

    closed spec fn view(&self) -> Seq<Seq<char>> {
        texts(self.addresses@)
    }
}

impl ConnectionPool {
    /// No address is pooled twice.
    pub open spec fn wf(&self) -> bool {
        self@.no_duplicates()
    }

    /// A pool without connections.
    pub fn new() -> (pool: ConnectionPool)
        ensures
            pool.wf(),
            pool@ == Seq::<Seq<char>>::empty(),
    {
        ConnectionPool { addresses: Vec::new() }
    }

    /// How many connections are pooled.
    pub fn len(&self) -> (n: usize)
        ensures
            n == self@.len(),
    {
        self.addresses.len()
    }

    /// The handle of the connection to `address`; `None` exactly when none is
    /// pooled.
    pub fn find(&self, address: &String) -> (handle: Option<usize>)
        ensures
            match handle {
                Some(h) => h < self@.len() && self@[h as int] == address@,
                None => !self@.contains(address@),
            },
    {
        let mut i: usize = 0;
        while i < self.addresses.len()
            invariant
                i <= self.addresses.len(),
                forall|j: int| 0 <= j < i ==> self@[j] != address@,
            decreases self.addresses.len() - i,
        {
            if self.addresses[i] == *address {
                return Some(i);
            }
            i += 1;
        }
        None
    }

    /// Records that a connection to `address` was opened and gives its handle.
    /// Where the address is pooled already the pool stays as it is and the
    /// handle is that of the connection it has.
    pub fn opened(&mut self, address: String) -> (handle: usize)
        requires
            old(self).wf(),
        ensures
            final(self).wf(),
            final(self)@ == spec_opened(old(self)@, address@),
            handle < final(self)@.len(),
            final(self)@[handle as int] == address@,
    {
        match self.find(&address) {
            Some(h) => h,
            None => {
                let h = self.addresses.len();
                self.addresses.push(address);
                assert(self@ =~= old(self)@.push(address@));
                h
            },
        }
    }
}

/// Opening a connection keeps the pool free of duplicates, keeps every
/// connection under its handle, and adds nothing for an address that is pooled.
pub proof fn lemma_opened(pool: Seq<Seq<char>>, address: Seq<char>)
    requires
        pool.no_duplicates(),
    ensures
        spec_opened(pool, address).no_duplicates(),
        spec_opened(pool, address).contains(address),
        pool.is_prefix_of(spec_opened(pool, address)),
        spec_opened(spec_opened(pool, address), address) == spec_opened(pool, address),
        forall|other: Seq<char>|
            spec_opened(pool, address).contains(other) <==> other == address || pool.contains(
                other,
            ),
{
    let after = spec_opened(pool, address);
    if !pool.contains(address) {
        assert(after[pool.len() as int] == address);
        assert forall|other: Seq<char>| pool.contains(other) implies after.contains(other) by {
            let i = choose|i: int| 0 <= i < pool.len() && pool[i] == other;
            assert(after[i] == other);
        }
    }
}

/// One connection for each address: however many requests are served, and to
/// whatever addresses, the pool holds every address that was asked for, none of
/// them twice, and every connection that it held before stays under its handle.
pub proof fn lemma_one_connection_per_address(pool: Seq<Seq<char>>, requests: Seq<Seq<char>>)
    requires
        pool.no_duplicates(),
    ensures
        spec_opened_all(pool, requests).no_duplicates(),
        pool.is_prefix_of(spec_opened_all(pool, requests)),
        forall|address: Seq<char>|
            spec_opened_all(pool, requests).contains(address) <==> pool.contains(address)
                || requests.contains(address),
    decreases requests.len(),
{
    if requests.len() > 0 {
        let first = requests.first();
        let rest = requests.drop_first();
        lemma_opened(pool, first);
        lemma_one_connection_per_address(spec_opened(pool, first), rest);
        assert forall|address: Seq<char>| requests.contains(address) implies address == first
            || rest.contains(address) by {
            let i = choose|i: int| 0 <= i < requests.len() && requests[i] == address;
            if i > 0 {
                assert(rest[i - 1] == address);
            }
        }
    }
}

} // verus!
