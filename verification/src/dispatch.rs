//! The dispatch loop, as the decisions that it makes.
//!
//! One round of the loop sends one work item. The caller draws the item's
//! category and calls `begin`; whatever step comes back it carries out, and
//! where the step asks for it, it reports what happened with `after_lookup` or
//! `after_open`, which give the next step. A round ends with `Send`, `Skip` or
//! `Fatal`. The outcome of a background refresh goes to `refresh_done` whenever
//! it arrives.
//!
//! A failure costs the item in hand and nothing else. After a lookup that
//! brought no endpoints the round is skipped with the assignments and the pool
//! as they were; after a connection that could not be opened it is skipped with
//! the pool as it was.

use vstd::prelude::*;
use crate::cache::{
    spec_reply, spec_resolve, spec_route, spec_update, spec_verdict, AssignmentCache,
    AssignmentModel, LookupOutcome, LookupVerdict, Resolution,
};
use crate::category::Category;
use crate::pool::{spec_opened, ConnectionPool};

verus! {

/// What the dispatch loop does next with the item in hand.
#[derive(Debug, PartialEq, Eq)]
pub enum Step {
    /// Nothing is cached for the item's category. The caller looks the category
    /// up, waits for the outcome and hands it to `after_lookup`.
    Lookup,
    /// No connection to `address` is pooled. The caller opens one and reports
    /// with `after_open`. Where `refresh` is set it first starts a lookup for
    /// the category in the background.
    Open { address: String, refresh: bool },
    /// The caller sends the item to `address` over the pooled connection with
    /// the handle `connection`. Where `refresh` is set it first starts a lookup
    /// for the category in the background.
    Send { connection: usize, address: String, refresh: bool },
    /// The item is dropped; the loop goes on with the next.
    Skip,
    /// The lookup service speaks another protocol: the process ends.
    Fatal,
}

/// The state of the dispatch loop: the assignment cache with the router's
/// cursors, and the connection pool.
pub struct Dispatcher {
    cache: AssignmentCache,
    pool: ConnectionPool,
}

impl Dispatcher {
    /// The assignment cache.
    pub closed spec fn cache(&self) -> Map<Category, AssignmentModel> {
        self.cache@
    }

    /// The addresses in the connection pool, each at its handle.
    pub closed spec fn pool(&self) -> Seq<Seq<char>> {
        self.pool@
    }

    /// The age in seconds beyond which an assignment is refreshed.
    pub closed spec fn refresh_after(&self) -> nat {
        self.cache.refresh_after()
    }

    /// Cache and pool are well formed.
    pub closed spec fn wf(&self) -> bool {
        self.cache.wf() && self.pool.wf()
    }

    /// In a well-formed dispatcher every assignment has endpoints and a cursor
    /// that points at one of them, and no address is pooled twice.
    pub proof fn lemma_wf(&self)
        requires
            self.wf(),
        ensures
            forall|category: Category|
                self.cache().contains_key(category) ==> (#[trigger] self.cache()[category]).wf(),
            self.pool().no_duplicates(),
    {
        self.cache.lemma_records_wf();
    }

    /// A dispatcher that knows no assignment and has no connection.
    pub fn new(refresh_after: u64) -> (dispatcher: Dispatcher)
        ensures
            dispatcher.wf(),
            dispatcher.cache() == Map::<Category, AssignmentModel>::empty(),
            dispatcher.pool() == Seq::<Seq<char>>::empty(),
            dispatcher.refresh_after() == refresh_after,
    {
        Dispatcher { cache: AssignmentCache::new(refresh_after), pool: ConnectionPool::new() }
    }

    /// How many connections are pooled.
    pub fn connections(&self) -> (n: usize)
        ensures
            n == self.pool().len(),
    {
        self.pool.len()
    }

    /// Begins the round for an item of `category` at second `now`.
    ///
    /// With nothing cached for the category the step is `Lookup`, and nothing
    /// changes. Otherwise the item goes to the endpoint at the category's
    /// cursor, which moves on by one; the step is `Send` where a connection to
    /// that endpoint is pooled and `Open` where none is. `refresh` is set where
    /// the cached list is older than the refresh interval and no refresh is
    /// under way.
    pub fn begin(&mut self, category: Category, now: u64) -> (step: Step)
        requires
            old(self).wf(),
        ensures
            final(self).wf(),
            final(self).refresh_after() == old(self).refresh_after(),
            final(self).pool() == old(self).pool(),
            final(self).cache() == spec_route(
                spec_resolve(old(self).cache(), category, now as nat, old(self).refresh_after()),
                category,
            ),
            step is Lookup ==> final(self).cache() == old(self).cache(),
            match step {
                Step::Lookup => !old(self).cache().contains_key(category),
                Step::Send { connection, address, refresh } => {
                    &&& old(self).cache().contains_key(category)
                    &&& address@ == old(self).cache()[category].current()
                    &&& refresh == old(self).cache()[category].refresh_due(
                        now as nat,
                        old(self).refresh_after(),
                    )
                    &&& connection < old(self).pool().len()
                    &&& old(self).pool()[connection as int] == address@
                },
                Step::Open { address, refresh } => {
                    &&& old(self).cache().contains_key(category)
                    &&& address@ == old(self).cache()[category].current()
                    &&& refresh == old(self).cache()[category].refresh_due(
                        now as nat,
                        old(self).refresh_after(),
                    )
                    &&& !old(self).pool().contains(address@)
                },
                Step::Skip => false,
                Step::Fatal => false,
            },
    {
        match self.cache.resolve(category, now) {
            Resolution::Missing => Step::Lookup,
            Resolution::Cached { addresses: _, refresh } => self.route(category, refresh),
        }
    }

    /// Goes on with the round after the lookup that `begin` asked for ended in
    /// `outcome` at second `now`.
    ///
    /// A reply with endpoints becomes the category's assignment, and the item
    /// goes to the first of them: the step is `Send` or `Open` as in `begin`.
    /// An undecodable reply is `Fatal`. After any other outcome the round is
    /// skipped. The pool is never touched, and unless the reply was good the
    /// category is as unknown as before.
    pub fn after_lookup(&mut self, category: Category, outcome: LookupOutcome, now: u64) -> (step:
        Step)
        requires
            old(self).wf(),
        ensures
            final(self).wf(),
            final(self).refresh_after() == old(self).refresh_after(),
            final(self).pool() == old(self).pool(),
            match step {
                Step::Lookup => false,
                Step::Send { connection, address, refresh } => {
                    &&& spec_reply(outcome) matches Some(addresses)
                    &&& address@ == addresses[0]
                    &&& !refresh
                    &&& connection < old(self).pool().len()
                    &&& old(self).pool()[connection as int] == address@
                    &&& final(self).cache() == spec_route(
                        spec_update(old(self).cache(), category, spec_reply(outcome), now as nat),
                        category,
                    )
                },
                Step::Open { address, refresh } => {
                    &&& spec_reply(outcome) matches Some(addresses)
                    &&& address@ == addresses[0]
                    &&& !refresh
                    &&& !old(self).pool().contains(address@)
                    &&& final(self).cache() == spec_route(
                        spec_update(old(self).cache(), category, spec_reply(outcome), now as nat),
                        category,
                    )
                },
                Step::Skip => {
                    &&& spec_verdict(outcome) == LookupVerdict::NotReady
                    &&& final(self).cache() == spec_update(
                        old(self).cache(),
                        category,
                        None,
                        now as nat,
                    )
                },
                Step::Fatal => {
                    &&& spec_verdict(outcome) == LookupVerdict::Fatal
                    &&& final(self).cache() == spec_update(
                        old(self).cache(),
                        category,
                        None,
                        now as nat,
                    )
                },
            },
            !(step is Send || step is Open) && !old(self).cache().contains_key(category)
                ==> final(self).cache() == old(self).cache(),
    {
        match self.cache.update_assignments(category, outcome, now) {
            LookupVerdict::Updated => self.route(category, false),
            LookupVerdict::NotReady => Step::Skip,
            LookupVerdict::Fatal => Step::Fatal,
        }
    }

    /// Goes on with the round after the caller tried to open the connection
    /// that an `Open` step asked for. An open connection is pooled, unless one
    /// to the same address is pooled already, and the step is `Send` over the
    /// pooled one. A failure skips the round and leaves the pool as it was.
    pub fn after_open(&mut self, address: String, opened: bool) -> (step: Step)
        requires
            old(self).wf(),
        ensures
            final(self).wf(),
            final(self).refresh_after() == old(self).refresh_after(),
            final(self).cache() == old(self).cache(),
            match step {
                Step::Send { connection, address: target, refresh } => {
                    &&& opened
                    &&& target@ == address@
                    &&& !refresh
                    &&& final(self).pool() == spec_opened(old(self).pool(), address@)
                    &&& connection < final(self).pool().len()
                    &&& final(self).pool()[connection as int] == address@
                },
                Step::Skip => !opened && final(self).pool() == old(self).pool(),
                _ => false,
            },
    {
        if opened {
            let target = address.clone();
            let connection = self.pool.opened(address);
            Step::Send { connection, address: target, refresh: false }
        } else {
            Step::Skip
        }
    }

    /// Takes the outcome of a background refresh of `category` that ended at
    /// second `now`. A reply with endpoints replaces the category's assignment
    /// and puts its cursor back to the start; any other outcome leaves list and
    /// cursor alone. Either way the next stale `begin` may start a refresh
    /// again.
    pub fn refresh_done(&mut self, category: Category, outcome: LookupOutcome, now: u64) -> (verdict:
        LookupVerdict)
        requires
            old(self).wf(),
        ensures
            final(self).wf(),
            final(self).refresh_after() == old(self).refresh_after(),
            final(self).pool() == old(self).pool(),
            verdict == spec_verdict(outcome),
            final(self).cache() == spec_update(
                old(self).cache(),
                category,
                spec_reply(outcome),
                now as nat,
            ),
    {
        self.cache.update_assignments(category, outcome, now)
    }

    fn route(&mut self, category: Category, refresh: bool) -> (step: Step)
        requires
            old(self).wf(),
            old(self).cache().contains_key(category),
        ensures
            final(self).wf(),
            final(self).refresh_after() == old(self).refresh_after(),
            final(self).pool() == old(self).pool(),
            final(self).cache() == spec_route(old(self).cache(), category),
            match step {
                Step::Send { connection, address, refresh: flag } => {
                    &&& address@ == old(self).cache()[category].current()
                    &&& flag == refresh
                    &&& connection < old(self).pool().len()
                    &&& old(self).pool()[connection as int] == address@
                },
                Step::Open { address, refresh: flag } => {
                    &&& address@ == old(self).cache()[category].current()
                    &&& flag == refresh
                    &&& !old(self).pool().contains(address@)
                },
                _ => false,
            },
    {
        match self.cache.next_endpoint(category) {
            Some(address) => match self.pool.find(&address) {
                Some(connection) => Step::Send { connection, address, refresh },
                None => Step::Open { address, refresh },
            },
            None => Step::Skip,
        }
    }
}

} // verus!
