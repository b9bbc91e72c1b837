//! The assignment cache: for each category the endpoints that currently serve it,
//! when that list was fetched, whether a refresh is under way, and the
//! round-robin cursor of the router.
//!
//! The cache never talks to the lookup service itself. `resolve` says whether a
//! lookup is needed, the caller performs it, and `update_assignments` takes what
//! came back. Every operation works on one consistent view of a category's
//! record, so a replaced list is never seen beside a cursor of the old one.

use vstd::arithmetic::div_mod::{
    lemma_add_mod_noop_right, lemma_mod_add_multiples_vanish, lemma_mod_equivalence,
    lemma_mod_pos_bound, lemma_small_mod,
};
use vstd::prelude::*;
use crate::address::{clone_addresses, texts};
use crate::category::{Category, CATEGORY_COUNT};

verus! {

/// Seconds after which a cached assignment is refreshed in the background.
pub const REFRESH_INTERVAL_SECS: u64 = 3;

/// What the cache holds for one category, as mathematical values.
pub struct AssignmentModel {
    /// The endpoints, in the order in which the lookup service gave them.
    pub addresses: Seq<Seq<char>>,
    /// The second at which the list was fetched.
    pub fetched_at: nat,
    /// The position of the endpoint that is used next.
    pub cursor: nat,
    /// Whether a background refresh is under way.
    pub refreshing: bool,
}

impl AssignmentModel {
    /// The list is not empty and the cursor points into it.
    pub open spec fn wf(self) -> bool {
        self.cursor < self.addresses.len()
    }

    /// A list that was fetched at `now`, with the cursor at its start.
    pub open spec fn fresh(addresses: Seq<Seq<char>>, now: nat) -> AssignmentModel {
        AssignmentModel { addresses, fetched_at: now, cursor: 0, refreshing: false }
    }

    /// Whether the list is older than `interval` seconds at `now`.
    pub open spec fn is_stale(self, now: nat, interval: nat) -> bool {
        now - self.fetched_at > interval
    }

    /// Whether a call of `resolve` at `now` has to start a refresh: the list is
    /// stale and no refresh is under way.
    pub open spec fn refresh_due(self, now: nat, interval: nat) -> bool {
        self.is_stale(now, interval) && !self.refreshing
    }

    /// The endpoint that the router hands out next.
    pub open spec fn current(self) -> Seq<char> {
        self.addresses[self.cursor as int]
    }

    /// The record after the router has handed out one endpoint.
    pub open spec fn advance(self) -> AssignmentModel {
        AssignmentModel {
            cursor: ((self.cursor as int + 1) % (self.addresses.len() as int)) as nat,
            ..self
        }
    }

    /// The record after `k` endpoints have been handed out.
    pub open spec fn advance_by(self, k: nat) -> AssignmentModel
        decreases k,
    {
        if k == 0 {
            self
        } else {
            self.advance().advance_by((k - 1) as nat)
        }
    }

    /// Whether two records have the same endpoints, of the same age, with the
    /// cursor at the same place, so that the router goes on alike with both.
    pub open spec fn same_route(self, other: AssignmentModel) -> bool {
        &&& self.addresses == other.addresses
        &&& self.fetched_at == other.fetched_at
        &&& self.cursor == other.cursor
    }

    /// The record with the refresh mark set to `refreshing`.
    pub open spec fn mark(self, refreshing: bool) -> AssignmentModel {
        AssignmentModel { refreshing, ..self }
    }
}

/// One category's record.
struct Assignment {
    addresses: Vec<String>,
    fetched_at: u64,
    cursor: usize,
    refreshing: bool,
}

impl View for Assignment {
    type V = AssignmentModel;

    closed spec fn view(&self) -> AssignmentModel {
        AssignmentModel {
            addresses: texts(self.addresses@),
            fetched_at: self.fetched_at as nat,
            cursor: self.cursor as nat,
            refreshing: self.refreshing,
        }
    }
}

/// What a lookup at the assignment service came to.
#[derive(Debug, PartialEq, Eq)]
pub enum LookupOutcome {
    /// The service could not be reached: no connection could be made, or the
    /// request could not be written to it.
    Unreachable,
    /// The service closed the connection without sending anything.
    Closed,
    /// Reading the reply failed.
    ReadFailed,
    /// A reply came that could not be decoded.
    Undecodable,
    /// The service named these endpoints, in this order.
    Reply(Vec<String>),
}

/// What the cache made of a lookup.
#[derive(Clone, Copy, Debug, PartialEq, Eq, Structural)]
pub enum LookupVerdict {
    /// The category's assignment was replaced and its cursor reset.
    Updated,
    /// The lookup gave no endpoints: lists and cursors are as they were.
    NotReady,
    /// The reply was undecodable: the peer speaks another protocol and the
    /// process has to end.
    Fatal,
}

/// What `resolve` found for a category.
#[derive(Debug, PartialEq, Eq)]
pub enum Resolution {
    /// Nothing is cached: a lookup has to complete before anything can be routed.
    Missing,
    /// The cached endpoints. Where `refresh` is set the caller starts one
    /// background lookup and reports its outcome with `update_assignments`.
    Cached { addresses: Vec<String>, refresh: bool },
}

/// The endpoints that a lookup outcome carries, if it is a usable reply.
pub open spec fn spec_reply(outcome: LookupOutcome) -> Option<Seq<Seq<char>>> {
    match outcome {
        LookupOutcome::Reply(addresses) => if addresses@.len() > 0 {
            Some(texts(addresses@))
        } else {
            None
        },
        _ => None,
    }
}

/// The verdict on a lookup outcome.
pub open spec fn spec_verdict(outcome: LookupOutcome) -> LookupVerdict {
    match outcome {
        LookupOutcome::Undecodable => LookupVerdict::Fatal,
        LookupOutcome::Reply(addresses) => if addresses@.len() > 0 {
            LookupVerdict::Updated
        } else {
            LookupVerdict::NotReady
        },
        _ => LookupVerdict::NotReady,
    }
}

/// The cache after a lookup for `category` ended at `now`: a usable reply
/// replaces the record, anything else only ends the refresh that was under way.
pub open spec fn spec_update(
    cache: Map<Category, AssignmentModel>,
    category: Category,
    reply: Option<Seq<Seq<char>>>,
    now: nat,
) -> Map<Category, AssignmentModel> {
    match reply {
        Some(addresses) => cache.insert(category, AssignmentModel::fresh(addresses, now)),
        None => if cache.contains_key(category) {
            cache.insert(category, cache[category].mark(false))
        } else {
            cache
        },
    }
}

/// The cache after `resolve` was called for `category` at `now`.
pub open spec fn spec_resolve(
    cache: Map<Category, AssignmentModel>,
    category: Category,
    now: nat,
    interval: nat,
) -> Map<Category, AssignmentModel> {
    if cache.contains_key(category) && cache[category].refresh_due(now, interval) {
        cache.insert(category, cache[category].mark(true))
    } else {
        cache
    }
}

/// The cache after the router handed out one endpoint of `category`.
pub open spec fn spec_route(cache: Map<Category, AssignmentModel>, category: Category) -> Map<
    Category,
    AssignmentModel,
> {
    if cache.contains_key(category) {
        cache.insert(category, cache[category].advance())
    } else {
        cache
    }
}

/// The cache after the router handed out `k` endpoints of `category`.
pub open spec fn spec_route_times(
    cache: Map<Category, AssignmentModel>,
    category: Category,
    k: nat,
) -> Map<Category, AssignmentModel>
    decreases k,
{
    if k == 0 {
        cache
    } else {
        spec_route_times(spec_route(cache, category), category, (k - 1) as nat)
    }
}

/// The endpoint of `category` that the router hands out after `k` others.
pub open spec fn spec_handed_out(
    cache: Map<Category, AssignmentModel>,
    category: Category,
    k: nat,
) -> Seq<char> {
    spec_route_times(cache, category, k)[category].current()
}

/// The position in the list of `record` that is handed out after `k` others.
pub open spec fn spec_nth_position(record: AssignmentModel, k: nat) -> int {
    (record.cursor as int + k as int) % (record.addresses.len() as int)
}

/// Whether one of the next `count` calls hands out position `j` of the list.
pub open spec fn spec_visits(record: AssignmentModel, j: int, count: nat) -> bool {
    exists|k: nat| k < count && #[trigger] spec_nth_position(record, k) == j
}

/// The assignment cache with the router's cursors.
pub struct AssignmentCache {
    slots: Vec<Option<Assignment>>,
    refresh_after: u64,
}

impl View for AssignmentCache {
    type V = Map<Category, AssignmentModel>;

    closed spec fn view(&self) -> Map<Category, AssignmentModel> {
        Map::new(
            |c: Category| c.spec_index() < self.slots.len() && self.slots[c.spec_index()] is Some,
            |c: Category| self.slots[c.spec_index()]->0@,
        )
    }
}

impl AssignmentCache {
    /// Every category has a slot, and every record is well formed.
    pub closed spec fn wf(&self) -> bool {
        &&& self.slots.len() == CATEGORY_COUNT
        &&& forall|i: int|
            0 <= i < self.slots.len() && (#[trigger] self.slots[i]) is Some
                ==> self.slots[i]->0@.wf()
    }

    /// The age in seconds beyond which a record is refreshed.
    pub closed spec fn refresh_after(&self) -> nat {
        self.refresh_after as nat
    }

    /// In a well-formed cache every record has endpoints and a cursor that
    /// points at one of them.
    pub proof fn lemma_records_wf(&self)
        requires
            self.wf(),
        ensures
            forall|category: Category|
                self@.contains_key(category) ==> (#[trigger] self@[category]).wf(),
    {
    }

    /// An empty cache that refreshes records older than `refresh_after` seconds.
    pub fn new(refresh_after: u64) -> (cache: AssignmentCache)
        ensures
            cache.wf(),
            cache@ == Map::<Category, AssignmentModel>::empty(),
            cache.refresh_after() == refresh_after,
    {
        let mut slots: Vec<Option<Assignment>> = Vec::new();
        let mut i: usize = 0;
        while i < CATEGORY_COUNT
            invariant
                i <= CATEGORY_COUNT,
                slots.len() == i,
                forall|j: int| 0 <= j < i ==> slots[j] is None,
            decreases CATEGORY_COUNT - i,
        {
            slots.push(None);
            i += 1;
        }
        let cache = AssignmentCache { slots, refresh_after };
        cache
    }

    /// Takes what a lookup for `category` came to at second `now`.
    ///
    /// A reply that names at least one endpoint replaces the category's record:
    /// the new list, fetched at `now`, with the cursor at its start and no
    /// refresh under way. Any other outcome leaves list, age and cursor as they
    /// were and only ends the refresh that was under way. The verdict tells the
    /// caller whether to go on, to skip, or to end the process.
    pub fn update_assignments(
        &mut self,
        category: Category,
        outcome: LookupOutcome,
        now: u64,
    ) -> (verdict: LookupVerdict)
        requires
            old(self).wf(),
        ensures
            final(self).wf(),
            final(self).refresh_after() == old(self).refresh_after(),
            verdict == spec_verdict(outcome),
            final(self)@ == spec_update(old(self)@, category, spec_reply(outcome), now as nat),
            verdict == LookupVerdict::Updated ==> {
                &&& final(self)@.contains_key(category)
                &&& final(self)@[category].cursor == 0
            },
            verdict != LookupVerdict::Updated && !old(self)@.contains_key(category)
                ==> final(self)@ == old(self)@,
    {
        let idx = category.index();
        match outcome {
            LookupOutcome::Reply(addresses) => {
                if addresses.len() > 0 {
                    self.slots[idx] = Some(
                        Assignment { addresses, fetched_at: now, cursor: 0, refreshing: false },
                    );
                    LookupVerdict::Updated
                } else {
                    self.set_refreshing(category, false);
                    LookupVerdict::NotReady
                }
            },
            LookupOutcome::Undecodable => {
                self.set_refreshing(category, false);
                LookupVerdict::Fatal
            },
            _ => {
                self.set_refreshing(category, false);
                LookupVerdict::NotReady
            },
        }
    }

    /// Finds the endpoints of `category` at second `now`, without waiting.
    ///
    /// With nothing cached the answer is `Missing`. Otherwise the cached list is
    /// served as it stands, however old it is. Where it is older than the refresh
    /// interval and no refresh is under way, `refresh` is set and the record is
    /// marked, so that no second refresh is started before the first has ended.
    pub fn resolve(&mut self, category: Category, now: u64) -> (resolution: Resolution)
        requires
            old(self).wf(),
        ensures
            final(self).wf(),
            final(self).refresh_after() == old(self).refresh_after(),
            final(self)@ == spec_resolve(
                old(self)@,
                category,
                now as nat,
                old(self).refresh_after(),
            ),
            match resolution {
                Resolution::Missing => !old(self)@.contains_key(category),
                Resolution::Cached { addresses, refresh } => {
                    &&& old(self)@.contains_key(category)
                    &&& texts(addresses@) == old(self)@[category].addresses
                    &&& refresh == old(self)@[category].refresh_due(
                        now as nat,
                        old(self).refresh_after(),
                    )
                },
            },
    {
        let idx = category.index();
        let interval = self.refresh_after;
        let resolution = match &mut self.slots[idx] {
            Some(assignment) => {
                let stale = now > assignment.fetched_at && now - assignment.fetched_at > interval;
                let refresh = stale && !assignment.refreshing;
                if refresh {
                    assignment.refreshing = true;
                }
                Resolution::Cached { addresses: clone_addresses(&assignment.addresses), refresh }
            },
            None => Resolution::Missing,
        };
        resolution
    }

    /// Hands out the next endpoint of `category` and moves its cursor on by one,
    /// back to the start behind the last endpoint. `None` exactly when nothing is
    /// cached for the category.
    pub fn next_endpoint(&mut self, category: Category) -> (endpoint: Option<String>)
        requires
            old(self).wf(),
        ensures
            final(self).wf(),
            final(self).refresh_after() == old(self).refresh_after(),
            final(self)@ == spec_route(old(self)@, category),
            match endpoint {
                Some(address) => {
                    &&& old(self)@.contains_key(category)
                    &&& address@ == old(self)@[category].current()
                },
                None => !old(self)@.contains_key(category),
            },
    {
        let idx = category.index();
        let endpoint = match &mut self.slots[idx] {
            Some(assignment) => {
                let n = assignment.addresses.len();
                let i = assignment.cursor;
                let address = assignment.addresses[i].clone();
                assignment.cursor = (i + 1) % n;
                Some(address)
            },
            None => None,
        };
        endpoint
    }

    fn set_refreshing(&mut self, category: Category, refreshing: bool)
        requires
            old(self).wf(),
        ensures
            final(self).wf(),
            final(self).refresh_after() == old(self).refresh_after(),
            final(self)@ == (if old(self)@.contains_key(category) {
                old(self)@.insert(category, old(self)@[category].mark(refreshing))
            } else {
                old(self)@
            }),
    {
        let idx = category.index();
        match &mut self.slots[idx] {
            Some(assignment) => {
                assignment.refreshing = refreshing;
            },
            None => {},
        }
    }
}

/// Handing out `k` endpoints moves the cursor `k` places round the list and
/// changes nothing else.
pub proof fn lemma_advance_by(record: AssignmentModel, k: nat)
    requires
        record.wf(),
    ensures
        record.advance_by(k) == (AssignmentModel {
            cursor: spec_nth_position(record, k) as nat,
            ..record
        }),
        0 <= spec_nth_position(record, k) < record.addresses.len(),
    decreases k,
{
    let n = record.addresses.len() as int;
    let c = record.cursor as int;
    let steps = k as int;
    lemma_mod_pos_bound(c + steps, n);
    if k == 0 {
        lemma_small_mod(record.cursor, n as nat);
    } else {
        let next = record.advance();
        lemma_mod_pos_bound(c + 1, n);
        lemma_advance_by(next, (k - 1) as nat);
        lemma_add_mod_noop_right(steps - 1, c + 1, n);
    }
}

/// Routing `k` times changes the category's record as `k` single steps do, and
/// no other record.
pub proof fn lemma_route_times(cache: Map<Category, AssignmentModel>, category: Category, k: nat)
    requires
        cache.contains_key(category),
    ensures
        spec_route_times(cache, category, k) == cache.insert(
            category,
            cache[category].advance_by(k),
        ),
    decreases k,
{
    if k > 0 {
        lemma_route_times(spec_route(cache, category), category, (k - 1) as nat);
    }
}

/// Round robin: while a category's assignment stays as it is, the router hands
/// out its endpoints in list order, starting at the cursor and going round.
/// Any `n` consecutive calls, `n` being the length of the list, use every
/// position of the list exactly once, and after them the cache is as it was, so
/// that the call after those repeats the first.
pub proof fn lemma_round_robin(cache: Map<Category, AssignmentModel>, category: Category)
    requires
        cache.contains_key(category),
        cache[category].wf(),
    ensures
        forall|k: nat| #[trigger]
            spec_handed_out(cache, category, k) == cache[category].addresses[spec_nth_position(
                cache[category],
                k,
            )],
        forall|j: int|
            0 <= j < cache[category].addresses.len() ==> #[trigger] spec_visits(
                cache[category],
                j,
                cache[category].addresses.len(),
            ),
        forall|k1: nat, k2: nat|
            k1 < k2 < cache[category].addresses.len() ==> #[trigger] spec_nth_position(
                cache[category],
                k1,
            ) != #[trigger] spec_nth_position(cache[category], k2),
        spec_route_times(cache, category, cache[category].addresses.len()) == cache,
{
    let record = cache[category];
    let n = record.addresses.len() as int;
    let c = record.cursor as int;
    assert forall|k: nat| #[trigger]
        spec_handed_out(cache, category, k) == record.addresses[spec_nth_position(
            record,
            k,
        )] by {
        lemma_route_times(cache, category, k);
        lemma_advance_by(record, k);
    }
    assert forall|j: int| 0 <= j < n implies #[trigger] spec_visits(record, j, n as nat) by {
        let k: nat = if j >= c {
            (j - c) as nat
        } else {
            (j - c + n) as nat
        };
        if j >= c {
            lemma_small_mod(j as nat, n as nat);
        } else {
            lemma_mod_add_multiples_vanish(j, n);
            lemma_small_mod(j as nat, n as nat);
        }
        assert(spec_nth_position(record, k) == j);
    }
    assert forall|k1: nat, k2: nat| k1 < k2 < n implies #[trigger] spec_nth_position(record, k1)
        != #[trigger] spec_nth_position(record, k2) by {
        lemma_positions_differ(c, k1 as int, k2 as int, n);
    }
    lemma_route_times(cache, category, n as nat);
    lemma_advance_by(record, n as nat);
    lemma_mod_add_multiples_vanish(c, n);
    lemma_small_mod(c as nat, n as nat);
}

/// A new assignment starts at its first endpoint, wherever the cursor of the
/// old one stood, and leaves the other categories alone.
pub proof fn lemma_replacement_resets_cursor(
    cache: Map<Category, AssignmentModel>,
    category: Category,
    addresses: Seq<Seq<char>>,
    now: nat,
)
    requires
        addresses.len() > 0,
    ensures
        ({
            let replaced = spec_update(cache, category, Some(addresses), now);
            &&& replaced[category].cursor == 0
            &&& replaced[category].current() == addresses[0]
            &&& replaced[category].wf()
            &&& forall|other: Category|
                other != category ==> (replaced.contains_key(other) <==> cache.contains_key(
                    other,
                )) && replaced[other] == cache[other]
        }),
{
}

/// A list that was fetched at second `fetched` is served as it stands at every
/// `now` that is at most `interval` seconds later, and no lookup is asked for:
/// whatever the lookup service would answer by then does not show.
pub proof fn lemma_fresh_list_is_served(
    cache: Map<Category, AssignmentModel>,
    category: Category,
    addresses: Seq<Seq<char>>,
    fetched: nat,
    now: nat,
    interval: nat,
)
    requires
        now <= fetched + interval,
    ensures
        ({
            let installed = spec_update(cache, category, Some(addresses), fetched);
            &&& installed.contains_key(category)
            &&& installed[category].addresses == addresses
            &&& installed[category].cursor == 0
            &&& !installed[category].refresh_due(now, interval)
            &&& spec_resolve(installed, category, now, interval) == installed
        }),
{
}

/// Once `resolve` has asked for a refresh of a category it asks for no other,
/// however late it is called, until the outcome of the first has been taken;
/// and the list that it serves meanwhile is the one that was cached.
pub proof fn lemma_single_refresh(
    cache: Map<Category, AssignmentModel>,
    category: Category,
    now: nat,
    later: nat,
    interval: nat,
)
    requires
        cache.contains_key(category),
        cache[category].refresh_due(now, interval),
    ensures
        ({
            let marked = spec_resolve(cache, category, now, interval);
            &&& marked[category].addresses == cache[category].addresses
            &&& marked[category].cursor == cache[category].cursor
            &&& !marked[category].refresh_due(later, interval)
            &&& spec_resolve(marked, category, later, interval) == marked
        }),
{
}

/// Neither `resolve` nor a lookup that brought no endpoints disturbs the
/// router: the cache knows the same categories after as before, each with the
/// same endpoints and the cursor where it was.
pub proof fn lemma_route_is_kept(
    cache: Map<Category, AssignmentModel>,
    category: Category,
    now: nat,
    interval: nat,
)
    ensures
        forall|other: Category|
            cache.contains_key(other) <==> #[trigger] spec_resolve(
                cache,
                category,
                now,
                interval,
            ).contains_key(other),
        forall|other: Category|
            cache.contains_key(other) ==> (#[trigger] spec_resolve(
                cache,
                category,
                now,
                interval,
            )[other]).same_route(cache[other]),
        forall|other: Category|
            cache.contains_key(other) <==> #[trigger] spec_update(
                cache,
                category,
                None,
                now,
            ).contains_key(other),
        forall|other: Category|
            cache.contains_key(other) ==> (#[trigger] spec_update(
                cache,
                category,
                None,
                now,
            )[other]).same_route(cache[other]),
{
}

/// The first lookup for a category decides what is served: a reply with
/// endpoints is cached as it came, with the cursor at its first endpoint, and
/// after any other outcome the category is as unknown as before.
pub proof fn lemma_first_lookup(
    cache: Map<Category, AssignmentModel>,
    category: Category,
    outcome: LookupOutcome,
    now: nat,
)
    requires
        !cache.contains_key(category),
    ensures
        ({
            let after = spec_update(cache, category, spec_reply(outcome), now);
            match outcome {
                LookupOutcome::Reply(addresses) if addresses@.len() > 0 => {
                    &&& after.contains_key(category)
                    &&& after[category].addresses == texts(addresses@)
                    &&& after[category].current() == addresses@[0]@
                    &&& after[category].wf()
                },
                _ => after == cache,
            }
        }),
{
}

/// Round robin over a list that names no endpoint twice: `n` consecutive calls,
/// `n` being the length of the list, hand out every endpoint of the list, each
/// of them once, and the call after those hands out the first of them again.
pub proof fn lemma_round_robin_endpoints(
    cache: Map<Category, AssignmentModel>,
    category: Category,
)
    requires
        cache.contains_key(category),
        cache[category].wf(),
        cache[category].addresses.no_duplicates(),
    ensures
        forall|address: Seq<char>|
            cache[category].addresses.contains(address) ==> exists|k: nat|
                k < cache[category].addresses.len() && #[trigger] spec_handed_out(
                    cache,
                    category,
                    k,
                ) == address,
        forall|k1: nat, k2: nat|
            k1 < k2 < cache[category].addresses.len() ==> #[trigger] spec_handed_out(
                cache,
                category,
                k1,
            ) != #[trigger] spec_handed_out(cache, category, k2),
        spec_handed_out(cache, category, cache[category].addresses.len()) == spec_handed_out(
            cache,
            category,
            0,
        ),
{
    let record = cache[category];
    let n = record.addresses.len();
    lemma_round_robin(cache, category);
    assert forall|k: nat| 0 <= #[trigger] spec_nth_position(record, k) < n by {
        lemma_advance_by(record, k);
    }
    assert forall|address: Seq<char>| record.addresses.contains(address) implies exists|k: nat|
        k < n && #[trigger] spec_handed_out(cache, category, k) == address by {
        let j = choose|j: int| 0 <= j < n && record.addresses[j] == address;
        assert(spec_visits(record, j, n));
        let k = choose|k: nat| k < n && #[trigger] spec_nth_position(record, k) == j;
        assert(spec_handed_out(cache, category, k) == address);
    }
}

proof fn lemma_positions_differ(c: int, k1: int, k2: int, n: int)
    requires
        0 <= c < n,
        0 <= k1 < k2 < n,
    ensures
        (c + k1) % n != (c + k2) % n,
{
    lemma_mod_equivalence(c + k2, c + k1, n);
    lemma_small_mod((k2 - k1) as nat, n as nat);
}

} // verus!
