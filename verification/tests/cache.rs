use dispatch_client::cache::{
    AssignmentCache, LookupOutcome, LookupVerdict, Resolution, REFRESH_INTERVAL_SECS,
};
use dispatch_client::category::Category;

fn list(addresses: &[&str]) -> Vec<String> {
    let mut out = Vec::new();
    for address in addresses {
        out.push(address.to_string());
    }
    out
}

fn cached(addresses: &[&str], refresh: bool) -> Resolution {
    Resolution::Cached { addresses: list(addresses), refresh }
}

#[test]
fn the_refresh_interval_is_three_seconds() {
    assert_eq!(REFRESH_INTERVAL_SECS, 3);
}

#[test]
fn nothing_is_cached_at_first() {
    let mut cache = AssignmentCache::new(3);
    assert_eq!(cache.resolve(Category::Anger, 0), Resolution::Missing);
    assert_eq!(cache.resolve(Category::Happiness, 100), Resolution::Missing);
    assert_eq!(cache.next_endpoint(Category::Anger), None);
}

#[test]
fn the_first_lookup_is_what_resolve_serves() {
    let mut cache = AssignmentCache::new(3);
    let reply = LookupOutcome::Reply(list(&["10.0.0.1:9000", "10.0.0.2:9000"]));
    assert_eq!(cache.update_assignments(Category::Anger, reply, 5), LookupVerdict::Updated);
    assert_eq!(
        cache.resolve(Category::Anger, 5),
        cached(&["10.0.0.1:9000", "10.0.0.2:9000"], false)
    );
    assert_eq!(cache.resolve(Category::Happiness, 5), Resolution::Missing);
}

#[test]
fn a_failed_first_lookup_leaves_the_category_unknown() {
    let mut cache = AssignmentCache::new(3);
    assert_eq!(
        cache.update_assignments(Category::Anger, LookupOutcome::Unreachable, 1),
        LookupVerdict::NotReady
    );
    assert_eq!(cache.resolve(Category::Anger, 1), Resolution::Missing);
    assert_eq!(
        cache.update_assignments(Category::Anger, LookupOutcome::Closed, 2),
        LookupVerdict::NotReady
    );
    assert_eq!(cache.resolve(Category::Anger, 2), Resolution::Missing);
    assert_eq!(
        cache.update_assignments(Category::Anger, LookupOutcome::ReadFailed, 3),
        LookupVerdict::NotReady
    );
    assert_eq!(cache.resolve(Category::Anger, 3), Resolution::Missing);
    assert_eq!(cache.next_endpoint(Category::Anger), None);
}

#[test]
fn an_undecodable_reply_is_fatal() {
    let mut cache = AssignmentCache::new(3);
    assert_eq!(
        cache.update_assignments(Category::Anger, LookupOutcome::Undecodable, 1),
        LookupVerdict::Fatal
    );
    assert_eq!(cache.resolve(Category::Anger, 1), Resolution::Missing);
}

#[test]
fn a_reply_without_endpoints_is_no_assignment() {
    let mut cache = AssignmentCache::new(3);
    assert_eq!(
        cache.update_assignments(Category::Anger, LookupOutcome::Reply(Vec::new()), 1),
        LookupVerdict::NotReady
    );
    assert_eq!(cache.resolve(Category::Anger, 1), Resolution::Missing);
    cache.update_assignments(Category::Anger, LookupOutcome::Reply(list(&["a:1"])), 2);
    assert_eq!(
        cache.update_assignments(Category::Anger, LookupOutcome::Reply(Vec::new()), 3),
        LookupVerdict::NotReady
    );
    assert_eq!(cache.resolve(Category::Anger, 3), cached(&["a:1"], false));
}

#[test]
fn endpoints_are_handed_out_in_turn() {
    let mut cache = AssignmentCache::new(3);
    let reply = LookupOutcome::Reply(list(&["10.0.0.1:9000", "10.0.0.2:9000"]));
    cache.update_assignments(Category::Anger, reply, 0);
    assert_eq!(cache.next_endpoint(Category::Anger), Some("10.0.0.1:9000".to_string()));
    assert_eq!(cache.next_endpoint(Category::Anger), Some("10.0.0.2:9000".to_string()));
    assert_eq!(cache.next_endpoint(Category::Anger), Some("10.0.0.1:9000".to_string()));
    assert_eq!(cache.next_endpoint(Category::Anger), Some("10.0.0.2:9000".to_string()));
    assert_eq!(cache.next_endpoint(Category::Anger), Some("10.0.0.1:9000".to_string()));
}

#[test]
fn a_round_uses_every_endpoint_once_and_then_starts_over() {
    let addresses = ["a:1", "b:2", "c:3", "d:4", "e:5"];
    let mut cache = AssignmentCache::new(3);
    cache.update_assignments(Category::Happiness, LookupOutcome::Reply(list(&addresses)), 0);
    cache.next_endpoint(Category::Happiness);
    cache.next_endpoint(Category::Happiness);
    let mut round = Vec::new();
    for _ in 0..addresses.len() {
        round.push(cache.next_endpoint(Category::Happiness).unwrap());
    }
    assert_eq!(round, list(&["c:3", "d:4", "e:5", "a:1", "b:2"]));
    for address in addresses {
        assert_eq!(round.iter().filter(|handed| handed.as_str() == address).count(), 1);
    }
    assert_eq!(cache.next_endpoint(Category::Happiness), Some(round[0].clone()));
}

#[test]
fn a_single_endpoint_is_handed_out_every_time() {
    let mut cache = AssignmentCache::new(3);
    cache.update_assignments(Category::Anger, LookupOutcome::Reply(list(&["only:1"])), 0);
    for _ in 0..4 {
        assert_eq!(cache.next_endpoint(Category::Anger), Some("only:1".to_string()));
    }
}

#[test]
fn a_new_assignment_starts_at_its_first_endpoint() {
    let mut cache = AssignmentCache::new(3);
    cache.update_assignments(Category::Anger, LookupOutcome::Reply(list(&["a:1", "b:2", "c:3"])), 0);
    cache.next_endpoint(Category::Anger);
    cache.next_endpoint(Category::Anger);
    cache.update_assignments(Category::Anger, LookupOutcome::Reply(list(&["x:1", "y:2"])), 1);
    assert_eq!(cache.next_endpoint(Category::Anger), Some("x:1".to_string()));
    assert_eq!(cache.next_endpoint(Category::Anger), Some("y:2".to_string()));
    assert_eq!(cache.next_endpoint(Category::Anger), Some("x:1".to_string()));
    cache.update_assignments(Category::Anger, LookupOutcome::Reply(list(&["x:1", "y:2"])), 2);
    assert_eq!(cache.next_endpoint(Category::Anger), Some("x:1".to_string()));
}

#[test]
fn a_failed_refresh_keeps_list_and_cursor() {
    let mut cache = AssignmentCache::new(3);
    cache.update_assignments(Category::Anger, LookupOutcome::Reply(list(&["a:1", "b:2", "c:3"])), 0);
    cache.next_endpoint(Category::Anger);
    assert_eq!(
        cache.update_assignments(Category::Anger, LookupOutcome::Unreachable, 9),
        LookupVerdict::NotReady
    );
    assert_eq!(cache.next_endpoint(Category::Anger), Some("b:2".to_string()));
    assert_eq!(cache.resolve(Category::Anger, 0), cached(&["a:1", "b:2", "c:3"], false));
}

#[test]
fn categories_do_not_share_a_cursor() {
    let mut cache = AssignmentCache::new(3);
    cache.update_assignments(Category::Anger, LookupOutcome::Reply(list(&["a:1", "b:2"])), 0);
    cache.update_assignments(Category::Happiness, LookupOutcome::Reply(list(&["x:1", "y:2"])), 0);
    assert_eq!(cache.next_endpoint(Category::Anger), Some("a:1".to_string()));
    assert_eq!(cache.next_endpoint(Category::Happiness), Some("x:1".to_string()));
    assert_eq!(cache.next_endpoint(Category::Anger), Some("b:2".to_string()));
    assert_eq!(cache.next_endpoint(Category::Anger), Some("a:1".to_string()));
    assert_eq!(cache.next_endpoint(Category::Happiness), Some("y:2".to_string()));
}

#[test]
fn a_list_within_the_interval_is_served_without_refresh() {
    let mut cache = AssignmentCache::new(3);
    cache.update_assignments(Category::Anger, LookupOutcome::Reply(list(&["a:1", "b:2"])), 10);
    for now in 10..=13 {
        assert_eq!(cache.resolve(Category::Anger, now), cached(&["a:1", "b:2"], false));
    }
}

#[test]
fn a_stale_list_is_served_and_refreshed_once() {
    let mut cache = AssignmentCache::new(3);
    cache.update_assignments(Category::Anger, LookupOutcome::Reply(list(&["a:1", "b:2"])), 10);
    assert_eq!(cache.resolve(Category::Anger, 14), cached(&["a:1", "b:2"], true));
    assert_eq!(cache.resolve(Category::Anger, 14), cached(&["a:1", "b:2"], false));
    assert_eq!(cache.resolve(Category::Anger, 1000), cached(&["a:1", "b:2"], false));
}

#[test]
fn a_refresh_that_failed_is_tried_again() {
    let mut cache = AssignmentCache::new(3);
    cache.update_assignments(Category::Anger, LookupOutcome::Reply(list(&["a:1"])), 10);
    assert_eq!(cache.resolve(Category::Anger, 20), cached(&["a:1"], true));
    cache.update_assignments(Category::Anger, LookupOutcome::ReadFailed, 21);
    assert_eq!(cache.resolve(Category::Anger, 22), cached(&["a:1"], true));
    assert_eq!(cache.resolve(Category::Anger, 23), cached(&["a:1"], false));
}

#[test]
fn a_refresh_replaces_the_list_and_its_age() {
    let mut cache = AssignmentCache::new(3);
    cache.update_assignments(Category::Anger, LookupOutcome::Reply(list(&["a:1", "b:2"])), 10);
    cache.next_endpoint(Category::Anger);
    assert_eq!(cache.resolve(Category::Anger, 20), cached(&["a:1", "b:2"], true));
    cache.update_assignments(Category::Anger, LookupOutcome::Reply(list(&["c:3", "d:4"])), 21);
    assert_eq!(cache.resolve(Category::Anger, 24), cached(&["c:3", "d:4"], false));
    assert_eq!(cache.next_endpoint(Category::Anger), Some("c:3".to_string()));
    assert_eq!(cache.resolve(Category::Anger, 25), cached(&["c:3", "d:4"], true));
}

#[test]
fn a_clock_that_went_back_makes_nothing_stale() {
    let mut cache = AssignmentCache::new(3);
    cache.update_assignments(Category::Anger, LookupOutcome::Reply(list(&["a:1"])), 100);
    assert_eq!(cache.resolve(Category::Anger, 0), cached(&["a:1"], false));
    assert_eq!(cache.resolve(Category::Anger, 99), cached(&["a:1"], false));
}

#[test]
fn the_interval_is_what_the_cache_was_made_with() {
    let mut cache = AssignmentCache::new(10);
    cache.update_assignments(Category::Anger, LookupOutcome::Reply(list(&["a:1"])), 0);
    assert_eq!(cache.resolve(Category::Anger, 10), cached(&["a:1"], false));
    assert_eq!(cache.resolve(Category::Anger, 11), cached(&["a:1"], true));
    let mut eager = AssignmentCache::new(0);
    eager.update_assignments(Category::Anger, LookupOutcome::Reply(list(&["a:1"])), 0);
    assert_eq!(eager.resolve(Category::Anger, 0), cached(&["a:1"], false));
    assert_eq!(eager.resolve(Category::Anger, 1), cached(&["a:1"], true));
    let mut late = AssignmentCache::new(u64::MAX);
    late.update_assignments(Category::Anger, LookupOutcome::Reply(list(&["a:1"])), 0);
    assert_eq!(late.resolve(Category::Anger, u64::MAX), cached(&["a:1"], false));
}
