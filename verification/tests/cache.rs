use activity_graph::cache::{CacheState, Claim, Reading};

fn ready(state: &CacheState) -> (String, String, Option<u64>) {
    match state.get() {
        Reading::Ready(snapshot) => {
            (snapshot.html().clone(), snapshot.css().clone(), snapshot.produced_at())
        }
        other => panic!("expected a snapshot, got {:?}", other),
    }
}

fn page(n: u32) -> Option<(String, String)> {
    Some((format!("<html>{}</html>", n), format!("body {{ order: {} }}", n)))
}

#[test]
fn a_new_cache_is_stale_idle_and_tells_readers_to_wait() {
    let state = CacheState::new(10, false);
    assert!(state.is_stale(0));
    assert!(state.is_stale(u64::MAX));
    assert!(!state.is_refreshing());
    assert!(!state.is_initialized());
    assert!(matches!(state.get(), Reading::Wait));
}

#[test]
fn of_many_attempts_only_the_first_wins_the_claim() {
    let mut state = CacheState::new(10, false);
    let mut won = 0;
    for now in [5u64, 5, 6, 7, 100] {
        if state.maybe_refresh(now) != Claim::Denied {
            won += 1;
        }
    }
    assert_eq!(won, 1);
    assert!(state.is_refreshing());
}

#[test]
fn the_claim_is_free_again_after_the_refresh() {
    let mut state = CacheState::new(10, false);
    assert_eq!(state.maybe_refresh(0), Claim::Granted { restore: false });
    assert_eq!(state.maybe_refresh(0), Claim::Denied);
    assert!(!state.finish_refresh(page(1), 3));
    assert!(!state.is_refreshing());
    // fresh until 3 + 10
    assert_eq!(state.maybe_refresh(12), Claim::Denied);
    assert!(!state.is_stale(12));
    assert!(state.is_stale(13));
    assert_eq!(state.maybe_refresh(13), Claim::Granted { restore: false });
    assert_eq!(state.maybe_refresh(14), Claim::Denied);
}

#[test]
fn readers_wait_until_the_first_refresh_is_done() {
    let mut state = CacheState::new(10, false);
    assert!(matches!(state.get(), Reading::Wait));
    state.maybe_refresh(1);
    assert!(matches!(state.get(), Reading::Wait));
    state.finish_refresh(page(1), 2);
    assert!(state.is_initialized());
    assert_eq!(ready(&state), ("<html>1</html>".to_string(), "body { order: 1 }".to_string(), Some(2)));
}

#[test]
fn a_stale_snapshot_is_served_while_the_next_is_made() {
    let mut state = CacheState::new(10, false);
    state.maybe_refresh(0);
    state.finish_refresh(page(1), 0);
    assert_eq!(state.maybe_refresh(50), Claim::Granted { restore: false });
    // the refresh is in flight: readers get the old page and stylesheet
    assert_eq!(ready(&state), ("<html>1</html>".to_string(), "body { order: 1 }".to_string(), Some(0)));
    state.finish_refresh(page(2), 51);
    assert_eq!(ready(&state), ("<html>2</html>".to_string(), "body { order: 2 }".to_string(), Some(51)));
}

#[test]
fn a_failed_refresh_leaves_the_snapshot_and_releases_the_claim() {
    let mut state = CacheState::new(10, true);
    state.maybe_refresh(0);
    state.finish_refresh(page(1), 0);
    state.maybe_refresh(20);
    assert!(!state.finish_refresh(None, 21));
    assert!(!state.is_refreshing());
    assert_eq!(ready(&state), ("<html>1</html>".to_string(), "body { order: 1 }".to_string(), Some(0)));
    // still stale: the next attempt refreshes again
    assert_eq!(state.maybe_refresh(21), Claim::Granted { restore: false });
}

#[test]
fn a_failed_first_refresh_leaves_nothing_to_serve() {
    let mut state = CacheState::new(10, false);
    state.maybe_refresh(0);
    state.finish_refresh(None, 1);
    assert!(state.is_initialized());
    assert!(matches!(state.get(), Reading::Unavailable));
    assert_eq!(state.maybe_refresh(1), Claim::Granted { restore: false });
}

#[test]
fn a_persisted_snapshot_is_served_before_the_first_refresh_is_done() {
    let mut state = CacheState::new(10, true);
    assert_eq!(state.maybe_refresh(7), Claim::Granted { restore: true });
    state.restore(page(9));
    assert!(state.is_initialized());
    assert!(state.is_refreshing());
    assert_eq!(ready(&state), ("<html>9</html>".to_string(), "body { order: 9 }".to_string(), None));
    assert!(state.is_stale(7));
    // persist what the refresh made
    assert!(state.finish_refresh(page(1), 8));
    assert_eq!(ready(&state).2, Some(8));
    // later refreshes do not look for the persisted snapshot again
    assert_eq!(state.maybe_refresh(18), Claim::Granted { restore: false });
}

#[test]
fn a_persisted_snapshot_is_installed_by_the_holder_of_the_first_claim_only() {
    let mut state = CacheState::new(10, true);
    state.restore(page(9));
    assert!(matches!(state.get(), Reading::Wait));
    state.maybe_refresh(0);
    state.restore(None);
    assert!(matches!(state.get(), Reading::Wait));
    state.finish_refresh(page(1), 0);
    state.maybe_refresh(10);
    state.restore(page(9));
    assert_eq!(ready(&state).0, "<html>1</html>");
}

#[test]
fn finishing_without_a_claim_changes_nothing() {
    let mut state = CacheState::new(10, true);
    assert!(!state.finish_refresh(page(1), 0));
    assert!(!state.is_initialized());
    assert!(matches!(state.get(), Reading::Wait));
}

#[test]
fn a_snapshot_with_no_time_to_live_is_always_stale() {
    let mut state = CacheState::new(0, false);
    state.maybe_refresh(5);
    state.finish_refresh(page(1), 5);
    assert!(state.is_stale(5));
    assert_eq!(state.maybe_refresh(5), Claim::Granted { restore: false });
}

#[test]
fn a_snapshot_whose_time_to_live_never_ends_stays_fresh() {
    let mut state = CacheState::new(u64::MAX, false);
    state.maybe_refresh(5);
    state.finish_refresh(page(1), 5);
    assert!(!state.is_stale(u64::MAX));
    assert_eq!(state.maybe_refresh(u64::MAX), Claim::Denied);
}
