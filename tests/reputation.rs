use sync_gatekeeper::handshake::{advance, settle, HandshakeEvent, HandshakeOutcome, HandshakePhase};
use sync_gatekeeper::reputation::{
    ipv4_key, Admission, ReputationStore, BAN_DURATION_MS, MAX_FAILED_ATTEMPTS,
};

#[test]
fn ipv4_key_is_mapped_address() {
    assert_eq!(ipv4_key(10, 0, 0, 5), 0xffff_0a00_0005);
    assert_ne!(ipv4_key(10, 0, 0, 5), ipv4_key(10, 0, 0, 7));
}

#[test]
fn fresh_store_admits() {
    let mut store = ReputationStore::new();
    let a = ipv4_key(192, 168, 1, 1);
    assert_eq!(store.check(a, 0), Admission::Admit);
    assert_eq!(store.failed_attempts(a), 0);
    assert_eq!(store.banned_at(a), None);
}

#[test]
fn threshold_failures_ban_and_reset_counter() {
    let mut store = ReputationStore::new();
    let a = ipv4_key(10, 0, 0, 1);
    for i in 0..MAX_FAILED_ATTEMPTS {
        let banned = store.record_failure(a, 1_000 + i);
        assert_eq!(banned, i + 1 == MAX_FAILED_ATTEMPTS);
    }
    assert_eq!(store.failed_attempts(a), 0);
    assert!(matches!(store.check(a, 1_100), Admission::Reject { .. }));
}

#[test]
fn success_lifts_ban() {
    let mut store = ReputationStore::new();
    let a = ipv4_key(10, 0, 0, 2);
    for _ in 0..MAX_FAILED_ATTEMPTS {
        store.record_failure(a, 5_000);
    }
    assert!(matches!(store.check(a, 5_001), Admission::Reject { .. }));
    store.record_success(a);
    assert_eq!(store.check(a, 5_002), Admission::Admit);
    assert_eq!(store.banned_at(a), None);
}

#[test]
fn ban_expires_after_duration() {
    let mut store = ReputationStore::new();
    let a = ipv4_key(10, 0, 0, 3);
    let t = 7_000;
    for _ in 0..MAX_FAILED_ATTEMPTS {
        store.record_failure(a, t);
    }
    assert_eq!(store.banned_at(a), Some(t));
    assert_eq!(store.check(a, t + BAN_DURATION_MS - 1), Admission::Reject { remaining_ms: 1 });
    assert_eq!(store.check(a, t + BAN_DURATION_MS), Admission::Admit);
    assert_eq!(store.banned_at(a), None);
    assert_eq!(store.failed_attempts(a), 0);
    assert_eq!(store.check(a, t + BAN_DURATION_MS + 1), Admission::Admit);
}

#[test]
fn failure_during_ban_survives_expiry() {
    let mut store = ReputationStore::new();
    let a = ipv4_key(10, 0, 0, 4);
    for _ in 0..MAX_FAILED_ATTEMPTS {
        store.record_failure(a, 0);
    }
    assert_eq!(store.failed_attempts(a), 0);
    store.record_failure(a, 10);
    assert_eq!(store.failed_attempts(a), 1);
    assert_eq!(store.check(a, BAN_DURATION_MS), Admission::Admit);
    assert_eq!(store.banned_at(a), None);
    assert_eq!(store.failed_attempts(a), 1);
}

#[test]
fn counter_is_fresh_when_ban_expires() {
    let mut store = ReputationStore::new();
    let a = ipv4_key(10, 0, 0, 6);
    for _ in 0..MAX_FAILED_ATTEMPTS {
        store.record_failure(a, 0);
    }
    assert_eq!(store.check(a, BAN_DURATION_MS), Admission::Admit);
    assert_eq!(store.failed_attempts(a), 0);
}

#[test]
fn rejecting_check_keeps_counter() {
    let mut store = ReputationStore::new();
    let a = ipv4_key(10, 0, 0, 13);
    for _ in 0..MAX_FAILED_ATTEMPTS {
        store.record_failure(a, 0);
    }
    store.record_failure(a, 5);
    store.record_failure(a, 6);
    assert!(matches!(store.check(a, 100), Admission::Reject { .. }));
    assert_eq!(store.failed_attempts(a), 2);
    assert_eq!(store.banned_at(a), Some(0));
}

#[test]
fn counter_counts_each_failure_once() {
    let mut store = ReputationStore::new();
    let a = ipv4_key(10, 0, 0, 9);
    let mut bans = 0;
    for i in 0..(2 * MAX_FAILED_ATTEMPTS + 7) {
        if store.record_failure(a, i) {
            bans += 1;
        }
    }
    assert_eq!(bans, 2);
    assert_eq!(store.failed_attempts(a), 7);
}

#[test]
fn forty_nine_failures_then_success() {
    let mut store = ReputationStore::new();
    let a = ipv4_key(10, 0, 0, 5);
    for _ in 0..49 {
        assert!(!store.record_failure(a, 100));
    }
    assert_eq!(store.failed_attempts(a), 49);
    store.record_success(a);
    assert_eq!(store.failed_attempts(a), 0);
    assert_eq!(store.banned_at(a), None);
    assert_eq!(store.check(a, 200), Admission::Admit);
}

#[test]
fn fiftieth_failure_rejects_for_full_duration() {
    let mut store = ReputationStore::new();
    let a = ipv4_key(10, 0, 0, 7);
    for _ in 0..49 {
        store.record_failure(a, 50_000);
    }
    assert!(store.record_failure(a, 60_000));
    assert_eq!(store.check(a, 60_000), Admission::Reject { remaining_ms: 600_000 });
    let mut last = 600_000;
    for now in [60_500, 61_000, 120_000, 659_999] {
        match store.check(a, now) {
            Admission::Reject { remaining_ms } => {
                assert!(remaining_ms < last);
                last = remaining_ms;
            }
            Admission::Admit => panic!("ban ended early"),
        }
    }
    assert_eq!(last, 1);
}

#[test]
fn other_addresses_are_unaffected() {
    let mut store = ReputationStore::new();
    let a = ipv4_key(10, 0, 0, 7);
    let b = ipv4_key(10, 0, 0, 8);
    for _ in 0..MAX_FAILED_ATTEMPTS {
        store.record_failure(a, 0);
    }
    assert_eq!(store.check(b, 1), Admission::Admit);
    assert_eq!(store.failed_attempts(b), 0);
}

#[test]
fn handshake_first_event_decides() {
    let p = advance(HandshakePhase::Started, HandshakeEvent::DeadlineElapsed);
    assert_eq!(p, HandshakePhase::Finished(HandshakeOutcome::TimedOut));
    assert_eq!(advance(p, HandshakeEvent::Completed), p);
    assert_eq!(
        advance(HandshakePhase::Started, HandshakeEvent::Completed),
        HandshakePhase::Finished(HandshakeOutcome::Succeeded)
    );
    assert_eq!(
        advance(HandshakePhase::Started, HandshakeEvent::BackendError),
        HandshakePhase::Finished(HandshakeOutcome::Failed)
    );
}

#[test]
fn timeout_counts_like_failure() {
    let a = ipv4_key(10, 0, 0, 11);
    let mut timed_out = ReputationStore::new();
    let mut failed = ReputationStore::new();
    for i in 0..MAX_FAILED_ATTEMPTS {
        let x = settle(&mut timed_out, a, HandshakeOutcome::TimedOut, i);
        let y = settle(&mut failed, a, HandshakeOutcome::Failed, i);
        assert_eq!(x, y);
        assert_eq!(timed_out.failed_attempts(a), failed.failed_attempts(a));
    }
    assert_eq!(timed_out.banned_at(a), Some(MAX_FAILED_ATTEMPTS - 1));
    assert_eq!(failed.banned_at(a), Some(MAX_FAILED_ATTEMPTS - 1));
}

#[test]
fn settled_success_clears_counter() {
    let a = ipv4_key(10, 0, 0, 12);
    let mut store = ReputationStore::new();
    settle(&mut store, a, HandshakeOutcome::Failed, 1);
    settle(&mut store, a, HandshakeOutcome::TimedOut, 2);
    assert_eq!(store.failed_attempts(a), 2);
    assert!(!settle(&mut store, a, HandshakeOutcome::Succeeded, 3));
    assert_eq!(store.failed_attempts(a), 0);
}
