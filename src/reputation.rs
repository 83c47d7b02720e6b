//! Per-address reputation: consecutive failed handshakes and timed bans.
//!
//! Addresses are keyed by a `u128` (an IPv6 address, or an IPv4 address in
//! its IPv4-mapped IPv6 form); times are monotonic milliseconds.

use std::collections::HashMap;
use vstd::prelude::*;

verus! {

broadcast use vstd::std_specs::hash::group_hash_axioms;

/// Consecutive failed handshakes after which an address is banned.
pub const MAX_FAILED_ATTEMPTS: u64 = 50;

/// How long a ban lasts, in milliseconds.
pub const BAN_DURATION_MS: u64 = 600_000;

/// The outcome of the ban gate for one incoming connection.
#[derive(Clone, Copy, Debug, PartialEq, Eq, Structural)]
pub enum Admission {
    Admit,
    Reject { remaining_ms: u64 },
}

/// The key of an IPv4 address: its IPv4-mapped IPv6 address as an integer.
pub open spec fn ipv4_key_of(a: u8, b: u8, c: u8, d: u8) -> int {
    0xffff_0000_0000int + a as int * 0x100_0000 + b as int * 0x1_0000 + c as int * 0x100 + d as int
}

/// Computes the key of the IPv4 address `a.b.c.d`.
pub fn ipv4_key(a: u8, b: u8, c: u8, d: u8) -> (r: u128)
    ensures
        r as int == ipv4_key_of(a, b, c, d),
{
    0xffff_0000_0000u128 + (a as u128) * 0x100_0000 + (b as u128) * 0x1_0000 + (c as u128) * 0x100
        + (d as u128)
}

/// Mathematical model of the store: failure counters and ban start times.
pub struct ReputationView {
    pub failed: Map<u128, u64>,
    pub bans: Map<u128, u64>,
}

/// Time elapsed since a ban was set; a clock reading before the ban counts as zero.
pub open spec fn elapsed_since(banned_at: u64, now: u64) -> nat {
    if now >= banned_at {
        (now - banned_at) as nat
    } else {
        0
    }
}

impl ReputationView {
    pub open spec fn wf(self) -> bool {
        forall|a: u128| #[trigger] self.failed.contains_key(a) ==> self.failed[a] < MAX_FAILED_ATTEMPTS
    }

    pub open spec fn failed_attempts(self, a: u128) -> nat {
        if self.failed.contains_key(a) {
            self.failed[a] as nat
        } else {
            0
        }
    }

    pub open spec fn ban_active(self, a: u128, now: u64) -> bool {
        self.bans.contains_key(a) && elapsed_since(self.bans[a], now) < BAN_DURATION_MS
    }

    /// The verdict of the ban check for `a` at time `now`.
    pub open spec fn verdict(self, a: u128, now: u64) -> Admission {
        if self.ban_active(a, now) {
            Admission::Reject { remaining_ms: (BAN_DURATION_MS - elapsed_since(self.bans[a], now)) as u64 }
        } else {
            Admission::Admit
        }
    }

    /// The state after a ban check: an expired ban is evicted; failure
    /// counts are left as they are.
    pub open spec fn after_check(self, a: u128, now: u64) -> ReputationView {
        if self.bans.contains_key(a) && !self.ban_active(a, now) {
            ReputationView { failed: self.failed, bans: self.bans.remove(a) }
        } else {
            self
        }
    }

    pub open spec fn after_success(self, a: u128) -> ReputationView {
        ReputationView { failed: self.failed.remove(a), bans: self.bans.remove(a) }
    }

    /// Whether one more failure for `a` crosses the threshold.
    pub open spec fn failure_bans(self, a: u128) -> bool {
        self.failed_attempts(a) + 1 >= MAX_FAILED_ATTEMPTS
    }

    pub open spec fn after_failure(self, a: u128, now: u64) -> ReputationView {
        if self.failure_bans(a) {
            ReputationView { failed: self.failed.remove(a), bans: self.bans.insert(a, now) }
        } else {
            ReputationView {
                failed: self.failed.insert(a, (self.failed_attempts(a) + 1) as u64),
                bans: self.bans,
            }
        }
    }
}

/// In-memory reputation of source addresses.
pub struct ReputationStore {
    failed: HashMap<u128, u64>,
    bans: HashMap<u128, u64>,
}

impl View for ReputationStore {
    type V = ReputationView;

    closed spec fn view(&self) -> ReputationView {
        ReputationView { failed: self.failed@, bans: self.bans@ }
    }
}

impl ReputationStore {
    pub open spec fn wf(&self) -> bool {
        self@.wf()
    }

    /// An empty store: every address is admitted and has no failures.
    pub fn new() -> (r: ReputationStore)
        ensures
            r.wf(),
            r@.failed == Map::<u128, u64>::empty(),
            r@.bans == Map::<u128, u64>::empty(),
    {
        ReputationStore { failed: HashMap::new(), bans: HashMap::new() }
    }

    /// Number of consecutive failures recorded for `addr`.
    pub fn failed_attempts(&self, addr: u128) -> (r: u64)
        ensures
            r == self@.failed_attempts(addr),
    {
        match self.failed.get(&addr) {
            Some(n) => *n,
            None => 0,
        }
    }

    /// Start of the ban on `addr`, if one is recorded.
    pub fn banned_at(&self, addr: u128) -> (r: Option<u64>)
        ensures
            r == (if self@.bans.contains_key(addr) { Some(self@.bans[addr]) } else { None::<u64> }),
    {
        match self.bans.get(&addr) {
            Some(t) => Some(*t),
            None => None,
        }
    }

    /// The ban gate: rejects an address whose ban is still running, with the
    /// time left, and otherwise admits it, evicting a ban that has run out.
    pub fn check(&mut self, addr: u128, now: u64) -> (r: Admission)
        requires
            old(self).wf(),
        ensures
            final(self).wf(),
            r == old(self)@.verdict(addr, now),
            final(self)@ == old(self)@.after_check(addr, now),
    {
        let banned = self.banned_at(addr);
        match banned {
            Some(t) => {
                let elapsed: u64 = if now >= t { now - t } else { 0 };
                if elapsed < BAN_DURATION_MS {
                    Admission::Reject { remaining_ms: BAN_DURATION_MS - elapsed }
                } else {
                    self.bans.remove(&addr);
                    proof {
                        assert(self@.failed == old(self)@.failed);
                    }
                    Admission::Admit
                }
            },
            None => Admission::Admit,
        }
    }

    /// A completed handshake: the counter is cleared and any ban is lifted.
    pub fn record_success(&mut self, addr: u128)
        requires
            old(self).wf(),
        ensures
            final(self).wf(),
            final(self)@ == old(self)@.after_success(addr),
    {
        self.failed.remove(&addr);
        self.bans.remove(&addr);
        proof {
            assert(self@.failed =~= old(self)@.failed.remove(addr));
        }
    }

    /// A failed or timed-out handshake: the counter goes up by one, and when it
    /// reaches the threshold it is reset and a ban starts at `now`, in the same
    /// step. Returns whether this call imposed the ban.
    pub fn record_failure(&mut self, addr: u128, now: u64) -> (r: bool)
        requires
            old(self).wf(),
        ensures
            final(self).wf(),
            r == old(self)@.failure_bans(addr),
            final(self)@ == old(self)@.after_failure(addr, now),
    {
        let count = self.failed_attempts(addr);
        let next: u64 = count + 1;
        if next >= MAX_FAILED_ATTEMPTS {
            self.failed.remove(&addr);
            self.bans.insert(addr, now);
            true
        } else {
            self.failed.insert(addr, next);
            false
        }
    }
}


impl ReputationView {
    /// The state after one failure for `a` at each time of `ts`, in order.
    pub open spec fn after_failures(self, a: u128, ts: Seq<u64>) -> ReputationView
        decreases ts.len(),
    {
        if ts.len() == 0 {
            self
        } else {
            self.after_failures(a, ts.drop_last()).after_failure(a, ts.last())
        }
    }

    /// How many of the failures in `ts` imposed a ban on `a`.
    pub open spec fn bans_imposed(self, a: u128, ts: Seq<u64>) -> nat
        decreases ts.len(),
    {
        if ts.len() == 0 {
            0
        } else {
            self.bans_imposed(a, ts.drop_last()) + (if self.after_failures(
                a,
                ts.drop_last(),
            ).failure_bans(a) {
                1nat
            } else {
                0nat
            })
        }
    }
}

/// A failure keeps every counter under the threshold.
pub proof fn lemma_failure_keeps_wf(v: ReputationView, a: u128, now: u64)
    requires
        v.wf(),
    ensures
        v.after_failure(a, now).wf(),
{
}

/// Failures on one address count up one at a time and impose exactly one ban
/// per run of `MAX_FAILED_ATTEMPTS`: never a skipped count, never a second ban
/// for the same crossing.
pub proof fn lemma_failures_count_exactly(v: ReputationView, a: u128, ts: Seq<u64>)
    requires
        v.wf(),
    ensures
        v.after_failures(a, ts).wf(),
        v.after_failures(a, ts).failed_attempts(a) == (v.failed_attempts(a) + ts.len())
            % (MAX_FAILED_ATTEMPTS as nat),
        v.bans_imposed(a, ts) == (v.failed_attempts(a) + ts.len()) / (MAX_FAILED_ATTEMPTS as nat),
    decreases ts.len(),
{
    if ts.len() > 0 {
        let prev = ts.drop_last();
        lemma_failures_count_exactly(v, a, prev);
        let w = v.after_failures(a, prev);
        lemma_failure_keeps_wf(w, a, ts.last());
        let m = MAX_FAILED_ATTEMPTS as int;
        let total: int = (v.failed_attempts(a) + prev.len()) as int;
        let q: int = total / m;
        let r: int = total % m;
        assert(total == q * m + r && 0 <= r < m) by {
            vstd::arithmetic::div_mod::lemma_fundamental_div_mod(total, m);
        }
        if r + 1 == m {
            vstd::arithmetic::div_mod::lemma_fundamental_div_mod_converse(total + 1, m, q + 1, 0);
        } else {
            vstd::arithmetic::div_mod::lemma_fundamental_div_mod_converse(total + 1, m, q, r + 1);
        }
    }
}

/// Exactly `MAX_FAILED_ATTEMPTS` consecutive failures from a clean counter ban
/// the address: a check before the ban runs out rejects, and the counter is 0.
pub proof fn lemma_threshold_bans(v: ReputationView, a: u128, ts: Seq<u64>, now: u64)
    requires
        v.wf(),
        v.failed_attempts(a) == 0,
        ts.len() == MAX_FAILED_ATTEMPTS,
        now >= ts.last(),
        now - ts.last() < BAN_DURATION_MS,
    ensures
        v.after_failures(a, ts).verdict(a, now) == (Admission::Reject {
            remaining_ms: (BAN_DURATION_MS - (now - ts.last())) as u64,
        }),
        v.after_failures(a, ts).failed_attempts(a) == 0,
{
    let prev = ts.drop_last();
    lemma_failures_count_exactly(v, a, prev);
    lemma_failures_count_exactly(v, a, ts);
}

/// A success lifts a ban at once.
pub proof fn lemma_success_admits(v: ReputationView, a: u128, now: u64)
    ensures
        v.after_success(a).verdict(a, now) == Admission::Admit,
        v.after_success(a).failed_attempts(a) == 0,
{
}

/// A ban set at `t` no longer holds at `t + BAN_DURATION_MS` or later, and
/// the check that finds it expired leaves the counter at 0.
pub proof fn lemma_ban_expires(v: ReputationView, a: u128, t: u64, now: u64)
    requires
        v.bans.contains_key(a),
        v.bans[a] == t,
        v.failed_attempts(a) == 0,
        now >= t + BAN_DURATION_MS,
    ensures
        v.verdict(a, now) == Admission::Admit,
        !v.after_check(a, now).bans.contains_key(a),
        v.after_check(a, now).failed_attempts(a) == 0,
        v.after_check(a, now).verdict(a, now) == Admission::Admit,
{
}

/// A ban imposed by a failure at `t` has run out at `t + BAN_DURATION_MS`:
/// the address is admitted again with its counter at 0, since the counter was
/// reset when the ban was set.
pub proof fn lemma_imposed_ban_expires(v: ReputationView, a: u128, t: u64, now: u64)
    requires
        v.failure_bans(a),
        now >= t + BAN_DURATION_MS,
    ensures
        v.after_failure(a, t).verdict(a, now) == Admission::Admit,
        v.after_failure(a, t).after_check(a, now).failed_attempts(a) == 0,
        !v.after_failure(a, t).after_check(a, now).bans.contains_key(a),
{
}

/// A ban check never changes any failure count.
pub proof fn lemma_check_keeps_counts(v: ReputationView, a: u128, now: u64)
    ensures
        v.after_check(a, now).failed == v.failed,
{
}

/// Right after a failure imposes a ban, a check rejects for the full ban
/// duration; later checks report no more time left than earlier ones.
pub proof fn lemma_remaining_decreases(v: ReputationView, a: u128, t: u64, now1: u64, now2: u64)
    requires
        v.failure_bans(a),
        t <= now1 <= now2,
    ensures
        v.after_failure(a, t).verdict(a, t) == (Admission::Reject { remaining_ms: BAN_DURATION_MS }),
        ({
            let w = v.after_failure(a, t);
            w.verdict(a, now2) matches Admission::Reject { remaining_ms: r2 } ==> w.verdict(a, now1)
                matches Admission::Reject { remaining_ms: r1 } && r2 <= r1
        }),
{
}

} // verus!
