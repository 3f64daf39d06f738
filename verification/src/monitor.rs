//! Event log, brute-force window, and credential-health scoring.
//!
//! The event log is append-only: every operation of the monitor either
//! pushes onto it or leaves it unchanged. The failed-attempt window is a
//! sliding interval per identity; checking it is pure. Scoring computes a
//! weighted deduction from a 100-point baseline, with a floor of 0.

use vstd::prelude::*;
use crate::errors::CoreError;

verus! {

/// Ordered threat levels for events and aggregate scoring.
#[derive(Clone, Copy, Debug, PartialEq, Eq, Structural)]
pub enum ThreatLevel {
    Info,
    Low,
    Medium,
    High,
    Critical,
}

impl ThreatLevel {
    /// Position in the order Info < Low < Medium < High < Critical.
    pub open spec fn rank(self) -> int {
        match self {
            ThreatLevel::Info => 0,
            ThreatLevel::Low => 1,
            ThreatLevel::Medium => 2,
            ThreatLevel::High => 3,
            ThreatLevel::Critical => 4,
        }
    }

    /// Whether this level is at least as severe as the other.
    pub fn at_least(&self, other: &ThreatLevel) -> (r: bool)
        ensures
            r == (self.rank() >= other.rank()),
    {
        let a: u8 = match self {
            ThreatLevel::Info => 0,
            ThreatLevel::Low => 1,
            ThreatLevel::Medium => 2,
            ThreatLevel::High => 3,
            ThreatLevel::Critical => 4,
        };
        let b: u8 = match other {
            ThreatLevel::Info => 0,
            ThreatLevel::Low => 1,
            ThreatLevel::Medium => 2,
            ThreatLevel::High => 3,
            ThreatLevel::Critical => 4,
        };
        a >= b
    }
}

/// An entry of the append-only security event log.
pub struct SecurityEvent {
    pub event_type: String,
    pub severity: ThreatLevel,
    pub description: String,
    pub user_id: Option<u64>,
    pub timestamp: u64,
}

/// Mathematical model of a security event.
pub ghost struct EventModel {
    pub event_type: Seq<char>,
    pub severity: ThreatLevel,
    pub description: Seq<char>,
    pub user_id: Option<u64>,
    pub timestamp: u64,
}

impl View for SecurityEvent {
    type V = EventModel;

    open spec fn view(&self) -> EventModel {
        EventModel {
            event_type: self.event_type@,
            severity: self.severity,
            description: self.description@,
            user_id: self.user_id,
            timestamp: self.timestamp,
        }
    }
}

/// One failed authentication attempt for an identity.
pub struct FailedAttempt {
    pub identity: String,
    pub time: u64,
}

/// Mathematical model of a failed attempt.
pub ghost struct AttemptModel {
    pub identity: Seq<char>,
    pub time: u64,
}

impl View for FailedAttempt {
    type V = AttemptModel;

    open spec fn view(&self) -> AttemptModel {
        AttemptModel { identity: self.identity@, time: self.time }
    }
}

/// An attempt at this instant counts against the window ending now.
pub open spec fn in_window(t: u64, now: u64, window: u64) -> bool {
    t <= now && t + window > now
}

/// How many recorded attempts for this identity fall inside the window
/// ending now.
pub open spec fn fail_count(s: Seq<AttemptModel>, identity: Seq<char>, now: u64, window: u64) -> nat
    decreases s.len(),
{
    if s.len() == 0 {
        0
    } else {
        fail_count(s.drop_last(), identity, now, window) + if s.last().identity == identity
            && in_window(s.last().time, now, window) {
            1nat
        } else {
            0nat
        }
    }
}

/// Recording one more attempt raises the count by one exactly when it names
/// the identity and falls inside the window.
pub proof fn lemma_fail_count_push(
    s: Seq<AttemptModel>,
    a: AttemptModel,
    identity: Seq<char>,
    now: u64,
    window: u64,
)
    ensures
        fail_count(s.push(a), identity, now, window) == fail_count(s, identity, now, window) + if a.identity
            == identity && in_window(a.time, now, window) {
            1nat
        } else {
            0nat
        },
{
    assert(s.push(a).drop_last() =~= s);
    assert(s.push(a).last() == a);
}

/// Once the window has slid past every recorded attempt, the count for any
/// identity is zero: a correct attempt then goes through again.
pub proof fn lemma_window_cleared(s: Seq<AttemptModel>, identity: Seq<char>, now: u64, window: u64)
    requires
        forall|i: int| 0 <= i < s.len() ==> (#[trigger] s[i].time) + window <= now,
    ensures
        fail_count(s, identity, now, window) == 0,
    decreases s.len(),
{
    if s.len() > 0 {
        lemma_window_cleared(s.drop_last(), identity, now, window);
        assert(s.last() == s[s.len() - 1]);
    }
}

/// Dropping every attempt of one identity zeroes that identity's count and
/// cannot raise any other identity's count.
pub proof fn lemma_fail_count_erased(
    s: Seq<AttemptModel>,
    erased: Seq<char>,
    identity: Seq<char>,
    now: u64,
    window: u64,
)
    ensures
        identity == erased ==> fail_count(
            s.filter(|a: AttemptModel| a.identity != erased),
            identity,
            now,
            window,
        ) == 0,
        fail_count(s.filter(|a: AttemptModel| a.identity != erased), identity, now, window)
            <= fail_count(s, identity, now, window),
    decreases s.len(),
{
    reveal_with_fuel(Seq::filter, 2);
    if s.len() > 0 {
        lemma_fail_count_erased(s.drop_last(), erased, identity, now, window);
        let pred = |a: AttemptModel| a.identity != erased;
        assert(s.filter(pred) == if pred(s.last()) {
            s.drop_last().filter(pred).push(s.last())
        } else {
            s.drop_last().filter(pred)
        });
        if pred(s.last()) {
            lemma_fail_count_push(s.drop_last().filter(pred), s.last(), identity, now, window);
        }
    } else {
        assert(s.filter(|a: AttemptModel| a.identity != erased) =~= s);
    }
}

/// The monitor: the append-only event log, the failed-attempt window, and
/// the blocking policy.
pub struct SecurityMonitor {
    pub events: Vec<SecurityEvent>,
    pub attempts: Vec<FailedAttempt>,
    pub threshold: u64,
    pub window: u64,
}

/// Mathematical model of the monitor.
pub ghost struct MonitorModel {
    pub events: Seq<EventModel>,
    pub attempts: Seq<AttemptModel>,
    pub threshold: u64,
    pub window: u64,
}

impl View for SecurityMonitor {
    type V = MonitorModel;

    open spec fn view(&self) -> MonitorModel {
        MonitorModel {
            events: self.events@.map_values(|e: SecurityEvent| e@),
            attempts: self.attempts@.map_values(|a: FailedAttempt| a@),
            threshold: self.threshold,
            window: self.window,
        }
    }
}

impl MonitorModel {
    /// The identity has met or passed the threshold inside the window.
    pub open spec fn blocked(self, identity: Seq<char>, now: u64) -> bool {
        fail_count(self.attempts, identity, now, self.window) >= self.threshold
    }
}

impl SecurityMonitor {
    /// A monitor with an empty log and window state.
    pub fn new(threshold: u64, window: u64) -> (r: SecurityMonitor)
        ensures
            r@.events.len() == 0,
            r@.attempts.len() == 0,
            r@.threshold == threshold,
            r@.window == window,
    {
        SecurityMonitor { events: Vec::new(), attempts: Vec::new(), threshold, window }
    }

    /// Pure check of the sliding window: whether this identity is blocked
    /// at this instant. No side effects.
    pub fn check_brute_force(&self, identity: &String, now: u64) -> (r: bool)
        ensures
            r == self@.blocked(identity@, now),
    {
        let mut cnt: u64 = 0;
        let mut i: usize = 0;
        while i < self.attempts.len()
            invariant
                i <= self.attempts.len(),
                cnt <= i,
                cnt == fail_count(self@.attempts.subrange(0, i as int), identity@, now, self@.window),
        decreases self.attempts.len() - i,
        {
            proof {
                assert(self@.attempts.subrange(0, i + 1).drop_last() =~= self@.attempts.subrange(
                    0,
                    i as int,
                ));
                assert(self@.attempts.subrange(0, i + 1).last() == self@.attempts[i as int]);
            }
            let a = &self.attempts[i];
            if a.identity == *identity && a.time <= now && now - a.time < self.window {
                cnt = cnt + 1;
            }
            i = i + 1;
        }
        proof {
            assert(self@.attempts.subrange(0, self@.attempts.len() as int) =~= self@.attempts);
        }
        cnt >= self.threshold
    }

    /// Records a failed attempt for the identity at this instant. The event
    /// log is untouched.
    pub fn record_failed_attempt(&mut self, identity: &String, now: u64)
        ensures
            final(self)@.attempts == old(self)@.attempts.push(
                AttemptModel { identity: identity@, time: now },
            ),
            final(self)@.events == old(self)@.events,
            final(self)@.threshold == old(self)@.threshold,
            final(self)@.window == old(self)@.window,
    {
        let a = FailedAttempt { identity: clone_string(identity), time: now };
        self.attempts.push(a);
        proof {
            assert(self@.attempts =~= old(self)@.attempts.push(
                AttemptModel { identity: identity@, time: now },
            ));
        }
    }

    /// Clears the window for one identity (after a successful
    /// authentication). The event log is untouched.
    pub fn clear_attempts(&mut self, identity: &String)
        ensures
            final(self)@.attempts == old(self)@.attempts.filter(
                |a: AttemptModel| a.identity != identity@,
            ),
            final(self)@.events == old(self)@.events,
            final(self)@.threshold == old(self)@.threshold,
            final(self)@.window == old(self)@.window,
    {
        let mut kept: Vec<FailedAttempt> = Vec::new();
        let mut i: usize = 0;
        proof {
            reveal_with_fuel(Seq::filter, 2);
        }
        while i < self.attempts.len()
            invariant
                i <= self.attempts.len(),
                kept@.map_values(|a: FailedAttempt| a@) == self@.attempts.subrange(
                    0,
                    i as int,
                ).filter(|a: AttemptModel| a.identity != identity@),
            decreases self.attempts.len() - i,
        {
            proof {
                reveal_with_fuel(Seq::filter, 2);
                assert(self@.attempts.subrange(0, i + 1).drop_last() =~= self@.attempts.subrange(
                    0,
                    i as int,
                ));
                assert(self@.attempts.subrange(0, i + 1).last() == self@.attempts[i as int]);
            }
            let a = &self.attempts[i];
            if !(a.identity == *identity) {
                let ghost prev = kept@.map_values(|a: FailedAttempt| a@);
                kept.push(FailedAttempt { identity: clone_string(&a.identity), time: a.time });
                proof {
                    assert(kept@.map_values(|a: FailedAttempt| a@) =~= prev.push(
                        self@.attempts[i as int],
                    ));
                }
            }
            i = i + 1;
        }
        proof {
            assert(self@.attempts.subrange(0, self@.attempts.len() as int) =~= self@.attempts);
        }
        self.attempts = kept;
    }

    /// Appends to the immutable event log; nothing is ever removed or
    /// rewritten.
    pub fn log_security_event(&mut self, event: SecurityEvent)
        ensures
            final(self)@.events == old(self)@.events.push(event@),
            final(self)@.attempts == old(self)@.attempts,
            final(self)@.threshold == old(self)@.threshold,
            final(self)@.window == old(self)@.window,
    {
        self.events.push(event);
        proof {
            assert(self@.events =~= old(self)@.events.push(self@.events.last()));
        }
    }
}

/// A copy of a string, preserving its characters.
pub fn clone_string(s: &String) -> (r: String)
    ensures
        r@ == s@,
{
    s.clone()
}

/// A copy of a list of strings, preserving every character.
pub fn clone_string_vec(v: &Vec<String>) -> (r: Vec<String>)
    ensures
        r@.map_values(|t: String| t@) == v@.map_values(|t: String| t@),
{
    let mut out: Vec<String> = Vec::new();
    let mut i: usize = 0;
    while i < v.len()
        invariant
            i <= v.len(),
            out@.len() == i,
            forall|k: int| 0 <= k < i ==> (#[trigger] out@[k])@ == v@[k]@,
        decreases v.len() - i,
    {
        out.push(clone_string(&v[i]));
        i = i + 1;
    }
    proof {
        assert(out@.map_values(|t: String| t@) =~= v@.map_values(|t: String| t@));
    }
    out
}

} // verus!
