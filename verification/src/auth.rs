//! Credential verification, session issuance, and brute-force throttling.
//!
//! The sliding failed-attempt window is consulted before any hash
//! comparison, so an already-blocked identity costs no key-derivation work
//! and leaks no timing signal about whether the account exists. A successful
//! authentication clears the identity's window, issues a session, and
//! derives the session's encryption engine from the master password.

use vstd::prelude::*;
use crate::crypto::{password_hash, derived_key, CryptoEngine};
use crate::errors::CoreError;
use crate::monitor::{AttemptModel, SecurityMonitor, fail_count, lemma_window_cleared};
use crate::store::VaultStore;
use crate::store::StoreModel;
use crate::sys;

verus! {

/// An authenticated session. Its engine (held beside it by the caller) is
/// the only decryption capability and dies with the session.
pub struct Session {
    pub user_id: u64,
    pub token: String,
    pub created_at: u64,
    pub last_activity: u64,
}

/// Mathematical model of a session.
pub ghost struct SessionModel {
    pub user_id: u64,
    pub token: Seq<char>,
    pub created_at: u64,
    pub last_activity: u64,
}

impl View for Session {
    type V = SessionModel;

    open spec fn view(&self) -> SessionModel {
        SessionModel {
            user_id: self.user_id,
            token: self.token@,
            created_at: self.created_at,
            last_activity: self.last_activity,
        }
    }
}

/// The session has sat inactive longer than the timeout.
pub open spec fn session_expired(s: SessionModel, timeout: u64, now: u64) -> bool {
    now > s.last_activity + timeout
}

impl Session {
    /// Whether the session has expired at this instant.
    pub fn is_expired(&self, timeout: u64, now: u64) -> (r: bool)
        ensures
            r == session_expired(self@, timeout, now),
    {
        now > self.last_activity && now - self.last_activity > timeout
    }

    /// Marks activity now, restarting the inactivity timeout.
    pub fn touch(&mut self, now: u64)
        ensures
            final(self)@ == (SessionModel { last_activity: now, ..old(self)@ }),
    {
        self.last_activity = now;
    }
}

/// The stored credentials admit this email and master password: some active
/// user carries the email, and the password hashes to that user's stored
/// authentication hash under the user's salt.
pub open spec fn credentials_ok(s: StoreModel, email: Seq<char>, pw: Seq<u8>) -> bool {
    exists|i: int|
        0 <= i < s.users.len() && (#[trigger] s.users[i]).email == email && s.users[i].active
            && s.users[i].auth_hash == password_hash(pw, s.users[i].salt)
}

/// Authenticates an identity at this instant.
///
/// The window is checked first: a blocked identity is rejected with
/// BruteForceBlocked before any hash comparison, whatever the password. A
/// wrong identity or password records one more failed attempt and is
/// rejected with the generic InvalidCredentials. Success clears the
/// identity's window and returns the session with its derived engine.
pub fn authenticate(
    store: &VaultStore,
    monitor: &mut SecurityMonitor,
    email: &String,
    password: &Vec<u8>,
    now: u64,
) -> (r: Result<(Session, CryptoEngine), CoreError>)
    requires
        store@.wf(),
    ensures
        final(monitor)@.events == old(monitor)@.events,
        final(monitor)@.threshold == old(monitor)@.threshold,
        final(monitor)@.window == old(monitor)@.window,
        r is Ok <==> !old(monitor)@.blocked(email@, now) && credentials_ok(
            store@,
            email@,
            password@,
        ),
        old(monitor)@.blocked(email@, now) ==> r == Err::<(Session, CryptoEngine), CoreError>(
            CoreError::BruteForceBlocked,
        ) && final(monitor)@ == old(monitor)@,
        !old(monitor)@.blocked(email@, now) && !credentials_ok(store@, email@, password@) ==> r
            == Err::<(Session, CryptoEngine), CoreError>(CoreError::InvalidCredentials)
            && final(monitor)@.attempts == old(monitor)@.attempts.push(
            AttemptModel { identity: email@, time: now },
        ),
        r matches Ok(se) ==> ({
            &&& exists|i: int|
                0 <= i < store@.users.len() && (#[trigger] store@.users[i]).email == email@
                    && store@.users[i].active && se.0@.user_id == store@.users[i].id && se.1.key
                    == derived_key(password@, store@.users[i].salt)
            &&& se.1.ctr == 0
            &&& se.0@.created_at == now
            &&& se.0@.last_activity == now
            &&& se.0@.token.len() == 36
            &&& final(monitor)@.attempts == old(monitor)@.attempts.filter(
                |a: AttemptModel| a.identity != email@,
            )
        }),
{
    if monitor.check_brute_force(email, now) {
        return Err(CoreError::BruteForceBlocked);
    }
    let idx = store.find_user_by_email(email);
    match idx {
        None => {
            proof {
                assert(!credentials_ok(store@, email@, password@));
            }
            monitor.record_failed_attempt(email, now);
            Err(CoreError::InvalidCredentials)
        },
        Some(i) => {
            let user = &store.users[i];
            let h = crate::crypto::hash_password(password, &user.salt);
            if user.active && h == user.auth_hash {
                proof {
                    assert(credentials_ok(store@, email@, password@)) by {
                        assert(store@.users[i as int].email == email@ && store@.users[
                            i as int
                        ].active && store@.users[i as int].auth_hash == password_hash(
                            password@,
                            store@.users[i as int].salt,
                        ));
                    }
                }
                monitor.clear_attempts(email);
                let session = Session {
                    user_id: user.id,
                    token: sys::new_session_token(),
                    created_at: now,
                    last_activity: now,
                };
                let engine = match CryptoEngine::initialize(password, &user.salt) {
                    Ok(e) => e,
                    Err(_) => {
                        proof {
                            assert(store@.users[i as int].salt.len() == crate::crypto::SALT_LEN);
                            assert(false);
                        }
                        return Err(CoreError::KeyDerivationError);
                    },
                };
                Ok((session, engine))
            } else {
                proof {
                    if credentials_ok(store@, email@, password@) {
                        let k = choose|k: int|
                            0 <= k < store@.users.len() && (#[trigger] store@.users[k]).email
                                == email@ && store@.users[k].active && store@.users[k].auth_hash
                                == password_hash(password@, store@.users[k].salt);
                        if k < i as int {
                            assert(store@.users[k].email != store@.users[i as int].email);
                        } else if k > i as int {
                            assert(store@.users[i as int].email != store@.users[k].email);
                        }
                        assert(false);
                    }
                }
                monitor.record_failed_attempt(email, now);
                Err(CoreError::InvalidCredentials)
            }
        },
    }
}

// ----------------------------------------------------------------------
// Law of the throttle.
// ----------------------------------------------------------------------

/// Brute-force throttling: once the threshold of failures for one identity
/// stands inside the window, the identity is blocked at that instant — by
/// the authenticate contract the next attempt fails with BruteForceBlocked
/// even if the credentials are correct. Once the window has slid past every
/// recorded attempt, the identity is no longer blocked, and by the same
/// contract a correct attempt succeeds.
pub proof fn lemma_brute_force_gate(
    m: crate::monitor::MonitorModel,
    identity: Seq<char>,
    now: u64,
    later: u64,
)
    requires
        fail_count(m.attempts, identity, now, m.window) >= m.threshold,
        m.threshold > 0,
        forall|i: int| 0 <= i < m.attempts.len() ==> (#[trigger] m.attempts[i].time) + m.window
            <= later,
    ensures
        m.blocked(identity, now),
        !m.blocked(identity, later),
{
    lemma_window_cleared(m.attempts, identity, later, m.window);
}

} // verus!
