//! The core command surface: one façade over store, crypto, monitor, decoy
//! and rotation, owning the explicit Locked / Unlocked / DecoyActive session
//! state.
//!
//! The session key lives only inside the Unlocked state and dies on lock or
//! expiry. A decoy session holds no key at all: once duress puts the core
//! into DecoyActive, no command can reach real plaintext, because the
//! capability to decrypt is not there.

use vstd::prelude::*;
use vstd::utf8::encode_utf8;
use crate::auth;
use crate::auth::{credentials_ok, session_expired, Session};
use crate::crypto::{derived_key, password_hash, CryptoEngine, SALT_LEN};
use crate::decoy;
use crate::errors::CoreError;
use crate::monitor::{fail_count, EventModel, SecurityEvent, SecurityMonitor, ThreatLevel};
use crate::scoring::ScoringConfig;
use crate::store::{UserModel, VaultStore};
use crate::sys;

verus! {

/// Configuration of the core: timeouts, policy switches, scoring policy.
#[derive(Clone, Copy, Debug, PartialEq, Eq, Structural)]
pub struct CoreConfig {
    pub session_timeout: u64,
    pub export_enabled: bool,
    pub duress_threshold: u64,
    pub scoring: ScoringConfig,
}

/// A real unlocked session: the session record and its engine, the only
/// decryption capability. Both die together on lock.
pub struct SessionContext {
    pub session: Session,
    pub engine: CryptoEngine,
}

/// A decoy session: vault-shaped but keyless. It cannot decrypt anything,
/// so no command under it can expose real plaintext.
pub struct DecoyContext {
    pub session: Session,
    pub seed: u64,
}

/// The explicit session state: a locked core, a real session, or a decoy
/// session. Real and decoy sessions exclude each other by construction.
pub enum SessionState {
    Locked,
    Unlocked(SessionContext),
    DecoyActive(DecoyContext),
}

/// The core: configuration, durable store, monitor, and session state.
pub struct AppCore {
    pub config: CoreConfig,
    pub store: VaultStore,
    pub monitor: SecurityMonitor,
    pub state: SessionState,
}

/// An uppercase letter.
pub open spec fn char_is_upper(c: char) -> bool {
    65 <= c as u32 && c as u32 <= 90
}

/// A lowercase letter.
pub open spec fn char_is_lower(c: char) -> bool {
    97 <= c as u32 && c as u32 <= 122
}

/// A decimal digit.
pub open spec fn char_is_digit(c: char) -> bool {
    48 <= c as u32 && c as u32 <= 57
}

/// How many of the four character classes (upper, lower, digit, other) the
/// string draws from.
pub open spec fn strength_classes(s: Seq<char>) -> int {
    (if exists|i: int| 0 <= i < s.len() && char_is_upper(#[trigger] s[i]) {
        1int
    } else {
        0int
    }) + (if exists|i: int| 0 <= i < s.len() && char_is_lower(#[trigger] s[i]) {
        1int
    } else {
        0int
    }) + (if exists|i: int| 0 <= i < s.len() && char_is_digit(#[trigger] s[i]) {
        1int
    } else {
        0int
    }) + (if exists|i: int|
        0 <= i < s.len() && !char_is_upper(#[trigger] s[i]) && !char_is_lower(s[i])
            && !char_is_digit(s[i]) {
        1int
    } else {
        0int
    })
}

/// The registration strength policy: at least eight characters over at
/// least three character classes.
pub open spec fn is_strong(s: Seq<char>) -> bool {
    s.len() >= 8 && strength_classes(s) >= 3
}

/// Checks the strength policy.
pub fn check_strong(password: &String) -> (r: bool)
    ensures
        r == is_strong(password@),
{
    let n = password.as_str().unicode_len();
    let mut has_upper = false;
    let mut has_lower = false;
    let mut has_digit = false;
    let mut has_other = false;
    let mut i: usize = 0;
    while i < n
        invariant
            i <= n,
            n == password@.len(),
            has_upper == exists|k: int| 0 <= k < i && char_is_upper(#[trigger] password@[k]),
            has_lower == exists|k: int| 0 <= k < i && char_is_lower(#[trigger] password@[k]),
            has_digit == exists|k: int| 0 <= k < i && char_is_digit(#[trigger] password@[k]),
            has_other == exists|k: int|
                0 <= k < i && !char_is_upper(#[trigger] password@[k]) && !char_is_lower(
                    password@[k],
                ) && !char_is_digit(password@[k]),
        decreases n - i,
    {
        let c = password.as_str().get_char(i);
        let u = c as u32;
        if 65 <= u && u <= 90 {
            has_upper = true;
        } else if 97 <= u && u <= 122 {
            has_lower = true;
        } else if 48 <= u && u <= 57 {
            has_digit = true;
        } else {
            has_other = true;
        }
        i = i + 1;
    }
    let mut classes: u32 = 0;
    if has_upper {
        classes = classes + 1;
    }
    if has_lower {
        classes = classes + 1;
    }
    if has_digit {
        classes = classes + 1;
    }
    if has_other {
        classes = classes + 1;
    }
    n >= 8 && classes >= 3
}

/// The bytes of a string: its UTF-8 encoding.
pub fn string_bytes(s: &String) -> (r: Vec<u8>)
    ensures
        r@ == encode_utf8(s@),
{
    s.as_str().as_bytes_vec()
}

/// A fresh random salt of the required length.
fn make_salt() -> (r: Vec<u8>)
    ensures
        r@.len() == SALT_LEN,
{
    let mut v = vstd::bytes::u64_to_le_bytes(sys::fresh_random_u64());
    let mut w = vstd::bytes::u64_to_le_bytes(sys::fresh_random_u64());
    v.append(&mut w);
    v
}

/// A fresh random 128-bit key.
fn make_key() -> crate::crypto::Key {
    crate::crypto::Key { k0: sys::fresh_random_u64(), k1: sys::fresh_random_u64() }
}

/// What a successful authentication hands back to the caller.
pub struct AuthOutcome {
    pub user_id: u64,
    pub session_token: String,
}

/// Duress is called at a successful authentication that followed a rapid
/// burst of failures, or at an explicit panic trigger.
pub open spec fn duress_at_login(
    m: crate::monitor::MonitorModel,
    config: CoreConfig,
    identity: Seq<char>,
    panic_trigger: bool,
    now: u64,
) -> bool {
    panic_trigger || fail_count(m.attempts, identity, now, m.window) >= config.duress_threshold
}

/// A failure kind that spec-wise belongs in the security event log:
/// cryptographic failures and storage unavailability are never silently
/// swallowed.
pub open spec fn is_crypto_failure(e: CoreError) -> bool {
    e == CoreError::AuthenticationFailure || e == CoreError::CryptoError || e
        == CoreError::StorageUnavailable
}

/// The event owed in the log when such a failure surfaces: the kind is
/// fully detailed, and storage loss is escalated to Critical.
pub open spec fn failure_event(e: CoreError, user_id: Option<u64>, now: u64) -> EventModel {
    EventModel {
        event_type: if e == CoreError::StorageUnavailable {
            "storage_error"@
        } else {
            "crypto_error"@
        },
        severity: if e == CoreError::StorageUnavailable {
            ThreatLevel::Critical
        } else {
            ThreatLevel::High
        },
        description: e.spec_message(),
        user_id: user_id,
        timestamp: now,
    }
}

impl AppCore {
    /// The core's structural invariant.
    pub open spec fn wf(self) -> bool {
        self.store@.wf() && self.config.scoring.wf()
    }

    /// Details a cryptographic or storage failure in the event log before
    /// it surfaces to the caller.
    fn log_failure(&mut self, e: CoreError, user_id: Option<u64>, now: u64)
        ensures
            final(self).config == old(self).config,
            final(self).store@ == old(self).store@,
            final(self).state == old(self).state,
            final(self).monitor@.attempts == old(self).monitor@.attempts,
            final(self).monitor@.threshold == old(self).monitor@.threshold,
            final(self).monitor@.window == old(self).monitor@.window,
            final(self).monitor@.events == old(self).monitor@.events.push(
                failure_event(e, user_id, now),
            ),
    {
        let storage = matches!(e, CoreError::StorageUnavailable);
        let event_type = if storage {
            String::from_str("storage_error")
        } else {
            String::from_str("crypto_error")
        };
        let severity = if storage {
            ThreatLevel::Critical
        } else {
            ThreatLevel::High
        };
        self.monitor.log_security_event(
            SecurityEvent {
                event_type,
                severity,
                description: e.message(),
                user_id,
                timestamp: now,
            },
        );
    }

    /// A locked core with an empty store and log.
    pub fn new(
        session_timeout: u64,
        export_enabled: bool,
        duress_threshold: u64,
        brute_threshold: u64,
        brute_window: u64,
    ) -> (r: AppCore)
        ensures
            r.wf(),
            r.state is Locked,
            r.store@.users.len() == 0,
            r.store@.vaults.len() == 0,
            r.store@.records.len() == 0,
            r.monitor@.events.len() == 0,
            r.monitor@.attempts.len() == 0,
            r.monitor@.threshold == brute_threshold,
            r.monitor@.window == brute_window,
            r.config.session_timeout == session_timeout,
            r.config.export_enabled == export_enabled,
            r.config.duress_threshold == duress_threshold,
    {
        AppCore {
            config: CoreConfig {
                session_timeout,
                export_enabled,
                duress_threshold,
                scoring: ScoringConfig::standard(),
            },
            store: VaultStore::new(),
            monitor: SecurityMonitor::new(brute_threshold, brute_window),
            state: SessionState::Locked,
        }
    }

    /// Registers a new user. The password must meet the strength policy and
    /// the email must be free; the stored record carries only the salted
    /// authentication hash, never the password.
    pub fn register_user(&mut self, email: String, password: String, now: u64) -> (r: Result<
        u64,
        CoreError,
    >)
        requires
            old(self).wf(),
        ensures
            final(self).wf(),
            final(self).config == old(self).config,
            final(self).state == old(self).state,
            final(self).monitor@.attempts == old(self).monitor@.attempts,
            final(self).monitor@.threshold == old(self).monitor@.threshold,
            final(self).monitor@.window == old(self).monitor@.window,
            r == Err::<u64, CoreError>(CoreError::WeakPassword) <==> !is_strong(password@),
            is_strong(password@) ==> (r == Err::<u64, CoreError>(CoreError::EmailTaken) <==> old(self).store@.email_taken(email@)),
            is_strong(password@) && !old(self).store@.email_taken(email@)
                && old(self).store@.next_id < u64::MAX ==> r is Ok,
            r matches Err(e) ==> e == CoreError::WeakPassword || e == CoreError::EmailTaken || e
                == CoreError::StorageUnavailable,
            r is Err ==> final(self).store@ == old(self).store@,
            r matches Err(e) ==> (!is_crypto_failure(e) ==> final(self).monitor@ == old(self).monitor@),
            r matches Err(e) ==> (is_crypto_failure(e) ==> final(self).monitor@.events == old(self).monitor@.events.push(failure_event(e, None, now))),
            r matches Ok(id) ==> ({
                &&& id == old(self).store@.next_id
                &&& exists|salt: Seq<u8>|
                    #![auto]
                    salt.len() == SALT_LEN && final(self).store@.users == old(self).store@.users.push(
                        UserModel {
                            id: old(self).store@.next_id,
                            email: email@,
                            auth_hash: password_hash(encode_utf8(password@), salt),
                            salt: salt,
                            biometric_enabled: false,
                            created_at: now,
                            active: true,
                        },
                    )
                &&& final(self).store@.vaults == old(self).store@.vaults
                &&& final(self).store@.records == old(self).store@.records
                &&& final(self).monitor@.events == old(self).monitor@.events.push(
                    EventModel {
                        event_type: "user_registered"@,
                        severity: ThreatLevel::Info,
                        description: "New user registered"@,
                        user_id: Some(id),
                        timestamp: now,
                    },
                )
            }),
    {
        if !check_strong(&password) {
            return Err(CoreError::WeakPassword);
        }
        let salt = make_salt();
        let pw_bytes = string_bytes(&password);
        let hash = crate::crypto::hash_password(&pw_bytes, &salt);
        let id = match self.store.create_user(email, hash, salt, false, now) {
            Ok(id) => id,
            Err(e) => {
                if matches!(e, CoreError::StorageUnavailable) {
                    self.log_failure(e, None, now);
                }
                return Err(e);
            },
        };
        self.monitor.log_security_event(
            SecurityEvent {
                event_type: String::from_str("user_registered"),
                severity: ThreatLevel::Info,
                description: String::from_str("New user registered"),
                user_id: Some(id),
                timestamp: now,
            },
        );
        Ok(id)
    }

    /// Authenticates and, on success, unlocks the core — or, under duress,
    /// silently serves a decoy session that holds no key. A blocked identity
    /// is rejected before any hash work; every outcome leaves one event in
    /// the log.
    pub fn authenticate_user(
        &mut self,
        email: &String,
        password: &String,
        panic_trigger: bool,
        now: u64,
    ) -> (r: Result<AuthOutcome, CoreError>)
        requires
            old(self).wf(),
        ensures
            final(self).wf(),
            final(self).config == old(self).config,
            final(self).store@ == old(self).store@,
            final(self).monitor@.threshold == old(self).monitor@.threshold,
            final(self).monitor@.window == old(self).monitor@.window,
            r is Ok <==> !old(self).monitor@.blocked(email@, now) && credentials_ok(
                old(self).store@,
                email@,
                encode_utf8(password@),
            ),
            old(self).monitor@.blocked(email@, now) ==> ({
                &&& r == Err::<AuthOutcome, CoreError>(CoreError::BruteForceBlocked)
                &&& final(self).monitor@.attempts == old(self).monitor@.attempts
                &&& final(self).monitor@.events == old(self).monitor@.events.push(
                    EventModel {
                        event_type: "authentication_blocked"@,
                        severity: ThreatLevel::High,
                        description: "Brute force attempt blocked"@,
                        user_id: None,
                        timestamp: now,
                    },
                )
            }),
            !old(self).monitor@.blocked(email@, now) && !credentials_ok(
                old(self).store@,
                email@,
                encode_utf8(password@),
            ) ==> ({
                &&& r == Err::<AuthOutcome, CoreError>(CoreError::InvalidCredentials)
                &&& final(self).monitor@.attempts == old(self).monitor@.attempts.push(
                    crate::monitor::AttemptModel { identity: email@, time: now },
                )
                &&& final(self).monitor@.events == old(self).monitor@.events.push(
                    EventModel {
                        event_type: "authentication_failed"@,
                        severity: ThreatLevel::Medium,
                        description: if old(self).store@.email_taken(email@) {
                            "Password mismatch"@
                        } else {
                            "Unknown identity"@
                        },
                        user_id: None,
                        timestamp: now,
                    },
                )
            }),
            r is Err ==> final(self).state == old(self).state,
            r matches Ok(o) ==> ({
                let duress = duress_at_login(
                    old(self).monitor@,
                    old(self).config,
                    email@,
                    panic_trigger,
                    now,
                );
                &&& o.session_token@.len() == 36
                &&& exists|i: int|
                    0 <= i < old(self).store@.users.len() && (#[trigger] old(self).store@.users[i]).email == email@ && old(self).store@.users[i].active && o.user_id
                        == old(self).store@.users[i].id
                &&& final(self).monitor@.attempts == old(self).monitor@.attempts.filter(
                    |a: crate::monitor::AttemptModel| a.identity != email@,
                )
                &&& final(self).monitor@.events == old(self).monitor@.events.push(
                    EventModel {
                        event_type: "authentication_success"@,
                        severity: ThreatLevel::Info,
                        description: "User logged in"@,
                        user_id: Some(o.user_id),
                        timestamp: now,
                    },
                )
                &&& (duress ==> (final(self).state matches SessionState::DecoyActive(d)
                    && d.session@.user_id == o.user_id && d.session@.last_activity == now))
                &&& (!duress ==> (final(self).state matches SessionState::Unlocked(ctx) && ({
                    &&& ctx.session@.user_id == o.user_id
                    &&& ctx.session@.created_at == now
                    &&& ctx.session@.last_activity == now
                    &&& ctx.engine.ctr == 0
                    &&& exists|i: int|
                        0 <= i < old(self).store@.users.len() && (#[trigger] old(self).store@.users[i]).email == email@ && old(self).store@.users[i].active
                            && ctx.engine.key == derived_key(
                            encode_utf8(password@),
                            old(self).store@.users[i].salt,
                        )
                })))
            }),
    {
        let rapid = count_rapid_failures(&self.monitor, email, now);
        let pw_bytes = string_bytes(password);
        match auth::authenticate(&self.store, &mut self.monitor, email, &pw_bytes, now) {
            Ok((session, engine)) => {
                let user_id = session.user_id;
                let token = crate::monitor::clone_string(&session.token);
                self.monitor.log_security_event(
                    SecurityEvent {
                        event_type: String::from_str("authentication_success"),
                        severity: ThreatLevel::Info,
                        description: String::from_str("User logged in"),
                        user_id: Some(user_id),
                        timestamp: now,
                    },
                );
                let signals = decoy::DuressSignals {
                    panic_trigger,
                    duress_credential: false,
                    rapid_failures: rapid,
                    rapid_threshold: self.config.duress_threshold,
                };
                if decoy::should_trigger(&signals) {
                    self.state = SessionState::DecoyActive(
                        DecoyContext { session, seed: sys::fresh_random_u64() },
                    );
                } else {
                    self.state = SessionState::Unlocked(SessionContext { session, engine });
                }
                Ok(AuthOutcome { user_id, session_token: token })
            },
            Err(e) => {
                if matches!(e, CoreError::BruteForceBlocked) {
                    self.monitor.log_security_event(
                        SecurityEvent {
                            event_type: String::from_str("authentication_blocked"),
                            severity: ThreatLevel::High,
                            description: String::from_str("Brute force attempt blocked"),
                            user_id: None,
                            timestamp: now,
                        },
                    );
                    Err(CoreError::BruteForceBlocked)
                } else {
                    let known = self.store.find_user_by_email(email);
                    proof {
                        match known {
                            Some(i) => {
                                assert(self.store@.email_taken(email@)) by {
                                    assert(self.store@.users[i as int].email == email@);
                                }
                            },
                            None => {},
                        }
                    }
                    let description = if matches!(known, Some(_)) {
                        String::from_str("Password mismatch")
                    } else {
                        String::from_str("Unknown identity")
                    };
                    self.monitor.log_security_event(
                        SecurityEvent {
                            event_type: String::from_str("authentication_failed"),
                            severity: ThreatLevel::Medium,
                            description,
                            user_id: None,
                            timestamp: now,
                        },
                    );
                    Err(CoreError::InvalidCredentials)
                }
            },
        }
    }

    /// Locks the core: the session and its key handle are dropped, never to
    /// be recovered. Idempotent; locking an already locked core logs
    /// nothing.
    pub fn lock_application(&mut self, now: u64)
        ensures
            final(self).wf() == old(self).wf(),
            final(self).state is Locked,
            final(self).config == old(self).config,
            final(self).store@ == old(self).store@,
            final(self).monitor@.attempts == old(self).monitor@.attempts,
            old(self).state is Locked ==> final(self).monitor@.events == old(self).monitor@.events,
            !(old(self).state is Locked) ==> final(self).monitor@.events == old(self).monitor@.events.push(
                EventModel {
                    event_type: "application_locked"@,
                    severity: ThreatLevel::Info,
                    description: "Application locked"@,
                    user_id: None,
                    timestamp: now,
                },
            ),
    {
        let was_locked = matches!(&self.state, SessionState::Locked);
        self.state = SessionState::Locked;
        if !was_locked {
            self.monitor.log_security_event(
                SecurityEvent {
                    event_type: String::from_str("application_locked"),
                    severity: ThreatLevel::Info,
                    description: String::from_str("Application locked"),
                    user_id: None,
                    timestamp: now,
                },
            );
        }
    }
}

/// Vault metadata as listed to callers: no key material.
pub struct VaultInfo {
    pub id: u64,
    pub name: String,
    pub description: Option<String>,
    pub icon: Option<String>,
    pub created_at: u64,
}

/// Mathematical model of a vault listing entry.
pub ghost struct VaultInfoModel {
    pub id: u64,
    pub name: Seq<char>,
    pub description: Option<Seq<char>>,
    pub icon: Option<Seq<char>>,
    pub created_at: u64,
}

impl View for VaultInfo {
    type V = VaultInfoModel;

    open spec fn view(&self) -> VaultInfoModel {
        VaultInfoModel {
            id: self.id,
            name: self.name@,
            description: match self.description {
                Some(ref s) => Some(s@),
                None => None,
            },
            icon: match self.icon {
                Some(ref s) => Some(s@),
                None => None,
            },
            created_at: self.created_at,
        }
    }
}

/// The listing entry owed for a stored vault.
pub open spec fn info_of(v: crate::store::VaultModel) -> VaultInfoModel {
    VaultInfoModel {
        id: v.id,
        name: v.name,
        description: v.description,
        icon: v.icon,
        created_at: v.created_at,
    }
}

/// A record with its sensitive fields decrypted, as handed to the caller.
pub struct PlainRecord {
    pub id: u64,
    pub title: String,
    pub username: String,
    pub password: String,
    pub url: Option<String>,
    pub notes: Option<String>,
    pub tags: Vec<String>,
    pub created_at: u64,
    pub modified_at: u64,
}

/// Mathematical model of a decrypted record.
pub ghost struct PlainRecordModel {
    pub id: u64,
    pub title: Seq<char>,
    pub username: Seq<char>,
    pub password: Seq<char>,
    pub url: Option<Seq<char>>,
    pub notes: Option<Seq<char>>,
    pub tags: Seq<Seq<char>>,
    pub created_at: u64,
    pub modified_at: u64,
}

impl View for PlainRecord {
    type V = PlainRecordModel;

    open spec fn view(&self) -> PlainRecordModel {
        PlainRecordModel {
            id: self.id,
            title: self.title@,
            username: self.username@,
            password: self.password@,
            url: match self.url {
                Some(ref s) => Some(s@),
                None => None,
            },
            notes: match self.notes {
                Some(ref s) => Some(s@),
                None => None,
            },
            tags: self.tags@.map_values(|t: String| t@),
            created_at: self.created_at,
            modified_at: self.modified_at,
        }
    }
}

/// The decrypted view owed for a stored record under the vault's data key:
/// plain fields carried over, the password (and notes, if present) being
/// exactly the UTF-8 decoding of what the envelope opens to.
pub open spec fn plain_matches(
    p: PlainRecordModel,
    rec: crate::store::RecordModel,
    dk: crate::crypto::Key,
) -> bool {
    &&& p.id == rec.id
    &&& p.title == rec.title
    &&& p.username == rec.username
    &&& p.url == rec.url
    &&& p.tags == rec.tags
    &&& p.created_at == rec.created_at
    &&& p.modified_at == rec.modified_at
    &&& crate::crypto::decrypt_model(dk, rec.password_env) is Ok
    &&& encode_utf8(p.password) == crate::crypto::decrypt_model(dk, rec.password_env)->Ok_0
    &&& match (rec.notes_env, p.notes) {
        (Option::None, Option::None) => true,
        (Option::Some(ne), Option::Some(pn)) => crate::crypto::decrypt_model(dk, ne) is Ok
            && encode_utf8(pn) == crate::crypto::decrypt_model(dk, ne)->Ok_0,
        _ => false,
    }
}

/// The records of one vault, in insertion order.
pub open spec fn records_of(s: crate::store::StoreModel, vault_id: u64) -> Seq<
    crate::store::RecordModel,
> {
    s.records.filter(|r: crate::store::RecordModel| r.vault_id == vault_id)
}

/// The vaults of one user, in creation order.
pub open spec fn vaults_of(s: crate::store::StoreModel, user_id: u64) -> Seq<
    crate::store::VaultModel,
> {
    s.vaults.filter(|v: crate::store::VaultModel| v.user_id == user_id)
}

/// Every envelope of the vault opens under dk to valid UTF-8.
pub open spec fn vault_fully_decodable(
    s: crate::store::StoreModel,
    vault_id: u64,
    dk: crate::crypto::Key,
) -> bool {
    forall|i: int|
        0 <= i < s.records.len() && (#[trigger] s.records[i]).vault_id == vault_id ==> ({
            &&& crate::crypto::decrypt_model(dk, s.records[i].password_env) is Ok
            &&& vstd::utf8::valid_utf8(
                crate::crypto::decrypt_model(dk, s.records[i].password_env)->Ok_0,
            )
            &&& match s.records[i].notes_env {
                Option::Some(ne) => crate::crypto::decrypt_model(dk, ne) is Ok
                    && vstd::utf8::valid_utf8(crate::crypto::decrypt_model(dk, ne)->Ok_0),
                Option::None => true,
            }
        })
}

/// What the session gate hands an authorized command: the caller's id with
/// either the real engine or the decoy seed, never both.
#[derive(Clone, Copy, Debug, PartialEq, Eq, Structural)]
pub enum GateInfo {
    Real { user_id: u64, engine: CryptoEngine },
    Decoy { user_id: u64, seed: u64 },
}

impl AppCore {
    /// The session's inactivity timeout has run out at this instant.
    pub open spec fn gate_expired(self, now: u64) -> bool {
        match self.state {
            SessionState::Locked => false,
            SessionState::Unlocked(ctx) => session_expired(
                ctx.session@,
                self.config.session_timeout,
                now,
            ),
            SessionState::DecoyActive(d) => session_expired(
                d.session@,
                self.config.session_timeout,
                now,
            ),
        }
    }

    /// Checks the session before any vault operation: a locked core refuses
    /// with Unauthorized, an expired session forces Locked and refuses with
    /// SessionExpired, and a live session has its activity marked.
    fn gate(&mut self, now: u64) -> (r: Result<GateInfo, CoreError>)
        ensures
            final(self).config == old(self).config,
            final(self).store@ == old(self).store@,
            final(self).monitor@ == old(self).monitor@,
            old(self).state is Locked ==> r == Err::<GateInfo, CoreError>(CoreError::Unauthorized)
                && final(self).state is Locked,
            !(old(self).state is Locked) && old(self).gate_expired(now) ==> r == Err::<
                GateInfo,
                CoreError,
            >(CoreError::SessionExpired) && final(self).state is Locked,
            r is Ok ==> !(old(self).state is Locked) && !old(self).gate_expired(now),
            old(self).state matches SessionState::Unlocked(ctx) ==> (!old(self).gate_expired(now)
                ==> (r == Ok::<GateInfo, CoreError>(
                GateInfo::Real { user_id: ctx.session@.user_id, engine: ctx.engine },
            ) && (final(self).state matches SessionState::Unlocked(c2) && c2.session@ == (
            crate::auth::SessionModel {
                last_activity: now,
                ..ctx.session@
            }) && c2.engine == ctx.engine))),
            old(self).state matches SessionState::DecoyActive(d) ==> (!old(self).gate_expired(now)
                ==> (r == Ok::<GateInfo, CoreError>(
                GateInfo::Decoy { user_id: d.session@.user_id, seed: d.seed },
            ) && (final(self).state matches SessionState::DecoyActive(d2) && d2.session@ == (
            crate::auth::SessionModel {
                last_activity: now,
                ..d.session@
            }) && d2.seed == d.seed))),
    {
        let timeout = self.config.session_timeout;
        let expired = match &self.state {
            SessionState::Locked => false,
            SessionState::Unlocked(ctx) => ctx.session.is_expired(timeout, now),
            SessionState::DecoyActive(d) => d.session.is_expired(timeout, now),
        };
        if matches!(&self.state, SessionState::Locked) {
            return Err(CoreError::Unauthorized);
        }
        if expired {
            self.state = SessionState::Locked;
            return Err(CoreError::SessionExpired);
        }
        match &mut self.state {
            SessionState::Unlocked(ctx) => {
                let uid = ctx.session.user_id;
                let engine = ctx.engine;
                ctx.session.touch(now);
                Ok(GateInfo::Real { user_id: uid, engine })
            },
            SessionState::DecoyActive(d) => {
                let uid = d.session.user_id;
                let seed = d.seed;
                d.session.touch(now);
                Ok(GateInfo::Decoy { user_id: uid, seed })
            },
            SessionState::Locked => Err(CoreError::Unauthorized),
        }
    }

    /// Writes the master engine's advanced nonce counter back into the
    /// session after envelopes were sealed under it.
    fn writeback_engine_ctr(&mut self, ctr: u64)
        ensures
            final(self).config == old(self).config,
            final(self).store@ == old(self).store@,
            final(self).monitor@ == old(self).monitor@,
            old(self).state matches SessionState::Unlocked(c) ==> (final(self).state matches SessionState::Unlocked(c2) && c2.session@ == c.session@
                && c2.engine.key == c.engine.key && c2.engine.ctr == ctr),
            !(old(self).state matches SessionState::Unlocked(c)) ==> final(self).state is Locked
                == old(self).state is Locked && (old(self).state matches SessionState::DecoyActive(d) ==> (final(self).state matches SessionState::DecoyActive(d2) && d2.session@ == d.session@ && d2.seed
                == d.seed)),
    {
        match &mut self.state {
            SessionState::Unlocked(ctx) => {
                ctx.engine.ctr = ctr;
            },
            _ => {},
        }
    }

    /// Lists the caller's vaults. A decoy session is served one synthetic
    /// vault and the store is never consulted.
    pub fn get_vaults(&mut self, now: u64) -> (r: Result<Vec<VaultInfo>, CoreError>)
        requires
            old(self).wf(),
        ensures
            final(self).wf(),
            final(self).config == old(self).config,
            final(self).store@ == old(self).store@,
            final(self).monitor@ == old(self).monitor@,
            old(self).state is Locked ==> r == Err::<Vec<VaultInfo>, CoreError>(
                CoreError::Unauthorized,
            ) && final(self).state is Locked,
            !(old(self).state is Locked) && old(self).gate_expired(now) ==> r == Err::<
                Vec<VaultInfo>,
                CoreError,
            >(CoreError::SessionExpired) && final(self).state is Locked,
            old(self).state matches SessionState::Unlocked(ctx) ==> (!old(self).gate_expired(now)
                ==> (r matches Ok(list) && list@.map_values(|v: VaultInfo| v@) == vaults_of(
                old(self).store@,
                ctx.session@.user_id,
            ).map_values(|v: crate::store::VaultModel| info_of(v))
                && (final(self).state matches SessionState::Unlocked(c2) && c2.session@ == (
            crate::auth::SessionModel { last_activity: now, ..ctx.session@ }) && c2.engine
                == ctx.engine))),
            old(self).state matches SessionState::DecoyActive(d) ==> (!old(self).gate_expired(now)
                ==> (r matches Ok(list) && list@.len() == 1 && list@[0]@.name == "Personal"@
                && (final(self).state matches SessionState::DecoyActive(d2) && d2.seed == d.seed
                && d2.session@ == (crate::auth::SessionModel {
                last_activity: now,
                ..d.session@
            })))),
    {
        let info = match self.gate(now) {
            Ok(i) => i,
            Err(e) => {
                return Err(e);
            },
        };
        match info {
            GateInfo::Decoy { user_id: _, seed } => {
                let mut out: Vec<VaultInfo> = Vec::new();
                out.push(
                    VaultInfo {
                        id: crate::crypto::mix64_exec(seed),
                        name: String::from_str("Personal"),
                        description: None,
                        icon: None,
                        created_at: now,
                    },
                );
                Ok(out)
            },
            GateInfo::Real { user_id, engine: _ } => {
                let ghost pred = |v: crate::store::VaultModel| v.user_id == user_id;
                let mut out: Vec<VaultInfo> = Vec::new();
                let mut i: usize = 0;
                proof {
                    reveal_with_fuel(Seq::filter, 2);
                    assert(self.store@.vaults.subrange(0, 0).filter(pred) =~= Seq::<
                        crate::store::VaultModel,
                    >::empty());
                }
                while i < self.store.vaults.len()
                    invariant
                        i <= self.store.vaults.len(),
                        pred == (|v: crate::store::VaultModel| v.user_id == user_id),
                        out@.map_values(|v: VaultInfo| v@) == self.store@.vaults.subrange(
                            0,
                            i as int,
                        ).filter(pred).map_values(|v: crate::store::VaultModel| info_of(v)),
                    decreases self.store.vaults.len() - i,
                {
                    proof {
                        reveal_with_fuel(Seq::filter, 2);
                        assert(self.store@.vaults.subrange(0, i + 1).drop_last()
                            =~= self.store@.vaults.subrange(0, i as int));
                        assert(self.store@.vaults.subrange(0, i + 1).last() == self.store@.vaults[
                            i as int
                        ]);
                    }
                    let v = &self.store.vaults[i];
                    if v.user_id == user_id {
                        let ghost prev = out@.map_values(|v: VaultInfo| v@);
                        out.push(
                            VaultInfo {
                                id: v.id,
                                name: crate::monitor::clone_string(&v.name),
                                description: match &v.description {
                                    Some(s) => Some(crate::monitor::clone_string(s)),
                                    None => None,
                                },
                                icon: match &v.icon {
                                    Some(s) => Some(crate::monitor::clone_string(s)),
                                    None => None,
                                },
                                created_at: v.created_at,
                            },
                        );
                        proof {
                            assert(out@.map_values(|v: VaultInfo| v@) =~= prev.push(
                                info_of(self.store@.vaults[i as int]),
                            ));
                        }
                    }
                    proof {
                        assert(out@.map_values(|v: VaultInfo| v@)
                            =~= self.store@.vaults.subrange(0, i + 1).filter(pred).map_values(
                            |v: crate::store::VaultModel| info_of(v),
                        ));
                    }
                    i = i + 1;
                }
                proof {
                    assert(self.store@.vaults.subrange(0, self.store@.vaults.len() as int)
                        =~= self.store@.vaults);
                }
                Ok(out)
            },
        }
    }

    /// Creates a vault for the caller, minting a fresh data key and storing
    /// it only wrapped under the session key. A decoy session is handed a
    /// synthetic id and the store is never touched.
    pub fn create_vault(
        &mut self,
        name: String,
        description: Option<String>,
        icon: Option<String>,
        now: u64,
    ) -> (r: Result<u64, CoreError>)
        requires
            old(self).wf(),
        ensures
            final(self).wf(),
            final(self).config == old(self).config,
            final(self).monitor@.attempts == old(self).monitor@.attempts,
            final(self).monitor@.threshold == old(self).monitor@.threshold,
            final(self).monitor@.window == old(self).monitor@.window,
            old(self).state is Locked ==> r == Err::<u64, CoreError>(CoreError::Unauthorized)
                && final(self).store@ == old(self).store@ && final(self).state is Locked
                && final(self).monitor@ == old(self).monitor@,
            !(old(self).state is Locked) && old(self).gate_expired(now) ==> r == Err::<
                u64,
                CoreError,
            >(CoreError::SessionExpired) && final(self).state is Locked && final(self).store@
                == old(self).store@ && final(self).monitor@ == old(self).monitor@,
            old(self).state matches SessionState::DecoyActive(d) ==> (!old(self).gate_expired(now)
                ==> (final(self).store@ == old(self).store@ && r is Ok && final(self).monitor@
                == old(self).monitor@ && (final(self).state matches SessionState::DecoyActive(d2)
                && d2.seed == d.seed && d2.session@ == (crate::auth::SessionModel {
                last_activity: now,
                ..d.session@
            })))),
            old(self).state matches SessionState::Unlocked(ctx) ==> (!old(self).gate_expired(now)
                ==> {
                &&& (r == Err::<u64, CoreError>(CoreError::VaultBusy) <==> old(self).store@.busy)
                &&& r is Err ==> final(self).store@ == old(self).store@
                &&& (!old(self).store@.busy && old(self).store@.user_active(ctx.session@.user_id)
                    && ctx.engine.ctr < u64::MAX && old(self).store@.next_id < u64::MAX ==> r
                    is Ok)
                &&& (!old(self).store@.busy && ctx.engine.ctr == u64::MAX ==> r == Err::<
                    u64,
                    CoreError,
                >(CoreError::CryptoError))
                &&& (final(self).state matches SessionState::Unlocked(c2) && c2.session@ == (
                crate::auth::SessionModel { last_activity: now, ..ctx.session@ }) && c2.engine.key
                    == ctx.engine.key && c2.engine.ctr >= ctx.engine.ctr && (r is Ok
                    ==> c2.engine.ctr == ctx.engine.ctr + 1))
                &&& (r is Ok ==> final(self).monitor@.events == old(self).monitor@.events)
                &&& (r matches Err(e) ==> (!is_crypto_failure(e) ==> final(self).monitor@.events
                    == old(self).monitor@.events))
                &&& (r matches Err(e) ==> (is_crypto_failure(e) ==> final(self).monitor@.events
                    == old(self).monitor@.events.push(
                    failure_event(e, Some(ctx.session@.user_id), now),
                )))
                &&& (r matches Ok(id) ==> ({
                    &&& id == old(self).store@.next_id
                    &&& exists|dk: crate::crypto::Key, env: crate::crypto::EnvelopeModel|
                        #![auto]
                        crate::crypto::unwrapped_key(ctx.engine.key, env) == Some(dk)
                            && final(self).store@.vaults == old(self).store@.vaults.push(
                            crate::store::VaultModel {
                                id: id,
                                user_id: ctx.session@.user_id,
                                name: name@,
                                description: match description {
                                    Some(s) => Some(s@),
                                    None => None,
                                },
                                icon: match icon {
                                    Some(s) => Some(s@),
                                    None => None,
                                },
                                created_at: now,
                                key_env: env,
                                enc_ctr: 0,
                            },
                        )
                    &&& final(self).store@.users == old(self).store@.users
                    &&& final(self).store@.records == old(self).store@.records
                    &&& final(self).store@.next_id == old(self).store@.next_id + 1
                }))
            }),
    {
        let info = match self.gate(now) {
            Ok(i) => i,
            Err(e) => {
                return Err(e);
            },
        };
        match info {
            GateInfo::Decoy { user_id: _, seed } => Ok(crate::crypto::mix64_exec(seed ^ 0x11)),
            GateInfo::Real { user_id, engine } => {
                if self.store.busy {
                    return Err(CoreError::VaultBusy);
                }
                let dk = make_key();
                let kb = crate::crypto::key_to_bytes(&dk);
                let mut eng = engine;
                let ghost ctr0 = eng.ctr;
                let wrapped = match eng.encrypt(&kb) {
                    Ok(e) => e,
                    Err(_) => {
                        self.log_failure(CoreError::CryptoError, Some(user_id), now);
                        return Err(CoreError::CryptoError);
                    },
                };
                proof {
                    crate::crypto::lemma_round_trip(engine.key, ctr0, wrapped@, kb@);
                }
                self.writeback_engine_ctr(eng.ctr);
                let ghost wrapped_model = wrapped@;
                match self.store.create_vault(user_id, name, description, icon, wrapped, now) {
                    Ok(id) => {
                        proof {
                            assert(crate::crypto::unwrapped_key(engine.key, wrapped_model)
                                == Some(dk));
                        }
                        Ok(id)
                    },
                    Err(e) => {
                        if matches!(e, CoreError::StorageUnavailable) {
                            self.log_failure(e, Some(user_id), now);
                        }
                        Err(e)
                    },
                }
            },
        }
    }
}

impl AppCore {
    /// Adds a password record: the password (and notes, if given) are
    /// sealed under the vault's data key before anything reaches the store,
    /// which never sees plaintext. A decoy session is handed a synthetic id
    /// and the store is never touched.
    pub fn add_password(
        &mut self,
        vault_id: u64,
        title: String,
        username: String,
        password: String,
        url: Option<String>,
        notes: Option<String>,
        tags: Vec<String>,
        now: u64,
    ) -> (r: Result<u64, CoreError>)
        requires
            old(self).wf(),
        ensures
            final(self).wf(),
            final(self).config == old(self).config,
            final(self).monitor@.attempts == old(self).monitor@.attempts,
            final(self).monitor@.threshold == old(self).monitor@.threshold,
            final(self).monitor@.window == old(self).monitor@.window,
            old(self).state is Locked ==> r == Err::<u64, CoreError>(CoreError::Unauthorized)
                && final(self).store@ == old(self).store@ && final(self).state is Locked
                && final(self).monitor@ == old(self).monitor@,
            !(old(self).state is Locked) && old(self).gate_expired(now) ==> r == Err::<
                u64,
                CoreError,
            >(CoreError::SessionExpired) && final(self).state is Locked && final(self).store@
                == old(self).store@ && final(self).monitor@ == old(self).monitor@,
            old(self).state matches SessionState::DecoyActive(d) ==> (!old(self).gate_expired(now)
                ==> (final(self).store@ == old(self).store@ && r is Ok && final(self).monitor@
                == old(self).monitor@ && (final(self).state matches SessionState::DecoyActive(d2)
                && d2.seed == d.seed && d2.session@ == (crate::auth::SessionModel {
                last_activity: now,
                ..d.session@
            })))),
            old(self).state matches SessionState::Unlocked(ctx) ==> (!old(self).gate_expired(now)
                ==> {
                let vi = crate::rotation::vault_index(old(self).store@, vault_id);
                let dk = crate::crypto::unwrapped_key(
                    ctx.engine.key,
                    old(self).store@.vaults[vi].key_env,
                );
                &&& (r == Err::<u64, CoreError>(CoreError::VaultBusy) <==> old(self).store@.busy)
                &&& (!old(self).store@.busy ==> (r == Err::<u64, CoreError>(CoreError::NotFound)
                    <==> !old(self).store@.vault_exists(vault_id)))
                &&& (!old(self).store@.busy && old(self).store@.vault_exists(vault_id) ==> (r
                    == Err::<u64, CoreError>(CoreError::Unauthorized) <==> !old(self).store@.owns_vault(ctx.session@.user_id, vault_id)))
                &&& (!old(self).store@.busy && old(self).store@.owns_vault(
                    ctx.session@.user_id,
                    vault_id,
                ) && dk is None ==> r == Err::<u64, CoreError>(CoreError::AuthenticationFailure))
                &&& (!old(self).store@.busy && old(self).store@.owns_vault(
                    ctx.session@.user_id,
                    vault_id,
                ) && dk is Some && old(self).store@.vaults[vi].enc_ctr == u64::MAX ==> r == Err::<
                    u64,
                    CoreError,
                >(CoreError::CryptoError))
                &&& (final(self).state matches SessionState::Unlocked(c2) && c2.session@ == (
                crate::auth::SessionModel { last_activity: now, ..ctx.session@ }) && c2.engine
                    == ctx.engine)
                &&& (r is Ok ==> final(self).monitor@.events == old(self).monitor@.events)
                &&& (r matches Err(e) ==> (!is_crypto_failure(e) ==> final(self).monitor@.events
                    == old(self).monitor@.events))
                &&& (r matches Err(e) ==> (is_crypto_failure(e) ==> final(self).monitor@.events
                    == old(self).monitor@.events.push(
                    failure_event(e, Some(ctx.session@.user_id), now),
                )))
                &&& (r is Err ==> final(self).store@ == old(self).store@)
                &&& (!old(self).store@.busy && old(self).store@.owns_vault(
                    ctx.session@.user_id,
                    vault_id,
                ) && dk is Some && old(self).store@.vaults[vi].enc_ctr + 2 < u64::MAX && old(self).store@.next_id < u64::MAX ==> r is Ok)
                &&& (r matches Ok(id) ==> ({
                    let m = final(self).store@.records.last();
                    &&& id == old(self).store@.next_id
                    &&& dk is Some
                    &&& final(self).store@.records == old(self).store@.records.push(m)
                    &&& crate::crypto::is_sealed(
                        dk->Some_0,
                        old(self).store@.vaults[vi].enc_ctr,
                        m.password_env,
                        encode_utf8(password@),
                    )
                    &&& final(self).store@.vaults.len() == old(self).store@.vaults.len()
                    &&& final(self).store@.vaults[vi] == (crate::store::VaultModel {
                        enc_ctr: final(self).store@.vaults[vi].enc_ctr,
                        ..old(self).store@.vaults[vi]
                    })
                    &&& final(self).store@.vaults[vi].enc_ctr > old(self).store@.vaults[vi].enc_ctr
                    &&& m.id == id
                    &&& m.vault_id == vault_id
                    &&& m.title == title@
                    &&& m.username == username@
                    &&& m.url == (match url {
                        Some(s) => Some(s@),
                        None => None,
                    })
                    &&& m.tags == tags@.map_values(|t: String| t@)
                    &&& m.created_at == now
                    &&& m.modified_at == now
                    &&& crate::crypto::decrypt_model(dk->Some_0, m.password_env) == Ok::<
                        Seq<u8>,
                        CoreError,
                    >(encode_utf8(password@))
                    &&& match (notes, m.notes_env) {
                        (Option::None, Option::None) => true,
                        (Option::Some(ns), Option::Some(nenv)) => crate::crypto::decrypt_model(
                            dk->Some_0,
                            nenv,
                        ) == Ok::<Seq<u8>, CoreError>(encode_utf8(ns@)),
                        _ => false,
                    }
                    &&& final(self).store@.users == old(self).store@.users
                    &&& final(self).store@.next_id == old(self).store@.next_id + 1
                    &&& forall|k: int|
                        0 <= k < old(self).store@.vaults.len() && k != vi ==> final(self).store@.vaults[k] == old(self).store@.vaults[k]
                }))
            }),
    {
        let info = match self.gate(now) {
            Ok(i) => i,
            Err(e) => {
                return Err(e);
            },
        };
        match info {
            GateInfo::Decoy { user_id: _, seed } => Ok(crate::crypto::mix64_exec(seed ^ 0x22)),
            GateInfo::Real { user_id, engine } => {
                if self.store.busy {
                    return Err(CoreError::VaultBusy);
                }
                let vi = match self.store.find_vault(vault_id) {
                    Some(i) => i,
                    None => {
                        return Err(CoreError::NotFound);
                    },
                };
                proof {
                    assert(self.store@.vaults[crate::rotation::vault_index(
                        self.store@,
                        vault_id,
                    )].id == vault_id);
                    assert(crate::rotation::vault_index(self.store@, vault_id) == vi as int) by {
                        let k = crate::rotation::vault_index(self.store@, vault_id);
                        if k < vi as int {
                            assert(self.store@.vaults[k].id != self.store@.vaults[vi as int].id);
                        } else if k > vi as int {
                            assert(self.store@.vaults[vi as int].id != self.store@.vaults[k].id);
                        }
                    }
                }
                if self.store.vaults[vi].user_id != user_id {
                    proof {
                        if self.store@.owns_vault(user_id, vault_id) {
                            let k = choose|k: int|
                                0 <= k < self.store@.vaults.len() && self.store@.vaults[k].id
                                    == vault_id && self.store@.vaults[k].user_id == user_id;
                            if k < vi as int {
                                assert(self.store@.vaults[k].id != self.store@.vaults[
                                    vi as int
                                ].id);
                            } else if k > vi as int {
                                assert(self.store@.vaults[vi as int].id != self.store@.vaults[
                                    k
                                ].id);
                            }
                            assert(false);
                        }
                    }
                    return Err(CoreError::Unauthorized);
                }
                let opener = CryptoEngine { key: engine.key, ctr: 0 };
                let key_plain = match opener.decrypt(&self.store.vaults[vi].key_env) {
                    Ok(p) => p,
                    Err(_) => {
                        self.log_failure(CoreError::AuthenticationFailure, Some(user_id), now);
                        return Err(CoreError::AuthenticationFailure);
                    },
                };
                let dk = match crate::crypto::bytes_to_key(&key_plain) {
                    Some(k) => k,
                    None => {
                        self.log_failure(CoreError::AuthenticationFailure, Some(user_id), now);
                        return Err(CoreError::AuthenticationFailure);
                    },
                };
                let mut data_eng = CryptoEngine { key: dk, ctr: self.store.vaults[vi].enc_ctr };
                let pw_bytes = string_bytes(&password);
                let ghost pctr = data_eng.ctr;
                let pe = match data_eng.encrypt(&pw_bytes) {
                    Ok(e) => e,
                    Err(_) => {
                        self.log_failure(CoreError::CryptoError, Some(user_id), now);
                        return Err(CoreError::CryptoError);
                    },
                };
                proof {
                    crate::crypto::lemma_round_trip(dk, pctr, pe@, pw_bytes@);
                }
                let ne = match &notes {
                    Some(ns) => {
                        let ns_bytes = string_bytes(ns);
                        let ghost nctr = data_eng.ctr;
                        let nenv = match data_eng.encrypt(&ns_bytes) {
                            Ok(e) => e,
                            Err(_) => {
                                self.log_failure(CoreError::CryptoError, Some(user_id), now);
                                return Err(CoreError::CryptoError);
                            },
                        };
                        proof {
                            crate::crypto::lemma_round_trip(dk, nctr, nenv@, ns_bytes@);
                        }
                        Some(nenv)
                    },
                    None => None,
                };
                let id = match self.store.create_password(
                    user_id,
                    vault_id,
                    title,
                    username,
                    pe,
                    url,
                    ne,
                    tags,
                    now,
                ) {
                    Ok(id) => id,
                    Err(e) => {
                        if matches!(e, CoreError::StorageUnavailable) {
                            self.log_failure(e, Some(user_id), now);
                        }
                        return Err(e);
                    },
                };
                self.store.set_vault_enc_ctr(vi, data_eng.ctr);
                Ok(id)
            },
        }
    }

    /// Lists a vault's records with their sensitive fields decrypted for
    /// the caller. Fails closed record by record: a tampered envelope stops
    /// the listing with AuthenticationFailure and no partial plaintext. A
    /// decoy session is served the synthetic records of its seed.
    pub fn get_vault_passwords(&mut self, vault_id: u64, now: u64) -> (r: Result<
        Vec<PlainRecord>,
        CoreError,
    >)
        requires
            old(self).wf(),
        ensures
            final(self).wf(),
            final(self).config == old(self).config,
            final(self).store@ == old(self).store@,
            final(self).monitor@.attempts == old(self).monitor@.attempts,
            final(self).monitor@.threshold == old(self).monitor@.threshold,
            final(self).monitor@.window == old(self).monitor@.window,
            old(self).state is Locked ==> r == Err::<Vec<PlainRecord>, CoreError>(
                CoreError::Unauthorized,
            ) && final(self).state is Locked && final(self).monitor@ == old(self).monitor@,
            !(old(self).state is Locked) && old(self).gate_expired(now) ==> r == Err::<
                Vec<PlainRecord>,
                CoreError,
            >(CoreError::SessionExpired) && final(self).state is Locked && final(self).monitor@
                == old(self).monitor@,
            old(self).state matches SessionState::DecoyActive(d) ==> (!old(self).gate_expired(now)
                ==> (r matches Ok(list) && final(self).monitor@ == old(self).monitor@
                && (final(self).state matches SessionState::DecoyActive(d2) && d2.seed == d.seed
                && d2.session@ == (crate::auth::SessionModel {
                last_activity: now,
                ..d.session@
            })) && ({
                let models = crate::decoy::decoy_model(vault_id, d.seed);
                &&& list@.len() == models.len()
                &&& forall|k: int|
                    0 <= k < models.len() ==> ({
                        &&& (#[trigger] list@[k])@.title == models[k].title
                        &&& list@[k]@.username == models[k].username
                        &&& list@[k]@.password == models[k].password
                    })
            }))),
            old(self).state matches SessionState::Unlocked(ctx) ==> (!old(self).gate_expired(now)
                ==> {
                let vi = crate::rotation::vault_index(old(self).store@, vault_id);
                let dk = crate::crypto::unwrapped_key(
                    ctx.engine.key,
                    old(self).store@.vaults[vi].key_env,
                );
                &&& (r == Err::<Vec<PlainRecord>, CoreError>(CoreError::NotFound) <==> !old(self).store@.vault_exists(vault_id))
                &&& (old(self).store@.vault_exists(vault_id) ==> (r == Err::<
                    Vec<PlainRecord>,
                    CoreError,
                >(CoreError::Unauthorized) <==> !old(self).store@.owns_vault(
                    ctx.session@.user_id,
                    vault_id,
                )))
                &&& (old(self).store@.owns_vault(ctx.session@.user_id, vault_id) && dk is Some
                    && vault_fully_decodable(old(self).store@, vault_id, dk->Some_0) ==> r is Ok)
                &&& (old(self).store@.owns_vault(ctx.session@.user_id, vault_id) && dk is None
                    ==> r == Err::<Vec<PlainRecord>, CoreError>(CoreError::AuthenticationFailure))
                &&& (final(self).state matches SessionState::Unlocked(c2) && c2.session@ == (
                crate::auth::SessionModel { last_activity: now, ..ctx.session@ }) && c2.engine
                    == ctx.engine)
                &&& (r is Ok ==> final(self).monitor@.events == old(self).monitor@.events)
                &&& (r matches Err(e) ==> (!is_crypto_failure(e) ==> final(self).monitor@.events
                    == old(self).monitor@.events))
                &&& (r matches Err(e) ==> (is_crypto_failure(e) ==> final(self).monitor@.events
                    == old(self).monitor@.events.push(
                    failure_event(e, Some(ctx.session@.user_id), now),
                )))
                &&& (r matches Ok(list) ==> ({
                    &&& dk is Some
                    &&& list@.len() == records_of(old(self).store@, vault_id).len()
                    &&& forall|k: int|
                        0 <= k < list@.len() ==> plain_matches(
                            (#[trigger] list@[k])@,
                            records_of(old(self).store@, vault_id)[k],
                            dk->Some_0,
                        )
                }))
            }),
    {
        let info = match self.gate(now) {
            Ok(i) => i,
            Err(e) => {
                return Err(e);
            },
        };
        match info {
            GateInfo::Decoy { user_id: _, seed } => {
                let dv = crate::decoy::materialize_decoy(vault_id, seed);
                let mut out: Vec<PlainRecord> = Vec::new();
                let mut i: usize = 0;
                while i < dv.records.len()
                    invariant
                        i <= dv.records.len(),
                        out@.len() == i,
                        forall|k: int|
                            0 <= k < i ==> ({
                                &&& (#[trigger] out@[k])@.title == dv.records@[k]@.title
                                &&& out@[k]@.username == dv.records@[k]@.username
                                &&& out@[k]@.password == dv.records@[k]@.password
                            }),
                    decreases dv.records.len() - i,
                {
                    let d = &dv.records[i];
                    out.push(
                        PlainRecord {
                            id: i as u64,
                            title: crate::monitor::clone_string(&d.title),
                            username: crate::monitor::clone_string(&d.username),
                            password: crate::monitor::clone_string(&d.password),
                            url: None,
                            notes: None,
                            tags: Vec::new(),
                            created_at: now,
                            modified_at: now,
                        },
                    );
                    i = i + 1;
                }
                Ok(out)
            },
            GateInfo::Real { user_id, engine } => {
                let vi = match self.store.find_vault(vault_id) {
                    Some(i) => i,
                    None => {
                        return Err(CoreError::NotFound);
                    },
                };
                proof {
                    assert(self.store@.vaults[crate::rotation::vault_index(
                        self.store@,
                        vault_id,
                    )].id == vault_id);
                    assert(crate::rotation::vault_index(self.store@, vault_id) == vi as int) by {
                        let k = crate::rotation::vault_index(self.store@, vault_id);
                        if k < vi as int {
                            assert(self.store@.vaults[k].id != self.store@.vaults[vi as int].id);
                        } else if k > vi as int {
                            assert(self.store@.vaults[vi as int].id != self.store@.vaults[k].id);
                        }
                    }
                }
                if self.store.vaults[vi].user_id != user_id {
                    proof {
                        if self.store@.owns_vault(user_id, vault_id) {
                            let k = choose|k: int|
                                0 <= k < self.store@.vaults.len() && self.store@.vaults[k].id
                                    == vault_id && self.store@.vaults[k].user_id == user_id;
                            if k < vi as int {
                                assert(self.store@.vaults[k].id != self.store@.vaults[
                                    vi as int
                                ].id);
                            } else if k > vi as int {
                                assert(self.store@.vaults[vi as int].id != self.store@.vaults[
                                    k
                                ].id);
                            }
                            assert(false);
                        }
                    }
                    return Err(CoreError::Unauthorized);
                }
                let opener = CryptoEngine { key: engine.key, ctr: 0 };
                let key_plain = match opener.decrypt(&self.store.vaults[vi].key_env) {
                    Ok(p) => p,
                    Err(_) => {
                        self.log_failure(CoreError::AuthenticationFailure, Some(user_id), now);
                        return Err(CoreError::AuthenticationFailure);
                    },
                };
                let dk = match crate::crypto::bytes_to_key(&key_plain) {
                    Some(k) => k,
                    None => {
                        self.log_failure(CoreError::AuthenticationFailure, Some(user_id), now);
                        return Err(CoreError::AuthenticationFailure);
                    },
                };
                let data_opener = CryptoEngine { key: dk, ctr: 0 };
                let ghost pred = |rec: crate::store::RecordModel| rec.vault_id == vault_id;
                let mut out: Vec<PlainRecord> = Vec::new();
                let mut i: usize = 0;
                proof {
                    reveal_with_fuel(Seq::filter, 2);
                    assert(self.store@.records.subrange(0, 0).filter(pred) =~= Seq::<
                        crate::store::RecordModel,
                    >::empty());
                }
                while i < self.store.records.len()
                    invariant
                        i <= self.store.records.len(),
                        self.store@.wf(),
                        self.config == old(self).config,
                        self.store@ == old(self).store@,
                        self.monitor@ == old(self).monitor@,
                        old(self).wf(),
                        !(old(self).state is Locked),
                        !old(self).gate_expired(now),
                        old(self).state is Unlocked,
                        old(self).state matches SessionState::Unlocked(c) ==> c.engine.key
                            == engine.key && c.session@.user_id == user_id,
                        old(self).state matches SessionState::Unlocked(c) ==> (
                        self.state matches SessionState::Unlocked(c2) && c2.session@ == (
                        crate::auth::SessionModel { last_activity: now, ..c.session@ })
                            && c2.engine == c.engine),
                        self.store@.owns_vault(user_id, vault_id),
                        self.store@.vault_exists(vault_id),
                        self.store@.vaults[vi as int].id == vault_id,
                        crate::rotation::vault_index(old(self).store@, vault_id) == vi as int,
                        data_opener.key == dk,
                        crate::crypto::unwrapped_key(
                            engine.key,
                            self.store@.vaults[vi as int].key_env,
                        ) == Some(dk),
                        vi < self.store.vaults.len(),
                        pred == (|rec: crate::store::RecordModel| rec.vault_id == vault_id),
                        out@.len() == self.store@.records.subrange(0, i as int).filter(pred).len(),
                        forall|k: int|
                            0 <= k < out@.len() ==> plain_matches(
                                (#[trigger] out@[k])@,
                                self.store@.records.subrange(0, i as int).filter(pred)[k],
                                dk,
                            ),
                    decreases self.store.records.len() - i,
                {
                    proof {
                        reveal_with_fuel(Seq::filter, 2);
                        assert(self.store@.records.subrange(0, i + 1).drop_last()
                            =~= self.store@.records.subrange(0, i as int));
                        assert(self.store@.records.subrange(0, i + 1).last() == self.store@.records[
                            i as int
                        ]);
                    }
                    let rec = &self.store.records[i];
                    if rec.vault_id == vault_id {
                        let pw_plain = match data_opener.decrypt(&rec.password_env) {
                            Ok(p) => p,
                            Err(_) => {
                                proof {
                                    if vault_fully_decodable(self.store@, vault_id, dk) {
                                        assert(self.store@.records[i as int].vault_id == vault_id);
                                        assert(false);
                                    }
                                }
                                self.log_failure(
                                    CoreError::AuthenticationFailure,
                                    Some(user_id),
                                    now,
                                );
                                return Err(CoreError::AuthenticationFailure);
                            },
                        };
                        let pw_str = match sys::bytes_to_string(pw_plain) {
                            Some(s) => s,
                            None => {
                                proof {
                                    if vault_fully_decodable(self.store@, vault_id, dk) {
                                        assert(self.store@.records[i as int].vault_id == vault_id);
                                        assert(false);
                                    }
                                }
                                self.log_failure(CoreError::CryptoError, Some(user_id), now);
                                return Err(CoreError::CryptoError);
                            },
                        };
                        let notes_str = match &rec.notes_env {
                            Some(nenv) => {
                                let np = match data_opener.decrypt(nenv) {
                                    Ok(p) => p,
                                    Err(_) => {
                                        proof {
                                            if vault_fully_decodable(self.store@, vault_id, dk) {
                                                assert(self.store@.records[i as int].vault_id
                                                    == vault_id);
                                                assert(false);
                                            }
                                        }
                                        self.log_failure(
                                            CoreError::AuthenticationFailure,
                                            Some(user_id),
                                            now,
                                        );
                                        return Err(CoreError::AuthenticationFailure);
                                    },
                                };
                                match sys::bytes_to_string(np) {
                                    Some(s) => Some(s),
                                    None => {
                                        proof {
                                            if vault_fully_decodable(self.store@, vault_id, dk) {
                                                assert(self.store@.records[i as int].vault_id
                                                    == vault_id);
                                                assert(false);
                                            }
                                        }
                                        self.log_failure(
                                            CoreError::CryptoError,
                                            Some(user_id),
                                            now,
                                        );
                                        return Err(CoreError::CryptoError);
                                    },
                                }
                            },
                            None => None,
                        };
                        out.push(
                            PlainRecord {
                                id: rec.id,
                                title: crate::monitor::clone_string(&rec.title),
                                username: crate::monitor::clone_string(&rec.username),
                                password: pw_str,
                                url: match &rec.url {
                                    Some(s) => Some(crate::monitor::clone_string(s)),
                                    None => None,
                                },
                                notes: notes_str,
                                tags: crate::monitor::clone_string_vec(&rec.tags),
                                created_at: rec.created_at,
                                modified_at: rec.modified_at,
                            },
                        );
                        proof {
                            assert(plain_matches(
                                out@.last()@,
                                self.store@.records[i as int],
                                dk,
                            ));
                        }
                    }
                    i = i + 1;
                }
                proof {
                    assert(self.store@.records.subrange(0, self.store@.records.len() as int)
                        =~= self.store@.records);
                }
                Ok(out)
            },
        }
    }
}

/// The breach feed's answer as a mathematical value: the fingerprints it
/// flagged, or None when the feed was unreachable and scoring degrades to
/// "unknown".
pub open spec fn breach_model(b: Option<&Vec<u64>>) -> Option<Seq<u64>> {
    match b {
        Some(v) => Some(v@),
        None => None,
    }
}

/// The scoring view of one stored record under the vault's data key.
pub open spec fn entry_of(
    rec: crate::store::RecordModel,
    dk: crate::crypto::Key,
    salt: Seq<u8>,
    breach: Option<Seq<u64>>,
    now: u64,
) -> crate::scoring::ScoredEntry {
    let p = crate::crypto::decrypt_model(dk, rec.password_env)->Ok_0;
    let chars = vstd::utf8::decode_utf8(p);
    let fp = crate::crypto::fingerprint_hash(p, salt);
    crate::scoring::ScoredEntry {
        fingerprint: fp,
        length: chars.len() as u64,
        classes: strength_classes(chars) as u64,
        age: if now >= rec.modified_at {
            (now - rec.modified_at) as u64
        } else {
            0
        },
        breached: match breach {
            Some(bs) => bs.contains(fp),
            None => false,
        },
    }
}

/// The scoring views of one vault's records, in order.
pub open spec fn vault_entries(
    s: crate::store::StoreModel,
    vault_id: u64,
    dk: crate::crypto::Key,
    salt: Seq<u8>,
    breach: Option<Seq<u64>>,
    now: u64,
) -> Seq<crate::scoring::ScoredEntry> {
    records_of(s, vault_id).map_values(
        |rec: crate::store::RecordModel| entry_of(rec, dk, salt, breach, now),
    )
}

/// The scoring views of every record in the user's vaults among the given
/// vault sequence, vault by vault in order.
pub open spec fn user_entries(
    s: crate::store::StoreModel,
    master: crate::crypto::Key,
    uid: u64,
    salt: Seq<u8>,
    breach: Option<Seq<u64>>,
    now: u64,
    vaults: Seq<crate::store::VaultModel>,
) -> Seq<crate::scoring::ScoredEntry>
    decreases vaults.len(),
{
    if vaults.len() == 0 {
        Seq::empty()
    } else {
        user_entries(s, master, uid, salt, breach, now, vaults.drop_last()) + (
        if vaults.last().user_id == uid {
            vault_entries(
                s,
                vaults.last().id,
                crate::crypto::unwrapped_key(master, vaults.last().key_env)->Some_0,
                salt,
                breach,
                now,
            )
        } else {
            Seq::empty()
        })
    }
}

/// The position of the user with this id (meaningful when ids are unique).
pub open spec fn user_index(s: crate::store::StoreModel, uid: u64) -> int {
    choose|i: int| 0 <= i < s.users.len() && s.users[i].id == uid
}

/// The salt of the user with this id.
pub open spec fn user_salt(s: crate::store::StoreModel, uid: u64) -> Seq<u8> {
    s.users[user_index(s, uid)].salt
}

/// Every vault of the user unwraps under the master key and decodes fully.
pub open spec fn user_vaults_decodable(
    s: crate::store::StoreModel,
    master: crate::crypto::Key,
    uid: u64,
) -> bool {
    forall|i: int|
        0 <= i < s.vaults.len() && (#[trigger] s.vaults[i]).user_id == uid ==> ({
            &&& crate::crypto::unwrapped_key(master, s.vaults[i].key_env) is Some
            &&& vault_fully_decodable(
                s,
                s.vaults[i].id,
                crate::crypto::unwrapped_key(master, s.vaults[i].key_env)->Some_0,
            )
        })
}

/// The export view of one stored record under the vault's data key:
/// optional fields flattened to empty strings.
pub open spec fn export_entry_of(rec: crate::store::RecordModel, dk: crate::crypto::Key) -> crate::export::ExportEntryModel {
    crate::export::ExportEntryModel {
        title: rec.title,
        username: rec.username,
        password: vstd::utf8::decode_utf8(
            crate::crypto::decrypt_model(dk, rec.password_env)->Ok_0,
        ),
        url: match rec.url {
            Some(u) => u,
            None => Seq::empty(),
        },
        notes: match rec.notes_env {
            Some(ne) => vstd::utf8::decode_utf8(crate::crypto::decrypt_model(dk, ne)->Ok_0),
            None => Seq::empty(),
        },
    }
}

/// The export views of one vault's records, in order.
pub open spec fn export_entries(
    s: crate::store::StoreModel,
    vault_id: u64,
    dk: crate::crypto::Key,
) -> Seq<crate::export::ExportEntryModel> {
    records_of(s, vault_id).map_values(
        |rec: crate::store::RecordModel| export_entry_of(rec, dk),
    )
}

/// The highest severity in the event log, Info when the log is empty.
pub open spec fn max_severity(events: Seq<EventModel>) -> ThreatLevel
    decreases events.len(),
{
    if events.len() == 0 {
        ThreatLevel::Info
    } else {
        let rest = max_severity(events.drop_last());
        if events.last().severity.rank() >= rest.rank() {
            events.last().severity
        } else {
            rest
        }
    }
}

/// A point-in-time summary for the shell: no key material, no plaintext,
/// and nothing that tells a decoy session from a real one.
pub struct StatusReport {
    pub authenticated: bool,
    pub event_count: u64,
    pub threat_level: ThreatLevel,
}

fn contains_u64(v: &Vec<u64>, x: u64) -> (r: bool)
    ensures
        r == v@.contains(x),
{
    let mut i: usize = 0;
    while i < v.len()
        invariant
            i <= v.len(),
            forall|k: int| 0 <= k < i ==> v@[k] != x,
        decreases v.len() - i,
    {
        if v[i] == x {
            return true;
        }
        i = i + 1;
    }
    false
}

/// The character count and class count of a password string.
fn measure_password(s: &String) -> (r: (u64, u64))
    ensures
        r.0 == s@.len(),
        r.1 == strength_classes(s@),
{
    let n = s.as_str().unicode_len();
    let mut has_upper = false;
    let mut has_lower = false;
    let mut has_digit = false;
    let mut has_other = false;
    let mut i: usize = 0;
    while i < n
        invariant
            i <= n,
            n == s@.len(),
            has_upper == exists|k: int| 0 <= k < i && char_is_upper(#[trigger] s@[k]),
            has_lower == exists|k: int| 0 <= k < i && char_is_lower(#[trigger] s@[k]),
            has_digit == exists|k: int| 0 <= k < i && char_is_digit(#[trigger] s@[k]),
            has_other == exists|k: int|
                0 <= k < i && !char_is_upper(#[trigger] s@[k]) && !char_is_lower(s@[k])
                    && !char_is_digit(s@[k]),
        decreases n - i,
    {
        let c = s.as_str().get_char(i);
        let u = c as u32;
        if 65 <= u && u <= 90 {
            has_upper = true;
        } else if 97 <= u && u <= 122 {
            has_lower = true;
        } else if 48 <= u && u <= 57 {
            has_digit = true;
        } else {
            has_other = true;
        }
        i = i + 1;
    }
    let mut classes: u64 = 0;
    if has_upper {
        classes = classes + 1;
    }
    if has_lower {
        classes = classes + 1;
    }
    if has_digit {
        classes = classes + 1;
    }
    if has_other {
        classes = classes + 1;
    }
    (n as u64, classes)
}

/// A copy of a byte vector.
fn clone_bytes(v: &Vec<u8>) -> (r: Vec<u8>)
    ensures
        r@ == v@,
{
    let mut out: Vec<u8> = Vec::new();
    let mut i: usize = 0;
    while i < v.len()
        invariant
            i <= v.len(),
            out@ == v@.subrange(0, i as int),
        decreases v.len() - i,
    {
        out.push(v[i]);
        i = i + 1;
        proof {
            assert(out@ =~= v@.subrange(0, i as int));
        }
    }
    proof {
        assert(v@.subrange(0, v@.len() as int) =~= v@);
    }
    out
}

/// Reduces one vault's records to their scoring views under its data key.
fn scored_entries_for_vault(
    store: &VaultStore,
    dk: crate::crypto::Key,
    vault_id: u64,
    salt: &Vec<u8>,
    breach: Option<&Vec<u64>>,
    now: u64,
) -> (r: Result<Vec<crate::scoring::ScoredEntry>, CoreError>)
    ensures
        r matches Ok(es) ==> es@ == vault_entries(
            store@,
            vault_id,
            dk,
            salt@,
            breach_model(breach),
            now,
        ),
        vault_fully_decodable(store@, vault_id, dk) ==> r is Ok,
        r matches Err(e) ==> e == CoreError::AuthenticationFailure || e == CoreError::CryptoError,
{
    let opener = CryptoEngine { key: dk, ctr: 0 };
    let ghost pred = |rec: crate::store::RecordModel| rec.vault_id == vault_id;
    let ghost f = |rec: crate::store::RecordModel| entry_of(
        rec,
        dk,
        salt@,
        breach_model(breach),
        now,
    );
    let mut out: Vec<crate::scoring::ScoredEntry> = Vec::new();
    let mut i: usize = 0;
    proof {
        reveal_with_fuel(Seq::filter, 2);
        assert(store@.records.subrange(0, 0).filter(pred) =~= Seq::<
            crate::store::RecordModel,
        >::empty());
    }
    while i < store.records.len()
        invariant
            i <= store.records.len(),
            opener.key == dk,
            pred == (|rec: crate::store::RecordModel| rec.vault_id == vault_id),
            f == (|rec: crate::store::RecordModel| entry_of(
                rec,
                dk,
                salt@,
                breach_model(breach),
                now,
            )),
            out@ == store@.records.subrange(0, i as int).filter(pred).map_values(f),
        decreases store.records.len() - i,
    {
        proof {
            reveal_with_fuel(Seq::filter, 2);
            assert(store@.records.subrange(0, i + 1).drop_last() =~= store@.records.subrange(
                0,
                i as int,
            ));
            assert(store@.records.subrange(0, i + 1).last() == store@.records[i as int]);
        }
        let rec = &store.records[i];
        if rec.vault_id == vault_id {
            let p = match opener.decrypt(&rec.password_env) {
                Ok(p) => p,
                Err(_) => {
                    proof {
                        if vault_fully_decodable(store@, vault_id, dk) {
                            assert(store@.records[i as int].vault_id == vault_id);
                            assert(false);
                        }
                    }
                    return Err(CoreError::AuthenticationFailure);
                },
            };
            let fp = crate::crypto::fingerprint(&p, salt);
            let pw_str = match sys::bytes_to_string(p) {
                Some(s) => s,
                None => {
                    proof {
                        if vault_fully_decodable(store@, vault_id, dk) {
                            assert(store@.records[i as int].vault_id == vault_id);
                            assert(false);
                        }
                    }
                    return Err(CoreError::CryptoError);
                },
            };
            proof {
                vstd::utf8::encode_utf8_decode_utf8(pw_str@);
            }
            let (length, classes) = measure_password(&pw_str);
            let age: u64 = if now >= rec.modified_at {
                now - rec.modified_at
            } else {
                0
            };
            let breached = match breach {
                Some(bs) => contains_u64(bs, fp),
                None => false,
            };
            let entry = crate::scoring::ScoredEntry { fingerprint: fp, length, classes, age, breached };
            out.push(entry);
            proof {
                assert(entry == f(store@.records[i as int]));
                assert(out@ =~= store@.records.subrange(0, i + 1).filter(pred).map_values(f));
            }
        }
        i = i + 1;
    }
    proof {
        assert(store@.records.subrange(0, store@.records.len() as int) =~= store@.records);
    }
    Ok(out)
}

impl AppCore {
    /// Rotates a vault onto a fresh data key, all-or-nothing: on any
    /// failure every record remains under the original key. A decoy session
    /// is acknowledged without touching anything.
    pub fn rotate_keys(&mut self, vault_id: u64, now: u64) -> (r: Result<(), CoreError>)
        requires
            old(self).wf(),
            old(self).store@.records.len() < 0x1000000000000000,
        ensures
            final(self).wf(),
            final(self).config == old(self).config,
            final(self).monitor@.attempts == old(self).monitor@.attempts,
            final(self).monitor@.threshold == old(self).monitor@.threshold,
            final(self).monitor@.window == old(self).monitor@.window,
            old(self).state is Locked ==> r == Err::<(), CoreError>(CoreError::Unauthorized)
                && final(self).store@ == old(self).store@ && final(self).state is Locked
                && final(self).monitor@ == old(self).monitor@,
            !(old(self).state is Locked) && old(self).gate_expired(now) ==> r == Err::<
                (),
                CoreError,
            >(CoreError::SessionExpired) && final(self).state is Locked && final(self).store@
                == old(self).store@ && final(self).monitor@ == old(self).monitor@,
            old(self).state matches SessionState::DecoyActive(d) ==> (!old(self).gate_expired(now)
                ==> (final(self).store@ == old(self).store@ && r is Ok && final(self).monitor@
                == old(self).monitor@ && (final(self).state matches SessionState::DecoyActive(d2)
                && d2.seed == d.seed && d2.session@ == (crate::auth::SessionModel {
                last_activity: now,
                ..d.session@
            })))),
            old(self).state matches SessionState::Unlocked(ctx) ==> (!old(self).gate_expired(now)
                ==> {
                let vi = crate::rotation::vault_index(old(self).store@, vault_id);
                let ko = crate::crypto::unwrapped_key(
                    ctx.engine.key,
                    old(self).store@.vaults[vi].key_env,
                );
                &&& (final(self).state matches SessionState::Unlocked(c2) && c2.session@ == (
                crate::auth::SessionModel { last_activity: now, ..ctx.session@ }) && c2.engine.key
                    == ctx.engine.key && c2.engine.ctr >= ctx.engine.ctr && (r is Ok
                    ==> c2.engine.ctr == ctx.engine.ctr + 1))
                &&& (!old(self).store@.busy && old(self).store@.owns_vault(
                    ctx.session@.user_id,
                    vault_id,
                ) && ko is None ==> r == Err::<(), CoreError>(CoreError::AuthenticationFailure))
                &&& (r is Ok ==> final(self).monitor@.events == old(self).monitor@.events)
                &&& (r matches Err(e) ==> (!is_crypto_failure(e) ==> final(self).monitor@.events
                    == old(self).monitor@.events))
                &&& (r matches Err(e) ==> (is_crypto_failure(e) ==> final(self).monitor@.events
                    == old(self).monitor@.events.push(
                    failure_event(e, Some(ctx.session@.user_id), now),
                )))
                &&& (r == Err::<(), CoreError>(CoreError::VaultBusy) <==> old(self).store@.busy)
                &&& (!old(self).store@.busy ==> (r == Err::<(), CoreError>(CoreError::NotFound)
                    <==> !old(self).store@.vault_exists(vault_id)))
                &&& (!old(self).store@.busy && old(self).store@.vault_exists(vault_id) ==> (r
                    == Err::<(), CoreError>(CoreError::Unauthorized) <==> !old(
                    self,
                ).store@.owns_vault(ctx.session@.user_id, vault_id)))
                &&& (r is Err ==> final(self).store@ == old(self).store@)
                &&& (!old(self).store@.busy && old(self).store@.owns_vault(
                    ctx.session@.user_id,
                    vault_id,
                ) && ko is Some && crate::rotation::vault_fully_decryptable(
                    old(self).store@,
                    vault_id,
                    ko->Some_0,
                ) && ctx.engine.ctr < u64::MAX ==> r is Ok)
                &&& (r is Ok ==> exists|nk: crate::crypto::Key|
                    #[trigger] crate::rotation::rotation_ok(
                        old(self).store@,
                        final(self).store@,
                        ctx.engine.key,
                        vault_id,
                        nk,
                    ))
            }),
    {
        let info = match self.gate(now) {
            Ok(i) => i,
            Err(e) => {
                return Err(e);
            },
        };
        match info {
            GateInfo::Decoy { user_id: _, seed: _ } => {
                proof {
                    match old(self).state {
                        SessionState::Unlocked(c) => {
                            if !old(self).gate_expired(now) {
                                assert(false);
                            }
                        },
                        _ => {},
                    }
                }
                Ok(())
            },
            GateInfo::Real { user_id, engine } => {
                if self.store.busy {
                    return Err(CoreError::VaultBusy);
                }
                let vi = match self.store.find_vault(vault_id) {
                    Some(i) => i,
                    None => {
                        return Err(CoreError::NotFound);
                    },
                };
                if self.store.vaults[vi].user_id != user_id {
                    proof {
                        if self.store@.owns_vault(user_id, vault_id) {
                            let k = choose|k: int|
                                0 <= k < self.store@.vaults.len() && self.store@.vaults[k].id
                                    == vault_id && self.store@.vaults[k].user_id == user_id;
                            if k < vi as int {
                                assert(self.store@.vaults[k].id != self.store@.vaults[
                                    vi as int
                                ].id);
                            } else if k > vi as int {
                                assert(self.store@.vaults[vi as int].id != self.store@.vaults[
                                    k
                                ].id);
                            }
                            assert(false);
                        }
                    }
                    return Err(CoreError::Unauthorized);
                }
                let nk = make_key();
                let mut eng = engine;
                let out = crate::rotation::rotate_vault_keys(
                    &mut self.store,
                    &mut eng,
                    vault_id,
                    nk,
                );
                self.writeback_engine_ctr(eng.ctr);
                match out {
                    Ok(()) => {
                        proof {
                            assert(crate::rotation::rotation_ok(
                                old(self).store@,
                                self.store@,
                                engine.key,
                                vault_id,
                                nk,
                            ));
                        }
                        Ok(())
                    },
                    Err(e) => {
                        if matches!(e, CoreError::AuthenticationFailure | CoreError::CryptoError) {
                            self.log_failure(e, Some(user_id), now);
                        }
                        Err(e)
                    },
                }
            },
        }
    }

    /// Runs the credential-health check over every vault the caller owns.
    /// Plaintext and fingerprints exist only transiently inside the call;
    /// an unreachable breach feed degrades "breached" to unknown instead of
    /// failing the check.
    pub fn run_security_check(&mut self, breach: Option<&Vec<u64>>, now: u64) -> (r: Result<
        crate::scoring::SecurityCheckResult,
        CoreError,
    >)
        requires
            old(self).wf(),
        ensures
            final(self).wf(),
            final(self).config == old(self).config,
            final(self).store@ == old(self).store@,
            final(self).monitor@.attempts == old(self).monitor@.attempts,
            final(self).monitor@.threshold == old(self).monitor@.threshold,
            final(self).monitor@.window == old(self).monitor@.window,
            old(self).state is Locked ==> r == Err::<
                crate::scoring::SecurityCheckResult,
                CoreError,
            >(CoreError::Unauthorized) && final(self).state is Locked && final(self).monitor@
                == old(self).monitor@,
            !(old(self).state is Locked) && old(self).gate_expired(now) ==> r == Err::<
                crate::scoring::SecurityCheckResult,
                CoreError,
            >(CoreError::SessionExpired) && final(self).state is Locked && final(self).monitor@
                == old(self).monitor@,
            old(self).state matches SessionState::DecoyActive(d) ==> (!old(self).gate_expired(now)
                ==> (r is Ok && final(self).monitor@ == old(self).monitor@
                && (final(self).state matches SessionState::DecoyActive(d2) && d2.seed == d.seed
                && d2.session@ == (crate::auth::SessionModel {
                last_activity: now,
                ..d.session@
            })))),
            old(self).state matches SessionState::Unlocked(ctx) ==> (!old(self).gate_expired(now)
                ==> {
                let uid = ctx.session@.user_id;
                let entries = user_entries(
                    old(self).store@,
                    ctx.engine.key,
                    uid,
                    user_salt(old(self).store@, uid),
                    breach_model(breach),
                    now,
                    old(self).store@.vaults,
                );
                &&& (!old(self).store@.user_exists(uid) ==> r == Err::<
                    crate::scoring::SecurityCheckResult,
                    CoreError,
                >(CoreError::Unauthorized))
                &&& (old(self).store@.user_exists(uid) && user_vaults_decodable(
                    old(self).store@,
                    ctx.engine.key,
                    uid,
                ) ==> r is Ok)
                &&& (r matches Ok(res) ==> ({
                    &&& res.weak_passwords == crate::scoring::count_weak(
                        old(self).config.scoring,
                        entries,
                    )
                    &&& res.reused_passwords == crate::scoring::count_reused(entries)
                    &&& res.old_passwords == crate::scoring::count_old(
                        old(self).config.scoring,
                        entries,
                    )
                    &&& res.breached_passwords == crate::scoring::count_breached(entries)
                    &&& res.overall_score == crate::scoring::score(
                        old(self).config.scoring,
                        entries,
                    )
                    &&& res.breach_feed_available == breach is Some
                }))
                &&& (r matches Err(e) ==> e == CoreError::Unauthorized || is_crypto_failure(e))
                &&& (final(self).state matches SessionState::Unlocked(c2) && c2.session@ == (
                crate::auth::SessionModel { last_activity: now, ..ctx.session@ }) && c2.engine
                    == ctx.engine)
                &&& (r is Ok ==> final(self).monitor@.events == old(self).monitor@.events)
                &&& (r matches Err(e) ==> (!is_crypto_failure(e) ==> final(self).monitor@.events
                    == old(self).monitor@.events))
                &&& (r matches Err(e) ==> (is_crypto_failure(e) ==> final(self).monitor@.events
                    == old(self).monitor@.events.push(failure_event(e, Some(uid), now))))
            }),
    {
        let info = match self.gate(now) {
            Ok(i) => i,
            Err(e) => {
                return Err(e);
            },
        };
        match info {
            GateInfo::Decoy { user_id: _, seed: _ } => {
                let entries: Vec<crate::scoring::ScoredEntry> = Vec::new();
                let cfg = self.config.scoring;
                Ok(crate::scoring::score_vault(&cfg, &entries, matches!(breach, Some(_))))
            },
            GateInfo::Real { user_id, engine } => {
                let ui = match self.store.find_user(user_id) {
                    Some(i) => i,
                    None => {
                        return Err(CoreError::Unauthorized);
                    },
                };
                proof {
                    assert(user_index(self.store@, user_id) == ui as int) by {
                        let k = user_index(self.store@, user_id);
                        assert(self.store@.users[ui as int].id == user_id);
                        if k < ui as int {
                            assert(self.store@.users[k].id != self.store@.users[ui as int].id);
                        } else if k > ui as int {
                            assert(self.store@.users[ui as int].id != self.store@.users[k].id);
                        }
                    }
                }
                let salt = clone_bytes(&self.store.users[ui].salt);
                let ghost salt_model = salt@;
                let mut entries: Vec<crate::scoring::ScoredEntry> = Vec::new();
                let mut i: usize = 0;
                proof {
                    assert(user_entries(
                        self.store@,
                        engine.key,
                        user_id,
                        salt_model,
                        breach_model(breach),
                        now,
                        self.store@.vaults.subrange(0, 0),
                    ) =~= Seq::<crate::scoring::ScoredEntry>::empty());
                }
                while i < self.store.vaults.len()
                    invariant
                        i <= self.store.vaults.len(),
                        old(self).wf(),
                        self.config == old(self).config,
                        self.store@ == old(self).store@,
                        self.monitor@ == old(self).monitor@,
                        !(old(self).state is Locked),
                        !old(self).gate_expired(now),
                        old(self).state is Unlocked,
                        old(self).state matches SessionState::Unlocked(c) ==> c.engine.key
                            == engine.key && c.session@.user_id == user_id,
                        old(self).state matches SessionState::Unlocked(c) ==> (
                        self.state matches SessionState::Unlocked(c2) && c2.session@ == (
                        crate::auth::SessionModel { last_activity: now, ..c.session@ })
                            && c2.engine == c.engine),
                        self.store@.user_exists(user_id),
                        salt_model == salt@,
                        salt_model == user_salt(old(self).store@, user_id),
                        entries@ == user_entries(
                            self.store@,
                            engine.key,
                            user_id,
                            salt_model,
                            breach_model(breach),
                            now,
                            self.store@.vaults.subrange(0, i as int),
                        ),
                    decreases self.store.vaults.len() - i,
                {
                    proof {
                        assert(self.store@.vaults.subrange(0, i + 1).drop_last()
                            =~= self.store@.vaults.subrange(0, i as int));
                        assert(self.store@.vaults.subrange(0, i + 1).last() == self.store@.vaults[
                            i as int
                        ]);
                    }
                    let v = &self.store.vaults[i];
                    if v.user_id == user_id {
                        let opener = CryptoEngine { key: engine.key, ctr: 0 };
                        let key_plain = match opener.decrypt(&v.key_env) {
                            Ok(p) => p,
                            Err(_) => {
                                proof {
                                    if user_vaults_decodable(self.store@, engine.key, user_id) {
                                        assert(self.store@.vaults[i as int].user_id == user_id);
                                        assert(false);
                                    }
                                }
                                self.log_failure(
                                    CoreError::AuthenticationFailure,
                                    Some(user_id),
                                    now,
                                );
                                return Err(CoreError::AuthenticationFailure);
                            },
                        };
                        let dk = match crate::crypto::bytes_to_key(&key_plain) {
                            Some(k) => k,
                            None => {
                                proof {
                                    if user_vaults_decodable(self.store@, engine.key, user_id) {
                                        assert(self.store@.vaults[i as int].user_id == user_id);
                                        assert(false);
                                    }
                                }
                                self.log_failure(
                                    CoreError::AuthenticationFailure,
                                    Some(user_id),
                                    now,
                                );
                                return Err(CoreError::AuthenticationFailure);
                            },
                        };
                        let mut part = match scored_entries_for_vault(
                            &self.store,
                            dk,
                            v.id,
                            &salt,
                            breach,
                            now,
                        ) {
                            Ok(es) => es,
                            Err(e) => {
                                proof {
                                    if user_vaults_decodable(self.store@, engine.key, user_id) {
                                        assert(self.store@.vaults[i as int].user_id == user_id);
                                        assert(vault_fully_decodable(
                                            self.store@,
                                            self.store@.vaults[i as int].id,
                                            dk,
                                        ));
                                        assert(false);
                                    }
                                }
                                self.log_failure(e, Some(user_id), now);
                                return Err(e);
                            },
                        };
                        entries.append(&mut part);
                    }
                    i = i + 1;
                    proof {
                        assert(entries@ =~= user_entries(
                            self.store@,
                            engine.key,
                            user_id,
                            salt_model,
                            breach_model(breach),
                            now,
                            self.store@.vaults.subrange(0, i as int),
                        ));
                    }
                }
                proof {
                    assert(self.store@.vaults.subrange(0, self.store@.vaults.len() as int)
                        =~= self.store@.vaults);
                }
                let cfg = self.config.scoring;
                Ok(crate::scoring::score_vault(&cfg, &entries, matches!(breach, Some(_))))
            },
        }
    }

    /// Serializes a vault's decrypted records in the asked format. When
    /// export is disabled by policy, every request fails with PolicyDenied
    /// before anything else is considered.
    pub fn export_vault_data(&mut self, vault_id: u64, format: &String, now: u64) -> (r: Result<
        String,
        CoreError,
    >)
        requires
            old(self).wf(),
        ensures
            final(self).wf(),
            final(self).config == old(self).config,
            final(self).store@ == old(self).store@,
            final(self).monitor@.attempts == old(self).monitor@.attempts,
            final(self).monitor@.threshold == old(self).monitor@.threshold,
            final(self).monitor@.window == old(self).monitor@.window,
            !old(self).config.export_enabled ==> r == Err::<String, CoreError>(
                CoreError::PolicyDenied,
            ) && final(self).state == old(self).state && final(self).monitor@ == old(
                self,
            ).monitor@,
            old(self).config.export_enabled && old(self).state is Locked ==> r == Err::<
                String,
                CoreError,
            >(CoreError::Unauthorized) && final(self).state is Locked && final(self).monitor@
                == old(self).monitor@,
            old(self).config.export_enabled && !(old(self).state is Locked) && old(
                self,
            ).gate_expired(now) ==> r == Err::<String, CoreError>(CoreError::SessionExpired)
                && final(self).state is Locked && final(self).monitor@ == old(self).monitor@,
            old(self).config.export_enabled ==> (old(
                self,
            ).state matches SessionState::DecoyActive(d) ==> (!old(self).gate_expired(now) ==> (
            final(self).monitor@ == old(self).monitor@ && (
            final(self).state matches SessionState::DecoyActive(d2) && d2.seed == d.seed
                && d2.session@ == (crate::auth::SessionModel {
                last_activity: now,
                ..d.session@
            }))))),
            old(self).config.export_enabled ==> (old(self).state matches SessionState::Unlocked(
                ctx,
            ) ==> (!old(self).gate_expired(now) ==> {
                let vi = crate::rotation::vault_index(old(self).store@, vault_id);
                let dk = crate::crypto::unwrapped_key(
                    ctx.engine.key,
                    old(self).store@.vaults[vi].key_env,
                );
                &&& (r == Err::<String, CoreError>(CoreError::NotFound) <==> !old(
                    self,
                ).store@.vault_exists(vault_id))
                &&& (old(self).store@.vault_exists(vault_id) ==> (r == Err::<String, CoreError>(
                    CoreError::Unauthorized,
                ) <==> !old(self).store@.owns_vault(ctx.session@.user_id, vault_id)))
                &&& (r matches Ok(s) ==> ({
                    &&& dk is Some
                    &&& (format@ == "json"@ ==> s@ == crate::export::json_model(
                        export_entries(old(self).store@, vault_id, dk->Some_0),
                    ))
                    &&& (format@ == "csv"@ ==> s@ == crate::export::csv_model(
                        export_entries(old(self).store@, vault_id, dk->Some_0),
                    ))
                }))
                &&& (old(self).store@.owns_vault(ctx.session@.user_id, vault_id) && dk is Some
                    && vault_fully_decodable(old(self).store@, vault_id, dk->Some_0) && (format@
                    == "json"@ || format@ == "csv"@) ==> r is Ok)
                &&& (old(self).store@.owns_vault(ctx.session@.user_id, vault_id) && dk is Some
                    && vault_fully_decodable(old(self).store@, vault_id, dk->Some_0) && format@
                    != "json"@ && format@ != "csv"@ ==> r == Err::<String, CoreError>(
                    CoreError::UnsupportedFormat,
                ))
                &&& (final(self).state matches SessionState::Unlocked(c2) && c2.session@ == (
                crate::auth::SessionModel { last_activity: now, ..ctx.session@ }) && c2.engine
                    == ctx.engine)
                &&& (r is Ok ==> final(self).monitor@.events == old(self).monitor@.events)
                &&& (r matches Err(e) ==> (!is_crypto_failure(e) ==> final(self).monitor@.events
                    == old(self).monitor@.events))
                &&& (r matches Err(e) ==> (is_crypto_failure(e) ==> final(self).monitor@.events
                    == old(self).monitor@.events.push(
                    failure_event(e, Some(ctx.session@.user_id), now),
                )))
            })),
    {
        if !self.config.export_enabled {
            return Err(CoreError::PolicyDenied);
        }
        let plains = match self.get_vault_passwords(vault_id, now) {
            Ok(p) => p,
            Err(e) => {
                return Err(e);
            },
        };
        let mut entries: Vec<crate::export::ExportEntry> = Vec::new();
        let mut i: usize = 0;
        while i < plains.len()
            invariant
                i <= plains.len(),
                entries@.len() == i,
                forall|k: int|
                    0 <= k < i ==> (#[trigger] entries@[k])@ == (crate::export::ExportEntryModel {
                        title: plains@[k]@.title,
                        username: plains@[k]@.username,
                        password: plains@[k]@.password,
                        url: match plains@[k]@.url {
                            Some(u) => u,
                            None => Seq::empty(),
                        },
                        notes: match plains@[k]@.notes {
                            Some(nt) => nt,
                            None => Seq::empty(),
                        },
                    }),
            decreases plains.len() - i,
        {
            let p = &plains[i];
            entries.push(
                crate::export::ExportEntry {
                    title: crate::monitor::clone_string(&p.title),
                    username: crate::monitor::clone_string(&p.username),
                    password: crate::monitor::clone_string(&p.password),
                    url: match &p.url {
                        Some(u) => crate::monitor::clone_string(u),
                        None => String::new(),
                    },
                    notes: match &p.notes {
                        Some(nt) => crate::monitor::clone_string(nt),
                        None => String::new(),
                    },
                },
            );
            i = i + 1;
        }
        proof {
            match old(self).state {
                SessionState::Unlocked(c) => if !old(self).gate_expired(now) {
                    let vi = crate::rotation::vault_index(old(self).store@, vault_id);
                    let dko = crate::crypto::unwrapped_key(
                        c.engine.key,
                        old(self).store@.vaults[vi].key_env,
                    );
                    let dk = dko->Some_0;
                    let ents = export_entries(old(self).store@, vault_id, dk);
                    let recs = records_of(old(self).store@, vault_id);
                    assert forall|k: int| 0 <= k < entries@.len() implies (#[trigger] entries@[
                        k
                    ])@ == ents[k] by {
                        assert(plain_matches(plains@[k]@, recs[k], dk));
                        vstd::utf8::encode_utf8_decode_utf8(plains@[k]@.password);
                        match plains@[k]@.notes {
                            Some(nt) => {
                                vstd::utf8::encode_utf8_decode_utf8(nt);
                            },
                            None => {},
                        }
                    }
                    assert(entries@.map_values(|e: crate::export::ExportEntry| e@) =~= ents);
                },
                _ => {},
            }
        }
        crate::export::export_vault_data(&entries, format, true)
    }

    /// Enables biometric authentication for the caller when the platform
    /// capability probe succeeded. A decoy session acknowledges without
    /// touching the store.
    pub fn enable_biometric_auth(&mut self, probe_available: bool, now: u64) -> (r: Result<
        bool,
        CoreError,
    >)
        requires
            old(self).wf(),
        ensures
            final(self).wf(),
            final(self).config == old(self).config,
            final(self).monitor@ == old(self).monitor@,
            old(self).state is Locked ==> r == Err::<bool, CoreError>(CoreError::Unauthorized)
                && final(self).store@ == old(self).store@ && final(self).state is Locked,
            !(old(self).state is Locked) && old(self).gate_expired(now) ==> r == Err::<
                bool,
                CoreError,
            >(CoreError::SessionExpired) && final(self).state is Locked && final(self).store@
                == old(self).store@,
            old(self).state matches SessionState::DecoyActive(d) ==> (!old(self).gate_expired(now)
                ==> (final(self).store@ == old(self).store@ && r == Ok::<bool, CoreError>(
                probe_available,
            ) && (final(self).state matches SessionState::DecoyActive(d2) && d2.seed == d.seed
                && d2.session@ == (crate::auth::SessionModel {
                last_activity: now,
                ..d.session@
            })))),
            old(self).state matches SessionState::Unlocked(ctx) ==> (!old(self).gate_expired(now)
                ==> {
                &&& r == Ok::<bool, CoreError>(probe_available)
                &&& (final(self).state matches SessionState::Unlocked(c2) && c2.session@ == (
                crate::auth::SessionModel { last_activity: now, ..ctx.session@ }) && c2.engine
                    == ctx.engine)
                &&& (!probe_available ==> final(self).store@ == old(self).store@)
                &&& (probe_available ==> ({
                    &&& final(self).store@.vaults == old(self).store@.vaults
                    &&& final(self).store@.records == old(self).store@.records
                    &&& final(self).store@.users.len() == old(self).store@.users.len()
                    &&& forall|k: int|
                        0 <= k < old(self).store@.users.len() && old(self).store@.users[k].id
                            != ctx.session@.user_id ==> final(self).store@.users[k] == old(
                            self,
                        ).store@.users[k]
                    &&& forall|k: int|
                        0 <= k < old(self).store@.users.len() && old(self).store@.users[k].id
                            == ctx.session@.user_id ==> final(self).store@.users[k] == (
                        UserModel {
                            biometric_enabled: true,
                            ..old(self).store@.users[k]
                        })
                }))
            }),
    {
        let info = match self.gate(now) {
            Ok(i) => i,
            Err(e) => {
                return Err(e);
            },
        };
        match info {
            GateInfo::Decoy { user_id: _, seed: _ } => Ok(probe_available),
            GateInfo::Real { user_id, engine: _ } => {
                if probe_available {
                    self.store.set_user_biometric(user_id, true);
                }
                Ok(probe_available)
            },
        }
    }

    /// A summary for the shell: whether a session is active (a decoy one
    /// reads exactly like a real one), the size of the event log, and the
    /// highest severity seen.
    pub fn get_security_status(&self) -> (r: StatusReport)
        ensures
            r.authenticated == !(self.state is Locked),
            r.event_count == self.monitor@.events.len(),
            r.threat_level == max_severity(self.monitor@.events),
    {
        let authenticated = !matches!(&self.state, SessionState::Locked);
        let mut level = ThreatLevel::Info;
        let mut i: usize = 0;
        proof {
            assert(self.monitor@.events.subrange(0, 0) =~= Seq::<EventModel>::empty());
        }
        while i < self.monitor.events.len()
            invariant
                i <= self.monitor.events.len(),
                level == max_severity(self.monitor@.events.subrange(0, i as int)),
            decreases self.monitor.events.len() - i,
        {
            proof {
                assert(self.monitor@.events.subrange(0, i + 1).drop_last()
                    =~= self.monitor@.events.subrange(0, i as int));
                assert(self.monitor@.events.subrange(0, i + 1).last() == self.monitor@.events[
                    i as int
                ]);
            }
            let e = &self.monitor.events[i];
            if e.severity.at_least(&level) {
                level = e.severity;
            }
            i = i + 1;
        }
        proof {
            assert(self.monitor@.events.subrange(0, self.monitor@.events.len() as int)
                =~= self.monitor@.events);
        }
        StatusReport {
            authenticated,
            event_count: self.monitor.events.len() as u64,
            threat_level: level,
        }
    }

    /// Serves the decoy for a vault and pins the session to it: from here
    /// on, no command in this session can expose real plaintext. Within one
    /// session, repeated triggers keep the same seed, so the decoy is
    /// byte-for-byte stable.
    pub fn trigger_decoy_vault(&mut self, vault_id: u64, now: u64) -> (r: Result<
        crate::decoy::DecoyVault,
        CoreError,
    >)
        requires
            old(self).wf(),
        ensures
            final(self).wf(),
            final(self).config == old(self).config,
            final(self).store@ == old(self).store@,
            final(self).monitor@ == old(self).monitor@,
            old(self).state is Locked ==> r == Err::<crate::decoy::DecoyVault, CoreError>(
                CoreError::Unauthorized,
            ) && final(self).state is Locked,
            !(old(self).state is Locked) && old(self).gate_expired(now) ==> r == Err::<
                crate::decoy::DecoyVault,
                CoreError,
            >(CoreError::SessionExpired) && final(self).state is Locked,
            !(old(self).state is Locked) && !old(self).gate_expired(now) ==> ({
                &&& (r matches Ok(dv) && final(self).state matches SessionState::DecoyActive(d2)
                    && dv.vault_id == vault_id && dv.records@.map_values(
                    |x: crate::decoy::DecoyRecord| x@,
                ) == crate::decoy::decoy_model(vault_id, d2.seed))
            }),
            old(self).state matches SessionState::Unlocked(ctx) ==> (!old(self).gate_expired(now)
                ==> (final(self).state matches SessionState::DecoyActive(d2)
                && d2.session@.user_id == ctx.session@.user_id && d2.session@.created_at
                == ctx.session@.created_at && d2.session@.token == ctx.session@.token
                && d2.session@.last_activity == now)),
            old(self).state matches SessionState::DecoyActive(d) ==> (!old(self).gate_expired(now)
                ==> (final(self).state matches SessionState::DecoyActive(d2) && d2.seed == d.seed
                && d2.session@ == (crate::auth::SessionModel {
                last_activity: now,
                ..d.session@
            }) && (r matches Ok(dv) && dv.records@.map_values(|x: crate::decoy::DecoyRecord| x@)
                == crate::decoy::decoy_model(vault_id, d.seed)))),
    {
        let info = match self.gate(now) {
            Ok(i) => i,
            Err(e) => {
                return Err(e);
            },
        };
        let seed = match info {
            GateInfo::Decoy { user_id: _, seed } => seed,
            GateInfo::Real { user_id, engine: _ } => {
                let fresh = sys::fresh_random_u64();
                let replacement = match &self.state {
                    SessionState::Unlocked(ctx) => DecoyContext {
                        session: Session {
                            user_id: ctx.session.user_id,
                            token: crate::monitor::clone_string(&ctx.session.token),
                            created_at: ctx.session.created_at,
                            last_activity: now,
                        },
                        seed: fresh,
                    },
                    _ => DecoyContext {
                        session: Session {
                            user_id,
                            token: sys::new_session_token(),
                            created_at: now,
                            last_activity: now,
                        },
                        seed: fresh,
                    },
                };
                self.state = SessionState::DecoyActive(replacement);
                fresh
            },
        };
        Ok(crate::decoy::materialize_decoy(vault_id, seed))
    }
}

/// The number of recorded failures for this identity inside the window.
fn count_rapid_failures(monitor: &SecurityMonitor, identity: &String, now: u64) -> (r: u64)
    ensures
        r == fail_count(monitor@.attempts, identity@, now, monitor@.window),
{
    let mut cnt: u64 = 0;
    let mut i: usize = 0;
    while i < monitor.attempts.len()
        invariant
            i <= monitor.attempts.len(),
            cnt <= i,
            cnt == fail_count(
                monitor@.attempts.subrange(0, i as int),
                identity@,
                now,
                monitor@.window,
            ),
        decreases monitor.attempts.len() - i,
    {
        proof {
            assert(monitor@.attempts.subrange(0, i + 1).drop_last() =~= monitor@.attempts.subrange(
                0,
                i as int,
            ));
            assert(monitor@.attempts.subrange(0, i + 1).last() == monitor@.attempts[i as int]);
        }
        let a = &monitor.attempts[i];
        if a.identity == *identity && a.time <= now && now - a.time < monitor.window {
            cnt = cnt + 1;
        }
        i = i + 1;
    }
    proof {
        assert(monitor@.attempts.subrange(0, monitor@.attempts.len() as int) =~= monitor@.attempts);
    }
    cnt
}

} // verus!
