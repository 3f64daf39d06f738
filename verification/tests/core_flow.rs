use agies_core::commands::AppCore;
use agies_core::CoreError;

const HOUR: u64 = 3600;

fn fresh_core() -> AppCore {
    // 30-minute session timeout, export enabled, duress after 100 rapid
    // failures (high enough that ordinary tests never trip it), block after
    // 5 failures inside a 1-hour window.
    AppCore::new(30 * 60, true, 100, 5, HOUR)
}

#[test]
fn register_authenticate_add_list_check() {
    let mut core = fresh_core();
    let now = 1_700_000_000u64;
    core.register_user("alice@example.com".to_string(), "CorrectHorse1!".to_string(), now)
        .unwrap();
    let outcome = core
        .authenticate_user(&"alice@example.com".to_string(), &"CorrectHorse1!".to_string(), false, now)
        .unwrap();
    assert_eq!(outcome.session_token.len(), 36);
    let vault = core
        .create_vault("Personal".to_string(), None, None, now)
        .unwrap();
    core.add_password(
        vault,
        "Mail".to_string(),
        "alice".to_string(),
        "S3cr3t!".to_string(),
        None,
        None,
        Vec::new(),
        now,
    )
    .unwrap();
    let records = core.get_vault_passwords(vault, now).unwrap();
    assert_eq!(records.len(), 1);
    assert_eq!(records[0].title, "Mail");
    assert_eq!(records[0].username, "alice");
    assert_eq!(records[0].password, "S3cr3t!");
    let check = core.run_security_check(None, now).unwrap();
    assert_eq!(check.weak_passwords, 0);
    assert_eq!(check.reused_passwords, 0);
    assert!(!check.breach_feed_available);
}

#[test]
fn sixth_attempt_blocked_even_with_correct_password() {
    let mut core = fresh_core();
    let now = 1_700_000_000u64;
    let email = "alice@example.com".to_string();
    core.register_user(email.clone(), "CorrectHorse1!".to_string(), now).unwrap();
    for k in 0..5u64 {
        let r = core.authenticate_user(&email, &"wrong password".to_string(), false, now + k);
        assert!(matches!(r, Err(CoreError::InvalidCredentials)));
    }
    let r = core.authenticate_user(&email, &"CorrectHorse1!".to_string(), false, now + 5);
    assert!(matches!(r, Err(CoreError::BruteForceBlocked)));
}

#[test]
fn window_elapses_and_correct_attempt_succeeds() {
    let mut core = fresh_core();
    let now = 1_700_000_000u64;
    let email = "alice@example.com".to_string();
    core.register_user(email.clone(), "CorrectHorse1!".to_string(), now).unwrap();
    for k in 0..5u64 {
        let _ = core.authenticate_user(&email, &"wrong password".to_string(), false, now + k);
    }
    assert!(matches!(
        core.authenticate_user(&email, &"CorrectHorse1!".to_string(), false, now + 5),
        Err(CoreError::BruteForceBlocked)
    ));
    // After the window has slid past every failure, the same credentials work.
    let later = now + HOUR + 10;
    assert!(core.authenticate_user(&email, &"CorrectHorse1!".to_string(), false, later).is_ok());
}

#[test]
fn registration_rejects_weak_and_taken() {
    let mut core = fresh_core();
    let now = 1_700_000_000u64;
    assert!(matches!(
        core.register_user("bob@example.com".to_string(), "short".to_string(), now),
        Err(CoreError::WeakPassword)
    ));
    assert!(matches!(
        core.register_user("bob@example.com".to_string(), "alllowercase".to_string(), now),
        Err(CoreError::WeakPassword)
    ));
    core.register_user("bob@example.com".to_string(), "CorrectHorse1!".to_string(), now)
        .unwrap();
    assert!(matches!(
        core.register_user("bob@example.com".to_string(), "OtherStrong2@".to_string(), now),
        Err(CoreError::EmailTaken)
    ));
}

#[test]
fn locked_core_refuses_and_session_expires() {
    let mut core = fresh_core();
    let now = 1_700_000_000u64;
    assert!(matches!(core.get_vaults(now), Err(CoreError::Unauthorized)));
    core.register_user("alice@example.com".to_string(), "CorrectHorse1!".to_string(), now)
        .unwrap();
    core.authenticate_user(&"alice@example.com".to_string(), &"CorrectHorse1!".to_string(), false, now)
        .unwrap();
    assert!(core.get_vaults(now + 60).is_ok());
    // Inactivity beyond the 30-minute timeout forces Locked.
    let much_later = now + 60 + 31 * 60;
    assert!(matches!(core.get_vaults(much_later), Err(CoreError::SessionExpired)));
    assert!(matches!(core.get_vaults(much_later), Err(CoreError::Unauthorized)));
}

#[test]
fn lock_is_idempotent_and_drops_the_session() {
    let mut core = fresh_core();
    let now = 1_700_000_000u64;
    core.register_user("alice@example.com".to_string(), "CorrectHorse1!".to_string(), now)
        .unwrap();
    core.authenticate_user(&"alice@example.com".to_string(), &"CorrectHorse1!".to_string(), false, now)
        .unwrap();
    core.lock_application(now);
    core.lock_application(now);
    assert!(matches!(core.get_vaults(now), Err(CoreError::Unauthorized)));
}

#[test]
fn unknown_vault_and_foreign_vault_are_refused() {
    let mut core = fresh_core();
    let now = 1_700_000_000u64;
    core.register_user("alice@example.com".to_string(), "CorrectHorse1!".to_string(), now)
        .unwrap();
    core.register_user("eve@example.com".to_string(), "EvilStrong3#".to_string(), now)
        .unwrap();
    core.authenticate_user(&"alice@example.com".to_string(), &"CorrectHorse1!".to_string(), false, now)
        .unwrap();
    let vault = core.create_vault("Personal".to_string(), None, None, now).unwrap();
    assert!(matches!(
        core.get_vault_passwords(vault + 999, now),
        Err(CoreError::NotFound)
    ));
    // Eve authenticates; Alice's vault is not hers.
    core.authenticate_user(&"eve@example.com".to_string(), &"EvilStrong3#".to_string(), false, now)
        .unwrap();
    assert!(matches!(
        core.get_vault_passwords(vault, now),
        Err(CoreError::Unauthorized)
    ));
}

#[test]
fn busy_store_rejects_writes() {
    let mut core = fresh_core();
    let now = 1_700_000_000u64;
    core.register_user("alice@example.com".to_string(), "CorrectHorse1!".to_string(), now)
        .unwrap();
    core.authenticate_user(&"alice@example.com".to_string(), &"CorrectHorse1!".to_string(), false, now)
        .unwrap();
    let vault = core.create_vault("Personal".to_string(), None, None, now).unwrap();
    core.store.set_busy(true);
    assert!(matches!(
        core.add_password(
            vault,
            "t".to_string(),
            "u".to_string(),
            "p".to_string(),
            None,
            None,
            Vec::new(),
            now
        ),
        Err(CoreError::VaultBusy)
    ));
    assert!(matches!(core.rotate_keys(vault, now), Err(CoreError::VaultBusy)));
    core.store.set_busy(false);
    assert!(core.add_password(
        vault,
        "t".to_string(),
        "u".to_string(),
        "p".to_string(),
        None,
        None,
        Vec::new(),
        now
    )
    .is_ok());
}

#[test]
fn unicode_password_round_trips() {
    let mut core = fresh_core();
    let now = 1_700_000_000u64;
    core.register_user("alice@example.com".to_string(), "CorrectHorse1!".to_string(), now)
        .unwrap();
    core.authenticate_user(&"alice@example.com".to_string(), &"CorrectHorse1!".to_string(), false, now)
        .unwrap();
    let vault = core.create_vault("Personal".to_string(), None, None, now).unwrap();
    core.add_password(
        vault,
        "Umlauts".to_string(),
        "björn".to_string(),
        "pässwörd-mit-ümläuten".to_string(),
        Some("https://example.com".to_string()),
        Some("nötes".to_string()),
        vec!["tag1".to_string(), "tag2".to_string()],
        now,
    )
    .unwrap();
    let records = core.get_vault_passwords(vault, now).unwrap();
    assert_eq!(records[0].password, "pässwörd-mit-ümläuten");
    assert_eq!(records[0].notes.as_deref(), Some("nötes"));
    assert_eq!(records[0].url.as_deref(), Some("https://example.com"));
    assert_eq!(records[0].tags, vec!["tag1".to_string(), "tag2".to_string()]);
}

#[test]
fn rotation_interrupted_leaves_all_records_under_old_key() {
    let mut core = fresh_core();
    let now = 1_700_000_000u64;
    core.register_user("alice@example.com".to_string(), "CorrectHorse1!".to_string(), now)
        .unwrap();
    core.authenticate_user(&"alice@example.com".to_string(), &"CorrectHorse1!".to_string(), false, now)
        .unwrap();
    let vault = core.create_vault("Personal".to_string(), None, None, now).unwrap();
    for k in 0..4 {
        core.add_password(
            vault,
            format!("entry{}", k),
            "alice".to_string(),
            format!("password-{}", k),
            None,
            None,
            Vec::new(),
            now,
        )
        .unwrap();
    }
    // Corrupt record 2 of 4, simulating a failure mid-rotation.
    let saved = core.store.records[2].password_env.ct[0];
    core.store.records[2].password_env.ct[0] ^= 1;
    assert!(matches!(
        core.rotate_keys(vault, now),
        Err(CoreError::AuthenticationFailure)
    ));
    // The store is untouched: restoring the flipped bit restores the vault
    // exactly as it was, every record decryptable under the original key.
    core.store.records[2].password_env.ct[0] = saved;
    let records = core.get_vault_passwords(vault, now).unwrap();
    assert_eq!(records.len(), 4);
    for k in 0..4 {
        assert_eq!(records[k].password, format!("password-{}", k));
    }
}

#[test]
fn successful_rotation_keeps_every_plaintext() {
    let mut core = fresh_core();
    let now = 1_700_000_000u64;
    core.register_user("alice@example.com".to_string(), "CorrectHorse1!".to_string(), now)
        .unwrap();
    core.authenticate_user(&"alice@example.com".to_string(), &"CorrectHorse1!".to_string(), false, now)
        .unwrap();
    let vault = core.create_vault("Personal".to_string(), None, None, now).unwrap();
    for k in 0..3 {
        core.add_password(
            vault,
            format!("entry{}", k),
            "alice".to_string(),
            format!("password-{}", k),
            None,
            Some(format!("note-{}", k)),
            Vec::new(),
            now,
        )
        .unwrap();
    }
    let before: Vec<(u64, Vec<u8>)> = core
        .store
        .records
        .iter()
        .map(|r| (r.password_env.tag, r.password_env.ct.clone()))
        .collect();
    core.rotate_keys(vault, now).unwrap();
    // The ciphertext material changed...
    let after: Vec<(u64, Vec<u8>)> = core
        .store
        .records
        .iter()
        .map(|r| (r.password_env.tag, r.password_env.ct.clone()))
        .collect();
    assert_ne!(before, after);
    // ...but every plaintext is intact under the new key.
    let records = core.get_vault_passwords(vault, now).unwrap();
    for k in 0..3 {
        assert_eq!(records[k].password, format!("password-{}", k));
        assert_eq!(records[k].notes.as_deref(), Some(format!("note-{}", k).as_str()));
    }
}

#[test]
fn decoy_is_stable_within_a_session_and_free_of_real_data() {
    let mut core = fresh_core();
    let now = 1_700_000_000u64;
    core.register_user("alice@example.com".to_string(), "CorrectHorse1!".to_string(), now)
        .unwrap();
    core.authenticate_user(&"alice@example.com".to_string(), &"CorrectHorse1!".to_string(), false, now)
        .unwrap();
    let vault = core.create_vault("Personal".to_string(), None, None, now).unwrap();
    core.add_password(
        vault,
        "Mail".to_string(),
        "alice".to_string(),
        "S3cr3t!".to_string(),
        None,
        None,
        Vec::new(),
        now,
    )
    .unwrap();
    let real_ct = core.store.records[0].password_env.ct.clone();
    let d1 = core.trigger_decoy_vault(vault, now).unwrap();
    let d2 = core.trigger_decoy_vault(vault, now).unwrap();
    assert_eq!(d1.records.len(), d2.records.len());
    for k in 0..d1.records.len() {
        assert_eq!(d1.records[k].title, d2.records[k].title);
        assert_eq!(d1.records[k].username, d2.records[k].username);
        assert_eq!(d1.records[k].password, d2.records[k].password);
    }
    assert!(!d1.records.is_empty());
    for rec in &d1.records {
        assert_ne!(rec.password, "S3cr3t!");
        // No decoy password contains the real ciphertext bytes.
        assert!(!rec.password.as_bytes().windows(real_ct.len().max(1)).any(|w| w == &real_ct[..]));
    }
}

#[test]
fn panic_trigger_serves_decoy_and_shields_the_store() {
    let mut core = fresh_core();
    let now = 1_700_000_000u64;
    core.register_user("alice@example.com".to_string(), "CorrectHorse1!".to_string(), now)
        .unwrap();
    core.authenticate_user(&"alice@example.com".to_string(), &"CorrectHorse1!".to_string(), false, now)
        .unwrap();
    let vault = core.create_vault("Personal".to_string(), None, None, now).unwrap();
    core.add_password(
        vault,
        "Mail".to_string(),
        "alice".to_string(),
        "S3cr3t!".to_string(),
        None,
        None,
        Vec::new(),
        now,
    )
    .unwrap();
    // Authenticate under duress: success is reported, but the session is a decoy.
    core.authenticate_user(&"alice@example.com".to_string(), &"CorrectHorse1!".to_string(), true, now)
        .unwrap();
    let listed = core.get_vault_passwords(vault, now).unwrap();
    assert!(listed.iter().all(|r| r.password != "S3cr3t!"));
    // Writes in decoy mode look like successes but reach nothing real.
    let records_before = core.store.records.len();
    core.add_password(
        vault,
        "Fake".to_string(),
        "x".to_string(),
        "y".to_string(),
        None,
        None,
        Vec::new(),
        now,
    )
    .unwrap();
    assert_eq!(core.store.records.len(), records_before);
}

#[test]
fn status_reports_log_size_and_severity() {
    let mut core = fresh_core();
    let now = 1_700_000_000u64;
    let s0 = core.get_security_status();
    assert!(!s0.authenticated);
    assert_eq!(s0.event_count, 0);
    core.register_user("alice@example.com".to_string(), "CorrectHorse1!".to_string(), now)
        .unwrap();
    let _ = core.authenticate_user(&"alice@example.com".to_string(), &"nope".to_string(), false, now);
    let s1 = core.get_security_status();
    assert_eq!(s1.event_count, 2);
    assert_eq!(s1.threat_level, agies_core::monitor::ThreatLevel::Medium);
}

#[test]
fn crypto_failures_are_detailed_in_the_event_log() {
    let mut core = fresh_core();
    let now = 1_700_000_000u64;
    core.register_user("alice@example.com".to_string(), "CorrectHorse1!".to_string(), now)
        .unwrap();
    core.authenticate_user(&"alice@example.com".to_string(), &"CorrectHorse1!".to_string(), false, now)
        .unwrap();
    let vault = core.create_vault("Personal".to_string(), None, None, now).unwrap();
    core.add_password(
        vault,
        "Mail".to_string(),
        "alice".to_string(),
        "S3cr3t!".to_string(),
        None,
        None,
        Vec::new(),
        now,
    )
    .unwrap();
    let events_before = core.monitor.events.len();
    core.store.records[0].password_env.ct[0] ^= 1;
    assert!(matches!(
        core.get_vault_passwords(vault, now),
        Err(CoreError::AuthenticationFailure)
    ));
    assert_eq!(core.monitor.events.len(), events_before + 1);
    let last = core.monitor.events.last().unwrap();
    assert_eq!(last.event_type, "crypto_error");
    assert_eq!(last.severity, agies_core::monitor::ThreatLevel::High);
    assert_eq!(last.description, "Envelope failed authentication");
    assert!(last.user_id.is_some());
}

#[test]
fn internal_event_carries_the_real_failure_reason() {
    let mut core = fresh_core();
    let now = 1_700_000_000u64;
    core.register_user("alice@example.com".to_string(), "CorrectHorse1!".to_string(), now)
        .unwrap();
    // Unknown identity: generic error outside, the real reason inside.
    let r1 = core.authenticate_user(&"nobody@example.com".to_string(), &"whatever".to_string(), false, now);
    assert!(matches!(r1, Err(CoreError::InvalidCredentials)));
    assert_eq!(core.monitor.events.last().unwrap().description, "Unknown identity");
    // Wrong password for a known identity: same generic error, other reason.
    let r2 = core.authenticate_user(&"alice@example.com".to_string(), &"wrong".to_string(), false, now);
    assert!(matches!(r2, Err(CoreError::InvalidCredentials)));
    assert_eq!(core.monitor.events.last().unwrap().description, "Password mismatch");
    // The caller-visible message is identical in both cases.
    assert_eq!(
        CoreError::InvalidCredentials.message(),
        "Invalid credentials"
    );
}
