use agies_core::commands::AppCore;
use agies_core::scoring::{score_vault, ScoredEntry, ScoringConfig};
use agies_core::passgen::generate_secure_password;
use agies_core::CoreError;

fn entry(fp: u64, length: u64, classes: u64, age: u64, breached: bool) -> ScoredEntry {
    ScoredEntry { fingerprint: fp, length, classes, age, breached }
}

#[test]
fn score_of_empty_vault_is_perfect() {
    let cfg = ScoringConfig::standard();
    let entries: Vec<ScoredEntry> = Vec::new();
    let r = score_vault(&cfg, &entries, true);
    assert_eq!(r.overall_score, 100);
    assert_eq!(r.weak_passwords, 0);
    assert!(r.recommendations.is_empty());
    assert!(r.breach_feed_available);
}

#[test]
fn score_deducts_exactly_per_finding() {
    let cfg = ScoringConfig::standard();
    // One weak (short), one old, one breached, no reuse:
    // 100 - 10 (weak) - 5 (old) - 20 (breached) = 65.
    let entries = vec![
        entry(1, 4, 4, 0, false),
        entry(2, 12, 4, 8_000_000, false),
        entry(3, 12, 4, 0, true),
    ];
    let r = score_vault(&cfg, &entries, true);
    assert_eq!(r.weak_passwords, 1);
    assert_eq!(r.old_passwords, 1);
    assert_eq!(r.breached_passwords, 1);
    assert_eq!(r.reused_passwords, 0);
    assert_eq!(r.overall_score, 65);
    assert_eq!(
        r.recommendations,
        vec![
            "Strengthen weak passwords".to_string(),
            "Rotate old passwords".to_string(),
            "Change breached passwords immediately".to_string(),
        ]
    );
}

#[test]
fn duplicate_password_increases_reused_and_never_the_score() {
    let cfg = ScoringConfig::standard();
    let base = vec![entry(1, 12, 4, 0, false), entry(2, 12, 4, 0, false)];
    let r0 = score_vault(&cfg, &base, false);
    assert_eq!(r0.reused_passwords, 0);
    let mut dup = base.clone();
    dup.push(entry(1, 12, 4, 0, false));
    let r1 = score_vault(&cfg, &dup, false);
    // Both copies of fingerprint 1 now count as reused.
    assert_eq!(r1.reused_passwords, 2);
    assert!(r1.overall_score <= r0.overall_score);
    // Two entries share the fingerprint, so the deduction is 2 * 15.
    assert_eq!(r1.overall_score, 70);
}

#[test]
fn score_floors_at_zero() {
    let cfg = ScoringConfig::standard();
    let mut entries: Vec<ScoredEntry> = Vec::new();
    for k in 0..30u64 {
        entries.push(entry(k, 1, 1, 9_000_000, true));
    }
    let r = score_vault(&cfg, &entries, true);
    assert_eq!(r.overall_score, 0);
}

#[test]
fn breach_feed_marks_matching_fingerprints() {
    let mut core = AppCore::new(3600, true, 100, 5, 3600);
    let now = 1_700_000_000u64;
    core.register_user("alice@example.com".to_string(), "CorrectHorse1!".to_string(), now)
        .unwrap();
    core.authenticate_user(&"alice@example.com".to_string(), &"CorrectHorse1!".to_string(), false, now)
        .unwrap();
    let vault = core.create_vault("Personal".to_string(), None, None, now).unwrap();
    core.add_password(
        vault,
        "Mail".to_string(),
        "alice".to_string(),
        "Str0ng&Long".to_string(),
        None,
        None,
        Vec::new(),
        now,
    )
    .unwrap();
    // An unreachable feed degrades to unknown rather than failing.
    let degraded = core.run_security_check(None, now).unwrap();
    assert!(!degraded.breach_feed_available);
    assert_eq!(degraded.breached_passwords, 0);
    // A feed with no matching fingerprint flags nothing.
    let feed: Vec<u64> = vec![12345];
    let clean = core.run_security_check(Some(&feed), now).unwrap();
    assert!(clean.breach_feed_available);
    assert_eq!(clean.breached_passwords, 0);
}

#[test]
fn generated_passwords_honor_length_and_charset() {
    let p = generate_secure_password(24, false, true, false, true).unwrap();
    assert_eq!(p.chars().count(), 24);
    assert!(p.chars().all(|c| c.is_ascii_lowercase() || c.is_ascii_digit()));
    let q = generate_secure_password(16, true, true, true, true).unwrap();
    assert_eq!(q.chars().count(), 16);
    let digits_only = generate_secure_password(50, false, true, false, false).unwrap();
    assert!(digits_only.chars().all(|c| c.is_ascii_digit()));
}

#[test]
fn empty_charset_is_invalid_config() {
    assert!(matches!(
        generate_secure_password(10, false, false, false, false),
        Err(CoreError::InvalidConfig)
    ));
}

#[test]
fn zero_length_password_is_allowed() {
    let p = generate_secure_password(0, true, true, true, true).unwrap();
    assert_eq!(p.len(), 0);
}

fn exporting_core() -> (AppCore, u64, u64) {
    let now = 1_700_000_000u64;
    let mut core = AppCore::new(3600, true, 100, 5, 3600);
    core.register_user("alice@example.com".to_string(), "CorrectHorse1!".to_string(), now)
        .unwrap();
    core.authenticate_user(&"alice@example.com".to_string(), &"CorrectHorse1!".to_string(), false, now)
        .unwrap();
    let vault = core.create_vault("Personal".to_string(), None, None, now).unwrap();
    core.add_password(
        vault,
        "Mail".to_string(),
        "alice".to_string(),
        "S3cr3t!".to_string(),
        None,
        None,
        Vec::new(),
        now,
    )
    .unwrap();
    (core, vault, now)
}

#[test]
fn csv_export_is_exact() {
    let (mut core, vault, now) = exporting_core();
    let csv = core.export_vault_data(vault, &"csv".to_string(), now).unwrap();
    assert_eq!(csv, "Title,Username,Password,URL,Notes\nMail,alice,S3cr3t!,,\n");
}

#[test]
fn json_export_is_exact_and_escaped() {
    let (mut core, vault, now) = exporting_core();
    core.add_password(
        vault,
        "Quo\"te".to_string(),
        "back\\slash".to_string(),
        "p".to_string(),
        None,
        None,
        Vec::new(),
        now,
    )
    .unwrap();
    let json = core.export_vault_data(vault, &"json".to_string(), now).unwrap();
    let expected = "[{\"title\":\"Mail\",\"username\":\"alice\",\"password\":\"S3cr3t!\",\"url\":\"\",\"notes\":\"\"},{\"title\":\"Quo\\\"te\",\"username\":\"back\\\\slash\",\"password\":\"p\",\"url\":\"\",\"notes\":\"\"}]";
    assert_eq!(json, expected);
    // The output parses as JSON and holds what was stored.
    let parsed: serde_json::Value = serde_json::from_str(&json).unwrap();
    assert_eq!(parsed[0]["password"], "S3cr3t!");
    assert_eq!(parsed[1]["title"], "Quo\"te");
}

#[test]
fn unsupported_format_is_refused() {
    let (mut core, vault, now) = exporting_core();
    assert!(matches!(
        core.export_vault_data(vault, &"xml".to_string(), now),
        Err(CoreError::UnsupportedFormat)
    ));
}

#[test]
fn disabled_export_policy_always_denies() {
    let now = 1_700_000_000u64;
    let mut core = AppCore::new(3600, false, 100, 5, 3600);
    core.register_user("alice@example.com".to_string(), "CorrectHorse1!".to_string(), now)
        .unwrap();
    core.authenticate_user(&"alice@example.com".to_string(), &"CorrectHorse1!".to_string(), false, now)
        .unwrap();
    let vault = core.create_vault("Personal".to_string(), None, None, now).unwrap();
    assert!(matches!(
        core.export_vault_data(vault, &"json".to_string(), now),
        Err(CoreError::PolicyDenied)
    ));
    // Even with a bad format or no session, policy wins.
    assert!(matches!(
        core.export_vault_data(vault, &"xml".to_string(), now),
        Err(CoreError::PolicyDenied)
    ));
    core.lock_application(now);
    assert!(matches!(
        core.export_vault_data(vault, &"json".to_string(), now),
        Err(CoreError::PolicyDenied)
    ));
}

#[test]
fn error_messages_are_generic() {
    assert_eq!(CoreError::InvalidCredentials.message(), "Invalid credentials");
    assert_eq!(
        CoreError::BruteForceBlocked.message(),
        "Too many failed attempts. Please try again later."
    );
}

#[test]
fn timestamps_are_available() {
    let t = agies_core::get_current_timestamp();
    assert!(t > 1_500_000_000);
}
