use codex_meter::calendar::Date;
use codex_meter::domain::identity::{mask_email, normalize_email, IdentityError, IdentityHasher};
use codex_meter::domain::time::{can_be_local, shanghai_date, utc_epoch_ms_to_shanghai};
use codex_meter::digest::hex_digest;
use codex_meter::service::{usage_due, SyncPhase, SyncRounds};

#[test]
fn email_is_masked_and_hmac_is_stable() {
    let hasher = IdentityHasher::new(b"phase1-test-secret").unwrap();
    let first = hasher.from_email(" Alice.Example@example.com ").unwrap();
    let second = hasher.from_email("alice.example@EXAMPLE.com").unwrap();

    assert_eq!(first, second);
    assert_eq!(first.email_masked, "a***@e.com***");
    assert_eq!(first.identity_hmac.len(), 64);
    assert!(!first.email_masked.contains("alice.example"));
    assert!(!first.email_masked.contains("@example.com"));
}

#[test]
fn invalid_email_and_empty_secret_are_rejected() {
    assert!(matches!(
        IdentityHasher::new(b""),
        Err(IdentityError::EmptySecret)
    ));
    let hasher = IdentityHasher::new(b"secret").unwrap();
    assert_eq!(
        hasher.from_email("not-an-email"),
        Err(IdentityError::InvalidEmail)
    );
}

#[test]
fn addresses_need_one_sign_with_something_on_both_sides() {
    assert_eq!(normalize_email(" A@B.c ").unwrap(), "a@b.c");
    for bad in ["@b", "a@", "a@b@c", ""] {
        assert!(matches!(
            normalize_email(bad),
            Err(IdentityError::InvalidEmail)
        ));
    }
    assert_eq!(mask_email("bob@mail.example.org"), "b***@m.org***");
}

#[test]
fn fingerprints_are_keyed() {
    let first = IdentityHasher::new(b"key").unwrap();
    let second = IdentityHasher::new(b"other").unwrap();
    let text = "The quick brown fox jumps over the lazy dog";
    assert_eq!(
        first.fingerprint(text),
        "f7bc83f430538424b13298e6aa6fb143ef4d59a14946175997479dbc2d1a3cd8"
    );
    assert_ne!(first.fingerprint(text), second.fingerprint(text));
}

#[test]
fn digests_are_those_of_the_standard() {
    assert_eq!(
        hex_digest(b"abc"),
        "ba7816bf8f01cfea414140de5dae2223b00361a396177a9cb410ff61f20015ad"
    );
}

#[test]
fn epoch_is_displayed_in_asia_shanghai() {
    let local = utc_epoch_ms_to_shanghai(0).unwrap();
    assert_eq!(local.hour(), 8);
    assert_eq!(shanghai_date(0).unwrap(), "1970-01-01");
}

#[test]
fn days_change_at_sixteen_hours_utc() {
    assert_eq!(shanghai_date(57_599_999).unwrap(), "1970-01-01");
    assert_eq!(shanghai_date(57_600_000).unwrap(), "1970-01-02");
    assert_eq!(shanghai_date(-28_800_001).unwrap(), "1969-12-31");
    assert!(can_be_local(i64::MAX));
    assert!(shanghai_date(i64::MAX).is_err());
    assert!(!can_be_local(253_402_300_799_999));
}

#[test]
fn written_dates_read_back() {
    let date = Date::new(2028, 2, 29).unwrap();
    assert_eq!(date.to_text(), "2028-02-29");
    assert_eq!(
        codex_meter::calendar::parse_iso_date("2028-02-29"),
        Some(date)
    );
    assert_eq!(codex_meter::calendar::parse_iso_date("2027-02-29"), None);
    assert_eq!(codex_meter::calendar::parse_iso_date("2028-2-29"), None);
    let day = date.to_julian_day();
    assert_eq!(Date::from_julian_day(day), Some(date));
    assert_eq!(
        Date::from_julian_day(day + 1).unwrap().to_text(),
        "2028-03-01"
    );
    assert_eq!(Date::from_julian_day(i64::MAX), None);
}

#[test]
fn the_first_round_ends_with_the_first_success() {
    let mut rounds = SyncRounds::new();
    assert_eq!(rounds.begin(), Some(SyncPhase::Scanning));
    assert!(rounds.needs_materialize(0, 0));
    assert_eq!(rounds.materialize(), Some(SyncPhase::Materializing));
    assert_eq!(rounds.finish(false), Some(SyncPhase::Failed));
    assert_eq!(rounds.begin(), Some(SyncPhase::Scanning));
    assert_eq!(rounds.finish(true), Some(SyncPhase::Ready));
    assert_eq!(rounds.begin(), None);
    assert!(!rounds.needs_materialize(0, 0));
    assert!(rounds.needs_materialize(0, 1));
    assert_eq!(rounds.finish(false), None);
    assert!(usage_due(21_600_000));
    assert!(!usage_due(21_599_999));
}
