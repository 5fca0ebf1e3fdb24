use std::time::Duration;
use workspace_atlas::catalogue::{
    acquire_writer_lease, civil_from_unix_day, heartbeat_is_stale, heartbeat_writer_lease,
    holder_id, iso8601_age_seconds, iso8601_from_unix_millis, release_writer_lease, LeaseClock,
    LeaseRow, SCHEMA_WRITER_VERSION,
};
use workspace_atlas::error::AtlasError;

fn at(millis: u64) -> LeaseClock {
    LeaseClock {
        text: iso8601_from_unix_millis(millis),
        unix: ((millis / 1000) as i64, ((millis % 1000) * 1_000_000) as u32),
    }
}

const NOW: u64 = 1_767_225_600_000;

fn take(
    existing: &Option<LeaseRow>,
    holder: &str,
    now: u64,
    stale: Duration,
) -> Result<LeaseRow, AtlasError> {
    let expires = iso8601_from_unix_millis(now + 60_000);
    acquire_writer_lease(existing, "ws_x", holder, &at(now), &expires, stale).map(|(row, guard)| {
        assert_eq!(guard.holder_id, holder);
        assert_eq!(guard.workspace_id, "ws_x");
        row
    })
}

#[test]
fn writer_lease_blocks_second_holder() {
    let stale = Duration::from_secs(30);
    let row = take(&None, "holder-1", NOW, stale).unwrap();
    let row = take(&Some(row), "holder-1", NOW + 1_000, stale).unwrap();
    let err = take(&Some(row), "holder-2", NOW + 2_000, stale).unwrap_err();
    assert!(matches!(err, AtlasError::WriterLeaseHeld { .. }));

    let mut lease = Some(take(&None, "holder-1", NOW, stale).unwrap());
    release_writer_lease(&mut lease, "holder-1").unwrap();
    assert!(lease.is_none());
    take(&lease, "holder-2", NOW + 3_000, stale).unwrap();
}

#[test]
fn writer_lease_recovers_after_stale_heartbeat() {
    let mut row = take(&None, "holder-1", NOW, Duration::from_secs(0)).unwrap();
    row.heartbeat_at = "2000-01-01T00:00:00.000Z".to_string();
    let taken = take(&Some(row), "holder-2", NOW + 1_000, Duration::from_secs(60)).unwrap();
    assert_eq!(taken.holder_id, "holder-2");
    assert_eq!(taken.schema_writer_version, SCHEMA_WRITER_VERSION);
}

#[test]
fn holder_ids_of_different_moments_differ() {
    let a = holder_id("host", 7, 255);
    let b = holder_id("host", 7, 256);
    assert_ne!(a, b);
    assert_eq!(a, "host-7-ff");
    assert_eq!(b, "host-7-100");
}

#[test]
fn a_held_lease_names_its_holder() {
    let row = take(&None, "holder-1", NOW, Duration::from_secs(30)).unwrap();
    match take(&Some(row), "holder-2", NOW + 30_000, Duration::from_secs(30)) {
        Err(AtlasError::WriterLeaseHeld { holder }) => assert_eq!(holder, "holder-1"),
        other => panic!("unexpected {other:?}"),
    }
    let row = take(&None, "holder-1", NOW, Duration::from_secs(30)).unwrap();
    assert!(take(&Some(row), "holder-2", NOW + 30_001, Duration::from_secs(30)).is_ok());
}

#[test]
fn an_unreadable_heartbeat_is_reported() {
    let mut row = take(&None, "holder-1", NOW, Duration::from_secs(30)).unwrap();
    row.heartbeat_at = "yesterday".to_string();
    match take(&Some(row), "holder-2", NOW, Duration::from_secs(30)) {
        Err(AtlasError::Other(message)) => {
            assert!(message.starts_with("invalid timestamp \"yesterday\": "))
        }
        other => panic!("unexpected {other:?}"),
    }
}

#[test]
fn only_the_holder_keeps_a_lease_alive() {
    let row = take(&None, "holder-1", NOW, Duration::from_secs(30)).unwrap();
    let kept = heartbeat_writer_lease(Some(row), "holder-1", "n", "e").unwrap();
    assert_eq!(kept.heartbeat_at, "n");
    assert_eq!(kept.expires_at, "e");
    assert!(matches!(
        heartbeat_writer_lease(Some(kept), "holder-2", "n", "e"),
        Err(AtlasError::WriterLeaseExpired { stale_secs: 0 })
    ));
    assert!(matches!(
        heartbeat_writer_lease(None, "holder-1", "n", "e"),
        Err(AtlasError::WriterLeaseExpired { stale_secs: 0 })
    ));
}

#[test]
fn releasing_the_lease_of_another_changes_nothing() {
    let mut lease = Some(take(&None, "holder-1", NOW, Duration::from_secs(30)).unwrap());
    assert!(matches!(
        release_writer_lease(&mut lease, "holder-2"),
        Err(AtlasError::WriterLeaseHeld { holder }) if holder == "holder-1"
    ));
    let row = lease.as_ref().unwrap();
    assert_eq!(row.holder_id, "holder-1");
    assert_eq!(row.heartbeat_at, iso8601_from_unix_millis(NOW));
    release_writer_lease(&mut lease, "holder-1").unwrap();
    assert!(matches!(
        release_writer_lease(&mut lease, "holder-1"),
        Err(AtlasError::WriterLeaseExpired { stale_secs: 0 })
    ));
}

#[test]
fn calendar_dates_are_exact() {
    assert_eq!(iso8601_from_unix_millis(0), "1970-01-01T00:00:00.000Z");
    assert_eq!(iso8601_from_unix_millis(NOW), "2026-01-01T00:00:00.000Z");
    assert_eq!(
        iso8601_from_unix_millis(951_782_399_999),
        "2000-02-28T23:59:59.999Z"
    );
    assert_eq!(
        iso8601_from_unix_millis(951_782_400_000),
        "2000-02-29T00:00:00.000Z"
    );
    let day = civil_from_unix_day(11_016);
    assert_eq!((day.year, day.month, day.day), (2000, 2, 29));
}

#[test]
fn the_age_of_a_timestamp_decides_staleness() {
    let now = (1_767_225_600i64, 0u32);
    let iso = "2026-01-01T00:00:00.000Z";
    assert!(!heartbeat_is_stale(iso, now, Duration::from_secs(0)).unwrap());
    assert!(heartbeat_is_stale(iso, (now.0, 1), Duration::from_secs(0)).unwrap());
    assert!(!heartbeat_is_stale(iso, (now.0 + 60, 0), Duration::from_secs(60)).unwrap());
    assert!(heartbeat_is_stale(iso, (now.0 + 61, 0), Duration::from_secs(60)).unwrap());
    assert!(!heartbeat_is_stale(iso, (now.0 - 5, 0), Duration::from_secs(0)).unwrap());
}

#[test]
fn timestamps_are_held_against_the_clock() {
    assert!(iso8601_age_seconds("2000-01-01T00:00:00.000Z", Duration::from_secs(60)).unwrap());
    assert!(!iso8601_age_seconds("2999-01-01T00:00:00.000Z", Duration::from_secs(60)).unwrap());
    assert!(iso8601_age_seconds("", Duration::from_secs(60)).is_err());
}
