//! Tests of the incremental download window tracker.

use yt_backup::tracker::{yyyymmdd, DateStore};

#[test]
fn unset_store_reports_no_date() {
    let store = DateStore::unset();
    assert_eq!(store.get_last_download_date(), None);
}

#[test]
fn record_then_read_returns_the_written_date() {
    let mut store = DateStore::unset();
    store.record_run_date(2021, 10, 18);
    assert_eq!(store.get_last_download_date().as_deref(), Some("20211018"));
}

#[test]
fn date_token_is_zero_padded() {
    assert_eq!(yyyymmdd(800, 3, 7), "08000307");
    assert_eq!(yyyymmdd(0, 1, 1), "00000101");
    assert_eq!(yyyymmdd(9999, 12, 31), "99991231");
}

#[test]
fn recording_overwrites_a_prior_date() {
    let mut store = DateStore::from_token("20200101".to_string());
    store.record_run_date(2024, 2, 29);
    assert_eq!(store.get_last_download_date().as_deref(), Some("20240229"));
}

#[test]
fn set_last_download_date_records_an_eight_digit_token() {
    let mut store = DateStore::unset();
    assert!(store.set_last_download_date());
    let token = store.get_last_download_date().expect("a date was recorded");
    assert_eq!(token.len(), 8);
    assert!(token.chars().all(|c| c.is_ascii_digit()));
}

#[test]
fn window_lower_bound_needs_incremental_and_a_date() {
    let unset = DateStore::unset();
    assert_eq!(unset.download_window_lower_bound(true), None);
    assert_eq!(unset.download_window_lower_bound(false), None);

    let set = DateStore::from_token("20211018".to_string());
    assert_eq!(
        set.download_window_lower_bound(true).as_deref(),
        Some("20211018")
    );
    assert_eq!(set.download_window_lower_bound(false), None);
}
