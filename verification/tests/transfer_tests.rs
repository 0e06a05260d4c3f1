use phunk::transfer::{progress_due, DownloadError, Transfer};

#[test]
fn refused_without_content_length() {
    // No declared length: refused before any byte is read or written.
    let r = Transfer::begin(None);
    assert_eq!(r.unwrap_err(), DownloadError::UnknownLength);
}

#[test]
fn begins_at_zero_with_declared_length() {
    let t = Transfer::begin(Some(1000)).unwrap();
    assert_eq!(t.total, 1000);
    assert_eq!(t.transferred, 0);
    assert_eq!(t.percent, 0);
}

#[test]
fn percent_is_monotone_and_exact_at_completion() {
    let mut t = Transfer::begin(Some(1000)).unwrap();
    let mut last = t.percent;
    for chunk in [100u64, 250, 0, 399, 251] {
        t.apply_chunk(chunk);
        assert!(t.percent >= last);
        last = t.percent;
    }
    assert_eq!(t.transferred, 1000);
    assert_eq!(t.percent, 100);
    assert!(t.finished_due());
    assert!(t.outcome().is_ok());
}

#[test]
fn short_stream_fails_and_finishes_nothing() {
    // A 1000-byte declared transfer delivering only 900 bytes: a failure,
    // and no finished notification due.
    let mut t = Transfer::begin(Some(1000)).unwrap();
    t.apply_chunk(500);
    assert_eq!(t.percent, 50);
    t.apply_chunk(400);
    assert_eq!(t.percent, 90);
    assert!(!t.finished_due());
    assert_eq!(t.outcome().unwrap_err(), DownloadError::Incomplete);
}

#[test]
fn empty_stream_fails() {
    let t = Transfer::begin(Some(1000)).unwrap();
    assert!(!t.finished_due());
    assert_eq!(t.outcome().unwrap_err(), DownloadError::Incomplete);
}

#[test]
fn overshoot_still_finishes() {
    let mut t = Transfer::begin(Some(100)).unwrap();
    t.apply_chunk(150);
    assert!(t.percent >= 100);
    assert!(t.finished_due());
    assert!(t.outcome().is_ok());
}

#[test]
fn rounding_is_downward() {
    let mut t = Transfer::begin(Some(3)).unwrap();
    t.apply_chunk(2);
    assert_eq!(t.percent, 66);
}

#[test]
fn failure_messages_name_their_subject() {
    let url = "https://cdn/x.zip";
    assert_eq!(
        DownloadError::Get.message(url),
        "Failed to GET from 'https://cdn/x.zip'"
    );
    assert_eq!(
        DownloadError::UnknownLength.message(url),
        "Failed to get content length from 'https://cdn/x.zip'"
    );
    assert_eq!(
        DownloadError::Chunk.message(url),
        "Failed to get chunk from 'https://cdn/x.zip'"
    );
    assert_eq!(
        DownloadError::Write.message(url),
        "Failed to write chunk from 'https://cdn/x.zip'"
    );
    assert_eq!(
        DownloadError::Create.message("/tmp/x.zip"),
        "Failed to create '/tmp/x.zip'"
    );
    assert_eq!(
        DownloadError::Incomplete.message(url),
        "Failed to download file from 'https://cdn/x.zip'"
    );
}

#[test]
fn progress_events_are_spaced_a_second_apart() {
    assert!(!progress_due(0));
    assert!(!progress_due(1_000_000_000));
    assert!(progress_due(1_000_000_001));
}
