use qobuz_player_core::downloads::{DownloadStart, Downloads};
use qobuz_player_core::sink::{QueryTrackResult, Sink};

#[test]
fn new_sink_is_empty() {
    let s = Sink::new();
    assert!(s.is_empty());
    assert_eq!(s.position(5000), 0);
    assert_eq!(s.pending(), 0);
}

#[test]
fn first_source_opens_stream() {
    let mut s = Sink::new();
    assert_eq!(s.query_track(44100, 3000), QueryTrackResult::Queued);
    assert!(!s.is_empty());
    assert_eq!(s.stream_rate(), Some(44100));
    assert_eq!(s.pending(), 1);
}

#[test]
fn different_rate_requires_new_stream() {
    let mut s = Sink::new();
    assert_eq!(s.query_track(44100, 3000), QueryTrackResult::Queued);
    assert_eq!(
        s.query_track(96000, 3000),
        QueryTrackResult::RecreateStreamRequired
    );
    assert_eq!(s.pending(), 1);
    assert_eq!(s.stream_rate(), Some(44100));
}

#[test]
fn same_rate_queues_behind() {
    let mut s = Sink::new();
    s.query_track(48000, 3000);
    assert_eq!(s.query_track(48000, 4000), QueryTrackResult::Queued);
    assert_eq!(s.pending(), 2);
}

#[test]
fn finished_source_is_subtracted_from_position() {
    let mut s = Sink::new();
    s.query_track(44100, 3000);
    s.query_track(44100, 3000);
    assert_eq!(s.position(2500), 2500);
    s.source_finished();
    assert_eq!(s.finished(), 1);
    assert_eq!(s.pending(), 1);
    assert_eq!(s.position(3400), 400);
    assert_eq!(s.position(2000), 0);
}

#[test]
fn finish_fires_once_per_source() {
    let mut s = Sink::new();
    s.query_track(44100, 3000);
    s.query_track(44100, 3000);
    s.source_finished();
    s.source_finished();
    assert_eq!(s.finished(), 2);
    assert_eq!(s.pending(), 0);
}

#[test]
fn position_is_monotone_between_signals() {
    let mut s = Sink::new();
    s.query_track(44100, 3000);
    let mut last = 0;
    for reported in (0..3000).step_by(250) {
        let p = s.position(reported);
        assert!(p >= last);
        last = p;
    }
}

#[test]
fn clear_empties_and_zeroes() {
    let mut s = Sink::new();
    s.query_track(44100, 3000);
    s.source_finished();
    s.clear();
    assert!(s.is_empty());
    assert_eq!(s.position(12345), 0);
    assert_eq!(s.pending(), 0);
    assert_eq!(s.query_track(96000, 1000), QueryTrackResult::Queued);
}

#[test]
fn clear_queue_keeps_current_source() {
    let mut s = Sink::new();
    s.query_track(44100, 3000);
    s.query_track(44100, 3000);
    s.query_track(44100, 3000);
    s.clear_queue();
    assert_eq!(s.pending(), 1);
    assert!(!s.is_empty());
}

#[test]
fn seek_restarts_running_position() {
    let mut s = Sink::new();
    s.query_track(44100, 3000);
    s.query_track(44100, 3000);
    s.source_finished();
    s.seek();
    assert_eq!(s.position(700), 700);
}

#[test]
fn can_finish_needs_a_queued_source() {
    let mut s = Sink::new();
    assert!(!s.can_finish());
    s.query_track(44100, 3000);
    assert!(s.can_finish());
    s.source_finished();
    assert!(!s.can_finish());
}

#[test]
fn accumulator_at_its_limit_cannot_take_more() {
    let mut s = Sink::new();
    s.query_track(44100, u64::MAX);
    s.query_track(44100, 1);
    s.source_finished();
    assert!(!s.can_finish());
}

#[test]
fn concurrent_requests_share_one_fetch() {
    let mut d = Downloads::new();
    assert_eq!(d.request(5, false), DownloadStart::Started);
    assert_eq!(d.request(5, false), DownloadStart::InFlight);
    assert_eq!(d.request(6, false), DownloadStart::Started);
    assert!(d.is_in_flight(5));
    assert!(d.finish(5));
    assert!(!d.finish(5));
    assert!(!d.is_in_flight(5));
    assert_eq!(d.request(5, true), DownloadStart::Cached);
    assert!(!d.is_in_flight(5));
    assert_eq!(d.request(5, false), DownloadStart::Started);
}
