use qobuz_player_core::models::{Album, ArtistPage, Playlist, Track, TrackStatus};
use qobuz_player_core::player::{
    jump_backward_target, jump_forward_target, Directive, Fetch, Output, Player, Status,
};
use qobuz_player_core::selection::{start_shuffled_tracklist, start_tracklist, streamable_from};
use qobuz_player_core::tracklist::{QueueItem, Tracklist, TracklistType};

fn track(id: u32, seconds: u32, available: bool) -> Track {
    Track {
        id,
        number: id,
        title: format!("t{id}"),
        artist_name: None,
        artist_id: None,
        album_title: None,
        album_id: None,
        duration_seconds: seconds,
        explicit: false,
        hires_available: false,
        available,
        image: None,
        image_thumbnail: None,
        status: TrackStatus::Unplayed,
    }
}

fn album(tracks: Vec<Track>) -> Album {
    Album {
        id: "A".to_string(),
        title: "Album A".to_string(),
        image: "img".to_string(),
        tracks,
    }
}

fn idle() -> Directive {
    Directive {
        clear_output: false,
        queue_source: false,
        seek_to: None,
        output: Output::Keep,
        fetch: None,
    }
}

fn fetch(id: u32, is_next: bool) -> Option<Fetch> {
    Some(Fetch {
        track_id: id,
        is_next,
    })
}

fn empty_player() -> Player {
    Player::new(Tracklist::new(TracklistType::Tracks, vec![]))
}

fn playing_id(p: &Player) -> Option<u32> {
    p.tracklist().current_track().map(|t| t.id)
}

#[test]
fn play_album_from_start_runs_to_the_end() {
    let mut p = empty_player();
    let d = p.play_album(
        album(vec![track(0, 3, true), track(1, 3, true), track(2, 3, true)]),
        0,
    );
    assert!(d.clear_output);
    assert_eq!(d.fetch, fetch(0, false));
    assert_eq!(playing_id(&p), Some(0));

    let d = p.track_ready(44100, 3000, false);
    assert!(d.queue_source);
    assert_eq!(d.output, Output::Play);
    assert_eq!(p.status(), Status::Playing);

    // under a minute left: the next track is fetched once
    let d = p.tick(1500);
    assert_eq!(p.position(), 1500);
    assert_eq!(d.fetch, fetch(1, true));
    assert!(p.next_track_is_queried());
    assert_eq!(p.tick(2000), idle());

    let d = p.track_ready(44100, 3000, true);
    assert!(d.queue_source);
    assert!(p.next_track_in_sink_queue());

    p.source_finished();
    let d = p.track_finished();
    assert_eq!(d, idle());
    assert_eq!(playing_id(&p), Some(1));
    assert!(!p.next_track_is_queried());
    let d = p.tick(3000);
    assert_eq!(p.position(), 0);
    assert_eq!(d.fetch, fetch(2, true));
    p.track_ready(44100, 3000, true);
    p.source_finished();
    p.track_finished();
    assert_eq!(playing_id(&p), Some(2));

    p.source_finished();
    let d = p.track_finished();
    assert!(d.clear_output);
    assert_eq!(d.output, Output::Pause);
    assert_eq!(p.status(), Status::Paused);
    assert_eq!(p.tracklist().current_position(), 0);
    assert_eq!(playing_id(&p), Some(0));
    assert_eq!(p.position(), 0);
    assert!(p.sink().is_empty());
}

#[test]
fn previous_restarts_after_one_second() {
    let mut p = empty_player();
    p.play_album(album(vec![track(0, 300, true), track(1, 300, true)]), 1);
    p.track_ready(44100, 300_000, false);
    p.tick(5000);
    assert_eq!(p.position(), 5000);
    let d = p.skip_to_position(0, false);
    assert_eq!(d.seek_to, Some(0));
    assert_eq!(playing_id(&p), Some(1));
}

#[test]
fn previous_goes_back_within_first_second() {
    let mut p = empty_player();
    p.play_album(album(vec![track(0, 300, true), track(1, 300, true)]), 1);
    p.track_ready(44100, 300_000, false);
    p.tick(500);
    let d = p.skip_to_position(0, false);
    assert_eq!(d.seek_to, None);
    assert_eq!(d.fetch, fetch(0, false));
    assert_eq!(playing_id(&p), Some(0));
    assert_eq!(p.position(), 0);
}

#[test]
fn previous_and_next_commands() {
    let mut p = empty_player();
    p.play_album(
        album(vec![track(0, 300, true), track(1, 300, true), track(2, 300, true)]),
        1,
    );
    let d = p.next();
    assert_eq!(d.fetch, fetch(2, false));
    assert_eq!(playing_id(&p), Some(2));
    let d = p.previous();
    assert_eq!(d.fetch, fetch(1, false));
    assert_eq!(playing_id(&p), Some(1));
}

#[test]
fn next_past_the_end_resets_and_pauses() {
    let mut p = empty_player();
    p.play_album(album(vec![track(0, 300, true), track(1, 300, true)]), 1);
    p.track_ready(44100, 300_000, false);
    let d = p.next();
    assert!(d.clear_output);
    assert_eq!(d.fetch, None);
    assert_eq!(p.status(), Status::Paused);
    assert_eq!(playing_id(&p), Some(0));
}

#[test]
fn unstreamable_tracks_are_left_out() {
    let mut p = empty_player();
    let d = p.play_album(
        album(vec![track(0, 3, true), track(1, 3, false), track(2, 3, true)]),
        2,
    );
    assert_eq!(p.tracklist().total(), 2);
    assert_eq!(p.tracklist().current_position(), 1);
    assert_eq!(playing_id(&p), Some(2));
    assert_eq!(d.fetch, fetch(2, false));
}

#[test]
fn streamable_from_counts_left_out_tracks() {
    let (kept, at) = streamable_from(
        vec![
            track(0, 3, false),
            track(1, 3, true),
            track(2, 3, false),
            track(3, 3, true),
        ],
        3,
    );
    assert_eq!(kept.iter().map(|t| t.id).collect::<Vec<_>>(), vec![1, 3]);
    assert_eq!(at, 1);
}

#[test]
fn start_past_the_end_plays_nothing() {
    let t = start_tracklist(TracklistType::Tracks, vec![track(0, 3, true)], 5);
    assert!(t.current_track().is_none());
}

#[test]
fn shuffled_start_keeps_the_tracks() {
    let tracks: Vec<Track> = (0..20).map(|i| track(i, 3, i % 4 != 0)).collect();
    let t = start_shuffled_tracklist(TracklistType::Tracks, tracks, 0, true);
    let mut ids: Vec<u32> = t.queue().iter().map(|x| x.id).collect();
    ids.sort();
    let expected: Vec<u32> = (0..20).filter(|i| i % 4 != 0).collect();
    assert_eq!(ids, expected);
    assert!(t.current_track().is_some());
}

#[test]
fn unshuffled_playlist_keeps_order() {
    let mut p = empty_player();
    let pl = Playlist {
        id: 3,
        title: "P".to_string(),
        image: None,
        tracks: vec![track(0, 3, true), track(1, 3, true), track(2, 3, true)],
    };
    p.play_playlist(pl, 1, false);
    let ids: Vec<u32> = p.tracklist().queue().iter().map(|x| x.id).collect();
    assert_eq!(ids, vec![0, 1, 2]);
    assert_eq!(playing_id(&p), Some(1));
}

#[test]
fn top_tracks_start_at_index() {
    let mut p = empty_player();
    let page = ArtistPage {
        id: 8,
        name: "N".to_string(),
        image: None,
        top_tracks: vec![track(0, 3, true), track(1, 3, true)],
    };
    let d = p.play_top_tracks(page, 8, 1);
    assert_eq!(d.fetch, fetch(1, false));
}

#[test]
fn sample_rate_change_recreates_stream() {
    let mut p = empty_player();
    p.play_album(album(vec![track(0, 3, true), track(1, 3, true)]), 0);
    p.track_ready(44100, 3000, false);
    p.tick(1000);
    let d = p.track_ready(96000, 3000, true);
    assert!(!d.queue_source);
    assert!(!p.next_track_in_sink_queue());
    p.source_finished();
    let d = p.track_finished();
    assert!(d.clear_output);
    assert_eq!(d.fetch, fetch(1, false));
    assert!(p.sink().is_empty());
    let d = p.track_ready(96000, 3000, false);
    assert!(d.queue_source);
    assert_eq!(p.sink().stream_rate(), Some(96000));
}

#[test]
fn jump_forward_is_clamped_to_track_end() {
    assert_eq!(jump_forward_target(55_000, 60), 60_000);
    assert_eq!(jump_forward_target(20_000, 60), 30_000);
}

#[test]
fn jump_backward_stops_at_zero() {
    assert_eq!(jump_backward_target(9_999), 0);
    assert_eq!(jump_backward_target(25_000), 15_000);
}

#[test]
fn jump_through_the_player() {
    let mut p = empty_player();
    p.play_album(album(vec![track(0, 60, true)]), 0);
    p.track_ready(44100, 60_000, false);
    assert_eq!(p.jump_forward(55_000), Some(60_000));
    assert_eq!(p.jump_backward(5_000), 0);
    p.seek_done(60_000);
    assert_eq!(p.position(), 60_000);
}

#[test]
fn play_pause_toggles() {
    let mut p = empty_player();
    p.play_album(album(vec![track(0, 3, true)]), 0);
    let d = p.play_pause();
    assert_eq!(p.status(), Status::Buffering);
    assert_eq!(d.fetch, fetch(0, false));
    p.track_ready(44100, 3000, false);
    let d = p.play_pause();
    assert_eq!(d.output, Output::Pause);
    assert_eq!(p.status(), Status::Paused);
    let d = p.play_pause();
    assert_eq!(d.output, Output::Play);
    assert_eq!(p.status(), Status::Playing);
}

#[test]
fn state_change_from_paused_buffers() {
    let mut p = empty_player();
    assert!(p.begin_state_change());
    assert_eq!(p.status(), Status::Buffering);
    assert!(!p.begin_state_change());
}

#[test]
fn buffering_then_done() {
    let mut p = empty_player();
    p.play_track(track(4, 3, true));
    p.buffering();
    assert_eq!(p.status(), Status::Buffering);
    let d = p.done_buffering(44100, 3000);
    assert!(d.queue_source);
    assert_eq!(p.status(), Status::Playing);
    assert!(p.next_track_in_sink_queue());
}

#[test]
fn paused_tick_publishes_nothing() {
    let mut p = empty_player();
    assert_eq!(p.tick(1234), idle());
    assert_eq!(p.position(), 0);
}

#[test]
fn queue_edits() {
    let mut p = empty_player();
    p.play_album(
        album(vec![track(0, 300, true), track(1, 300, true), track(2, 300, true)]),
        0,
    );
    p.play_track_next(track(9, 300, true));
    let ids = |p: &Player| -> Vec<u32> { p.tracklist().queue().iter().map(|x| x.id).collect() };
    assert_eq!(ids(&p), vec![0, 9, 1, 2]);
    p.add_track_to_queue(track(8, 300, true));
    assert_eq!(ids(&p), vec![0, 9, 1, 2, 8]);
    p.remove_index_from_queue(1);
    assert_eq!(ids(&p), vec![0, 1, 2, 8]);
    p.reorder_queue(vec![3, 2, 1, 0]);
    assert_eq!(ids(&p), vec![8, 2, 1, 0]);
    assert_eq!(playing_id(&p), Some(0));
    assert!(!p.next_track_is_queried());
}

#[test]
fn play_track_next_on_empty_queue() {
    let mut p = empty_player();
    p.play_track_next(track(9, 300, true));
    assert_eq!(p.tracklist().total(), 1);
}

#[test]
fn clear_queue_pauses_and_empties() {
    let mut p = empty_player();
    p.play_album(album(vec![track(0, 3, true)]), 0);
    p.track_ready(44100, 3000, false);
    let d = p.clear_queue();
    assert!(d.clear_output);
    assert_eq!(d.output, Output::Pause);
    assert_eq!(p.tracklist().total(), 0);
    assert_eq!(p.status(), Status::Paused);
    assert!(p.sink().is_empty());
}

#[test]
fn new_track_queue_plays_first_item() {
    let mut p = empty_player();
    let items = vec![
        QueueItem {
            track: track(5, 3, true),
            id: 70,
        },
        QueueItem {
            track: track(6, 3, true),
            id: 71,
        },
    ];
    let d = p.new_track_queue(items.clone(), true);
    assert_eq!(d.fetch, fetch(5, false));
    assert_eq!(p.tracklist().current_queue_id(), Some(70));
    let d = p.new_track_queue(items, false);
    assert_eq!(d.fetch, None);
    assert_eq!(p.tracklist().current_queue_id(), Some(70));
}

#[test]
fn play_pause_from_paused_resumes_a_loaded_sink() {
    let mut p = empty_player();
    p.play_album(album(vec![track(0, 300, true)]), 0);
    p.track_ready(44100, 300_000, false);
    p.pause();
    let d = p.play_pause();
    assert_eq!(
        d,
        Directive {
            output: Output::Play,
            ..idle()
        }
    );
    assert_eq!(p.status(), Status::Playing);
}

#[test]
fn would_queue_matches_the_stream_rate() {
    let mut p = empty_player();
    p.play_album(album(vec![track(0, 300, true)]), 0);
    assert!(p.sink().would_queue(96000));
    p.track_ready(44100, 300_000, false);
    assert!(p.sink().would_queue(44100));
    assert!(!p.sink().would_queue(96000));
}
