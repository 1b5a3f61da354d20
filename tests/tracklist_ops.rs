use qobuz_player_core::models::{Track, TrackStatus};
use qobuz_player_core::tracklist::{
    valid_order, AlbumTracklist, PlaylistTracklist, QueueItem, TopTracklist, Tracklist,
    TracklistType,
};

fn track(id: u32, status: TrackStatus) -> Track {
    Track {
        id,
        number: id,
        title: format!("track {id}"),
        artist_name: None,
        artist_id: None,
        album_title: Some(format!("album of {id}")),
        album_id: Some(format!("a{id}")),
        duration_seconds: 180,
        explicit: false,
        hires_available: false,
        available: true,
        image: Some(format!("cover{id}")),
        image_thumbnail: None,
        status,
    }
}

fn unplayed(n: u32) -> Vec<Track> {
    (0..n).map(|i| track(i, TrackStatus::Unplayed)).collect()
}

fn statuses(t: &Tracklist) -> Vec<TrackStatus> {
    t.queue().iter().map(|x| x.status).collect()
}

fn ids(t: &Tracklist) -> Vec<u32> {
    t.queue().iter().map(|x| x.id).collect()
}

fn playing_count(t: &Tracklist) -> usize {
    statuses(t).iter().filter(|s| **s == TrackStatus::Playing).count()
}

#[test]
fn new_numbers_items_in_order() {
    let t = Tracklist::new(TracklistType::Tracks, unplayed(3));
    assert_eq!(t.total(), 3);
    assert_eq!(ids(&t), vec![0, 1, 2]);
    assert_eq!(t.current_position(), 0);
    assert!(t.current_track().is_none());
    assert_eq!(t.list_type(), &TracklistType::Tracks);
}

#[test]
fn new_with_one_playing_keeps_exactly_one() {
    let mut tracks = unplayed(3);
    tracks[1].status = TrackStatus::Playing;
    let t = Tracklist::new(TracklistType::Tracks, tracks);
    assert_eq!(playing_count(&t), 1);
    assert_eq!(t.current_position(), 1);
}

#[test]
fn skip_marks_before_played_and_after_unplayed() {
    let mut t = Tracklist::new(TracklistType::Tracks, unplayed(4));
    let got = t.skip_to_track(2).map(|x| x.id);
    assert_eq!(got, Some(2));
    assert_eq!(
        statuses(&t),
        vec![
            TrackStatus::Played,
            TrackStatus::Played,
            TrackStatus::Playing,
            TrackStatus::Unplayed
        ]
    );
    assert_eq!(playing_count(&t), 1);
    assert_eq!(t.current_position(), 2);
    assert_eq!(t.current_track().map(|x| x.id), Some(2));
}

#[test]
fn skip_to_every_position_then_current_track() {
    for k in 0..5 {
        let mut t = Tracklist::new(TracklistType::Tracks, unplayed(5));
        t.skip_to_track(k);
        assert_eq!(t.current_track().map(|x| x.id), Some(k as u32));
        assert_eq!(t.current_position(), k as usize);
        assert_eq!(playing_count(&t), 1);
    }
}

#[test]
fn skip_negative_changes_nothing() {
    let mut t = Tracklist::new(TracklistType::Tracks, unplayed(3));
    t.skip_to_track(1);
    let before = t.clone();
    assert!(t.skip_to_track(-1).is_none());
    assert_eq!(t, before);
}

#[test]
fn skip_past_end_promotes_nothing() {
    let mut t = Tracklist::new(TracklistType::Tracks, unplayed(3));
    assert!(t.skip_to_track(3).is_none());
    assert_eq!(playing_count(&t), 0);
    assert_eq!(statuses(&t), vec![TrackStatus::Played; 3]);
    assert!(t.current_track().is_none());
}

#[test]
fn skip_on_empty_list() {
    let mut t = Tracklist::new(TracklistType::Tracks, vec![]);
    assert!(t.skip_to_track(0).is_none());
    assert_eq!(t.total(), 0);
    assert_eq!(t.current_position(), 0);
}

#[test]
fn reset_promotes_first_unplayed() {
    let mut t = Tracklist::new(TracklistType::Tracks, unplayed(3));
    t.skip_to_track(2);
    t.reset();
    assert_eq!(
        statuses(&t),
        vec![
            TrackStatus::Playing,
            TrackStatus::Unplayed,
            TrackStatus::Unplayed
        ]
    );
    assert_eq!(t.current_position(), 0);
}

#[test]
fn reset_skips_unplayable_items() {
    let mut tracks = unplayed(3);
    tracks[0].status = TrackStatus::Unplayable;
    tracks[2].status = TrackStatus::Played;
    let mut t = Tracklist::new(TracklistType::Tracks, tracks);
    t.reset();
    assert_eq!(
        statuses(&t),
        vec![
            TrackStatus::Unplayable,
            TrackStatus::Playing,
            TrackStatus::Unplayed
        ]
    );
    assert_eq!(playing_count(&t), 1);
    assert_eq!(t.current_position(), 1);
}

#[test]
fn reset_with_only_unplayable_items_plays_nothing() {
    let tracks = vec![track(0, TrackStatus::Unplayable)];
    let mut t = Tracklist::new(TracklistType::Tracks, tracks);
    t.reset();
    assert_eq!(playing_count(&t), 0);
}

#[test]
fn next_track_looks_ahead() {
    let mut t = Tracklist::new(TracklistType::Tracks, unplayed(3));
    t.skip_to_track(0);
    assert_eq!(t.next_track().map(|x| x.id), Some(1));
    assert_eq!(t.next_track_id(), Some(1));
    assert_eq!(t.next_track_queue_id(), Some(1));
    t.skip_to_track(2);
    assert!(t.next_track().is_none());
    assert_eq!(t.next_track_id(), None);
    assert_eq!(t.next_track_queue_id(), None);
}

#[test]
fn current_ids() {
    let mut t = Tracklist::new(TracklistType::Tracks, unplayed(3));
    assert_eq!(t.currently_playing(), None);
    assert_eq!(t.current_queue_id(), None);
    t.skip_to_track(1);
    assert_eq!(t.currently_playing(), Some(1));
    assert_eq!(t.current_queue_id(), Some(1));
}

#[test]
fn push_track_appends_and_keeps_statuses() {
    let mut t = Tracklist::new(TracklistType::Tracks, unplayed(3));
    t.skip_to_track(1);
    let before = statuses(&t);
    t.push_track(track(9, TrackStatus::Unplayed));
    assert_eq!(t.total(), 4);
    assert_eq!(&statuses(&t)[..3], &before[..]);
    assert_eq!(t.queue()[3].id, 9);
}

#[test]
fn insert_then_remove_restores_order() {
    let mut t = Tracklist::new(TracklistType::Tracks, unplayed(3));
    t.skip_to_track(1);
    let before = t.clone();
    t.insert_track(1, track(7, TrackStatus::Unplayed));
    assert_eq!(ids(&t), vec![0, 7, 1, 2]);
    t.remove_track(1);
    assert_eq!(t, before);
}

#[test]
fn reorder_moves_items() {
    let mut t = Tracklist::new(TracklistType::Tracks, unplayed(4));
    t.reorder_queue(vec![2, 0, 3, 1]);
    assert_eq!(ids(&t), vec![2, 0, 3, 1]);
    let mut sorted = ids(&t);
    sorted.sort();
    assert_eq!(sorted, vec![0, 1, 2, 3]);
}

#[test]
fn reorder_identity_is_noop() {
    let mut t = Tracklist::new(TracklistType::Tracks, unplayed(3));
    let before = t.clone();
    t.reorder_queue(vec![0, 1, 2]);
    assert_eq!(t, before);
}

#[test]
fn new_with_id_keeps_queue_ids() {
    let items = vec![
        QueueItem {
            track: track(5, TrackStatus::Playing),
            id: 40,
        },
        QueueItem {
            track: track(6, TrackStatus::Unplayed),
            id: 41,
        },
    ];
    let t = Tracklist::new_with_id(TracklistType::Tracks, items);
    assert_eq!(t.current_queue_id(), Some(40));
    assert_eq!(t.next_track_queue_id(), Some(41));
}

#[test]
fn entity_of_album() {
    let kind = TracklistType::Album(AlbumTracklist {
        title: "Kind of Blue".to_string(),
        id: "xyz".to_string(),
        image: None,
    });
    let mut t = Tracklist::new(kind, unplayed(2));
    t.skip_to_track(1);
    let e = t.entity_playing();
    assert_eq!(e.title.as_deref(), Some("Kind of Blue"));
    assert_eq!(e.link.as_deref(), Some("/album/xyz"));
    assert_eq!(e.cover_link.as_deref(), Some("cover1"));
}

#[test]
fn entity_of_playlist_writes_id_in_decimal() {
    let kind = TracklistType::Playlist(PlaylistTracklist {
        title: "Mix".to_string(),
        id: 4021,
        image: None,
    });
    let t = Tracklist::new(kind, unplayed(1));
    let e = t.entity_playing();
    assert_eq!(e.title.as_deref(), Some("Mix"));
    assert_eq!(e.link.as_deref(), Some("/playlist/4021"));
    assert_eq!(e.cover_link, None);
}

#[test]
fn entity_of_top_tracks() {
    let kind = TracklistType::TopTracks(TopTracklist {
        artist_name: "Nina".to_string(),
        id: 7,
        image: None,
    });
    let t = Tracklist::new(kind, unplayed(1));
    let e = t.entity_playing();
    assert_eq!(e.title.as_deref(), Some("Nina"));
    assert_eq!(e.link.as_deref(), Some("/artist/7"));
}

#[test]
fn entity_of_single_tracks_uses_album_of_current() {
    let mut t = Tracklist::new(TracklistType::Tracks, unplayed(2));
    let e = t.entity_playing();
    assert_eq!(e.title, None);
    assert_eq!(e.link, None);
    t.skip_to_track(0);
    let e = t.entity_playing();
    assert_eq!(e.title.as_deref(), Some("album of 0"));
    assert_eq!(e.link.as_deref(), Some("/album/a0"));
    assert_eq!(e.cover_link.as_deref(), Some("cover0"));
}

#[test]
fn valid_order_accepts_permutations_only() {
    assert!(valid_order(&vec![2, 0, 1], 3));
    assert!(valid_order(&vec![], 0));
    assert!(!valid_order(&vec![0, 0, 1], 3));
    assert!(!valid_order(&vec![0, 1, 3], 3));
    assert!(!valid_order(&vec![0, 1], 3));
}

#[test]
fn new_keeps_only_the_first_playing_track() {
    let mut tracks = unplayed(4);
    tracks[1].status = TrackStatus::Playing;
    tracks[3].status = TrackStatus::Playing;
    let t = Tracklist::new(TracklistType::Tracks, tracks);
    assert_eq!(
        statuses(&t),
        vec![
            TrackStatus::Unplayed,
            TrackStatus::Playing,
            TrackStatus::Unplayed,
            TrackStatus::Unplayed
        ]
    );
    assert_eq!(t.current_position(), 1);
}

#[test]
fn pushed_playing_track_comes_in_unplayed() {
    let mut t = Tracklist::new(TracklistType::Tracks, unplayed(2));
    t.skip_to_track(0);
    t.push_track(track(5, TrackStatus::Playing));
    t.insert_track(1, track(6, TrackStatus::Playing));
    assert_eq!(playing_count(&t), 1);
    assert_eq!(t.current_position(), 0);
}

fn queue_ids(t: &Tracklist) -> Vec<Option<u64>> {
    let mut r = vec![];
    let mut copy = t.clone();
    for i in 0..t.total() {
        copy.skip_to_track(i as i32);
        r.push(copy.current_queue_id());
    }
    r
}

#[test]
fn pushed_ids_are_never_reused() {
    let mut t = Tracklist::new(TracklistType::Tracks, unplayed(3));
    t.push_track(track(3, TrackStatus::Unplayed));
    assert_eq!(queue_ids(&t), vec![Some(0), Some(1), Some(2), Some(3)]);
    t.remove_track(0);
    t.push_track(track(4, TrackStatus::Unplayed));
    assert_eq!(queue_ids(&t), vec![Some(1), Some(2), Some(3), Some(4)]);
    t.insert_track(0, track(5, TrackStatus::Unplayed));
    assert_eq!(queue_ids(&t)[0], Some(5));
}

#[test]
fn fresh_id_when_largest_id_is_taken() {
    let items = vec![
        QueueItem {
            track: track(0, TrackStatus::Unplayed),
            id: u64::MAX,
        },
        QueueItem {
            track: track(1, TrackStatus::Unplayed),
            id: 0,
        },
    ];
    let mut t = Tracklist::new_with_id(TracklistType::Tracks, items);
    t.push_track(track(2, TrackStatus::Unplayed));
    assert_eq!(queue_ids(&t)[2], Some(1));
}

#[test]
fn pushed_playing_track_keeps_playing_when_nothing_plays() {
    let mut t = Tracklist::new(TracklistType::Tracks, unplayed(2));
    t.push_track(track(7, TrackStatus::Playing));
    assert_eq!(t.current_track().map(|x| x.id), Some(7));
    assert_eq!(playing_count(&t), 1);
}
