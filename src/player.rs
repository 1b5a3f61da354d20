use vstd::prelude::*;

use crate::models::{Album, ArtistPage, Playlist, Track, TrackStatus};
use crate::selection::{start_shuffled_tracklist, start_tracklist};
use crate::sink::{
    after_clear, after_finish, after_query, query_result, QueryTrackResult, Sink, SinkModel,
    sink_position,
};
use crate::tracklist::{
    current_index, fresh_id, has_playing, joining, is_permutation, keep_first_playing, reordered, reset_queue, skipped, AlbumTracklist,
    PlaylistTracklist, QueueItem, TopTracklist, Tracklist, TracklistType,
};

verus! {

/// The playback status that the player aims at.
#[derive(Debug, Clone, Copy, PartialEq, Eq, Structural)]
pub enum Status {
    Playing,
    Paused,
    Buffering,
}

/// What the audio output is told to do.
#[derive(Debug, Clone, Copy, PartialEq, Eq, Structural)]
pub enum Output {
    Keep,
    Play,
    Pause,
}

/// A track whose audio must be resolved, downloaded and handed back.
#[derive(Debug, Clone, Copy, PartialEq, Eq, Structural)]
pub struct Fetch {
    pub track_id: u32,
    pub is_next: bool,
}

/// The outside work that a decision of the player asks for, in this order:
/// drop the output stream, append the decoded source to the output queue,
/// seek, play or pause, then fetch a track.
#[derive(Debug, Clone, Copy, PartialEq, Eq, Structural)]
pub struct Directive {
    pub clear_output: bool,
    pub queue_source: bool,
    pub seek_to: Option<u64>,
    pub output: Output,
    pub fetch: Option<Fetch>,
}

pub open spec fn idle_spec() -> Directive {
    Directive { clear_output: false, queue_source: false, seek_to: None, output: Output::Keep, fetch: None }
}

/// A fetch of the track that plays in `t`, if one plays.
pub open spec fn fetch_current(t: Tracklist) -> Option<Fetch> {
    if has_playing(t.items()) {
        Some(Fetch { track_id: t.items()[current_index(t.items())].track.id, is_next: false })
    } else {
        None
    }
}

/// The directive of a queue that starts anew.
pub open spec fn restart_directive(t: Tracklist) -> Directive {
    Directive { clear_output: true, fetch: fetch_current(t), ..idle_spec() }
}

/// Less than a minute of a track of `seconds` is left at `position`
/// milliseconds.
pub open spec fn about_to_finish(seconds: u32, position: u64) -> bool {
    (seconds as int) < position as int / 1000 + 60
}

/// Where a jump of ten seconds forward lands in a track of `seconds`.
pub open spec fn forward_target(position: u64, seconds: u32) -> int {
    if position + 10000 < seconds * 1000 {
        position + 10000
    } else {
        seconds * 1000
    }
}

/// Where a jump of ten seconds back lands.
pub open spec fn backward_target(position: u64) -> int {
    if position < 10000 {
        0
    } else {
        position - 10000
    }
}

fn idle() -> (r: Directive)
    ensures
        r == idle_spec(),
{
    Directive { clear_output: false, queue_source: false, seek_to: None, output: Output::Keep, fetch: None }
}

/// The state that the player loop owns: the tracklist, the sink's accounting,
/// the status it aims at and the flags of the next track. Each method takes
/// one event and says which outside work follows.
pub struct Player {
    tracklist: Tracklist,
    status: Status,
    sink: Sink,
    next_track_is_queried: bool,
    next_track_in_sink_queue: bool,
    position: u64,
}

/// What skipping to `new_position` does to `p0`, giving `p1` and the
/// directive `r`: going back without `force` while more than a second has
/// played restarts the current track; a position inside the queue starts it
/// there; any other position resets the tracklist and pauses.
pub open spec fn skip_outcome(p0: Player, p1: Player, r: Directive, new_position: int, force: bool) -> bool {
    let q = p0.list().items();
    let c = current_index(q);
    if !force && new_position < c && p0.published() > 1000 {
        &&& p1.list() == p0.list()
        &&& p1.output() == (if p0.output().stream_rate is Some {
            SinkModel { played: 0, ..p0.output() }
        } else {
            p0.output()
        })
        &&& p1.target() == p0.target()
        &&& p1.published() == 0
        &&& p1.queried() == p0.queried()
        &&& p1.in_sink_queue() == p0.in_sink_queue()
        &&& r == (Directive { seek_to: Some(0), ..idle_spec() })
    } else if 0 <= new_position < q.len() {
        &&& p1.list().items() == skipped(q, new_position)
        &&& p1.list().kind() == p0.list().kind()
        &&& p1.output() == after_clear(p0.output())
        &&& p1.target() == p0.target()
        &&& p1.published() == 0
        &&& !p1.queried()
        &&& !p1.in_sink_queue()
        &&& r == (Directive {
            clear_output: true,
            fetch: Some(Fetch { track_id: q[new_position].track.id, is_next: false }),
            ..idle_spec()
        })
    } else {
        &&& p1.list().items() == reset_queue(
            if new_position < 0 { q } else { skipped(q, new_position) },
        )
        &&& p1.list().kind() == p0.list().kind()
        &&& p1.output() == after_clear(p0.output())
        &&& p1.target() == Status::Paused
        &&& p1.published() == 0
        &&& !p1.queried()
        &&& p1.in_sink_queue() == p0.in_sink_queue()
        &&& r == (Directive { clear_output: true, ..idle_spec() })
    }
}

/// What an edit of the queue does besides the edit: the next track is
/// fetched anew and the sink keeps only the source that plays, with its
/// running position restarted; nothing else changes.
pub open spec fn queue_edited(p0: Player, p1: Player) -> bool {
    &&& p1.target() == p0.target()
    &&& p1.output() == (SinkModel {
        pending: p0.output().pending.take(
            if p0.output().pending.len() > 0 {
                1
            } else {
                0
            },
        ),
        played: 0,
        ..p0.output()
    })
    &&& !p1.queried()
    &&& p1.in_sink_queue() == p0.in_sink_queue()
    &&& p1.published() == p0.published()
}

impl Player {
    pub closed spec fn list(&self) -> Tracklist {
        self.tracklist
    }

    pub closed spec fn target(&self) -> Status {
        self.status
    }

    pub closed spec fn output(&self) -> SinkModel {
        self.sink@
    }

    pub closed spec fn queried(&self) -> bool {
        self.next_track_is_queried
    }

    pub closed spec fn in_sink_queue(&self) -> bool {
        self.next_track_in_sink_queue
    }

    pub closed spec fn published(&self) -> u64 {
        self.position
    }

    pub closed spec fn wf(&self) -> bool {
        self.sink.wf() && self.tracklist.wf() && self.tracklist.items().len() <= i32::MAX
    }

    /// A paused player on `tracklist`, with an empty sink.
    pub fn new(tracklist: Tracklist) -> (r: Self)
        requires
            tracklist.wf(),
            tracklist.items().len() <= i32::MAX,
        ensures
            r.wf(),
            r.list() == tracklist,
            r.target() == Status::Paused,
            r.output() == (SinkModel { stream_rate: None, pending: Seq::empty(), played: 0, finished: 0 }),
            !r.queried(),
            !r.in_sink_queue(),
            r.published() == 0,
    {
        Player {
            tracklist,
            status: Status::Paused,
            sink: Sink::new(),
            next_track_is_queried: false,
            next_track_in_sink_queue: false,
            position: 0,
        }
    }

    pub fn tracklist(&self) -> (r: &Tracklist)
        ensures
            *r == self.list(),
    {
        &self.tracklist
    }

    pub fn status(&self) -> (r: Status)
        ensures
            r == self.target(),
    {
        self.status
    }

    pub fn sink(&self) -> (r: &Sink)
        ensures
            r@ == self.output(),
    {
        &self.sink
    }

    /// The position last published, in milliseconds.
    pub fn position(&self) -> (r: u64)
        ensures
            r == self.published(),
    {
        self.position
    }

    pub fn next_track_is_queried(&self) -> (r: bool)
        ensures
            r == self.queried(),
    {
        self.next_track_is_queried
    }

    pub fn next_track_in_sink_queue(&self) -> (r: bool)
        ensures
            r == self.in_sink_queue(),
    {
        self.next_track_in_sink_queue
    }

    /// Before a delayed change of state: a paused player shows that it is
    /// buffering, and the caller waits the configured delay. Says whether to
    /// wait.
    pub fn begin_state_change(&mut self) -> (r: bool)
        ensures
            r == (old(self).target() == Status::Paused),
            final(self).target() == if r {
                Status::Buffering
            } else {
                old(self).target()
            },
            final(self).list() == old(self).list(),
            final(self).output() == old(self).output(),
            final(self).queried() == old(self).queried(),
            final(self).in_sink_queue() == old(self).in_sink_queue(),
            final(self).published() == old(self).published(),
            old(self).wf() ==> final(self).wf(),
    {
        if self.status == Status::Paused {
            self.status = Status::Buffering;
            true
        } else {
            false
        }
    }

    /// Pauses.
    pub fn pause(&mut self) -> (r: Directive)
        ensures
            final(self).target() == Status::Paused,
            r == (Directive { output: Output::Pause, ..idle_spec() }),
            final(self).list() == old(self).list(),
            final(self).output() == old(self).output(),
            final(self).queried() == old(self).queried(),
            final(self).in_sink_queue() == old(self).in_sink_queue(),
            final(self).published() == old(self).published(),
            old(self).wf() ==> final(self).wf(),
    {
        self.status = Status::Paused;
        Directive { output: Output::Pause, ..idle() }
    }

    /// Plays: with an empty sink the current track is fetched first, else the
    /// output resumes.
    pub fn play(&mut self) -> (r: Directive)
        ensures
            crate::sink::sink_empty(old(self).output()) && has_playing(old(self).list().items())
                ==> final(self).target() == Status::Buffering && r == (Directive {
                fetch: fetch_current(old(self).list()),
                ..idle_spec()
            }),
            !(crate::sink::sink_empty(old(self).output()) && has_playing(old(self).list().items()))
                ==> final(self).target() == Status::Playing && r == (Directive {
                output: Output::Play,
                ..idle_spec()
            }),
            final(self).list() == old(self).list(),
            final(self).output() == old(self).output(),
            final(self).queried() == old(self).queried(),
            final(self).in_sink_queue() == old(self).in_sink_queue(),
            final(self).published() == old(self).published(),
            old(self).wf() ==> final(self).wf(),
    {
        let current = self.tracklist.current_track();
        if self.sink.is_empty() && current.is_some() {
            let id = current.unwrap().id;
            self.status = Status::Buffering;
            Directive { fetch: Some(Fetch { track_id: id, is_next: false }), ..idle() }
        } else {
            self.status = Status::Playing;
            Directive { output: Output::Play, ..idle() }
        }
    }

    /// Pauses a player that plays or buffers, plays a paused one.
    pub fn play_pause(&mut self) -> (r: Directive)
        ensures
            old(self).target() == Status::Paused && crate::sink::sink_empty(old(self).output())
                && has_playing(old(self).list().items()) ==> final(self).target()
                == Status::Buffering && r == (Directive {
                fetch: fetch_current(old(self).list()),
                ..idle_spec()
            }),
            old(self).target() == Status::Paused && !(crate::sink::sink_empty(old(self).output())
                && has_playing(old(self).list().items())) ==> final(self).target()
                == Status::Playing && r == (Directive { output: Output::Play, ..idle_spec() }),
            old(self).target() != Status::Paused ==> final(self).target() == Status::Paused && r
                == (Directive { output: Output::Pause, ..idle_spec() }),
            final(self).list() == old(self).list(),
            final(self).output() == old(self).output(),
            final(self).queried() == old(self).queried(),
            final(self).in_sink_queue() == old(self).in_sink_queue(),
            final(self).published() == old(self).published(),
            old(self).wf() ==> final(self).wf(),
    {
        match self.status {
            Status::Playing | Status::Buffering => self.pause(),
            Status::Paused => self.play(),
        }
    }

    /// The track to play is being downloaded.
    pub fn buffering(&mut self)
        ensures
            final(self).target() == Status::Buffering,
            final(self).list() == old(self).list(),
            final(self).output() == old(self).output(),
            final(self).queried() == old(self).queried(),
            final(self).in_sink_queue() == old(self).in_sink_queue(),
            final(self).published() == old(self).published(),
            old(self).wf() ==> final(self).wf(),
    {
        self.status = Status::Buffering;
    }

    /// A fetched track was at hand at once and decoded to a source of `rate`
    /// lasting `duration` milliseconds: the sink takes it, the output plays.
    /// For the next track, whether it went into the sink's queue is kept.
    pub fn track_ready(&mut self, rate: u32, duration: u64, is_next: bool) -> (r: Directive)
        requires
            old(self).wf(),
            old(self).output().pending.len() < usize::MAX,
        ensures
            final(self).wf(),
            final(self).output() == after_query(old(self).output(), rate, duration),
            final(self).target() == Status::Playing,
            r == (Directive {
                queue_source: query_result(old(self).output(), rate) == QueryTrackResult::Queued,
                output: Output::Play,
                ..idle_spec()
            }),
            final(self).in_sink_queue() == if is_next {
                query_result(old(self).output(), rate) == QueryTrackResult::Queued
            } else {
                old(self).in_sink_queue()
            },
            final(self).list() == old(self).list(),
            final(self).queried() == old(self).queried(),
            final(self).published() == old(self).published(),
    {
        let result = self.sink.query_track(rate, duration);
        let queued = result == QueryTrackResult::Queued;
        if is_next {
            self.next_track_in_sink_queue = queued;
        }
        self.status = Status::Playing;
        Directive { queue_source: queued, output: Output::Play, ..idle() }
    }

    /// A track that was being downloaded is ready and decoded to a source of
    /// `rate` lasting `duration` milliseconds: the sink takes it.
    pub fn done_buffering(&mut self, rate: u32, duration: u64) -> (r: Directive)
        requires
            old(self).wf(),
            old(self).output().pending.len() < usize::MAX,
        ensures
            final(self).wf(),
            final(self).output() == after_query(old(self).output(), rate, duration),
            final(self).target() == Status::Playing,
            final(self).in_sink_queue() == (query_result(old(self).output(), rate)
                == QueryTrackResult::Queued),
            r == (Directive { queue_source: final(self).in_sink_queue(), ..idle_spec() }),
            final(self).list() == old(self).list(),
            final(self).queried() == old(self).queried(),
            final(self).published() == old(self).published(),
    {
        self.status = Status::Playing;
        let result = self.sink.query_track(rate, duration);
        self.next_track_in_sink_queue = result == QueryTrackResult::Queued;
        Directive { queue_source: self.next_track_in_sink_queue, ..idle() }
    }

    /// The output finished the source that played.
    pub fn source_finished(&mut self)
        requires
            old(self).wf(),
            old(self).output().pending.len() > 0,
            old(self).output().played + old(self).output().pending[0] <= u64::MAX,
            old(self).output().finished < u64::MAX,
        ensures
            final(self).wf(),
            final(self).output() == after_finish(old(self).output()),
            final(self).list() == old(self).list(),
            final(self).target() == old(self).target(),
            final(self).queried() == old(self).queried(),
            final(self).in_sink_queue() == old(self).in_sink_queue(),
            final(self).published() == old(self).published(),
    {
        self.sink.source_finished();
    }

    /// The track that played has finished. The next one plays: if its source
    /// is not in the sink's queue the stream is dropped and the track fetched.
    /// After the last track the tracklist is reset and the player pauses.
    pub fn track_finished(&mut self) -> (r: Directive)
        requires
            old(self).wf(),
        ensures
            final(self).wf(),
            !final(self).queried(),
            final(self).in_sink_queue() == old(self).in_sink_queue(),
            ({
                let q = old(self).list().items();
                let k = current_index(q) + 1;
                if k < q.len() {
                    &&& final(self).list().items() == skipped(q, k)
                    &&& final(self).target() == old(self).target()
                    &&& final(self).published() == old(self).published()
                    &&& if old(self).in_sink_queue() {
                        final(self).output() == old(self).output() && r == idle_spec()
                    } else {
                        final(self).output() == after_clear(old(self).output()) && r == (Directive {
                            clear_output: true,
                            fetch: Some(Fetch { track_id: q[k].track.id, is_next: false }),
                            ..idle_spec()
                        })
                    }
                } else {
                    &&& final(self).list().items() == reset_queue(skipped(q, k))
                    &&& final(self).target() == Status::Paused
                    &&& final(self).output() == after_clear(old(self).output())
                    &&& final(self).published() == 0
                    &&& r == (Directive { clear_output: true, output: Output::Pause, ..idle_spec() })
                }
            }),
            final(self).list().kind() == old(self).list().kind(),
    {
        let current = self.tracklist.current_position();
        let next_position = (current + 1) as i32;
        let next = self.tracklist.skip_to_track(next_position);
        let directive = match next {
            Some(track) => {
                if !self.next_track_in_sink_queue {
                    let id = track.id;
                    self.sink.clear();
                    Directive {
                        clear_output: true,
                        fetch: Some(Fetch { track_id: id, is_next: false }),
                        ..idle()
                    }
                } else {
                    idle()
                }
            },
            None => {
                self.tracklist.reset();
                self.status = Status::Paused;
                self.sink.clear();
                self.position = 0;
                Directive { clear_output: true, output: Output::Pause, ..idle() }
            },
        };
        self.next_track_is_queried = false;
        directive
    }

    /// The periodic tick, with the running position that the output reports.
    /// While playing it publishes the position, and with less than a minute
    /// of the current track left it fetches the next track once.
    pub fn tick(&mut self, reported: u64) -> (r: Directive)
        ensures
            final(self).list() == old(self).list(),
            final(self).output() == old(self).output(),
            final(self).target() == old(self).target(),
            final(self).in_sink_queue() == old(self).in_sink_queue(),
            old(self).wf() ==> final(self).wf(),
            old(self).target() != Status::Playing ==> r == idle_spec() && final(self).published()
                == old(self).published() && final(self).queried() == old(self).queried(),
            old(self).target() == Status::Playing ==> ({
                let q = old(self).list().items();
                let c = current_index(q);
                let p = sink_position(old(self).output(), reported);
                let due = has_playing(q) && about_to_finish(q[c].track.duration_seconds, p as u64)
                    && !old(self).queried() && c + 1 < q.len();
                &&& final(self).published() == p
                &&& due ==> final(self).queried() && r == (Directive {
                    fetch: Some(Fetch { track_id: q[c + 1].track.id, is_next: true }),
                    ..idle_spec()
                })
                &&& !due ==> final(self).queried() == old(self).queried() && r == idle_spec()
            }),
    {
        if self.status != Status::Playing {
            return idle();
        }
        let position = self.sink.position(reported);
        self.position = position;
        let duration = match self.tracklist.current_track() {
            Some(t) => Some(t.duration_seconds),
            None => None,
        };
        if let Some(seconds) = duration {
            if (seconds as u64) < position / 1000 + 60 && !self.next_track_is_queried {
                let next = match self.tracklist.next_track() {
                    Some(t) => Some(t.id),
                    None => None,
                };
                if let Some(id) = next {
                    self.next_track_is_queried = true;
                    return Directive { fetch: Some(Fetch { track_id: id, is_next: true }), ..idle() };
                }
            }
        }
        idle()
    }

    /// Starts the queue anew on the current tracklist: the stream is dropped
    /// and the track that plays, if any, is fetched.
    fn restart(&mut self) -> (r: Directive)
        requires
            old(self).wf(),
        ensures
            final(self).wf(),
            final(self).list() == old(self).list(),
            final(self).target() == old(self).target(),
            final(self).output() == after_clear(old(self).output()),
            !final(self).queried(),
            !final(self).in_sink_queue(),
            final(self).published() == old(self).published(),
            r == restart_directive(old(self).list()),
    {
        self.sink.clear();
        self.next_track_is_queried = false;
        self.next_track_in_sink_queue = false;
        let fetch = match self.tracklist.current_track() {
            Some(t) => Some(Fetch { track_id: t.id, is_next: false }),
            None => None,
        };
        Directive { clear_output: true, fetch, ..idle() }
    }

    /// Replaces the tracklist and starts it.
    pub fn new_queue(&mut self, tracklist: Tracklist) -> (r: Directive)
        requires
            old(self).wf(),
            tracklist.wf(),
            tracklist.items().len() <= i32::MAX,
        ensures
            final(self).wf(),
            final(self).list() == tracklist,
            final(self).target() == old(self).target(),
            final(self).output() == after_clear(old(self).output()),
            !final(self).queried(),
            !final(self).in_sink_queue(),
            final(self).published() == old(self).published(),
            r == restart_directive(tracklist),
    {
        self.tracklist = tracklist;
        self.restart()
    }

    /// Skips to `new_position`. Going back without `force` while more than a
    /// second of the current track has played restarts that track instead.
    /// A position outside the queue resets the tracklist and pauses.
    pub fn skip_to_position(&mut self, new_position: i32, force: bool) -> (r: Directive)
        requires
            old(self).wf(),
        ensures
            final(self).wf(),
            skip_outcome(*old(self), *final(self), r, new_position as int, force),
    {
        let current = self.tracklist.current_position();
        if !force && new_position < current as i32 && self.position > 1000 {
            self.sink.seek();
            self.position = 0;
            return Directive { seek_to: Some(0), ..idle() };
        }
        self.position = 0;
        let started = self.tracklist.skip_to_track(new_position).is_some();
        if started {
            proof {
                crate::tracklist::lemma_skip_then_current(old(self).list().items(), new_position as int);
            }
            self.restart()
        } else {
            self.tracklist.reset();
            self.sink.clear();
            self.next_track_is_queried = false;
            self.status = Status::Paused;
            Directive { clear_output: true, ..idle() }
        }
    }

    /// Skips to the track after the current one.
    pub fn next(&mut self) -> (r: Directive)
        requires
            old(self).wf(),
        ensures
            final(self).wf(),
            skip_outcome(
                *old(self),
                *final(self),
                r,
                current_index(old(self).list().items()) + 1,
                true,
            ),
    {
        let current = self.tracklist.current_position();
        self.skip_to_position((current + 1) as i32, true)
    }

    /// Skips to the track before the current one, or restarts the current
    /// one when more than a second of it has played.
    pub fn previous(&mut self) -> (r: Directive)
        requires
            old(self).wf(),
        ensures
            final(self).wf(),
            skip_outcome(
                *old(self),
                *final(self),
                r,
                current_index(old(self).list().items()) - 1,
                false,
            ),
    {
        let current = self.tracklist.current_position();
        self.skip_to_position(current as i32 - 1, false)
    }

    /// Plays a single track.
    pub fn play_track(&mut self, track: Track) -> (r: Directive)
        requires
            old(self).wf(),
        ensures
            final(self).wf(),
            final(self).list().kind() == TracklistType::Tracks,
            final(self).list().items() == seq![
                QueueItem { track: track.with_status(TrackStatus::Playing), id: 0 },
            ],
            r == (Directive {
                clear_output: true,
                fetch: Some(Fetch { track_id: track.id, is_next: false }),
                ..idle_spec()
            }),
    {
        let mut track = track;
        track.status = TrackStatus::Playing;
        let ghost t = track;
        let list = Tracklist::new(TracklistType::Tracks, vec![track]);
        proof {
            assert(list.items() =~= seq![QueueItem { track: t, id: 0 }]);
            assert(crate::tracklist::first_playing_at(list.items(), 0));
            crate::tracklist::lemma_current_index(list.items());
            crate::tracklist::lemma_first_playing_unique(
                list.items(),
                0,
                current_index(list.items()),
            );
        }
        self.new_queue(list)
    }

    /// Plays an album from the track at `index`; tracks that cannot be
    /// streamed are left out.
    pub fn play_album(&mut self, album: Album, index: usize) -> (r: Directive)
        requires
            old(self).wf(),
            album.tracks@.len() <= i32::MAX,
        ensures
            final(self).wf(),
            final(self).list().items() == crate::selection::started(album.tracks@, index as int),
            final(self).list().kind() == TracklistType::Album(
                AlbumTracklist { title: album.title, id: album.id, image: Some(album.image) },
            ),
            r == restart_directive(final(self).list()),
    {
        let list_type = TracklistType::Album(
            AlbumTracklist { title: album.title, id: album.id, image: Some(album.image) },
        );
        let list = start_tracklist(list_type, album.tracks, index);
        self.new_queue(list)
    }

    /// Plays an artist's top tracks from the track at `index`.
    pub fn play_top_tracks(&mut self, artist: ArtistPage, artist_id: u32, index: usize) -> (r:
        Directive)
        requires
            old(self).wf(),
            artist.top_tracks@.len() <= i32::MAX,
        ensures
            final(self).wf(),
            final(self).list().items() == crate::selection::started(
                artist.top_tracks@,
                index as int,
            ),
            final(self).list().kind() == TracklistType::TopTracks(
                TopTracklist { artist_name: artist.name, id: artist_id, image: artist.image },
            ),
            r == restart_directive(final(self).list()),
    {
        let list_type = TracklistType::TopTracks(
            TopTracklist { artist_name: artist.name, id: artist_id, image: artist.image },
        );
        let list = start_tracklist(list_type, artist.top_tracks, index);
        self.new_queue(list)
    }

    /// Plays a playlist from the track at `index`, in random order when
    /// `shuffle` is set.
    pub fn play_playlist(&mut self, playlist: Playlist, index: usize, shuffle: bool) -> (r:
        Directive)
        requires
            old(self).wf(),
            playlist.tracks@.len() <= i32::MAX,
        ensures
            final(self).wf(),
            exists|order: Seq<Track>|
                #![trigger crate::tracklist::numbered(order)]
                order.to_multiset() == crate::selection::available_tracks(
                    playlist.tracks@,
                ).to_multiset() && (!shuffle ==> order == crate::selection::available_tracks(
                    playlist.tracks@,
                )) && final(self).list().items() == skipped(
                    crate::tracklist::numbered(order),
                    crate::selection::start_position(playlist.tracks@, index as int),
                ),
            final(self).list().kind() == TracklistType::Playlist(
                PlaylistTracklist { title: playlist.title, id: playlist.id, image: playlist.image },
            ),
            r == restart_directive(final(self).list()),
    {
        let list_type = TracklistType::Playlist(
            PlaylistTracklist { title: playlist.title, id: playlist.id, image: playlist.image },
        );
        let list = start_shuffled_tracklist(list_type, playlist.tracks, index, shuffle);
        self.new_queue(list)
    }

    /// The queue was edited: the next track is fetched anew and the sources
    /// queued after the current one are dropped.
    fn update_queue(&mut self)
        requires
            old(self).wf(),
        ensures
            final(self).wf(),
            final(self).list() == old(self).list(),
            final(self).target() == old(self).target(),
            final(self).output() == (SinkModel {
                pending: old(self).output().pending.take(
                    if old(self).output().pending.len() > 0 {
                        1
                    } else {
                        0
                    },
                ),
                played: 0,
                ..old(self).output()
            }),
            !final(self).queried(),
            final(self).in_sink_queue() == old(self).in_sink_queue(),
            final(self).published() == old(self).published(),
    {
        self.next_track_is_queried = false;
        self.sink.clear_queue();
    }

    /// Takes the item at `index` out of the queue.
    pub fn remove_index_from_queue(&mut self, index: usize)
        requires
            old(self).wf(),
            index < old(self).list().items().len(),
        ensures
            final(self).wf(),
            final(self).list().items() == old(self).list().items().remove(index as int),
            final(self).list().kind() == old(self).list().kind(),
            queue_edited(*old(self), *final(self)),
    {
        self.tracklist.remove_track(index);
        self.update_queue();
    }

    /// Appends a track to the queue.
    pub fn add_track_to_queue(&mut self, track: Track)
        requires
            old(self).wf(),
            old(self).list().items().len() < i32::MAX,
        ensures
            final(self).wf(),
            final(self).list().items() == old(self).list().items().push(
                QueueItem {
                    track: joining(old(self).list().items(), track),
                    id: fresh_id(old(self).list().items()),
                },
            ),
            final(self).list().kind() == old(self).list().kind(),
            queue_edited(*old(self), *final(self)),
    {
        self.tracklist.push_track(track);
        self.update_queue();
    }

    /// Puts a track right after the current one (at the front of an empty
    /// queue).
    pub fn play_track_next(&mut self, track: Track)
        requires
            old(self).wf(),
            old(self).list().items().len() < i32::MAX,
        ensures
            final(self).wf(),
            ({
                let q = old(self).list().items();
                let at = if current_index(q) + 1 <= q.len() {
                    current_index(q) + 1
                } else {
                    q.len() as int
                };
                final(self).list().items() == q.insert(
                    at,
                    QueueItem { track: joining(q, track), id: fresh_id(q) },
                )
            }),
            final(self).list().kind() == old(self).list().kind(),
            queue_edited(*old(self), *final(self)),
    {
        let current = self.tracklist.current_position();
        let total = self.tracklist.total();
        let at = if current + 1 <= total {
            current + 1
        } else {
            total
        };
        self.tracklist.insert_track(at, track);
        self.update_queue();
    }

    /// Lays the queue out in a new order.
    pub fn reorder_queue(&mut self, new_order: Vec<usize>)
        requires
            old(self).wf(),
            is_permutation(new_order@, old(self).list().items().len()),
        ensures
            final(self).wf(),
            final(self).list().items() == reordered(old(self).list().items(), new_order@),
            final(self).list().items().to_multiset() == old(self).list().items().to_multiset(),
            final(self).list().kind() == old(self).list().kind(),
            queue_edited(*old(self), *final(self)),
    {
        self.tracklist.reorder_queue(new_order);
        self.update_queue();
    }

    /// Empties the queue and pauses.
    pub fn clear_queue(&mut self) -> (r: Directive)
        requires
            old(self).wf(),
        ensures
            final(self).wf(),
            final(self).list().items().len() == 0,
            final(self).list().kind() == TracklistType::Tracks,
            final(self).target() == Status::Paused,
            final(self).output() == after_clear(old(self).output()),
            !final(self).queried(),
            !final(self).in_sink_queue(),
            r == (Directive { clear_output: true, output: Output::Pause, ..idle_spec() }),
    {
        self.status = Status::Paused;
        self.sink.clear();
        self.next_track_is_queried = false;
        self.next_track_in_sink_queue = false;
        self.tracklist = Tracklist::empty();
        Directive { clear_output: true, output: Output::Pause, ..idle() }
    }

    /// Replaces the queue with `items`, the first of them playing; with
    /// `play` the first track is fetched.
    pub fn new_track_queue(&mut self, items: Vec<QueueItem>, play: bool) -> (r: Directive)
        requires
            old(self).wf(),
            items@.len() <= i32::MAX,
        ensures
            final(self).wf(),
            final(self).list().kind() == TracklistType::Tracks,
            final(self).list().items() == keep_first_playing(if items@.len() > 0 {
                items@.update(
                    0,
                    QueueItem {
                        track: items@[0].track.with_status(TrackStatus::Playing),
                        id: items@[0].id,
                    },
                )
            } else {
                items@
            }),
            final(self).output() == after_clear(old(self).output()),
            !final(self).queried(),
            !final(self).in_sink_queue(),
            play ==> r == restart_directive(final(self).list()),
            !play ==> r == (Directive { clear_output: true, ..idle_spec() }),
    {
        self.sink.clear();
        self.next_track_is_queried = false;
        self.next_track_in_sink_queue = false;
        let mut items = items;
        if items.len() > 0 {
            items[0].track.status = TrackStatus::Playing;
        }
        let list = Tracklist::new_with_id(TracklistType::Tracks, items);
        let fetch = if play {
            match list.current_track() {
                Some(t) => Some(Fetch { track_id: t.id, is_next: false }),
                None => None,
            }
        } else {
            None
        };
        self.tracklist = list;
        Directive { clear_output: true, fetch, ..idle() }
    }

    /// The output has seeked; `reported` is the running position it reports
    /// now.
    pub fn seek_done(&mut self, reported: u64)
        requires
            old(self).wf(),
        ensures
            final(self).wf(),
            final(self).output() == (if old(self).output().stream_rate is Some {
                SinkModel { played: 0, ..old(self).output() }
            } else {
                old(self).output()
            }),
            final(self).published() == sink_position(final(self).output(), reported),
            final(self).list() == old(self).list(),
            final(self).target() == old(self).target(),
            final(self).queried() == old(self).queried(),
            final(self).in_sink_queue() == old(self).in_sink_queue(),
    {
        self.sink.seek();
        self.position = self.sink.position(reported);
    }

    /// Where a jump of ten seconds forward lands, clamped to the end of the
    /// current track; nothing without a current track.
    pub fn jump_forward(&self, reported: u64) -> (r: Option<u64>)
        ensures
            has_playing(self.list().items()) ==> r == Some(
                forward_target(
                    sink_position(self.output(), reported) as u64,
                    self.list().items()[current_index(self.list().items())].track.duration_seconds,
                ) as u64,
            ),
            !has_playing(self.list().items()) ==> r is None,
    {
        match self.tracklist.current_track() {
            Some(t) => Some(jump_forward_target(self.sink.position(reported), t.duration_seconds)),
            None => None,
        }
    }

    /// Where a jump of ten seconds back lands, never before the start.
    pub fn jump_backward(&self, reported: u64) -> (r: u64)
        ensures
            r == backward_target(sink_position(self.output(), reported) as u64),
    {
        jump_backward_target(self.sink.position(reported))
    }
}

/// Ten seconds after `position`, but not past the end of a track of
/// `seconds`.
pub fn jump_forward_target(position: u64, seconds: u32) -> (r: u64)
    ensures
        r == forward_target(position, seconds),
{
    let end = (seconds as u64) * 1000;
    if position < end && end - position > 10000 {
        position + 10000
    } else {
        end
    }
}

/// Ten seconds before `position`, but not before zero.
pub fn jump_backward_target(position: u64) -> (r: u64)
    ensures
        r == backward_target(position),
{
    if position < 10000 {
        0
    } else {
        position - 10000
    }
}

} // verus!
