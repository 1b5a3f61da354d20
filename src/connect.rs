use vstd::prelude::*;

use crate::player::Status;
use crate::tracklist::{current_index, Tracklist};

verus! {

/// The playing state that a remote controller asks for.
#[derive(Debug, Clone, Copy, PartialEq, Eq, Structural)]
pub enum RemotePlayingState {
    Unknown,
    Stopped,
    Playing,
    Paused,
}

/// The state of this renderer as reported to a remote controller.
#[derive(Debug, Clone, Copy, PartialEq, Eq, Structural)]
pub struct RendererState {
    pub playing: bool,
    pub buffering: bool,
    pub current_queue_item_id: i32,
    pub next_queue_item_id: Option<i32>,
    pub position_ms: u32,
}

/// What a remote controller's request to set the state asks of the player.
#[derive(Debug, Clone, Copy, PartialEq, Eq, Structural)]
pub struct SetStateActions {
    pub play: bool,
    pub seek_ms: Option<u64>,
    pub skip_to: Option<usize>,
}

pub open spec fn renderer_state_of(status: Status, position_ms: u64, t: Tracklist) -> RendererState {
    let c = current_index(t.items());
    RendererState {
        playing: status == Status::Playing,
        buffering: status == Status::Buffering,
        current_queue_item_id: c as i32,
        next_queue_item_id: if c + 1 < t.items().len() {
            Some((c + 1) as i32)
        } else {
            None
        },
        position_ms: position_ms as u32,
    }
}

/// The renderer's state: playing only while playing, buffering only while
/// buffering, the current and next positions in the queue, and the position
/// in milliseconds (kept to its low 32 bits).
pub fn current_state(status: Status, position_ms: u64, tracklist: &Tracklist) -> (r: RendererState)
    ensures
        r == renderer_state_of(status, position_ms, *tracklist),
{
    let current = tracklist.current_position();
    let next = if current < tracklist.total() && current + 1 < tracklist.total() {
        Some((current + 1) as i32)
    } else {
        None
    };
    RendererState {
        playing: status == Status::Playing,
        buffering: status == Status::Buffering,
        current_queue_item_id: current as i32,
        next_queue_item_id: next,
        position_ms: position_ms as u32,
    }
}

/// The state sent with a heartbeat: none while paused.
pub fn heartbeat(status: Status, position_ms: u64, tracklist: &Tracklist) -> (r: Option<
    RendererState,
>)
    ensures
        status == Status::Paused ==> r is None,
        status != Status::Paused ==> r == Some(renderer_state_of(status, position_ms, *tracklist)),
{
    match status {
        Status::Playing | Status::Buffering => Some(current_state(status, position_ms, tracklist)),
        Status::Paused => None,
    }
}

/// A request to set the state: play only when playing is asked for, seek
/// when a position is given, and skip when the queue item asked for is not
/// the current one.
pub fn set_state_actions(
    playing_state: RemotePlayingState,
    position_ms: Option<u32>,
    queue_item_id: Option<u32>,
    current_position: usize,
) -> (r: SetStateActions)
    ensures
        r.play == (playing_state == RemotePlayingState::Playing),
        r.seek_ms == match position_ms {
            Some(p) => Some(p as u64),
            None => None::<u64>,
        },
        r.skip_to == match queue_item_id {
            Some(i) => if i as usize != current_position {
                Some(i as usize)
            } else {
                None::<usize>
            },
            None => None::<usize>,
        },
{
    let play = match playing_state {
        RemotePlayingState::Playing => true,
        _ => false,
    };
    let seek_ms = match position_ms {
        Some(p) => Some(p as u64),
        None => None,
    };
    let skip_to = match queue_item_id {
        Some(i) => if i as usize != current_position {
            Some(i as usize)
        } else {
            None
        },
        None => None,
    };
    SetStateActions { play, seek_ms, skip_to }
}

/// The track ids that are present, in order.
pub open spec fn present_ids(ids: Seq<Option<u32>>) -> Seq<u32>
    decreases ids.len(),
{
    if ids.len() == 0 {
        Seq::empty()
    } else {
        let r = present_ids(ids.drop_last());
        match ids.last() {
            Some(id) => r.push(id),
            None => r,
        }
    }
}

/// The track ids of a remote queue, leaving out the entries without one.
pub fn queue_track_ids(ids: &Vec<Option<u32>>) -> (r: Vec<u32>)
    ensures
        r@ == present_ids(ids@),
{
    let mut r: Vec<u32> = Vec::new();
    let mut i: usize = 0;
    while i < ids.len()
        invariant
            i <= ids@.len(),
            r@ == present_ids(ids@.take(i as int)),
        decreases ids@.len() - i,
    {
        proof {
            assert(ids@.take(i + 1).drop_last() =~= ids@.take(i as int));
        }
        if let Some(id) = ids[i] {
            r.push(id);
        }
        i = i + 1;
    }
    proof {
        assert(ids@.take(ids@.len() as int) =~= ids@);
    }
    r
}

} // verus!
