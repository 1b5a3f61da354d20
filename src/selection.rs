use vstd::prelude::*;

use crate::models::Track;
use crate::tracklist::{numbered, skipped, Tracklist, TracklistType};
use rand::seq::SliceRandom;

verus! {

/// The streamable tracks, in their order.
pub open spec fn available_tracks(s: Seq<Track>) -> Seq<Track>
    decreases s.len(),
{
    if s.len() == 0 {
        Seq::empty()
    } else {
        let r = available_tracks(s.drop_last());
        if s.last().available {
            r.push(s.last())
        } else {
            r
        }
    }
}

/// How many tracks cannot be streamed.
pub open spec fn unavailable_count(s: Seq<Track>) -> nat
    decreases s.len(),
{
    if s.len() == 0 {
        0
    } else {
        unavailable_count(s.drop_last()) + if s.last().available {
            0nat
        } else {
            1nat
        }
    }
}

/// Where the track at `index` of `s` stands once the tracks that cannot be
/// streamed are left out.
pub open spec fn start_position(s: Seq<Track>, index: int) -> int {
    let before = if index < s.len() {
        index
    } else {
        s.len() as int
    };
    index - unavailable_count(s.take(before))
}

/// The tracklist that playing `tracks` from `index` starts: the streamable
/// tracks, with the one chosen playing.
pub open spec fn started(s: Seq<Track>, index: int) -> Seq<crate::tracklist::QueueItem> {
    skipped(numbered(available_tracks(s)), start_position(s, index))
}

proof fn lemma_available_len(s: Seq<Track>)
    ensures
        available_tracks(s).len() + unavailable_count(s) == s.len(),
    decreases s.len(),
{
    if s.len() > 0 {
        lemma_available_len(s.drop_last());
    }
}

proof fn lemma_skip_past_end(q: Seq<crate::tracklist::QueueItem>, a: int, b: int)
    requires
        a >= q.len(),
        b >= q.len(),
    ensures
        skipped(q, a) == skipped(q, b),
{
    assert(skipped(q, a) =~= skipped(q, b));
}

/// Relies on rand's `SliceRandom::shuffle` with the thread-local generator:
/// the tracks are permuted in place.
#[verifier::external_body]
fn shuffle_tracks(tracks: &mut Vec<Track>)
    ensures
        final(tracks)@.to_multiset() == old(tracks)@.to_multiset(),
{
    tracks.shuffle(&mut rand::rng());
}

/// Leaves out the tracks that cannot be streamed, and gives the position of
/// the track at `index` among those left.
pub fn streamable_from(tracks: Vec<Track>, index: usize) -> (r: (Vec<Track>, usize))
    ensures
        r.0@ == available_tracks(tracks@),
        r.1 == start_position(tracks@, index as int),
{
    let ghost all = tracks@;
    let n = tracks.len();
    let mut rest = tracks;
    let mut kept: Vec<Track> = Vec::new();
    let mut skipped_before: usize = 0;
    let mut i: usize = 0;
    while i < n
        invariant
            n == all.len(),
            i <= n,
            rest@ == all.subrange(i as int, n as int),
            kept@ == available_tracks(all.take(i as int)),
            skipped_before == unavailable_count(all.take(if i <= index { i as int } else { index as int })),
            skipped_before <= (if i <= index { i } else { index }),
        decreases n - i,
    {
        let t = rest.remove(0);
        proof {
            assert(all.take(i + 1).drop_last() =~= all.take(i as int));
            assert(all.take(i + 1).last() == t);
        }
        if !t.available && i < index {
            skipped_before = skipped_before + 1;
        }
        if t.available {
            kept.push(t);
        }
        i = i + 1;
        proof {
            assert(rest@ =~= all.subrange(i as int, n as int));
        }
    }
    proof {
        assert(all.take(n as int) =~= all);
    }
    (kept, index - skipped_before)
}

/// The tracklist that playing `tracks` from `index` starts. The tracks that
/// cannot be streamed are left out; the track at `index` plays, and where it
/// was left out the one after it.
pub fn start_tracklist(list_type: TracklistType, tracks: Vec<Track>, index: usize) -> (r: Tracklist)
    requires
        tracks@.len() <= i32::MAX,
    ensures
        r.wf(),
        r.kind() == list_type,
        r.items() == started(tracks@, index as int),
        r.items().len() <= i32::MAX,
{
    proof {
        lemma_available_len(tracks@);
    }
    let (kept, position) = streamable_from(tracks, index);
    let mut r = Tracklist::new(list_type, kept);
    let k: i32 = if position > (i32::MAX as usize) {
        i32::MAX
    } else {
        position as i32
    };
    proof {
        if position > (i32::MAX as usize) {
            lemma_skip_past_end(r.items(), k as int, position as int);
        }
    }
    r.skip_to_track(k);
    r
}

/// As `start_tracklist`, with the streamable tracks in random order when
/// `shuffle` is set; the position chosen is counted before the shuffle.
pub fn start_shuffled_tracklist(
    list_type: TracklistType,
    tracks: Vec<Track>,
    index: usize,
    shuffle: bool,
) -> (r: Tracklist)
    requires
        tracks@.len() <= i32::MAX,
    ensures
        r.wf(),
        r.kind() == list_type,
        r.items().len() <= i32::MAX,
        exists|order: Seq<Track>|
            #![trigger numbered(order)]
            order.to_multiset() == available_tracks(tracks@).to_multiset() && (!shuffle ==> order
                == available_tracks(tracks@)) && r.items() == skipped(
                numbered(order),
                start_position(tracks@, index as int),
            ),
{
    proof {
        lemma_available_len(tracks@);
    }
    let (mut kept, position) = streamable_from(tracks, index);
    let ghost before = kept@;
    if shuffle {
        shuffle_tracks(&mut kept);
    }
    let ghost order = kept@;
    proof {
        kept@.to_multiset_ensures();
        before.to_multiset_ensures();
    }
    let mut r = Tracklist::new(list_type, kept);
    let k: i32 = if position > (i32::MAX as usize) {
        i32::MAX
    } else {
        position as i32
    };
    proof {
        if position > (i32::MAX as usize) {
            lemma_skip_past_end(r.items(), k as int, position as int);
        }
    }
    r.skip_to_track(k);
    proof {
        assert(r.items() == skipped(numbered(order), start_position(tracks@, index as int)));
    }
    r
}

} // verus!
