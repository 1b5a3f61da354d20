use vstd::multiset::Multiset;
use vstd::prelude::*;
use vstd::string::StringExecFns;

use crate::models::{Track, TrackStatus};

verus! {

/// An entry of the queue: a track and an id that stays with it while the
/// queue is reordered or shortened.
#[derive(Debug, Clone, PartialEq)]
pub struct QueueItem {
    pub track: Track,
    pub id: u64,
}

#[derive(Debug, Clone, PartialEq)]
pub struct AlbumTracklist {
    pub title: String,
    pub id: String,
    pub image: Option<String>,
}

#[derive(Debug, Clone, PartialEq)]
pub struct PlaylistTracklist {
    pub title: String,
    pub id: u32,
    pub image: Option<String>,
}

#[derive(Debug, Clone, PartialEq)]
pub struct TopTracklist {
    pub artist_name: String,
    pub id: u32,
    pub image: Option<String>,
}

/// What the tracklist was started from.
#[derive(Debug, Clone, PartialEq)]
pub enum TracklistType {
    Album(AlbumTracklist),
    Playlist(PlaylistTracklist),
    TopTracks(TopTracklist),
    Tracks,
}

impl Default for TracklistType {
    fn default() -> (r: Self)
        ensures
            r == TracklistType::Tracks,
    {
        TracklistType::Tracks
    }
}

/// The queue of the player together with its context.
#[derive(Debug, Clone, PartialEq)]
pub struct Tracklist {
    queue: Vec<QueueItem>,
    list_type: TracklistType,
}

pub open spec fn playing_at(q: Seq<QueueItem>, i: int) -> bool {
    0 <= i < q.len() && q[i].track.is_playing()
}

pub open spec fn has_playing(q: Seq<QueueItem>) -> bool {
    exists|i: int| playing_at(q, i)
}

/// `i` is the first index whose item is playing.
pub open spec fn first_playing_at(q: Seq<QueueItem>, i: int) -> bool {
    playing_at(q, i) && forall|k: int| 0 <= k < i ==> !q[k].track.is_playing()
}

/// Exactly one item of the queue is playing.
pub open spec fn exactly_one_playing(q: Seq<QueueItem>) -> bool {
    exists|j: int|
        #![trigger q[j]]
        playing_at(q, j) && forall|i: int| 0 <= i < q.len() && i != j ==> !q[i].track.is_playing()
}

/// The index of the first playing item, or 0 when none plays.
pub open spec fn current_index(q: Seq<QueueItem>) -> int {
    if has_playing(q) {
        choose|i: int| first_playing_at(q, i)
    } else {
        0
    }
}

/// The tracks numbered from zero in their order.
pub open spec fn numbered(tracks: Seq<Track>) -> Seq<QueueItem> {
    Seq::new(tracks.len(), |i: int| QueueItem { track: tracks[i], id: i as u64 })
}

/// The status that skipping to `k` gives the item at `i`.
pub open spec fn skip_status(i: int, k: int) -> TrackStatus {
    if i < k {
        TrackStatus::Played
    } else if i == k {
        TrackStatus::Playing
    } else {
        TrackStatus::Unplayed
    }
}

/// The queue after skipping to `k`: the statuses change, nothing else.
pub open spec fn skipped(q: Seq<QueueItem>, k: int) -> Seq<QueueItem> {
    Seq::new(
        q.len(),
        |i: int| QueueItem { track: q[i].track.with_status(skip_status(i, k)), id: q[i].id },
    )
}

pub proof fn lemma_first_playing_unique(q: Seq<QueueItem>, i: int, j: int)
    requires
        first_playing_at(q, i),
        first_playing_at(q, j),
    ensures
        i == j,
{
    if i < j {
        assert(!q[i].track.is_playing());
    } else if j < i {
        assert(!q[j].track.is_playing());
    }
}

pub proof fn lemma_current_index(q: Seq<QueueItem>)
    ensures
        has_playing(q) ==> first_playing_at(q, current_index(q)),
        !has_playing(q) ==> current_index(q) == 0,
{
    if has_playing(q) {
        let w = choose|i: int| playing_at(q, i);
        lemma_exists_first(q, w);
    }
}

proof fn lemma_exists_first(q: Seq<QueueItem>, w: int)
    requires
        playing_at(q, w),
    ensures
        exists|i: int| first_playing_at(q, i),
    decreases w,
{
    if exists|k: int| 0 <= k < w && q[k].track.is_playing() {
        let k = choose|k: int| 0 <= k < w && q[k].track.is_playing();
        lemma_exists_first(q, k);
    } else {
        assert(first_playing_at(q, w));
    }
}


/// The status that a reset gives to an item that had `s`.
pub open spec fn cleared_status(s: TrackStatus) -> TrackStatus {
    if s == TrackStatus::Played || s == TrackStatus::Playing {
        TrackStatus::Unplayed
    } else {
        s
    }
}

pub open spec fn with_item_status(item: QueueItem, s: TrackStatus) -> QueueItem {
    QueueItem { track: item.track.with_status(s), id: item.id }
}

/// Every played or playing item made unplayed.
pub open spec fn cleared(q: Seq<QueueItem>) -> Seq<QueueItem> {
    Seq::new(q.len(), |i: int| with_item_status(q[i], cleared_status(q[i].track.status)))
}

/// `f` is the first index whose item is unplayed.
pub open spec fn first_unplayed_at(q: Seq<QueueItem>, f: int) -> bool {
    0 <= f < q.len() && q[f].track.status == TrackStatus::Unplayed && forall|k: int|
        0 <= k < f ==> q[k].track.status != TrackStatus::Unplayed
}

/// The queue after a reset: cleared, then the first unplayed item playing.
pub open spec fn reset_queue(q: Seq<QueueItem>) -> Seq<QueueItem> {
    let c = cleared(q);
    if exists|f: int| first_unplayed_at(c, f) {
        let f = choose|f: int| first_unplayed_at(c, f);
        c.update(f, with_item_status(c[f], TrackStatus::Playing))
    } else {
        c
    }
}

/// `order` lists each index below `n` exactly once.
pub open spec fn is_permutation(order: Seq<usize>, n: nat) -> bool {
    &&& order.len() == n
    &&& forall|i: int| 0 <= i < n ==> (order[i] as int) < n
    &&& forall|i: int, j: int| 0 <= i < n && 0 <= j < n && i != j ==> order[i] != order[j]
}

/// The queue laid out in the order given.
pub open spec fn reordered(q: Seq<QueueItem>, order: Seq<usize>) -> Seq<QueueItem> {
    Seq::new(order.len(), |i: int| q[order[i] as int])
}

/// The tracks of a queue, statuses included.
pub open spec fn tracks_of(q: Seq<QueueItem>) -> Seq<Track> {
    q.map_values(|item: QueueItem| item.track)
}

/// The items held in the slots that are still filled, as a multiset.
pub open spec fn slot_items(s: Seq<Option<QueueItem>>) -> Multiset<QueueItem>
    decreases s.len(),
{
    if s.len() == 0 {
        Multiset::empty()
    } else {
        let rest = slot_items(s.drop_last());
        match s.last() {
            Some(item) => rest.insert(item),
            None => rest,
        }
    }
}

proof fn lemma_slot_items_take(s: Seq<Option<QueueItem>>, j: int)
    requires
        0 <= j < s.len(),
        s[j] is Some,
    ensures
        slot_items(s.update(j, None)).insert(s[j].unwrap()) == slot_items(s),
    decreases s.len(),
{
    let u = s.update(j, None);
    if j == s.len() - 1 {
        assert(u.drop_last() =~= s.drop_last());
    } else {
        assert(u.drop_last() =~= s.drop_last().update(j, None));
        lemma_slot_items_take(s.drop_last(), j);
        assert(u.last() == s.last());
    }
}

proof fn lemma_slot_items_full(q: Seq<QueueItem>)
    ensures
        slot_items(Seq::new(q.len(), |i: int| Some(q[i]))) == q.to_multiset(),
    decreases q.len(),
{
    let s = Seq::new(q.len(), |i: int| Some(q[i]));
    if q.len() > 0 {
        let d = q.drop_last();
        lemma_slot_items_full(d);
        assert(s.drop_last() =~= Seq::new(d.len(), |i: int| Some(d[i])));
        assert(s.last() == Some(q.last()));
        assert(slot_items(s) == slot_items(s.drop_last()).insert(q.last()));
        d.to_multiset_ensures();
        assert(d.push(q.last()) =~= q);
        assert(d.push(q.last()).to_multiset() == d.to_multiset().insert(q.last()));
    } else {
        q.to_multiset_ensures();
        vstd::multiset::lemma_multiset_empty_len(q.to_multiset());
    }
}

proof fn lemma_first_unplayed_unique(q: Seq<QueueItem>, i: int, j: int)
    requires
        first_unplayed_at(q, i),
        first_unplayed_at(q, j),
    ensures
        i == j,
{
    if i < j {
        assert(q[i].track.status != TrackStatus::Unplayed);
    } else if j < i {
        assert(q[j].track.status != TrackStatus::Unplayed);
    }
}

/// Some position before `i` of `order` holds `j`.
pub open spec fn used(order: Seq<usize>, i: int, j: int) -> bool {
    exists|t: int| 0 <= t < i && order[t] as int == j
}

/// A tracklist made of tracks of which some play has exactly one playing
/// item: the first of them.
pub proof fn lemma_new_keeps_one_playing(tracks: Seq<Track>)
    requires
        exists|j: int| 0 <= j < tracks.len() && tracks[j].is_playing(),
    ensures
        exactly_one_playing(keep_first_playing(numbered(tracks))),
{
    let j = choose|j: int| 0 <= j < tracks.len() && tracks[j].is_playing();
    let q = numbered(tracks);
    assert(playing_at(q, j));
    lemma_keep_first_playing(q);
}

/// Skipping to a position inside the queue leaves exactly one item playing.
pub proof fn lemma_skip_leaves_one_playing(q: Seq<QueueItem>, k: int)
    requires
        0 <= k < q.len(),
    ensures
        exactly_one_playing(skipped(q, k)),
{
    let s = skipped(q, k);
    assert(playing_at(s, k));
    assert(forall|i: int| 0 <= i < s.len() && i != k ==> !s[i].track.is_playing());
}

/// A reset leaves exactly one item playing when some item is not unplayable.
pub proof fn lemma_reset_leaves_one_playing(q: Seq<QueueItem>)
    requires
        exists|i: int| 0 <= i < q.len() && q[i].track.status != TrackStatus::Unplayable,
    ensures
        exactly_one_playing(reset_queue(q)),
{
    let c = cleared(q);
    let w = choose|i: int| 0 <= i < q.len() && q[i].track.status != TrackStatus::Unplayable;
    assert(c[w].track.status == TrackStatus::Unplayed);
    lemma_exists_first_unplayed(c, w);
    let f = choose|f: int| first_unplayed_at(c, f);
    let r = reset_queue(q);
    assert(playing_at(r, f));
    assert forall|i: int| 0 <= i < r.len() && i != f implies !r[i].track.is_playing() by {
        assert(r[i] == c[i]);
    }
}

proof fn lemma_exists_first_unplayed(c: Seq<QueueItem>, w: int)
    requires
        0 <= w < c.len(),
        c[w].track.status == TrackStatus::Unplayed,
    ensures
        exists|f: int| first_unplayed_at(c, f),
    decreases w,
{
    if exists|k: int| 0 <= k < w && c[k].track.status == TrackStatus::Unplayed {
        let k = choose|k: int| 0 <= k < w && c[k].track.status == TrackStatus::Unplayed;
        lemma_exists_first_unplayed(c, k);
    } else {
        assert(first_unplayed_at(c, w));
    }
}

/// Where exactly one item plays, the current position is that item's index.
pub proof fn lemma_current_index_is_playing(q: Seq<QueueItem>)
    requires
        exactly_one_playing(q),
    ensures
        playing_at(q, current_index(q)),
        forall|i: int| 0 <= i < q.len() && i != current_index(q) ==> !q[i].track.is_playing(),
{
    let j = choose|j: int|
        #![trigger q[j]]
        playing_at(q, j) && forall|i: int| 0 <= i < q.len() && i != j ==> !q[i].track.is_playing();
    lemma_current_index(q);
    assert(has_playing(q));
    let c = current_index(q);
    assert(q[c].track.is_playing());
    assert(c == j);
}

/// After skipping to a position inside the queue, the current item is the one
/// at that position.
pub proof fn lemma_skip_then_current(q: Seq<QueueItem>, k: int)
    requires
        0 <= k < q.len(),
    ensures
        has_playing(skipped(q, k)),
        current_index(skipped(q, k)) == k,
        skipped(q, k)[k].track == q[k].track.with_status(TrackStatus::Playing),
{
    let s = skipped(q, k);
    assert(playing_at(s, k));
    assert(first_playing_at(s, k));
    lemma_current_index(s);
    lemma_first_playing_unique(s, k, current_index(s));
}

/// Inserting an item and removing it again at the same index gives the queue
/// back.
pub proof fn lemma_insert_then_remove(q: Seq<QueueItem>, i: int, item: QueueItem)
    requires
        0 <= i <= q.len(),
    ensures
        q.insert(i, item).remove(i) == q,
        tracks_of(q.insert(i, item).remove(i)) == tracks_of(q),
{
    assert(q.insert(i, item).remove(i) =~= q);
}

/// What the player shows as the source of the music that plays.
#[derive(Debug, Clone, PartialEq)]
pub struct Entity {
    pub title: Option<String>,
    pub link: Option<String>,
    pub cover_link: Option<String>,
}

pub open spec fn opt_view(o: Option<String>) -> Option<Seq<char>> {
    match o {
        Some(s) => Some(s@),
        None => None,
    }
}

pub open spec fn digit(d: nat) -> char {
    if d == 0 {
        '0'
    } else if d == 1 {
        '1'
    } else if d == 2 {
        '2'
    } else if d == 3 {
        '3'
    } else if d == 4 {
        '4'
    } else if d == 5 {
        '5'
    } else if d == 6 {
        '6'
    } else if d == 7 {
        '7'
    } else if d == 8 {
        '8'
    } else {
        '9'
    }
}

/// The decimal digits of `n`, without sign or leading zeros.
pub open spec fn decimal(n: nat) -> Seq<char>
    decreases n,
{
    if n < 10 {
        seq![digit(n)]
    } else {
        decimal(n / 10).push(digit(n % 10))
    }
}

/// The digit character for `d`.
fn digit_str(d: u32) -> (r: &'static str)
    requires
        d < 10,
    ensures
        r@ == seq![digit(d as nat)],
{
    proof {
        reveal_strlit("0");
        reveal_strlit("1");
        reveal_strlit("2");
        reveal_strlit("3");
        reveal_strlit("4");
        reveal_strlit("5");
        reveal_strlit("6");
        reveal_strlit("7");
        reveal_strlit("8");
        reveal_strlit("9");
    }
    if d == 0 {
        "0"
    } else if d == 1 {
        "1"
    } else if d == 2 {
        "2"
    } else if d == 3 {
        "3"
    } else if d == 4 {
        "4"
    } else if d == 5 {
        "5"
    } else if d == 6 {
        "6"
    } else if d == 7 {
        "7"
    } else if d == 8 {
        "8"
    } else {
        "9"
    }
}

/// Appends the decimal digits of `n`.
fn write_decimal(n: u32, out: &mut String)
    ensures
        final(out)@ == old(out)@ + decimal(n as nat),
    decreases n,
{
    if n >= 10 {
        write_decimal(n / 10, out);
    }
    out.append(digit_str(n % 10));
    proof {
        if n >= 10 {
            assert(old(out)@ + decimal((n / 10) as nat) + seq![digit((n % 10) as nat)] =~= old(out)@
                + decimal(n as nat));
        } else {
            assert(old(out)@ + seq![digit((n % 10) as nat)] =~= old(out)@ + decimal(n as nat));
        }
    }
}

/// `n` in decimal digits.
fn decimal_string(n: u32) -> (r: String)
    ensures
        r@ == decimal(n as nat),
{
    let mut r = String::new();
    write_decimal(n, &mut r);
    proof {
        assert(r@ =~= decimal(n as nat));
    }
    r
}

fn copy_text(o: &Option<String>) -> (r: Option<String>)
    ensures
        opt_view(r) == opt_view(*o),
{
    match o {
        Some(s) => Some(s.clone()),
        None => None,
    }
}

/// `prefix` followed by `rest`.
fn joined(prefix: &str, rest: &str) -> (r: String)
    ensures
        r@ == prefix@ + rest@,
{
    let mut r = String::new();
    r.append(prefix);
    r.append(rest);
    r
}

/// The entity that plays in a tracklist of `kind` whose current track is
/// `current`.
pub open spec fn entity_of(kind: TracklistType, current: Option<Track>) -> (Option<Seq<char>>, Option<Seq<char>>, Option<Seq<char>>) {
    let cover = match current {
        Some(t) => opt_view(t.image),
        None => None,
    };
    match kind {
        TracklistType::Album(a) => (Some(a.title@), Some("/album/"@ + a.id@), cover),
        TracklistType::Playlist(p) => (Some(p.title@), Some("/playlist/"@ + decimal(p.id as nat)), cover),
        TracklistType::TopTracks(t) => (Some(t.artist_name@), Some("/artist/"@ + decimal(t.id as nat)), cover),
        TracklistType::Tracks => match current {
            Some(t) => (
                opt_view(t.album_title),
                match t.album_id {
                    Some(id) => Some("/album/"@ + id@),
                    None => None,
                },
                cover,
            ),
            None => (None, None, None),
        },
    }
}

pub open spec fn current_of(q: Seq<QueueItem>) -> Option<Track> {
    if has_playing(q) {
        Some(q[current_index(q)].track)
    } else {
        None
    }
}

/// Whether `order` lists each index below `n` exactly once, so that it can
/// reorder a queue of `n` items.
pub fn valid_order(order: &Vec<usize>, n: usize) -> (r: bool)
    ensures
        r == is_permutation(order@, n as nat),
{
    if order.len() != n {
        return false;
    }
    let mut seen: Vec<bool> = Vec::new();
    let mut j: usize = 0;
    while j < n
        invariant
            j <= n,
            seen@.len() == j,
            forall|k: int| 0 <= k < j ==> !seen@[k],
        decreases n - j,
    {
        seen.push(false);
        j = j + 1;
    }
    let mut i: usize = 0;
    while i < n
        invariant
            i <= n,
            order@.len() == n,
            seen@.len() == n,
            forall|t: int| 0 <= t < i ==> (order@[t] as int) < n,
            forall|t: int, u: int| 0 <= t < i && 0 <= u < i && t != u ==> order@[t] != order@[u],
            forall|k: int| 0 <= k < n ==> (seen@[k] <==> used(order@, i as int, k)),
        decreases n - i,
    {
        let v = order[i];
        if v >= n {
            return false;
        }
        if seen[v] {
            proof {
                let t = choose|t: int| 0 <= t < i && order@[t] as int == v as int;
                assert(order@[t] == order@[i as int]);
            }
            return false;
        }
        seen.set(v, true);
        proof {
            assert forall|k: int| 0 <= k < n implies (seen@[k] <==> used(order@, i + 1, k)) by {
                if used(order@, i + 1, k) {
                    let t = choose|t: int| 0 <= t < i + 1 && order@[t] as int == k;
                    if t < i {
                        assert(used(order@, i as int, k));
                    }
                }
                if k == v as int {
                    assert(order@[i as int] as int == k);
                } else if used(order@, i as int, k) {
                    let t = choose|t: int| 0 <= t < i && order@[t] as int == k;
                    assert(0 <= t < i + 1);
                }
            }
            assert forall|t: int, u: int| 0 <= t < i + 1 && 0 <= u < i + 1 && t != u implies order@[t] != order@[u] by {
                if t == i && u < i {
                    assert(used(order@, i as int, order@[u] as int));
                } else if u == i && t < i {
                    assert(used(order@, i as int, order@[t] as int));
                }
            }
        }
        i = i + 1;
    }
    true
}

/// No two items of the queue are playing.
pub open spec fn at_most_one_playing(q: Seq<QueueItem>) -> bool {
    forall|i: int, j: int| playing_at(q, i) && playing_at(q, j) ==> i == j
}

/// The track, unplayed instead of playing.
pub open spec fn demoted(t: Track) -> Track {
    if t.is_playing() {
        t.with_status(TrackStatus::Unplayed)
    } else {
        t
    }
}

/// The queue with every playing item after the first one made unplayed.
pub open spec fn keep_first_playing(q: Seq<QueueItem>) -> Seq<QueueItem> {
    Seq::new(
        q.len(),
        |i: int|
            if has_playing(q.take(i)) {
                QueueItem { track: demoted(q[i].track), id: q[i].id }
            } else {
                q[i]
            },
    )
}

proof fn lemma_has_playing_take_step(q: Seq<QueueItem>, i: int)
    requires
        0 <= i < q.len(),
    ensures
        has_playing(q.take(i + 1)) == (has_playing(q.take(i)) || q[i].track.is_playing()),
{
    let a = q.take(i);
    let b = q.take(i + 1);
    if has_playing(a) {
        let w = choose|w: int| playing_at(a, w);
        assert(playing_at(b, w));
    }
    if q[i].track.is_playing() {
        assert(playing_at(b, i));
    }
    if has_playing(b) {
        let w = choose|w: int| playing_at(b, w);
        if w < i {
            assert(playing_at(a, w));
        }
    }
}

/// Keeping the first playing item leaves at most one playing, and one
/// exactly when some item played.
pub proof fn lemma_keep_first_playing(q: Seq<QueueItem>)
    ensures
        at_most_one_playing(keep_first_playing(q)),
        has_playing(q) ==> exactly_one_playing(keep_first_playing(q)),
        at_most_one_playing(q) ==> keep_first_playing(q) == q,
{
    let r = keep_first_playing(q);
    assert forall|i: int, j: int| playing_at(r, i) && playing_at(r, j) implies i == j by {
        if i < j {
            assert(q[i].track.is_playing());
            assert(playing_at(q.take(j), i));
        } else if j < i {
            assert(q[j].track.is_playing());
            assert(playing_at(q.take(i), j));
        }
    }
    if has_playing(q) {
        lemma_current_index(q);
        let c = current_index(q);
        assert forall|k: int| 0 <= k < c implies !playing_at(q.take(c), k) by {}
        assert(!has_playing(q.take(c)));
        assert(playing_at(r, c));
    }
    if at_most_one_playing(q) {
        assert forall|i: int| 0 <= i < q.len() implies r[i] == q[i] by {
            if has_playing(q.take(i)) && q[i].track.is_playing() {
                let w = choose|w: int| playing_at(q.take(i), w);
                assert(playing_at(q, w));
                assert(playing_at(q, i));
            }
        }
        assert(r =~= q);
    }
}

/// Makes every playing item after the first one unplayed.
fn keep_first_playing_in(queue: &mut Vec<QueueItem>)
    ensures
        final(queue)@ == keep_first_playing(old(queue)@),
{
    let ghost q0 = queue@;
    let n = queue.len();
    let mut seen = false;
    let mut i: usize = 0;
    while i < n
        invariant
            n == q0.len(),
            i <= n,
            queue@.len() == n,
            seen == has_playing(q0.take(i as int)),
            forall|k: int| 0 <= k < i ==> queue@[k] == keep_first_playing(q0)[k],
            forall|k: int| i <= k < n ==> queue@[k] == q0[k],
        decreases n - i,
    {
        proof {
            lemma_has_playing_take_step(q0, i as int);
        }
        if queue[i].track.status == TrackStatus::Playing {
            if seen {
                queue[i].track.status = TrackStatus::Unplayed;
            }
            seen = true;
        }
        i = i + 1;
    }
    proof {
        assert(queue@ =~= keep_first_playing(q0));
    }
}

proof fn lemma_skipped_wf(q: Seq<QueueItem>, k: int)
    ensures
        at_most_one_playing(skipped(q, k)),
{
}

proof fn lemma_reset_wf(q: Seq<QueueItem>)
    ensures
        at_most_one_playing(reset_queue(q)),
{
    let c = cleared(q);
    assert(forall|i: int| 0 <= i < c.len() ==> !c[i].track.is_playing());
}

proof fn lemma_remove_wf(q: Seq<QueueItem>, index: int)
    requires
        at_most_one_playing(q),
        0 <= index < q.len(),
    ensures
        at_most_one_playing(q.remove(index)),
{
    let r = q.remove(index);
    assert forall|i: int, j: int| playing_at(r, i) && playing_at(r, j) implies i == j by {
        let a = if i < index { i } else { i + 1 };
        let b = if j < index { j } else { j + 1 };
        assert(playing_at(q, a));
        assert(playing_at(q, b));
    }
}

proof fn lemma_insert_wf(q: Seq<QueueItem>, index: int, item: QueueItem)
    requires
        at_most_one_playing(q),
        0 <= index <= q.len(),
        item.track.is_playing() ==> !has_playing(q),
    ensures
        at_most_one_playing(q.insert(index, item)),
{
    let r = q.insert(index, item);
    assert forall|i: int, j: int| playing_at(r, i) && playing_at(r, j) implies i == j by {
        let a = if i < index { i } else { i - 1 };
        let b = if j < index { j } else { j - 1 };
        if i == index && j != index {
            assert(playing_at(q, b));
        } else if j == index && i != index {
            assert(playing_at(q, a));
        } else if i != index && j != index {
            assert(playing_at(q, a));
            assert(playing_at(q, b));
        }
    }
}

proof fn lemma_reordered_wf(q: Seq<QueueItem>, order: Seq<usize>)
    requires
        at_most_one_playing(q),
        is_permutation(order, q.len()),
    ensures
        at_most_one_playing(reordered(q, order)),
{
    let r = reordered(q, order);
    assert forall|i: int, j: int| playing_at(r, i) && playing_at(r, j) implies i == j by {
        assert(playing_at(q, order[i] as int));
        assert(playing_at(q, order[j] as int));
    }
}

/// The track as it joins the queue: unplayed if it plays while another item
/// plays already.
pub open spec fn joining(q: Seq<QueueItem>, t: Track) -> Track {
    if has_playing(q) {
        demoted(t)
    } else {
        t
    }
}

/// Some item of the queue carries `id`.
pub open spec fn id_in_use(q: Seq<QueueItem>, id: u64) -> bool {
    exists|i: int| 0 <= i < q.len() && q[i].id == id
}

/// One above every id of the queue; zero for an empty queue.
pub open spec fn id_bound(q: Seq<QueueItem>) -> int
    decreases q.len(),
{
    if q.len() == 0 {
        0
    } else {
        let b = id_bound(q.drop_last());
        if q.last().id + 1 > b {
            q.last().id + 1
        } else {
            b
        }
    }
}

/// `c` is the least id that no item carries.
pub open spec fn least_unused_at(q: Seq<QueueItem>, c: u64) -> bool {
    !id_in_use(q, c) && forall|d: u64| d < c ==> id_in_use(q, d)
}

/// The id for an item joining the queue: one above every id in it, or the
/// least unused id when an item already carries the largest `u64`.
pub open spec fn fresh_id(q: Seq<QueueItem>) -> u64 {
    if id_bound(q) <= u64::MAX {
        id_bound(q) as u64
    } else {
        choose|c: u64| least_unused_at(q, c)
    }
}

proof fn lemma_id_bound(q: Seq<QueueItem>)
    ensures
        id_bound(q) >= 0,
        forall|i: int| 0 <= i < q.len() ==> q[i].id < id_bound(q),
    decreases q.len(),
{
    if q.len() > 0 {
        lemma_id_bound(q.drop_last());
        assert forall|i: int| 0 <= i < q.len() implies q[i].id < id_bound(q) by {
            if i < q.len() - 1 {
                assert(q.drop_last()[i] == q[i]);
            }
        }
    }
}

proof fn lemma_least_unused_unique(q: Seq<QueueItem>, a: u64, b: u64)
    requires
        least_unused_at(q, a),
        least_unused_at(q, b),
    ensures
        a == b,
{
    if a < b {
        assert(id_in_use(q, a));
    } else if b < a {
        assert(id_in_use(q, b));
    }
}

/// Ids below `c + 1` cannot all be in use in a queue of `c` items or fewer.
proof fn lemma_ids_pigeonhole(q: Seq<QueueItem>, c: u64)
    requires
        forall|d: u64| d <= c ==> id_in_use(q, d),
    ensures
        c + 1 <= q.len(),
{
    let ids = q.map_values(|x: QueueItem| x.id as int);
    let range = vstd::set_lib::set_int_range(0, c + 1);
    vstd::set_lib::lemma_int_range(0, c + 1);
    vstd::seq_lib::seq_to_set_is_finite(ids);
    ids.lemma_cardinality_of_set();
    assert forall|x: int| range.contains(x) implies ids.to_set().contains(x) by {
        let d = x as u64;
        assert(id_in_use(q, d));
        let i = choose|i: int| 0 <= i < q.len() && q[i].id == d;
        assert(ids[i] == x);
    }
    vstd::set_lib::lemma_len_subset(range, ids.to_set());
}

/// The id for an item joining the queue.
fn fresh_id_of(q: &Vec<QueueItem>) -> (r: u64)
    ensures
        r == fresh_id(q@),
        !id_in_use(q@, r),
{
    let n = q.len();
    let mut bound: u64 = 0;
    let mut saturated = false;
    let mut i: usize = 0;
    while i < n
        invariant
            n == q@.len(),
            i <= n,
            saturated == (id_bound(q@.take(i as int)) > u64::MAX),
            !saturated ==> bound == id_bound(q@.take(i as int)),
        decreases n - i,
    {
        proof {
            assert(q@.take(i + 1).drop_last() =~= q@.take(i as int));
            lemma_id_bound(q@.take(i as int));
        }
        let id = q[i].id;
        if id == u64::MAX {
            saturated = true;
        } else if !saturated && id + 1 > bound {
            bound = id + 1;
        }
        i = i + 1;
    }
    proof {
        assert(q@.take(n as int) =~= q@);
        lemma_id_bound(q@);
    }
    if !saturated {
        return bound;
    }
    let mut c: u64 = 0;
    loop
        invariant
            n == q@.len(),
            id_bound(q@) > u64::MAX,
            forall|d: u64| d < c ==> id_in_use(q@, d),
            c <= n,
        decreases n - c,
    {
        let mut j: usize = 0;
        let mut used = false;
        while j < n
            invariant
                n == q@.len(),
                j <= n,
                used ==> id_in_use(q@, c),
                !used ==> forall|k: int| 0 <= k < j ==> q@[k].id != c,
            decreases n - j,
        {
            if q[j].id == c {
                used = true;
            }
            j = j + 1;
        }
        if !used {
            proof {
                assert(least_unused_at(q@, c));
                let w = choose|w: u64| least_unused_at(q@, w);
                lemma_least_unused_unique(q@, c, w);
            }
            return c;
        }
        proof {
            assert forall|d: u64| d <= c implies id_in_use(q@, d) by {}
            lemma_ids_pigeonhole(q@, c);
        }
        c = c + 1;
    }
}

impl Tracklist {
    pub closed spec fn items(&self) -> Seq<QueueItem> {
        self.queue@
    }

    pub closed spec fn kind(&self) -> TracklistType {
        self.list_type
    }

    /// At most one item plays.
    pub open spec fn wf(&self) -> bool {
        at_most_one_playing(self.items())
    }

    /// A tracklist of `tracks`, numbered from zero in their order. Of
    /// several playing tracks the first keeps playing.
    pub fn new(list_type: TracklistType, tracks: Vec<Track>) -> (r: Self)
        ensures
            r.wf(),
            r.kind() == list_type,
            r.items() == keep_first_playing(numbered(tracks@)),
    {
        let mut queue: Vec<QueueItem> = Vec::new();
        let mut rest = tracks;
        let ghost all = rest@;
        let mut i: usize = 0;
        let n = rest.len();
        while rest.len() > 0
            invariant
                n == all.len(),
                i + rest@.len() == all.len(),
                queue@.len() == i,
                rest@ == all.subrange(i as int, all.len() as int),
                forall|k: int|
                    #![trigger queue@[k]]
                    0 <= k < i ==> queue@[k] == (QueueItem { track: all[k], id: k as u64 }),
            decreases rest.len(),
        {
            let t = rest.remove(0);
            queue.push(QueueItem { track: t, id: i as u64 });
            i = i + 1;
            proof {
                assert(rest@ =~= all.subrange(i as int, all.len() as int));
            }
        }
        proof {
            assert(queue@ =~= numbered(all));
            lemma_keep_first_playing(queue@);
        }
        keep_first_playing_in(&mut queue);
        Tracklist { queue, list_type }
    }

    /// An empty tracklist of single tracks.
    pub fn empty() -> (r: Self)
        ensures
            r.wf(),
            r.items().len() == 0,
            r.kind() == TracklistType::Tracks,
    {
        Tracklist { queue: Vec::new(), list_type: TracklistType::Tracks }
    }

    /// A tracklist of queue items with their ids. Of several playing items
    /// the first keeps playing.
    pub fn new_with_id(list_type: TracklistType, items: Vec<QueueItem>) -> (r: Self)
        ensures
            r.wf(),
            r.kind() == list_type,
            r.items() == keep_first_playing(items@),
    {
        let mut queue = items;
        proof {
            lemma_keep_first_playing(queue@);
        }
        keep_first_playing_in(&mut queue);
        Tracklist { queue, list_type }
    }

    /// The tracks of the queue, in order.
    pub fn queue(&self) -> (r: Vec<&Track>)
        ensures
            r@.len() == self.items().len(),
            forall|i: int| 0 <= i < r@.len() ==> *r@[i] == self.items()[i].track,
    {
        let mut r: Vec<&Track> = Vec::new();
        let mut i: usize = 0;
        while i < self.queue.len()
            invariant
                i <= self.queue@.len(),
                r@.len() == i,
                forall|k: int| 0 <= k < i ==> *r@[k] == self.queue@[k].track,
            decreases self.queue@.len() - i,
        {
            r.push(&self.queue[i].track);
            i = i + 1;
        }
        r
    }

    pub fn total(&self) -> (r: usize)
        ensures
            r == self.items().len(),
    {
        self.queue.len()
    }

    pub fn list_type(&self) -> (r: &TracklistType)
        ensures
            *r == self.kind(),
    {
        &self.list_type
    }

    /// The index of the first playing item, or 0 when none plays.
    pub fn current_position(&self) -> (r: usize)
        ensures
            r == current_index(self.items()),
            has_playing(self.items()) ==> first_playing_at(self.items(), r as int),
            !has_playing(self.items()) ==> r == 0,
            r == 0 || r < self.items().len(),
    {
        let mut i: usize = 0;
        while i < self.queue.len()
            invariant
                i <= self.queue@.len(),
                forall|k: int| 0 <= k < i ==> !self.queue@[k].track.is_playing(),
            decreases self.queue@.len() - i,
        {
            if self.queue[i].track.status == TrackStatus::Playing {
                proof {
                    assert(first_playing_at(self.queue@, i as int));
                    lemma_current_index(self.queue@);
                    lemma_first_playing_unique(self.queue@, i as int, current_index(self.queue@));
                }
                return i;
            }
            i = i + 1;
        }
        proof {
            lemma_current_index(self.queue@);
        }
        0
    }

    /// The track that plays.
    pub fn current_track(&self) -> (r: Option<&Track>)
        ensures
            has_playing(self.items()) ==> r == Some(&self.items()[current_index(self.items())].track),
            !has_playing(self.items()) ==> r is None,
    {
        let p = self.current_position();
        if p < self.queue.len() && self.queue[p].track.status == TrackStatus::Playing {
            proof {
                assert(playing_at(self.queue@, p as int));
            }
            Some(&self.queue[p].track)
        } else {
            None
        }
    }

    /// The id of the track that plays.
    pub fn currently_playing(&self) -> (r: Option<u32>)
        ensures
            has_playing(self.items()) ==> r == Some(self.items()[current_index(self.items())].track.id),
            !has_playing(self.items()) ==> r is None,
    {
        match self.current_track() {
            Some(t) => Some(t.id),
            None => None,
        }
    }

    /// The queue id of the item that plays.
    pub fn current_queue_id(&self) -> (r: Option<u64>)
        ensures
            has_playing(self.items()) ==> r == Some(self.items()[current_index(self.items())].id),
            !has_playing(self.items()) ==> r is None,
    {
        let p = self.current_position();
        if p < self.queue.len() && self.queue[p].track.status == TrackStatus::Playing {
            proof {
                assert(playing_at(self.queue@, p as int));
            }
            Some(self.queue[p].id)
        } else {
            None
        }
    }

    /// The track after the current position, if there is one.
    pub fn next_track(&self) -> (r: Option<&Track>)
        ensures
            current_index(self.items()) + 1 < self.items().len() ==> r == Some(
                &self.items()[current_index(self.items()) + 1].track,
            ),
            current_index(self.items()) + 1 >= self.items().len() ==> r is None,
    {
        let p = self.current_position();
        if p < self.queue.len() && p + 1 < self.queue.len() {
            Some(&self.queue[p + 1].track)
        } else {
            None
        }
    }

    pub fn next_track_id(&self) -> (r: Option<u32>)
        ensures
            current_index(self.items()) + 1 < self.items().len() ==> r == Some(
                self.items()[current_index(self.items()) + 1].track.id,
            ),
            current_index(self.items()) + 1 >= self.items().len() ==> r is None,
    {
        match self.next_track() {
            Some(t) => Some(t.id),
            None => None,
        }
    }

    pub fn next_track_queue_id(&self) -> (r: Option<u64>)
        ensures
            current_index(self.items()) + 1 < self.items().len() ==> r == Some(
                self.items()[current_index(self.items()) + 1].id,
            ),
            current_index(self.items()) + 1 >= self.items().len() ==> r is None,
    {
        let p = self.current_position();
        if p < self.queue.len() && p + 1 < self.queue.len() {
            Some(self.queue[p + 1].id)
        } else {
            None
        }
    }

    /// Takes the item at `index` out of the queue.
    pub fn remove_track(&mut self, index: usize)
        requires
            index < old(self).items().len(),
        ensures
            final(self).items() == old(self).items().remove(index as int),
            final(self).kind() == old(self).kind(),
            old(self).wf() ==> final(self).wf(),
    {
        proof {
            if old(self).wf() {
                lemma_remove_wf(self.queue@, index as int);
            }
        }
        self.queue.remove(index);
    }

    /// Appends a track under an id that no item carries; a playing track
    /// comes in unplayed when another item plays already.
    pub fn push_track(&mut self, track: Track)
        requires
            old(self).items().len() < usize::MAX,
        ensures
            final(self).items() == old(self).items().push(
                QueueItem { track: joining(old(self).items(), track), id: fresh_id(old(self).items()) },
            ),
            old(self).wf() ==> final(self).wf(),
            final(self).items().len() == old(self).items().len() + 1,
            forall|i: int|
                0 <= i < old(self).items().len() ==> final(self).items()[i].track.status == old(
                    self,
                ).items()[i].track.status,
            forall|i: int|
                0 <= i < old(self).items().len() ==> final(self).items().last().id != old(
                    self,
                ).items()[i].id,
            final(self).kind() == old(self).kind(),
    {
        let mut track = track;
        if track.status == TrackStatus::Playing && self.current_track().is_some() {
            track.status = TrackStatus::Unplayed;
        }
        let id = fresh_id_of(&self.queue);
        proof {
            if old(self).wf() {
                lemma_insert_wf(self.queue@, self.queue@.len() as int, QueueItem { track, id });
                assert(self.queue@.insert(self.queue@.len() as int, QueueItem { track, id })
                    =~= self.queue@.push(QueueItem { track, id }));
            }
        }
        self.queue.push(QueueItem { track, id });
    }

    /// Puts a track at `index` under an id that no item carries; a playing
    /// track comes in unplayed when another item plays already.
    pub fn insert_track(&mut self, index: usize, track: Track)
        requires
            index <= old(self).items().len(),
            old(self).items().len() < usize::MAX,
        ensures
            final(self).items() == old(self).items().insert(
                index as int,
                QueueItem { track: joining(old(self).items(), track), id: fresh_id(old(self).items()) },
            ),
            forall|i: int|
                0 <= i < old(self).items().len() ==> final(self).items()[index as int].id != old(
                    self,
                ).items()[i].id,
            final(self).kind() == old(self).kind(),
            old(self).wf() ==> final(self).wf(),
    {
        let mut track = track;
        if track.status == TrackStatus::Playing && self.current_track().is_some() {
            track.status = TrackStatus::Unplayed;
        }
        let id = fresh_id_of(&self.queue);
        proof {
            if old(self).wf() {
                lemma_insert_wf(self.queue@, index as int, QueueItem { track, id });
            }
        }
        self.queue.insert(index, QueueItem { track, id });
    }

    /// Marks the items before `new_position` played, the one there playing and
    /// those after it unplayed, and returns the track that now plays. A
    /// negative position changes nothing; one past the end promotes no item.
    pub fn skip_to_track(&mut self, new_position: i32) -> (r: Option<&Track>)
        ensures
            final(self).kind() == old(self).kind(),
            new_position < 0 ==> r is None && final(self).items() == old(self).items(),
            new_position >= 0 ==> final(self).items() == skipped(
                old(self).items(),
                new_position as int,
            ),
            0 <= new_position < old(self).items().len() ==> r == Some(
                &final(self).items()[new_position as int].track,
            ),
            new_position >= old(self).items().len() ==> r is None,
            old(self).wf() ==> final(self).wf(),
    {
        if new_position < 0 {
            return None;
        }
        let k = new_position as usize;
        let ghost q0 = self.queue@;
        let n = self.queue.len();
        let mut i: usize = 0;
        while i < n
            invariant
                n == q0.len(),
                i <= n,
                self.queue@.len() == n,
                self.list_type == old(self).list_type,
                q0 == old(self).queue@,
                k == new_position as int,
                forall|j: int| 0 <= j < i ==> self.queue@[j] == skipped(q0, k as int)[j],
                forall|j: int| i <= j < n ==> self.queue@[j] == q0[j],
            decreases n - i,
        {
            let status = if i < k {
                TrackStatus::Played
            } else if i == k {
                TrackStatus::Playing
            } else {
                TrackStatus::Unplayed
            };
            self.queue[i].track.status = status;
            i = i + 1;
        }
        proof {
            assert(self.queue@ =~= skipped(q0, k as int));
            lemma_skipped_wf(q0, k as int);
        }
        if k < self.queue.len() {
            Some(&self.queue[k].track)
        } else {
            None
        }
    }

    /// Makes every played or playing item unplayed, then the first unplayed
    /// item playing.
    pub fn reset(&mut self)
        ensures
            final(self).kind() == old(self).kind(),
            final(self).items() == reset_queue(old(self).items()),
            final(self).wf(),
    {
        proof {
            lemma_reset_wf(self.queue@);
        }
        let ghost q0 = self.queue@;
        let n = self.queue.len();
        let mut i: usize = 0;
        while i < n
            invariant
                n == q0.len(),
                i <= n,
                self.queue@.len() == n,
                self.list_type == old(self).list_type,
                q0 == old(self).queue@,
                forall|j: int| 0 <= j < i ==> self.queue@[j] == cleared(q0)[j],
                forall|j: int| i <= j < n ==> self.queue@[j] == q0[j],
            decreases n - i,
        {
            let status = self.queue[i].track.status;
            if status == TrackStatus::Played || status == TrackStatus::Playing {
                self.queue[i].track.status = TrackStatus::Unplayed;
            } else {
                proof {
                    assert(self.queue@[i as int].track.with_status(status) == self.queue@[i as int].track);
                }
            }
            i = i + 1;
        }
        let ghost c = cleared(q0);
        proof {
            assert(self.queue@ =~= c);
        }
        let mut f: usize = 0;
        while f < n && self.queue[f].track.status != TrackStatus::Unplayed
            invariant
                f <= n,
                n == c.len(),
                self.queue@ == c,
                forall|k: int| 0 <= k < f ==> c[k].track.status != TrackStatus::Unplayed,
            decreases n - f,
        {
            f = f + 1;
        }
        if f < n {
            proof {
                assert(first_unplayed_at(c, f as int));
                let g = choose|g: int| first_unplayed_at(c, g);
                lemma_first_unplayed_unique(c, f as int, g);
            }
            self.queue[f].track.status = TrackStatus::Playing;
            proof {
                assert(self.queue@ =~= c.update(f as int, with_item_status(c[f as int], TrackStatus::Playing)));
            }
        } else {
            proof {
                if exists|g: int| first_unplayed_at(c, g) {
                    let g = choose|g: int| first_unplayed_at(c, g);
                    assert(c[g].track.status == TrackStatus::Unplayed);
                }
            }
        }
    }

    /// Lays the queue out anew: the item at `i` afterwards is the one that
    /// stood at `new_order[i]`. The order given must list each index once.
    pub fn reorder_queue(&mut self, new_order: Vec<usize>)
        requires
            is_permutation(new_order@, old(self).items().len()),
        ensures
            final(self).kind() == old(self).kind(),
            final(self).items() == reordered(old(self).items(), new_order@),
            final(self).items().to_multiset() == old(self).items().to_multiset(),
            old(self).wf() ==> final(self).wf(),
    {
        let ghost q0 = self.queue@;
        proof {
            if old(self).wf() {
                lemma_reordered_wf(q0, new_order@);
            }
        }
        let n = self.queue.len();
        let mut identity = true;
        let mut i: usize = 0;
        while i < n
            invariant
                i <= n,
                n == new_order@.len(),
                identity <==> forall|t: int| 0 <= t < i ==> new_order@[t] as int == t,
            decreases n - i,
        {
            if new_order[i] != i {
                identity = false;
            }
            i = i + 1;
        }
        if identity {
            proof {
                assert(reordered(q0, new_order@) =~= q0);
            }
            return;
        }
        // move every item into a slot of its own
        let mut slots: Vec<Option<QueueItem>> = Vec::new();
        let mut i: usize = 0;
        while i < n
            invariant
                i <= n,
                n == q0.len(),
                self.queue@ == q0.subrange(i as int, n as int),
                self.list_type == old(self).list_type,
                slots@ == Seq::new(i as nat, |j: int| Some(q0[j])),
            decreases n - i,
        {
            let item = self.queue.remove(0);
            slots.push(Some(item));
            i = i + 1;
            proof {
                assert(self.queue@ =~= q0.subrange(i as int, n as int));
                assert(slots@ =~= Seq::new(i as nat, |j: int| Some(q0[j])));
            }
        }
        proof {
            lemma_slot_items_full(q0);
            assert(slots@ =~= Seq::new(q0.len(), |j: int| Some(q0[j])));
            Seq::<QueueItem>::empty().to_multiset_ensures();
            vstd::multiset::lemma_multiset_empty_len(Seq::<QueueItem>::empty().to_multiset());
        }
        // take the slots out in the new order
        let mut out: Vec<QueueItem> = Vec::new();
        let mut i: usize = 0;
        while i < n
            invariant
                i <= n,
                n == q0.len(),
                is_permutation(new_order@, n as nat),
                slots@.len() == n,
                self.list_type == old(self).list_type,
                out@.len() == i,
                forall|t: int| 0 <= t < i ==> out@[t] == q0[new_order@[t] as int],
                forall|j: int|
                    0 <= j < n ==> slots@[j] == if used(new_order@, i as int, j) {
                        None
                    } else {
                        Some(q0[j])
                    },
                out@.to_multiset().add(slot_items(slots@)) == q0.to_multiset(),
            decreases n - i,
        {
            let j = new_order[i];
            proof {
                if used(new_order@, i as int, j as int) {
                    let t = choose|t: int| 0 <= t < i && new_order@[t] as int == j as int;
                    assert(new_order@[t] != new_order@[i as int]);
                }
                lemma_slot_items_take(slots@, j as int);
            }
            let ghost before = slots@;
            let taken = slots.remove(j);
            slots.insert(j, None);
            let item = match taken {
                Some(item) => item,
                None => {
                    proof {
                        assert(false);
                    }
                    return;
                },
            };
            proof {
                assert(slots@ =~= before.update(j as int, None));
                out@.to_multiset_ensures();
                assert(forall|x: int|
                    #![trigger used(new_order@, i + 1, x)]
                    used(new_order@, i + 1, x) <==> (used(new_order@, i as int, x) || x == j as int)) by {
                    assert forall|x: int| used(new_order@, i + 1, x) implies (used(new_order@, i as int, x) || x == j as int) by {
                        let t = choose|t: int| 0 <= t < i + 1 && new_order@[t] as int == x;
                        if t < i {
                            assert(used(new_order@, i as int, x));
                        }
                    }
                    assert forall|x: int| (used(new_order@, i as int, x) || x == j as int) implies used(new_order@, i + 1, x) by {
                        if x == j as int {
                            assert(new_order@[i as int] as int == x);
                        } else {
                            let t = choose|t: int| 0 <= t < i && new_order@[t] as int == x;
                            assert(0 <= t < i + 1);
                        }
                    }
                }
            }
            out.push(item);
            i = i + 1;
        }
        proof {
            out@.to_multiset_ensures();
            q0.to_multiset_ensures();
            vstd::multiset::lemma_multiset_empty_len(slot_items(slots@));
            assert(slot_items(slots@).len() == 0);
            assert(out@ =~= reordered(q0, new_order@));
        }
        self.queue = out;
    }


    /// The album, playlist or artist that plays, with a link to it and the
    /// cover of the current track. A tracklist of single tracks shows the
    /// current track's album.
    pub fn entity_playing(&self) -> (r: Entity)
        ensures
            (opt_view(r.title), opt_view(r.link), opt_view(r.cover_link)) == entity_of(
                self.kind(),
                current_of(self.items()),
            ),
    {
        let current = self.current_track();
        let cover_link = match current {
            Some(t) => copy_text(&t.image),
            None => None,
        };
        match &self.list_type {
            TracklistType::Album(a) => Entity {
                title: Some(a.title.clone()),
                link: Some(joined("/album/", a.id.as_str())),
                cover_link,
            },
            TracklistType::Playlist(p) => {
                let id = decimal_string(p.id);
                Entity {
                    title: Some(p.title.clone()),
                    link: Some(joined("/playlist/", id.as_str())),
                    cover_link,
                }
            },
            TracklistType::TopTracks(t) => {
                let id = decimal_string(t.id);
                Entity {
                    title: Some(t.artist_name.clone()),
                    link: Some(joined("/artist/", id.as_str())),
                    cover_link,
                }
            },
            TracklistType::Tracks => match current {
                Some(t) => Entity {
                    title: copy_text(&t.album_title),
                    link: match &t.album_id {
                        Some(id) => Some(joined("/album/", id.as_str())),
                        None => None,
                    },
                    cover_link,
                },
                None => Entity { title: None, link: None, cover_link },
            },
        }
    }

}

impl Default for Tracklist {
    fn default() -> (r: Self)
        ensures
            r.items().len() == 0,
            r.kind() == TracklistType::Tracks,
    {
        Tracklist::empty()
    }
}

} // verus!
