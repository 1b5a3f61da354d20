use vstd::prelude::*;

verus! {

/// What a request to make sure a track is downloaded leads to.
#[derive(Debug, Clone, Copy, PartialEq, Eq, Structural)]
pub enum DownloadStart {
    /// The file is in the cache already.
    Cached,
    /// A fetch starts now.
    Started,
    /// A fetch of this track is already under way: this request joins it.
    InFlight,
}

pub open spec fn request_result(s: Set<u32>, track_id: u32, cached: bool) -> DownloadStart {
    if cached {
        DownloadStart::Cached
    } else if s.contains(track_id) {
        DownloadStart::InFlight
    } else {
        DownloadStart::Started
    }
}

pub open spec fn after_request(s: Set<u32>, track_id: u32, cached: bool) -> Set<u32> {
    if request_result(s, track_id, cached) == DownloadStart::Started {
        s.insert(track_id)
    } else {
        s
    }
}

/// The tracks whose fetch is under way, so that concurrent requests for one
/// track share a single fetch and its completion is signalled once.
pub struct Downloads {
    in_flight: Vec<u32>,
}

impl Downloads {
    pub closed spec fn ids(&self) -> Set<u32> {
        Set::new(|x: u32| self.in_flight@.contains(x))
    }

    pub closed spec fn wf(&self) -> bool {
        self.in_flight@.no_duplicates()
    }

    pub fn new() -> (r: Self)
        ensures
            r.wf(),
            r.ids() == Set::<u32>::empty(),
    {
        let r = Downloads { in_flight: Vec::new() };
        proof {
            assert(r.ids() =~= Set::<u32>::empty());
        }
        r
    }

    fn index_of(&self, track_id: u32) -> (r: Option<usize>)
        ensures
            match r {
                Some(i) => i < self.in_flight@.len() && self.in_flight@[i as int] == track_id,
                None => !self.in_flight@.contains(track_id),
            },
    {
        let mut i: usize = 0;
        while i < self.in_flight.len()
            invariant
                i <= self.in_flight@.len(),
                forall|k: int| 0 <= k < i ==> self.in_flight@[k] != track_id,
            decreases self.in_flight@.len() - i,
        {
            if self.in_flight[i] == track_id {
                return Some(i);
            }
            i = i + 1;
        }
        None
    }

    /// Whether a fetch of the track is under way.
    pub fn is_in_flight(&self, track_id: u32) -> (r: bool)
        ensures
            r == self.ids().contains(track_id),
    {
        let r = self.index_of(track_id);
        r.is_some()
    }

    /// A request for a track: a cached file is used at once; otherwise a
    /// fetch starts unless one of the same track is under way.
    pub fn request(&mut self, track_id: u32, cached: bool) -> (r: DownloadStart)
        requires
            old(self).wf(),
        ensures
            final(self).wf(),
            r == request_result(old(self).ids(), track_id, cached),
            final(self).ids() == after_request(old(self).ids(), track_id, cached),
    {
        if cached {
            return DownloadStart::Cached;
        }
        if self.index_of(track_id).is_some() {
            return DownloadStart::InFlight;
        }
        let ghost before = self.in_flight@;
        self.in_flight.push(track_id);
        proof {
            assert forall|x: u32| self.in_flight@.contains(x) <==> (before.contains(x) || x == track_id) by {
                if self.in_flight@.contains(x) {
                    let k = choose|k: int| 0 <= k < self.in_flight@.len() && self.in_flight@[k] == x;
                    if k < before.len() {
                        assert(before[k] == x);
                    }
                }
                if before.contains(x) {
                    let k = choose|k: int| 0 <= k < before.len() && before[k] == x;
                    assert(self.in_flight@[k] == x);
                }
                if x == track_id {
                    assert(self.in_flight@[before.len() as int] == x);
                }
            }
            assert(self.ids() =~= Set::new(|x: u32| before.contains(x)).insert(track_id));
            assert forall|a: int, b: int|
                0 <= a < self.in_flight@.len() && 0 <= b < self.in_flight@.len() && a != b implies self.in_flight@[a]
                != self.in_flight@[b] by {
                if a < before.len() && b < before.len() {
                } else if a == before.len() {
                    assert(before.contains(before[b]));
                } else {
                    assert(before.contains(before[a]));
                }
            }
        }
        DownloadStart::Started
    }

    /// The fetch of a track ended, well or not. Says whether it was under
    /// way: the completion signal fires only then, so once per fetch.
    pub fn finish(&mut self, track_id: u32) -> (r: bool)
        requires
            old(self).wf(),
        ensures
            final(self).wf(),
            r == old(self).ids().contains(track_id),
            final(self).ids() == old(self).ids().remove(track_id),
    {
        match self.index_of(track_id) {
            Some(i) => {
                let ghost before = self.in_flight@;
                self.in_flight.remove(i);
                proof {
                    let after = self.in_flight@;
                    assert(after =~= before.remove(i as int));
                    assert forall|x: u32| after.contains(x) <==> (before.contains(x) && x != track_id) by {
                        if after.contains(x) {
                            let k = choose|k: int| 0 <= k < after.len() && after[k] == x;
                            if k < i {
                                assert(before[k] == x);
                                assert(k != i);
                            } else {
                                assert(before[k + 1] == x);
                            }
                        }
                        if before.contains(x) && x != track_id {
                            let k = choose|k: int| 0 <= k < before.len() && before[k] == x;
                            if k < i {
                                assert(after[k] == x);
                            } else {
                                assert(k != i);
                                assert(after[k - 1] == x);
                            }
                        }
                    }
                    assert(self.ids() =~= Set::new(|x: u32| before.contains(x)).remove(track_id));
                }
                true
            },
            None => {
                proof {
                    assert(self.ids().remove(track_id) =~= self.ids());
                }
                false
            },
        }
    }
}

/// Two requests for the same track that is not cached, with no completion
/// between them, start one fetch: the second joins the first.
pub proof fn lemma_requests_share_fetch(s: Set<u32>, track_id: u32)
    ensures
        request_result(after_request(s, track_id, false), track_id, false)
            != DownloadStart::Started,
        after_request(after_request(s, track_id, false), track_id, false) == after_request(
            s,
            track_id,
            false,
        ),
{
}

/// A fetch that was started signals its completion once: a second
/// completion of the same track finds nothing under way.
pub proof fn lemma_completion_once(s: Set<u32>, track_id: u32)
    ensures
        after_request(s, track_id, false).contains(track_id),
        !after_request(s, track_id, false).remove(track_id).contains(track_id),
{
}

} // verus!
