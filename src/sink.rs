use vstd::prelude::*;

verus! {

/// What the sink did with a decoded source.
#[derive(Debug, Clone, Copy, PartialEq, Eq, Structural)]
pub enum QueryTrackResult {
    Queued,
    RecreateStreamRequired,
}

/// The sink as plain values.
pub struct SinkModel {
    /// The sample rate of the open output stream, if one is open.
    pub stream_rate: Option<u32>,
    /// Durations in milliseconds of the sources queued and not yet finished,
    /// the one that plays first.
    pub pending: Seq<u64>,
    /// Milliseconds of the sources that finished on this stream.
    pub played: nat,
    /// How many times the track-finished signal has fired.
    pub finished: nat,
}

pub open spec fn sink_wf(s: SinkModel) -> bool {
    s.stream_rate is None ==> s.pending.len() == 0 && s.played == 0
}

pub open spec fn sink_empty(s: SinkModel) -> bool {
    s.stream_rate is None
}

/// The result of handing the sink a source of `rate` lasting `duration`.
pub open spec fn query_result(s: SinkModel, rate: u32) -> QueryTrackResult {
    match s.stream_rate {
        Some(r) if r != rate => QueryTrackResult::RecreateStreamRequired,
        _ => QueryTrackResult::Queued,
    }
}

/// The sink after it was handed a source of `rate` lasting `duration`.
pub open spec fn after_query(s: SinkModel, rate: u32, duration: u64) -> SinkModel {
    match query_result(s, rate) {
        QueryTrackResult::RecreateStreamRequired => s,
        QueryTrackResult::Queued => SinkModel {
            stream_rate: Some(rate),
            pending: s.pending.push(duration),
            ..s
        },
    }
}

/// The sink after the source that plays has finished.
pub open spec fn after_finish(s: SinkModel) -> SinkModel {
    SinkModel {
        pending: s.pending.drop_first(),
        played: (s.played + s.pending[0]) as nat,
        finished: s.finished + 1,
        ..s
    }
}

/// The position within the source that plays, given the running position
/// that the output reports across its whole queue.
pub open spec fn sink_position(s: SinkModel, reported: u64) -> nat {
    if s.stream_rate is None || reported < s.played {
        0
    } else {
        (reported - s.played) as nat
    }
}

/// The sink after `clear`.
pub open spec fn after_clear(s: SinkModel) -> SinkModel {
    SinkModel { stream_rate: None, pending: Seq::empty(), played: 0, ..s }
}

/// Accounting of the audio output: which stream is open, which sources wait
/// in its queue, and how much of the queue has finished. The output itself is
/// driven by the caller, which mirrors every change made here.
pub struct Sink {
    stream_rate: Option<u32>,
    pending: Vec<u64>,
    played: u64,
    finished: u64,
}

impl View for Sink {
    type V = SinkModel;

    closed spec fn view(&self) -> SinkModel {
        SinkModel {
            stream_rate: self.stream_rate,
            pending: self.pending@,
            played: self.played as nat,
            finished: self.finished as nat,
        }
    }
}

impl Sink {
    pub open spec fn wf(&self) -> bool {
        sink_wf(self@)
    }

    pub fn new() -> (r: Self)
        ensures
            r.wf(),
            r@ == (SinkModel { stream_rate: None, pending: Seq::empty(), played: 0, finished: 0 }),
    {
        Sink { stream_rate: None, pending: Vec::new(), played: 0, finished: 0 }
    }

    /// No output stream is open.
    pub fn is_empty(&self) -> (r: bool)
        ensures
            r == sink_empty(self@),
    {
        self.stream_rate.is_none()
    }

    /// The sample rate of the open stream.
    pub fn stream_rate(&self) -> (r: Option<u32>)
        ensures
            r == self@.stream_rate,
    {
        self.stream_rate
    }

    /// How many sources wait in the queue, the one that plays included.
    pub fn pending(&self) -> (r: usize)
        ensures
            r == self@.pending.len(),
    {
        self.pending.len()
    }

    /// How many times the track-finished signal has fired.
    pub fn finished(&self) -> (r: u64)
        ensures
            r == self@.finished,
    {
        self.finished
    }

    /// Hands the sink a decoded source of sample rate `rate` that lasts
    /// `duration` milliseconds. With no stream open, or one at the same rate,
    /// the source is queued (a stream at `rate` is opened first if none is);
    /// at another rate nothing is queued and the stream must be recreated.
    pub fn query_track(&mut self, rate: u32, duration: u64) -> (r: QueryTrackResult)
        requires
            old(self).wf(),
            old(self)@.pending.len() < usize::MAX,
        ensures
            final(self).wf(),
            r == query_result(old(self)@, rate),
            final(self)@ == after_query(old(self)@, rate, duration),
    {
        match self.stream_rate {
            Some(current) => {
                if current != rate {
                    return QueryTrackResult::RecreateStreamRequired;
                }
            },
            None => {
                self.stream_rate = Some(rate);
            },
        }
        self.pending.push(duration);
        QueryTrackResult::Queued
    }

    /// Whether a source of sample rate `rate` would be queued.
    pub fn would_queue(&self, rate: u32) -> (r: bool)
        ensures
            r == (query_result(self@, rate) == QueryTrackResult::Queued),
    {
        match self.stream_rate {
            Some(current) => current == rate,
            None => true,
        }
    }

    /// Whether `source_finished` may be called: a source is queued and the
    /// counters have room for it.
    pub fn can_finish(&self) -> (r: bool)
        ensures
            r == (self@.pending.len() > 0 && self@.played + self@.pending[0] <= u64::MAX
                && self@.finished < u64::MAX),
    {
        self.pending.len() > 0 && self.played <= u64::MAX - self.pending[0] && self.finished
            < u64::MAX
    }

    /// The source that plays has finished: its duration joins the finished
    /// total and the track-finished signal fires once.
    pub fn source_finished(&mut self)
        requires
            old(self).wf(),
            old(self)@.pending.len() > 0,
            old(self)@.played + old(self)@.pending[0] <= u64::MAX,
            old(self)@.finished < u64::MAX,
        ensures
            final(self).wf(),
            final(self)@ == after_finish(old(self)@),
    {
        let d = self.pending.remove(0);
        self.played = self.played + d;
        self.finished = self.finished + 1;
    }

    /// The position within the source that plays, from the running position
    /// that the output reports; never below zero.
    pub fn position(&self, reported: u64) -> (r: u64)
        ensures
            r == sink_position(self@, reported),
    {
        if self.stream_rate.is_none() || reported < self.played {
            0
        } else {
            reported - self.played
        }
    }

    /// The output has seeked within the source that plays: the running
    /// position starts again from there.
    pub fn seek(&mut self)
        ensures
            final(self)@ == (if old(self)@.stream_rate is Some {
                SinkModel { played: 0, ..old(self)@ }
            } else {
                old(self)@
            }),
            old(self).wf() ==> final(self).wf(),
    {
        if self.stream_rate.is_some() {
            self.played = 0;
        }
    }

    /// Drops the stream and every queued source.
    pub fn clear(&mut self)
        ensures
            final(self).wf(),
            final(self)@ == after_clear(old(self)@),
    {
        self.stream_rate = None;
        self.pending = Vec::new();
        self.played = 0;
    }

    /// Keeps the stream and the source that plays, drops the sources queued
    /// after it.
    pub fn clear_queue(&mut self)
        requires
            old(self).wf(),
        ensures
            final(self).wf(),
            final(self)@ == (SinkModel {
                pending: old(self)@.pending.take(
                    if old(self)@.pending.len() > 0 {
                        1
                    } else {
                        0
                    },
                ),
                played: 0,
                ..old(self)@
            }),
    {
        self.played = 0;
        while self.pending.len() > 1
            invariant
                self.stream_rate == old(self).stream_rate,
                self.finished == old(self).finished,
                self.played == 0,
                self.pending@.len() >= 1 ==> self.pending@[0] == old(self).pending@[0],
                self.pending@.len() >= 1 <==> old(self).pending@.len() >= 1,
                self.pending@.len() <= old(self).pending@.len(),
            decreases self.pending@.len(),
        {
            self.pending.pop();
        }
        proof {
            if old(self).pending@.len() > 0 {
                assert(self.pending@ =~= old(self).pending@.take(1));
            } else {
                assert(self.pending@ =~= old(self).pending@.take(0));
            }
        }
    }
}

/// After `clear` the sink is empty and reports position zero.
pub proof fn lemma_clear_empties(s: SinkModel, reported: u64)
    ensures
        sink_empty(after_clear(s)),
        sink_position(after_clear(s), reported) == 0,
{
}

/// A source handed to an empty sink is queued; when it finishes the signal
/// fires exactly once and the source's duration is counted as played.
pub proof fn lemma_finish_fires_once(s: SinkModel, rate: u32, duration: u64)
    requires
        sink_wf(s),
        sink_empty(s),
    ensures
        query_result(s, rate) == QueryTrackResult::Queued,
        after_query(s, rate, duration).pending == seq![duration],
        after_finish(after_query(s, rate, duration)).finished == s.finished + 1,
        after_finish(after_query(s, rate, duration)).pending.len() == 0,
        after_finish(after_query(s, rate, duration)).played == duration,
{
    assert(s.pending.push(duration) =~= seq![duration]);
}

/// Between two signals the position never goes back while the reported
/// running position goes forward.
pub proof fn lemma_position_monotone(s: SinkModel, earlier: u64, later: u64)
    requires
        earlier <= later,
    ensures
        sink_position(s, earlier) <= sink_position(s, later),
{
}

/// A source at another sample rate than the one queued before it is not
/// queued: the stream must be recreated and nothing changes.
pub proof fn lemma_rate_change_needs_new_stream(
    s: SinkModel,
    first: u32,
    first_duration: u64,
    second: u32,
    second_duration: u64,
)
    requires
        sink_wf(s),
        query_result(s, first) == QueryTrackResult::Queued,
        first != second,
    ensures
        query_result(after_query(s, first, first_duration), second)
            == QueryTrackResult::RecreateStreamRequired,
        after_query(after_query(s, first, first_duration), second, second_duration)
            == after_query(s, first, first_duration),
{
}

} // verus!
