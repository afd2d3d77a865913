use vstd::prelude::*;
use crate::response::ParseError;

verus! {

/// Why a download stopped before completion.
#[derive(Clone, Copy, PartialEq, Eq, Debug)]
pub enum DownloadError {
    /// The status line was not the success code of the current phase.
    ProtocolStatus,
    /// The response could not be read.
    Parse(ParseError),
    /// Transport failures used up every attempt for one request.
    RetriesExhausted,
    /// Short bodies used up every attempt for one range.
    IncompleteChunk,
}

/// Where a download stands.
#[derive(Clone, Copy, PartialEq, Eq, Debug)]
pub enum Phase {
    /// The resource size is not known yet.
    Uninitialized,
    /// The size is known and bytes remain to be fetched.
    Downloading,
    /// Every byte has been written.
    Complete,
    /// A fatal error ended the download.
    Failed(DownloadError),
}

/// Which delay to wait before asking again.
#[derive(Clone, Copy, PartialEq, Eq, Debug)]
pub enum Backoff {
    /// After a transport failure: the configured timeout.
    Timeout,
    /// After a short body: a fixed short pause.
    Short,
}

/// What the caller does after an event.
#[derive(Clone, Copy, PartialEq, Eq, Debug)]
pub enum Step {
    /// The size is known: send the next request.
    Ready,
    /// Write bytes `from..to` of the raw response to the sink, then send the next request.
    Append { from: usize, to: usize },
    /// Wait, then send the same request again.
    Retry(Backoff),
    /// Stop: the download failed.
    Fail(DownloadError),
}

/// The mutable state of one download: progress, the size found, and the retry policy.
#[derive(Clone, Copy, PartialEq, Eq, Debug)]
pub struct Session {
    pub phase: Phase,
    pub total_size: Option<usize>,
    /// Bytes written to the sink so far.
    pub written: usize,
    /// Span of the next range request.
    pub chunk_size: usize,
    /// The span below which the chunk size never shrinks.
    pub min_chunk: usize,
    /// Attempts allowed for one request.
    pub retries: usize,
    /// Attempts used for the current request.
    pub attempts: usize,
}

/// Halving with a floor: the next span after a short body.
pub open spec fn shrink(c: nat, floor: nat) -> nat {
    if c / 2 < floor { floor } else { c / 2 }
}

/// `k` successive shrinks.
pub open spec fn shrink_n(c: nat, floor: nat, k: nat) -> nat
    decreases k,
{
    if k == 0 { c } else { shrink_n(shrink(c, floor), floor, (k - 1) as nat) }
}

/// The end (exclusive) of the range that follows `start`.
pub open spec fn range_end(start: nat, chunk: nat, total: nat) -> nat {
    if start + chunk < total { start + chunk } else { total }
}

/// The ranges `[start, end)` that cover `start..total` in spans of `chunk`.
pub open spec fn chunk_ranges(start: nat, chunk: nat, total: nat) -> Seq<(nat, nat)>
    decreases total - start,
{
    if start >= total || chunk == 0 {
        Seq::empty()
    } else {
        seq![(start, range_end(start, chunk, total))]
            + chunk_ranges(range_end(start, chunk, total), chunk, total)
    }
}

/// The summed lengths of a list of ranges.
pub open spec fn covered(rs: Seq<(nat, nat)>) -> int
    decreases rs.len(),
{
    if rs.len() == 0 { 0 } else { (rs[0].1 - rs[0].0) + covered(rs.drop_first()) }
}

impl Session {
    /// The session's invariant.
    pub open spec fn wf(self) -> bool {
        &&& 1 <= self.min_chunk <= self.chunk_size
        &&& self.retries >= 1
        &&& self.attempts < self.retries
        &&& match self.phase {
            Phase::Uninitialized => self.total_size is None && self.written == 0,
            Phase::Downloading => self.total_size matches Some(t) && self.written < t,
            Phase::Complete => self.total_size matches Some(t) && self.written == t,
            Phase::Failed(_) => self.total_size matches Some(t) ==> self.written <= t,
        }
    }

    /// Requests are still to be sent.
    pub open spec fn active(self) -> bool {
        self.phase is Uninitialized || self.phase is Downloading
    }

    /// The end (exclusive) of the range that the next request asks for.
    pub open spec fn next_end(self) -> nat {
        range_end(self.written as nat, self.chunk_size as nat, self.total_size->0 as nat)
    }

    /// The state after a fatal error.
    pub open spec fn failed_spec(self, e: DownloadError) -> Session {
        Session { phase: Phase::Failed(e), ..self }
    }

    /// The state and step after a transport failure.
    pub open spec fn failure_spec(self) -> (Session, Step) {
        if self.attempts + 1 >= self.retries {
            (Session { phase: Phase::Failed(DownloadError::RetriesExhausted), ..self },
                Step::Fail(DownloadError::RetriesExhausted))
        } else {
            (Session { attempts: (self.attempts + 1) as usize, ..self }, Step::Retry(Backoff::Timeout))
        }
    }

    /// The state after size discovery found `n` bytes.
    pub open spec fn discovery_spec(self, n: usize) -> Session {
        Session {
            phase: if n == 0 { Phase::Complete } else { Phase::Downloading },
            total_size: Some(n),
            written: 0,
            chunk_size: if self.chunk_size > n { shrink(n as nat, self.min_chunk as nat) as usize } else { self.chunk_size },
            attempts: 0,
            ..self
        }
    }

    /// The state and step after a range response with status 206 whose body is the
    /// `got` bytes at `body_start` of the raw response.
    pub open spec fn chunk_spec(self, body_start: usize, got: usize) -> (Session, Step) {
        let t = self.total_size->0;
        let end = self.next_end();
        let want = end - self.written;
        if got >= want {
            (Session {
                phase: if end == t { Phase::Complete } else { Phase::Downloading },
                written: end as usize,
                attempts: 0,
                ..self
            }, Step::Append { from: body_start, to: (body_start + want) as usize })
        } else if end == t && got > 0 {
            (Session { written: (self.written + got) as usize, attempts: 0, ..self },
                Step::Append { from: body_start, to: (body_start + got) as usize })
        } else {
            let c = shrink(self.chunk_size as nat, self.min_chunk as nat) as usize;
            if self.attempts + 1 >= self.retries {
                (Session { phase: Phase::Failed(DownloadError::IncompleteChunk), chunk_size: c, ..self },
                    Step::Fail(DownloadError::IncompleteChunk))
            } else {
                (Session { attempts: (self.attempts + 1) as usize, chunk_size: c, ..self },
                    Step::Retry(Backoff::Short))
            }
        }
    }

    /// A fresh session; the chunk size is raised to the floor when it is below it.
    pub fn new(chunk_size: usize, min_chunk: usize, retries: usize) -> (r: Session)
        requires
            min_chunk >= 1,
            retries >= 1,
        ensures
            r.wf(),
            r == (Session {
                phase: Phase::Uninitialized,
                total_size: None,
                written: 0,
                chunk_size: if chunk_size < min_chunk { min_chunk } else { chunk_size },
                min_chunk,
                retries,
                attempts: 0,
            }),
    {
        Session {
            phase: Phase::Uninitialized,
            total_size: None,
            written: 0,
            chunk_size: if chunk_size < min_chunk { min_chunk } else { chunk_size },
            min_chunk,
            retries,
            attempts: 0,
        }
    }

    /// The next span after a short body: half of `c`, but not below `floor`.
    pub fn shrink_chunk(c: usize, floor: usize) -> (r: usize)
        ensures
            r == shrink(c as nat, floor as nat),
    {
        if c / 2 < floor { floor } else { c / 2 }
    }

    /// The end (exclusive) of the range that the next request asks for.
    pub fn range_end(&self) -> (r: usize)
        requires
            self.wf(),
            self.phase is Downloading,
        ensures
            r == self.next_end(),
            self.written < r <= self.total_size->0,
    {
        let t = match self.total_size { Some(t) => t, None => 0 };
        if self.chunk_size < t - self.written { self.written + self.chunk_size } else { t }
    }

    /// Ends the download with a fatal error.
    pub fn record_fatal(self, e: DownloadError) -> (r: Session)
        requires
            self.wf(),
        ensures
            r == self.failed_spec(e),
            r.wf(),
    {
        Session { phase: Phase::Failed(e), ..self }
    }

    /// Counts a transport failure: retry after the timeout, or fail once no attempt is left.
    pub fn record_failure(self) -> (r: (Session, Step))
        requires
            self.wf(),
            self.active(),
        ensures
            r == self.failure_spec(),
            r.0.wf(),
    {
        if self.attempts + 1 >= self.retries {
            (Session { phase: Phase::Failed(DownloadError::RetriesExhausted), ..self },
                Step::Fail(DownloadError::RetriesExhausted))
        } else {
            (Session { attempts: self.attempts + 1, ..self }, Step::Retry(Backoff::Timeout))
        }
    }

    /// Records the size found by discovery; shrinks a chunk size larger than the resource.
    pub fn record_discovery(self, n: usize) -> (r: Session)
        requires
            self.wf(),
            self.phase is Uninitialized,
        ensures
            r == self.discovery_spec(n),
            r.wf(),
    {
        let c = if self.chunk_size > n { Self::shrink_chunk(n, self.min_chunk) } else { self.chunk_size };
        Session {
            phase: if n == 0 { Phase::Complete } else { Phase::Downloading },
            total_size: Some(n),
            written: 0,
            chunk_size: c,
            attempts: 0,
            ..self
        }
    }

    /// Decides on a range response with status 206 and a body of `got` bytes at
    /// `body_start`: take the range (or, for the resource's final range, what came), or
    /// shrink the span and retry, or fail once no attempt is left.
    pub fn record_chunk(self, body_start: usize, got: usize) -> (r: (Session, Step))
        requires
            self.wf(),
            self.phase is Downloading,
            body_start + got <= usize::MAX,
        ensures
            r == self.chunk_spec(body_start, got),
            r.0.wf(),
    {
        let t = match self.total_size { Some(t) => t, None => 0 };
        let end = self.range_end();
        let want = end - self.written;
        if got >= want {
            (Session {
                phase: if end == t { Phase::Complete } else { Phase::Downloading },
                written: end,
                attempts: 0,
                ..self
            }, Step::Append { from: body_start, to: body_start + want })
        } else if end == t && got > 0 {
            (Session { written: self.written + got, attempts: 0, ..self },
                Step::Append { from: body_start, to: body_start + got })
        } else {
            let c = Self::shrink_chunk(self.chunk_size, self.min_chunk);
            if self.attempts + 1 >= self.retries {
                (Session { phase: Phase::Failed(DownloadError::IncompleteChunk), chunk_size: c, ..self },
                    Step::Fail(DownloadError::IncompleteChunk))
            } else {
                (Session { attempts: self.attempts + 1, chunk_size: c, ..self },
                    Step::Retry(Backoff::Short))
            }
        }
    }
}

/// The state after `k` transport failures in a row, stopping at the first fatal one.
pub open spec fn after_failures(s: Session, k: nat) -> Session
    decreases k,
{
    if k == 0 || !s.active() {
        s
    } else {
        after_failures(s.failure_spec().0, (k - 1) as nat)
    }
}

/// Fixed-size ranges cover `start..total` exactly: each range is non-empty and at most
/// `chunk` long, the first starts at `start`, each starts where the one before ended, the
/// last ends at `total`, and their lengths add up to `total - start`.
pub proof fn lemma_ranges_partition(start: nat, chunk: nat, total: nat)
    requires
        chunk >= 1,
        start <= total,
    ensures
        covered(chunk_ranges(start, chunk, total)) == total - start,
        chunk_ranges(start, chunk, total).len() > 0 ==> chunk_ranges(start, chunk, total)[0].0 == start
            && chunk_ranges(start, chunk, total).last().1 == total,
        chunk_ranges(start, chunk, total).len() == 0 <==> start == total,
        forall|i: int| 0 <= i < chunk_ranges(start, chunk, total).len() ==>
            #[trigger] chunk_ranges(start, chunk, total)[i].0 < chunk_ranges(start, chunk, total)[i].1
            && chunk_ranges(start, chunk, total)[i].1 <= chunk_ranges(start, chunk, total)[i].0 + chunk,
        forall|i: int| 0 <= i < chunk_ranges(start, chunk, total).len() - 1 ==>
            #[trigger] chunk_ranges(start, chunk, total)[i].1 == chunk_ranges(start, chunk, total)[i + 1].0,
    decreases total - start,
{
    let rs = chunk_ranges(start, chunk, total);
    if start < total {
        let e = range_end(start, chunk, total);
        lemma_ranges_partition(e, chunk, total);
        let tail = chunk_ranges(e, chunk, total);
        assert(rs == seq![(start, e)] + tail);
        assert(rs.drop_first() =~= tail);
        assert forall|i: int| 0 <= i < rs.len() implies #[trigger] rs[i].0 < rs[i].1 && rs[i].1 <= rs[i].0 + chunk by {
            if i > 0 {
                assert(rs[i] == tail[i - 1]);
            }
        }
        assert forall|i: int| 0 <= i < rs.len() - 1 implies #[trigger] rs[i].1 == rs[i + 1].0 by {
            if i > 0 {
                assert(rs[i] == tail[i - 1]);
                assert(rs[i + 1] == tail[i]);
            }
        }
        if tail.len() > 0 {
            assert(rs.last() == tail.last());
        }
    }
}

/// A range response that brings the whole range appends exactly that range, and the
/// ranges still to come are the rest of the plan.
pub proof fn lemma_full_chunk_follows_plan(s: Session, body_start: usize, got: usize)
    requires
        s.wf(),
        s.phase is Downloading,
        body_start + got <= usize::MAX,
        got >= s.next_end() - s.written,
    ensures
        ({
            let (n, step) = s.chunk_spec(body_start, got);
            let t = s.total_size->0 as nat;
            &&& chunk_ranges(s.written as nat, s.chunk_size as nat, t)
                == seq![(s.written as nat, n.written as nat)] + chunk_ranges(n.written as nat, n.chunk_size as nat, t)
            &&& step == Step::Append { from: body_start, to: (body_start + (n.written - s.written)) as usize }
            &&& n.wf()
        }),
{
}

/// The count of written bytes never goes down, and it grows by exactly the bytes that a
/// range response hands to the sink: by `to - from` on an append, and not at all otherwise.
pub proof fn lemma_written_tracks_appends(s: Session, body_start: usize, got: usize)
    requires
        s.wf(),
        s.phase is Downloading,
        body_start + got <= usize::MAX,
    ensures
        ({
            let (n, step) = s.chunk_spec(body_start, got);
            &&& n.written >= s.written
            &&& step matches Step::Append { from, to } ==> n.written - s.written == to - from
                && from == body_start && to <= body_start + got
            &&& !(step is Append) ==> n.written == s.written
        }),
        s.failure_spec().0.written == s.written,
{
}

/// The state after a range response that brings its whole range.
pub open spec fn full_chunk(s: Session) -> Session {
    s.chunk_spec(0, (s.next_end() - s.written) as usize).0
}

/// The state after `k` range responses in a row that each bring their whole range.
pub open spec fn after_full_chunks(s: Session, k: nat) -> Session
    decreases k,
{
    if k == 0 || !(s.phase is Downloading) {
        s
    } else {
        after_full_chunks(full_chunk(s), (k - 1) as nat)
    }
}

/// When every range response brings its whole range, the download asks for the planned
/// ranges one after another, each starting where the bytes written so far end, and after
/// the last one it is complete with exactly the resource's size written.
pub proof fn lemma_full_chunks_complete(s: Session)
    requires
        s.wf(),
        s.phase is Downloading,
    ensures
        ({
            let rs = chunk_ranges(s.written as nat, s.chunk_size as nat, s.total_size->0 as nat);
            &&& forall|i: int| 0 <= i < rs.len() ==> after_full_chunks(s, i as nat).written == (#[trigger] rs[i]).0
                && after_full_chunks(s, i as nat).next_end() == rs[i].1
            &&& after_full_chunks(s, rs.len()).phase is Complete
            &&& after_full_chunks(s, rs.len()).written == s.total_size->0
        }),
    decreases s.total_size->0 - s.written,
{
    let t = s.total_size->0 as nat;
    let rs = chunk_ranges(s.written as nat, s.chunk_size as nat, t);
    let want = (s.next_end() - s.written) as usize;
    let n = full_chunk(s);
    lemma_full_chunk_follows_plan(s, 0, want);
    let rest = chunk_ranges(n.written as nat, n.chunk_size as nat, t);
    assert(rs == seq![(s.written as nat, n.written as nat)] + rest);
    assert(after_full_chunks(s, 0) == s);
    assert(n.written == s.next_end());
    assert(rs[0] == (s.written as nat, n.written as nat));
    if n.phase is Complete {
        lemma_ranges_partition(n.written as nat, n.chunk_size as nat, t);
        assert(rs.len() == 1);
        assert(after_full_chunks(n, 0) == n);
        assert(after_full_chunks(s, 1) == n);
        assert(n.written == t);
        assert forall|i: int| 0 <= i < rs.len() implies after_full_chunks(s, i as nat).written == (#[trigger] rs[i]).0
            && after_full_chunks(s, i as nat).next_end() == rs[i].1 by {
            assert(i == 0);
        }
    } else {
        lemma_full_chunks_complete(n);
        assert forall|i: int| 0 <= i < rs.len() implies after_full_chunks(s, i as nat).written == (#[trigger] rs[i]).0
            && after_full_chunks(s, i as nat).next_end() == rs[i].1 by {
            if i > 0 {
                assert(after_full_chunks(s, i as nat) == after_full_chunks(n, (i - 1) as nat));
                assert(rs[i] == rest[i - 1]);
            }
        }
        assert(after_full_chunks(s, rs.len()) == after_full_chunks(n, rest.len()));
        assert(n.total_size == s.total_size);
    }
}

/// Shrinking never goes below the floor nor above the current span; it halves a span of
/// at least twice the floor, reduces any span above the floor, and leaves the floor as it is.
pub proof fn lemma_shrink_bounds(c: nat, floor: nat)
    requires
        1 <= floor <= c,
    ensures
        floor <= shrink(c, floor) <= c,
        c >= 2 * floor ==> shrink(c, floor) == c / 2,
        c > floor ==> shrink(c, floor) < c,
        shrink(floor, floor) == floor,
{
}

/// Repeated short bodies bring the span down to the floor, where it stays.
pub proof fn lemma_shrinks_reach_floor(c: nat, floor: nat, k: nat)
    requires
        1 <= floor <= c,
        k >= c - floor,
    ensures
        shrink_n(c, floor, k) == floor,
    decreases k,
{
    if k > 0 {
        lemma_shrink_bounds(c, floor);
        lemma_shrinks_reach_floor(shrink(c, floor), floor, (k - 1) as nat);
    }
}

/// A short body for a range that is not the resource's last, with an attempt left, halves
/// the span once (down to the floor) and asks again, after a short pause, for a range that
/// starts at the same place and ends no later.
pub proof fn lemma_short_chunk_retries_smaller(s: Session, body_start: usize, got: usize)
    requires
        s.wf(),
        s.phase is Downloading,
        body_start + got <= usize::MAX,
        got < s.next_end() - s.written,
        s.next_end() < s.total_size->0,
        s.attempts + 1 < s.retries,
    ensures
        ({
            let (n, step) = s.chunk_spec(body_start, got);
            &&& step == Step::Retry(Backoff::Short)
            &&& n.phase is Downloading
            &&& n.chunk_size == shrink(s.chunk_size as nat, s.min_chunk as nat)
            &&& n.written == s.written
            &&& n.attempts == s.attempts + 1
            &&& n.next_end() <= s.next_end()
            &&& s.chunk_size > s.min_chunk ==> n.next_end() < s.next_end()
        }),
{
    lemma_shrink_bounds(s.chunk_size as nat, s.min_chunk as nat);
}

/// From a fresh attempt count, each of the first `retries - 1` transport failures in a row
/// asks for the same request again; failure number `retries` ends the download with
/// `RetriesExhausted`, after which no request is due.
pub proof fn lemma_failures_exhaust_retries(s: Session, k: nat)
    requires
        s.wf(),
        s.active(),
        s.attempts == 0,
        k <= s.retries,
    ensures
        k < s.retries ==> after_failures(s, k) == (Session { attempts: k as usize, ..s }),
        k < s.retries - 1 ==> after_failures(s, k).failure_spec().1 == Step::Retry(Backoff::Timeout),
        k == s.retries ==> after_failures(s, k) == (Session { phase: Phase::Failed(DownloadError::RetriesExhausted), attempts: (s.retries - 1) as usize, ..s }),
        k == s.retries ==> !after_failures(s, k).active(),
    decreases k,
{
    if k > 0 {
        lemma_failures_exhaust_retries(s, (k - 1) as nat);
        lemma_after_failures_last(s, k);
    }
}

proof fn lemma_after_failures_last(s: Session, k: nat)
    requires
        k > 0,
        after_failures(s, (k - 1) as nat).active(),
    ensures
        after_failures(s, k) == after_failures(s, (k - 1) as nat).failure_spec().0,
    decreases k,
{
    if k > 1 {
        if s.active() {
            let s1 = s.failure_spec().0;
            assert(after_failures(s, (k - 1) as nat) == after_failures(s1, (k - 2) as nat));
            assert(after_failures(s, k) == after_failures(s1, (k - 1) as nat));
            lemma_after_failures_last(s1, (k - 1) as nat);
        } else {
            assert(after_failures(s, (k - 1) as nat) == s);
        }
    } else {
        assert(after_failures(s, 0) == s);
        assert(after_failures(s.failure_spec().0, 0) == s.failure_spec().0);
    }
}

} // verus!
