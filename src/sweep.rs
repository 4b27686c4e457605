//! The TTL sweep: which hop to probe next, the ordered results, and when the
//! sweep ends. Probing itself happens outside; each probe's classified
//! result is handed back here.

use vstd::prelude::*;
use crate::status::HopStatus;

verus! {

/// The TTL ceiling of a sweep unless the caller picks another.
pub const DEFAULT_MAX_HOPS: u32 = 64;

/// The result of probing one hop.
#[derive(Debug)]
pub struct HopResult {
    /// The TTL the probe was sent with.
    pub ttl: u32,
    /// Round-trip time from send to classified outcome, in microseconds.
    pub elapsed_us: u64,
    /// The classified status.
    pub status: HopStatus,
    /// Address of the node that answered, where the protocol can see it.
    pub responder: Option<String>,
}

impl HopResult {
    pub fn new(ttl: u32, elapsed_us: u64, status: HopStatus, responder: Option<String>) -> (r: HopResult)
        ensures
            r.ttl == ttl,
            r.elapsed_us == elapsed_us,
            r.status == status,
            r.responder == responder,
    {
        HopResult { ttl, elapsed_us, status, responder }
    }
}

/// Sequential sweep: one probe at a time, TTL 1, 2, ... until the
/// destination is reached or the ceiling is probed.
pub struct Sweep {
    max_hops: u32,
    results: Vec<HopResult>,
    done: bool,
}

/// Results numbered by TTL from 1, one per TTL, in order.
pub open spec fn in_ttl_order(rs: Seq<HopResult>) -> bool {
    forall|i: int| 0 <= i < rs.len() ==> #[trigger] rs[i].ttl == i + 1
}

/// No result but possibly the last one reached the destination.
pub open spec fn reached_only_last(rs: Seq<HopResult>) -> bool {
    forall|i: int| 0 <= i < rs.len() - 1 ==> #[trigger] rs[i].status != HopStatus::Reached
}

/// Whether a sweep with these results and this ceiling has ended.
pub open spec fn sweep_ended(rs: Seq<HopResult>, max_hops: int) -> bool {
    rs.len() > 0 && (rs.last().status == HopStatus::Reached || rs.len() == max_hops)
}

impl Sweep {
    pub closed spec fn max_hops_spec(&self) -> int {
        self.max_hops as int
    }

    pub closed spec fn results_spec(&self) -> Seq<HopResult> {
        self.results@
    }

    pub closed spec fn done_spec(&self) -> bool {
        self.done
    }

    pub open spec fn wf(&self) -> bool {
        &&& 1 <= self.max_hops_spec()
        &&& self.results_spec().len() <= self.max_hops_spec()
        &&& in_ttl_order(self.results_spec())
        &&& reached_only_last(self.results_spec())
        &&& self.done_spec() == sweep_ended(self.results_spec(), self.max_hops_spec())
    }

    /// A sweep that has probed nothing yet.
    pub fn new(max_hops: u32) -> (r: Sweep)
        requires
            max_hops >= 1,
        ensures
            r.wf(),
            r.max_hops_spec() == max_hops,
            r.results_spec().len() == 0,
            !r.done_spec(),
    {
        Sweep { max_hops, results: Vec::new(), done: false }
    }

    pub fn max_hops(&self) -> (r: u32)
        ensures
            r == self.max_hops_spec(),
    {
        self.max_hops
    }

    /// Whether the sweep has ended.
    pub fn is_done(&self) -> (r: bool)
        ensures
            r == self.done_spec(),
    {
        self.done
    }

    /// The results so far, in TTL order.
    pub fn results(&self) -> (r: &Vec<HopResult>)
        ensures
            r@ == self.results_spec(),
    {
        &self.results
    }

    /// The TTL of the next probe, or `None` once the sweep has ended.
    pub fn next_ttl(&self) -> (r: Option<u32>)
        requires
            self.wf(),
        ensures
            self.done_spec() ==> r.is_none(),
            !self.done_spec() ==> r == Some((self.results_spec().len() + 1) as u32),
    {
        if self.done {
            None
        } else {
            Some(self.results.len() as u32 + 1)
        }
    }

    /// Records the outcome of the probe for the next TTL, and ends the sweep
    /// when that probe reached the destination or was the last one allowed.
    /// Once the sweep has ended nothing changes.
    pub fn record(&mut self, elapsed_us: u64, status: HopStatus, responder: Option<String>)
        requires
            old(self).wf(),
        ensures
            final(self).wf(),
            final(self).max_hops_spec() == old(self).max_hops_spec(),
            old(self).done_spec() ==> final(self).results_spec() == old(self).results_spec()
                && final(self).done_spec(),
            !old(self).done_spec() ==> final(self).results_spec() == old(self).results_spec().push(
                HopResult {
                    ttl: (old(self).results_spec().len() + 1) as u32,
                    elapsed_us,
                    status,
                    responder,
                },
            ),
            !old(self).done_spec() ==> (final(self).done_spec() <==> (status == HopStatus::Reached
                || old(self).results_spec().len() + 1 == old(self).max_hops_spec())),
    {
        if self.done {
            return;
        }
        let ttl: u32 = self.results.len() as u32 + 1;
        self.results.push(HopResult { ttl, elapsed_us, status, responder });
        self.done = match status {
            HopStatus::Reached => true,
            _ => ttl == self.max_hops,
        };
        assert(self.results@.last().status == status);
    }
}

/// Each TTL from 1 up to the number of results has exactly one result, at
/// its place in the order, and there are no more results than the ceiling.
pub proof fn lemma_one_result_per_ttl(s: &Sweep, i: int)
    requires
        s.wf(),
        0 <= i < s.results_spec().len(),
    ensures
        s.results_spec()[i].ttl == i + 1,
        forall|j: int| 0 <= j < s.results_spec().len() && s.results_spec()[j].ttl == i + 1 ==> j == i,
        s.results_spec().len() <= s.max_hops_spec(),
{
}

/// A sweep ends exactly at the first result that reached the destination,
/// or at the ceiling if none did; until then it asks for the next TTL.
pub proof fn lemma_stops_at_first_reached(s: &Sweep)
    requires
        s.wf(),
    ensures
        s.done_spec() <==> (s.results_spec().len() > 0 && (s.results_spec().last().status
            == HopStatus::Reached || s.results_spec().len() == s.max_hops_spec())),
        forall|i: int| 0 <= i < s.results_spec().len() - 1
            ==> #[trigger] s.results_spec()[i].status != HopStatus::Reached,
        !s.done_spec() ==> s.results_spec().len() < s.max_hops_spec(),
{
}

/// The number of results of a sweep whose probes observe `st` in turn,
/// counting from the probe at index `from`: it runs up to and including
/// the first `Reached`, and never past the ceiling.
pub open spec fn stop_len(st: Seq<HopStatus>, max_hops: int, from: int) -> int
    decreases max_hops - from,
{
    if from >= max_hops {
        max_hops
    } else if st[from] == HopStatus::Reached {
        from + 1
    } else {
        stop_len(st, max_hops, from + 1)
    }
}

proof fn lemma_stop_len_past(st: Seq<HopStatus>, max_hops: int, from: int)
    requires
        0 <= from < max_hops <= st.len(),
    ensures
        stop_len(st, max_hops, from) >= from + 1,
    decreases max_hops - from,
{
    if st[from] != HopStatus::Reached {
        assert(stop_len(st, max_hops, from) == stop_len(st, max_hops, from + 1));
        if from + 1 < max_hops {
            lemma_stop_len_past(st, max_hops, from + 1);
        } else {
            assert(stop_len(st, max_hops, from + 1) == max_hops);
        }
    }
}

proof fn lemma_stop_len_from(st: Seq<HopStatus>, max_hops: int, from: int, n: int)
    requires
        0 <= from < n <= max_hops <= st.len(),
        forall|i: int| from <= i < n - 1 ==> st[i] != HopStatus::Reached,
    ensures
        stop_len(st, max_hops, from) >= n,
        stop_len(st, max_hops, from) == n <==> (st[n - 1] == HopStatus::Reached || n == max_hops),
    decreases n - from,
{
    if from < n - 1 {
        assert(st[from] != HopStatus::Reached);
        lemma_stop_len_from(st, max_hops, from + 1, n);
        assert(stop_len(st, max_hops, from) == stop_len(st, max_hops, from + 1));
    } else if st[from] != HopStatus::Reached {
        assert(stop_len(st, max_hops, from) == stop_len(st, max_hops, n));
        if n < max_hops {
            lemma_stop_len_past(st, max_hops, n);
        } else {
            assert(stop_len(st, max_hops, n) == max_hops);
        }
    }
}

/// Fed the statuses `st` one probe after another, a sweep has ended exactly
/// when it holds `stop_len(st, max_hops, 0)` results: the first `Reached`
/// ends it, or else the probe at the ceiling does; before that it never has
/// more results than that.
pub proof fn lemma_sweep_of_statuses(s: &Sweep, st: Seq<HopStatus>)
    requires
        s.wf(),
        st.len() >= s.max_hops_spec(),
        forall|i: int| 0 <= i < s.results_spec().len() ==> #[trigger] s.results_spec()[i].status == st[i],
    ensures
        s.results_spec().len() <= stop_len(st, s.max_hops_spec(), 0),
        s.done_spec() <==> s.results_spec().len() == stop_len(st, s.max_hops_spec(), 0),
{
    let n = s.results_spec().len() as int;
    let rs = s.results_spec();
    if n > 0 {
        assert forall|i: int| 0 <= i < n - 1 implies st[i] != HopStatus::Reached by {
            assert(rs[i].status == st[i]);
        }
        assert(rs.last().status == st[n - 1]);
        lemma_stop_len_from(st, s.max_hops_spec(), 0, n);
    } else {
        lemma_stop_len_past(st, s.max_hops_spec(), 0);
    }
}

/// Every TTL from 1 to `max_hops`, each once, ascending.
pub open spec fn all_ttls(max_hops: int) -> Seq<u32> {
    Seq::new(max_hops as nat, |i: int| (i + 1) as u32)
}

/// The TTLs a concurrent sweep launches a probe for, each exactly once.
pub fn ttls_to_launch(max_hops: u32) -> (r: Vec<u32>)
    ensures
        r@ == all_ttls(max_hops as int),
{
    let mut r: Vec<u32> = Vec::new();
    let mut ttl: u64 = 1;
    while ttl <= max_hops as u64
        invariant
            1 <= ttl <= max_hops + 1,
            r@ == all_ttls((ttl - 1) as int),
        decreases max_hops + 1 - ttl,
    {
        r.push(ttl as u32);
        assert(r@ =~= all_ttls(ttl as int));
        ttl = ttl + 1;
    }
    assert(r@ =~= all_ttls(max_hops as int));
    r
}

/// Concurrent sweep: every TTL's probe runs at once and completions arrive
/// in any order. A completion is reported if its TTL lies in `1..=max_hops`,
/// was not reported before, and no reported result has reached the
/// destination yet. A probe that timed out completes with `None` and is
/// dropped; probes still running after the destination was reached are
/// left to finish and their results discarded.
pub struct ConcurrentSweep {
    max_hops: u32,
    reported: Vec<HopResult>,
    reached: bool,
}

/// Whether some result in `rs` carries the TTL `ttl`.
pub open spec fn has_ttl(rs: Seq<HopResult>, ttl: u32) -> bool {
    exists|i: int| 0 <= i < rs.len() && #[trigger] rs[i].ttl == ttl
}

/// Whether a completion is to be reported after `rs`.
pub open spec fn accepts(rs: Seq<HopResult>, reached: bool, max_hops: int, c: Option<HopResult>) -> bool {
    match c {
        Some(h) => !reached && 1 <= h.ttl <= max_hops && !has_ttl(rs, h.ttl),
        None => false,
    }
}

impl ConcurrentSweep {
    pub closed spec fn max_hops_spec(&self) -> int {
        self.max_hops as int
    }

    pub closed spec fn reported_spec(&self) -> Seq<HopResult> {
        self.reported@
    }

    pub closed spec fn reached_spec(&self) -> bool {
        self.reached
    }

    pub open spec fn wf(&self) -> bool {
        let rs = self.reported_spec();
        &&& forall|i: int| 0 <= i < rs.len() ==> 1 <= #[trigger] rs[i].ttl <= self.max_hops_spec()
        &&& forall|i: int, j: int| 0 <= i < rs.len() && 0 <= j < rs.len() && rs[i].ttl == rs[j].ttl ==> i == j
        &&& reached_only_last(rs)
        &&& self.reached_spec() == (rs.len() > 0 && rs.last().status == HopStatus::Reached)
    }

    /// A sweep with nothing reported yet.
    pub fn new(max_hops: u32) -> (r: ConcurrentSweep)
        ensures
            r.wf(),
            r.max_hops_spec() == max_hops,
            r.reported_spec().len() == 0,
            !r.reached_spec(),
    {
        ConcurrentSweep { max_hops, reported: Vec::new(), reached: false }
    }

    /// Whether a reported result has reached the destination.
    pub fn is_reached(&self) -> (r: bool)
        ensures
            r == self.reached_spec(),
    {
        self.reached
    }

    /// The results reported so far, in arrival order.
    pub fn reported(&self) -> (r: &Vec<HopResult>)
        ensures
            r@ == self.reported_spec(),
    {
        &self.reported
    }

    /// Takes one probe's completion and says whether it is to be reported;
    /// a reported result is appended to the reported sequence.
    pub fn complete(&mut self, completion: Option<HopResult>) -> (r: bool)
        requires
            old(self).wf(),
        ensures
            final(self).wf(),
            final(self).max_hops_spec() == old(self).max_hops_spec(),
            r == accepts(old(self).reported_spec(), old(self).reached_spec(), old(self).max_hops_spec(), completion),
            r ==> final(self).reported_spec() == old(self).reported_spec().push(completion.unwrap()),
            !r ==> final(self).reported_spec() == old(self).reported_spec(),
    {
        match completion {
            None => false,
            Some(h) => {
                if self.reached || h.ttl < 1 || h.ttl > self.max_hops {
                    return false;
                }
                let mut i: usize = 0;
                while i < self.reported.len()
                    invariant
                        i <= self.reported@.len(),
                        self.wf(),
                        completion == Some(h),
                        self.reported@ == old(self).reported@,
                        self.reached == old(self).reached,
                        self.max_hops == old(self).max_hops,
                        !self.reached,
                        1 <= h.ttl <= self.max_hops,
                        forall|k: int| 0 <= k < i ==> #[trigger] self.reported@[k].ttl != h.ttl,
                    decreases self.reported@.len() - i,
                {
                    if self.reported[i].ttl == h.ttl {
                        assert(self.reported@[i as int].ttl == h.ttl);
                        return false;
                    }
                    i = i + 1;
                }
                assert(!has_ttl(self.reported@, h.ttl));
                let is_reached = match h.status {
                    HopStatus::Reached => true,
                    _ => false,
                };
                self.reported.push(h);
                self.reached = is_reached;
                let ghost rs = self.reported@;
                assert(rs.last().status == HopStatus::Reached <==> is_reached);
                assert(forall|k: int| 0 <= k < rs.len() - 1 ==> rs[k] == old(self).reported@[k]);
                true
            },
        }
    }
}

/// In a concurrent sweep each TTL is reported at most once, only TTLs up to
/// the ceiling are reported, and a result that reached the destination is
/// the last one reported.
pub proof fn lemma_each_ttl_reported_once(s: &ConcurrentSweep, i: int, j: int)
    requires
        s.wf(),
        0 <= i < s.reported_spec().len(),
        0 <= j < s.reported_spec().len(),
        s.reported_spec()[i].ttl == s.reported_spec()[j].ttl,
    ensures
        i == j,
        1 <= s.reported_spec()[i].ttl <= s.max_hops_spec(),
        s.reported_spec()[i].status == HopStatus::Reached ==> i == s.reported_spec().len() - 1,
{
}

} // verus!
