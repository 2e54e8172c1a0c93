//! The closed-loop client: one request at a time, the next only after the
//! response to the last.
//!
//! A worker thread owns one [`ClosedLoopWorker`]. Before each request it asks
//! [`ClosedLoopWorker::next_request`] with the time that has passed; it
//! sends what it gets, waits for the response, and hands it to
//! [`ClosedLoopWorker::on_response`]. The run time is looked at only between
//! requests: a request that is under way when it runs out is completed.

use crate::app::Work;
use crate::serialize::{latency_spec, ClientWorkPacket, LatencyRecord, ServerWorkPacket};
use vstd::prelude::*;

verus! {

/// The state of one closed-loop worker.
pub struct ClosedLoopWorker {
    next_id: u64,
    latencies: Vec<LatencyRecord>,
}

/// What a worker has done so far.
pub struct WorkerView {
    /// The id that the next request will carry: the number of requests made.
    pub next_id: u64,
    /// The samples collected, in the order of their responses.
    pub latencies: Seq<LatencyRecord>,
}

impl View for ClosedLoopWorker {
    type V = WorkerView;

    closed spec fn view(&self) -> WorkerView {
        WorkerView { next_id: self.next_id, latencies: self.latencies@ }
    }
}

/// Whether a worker that has run for `elapsed_us` of a run of `runtime_us`
/// and has made `made` requests makes another.
pub open spec fn sends_another(elapsed_us: u64, runtime_us: u64, made: u64) -> bool {
    elapsed_us < runtime_us && made < u64::MAX
}

/// The samples after a response has come in at `receive_time`.
pub open spec fn with_sample(
    latencies: Seq<LatencyRecord>,
    response: crate::serialize::ResponseView,
    receive_time: u64,
) -> Seq<LatencyRecord> {
    match latency_spec(response, receive_time) {
        Some(sample) => latencies.push(sample),
        None => latencies,
    }
}

impl ClosedLoopWorker {
    /// A worker that has made no request.
    pub fn new() -> (worker: ClosedLoopWorker)
        ensures
            worker@ == (WorkerView { next_id: 0, latencies: Seq::empty() }),
    {
        ClosedLoopWorker { next_id: 0, latencies: Vec::new() }
    }

    /// The next request, unless the run time is used up.
    ///
    /// The request carries the number of requests made before it as its id
    /// and the work given. The samples are not touched.
    pub fn next_request(&mut self, elapsed_us: u64, runtime_us: u64, work: Work) -> (request:
        Option<ClientWorkPacket>)
        ensures
            request is Some <==> sends_another(elapsed_us, runtime_us, old(self)@.next_id),
            request matches Some(packet) ==> packet@.id == old(self)@.next_id && packet@.work
                == work && final(self)@.next_id == old(self)@.next_id + 1,
            request is None ==> final(self)@.next_id == old(self)@.next_id,
            final(self)@.latencies == old(self)@.latencies,
    {
        if elapsed_us < runtime_us && self.next_id < u64::MAX {
            let packet = ClientWorkPacket::new(self.next_id, work);
            self.next_id = self.next_id + 1;
            Some(packet)
        } else {
            None
        }
    }

    /// Takes in the response received at `receive_time`: its latency
    /// sample, if it gives one, is kept after those already there.
    pub fn on_response(&mut self, response: &ServerWorkPacket, receive_time: u64)
        ensures
            final(self)@.next_id == old(self)@.next_id,
            final(self)@.latencies == with_sample(old(self)@.latencies, response@, receive_time),
    {
        match response.calculate_latency(receive_time) {
            Some(sample) => {
                self.latencies.push(sample);
            },
            None => {},
        }
    }

    /// How many samples have been collected.
    pub fn sample_count(&self) -> (n: usize)
        ensures
            n == self@.latencies.len(),
    {
        self.latencies.len()
    }

    /// The samples collected, in the order of their responses.
    pub fn into_latencies(self) -> (latencies: Vec<LatencyRecord>)
        ensures
            latencies@ == self@.latencies,
    {
        self.latencies
    }
}

/// A run of no time makes no request, however little time has passed, and
/// so collects no sample and waits for no response.
pub proof fn lemma_zero_runtime_sends_nothing(elapsed_us: u64, made: u64)
    ensures
        !sends_another(elapsed_us, 0, made),
{
}

/// Every response adds at most one sample, and never takes one away.
pub proof fn lemma_one_sample_per_response(
    latencies: Seq<LatencyRecord>,
    response: crate::serialize::ResponseView,
    receive_time: u64,
)
    ensures
        latencies.len() <= with_sample(latencies, response, receive_time).len() <= latencies.len()
            + 1,
        with_sample(latencies, response, receive_time).take(latencies.len() as int) == latencies,
{
    assert(with_sample(latencies, response, receive_time).take(latencies.len() as int)
        =~= latencies);
}

/// The latencies of one thread's samples, in the order of receipt.
pub open spec fn thread_latencies(samples: Seq<LatencyRecord>) -> Seq<u64> {
    Seq::new(samples.len(), |i: int| samples[i].latency)
}

/// The latencies of a run: those of the first thread, then those of the
/// second, and so on.
pub open spec fn run_latencies(threads: Seq<Seq<LatencyRecord>>) -> Seq<u64>
    decreases threads.len(),
{
    if threads.len() == 0 {
        Seq::empty()
    } else {
        run_latencies(threads.drop_last()) + thread_latencies(threads.last())
    }
}

/// The one column of the closed-loop output for the samples that the
/// threads of a run collected.
pub fn latency_column(threads: &Vec<Vec<LatencyRecord>>) -> (out: Vec<u64>)
    ensures
        out@ == run_latencies(crate::open_loop_client::samples_of(threads@)),
{
    let ghost all = crate::open_loop_client::samples_of(threads@);
    let mut out: Vec<u64> = Vec::new();
    let mut t: usize = 0;
    assert(all.take(0) =~= Seq::<Seq<LatencyRecord>>::empty());
    while t < threads.len()
        invariant
            t <= threads@.len(),
            all == crate::open_loop_client::samples_of(threads@),
            out@ == run_latencies(all.take(t as int)),
        decreases threads@.len() - t,
    {
        let samples = &threads[t];
        let ghost before = out@;
        let mut i: usize = 0;
        while i < samples.len()
            invariant
                i <= samples@.len(),
                out@ == before + thread_latencies(samples@).take(i as int),
            decreases samples@.len() - i,
        {
            out.push(samples[i].latency);
            i += 1;
            assert(out@ =~= before + thread_latencies(samples@).take(i as int));
        }
        assert(thread_latencies(samples@).take(samples@.len() as int) =~= thread_latencies(
            samples@,
        ));
        t += 1;
        assert(all.take(t as int).drop_last() =~= all.take(t - 1));
        assert(all.take(t as int).last() == samples@);
    }
    assert(all.take(threads@.len() as int) =~= all);
    out
}

} // verus!
