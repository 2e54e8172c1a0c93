//! The open-loop client: requests leave on a schedule of their own, and a
//! second thread collects the responses.
//!
//! The sender owns a [`Pacer`], the receiver a [`Receiver`]. The two threads
//! share a count of requests sent and a flag that the sender raises when it
//! is done; the receiver stops once the flag is up and it has seen as many
//! responses as were sent.

use crate::closed_loop_client::with_sample;
use crate::serialize::{LatencyRecord, ResponseView, ServerWorkPacket};
use vstd::prelude::*;

verus! {

/// The delay between two requests of one thread, when `threads` threads
/// share an interval of `interarrival_us` between requests overall.
/// `None` when the product does not fit.
pub fn thread_delay(interarrival_us: u64, threads: u64) -> (delay: Option<u64>)
    ensures
        delay == if interarrival_us * threads <= u64::MAX {
            Some((interarrival_us * threads) as u64)
        } else {
            None
        },
{
    interarrival_us.checked_mul(threads)
}

/// The schedule of one sender. Times are microseconds on the sender's
/// monotonic clock, counted from the start of the run.
pub struct Pacer {
    next_send_us: u64,
    end_us: u64,
    sent: u64,
}

/// What a sender's schedule holds.
pub struct PacerView {
    /// When the request last scheduled is due.
    pub next_send_us: u64,
    /// When the run ends.
    pub end_us: u64,
    /// How many requests have been sent: the id of the next one.
    pub sent: u64,
}

impl View for Pacer {
    type V = PacerView;

    closed spec fn view(&self) -> PacerView {
        PacerView { next_send_us: self.next_send_us, end_us: self.end_us, sent: self.sent }
    }
}

/// `a + b`, or `u64::MAX` where that does not fit.
pub open spec fn capped_sum(a: u64, b: u64) -> u64 {
    if a + b <= u64::MAX {
        (a + b) as u64
    } else {
        u64::MAX
    }
}

impl Pacer {
    /// The schedule of a run of `runtime_us` that starts now, at time 0.
    pub fn new(runtime_us: u64) -> (pacer: Pacer)
        ensures
            pacer@ == (PacerView { next_send_us: 0, end_us: runtime_us, sent: 0 }),
    {
        Pacer { next_send_us: 0, end_us: runtime_us, sent: 0 }
    }

    /// Opens a round at time `now_us`: schedules the next request `gap_us`
    /// after the last one was due, and says how long to sleep until then.
    ///
    /// `None` when the run is over or the ids are used up; nothing changes
    /// then. Otherwise the time to sleep, which is zero when the schedule is
    /// already behind. The request is due `gap_us` after the previous due
    /// time, not after `now_us`: time lost in one round is made up in the
    /// next.
    pub fn begin_round(&mut self, now_us: u64, gap_us: u64) -> (sleep_us: Option<u64>)
        ensures
            final(self)@.end_us == old(self)@.end_us,
            final(self)@.sent == old(self)@.sent,
            now_us >= old(self)@.end_us || old(self)@.sent == u64::MAX ==> sleep_us is None
                && final(self)@ == old(self)@,
            now_us < old(self)@.end_us && old(self)@.sent < u64::MAX ==> {
                &&& final(self)@.next_send_us == capped_sum(old(self)@.next_send_us, gap_us)
                &&& sleep_us == Some(
                    if final(self)@.next_send_us > now_us {
                        (final(self)@.next_send_us - now_us) as u64
                    } else {
                        0u64
                    },
                )
            },
    {
        if now_us >= self.end_us || self.sent == u64::MAX {
            return None;
        }
        self.next_send_us = match self.next_send_us.checked_add(gap_us) {
            Some(due) => due,
            None => u64::MAX,
        };
        if self.next_send_us > now_us {
            Some(self.next_send_us - now_us)
        } else {
            Some(0)
        }
    }

    /// Whether a request may still leave at time `now_us`, after the
    /// sleep: it may while the run has not ended.
    pub fn may_send(&self, now_us: u64) -> (ok: bool)
        ensures
            ok == (now_us < self@.end_us),
    {
        now_us < self.end_us
    }

    /// The id of the request to send in this round.
    pub fn next_id(&self) -> (id: u64)
        ensures
            id == self@.sent,
    {
        self.sent
    }

    /// Notes that the request of this round has left, and gives the count
    /// of requests sent, for the receiver to see.
    pub fn on_sent(&mut self) -> (sent: u64)
        ensures
            sent == capped_sum(old(self)@.sent, 1),
            final(self)@ == (PacerView { sent, ..old(self)@ }),
    {
        if self.sent < u64::MAX {
            self.sent = self.sent + 1;
        }
        self.sent
    }
}

/// What a read on the receiving side came back with.
pub enum Received {
    /// A response, and the wall-clock time at which it was read.
    Response(ServerWorkPacket, u64),
    /// The read timed out: nothing arrived in time.
    Timeout,
    /// The read failed in any other way.
    Failed,
}

/// What a read came back with, with the response as what it holds.
pub enum ReceivedView {
    Response(ResponseView, u64),
    Timeout,
    Failed,
}

impl View for Received {
    type V = ReceivedView;

    open spec fn view(&self) -> ReceivedView {
        match self {
            Received::Response(response, receive_time) => ReceivedView::Response(
                response@,
                *receive_time,
            ),
            Received::Timeout => ReceivedView::Timeout,
            Received::Failed => ReceivedView::Failed,
        }
    }
}

/// What the receiver does after a read.
#[derive(Debug, Clone, Copy, PartialEq, Eq, Structural)]
pub enum Verdict {
    /// Go on: look at the exit condition, then read again.
    Continue,
    /// Stop: the connection went down after the sender was done.
    Finished,
    /// Stop: the connection went down while the sender was still at work.
    Broken,
}

/// The receiver's side of an open-loop connection.
pub struct Receiver {
    received: u64,
    latencies: Vec<LatencyRecord>,
}

/// What a receiver has seen so far.
pub struct ReceiverView {
    /// How many responses have been read.
    pub received: u64,
    /// The samples collected, in the order of their responses.
    pub latencies: Seq<LatencyRecord>,
}

impl View for Receiver {
    type V = ReceiverView;

    closed spec fn view(&self) -> ReceiverView {
        ReceiverView { received: self.received, latencies: self.latencies@ }
    }
}

/// Whether the receiver is done: the sender has finished and every request
/// it sent has been answered.
pub open spec fn drained(sender_done: bool, sent: u64, received: u64) -> bool {
    sender_done && received >= sent
}

/// The receiver after a response has been read at `receive_time`: the
/// response is counted, and its sample, if it gives one, kept.
pub open spec fn after_response(r: ReceiverView, response: ResponseView, receive_time: u64)
    -> ReceiverView {
    ReceiverView {
        received: if r.received < u64::MAX {
            (r.received + 1) as u64
        } else {
            r.received
        },
        latencies: with_sample(r.latencies, response, receive_time),
    }
}

/// The receiver after one read: a response is taken in, a timeout and a
/// failure leave the receiver as it was.
pub open spec fn receiver_step(r: ReceiverView, outcome: ReceivedView) -> ReceiverView {
    match outcome {
        ReceivedView::Response(response, receive_time) => after_response(
            r,
            response,
            receive_time,
        ),
        ReceivedView::Timeout => r,
        ReceivedView::Failed => r,
    }
}

/// How the receiver goes on after one read: a response and a timeout let
/// it continue; a failure ends the loop, as expected if the sender was
/// done, as a broken connection if not.
pub open spec fn verdict_of(outcome: ReceivedView, sender_done: bool) -> Verdict {
    match outcome {
        ReceivedView::Response(_, _) => Verdict::Continue,
        ReceivedView::Timeout => Verdict::Continue,
        ReceivedView::Failed => if sender_done {
            Verdict::Finished
        } else {
            Verdict::Broken
        },
    }
}

/// The receiver after `n` reads in a row have timed out.
pub open spec fn after_timeouts(r: ReceiverView, n: nat) -> ReceiverView
    decreases n,
{
    if n == 0 {
        r
    } else {
        receiver_step(after_timeouts(r, (n - 1) as nat), ReceivedView::Timeout)
    }
}

impl Receiver {
    /// A receiver that has read nothing.
    pub fn new() -> (receiver: Receiver)
        ensures
            receiver@ == (ReceiverView { received: 0, latencies: Seq::empty() }),
    {
        Receiver { received: 0, latencies: Vec::new() }
    }

    /// Whether to stop before the next read, given the sender's flag and
    /// its count of requests sent.
    pub fn should_stop(&self, sender_done: bool, sent: u64) -> (stop: bool)
        ensures
            stop == drained(sender_done, sent, self@.received),
    {
        sender_done && self.received >= sent
    }

    /// Takes in what a read came back with, and says how to go on.
    ///
    /// A response is counted and its sample, if it gives one, kept. A
    /// timeout changes nothing and is no error. Any other failure ends the
    /// loop: as expected if the sender was done, as a broken connection if
    /// not.
    pub fn on_read(&mut self, outcome: Received, sender_done: bool) -> (verdict: Verdict)
        ensures
            final(self)@ == receiver_step(old(self)@, outcome@),
            verdict == verdict_of(outcome@, sender_done),
    {
        match outcome {
            Received::Response(response, receive_time) => {
                match response.calculate_latency(receive_time) {
                    Some(sample) => {
                        self.latencies.push(sample);
                    },
                    None => {},
                }
                if self.received < u64::MAX {
                    self.received = self.received + 1;
                }
                Verdict::Continue
            },
            Received::Timeout => Verdict::Continue,
            Received::Failed => if sender_done {
                Verdict::Finished
            } else {
                Verdict::Broken
            },
        }
    }

    /// How many responses have been read.
    pub fn received(&self) -> (n: u64)
        ensures
            n == self@.received,
    {
        self.received
    }

    /// The samples collected, in the order of their responses.
    pub fn into_latencies(self) -> (latencies: Vec<LatencyRecord>)
        ensures
            latencies@ == self@.latencies,
    {
        self.latencies
    }
}

/// Once the sender is done and every request it sent has been answered,
/// the receiver stops at its next look at the exit condition, however many
/// reads have timed out before that look: each of them lets the loop
/// continue and leaves the receiver as it was, so none loses a response
/// that was counted or asks for one more.
pub proof fn lemma_stops_once_drained(r: ReceiverView, sent: u64, timeouts: nat)
    requires
        r.received >= sent,
    ensures
        after_timeouts(r, timeouts) == r,
        drained(true, sent, after_timeouts(r, timeouts).received),
        verdict_of(ReceivedView::Timeout, true) == Verdict::Continue,
    decreases timeouts,
{
    if timeouts > 0 {
        lemma_stops_once_drained(r, sent, (timeouts - 1) as nat);
    }
}

/// A response brings the receiver one nearer to being drained: it is
/// counted whether or not it gives a sample, and once as many are counted
/// as were sent, a sender that is done lets the receiver stop.
pub proof fn lemma_response_is_counted(
    r: ReceiverView,
    response: ResponseView,
    receive_time: u64,
    sent: u64,
)
    requires
        r.received + 1 >= sent,
    ensures
        receiver_step(r, ReceivedView::Response(response, receive_time)).received >= r.received,
        r.received < u64::MAX ==> receiver_step(
            r,
            ReceivedView::Response(response, receive_time),
        ).received == r.received + 1,
        drained(
            true,
            sent,
            receiver_step(r, ReceivedView::Response(response, receive_time)).received,
        ),
{
}

/// While the sender is at work, or a response is still owed, the receiver
/// does not stop of its own accord.
pub proof fn lemma_waits_for_every_response(sender_done: bool, sent: u64, received: u64)
    requires
        !sender_done || received < sent,
    ensures
        !drained(sender_done, sent, received),
{
}

/// One row of the open-loop output.
#[derive(Debug, Clone, Copy, PartialEq, Eq, Structural)]
pub struct Row {
    /// The sample's place among the samples of its thread, from 0.
    pub idx: usize,
    pub send_us: u64,
    pub recv_us: u64,
    pub server_proc_us: u64,
    pub latency_us: u64,
}

/// The row of the sample at place `idx` of its thread.
pub open spec fn row_of(idx: int, sample: LatencyRecord) -> Row {
    Row {
        idx: idx as usize,
        send_us: sample.send_timestamp,
        recv_us: sample.recv_timestamp,
        server_proc_us: sample.server_processing_time,
        latency_us: sample.latency,
    }
}

/// The rows of one thread: one for each sample, in the order of receipt.
pub open spec fn thread_rows(samples: Seq<LatencyRecord>) -> Seq<Row> {
    Seq::new(samples.len(), |i: int| row_of(i, samples[i]))
}

/// The rows of a run: those of the first thread, then those of the
/// second, and so on.
pub open spec fn run_rows(threads: Seq<Seq<LatencyRecord>>) -> Seq<Row>
    decreases threads.len(),
{
    if threads.len() == 0 {
        Seq::empty()
    } else {
        run_rows(threads.drop_last()) + thread_rows(threads.last())
    }
}

/// The samples of each thread, as sequences.
pub open spec fn samples_of(threads: Seq<Vec<LatencyRecord>>) -> Seq<Seq<LatencyRecord>> {
    Seq::new(threads.len(), |i: int| threads[i]@)
}

/// The rows of the open-loop output for the samples that the threads of
/// a run collected.
pub fn rows(threads: &Vec<Vec<LatencyRecord>>) -> (out: Vec<Row>)
    ensures
        out@ == run_rows(samples_of(threads@)),
{
    let ghost all = samples_of(threads@);
    let mut out: Vec<Row> = Vec::new();
    let mut t: usize = 0;
    assert(all.take(0) =~= Seq::<Seq<LatencyRecord>>::empty());
    while t < threads.len()
        invariant
            t <= threads@.len(),
            all == samples_of(threads@),
            out@ == run_rows(all.take(t as int)),
        decreases threads@.len() - t,
    {
        let samples = &threads[t];
        let ghost before = out@;
        let mut i: usize = 0;
        while i < samples.len()
            invariant
                i <= samples@.len(),
                out@ == before + thread_rows(samples@).take(i as int),
            decreases samples@.len() - i,
        {
            let sample = samples[i];
            out.push(
                Row {
                    idx: i,
                    send_us: sample.send_timestamp,
                    recv_us: sample.recv_timestamp,
                    server_proc_us: sample.server_processing_time,
                    latency_us: sample.latency,
                },
            );
            i += 1;
            assert(out@ =~= before + thread_rows(samples@).take(i as int));
        }
        assert(thread_rows(samples@).take(samples@.len() as int) =~= thread_rows(samples@));
        t += 1;
        assert(all.take(t as int).drop_last() =~= all.take(t - 1));
        assert(all.take(t as int).last() == samples@);
    }
    assert(all.take(threads@.len() as int) =~= all);
    out
}

/// The output has one row for each sample, and a thread's rows stand
/// together: the rows of a run that has one more thread are the rows of
/// the run without it, followed by that thread's.
pub proof fn lemma_rows_grouped_by_thread(threads: Seq<Seq<LatencyRecord>>, more: Seq<LatencyRecord>)
    ensures
        run_rows(threads.push(more)) == run_rows(threads) + thread_rows(more),
        run_rows(threads.push(more)).len() == run_rows(threads).len() + more.len(),
{
    assert(threads.push(more).drop_last() =~= threads);
}

} // verus!
