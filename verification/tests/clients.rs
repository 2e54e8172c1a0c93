use woonsocket::app::Work;
use woonsocket::closed_loop_client::{latency_column, ClosedLoopWorker};
use woonsocket::open_loop_client::{rows, thread_delay, Pacer, Received, Receiver, Row, Verdict};
use woonsocket::serialize::{LatencyRecord, ServerWorkPacket, ServerWorkStatus};

fn completed(send: u64, processing: u64) -> ServerWorkPacket {
    ServerWorkPacket::new(ServerWorkStatus::Completed, processing, 0, send, None)
}

fn sample(latency: u64, send: u64, processing: u64, recv: u64) -> LatencyRecord {
    LatencyRecord {
        latency,
        send_timestamp: send,
        server_processing_time: processing,
        recv_timestamp: recv,
    }
}

#[test]
fn closed_loop_with_no_run_time_sends_nothing() {
    let mut worker = ClosedLoopWorker::new();
    assert!(worker.next_request(0, 0, Work::Immediate).is_none());
    assert!(worker.next_request(5, 0, Work::Immediate).is_none());
    assert_eq!(worker.sample_count(), 0);
    assert!(worker.into_latencies().is_empty());
}

#[test]
fn closed_loop_counts_its_requests() {
    let mut worker = ClosedLoopWorker::new();
    for id in 0..5u64 {
        let request = worker
            .next_request(id * 10, 1000, Work::Const(5000))
            .expect("the run time is not used up");
        assert_eq!(request.id(), id);
        assert_eq!(request.work(), Work::Const(5000));
        worker.on_response(&completed(100, 50), 350);
    }
    assert!(worker.next_request(1000, 1000, Work::Const(5000)).is_none());
    assert!(worker.next_request(1001, 1000, Work::Const(5000)).is_none());
    let request = worker.next_request(999, 1000, Work::Immediate).unwrap();
    assert_eq!(request.id(), 5);
    assert_eq!(worker.sample_count(), 5);
    assert_eq!(worker.into_latencies(), vec![sample(100, 100, 50, 350); 5]);
}

#[test]
fn closed_loop_keeps_only_eligible_samples() {
    let mut worker = ClosedLoopWorker::new();
    worker.on_response(&completed(100, 50), 350);
    worker.on_response(
        &ServerWorkPacket::new(ServerWorkStatus::Failed, 50, 0, 100, None),
        350,
    );
    worker.on_response(&completed(100, 50), 99);
    worker.on_response(&completed(10, 0), 30);
    assert_eq!(
        worker.into_latencies(),
        vec![sample(100, 100, 50, 350), sample(10, 10, 0, 30)]
    );
}

#[test]
fn thread_delay_is_the_interval_times_the_threads() {
    assert_eq!(thread_delay(100, 4), Some(400));
    assert_eq!(thread_delay(0, 4), Some(0));
    assert_eq!(thread_delay(100, 0), Some(0));
    assert_eq!(thread_delay(u64::MAX, 1), Some(u64::MAX));
    assert_eq!(thread_delay(u64::MAX, 2), None);
    assert_eq!(thread_delay(1 << 32, 1 << 32), None);
}

#[test]
fn pacer_keeps_an_absolute_schedule() {
    let mut pacer = Pacer::new(1000);
    assert_eq!(pacer.begin_round(0, 100), Some(100));
    assert!(pacer.may_send(100));
    assert_eq!(pacer.next_id(), 0);
    assert_eq!(pacer.on_sent(), 1);
    // late by 30: the next request is still due at 200
    assert_eq!(pacer.begin_round(130, 100), Some(70));
    assert_eq!(pacer.on_sent(), 2);
    // far behind: no sleep, and the schedule catches up
    assert_eq!(pacer.begin_round(450, 100), Some(0));
    assert_eq!(pacer.begin_round(450, 100), Some(0));
    assert_eq!(pacer.begin_round(450, 100), Some(50));
    assert_eq!(pacer.next_id(), 2);
}

#[test]
fn pacer_stops_at_the_end_of_the_run() {
    let mut pacer = Pacer::new(1000);
    assert_eq!(pacer.begin_round(999, 100), Some(0));
    assert!(pacer.may_send(999));
    assert!(!pacer.may_send(1000));
    assert_eq!(pacer.begin_round(1000, 100), None);
    assert_eq!(pacer.begin_round(5000, 100), None);
    let mut none = Pacer::new(0);
    assert_eq!(none.begin_round(0, 100), None);
    assert!(!none.may_send(0));
}

#[test]
fn pacer_caps_a_schedule_that_overflows() {
    let mut pacer = Pacer::new(u64::MAX);
    assert_eq!(pacer.begin_round(0, u64::MAX - 1), Some(u64::MAX - 1));
    assert_eq!(pacer.begin_round(10, 5), Some(u64::MAX - 10));
}

#[test]
fn receiver_stops_once_drained() {
    let mut receiver = Receiver::new();
    assert!(!receiver.should_stop(false, 0));
    assert!(receiver.should_stop(true, 0));
    assert!(!receiver.should_stop(true, 2));
    assert_eq!(
        receiver.on_read(Received::Response(completed(100, 50), 350), false),
        Verdict::Continue
    );
    assert!(!receiver.should_stop(true, 2));
    for _ in 0..10 {
        assert_eq!(receiver.on_read(Received::Timeout, true), Verdict::Continue);
        assert!(!receiver.should_stop(true, 2));
        assert_eq!(receiver.received(), 1);
    }
    assert_eq!(
        receiver.on_read(Received::Response(completed(100, 50), 99), true),
        Verdict::Continue
    );
    assert_eq!(receiver.received(), 2);
    assert!(receiver.should_stop(true, 2));
    assert!(!receiver.should_stop(false, 2));
    for _ in 0..10 {
        assert_eq!(receiver.on_read(Received::Timeout, true), Verdict::Continue);
        assert!(receiver.should_stop(true, 2));
    }
    assert_eq!(receiver.into_latencies(), vec![sample(100, 100, 50, 350)]);
}

#[test]
fn receiver_tells_a_broken_connection_from_a_finished_one() {
    let mut receiver = Receiver::new();
    assert_eq!(receiver.on_read(Received::Failed, true), Verdict::Finished);
    assert_eq!(receiver.on_read(Received::Failed, false), Verdict::Broken);
    assert_eq!(receiver.on_read(Received::Timeout, false), Verdict::Continue);
    assert_eq!(receiver.received(), 0);
}

#[test]
fn open_loop_rows_are_grouped_by_thread() {
    let threads = vec![
        vec![sample(1, 2, 3, 4), sample(5, 6, 7, 8)],
        vec![],
        vec![sample(9, 10, 11, 12)],
    ];
    assert_eq!(
        rows(&threads),
        vec![
            Row { idx: 0, send_us: 2, recv_us: 4, server_proc_us: 3, latency_us: 1 },
            Row { idx: 1, send_us: 6, recv_us: 8, server_proc_us: 7, latency_us: 5 },
            Row { idx: 0, send_us: 10, recv_us: 12, server_proc_us: 11, latency_us: 9 },
        ]
    );
    assert!(rows(&vec![]).is_empty());
}

#[test]
fn closed_loop_column_holds_every_latency() {
    let threads = vec![
        vec![sample(1, 2, 3, 4), sample(5, 6, 7, 8)],
        vec![],
        vec![sample(9, 10, 11, 12)],
    ];
    assert_eq!(latency_column(&threads), vec![1, 5, 9]);
    assert!(latency_column(&vec![vec![], vec![]]).is_empty());
}
