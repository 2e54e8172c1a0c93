use std::time::Instant;
use woonsocket::app::{busy_wait_over, Effort, Work};
use woonsocket::get_current_time_micros;
use woonsocket::protocol::{chunk_at, chunk_count, ClientWorkPacketConn, ServerWorkPacketConn};
use woonsocket::serialize::{ClientWorkPacket, ServerWorkPacket, ServerWorkStatus};
use woonsocket::tcp_server::{ConnHandler, Step};

fn perform(work: Work) -> (u64, Option<Vec<u8>>) {
    let start = Instant::now();
    match work.effort() {
        Effort::BusyWait(micros) => {
            while !busy_wait_over(start.elapsed().as_micros() as u64, micros) {}
        }
        Effort::Nothing => {}
        other => panic!("not used here: {:?}", other),
    }
    let payload = work.payload();
    (start.elapsed().as_micros() as u64, payload)
}

fn exchange(work: Work) -> ServerWorkPacket {
    let request = ClientWorkPacket::new(1, work);
    let wire = ClientWorkPacketConn::new().send_work_msg(request).unwrap();

    let mut handler = ConnHandler::new();
    let mut reply = None;
    for i in 0..chunk_count(&wire) {
        if let Step::Work(got) = handler.on_chunk(chunk_at(&wire, i).unwrap()) {
            assert_eq!(got, request);
            let (elapsed, payload) = perform(got.work());
            reply = Some(handler.reply(&got, elapsed, payload).unwrap());
        }
    }
    let reply = reply.expect("the request arrived");

    let mut client = ServerWorkPacketConn::new();
    let mut response = None;
    for i in 0..chunk_count(&reply) {
        if let Some(got) = client.recv_work_msg(chunk_at(&reply, i).unwrap()).unwrap() {
            response = Some(got);
        }
    }
    let response = response.expect("the response arrived");
    assert_eq!(response.client_id(), 1);
    assert_eq!(response.client_send_time(), request.timestamp());
    assert_eq!(response.status(), ServerWorkStatus::Completed);
    response
}

#[test]
fn const_work_takes_its_time_and_has_no_payload() {
    let response = exchange(Work::Const(5000));
    assert!(response.server_processing_time() >= 5000);
    assert!(response.server_processing_time() < 5000 + 2_000_000);
    assert_eq!(response.payload_len(), None);
    let sample = response
        .calculate_latency(get_current_time_micros())
        .expect("a completed response gives a sample");
    assert_eq!(sample.server_processing_time, response.server_processing_time());
    assert_eq!(sample.send_timestamp, response.client_send_time());
}

#[test]
fn payload_work_answers_with_one_of_four_sizes() {
    for _ in 0..50 {
        let response = exchange(Work::Payload);
        let len = response.payload_len().expect("payload work answers with a buffer");
        assert!([64, 256, 512, 1024].contains(&len), "length {}", len);
    }
}

#[test]
fn immediate_work_has_no_payload() {
    let response = exchange(Work::Immediate);
    assert_eq!(response.payload_len(), None);
}
