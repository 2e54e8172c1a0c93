use woonsocket::app::{Work, WorkParseErr};
use woonsocket::chunked_tcp_stream::FrameError;
use woonsocket::decimal::AmountError;
use woonsocket::io_uring::{operation_of, user_data, IOUring, Operation, RingError};
use woonsocket::io_uring_server::{Connection, IOUringServer, ServerError};
use woonsocket::io_vec_server::{gather, left_to_write, Span};
use woonsocket::protocol::{
    chunk_at, chunk_count, frame, ClientWorkPacketConn, ProtocolError, ServerWorkPacketConn,
};
use woonsocket::serialize::{
    ClientWorkPacket, CodecError, MessageTrait, ServerWorkPacket, ServerWorkStatus,
};
use woonsocket::server_kind::ServerKind;
use woonsocket::tcp_server::{ConnHandler, Step};

fn request_wire(id: u64, work: Work) -> Vec<u8> {
    ClientWorkPacketConn::new()
        .send_work_msg(ClientWorkPacket::with_timestamp(id, work, 1000 + id))
        .unwrap()
}

#[test]
fn server_kind_names() {
    assert_eq!(ServerKind::tcp.as_string_arg(), "tcp");
    assert_eq!(ServerKind::iouring_0.as_string_arg(), "iouring-0");
    assert_eq!(ServerKind::io_vec.as_string_arg(), "io-vec");
    for kind in [ServerKind::tcp, ServerKind::iouring_0, ServerKind::io_vec] {
        assert_eq!(ServerKind::from_string_arg(&kind.as_string_arg()), Some(kind));
    }
    assert_eq!(ServerKind::from_string_arg("iouring_0"), None);
    assert_eq!(ServerKind::from_string_arg(""), None);
}

#[test]
fn parse_error_messages() {
    assert_eq!(
        WorkParseErr::UnknownFmt("foo".to_owned()).to_string(),
        "Unknown work format specification foo. Format is [immedate|const|poisson|busytime|busywork]:[amount]."
    );
    assert_eq!(
        WorkParseErr::ZeroPoissonValue.to_string(),
        "Poisson-distributed work amount must be nonzero."
    );
    assert_eq!(
        WorkParseErr::U64Parse(AmountError::InvalidDigit).to_string(),
        "Could not parse work amount invalid digit found in string as u64."
    );
    assert_eq!(
        WorkParseErr::U64Parse(AmountError::Empty).to_string(),
        "Could not parse work amount cannot parse integer from empty string as u64."
    );
    assert_eq!(
        WorkParseErr::U64Parse(AmountError::Overflow).to_string(),
        "Could not parse work amount number too large to fit in target type as u64."
    );
}

#[test]
fn request_travels_in_one_chunk() {
    let packet = ClientWorkPacket::with_timestamp(7, Work::Const(5000), 99);
    let wire = ClientWorkPacketConn::new().send_work_msg(packet).unwrap();
    assert_eq!(wire.len(), 128);
    assert_eq!(&wire[..4], &[0, 0, 0, 28]);
    let mut conn = ClientWorkPacketConn::new();
    assert_eq!(conn.recv_work_msg(&wire), Ok(Some(packet)));
    assert_eq!(conn.finish(), Ok(()));
}

#[test]
fn response_with_payload_travels_in_many_chunks() {
    let packet = ServerWorkPacket::new(ServerWorkStatus::Completed, 5, 7, 99, Some(vec![0u8; 1024]));
    let wire = ServerWorkPacketConn::new().send_work_msg(&packet).unwrap();
    assert_eq!(wire.len(), 1152);
    let mut conn = ServerWorkPacketConn::new();
    let n = chunk_count(&wire);
    assert_eq!(n, 9);
    for i in 0..n - 1 {
        assert_eq!(conn.recv_work_msg(chunk_at(&wire, i).unwrap()), Ok(None));
        assert_eq!(
            conn.finish(),
            Err(ProtocolError::Frame(FrameError::Truncated))
        );
    }
    assert_eq!(conn.recv_work_msg(chunk_at(&wire, n - 1).unwrap()), Ok(Some(packet)));
    assert_eq!(conn.finish(), Ok(()));
}

#[test]
fn recv_refuses_what_is_no_chunk_or_no_packet() {
    let mut conn = ClientWorkPacketConn::new();
    assert_eq!(
        conn.recv_work_msg(&[0u8; 100]),
        Err(ProtocolError::Frame(FrameError::ChunkSize))
    );
    let garbage = frame(&[1, 2, 3]).unwrap();
    assert_eq!(
        conn.recv_work_msg(&garbage),
        Err(ProtocolError::Codec(CodecError::TooShort))
    );
    let mut chunk = vec![0u8; 128];
    chunk[0] = 9;
    assert_eq!(
        ServerWorkPacketConn::new().recv_work_msg(&chunk),
        Err(ProtocolError::Frame(FrameError::DeclaredLength))
    );
}

#[test]
fn blocking_server_answers_requests_in_order() {
    let mut handler = ConnHandler::new();
    let mut client = ServerWorkPacketConn::new();
    for id in 0..3u64 {
        let wire = request_wire(id, Work::Const(5000));
        let request = match handler.on_chunk(&wire) {
            Step::Work(request) => request,
            _ => panic!("a whole request asks for its work"),
        };
        assert_eq!(request.id(), id);
        let reply = handler.reply(&request, 5000 + id, None).unwrap();
        assert_eq!(reply.len(), 128);
        let response = client.recv_work_msg(&reply).unwrap().unwrap();
        assert_eq!(response.client_id(), id);
        assert_eq!(response.client_send_time(), 1000 + id);
        assert_eq!(response.server_processing_time(), 5000 + id);
        assert_eq!(response.status(), ServerWorkStatus::Completed);
        assert_eq!(response.payload_len(), None);
    }
    assert_eq!(handler.on_eof(), Ok(()));
}

#[test]
fn blocking_server_hangs_up_on_bad_input() {
    let mut handler = ConnHandler::new();
    match handler.on_chunk(&[0u8; 5]) {
        Step::Close(e) => assert_eq!(e, ProtocolError::Frame(FrameError::ChunkSize)),
        _ => panic!("a short transfer ends the connection"),
    }
    let mut long = vec![0u8; 128];
    long[7] = 200;
    assert!(matches!(handler.on_chunk(&long), Step::Read));
    assert_eq!(
        handler.on_eof(),
        Err(ProtocolError::Frame(FrameError::Truncated))
    );
    let mut handler = ConnHandler::new();
    let mut bad = request_wire(1, Work::Immediate);
    bad[4 + 8] = 9;
    match handler.on_chunk(&bad) {
        Step::Close(e) => assert_eq!(e, ProtocolError::Codec(CodecError::BadTag)),
        _ => panic!("an unknown work ends the connection"),
    }
}

#[test]
fn gathered_write_covers_the_response() {
    assert_eq!(gather(0), Ok(vec![]));
    assert_eq!(gather(128), Ok(vec![Span { start: 0, len: 128 }]));
    assert_eq!(
        gather(384),
        Ok(vec![
            Span { start: 0, len: 128 },
            Span { start: 128, len: 128 },
            Span { start: 256, len: 128 },
        ])
    );
    assert_eq!(gather(100), Err(FrameError::ChunkSize));
    assert_eq!(gather(129), Err(FrameError::ChunkSize));
    assert_eq!(left_to_write(384, 384), Some(0));
    assert_eq!(left_to_write(384, 100), Some(284));
    assert_eq!(left_to_write(384, 385), None);
}

#[test]
fn ring_books_never_exceed_capacity() {
    assert_eq!(IOUring::new(0).err(), Some(RingError::NoSlots));
    let mut ring = IOUring::new(4).unwrap();
    assert_eq!(ring.free_slots(), 4);
    assert_eq!(ring.submit(3), 3);
    assert_eq!(ring.submit(3), 1);
    assert_eq!(ring.submit(3), 0);
    assert_eq!(ring.in_flight(), 4);
    assert_eq!(ring.complete(5), Err(RingError::Unsubmitted));
    assert_eq!(ring.in_flight(), 4);
    assert_eq!(ring.complete(2), Ok(()));
    assert_eq!(ring.free_slots(), 2);
    assert_eq!(ring.complete(2), Ok(()));
    assert_eq!(ring.complete(1), Err(RingError::Unsubmitted));
}

#[test]
fn connection_handles_partial_reads_and_writes() {
    let mut conn = Connection::new();
    let mut stream = request_wire(0, Work::Payload);
    stream.extend(request_wire(1, Work::Immediate));
    let mut requests = Vec::new();
    for piece in stream.chunks(50) {
        conn.on_read(piece);
        while let Some(request) = conn.next_request().unwrap() {
            requests.push(request);
        }
    }
    assert_eq!(requests.iter().map(|r| r.id()).collect::<Vec<_>>(), vec![0, 1]);
    assert_eq!(conn.finish(), Ok(()));

    conn.respond(&requests[0], 11, Some(vec![0u8; 256])).unwrap();
    conn.respond(&requests[1], 12, None).unwrap();
    let mut expect = ServerWorkPacketConn::new()
        .send_work_msg(&requests[0].do_work(11, Some(vec![0u8; 256])))
        .unwrap();
    expect.extend(
        ServerWorkPacketConn::new()
            .send_work_msg(&requests[1].do_work(12, None))
            .unwrap(),
    );
    assert_eq!(conn.waiting(), expect.len());

    let mut written = Vec::new();
    let mut short = true;
    while conn.waiting() > 0 {
        let bytes = conn.next_write().to_vec();
        assert!(!bytes.is_empty() && bytes.len() <= 128);
        assert_eq!(
            conn.on_written(bytes.len() + 1),
            Err(ProtocolError::Frame(FrameError::ChunkSize))
        );
        let n = if short { (bytes.len() + 1) / 2 } else { bytes.len() };
        short = !short;
        written.extend_from_slice(&bytes[..n]);
        conn.on_written(n).unwrap();
        assert_eq!((written.len() + conn.next_write().len()) % 128, 0);
    }
    assert_eq!(written, expect);
    assert!(conn.next_write().is_empty());
    assert_eq!(conn.on_written(0), Ok(()));
}

#[test]
fn reactor_serves_two_connections() {
    assert_eq!(
        IOUringServer::new(0).err(),
        Some(ServerError::Ring(RingError::NoSlots))
    );
    let mut server = IOUringServer::new(2).unwrap();

    // connections come in through accepts, one at a time
    assert_eq!(server.accepted(true), Err(ServerError::NotUnderWay));
    assert!(server.begin_accept());
    assert!(!server.begin_accept());
    assert_eq!(server.in_flight(), 1);
    assert_eq!(server.accepted(true), Ok(Some(0)));
    assert!(server.begin_accept());
    assert_eq!(server.accepted(false), Ok(None));
    assert!(server.begin_accept());
    assert_eq!(server.accepted(true), Ok(Some(1)));
    assert_eq!(server.connections(), 2);
    assert_eq!(server.in_flight(), 0);
    let (a, b) = (0, 1);

    // a completion needs an operation that was started
    assert_eq!(
        server.recv_msgs_from_ring(5, &[]),
        Err(ServerError::UnknownConnection)
    );
    assert_eq!(
        server.recv_msgs_from_ring(a, &[]),
        Err(ServerError::NotUnderWay)
    );
    assert_eq!(server.begin_read(5), Err(ServerError::UnknownConnection));

    // one read per connection, and no more operations than the ring has slots
    assert_eq!(server.begin_read(a), Ok(true));
    assert_eq!(server.begin_read(a), Ok(false));
    assert_eq!(server.begin_read(b), Ok(true));
    assert!(!server.begin_accept());
    assert_eq!(server.in_flight(), 2);

    let wire_a = request_wire(10, Work::Immediate);
    let wire_b = request_wire(20, Work::Const(5));
    server.recv_msgs_from_ring(a, &wire_a[..100]).unwrap();
    server.recv_msgs_from_ring(b, &wire_b).unwrap();
    assert_eq!(
        server.recv_msgs_from_ring(b, &wire_b),
        Err(ServerError::NotUnderWay)
    );
    assert_eq!(server.handle_recv_msgs(a), Ok(None));
    let request_b = server.handle_recv_msgs(b).unwrap().unwrap();
    assert_eq!(request_b.id(), 20);
    assert_eq!(server.handle_recv_msgs(b), Ok(None));
    assert_eq!(server.begin_read(a), Ok(true));
    server.recv_msgs_from_ring(a, &wire_a[100..]).unwrap();
    let request_a = server.handle_recv_msgs(a).unwrap().unwrap();
    assert_eq!(request_a.id(), 10);
    assert_eq!(
        server.handle_recv_msgs(9).err(),
        Some(ServerError::UnknownConnection)
    );

    assert_eq!(server.send_messages_to_ring(a), Ok(None));
    server.do_work_request(a, &request_a, 1, None).unwrap();
    server.do_work_request(b, &request_b, 2, None).unwrap();
    assert_eq!(
        server.do_work_request(7, &request_b, 2, None),
        Err(ServerError::UnknownConnection)
    );

    // a full ring holds writes back
    assert_eq!(server.begin_read(a), Ok(true));
    assert_eq!(server.begin_read(b), Ok(true));
    assert_eq!(server.send_messages_to_ring(a), Ok(None));
    server.recv_msgs_from_ring(a, &[]).unwrap();
    server.recv_msgs_from_ring(b, &[]).unwrap();
    let out_a = server.send_messages_to_ring(a).unwrap().unwrap();
    // one write per connection
    assert_eq!(server.send_messages_to_ring(a), Ok(None));
    let out_b = server.send_messages_to_ring(b).unwrap().unwrap();
    assert_eq!(server.send_messages_to_ring(b), Ok(None));
    assert_eq!(out_a.len(), 128);
    assert_eq!(
        server.write_completed(a, 129),
        Err(ServerError::Protocol(ProtocolError::Frame(FrameError::ChunkSize)))
    );
    server.write_completed(a, 128).unwrap();
    server.write_completed(b, 128).unwrap();
    assert_eq!(server.write_completed(b, 0), Err(ServerError::NotUnderWay));
    assert_eq!(
        server.write_completed(9, 0),
        Err(ServerError::UnknownConnection)
    );
    assert_eq!(server.in_flight(), 0);
    let response_a = ServerWorkPacketConn::new().recv_work_msg(&out_a).unwrap().unwrap();
    let response_b = ServerWorkPacketConn::new().recv_work_msg(&out_b).unwrap().unwrap();
    assert_eq!(response_a.client_id(), 10);
    assert_eq!(response_b.client_id(), 20);
    assert_eq!(response_b.server_processing_time(), 2);
    assert_eq!(ServerWorkPacket::from_bytes(&out_a[4..]).unwrap(), response_a);
}

#[test]
fn reactor_starts_nothing_on_a_connection_that_was_hung_up() {
    let mut server = IOUringServer::new(4).unwrap();
    let conn = server.open();
    assert_eq!(server.hang_up(3), Err(ServerError::UnknownConnection));
    assert!(!server.is_closed(conn));
    assert!(!server.is_finished(conn));
    assert!(!server.is_closed(3));
    assert!(!server.is_finished(3));

    let request = ClientWorkPacket::with_timestamp(1, Work::Immediate, 2);
    server.do_work_request(conn, &request, 3, None).unwrap();
    assert_eq!(server.begin_read(conn), Ok(true));
    assert!(server.send_messages_to_ring(conn).unwrap().is_some());
    server.hang_up(conn).unwrap();
    assert!(server.is_closed(conn));
    // what is under way may still complete
    assert!(!server.is_finished(conn));
    server.recv_msgs_from_ring(conn, &[]).unwrap();
    assert!(!server.is_finished(conn));
    server.write_completed(conn, 64).unwrap();
    assert!(server.is_finished(conn));
    assert_eq!(server.in_flight(), 0);
    // and nothing new is started
    assert_eq!(server.begin_read(conn), Ok(false));
    assert_eq!(server.send_messages_to_ring(conn), Ok(None));
    assert_eq!(server.in_flight(), 0);
}

#[test]
fn connection_has_one_read_and_one_write_at_a_time() {
    let mut conn = Connection::new();
    assert!(!conn.is_reading() && !conn.is_writing() && !conn.is_closed());
    assert!(conn.begin_read());
    assert!(conn.is_reading());
    assert!(!conn.begin_read());
    conn.on_read(&[]);
    assert!(!conn.is_reading());
    assert!(conn.begin_read());

    assert_eq!(conn.begin_write(), None);
    let request = ClientWorkPacket::with_timestamp(1, Work::Immediate, 2);
    conn.respond(&request, 3, None).unwrap();
    let bytes = conn.begin_write().expect("bytes wait and no write is under way");
    assert_eq!(bytes.len(), 128);
    assert!(conn.is_writing());
    assert_eq!(conn.begin_write(), None);
    conn.on_written(100).unwrap();
    assert!(!conn.is_writing());
    assert_eq!(conn.begin_write().map(|b| b.len()), Some(28));
    conn.close();
    conn.on_written(28).unwrap();
    assert_eq!(conn.waiting(), 0);
    conn.respond(&request, 3, None).unwrap();
    assert_eq!(conn.begin_write(), None);
    conn.on_read(&[]);
    assert!(!conn.begin_read());
}

#[test]
fn operations_are_known_again_by_their_number() {
    assert_eq!(user_data(Operation::Accept, 0), Some(0));
    assert_eq!(user_data(Operation::Read, 0), Some(1));
    assert_eq!(user_data(Operation::Write, 0), Some(2));
    assert_eq!(user_data(Operation::Read, 5), Some(21));
    assert_eq!(operation_of(21), Some((Operation::Read, 5)));
    assert_eq!(operation_of(3), None);
    assert_eq!(operation_of(7), None);
    for conn in [0usize, 1, 2, 1000, (u64::MAX / 4) as usize - 1] {
        for op in [Operation::Accept, Operation::Read, Operation::Write] {
            let number = user_data(op, conn).expect("the number fits");
            assert_eq!(operation_of(number), Some((op, conn)));
        }
    }
    if usize::BITS == 64 {
        assert_eq!(user_data(Operation::Write, usize::MAX), None);
        assert_eq!(user_data(Operation::Accept, (u64::MAX / 4) as usize), Some(u64::MAX - 3));
        assert_eq!(user_data(Operation::Write, (u64::MAX / 4) as usize), Some(u64::MAX - 1));
        assert_eq!(user_data(Operation::Accept, (u64::MAX / 4) as usize + 1), None);
    }
}
