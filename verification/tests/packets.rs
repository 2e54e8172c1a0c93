use woonsocket::app::{NonZeroMicros, Work};
use woonsocket::serialize::{
    generate_random_work, ClientWorkPacket, CodecError, LatencyRecord, MessageTrait,
    ServerWorkPacket, ServerWorkStatus,
};

#[test]
fn serialize_bounce() {
    let r = ClientWorkPacket::with_timestamp(1, Work::Immediate, 42);

    let mut v = Vec::new();
    r.to_vec(&mut v).expect("serialize the client packet");
    let r2 = ClientWorkPacket::from_bytes(&v).expect("deserialize the client packet");
    assert_eq!(r2, r);
}

#[test]
fn request_layout() {
    let mut v = vec![0xAAu8];
    ClientWorkPacket::with_timestamp(1, Work::Immediate, 42)
        .to_vec(&mut v)
        .unwrap();
    let mut expect = vec![0xAAu8];
    expect.extend_from_slice(&[1, 0, 0, 0, 0, 0, 0, 0]);
    expect.extend_from_slice(&[0, 0, 0, 0]);
    expect.extend_from_slice(&[42, 0, 0, 0, 0, 0, 0, 0]);
    assert_eq!(v, expect);

    let mut v = Vec::new();
    ClientWorkPacket::with_timestamp(0x0102, Work::Const(5000), 7)
        .to_vec(&mut v)
        .unwrap();
    let mut expect = Vec::new();
    expect.extend_from_slice(&[2, 1, 0, 0, 0, 0, 0, 0]);
    expect.extend_from_slice(&[1, 0, 0, 0]);
    expect.extend_from_slice(&5000u64.to_le_bytes());
    expect.extend_from_slice(&[7, 0, 0, 0, 0, 0, 0, 0]);
    assert_eq!(v, expect);
}

#[test]
fn request_layout_is_that_of_bincode() {
    let cases: [(Work, u32, Option<u64>); 6] = [
        (Work::Immediate, 0, None),
        (Work::Const(9), 1, Some(9)),
        (Work::Payload, 2, None),
        (Work::Poisson(NonZeroMicros::new(77).unwrap()), 3, Some(77)),
        (Work::BusyTimeConst(u64::MAX), 4, Some(u64::MAX)),
        (Work::BusyWorkConst(0), 5, Some(0)),
    ];
    for (work, tag, amount) in cases {
        let mut ours = Vec::new();
        ClientWorkPacket::with_timestamp(3, work, 1_700_000_000_000_000)
            .to_vec(&mut ours)
            .unwrap();
        let theirs = match amount {
            None => bincode::serialize(&(3u64, tag, 1_700_000_000_000_000u64)).unwrap(),
            Some(a) => bincode::serialize(&(3u64, tag, a, 1_700_000_000_000_000u64)).unwrap(),
        };
        assert_eq!(ours, theirs);
    }
}

#[test]
fn response_layout_is_that_of_bincode() {
    for payload in [None, Some(vec![]), Some(vec![1u8, 2, 3]), Some(vec![0u8; 1024])] {
        for (status, tag) in [(ServerWorkStatus::Completed, 0u32), (ServerWorkStatus::Failed, 1)] {
            let mut ours = Vec::new();
            ServerWorkPacket::new(status, 5000, 9, 123456, payload.clone())
                .to_vec(&mut ours)
                .unwrap();
            let theirs = bincode::serialize(&(tag, 5000u64, 9u64, 123456u64, payload.clone()))
                .unwrap();
            assert_eq!(ours, theirs);
        }
    }
}

#[test]
fn request_round_trip() {
    let works = [
        Work::Immediate,
        Work::Const(5000),
        Work::Payload,
        Work::Poisson(NonZeroMicros::new(1).unwrap()),
        Work::BusyTimeConst(0),
        Work::BusyWorkConst(u64::MAX),
    ];
    for work in works {
        let packet = ClientWorkPacket::with_timestamp(u64::MAX, work, 0x0102030405060708);
        let mut bytes = Vec::new();
        packet.to_vec(&mut bytes).unwrap();
        assert_eq!(ClientWorkPacket::from_bytes(&bytes), Ok(packet));
        bytes.extend_from_slice(&[0xEE; 30]);
        assert_eq!(ClientWorkPacket::from_bytes(&bytes), Ok(packet));
        assert_eq!(packet.id(), u64::MAX);
        assert_eq!(packet.work(), work);
        assert_eq!(packet.timestamp(), 0x0102030405060708);
    }
}

#[test]
fn response_round_trip() {
    for payload in [None, Some(vec![]), Some(vec![9u8; 64]), Some(vec![0u8; 1024])] {
        for status in [ServerWorkStatus::Completed, ServerWorkStatus::Failed] {
            let packet = ServerWorkPacket::new(status, 5000, 77, 1234, payload.clone());
            let mut bytes = Vec::new();
            packet.to_vec(&mut bytes).unwrap();
            assert_eq!(ServerWorkPacket::from_bytes(&bytes), Ok(packet.clone()));
            bytes.extend_from_slice(&[0xEE; 5]);
            if payload.is_some() {
                assert_eq!(
                    ServerWorkPacket::from_bytes(&bytes),
                    Err(CodecError::PayloadLength)
                );
            } else {
                assert_eq!(ServerWorkPacket::from_bytes(&bytes), Ok(packet.clone()));
            }
            assert_eq!(packet.status(), status);
            assert_eq!(packet.server_processing_time(), 5000);
            assert_eq!(packet.client_id(), 77);
            assert_eq!(packet.client_send_time(), 1234);
            assert_eq!(packet.payload_len(), payload.as_ref().map(|p| p.len()));
        }
    }
}

#[test]
fn request_decode_errors() {
    let mut bytes = Vec::new();
    ClientWorkPacket::with_timestamp(1, Work::Const(2), 3)
        .to_vec(&mut bytes)
        .unwrap();
    assert_eq!(bytes.len(), 28);
    for cut in 0..28 {
        assert_eq!(
            ClientWorkPacket::from_bytes(&bytes[..cut]),
            Err(CodecError::TooShort),
            "cut {}",
            cut
        );
    }
    let mut bad = bytes.clone();
    bad[8] = 6;
    assert_eq!(ClientWorkPacket::from_bytes(&bad), Err(CodecError::BadTag));
    let mut bad = bytes.clone();
    bad[11] = 1;
    assert_eq!(ClientWorkPacket::from_bytes(&bad), Err(CodecError::BadTag));
    let mut zero = Vec::new();
    zero.extend_from_slice(&1u64.to_le_bytes());
    zero.extend_from_slice(&3u32.to_le_bytes());
    zero.extend_from_slice(&0u64.to_le_bytes());
    zero.extend_from_slice(&9u64.to_le_bytes());
    assert_eq!(ClientWorkPacket::from_bytes(&zero), Err(CodecError::ZeroPoisson));
    assert_eq!(ClientWorkPacket::from_bytes(&[0u8; 20]).map(|p| p.work()), Ok(Work::Immediate));
    assert_eq!(ClientWorkPacket::from_bytes(&[0u8; 19]), Err(CodecError::TooShort));
}

#[test]
fn response_decode_errors() {
    let mut bytes = Vec::new();
    ServerWorkPacket::new(ServerWorkStatus::Completed, 1, 2, 3, Some(vec![7u8; 10]))
        .to_vec(&mut bytes)
        .unwrap();
    assert_eq!(bytes.len(), 47);
    for cut in 0..37 {
        assert_eq!(
            ServerWorkPacket::from_bytes(&bytes[..cut]),
            Err(CodecError::TooShort),
            "cut {}",
            cut
        );
    }
    for cut in 37..47 {
        assert_eq!(
            ServerWorkPacket::from_bytes(&bytes[..cut]),
            Err(CodecError::PayloadLength),
            "cut {}",
            cut
        );
    }
    let mut bad = bytes.clone();
    bad[0] = 2;
    assert_eq!(ServerWorkPacket::from_bytes(&bad), Err(CodecError::BadTag));
    let mut bad = bytes.clone();
    bad[28] = 2;
    assert_eq!(ServerWorkPacket::from_bytes(&bad), Err(CodecError::BadTag));
    let mut bad = bytes.clone();
    bad[36] = 0x80;
    assert_eq!(ServerWorkPacket::from_bytes(&bad), Err(CodecError::PayloadLength));
    let mut more = bytes.clone();
    more.push(0);
    assert_eq!(ServerWorkPacket::from_bytes(&more), Err(CodecError::PayloadLength));
    let mut less = bytes.clone();
    less[29] = 9;
    assert_eq!(ServerWorkPacket::from_bytes(&less), Err(CodecError::PayloadLength));
    let mut grown = bytes.clone();
    grown[29] = 11;
    assert_eq!(ServerWorkPacket::from_bytes(&grown), Err(CodecError::PayloadLength));
    grown.push(7);
    assert_eq!(
        ServerWorkPacket::from_bytes(&grown).map(|p| p.payload_len()),
        Ok(Some(11))
    );
    assert_eq!(
        ServerWorkPacket::from_bytes(&[0u8; 29]).map(|p| p.payload_len()),
        Ok(None)
    );
}

#[test]
fn to_bytes_writes_over_the_front() {
    let packet = ClientWorkPacket::with_timestamp(1, Work::Immediate, 42);
    let mut exact = Vec::new();
    packet.to_vec(&mut exact).unwrap();
    let mut buf = [0xCCu8; 24];
    assert_eq!(packet.to_bytes(&mut buf), Ok(20));
    assert_eq!(&buf[..20], &exact[..]);
    assert_eq!(&buf[20..], &[0xCC; 4]);
    let mut small = [0xCCu8; 19];
    assert_eq!(packet.to_bytes(&mut small), Err(CodecError::BufferTooSmall));
    assert_eq!(small, [0xCCu8; 19]);

    let response = ServerWorkPacket::new(ServerWorkStatus::Failed, 1, 2, 3, Some(vec![1, 2]));
    let mut buf = [0u8; 64];
    assert_eq!(response.to_bytes(&mut buf), Ok(39));
    assert_eq!(ServerWorkPacket::from_bytes(&buf[..39]), Ok(response));
    assert_eq!(ServerWorkPacket::from_bytes(&buf), Err(CodecError::PayloadLength));
}

#[test]
fn new_request_keeps_id_and_work() {
    let before = woonsocket::get_current_time_micros();
    let packet = ClientWorkPacket::new(17, Work::Const(5000));
    assert_eq!(packet.id(), 17);
    assert_eq!(packet.work(), Work::Const(5000));
    assert!(packet.timestamp() >= before);
    assert!(before > 1_500_000_000_000_000);
}

#[test]
fn do_work_echoes_the_request() {
    let request = ClientWorkPacket::with_timestamp(5, Work::Const(5000), 1000);
    let response = request.do_work(5003, None);
    assert_eq!(
        response,
        ServerWorkPacket::new(ServerWorkStatus::Completed, 5003, 5, 1000, None)
    );
    assert_eq!(response.payload_len(), None);
    let response = request.do_work(1, Some(vec![0u8; 256]));
    assert_eq!(response.payload_len(), Some(256));
    assert_eq!(response.status(), ServerWorkStatus::Completed);
}

#[test]
fn latency_is_half_of_the_round_trip_less_processing() {
    let response = ServerWorkPacket::new(ServerWorkStatus::Completed, 50, 1, 100, None);
    assert_eq!(
        response.calculate_latency(350),
        Some(LatencyRecord {
            latency: 100,
            send_timestamp: 100,
            server_processing_time: 50,
            recv_timestamp: 350,
        })
    );
    assert!(!response.is_inconsistent(350));
    assert_eq!(response.calculate_latency(151).map(|r| r.latency), Some(0));
    assert_eq!(response.calculate_latency(150).map(|r| r.latency), Some(0));
    assert_eq!(response.calculate_latency(153).map(|r| r.latency), Some(1));
}

#[test]
fn latency_of_a_failed_response_is_none() {
    let response = ServerWorkPacket::new(ServerWorkStatus::Failed, 50, 1, 100, None);
    assert_eq!(response.calculate_latency(350), None);
    assert_eq!(response.calculate_latency(0), None);
    assert_eq!(response.calculate_latency(u64::MAX), None);
    assert!(!response.is_inconsistent(0));
}

#[test]
fn latency_with_times_that_disagree_is_none() {
    let response = ServerWorkPacket::new(ServerWorkStatus::Completed, 50, 1, 100, None);
    assert_eq!(response.calculate_latency(99), None);
    assert!(response.is_inconsistent(99));
    assert_eq!(response.calculate_latency(149), None);
    assert!(response.is_inconsistent(149));
    let response = ServerWorkPacket::new(ServerWorkStatus::Completed, 0, 1, 0, None);
    assert_eq!(response.calculate_latency(u64::MAX).map(|r| r.latency), Some(u64::MAX / 2));
}

#[test]
fn random_work_is_valid() {
    let mut kinds = [false; 5];
    for _ in 0..600 {
        match generate_random_work() {
            Work::Immediate => kinds[0] = true,
            Work::Const(a) => {
                kinds[1] = true;
                assert!((1..100).contains(&a));
            }
            Work::Poisson(r) => {
                kinds[2] = true;
                assert!((1..100).contains(&r.get()));
            }
            Work::BusyTimeConst(a) => {
                kinds[3] = true;
                assert!((1..100).contains(&a));
            }
            Work::BusyWorkConst(a) => {
                kinds[4] = true;
                assert!((1..100).contains(&a));
            }
            Work::Payload => panic!("no payload work is drawn"),
        }
    }
    assert!(kinds.iter().all(|k| *k));
}
