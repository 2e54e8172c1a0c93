use woonsocket::app::{busy_wait_over, Effort, NonZeroMicros, Work, WorkParseErr};
use woonsocket::decimal::AmountError;

#[test]
fn parse_work_immediate() {
    assert!(matches!(
        "immediate".parse().expect("parse immediate"),
        Work::Immediate
    ));
    assert!(matches!(
        "imm".parse().expect("parse immediate"),
        Work::Immediate
    ));

    assert!(matches!(
        "imm:2".parse::<Work>(),
        Err(WorkParseErr::UnknownFmt(_))
    ));

    assert!(matches!(
        "imm:foo".parse::<Work>(),
        Err(WorkParseErr::UnknownFmt(_))
    ));

    assert!(matches!(
        "foo".parse::<Work>(),
        Err(WorkParseErr::UnknownFmt(_))
    ));
}

#[test]
fn parse_work_const() {
    assert!(matches!(
        "const:2".parse().expect("parse const"),
        Work::Const(2)
    ));

    assert!(matches!(
        "const".parse::<Work>(),
        Err(WorkParseErr::UnknownFmt(_))
    ));

    assert!(matches!(
        "const:foo".parse::<Work>(),
        Err(WorkParseErr::U64Parse(_))
    ));
}

#[test]
fn parse_work_poisson() {
    assert!(matches!(
        "poisson:2".parse().expect("parse poisson"),
        Work::Poisson(x) if x.get() == 2
    ));

    assert!(matches!(
        "poisson:0".parse::<Work>(),
        Err(WorkParseErr::ZeroPoissonValue)
    ));

    assert!(matches!(
        "poisson:foo".parse::<Work>(),
        Err(WorkParseErr::U64Parse(_))
    ));
}

#[test]
fn parse_work_busytime() {
    assert!(matches!(
        "bt:2".parse().expect("parse BusyTimeConst"),
        Work::BusyTimeConst(2)
    ));

    assert!(matches!(
        "busytime:2".parse().expect("parse BusyTimeConst"),
        Work::BusyTimeConst(2)
    ));

    assert!(matches!(
        "busytime:foo".parse::<Work>(),
        Err(WorkParseErr::U64Parse(_))
    ));
}

#[test]
fn parse_work_busywork() {
    assert!(matches!(
        "bw:2".parse().expect("parse BusyWorkConst"),
        Work::BusyWorkConst(2)
    ));

    assert!(matches!(
        "busywork:2".parse().expect("parse BusyWorkConst"),
        Work::BusyWorkConst(2)
    ));

    assert!(matches!(
        "busywork:foo".parse::<Work>(),
        Err(WorkParseErr::U64Parse(_))
    ));
}

#[test]
fn parse_work_payload() {
    assert_eq!(Work::parse("payload").ok(), Some(Work::Payload));
    assert!(matches!(
        Work::parse("payload:3"),
        Err(WorkParseErr::UnknownFmt(_))
    ));
}

#[test]
fn parse_keeps_the_text_of_an_unknown_format() {
    match Work::parse("const:1:2") {
        Err(WorkParseErr::UnknownFmt(text)) => assert_eq!(text, "const:1:2"),
        _ => panic!("a second colon is an unknown format"),
    }
    match Work::parse("") {
        Err(WorkParseErr::UnknownFmt(text)) => assert_eq!(text, ""),
        _ => panic!("the empty text is an unknown format"),
    }
    assert!(matches!(Work::parse(":"), Err(WorkParseErr::UnknownFmt(_))));
    assert!(matches!(Work::parse("Const:1"), Err(WorkParseErr::UnknownFmt(_))));
}

#[test]
fn parse_amount_errors_are_classified() {
    assert!(matches!(
        Work::parse("const:"),
        Err(WorkParseErr::U64Parse(AmountError::Empty))
    ));
    assert!(matches!(
        Work::parse("const:12x"),
        Err(WorkParseErr::U64Parse(AmountError::InvalidDigit))
    ));
    assert!(matches!(
        Work::parse("const:-1"),
        Err(WorkParseErr::U64Parse(AmountError::InvalidDigit))
    ));
    assert!(matches!(
        Work::parse("const:+"),
        Err(WorkParseErr::U64Parse(AmountError::InvalidDigit))
    ));
    assert!(matches!(
        Work::parse("const:18446744073709551616"),
        Err(WorkParseErr::U64Parse(AmountError::Overflow))
    ));
    assert!(matches!(
        Work::parse("const:99999999999999999999x"),
        Err(WorkParseErr::U64Parse(AmountError::Overflow))
    ));
    assert!(matches!(
        Work::parse("poisson:"),
        Err(WorkParseErr::U64Parse(AmountError::Empty))
    ));
}

#[test]
fn parse_amount_accepts_what_u64_accepts() {
    assert_eq!(Work::parse("const:0").ok(), Some(Work::Const(0)));
    assert_eq!(Work::parse("const:+7").ok(), Some(Work::Const(7)));
    assert_eq!(Work::parse("const:007").ok(), Some(Work::Const(7)));
    assert_eq!(
        Work::parse("bw:18446744073709551615").ok(),
        Some(Work::BusyWorkConst(u64::MAX))
    );
    for text in ["0", "+7", "007", "18446744073709551615", "", "+", "1a", "18446744073709551616"] {
        let ours = woonsocket::decimal::parse_amount(text).ok();
        assert_eq!(ours, text.parse::<u64>().ok(), "amount {:?}", text);
    }
}

#[test]
fn work_to_string_is_canonical() {
    assert_eq!(Work::Immediate.to_string(), "imm");
    assert_eq!(Work::Payload.to_string(), "payload");
    assert_eq!(Work::Const(5000).to_string(), "const:5000");
    assert_eq!(Work::Const(0).to_string(), "const:0");
    assert_eq!(
        Work::Poisson(NonZeroMicros::new(12).unwrap()).to_string(),
        "poisson:12"
    );
    assert_eq!(Work::BusyTimeConst(10).to_string(), "busytime:10");
    assert_eq!(
        Work::BusyWorkConst(u64::MAX).to_string(),
        "busywork:18446744073709551615"
    );
}

#[test]
fn work_text_round_trip() {
    let works = [
        Work::Immediate,
        Work::Payload,
        Work::Const(0),
        Work::Const(1),
        Work::Const(9),
        Work::Const(10),
        Work::Const(u64::MAX),
        Work::Poisson(NonZeroMicros::new(1).unwrap()),
        Work::Poisson(NonZeroMicros::new(u64::MAX).unwrap()),
        Work::BusyTimeConst(123456789),
        Work::BusyWorkConst(1000),
    ];
    for work in works {
        assert_eq!(Work::parse(&work.to_string()).ok(), Some(work));
    }
}

#[test]
fn non_zero_micros_refuses_zero() {
    assert!(NonZeroMicros::new(0).is_none());
    assert_eq!(NonZeroMicros::new(3).map(|r| r.get()), Some(3));
}

#[test]
fn effort_of_each_kind() {
    assert_eq!(Work::Immediate.effort(), Effort::Nothing);
    assert_eq!(Work::Payload.effort(), Effort::Nothing);
    assert_eq!(Work::Const(5000).effort(), Effort::BusyWait(5000));
    assert_eq!(Work::BusyTimeConst(7).effort(), Effort::BusyWait(7));
    let rate = NonZeroMicros::new(30).unwrap();
    assert_eq!(Work::Poisson(rate).effort(), Effort::PoissonWait(rate));
    assert_eq!(Work::BusyWorkConst(9).effort(), Effort::Iterate(9));
}

#[test]
fn busy_wait_ends_at_the_target() {
    assert!(!busy_wait_over(0, 5000));
    assert!(!busy_wait_over(4999, 5000));
    assert!(busy_wait_over(5000, 5000));
    assert!(busy_wait_over(5001, 5000));
    assert!(busy_wait_over(0, 0));
}

#[test]
fn payload_only_for_payload_work() {
    assert!(Work::Immediate.payload().is_none());
    assert!(Work::Const(5000).payload().is_none());
    assert!(Work::BusyWorkConst(5).payload().is_none());
    let mut seen = [false; 4];
    for _ in 0..400 {
        let buf = Work::Payload.payload().expect("payload work answers with a buffer");
        let at = [64usize, 256, 512, 1024]
            .iter()
            .position(|n| *n == buf.len())
            .expect("one of the four sizes");
        seen[at] = true;
        assert!(buf.iter().all(|b| *b == 0));
    }
    assert!(seen.iter().all(|s| *s), "every size turns up in 400 draws");
}

#[test]
fn work_from_draw_covers_every_kind() {
    let amount = NonZeroMicros::new(42).unwrap();
    assert_eq!(Work::from_draw(0, amount), Work::Immediate);
    assert_eq!(Work::from_draw(1, amount), Work::Const(42));
    assert_eq!(Work::from_draw(2, amount), Work::Poisson(amount));
    assert_eq!(Work::from_draw(3, amount), Work::BusyTimeConst(42));
    assert_eq!(Work::from_draw(4, amount), Work::BusyWorkConst(42));
    assert_eq!(Work::from_draw(5, amount), Work::Immediate);
}
