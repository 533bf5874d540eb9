use firmware_common::delta_logger::delta_factory::can_encode;
use firmware_common::delta_logger::delta_factory::{DeltaFactory, UnDeltaFactory};
use firmware_common::delta_logger::delta_logger::{
    DeltaLogger, DeltaLoggerReader, ReadStep, UnixTimestampLog,
};
use firmware_common::delta_logger::timestamp::TimestampTicks as Ts;
use firmware_common::either::Either;

fn unix(boot: u64, unix: u64) -> UnixTimestampLog {
    UnixTimestampLog {
        boot_timestamp: boot,
        unix_timestamp: unix,
    }
}

type Logger = DeltaLogger<Ts, Ts, UnixTimestampLog, 32>;
type Reader = DeltaLoggerReader<Ts, Ts, UnixTimestampLog, 32>;

fn read_all(bytes: &[u8]) -> Vec<Either<(Ts, Ts), UnixTimestampLog>> {
    let mut reader = Reader::new();
    let mut pos = 0;
    let mut out = Vec::new();
    loop {
        match reader.inner_read() {
            ReadStep::Data(d) => out.push(d),
            ReadStep::TryAgain => {}
            ReadStep::NeedMoreBits(_) => {
                let room = reader.prepare_replenish();
                let n = room.min(bytes.len() - pos);
                if n == 0 {
                    return out;
                }
                reader.commit_replenish(&bytes[pos..pos + n]);
                pos += n;
            }
        }
    }
}

#[test]
fn logged_readings_read_back() {
    let readings = [
        (0u64, 100u64),
        (10, 103),
        (20, 103),
        (300, 90),
        (310, 95),
        (320, 50),
        (321, 51),
    ];
    let mut logger = Logger::new();
    let mut bytes = Vec::new();
    for (i, (t, d)) in readings.iter().enumerate() {
        logger.log(Ts(*t), Ts(*d));
        if i == 3 {
            logger.log_unix_time(unix(300, 1_700_000_000));
        }
        bytes.extend(logger.take_output());
    }
    logger.flush();
    bytes.extend(logger.take_output());

    let out = read_all(&bytes);
    let mut expected: Vec<Either<(Ts, Ts), UnixTimestampLog>> = readings
        .iter()
        .map(|(t, d)| Either::Left((Ts(*t), Ts(*d))))
        .collect();
    expected.insert(4, Either::Right(unix(300, 1_700_000_000)));
    assert_eq!(out, expected);
}

#[test]
fn unix_time_after_unix_time_is_kept_back() {
    let mut logger = Logger::new();
    logger.log(Ts(5), Ts(1));
    logger.log_unix_time(unix(1, 11));
    logger.log_unix_time(unix(2, 22));
    logger.log(Ts(6), Ts(2));
    logger.flush();
    let bytes = logger.take_output();
    let out = read_all(&bytes);
    assert_eq!(
        out,
        vec![
            Either::Left((Ts(5), Ts(1))),
            Either::Right(unix(1, 11)),
            Either::Left((Ts(6), Ts(2))),
        ]
    );
    assert_eq!(logger.last_timestamp_value(), &Some(Ts(6)));
}

#[test]
fn deltas_are_smaller_than_full_entries() {
    let mut logger = Logger::new();
    logger.log(Ts(0), Ts(0));
    logger.flush();
    let full = logger.take_output().len();
    let mut logger = Logger::new();
    logger.log(Ts(0), Ts(0));
    for i in 1..9u64 {
        logger.log(Ts(i), Ts(i));
    }
    logger.flush();
    let bytes = logger.take_output();
    // the header, 64 + 64 bits, then 8 entries of 2 + 8 + 8 bits, then the end code
    assert_eq!(full, (3 + 64 + 64 + 3 + 7) / 8);
    assert_eq!(bytes.len(), (3 + 64 + 64 + 8 * 18 + 3 + 7) / 8);
    assert_eq!(read_all(&bytes).len(), 9);
}

#[test]
fn reader_waits_for_whole_entries() {
    let mut logger = Logger::new();
    logger.log(Ts(7), Ts(9));
    logger.flush();
    let bytes = logger.take_output();
    let mut reader = Reader::new();
    assert!(matches!(reader.inner_read(), ReadStep::NeedMoreBits(2)));
    reader.prepare_replenish();
    reader.commit_replenish(&bytes[..1]);
    // 110 is a full-timestamp header: 3 + 64 + 64 bits are needed
    assert!(matches!(reader.inner_read(), ReadStep::NeedMoreBits(131)));
    assert_eq!(reader.len_bits(), 8);
    reader.prepare_replenish();
    reader.commit_replenish(&bytes[1..]);
    match reader.inner_read() {
        ReadStep::Data(Either::Left((t, d))) => {
            assert_eq!(t, Ts(7));
            assert_eq!(d, Ts(9));
        }
        _ => panic!("expected a reading"),
    }
    assert!(matches!(reader.inner_read(), ReadStep::TryAgain));
    assert!(matches!(reader.inner_read(), ReadStep::NeedMoreBits(2)));
}

#[test]
fn delta_factories_pair_up() {
    let mut factory = DeltaFactory::<Ts>::new();
    let mut undelta = UnDeltaFactory::<Ts>::new();
    let a = factory.push(Ts(100));
    assert!(matches!(a, Either::Left(Ts(100))));
    let b = factory.push(Ts(150));
    assert!(matches!(b, Either::Right(50)));
    let c = factory.push(Ts(1000));
    assert!(matches!(c, Either::Left(Ts(1000))));
    assert_eq!(undelta.push_delta(1), None);
    assert_eq!(undelta.push(a.unwrap_left()), Ts(100));
    assert_eq!(undelta.push_delta(b.unwrap_right()), Some(Ts(150)));
    assert_eq!(undelta.push(c.unwrap_left()), Ts(1000));
    factory.push_no_delta(Ts(5));
    assert_eq!(factory.last_value, Some(Ts(5)));
}

#[test]
fn logger_checks_before_logging() {
    assert!(Logger::capacity_ok());
    assert!(!DeltaLogger::<Ts, Ts, UnixTimestampLog, 17>::capacity_ok());
    assert!(DeltaLogger::<Ts, Ts, UnixTimestampLog, 18>::capacity_ok());
    assert!(can_encode(&None, &Ts(5)));
    assert!(can_encode(&Some(Ts(1)), &Ts(5)));
    // a delta that does not fit is no delta: the value goes out whole
    assert!(can_encode(&Some(Ts(1)), &Ts(1000)));
    let mut logger = Logger::new();
    assert!(logger.accepts(&Ts(0), &Ts(0)));
    logger.log(Ts(0), Ts(7));
    assert!(logger.accepts(&Ts(3), &Ts(9)));
    assert_eq!(logger.last_data_value(), &Some(Ts(7)));
    assert!(!logger.last_entry_is_unix_time());
    logger.log_unix_time(unix(1, 2));
    assert!(logger.last_entry_is_unix_time());
}

#[test]
fn test_delta_factory() {
    // readings in hundredths of a volt: 20.00 V, then 20.05 V
    let a = Ts(2000);
    let b = Ts(2005);

    let mut factory = DeltaFactory::<Ts>::new();
    let a_out = factory.push(a).unwrap_left();
    let b_out = factory.push(b).unwrap_right();
    assert_eq!(a_out, Ts(2000));
    assert_eq!(b_out, 5);

    let mut undelta_factory = UnDeltaFactory::<Ts>::new();
    assert_eq!(undelta_factory.push(a_out), a);
    assert_eq!(undelta_factory.push_delta(b_out).unwrap(), b);
}

#[test]
fn readings_too_close_are_ignored() {
    let mut logger = Logger::new();
    assert!(logger.log(Ts(10), Ts(1)));
    logger.log_unix_time(unix(1, 11));
    logger.log_unix_time(unix(2, 22));
    // at the same tick, and before it: nothing changes
    assert!(!logger.log(Ts(10), Ts(5)));
    assert!(!logger.log(Ts(9), Ts(5)));
    assert_eq!(logger.last_timestamp_value(), &Some(Ts(10)));
    assert_eq!(logger.last_data_value(), &Some(Ts(1)));
    assert!(logger.last_entry_is_unix_time());
    assert!(logger.accepts(&Ts(9), &Ts(5)));
    assert!(logger.log(Ts(11), Ts(2)));
    logger.flush();
    let bytes = logger.take_output();
    assert_eq!(
        read_all(&bytes),
        vec![
            Either::Left((Ts(10), Ts(1))),
            Either::Right(unix(1, 11)),
            Either::Left((Ts(11), Ts(2))),
        ]
    );
}

#[test]
fn readings_after_a_flush_read_back() {
    let mut logger = Logger::new();
    let mut bytes = Vec::new();
    assert!(logger.log(Ts(1), Ts(10)));
    logger.flush();
    bytes.extend(logger.take_output());
    assert!(logger.log(Ts(2), Ts(11)));
    logger.log_unix_time(unix(2, 99));
    logger.flush();
    bytes.extend(logger.take_output());
    assert!(logger.log(Ts(3), Ts(12)));
    logger.flush();
    bytes.extend(logger.take_output());
    assert_eq!(
        read_all(&bytes),
        vec![
            Either::Left((Ts(1), Ts(10))),
            Either::Left((Ts(2), Ts(11))),
            Either::Right(unix(2, 99)),
            Either::Left((Ts(3), Ts(12))),
        ]
    );
}

#[test]
fn end_of_byte_code_is_read_with_its_byte() {
    // the bits of 0x07 are 1, 1, 1, 0, 0, 0, 0, 0: the end-of-byte code, then padding
    let mut reader = Reader::new();
    reader.prepare_replenish();
    reader.commit_replenish(&[0x07]);
    assert!(matches!(reader.inner_read(), ReadStep::TryAgain));
    assert_eq!(reader.len_bits(), 0);
    assert!(matches!(reader.inner_read(), ReadStep::NeedMoreBits(2)));
}

#[test]
fn flush_pads_to_whole_bytes() {
    let mut logger = Logger::new();
    logger.flush();
    assert_eq!(logger.take_output(), vec![0x07]);
    assert!(logger.log(Ts(0), Ts(0)));
    // 3 + 64 + 64 bits, then the 3 bits of the end code: 134 bits, 17 bytes
    logger.flush();
    assert_eq!(logger.take_output().len(), 17);
}

#[test]
fn decoder_rebuilds_a_whole_run() {
    let values = [100u64, 150, 1000, 1010, 1265, 1266, 3];
    let mut factory = DeltaFactory::<Ts>::new();
    let mut undelta = UnDeltaFactory::<Ts>::new();
    for v in values {
        let out = match factory.push(Ts(v)) {
            Either::Left(x) => {
                assert_eq!(x, Ts(v));
                Some(undelta.push(x))
            }
            Either::Right(d) => undelta.push_delta(d),
        };
        assert_eq!(out, factory.last_value);
        assert_eq!(out, Some(Ts(v)));
    }
}
