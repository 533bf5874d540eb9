use firmware_common::delta_factory::can_encode;
use firmware_common::delta_factory::{DeltaFactory, UnDeltaFactory};
use firmware_common::delta_logger::timestamp::TimestampTicks as Ts;
use firmware_common::delta_logger2::delta_logger::{DeltaLogger, DeltaLoggerReader, ReadStep};
use firmware_common::either::Either;

type Logger = DeltaLogger<Ts, Ts, 24>;
type Reader = DeltaLoggerReader<Ts, Ts, 24>;

fn read_all(bytes: &[u8]) -> Vec<(Ts, Ts)> {
    let mut reader = Reader::new();
    let mut pos = 0;
    let mut out = Vec::new();
    loop {
        match reader.inner_read() {
            ReadStep::Data(d) => out.push(d),
            ReadStep::TryAgain => {}
            ReadStep::NeedMoreBits(_) => {
                let room = reader.prepare_replenish();
                let n = room.min(bytes.len() - pos);
                if n == 0 {
                    return out;
                }
                reader.commit_replenish(&bytes[pos..pos + n]);
                pos += n;
            }
        }
    }
}

fn log_all(readings: &[(u64, u64)]) -> Vec<u8> {
    let mut logger = Logger::new();
    let mut bytes = Vec::new();
    for (t, d) in readings {
        logger.log(Ts(*t), Ts(*d));
        bytes.extend(logger.take_output());
    }
    logger.flush();
    bytes.extend(logger.take_output());
    bytes
}

#[test]
fn readings_read_back() {
    let readings = [(0u64, 100u64), (10, 103), (20, 103), (30, 50), (40, 51)];
    let bytes = log_all(&readings);
    let expected: Vec<(Ts, Ts)> = readings.iter().map(|(t, d)| (Ts(*t), Ts(*d))).collect();
    assert_eq!(read_all(&bytes), expected);
    // whole timestamp and data; then whole data, as the logger's data
    // factory holds nothing yet; a delta; whole data again, as 50 is below
    // 103; a delta; then the end mark
    assert_eq!(bytes.len(), (130 + 74 + 18 + 74 + 18 + 2 + 7) / 8);
}

#[test]
fn whole_timestamp_leaves_data_factory_behind() {
    // the third reading goes out with a whole timestamp; the logger's data
    // factory still stands at 103, the reader's at 50, so the delta of the
    // fourth reading is applied to different data on each side
    let readings = [(0u64, 100u64), (10, 103), (1000, 50), (1001, 104)];
    let bytes = log_all(&readings);
    assert_eq!(
        read_all(&bytes),
        vec![
            (Ts(0), Ts(100)),
            (Ts(10), Ts(103)),
            (Ts(1000), Ts(50)),
            (Ts(1001), Ts(51)),
        ]
    );
}

#[test]
fn end_mark_is_skipped() {
    let mut logger = Logger::new();
    logger.log(Ts(1), Ts(2));
    logger.flush();
    let bytes = logger.take_output();
    let mut reader = Reader::new();
    reader.prepare_replenish();
    reader.commit_replenish(&bytes[..1]);
    assert!(matches!(reader.inner_read(), ReadStep::NeedMoreBits(130)));
    reader.prepare_replenish();
    reader.commit_replenish(&bytes[1..]);
    assert!(matches!(reader.inner_read(), ReadStep::Data((Ts(1), Ts(2)))));
    assert!(matches!(reader.inner_read(), ReadStep::TryAgain));
    assert_eq!(reader.len_bits(), 0);
    assert_eq!(logger.last_timestamp_value(), &Some(Ts(1)));
}

#[test]
fn plain_delta_factories_pair_up() {
    let mut factory = DeltaFactory::<Ts>::new();
    let mut undelta = UnDeltaFactory::<Ts>::new();
    let a = factory.push(Ts(10));
    let b = factory.push(Ts(12));
    let c = factory.push(Ts(5));
    assert!(matches!(a, Either::Left(Ts(10))));
    assert!(matches!(b, Either::Right(2)));
    assert!(matches!(c, Either::Left(Ts(5))));
    assert_eq!(factory.last_value(), &Some(Ts(5)));
    assert_eq!(undelta.push_delta(2), None);
    assert_eq!(undelta.push(Ts(10)), Ts(10));
    assert_eq!(undelta.push_delta(2), Some(Ts(12)));
}

#[test]
fn logger2_checks_before_logging() {
    assert!(Logger::capacity_ok());
    assert!(!DeltaLogger::<Ts, Ts, 17>::capacity_ok());
    assert!(DeltaLogger::<Ts, Ts, 18>::capacity_ok());
    assert!(can_encode(&Some(Ts(3)), &Ts(4)));
    let mut logger = Logger::new();
    logger.log(Ts(0), Ts(7));
    assert!(logger.accepts(&Ts(1), &Ts(8)));
    // a whole timestamp leaves the data factory empty
    assert_eq!(logger.last_data_value(), &None);
    logger.log(Ts(1), Ts(8));
    assert_eq!(logger.last_data_value(), &Some(Ts(8)));
}

#[test]
fn readings_too_close_are_ignored_in_two_bit_format() {
    let mut logger = Logger::new();
    assert!(logger.log(Ts(4), Ts(7)));
    assert!(!logger.log(Ts(4), Ts(9)));
    assert!(!logger.log(Ts(3), Ts(9)));
    assert_eq!(logger.last_timestamp_value(), &Some(Ts(4)));
    assert!(logger.log(Ts(5), Ts(9)));
    logger.flush();
    let bytes = logger.take_output();
    assert_eq!(read_all(&bytes), vec![(Ts(4), Ts(7)), (Ts(5), Ts(9))]);
}

#[test]
fn readings_after_a_flush_read_back_in_two_bit_format() {
    let mut logger = Logger::new();
    let mut bytes = Vec::new();
    assert!(logger.log(Ts(1), Ts(10)));
    logger.flush();
    bytes.extend(logger.take_output());
    assert!(logger.log(Ts(2), Ts(11)));
    logger.flush();
    bytes.extend(logger.take_output());
    assert!(logger.log(Ts(3), Ts(12)));
    logger.flush();
    bytes.extend(logger.take_output());
    assert_eq!(
        read_all(&bytes),
        vec![(Ts(1), Ts(10)), (Ts(2), Ts(11)), (Ts(3), Ts(12))]
    );
}

#[test]
fn lone_flush_is_one_byte() {
    let mut logger = Logger::new();
    logger.flush();
    // the end mark 1, 0 and six zero bits of padding
    assert_eq!(logger.take_output(), vec![0x01]);
}
