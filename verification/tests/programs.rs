use firmware_common::debounced_signal::Debouncer;
use firmware_common::console::calibrate::{
    state_reply, state_sound, CalibrationAxis, CalibrationDirection, CalibrationEvent,
    CalibratorState, SoundStep,
};
use firmware_common::delta_logger::merged_logger::{first_error, MergedLoggerError};
use firmware_common::delta_logger::ring::{LogRing, SegmentPlan};
use firmware_common::indicator::blink_steps;

fn play(frequency: u32, duration_ms: u32) -> SoundStep {
    SoundStep::Play {
        frequency,
        duration_ms,
    }
}

fn pause(ms: u32) -> SoundStep {
    SoundStep::Pause { ms }
}

#[test]
fn merged_results() {
    let r = MergedLoggerError::<u8, u16>::from_results::<u8, u8>(Ok(1), Ok(2));
    assert!(matches!(r, Ok((1, 2))));
    let r = MergedLoggerError::<u8, u16>::from_results::<u8, u8>(Err(3), Ok(2));
    assert!(matches!(r, Err(MergedLoggerError::Logger1(3))));
    let r = MergedLoggerError::<u8, u16>::from_results::<u8, u8>(Ok(1), Err(4));
    assert!(matches!(r, Err(MergedLoggerError::Logger2(4))));
    let r = MergedLoggerError::<u8, u16>::from_results::<u8, u8>(Err(3), Err(4));
    assert!(matches!(r, Err(MergedLoggerError::Both(3, 4))));
    assert!(matches!(
        MergedLoggerError::<u8, u8>::logged_by_either(Ok(false), Ok(true)),
        Ok(true)
    ));
    assert!(matches!(
        MergedLoggerError::<u8, u8>::logged_by_either(Ok(false), Ok(false)),
        Ok(false)
    ));
    assert_eq!(first_error::<u8>(Err(1), Err(2)), Err(1));
    assert_eq!(first_error::<u8>(Ok(()), Err(2)), Err(2));
    assert_eq!(first_error::<u8>(Ok(()), Ok(())), Ok(()));
}

#[test]
fn log_ring_counts_logged_readings() {
    let mut ring = LogRing::new(2, 2, 1);
    assert!(matches!(ring.before_log(), SegmentPlan::Skip));
    ring.after_log(true);
    assert!(matches!(ring.before_log(), SegmentPlan::Skip));
    ring.after_log(false);
    assert!(matches!(ring.before_log(), SegmentPlan::Skip));
    ring.after_log(true);
    assert_eq!(ring.current_segment_logs_value(), 2);
    assert!(matches!(
        ring.before_log(),
        SegmentPlan::Create {
            remove_oldest: false
        }
    ));
    assert_eq!(ring.current_segment_logs_value(), 0);
    ring.after_log(true);
    ring.after_log(true);
    assert!(matches!(
        ring.before_log(),
        SegmentPlan::Create { remove_oldest: true }
    ));
}

#[test]
fn blink_pattern_steps() {
    assert_eq!(
        blink_steps(&[100, 200, 0, 50, 300]),
        vec![(true, 100), (false, 200), (false, 50), (true, 300)]
    );
    assert_eq!(blink_steps(&[0, 0, 10]), vec![(true, 10)]);
    assert_eq!(blink_steps(&[]), vec![]);
}

#[test]
fn calibration_sounds() {
    assert_eq!(
        state_sound(CalibratorState::WaitingStill),
        vec![
            play(1000, 50),
            pause(150),
            play(1250, 50),
            pause(150),
            play(1000, 50),
            pause(150),
            play(1250, 50),
            pause(150)
        ]
    );
    assert_eq!(
        state_sound(CalibratorState::State(
            CalibrationAxis::Y,
            CalibrationDirection::Minus,
            CalibrationEvent::End
        )),
        vec![
            play(2700, 50),
            pause(150),
            play(2700, 50),
            pause(150),
            pause(250),
            play(3500, 50),
            pause(150),
            play(2000, 50),
            pause(400),
            play(1500, 250)
        ]
    );
    let rotation = state_sound(CalibratorState::State(
        CalibrationAxis::X,
        CalibrationDirection::Rotation,
        CalibrationEvent::Start,
    ));
    assert_eq!(rotation.len(), 3 + 15 + 1 + 3);
    assert_eq!(rotation[3], play(2000, 4));
    assert_eq!(rotation[17], play(3400, 4));
    assert_eq!(rotation[18], pause(400));
    assert!(state_sound(CalibratorState::State(
        CalibrationAxis::Z,
        CalibrationDirection::Plus,
        CalibrationEvent::Variance
    ))
    .is_empty());
    assert_eq!(state_sound(CalibratorState::Success)[6], play(1750, 50));
    assert_eq!(state_sound(CalibratorState::Failure)[0], play(1750, 50));
    assert!(state_sound(CalibratorState::Idle).is_empty());
    assert_eq!(state_reply(CalibratorState::Success), Some(1));
    assert_eq!(state_reply(CalibratorState::Failure), Some(0));
    assert_eq!(state_reply(CalibratorState::Idle), None);
}

#[test]
fn debouncer_passes_values_that_hold() {
    let mut d = Debouncer::<u8>::new();
    assert!(!d.timer_armed());
    assert_eq!(d.on_timeout(), None);
    assert_eq!(d.on_change(1), Some(1));
    assert!(!d.timer_armed());
    assert_eq!(d.on_change(2), None);
    assert!(d.timer_armed());
    assert_eq!(d.on_change(1), None);
    // back to the value that went out: nothing new to pass on
    assert_eq!(d.on_timeout(), None);
    assert_eq!(d.on_change(3), None);
    assert_eq!(d.on_timeout(), Some(3));
    assert_eq!(d.on_timeout(), None);
}
