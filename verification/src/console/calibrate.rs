use vstd::prelude::*;

verus! {

/// A step of a sound: a tone, or a pause, in milliseconds.
#[derive(Debug, Clone, Copy, PartialEq, Eq, Structural)]
pub enum SoundStep {
    Play { frequency: u32, duration_ms: u32 },
    Pause { ms: u32 },
}

/// The axis the calibration asks about.
#[derive(Debug, Clone, Copy, PartialEq, Eq, Structural)]
pub enum CalibrationAxis {
    X,
    Y,
    Z,
}

/// Which way the device is to be turned.
#[derive(Debug, Clone, Copy, PartialEq, Eq, Structural)]
pub enum CalibrationDirection {
    Plus,
    Minus,
    Rotation,
}

/// What happens in a calibration step.
#[derive(Debug, Clone, Copy, PartialEq, Eq, Structural)]
pub enum CalibrationEvent {
    Start,
    End,
    Variance,
}

/// Where an interactive calibration stands.
#[derive(Debug, Clone, Copy, PartialEq, Eq, Structural)]
pub enum CalibratorState {
    Idle,
    WaitingStill,
    State(CalibrationAxis, CalibrationDirection, CalibrationEvent),
    Success,
    Failure,
}

pub open spec fn play(frequency: u32, duration_ms: u32) -> SoundStep {
    SoundStep::Play { frequency, duration_ms }
}

pub open spec fn pause(ms: u32) -> SoundStep {
    SoundStep::Pause { ms }
}

/// Hold still: two rising pairs of short tones.
pub open spec fn spec_waiting_still_sound() -> Seq<SoundStep> {
    seq![play(1000, 50), pause(150), play(1250, 50), pause(150), play(1000, 50), pause(150), play(1250, 50), pause(150)]
}

/// One high beep per axis number, then a pause.
pub open spec fn spec_axis_sound(axis: CalibrationAxis) -> Seq<SoundStep> {
    let beep = seq![play(2700, 50), pause(150)];
    let beeps = match axis {
        CalibrationAxis::X => beep,
        CalibrationAxis::Y => beep + beep,
        CalibrationAxis::Z => beep + beep + beep,
    };
    beeps.push(pause(250))
}

/// A rising pair for plus, a falling pair for minus, a sweep from 2000 Hz
/// up in steps of 100 Hz for a rotation; then a pause.
pub open spec fn spec_direction_sound(direction: CalibrationDirection) -> Seq<SoundStep> {
    let tones = match direction {
        CalibrationDirection::Plus => seq![play(2000, 50), pause(150), play(3500, 50)],
        CalibrationDirection::Minus => seq![play(3500, 50), pause(150), play(2000, 50)],
        CalibrationDirection::Rotation => Seq::new(15, |i: int| play((2000 + 100 * i) as u32, 4)),
    };
    tones.push(pause(400))
}

/// Two short tones at the start, one long at the end, none for variance.
pub open spec fn spec_event_sound(event: CalibrationEvent) -> Seq<SoundStep> {
    match event {
        CalibrationEvent::Start => seq![play(1500, 25), pause(75), play(1500, 25)],
        CalibrationEvent::End => seq![play(1500, 250)],
        CalibrationEvent::Variance => Seq::empty(),
    }
}

/// Four tones from 1000 Hz up in steps of 250 Hz.
pub open spec fn spec_success_sound() -> Seq<SoundStep> {
    seq![play(1000, 50), pause(150), play(1250, 50), pause(150), play(1500, 50), pause(150), play(1750, 50), pause(150)]
}

/// The same four tones downwards.
pub open spec fn spec_failure_sound() -> Seq<SoundStep> {
    seq![play(1750, 50), pause(150), play(1500, 50), pause(150), play(1250, 50), pause(150), play(1000, 50), pause(150)]
}

/// What the buzzer plays when the calibration moves to `state`.
pub open spec fn spec_state_sound(state: CalibratorState) -> Seq<SoundStep> {
    match state {
        CalibratorState::WaitingStill => spec_waiting_still_sound(),
        CalibratorState::State(axis, direction, event) => if event == CalibrationEvent::Variance {
            Seq::empty()
        } else {
            spec_axis_sound(axis) + spec_direction_sound(direction) + spec_event_sound(event)
        },
        CalibratorState::Success => spec_success_sound(),
        CalibratorState::Failure => spec_failure_sound(),
        CalibratorState::Idle => Seq::empty(),
    }
}

/// The axis is told by counting high beeps: X one, Y two, Z three, each a
/// 2700 Hz tone of 50 ms and a pause of 150 ms, then a pause of 250 ms; so
/// the sounds of different axes differ.
pub proof fn lemma_axis_sound_beeps(a: CalibrationAxis, b: CalibrationAxis)
    ensures
        spec_axis_sound(CalibrationAxis::X) == seq![play(2700, 50), pause(150), pause(250)],
        spec_axis_sound(CalibrationAxis::Y) == seq![
            play(2700, 50),
            pause(150),
            play(2700, 50),
            pause(150),
            pause(250),
        ],
        spec_axis_sound(CalibrationAxis::Z) == seq![
            play(2700, 50),
            pause(150),
            play(2700, 50),
            pause(150),
            play(2700, 50),
            pause(150),
            pause(250),
        ],
        a != b ==> spec_axis_sound(a) != spec_axis_sound(b),
{
    assert(spec_axis_sound(CalibrationAxis::X) =~= seq![play(2700, 50), pause(150), pause(250)]);
    assert(spec_axis_sound(CalibrationAxis::Y) =~= seq![
        play(2700, 50),
        pause(150),
        play(2700, 50),
        pause(150),
        pause(250),
    ]);
    assert(spec_axis_sound(CalibrationAxis::Z) =~= seq![
        play(2700, 50),
        pause(150),
        play(2700, 50),
        pause(150),
        play(2700, 50),
        pause(150),
        pause(250),
    ]);
    if a != b {
        assert(spec_axis_sound(a).len() != spec_axis_sound(b).len());
    }
}

/// The other sounds of a calibration: plus rises from 2000 to 3500 Hz and
/// minus falls back, a rotation sweeps 15 short tones from 2000 Hz up in
/// steps of 100 Hz, each followed by a pause of 400 ms; a start is two short
/// 1500 Hz tones, an end one long, a variance nothing; success climbs four
/// tones from 1000 Hz in steps of 250 Hz and failure plays them downwards.
pub proof fn lemma_calibration_sounds(i: int)
    ensures
        spec_direction_sound(CalibrationDirection::Plus) == seq![
            play(2000, 50),
            pause(150),
            play(3500, 50),
            pause(400),
        ],
        spec_direction_sound(CalibrationDirection::Minus) == seq![
            play(3500, 50),
            pause(150),
            play(2000, 50),
            pause(400),
        ],
        spec_direction_sound(CalibrationDirection::Rotation).len() == 16,
        0 <= i < 15 ==> spec_direction_sound(CalibrationDirection::Rotation)[i] == play(
            (2000 + 100 * i) as u32,
            4,
        ),
        spec_direction_sound(CalibrationDirection::Rotation)[15] == pause(400),
        spec_event_sound(CalibrationEvent::Start) == seq![play(1500, 25), pause(75), play(1500, 25)],
        spec_event_sound(CalibrationEvent::End) == seq![play(1500, 250)],
        spec_event_sound(CalibrationEvent::Variance) == Seq::<SoundStep>::empty(),
        spec_success_sound() == seq![
            play(1000, 50),
            pause(150),
            play(1250, 50),
            pause(150),
            play(1500, 50),
            pause(150),
            play(1750, 50),
            pause(150),
        ],
        spec_failure_sound() == seq![
            play(1750, 50),
            pause(150),
            play(1500, 50),
            pause(150),
            play(1250, 50),
            pause(150),
            play(1000, 50),
            pause(150),
        ],
{
    assert(spec_direction_sound(CalibrationDirection::Plus) =~= seq![
        play(2000, 50),
        pause(150),
        play(3500, 50),
        pause(400),
    ]);
    assert(spec_direction_sound(CalibrationDirection::Minus) =~= seq![
        play(3500, 50),
        pause(150),
        play(2000, 50),
        pause(400),
    ]);
}

fn push_play(out: &mut Vec<SoundStep>, frequency: u32, duration_ms: u32)
    ensures
        final(out)@ == old(out)@.push(play(frequency, duration_ms)),
{
    out.push(SoundStep::Play { frequency, duration_ms });
}

fn push_pause(out: &mut Vec<SoundStep>, ms: u32)
    ensures
        final(out)@ == old(out)@.push(pause(ms)),
{
    out.push(SoundStep::Pause { ms });
}

fn waiting_still_sound(out: &mut Vec<SoundStep>)
    ensures
        final(out)@ == old(out)@ + spec_waiting_still_sound(),
{
    let mut k: usize = 0;
    while k < 2
        invariant
            k <= 2,
            out@ == old(out)@ + spec_waiting_still_sound().take(4 * k),
        decreases 2 - k,
    {
        push_play(out, 1000, 50);
        push_pause(out, 150);
        push_play(out, 1250, 50);
        push_pause(out, 150);
        assert(out@ =~= old(out)@ + spec_waiting_still_sound().take(4 * (k + 1)));
        k = k + 1;
    }
    assert(spec_waiting_still_sound().take(8) =~= spec_waiting_still_sound());
}

fn axis_sound(out: &mut Vec<SoundStep>, axis: CalibrationAxis)
    ensures
        final(out)@ == old(out)@ + spec_axis_sound(axis),
{
    let beep_count: usize = match axis {
        CalibrationAxis::X => 1,
        CalibrationAxis::Y => 2,
        CalibrationAxis::Z => 3,
    };
    let ghost beep = seq![play(2700, 50), pause(150)];
    let ghost beeps = match axis {
        CalibrationAxis::X => beep,
        CalibrationAxis::Y => beep + beep,
        CalibrationAxis::Z => beep + beep + beep,
    };
    assert(beeps.len() == 2 * beep_count);
    assert forall|j: int| 0 <= j < beeps.len() implies #[trigger] beeps[j] == if j % 2 == 0 {
        play(2700, 50)
    } else {
        pause(150)
    } by {}
    let mut k: usize = 0;
    while k < beep_count
        invariant
            k <= beep_count,
            beeps.len() == 2 * beep_count,
            forall|j: int| 0 <= j < beeps.len() ==> #[trigger] beeps[j] == if j % 2 == 0 {
                play(2700, 50)
            } else {
                pause(150)
            },
            out@ == old(out)@ + beeps.take(2 * k),
        decreases beep_count - k,
    {
        push_play(out, 2700, 50);
        push_pause(out, 150);
        assert(out@ =~= old(out)@ + beeps.take(2 * (k + 1)));
        k = k + 1;
    }
    assert(beeps.take(2 * beep_count as int) =~= beeps);
    push_pause(out, 250);
    assert(out@ =~= old(out)@ + spec_axis_sound(axis));
}

fn direction_sound(out: &mut Vec<SoundStep>, direction: CalibrationDirection)
    ensures
        final(out)@ == old(out)@ + spec_direction_sound(direction),
{
    match direction {
        CalibrationDirection::Plus => {
            push_play(out, 2000, 50);
            push_pause(out, 150);
            push_play(out, 3500, 50);
        },
        CalibrationDirection::Minus => {
            push_play(out, 3500, 50);
            push_pause(out, 150);
            push_play(out, 2000, 50);
        },
        CalibrationDirection::Rotation => {
            let ghost sweep = Seq::new(15, |i: int| play((2000 + 100 * i) as u32, 4));
            let mut frequency: u32 = 2000;
            let mut k: usize = 0;
            while frequency < 3500
                invariant
                    k <= 15,
                    frequency == 2000 + 100 * k,
                    sweep == Seq::new(15, |i: int| play((2000 + 100 * i) as u32, 4)),
                    out@ == old(out)@ + sweep.take(k as int),
                decreases 3500 - frequency,
            {
                push_play(out, frequency, 4);
                assert(out@ =~= old(out)@ + sweep.take(k + 1));
                frequency = frequency + 100;
                k = k + 1;
            }
            assert(sweep.take(15) =~= sweep);
        },
    }
    push_pause(out, 400);
    assert(out@ =~= old(out)@ + spec_direction_sound(direction));
}

fn event_sound(out: &mut Vec<SoundStep>, event: CalibrationEvent)
    ensures
        final(out)@ == old(out)@ + spec_event_sound(event),
{
    match event {
        CalibrationEvent::Start => {
            push_play(out, 1500, 25);
            push_pause(out, 75);
            push_play(out, 1500, 25);
        },
        CalibrationEvent::End => {
            push_play(out, 1500, 250);
        },
        CalibrationEvent::Variance => {},
    }
    assert(out@ =~= old(out)@ + spec_event_sound(event));
}

fn scale_sound(out: &mut Vec<SoundStep>, rising: bool)
    ensures
        final(out)@ == old(out)@ + if rising {
            spec_success_sound()
        } else {
            spec_failure_sound()
        },
{
    let ghost target = if rising {
        spec_success_sound()
    } else {
        spec_failure_sound()
    };
    let mut i: u32 = 0;
    while i < 4
        invariant
            i <= 4,
            target == if rising {
                spec_success_sound()
            } else {
                spec_failure_sound()
            },
            out@ == old(out)@ + target.take(2 * i),
        decreases 4 - i,
    {
        let step = if rising {
            i
        } else {
            3 - i
        };
        push_play(out, 1000 + step * 250, 50);
        push_pause(out, 150);
        assert(out@ =~= old(out)@ + target.take(2 * (i + 1)));
        i = i + 1;
    }
    assert(target.take(8) =~= target);
}

/// The sound for a new calibration state.
pub fn state_sound(state: CalibratorState) -> (r: Vec<SoundStep>)
    ensures
        r@ == spec_state_sound(state),
{
    let mut out: Vec<SoundStep> = Vec::new();
    match state {
        CalibratorState::WaitingStill => waiting_still_sound(&mut out),
        CalibratorState::State(axis, direction, event) => {
            if event != CalibrationEvent::Variance {
                axis_sound(&mut out, axis);
                direction_sound(&mut out, direction);
                event_sound(&mut out, event);
            }
        },
        CalibratorState::Success => scale_sound(&mut out, true),
        CalibratorState::Failure => scale_sound(&mut out, false),
        CalibratorState::Idle => {},
    }
    assert(out@ =~= spec_state_sound(state));
    out
}

/// The byte the calibration ends with on the serial line: 1 on success,
/// 0 on failure; no byte while it goes on.
pub fn state_reply(state: CalibratorState) -> (r: Option<u8>)
    ensures
        r == match state {
            CalibratorState::Success => Some(1u8),
            CalibratorState::Failure => Some(0u8),
            _ => None::<u8>,
        },
{
    match state {
        CalibratorState::Success => Some(1),
        CalibratorState::Failure => Some(0),
        _ => None,
    }
}

/// Bytes of a stored calibration.
pub const CALIBRATION_FILE_LEN: usize = 156;

} // verus!
