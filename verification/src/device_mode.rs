use vstd::prelude::*;

verus! {

/// What a device runs as; stored on flash as its number.
#[derive(Debug, Clone, Copy, PartialEq, Eq, Structural)]
pub enum DeviceMode {
    Avionics,
    GCM,
    BeaconSender,
    BeaconReceiver,
    GroundTestAvionics,
    GroundTestGCM,
}

/// The number a mode is stored as.
pub open spec fn mode_number(m: DeviceMode) -> u8 {
    match m {
        DeviceMode::Avionics => 1,
        DeviceMode::GCM => 2,
        DeviceMode::BeaconSender => 3,
        DeviceMode::BeaconReceiver => 4,
        DeviceMode::GroundTestAvionics => 5,
        DeviceMode::GroundTestGCM => 6,
    }
}

/// The mode stored as `value`, if any.
pub open spec fn mode_of_number(value: u8) -> Option<DeviceMode> {
    if value == 1 {
        Some(DeviceMode::Avionics)
    } else if value == 2 {
        Some(DeviceMode::GCM)
    } else if value == 3 {
        Some(DeviceMode::BeaconSender)
    } else if value == 4 {
        Some(DeviceMode::BeaconReceiver)
    } else if value == 5 {
        Some(DeviceMode::GroundTestAvionics)
    } else if value == 6 {
        Some(DeviceMode::GroundTestGCM)
    } else {
        None
    }
}

impl DeviceMode {
    /// The number the mode is stored as.
    pub fn as_u8(self) -> (r: u8)
        ensures
            r == mode_number(self),
    {
        match self {
            DeviceMode::Avionics => 1,
            DeviceMode::GCM => 2,
            DeviceMode::BeaconSender => 3,
            DeviceMode::BeaconReceiver => 4,
            DeviceMode::GroundTestAvionics => 5,
            DeviceMode::GroundTestGCM => 6,
        }
    }

    /// The mode stored as `value`; numbers 1 to 6 name the modes, and any
    /// other is refused.
    pub fn try_from_u8(value: u8) -> (r: Result<DeviceMode, ()>)
        ensures
            match mode_of_number(value) {
                Some(m) => r == Ok::<DeviceMode, ()>(m),
                None => r == Err::<DeviceMode, ()>(()),
            },
            r is Ok <==> 1 <= value <= 6,
    {
        match value {
            1 => Ok(DeviceMode::Avionics),
            2 => Ok(DeviceMode::GCM),
            3 => Ok(DeviceMode::BeaconSender),
            4 => Ok(DeviceMode::BeaconReceiver),
            5 => Ok(DeviceMode::GroundTestAvionics),
            6 => Ok(DeviceMode::GroundTestGCM),
            _ => Err(()),
        }
    }
}

impl vstd::std_specs::convert::TryFromSpecImpl<u8> for DeviceMode {
    open spec fn obeys_try_from_spec() -> bool {
        true
    }

    open spec fn try_from_spec(v: u8) -> Result<DeviceMode, ()> {
        match mode_of_number(v) {
            Some(m) => Ok(m),
            None => Err(()),
        }
    }
}

impl core::convert::TryFrom<u8> for DeviceMode {
    type Error = ();

    fn try_from(value: u8) -> (r: Result<DeviceMode, ()>) {
        DeviceMode::try_from_u8(value)
    }
}

/// The mode stored on flash, from the first byte of the mode file: `None`
/// when there is no such byte or it names no mode.
pub fn device_mode_from_file(first_byte: Option<u8>) -> (r: Option<DeviceMode>)
    ensures
        r == match first_byte {
            Some(b) => mode_of_number(b),
            None => None,
        },
{
    match first_byte {
        Some(b) => match DeviceMode::try_from_u8(b) {
            Ok(m) => Some(m),
            Err(_) => None,
        },
        None => None,
    }
}

/// What the mode file holds for `mode`.
pub fn device_mode_file_contents(mode: DeviceMode) -> (r: [u8; 1])
    ensures
        r@ == seq![mode_number(mode)],
{
    let r = [mode.as_u8()];
    assert(r@ =~= seq![mode_number(mode)]);
    r
}

/// A stored mode reads back as itself, and a number that names a mode is
/// the number that mode is stored as.
pub proof fn lemma_mode_round_trip(m: DeviceMode, v: u8)
    ensures
        mode_of_number(mode_number(m)) == Some(m),
        mode_of_number(v) matches Some(n) ==> mode_number(n) == v,
{
}

/// The number each mode is stored as on flash, fixed: Avionics 1, GCM 2,
/// BeaconSender 3, BeaconReceiver 4, GroundTestAvionics 5, GroundTestGCM 6;
/// those numbers read back as those modes, and no other number names one.
pub proof fn lemma_mode_numbers(v: u8)
    ensures
        mode_number(DeviceMode::Avionics) == 1,
        mode_number(DeviceMode::GCM) == 2,
        mode_number(DeviceMode::BeaconSender) == 3,
        mode_number(DeviceMode::BeaconReceiver) == 4,
        mode_number(DeviceMode::GroundTestAvionics) == 5,
        mode_number(DeviceMode::GroundTestGCM) == 6,
        mode_of_number(1) == Some(DeviceMode::Avionics),
        mode_of_number(2) == Some(DeviceMode::GCM),
        mode_of_number(3) == Some(DeviceMode::BeaconSender),
        mode_of_number(4) == Some(DeviceMode::BeaconReceiver),
        mode_of_number(5) == Some(DeviceMode::GroundTestAvionics),
        mode_of_number(6) == Some(DeviceMode::GroundTestGCM),
        (v == 0 || v > 6) ==> mode_of_number(v) is None,
{
}

} // verus!
