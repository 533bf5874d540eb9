use vstd::prelude::*;

verus! {

/// How a GPS fix moved since the last one, each field packed into a
/// fixed-point step count.
#[derive(Debug, Clone, Copy)]
pub struct GPSLocationDelta {
    pub timestamp: u8,
    pub gps_timestamp: u8,
    pub lat_lon: (u16, u16),
    pub altitude: u8,
    pub num_of_fix_satellites: u8,
    pub hdop: u8,
    pub vdop: u8,
    pub pdop: u8,
}

} // verus!
