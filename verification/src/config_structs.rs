use vstd::prelude::*;

verus! {

/// LoRa spreading factors, 5 to 12.
#[derive(Debug, Clone, Copy, PartialEq, Eq, Structural)]
pub enum LoraSpreadingFactor {
    Sf5,
    Sf6,
    Sf7,
    Sf8,
    Sf9,
    Sf10,
    Sf11,
    Sf12,
}

/// LoRa channel widths, named by their rounded width in kHz.
#[derive(Debug, Clone, Copy, PartialEq, Eq, Structural)]
pub enum LoraBandwidth {
    Bw7KHz,
    Bw10KHz,
    Bw15KHz,
    Bw20KHz,
    Bw31KHz,
    Bw41KHz,
    Bw62KHz,
    Bw125KHz,
    Bw250KHz,
    Bw500KHz,
}

/// LoRa coding rates 4/5 to 4/8.
#[derive(Debug, Clone, Copy, PartialEq, Eq, Structural)]
pub enum LoraCodingRate {
    Cr4_5,
    Cr4_6,
    Cr4_7,
    Cr4_8,
}

/// The spreading factor a number names.
pub open spec fn spreading_factor_of(sf: u8) -> Option<LoraSpreadingFactor> {
    if sf == 5 {
        Some(LoraSpreadingFactor::Sf5)
    } else if sf == 6 {
        Some(LoraSpreadingFactor::Sf6)
    } else if sf == 7 {
        Some(LoraSpreadingFactor::Sf7)
    } else if sf == 8 {
        Some(LoraSpreadingFactor::Sf8)
    } else if sf == 9 {
        Some(LoraSpreadingFactor::Sf9)
    } else if sf == 10 {
        Some(LoraSpreadingFactor::Sf10)
    } else if sf == 11 {
        Some(LoraSpreadingFactor::Sf11)
    } else if sf == 12 {
        Some(LoraSpreadingFactor::Sf12)
    } else {
        None
    }
}

/// The channel width that a width in Hz names.
pub open spec fn bandwidth_of(hz: u32) -> Option<LoraBandwidth> {
    if hz == 7810 {
        Some(LoraBandwidth::Bw7KHz)
    } else if hz == 10420 {
        Some(LoraBandwidth::Bw10KHz)
    } else if hz == 15630 {
        Some(LoraBandwidth::Bw15KHz)
    } else if hz == 20830 {
        Some(LoraBandwidth::Bw20KHz)
    } else if hz == 31250 {
        Some(LoraBandwidth::Bw31KHz)
    } else if hz == 41670 {
        Some(LoraBandwidth::Bw41KHz)
    } else if hz == 62500 {
        Some(LoraBandwidth::Bw62KHz)
    } else if hz == 125000 {
        Some(LoraBandwidth::Bw125KHz)
    } else if hz == 250000 {
        Some(LoraBandwidth::Bw250KHz)
    } else if hz == 500000 {
        Some(LoraBandwidth::Bw500KHz)
    } else {
        None
    }
}

/// The coding rate 4/`cr` names.
pub open spec fn coding_rate_of(cr: u8) -> Option<LoraCodingRate> {
    if cr == 5 {
        Some(LoraCodingRate::Cr4_5)
    } else if cr == 6 {
        Some(LoraCodingRate::Cr4_6)
    } else if cr == 7 {
        Some(LoraCodingRate::Cr4_7)
    } else if cr == 8 {
        Some(LoraCodingRate::Cr4_8)
    } else {
        None
    }
}

/// The number of a spreading factor.
pub open spec fn spreading_factor_number(sf: LoraSpreadingFactor) -> u8 {
    match sf {
        LoraSpreadingFactor::Sf5 => 5,
        LoraSpreadingFactor::Sf6 => 6,
        LoraSpreadingFactor::Sf7 => 7,
        LoraSpreadingFactor::Sf8 => 8,
        LoraSpreadingFactor::Sf9 => 9,
        LoraSpreadingFactor::Sf10 => 10,
        LoraSpreadingFactor::Sf11 => 11,
        LoraSpreadingFactor::Sf12 => 12,
    }
}

/// The width in Hz of a channel width.
pub open spec fn bandwidth_hz(bw: LoraBandwidth) -> u32 {
    match bw {
        LoraBandwidth::Bw7KHz => 7810,
        LoraBandwidth::Bw10KHz => 10420,
        LoraBandwidth::Bw15KHz => 15630,
        LoraBandwidth::Bw20KHz => 20830,
        LoraBandwidth::Bw31KHz => 31250,
        LoraBandwidth::Bw41KHz => 41670,
        LoraBandwidth::Bw62KHz => 62500,
        LoraBandwidth::Bw125KHz => 125000,
        LoraBandwidth::Bw250KHz => 250000,
        LoraBandwidth::Bw500KHz => 500000,
    }
}

/// The denominator of a coding rate.
pub open spec fn coding_rate_denominator(cr: LoraCodingRate) -> u8 {
    match cr {
        LoraCodingRate::Cr4_5 => 5,
        LoraCodingRate::Cr4_6 => 6,
        LoraCodingRate::Cr4_7 => 7,
        LoraCodingRate::Cr4_8 => 8,
    }
}

/// The radio settings of a device: the frequencies it hops over, at most
/// 64, and the modulation, as numbers.
pub struct LoraConfig {
    pub frequencies: Vec<u32>,
    pub sf: u8,
    pub bw: u32,
    pub cr: u8,
}

impl LoraConfig {
    /// Whether the numbers name a spreading factor, a channel width and a
    /// coding rate.
    pub open spec fn valid_modulation(&self) -> bool {
        &&& spreading_factor_of(self.sf) is Some
        &&& bandwidth_of(self.bw) is Some
        &&& coding_rate_of(self.cr) is Some
    }

    /// The modulation the numbers name.
    pub fn modulation_settings(&self) -> (r: (LoraSpreadingFactor, LoraBandwidth, LoraCodingRate))
        requires
            self.valid_modulation(),
        ensures
            Some(r.0) == spreading_factor_of(self.sf),
            Some(r.1) == bandwidth_of(self.bw),
            Some(r.2) == coding_rate_of(self.cr),
    {
        let sf = match self.sf {
            5 => LoraSpreadingFactor::Sf5,
            6 => LoraSpreadingFactor::Sf6,
            7 => LoraSpreadingFactor::Sf7,
            8 => LoraSpreadingFactor::Sf8,
            9 => LoraSpreadingFactor::Sf9,
            10 => LoraSpreadingFactor::Sf10,
            11 => LoraSpreadingFactor::Sf11,
            _ => LoraSpreadingFactor::Sf12,
        };
        let bw = match self.bw {
            7810u32 => LoraBandwidth::Bw7KHz,
            10420u32 => LoraBandwidth::Bw10KHz,
            15630u32 => LoraBandwidth::Bw15KHz,
            20830u32 => LoraBandwidth::Bw20KHz,
            31250u32 => LoraBandwidth::Bw31KHz,
            41670u32 => LoraBandwidth::Bw41KHz,
            62500u32 => LoraBandwidth::Bw62KHz,
            125000u32 => LoraBandwidth::Bw125KHz,
            250000u32 => LoraBandwidth::Bw250KHz,
            _ => LoraBandwidth::Bw500KHz,
        };
        let cr = match self.cr {
            5 => LoraCodingRate::Cr4_5,
            6 => LoraCodingRate::Cr4_6,
            7 => LoraCodingRate::Cr4_7,
            _ => LoraCodingRate::Cr4_8,
        };
        (sf, bw, cr)
    }

    /// The modulation the numbers name, or `None` when one of them names
    /// nothing.
    pub fn checked_modulation_settings(&self) -> (r: Option<
        (LoraSpreadingFactor, LoraBandwidth, LoraCodingRate),
    >)
        ensures
            r is Some <==> self.valid_modulation(),
            r matches Some(m) ==> Some(m.0) == spreading_factor_of(self.sf) && Some(m.1)
                == bandwidth_of(self.bw) && Some(m.2) == coding_rate_of(self.cr),
    {
        let sf_ok = 5 <= self.sf && self.sf <= 12;
        let bw_ok = self.bw == 7810 || self.bw == 10420 || self.bw == 15630 || self.bw == 20830
            || self.bw == 31250 || self.bw == 41670 || self.bw == 62500 || self.bw == 125000
            || self.bw == 250000 || self.bw == 500000;
        let cr_ok = 5 <= self.cr && self.cr <= 8;
        if sf_ok && bw_ok && cr_ok {
            Some(self.modulation_settings())
        } else {
            None
        }
    }
}

/// The names and numbers of the modulation settings match up both ways.
pub proof fn lemma_modulation_numbers(
    sf: LoraSpreadingFactor,
    bw: LoraBandwidth,
    cr: LoraCodingRate,
    n: u8,
    hz: u32,
)
    ensures
        spreading_factor_of(spreading_factor_number(sf)) == Some(sf),
        bandwidth_of(bandwidth_hz(bw)) == Some(bw),
        coding_rate_of(coding_rate_denominator(cr)) == Some(cr),
        spreading_factor_of(n) matches Some(s) ==> spreading_factor_number(s) == n,
        bandwidth_of(hz) matches Some(b) ==> bandwidth_hz(b) == hz,
        coding_rate_of(n) matches Some(c) ==> coding_rate_denominator(c) == n,
{
}

/// What a device is set up as.
#[derive(Debug, Clone, Copy, PartialEq, Eq, Structural)]
pub enum DeviceModeConfig {
    Avionics,
    GCM,
    BeaconSender,
    BeaconReceiver,
    GroundTestAvionics,
    GroundTestGCM,
}

/// A device's stored configuration: its name (at most 64 bytes), its mode
/// and its radio settings.
pub struct DeviceConfig {
    pub name: String,
    pub mode: DeviceModeConfig,
    pub lora: LoraConfig,
}

/// What the configured numbers name, fixed: spreading factor `n` is `Sf<n>`
/// for `n` from 5 to 12; each channel width is named by the width in Hz it
/// stands for (7810 Hz is `Bw7KHz`, ..., 500000 Hz is `Bw500KHz`); coding
/// rate 4/`n` is `Cr4_<n>` for `n` from 5 to 8; and no other number names
/// any.
pub proof fn lemma_modulation_names(sf: u8, bw: u32, cr: u8)
    ensures
        spreading_factor_of(5) == Some(LoraSpreadingFactor::Sf5),
        spreading_factor_number(LoraSpreadingFactor::Sf5) == 5,
        spreading_factor_of(6) == Some(LoraSpreadingFactor::Sf6),
        spreading_factor_number(LoraSpreadingFactor::Sf6) == 6,
        spreading_factor_of(7) == Some(LoraSpreadingFactor::Sf7),
        spreading_factor_number(LoraSpreadingFactor::Sf7) == 7,
        spreading_factor_of(8) == Some(LoraSpreadingFactor::Sf8),
        spreading_factor_number(LoraSpreadingFactor::Sf8) == 8,
        spreading_factor_of(9) == Some(LoraSpreadingFactor::Sf9),
        spreading_factor_number(LoraSpreadingFactor::Sf9) == 9,
        spreading_factor_of(10) == Some(LoraSpreadingFactor::Sf10),
        spreading_factor_number(LoraSpreadingFactor::Sf10) == 10,
        spreading_factor_of(11) == Some(LoraSpreadingFactor::Sf11),
        spreading_factor_number(LoraSpreadingFactor::Sf11) == 11,
        spreading_factor_of(12) == Some(LoraSpreadingFactor::Sf12),
        spreading_factor_number(LoraSpreadingFactor::Sf12) == 12,
        bandwidth_of(7810) == Some(LoraBandwidth::Bw7KHz),
        bandwidth_hz(LoraBandwidth::Bw7KHz) == 7810,
        bandwidth_of(10420) == Some(LoraBandwidth::Bw10KHz),
        bandwidth_hz(LoraBandwidth::Bw10KHz) == 10420,
        bandwidth_of(15630) == Some(LoraBandwidth::Bw15KHz),
        bandwidth_hz(LoraBandwidth::Bw15KHz) == 15630,
        bandwidth_of(20830) == Some(LoraBandwidth::Bw20KHz),
        bandwidth_hz(LoraBandwidth::Bw20KHz) == 20830,
        bandwidth_of(31250) == Some(LoraBandwidth::Bw31KHz),
        bandwidth_hz(LoraBandwidth::Bw31KHz) == 31250,
        bandwidth_of(41670) == Some(LoraBandwidth::Bw41KHz),
        bandwidth_hz(LoraBandwidth::Bw41KHz) == 41670,
        bandwidth_of(62500) == Some(LoraBandwidth::Bw62KHz),
        bandwidth_hz(LoraBandwidth::Bw62KHz) == 62500,
        bandwidth_of(125000) == Some(LoraBandwidth::Bw125KHz),
        bandwidth_hz(LoraBandwidth::Bw125KHz) == 125000,
        bandwidth_of(250000) == Some(LoraBandwidth::Bw250KHz),
        bandwidth_hz(LoraBandwidth::Bw250KHz) == 250000,
        bandwidth_of(500000) == Some(LoraBandwidth::Bw500KHz),
        bandwidth_hz(LoraBandwidth::Bw500KHz) == 500000,
        coding_rate_of(5) == Some(LoraCodingRate::Cr4_5),
        coding_rate_denominator(LoraCodingRate::Cr4_5) == 5,
        coding_rate_of(6) == Some(LoraCodingRate::Cr4_6),
        coding_rate_denominator(LoraCodingRate::Cr4_6) == 6,
        coding_rate_of(7) == Some(LoraCodingRate::Cr4_7),
        coding_rate_denominator(LoraCodingRate::Cr4_7) == 7,
        coding_rate_of(8) == Some(LoraCodingRate::Cr4_8),
        coding_rate_denominator(LoraCodingRate::Cr4_8) == 8,
        (sf < 5 || sf > 12) ==> spreading_factor_of(sf) is None,
        (cr < 5 || cr > 8) ==> coding_rate_of(cr) is None,
        (bw != 7810 && bw != 10420 && bw != 15630 && bw != 20830 && bw != 31250 && bw != 41670
            && bw != 62500 && bw != 125000 && bw != 250000 && bw != 500000) ==> bandwidth_of(bw) is None,
{
}

} // verus!
