use firmware_common::can_bus::{
    AvionicsStatusMessage, CanBusExtendedId, CanBusMessage, FlightEvent, FlightEventMessage,
    HealthMessage, HealthState, ResetMessage, UnixTimeMessage, VL_NODE_ID,
};
use firmware_common::config_structs::{
    DeviceConfig, DeviceModeConfig, LoraBandwidth, LoraCodingRate, LoraConfig,
    LoraSpreadingFactor,
};
use firmware_common::device_mode::{device_mode_file_contents, device_mode_from_file, DeviceMode};
use firmware_common::pvlp::{hop_frequency, slave_frequency, FREQ_LIST};

#[test]
fn device_mode_numbers() {
    assert_eq!(DeviceMode::try_from(1u8), Ok(DeviceMode::Avionics));
    assert_eq!(DeviceMode::try_from(6u8), Ok(DeviceMode::GroundTestGCM));
    assert_eq!(DeviceMode::try_from(0u8), Err(()));
    assert_eq!(DeviceMode::try_from(7u8), Err(()));
    for v in 1u8..=6 {
        assert_eq!(DeviceMode::try_from_u8(v).unwrap().as_u8(), v);
    }
    assert_eq!(device_mode_from_file(Some(4)), Some(DeviceMode::BeaconReceiver));
    assert_eq!(device_mode_from_file(Some(9)), None);
    assert_eq!(device_mode_from_file(None), None);
    assert_eq!(device_mode_file_contents(DeviceMode::GCM), [2]);
}

#[test]
fn lora_settings() {
    let c = LoraConfig {
        frequencies: vec![915_000_000],
        sf: 12,
        bw: 250000,
        cr: 8,
    };
    assert_eq!(
        c.modulation_settings(),
        (
            LoraSpreadingFactor::Sf12,
            LoraBandwidth::Bw250KHz,
            LoraCodingRate::Cr4_8
        )
    );
    let c = LoraConfig {
        frequencies: vec![],
        sf: 7,
        bw: 7810,
        cr: 5,
    };
    assert_eq!(
        c.checked_modulation_settings(),
        Some((
            LoraSpreadingFactor::Sf7,
            LoraBandwidth::Bw7KHz,
            LoraCodingRate::Cr4_5
        ))
    );
    let bad = LoraConfig {
        frequencies: vec![],
        sf: 13,
        bw: 125000,
        cr: 5,
    };
    assert_eq!(bad.checked_modulation_settings(), None);
    let bad = LoraConfig {
        frequencies: vec![],
        sf: 7,
        bw: 125001,
        cr: 5,
    };
    assert_eq!(bad.checked_modulation_settings(), None);
    let config = DeviceConfig {
        name: String::from("vl"),
        mode: DeviceModeConfig::GCM,
        lora: c,
    };
    assert_eq!(config.mode, DeviceModeConfig::GCM);
}

#[test]
fn can_id_packing() {
    let id = CanBusExtendedId::new(5, 33, VL_NODE_ID, 0xABC);
    let v = id.value();
    assert_eq!(v, 5 | (33 << 3) | (0x69 << 9) | (0xABC << 17));
    let back = CanBusExtendedId::from_value(v);
    assert_eq!(back, id);
    assert_eq!(back.priority(), 5);
    assert_eq!(back.message_type(), 33);
    assert_eq!(back.node_id(), 0x69);
    assert_eq!(back.message_id(), 0xABC);
    assert_eq!(CanBusExtendedId::from_value(0x1FFF_FFFF).value(), 0x1FFF_FFFF);
    let id = FlightEventMessage::create_id(1, 2, 3);
    assert_eq!(id.message_type(), 2);
    assert_eq!(id.node_id(), 2);
    assert_eq!(id.message_id(), 3);
}

#[test]
fn can_messages_pack() {
    let m = UnixTimeMessage {
        timestamp: 0x0102_0304_0506,
    };
    assert_eq!(m.to_data(), vec![1, 2, 3, 4, 5, 6]);
    assert_eq!(UnixTimeMessage::from_data(&[1, 2, 3, 4, 5, 6]), m);
    assert_eq!(UnixTimeMessage::len(), 6);
    assert_eq!(UnixTimeMessage::message_type(), 0);

    let s = AvionicsStatusMessage {
        low_power: true,
        armed: false,
    };
    assert_eq!(s.to_data(), vec![0x80]);
    let s = AvionicsStatusMessage {
        low_power: false,
        armed: true,
    };
    assert_eq!(s.to_data(), vec![0x40]);
    assert_eq!(AvionicsStatusMessage::from_data(&[0xC0]), AvionicsStatusMessage {
        low_power: true,
        armed: true
    });
    assert_eq!(AvionicsStatusMessage::message_type(), 1);

    let f = FlightEventMessage {
        timestamp: 1000,
        event: FlightEvent::Landed,
    };
    assert_eq!(f.to_data(), vec![0, 0, 0, 0, 0x03, 0xE8, 0b0110_0000]);
    assert_eq!(FlightEventMessage::from_data(&f.to_data()), f);
    assert_eq!(FlightEventMessage::len(), 7);
    assert_eq!(FlightEventMessage::message_type(), 2);

    let h = HealthMessage {
        state: HealthState::UnHealthy,
    };
    assert_eq!(h.to_data(), vec![0x80]);
    assert_eq!(HealthMessage::from_data(&[0x40]).state, HealthState::Degraded);
    assert_eq!(HealthMessage::message_type(), 3);

    assert_eq!(ResetMessage {}.to_data(), vec![0]);
    assert_eq!(ResetMessage::message_type(), 4);
    assert_eq!(ResetMessage::len(), 1);
}

#[test]
fn frequency_hopping() {
    assert_eq!(hop_frequency(0), 902300000);
    assert_eq!(hop_frequency(7), 913500000);
    assert_eq!(hop_frequency(9), 903900000);
    assert_eq!(slave_frequency(None), (FREQ_LIST[0], 0xFFFFF));
    assert_eq!(slave_frequency(Some((10, 2000))), (905500000, 15000));
    assert_eq!(hop_frequency(3), 907100000);
}
