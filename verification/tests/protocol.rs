use segotep_digital::protocol::{SegotepPacket, DEFAULT_MODEL_ID_ICE_MOON, REPORT_LEN};

#[test]
fn test_packet_serialization() {
    let packet = SegotepPacket {
        model_id: 3,
        screen_on: true,
        cpu_temp: 45,
        cpu_load: 25,
        cpu_power_watts: 65,
        cpu_clock_mhz: 4200,
        gpu_temp: 50,
        gpu_load: 10,
        gpu_power_watts: 120,
        gpu_clock_mhz: 2100,
        is_fahrenheit: false,
    };

    let raw = packet.serialize();
    assert_eq!(raw[0], 0x00);
    assert_eq!(raw[1], 0xDC);
    assert_eq!(raw[2], 0xDD);
    assert_eq!(raw[3], 0x00);
    assert_eq!(raw[4], 0x03);
    assert_eq!(raw[13], 0x01);
    assert_eq!(raw[17], 0x0C);
    assert_eq!(raw[21], 45); // CPU temp
    assert_eq!(raw[22], 25); // CPU load
    assert_eq!(u16::from_le_bytes([raw[23], raw[24]]), 65); // CPU power
    assert_eq!(u16::from_le_bytes([raw[25], raw[26]]), 4200); // CPU clock
    assert_eq!(raw[27], 50); // GPU temp
    assert_eq!(raw[28], 10); // GPU load
    assert_eq!(u16::from_le_bytes([raw[29], raw[30]]), 120); // GPU power
    assert_eq!(u16::from_le_bytes([raw[31], raw[32]]), 2100); // GPU clock
    assert_eq!(raw[33], 0); // Celsius
}

#[test]
fn test_screen_off_serialization() {
    let packet = SegotepPacket {
        screen_on: false,
        ..Default::default()
    };

    let raw = packet.serialize();
    assert_eq!(raw[3], 14);
    assert_eq!(raw[4], 15);
}

#[test]
fn default_packet_is_ice_moon_screen_on_celsius() {
    let p = SegotepPacket::default();
    assert_eq!(p.model_id, DEFAULT_MODEL_ID_ICE_MOON);
    assert!(p.screen_on);
    assert!(!p.is_fahrenheit);
    assert_eq!(p.cpu_temp, 0);
    assert_eq!(p.gpu_clock_mhz, 0);
}

#[test]
fn report_framing_is_fixed() {
    let p = SegotepPacket {
        model_id: 1,
        screen_on: true,
        cpu_temp: 255,
        cpu_load: 100,
        cpu_power_watts: 0xFFFF,
        cpu_clock_mhz: 0xABCD,
        gpu_temp: 7,
        gpu_load: 8,
        gpu_power_watts: 0x0102,
        gpu_clock_mhz: 0x8000,
        is_fahrenheit: true,
    };
    let raw = p.serialize();
    assert_eq!(raw.len(), REPORT_LEN);
    assert_eq!(&raw[0..3], &[0x00, 0xDC, 0xDD]);
    assert_eq!(raw[4], 1);
    for i in (5..=12).chain(14..=16).chain(18..=20) {
        assert_eq!(raw[i], 0, "reserved byte {i}");
    }
    assert_eq!(raw[13], 0x01);
    assert_eq!(raw[17], 0x0C);
    assert_eq!(raw[23], 0xFF);
    assert_eq!(raw[24], 0xFF);
    assert_eq!(raw[25], 0xCD);
    assert_eq!(raw[26], 0xAB);
    assert_eq!(raw[29], 0x02);
    assert_eq!(raw[30], 0x01);
    assert_eq!(raw[31], 0x00);
    assert_eq!(raw[32], 0x80);
    assert_eq!(raw[33], 1); // Fahrenheit
}

#[test]
fn screen_off_report_ignores_model_id() {
    let a = SegotepPacket { screen_on: false, model_id: 1, cpu_temp: 40, ..Default::default() };
    let b = SegotepPacket { screen_on: false, model_id: 3, cpu_temp: 40, ..Default::default() };
    assert_eq!(a.serialize(), b.serialize());
    assert_eq!(a.serialize()[3], 0x0E);
    assert_eq!(a.serialize()[4], 0x0F);
}

#[test]
fn screen_on_reports_differ_for_different_packets() {
    let a = SegotepPacket { cpu_power_watts: 256, ..Default::default() };
    let b = SegotepPacket { cpu_power_watts: 1, ..Default::default() };
    assert_ne!(a.serialize(), b.serialize());
}
