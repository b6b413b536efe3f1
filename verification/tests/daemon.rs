use segotep_digital::config::{parse_hex_id, service_command_line, ServiceConfig};
use segotep_digital::daemon::{
    blank_packet, metrics_packet, tick_interval_ms, DriverLoop, LoopAction, LoopConfig, LoopEvent,
    Phase, RECONNECT_DELAY_MS,
};
use segotep_digital::monitor::HardwareMetrics;
use segotep_digital::protocol::{SegotepPacket, PRODUCT_ID, VENDOR_ID};

fn metrics() -> HardwareMetrics {
    HardwareMetrics {
        cpu_temp: 45,
        cpu_load: 25,
        cpu_power_watts: 65,
        cpu_clock_mhz: 4200,
        gpu_temp: 50,
        gpu_load: 10,
        gpu_power_watts: 120,
        gpu_clock_mhz: 2100,
    }
}

fn config(screen_off: bool, blank_on_stop: bool) -> LoopConfig {
    LoopConfig { tick_ms: 1000, model_id: 3, fahrenheit: true, screen_off, blank_on_stop }
}

#[test]
fn interactive_loop_reconnects_samples_and_sends() {
    let mut d = DriverLoop::new(config(false, false));
    assert_eq!(d.start(), LoopAction::CheckRunning);
    assert_eq!(d.step(LoopEvent::Running(true)), LoopAction::Connect);
    assert_eq!(d.step(LoopEvent::Connected(false)), LoopAction::Sleep(RECONNECT_DELAY_MS));
    assert_eq!(d.step(LoopEvent::Running(true)), LoopAction::Connect);
    assert_eq!(d.step(LoopEvent::Connected(true)), LoopAction::Sample { newly_connected: true });
    let expected = SegotepPacket {
        model_id: 3,
        screen_on: true,
        cpu_temp: 45,
        cpu_load: 25,
        cpu_power_watts: 65,
        cpu_clock_mhz: 4200,
        gpu_temp: 50,
        gpu_load: 10,
        gpu_power_watts: 120,
        gpu_clock_mhz: 2100,
        is_fahrenheit: true,
    };
    assert_eq!(d.step(LoopEvent::Sampled(metrics())), LoopAction::Send(expected));
    assert_eq!(d.step(LoopEvent::Sent(true)), LoopAction::Sleep(1000));
    assert_eq!(d.step(LoopEvent::Running(true)), LoopAction::Connect);
    assert_eq!(d.step(LoopEvent::Connected(true)), LoopAction::Sample { newly_connected: false });
    assert!(matches!(d.step(LoopEvent::Sampled(metrics())), LoopAction::Send(_)));
    // A failed write marks the device as lost: the next connection is announced again.
    assert_eq!(d.step(LoopEvent::Sent(false)), LoopAction::Sleep(1000));
    assert_eq!(d.step(LoopEvent::Running(true)), LoopAction::Connect);
    assert_eq!(d.step(LoopEvent::Connected(true)), LoopAction::Sample { newly_connected: true });
    let p = SegotepPacket { model_id: 9, ..SegotepPacket::default() };
    assert_eq!(d.step(LoopEvent::Prepared(p.clone())), LoopAction::Send(p));
    assert_eq!(d.step(LoopEvent::Sent(true)), LoopAction::Sleep(1000));
    assert_eq!(d.step(LoopEvent::Running(false)), LoopAction::Exit);
    assert_eq!(d.step(LoopEvent::Running(true)), LoopAction::Exit);
}

#[test]
fn screen_off_mode_sends_once_then_exits() {
    let mut d = DriverLoop::new(config(true, false));
    assert_eq!(d.step(LoopEvent::Running(true)), LoopAction::Connect);
    assert_eq!(d.step(LoopEvent::Connected(true)), LoopAction::Sample { newly_connected: true });
    match d.step(LoopEvent::Sampled(metrics())) {
        LoopAction::Send(p) => {
            assert!(!p.screen_on);
            let raw = p.serialize();
            assert_eq!(raw[3], 0x0E);
            assert_eq!(raw[4], 0x0F);
        }
        other => panic!("expected a packet, got {other:?}"),
    }
    assert_eq!(d.step(LoopEvent::Sent(false)), LoopAction::Exit);
}

#[test]
fn service_stop_blanks_display() {
    let mut d = DriverLoop::new(config(false, true));
    assert_eq!(d.step(LoopEvent::Running(false)), LoopAction::Send(blank_packet(3, true)));
    assert_eq!(d.step(LoopEvent::Sent(false)), LoopAction::Exit);
    let b = blank_packet(3, true);
    assert!(!b.screen_on);
    assert_eq!(b.cpu_temp, 0);
    assert_eq!(b.gpu_clock_mhz, 0);
    assert!(b.is_fahrenheit);
}

#[test]
fn driver_accepts_only_the_awaited_event() {
    let mut d = DriverLoop::new(config(false, false));
    assert!(d.accepts(&LoopEvent::Running(true)));
    assert!(!d.accepts(&LoopEvent::Sent(true)));
    d.step(LoopEvent::Running(true));
    assert!(d.accepts(&LoopEvent::Connected(false)));
    assert!(!d.accepts(&LoopEvent::Sampled(metrics())));
}

#[test]
fn metrics_packet_copies_every_field() {
    let p = metrics_packet(1, true, false, &metrics());
    assert_eq!(p.model_id, 1);
    assert_eq!(p.cpu_clock_mhz, 4200);
    assert_eq!(p.gpu_power_watts, 120);
    assert!(!p.is_fahrenheit);
}

#[test]
fn tick_interval_has_a_floor() {
    assert_eq!(tick_interval_ms(0), 100);
    assert_eq!(tick_interval_ms(99), 100);
    assert_eq!(tick_interval_ms(100), 100);
    assert_eq!(tick_interval_ms(1000), 1000);
}

#[test]
fn hex_ids_parse_like_from_str_radix() {
    assert_eq!(parse_hex_id("1a86", 0), 0x1a86);
    assert_eq!(parse_hex_id("0x1A86", 0), 0x1a86);
    assert_eq!(parse_hex_id("0Xa001", 0), 0xa001);
    assert_eq!(parse_hex_id("0x0x10", 0), 0x10);
    assert_eq!(parse_hex_id("0x0Xff", 0), 0xff);
    assert_eq!(parse_hex_id("0X0xff", 7), 7);
    assert_eq!(parse_hex_id("+ff", 0), 0xff);
    assert_eq!(parse_hex_id("ffff", 0), 0xffff);
    assert_eq!(parse_hex_id("10000", 7), 7);
    assert_eq!(parse_hex_id("zz", 7), 7);
    assert_eq!(parse_hex_id("", 5), 5);
    assert_eq!(parse_hex_id("0x", 5), 5);
    assert_eq!(parse_hex_id("-1", 5), 5);
    assert_eq!(parse_hex_id(" 1a86", 5), 5);
}

#[test]
fn service_command_line_format() {
    assert_eq!(
        service_command_line("C:\\x.exe", 1000, 3, true, 0x1a86, 0xa001),
        "\"C:\\x.exe\" --service -i 1000 -m 3 -f --vid 1a86 --pid a001"
    );
    assert_eq!(
        service_command_line("seg", 0, 255, false, 0x000f, 0xFFFF),
        "\"seg\" --service -i 0 -m 255 --vid 000f --pid ffff"
    );
    assert_eq!(
        service_command_line("e", u64::MAX, 1, false, 0, 0x1234),
        format!("\"e\" --service -i {} -m 1 --vid 0000 --pid 1234", u64::MAX)
    );
}

#[test]
fn service_fallback_settings() {
    let c = ServiceConfig::fallback();
    assert_eq!(c.interval_ms, 1000);
    assert_eq!(c.model_id, 3);
    assert!(!c.fahrenheit);
    assert_eq!(c.vid, VENDOR_ID);
    assert_eq!(c.pid, PRODUCT_ID);
}

#[test]
fn unexpected_event_stops_the_loop() {
    let mut d = DriverLoop::new(config(false, false));
    assert_eq!(d.step(LoopEvent::Sent(true)), LoopAction::Exit);
    assert_eq!(d.phase, Phase::Done);
    assert_eq!(d.step(LoopEvent::Running(true)), LoopAction::Exit);
    assert_eq!(d.phase, Phase::Done);
}

/// Feeds the events in order and collects the actions.
fn drive(d: &mut DriverLoop, events: Vec<LoopEvent>) -> Vec<LoopAction> {
    events.into_iter().map(|e| d.step(e)).collect()
}

#[test]
fn run_samples_once_per_connected_pass() {
    let prepared = blank_packet(9, false);
    let mut d = DriverLoop::new(config(false, true));
    let actions = drive(
        &mut d,
        vec![
            // A failed attempt: wait, no sample.
            LoopEvent::Running(true),
            LoopEvent::Connected(false),
            // Connected: one sample, its packet sent once.
            LoopEvent::Running(true),
            LoopEvent::Connected(true),
            LoopEvent::Prepared(prepared.clone()),
            LoopEvent::Sent(false),
            // Reconnected after the failed write.
            LoopEvent::Running(true),
            LoopEvent::Connected(true),
            LoopEvent::Sampled(metrics()),
            LoopEvent::Sent(true),
            LoopEvent::Running(false),
        ],
    );
    assert_eq!(
        actions,
        vec![
            LoopAction::Connect,
            LoopAction::Sleep(RECONNECT_DELAY_MS),
            LoopAction::Connect,
            LoopAction::Sample { newly_connected: true },
            LoopAction::Send(prepared),
            LoopAction::Sleep(1000),
            LoopAction::Connect,
            LoopAction::Sample { newly_connected: true },
            LoopAction::Send(metrics_packet(3, true, true, &metrics())),
            LoopAction::Sleep(1000),
            LoopAction::Send(blank_packet(3, true)),
        ]
    );
    assert_eq!(d.phase, Phase::Blanking);
}

#[test]
fn run_without_passes_only_stops() {
    let mut d = DriverLoop::new(config(false, false));
    assert_eq!(drive(&mut d, vec![LoopEvent::Running(false)]), vec![LoopAction::Exit]);
    assert_eq!(d.phase, Phase::Done);
}

#[test]
fn written_hex_ids_read_back() {
    for v in 0..=u16::MAX {
        assert_eq!(parse_hex_id(&format!("{:04x}", v), !v), v);
        assert_eq!(parse_hex_id(&format!("0x{:04x}", v), !v), v);
        assert_eq!(parse_hex_id(&format!("0x{:X}", v), !v), v);
    }
}
