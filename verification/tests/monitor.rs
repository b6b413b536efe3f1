use segotep_digital::device::parse_device_info;
use segotep_digital::monitor::cpu_freq::{
    average_khz_to_mhz, average_mhz, is_core_dir_name, khz_from_scaling_cur_freq,
    mhz_from_scaling_cur_freq,
};
use segotep_digital::monitor::cpu_load::{cpu_times, proc_stat_values, CpuLoadMonitor, LoadReading};
use segotep_digital::monitor::cpu_power::{counter_from_text, CpuPowerMonitor, EnergySource};
use segotep_digital::monitor::cpu_temp::{
    chooses_temp_input, find_hwmon_cpu_temp, is_cpu_hwmon_name, is_cpu_sensor_label,
    is_preferred_temp_label, millidegrees_to_celsius, temp_from_input, HwmonDevice,
    TempInputProbe,
};
use segotep_digital::monitor::windows_native::{gpu_readings, WindowsPdhMonitor};
use segotep_digital::monitor::windows_pawnio::{
    decode_amd_temp, smn_reply, smn_request, ModuleAction, ModuleKind, PawnIoModules,
    F17H_M01H_THM_TCON_CUR_TMP, IOCTL_PIO_EXECUTE_FN, IOCTL_PIO_LOAD_BINARY,
};
use segotep_digital::monitor::windows_sensors::{
    combine_sensor_segments, sensor_segments, SensorMatch, SensorSegment,
};
use segotep_digital::monitor::{merge_readings, BaseReadings, PlatformReadings};

const MS: u64 = 1_000_000;
const SEC: u64 = 1_000_000_000;

fn rapl(max: Option<u64>) -> Option<EnergySource> {
    Some(EnergySource { energy_path: "/energy_uj".to_string(), max_energy_range_uj: max })
}

#[test]
fn power_from_energy_delta() {
    let mut m = CpuPowerMonitor::new(rapl(Some(100_000_000)), 0, 0);
    assert_eq!(m.energy_path(), Some("/energy_uj"));
    assert!(!m.reading_due(50 * MS));
    assert_eq!(m.get_power_watts(50 * MS, Some(1_000_000)), 0);
    assert!(m.reading_due(SEC));
    assert_eq!(m.get_power_watts(SEC, Some(65_000_000)), 65);
    // Counter wrapped at 100 J: (100 - 65) + 5 = 40 J over one second.
    assert!(m.accepts_reading(2 * SEC, Some(5_000_000)));
    assert_eq!(m.get_power_watts(2 * SEC, Some(5_000_000)), 40);
    // Within 100 ms the last value is repeated.
    assert_eq!(m.get_power_watts(2 * SEC + 99 * MS, Some(99_000_000)), 40);
    // An unreadable counter repeats the last value too.
    assert_eq!(m.get_power_watts(3 * SEC, None), 40);
    // 2.5 W rounds up.
    assert_eq!(m.get_power_watts(3 * SEC, Some(7_500_000)), 3);
}

#[test]
fn power_without_range_or_source() {
    let mut m = CpuPowerMonitor::new(rapl(None), 10_000_000, 0);
    assert_eq!(m.get_power_watts(SEC, Some(5_000_000)), 0);
    let mut none = CpuPowerMonitor::new(None, 0, 0);
    assert_eq!(none.energy_path(), None);
    assert!(!none.reading_due(10 * SEC));
    assert_eq!(none.get_power_watts(10 * SEC, Some(1_000_000_000)), 0);
    let mut big = CpuPowerMonitor::new(rapl(None), 0, 0);
    assert_eq!(big.get_power_watts(SEC, Some(1_000_000_000_000)), 65535);
}

#[test]
fn power_rejects_counter_beyond_its_range() {
    let mut m = CpuPowerMonitor::new(rapl(Some(1_000)), 0, 0);
    assert_eq!(m.get_power_watts(SEC, Some(5_000)), 0);
    assert!(!m.accepts_reading(2 * SEC, Some(10)));
    assert!(m.accepts_reading(2 * SEC, Some(6_000)));
    assert!(m.accepts_reading(2 * SEC, None));
}

#[test]
fn load_from_proc_stat_deltas() {
    let mut m = CpuLoadMonitor::new(Some((1000, 400)), 0);
    assert!(!m.reading_due(100 * MS));
    assert_eq!(m.get_load_pct(100 * MS, Some((5000, 5000))), LoadReading::Percent(0));
    assert!(m.reading_due(300 * MS));
    assert_eq!(m.get_load_pct(300 * MS, Some((2000, 900))), LoadReading::Percent(50));
    // No progress in total time: fall back, state unchanged.
    assert_eq!(m.get_load_pct(600 * MS, Some((2000, 950))), LoadReading::Fallback);
    assert_eq!(m.get_load_pct(700 * MS, None), LoadReading::Fallback);
    // 1 / 8 busy = 12.5 % rounds to 13.
    assert_eq!(m.get_load_pct(900 * MS, Some((2008, 901))), LoadReading::Percent(13));
    assert_eq!(m.get_load_pct(950 * MS, None), LoadReading::Percent(13));
    let mut none = CpuLoadMonitor::new(None, 0);
    assert_eq!(none.get_load_pct(SEC, Some((1, 1))), LoadReading::Fallback);
    let mut over = CpuLoadMonitor::new(Some((0, 0)), 0);
    assert_eq!(over.get_load_pct(SEC, Some((10, 20))), LoadReading::Percent(100));
}

#[test]
fn proc_stat_cpu_line() {
    let text = "cpu  10 20 30 40 50 60 70 0 0 0\ncpu0 1 2 3 4\nintr 5\n";
    let v = proc_stat_values(text).expect("cpu line");
    assert_eq!(v, vec![10, 20, 30, 40, 50, 60, 70, 0, 0, 0]);
    assert_eq!(cpu_times(&v), (280, 190));
    assert_eq!(proc_stat_values("intr 1 2 3 4\ncpu 1 2 3 4\n"), None);
    assert_eq!(proc_stat_values("cpu 1 2 3\n"), None);
    assert_eq!(proc_stat_values("cpu 1 x 2 3 4\n"), Some(vec![1, 2, 3, 4]));
    assert_eq!(proc_stat_values("cpu 1 2 3 4\r\n"), Some(vec![1, 2, 3, 4]));
    assert_eq!(proc_stat_values("cpu +5 1 2 3"), Some(vec![5, 1, 2, 3]));
    assert_eq!(proc_stat_values("cpu\t1 2 3 4"), None);
    assert_eq!(proc_stat_values(""), None);
    assert_eq!(proc_stat_values("\ncpu 1 2 3 4"), None);
    assert_eq!(
        proc_stat_values("cpu 18446744073709551615 0 0 0 18446744073709551616"),
        Some(vec![u64::MAX, 0, 0, 0])
    );
    assert_eq!(cpu_times(&vec![1, 2, 3, 4]), (10, 6));
    assert_eq!(cpu_times(&vec![0, 0, 0, 7, 9]), (16, 0));
}

#[test]
fn temperature_inputs() {
    assert_eq!(temp_from_input("45000\n"), Some(45));
    assert_eq!(temp_from_input(" 42999 "), Some(42));
    assert_eq!(temp_from_input("+1000"), Some(1));
    assert_eq!(temp_from_input("-5000"), Some(0));
    assert_eq!(temp_from_input("300000"), Some(255));
    assert_eq!(temp_from_input("abc"), None);
    assert_eq!(temp_from_input("99999999999"), None);
    assert_eq!(millidegrees_to_celsius(-999), 0);
    assert_eq!(millidegrees_to_celsius(255_999), 255);
    assert_eq!(millidegrees_to_celsius(i32::MAX), 255);
}

#[test]
fn hwmon_sensor_choice() {
    assert!(is_cpu_hwmon_name("k10temp\n"));
    assert!(is_cpu_hwmon_name("K10TEMP"));
    assert!(is_cpu_hwmon_name("cpu_thermal"));
    assert!(!is_cpu_hwmon_name("nvme"));
    assert!(is_preferred_temp_label("Tctl\n"));
    assert!(is_preferred_temp_label("Package id 0"));
    assert!(!is_preferred_temp_label("Composite"));
    assert!(chooses_temp_input(1, None));
    assert!(!chooses_temp_input(2, None));
    assert!(chooses_temp_input(3, Some("Tdie")));
    assert!(!chooses_temp_input(2, Some("Tccd1")));
    assert!(is_cpu_sensor_label("CPU Temp"));
    assert!(is_cpu_sensor_label("Core 0"));
    assert!(!is_cpu_sensor_label("acpitz"));
}

#[test]
fn cpu_frequency() {
    assert_eq!(mhz_from_scaling_cur_freq("4200000\n"), Some(4200));
    assert_eq!(mhz_from_scaling_cur_freq("999"), Some(0));
    assert_eq!(mhz_from_scaling_cur_freq("70000000"), Some(65535));
    assert_eq!(mhz_from_scaling_cur_freq("x"), None);
    assert_eq!(mhz_from_scaling_cur_freq("-1"), None);
    assert_eq!(average_mhz(&vec![]), 0);
    assert_eq!(average_mhz(&vec![3000, 4000]), 3500);
    assert_eq!(average_mhz(&vec![3000, 4001]), 3500);
    assert_eq!(average_mhz(&vec![100_000, 100_000]), 65535);
}

#[test]
fn nvml_conversions() {
    let g = gpu_readings(Some(300), Some(1500), Some(0), Some(250));
    assert_eq!(g.temp, Some(255));
    assert_eq!(g.power_watts, Some(2));
    assert_eq!(g.clock_mhz, None);
    assert_eq!(g.load, Some(100));
    let g = gpu_readings(Some(65), Some(0), Some(1800), Some(42));
    assert_eq!(g.temp, Some(65));
    assert_eq!(g.power_watts, None);
    assert_eq!(g.clock_mhz, Some(1800));
    assert_eq!(g.load, Some(42));
    let g = gpu_readings(None, Some(2499), Some(70000), None);
    assert_eq!(g.temp, None);
    assert_eq!(g.power_watts, Some(2));
    assert_eq!(g.clock_mhz, Some(65535));
    assert_eq!(g.load, None);
    assert_eq!(gpu_readings(None, Some(u32::MAX), None, None).power_watts, Some(65535));
}

#[test]
fn pdh_query_primes_before_reading() {
    let mut m = WindowsPdhMonitor::new();
    assert_eq!(m.query(), 0);
    assert!(!m.begin_sample(true));
    m.set_handles(7, 1, 2, 3);
    assert_eq!(m.counters(), (1, 2, 3));
    assert!(!m.begin_sample(false));
    assert!(!m.begin_sample(true));
    assert!(m.begin_sample(true));
    assert!(!m.begin_sample(false));
}

#[test]
fn amd_temperature_register() {
    assert_eq!(decode_amd_temp(360 << 21), Some(45));
    assert_eq!(decode_amd_temp(364 << 21), Some(46));
    assert_eq!(decode_amd_temp((800 << 21) | 0x8_0000), Some(51));
    assert_eq!(decode_amd_temp((800 << 21) | 0x3_0000), Some(51));
    assert_eq!(decode_amd_temp((800 << 21) | 0x1_0000), Some(100));
    assert_eq!(decode_amd_temp((360 << 21) | 0x8_0000), None);
    assert_eq!(decode_amd_temp(4 << 21), None);
    assert_eq!(decode_amd_temp(1000 << 21), Some(125));
    assert_eq!(decode_amd_temp(1001 << 21), None);
    assert_eq!(decode_amd_temp(0), None);
}

#[test]
fn smn_read_request_and_reply() {
    let buf = smn_request(F17H_M01H_THM_TCON_CUR_TMP);
    assert_eq!(&buf[..14], b"ioctl_read_smn");
    assert!(buf[14..32].iter().all(|&b| b == 0));
    assert_eq!(&buf[32..40], &(F17H_M01H_THM_TCON_CUR_TMP as i64).to_le_bytes());
    assert_eq!(smn_reply(true, 8, -1), Some(0xFFFF_FFFF));
    assert_eq!(smn_reply(true, 8, 0x1_0000_0005), Some(5));
    assert_eq!(smn_reply(true, 4, 5), None);
    assert_eq!(smn_reply(false, 8, 5), None);
    assert_eq!(IOCTL_PIO_LOAD_BINARY, (41394u32 << 16) | (0x821 << 2));
    assert_eq!(IOCTL_PIO_EXECUTE_FN, (41394u32 << 16) | (0x841 << 2));
}

#[test]
fn device_info_report() {
    let mut report = [0u8; 64];
    report[5] = 3;
    report[8] = 7;
    report[9] = 1;
    let info = parse_device_info(&report[..10]).expect("long enough");
    assert_eq!(info.model_id, 3);
    assert_eq!(info.capability_mask, 7);
    assert!(info.is_fahrenheit_capable);
    assert!(parse_device_info(&report[..9]).is_none());
    report[9] = 2;
    assert!(!parse_device_info(&report).unwrap().is_fahrenheit_capable);
}

#[test]
fn platform_values_override_base_values() {
    let base = BaseReadings { cpu_temp: 40, cpu_load: 10, cpu_power_watts: 30, cpu_clock_mhz: 3000 };
    let m = merge_readings(&base, &PlatformReadings::none());
    assert_eq!((m.cpu_temp, m.cpu_load, m.cpu_power_watts, m.cpu_clock_mhz), (40, 10, 30, 3000));
    assert_eq!((m.gpu_temp, m.gpu_load, m.gpu_power_watts, m.gpu_clock_mhz), (0, 0, 0, 0));
    let p = PlatformReadings {
        cpu_temp: Some(55),
        cpu_load: None,
        cpu_power_watts: Some(88),
        cpu_clock_mhz: None,
        gpu_temp: Some(60),
        gpu_load: Some(5),
        gpu_power_watts: None,
        gpu_clock_mhz: Some(1500),
    };
    let m = merge_readings(&base, &p);
    assert_eq!((m.cpu_temp, m.cpu_load, m.cpu_power_watts, m.cpu_clock_mhz), (55, 10, 88, 3000));
    assert_eq!((m.gpu_temp, m.gpu_load, m.gpu_power_watts, m.gpu_clock_mhz), (60, 5, 0, 1500));
}

fn values_of(text: &str) -> segotep_digital::monitor::windows_sensors::WindowsSensorValues {
    let segs = sensor_segments(text);
    let values: Vec<Option<u16>> = segs
        .iter()
        .map(|s| {
            s.value_text
                .as_deref()
                .and_then(|t| t.trim().parse::<f64>().ok())
                .map(|v| v.round().clamp(0.0, 65535.0) as u16)
        })
        .collect();
    combine_sensor_segments(&segs, &values)
}

#[test]
fn ldgt_sensor_text() {
    let text = "\0\0xx{\"a\":{\"label\":\"CPU Package Temperature\",\"value\":\"48.5\"},\
        \"b\":{\"label\":\"CPU Package Power\",\"value\":\"65.2\"},\
        \"c\":{\"label\":\"GPU Temperature\",\"value\":\"55\"},\
        \"d\":{\"label\":\"CPU Clock\",\"value\":\"50\"}}yy\0";
    let segs = sensor_segments(text);
    assert_eq!(segs.len(), 4);
    assert!(segs[0].matches.cpu_temp);
    assert_eq!(segs[0].value_text.as_deref(), Some("48.5"));
    assert!(segs[1].matches.cpu_power);
    assert!(!segs[1].matches.cpu_temp);
    assert!(segs[2].matches.gpu_temp);
    assert!(segs[3].matches.cpu_clock);
    let v = values_of(text);
    assert_eq!(v.cpu_temp, Some(49));
    assert_eq!(v.cpu_power, Some(65));
    assert_eq!(v.cpu_clock, None);
    assert_eq!(v.gpu_temp, Some(55));
    assert_eq!(v.gpu_power, None);
    assert_eq!(v.gpu_clock, None);
}

#[test]
fn ldgt_keeps_hottest_cpu_and_latest_gpu() {
    let text = "{\"Tctl\":{\"t\":\"Tctl temp\",\"value\":70}],\
        \"Tdie\":{\"t\":\"Tdie temp\",\"value\":\"62\"},\
        \"g1\":{\"t\":\"GPU Clock\",\"value\":\"1500\"},\
        \"g2\":{\"t\":\"GPU Memory Clock\",\"value\":\"900\"},\
        \"c\":{\"t\":\"Core Clock (perf #1)\",\"value\":\"4500.4\"},\
        \"p\":{\"t\":\"CPU Power\",\"value\":65}}";
    let v = values_of(text);
    assert_eq!(v.cpu_temp, Some(70));
    assert_eq!(v.gpu_clock, Some(900));
    assert_eq!(v.cpu_clock, Some(4500));
    assert_eq!(v.cpu_power, Some(65));
    // An unquoted value right before the object separator ends with its entry.
    let cut = values_of("{\"p\":{\"t\":\"CPU Power\",\"value\":65},\"x\":1}");
    assert_eq!(cut.cpu_power, Some(65));
    assert_eq!(values_of("no json here"), values_of(""));
    assert_eq!(values_of("}{").cpu_temp, None);
}

#[test]
fn energy_counter_text() {
    assert_eq!(counter_from_text("123456789\n"), Some(123_456_789));
    assert_eq!(counter_from_text("  42 "), Some(42));
    assert_eq!(counter_from_text("18446744073709551615"), Some(u64::MAX));
    assert_eq!(counter_from_text("18446744073709551616"), None);
    assert_eq!(counter_from_text("-1"), None);
    assert_eq!(counter_from_text(""), None);
    assert_eq!(counter_from_text("12 34"), None);
}

#[test]
fn clock_averaged_over_cores() {
    assert_eq!(khz_from_scaling_cur_freq("3600000\n"), Some(3_600_000));
    assert_eq!(khz_from_scaling_cur_freq("4294967296"), None);
    assert_eq!(khz_from_scaling_cur_freq("n/a"), None);
    assert_eq!(average_khz_to_mhz(&vec![3_600_000, 4_200_000]), Some(3900));
    assert_eq!(average_khz_to_mhz(&vec![1999]), Some(1));
    assert_eq!(average_khz_to_mhz(&vec![1000, 2999]), Some(1));
    assert_eq!(average_khz_to_mhz(&vec![u32::MAX, u32::MAX]), Some(65535));
    assert_eq!(average_khz_to_mhz(&vec![]), None);
}

#[test]
fn core_directory_names() {
    assert!(is_core_dir_name("cpu0"));
    assert!(is_core_dir_name("cpu15"));
    assert!(!is_core_dir_name("cpu"));
    assert!(!is_core_dir_name("cpufreq"));
    assert!(!is_core_dir_name("cpuidle"));
    assert!(!is_core_dir_name("cpu1a"));
    assert!(!is_core_dir_name("xcpu0"));
}

fn device(name: Option<&str>, inputs: &[(bool, Option<&str>)]) -> HwmonDevice {
    HwmonDevice {
        name: name.map(str::to_string),
        inputs: inputs
            .iter()
            .map(|&(exists, label)| TempInputProbe { exists, label: label.map(str::to_string) })
            .collect(),
    }
}

#[test]
fn hwmon_search_picks_first_qualifying_input() {
    assert_eq!(find_hwmon_cpu_temp(&vec![]), None);
    let devs = vec![
        device(Some("acpitz\n"), &[(true, None)]),
        device(None, &[(true, None)]),
        device(Some("k10temp\n"), &[(false, None), (true, Some("Tccd1")), (true, Some("Tctl\n"))]),
        device(Some("coretemp\n"), &[(true, None)]),
    ];
    assert_eq!(find_hwmon_cpu_temp(&devs), Some((2, 3)));
    // The first input is taken whatever its label says.
    let devs = vec![device(Some("CoreTemp"), &[(true, Some("Core 0")), (true, Some("Package id 0"))])];
    assert_eq!(find_hwmon_cpu_temp(&devs), Some((0, 1)));
    // Only inputs 1..=8 are looked at.
    let mut inputs = vec![(false, None); 8];
    inputs.push((true, Some("Package")));
    assert_eq!(find_hwmon_cpu_temp(&vec![device(Some("zenpower"), &inputs)]), None);
    let devs = vec![device(Some("nct6775"), &[(true, Some("Package"))])];
    assert_eq!(find_hwmon_cpu_temp(&devs), None);
}

fn segment(m: SensorMatch) -> SensorSegment {
    SensorSegment { matches: m, value_text: None }
}

const NONE: SensorMatch = SensorMatch {
    cpu_temp: false,
    cpu_power: false,
    cpu_clock: false,
    gpu_temp: false,
    gpu_power: false,
    gpu_clock: false,
};

#[test]
fn cpu_values_are_the_largest_readings() {
    let temp = SensorMatch { cpu_temp: true, ..NONE };
    let power = SensorMatch { cpu_power: true, ..NONE };
    let clock = SensorMatch { cpu_clock: true, ..NONE };
    let segs = vec![
        segment(temp),
        segment(temp),
        segment(temp),
        segment(power),
        segment(power),
        segment(clock),
        segment(clock),
        segment(clock),
    ];
    let values = vec![
        Some(40),
        Some(300),
        Some(70),
        Some(90),
        Some(65),
        Some(50),
        Some(3000),
        Some(4000),
    ];
    let v = combine_sensor_segments(&segs, &values);
    assert_eq!((v.cpu_temp, v.cpu_power, v.cpu_clock), (Some(255), Some(90), Some(4000)));
    // Zero readings and clocks below 100 MHz give nothing.
    let segs = vec![segment(temp), segment(power), segment(clock), segment(clock)];
    let v = combine_sensor_segments(&segs, &vec![Some(0), Some(0), Some(99), None]);
    assert_eq!((v.cpu_temp, v.cpu_power, v.cpu_clock), (None, None, None));
    let v = combine_sensor_segments(&segs, &vec![None, Some(1), Some(100), Some(0)]);
    assert_eq!((v.cpu_temp, v.cpu_power, v.cpu_clock), (None, Some(1), Some(100)));
}

#[test]
fn ldgt_entries_are_those_of_the_json_block() {
    let block = "{\"a\":{\"t\":\"CPU Power\",\"value\":\"12\"},\"b\":{\"t\":\"GPU Clock\",\"value\":\"7\"}}";
    let text = format!("\0ab}}{}x{{y", block);
    assert_eq!(sensor_segments(&text), sensor_segments(block));
    assert_eq!(sensor_segments(block).len(), 2);
    assert!(sensor_segments("no block").is_empty());
    assert!(sensor_segments("} {").is_empty());
}

#[test]
fn quoted_and_unquoted_values() {
    let quoted = sensor_segments("{\"a\":{\"t\":\"Tctl\",\"value\":\"48.5\"}}");
    assert_eq!(quoted[0].value_text.as_deref(), Some("48.5"));
    let text = "{\"a\":{\"t\":\"Tctl temp\",\"value\":48.5},\"b\":{\"t\":\"CPU Power\",\"value\":31.6},\"c\":{\"t\":\"Core Clock\",\"value\":3600}}";
    let segs = sensor_segments(text);
    assert_eq!(segs[0].value_text.as_deref(), Some("48.5"));
    assert_eq!(segs[1].value_text.as_deref(), Some("31.6"));
    assert_eq!(segs[2].value_text.as_deref(), Some("3600"));
    let v = values_of(text);
    assert_eq!((v.cpu_temp, v.cpu_power, v.cpu_clock), (Some(49), Some(32), Some(3600)));
    // No key: no value.
    assert_eq!(sensor_segments("{\"a\":{\"t\":\"Tctl\"}}")[0].value_text, None);
}

/// Loads modules with the given outcomes; returns the modules tried and the end state.
fn load_modules(outcomes: &[bool]) -> (Vec<ModuleKind>, PawnIoModules) {
    let (mut s, mut a) = PawnIoModules::begin_loading();
    let mut tried = Vec::new();
    let mut it = outcomes.iter();
    while let ModuleAction::Load(kind) = a {
        tried.push(kind);
        (s, a) = s.step(*it.next().expect("an outcome for each load"));
    }
    (tried, s)
}

#[test]
fn pawnio_tries_amd_then_intel() {
    let (tried, s) = load_modules(&[true]);
    assert_eq!(tried, vec![ModuleKind::AmdFamily17]);
    assert!(s.is_amd() && !s.is_intel() && s.initialized());
    let (tried, s) = load_modules(&[false, true]);
    assert_eq!(tried, vec![ModuleKind::AmdFamily17, ModuleKind::IntelMsr]);
    assert!(!s.is_amd() && s.is_intel() && s.initialized());
    let (tried, s) = load_modules(&[false, false]);
    assert_eq!(tried.len(), 2);
    assert_eq!(s, PawnIoModules::Unavailable);
    assert!(!s.is_amd() && !s.is_intel() && !s.initialized());
    assert!(!PawnIoModules::Unloaded.initialized());
    assert_eq!(s.step(true), (PawnIoModules::Unavailable, ModuleAction::Finish));
}
