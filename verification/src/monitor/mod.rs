//! Hardware telemetry: turning raw sensor readings into display values, and
//! merging the platform-specific sources into one snapshot.
pub mod cpu_freq;
pub mod cpu_load;
pub mod cpu_power;
pub mod cpu_temp;
pub mod windows_native;
pub mod windows_pawnio;
pub mod windows_sensors;

use vstd::prelude::*;

verus! {

/// One telemetry snapshot, in display units.
#[derive(Debug, Clone, Copy, Default, PartialEq, Eq, Structural)]
pub struct HardwareMetrics {
    pub cpu_temp: u8,
    pub cpu_load: u8,
    pub cpu_power_watts: u16,
    pub cpu_clock_mhz: u16,
    pub gpu_temp: u8,
    pub gpu_load: u8,
    pub gpu_power_watts: u16,
    pub gpu_clock_mhz: u16,
}

/// The CPU values every platform can produce (sysfs, `/proc/stat`, sysinfo).
#[derive(Debug, Clone, Copy, PartialEq, Eq, Structural)]
pub struct BaseReadings {
    pub cpu_temp: u8,
    pub cpu_load: u8,
    pub cpu_power_watts: u16,
    pub cpu_clock_mhz: u16,
}

/// Values from platform sources that take precedence over the base readings
/// (Windows: PawnIO temperature, PDH power, clock and load, NVML GPU values).
/// `None` where the source gave nothing.
#[derive(Debug, Clone, Copy, PartialEq, Eq, Structural)]
pub struct PlatformReadings {
    pub cpu_temp: Option<u8>,
    pub cpu_load: Option<u8>,
    pub cpu_power_watts: Option<u16>,
    pub cpu_clock_mhz: Option<u16>,
    pub gpu_temp: Option<u8>,
    pub gpu_load: Option<u8>,
    pub gpu_power_watts: Option<u16>,
    pub gpu_clock_mhz: Option<u16>,
}

/// `o`'s value, or `d` when it has none.
pub open spec fn or_else<T>(o: Option<T>, d: T) -> T {
    match o {
        Some(v) => v,
        None => d,
    }
}

/// The snapshot made of `base`, overridden by whatever `platform` provides;
/// GPU values default to 0.
pub open spec fn merged(base: BaseReadings, platform: PlatformReadings) -> HardwareMetrics {
    HardwareMetrics {
        cpu_temp: or_else(platform.cpu_temp, base.cpu_temp),
        cpu_load: or_else(platform.cpu_load, base.cpu_load),
        cpu_power_watts: or_else(platform.cpu_power_watts, base.cpu_power_watts),
        cpu_clock_mhz: or_else(platform.cpu_clock_mhz, base.cpu_clock_mhz),
        gpu_temp: or_else(platform.gpu_temp, 0u8),
        gpu_load: or_else(platform.gpu_load, 0u8),
        gpu_power_watts: or_else(platform.gpu_power_watts, 0u16),
        gpu_clock_mhz: or_else(platform.gpu_clock_mhz, 0u16),
    }
}

impl PlatformReadings {
    /// No platform source: every value comes from the base readings.
    pub fn none() -> (p: Self)
        ensures
            p.cpu_temp is None,
            p.cpu_load is None,
            p.cpu_power_watts is None,
            p.cpu_clock_mhz is None,
            p.gpu_temp is None,
            p.gpu_load is None,
            p.gpu_power_watts is None,
            p.gpu_clock_mhz is None,
    {
        PlatformReadings {
            cpu_temp: None,
            cpu_load: None,
            cpu_power_watts: None,
            cpu_clock_mhz: None,
            gpu_temp: None,
            gpu_load: None,
            gpu_power_watts: None,
            gpu_clock_mhz: None,
        }
    }
}

fn pick_u8(o: Option<u8>, d: u8) -> (v: u8)
    ensures
        v == or_else(o, d),
{
    match o {
        Some(x) => x,
        None => d,
    }
}

fn pick_u16(o: Option<u16>, d: u16) -> (v: u16)
    ensures
        v == or_else(o, d),
{
    match o {
        Some(x) => x,
        None => d,
    }
}

/// Merges the base CPU readings with the platform sources into one snapshot.
pub fn merge_readings(base: &BaseReadings, platform: &PlatformReadings) -> (m: HardwareMetrics)
    ensures
        m == merged(*base, *platform),
{
    HardwareMetrics {
        cpu_temp: pick_u8(platform.cpu_temp, base.cpu_temp),
        cpu_load: pick_u8(platform.cpu_load, base.cpu_load),
        cpu_power_watts: pick_u16(platform.cpu_power_watts, base.cpu_power_watts),
        cpu_clock_mhz: pick_u16(platform.cpu_clock_mhz, base.cpu_clock_mhz),
        gpu_temp: pick_u8(platform.gpu_temp, 0),
        gpu_load: pick_u8(platform.gpu_load, 0),
        gpu_power_watts: pick_u16(platform.gpu_power_watts, 0),
        gpu_clock_mhz: pick_u16(platform.gpu_clock_mhz, 0),
    }
}

/// Without platform sources the snapshot is the base CPU readings with all GPU
/// values 0.
pub proof fn lemma_merge_without_platform(base: BaseReadings, platform: PlatformReadings)
    requires
        platform == (PlatformReadings {
            cpu_temp: None,
            cpu_load: None,
            cpu_power_watts: None,
            cpu_clock_mhz: None,
            gpu_temp: None,
            gpu_load: None,
            gpu_power_watts: None,
            gpu_clock_mhz: None,
        }),
    ensures
        merged(base, platform) == (HardwareMetrics {
            cpu_temp: base.cpu_temp,
            cpu_load: base.cpu_load,
            cpu_power_watts: base.cpu_power_watts,
            cpu_clock_mhz: base.cpu_clock_mhz,
            gpu_temp: 0,
            gpu_load: 0,
            gpu_power_watts: 0,
            gpu_clock_mhz: 0,
        }),
{
}

/// A value that a platform source provides always wins over the base reading.
pub proof fn lemma_platform_value_wins(base: BaseReadings, platform: PlatformReadings)
    ensures
        platform.cpu_temp matches Some(t) ==> merged(base, platform).cpu_temp == t,
        platform.cpu_load matches Some(l) ==> merged(base, platform).cpu_load == l,
        platform.cpu_power_watts matches Some(w) ==> merged(base, platform).cpu_power_watts == w,
        platform.cpu_clock_mhz matches Some(c) ==> merged(base, platform).cpu_clock_mhz == c,
{
}

} // verus!
