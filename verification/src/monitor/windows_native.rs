//! Windows native sources: the PDH performance-counter query state and the
//! conversion of NVIDIA NVML readings into display values.
use vstd::prelude::*;

verus! {

/// State of the PDH query for CPU power, clock and utility counters. The
/// handles are those the PDH API returned (0 when opening or adding failed).
pub struct WindowsPdhMonitor {
    query: isize,
    cpu_power_counter: isize,
    cpu_clock_counter: isize,
    cpu_util_counter: isize,
    has_collected_first_sample: bool,
}

impl WindowsPdhMonitor {
    /// The query handle (0 when no query is open).
    pub closed spec fn spec_query(&self) -> isize {
        self.query
    }

    /// The handles of the power, clock and utility counters.
    pub closed spec fn spec_counters(&self) -> (isize, isize, isize) {
        (self.cpu_power_counter, self.cpu_clock_counter, self.cpu_util_counter)
    }

    /// Whether the first collection, which only primes the rate counters, is done.
    pub closed spec fn spec_primed(&self) -> bool {
        self.has_collected_first_sample
    }

    /// A monitor with no query yet.
    pub fn new() -> (m: Self)
        ensures
            m.spec_query() == 0,
            m.spec_counters() == (0isize, 0isize, 0isize),
            !m.spec_primed(),
    {
        WindowsPdhMonitor {
            query: 0,
            cpu_power_counter: 0,
            cpu_clock_counter: 0,
            cpu_util_counter: 0,
            has_collected_first_sample: false,
        }
    }

    /// Records the handles the query set-up produced.
    pub fn set_handles(&mut self, query: isize, power: isize, clock: isize, util: isize)
        ensures
            final(self).spec_query() == query,
            final(self).spec_counters() == (power, clock, util),
            final(self).spec_primed() == old(self).spec_primed(),
    {
        self.query = query;
        self.cpu_power_counter = power;
        self.cpu_clock_counter = clock;
        self.cpu_util_counter = util;
    }

    /// The query handle.
    pub fn query(&self) -> (q: isize)
        ensures
            q == self.spec_query(),
    {
        self.query
    }

    /// The handles of the power, clock and utility counters.
    pub fn counters(&self) -> (c: (isize, isize, isize))
        ensures
            c == self.spec_counters(),
    {
        (self.cpu_power_counter, self.cpu_clock_counter, self.cpu_util_counter)
    }

    /// Decides, after a collection attempt, whether the counters hold values to
    /// read: not when no query is open or the collection failed, and not on the
    /// first successful collection, which only primes the rate counters.
    pub fn begin_sample(&mut self, collect_ok: bool) -> (read: bool)
        ensures
            read == (old(self).spec_query() != 0 && collect_ok && old(self).spec_primed()),
            final(self).spec_query() == old(self).spec_query(),
            final(self).spec_counters() == old(self).spec_counters(),
            final(self).spec_primed() == (old(self).spec_primed() || (old(self).spec_query() != 0
                && collect_ok)),
    {
        if self.query == 0 || !collect_ok {
            return false;
        }
        if !self.has_collected_first_sample {
            self.has_collected_first_sample = true;
            return false;
        }
        true
    }
}

/// GPU values from NVML, in display units; `None` where NVML gave nothing.
#[derive(Debug, Clone, Copy, PartialEq, Eq, Structural)]
pub struct GpuReadings {
    pub temp: Option<u8>,
    pub power_watts: Option<u16>,
    pub clock_mhz: Option<u16>,
    pub load: Option<u8>,
}

/// `x`, capped at `max`.
pub open spec fn cap(x: int, max: int) -> int {
    if x > max {
        max
    } else {
        x
    }
}

/// The display values NVML readings give. Each argument is the value a
/// successful NVML call returned. Temperature is capped at 255; power in
/// milliwatts becomes whole watts, rounded half up and capped at 65535, and a
/// reading of 0 counts as none; a clock of 0 counts as none, others are
/// capped at 65535; utilization is capped at 100 %.
pub open spec fn spec_gpu_readings(
    temp_c: Option<u32>,
    power_mw: Option<u32>,
    clock_mhz: Option<u32>,
    util_pct: Option<u32>,
) -> GpuReadings {
    GpuReadings {
        temp: match temp_c {
            Some(t) => Some(cap(t as int, 255) as u8),
            None => None,
        },
        power_watts: match power_mw {
            Some(mw) => if mw > 0 {
                Some(cap((mw + 500) / 1000, 65535) as u16)
            } else {
                None
            },
            None => None,
        },
        clock_mhz: match clock_mhz {
            Some(c) => if c > 0 {
                Some(cap(c as int, 65535) as u16)
            } else {
                None
            },
            None => None,
        },
        load: match util_pct {
            Some(u) => Some(cap(u as int, 100) as u8),
            None => None,
        },
    }
}

/// Converts NVML readings into display values.
pub fn gpu_readings(
    temp_c: Option<u32>,
    power_mw: Option<u32>,
    clock_mhz: Option<u32>,
    util_pct: Option<u32>,
) -> (g: GpuReadings)
    ensures
        g == spec_gpu_readings(temp_c, power_mw, clock_mhz, util_pct),
{
    let temp = match temp_c {
        Some(t) => Some(
            if t > 255 {
                255u8
            } else {
                t as u8
            },
        ),
        None => None,
    };
    let power_watts = match power_mw {
        Some(mw) => if mw > 0 {
            let w: u64 = (mw as u64 + 500) / 1000;
            Some(
                if w > 65535 {
                    65535u16
                } else {
                    w as u16
                },
            )
        } else {
            None
        },
        None => None,
    };
    let clock = match clock_mhz {
        Some(c) => if c > 0 {
            Some(
                if c > 65535 {
                    65535u16
                } else {
                    c as u16
                },
            )
        } else {
            None
        },
        None => None,
    };
    let load = match util_pct {
        Some(u) => Some(
            if u > 100 {
                100u8
            } else {
                u as u8
            },
        ),
        None => None,
    };
    GpuReadings { temp, power_watts, clock_mhz: clock, load }
}

/// What each display value is in terms of its NVML reading: the temperature
/// and the utilization are the readings, shown as 255 and 100 when above; the
/// power is the milliwatt reading in whole watts, rounded to the nearest watt
/// (halves up), and 65535 only when that would be at least 65535 W; a power or
/// clock reading of 0 shows nothing; a clock is the reading, 65535 when above.
pub proof fn lemma_gpu_readings_values(
    temp_c: Option<u32>,
    power_mw: Option<u32>,
    clock_mhz: Option<u32>,
    util_pct: Option<u32>,
)
    ensures
        ({
            let g = spec_gpu_readings(temp_c, power_mw, clock_mhz, util_pct);
            &&& g.temp is Some <==> temp_c is Some
            &&& temp_c matches Some(t) ==> (t <= 255 ==> g.temp == Some(t as u8)) && (t > 255
                ==> g.temp == Some(255u8))
            &&& g.power_watts is Some <==> (power_mw matches Some(mw) && mw > 0)
            &&& g.power_watts matches Some(p) ==> {
                let mw = power_mw->0 as int;
                &&& p < 65535 ==> 1000 * p - 500 <= mw < 1000 * p + 500
                &&& p == 65535 ==> mw >= 1000 * 65535 - 500
            }
            &&& g.clock_mhz is Some <==> (clock_mhz matches Some(c) && c > 0)
            &&& g.clock_mhz matches Some(c) ==> (clock_mhz->0 <= 65535 ==> c == clock_mhz->0) && (
            clock_mhz->0 > 65535 ==> c == 65535)
            &&& g.load is Some <==> util_pct is Some
            &&& util_pct matches Some(u) ==> (u <= 100 ==> g.load == Some(u as u8)) && (u > 100
                ==> g.load == Some(100u8))
        }),
{
}

} // verus!
