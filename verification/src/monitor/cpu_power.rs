//! CPU package power from a cumulative energy counter (RAPL powercap or hwmon).
//!
//! The counter is read by the caller; this module keeps the previous reading
//! and turns the energy delta over the elapsed time into whole watts.
use crate::text::{chars_of, parse_unsigned, parse_unsigned_chars, trim, trim_chars};
use vstd::prelude::*;

verus! {

/// Readings closer together than this (100 ms) reuse the last computed value.
pub const MIN_SAMPLE_INTERVAL_NS: u64 = 100_000_000;

/// The largest value the display can show for a power reading.
pub const MAX_WATTS: u16 = 65535;

/// The counter value a sysfs energy file gives: its trimmed text read as a `u64`.
pub open spec fn spec_counter_from_text(content: Seq<char>) -> Option<u64> {
    match parse_unsigned(trim(content), 10, u64::MAX as int) {
        Some(v) => Some(v as u64),
        None => None,
    }
}

/// Reads the contents of a sysfs energy counter file (`energy_uj`,
/// `max_energy_range_uj`, `energy1_input`).
pub fn counter_from_text(content: &str) -> (r: Option<u64>)
    ensures
        r == spec_counter_from_text(content@),
{
    let v = chars_of(content);
    assert(v@.subrange(0, v.len() as int) =~= v@);
    let t = trim_chars(&v, 0, v.len());
    assert(t@.subrange(0, t.len() as int) =~= t@);
    parse_unsigned_chars(&t, 0, t.len(), 10, u64::MAX)
}

/// Time between two monotonic clock readings; an earlier `now` counts as no time.
pub open spec fn elapsed_ns(last: u64, now: u64) -> int {
    if now >= last { now - last } else { 0 }
}

/// Energy consumed between two counter readings, in microjoules. A counter that
/// went backwards wrapped around at `max_range`; without a known range the delta is 0.
pub open spec fn energy_delta_uj(last: u64, current: u64, max_range: Option<u64>) -> int {
    if current >= last {
        current - last
    } else {
        match max_range {
            Some(m) => (m - last) + current,
            None => 0,
        }
    }
}

/// Whether the wrap-around delta can be formed without overflow: the counter
/// value stays within the range and the sum fits in a `u64`.
pub open spec fn energy_delta_defined(last: u64, current: u64, max_range: Option<u64>) -> bool {
    current >= last || match max_range {
        Some(m) => last <= m && (m - last) + current <= u64::MAX,
        None => true,
    }
}

/// `delta_uj` microjoules over `elapsed` nanoseconds, in watts, rounded half
/// away from zero and clamped to the display range.
pub open spec fn watts_from_energy(delta_uj: int, elapsed: int) -> int {
    let w = (2000 * delta_uj + elapsed) / (2 * elapsed);
    if w > MAX_WATTS { MAX_WATTS as int } else { w }
}

/// Where the energy counter comes from and, for a RAPL counter, the value at
/// which it wraps around.
#[derive(Debug, Clone, PartialEq, Eq)]
pub struct EnergySource {
    /// Path of the counter file, in microjoules.
    pub energy_path: String,
    /// The counter's wrap-around value, when the kernel publishes one.
    pub max_energy_range_uj: Option<u64>,
}

/// Power monitor state: the last counter reading, when it was taken, and the
/// last value computed.
pub struct CpuPowerMonitor {
    source: Option<EnergySource>,
    last_energy_uj: u64,
    last_timestamp_ns: u64,
    last_calculated_watts: u16,
}

impl CpuPowerMonitor {
    /// The energy counter this monitor reads, if one was found.
    pub closed spec fn source(&self) -> Option<EnergySource> {
        self.source
    }

    /// Whether an energy counter was found.
    pub open spec fn has_source(&self) -> bool {
        self.source() is Some
    }

    /// The counter's wrap-around value, if known.
    pub open spec fn max_range(&self) -> Option<u64> {
        match self.source() {
            Some(s) => s.max_energy_range_uj,
            None => None,
        }
    }

    /// The counter reading the next delta is measured from.
    pub closed spec fn last_energy(&self) -> u64 {
        self.last_energy_uj
    }

    /// The clock reading at which `last_energy` was taken.
    pub closed spec fn last_timestamp(&self) -> u64 {
        self.last_timestamp_ns
    }

    /// The value reported while readings come too close together.
    pub closed spec fn last_watts(&self) -> u16 {
        self.last_calculated_watts
    }

    /// Whether a call at clock reading `now_ns` computes a new value (and so
    /// needs a fresh counter reading) rather than repeating the last one.
    pub open spec fn spec_reading_due(&self, now_ns: u64) -> bool {
        self.has_source() && elapsed_ns(self.last_timestamp(), now_ns) >= MIN_SAMPLE_INTERVAL_NS
    }

    /// Creates a monitor from the discovered energy source, the counter value
    /// read at start-up (0 when it could not be read) and the clock reading.
    pub fn new(source: Option<EnergySource>, initial_energy_uj: u64, now_ns: u64) -> (m: Self)
        ensures
            m.source() == source,
            m.last_energy() == initial_energy_uj,
            m.last_timestamp() == now_ns,
            m.last_watts() == 0,
    {
        CpuPowerMonitor {
            source,
            last_energy_uj: initial_energy_uj,
            last_timestamp_ns: now_ns,
            last_calculated_watts: 0,
        }
    }

    /// Path of the energy counter to read, if any.
    pub fn energy_path(&self) -> (p: Option<&str>)
        ensures
            match p {
                Some(path) => self.source() matches Some(s) && path@ == s.energy_path@,
                None => self.source() is None,
            },
    {
        match &self.source {
            Some(s) => Some(s.energy_path.as_str()),
            None => None,
        }
    }

    /// Whether a call of `get_power_watts` at `now_ns` needs a fresh counter reading.
    pub fn reading_due(&self, now_ns: u64) -> (b: bool)
        ensures
            b == self.spec_reading_due(now_ns),
    {
        self.source.is_some() && elapsed(self.last_timestamp_ns, now_ns) >= MIN_SAMPLE_INTERVAL_NS
    }

    /// Whether `current_energy_uj` can be used at `now_ns` without an
    /// out-of-range wrap-around.
    pub open spec fn reading_acceptable(&self, now_ns: u64, current_energy_uj: Option<u64>) -> bool {
        self.spec_reading_due(now_ns) ==> match current_energy_uj {
            Some(cur) => energy_delta_defined(self.last_energy(), cur, self.max_range()),
            None => true,
        }
    }

    /// Whether `current_energy_uj` can be used at `now_ns`: a counter that went
    /// backwards must lie within its wrap-around range.
    pub fn accepts_reading(&self, now_ns: u64, current_energy_uj: Option<u64>) -> (b: bool)
        ensures
            b == self.reading_acceptable(now_ns, current_energy_uj),
    {
        if !self.reading_due(now_ns) {
            return true;
        }
        match current_energy_uj {
            None => true,
            Some(cur) => {
                let max_range = match &self.source {
                    Some(s) => s.max_energy_range_uj,
                    None => None,
                };
                if cur >= self.last_energy_uj {
                    true
                } else {
                    match max_range {
                        Some(m) => self.last_energy_uj <= m && m - self.last_energy_uj <= u64::MAX
                            - cur,
                        None => true,
                    }
                }
            },
        }
    }

    /// CPU power in watts from the counter delta since the last computed value.
    ///
    /// Without an energy source the power is 0. Within 100 ms of the last
    /// computed value, or when the counter could not be read
    /// (`current_energy_uj` is `None`), the last value is returned and nothing
    /// changes. Otherwise the delta over the elapsed time gives the new value,
    /// which becomes the last value, and the reading and time become the new
    /// reference.
    pub fn get_power_watts(&mut self, now_ns: u64, current_energy_uj: Option<u64>) -> (w: u16)
        requires
            old(self).reading_acceptable(now_ns, current_energy_uj),
        ensures
            !old(self).has_source() ==> w == 0 && *final(self) == *old(self),
            old(self).has_source() && (!old(self).spec_reading_due(now_ns)
                || current_energy_uj is None) ==> w == old(self).last_watts() && *final(self)
                == *old(self),
            old(self).spec_reading_due(now_ns) && current_energy_uj is Some ==> {
                let cur = current_energy_uj->0;
                &&& w == watts_from_energy(
                    energy_delta_uj(old(self).last_energy(), cur, old(self).max_range()),
                    elapsed_ns(old(self).last_timestamp(), now_ns),
                )
                &&& final(self).last_energy() == cur
                &&& final(self).last_timestamp() == now_ns
                &&& final(self).last_watts() == w
                &&& final(self).source() == old(self).source()
            },
    {
        let max_range = match &self.source {
            Some(s) => s.max_energy_range_uj,
            None => {
                return 0;
            },
        };
        let elapsed_now = elapsed(self.last_timestamp_ns, now_ns);
        if elapsed_now < MIN_SAMPLE_INTERVAL_NS {
            return self.last_calculated_watts;
        }
        match current_energy_uj {
            Some(current) => {
                let delta_uj: u64 = if current >= self.last_energy_uj {
                    current - self.last_energy_uj
                } else {
                    match max_range {
                        Some(m) => (m - self.last_energy_uj) + current,
                        None => 0,
                    }
                };
                let watts = watts_for(delta_uj, elapsed_now);
                self.last_energy_uj = current;
                self.last_timestamp_ns = now_ns;
                self.last_calculated_watts = watts;
                watts
            },
            None => self.last_calculated_watts,
        }
    }
}

fn elapsed(last: u64, now: u64) -> (e: u64)
    ensures
        e == elapsed_ns(last, now),
{
    if now >= last { now - last } else { 0 }
}

fn watts_for(delta_uj: u64, elapsed: u64) -> (w: u16)
    requires
        elapsed > 0,
    ensures
        w == watts_from_energy(delta_uj as int, elapsed as int),
{
    let num: u128 = 2000 * (delta_uj as u128) + (elapsed as u128);
    let den: u128 = 2 * (elapsed as u128);
    let q: u128 = num / den;
    if q > MAX_WATTS as u128 { MAX_WATTS } else { q as u16 }
}

/// Power drawn over a whole number of seconds: a counter that advanced by
/// `w` joules per second over `secs` seconds reads as `w` watts.
pub proof fn lemma_watts_exact(w: int, secs: int)
    requires
        secs > 0,
        0 <= w <= MAX_WATTS,
    ensures
        watts_from_energy(w * secs * 1_000_000, secs * 1_000_000_000) == w,
{
    let e = secs * 1_000_000_000;
    assert(2000 * (w * secs * 1_000_000) + e == w * (2 * e) + e) by (nonlinear_arith)
        requires
            e == secs * 1_000_000_000,
    ;
    assert(e > 0);
    vstd::arithmetic::div_mod::lemma_fundamental_div_mod_converse(w * (2 * e) + e, 2 * e, w, e);
}

/// Power is energy over the elapsed time, whatever that time is: the result is
/// `1000 * delta_uj / elapsed` watts (microjoules over nanoseconds) rounded to
/// the nearest whole watt, halves up, or 65535 when that is at least as large.
pub proof fn lemma_watts_nearest(delta_uj: int, elapsed: int)
    requires
        delta_uj >= 0,
        elapsed > 0,
    ensures
        0 <= watts_from_energy(delta_uj, elapsed) <= MAX_WATTS,
        watts_from_energy(delta_uj, elapsed) < MAX_WATTS ==> {
            let w = watts_from_energy(delta_uj, elapsed);
            2 * elapsed * w - elapsed <= 2000 * delta_uj < 2 * elapsed * w + elapsed
        },
        watts_from_energy(delta_uj, elapsed) == MAX_WATTS ==> 2000 * delta_uj >= 2 * elapsed
            * MAX_WATTS - elapsed,
{
    let x = 2000 * delta_uj + elapsed;
    let d = 2 * elapsed;
    let q = x / d;
    vstd::arithmetic::div_mod::lemma_fundamental_div_mod(x, d);
    vstd::arithmetic::div_mod::lemma_mod_pos_bound(x, d);
    vstd::arithmetic::div_mod::lemma_div_pos_is_pos(x, d);
    assert(d * q <= x < d * q + d);
    if q > MAX_WATTS {
        assert(d * q >= d * (MAX_WATTS + 1)) by (nonlinear_arith)
            requires
                q >= MAX_WATTS + 1,
                d > 0,
        ;
    }
    assert(d * q == 2 * elapsed * q) by (nonlinear_arith)
        requires
            d == 2 * elapsed,
    ;
    assert(d * (MAX_WATTS + 1) == 2 * elapsed * MAX_WATTS + d) by (nonlinear_arith)
        requires
            d == 2 * elapsed,
    ;
}

} // verus!
