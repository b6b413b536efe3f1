//! CPU clock frequency in MHz, from cpufreq or from per-core frequencies.
use crate::text::{chars_of, parse_unsigned, parse_unsigned_chars, trim, trim_chars};
use vstd::prelude::*;

verus! {

/// Largest clock value the display can show.
pub const MAX_MHZ: u64 = 65535;

/// The MHz value of a `scaling_cur_freq` reading (kHz): truncated, capped at 65535.
pub open spec fn spec_khz_to_mhz(khz: u32) -> u16 {
    if khz / 1000 > MAX_MHZ {
        MAX_MHZ as u16
    } else {
        (khz / 1000) as u16
    }
}

/// The clock a cpufreq `scaling_cur_freq` file gives: its trimmed text read as
/// a `u32` of kHz; `None` when it is no such number.
pub open spec fn spec_mhz_from_scaling_cur_freq(content: Seq<char>) -> Option<u16> {
    match parse_unsigned(trim(content), 10, u32::MAX as int) {
        Some(khz) => Some(spec_khz_to_mhz(khz as u32)),
        None => None,
    }
}

/// Reads the contents of a cpufreq `scaling_cur_freq` file.
pub fn mhz_from_scaling_cur_freq(content: &str) -> (mhz: Option<u16>)
    ensures
        mhz == spec_mhz_from_scaling_cur_freq(content@),
{
    let v = chars_of(content);
    assert(v@.subrange(0, v.len() as int) =~= v@);
    let t = trim_chars(&v, 0, v.len());
    assert(t@.subrange(0, t.len() as int) =~= t@);
    match parse_unsigned_chars(&t, 0, t.len(), 10, u32::MAX as u64) {
        Some(khz) => {
            let khz = khz as u32;
            if khz / 1000 > MAX_MHZ as u32 {
                Some(MAX_MHZ as u16)
            } else {
                Some((khz / 1000) as u16)
            }
        },
        None => None,
    }
}

/// The kHz value a cpufreq `scaling_cur_freq` file gives: its trimmed text
/// read as a `u32`.
pub open spec fn spec_khz_from_scaling_cur_freq(content: Seq<char>) -> Option<u32> {
    match parse_unsigned(trim(content), 10, u32::MAX as int) {
        Some(khz) => Some(khz as u32),
        None => None,
    }
}

/// Reads the kHz value of a cpufreq `scaling_cur_freq` file.
pub fn khz_from_scaling_cur_freq(content: &str) -> (khz: Option<u32>)
    ensures
        khz == spec_khz_from_scaling_cur_freq(content@),
{
    let v = chars_of(content);
    assert(v@.subrange(0, v.len() as int) =~= v@);
    let t = trim_chars(&v, 0, v.len());
    assert(t@.subrange(0, t.len() as int) =~= t@);
    match parse_unsigned_chars(&t, 0, t.len(), 10, u32::MAX as u64) {
        Some(k) => Some(k as u32),
        None => None,
    }
}

/// Whether a directory under `/sys/devices/system/cpu` is that of one core:
/// `cpu` followed by one or more decimal digits (`cpu0`, `cpu12`, not
/// `cpufreq` or `cpuidle`).
pub open spec fn spec_is_core_dir_name(name: Seq<char>) -> bool {
    &&& name.len() > 3
    &&& name[0] == 'c' && name[1] == 'p' && name[2] == 'u'
    &&& forall|i: int| 3 <= i < name.len() ==> '0' <= #[trigger] name[i] <= '9'
}

/// Tells a core's directory name (`cpuN`) from the other entries beside it.
pub fn is_core_dir_name(name: &str) -> (b: bool)
    ensures
        b == spec_is_core_dir_name(name@),
{
    let v = chars_of(name);
    if v.len() <= 3 || v[0] != 'c' || v[1] != 'p' || v[2] != 'u' {
        return false;
    }
    let mut i: usize = 3;
    while i < v.len()
        invariant
            3 <= i <= v.len(),
            v@ == name@,
            forall|j: int| 3 <= j < i ==> '0' <= #[trigger] v@[j] <= '9',
        decreases v.len() - i,
    {
        if v[i] < '0' || v[i] > '9' {
            return false;
        }
        i = i + 1;
    }
    true
}

/// The sum of per-core kHz readings.
pub open spec fn khz_sum(s: Seq<u32>) -> int
    decreases s.len(),
{
    if s.len() == 0 {
        0
    } else {
        khz_sum(s.drop_last()) + s.last()
    }
}

/// The clock of all cores: the mean of their kHz readings in whole MHz
/// (truncated, capped at 65535); none when no core was read.
pub open spec fn spec_average_khz_to_mhz(khz: Seq<u32>) -> Option<u16> {
    if khz.len() == 0 {
        None
    } else {
        let mhz = khz_sum(khz) / ((khz.len() * 1000) as int);
        Some(if mhz > MAX_MHZ { MAX_MHZ as u16 } else { mhz as u16 })
    }
}

proof fn lemma_khz_sum_bound(s: Seq<u32>)
    ensures
        0 <= khz_sum(s) <= s.len() * 0xffff_ffff,
    decreases s.len(),
{
    if s.len() > 0 {
        lemma_khz_sum_bound(s.drop_last());
    }
}

/// The mean clock of all cores from their `scaling_cur_freq` readings (kHz).
pub fn average_khz_to_mhz(khz: &Vec<u32>) -> (mhz: Option<u16>)
    ensures
        mhz == spec_average_khz_to_mhz(khz@),
{
    if khz.len() == 0 {
        return None;
    }
    let mut sum: u128 = 0;
    let mut i: usize = 0;
    while i < khz.len()
        invariant
            i <= khz.len(),
            sum == khz_sum(khz@.subrange(0, i as int)),
        decreases khz.len() - i,
    {
        proof {
            assert(khz@.subrange(0, i + 1).drop_last() =~= khz@.subrange(0, i as int));
            lemma_khz_sum_bound(khz@.subrange(0, i as int));
            assert(i * 0xffff_ffff <= 0xffff_ffff_ffff_ffff * 0xffff_ffff) by (nonlinear_arith)
                requires
                    i <= 0xffff_ffff_ffff_ffff,
            ;
        }
        sum = sum + khz[i] as u128;
        i = i + 1;
    }
    assert(khz@.subrange(0, i as int) =~= khz@);
    let den: u128 = (khz.len() as u128) * 1000;
    let q = sum / den;
    if q > MAX_MHZ as u128 {
        Some(MAX_MHZ as u16)
    } else {
        Some(q as u16)
    }
}

/// The sum of `s`.
pub open spec fn seq_sum(s: Seq<u64>) -> int
    decreases s.len(),
{
    if s.len() == 0 {
        0
    } else {
        seq_sum(s.drop_last()) + s.last()
    }
}

/// The mean of per-core frequencies in MHz (truncated, capped at 65535); 0
/// when there are none.
pub open spec fn spec_average_mhz(freqs: Seq<u64>) -> u16 {
    if freqs.len() == 0 {
        0
    } else {
        let avg = seq_sum(freqs) / (freqs.len() as int);
        if avg > MAX_MHZ { MAX_MHZ as u16 } else { avg as u16 }
    }
}

pub(crate) proof fn lemma_seq_sum_nonneg(s: Seq<u64>)
    ensures
        seq_sum(s) >= 0,
    decreases s.len(),
{
    if s.len() > 0 {
        lemma_seq_sum_nonneg(s.drop_last());
    }
}

pub(crate) proof fn lemma_seq_sum_prefix(s: Seq<u64>, i: int)
    requires
        0 <= i <= s.len(),
    ensures
        seq_sum(s.subrange(0, i)) <= seq_sum(s),
    decreases s.len() - i,
{
    if i < s.len() {
        assert(s.drop_last().subrange(0, i) =~= s.subrange(0, i));
        lemma_seq_sum_prefix(s.drop_last(), i);
    } else {
        assert(s.subrange(0, i) =~= s);
    }
}

/// The mean of per-core frequencies in MHz; the sum must fit in a `u64`.
pub fn average_mhz(freqs: &Vec<u64>) -> (mhz: u16)
    requires
        seq_sum(freqs@) <= u64::MAX,
    ensures
        mhz == spec_average_mhz(freqs@),
{
    if freqs.len() == 0 {
        return 0;
    }
    let mut sum: u64 = 0;
    let mut i: usize = 0;
    while i < freqs.len()
        invariant
            i <= freqs.len(),
            seq_sum(freqs@) <= u64::MAX,
            sum == seq_sum(freqs@.subrange(0, i as int)),
        decreases freqs.len() - i,
    {
        proof {
            assert(freqs@.subrange(0, i + 1).drop_last() =~= freqs@.subrange(0, i as int));
            lemma_seq_sum_prefix(freqs@, i + 1);
        }
        sum = sum + freqs[i];
        i = i + 1;
    }
    assert(freqs@.subrange(0, i as int) =~= freqs@);
    let avg = sum / (freqs.len() as u64);
    if avg > MAX_MHZ {
        MAX_MHZ as u16
    } else {
        avg as u16
    }
}

} // verus!
