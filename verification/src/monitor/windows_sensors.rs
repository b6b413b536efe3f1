//! Sensor values from the JSON text that Segotep's LDGT sensor engine keeps in
//! shared memory (`shareMemory_LDGTInfo`).
//!
//! The text is cut into one segment per sensor entry, each segment is
//! classified by the words it contains, and its `"value"` text is handed to
//! the caller, which reads it as a decimal number; the numbers are then
//! combined into one set of values.
use super::windows_native::cap;
use super::or_else;
use crate::text::{
    chars_of, contains, contains_str, find_char, find_char_index, flat_split, flat_split_ranges,
    lowercase, lowercase_chars, occurs_at, occurs_at_index, ranges_view, ranges_within,
    rfind_char, rfind_char_index, skip_repeated, split_ranges, split_str, string_from_chars,
    sub_chars, trim_start_matches,
};
use vstd::prelude::*;

verus! {

/// Sensor values found in the LDGT text; `None` where no entry gave one.
#[derive(Debug, Clone, Copy, Default, PartialEq, Eq, Structural)]
pub struct WindowsSensorValues {
    pub cpu_temp: Option<u8>,
    pub cpu_power: Option<u16>,
    pub cpu_clock: Option<u16>,
    pub gpu_temp: Option<u8>,
    pub gpu_power: Option<u16>,
    pub gpu_clock: Option<u16>,
}

/// No values.
pub open spec fn no_values() -> WindowsSensorValues {
    WindowsSensorValues {
        cpu_temp: None,
        cpu_power: None,
        cpu_clock: None,
        gpu_temp: None,
        gpu_power: None,
        gpu_clock: None,
    }
}

/// Which quantities a sensor entry reports.
#[derive(Debug, Clone, Copy, PartialEq, Eq, Structural)]
pub struct SensorMatch {
    pub cpu_temp: bool,
    pub cpu_power: bool,
    pub cpu_clock: bool,
    pub gpu_temp: bool,
    pub gpu_power: bool,
    pub gpu_clock: bool,
}

/// A sensor entry: what it reports, and the text of its `"value"` field.
#[derive(Debug, Clone, PartialEq, Eq)]
pub struct SensorSegment {
    pub matches: SensorMatch,
    pub value_text: Option<String>,
}

/// The JSON part of the text: from the first `{` to the last `}`.
pub open spec fn spec_json_block(s: Seq<char>) -> Option<Seq<char>> {
    match (find_char(s, '{'), rfind_char(s, '}')) {
        (Some(f), Some(l)) => if l > f {
            Some(s.subrange(f, l + 1))
        } else {
            None
        },
        _ => None,
    }
}

/// Separator between two sensor objects.
pub open spec fn object_separator() -> Seq<char> {
    seq!['}', ',', '"']
}

/// Separator between two sensor arrays.
pub open spec fn array_separator() -> Seq<char> {
    seq![']', ',', '"']
}

/// The sensor entries of the text: its JSON part split at `},"`, and each
/// piece split again at `],"`; none when the text has no JSON part.
pub open spec fn spec_sensor_segments(text: Seq<char>) -> Seq<Seq<char>> {
    match spec_json_block(text) {
        Some(j) => flat_split(split_str(j, object_separator()), array_separator()),
        None => Seq::empty(),
    }
}

/// What an entry reports, by the words its lowercased text contains.
pub open spec fn spec_sensor_match(lower: Seq<char>) -> SensorMatch {
    SensorMatch {
        cpu_temp: (contains(lower, "tctl"@) || contains(lower, "tdie"@) || contains(
            lower,
            "cpu package"@,
        ) || contains(lower, "cpu temperature"@) || contains(lower, "core temp"@)) && (contains(
            lower,
            "temperature"@,
        ) || contains(lower, "temp"@)),
        cpu_power: (contains(lower, "cpu package power"@) || contains(lower, "package power"@)
            || contains(lower, "core power"@) || contains(lower, "cpu power"@)) && contains(
            lower,
            "power"@,
        ),
        cpu_clock: (contains(lower, "cpu clock"@) || contains(lower, "core clock"@) || contains(
            lower,
            "clock (perf"@,
        )) && contains(lower, "clock"@),
        gpu_temp: (contains(lower, "gpu temperature"@) || contains(lower, "gpu core"@)) && contains(
            lower,
            "temperature"@,
        ),
        gpu_power: (contains(lower, "gpu power"@) || contains(lower, "gpu core power"@)) && contains(
            lower,
            "power"@,
        ),
        gpu_clock: (contains(lower, "gpu clock"@) || contains(lower, "gpu memory clock"@))
            && contains(lower, "clock"@),
    }
}

/// The key that introduces an entry's value: `"value":`.
pub open spec fn value_key() -> Seq<char> {
    seq!['"', 'v', 'a', 'l', 'u', 'e', '"', ':']
}

/// Index of the first occurrence of `pat` in `s` at or after `i`.
pub open spec fn find_from(s: Seq<char>, pat: Seq<char>, i: int) -> Option<int>
    decreases s.len() - i,
    when 0 <= i && pat.len() > 0
{
    if i + pat.len() > s.len() {
        None
    } else if occurs_at(s, pat, i) {
        Some(i)
    } else {
        find_from(s, pat, i + 1)
    }
}

/// Whether `c` ends a value: a quote, `}`, `,` or `]`.
pub open spec fn is_value_end(c: char) -> bool {
    c == '"' || c == '}' || c == ',' || c == ']'
}

/// Index of the first character of `s` at or after `i` that ends a value.
pub open spec fn find_value_end(s: Seq<char>, i: int) -> Option<int>
    decreases s.len() - i,
    when 0 <= i
{
    if i >= s.len() {
        None
    } else if is_value_end(s[i]) {
        Some(i)
    } else {
        find_value_end(s, i + 1)
    }
}

/// The text of an entry's value, quoted (`"value":"48.5"`) or not
/// (`"value":48.5`): after the first `"value":`, with leading quotes skipped,
/// up to the first quote, `}`, `,` or `]`, or to the end of the entry when
/// none follows.
pub open spec fn spec_value_text(seg: Seq<char>) -> Option<Seq<char>> {
    match find_from(seg, value_key(), 0) {
        None => None,
        Some(k) => {
            let rest = trim_start_matches(seg.subrange(k + 8, seg.len() as int), seq!['"']);
            match find_value_end(rest, 0) {
                Some(e) => Some(rest.subrange(0, e)),
                None => Some(rest),
            }
        },
    }
}

fn find_value_key(v: &Vec<char>, key: &Vec<char>) -> (r: Option<usize>)
    requires
        key@ == value_key(),
    ensures
        match r {
            Some(k) => find_from(v@, value_key(), 0) == Some(k as int) && k + 8 <= v.len(),
            None => find_from(v@, value_key(), 0) is None,
        },
{
    let mut i: usize = 0;
    while i <= v.len() && key.len() <= v.len() - i
        invariant
            key@ == value_key(),
            i <= v.len(),
            find_from(v@, value_key(), 0) == find_from(v@, value_key(), i as int),
        decreases v.len() - i,
    {
        if occurs_at_index(v, key, i) {
            return Some(i);
        }
        i = i + 1;
    }
    None
}

fn find_end(v: &Vec<char>, start: usize) -> (r: Option<usize>)
    requires
        start <= v.len(),
    ensures
        match r {
            Some(e) => find_value_end(v@, start as int) == Some(e as int) && start <= e < v.len(),
            None => find_value_end(v@, start as int) is None,
        },
{
    let mut i = start;
    while i < v.len()
        invariant
            start <= i <= v.len(),
            find_value_end(v@, start as int) == find_value_end(v@, i as int),
        decreases v.len() - i,
    {
        let c = v[i];
        if c == '"' || c == '}' || c == ',' || c == ']' {
            return Some(i);
        }
        i = i + 1;
    }
    None
}

proof fn lemma_find_value_end_shift(s: Seq<char>, d: int, i: int)
    requires
        0 <= d <= s.len(),
        0 <= i,
    ensures
        find_value_end(s.subrange(d, s.len() as int), i) == match find_value_end(s, d + i) {
            Some(e) => Some(e - d),
            None => None,
        },
    decreases s.len() - d - i,
{
    let t = s.subrange(d, s.len() as int);
    if i < t.len() {
        assert(t[i] == s[d + i]);
        if !is_value_end(t[i]) {
            lemma_find_value_end_shift(s, d, i + 1);
        }
    }
}

/// The text of an entry's value, if it has a `"value":` key.
pub fn value_text(seg: &Vec<char>) -> (r: Option<Vec<char>>)
    ensures
        match r {
            Some(t) => spec_value_text(seg@) == Some(t@),
            None => spec_value_text(seg@) is None,
        },
{
    let key: Vec<char> = vec!['"', 'v', 'a', 'l', 'u', 'e', '"', ':'];
    assert(key@ =~= value_key());
    let k = match find_value_key(seg, &key) {
        Some(k) => k,
        None => {
            return None;
        },
    };
    let quote: Vec<char> = vec!['"'];
    assert(quote@ =~= seq!['"']);
    let start = skip_repeated(seg, k + 8, &quote);
    proof {
        lemma_find_value_end_shift(seg@, start as int, 0);
    }
    match find_end(seg, start) {
        Some(e) => {
            assert(seg@.subrange(start as int, seg.len() as int).subrange(0, e - start)
                =~= seg@.subrange(start as int, e as int));
            Some(sub_chars(seg, start, e))
        },
        None => Some(sub_chars(seg, start, seg.len())),
    }
}

/// What an entry with lowercased text `lower` reports.
pub fn sensor_match(lower: &Vec<char>) -> (m: SensorMatch)
    ensures
        m == spec_sensor_match(lower@),
{
    let c = |p: &str| -> (b: bool)
        ensures
            b == contains(lower@, p@),
        { contains_str(lower, p) };
    SensorMatch {
        cpu_temp: (c("tctl") || c("tdie") || c("cpu package") || c("cpu temperature") || c(
            "core temp",
        )) && (c("temperature") || c("temp")),
        cpu_power: (c("cpu package power") || c("package power") || c("core power") || c(
            "cpu power",
        )) && c("power"),
        cpu_clock: (c("cpu clock") || c("core clock") || c("clock (perf")) && c("clock"),
        gpu_temp: (c("gpu temperature") || c("gpu core")) && c("temperature"),
        gpu_power: (c("gpu power") || c("gpu core power")) && c("power"),
        gpu_clock: (c("gpu clock") || c("gpu memory clock")) && c("clock"),
    }
}

/// The ranges of the sensor entries of `text`, in order.
fn segment_ranges(text: &Vec<char>) -> (r: Vec<(usize, usize)>)
    ensures
        ranges_within(r@, 0, text.len() as int),
        ranges_view(text@, r@) == spec_sensor_segments(text@),
{
    let f = find_char_index(text, '{');
    let l = rfind_char_index(text, '}');
    match (f, l) {
        (Some(f), Some(l)) => {
            if l > f {
                let obj_sep: Vec<char> = vec!['}', ',', '"'];
                let arr_sep: Vec<char> = vec![']', ',', '"'];
                assert(obj_sep@ =~= object_separator());
                assert(arr_sep@ =~= array_separator());
                proof {
                    assert(l < text.len()) by {
                        lemma_rfind_bound(text@, '}');
                    }
                }
                let first = split_ranges(text, f, l + 1, &obj_sep);
                flat_split_ranges(text, &first, &arr_sep)
            } else {
                let r: Vec<(usize, usize)> = Vec::new();
                assert(ranges_view(text@, r@) =~= Seq::<Seq<char>>::empty());
                r
            }
        },
        _ => {
            let r: Vec<(usize, usize)> = Vec::new();
            assert(ranges_view(text@, r@) =~= Seq::<Seq<char>>::empty());
            r
        },
    }
}

proof fn lemma_rfind_bound(s: Seq<char>, c: char)
    ensures
        rfind_char(s, c) matches Some(k) ==> 0 <= k < s.len() && s[k] == c,
    decreases s.len(),
{
    if s.len() > 0 && s.last() != c {
        lemma_rfind_bound(s.drop_last(), c);
        if let Some(k) = rfind_char(s, c) {
            assert(s.drop_last()[k] == s[k]);
        }
    }
}

proof fn lemma_find_bound(s: Seq<char>, c: char)
    ensures
        find_char(s, c) matches Some(k) ==> 0 <= k < s.len() && s[k] == c,
    decreases s.len(),
{
    if s.len() > 0 && s[0] != c {
        lemma_find_bound(s.drop_first(), c);
        if let Some(k) = find_char(s.drop_first(), c) {
            assert(s.drop_first()[k] == s[k + 1]);
        }
    }
}

/// The sensor entries of an LDGT text are those of its JSON part, from the
/// first `{` to the last `}`: that part is its own JSON part. A text without
/// one has no entries.
pub proof fn lemma_segments_of_json_block(text: Seq<char>)
    ensures
        match spec_json_block(text) {
            Some(j) => spec_json_block(j) == Some(j) && spec_sensor_segments(j)
                == spec_sensor_segments(text),
            None => spec_sensor_segments(text) == Seq::<Seq<char>>::empty(),
        },
{
    lemma_find_bound(text, '{');
    lemma_rfind_bound(text, '}');
    if let Some(j) = spec_json_block(text) {
        let f = find_char(text, '{')->0;
        let l = rfind_char(text, '}')->0;
        assert(j[0] == text[f]);
        assert(j.last() == text[l]);
        assert(find_char(j, '{') == Some(0int));
        assert(rfind_char(j, '}') == Some(j.len() - 1));
        assert(j.subrange(0, j.len() as int) =~= j);
    }
}

/// The sensor entries of the LDGT text, each with what it reports (by its
/// lowercased text) and the text of its value.
pub fn sensor_segments(text: &str) -> (r: Vec<SensorSegment>)
    ensures
        r.len() == spec_sensor_segments(text@).len(),
        forall|k: int|
            0 <= k < r.len() ==> {
                let seg = #[trigger] spec_sensor_segments(text@)[k];
                &&& r@[k].matches == spec_sensor_match(lowercase(seg))
                &&& match r@[k].value_text {
                    Some(t) => spec_value_text(seg) == Some(t@),
                    None => spec_value_text(seg) is None,
                }
            },
{
    let v = chars_of(text);
    let ranges = segment_ranges(&v);
    let ghost segs = spec_sensor_segments(text@);
    let mut out: Vec<SensorSegment> = Vec::new();
    let mut k: usize = 0;
    while k < ranges.len()
        invariant
            k <= ranges.len(),
            v@ == text@,
            segs == spec_sensor_segments(text@),
            ranges_within(ranges@, 0, v.len() as int),
            ranges_view(v@, ranges@) == segs,
            out.len() == k,
            forall|j: int|
                0 <= j < k ==> {
                    let seg = #[trigger] segs[j];
                    &&& out@[j].matches == spec_sensor_match(lowercase(seg))
                    &&& match out@[j].value_text {
                        Some(t) => spec_value_text(seg) == Some(t@),
                        None => spec_value_text(seg) is None,
                    }
                },
        decreases ranges.len() - k,
    {
        let (a, b) = ranges[k];
        assert(0 <= ranges@[k as int].0 <= ranges@[k as int].1 <= v.len());
        assert(segs[k as int] == v@.subrange(a as int, b as int));
        let lower = lowercase_chars(&v, a, b);
        let matches = sensor_match(&lower);
        let seg = sub_chars(&v, a, b);
        let text_of_value = match value_text(&seg) {
            Some(t) => {
                assert(t@.subrange(0, t.len() as int) =~= t@);
                Some(string_from_chars(&t, 0, t.len()))
            },
            None => None,
        };
        let ghost prev = out@;
        out.push(SensorSegment { matches, value_text: text_of_value });
        proof {
            assert forall|j: int| 0 <= j < k + 1 implies {
                let seg = #[trigger] segs[j];
                &&& out@[j].matches == spec_sensor_match(lowercase(seg))
                &&& match out@[j].value_text {
                    Some(t) => spec_value_text(seg) == Some(t@),
                    None => spec_value_text(seg) is None,
                }
            } by {
                if j < k {
                    assert(out@[j] == prev[j]);
                }
            }
        }
        k = k + 1;
    }
    out
}

/// The values after taking in one entry whose value reads as `v` (already
/// rounded and kept within 0..=65535): CPU temperature, power and clock keep
/// the largest value seen (a clock only from 100 MHz up), GPU values the last;
/// temperatures are capped at 255.
pub open spec fn spec_apply_segment(
    acc: WindowsSensorValues,
    m: SensorMatch,
    v: Option<u16>,
) -> WindowsSensorValues {
    match v {
        None => acc,
        Some(x) => {
            let t8 = cap(x as int, 255) as u8;
            WindowsSensorValues {
                cpu_temp: if m.cpu_temp && t8 > or_else(acc.cpu_temp, 0u8) {
                    Some(t8)
                } else {
                    acc.cpu_temp
                },
                cpu_power: if m.cpu_power && x > or_else(acc.cpu_power, 0u16) {
                    Some(x)
                } else {
                    acc.cpu_power
                },
                cpu_clock: if m.cpu_clock && x >= 100 && x > or_else(acc.cpu_clock, 0u16) {
                    Some(x)
                } else {
                    acc.cpu_clock
                },
                gpu_temp: if m.gpu_temp {
                    Some(t8)
                } else {
                    acc.gpu_temp
                },
                gpu_power: if m.gpu_power {
                    Some(x)
                } else {
                    acc.gpu_power
                },
                gpu_clock: if m.gpu_clock {
                    Some(x)
                } else {
                    acc.gpu_clock
                },
            }
        },
    }
}

/// The values the entries give, taken in order.
pub open spec fn spec_combine(matches: Seq<SensorMatch>, values: Seq<Option<u16>>) -> WindowsSensorValues
    decreases matches.len(),
{
    if matches.len() == 0 || values.len() == 0 {
        no_values()
    } else {
        spec_apply_segment(
            spec_combine(matches.drop_last(), values.drop_last()),
            matches.last(),
            values.last(),
        )
    }
}

fn apply_segment(acc: WindowsSensorValues, m: SensorMatch, v: Option<u16>) -> (r:
    WindowsSensorValues)
    ensures
        r == spec_apply_segment(acc, m, v),
{
    match v {
        None => acc,
        Some(x) => {
            let t8: u8 = if x > 255 {
                255
            } else {
                x as u8
            };
            let cur_temp = match acc.cpu_temp {
                Some(t) => t,
                None => 0,
            };
            let cur_power = match acc.cpu_power {
                Some(p) => p,
                None => 0,
            };
            let cur_clock = match acc.cpu_clock {
                Some(c) => c,
                None => 0,
            };
            WindowsSensorValues {
                cpu_temp: if m.cpu_temp && t8 > cur_temp {
                    Some(t8)
                } else {
                    acc.cpu_temp
                },
                cpu_power: if m.cpu_power && x > cur_power {
                    Some(x)
                } else {
                    acc.cpu_power
                },
                cpu_clock: if m.cpu_clock && x >= 100 && x > cur_clock {
                    Some(x)
                } else {
                    acc.cpu_clock
                },
                gpu_temp: if m.gpu_temp {
                    Some(t8)
                } else {
                    acc.gpu_temp
                },
                gpu_power: if m.gpu_power {
                    Some(x)
                } else {
                    acc.gpu_power
                },
                gpu_clock: if m.gpu_clock {
                    Some(x)
                } else {
                    acc.gpu_clock
                },
            }
        },
    }
}

/// The matches of the segments, in order.
pub open spec fn segment_matches(segs: Seq<SensorSegment>) -> Seq<SensorMatch> {
    segs.map_values(|s: SensorSegment| s.matches)
}

/// Combines the entries into one set of values; `values[k]` is the number the
/// value text of `segments[k]` reads as (rounded, within 0..=65535), `None`
/// when it has none or it is no number.
pub fn combine_sensor_segments(segments: &Vec<SensorSegment>, values: &Vec<Option<u16>>) -> (r:
    WindowsSensorValues)
    requires
        segments.len() == values.len(),
    ensures
        r == spec_combine(segment_matches(segments@), values@),
{
    let mut acc = WindowsSensorValues {
        cpu_temp: None,
        cpu_power: None,
        cpu_clock: None,
        gpu_temp: None,
        gpu_power: None,
        gpu_clock: None,
    };
    let mut k: usize = 0;
    while k < segments.len()
        invariant
            k <= segments.len(),
            segments.len() == values.len(),
            acc == spec_combine(
                segment_matches(segments@).take(k as int),
                values@.take(k as int),
            ),
        decreases segments.len() - k,
    {
        proof {
            let ms = segment_matches(segments@).take(k + 1);
            let vs = values@.take(k + 1);
            assert(ms.drop_last() =~= segment_matches(segments@).take(k as int));
            assert(vs.drop_last() =~= values@.take(k as int));
            assert(ms.last() == segments@[k as int].matches);
        }
        acc = apply_segment(acc, segments[k].matches, values[k]);
        k = k + 1;
    }
    assert(segment_matches(segments@).take(k as int) =~= segment_matches(segments@));
    assert(values@.take(k as int) =~= values@);
    acc
}

/// The CPU temperature, power and clock never decrease as entries are taken in.
pub proof fn lemma_cpu_values_keep_maximum(acc: WindowsSensorValues, m: SensorMatch, v: Option<u16>)
    ensures
        or_else(spec_apply_segment(acc, m, v).cpu_temp, 0u8) >= or_else(acc.cpu_temp, 0u8),
        or_else(spec_apply_segment(acc, m, v).cpu_power, 0u16) >= or_else(acc.cpu_power, 0u16),
        or_else(spec_apply_segment(acc, m, v).cpu_clock, 0u16) >= or_else(acc.cpu_clock, 0u16),
{
}

/// A CPU clock value, once found, is at least 100 MHz.
pub proof fn lemma_cpu_clock_floor(matches: Seq<SensorMatch>, values: Seq<Option<u16>>)
    ensures
        spec_combine(matches, values).cpu_clock matches Some(c) ==> c >= 100,
    decreases matches.len(),
{
    if matches.len() > 0 && values.len() > 0 {
        lemma_cpu_clock_floor(matches.drop_last(), values.drop_last());
    }
}

/// Whether an option holds a value above 0, the largest that `reads` admits:
/// `reads(k, x)` says that entry `k` gives the reading `x`. `None` when no
/// reading is above 0.
pub open spec fn largest_positive(r: Option<int>, reads: spec_fn(int, int) -> bool) -> bool {
    match r {
        Some(m) => m > 0 && (exists|k: int| #[trigger] reads(k, m)) && (forall|k: int, x: int|
            #[trigger] reads(k, x) ==> x <= m),
        None => forall|k: int, x: int| #[trigger] reads(k, x) ==> x <= 0,
    }
}

/// The CPU temperature readings of the entries: entry `k` reports one and its
/// value reads as a number, capped at 255.
pub open spec fn cpu_temp_readings(matches: Seq<SensorMatch>, values: Seq<Option<u16>>) -> spec_fn(
    int,
    int,
) -> bool {
    |k: int, t: int|
        0 <= k < matches.len() && k < values.len() && matches[k].cpu_temp && values[k] is Some
            && t == cap(values[k]->0 as int, 255)
}

/// The CPU power readings of the entries.
pub open spec fn cpu_power_readings(matches: Seq<SensorMatch>, values: Seq<Option<u16>>) -> spec_fn(
    int,
    int,
) -> bool {
    |k: int, p: int|
        0 <= k < matches.len() && k < values.len() && matches[k].cpu_power && values[k] is Some
            && p == values[k]->0
}

/// The CPU clock readings of the entries, those below 100 MHz left out.
pub open spec fn cpu_clock_readings(matches: Seq<SensorMatch>, values: Seq<Option<u16>>) -> spec_fn(
    int,
    int,
) -> bool {
    |k: int, c: int|
        0 <= k < matches.len() && k < values.len() && matches[k].cpu_clock && values[k] is Some
            && values[k]->0 >= 100 && c == values[k]->0
}

/// An optional `u8` as an optional integer.
pub open spec fn int_of_u8(o: Option<u8>) -> Option<int> {
    match o {
        Some(x) => Some(x as int),
        None => None,
    }
}

/// An optional `u16` as an optional integer.
pub open spec fn int_of_u16(o: Option<u16>) -> Option<int> {
    match o {
        Some(x) => Some(x as int),
        None => None,
    }
}

/// One more entry: the largest reading stays largest, or the new reading
/// takes its place when it is larger.
proof fn lemma_largest_step(
    prev: Option<int>,
    reads_prev: spec_fn(int, int) -> bool,
    reads: spec_fn(int, int) -> bool,
    last: int,
    new: Option<int>,
)
    requires
        largest_positive(prev, reads_prev),
        forall|k: int, x: int|
            #[trigger] reads(k, x) <==> (reads_prev(k, x) || (k == last && new == Some(x))),
    ensures
        largest_positive(
            if new is Some && new->0 > or_else(prev, 0int) {
                new
            } else {
                prev
            },
            reads,
        ),
{
    if new is Some && new->0 > or_else(prev, 0int) {
        let x = new->0;
        assert(reads(last, x));
        assert forall|k: int, y: int| #[trigger] reads(k, y) implies y <= x by {
            if reads_prev(k, y) {
            }
        }
    } else {
        if let Some(m) = prev {
            let k0 = choose|k: int| #[trigger] reads_prev(k, m);
            assert(reads(k0, m));
        }
    }
}

/// CPU temperature, power and clock are each the largest reading among the
/// entries that report them (temperatures capped at 255, clocks below 100 MHz
/// left out), or none when there is no reading above 0.
pub proof fn lemma_cpu_values_are_maxima(matches: Seq<SensorMatch>, values: Seq<Option<u16>>)
    requires
        matches.len() == values.len(),
    ensures
        largest_positive(
            int_of_u8(spec_combine(matches, values).cpu_temp),
            cpu_temp_readings(matches, values),
        ),
        largest_positive(
            int_of_u16(spec_combine(matches, values).cpu_power),
            cpu_power_readings(matches, values),
        ),
        largest_positive(
            int_of_u16(spec_combine(matches, values).cpu_clock),
            cpu_clock_readings(matches, values),
        ),
    decreases matches.len(),
{
    let r = spec_combine(matches, values);
    if matches.len() == 0 {
        assert(r == no_values());
    } else {
        let ms = matches.drop_last();
        let vs = values.drop_last();
        let n = matches.len() - 1;
        lemma_cpu_values_are_maxima(ms, vs);
        let acc = spec_combine(ms, vs);
        let m = matches.last();
        let v = values.last();
        assert(r == spec_apply_segment(acc, m, v));
        let new_t: Option<int> = if m.cpu_temp && v is Some {
            Some(cap(v->0 as int, 255))
        } else {
            None
        };
        let new_p: Option<int> = if m.cpu_power && v is Some {
            Some(v->0 as int)
        } else {
            None
        };
        let new_c: Option<int> = if m.cpu_clock && v is Some && v->0 >= 100 {
            Some(v->0 as int)
        } else {
            None
        };
        assert forall|k: int, x: int| #[trigger]
            cpu_temp_readings(matches, values)(k, x) <==> (cpu_temp_readings(ms, vs)(k, x) || (k
                == n && new_t == Some(x))) by {
            if 0 <= k < n {
                assert(ms[k] == matches[k]);
                assert(vs[k] == values[k]);
            }
        }
        assert forall|k: int, x: int| #[trigger]
            cpu_power_readings(matches, values)(k, x) <==> (cpu_power_readings(ms, vs)(k, x) || (k
                == n && new_p == Some(x))) by {
            if 0 <= k < n {
                assert(ms[k] == matches[k]);
                assert(vs[k] == values[k]);
            }
        }
        assert forall|k: int, x: int| #[trigger]
            cpu_clock_readings(matches, values)(k, x) <==> (cpu_clock_readings(ms, vs)(k, x) || (k
                == n && new_c == Some(x))) by {
            if 0 <= k < n {
                assert(ms[k] == matches[k]);
                assert(vs[k] == values[k]);
            }
        }
        lemma_largest_step(
            int_of_u8(acc.cpu_temp),
            cpu_temp_readings(ms, vs),
            cpu_temp_readings(matches, values),
            n,
            new_t,
        );
        lemma_largest_step(
            int_of_u16(acc.cpu_power),
            cpu_power_readings(ms, vs),
            cpu_power_readings(matches, values),
            n,
            new_p,
        );
        lemma_largest_step(
            int_of_u16(acc.cpu_clock),
            cpu_clock_readings(ms, vs),
            cpu_clock_readings(matches, values),
            n,
            new_c,
        );
    }
}

/// A word inside a word: text that contains `p` contains every piece `q` of `p`.
proof fn lemma_contains_within(s: Seq<char>, p: Seq<char>, q: Seq<char>, j: int)
    requires
        occurs_at(p, q, j),
    ensures
        contains(s, p) ==> contains(s, q),
{
    if contains(s, p) {
        let i = choose|i: int| occurs_at(s, p, i);
        assert(s.subrange(i + j, i + j + q.len()) =~= p.subrange(j, j + q.len()));
        assert(occurs_at(s, q, i + j));
    }
}

/// Which quantities an entry reports, by the words of its lowercased text. A
/// GPU power entry is one that mentions "gpu power" or "gpu core power"; a GPU
/// clock entry one that mentions "gpu clock" or "gpu memory clock"; a CPU power
/// entry one that mentions "package power", "core power" or "cpu power"; a CPU
/// clock entry one that mentions "cpu clock", "core clock" or "clock (perf"; a
/// GPU temperature entry one that mentions "gpu temperature", or "gpu core"
/// and "temperature"; a CPU temperature entry one that mentions "cpu
/// temperature" or "core temp", or "tctl", "tdie" or "cpu package" together
/// with "temp".
pub proof fn lemma_sensor_words(lower: Seq<char>)
    ensures
        spec_sensor_match(lower).gpu_power == (contains(lower, "gpu power"@) || contains(
            lower,
            "gpu core power"@,
        )),
        spec_sensor_match(lower).gpu_clock == (contains(lower, "gpu clock"@) || contains(
            lower,
            "gpu memory clock"@,
        )),
        spec_sensor_match(lower).cpu_power == (contains(lower, "package power"@) || contains(
            lower,
            "core power"@,
        ) || contains(lower, "cpu power"@)),
        spec_sensor_match(lower).cpu_clock == (contains(lower, "cpu clock"@) || contains(
            lower,
            "core clock"@,
        ) || contains(lower, "clock (perf"@)),
        spec_sensor_match(lower).gpu_temp == (contains(lower, "gpu temperature"@) || (contains(
            lower,
            "gpu core"@,
        ) && contains(lower, "temperature"@))),
        spec_sensor_match(lower).cpu_temp == (contains(lower, "cpu temperature"@) || contains(
            lower,
            "core temp"@,
        ) || ((contains(lower, "tctl"@) || contains(lower, "tdie"@) || contains(
            lower,
            "cpu package"@,
        )) && contains(lower, "temp"@))),
{
    reveal_strlit("power");
    reveal_strlit("clock");
    reveal_strlit("temp");
    reveal_strlit("temperature");
    reveal_strlit("gpu power");
    reveal_strlit("gpu core power");
    reveal_strlit("gpu clock");
    reveal_strlit("gpu memory clock");
    reveal_strlit("cpu package power");
    reveal_strlit("package power");
    reveal_strlit("core power");
    reveal_strlit("cpu power");
    reveal_strlit("cpu clock");
    reveal_strlit("core clock");
    reveal_strlit("clock (perf");
    reveal_strlit("gpu temperature");
    reveal_strlit("cpu temperature");
    reveal_strlit("core temp");
    assert("gpu power"@.subrange(4, 9) =~= "power"@);
    lemma_contains_within(lower, "gpu power"@, "power"@, 4);
    assert("gpu core power"@.subrange(9, 14) =~= "power"@);
    lemma_contains_within(lower, "gpu core power"@, "power"@, 9);
    assert("gpu clock"@.subrange(4, 9) =~= "clock"@);
    lemma_contains_within(lower, "gpu clock"@, "clock"@, 4);
    assert("gpu memory clock"@.subrange(11, 16) =~= "clock"@);
    lemma_contains_within(lower, "gpu memory clock"@, "clock"@, 11);
    assert("cpu package power"@.subrange(4, 17) =~= "package power"@);
    lemma_contains_within(lower, "cpu package power"@, "package power"@, 4);
    assert("package power"@.subrange(8, 13) =~= "power"@);
    lemma_contains_within(lower, "package power"@, "power"@, 8);
    assert("core power"@.subrange(5, 10) =~= "power"@);
    lemma_contains_within(lower, "core power"@, "power"@, 5);
    assert("cpu power"@.subrange(4, 9) =~= "power"@);
    lemma_contains_within(lower, "cpu power"@, "power"@, 4);
    assert("cpu clock"@.subrange(4, 9) =~= "clock"@);
    lemma_contains_within(lower, "cpu clock"@, "clock"@, 4);
    assert("core clock"@.subrange(5, 10) =~= "clock"@);
    lemma_contains_within(lower, "core clock"@, "clock"@, 5);
    assert("clock (perf"@.subrange(0, 5) =~= "clock"@);
    lemma_contains_within(lower, "clock (perf"@, "clock"@, 0);
    assert("gpu temperature"@.subrange(4, 15) =~= "temperature"@);
    lemma_contains_within(lower, "gpu temperature"@, "temperature"@, 4);
    assert("temperature"@.subrange(0, 4) =~= "temp"@);
    lemma_contains_within(lower, "temperature"@, "temp"@, 0);
    assert("cpu temperature"@.subrange(4, 8) =~= "temp"@);
    lemma_contains_within(lower, "cpu temperature"@, "temp"@, 4);
    assert("core temp"@.subrange(5, 9) =~= "temp"@);
    lemma_contains_within(lower, "core temp"@, "temp"@, 5);
}

/// Whether an option holds the reading of the last entry that gives one:
/// `reads(k, x)` says that entry `k` gives the reading `x`. `None` when no
/// entry gives a reading.
pub open spec fn latest_reading(r: Option<int>, reads: spec_fn(int, int) -> bool) -> bool {
    match r {
        Some(x) => exists|k: int|
            #[trigger] reads(k, x) && forall|k2: int, y: int| #[trigger] reads(k2, y) ==> k2 <= k,
        None => forall|k: int, y: int| !#[trigger] reads(k, y),
    }
}

/// The GPU temperature readings of the entries, capped at 255.
pub open spec fn gpu_temp_readings(matches: Seq<SensorMatch>, values: Seq<Option<u16>>) -> spec_fn(
    int,
    int,
) -> bool {
    |k: int, t: int|
        0 <= k < matches.len() && k < values.len() && matches[k].gpu_temp && values[k] is Some
            && t == cap(values[k]->0 as int, 255)
}

/// The GPU power readings of the entries.
pub open spec fn gpu_power_readings(matches: Seq<SensorMatch>, values: Seq<Option<u16>>) -> spec_fn(
    int,
    int,
) -> bool {
    |k: int, p: int|
        0 <= k < matches.len() && k < values.len() && matches[k].gpu_power && values[k] is Some
            && p == values[k]->0
}

/// The GPU clock readings of the entries.
pub open spec fn gpu_clock_readings(matches: Seq<SensorMatch>, values: Seq<Option<u16>>) -> spec_fn(
    int,
    int,
) -> bool {
    |k: int, c: int|
        0 <= k < matches.len() && k < values.len() && matches[k].gpu_clock && values[k] is Some
            && c == values[k]->0
}

/// One more entry: its reading, if it gives one, becomes the latest.
proof fn lemma_latest_step(
    prev: Option<int>,
    reads_prev: spec_fn(int, int) -> bool,
    reads: spec_fn(int, int) -> bool,
    last: int,
    new: Option<int>,
)
    requires
        latest_reading(prev, reads_prev),
        forall|k: int, x: int| #[trigger] reads_prev(k, x) ==> k < last,
        forall|k: int, x: int|
            #[trigger] reads(k, x) <==> (reads_prev(k, x) || (k == last && new == Some(x))),
    ensures
        latest_reading(if new is Some { new } else { prev }, reads),
{
    if let Some(x) = new {
        assert(reads(last, x));
        assert forall|k2: int, y: int| #[trigger] reads(k2, y) implies k2 <= last by {
            if reads_prev(k2, y) {
            }
        }
    } else {
        if let Some(x) = prev {
            let k0 = choose|k: int|
                #[trigger] reads_prev(k, x) && forall|k2: int, y: int|
                    #[trigger] reads_prev(k2, y) ==> k2 <= k;
            assert(reads(k0, x));
            assert forall|k2: int, y: int| #[trigger] reads(k2, y) implies k2 <= k0 by {
                assert(reads_prev(k2, y));
            }
        } else {
            assert forall|k: int, y: int| !#[trigger] reads(k, y) by {
                if reads(k, y) {
                    assert(reads_prev(k, y));
                }
            }
        }
    }
}

/// GPU temperature (capped at 255), power and clock are each the reading of
/// the last entry that reports them, or none when no entry does.
pub proof fn lemma_gpu_values_are_latest(matches: Seq<SensorMatch>, values: Seq<Option<u16>>)
    requires
        matches.len() == values.len(),
    ensures
        latest_reading(
            int_of_u8(spec_combine(matches, values).gpu_temp),
            gpu_temp_readings(matches, values),
        ),
        latest_reading(
            int_of_u16(spec_combine(matches, values).gpu_power),
            gpu_power_readings(matches, values),
        ),
        latest_reading(
            int_of_u16(spec_combine(matches, values).gpu_clock),
            gpu_clock_readings(matches, values),
        ),
    decreases matches.len(),
{
    let r = spec_combine(matches, values);
    if matches.len() == 0 {
        assert(r == no_values());
    } else {
        let ms = matches.drop_last();
        let vs = values.drop_last();
        let n = matches.len() - 1;
        lemma_gpu_values_are_latest(ms, vs);
        let acc = spec_combine(ms, vs);
        let m = matches.last();
        let v = values.last();
        assert(r == spec_apply_segment(acc, m, v));
        let new_t: Option<int> = if m.gpu_temp && v is Some {
            Some(cap(v->0 as int, 255))
        } else {
            None
        };
        let new_p: Option<int> = if m.gpu_power && v is Some {
            Some(v->0 as int)
        } else {
            None
        };
        let new_c: Option<int> = if m.gpu_clock && v is Some {
            Some(v->0 as int)
        } else {
            None
        };
        assert forall|k: int, x: int| #[trigger]
            gpu_temp_readings(matches, values)(k, x) <==> (gpu_temp_readings(ms, vs)(k, x) || (k
                == n && new_t == Some(x))) by {
            if 0 <= k < n {
                assert(ms[k] == matches[k]);
                assert(vs[k] == values[k]);
            }
        }
        assert forall|k: int, x: int| #[trigger]
            gpu_power_readings(matches, values)(k, x) <==> (gpu_power_readings(ms, vs)(k, x) || (k
                == n && new_p == Some(x))) by {
            if 0 <= k < n {
                assert(ms[k] == matches[k]);
                assert(vs[k] == values[k]);
            }
        }
        assert forall|k: int, x: int| #[trigger]
            gpu_clock_readings(matches, values)(k, x) <==> (gpu_clock_readings(ms, vs)(k, x) || (k
                == n && new_c == Some(x))) by {
            if 0 <= k < n {
                assert(ms[k] == matches[k]);
                assert(vs[k] == values[k]);
            }
        }
        lemma_latest_step(
            int_of_u8(acc.gpu_temp),
            gpu_temp_readings(ms, vs),
            gpu_temp_readings(matches, values),
            n,
            new_t,
        );
        lemma_latest_step(
            int_of_u16(acc.gpu_power),
            gpu_power_readings(ms, vs),
            gpu_power_readings(matches, values),
            n,
            new_p,
        );
        lemma_latest_step(
            int_of_u16(acc.gpu_clock),
            gpu_clock_readings(ms, vs),
            gpu_clock_readings(matches, values),
            n,
            new_c,
        );
    }
}

} // verus!
