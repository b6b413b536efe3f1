//! CPU load percentage from the aggregate `cpu` line of `/proc/stat`.
use super::cpu_freq::{lemma_seq_sum_nonneg, lemma_seq_sum_prefix, seq_sum};
use crate::text::{
    chars_of, first_line, first_line_end, is_whitespace_char, occurs_at_index,
    parse_unsigned, parse_unsigned_chars, split_whitespace, starts_with, sub_chars, ws_scan,
};
use vstd::prelude::*;

verus! {

/// Readings closer together than this (200 ms) reuse the last computed load.
pub const MIN_LOAD_INTERVAL_NS: u64 = 200_000_000;

/// The numbers among `toks`, in order, as `filter_map(|t| t.parse::<u64>().ok())` keeps them.
pub open spec fn parse_u64_tokens(toks: Seq<Seq<char>>) -> Seq<u64>
    decreases toks.len(),
{
    if toks.len() == 0 {
        Seq::empty()
    } else {
        let rest = parse_u64_tokens(toks.drop_last());
        match parse_unsigned(toks.last(), 10, u64::MAX as int) {
            Some(x) => rest.push(x as u64),
            None => rest,
        }
    }
}

/// All tokens but the first.
pub open spec fn skip_first<T>(s: Seq<T>) -> Seq<T> {
    if s.len() == 0 {
        s
    } else {
        s.subrange(1, s.len() as int)
    }
}

/// The time counters of the aggregate `cpu` line: the first line of the text
/// must start with `"cpu "`, and the numbers after the label are kept when
/// there are at least four of them.
pub open spec fn spec_proc_stat_values(content: Seq<char>) -> Option<Seq<u64>> {
    match first_line(content) {
        None => None,
        Some(line) => if !starts_with(line, "cpu "@) {
            None
        } else {
            let vals = parse_u64_tokens(skip_first(split_whitespace(line)));
            if vals.len() < 4 {
                None
            } else {
                Some(vals)
            }
        },
    }
}

/// `(total, work)` time of the aggregate `cpu` line: the sum of all counters,
/// and that sum minus idle (counter 3) and iowait (counter 4, when present).
pub open spec fn spec_cpu_times(values: Seq<u64>) -> (u64, u64) {
    let idle = values[3] + (if values.len() > 4 {
        values[4] as int
    } else {
        0
    });
    let total = seq_sum(values);
    (total as u64, (if total >= idle {
        total - idle
    } else {
        0
    }) as u64)
}

proof fn lemma_ws_scan_step(s: Seq<char>, i: int)
    requires
        0 <= i < s.len(),
    ensures
        s.subrange(0, i + 1).drop_last() == s.subrange(0, i),
        s.subrange(0, i + 1).last() == s[i],
{
    assert(s.subrange(0, i + 1).drop_last() =~= s.subrange(0, i));
}

proof fn lemma_skip_first_push(t: Seq<Seq<char>>, c: Seq<char>)
    requires
        t.len() >= 1,
    ensures
        skip_first(t.push(c)) == skip_first(t).push(c),
        parse_u64_tokens(skip_first(t.push(c))) == (match parse_unsigned(
            c,
            10,
            u64::MAX as int,
        ) {
            Some(x) => parse_u64_tokens(skip_first(t)).push(x as u64),
            None => parse_u64_tokens(skip_first(t)),
        }),
{
    assert(skip_first(t.push(c)) =~= skip_first(t).push(c));
    assert(skip_first(t).push(c).drop_last() =~= skip_first(t));
}

proof fn lemma_seq_sum_two_le(s: Seq<u64>, i: int, j: int)
    requires
        0 <= i < j < s.len(),
    ensures
        s[i] + s[j] <= seq_sum(s),
    decreases s.len(),
{
    if j < s.len() - 1 {
        lemma_seq_sum_two_le(s.drop_last(), i, j);
    } else {
        lemma_seq_sum_one_le(s.drop_last(), i);
    }
}

proof fn lemma_seq_sum_one_le(s: Seq<u64>, i: int)
    requires
        0 <= i < s.len(),
    ensures
        s[i] <= seq_sum(s),
    decreases s.len(),
{
    lemma_seq_sum_nonneg(s.drop_last());
    if i < s.len() - 1 {
        lemma_seq_sum_one_le(s.drop_last(), i);
    }
}

/// Reads the counters of the aggregate `cpu` line from the text of `/proc/stat`.
pub fn proc_stat_values(content: &str) -> (r: Option<Vec<u64>>)
    ensures
        match r {
            Some(v) => spec_proc_stat_values(content@) == Some(v@),
            None => spec_proc_stat_values(content@) is None,
        },
{
    let text = chars_of(content);
    let end = match first_line_end(&text) {
        Some(e) => e,
        None => {
            return None;
        },
    };
    let line = sub_chars(&text, 0, end);
    let label: Vec<char> = vec!['c', 'p', 'u', ' '];
    assert(label@ =~= "cpu "@) by {
        reveal_strlit("cpu ");
    }
    if !occurs_at_index(&line, &label, 0) {
        return None;
    }
    let mut vals: Vec<u64> = Vec::new();
    let mut ntok: usize = 0;
    let mut start: usize = 0;
    let mut in_tok = false;
    let mut i: usize = 0;
    while i < line.len()
        invariant
            i <= line.len(),
            ntok <= i,
            ({
                let (t, c) = ws_scan(line@.subrange(0, i as int));
                &&& ntok == t.len()
                &&& in_tok == (c.len() > 0)
                &&& in_tok ==> start < i && c == line@.subrange(start as int, i as int)
                &&& vals@ == parse_u64_tokens(skip_first(t))
            }),
        decreases line.len() - i,
    {
        proof {
            lemma_ws_scan_step(line@, i as int);
        }
        let ghost (t0, c0) = ws_scan(line@.subrange(0, i as int));
        if is_whitespace_char(line[i]) {
            if in_tok {
                if ntok >= 1 {
                    match parse_unsigned_chars(&line, start, i, 10, u64::MAX) {
                        Some(x) => {
                            vals.push(x);
                        },
                        None => {},
                    }
                    proof {
                        lemma_skip_first_push(t0, c0);
                    }
                } else {
                    assert(skip_first(t0.push(c0)) =~= Seq::<Seq<char>>::empty());
                    assert(skip_first(t0) =~= Seq::<Seq<char>>::empty());
                }
                ntok = ntok + 1;
                in_tok = false;
            }
        } else {
            if !in_tok {
                in_tok = true;
                start = i;
                assert(line@.subrange(start as int, i + 1) =~= seq![line@[i as int]]);
            } else {
                assert(line@.subrange(start as int, i + 1) =~= line@.subrange(
                    start as int,
                    i as int,
                ).push(line@[i as int]));
            }
        }
        i = i + 1;
    }
    let ghost (t, c) = ws_scan(line@.subrange(0, i as int));
    assert(line@.subrange(0, i as int) =~= line@);
    if in_tok {
        if ntok >= 1 {
            match parse_unsigned_chars(&line, start, i, 10, u64::MAX) {
                Some(x) => {
                    vals.push(x);
                },
                None => {},
            }
            proof {
                lemma_skip_first_push(t, c);
            }
        } else {
            assert(skip_first(t.push(c)) =~= Seq::<Seq<char>>::empty());
        }
    }
    if vals.len() < 4 {
        None
    } else {
        Some(vals)
    }
}

/// `(total, work)` time from the counters of the aggregate `cpu` line. The sum
/// of the counters must fit in a `u64`.
pub fn cpu_times(values: &Vec<u64>) -> (r: (u64, u64))
    requires
        values.len() >= 4,
        seq_sum(values@) <= u64::MAX,
    ensures
        r == spec_cpu_times(values@),
{
    let mut total: u64 = 0;
    let mut i: usize = 0;
    while i < values.len()
        invariant
            i <= values.len(),
            seq_sum(values@) <= u64::MAX,
            total == seq_sum(values@.subrange(0, i as int)),
        decreases values.len() - i,
    {
        proof {
            assert(values@.subrange(0, i + 1).drop_last() =~= values@.subrange(0, i as int));
            lemma_seq_sum_prefix(values@, i + 1);
        }
        total = total + values[i];
        i = i + 1;
    }
    assert(values@.subrange(0, i as int) =~= values@);
    proof {
        if values.len() > 4 {
            lemma_seq_sum_two_le(values@, 3, 4);
        } else {
            lemma_seq_sum_one_le(values@, 3);
        }
    }
    let idle: u64 = values[3] + if values.len() > 4 {
        values[4]
    } else {
        0
    };
    let work = if total >= idle {
        total - idle
    } else {
        0
    };
    (total, work)
}

/// Whole percent of busy time: `work_delta / total_delta * 100`, rounded half
/// away from zero and capped at 100.
pub open spec fn spec_load_pct(work_delta: int, total_delta: int) -> u8 {
    let p = (200 * work_delta + total_delta) / (2 * total_delta);
    if p > 100 {
        100
    } else {
        p as u8
    }
}

/// Time between two monotonic clock readings; an earlier `now` counts as no time.
pub open spec fn elapsed_ns(last: u64, now: u64) -> int {
    if now >= last {
        now - last
    } else {
        0
    }
}

/// `a - b`, or 0 when `b` is larger.
pub open spec fn sat_sub(a: u64, b: u64) -> int {
    if a >= b {
        a - b
    } else {
        0
    }
}

/// Load monitor state: the last `(total, work)` counters, when they were
/// read, and the last load computed.
pub struct CpuLoadMonitor {
    last_stat: Option<(u64, u64)>,
    last_timestamp_ns: u64,
    last_pct: u8,
}

/// What a load reading gives: a computed load, or a request to use the
/// fallback source (sysinfo's global usage).
#[derive(Debug, Clone, Copy, PartialEq, Eq, Structural)]
pub enum LoadReading {
    Percent(u8),
    Fallback,
}

impl CpuLoadMonitor {
    /// The counters the next delta is measured from, if any were read.
    pub closed spec fn last_stat(&self) -> Option<(u64, u64)> {
        self.last_stat
    }

    /// The clock reading at which `last_stat` was taken.
    pub closed spec fn last_timestamp(&self) -> u64 {
        self.last_timestamp_ns
    }

    /// The load reported while readings come too close together.
    pub closed spec fn last_pct(&self) -> u8 {
        self.last_pct
    }

    /// Whether a call at `now_ns` needs fresh `/proc/stat` counters.
    pub open spec fn spec_reading_due(&self, now_ns: u64) -> bool {
        self.last_stat() is Some && elapsed_ns(self.last_timestamp(), now_ns)
            >= MIN_LOAD_INTERVAL_NS
    }

    /// Creates a monitor from the counters read at start-up (if any) and the
    /// clock reading.
    pub fn new(initial_stat: Option<(u64, u64)>, now_ns: u64) -> (m: Self)
        ensures
            m.last_stat() == initial_stat,
            m.last_timestamp() == now_ns,
            m.last_pct() == 0,
    {
        CpuLoadMonitor { last_stat: initial_stat, last_timestamp_ns: now_ns, last_pct: 0 }
    }

    /// Whether a call of `get_load_pct` at `now_ns` needs fresh counters.
    pub fn reading_due(&self, now_ns: u64) -> (b: bool)
        ensures
            b == self.spec_reading_due(now_ns),
    {
        self.last_stat.is_some() && (if now_ns >= self.last_timestamp_ns {
            now_ns - self.last_timestamp_ns
        } else {
            0
        }) >= MIN_LOAD_INTERVAL_NS
    }

    /// The CPU load from the counter deltas since the last computed load.
    ///
    /// Without earlier counters the fallback is used. Within 200 ms of the
    /// last computed load that load is repeated. Otherwise, with fresh counters
    /// whose total advanced, the load over the deltas is computed and the
    /// counters and time become the new reference; in every other case the
    /// fallback is used and nothing changes.
    pub fn get_load_pct(&mut self, now_ns: u64, reading: Option<(u64, u64)>) -> (r: LoadReading)
        ensures
            old(self).last_stat() is None ==> r == LoadReading::Fallback && *final(self) == *old(
                self,
            ),
            old(self).last_stat() is Some && !old(self).spec_reading_due(now_ns) ==> r
                == LoadReading::Percent(old(self).last_pct()) && *final(self) == *old(self),
            old(self).spec_reading_due(now_ns) ==> {
                let (pt, pw) = old(self).last_stat()->0;
                match reading {
                    Some((ct, cw)) => if sat_sub(ct, pt) > 0 {
                        let p = spec_load_pct(sat_sub(cw, pw), sat_sub(ct, pt));
                        &&& r == LoadReading::Percent(p)
                        &&& final(self).last_stat() == Some((ct, cw))
                        &&& final(self).last_timestamp() == now_ns
                        &&& final(self).last_pct() == p
                    } else {
                        r == LoadReading::Fallback && *final(self) == *old(self)
                    },
                    None => r == LoadReading::Fallback && *final(self) == *old(self),
                }
            },
    {
        match self.last_stat {
            None => LoadReading::Fallback,
            Some((prev_total, prev_work)) => {
                if !self.reading_due(now_ns) {
                    return LoadReading::Percent(self.last_pct);
                }
                match reading {
                    Some((cur_total, cur_work)) => {
                        let total_delta = if cur_total >= prev_total {
                            cur_total - prev_total
                        } else {
                            0
                        };
                        let work_delta = if cur_work >= prev_work {
                            cur_work - prev_work
                        } else {
                            0
                        };
                        if total_delta > 0 {
                            let pct = load_pct(work_delta, total_delta);
                            self.last_stat = Some((cur_total, cur_work));
                            self.last_timestamp_ns = now_ns;
                            self.last_pct = pct;
                            LoadReading::Percent(pct)
                        } else {
                            LoadReading::Fallback
                        }
                    },
                    None => LoadReading::Fallback,
                }
            },
        }
    }
}

fn load_pct(work_delta: u64, total_delta: u64) -> (p: u8)
    requires
        total_delta > 0,
    ensures
        p == spec_load_pct(work_delta as int, total_delta as int),
{
    let num: u128 = 200 * (work_delta as u128) + (total_delta as u128);
    let den: u128 = 2 * (total_delta as u128);
    let q = num / den;
    if q > 100 {
        100
    } else {
        q as u8
    }
}

/// A load never exceeds 100 %, and busy time equal to total time reads as 100 %.
pub proof fn lemma_load_pct_bounds(work_delta: int, total_delta: int)
    requires
        total_delta > 0,
        work_delta >= 0,
    ensures
        spec_load_pct(work_delta, total_delta) <= 100,
        spec_load_pct(total_delta, total_delta) == 100,
        spec_load_pct(0, total_delta) == 0,
{
    let t = total_delta;
    assert((200 * t + t) / (2 * t) == 100) by (nonlinear_arith)
        requires
            t > 0,
    {
        assert(200 * t + t == 100 * (2 * t) + t);
        vstd::arithmetic::div_mod::lemma_fundamental_div_mod_converse(200 * t + t, 2 * t, 100, t);
    }
    assert(t / (2 * t) == 0) by (nonlinear_arith)
        requires
            t > 0,
    ;
}

} // verus!
