//! Character-level text helpers with the semantics of the std string methods
//! the telemetry parsers rely on.
use vstd::prelude::*;

verus! {

/// The characters of `s`, in order.
pub fn chars_of(s: &str) -> (v: Vec<char>)
    ensures
        v@ == s@,
{
    broadcast use vstd::string::group_string_axioms;

    let mut v: Vec<char> = Vec::new();
    for c in it: s.chars()
        invariant
            it.seq() == s@,
            v@ =~= it.seq().take(it.index() as int),
    {
        v.push(c);
    }
    v
}

// ---------------------------------------------------------------------------
// Whitespace and trimming
// ---------------------------------------------------------------------------

/// Unicode `White_Space`, the property `char::is_whitespace` tests.
pub open spec fn is_whitespace(c: char) -> bool {
    let u = c as u32;
    ||| u == 0x20
    ||| 0x09 <= u <= 0x0D
    ||| u == 0x85
    ||| u == 0xA0
    ||| u == 0x1680
    ||| 0x2000 <= u <= 0x200A
    ||| u == 0x2028
    ||| u == 0x2029
    ||| u == 0x202F
    ||| u == 0x205F
    ||| u == 0x3000
}

/// `s` without its leading whitespace.
pub open spec fn trim_start(s: Seq<char>) -> Seq<char>
    decreases s.len(),
{
    if s.len() > 0 && is_whitespace(s[0]) {
        trim_start(s.drop_first())
    } else {
        s
    }
}

/// `s` without its trailing whitespace.
pub open spec fn trim_end(s: Seq<char>) -> Seq<char>
    decreases s.len(),
{
    if s.len() > 0 && is_whitespace(s.last()) {
        trim_end(s.drop_last())
    } else {
        s
    }
}

/// `s` without leading and trailing whitespace, as `str::trim` gives it.
pub open spec fn trim(s: Seq<char>) -> Seq<char> {
    trim_end(trim_start(s))
}

/// Whether `c` is Unicode whitespace.
pub fn is_whitespace_char(c: char) -> (b: bool)
    ensures
        b == is_whitespace(c),
{
    let u = c as u32;
    u == 0x20 || (0x09 <= u && u <= 0x0D) || u == 0x85 || u == 0xA0 || u == 0x1680 || (0x2000
        <= u && u <= 0x200A) || u == 0x2028 || u == 0x2029 || u == 0x202F || u == 0x205F || u
        == 0x3000
}

proof fn lemma_trim_start_skip(s: Seq<char>, i: int)
    requires
        0 <= i <= s.len(),
        forall|j: int| 0 <= j < i ==> is_whitespace(#[trigger] s[j]),
    ensures
        trim_start(s) == trim_start(s.subrange(i, s.len() as int)),
    decreases i,
{
    if i > 0 {
        assert(s.drop_first().subrange(i - 1, s.drop_first().len() as int) =~= s.subrange(
            i,
            s.len() as int,
        ));
        lemma_trim_start_skip(s.drop_first(), i - 1);
    } else {
        assert(s.subrange(0, s.len() as int) =~= s);
    }
}

proof fn lemma_trim_end_skip(s: Seq<char>, k: int)
    requires
        0 <= k <= s.len(),
        forall|j: int| k <= j < s.len() ==> is_whitespace(#[trigger] s[j]),
    ensures
        trim_end(s) == trim_end(s.subrange(0, k)),
    decreases s.len() - k,
{
    if k < s.len() {
        assert(s.drop_last().subrange(0, k) =~= s.subrange(0, k));
        lemma_trim_end_skip(s.drop_last(), k);
    } else {
        assert(s.subrange(0, k) =~= s);
    }
}

/// `v[lo..hi]` without leading and trailing whitespace, as a new vector.
pub fn trim_chars(v: &Vec<char>, lo: usize, hi: usize) -> (r: Vec<char>)
    requires
        lo <= hi <= v.len(),
    ensures
        r@ == trim(v@.subrange(lo as int, hi as int)),
{
    let ghost s = v@.subrange(lo as int, hi as int);
    let mut a = lo;
    while a < hi && is_whitespace_char(v[a])
        invariant
            lo <= a <= hi <= v.len(),
            s == v@.subrange(lo as int, hi as int),
            forall|j: int| lo <= j < a ==> is_whitespace(#[trigger] v@[j]),
        decreases hi - a,
    {
        a = a + 1;
    }
    proof {
        assert forall|j: int| 0 <= j < a - lo implies is_whitespace(#[trigger] s[j]) by {
            assert(s[j] == v@[lo + j]);
        }
        lemma_trim_start_skip(s, a - lo);
        assert(s.subrange(a - lo, s.len() as int) =~= v@.subrange(a as int, hi as int));
        if a < hi {
            assert(!is_whitespace(v@[a as int]));
            assert(trim_start(v@.subrange(a as int, hi as int)) == v@.subrange(a as int, hi as int));
        } else {
            assert(v@.subrange(a as int, hi as int).len() == 0);
        }
    }
    let ghost t = v@.subrange(a as int, hi as int);
    let mut b = hi;
    while b > a && is_whitespace_char(v[b - 1])
        invariant
            lo <= a <= b <= hi <= v.len(),
            t == v@.subrange(a as int, hi as int),
            forall|j: int| b <= j < hi ==> is_whitespace(#[trigger] v@[j]),
        decreases b - a,
    {
        b = b - 1;
    }
    proof {
        assert forall|j: int| b - a <= j < t.len() implies is_whitespace(#[trigger] t[j]) by {
            assert(t[j] == v@[a + j]);
        }
        lemma_trim_end_skip(t, b - a);
        assert(t.subrange(0, b - a) =~= v@.subrange(a as int, b as int));
        if b > a {
            assert(!is_whitespace(v@.subrange(a as int, b as int).last()));
        }
    }
    sub_chars(v, a, b)
}

// ---------------------------------------------------------------------------
// Sub-sequences and patterns
// ---------------------------------------------------------------------------

/// The characters `v[lo..hi]`, as a new vector.
pub fn sub_chars(v: &Vec<char>, lo: usize, hi: usize) -> (r: Vec<char>)
    requires
        lo <= hi <= v.len(),
    ensures
        r@ == v@.subrange(lo as int, hi as int),
{
    let mut r: Vec<char> = Vec::new();
    let mut i = lo;
    while i < hi
        invariant
            lo <= i <= hi <= v.len(),
            r@ == v@.subrange(lo as int, i as int),
        decreases hi - i,
    {
        r.push(v[i]);
        i = i + 1;
        assert(r@ =~= v@.subrange(lo as int, i as int));
    }
    r
}

/// Whether `pat` occurs in `s` starting at index `i`.
pub open spec fn occurs_at(s: Seq<char>, pat: Seq<char>, i: int) -> bool {
    0 <= i && i + pat.len() <= s.len() && s.subrange(i, i + pat.len()) == pat
}

/// Whether `pat` occurs anywhere in `s`, as `str::contains` tests.
pub open spec fn contains(s: Seq<char>, pat: Seq<char>) -> bool {
    exists|i: int| occurs_at(s, pat, i)
}

/// Whether `pat` occurs in `v` starting at index `i`.
pub fn occurs_at_index(v: &Vec<char>, pat: &Vec<char>, i: usize) -> (b: bool)
    ensures
        b == occurs_at(v@, pat@, i as int),
{
    if i > v.len() || pat.len() > v.len() - i {
        return false;
    }
    let mut k: usize = 0;
    while k < pat.len()
        invariant
            i + pat.len() <= v.len(),
            k <= pat.len(),
            forall|j: int| 0 <= j < k ==> v@[i + j] == pat@[j],
        decreases pat.len() - k,
    {
        if v[i + k] != pat[k] {
            assert(v@.subrange(i as int, i + pat.len())[k as int] != pat@[k as int]);
            return false;
        }
        k = k + 1;
    }
    assert(v@.subrange(i as int, i + pat.len()) =~= pat@);
    true
}

/// Whether `pat` occurs anywhere in `v`.
pub fn contains_chars(v: &Vec<char>, pat: &Vec<char>) -> (b: bool)
    ensures
        b == contains(v@, pat@),
{
    if pat.len() == 0 {
        assert(v@.subrange(0, 0) =~= pat@);
        assert(occurs_at(v@, pat@, 0));
        return true;
    }
    if pat.len() > v.len() {
        return false;
    }
    let mut i: usize = 0;
    while i <= v.len() - pat.len()
        invariant
            1 <= pat.len() <= v.len(),
            i <= v.len() - pat.len() + 1,
            forall|j: int| 0 <= j < i ==> !occurs_at(v@, pat@, j),
        decreases v.len() - pat.len() + 1 - i,
    {
        if occurs_at_index(v, pat, i) {
            return true;
        }
        i = i + 1;
    }
    false
}

/// Whether `pat` occurs anywhere in `v`.
pub fn contains_str(v: &Vec<char>, pat: &str) -> (b: bool)
    ensures
        b == contains(v@, pat@),
{
    let p = chars_of(pat);
    contains_chars(v, &p)
}

/// Whether `s` starts with `pat`.
pub open spec fn starts_with(s: Seq<char>, pat: Seq<char>) -> bool {
    occurs_at(s, pat, 0)
}

// ---------------------------------------------------------------------------
// Integers, as `FromStr` and `from_str_radix` read them
// ---------------------------------------------------------------------------

/// The value of `c` as a digit in `radix`, as `char::to_digit` gives it.
pub open spec fn digit_value(c: char, radix: int) -> Option<int> {
    let u = c as u32 as int;
    let d = if 48 <= u <= 57 {
        u - 48
    } else if 97 <= u <= 122 {
        u - 97 + 10
    } else if 65 <= u <= 90 {
        u - 65 + 10
    } else {
        radix
    };
    if d < radix {
        Some(d)
    } else {
        None
    }
}

/// Whether every character of `s` is a digit in `radix`.
pub open spec fn all_digits(s: Seq<char>, radix: int) -> bool {
    forall|i: int| 0 <= i < s.len() ==> #[trigger] digit_value(s[i], radix) is Some
}

/// The value of the digit string `s` in `radix`.
pub open spec fn digits_value(s: Seq<char>, radix: int) -> int
    decreases s.len(),
{
    if s.len() == 0 {
        0
    } else {
        radix * digits_value(s.drop_last(), radix) + digit_value(s.last(), radix)->0
    }
}

/// What `from_str_radix` gives for an unsigned type whose largest value is
/// `max`: an optional `+` followed by one or more digits whose value fits.
pub open spec fn parse_unsigned(s: Seq<char>, radix: int, max: int) -> Option<int> {
    let body = if s.len() > 0 && s[0] == '+' {
        s.drop_first()
    } else {
        s
    };
    if body.len() > 0 && all_digits(body, radix) && digits_value(body, radix) <= max {
        Some(digits_value(body, radix))
    } else {
        None
    }
}

/// What `from_str_radix` gives for a signed type with range `min..=max`: an
/// optional `+` or `-` followed by one or more digits whose value fits.
pub open spec fn parse_signed(s: Seq<char>, radix: int, min: int, max: int) -> Option<int> {
    if s.len() > 0 && s[0] == '-' {
        let body = s.drop_first();
        if body.len() > 0 && all_digits(body, radix) && -digits_value(body, radix) >= min {
            Some(-digits_value(body, radix))
        } else {
            None
        }
    } else {
        parse_unsigned(s, radix, max)
    }
}

fn digit_of(c: char, radix: u32) -> (d: Option<u32>)
    requires
        2 <= radix <= 36,
    ensures
        d matches Some(x) ==> digit_value(c, radix as int) == Some(x as int),
        d is None ==> digit_value(c, radix as int) is None,
{
    let u = c as u32;
    let d: u32 = if 48 <= u && u <= 57 {
        u - 48
    } else if 97 <= u && u <= 122 {
        u - 97 + 10
    } else if 65 <= u && u <= 90 {
        u - 65 + 10
    } else {
        radix
    };
    if d < radix {
        Some(d)
    } else {
        None
    }
}

proof fn lemma_capped_step(x: int, cap: int, r: int, d: int)
    requires
        x >= 0,
        cap >= 0,
        r >= 1,
        d >= 0,
    ensures
        ({
            let c = if x < cap { x } else { cap };
            let y = r * c + d;
            let z = r * x + d;
            (if y < cap { y } else { cap }) == (if z < cap { z } else { cap })
        }),
{
    if x >= cap {
        assert(r * x >= r * cap) by (nonlinear_arith)
            requires
                x >= cap,
                r >= 1,
        ;
        assert(r * cap >= cap) by (nonlinear_arith)
            requires
                cap >= 0,
                r >= 1,
        ;
    }
}

pub(crate) proof fn lemma_digits_value_nonneg(s: Seq<char>, radix: int)
    requires
        radix >= 2,
        all_digits(s, radix),
    ensures
        digits_value(s, radix) >= 0,
    decreases s.len(),
{
    if s.len() > 0 {
        assert(all_digits(s.drop_last(), radix)) by {
            assert forall|i: int| 0 <= i < s.drop_last().len() implies #[trigger] digit_value(
                s.drop_last()[i],
                radix,
            ) is Some by {
                assert(s.drop_last()[i] == s[i]);
            }
        }
        lemma_digits_value_nonneg(s.drop_last(), radix);
        assert(digit_value(s[s.len() - 1], radix) is Some);
        assert(radix * digits_value(s.drop_last(), radix) >= 0) by (nonlinear_arith)
            requires
                radix >= 2,
                digits_value(s.drop_last(), radix) >= 0,
        ;
    }
}

/// Reads `v[lo..hi]` as a digit string in `radix` and returns its value, or
/// `cap` when it is `cap` or more; `None` when it is empty or holds a non-digit.
fn digits_capped(v: &Vec<char>, lo: usize, hi: usize, radix: u32, cap: u128) -> (r: Option<u128>)
    requires
        lo <= hi <= v.len(),
        2 <= radix <= 36,
        cap <= 0x1_0000_0000_0000_0000u128,
    ensures
        ({
            let s = v@.subrange(lo as int, hi as int);
            match r {
                Some(x) => s.len() > 0 && all_digits(s, radix as int) && x == (if digits_value(
                    s,
                    radix as int,
                ) < cap {
                    digits_value(s, radix as int)
                } else {
                    cap as int
                }),
                None => !(s.len() > 0 && all_digits(s, radix as int)),
            }
        }),
{
    if lo == hi {
        return None;
    }
    let mut acc: u128 = 0;
    let mut i = lo;
    while i < hi
        invariant
            lo <= i <= hi <= v.len(),
            2 <= radix <= 36,
            cap <= 0x1_0000_0000_0000_0000u128,
            all_digits(v@.subrange(lo as int, i as int), radix as int),
            acc == (if digits_value(v@.subrange(lo as int, i as int), radix as int) < cap {
                digits_value(v@.subrange(lo as int, i as int), radix as int)
            } else {
                cap as int
            }),
        decreases hi - i,
    {
        let ghost pre = v@.subrange(lo as int, i as int);
        let ghost next = v@.subrange(lo as int, i + 1);
        assert(next.drop_last() =~= pre);
        assert(next.last() == v@[i as int]);
        match digit_of(v[i], radix) {
            Some(d) => {
                proof {
                    lemma_digits_value_nonneg(pre, radix as int);
                    lemma_capped_step(
                        digits_value(pre, radix as int),
                        cap as int,
                        radix as int,
                        d as int,
                    );
                    assert forall|j: int| 0 <= j < next.len() implies #[trigger] digit_value(
                        next[j],
                        radix as int,
                    ) is Some by {
                        if j < pre.len() {
                            assert(next[j] == pre[j]);
                        }
                    }
                }
                assert((radix as int) * (acc as int) <= 36 * 0x1_0000_0000_0000_0000) by (nonlinear_arith)
                    requires
                        radix <= 36,
                        acc <= 0x1_0000_0000_0000_0000u128,
                ;
                let y: u128 = (radix as u128) * acc + (d as u128);
                acc = if y < cap { y } else { cap };
            },
            None => {
                proof {
                    assert(v@.subrange(lo as int, hi as int)[i - lo] == v@[i as int]);
                }
                return None;
            },
        }
        i = i + 1;
    }
    assert(v@.subrange(lo as int, i as int) =~= v@.subrange(lo as int, hi as int));
    Some(acc)
}

/// `v[lo..hi]` read as an unsigned integer in `radix` no larger than `max`,
/// with the grammar of `from_str_radix`.
pub fn parse_unsigned_chars(v: &Vec<char>, lo: usize, hi: usize, radix: u32, max: u64) -> (r:
    Option<u64>)
    requires
        lo <= hi <= v.len(),
        2 <= radix <= 36,
    ensures
        match r {
            Some(x) => parse_unsigned(v@.subrange(lo as int, hi as int), radix as int, max as int)
                == Some(x as int),
            None => parse_unsigned(v@.subrange(lo as int, hi as int), radix as int, max as int)
                is None,
        },
{
    let ghost s = v@.subrange(lo as int, hi as int);
    let start = if lo < hi && v[lo] == '+' {
        lo + 1
    } else {
        lo
    };
    proof {
        if lo < hi && v@[lo as int] == '+' {
            assert(s[0] == '+');
            assert(s.drop_first() =~= v@.subrange(start as int, hi as int));
        } else {
            assert(s =~= v@.subrange(start as int, hi as int));
        }
    }
    match digits_capped(v, start, hi, radix, (max as u128) + 1) {
        Some(x) => {
            if x <= max as u128 {
                Some(x as u64)
            } else {
                None
            }
        },
        None => None,
    }
}

/// `v[lo..hi]` read as a signed integer in `radix` within `min..=max`, with the
/// grammar of `from_str_radix`.
pub fn parse_signed_chars(v: &Vec<char>, lo: usize, hi: usize, radix: u32, min: i64, max: i64) -> (r:
    Option<i64>)
    requires
        lo <= hi <= v.len(),
        2 <= radix <= 36,
        min < 0 < max,
        min > i64::MIN,
    ensures
        match r {
            Some(x) => parse_signed(
                v@.subrange(lo as int, hi as int),
                radix as int,
                min as int,
                max as int,
            ) == Some(x as int),
            None => parse_signed(
                v@.subrange(lo as int, hi as int),
                radix as int,
                min as int,
                max as int,
            ) is None,
        },
{
    let ghost s = v@.subrange(lo as int, hi as int);
    if lo < hi && v[lo] == '-' {
        proof {
            assert(s[0] == '-');
            assert(s.drop_first() =~= v@.subrange(lo + 1, hi as int));
        }
        let bound: u128 = ((0 - (min + 1)) as u64 + 1) as u128;
        match digits_capped(v, lo + 1, hi, radix, bound + 1) {
            Some(x) => {
                if x <= bound {
                    Some(0 - (x as i64))
                } else {
                    None
                }
            },
            None => None,
        }
    } else {
        proof {
            if lo < hi {
                assert(s[0] == v@[lo as int]);
            }
        }
        match parse_unsigned_chars(v, lo, hi, radix, max as u64) {
            Some(x) => Some(x as i64),
            None => None,
        }
    }
}

// ---------------------------------------------------------------------------
// Lines and whitespace-separated tokens
// ---------------------------------------------------------------------------

/// Number of characters of `s` before its first `'\n'` (all of them when there is none).
pub open spec fn line_len(s: Seq<char>) -> int
    decreases s.len(),
{
    if s.len() == 0 || s[0] == '\n' {
        0
    } else {
        1 + line_len(s.drop_first())
    }
}

/// The first item `str::lines` yields: the text before the first `'\n'`,
/// without a `'\r'` just before that `'\n'`; the whole text when there is no
/// `'\n'`; nothing for an empty text.
pub open spec fn first_line(s: Seq<char>) -> Option<Seq<char>> {
    if s.len() == 0 {
        None
    } else if line_len(s) < s.len() {
        let l = s.subrange(0, line_len(s));
        if l.len() > 0 && l.last() == '\r' {
            Some(l.drop_last())
        } else {
            Some(l)
        }
    } else {
        Some(s)
    }
}

proof fn lemma_line_len_unique(s: Seq<char>, k: int)
    requires
        0 <= k <= s.len(),
        forall|j: int| 0 <= j < k ==> s[j] != '\n',
        k < s.len() ==> s[k] == '\n',
    ensures
        line_len(s) == k,
    decreases s.len(),
{
    if k > 0 {
        assert forall|j: int| 0 <= j < k - 1 implies s.drop_first()[j] != '\n' by {
            assert(s.drop_first()[j] == s[j + 1]);
        }
        lemma_line_len_unique(s.drop_first(), k - 1);
    }
}

/// The range `0..end` of the first line of `v` and whether there is one.
pub fn first_line_end(v: &Vec<char>) -> (r: Option<usize>)
    ensures
        match r {
            Some(e) => e <= v.len() && first_line(v@) == Some(v@.subrange(0, e as int)),
            None => first_line(v@) is None,
        },
{
    if v.len() == 0 {
        return None;
    }
    let mut k: usize = 0;
    while k < v.len() && v[k] != '\n'
        invariant
            k <= v.len(),
            forall|j: int| 0 <= j < k ==> v@[j] != '\n',
        decreases v.len() - k,
    {
        k = k + 1;
    }
    proof {
        lemma_line_len_unique(v@, k as int);
    }
    if k < v.len() {
        if k > 0 && v[k - 1] == '\r' {
            assert(v@.subrange(0, k as int).drop_last() =~= v@.subrange(0, k - 1));
            Some(k - 1)
        } else {
            Some(k)
        }
    } else {
        assert(v@.subrange(0, k as int) =~= v@);
        Some(k)
    }
}

/// Scanning `s` from the left for whitespace-separated tokens: the tokens
/// completed so far and the token in progress.
pub open spec fn ws_scan(s: Seq<char>) -> (Seq<Seq<char>>, Seq<char>)
    decreases s.len(),
{
    if s.len() == 0 {
        (Seq::empty(), Seq::empty())
    } else {
        let (toks, cur) = ws_scan(s.drop_last());
        if is_whitespace(s.last()) {
            if cur.len() > 0 {
                (toks.push(cur), Seq::empty())
            } else {
                (toks, cur)
            }
        } else {
            (toks, cur.push(s.last()))
        }
    }
}

/// The items `str::split_whitespace` yields for `s`.
pub open spec fn split_whitespace(s: Seq<char>) -> Seq<Seq<char>> {
    let (toks, cur) = ws_scan(s);
    if cur.len() > 0 {
        toks.push(cur)
    } else {
        toks
    }
}

// ---------------------------------------------------------------------------
// Searching and splitting
// ---------------------------------------------------------------------------

/// `s` with every leading repetition of `pat` removed (`str::trim_start_matches`).
pub open spec fn trim_start_matches(s: Seq<char>, pat: Seq<char>) -> Seq<char>
    decreases s.len(),
{
    if pat.len() > 0 && occurs_at(s, pat, 0) {
        trim_start_matches(s.subrange(pat.len() as int, s.len() as int), pat)
    } else {
        s
    }
}

proof fn lemma_trim_start_matches_step(s: Seq<char>, pat: Seq<char>, i: int)
    requires
        pat.len() > 0,
        0 <= i <= s.len(),
        occurs_at(s, pat, i),
    ensures
        trim_start_matches(s.subrange(i, s.len() as int), pat) == trim_start_matches(
            s.subrange(i + pat.len(), s.len() as int),
            pat,
        ),
{
    let t = s.subrange(i, s.len() as int);
    assert(t.subrange(0, pat.len() as int) =~= s.subrange(i, i + pat.len()));
    assert(occurs_at(t, pat, 0));
    assert(t.subrange(pat.len() as int, t.len() as int) =~= s.subrange(
        i + pat.len(),
        s.len() as int,
    ));
}

proof fn lemma_trim_start_matches_stop(s: Seq<char>, pat: Seq<char>, i: int)
    requires
        pat.len() > 0,
        0 <= i <= s.len(),
        !occurs_at(s, pat, i),
    ensures
        trim_start_matches(s.subrange(i, s.len() as int), pat) == s.subrange(i, s.len() as int),
{
    let t = s.subrange(i, s.len() as int);
    if occurs_at(t, pat, 0) {
        assert(t.subrange(0, pat.len() as int) =~= s.subrange(i, i + pat.len()));
    }
}

/// Index where the leading repetitions of `pat` in `v[start..]` end.
pub fn skip_repeated(v: &Vec<char>, start: usize, pat: &Vec<char>) -> (i: usize)
    requires
        start <= v.len(),
        pat.len() > 0,
    ensures
        start <= i <= v.len(),
        trim_start_matches(v@.subrange(start as int, v.len() as int), pat@) == v@.subrange(
            i as int,
            v.len() as int,
        ),
{
    let mut i = start;
    while occurs_at_index(v, pat, i)
        invariant
            start <= i <= v.len(),
            pat.len() > 0,
            trim_start_matches(v@.subrange(start as int, v.len() as int), pat@)
                == trim_start_matches(v@.subrange(i as int, v.len() as int), pat@),
        decreases v.len() - i,
    {
        proof {
            lemma_trim_start_matches_step(v@, pat@, i as int);
        }
        i = i + pat.len();
    }
    proof {
        lemma_trim_start_matches_stop(v@, pat@, i as int);
    }
    i
}

/// Index of the first `c` in `s` (`str::find` with a `char`), by characters.
pub open spec fn find_char(s: Seq<char>, c: char) -> Option<int>
    decreases s.len(),
{
    if s.len() == 0 {
        None
    } else if s[0] == c {
        Some(0)
    } else {
        match find_char(s.drop_first(), c) {
            Some(k) => Some(k + 1),
            None => None,
        }
    }
}

/// Index of the last `c` in `s` (`str::rfind` with a `char`), by characters.
pub open spec fn rfind_char(s: Seq<char>, c: char) -> Option<int>
    decreases s.len(),
{
    if s.len() == 0 {
        None
    } else if s.last() == c {
        Some(s.len() - 1)
    } else {
        rfind_char(s.drop_last(), c)
    }
}

proof fn lemma_find_char(s: Seq<char>, c: char, k: int)
    requires
        0 <= k <= s.len(),
        forall|j: int| 0 <= j < k ==> s[j] != c,
    ensures
        k < s.len() && s[k] == c ==> find_char(s, c) == Some(k),
        k == s.len() ==> find_char(s, c) is None,
    decreases k,
{
    if k > 0 {
        assert forall|j: int| 0 <= j < k - 1 implies s.drop_first()[j] != c by {
            assert(s.drop_first()[j] == s[j + 1]);
        }
        lemma_find_char(s.drop_first(), c, k - 1);
    }
}

proof fn lemma_rfind_char(s: Seq<char>, c: char, k: int)
    requires
        0 <= k <= s.len(),
        forall|j: int| k <= j < s.len() ==> s[j] != c,
    ensures
        k > 0 && s[k - 1] == c ==> rfind_char(s, c) == Some(k - 1),
        k == 0 ==> rfind_char(s, c) is None,
    decreases s.len() - k,
{
    if k < s.len() {
        lemma_rfind_char(s.drop_last(), c, k);
    } else if k > 0 {
    } else {
        assert(s.len() == 0);
    }
}

/// Index of the first `c` in `v`.
pub fn find_char_index(v: &Vec<char>, c: char) -> (r: Option<usize>)
    ensures
        match r {
            Some(k) => find_char(v@, c) == Some(k as int),
            None => find_char(v@, c) is None,
        },
{
    let mut k: usize = 0;
    while k < v.len()
        invariant
            k <= v.len(),
            forall|j: int| 0 <= j < k ==> v@[j] != c,
        decreases v.len() - k,
    {
        if v[k] == c {
            proof {
                lemma_find_char(v@, c, k as int);
            }
            return Some(k);
        }
        k = k + 1;
    }
    proof {
        lemma_find_char(v@, c, k as int);
    }
    None
}

/// Index of the last `c` in `v`.
pub fn rfind_char_index(v: &Vec<char>, c: char) -> (r: Option<usize>)
    ensures
        match r {
            Some(k) => rfind_char(v@, c) == Some(k as int),
            None => rfind_char(v@, c) is None,
        },
{
    let mut k: usize = v.len();
    while k > 0
        invariant
            k <= v.len(),
            forall|j: int| k <= j < v.len() ==> v@[j] != c,
        decreases k,
    {
        if v[k - 1] == c {
            proof {
                lemma_rfind_char(v@, c, k as int);
            }
            return Some(k - 1);
        }
        k = k - 1;
    }
    proof {
        lemma_rfind_char(v@, c, k as int);
    }
    None
}

/// Splitting `s` at non-overlapping occurrences of `pat`, scanning left to
/// right from `i`, with the current piece starting at `start`.
pub open spec fn split_scan(s: Seq<char>, pat: Seq<char>, start: int, i: int) -> Seq<Seq<char>>
    decreases s.len() - i,
    when pat.len() > 0 && 0 <= start <= i <= s.len()
{
    if i + pat.len() > s.len() {
        seq![s.subrange(start, s.len() as int)]
    } else if occurs_at(s, pat, i) {
        seq![s.subrange(start, i)] + split_scan(s, pat, i + pat.len(), i + pat.len())
    } else {
        split_scan(s, pat, start, i + 1)
    }
}

/// The pieces `str::split` yields for a non-empty string pattern.
pub open spec fn split_str(s: Seq<char>, pat: Seq<char>) -> Seq<Seq<char>> {
    split_scan(s, pat, 0, 0)
}

/// The pieces that ranges of `v` denote.
pub open spec fn ranges_view(v: Seq<char>, r: Seq<(usize, usize)>) -> Seq<Seq<char>> {
    Seq::new(r.len(), |k: int| v.subrange(r[k].0 as int, r[k].1 as int))
}

/// Whether every range lies within `lo..hi`.
pub open spec fn ranges_within(r: Seq<(usize, usize)>, lo: int, hi: int) -> bool {
    forall|k: int| 0 <= k < r.len() ==> lo <= #[trigger] r[k].0 <= r[k].1 <= hi
}

/// The ranges of the pieces of `v[lo..hi]` split at `pat`.
pub fn split_ranges(v: &Vec<char>, lo: usize, hi: usize, pat: &Vec<char>) -> (r: Vec<(usize, usize)>)
    requires
        lo <= hi <= v.len(),
        pat.len() > 0,
    ensures
        ranges_within(r@, lo as int, hi as int),
        ranges_view(v@, r@) == split_str(v@.subrange(lo as int, hi as int), pat@),
{
    let ghost s = v@.subrange(lo as int, hi as int);
    let mut r: Vec<(usize, usize)> = Vec::new();
    let mut start = lo;
    let mut i = lo;
    while i <= hi && pat.len() <= hi - i
        invariant
            lo <= start <= i <= hi <= v.len(),
            pat.len() > 0,
            s == v@.subrange(lo as int, hi as int),
            ranges_within(r@, lo as int, hi as int),
            ranges_view(v@, r@) + split_scan(s, pat@, start - lo, i - lo) == split_str(s, pat@),
        decreases hi - i,
    {
        let ghost rel = i - lo;
        if occurs_at_index(v, pat, i) {
            proof {
                assert(s.subrange(rel, rel + pat.len()) =~= v@.subrange(i as int, i + pat.len()));
                assert(occurs_at(s, pat@, rel));
                assert(s.subrange(start - lo, rel) =~= v@.subrange(start as int, i as int));
            }
            let ghost before = ranges_view(v@, r@);
            r.push((start, i));
            proof {
                assert(ranges_view(v@, r@) =~= before.push(v@.subrange(start as int, i as int)));
                assert(ranges_view(v@, r@) + split_scan(s, pat@, rel + pat.len(), rel + pat.len())
                    =~= before + (seq![s.subrange(start - lo, rel)] + split_scan(
                    s,
                    pat@,
                    rel + pat.len(),
                    rel + pat.len(),
                )));
            }
            i = i + pat.len();
            start = i;
        } else {
            proof {
                if occurs_at(s, pat@, rel) {
                    assert(s.subrange(rel, rel + pat.len()) =~= v@.subrange(
                        i as int,
                        i + pat.len(),
                    ));
                }
            }
            i = i + 1;
        }
    }
    let ghost before = ranges_view(v@, r@);
    proof {
        assert(s.subrange(start - lo, s.len() as int) =~= v@.subrange(start as int, hi as int));
    }
    r.push((start, hi));
    proof {
        assert(ranges_view(v@, r@) =~= before.push(v@.subrange(start as int, hi as int)));
        assert(ranges_view(v@, r@) =~= before + split_scan(s, pat@, start - lo, i - lo));
    }
    r
}

/// The pieces of every piece of `chunks` split again at `pat`, in order.
pub open spec fn flat_split(chunks: Seq<Seq<char>>, pat: Seq<char>) -> Seq<Seq<char>>
    decreases chunks.len(),
{
    if chunks.len() == 0 {
        Seq::empty()
    } else {
        flat_split(chunks.drop_last(), pat) + split_str(chunks.last(), pat)
    }
}

/// The ranges of the pieces of the pieces `first` of `v`, each split at `pat`.
pub fn flat_split_ranges(v: &Vec<char>, first: &Vec<(usize, usize)>, pat: &Vec<char>) -> (r: Vec<
    (usize, usize),
>)
    requires
        ranges_within(first@, 0, v.len() as int),
        pat.len() > 0,
    ensures
        ranges_within(r@, 0, v.len() as int),
        ranges_view(v@, r@) == flat_split(ranges_view(v@, first@), pat@),
{
    let mut r: Vec<(usize, usize)> = Vec::new();
    let mut k: usize = 0;
    while k < first.len()
        invariant
            k <= first.len(),
            pat.len() > 0,
            ranges_within(first@, 0, v.len() as int),
            ranges_within(r@, 0, v.len() as int),
            ranges_view(v@, r@) == flat_split(ranges_view(v@, first@).take(k as int), pat@),
        decreases first.len() - k,
    {
        let (a, b) = first[k];
        assert(0 <= first@[k as int].0 <= first@[k as int].1 <= v.len());
        let pieces = split_ranges(v, a, b, pat);
        let ghost before = ranges_view(v@, r@);
        let mut j: usize = 0;
        while j < pieces.len()
            invariant
                j <= pieces.len(),
                ranges_within(pieces@, a as int, b as int),
                b <= v.len(),
                ranges_within(r@, 0, v.len() as int),
                ranges_view(v@, r@) == before + ranges_view(v@, pieces@).take(j as int),
            decreases pieces.len() - j,
        {
            let ghost prev = ranges_view(v@, r@);
            let piece = pieces[j];
            r.push(piece);
            proof {
                assert(ranges_view(v@, r@) =~= prev.push(v@.subrange(piece.0 as int, piece.1 as int)));
                assert(ranges_view(v@, pieces@).take(j + 1) =~= ranges_view(v@, pieces@).take(
                    j as int,
                ).push(v@.subrange(piece.0 as int, piece.1 as int)));
                assert(ranges_view(v@, r@) =~= before + ranges_view(v@, pieces@).take(j + 1));
            }
            j = j + 1;
        }
        proof {
            assert(ranges_view(v@, pieces@).take(j as int) =~= ranges_view(v@, pieces@));
            let fk = ranges_view(v@, first@).take(k + 1);
            assert(fk.drop_last() =~= ranges_view(v@, first@).take(k as int));
            assert(fk.last() == v@.subrange(a as int, b as int));
        }
        k = k + 1;
    }
    assert(ranges_view(v@, first@).take(k as int) =~= ranges_view(v@, first@));
    r
}

// ---------------------------------------------------------------------------
// Strings
// ---------------------------------------------------------------------------

/// Appends `c` to `s` by calling `String::push`; the contract claims that the
/// string's characters afterwards are the old ones followed by `c`.
#[verifier::external_body]
pub(crate) fn push_char(s: &mut String, c: char)
    ensures
        final(s)@ == old(s)@.push(c),
{
    s.push(c)
}

/// A `String` holding the characters `v[lo..hi]`.
pub fn string_from_chars(v: &Vec<char>, lo: usize, hi: usize) -> (r: String)
    requires
        lo <= hi <= v.len(),
    ensures
        r@ == v@.subrange(lo as int, hi as int),
{
    let mut r = String::new();
    let mut i = lo;
    while i < hi
        invariant
            lo <= i <= hi <= v.len(),
            r@ == v@.subrange(lo as int, i as int),
        decreases hi - i,
    {
        push_char(&mut r, v[i]);
        i = i + 1;
        assert(r@ =~= v@.subrange(lo as int, i as int));
    }
    r
}

/// What `str::to_lowercase` returns for a string with characters `s`.
pub uninterp spec fn lowercase(s: Seq<char>) -> Seq<char>;

/// The lowercase equivalent of `s` (`str::to_lowercase`), by the Unicode
/// `Lowercase` mapping, context-sensitive final sigma included. The contract
/// names the result and states nothing else of it.
#[verifier::external_body]
fn to_lowercase(s: &str) -> (r: String)
    ensures
        r@ == lowercase(s@),
{
    s.to_lowercase()
}

/// The lowercase equivalent of `v[lo..hi]`.
pub fn lowercase_chars(v: &Vec<char>, lo: usize, hi: usize) -> (r: Vec<char>)
    requires
        lo <= hi <= v.len(),
    ensures
        r@ == lowercase(v@.subrange(lo as int, hi as int)),
{
    let s = string_from_chars(v, lo, hi);
    let l = to_lowercase(s.as_str());
    chars_of(l.as_str())
}

} // verus!
