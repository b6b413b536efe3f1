//! Command-line values: USB ids given in hexadecimal, and the settings the
//! Windows service is installed with.
use crate::text::{
    all_digits, chars_of, digit_value, digits_value, lemma_digits_value_nonneg, occurs_at, parse_unsigned,
    parse_unsigned_chars, push_char, skip_repeated, trim_start_matches,
};
use vstd::prelude::*;

verus! {

/// The digits of a hexadecimal id: every leading `0x`, then every leading `0X`, removed.
pub open spec fn hex_id_digits(s: Seq<char>) -> Seq<char> {
    trim_start_matches(trim_start_matches(s, seq!['0', 'x']), seq!['0', 'X'])
}

/// The id that a hexadecimal string gives, or `default` when it is no valid `u16`.
pub open spec fn spec_parse_hex_id(s: Seq<char>, default: u16) -> u16 {
    match parse_unsigned(hex_id_digits(s), 16, 0xffff) {
        Some(v) => v as u16,
        None => default,
    }
}

/// Parses a USB vendor or product id given in hexadecimal, with optional
/// `0x` / `0X` prefixes; falls back to `default` when the text is no valid `u16`.
pub fn parse_hex_id(id_str: &str, default: u16) -> (id: u16)
    ensures
        id == spec_parse_hex_id(id_str@, default),
{
    let v = chars_of(id_str);
    let lower_prefix: Vec<char> = vec!['0', 'x'];
    let upper_prefix: Vec<char> = vec!['0', 'X'];
    assert(lower_prefix@ =~= seq!['0', 'x']);
    assert(upper_prefix@ =~= seq!['0', 'X']);
    let i = skip_repeated(&v, 0, &lower_prefix);
    assert(v@.subrange(0, v.len() as int) =~= v@);
    let j = skip_repeated(&v, i, &upper_prefix);
    match parse_unsigned_chars(&v, j, v.len(), 16, 0xffff) {
        Some(x) => x as u16,
        None => default,
    }
}

/// Settings the Windows service falls back to when none were handed over.
#[derive(Debug, Clone, Copy, PartialEq, Eq, Structural)]
pub struct ServiceConfig {
    pub interval_ms: u64,
    pub model_id: u8,
    pub fahrenheit: bool,
    pub vid: u16,
    pub pid: u16,
}

impl ServiceConfig {
    /// Defaults: 1000 ms, Ice Moon model id 3, Celsius, the stock USB ids.
    pub fn fallback() -> (c: Self)
        ensures
            c.interval_ms == crate::daemon::DEFAULT_INTERVAL_MS,
            c.model_id == crate::protocol::DEFAULT_MODEL_ID_ICE_MOON,
            !c.fahrenheit,
            c.vid == crate::protocol::VENDOR_ID,
            c.pid == crate::protocol::PRODUCT_ID,
    {
        ServiceConfig {
            interval_ms: crate::daemon::DEFAULT_INTERVAL_MS,
            model_id: crate::protocol::DEFAULT_MODEL_ID_ICE_MOON,
            fahrenheit: false,
            vid: crate::protocol::VENDOR_ID,
            pid: crate::protocol::PRODUCT_ID,
        }
    }
}

/// The character of a digit value below 16, lowercase for 10..=15.
pub open spec fn digit_char(d: int) -> char {
    if d < 10 {
        (48 + d) as char
    } else {
        (87 + d) as char
    }
}

/// `n` in decimal, as `{}` formats it.
pub open spec fn decimal(n: nat) -> Seq<char>
    decreases n,
{
    if n < 10 {
        seq![digit_char(n as int)]
    } else {
        decimal(n / 10).push(digit_char((n % 10) as int))
    }
}

/// `n` as four lowercase hexadecimal digits, as `{:04x}` formats a `u16`.
pub open spec fn hex4(n: u16) -> Seq<char> {
    seq![
        digit_char(n as int / 4096),
        digit_char((n as int / 256) % 16),
        digit_char((n as int / 16) % 16),
        digit_char(n as int % 16),
    ]
}

/// The command line the Windows service is registered with.
pub open spec fn spec_service_command_line(
    exe_path: Seq<char>,
    interval_ms: u64,
    model_id: u8,
    fahrenheit: bool,
    vid: u16,
    pid: u16,
) -> Seq<char> {
    seq!['"'] + exe_path + "\" --service -i "@ + decimal(interval_ms as nat) + " -m "@ + decimal(
        model_id as nat,
    ) + (if fahrenheit {
        " -f"@
    } else {
        Seq::<char>::empty()
    }) + " --vid "@ + hex4(vid) + " --pid "@ + hex4(pid)
}

fn digit(d: u64) -> (c: char)
    requires
        d < 16,
    ensures
        c == digit_char(d as int),
{
    if d < 10 {
        ((48 + d) as u8) as char
    } else {
        ((87 + d) as u8) as char
    }
}

fn push_decimal(s: &mut String, n: u64)
    ensures
        final(s)@ == old(s)@ + decimal(n as nat),
    decreases n,
{
    if n >= 10 {
        push_decimal(s, n / 10);
    }
    push_char(s, digit(n % 10));
    proof {
        if n < 10 {
            assert(decimal(n as nat) =~= seq![digit_char(n as int)]);
        }
    }
}

fn push_hex4(s: &mut String, n: u16)
    ensures
        final(s)@ == old(s)@ + hex4(n),
{
    push_char(s, digit((n / 4096) as u64));
    push_char(s, digit(((n / 256) % 16) as u64));
    push_char(s, digit(((n / 16) % 16) as u64));
    push_char(s, digit((n % 16) as u64));
}

/// The command line the Windows service is registered with:
/// `"<exe>" --service -i <interval> -m <model>[ -f] --vid <vid:04x> --pid <pid:04x>`.
pub fn service_command_line(
    exe_path: &str,
    interval_ms: u64,
    model_id: u8,
    fahrenheit: bool,
    vid: u16,
    pid: u16,
) -> (cmd: String)
    ensures
        cmd@ == spec_service_command_line(exe_path@, interval_ms, model_id, fahrenheit, vid, pid),
{
    let mut s = String::new();
    push_char(&mut s, '"');
    s.append(exe_path);
    s.append("\" --service -i ");
    push_decimal(&mut s, interval_ms);
    s.append(" -m ");
    push_decimal(&mut s, model_id as u64);
    if fahrenheit {
        s.append(" -f");
    }
    s.append(" --vid ");
    push_hex4(&mut s, vid);
    s.append(" --pid ");
    push_hex4(&mut s, pid);
    assert(s@ =~= spec_service_command_line(exe_path@, interval_ms, model_id, fahrenheit, vid, pid));
    s
}

/// The character of a digit value below 16, uppercase for 10..=15.
pub open spec fn upper_digit_char(d: int) -> char {
    if d < 10 {
        (48 + d) as char
    } else {
        (55 + d) as char
    }
}

/// `n` in uppercase hexadecimal without leading zeros, as `{:X}` formats it.
pub open spec fn upper_hex(n: nat) -> Seq<char>
    decreases n,
{
    if n < 16 {
        seq![upper_digit_char(n as int)]
    } else {
        upper_hex(n / 16).push(upper_digit_char((n % 16) as int))
    }
}

proof fn lemma_digit_chars(d: int)
    requires
        0 <= d < 16,
    ensures
        digit_value(digit_char(d), 16) == Some(d),
        digit_value(upper_digit_char(d), 16) == Some(d),
{
}

/// A nonempty run of hex digits worth at most 0xffff reads back as its value.
proof fn lemma_parse_plain_hex(s: Seq<char>, default: u16)
    requires
        s.len() > 0,
        all_digits(s, 16),
        digits_value(s, 16) <= 0xffff,
    ensures
        spec_parse_hex_id(s, default) == digits_value(s, 16),
{
    assert(digit_value(s[0], 16) is Some);
    assert(digit_value('+', 16) is None);
    assert(s[0] != '+');
    assert(digit_value('x', 16) is None);
    assert(digit_value('X', 16) is None);
    if s.len() >= 2 {
        assert(digit_value(s[1], 16) is Some);
        if occurs_at(s, seq!['0', 'x'], 0) {
            assert(s.subrange(0, 2)[1] == s[1]);
        }
        if occurs_at(s, seq!['0', 'X'], 0) {
            assert(s.subrange(0, 2)[1] == s[1]);
        }
    }
    assert(trim_start_matches(s, seq!['0', 'x']) == s);
    assert(trim_start_matches(s, seq!['0', 'X']) == s);
    assert(hex_id_digits(s) == s);
    lemma_digits_value_nonneg(s, 16);
}

/// The same run behind a `0x` prefix reads back as its value too.
proof fn lemma_parse_prefixed_hex(s: Seq<char>, default: u16)
    requires
        s.len() > 0,
        all_digits(s, 16),
        digits_value(s, 16) <= 0xffff,
    ensures
        spec_parse_hex_id(seq!['0', 'x'] + s, default) == digits_value(s, 16),
{
    let t = seq!['0', 'x'] + s;
    assert(t.subrange(0, 2) =~= seq!['0', 'x']);
    assert(t.subrange(2, t.len() as int) =~= s);
    assert(trim_start_matches(t, seq!['0', 'x']) == trim_start_matches(s, seq!['0', 'x']));
    lemma_parse_plain_hex(s, default);
}

/// Reading back an id written as four lowercase hex digits (`{:04x}`, as the
/// service command line and the log lines write it), with or without a `0x`
/// in front, gives the id itself, whatever the default.
pub proof fn lemma_hex4_roundtrip(v: u16, default: u16)
    ensures
        spec_parse_hex_id(hex4(v), default) == v,
        spec_parse_hex_id(seq!['0', 'x'] + hex4(v), default) == v,
{
    let n = v as int;
    let d0 = n / 4096;
    let d1 = (n / 256) % 16;
    let d2 = (n / 16) % 16;
    let d3 = n % 16;
    lemma_digit_chars(d0);
    lemma_digit_chars(d1);
    lemma_digit_chars(d2);
    lemma_digit_chars(d3);
    let s = hex4(v);
    assert(all_digits(s, 16));
    let s3 = s.drop_last();
    let s2 = s3.drop_last();
    let s1 = s2.drop_last();
    assert(s3 =~= seq![digit_char(d0), digit_char(d1), digit_char(d2)]);
    assert(s2 =~= seq![digit_char(d0), digit_char(d1)]);
    assert(s1 =~= seq![digit_char(d0)]);
    assert(s1.drop_last() =~= Seq::<char>::empty());
    assert(digits_value(s1.drop_last(), 16) == 0);
    assert(digits_value(s1, 16) == d0);
    assert(digits_value(s2, 16) == d0 * 16 + d1);
    assert(digits_value(s3, 16) == (d0 * 16 + d1) * 16 + d2);
    assert(digits_value(s, 16) == ((d0 * 16 + d1) * 16 + d2) * 16 + d3);
    assert(((d0 * 16 + d1) * 16 + d2) * 16 + d3 == n) by (nonlinear_arith)
        requires
            0 <= n < 65536,
            d0 == n / 4096,
            d1 == (n / 256) % 16,
            d2 == (n / 16) % 16,
            d3 == n % 16,
    ;
    lemma_parse_plain_hex(s, default);
    lemma_parse_prefixed_hex(s, default);
}

proof fn lemma_upper_hex_digits(n: nat)
    ensures
        upper_hex(n).len() > 0,
        all_digits(upper_hex(n), 16),
        digits_value(upper_hex(n), 16) == n,
    decreases n,
{
    let s = upper_hex(n);
    if n < 16 {
        lemma_digit_chars(n as int);
        assert(s.drop_last() =~= Seq::<char>::empty());
        assert(digits_value(s.drop_last(), 16) == 0);
        assert(digits_value(s, 16) == 16 * digits_value(s.drop_last(), 16) + digit_value(
            s.last(),
            16,
        )->0);
    } else {
        lemma_upper_hex_digits(n / 16);
        lemma_digit_chars((n % 16) as int);
        assert(s.drop_last() =~= upper_hex(n / 16));
        assert(s.last() == upper_digit_char((n % 16) as int));
        assert(digits_value(s, 16) == 16 * digits_value(s.drop_last(), 16) + digit_value(
            s.last(),
            16,
        )->0);
        assert(16 * (n / 16) + n % 16 == n);
        assert forall|i: int| 0 <= i < s.len() implies #[trigger] digit_value(s[i], 16) is Some by {
            if i < s.len() - 1 {
                assert(s[i] == upper_hex(n / 16)[i]);
            }
        }
    }
}

/// Reading back an id written as `0x` and uppercase hex digits without
/// padding (`0x{:X}`) gives the id itself, whatever the default.
pub proof fn lemma_upper_hex_roundtrip(v: u16, default: u16)
    ensures
        spec_parse_hex_id(seq!['0', 'x'] + upper_hex(v as nat), default) == v,
{
    lemma_upper_hex_digits(v as nat);
    lemma_parse_prefixed_hex(upper_hex(v as nat), default);
}

} // verus!
