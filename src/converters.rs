//! Pure conversions from raw modem codes to physical units and labels.
use vstd::prelude::*;
use vstd::string::StringExecFns;
use crate::text::{chars_of, split_on, split_spans};
use std::num::ParseIntError;

verus! {

/// The LTE band label of a downlink channel number (EARFCN).
pub open spec fn lte_band(earfcn: int) -> Seq<char> {
    if 0 <= earfcn <= 599 { "B1"@ }
    else if 600 <= earfcn <= 1199 { "B2"@ }
    else if 1200 <= earfcn <= 1949 { "B3"@ }
    else if 1950 <= earfcn <= 2399 { "B4"@ }
    else if 2400 <= earfcn <= 2649 { "B5"@ }
    else if 2750 <= earfcn <= 3449 { "B7"@ }
    else if 3450 <= earfcn <= 3799 { "B8"@ }
    else if 3800 <= earfcn <= 4149 { "B9"@ }
    else if 4150 <= earfcn <= 4749 { "B10"@ }
    else if 4750 <= earfcn <= 4949 { "B11"@ }
    else if 5010 <= earfcn <= 5179 { "B12"@ }
    else if 5180 <= earfcn <= 5279 { "B13"@ }
    else if 5280 <= earfcn <= 5379 { "B14"@ }
    else if 5730 <= earfcn <= 5849 { "B17"@ }
    else if 5850 <= earfcn <= 5999 { "B18"@ }
    else if 6000 <= earfcn <= 6149 { "B19"@ }
    else if 6150 <= earfcn <= 6449 { "B20"@ }
    else if 6450 <= earfcn <= 6599 { "B21"@ }
    else if 6600 <= earfcn <= 7399 { "B22"@ }
    else if 7500 <= earfcn <= 7699 { "B23"@ }
    else if 7700 <= earfcn <= 8039 { "B24"@ }
    else if 8040 <= earfcn <= 8689 { "B25"@ }
    else if 8690 <= earfcn <= 9039 { "B26"@ }
    else if 9210 <= earfcn <= 9659 { "B28"@ }
    else if 9660 <= earfcn <= 9769 { "B29"@ }
    else if 9770 <= earfcn <= 9869 { "B30"@ }
    else if 9870 <= earfcn <= 9919 { "B31"@ }
    else if 9920 <= earfcn <= 10359 { "B32"@ }
    else if 36000 <= earfcn <= 36199 { "B33"@ }
    else if 36200 <= earfcn <= 36349 { "B34"@ }
    else if 36350 <= earfcn <= 36949 { "B35"@ }
    else if 36950 <= earfcn <= 37549 { "B36"@ }
    else if 37550 <= earfcn <= 37749 { "B37"@ }
    else if 37750 <= earfcn <= 38249 { "B38"@ }
    else if 38250 <= earfcn <= 38649 { "B39"@ }
    else if 38650 <= earfcn <= 39649 { "B40"@ }
    else { "Unknown"@ }
}

/// Looks up the LTE band that a downlink channel number belongs to.
pub fn get_band_lte(earfcn: i32) -> (r: &'static str)
    ensures
        r@ == lte_band(earfcn as int),
{
    if 0 <= earfcn && earfcn <= 599 { "B1" }
    else if 600 <= earfcn && earfcn <= 1199 { "B2" }
    else if 1200 <= earfcn && earfcn <= 1949 { "B3" }
    else if 1950 <= earfcn && earfcn <= 2399 { "B4" }
    else if 2400 <= earfcn && earfcn <= 2649 { "B5" }
    else if 2750 <= earfcn && earfcn <= 3449 { "B7" }
    else if 3450 <= earfcn && earfcn <= 3799 { "B8" }
    else if 3800 <= earfcn && earfcn <= 4149 { "B9" }
    else if 4150 <= earfcn && earfcn <= 4749 { "B10" }
    else if 4750 <= earfcn && earfcn <= 4949 { "B11" }
    else if 5010 <= earfcn && earfcn <= 5179 { "B12" }
    else if 5180 <= earfcn && earfcn <= 5279 { "B13" }
    else if 5280 <= earfcn && earfcn <= 5379 { "B14" }
    else if 5730 <= earfcn && earfcn <= 5849 { "B17" }
    else if 5850 <= earfcn && earfcn <= 5999 { "B18" }
    else if 6000 <= earfcn && earfcn <= 6149 { "B19" }
    else if 6150 <= earfcn && earfcn <= 6449 { "B20" }
    else if 6450 <= earfcn && earfcn <= 6599 { "B21" }
    else if 6600 <= earfcn && earfcn <= 7399 { "B22" }
    else if 7500 <= earfcn && earfcn <= 7699 { "B23" }
    else if 7700 <= earfcn && earfcn <= 8039 { "B24" }
    else if 8040 <= earfcn && earfcn <= 8689 { "B25" }
    else if 8690 <= earfcn && earfcn <= 9039 { "B26" }
    else if 9210 <= earfcn && earfcn <= 9659 { "B28" }
    else if 9660 <= earfcn && earfcn <= 9769 { "B29" }
    else if 9770 <= earfcn && earfcn <= 9869 { "B30" }
    else if 9870 <= earfcn && earfcn <= 9919 { "B31" }
    else if 9920 <= earfcn && earfcn <= 10359 { "B32" }
    else if 36000 <= earfcn && earfcn <= 36199 { "B33" }
    else if 36200 <= earfcn && earfcn <= 36349 { "B34" }
    else if 36350 <= earfcn && earfcn <= 36949 { "B35" }
    else if 36950 <= earfcn && earfcn <= 37549 { "B36" }
    else if 37550 <= earfcn && earfcn <= 37749 { "B37" }
    else if 37750 <= earfcn && earfcn <= 38249 { "B38" }
    else if 38250 <= earfcn && earfcn <= 38649 { "B39" }
    else if 38650 <= earfcn && earfcn <= 39649 { "B40" }
    else { "Unknown" }
}

/// The channel width, in MHz, that a bandwidth code stands for.
pub open spec fn bw_label(code: Seq<char>) -> Seq<char> {
    if code.len() != 1 {
        "Unknown"@
    } else if code[0] == '0' {
        "1.4"@
    } else if code[0] == '1' {
        "3"@
    } else if code[0] == '2' {
        "5"@
    } else if code[0] == '3' {
        "10"@
    } else if code[0] == '4' {
        "15"@
    } else if code[0] == '5' {
        "20"@
    } else {
        "Unknown"@
    }
}

/// The pieces joined, with `sep` between each two.
pub open spec fn join(pieces: Seq<Seq<char>>, sep: Seq<char>) -> Seq<char>
    decreases pieces.len(),
{
    if pieces.len() == 0 {
        Seq::empty()
    } else if pieces.len() == 1 {
        pieces[0]
    } else {
        join(pieces.drop_last(), sep) + sep + pieces.last()
    }
}

/// A comma-separated list of bandwidth codes as MHz labels separated by ", ".
pub open spec fn bandwidth_list(codes: Seq<char>) -> Seq<char> {
    join(split_on(codes, ',').map_values(|c: Seq<char>| bw_label(c)), ", "@)
}

/// The label of the bandwidth code `t[from..to]`.
pub fn bandwidth_label(t: &Vec<char>, from: usize, to: usize) -> (r: &'static str)
    requires
        from <= to <= t@.len(),
    ensures
        r@ == bw_label(t@.subrange(from as int, to as int)),
{
    let ghost code = t@.subrange(from as int, to as int);
    if to - from != 1 {
        return "Unknown";
    }
    let c = t[from];
    assert(code[0] == c);
    if c == '0' {
        "1.4"
    } else if c == '1' {
        "3"
    } else if c == '2' {
        "5"
    } else if c == '3' {
        "10"
    } else if c == '4' {
        "15"
    } else if c == '5' {
        "20"
    } else {
        "Unknown"
    }
}

/// Renders a comma-separated list of bandwidth codes as MHz labels, e.g. "5,3" as "20, 10".
pub fn parse_bandwidth(bandwidth: &str) -> (r: String)
    ensures
        r@ == bandwidth_list(bandwidth@),
{
    let t = chars_of(bandwidth);
    let spans = split_spans(&t, 0, t.len(), ',');
    let ghost pieces = split_on(t@.subrange(0, t@.len() as int), ',');
    let ghost labels = pieces.map_values(|c: Seq<char>| bw_label(c));
    assert(t@.subrange(0, t@.len() as int) =~= bandwidth@);
    let mut out = String::new();
    let mut k: usize = 0;
    while k < spans.len()
        invariant
            spans@.len() == pieces.len() == labels.len(),
            k <= spans@.len(),
            forall|j: int|
                0 <= j < spans@.len() ==> {
                    &&& (#[trigger] spans@[j]).0 <= spans@[j].1 <= t@.len()
                    &&& t@.subrange(spans@[j].0 as int, spans@[j].1 as int) == pieces[j]
                },
            forall|j: int| 0 <= j < labels.len() ==> #[trigger] labels[j] == bw_label(pieces[j]),
            out@ == join(labels.take(k as int), ", "@),
        decreases spans@.len() - k,
    {
        let (a, b) = spans[k];
        let label = bandwidth_label(&t, a, b);
        assert(labels.take(k + 1).drop_last() =~= labels.take(k as int));
        if k > 0 {
            out.append(", ");
        }
        out.append(label);
        proof {
            if k == 0 {
                assert(out@ =~= join(labels.take(1), ", "@));
            }
        }
        k = k + 1;
    }
    assert(labels.take(k as int) =~= labels);
    out
}

/// The number of LTE resource blocks that a bandwidth code stands for; 0 for an unknown code.
pub open spec fn resource_blocks(code: int) -> int {
    if code == 0 {
        6
    } else if code == 1 {
        15
    } else if code == 2 {
        25
    } else if code == 3 {
        50
    } else if code == 4 {
        75
    } else if code == 5 {
        100
    } else {
        0
    }
}

/// The integer part of 10·log10(12·np), for each resource-block count in use.
/// For each of them the fractional part lies strictly between 0 and 1.
pub open spec fn db_floor(np: int) -> int {
    if np == 6 {
        18
    } else if np == 15 {
        22
    } else if np == 25 {
        24
    } else if np == 50 {
        27
    } else if np == 75 {
        29
    } else {
        30
    }
}

/// RSSI reconstructed from RSRP: RSRP + 10·log10(12·np), truncated toward zero and
/// held within i32, or -113 when the bandwidth code gives no resource blocks.
pub open spec fn rssi_of(rsrp: int, code: int) -> int {
    let np = resource_blocks(code);
    if np == 0 {
        -113
    } else {
        let v = rsrp + db_floor(np);
        let truncated = if v >= 0 {
            v
        } else {
            v + 1
        };
        if truncated > i32::MAX {
            i32::MAX as int
        } else {
            truncated
        }
    }
}

/// The resource-block count of a bandwidth code.
pub fn bandwidth_resource_blocks(code: i32) -> (np: i32)
    ensures
        np == resource_blocks(code as int),
{
    match code {
        0 => 6,
        1 => 15,
        2 => 25,
        3 => 50,
        4 => 75,
        5 => 100,
        _ => 0,
    }
}

/// Reconstructs RSSI from RSRP and the bandwidth code of the channel.
pub fn convert_rsrp_to_rssi(rsrp: i32, bandwidth: i32) -> (r: Option<i32>)
    ensures
        r == Some(rssi_of(rsrp as int, bandwidth as int) as i32),
        rssi_of(rsrp as int, bandwidth as int) == r->0,
{
    let np = bandwidth_resource_blocks(bandwidth);
    if np > 0 {
        let fl: i64 = if np == 6 {
            18
        } else if np == 15 {
            22
        } else if np == 25 {
            24
        } else if np == 50 {
            27
        } else if np == 75 {
            29
        } else {
            30
        };
        let v: i64 = rsrp as i64 + fl;
        let truncated: i64 = if v >= 0 {
            v
        } else {
            v + 1
        };
        if truncated > i32::MAX as i64 {
            Some(i32::MAX)
        } else {
            Some(truncated as i32)
        }
    } else {
        Some(-113)
    }
}

/// Propagation distance in meters for a timing advance: ta × 78.125 rounded to the
/// nearest integer, halves away from zero.
pub open spec fn ta_distance(ta: int) -> int {
    let x = ta * 625;
    if x >= 0 {
        (x + 4) / 8
    } else {
        -((-x + 4) / 8)
    }
}

/// The distance to the cell, in meters, that a timing advance stands for.
pub fn distance_from_timing_advance(ta: i32) -> (d: i64)
    ensures
        d == ta_distance(ta as int),
{
    let x: i64 = ta as i64 * 625;
    if x >= 0 {
        (x + 4) / 8
    } else {
        -((-x + 4) / 8)
    }
}

/// Signal quality in percent: q·100/31 for a code q in 0..=31, else 0.
pub open spec fn quality_percent(q: int) -> int {
    if 0 <= q <= 31 {
        q * 100 / 31
    } else {
        0
    }
}

/// Quality codes 0 to 31 give q·100/31, which lies within 0..=96 for codes up to 30
/// (code 31 gives 100); any other code gives 0.
pub proof fn lemma_quality_percent(q: int)
    ensures
        0 <= q <= 31 ==> quality_percent(q) == q * 100 / 31,
        0 <= q <= 30 ==> 0 <= quality_percent(q) <= 96,
        q < 0 || q > 31 ==> quality_percent(q) == 0,
{
    if 0 <= q <= 30 {
        assert(0 <= q * 100 / 31 <= 96) by (nonlinear_arith)
            requires
                0 <= q <= 30,
        ;
    }
}

/// The signal quality percentage of a quality code.
pub fn csq_percentage(csq: i32) -> (p: i32)
    ensures
        p == quality_percent(csq as int),
{
    if 0 <= csq && csq <= 31 {
        csq * 100 / 31
    } else {
        0
    }
}

/// Half of `x`, rounded toward zero as integer division does.
pub open spec fn half(x: int) -> int {
    if x >= 0 {
        x / 2
    } else {
        -((-x) / 2)
    }
}

/// RSRP in dBm from its raw report.
pub fn rsrp_dbm(raw: i32) -> (r: i32)
    requires
        raw >= i32::MIN + 141,
    ensures
        r == raw - 141,
{
    raw - 141
}

/// RSRQ in dB from its raw report: raw / 2 - 20.
pub fn rsrq_db(raw: i32) -> (r: i32)
    ensures
        r == half(raw as int) - 20,
{
    let x = raw as i64;
    let h: i64 = if x >= 0 {
        x / 2
    } else {
        -((-x) / 2)
    };
    (h - 20) as i32
}

/// SINR in dB from its raw report: raw / 2.
pub fn sinr_db(raw: i32) -> (r: i32)
    ensures
        r == half(raw as int),
{
    let x = raw as i64;
    let h: i64 = if x >= 0 {
        x / 2
    } else {
        -((-x) / 2)
    };
    h as i32
}

#[verifier::external_type_specification]
#[verifier::external_body]
pub struct ExParseIntError(ParseIntError);

pub open spec fn is_hex_digit(c: char) -> bool {
    ('0' <= c && c <= '9') || ('a' <= c && c <= 'f') || ('A' <= c && c <= 'F')
}

pub open spec fn hex_digit_value(c: char) -> int {
    if '0' <= c && c <= '9' {
        (c as int) - ('0' as int)
    } else if 'a' <= c && c <= 'f' {
        (c as int) - ('a' as int) + 10
    } else {
        (c as int) - ('A' as int) + 10
    }
}

/// The number that a string of hexadecimal digits denotes.
pub open spec fn hex_value(s: Seq<char>) -> int
    decreases s.len(),
{
    if s.len() == 0 {
        0
    } else {
        16 * hex_value(s.drop_last()) + hex_digit_value(s.last())
    }
}

/// What reading `s` as a base-16 i32 gives: an optional sign, then one or more
/// hexadecimal digits of either case, with a value within i32; `None` otherwise.
pub open spec fn hex_i32(s: Seq<char>) -> Option<int> {
    let signed = s.len() > 0 && (s[0] == '-' || s[0] == '+');
    let digits = if signed {
        s.drop_first()
    } else {
        s
    };
    let magnitude = hex_value(digits);
    let v = if s.len() > 0 && s[0] == '-' {
        -magnitude
    } else {
        magnitude
    };
    if digits.len() > 0 && (forall|i: int| 0 <= i < digits.len() ==> is_hex_digit(
        #[trigger] digits[i],
    )) && i32::MIN <= v <= i32::MAX {
        Some(v)
    } else {
        None
    }
}

/// Relies on i32::from_str_radix with radix 16: an optional `+` or `-`, then only
/// digits 0-9, a-f, A-F, at least one, with a value that fits in i32, is read;
/// any other text is an error.
#[verifier::external_body]
fn i32_from_hex(s: &str) -> (r: Result<i32, ParseIntError>)
    ensures
        r is Ok <==> hex_i32(s@) is Some,
        r is Ok ==> r->Ok_0 == hex_i32(s@)->0,
{
    i32::from_str_radix(s, 16)
}

/// `s` without every leading "0x".
pub open spec fn strip_hex_prefix(s: Seq<char>) -> Seq<char>
    decreases s.len(),
{
    if s.len() >= 2 && s[0] == '0' && s[1] == 'x' {
        strip_hex_prefix(s.subrange(2, s.len() as int))
    } else {
        s
    }
}

/// Reads a hexadecimal number written with or without leading "0x".
pub fn hex_to_decimal(hex: &str) -> (r: Result<i32, ParseIntError>)
    ensures
        r is Ok <==> hex_i32(strip_hex_prefix(hex@)) is Some,
        r is Ok ==> r->Ok_0 == hex_i32(strip_hex_prefix(hex@))->0,
{
    let n = hex.unicode_len();
    let mut i: usize = 0;
    assert(hex@.subrange(0, n as int) =~= hex@);
    while n >= 2 && i <= n - 2 && hex.get_char(i) == '0' && hex.get_char(i + 1) == 'x'
        invariant
            n == hex@.len(),
            i <= n,
            strip_hex_prefix(hex@) == strip_hex_prefix(hex@.subrange(i as int, n as int)),
        decreases n - i,
    {
        let ghost rest = hex@.subrange(i as int, n as int);
        assert(rest.subrange(2, rest.len() as int) =~= hex@.subrange(i + 2, n as int));
        i = i + 2;
    }
    let rest = hex.substring_char(i, n);
    i32_from_hex(rest)
}

/// A hexadecimal field as read by `hex_to_decimal`, or 0 where that fails.
pub open spec fn hex_or_zero(s: Seq<char>) -> int {
    match hex_i32(strip_hex_prefix(s)) {
        Some(v) => v,
        None => 0,
    }
}

} // verus!
