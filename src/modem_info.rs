//! Telemetry extracted from the concatenated replies of one polling cycle, and
//! the derivations applied to it.
use vstd::prelude::*;
use crate::at_grammar::{
    AtRegexps, cgcontrdp_pattern, cops_pattern, csq_pattern, model_code_pattern, number_pattern,
    quoted_pattern, xact_pattern, xlec_pattern, xmci_pattern,
};
use crate::converters::{
    bw_label, convert_rsrp_to_rssi, csq_percentage, distance_from_timing_advance, get_band_lte,
    half, hex_or_zero, hex_to_decimal, lte_band, quality_percent, rsrp_dbm, rsrq_db, rssi_of,
    sinr_db, ta_distance, bandwidth_label,
};
use crate::grammar::{
    Pattern, Tok, cap, first_match, found, match_at, match_end, matches_from, next_search, span,
    span_bounds,
};
use crate::text::{
    chars_of, dec_value, decimal_within, lemma_split_nonempty, parse_decimal,
    split_on, split_spans,
};
use vstd::string::StringExecFns;

verus! {

/// The radio access technology that the network registration reports.
#[derive(Clone, Copy, Debug, PartialEq, Eq, Structural)]
pub enum NetworkMode {
    Edge,
    Umts,
    Lte,
    Hsdpa,
    Hsupa,
    Hspa,
    Unknown,
}

impl NetworkMode {
    pub open spec fn spec_label(self) -> Seq<char> {
        match self {
            NetworkMode::Edge => "EDGE"@,
            NetworkMode::Umts => "UMTS"@,
            NetworkMode::Lte => "LTE"@,
            NetworkMode::Hsdpa => "HSDPA"@,
            NetworkMode::Hsupa => "HSUPA"@,
            NetworkMode::Hspa => "HSPA"@,
            NetworkMode::Unknown => "Unknown"@,
        }
    }

    /// The name shown to the user.
    pub fn label(&self) -> (r: &'static str)
        ensures
            r@ == self.spec_label(),
    {
        match self {
            NetworkMode::Edge => "EDGE",
            NetworkMode::Umts => "UMTS",
            NetworkMode::Lte => "LTE",
            NetworkMode::Hsdpa => "HSDPA",
            NetworkMode::Hsupa => "HSUPA",
            NetworkMode::Hspa => "HSPA",
            NetworkMode::Unknown => "Unknown",
        }
    }
}

/// The technology of a registration code: 0 EDGE, 2 UMTS, 3 and 7 LTE, 4 HSDPA,
/// 5 HSUPA, 6 HSPA, anything else unknown.
pub open spec fn mode_of(code: Seq<char>) -> NetworkMode {
    if code.len() != 1 {
        NetworkMode::Unknown
    } else if code[0] == '0' {
        NetworkMode::Edge
    } else if code[0] == '2' {
        NetworkMode::Umts
    } else if code[0] == '3' || code[0] == '7' {
        NetworkMode::Lte
    } else if code[0] == '4' {
        NetworkMode::Hsdpa
    } else if code[0] == '5' {
        NetworkMode::Hsupa
    } else if code[0] == '6' {
        NetworkMode::Hspa
    } else {
        NetworkMode::Unknown
    }
}

/// A decimal field read as i32, or 0 where it does not fit.
pub open spec fn int_or_zero(s: Seq<char>) -> int {
    if decimal_within(s, i32::MAX as int) {
        dec_value(s)
    } else {
        0
    }
}

/// A decimal field with an optional leading minus read as i32, or 0 where it does not fit.
pub open spec fn signed_or_zero(s: Seq<char>) -> int {
    if s.len() > 0 && s[0] == '-' {
        if decimal_within(s.drop_first(), 0x8000_0000) {
            -dec_value(s.drop_first())
        } else {
            0
        }
    } else {
        int_or_zero(s)
    }
}

/// Token `k` of the first match of `toks`, or `dflt` where nothing matches.
pub open spec fn first_cap(t: Seq<char>, toks: Seq<Tok>, k: int, dflt: Seq<char>) -> Seq<char> {
    match first_match(t, toks) {
        Some(i) => cap(t, i, toks, k),
        None => dflt,
    }
}

/// Tokens `k1` to `k2` of the first match of `toks`, or `dflt` where nothing matches.
pub open spec fn first_span(t: Seq<char>, toks: Seq<Tok>, k1: int, k2: int, dflt: Seq<char>) -> Seq<char> {
    match first_match(t, toks) {
        Some(i) => span(t, i, toks, k1, k2),
        None => dflt,
    }
}

/// The short model code: the second quoted text of the model record, if present.
pub open spec fn model_code_in(t: Seq<char>) -> Seq<char> {
    match first_match(t, quoted_pattern("+FMM: \""@)) {
        Some(i) => {
            let e = match_end(t, i, quoted_pattern("+FMM: \""@));
            if match_at(t, e, model_code_pattern()) is Some {
                cap(t, e, model_code_pattern(), 1)
            } else {
                Seq::empty()
            }
        },
        None => Seq::empty(),
    }
}

pub open spec fn mode_in(t: Seq<char>) -> NetworkMode {
    match first_match(t, cops_pattern()) {
        Some(i) => mode_of(cap(t, i, cops_pattern(), 7)),
        None => NetworkMode::Unknown,
    }
}

pub open spec fn csq_in(t: Seq<char>) -> int {
    match first_match(t, csq_pattern()) {
        Some(i) => int_or_zero(cap(t, i, csq_pattern(), 1)),
        None => 0,
    }
}

/// A field of the serving-cell record read through `f`, or 0 where there is none.
pub open spec fn serving_field(t: Seq<char>, f: spec_fn(Seq<char>, Seq<Tok>, int) -> int) -> int {
    match first_match(t, xmci_pattern('4', '4')) {
        Some(i) => f(t, xmci_pattern('4', '4'), i),
        None => 0,
    }
}

/// RSRP in dBm of the cell record matched at `i`.
pub open spec fn cell_rsrp(t: Seq<char>, toks: Seq<Tok>, i: int) -> int {
    int_or_zero(cap(t, i, toks, 19)) - 141
}

/// RSRQ in dB of the cell record matched at `i`.
pub open spec fn cell_rsrq(t: Seq<char>, toks: Seq<Tok>, i: int) -> int {
    half(int_or_zero(cap(t, i, toks, 21))) - 20
}

/// SINR in dB of the cell record matched at `i`.
pub open spec fn cell_sinr(t: Seq<char>, toks: Seq<Tok>, i: int) -> int {
    half(signed_or_zero(span(t, i, toks, 23, 24)))
}

/// Distance in meters to the cell of the record matched at `i`.
pub open spec fn cell_distance(t: Seq<char>, toks: Seq<Tok>, i: int) -> int {
    ta_distance(hex_or_zero(cap(t, i, toks, 26)))
}

/// A hexadecimal field (token `k`) of the cell record matched at `i`.
pub open spec fn cell_hex(t: Seq<char>, toks: Seq<Tok>, i: int, k: int) -> int {
    hex_or_zero(cap(t, i, toks, k))
}

/// The start of every cell record (serving or neighbour), in order.
pub open spec fn carriers_in(t: Seq<char>) -> Seq<int> {
    matches_from(t, xmci_pattern('4', '5'), 0)
}

/// The downlink channel of every cell record, in order.
pub open spec fn carrier_channels(t: Seq<char>) -> Seq<int> {
    carriers_in(t).map_values(|i: int| cell_hex(t, xmci_pattern('4', '5'), i, 13))
}

/// The number of aggregated cells a count field gives; 1 where it is not a usize.
pub open spec fn cell_count(s: Seq<char>) -> int {
    if decimal_within(s, usize::MAX as int) {
        dec_value(s)
    } else {
        1
    }
}

/// The bandwidth codes of the aggregation record, without their closing comma.
pub open spec fn xlec_codes(t: Seq<char>, i: int) -> Seq<char> {
    let r = cap(t, i, xlec_pattern(), 5);
    if r.len() > 0 && r.last() == ',' {
        r.drop_last()
    } else {
        r
    }
}

/// `"<band>@<bandwidth>MHz "` for aggregated cell `i`: the band is the one the record
/// lists where it lists one per cell, else the one of the cell's channel, else "--".
pub open spec fn ca_cell(
    i: int,
    cells: int,
    codes: Seq<Seq<char>>,
    bands: Seq<Seq<char>>,
    channels: Seq<int>,
) -> Seq<char> {
    let band = if bands.len() == cells {
        "B"@ + bands[i]
    } else if i < channels.len() {
        lte_band(channels[i])
    } else {
        "--"@
    };
    let code = if i < codes.len() {
        codes[i]
    } else {
        Seq::empty()
    };
    band + "@"@ + bw_label(code) + "MHz "@
}

/// The pieces of the first `n` aggregated cells, one after the other.
pub open spec fn ca_band_string(
    n: int,
    cells: int,
    codes: Seq<Seq<char>>,
    bands: Seq<Seq<char>>,
    channels: Seq<int>,
) -> Seq<char>
    decreases n,
{
    if n <= 0 {
        Seq::empty()
    } else {
        ca_band_string(n - 1, cells, codes, bands, channels) + ca_cell(
            n - 1,
            cells,
            codes,
            bands,
            channels,
        )
    }
}

/// The band text: the aggregation record's cells where it is present, else the band
/// of the first cell's channel, else empty.
pub open spec fn band_in(t: Seq<char>) -> Seq<char> {
    match first_match(t, xlec_pattern()) {
        Some(i) => {
            let cells = cell_count(cap(t, i, xlec_pattern(), 3));
            ca_band_string(
                cells,
                cells,
                split_on(xlec_codes(t, i), ','),
                split_on(cap(t, i, xlec_pattern(), 7), ','),
                carrier_channels(t),
            )
        },
        None => if carriers_in(t).len() > 0 {
            lte_band(carrier_channels(t)[0]) + "@UnknownMHz"@
        } else {
            Seq::empty()
        },
    }
}

/// RSSI reconstructed from the serving RSRP and the first aggregated bandwidth code;
/// 0 where there is no aggregation record.
pub open spec fn rssi_in(t: Seq<char>) -> int {
    match first_match(t, xlec_pattern()) {
        Some(i) => rssi_of(
            serving_field(t, |t: Seq<char>, k: Seq<Tok>, i: int| cell_rsrp(t, k, i)),
            int_or_zero(split_on(xlec_codes(t, i), ',')[0]),
        ),
        None => 0,
    }
}

/// The UMTS bands among configured band numbers: those below 100.
pub open spec fn umts_bands_of(pieces: Seq<Seq<char>>) -> Seq<int>
    decreases pieces.len(),
{
    if pieces.len() == 0 {
        Seq::empty()
    } else {
        let init = umts_bands_of(pieces.drop_last());
        let p = pieces.last();
        if decimal_within(p, i32::MAX as int) && dec_value(p) < 100 {
            init.push(dec_value(p))
        } else {
            init
        }
    }
}

/// The LTE bands among configured band numbers: those from 100 on, less 100.
pub open spec fn lte_bands_of(pieces: Seq<Seq<char>>) -> Seq<int>
    decreases pieces.len(),
{
    if pieces.len() == 0 {
        Seq::empty()
    } else {
        let init = lte_bands_of(pieces.drop_last());
        let p = pieces.last();
        if decimal_within(p, i32::MAX as int) && dec_value(p) >= 100 {
            init.push(dec_value(p) - 100)
        } else {
            init
        }
    }
}

pub open spec fn xact_flag(t: Seq<char>, k: int, c: char) -> bool {
    match first_match(t, xact_pattern()) {
        Some(i) => cap(t, i, xact_pattern(), k) == seq![c],
        None => false,
    }
}

pub open spec fn xact_bands(t: Seq<char>, umts: bool) -> Seq<int> {
    match first_match(t, xact_pattern()) {
        Some(i) => {
            let pieces = split_on(cap(t, i, xact_pattern(), 7), ',');
            if umts {
                umts_bands_of(pieces)
            } else {
                lte_bands_of(pieces)
            }
        },
        None => Seq::empty(),
    }
}

pub open spec fn ints(v: Seq<i32>) -> Seq<int> {
    v.map_values(|x: i32| x as int)
}

pub open spec fn naturals(v: Seq<usize>) -> Seq<int> {
    v.map_values(|x: usize| x as int)
}

/// What the modem reported in one polling cycle, with derived metrics.
#[derive(Clone, Debug)]
pub struct ModemInfo {
    pub manufacturer: String,
    pub model: String,
    /// The canonical short model code, used to look up the modem's capabilities.
    pub model_code: String,
    pub fw_version: String,
    pub serial_number: String,
    pub imei: String,
    pub imsi: String,
    pub iccid: String,
    pub operator: String,
    pub mode: NetworkMode,
    pub ip: String,
    pub mask: String,
    pub gw: String,
    pub dns_prim: String,
    pub dns_sec: String,
    pub band: String,
    /// Distance to the serving cell in meters.
    pub distance: i64,
    pub dluarfnc: i32,
    pub csq: i32,
    pub csq_perc: i32,
    pub rssi: i32,
    pub sinr: i32,
    pub rsrp: i32,
    pub rsrq: i32,
    /// Per carrier, in the order of the cell records: cell id, physical cell id,
    /// downlink channel, RSRP, RSRQ and SINR.
    pub ci_x: Vec<i32>,
    pub pci_x: Vec<i32>,
    pub earfcn_x: Vec<i32>,
    pub rsrp_x: Vec<i32>,
    pub rsrq_x: Vec<i32>,
    pub sinr_x: Vec<i32>,
    /// The configured-bands record's UMTS flag reads 4.
    pub umts_enabled: bool,
    /// The configured-bands record's LTE flag reads 2.
    pub lte_enabled: bool,
    /// The configured band numbers below 100.
    pub enabled_umts_bands: Vec<usize>,
    /// The configured band numbers from 100 on, less 100.
    pub enabled_lte_bands: Vec<usize>,
}

impl ModemInfo {
    /// Every per-carrier vector has one entry per carrier.
    pub open spec fn wf(&self) -> bool {
        &&& self.pci_x@.len() == self.ci_x@.len()
        &&& self.earfcn_x@.len() == self.ci_x@.len()
        &&& self.rsrp_x@.len() == self.ci_x@.len()
        &&& self.rsrq_x@.len() == self.ci_x@.len()
        &&& self.sinr_x@.len() == self.ci_x@.len()
    }

    pub open spec fn identity_from(&self, t: Seq<char>) -> bool {
        &&& self.manufacturer@ == first_cap(t, quoted_pattern("+CGMI: \""@), 1, Seq::empty())
        &&& self.model@ == first_cap(t, quoted_pattern("+FMM: \""@), 1, Seq::empty())
        &&& self.model_code@ == model_code_in(t)
        &&& self.fw_version@ == first_cap(t, quoted_pattern("+GTPKGVER: \""@), 1, Seq::empty())
        &&& self.serial_number@ == first_cap(t, quoted_pattern("+CFSN: \""@), 1, Seq::empty())
        &&& self.imei@ == first_cap(t, quoted_pattern("+CGSN: \""@), 1, Seq::empty())
    }

    pub open spec fn network_from(&self, t: Seq<char>) -> bool {
        &&& self.imsi@ == first_cap(t, number_pattern("+CIMI: "@), 1, Seq::empty())
        &&& self.iccid@ == first_cap(t, number_pattern("+CCID: "@), 1, Seq::empty())
        &&& self.operator@ == first_cap(t, cops_pattern(), 5, Seq::empty())
        &&& self.mode == mode_in(t)
        &&& self.ip@ == first_span(t, cgcontrdp_pattern(), 7, 13, "---"@)
        &&& self.mask@ == first_span(t, cgcontrdp_pattern(), 15, 21, "---"@)
        &&& self.dns_prim@ == first_cap(t, cgcontrdp_pattern(), 23, "---"@)
        &&& self.dns_sec@ == first_cap(t, cgcontrdp_pattern(), 25, "---"@)
        &&& self.gw@ == first_cap(t, cgcontrdp_pattern(), 27, "---"@)
    }

    pub open spec fn signal_from(&self, t: Seq<char>) -> bool {
        &&& self.csq == csq_in(t)
        &&& self.csq_perc == quality_percent(csq_in(t))
        &&& self.rsrp == serving_field(t, |t: Seq<char>, k: Seq<Tok>, i: int| cell_rsrp(t, k, i))
        &&& self.rsrq == serving_field(t, |t: Seq<char>, k: Seq<Tok>, i: int| cell_rsrq(t, k, i))
        &&& self.sinr == serving_field(t, |t: Seq<char>, k: Seq<Tok>, i: int| cell_sinr(t, k, i))
        &&& self.distance == serving_field(t, |t: Seq<char>, k: Seq<Tok>, i: int| cell_distance(t, k, i))
        &&& self.dluarfnc == serving_field(t, |t: Seq<char>, k: Seq<Tok>, i: int| cell_hex(t, k, i, 13))
        &&& self.rssi == rssi_in(t)
        &&& self.band@ == band_in(t)
    }

    pub open spec fn carriers_from(&self, t: Seq<char>) -> bool {
        let ms = carriers_in(t);
        let x = xmci_pattern('4', '5');
        &&& ints(self.ci_x@) == ms.map_values(|i: int| cell_hex(t, x, i, 9))
        &&& ints(self.pci_x@) == ms.map_values(|i: int| cell_hex(t, x, i, 11))
        &&& ints(self.earfcn_x@) == carrier_channels(t)
        &&& ints(self.rsrp_x@) == ms.map_values(|i: int| cell_rsrp(t, x, i))
        &&& ints(self.rsrq_x@) == ms.map_values(|i: int| cell_rsrq(t, x, i))
        &&& ints(self.sinr_x@) == ms.map_values(|i: int| cell_sinr(t, x, i))
    }

    pub open spec fn bands_from(&self, t: Seq<char>) -> bool {
        &&& self.umts_enabled == xact_flag(t, 1, '4')
        &&& self.lte_enabled == xact_flag(t, 3, '2')
        &&& naturals(self.enabled_umts_bands@) == xact_bands(t, true)
        &&& naturals(self.enabled_lte_bands@) == xact_bands(t, false)
    }

    /// This is exactly the telemetry that the replies `t` carry.
    pub open spec fn describes(&self, t: Seq<char>) -> bool {
        &&& self.identity_from(t)
        &&& self.network_from(t)
        &&& self.signal_from(t)
        &&& self.carriers_from(t)
        &&& self.bands_from(t)
    }
}

/// The leftmost match of `p` in `t`.
fn first_of(p: &Pattern, t: &Vec<char>) -> (r: Option<(usize, Vec<usize>)>)
    ensures
        match r {
            None => first_match(t@, p@) is None,
            Some((i, ends)) => first_match(t@, p@) == Some(i as int) && found(
                t@,
                p@,
                i as int,
                ends@,
            ),
        },
{
    p.find_from(t, 0)
}

/// The characters `s[from..to]` as a new string.
fn text_at(s: &str, from: usize, to: usize) -> (r: String)
    requires
        from <= to <= s@.len(),
    ensures
        r@ == s@.subrange(from as int, to as int),
{
    s.substring_char(from, to).to_owned()
}

/// Tokens `k1` to `k2` of the first match of `p`, or `dflt`.
fn first_text(p: &Pattern, s: &str, t: &Vec<char>, k1: usize, k2: usize, dflt: &str) -> (r: String)
    requires
        t@ == s@,
        k1 <= k2 < p@.len(),
    ensures
        r@ == first_span(t@, p@, k1 as int, k2 as int, dflt@),
{
    match first_of(p, t) {
        None => dflt.to_owned(),
        Some((i, ends)) => {
            let (a, b) = span_bounds(p, t, i, &ends, k1, k2);
            text_at(s, a, b)
        },
    }
}

/// A decimal field as i32, or 0.
fn int_field(t: &Vec<char>, from: usize, to: usize) -> (r: i32)
    requires
        from <= to <= t@.len(),
    ensures
        r == int_or_zero(t@.subrange(from as int, to as int)),
        r >= 0,
{
    match parse_decimal(t, from, to, i32::MAX as u64) {
        Some(v) => v as i32,
        None => 0,
    }
}

/// A decimal field with an optional minus as i32, or 0.
fn signed_field(t: &Vec<char>, from: usize, to: usize) -> (r: i32)
    requires
        from <= to <= t@.len(),
    ensures
        r == signed_or_zero(t@.subrange(from as int, to as int)),
{
    if from < to && t[from] == '-' {
        assert(t@.subrange(from + 1, to as int) =~= t@.subrange(from as int, to as int).drop_first());
        match parse_decimal(t, from + 1, to, 0x8000_0000) {
            Some(v) => (-(v as i64)) as i32,
            None => 0,
        }
    } else {
        int_field(t, from, to)
    }
}

/// A hexadecimal field as i32, or 0.
fn hex_field(s: &str, from: usize, to: usize) -> (r: i32)
    requires
        from <= to <= s@.len(),
    ensures
        r == hex_or_zero(s@.subrange(from as int, to as int)),
{
    match hex_to_decimal(s.substring_char(from, to)) {
        Ok(v) => v,
        Err(_) => 0,
    }
}

/// The values read from one cell record.
struct CellReport {
    ci: i32,
    pci: i32,
    earfcn: i32,
    rsrp: i32,
    rsrq: i32,
    sinr: i32,
    distance: i64,
}

fn read_cell(p: &Pattern, s: &str, t: &Vec<char>, i: usize, ends: &Vec<usize>) -> (r: CellReport)
    requires
        t@ == s@,
        p@.len() == 30,
        found(t@, p@, i as int, ends@),
    ensures
        r.ci == cell_hex(t@, p@, i as int, 9),
        r.pci == cell_hex(t@, p@, i as int, 11),
        r.earfcn == cell_hex(t@, p@, i as int, 13),
        r.rsrp == cell_rsrp(t@, p@, i as int),
        r.rsrq == cell_rsrq(t@, p@, i as int),
        r.sinr == cell_sinr(t@, p@, i as int),
        r.distance == cell_distance(t@, p@, i as int),
{
    let (a, b) = span_bounds(p, t, i, ends, 9, 9);
    let ci = hex_field(s, a, b);
    let (a, b) = span_bounds(p, t, i, ends, 11, 11);
    let pci = hex_field(s, a, b);
    let (a, b) = span_bounds(p, t, i, ends, 13, 13);
    let earfcn = hex_field(s, a, b);
    let (a, b) = span_bounds(p, t, i, ends, 19, 19);
    let rsrp = rsrp_dbm(int_field(t, a, b));
    let (a, b) = span_bounds(p, t, i, ends, 21, 21);
    let rsrq = rsrq_db(int_field(t, a, b));
    let (a, b) = span_bounds(p, t, i, ends, 23, 24);
    let sinr = sinr_db(signed_field(t, a, b));
    let (a, b) = span_bounds(p, t, i, ends, 26, 26);
    let distance = distance_from_timing_advance(hex_field(s, a, b));
    CellReport { ci, pci, earfcn, rsrp, rsrq, sinr, distance }
}

/// The per-carrier vectors, one entry per cell record.
struct Carriers {
    ci: Vec<i32>,
    pci: Vec<i32>,
    earfcn: Vec<i32>,
    rsrp: Vec<i32>,
    rsrq: Vec<i32>,
    sinr: Vec<i32>,
}

fn read_carriers(p: &Pattern, s: &str, t: &Vec<char>) -> (r: Carriers)
    requires
        t@ == s@,
        p@ == xmci_pattern('4', '5'),
    ensures
        ({
            let ms = carriers_in(t@);
            let x = xmci_pattern('4', '5');
            &&& ints(r.ci@) == ms.map_values(|i: int| cell_hex(t@, x, i, 9))
            &&& ints(r.pci@) == ms.map_values(|i: int| cell_hex(t@, x, i, 11))
            &&& ints(r.earfcn@) == carrier_channels(t@)
            &&& ints(r.rsrp@) == ms.map_values(|i: int| cell_rsrp(t@, x, i))
            &&& ints(r.rsrq@) == ms.map_values(|i: int| cell_rsrq(t@, x, i))
            &&& ints(r.sinr@) == ms.map_values(|i: int| cell_sinr(t@, x, i))
        }),
{
    let mut r = Carriers {
        ci: Vec::new(),
        pci: Vec::new(),
        earfcn: Vec::new(),
        rsrp: Vec::new(),
        rsrq: Vec::new(),
        sinr: Vec::new(),
    };
    let ghost x = xmci_pattern('4', '5');
    let ghost mut starts: Seq<int> = Seq::empty();
    let mut pos: usize = 0;
    loop
        invariant_except_break
            matches_from(t@, x, 0) == starts + matches_from(t@, x, pos as int),
        invariant
            t@ == s@,
            p@ == x,
            x == xmci_pattern('4', '5'),
            pos <= t@.len(),
            r.ci@.len() == starts.len(),
            r.pci@.len() == starts.len(),
            r.earfcn@.len() == starts.len(),
            r.rsrp@.len() == starts.len(),
            r.rsrq@.len() == starts.len(),
            r.sinr@.len() == starts.len(),
            forall|j: int| 0 <= j < starts.len() ==> #[trigger] r.ci@[j] == cell_hex(t@, x, starts[j], 9),
            forall|j: int| 0 <= j < starts.len() ==> #[trigger] r.pci@[j] == cell_hex(t@, x, starts[j], 11),
            forall|j: int| 0 <= j < starts.len() ==> #[trigger] r.earfcn@[j] == cell_hex(t@, x, starts[j], 13),
            forall|j: int| 0 <= j < starts.len() ==> #[trigger] r.rsrp@[j] == cell_rsrp(t@, x, starts[j]),
            forall|j: int| 0 <= j < starts.len() ==> #[trigger] r.rsrq@[j] == cell_rsrq(t@, x, starts[j]),
            forall|j: int| 0 <= j < starts.len() ==> #[trigger] r.sinr@[j] == cell_sinr(t@, x, starts[j]),
        ensures
            matches_from(t@, x, 0) == starts,
            r.ci@.len() == starts.len(),
            r.pci@.len() == starts.len(),
            r.earfcn@.len() == starts.len(),
            r.rsrp@.len() == starts.len(),
            r.rsrq@.len() == starts.len(),
            r.sinr@.len() == starts.len(),
            forall|j: int| 0 <= j < starts.len() ==> #[trigger] r.ci@[j] == cell_hex(t@, x, starts[j], 9),
            forall|j: int| 0 <= j < starts.len() ==> #[trigger] r.pci@[j] == cell_hex(t@, x, starts[j], 11),
            forall|j: int| 0 <= j < starts.len() ==> #[trigger] r.earfcn@[j] == cell_hex(t@, x, starts[j], 13),
            forall|j: int| 0 <= j < starts.len() ==> #[trigger] r.rsrp@[j] == cell_rsrp(t@, x, starts[j]),
            forall|j: int| 0 <= j < starts.len() ==> #[trigger] r.rsrq@[j] == cell_rsrq(t@, x, starts[j]),
            forall|j: int| 0 <= j < starts.len() ==> #[trigger] r.sinr@[j] == cell_sinr(t@, x, starts[j]),
        decreases t@.len() + 1 - pos,
    {
        match p.find_from(t, pos) {
            None => {
                assert(starts + Seq::<int>::empty() =~= starts);
                break;
            },
            Some((i, ends)) => {
                let cell = read_cell(p, s, t, i, &ends);
                r.ci.push(cell.ci);
                r.pci.push(cell.pci);
                r.earfcn.push(cell.earfcn);
                r.rsrp.push(cell.rsrp);
                r.rsrq.push(cell.rsrq);
                r.sinr.push(cell.sinr);
                let e = ends[ends.len() - 1];
                assert(e == match_end(t@, i as int, x));
                if i == t.len() {
                    proof {
                        assert(matches_from(t@, x, next_search(t@, i as int, x)) == Seq::<int>::empty());
                        assert(starts.push(i as int) =~= starts + (
                        seq![i as int] + Seq::<int>::empty()));
                        starts = starts.push(i as int);
                    }
                    break;
                }
                let next = if i + 1 < e && e <= t.len() {
                    e
                } else {
                    i + 1
                };
                assert(next == next_search(t@, i as int, x));
                proof {
                    assert(starts.push(i as int) + matches_from(t@, x, next as int) =~= starts + (
                    seq![i as int] + matches_from(t@, x, next as int)));
                    starts = starts.push(i as int);
                }
                pos = next;
            },
        }
    }
    proof {
        let ms = carriers_in(t@);
        assert(ints(r.ci@) =~= ms.map_values(|i: int| cell_hex(t@, x, i, 9)));
        assert(ints(r.pci@) =~= ms.map_values(|i: int| cell_hex(t@, x, i, 11)));
        assert(ints(r.earfcn@) =~= carrier_channels(t@));
        assert(ints(r.rsrp@) =~= ms.map_values(|i: int| cell_rsrp(t@, x, i)));
        assert(ints(r.rsrq@) =~= ms.map_values(|i: int| cell_rsrq(t@, x, i)));
        assert(ints(r.sinr@) =~= ms.map_values(|i: int| cell_sinr(t@, x, i)));
    }
    r
}

/// The band of the first carrier's channel, where there is no aggregation record.
fn first_carrier_band(t: &Vec<char>, channels: &Vec<i32>) -> (r: String)
    requires
        ints(channels@) == carrier_channels(t@),
        first_match(t@, xlec_pattern()) is None,
    ensures
        r@ == band_in(t@),
{
    assert(carriers_in(t@).len() == carrier_channels(t@).len());
    if channels.len() > 0 {
        let mut band = String::new();
        band.append(get_band_lte(channels[0]));
        band.append("@UnknownMHz");
        assert(ints(channels@)[0] == channels@[0]);
        assert(band@ =~= lte_band(carrier_channels(t@)[0]) + "@UnknownMHz"@);
        band
    } else {
        assert(ints(channels@).len() == 0);
        String::new()
    }
}

/// The band text and the reconstructed RSSI.
fn read_aggregation(
    g: &AtRegexps,
    s: &str,
    t: &Vec<char>,
    serving_rsrp: i32,
    channels: &Vec<i32>,
) -> (r: (String, i32))
    requires
        g.wf(),
        t@ == s@,
        serving_rsrp == serving_field(t@, |t: Seq<char>, k: Seq<Tok>, i: int| cell_rsrp(t, k, i)),
        ints(channels@) == carrier_channels(t@),
    ensures
        r.0@ == band_in(t@),
        r.1 == rssi_in(t@),
{
    let ghost x = xlec_pattern();
    match first_of(&g.xlec_regex, t) {
        None => (first_carrier_band(t, channels), 0),
        Some((i, ends)) => {
            let (a, b) = span_bounds(&g.xlec_regex, t, i, &ends, 3, 3);
            let cells: usize = match parse_decimal(t, a, b, usize::MAX as u64) {
                Some(v) => v as usize,
                None => 1,
            };
            let (ca, cb) = span_bounds(&g.xlec_regex, t, i, &ends, 5, 5);
            let cb = if ca < cb && t[cb - 1] == ',' {
                cb - 1
            } else {
                cb
            };
            assert(t@.subrange(ca as int, cb as int) =~= xlec_codes(t@, i as int));
            let codes = split_spans(t, ca, cb, ',');
            let (ba, bb) = span_bounds(&g.xlec_regex, t, i, &ends, 7, 7);
            let bands = split_spans(t, ba, bb, ',');
            let ghost code_pieces = split_on(xlec_codes(t@, i as int), ',');
            let ghost band_pieces = split_on(cap(t@, i as int, x, 7), ',');
            let ghost chans = carrier_channels(t@);
            let mut out = String::new();
            let mut k: usize = 0;
            while k < cells
                invariant
                    t@ == s@,
                    k <= cells,
                    codes@.len() == code_pieces.len(),
                    forall|j: int|
                        0 <= j < codes@.len() ==> {
                            &&& (#[trigger] codes@[j]).0 <= codes@[j].1 <= t@.len()
                            &&& t@.subrange(codes@[j].0 as int, codes@[j].1 as int)
                                == code_pieces[j]
                        },
                    bands@.len() == band_pieces.len(),
                    forall|j: int|
                        0 <= j < bands@.len() ==> {
                            &&& (#[trigger] bands@[j]).0 <= bands@[j].1 <= t@.len()
                            &&& t@.subrange(bands@[j].0 as int, bands@[j].1 as int)
                                == band_pieces[j]
                        },
                    ints(channels@) == chans,
                    out@ == ca_band_string(
                        k as int,
                        cells as int,
                        code_pieces,
                        band_pieces,
                        chans,
                    ),
                decreases cells - k,
            {
                let ghost before = out@;
                if bands.len() == cells {
                    out.append("B");
                    let (pa, pb) = bands[k];
                    out.append(s.substring_char(pa, pb));
                } else if k < channels.len() {
                    assert(ints(channels@)[k as int] == channels@[k as int]);
                    out.append(get_band_lte(channels[k]));
                } else {
                    out.append("--");
                }
                out.append("@");
                if k < codes.len() {
                    let (pa, pb) = codes[k];
                    out.append(bandwidth_label(t, pa, pb));
                } else {
                    assert(t@.subrange(0, 0) =~= Seq::<char>::empty());
                    out.append(bandwidth_label(t, 0, 0));
                }
                out.append("MHz ");
                assert(out@ =~= before + ca_cell(
                    k as int,
                    cells as int,
                    code_pieces,
                    band_pieces,
                    chans,
                ));
                k = k + 1;
            }
            proof {
                lemma_split_nonempty(xlec_codes(t@, i as int), ',');
                assert(cells == cell_count(cap(t@, i as int, x, 3)));
                assert(out@ == band_in(t@));
            }
            let (pa, pb) = codes[0];
            let code = int_field(t, pa, pb);
            let rssi = match convert_rsrp_to_rssi(serving_rsrp, code) {
                Some(v) => v,
                None => 0,
            };
            (out, rssi)
        },
    }
}

/// The configured-bands record: the two flags and the UMTS and LTE band lists.
fn read_bands(p: &Pattern, t: &Vec<char>) -> (r: (bool, bool, Vec<usize>, Vec<usize>))
    requires
        p@ == xact_pattern(),
    ensures
        r.0 == xact_flag(t@, 1, '4'),
        r.1 == xact_flag(t@, 3, '2'),
        naturals(r.2@) == xact_bands(t@, true),
        naturals(r.3@) == xact_bands(t@, false),
{
    let mut umts: Vec<usize> = Vec::new();
    let mut lte: Vec<usize> = Vec::new();
    match first_of(p, t) {
        None => {
            assert(naturals(umts@) =~= Seq::<int>::empty());
            assert(naturals(lte@) =~= Seq::<int>::empty());
            (false, false, umts, lte)
        },
        Some((i, ends)) => {
            let (a, b) = span_bounds(p, t, i, &ends, 1, 1);
            let umts_on = b - a == 1 && t[a] == '4';
            proof {
                let c = t@.subrange(a as int, b as int);
                if umts_on {
                    assert(c =~= seq!['4']);
                } else if c.len() == 1 {
                    assert(seq!['4'][0] == '4');
                }
            }
            let (a, b) = span_bounds(p, t, i, &ends, 3, 3);
            let lte_on = b - a == 1 && t[a] == '2';
            proof {
                let c = t@.subrange(a as int, b as int);
                if lte_on {
                    assert(c =~= seq!['2']);
                } else if c.len() == 1 {
                    assert(seq!['2'][0] == '2');
                }
            }
            let (a, b) = span_bounds(p, t, i, &ends, 7, 7);
            let spans = split_spans(t, a, b, ',');
            let ghost pieces = split_on(t@.subrange(a as int, b as int), ',');
            let mut k: usize = 0;
            while k < spans.len()
                invariant
                    k <= spans@.len() == pieces.len(),
                    forall|j: int|
                        0 <= j < spans@.len() ==> {
                            &&& (#[trigger] spans@[j]).0 <= spans@[j].1 <= t@.len()
                            &&& t@.subrange(spans@[j].0 as int, spans@[j].1 as int) == pieces[j]
                        },
                    naturals(umts@) == umts_bands_of(pieces.take(k as int)),
                    naturals(lte@) == lte_bands_of(pieces.take(k as int)),
                decreases spans@.len() - k,
            {
                let (pa, pb) = spans[k];
                assert(pieces.take(k + 1).drop_last() =~= pieces.take(k as int));
                assert(pieces.take(k + 1).last() == pieces[k as int]);
                match parse_decimal(t, pa, pb, i32::MAX as u64) {
                    Some(v) => {
                        if v < 100 {
                            umts.push(v as usize);
                            assert(naturals(umts@) =~= umts_bands_of(pieces.take(k + 1)));
                        } else {
                            lte.push((v - 100) as usize);
                            assert(naturals(lte@) =~= lte_bands_of(pieces.take(k + 1)));
                        }
                    },
                    None => {},
                }
                k = k + 1;
            }
            assert(pieces.take(k as int) =~= pieces);
            (umts_on, lte_on, umts, lte)
        },
    }
}

fn read_model_code(g: &AtRegexps, s: &str, t: &Vec<char>) -> (r: String)
    requires
        g.wf(),
        t@ == s@,
    ensures
        r@ == model_code_in(t@),
{
    match first_of(&g.fmm_regex, t) {
        None => String::new(),
        Some((i, ends)) => {
            let e = ends[2];
            assert(e == match_end(t@, i as int, g.fmm_regex@));
            match g.model_code_regex.match_here(t, e) {
                None => String::new(),
                Some(ends2) => {
                    let (a, b) = span_bounds(&g.model_code_regex, t, e, &ends2, 1, 1);
                    text_at(s, a, b)
                },
            }
        },
    }
}

fn read_mode(p: &Pattern, t: &Vec<char>) -> (r: NetworkMode)
    requires
        p@ == cops_pattern(),
    ensures
        r == mode_in(t@),
{
    match first_of(p, t) {
        None => NetworkMode::Unknown,
        Some((i, ends)) => {
            let (a, b) = span_bounds(p, t, i, &ends, 7, 7);
            if b - a != 1 {
                return NetworkMode::Unknown;
            }
            let c = t[a];
            assert(t@.subrange(a as int, b as int)[0] == c);
            if c == '0' {
                NetworkMode::Edge
            } else if c == '2' {
                NetworkMode::Umts
            } else if c == '3' || c == '7' {
                NetworkMode::Lte
            } else if c == '4' {
                NetworkMode::Hsdpa
            } else if c == '5' {
                NetworkMode::Hsupa
            } else if c == '6' {
                NetworkMode::Hspa
            } else {
                NetworkMode::Unknown
            }
        },
    }
}

fn read_csq(p: &Pattern, t: &Vec<char>) -> (r: i32)
    requires
        p@ == csq_pattern(),
    ensures
        r == csq_in(t@),
{
    match first_of(p, t) {
        None => 0,
        Some((i, ends)) => {
            let (a, b) = span_bounds(p, t, i, &ends, 1, 1);
            int_field(t, a, b)
        },
    }
}

/// The carrier-aggregation record's fields as text: the cell count, the bandwidth
/// codes and the band numbers; `None` where the replies hold no such record.
pub fn aggregation_fields(grammar: &AtRegexps, info_string: &str) -> (r: Option<(String, String, String)>)
    requires
        grammar.wf(),
    ensures
        r is None <==> first_match(info_string@, xlec_pattern()) is None,
        r matches Some((cells, codes, bands)) ==> {
            let i = first_match(info_string@, xlec_pattern())->0;
            &&& cells@ == cap(info_string@, i, xlec_pattern(), 3)
            &&& codes@ == xlec_codes(info_string@, i)
            &&& bands@ == cap(info_string@, i, xlec_pattern(), 7)
        },
{
    let s = info_string;
    let t = chars_of(s);
    match first_of(&grammar.xlec_regex, &t) {
        None => None,
        Some((i, ends)) => {
            let (a, b) = span_bounds(&grammar.xlec_regex, &t, i, &ends, 3, 3);
            let cells = text_at(s, a, b);
            let (ca, cb) = span_bounds(&grammar.xlec_regex, &t, i, &ends, 5, 5);
            let cb = if ca < cb && t[cb - 1] == ',' {
                cb - 1
            } else {
                cb
            };
            assert(t@.subrange(ca as int, cb as int) =~= xlec_codes(t@, i as int));
            let codes = text_at(s, ca, cb);
            let (ba, bb) = span_bounds(&grammar.xlec_regex, &t, i, &ends, 7, 7);
            let bands = text_at(s, ba, bb);
            Some((cells, codes, bands))
        },
    }
}

/// Extracts the telemetry of one polling cycle from the concatenated replies and
/// derives the signal metrics. Every record is looked for on its own; a record that
/// is absent leaves its fields empty, zero, or "---" for the addresses, and a number
/// that does not parse reads as 0.
pub fn get_modem_info(grammar: &AtRegexps, info_string: &str) -> (info: ModemInfo)
    requires
        grammar.wf(),
    ensures
        info.describes(info_string@),
        info.wf(),
{
    let s = info_string;
    let t = chars_of(s);
    let manufacturer = first_text(&grammar.cgmi_regex, s, &t, 1, 1, "");
    let model = first_text(&grammar.fmm_regex, s, &t, 1, 1, "");
    let model_code = read_model_code(grammar, s, &t);
    let fw_version = first_text(&grammar.gtpkgver_regex, s, &t, 1, 1, "");
    let serial_number = first_text(&grammar.cfsn_regex, s, &t, 1, 1, "");
    let imei = first_text(&grammar.cgsn_regex, s, &t, 1, 1, "");
    let imsi = first_text(&grammar.cimi_regex, s, &t, 1, 1, "");
    let iccid = first_text(&grammar.ccid_regex, s, &t, 1, 1, "");
    let operator = first_text(&grammar.cops_regex, s, &t, 5, 5, "");
    let mode = read_mode(&grammar.cops_regex, &t);
    let ip = first_text(&grammar.cgcontrdp_regex, s, &t, 7, 13, "---");
    let mask = first_text(&grammar.cgcontrdp_regex, s, &t, 15, 21, "---");
    let dns_prim = first_text(&grammar.cgcontrdp_regex, s, &t, 23, 23, "---");
    let dns_sec = first_text(&grammar.cgcontrdp_regex, s, &t, 25, 25, "---");
    let gw = first_text(&grammar.cgcontrdp_regex, s, &t, 27, 27, "---");
    let csq = read_csq(&grammar.csq_regex, &t);
    let csq_perc = csq_percentage(csq);
    let (rsrp, rsrq, sinr, distance, dluarfnc) = match first_of(&grammar.xmci4_regex, &t) {
        None => (0, 0, 0, 0, 0),
        Some((i, ends)) => {
            let cell = read_cell(&grammar.xmci4_regex, s, &t, i, &ends);
            (cell.rsrp, cell.rsrq, cell.sinr, cell.distance, cell.earfcn)
        },
    };
    let carriers = read_carriers(&grammar.xmci45_regex, s, &t);
    let (band, rssi) = read_aggregation(grammar, s, &t, rsrp, &carriers.earfcn);
    let (umts_enabled, lte_enabled, enabled_umts_bands, enabled_lte_bands) = read_bands(
        &grammar.bands_regex,
        &t,
    );
    let info = ModemInfo {
        manufacturer,
        model,
        model_code,
        fw_version,
        serial_number,
        imei,
        imsi,
        iccid,
        operator,
        mode,
        ip,
        mask,
        gw,
        dns_prim,
        dns_sec,
        band,
        distance,
        dluarfnc,
        csq,
        csq_perc,
        rssi,
        sinr,
        rsrp,
        rsrq,
        ci_x: carriers.ci,
        pci_x: carriers.pci,
        earfcn_x: carriers.earfcn,
        rsrp_x: carriers.rsrp,
        rsrq_x: carriers.rsrq,
        sinr_x: carriers.sinr,
        umts_enabled,
        lte_enabled,
        enabled_umts_bands,
        enabled_lte_bands,
    };
    proof {
        reveal_strlit("");
        assert(""@ =~= Seq::<char>::empty());
        assert(info.identity_from(t@));
        assert(info.network_from(t@));
        assert(info.signal_from(t@));
        assert(info.carriers_from(t@));
        assert(info.bands_from(t@));
        assert(info.ci_x@.len() == ints(info.ci_x@).len());
        assert(info.pci_x@.len() == ints(info.pci_x@).len());
        assert(info.earfcn_x@.len() == ints(info.earfcn_x@).len());
        assert(info.rsrp_x@.len() == ints(info.rsrp_x@).len());
        assert(info.rsrq_x@.len() == ints(info.rsrq_x@).len());
        assert(info.sinr_x@.len() == ints(info.sinr_x@).len());
    }
    info
}

impl ModemInfo {
    /// Nothing observed yet: empty texts, "---" for the addresses, zeros, no carriers.
    pub open spec fn is_blank(&self) -> bool {
        &&& self.manufacturer@.len() == 0
        &&& self.model@.len() == 0
        &&& self.model_code@.len() == 0
        &&& self.fw_version@.len() == 0
        &&& self.serial_number@.len() == 0
        &&& self.imei@.len() == 0
        &&& self.imsi@.len() == 0
        &&& self.iccid@.len() == 0
        &&& self.operator@.len() == 0
        &&& self.mode == NetworkMode::Unknown
        &&& self.ip@ == "---"@
        &&& self.mask@ == "---"@
        &&& self.gw@ == "---"@
        &&& self.dns_prim@ == "---"@
        &&& self.dns_sec@ == "---"@
        &&& self.band@.len() == 0
        &&& self.distance == 0
        &&& self.dluarfnc == 0
        &&& self.csq == 0
        &&& self.csq_perc == 0
        &&& self.rssi == 0
        &&& self.sinr == 0
        &&& self.rsrp == 0
        &&& self.rsrq == 0
        &&& self.ci_x@.len() == 0
        &&& self.pci_x@.len() == 0
        &&& self.earfcn_x@.len() == 0
        &&& self.rsrp_x@.len() == 0
        &&& self.rsrq_x@.len() == 0
        &&& self.sinr_x@.len() == 0
        &&& !self.umts_enabled
        &&& !self.lte_enabled
        &&& self.enabled_umts_bands@.len() == 0
        &&& self.enabled_lte_bands@.len() == 0
    }
}

impl Default for ModemInfo {
    fn default() -> (r: ModemInfo)
        ensures
            r.is_blank(),
            r.wf(),
    {
        ModemInfo {
            manufacturer: String::new(),
            model: String::new(),
            model_code: String::new(),
            fw_version: String::new(),
            serial_number: String::new(),
            imei: String::new(),
            imsi: String::new(),
            iccid: String::new(),
            operator: String::new(),
            mode: NetworkMode::Unknown,
            ip: "---".to_owned(),
            mask: "---".to_owned(),
            gw: "---".to_owned(),
            dns_prim: "---".to_owned(),
            dns_sec: "---".to_owned(),
            band: String::new(),
            distance: 0,
            dluarfnc: 0,
            csq: 0,
            csq_perc: 0,
            rssi: 0,
            sinr: 0,
            rsrp: 0,
            rsrq: 0,
            ci_x: Vec::new(),
            pci_x: Vec::new(),
            earfcn_x: Vec::new(),
            rsrp_x: Vec::new(),
            rsrq_x: Vec::new(),
            sinr_x: Vec::new(),
            umts_enabled: false,
            lte_enabled: false,
            enabled_umts_bands: Vec::new(),
            enabled_lte_bands: Vec::new(),
        }
    }
}

} // verus!
