//! The band configuration that the user edits, and the command that applies it.
use vstd::prelude::*;
use vstd::string::StringExecFns;
use crate::supported_modems::ModemSpecs;

verus! {

/// Which of the two band lists the user is editing.
#[derive(Clone, Copy, Debug, PartialEq, Eq, Structural)]
pub enum BandsSelectorActive {
    UMTSBandsSelector,
    LTEBandsSelector,
}

impl BandsSelectorActive {
    /// The other list.
    pub fn toggled(self) -> (r: BandsSelectorActive)
        ensures
            r != self,
    {
        match self {
            BandsSelectorActive::UMTSBandsSelector => BandsSelectorActive::LTEBandsSelector,
            BandsSelectorActive::LTEBandsSelector => BandsSelectorActive::UMTSBandsSelector,
        }
    }
}

/// `s` without any occurrence of `band`, the rest in order.
pub open spec fn without(s: Seq<usize>, band: usize) -> Seq<usize>
    decreases s.len(),
{
    if s.len() == 0 {
        s
    } else {
        let w = without(s.drop_last(), band);
        if s.last() == band {
            w
        } else {
            w.push(s.last())
        }
    }
}

/// The band list after toggling `band`: removed where present, appended where absent.
pub open spec fn toggled(s: Seq<usize>, band: usize) -> Seq<usize> {
    if s.contains(band) {
        without(s, band)
    } else {
        s.push(band)
    }
}

pub proof fn lemma_push_contains(s: Seq<usize>, v: usize, x: usize)
    ensures
        s.push(v).contains(x) <==> (s.contains(x) || v == x),
{
    if s.push(v).contains(x) {
        let k = choose|k: int| 0 <= k < s.len() + 1 && #[trigger] s.push(v)[k] == x;
        if k < s.len() {
            assert(s[k] == x);
        }
    }
    if s.contains(x) {
        let k = choose|k: int| 0 <= k < s.len() && #[trigger] s[k] == x;
        assert(s.push(v)[k] == x);
    }
    if v == x {
        assert(s.push(v)[s.len() as int] == x);
    }
}

pub proof fn lemma_without_contains(s: Seq<usize>, band: usize, x: usize)
    ensures
        without(s, band).contains(x) <==> (s.contains(x) && x != band),
    decreases s.len(),
{
    if s.len() > 0 {
        let d = s.drop_last();
        lemma_without_contains(d, band, x);
        assert(s =~= d.push(s.last()));
        lemma_push_contains(d, s.last(), x);
        if s.last() != band {
            lemma_push_contains(without(d, band), s.last(), x);
        }
    }
}

pub proof fn lemma_without_absent(s: Seq<usize>, band: usize)
    requires
        !s.contains(band),
    ensures
        without(s, band) == s,
    decreases s.len(),
{
    if s.len() > 0 {
        assert(!s.drop_last().contains(band)) by {
            if s.drop_last().contains(band) {
                let k = choose|k: int| 0 <= k < s.drop_last().len() && #[trigger] s.drop_last()[k] == band;
                assert(s[k] == band);
            }
        }
        lemma_without_absent(s.drop_last(), band);
        assert(s.last() != band);
        assert(s.drop_last().push(s.last()) =~= s);
    }
}

/// Toggling a band twice leaves the set of enabled bands as it was; where the band
/// was not enabled, the list itself is as it was.
pub proof fn lemma_toggle_twice(s: Seq<usize>, band: usize)
    ensures
        toggled(toggled(s, band), band).to_set() == s.to_set(),
        !s.contains(band) ==> toggled(toggled(s, band), band) == s,
{
    let once = toggled(s, band);
    let twice = toggled(once, band);
    if s.contains(band) {
        assert(!once.contains(band)) by {
            lemma_without_contains(s, band, band);
        }
        assert(twice == once.push(band));
        assert forall|x: usize| twice.contains(x) <==> s.contains(x) by {
            lemma_without_contains(s, band, x);
            if twice.contains(x) && x != band {
                let k = choose|k: int| 0 <= k < twice.len() && twice[k] == x;
                if k < once.len() {
                    assert(once[k] == x);
                }
            }
            if x == band {
                assert(twice[once.len() as int] == band);
            } else if once.contains(x) {
                let k = choose|k: int| 0 <= k < once.len() && once[k] == x;
                assert(twice[k] == x);
            }
        }
    } else {
        assert(once[s.len() as int] == band);
        assert(twice == without(s.push(band), band));
        assert(s.push(band).drop_last() =~= s);
        lemma_without_absent(s, band);
        assert(twice == s);
    }
    assert(twice.to_set() =~= s.to_set());
}

/// Toggles `band` in a list: removes every occurrence where present, appends it where absent.
pub fn toggle_band(bands: &mut Vec<usize>, band: usize)
    ensures
        final(bands)@ == toggled(old(bands)@, band),
{
    let mut present = false;
    let mut kept: Vec<usize> = Vec::new();
    let mut i: usize = 0;
    while i < bands.len()
        invariant
            i <= bands@.len(),
            kept@ == without(bands@.take(i as int), band),
            present <==> bands@.take(i as int).contains(band),
        decreases bands@.len() - i,
    {
        let b = bands[i];
        assert(bands@.take(i + 1).drop_last() =~= bands@.take(i as int));
        assert(bands@.take(i + 1).last() == b);
        if b == band {
            present = true;
            assert(bands@.take(i + 1)[i as int] == band);
        } else {
            kept.push(b);
        }
        proof {
            if bands@.take(i + 1).contains(band) && !bands@.take(i as int).contains(band) {
                let k = choose|k: int| 0 <= k < i + 1 && #[trigger] bands@.take(i + 1)[k] == band;
                if k < i {
                    assert(bands@.take(i as int)[k] == band);
                }
            }
            if bands@.take(i as int).contains(band) {
                let k = choose|k: int| 0 <= k < i && #[trigger] bands@.take(i as int)[k] == band;
                assert(bands@.take(i + 1)[k] == band);
            }
        }
        i = i + 1;
    }
    assert(bands@.take(i as int) =~= bands@);
    if present {
        *bands = kept;
    } else {
        bands.push(band);
    }
}

/// The bands the user has chosen to enable.
pub struct BandsConfig {
    /// Whether the lists were filled from the modem's reported configuration.
    pub loaded: bool,
    pub umts: Vec<usize>,
    pub lte: Vec<usize>,
}

impl BandsConfig {
    /// Toggles the band at `index` of the selected list of supported bands. An index
    /// beyond that list (the capabilities changed meanwhile) changes nothing.
    pub fn toggle_selected(
        &mut self,
        selector: BandsSelectorActive,
        caps: &ModemSpecs,
        index: usize,
    )
        ensures
            final(self).loaded == old(self).loaded,
            selector == BandsSelectorActive::UMTSBandsSelector ==> {
                &&& final(self).lte@ == old(self).lte@
                &&& final(self).umts@ == if index < caps.supported_umts_bands@.len() {
                    toggled(old(self).umts@, caps.supported_umts_bands@[index as int])
                } else {
                    old(self).umts@
                }
            },
            selector == BandsSelectorActive::LTEBandsSelector ==> {
                &&& final(self).umts@ == old(self).umts@
                &&& final(self).lte@ == if index < caps.supported_lte_bands@.len() {
                    toggled(old(self).lte@, caps.supported_lte_bands@[index as int])
                } else {
                    old(self).lte@
                }
            },
    {
        match selector {
            BandsSelectorActive::UMTSBandsSelector => {
                if index < caps.supported_umts_bands.len() {
                    toggle_band(&mut self.umts, caps.supported_umts_bands[index]);
                }
            },
            BandsSelectorActive::LTEBandsSelector => {
                if index < caps.supported_lte_bands.len() {
                    toggle_band(&mut self.lte, caps.supported_lte_bands[index]);
                }
            },
        }
    }
}

pub open spec fn digit_char(d: int) -> char {
    if d == 0 { '0' }
    else if d == 1 { '1' }
    else if d == 2 { '2' }
    else if d == 3 { '3' }
    else if d == 4 { '4' }
    else if d == 5 { '5' }
    else if d == 6 { '6' }
    else if d == 7 { '7' }
    else if d == 8 { '8' }
    else { '9' }
}

/// The decimal digits of `n`.
pub open spec fn decimal(n: nat) -> Seq<char>
    decreases n,
{
    if n < 10 {
        seq![digit_char(n as int)]
    } else {
        decimal(n / 10) + seq![digit_char((n % 10) as int)]
    }
}

fn digit_str(d: u128) -> (r: &'static str)
    requires
        d < 10,
    ensures
        r@ == seq![digit_char(d as int)],
{
    proof {
        reveal_strlit("0");
        reveal_strlit("1");
        reveal_strlit("2");
        reveal_strlit("3");
        reveal_strlit("4");
        reveal_strlit("5");
        reveal_strlit("6");
        reveal_strlit("7");
        reveal_strlit("8");
        reveal_strlit("9");
    }
    let r = if d == 0 { "0" }
    else if d == 1 { "1" }
    else if d == 2 { "2" }
    else if d == 3 { "3" }
    else if d == 4 { "4" }
    else if d == 5 { "5" }
    else if d == 6 { "6" }
    else if d == 7 { "7" }
    else if d == 8 { "8" }
    else { "9" };
    assert(r@ =~= seq![digit_char(d as int)]);
    r
}

/// Appends the decimal digits of `n`.
fn push_decimal(out: &mut String, n: u128)
    ensures
        final(out)@ == old(out)@ + decimal(n as nat),
    decreases n,
{
    if n >= 10 {
        push_decimal(out, n / 10);
    }
    out.append(digit_str(n % 10));
    assert(final(out)@ =~= old(out)@ + decimal(n as nat));
}

/// The band numbers as the band-configuration command lists them: the UMTS bands,
/// then each LTE band plus 100, separated by commas.
pub open spec fn band_list(umts: Seq<usize>, lte: Seq<usize>) -> Seq<char> {
    let numbers = umts.map_values(|b: usize| b as nat) + lte.map_values(|b: usize| (b + 100) as nat);
    comma_list(numbers)
}

/// The decimal forms of `ns` separated by commas.
pub open spec fn comma_list(ns: Seq<nat>) -> Seq<char>
    decreases ns.len(),
{
    if ns.len() == 0 {
        Seq::empty()
    } else if ns.len() == 1 {
        decimal(ns[0])
    } else {
        comma_list(ns.drop_last()) + ","@ + decimal(ns.last())
    }
}

/// The command that enables exactly the given bands: UMTS and LTE with LTE preferred
/// where both lists hold bands, LTE alone or UMTS alone where only one does; with
/// both lists empty, the command that unlocks every band.
pub open spec fn bands_command(umts: Seq<usize>, lte: Seq<usize>) -> Seq<char> {
    if umts.len() == 0 && lte.len() == 0 {
        "AT+XACT=4,2,,0"@
    } else if umts.len() == 0 {
        "AT+XACT=2,,,"@ + band_list(umts, lte)
    } else if lte.len() == 0 {
        "AT+XACT=1,,,"@ + band_list(umts, lte)
    } else {
        "AT+XACT=4,2,,"@ + band_list(umts, lte)
    }
}

/// Builds the band-configuration command for the chosen UMTS and LTE bands.
pub fn save_bands_command(umts: &Vec<usize>, lte: &Vec<usize>) -> (r: String)
    ensures
        r@ == bands_command(umts@, lte@),
{
    if umts.len() == 0 && lte.len() == 0 {
        return "AT+XACT=4,2,,0".to_owned();
    }
    let mut out = if umts.len() == 0 {
        "AT+XACT=2,,,".to_owned()
    } else if lte.len() == 0 {
        "AT+XACT=1,,,".to_owned()
    } else {
        "AT+XACT=4,2,,".to_owned()
    };
    let ghost head = out@;
    let ghost numbers = umts@.map_values(|b: usize| b as nat) + lte@.map_values(
        |b: usize| (b + 100) as nat,
    );
    let nu = umts.len();
    let nl = lte.len();
    let mut k: usize = 0;
    while k < nu
        invariant
            nu == umts@.len(),
            numbers.len() == umts@.len() + lte@.len(),
            k <= nu,
            forall|j: int| 0 <= j < umts@.len() ==> #[trigger] numbers[j] == umts@[j] as nat,
            out@ == head + comma_list(numbers.take(k as int)),
        decreases nu - k,
    {
        let v: u128 = umts[k] as u128;
        assert(numbers.take(k + 1).drop_last() =~= numbers.take(k as int));
        if k > 0 {
            out.append(",");
        }
        push_decimal(&mut out, v);
        proof {
            if k == 0 {
                assert(comma_list(numbers.take(1)) == decimal(numbers[0]));
            }
            assert(out@ =~= head + comma_list(numbers.take(k + 1)));
        }
        k = k + 1;
    }
    let mut j: usize = 0;
    while j < nl
        invariant
            nu == umts@.len(),
            nl == lte@.len(),
            numbers.len() == umts@.len() + lte@.len(),
            j <= nl,
            forall|i: int|
                0 <= i < lte@.len() ==> #[trigger] numbers[umts@.len() + i] == (lte@[i] + 100) as nat,
            out@ == head + comma_list(numbers.take(nu + j)),
        decreases nl - j,
    {
        let v: u128 = lte[j] as u128 + 100;
        let ghost m = nu + j;
        assert(v as nat == numbers[m]);
        assert(numbers.take(m + 1).drop_last() =~= numbers.take(m));
        if nu > 0 || j > 0 {
            out.append(",");
        }
        push_decimal(&mut out, v);
        proof {
            if m == 0 {
                assert(comma_list(numbers.take(1)) == decimal(numbers[0]));
            }
            assert(out@ =~= head + comma_list(numbers.take(m + 1)));
        }
        j = j + 1;
    }
    assert(numbers.take(nu + nl) =~= numbers);
    out
}

} // verus!
