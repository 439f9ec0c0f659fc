//! The patterns of the records that the extractor reads from modem replies.
use vstd::prelude::*;
use crate::grammar::{CharClass, Pattern, Tok, Token};
use crate::text::chars_of;

verus! {

/// The bound given to runs that may be as long as the text.
pub open spec fn unbounded() -> nat {
    usize::MAX as nat
}

pub open spec fn digits() -> Tok {
    Tok::Run(CharClass::Range('0', '9'), 1, unbounded())
}

pub open spec fn one_digit() -> Tok {
    Tok::Run(CharClass::Range('0', '9'), 1, 1)
}

pub open spec fn unquoted() -> Tok {
    Tok::Run(CharClass::NotQuote, 0, unbounded())
}

pub open spec fn unquoted_nonempty() -> Tok {
    Tok::Run(CharClass::NotQuote, 1, unbounded())
}

pub open spec fn digit_list() -> Tok {
    Tok::Run(CharClass::DigitOrComma, 1, unbounded())
}

/// `<tag>"<text>"`: one quoted, non-empty text after a tag (token 1).
pub open spec fn quoted_pattern(tag: Seq<char>) -> Seq<Tok> {
    seq![Tok::Lit(tag), unquoted_nonempty(), Tok::Lit("\""@)]
}

/// `<tag><digits>` (token 1).
pub open spec fn number_pattern(tag: Seq<char>) -> Seq<Tok> {
    seq![Tok::Lit(tag), digits()]
}

/// The optional second model text after the model: `,"<code>"` (token 1).
pub open spec fn model_code_pattern() -> Seq<Tok> {
    seq![Tok::Lit(",\""@), unquoted_nonempty(), Tok::Lit("\""@)]
}

/// `+CSQ: <quality>,<ber>` (tokens 1 and 3).
pub open spec fn csq_pattern() -> Seq<Tok> {
    seq![Tok::Lit("+CSQ: "@), digits(), Tok::Lit(","@), digits()]
}

/// `+COPS: <d>,<d>,"<operator>",<technology>` (tokens 5 and 7).
pub open spec fn cops_pattern() -> Seq<Tok> {
    seq![
        Tok::Lit("+COPS: "@),
        one_digit(),
        Tok::Lit(","@),
        one_digit(),
        Tok::Lit(",\""@),
        unquoted(),
        Tok::Lit("\","@),
        one_digit(),
    ]
}

/// `+CGCONTRDP: <index>,<cid>,"<apn>","<a.b.c.d>.<m.m.m.m>","<dns1>","<dns2>","<gateway>","<pcscf1>","<pcscf2>",<mtu>`:
/// the address covers tokens 7 to 13, the mask 15 to 21, the DNS servers tokens 23
/// and 25, the gateway token 27.
pub open spec fn cgcontrdp_pattern() -> Seq<Tok> {
    seq![
        Tok::Lit("+CGCONTRDP: "@),
        one_digit(),
        Tok::Lit(","@),
        digits(),
        Tok::Lit(",\""@),
        unquoted_nonempty(),
        Tok::Lit("\",\""@),
        digits(),
        Tok::Lit("."@),
        digits(),
        Tok::Lit("."@),
        digits(),
        Tok::Lit("."@),
        digits(),
        Tok::Lit("."@),
        digits(),
        Tok::Lit("."@),
        digits(),
        Tok::Lit("."@),
        digits(),
        Tok::Lit("."@),
        digits(),
        Tok::Lit("\",\""@),
        unquoted_nonempty(),
        Tok::Lit("\",\""@),
        unquoted_nonempty(),
        Tok::Lit("\",\""@),
        unquoted_nonempty(),
        Tok::Lit("\",\""@),
        unquoted(),
        Tok::Lit("\",\""@),
        unquoted(),
        Tok::Lit("\","@),
        digits(),
    ]
}

/// `+XMCI: <type>,<mcc>,<mnc>,"<tac>","<ci>","<pci>","<dl channel>","<ul channel>","<path loss>",<rsrp>,<rsrq>,<sinr>,"<timing advance>","<cqi>"`
/// with the cell type drawn from `lo..=hi`: cell id token 9, physical cell id 11,
/// downlink channel 13, RSRP 19, RSRQ 21, SINR tokens 23 (sign) to 24, timing advance 26.
pub open spec fn xmci_pattern(lo: char, hi: char) -> Seq<Tok> {
    seq![
        Tok::Lit("+XMCI: "@),
        Tok::Run(CharClass::Range(lo, hi), 1, 1),
        Tok::Lit(","@),
        digits(),
        Tok::Lit(","@),
        digits(),
        Tok::Lit(",\""@),
        unquoted(),
        Tok::Lit("\",\""@),
        unquoted(),
        Tok::Lit("\",\""@),
        unquoted(),
        Tok::Lit("\",\""@),
        unquoted(),
        Tok::Lit("\",\""@),
        unquoted(),
        Tok::Lit("\",\""@),
        unquoted(),
        Tok::Lit("\","@),
        digits(),
        Tok::Lit(","@),
        digits(),
        Tok::Lit(","@),
        Tok::Run(CharClass::Range('-', '-'), 0, 1),
        digits(),
        Tok::Lit(",\""@),
        unquoted(),
        Tok::Lit("\",\""@),
        unquoted(),
        Tok::Lit("\""@),
    ]
}

/// `+XLEC: <d>,<cells>,<bandwidth codes>,BAND_LTE_<bands>`: cell count token 3,
/// bandwidth codes with their closing comma token 5, band numbers token 7.
pub open spec fn xlec_pattern() -> Seq<Tok> {
    seq![
        Tok::Lit("+XLEC: "@),
        digits(),
        Tok::Lit(","@),
        digits(),
        Tok::Lit(","@),
        digit_list(),
        Tok::Lit("BAND_LTE_"@),
        digit_list(),
    ]
}

/// `+XACT: <umts flag>,<lte flag>,<unused>,<band numbers>` (tokens 1, 3 and 7).
pub open spec fn xact_pattern() -> Seq<Tok> {
    seq![
        Tok::Lit("+XACT: "@),
        digits(),
        Tok::Lit(","@),
        digits(),
        Tok::Lit(","@),
        Tok::Run(CharClass::Range('0', '9'), 0, unbounded()),
        Tok::Lit(","@),
        digit_list(),
    ]
}

/// The regular expressions of every record, built once and shared by reference.
pub struct AtRegexps {
    pub cgmi_regex: Pattern,
    pub fmm_regex: Pattern,
    pub model_code_regex: Pattern,
    pub gtpkgver_regex: Pattern,
    pub cfsn_regex: Pattern,
    pub cgsn_regex: Pattern,
    pub cimi_regex: Pattern,
    pub ccid_regex: Pattern,
    pub csq_regex: Pattern,
    pub cops_regex: Pattern,
    pub cgcontrdp_regex: Pattern,
    pub xmci4_regex: Pattern,
    pub xmci45_regex: Pattern,
    pub xlec_regex: Pattern,
    pub bands_regex: Pattern,
}

impl AtRegexps {
    pub open spec fn wf(&self) -> bool {
        &&& self.cgmi_regex@ == quoted_pattern("+CGMI: \""@)
        &&& self.fmm_regex@ == quoted_pattern("+FMM: \""@)
        &&& self.model_code_regex@ == model_code_pattern()
        &&& self.gtpkgver_regex@ == quoted_pattern("+GTPKGVER: \""@)
        &&& self.cfsn_regex@ == quoted_pattern("+CFSN: \""@)
        &&& self.cgsn_regex@ == quoted_pattern("+CGSN: \""@)
        &&& self.cimi_regex@ == number_pattern("+CIMI: "@)
        &&& self.ccid_regex@ == number_pattern("+CCID: "@)
        &&& self.csq_regex@ == csq_pattern()
        &&& self.cops_regex@ == cops_pattern()
        &&& self.cgcontrdp_regex@ == cgcontrdp_pattern()
        &&& self.xmci4_regex@ == xmci_pattern('4', '4')
        &&& self.xmci45_regex@ == xmci_pattern('4', '5')
        &&& self.xlec_regex@ == xlec_pattern()
        &&& self.bands_regex@ == xact_pattern()
    }

    pub fn new() -> (g: AtRegexps)
        ensures
            g.wf(),
    {
        AtRegexps {
            cgmi_regex: quoted("+CGMI: \""),
            fmm_regex: quoted("+FMM: \""),
            model_code_regex: quoted(",\""),
            gtpkgver_regex: quoted("+GTPKGVER: \""),
            cfsn_regex: quoted("+CFSN: \""),
            cgsn_regex: quoted("+CGSN: \""),
            cimi_regex: number("+CIMI: "),
            ccid_regex: number("+CCID: "),
            csq_regex: csq(),
            cops_regex: cops(),
            cgcontrdp_regex: cgcontrdp(),
            xmci4_regex: xmci('4', '4'),
            xmci45_regex: xmci('4', '5'),
            xlec_regex: xlec(),
            bands_regex: xact(),
        }
    }
}

fn lit(s: &str) -> (k: Token)
    ensures
        k@ == Tok::Lit(s@),
{
    Token::Lit(chars_of(s))
}

fn digits_tok() -> (k: Token)
    ensures
        k@ == digits(),
{
    Token::Run(CharClass::Range('0', '9'), 1, usize::MAX)
}

fn one_digit_tok() -> (k: Token)
    ensures
        k@ == one_digit(),
{
    Token::Run(CharClass::Range('0', '9'), 1, 1)
}

fn unquoted_tok() -> (k: Token)
    ensures
        k@ == unquoted(),
{
    Token::Run(CharClass::NotQuote, 0, usize::MAX)
}

fn unquoted_nonempty_tok() -> (k: Token)
    ensures
        k@ == unquoted_nonempty(),
{
    Token::Run(CharClass::NotQuote, 1, usize::MAX)
}

fn digit_list_tok() -> (k: Token)
    ensures
        k@ == digit_list(),
{
    Token::Run(CharClass::DigitOrComma, 1, usize::MAX)
}

fn quoted(tag: &str) -> (p: Pattern)
    ensures
        p@ == quoted_pattern(tag@),
{
    let p = Pattern { tokens: vec![lit(tag), unquoted_nonempty_tok(), lit("\"")] };
    assert(p@ =~= quoted_pattern(tag@));
    p
}

fn number(tag: &str) -> (p: Pattern)
    ensures
        p@ == number_pattern(tag@),
{
    let p = Pattern { tokens: vec![lit(tag), digits_tok()] };
    assert(p@ =~= number_pattern(tag@));
    p
}

fn csq() -> (p: Pattern)
    ensures
        p@ == csq_pattern(),
{
    let p = Pattern { tokens: vec![lit("+CSQ: "), digits_tok(), lit(","), digits_tok()] };
    assert(p@ =~= csq_pattern());
    p
}

fn cops() -> (p: Pattern)
    ensures
        p@ == cops_pattern(),
{
    let p = Pattern {
        tokens: vec![
            lit("+COPS: "),
            one_digit_tok(),
            lit(","),
            one_digit_tok(),
            lit(",\""),
            unquoted_tok(),
            lit("\","),
            one_digit_tok(),
        ],
    };
    assert(p@ =~= cops_pattern());
    p
}

fn cgcontrdp() -> (p: Pattern)
    ensures
        p@ == cgcontrdp_pattern(),
{
    let p = Pattern {
        tokens: vec![
            lit("+CGCONTRDP: "),
            one_digit_tok(),
            lit(","),
            digits_tok(),
            lit(",\""),
            unquoted_nonempty_tok(),
            lit("\",\""),
            digits_tok(),
            lit("."),
            digits_tok(),
            lit("."),
            digits_tok(),
            lit("."),
            digits_tok(),
            lit("."),
            digits_tok(),
            lit("."),
            digits_tok(),
            lit("."),
            digits_tok(),
            lit("."),
            digits_tok(),
            lit("\",\""),
            unquoted_nonempty_tok(),
            lit("\",\""),
            unquoted_nonempty_tok(),
            lit("\",\""),
            unquoted_nonempty_tok(),
            lit("\",\""),
            unquoted_tok(),
            lit("\",\""),
            unquoted_tok(),
            lit("\","),
            digits_tok(),
        ],
    };
    assert(p@ =~= cgcontrdp_pattern());
    p
}

fn xmci(lo: char, hi: char) -> (p: Pattern)
    ensures
        p@ == xmci_pattern(lo, hi),
{
    let p = Pattern {
        tokens: vec![
            lit("+XMCI: "),
            Token::Run(CharClass::Range(lo, hi), 1, 1),
            lit(","),
            digits_tok(),
            lit(","),
            digits_tok(),
            lit(",\""),
            unquoted_tok(),
            lit("\",\""),
            unquoted_tok(),
            lit("\",\""),
            unquoted_tok(),
            lit("\",\""),
            unquoted_tok(),
            lit("\",\""),
            unquoted_tok(),
            lit("\",\""),
            unquoted_tok(),
            lit("\","),
            digits_tok(),
            lit(","),
            digits_tok(),
            lit(","),
            Token::Run(CharClass::Range('-', '-'), 0, 1),
            digits_tok(),
            lit(",\""),
            unquoted_tok(),
            lit("\",\""),
            unquoted_tok(),
            lit("\""),
        ],
    };
    assert(p@ =~= xmci_pattern(lo, hi));
    p
}

fn xlec() -> (p: Pattern)
    ensures
        p@ == xlec_pattern(),
{
    let p = Pattern {
        tokens: vec![
            lit("+XLEC: "),
            digits_tok(),
            lit(","),
            digits_tok(),
            lit(","),
            digit_list_tok(),
            lit("BAND_LTE_"),
            digit_list_tok(),
        ],
    };
    assert(p@ =~= xlec_pattern());
    p
}

fn xact() -> (p: Pattern)
    ensures
        p@ == xact_pattern(),
{
    let p = Pattern {
        tokens: vec![
            lit("+XACT: "),
            digits_tok(),
            lit(","),
            digits_tok(),
            lit(","),
            Token::Run(CharClass::Range('0', '9'), 0, usize::MAX),
            lit(","),
            digit_list_tok(),
        ],
    };
    assert(p@ =~= xact_pattern());
    p
}

} // verus!
