//! Restricted regular expressions for modem replies: a pattern is a sequence of
//! tokens, each either a literal or a bounded repetition of one character class.
//! Repetition is possessive (a run takes every character it can, up to its
//! bound), and a search reports the leftmost position where the whole pattern
//! matches.
use vstd::prelude::*;
use crate::text::{chars_of, is_digit};

verus! {

/// A set of characters that a run may consist of.
pub enum CharClass {
    /// Every character from the first to the second, both included.
    Range(char, char),
    /// Every character but the double quote.
    NotQuote,
    /// Decimal digits and the comma.
    DigitOrComma,
}

impl CharClass {
    pub open spec fn has(self, c: char) -> bool {
        match self {
            CharClass::Range(lo, hi) => lo <= c && c <= hi,
            CharClass::NotQuote => c != '"',
            CharClass::DigitOrComma => is_digit(c) || c == ',',
        }
    }

    pub fn contains(&self, c: char) -> (r: bool)
        ensures
            r == self.has(c),
    {
        match self {
            CharClass::Range(lo, hi) => *lo <= c && c <= *hi,
            CharClass::NotQuote => c != '"',
            CharClass::DigitOrComma => ('0' <= c && c <= '9') || c == ',',
        }
    }
}

/// The mathematical form of a token.
pub enum Tok {
    Lit(Seq<char>),
    Run(CharClass, nat, nat),
}

/// One step of a pattern.
pub enum Token {
    /// Exactly these characters.
    Lit(Vec<char>),
    /// As many characters of the class as follow, up to the maximum; at least the minimum.
    Run(CharClass, usize, usize),
}

impl View for Token {
    type V = Tok;

    open spec fn view(&self) -> Tok {
        match self {
            Token::Lit(l) => Tok::Lit(l@),
            Token::Run(c, min, max) => Tok::Run(*c, *min as nat, *max as nat),
        }
    }
}

/// A sequence of tokens matched one after the other.
pub struct Pattern {
    pub tokens: Vec<Token>,
}

impl View for Pattern {
    type V = Seq<Tok>;

    open spec fn view(&self) -> Seq<Tok> {
        self.tokens@.map_values(|k: Token| k@)
    }
}

/// Where a run of `c` that starts at `pos` and takes at most `max` characters ends.
pub open spec fn run_end(t: Seq<char>, pos: int, c: CharClass, max: int) -> int
    decreases t.len() - pos,
{
    if 0 <= pos < t.len() && max > 0 && c.has(t[pos]) {
        run_end(t, pos + 1, c, max - 1)
    } else {
        pos
    }
}

/// Where `tok` ends when it is matched at `pos`, if it matches there.
pub open spec fn tok_end(t: Seq<char>, pos: int, tok: Tok) -> Option<int> {
    match tok {
        Tok::Lit(l) => if 0 <= pos && pos + l.len() <= t.len() && t.subrange(pos, pos + l.len())
            == l {
            Some(pos + l.len())
        } else {
            None
        },
        Tok::Run(c, min, max) => {
            let e = run_end(t, pos, c, max as int);
            if e - pos >= min {
                Some(e)
            } else {
                None
            }
        },
    }
}

/// The end positions of the first `k` tokens of `toks` matched from `pos`.
pub open spec fn ends_upto(t: Seq<char>, pos: int, toks: Seq<Tok>, k: int) -> Option<Seq<int>>
    decreases k,
{
    if k <= 0 {
        Some(Seq::empty())
    } else {
        match ends_upto(t, pos, toks, k - 1) {
            None => None,
            Some(es) => {
                let p = if k - 1 == 0 {
                    pos
                } else {
                    es.last()
                };
                match tok_end(t, p, toks[k - 1]) {
                    None => None,
                    Some(e) => Some(es.push(e)),
                }
            },
        }
    }
}

/// The end positions of all tokens when the whole pattern matches at `pos`.
pub open spec fn match_at(t: Seq<char>, pos: int, toks: Seq<Tok>) -> Option<Seq<int>> {
    ends_upto(t, pos, toks, toks.len() as int)
}

/// Where the match at `pos` ends.
pub open spec fn match_end(t: Seq<char>, pos: int, toks: Seq<Tok>) -> int {
    if toks.len() == 0 {
        pos
    } else {
        match_at(t, pos, toks)->0.last()
    }
}

/// Where the search for the next match resumes after the match at `pos`.
pub open spec fn next_search(t: Seq<char>, pos: int, toks: Seq<Tok>) -> int {
    let e = match_end(t, pos, toks);
    if pos + 1 < e <= t.len() {
        e
    } else {
        pos + 1
    }
}

/// The start positions of the successive non-overlapping matches found from `pos` on.
pub open spec fn matches_from(t: Seq<char>, toks: Seq<Tok>, pos: int) -> Seq<int>
    decreases t.len() + 1 - pos,
{
    if pos < 0 || pos > t.len() {
        Seq::empty()
    } else if match_at(t, pos, toks) is Some {
        seq![pos] + matches_from(t, toks, next_search(t, pos, toks))
    } else {
        matches_from(t, toks, pos + 1)
    }
}

/// The leftmost match of the pattern in `t`.
pub open spec fn first_match(t: Seq<char>, toks: Seq<Tok>) -> Option<int> {
    let ms = matches_from(t, toks, 0);
    if ms.len() > 0 {
        Some(ms[0])
    } else {
        None
    }
}

/// Where token `k` of the match at `pos` starts.
pub open spec fn tok_start(t: Seq<char>, pos: int, toks: Seq<Tok>, k: int) -> int {
    if k == 0 {
        pos
    } else {
        match_at(t, pos, toks)->0[k - 1]
    }
}

/// The text that tokens `k1` to `k2` (both included) of the match at `pos` cover.
pub open spec fn span(t: Seq<char>, pos: int, toks: Seq<Tok>, k1: int, k2: int) -> Seq<char> {
    t.subrange(tok_start(t, pos, toks, k1), match_at(t, pos, toks)->0[k2])
}

/// The text that token `k` of the match at `pos` covers.
pub open spec fn cap(t: Seq<char>, pos: int, toks: Seq<Tok>, k: int) -> Seq<char> {
    span(t, pos, toks, k, k)
}

/// `ends` holds the end of each token of the match of `toks` at `i`.
pub open spec fn found(t: Seq<char>, toks: Seq<Tok>, i: int, ends: Seq<usize>) -> bool {
    &&& 0 <= i <= t.len()
    &&& match_at(t, i, toks) is Some
    &&& match_at(t, i, toks)->0.len() == toks.len()
    &&& ends.len() == toks.len()
    &&& forall|k: int|
        0 <= k < toks.len() ==> {
            &&& (#[trigger] ends[k]) as int == match_at(t, i, toks)->0[k]
            &&& tok_start(t, i, toks, k) <= ends[k] <= t.len()
        }
}

pub proof fn lemma_found_ordered(
    t: Seq<char>,
    toks: Seq<Tok>,
    i: int,
    ends: Seq<usize>,
    k1: int,
    k2: int,
)
    requires
        found(t, toks, i, ends),
        0 <= k1 <= k2 < toks.len(),
    ensures
        tok_start(t, i, toks, k1) <= ends[k2],
    decreases k2 - k1,
{
    if k1 < k2 {
        lemma_found_ordered(t, toks, i, ends, k1, k2 - 1);
        assert(ends[k2 - 1] as int == match_at(t, i, toks)->0[k2 - 1]);
        assert(tok_start(t, i, toks, k2) <= ends[k2]);
    }
}

/// Where tokens `k1` to `k2` of a found match start and end.
pub fn span_bounds(p: &Pattern, t: &Vec<char>, i: usize, ends: &Vec<usize>, k1: usize, k2: usize) -> (r: (usize, usize))
    requires
        found(t@, p@, i as int, ends@),
        k1 <= k2 < p@.len(),
    ensures
        r.0 as int == tok_start(t@, i as int, p@, k1 as int),
        r.1 as int == match_at(t@, i as int, p@)->0[k2 as int],
        r.0 <= r.1 <= t@.len(),
        t@.subrange(r.0 as int, r.1 as int) == span(t@, i as int, p@, k1 as int, k2 as int),
{
    proof {
        lemma_found_ordered(t@, p@, i as int, ends@, k1 as int, k2 as int);
        assert(ends@[k2 as int] as int == match_at(t@, i as int, p@)->0[k2 as int]);
        if k1 > 0 {
            assert(ends@[k1 - 1] as int == match_at(t@, i as int, p@)->0[k1 - 1]);
        }
    }
    let a = if k1 == 0 {
        i
    } else {
        ends[k1 - 1]
    };
    (a, ends[k2])
}

pub proof fn lemma_ends_upto_fails(t: Seq<char>, pos: int, toks: Seq<Tok>, k: int, m: int)
    requires
        0 <= k <= m,
        ends_upto(t, pos, toks, k) is None,
    ensures
        ends_upto(t, pos, toks, m) is None,
    decreases m - k,
{
    if m > k {
        lemma_ends_upto_fails(t, pos, toks, k, m - 1);
    }
}

fn run_end_exec(t: &Vec<char>, pos: usize, c: &CharClass, max: usize) -> (e: usize)
    requires
        pos <= t@.len(),
    ensures
        e as int == run_end(t@, pos as int, *c, max as int),
        pos <= e <= t@.len(),
{
    let mut i: usize = pos;
    let mut left: usize = max;
    while i < t.len() && left > 0 && c.contains(t[i])
        invariant
            pos <= i <= t@.len(),
            run_end(t@, pos as int, *c, max as int) == run_end(t@, i as int, *c, left as int),
        decreases t@.len() - i,
    {
        i = i + 1;
        left = left - 1;
    }
    i
}

fn tok_end_exec(t: &Vec<char>, pos: usize, tok: &Token) -> (r: Option<usize>)
    requires
        pos <= t@.len(),
    ensures
        r is Some <==> tok_end(t@, pos as int, tok@) is Some,
        r is Some ==> r->0 as int == tok_end(t@, pos as int, tok@)->0,
        r is Some ==> pos <= r->0 <= t@.len(),
{
    match tok {
        Token::Lit(l) => {
            let n = l.len();
            if n > t.len() - pos {
                return None;
            }
            let mut j: usize = 0;
            while j < n
                invariant
                    n == l@.len(),
                    tok@ == Tok::Lit(l@),
                    pos + n <= t@.len() <= usize::MAX,
                    j <= n,
                    t@.subrange(pos as int, pos + j) == l@.subrange(0, j as int),
                decreases n - j,
            {
                let c = t[pos + j];
                if c != l[j] {
                    assert(t@.subrange(pos as int, pos + n)[j as int] == c);
                    assert(t@.subrange(pos as int, pos + n) != l@);
                    return None;
                }
                assert(t@.subrange(pos as int, pos + j + 1) =~= l@.subrange(0, j + 1));
                j = j + 1;
            }
            assert(l@.subrange(0, n as int) =~= l@);
            Some(pos + n)
        },
        Token::Run(c, min, max) => {
            let e = run_end_exec(t, pos, c, *max);
            if e - pos >= *min {
                Some(e)
            } else {
                None
            }
        },
    }
}

impl Pattern {
    /// Matches the whole pattern at `pos`: the end of each token, or `None`.
    pub fn match_here(&self, t: &Vec<char>, pos: usize) -> (r: Option<Vec<usize>>)
        requires
            pos <= t@.len(),
        ensures
            r is Some <==> match_at(t@, pos as int, self@) is Some,
            r is Some ==> found(t@, self@, pos as int, r->0@),
    {
        let n = self.tokens.len();
        let mut ends: Vec<usize> = Vec::new();
        let mut k: usize = 0;
        let mut p: usize = pos;
        while k < n
            invariant
                n == self@.len(),
                k <= n,
                pos <= p <= t@.len(),
                ends@.len() == k,
                ends_upto(t@, pos as int, self@, k as int) is Some,
                ends_upto(t@, pos as int, self@, k as int)->0.len() == k,
                forall|j: int|
                    0 <= j < k ==> (#[trigger] ends@[j]) as int == ends_upto(
                        t@,
                        pos as int,
                        self@,
                        k as int,
                    )->0[j],
                forall|j: int|
                    0 <= j < k ==> (if j == 0 {
                        pos as int
                    } else {
                        ends@[j - 1] as int
                    }) <= #[trigger] ends@[j] <= t@.len(),
                p == if k == 0 {
                    pos
                } else {
                    ends@[k - 1]
                },
            decreases n - k,
        {
            assert(self@[k as int] == self.tokens@[k as int]@);
            let e = tok_end_exec(t, p, &self.tokens[k]);
            match e {
                None => {
                    proof {
                        lemma_ends_upto_fails(t@, pos as int, self@, k + 1, n as int);
                    }
                    return None;
                },
                Some(e) => {
                    ends.push(e);
                    p = e;
                    k = k + 1;
                },
            }
        }
        proof {
            assert forall|j: int| 0 <= j < n implies tok_start(t@, pos as int, self@, j) <= #[trigger] ends@[j]
                <= t@.len() by {
                if j > 0 {
                    assert(ends@[j - 1] as int == match_at(t@, pos as int, self@)->0[j - 1]);
                }
            }
        }
        Some(ends)
    }

    /// The leftmost match at or after `from`: its start and the end of each token.
    pub fn find_from(&self, t: &Vec<char>, from: usize) -> (r: Option<(usize, Vec<usize>)>)
        requires
            from <= t@.len(),
        ensures
            match r {
                None => matches_from(t@, self@, from as int) == Seq::<int>::empty(),
                Some((i, ends)) => {
                    &&& from <= i
                    &&& found(t@, self@, i as int, ends@)
                    &&& matches_from(t@, self@, from as int) == seq![i as int] + matches_from(
                        t@,
                        self@,
                        next_search(t@, i as int, self@),
                    )
                },
            },
    {
        let mut i: usize = from;
        loop
            invariant
                from <= i <= t@.len(),
                matches_from(t@, self@, from as int) == matches_from(t@, self@, i as int),
            decreases t@.len() - i,
        {
            match self.match_here(t, i) {
                Some(ends) => {
                    return Some((i, ends));
                },
                None => {
                    if i == t.len() {
                        assert(matches_from(t@, self@, i + 1) == Seq::<int>::empty());
                        return None;
                    }
                    i = i + 1;
                },
            }
        }
    }
}

impl Pattern {
    /// The text that tokens `k1` to `k2` cover in the leftmost match in `s`.
    pub fn capture(&self, s: &str, k1: usize, k2: usize) -> (r: Option<String>)
        requires
            k1 <= k2 < self@.len(),
        ensures
            r is None <==> first_match(s@, self@) is None,
            r is Some ==> r->0@ == span(s@, first_match(s@, self@)->0, self@, k1 as int, k2 as int),
    {
        let t = chars_of(s);
        match self.find_from(&t, 0) {
            None => None,
            Some((i, ends)) => {
                let (a, b) = span_bounds(self, &t, i, &ends, k1, k2);
                Some(s.substring_char(a, b).to_owned())
            },
        }
    }
}

} // verus!
