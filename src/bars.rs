//! The five-step bar gauge shown beside each signal metric.
use vstd::prelude::*;
use vstd::string::StringExecFns;

verus! {

/// `value` placed within `[min, max]` as a percentage, clamped to 0..=100.
pub open spec fn gauge_percent(value: int, min: int, max: int) -> int {
    if value < min {
        0
    } else if value >= max {
        100
    } else {
        (value - min) * 100 / (max - min)
    }
}

/// The number of filled bars, 0 to 5, for a percentage.
pub open spec fn level_of_percent(p: int) -> int {
    if p >= 100 {
        5
    } else if p >= 75 {
        4
    } else if p >= 50 {
        3
    } else if p >= 25 {
        2
    } else if p >= 0 {
        1
    } else {
        0
    }
}

pub open spec fn gauge_level(value: int, min: int, max: int) -> int {
    level_of_percent(gauge_percent(value, min, max))
}

/// The gauge never shows more than five bars, shows five from `max` on (unless the
/// value is also below `min`, possible only where `min > max`), one below `min`, and
/// never fewer for a larger value.
pub proof fn lemma_gauge_level(value: int, other: int, min: int, max: int)
    ensures
        0 <= gauge_level(value, min, max) <= 5,
        value >= max && value >= min ==> gauge_level(value, min, max) == 5,
        value < min ==> gauge_level(value, min, max) == 1,
        value <= other ==> gauge_level(value, min, max) <= gauge_level(other, min, max),
{
    lemma_percent_range(value, min, max);
    lemma_percent_range(other, min, max);
    if value <= other && min <= value && other < max {
        assert((value - min) * 100 <= (other - min) * 100) by (nonlinear_arith)
            requires
                value <= other,
        ;
        vstd::arithmetic::div_mod::lemma_div_is_ordered(
            (value - min) * 100,
            (other - min) * 100,
            max - min,
        );
    }
}

proof fn lemma_percent_range(value: int, min: int, max: int)
    ensures
        0 <= gauge_percent(value, min, max) <= 100,
{
    if min <= value < max {
        assert(0 <= (value - min) * 100 / (max - min) <= 100) by (nonlinear_arith)
            requires
                min <= value < max,
        ;
    }
}

/// Five glyphs: `filled` full blocks followed by light shades.
pub open spec fn gauge_text(filled: int) -> Seq<char> {
    Seq::new(5, |i: int| if i < filled { '█' } else { '░' })
}

/// Renders `value` on the range `[min, max]` as a bar of five glyphs.
pub fn get_bar(value: i32, min: i32, max: i32) -> (bar: String)
    ensures
        bar@ == gauge_text(gauge_level(value as int, min as int, max as int)),
{
    let normalized: i64 = if value < min {
        0
    } else if value >= max {
        100
    } else {
        let num: i64 = (value as i64 - min as i64) * 100;
        num / (max as i64 - min as i64)
    };
    let bars: usize = if normalized >= 100 {
        5
    } else if normalized >= 75 {
        4
    } else if normalized >= 50 {
        3
    } else if normalized >= 25 {
        2
    } else if normalized >= 0 {
        1
    } else {
        0
    };
    assert(bars == gauge_level(value as int, min as int, max as int));
    let mut bar = String::new();
    let mut i: usize = 0;
    while i < 5
        invariant
            i <= 5,
            bars <= 5,
            bar@ == gauge_text(bars as int).subrange(0, i as int),
        decreases 5 - i,
    {
        proof {
            reveal_strlit("█");
            reveal_strlit("░");
        }
        if i < bars {
            bar.append("█");
        } else {
            bar.append("░");
        }
        assert(bar@ =~= gauge_text(bars as int).subrange(0, i + 1));
        i = i + 1;
    }
    assert(bar@ =~= gauge_text(bars as int));
    bar
}

} // verus!
