//! Widths that a set of columns has and asks for, in symbols and pixels.

use vstd::prelude::*;
use crate::vim::WinColumn;

verus! {

/// A non-negative rational factor `numer / denom`.
#[derive(Clone, Copy, Debug, PartialEq, Eq)]
pub struct Ratio {
    pub numer: u32,
    pub denom: u32,
}

/// Estimated width of one text column in pixels: 8.0093.
pub const PIXELS_PER_SYMBOL_NUMER: u32 = 80093;
pub const PIXELS_PER_SYMBOL_DENOM: u32 = 10000;

/// Default factor from text-wrap columns to desired symbols: 1.2.
pub const DEFAULT_WIDTH_KOEFF_NUMER: u32 = 12;
pub const DEFAULT_WIDTH_KOEFF_DENOM: u32 = 10;

impl Ratio {
    pub open spec fn valid(self) -> bool {
        self.denom > 0
    }
}

/// `n / d` rounded to the nearest integer, halves away from zero.
pub open spec fn round_div(n: int, d: int) -> int {
    if n >= 0 {
        n / d + if 2 * (n % d) >= d { 1int } else { 0int }
    } else {
        -((-n) / d + if 2 * ((-n) % d) >= d { 1int } else { 0int })
    }
}

/// `x` brought into the range of `i64`, saturating at either end.
pub open spec fn saturate_i64(x: int) -> i64 {
    if x > i64::MAX {
        i64::MAX
    } else if x < i64::MIN {
        i64::MIN
    } else {
        x as i64
    }
}

/// `value * r`, rounded and saturated to `i64`.
pub open spec fn scale(value: int, r: Ratio) -> i64 {
    saturate_i64(round_div(value * r.numer, r.denom as int))
}

/// Sum of the text-wrap columns.
pub open spec fn sum_wrap(cols: Seq<WinColumn>) -> int
    decreases cols.len(),
{
    if cols.len() == 0 {
        0
    } else {
        sum_wrap(cols.drop_last()) + cols.last().text_wrap_column
    }
}

/// The largest right edge, and 0 where there is none larger.
pub open spec fn max_end(cols: Seq<WinColumn>) -> i64
    decreases cols.len(),
{
    if cols.len() == 0 {
        0
    } else {
        let m = max_end(cols.drop_last());
        if m >= cols.last().end {
            m
        } else {
            cols.last().end
        }
    }
}

pub open spec fn desired_symbols(cols: Seq<WinColumn>, koeff: Ratio) -> i64 {
    scale(sum_wrap(cols), koeff)
}

pub open spec fn pixels_per_symbol() -> Ratio {
    Ratio { numer: PIXELS_PER_SYMBOL_NUMER, denom: PIXELS_PER_SYMBOL_DENOM }
}

pub open spec fn to_pixels(symbols: i64) -> i64 {
    scale(symbols as int, pixels_per_symbol())
}

proof fn lemma_big_quotient(n: int, d: int)
    requires
        0 < d <= u32::MAX,
        n >= i128::MAX,
    ensures
        n / d > i64::MAX + 1,
{
    let b: int = 0x1_0000_0000_0000_0000;
    assert(d * b <= n) by (nonlinear_arith)
        requires
            0 < d <= u32::MAX,
            n >= i128::MAX,
            b == 0x1_0000_0000_0000_0000,
    ;
    vstd::arithmetic::div_mod::lemma_div_is_ordered(d * b, n, d);
    vstd::arithmetic::div_mod::lemma_div_multiples_vanish(b, d);
}

/// Rounds `p / d` half away from zero and saturates it to `i64`.
fn round_saturate(p: i128, d: u32) -> (r: i64)
    requires
        d > 0,
    ensures
        r == saturate_i64(round_div(p as int, d as int)),
{
    let neg = p < 0;
    let m: u128 = if neg {
        ((-(p + 1)) as u128) + 1
    } else {
        p as u128
    };
    assert(m as int == if neg { -(p as int) } else { p as int });
    let q: u128 = m / (d as u128);
    let rem: u128 = m % (d as u128);
    let up: u128 = if 2 * rem >= d as u128 { 1 } else { 0 };
    assert(q <= m) by {
        vstd::arithmetic::div_mod::lemma_div_is_ordered_by_denominator(m as int, 1, d as int);
    }
    let rounded: u128 = q + up;
    if !neg {
        if rounded > i64::MAX as u128 {
            i64::MAX
        } else {
            rounded as i64
        }
    } else {
        if rounded > 0x8000_0000_0000_0000u128 {
            i64::MIN
        } else {
            (-(rounded as i128)) as i64
        }
    }
}

/// `value * r`, rounded half away from zero and saturated to `i64`.
pub fn scale_ratio(value: i128, r: Ratio) -> (res: i64)
    requires
        r.valid(),
    ensures
        res == scale(value as int, r),
{
    match value.checked_mul(r.numer as i128) {
        Some(p) => round_saturate(p, r.denom),
        None => {
            let ghost n: int = value * r.numer;
            let ghost d: int = r.denom as int;
            assert(n < i128::MIN || n > i128::MAX);
            if value > 0 {
                proof {
                    assert(n >= 0) by (nonlinear_arith)
                        requires
                            value > 0,
                            r.numer >= 0,
                            n == value * r.numer,
                    ;
                    lemma_big_quotient(n, d);
                }
                i64::MAX
            } else {
                proof {
                    assert(n <= 0) by (nonlinear_arith)
                        requires
                            value <= 0,
                            r.numer >= 0,
                            n == value * r.numer,
                    ;
                    lemma_big_quotient(-n, d);
                }
                i64::MIN
            }
        },
    }
}

/// The desired width in symbols: the sum of the text-wrap columns times
/// `koeff`, rounded.
pub fn desired_symbol_width(cols: &Vec<WinColumn>, koeff: Ratio) -> (r: i64)
    requires
        koeff.valid(),
    ensures
        r == desired_symbols(cols@, koeff),
{
    let mut sum: i128 = 0;
    let mut k: usize = 0;
    while k < cols.len()
        invariant
            0 <= k <= cols@.len(),
            sum == sum_wrap(cols@.subrange(0, k as int)),
            -(k as int) * 0x8000_0000_0000_0000 <= sum <= (k as int) * 0x8000_0000_0000_0000,
        decreases cols.len() - k,
    {
        proof {
            assert(cols@.subrange(0, k + 1).drop_last() =~= cols@.subrange(0, k as int));
            assert((k as int) * 0x8000_0000_0000_0000 + 0x8000_0000_0000_0000 <= i128::MAX)
                by (nonlinear_arith)
                requires
                    k < usize::MAX,
            ;
        }
        sum = sum + cols[k].text_wrap_column as i128;
        k = k + 1;
    }
    assert(cols@.subrange(0, k as int) =~= cols@);
    scale_ratio(sum, koeff)
}

/// The current width in symbols: the largest right edge, 0 if none.
pub fn current_symbol_width(cols: &Vec<WinColumn>) -> (r: i64)
    ensures
        r == max_end(cols@),
{
    let mut m: i64 = 0;
    let mut k: usize = 0;
    while k < cols.len()
        invariant
            0 <= k <= cols@.len(),
            m == max_end(cols@.subrange(0, k as int)),
        decreases cols.len() - k,
    {
        proof {
            assert(cols@.subrange(0, k + 1).drop_last() =~= cols@.subrange(0, k as int));
        }
        if cols[k].end > m {
            m = cols[k].end;
        }
        k = k + 1;
    }
    assert(cols@.subrange(0, k as int) =~= cols@);
    m
}

/// A width in symbols converted to pixels, rounded.
pub fn symbols_to_pixels(symbols: i64) -> (r: i64)
    ensures
        r == to_pixels(symbols),
{
    scale_ratio(symbols as i128, Ratio { numer: PIXELS_PER_SYMBOL_NUMER, denom: PIXELS_PER_SYMBOL_DENOM })
}

} // verus!
