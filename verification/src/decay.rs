//! How much of a velocity friction leaves.
//!
//! Friction leaves one tenth of a velocity per second. The factor for a
//! time is the product of four powers of ten: an exact one for the whole
//! seconds, and one each from a table for the tenths, the hundredths and the
//! thousandths of a second. Every table entry is the power of ten rounded to
//! the nearest unit of [`DECAY_ONE`], and every product is rounded to nearest,
//! so a factor is within two units of the true power.
use vstd::prelude::*;
use crate::units::{
    div_to_nearest, lemma_nearest_is_exact, lemma_nearest_quotient, lemma_product_bound,
};

verus! {

/// The fixed-point one of decay factors.
pub const DECAY_ONE: u64 = 1_000_000_000_000;

/// The number of whole seconds after which nothing is left.
pub const DECAY_SECONDS: u32 = 13;

/// One tenth to the power of `digit` tenths, for a digit from 0 to 9.
pub open spec fn tenths_factor(digit: int) -> int {
    if digit == 0 {
        1_000_000_000_000
    } else if digit == 1 {
        794_328_234_724
    } else if digit == 2 {
        630_957_344_480
    } else if digit == 3 {
        501_187_233_627
    } else if digit == 4 {
        398_107_170_553
    } else if digit == 5 {
        316_227_766_017
    } else if digit == 6 {
        251_188_643_151
    } else if digit == 7 {
        199_526_231_497
    } else if digit == 8 {
        158_489_319_246
    } else {
        125_892_541_179
    }
}

/// One tenth to the power of `digit` hundredths, for a digit from 0 to 9.
pub open spec fn hundredths_factor(digit: int) -> int {
    if digit == 0 {
        1_000_000_000_000
    } else if digit == 1 {
        977_237_220_956
    } else if digit == 2 {
        954_992_586_021
    } else if digit == 3 {
        933_254_300_797
    } else if digit == 4 {
        912_010_839_356
    } else if digit == 5 {
        891_250_938_134
    } else if digit == 6 {
        870_963_589_956
    } else if digit == 7 {
        851_138_038_202
    } else if digit == 8 {
        831_763_771_103
    } else {
        812_830_516_164
    }
}

/// One tenth to the power of `digit` thousandths, for a digit from 0 to 9.
pub open spec fn thousandths_factor(digit: int) -> int {
    if digit == 0 {
        1_000_000_000_000
    } else if digit == 1 {
        997_700_063_823
    } else if digit == 2 {
        995_405_417_352
    } else if digit == 3 {
        993_116_048_421
    } else if digit == 4 {
        990_831_944_893
    } else if digit == 5 {
        988_553_094_657
    } else if digit == 6 {
        986_279_485_631
    } else if digit == 7 {
        984_011_105_761
    } else if digit == 8 {
        981_747_943_020
    } else {
        979_489_985_409
    }
}

/// Ten to the power of `exponent`, for an exponent from 0 to 12.
pub open spec fn power_of_ten(exponent: int) -> int {
    if exponent == 0 {
        1
    } else if exponent == 1 {
        10
    } else if exponent == 2 {
        100
    } else if exponent == 3 {
        1_000
    } else if exponent == 4 {
        10_000
    } else if exponent == 5 {
        100_000
    } else if exponent == 6 {
        1_000_000
    } else if exponent == 7 {
        10_000_000
    } else if exponent == 8 {
        100_000_000
    } else if exponent == 9 {
        1_000_000_000
    } else if exponent == 10 {
        10_000_000_000
    } else if exponent == 11 {
        100_000_000_000
    } else {
        1_000_000_000_000
    }
}

/// The factor for a time below one second.
pub open spec fn sub_second_factor(millis: int) -> int {
    div_to_nearest(
        div_to_nearest(
            tenths_factor(millis / 100) * hundredths_factor(millis / 10 % 10),
            DECAY_ONE as int,
        ) * thousandths_factor(millis % 10),
        DECAY_ONE as int,
    )
}

/// The factor by which friction scales a velocity over `millis`
/// milliseconds, in units of [`DECAY_ONE`]: one tenth to the power of the
/// time in seconds.
pub open spec fn decay_factor(millis: nat) -> nat {
    if millis / 1000 >= DECAY_SECONDS {
        0
    } else {
        div_to_nearest(sub_second_factor(millis as int % 1000), power_of_ten(millis as int / 1000))
            as nat
    }
}

/// The table of tenths.
fn tenths(digit: u32) -> (factor: u64)
    ensures
        factor == tenths_factor(digit as int),
        factor <= DECAY_ONE,
{
    if digit == 0 {
        1_000_000_000_000
    } else if digit == 1 {
        794_328_234_724
    } else if digit == 2 {
        630_957_344_480
    } else if digit == 3 {
        501_187_233_627
    } else if digit == 4 {
        398_107_170_553
    } else if digit == 5 {
        316_227_766_017
    } else if digit == 6 {
        251_188_643_151
    } else if digit == 7 {
        199_526_231_497
    } else if digit == 8 {
        158_489_319_246
    } else {
        125_892_541_179
    }
}

/// The table of hundredths.
fn hundredths(digit: u32) -> (factor: u64)
    ensures
        factor == hundredths_factor(digit as int),
        factor <= DECAY_ONE,
{
    if digit == 0 {
        1_000_000_000_000
    } else if digit == 1 {
        977_237_220_956
    } else if digit == 2 {
        954_992_586_021
    } else if digit == 3 {
        933_254_300_797
    } else if digit == 4 {
        912_010_839_356
    } else if digit == 5 {
        891_250_938_134
    } else if digit == 6 {
        870_963_589_956
    } else if digit == 7 {
        851_138_038_202
    } else if digit == 8 {
        831_763_771_103
    } else {
        812_830_516_164
    }
}

/// The table of thousandths.
fn thousandths(digit: u32) -> (factor: u64)
    ensures
        factor == thousandths_factor(digit as int),
        factor <= DECAY_ONE,
{
    if digit == 0 {
        1_000_000_000_000
    } else if digit == 1 {
        997_700_063_823
    } else if digit == 2 {
        995_405_417_352
    } else if digit == 3 {
        993_116_048_421
    } else if digit == 4 {
        990_831_944_893
    } else if digit == 5 {
        988_553_094_657
    } else if digit == 6 {
        986_279_485_631
    } else if digit == 7 {
        984_011_105_761
    } else if digit == 8 {
        981_747_943_020
    } else {
        979_489_985_409
    }
}

/// The table of powers of ten.
fn ten_to(exponent: u32) -> (factor: u64)
    ensures
        factor == power_of_ten(exponent as int),
        1 <= factor <= DECAY_ONE,
{
    if exponent == 0 {
        1
    } else if exponent == 1 {
        10
    } else if exponent == 2 {
        100
    } else if exponent == 3 {
        1_000
    } else if exponent == 4 {
        10_000
    } else if exponent == 5 {
        100_000
    } else if exponent == 6 {
        1_000_000
    } else if exponent == 7 {
        10_000_000
    } else if exponent == 8 {
        100_000_000
    } else if exponent == 9 {
        1_000_000_000
    } else if exponent == 10 {
        10_000_000_000
    } else if exponent == 11 {
        100_000_000_000
    } else {
        1_000_000_000_000
    }
}

/// `product / DECAY_ONE`, rounded to nearest.
fn rescale(product: u128) -> (factor: u64)
    requires
        product <= DECAY_ONE * DECAY_ONE,
    ensures
        factor == div_to_nearest(product as int, DECAY_ONE as int),
        factor <= DECAY_ONE,
{
    proof {
        lemma_nearest_quotient(
            product as int,
            DECAY_ONE as int,
            (DECAY_ONE * DECAY_ONE) as int,
        );
        assert(div_to_nearest(product as int, DECAY_ONE as int) <= DECAY_ONE) by (nonlinear_arith)
            requires
                0 <= product <= DECAY_ONE * DECAY_ONE,
                DECAY_ONE == 1_000_000_000_000,
        ;
    }
    ((product + DECAY_ONE as u128 / 2) / DECAY_ONE as u128) as u64
}

/// The factor by which friction scales a velocity over the given time.
pub fn decay(millis: u32) -> (factor: u64)
    ensures
        factor == decay_factor(millis as nat),
        factor <= DECAY_ONE,
{
    let seconds = millis / 1000;
    if seconds >= DECAY_SECONDS {
        return 0;
    }
    let rest = millis % 1000;
    let tenth = tenths(rest / 100);
    let hundredth = hundredths(rest / 10 % 10);
    let thousandth = thousandths(rest % 10);
    proof {
        lemma_product_bound(
            tenth as int,
            hundredth as int,
            DECAY_ONE as int,
            DECAY_ONE as int,
        );
    }
    let coarse = rescale(tenth as u128 * hundredth as u128);
    proof {
        lemma_product_bound(
            coarse as int,
            thousandth as int,
            DECAY_ONE as int,
            DECAY_ONE as int,
        );
    }
    let fine = rescale(coarse as u128 * thousandth as u128);
    let divisor = ten_to(seconds);
    proof {
        lemma_nearest_quotient(fine as int, divisor as int, DECAY_ONE as int);
    }
    ((fine + divisor / 2) / divisor) as u64
}

/// A decay factor never exceeds one.
pub proof fn lemma_decay_factor_is_at_most_one(millis: nat)
    ensures
        decay_factor(millis) <= DECAY_ONE,
{
    if millis / 1000 < DECAY_SECONDS {
        let rest = millis as int % 1000;
        let tenth = tenths_factor(rest / 100);
        let hundredth = hundredths_factor(rest / 10 % 10);
        let thousandth = thousandths_factor(rest % 10);
        lemma_product_bound(tenth, hundredth, DECAY_ONE as int, DECAY_ONE as int);
        let coarse = div_to_nearest(tenth * hundredth, DECAY_ONE as int);
        lemma_scaled_down_is_at_most_one(tenth * hundredth);
        lemma_product_bound(coarse, thousandth, DECAY_ONE as int, DECAY_ONE as int);
        let fine = div_to_nearest(coarse * thousandth, DECAY_ONE as int);
        lemma_scaled_down_is_at_most_one(coarse * thousandth);
        lemma_nearest_quotient(fine, power_of_ten(millis as int / 1000), DECAY_ONE as int);
    }
}

/// The product of two factors of at most one is, scaled down, at most one
/// and not negative.
proof fn lemma_scaled_down_is_at_most_one(product: int)
    by (nonlinear_arith)
    requires
        0 <= product <= 1_000_000_000_000 * 1_000_000_000_000,
    ensures
        0 <= div_to_nearest(product, 1_000_000_000_000) <= 1_000_000_000_000,
{
}

/// At the start of a second the factor below the second is one.
pub proof fn lemma_no_time_no_decay()
    ensures
        sub_second_factor(0) == DECAY_ONE,
        decay_factor(0) == DECAY_ONE,
{
    let one = 1_000_000_000_000int;
    lemma_nearest_is_exact(one, one);
    lemma_nearest_is_exact(one, 1);
    assert(tenths_factor(0int / 100) * hundredths_factor(0int / 10 % 10) == one * one);
    assert(one * thousandths_factor(0int % 10) == one * one);
    assert(one * 1 == one);
}

/// Over whole seconds the factor is exact: one, a tenth, a hundredth and
/// so on, and nothing from the thirteenth second.
pub proof fn lemma_decay_over_whole_seconds(seconds: nat)
    ensures
        seconds < DECAY_SECONDS ==> decay_factor(1000 * seconds) * power_of_ten(seconds as int)
            == DECAY_ONE,
        seconds >= DECAY_SECONDS ==> decay_factor(1000 * seconds) == 0,
{
    let one = 1_000_000_000_000int;
    assert((1000 * seconds) / 1000 == seconds);
    assert((1000 * seconds) as int % 1000 == 0);
    lemma_no_time_no_decay();
    if seconds < DECAY_SECONDS {
        let divisor = power_of_ten(seconds as int);
        assert(decay_factor(1000 * seconds) == div_to_nearest(one, divisor));
        if seconds == 0 {
            lemma_nearest_is_exact(1_000_000_000_000, 1);
            assert(1_000_000_000_000 * 1 == one);
        } else if seconds == 1 {
            lemma_nearest_is_exact(100_000_000_000, 10);
            assert(100_000_000_000 * 10 == one);
        } else if seconds == 2 {
            lemma_nearest_is_exact(10_000_000_000, 100);
            assert(10_000_000_000 * 100 == one);
        } else if seconds == 3 {
            lemma_nearest_is_exact(1_000_000_000, 1_000);
            assert(1_000_000_000 * 1_000 == one);
        } else if seconds == 4 {
            lemma_nearest_is_exact(100_000_000, 10_000);
            assert(100_000_000 * 10_000 == one);
        } else if seconds == 5 {
            lemma_nearest_is_exact(10_000_000, 100_000);
            assert(10_000_000 * 100_000 == one);
        } else if seconds == 6 {
            lemma_nearest_is_exact(1_000_000, 1_000_000);
            assert(1_000_000 * 1_000_000 == one);
        } else if seconds == 7 {
            lemma_nearest_is_exact(100_000, 10_000_000);
            assert(100_000 * 10_000_000 == one);
        } else if seconds == 8 {
            lemma_nearest_is_exact(10_000, 100_000_000);
            assert(10_000 * 100_000_000 == one);
        } else if seconds == 9 {
            lemma_nearest_is_exact(1_000, 1_000_000_000);
            assert(1_000 * 1_000_000_000 == one);
        } else if seconds == 10 {
            lemma_nearest_is_exact(100, 10_000_000_000);
            assert(100 * 10_000_000_000 == one);
        } else if seconds == 11 {
            lemma_nearest_is_exact(10, 100_000_000_000);
            assert(10 * 100_000_000_000 == one);
        } else {
            lemma_nearest_is_exact(1, 1_000_000_000_000);
            assert(1 * 1_000_000_000_000 == one);
        }
    }
}

} // verus!
