//! When a failed attempt may be repeated.
use vstd::arithmetic::power2::{lemma_pow2_pos, lemma_pow2_strictly_increases, lemma_pow2_unfold, pow2};
use vstd::prelude::*;

verus! {

/// The bounds of the delay between a failed attempt and the next one.
#[derive(Clone, Copy, Debug)]
pub struct RetryPolicy {
    pub base_seconds: i64,
    pub max_seconds: i64,
}

impl RetryPolicy {
    /// The delays a configuration may ask for: ordered, and at most a day.
    pub open spec fn bounded(self) -> bool {
        1 <= self.base_seconds <= self.max_seconds <= 86_400
    }
}

/// How often the base delay is doubled after so many attempts.
pub open spec fn doublings(attempts: int) -> nat {
    if 1 <= attempts <= 62 {
        (attempts - 1) as nat
    } else {
        62
    }
}

/// `value`, or the end of the `i64` range that it lies beyond.
pub open spec fn saturated(value: int) -> int {
    if value < i64::MIN {
        i64::MIN as int
    } else if value > i64::MAX {
        i64::MAX as int
    } else {
        value
    }
}

/// The seconds until the next attempt: the base, doubled with every attempt so
/// far, but never more than the maximum.
pub open spec fn delay_seconds(base: int, maximum: int, attempts: int) -> int {
    let doubled = saturated(base * pow2(doublings(attempts)));
    if doubled < maximum {
        doubled
    } else {
        maximum
    }
}

/// The seconds until the attempt after the one numbered `attempts`.
pub fn retry_delay(base: i64, maximum: i64, attempts: i32) -> (r: i64)
    ensures
        r == delay_seconds(base as int, maximum as int, attempts as int),
{
    let exponent: u64 = if 1 <= attempts && attempts <= 62 { (attempts - 1) as u64 } else { 62 };
    let ghost power = pow2(exponent as nat);
    proof {
        vstd::arithmetic::power2::lemma2_to64_rest();
        assert(pow2(62) == 0x4000_0000_0000_0000);
        if exponent < 62 {
            lemma_pow2_strictly_increases(exponent as nat, 62);
        }
        lemma_pow2_pos(exponent as nat);
        vstd::bits::lemma_u64_shl_is_mul(1, exponent);
    }
    let factor: i128 = (1u64 << exponent) as i128;
    proof {
        assert(-0x8000_0000_0000_0000 * 0x4000_0000_0000_0000 <= base * power
            <= 0x8000_0000_0000_0000 * 0x4000_0000_0000_0000) by (nonlinear_arith)
            requires
                -0x8000_0000_0000_0000 <= base <= 0x8000_0000_0000_0000,
                0 < power <= 0x4000_0000_0000_0000,
        ;
    }
    let product: i128 = base as i128 * factor;
    let doubled: i64 = if product < i64::MIN as i128 {
        i64::MIN
    } else if product > i64::MAX as i128 {
        i64::MAX
    } else {
        product as i64
    };
    if doubled < maximum {
        doubled
    } else {
        maximum
    }
}

/// Under a bounded policy every delay lies between the base and the maximum, the
/// first is the base, and each further attempt doubles it until it reaches the
/// maximum.
pub proof fn law_retry_delay_doubles_up_to_the_maximum(policy: RetryPolicy, attempts: int)
    requires
        policy.bounded(),
    ensures
        delay_seconds(policy.base_seconds as int, policy.max_seconds as int, 1)
            == policy.base_seconds,
        policy.base_seconds <= delay_seconds(
            policy.base_seconds as int,
            policy.max_seconds as int,
            attempts,
        ) <= policy.max_seconds,
        attempts >= 1 ==> delay_seconds(
            policy.base_seconds as int,
            policy.max_seconds as int,
            attempts + 1,
        ) == ({
            let twice = 2 * delay_seconds(
                policy.base_seconds as int,
                policy.max_seconds as int,
                attempts,
            );
            if twice < policy.max_seconds {
                twice
            } else {
                policy.max_seconds as int
            }
        }),
{
    let base = policy.base_seconds as int;
    let e = doublings(attempts);
    vstd::arithmetic::power2::lemma2_to64_rest();
    vstd::arithmetic::power2::lemma2_to64();
    assert(base * pow2(doublings(1)) == base) by (nonlinear_arith)
        requires
            pow2(doublings(1)) == 1,
    ;
    assert(pow2(62) == 0x4000_0000_0000_0000);
    lemma_pow2_pos(e);
    assert(base * pow2(e) >= base) by (nonlinear_arith)
        requires
            base >= 1,
            pow2(e) >= 1,
    ;
    if 1 <= attempts < 62 {
        lemma_pow2_unfold(e + 1);
        assert(base * pow2(e + 1) == 2 * (base * pow2(e))) by (nonlinear_arith)
            requires
                pow2(e + 1) == 2 * pow2(e),
        ;
    }
    if attempts == 62 {
        lemma_pow2_unfold(62);
        assert(base * pow2(61) >= 0x2000_0000_0000_0000) by (nonlinear_arith)
            requires
                base >= 1,
                pow2(61) >= 0x2000_0000_0000_0000,
        ;
    }
    assert(base * pow2(62) >= 0x4000_0000_0000_0000) by (nonlinear_arith)
        requires
            base >= 1,
            pow2(62) == 0x4000_0000_0000_0000,
    ;
}

} // verus!
