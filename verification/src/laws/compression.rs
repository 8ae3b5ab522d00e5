//! What the tiers of a compression by age are.
use crate::compression::{
    spec_compressed_size,
    spec_required_compression,
    spec_tier,
    Reduction,
    Span,
};
use vstd::prelude::*;

verus! {

/// Past the age that stays as it is, a measurement has moved up by one tier for every whole length
/// of a tier, and the last tier holds all that would be beyond it.
pub proof fn law_a_tier_has_the_configured_length(
    age: Span,
    pure_duration: Span,
    tier: Span,
    max_tiers: u32,
    k: int,
    rest: int,
)
    requires
        tier.nanos >= 1_000_000,
        tier.nanos % 1_000_000 == 0,
        k >= 0,
        0 <= rest < tier.nanos,
        age.nanos == pure_duration.nanos + k * tier.nanos + rest,
        age.nanos > pure_duration.nanos,
    ensures
        spec_tier(age, pure_duration, tier, max_tiers) == if k < max_tiers {
            k
        } else {
            max_tiers as int
        },
{
    let ms: int = 1_000_000;
    let length: int = tier.nanos as int / ms;
    let past: int = age.nanos - pure_duration.nanos;
    assert(tier.nanos == length * ms);
    assert(k * tier.nanos == (k * length) * ms) by (nonlinear_arith)
        requires
            tier.nanos == length * ms,
    ;
    assert(past / ms == k * length + rest / ms) by (nonlinear_arith)
        requires
            past == (k * length) * ms + rest,
            ms == 1_000_000,
    ;
    assert(0 <= rest / ms < length) by (nonlinear_arith)
        requires
            0 <= rest < length * ms,
            ms == 1_000_000,
    ;
    vstd::arithmetic::div_mod::lemma_fundamental_div_mod_converse(
        past / ms,
        length,
        k,
        rest / ms,
    );
}

/// A length of a tier under one millisecond counts as one millisecond.
pub proof fn law_the_shortest_tier_is_a_millisecond(
    age: Span,
    pure_duration: Span,
    tier: Span,
    max_tiers: u32,
    k: int,
    rest: int,
)
    requires
        tier.nanos < 1_000_000,
        k >= 0,
        0 <= rest < 1_000_000,
        age.nanos == pure_duration.nanos + k * 1_000_000 + rest,
        age.nanos > pure_duration.nanos,
    ensures
        spec_tier(age, pure_duration, tier, max_tiers) == if k < max_tiers {
            k
        } else {
            max_tiers as int
        },
{
}

/// What is not older than the age that stays as it is, is in no tier, whatever the tiers are.
pub proof fn law_young_measurements_stay(
    age: Span,
    pure_duration: Span,
    tier: Span,
    max_tiers: u32,
)
    requires
        age.nanos <= pure_duration.nanos,
    ensures
        spec_tier(age, pure_duration, tier, max_tiers) == 0,
{
}

/// A measurement that has grown older by one length of a tier is one tier higher, up to the last.
pub proof fn law_one_length_later_is_one_tier_higher(
    age: Span,
    later: Span,
    pure_duration: Span,
    tier: Span,
    max_tiers: u32,
)
    requires
        tier.nanos >= 1_000_000,
        tier.nanos % 1_000_000 == 0,
        age.nanos >= pure_duration.nanos,
        later.nanos == age.nanos + tier.nanos,
    ensures
        spec_tier(age, pure_duration, tier, max_tiers) < max_tiers ==> spec_tier(
            later,
            pure_duration,
            tier,
            max_tiers,
        ) == spec_tier(age, pure_duration, tier, max_tiers) + 1,
        spec_tier(age, pure_duration, tier, max_tiers) == max_tiers ==> spec_tier(
            later,
            pure_duration,
            tier,
            max_tiers,
        ) == max_tiers,
{
    let past: int = age.nanos - pure_duration.nanos;
    let t: int = tier.nanos as int;
    let k: int = past / t;
    let rest: int = past % t;
    vstd::arithmetic::div_mod::lemma_fundamental_div_mod(past, t);
    vstd::arithmetic::mul::lemma_mul_is_commutative(t, k);
    vstd::arithmetic::div_mod::lemma_div_pos_is_pos(past, t);
    assert((k + 1) * t == k * t + t) by (nonlinear_arith);
    law_a_tier_has_the_configured_length(later, pure_duration, tier, max_tiers, k + 1, rest);
    if age.nanos > pure_duration.nanos {
        law_a_tier_has_the_configured_length(age, pure_duration, tier, max_tiers, k, rest);
    } else {
        assert(k == 0) by (nonlinear_arith)
            requires
                k == past / t,
                past == 0,
                t > 0,
        ;
    }
}

/// What is small enough stays whole; anything larger by a byte is compressed as is given, and two
/// measurements are left of it at least.
pub proof fn law_only_what_is_too_large_is_compressed(
    current_size: u64,
    target_size: u64,
    measurement_count: usize,
    reduction: Reduction,
)
    ensures
        ({
            let r = spec_required_compression(
                current_size,
                target_size,
                measurement_count,
                reduction,
            );
            &&& r.needs_compression == (current_size > target_size)
            &&& !r.needs_compression ==> r.target_measurement_count == measurement_count
                && r.required_reduction_ratio == r.suggested_aggressiveness
                && r.suggested_aggressiveness.bits == 0
            &&& r.needs_compression ==> r.target_measurement_count >= 2
                && r.target_measurement_count >= reduction.measurements_left && (
            r.target_measurement_count == 2 || r.target_measurement_count
                == reduction.measurements_left) && r.required_reduction_ratio
                == reduction.share_gone && r.suggested_aggressiveness == reduction.aggressiveness
        }),
{
}

/// Two measurements are taken for 240 bytes, fewer for as many, and each one more for 120 more.
pub proof fn law_each_measurement_takes_its_bytes(n: int)
    requires
        n >= 2,
    ensures
        spec_compressed_size(0) == 240,
        spec_compressed_size(1) == 240,
        spec_compressed_size(2) == 240,
        spec_compressed_size(n + 1) == spec_compressed_size(n) + 120,
{
}

}
