//! Damage resolution: a pure, bit-for-bit reproducible function of the
//! attacker's attributes, the chosen attack style, the previous turn's style,
//! and one host-supplied random byte.
use vstd::prelude::*;
use crate::figures::Stats;
use crate::storage::{spec_strong_against, spec_weak_against, RoastStyle};

verus! {

/// The damage cap before the roll: the attribute for the chosen style,
/// raised by 5 when the chosen style is strong against the previous one.
pub open spec fn spec_damage_cap(stats: Stats, style: RoastStyle, prev: Option<RoastStyle>) -> int {
    let base = stats.spec_stat_for(style) as int;
    match prev {
        Some(p) => if spec_strong_against(style, p) {
            base + 5
        } else {
            base
        },
        None => base,
    }
}

/// The resolved damage: a roll in `[1, cap]` drawn from the random byte,
/// reduced by 5 (to a floor of 1) when the chosen style is weak against the
/// previous one.
pub open spec fn spec_resolve(
    stats: Stats,
    style: RoastStyle,
    prev: Option<RoastStyle>,
    random_byte: u8,
) -> int {
    let cap = spec_damage_cap(stats, style, prev);
    let roll = (random_byte as int) % cap + 1;
    let weak = match prev {
        Some(p) => spec_weak_against(style, p),
        None => false,
    };
    if weak {
        if roll - 5 >= 1 {
            roll - 5
        } else {
            1
        }
    } else {
        roll
    }
}

/// Damage from one attack, exactly [`spec_resolve`] of the inputs, and
/// always in `[1, 15]`.
pub fn resolve(stats: &Stats, style: RoastStyle, prev: Option<RoastStyle>, random_byte: u8) -> (r:
    u8)
    requires
        stats.wf(),
    ensures
        r as int == spec_resolve(*stats, style, prev, random_byte),
        1 <= r <= 15,
{
    let base = stats.stat_for(style);
    let cap = match prev {
        Some(p) => if style.is_strong_against(p) {
            base + 5
        } else {
            base
        },
        None => base,
    };
    let roll = random_byte % cap + 1;
    let weak = match prev {
        Some(p) => style.is_weak_against(p),
        None => false,
    };
    if weak {
        if roll >= 6 {
            roll - 5
        } else {
            1
        }
    } else {
        roll
    }
}

/// The resolver's range: for well-formed attributes the damage is always
/// between 1 and 15, whatever the styles and the random byte.
pub proof fn lemma_resolve_range(
    stats: Stats,
    style: RoastStyle,
    prev: Option<RoastStyle>,
    random_byte: u8,
)
    requires
        stats.wf(),
    ensures
        1 <= spec_resolve(stats, style, prev, random_byte) <= 15,
{
}

} // verus!
