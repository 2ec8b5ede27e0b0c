//! Alignment of tick indices to the grid that a tick spacing defines.
use vstd::prelude::*;

verus! {

/// Quotient of `t / s` rounded toward zero, as Rust's `/` on integers does.
pub open spec fn trunc_div(t: int, s: int) -> int
    recommends
        s > 0,
{
    if t >= 0 {
        t / s
    } else {
        -((-t) / s)
    }
}

/// Remainder that goes with `trunc_div`: it takes the sign of `t`.
pub open spec fn trunc_rem(t: int, s: int) -> int
    recommends
        s > 0,
{
    t - trunc_div(t, s) * s
}

/// Whether the resolver moves the tick one spacing up from `trunc_div(t, s) * s`.
pub open spec fn rounds_up(t: int, s: int, round_up: Option<bool>) -> bool {
    match round_up {
        Some(up) => up && trunc_rem(t, s) > 0,
        None => trunc_rem(t, s) >= s / 2,
    }
}

/// The grid-aligned tick that `get_initializable_tick_index` returns.
pub open spec fn initializable_tick(t: int, s: int, round_up: Option<bool>) -> int {
    trunc_div(t, s) * s + if rounds_up(t, s, round_up) { s } else { 0 }
}

/// `trunc_div(t, s) * s` lies between zero and `t`, and the remainder is
/// smaller than `s` in magnitude with the sign of `t`.
proof fn lemma_trunc_div_bounds(t: int, s: int)
    requires
        s > 0,
    ensures
        t >= 0 ==> 0 <= trunc_div(t, s) * s <= t,
        t < 0 ==> t <= trunc_div(t, s) * s <= 0,
        t >= 0 ==> 0 <= trunc_rem(t, s) < s,
        t < 0 ==> -s < trunc_rem(t, s) <= 0,
        trunc_rem(t, s) == if t >= 0 { t % s } else { -((-t) % s) },
{
    if t >= 0 {
        vstd::arithmetic::div_mod::lemma_fundamental_div_mod(t, s);
        assert(0 <= (t / s) * s <= t && (t / s) * s == s * (t / s)) by (nonlinear_arith)
            requires
                t >= 0,
                s > 0,
                t == s * (t / s) + t % s,
                0 <= t % s < s,
        {
        }
    } else {
        vstd::arithmetic::div_mod::lemma_fundamental_div_mod(-t, s);
        assert(0 <= ((-t) / s) * s <= -t && ((-t) / s) * s == s * ((-t) / s)) by (nonlinear_arith)
            requires
                -t >= 0,
                s > 0,
                (-t) == s * ((-t) / s) + (-t) % s,
                0 <= (-t) % s < s,
        {
        }
        assert(-((-t) / s) * s == -(((-t) / s) * s)) by (nonlinear_arith);
    }
}

/// Snaps `tick_index` onto a multiple of `tick_spacing`: down toward zero for
/// `Some(false)`, up where a positive remainder is left for `Some(true)`, and
/// for `None` up where the remainder reaches half the spacing.
pub fn get_initializable_tick_index(tick_index: i32, tick_spacing: u16, round_up: Option<bool>) -> (r: i32)
    requires
        tick_spacing > 0,
        initializable_tick(tick_index as int, tick_spacing as int, round_up) <= i32::MAX,
    ensures
        r == initializable_tick(tick_index as int, tick_spacing as int, round_up),
{
    let tick_spacing_i32 = tick_spacing as i32;
    proof {
        lemma_trunc_div_bounds(tick_index as int, tick_spacing as int);
    }
    let remainder = tick_index % tick_spacing_i32;
    let quotient = tick_index / tick_spacing_i32;
    let result = tick_index / tick_spacing_i32 * tick_spacing_i32;
    let should_round_up = match round_up {
        Some(up) => up && remainder > 0,
        None => remainder >= tick_spacing_i32 / 2,
    };
    if should_round_up {
        result + tick_spacing_i32
    } else {
        result
    }
}

/// Whether `tick_index` is a multiple of `tick_spacing`.
pub fn is_tick_initializable(tick_index: i32, tick_spacing: u16) -> (r: bool)
    requires
        tick_spacing > 0,
    ensures
        r == (trunc_rem(tick_index as int, tick_spacing as int) == 0),
{
    let tick_spacing_i32 = tick_spacing as i32;
    proof {
        lemma_trunc_div_bounds(tick_index as int, tick_spacing as int);
    }
    tick_index % tick_spacing_i32 == 0
}

/// A tick that is already a multiple of the spacing is left where it is by
/// both directed modes, and an unaligned one lies between what rounding down
/// and rounding up give. Rounding down goes toward zero, so for a negative
/// unaligned tick it lands above the tick: those ticks are left out.
pub proof fn lemma_directed_rounding_brackets(tick_index: i32, tick_spacing: u16)
    requires
        tick_spacing > 0,
        tick_index >= 0 || trunc_rem(tick_index as int, tick_spacing as int) == 0,
    ensures
        trunc_rem(tick_index as int, tick_spacing as int) != 0 ==> initializable_tick(
            tick_index as int,
            tick_spacing as int,
            Some(false),
        ) <= tick_index <= initializable_tick(tick_index as int, tick_spacing as int, Some(true)),
        trunc_rem(tick_index as int, tick_spacing as int) == 0 ==> initializable_tick(
            tick_index as int,
            tick_spacing as int,
            Some(false),
        ) == tick_index && initializable_tick(tick_index as int, tick_spacing as int, Some(true))
            == tick_index,
{
    lemma_trunc_div_bounds(tick_index as int, tick_spacing as int);
}

/// With a spacing of two or more, a tick is initializable exactly when
/// rounding to the nearest grid point leaves it unchanged. (With a spacing of
/// one, half the spacing is zero and the nearest mode always moves one up.)
pub proof fn lemma_aligned_iff_nearest_fixed(tick_index: i32, tick_spacing: u16)
    requires
        tick_spacing >= 2,
    ensures
        (trunc_rem(tick_index as int, tick_spacing as int) == 0) <==> initializable_tick(
            tick_index as int,
            tick_spacing as int,
            None,
        ) == tick_index,
{
    lemma_trunc_div_bounds(tick_index as int, tick_spacing as int);
}

/// Resolving an aligned tick, and resolving the result again with the same
/// mode, gives the tick back; the nearest mode with a spacing of one, which
/// always moves one up, is left out.
pub proof fn lemma_resolve_aligned_twice(tick_index: i32, tick_spacing: u16, round_up: Option<bool>)
    requires
        tick_spacing > 0,
        trunc_rem(tick_index as int, tick_spacing as int) == 0,
        !(round_up is None && tick_spacing == 1),
    ensures
        initializable_tick(tick_index as int, tick_spacing as int, round_up) == tick_index,
        initializable_tick(
            initializable_tick(tick_index as int, tick_spacing as int, round_up),
            tick_spacing as int,
            round_up,
        ) == tick_index,
{
    lemma_trunc_div_bounds(tick_index as int, tick_spacing as int);
}

} // verus!
