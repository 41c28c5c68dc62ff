//! The numeric core of the cycle-counter delay provider: converting a
//! requested number of microseconds into down-counter ticks without 32-bit
//! overflow, and splitting a tick count into reload values that fit the
//! counter's 24-bit reload register.

use vstd::prelude::*;
use vstd::arithmetic::div_mod::{
    lemma_div_pos_is_pos, lemma_fundamental_div_mod, lemma_fundamental_div_mod_converse,
    lemma_mod_bound, lemma_mod_mod,
};
use vstd::arithmetic::mul::lemma_mul_nonnegative;

verus! {

/// Number of values the 24-bit reload register spans: one full-range wait
/// covers this many ticks.
pub const COUNTER_RANGE: u32 = 0x0100_0000;

/// Largest value the 24-bit reload register can hold.
pub const MAX_RELOAD: u32 = 0x00ff_ffff;

/// The tick count that the three-term fixed-point decomposition yields for
/// `us` microseconds at `freq` Hz:
///
/// `us * (freq / 10^6)  +  us * ((freq % 10^6) / 10^3) / 10^3  +  us * (freq % 10^3) / 10^6`
///
/// Each division truncates, so the result undercounts the ideal
/// `us * freq / 10^6` by at most one tick (`lemma_ticks_near_ideal`), while
/// every intermediate product stays far smaller than `us * freq` itself.
pub open spec fn ticks_of(us: int, freq: int) -> int {
    us * (freq / 1_000_000)
        + (us * ((freq % 1_000_000) / 1_000)) / 1_000
        + (us * (freq % 1_000)) / 1_000_000
}

/// Exactly when every intermediate step of the three-term decomposition fits
/// in a 32-bit unsigned accumulator. The three products are the only values
/// that can exceed the final sum, so these four bounds cover every step.
pub open spec fn ticks_fit(us: int, freq: int) -> bool {
    &&& us * (freq / 1_000_000) <= u32::MAX
    &&& us * ((freq % 1_000_000) / 1_000) <= u32::MAX
    &&& us * (freq % 1_000) <= u32::MAX
    &&& ticks_of(us, freq) <= u32::MAX
}

/// Number of counter ticks needed for `us` microseconds at `freq` Hz, by the
/// three-term fixed-point decomposition.
pub fn ticks_for_us(us: u32, freq: u32) -> (ticks: u32)
    requires
        ticks_fit(us as int, freq as int),
    ensures
        ticks == ticks_of(us as int, freq as int),
{
    let mut ticks: u32 = us * (freq / 1_000_000);
    ticks = ticks + (us * ((freq % 1_000_000) / 1_000)) / 1_000;
    ticks = ticks + (us * (freq % 1_000)) / 1_000_000;
    ticks
}

/// The reload values a delay of `ticks` ticks programs into the 24-bit reload
/// register, in order: one full-range value (`MAX_RELOAD`, spanning
/// `COUNTER_RANGE` ticks) for each of the `ticks / COUNTER_RANGE` full-range
/// waits, then the remainder `ticks % COUNTER_RANGE` for one final wait. The
/// final value is always strictly below `COUNTER_RANGE`.
pub open spec fn reload_plan(ticks: int) -> Seq<u32> {
    Seq::new(
        (ticks / (COUNTER_RANGE as int) + 1) as nat,
        |i: int|
            if i < ticks / (COUNTER_RANGE as int) {
                MAX_RELOAD
            } else {
                (ticks % (COUNTER_RANGE as int)) as u32
            },
    )
}

/// The sequence of reload values that a delay of `ticks` ticks programs,
/// computed by the same repeated-subtraction rule the provider uses: while the
/// count is out of the register's range, peel off one full-range wait.
pub fn reload_values(ticks: u32) -> (r: Vec<u32>)
    ensures
        r@ == reload_plan(ticks as int),
{
    let mut r: Vec<u32> = Vec::new();
    let mut left: u32 = ticks;
    while left >= COUNTER_RANGE
        invariant
            left <= ticks,
            ticks == r@.len() * (COUNTER_RANGE as int) + left,
            forall|i: int| 0 <= i < r@.len() ==> r@[i] == MAX_RELOAD,
        decreases left,
    {
        r.push(MAX_RELOAD);
        left = left - COUNTER_RANGE;
    }
    proof {
        lemma_fundamental_div_mod_converse(
            ticks as int,
            COUNTER_RANGE as int,
            r@.len() as int,
            left as int,
        );
    }
    r.push(left);
    proof {
        assert(r@ =~= reload_plan(ticks as int));
    }
    r
}

/// How many counter ticks a sequence of programmed waits blocks for: a wait
/// programmed with reload value `v` spans `v + 1` ticks (the counter steps
/// from `v` down to its wrap at zero).
pub open spec fn total_wait_ticks(plan: Seq<u32>) -> int
    decreases plan.len(),
{
    if plan.len() == 0 {
        0
    } else {
        total_wait_ticks(plan.drop_last()) + plan.last() + 1
    }
}

proof fn lemma_total_wait_ticks_add(a: Seq<u32>, b: Seq<u32>)
    ensures
        total_wait_ticks(a + b) == total_wait_ticks(a) + total_wait_ticks(b),
    decreases b.len(),
{
    if b.len() == 0 {
        assert(a + b =~= a);
    } else {
        lemma_total_wait_ticks_add(a, b.drop_last());
        assert((a + b).drop_last() =~= a + b.drop_last());
    }
}

proof fn lemma_total_wait_ticks_full_chunks(k: nat)
    ensures
        total_wait_ticks(Seq::new(k, |i: int| MAX_RELOAD)) == k * (COUNTER_RANGE as int),
    decreases k,
{
    if k > 0 {
        lemma_total_wait_ticks_full_chunks((k - 1) as nat);
        assert(Seq::new(k, |i: int| MAX_RELOAD).drop_last()
            =~= Seq::new((k - 1) as nat, |i: int| MAX_RELOAD));
        assert(k * (COUNTER_RANGE as int)
            == (k - 1) * (COUNTER_RANGE as int) + COUNTER_RANGE) by (nonlinear_arith);
    }
}

/// The floor guarantee at tick granularity: the chunked waits for a request
/// of `ticks` ticks block for `ticks + 1` counter ticks in all — never less
/// than requested (the one extra tick is the final wait's wrap from zero).
pub proof fn lemma_reload_plan_covers_request(ticks: int)
    requires
        0 <= ticks,
    ensures
        total_wait_ticks(reload_plan(ticks)) == ticks + 1,
{
    reveal_with_fuel(total_wait_ticks, 3);
    let range = COUNTER_RANGE as int;
    let q = ticks / range;
    let r = ticks % range;
    lemma_mod_bound(ticks, range);
    lemma_div_pos_is_pos(ticks, range);
    lemma_fundamental_div_mod(ticks, range);
    let full = Seq::new(q as nat, |i: int| MAX_RELOAD);
    let rest = seq![r as u32];
    assert(reload_plan(ticks) =~= full + rest);
    lemma_total_wait_ticks_add(full, rest);
    lemma_total_wait_ticks_full_chunks(q as nat);
    assert(rest.drop_last() =~= Seq::<u32>::empty());
    assert(total_wait_ticks(rest) == r + 1);
}

/// The chunking rule in closed form: repeated subtraction of `COUNTER_RANGE`
/// leaves exactly `ticks / COUNTER_RANGE` full-range waits and a final
/// remainder `ticks % COUNTER_RANGE`, strictly below the counter's range.
pub proof fn lemma_reload_plan_shape(ticks: int)
    requires
        0 <= ticks,
    ensures
        reload_plan(ticks).len() == ticks / (COUNTER_RANGE as int) + 1,
        forall|i: int| 0 <= i < reload_plan(ticks).len() - 1
            ==> #[trigger] reload_plan(ticks)[i] == MAX_RELOAD,
        reload_plan(ticks).last() == ticks % (COUNTER_RANGE as int),
        ticks % (COUNTER_RANGE as int) < COUNTER_RANGE,
{
    lemma_mod_bound(ticks, COUNTER_RANGE as int);
    lemma_div_pos_is_pos(ticks, COUNTER_RANGE as int);
}

/// The three-term decomposition never overcounts the ideal tick count
/// `floor(us * freq / 10^6)`, and undercounts it by at most one tick: the
/// exact truncation bound of the fixed-point scheme.
pub proof fn lemma_ticks_near_ideal(us: int, freq: int)
    requires
        0 <= us,
        0 <= freq,
    ensures
        (us * freq) / 1_000_000 - 1 <= ticks_of(us, freq) <= (us * freq) / 1_000_000,
{
    let q = freq / 1_000_000;
    let r = freq % 1_000_000;
    let r1 = r / 1_000;
    let r2 = r % 1_000;
    lemma_fundamental_div_mod(freq, 1_000_000);
    lemma_fundamental_div_mod(r, 1_000);
    lemma_mod_bound(freq, 1_000_000);
    lemma_mod_bound(r, 1_000);
    lemma_mod_mod(freq, 1_000, 1_000);
    assert(r2 == freq % 1_000);

    let x = us * r1;
    let b = us * r2;
    lemma_mul_nonnegative(us, r1);
    lemma_mul_nonnegative(us, r2);

    let qx = x / 1_000;
    let rx = x % 1_000;
    let qb = b / 1_000_000;
    let rb = b % 1_000_000;
    lemma_fundamental_div_mod(x, 1_000);
    lemma_fundamental_div_mod(b, 1_000_000);
    lemma_mod_bound(x, 1_000);
    lemma_mod_bound(b, 1_000_000);

    // Distribute us over the two-stage decomposition of freq.
    assert(us * freq == (us * q) * 1_000_000 + x * 1_000 + b) by (nonlinear_arith)
        requires
            freq == 1_000_000 * q + r,
            r == 1_000 * r1 + r2,
            x == us * r1,
            b == us * r2,
    ;
    assert(x * 1_000 == (1_000_000 * qx + 1_000 * rx)) by (nonlinear_arith)
        requires
            x == 1_000 * qx + rx,
    ;

    let s = us * q + qx + qb;
    let rem = 1_000 * rx + rb;
    assert(us * freq == 1_000_000 * s + rem);
    assert(0 <= rem < 2_000_000);
    assert(ticks_of(us, freq) == s);

    if rem < 1_000_000 {
        lemma_fundamental_div_mod_converse(us * freq, 1_000_000, s, rem);
    } else {
        lemma_fundamental_div_mod_converse(us * freq, 1_000_000, s + 1, rem - 1_000_000);
    }
}

} // verus!
