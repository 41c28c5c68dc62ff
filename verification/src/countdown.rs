//! CountDown timer as a delay provider: wraps an externally supplied
//! restart-based countdown channel whose programmable frequency range is
//! narrow, and decomposes a requested duration into fixed-cadence 10 Hz waits
//! plus one short remainder wait, so that every programmed frequency stays
//! within the channel's safe range.

use vstd::prelude::*;
use crate::time::Hertz;

verus! {

/// A countdown channel's wait reported something other than a clean expiry
/// (for example a spurious non-blocking result).
pub struct WaitError;

/// The countdown channel capability the provider consumes: `start` begins one
/// countdown that produces a single expiry event at the given frequency;
/// `wait` blocks until that event fires, or reports an error. The provider
/// treats an error as if the wait had completed (best effort): this layer
/// gives a floor guarantee on elapsed time, not a deadline guarantee.
pub trait CountDown {
    /// Start counting down towards a single expiry event, one period of
    /// `rate` from now.
    fn start(&mut self, rate: Hertz);

    /// Block until the expiry event started by the last `start` fires.
    fn wait(&mut self) -> Result<(), WaitError>;
}

/// One interaction with the countdown channel: programming a frequency, or
/// blocking on one expiry event.
pub enum TimerOp {
    /// The channel was started at the given frequency.
    Start(Hertz),
    /// The provider blocked until one expiry event.
    Wait,
}

/// The fixed per-iteration duration (in the unit whose scale is `num`) used
/// to decompose a long delay: one tenth of a second, a 10 Hz cadence, which
/// is conservatively within every supported channel's programmable range.
pub open spec fn loop_step(num: int) -> int {
    num / 10
}

/// The frequency the channel is programmed with for the fixed-cadence waits.
pub open spec fn cadence_hz(num: int) -> int {
    num / loop_step(num)
}

/// How many fixed-cadence waits the decomposition loop issues for a request
/// of `t` units: the loop waits while more than one step is left.
pub open spec fn full_waits(t: int, num: int) -> int {
    if t == 0 {
        0
    } else {
        (t - 1) / loop_step(num)
    }
}

/// What is left of the request after the fixed-cadence waits; in
/// `(0, loop_step(num)]` for a nonzero request, `0` for a zero request.
pub open spec fn leftover(t: int, num: int) -> int {
    t - full_waits(t, num) * loop_step(num)
}

/// The exact sequence of channel interactions a request of `t` units at unit
/// scale `num` produces: one start at the 10 Hz cadence, the fixed-cadence
/// waits, and — if anything is left — one restart sized exactly to the
/// remainder followed by one final wait.
pub open spec fn countdown_ops(t: int, num: int) -> Seq<TimerOp> {
    seq![TimerOp::Start(Hertz(cadence_hz(num) as u32))]
        + Seq::new(full_waits(t, num) as nat, |i: int| TimerOp::Wait)
        + if leftover(t, num) > 0 {
            seq![
                TimerOp::Start(Hertz((num / leftover(t, num)) as u32)),
                TimerOp::Wait,
            ]
        } else {
            Seq::empty()
        }
}

/// How many blocking waits a sequence of channel interactions contains.
pub open spec fn wait_count(s: Seq<TimerOp>) -> int
    decreases s.len(),
{
    if s.len() == 0 {
        0
    } else {
        wait_count(s.drop_last()) + if s.last() is Wait {
            1int
        } else {
            0
        }
    }
}

proof fn lemma_wait_count_add(a: Seq<TimerOp>, b: Seq<TimerOp>)
    ensures
        wait_count(a + b) == wait_count(a) + wait_count(b),
    decreases b.len(),
{
    if b.len() == 0 {
        assert(a + b =~= a);
    } else {
        lemma_wait_count_add(a, b.drop_last());
        assert((a + b).drop_last() =~= a + b.drop_last());
    }
}

proof fn lemma_wait_count_all_waits(k: nat)
    ensures
        wait_count(Seq::new(k, |i: int| TimerOp::Wait)) == k,
    decreases k,
{
    if k > 0 {
        lemma_wait_count_all_waits((k - 1) as nat);
        assert(Seq::new(k, |i: int| TimerOp::Wait).drop_last()
            =~= Seq::new((k - 1) as nat, |i: int| TimerOp::Wait));
    }
}

/// How the decomposition relates to the requested duration `t`: the provider
/// issues exactly `t / loop_step(num)` fixed-cadence waits and, exactly when
/// `t % loop_step(num) != 0`, one final remainder wait at frequency
/// `num / (t % loop_step(num))`; when the request divides evenly into whole
/// steps, every programmed frequency is the 10 Hz cadence, so no wait at any
/// other frequency is issued.
pub proof fn lemma_countdown_decomposition(t: int, num: int)
    requires
        0 <= t <= u32::MAX,
        num == 1000 || num == 1_000_000,
    ensures
        cadence_hz(num) == 10,
        t % loop_step(num) == 0 ==> wait_count(countdown_ops(t, num)) == t / loop_step(num),
        t % loop_step(num) == 0 ==> forall|i: int|
            0 <= i < countdown_ops(t, num).len()
                && (#[trigger] countdown_ops(t, num)[i]) is Start
                ==> countdown_ops(t, num)[i] == TimerOp::Start(Hertz(10)),
        t % loop_step(num) != 0 ==> wait_count(countdown_ops(t, num))
            == t / loop_step(num) + 1,
        t % loop_step(num) != 0 ==> countdown_ops(t, num).last() is Wait
            && countdown_ops(t, num)[countdown_ops(t, num).len() - 2]
                == TimerOp::Start(Hertz((num / (t % loop_step(num))) as u32)),
{
    reveal_with_fuel(wait_count, 4);
    let ld = loop_step(num);
    let k = full_waits(t, num);
    if num == 1000 {
        assert(ld == 100);
        assert(cadence_hz(num) == 10);
    } else {
        assert(ld == 100_000);
        assert(cadence_hz(num) == 10);
    }
    let r = leftover(t, num);
    vstd::arithmetic::div_mod::lemma_fundamental_div_mod(t, ld);
    vstd::arithmetic::div_mod::lemma_mod_bound(t, ld);
    if t > 0 {
        if t % ld == 0 {
            assert((t / ld - 1) * ld == (t / ld) * ld - ld) by (nonlinear_arith);
            vstd::arithmetic::div_mod::lemma_fundamental_div_mod_converse(
                t - 1,
                ld,
                t / ld - 1,
                ld - 1,
            );
            assert(k == t / ld - 1);
        } else {
            vstd::arithmetic::div_mod::lemma_fundamental_div_mod_converse(
                t - 1,
                ld,
                t / ld,
                t % ld - 1,
            );
            assert(k == t / ld);
        }
        assert(k * ld == ld * k) by (nonlinear_arith);
    }

    let head = seq![TimerOp::Start(Hertz(cadence_hz(num) as u32))];
    let body = Seq::new(k as nat, |i: int| TimerOp::Wait);
    let tail = if r > 0 {
        seq![TimerOp::Start(Hertz((num / r) as u32)), TimerOp::Wait]
    } else {
        Seq::<TimerOp>::empty()
    };
    assert(countdown_ops(t, num) == head + body + tail);
    lemma_wait_count_add(head + body, tail);
    lemma_wait_count_add(head, body);
    lemma_wait_count_all_waits(k as nat);
    assert(head.drop_last() =~= Seq::<TimerOp>::empty());
    assert(wait_count(head) == 0);
    if r > 0 {
        assert(tail.drop_last() =~= head.drop_last().push(tail[0]));
        assert(tail.drop_last().drop_last() =~= Seq::<TimerOp>::empty());
        assert(wait_count(tail) == 1);
    }

    if t % ld == 0 {
        if r > 0 {
            assert(r == ld);
            assert(num / r == cadence_hz(num));
        }
        let ops = countdown_ops(t, num);
        assert forall|i: int|
            0 <= i < ops.len() && (#[trigger] ops[i]) is Start
                implies ops[i] == TimerOp::Start(Hertz(10)) by {
            if i == 0 {
                assert(ops[i] == head[0]);
            } else if i < 1 + k {
                assert(ops[i] == body[i - 1]);
            } else {
                assert(ops[i] == tail[i - 1 - k]);
            }
        };
    }
}

/// The floor guarantee at unit granularity: the fixed-cadence waits cover
/// `full_waits * loop_step` units and, when a remainder is left, the final
/// wait — one period of the truncated frequency `num / leftover` — lasts at
/// least `leftover` units, so the whole sequence lasts at least the requested
/// `t` units.
pub proof fn lemma_countdown_floor(t: int, num: int)
    requires
        0 <= t <= u32::MAX,
        num == 1000 || num == 1_000_000,
    ensures
        full_waits(t, num) * loop_step(num) + leftover(t, num) == t,
        leftover(t, num) > 0 ==> num / (num / leftover(t, num)) >= leftover(t, num),
{
    let ld = loop_step(num);
    let r = leftover(t, num);
    if num == 1000 {
        assert(ld == 100);
    } else {
        assert(ld == 100_000);
    }
    if t > 0 {
        let k = full_waits(t, num);
        vstd::arithmetic::div_mod::lemma_fundamental_div_mod(t - 1, ld);
        vstd::arithmetic::div_mod::lemma_mod_bound(t - 1, ld);
        assert(t == k * ld + ((t - 1) % ld + 1)) by (nonlinear_arith)
            requires
                t - 1 == ld * k + (t - 1) % ld,
        ;
        assert(0 < r <= ld);
    }
    if r > 0 {
        let f = num / r;
        vstd::arithmetic::div_mod::lemma_fundamental_div_mod(num, r);
        vstd::arithmetic::div_mod::lemma_mod_bound(num, r);
        assert(f * r <= num) by (nonlinear_arith)
            requires
                num == r * f + num % r,
                num % r >= 0,
        ;
        assert(f > 0) by (nonlinear_arith)
            requires
                num == r * f + num % r,
                0 <= num % r < r,
                0 < r <= num,
        ;
        vstd::arithmetic::div_mod::lemma_fundamental_div_mod(num, f);
        vstd::arithmetic::div_mod::lemma_mod_bound(num, f);
        assert(num / f >= r) by (nonlinear_arith)
            requires
                f * r <= num,
                num == f * (num / f) + num % f,
                0 <= num % f < f,
                r > 0,
                f > 0,
        ;
    }
}

/// CountDown timer as a delay provider. It exclusively owns the channel for
/// its lifetime and derives timing only from the duration requested per call.
pub struct DelayFromCountDownTimer<T> {
    timer: T,
    ops: Ghost<Seq<TimerOp>>,
}

impl<T: CountDown> DelayFromCountDownTimer<T> {
    /// The countdown channel the provider owns.
    pub closed spec fn channel(self) -> T {
        self.timer
    }

    /// Every interaction this provider has had with the channel, oldest
    /// first: its observable behaviour.
    pub closed spec fn op_log(self) -> Seq<TimerOp> {
        self.ops@
    }

    /// Creates a delay provider from a CountDown timer.
    pub fn new(timer: T) -> (d: Self)
        ensures
            d.channel() == timer,
            d.op_log() == Seq::<TimerOp>::empty(),
    {
        DelayFromCountDownTimer { timer, ops: Ghost(Seq::empty()) }
    }

    /// Releases the timer; the provider is consumed.
    pub fn free(self) -> (timer: T)
        ensures
            timer == self.channel(),
    {
        self.timer
    }

    /// Blocks for at least `t` units, where `num` is the unit's scale (units
    /// per second): fixed-cadence 10 Hz waits while more than one step is
    /// left, then one wait sized exactly to the remainder. A wait error is
    /// discarded and the delay proceeds (best effort). The interactions
    /// issued are exactly `countdown_ops(t, num)` — a pure function of the
    /// request, so equal requests produce equal sequences.
    fn delay_units(&mut self, t: u32, num: u32)
        requires
            num == 1000 || num == 1_000_000,
        ensures
            final(self).op_log() == old(self).op_log() + countdown_ops(t as int, num as int),
    {
        let looping_delay = num / 10;
        let looping_delay_hz = Hertz(num / looping_delay);
        self.timer.start(looping_delay_hz);
        self.ops = Ghost(self.ops@.push(TimerOp::Start(looping_delay_hz)));
        let ghost base = self.ops@;
        proof {
            assert(self.ops@ =~= base + Seq::new(0nat, |i: int| TimerOp::Wait));
        }
        let mut time_left = t;
        while time_left > looping_delay
            invariant
                num == 1000 || num == 1_000_000,
                looping_delay == loop_step(num as int),
                time_left <= t,
                t > 0 ==> time_left > 0,
                base.len() <= self.ops@.len(),
                t == (self.ops@.len() - base.len()) * looping_delay + time_left,
                self.ops@ == base
                    + Seq::new((self.ops@.len() - base.len()) as nat, |i: int| TimerOp::Wait),
            decreases time_left,
        {
            let _ = self.timer.wait();
            self.ops = Ghost(self.ops@.push(TimerOp::Wait));
            time_left = time_left - looping_delay;
            proof {
                assert(self.ops@ =~= base
                    + Seq::new((self.ops@.len() - base.len()) as nat, |i: int| TimerOp::Wait));
                let k = self.ops@.len() - base.len();
                assert(k * (looping_delay as int) == (k - 1) * (looping_delay as int)
                    + looping_delay) by (nonlinear_arith);
            }
        }
        proof {
            let waits = self.ops@.len() - base.len();
            if t == 0 {
                assert(waits == 0) by (nonlinear_arith)
                    requires
                        0 == waits * (looping_delay as int) + time_left,
                        waits >= 0,
                        time_left >= 0,
                        looping_delay > 0,
                ;
            } else {
                vstd::arithmetic::div_mod::lemma_fundamental_div_mod_converse(
                    t - 1,
                    looping_delay as int,
                    waits,
                    time_left - 1,
                );
            }
            assert(waits == full_waits(t as int, num as int));
            assert(time_left == leftover(t as int, num as int));
        }
        if time_left > 0 {
            let remainder_hz = Hertz(num / time_left);
            self.timer.start(remainder_hz);
            self.ops = Ghost(self.ops@.push(TimerOp::Start(remainder_hz)));
            let _ = self.timer.wait();
            self.ops = Ghost(self.ops@.push(TimerOp::Wait));
        }
        proof {
            assert(self.ops@ =~= old(self).ops@ + countdown_ops(t as int, num as int));
        }
    }

    /// Blocks for at least `ms` milliseconds.
    pub fn delay_ms(&mut self, ms: u32)
        ensures
            final(self).op_log() == old(self).op_log() + countdown_ops(ms as int, 1000),
    {
        self.delay_units(ms, 1000);
    }

    /// Blocks for at least `ms` milliseconds; 16-bit request widened to the
    /// 32-bit path.
    pub fn delay_ms_u16(&mut self, ms: u16)
        ensures
            final(self).op_log() == old(self).op_log() + countdown_ops(ms as int, 1000),
    {
        self.delay_ms(ms as u32);
    }

    /// Blocks for at least `ms` milliseconds; 8-bit request widened to the
    /// 32-bit path.
    pub fn delay_ms_u8(&mut self, ms: u8)
        ensures
            final(self).op_log() == old(self).op_log() + countdown_ops(ms as int, 1000),
    {
        self.delay_ms(ms as u32);
    }

    /// Blocks for at least `us` microseconds.
    pub fn delay_us(&mut self, us: u32)
        ensures
            final(self).op_log() == old(self).op_log() + countdown_ops(us as int, 1_000_000),
    {
        self.delay_units(us, 1_000_000);
    }

    /// Blocks for at least `us` microseconds; 16-bit request widened to the
    /// 32-bit path.
    pub fn delay_us_u16(&mut self, us: u16)
        ensures
            final(self).op_log() == old(self).op_log() + countdown_ops(us as int, 1_000_000),
    {
        self.delay_us(us as u32);
    }

    /// Blocks for at least `us` microseconds; 8-bit request widened to the
    /// 32-bit path.
    pub fn delay_us_u8(&mut self, us: u8)
        ensures
            final(self).op_log() == old(self).op_log() + countdown_ops(us as int, 1_000_000),
    {
        self.delay_us(us as u32);
    }
}

} // verus!
