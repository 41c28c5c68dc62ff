//! System timer (SysTick) as a delay provider: a free-running 24-bit
//! down-counter clocked from the core clock. A requested duration is converted
//! to ticks (`crate::ticks::ticks_of`) and waited out as a sequence of
//! at-most-full-range waits (`crate::ticks::reload_plan`), each a fixed
//! five-step register interaction (`wait_block`).

use vstd::prelude::*;
use cortex_m::peripheral::syst::SystClkSource;
use cortex_m::peripheral::SYST;
use crate::ticks::{
    reload_plan, ticks_fit, ticks_for_us, ticks_of, COUNTER_RANGE, MAX_RELOAD,
};
use crate::time::{Clocks, Hertz};

verus! {

#[verifier::external_type_specification]
#[verifier::external_body]
pub struct ExSyst(SYST);

/// Relies on cortex_m's SYST::set_clock_source: selects the core clock as the
/// counter's clock source.
#[verifier::external_body]
fn syst_use_core_clock(syst: &mut SYST) {
    syst.set_clock_source(SystClkSource::Core);
}

/// Relies on cortex_m's SYST::set_reload: writes the 24-bit reload value
/// register.
#[verifier::external_body]
fn syst_set_reload(syst: &mut SYST, value: u32)
    requires
        value < COUNTER_RANGE,
{
    syst.set_reload(value);
}

/// Relies on cortex_m's SYST::clear_current: clears the current count, so the
/// next wrap comes one full reload period after the counter is enabled.
#[verifier::external_body]
fn syst_clear_current(syst: &mut SYST) {
    syst.clear_current();
}

/// Relies on cortex_m's SYST::enable_counter: starts the down-counter.
#[verifier::external_body]
fn syst_enable_counter(syst: &mut SYST) {
    syst.enable_counter();
}

/// Relies on cortex_m's SYST::disable_counter: stops the down-counter.
#[verifier::external_body]
fn syst_disable_counter(syst: &mut SYST) {
    syst.disable_counter();
}

/// Relies on cortex_m's SYST::has_wrapped: reads (and clears) the flag that
/// says the counter reached zero since the last read. Spins until the flag is
/// seen, so this blocks for the rest of the programmed period; when it comes
/// back, one full period has elapsed.
#[verifier::external_body]
fn syst_wait_until_wrapped(syst: &mut SYST) {
    while !syst.has_wrapped() {}
}

/// One interaction with the SysTick counter.
pub enum SystOp {
    /// The counter's clock source was set to the core clock.
    UseCoreClock,
    /// The reload value register was programmed.
    SetReload(u32),
    /// The current count was cleared.
    ClearCurrent,
    /// The counter was enabled.
    EnableCounter,
    /// The provider busy-waited until the wrap flag was seen.
    WaitForWrap,
    /// The counter was disabled.
    DisableCounter,
}

/// The five steps of one programmed wait, in order: program the reload value,
/// clear the current count, enable, busy-wait for the wrap, disable.
pub open spec fn wait_block(value: u32) -> Seq<SystOp> {
    seq![
        SystOp::SetReload(value),
        SystOp::ClearCurrent,
        SystOp::EnableCounter,
        SystOp::WaitForWrap,
        SystOp::DisableCounter,
    ]
}

/// The counter interactions that wait out the given reload values in order:
/// one five-step `wait_block` per value.
pub open spec fn wait_blocks(plan: Seq<u32>) -> Seq<SystOp>
    decreases plan.len(),
{
    if plan.len() == 0 {
        Seq::empty()
    } else {
        wait_blocks(plan.drop_last()) + wait_block(plan.last())
    }
}

/// The whole counter interaction of one delay of `ticks` ticks: the wait
/// blocks of its reload plan — `ticks / COUNTER_RANGE` full-range waits, then
/// the remainder wait.
pub open spec fn delay_ops(ticks: int) -> Seq<SystOp> {
    wait_blocks(reload_plan(ticks))
}

proof fn lemma_wait_blocks_push(plan: Seq<u32>, value: u32)
    ensures
        wait_blocks(plan.push(value)) == wait_blocks(plan) + wait_block(value),
{
    assert(plan.push(value).drop_last() =~= plan);
}

proof fn lemma_wait_blocks_len(plan: Seq<u32>)
    ensures
        wait_blocks(plan).len() == 5 * plan.len(),
    decreases plan.len(),
{
    if plan.len() > 0 {
        lemma_wait_blocks_len(plan.drop_last());
    }
}

/// Every delay is a whole number of five-step wait blocks and leaves the
/// counter disabled: the last interaction of `delay_ops` is always
/// `DisableCounter`.
pub proof fn lemma_delay_ops_end_disabled(ticks: int)
    requires
        0 <= ticks,
    ensures
        delay_ops(ticks).len() == 5 * reload_plan(ticks).len(),
        delay_ops(ticks).len() > 0,
        delay_ops(ticks).last() == SystOp::DisableCounter,
{
    let plan = reload_plan(ticks);
    vstd::arithmetic::div_mod::lemma_div_pos_is_pos(ticks, COUNTER_RANGE as int);
    lemma_wait_blocks_len(plan);
    assert(delay_ops(ticks) == wait_blocks(plan.drop_last()) + wait_block(plan.last()));
}

/// Two consecutive `delay_us` calls with the same argument perform identical
/// counter interactions: the block a call appends to the log is a function of
/// the request and the clock alone, the clock never changes, and no other
/// state leaks from one call into the next. `d0`, `d1` and `d2` are the
/// provider before the first call, between the calls, and after the second
/// call; the premises are exactly what `delay_us`'s contract gives for each
/// call.
pub proof fn lemma_delay_us_repeatable(d0: Delay, d1: Delay, d2: Delay, us: u32)
    requires
        d1.clock_hz() == d0.clock_hz(),
        d1.op_log() == d0.op_log() + delay_ops(ticks_of(us as int, d0.clock_hz())),
        d2.clock_hz() == d1.clock_hz(),
        d2.op_log() == d1.op_log() + delay_ops(ticks_of(us as int, d1.clock_hz())),
    ensures
        d1.op_log().subrange(d0.op_log().len() as int, d1.op_log().len() as int)
            == d2.op_log().subrange(d1.op_log().len() as int, d2.op_log().len() as int),
{
    let block = delay_ops(ticks_of(us as int, d0.clock_hz()));
    assert(d1.op_log().subrange(d0.op_log().len() as int, d1.op_log().len() as int)
        =~= block);
    assert(d2.op_log().subrange(d1.op_log().len() as int, d2.op_log().len() as int)
        =~= block);
}

/// System timer (SysTick) as a delay provider. It exclusively owns the
/// SysTick resource and the core clock frequency driving it, fixed at
/// construction.
pub struct Delay {
    syst: SYST,
    sysclk: Hertz,
    ops: Ghost<Seq<SystOp>>,
}

impl Delay {
    /// The core clock frequency this provider was built with, in Hz.
    pub closed spec fn clock_hz(self) -> int {
        self.sysclk.0 as int
    }

    /// The SysTick resource the provider owns.
    pub closed spec fn counter(self) -> SYST {
        self.syst
    }

    /// Every interaction this provider has had with the counter, oldest
    /// first: its observable register programming history.
    pub closed spec fn op_log(self) -> Seq<SystOp> {
        self.ops@
    }

    /// A provider is well formed when its clock frequency is nonzero.
    pub open spec fn wf(self) -> bool {
        self.clock_hz() > 0
    }

    /// Configures the system timer (SysTick) as a delay provider: selects the
    /// core clock as the counter's clock source, exactly once, and performs
    /// no other counter operation.
    pub fn new(syst: SYST, clocks: &Clocks) -> (d: Delay)
        requires
            clocks.wf(),
        ensures
            d.wf(),
            d.clock_hz() == clocks.sysclk.0,
            d.op_log() == seq![SystOp::UseCoreClock],
    {
        let mut syst = syst;
        syst_use_core_clock(&mut syst);
        let ghost log: Seq<SystOp> = seq![SystOp::UseCoreClock];
        Delay { syst, sysclk: clocks.sysclk, ops: Ghost(log) }
    }

    /// Releases the system timer (SysTick) resource; the provider is
    /// consumed.
    pub fn free(self) -> (syst: SYST)
        ensures
            syst == self.counter(),
    {
        self.syst
    }

    /// Performs one wait: reload value, clear current count, enable, busy
    /// wait for the wrap, disable — exactly one `wait_block`, so the counter
    /// is disabled again on return. Blocks for `value + 1` counter ticks.
    fn wait_one_period(&mut self, value: u32)
        requires
            value < COUNTER_RANGE,
        ensures
            final(self).sysclk == old(self).sysclk,
            final(self).op_log() == old(self).op_log() + wait_block(value),
    {
        syst_set_reload(&mut self.syst, value);
        self.ops = Ghost(self.ops@.push(SystOp::SetReload(value)));
        syst_clear_current(&mut self.syst);
        self.ops = Ghost(self.ops@.push(SystOp::ClearCurrent));
        syst_enable_counter(&mut self.syst);
        self.ops = Ghost(self.ops@.push(SystOp::EnableCounter));
        syst_wait_until_wrapped(&mut self.syst);
        self.ops = Ghost(self.ops@.push(SystOp::WaitForWrap));
        syst_disable_counter(&mut self.syst);
        self.ops = Ghost(self.ops@.push(SystOp::DisableCounter));
        proof {
            assert(self.ops@ =~= old(self).ops@ + wait_block(value));
        }
    }

    /// Blocks for at least `us` microseconds: converts the request to ticks
    /// by the three-term fixed-point decomposition, then waits it out as
    /// full-range waits plus one remainder wait. The counter interactions
    /// performed are exactly `delay_ops` of the tick count — one five-step
    /// `wait_block` per value of `reload_plan`, a pure function of the
    /// request and the (unchanged) clock frequency, so equal requests program
    /// equal sequences, and the counter is left disabled.
    pub fn delay_us(&mut self, us: u32)
        requires
            old(self).wf(),
            ticks_fit(us as int, old(self).clock_hz()),
        ensures
            final(self).wf(),
            final(self).clock_hz() == old(self).clock_hz(),
            final(self).op_log() == old(self).op_log()
                + delay_ops(ticks_of(us as int, old(self).clock_hz())),
    {
        let ticks = ticks_for_us(us, self.sysclk.0);
        let ghost base = self.ops@;
        let ghost mut done: Seq<u32> = Seq::empty();
        let mut rvr: u32 = ticks;
        proof {
            assert(self.ops@ =~= base + wait_blocks(done));
        }
        while rvr >= COUNTER_RANGE
            invariant
                rvr <= ticks,
                self.sysclk == old(self).sysclk,
                ticks == done.len() * (COUNTER_RANGE as int) + rvr,
                forall|i: int| 0 <= i < done.len() ==> done[i] == MAX_RELOAD,
                self.ops@ == base + wait_blocks(done),
            decreases rvr,
        {
            self.wait_one_period(MAX_RELOAD);
            proof {
                lemma_wait_blocks_push(done, MAX_RELOAD);
                done = done.push(MAX_RELOAD);
                assert(self.ops@ =~= base + wait_blocks(done));
            }
            rvr = rvr - COUNTER_RANGE;
        }
        proof {
            vstd::arithmetic::div_mod::lemma_fundamental_div_mod_converse(
                ticks as int,
                COUNTER_RANGE as int,
                done.len() as int,
                rvr as int,
            );
        }
        assert(rvr < COUNTER_RANGE);
        self.wait_one_period(rvr);
        proof {
            lemma_wait_blocks_push(done, rvr);
            done = done.push(rvr);
            assert(self.ops@ =~= base + wait_blocks(done));
            assert(done =~= reload_plan(ticks as int));
            assert(self.ops@ == base + delay_ops(ticks as int));
        }
    }

    /// Blocks for at least `ms` milliseconds by converting to microseconds.
    /// The caller must keep `ms * 1000` within 32 bits; no runtime check is
    /// made.
    pub fn delay_ms(&mut self, ms: u32)
        requires
            old(self).wf(),
            ms * 1000 <= u32::MAX,
            ticks_fit(ms * 1000, old(self).clock_hz()),
        ensures
            final(self).wf(),
            final(self).clock_hz() == old(self).clock_hz(),
            final(self).op_log() == old(self).op_log()
                + delay_ops(ticks_of(ms * 1000, old(self).clock_hz())),
    {
        self.delay_us(ms * 1_000);
    }

    /// Blocks for at least `ms` milliseconds; 16-bit request widened to the
    /// 32-bit path.
    pub fn delay_ms_u16(&mut self, ms: u16)
        requires
            old(self).wf(),
            ticks_fit(ms as int * 1000, old(self).clock_hz()),
        ensures
            final(self).wf(),
            final(self).clock_hz() == old(self).clock_hz(),
            final(self).op_log() == old(self).op_log()
                + delay_ops(ticks_of(ms as int * 1000, old(self).clock_hz())),
    {
        self.delay_ms(ms as u32);
    }

    /// Blocks for at least `ms` milliseconds; 8-bit request widened to the
    /// 32-bit path.
    pub fn delay_ms_u8(&mut self, ms: u8)
        requires
            old(self).wf(),
            ticks_fit(ms as int * 1000, old(self).clock_hz()),
        ensures
            final(self).wf(),
            final(self).clock_hz() == old(self).clock_hz(),
            final(self).op_log() == old(self).op_log()
                + delay_ops(ticks_of(ms as int * 1000, old(self).clock_hz())),
    {
        self.delay_ms(ms as u32);
    }

    /// Blocks for at least `us` microseconds; 16-bit request widened to the
    /// 32-bit path.
    pub fn delay_us_u16(&mut self, us: u16)
        requires
            old(self).wf(),
            ticks_fit(us as int, old(self).clock_hz()),
        ensures
            final(self).wf(),
            final(self).clock_hz() == old(self).clock_hz(),
            final(self).op_log() == old(self).op_log()
                + delay_ops(ticks_of(us as int, old(self).clock_hz())),
    {
        self.delay_us(us as u32);
    }

    /// Blocks for at least `us` microseconds; 8-bit request widened to the
    /// 32-bit path.
    pub fn delay_us_u8(&mut self, us: u8)
        requires
            old(self).wf(),
            ticks_fit(us as int, old(self).clock_hz()),
        ensures
            final(self).wf(),
            final(self).clock_hz() == old(self).clock_hz(),
            final(self).op_log() == old(self).op_log()
                + delay_ops(ticks_of(us as int, old(self).clock_hz())),
    {
        self.delay_us(us as u32);
    }
}

} // verus!
