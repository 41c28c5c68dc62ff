use tm4c_hal::countdown::{CountDown, DelayFromCountDownTimer, WaitError};
use tm4c_hal::time::Hertz;

/// One recorded interaction with the mock channel.
#[derive(Debug, PartialEq, Eq, Clone, Copy)]
enum Recorded {
    Start(u32),
    Wait,
}

/// A countdown channel that records every interaction and expires at once.
struct MockTimer {
    record: Vec<Recorded>,
    fail_waits: bool,
}

impl MockTimer {
    fn new() -> MockTimer {
        MockTimer { record: Vec::new(), fail_waits: false }
    }
}

impl CountDown for MockTimer {
    fn start(&mut self, rate: Hertz) {
        self.record.push(Recorded::Start(rate.0));
    }

    fn wait(&mut self) -> Result<(), WaitError> {
        self.record.push(Recorded::Wait);
        if self.fail_waits {
            Err(WaitError)
        } else {
            Ok(())
        }
    }
}

#[test]
fn delay_ms_250_two_cadence_waits_then_remainder() {
    // looping_delay = 100; two full 100 ms waits at 10 Hz, then 50 ms at
    // 1000 / 50 = 20 Hz.
    let mut d = DelayFromCountDownTimer::new(MockTimer::new());
    d.delay_ms(250);
    let timer = d.free();
    assert_eq!(
        timer.record,
        vec![
            Recorded::Start(10),
            Recorded::Wait,
            Recorded::Wait,
            Recorded::Start(20),
            Recorded::Wait,
        ]
    );
}

#[test]
fn delay_ms_100_exactly_one_wait_at_10_hz() {
    // looping_delay = 100; no loop iteration, remainder of a whole step waits
    // once at the 10 Hz cadence.
    let mut d = DelayFromCountDownTimer::new(MockTimer::new());
    d.delay_ms(100);
    let timer = d.free();
    let waits: usize = timer.record.iter().filter(|op| **op == Recorded::Wait).count();
    assert_eq!(waits, 1);
    for op in timer.record.iter() {
        match *op {
            Recorded::Start(hz) => assert_eq!(hz, 10),
            Recorded::Wait => {}
        }
    }
}

#[test]
fn delay_ms_zero_starts_cadence_and_never_waits() {
    let mut d = DelayFromCountDownTimer::new(MockTimer::new());
    d.delay_ms(0);
    let timer = d.free();
    assert_eq!(timer.record, vec![Recorded::Start(10)]);
}

#[test]
fn delay_ms_301_three_cadence_waits_then_1000_hz_remainder() {
    // floor(301 / 100) = 3 cadence waits, remainder 1 ms at 1000 Hz.
    let mut d = DelayFromCountDownTimer::new(MockTimer::new());
    d.delay_ms(301);
    let timer = d.free();
    assert_eq!(
        timer.record,
        vec![
            Recorded::Start(10),
            Recorded::Wait,
            Recorded::Wait,
            Recorded::Wait,
            Recorded::Start(1000),
            Recorded::Wait,
        ]
    );
}

#[test]
fn delay_us_250_000_uses_microsecond_scale() {
    // looping_delay = 100_000; two waits at 10 Hz then 50_000 us at
    // 1_000_000 / 50_000 = 20 Hz.
    let mut d = DelayFromCountDownTimer::new(MockTimer::new());
    d.delay_us(250_000);
    let timer = d.free();
    assert_eq!(
        timer.record,
        vec![
            Recorded::Start(10),
            Recorded::Wait,
            Recorded::Wait,
            Recorded::Start(20),
            Recorded::Wait,
        ]
    );
}

#[test]
fn delay_us_1_waits_once_at_1_mhz() {
    let mut d = DelayFromCountDownTimer::new(MockTimer::new());
    d.delay_us(1);
    let timer = d.free();
    assert_eq!(
        timer.record,
        vec![Recorded::Start(10), Recorded::Start(1_000_000), Recorded::Wait]
    );
}

#[test]
fn narrow_width_requests_take_the_32_bit_path() {
    let mut d = DelayFromCountDownTimer::new(MockTimer::new());
    d.delay_ms_u8(250);
    let timer = d.free();
    let expected: Vec<Recorded> = vec![
        Recorded::Start(10),
        Recorded::Wait,
        Recorded::Wait,
        Recorded::Start(20),
        Recorded::Wait,
    ];
    assert_eq!(timer.record, expected);

    let mut d = DelayFromCountDownTimer::new(MockTimer::new());
    d.delay_ms_u16(250);
    let timer = d.free();
    assert_eq!(timer.record, expected);

    let mut d = DelayFromCountDownTimer::new(MockTimer::new());
    d.delay_us_u8(250);
    let timer = d.free();
    assert_eq!(timer.record, vec![Recorded::Start(10), Recorded::Start(4000), Recorded::Wait]);

    let mut d = DelayFromCountDownTimer::new(MockTimer::new());
    d.delay_us_u16(250);
    let timer = d.free();
    assert_eq!(timer.record, vec![Recorded::Start(10), Recorded::Start(4000), Recorded::Wait]);
}

#[test]
fn wait_errors_are_discarded_and_the_delay_proceeds() {
    // A channel that reports an error on every wait: the provider treats each
    // wait as elapsed and issues the same sequence (best effort).
    let mut timer = MockTimer::new();
    timer.fail_waits = true;
    let mut d = DelayFromCountDownTimer::new(timer);
    d.delay_ms(250);
    let timer = d.free();
    assert_eq!(
        timer.record,
        vec![
            Recorded::Start(10),
            Recorded::Wait,
            Recorded::Wait,
            Recorded::Start(20),
            Recorded::Wait,
        ]
    );
}

#[test]
fn equal_requests_produce_equal_sequences() {
    let mut d = DelayFromCountDownTimer::new(MockTimer::new());
    d.delay_ms(137);
    let first: Vec<Recorded> = d.free().record;
    let mut d = DelayFromCountDownTimer::new(MockTimer::new());
    d.delay_ms(137);
    let second: Vec<Recorded> = d.free().record;
    assert_eq!(first, second);
}

#[test]
fn free_returns_the_owned_channel() {
    let mut timer = MockTimer::new();
    timer.record.push(Recorded::Start(77));
    let d = DelayFromCountDownTimer::new(timer);
    let timer = d.free();
    assert_eq!(timer.record, vec![Recorded::Start(77)]);
}
