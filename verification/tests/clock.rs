use chip8::clock::{Clock, ClockDivider, Time, CLOCK_CPU, CLOCK_TIMER};

#[test]
fn rates_of_the_machine() {
    assert_eq!(CLOCK_CPU, 500);
    assert_eq!(CLOCK_TIMER, 60);
}

#[test]
fn clock_counts_its_ticks() {
    let mut clock = Clock::new(500);
    assert_eq!(clock.time(), Time { ticks: 0, rate: 500 });
    clock.tick();
    clock.tick();
    clock.tick();
    assert_eq!(clock.ticks, 3);
    assert_eq!(clock.rate, 500);
    assert_eq!(clock.time(), Time { ticks: 3, rate: 500 });
    clock.reset();
    assert_eq!(clock.time(), Time { ticks: 0, rate: 500 });
}

#[test]
fn divider_rounds_the_cycle_count_down() {
    let mut divider = ClockDivider::new(60);
    assert_eq!(divider.cycles, 0);
    assert_eq!(divider.rate, 60);
    // 8 / 500 s * 60 Hz = 0.96
    assert!(!divider.tick(Time { ticks: 8, rate: 500 }));
    assert_eq!(divider.cycles, 0);
    // 9 / 500 s * 60 Hz = 1.08
    assert!(divider.tick(Time { ticks: 9, rate: 500 }));
    assert_eq!(divider.cycles, 1);
    // one second
    assert!(divider.tick(Time { ticks: 500, rate: 500 }));
    assert_eq!(divider.cycles, 60);
    // 25 / 500 s * 60 Hz = 3 exactly
    assert!(divider.tick(Time { ticks: 25, rate: 500 }));
    assert_eq!(divider.cycles, 3);
    assert!(!divider.tick(Time { ticks: 25, rate: 500 }));
    assert_eq!(divider.rate, 60);
}

#[test]
fn divider_counts_from_the_time_alone() {
    let mut fresh = ClockDivider::new(60);
    let mut used = ClockDivider::new(60);
    for ticks in 0..1000 {
        used.tick(Time { ticks, rate: 500 });
    }
    fresh.tick(Time { ticks: 12345, rate: 500 });
    used.tick(Time { ticks: 12345, rate: 500 });
    assert_eq!(fresh.cycles, 12345 * 60 / 500);
    assert_eq!(used.cycles, fresh.cycles);
}

#[test]
fn timer_divider_counts_a_new_cycle_every_8_or_9_ticks() {
    let mut clock = Clock::new(CLOCK_CPU);
    let mut divider = ClockDivider::new(CLOCK_TIMER);
    let mut since_last = 0;
    let mut gaps: Vec<u64> = Vec::new();
    let mut previous = 0;
    for _ in 0..5000 {
        clock.tick();
        since_last += 1;
        let advanced = divider.tick(clock.time());
        assert!(divider.cycles >= previous);
        assert_eq!(advanced, divider.cycles != previous);
        assert!(divider.cycles - previous <= 1);
        previous = divider.cycles;
        if advanced {
            gaps.push(since_last);
            since_last = 0;
        }
    }
    assert_eq!(divider.cycles, 600);
    assert_eq!(gaps.len(), 600);
    assert!(gaps.iter().all(|gap| *gap == 8 || *gap == 9));
    assert_eq!(&gaps[0..6], &[9, 8, 8, 9, 8, 8]);
    assert_eq!(gaps.iter().sum::<u64>(), 5000);
}

#[test]
fn instruction_divider_counts_every_tick() {
    let mut clock = Clock::new(CLOCK_CPU);
    let mut divider = ClockDivider::new(CLOCK_CPU);
    assert!(!divider.tick(clock.time()));
    for n in 1..100 {
        clock.tick();
        assert!(divider.tick(clock.time()));
        assert_eq!(divider.cycles, n);
    }
}

#[test]
fn divider_saturates() {
    let mut divider = ClockDivider::new(u64::MAX);
    assert!(divider.tick(Time { ticks: 1, rate: 1 }));
    assert_eq!(divider.cycles, u64::MAX);
    // u64::MAX seconds at u64::MAX Hz: more cycles than 64 bits hold
    assert!(!divider.tick(Time { ticks: u64::MAX, rate: 1 }));
    assert_eq!(divider.cycles, u64::MAX);
    // half a second
    assert!(divider.tick(Time { ticks: 1, rate: 2 }));
    assert_eq!(divider.cycles, u64::MAX / 2);
    let mut faster = ClockDivider::new(1000);
    assert!(faster.tick(Time { ticks: 3, rate: 500 }));
    assert_eq!(faster.cycles, 6);
}

#[test]
fn divider_of_rate_zero_never_counts() {
    let mut divider = ClockDivider::new(0);
    assert!(!divider.tick(Time { ticks: 1_000_000, rate: 500 }));
    assert_eq!(divider.cycles, 0);
}
