use game_engine::clock::{Clock, FIXED_DT_NANOS, MAX_FRAME_TIME_NANOS, MAX_STEPS_PER_TICK};

#[test]
fn fixed_step_is_sixty_hertz() {
    assert_eq!(FIXED_DT_NANOS, 16_666_667);
    assert_eq!(MAX_FRAME_TIME_NANOS, 250_000_000);
}

#[test]
fn short_frame_runs_no_step() {
    let mut c = Clock::new();
    let t = c.advance(10_000_000);
    assert_eq!(t.steps, 0);
    assert_eq!(t.frame_time, 10_000_000);
    assert_eq!(t.accumulator, 10_000_000);
    assert_eq!(c.accumulator(), 10_000_000);
}

#[test]
fn accumulated_time_becomes_a_step() {
    let mut c = Clock::new();
    c.advance(10_000_000);
    let t = c.advance(10_000_000);
    assert_eq!(t.steps, 1);
    assert_eq!(t.accumulator, 20_000_000 - 16_666_667);
}

#[test]
fn long_frame_is_cut_to_the_maximum() {
    let mut c = Clock::new();
    let t = c.advance(5_000_000_000);
    assert_eq!(t.frame_time, 250_000_000);
    assert_eq!(t.steps, 14);
    assert_eq!(t.accumulator, 250_000_000 - 14 * 16_666_667);
    assert!(t.steps <= MAX_STEPS_PER_TICK);
}

#[test]
fn steps_never_exceed_the_bound() {
    let mut c = Clock::new();
    c.advance(16_666_666);
    let t = c.advance(u128::MAX);
    assert_eq!(t.steps, 15);
    assert_eq!(t.steps, MAX_STEPS_PER_TICK);
    assert!(t.accumulator < FIXED_DT_NANOS);
}

#[test]
fn splitting_a_frame_gives_the_same_steps() {
    let mut whole = Clock::new();
    let a = whole.advance(100_000_000);
    let mut split = Clock::new();
    let b1 = split.advance(30_000_000);
    let b2 = split.advance(70_000_000);
    assert_eq!(a.steps, b1.steps + b2.steps);
    assert_eq!(whole.accumulator(), split.accumulator());
    assert_eq!(a.steps, 5);
}

#[test]
fn first_tick_admits_no_time() {
    let mut c = Clock::default();
    let t = c.tick();
    assert_eq!(t.frame_time, 0);
    assert_eq!(t.steps, 0);
    assert_eq!(t.accumulator, 0);
}

#[test]
fn later_tick_measures_elapsed_time() {
    let mut c = Clock::new();
    c.tick();
    let start = std::time::Instant::now();
    while start.elapsed() < std::time::Duration::from_millis(40) {}
    let t = c.tick();
    assert!(t.frame_time >= 40_000_000);
    assert!(t.frame_time <= MAX_FRAME_TIME_NANOS);
    assert!(t.steps >= 2);
    assert!(t.accumulator < FIXED_DT_NANOS);
}

#[test]
fn many_frames_run_at_the_fixed_rate() {
    let mut c = Clock::new();
    let frames: [u128; 6] = [7_000_000, 33_333_334, 0, 16_666_667, 1_000_000, 42_000_000];
    let mut steps: u64 = 0;
    for f in frames {
        steps += u64::from(c.advance(f).steps);
    }
    let total: u64 = frames.iter().map(|f| *f as u64).sum();
    assert_eq!(steps, total / FIXED_DT_NANOS);
    assert_eq!(c.accumulator(), total % FIXED_DT_NANOS);
    assert_eq!(steps, 5);
}

#[test]
fn each_tick_measures_from_the_previous_reading() {
    let base = std::time::Instant::now();
    let mut c = Clock::new();
    let t0 = c.tick_at(base);
    assert_eq!(t0.frame_time, 0);
    let t1 = c.tick_at(base + std::time::Duration::from_millis(20));
    assert_eq!(t1.frame_time, 20_000_000);
    assert_eq!(t1.steps, 1);
    let t2 = c.tick_at(base + std::time::Duration::from_millis(30));
    assert_eq!(t2.frame_time, 10_000_000);
    assert_eq!(t2.accumulator, 30_000_000 - 16_666_667);
    let t3 = c.tick_at(base + std::time::Duration::from_millis(30));
    assert_eq!(t3.frame_time, 0);
    assert_eq!(t3.steps, 0);
}

#[test]
fn a_reading_before_the_previous_one_admits_no_time() {
    let base = std::time::Instant::now();
    let mut c = Clock::new();
    c.tick_at(base + std::time::Duration::from_millis(50));
    let t = c.tick_at(base);
    assert_eq!(t.frame_time, 0);
}
