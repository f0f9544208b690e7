use screen_recorder::pump::{EmissionSchedule, FramePump, IDLE_WAIT_CAP_NS};

fn fill(w: usize, h: usize, color: [u8; 4]) -> Vec<u8> {
    let mut v = Vec::with_capacity(w * h * 4);
    for _ in 0..w * h {
        v.extend_from_slice(&color);
    }
    v
}

#[test]
fn schedule_starts_one_interval_ahead() {
    let s = EmissionSchedule::new(1_000, 30);
    assert_eq!(s.interval_ns, 1_000_000_000 / 30);
    assert_eq!(s.next_due_ns, 1_000 + 1_000_000_000 / 30);
    assert_eq!(s.frames_emitted, 0);
}

#[test]
fn due_emissions_count_elapsed_slots() {
    // fps 10: one slot per 100 ms, first due at 100 ms.
    let mut s = EmissionSchedule::new(0, 10);
    assert_eq!(s.due_emissions(50_000_000), 0);
    assert_eq!(s.frames_emitted, 0);
    assert_eq!(s.due_emissions(100_000_000), 1);
    assert_eq!(s.frames_emitted, 1);
    assert_eq!(s.next_due_ns, 200_000_000);
    // 250 ms later: slots at 200 ms, 300 ms, 400 ms are due by 450 ms.
    assert_eq!(s.due_emissions(450_000_000), 3);
    assert_eq!(s.frames_emitted, 4);
    assert_eq!(s.next_due_ns, 500_000_000);
}

#[test]
fn emitted_slot_indices_advance_by_one() {
    // Slot indices over a run are consecutive: each step emits the next
    // `frames_emitted` indices with no skip or repeat.
    let mut s = EmissionSchedule::new(0, 100);
    let mut seen: Vec<u64> = Vec::new();
    let mut now: u64 = 0;
    for _ in 0..7 {
        now += 25_000_000;
        let start = s.frames_emitted;
        let n = s.due_emissions(now);
        for k in 0..n {
            seen.push(start + k);
        }
        assert_eq!(s.frames_emitted, start + n);
    }
    for (i, &slot) in seen.iter().enumerate() {
        assert_eq!(slot, i as u64);
    }
}

#[test]
fn sleep_budget_is_capped() {
    let s = EmissionSchedule {
        interval_ns: 100_000_000,
        next_due_ns: 500_000_000,
        frames_emitted: 0,
    };
    assert_eq!(s.sleep_budget_ns(500_000_000), 0);
    assert_eq!(s.sleep_budget_ns(499_999_000), 1_000);
    assert_eq!(s.sleep_budget_ns(0), IDLE_WAIT_CAP_NS);
}

#[test]
fn missed_captures_replay_last_frame() {
    // The schedule advances 5 slots while capture misses 10 times: the
    // pre-miss frame is emitted 5 times and the session does not fail.
    let seed = fill(2, 2, [9, 8, 7, 6]);
    let schedule = EmissionSchedule::new(0, 10);
    let mut pump = FramePump::new(seed.clone(), 2, 2, schedule);
    let mut emitted = 0u64;
    for poll in 0..10u64 {
        pump.refresh(None);
        // Two polls per slot: 50 ms apart against a 100 ms interval.
        let now = (poll + 1) * 50_000_000;
        emitted += pump.schedule.due_emissions(now);
        assert_eq!(pump.last_frame, seed);
    }
    assert_eq!(emitted, 5);
    assert_eq!(pump.schedule.frames_emitted, 5);
}

#[test]
fn refresh_keeps_matching_frames_and_normalizes_others() {
    let seed = fill(2, 2, [1, 1, 1, 1]);
    let schedule = EmissionSchedule::new(0, 30);
    let mut pump = FramePump::new(seed, 2, 2, schedule);

    let exact = fill(2, 2, [5, 5, 5, 5]);
    pump.refresh(Some((exact.clone(), 2, 2)));
    assert_eq!(pump.last_frame, exact);

    let wide = fill(4, 4, [3, 2, 1, 0]);
    pump.refresh(Some((wide, 4, 4)));
    assert_eq!(pump.last_frame, fill(2, 2, [3, 2, 1, 0]));

    let degenerate: Vec<u8> = Vec::new();
    pump.refresh(Some((degenerate, 0, 0)));
    assert_eq!(pump.last_frame, fill(2, 2, [0, 0, 0, 0]));
}
