use touch_shell::spring::{StepPlan, MAX_UPDATE_NANOS, TICKS_PER_NANO, TICKS_PER_STEP};

#[test]
fn no_time_no_step() {
    let plan = StepPlan::for_elapsed(0);
    assert_eq!(plan, StepPlan { full_steps: 0, last_step: 0 });
    assert_eq!(plan.steps(), 0);
}

#[test]
fn a_short_frame_is_one_short_step() {
    // 10 ms: less than a sixtieth of a second.
    let plan = StepPlan::for_elapsed(10_000_000);
    assert_eq!(plan, StepPlan { full_steps: 0, last_step: 600_000_000 });
    assert_eq!(plan.steps(), 1);
    assert_eq!(plan.step_ticks(0), 600_000_000);
    assert_eq!(plan.step_ticks(1), 0);
}

#[test]
fn a_long_frame_is_cut_into_sixtieths() {
    // 40 ms = 2.4 sixtieths of a second.
    let plan = StepPlan::for_elapsed(40_000_000);
    assert_eq!(plan, StepPlan { full_steps: 2, last_step: 400_000_000 });
    assert_eq!(plan.steps(), 3);
    assert_eq!(plan.step_ticks(0), TICKS_PER_STEP);
    assert_eq!(plan.step_ticks(1), TICKS_PER_STEP);
    assert_eq!(plan.step_ticks(2), 400_000_000);
    assert_eq!(plan.step_ticks(3), 0);
}

#[test]
fn a_nanosecond_is_sixty_ticks() {
    assert_eq!(TICKS_PER_NANO, 60);
    assert_eq!(StepPlan::for_elapsed(1), StepPlan { full_steps: 0, last_step: 60 });
    // A sixtieth of a second lies between 16666666 and 16666667 nanoseconds.
    assert_eq!(
        StepPlan::for_elapsed(16_666_666),
        StepPlan { full_steps: 0, last_step: 999_999_960 }
    );
    assert_eq!(StepPlan::for_elapsed(16_666_667), StepPlan { full_steps: 1, last_step: 20 });
}

#[test]
fn a_stall_is_clamped_to_one_second() {
    assert_eq!(MAX_UPDATE_NANOS, 1_000_000_000);
    let second = StepPlan { full_steps: 60, last_step: 0 };
    assert_eq!(StepPlan::for_elapsed(1_000_000_000), second);
    assert_eq!(StepPlan::for_elapsed(1_000_000_001), second);
    assert_eq!(StepPlan::for_elapsed(u64::MAX), second);
    assert_eq!(second.steps(), 60);
    assert_eq!(
        StepPlan::for_elapsed(999_999_999),
        StepPlan { full_steps: 59, last_step: 999_999_940 }
    );
}

#[test]
fn steps_cover_the_elapsed_time() {
    let mut nanos: u64 = 0;
    while nanos <= 1_100_000_000 {
        let plan = StepPlan::for_elapsed(nanos);
        let mut ticks: u64 = 0;
        let mut index: u32 = 0;
        while (index as u64) < plan.steps() {
            let step = plan.step_ticks(index);
            assert!(step > 0 && step <= TICKS_PER_STEP);
            ticks += step;
            index += 1;
        }
        assert_eq!(ticks, nanos.min(MAX_UPDATE_NANOS) * TICKS_PER_NANO);
        nanos += 7_654_321;
    }
}
