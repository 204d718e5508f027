use sensorem::watch::{
    control_text, interval_is_valid, mode_for, Mode, StartupError, Step, WatchLoop, PAUSE_LIMIT,
};

fn seconds(interval: f32) -> u64 {
    f64::from(interval).to_bits()
}

#[test]
fn the_screen_is_cleared_and_the_cursor_sent_home() {
    assert_eq!(control_text(Step::ClearScreen), "\u{1b}[2J");
    assert_eq!(control_text(Step::MoveHome), "\u{1b}[1;1H");
}

#[test]
fn the_other_steps_write_no_control_sequence() {
    assert_eq!(control_text(Step::RunPass), "");
    assert_eq!(control_text(Step::Sleep), "");
    assert_eq!(control_text(Step::Exit { failed: false }), "");
    assert_eq!(control_text(Step::Exit { failed: true }), "");
}

#[test]
fn single_shot_mode_is_one_pass_and_the_end() {
    let mut watch = WatchLoop::new(Mode::Idle);
    assert_eq!(watch.current, None);
    assert_eq!(watch.advance(true), Step::RunPass);
    assert_eq!(watch.current, Some(Step::RunPass));
    assert_eq!(watch.advance(true), Step::Exit { failed: false });
    assert_eq!(watch.advance(true), Step::Exit { failed: false });
    assert_eq!(watch.advance(false), Step::Exit { failed: false });
    assert_eq!(watch.mode, Mode::Idle);
}

#[test]
fn a_failed_pass_ends_single_shot_mode_with_a_failure() {
    let mut watch = WatchLoop::new(Mode::Idle);
    assert_eq!(watch.advance(true), Step::RunPass);
    assert_eq!(watch.advance(false), Step::Exit { failed: true });
    assert_eq!(watch.advance(true), Step::Exit { failed: true });
}

#[test]
fn watch_mode_goes_round() {
    let mut watch = WatchLoop::new(Mode::Watching);
    for _ in 0..3 {
        assert_eq!(watch.advance(true), Step::ClearScreen);
        assert_eq!(watch.advance(true), Step::MoveHome);
        assert_eq!(watch.advance(true), Step::RunPass);
        assert_eq!(watch.advance(true), Step::Sleep);
    }
    assert_eq!(watch.mode, Mode::Watching);
}

#[test]
fn watch_mode_makes_one_pass_per_tick() {
    let ticks = 25;
    let mut watch = WatchLoop::new(Mode::Watching);
    let mut steps: Vec<Step> = Vec::new();
    let mut sleeps = 0;
    let mut passes = 0;
    while sleeps < ticks {
        let step = watch.advance(true);
        match step {
            Step::Sleep => {
                sleeps += 1;
                assert_eq!(passes, sleeps);
            }
            Step::RunPass => {
                passes += 1;
                let at = steps.len();
                assert!(at >= 2);
                assert_eq!(steps[at - 2], Step::ClearScreen);
                assert_eq!(steps[at - 1], Step::MoveHome);
            }
            Step::ClearScreen | Step::MoveHome => {}
            Step::Exit { .. } => panic!("watch mode has no end"),
        }
        steps.push(step);
    }
    assert_eq!(passes, ticks);
    assert_eq!(steps.len(), 4 * ticks);
}

#[test]
fn a_failure_ends_watch_mode_at_any_step() {
    for good_steps in 0..9 {
        let mut watch = WatchLoop::new(Mode::Watching);
        for _ in 0..good_steps {
            assert_ne!(watch.advance(true), Step::Exit { failed: true });
        }
        if good_steps == 0 {
            // nothing has been handed out that could have failed
            assert_eq!(watch.advance(true), Step::ClearScreen);
        }
        assert_eq!(watch.advance(false), Step::Exit { failed: true });
        assert_eq!(watch.advance(true), Step::Exit { failed: true });
        assert_eq!(watch.advance(false), Step::Exit { failed: true });
    }
}

#[test]
fn without_an_interval_the_mode_is_single_shot() {
    assert_eq!(mode_for(None), Ok(Mode::Idle));
}

#[test]
fn with_a_valid_interval_the_mode_is_watch_mode() {
    assert_eq!(mode_for(Some(seconds(0.01))), Ok(Mode::Watching));
    assert_eq!(mode_for(Some(seconds(0.0))), Ok(Mode::Watching));
    assert_eq!(mode_for(Some(seconds(-0.0))), Ok(Mode::Watching));
    assert_eq!(mode_for(Some(seconds(2.5))), Ok(Mode::Watching));
    assert_eq!(mode_for(Some(seconds(1.0e19))), Ok(Mode::Watching));
}

#[test]
fn an_interval_that_cannot_be_paused_for_is_refused() {
    assert_eq!(mode_for(Some(seconds(-0.01))), Err(StartupError::InvalidInterval));
    assert_eq!(mode_for(Some(seconds(-1.0))), Err(StartupError::InvalidInterval));
    assert_eq!(mode_for(Some(seconds(f32::NAN))), Err(StartupError::InvalidInterval));
    assert_eq!(mode_for(Some(seconds(f32::INFINITY))), Err(StartupError::InvalidInterval));
    assert_eq!(mode_for(Some(seconds(f32::NEG_INFINITY))), Err(StartupError::InvalidInterval));
    assert_eq!(mode_for(Some(seconds(f32::MAX))), Err(StartupError::InvalidInterval));
    assert_eq!(mode_for(Some(seconds(1.0e20))), Err(StartupError::InvalidInterval));
}

#[test]
fn the_limit_of_a_pause_is_two_to_the_64th() {
    let limit = 18446744073709551616.0f64;
    assert_eq!(PAUSE_LIMIT, limit.to_bits());
    assert!(!interval_is_valid(limit.to_bits()));
    assert!(interval_is_valid(limit.to_bits() - 1));
    assert!(!interval_is_valid(limit.to_bits() + 1));
    assert!(interval_is_valid(0));
    assert!(interval_is_valid(1));
    assert!(!interval_is_valid(0x8000_0000_0000_0001));
}

#[test]
fn valid_intervals_are_those_a_duration_can_be_made_of() {
    for interval in [0.0f32, -0.0, 0.01, 1.0, 3600.0, 1.0e19, 1.8446743e19] {
        assert!(interval_is_valid(seconds(interval)), "{}", interval);
        assert!(std::time::Duration::try_from_secs_f32(interval).is_ok(), "{}", interval);
    }
    for interval in [-0.01f32, -1.0, 1.8446744e19, 1.0e20, f32::MAX, f32::INFINITY, f32::NAN] {
        assert!(!interval_is_valid(seconds(interval)), "{}", interval);
        assert!(std::time::Duration::try_from_secs_f32(interval).is_err(), "{}", interval);
    }
}
