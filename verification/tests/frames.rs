use sensorem::color::Celsius;
use sensorem::render::render_chips;
use sensorem::sensor::{Chip, Feature, Reading, Subfeature, SubfeatureKind};
use sensorem::watch::{control_text, mode_for, Mode, Step, WatchLoop};

fn fixed_snapshot() -> Vec<Chip> {
    let degrees = 72.5f64;
    let value = Reading::new(Celsius::from_bits(degrees.to_bits()), format!("{}", degrees));
    vec![Chip {
        name: Some("coretemp-isa-0000".to_string()),
        features: vec![Feature {
            label: Some("Core 0".to_string()),
            subfeatures: vec![Subfeature { kind: SubfeatureKind::TemperatureInput, value }],
        }],
    }]
}

#[test]
fn after_n_ticks_n_frames_have_been_written_each_behind_clear_and_home() {
    colored::control::set_override(true);
    let ticks = 7;
    let mode = mode_for(Some(f64::from(0.01f32).to_bits())).unwrap();
    assert_eq!(mode, Mode::Watching);
    let mut watch = WatchLoop::new(mode);
    let mut terminal = String::new();
    let mut slept = 0;
    let mut succeeded = true;
    while slept < ticks {
        let step = watch.advance(succeeded);
        terminal.push_str(&control_text(step));
        succeeded = match step {
            Step::ClearScreen | Step::MoveHome => true,
            Step::RunPass => match render_chips(&fixed_snapshot()) {
                Ok(frame) => {
                    terminal.push_str(&frame);
                    true
                }
                Err(_) => false,
            },
            Step::Sleep => {
                slept += 1;
                true
            }
            Step::Exit { .. } => panic!("watch mode has no end"),
        };
    }
    let frame =
        "\u{1b}[2J\u{1b}[1;1Hcoretemp-isa-0000\nCore 0: \u{1b}[93m72.5°C\u{1b}[0m\n";
    assert_eq!(terminal, frame.repeat(ticks));
}

#[test]
fn single_shot_mode_writes_one_frame_and_no_control_sequence() {
    colored::control::set_override(true);
    let mut watch = WatchLoop::new(mode_for(None).unwrap());
    let mut terminal = String::new();
    let mut succeeded = true;
    let failed = loop {
        let step = watch.advance(succeeded);
        terminal.push_str(&control_text(step));
        match step {
            Step::RunPass => match render_chips(&fixed_snapshot()) {
                Ok(frame) => terminal.push_str(&frame),
                Err(_) => succeeded = false,
            },
            Step::Exit { failed } => break failed,
            _ => panic!("single-shot mode neither clears nor sleeps"),
        }
    };
    assert!(!failed);
    assert_eq!(terminal, "coretemp-isa-0000\nCore 0: \u{1b}[93m72.5°C\u{1b}[0m\n");
}

#[test]
fn a_pass_that_fails_ends_the_run_with_a_failure() {
    let nameless = vec![Chip { name: None, features: vec![] }];
    let mut watch = WatchLoop::new(Mode::Watching);
    let mut succeeded = true;
    let mut passes = 0;
    let failed = loop {
        match watch.advance(succeeded) {
            Step::RunPass => {
                passes += 1;
                succeeded = render_chips(&nameless).is_ok();
            }
            Step::Exit { failed } => break failed,
            _ => {}
        }
    };
    assert!(failed);
    assert_eq!(passes, 1);
}
