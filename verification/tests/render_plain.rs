use sensorem::color::Celsius;
use sensorem::render::{render_chips, show_reading, write_chip};
use sensorem::sensor::{Chip, Feature, Reading, Subfeature, SubfeatureKind};

fn colours_off() {
    colored::control::set_override(false);
}

fn plain_reading(degrees: f64) -> Reading {
    Reading::new(Celsius::from_bits(degrees.to_bits()), format!("{}", degrees)).unwrap()
}

fn plain_chip(name: &str, label: &str, degrees: f64) -> Chip {
    Chip {
        name: Some(name.to_string()),
        features: vec![Feature {
            label: Some(label.to_string()),
            subfeatures: vec![Subfeature {
                kind: SubfeatureKind::TemperatureInput,
                value: Some(plain_reading(degrees)),
            }],
        }],
    }
}

#[test]
fn without_colours_a_value_is_its_text_and_the_unit() {
    colours_off();
    assert_eq!(show_reading(&plain_reading(72.5)), "72.5°C");
    assert_eq!(show_reading(&plain_reading(-3.0)), "-3°C");
    assert_eq!(show_reading(&plain_reading(f64::NAN)), "NaN°C");
}

#[test]
fn without_colours_one_core_renders_as_two_plain_lines() {
    colours_off();
    let mut out = String::new();
    write_chip(&plain_chip("coretemp-isa-0000", "Core 0", 72.5), &mut out).unwrap();
    assert_eq!(out, "coretemp-isa-0000\nCore 0: 72.5°C\n");
}

#[test]
fn without_colours_rendering_twice_gives_the_same_text() {
    colours_off();
    let chips =
        vec![plain_chip("coretemp-isa-0000", "Core 0", 72.5), plain_chip("acpitz", "temp1", 27.8)];
    let first = render_chips(&chips).unwrap();
    let second = render_chips(&chips).unwrap();
    assert_eq!(first, second);
    assert_eq!(first, "coretemp-isa-0000\nCore 0: 72.5°C\nacpitz\ntemp1: 27.8°C\n");
}
