use gcip::classify::{classify_line, LineEvent, ParseError};
use gcip::commit::{abort_steps, backup_path, finish_steps, on_step_result, temp_path, FileStep, StepOutcome};
use gcip::height::{parse_pause_height, Height, HeightError};
use gcip::inject::{rewrite, Action, RunState};
use gcip::template::{build_pause_gcode, height_text};

fn lines(v: &[&str]) -> Vec<String> {
    v.iter().map(|s| s.to_string()).collect()
}

fn height(text: &str) -> Height {
    parse_pause_height(text).unwrap()
}

fn split_crlf(text: &str) -> Vec<String> {
    let mut v: Vec<String> = text.split("\r\n").map(|s| s.to_string()).collect();
    assert_eq!(v.pop().unwrap(), "");
    v
}

#[test]
fn pause_inserted_at_matching_layer() {
    let src = lines(&["G1 X1", "; END_LAYER_OBJECT z=12.500", "G1 X2"]);
    let w = rewrite(&src, &height("12.5")).unwrap();
    assert!(w.state.pause_inserted);
    let expected = format!(
        "G1 X1\r\n; END_LAYER_OBJECT z=12.500  (pause here)\r\n{}G1 X2\r\n",
        build_pause_gcode(0, 0, 13000)
    );
    assert_eq!(w.text, expected);
    assert!(w.text.contains("M109 S0; ensure melting before Z homing\r\n"));
    assert!(w.text.contains("M104 S0; restore the extruder temperature\r\n"));
    assert!(w.text.contains("\r\nG0 Z13.000 ; <--- Change"));
}

#[test]
fn block_uses_last_and_highest_temperatures() {
    let src = lines(&["M104 S200", "M109 S220", "; END_LAYER_OBJECT z=12.500"]);
    let w = rewrite(&src, &height("12.5")).unwrap();
    assert!(w.text.contains("M109 S220; ensure melting"));
    assert!(w.text.contains("M104 S220; restore the extruder"));
}

#[test]
fn restore_is_last_and_preheat_is_highest() {
    let src = lines(&["M109 S250", "M104 S210", "; END_LAYER_OBJECT z=3"]);
    let w = rewrite(&src, &height("3.0")).unwrap();
    assert!(w.text.contains("M109 S250; ensure melting"));
    assert!(w.text.contains("M104 S210; restore the extruder"));
    assert!(w.text.contains("G0 Z3.500 ;"));
}

#[test]
fn height_not_found_leaves_text_unchanged() {
    let src = lines(&["; END_LAYER_OBJECT z=10.0", "G1 X1", "; END_LAYER_OBJECT z=50.0"]);
    let w = rewrite(&src, &height("99.0")).unwrap();
    assert!(!w.state.pause_inserted);
    assert!(!w.state.target_layer_found);
    assert_eq!(w.state.finish(), Action::NotFound);
    assert_eq!(finish_steps(w.state.pause_inserted), vec![FileStep::RemoveTemp]);
    assert_eq!(w.text, "; END_LAYER_OBJECT z=10.0\r\nG1 X1\r\n; END_LAYER_OBJECT z=50.0\r\n");
}

#[test]
fn no_end_advisory_once_target_reached() {
    let src = lines(&["; END_LAYER_OBJECT z=1.0", "; END_LAYER_OBJECT z=2.0"]);
    let w = rewrite(&src, &height("1.5")).unwrap();
    assert_eq!(w.state.finish(), Action::Pass);
    let w = rewrite(&src, &height("2")).unwrap();
    assert_eq!(w.state.finish(), Action::Pass);
    assert!(w.state.pause_inserted);
}

#[test]
fn shown_height_has_three_decimals() {
    assert_eq!(height_text(&height("99")), "99.000");
    assert_eq!(height_text(&height("12.5")), "12.500");
    assert_eq!(height_text(&height("0.0456")), "0.046");
}

#[test]
fn not_found_reported_once_above_target() {
    let target = height("5.0");
    let mut st = RunState::new();
    let (_, a) = st.process_line("; END_LAYER_OBJECT z=4.8", &target).unwrap();
    assert_eq!(a, Action::Pass);
    let (_, a) = st.process_line("; END_LAYER_OBJECT z=5.2", &target).unwrap();
    assert_eq!(a, Action::NotFound);
    let (_, a) = st.process_line("; END_LAYER_OBJECT z=5.4", &target).unwrap();
    assert_eq!(a, Action::Pass);
    assert!(st.target_layer_found);
    assert!(!st.pause_inserted);
}

#[test]
fn second_run_changes_nothing() {
    let src = lines(&["M104 S215", "; END_LAYER_OBJECT z=12.500", "G1 X2", "; END_LAYER_OBJECT z=12.750"]);
    let target = height("12.5");
    let first = rewrite(&src, &target).unwrap();
    assert!(first.state.pause_inserted);
    let again = split_crlf(&first.text);
    let second = rewrite(&again, &target).unwrap();
    assert!(!second.state.pause_inserted);
    assert_eq!(second.text, first.text);
    let mut st = RunState::new();
    let (out, a) = st.process_line("; END_LAYER_OBJECT z=12.500  (pause here)", &target).unwrap();
    assert_eq!(a, Action::AlreadyPaused);
    assert_eq!(out, "; END_LAYER_OBJECT z=12.500  (pause here)\r\n");
}

#[test]
fn line_endings_are_normalised() {
    let src = lines(&["a", "", "b\r"]);
    let w = rewrite(&src, &height("1")).unwrap();
    assert_eq!(w.text, "a\r\n\r\nb\r\r\n");
    let empty: Vec<String> = Vec::new();
    let w = rewrite(&empty, &height("1")).unwrap();
    assert_eq!(w.text, "");
    assert_eq!(w.state, RunState::new());
}

#[test]
fn rounding_to_thousandths() {
    assert_eq!(height("12.5").comparable(), 12500);
    assert_eq!(height("12.50004").comparable(), 12500);
    assert_eq!(height("12.5005").comparable(), 12501);
    assert_eq!(height("12.4996").comparable(), 12500);
    assert_ne!(height("12.500").comparable(), height("12.501").comparable());
    assert_eq!(height("0.0001").comparable(), height("0.0002").comparable());
    assert_eq!(height("12.5").resume_thousandths(), 13000);
    assert_eq!(height("12.3456789").ten_thousandths, 123456);
}

#[test]
fn pause_height_from_text() {
    assert_eq!(parse_pause_height("Pause at 7.25mm").unwrap().ten_thousandths, 72500);
    assert_eq!(parse_pause_height("12").unwrap().ten_thousandths, 120000);
    assert_eq!(parse_pause_height("x-y3.").unwrap().ten_thousandths, 30000);
    assert_eq!(parse_pause_height("0.00001").unwrap().ten_thousandths, 0);
    assert_eq!(parse_pause_height("abc"), Err(HeightError::NotPositive));
    assert_eq!(parse_pause_height(""), Err(HeightError::NotPositive));
    assert_eq!(parse_pause_height("-5"), Err(HeightError::NotPositive));
    assert_eq!(parse_pause_height("0.000"), Err(HeightError::NotPositive));
    assert_eq!(parse_pause_height("99999999999999999999"), Err(HeightError::TooLarge));
    assert_eq!(
        HeightError::NotPositive.message(),
        "Pause Height must be a positive number greater than zero."
    );
}

#[test]
fn layer_end_lines() {
    match classify_line("; END_LAYER_OBJECT z=1.5 foo").unwrap() {
        LineEvent::LayerEnd { height, rest } => {
            assert_eq!(height.ten_thousandths, 15000);
            assert_eq!(rest, " foo");
        }
        _ => panic!("not a layer end"),
    }
    match classify_line(";\t END_LAYER_OBJECT  z =7").unwrap() {
        LineEvent::LayerEnd { height, rest } => {
            assert_eq!(height.ten_thousandths, 70000);
            assert_eq!(rest, "");
        }
        _ => panic!("not a layer end"),
    }
    assert!(matches!(classify_line(";END_LAYER_OBJECT z=1").unwrap(), LineEvent::Plain));
    assert!(matches!(classify_line("; END_LAYER_OBJECT z=x").unwrap(), LineEvent::Plain));
    assert!(matches!(classify_line("G1 ; END_LAYER_OBJECT z=1").unwrap(), LineEvent::Plain));
    assert_eq!(
        classify_line("; END_LAYER_OBJECT z=99999999999999999999").unwrap_err(),
        ParseError::NumberTooLarge
    );
}

#[test]
fn temperature_lines() {
    assert!(matches!(classify_line("M104 S200").unwrap(), LineEvent::TemperatureSet { temperature: 200 }));
    assert!(matches!(classify_line("M109  S185.5").unwrap(), LineEvent::TemperatureSet { temperature: 185 }));
    assert!(matches!(classify_line("M104S7").unwrap(), LineEvent::TemperatureSet { temperature: 7 }));
    assert!(matches!(classify_line("M106 S200").unwrap(), LineEvent::Plain));
    assert!(matches!(classify_line("M1040 S1").unwrap(), LineEvent::Plain));
    assert!(matches!(classify_line(" M104 S200").unwrap(), LineEvent::Plain));
    assert!(matches!(classify_line("M104 S200 END_LAYER_OBJECT").unwrap(), LineEvent::Plain));
    assert_eq!(
        classify_line("M109 S99999999999999999999").unwrap_err(),
        ParseError::NumberTooLarge
    );
}

#[test]
fn bad_number_stops_the_pass() {
    let src = lines(&["G1", "M104 S99999999999999999999", "; END_LAYER_OBJECT z=1"]);
    assert_eq!(rewrite(&src, &height("1")).err(), Some(ParseError::NumberTooLarge));
}

#[test]
fn pause_block_numbers() {
    let b = build_pause_gcode(260, 200, 1005);
    assert!(b.starts_with("\r\n;====="));
    assert!(b.ends_with("=====\r\n\r\n"));
    assert!(b.contains("M109 S260; ensure"));
    assert!(b.contains("M104 S200; restore"));
    assert!(b.contains("G0 Z1.005 ;"));
}

#[test]
fn commit_protocol() {
    assert_eq!(
        finish_steps(true),
        vec![FileStep::RemoveBackup, FileStep::RenameSourceToBackup, FileStep::RenameTempToSource]
    );
    assert_eq!(finish_steps(false), vec![FileStep::RemoveTemp]);
    assert_eq!(abort_steps(), vec![FileStep::RemoveTemp]);
    assert_eq!(on_step_result(FileStep::RemoveBackup, false), StepOutcome::Continue);
    assert_eq!(on_step_result(FileStep::RenameSourceToBackup, false), StepOutcome::Fail);
    assert_eq!(on_step_result(FileStep::RenameTempToSource, false), StepOutcome::Fail);
    assert_eq!(on_step_result(FileStep::RenameTempToSource, true), StepOutcome::Continue);
    assert_eq!(temp_path("part.gcode"), "part.gcode.tmp");
    assert_eq!(backup_path("part.gcode"), "part.gcode.bak");
}
