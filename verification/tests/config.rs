use morse::{run, AudioSegment, Config};
use std::path::PathBuf;

#[test]
fn new_keeps_what_it_is_given() {
    let config = Config::new(
        Some(PathBuf::from("in.txt")),
        Some(PathBuf::from("out.txt")),
        true,
        false,
        50,
        25,
    );
    assert_eq!(config.input_ascii, Some(PathBuf::from("in.txt")));
    assert_eq!(config.output_ascii, Some(PathBuf::from("out.txt")));
    assert!(config.disable_audio);
    assert!(!config.print_code);
    assert_eq!(config.audio.frequency_hz(), 500);
    assert_eq!(config.audio.dot_millis(), 100);
}

#[test]
fn new_without_files() {
    let config = Config::new(None, None, false, true, 0, 100);
    assert_eq!(config.input_ascii, None);
    assert_eq!(config.output_ascii, None);
    assert!(!config.disable_audio);
    assert!(config.print_code);
    assert_eq!(config.audio.frequency_hz(), 200);
    assert_eq!(config.audio.dot_millis(), 250);
}

#[test]
fn a_silent_run_translates_and_lays_out_nothing() {
    let config = Config::new(None, None, true, true, 50, 25);
    let out = run(&config, "SOS");
    assert_eq!(out.morse, "... --- ...");
    assert_eq!(out.audio, None);
}

#[test]
fn a_run_with_audio_lays_out_the_translation() {
    let config = Config::new(None, None, false, false, 50, 25);
    let out = run(&config, "  e T ");
    assert_eq!(out.morse, ". / -");
    assert_eq!(
        out.audio,
        Some(vec![
            AudioSegment::Tone { frequency_hz: 500, millis: 100 },
            AudioSegment::Silence { millis: 100 },
            AudioSegment::Silence { millis: 300 },
            AudioSegment::Silence { millis: 700 },
            AudioSegment::Silence { millis: 300 },
            AudioSegment::Tone { frequency_hz: 500, millis: 300 },
            AudioSegment::Silence { millis: 100 },
        ])
    );
    assert_eq!(out.audio, Some(config.audio.synthesize(&out.morse)));
}

#[test]
fn a_run_on_an_empty_text() {
    let config = Config::new(None, None, false, false, 50, 25);
    let out = run(&config, " \n");
    assert_eq!(out.morse, "");
    assert_eq!(out.audio, Some(vec![]));
}
