//! What one run of the converter is asked to do, and what it then has to
//! hand out.

use crate::audio::{AudioSegment, MorseCodeAudioPlayer};
use crate::translate::{ascii_to_morse, translate};
use std::path::PathBuf;
use vstd::prelude::*;

verus! {

/// `std::path::PathBuf`, which the library carries and never looks into.
#[verifier::external_type_specification]
#[verifier::external_body]
pub struct ExPathBuf(PathBuf);

/// The settings of one run.
pub struct Config {
    /// The file that holds the text; standard input where there is none.
    pub input_ascii: Option<PathBuf>,
    /// The file that the Morse code is written to, if any.
    pub output_ascii: Option<PathBuf>,
    /// Whether the Morse code is kept silent.
    pub disable_audio: bool,
    /// Whether the Morse code is printed.
    pub print_code: bool,
    /// The settings of the playback.
    pub audio: MorseCodeAudioPlayer,
}

/// What a run hands out: the Morse code of the text and, unless audio is
/// disabled, the tones and silences that play it.
pub struct Rendition {
    pub morse: String,
    pub audio: Option<Vec<AudioSegment>>,
}

impl Config {
    /// The settings of a run, with a player at the given levels.
    pub fn new(
        input_ascii: Option<PathBuf>,
        output_ascii: Option<PathBuf>,
        disable_audio: bool,
        print_code: bool,
        pitch: u8,
        duration: u8,
    ) -> (config: Self)
        ensures
            config.input_ascii == input_ascii,
            config.output_ascii == output_ascii,
            config.disable_audio == disable_audio,
            config.print_code == print_code,
            config.audio.pitch_level() == pitch,
            config.audio.tone_level() == duration,
    {
        Config {
            input_ascii,
            output_ascii,
            disable_audio,
            print_code,
            audio: MorseCodeAudioPlayer::new(pitch, duration),
        }
    }
}

/// Converts `text` and, unless `config` disables audio, lays out its
/// playback.
pub fn run(config: &Config, text: &str) -> (out: Rendition)
    ensures
        out.morse@ == translate(text@),
        config.disable_audio ==> out.audio is None,
        !config.disable_audio ==> out.audio is Some && out.audio->0@ == config.audio.render(
            out.morse@,
        ),
{
    let morse = ascii_to_morse(text);
    let audio = if config.disable_audio {
        None
    } else {
        Some(config.audio.synthesize(morse.as_str()))
    };
    Rendition { morse, audio }
}

} // verus!
