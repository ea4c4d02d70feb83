//! Conversion of text to International Morse Code, and the timing of the
//! tones that render it.

pub mod alphabet;
pub mod audio;
pub mod config;
pub mod laws;
pub mod translate;

pub use audio::{AudioSegment, MorseCodeAudioPlayer};
pub use config::{run, Config, Rendition};
pub use translate::ascii_to_morse;
