//! The timing model: how a Morse string becomes a sequence of tones and
//! silences.

use vstd::prelude::*;

verus! {

/// Frequency of the tone at pitch level 0, in hertz.
pub const MIN_PITCH_HZ: u32 = 200;

/// What one pitch level adds to the frequency, in hertz: level 100 gives
/// 800 Hz.
pub const PITCH_STEP_HZ: u32 = 6;

/// Length of a dot at tone level 0, in milliseconds.
pub const MIN_DOT_MS: u32 = 50;

/// What one tone level adds to the length of a dot, in milliseconds: level
/// 100 gives 250 ms.
pub const DOT_STEP_MS: u32 = 2;

/// Length of a dot, in units: the dot is the unit.
pub const DOT_UNITS: u32 = 1;

/// Length of a dash, in units.
pub const DASH_UNITS: u32 = 3;

/// Length of the silence that follows every dot and dash, in units.
pub const SYMBOL_GAP_UNITS: u32 = 1;

/// Length of the silence between two letters of a word, in units.
pub const CHARACTER_GAP_UNITS: u32 = 3;

/// Length of the silence that a word separator adds, in units.
pub const WORD_GAP_UNITS: u32 = 7;

/// One piece of what is played: a tone or a silence, with its length in
/// milliseconds.
#[derive(Clone, Copy, Debug, PartialEq, Eq)]
pub enum AudioSegment {
    Tone { frequency_hz: u32, millis: u32 },
    Silence { millis: u32 },
}

/// The settings of a playback: how high the tone is and how long a dot
/// lasts, each as a level. Levels from 0 to 100 span 200 Hz to 800 Hz and
/// 50 ms to 250 ms; a higher level goes on along the same line.
pub struct MorseCodeAudioPlayer {
    pitch: u8,
    duration: u8,
}

/// How often `c` stands in `s`.
pub open spec fn count_char(s: Seq<char>, c: char) -> nat
    decreases s.len(),
{
    if s.len() == 0 {
        0
    } else {
        count_char(s.drop_last(), c) + if s.last() == c {
            1nat
        } else {
            0nat
        }
    }
}

/// The number of tones among `segments`.
pub open spec fn count_tones(segments: Seq<AudioSegment>) -> nat
    decreases segments.len(),
{
    if segments.len() == 0 {
        0
    } else {
        count_tones(segments.drop_last()) + if segments.last() is Tone {
            1nat
        } else {
            0nat
        }
    }
}

/// The number of silences among `segments`.
pub open spec fn count_silences(segments: Seq<AudioSegment>) -> nat
    decreases segments.len(),
{
    if segments.len() == 0 {
        0
    } else {
        count_silences(segments.drop_last()) + if segments.last() is Silence {
            1nat
        } else {
            0nat
        }
    }
}

/// Tones and silences of two sequences add up.
pub proof fn lemma_count_concat(a: Seq<AudioSegment>, b: Seq<AudioSegment>)
    ensures
        count_tones(a + b) == count_tones(a) + count_tones(b),
        count_silences(a + b) == count_silences(a) + count_silences(b),
    decreases b.len(),
{
    if b.len() == 0 {
        assert(a + b =~= a);
    } else {
        assert((a + b).drop_last() =~= a + b.drop_last());
        lemma_count_concat(a, b.drop_last());
    }
}

impl MorseCodeAudioPlayer {
    /// The pitch level.
    pub closed spec fn pitch_level(&self) -> nat {
        self.pitch as nat
    }

    /// The tone level, which sets the length of a dot.
    pub closed spec fn tone_level(&self) -> nat {
        self.duration as nat
    }

    /// Frequency of the tone, in hertz.
    pub open spec fn frequency(&self) -> nat {
        MIN_PITCH_HZ as nat + PITCH_STEP_HZ as nat * self.pitch_level()
    }

    /// Length of a dot, in milliseconds. It is the unit of all other lengths.
    pub open spec fn unit(&self) -> nat {
        MIN_DOT_MS as nat + DOT_STEP_MS as nat * self.tone_level()
    }

    /// A tone that lasts `units` units.
    pub open spec fn tone(&self, units: nat) -> AudioSegment {
        AudioSegment::Tone {
            frequency_hz: self.frequency() as u32,
            millis: (units * self.unit()) as u32,
        }
    }

    /// A silence that lasts `units` units.
    pub open spec fn silence(&self, units: nat) -> AudioSegment {
        AudioSegment::Silence { millis: (units * self.unit()) as u32 }
    }

    /// What one character of a Morse string adds to the playback.
    pub open spec fn segments_of(&self, c: char) -> Seq<AudioSegment> {
        if c == '.' {
            seq![self.tone(DOT_UNITS as nat), self.silence(SYMBOL_GAP_UNITS as nat)]
        } else if c == '-' {
            seq![self.tone(DASH_UNITS as nat), self.silence(SYMBOL_GAP_UNITS as nat)]
        } else if c == ' ' {
            seq![self.silence(CHARACTER_GAP_UNITS as nat)]
        } else if c == '/' {
            seq![self.silence(WORD_GAP_UNITS as nat)]
        } else {
            Seq::empty()
        }
    }

    /// The playback of `morse`: what its characters add, in their order.
    pub open spec fn render(&self, morse: Seq<char>) -> Seq<AudioSegment>
        decreases morse.len(),
    {
        if morse.len() == 0 {
            Seq::empty()
        } else {
            self.render(morse.drop_last()) + self.segments_of(morse.last())
        }
    }

    /// Every length is a whole number of units, and a dash lasts three
    /// dots, at every level.
    pub proof fn lemma_lengths(&self, units: nat)
        requires
            units <= WORD_GAP_UNITS,
        ensures
            self.tone(units)->Tone_frequency_hz == self.frequency(),
            self.tone(units)->Tone_millis == units * self.unit(),
            self.silence(units)->Silence_millis == units * self.unit(),
            self.tone(DASH_UNITS as nat)->Tone_millis == 3 * self.tone(
                DOT_UNITS as nat,
            )->Tone_millis,
    {
        assert(units * self.unit() <= 7 * 560) by (nonlinear_arith)
            requires
                units <= 7,
                self.unit() <= 560,
        ;
    }

    /// A playback holds one tone for each dot and dash, and one silence for
    /// each dot, dash, space and slash.
    pub proof fn lemma_segment_counts(&self, morse: Seq<char>)
        ensures
            count_tones(self.render(morse)) == count_char(morse, '.') + count_char(morse, '-'),
            count_silences(self.render(morse)) == count_tones(self.render(morse)) + count_char(
                morse,
                ' ',
            ) + count_char(morse, '/'),
        decreases morse.len(),
    {
        if morse.len() > 0 {
            let init = self.render(morse.drop_last());
            let added = self.segments_of(morse.last());
            self.lemma_segment_counts(morse.drop_last());
            lemma_count_concat(init, added);
            reveal_with_fuel(count_tones, 3);
            reveal_with_fuel(count_silences, 3);
        }
    }

    /// A player at the given levels.
    pub fn new(pitch: u8, duration: u8) -> (player: Self)
        ensures
            player.pitch_level() == pitch,
            player.tone_level() == duration,
    {
        MorseCodeAudioPlayer { pitch, duration }
    }

    /// Frequency of the tone, in hertz.
    pub fn frequency_hz(&self) -> (hz: u32)
        ensures
            hz == self.frequency(),
            hz == 200 + 6 * self.pitch_level(),
            self.pitch_level() <= 100 ==> 200 <= hz <= 800,
    {
        MIN_PITCH_HZ + PITCH_STEP_HZ * (self.pitch as u32)
    }

    /// Length of a dot, in milliseconds.
    pub fn dot_millis(&self) -> (ms: u32)
        ensures
            ms == self.unit(),
            ms == 50 + 2 * self.tone_level(),
            self.tone_level() <= 100 ==> 50 <= ms <= 250,
    {
        MIN_DOT_MS + DOT_STEP_MS * (self.duration as u32)
    }

    /// Length of a dash, in milliseconds: three dots.
    pub fn dash_millis(&self) -> (ms: u32)
        ensures
            ms == 3 * self.unit(),
    {
        DASH_UNITS * self.dot_millis()
    }

    /// The tones and silences that play `morse`, in the order in which they
    /// are played. A dot is a tone of one unit and a dash one of three, each
    /// followed by a silence of one unit; a space is a silence of three units
    /// and a `/` one of seven; any other character adds nothing.
    pub fn synthesize(&self, morse: &str) -> (segments: Vec<AudioSegment>)
        ensures
            segments@ == self.render(morse@),
            count_tones(segments@) == count_char(morse@, '.') + count_char(morse@, '-'),
            count_silences(segments@) == count_tones(segments@) + count_char(morse@, ' ')
                + count_char(morse@, '/'),
    {
        let hz: u32 = self.frequency_hz();
        let dot: u32 = self.dot_millis();
        let mut segments: Vec<AudioSegment> = Vec::new();
        proof {
            assert(morse@.take(0) =~= Seq::<char>::empty());
        }
        for c in it: morse.chars()
            invariant
                it.seq() == morse@,
                hz == self.frequency(),
                dot == self.unit(),
                dot <= 560,
                segments@ == self.render(morse@.take(it.index())),
        {
            proof {
                let i = it.index();
                assert(morse@.take(i + 1).drop_last() =~= morse@.take(i));
            }
            if c == '.' {
                segments.push(AudioSegment::Tone { frequency_hz: hz, millis: DOT_UNITS * dot });
                segments.push(AudioSegment::Silence { millis: SYMBOL_GAP_UNITS * dot });
            } else if c == '-' {
                segments.push(AudioSegment::Tone { frequency_hz: hz, millis: DASH_UNITS * dot });
                segments.push(AudioSegment::Silence { millis: SYMBOL_GAP_UNITS * dot });
            } else if c == ' ' {
                segments.push(AudioSegment::Silence { millis: CHARACTER_GAP_UNITS * dot });
            } else if c == '/' {
                segments.push(AudioSegment::Silence { millis: WORD_GAP_UNITS * dot });
            }
        }
        proof {
            assert(morse@.take(morse@.len() as int) =~= morse@);
            self.lemma_segment_counts(morse@);
        }
        segments
    }
}

} // verus!
