//! The audio engine: what the output stream's callback computes.
//!
//! The engine fills a buffer of interleaved frames with phases, one phase a
//! frame and the same phase on every channel of the frame. Whoever owns the
//! stream turns each phase into the sine sample that it stands for.

use crate::oscillator::{lemma_phase_after, Oscillator, OscillatorState};
use crate::tone::{frequency_of, weight_to_frequency};
use vstd::arithmetic::div_mod::lemma_fundamental_div_mod_converse;
use vstd::prelude::*;

verus! {

/// The sample formats that an output device may ask for.
#[derive(Clone, Copy, Debug, PartialEq, Eq, Structural)]
pub enum SampleFormat {
    I8,
    I16,
    I32,
    I64,
    U8,
    U16,
    U32,
    U64,
    F32,
    F64,
    /// A format that this list does not know.
    Other,
}

/// What the output device has settled on.
#[derive(Clone, Copy, Debug, PartialEq, Eq, Structural)]
pub struct OutputConfig {
    pub sample_format: SampleFormat,
    pub sample_rate: u32,
    pub channels: u16,
}

/// Why no engine can serve an output configuration.
#[derive(Clone, Copy, Debug, PartialEq, Eq, Structural)]
pub enum ConfigError {
    /// The device wants another sample format than 32-bit floating point.
    UnsupportedSampleFormat,
    /// The device reports a rate of no samples a second.
    ZeroSampleRate,
    /// The device reports frames of no channels.
    NoChannels,
}

impl ConfigError {
    /// The fault in words.
    pub open spec fn message_spec(self) -> Seq<char> {
        match self {
            ConfigError::UnsupportedSampleFormat => "unsupported sample format"@,
            ConfigError::ZeroSampleRate => "sample rate is zero"@,
            ConfigError::NoChannels => "no output channels"@,
        }
    }

    /// The fault in words, for whoever reports it.
    pub fn message(&self) -> (text: &'static str)
        ensures
            text@ == self.message_spec(),
    {
        match self {
            ConfigError::UnsupportedSampleFormat => "unsupported sample format",
            ConfigError::ZeroSampleRate => "sample rate is zero",
            ConfigError::NoChannels => "no output channels",
        }
    }
}

/// An engine as contracts see it.
pub struct EngineState {
    pub oscillator: OscillatorState,
    pub channels: int,
}

/// The verdict on an output configuration: the first of the three faults that
/// it has, if it has one.
pub open spec fn config_fault(config: OutputConfig) -> Option<ConfigError> {
    if config.sample_format != SampleFormat::F32 {
        Some(ConfigError::UnsupportedSampleFormat)
    } else if config.sample_rate == 0 {
        Some(ConfigError::ZeroSampleRate)
    } else if config.channels == 0 {
        Some(ConfigError::NoChannels)
    } else {
        None
    }
}

/// How many frames a buffer of `len` samples holds, the last one counted also
/// when it is cut short.
pub open spec fn frames_in(len: int, channels: int) -> nat {
    ((len + channels - 1) / channels) as nat
}

/// The engine of one output stream.
pub struct AudioEngine {
    oscillator: Oscillator,
    channels: u16,
}

impl View for AudioEngine {
    type V = EngineState;

    closed spec fn view(&self) -> EngineState {
        EngineState { oscillator: self.oscillator@, channels: self.channels as int }
    }
}

impl AudioEngine {
    /// Every engine that exists has at least one channel.
    #[verifier::type_invariant]
    pub open spec fn inv(self) -> bool {
        0 < self@.channels <= u16::MAX
    }

    pub fn channels(&self) -> (channels: u16)
        ensures
            channels == self@.channels,
            channels > 0,
    {
        proof {
            use_type_invariant(self);
        }
        self.channels
    }

    pub fn sample_rate(&self) -> (rate: u32)
        ensures
            rate == self@.oscillator.sample_rate,
    {
        self.oscillator.sample_rate()
    }

    /// The frequency of the sample last made, in hertz: the tone that the
    /// engine is on.
    pub fn frequency(&self) -> (hertz: i128)
        ensures
            hertz == self@.oscillator.frequency,
    {
        self.oscillator.frequency()
    }

    /// The phase of the sample last made, in ticks.
    pub fn phase(&self) -> (phase: u32)
        ensures
            phase == self@.oscillator.phase,
    {
        self.oscillator.phase()
    }

    /// Fills `output` for one callback. The weight holds for the whole
    /// buffer. Each frame is one sample on from the frame before it, and its
    /// phase goes to each of its channels.
    pub fn write_data(&mut self, weight: u32, output: &mut [u32])
        ensures
            final(output)@.len() == old(output)@.len(),
            forall|i: int|
                0 <= i < old(output)@.len() ==> #[trigger] final(output)@[i] == old(
                    self,
                )@.oscillator.phase_after(
                    frequency_of(weight),
                    (i / old(self)@.channels + 1) as nat,
                ),
            final(self)@.channels == old(self)@.channels,
            final(self)@.oscillator == old(self)@.oscillator.advance_by(
                frequency_of(weight),
                frames_in(old(output)@.len() as int, old(self)@.channels),
            ),
            final(self)@.oscillator.wf(),
            final(self)@.oscillator.sample_rate == old(self)@.oscillator.sample_rate,
            final(self)@.oscillator.phase == old(self)@.oscillator.phase_after(
                frequency_of(weight),
                frames_in(old(output)@.len() as int, old(self)@.channels),
            ),
            old(output)@.len() > 0 ==> final(self)@.oscillator.frequency == frequency_of(weight),
    {
        proof {
            use_type_invariant(&*self);
            use_type_invariant(&self.oscillator);
        }
        let frequency: i128 = weight_to_frequency(weight);
        let channels: u16 = self.channels;
        let len: usize = output.len();
        let ghost start: OscillatorState = self.oscillator@;
        let ghost width: int = channels as int;
        let ghost mut frames: nat = 0;
        let mut written: usize = 0;
        let mut left: u16 = 0;
        let mut phase: u32 = 0;
        while written < len
            invariant
                start.wf(),
                width == channels,
                width == self@.channels,
                width > 0,
                frequency == frequency_of(weight),
                len == output@.len(),
                written <= len,
                0 <= left < width,
                written + left == frames * width,
                self@.oscillator == start.advance_by(frequency as int, frames),
                frames > 0 ==> phase == start.phase_after(frequency as int, frames),
                forall|i: int|
                    0 <= i < written ==> #[trigger] output@[i] == start.phase_after(
                        frequency as int,
                        (i / width + 1) as nat,
                    ),
            decreases len - written,
        {
            if left == 0 {
                phase = self.oscillator.advance(frequency);
                left = channels;
                proof {
                    assert((frames + 1) * width == frames * width + width) by (nonlinear_arith);
                    frames = frames + 1;
                    lemma_phase_after(start, frequency as int, frames);
                }
            }
            proof {
                assert(written == (frames - 1) * width + (width - left)) by (nonlinear_arith)
                    requires
                        written + left == frames * width,
                ;
                lemma_fundamental_div_mod_converse(
                    written as int,
                    width,
                    frames - 1,
                    width - left,
                );
            }
            output[written] = phase;
            written = written + 1;
            left = left - 1;
        }
        proof {
            assert(len + width - 1 == frames * width + (width - 1 - left));
            lemma_fundamental_div_mod_converse(
                len + width - 1,
                width,
                frames as int,
                width - 1 - left,
            );
            lemma_phase_after(start, frequency as int, frames);
            assert(len > 0 ==> frames > 0) by (nonlinear_arith)
                requires
                    len + left == frames * width,
                    left < width,
                    width > 0,
            ;
        }
    }
}

/// Sets up the engine for an output stream, or says why the device's
/// configuration cannot be served. The engine starts at rest.
pub fn mk_stream(config: &OutputConfig) -> (made: Result<AudioEngine, ConfigError>)
    ensures
        match config_fault(*config) {
            Some(fault) => made == Err::<AudioEngine, ConfigError>(fault),
            None => made matches Ok(engine) && engine@ == (EngineState {
                oscillator: OscillatorState::initial(config.sample_rate as int),
                channels: config.channels as int,
            }),
        },
{
    match config.sample_format {
        SampleFormat::F32 => {},
        _ => {
            return Err(ConfigError::UnsupportedSampleFormat);
        },
    }
    match Oscillator::new(config.sample_rate) {
        None => Err(ConfigError::ZeroSampleRate),
        Some(oscillator) => {
            if config.channels == 0 {
                Err(ConfigError::NoChannels)
            } else {
                Ok(AudioEngine { oscillator, channels: config.channels })
            }
        },
    }
}

} // verus!
