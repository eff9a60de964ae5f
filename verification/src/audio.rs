//! Plain value types of the audio interface.

use vstd::prelude::*;

verus! {

/// Number of hardware voices.
pub const VOICE_COUNT: usize = 32;

/// A sample uploaded to audio memory, by handle, with its playback rate.
#[derive(Clone, Debug)]
pub struct AudioSample {
    pub handle: i32,
    pub samplerate: i32,
}

/// The parameters of a voice that can be scheduled.
#[derive(Clone, Copy, Debug)]
pub enum AudioVoiceParam {
    Volume,
    Pitch,
    Detune,
    Pan,
    SampleData,
    Samplerate,
    LoopEnabled,
    LoopStart,
    LoopEnd,
    Reverb,
    FadeInDuration,
    FadeOutDuration,
    Start,
    Stop,
}

impl AudioVoiceParam {
    /// The code of each parameter: they count up from zero in the order
    /// they are declared in.
    pub open spec fn spec_code(self) -> int {
        match self {
            AudioVoiceParam::Volume => 0,
            AudioVoiceParam::Pitch => 1,
            AudioVoiceParam::Detune => 2,
            AudioVoiceParam::Pan => 3,
            AudioVoiceParam::SampleData => 4,
            AudioVoiceParam::Samplerate => 5,
            AudioVoiceParam::LoopEnabled => 6,
            AudioVoiceParam::LoopStart => 7,
            AudioVoiceParam::LoopEnd => 8,
            AudioVoiceParam::Reverb => 9,
            AudioVoiceParam::FadeInDuration => 10,
            AudioVoiceParam::FadeOutDuration => 11,
            AudioVoiceParam::Start => 12,
            AudioVoiceParam::Stop => 13,
        }
    }

    /// The numeric code handed to the audio unit.
    pub fn code(self) -> (code: i32)
        ensures
            code == self.spec_code(),
    {
        match self {
            AudioVoiceParam::Volume => 0,
            AudioVoiceParam::Pitch => 1,
            AudioVoiceParam::Detune => 2,
            AudioVoiceParam::Pan => 3,
            AudioVoiceParam::SampleData => 4,
            AudioVoiceParam::Samplerate => 5,
            AudioVoiceParam::LoopEnabled => 6,
            AudioVoiceParam::LoopStart => 7,
            AudioVoiceParam::LoopEnd => 8,
            AudioVoiceParam::Reverb => 9,
            AudioVoiceParam::FadeInDuration => 10,
            AudioVoiceParam::FadeOutDuration => 11,
            AudioVoiceParam::Start => 12,
            AudioVoiceParam::Stop => 13,
        }
    }
}

/// Whether `slot` names one of the hardware voices.
pub fn is_voice(slot: i32) -> (valid: bool)
    ensures
        valid == (0 <= slot < VOICE_COUNT),
{
    slot >= 0 && slot < 32
}

} // verus!
