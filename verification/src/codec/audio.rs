//! Audio parameters.
use vstd::prelude::*;

verus! {

/// Capture and playback rate. It matches PulseAudio's null sink, so nothing is
/// resampled. It is not what sets the bandwidth: `BITRATE` is.
pub const SAMPLE_RATE: u32 = 48000;

pub const CHANNELS: u8 = 2;

/// Duration of one encoded frame.
pub const FRAME_MS: u32 = 20;

/// Samples per channel in one encoded frame.
pub const FRAME_SIZE: usize = (SAMPLE_RATE / 1000 * FRAME_MS) as usize;

/// Target bitrate of the encoder, in bits per second.
pub const BITRATE: i32 = 32_000;

/// Why audio failed.
#[derive(Debug, Clone)]
pub enum AudioError {
    Opus(String),
    Other(String),
}

impl AudioError {
    /// What the error says.
    pub open spec fn text(self) -> Seq<char> {
        match self {
            AudioError::Opus(e) => "opus error: "@ + e@,
            AudioError::Other(e) => "audio error: "@ + e@,
        }
    }

    /// Describes the error.
    pub fn message(&self) -> (s: String)
        ensures
            s@ == self.text(),
    {
        match self {
            AudioError::Opus(e) => String::from_str("opus error: ").concat(e.as_str()),
            AudioError::Other(e) => String::from_str("audio error: ").concat(e.as_str()),
        }
    }
}

/// The parameters are ones that Opus accepts: a rate of 8, 12, 16, 24 or 48
/// kHz, a frame of 5, 10, 20, 40 or 60 ms, and a frame size that is that
/// duration at that rate.
pub proof fn parameters_suit_opus()
    ensures
        SAMPLE_RATE == 8000 || SAMPLE_RATE == 12000 || SAMPLE_RATE == 16000 || SAMPLE_RATE == 24000
            || SAMPLE_RATE == 48000,
        FRAME_MS == 5 || FRAME_MS == 10 || FRAME_MS == 20 || FRAME_MS == 40 || FRAME_MS == 60,
        FRAME_SIZE * 1000 == SAMPLE_RATE * FRAME_MS,
        6_000 <= BITRATE <= 510_000,
{
}

/// How many samples of an interleaved buffer a decoder filled, given the count
/// per channel that it reported.
pub fn interleaved_len(samples: usize) -> (n: usize)
    requires
        samples <= FRAME_SIZE,
    ensures
        n == samples * CHANNELS,
{
    samples * CHANNELS as usize
}

/// A frame holds one value per sample and ear, and an error says why at its end.
pub proof fn samples_are_for_both_ears(
    a: usize,
    n: usize,
    e: &AudioError,
    s: String,
    f: &AudioError,
    t: String,
)
    requires
        a <= FRAME_SIZE,
        call_ensures(interleaved_len, (a,), n),
        call_ensures(AudioError::message, (e,), s),
        call_ensures(AudioError::message, (f,), t),
    ensures
        n == a + a,
        e matches AudioError::Opus(r) ==> s@.skip(s@.len() - r@.len()) == r@,
        e matches AudioError::Other(r) ==> s@.skip(s@.len() - r@.len()) == r@,
        *e is Opus && *f is Other ==> s@[0] != t@[0],
{
    reveal_strlit("opus error: ");
    reveal_strlit("audio error: ");
    match *e {
        AudioError::Opus(r) => {
            assert(s@.skip(s@.len() - r@.len()) =~= r@);
        },
        AudioError::Other(r) => {
            assert(s@.skip(s@.len() - r@.len()) =~= r@);
        },
    }
}

} // verus!
