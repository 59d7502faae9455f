//! The audio timeline onto which spoken clips are laid.
//!
//! Samples themselves are floating point and stay outside; what is decided from them is given
//! here over the bits of single-precision floats, and over counts of samples.
use vstd::prelude::*;

use crate::asr::SampleWindow;

verus! {

/// The sample rate of everything on the timeline.
pub const TIMELINE_SAMPLE_RATE: u32 = 24_000;

/// The bit rate of the encoded timeline.
pub const TIMELINE_BITRATE_KBPS: u32 = 48;

/// Silence is written in pieces of this many samples.
pub const SILENCE_CHUNK_SAMPLES: usize = 24_000;

/// The number of samples of a time on the timeline.
pub open spec fn timeline_samples(ms: u64) -> u64 {
    if ms * TIMELINE_SAMPLE_RATE <= u64::MAX {
        (ms * TIMELINE_SAMPLE_RATE / 1_000) as u64
    } else {
        u64::MAX / 1_000
    }
}

pub fn milliseconds_to_samples(milliseconds: u64) -> (samples: u64)
    ensures
        samples == timeline_samples(milliseconds),
{
    match milliseconds.checked_mul(TIMELINE_SAMPLE_RATE as u64) {
        Some(product) => product / 1_000,
        None => u64::MAX / 1_000,
    }
}

/// A later time is not an earlier sample, and two times in a row take no more samples than both
/// together.
pub proof fn samples_follow_time(a: u64, b: u64)
    ensures
        a <= b ==> timeline_samples(a) <= timeline_samples(b),
        (a + b) * TIMELINE_SAMPLE_RATE <= u64::MAX ==> timeline_samples(a) + timeline_samples(b)
            <= timeline_samples((a + b) as u64),
{
}

/// The bits of the loudness from which on a sample is heard, 0.0015.
pub const SIGNAL_THRESHOLD_BITS: u32 = 0x3AC4_9BA6;

/// Whether a sample, given by the bits of a single-precision float, is heard: its magnitude, the
/// bits without the sign, is a number and not below the threshold.
pub open spec fn is_heard(bits: u32) -> bool {
    SIGNAL_THRESHOLD_BITS <= bits % 0x8000_0000 <= 0x7F80_0000
}

fn heard(bits: u32) -> (audible: bool)
    ensures
        audible == is_heard(bits),
{
    let magnitude = bits % 0x8000_0000;
    SIGNAL_THRESHOLD_BITS <= magnitude && magnitude <= 0x7F80_0000
}

/// Samples that are kept before the first one that is heard.
pub const LEADING_MARGIN_SAMPLES: usize = 192;

/// Samples that are kept behind the last one that is heard.
pub const TRAILING_MARGIN_SAMPLES: usize = 1_080;

/// The first sample that is heard is `first`, and the last one is `last`.
pub open spec fn signal_between(samples: Seq<u32>, first: int, last: int) -> bool {
    &&& 0 <= first <= last < samples.len()
    &&& is_heard(samples[first])
    &&& is_heard(samples[last])
    &&& forall|i: int| 0 <= i < first ==> !is_heard(#[trigger] samples[i])
    &&& forall|i: int| last < i < samples.len() ==> !is_heard(#[trigger] samples[i])
}

/// Nothing is heard in the samples.
pub open spec fn is_silent(samples: Seq<u32>) -> bool {
    forall|i: int| 0 <= i < samples.len() ==> !is_heard(#[trigger] samples[i])
}

/// The part of a clip without the silence at its edges. A small margin is kept, so that no sound
/// is clipped. A silent clip has no part left.
pub fn trim_edge_silence(samples: &[u32]) -> (kept: SampleWindow)
    requires
        samples@.len() <= usize::MAX - 2_000,
    ensures
        kept.start <= kept.end <= samples@.len(),
        is_silent(samples@) ==> kept.start == 0 && kept.end == 0,
        forall|i: int|
            #![trigger samples@[i]]
            0 <= i < samples@.len() && is_heard(samples@[i]) ==> kept.start <= i < kept.end,
        !is_silent(samples@) && kept.start > 0 ==> is_heard(samples@[kept.start + 192]),
        !is_silent(samples@) && kept.end < samples@.len() ==> is_heard(samples@[kept.end - 1_081]),
        !is_silent(samples@) ==> exists|first: int, last: int|
            #![trigger signal_between(samples@, first, last)]
            {
                &&& signal_between(samples@, first, last)
                &&& kept.start == if first >= LEADING_MARGIN_SAMPLES {
                    first - LEADING_MARGIN_SAMPLES
                } else {
                    0
                }
                &&& kept.end == if last + 1 + TRAILING_MARGIN_SAMPLES <= samples@.len() {
                    last + 1 + TRAILING_MARGIN_SAMPLES
                } else {
                    samples@.len() as int
                }
            },
{
    let mut first: usize = 0;
    while first < samples.len() && !heard(samples[first])
        invariant
            first <= samples.len(),
            forall|i: int| 0 <= i < first ==> !is_heard(#[trigger] samples@[i]),
        decreases samples.len() - first,
    {
        first += 1;
    }
    if first == samples.len() {
        return SampleWindow { start: 0, end: 0 };
    }
    let mut last: usize = samples.len() - 1;
    while !heard(samples[last])
        invariant
            first <= last < samples.len(),
            is_heard(samples@[first as int]),
            forall|i: int| last < i < samples.len() ==> !is_heard(#[trigger] samples@[i]),
        decreases last,
    {
        last -= 1;
    }
    assert(signal_between(samples@, first as int, last as int));
    let start: usize = if first >= LEADING_MARGIN_SAMPLES {
        first - LEADING_MARGIN_SAMPLES
    } else {
        0
    };
    let wanted: usize = last + 1 + TRAILING_MARGIN_SAMPLES;
    let end: usize = if wanted <= samples.len() {
        wanted
    } else {
        samples.len()
    };
    SampleWindow { start, end }
}

/// Trimming the edges of a clip takes away no sample that is heard.
pub proof fn trimming_keeps_every_heard_sample(samples: Seq<u32>, first: int, last: int, i: int)
    requires
        signal_between(samples, first, last),
        0 <= i < samples.len(),
        is_heard(samples[i]),
    ensures
        first - LEADING_MARGIN_SAMPLES <= i < last + 1 + TRAILING_MARGIN_SAMPLES,
        first <= i <= last,
{
}

/// The number of samples of a clip after it is brought to another sample rate.
pub open spec fn resampled(length: nat, source_rate: nat, target_rate: nat) -> nat {
    if length == 0 || source_rate == target_rate {
        length
    } else if length * target_rate / source_rate >= 1 {
        length * target_rate / source_rate
    } else {
        1
    }
}

pub fn resampled_len(length: usize, source_rate: u32, target_rate: u32) -> (resampled_length: u64)
    requires
        source_rate > 0,
        length * target_rate <= u64::MAX,
    ensures
        resampled_length == resampled(length as nat, source_rate as nat, target_rate as nat),
{
    if length == 0 || source_rate == target_rate {
        return length as u64;
    }
    let scaled: u64 = length as u64 * target_rate as u64 / source_rate as u64;
    if scaled >= 1 {
        scaled
    } else {
        1
    }
}

/// The sample rate of a clip after another frame of it: all frames have the rate of the first.
pub fn clip_rate(expected: Option<u32>, frame_rate: u32) -> (rate: Result<u32, String>)
    ensures
        match rate {
            Ok(rate) => rate == frame_rate && (expected is None || expected == Some(frame_rate)),
            Err(error) => expected is Some && expected != Some(frame_rate) && error@
                == "The TTS response changed sample rate inside one clip."@,
        },
{
    match expected {
        Some(expected) => if frame_rate != expected {
            Err("The TTS response changed sample rate inside one clip.".to_string())
        } else {
            Ok(frame_rate)
        },
        None => Ok(frame_rate),
    }
}

/// The sample rate of a clip whose frames have all been read; an error when there was none.
pub fn decoded_rate(rate: Option<u32>) -> (known: Result<u32, String>)
    ensures
        match known {
            Ok(known) => rate == Some(known),
            Err(error) => rate is None && error@ == "The TTS service returned no MP3 frames."@,
        },
{
    match rate {
        Some(rate) => Ok(rate),
        None => Err("The TTS service returned no MP3 frames.".to_string()),
    }
}

/// How far the timeline has been written.
#[derive(Clone, Copy, Debug, PartialEq, Eq, Structural)]
pub struct TimelineClock {
    pub written_samples: u64,
}

/// The sum of the lengths of pieces.
pub open spec fn total_length(pieces: Seq<usize>) -> nat
    decreases pieces.len(),
{
    if pieces.len() == 0 {
        0
    } else {
        total_length(pieces.drop_last()) + pieces.last() as nat
    }
}

/// The sum of two counts, at most the largest that 64 bits hold.
pub open spec fn counted(written: u64, length: nat) -> u64 {
    if written + length <= u64::MAX {
        (written + length) as u64
    } else {
        u64::MAX
    }
}

impl TimelineClock {
    pub fn new() -> (clock: Self)
        ensures
            clock.written_samples == 0,
    {
        TimelineClock { written_samples: 0 }
    }

    /// The length of the next piece of silence on the way to `target_sample`; none when the
    /// timeline has got there. A target that lies behind takes nothing away.
    pub fn next_silence(&self, target_sample: u64) -> (piece: Option<usize>)
        ensures
            match piece {
                Some(piece) => {
                    &&& self.written_samples < target_sample
                    &&& piece == if target_sample - self.written_samples <= SILENCE_CHUNK_SAMPLES {
                        target_sample - self.written_samples
                    } else {
                        SILENCE_CHUNK_SAMPLES as int
                    }
                },
                None => self.written_samples >= target_sample,
            },
    {
        if self.written_samples >= target_sample {
            return None;
        }
        let remaining: u64 = target_sample - self.written_samples;
        if remaining <= SILENCE_CHUNK_SAMPLES as u64 {
            Some(remaining as usize)
        } else {
            Some(SILENCE_CHUNK_SAMPLES)
        }
    }

    /// Records that samples were written.
    pub fn advance(&mut self, length: usize)
        ensures
            final(self).written_samples == counted(old(self).written_samples, length as nat),
    {
        self.written_samples = self.written_samples.saturating_add(length as u64);
    }

    /// The pieces of silence up to `target_sample`, all of them full but for the last one, and the
    /// clock when they have been written.
    pub fn write_silence_until(&mut self, target_sample: u64) -> (pieces: Vec<usize>)
        ensures
            final(self).written_samples == if old(self).written_samples >= target_sample {
                old(self).written_samples
            } else {
                target_sample
            },
            total_length(pieces@) == final(self).written_samples - old(self).written_samples,
            forall|i: int|
                0 <= i < pieces@.len() ==> 0 < #[trigger] pieces@[i] <= SILENCE_CHUNK_SAMPLES,
            forall|i: int|
                0 <= i < pieces@.len() - 1 ==> #[trigger] pieces@[i] == SILENCE_CHUNK_SAMPLES,
    {
        let mut pieces: Vec<usize> = Vec::new();
        let ghost start = self.written_samples;
        loop
            invariant
                start == old(self).written_samples,
                start <= self.written_samples,
                self.written_samples <= start || self.written_samples <= target_sample,
                total_length(pieces@) == self.written_samples - start,
                forall|i: int|
                    0 <= i < pieces@.len() ==> 0 < #[trigger] pieces@[i] <= SILENCE_CHUNK_SAMPLES,
                forall|i: int|
                    0 <= i < pieces@.len() - 1 ==> #[trigger] pieces@[i] == SILENCE_CHUNK_SAMPLES,
                pieces@.len() > 0 && self.written_samples < target_sample ==> pieces@.last()
                    == SILENCE_CHUNK_SAMPLES,
            decreases u64::MAX - self.written_samples,
        {
            match self.next_silence(target_sample) {
                None => {
                    return pieces;
                },
                Some(piece) => {
                    let ghost before = pieces@;
                    pieces.push(piece);
                    assert(pieces@.drop_last() == before);
                    self.advance(piece);
                },
            }
        }
    }

    /// Whether the encoder needs a sample of silence before it can be finished: an empty timeline
    /// would not even have a header.
    pub fn needs_filler(&self) -> (needed: bool)
        ensures
            needed == (self.written_samples == 0),
    {
        self.written_samples == 0
    }
}

/// The clock after silence up to a sample and a clip behind it.
pub open spec fn after_clip(written: u64, target_sample: u64, length: nat) -> u64 {
    counted(
        if written >= target_sample {
            written
        } else {
            target_sample
        },
        length,
    )
}

/// A clip that runs beyond the start of the next one is kept whole: the next one begins where it
/// ends, and nothing is taken away or laid over it.
pub proof fn overlong_clip_delays_the_next(written: u64, first: nat, next_start: u64, second: nat)
    requires
        written + first + second <= u64::MAX,
        next_start <= written + first,
    ensures
        after_clip(counted(written, first), next_start, second) == written + first + second,
{
}

/// What the encoder answers when it is asked for a packet.
#[derive(Clone, Copy, Debug, PartialEq, Eq, Structural)]
pub enum PacketAnswer {
    Packet,
    NeedsMore,
    EndOfStream,
    Failed,
}

/// What is done with the answer.
#[derive(Clone, Copy, Debug, PartialEq, Eq, Structural)]
pub enum DrainStep {
    /// Keep the packet and ask for the next one.
    Collect,
    /// All packets there are have been collected.
    Done,
    /// More audio is asked for, though the audio has ended.
    Starved,
    /// The encoder failed.
    Failed,
}

/// What is done with an answer of the encoder, before or after the audio has ended.
pub fn drain_step(answer: PacketAnswer, finishing: bool) -> (step: DrainStep)
    ensures
        step == (match answer {
            PacketAnswer::Packet => DrainStep::Collect,
            PacketAnswer::EndOfStream => DrainStep::Done,
            PacketAnswer::NeedsMore => if finishing {
                DrainStep::Starved
            } else {
                DrainStep::Done
            },
            PacketAnswer::Failed => DrainStep::Failed,
        }),
{
    match answer {
        PacketAnswer::Packet => DrainStep::Collect,
        PacketAnswer::EndOfStream => DrainStep::Done,
        PacketAnswer::NeedsMore => if finishing {
            DrainStep::Starved
        } else {
            DrainStep::Done
        },
        PacketAnswer::Failed => DrainStep::Failed,
    }
}

} // verus!
