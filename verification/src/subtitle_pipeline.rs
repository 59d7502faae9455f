//! Speaking a subtitle track: each cue is synthesised by itself and laid onto the timeline at the
//! moment at which it is shown.
//!
//! The synthesis is a network service. What is asked of it, and what is done with the clips that
//! come back, is decided here.
use vstd::prelude::*;

use crate::subtitles;
use crate::subtitles::{Cue, SubtitleCue};
use crate::text;
use crate::timeline_audio;

verus! {

/// The result of speaking a track: the encoded audio, how many cues were spoken faster to fit and
/// how many had to be cut off.
#[derive(Debug)]
pub struct SubtitleGenerationReport {
    pub mp3: Vec<u8>,
    pub adjusted_count: usize,
    pub truncated_count: usize,
}

/// The place of a cue on the timeline: where its clip starts and how many samples there are until
/// the cue ends or the next one starts.
#[derive(Clone, Copy, Debug, PartialEq, Eq, Structural)]
pub struct CueSlot {
    pub start_sample: u64,
    pub available_samples: u64,
}

/// The moment at which the slot of a cue ends: with the cue or with the start of the next one,
/// whichever comes first, but not before the cue has started.
pub open spec fn slot_end(cues: Seq<Cue>, i: int) -> u64 {
    let end = if i + 1 < cues.len() && cues[i + 1].start_ms < cues[i].end_ms {
        cues[i + 1].start_ms
    } else {
        cues[i].end_ms
    };
    let least = subtitles::ends_after(cues[i].start_ms, 1);
    if end >= least {
        end
    } else {
        least
    }
}

/// The slot of a cue.
pub open spec fn slot_of(cues: Seq<Cue>, i: int) -> CueSlot {
    CueSlot {
        start_sample: timeline_audio::timeline_samples(cues[i].start_ms),
        available_samples: timeline_audio::timeline_samples(
            (slot_end(cues, i) - cues[i].start_ms) as u64,
        ),
    }
}

/// The slot of a cue on the timeline.
pub fn cue_slot(cues: &[SubtitleCue], index: usize) -> (slot: CueSlot)
    requires
        index < cues@.len(),
    ensures
        slot == slot_of(subtitles::cues_of(cues@), index as int),
{
    let ghost all = subtitles::cues_of(cues@);
    let start_ms = cues[index].start_ms;
    let mut end_ms = cues[index].end_ms;
    assert(all[index as int] == cues@[index as int]@);
    if index + 1 < cues.len() {
        assert(all[index + 1] == cues@[index + 1]@);
        if cues[index + 1].start_ms < end_ms {
            end_ms = cues[index + 1].start_ms;
        }
    }
    let least = start_ms.saturating_add(1);
    if end_ms < least {
        end_ms = least;
    }
    CueSlot {
        start_sample: timeline_audio::milliseconds_to_samples(start_ms),
        available_samples: timeline_audio::milliseconds_to_samples(end_ms - start_ms),
    }
}

/// The number of cues to speak; an error when there are none.
pub fn check_cues(cues: &[SubtitleCue]) -> (count: Result<usize, String>)
    ensures
        match count {
            Ok(count) => count == cues@.len() && count > 0,
            Err(error) => cues@.len() == 0 && error@
                == "The imported subtitle has no timed text cues."@,
        },
{
    if cues.len() == 0 {
        return Err("The imported subtitle has no timed text cues.".to_string());
    }
    Ok(cues.len())
}

/// A percentage with its sign, as the synthesis service expects it.
pub open spec fn signed_percent_text(percent: int) -> Seq<char> {
    (if percent < 0 {
        "-"@ + text::decimal((-percent) as nat)
    } else {
        "+"@ + text::decimal(percent as nat)
    }) + "%"@
}

/// A percentage with its sign.
pub fn signed_percent(percent: i32) -> (shown: String)
    ensures
        shown@ == signed_percent_text(percent as int),
{
    let mut shown: Vec<char> = Vec::new();
    if percent < 0 {
        text::append_str(&mut shown, "-");
        text::append_number(&mut shown, (-(percent as i64)) as u64, 0);
    } else {
        text::append_str(&mut shown, "+");
        text::append_number(&mut shown, percent as u64, 0);
    }
    text::append_str(&mut shown, "%");
    assert(shown@ == signed_percent_text(percent as int));
    text::string_of(shown.as_slice())
}

/// Whether a clip is asked for again, spoken faster: it does not fit and can be faster still.
pub open spec fn wants_faster(clip_samples: nat, available_samples: u64, rate_percent: i32) -> bool {
    clip_samples > available_samples && rate_percent < 100
}

pub fn needs_faster_clip(clip_samples: usize, available_samples: u64, rate_percent: i32) -> (faster:
    bool)
    ensures
        faster == wants_faster(clip_samples as nat, available_samples, rate_percent),
{
    clip_samples as u64 > available_samples && rate_percent < 100
}

/// The rate at which a clip is asked for again, given the percentage that would just make it fit:
/// a little faster than that, faster than before, and at most twice the normal speed.
pub open spec fn faster_rate(needed_percent: i32, rate_percent: i32) -> int {
    if needed_percent + 3 <= rate_percent + 1 {
        rate_percent + 1
    } else if needed_percent + 3 >= 100 {
        100
    } else {
        needed_percent + 3
    }
}

pub fn fitted_rate(needed_percent: i32, rate_percent: i32) -> (rate: i32)
    requires
        rate_percent < 100,
    ensures
        rate == faster_rate(needed_percent, rate_percent),
        rate_percent < rate <= 100,
{
    let wanted: i64 = needed_percent as i64 + 3;
    let least: i64 = rate_percent as i64 + 1;
    if wanted <= least {
        rate_percent + 1
    } else if wanted >= 100 {
        100
    } else {
        needed_percent + 3
    }
}

/// How much of a clip is written and whether it is cut off and faded out there.
#[derive(Clone, Copy, Debug, PartialEq, Eq, Structural)]
pub struct ClipCut {
    pub kept_samples: usize,
    pub truncated: bool,
}

/// What is written of a clip: all of it, or as much as fits.
pub open spec fn cut_of(clip_samples: usize, available_samples: u64) -> ClipCut {
    if clip_samples > available_samples {
        ClipCut { kept_samples: available_samples as usize, truncated: true }
    } else {
        ClipCut { kept_samples: clip_samples, truncated: false }
    }
}

pub fn clip_cut(clip_samples: usize, available_samples: u64) -> (cut: ClipCut)
    ensures
        cut == cut_of(clip_samples, available_samples),
        cut.kept_samples <= available_samples,
{
    if clip_samples as u64 > available_samples {
        ClipCut { kept_samples: available_samples as usize, truncated: true }
    } else {
        ClipCut { kept_samples: clip_samples, truncated: false }
    }
}

/// The error of a cue that could not be spoken.
pub open spec fn cue_error(current: nat, total: nat, error: Seq<char>) -> Seq<char> {
    "Subtitle "@ + text::decimal(current) + "/"@ + text::decimal(total) + ": "@ + error
}

pub fn cue_error_text(current: usize, total: usize, error: &str) -> (message: String)
    ensures
        message@ == cue_error(current as nat, total as nat, error@),
{
    let mut message: Vec<char> = Vec::new();
    text::append_str(&mut message, "Subtitle ");
    text::append_number(&mut message, current as u64, 0);
    text::append_str(&mut message, "/");
    text::append_number(&mut message, total as u64, 0);
    text::append_str(&mut message, ": ");
    text::append_str(&mut message, error);
    assert(message@ == cue_error(current as nat, total as nat, error@));
    text::string_of(message.as_slice())
}

/// How far the timeline is written after the first `n` cues, of which the given numbers of samples
/// were kept.
pub open spec fn written_after(cues: Seq<Cue>, kept: Seq<nat>, n: int) -> nat
    decreases n,
{
    if n <= 0 {
        0
    } else {
        let before = written_after(cues, kept, n - 1);
        let start = timeline_audio::timeline_samples(cues[n - 1].start_ms) as nat;
        (if before >= start {
            before
        } else {
            start
        }) + kept[n - 1]
    }
}

/// Every cue starts after the one before it.
pub open spec fn starts_rise(cues: Seq<Cue>) -> bool {
    forall|i: int, j: int|
        0 <= i < j < cues.len() ==> (#[trigger] cues[i]).start_ms < (#[trigger] cues[j]).start_ms
}

/// Every clip starts exactly when its cue does: no clip reaches into the slot of the next cue.
pub proof fn every_cue_starts_on_time(cues: Seq<Cue>, kept: Seq<nat>, n: int)
    requires
        starts_rise(cues),
        kept.len() == cues.len(),
        forall|i: int|
            0 <= i < cues.len() ==> #[trigger] kept[i] <= slot_of(cues, i).available_samples,
        0 <= n < cues.len(),
        cues[n].start_ms * timeline_audio::TIMELINE_SAMPLE_RATE <= u64::MAX,
    ensures
        written_after(cues, kept, n) <= timeline_audio::timeline_samples(cues[n].start_ms),
    decreases n,
{
    if n > 0 {
        let previous = cues[n - 1];
        let current = cues[n];
        assert(previous.start_ms < current.start_ms);
        every_cue_starts_on_time(cues, kept, n - 1);
        assert(kept[n - 1] <= slot_of(cues, n - 1).available_samples);
        let length = (slot_end(cues, n - 1) - previous.start_ms) as u64;
        assert(slot_end(cues, n - 1) <= current.start_ms);
        timeline_audio::samples_follow_time(previous.start_ms, length);
        timeline_audio::samples_follow_time(slot_end(cues, n - 1), current.start_ms);
    }
}

/// A track on its way: how many of its cues have been spoken, how far the timeline is written, and
/// how many clips were spoken faster and how many were cut off.
#[derive(Clone, Copy, Debug, PartialEq, Eq, Structural)]
pub struct FittedTrack {
    pub spoken: usize,
    pub written_samples: u64,
    pub adjusted_count: usize,
    pub truncated_count: usize,
}

/// The clip that came back for a cue, and the faster one when it was asked for and came back too,
/// as numbers of samples.
#[derive(Clone, Copy, Debug, PartialEq, Eq, Structural)]
pub struct CueClips {
    pub first: usize,
    pub faster: Option<usize>,
}

/// Whether the faster clip takes the place of the first one: it was called for and came back.
pub open spec fn uses_faster(clips: CueClips, available_samples: u64, rate_percent: i32) -> bool {
    wants_faster(clips.first as nat, available_samples, rate_percent) && clips.faster is Some
}

/// The length of the clip that is used. When the faster one is not to be had, it is the first one.
pub open spec fn used_samples(clips: CueClips, available_samples: u64, rate_percent: i32) -> usize {
    match clips.faster {
        Some(faster) => if wants_faster(clips.first as nat, available_samples, rate_percent) {
            faster
        } else {
            clips.first
        },
        None => clips.first,
    }
}

/// What is written of the clip of a cue.
pub open spec fn written_cut(clips: CueClips, available_samples: u64, rate_percent: i32) -> ClipCut {
    cut_of(used_samples(clips, available_samples, rate_percent), available_samples)
}

/// The track after one more cue with the given slot and clips.
pub open spec fn with_cue(
    track: FittedTrack,
    slot: CueSlot,
    clips: CueClips,
    rate_percent: i32,
) -> FittedTrack {
    let cut = written_cut(clips, slot.available_samples, rate_percent);
    FittedTrack {
        spoken: (track.spoken + 1) as usize,
        written_samples: timeline_audio::after_clip(
            track.written_samples,
            slot.start_sample,
            cut.kept_samples as nat,
        ),
        adjusted_count: if uses_faster(clips, slot.available_samples, rate_percent) {
            (track.adjusted_count + 1) as usize
        } else {
            track.adjusted_count
        },
        truncated_count: if cut.truncated {
            (track.truncated_count + 1) as usize
        } else {
            track.truncated_count
        },
    }
}

/// The cue whose turn it is: its number and that of all cues, as progress is told, and its slot.
#[derive(Clone, Copy, Debug, PartialEq, Eq, Structural)]
pub struct CueTurn {
    pub current: usize,
    pub total: usize,
    pub slot: CueSlot,
}

/// What is written for a cue: whether its faster clip is used, and how much of the clip.
#[derive(Clone, Copy, Debug, PartialEq, Eq, Structural)]
pub struct LaidClip {
    pub faster: bool,
    pub cut: ClipCut,
}

impl FittedTrack {
    /// No more clips were adjusted or cut than cues were spoken.
    pub open spec fn well_formed(self) -> bool {
        self.adjusted_count <= self.spoken && self.truncated_count <= self.spoken
    }

    /// Begins to speak a track; an error when it has no cues.
    pub fn begin(cues: &[SubtitleCue]) -> (track: Result<Self, String>)
        ensures
            match track {
                Ok(track) => cues@.len() > 0 && track == fitted_nothing() && track.well_formed(),
                Err(error) => cues@.len() == 0 && error@
                    == "The imported subtitle has no timed text cues."@,
            },
    {
        match check_cues(cues) {
            Ok(_) => Ok(
                FittedTrack {
                    spoken: 0,
                    written_samples: 0,
                    adjusted_count: 0,
                    truncated_count: 0,
                },
            ),
            Err(error) => Err(error),
        }
    }

    /// The cue whose turn it is; none when all have been spoken.
    pub fn turn(&self, cues: &[SubtitleCue]) -> (turn: Option<CueTurn>)
        ensures
            turn == (if self.spoken < cues@.len() {
                Some(
                    CueTurn {
                        current: (self.spoken + 1) as usize,
                        total: cues@.len() as usize,
                        slot: slot_of(subtitles::cues_of(cues@), self.spoken as int),
                    },
                )
            } else {
                None
            }),
    {
        if self.spoken < cues.len() {
            Some(
                CueTurn {
                    current: self.spoken + 1,
                    total: cues.len(),
                    slot: cue_slot(cues, self.spoken),
                },
            )
        } else {
            None
        }
    }

    /// Lays the clip of the cue whose turn it is onto the timeline, behind the silence up to its
    /// start. A clip that does not fit gives way to the faster one, when that is there, and what
    /// still does not fit is cut off.
    pub fn lay(&mut self, cues: &[SubtitleCue], clips: CueClips, rate_percent: i32) -> (laid:
        LaidClip)
        requires
            old(self).well_formed(),
            old(self).spoken < cues@.len(),
        ensures
            final(self).well_formed(),
            *final(self) == with_cue(
                *old(self),
                slot_of(subtitles::cues_of(cues@), old(self).spoken as int),
                clips,
                rate_percent,
            ),
            ({
                let slot = slot_of(subtitles::cues_of(cues@), old(self).spoken as int);
                &&& laid.faster == uses_faster(clips, slot.available_samples, rate_percent)
                &&& laid.cut == written_cut(clips, slot.available_samples, rate_percent)
            }),
    {
        assert(self.spoken < cues.len());
        let slot = cue_slot(cues, self.spoken);
        let wanted = needs_faster_clip(clips.first, slot.available_samples, rate_percent);
        let mut used = clips.first;
        let mut faster = false;
        if wanted {
            if let Some(length) = clips.faster {
                used = length;
                faster = true;
                self.adjusted_count = self.adjusted_count + 1;
            }
        }
        let cut = clip_cut(used, slot.available_samples);
        if cut.truncated {
            self.truncated_count = self.truncated_count + 1;
        }
        let begin = if self.written_samples >= slot.start_sample {
            self.written_samples
        } else {
            slot.start_sample
        };
        self.written_samples = begin.saturating_add(cut.kept_samples as u64);
        self.spoken = self.spoken + 1;
        LaidClip { faster, cut }
    }

    /// The report on a track that has been encoded.
    pub fn report(&self, mp3: Vec<u8>) -> (report: SubtitleGenerationReport)
        ensures
            report.mp3@ == mp3@,
            report.adjusted_count == self.adjusted_count,
            report.truncated_count == self.truncated_count,
    {
        SubtitleGenerationReport {
            mp3,
            adjusted_count: self.adjusted_count,
            truncated_count: self.truncated_count,
        }
    }
}

/// The sample up to which silence closes the track: where its last cue ends.
pub fn closing_sample(cues: &[SubtitleCue]) -> (sample: u64)
    ensures
        sample == timeline_audio::timeline_samples(
            subtitles::latest_end(subtitles::cues_of(cues@)),
        ),
{
    timeline_audio::milliseconds_to_samples(subtitles::latest_end_ms(cues))
}

/// The track before its first cue.
pub open spec fn fitted_nothing() -> FittedTrack {
    FittedTrack { spoken: 0, written_samples: 0, adjusted_count: 0, truncated_count: 0 }
}

/// The track after the first `n` cues, each with the clips that came back for it.
pub open spec fn fitted(cues: Seq<Cue>, clips: Seq<CueClips>, rate_percent: i32, n: int) -> FittedTrack
    decreases n,
{
    if n <= 0 {
        fitted_nothing()
    } else {
        with_cue(
            fitted(cues, clips, rate_percent, n - 1),
            slot_of(cues, n - 1),
            clips[n - 1],
            rate_percent,
        )
    }
}

/// Which of the first `n` cues are spoken faster.
pub open spec fn adjusted_cues(cues: Seq<Cue>, clips: Seq<CueClips>, rate_percent: i32, n: int) -> Set<
    int,
> {
    Set::new(
        |i: int|
            0 <= i < n && uses_faster(clips[i], slot_of(cues, i).available_samples, rate_percent),
    )
}

/// Which of the first `n` cues are cut off.
pub open spec fn truncated_cues(cues: Seq<Cue>, clips: Seq<CueClips>, rate_percent: i32, n: int) -> Set<
    int,
> {
    Set::new(
        |i: int|
            0 <= i < n && written_cut(
                clips[i],
                slot_of(cues, i).available_samples,
                rate_percent,
            ).truncated,
    )
}

/// A track that is spoken cue by cue counts its cues, those that were spoken faster and those that
/// were cut off.
pub proof fn a_track_counts_its_cues(
    cues: Seq<Cue>,
    clips: Seq<CueClips>,
    rate_percent: i32,
    n: int,
)
    requires
        0 <= n <= cues.len() <= usize::MAX,
    ensures
        ({
            let track = fitted(cues, clips, rate_percent, n);
            &&& track.spoken == n
            &&& track.well_formed()
            &&& adjusted_cues(cues, clips, rate_percent, n).finite()
            &&& truncated_cues(cues, clips, rate_percent, n).finite()
            &&& track.adjusted_count == adjusted_cues(cues, clips, rate_percent, n).len()
            &&& track.truncated_count == truncated_cues(cues, clips, rate_percent, n).len()
        }),
    decreases n,
{
    let adjusted = adjusted_cues(cues, clips, rate_percent, n);
    let truncated = truncated_cues(cues, clips, rate_percent, n);
    if n == 0 {
        assert(adjusted =~= Set::empty());
        assert(truncated =~= Set::empty());
    } else {
        a_track_counts_its_cues(cues, clips, rate_percent, n - 1);
        let adjusted_before = adjusted_cues(cues, clips, rate_percent, n - 1);
        let truncated_before = truncated_cues(cues, clips, rate_percent, n - 1);
        if adjusted.contains(n - 1) {
            assert(adjusted =~= adjusted_before.insert(n - 1));
        } else {
            assert(adjusted =~= adjusted_before);
        }
        if truncated.contains(n - 1) {
            assert(truncated =~= truncated_before.insert(n - 1));
        } else {
            assert(truncated =~= truncated_before);
        }
    }
}

/// Whatever clips come back, the timeline is never written beyond the start of the next cue, so that
/// the silence before each cue leads exactly to its start and its clip follows there.
pub proof fn a_fitted_track_is_on_time(
    cues: Seq<Cue>,
    clips: Seq<CueClips>,
    rate_percent: i32,
    n: int,
)
    requires
        starts_rise(cues),
        clips.len() == cues.len(),
        0 <= n < cues.len(),
        cues[n].start_ms * timeline_audio::TIMELINE_SAMPLE_RATE <= u64::MAX,
    ensures
        fitted(cues, clips, rate_percent, n).written_samples <= slot_of(cues, n).start_sample,
        fitted(cues, clips, rate_percent, n + 1).written_samples == slot_of(cues, n).start_sample
            + written_cut(
            clips[n],
            slot_of(cues, n).available_samples,
            rate_percent,
        ).kept_samples,
    decreases n,
{
    if n > 0 {
        let previous = cues[n - 1];
        let current = cues[n];
        assert(previous.start_ms < current.start_ms);
        a_fitted_track_is_on_time(cues, clips, rate_percent, n - 1);
        assert(slot_end(cues, n - 1) <= current.start_ms);
        let length = (slot_end(cues, n - 1) - previous.start_ms) as u64;
        timeline_audio::samples_follow_time(previous.start_ms, length);
        timeline_audio::samples_follow_time(slot_end(cues, n - 1), current.start_ms);
    }
    let slot = slot_of(cues, n);
    let before = fitted(cues, clips, rate_percent, n);
    let cut = written_cut(clips[n], slot.available_samples, rate_percent);
    assert(fitted(cues, clips, rate_percent, n + 1) == with_cue(before, slot, clips[n], rate_percent));
    assert(cut.kept_samples <= slot.available_samples);
    assert(slot.start_sample <= u64::MAX / 1_000 && slot.available_samples <= u64::MAX / 1_000);
}

/// The milliseconds from the start of a cue to its end or to the start of the next cue, whichever
/// comes first.
pub open spec fn room_ms(cues: Seq<Cue>, i: int) -> int {
    if i + 1 < cues.len() && cues[i + 1].start_ms < cues[i].end_ms {
        cues[i + 1].start_ms - cues[i].start_ms
    } else {
        cues[i].end_ms - cues[i].start_ms
    }
}

/// The slot of a cue that lasts some time begins with the cue and reaches exactly to the earlier of
/// its end and the start of the next cue: there are 24 samples for each millisecond.
pub proof fn a_slot_reaches_to_the_next_cue(cues: Seq<Cue>, i: int)
    requires
        0 <= i < cues.len(),
        cues[i].start_ms < cues[i].end_ms,
        i + 1 < cues.len() ==> cues[i].start_ms < cues[i + 1].start_ms,
        cues[i].end_ms * 24_000 <= u64::MAX,
    ensures
        slot_of(cues, i).start_sample == cues[i].start_ms * 24,
        slot_of(cues, i).available_samples == room_ms(cues, i) * 24,
{
}

/// A clip that is no longer than the room of its cue is kept whole, is not asked for again and is not
/// exchanged for a faster one.
pub proof fn a_clip_that_fits_is_kept_whole(
    cues: Seq<Cue>,
    i: int,
    clips: CueClips,
    rate_percent: i32,
)
    requires
        0 <= i < cues.len(),
        cues[i].start_ms < cues[i].end_ms,
        i + 1 < cues.len() ==> cues[i].start_ms < cues[i + 1].start_ms,
        cues[i].end_ms * 24_000 <= u64::MAX,
        clips.first <= room_ms(cues, i) * 24,
    ensures
        ({
            let available = slot_of(cues, i).available_samples;
            &&& !wants_faster(clips.first as nat, available, rate_percent)
            &&& !uses_faster(clips, available, rate_percent)
            &&& written_cut(clips, available, rate_percent).kept_samples == clips.first
            &&& !written_cut(clips, available, rate_percent).truncated
        }),
{
    a_slot_reaches_to_the_next_cue(cues, i);
}

/// A clip that is longer than the room of its cue is asked for again, unless it is spoken at twice
/// the normal speed already. What comes back takes its place, and only what is still too long is cut
/// off, exactly where the room ends.
pub proof fn a_clip_that_does_not_fit_is_made_to(
    cues: Seq<Cue>,
    i: int,
    clips: CueClips,
    rate_percent: i32,
)
    requires
        0 <= i < cues.len(),
        cues[i].start_ms < cues[i].end_ms,
        i + 1 < cues.len() ==> cues[i].start_ms < cues[i + 1].start_ms,
        cues[i].end_ms * 24_000 <= u64::MAX,
        clips.first > room_ms(cues, i) * 24,
    ensures
        ({
            let available = slot_of(cues, i).available_samples;
            let cut = written_cut(clips, available, rate_percent);
            let used = if rate_percent < 100 && clips.faster is Some {
                clips.faster->0
            } else {
                clips.first
            };
            &&& wants_faster(clips.first as nat, available, rate_percent) <==> rate_percent < 100
            &&& uses_faster(clips, available, rate_percent) <==> rate_percent < 100
                && clips.faster is Some
            &&& used <= room_ms(cues, i) * 24 ==> cut.kept_samples == used && !cut.truncated
            &&& used > room_ms(cues, i) * 24 ==> cut.kept_samples == room_ms(cues, i) * 24
                && cut.truncated
        }),
{
    a_slot_reaches_to_the_next_cue(cues, i);
}

/// The second request is faster than the first, at most at twice the normal speed, and three percent
/// faster than what would just fit, where that is possible. A clip that needs more speed never gets
/// less.
pub proof fn the_second_request_is_just_fast_enough(needed: i32, more: i32, rate_percent: i32)
    requires
        rate_percent < 100,
        needed <= more,
    ensures
        rate_percent < faster_rate(needed, rate_percent) <= 100,
        rate_percent - 2 <= needed <= 97 ==> faster_rate(needed, rate_percent) == needed + 3,
        needed > 97 ==> faster_rate(needed, rate_percent) == 100,
        needed < rate_percent - 2 ==> faster_rate(needed, rate_percent) == rate_percent + 1,
        faster_rate(needed, rate_percent) <= faster_rate(more, rate_percent),
{
}

} // verus!
