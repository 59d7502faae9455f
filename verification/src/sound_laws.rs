//! What is heard: the timeline, the clips on it and the models that speak.
use vstd::prelude::*;

use crate::audio_player;
use crate::audio_player::SampleCursor;
use crate::timeline_audio;
use crate::worker;
use crate::worker::{Models, Task, WholeSpeech};

verus! {

/// A millisecond takes 24 samples of the timeline.
pub proof fn a_millisecond_takes_24_samples(ms: u64)
    requires
        ms * 24_000 <= u64::MAX,
    ensures
        timeline_audio::timeline_samples(ms) == ms * 24,
{
}

/// A sample is heard by its magnitude alone: whichever its sign, what is as loud as a sample that is
/// heard is heard, from 0.0015 on, and what is no number is not.
pub proof fn a_sample_is_heard_by_its_loudness(a: u32, b: u32)
    requires
        a <= b < 0x8000_0000,
    ensures
        timeline_audio::is_heard(a) == timeline_audio::is_heard((a + 0x8000_0000) as u32),
        timeline_audio::is_heard(a) && b <= 0x7F80_0000 ==> timeline_audio::is_heard(b),
        b < 0x3AC4_9BA6 ==> !timeline_audio::is_heard(b),
        a >= 0x3AC4_9BA6 && a <= 0x7F80_0000 ==> timeline_audio::is_heard(a),
        a > 0x7F80_0000 ==> !timeline_audio::is_heard(a),
{
}

/// Bringing a clip to another sample rate keeps its duration, but for less than a sample; and no clip
/// is lost by it.
pub proof fn resampling_keeps_the_duration(length: nat, source_rate: nat, target_rate: nat)
    requires
        source_rate > 0,
        target_rate > 0,
    ensures
        ({
            let count = timeline_audio::resampled(length, source_rate, target_rate);
            &&& length > 0 ==> count > 0
            &&& length == 0 ==> count == 0
            &&& length * target_rate >= source_rate ==> count * source_rate <= length * target_rate
                < (count + 1) * source_rate
            &&& length > 0 && length * target_rate < source_rate ==> count == 1
            &&& source_rate == target_rate ==> count == length
        }),
{
    let product = length * target_rate;
    if length == 0 {
        assert(product == 0) by (nonlinear_arith)
            requires
                length == 0,
                product == length * target_rate,
        ;
    } else if source_rate == target_rate {
        assert(product == length * source_rate);
        assert(length * source_rate < (length + 1) * source_rate) by (nonlinear_arith)
            requires
                source_rate > 0,
        ;
        assert(length * source_rate >= source_rate) by (nonlinear_arith)
            requires
                source_rate > 0,
                length >= 1,
        ;
    } else {
        let count = product / source_rate;
        assert(count * source_rate <= product < (count + 1) * source_rate) by (nonlinear_arith)
            requires
                source_rate > 0,
                count == product / source_rate,
        ;
        if product >= source_rate {
            assert(count >= 1) by (nonlinear_arith)
                requires
                    source_rate > 0,
                    product >= source_rate,
                    product < (count + 1) * source_rate,
            ;
        } else {
            assert(count == 0) by (nonlinear_arith)
                requires
                    source_rate > 0,
                    0 <= product < source_rate,
                    count * source_rate <= product,
                    count >= 0,
            ;
        }
    }
}

/// A clip of a local model is kept whole behind what was written, not before its cue starts. It is
/// counted exactly when it is longer than its slot.
pub proof fn a_clip_is_laid_where_its_cue_starts(
    track: WholeSpeech,
    start_sample: u64,
    available_samples: u64,
    clip_samples: usize,
)
    requires
        track.written_samples + clip_samples <= u64::MAX,
        start_sample + clip_samples <= u64::MAX,
        track.overflow_count < usize::MAX,
    ensures
        ({
            let after = worker::with_clip(track, start_sample, available_samples, clip_samples);
            &&& track.written_samples <= start_sample ==> after.written_samples == start_sample
                + clip_samples
            &&& track.written_samples >= start_sample ==> after.written_samples
                == track.written_samples + clip_samples
            &&& clip_samples <= available_samples ==> after.overflow_count == track.overflow_count
            &&& clip_samples > available_samples ==> after.overflow_count == track.overflow_count
                + 1
        }),
{
}

/// What a task needs is kept when it begins, and so is everything when it needs no model. What it
/// does not need is let go.
pub proof fn a_task_keeps_what_it_uses(models: Models)
    ensures
        worker::kept_for(models, Task::Online) == models,
        worker::kept_for(models, Task::Transcribe).whisper == models.whisper,
        worker::kept_for(models, Task::Qwen3Preset).qwen == models.qwen,
        worker::kept_for(models, Task::Qwen3Clone).qwen == models.qwen,
        worker::kept_for(models, Task::Qwen3Clone).prompt == models.prompt,
        worker::kept_for(models, Task::Qwen3Preset).prompt is None,
        worker::kept_for(models, Task::Transcribe).qwen is None,
        worker::kept_for(models, Task::Transcribe).prompt is None,
        forall|task: Task|
            task != Task::Online && task != Task::Transcribe ==> (#[trigger] worker::kept_for(
                models,
                task,
            )).whisper is None,
        forall|task: Task|
            task == Task::IndexTts25 || task == Task::ImportQwen3 || task == Task::RedownloadQwen3
                ==> (#[trigger] worker::kept_for(models, task)).qwen is None,
{
}

/// The window is told of a release exactly when the model that it shows as loaded is no longer there,
/// and when it is fetched again.
pub proof fn a_release_is_told(models: Models, task: Task)
    ensures
        task != Task::RedownloadQwen3 ==> (worker::tells_release(models, task) <==> models.qwen is Some
            && worker::kept_for(models, task).qwen is None),
        worker::tells_release(models, Task::RedownloadQwen3),
{
}

/// A cursor reads every sample once, in order, and then none.
pub proof fn a_cursor_reads_on(cursor: SampleCursor)
    ensures
        cursor.position < cursor.length ==> audio_player::next_sample(cursor) == Some(
            cursor.position,
        ),
        cursor.position >= cursor.length ==> audio_player::next_sample(cursor) is None,
        audio_player::at_sample(cursor, cursor.length).position == cursor.length,
        forall|sample: usize|
            sample <= cursor.length ==> (#[trigger] audio_player::at_sample(
                cursor,
                sample,
            )).position == sample,
        forall|sample: usize|
            sample > cursor.length ==> (#[trigger] audio_player::at_sample(
                cursor,
                sample,
            )).position == cursor.length,
        forall|sample: usize|
            (#[trigger] audio_player::at_sample(cursor, sample)).length == cursor.length,
{
}

} // verus!
