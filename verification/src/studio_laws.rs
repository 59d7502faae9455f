//! What holds of the studio whatever the user asks for and whatever the worker tells.
use vstd::prelude::*;

use crate::download_control;
use crate::labels;
use crate::requests;
use crate::requests::{Decision, Speaker};
use crate::studio;
use crate::studio::{State, TtsEngine};
use crate::subtitles;
use crate::subtitles::{Cue, SubtitleFormat};
use crate::text;
use crate::voices;
use crate::voices::{Voice, VoiceChoice};
use crate::window;
use crate::worker_events;
use crate::worker_events::WorkerEvent;

verus! {

/// A request to make audio is accepted whenever the button for it can be pressed.
pub proof fn offered_generation_is_accepted(s: State, reference_present: bool)
    requires
        labels::generation_possible(s, reference_present),
    ensures
        requests::generation_decision(s, reference_present) is Accepted,
{
}

/// A request for a preview is accepted whenever the button for it can be pressed.
pub proof fn offered_preview_is_accepted(s: State, reference_present: bool)
    requires
        labels::preview_possible(s, reference_present),
    ensures
        requests::preview_decision(s, reference_present) is Accepted,
{
}

/// A request to recognise the recording is accepted whenever the button for it can be pressed.
pub proof fn offered_transcription_is_accepted(s: State, input_present: bool)
    requires
        labels::transcription_possible(s, input_present),
    ensures
        requests::transcription_decision(s, input_present) is Accepted,
{
}

/// No recording is cloned unless it is there and the user has confirmed that it may be.
pub proof fn cloning_needs_permission(s: State, reference_present: bool)
    ensures
        match requests::speaker(s.selection, reference_present) {
            Some(Speaker::Qwen3Clone { reference_path, .. }) => s.selection.clone_authorized
                && reference_present && s.selection.clone_reference_path == Some(reference_path),
            Some(Speaker::IndexTts25 { reference_path }) => s.selection.clone_authorized
                && reference_present && s.selection.clone_reference_path == Some(reference_path),
            _ => true,
        },
{
}

/// A recording that was just chosen is not cloned before the user has confirmed anew.
pub proof fn a_new_recording_needs_new_permission(s: State, path: String, reference_present: bool)
    ensures
        requests::clones(s.selection) ==> requests::speaker(
            requests::after_clone_reference_chosen(s, path).selection,
            reference_present,
        ) is None,
{
}

/// A request that is not accepted changes nothing but what the user is told.
pub proof fn a_refused_request_changes_nothing_else<A>(s: State, decision: Decision<A>)
    ensures
        (State { status: s.status, ..requests::after_decision(s, decision) }) == s,
        !(decision is Refused) ==> requests::after_decision(s, decision) == s,
{
}

/// No two of these are going on at once: making audio, a preview, the recognition of a recording.
pub open spec fn one_operation(s: State) -> bool {
    &&& !(s.generating && s.previewing)
    &&& !(s.generating && s.transcription.running)
    &&& !(s.previewing && s.transcription.running)
}

/// An event of the worker never starts an operation.
pub proof fn events_start_no_operation(s: State, event: WorkerEvent)
    ensures
        worker_events::after_event(s, event).generating ==> s.generating,
        worker_events::after_event(s, event).previewing ==> s.previewing,
        worker_events::after_event(s, event).transcription.running ==> s.transcription.running,
        worker_events::after_event(s, event).transcription.saving ==> s.transcription.saving,
        worker_events::after_event(s, event).fetching_voices ==> s.fetching_voices,
{
    reveal(worker_events::after_event);
}

/// Events and accepted requests keep it so that at most one operation is going on.
pub proof fn operations_exclude_one_another(
    s: State,
    event: WorkerEvent,
    reference_present: bool,
    input_present: bool,
    file_name: &str,
    sent: bool,
)
    requires
        one_operation(s),
    ensures
        one_operation(worker_events::after_event(s, event)),
        requests::generation_decision(s, reference_present) is Accepted ==> one_operation(
            requests::after_generation_requested(s, file_name, sent),
        ),
        requests::preview_decision(s, reference_present) is Accepted ==> one_operation(
            requests::after_preview_requested(s, sent),
        ),
        requests::transcription_decision(s, input_present) is Accepted ==> one_operation(
            requests::after_transcription_requested(s, sent),
        ),
{
    events_start_no_operation(s, event);
}

/// When the worker has come to an end, nothing is shown as going on.
pub proof fn nothing_outlives_the_worker(s: State, error: String)
    ensures
        ({
            let after = worker_events::after_event(s, WorkerEvent::WorkerFailed(error));
            &&& !requests::controls_busy(after)
            &&& !requests::speech_busy(after)
            &&& !after.transcription.loading_model
            &&& after.subtitle_progress is None
        }),
{
    reveal(worker_events::after_event);
}

proof fn lemma_failed_preview_is_over(s: State, error: String)
    ensures
        !worker_events::after_event(s, WorkerEvent::PreviewFailed(error)).previewing,
{
    reveal(worker_events::after_event);
}

proof fn lemma_failed_generation_is_over(s: State, error: String)
    ensures
        !worker_events::after_event(s, WorkerEvent::GenerationFailed(error)).generating,
{
    reveal(worker_events::after_event);
}

proof fn lemma_failed_transcription_is_over(s: State, error: String)
    ensures
        !worker_events::after_event(s, WorkerEvent::TranscriptionFailed(error)).transcription.running,
{
    reveal(worker_events::after_event);
}

proof fn lemma_failed_saving_is_over(s: State, error: String)
    ensures
        !worker_events::after_event(s, WorkerEvent::TranscriptionSaveFailed(error)).transcription.saving,
{
    reveal(worker_events::after_event);
}

proof fn lemma_failed_voices_is_over(s: State, error: String)
    ensures
        !worker_events::after_event(s, WorkerEvent::VoicesFailed(error)).fetching_voices,
{
    reveal(worker_events::after_event);
}

proof fn lemma_failed_qwen_model_is_over(s: State, error: String)
    ensures
        !worker_events::after_event(s, WorkerEvent::QwenModelFailed(error)).qwen.preparing,
{
    reveal(worker_events::after_event);
}

proof fn lemma_failed_indextts_is_over(s: State, error: String)
    ensures
        !worker_events::after_event(s, WorkerEvent::IndexTtsFailed(error)).indextts.preparing,
{
    reveal(worker_events::after_event);
}

/// An operation that failed is over.
pub proof fn a_failure_ends_its_operation(s: State, error: String)
    ensures
        !worker_events::after_event(s, WorkerEvent::PreviewFailed(error)).previewing,
        !worker_events::after_event(s, WorkerEvent::GenerationFailed(error)).generating,
        !worker_events::after_event(s, WorkerEvent::TranscriptionFailed(error)).transcription.running,
        !worker_events::after_event(s, WorkerEvent::TranscriptionSaveFailed(error)).transcription.saving,
        !worker_events::after_event(s, WorkerEvent::VoicesFailed(error)).fetching_voices,
        !worker_events::after_event(s, WorkerEvent::QwenModelFailed(error)).qwen.preparing,
        !worker_events::after_event(s, WorkerEvent::IndexTtsFailed(error)).indextts.preparing,
{
    lemma_failed_preview_is_over(s, error);
    lemma_failed_generation_is_over(s, error);
    lemma_failed_transcription_is_over(s, error);
    lemma_failed_saving_is_over(s, error);
    lemma_failed_voices_is_over(s, error);
    lemma_failed_qwen_model_is_over(s, error);
    lemma_failed_indextts_is_over(s, error);
}

proof fn lemma_failed_qwen_model_opens_the_guide(s: State, error: String)
    requires
        worker_events::opens_help(s, error@),
    ensures
        worker_events::after_event(s, WorkerEvent::QwenModelFailed(error)).qwen.manual_help_open,
{
    reveal(worker_events::after_event);
}

proof fn lemma_failed_preview_opens_the_guide(s: State, error: String)
    requires
        worker_events::opens_help(s, error@),
    ensures
        worker_events::after_event(s, WorkerEvent::PreviewFailed(error)).qwen.manual_help_open,
{
    reveal(worker_events::after_event);
}

proof fn lemma_failed_generation_opens_the_guide(s: State, error: String)
    requires
        worker_events::opens_help(s, error@),
    ensures
        worker_events::after_event(s, WorkerEvent::GenerationFailed(error)).qwen.manual_help_open,
{
    reveal(worker_events::after_event);
}

/// When a Qwen3 model was on its way and could not be had, whatever it was wanted for, the
/// instructions for fetching it by hand open. Only a download that the user cancelled leaves them
/// closed.
pub proof fn a_failed_download_opens_the_guide(s: State, error: String)
    requires
        s.qwen.preparing,
        s.selection.tts_engine == TtsEngine::Qwen3Local,
        !download_control::tells_cancelled(error@),
    ensures
        worker_events::after_event(s, WorkerEvent::QwenModelFailed(error)).qwen.manual_help_open,
        worker_events::after_event(s, WorkerEvent::PreviewFailed(error)).qwen.manual_help_open,
        worker_events::after_event(s, WorkerEvent::GenerationFailed(error)).qwen.manual_help_open,
{
    lemma_failed_qwen_model_opens_the_guide(s, error);
    lemma_failed_preview_opens_the_guide(s, error);
    lemma_failed_generation_opens_the_guide(s, error);
}

/// The text, the track, the speed and the volume are the same, and so are the language of the
/// window and the workspace.
pub open spec fn same_input(s: State, t: State) -> bool {
    s.input == t.input && s.ui_language == t.ui_language && s.workspace_mode == t.workspace_mode
}

/// The same engine, model and recording are chosen, and the same search is shown.
pub open spec fn same_choices(s: State, t: State) -> bool {
    &&& s.selection.tts_engine == t.selection.tts_engine
    &&& s.selection.qwen_version == t.selection.qwen_version
    &&& s.selection.qwen_voice == t.selection.qwen_voice
    &&& s.selection.qwen_voice_mode == t.selection.qwen_voice_mode
    &&& s.selection.clone_reference_path == t.selection.clone_reference_path
    &&& s.selection.clone_reference_text == t.selection.clone_reference_text
    &&& s.selection.clone_authorized == t.selection.clone_authorized
    &&& s.selection.voice_filter == t.selection.voice_filter
}

/// No event of the worker changes what the user has typed or imported.
pub proof fn events_keep_the_input(s: State, event: WorkerEvent)
    ensures
        same_input(worker_events::after_event(s, event), s),
{
    reveal(worker_events::after_event);
}

/// The selection is the same.
spec fn same_selection(s: State, t: State) -> bool {
    s.selection == t.selection
}

proof fn lemma_only_loaded_voices_change_the_selection(s: State, event: WorkerEvent)
    ensures
        event is VoicesLoaded || same_selection(worker_events::after_event(s, event), s),
{
    reveal(worker_events::after_event);
}

/// No event of the worker changes what the user has chosen, but for the voice of the service.
pub proof fn events_keep_the_choices(s: State, event: WorkerEvent)
    ensures
        same_choices(worker_events::after_event(s, event), s),
{
    lemma_only_loaded_voices_change_the_selection(s, event);
    if let WorkerEvent::VoicesLoaded { voices, from_cache, warning } = event {
        lemma_loaded_voices_keep_the_choices(s, voices, from_cache, warning);
    }
}

proof fn lemma_loaded_voices_keep_the_choices(
    s: State,
    loaded: Vec<VoiceChoice>,
    from_cache: bool,
    warning: Option<String>,
)
    ensures
        same_choices(
            worker_events::after_event(
                s,
                WorkerEvent::VoicesLoaded { voices: loaded, from_cache, warning },
            ),
            s,
        ),
{
    reveal(worker_events::after_event);
}

/// The selected voice is one of the voices.
pub open spec fn selection_in_range(s: State) -> bool {
    match s.selection.selected_voice {
        Some(index) => index < s.selection.voices.len(),
        None => true,
    }
}

/// After every event the selected voice is one of the voices.
pub proof fn a_listed_voice_stays_selected(s: State, event: WorkerEvent)
    requires
        selection_in_range(s),
    ensures
        selection_in_range(worker_events::after_event(s, event)),
{
    lemma_only_loaded_voices_change_the_selection(s, event);
    if let WorkerEvent::VoicesLoaded { voices, from_cache, warning } = event {
        lemma_loaded_voice_in_range(s, voices, from_cache, warning);
    }
}

proof fn lemma_loaded_voice_in_range(
    s: State,
    loaded: Vec<VoiceChoice>,
    from_cache: bool,
    warning: Option<String>,
)
    ensures
        selection_in_range(
            worker_events::after_event(
                s,
                WorkerEvent::VoicesLoaded { voices: loaded, from_cache, warning },
            ),
        ),
{
    reveal(worker_events::after_event);
    let listed = voices::voices_of(loaded@);
    if let Some(name) = worker_events::selected_name(s) {
        lemma_position_in_range(listed, name, 0);
    }
    lemma_position_in_range(listed, studio::PREFERRED_VOICE@, 0);
    assert(listed.len() == loaded@.len());
}

proof fn lemma_position_in_range(voices: Seq<Voice>, name: Seq<char>, from: int)
    requires
        0 <= from,
    ensures
        match voices::voice_position(voices, name, from) {
            Some(at) => from <= at < voices.len(),
            None => true,
        },
    decreases voices.len() - from,
{
    if from < voices.len() && voices[from].short_name != name {
        lemma_position_in_range(voices, name, from + 1);
    }
}

/// An imported track has at most ten thousand cues and ends within a day; a file that goes beyond
/// leaves the track that was there.
pub proof fn imported_tracks_are_within_limits(
    s: State,
    path: Seq<char>,
    result: Result<(SubtitleFormat, Seq<Cue>), Seq<char>>,
)
    ensures
        ({
            let after = requests::after_subtitle_read(s, path, result);
            ||| after.input == s.input
            ||| after.input.subtitle_track matches Some((format, cues)) && cues.len()
                <= requests::MAX_TRACK_CUES && subtitles::latest_end(cues)
                <= requests::MAX_TRACK_MS
        }),
{
}

/// A cue has visible text.
pub open spec fn is_visible(cue: Cue) -> bool {
    text::trimmed(cue.text).len() > 0
}

/// The cues that are saved are those with visible text.
pub proof fn cues_with_text_are_saved(cues: Seq<Cue>)
    ensures
        forall|i: int|
            0 <= i < requests::with_text(cues).len() ==> is_visible(
                #[trigger] requests::with_text(cues)[i],
            ) && cues.contains(requests::with_text(cues)[i]),
        forall|i: int|
            0 <= i < cues.len() && is_visible(cues[i]) ==> requests::with_text(cues).contains(
                #[trigger] cues[i],
            ),
    decreases cues.len(),
{
    if cues.len() > 0 {
        let first = cues.drop_last();
        let before = requests::with_text(first);
        let saved = requests::with_text(cues);
        cues_with_text_are_saved(first);
        assert forall|i: int| 0 <= i < saved.len() implies is_visible(#[trigger] saved[i])
            && cues.contains(saved[i]) by {
            if i < before.len() {
                assert(saved[i] == before[i]);
                let k = choose|k: int| 0 <= k < first.len() && first[k] == before[i];
                assert(cues[k] == saved[i]);
            } else {
                assert(cues[cues.len() - 1] == saved[i]);
            }
        }
        assert forall|i: int| 0 <= i < cues.len() && is_visible(cues[i]) implies saved.contains(
            #[trigger] cues[i],
        ) by {
            if i < first.len() {
                assert(first[i] == cues[i]);
                let k = choose|k: int| 0 <= k < before.len() && before[k] == first[i];
                assert(saved[k] == cues[i]);
            } else {
                assert(saved[saved.len() - 1] == cues[i]);
            }
        }
    }
}

/// Editing the text of a cue keeps the number of cues and the times of every cue, and it is known
/// that there is something to save.
pub proof fn editing_keeps_the_times(s: State, index: int, changed: Seq<char>, i: int)
    requires
        0 <= index < s.transcription.cues.len(),
        0 <= i < s.transcription.cues.len(),
    ensures
        ({
            let after = window::after_cue_edited(s, index, changed);
            &&& after.transcription.cues.len() == s.transcription.cues.len()
            &&& after.transcription.cues[i].start_ms == s.transcription.cues[i].start_ms
            &&& after.transcription.cues[i].end_ms == s.transcription.cues[i].end_ms
            &&& after.transcription.cues[i].text == (if i == index {
                changed
            } else {
                s.transcription.cues[i].text
            })
            &&& after.transcription.dirty
        }),
{
}

} // verus!
