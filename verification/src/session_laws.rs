//! What a session goes through: what is asked of the worker and what its reports leave behind.
use vstd::prelude::*;

use crate::asr::SubtitleExportFormat;
use crate::display_laws;
use crate::labels;
use crate::qwen_local::{QwenModelKind, QwenModelVersion};
use crate::requests;
use crate::requests::{Decision, Speaker, Spoken};
use crate::studio;
use crate::studio::{Fraction, InputMode, QwenVoiceMode, Startup, State, TtsEngine, WorkspaceMode};
use crate::subtitles;
use crate::subtitles::{Cue, SubtitleCue, SubtitleFormat};
use crate::text;
use crate::ui_text::StatusKind;
use crate::voices;
use crate::voices::VoiceChoice;
use crate::window;
use crate::worker_events;
use crate::worker_events::{FollowUp, WorkerEvent};

verus! {

/// The cues of the track that was imported; none when there is no track.
pub open spec fn imported_cues(s: State) -> Seq<Cue> {
    match s.input.subtitle_track {
        Some((_, cues)) => cues,
        None => Seq::empty(),
    }
}

/// A session begins with the online service, the plain text and no permission to clone a voice; the
/// only thing that goes on is that the voices are loaded, unless the worker could not be started.
pub proof fn a_session_begins_at_rest(startup: Startup)
    ensures
        ({
            let s = studio::started(startup);
            &&& s.selection.tts_engine == TtsEngine::Edge
            &&& s.input.input_mode == InputMode::Text
            &&& s.input.subtitle_track is None
            &&& !s.selection.clone_authorized && s.selection.clone_reference_path is None
            &&& s.fetching_voices <==> !(startup is Failed)
            &&& !s.generating && !s.previewing && !s.qwen.preparing && !s.indextts.preparing
            &&& !s.transcription.running && !s.transcription.saving
            &&& s.transcription.cues.len() == 0
            &&& s.status is Some
            &&& startup is Loading <==> s.status->0.kind == StatusKind::Info
        }),
{
}

/// A progress bar is shown exactly while something goes on that can be waited for, and there is one
/// for the audio that is made.
pub proof fn a_bar_is_shown_while_something_goes_on(s: State)
    ensures
        labels::bars(s).len() == 0 <==> !(s.generating || s.qwen.preparing || s.indextts.preparing
            || s.previewing || (s.selection.tts_engine == TtsEngine::Edge && s.fetching_voices)),
        s.generating ==> labels::bars(s) == seq![labels::generation_bar(s)],
        !s.generating && s.qwen.preparing ==> labels::bars(s)[0].done == s.qwen.progress
            && labels::bars(s)[0].label == s.qwen.progress_label,
        !s.generating && !s.qwen.preparing && s.indextts.preparing ==> labels::bars(s)[0].done
            == s.indextts.progress && labels::bars(s)[0].label == s.indextts.progress_label,
{
}

/// The voice that is selected speaks: one of the online service, one of the model, or the recording
/// that may be cloned, with the words that are said in it.
pub proof fn the_selected_voice_speaks(s: State, reference_present: bool, path: Seq<char>)
    ensures
        ({
            let chosen = s.selection;
            let speaker = requests::speaker(chosen, reference_present);
            let allowed = chosen.clone_reference_path == Some(path) && chosen.clone_authorized
                && reference_present;
            &&& chosen.tts_engine == TtsEngine::Edge && chosen.selected_voice is Some
                && chosen.selected_voice->0 < chosen.voices.len() ==> speaker == Some(
                Speaker::Edge(chosen.voices[chosen.selected_voice->0 as int].short_name),
            )
            &&& chosen.tts_engine == TtsEngine::Edge && chosen.selected_voice is None
                ==> speaker is None
            &&& chosen.tts_engine == TtsEngine::Qwen3Local && chosen.qwen_voice_mode
                == QwenVoiceMode::Preset ==> speaker == Some(
                Speaker::Qwen3Preset { version: chosen.qwen_version, voice: chosen.qwen_voice },
            )
            &&& chosen.tts_engine == TtsEngine::Qwen3Local && chosen.qwen_voice_mode
                == QwenVoiceMode::Clone && allowed ==> speaker == Some(
                Speaker::Qwen3Clone {
                    version: chosen.qwen_version,
                    reference_path: path,
                    reference_text: text::trimmed(chosen.clone_reference_text),
                },
            )
            &&& chosen.tts_engine == TtsEngine::IndexTts25 && allowed ==> speaker == Some(
                Speaker::IndexTts25 { reference_path: path },
            )
        }),
{
}

/// What is generated is what was entered, spoken by the voice that is selected.
pub proof fn generation_speaks_the_input(s: State, reference_present: bool, voice: Speaker)
    requires
        !s.generating && !s.previewing && !s.transcription.running && !s.indextts.preparing,
        s.selection.tts_engine != TtsEngine::Edge || !s.fetching_voices,
        requests::speaker(s.selection, reference_present) == Some(voice),
    ensures
        ({
            let decision = requests::generation_decision(s, reference_present);
            &&& s.input.input_mode == InputMode::Text && text::is_visible(s.input.text) ==> {
                &&& decision matches Decision::Accepted(accepted)
                &&& accepted.0 == voice
                &&& accepted.1 == Spoken::Text(text::trimmed(s.input.text))
            }
            &&& s.input.input_mode == InputMode::Text && !text::is_visible(s.input.text)
                ==> decision is Refused
            &&& s.input.input_mode == InputMode::Subtitles && s.input.subtitle_track is Some ==> {
                &&& decision matches Decision::Accepted(accepted)
                &&& accepted.0 == voice
                &&& accepted.1 == Spoken::Subtitles(imported_cues(s))
            }
            &&& s.input.input_mode == InputMode::Subtitles && s.input.subtitle_track is None
                ==> decision is Refused
        }),
{
    text::lemma_trimmed_visible(s.input.text);
}

/// A preview speaks the beginning of what would be generated: of the text, or of the first cue.
pub proof fn a_preview_speaks_the_input(s: State, reference_present: bool, voice: Speaker)
    requires
        !s.generating && !s.previewing && !s.transcription.running && !s.indextts.preparing,
        s.selection.tts_engine != TtsEngine::Edge || !s.fetching_voices,
        requests::speaker(s.selection, reference_present) == Some(voice),
    ensures
        ({
            let decision = requests::preview_decision(s, reference_present);
            let source = if s.input.input_mode == InputMode::Text {
                s.input.text
            } else {
                imported_cues(s)[0].text
            };
            &&& decision matches Decision::Accepted(accepted)
            &&& accepted.0 == voice
            &&& (s.input.input_mode == InputMode::Text || (s.input.subtitle_track is Some
                && imported_cues(s).len() > 0)) && text::is_visible(source)
                && text::trimmed(source).len() <= 80 ==> accepted.1 == text::trimmed(source)
        }),
{
    text::lemma_trimmed_visible(s.input.text);
    if s.input.subtitle_track is Some {
        text::lemma_trimmed_visible(imported_cues(s)[0].text);
    }
}

/// Nothing is spoken while something else is going on, and nothing is spoken without a voice.
pub proof fn nothing_is_spoken_out_of_turn(s: State, reference_present: bool)
    ensures
        s.generating || s.previewing || s.transcription.running || s.indextts.preparing || (
        s.selection.tts_engine == TtsEngine::Edge && s.fetching_voices)
            ==> requests::generation_decision(s, reference_present) is Ignored
            && requests::preview_decision(s, reference_present) is Ignored,
        requests::speaker(s.selection, reference_present) is None
            ==> !(requests::generation_decision(s, reference_present) is Accepted)
            && !(requests::preview_decision(s, reference_present) is Accepted),
{
}

/// The recording that was chosen is recognised, in the language that was chosen, when it is there and
/// nothing else is going on.
pub proof fn the_chosen_recording_is_recognised(s: State, input_present: bool)
    ensures
        ({
            let decision = requests::transcription_decision(s, input_present);
            let busy = s.transcription.running || s.generating || s.previewing;
            &&& decision is Ignored <==> busy
            &&& decision is Accepted <==> !busy && s.transcription.input_path is Some
                && input_present
            &&& decision matches Decision::Accepted(accepted) ==> s.transcription.input_path
                == Some(accepted.0) && accepted.1 == s.transcription.language
        }),
{
}

/// A request that reaches the worker begins its operation; one that does not begins none.
pub proof fn a_request_that_is_sent_begins(s: State, file_name: &str)
    ensures
        requests::after_generation_requested(s, file_name, true).generating,
        requests::after_preview_requested(s, true).previewing,
        requests::after_transcription_requested(s, true).transcription.running,
        requests::after_save_requested(s, true).transcription.saving,
        requests::after_voices_requested(s, true).fetching_voices,
        requests::after_generation_requested(s, file_name, false).generating == s.generating,
        requests::after_preview_requested(s, false).previewing == s.previewing,
        requests::after_transcription_requested(s, false).transcription == s.transcription,
        requests::after_save_requested(s, false).transcription == s.transcription,
        requests::after_generation_requested(s, file_name, true).input == s.input,
        requests::after_save_requested(s, true).transcription.cues == s.transcription.cues,
        requests::after_transcription_requested(s, true).transcription.cues.len() == 0,
        requests::after_transcription_requested(s, true).transcription.input_path
            == s.transcription.input_path,
{
}

/// The cues that are spoken are counted from none on.
pub proof fn progress_begins_with_nothing(s: State, file_name: &str, cues: Seq<Cue>)
    requires
        cues.len() <= usize::MAX,
        s.input.subtitle_track is Some,
        imported_cues(s) == cues,
    ensures
        s.input.input_mode == InputMode::Subtitles ==> requests::after_generation_requested(
            s,
            file_name,
            true,
        ).subtitle_progress == Some((0usize, cues.len() as usize)),
        s.input.input_mode == InputMode::Text ==> requests::after_generation_requested(
            s,
            file_name,
            true,
        ).subtitle_progress is None,
{
}

/// A new recording is taken with nothing recognised of it, and what was recognised of another one is
/// gone; the language and the format stay.
pub proof fn a_new_recording_begins_anew(s: State, path: String)
    ensures
        ({
            let after = requests::after_media_chosen(s, path).transcription;
            &&& after.input_path == Some(path@)
            &&& after.cues.len() == 0
            &&& !after.dirty
            &&& after.output_path is None
            &&& after.language == s.transcription.language
            &&& after.format == s.transcription.format
        }),
        s.audio.last_path is Some ==> requests::after_use_last_audio(s, true).transcription.input_path
            == s.audio.last_path,
        requests::after_use_last_audio(s, false).transcription == s.transcription,
        s.audio.last_path is None ==> requests::after_use_last_audio(s, true).transcription
            == s.transcription,
{
}

/// A track of at most 10,000 cues and 24 hours takes the place of the one before it; any other leaves
/// the input as it is.
pub proof fn a_track_is_taken_within_its_limits(
    s: State,
    path: Seq<char>,
    format: SubtitleFormat,
    cues: Seq<Cue>,
    error: Seq<char>,
)
    ensures
        ({
            let after = requests::after_subtitle_read(s, path, Ok((format, cues)));
            let allowed = cues.len() <= 10_000 && subtitles::latest_end(cues) <= 24 * 60 * 60
                * 1_000;
            &&& allowed ==> after.input.subtitle_track == Some((format, cues))
                && after.input.subtitle_path == Some(path) && after.input.input_mode
                == InputMode::Subtitles && after.input.text == s.input.text
            &&& !allowed ==> after.input == s.input
            &&& (after.status is Some && after.status->0.kind == StatusKind::Error) <==> !allowed
            &&& requests::after_subtitle_read(s, path, Err(error)).input == s.input
        }),
{
}

/// A subtitle file is named like its recording, with the extension of its format.
pub proof fn subtitles_are_named_like_their_recording(stem: Seq<char>, extension: Seq<char>)
    requires
        stem.len() > 0,
        extension.len() > 0,
        text::lacks(extension, '.'),
    ensures
        requests::subtitle_file_name(
            Some(stem + seq!['.'] + extension),
            SubtitleExportFormat::Srt,
        ) == stem + ".srt"@,
        requests::subtitle_file_name(
            Some(stem + seq!['.'] + extension),
            SubtitleExportFormat::WebVtt,
        ) == stem + ".vtt"@,
        requests::subtitle_file_name(None, SubtitleExportFormat::Srt) == "transcript.srt"@,
{
    reveal_strlit(".");
    reveal_strlit("..");
    reveal_strlit("srt");
    reveal_strlit("vtt");
    reveal_strlit(".srt");
    reveal_strlit(".vtt");
    reveal_strlit("transcript");
    reveal_strlit("transcript.srt");
    display_laws::a_name_is_taken_apart(stem, extension);
    let name = stem + seq!['.'] + extension;
    assert(name.len() >= 3);
    assert(stem + "."@ + "srt"@ =~= stem + ".srt"@);
    assert(stem + "."@ + "vtt"@ =~= stem + ".vtt"@);
    assert("transcript"@ + "."@ + "srt"@ =~= "transcript.srt"@);
}

/// The kind of model that is needed follows from whether a voice is cloned.
pub proof fn a_cloned_voice_needs_its_own_model()
    ensures
        requests::needed_kind(QwenVoiceMode::Preset) == QwenModelKind::CustomVoice,
        requests::needed_kind(QwenVoiceMode::Clone) == QwenModelKind::VoiceClone,
{
}

/// When audio has been generated, its operation is over, its path is known, and it is loaded to be
/// heard.
pub proof fn generated_audio_is_loaded(s: State, output_path: String, kilobytes: String)
    ensures
        ({
            let event = WorkerEvent::GenerationFinished { output_path, kilobytes };
            let after = worker_events::after_event(s, event);
            &&& !after.generating
            &&& after.subtitle_progress is None
            &&& after.audio.last_path == Some(output_path@)
            &&& after.audio.loading && !after.audio.player
            &&& after.status is Some && after.status->0.kind == StatusKind::Success
            &&& forall|path: String|
                path@ == output_path@ ==> #[trigger] worker_events::is_follow_up(
                    s,
                    event,
                    Some(FollowUp::LoadGeneratedAudio(path)),
                )
        }),
{
    reveal(worker_events::after_event);
}

/// The same holds of the audio of a track, and the user is warned exactly when cues have run beyond
/// their slots.
pub proof fn a_generated_track_is_loaded(
    s: State,
    output_path: String,
    kilobytes: String,
    overflow_count: usize,
)
    ensures
        ({
            let after = worker_events::after_event(
                s,
                WorkerEvent::SubtitleGenerationFinished { output_path, kilobytes, overflow_count },
            );
            &&& !after.generating
            &&& after.subtitle_progress is None
            &&& after.audio.last_path == Some(output_path@)
            &&& after.audio.loading && !after.audio.player
            &&& after.status is Some && after.status->0.kind == (if overflow_count > 0 {
                StatusKind::Warning
            } else {
                StatusKind::Success
            })
        }),
{
    reveal(worker_events::after_event);
}

/// Audio that was loaded is played only when it is the one that was generated last; news of an
/// earlier one change nothing.
pub proof fn only_the_last_audio_is_played(s: State, input_path: String, error: String)
    ensures
        ({
            let loaded = WorkerEvent::GeneratedAudioLoaded { input_path };
            let failed = WorkerEvent::GeneratedAudioLoadFailed { input_path, error };
            let last = s.audio.last_path == Some(input_path@);
            &&& !last ==> worker_events::after_event(s, loaded) == s && worker_events::after_event(
                s,
                failed,
            ) == s
            &&& last ==> !worker_events::after_event(s, loaded).audio.loading
                && !worker_events::after_event(s, failed).audio.loading
                && !worker_events::after_event(s, failed).audio.player
            &&& worker_events::is_follow_up(s, loaded, Some(FollowUp::CreatePlayer)) <==> last
            &&& worker_events::is_follow_up(s, loaded, None) <==> !last
        }),
{
    reveal(worker_events::after_event);
}

/// The cues that were recognised are shown, all of them, and are not saved yet.
pub proof fn recognised_cues_are_shown(s: State, cues: Vec<SubtitleCue>, audio_duration_ms: u64)
    ensures
        ({
            let after = worker_events::after_event(
                s,
                WorkerEvent::TranscriptionFinished { cues, audio_duration_ms },
            ).transcription;
            &&& after.cues.len() == cues@.len()
            &&& forall|i: int| 0 <= i < cues@.len() ==> #[trigger] after.cues[i] == cues@[i]@
            &&& !after.running && !after.loading_model
            &&& after.dirty && after.output_path is None
            &&& after.remaining_seconds == 0
            &&& after.progress == Fraction::Ratio { done: 1, total: 1 }
        }),
{
    reveal(worker_events::after_event);
}

/// Saved subtitles are no longer marked as changed; those that could not be saved still are. The cues
/// stay either way.
pub proof fn saving_clears_the_mark(s: State, output_path: String, error: String)
    ensures
        ({
            let saved = worker_events::after_event(
                s,
                WorkerEvent::TranscriptionSaved(output_path),
            ).transcription;
            let failed = worker_events::after_event(
                s,
                WorkerEvent::TranscriptionSaveFailed(error),
            ).transcription;
            &&& !saved.saving && !saved.dirty && saved.output_path == Some(output_path@)
            &&& saved.cues == s.transcription.cues
            &&& !failed.saving && failed.dirty == s.transcription.dirty
            &&& failed.cues == s.transcription.cues && failed.output_path
                == s.transcription.output_path
        }),
{
    lemma_saved(s, output_path);
    lemma_save_failed(s, error);
}

proof fn lemma_saved(s: State, output_path: String)
    ensures
        worker_events::after_event(s, WorkerEvent::TranscriptionSaved(output_path))
            == worker_events::after_transcription_saved(s, output_path),
{
    reveal(worker_events::after_event);
}

proof fn lemma_save_failed(s: State, error: String)
    ensures
        worker_events::after_event(s, WorkerEvent::TranscriptionSaveFailed(error))
            == worker_events::after_transcription_save_failed(s, error),
{
    reveal(worker_events::after_event);
}

/// Progress is shown as it was reported.
pub proof fn reported_progress_is_shown(
    s: State,
    current: usize,
    total: usize,
    progress: u32,
    percent: String,
    remaining_seconds: u64,
)
    ensures
        worker_events::after_event(
            s,
            WorkerEvent::SubtitleProgress { current, total },
        ).subtitle_progress == Some((current, total)),
        worker_events::after_event(
            s,
            WorkerEvent::QwenProgress { current, total },
        ).subtitle_progress == Some((current, total)),
        ({
            let after = worker_events::after_event(
                s,
                WorkerEvent::TranscriptionProgress { progress, percent, remaining_seconds },
            ).transcription;
            &&& after.progress == Fraction::Measured(progress)
            &&& after.remaining_seconds == remaining_seconds
            &&& !after.loading_model
            &&& after.running == s.transcription.running
        }),
        ({
            let after = worker_events::after_event(
                s,
                WorkerEvent::AsrModelLoading { progress, percent },
            ).transcription;
            after.progress == Fraction::Measured(progress) && after.loading_model
        }),
{
    reveal(worker_events::after_event);
}

/// How much of a file has come is shown when its size is known; else only that it is coming.
pub proof fn a_download_is_shown(
    s: State,
    source: String,
    phase: String,
    done: u64,
    total: u64,
    transfer: String,
)
    ensures
        ({
            let fetched = worker_events::after_event(
                s,
                WorkerEvent::AsrModelProgress {
                    source,
                    downloaded_bytes: done,
                    total_bytes: total,
                    transfer,
                },
            ).transcription;
            &&& fetched.loading_model
            &&& total > 0 ==> fetched.progress == Fraction::Ratio { done, total }
            &&& total == 0 ==> fetched.progress == Fraction::Ratio { done: 0, total: 1 }
        }),
        ({
            let prepared = worker_events::after_event(
                s,
                WorkerEvent::IndexTtsPreparing {
                    phase,
                    downloaded_bytes: done,
                    total_bytes: total,
                    transfer,
                },
            ).indextts;
            &&& prepared.preparing && !prepared.ready
            &&& prepared.progress_label == phase@
            &&& total > 0 ==> prepared.progress == Some((done, total))
            &&& total == 0 ==> prepared.progress is None
        }),
{
    reveal(worker_events::after_event);
}

/// A Qwen3 model that is ready is known by its version and kind and where it runs; one that was
/// released or could not be made ready is not known any more.
pub proof fn a_model_is_ready_until_it_is_released(
    s: State,
    version: QwenModelVersion,
    kind: QwenModelKind,
    device: String,
    error: String,
)
    ensures
        ({
            let ready = worker_events::after_event(
                s,
                WorkerEvent::QwenModelReady { version, kind, device },
            ).qwen;
            let released = worker_events::after_event(s, WorkerEvent::QwenModelReleased).qwen;
            let failed = worker_events::after_event(s, WorkerEvent::QwenModelFailed(error)).qwen;
            let preparing = worker_events::after_event(
                s,
                WorkerEvent::QwenModelPreparing { version, kind },
            ).qwen;
            &&& ready.ready == Some((version, kind)) && ready.device == Some(device@)
            &&& !ready.preparing && ready.progress is None
            &&& released.ready is None && released.device is None && !released.preparing
            &&& failed.ready is None && failed.device is None && !failed.preparing
            &&& preparing.ready is None && preparing.preparing
        }),
{
    reveal(worker_events::after_event);
}

/// The IndexTTS engine is ready when it tells so, and not while it is being prepared.
pub proof fn the_engine_is_ready_when_it_tells_so(s: State, model_dir: String, error: String)
    ensures
        ({
            let ready = worker_events::after_event(s, WorkerEvent::IndexTtsReady).indextts;
            let imported = worker_events::after_event(
                s,
                WorkerEvent::IndexTtsImported { model_dir },
            ).indextts;
            let failed = worker_events::after_event(s, WorkerEvent::IndexTtsImportFailed(error)).indextts;
            &&& ready.ready && !ready.preparing && ready.progress is None
            &&& !imported.preparing && imported.ready == s.indextts.ready
                && !imported.manual_help_open
            &&& !failed.preparing && failed.ready == s.indextts.ready && failed.manual_help_open
        }),
{
    reveal(worker_events::after_event);
}

/// Loaded voices are all listed. The voice that was selected stays selected where it is listed
/// again; else Xiaoxiao is, and where there is none the first one.
pub proof fn loaded_voices_are_listed(
    s: State,
    loaded: Vec<VoiceChoice>,
    from_cache: bool,
    warning: Option<String>,
    name: Seq<char>,
    i: int,
)
    requires
        loaded@.len() > 0,
        0 <= i < loaded@.len(),
        loaded@[i]@.short_name == name,
        forall|k: int| 0 <= k < i ==> (#[trigger] loaded@[k])@.short_name != name,
    ensures
        ({
            let after = worker_events::after_event(
                s,
                WorkerEvent::VoicesLoaded { voices: loaded, from_cache, warning },
            );
            let selected = s.selection.selected_voice;
            &&& !after.fetching_voices
            &&& after.selection.voices == voices::voices_of(loaded@)
            &&& selected is Some && selected->0 < s.selection.voices.len()
                && s.selection.voices[selected->0 as int].short_name == name
                ==> after.selection.selected_voice == Some(i as usize)
            &&& selected is None && name == "zh-CN-XiaoxiaoNeural"@
                ==> after.selection.selected_voice == Some(i as usize)
            &&& after.selection.selected_voice is Some
        }),
{
    reveal(worker_events::after_event);
    let all = voices::voices_of(loaded@);
    assert(all[i].short_name == name);
    assert forall|k: int| 0 <= k < i implies (#[trigger] all[k]).short_name != name by {
        assert(all[k] == loaded@[k]@);
    }
    display_laws::a_voice_is_the_first_of_its_name(all, name, i);
}

/// An engine is chosen unless something is going on, and what else was chosen stays.
pub proof fn an_engine_is_chosen(s: State, engine: TtsEngine, version: QwenModelVersion)
    ensures
        ({
            let after = window::after_engine_chosen(s, engine, version);
            let busy = s.previewing || s.generating || s.transcription.running || s.qwen.preparing
                || s.indextts.preparing;
            &&& busy ==> after == s
            &&& !busy ==> after.selection.tts_engine == engine && after.selection.qwen_version
                == version && after.selection.selected_voice == s.selection.selected_voice
                && after.selection.voices == s.selection.voices && after.selection.qwen_voice
                == s.selection.qwen_voice && after.selection.clone_reference_path
                == s.selection.clone_reference_path && after.input == s.input
            &&& !busy && engine == TtsEngine::Edge && text::is_visible(s.selection.voice_filter)
                ==> after.selection.voice_filter == s.selection.voice_filter
            &&& !busy && engine != TtsEngine::Edge && s.selection.tts_engine == TtsEngine::Edge
                ==> after.selection.voice_filter.len() == 0
        }),
{
    text::lemma_trimmed_visible(s.selection.voice_filter);
}

/// Opening a workspace offers the audio that was generated last, where no recording was chosen.
pub proof fn a_workspace_is_opened(s: State, mode: WorkspaceMode, last_present: bool)
    ensures
        ({
            let after = window::after_workspace_opened(s, mode, last_present);
            &&& after.workspace_mode == mode
            &&& s.transcription.input_path is Some ==> after.transcription == s.transcription
            &&& s.transcription.input_path is None && mode == WorkspaceMode::AudioToSubtitles
                && last_present ==> after.transcription.input_path == s.audio.last_path
            &&& !last_present || mode == WorkspaceMode::TextToSpeech ==> after.transcription
                == s.transcription
            &&& after.transcription.cues == s.transcription.cues
        }),
{
}

/// Editing a cue changes its text and no other, and marks the subtitles as changed.
pub proof fn an_edit_changes_one_text(s: State, index: int, changed: Seq<char>, i: int)
    requires
        0 <= index < s.transcription.cues.len(),
        0 <= i < s.transcription.cues.len(),
    ensures
        ({
            let after = window::after_cue_edited(s, index, changed).transcription;
            &&& after.cues.len() == s.transcription.cues.len()
            &&& after.cues[index].text == changed
            &&& i != index ==> after.cues[i] == s.transcription.cues[i]
            &&& after.dirty
        }),
{
}

} // verus!
