use edge_tts_studio::asr::RecognitionLanguage;
use edge_tts_studio::indextts::IndexTtsProgress;
use edge_tts_studio::qwen_local::{QwenModelKind, QwenModelVersion, QwenVoice};
use edge_tts_studio::requests::{VoiceSelection, WorkerCommand};
use edge_tts_studio::subtitles::SubtitleCue;
use edge_tts_studio::voices::VoiceChoice;
use edge_tts_studio::worker::{
    check_clip_count, check_local_cues, check_speech, gap_follows, speech_parts,
    told_reference_text, unit_error_text, ClonePromptKey, ModelNeed, Resident, SpokenUnit, Task,
    GAP_SAMPLES,
};
use edge_tts_studio::worker_events::WorkerEvent;
use edge_tts_studio::worker_reports::{
    audio_event, download_report_due, encode_preview_step, import_event, loading_report_due,
    preparation_event, save_speech_step, save_track_step, synthesis_event, voices_fetched,
    voices_not_fetched, Decoding, FailedStep,
};

fn voice(short_name: &str) -> VoiceChoice {
    VoiceChoice {
        short_name: short_name.to_owned(),
        locale: "en-US".to_owned(),
        gender: "Male".to_owned(),
        friendly_name: None,
    }
}

fn key(file_len: u64) -> ClonePromptKey {
    ClonePromptKey {
        version: QwenModelVersion::Small0_6B,
        reference_path: "/tmp/me.wav".to_string(),
        reference_text: "你好".to_string(),
        file_len,
        modified_nanos: 5,
    }
}

#[test]
fn speech_and_recognition_models_are_not_held_at_once() {
    let mut resident = Resident::new();
    let kind = QwenModelKind::CustomVoice;
    assert!(!resident.begin(Task::Qwen3Preset));
    assert_eq!(
        resident.need_qwen(QwenModelVersion::Small0_6B, kind),
        ModelNeed { released: false, load: true }
    );
    resident.qwen_loaded(QwenModelVersion::Small0_6B, kind);
    assert_eq!(
        resident.need_qwen(QwenModelVersion::Small0_6B, kind),
        ModelNeed { released: false, load: false }
    );
    assert_eq!(
        resident.need_qwen(QwenModelVersion::Large1_7B, kind),
        ModelNeed { released: true, load: true }
    );
    resident.qwen_loaded(QwenModelVersion::Large1_7B, kind);
    assert!(!resident.begin(Task::Online));
    assert!(resident.qwen.is_some());
    assert!(resident.begin(Task::Transcribe));
    assert!(resident.qwen.is_none());
    assert!(resident.needs_whisper(RecognitionLanguage::English));
    resident.whisper_loaded(RecognitionLanguage::English);
    assert!(!resident.needs_whisper(RecognitionLanguage::English));
    assert!(resident.needs_whisper(RecognitionLanguage::Chinese));
    assert!(!resident.begin(Task::IndexTts25));
    assert!(resident.whisper.is_none());
    assert!(resident.begin(Task::RedownloadQwen3));
}

#[test]
fn cloned_voices_are_reused_while_nothing_changes() {
    let mut resident = Resident::new();
    assert!(resident.needs_prompt(&key(10)));
    resident.prompt_made(key(10));
    assert!(!resident.needs_prompt(&key(10)));
    assert!(resident.needs_prompt(&key(11)));
    assert!(!resident.begin(Task::Qwen3Clone));
    assert!(!resident.needs_prompt(&key(10)));
    assert!(!resident.begin(Task::Qwen3Preset));
    assert!(resident.needs_prompt(&key(10)));
    assert_eq!(told_reference_text(" 你好 ").as_deref(), Some("你好"));
    assert_eq!(told_reference_text("  "), None);
}

fn preview(voice: VoiceSelection) -> WorkerCommand {
    WorkerCommand::Preview { text: "x".to_string(), voice, rate_percent: 0, volume_percent: 0 }
}

#[test]
fn commands_lead_to_their_work() {
    assert_eq!(preview(VoiceSelection::Edge("x".to_string())).task(), Task::Online);
    let preset = VoiceSelection::Qwen3Preset {
        version: QwenModelVersion::Small0_6B,
        voice: QwenVoice::Ryan,
    };
    assert_eq!(preview(preset).task(), Task::Qwen3Preset);
    let clone = VoiceSelection::Qwen3Clone {
        version: QwenModelVersion::Small0_6B,
        reference_path: "x".to_string(),
        reference_text: String::new(),
    };
    assert_eq!(preview(clone).task(), Task::Qwen3Clone);
    let index = VoiceSelection::IndexTts25 { reference_path: "x".to_string() };
    assert_eq!(preview(index).task(), Task::IndexTts25);
    assert_eq!(WorkerCommand::PrepareIndexTts.task(), Task::IndexTts25);
    assert_eq!(WorkerCommand::FetchVoices.task(), Task::Online);
}

#[test]
fn texts_are_spoken_in_parts() {
    assert_eq!(speech_parts("你好。", false), Ok(vec!["你好。".to_string()]));
    assert_eq!(
        speech_parts("  ", false),
        Err("没有可供 Qwen3-TTS 合成的文字。".to_string())
    );
    assert_eq!(
        speech_parts("  ", true),
        Err("没有可供 Qwen3-TTS 克隆音色合成的文字。".to_string())
    );
    assert!(gap_follows(1, 2));
    assert!(!gap_follows(2, 2));
    assert_eq!(GAP_SAMPLES, 24_000 * 90 / 1_000);
    assert_eq!(unit_error_text(SpokenUnit::Part, 1, 3, "x"), "第 1/3 段：x");
    assert_eq!(unit_error_text(SpokenUnit::Cue, 2, 3, "x"), "字幕 2/3：x");
    assert_eq!(check_speech(10, 24_000, false), Ok(false));
    assert_eq!(check_speech(10, 48_000, true), Ok(true));
    assert!(check_speech(0, 24_000, true).is_err());
    assert!(check_local_cues(&[]).is_err());
    let cues = [SubtitleCue { start_ms: 0, end_ms: 1, text: "x".to_string() }];
    assert_eq!(check_local_cues(&cues), Ok(1));
    assert_eq!(check_clip_count(2, 2), Ok(()));
    assert!(check_clip_count(1, 2).is_err());
}

#[test]
fn fetched_voices_are_sorted() {
    let fetched = vec![voice("b"), voice("a")];
    match voices_fetched(&fetched, Err("disk full".to_string())) {
        WorkerEvent::VoicesLoaded { voices, from_cache, warning } => {
            assert_eq!(voices[0].short_name, "a");
            assert!(!from_cache);
            assert_eq!(
                warning.as_deref(),
                Some("Voices loaded, but the local cache could not be saved: disk full")
            );
        }
        _ => unreachable!(),
    }
    assert!(matches!(
        voices_fetched(&fetched, Ok(())),
        WorkerEvent::VoicesLoaded { warning: None, .. }
    ));
}

#[test]
fn kept_voices_are_shown_when_the_service_cannot_be_reached() {
    match voices_not_fetched("timeout", Some(vec![voice("a")])) {
        WorkerEvent::VoicesLoaded { voices, from_cache, warning } => {
            assert_eq!(voices.len(), 1);
            assert!(from_cache);
            assert_eq!(
                warning.as_deref(),
                Some("Could not refresh voices (timeout). Using the last cached list.")
            );
        }
        _ => unreachable!(),
    }
    assert!(matches!(
        voices_not_fetched("timeout", Some(Vec::new())),
        WorkerEvent::VoicesFailed(error)
            if error == "Could not load Edge TTS voices: timeout. Check your internet connection and try again."
    ));
    assert!(matches!(voices_not_fetched("timeout", None), WorkerEvent::VoicesFailed(_)));
}

#[test]
fn progress_of_the_engine_is_forwarded() {
    let phase = || IndexTtsProgress::Phase("p".to_string());
    let inference = || IndexTtsProgress::Inference { current: 1, total: 2 };
    let download = || IndexTtsProgress::ModelDownload {
        phase: "p".to_string(),
        downloaded_bytes: 1,
        total_bytes: 2,
    };
    assert!(matches!(
        preparation_event(phase(), String::new()),
        Some(WorkerEvent::IndexTtsPreparing { downloaded_bytes: 0, total_bytes: 0, .. })
    ));
    assert!(preparation_event(inference(), String::new()).is_none());
    assert!(matches!(
        preparation_event(download(), "1/2".to_string()),
        Some(WorkerEvent::IndexTtsPreparing { downloaded_bytes: 1, total_bytes: 2, .. })
    ));
    assert!(matches!(
        synthesis_event(inference(), true, String::new()),
        WorkerEvent::SubtitleProgress { current: 1, total: 2 }
    ));
    assert!(matches!(
        synthesis_event(inference(), false, String::new()),
        WorkerEvent::QwenProgress { current: 1, total: 2 }
    ));
    assert!(matches!(
        synthesis_event(phase(), false, String::new()),
        WorkerEvent::IndexTtsInferencePhase(_)
    ));
    assert!(import_event(phase(), String::new()).is_none());
    assert!(matches!(
        import_event(download(), String::new()),
        Some(WorkerEvent::IndexTtsImportProgress { copied_bytes: 1, total_bytes: 2, .. })
    ));
}

#[test]
fn decoded_audio_is_reported() {
    assert!(matches!(
        audio_event("p".to_string(), Decoding::Samples(1)),
        WorkerEvent::GeneratedAudioLoaded { .. }
    ));
    for (decoding, expected) in [
        (Decoding::Samples(0), "文件中没有可播放的音频采样。"),
        (Decoding::Failed("x".to_string()), "x"),
        (Decoding::Broken("x".to_string()), "音频解码任务异常：x"),
    ] {
        match audio_event("p".to_string(), decoding) {
            WorkerEvent::GeneratedAudioLoadFailed { error, .. } => assert_eq!(error, expected),
            _ => unreachable!(),
        }
    }
}

#[test]
fn reports_are_not_too_frequent() {
    assert!(download_report_due(true, 0, 10, 0));
    assert!(download_report_due(false, 10, 10, 0));
    assert!(download_report_due(false, 0, 10, 150));
    assert!(!download_report_due(false, 0, 10, 149));
    assert!(loading_report_due(true, 0));
    assert!(!loading_report_due(false, 149));
}

#[test]
fn failed_steps_are_told() {
    assert_eq!(FailedStep::Synthesize.message("x"), "Could not generate speech: x");
    assert_eq!(FailedStep::SaveTrack.message("x"), "The subtitle audio was generated, but the MP3 file could not be saved: x");
}

#[test]
fn the_failed_step_is_that_of_the_voice() {
    let edge = VoiceSelection::Edge("v".to_string());
    let preset = VoiceSelection::Qwen3Preset {
        version: QwenModelVersion::Small0_6B,
        voice: QwenVoice::Vivian,
    };
    let clone = VoiceSelection::Qwen3Clone {
        version: QwenModelVersion::Small0_6B,
        reference_path: "r".to_string(),
        reference_text: String::new(),
    };
    let index = VoiceSelection::IndexTts25 { reference_path: "r".to_string() };
    assert_eq!(save_speech_step(&edge), FailedStep::SaveSpeech);
    assert_eq!(save_speech_step(&preset), FailedStep::SavePresetSpeech);
    assert_eq!(save_speech_step(&clone), FailedStep::SaveCloneSpeech);
    assert_eq!(save_speech_step(&index), FailedStep::SaveIndexTtsSpeech);
    assert_eq!(save_track_step(&edge), FailedStep::SaveTrack);
    assert_eq!(save_track_step(&preset), FailedStep::SavePresetTrack);
    assert_eq!(save_track_step(&clone), FailedStep::SaveCloneTrack);
    assert_eq!(save_track_step(&index), FailedStep::SaveIndexTtsTrack);
    assert_eq!(encode_preview_step(&preset), FailedStep::EncodePresetPreview);
    assert_eq!(encode_preview_step(&clone), FailedStep::EncodeClonePreview);
}
