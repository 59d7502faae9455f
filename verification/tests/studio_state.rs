use edge_tts_studio::asr::{RecognitionLanguage, SubtitleExportFormat};
use edge_tts_studio::download_control::DOWNLOAD_CANCELLED_ERROR;
use edge_tts_studio::labels::cue_times;
use edge_tts_studio::qwen_local::{QwenModelKind, QwenModelVersion};
use edge_tts_studio::requests::{
    GenerationContent, ModelDownloadAction, VoiceSelection, WorkerCommand,
};
use edge_tts_studio::studio::{
    Fraction, InputMode, QwenVoiceMode, Startup, Studio, TtsEngine, WorkspaceMode,
};
use edge_tts_studio::subtitles::{SubtitleCue, SubtitleFormat, SubtitleTrack};
use edge_tts_studio::ui_text::{StatusKind, UiLanguage};
use edge_tts_studio::voices::VoiceChoice;
use edge_tts_studio::window::VoiceCardLayout;
use edge_tts_studio::worker_events::{FollowUp, WorkerEvent};

fn voice(short_name: &str) -> VoiceChoice {
    VoiceChoice {
        short_name: short_name.to_owned(),
        locale: "zh-CN".to_owned(),
        gender: "Female".to_owned(),
        friendly_name: None,
    }
}

fn cue(start_ms: u64, end_ms: u64, text: &str) -> SubtitleCue {
    SubtitleCue { start_ms, end_ms, text: text.to_string() }
}

fn loaded() -> Studio {
    let mut studio = Studio::new(Startup::Loading);
    studio.apply(WorkerEvent::VoicesLoaded {
        voices: vec![voice("zh-CN-YunxiNeural"), voice("zh-CN-XiaoxiaoNeural")],
        from_cache: false,
        warning: None,
    });
    studio
}

fn said(studio: &Studio) -> &str {
    studio.status.as_ref().unwrap().text(UiLanguage::English)
}

#[test]
fn voice_card_compacts_at_the_default_macos_workspace_height() {
    let compact = VoiceCardLayout::for_height(565);
    let roomy = VoiceCardLayout::for_height(640);

    assert!(compact.field_gap < roomy.field_gap);
    assert!(compact.metadata_height < roomy.metadata_height);
    assert!(compact.settings_margin < roomy.settings_margin);
    assert!(compact.preview_margin < roomy.preview_margin);
    assert!(compact.waveform_height < roomy.waveform_height);
    assert!(compact.preview_button_height < roomy.preview_button_height);
}

#[test]
fn the_studio_starts_with_the_voices_on_their_way() {
    let studio = Studio::new(Startup::Loading);
    assert!(studio.fetching_voices);
    assert!(studio.speech_controls_busy());
    let failed = Studio::new(Startup::Failed("no thread".to_string()));
    assert!(!failed.fetching_voices);
    assert_eq!(said(&failed), "no thread");
    assert!(Studio::new(Startup::Stopped).fetching_voices);
}

#[test]
fn the_preferred_voice_is_selected_and_a_chosen_one_is_kept() {
    let mut studio = loaded();
    assert_eq!(studio.selection.selected_voice, Some(1));
    studio.selection.selected_voice = Some(0);
    studio.apply(WorkerEvent::VoicesLoaded {
        voices: vec![voice("zh-CN-XiaoxiaoNeural"), voice("zh-CN-YunxiNeural")],
        from_cache: true,
        warning: Some("offline".to_string()),
    });
    assert_eq!(studio.selection.selected_voice, Some(1));
}

#[test]
fn text_is_spoken_by_the_selected_voice() {
    let mut studio = loaded();
    studio.input.text = "  Hello  ".to_string();
    let plan = studio.start_generation(false).unwrap();
    assert!(matches!(&plan.voice, VoiceSelection::Edge(name) if name == "zh-CN-XiaoxiaoNeural"));
    assert!(matches!(&plan.content, GenerationContent::Text(text) if text == "Hello"));
    assert_eq!(plan.default_file_name, "语音合成.mp3");
    assert!(matches!(
        plan.command(10, -5, "/tmp/a.mp3".to_string()),
        WorkerCommand::Generate { rate_percent: 10, volume_percent: -5, text, .. } if text == "Hello"
    ));
    studio.generation_requested("a.mp3", true);
    assert!(studio.generating);
    assert_eq!(said(&studio), "Generating a.mp3…");
    assert!(studio.start_generation(false).is_none());
    assert!(studio.start_preview(false).is_none());
    let follow_up = studio.apply(WorkerEvent::GenerationFinished {
        output_path: "/tmp/a.mp3".to_string(),
        kilobytes: "12.0".to_string(),
    });
    assert!(matches!(follow_up, Some(FollowUp::LoadGeneratedAudio(path)) if path == "/tmp/a.mp3"));
    assert!(!studio.generating);
    assert!(studio.audio.loading);
    let follow_up = studio.apply(WorkerEvent::GeneratedAudioLoaded { input_path: "/tmp/a.mp3".to_string() });
    assert!(matches!(follow_up, Some(FollowUp::CreatePlayer)));
    studio.player_created();
    assert!(studio.audio.player);
    assert!(studio.needs_repaint(true));
    assert!(!studio.needs_repaint(false));
}

#[test]
fn requests_that_cannot_be_met_are_explained() {
    let mut studio = loaded();
    studio.input.text = " \n".to_string();
    assert!(studio.start_generation(false).is_none());
    assert_eq!(said(&studio), "Enter some text before generating audio.");
    studio.input.input_mode = InputMode::Subtitles;
    assert!(studio.start_generation(false).is_none());
    assert_eq!(said(&studio), "Import an SRT/STR, WebVTT, ASS/SSA, or LRC subtitle first.");
    studio.selection.selected_voice = None;
    assert!(studio.start_generation(false).is_none());
    assert_eq!(said(&studio), "Choose a voice first.");
    studio.voices_requested(false);
    assert_eq!(said(&studio), "The TTS worker is no longer running.");
    assert!(studio.start_transcription(true).is_none());
    assert_eq!(said(&studio), "Choose an audio or video file before transcribing.");
    studio.media_chosen("/tmp/a.mp4".to_string());
    assert!(studio.start_transcription(false).is_none());
    assert_eq!(said(&studio), "The selected audio no longer exists. Choose it again.");
}

#[test]
fn cloning_waits_for_permission() {
    let mut studio = loaded();
    studio.choose_engine(TtsEngine::IndexTts25, QwenModelVersion::DEFAULT);
    assert!(studio.start_generation(true).is_none());
    assert_eq!(said(&studio), "Choose a WAV/MP3 reference recording first.");
    studio.selection.clone_authorized = true;
    studio.clone_reference_chosen("/tmp/me.wav".to_string());
    assert!(!studio.selection.clone_authorized);
    assert!(studio.start_preview(true).is_none());
    assert_eq!(said(&studio), "Confirm that you have the voice owner's permission first.");
    studio.selection.clone_authorized = true;
    assert!(studio.active_voice_selection(false).is_none());
    assert!(matches!(
        studio.active_voice_selection(true),
        Some(VoiceSelection::IndexTts25 { reference_path }) if reference_path == "/tmp/me.wav"
    ));
    assert!(studio.can_preview(true));
    assert!(!studio.can_preview(false));
    studio.choose_engine(TtsEngine::Qwen3Local, QwenModelVersion::Large1_7B);
    studio.choose_qwen_voice_mode(QwenVoiceMode::Clone);
    studio.selection.clone_reference_text = " 你好 ".to_string();
    assert!(matches!(
        studio.active_voice_selection(true),
        Some(VoiceSelection::Qwen3Clone { reference_text, .. }) if reference_text == "你好"
    ));
}

#[test]
fn the_search_follows_the_engine() {
    let mut studio = loaded();
    assert_eq!(studio.selection.voice_filter, "中文");
    studio.choose_engine(TtsEngine::Qwen3Local, QwenModelVersion::Small0_6B);
    assert_eq!(studio.selection.voice_filter, "");
    assert_eq!(studio.matching_voice_count(), 9);
    studio.ui_language = UiLanguage::English;
    studio.choose_engine(TtsEngine::Edge, QwenModelVersion::Small0_6B);
    assert_eq!(studio.selection.voice_filter, "English");
    assert_eq!(studio.matching_voice_count(), 0);
    studio.generating = true;
    studio.choose_engine(TtsEngine::IndexTts25, QwenModelVersion::Small0_6B);
    assert_eq!(studio.selection.tts_engine, TtsEngine::Edge);
}

#[test]
fn tracks_are_imported_within_limits() {
    let mut studio = loaded();
    studio.subtitle_read(
        "/tmp/a.srt".to_string(),
        Ok(SubtitleTrack { format: SubtitleFormat::Srt, cues: vec![cue(0, 1_000, "你好")] }),
    );
    assert_eq!(said(&studio), "Imported 1 SRT subtitle cues.");
    assert_eq!(studio.input.input_mode, InputMode::Subtitles);
    assert_eq!(studio.track_summary().as_deref(), Some("SRT · 1 条 · 总时长 00:01.000"));
    studio.subtitle_read(
        "/tmp/b.srt".to_string(),
        Ok(SubtitleTrack { format: SubtitleFormat::Srt, cues: vec![cue(0, 86_400_001, "late")] }),
    );
    assert_eq!(said(&studio), "The subtitle timeline exceeds 24 hours and was not imported.");
    let many = (0..10_001).map(|i| cue(i, i + 1, "x")).collect();
    studio.subtitle_read(
        "/tmp/c.srt".to_string(),
        Ok(SubtitleTrack { format: SubtitleFormat::Srt, cues: many }),
    );
    assert_eq!(said(&studio), "The subtitle has more than 10,000 cues and was not imported.");
    assert_eq!(studio.input.subtitle_path.as_deref(), Some("/tmp/a.srt"));
    studio.subtitle_read("/tmp/d.srt".to_string(), Err("broken".to_string()));
    assert_eq!(said(&studio), "Could not import subtitles: broken");
    let (_, preview) = studio.start_preview(false).unwrap();
    assert_eq!(preview, "你好");
    studio.remove_subtitle();
    assert!(studio.input.subtitle_track.is_none());
}

#[test]
fn recordings_are_recognised_edited_and_saved() {
    let mut studio = loaded();
    studio.media_chosen("/tmp/talk.mp4".to_string());
    let (path, language) = studio.start_transcription(true).unwrap();
    assert_eq!(path, "/tmp/talk.mp4");
    assert_eq!(language, RecognitionLanguage::MixedChineseEnglish);
    studio.transcription_requested(true);
    assert!(studio.transcription.running && studio.transcription.loading_model);
    studio.apply(WorkerEvent::AsrModelReady);
    studio.apply(WorkerEvent::TranscriptionFinished {
        cues: vec![cue(0, 900, "a"), cue(1_000, 2_000, "b")],
        audio_duration_ms: 2_000,
    });
    assert!(!studio.transcription.running);
    studio.edit_cue(0, "  ".to_string());
    assert!(studio.transcription.dirty);
    assert_eq!(studio.transcription.cues[0].end_ms, 900);
    studio.edit_cue(9, "none".to_string());
    let (cues, name) = studio.save_transcription(Some("talk.mp4")).unwrap();
    assert_eq!(cues.len(), 1);
    assert_eq!(cues[0].text, "b");
    assert_eq!(name, "talk.srt");
    studio.choose_export_format(SubtitleExportFormat::WebVtt);
    assert_eq!(studio.save_transcription(None).unwrap().1, "transcript.vtt");
    assert_eq!(studio.save_transcription(Some("..")).unwrap().1, "transcript.vtt");
    studio.save_requested(true);
    assert!(studio.save_transcription(None).is_none());
    studio.apply(WorkerEvent::TranscriptionSaved("/tmp/talk.srt".to_string()));
    assert!(!studio.transcription.saving && !studio.transcription.dirty);
    studio.edit_cue(1, " ".to_string());
    assert!(studio.save_transcription(None).is_none());
    assert_eq!(said(&studio), "All subtitle cues are empty. Keep at least one cue before saving.");
}

#[test]
fn the_generated_audio_can_be_recognised() {
    let mut studio = loaded();
    studio.use_last_generated_audio(true);
    assert_eq!(said(&studio), "There is no generated MP3 yet. Generate speech or choose a file first.");
    studio.audio.last_path = Some("/tmp/a.mp3".to_string());
    studio.use_last_generated_audio(false);
    assert!(studio.transcription.input_path.is_none());
    studio.open_workspace(WorkspaceMode::AudioToSubtitles, true);
    assert_eq!(studio.transcription.input_path.as_deref(), Some("/tmp/a.mp3"));
    assert!(studio.can_transcribe(true));
    assert!(!studio.can_transcribe(false));
}

#[test]
fn a_lost_worker_leaves_nothing_running() {
    let mut studio = loaded();
    studio.generating = true;
    studio.qwen.preparing = true;
    studio.transcription.saving = true;
    studio.apply(WorkerEvent::WorkerFailed("gone".to_string()));
    assert!(!studio.tts_controls_busy());
    assert_eq!(studio.status.as_ref().unwrap().kind, StatusKind::Error);
}

#[test]
fn failures_end_what_they_are_about() {
    let mut studio = loaded();
    studio.previewing = true;
    studio.apply(WorkerEvent::PreviewFailed("no".to_string()));
    assert!(!studio.previewing);
    studio.generating = true;
    studio.apply(WorkerEvent::GenerationFailed("no".to_string()));
    assert!(!studio.generating);
    studio.transcription.running = true;
    studio.apply(WorkerEvent::TranscriptionFailed("no".to_string()));
    assert!(!studio.transcription.running);
    assert_eq!(studio.input.text, Studio::new(Startup::Loading).input.text);
}

#[test]
fn a_failed_download_shows_the_guide() {
    for (error, shown) in [("timed out", true), (DOWNLOAD_CANCELLED_ERROR, false)] {
        for failure in [
            WorkerEvent::QwenModelFailed(error.to_string()),
            WorkerEvent::PreviewFailed(error.to_string()),
            WorkerEvent::GenerationFailed(error.to_string()),
        ] {
            let mut studio = loaded();
            studio.choose_engine(TtsEngine::Qwen3Local, QwenModelVersion::Small0_6B);
            studio.apply(WorkerEvent::QwenModelPreparing {
                version: QwenModelVersion::Small0_6B,
                kind: QwenModelKind::CustomVoice,
            });
            assert!(!studio.qwen.manual_help_open);
            studio.apply(failure);
            assert_eq!(studio.qwen.manual_help_open, shown);
        }
    }
}

#[test]
fn models_are_asked_for_and_reported() {
    let mut studio = loaded();
    assert!(studio.requested_qwen_model().is_none());
    studio.choose_engine(TtsEngine::Qwen3Local, QwenModelVersion::Small0_6B);
    let (version, kind) = studio.requested_qwen_model().unwrap();
    assert_eq!((version, kind), (QwenModelVersion::Small0_6B, QwenModelKind::CustomVoice));
    studio.qwen_preparation_requested(version, kind, true);
    assert!(studio.qwen.preparing);
    assert!(studio.requested_qwen_model().is_none());
    assert!(!studio.can_reload_voices());
    assert_eq!(studio.footer_height(), 168);
    studio.download_action_taken(ModelDownloadAction::Pause, false);
    assert_eq!(said(&studio), "Downloading or resuming Qwen3-TTS 0.6B CustomVoice…");
    studio.download_action_taken(ModelDownloadAction::Pause, true);
    assert!(said(&studio).starts_with("Model download paused."));
    assert_eq!(studio.voice_summary(), "Qwen3 0.6B · 9/9 音色 · 准备中");
    studio.apply(WorkerEvent::QwenModelReady { version, kind, device: "CPU".to_string() });
    assert!(studio.selected_model_ready());
    assert_eq!(studio.voice_summary(), "Qwen3 0.6B · 9/9 音色 · CPU");
    assert_eq!(studio.footer_height(), 98);
}

#[test]
fn progress_is_shown_for_what_is_going_on() {
    let mut studio = Studio::new(Startup::Loading);
    let bars = studio.progress_bars();
    assert_eq!(bars.len(), 1);
    assert_eq!(bars[0].done, None);
    studio.qwen.preparing = true;
    studio.qwen.progress = Some((1, 4));
    assert_eq!(studio.progress_bars().len(), 2);
    studio.generating = true;
    studio.subtitle_progress = Some((3, 8));
    let bars = studio.progress_bars();
    assert_eq!(bars.len(), 1);
    assert_eq!(bars[0].done, Some((2, 8)));
    assert_eq!(studio.synthesis_label(), "正在本地合成第 3/8 段");
    studio.subtitle_progress = None;
    assert_eq!(studio.progress_bars()[0].done, Some((1, 4)));
    assert_eq!(studio.synthesis_label(), "正在合成并保存…");
}

#[test]
fn labels_follow_the_state() {
    let mut studio = loaded();
    studio.ui_language = UiLanguage::English;
    assert_eq!(studio.generate_label(), "Generate MP3");
    assert_eq!(studio.engine_description(), "Online Edge voices with multilingual search");
    assert!(studio.selected_voice_label(None).contains("Xiaoxiao"));
    assert_eq!(studio.transcribe_label(), "Start transcription");
    assert_eq!(studio.save_label(), "Save as");
    assert!(studio.privacy_note().ends_with("Microsoft Edge Read Aloud."));
    studio.choose_engine(TtsEngine::IndexTts25, QwenModelVersion::Small0_6B);
    assert_eq!(studio.selected_voice_label(None), "No reference audio");
    assert_eq!(studio.selected_voice_label(Some("me.wav")), "me.wav");
    assert_eq!(studio.clone_summary(), "IndexTTS-2.5 · v2.5.0 · not prepared");
    assert_eq!(cue_times(&cue(1_000, 2_500, "")), "00:01.000 – 00:02.500");
    assert_eq!(studio.transcription.progress, Fraction::Ratio { done: 0, total: 1 });
}
