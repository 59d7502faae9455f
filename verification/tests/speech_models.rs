use edge_tts_studio::download_control::DOWNLOAD_CANCELLED_ERROR;
use edge_tts_studio::indextts::{
    batch_items, check_batch, check_downloaded_model, check_import_source, check_imported_copy,
    command_outcome, imported_bytes, language_for_text, locate_model_source, parse_inference_progress,
    parse_model_progress, require_tool, required_model_files, segment_error, segment_file_name,
    setup_steps, total_bytes, validate_model_dir, verify_official_revision, IndexTtsProgress,
    IndexTtsRuntime, IndexTtsSettings, OutputTail, SetupStep, OFFICIAL_COMMIT,
};
use edge_tts_studio::model_files::{
    after_attempt, begin_transfer, check_imported, download_url, has_usable_text_tokenizer,
    import_files, import_offline_model, import_step, judge_transfer,
    locate_model_source as locate_qwen_source, model_files, needs_fetching, range_header,
    shared_assets, should_reuse, validate_model_files, validate_ready_model_dir, AttemptFailure,
    ImportStep, ModelDirSizes, ModelSource,
};
use edge_tts_studio::qwen_local::{
    after_first_failure, is_metal_buffer_error, limited_frame_budget, matching_voices, second_failure,
    split_for_synthesis, synthesis_frame_budget, synthesis_language, validate_model_config,
    validate_model_config_value, ModelConfig, QwenModel, QwenModelKind, QwenModelVersion,
    QwenSynthesisLanguage, QwenVoice, SynthesisStep,
};

#[test]
fn selects_languages_supported_by_index_tts_2_5() {
    assert_eq!(language_for_text("你好 IndexTTS"), "ZH");
    assert_eq!(language_for_text("Hello IndexTTS"), "EN");
    assert_eq!(language_for_text("こんにちは"), "JA");
    assert_eq!(language_for_text("مرحبا"), "AR");
    assert_eq!(language_for_text("¿Qué tal?"), "ES");
}

#[test]
fn parses_download_progress_protocol() {
    let progress = parse_model_progress("AURA_MODEL_PROGRESS\tdownloading\t25\t100");
    assert!(matches!(
        progress,
        Some(IndexTtsProgress::ModelDownload {
            downloaded_bytes: 25,
            total_bytes: 100,
            ..
        })
    ));
}

#[test]
fn progress_lines_without_a_total_tell_a_phase() {
    assert!(matches!(
        parse_model_progress("AURA_MODEL_PROGRESS\tlinking\t3\t0"),
        Some(IndexTtsProgress::Phase(phase)) if phase == "linking"
    ));
    assert!(parse_model_progress("Collecting torch").is_none());
    assert!(matches!(
        parse_inference_progress("AURA_INFERENCE_PROGRESS\t2\t9"),
        Some(IndexTtsProgress::Inference { current: 2, total: 9 })
    ));
    assert!(parse_inference_progress("AURA_INFERENCE_PROGRESS\ttwo\t9").is_none());
    assert!(matches!(
        parse_inference_progress("AURA_INFERENCE\tloading"),
        Some(IndexTtsProgress::Phase(phase)) if phase == "loading"
    ));
}

#[test]
fn generation_settings_are_finite_and_bounded() {
    let settings = IndexTtsSettings {
        duration_factor: f64::NAN.to_bits(),
        max_text_tokens_per_segment: 0,
        interval_silence_ms: usize::MAX,
        emo_alpha: f64::INFINITY.to_bits(),
        temperature: (-1.0f64).to_bits(),
        top_k: usize::MAX,
        top_p: f64::NAN.to_bits(),
        repetition_penalty: f64::INFINITY.to_bits(),
        length_penalty: (-10.0f64).to_bits(),
        num_beams: 0,
        max_mel_tokens: usize::MAX,
        ..IndexTtsSettings::default()
    }
    .validated();
    assert_eq!(f64::from_bits(settings.duration_factor), 1.0);
    assert_eq!(settings.max_text_tokens_per_segment, 16);
    assert_eq!(settings.interval_silence_ms, 5_000);
    assert_eq!(f64::from_bits(settings.emo_alpha), 1.0);
    assert_eq!(f64::from_bits(settings.temperature), 0.0);
    assert_eq!(settings.top_k, 200);
    assert_eq!(f64::from_bits(settings.top_p), 0.8);
    assert_eq!(f64::from_bits(settings.repetition_penalty), 10.0);
    assert_eq!(f64::from_bits(settings.length_penalty), -2.0);
    assert_eq!(settings.num_beams, 1);
    assert_eq!(settings.max_mel_tokens, 4_000);
}

#[test]
fn valid_settings_are_kept() {
    let settings = IndexTtsSettings {
        duration_factor: 1.25f64.to_bits(),
        length_penalty: (-0.5f64).to_bits(),
        repetition_penalty: 19.5f64.to_bits(),
        ..IndexTtsSettings::default()
    };
    let valid = settings.validated();
    assert_eq!(valid.duration_factor, settings.duration_factor);
    assert_eq!(valid.length_penalty, settings.length_penalty);
    assert_eq!(valid.repetition_penalty, settings.repetition_penalty);
    assert_eq!(valid.emo_text, settings.emo_text);
}

#[test]
fn the_engine_is_ready_when_all_of_it_is_there() {
    let sizes: Vec<Option<u64>> = required_model_files().iter().map(|file| Some(file.1)).collect();
    assert_eq!(validate_model_dir(&sizes), Ok(()));
    assert_eq!(total_bytes(&sizes), required_model_files().iter().map(|file| file.1).sum::<u64>());
    let ready = IndexTtsRuntime { python_installed: true, marker_written: true, model_sizes: sizes };
    assert!(ready.is_ready());
    let mut sizes = ready.model_sizes;
    sizes[0] = None;
    let error = validate_model_dir(&sizes).unwrap_err();
    assert!(error.starts_with("IndexTTS-2.5 模型不完整，缺少或尺寸异常："));
    assert!(error.ends_with(required_model_files()[0].0));
}

#[test]
fn only_the_missing_steps_are_taken() {
    assert_eq!(
        setup_steps(false, false, false, false),
        vec![
            SetupStep::FetchSource,
            SetupStep::VerifyRevision,
            SetupStep::BuildEnvironment,
            SetupStep::DownloadModel
        ]
    );
    assert_eq!(setup_steps(true, true, true, true), vec![SetupStep::VerifyRevision]);
    assert!(check_downloaded_model(true).is_ok());
    assert!(check_downloaded_model(false).is_err());
    assert!(verify_official_revision(true, &format!("{OFFICIAL_COMMIT}\n")).is_ok());
    assert!(verify_official_revision(true, "0000").is_err());
    assert!(verify_official_revision(false, OFFICIAL_COMMIT).is_err());
    assert!(require_tool(true, "Git").is_ok());
    assert!(require_tool(false, "Git").is_err());
}

#[test]
fn offline_folders_are_searched() {
    assert_eq!(locate_model_source(&[true, true]), Ok(0));
    assert!(locate_model_source(&[false, false]).is_err());
    assert_eq!(imported_bytes(10, 5, 12), 12);
    assert_eq!(imported_bytes(10, 1, 12), 11);
    assert!(check_import_source(Some(5), 5, "a").is_ok());
    assert!(check_import_source(Some(4), 5, "a").is_err());
    assert!(check_imported_copy(None, 5).is_err());
}

#[test]
fn failed_commands_are_told_with_their_last_lines() {
    let mut tail = OutputTail::new();
    for i in 0..20 {
        tail.push(format!("line {i}"));
    }
    assert_eq!(tail.lines.len(), 12);
    assert!(tail.joined().starts_with("line 8\n"));
    assert!(tail.joined().ends_with("\nline 19"));
    assert_eq!(command_outcome(false, true, "0", &tail), Ok(()));
    assert_eq!(command_outcome(true, true, "0", &tail), Err(DOWNLOAD_CANCELLED_ERROR.to_string()));
    let error = command_outcome(false, false, "exit 1", &tail).unwrap_err();
    assert!(error.starts_with("IndexTTS 命令执行失败（exit 1）：line 8"));
}

#[test]
fn batches_name_their_segments() {
    let items = batch_items(&["你好".to_string(), "Hello".to_string()]);
    assert_eq!(items[0].language, "ZH");
    assert_eq!(items[1].language, "EN");
    assert_eq!(items[1].output, segment_file_name(1));
    assert_ne!(segment_file_name(0), segment_file_name(1));
    assert!(segment_error(0, "boom").contains("boom"));
    assert!(check_batch(1, true, true).is_ok());
    assert!(check_batch(0, true, true).is_err());
    assert!(check_batch(1, false, true).is_err());
    assert!(check_batch(1, true, false).is_err());
}

#[test]
fn mixed_chinese_and_english_track_uses_one_chinese_language_token() {
    assert_eq!(
        synthesis_language(
            &["欢迎使用 Qwen3 TTS studio", "Hello from the next cue"],
            QwenVoice::Ryan,
        ),
        QwenSynthesisLanguage::Chinese
    );
}

#[test]
fn latin_only_track_stays_english_even_with_a_japanese_voice() {
    assert_eq!(
        synthesis_language(&["Hello from Qwen"], QwenVoice::OnoAnna),
        QwenSynthesisLanguage::English
    );
}

#[test]
fn texts_without_letters_are_spoken_in_the_language_of_the_voice() {
    assert_eq!(synthesis_language(&["123"], QwenVoice::Sohee), QwenSynthesisLanguage::Korean);
    assert_eq!(synthesis_language(&["こんにちは"], QwenVoice::Ryan), QwenSynthesisLanguage::Japanese);
    assert_eq!(synthesis_language(&["안녕하세요"], QwenVoice::Ryan), QwenSynthesisLanguage::Korean);
}

#[test]
fn short_subtitles_use_a_bounded_metal_frame_budget() {
    let short = synthesis_frame_budget("大家好，我是一名独立 iOS 开发者");
    let long = synthesis_frame_budget(&"中文语音。".repeat(100));

    assert!((128..512).contains(&short));
    assert_eq!(long, 1_024);
    assert!(short < 2_048);
}

#[test]
fn long_text_is_split_without_losing_content() {
    let source = "第一句。".repeat(100);
    let chunks = split_for_synthesis(&source);
    assert!(chunks.len() > 1);
    assert_eq!(chunks.concat(), source);
    assert!(chunks.iter().all(|chunk| chunk.chars().count() <= 260));
}

#[test]
fn model_versions_have_independent_ids_and_cache_sizes() {
    assert_ne!(
        QwenModelVersion::Small0_6B.model_id(),
        QwenModelVersion::Large1_7B.model_id()
    );
    assert!(
        QwenModelVersion::Large1_7B.minimum_main_model_size()
            > QwenModelVersion::Small0_6B.minimum_main_model_size()
    );
    assert_eq!(QwenModelVersion::DEFAULT, QwenModelVersion::Small0_6B);
}

#[test]
fn offline_config_must_match_the_selected_custom_voice_version() {
    let small = ModelConfig {
        tts_model_type: Some("custom_voice".to_string()),
        hidden_size: Some(1024),
    };
    let large = ModelConfig {
        tts_model_type: Some("custom_voice".to_string()),
        hidden_size: Some(2048),
    };
    let base = ModelConfig { tts_model_type: Some("base".to_string()), hidden_size: Some(1024) };

    assert!(validate_model_config_value(&small, QwenModelVersion::Small0_6B).is_ok());
    assert!(validate_model_config_value(&large, QwenModelVersion::Large1_7B).is_ok());
    assert!(validate_model_config_value(&small, QwenModelVersion::Large1_7B).is_err());
    assert!(validate_model_config_value(&base, QwenModelVersion::Small0_6B).is_err());
}

#[test]
fn configuration_files_are_read() {
    let small = br#"{"tts_model_type":"custom_voice","talker_config":{"hidden_size":1024}}"#;
    let base = br#"{"tts_model_type":"base","talker_config":{"hidden_size":1024}}"#;
    let wordy = br#"{"tts_model_type":"custom_voice","talker_config":{"hidden_size":"1024"}}"#;
    assert!(validate_model_config(small, QwenModelVersion::Small0_6B, QwenModelKind::CustomVoice).is_ok());
    assert!(validate_model_config(small, QwenModelVersion::Large1_7B, QwenModelKind::CustomVoice).is_err());
    assert!(validate_model_config(base, QwenModelVersion::Small0_6B, QwenModelKind::CustomVoice).is_err());
    assert!(validate_model_config(base, QwenModelVersion::Small0_6B, QwenModelKind::VoiceClone).is_ok());
    assert_eq!(
        validate_model_config(small, QwenModelVersion::Small0_6B, QwenModelKind::VoiceClone),
        Err("所选目录不是 Qwen3-TTS Base 模型。".to_string())
    );
    assert!(validate_model_config(wordy, QwenModelVersion::Small0_6B, QwenModelKind::CustomVoice).is_err());
    assert!(validate_model_config(b"{", QwenModelVersion::Small0_6B, QwenModelKind::CustomVoice).is_err());
}

#[test]
fn exhausted_graphics_memory_is_tried_once_more() {
    assert!(is_metal_buffer_error("Failed to create metal resource: Buffer"));
    assert!(!is_metal_buffer_error("no such file"));
    match after_first_failure(600, "Failed to create metal resource: Buffer") {
        SynthesisStep::Retry { frames } => assert!(frames < 600),
        SynthesisStep::Fail(_) => unreachable!(),
    }
    assert!(matches!(after_first_failure(600, "boom"), SynthesisStep::Fail(error) if error.contains("boom")));
    assert!(second_failure("boom").contains("boom"));
}

#[test]
fn local_voices_are_found_in_any_case() {
    assert_eq!(matching_voices(" VIVIAN ").len(), 1);
    assert_eq!(matching_voices(""), QwenVoice::ALL);
    assert_eq!(matching_voices(" \u{3000}\t"), QwenVoice::ALL);
    assert_eq!(matching_voices("日语"), vec![QwenVoice::OnoAnna]);
    assert!(matching_voices("nobody").is_empty());
}

#[test]
fn model_directories_are_checked() {
    let complete = ModelDirSizes {
        weights: Some(1_500_000_000),
        decoder: Some(500_000_000),
        tokenizer: Some(1_000_000),
        vocabulary: None,
        merges: None,
        tokenizer_config: None,
    };
    let version = QwenModelVersion::Small0_6B;
    assert!(validate_model_files(&complete, version).is_ok());
    assert!(validate_model_files(&complete, QwenModelVersion::Large1_7B).is_err());
    assert!(validate_model_files(&ModelDirSizes { decoder: None, ..complete }, version).is_err());
    let bare = ModelDirSizes { tokenizer: None, ..complete };
    assert!(!has_usable_text_tokenizer(&bare));
    assert!(validate_model_files(&bare, version).is_err());
    let config = br#"{"tts_model_type":"custom_voice","talker_config":{"hidden_size":1024}}"#;
    let kind = QwenModelKind::CustomVoice;
    assert!(validate_ready_model_dir(config, &complete, version, kind).is_ok());
    assert!(validate_ready_model_dir(b"{}", &complete, version, kind).is_err());
    let clone = QwenModelKind::VoiceClone;
    assert!(validate_ready_model_dir(config, &complete, version, clone).is_err());
}

#[test]
fn model_files_are_fetched_and_imported() {
    let version = QwenModelVersion::Small0_6B;
    let files = model_files(version, QwenModelKind::CustomVoice);
    assert_eq!(files.len(), 4);
    assert!(needs_fetching(&files[0], true));
    assert!(!needs_fetching(&files[3], true));
    assert!(needs_fetching(&files[3], false));
    assert!(download_url(&files[0]).contains("Qwen/Qwen3-TTS-12Hz-0.6B-CustomVoice"));
    assert!(download_url(&files[0]).ends_with("model.safetensors"));
    assert_eq!(range_header(0), None);
    assert_eq!(range_header(10).as_deref(), Some("bytes=10-"));
    assert!(should_reuse(Some(10), None, 10));
    assert!(!should_reuse(Some(10), Some(10), 10));
    assert!(!should_reuse(None, None, 10));
    assert!(!shared_assets().is_empty());
    let sizes = ModelDirSizes {
        weights: Some(1_500_000_000),
        decoder: Some(500_000_000),
        tokenizer: Some(1_000_000),
        vocabulary: None,
        merges: None,
        tokenizer_config: None,
    };
    let imports = import_files(100, &sizes, version, "w", "c").unwrap();
    let paths: Vec<&str> = imports.iter().map(|file| file.path).collect();
    assert_eq!(
        paths,
        ["model.safetensors", "config.json", "speech_tokenizer/model.safetensors", "tokenizer.json"]
    );
    let file = &imports[0];
    assert!(matches!(import_step(None, None, false, file, "p"), ImportStep::Fail(_)));
    assert!(matches!(import_step(Some(u64::MAX), None, false, file, "p"), ImportStep::Copy));
    assert!(matches!(import_step(Some(u64::MAX), None, true, file, "p"), ImportStep::Keep));
    assert!(check_imported(Some(u64::MAX), file).is_ok());
    assert!(check_imported(None, file).is_err());
}

#[test]
fn an_incomplete_folder_is_not_imported() {
    let version = QwenModelVersion::Small0_6B;
    let kind = QwenModelKind::CustomVoice;
    let config: &[u8] = br#"{
        "tts_model_type": "custom_voice",
        "talker_config": { "hidden_size": 1024 },
        "architectures": []
    }"#;
    assert!(config.len() >= 100);
    let decide = |config: &[u8], sizes: &ModelDirSizes, kind| {
        import_offline_model(config, sizes, version, kind, "m/model.safetensors", "m/config.json")
    };
    let complete = ModelDirSizes {
        weights: Some(1_500_000_000),
        decoder: Some(500_000_000),
        tokenizer: None,
        vocabulary: Some(100_000),
        merges: Some(100_000),
        tokenizer_config: Some(99),
    };
    let files = decide(config, &complete, kind).unwrap();
    let paths: Vec<&str> = files.iter().map(|file| file.path).collect();
    assert_eq!(
        paths,
        [
            "model.safetensors",
            "config.json",
            "speech_tokenizer/model.safetensors",
            "vocab.json",
            "merges.txt"
        ]
    );
    let refused = |sizes: &ModelDirSizes| {
        assert!(validate_model_files(sizes, version).is_err());
        decide(config, sizes, kind).err().unwrap()
    };
    assert_eq!(
        refused(&ModelDirSizes { decoder: None, tokenizer: Some(1_000_000), ..complete }),
        "缺少 speech_tokenizer/model.safetensors；请下载完整模型仓库后再导入。"
    );
    assert_eq!(
        refused(&ModelDirSizes { weights: Some(1), decoder: None, ..complete }),
        "main-model 缺失或不完整：m/model.safetensors"
    );
    assert_eq!(
        refused(&ModelDirSizes { merges: None, ..complete }),
        "缺少文本分词器；需要 tokenizer.json，或同时提供 vocab.json 与 merges.txt。"
    );
    assert_eq!(
        decide(config, &complete, QwenModelKind::VoiceClone).err(),
        Some("所选目录不是 Qwen3-TTS Base 模型。".to_string())
    );
    let short = br#"{"tts_model_type":"custom_voice","talker_config":{"hidden_size":1024}}"#;
    assert_eq!(
        decide(short, &complete, kind).err(),
        Some("model-config 缺失或不完整：m/config.json".to_string())
    );
}

#[test]
fn each_kind_of_model_has_its_own_place() {
    let mut seen = Vec::new();
    for version in [QwenModelVersion::Small0_6B, QwenModelVersion::Large1_7B] {
        for kind in [QwenModelKind::CustomVoice, QwenModelKind::VoiceClone] {
            let model = QwenModel { version, kind };
            assert_eq!(model.id(), format!("Qwen/{}", model.folder_name()));
            assert_eq!(model.cache_folder(), model.folder_name().to_lowercase());
            assert_eq!(model_files(version, kind)[0].repository, model.id());
            assert_eq!(model.other().version, version.other());
            assert!(!seen.contains(&model.id()));
            seen.push(model.id());
        }
        let preset = QwenModel { version, kind: QwenModelKind::CustomVoice };
        assert_eq!(preset.id(), version.model_id());
        assert_eq!(preset.hugging_face_url(), version.hugging_face_url());
        assert_eq!(preset.model_scope_url(), version.model_scope_url());
        assert_eq!(preset.hugging_face_repo_folder(), version.hugging_face_repo_folder());
    }
    let clone =
        QwenModel { version: QwenModelVersion::Large1_7B, kind: QwenModelKind::VoiceClone };
    assert_eq!(clone.hugging_face_url(), "https://huggingface.co/Qwen/Qwen3-TTS-12Hz-1.7B-Base");
    assert_eq!(
        clone.model_scope_url(),
        "https://modelscope.cn/models/Qwen/Qwen3-TTS-12Hz-1.7B-Base"
    );
}

#[test]
fn a_model_is_found_in_or_below_the_chosen_folder() {
    let find = |direct, nested| {
        locate_qwen_source(direct, nested, QwenModelVersion::Small0_6B, QwenModelKind::VoiceClone)
    };
    assert_eq!(find(true, true), Ok(ModelSource::Direct));
    assert_eq!(find(false, true), Ok(ModelSource::Nested));
    assert!(find(false, false).unwrap_err().contains("Qwen3-TTS-12Hz-0.6B-Base"));
}

#[test]
fn broken_downloads_go_on_where_they_stopped() {
    let (resumed, mut transfer) = begin_transfer(true, 600, Some(400));
    assert!(resumed);
    assert_eq!(transfer.total, 1_000);
    assert!(!transfer.advance(300));
    assert!(transfer.advance(100));
    assert!(judge_transfer(&transfer, 1_000).is_none());
    let (resumed, transfer) = begin_transfer(false, 600, Some(1_000));
    assert!(!resumed);
    assert_eq!(transfer.downloaded, 0);
    assert!(matches!(
        judge_transfer(&transfer, 10),
        Some(AttemptFailure::Incomplete { downloaded: 0, total: 1_000 })
    ));
    let (_, transfer) = begin_transfer(false, 0, None);
    assert!(matches!(judge_transfer(&transfer, 10), Some(AttemptFailure::TooSmall { downloaded: 0 })));
}

#[test]
fn downloads_are_tried_three_times() {
    let files = model_files(QwenModelVersion::Small0_6B, QwenModelKind::CustomVoice);
    let step = after_attempt(&files[0], 1, &AttemptFailure::Network("offline".to_string()));
    assert_eq!(step.wait_seconds, 2);
    assert_eq!(step.next_attempt, Some(2));
    let step = after_attempt(&files[0], 3, &AttemptFailure::Status("503".to_string()));
    assert_eq!(step.next_attempt, None);
    assert_eq!(step.error, "下载 main-model 失败（已重试 3 次）：HTTP 503");
    let step = after_attempt(&files[0], 2, &AttemptFailure::TooSmall { downloaded: 7 });
    assert!(step.remove_part);
    assert_eq!(step.wait_seconds, 0);
    let step = after_attempt(&files[0], 2, &AttemptFailure::Incomplete { downloaded: 7, total: 9 });
    assert!(step.error.ends_with("下载不完整：7/9 字节"));
}

#[test]
fn no_more_frames_are_reserved_than_wanted() {
    let text = "中文语音。".repeat(100);
    assert_eq!(limited_frame_budget(&text, 4_096), 1_024);
    assert_eq!(limited_frame_budget(&text, 300), 300);
}
