use edge_tts_studio::asr::SubtitleExportFormat;
use edge_tts_studio::file_names::{extension, set_extension, stem};
use edge_tts_studio::subtitle_pipeline::signed_percent;
use edge_tts_studio::text;
use edge_tts_studio::ui_text::{
    compact_model_source, ensure_mp3_extension, ensure_subtitle_extension, format_duration_seconds,
    format_playback_seconds, localized_transcription_error, preview_text, StatusKind, StatusMessage,
    UiLanguage,
};
use edge_tts_studio::voice_order::sort_voices;
use edge_tts_studio::voices::{find_voice, matching_positions, VoiceChoice};

fn voice(short_name: &str, locale: &str) -> VoiceChoice {
    VoiceChoice {
        short_name: short_name.to_owned(),
        locale: locale.to_owned(),
        gender: "Female".to_owned(),
        friendly_name: None,
    }
}

#[test]
fn mp3_extension_is_added_or_preserved() {
    assert_eq!(ensure_mp3_extension("speech"), "speech.mp3");
    assert_eq!(ensure_mp3_extension("speech.MP3"), "speech.MP3");
    assert_eq!(ensure_mp3_extension("speech.wav"), "speech.mp3");
}

#[test]
fn voice_filter_is_case_insensitive() {
    let voice = VoiceChoice {
        short_name: "zh-CN-XiaoxiaoNeural".to_owned(),
        locale: "zh-CN".to_owned(),
        gender: "Female".to_owned(),
        friendly_name: Some("Microsoft Xiaoxiao".to_owned()),
    };

    assert!(voice.matches("xiaoxiao"));
    assert!(voice.matches("晓晓"));
    assert!(voice.matches("中文"));
    assert!(voice.matches("ZH-cn"));
    assert!(voice.matches("female"));
    assert!(!voice.matches("en-US"));

    assert!(voice.label(UiLanguage::Chinese).contains("晓晓 Xiaoxiao"));
    assert!(voice.label(UiLanguage::English).contains("Xiaoxiao"));
}

#[test]
fn preview_text_uses_a_short_unicode_safe_excerpt() {
    let long_text = "你好，欢迎试听这个音色。".repeat(12);
    let preview = preview_text(&long_text, UiLanguage::Chinese);
    assert_eq!(preview.chars().count(), 81);
    assert!(preview.ends_with('…'));
    assert_eq!(
        preview_text("   ", UiLanguage::English),
        "Hello, this is a preview of the selected voice."
    );
    assert_eq!(signed_percent(-25), "-25%");
    assert_eq!(signed_percent(0), "+0%");
    assert_eq!(signed_percent(80), "+80%");
}

#[test]
fn subtitle_extension_follows_the_format() {
    assert_eq!(ensure_subtitle_extension("talk", SubtitleExportFormat::Srt), "talk.srt");
    assert_eq!(ensure_subtitle_extension("talk.VTT", SubtitleExportFormat::WebVtt), "talk.VTT");
    assert_eq!(ensure_subtitle_extension("talk.srt", SubtitleExportFormat::WebVtt), "talk.vtt");
    for name in ["a", "a.b", ".hidden", "a.mp3"] {
        let once = ensure_mp3_extension(name);
        assert_eq!(ensure_mp3_extension(&once), once);
    }
}

#[test]
fn names_are_taken_apart_as_paths_are() {
    for name in ["a.b.c", "a", ".hidden", "a.", "", ".", "..", "...", "一.mp3"] {
        let path = std::path::Path::new(name);
        let chars = text::chars_of(name);
        assert_eq!(
            extension(&chars).map(text::string_of),
            path.extension().map(|part| part.to_str().unwrap().to_string()),
            "{name}"
        );
        if path.file_stem().is_some() {
            assert_eq!(text::string_of(stem(&chars)), path.file_stem().unwrap().to_str().unwrap());
        }
    }
    for name in ["a.b", "a", ".hidden", "a.", "", ".", "..", "..."] {
        for extension in ["mp3", ""] {
            let mut path = std::path::PathBuf::from(name);
            path.set_extension(extension);
            let changed = set_extension(&text::chars_of(name), extension);
            assert_eq!(text::string_of(&changed), path.to_str().unwrap(), "{name} {extension}");
        }
    }
    assert_eq!(ensure_mp3_extension(""), "");
    assert_eq!(ensure_mp3_extension(".."), "..");
}

#[test]
fn white_space_is_that_of_unicode() {
    for code in 0..=0x10FFFFu32 {
        if let Some(c) = char::from_u32(code) {
            assert_eq!(text::is_white_space(c), c.is_whitespace(), "{code:x}");
            assert_eq!(text::is_ascii_alphanumeric(c), c.is_ascii_alphanumeric(), "{code:x}");
        }
    }
}

#[test]
fn texts_are_taken_apart_as_strings_are() {
    let samples = ["", " ", "a", " a b ", "a\r\nb\n", "\n\n", "a,b,,c", ",", "你 好\u{3000}吗"];
    for sample in samples {
        let chars = text::chars_of(sample);
        assert_eq!(text::string_of(text::trim(&chars)), sample.trim());
        let lines: Vec<String> = text::lines(&chars).into_iter().map(text::string_of).collect();
        assert_eq!(lines, sample.lines().map(str::to_string).collect::<Vec<String>>());
        let words: Vec<String> =
            text::split_whitespace(&chars).into_iter().map(text::string_of).collect();
        assert_eq!(words, sample.split_whitespace().map(str::to_string).collect::<Vec<String>>());
        let parts: Vec<String> = text::split(&chars, ',').into_iter().map(text::string_of).collect();
        assert_eq!(parts, sample.split(',').map(str::to_string).collect::<Vec<String>>());
        let few: Vec<String> =
            text::splitn(&chars, ',', 2).into_iter().map(text::string_of).collect();
        assert_eq!(few, sample.splitn(2, ',').map(str::to_string).collect::<Vec<String>>());
        assert_eq!(text::string_of(&text::replace(&chars, "a", "bb")), sample.replace("a", "bb"));
        assert_eq!(text::contains(&chars, "a"), sample.contains("a"));
        assert_eq!(text::starts_with(&chars, "a"), sample.starts_with("a"));
    }
}

#[test]
fn numbers_are_read_and_written_as_integers_are() {
    for sample in ["0", "7", "+7", "007", "-1", "", "18446744073709551615", "18446744073709551616", "1 "] {
        assert_eq!(text::parse_u64(&text::chars_of(sample)), sample.parse::<u64>().ok(), "{sample}");
    }
    for number in [0u64, 9, 10, 12_345, u64::MAX] {
        assert_eq!(text::number_text(number), number.to_string());
    }
}

#[test]
fn durations_are_shown() {
    assert_eq!(format_duration_seconds(5), "5s");
    assert_eq!(format_duration_seconds(125), "2:05");
    assert_eq!(format_playback_seconds(65), "1:05");
    assert_eq!(format_playback_seconds(3_665), "1:01:05");
}

#[test]
fn sources_are_named_shortly() {
    assert_eq!(compact_model_source("Model (quantized)"), "Whisper Large-v3 Turbo");
    assert_eq!(compact_model_source("Tokenizer x"), "Tokenizer");
    assert_eq!(compact_model_source("Config x"), "Config");
    assert_eq!(compact_model_source("other"), "other");
}

#[test]
fn transcription_errors_are_told_in_chinese() {
    assert!(localized_transcription_error("No speech was recognized in this audio file.")
        .starts_with("没有识别到清晰语音。"));
    assert!(localized_transcription_error("The media audio codec is not supported: x")
        .starts_with("无法解码所选媒体的音轨"));
    assert!(localized_transcription_error("Could not load the local Whisper model: x")
        .starts_with("无法加载本地 Whisper 模型"));
    assert!(localized_transcription_error("Could not open the selected media file: x")
        .starts_with("无法读取所选媒体"));
    assert_eq!(localized_transcription_error("other"), "other");
}

#[test]
fn messages_are_shown_in_the_language_of_the_window() {
    let message = StatusMessage::fixed(StatusKind::Info, "好", "good");
    assert_eq!(message.text(UiLanguage::Chinese), "好");
    assert_eq!(message.text(UiLanguage::English), "good");
}

#[test]
fn voices_are_listed_by_locale_and_name() {
    let sorted = sort_voices(&vec![
        voice("zh-CN-B", "zh-CN"),
        voice("en-US-A", "en-US"),
        voice("zh-CN-A", "zh-CN"),
        voice("zh-HK-A", "zh-HK"),
        voice("zh-C-A", "zh-C"),
    ]);
    let names: Vec<&str> = sorted.iter().map(|voice| voice.short_name.as_str()).collect();
    assert_eq!(names, vec!["en-US-A", "zh-C-A", "zh-CN-A", "zh-CN-B", "zh-HK-A"]);
}

#[test]
fn voices_that_agree_keep_their_order() {
    let mut first = voice("x", "en-US");
    first.gender = "Male".to_string();
    let sorted = sort_voices(&vec![first, voice("x", "en-US"), voice("a", "en-US")]);
    let genders: Vec<&str> = sorted.iter().map(|voice| voice.gender.as_str()).collect();
    assert_eq!(genders, vec!["Female", "Male", "Female"]);
}

#[test]
fn voices_are_found_by_name() {
    let voices = vec![voice("en-US-A", "en-US"), voice("zh-CN-XiaoxiaoNeural", "zh-CN")];
    assert_eq!(find_voice(&voices, "zh-CN-XiaoxiaoNeural"), Some(1));
    assert_eq!(find_voice(&voices, "none"), None);
    assert_eq!(matching_positions(&voices, "XIAOXIAO"), vec![1]);
    assert_eq!(matching_positions(&voices, ""), vec![0, 1]);
}

#[test]
fn searches_are_lowered_beyond_ascii() {
    let mut voice = voice("de-DE-X", "de-DE");
    voice.friendly_name = Some("Microsoft ÄRGER Online (Natural)".to_string());
    assert!(voice.matches("ärger"));
}
