use edge_tts_studio::asr::{
    analysis_frame_samples, continues_ascii_word, cues_from_utterance, decoded_duration_ms,
    finish_transcription, group_timed_chunks_into_cues, normalize_cue_boundaries,
    normalize_recognized_text, render_srt, render_webvtt, sample_time_ms, segment_chunks,
    split_audio_windows,
    split_sentences, subtitle_timestamp, valid_segment_bounds, PromptLanguage, RecognitionLanguage,
    Segment, SegmentChunk, SubtitleExportFormat, TimedChunk,
};
use edge_tts_studio::media_decoding::{
    after_decode, after_read, audio_track, is_mp3, recording_rate, DecodeAnswer, MediaStep,
    ReadAnswer,
};
use edge_tts_studio::subtitles::SubtitleCue;
use edge_tts_studio::text::{chars_of, string_of};
use std::ops::Range;

fn chunk(start_ms: u64, end_ms: u64, text: &str) -> TimedChunk {
    TimedChunk { start_ms, end_ms, text: text.to_string() }
}

fn is_continued(left: &str, right: &str) -> bool {
    continues_ascii_word(&chars_of(left), &chars_of(right))
}

#[test]
fn splits_a_mixed_utterance_at_sentence_boundaries() {
    let cues = cues_from_utterance(100, 3_000, &chars_of("你好，世界。Hello world!"));
    assert_eq!(cues.len(), 2);
    assert_eq!(cues[0].text, "你好，世界。");
    assert_eq!(cues[0].start_ms, 100);
    assert_eq!(cues[1].text, "Hello world!");
    assert_eq!(cues[1].end_ms, 3_000);
}

#[test]
fn audio_windows_cover_every_sample_without_crossing_whispers_boundary() {
    let samples = vec![0.0f32; 74_640];
    let frame = analysis_frame_samples(1_000);
    let energies: Vec<u32> = samples
        .chunks(frame)
        .map(|frame| {
            let sum: f32 = frame.iter().map(|sample| sample * sample).sum();
            (sum / frame.len() as f32).sqrt().to_bits()
        })
        .collect();
    let windows = split_audio_windows(samples.len(), &energies, 1_000);
    assert!(windows.len() >= 3);
    assert_eq!(windows.first().map(|range| range.start), Some(0));
    assert_eq!(windows.last().map(|range| range.end), Some(samples.len()));
    assert!(windows.windows(2).all(|pair| pair[0].end == pair[1].start));
    assert!(windows.iter().all(|range| range.len() <= 26_000));
}

#[test]
fn windows_are_cut_where_it_is_quiet() {
    let mut energies = vec![1.0f32.to_bits(); 3_000];
    energies[1_200] = 0.25f32.to_bits();
    let windows = split_audio_windows(60_000, &energies, 1_000);
    assert_eq!(windows[0].end, 1_200 * 20);
}

#[test]
fn groups_valid_mixed_language_timestamps() {
    let cues = group_timed_chunks_into_cues(&vec![
        chunk(100, 1_100, "你好。"),
        chunk(1_200, 2_400, " Hello world!"),
    ]);
    assert_eq!(cues.len(), 2);
    assert_eq!(cues[0].text, "你好。");
    assert_eq!(cues[1].text, "Hello world!");
}

#[test]
fn does_not_split_an_ascii_word_between_token_chunks() {
    let cues = group_timed_chunks_into_cues(&vec![
        chunk(0, 5_400, "欢迎在Git"),
        chunk(5_420, 5_900, "Hub查看"),
    ]);
    assert_eq!(cues.len(), 1);
    assert_eq!(cues[0].text, "欢迎在GitHub查看");
}

#[test]
fn keeps_ascii_word_whole_when_the_following_chunk_is_oversized() {
    let cues = group_timed_chunks_into_cues(&vec![
        chunk(0, 4_000, "我决定把项目上传G"),
        chunk(4_020, 9_000, "itHub链接放在简介区大家可以直接下载查看完整源代码"),
    ]);
    assert!(!cues.is_empty());
    assert!(cues
        .windows(2)
        .all(|pair| !is_continued(&pair[0].text, &pair[1].text)));
    assert!(cues.iter().any(|cue| cue.text.contains("GitHub")));
}

#[test]
fn sentence_length_limit_keeps_ascii_words_whole() {
    let parts = split_sentences(&chars_of(
        "这是较长的一段中文内容用于填充字幕长度然后继续补充更多内容上传GitHub链接继续查看",
    ));
    assert!(parts.len() >= 2);
    assert!(parts
        .windows(2)
        .all(|pair| { !is_continued(pair[0].as_str(), pair[1].as_str()) }));
}

#[test]
fn rejects_padded_or_reversed_segments_after_the_real_audio() {
    assert_eq!(
        valid_segment_bounds(0, 25_000, 0..400_000),
        Some((0, 25_000))
    );
    assert_eq!(
        valid_segment_bounds(
            0,
            25_000,
            Range {
                start: 480_000,
                end: 400_000,
            },
        ),
        None
    );
    assert_eq!(valid_segment_bounds(0, 25_000, 480_000..500_000), None);
}

#[test]
fn renders_valid_srt_and_webvtt_timestamps() {
    let cues = vec![SubtitleCue {
        start_ms: 3_723_004,
        end_ms: 3_724_500,
        text: "测试 subtitle".to_owned(),
    }];
    assert!(render_srt(&cues).contains("01:02:03,004 --> 01:02:04,500"));
    assert!(render_webvtt(&cues).contains("01:02:03.004 --> 01:02:04.500"));
}

#[test]
fn removes_whitespace_around_chinese_but_keeps_english_words() {
    let normal = normalize_recognized_text(&chars_of("你 好 hello world"));
    assert_eq!(string_of(&normal), "你好hello world");
}

#[test]
fn a_whole_srt_file_is_rendered() {
    let cues = vec![
        SubtitleCue { start_ms: 0, end_ms: 900, text: "一".to_owned() },
        SubtitleCue { start_ms: 1_000, end_ms: 2_000, text: "two".to_owned() },
    ];
    assert_eq!(
        render_srt(&cues),
        "1\n00:00:00,000 --> 00:00:00,900\n一\n\n2\n00:00:01,000 --> 00:00:02,000\ntwo\n\n"
    );
    assert!(render_webvtt(&cues).starts_with("WEBVTT\n\n"));
    assert_eq!(subtitle_timestamp(61_001, ','), "00:01:01,001");
}

#[test]
fn visible_characters_survive_grouping() {
    let chunks = vec![
        chunk(0, 900, "Hello"),
        chunk(950, 1_400, " big"),
        chunk(1_500, 9_000, " world. 再见"),
    ];
    let spoken: String = chunks
        .iter()
        .flat_map(|chunk| chunk.text.chars())
        .filter(|c| !c.is_whitespace())
        .collect();
    let shown: String = group_timed_chunks_into_cues(&chunks)
        .iter()
        .flat_map(|cue| cue.text.chars().collect::<Vec<char>>())
        .filter(|c| !c.is_whitespace())
        .collect();
    assert_eq!(spoken, shown);
}

#[test]
fn segments_give_their_timed_chunks() {
    let segment = Segment {
        first_sample: 0,
        end_sample: 32_000,
        text: "你好 世界".to_string(),
        chunks: vec![
            SegmentChunk { times: Some((100, 150)), text: "你好".to_string() },
            SegmentChunk { times: None, text: "?".to_string() },
            SegmentChunk { times: Some((90_000, 91_000)), text: "late".to_string() },
        ],
    };
    let found = segment_chunks(&segment, 10_000, 20_000);
    assert_eq!(found.len(), 1);
    assert_eq!(found[0].start_ms, 10_100);
    assert_eq!(found[0].end_ms, 10_180);
}

#[test]
fn segments_without_times_are_one_chunk() {
    let segment = Segment {
        first_sample: 0,
        end_sample: 16_000,
        text: "你好".to_string(),
        chunks: Vec::new(),
    };
    let found = segment_chunks(&segment, 0, 20_000);
    assert_eq!(found.len(), 1);
    assert_eq!((found[0].start_ms, found[0].end_ms), (0, 1_000));
    let blank = Segment { first_sample: 0, end_sample: 16_000, text: " ".to_string(), chunks: Vec::new() };
    assert!(segment_chunks(&blank, 0, 20_000).is_empty());
}

#[test]
fn silence_is_an_error() {
    let error = finish_transcription(&Vec::new(), 1_000).unwrap_err();
    assert_eq!(error, "No speech was recognized in this audio file.");
    let report = finish_transcription(&vec![chunk(0, 900, "你好。")], 1_000).unwrap();
    assert_eq!(report.audio_duration_ms, 1_000);
    assert_eq!(report.cues.len(), 1);
}

#[test]
fn audio_without_samples_is_an_error() {
    assert!(decoded_duration_ms(0, 24_000).is_err());
    assert_eq!(decoded_duration_ms(36_000, 24_000), Ok(1_500));
}

#[test]
fn cues_stay_inside_the_audio_and_apart() {
    let cues = normalize_cue_boundaries(
        vec![
            SubtitleCue { start_ms: 0, end_ms: 5_000, text: "a".to_owned() },
            SubtitleCue { start_ms: 2_000, end_ms: 9_000, text: "b".to_owned() },
        ],
        4_000,
    );
    assert!(cues.iter().all(|cue| cue.end_ms <= 4_000));
    assert!(cues.windows(2).all(|pair| pair[0].end_ms <= pair[1].start_ms));
}

#[test]
fn mixed_speech_is_prompted_in_chinese() {
    assert_eq!(RecognitionLanguage::MixedChineseEnglish.whisper_language(), PromptLanguage::Chinese);
    assert_eq!(RecognitionLanguage::English.whisper_language(), PromptLanguage::English);
    assert_eq!(SubtitleExportFormat::WebVtt.extension(), "vtt");
    assert_eq!(SubtitleExportFormat::Srt.label(), "SRT");
}

#[test]
fn the_first_track_with_a_rate_is_read() {
    assert_eq!(audio_track(&[None, Some(48_000), Some(44_100)]), Ok((1, 48_000)));
    assert_eq!(
        audio_track(&[None]),
        Err("No supported audio track was found in the selected media file.".to_string())
    );
    assert!(is_mp3("talk.MP3"));
    assert!(!is_mp3("talk.mp4"));
    assert!(!is_mp3("mp3"));
}

#[test]
fn packets_of_other_tracks_and_damaged_ones_are_passed_over() {
    assert!(matches!(after_read(ReadAnswer::Packet(3), 3), MediaStep::Take));
    assert!(matches!(after_read(ReadAnswer::Packet(4), 3), MediaStep::Skip));
    assert!(matches!(after_read(ReadAnswer::EndOfFile, 3), MediaStep::Finish));
    assert!(matches!(after_read(ReadAnswer::ResetRequired, 3), MediaStep::Fail(_)));
    match after_read(ReadAnswer::Failed("disk".to_string()), 3) {
        MediaStep::Fail(error) => assert_eq!(error, "Could not read the media audio track: disk"),
        _ => unreachable!(),
    }
    assert!(matches!(after_decode(DecodeAnswer::Damaged), MediaStep::Skip));
    assert!(matches!(after_decode(DecodeAnswer::Samples), MediaStep::Take));
    assert!(matches!(after_decode(DecodeAnswer::EndOfFile), MediaStep::Finish));
    match after_decode(DecodeAnswer::Failed("codec".to_string())) {
        MediaStep::Fail(error) => assert_eq!(error, "Could not decode the media audio track: codec"),
        _ => unreachable!(),
    }
}

#[test]
fn the_rate_of_a_recording_does_not_change_after_its_first_samples() {
    assert_eq!(recording_rate(44_100, 48_000, false), Ok(48_000));
    assert_eq!(recording_rate(48_000, 48_000, true), Ok(48_000));
    assert!(recording_rate(44_100, 48_000, true).is_err());
}

#[test]
fn cues_without_latin_words_are_short_and_brief() {
    let chunks: Vec<TimedChunk> = (0..40)
        .map(|i| chunk(i * 400, i * 400 + 390, if i % 3 == 0 { " 今天 " } else { "天气很好" }))
        .collect();
    let cues = group_timed_chunks_into_cues(&chunks);
    assert!(cues.len() > 1);
    assert!(cues.iter().all(|cue| cue.text.chars().count() <= 28));
    assert!(cues.iter().all(|cue| cue.end_ms - cue.start_ms <= 5_500));
    let long = group_timed_chunks_into_cues(&vec![chunk(0, 60_000, &"天气很好".repeat(20))]);
    assert!(long.iter().all(|cue| cue.text.chars().count() <= 28));
}

#[test]
fn samples_are_told_as_times() {
    assert_eq!(sample_time_ms(36_000, 24_000), 1_500);
    assert_eq!(sample_time_ms(0, 24_000), 0);
}
