use edge_tts_studio::asr::{render_subtitles, SubtitleExportFormat};
use edge_tts_studio::subtitles::{
    clean_caption_text, decode_subtitle_bytes, detect_format, estimate_lrc_duration_ms,
    format_timestamp, normalize_cues, parse_clock, parse_subtitle, parse_subtitle_text, SubtitleCue,
    SubtitleFormat, SubtitleTrack,
};
use edge_tts_studio::text::chars_of;

fn parse_named(name: &str, text: &str) -> SubtitleTrack {
    parse_subtitle(name, text.as_bytes()).unwrap()
}

fn cue(start_ms: u64, end_ms: u64, text: &str) -> SubtitleCue {
    SubtitleCue { start_ms, end_ms, text: text.to_string() }
}

#[test]
fn parses_srt_with_multiline_text_and_comma_milliseconds() {
    let track = parse_named(
        "demo.srt",
        "1\r\n00:00:01,250 --> 00:00:03,500\r\n你好，<b>世界</b>！\r\nSecond line\r\n\r\n",
    );
    assert_eq!(track.format, SubtitleFormat::Srt);
    assert_eq!(track.cues.len(), 1);
    assert_eq!(track.cues[0].start_ms, 1_250);
    assert_eq!(track.cues[0].end_ms, 3_500);
    assert_eq!(track.cues[0].text, "你好，世界！ Second line");
}

#[test]
fn parses_webvtt_with_settings() {
    let track = parse_named(
        "demo.vtt",
        "WEBVTT\n\nintro\n00:01.000 --> 00:03.200 position:20%\nHello world\n",
    );
    assert_eq!(track.format, SubtitleFormat::WebVtt);
    assert_eq!(track.cues[0].start_ms, 1_000);
    assert_eq!(track.cues[0].end_ms, 3_200);
}

#[test]
fn parses_ass_dialogue_and_removes_override_tags() {
    let track = parse_named(
        "demo.ass",
        "[Events]\nFormat: Layer, Start, End, Style, Name, MarginL, MarginR, MarginV, Effect, Text\nDialogue: 0,0:00:02.10,0:00:04.25,Default,,0,0,0,,{\\an8}你好，世界\\NHello\n",
    );
    assert_eq!(track.format, SubtitleFormat::Ass);
    assert_eq!(track.cues[0].start_ms, 2_100);
    assert_eq!(track.cues[0].end_ms, 4_250);
    assert_eq!(track.cues[0].text, "你好，世界 Hello");
}

#[test]
fn parses_lrc_and_derives_end_times() {
    let track = parse_named("demo.lrc", "[00:01.00]第一句\n[00:04.50]Second line\n");
    assert_eq!(track.format, SubtitleFormat::Lrc);
    assert_eq!(track.cues.len(), 2);
    assert_eq!(track.cues[0].end_ms, 4_500);
    assert!(track.cues[1].end_ms > track.cues[1].start_ms);
}

#[test]
fn decodes_utf16_le_bom() {
    let text = "1\n00:00:00,000 --> 00:00:01,000\n你好\n";
    let mut bytes = vec![0xFF, 0xFE];
    for unit in text.encode_utf16() {
        bytes.extend_from_slice(&unit.to_le_bytes());
    }
    assert_eq!(decode_subtitle_bytes(&bytes).unwrap(), text);
}

#[test]
fn decodes_utf16_be_bom_with_characters_beyond_the_basic_plane() {
    let text = "字幕 😀";
    let mut bytes = vec![0xFE, 0xFF];
    for unit in text.encode_utf16() {
        bytes.extend_from_slice(&unit.to_be_bytes());
    }
    assert_eq!(decode_subtitle_bytes(&bytes).unwrap(), text);
}

#[test]
fn rejects_utf16_with_a_lone_surrogate() {
    assert!(decode_subtitle_bytes(&[0xFF, 0xFE, 0x00, 0xD8]).is_err());
}

#[test]
fn decodes_utf8_with_and_without_a_mark() {
    let mut marked = vec![0xEF, 0xBB, 0xBF];
    marked.extend_from_slice("[00:01.00]你好".as_bytes());
    assert_eq!(decode_subtitle_bytes(&marked).unwrap(), "[00:01.00]你好");
    assert_eq!(decode_subtitle_bytes("你好".as_bytes()).unwrap(), "你好");
}

#[test]
fn rejects_marked_text_that_is_not_utf8() {
    assert!(decode_subtitle_bytes(&[0xEF, 0xBB, 0xBF, 0xFF]).is_err());
}

#[test]
fn falls_back_to_gbk() {
    assert_eq!(decode_subtitle_bytes(&[0xC4, 0xE3, 0xBA, 0xC3]).unwrap(), "你好");
    assert!(decode_subtitle_bytes(&[0x81, 0x20, 0xFF, 0xFF]).is_err());
}

#[test]
fn files_are_recognised_by_name_and_by_content() {
    let none = chars_of("");
    assert_eq!(detect_format("a.STR", &none), Some(SubtitleFormat::Srt));
    assert_eq!(detect_format("a.ssa", &none), Some(SubtitleFormat::Ass));
    assert_eq!(detect_format("a.vtt", &none), Some(SubtitleFormat::WebVtt));
    assert_eq!(detect_format("a.txt", &none), None);
    let vtt = chars_of("WEBVTT\n\n00:01.000 --> 00:02.000\nx\n");
    assert_eq!(detect_format("a.txt", &vtt), Some(SubtitleFormat::WebVtt));
}

#[test]
fn files_without_cues_are_refused() {
    assert!(parse_subtitle_text("demo.srt", "nothing here").is_err());
    assert!(parse_subtitle_text("demo.txt", "nothing here").is_err());
}

#[test]
fn clocks_are_read_with_and_without_hours() {
    assert_eq!(parse_clock(&chars_of("01:02:03,004")), Some(3_723_004));
    assert_eq!(parse_clock(&chars_of("02:03.5")), Some(123_500));
    assert_eq!(parse_clock(&chars_of("soon")), None);
}

#[test]
fn overflowing_clocks_are_not_times() {
    assert_eq!(parse_clock(&chars_of("18446744073709551615:00:00.000")), None);
}

#[test]
fn markup_and_entities_leave_captions() {
    let clean = clean_caption_text(&chars_of("{\\an8}<i>Tom</i> &amp; Jerry\\Nagain"));
    assert_eq!(clean, "Tom & Jerry again");
}

#[test]
fn cues_are_put_in_order_and_empty_ones_are_dropped() {
    let normal = normalize_cues(vec![
        cue(5_000, 6_000, "b"),
        cue(1_000, 2_000, "a"),
        cue(3, 3, "never"),
        cue(4, 9, " "),
    ]);
    assert_eq!(normal.len(), 2);
    assert_eq!(normal[0].text, "a");
    assert_eq!(normal[1].start_ms, 5_000);
}

#[test]
fn cues_that_start_together_are_merged() {
    let normal = normalize_cues(vec![
        cue(1_000, 2_000, "你好"),
        cue(1_000, 4_000, "Hello"),
        cue(1_000, 3_000, "你"),
    ]);
    assert_eq!(normal.len(), 1);
    assert_eq!(normal[0].text, "你好 Hello");
    assert_eq!(normal[0].end_ms, 4_000);
}

#[test]
fn normal_cues_are_left_alone() {
    let cues = vec![cue(5_000, 6_000, "b"), cue(1_000, 2_000, "a"), cue(1_000, 3_000, "c")];
    let once = normalize_cues(cues);
    let copy = once.iter().map(|cue| self::cue(cue.start_ms, cue.end_ms, &cue.text)).collect();
    let twice = normalize_cues(copy);
    assert_eq!(once.len(), twice.len());
    for (left, right) in once.iter().zip(twice.iter()) {
        assert_eq!(left.start_ms, right.start_ms);
        assert_eq!(left.end_ms, right.end_ms);
        assert_eq!(left.text, right.text);
    }
}

#[test]
fn long_captions_are_shown_longer() {
    let short = estimate_lrc_duration_ms("好");
    let long = estimate_lrc_duration_ms("这是一句比较长的歌词需要更久");
    assert!(short <= long);
}

#[test]
fn timestamps_are_shown_and_read_back() {
    assert_eq!(format_timestamp(83_456), "01:23.456");
    assert_eq!(format_timestamp(3_723_004), "01:02:03.004");
    for ms in [0u64, 1, 59_999, 60_000, 3_599_999, 3_600_000, 86_399_999] {
        assert_eq!(parse_clock(&chars_of(&format_timestamp(ms))), Some(ms));
    }
}

#[test]
fn the_latest_end_is_the_duration() {
    let track = parse_named(
        "demo.srt",
        "1\n00:00:01,000 --> 00:00:09,000\nA\n\n2\n00:00:02,000 --> 00:00:03,000\nB\n",
    );
    assert_eq!(track.duration_ms(), track.cues.iter().map(|cue| cue.end_ms).max().unwrap());
}

#[test]
fn exported_tracks_are_read_back() {
    let cues = vec![cue(0, 1_000, "你好"), cue(1_500, 3_723_004, "Hello world")];
    for (format, name) in [(SubtitleExportFormat::Srt, "a.srt"), (SubtitleExportFormat::WebVtt, "a.vtt")] {
        let track = parse_named(name, &render_subtitles(&cues, format));
        assert_eq!(track.cues.len(), 2);
        for (left, right) in track.cues.iter().zip(cues.iter()) {
            assert_eq!(left.start_ms, right.start_ms);
            assert_eq!(left.end_ms, right.end_ms);
            assert_eq!(left.text, right.text);
        }
    }
}

#[test]
fn cues_that_start_together_lose_nothing() {
    let cue = |start_ms, end_ms, text: &str| SubtitleCue { start_ms, end_ms, text: text.to_string() };
    let normal = normalize_cues(vec![
        cue(500, 900, "later"),
        cue(100, 400, "one"),
        cue(100, 700, "two"),
        cue(100, 300, "one"),
        cue(200, 200, "never"),
        cue(300, 400, "  "),
    ]);
    assert_eq!(normal.len(), 2);
    assert_eq!((normal[0].start_ms, normal[0].end_ms), (100, 700));
    assert_eq!(normal[0].text, "one two");
    assert_eq!((normal[1].start_ms, normal[1].end_ms), (500, 900));
}
