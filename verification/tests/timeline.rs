use edge_tts_studio::audio_player::{check_audio, OutputStep, Playback, SampleCursor};
use edge_tts_studio::subtitle_pipeline::{
    check_cues, clip_cut, closing_sample, cue_error_text, cue_slot, fitted_rate, needs_faster_clip,
    signed_percent, ClipCut, CueClips, FittedTrack,
};
use edge_tts_studio::subtitles::SubtitleCue;
use edge_tts_studio::timeline_audio::{
    clip_rate, decoded_rate, drain_step, milliseconds_to_samples, resampled_len, trim_edge_silence,
    DrainStep, PacketAnswer, TimelineClock, TIMELINE_SAMPLE_RATE,
};
use edge_tts_studio::worker::WholeSpeech;

fn cue(start_ms: u64, end_ms: u64) -> SubtitleCue {
    SubtitleCue { start_ms, end_ms, text: "x".to_string() }
}

#[test]
fn an_overlong_cue_is_kept_and_delays_the_next_cue() {
    let mut clock = TimelineClock::new();
    let two_seconds = TIMELINE_SAMPLE_RATE as usize * 2;
    let one_second = TIMELINE_SAMPLE_RATE as usize;

    clock.advance(two_seconds);
    let pieces = clock.write_silence_until(u64::from(TIMELINE_SAMPLE_RATE));
    assert!(pieces.is_empty());
    clock.advance(one_second);

    assert_eq!(clock.written_samples, u64::from(TIMELINE_SAMPLE_RATE) * 3);
}

#[test]
fn shared_samples_seek_without_copying_the_audio() {
    let mut source = SampleCursor::new(100);
    source.seek(5 * 10);
    assert_eq!(source.next(), Some(50));
    source.seek(99 * 10);
    assert_eq!(source.next(), None);
    assert_eq!(source.remaining(), 0);
}

#[test]
fn silence_is_written_in_pieces() {
    let mut clock = TimelineClock::new();
    assert!(clock.needs_filler());
    assert_eq!(clock.write_silence_until(60_000), vec![24_000, 24_000, 12_000]);
    assert_eq!(clock.written_samples, 60_000);
    assert!(!clock.needs_filler());
    assert_eq!(clock.next_silence(60_000), None);
}

#[test]
fn samples_follow_milliseconds() {
    assert_eq!(milliseconds_to_samples(0), 0);
    assert_eq!(milliseconds_to_samples(1), 24);
    assert_eq!(milliseconds_to_samples(1_500), 36_000);
}

#[test]
fn edges_without_signal_are_trimmed_with_a_margin() {
    let mut samples = vec![0.0f32; 10_000];
    samples[5_000] = 0.5;
    let bits: Vec<u32> = samples.iter().map(|sample| sample.to_bits()).collect();
    let kept = trim_edge_silence(&bits);
    assert_eq!(kept.start, 5_000 - 192);
    assert_eq!(kept.end, 5_001 + 1_080);
    samples[5_000] = -0.5;
    let bits: Vec<u32> = samples.iter().map(|sample| sample.to_bits()).collect();
    assert_eq!(trim_edge_silence(&bits).start, 5_000 - 192);
    let kept = trim_edge_silence(&vec![0.0f32.to_bits(); 100]);
    assert_eq!(kept.len(), 0);
}

#[test]
fn lengths_follow_the_sample_rate() {
    assert_eq!(resampled_len(48_000, 48_000, 24_000), 24_000);
    assert_eq!(resampled_len(10, 24_000, 24_000), 10);
    assert_eq!(resampled_len(1, 48_000, 24_000), 1);
    assert_eq!(resampled_len(0, 48_000, 24_000), 0);
}

#[test]
fn a_clip_keeps_its_rate() {
    assert_eq!(clip_rate(None, 24_000), Ok(24_000));
    assert_eq!(clip_rate(Some(24_000), 24_000), Ok(24_000));
    assert!(clip_rate(Some(24_000), 48_000).is_err());
    assert_eq!(decoded_rate(Some(24_000)), Ok(24_000));
    assert!(decoded_rate(None).is_err());
}

#[test]
fn the_encoder_is_drained_until_it_has_no_more() {
    assert_eq!(drain_step(PacketAnswer::Packet, false), DrainStep::Collect);
    assert_eq!(drain_step(PacketAnswer::NeedsMore, false), DrainStep::Done);
    assert_eq!(drain_step(PacketAnswer::NeedsMore, true), DrainStep::Starved);
    assert_eq!(drain_step(PacketAnswer::EndOfStream, true), DrainStep::Done);
    assert_eq!(drain_step(PacketAnswer::Failed, false), DrainStep::Failed);
}

#[test]
fn a_slot_ends_with_the_cue_or_the_next_one() {
    let cues = vec![cue(1_000, 5_000), cue(2_000, 2_500), cue(9_000, 9_000)];
    assert_eq!(cue_slot(&cues, 0).start_sample, 24_000);
    assert_eq!(cue_slot(&cues, 0).available_samples, 24_000);
    assert_eq!(cue_slot(&cues, 1).available_samples, 12_000);
    assert_eq!(cue_slot(&cues, 2).available_samples, 24);
    assert_eq!(check_cues(&cues), Ok(3));
    assert!(check_cues(&[]).is_err());
}

#[test]
fn long_clips_are_spoken_faster_or_cut() {
    assert!(needs_faster_clip(10, 9, 99));
    assert!(!needs_faster_clip(10, 9, 100));
    assert!(!needs_faster_clip(9, 9, 0));
    assert_eq!(fitted_rate(20, 0), 23);
    assert_eq!(fitted_rate(-40, 10), 11);
    assert_eq!(fitted_rate(400, 10), 100);
    let cut = clip_cut(10, 9);
    assert!(cut.truncated);
    assert_eq!(cut.kept_samples, 9);
    assert!(!clip_cut(9, 9).truncated);
    assert_eq!(cue_error_text(2, 7, "offline"), "Subtitle 2/7: offline");
    assert_eq!(signed_percent(i32::MIN), "-2147483648%");
}

#[test]
fn whole_clips_follow_one_another() {
    let mut track = WholeSpeech::new();
    assert_eq!(track.lay(1_000, 500, 800), 1_000);
    assert_eq!(track.lay(1_500, 500, 400), 0);
    assert_eq!(track.lay(5_000, 500, 500), 2_800);
    assert_eq!(track.written_samples, 5_500);
    assert_eq!(track.overflow_count, 1);
}

#[test]
fn the_player_is_toggled_and_restarted() {
    let mut playback = Playback::new();
    assert!(!playback.shows_end(true));
    assert_eq!(
        playback.toggle(true, false),
        OutputStep { pause: false, reset: false, play: true }
    );
    assert_eq!(
        playback.toggle(false, false),
        OutputStep { pause: true, reset: false, play: false }
    );
    assert!(playback.shows_end(true));
    assert_eq!(
        playback.toggle(false, true),
        OutputStep { pause: false, reset: true, play: true }
    );
    assert_eq!(playback.restart(), OutputStep { pause: false, reset: true, play: true });
    assert_eq!(
        playback.jump(false, false, true),
        OutputStep { pause: false, reset: false, play: false }
    );
    let mut fresh = Playback::new();
    fresh.jumped(true);
    assert!(!fresh.has_started);
    fresh.jumped(false);
    assert!(fresh.has_started);
    assert_eq!(check_audio(10, 24_000), Ok(()));
    assert!(check_audio(0, 24_000).is_err());
    assert!(check_audio(10, 0).is_err());
}

#[test]
fn a_track_is_spoken_cue_by_cue() {
    assert_eq!(
        FittedTrack::begin(&[]),
        Err("The imported subtitle has no timed text cues.".to_string())
    );
    let cues = [cue(0, 1_000), cue(1_000, 2_000), cue(2_000, 3_000), cue(4_000, 5_000)];
    let answers = [
        // It fits; a faster clip would not be looked at.
        CueClips { first: 24_000, faster: Some(1) },
        // The faster clip fits.
        CueClips { first: 30_000, faster: Some(20_000) },
        // The faster clip could not be had.
        CueClips { first: 30_000, faster: None },
        // The faster clip does not fit either.
        CueClips { first: 48_000, faster: Some(25_000) },
    ];
    let mut track = FittedTrack::begin(&cues).unwrap();
    let mut progress = Vec::new();
    let mut laid = Vec::new();
    while let Some(turn) = track.turn(&cues) {
        progress.push((turn.current, turn.total));
        assert!(track.written_samples <= turn.slot.start_sample);
        laid.push(track.lay(&cues, answers[turn.current - 1], 0));
        let kept = laid.last().unwrap().cut.kept_samples as u64;
        assert_eq!(track.written_samples, turn.slot.start_sample + kept);
    }
    assert_eq!(progress, [(1, 4), (2, 4), (3, 4), (4, 4)]);
    assert_eq!(
        laid.iter().map(|laid| (laid.faster, laid.cut)).collect::<Vec<_>>(),
        [
            (false, ClipCut { kept_samples: 24_000, truncated: false }),
            (true, ClipCut { kept_samples: 20_000, truncated: false }),
            (false, ClipCut { kept_samples: 24_000, truncated: true }),
            (true, ClipCut { kept_samples: 24_000, truncated: true }),
        ]
    );
    assert_eq!(closing_sample(&cues), 120_000);
    let report = track.report(vec![7]);
    assert_eq!((report.mp3, report.adjusted_count, report.truncated_count), (vec![7], 2, 2));
}

#[test]
fn a_clip_at_full_speed_is_only_cut() {
    let cues = [cue(0, 1_000)];
    let mut track = FittedTrack::begin(&cues).unwrap();
    let laid = track.lay(&cues, CueClips { first: 30_000, faster: Some(10) }, 100);
    assert!(!laid.faster);
    assert_eq!(laid.cut, ClipCut { kept_samples: 24_000, truncated: true });
    assert_eq!((track.adjusted_count, track.truncated_count), (0, 1));
}
