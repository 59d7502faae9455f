//! What recognised speech becomes on its way to subtitles, told in numbers.
//!
//! Audio is cut where it is quiet, times add up, sentences share the time of their utterance, and
//! cues keep their times unless they run into each other or beyond the audio.
use vstd::prelude::*;

use crate::asr;
use crate::asr::{Segment, SegmentChunk};
use crate::asr_laws;
use crate::grouping_laws;
use crate::subtitles;
use crate::subtitles::Cue;
use crate::text;

verus! {

/// The number of samples in a frame of 20 milliseconds; at least one.
pub open spec fn samples_in_frame(sample_rate: u32) -> int {
    if sample_rate < 50 {
        1
    } else {
        sample_rate * 20 / 1_000
    }
}

/// A window reaches from one frame to another, of which no frame within reach is quieter. Within
/// reach are the frames from 22 seconds behind the start of the window up to 26 seconds behind it.
/// Of frames that are equally quiet, the first one counts.
pub open spec fn ends_quietly(window: (int, int), energies: Seq<u32>, size: int, from: int, to: int) -> bool {
    &&& 0 <= from
    &&& window.0 == from * size
    &&& window.1 == to * size
    &&& from + 1_100 <= to < from + 1_300
    &&& from + 1_300 < energies.len()
    &&& forall|k: int| from + 1_100 <= k < from + 1_300 ==> energies[to] <= #[trigger] energies[k]
    &&& forall|k: int| from + 1_100 <= k < to ==> energies[to] < #[trigger] energies[k]
}

proof fn lemma_first_quietest(energies: Seq<u32>, from: int, to: int)
    requires
        0 <= from < to <= energies.len(),
        forall|k: int| 0 <= k < energies.len() ==> #[trigger] energies[k] < 0x8000_0000,
    ensures
        ({
            let at = asr::quietest(energies, from, to);
            &&& from <= at < to
            &&& forall|k: int| from <= k < to ==> energies[at] <= #[trigger] energies[k]
            &&& forall|k: int| from <= k < at ==> energies[at] < #[trigger] energies[k]
        }),
    decreases to - from,
{
    if from + 1 < to {
        lemma_first_quietest(energies, from, to - 1);
        assert(energies[to - 1] < 0x8000_0000);
        assert(energies[asr::quietest(energies, from, to - 1)] < 0x8000_0000);
    }
}

proof fn lemma_quiet_windows(sample_count: nat, energies: Seq<u32>, size: nat, start: int, i: int)
    requires
        0 <= start,
        forall|k: int| 0 <= k < energies.len() ==> #[trigger] energies[k] < 0x8000_0000,
        0 <= i < asr::windows_from(sample_count, energies, size, start).len() - 1,
    ensures
        exists|from: int, to: int| #[trigger]
            ends_quietly(
                asr::windows_from(sample_count, energies, size, start)[i],
                energies,
                size as int,
                from,
                to,
            ),
    decreases i,
{
    let all = asr::windows_from(sample_count, energies, size, start);
    if energies.len() - start > 1_300 {
        let split = asr::quietest(energies, start + 1_100, start + 1_300);
        lemma_first_quietest(energies, start + 1_100, start + 1_300);
        let rest = asr::windows_from(sample_count, energies, size, split);
        assert(all == seq![(start * size, split * size)] + rest);
        if i == 0 {
            assert(ends_quietly(all[0], energies, size as int, start, split));
        } else {
            assert(all[i] == rest[i - 1]);
            lemma_quiet_windows(sample_count, energies, size, split, i - 1);
        }
    }
}

/// Every window but the last one ends at the quietest frame within its reach, by the loudness of the
/// frames.
pub proof fn windows_end_where_it_is_quiet(
    sample_count: nat,
    energies: Seq<u32>,
    sample_rate: u32,
    i: int,
)
    requires
        forall|k: int| 0 <= k < energies.len() ==> #[trigger] energies[k] < 0x8000_0000,
        0 <= i < asr::audio_windows(sample_count, energies, sample_rate).len() - 1,
    ensures
        exists|from: int, to: int| #[trigger]
            ends_quietly(
                asr::audio_windows(sample_count, energies, sample_rate)[i],
                energies,
                samples_in_frame(sample_rate),
                from,
                to,
            ),
{
    lemma_quiet_windows(sample_count, energies, asr::frame_samples(sample_rate), 0, i);
    assert(asr::frame_samples(sample_rate) == samples_in_frame(sample_rate));
}

/// Audio of up to 26 seconds is recognised in one piece.
pub proof fn short_audio_is_one_window(sample_count: nat, energies: Seq<u32>, sample_rate: u32)
    requires
        sample_count > 0,
        energies.len() <= 1_300,
    ensures
        asr::audio_windows(sample_count, energies, sample_rate) == seq![(0int, sample_count as int)],
{
    assert(asr::audio_windows(sample_count, energies, sample_rate) =~= seq![
        (0int, sample_count as int),
    ]);
}

/// A segment is counted in sixteenths of a millisecond from the start of its window. It has times
/// when it begins inside of the window and lasts some milliseconds; what runs beyond the window is
/// dropped.
pub proof fn segment_times_add_up(window_start_ms: u64, window_end_ms: u64, first: nat, last: nat)
    requires
        window_start_ms + last <= u64::MAX,
    ensures
        ({
            let start = window_start_ms + first / 16;
            let end = if window_start_ms + last / 16 <= window_end_ms {
                window_start_ms + last / 16
            } else {
                window_end_ms as int
            };
            let bounds = asr::segment_bounds(window_start_ms, window_end_ms, first, last);
            &&& first < last && start < end ==> bounds == Some((start as u64, end as u64))
            &&& !(first < last && start < end) ==> bounds is None
        }),
{
    assert(first * 1_000 / 16_000 == first / 16) by {
        vstd::arithmetic::div_mod::lemma_div_multiples_vanish_quotient(1_000, first as int, 16);
    }
    assert(last * 1_000 / 16_000 == last / 16) by {
        vstd::arithmetic::div_mod::lemma_div_multiples_vanish_quotient(1_000, last as int, 16);
    }
}

/// A chunk that has times is heard from the start of its segment on: it comes out at these times, for
/// at least 80 milliseconds and not beyond the window, with its text, behind the chunks before it.
pub proof fn a_timed_chunk_is_kept(
    before: Seq<SegmentChunk>,
    chunk: SegmentChunk,
    from: u64,
    to: u64,
    segment_start_ms: u64,
    window_end_ms: u64,
)
    requires
        chunk.times == Some((from, to)),
        segment_start_ms + from + 80 <= u64::MAX,
        segment_start_ms + to <= u64::MAX,
        segment_start_ms + from < window_end_ms,
    ensures
        ({
            let all = asr::timed_chunks(before.push(chunk), segment_start_ms, window_end_ms);
            let earlier = asr::timed_chunks(before, segment_start_ms, window_end_ms);
            let end = if from + 80 <= to {
                segment_start_ms + to
            } else {
                segment_start_ms + from + 80
            };
            &&& all.len() == earlier.len() + 1
            &&& all.drop_last() == earlier
            &&& all.last().start_ms == segment_start_ms + from
            &&& all.last().end_ms == (if end <= window_end_ms {
                end
            } else {
                window_end_ms as int
            })
            &&& all.last().text == chunk.text@
        }),
{
    assert(before.push(chunk).drop_last() =~= before);
    let all = asr::timed_chunks(before.push(chunk), segment_start_ms, window_end_ms);
    let earlier = asr::timed_chunks(before, segment_start_ms, window_end_ms);
    assert(all.drop_last() =~= earlier);
}

/// A chunk without times, or one that begins behind the window, adds nothing.
pub proof fn other_chunks_are_left_out(
    before: Seq<SegmentChunk>,
    chunk: SegmentChunk,
    segment_start_ms: u64,
    window_end_ms: u64,
)
    requires
        match chunk.times {
            None => true,
            Some((from, _)) => segment_start_ms + from >= window_end_ms,
        },
    ensures
        asr::timed_chunks(before.push(chunk), segment_start_ms, window_end_ms) == asr::timed_chunks(
            before,
            segment_start_ms,
            window_end_ms,
        ),
{
    assert(before.push(chunk).drop_last() =~= before);
}

/// A segment none of whose chunks has times is heard as a whole, for at least a fifth of a second.
pub proof fn a_segment_without_times_is_heard_whole(
    segment: Segment,
    window_start_ms: u64,
    window_end_ms: u64,
)
    requires
        forall|i: int| 0 <= i < segment.chunks@.len() ==> (#[trigger] segment.chunks@[i]).times is None,
        text::is_visible(segment.text@),
        segment.first_sample < segment.end_sample,
        window_start_ms + segment.end_sample <= u64::MAX,
        window_end_ms + 200 <= u64::MAX,
        window_start_ms + segment.first_sample / 16 < window_end_ms,
        segment.first_sample / 16 < segment.end_sample / 16,
    ensures
        ({
            let found = asr::segment_cues(segment, window_start_ms, window_end_ms);
            let start = window_start_ms + segment.first_sample / 16;
            let end = if window_start_ms + segment.end_sample / 16 <= window_end_ms {
                window_start_ms + segment.end_sample / 16
            } else {
                window_end_ms as int
            };
            &&& found.len() == 1
            &&& found[0].start_ms == start
            &&& found[0].end_ms == (if end >= start + 200 {
                end
            } else {
                start + 200
            })
            &&& found[0].text == segment.text@
        }),
{
    segment_times_add_up(
        window_start_ms,
        window_end_ms,
        segment.first_sample as nat,
        segment.end_sample as nat,
    );
    text::lemma_trimmed_visible(segment.text@);
}

/// A cue keeps its end where that lies inside of the audio, at least 20 milliseconds before the next
/// cue, and not within 120 milliseconds of its own start. The last cue keeps it inside of the audio.
pub proof fn a_cue_in_its_place_stays(cues: Seq<Cue>, audio_duration_ms: u64, i: int)
    requires
        0 <= i < cues.len(),
        cues[i].end_ms <= audio_duration_ms,
        i + 1 < cues.len() ==> cues[i].end_ms + 20 <= cues[i + 1].start_ms && cues[i].start_ms + 120
            <= cues[i].end_ms,
    ensures
        asr::bounded(cues, audio_duration_ms)[i] == cues[i],
{
}

/// A cue that runs into the next one ends 20 milliseconds before it, if it is then shown for 120
/// milliseconds at least; and no cue is shown for longer than before but to reach these.
pub proof fn a_cue_gives_way_to_the_next(cues: Seq<Cue>, audio_duration_ms: u64, i: int)
    requires
        0 <= i < cues.len() - 1,
        cues[i].start_ms + 140 <= cues[i + 1].start_ms,
    ensures
        ({
            let end = asr::bounded(cues, audio_duration_ms)[i].end_ms;
            &&& cues[i + 1].start_ms < cues[i].end_ms + 20 && cues[i + 1].start_ms
                <= audio_duration_ms ==> end == cues[i + 1].start_ms - 20
            &&& end <= cues[i].end_ms || end == cues[i].start_ms + 120
        }),
{
}

/// The time of an utterance is shared among its sentences in proportion to their lengths: a sentence
/// begins when its share of the characters has been spoken, and stays until the next one begins. The
/// last one stays to the end. None is gone within a fifth of a second.
pub proof fn sentences_share_the_time(start_ms: u64, end_ms: u64, s: Seq<char>, i: int)
    requires
        start_ms < end_ms,
        end_ms + 200 <= u64::MAX,
        0 <= i < asr::utterance_cues(start_ms, end_ms, s).len(),
    ensures
        ({
            let cues = asr::utterance_cues(start_ms, end_ms, s);
            let begin = |n: int|
                start_ms + (end_ms - start_ms) * characters(cues, n) / characters(
                    cues,
                    cues.len() as int,
                ) as int;
            let until = if i + 1 < cues.len() {
                begin(i + 1)
            } else {
                end_ms as int
            };
            &&& cues[i].start_ms == begin(i)
            &&& cues[i].end_ms == (if until >= begin(i) + 200 {
                until
            } else {
                begin(i) + 200
            })
            &&& start_ms <= begin(i) < end_ms
            &&& i == 0 ==> cues[i].start_ms == start_ms
            &&& i + 1 == cues.len() ==> cues[i].end_ms >= end_ms
        }),
{
    let cues = asr::utterance_cues(start_ms, end_ms, s);
    let parts = asr::sentences(asr::recognized(s));
    let n = parts.len() as int;
    assert(cues.len() == n);
    assert(forall|k: int| 0 <= k < n ==> (#[trigger] cues[k]).text == parts[k]);
    asr::lemma_sentences_visible(asr::recognized(s), 0);
    lemma_characters(cues, parts, i);
    lemma_characters(cues, parts, n);
    if i + 1 < n {
        lemma_characters(cues, parts, i + 1);
        lemma_share(start_ms, end_ms, parts, i + 1);
    }
    lemma_share(start_ms, end_ms, parts, i);
    if i == 0 {
        assert((end_ms - start_ms) * 0 / characters(cues, n) as int == 0);
    }
}

/// The number of characters of the first `n` cues.
pub open spec fn characters(cues: Seq<Cue>, n: int) -> nat
    decreases n,
{
    if n <= 0 {
        0
    } else {
        characters(cues, n - 1) + cues[n - 1].text.len()
    }
}

proof fn lemma_characters(cues: Seq<Cue>, parts: Seq<Seq<char>>, n: int)
    requires
        cues.len() == parts.len(),
        forall|k: int| 0 <= k < parts.len() ==> (#[trigger] cues[k]).text == parts[k],
        n <= parts.len(),
    ensures
        characters(cues, n) == asr::weight(parts, n),
    decreases n,
{
    if n > 0 {
        lemma_characters(cues, parts, n - 1);
        assert(cues[n - 1].text == parts[n - 1]);
    }
}

proof fn lemma_share(start_ms: u64, end_ms: u64, parts: Seq<Seq<char>>, n: int)
    requires
        start_ms < end_ms,
        0 <= n < parts.len(),
        forall|k: int| 0 <= k < parts.len() ==> (#[trigger] parts[k]).len() > 0,
    ensures
        start_ms <= asr::spoken_until(start_ms, end_ms, parts, n) < end_ms,
        asr::weight(parts, parts.len() as int) > 0,
{
    lemma_weight_below(parts, n, parts.len() as int);
    let part = asr::weight(parts, n) as int;
    let all = asr::weight(parts, parts.len() as int) as int;
    let time = end_ms - start_ms;
    assert(0 <= time * part / all < time) by (nonlinear_arith)
        requires
            0 <= part < all,
            time > 0,
    ;
}

proof fn lemma_weight_below(parts: Seq<Seq<char>>, n: int, m: int)
    requires
        0 <= n < m <= parts.len(),
        forall|k: int| 0 <= k < parts.len() ==> (#[trigger] parts[k]).len() > 0,
    ensures
        asr::weight(parts, n) < asr::weight(parts, m),
    decreases m,
{
    assert(parts[m - 1].len() > 0);
    if n < m - 1 {
        lemma_weight_below(parts, n, m - 1);
    }
}

/// A Latin letter or a digit.
pub open spec fn is_latin(c: char) -> bool {
    'a' <= c <= 'z' || 'A' <= c <= 'Z' || '0' <= c <= '9'
}

/// Whether a sentence ends at position `k` when it has begun at the beginning of the text: behind a
/// sentence mark, behind a full stop from the twelfth character on, and from the 28th character on
/// behind anything that is no Latin letter or digit.
pub open spec fn ends_sentence_at(s: Seq<char>, k: int) -> bool {
    let c = s[k];
    c == '。' || c == '！' || c == '？' || c == '；' || c == '!' || c == '?' || c == ';' || (c == '.' && k
        >= 11) || (k >= 27 && !is_latin(c))
}

proof fn lemma_next_cut_shift(s: Seq<char>, start: int, at: int)
    requires
        0 <= start <= at <= s.len(),
    ensures
        match asr::next_cut(s.skip(start), 0, at - start) {
            Some(cut) => asr::next_cut(s, start, at) == Some(cut + start),
            None => asr::next_cut(s, start, at) is None,
        },
    decreases s.len() - at,
{
    let rest = s.skip(start);
    if at < s.len() {
        assert(rest[at - start] == s[at]);
        if !asr::cuts_after(s[at], at + 1 - start) {
            lemma_next_cut_shift(s, start, at + 1);
        }
    }
}

proof fn lemma_sentences_shift(s: Seq<char>, start: int)
    requires
        0 <= start <= s.len(),
    ensures
        asr::sentences_from(s, start) == asr::sentences(s.skip(start)),
    decreases s.len() - start,
{
    let rest = s.skip(start);
    lemma_next_cut_shift(s, start, start);
    asr::lemma_next_cut(s, start, start);
    asr::lemma_next_cut(rest, 0, 0);
    assert(rest.skip(0) =~= rest);
    match asr::next_cut(s, start, start) {
        None => {},
        Some(cut) => {
            lemma_sentences_shift(s, cut);
            lemma_sentences_shift(rest, cut - start);
            assert(rest.skip(cut - start) =~= s.skip(cut));
            assert(rest.subrange(0, cut - start) =~= s.subrange(start, cut));
        },
    }
}

proof fn lemma_cut_at(s: Seq<char>, at: int, n: int)
    requires
        0 <= at <= n <= s.len(),
        forall|k: int| at <= k < n ==> !ends_sentence_at(s, k),
    ensures
        n < s.len() && ends_sentence_at(s, n) ==> asr::next_cut(s, 0, at) == Some(n + 1),
        n == s.len() ==> asr::next_cut(s, 0, at) is None,
    decreases n - at,
{
    if at < n {
        assert(!ends_sentence_at(s, at));
        lemma_cut_at(s, at + 1, n);
    }
}

/// A text is cut behind the first place at which a sentence ends, and what follows is cut in the same
/// way. White space around a sentence is dropped.
pub proof fn a_sentence_is_cut_off_where_it_ends(s: Seq<char>, n: int)
    requires
        0 < n <= s.len(),
        ends_sentence_at(s, n - 1),
        forall|k: int| 0 <= k < n - 1 ==> !ends_sentence_at(s, k),
        text::is_visible(s.take(n)),
    ensures
        asr::sentences(s) == seq![text::trimmed(s.take(n))] + asr::sentences(s.skip(n)),
{
    lemma_cut_at(s, 0, n - 1);
    lemma_sentences_shift(s, n);
    text::lemma_trimmed_visible(s.take(n));
    assert(s.subrange(0, n) =~= s.take(n));
}

/// A text in which no sentence ends is one sentence.
pub proof fn a_text_without_an_end_is_one_sentence(s: Seq<char>)
    requires
        text::is_visible(s),
        forall|k: int| 0 <= k < s.len() ==> !ends_sentence_at(s, k),
    ensures
        asr::sentences(s) == seq![text::trimmed(s)],
{
    lemma_cut_at(s, 0, s.len() as int);
    text::lemma_trimmed_visible(s);
    assert(s.skip(0) =~= s);
}

proof fn lemma_word_len_sum(t: Seq<char>, rest: Seq<char>)
    requires
        rest.len() > 0,
        text::is_space(rest[0]),
    ensures
        text::word_len(t + rest) == text::word_len(t),
    decreases t.len(),
{
    let all = t + rest;
    if t.len() > 0 {
        assert(all[0] == t[0]);
        assert(all.skip(1) =~= t.skip(1) + rest);
        lemma_word_len_sum(t.skip(1), rest);
    } else {
        assert(all =~= rest);
    }
}

proof fn lemma_blank_front(s: Seq<char>, rest: Seq<char>)
    requires
        !text::is_visible(s),
    ensures
        text::trimmed_start(s + rest) == text::trimmed_start(rest),
    decreases s.len(),
{
    if s.len() > 0 {
        assert((s + rest)[0] == s[0]);
        assert(text::is_space(s[0]));
        assert((s + rest).skip(1) =~= s.skip(1) + rest);
        assert(!text::is_visible(s.skip(1))) by {
            if text::is_visible(s.skip(1)) {
                let i = choose|i: int|
                    0 <= i < s.skip(1).len() && !text::is_space(#[trigger] s.skip(1)[i]);
                assert(s[i + 1] == s.skip(1)[i]);
            }
        }
        lemma_blank_front(s.skip(1), rest);
    } else {
        assert(s + rest =~= rest);
    }
}

proof fn lemma_one_word(word: Seq<char>)
    requires
        word.len() > 0,
        asr_laws::is_unspaced(word),
    ensures
        text::trimmed_start(word) == word,
        text::words(word) == seq![word],
{
    assert(!text::is_space(word[0]));
    text::lemma_word_len(word);
    if text::word_len(word) < word.len() {
        assert(!text::is_space(word[text::word_len(word) as int]));
    }
    assert(word.take(word.len() as int) =~= word);
    assert(word.skip(word.len() as int) =~= Seq::<char>::empty());
    assert(text::words(Seq::<char>::empty()) == Seq::<Seq<char>>::empty());
    assert(text::words(word) =~= seq![word]);
}

proof fn lemma_words_push(s: Seq<char>, space: char, word: Seq<char>)
    requires
        text::is_space(space),
        word.len() > 0,
        asr_laws::is_unspaced(word),
    ensures
        text::words(s + seq![space] + word) == text::words(s).push(word),
    decreases s.len(),
{
    let tail = seq![space] + word;
    let all = s + seq![space] + word;
    assert(all =~= s + tail);
    grouping_laws::lemma_heard(s);
    if !text::is_visible(s) {
        lemma_blank_front(s, tail);
        assert(tail.skip(1) =~= word);
        assert(text::trimmed_start(tail) == text::trimmed_start(word));
        lemma_one_word(word);
        assert(text::trimmed_start(all) == word);
        assert(text::words(all) == text::words(word));
        assert(text::words(s).push(word) =~= seq![word]);
    } else {
        grouping_laws::lemma_trimmed_start_sum(s, tail);
        let t = text::trimmed_start(s);
        text::lemma_trimmed_len(s);
        text::lemma_trimmed_start(s);
        text::lemma_word_len(t);
        lemma_word_len_sum(t, tail);
        let n = text::word_len(t) as int;
        let rest = t.skip(n);
        assert((t + tail).take(n) =~= t.take(n));
        assert((t + tail).skip(n) =~= rest + seq![space] + word);
        lemma_words_push(rest, space, word);
        assert(text::words(all) =~= seq![t.take(n)] + text::words(rest).push(word));
        assert(text::words(s).push(word) =~= seq![t.take(n)] + text::words(rest).push(word));
    }
}

/// A word behind white space is put behind what is before it: with one space between two Latin words,
/// and with none otherwise. A first word stands alone.
pub proof fn a_space_stands_between_latin_words(s: Seq<char>, space: char, word: Seq<char>)
    requires
        text::is_space(space),
        word.len() > 0,
        forall|k: int| 0 <= k < word.len() ==> !text::is_space(#[trigger] word[k]),
    ensures
        ({
            let before = asr::recognized(s);
            let all = asr::recognized(s + seq![space] + word);
            &&& !text::is_visible(s) ==> all == word
            &&& text::is_visible(s) && is_latin(before.last()) && is_latin(word[0]) ==> all == before
                + seq![' '] + word
            &&& text::is_visible(s) && !(is_latin(before.last()) && is_latin(word[0])) ==> all
                == before + word
        }),
        asr::recognized(word) == word,
{
    lemma_words_push(s, space, word);
    lemma_one_word(word);
    grouping_laws::lemma_heard(s);
    let words = text::words(s);
    let more = words.push(word);
    assert(more.drop_last() =~= words);
    assert(more.last() == word);
    if words.len() == 0 {
        assert(more =~= seq![word]);
    } else {
        let before = asr::recognized(s);
        assert(before + Seq::<char>::empty() + word =~= before + word);
    }
}

} // verus!
