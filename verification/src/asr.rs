//! Speech recognition: from the chunks that a model recognises to readable subtitles.
//!
//! Whisper answers with small timed chunks of text. The functions here choose the audio windows
//! that are handed to it, discard what it makes up beyond the real audio, group the chunks into
//! cues of a readable length without breaking a Latin word, and write the result as SRT or WebVTT.
use vstd::prelude::*;

use crate::subtitles;
use crate::subtitles::{SubtitleCue, Cue};
use crate::text;

verus! {

/// The longest cue, in characters, that chunks are grouped into.
pub const MAX_CUE_CHARACTERS: usize = 28;

/// The longest cue, in milliseconds, that chunks are grouped into.
pub const MAX_CUE_DURATION_MS: u64 = 5_500;

/// How long a cue has to last before the end of a sentence closes it.
pub const MIN_SENTENCE_CUE_MS: u64 = 700;

/// The sample rate in which Whisper counts positions.
pub const WHISPER_SAMPLE_RATE: u64 = 16_000;

/// A piece of recognised text and the time at which it was spoken.
#[derive(Debug)]
pub struct TimedChunk {
    pub start_ms: u64,
    pub end_ms: u64,
    pub text: String,
}

impl View for TimedChunk {
    type V = Cue;

    open spec fn view(&self) -> Cue {
        Cue { start_ms: self.start_ms, end_ms: self.end_ms, text: self.text@ }
    }
}

/// The contents of a list of chunks.
pub open spec fn chunks_of(chunks: Seq<TimedChunk>) -> Seq<Cue> {
    Seq::new(chunks.len(), |i: int| chunks[i]@)
}

/// Whether a space stands between two words of recognised text: only between Latin words.
pub open spec fn spaced(previous: char, next: char) -> bool {
    text::is_ascii_word(previous) && text::is_ascii_word(next)
}

pub fn needs_word_space(previous: char, next: char) -> (needed: bool)
    ensures
        needed == spaced(previous, next),
{
    text::is_ascii_alphanumeric(previous) && text::is_ascii_alphanumeric(next)
}

/// The words one after the other, with a space only between Latin words.
pub open spec fn tight(words: Seq<Seq<char>>) -> Seq<char>
    decreases words.len(),
{
    if words.len() == 0 {
        Seq::empty()
    } else if words.len() == 1 {
        words[0]
    } else {
        let before = tight(words.drop_last());
        before + (if spaced(before.last(), words.last()[0]) {
            seq![' ']
        } else {
            Seq::empty()
        }) + words.last()
    }
}

/// Recognised text in its readable form.
pub open spec fn recognized(s: Seq<char>) -> Seq<char> {
    tight(text::words(s))
}

/// Removes the white space of recognised text but for one space between two Latin words.
pub fn normalize_recognized_text(s: &[char]) -> (output: Vec<char>)
    ensures
        output@ == recognized(s@),
{
    let words = text::split_whitespace(s);
    let ghost all = text::texts(words@);
    let mut output: Vec<char> = Vec::new();
    let mut i: usize = 0;
    proof {
        text::lemma_words_not_empty(s@);
    }
    while i < words.len()
        invariant
            i <= words.len(),
            all == text::texts(words@),
            forall|k: int| 0 <= k < all.len() ==> (#[trigger] all[k]).len() > 0,
            output@ == tight(all.take(i as int)),
            i > 0 ==> output@.len() > 0,
        decreases words.len() - i,
    {
        let word = words[i];
        assert(all[i as int] == word@);
        let ghost before = all.take(i as int);
        let ghost after = all.take(i as int + 1);
        assert(after.drop_last() == before);
        assert(after.last() == word@);
        if i > 0 {
            if needs_word_space(output[output.len() - 1], word[0]) {
                output.push(' ');
            }
            text::append_to(&mut output, word);
            assert(output@ == tight(after));
        } else {
            text::append_to(&mut output, word);
            assert(output@ == after[0]);
        }
        i += 1;
    }
    assert(all.take(i as int) == all);
    output
}

/// The text so far with the next chunk behind it.
pub open spec fn appended(target: Seq<char>, next: Seq<char>) -> Seq<char> {
    if target.len() == 0 {
        text::trimmed_start(next)
    } else {
        target + next
    }
}

pub fn append_recognized_text(target: &mut Vec<char>, next: &[char])
    ensures
        final(target)@ == appended(old(target)@, next@),
{
    if target.len() == 0 {
        text::append_to(target, text::trim_start(next));
    } else {
        text::append_to(target, next);
    }
}

/// A punctuation mark that ends a sentence.
pub open spec fn is_sentence_mark(c: char) -> bool {
    c == '。' || c == '！' || c == '？' || c == '；' || c == '!' || c == '?' || c == ';'
}

fn sentence_mark(c: char) -> (mark: bool)
    ensures
        mark == is_sentence_mark(c),
{
    c == '。' || c == '！' || c == '？' || c == '；' || c == '!' || c == '?' || c == ';'
}

/// The text ends with a sentence, perhaps with white space behind it.
pub open spec fn sentence_ended(s: Seq<char>) -> bool {
    text::trimmed_end(s).len() > 0 && is_sentence_mark(text::trimmed_end(s).last())
}

pub fn ends_sentence(s: &[char]) -> (ended: bool)
    ensures
        ended == sentence_ended(s@),
{
    let trimmed = text::trim_end(s);
    trimmed.len() > 0 && sentence_mark(trimmed[trimmed.len() - 1])
}

/// The second text goes on with a Latin word that the first one breaks off.
pub open spec fn word_continues(left: Seq<char>, right: Seq<char>) -> bool {
    left.len() > 0 && right.len() > 0 && text::is_ascii_word(left.last()) && text::is_ascii_word(
        right[0],
    )
}

pub fn continues_ascii_word(left: &[char], right: &[char]) -> (continues: bool)
    ensures
        continues == word_continues(left@, right@),
{
    left.len() > 0 && right.len() > 0 && text::is_ascii_alphanumeric(left[left.len() - 1])
        && text::is_ascii_alphanumeric(right[0])
}

/// Whether a sentence of `count` characters ends with its last character `c`.
pub open spec fn cuts_after(c: char, count: int) -> bool {
    is_sentence_mark(c) || (c == '.' && count >= 12) || (count >= MAX_CUE_CHARACTERS
        && !text::is_ascii_word(c))
}

/// The end of the sentence that begins at `start`, looked for from `at` on: the position behind
/// the character that ends it, or `None` when the text ends first.
pub open spec fn next_cut(s: Seq<char>, start: int, at: int) -> Option<int>
    decreases s.len() - at,
{
    if at >= s.len() {
        None
    } else if cuts_after(s[at], at + 1 - start) {
        Some(at + 1)
    } else {
        next_cut(s, start, at + 1)
    }
}

/// A one-element sequence with the trimmed text, or none when nothing is left of it.
pub open spec fn visible_piece(s: Seq<char>) -> Seq<Seq<char>> {
    if text::trimmed(s).len() > 0 {
        seq![text::trimmed(s)]
    } else {
        Seq::empty()
    }
}

/// The sentences of a text from `start` on.
pub open spec fn sentences_from(s: Seq<char>, start: int) -> Seq<Seq<char>>
    decreases s.len() - start,
    via sentences_decreases
{
    match next_cut(s, start, start) {
        None => visible_piece(s.skip(start)),
        Some(cut) => visible_piece(s.subrange(start, cut)) + sentences_from(s, cut),
    }
}

#[via_fn]
proof fn sentences_decreases(s: Seq<char>, start: int) {
    lemma_next_cut(s, start, start);
}

/// The sentences of a text.
pub open spec fn sentences(s: Seq<char>) -> Seq<Seq<char>> {
    sentences_from(s, 0)
}

pub proof fn lemma_next_cut(s: Seq<char>, start: int, at: int)
    ensures
        next_cut(s, start, at) is Some ==> at < next_cut(s, start, at)->0 <= s.len() && cuts_after(
            s[next_cut(s, start, at)->0 - 1],
            next_cut(s, start, at)->0 - start,
        ),
    decreases s.len() - at,
{
    if at < s.len() && !cuts_after(s[at], at + 1 - start) {
        lemma_next_cut(s, start, at + 1);
    }
}

/// The strings that a list stands for.
pub open spec fn strings_of(parts: Seq<String>) -> Seq<Seq<char>> {
    Seq::new(parts.len(), |i: int| parts[i]@)
}

fn push_visible(parts: &mut Vec<String>, piece: &[char])
    ensures
        strings_of(final(parts)@) == strings_of(old(parts)@) + visible_piece(piece@),
{
    let trimmed = text::trim(piece);
    if trimmed.len() > 0 {
        let ghost before = parts@;
        parts.push(text::string_of(trimmed));
        assert(strings_of(parts@) == strings_of(before) + seq![trimmed@]);
    } else {
        assert(strings_of(parts@) + Seq::<Seq<char>>::empty() == strings_of(parts@));
    }
}

/// Splits a text into sentences of a readable length. A sentence ends with a sentence mark, with a
/// full stop when it is long enough, and at the length limit as soon as no Latin word goes on.
pub fn split_sentences(s: &[char]) -> (parts: Vec<String>)
    ensures
        strings_of(parts@) == sentences(s@),
{
    let mut parts: Vec<String> = Vec::new();
    let mut start: usize = 0;
    let mut at: usize = 0;
    while at < s.len()
        invariant
            start <= at <= s.len(),
            sentences(s@) == strings_of(parts@) + sentences_from(s@, start as int),
            next_cut(s@, start as int, start as int) == next_cut(s@, start as int, at as int),
        decreases s.len() - at,
    {
        let c = s[at];
        let count: usize = at + 1 - start;
        at += 1;
        if sentence_mark(c) || (c == '.' && count >= 12) || (count >= MAX_CUE_CHARACTERS
            && !text::is_ascii_alphanumeric(c)) {
            let ghost before = parts@;
            let piece = text::part(s, start, at);
            push_visible(&mut parts, piece);
            assert(strings_of(parts@) + sentences_from(s@, at as int) == strings_of(before) + (
            visible_piece(piece@) + sentences_from(s@, at as int)));
            start = at;
        }
    }
    let rest = text::part(s, start, s.len());
    assert(rest@ == s@.skip(start as int));
    push_visible(&mut parts, rest);
    parts
}

/// The number of characters of the first `n` texts.
pub open spec fn weight(parts: Seq<Seq<char>>, n: int) -> nat
    decreases n,
{
    if n <= 0 {
        0
    } else {
        weight(parts, n - 1) + parts[n - 1].len()
    }
}

/// The moment at which the first `n` of the sentences have been spoken, when each takes a time in
/// proportion to its length.
pub open spec fn spoken_until(start_ms: u64, end_ms: u64, parts: Seq<Seq<char>>, n: int) -> int {
    start_ms + (end_ms - start_ms) * weight(parts, n) / weight(parts, parts.len() as int) as int
}

/// The later of two moments.
pub open spec fn later(a: u64, b: u64) -> u64 {
    if a >= b {
        a
    } else {
        b
    }
}

/// The earlier of two moments.
pub open spec fn earlier(a: u64, b: u64) -> u64 {
    if a <= b {
        a
    } else {
        b
    }
}

/// The cues of the sentences that were spoken between two moments.
pub open spec fn sentence_cues(start_ms: u64, end_ms: u64, parts: Seq<Seq<char>>) -> Seq<Cue> {
    Seq::new(
        parts.len(),
        |i: int|
            {
                let start = spoken_until(start_ms, end_ms, parts, i) as u64;
                let end = if i + 1 == parts.len() {
                    end_ms
                } else {
                    spoken_until(start_ms, end_ms, parts, i + 1) as u64
                };
                Cue {
                    start_ms: start,
                    end_ms: later(end, subtitles::ends_after(start, 200)),
                    text: parts[i],
                }
            },
    )
}

/// The cues of a longer utterance.
pub open spec fn utterance_cues(start_ms: u64, end_ms: u64, s: Seq<char>) -> Seq<Cue> {
    if end_ms <= start_ms {
        Seq::empty()
    } else {
        sentence_cues(start_ms, end_ms, sentences(recognized(s)))
    }
}

proof fn lemma_weight(parts: Seq<Seq<char>>, n: int, m: int)
    requires
        0 <= n <= m <= parts.len(),
    ensures
        weight(parts, n) <= weight(parts, m),
    decreases m - n,
{
    if n < m {
        lemma_weight(parts, n, m - 1);
    }
}

proof fn lemma_spoken_until(start_ms: u64, end_ms: u64, parts: Seq<Seq<char>>, n: int)
    requires
        start_ms < end_ms,
        0 <= n <= parts.len(),
        weight(parts, parts.len() as int) > 0,
    ensures
        start_ms <= spoken_until(start_ms, end_ms, parts, n) <= end_ms,
{
    lemma_weight(parts, n, parts.len() as int);
    let duration = end_ms - start_ms;
    let part = weight(parts, n) as int;
    let total = weight(parts, parts.len() as int) as int;
    assert(0 <= duration * part / total <= duration) by (nonlinear_arith)
        requires
            0 <= part <= total,
            total > 0,
            duration > 0,
    ;
}

/// Every sentence is visible.
pub proof fn lemma_sentences_visible(s: Seq<char>, start: int)
    ensures
        forall|i: int|
            0 <= i < sentences_from(s, start).len() ==> (#[trigger] sentences_from(s, start)[i]).len() > 0,
    decreases s.len() - start,
{
    lemma_next_cut(s, start, start);
    match next_cut(s, start, start) {
        None => {},
        Some(cut) => {
            lemma_sentences_visible(s, cut);
            let head = visible_piece(s.subrange(start, cut));
            let all = sentences_from(s, start);
            assert forall|i: int| 0 <= i < all.len() implies (#[trigger] all[i]).len() > 0 by {
                if i >= head.len() {
                    assert(all[i] == sentences_from(s, cut)[i - head.len()]);
                }
            }
        },
    }
}

proof fn lemma_weight_sum(a: Seq<Seq<char>>, b: Seq<Seq<char>>, n: int)
    requires
        0 <= n <= b.len(),
    ensures
        weight(a + b, a.len() + n) == weight(a, a.len() as int) + weight(b, n),
    decreases n,
{
    if n > 0 {
        lemma_weight_sum(a, b, n - 1);
        assert((a + b)[a.len() + n - 1] == b[n - 1]);
    } else {
        lemma_weight_prefix(a, b, a.len() as int);
    }
}

proof fn lemma_weight_prefix(a: Seq<Seq<char>>, b: Seq<Seq<char>>, n: int)
    requires
        0 <= n <= a.len(),
    ensures
        weight(a + b, n) == weight(a, n),
    decreases n,
{
    if n > 0 {
        lemma_weight_prefix(a, b, n - 1);
        assert((a + b)[n - 1] == a[n - 1]);
    }
}

/// The sentences of a text are together no longer than the text.
pub proof fn lemma_sentences_weight(s: Seq<char>, start: int)
    requires
        0 <= start <= s.len(),
    ensures
        weight(sentences_from(s, start), sentences_from(s, start).len() as int) <= s.len() - start,
    decreases s.len() - start,
{
    lemma_next_cut(s, start, start);
    match next_cut(s, start, start) {
        None => {
            lemma_visible_piece_weight(s.skip(start));
        },
        Some(cut) => {
            let head = visible_piece(s.subrange(start, cut));
            let rest = sentences_from(s, cut);
            lemma_sentences_weight(s, cut);
            lemma_visible_piece_weight(s.subrange(start, cut));
            lemma_weight_sum(head, rest, rest.len() as int);
        },
    }
}

proof fn lemma_visible_piece_weight(s: Seq<char>)
    ensures
        weight(visible_piece(s), visible_piece(s).len() as int) <= s.len(),
{
    reveal_with_fuel(weight, 2);
    text::lemma_trimmed_len(s);
    text::lemma_trimmed_len(text::trimmed_start(s));
}

/// The moment that is `part` of `total` on the way through a duration.
fn spoken(start_ms: u64, duration: u64, part: usize, total: usize) -> (moment: u64)
    requires
        0 < total,
        part <= total,
        start_ms + duration <= u64::MAX,
    ensures
        moment == start_ms + duration as int * part as int / total as int,
{
    assert(0 <= duration * part <= 0xFFFF_FFFF_FFFF_FFFF * 0xFFFF_FFFF_FFFF_FFFF) by (nonlinear_arith)
        requires
            0 <= duration <= 0xFFFF_FFFF_FFFF_FFFF,
            0 <= part <= 0xFFFF_FFFF_FFFF_FFFF,
    ;
    assert(0 <= duration * part / total as int <= duration) by (nonlinear_arith)
        requires
            0 <= part <= total,
            total > 0,
            duration >= 0,
    ;
    let share: u128 = duration as u128 * part as u128 / total as u128;
    start_ms + share as u64
}

/// Splits what was spoken between two moments into one cue for each sentence.
pub fn cues_from_utterance(start_ms: u64, end_ms: u64, s: &[char]) -> (cues: Vec<SubtitleCue>)
    ensures
        subtitles::cues_of(cues@) == utterance_cues(start_ms, end_ms, s@),
{
    let mut cues: Vec<SubtitleCue> = Vec::new();
    if end_ms <= start_ms {
        assert(subtitles::cues_of(cues@) == Seq::<Cue>::empty());
        return cues;
    }
    let plain = normalize_recognized_text(s);
    let parts = split_sentences(plain.as_slice());
    let ghost all = strings_of(parts@);
    proof {
        lemma_sentences_visible(plain@, 0);
        lemma_sentences_weight(plain@, 0);
    }
    let mut total: usize = 0;
    let mut k: usize = 0;
    while k < parts.len()
        invariant
            k <= parts.len(),
            all == strings_of(parts@),
            weight(all, all.len() as int) <= plain.len(),
            total == weight(all, k as int),
        decreases parts.len() - k,
    {
        assert(all[k as int] == parts@[k as int]@);
        proof {
            lemma_weight(all, k as int + 1, all.len() as int);
        }
        total += text::chars_of(parts[k].as_str()).len();
        k += 1;
    }
    let duration: u64 = end_ms - start_ms;
    let mut elapsed: usize = 0;
    let mut i: usize = 0;
    while i < parts.len()
        invariant
            i <= parts.len(),
            start_ms < end_ms,
            duration == end_ms - start_ms,
            all == strings_of(parts@),
            forall|j: int| 0 <= j < all.len() ==> (#[trigger] all[j]).len() > 0,
            total == weight(all, all.len() as int),
            elapsed == weight(all, i as int),
            subtitles::cues_of(cues@) == sentence_cues(start_ms, end_ms, all).take(i as int),
        decreases parts.len() - i,
    {
        let ghost before = cues@;
        assert(all[i as int] == parts@[i as int]@);
        let length: usize = text::chars_of(parts[i].as_str()).len();
        proof {
            lemma_weight(all, i as int, all.len() as int);
            lemma_weight(all, i as int + 1, all.len() as int);
            lemma_spoken_until(start_ms, end_ms, all, i as int);
            lemma_spoken_until(start_ms, end_ms, all, i as int + 1);
        }
        let start = spoken(start_ms, duration, elapsed, total);
        elapsed += length;
        let end: u64 = if i + 1 == parts.len() {
            end_ms
        } else {
            spoken(start_ms, duration, elapsed, total)
        };
        let earliest = start.saturating_add(200);
        cues.push(
            SubtitleCue {
                start_ms: start,
                end_ms: if end >= earliest {
                    end
                } else {
                    earliest
                },
                text: parts[i].clone(),
            },
        );
        assert(subtitles::cues_of(cues@) == subtitles::cues_of(before).push(cues@.last()@));
        i += 1;
        assert(subtitles::cues_of(cues@) == sentence_cues(start_ms, end_ms, all).take(i as int));
    }
    assert(sentence_cues(start_ms, end_ms, all).take(i as int) == sentence_cues(
        start_ms,
        end_ms,
        all,
    ));
    cues
}

/// A one-element sequence with the cue of a text, or none when the text is empty.
pub open spec fn timed_cue(start_ms: u64, end_ms: u64, s: Seq<char>) -> Seq<Cue> {
    if recognized(s).len() == 0 {
        Seq::empty()
    } else {
        seq![
            Cue {
                start_ms,
                end_ms: later(end_ms, subtitles::ends_after(start_ms, 200)),
                text: recognized(s),
            },
        ]
    }
}

/// Closes the current cue.
pub fn push_timed_cue(cues: &mut Vec<SubtitleCue>, start_ms: u64, end_ms: u64, s: &mut Vec<char>)
    ensures
        subtitles::cues_of(final(cues)@) == subtitles::cues_of(old(cues)@) + timed_cue(
            start_ms,
            end_ms,
            old(s)@,
        ),
        final(s)@ == Seq::<char>::empty(),
{
    let normalized = normalize_recognized_text(s.as_slice());
    s.clear();
    let ghost before = cues@;
    if normalized.len() == 0 {
        assert(subtitles::cues_of(before) + Seq::<Cue>::empty() == subtitles::cues_of(before));
        return;
    }
    let earliest = start_ms.saturating_add(200);
    cues.push(
        SubtitleCue {
            start_ms,
            end_ms: if end_ms >= earliest {
                end_ms
            } else {
                earliest
            },
            text: text::string_of(normalized.as_slice()),
        },
    );
    assert(subtitles::cues_of(cues@) == subtitles::cues_of(before) + seq![cues@.last()@]);
}

/// The cues that are done, and the cue that is being put together.
#[verifier::ext_equal]
pub struct Grouping {
    pub cues: Seq<Cue>,
    pub text: Seq<char>,
    pub start_ms: u64,
    pub end_ms: u64,
}

/// The difference of two moments, zero when the first is not the later one.
pub open spec fn time_between(end: u64, start: u64) -> u64 {
    if end >= start {
        (end - start) as u64
    } else {
        0
    }
}

/// A chunk that is longer than a cue may be.
pub open spec fn is_oversized(chunk: Cue) -> bool {
    recognized(chunk.text).len() > MAX_CUE_CHARACTERS || time_between(chunk.end_ms, chunk.start_ms)
        > MAX_CUE_DURATION_MS
}

/// Whether the current cue would become too long with the chunk.
pub open spec fn would_overflow(state: Grouping, chunk: Cue) -> bool {
    state.text.len() + recognized(chunk.text).len() > MAX_CUE_CHARACTERS || time_between(
        chunk.end_ms,
        state.start_ms,
    ) > MAX_CUE_DURATION_MS
}

/// Closes the current cue.
pub open spec fn flushed(state: Grouping) -> Grouping {
    Grouping {
        cues: state.cues + timed_cue(state.start_ms, state.end_ms, state.text),
        text: Seq::empty(),
        ..state
    }
}

/// Takes in a chunk that is longer than a cue may be: it becomes one cue for each of its
/// sentences. The cue before it is closed first, unless the chunk goes on with its last word.
pub open spec fn with_oversized(state: Grouping, chunk: Cue) -> Grouping {
    if state.text.len() > 0 && word_continues(state.text, recognized(chunk.text)) {
        Grouping {
            cues: state.cues + utterance_cues(
                state.start_ms,
                later(chunk.end_ms, state.end_ms),
                appended(state.text, chunk.text),
            ),
            text: Seq::empty(),
            ..state
        }
    } else {
        let closed = flushed(state);
        Grouping {
            cues: closed.cues + utterance_cues(chunk.start_ms, chunk.end_ms, chunk.text),
            ..closed
        }
    }
}

/// Makes room for a chunk: the current cue is closed when it would become too long, unless the
/// chunk goes on with its last word. Says whether that word is to close the cue.
pub open spec fn with_room(state: Grouping, chunk: Cue) -> (Grouping, bool) {
    if state.text.len() == 0 {
        (Grouping { start_ms: chunk.start_ms, end_ms: chunk.end_ms, ..state }, false)
    } else {
        let overflow = would_overflow(state, chunk);
        let continues = word_continues(state.text, recognized(chunk.text));
        let open = if overflow && !continues {
            Grouping { start_ms: chunk.start_ms, ..flushed(state) }
        } else {
            state
        };
        (Grouping { end_ms: later(open.end_ms, chunk.end_ms), ..open }, overflow && continues)
    }
}

/// Takes in a chunk.
pub open spec fn with_chunk(state: Grouping, chunk: Cue) -> Grouping {
    if recognized(chunk.text).len() == 0 {
        state
    } else if is_oversized(chunk) {
        with_oversized(state, chunk)
    } else {
        let (room, closes) = with_room(state, chunk);
        let longer = Grouping { text: appended(room.text, chunk.text), ..room };
        if closes || (time_between(longer.end_ms, longer.start_ms) >= MIN_SENTENCE_CUE_MS
            && sentence_ended(longer.text)) {
            flushed(longer)
        } else {
            longer
        }
    }
}

/// The state after all of the chunks.
pub open spec fn grouping(chunks: Seq<Cue>) -> Grouping
    decreases chunks.len(),
{
    if chunks.len() == 0 {
        Grouping { cues: Seq::empty(), text: Seq::empty(), start_ms: 0, end_ms: 0 }
    } else {
        with_chunk(grouping(chunks.drop_last()), chunks.last())
    }
}

/// The cues that chunks are grouped into.
pub open spec fn grouped(chunks: Seq<Cue>) -> Seq<Cue> {
    flushed(grouping(chunks)).cues
}

fn add_cues(cues: &mut Vec<SubtitleCue>, more: Vec<SubtitleCue>)
    ensures
        subtitles::cues_of(final(cues)@) == subtitles::cues_of(old(cues)@) + subtitles::cues_of(
            more@,
        ),
{
    let ghost before = cues@;
    let mut more = more;
    let ghost added = more@;
    cues.append(&mut more);
    assert(subtitles::cues_of(cues@) == subtitles::cues_of(before) + subtitles::cues_of(added));
}

/// Groups recognised chunks into cues that are short enough to read.
pub fn group_timed_chunks_into_cues(chunks: &Vec<TimedChunk>) -> (cues: Vec<SubtitleCue>)
    ensures
        subtitles::cues_of(cues@) == grouped(chunks_of(chunks@)),
{
    let ghost all = chunks_of(chunks@);
    let mut cues: Vec<SubtitleCue> = Vec::new();
    let mut current: Vec<char> = Vec::new();
    let mut start: u64 = 0;
    let mut end: u64 = 0;
    let mut i: usize = 0;
    assert(subtitles::cues_of(cues@) == Seq::<Cue>::empty());
    while i < chunks.len()
        invariant
            i <= chunks.len(),
            all == chunks_of(chunks@),
            grouping(all.take(i as int)) == (Grouping {
                cues: subtitles::cues_of(cues@),
                text: current@,
                start_ms: start,
                end_ms: end,
            }),
        decreases chunks.len() - i,
    {
        let chunk = &chunks[i];
        let ghost state = grouping(all.take(i as int));
        assert(all.take(i as int + 1).drop_last() == all.take(i as int));
        assert(all.take(i as int + 1).last() == chunk@);
        i += 1;
        let chars = text::chars_of(chunk.text.as_str());
        let plain = normalize_recognized_text(chars.as_slice());
        if plain.len() == 0 {
            continue;
        }
        if plain.len() > MAX_CUE_CHARACTERS || chunk.end_ms.saturating_sub(chunk.start_ms)
            > MAX_CUE_DURATION_MS {
            if current.len() > 0 && continues_ascii_word(current.as_slice(), plain.as_slice()) {
                append_recognized_text(&mut current, chars.as_slice());
                let until: u64 = if chunk.end_ms >= end {
                    chunk.end_ms
                } else {
                    end
                };
                let more = cues_from_utterance(start, until, current.as_slice());
                add_cues(&mut cues, more);
                current.clear();
            } else {
                push_timed_cue(&mut cues, start, end, &mut current);
                let more = cues_from_utterance(chunk.start_ms, chunk.end_ms, chars.as_slice());
                add_cues(&mut cues, more);
            }
            continue;
        }
        let mut flush_after_word = false;
        if current.len() == 0 {
            start = chunk.start_ms;
            end = chunk.end_ms;
        } else {
            let length: u128 = current.len() as u128 + plain.len() as u128;
            if length > MAX_CUE_CHARACTERS as u128 || chunk.end_ms.saturating_sub(start)
                > MAX_CUE_DURATION_MS {
                if continues_ascii_word(current.as_slice(), plain.as_slice()) {
                    flush_after_word = true;
                } else {
                    push_timed_cue(&mut cues, start, end, &mut current);
                    start = chunk.start_ms;
                }
            }
            end = if end >= chunk.end_ms {
                end
            } else {
                chunk.end_ms
            };
        }
        append_recognized_text(&mut current, chars.as_slice());
        if flush_after_word || (end.saturating_sub(start) >= MIN_SENTENCE_CUE_MS && ends_sentence(
            current.as_slice(),
        )) {
            push_timed_cue(&mut cues, start, end, &mut current);
        }
    }
    assert(all.take(i as int) == all);
    push_timed_cue(&mut cues, start, end, &mut current);
    cues
}

/// The end of a cue within the audio and, where another cue follows, a little before that one
/// starts.
pub open spec fn bounded_end(cues: Seq<Cue>, i: int, audio_duration_ms: u64) -> u64 {
    let within = earlier(cues[i].end_ms, audio_duration_ms);
    if i + 1 < cues.len() {
        later(
            earlier(within, time_between(cues[i + 1].start_ms, 20)),
            subtitles::ends_after(cues[i].start_ms, 120),
        )
    } else {
        within
    }
}

/// The cues with their ends inside the audio and apart from each other.
pub open spec fn bounded(cues: Seq<Cue>, audio_duration_ms: u64) -> Seq<Cue> {
    Seq::new(
        cues.len(),
        |i: int|
            Cue {
                start_ms: cues[i].start_ms,
                end_ms: bounded_end(cues, i, audio_duration_ms),
                text: cues[i].text,
            },
    )
}

/// Keeps the cues inside the audio and apart from each other.
pub fn normalize_cue_boundaries(cues: Vec<SubtitleCue>, audio_duration_ms: u64) -> (kept: Vec<
    SubtitleCue,
>)
    ensures
        subtitles::cues_of(kept@) == bounded(subtitles::cues_of(cues@), audio_duration_ms),
{
    let ghost all = subtitles::cues_of(cues@);
    let mut kept: Vec<SubtitleCue> = Vec::new();
    let mut i: usize = 0;
    while i < cues.len()
        invariant
            i <= cues.len(),
            all == subtitles::cues_of(cues@),
            subtitles::cues_of(kept@) == bounded(all, audio_duration_ms).take(i as int),
        decreases cues.len() - i,
    {
        let ghost before = kept@;
        assert(all[i as int] == cues@[i as int]@);
        let start_ms = cues[i].start_ms;
        let mut end_ms: u64 = if cues[i].end_ms <= audio_duration_ms {
            cues[i].end_ms
        } else {
            audio_duration_ms
        };
        if i + 1 < cues.len() {
            assert(all[i + 1] == cues@[i + 1]@);
            let limit = cues[i + 1].start_ms.saturating_sub(20);
            if end_ms > limit {
                end_ms = limit;
            }
            let least = start_ms.saturating_add(120);
            if end_ms < least {
                end_ms = least;
            }
        }
        kept.push(SubtitleCue { start_ms, end_ms, text: cues[i].text.clone() });
        assert(subtitles::cues_of(kept@) == subtitles::cues_of(before).push(kept@.last()@));
        i += 1;
        assert(subtitles::cues_of(kept@) == bounded(all, audio_duration_ms).take(i as int));
    }
    assert(bounded(all, audio_duration_ms).take(i as int) == bounded(all, audio_duration_ms));
    kept
}

/// The analysis looks at the loudness of frames of this length.
pub const ANALYSIS_FRAME_MS: usize = 20;

/// The number of frames of a window before a place to cut it is looked for.
pub const TARGET_WINDOW_FRAMES: usize = 1_100;

/// The largest number of frames of a window.
pub const MAX_WINDOW_FRAMES: usize = 1_300;

/// The number of samples of one analysis frame.
pub open spec fn frame_samples(sample_rate: u32) -> nat {
    if sample_rate * 20 / 1_000 >= 1 {
        (sample_rate * 20 / 1_000) as nat
    } else {
        1
    }
}

/// The number of frames that cover all samples.
pub open spec fn frame_count(sample_count: nat, sample_rate: u32) -> nat {
    (sample_count + frame_samples(sample_rate) - 1) as nat / frame_samples(sample_rate)
}

pub fn analysis_frame_samples(sample_rate: u32) -> (samples: usize)
    ensures
        samples == frame_samples(sample_rate),
{
    let samples: u64 = sample_rate as u64 * ANALYSIS_FRAME_MS as u64 / 1_000;
    assert(samples == sample_rate * 20 / 1_000);
    assert(samples <= sample_rate);
    if samples >= 1 {
        samples as usize
    } else {
        1
    }
}

/// The place of a single-precision float, given by its bits, in the total order of all floats.
pub open spec fn float_order(bits: u32) -> int {
    if bits < 0x8000_0000 {
        bits as int
    } else {
        0x7FFF_FFFF - bits as int
    }
}

fn float_key(bits: u32) -> (key: i64)
    ensures
        key == float_order(bits),
{
    if bits < 0x8000_0000 {
        bits as i64
    } else {
        0x7FFF_FFFFi64 - bits as i64
    }
}

/// The first of the quietest frames from `from` up to `to`.
pub open spec fn quietest(energies: Seq<u32>, from: int, to: int) -> int
    decreases to - from,
{
    if to <= from + 1 {
        from
    } else {
        let before = quietest(energies, from, to - 1);
        if float_order(energies[to - 1]) < float_order(energies[before]) {
            to - 1
        } else {
            before
        }
    }
}

proof fn lemma_quietest(energies: Seq<u32>, from: int, to: int)
    requires
        from < to,
    ensures
        from <= quietest(energies, from, to) < to,
        forall|i: int|
            from <= i < to ==> float_order(energies[quietest(energies, from, to)]) <= float_order(
                #[trigger] energies[i],
            ),
    decreases to - from,
{
    if from + 1 < to {
        lemma_quietest(energies, from, to - 1);
    }
}

/// The windows from frame `start` on: as long as too much audio is left, a window ends at the
/// quietest of the last frames that it may have.
pub open spec fn windows_from(
    sample_count: nat,
    energies: Seq<u32>,
    samples_per_frame: nat,
    start: int,
) -> Seq<(int, int)>
    decreases energies.len() - start,
    via windows_from_decreases
{
    if energies.len() - start > MAX_WINDOW_FRAMES {
        let split = quietest(energies, start + TARGET_WINDOW_FRAMES, start + MAX_WINDOW_FRAMES);
        seq![(start * samples_per_frame, split * samples_per_frame)] + windows_from(
            sample_count,
            energies,
            samples_per_frame,
            split,
        )
    } else {
        seq![(start * samples_per_frame, sample_count as int)]
    }
}

#[via_fn]
proof fn windows_from_decreases(
    sample_count: nat,
    energies: Seq<u32>,
    samples_per_frame: nat,
    start: int,
) {
    lemma_quietest(energies, start + TARGET_WINDOW_FRAMES, start + MAX_WINDOW_FRAMES);
}

/// The windows into which audio is cut, as positions of its samples.
pub open spec fn audio_windows(sample_count: nat, energies: Seq<u32>, sample_rate: u32) -> Seq<
    (int, int),
> {
    if sample_count == 0 {
        Seq::empty()
    } else {
        windows_from(sample_count, energies, frame_samples(sample_rate), 0)
    }
}

/// A range of samples.
#[derive(Clone, Copy, Debug, PartialEq, Eq, Structural)]
pub struct SampleWindow {
    pub start: usize,
    pub end: usize,
}

impl SampleWindow {
    /// The number of samples of the window.
    pub fn len(&self) -> (length: usize)
        requires
            self.start <= self.end,
        ensures
            length == self.end - self.start,
    {
        self.end - self.start
    }
}

/// The positions of a list of windows.
pub open spec fn positions(windows: Seq<SampleWindow>) -> Seq<(int, int)> {
    Seq::new(windows.len(), |i: int| (windows[i].start as int, windows[i].end as int))
}

fn find_quietest(energies: &[u32], from: usize, to: usize) -> (at: usize)
    requires
        from < to <= energies.len(),
    ensures
        at == quietest(energies@, from as int, to as int),
        from <= at < to,
{
    let mut best: usize = from;
    let mut i: usize = from + 1;
    while i < to
        invariant
            from < i <= to <= energies.len(),
            from <= best < i,
            best == quietest(energies@, from as int, i as int),
        decreases to - i,
    {
        if float_key(energies[i]) < float_key(energies[best]) {
            best = i;
        }
        i += 1;
    }
    best
}

proof fn lemma_frame_start(sample_count: nat, sample_rate: u32, frame: int)
    requires
        0 <= frame < frame_count(sample_count, sample_rate),
    ensures
        0 <= frame * frame_samples(sample_rate) < sample_count,
{
    let size = frame_samples(sample_rate) as int;
    let count = sample_count as int;
    let frames = (count + size - 1) / size;
    assert(0 <= frame * size < count) by (nonlinear_arith)
        requires
            0 <= frame < frames,
            frames == (count + size - 1) / size,
            size >= 1,
            count >= 0,
    ;
}

/// Cuts audio into windows that stay clear of the blocks of half a minute in which Whisper works.
/// The loudness of each frame is given by the bits of a single-precision float.
pub fn split_audio_windows(sample_count: usize, energies: &[u32], sample_rate: u32) -> (windows: Vec<
    SampleWindow,
>)
    requires
        energies@.len() == frame_count(sample_count as nat, sample_rate),
    ensures
        positions(windows@) == audio_windows(sample_count as nat, energies@, sample_rate),
{
    let mut windows: Vec<SampleWindow> = Vec::new();
    if sample_count == 0 {
        assert(positions(windows@) == Seq::<(int, int)>::empty());
        return windows;
    }
    let size = analysis_frame_samples(sample_rate);
    let ghost count = sample_count as nat;
    proof {
        lemma_frames_positive(count, sample_rate);
    }
    let mut start: usize = 0;
    while energies.len() - start > MAX_WINDOW_FRAMES
        invariant
            start < energies.len(),
            count == sample_count,
            size == frame_samples(sample_rate),
            energies@.len() == frame_count(count, sample_rate),
            audio_windows(count, energies@, sample_rate) == positions(windows@) + windows_from(
                count,
                energies@,
                size as nat,
                start as int,
            ),
        decreases energies.len() - start,
    {
        let ghost before = windows@;
        let split = find_quietest(
            energies,
            start + TARGET_WINDOW_FRAMES,
            start + MAX_WINDOW_FRAMES,
        );
        proof {
            lemma_frame_start(count, sample_rate, start as int);
            lemma_frame_start(count, sample_rate, split as int);
        }
        windows.push(SampleWindow { start: start * size, end: split * size });
        assert(positions(windows@) + windows_from(count, energies@, size as nat, split as int)
            == positions(before) + (seq![(start * size, split * size)] + windows_from(
            count,
            energies@,
            size as nat,
            split as int,
        )));
        start = split;
    }
    let ghost before = windows@;
    proof {
        lemma_frame_start(count, sample_rate, start as int);
    }
    windows.push(SampleWindow { start: start * size, end: sample_count });
    assert(positions(windows@) == positions(before) + seq![(start * size, sample_count as int)]);
    windows
}

proof fn lemma_frames_positive(sample_count: nat, sample_rate: u32)
    requires
        sample_count > 0,
    ensures
        frame_count(sample_count, sample_rate) > 0,
{
    let size = frame_samples(sample_rate) as int;
    let count = sample_count as int;
    assert((count + size - 1) / size > 0) by (nonlinear_arith)
        requires
            count > 0,
            size >= 1,
    ;
}

/// The windows follow each other without a gap from the first sample to the last, none is empty,
/// and none is longer than the largest window.
pub proof fn windows_cover_all_samples(sample_count: nat, energies: Seq<u32>, sample_rate: u32)
    requires
        sample_count > 0,
        energies.len() == frame_count(sample_count, sample_rate),
    ensures
        ({
            let windows = audio_windows(sample_count, energies, sample_rate);
            &&& windows.len() > 0
            &&& windows[0].0 == 0
            &&& windows.last().1 == sample_count
            &&& forall|i: int| #![trigger windows[i]]
                0 <= i < windows.len() - 1 ==> windows[i].1 == windows[i + 1].0
            &&& forall|i: int| #![trigger windows[i]]
                0 <= i < windows.len() ==> windows[i].0 < windows[i].1 && windows[i].1 - windows[i].0
                    <= MAX_WINDOW_FRAMES * frame_samples(sample_rate)
        }),
{
    lemma_frames_positive(sample_count, sample_rate);
    lemma_windows_from(sample_count, energies, sample_rate, 0);
}

/// Every window is shorter than the thirty seconds that the recogniser takes at once. At less than
/// 44 samples a second a frame, which holds at least one sample, lasts too long for that.
pub proof fn windows_are_shorter_than_thirty_seconds(
    sample_count: nat,
    energies: Seq<u32>,
    sample_rate: u32,
    i: int,
)
    requires
        sample_rate >= 44,
        energies.len() == frame_count(sample_count, sample_rate),
        0 <= i < audio_windows(sample_count, energies, sample_rate).len(),
    ensures
        ({
            let window = audio_windows(sample_count, energies, sample_rate)[i];
            window.1 - window.0 < 30 * sample_rate
        }),
{
    windows_cover_all_samples(sample_count, energies, sample_rate);
}

proof fn lemma_windows_from(sample_count: nat, energies: Seq<u32>, sample_rate: u32, start: int)
    requires
        energies.len() == frame_count(sample_count, sample_rate),
        0 <= start < energies.len(),
    ensures
        ({
            let size = frame_samples(sample_rate);
            let windows = windows_from(sample_count, energies, size, start);
            &&& windows.len() > 0
            &&& windows[0].0 == start * size
            &&& windows.last().1 == sample_count
            &&& forall|i: int| #![trigger windows[i]]
                0 <= i < windows.len() - 1 ==> windows[i].1 == windows[i + 1].0
            &&& forall|i: int| #![trigger windows[i]]
                0 <= i < windows.len() ==> windows[i].0 < windows[i].1 && windows[i].1 - windows[i].0
                    <= MAX_WINDOW_FRAMES * size
        }),
    decreases energies.len() - start,
{
    let size = frame_samples(sample_rate);
    let windows = windows_from(sample_count, energies, size, start);
    lemma_frame_start(sample_count, sample_rate, start);
    if energies.len() - start > MAX_WINDOW_FRAMES {
        lemma_quietest(energies, start + TARGET_WINDOW_FRAMES, start + MAX_WINDOW_FRAMES);
        let split = quietest(energies, start + TARGET_WINDOW_FRAMES, start + MAX_WINDOW_FRAMES);
        lemma_windows_from(sample_count, energies, sample_rate, split);
        let rest = windows_from(sample_count, energies, size, split);
        assert(start * size < split * size && split * size - start * size <= MAX_WINDOW_FRAMES
            * size) by (nonlinear_arith)
            requires
                start < split <= start + MAX_WINDOW_FRAMES,
                size >= 1,
        ;
        assert(windows.last() == rest.last());
        assert forall|i: int| #![trigger windows[i]] 0 <= i < windows.len() - 1 implies windows[i].1
            == windows[i + 1].0 by {
            assert(windows[i + 1] == rest[i]);
            if i > 0 {
                assert(windows[i] == rest[i - 1]);
            }
        }
        assert forall|i: int| #![trigger windows[i]] 0 <= i < windows.len() implies windows[i].0
            < windows[i].1 && windows[i].1 - windows[i].0 <= MAX_WINDOW_FRAMES * size by {
            if i > 0 {
                assert(windows[i] == rest[i - 1]);
            }
        }
    } else {
        let frames = energies.len() as int;
        let count = sample_count as int;
        let n = size as int;
        assert(count - start * n <= MAX_WINDOW_FRAMES * n) by (nonlinear_arith)
            requires
                frames == (count + n - 1) / n,
                frames - start <= MAX_WINDOW_FRAMES,
                n >= 1,
                count >= 0,
        ;
    }
}

/// The milliseconds that a number of samples lasts.
pub open spec fn samples_ms(samples: nat, rate: nat) -> nat {
    samples * 1_000 / rate
}

/// The moment, in milliseconds, at which a sample is heard: where a window starts or ends.
pub fn sample_time_ms(sample: usize, sample_rate: u32) -> (time_ms: u64)
    requires
        sample_rate > 0,
        sample * 1_000 <= u64::MAX,
    ensures
        time_ms == samples_ms(sample as nat, sample_rate as nat),
{
    sample as u64 * 1_000 / sample_rate as u64
}

/// The part of a window that a recognised segment covers, in milliseconds. A segment that is
/// reversed, empty or beyond the window has none.
pub open spec fn segment_bounds(
    window_start_ms: u64,
    window_end_ms: u64,
    first: nat,
    last: nat,
) -> Option<(u64, u64)> {
    let start = window_start_ms + samples_ms(first, WHISPER_SAMPLE_RATE as nat);
    let end = window_start_ms + samples_ms(last, WHISPER_SAMPLE_RATE as nat);
    let end = if end <= window_end_ms {
        end
    } else {
        window_end_ms as int
    };
    if first < last && start < end {
        Some((start as u64, end as u64))
    } else {
        None
    }
}

pub fn valid_segment_bounds(
    window_start_ms: u64,
    window_end_ms: u64,
    sample_range: core::ops::Range<usize>,
) -> (bounds: Option<(u64, u64)>)
    ensures
        bounds == segment_bounds(
            window_start_ms,
            window_end_ms,
            sample_range.start as nat,
            sample_range.end as nat,
        ),
{
    if sample_range.start >= sample_range.end {
        return None;
    }
    let start: u128 = window_start_ms as u128 + sample_range.start as u128 * 1_000
        / WHISPER_SAMPLE_RATE as u128;
    let end: u128 = window_start_ms as u128 + sample_range.end as u128 * 1_000
        / WHISPER_SAMPLE_RATE as u128;
    let end: u128 = if end <= window_end_ms as u128 {
        end
    } else {
        window_end_ms as u128
    };
    if start < end {
        Some((start as u64, end as u64))
    } else {
        None
    }
}

/// A chunk of a recognised segment: its text and, where the model gives it, the time from the
/// beginning of the segment in milliseconds.
#[derive(Debug)]
pub struct SegmentChunk {
    pub times: Option<(u64, u64)>,
    pub text: String,
}

/// A recognised segment: its range of samples in the window, its text and its chunks.
#[derive(Debug)]
pub struct Segment {
    pub first_sample: usize,
    pub end_sample: usize,
    pub text: String,
    pub chunks: Vec<SegmentChunk>,
}

/// The timed chunks of a segment that begins at `segment_start_ms`: those that have times and
/// start inside the window.
pub open spec fn timed_chunks(
    chunks: Seq<SegmentChunk>,
    segment_start_ms: u64,
    window_end_ms: u64,
) -> Seq<Cue>
    decreases chunks.len(),
{
    if chunks.len() == 0 {
        Seq::empty()
    } else {
        let before = timed_chunks(chunks.drop_last(), segment_start_ms, window_end_ms);
        match chunks.last().times {
            None => before,
            Some((from, to)) => {
                let start = subtitles::ends_after(segment_start_ms, from);
                let end = subtitles::ends_after(segment_start_ms, to);
                if start < window_end_ms {
                    before.push(
                        Cue {
                            start_ms: start,
                            end_ms: earlier(
                                later(end, subtitles::ends_after(start, 80)),
                                window_end_ms,
                            ),
                            text: chunks.last().text@,
                        },
                    )
                } else {
                    before
                }
            },
        }
    }
}

/// Some chunk has times.
pub open spec fn has_times(chunks: Seq<SegmentChunk>) -> bool {
    exists|i: int| 0 <= i < chunks.len() && (#[trigger] chunks[i]).times is Some
}

/// What a segment adds to the recognised chunks: nothing when it lies beyond the audio, its timed
/// chunks when it has any, and else all of its text.
pub open spec fn segment_cues(segment: Segment, window_start_ms: u64, window_end_ms: u64) -> Seq<Cue> {
    match segment_bounds(
        window_start_ms,
        window_end_ms,
        segment.first_sample as nat,
        segment.end_sample as nat,
    ) {
        None => Seq::empty(),
        Some((start, end)) => if has_times(segment.chunks@) {
            timed_chunks(segment.chunks@, start, window_end_ms)
        } else if text::trimmed(segment.text@).len() > 0 {
            seq![
                Cue {
                    start_ms: start,
                    end_ms: later(end, subtitles::ends_after(start, 200)),
                    text: segment.text@,
                },
            ]
        } else {
            Seq::empty()
        },
    }
}

/// The timed chunks of a recognised segment.
pub fn segment_chunks(segment: &Segment, window_start_ms: u64, window_end_ms: u64) -> (found: Vec<
    TimedChunk,
>)
    ensures
        chunks_of(found@) == segment_cues(*segment, window_start_ms, window_end_ms),
{
    let mut found: Vec<TimedChunk> = Vec::new();
    assert(chunks_of(found@) == Seq::<Cue>::empty());
    let (start, end): (u64, u64) = match valid_segment_bounds(
        window_start_ms,
        window_end_ms,
        segment.first_sample..segment.end_sample,
    ) {
        Some(bounds) => bounds,
        None => {
            return found;
        },
    };
    let mut timed = false;
    let mut i: usize = 0;
    let ghost all = segment.chunks@;
    while i < segment.chunks.len()
        invariant
            i <= segment.chunks.len(),
            all == segment.chunks@,
            timed <==> exists|k: int| 0 <= k < i && (#[trigger] all[k]).times is Some,
            chunks_of(found@) == timed_chunks(all.take(i as int), start, window_end_ms),
        decreases segment.chunks.len() - i,
    {
        let chunk = &segment.chunks[i];
        let ghost before = found@;
        assert(all.take(i as int + 1).drop_last() == all.take(i as int));
        assert(all.take(i as int + 1).last() == all[i as int]);
        if let Some((from, to)) = chunk.times {
            assert(all[i as int].times is Some);
            timed = true;
            let chunk_start = start.saturating_add(from);
            let chunk_end = start.saturating_add(to);
            if chunk_start < window_end_ms {
                let least = chunk_start.saturating_add(80);
                let last: u64 = if chunk_end >= least {
                    chunk_end
                } else {
                    least
                };
                found.push(
                    TimedChunk {
                        start_ms: chunk_start,
                        end_ms: if last <= window_end_ms {
                            last
                        } else {
                            window_end_ms
                        },
                        text: chunk.text.clone(),
                    },
                );
                assert(chunks_of(found@) == chunks_of(before).push(found@.last()@));
            }
        }
        i += 1;
    }
    assert(all.take(i as int) == all);
    if !timed {
        proof {
            lemma_no_timed_chunks(all, start, window_end_ms);
        }
        let chars = text::chars_of(segment.text.as_str());
        if text::trim(chars.as_slice()).len() > 0 {
            let least = start.saturating_add(200);
            found.push(
                TimedChunk {
                    start_ms: start,
                    end_ms: if end >= least {
                        end
                    } else {
                        least
                    },
                    text: segment.text.clone(),
                },
            );
            assert(chunks_of(found@) == seq![found@.last()@]);
        }
    }
    found
}

proof fn lemma_no_timed_chunks(chunks: Seq<SegmentChunk>, segment_start_ms: u64, window_end_ms: u64)
    requires
        !has_times(chunks),
    ensures
        timed_chunks(chunks, segment_start_ms, window_end_ms) == Seq::<Cue>::empty(),
    decreases chunks.len(),
{
    if chunks.len() > 0 {
        assert(chunks[chunks.len() - 1].times is None);
        assert forall|i: int| 0 <= i < chunks.drop_last().len() implies (
        #[trigger] chunks.drop_last()[i]).times is None by {
            assert(chunks[i].times is None);
        }
        lemma_no_timed_chunks(chunks.drop_last(), segment_start_ms, window_end_ms);
    }
}

/// The subtitles of a recording and how long it lasts.
#[derive(Debug)]
pub struct TranscriptionReport {
    pub cues: Vec<SubtitleCue>,
    pub audio_duration_ms: u64,
}

/// The cues of a recording, from all of its recognised chunks.
pub open spec fn transcribed(chunks: Seq<Cue>, audio_duration_ms: u64) -> Seq<Cue> {
    bounded(grouped(chunks), audio_duration_ms)
}

/// Makes the report of a transcription from all chunks that were recognised.
pub fn finish_transcription(chunks: &Vec<TimedChunk>, audio_duration_ms: u64) -> (report: Result<
    TranscriptionReport,
    String,
>)
    ensures
        match report {
            Ok(report) => {
                &&& transcribed(chunks_of(chunks@), audio_duration_ms).len() > 0
                &&& subtitles::cues_of(report.cues@) == transcribed(
                    chunks_of(chunks@),
                    audio_duration_ms,
                )
                &&& report.audio_duration_ms == audio_duration_ms
            },
            Err(error) => {
                &&& transcribed(chunks_of(chunks@), audio_duration_ms).len() == 0
                &&& error@ == "No speech was recognized in this audio file."@
            },
        },
{
    let cues = normalize_cue_boundaries(group_timed_chunks_into_cues(chunks), audio_duration_ms);
    assert(subtitles::cues_of(cues@).len() == cues@.len());
    if cues.len() == 0 {
        return Err("No speech was recognized in this audio file.".to_string());
    }
    Ok(TranscriptionReport { cues, audio_duration_ms })
}

/// The length of decoded audio in milliseconds; an error when there is none.
pub fn decoded_duration_ms(sample_count: usize, sample_rate: u32) -> (duration: Result<u64, String>)
    requires
        sample_rate > 0,
        sample_count * 1_000 <= u64::MAX,
    ensures
        match duration {
            Ok(duration) => sample_count > 0 && duration == samples_ms(
                sample_count as nat,
                sample_rate as nat,
            ),
            Err(error) => sample_count == 0 && error@
                == "The selected media file does not contain a decodable audio track."@,
        },
{
    if sample_count == 0 {
        return Err(
            "The selected media file does not contain a decodable audio track.".to_string(),
        );
    }
    Ok(sample_time_ms(sample_count, sample_rate))
}

/// What the speech in a recording is.
#[derive(Clone, Copy, Debug, PartialEq, Eq, Structural)]
pub enum RecognitionLanguage {
    Chinese,
    MixedChineseEnglish,
    English,
}

/// The language token with which the model is prompted.
#[derive(Clone, Copy, Debug, PartialEq, Eq, Structural)]
pub enum PromptLanguage {
    Chinese,
    English,
}

impl RecognitionLanguage {
    /// The language that the model is told. It does not detect languages by itself, and its
    /// Chinese token keeps the words of other languages available: so that is the one for mixed
    /// speech.
    pub fn whisper_language(self) -> (language: PromptLanguage)
        ensures
            language == (match self {
                RecognitionLanguage::Chinese => PromptLanguage::Chinese,
                RecognitionLanguage::MixedChineseEnglish => PromptLanguage::Chinese,
                RecognitionLanguage::English => PromptLanguage::English,
            }),
    {
        match self {
            RecognitionLanguage::Chinese => PromptLanguage::Chinese,
            RecognitionLanguage::MixedChineseEnglish => PromptLanguage::Chinese,
            RecognitionLanguage::English => PromptLanguage::English,
        }
    }
}

/// The formats in which subtitles are written.
#[derive(Clone, Copy, Debug, PartialEq, Eq, Structural)]
pub enum SubtitleExportFormat {
    Srt,
    WebVtt,
}

/// The extension of a file in the given format.
pub open spec fn export_extension(format: SubtitleExportFormat) -> Seq<char> {
    match format {
        SubtitleExportFormat::Srt => "srt"@,
        SubtitleExportFormat::WebVtt => "vtt"@,
    }
}

impl SubtitleExportFormat {
    pub fn extension(self) -> (extension: &'static str)
        ensures
            extension@ == export_extension(self),
    {
        match self {
            SubtitleExportFormat::Srt => "srt",
            SubtitleExportFormat::WebVtt => "vtt",
        }
    }

    pub fn label(self) -> (label: &'static str)
        ensures
            label@ == (match self {
                SubtitleExportFormat::Srt => "SRT"@,
                SubtitleExportFormat::WebVtt => "WebVTT"@,
            }),
    {
        match self {
            SubtitleExportFormat::Srt => "SRT",
            SubtitleExportFormat::WebVtt => "WebVTT",
        }
    }
}

/// A time as subtitle files write it, with the given decimal sign.
pub open spec fn subtitle_time(ms: u64, sign: char) -> Seq<char> {
    subtitles::padded(ms as nat / 3_600_000, 2) + seq![':'] + subtitles::clock_tail(ms as nat, sign)
}

/// A cue as subtitle files write it: the times, the text and an empty line.
pub open spec fn cue_block(cue: Cue, sign: char) -> Seq<char> {
    subtitle_time(cue.start_ms, sign) + " --> "@ + subtitle_time(cue.end_ms, sign) + "\n"@ + cue.text
        + "\n\n"@
}

/// The blocks of the cues from `from` on, each with its number before it when they are numbered.
pub open spec fn cue_blocks(cues: Seq<Cue>, from: int, numbered: bool, sign: char) -> Seq<char>
    decreases cues.len() - from,
{
    if from >= cues.len() {
        Seq::empty()
    } else {
        (if numbered {
            text::decimal((from + 1) as nat) + "\n"@
        } else {
            Seq::empty()
        }) + cue_block(cues[from], sign) + cue_blocks(cues, from + 1, numbered, sign)
    }
}

/// The text of a subtitle file with the given cues.
pub open spec fn rendered(cues: Seq<Cue>, format: SubtitleExportFormat) -> Seq<char> {
    match format {
        SubtitleExportFormat::Srt => cue_blocks(cues, 0, true, ','),
        SubtitleExportFormat::WebVtt => "WEBVTT\n\n"@ + cue_blocks(cues, 0, false, '.'),
    }
}

fn append_time(target: &mut Vec<char>, ms: u64, sign: char)
    ensures
        final(target)@ == old(target)@ + subtitle_time(ms, sign),
{
    let ghost before = target@;
    text::append_number(target, ms / 3_600_000, 2);
    target.push(':');
    text::append_number(target, ms / 60_000 % 60, 2);
    target.push(':');
    text::append_number(target, ms / 1_000 % 60, 2);
    target.push(sign);
    text::append_number(target, ms % 1_000, 3);
    assert(target@ == before + subtitle_time(ms, sign));
}

/// A time as subtitle files write it.
pub fn subtitle_timestamp(ms: u64, sign: char) -> (shown: String)
    ensures
        shown@ == subtitle_time(ms, sign),
{
    let mut shown: Vec<char> = Vec::new();
    append_time(&mut shown, ms, sign);
    assert(shown@ == subtitle_time(ms, sign));
    text::string_of(shown.as_slice())
}

fn append_cue(target: &mut Vec<char>, cue: &SubtitleCue, sign: char)
    ensures
        final(target)@ == old(target)@ + cue_block(cue@, sign),
{
    let ghost before = target@;
    append_time(target, cue.start_ms, sign);
    text::append_str(target, " --> ");
    append_time(target, cue.end_ms, sign);
    text::append_str(target, "\n");
    text::append_str(target, cue.text.as_str());
    text::append_str(target, "\n\n");
    assert(target@ == before + cue_block(cue@, sign));
}

fn append_cues(target: &mut Vec<char>, cues: &[SubtitleCue], numbered: bool, sign: char)
    ensures
        final(target)@ == old(target)@ + cue_blocks(
            subtitles::cues_of(cues@),
            0,
            numbered,
            sign,
        ),
{
    let ghost all = subtitles::cues_of(cues@);
    let ghost start = target@;
    let mut i: usize = 0;
    while i < cues.len()
        invariant
            i <= cues.len(),
            all == subtitles::cues_of(cues@),
            start + cue_blocks(all, 0, numbered, sign) == target@ + cue_blocks(
                all,
                i as int,
                numbered,
                sign,
            ),
        decreases cues.len() - i,
    {
        let ghost before = target@;
        let ghost number = if numbered {
            text::decimal((i + 1) as nat) + "\n"@
        } else {
            Seq::empty()
        };
        assert(all[i as int] == cues@[i as int]@);
        if numbered {
            text::append_number(target, i as u64 + 1, 0);
            text::append_str(target, "\n");
        }
        assert(target@ == before + number);
        append_cue(target, &cues[i], sign);
        assert(target@ + cue_blocks(all, i as int + 1, numbered, sign) == before + (number
            + cue_block(all[i as int], sign) + cue_blocks(all, i as int + 1, numbered, sign)));
        i += 1;
    }
    assert(target@ + cue_blocks(all, i as int, numbered, sign) == target@);
}

/// Writes cues as SubRip subtitles.
pub fn render_srt(cues: &[SubtitleCue]) -> (output: String)
    ensures
        output@ == rendered(subtitles::cues_of(cues@), SubtitleExportFormat::Srt),
{
    let mut output: Vec<char> = Vec::new();
    append_cues(&mut output, cues, true, ',');
    assert(output@ == rendered(subtitles::cues_of(cues@), SubtitleExportFormat::Srt));
    text::string_of(output.as_slice())
}

/// Writes cues as WebVTT subtitles.
pub fn render_webvtt(cues: &[SubtitleCue]) -> (output: String)
    ensures
        output@ == rendered(subtitles::cues_of(cues@), SubtitleExportFormat::WebVtt),
{
    let mut output = text::chars_of("WEBVTT\n\n");
    append_cues(&mut output, cues, false, '.');
    text::string_of(output.as_slice())
}

/// Writes cues in the given format.
pub fn render_subtitles(cues: &[SubtitleCue], format: SubtitleExportFormat) -> (output: String)
    ensures
        output@ == rendered(subtitles::cues_of(cues@), format),
{
    match format {
        SubtitleExportFormat::Srt => render_srt(cues),
        SubtitleExportFormat::WebVtt => render_webvtt(cues),
    }
}

} // verus!
