//! What grouping and splitting recognised speech keeps.
//!
//! Recognised text is trimmed, spaced, cut into sentences and grouped into cues. None of that
//! loses or reorders a visible character, and no cut falls inside a Latin word.
use vstd::prelude::*;

use crate::asr;
use crate::asr::Grouping;
use crate::subtitles;
use crate::subtitles::Cue;
use crate::text;

verus! {

/// The visible characters of a text, in order.
pub open spec fn ink(s: Seq<char>) -> Seq<char>
    decreases s.len(),
{
    if s.len() == 0 {
        Seq::empty()
    } else if text::is_space(s.last()) {
        ink(s.drop_last())
    } else {
        ink(s.drop_last()).push(s.last())
    }
}

/// The visible characters of texts, one after the other.
pub open spec fn all_ink(parts: Seq<Seq<char>>) -> Seq<char>
    decreases parts.len(),
{
    if parts.len() == 0 {
        Seq::empty()
    } else {
        all_ink(parts.drop_last()) + ink(parts.last())
    }
}

/// The visible characters of the captions of cues, one after the other.
pub open spec fn cue_ink(cues: Seq<Cue>) -> Seq<char>
    decreases cues.len(),
{
    if cues.len() == 0 {
        Seq::empty()
    } else {
        cue_ink(cues.drop_last()) + ink(cues.last().text)
    }
}

pub proof fn lemma_ink_sum(a: Seq<char>, b: Seq<char>)
    ensures
        ink(a + b) == ink(a) + ink(b),
    decreases b.len(),
{
    if b.len() > 0 {
        lemma_ink_sum(a, b.drop_last());
        assert((a + b).drop_last() == a + b.drop_last());
        assert((a + b).last() == b.last());
        if !text::is_space(b.last()) {
            assert(ink(a + b) == (ink(a) + ink(b.drop_last())).push(b.last()));
        }
    } else {
        assert(a + b == a);
    }
}

proof fn lemma_ink_single(c: char)
    ensures
        text::is_space(c) ==> ink(seq![c]) == Seq::<char>::empty(),
        !text::is_space(c) ==> ink(seq![c]) == seq![c],
{
    reveal_with_fuel(ink, 2);
    assert(seq![c].drop_last() == Seq::<char>::empty());
}

/// Trimming keeps the visible characters.
pub proof fn trimming_keeps_visible_characters(s: Seq<char>)
    ensures
        ink(text::trimmed_start(s)) == ink(s),
        ink(text::trimmed_end(s)) == ink(s),
        ink(text::trimmed(s)) == ink(s),
{
    lemma_ink_trimmed_start(s);
    lemma_ink_trimmed_end(s);
    lemma_ink_trimmed_end(text::trimmed_start(s));
}

proof fn lemma_ink_trimmed_start(s: Seq<char>)
    ensures
        ink(text::trimmed_start(s)) == ink(s),
    decreases s.len(),
{
    if s.len() > 0 && text::is_space(s[0]) {
        lemma_ink_trimmed_start(s.skip(1));
        assert(seq![s[0]] + s.skip(1) == s);
        lemma_ink_sum(seq![s[0]], s.skip(1));
        lemma_ink_single(s[0]);
    }
}

proof fn lemma_ink_trimmed_end(s: Seq<char>)
    ensures
        ink(text::trimmed_end(s)) == ink(s),
    decreases s.len(),
{
    if s.len() > 0 && text::is_space(s.last()) {
        lemma_ink_trimmed_end(s.drop_last());
    }
}

pub proof fn lemma_all_ink_cons(first: Seq<char>, rest: Seq<Seq<char>>)
    ensures
        all_ink(seq![first] + rest) == ink(first) + all_ink(rest),
    decreases rest.len(),
{
    reveal_with_fuel(all_ink, 2);
    let parts = seq![first] + rest;
    if rest.len() == 0 {
        assert(parts == seq![first]);
        assert(parts.drop_last() == Seq::<Seq<char>>::empty());
    } else {
        lemma_all_ink_cons(first, rest.drop_last());
        assert(parts.drop_last() == seq![first] + rest.drop_last());
        assert(parts.last() == rest.last());
    }
}

pub proof fn lemma_all_ink_sum(a: Seq<Seq<char>>, b: Seq<Seq<char>>)
    ensures
        all_ink(a + b) == all_ink(a) + all_ink(b),
    decreases b.len(),
{
    if b.len() == 0 {
        assert(a + b == a);
    } else {
        lemma_all_ink_sum(a, b.drop_last());
        assert((a + b).drop_last() == a + b.drop_last());
        assert((a + b).last() == b.last());
    }
}

/// The words of a text hold its visible characters.
proof fn lemma_words_ink(s: Seq<char>)
    ensures
        all_ink(text::words(s)) == ink(s),
    decreases s.len(),
{
    let t = text::trimmed_start(s);
    lemma_ink_trimmed_start(s);
    text::lemma_trimmed_len(s);
    text::lemma_trimmed_start(s);
    text::lemma_word_len(t);
    if t.len() > 0 {
        let n = text::word_len(t) as int;
        lemma_words_ink(t.skip(n));
        lemma_all_ink_cons(t.take(n), text::words(t.skip(n)));
        assert(t.take(n) + t.skip(n) == t);
        lemma_ink_sum(t.take(n), t.skip(n));
    }
}

/// Spacing out words adds no visible character.
proof fn lemma_tight_ink(parts: Seq<Seq<char>>)
    ensures
        ink(asr::tight(parts)) == all_ink(parts),
    decreases parts.len(),
{
    reveal_with_fuel(all_ink, 2);
    if parts.len() == 1 {
        assert(parts.drop_last() == Seq::<Seq<char>>::empty());
        assert(Seq::<char>::empty() + ink(parts[0]) == ink(parts[0]));
    } else if parts.len() > 1 {
        let before = asr::tight(parts.drop_last());
        let gap = if asr::spaced(before.last(), parts.last()[0]) {
            seq![' ']
        } else {
            Seq::empty()
        };
        lemma_tight_ink(parts.drop_last());
        lemma_ink_sum(before, gap);
        lemma_ink_sum(before + gap, parts.last());
        lemma_ink_single(' ');
    }
}

/// Normalising recognised text keeps the visible characters.
pub proof fn recognized_text_keeps_visible_characters(s: Seq<char>)
    ensures
        ink(asr::recognized(s)) == ink(s),
{
    lemma_words_ink(s);
    lemma_tight_ink(text::words(s));
}

pub proof fn lemma_visible_piece_ink(s: Seq<char>)
    ensures
        all_ink(asr::visible_piece(s)) == ink(s),
{
    trimming_keeps_visible_characters(s);
    let piece = text::trimmed(s);
    if piece.len() > 0 {
        assert(seq![piece] + Seq::<Seq<char>>::empty() == seq![piece]);
        lemma_all_ink_cons(piece, Seq::empty());
    }
}

proof fn lemma_sentences_ink(s: Seq<char>, start: int)
    requires
        0 <= start <= s.len(),
    ensures
        all_ink(asr::sentences_from(s, start)) == ink(s.skip(start)),
    decreases s.len() - start,
{
    asr::lemma_next_cut(s, start, start);
    match asr::next_cut(s, start, start) {
        None => {
            lemma_visible_piece_ink(s.skip(start));
        },
        Some(cut) => {
            lemma_sentences_ink(s, cut);
            let head = s.subrange(start, cut);
            lemma_visible_piece_ink(head);
            lemma_all_ink_sum(asr::visible_piece(head), asr::sentences_from(s, cut));
            assert(s.skip(start) == head + s.skip(cut));
            lemma_ink_sum(head, s.skip(cut));
        },
    }
}

/// Splitting a text into sentences keeps the visible characters.
pub proof fn sentences_keep_visible_characters(s: Seq<char>)
    ensures
        all_ink(asr::sentences(s)) == ink(s),
{
    lemma_sentences_ink(s, 0);
    assert(s.skip(0) == s);
}

/// A sentence ends behind a character that is no part of a Latin word, or where the text ends.
pub proof fn no_cut_breaks_a_latin_word(s: Seq<char>, start: int)
    requires
        0 <= start <= s.len(),
    ensures
        match asr::next_cut(s, start, start) {
            Some(cut) => start < cut <= s.len() && !text::is_ascii_word(s[cut - 1]),
            None => true,
        },
{
    asr::lemma_next_cut(s, start, start);
}

/// A text without Latin letters and digits is cut into sentences of a readable length.
pub proof fn other_texts_are_cut_at_the_limit(s: Seq<char>, start: int)
    requires
        0 <= start <= s.len(),
        forall|i: int| 0 <= i < s.len() ==> !text::is_ascii_word(#[trigger] s[i]),
    ensures
        match asr::next_cut(s, start, start) {
            Some(cut) => cut - start <= asr::MAX_CUE_CHARACTERS,
            None => s.len() - start < asr::MAX_CUE_CHARACTERS,
        },
{
    lemma_cut_within_limit(s, start, start);
}

proof fn lemma_cut_within_limit(s: Seq<char>, start: int, at: int)
    requires
        0 <= start <= at <= s.len(),
        at - start < asr::MAX_CUE_CHARACTERS,
        forall|i: int| 0 <= i < s.len() ==> !text::is_ascii_word(#[trigger] s[i]),
    ensures
        match asr::next_cut(s, start, at) {
            Some(cut) => cut - start <= asr::MAX_CUE_CHARACTERS,
            None => s.len() - start < asr::MAX_CUE_CHARACTERS,
        },
    decreases s.len() - at,
{
    if at < s.len() && !asr::cuts_after(s[at], at + 1 - start) {
        lemma_cut_within_limit(s, start, at + 1);
    }
}

proof fn lemma_cue_ink_sum(a: Seq<Cue>, b: Seq<Cue>)
    ensures
        cue_ink(a + b) == cue_ink(a) + cue_ink(b),
    decreases b.len(),
{
    if b.len() == 0 {
        assert(a + b == a);
    } else {
        lemma_cue_ink_sum(a, b.drop_last());
        assert((a + b).drop_last() == a + b.drop_last());
        assert((a + b).last() == b.last());
    }
}

proof fn lemma_cue_ink_texts(cues: Seq<Cue>, parts: Seq<Seq<char>>)
    requires
        cues.len() == parts.len(),
        forall|i: int| 0 <= i < cues.len() ==> (#[trigger] cues[i]).text == parts[i],
    ensures
        cue_ink(cues) == all_ink(parts),
    decreases cues.len(),
{
    if cues.len() > 0 {
        assert(cues[cues.len() - 1].text == parts[parts.len() - 1]);
        assert forall|i: int| 0 <= i < cues.drop_last().len() implies (
        #[trigger] cues.drop_last()[i]).text == parts.drop_last()[i] by {
            assert(cues[i].text == parts[i]);
        }
        lemma_cue_ink_texts(cues.drop_last(), parts.drop_last());
    }
}

/// Splitting an utterance into cues keeps the visible characters.
pub proof fn utterance_keeps_visible_characters(start_ms: u64, end_ms: u64, s: Seq<char>)
    requires
        start_ms < end_ms,
    ensures
        cue_ink(asr::utterance_cues(start_ms, end_ms, s)) == ink(s),
{
    let parts = asr::sentences(asr::recognized(s));
    lemma_cue_ink_texts(asr::sentence_cues(start_ms, end_ms, parts), parts);
    sentences_keep_visible_characters(asr::recognized(s));
    recognized_text_keeps_visible_characters(s);
}

proof fn lemma_timed_cue_ink(start_ms: u64, end_ms: u64, s: Seq<char>)
    ensures
        cue_ink(asr::timed_cue(start_ms, end_ms, s)) == ink(s),
{
    reveal_with_fuel(cue_ink, 2);
    recognized_text_keeps_visible_characters(s);
    let cues = asr::timed_cue(start_ms, end_ms, s);
    if cues.len() > 0 {
        assert(cues.drop_last() == Seq::<Cue>::empty());
        assert(Seq::<char>::empty() + ink(cues[0].text) == ink(cues[0].text));
    }
}

/// The visible characters that a grouping has taken in.
pub open spec fn grouping_ink(state: Grouping) -> Seq<char> {
    cue_ink(state.cues) + ink(state.text)
}

proof fn lemma_flushed_ink(state: Grouping)
    ensures
        grouping_ink(asr::flushed(state)) == grouping_ink(state),
{
    lemma_timed_cue_ink(state.start_ms, state.end_ms, state.text);
    lemma_cue_ink_sum(state.cues, asr::timed_cue(state.start_ms, state.end_ms, state.text));
    assert(grouping_ink(asr::flushed(state)) == cue_ink(state.cues) + ink(state.text));
}

proof fn lemma_appended_ink(target: Seq<char>, next: Seq<char>)
    ensures
        ink(asr::appended(target, next)) == ink(target) + ink(next),
{
    trimming_keeps_visible_characters(next);
    lemma_ink_sum(target, next);
    if target.len() == 0 {
        assert(ink(target) + ink(next) == ink(next));
    }
}

/// The current cue, when there is one, ends after it starts.
pub open spec fn is_timed(state: Grouping) -> bool {
    state.text.len() > 0 ==> state.start_ms < state.end_ms
}

proof fn lemma_with_chunk_ink(state: Grouping, chunk: Cue)
    requires
        is_timed(state),
        chunk.start_ms < chunk.end_ms,
    ensures
        is_timed(asr::with_chunk(state, chunk)),
        grouping_ink(asr::with_chunk(state, chunk)) == grouping_ink(state) + ink(chunk.text),
{
    recognized_text_keeps_visible_characters(chunk.text);
    if asr::recognized(chunk.text).len() == 0 {
        assert(grouping_ink(state) + ink(chunk.text) == grouping_ink(state));
    } else if asr::is_oversized(chunk) {
        if state.text.len() > 0 && asr::word_continues(state.text, asr::recognized(chunk.text)) {
            let end = asr::later(chunk.end_ms, state.end_ms);
            let longer = asr::appended(state.text, chunk.text);
            utterance_keeps_visible_characters(state.start_ms, end, longer);
            lemma_appended_ink(state.text, chunk.text);
            lemma_cue_ink_sum(state.cues, asr::utterance_cues(state.start_ms, end, longer));
            assert(grouping_ink(asr::with_chunk(state, chunk)) == cue_ink(state.cues) + (ink(
                state.text,
            ) + ink(chunk.text)));
        } else {
            let closed = asr::flushed(state);
            lemma_flushed_ink(state);
            utterance_keeps_visible_characters(chunk.start_ms, chunk.end_ms, chunk.text);
            lemma_cue_ink_sum(
                closed.cues,
                asr::utterance_cues(chunk.start_ms, chunk.end_ms, chunk.text),
            );
            assert(ink(closed.text) == Seq::<char>::empty());
            assert(grouping_ink(closed) == cue_ink(closed.cues));
            assert(grouping_ink(asr::with_chunk(state, chunk)) == cue_ink(closed.cues) + ink(
                chunk.text,
            ));
        }
    } else {
        let (room, closes) = asr::with_room(state, chunk);
        lemma_flushed_ink(state);
        assert(grouping_ink(room) == grouping_ink(state));
        let longer = Grouping { text: asr::appended(room.text, chunk.text), ..room };
        lemma_appended_ink(room.text, chunk.text);
        assert(grouping_ink(longer) == cue_ink(room.cues) + (ink(room.text) + ink(chunk.text)));
        assert(grouping_ink(longer) == grouping_ink(room) + ink(chunk.text));
        lemma_flushed_ink(longer);
    }
}

proof fn lemma_grouping_ink(chunks: Seq<Cue>)
    requires
        forall|i: int| 0 <= i < chunks.len() ==> (#[trigger] chunks[i]).start_ms < chunks[i].end_ms,
    ensures
        is_timed(asr::grouping(chunks)),
        grouping_ink(asr::grouping(chunks)) == cue_ink(chunks),
    decreases chunks.len(),
{
    if chunks.len() > 0 {
        let before = chunks.drop_last();
        assert forall|i: int| 0 <= i < before.len() implies (#[trigger] before[i]).start_ms
            < before[i].end_ms by {
            assert(chunks[i].start_ms < chunks[i].end_ms);
        }
        lemma_grouping_ink(before);
        assert(chunks[chunks.len() - 1].start_ms < chunks[chunks.len() - 1].end_ms);
        lemma_with_chunk_ink(asr::grouping(before), chunks.last());
    }
}

/// Grouping chunks into cues keeps the visible characters of all chunks that end after they start.
pub proof fn grouping_keeps_visible_characters(chunks: Seq<Cue>)
    requires
        forall|i: int| 0 <= i < chunks.len() ==> (#[trigger] chunks[i]).start_ms < chunks[i].end_ms,
    ensures
        cue_ink(asr::grouped(chunks)) == cue_ink(chunks),
{
    lemma_grouping_ink(chunks);
    let state = asr::grouping(chunks);
    lemma_flushed_ink(state);
    assert(grouping_ink(asr::flushed(state)) == cue_ink(asr::flushed(state).cues));
}

/// A cue with text that can be seen for at least a fifth of a second.
pub open spec fn is_readable(cue: Cue) -> bool {
    cue.text.len() > 0 && cue.end_ms >= subtitles::ends_after(cue.start_ms, 200)
}

pub open spec fn all_readable(cues: Seq<Cue>) -> bool {
    forall|i: int| 0 <= i < cues.len() ==> is_readable(#[trigger] cues[i])
}

proof fn lemma_utterance_readable(start_ms: u64, end_ms: u64, s: Seq<char>)
    ensures
        all_readable(asr::utterance_cues(start_ms, end_ms, s)),
{
    asr::lemma_sentences_visible(asr::recognized(s), 0);
    let parts = asr::sentences(asr::recognized(s));
    let cues = asr::utterance_cues(start_ms, end_ms, s);
    assert forall|i: int| 0 <= i < cues.len() implies is_readable(#[trigger] cues[i]) by {
        assert(parts[i].len() > 0);
    }
}

proof fn lemma_readable_sum(a: Seq<Cue>, b: Seq<Cue>)
    requires
        all_readable(a),
        all_readable(b),
    ensures
        all_readable(a + b),
{
    assert forall|i: int| 0 <= i < (a + b).len() implies is_readable(#[trigger] (a + b)[i]) by {
        if i < a.len() {
            assert((a + b)[i] == a[i]);
        } else {
            assert((a + b)[i] == b[i - a.len()]);
        }
    }
}

proof fn lemma_with_chunk_readable(state: Grouping, chunk: Cue)
    requires
        all_readable(state.cues),
    ensures
        all_readable(asr::with_chunk(state, chunk).cues),
        all_readable(asr::flushed(state).cues),
{
    let closing = asr::timed_cue(state.start_ms, state.end_ms, state.text);
    lemma_readable_sum(state.cues, closing);
    if asr::recognized(chunk.text).len() == 0 {
    } else if asr::is_oversized(chunk) {
        let end = asr::later(chunk.end_ms, state.end_ms);
        let longer = asr::appended(state.text, chunk.text);
        lemma_utterance_readable(state.start_ms, end, longer);
        lemma_utterance_readable(chunk.start_ms, chunk.end_ms, chunk.text);
        lemma_readable_sum(state.cues, asr::utterance_cues(state.start_ms, end, longer));
        lemma_readable_sum(
            asr::flushed(state).cues,
            asr::utterance_cues(chunk.start_ms, chunk.end_ms, chunk.text),
        );
    } else {
        let (room, closes) = asr::with_room(state, chunk);
        let longer = Grouping { text: asr::appended(room.text, chunk.text), ..room };
        lemma_readable_sum(
            longer.cues,
            asr::timed_cue(longer.start_ms, longer.end_ms, longer.text),
        );
    }
}

proof fn lemma_grouping_readable(chunks: Seq<Cue>)
    ensures
        all_readable(asr::grouping(chunks).cues),
    decreases chunks.len(),
{
    if chunks.len() > 0 {
        lemma_grouping_readable(chunks.drop_last());
        lemma_with_chunk_readable(asr::grouping(chunks.drop_last()), chunks.last());
    }
}

/// Every cue that chunks are grouped into has text and lasts for at least a fifth of a second.
pub proof fn grouped_cues_are_readable(chunks: Seq<Cue>)
    ensures
        all_readable(asr::grouped(chunks)),
{
    lemma_grouping_readable(chunks);
    let state = asr::grouping(chunks);
    lemma_readable_sum(state.cues, asr::timed_cue(state.start_ms, state.end_ms, state.text));
}

/// A text without Latin letters and digits.
pub open spec fn is_latin_free(s: Seq<char>) -> bool {
    forall|i: int| 0 <= i < s.len() ==> !text::is_ascii_word(#[trigger] s[i])
}

/// A text without white space.
pub open spec fn is_unspaced(s: Seq<char>) -> bool {
    forall|i: int| 0 <= i < s.len() ==> !text::is_space(#[trigger] s[i])
}

proof fn lemma_trimmed_start_latin_free(s: Seq<char>)
    requires
        is_latin_free(s),
    ensures
        is_latin_free(text::trimmed_start(s)),
    decreases s.len(),
{
    if s.len() > 0 && text::is_space(s[0]) {
        assert forall|i: int| 0 <= i < s.skip(1).len() implies !text::is_ascii_word(
            #[trigger] s.skip(1)[i],
        ) by {
            assert(s.skip(1)[i] == s[i + 1]);
        }
        lemma_trimmed_start_latin_free(s.skip(1));
    }
}

proof fn lemma_words_latin_free(s: Seq<char>, k: int)
    requires
        is_latin_free(s),
        0 <= k < text::words(s).len(),
    ensures
        is_latin_free(text::words(s)[k]),
        is_unspaced(text::words(s)[k]),
    decreases s.len(),
{
    let t = text::trimmed_start(s);
    lemma_trimmed_start_latin_free(s);
    text::lemma_trimmed_len(s);
    text::lemma_trimmed_start(s);
    text::lemma_word_len(t);
    let n = text::word_len(t) as int;
    let rest = t.skip(n);
    if k == 0 {
        let word = t.take(n);
        assert(text::words(s)[0] == word);
        assert forall|i: int| 0 <= i < word.len() implies !text::is_ascii_word(#[trigger] word[i])
            && !text::is_space(word[i]) by {
            assert(word[i] == t[i]);
        }
    } else {
        assert forall|i: int| 0 <= i < rest.len() implies !text::is_ascii_word(
            #[trigger] rest[i],
        ) by {
            assert(rest[i] == t[n + i]);
        }
        lemma_words_latin_free(rest, k - 1);
        assert(text::words(s)[k] == text::words(rest)[k - 1]);
    }
}

proof fn lemma_tight_latin_free(parts: Seq<Seq<char>>)
    requires
        forall|k: int|
            0 <= k < parts.len() ==> (#[trigger] parts[k]).len() > 0 && is_latin_free(parts[k])
                && is_unspaced(parts[k]),
    ensures
        is_latin_free(asr::tight(parts)),
        is_unspaced(asr::tight(parts)),
        parts.len() > 0 ==> asr::tight(parts).len() > 0,
    decreases parts.len(),
{
    if parts.len() == 1 {
        assert(is_latin_free(parts[0]) && is_unspaced(parts[0]));
    } else if parts.len() > 1 {
        let before = parts.drop_last();
        assert forall|k: int| 0 <= k < before.len() implies (#[trigger] before[k]).len() > 0
            && is_latin_free(before[k]) && is_unspaced(before[k]) by {
            assert(before[k] == parts[k]);
        }
        lemma_tight_latin_free(before);
        let head = asr::tight(before);
        let last = parts[parts.len() - 1];
        let whole = asr::tight(parts);
        assert(!text::is_ascii_word(last[0]));
        assert(whole == head + last);
        assert forall|i: int| 0 <= i < whole.len() implies !text::is_ascii_word(
            #[trigger] whole[i],
        ) && !text::is_space(whole[i]) by {
            if i < head.len() {
                assert(whole[i] == head[i]);
            } else {
                assert(whole[i] == last[i - head.len()]);
            }
        }
    }
}

proof fn lemma_unspaced_ink(s: Seq<char>)
    requires
        is_unspaced(s),
    ensures
        ink(s) == s,
    decreases s.len(),
{
    if s.len() > 0 {
        let rest = s.drop_last();
        assert forall|i: int| 0 <= i < rest.len() implies !text::is_space(#[trigger] rest[i]) by {
            assert(rest[i] == s[i]);
        }
        lemma_unspaced_ink(rest);
        assert(!text::is_space(s[s.len() - 1]));
        assert(rest.push(s.last()) == s);
    }
}

proof fn lemma_ink_len(s: Seq<char>)
    ensures
        ink(s).len() <= s.len(),
    decreases s.len(),
{
    if s.len() > 0 {
        lemma_ink_len(s.drop_last());
    }
}

/// Without Latin words, what is read of a text is its visible characters.
proof fn lemma_recognized_latin_free(s: Seq<char>)
    requires
        is_latin_free(s),
    ensures
        asr::recognized(s) == ink(s),
        is_latin_free(asr::recognized(s)),
{
    let parts = text::words(s);
    text::lemma_words_not_empty(s);
    assert forall|k: int| 0 <= k < parts.len() implies (#[trigger] parts[k]).len() > 0
        && is_latin_free(parts[k]) && is_unspaced(parts[k]) by {
        lemma_words_latin_free(s, k);
    }
    lemma_tight_latin_free(parts);
    lemma_unspaced_ink(asr::recognized(s));
    recognized_text_keeps_visible_characters(s);
}

/// Cues that are no longer than a reader takes in at a glance.
pub open spec fn all_short(cues: Seq<Cue>) -> bool {
    forall|i: int| 0 <= i < cues.len() ==> (#[trigger] cues[i]).text.len() <= 28
}

/// Cues that stay no longer than a cue may.
pub open spec fn all_brief(cues: Seq<Cue>) -> bool {
    forall|i: int|
        0 <= i < cues.len() ==> (#[trigger] cues[i]).end_ms - cues[i].start_ms <= 5_500
}

proof fn lemma_short_sum(a: Seq<Cue>, b: Seq<Cue>)
    requires
        all_short(a),
        all_short(b),
    ensures
        all_short(a + b),
{
    assert forall|i: int| 0 <= i < (a + b).len() implies (#[trigger] (a + b)[i]).text.len()
        <= asr::MAX_CUE_CHARACTERS by {
        if i < a.len() {
            assert((a + b)[i] == a[i]);
        } else {
            assert((a + b)[i] == b[i - a.len()]);
        }
    }
}

proof fn lemma_brief_sum(a: Seq<Cue>, b: Seq<Cue>)
    requires
        all_brief(a),
        all_brief(b),
    ensures
        all_brief(a + b),
{
    assert forall|i: int| 0 <= i < (a + b).len() implies (#[trigger] (a + b)[i]).end_ms - (a
        + b)[i].start_ms <= asr::MAX_CUE_DURATION_MS by {
        if i < a.len() {
            assert((a + b)[i] == a[i]);
        } else {
            assert((a + b)[i] == b[i - a.len()]);
        }
    }
}

proof fn lemma_sentences_short(s: Seq<char>, start: int)
    requires
        0 <= start <= s.len(),
        is_latin_free(s),
    ensures
        forall|i: int|
            0 <= i < asr::sentences_from(s, start).len() ==> (#[trigger] asr::sentences_from(
                s,
                start,
            )[i]).len() <= asr::MAX_CUE_CHARACTERS,
    decreases s.len() - start,
{
    asr::lemma_next_cut(s, start, start);
    other_texts_are_cut_at_the_limit(s, start);
    match asr::next_cut(s, start, start) {
        None => {
            text::lemma_trimmed_len(s.skip(start));
            text::lemma_trimmed_len(text::trimmed_start(s.skip(start)));
        },
        Some(cut) => {
            lemma_sentences_short(s, cut);
            text::lemma_trimmed_len(s.subrange(start, cut));
            text::lemma_trimmed_len(text::trimmed_start(s.subrange(start, cut)));
            let head = asr::visible_piece(s.subrange(start, cut));
            let all = asr::sentences_from(s, start);
            assert forall|i: int| 0 <= i < all.len() implies (#[trigger] all[i]).len()
                <= asr::MAX_CUE_CHARACTERS by {
                if i >= head.len() {
                    assert(all[i] == asr::sentences_from(s, cut)[i - head.len()]);
                }
            }
        },
    }
}

/// What is being put together is free of Latin words and short enough to become a cue.
spec fn stays_short(state: Grouping) -> bool {
    is_latin_free(state.text) && ink(state.text).len() <= asr::MAX_CUE_CHARACTERS && all_short(
        state.cues,
    )
}

proof fn lemma_flushed_short(state: Grouping)
    requires
        stays_short(state),
    ensures
        stays_short(asr::flushed(state)),
{
    lemma_recognized_latin_free(state.text);
    lemma_short_sum(state.cues, asr::timed_cue(state.start_ms, state.end_ms, state.text));
}

proof fn lemma_with_chunk_short(state: Grouping, chunk: Cue)
    requires
        stays_short(state),
        is_latin_free(chunk.text),
    ensures
        stays_short(asr::with_chunk(state, chunk)),
{
    let heard = asr::recognized(chunk.text);
    lemma_recognized_latin_free(chunk.text);
    lemma_flushed_short(state);
    if heard.len() == 0 {
    } else if asr::is_oversized(chunk) {
        assert(!text::is_ascii_word(heard[0]));
        lemma_sentences_short(heard, 0);
        let more = asr::utterance_cues(chunk.start_ms, chunk.end_ms, chunk.text);
        assert(all_short(more));
        lemma_short_sum(asr::flushed(state).cues, more);
    } else {
        assert(!text::is_ascii_word(heard[0]));
        let (room, closes) = asr::with_room(state, chunk);
        let longer = Grouping { text: asr::appended(room.text, chunk.text), ..room };
        lemma_appended_ink(room.text, chunk.text);
        lemma_ink_len(state.text);
        lemma_trimmed_start_latin_free(chunk.text);
        assert(is_latin_free(longer.text)) by {
            assert forall|i: int| 0 <= i < longer.text.len() implies !text::is_ascii_word(
                #[trigger] longer.text[i],
            ) by {
                if room.text.len() > 0 {
                    if i < room.text.len() {
                        assert(longer.text[i] == room.text[i]);
                    } else {
                        assert(longer.text[i] == chunk.text[i - room.text.len()]);
                    }
                }
            }
        }
        assert(stays_short(longer));
        lemma_flushed_short(longer);
    }
}

proof fn lemma_grouping_short(chunks: Seq<Cue>)
    requires
        forall|i: int| 0 <= i < chunks.len() ==> is_latin_free((#[trigger] chunks[i]).text),
    ensures
        stays_short(asr::grouping(chunks)),
    decreases chunks.len(),
{
    if chunks.len() > 0 {
        let before = chunks.drop_last();
        assert forall|i: int| 0 <= i < before.len() implies is_latin_free(
            (#[trigger] before[i]).text,
        ) by {
            assert(before[i] == chunks[i]);
        }
        lemma_grouping_short(before);
        assert(is_latin_free(chunks[chunks.len() - 1].text));
        lemma_with_chunk_short(asr::grouping(before), chunks.last());
    }
}

/// Cues from speech without Latin words have no more characters than a cue may have, however long
/// the recognised chunks are.
pub proof fn other_cues_are_short(chunks: Seq<Cue>)
    requires
        forall|i: int| 0 <= i < chunks.len() ==> is_latin_free((#[trigger] chunks[i]).text),
    ensures
        all_short(asr::grouped(chunks)),
{
    lemma_grouping_short(chunks);
    lemma_flushed_short(asr::grouping(chunks));
}

/// What is being put together lasts no longer than a cue may and ends with a chunk that was taken
/// in: not after `latest`.
spec fn stays_brief(state: Grouping, latest: u64) -> bool {
    &&& all_brief(state.cues)
    &&& state.end_ms <= latest
    &&& state.text.len() > 0 ==> asr::time_between(state.end_ms, state.start_ms)
        <= asr::MAX_CUE_DURATION_MS
}

proof fn lemma_flushed_brief(state: Grouping, latest: u64)
    requires
        stays_brief(state, latest),
    ensures
        stays_brief(asr::flushed(state), latest),
{
    let closing = asr::timed_cue(state.start_ms, state.end_ms, state.text);
    if state.text.len() == 0 {
        text::lemma_trimmed_len(state.text);
        assert(text::words(state.text).len() == 0);
        assert(closing =~= Seq::<Cue>::empty());
    }
    assert(all_brief(closing));
    lemma_brief_sum(state.cues, closing);
}

proof fn lemma_with_chunk_brief(state: Grouping, chunk: Cue, latest: u64)
    requires
        stays_brief(state, latest),
        is_latin_free(state.text),
        is_latin_free(chunk.text),
        !asr::is_oversized(chunk),
        latest <= chunk.end_ms,
    ensures
        stays_brief(asr::with_chunk(state, chunk), chunk.end_ms),
{
    lemma_recognized_latin_free(chunk.text);
    lemma_flushed_brief(state, latest);
    let heard = asr::recognized(chunk.text);
    if heard.len() > 0 {
        assert(!text::is_ascii_word(heard[0]));
        let (room, closes) = asr::with_room(state, chunk);
        let longer = Grouping { text: asr::appended(room.text, chunk.text), ..room };
        assert(stays_brief(longer, chunk.end_ms));
        lemma_flushed_brief(longer, chunk.end_ms);
    }
}

proof fn lemma_grouping_brief(chunks: Seq<Cue>)
    requires
        forall|i: int|
            0 <= i < chunks.len() ==> is_latin_free((#[trigger] chunks[i]).text)
                && !asr::is_oversized(chunks[i]),
        forall|i: int, j: int|
            0 <= i < j < chunks.len() ==> (#[trigger] chunks[i]).end_ms <= (#[trigger] chunks[j]).end_ms,
    ensures
        stays_brief(
            asr::grouping(chunks),
            if chunks.len() > 0 {
                chunks.last().end_ms
            } else {
                0
            },
        ),
    decreases chunks.len(),
{
    if chunks.len() > 0 {
        let before = chunks.drop_last();
        assert forall|i: int| 0 <= i < before.len() implies is_latin_free(
            (#[trigger] before[i]).text,
        ) && !asr::is_oversized(before[i]) by {
            assert(before[i] == chunks[i]);
        }
        assert forall|i: int, j: int| 0 <= i < j < before.len() implies (#[trigger] before[i]).end_ms
            <= (#[trigger] before[j]).end_ms by {
            assert(before[i] == chunks[i] && before[j] == chunks[j]);
        }
        lemma_grouping_brief(before);
        lemma_grouping_short(before);
        let last = chunks[chunks.len() - 1];
        assert(is_latin_free(last.text));
        if before.len() > 0 {
            assert(chunks[before.len() - 1].end_ms <= last.end_ms);
        }
        lemma_with_chunk_brief(
            asr::grouping(before),
            last,
            if before.len() > 0 {
                before.last().end_ms
            } else {
                0
            },
        );
    }
}

/// Cues from speech without Latin words stay no longer than a cue may, as long as no recognised
/// chunk is longer than a cue by itself and none ends before an earlier one does.
pub proof fn other_cues_are_brief(chunks: Seq<Cue>)
    requires
        forall|i: int|
            0 <= i < chunks.len() ==> is_latin_free((#[trigger] chunks[i]).text)
                && !asr::is_oversized(chunks[i]),
        forall|i: int, j: int|
            0 <= i < j < chunks.len() ==> (#[trigger] chunks[i]).end_ms <= (#[trigger] chunks[j]).end_ms,
    ensures
        all_short(asr::grouped(chunks)),
        all_brief(asr::grouped(chunks)),
{
    lemma_grouping_brief(chunks);
    lemma_flushed_brief(
        asr::grouping(chunks),
        if chunks.len() > 0 {
            chunks.last().end_ms
        } else {
            0
        },
    );
    other_cues_are_short(chunks);
}

/// Bounding cues keeps their starts and texts. No cue but the last can end beyond the next start
/// unless they start too close together, and the last ends inside the audio.
pub proof fn bounded_cues_stay_apart(cues: Seq<Cue>, audio_duration_ms: u64, i: int)
    requires
        0 <= i < cues.len(),
    ensures
        ({
            let kept = asr::bounded(cues, audio_duration_ms);
            &&& kept.len() == cues.len()
            &&& kept[i].start_ms == cues[i].start_ms
            &&& kept[i].text == cues[i].text
            &&& i + 1 < cues.len() && cues[i].start_ms + 140 <= cues[i + 1].start_ms
                ==> kept[i].end_ms + 20 <= cues[i + 1].start_ms
            &&& i + 1 == cues.len() ==> kept[i].end_ms <= audio_duration_ms
        }),
{
}

} // verus!
