//! What the cues of recognised speech have to do with the chunks that they are made of.
//!
//! Every chunk with visible text goes into exactly one cue. A cue is shown from the moment at which
//! the first of its chunks is heard until the last of them has been heard.
use vstd::prelude::*;

use crate::asr;
use crate::asr::Grouping;
use crate::subtitles::Cue;
use crate::text;

verus! {

/// A chunk in which something is said: its text is not blank.
pub open spec fn is_heard(chunk: Cue) -> bool {
    exists|k: int| 0 <= k < chunk.text.len() && !text::is_space(#[trigger] chunk.text[k])
}

/// The texts of the chunks from `from` up to `to` one after the other, without the blank ones.
pub open spec fn said(chunks: Seq<Cue>, from: int, to: int) -> Seq<char>
    decreases to - from,
{
    if to <= from {
        Seq::empty()
    } else if is_heard(chunks[to - 1]) {
        said(chunks, from, to - 1) + chunks[to - 1].text
    } else {
        said(chunks, from, to - 1)
    }
}

/// Chunks in the order in which they are spoken: neither a start nor an end comes before that of an
/// earlier chunk.
pub open spec fn in_order(chunks: Seq<Cue>) -> bool {
    forall|i: int, j: int|
        0 <= i < j < chunks.len() ==> (#[trigger] chunks[i]).start_ms <= (
        #[trigger] chunks[j]).start_ms && chunks[i].end_ms <= chunks[j].end_ms
}

/// Chunks none of which is too long to be a cue: at most 28 characters and five and a half seconds.
pub open spec fn are_short(chunks: Seq<Cue>) -> bool {
    forall|i: int|
        0 <= i < chunks.len() ==> asr::recognized((#[trigger] chunks[i]).text).len() <= 28
            && chunks[i].end_ms - chunks[i].start_ms <= 5_500
}

/// The time from `start` to `end` is that of the heard chunks from `from` up to `to`: no longer and
/// no shorter.
pub open spec fn is_time_of(start: u64, end: u64, chunks: Seq<Cue>, from: int, to: int) -> bool {
    &&& forall|k: int|
        from <= k < to && is_heard(#[trigger] chunks[k]) ==> start <= chunks[k].start_ms
            && chunks[k].end_ms <= end
    &&& exists|k: int| from <= k < to && is_heard(#[trigger] chunks[k]) && chunks[k].start_ms == start
    &&& exists|k: int| from <= k < to && is_heard(#[trigger] chunks[k]) && chunks[k].end_ms == end
}

/// A cue shows what is said in the chunks from `from` up to `to`, for as long as it is said. Only a
/// cue that would be gone after less than a fifth of a second stays longer.
pub open spec fn shows(cue: Cue, chunks: Seq<Cue>, from: int, to: int) -> bool {
    &&& cue.text == asr::recognized(said(chunks, from, to))
    &&& cue.text.len() > 0
    &&& exists|end: u64| #[trigger]
        is_time_of(cue.start_ms, end, chunks, from, to) && cue.end_ms == (if end
            >= cue.start_ms + 200 {
            end as int
        } else if cue.start_ms + 200 <= u64::MAX {
            cue.start_ms + 200
        } else {
            u64::MAX as int
        })
}

/// The chunks are divided among the cues, in order and without a rest: cue `j` shows the chunks from
/// `bounds[j]` up to `bounds[j + 1]`.
pub open spec fn divide(bounds: Seq<int>, cues: Seq<Cue>, chunks: Seq<Cue>) -> bool {
    &&& bounds.len() == cues.len() + 1
    &&& bounds[0] == 0
    &&& forall|j: int| 0 <= j < cues.len() ==> 0 <= #[trigger] bounds[j] <= bounds[j + 1] <= chunks.len()
    &&& forall|j: int|
        0 <= j < cues.len() ==> shows(#[trigger] cues[j], chunks, bounds[j], bounds[j + 1])
    &&& forall|k: int|
        bounds.last() <= k < chunks.len() ==> !is_heard(#[trigger] chunks[k])
}

pub proof fn lemma_heard(s: Seq<char>)
    ensures
        asr::recognized(s).len() > 0 <==> text::is_visible(s),
        text::trimmed_start(s).len() > 0 <==> text::is_visible(s),
        text::words(s).len() > 0 <==> text::is_visible(s),
{
    text::lemma_trimmed_start(s);
    text::lemma_trimmed_start_visible(s);
    let t = text::trimmed_start(s);
    if t.len() > 0 {
        assert(!text::is_space(t[0]));
        assert(text::is_visible(t));
    } else {
        assert(!text::is_visible(t));
    }
    text::lemma_words_not_empty(s);
    lemma_tight_len(text::words(s));
}

proof fn lemma_tight_len(words: Seq<Seq<char>>)
    requires
        forall|i: int| 0 <= i < words.len() ==> (#[trigger] words[i]).len() > 0,
    ensures
        asr::tight(words).len() > 0 <==> words.len() > 0,
{
    if words.len() > 0 {
        assert(words[words.len() - 1].len() > 0);
    }
}

/// White space before a text does not matter for what is read of it.
pub proof fn lemma_recognized_trimmed(s: Seq<char>)
    ensures
        asr::recognized(text::trimmed_start(s)) == asr::recognized(s),
{
    text::lemma_trimmed_start(s);
    let t = text::trimmed_start(s);
    assert(text::trimmed_start(t) == t);
}

pub proof fn lemma_trimmed_start_sum(a: Seq<char>, b: Seq<char>)
    requires
        text::is_visible(a),
    ensures
        text::trimmed_start(a + b) == text::trimmed_start(a) + b,
    decreases a.len(),
{
    if a.len() > 0 && text::is_space(a[0]) {
        assert((a + b)[0] == a[0]);
        assert((a + b).skip(1) == a.skip(1) + b);
        let k = choose|k: int| 0 <= k < a.len() && !text::is_space(#[trigger] a[k]);
        assert(a.skip(1)[k - 1] == a[k]);
        lemma_trimmed_start_sum(a.skip(1), b);
    } else {
        assert((a + b)[0] == a[0]);
    }
}

proof fn lemma_said_same(a: Seq<Cue>, b: Seq<Cue>, from: int, to: int)
    requires
        0 <= from,
        to <= a.len(),
        to <= b.len(),
        forall|k: int| from <= k < to ==> a[k] == #[trigger] b[k],
    ensures
        said(a, from, to) == said(b, from, to),
    decreases to - from,
{
    if from < to {
        lemma_said_same(a, b, from, to - 1);
        assert(a[to - 1] == b[to - 1]);
    }
}

proof fn lemma_said_visible(chunks: Seq<Cue>, from: int, to: int)
    requires
        0 <= from <= to <= chunks.len(),
    ensures
        text::is_visible(said(chunks, from, to)) <==> exists|k: int|
            from <= k < to && is_heard(#[trigger] chunks[k]),
        said(chunks, from, to).len() > 0 ==> text::is_visible(said(chunks, from, to)),
    decreases to - from,
{
    if from < to {
        lemma_said_visible(chunks, from, to - 1);
        let before = said(chunks, from, to - 1);
        let all = said(chunks, from, to);
        let last = chunks[to - 1];
        if is_heard(last) {
            let k = choose|k: int| 0 <= k < last.text.len() && !text::is_space(#[trigger] last.text[k]);
            assert(all[before.len() + k] == last.text[k]);
        }
    }
}

/// A cue that shows chunks goes on showing them when others are behind them.
proof fn lemma_shows_more(cue: Cue, chunks: Seq<Cue>, more: Seq<Cue>, from: int, to: int)
    requires
        shows(cue, chunks, from, to),
        0 <= from <= to <= chunks.len() <= more.len(),
        forall|k: int| 0 <= k < chunks.len() ==> chunks[k] == #[trigger] more[k],
    ensures
        shows(cue, more, from, to),
{
    lemma_said_same(chunks, more, from, to);
    let end = choose|end: u64| #[trigger]
        is_time_of(cue.start_ms, end, chunks, from, to) && cue.end_ms == (if end
            >= cue.start_ms + 200 {
            end as int
        } else if cue.start_ms + 200 <= u64::MAX {
            cue.start_ms + 200
        } else {
            u64::MAX as int
        });
    lemma_time_more(cue.start_ms, end, chunks, more, from, to);
}

proof fn lemma_time_more(
    start: u64,
    end: u64,
    chunks: Seq<Cue>,
    more: Seq<Cue>,
    from: int,
    to: int,
)
    requires
        is_time_of(start, end, chunks, from, to),
        0 <= from <= to <= chunks.len() <= more.len(),
        forall|k: int| 0 <= k < chunks.len() ==> chunks[k] == #[trigger] more[k],
    ensures
        is_time_of(start, end, more, from, to),
{
    let i = choose|k: int|
        from <= k < to && is_heard(#[trigger] chunks[k]) && chunks[k].start_ms == start;
    let j = choose|k: int|
        from <= k < to && is_heard(#[trigger] chunks[k]) && chunks[k].end_ms == end;
    assert(more[i] == chunks[i] && more[j] == chunks[j]);
    assert forall|k: int| from <= k < to && is_heard(#[trigger] more[k]) implies start
        <= more[k].start_ms && more[k].end_ms <= end by {
        assert(more[k] == chunks[k]);
    }
}

/// The cues that are done show the chunks up to `bounds.last()`, and what is being put together are
/// the chunks behind them.
spec fn has_divided(bounds: Seq<int>, state: Grouping, chunks: Seq<Cue>) -> bool {
    let from = bounds.last();
    &&& bounds.len() == state.cues.len() + 1
    &&& bounds[0] == 0
    &&& 0 <= from <= chunks.len()
    &&& forall|j: int|
        0 <= j < state.cues.len() ==> 0 <= #[trigger] bounds[j] <= bounds[j + 1] <= chunks.len()
    &&& forall|j: int|
        0 <= j < state.cues.len() ==> shows(#[trigger] state.cues[j], chunks, bounds[j], bounds[j + 1])
    &&& state.text == text::trimmed_start(said(chunks, from, chunks.len() as int))
    &&& state.text.len() > 0 ==> is_time_of(
        state.start_ms,
        state.end_ms,
        chunks,
        from,
        chunks.len() as int,
    )
}

proof fn lemma_open(bounds: Seq<int>, state: Grouping, chunks: Seq<Cue>)
    requires
        has_divided(bounds, state, chunks),
    ensures
        state.text.len() > 0 <==> exists|k: int|
            bounds.last() <= k < chunks.len() && is_heard(#[trigger] chunks[k]),
        asr::recognized(state.text) == asr::recognized(
            said(chunks, bounds.last(), chunks.len() as int),
        ),
        state.text.len() > 0 ==> asr::recognized(state.text).len() > 0,
{
    let s = said(chunks, bounds.last(), chunks.len() as int);
    lemma_said_visible(chunks, bounds.last(), chunks.len() as int);
    lemma_heard(s);
    lemma_recognized_trimmed(s);
}

proof fn lemma_flush_divides(bounds: Seq<int>, state: Grouping, chunks: Seq<Cue>) -> (after: Seq<int>)
    requires
        has_divided(bounds, state, chunks),
    ensures
        has_divided(after, asr::flushed(state), chunks),
        state.text.len() > 0 ==> after.last() == chunks.len(),
        state.text.len() == 0 ==> after == bounds,
{
    let n = chunks.len() as int;
    let closed = asr::flushed(state);
    lemma_open(bounds, state, chunks);
    if state.text.len() == 0 {
        lemma_heard(state.text);
        assert(asr::recognized(state.text).len() == 0);
        assert(closed.cues =~= state.cues);
        assert(closed.text =~= state.text);
        bounds
    } else {
        let after = bounds.push(n);
        let cue = closed.cues.last();
        assert(closed.cues =~= state.cues.push(cue));
        assert(shows(cue, chunks, bounds.last(), n)) by {
            assert(is_time_of(cue.start_ms, state.end_ms, chunks, bounds.last(), n));
        }
        assert forall|j: int| 0 <= j < closed.cues.len() implies 0 <= #[trigger] after[j]
            <= after[j + 1] <= n by {
            if j < state.cues.len() {
                assert(after[j] == bounds[j] && after[j + 1] == bounds[j + 1]);
            }
        }
        assert forall|j: int| 0 <= j < closed.cues.len() implies shows(
            #[trigger] closed.cues[j],
            chunks,
            after[j],
            after[j + 1],
        ) by {
            if j < state.cues.len() {
                assert(closed.cues[j] == state.cues[j]);
                assert(after[j] == bounds[j] && after[j + 1] == bounds[j + 1]);
            }
        }
        assert(said(chunks, n, n) == Seq::<char>::empty());
        assert(text::trimmed_start(Seq::<char>::empty()) == Seq::<char>::empty());
        after
    }
}

/// The same bounds hold of more chunks, as long as the text and the time of what is being put
/// together are kept up.
proof fn lemma_more_divided(bounds: Seq<int>, state: Grouping, chunks: Seq<Cue>, chunk: Cue)
    requires
        has_divided(bounds, state, chunks),
    ensures
        ({
            let more = chunks.push(chunk);
            &&& bounds.len() == state.cues.len() + 1
            &&& forall|j: int|
                0 <= j < state.cues.len() ==> 0 <= #[trigger] bounds[j] <= bounds[j + 1]
                    <= more.len()
            &&& forall|j: int|
                0 <= j < state.cues.len() ==> shows(
                    #[trigger] state.cues[j],
                    more,
                    bounds[j],
                    bounds[j + 1],
                )
            &&& said(more, bounds.last(), chunks.len() as int) == said(
                chunks,
                bounds.last(),
                chunks.len() as int,
            )
        }),
{
    let more = chunks.push(chunk);
    lemma_said_same(chunks, more, bounds.last(), chunks.len() as int);
    assert forall|j: int| 0 <= j < state.cues.len() implies shows(
        #[trigger] state.cues[j],
        more,
        bounds[j],
        bounds[j + 1],
    ) by {
        assert(0 <= bounds[j] <= bounds[j + 1] <= chunks.len());
        lemma_shows_more(state.cues[j], chunks, more, bounds[j], bounds[j + 1]);
    }
}

/// A blank chunk changes nothing.
proof fn lemma_blank_divides(bounds: Seq<int>, state: Grouping, chunks: Seq<Cue>, chunk: Cue)
    requires
        has_divided(bounds, state, chunks),
        !is_heard(chunk),
    ensures
        has_divided(bounds, state, chunks.push(chunk)),
{
    let more = chunks.push(chunk);
    let n = chunks.len() as int;
    let from = bounds.last();
    lemma_more_divided(bounds, state, chunks, chunk);
    assert(more[n] == chunk);
    assert(said(more, from, n + 1) == said(more, from, n));
    if state.text.len() > 0 {
        lemma_time_more(state.start_ms, state.end_ms, chunks, more, from, n);
        let i = choose|k: int|
            from <= k < n && is_heard(#[trigger] more[k]) && more[k].start_ms == state.start_ms;
        let j = choose|k: int|
            from <= k < n && is_heard(#[trigger] more[k]) && more[k].end_ms == state.end_ms;
        assert(is_heard(more[i]) && is_heard(more[j]));
        assert(is_time_of(state.start_ms, state.end_ms, more, from, n + 1));
    }
}

/// The text of a chunk is put behind what is there.
proof fn lemma_longer_text(bounds: Seq<int>, open: Grouping, chunks: Seq<Cue>, chunk: Cue)
    requires
        has_divided(bounds, open, chunks),
        is_heard(chunk),
    ensures
        asr::appended(open.text, chunk.text) == text::trimmed_start(
            said(chunks.push(chunk), bounds.last(), chunks.len() as int + 1),
        ),
{
    let more = chunks.push(chunk);
    let n = chunks.len() as int;
    let from = bounds.last();
    let before = said(chunks, from, n);
    lemma_said_same(chunks, more, from, n);
    assert(more[n] == chunk);
    assert(said(more, from, n + 1) == before + chunk.text);
    lemma_heard(before);
    if open.text.len() > 0 {
        lemma_trimmed_start_sum(before, chunk.text);
    } else {
        lemma_said_visible(chunks, from, n);
        assert(before.len() == 0);
        assert(before + chunk.text == chunk.text);
    }
}

/// A state that goes on from a divided one with one more chunk.
proof fn lemma_longer_divides(
    bounds: Seq<int>,
    open: Grouping,
    chunks: Seq<Cue>,
    chunk: Cue,
    longer: Grouping,
)
    requires
        has_divided(bounds, open, chunks),
        is_heard(chunk),
        longer.cues == open.cues,
        longer.text == asr::appended(open.text, chunk.text),
        is_time_of(
            longer.start_ms,
            longer.end_ms,
            chunks.push(chunk),
            bounds.last(),
            chunks.len() as int + 1,
        ),
    ensures
        has_divided(bounds, longer, chunks.push(chunk)),
{
    lemma_more_divided(bounds, open, chunks, chunk);
    lemma_longer_text(bounds, open, chunks, chunk);
}

/// What `with_room` leaves open, and with which times.
proof fn lemma_room(state: Grouping, chunk: Cue)
    ensures
        ({
            let (room, closes) = asr::with_room(state, chunk);
            let splits = state.text.len() > 0 && room.text.len() == 0;
            let open = if splits {
                asr::flushed(state)
            } else {
                state
            };
            &&& room.cues == open.cues
            &&& room.text == open.text
            &&& open.text.len() == 0 ==> room.start_ms == chunk.start_ms
            &&& open.text.len() > 0 ==> room.start_ms == open.start_ms
            &&& room.end_ms == chunk.end_ms || (state.text.len() > 0 && room.end_ms == asr::later(
                state.end_ms,
                chunk.end_ms,
            ))
        }),
{
}

proof fn lemma_chunk_divides(
    bounds: Seq<int>,
    state: Grouping,
    chunks: Seq<Cue>,
    chunk: Cue,
) -> (after: Seq<int>)
    requires
        has_divided(bounds, state, chunks),
        in_order(chunks.push(chunk)),
        are_short(chunks.push(chunk)),
    ensures
        has_divided(after, asr::with_chunk(state, chunk), chunks.push(chunk)),
{
    let more = chunks.push(chunk);
    assert(more[chunks.len() as int] == chunk);
    lemma_heard(chunk.text);
    assert(!asr::is_oversized(chunk));
    if !is_heard(chunk) {
        lemma_blank_divides(bounds, state, chunks, chunk);
        bounds
    } else {
        let (room, closes) = asr::with_room(state, chunk);
        let longer = Grouping { text: asr::appended(room.text, chunk.text), ..room };
        let splits = state.text.len() > 0 && room.text.len() == 0;
        lemma_room(state, chunk);
        let open = if splits {
            asr::flushed(state)
        } else {
            state
        };
        let middle = if splits {
            lemma_flush_divides(bounds, state, chunks)
        } else {
            bounds
        };
        if state.text.len() > 0 {
            let k = choose|k: int|
                bounds.last() <= k < chunks.len() && is_heard(#[trigger] chunks[k])
                    && chunks[k].end_ms == state.end_ms;
            assert(chunks[k].end_ms == state.end_ms);
        }
        lemma_longer_time(middle, open, state, chunks, chunk, longer);
        lemma_longer_divides(middle, open, chunks, chunk, longer);
        let closed = lemma_flush_divides(middle, longer, more);
        if closes || (asr::time_between(longer.end_ms, longer.start_ms)
            >= asr::MIN_SENTENCE_CUE_MS && asr::sentence_ended(longer.text)) {
            closed
        } else {
            middle
        }
    }
}

/// The chunk that is taken in ends what is being put together, and begins it when nothing is before
/// it.
proof fn lemma_longer_time(
    bounds: Seq<int>,
    open: Grouping,
    state: Grouping,
    chunks: Seq<Cue>,
    chunk: Cue,
    longer: Grouping,
)
    requires
        has_divided(bounds, open, chunks),
        in_order(chunks.push(chunk)),
        is_heard(chunk),
        open == state || (state.text.len() > 0 && open == asr::flushed(state)),
        state.text.len() > 0 ==> exists|k: int|
            0 <= k < chunks.len() && #[trigger] chunks[k].end_ms == state.end_ms,
        open.text.len() == 0 ==> longer.start_ms == chunk.start_ms,
        open.text.len() > 0 ==> longer.start_ms == open.start_ms,
        longer.end_ms == chunk.end_ms || (state.text.len() > 0 && longer.end_ms == asr::later(
            state.end_ms,
            chunk.end_ms,
        )),
    ensures
        is_time_of(
            longer.start_ms,
            longer.end_ms,
            chunks.push(chunk),
            bounds.last(),
            chunks.len() as int + 1,
        ),
{
    let more = chunks.push(chunk);
    let n = chunks.len() as int;
    let from = bounds.last();
    assert(more[n] == chunk && is_heard(more[n]));
    lemma_open(bounds, open, chunks);
    if state.text.len() > 0 {
        let k = choose|k: int| 0 <= k < chunks.len() && #[trigger] chunks[k].end_ms == state.end_ms;
        assert(more[k] == chunks[k]);
        assert(more[k].end_ms <= more[n].end_ms);
    }
    assert(longer.end_ms == chunk.end_ms);
    if open.text.len() > 0 {
        let i = choose|k: int|
            from <= k < n && is_heard(#[trigger] chunks[k]) && chunks[k].start_ms == open.start_ms;
        assert(more[i] == chunks[i]);
        assert(is_heard(more[i]) && more[i].start_ms == longer.start_ms);
    }
    assert forall|k: int| from <= k < n + 1 && is_heard(#[trigger] more[k]) implies
        longer.start_ms <= more[k].start_ms && more[k].end_ms <= longer.end_ms by {
        if k < n {
            assert(more[k] == chunks[k]);
            assert(more[k].end_ms <= more[n].end_ms);
        } else if open.text.len() > 0 {
            let i = choose|i: int|
                from <= i < n && is_heard(#[trigger] chunks[i]) && chunks[i].start_ms
                    == open.start_ms;
            assert(more[i] == chunks[i]);
            assert(more[i].start_ms <= more[n].start_ms);
        }
    }
}

proof fn lemma_grouping_divides(chunks: Seq<Cue>) -> (bounds: Seq<int>)
    requires
        in_order(chunks),
        are_short(chunks),
    ensures
        has_divided(bounds, asr::grouping(chunks), chunks),
    decreases chunks.len(),
{
    if chunks.len() == 0 {
        let bounds = seq![0int];
        assert(text::trimmed_start(Seq::<char>::empty()) == Seq::<char>::empty());
        bounds
    } else {
        let before = chunks.drop_last();
        assert(before.push(chunks.last()) == chunks);
        assert forall|i: int, j: int| 0 <= i < j < before.len() implies (
        #[trigger] before[i]).start_ms <= (#[trigger] before[j]).start_ms && before[i].end_ms
            <= before[j].end_ms by {
            assert(before[i] == chunks[i] && before[j] == chunks[j]);
        }
        assert forall|i: int| 0 <= i < before.len() implies asr::recognized(
            (#[trigger] before[i]).text,
        ).len() <= 28 && before[i].end_ms - before[i].start_ms <= 5_500 by {
            assert(before[i] == chunks[i]);
        }
        let bounds = lemma_grouping_divides(before);
        lemma_chunk_divides(bounds, asr::grouping(before), before, chunks.last())
    }
}

/// The cues that chunks are grouped into divide the chunks among them, in order. Each cue has the
/// text of its chunks, starts when the first of them starts and ends when the last of them ends, but
/// not within a fifth of a second.
pub proof fn each_cue_shows_its_chunks(chunks: Seq<Cue>)
    requires
        in_order(chunks),
        are_short(chunks),
    ensures
        exists|bounds: Seq<int>| divide(bounds, asr::grouped(chunks), chunks),
{
    let open = lemma_grouping_divides(chunks);
    let state = asr::grouping(chunks);
    let bounds = lemma_flush_divides(open, state, chunks);
    lemma_open(bounds, asr::flushed(state), chunks);
    assert(divide(bounds, asr::grouped(chunks), chunks));
}

/// The last visible character of a text is a mark that ends a sentence.
pub open spec fn ends_with_mark(s: Seq<char>) -> bool {
    exists|k: int|
        0 <= k < s.len() && is_mark(#[trigger] s[k]) && forall|j: int|
            k < j < s.len() ==> text::is_space(#[trigger] s[j])
}

/// A mark that ends a sentence.
pub open spec fn is_mark(c: char) -> bool {
    c == '。' || c == '！' || c == '？' || c == '；' || c == '!' || c == '?' || c == ';'
}

proof fn lemma_trimmed_end_shape(s: Seq<char>)
    ensures
        ({
            let t = text::trimmed_end(s);
            &&& t.len() <= s.len()
            &&& t == s.take(t.len() as int)
            &&& t.len() > 0 ==> !text::is_space(s[t.len() - 1])
            &&& forall|j: int| t.len() <= j < s.len() ==> text::is_space(#[trigger] s[j])
        }),
    decreases s.len(),
{
    if s.len() > 0 && text::is_space(s.last()) {
        let rest = s.drop_last();
        lemma_trimmed_end_shape(rest);
        let t = text::trimmed_end(s);
        assert(rest.take(t.len() as int) =~= s.take(t.len() as int));
        assert forall|j: int| t.len() <= j < s.len() implies text::is_space(#[trigger] s[j]) by {
            if j < rest.len() {
                assert(rest[j] == s[j]);
            }
        }
        if t.len() > 0 {
            assert(rest[t.len() - 1] == s[t.len() - 1]);
        }
    } else {
        assert(s.take(s.len() as int) =~= s);
    }
}

proof fn lemma_sentence_ended(before: Seq<char>, s: Seq<char>)
    requires
        text::is_visible(s),
    ensures
        asr::sentence_ended(before + s) <==> ends_with_mark(s),
        asr::sentence_ended(text::trimmed_start(s)) <==> ends_with_mark(s),
{
    lemma_ended_by_shape(before, s);
    text::lemma_trimmed_start_visible(s);
    let t = text::trimmed_start(s);
    lemma_ended_by_shape(Seq::empty(), t);
    assert(Seq::<char>::empty() + t =~= t);
    lemma_mark_trimmed(s);
}

proof fn lemma_mark_trimmed(s: Seq<char>)
    ensures
        ends_with_mark(text::trimmed_start(s)) <==> ends_with_mark(s),
    decreases s.len(),
{
    if s.len() > 0 && text::is_space(s[0]) {
        let rest = s.skip(1);
        lemma_mark_trimmed(rest);
        if ends_with_mark(rest) {
            let k = choose|k: int|
                0 <= k < rest.len() && is_mark(#[trigger] rest[k]) && forall|j: int|
                    k < j < rest.len() ==> text::is_space(#[trigger] rest[j]);
            assert(s[k + 1] == rest[k]);
            assert forall|j: int| k + 1 < j < s.len() implies text::is_space(#[trigger] s[j]) by {
                assert(s[j] == rest[j - 1]);
            }
        }
        if ends_with_mark(s) {
            let k = choose|k: int|
                0 <= k < s.len() && is_mark(#[trigger] s[k]) && forall|j: int|
                    k < j < s.len() ==> text::is_space(#[trigger] s[j]);
            assert(k > 0);
            assert(rest[k - 1] == s[k]);
            assert forall|j: int| k - 1 < j < rest.len() implies text::is_space(
                #[trigger] rest[j],
            ) by {
                assert(rest[j] == s[j + 1]);
            }
        }
    }
}

proof fn lemma_ended_by_shape(before: Seq<char>, s: Seq<char>)
    requires
        text::is_visible(s),
    ensures
        asr::sentence_ended(before + s) <==> ends_with_mark(s),
{
    let all = before + s;
    lemma_trimmed_end_shape(all);
    lemma_trimmed_end_shape(s);
    let n = text::trimmed_end(s).len() as int;
    let m = text::trimmed_end(all).len() as int;
    let v = choose|v: int| 0 <= v < s.len() && !text::is_space(#[trigger] s[v]);
    assert(v < n);
    assert(s[n - 1] == all[before.len() + n - 1]);
    assert(before.len() + n - 1 < m) by {
        if m <= before.len() + n - 1 {
            assert(text::is_space(all[before.len() + n - 1]));
        }
    }
    assert(m == before.len() + n) by {
        if m > before.len() + n {
            assert(all[m - 1] == s[m - 1 - before.len()]);
            assert(text::is_space(s[m - 1 - before.len()]));
        }
    }
    assert(text::trimmed_end(all).last() == s[n - 1]);
    if ends_with_mark(s) {
        let k = choose|k: int|
            0 <= k < s.len() && is_mark(#[trigger] s[k]) && forall|j: int|
                k < j < s.len() ==> text::is_space(#[trigger] s[j]);
        assert(!text::is_space(s[k]));
        assert(k < n);
        assert(k == n - 1) by {
            if k < n - 1 {
                assert(text::is_space(s[n - 1]));
            }
        }
    }
    if asr::sentence_ended(all) {
        assert(is_mark(s[n - 1]));
    }
}

/// Chunks that fit into one cue: something is said in each, all of it has at most 28 characters and
/// takes at most five and a half seconds, and no sentence ends before the last chunk.
pub open spec fn fit_one_cue(chunks: Seq<Cue>) -> bool {
    &&& chunks.len() > 0
    &&& in_order(chunks)
    &&& forall|i: int| 0 <= i < chunks.len() ==> is_heard(#[trigger] chunks[i])
    &&& asr::recognized(chunks[0].text).len() <= 28
    &&& forall|i: int|
        0 < i < chunks.len() ==> said(chunks, 0, i).len() + asr::recognized(
            (#[trigger] chunks[i]).text,
        ).len() <= 28
    &&& chunks.last().end_ms - chunks[0].start_ms <= 5_500
    &&& forall|i: int| 0 <= i < chunks.len() - 1 ==> !ends_with_mark((#[trigger] chunks[i]).text)
}

/// The cue that such chunks make.
pub open spec fn one_cue(chunks: Seq<Cue>) -> Cue {
    Cue {
        start_ms: chunks[0].start_ms,
        end_ms: if chunks.last().end_ms >= chunks[0].start_ms + 200 {
            chunks.last().end_ms
        } else if chunks[0].start_ms + 200 <= u64::MAX {
            (chunks[0].start_ms + 200) as u64
        } else {
            u64::MAX
        },
        text: asr::recognized(said(chunks, 0, chunks.len() as int)),
    }
}

/// What is being put together of such chunks.
spec fn opened(chunks: Seq<Cue>) -> Grouping {
    Grouping {
        cues: Seq::empty(),
        text: text::trimmed_start(said(chunks, 0, chunks.len() as int)),
        start_ms: chunks[0].start_ms,
        end_ms: chunks.last().end_ms,
    }
}

proof fn lemma_fit_before(chunks: Seq<Cue>)
    requires
        fit_one_cue(chunks),
        chunks.len() > 1,
    ensures
        fit_one_cue(chunks.drop_last()),
{
    let n = chunks.len() as int;
    let before = chunks.drop_last();
    assert forall|i: int| 0 <= i < before.len() implies is_heard(#[trigger] before[i]) by {
        assert(before[i] == chunks[i]);
    }
    assert forall|i: int, j: int| 0 <= i < j < before.len() implies (#[trigger] before[i]).start_ms
        <= (#[trigger] before[j]).start_ms && before[i].end_ms <= before[j].end_ms by {
        assert(before[i] == chunks[i] && before[j] == chunks[j]);
    }
    assert forall|i: int| 0 < i < before.len() implies said(before, 0, i).len() + asr::recognized(
        (#[trigger] before[i]).text,
    ).len() <= 28 by {
        assert(before[i] == chunks[i]);
        lemma_said_same(chunks, before, 0, i);
    }
    assert forall|i: int| 0 <= i < before.len() - 1 implies !ends_with_mark(
        (#[trigger] before[i]).text,
    ) by {
        assert(before[i] == chunks[i]);
    }
    assert(chunks[n - 2].end_ms <= chunks[n - 1].end_ms);
    assert(before.last() == chunks[n - 2]);
}

proof fn lemma_opened_text(chunks: Seq<Cue>)
    requires
        fit_one_cue(chunks),
    ensures
        opened(chunks).text.len() > 0,
{
    let n = chunks.len() as int;
    assert(is_heard(chunks[n - 1]));
    lemma_heard(said(chunks, 0, n));
    lemma_said_visible(chunks, 0, n);
}

/// The chunk is put behind what has been put together.
proof fn lemma_opened_step(chunks: Seq<Cue>)
    requires
        fit_one_cue(chunks),
        chunks.len() > 1,
    ensures
        asr::with_chunk(opened(chunks.drop_last()), chunks.last()) == (if ends_with_mark(
            chunks.last().text,
        ) && chunks.last().end_ms - chunks[0].start_ms >= 700 {
            asr::flushed(opened(chunks))
        } else {
            opened(chunks)
        }),
{
    let n = chunks.len() as int;
    let chunk = chunks[n - 1];
    let before = chunks.drop_last();
    let state = opened(before);
    lemma_fit_before(chunks);
    lemma_opened_text(before);
    assert(is_heard(chunk));
    lemma_heard(chunk.text);
    lemma_said_same(chunks, before, 0, n - 1);
    let heard = said(chunks, 0, n - 1);
    assert(said(chunks, 0, n) == heard + chunk.text);
    assert(chunks[0].start_ms <= chunks[n - 1].start_ms);
    assert(chunks[n - 2].end_ms <= chunks[n - 1].end_ms);
    assert(before.last() == chunks[n - 2]);
    assert(state.text == text::trimmed_start(heard));
    text::lemma_trimmed_len(heard);
    assert(heard.len() + asr::recognized(chunks[n - 1].text).len() <= 28);
    assert(!asr::would_overflow(state, chunk));
    assert(!asr::is_oversized(chunk));
    lemma_heard(heard);
    lemma_trimmed_start_sum(heard, chunk.text);
    lemma_sentence_ended(state.text, chunk.text);
    let (room, closes) = asr::with_room(state, chunk);
    assert(!closes);
    assert(Grouping { text: asr::appended(room.text, chunk.text), ..room } == opened(chunks));
}

proof fn lemma_opened(chunks: Seq<Cue>)
    requires
        fit_one_cue(chunks),
    ensures
        asr::grouping(chunks) == (if ends_with_mark(chunks.last().text) && chunks.last().end_ms
            - chunks[0].start_ms >= 700 {
            asr::flushed(opened(chunks))
        } else {
            opened(chunks)
        }),
        opened(chunks).text.len() > 0,
    decreases chunks.len(),
{
    lemma_opened_text(chunks);
    let n = chunks.len() as int;
    let chunk = chunks[n - 1];
    let before = chunks.drop_last();
    if n == 1 {
        assert(before =~= Seq::<Cue>::empty());
        assert(said(chunks, 0, 0) + chunk.text =~= chunk.text);
        assert(is_heard(chunk));
        lemma_heard(chunk.text);
        lemma_sentence_ended(Seq::empty(), chunk.text);
        let state = asr::grouping(before);
        let (room, closes) = asr::with_room(state, chunk);
        assert(Grouping { text: asr::appended(room.text, chunk.text), ..room } == opened(chunks));
    } else {
        lemma_fit_before(chunks);
        lemma_opened(before);
        assert(!ends_with_mark(chunks[n - 2].text));
        assert(before.last() == chunks[n - 2]);
        lemma_opened_step(chunks);
    }
}

/// Chunks that fit into one cue make one cue: it has all that is said, and lasts from the start of the
/// first chunk to the end of the last.
pub proof fn chunks_that_fit_make_one_cue(chunks: Seq<Cue>)
    requires
        fit_one_cue(chunks),
    ensures
        asr::grouped(chunks) == seq![one_cue(chunks)],
{
    lemma_opened(chunks);
    let open = opened(chunks);
    let all = said(chunks, 0, chunks.len() as int);
    lemma_recognized_trimmed(all);
    lemma_heard(open.text);
    lemma_heard(all);
    assert(asr::recognized(open.text).len() > 0) by {
        text::lemma_trimmed_start_visible(all);
        lemma_said_visible(chunks, 0, chunks.len() as int);
        assert(is_heard(chunks[0]));
    }
    assert(asr::flushed(open).cues =~= seq![one_cue(chunks)]);
    lemma_nothing_to_flush(asr::flushed(open));
}

proof fn lemma_nothing_to_flush(state: Grouping)
    requires
        state.text.len() == 0,
    ensures
        asr::flushed(state) == state,
{
    lemma_heard(state.text);
    assert(asr::flushed(state).cues =~= state.cues);
    assert(asr::flushed(state).text =~= state.text);
}

/// The same but for the cues that are done, and for times that do not matter.
spec fn goes_on(all: Grouping, rest: Grouping, before: Seq<Cue>) -> bool {
    &&& all.cues == before + rest.cues
    &&& all.text == rest.text
    &&& all.text.len() > 0 ==> all.start_ms == rest.start_ms && all.end_ms == rest.end_ms
}

proof fn lemma_flush_goes_on(all: Grouping, rest: Grouping, before: Seq<Cue>)
    requires
        goes_on(all, rest, before),
    ensures
        goes_on(asr::flushed(all), asr::flushed(rest), before),
{
    if all.text.len() == 0 {
        lemma_nothing_to_flush(all);
        lemma_nothing_to_flush(rest);
    } else {
        assert(asr::flushed(all).cues =~= before + asr::flushed(rest).cues);
    }
}

proof fn lemma_chunk_goes_on(all: Grouping, rest: Grouping, before: Seq<Cue>, chunk: Cue)
    requires
        goes_on(all, rest, before),
    ensures
        goes_on(asr::with_chunk(all, chunk), asr::with_chunk(rest, chunk), before),
{
    lemma_flush_goes_on(all, rest, before);
    if asr::recognized(chunk.text).len() == 0 {
    } else if asr::is_oversized(chunk) {
        assert(asr::with_oversized(all, chunk).cues =~= before + asr::with_oversized(rest, chunk).cues);
    } else {
        let (room, closes) = asr::with_room(all, chunk);
        let (other, other_closes) = asr::with_room(rest, chunk);
        let longer = Grouping { text: asr::appended(room.text, chunk.text), ..room };
        let other_longer = Grouping { text: asr::appended(other.text, chunk.text), ..other };
        assert(closes == other_closes);
        assert(room.start_ms == other.start_ms && room.end_ms == other.end_ms);
        assert(goes_on(longer, other_longer, before));
        lemma_flush_goes_on(longer, other_longer, before);
    }
}

proof fn lemma_grouping_goes_on(first: Seq<Cue>, rest: Seq<Cue>)
    requires
        asr::grouping(first).text.len() == 0,
    ensures
        goes_on(asr::grouping(first + rest), asr::grouping(rest), asr::grouping(first).cues),
    decreases rest.len(),
{
    let all = first + rest;
    if rest.len() == 0 {
        assert(all =~= first);
        assert(asr::grouping(first).cues + Seq::<Cue>::empty() =~= asr::grouping(first).cues);
        assert(asr::grouping(first).text =~= Seq::<char>::empty());
    } else {
        assert(all.drop_last() =~= first + rest.drop_last());
        assert(all.last() == rest.last());
        lemma_grouping_goes_on(first, rest.drop_last());
        lemma_chunk_goes_on(
            asr::grouping(first + rest.drop_last()),
            asr::grouping(rest.drop_last()),
            asr::grouping(first).cues,
            rest.last(),
        );
    }
}

/// Behind a sentence that has taken at least seven tenths of a second a new cue begins: what follows
/// is grouped as if nothing had been before it.
pub proof fn a_sentence_closes_its_cue(first: Seq<Cue>, rest: Seq<Cue>)
    requires
        fit_one_cue(first),
        ends_with_mark(first.last().text),
        first.last().end_ms - first[0].start_ms >= 700,
    ensures
        asr::grouped(first + rest) == seq![one_cue(first)] + asr::grouped(rest),
{
    lemma_opened(first);
    chunks_that_fit_make_one_cue(first);
    let done = asr::grouping(first);
    lemma_nothing_to_flush(done);
    lemma_grouping_goes_on(first, rest);
    lemma_flush_goes_on(asr::grouping(first + rest), asr::grouping(rest), done.cues);
}

/// Chunks that another one does not fit behind.
pub open spec fn leaves_no_room(first: Seq<Cue>, chunk: Cue) -> bool {
    text::trimmed_start(said(first, 0, first.len() as int)).len() + asr::recognized(
        chunk.text,
    ).len() > 28 || chunk.end_ms - first[0].start_ms > 5_500
}

/// The second text goes on with the Latin word or number with which the first one ends.
pub open spec fn goes_on_with_word(first: Seq<char>, second: Seq<char>) -> bool {
    &&& first.len() > 0
    &&& second.len() > 0
    &&& ('a' <= first.last() <= 'z' || 'A' <= first.last() <= 'Z' || '0' <= first.last() <= '9')
    &&& ('a' <= second[0] <= 'z' || 'A' <= second[0] <= 'Z' || '0' <= second[0] <= '9')
}

/// A chunk that finds no room begins a cue of its own, unless it goes on with a word: the cue before
/// it keeps what it has.
pub proof fn a_full_cue_is_closed(first: Seq<Cue>, chunk: Cue)
    requires
        fit_one_cue(first),
        in_order(first.push(chunk)),
        is_heard(chunk),
        asr::recognized(chunk.text).len() <= 28,
        chunk.end_ms - chunk.start_ms <= 5_500,
        leaves_no_room(first, chunk),
        !goes_on_with_word(first.last().text, asr::recognized(chunk.text)),
    ensures
        asr::grouped(first.push(chunk)) == seq![one_cue(first), one_cue(seq![chunk])],
{
    let all = first.push(chunk);
    assert(all.drop_last() =~= first);
    assert(all.last() == chunk);
    lemma_opened(first);
    chunks_that_fit_make_one_cue(first);
    lemma_single(chunk);
    chunks_that_fit_make_one_cue(seq![chunk]);
    let open = opened(first);
    let state = asr::grouping(first);
    assert(all[first.len() - 1] == first.last());
    assert(all[first.len() - 1].end_ms <= all[first.len() as int].end_ms);
    if state.text.len() == 0 {
        lemma_grouping_goes_on(first, seq![chunk]);
        assert(first + seq![chunk] =~= all);
        lemma_flush_goes_on(asr::grouping(all), asr::grouping(seq![chunk]), state.cues);
        lemma_nothing_to_flush(state);
        assert(state.cues + seq![one_cue(seq![chunk])] =~= seq![
            one_cue(first),
            one_cue(seq![chunk]),
        ]);
    } else {
        lemma_open_last(first);
        lemma_heard(chunk.text);
        assert(asr::would_overflow(open, chunk));
        assert(!asr::word_continues(open.text, asr::recognized(chunk.text)));
        let closed = asr::flushed(open);
        let (room, closes) = asr::with_room(open, chunk);
        let longer = Grouping { text: asr::appended(room.text, chunk.text), ..room };
        assert(seq![chunk].drop_last() =~= Seq::<Cue>::empty());
        let alone = asr::grouping(seq![chunk]);
        let fresh = asr::grouping(Seq::<Cue>::empty());
        assert(goes_on(closed, fresh, closed.cues)) by {
            assert(closed.cues + fresh.cues =~= closed.cues);
        }
        lemma_chunk_goes_on(closed, fresh, closed.cues, chunk);
        assert(asr::with_chunk(open, chunk) == asr::with_chunk(closed, chunk)) by {
            assert(asr::with_room(closed, chunk).0.start_ms == chunk.start_ms);
            assert(room.end_ms == chunk.end_ms);
            assert(asr::with_room(closed, chunk).0 == room);
        }
        lemma_flush_goes_on(asr::with_chunk(closed, chunk), alone, closed.cues);
        assert(closed.cues + seq![one_cue(seq![chunk])] =~= seq![
            one_cue(first),
            one_cue(seq![chunk]),
        ]);
    }
}

/// A chunk that goes on with a Latin word finishes it in the same cue, room or not.
pub proof fn a_latin_word_is_finished_in_its_cue(first: Seq<Cue>, chunk: Cue)
    requires
        fit_one_cue(first),
        in_order(first.push(chunk)),
        is_heard(chunk),
        asr::recognized(chunk.text).len() <= 28,
        chunk.end_ms - chunk.start_ms <= 5_500,
        goes_on_with_word(first.last().text, asr::recognized(chunk.text)),
    ensures
        asr::grouped(first.push(chunk)) == seq![one_cue(first.push(chunk))],
{
    let all = first.push(chunk);
    let n = first.len() as int;
    assert(all.drop_last() =~= first);
    assert(all.last() == chunk);
    lemma_opened(first);
    let open = opened(first);
    lemma_no_mark(first.last().text);
    assert(asr::grouping(first) == open);
    lemma_open_last(first);
    lemma_heard(chunk.text);
    assert(asr::word_continues(open.text, asr::recognized(chunk.text)));
    let (room, closes) = asr::with_room(open, chunk);
    let longer = Grouping { text: asr::appended(room.text, chunk.text), ..room };
    let heard = said(first, 0, n);
    lemma_said_same(first, all, 0, n);
    assert(said(all, 0, n + 1) == heard + chunk.text);
    lemma_heard(heard);
    lemma_trimmed_start_sum(heard, chunk.text);
    assert(all[n - 1] == first.last() && all[n] == chunk);
    assert(all[n - 1].end_ms <= all[n].end_ms);
    assert(longer.text == text::trimmed_start(said(all, 0, n + 1)));
    assert(longer.end_ms == chunk.end_ms);
    let whole = said(all, 0, n + 1);
    lemma_recognized_trimmed(whole);
    lemma_said_visible(all, 0, n + 1);
    assert(is_heard(all[n]));
    lemma_heard(whole);
    assert(asr::flushed(longer).cues =~= seq![one_cue(all)]);
    lemma_nothing_to_flush(asr::flushed(longer));
}

/// A chunk that is longer than a cue may be: more than 28 characters or five and a half seconds.
pub open spec fn is_long(chunk: Cue) -> bool {
    asr::recognized(chunk.text).len() > 28 || chunk.end_ms - chunk.start_ms > 5_500
}

/// A long chunk that does not begin with a Latin word or a number is divided into its sentences, which
/// come behind the cues of what was heard before it.
pub proof fn a_long_chunk_becomes_its_sentences(before: Seq<Cue>, chunk: Cue)
    requires
        is_heard(chunk),
        is_long(chunk),
        !goes_on_with_word(seq!['a'], asr::recognized(chunk.text)),
    ensures
        asr::grouped(before.push(chunk)) == asr::grouped(before) + asr::utterance_cues(
            chunk.start_ms,
            chunk.end_ms,
            chunk.text,
        ),
{
    let all = before.push(chunk);
    assert(all.drop_last() =~= before);
    assert(all.last() == chunk);
    lemma_heard(chunk.text);
    let state = asr::grouping(before);
    assert(seq!['a'].last() == 'a');
    assert(!asr::word_continues(state.text, asr::recognized(chunk.text)));
    lemma_nothing_to_flush(asr::with_chunk(state, chunk));
}

/// A long chunk that goes on with a Latin word is divided together with what stands before it in the
/// cue: from the start of the first chunk to the last end.
pub proof fn a_long_chunk_finishes_a_word(first: Seq<Cue>, chunk: Cue)
    requires
        fit_one_cue(first),
        is_heard(chunk),
        is_long(chunk),
        goes_on_with_word(first.last().text, asr::recognized(chunk.text)),
    ensures
        asr::grouped(first.push(chunk)) == asr::utterance_cues(
            first[0].start_ms,
            if chunk.end_ms >= first.last().end_ms {
                chunk.end_ms
            } else {
                first.last().end_ms
            },
            text::trimmed_start(said(first.push(chunk), 0, first.len() as int + 1)),
        ),
{
    let all = first.push(chunk);
    let n = first.len() as int;
    assert(all.drop_last() =~= first);
    assert(all.last() == chunk);
    lemma_opened(first);
    lemma_no_mark(first.last().text);
    let open = opened(first);
    assert(asr::grouping(first) == open);
    lemma_open_last(first);
    lemma_heard(chunk.text);
    assert(asr::word_continues(open.text, asr::recognized(chunk.text)));
    let heard = said(first, 0, n);
    lemma_said_same(first, all, 0, n);
    assert(is_heard(all[n]));
    assert(said(all, 0, n + 1) == heard + chunk.text);
    lemma_heard(heard);
    lemma_trimmed_start_sum(heard, chunk.text);
    assert(asr::appended(open.text, chunk.text) == text::trimmed_start(said(all, 0, n + 1)));
    lemma_nothing_to_flush(asr::with_chunk(open, chunk));
    assert(asr::with_chunk(open, chunk).cues =~= asr::utterance_cues(
        first[0].start_ms,
        asr::later(chunk.end_ms, first.last().end_ms),
        text::trimmed_start(said(all, 0, n + 1)),
    ));
}

proof fn lemma_single(chunk: Cue)
    requires
        is_heard(chunk),
        asr::recognized(chunk.text).len() <= 28,
        chunk.end_ms - chunk.start_ms <= 5_500,
    ensures
        fit_one_cue(seq![chunk]),
{
}

proof fn lemma_no_mark(s: Seq<char>)
    requires
        s.len() > 0,
        'a' <= s.last() <= 'z' || 'A' <= s.last() <= 'Z' || '0' <= s.last() <= '9',
    ensures
        !ends_with_mark(s),
{
    if ends_with_mark(s) {
        let k = choose|k: int|
            0 <= k < s.len() && is_mark(#[trigger] s[k]) && forall|j: int|
                k < j < s.len() ==> text::is_space(#[trigger] s[j]);
        if k < s.len() - 1 {
            assert(text::is_space(s[s.len() - 1]));
        }
    }
}

/// What is being put together ends as the last chunk does.
proof fn lemma_open_last(first: Seq<Cue>)
    requires
        fit_one_cue(first),
    ensures
        opened(first).text.len() > 0,
        opened(first).text.last() == first.last().text.last(),
        first.last().text.len() > 0,
{
    let n = first.len() as int;
    let heard = said(first, 0, n);
    let last = first[n - 1];
    assert(is_heard(last));
    assert(heard == said(first, 0, n - 1) + last.text);
    lemma_opened(first);
    lemma_trimmed_last(heard);
}

proof fn lemma_trimmed_last(s: Seq<char>)
    ensures
        text::trimmed_start(s).len() > 0 ==> text::trimmed_start(s).last() == s.last(),
    decreases s.len(),
{
    if s.len() > 0 && text::is_space(s[0]) {
        lemma_trimmed_last(s.skip(1));
    }
}

} // verus!
