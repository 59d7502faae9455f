//! Subtitle files: decoding their bytes, reading their cues, writing timestamps.
//!
//! Four formats are read: SubRip (SRT), WebVTT, Advanced SubStation (ASS/SSA) and LRC lyrics.
//! Whatever the format, the cues of a track come out in the same normal form: they carry text,
//! they end after they start, and no two start together.
use vstd::prelude::*;

use crate::file_names;
use crate::text;

verus! {

#[derive(Clone, Copy, Debug, PartialEq, Eq, Structural)]
pub enum SubtitleFormat {
    Srt,
    WebVtt,
    Ass,
    Lrc,
}

/// The name of a format.
pub open spec fn format_label(format: SubtitleFormat) -> Seq<char> {
    match format {
        SubtitleFormat::Srt => "SRT"@,
        SubtitleFormat::WebVtt => "WebVTT"@,
        SubtitleFormat::Ass => "ASS / SSA"@,
        SubtitleFormat::Lrc => "LRC"@,
    }
}

impl SubtitleFormat {
    pub fn label(self) -> (label: &'static str)
        ensures
            label@ == format_label(self),
    {
        match self {
            SubtitleFormat::Srt => "SRT",
            SubtitleFormat::WebVtt => "WebVTT",
            SubtitleFormat::Ass => "ASS / SSA",
            SubtitleFormat::Lrc => "LRC",
        }
    }
}

/// A caption and the time it is shown, in milliseconds from the beginning of the track.
#[derive(Debug, PartialEq, Eq)]
pub struct SubtitleCue {
    pub start_ms: u64,
    pub end_ms: u64,
    pub text: String,
}

impl Clone for SubtitleCue {
    fn clone(&self) -> (copy: Self)
        ensures
            copy@ == self@,
    {
        SubtitleCue { start_ms: self.start_ms, end_ms: self.end_ms, text: self.text.clone() }
    }
}

/// The mathematical content of a cue.
#[verifier::ext_equal]
pub struct Cue {
    pub start_ms: u64,
    pub end_ms: u64,
    pub text: Seq<char>,
}

impl View for SubtitleCue {
    type V = Cue;

    open spec fn view(&self) -> Cue {
        Cue { start_ms: self.start_ms, end_ms: self.end_ms, text: self.text@ }
    }
}

/// The contents of a list of cues.
pub open spec fn cues_of(cues: Seq<SubtitleCue>) -> Seq<Cue> {
    Seq::new(cues.len(), |i: int| cues[i]@)
}

#[derive(Debug)]
pub struct SubtitleTrack {
    pub format: SubtitleFormat,
    pub cues: Vec<SubtitleCue>,
}

/// A copy of a list of cues.
pub fn copy_cues(cues: &[SubtitleCue]) -> (copies: Vec<SubtitleCue>)
    ensures
        cues_of(copies@) == cues_of(cues@),
{
    let mut copies: Vec<SubtitleCue> = Vec::new();
    let mut i: usize = 0;
    while i < cues.len()
        invariant
            i <= cues.len(),
            cues_of(copies@) == cues_of(cues@).take(i as int),
        decreases cues.len() - i,
    {
        let ghost before = copies@;
        copies.push(cues[i].clone());
        assert(cues_of(copies@) == cues_of(before).push(cues@[i as int]@));
        assert(cues_of(copies@) == cues_of(cues@).take(i as int + 1));
        i += 1;
    }
    assert(cues_of(cues@).take(i as int) == cues_of(cues@));
    copies
}

impl Clone for SubtitleTrack {
    fn clone(&self) -> (copy: Self)
        ensures
            copy.format == self.format,
            cues_of(copy.cues@) == cues_of(self.cues@),
    {
        SubtitleTrack { format: self.format, cues: copy_cues(self.cues.as_slice()) }
    }
}

/// The latest end of the given cues; zero when there are none.
pub open spec fn latest_end(cues: Seq<Cue>) -> u64
    decreases cues.len(),
{
    if cues.len() == 0 {
        0
    } else if cues.last().end_ms > latest_end(cues.drop_last()) {
        cues.last().end_ms
    } else {
        latest_end(cues.drop_last())
    }
}

/// The latest end of the given cues; zero when there are none.
pub fn latest_end_ms(cues: &[SubtitleCue]) -> (latest: u64)
    ensures
        latest == latest_end(cues_of(cues@)),
{
    let mut latest: u64 = 0;
    let mut i: usize = 0;
    let ghost all = cues_of(cues@);
    while i < cues.len()
        invariant
            i <= cues.len(),
            all == cues_of(cues@),
            latest == latest_end(all.take(i as int)),
        decreases cues.len() - i,
    {
        assert(all.take(i as int + 1).drop_last() == all.take(i as int));
        if cues[i].end_ms > latest {
            latest = cues[i].end_ms;
        }
        i += 1;
    }
    assert(all.take(i as int) == all);
    latest
}

impl SubtitleTrack {
    /// The moment at which the last caption ends.
    pub fn duration_ms(&self) -> (duration: u64)
        ensures
            duration == latest_end(cues_of(self.cues@)),
    {
        latest_end_ms(self.cues.as_slice())
    }
}

/// A track lasts at least as long as each of its cues, and exactly as long as one of them.
pub proof fn lemma_latest_end(cues: Seq<Cue>)
    ensures
        forall|i: int| 0 <= i < cues.len() ==> (#[trigger] cues[i]).end_ms <= latest_end(cues),
        cues.len() > 0 ==> exists|i: int|
            0 <= i < cues.len() && (#[trigger] cues[i]).end_ms == latest_end(cues),
    decreases cues.len(),
{
    if cues.len() > 0 {
        let rest = cues.drop_last();
        lemma_latest_end(rest);
        assert forall|i: int| 0 <= i < cues.len() implies (#[trigger] cues[i]).end_ms
            <= latest_end(cues) by {
            if i < rest.len() {
                assert(rest[i] == cues[i]);
            }
        }
        if cues.last().end_ms > latest_end(rest) {
            assert(cues[cues.len() - 1].end_ms == latest_end(cues));
        } else if rest.len() > 0 {
            let i = choose|i: int| 0 <= i < rest.len() && (#[trigger] rest[i]).end_ms == latest_end(rest);
            assert(cues[i] == rest[i]);
        } else {
            assert(cues[0].end_ms == latest_end(cues));
        }
    }
}

/// What a list of captions with their times has in common after `normalize_cues`: every cue has
/// visible text, ends after it starts, and starts before the next one does.
pub open spec fn is_normal(cues: Seq<Cue>) -> bool {
    &&& forall|i: int| 0 <= i < cues.len() ==> is_shown(#[trigger] cues[i])
    &&& forall|i: int, j: int|
        0 <= i < j < cues.len() ==> (#[trigger] cues[i]).start_ms < (#[trigger] cues[j]).start_ms
}

/// A cue with visible text that lasts for some time.
pub open spec fn is_shown(cue: Cue) -> bool {
    text::trimmed(cue.text).len() > 0 && cue.end_ms > cue.start_ms
}

/// The cues that are shown at all.
pub open spec fn shown(cues: Seq<Cue>) -> Seq<Cue> {
    cues.filter(|cue: Cue| is_shown(cue))
}

/// Whether `a` comes before `b` when both are shown in order of their start, then of their end.
pub open spec fn not_after(a: Cue, b: Cue) -> bool {
    a.start_ms < b.start_ms || (a.start_ms == b.start_ms && a.end_ms <= b.end_ms)
}

/// How many leading cues of an ordered list stay before `cue` when it is put in.
pub open spec fn place(cues: Seq<Cue>, cue: Cue) -> nat
    decreases cues.len(),
{
    if cues.len() == 0 || not_after(cues.last(), cue) {
        cues.len()
    } else {
        place(cues.drop_last(), cue)
    }
}

/// The cues in order of their times; cues with the same times keep their order.
pub open spec fn ordered(cues: Seq<Cue>) -> Seq<Cue>
    decreases cues.len(),
{
    if cues.len() == 0 {
        cues
    } else {
        let rest = ordered(cues.drop_last());
        rest.insert(place(rest, cues.last()) as int, cues.last())
    }
}

/// Two captions that are shown together: the second is added unless the first already holds it.
pub open spec fn together(first: Seq<char>, second: Seq<char>) -> Seq<char> {
    if text::occurs(first, second) {
        first
    } else {
        first.push(' ') + second
    }
}

/// The cues with those that start together made one.
pub open spec fn merged(cues: Seq<Cue>) -> Seq<Cue>
    decreases cues.len(),
{
    if cues.len() == 0 {
        cues
    } else {
        let rest = merged(cues.drop_last());
        let cue = cues.last();
        if rest.len() > 0 && rest.last().start_ms == cue.start_ms {
            let previous = rest.last();
            rest.drop_last().push(
                Cue {
                    start_ms: previous.start_ms,
                    end_ms: if previous.end_ms >= cue.end_ms {
                        previous.end_ms
                    } else {
                        cue.end_ms
                    },
                    text: together(previous.text, cue.text),
                },
            )
        } else {
            rest.push(cue)
        }
    }
}

/// The normal form of a list of cues.
pub open spec fn normalized(cues: Seq<Cue>) -> Seq<Cue> {
    merged(ordered(shown(cues)))
}

proof fn lemma_place(cues: Seq<Cue>, cue: Cue)
    ensures
        place(cues, cue) <= cues.len(),
        forall|i: int| place(cues, cue) <= i < cues.len() ==> !not_after(#[trigger] cues[i], cue),
        place(cues, cue) > 0 ==> not_after(cues[place(cues, cue) - 1], cue),
    decreases cues.len(),
{
    if cues.len() > 0 && !not_after(cues.last(), cue) {
        lemma_place(cues.drop_last(), cue);
        assert forall|i: int| place(cues, cue) <= i < cues.len() implies !not_after(
            #[trigger] cues[i],
            cue,
        ) by {
            if i < cues.len() - 1 {
                assert(cues[i] == cues.drop_last()[i]);
            }
        }
    }
}

pub proof fn lemma_ordered(cues: Seq<Cue>)
    ensures
        ordered(cues).len() == cues.len(),
        forall|i: int, j: int|
            0 <= i < j < cues.len() ==> not_after(#[trigger] ordered(cues)[i], #[trigger] ordered(cues)[j]),
        forall|i: int|
            0 <= i < cues.len() ==> cues.contains(#[trigger] ordered(cues)[i]),
    decreases cues.len(),
{
    if cues.len() > 0 {
        let rest = ordered(cues.drop_last());
        lemma_ordered(cues.drop_last());
        let cue = cues.last();
        lemma_place(rest, cue);
        let at = place(rest, cue) as int;
        let all = ordered(cues);
        assert forall|i: int, j: int| 0 <= i < j < all.len() implies not_after(
            #[trigger] all[i],
            #[trigger] all[j],
        ) by {
            if i < at && j == at {
                if i < at - 1 {
                    assert(not_after(rest[i], rest[at - 1]));
                }
            } else if i < at && j > at {
                assert(not_after(rest[i], rest[j - 1]));
            } else if i == at {
                assert(!not_after(rest[j - 1], cue));
            } else if j < at {
                assert(not_after(rest[i], rest[j]));
            } else {
                assert(not_after(rest[i - 1], rest[j - 1]));
            }
        }
        assert forall|i: int| 0 <= i < all.len() implies cues.contains(#[trigger] all[i]) by {
            if i == at {
                assert(cues[cues.len() - 1] == all[i]);
            } else {
                let k = if i < at {
                    i
                } else {
                    i - 1
                };
                assert(cues.drop_last().contains(rest[k]));
                let m = choose|m: int|
                    0 <= m < cues.drop_last().len() && cues.drop_last()[m] == rest[k];
                assert(cues[m] == all[i]);
            }
        }
    }
}

/// Joining captions that are shown together does not hide them.
proof fn lemma_together_visible(first: Seq<char>, second: Seq<char>)
    requires
        text::trimmed(first).len() > 0,
    ensures
        text::trimmed(together(first, second)).len() > 0,
{
    text::lemma_trimmed_visible(first);
    text::lemma_trimmed_visible(together(first, second));
    let i = choose|i: int| 0 <= i < first.len() && !text::is_space(#[trigger] first[i]);
    assert(together(first, second)[i] == first[i]);
}

proof fn lemma_merged(cues: Seq<Cue>)
    requires
        forall|i: int| 0 <= i < cues.len() ==> is_shown(#[trigger] cues[i]),
        forall|i: int, j: int|
            0 <= i < j < cues.len() ==> (#[trigger] cues[i]).start_ms <= (#[trigger] cues[j]).start_ms,
    ensures
        is_normal(merged(cues)),
        cues.len() > 0 ==> merged(cues).len() > 0 && merged(cues).last().start_ms
            == cues.last().start_ms,
    decreases cues.len(),
{
    if cues.len() > 0 {
        let before = cues.drop_last();
        assert forall|i: int| 0 <= i < before.len() implies is_shown(#[trigger] before[i]) by {
            assert(is_shown(cues[i]));
        }
        assert forall|i: int, j: int| 0 <= i < j < before.len() implies (#[trigger] before[i]).start_ms
            <= (#[trigger] before[j]).start_ms by {
            assert(cues[i].start_ms <= cues[j].start_ms);
        }
        lemma_merged(before);
        let rest = merged(before);
        let all = merged(cues);
        assert(is_shown(cues[cues.len() - 1]));
        if rest.len() > 0 {
            assert(before[before.len() - 1].start_ms == cues[before.len() - 1].start_ms);
            assert(is_shown(rest[rest.len() - 1]));
            lemma_together_visible(rest.last().text, cues.last().text);
        }
        assert forall|i: int| 0 <= i < all.len() implies is_shown(#[trigger] all[i]) by {
            if i < all.len() - 1 {
                assert(all[i] == rest[i]);
            }
        }
        assert forall|i: int, j: int| 0 <= i < j < all.len() implies (#[trigger] all[i]).start_ms
            < (#[trigger] all[j]).start_ms by {
            if i < rest.len() && j < rest.len() {
                assert(rest[i].start_ms < rest[j].start_ms);
            } else {
                assert(rest[i].start_ms <= rest[rest.len() - 1].start_ms);
            }
            assert(all[i] == rest[i]);
        }
    }
}

/// What is kept are the cues that are shown.
proof fn lemma_shown(cues: Seq<Cue>)
    ensures
        forall|i: int| 0 <= i < shown(cues).len() ==> is_shown(#[trigger] shown(cues)[i]),
    decreases cues.len(),
{
    reveal(Seq::filter);
    if cues.len() > 0 {
        lemma_shown(cues.drop_last());
        let rest = shown(cues.drop_last());
        assert forall|i: int| 0 <= i < shown(cues).len() implies is_shown(#[trigger] shown(cues)[i]) by {
            if i < rest.len() {
                assert(shown(cues)[i] == rest[i]);
            }
        }
    }
}

/// Normalising any list of cues gives cues in normal form.
pub proof fn normalized_cues_are_normal(cues: Seq<Cue>)
    ensures
        is_normal(normalized(cues)),
        normalized(cues).len() == 0 <==> shown(cues).len() == 0,
{
    let kept = shown(cues);
    lemma_shown(cues);
    lemma_ordered(kept);
    let sorted = ordered(kept);
    assert forall|i: int| 0 <= i < sorted.len() implies is_shown(#[trigger] sorted[i]) by {
        assert(kept.contains(sorted[i]));
        let k = choose|k: int| 0 <= k < kept.len() && kept[k] == sorted[i];
        assert(is_shown(kept[k]));
    }
    lemma_merged(sorted);
}

/// Whether `whole` is shown in place of `cue`: from the same moment on, for as long at least, and
/// with its text.
pub open spec fn stands_for(whole: Cue, cue: Cue) -> bool {
    whole.start_ms == cue.start_ms && whole.end_ms >= cue.end_ms && text::occurs(
        whole.text,
        cue.text,
    )
}

/// Whether one of the cues is shown in place of `cue`.
pub open spec fn is_kept(cues: Seq<Cue>, cue: Cue) -> bool {
    exists|j: int| 0 <= j < cues.len() && stands_for(#[trigger] cues[j], cue)
}

/// Whether one of the cues is shown at exactly the time of `whole`.
pub open spec fn has_times_of(cues: Seq<Cue>, whole: Cue) -> bool {
    exists|i: int|
        0 <= i < cues.len() && is_shown(#[trigger] cues[i]) && cues[i].start_ms == whole.start_ms
            && cues[i].end_ms == whole.end_ms
}

/// Two captions that are shown together hold both texts, and all that the first one holds.
proof fn lemma_together_holds(first: Seq<char>, second: Seq<char>, part: Seq<char>)
    ensures
        text::occurs(together(first, second), second),
        text::occurs(first, part) ==> text::occurs(together(first, second), part),
{
    if !text::occurs(first, second) {
        let joint = together(first, second);
        assert(joint.subrange(first.len() as int + 1, joint.len() as int) == second);
        assert(text::occurs_at(joint, second, first.len() as int + 1));
        if text::occurs(first, part) {
            let at = choose|at: int| text::occurs_at(first, part, at);
            assert(joint.subrange(at, at + part.len()) == first.subrange(at, at + part.len()));
            assert(text::occurs_at(joint, part, at));
        }
    }
}

pub proof fn lemma_ordered_keeps(cues: Seq<Cue>, i: int)
    requires
        0 <= i < cues.len(),
    ensures
        ordered(cues).contains(cues[i]),
    decreases cues.len(),
{
    let rest = ordered(cues.drop_last());
    let at = place(rest, cues.last()) as int;
    lemma_place(rest, cues.last());
    if i == cues.len() - 1 {
        assert(ordered(cues)[at] == cues[i]);
    } else {
        lemma_ordered_keeps(cues.drop_last(), i);
        assert(cues.drop_last()[i] == cues[i]);
        let k = choose|k: int| 0 <= k < rest.len() && rest[k] == cues[i];
        assert(ordered(cues)[if k < at {
            k
        } else {
            k + 1
        }] == cues[i]);
    }
}

pub proof fn lemma_shown_keeps(cues: Seq<Cue>, i: int)
    requires
        0 <= i < cues.len(),
        is_shown(cues[i]),
    ensures
        shown(cues).contains(cues[i]),
    decreases cues.len(),
{
    reveal(Seq::filter);
    let rest = shown(cues.drop_last());
    if i == cues.len() - 1 {
        assert(shown(cues)[shown(cues).len() - 1] == cues[i]);
    } else {
        lemma_shown_keeps(cues.drop_last(), i);
        assert(cues.drop_last()[i] == cues[i]);
        let k = choose|k: int| 0 <= k < rest.len() && rest[k] == cues[i];
        assert(shown(cues)[k] == cues[i]);
    }
}

proof fn lemma_shown_are_cues(cues: Seq<Cue>, j: int)
    requires
        0 <= j < shown(cues).len(),
    ensures
        cues.contains(shown(cues)[j]),
    decreases cues.len(),
{
    reveal(Seq::filter);
    if cues.len() > 0 {
        let rest = shown(cues.drop_last());
        if j < rest.len() {
            lemma_shown_are_cues(cues.drop_last(), j);
            let k = choose|k: int|
                0 <= k < cues.drop_last().len() && cues.drop_last()[k] == rest[j];
            assert(cues[k] == shown(cues)[j]);
        } else {
            assert(cues[cues.len() - 1] == shown(cues)[j]);
        }
    }
}

pub proof fn lemma_merged_keeps(cues: Seq<Cue>, i: int)
    requires
        0 <= i < cues.len(),
    ensures
        is_kept(merged(cues), cues[i]),
    decreases cues.len(),
{
    let rest = merged(cues.drop_last());
    let all = merged(cues);
    let cue = cues.last();
    let joins = rest.len() > 0 && rest.last().start_ms == cue.start_ms;
    let last = all.len() - 1;
    if joins {
        lemma_together_holds(rest.last().text, cue.text, cues[i].text);
    }
    if i == cues.len() - 1 {
        assert(text::occurs_at(cue.text, cue.text, 0)) by {
            assert(cue.text.subrange(0, cue.text.len() as int) == cue.text);
        }
        assert(stands_for(all[last], cues[i]));
    } else {
        lemma_merged_keeps(cues.drop_last(), i);
        assert(cues.drop_last()[i] == cues[i]);
        let k = choose|k: int| 0 <= k < rest.len() && stands_for(#[trigger] rest[k], cues[i]);
        assert(stands_for(all[k], cues[i]));
    }
}

pub proof fn lemma_merged_times(cues: Seq<Cue>, j: int)
    requires
        0 <= j < merged(cues).len(),
    ensures
        exists|i: int|
            0 <= i < cues.len() && (#[trigger] cues[i]).start_ms == merged(cues)[j].start_ms
                && cues[i].end_ms == merged(cues)[j].end_ms,
    decreases cues.len(),
{
    if cues.len() > 0 {
        let before = cues.drop_last();
        let rest = merged(before);
        let all = merged(cues);
        let last = cues[cues.len() - 1];
        if j == all.len() - 1 && all[j].end_ms == last.end_ms {
            assert(last.start_ms == all[j].start_ms);
        } else {
            lemma_merged_times(before, j);
            let i = choose|i: int|
                0 <= i < before.len() && (#[trigger] before[i]).start_ms == rest[j].start_ms
                    && before[i].end_ms == rest[j].end_ms;
            assert(cues[i] == before[i]);
        }
    }
}

/// Normalising keeps the start and the text of every cue that is shown at all.
pub proof fn normalising_keeps_every_cue(cues: Seq<Cue>, i: int)
    requires
        0 <= i < cues.len(),
        is_shown(cues[i]),
    ensures
        is_kept(normalized(cues), cues[i]),
{
    let kept = shown(cues);
    let sorted = ordered(kept);
    lemma_shown_keeps(cues, i);
    let k = choose|k: int| 0 <= k < kept.len() && kept[k] == cues[i];
    lemma_ordered_keeps(kept, k);
    let m = choose|m: int| 0 <= m < sorted.len() && sorted[m] == cues[i];
    lemma_merged_keeps(sorted, m);
}

/// Normalising makes up no times: every cue starts when one that was given does, and lasts as long
/// as the longest of those that start with it.
pub proof fn normalised_times_are_given(cues: Seq<Cue>, j: int)
    requires
        0 <= j < normalized(cues).len(),
    ensures
        has_times_of(cues, normalized(cues)[j]),
        forall|i: int|
            0 <= i < cues.len() && is_shown(#[trigger] cues[i]) && cues[i].start_ms == normalized(
                cues,
            )[j].start_ms ==> cues[i].end_ms <= normalized(cues)[j].end_ms,
{
    let kept = shown(cues);
    let sorted = ordered(kept);
    let all = normalized(cues);
    lemma_ordered(kept);
    lemma_merged_times(sorted, j);
    let m = choose|m: int|
        0 <= m < sorted.len() && (#[trigger] sorted[m]).start_ms == all[j].start_ms
            && sorted[m].end_ms == all[j].end_ms;
    assert(kept.contains(sorted[m]));
    let k = choose|k: int| 0 <= k < kept.len() && kept[k] == sorted[m];
    lemma_shown(cues);
    lemma_shown_are_cues(cues, k);
    let i = choose|i: int| 0 <= i < cues.len() && cues[i] == kept[k];
    assert(is_shown(kept[k]));
    assert(is_shown(cues[i]));
    normalized_cues_are_normal(cues);
    assert forall|i: int|
        0 <= i < cues.len() && is_shown(#[trigger] cues[i]) && cues[i].start_ms
            == all[j].start_ms implies cues[i].end_ms <= all[j].end_ms by {
        normalising_keeps_every_cue(cues, i);
        let n = choose|n: int| 0 <= n < all.len() && stands_for(#[trigger] all[n], cues[i]);
        if n < j {
            assert(all[n].start_ms < all[j].start_ms);
        } else if j < n {
            assert(all[j].start_ms < all[n].start_ms);
        }
    }
}

/// Keeps the cues that are shown, puts them in order and makes those that start together one.
pub fn normalize_cues(cues: Vec<SubtitleCue>) -> (normal: Vec<SubtitleCue>)
    ensures
        cues_of(normal@) == normalized(cues_of(cues@)),
        is_normal(cues_of(normal@)),
{
    proof {
        normalized_cues_are_normal(cues_of(cues@));
    }
    merge_cues(sort_cues(retain_shown(cues)))
}

fn retain_shown(cues: Vec<SubtitleCue>) -> (kept: Vec<SubtitleCue>)
    ensures
        cues_of(kept@) == shown(cues_of(cues@)),
{
    let mut kept: Vec<SubtitleCue> = Vec::new();
    let ghost all = cues_of(cues@);
    assert(all.take(0) == Seq::<Cue>::empty());
    reveal(Seq::filter);
    for cue in iter: cues
        invariant
            all == cues_of(iter.seq()),
            cues_of(kept@) == shown(all.take(iter.index() as int)),
    {
        reveal(Seq::filter);
        let ghost i = iter.index() as int;
        let ghost before = kept@;
        assert(all.take(i + 1).drop_last() == all.take(i));
        let chars = text::chars_of(cue.text.as_str());
        if text::trim(chars.as_slice()).len() > 0 && cue.end_ms > cue.start_ms {
            kept.push(cue);
            assert(cues_of(kept@) == cues_of(before).push(all[i]));
        }
    }
    assert(all.take(all.len() as int) == all);
    kept
}

fn sort_cues(cues: Vec<SubtitleCue>) -> (sorted: Vec<SubtitleCue>)
    ensures
        cues_of(sorted@) == ordered(cues_of(cues@)),
{
    let mut sorted: Vec<SubtitleCue> = Vec::new();
    let ghost all = cues_of(cues@);
    for cue in iter: cues
        invariant
            all == cues_of(iter.seq()),
            cues_of(sorted@) == ordered(all.take(iter.index() as int)),
    {
        let ghost i = iter.index() as int;
        let ghost before = sorted@;
        assert(all.take(i + 1).drop_last() == all.take(i));
        let mut at: usize = sorted.len();
        assert(cues_of(before).take(at as int) == cues_of(before));
        while at > 0 && !(sorted[at - 1].start_ms < cue.start_ms || (sorted[at - 1].start_ms
            == cue.start_ms && sorted[at - 1].end_ms <= cue.end_ms))
            invariant
                sorted@ == before,
                at <= sorted.len(),
                place(cues_of(before), cue@) == place(cues_of(before).take(at as int), cue@),
            decreases at,
        {
            assert(cues_of(before).take(at as int).drop_last() == cues_of(before).take(at - 1));
            assert(cues_of(before).take(at as int).last() == sorted@[at - 1]@);
            at -= 1;
        }
        assert(at > 0 ==> cues_of(before).take(at as int).last() == sorted@[at - 1]@);
        sorted.insert(at, cue);
        assert(cues_of(sorted@) == cues_of(before).insert(at as int, all[i]));
    }
    assert(all.take(all.len() as int) == all);
    sorted
}

fn merge_cues(cues: Vec<SubtitleCue>) -> (joint: Vec<SubtitleCue>)
    ensures
        cues_of(joint@) == merged(cues_of(cues@)),
{
    let mut joint: Vec<SubtitleCue> = Vec::new();
    let ghost all = cues_of(cues@);
    for cue in iter: cues
        invariant
            all == cues_of(iter.seq()),
            cues_of(joint@) == merged(all.take(iter.index() as int)),
    {
        let ghost i = iter.index() as int;
        let ghost before = joint@;
        assert(all.take(i + 1).drop_last() == all.take(i));
        assert(all.take(i + 1).last() == cue@);
        match joint.pop() {
            None => {
                joint.push(cue);
                assert(cues_of(joint@) == cues_of(before).push(cue@));
            },
            Some(previous) => {
                assert(cues_of(before).last() == previous@);
                assert(cues_of(joint@) == cues_of(before).drop_last());
                if previous.start_ms == cue.start_ms {
                    let both = show_together(&previous.text, &cue.text);
                    let end_ms: u64 = if previous.end_ms >= cue.end_ms {
                        previous.end_ms
                    } else {
                        cue.end_ms
                    };
                    let ghost rest = joint@;
                    joint.push(SubtitleCue { start_ms: previous.start_ms, end_ms, text: both });
                    assert(cues_of(joint@) == cues_of(rest).push(joint@.last()@));
                } else {
                    joint.push(previous);
                    assert(joint@ == before);
                    joint.push(cue);
                    assert(cues_of(joint@) == cues_of(before).push(cue@));
                }
            },
        }
    }
    assert(all.take(all.len() as int) == all);
    joint
}

fn show_together(first: &String, second: &String) -> (both: String)
    ensures
        both@ == together(first@, second@),
{
    let chars = text::chars_of(first.as_str());
    if text::contains(chars.as_slice(), second.as_str()) {
        first.clone()
    } else {
        let mut both = first.clone();
        both.push(' ');
        both.append(second.as_str());
        both
    }
}

/// The milliseconds of a seconds field such as `3.25`. Of the fraction three digits count, and a
/// fraction that is no number counts as none.
pub open spec fn seconds_ms(value: Seq<char>) -> Option<nat> {
    let dot = text::find(value, "."@);
    let whole = if dot is Some {
        value.take(dot->0)
    } else {
        value
    };
    let fraction = if dot is Some {
        value.skip(dot->0 + 1)
    } else {
        Seq::empty()
    };
    match text::number(whole) {
        None => None,
        Some(seconds) => Some(seconds as nat * 1_000 + fraction_ms(fraction)),
    }
}

/// The milliseconds of the digits after the decimal point.
pub open spec fn fraction_ms(fraction: Seq<char>) -> nat {
    let digits = if fraction.len() >= 3 {
        fraction.take(3)
    } else {
        fraction + Seq::new((3 - fraction.len()) as nat, |i: int| '0')
    };
    match text::number(digits) {
        None => 0,
        Some(millis) => millis as nat,
    }
}

/// The milliseconds of the fields of a clock: minutes and seconds, or hours, minutes and seconds.
pub open spec fn fields_ms(parts: Seq<Seq<char>>) -> Option<nat> {
    if parts.len() == 2 {
        match (text::number(parts[0]), seconds_ms(parts[1])) {
            (Some(minutes), Some(seconds)) => Some(minutes as nat * 60_000 + seconds),
            _ => None,
        }
    } else if parts.len() == 3 {
        match (text::number(parts[0]), text::number(parts[1]), seconds_ms(parts[2])) {
            (Some(hours), Some(minutes), Some(seconds)) => Some(
                hours as nat * 3_600_000 + minutes as nat * 60_000 + seconds,
            ),
            _ => None,
        }
    } else {
        None
    }
}

/// The time that a text such as `01:02:03,004` stands for, in milliseconds. The decimal sign is a
/// point or a comma. A time that 64 bits of milliseconds cannot hold is no time.
pub open spec fn clock(value: Seq<char>) -> Option<u64> {
    match fields_ms(text::pieces(text::replaced(text::trimmed(value), ","@, "."@), ':')) {
        Some(ms) => if ms <= u64::MAX {
            Some(ms as u64)
        } else {
            None
        },
        None => None,
    }
}

/// Reads a clock time in milliseconds.
pub fn parse_clock(value: &[char]) -> (ms: Option<u64>)
    ensures
        ms == clock(value@),
{
    proof {
        reveal_strlit(",");
    }
    let value = text::replace(text::trim(value), ",", ".");
    let parts = text::split(value.as_slice(), ':');
    let ghost fields = text::texts(parts@);
    assert(parts@.len() == fields.len());
    let ms: u128 = if parts.len() == 2 {
        assert(fields[0] == parts@[0]@ && fields[1] == parts@[1]@);
        match (text::parse_u64(parts[0]), parse_seconds(parts[1])) {
            (Some(minutes), Some(seconds)) => minutes as u128 * 60_000 + seconds,
            _ => {
                return None;
            },
        }
    } else if parts.len() == 3 {
        assert(fields[0] == parts@[0]@ && fields[1] == parts@[1]@ && fields[2] == parts@[2]@);
        match (text::parse_u64(parts[0]), text::parse_u64(parts[1]), parse_seconds(parts[2])) {
            (Some(hours), Some(minutes), Some(seconds)) => hours as u128 * 3_600_000
                + minutes as u128 * 60_000 + seconds,
            _ => {
                return None;
            },
        }
    } else {
        return None;
    };
    if ms <= u64::MAX as u128 {
        Some(ms as u64)
    } else {
        None
    }
}

/// Reads a seconds field in milliseconds.
pub fn parse_seconds(value: &[char]) -> (ms: Option<u128>)
    ensures
        match ms {
            Some(ms) => seconds_ms(value@) == Some(ms as nat) && ms <= u64::MAX * 1_000 + 999,
            None => seconds_ms(value@) is None,
        },
{
    proof {
        reveal_strlit(".");
    }
    let mut digits: Vec<char> = Vec::new();
    let whole: &[char];
    let ghost fraction: Seq<char>;
    match text::find_str(value, ".") {
        Some(dot) => {
            whole = text::part(value, 0, dot);
            assert(whole@ == value@.take(dot as int));
            let rest = text::part(value, dot + 1, value.len());
            assert(rest@ == value@.skip(dot + 1));
            proof {
                fraction = rest@;
            }
            let count: usize = if rest.len() < 3 {
                rest.len()
            } else {
                3
            };
            text::append_to(&mut digits, text::part(rest, 0, count));
        },
        None => {
            whole = value;
            proof {
                fraction = Seq::empty();
            }
        },
    }
    assert(digits@ == fraction.take(if fraction.len() < 3 {
        fraction.len() as int
    } else {
        3
    }));
    let ghost first = digits@;
    while digits.len() < 3
        invariant
            first.len() <= digits.len() <= 3,
            digits@ == first + Seq::new((digits@.len() - first.len()) as nat, |i: int| '0'),
        decreases 3 - digits.len(),
    {
        digits.push('0');
        assert(digits@ == first + Seq::new((digits@.len() - first.len()) as nat, |i: int| '0'));
    }
    assert(digits@ == if fraction.len() >= 3 {
        fraction.take(3)
    } else {
        fraction + Seq::new((3 - fraction.len()) as nat, |i: int| '0')
    });
    let seconds: u64 = match text::parse_u64(whole) {
        Some(seconds) => seconds,
        None => {
            return None;
        },
    };
    let millis: u64 = match text::parse_u64(digits.as_slice()) {
        Some(millis) => millis,
        None => 0,
    };
    proof {
        text::lemma_number_bound(digits@);
    }
    Some(seconds as u128 * 1_000 + millis as u128)
}

/// The character references and the line break marks of a caption written out.
pub open spec fn unescaped(value: Seq<char>) -> Seq<char> {
    let value = text::replaced(value, "\\N"@, " "@);
    let value = text::replaced(value, "\\n"@, " "@);
    let value = text::replaced(value, "&nbsp;"@, " "@);
    let value = text::replaced(value, "&amp;"@, "&"@);
    let value = text::replaced(value, "&lt;"@, "<"@);
    text::replaced(value, "&gt;"@, ">"@)
}

/// A caption without what stands in angle brackets or in braces. `in_angle` and `in_brace` say
/// whether such a mark is open where the text begins.
pub open spec fn unmarked(s: Seq<char>, in_angle: bool, in_brace: bool) -> Seq<char>
    decreases s.len(),
{
    if s.len() == 0 {
        Seq::empty()
    } else {
        let rest = s.skip(1);
        if s[0] == '<' {
            unmarked(rest, true, in_brace)
        } else if s[0] == '>' && in_angle {
            unmarked(rest, false, in_brace)
        } else if s[0] == '{' {
            unmarked(rest, in_angle, true)
        } else if s[0] == '}' && in_brace {
            unmarked(rest, in_angle, false)
        } else if !in_angle && !in_brace {
            seq![s[0]] + unmarked(rest, in_angle, in_brace)
        } else {
            unmarked(rest, in_angle, in_brace)
        }
    }
}

/// The readable text of a caption: no markup, and one space between two words.
pub open spec fn caption(value: Seq<char>) -> Seq<char> {
    text::joined(text::words(unmarked(unescaped(value), false, false)), seq![' '])
}

fn unescape(value: &[char]) -> (plain: Vec<char>)
    ensures
        plain@ == unescaped(value@),
{
    proof {
        reveal_strlit("\\N");
        reveal_strlit("\\n");
        reveal_strlit("&nbsp;");
        reveal_strlit("&amp;");
        reveal_strlit("&lt;");
        reveal_strlit("&gt;");
    }
    let value = text::replace(value, "\\N", " ");
    let value = text::replace(value.as_slice(), "\\n", " ");
    let value = text::replace(value.as_slice(), "&nbsp;", " ");
    let value = text::replace(value.as_slice(), "&amp;", "&");
    let value = text::replace(value.as_slice(), "&lt;", "<");
    text::replace(value.as_slice(), "&gt;", ">")
}

fn remove_marks(value: &[char]) -> (plain: Vec<char>)
    ensures
        plain@ == unmarked(value@, false, false),
{
    let mut plain: Vec<char> = Vec::new();
    let mut in_angle = false;
    let mut in_brace = false;
    let mut i: usize = 0;
    assert(value@.skip(0) == value@);
    while i < value.len()
        invariant
            i <= value.len(),
            unmarked(value@, false, false) == plain@ + unmarked(
                value@.skip(i as int),
                in_angle,
                in_brace,
            ),
        decreases value.len() - i,
    {
        let c = value[i];
        let ghost done = plain@;
        let ghost rest = value@.skip(i as int + 1);
        assert(value@.skip(i as int).skip(1) == rest);
        assert(value@.skip(i as int)[0] == c);
        if c == '<' {
            in_angle = true;
        } else if c == '>' && in_angle {
            in_angle = false;
        } else if c == '{' {
            in_brace = true;
        } else if c == '}' && in_brace {
            in_brace = false;
        } else if !in_angle && !in_brace {
            plain.push(c);
            assert(plain@ + unmarked(rest, in_angle, in_brace) == done + (seq![c] + unmarked(
                rest,
                in_angle,
                in_brace,
            )));
        }
        i += 1;
    }
    assert(unmarked(value@.skip(i as int), in_angle, in_brace) == Seq::<char>::empty());
    plain
}

/// The readable text of a caption.
pub fn clean_caption_text(value: &[char]) -> (clean: String)
    ensures
        clean@ == caption(value@),
{
    let value = unescape(value);
    let plain = remove_marks(value.as_slice());
    let words = text::split_whitespace(plain.as_slice());
    let joined = text::join_with_space(&words);
    text::string_of(joined.as_slice())
}

/// The text with every line break a single line feed.
pub open spec fn unix_lines(s: Seq<char>) -> Seq<char> {
    text::replaced(text::replaced(s, "\r\n"@, "\n"@), "\r"@, "\n"@)
}

/// A line that opens a block without captions.
pub open spec fn opens_comment(line: Seq<char>) -> bool {
    text::occurs_at(line, "NOTE"@, 0) || line == "STYLE"@ || line == "REGION"@
}

/// The start and the end that a timing line such as `00:01.000 --> 00:03.200 align:start` gives.
pub open spec fn timing(line: Seq<char>) -> Option<(u64, u64)> {
    match text::find(line, "-->"@) {
        None => None,
        Some(at) => {
            let after = text::words(line.skip(at + 3));
            if after.len() == 0 {
                None
            } else {
                match (clock(text::trimmed(line.take(at))), clock(after[0])) {
                    (Some(start), Some(end)) => Some((start, end)),
                    _ => None,
                }
            }
        },
    }
}

/// The first blank line at or after `from`; the number of lines when there is none.
pub open spec fn block_end(lines: Seq<Seq<char>>, from: int) -> int
    decreases lines.len() - from,
{
    if from >= lines.len() || text::trimmed(lines[from]).len() == 0 {
        from
    } else {
        block_end(lines, from + 1)
    }
}

/// The trimmed lines from `from` up to `to`.
pub open spec fn block(lines: Seq<Seq<char>>, from: int, to: int) -> Seq<Seq<char>> {
    Seq::new((to - from) as nat, |i: int| text::trimmed(lines[from + i]))
}

/// The cues of an SRT or WebVTT file from line `from` on: each timing line begins a cue whose
/// caption is what follows up to the next blank line.
pub open spec fn timed_blocks(lines: Seq<Seq<char>>, from: int) -> Seq<Cue>
    decreases lines.len() - from,
    via timed_blocks_decreases
{
    if from >= lines.len() {
        Seq::empty()
    } else {
        let line = text::trimmed(lines[from]);
        let end = block_end(lines, from + 1);
        if opens_comment(line) {
            timed_blocks(lines, end)
        } else {
            match timing(line) {
                None => timed_blocks(lines, from + 1),
                Some((start_ms, end_ms)) => seq![
                    Cue {
                        start_ms,
                        end_ms,
                        text: caption(text::joined(block(lines, from + 1, end), seq![' '])),
                    },
                ] + timed_blocks(lines, end),
            }
        }
    }
}

#[via_fn]
proof fn timed_blocks_decreases(lines: Seq<Seq<char>>, from: int) {
    lemma_block_end(lines, from + 1);
}

proof fn lemma_block_end(lines: Seq<Seq<char>>, from: int)
    ensures
        from <= block_end(lines, from),
        from <= lines.len() ==> block_end(lines, from) <= lines.len(),
    decreases lines.len() - from,
{
    if !(from >= lines.len() || text::trimmed(lines[from]).len() == 0) {
        lemma_block_end(lines, from + 1);
    }
}

/// The cues of an SRT or WebVTT text.
pub open spec fn srt_cues(content: Seq<char>) -> Seq<Cue> {
    timed_blocks(text::lines_of(unix_lines(content)), 0)
}

fn parse_timing(line: &[char]) -> (times: Option<(u64, u64)>)
    ensures
        times == timing(line@),
{
    proof {
        reveal_strlit("-->");
    }
    match text::find_str(line, "-->") {
        None => None,
        Some(at) => {
            let left = text::part(line, 0, at);
            let right = text::part(line, at + 3, line.len());
            assert(left@ == line@.take(at as int));
            assert(right@ == line@.skip(at + 3));
            let after = text::split_whitespace(right);
            assert(text::texts(after@).len() == after@.len());
            if after.len() == 0 {
                return None;
            }
            assert(text::texts(after@)[0] == after@[0]@);
            match (parse_clock(text::trim(left)), parse_clock(after[0])) {
                (Some(start), Some(end)) => Some((start, end)),
                _ => None,
            }
        },
    }
}

fn skip_block(lines: &Vec<&[char]>, from: usize) -> (end: usize)
    requires
        from <= lines.len(),
    ensures
        end == block_end(text::texts(lines@), from as int),
        from <= end <= lines.len(),
{
    let mut end: usize = from;
    while end < lines.len() && text::trim(lines[end]).len() > 0
        invariant
            from <= end <= lines.len(),
            block_end(text::texts(lines@), from as int) == block_end(text::texts(lines@), end as int),
        decreases lines.len() - end,
    {
        assert(text::texts(lines@)[end as int] == lines@[end as int]@);
        end += 1;
    }
    assert(end < lines.len() ==> text::texts(lines@)[end as int] == lines@[end as int]@);
    end
}

/// Reads the cues of an SRT or WebVTT text.
pub fn parse_srt_or_vtt(content: &[char]) -> (cues: Vec<SubtitleCue>)
    ensures
        cues_of(cues@) == srt_cues(content@),
{
    proof {
        reveal_strlit("\r\n");
        reveal_strlit("\r");
    }
    let unix = text::replace(content, "\r\n", "\n");
    let unix = text::replace(unix.as_slice(), "\r", "\n");
    let lines = text::lines(unix.as_slice());
    let ghost all = text::texts(lines@);
    let mut cues: Vec<SubtitleCue> = Vec::new();
    let mut index: usize = 0;
    while index < lines.len()
        invariant
            all == text::texts(lines@),
            index <= lines.len(),
            timed_blocks(all, 0) == cues_of(cues@) + timed_blocks(all, index as int),
        decreases lines.len() - index,
    {
        let line = text::trim(lines[index]);
        let ghost done = cues@;
        assert(all[index as int] == lines@[index as int]@);
        if text::starts_with(line, "NOTE") || text::same_text(line, "STYLE") || text::same_text(
            line,
            "REGION",
        ) {
            index = skip_block(&lines, index + 1);
        } else {
            match parse_timing(line) {
                None => {
                    index += 1;
                },
                Some((start_ms, end_ms)) => {
                    let end = skip_block(&lines, index + 1);
                    let mut parts: Vec<&[char]> = Vec::new();
                    let mut next: usize = index + 1;
                    while next < end
                        invariant
                            all == text::texts(lines@),
                            index < next <= end <= lines.len(),
                            text::texts(parts@) == block(all, index + 1, next as int),
                        decreases end - next,
                    {
                        let ghost before = parts@;
                        parts.push(text::trim(lines[next]));
                        assert(all[next as int] == lines@[next as int]@);
                        assert(text::texts(parts@) == text::texts(before).push(
                            text::trimmed(all[next as int]),
                        ));
                        next += 1;
                        assert(text::texts(parts@) == block(all, index + 1, next as int));
                    }
                    let joined = text::join_with_space(&parts);
                    let clean = clean_caption_text(joined.as_slice());
                    cues.push(SubtitleCue { start_ms, end_ms, text: clean });
                    assert(cues_of(cues@) + timed_blocks(all, end as int) == cues_of(done) + (seq![
                        cues@.last()@,
                    ] + timed_blocks(all, end as int)));
                    index = end;
                },
            }
        }
    }
    assert(timed_blocks(all, index as int) == Seq::<Cue>::empty());
    cues
}

/// The columns of an ASS event before a `Format:` line says otherwise.
pub open spec fn default_fields() -> Seq<Seq<char>> {
    seq![
        "layer"@,
        "start"@,
        "end"@,
        "style"@,
        "name"@,
        "marginl"@,
        "marginr"@,
        "marginv"@,
        "effect"@,
        "text"@,
    ]
}

/// The columns that a `Format:` line names.
pub open spec fn format_fields(format: Seq<char>) -> Seq<Seq<char>> {
    text::pieces(format, ',').map_values(
        |field: Seq<char>| text::ascii_lowered(text::trimmed(field)),
    )
}

/// The first column of the given name.
pub open spec fn field_index(fields: Seq<Seq<char>>, name: Seq<char>, from: int) -> Option<int>
    decreases fields.len() - from,
{
    if from >= fields.len() {
        None
    } else if fields[from] == name {
        Some(from)
    } else {
        field_index(fields, name, from + 1)
    }
}

/// The cue of a dialogue line, given the columns: none when a column is missing or a time cannot
/// be read.
pub open spec fn dialogue_cue(fields: Seq<Seq<char>>, dialogue: Seq<char>) -> Option<Cue> {
    let values = text::first_pieces(text::trimmed(dialogue), ',', fields.len());
    if values.len() != fields.len() {
        None
    } else {
        match (
            field_index(fields, "start"@, 0),
            field_index(fields, "end"@, 0),
            field_index(fields, "text"@, 0),
        ) {
            (Some(start), Some(end), Some(body)) => match (
                clock(text::trimmed(values[start])),
                clock(text::trimmed(values[end])),
            ) {
                (Some(start_ms), Some(end_ms)) => Some(
                    Cue { start_ms, end_ms, text: caption(values[body]) },
                ),
                _ => None,
            },
            _ => None,
        }
    }
}

/// A section heading such as `[Events]`.
pub open spec fn is_section(line: Seq<char>) -> bool {
    line.len() > 0 && line[0] == '[' && line.last() == ']'
}

/// The cues of the lines of an ASS file, given whether they stand in the events section and which
/// columns an event has.
pub open spec fn event_cues(lines: Seq<Seq<char>>, in_events: bool, fields: Seq<Seq<char>>) -> Seq<Cue>
    decreases lines.len(),
{
    if lines.len() == 0 {
        Seq::empty()
    } else {
        let line = text::trimmed(lines[0]);
        let rest = lines.skip(1);
        if is_section(line) {
            event_cues(
                rest,
                text::ascii_lowered(line) == text::ascii_lowered("[Events]"@),
                fields,
            )
        } else if !in_events {
            event_cues(rest, in_events, fields)
        } else {
            match text::after_prefix(line, "Format:"@) {
                Some(format) => event_cues(rest, in_events, format_fields(format)),
                None => match text::after_prefix(line, "Dialogue:"@) {
                    Some(dialogue) => match dialogue_cue(fields, dialogue) {
                        Some(cue) => seq![cue] + event_cues(rest, in_events, fields),
                        None => event_cues(rest, in_events, fields),
                    },
                    None => event_cues(rest, in_events, fields),
                },
            }
        }
    }
}

/// The cues of an ASS text.
pub open spec fn ass_cues(content: Seq<char>) -> Seq<Cue> {
    event_cues(text::lines_of(content), false, default_fields())
}

/// The texts that a list of owned texts stands for.
pub open spec fn owned_texts(parts: Seq<Vec<char>>) -> Seq<Seq<char>> {
    Seq::new(parts.len(), |i: int| parts[i]@)
}

fn initial_fields() -> (fields: Vec<Vec<char>>)
    ensures
        owned_texts(fields@) == default_fields(),
{
    let mut fields: Vec<Vec<char>> = Vec::new();
    fields.push(text::chars_of("layer"));
    fields.push(text::chars_of("start"));
    fields.push(text::chars_of("end"));
    fields.push(text::chars_of("style"));
    fields.push(text::chars_of("name"));
    fields.push(text::chars_of("marginl"));
    fields.push(text::chars_of("marginr"));
    fields.push(text::chars_of("marginv"));
    fields.push(text::chars_of("effect"));
    fields.push(text::chars_of("text"));
    assert(owned_texts(fields@) =~= default_fields());
    fields
}

fn read_fields(format: &[char]) -> (fields: Vec<Vec<char>>)
    ensures
        owned_texts(fields@) == format_fields(format@),
{
    let parts = text::split(format, ',');
    let ghost all = text::texts(parts@);
    let mut fields: Vec<Vec<char>> = Vec::new();
    let mut i: usize = 0;
    while i < parts.len()
        invariant
            i <= parts.len(),
            all == text::texts(parts@),
            fields@.len() == i,
            forall|k: int|
                0 <= k < i ==> (#[trigger] fields@[k])@ == text::ascii_lowered(text::trimmed(all[k])),
        decreases parts.len() - i,
    {
        assert(all[i as int] == parts@[i as int]@);
        fields.push(text::to_ascii_lowercase(text::trim(parts[i])));
        i += 1;
    }
    assert(owned_texts(fields@) =~= format_fields(format@));
    fields
}

fn find_field(fields: &Vec<Vec<char>>, name: &str) -> (index: Option<usize>)
    ensures
        match index {
            Some(index) => field_index(owned_texts(fields@), name@, 0) == Some(index as int) && index
                < fields.len(),
            None => field_index(owned_texts(fields@), name@, 0) is None,
        },
{
    let mut i: usize = 0;
    while i < fields.len()
        invariant
            i <= fields.len(),
            field_index(owned_texts(fields@), name@, 0) == field_index(
                owned_texts(fields@),
                name@,
                i as int,
            ),
        decreases fields.len() - i,
    {
        assert(owned_texts(fields@)[i as int] == fields@[i as int]@);
        if text::same_text(fields[i].as_slice(), name) {
            return Some(i);
        }
        i += 1;
    }
    None
}

fn parse_dialogue(fields: &Vec<Vec<char>>, dialogue: &[char]) -> (cue: Option<SubtitleCue>)
    ensures
        match cue {
            Some(cue) => dialogue_cue(owned_texts(fields@), dialogue@) == Some(cue@),
            None => dialogue_cue(owned_texts(fields@), dialogue@) is None,
        },
{
    let values = text::splitn(text::trim(dialogue), ',', fields.len());
    let ghost all = text::texts(values@);
    assert(all.len() == values@.len());
    if values.len() != fields.len() {
        return None;
    }
    match (find_field(fields, "start"), find_field(fields, "end"), find_field(fields, "text")) {
        (Some(start), Some(end), Some(body)) => {
            assert(all[start as int] == values@[start as int]@);
            assert(all[end as int] == values@[end as int]@);
            assert(all[body as int] == values@[body as int]@);
            match (parse_clock(text::trim(values[start])), parse_clock(text::trim(values[end]))) {
                (Some(start_ms), Some(end_ms)) => Some(
                    SubtitleCue { start_ms, end_ms, text: clean_caption_text(values[body]) },
                ),
                _ => None,
            }
        },
        _ => None,
    }
}

/// Reads the cues of an ASS or SSA text.
pub fn parse_ass(content: &[char]) -> (cues: Vec<SubtitleCue>)
    ensures
        cues_of(cues@) == ass_cues(content@),
{
    let lines = text::lines(content);
    let ghost all = text::texts(lines@);
    let mut in_events = false;
    let mut fields = initial_fields();
    let mut cues: Vec<SubtitleCue> = Vec::new();
    let mut i: usize = 0;
    assert(all.skip(0) == all);
    while i < lines.len()
        invariant
            i <= lines.len(),
            all == text::texts(lines@),
            ass_cues(content@) == cues_of(cues@) + event_cues(
                all.skip(i as int),
                in_events,
                owned_texts(fields@),
            ),
        decreases lines.len() - i,
    {
        let line = text::trim(lines[i]);
        let ghost done = cues@;
        let ghost rest = all.skip(i as int + 1);
        assert(all.skip(i as int)[0] == lines@[i as int]@);
        assert(all.skip(i as int).skip(1) == rest);
        i += 1;
        if line.len() > 0 && line[0] == '[' && line[line.len() - 1] == ']' {
            in_events = text::eq_ignore_ascii_case(line, "[Events]");
        } else if in_events {
            if let Some(format) = text::strip_prefix(line, "Format:") {
                fields = read_fields(format);
            } else if let Some(dialogue) = text::strip_prefix(line, "Dialogue:") {
                if let Some(cue) = parse_dialogue(&fields, dialogue) {
                    cues.push(cue);
                    assert(cues_of(cues@) + event_cues(rest, in_events, owned_texts(fields@))
                        == cues_of(done) + (seq![cue@] + event_cues(
                        rest,
                        in_events,
                        owned_texts(fields@),
                    )));
                }
            }
        }
    }
    assert(event_cues(all.skip(i as int), in_events, owned_texts(fields@)) == Seq::<Cue>::empty());
    cues
}

/// The times in the tags at the beginning of a lyric line, after those already `found`, and the
/// text behind the tags. Tags that are no times are passed over once a time has been found.
pub open spec fn lyric_tags(rest: Seq<char>, found: Seq<u64>) -> Option<(Seq<u64>, Seq<char>)>
    decreases rest.len(),
    via lyric_tags_decreases
{
    match text::after_prefix(rest, "["@) {
        None => if found.len() > 0 {
            Some((found, rest))
        } else {
            None
        },
        Some(after_open) => match text::find(after_open, "]"@) {
            None => None,
            Some(close) => match clock(after_open.take(close)) {
                Some(time) => lyric_tags(after_open.skip(close + 1), found.push(time)),
                None => if found.len() == 0 {
                    None
                } else {
                    lyric_tags(after_open.skip(close + 1), found)
                },
            },
        },
    }
}

#[via_fn]
proof fn lyric_tags_decreases(rest: Seq<char>, found: Seq<u64>) {
    reveal_strlit("[");
    reveal_strlit("]");
    if let Some(after_open) = text::after_prefix(rest, "["@) {
        text::lemma_find_from(after_open, "]"@, 0);
    }
}

/// The times of a lyric line and its text.
pub open spec fn lyric_line(line: Seq<char>) -> Option<(Seq<u64>, Seq<char>)> {
    lyric_tags(text::trimmed(line), Seq::empty())
}

/// Reads the times of a lyric line and its text.
pub fn parse_lrc_timestamps(line: &[char]) -> (tags: Option<(Vec<u64>, &[char])>)
    ensures
        match tags {
            Some((times, body)) => lyric_line(line@) == Some((times@, body@)) && times.len() > 0,
            None => lyric_line(line@) is None,
        },
{
    proof {
        reveal_strlit("[");
        reveal_strlit("]");
    }
    let mut rest = text::trim(line);
    let mut times: Vec<u64> = Vec::new();
    loop
        invariant
            lyric_line(line@) == lyric_tags(rest@, times@),
            "["@.len() == 1,
            "]"@.len() == 1,
        decreases rest.len(),
    {
        match text::strip_prefix(rest, "[") {
            None => {
                if times.len() > 0 {
                    return Some((times, rest));
                }
                return None;
            },
            Some(after_open) => match text::find_str(after_open, "]") {
                None => {
                    return None;
                },
                Some(close) => {
                    let tag = text::part(after_open, 0, close);
                    assert(tag@ == after_open@.take(close as int));
                    if let Some(time) = parse_clock(tag) {
                        times.push(time);
                    } else if times.len() == 0 {
                        return None;
                    }
                    rest = text::part(after_open, close + 1, after_open.len());
                    assert(rest@ == after_open@.skip(close + 1));
                },
            },
        }
    }
}

/// One entry for each time, all with the same caption. Their end is not known yet.
pub open spec fn lyric_entries(times: Seq<u64>, body: Seq<char>) -> Seq<Cue> {
    times.map_values(|time: u64| Cue { start_ms: time, end_ms: 0, text: body })
}

/// The entries of the lines of a lyric file, in the order of the file.
pub open spec fn lyrics(lines: Seq<Seq<char>>) -> Seq<Cue>
    decreases lines.len(),
{
    if lines.len() == 0 {
        Seq::empty()
    } else {
        lyrics(lines.drop_last()) + (match lyric_line(lines.last()) {
            Some((times, body)) => if caption(body).len() > 0 {
                lyric_entries(times, caption(body))
            } else {
                Seq::empty()
            },
            None => Seq::empty(),
        })
    }
}

/// How long a lyric is shown when nothing follows it: long enough to read it.
pub open spec fn reading_ms(length: nat) -> u64 {
    if length * 260 + 900 <= 2_000 {
        2_000
    } else if length * 260 + 900 >= 8_000 {
        8_000
    } else {
        (length * 260 + 900) as u64
    }
}

/// Each entry ends where the next one begins; the last ends when it has been read.
pub open spec fn with_ends(entries: Seq<Cue>) -> Seq<Cue> {
    Seq::new(
        entries.len(),
        |i: int|
            Cue {
                start_ms: entries[i].start_ms,
                end_ms: if i + 1 < entries.len() && entries[i + 1].start_ms > entries[i].start_ms {
                    entries[i + 1].start_ms
                } else {
                    ends_after(entries[i].start_ms, reading_ms(entries[i].text.len()))
                },
                text: entries[i].text,
            },
    )
}

/// The moment `ms` milliseconds after `start`, at most the last that 64 bits can hold.
pub open spec fn ends_after(start: u64, ms: u64) -> u64 {
    if start + ms <= u64::MAX {
        (start + ms) as u64
    } else {
        u64::MAX
    }
}

/// The cues of an LRC text.
pub open spec fn lrc_cues(content: Seq<char>) -> Seq<Cue> {
    with_ends(merged(ordered(lyrics(text::lines_of(content)))))
}

/// How long a lyric of the given length is shown when nothing follows it.
pub fn estimate_lrc_duration_ms(caption: &str) -> (ms: u64)
    ensures
        ms == reading_ms(caption@.len()),
{
    let characters = text::chars_of(caption).len();
    if characters >= 28 {
        8_000
    } else {
        let ms: u64 = characters as u64 * 260 + 900;
        if ms <= 2_000 {
            2_000
        } else if ms >= 8_000 {
            8_000
        } else {
            ms
        }
    }
}

fn read_lyrics(content: &[char]) -> (entries: Vec<SubtitleCue>)
    ensures
        cues_of(entries@) == lyrics(text::lines_of(content@)),
{
    let lines = text::lines(content);
    let ghost all = text::texts(lines@);
    let mut entries: Vec<SubtitleCue> = Vec::new();
    let mut i: usize = 0;
    while i < lines.len()
        invariant
            i <= lines.len(),
            all == text::texts(lines@),
            cues_of(entries@) == lyrics(all.take(i as int)),
        decreases lines.len() - i,
    {
        let ghost before = entries@;
        assert(all.take(i as int + 1).drop_last() == all.take(i as int));
        assert(all.take(i as int + 1).last() == lines@[i as int]@);
        if let Some((times, body)) = parse_lrc_timestamps(lines[i]) {
            let caption = clean_caption_text(body);
            if !caption.as_str().is_empty() {
                let mut k: usize = 0;
                while k < times.len()
                    invariant
                        k <= times.len(),
                        cues_of(entries@) == cues_of(before) + lyric_entries(
                            times@.take(k as int),
                            caption@,
                        ),
                    decreases times.len() - k,
                {
                    let ghost partial = entries@;
                    entries.push(
                        SubtitleCue { start_ms: times[k], end_ms: 0, text: caption.clone() },
                    );
                    assert(cues_of(entries@) == cues_of(partial).push(entries@.last()@));
                    assert(times@.take(k as int + 1) == times@.take(k as int).push(times@[k as int]));
                    assert(lyric_entries(times@.take(k as int + 1), caption@) == lyric_entries(
                        times@.take(k as int),
                        caption@,
                    ).push(entries@.last()@));
                    k += 1;
                }
                assert(times@.take(k as int) == times@);
            }
        }
        i += 1;
    }
    assert(all.take(i as int) == all);
    entries
}

/// Reads the cues of an LRC text.
pub fn parse_lrc(content: &[char]) -> (cues: Vec<SubtitleCue>)
    ensures
        cues_of(cues@) == lrc_cues(content@),
{
    // Tags of two lines may hold the same time. Such lyrics are merged, so that no two voices
    // speak at once.
    let entries = merge_cues(sort_cues(read_lyrics(content)));
    let ghost all = cues_of(entries@);
    let mut cues: Vec<SubtitleCue> = Vec::new();
    let mut i: usize = 0;
    while i < entries.len()
        invariant
            i <= entries.len(),
            all == cues_of(entries@),
            cues_of(cues@) == with_ends(all).take(i as int),
        decreases entries.len() - i,
    {
        let ghost before = cues@;
        let start_ms = entries[i].start_ms;
        assert(all[i as int] == entries@[i as int]@);
        assert(i + 1 < entries.len() ==> all[i + 1] == entries@[i + 1]@);
        let end_ms: u64 = if i + 1 < entries.len() && entries[i + 1].start_ms > start_ms {
            entries[i + 1].start_ms
        } else {
            start_ms.saturating_add(estimate_lrc_duration_ms(entries[i].text.as_str()))
        };
        cues.push(SubtitleCue { start_ms, end_ms, text: entries[i].text.clone() });
        assert(cues_of(cues@) == cues_of(before).push(cues@.last()@));
        i += 1;
        assert(cues_of(cues@) == with_ends(all).take(i as int));
    }
    assert(with_ends(all).take(i as int) == with_ends(all));
    cues
}

/// The text that `encoding_rs::GBK.decode` makes of the bytes, and whether it had to put
/// replacement characters for sequences that it could not read.
pub uninterp spec fn gbk_decoded(bytes: Seq<u8>) -> (Seq<char>, bool);

/// Decodes bytes with `encoding_rs::GBK.decode`, which replaces what it cannot read and says
/// whether it did. Its result depends on the bytes alone. It reserves up to three bytes of text
/// for each byte and panics when that is more than a buffer can hold.
#[verifier::external_body]
fn decode_gbk(bytes: &[u8]) -> (decoded: (String, bool))
    requires
        bytes@.len() <= usize::MAX / 8,
    ensures
        (decoded.0@, decoded.1) == gbk_decoded(bytes@),
{
    let (content, _, had_errors) = encoding_rs::GBK.decode(bytes);
    (content.into_owned(), had_errors)
}

/// The text of the error of `String::from_utf8` on bytes that are no UTF-8.
pub uninterp spec fn utf8_error(bytes: Seq<u8>) -> Seq<char>;

/// `String::from_utf8` gives the text that the bytes encode when they are valid UTF-8, and an
/// error otherwise. The wording of the error depends on the bytes alone.
#[verifier::external_body]
fn string_from_utf8(bytes: &[u8]) -> (decoded: Result<String, String>)
    ensures
        match decoded {
            Ok(content) => vstd::utf8::valid_utf8(bytes@) && content@ == vstd::utf8::decode_utf8(
                bytes@,
            ),
            Err(error) => !vstd::utf8::valid_utf8(bytes@) && error@ == utf8_error(bytes@),
        },
{
    String::from_utf8(bytes.to_vec()).map_err(|error| error.to_string())
}

/// A unit of UTF-16 that stands for a character by itself.
pub open spec fn is_plain_unit(unit: u16) -> bool {
    unit < 0xD800 || unit > 0xDFFF
}

/// The first unit of a surrogate pair.
pub open spec fn is_high_unit(unit: u16) -> bool {
    0xD800 <= unit <= 0xDBFF
}

/// The second unit of a surrogate pair.
pub open spec fn is_low_unit(unit: u16) -> bool {
    0xDC00 <= unit <= 0xDFFF
}

/// The character of a surrogate pair.
pub open spec fn pair_char(high: u16, low: u16) -> char {
    (0x10000 + (high - 0xD800) * 0x400 + (low - 0xDC00)) as u32 as char
}

/// The text that UTF-16 units encode; `None` when a surrogate has no partner.
pub open spec fn utf16_decoded(units: Seq<u16>) -> Option<Seq<char>>
    decreases units.len(),
{
    if units.len() == 0 {
        Some(Seq::empty())
    } else if is_plain_unit(units[0]) {
        match utf16_decoded(units.skip(1)) {
            Some(rest) => Some(seq![units[0] as u32 as char] + rest),
            None => None,
        }
    } else if is_high_unit(units[0]) && units.len() > 1 && is_low_unit(units[1]) {
        match utf16_decoded(units.skip(2)) {
            Some(rest) => Some(seq![pair_char(units[0], units[1])] + rest),
            None => None,
        }
    } else {
        None
    }
}

/// The text of the error of `String::from_utf16` on units with a lone surrogate.
pub uninterp spec fn utf16_error(units: Seq<u16>) -> Seq<char>;

/// `String::from_utf16` gives the text that the units encode, and an error when one of them is a
/// surrogate without its partner. The wording of the error depends on the units alone.
#[verifier::external_body]
fn string_from_utf16(units: &[u16]) -> (decoded: Result<String, String>)
    ensures
        match decoded {
            Ok(content) => utf16_decoded(units@) == Some(content@),
            Err(error) => utf16_decoded(units@) is None && error@ == utf16_error(units@),
        },
{
    String::from_utf16(units).map_err(|error| error.to_string())
}

/// The UTF-16 units that pairs of bytes stand for.
pub open spec fn units_of(bytes: Seq<u8>, little_endian: bool) -> Seq<u16> {
    Seq::new(
        bytes.len() / 2,
        |i: int|
            if little_endian {
                (bytes[2 * i] + bytes[2 * i + 1] * 256) as u16
            } else {
                (bytes[2 * i] * 256 + bytes[2 * i + 1]) as u16
            },
    )
}

/// What `decode_utf16` returns.
pub open spec fn utf16_result(bytes: Seq<u8>, little_endian: bool) -> Result<Seq<char>, Seq<char>> {
    if bytes.len() % 2 != 0 {
        Err("The UTF-16 subtitle has an incomplete final byte."@)
    } else {
        match utf16_decoded(units_of(bytes, little_endian)) {
            Some(content) => Ok(content),
            None => Err("Invalid UTF-16 subtitle: "@ + utf16_error(units_of(bytes, little_endian))),
        }
    }
}

/// What `gbk_outcome` returns.
pub open spec fn gbk_result(content: Seq<char>, had_errors: bool) -> Result<Seq<char>, Seq<char>> {
    if had_errors {
        Err("The subtitle encoding is not recognized. Save it as UTF-8, UTF-16, or GBK and try again."@)
    } else {
        Ok(content)
    }
}

/// Whether the bytes begin with the given bytes.
pub open spec fn begins_with(bytes: Seq<u8>, mark: Seq<u8>) -> bool {
    mark.is_prefix_of(bytes)
}

pub open spec fn utf8_mark() -> Seq<u8> {
    seq![0xEFu8, 0xBBu8, 0xBFu8]
}

pub open spec fn utf16_le_mark() -> Seq<u8> {
    seq![0xFFu8, 0xFEu8]
}

pub open spec fn utf16_be_mark() -> Seq<u8> {
    seq![0xFEu8, 0xFFu8]
}

/// The text of a subtitle file. A byte order mark decides the encoding; without one it is UTF-8
/// where the bytes are valid UTF-8, and GBK otherwise.
pub open spec fn file_text(bytes: Seq<u8>) -> Result<Seq<char>, Seq<char>> {
    if begins_with(bytes, utf8_mark()) {
        let body = bytes.skip(3);
        if vstd::utf8::valid_utf8(body) {
            Ok(vstd::utf8::decode_utf8(body))
        } else {
            Err("Invalid UTF-8 subtitle: "@ + utf8_error(body))
        }
    } else if begins_with(bytes, utf16_le_mark()) {
        utf16_result(bytes.skip(2), true)
    } else if begins_with(bytes, utf16_be_mark()) {
        utf16_result(bytes.skip(2), false)
    } else if vstd::utf8::valid_utf8(bytes) {
        Ok(vstd::utf8::decode_utf8(bytes))
    } else {
        gbk_result(gbk_decoded(bytes).0, gbk_decoded(bytes).1)
    }
}

/// Whether a result holds the given text or the given error.
pub open spec fn is_text_result(
    result: Result<String, String>,
    expected: Result<Seq<char>, Seq<char>>,
) -> bool {
    match result {
        Ok(content) => expected == Ok::<Seq<char>, Seq<char>>(content@),
        Err(error) => expected == Err::<Seq<char>, Seq<char>>(error@),
    }
}

/// Decodes a subtitle file. UTF-8 and UTF-16 are detected first; older files are read as GBK.
pub fn decode_subtitle_bytes(bytes: &[u8]) -> (decoded: Result<String, String>)
    requires
        bytes@.len() <= usize::MAX / 8,
    ensures
        is_text_result(decoded, file_text(bytes@)),
{
    if bytes.len() >= 3 && bytes[0] == 0xEF && bytes[1] == 0xBB && bytes[2] == 0xBF {
        assert(bytes@.take(3) == utf8_mark());
        let body = vstd::slice::slice_subrange(bytes, 3, bytes.len());
        assert(body@ == bytes@.skip(3));
        return match string_from_utf8(body) {
            Ok(content) => Ok(content),
            Err(error) => Err("Invalid UTF-8 subtitle: ".to_string().concat(error.as_str())),
        };
    }
    assert(!begins_with(bytes@, utf8_mark()));
    if bytes.len() >= 2 && bytes[0] == 0xFF && bytes[1] == 0xFE {
        assert(bytes@.take(2) == utf16_le_mark());
        let body = vstd::slice::slice_subrange(bytes, 2, bytes.len());
        assert(body@ == bytes@.skip(2));
        return decode_utf16(body, true);
    }
    assert(!begins_with(bytes@, utf16_le_mark()));
    if bytes.len() >= 2 && bytes[0] == 0xFE && bytes[1] == 0xFF {
        assert(bytes@.take(2) == utf16_be_mark());
        let body = vstd::slice::slice_subrange(bytes, 2, bytes.len());
        assert(body@ == bytes@.skip(2));
        return decode_utf16(body, false);
    }
    assert(!begins_with(bytes@, utf16_be_mark()));
    match string_from_utf8(bytes) {
        Ok(content) => Ok(content),
        Err(_) => {
            let (content, had_errors) = decode_gbk(bytes);
            gbk_outcome(content, had_errors)
        },
    }
}

/// Decodes UTF-16 without a byte order mark.
pub fn decode_utf16(bytes: &[u8], little_endian: bool) -> (decoded: Result<String, String>)
    ensures
        is_text_result(decoded, utf16_result(bytes@, little_endian)),
{
    if bytes.len() % 2 != 0 {
        return Err("The UTF-16 subtitle has an incomplete final byte.".to_string());
    }
    let mut units: Vec<u16> = Vec::new();
    let ghost all = units_of(bytes@, little_endian);
    let mut i: usize = 0;
    while i < bytes.len()
        invariant
            i <= bytes.len(),
            bytes.len() % 2 == 0,
            i == 2 * units.len(),
            all == units_of(bytes@, little_endian),
            units@ == all.take(units.len() as int),
        decreases bytes.len() - i,
    {
        let first = bytes[i] as u16;
        let second = bytes[i + 1] as u16;
        let unit: u16 = if little_endian {
            first + second * 256
        } else {
            first * 256 + second
        };
        units.push(unit);
        i += 2;
        assert(units@ == all.take(units.len() as int));
    }
    assert(units@ == all);
    match string_from_utf16(units.as_slice()) {
        Ok(content) => Ok(content),
        Err(error) => Err("Invalid UTF-16 subtitle: ".to_string().concat(error.as_str())),
    }
}

/// What becomes of a file that was read as GBK: its text, unless some of it could not be read.
pub fn gbk_outcome(content: String, had_errors: bool) -> (decoded: Result<String, String>)
    ensures
        is_text_result(decoded, gbk_result(content@, had_errors)),
{
    if had_errors {
        Err(
            "The subtitle encoding is not recognized. Save it as UTF-8, UTF-16, or GBK and try again.".to_string(),
        )
    } else {
        Ok(content)
    }
}

/// Some line of the text is a lyric line.
pub open spec fn has_lyric_line(lines: Seq<Seq<char>>) -> bool {
    exists|i: int| 0 <= i < lines.len() && lyric_line(#[trigger] lines[i]) is Some
}

/// The format of a text, by the extension of its file name or else by what it holds.
pub open spec fn format_of(file_name: Seq<char>, content: Seq<char>) -> Option<SubtitleFormat> {
    let extension = match file_names::extension_of(file_name) {
        Some(extension) => text::ascii_lowered(extension),
        None => Seq::empty(),
    };
    if extension == "srt"@ || extension == "str"@ {
        Some(SubtitleFormat::Srt)
    } else if extension == "vtt"@ {
        Some(SubtitleFormat::WebVtt)
    } else if extension == "ass"@ || extension == "ssa"@ {
        Some(SubtitleFormat::Ass)
    } else if extension == "lrc"@ {
        Some(SubtitleFormat::Lrc)
    } else if text::occurs_at(text::trimmed_start(content), "WEBVTT"@, 0) {
        Some(SubtitleFormat::WebVtt)
    } else if text::occurs(content, "[Events]"@) && text::occurs(content, "Dialogue:"@) {
        Some(SubtitleFormat::Ass)
    } else if has_lyric_line(text::lines_of(content)) {
        Some(SubtitleFormat::Lrc)
    } else if text::occurs(content, "-->"@) {
        Some(SubtitleFormat::Srt)
    } else {
        None
    }
}

/// The cues of a text in the given format, as they stand in it.
pub open spec fn raw_cues(format: SubtitleFormat, content: Seq<char>) -> Seq<Cue> {
    match format {
        SubtitleFormat::Srt => srt_cues(content),
        SubtitleFormat::WebVtt => srt_cues(content),
        SubtitleFormat::Ass => ass_cues(content),
        SubtitleFormat::Lrc => lrc_cues(content),
    }
}

/// The track that a text holds, or the reason why it holds none.
pub open spec fn track_of(file_name: Seq<char>, content: Seq<char>) -> Result<
    (SubtitleFormat, Seq<Cue>),
    Seq<char>,
> {
    match format_of(file_name, content) {
        None => Err(
            "Unsupported subtitle format. Choose an SRT/STR, WebVTT, ASS/SSA, or LRC file."@,
        ),
        Some(format) => {
            let cues = normalized(raw_cues(format, content));
            if cues.len() == 0 {
                Err("No timed subtitle lines were found in this file."@)
            } else {
                Ok((format, cues))
            }
        },
    }
}

/// Whether a result holds the given track or the given error.
pub open spec fn is_track_result(
    result: Result<SubtitleTrack, String>,
    expected: Result<(SubtitleFormat, Seq<Cue>), Seq<char>>,
) -> bool {
    match result {
        Ok(track) => expected == Ok::<(SubtitleFormat, Seq<Cue>), Seq<char>>(
            (track.format, cues_of(track.cues@)),
        ) && is_normal(cues_of(track.cues@)) && track.cues@.len() > 0,
        Err(error) => expected == Err::<(SubtitleFormat, Seq<Cue>), Seq<char>>(error@),
    }
}

/// The format of a text, by the extension of its file name or else by what it holds.
pub fn detect_format(file_name: &str, content: &[char]) -> (format: Option<SubtitleFormat>)
    ensures
        format == format_of(file_name@, content@),
{
    let name = text::chars_of(file_name);
    let extension = match file_names::extension(name.as_slice()) {
        Some(extension) => text::to_ascii_lowercase(extension),
        None => Vec::new(),
    };
    let extension = extension.as_slice();
    if text::same_text(extension, "srt") || text::same_text(extension, "str") {
        Some(SubtitleFormat::Srt)
    } else if text::same_text(extension, "vtt") {
        Some(SubtitleFormat::WebVtt)
    } else if text::same_text(extension, "ass") || text::same_text(extension, "ssa") {
        Some(SubtitleFormat::Ass)
    } else if text::same_text(extension, "lrc") {
        Some(SubtitleFormat::Lrc)
    } else if text::starts_with(text::trim_start(content), "WEBVTT") {
        Some(SubtitleFormat::WebVtt)
    } else if text::contains(content, "[Events]") && text::contains(content, "Dialogue:") {
        Some(SubtitleFormat::Ass)
    } else if any_lyric_line(content) {
        Some(SubtitleFormat::Lrc)
    } else if text::contains(content, "-->") {
        Some(SubtitleFormat::Srt)
    } else {
        None
    }
}

fn any_lyric_line(content: &[char]) -> (found: bool)
    ensures
        found == has_lyric_line(text::lines_of(content@)),
{
    let lines = text::lines(content);
    let ghost all = text::texts(lines@);
    let mut i: usize = 0;
    while i < lines.len()
        invariant
            i <= lines.len(),
            all == text::texts(lines@),
            all == text::lines_of(content@),
            forall|k: int| 0 <= k < i ==> lyric_line(#[trigger] all[k]) is None,
        decreases lines.len() - i,
    {
        assert(all[i as int] == lines@[i as int]@);
        if parse_lrc_timestamps(lines[i]).is_some() {
            return true;
        }
        i += 1;
    }
    false
}

/// Reads the track that a decoded subtitle file holds.
pub fn parse_subtitle_text(file_name: &str, content: &str) -> (track: Result<SubtitleTrack, String>)
    ensures
        is_track_result(track, track_of(file_name@, content@)),
{
    let chars = text::chars_of(content);
    let format = match detect_format(file_name, chars.as_slice()) {
        Some(format) => format,
        None => {
            return Err(
                "Unsupported subtitle format. Choose an SRT/STR, WebVTT, ASS/SSA, or LRC file.".to_string(),
            );
        },
    };
    let cues = match format {
        SubtitleFormat::Srt => parse_srt_or_vtt(chars.as_slice()),
        SubtitleFormat::WebVtt => parse_srt_or_vtt(chars.as_slice()),
        SubtitleFormat::Ass => parse_ass(chars.as_slice()),
        SubtitleFormat::Lrc => parse_lrc(chars.as_slice()),
    };
    let cues = normalize_cues(cues);
    assert(cues_of(cues@).len() == cues@.len());
    if cues.len() == 0 {
        return Err("No timed subtitle lines were found in this file.".to_string());
    }
    Ok(SubtitleTrack { format, cues })
}

/// Reads a subtitle file. The name is the last component of its path.
pub fn parse_subtitle(file_name: &str, bytes: &[u8]) -> (track: Result<SubtitleTrack, String>)
    requires
        bytes@.len() <= usize::MAX / 8,
    ensures
        is_track_result(
            track,
            match file_text(bytes@) {
                Ok(content) => track_of(file_name@, content),
                Err(error) => Err(error),
            },
        ),
{
    match decode_subtitle_bytes(bytes) {
        Ok(content) => parse_subtitle_text(file_name, content.as_str()),
        Err(error) => Err(error),
    }
}

/// A time as it is shown to the user: `MM:SS.mmm`, with the hours before it when there are any.
pub open spec fn timestamp(ms: nat) -> Seq<char> {
    let hours = ms / 3_600_000;
    (if hours > 0 {
        padded(hours, 2) + ":"@
    } else {
        Seq::empty()
    }) + padded(ms / 60_000 % 60, 2) + ":"@ + padded(ms / 1_000 % 60, 2) + "."@ + padded(ms % 1_000, 3)
}

/// A number in decimal with zeros before it up to the given width.
pub open spec fn padded(n: nat, width: nat) -> Seq<char> {
    text::zero_padded(text::decimal(n), width)
}

pub fn format_timestamp(milliseconds: u64) -> (shown: String)
    ensures
        shown@ == timestamp(milliseconds as nat),
{
    let mut shown: Vec<char> = Vec::new();
    let hours = milliseconds / 3_600_000;
    if hours > 0 {
        text::append_number(&mut shown, hours, 2);
        text::append_str(&mut shown, ":");
    }
    text::append_number(&mut shown, milliseconds / 60_000 % 60, 2);
    text::append_str(&mut shown, ":");
    text::append_number(&mut shown, milliseconds / 1_000 % 60, 2);
    text::append_str(&mut shown, ".");
    text::append_number(&mut shown, milliseconds % 1_000, 3);
    assert(shown@ == timestamp(milliseconds as nat));
    text::string_of(shown.as_slice())
}

/// Minutes, seconds and milliseconds as a clock shows them, with the given decimal sign.
pub open spec fn clock_tail(ms: nat, sign: char) -> Seq<char> {
    padded(ms / 60_000 % 60, 2) + seq![':'] + padded(ms / 1_000 % 60, 2) + seq![sign] + padded(
        ms % 1_000,
        3,
    )
}

/// The seconds field that a clock shows is read back as its milliseconds.
proof fn lemma_seconds_read_back(ms: nat)
    ensures
        seconds_ms(padded(ms / 1_000 % 60, 2) + seq!['.'] + padded(ms % 1_000, 3)) == Some(
            (ms / 1_000 % 60) * 1_000 + ms % 1_000,
        ),
{
    reveal_strlit(".");
    assert("."@ == seq!['.']);
    let whole = padded(ms / 1_000 % 60, 2);
    let fraction = padded(ms % 1_000, 3);
    let value = whole + seq!['.'] + fraction;
    text::lemma_padded_number(ms / 1_000 % 60, 2);
    text::lemma_padded_number(ms % 1_000, 3);
    text::lemma_digits_lack(whole, '.');
    text::lemma_find_char(whole, '.', fraction);
    assert(value.take(whole.len() as int) == whole);
    assert(value.skip(whole.len() as int + 1) == fraction);
    text::lemma_decimal_len(ms % 1_000);
    assert(fraction.len() == 3);
    assert(fraction.take(3) == fraction);
}

/// The fields of a clock are what stands between its colons.
proof fn lemma_clock_pieces(h: Seq<char>, m: Seq<char>, seconds: Seq<char>)
    requires
        text::lacks(h, ':'),
        text::lacks(m, ':'),
        text::lacks(seconds, ':'),
    ensures
        text::pieces(m + seq![':'] + seconds, ':') == seq![m, seconds],
        text::pieces(h + seq![':'] + (m + seq![':'] + seconds), ':') == seq![h, m, seconds],
{
    text::lemma_pieces_single(seconds, ':');
    text::lemma_pieces_cons(m, ':', seconds);
    text::lemma_pieces_cons(h, ':', m + seq![':'] + seconds);
    assert(seq![m] + seq![seconds] == seq![m, seconds]);
    assert(seq![h] + seq![m, seconds] == seq![h, m, seconds]);
}

/// A time is the sum of its hours, minutes, seconds and milliseconds.
pub proof fn lemma_time_parts(ms: nat)
    ensures
        ms == (ms / 3_600_000) * 3_600_000 + (ms / 60_000 % 60) * 60_000 + ((ms / 1_000 % 60) * 1_000
            + ms % 1_000),
{
    let seconds = ms / 1_000;
    let minutes = ms / 60_000;
    assert(ms == seconds * 1_000 + ms % 1_000);
    assert(minutes == seconds / 60) by {
        vstd::arithmetic::div_mod::lemma_div_denominator(ms as int, 1_000, 60);
    }
    assert(seconds == minutes * 60 + seconds % 60);
    assert(ms / 3_600_000 == minutes / 60) by {
        vstd::arithmetic::div_mod::lemma_div_denominator(ms as int, 60_000, 60);
    }
    assert(minutes == (minutes / 60) * 60 + minutes % 60);
}

/// What a clock of the given fields is read as.
pub proof fn lemma_clock_of_fields(h: Seq<char>, m: Seq<char>, s: Seq<char>, f: Seq<char>, sign: char)
    requires
        sign == '.' || sign == ',',
        text::all_digits(h) && h.len() > 0,
        text::all_digits(m) && m.len() > 0,
        text::all_digits(s) && s.len() > 0,
        text::all_digits(f) && f.len() > 0,
    ensures
        ({
            let seconds = s + seq!['.'] + f;
            let front = m + seq![':'] + s + seq![sign] + f;
            &&& text::pieces(text::replaced(text::trimmed(front), ","@, "."@), ':') == seq![m, seconds]
            &&& text::pieces(
                text::replaced(text::trimmed(h + seq![':'] + front), ","@, "."@),
                ':',
            ) == seq![h, m, seconds]
        }),
{
    let seconds = s + seq!['.'] + f;
    let tail = m + seq![':'] + seconds;
    let full = h + seq![':'] + tail;
    let long_front = h + seq![':'] + m + seq![':'] + s;
    let front = m + seq![':'] + s;
    assert(text::replaced(
        text::trimmed(h + seq![':'] + (m + seq![':'] + s + seq![sign] + f)),
        ","@,
        "."@,
    ) == full) by {
        lemma_decimal_sign(long_front, f, sign);
        assert(h + seq![':'] + (m + seq![':'] + s + seq![sign] + f) == long_front + seq![sign] + f);
        assert(long_front + seq!['.'] + f == full);
    }
    assert(text::replaced(text::trimmed(m + seq![':'] + s + seq![sign] + f), ","@, "."@) == tail) by {
        lemma_decimal_sign(front, f, sign);
        assert(front + seq!['.'] + f == tail);
    }
    text::lemma_digits_lack(h, ':');
    text::lemma_digits_lack(m, ':');
    text::lemma_digits_lack(s, ':');
    text::lemma_digits_lack(f, ':');
    lemma_clock_pieces(h, m, seconds);
}

/// A clock of hours, minutes and seconds is read back as the time it shows.
pub proof fn lemma_clock_read_back(ms: nat, sign: char)
    requires
        ms <= u64::MAX,
        sign == '.' || sign == ',',
    ensures
        clock(padded(ms / 3_600_000, 2) + seq![':'] + clock_tail(ms, sign)) == Some(ms as u64),
        ms < 3_600_000 ==> clock(clock_tail(ms, sign)) == Some(ms as u64),
{
    let h = padded(ms / 3_600_000, 2);
    let m = padded(ms / 60_000 % 60, 2);
    let s = padded(ms / 1_000 % 60, 2);
    let f = padded(ms % 1_000, 3);
    text::lemma_padded_number(ms / 3_600_000, 2);
    text::lemma_padded_number(ms / 60_000 % 60, 2);
    text::lemma_padded_number(ms / 1_000 % 60, 2);
    text::lemma_padded_number(ms % 1_000, 3);
    lemma_clock_of_fields(h, m, s, f, sign);
    lemma_seconds_read_back(ms);
    lemma_time_parts(ms);
}

/// Trimming and rewriting the decimal sign of a clock gives the clock with a point.
proof fn lemma_decimal_sign(front: Seq<char>, fraction: Seq<char>, sign: char)
    requires
        sign == '.' || sign == ',',
        front.len() > 0,
        fraction.len() > 0,
        forall|i: int| 0 <= i < front.len() ==> text::is_digit(#[trigger] front[i]) || front[i] == ':',
        text::all_digits(fraction),
    ensures
        text::replaced(text::trimmed(front + seq![sign] + fraction), ","@, "."@) == front + seq![
            '.',
        ] + fraction,
{
    reveal_strlit(",");
    reveal_strlit(".");
    assert(","@ == seq![',']);
    assert("."@ == seq!['.']);
    let s = front + seq![sign] + fraction;
    assert(s[0] == front[0]);
    assert(s.last() == fraction.last());
    assert(text::is_digit(fraction[fraction.len() - 1]));
    assert(!text::is_space(s[0]));
    text::lemma_trimmed_fixed(s);
    text::lemma_digits_lack(fraction, ',');
    if sign == ',' {
        text::lemma_replaced_char(front, ',', fraction, "."@);
        text::lemma_replaced_lacking(fraction, ',', "."@);
    } else {
        text::lemma_replaced_lacking(s, ',', "."@);
    }
}

/// The time that `format_timestamp` shows is read back by `parse_clock`.
pub proof fn timestamp_is_read_back(ms: u64)
    ensures
        clock(timestamp(ms as nat)) == Some(ms),
{
    reveal_strlit(":");
    reveal_strlit(".");
    assert(":"@ == seq![':']);
    assert("."@ == seq!['.']);
    let ms = ms as nat;
    lemma_clock_read_back(ms, '.');
    if ms / 3_600_000 > 0 {
        assert(timestamp(ms) == padded(ms / 3_600_000, 2) + seq![':'] + clock_tail(ms, '.'));
    } else {
        assert(timestamp(ms) == clock_tail(ms, '.'));
    }
}

/// The UTF-16 units of one character.
pub open spec fn char_units(c: char) -> Seq<u16> {
    if c as u32 <= 0xFFFF {
        seq![c as u16]
    } else {
        seq![
            (0xD800 + (c as u32 - 0x10000) / 0x400) as u16,
            (0xDC00 + (c as u32 - 0x10000) % 0x400) as u16,
        ]
    }
}

/// The UTF-16 units of a text.
pub open spec fn utf16_units(s: Seq<char>) -> Seq<u16>
    decreases s.len(),
{
    if s.len() == 0 {
        Seq::empty()
    } else {
        char_units(s[0]) + utf16_units(s.skip(1))
    }
}

/// The bytes of UTF-16 units, the low byte first or the high byte first.
pub open spec fn unit_bytes(units: Seq<u16>, little_endian: bool) -> Seq<u8> {
    Seq::new(
        units.len() * 2,
        |i: int|
            if (i % 2 == 0) == little_endian {
                (units[i / 2] % 256) as u8
            } else {
                (units[i / 2] / 256) as u8
            },
    )
}

/// The units of a character stand for that character.
proof fn lemma_char_units(c: char)
    ensures
        c as u32 <= 0xFFFF ==> is_plain_unit(char_units(c)[0]) && char_units(c)[0] as u32 as char == c,
        c as u32 > 0xFFFF ==> is_high_unit(char_units(c)[0]) && is_low_unit(char_units(c)[1])
            && pair_char(char_units(c)[0], char_units(c)[1]) == c,
{
    let code = c as u32;
    if code <= 0xFFFF {
        assert(char_units(c)[0] as u32 == code);
    } else {
        assert(code <= 0x10FFFF);
        let offset = (code - 0x10000) as int;
        assert(offset == offset / 0x400 * 0x400 + offset % 0x400);
        assert(offset / 0x400 < 0x400);
    }
}

proof fn lemma_utf16_read_back(s: Seq<char>)
    ensures
        utf16_decoded(utf16_units(s)) == Some(s),
    decreases s.len(),
{
    if s.len() > 0 {
        let rest = s.skip(1);
        let units = utf16_units(s);
        lemma_char_units(s[0]);
        lemma_utf16_read_back(rest);
        assert(seq![s[0]] + rest == s);
        if s[0] as u32 <= 0xFFFF {
            assert(units.skip(1) == utf16_units(rest));
            assert(units[0] == char_units(s[0])[0]);
        } else {
            assert(units.skip(2) == utf16_units(rest));
            assert(units[0] == char_units(s[0])[0]);
            assert(units[1] == char_units(s[0])[1]);
        }
    }
}

proof fn lemma_unit_bytes_read_back(units: Seq<u16>, little_endian: bool)
    ensures
        units_of(unit_bytes(units, little_endian), little_endian) == units,
        unit_bytes(units, little_endian).len() % 2 == 0,
{
    let bytes = unit_bytes(units, little_endian);
    assert forall|i: int| 0 <= i < units.len() implies #[trigger] units_of(bytes, little_endian)[i]
        == units[i] by {
        assert((2 * i) / 2 == i && (2 * i + 1) / 2 == i);
        assert((2 * i) % 2 == 0 && (2 * i + 1) % 2 == 1);
    }
    assert(units_of(bytes, little_endian) =~= units);
}

/// A text written in UTF-16 behind its byte order mark is read back, in either byte order.
pub proof fn utf16_text_is_read_back(content: Seq<char>, little_endian: bool)
    ensures
        file_text(
            (if little_endian {
                utf16_le_mark()
            } else {
                utf16_be_mark()
            }) + unit_bytes(utf16_units(content), little_endian),
        ) == Ok::<Seq<char>, Seq<char>>(content),
{
    let body = unit_bytes(utf16_units(content), little_endian);
    let mark = if little_endian {
        utf16_le_mark()
    } else {
        utf16_be_mark()
    };
    let bytes = mark + body;
    assert(bytes.skip(2) == body);
    assert(bytes.take(2) == mark);
    assert(bytes[0] == mark[0] && bytes[1] == mark[1]);
    if begins_with(bytes, utf8_mark()) {
        assert(bytes[0] == utf8_mark()[0]);
    }
    if !little_endian && begins_with(bytes, utf16_le_mark()) {
        assert(bytes[0] == utf16_le_mark()[0]);
    }
    lemma_unit_bytes_read_back(utf16_units(content), little_endian);
    lemma_utf16_read_back(content);
}

/// Only a text that begins with the character of the byte order mark is written with the bytes of
/// one.
proof fn lemma_first_bytes(content: Seq<char>)
    requires
        content.len() > 0 ==> content[0] != '\u{FEFF}',
    ensures
        ({
            let bytes = vstd::utf8::encode_utf8(content);
            &&& !begins_with(bytes, utf8_mark())
            &&& !begins_with(bytes, utf16_le_mark())
            &&& !begins_with(bytes, utf16_be_mark())
        }),
{
    let bytes = vstd::utf8::encode_utf8(content);
    if content.len() > 0 {
        let c = content[0] as u32;
        vstd::utf8::char_is_scalar(content[0]);
        vstd::utf8::char_u32_cast(content[0], c);
        let first = vstd::utf8::encode_scalar(c);
        assert(forall|i: int| 0 <= i < first.len() ==> #[trigger] bytes[i] == first[i]);
        assert((c & 0x7F) as u8 <= 0x7F) by (bit_vector);
        assert(0xC0u8 | ((c >> 6) & 0x1F) as u8 <= 0xDF) by (bit_vector);
        assert(0xE0u8 | ((c >> 12) & 0x0F) as u8 <= 0xEF) by (bit_vector);
        assert(0xF0 <= 0xF0u8 | ((c >> 18) & 0x7) as u8 <= 0xF7) by (bit_vector);
        assert(c <= 0xFFFF && 0xE0u8 | ((c >> 12) & 0x0F) as u8 == 0xEF && 0x80u8 | ((c >> 6)
            & 0x3F) as u8 == 0xBB && 0x80u8 | (c & 0x3F) as u8 == 0xBF ==> c == 0xFEFF)
            by (bit_vector);
        assert(first[0] != 0xFF && first[0] != 0xFE);
        if begins_with(bytes, utf8_mark()) {
            assert(bytes[0] == 0xEF && bytes[1] == 0xBB && bytes[2] == 0xBF);
            assert(vstd::utf8::has_width_3_encoding(c));
            assert(c == 0xFEFF);
            assert(content[0] as int == 0xFEFF);
        }
        if begins_with(bytes, utf16_le_mark()) {
            assert(bytes[0] == 0xFF);
        }
        if begins_with(bytes, utf16_be_mark()) {
            assert(bytes[0] == 0xFE);
        }
    }
}

/// A text written in UTF-8 is read back, behind a byte order mark or without one. Without one, it
/// must not begin with the character of the mark itself.
pub proof fn utf8_text_is_read_back(content: Seq<char>)
    ensures
        file_text(utf8_mark() + vstd::utf8::encode_utf8(content)) == Ok::<Seq<char>, Seq<char>>(
            content,
        ),
        (content.len() > 0 ==> content[0] != '\u{FEFF}') ==> file_text(
            vstd::utf8::encode_utf8(content),
        ) == Ok::<Seq<char>, Seq<char>>(content),
{
    let body = vstd::utf8::encode_utf8(content);
    vstd::utf8::encode_utf8_valid_utf8(content);
    vstd::utf8::encode_utf8_decode_utf8(content);
    let bytes = utf8_mark() + body;
    assert(bytes.take(3) == utf8_mark());
    assert(bytes.skip(3) == body);
    if content.len() > 0 ==> content[0] != '\u{FEFF}' {
        lemma_first_bytes(content);
    }
}

/// Putting cues in normal form twice is putting them in normal form once.
pub proof fn normal_cues_stay_unchanged(cues: Seq<Cue>)
    requires
        is_normal(cues),
    ensures
        normalized(cues) == cues,
{
    lemma_shown_all(cues);
    lemma_ordered_fixed(cues);
    lemma_merged_fixed(cues);
}

proof fn lemma_is_normal_prefix(cues: Seq<Cue>)
    requires
        is_normal(cues),
        cues.len() > 0,
    ensures
        is_normal(cues.drop_last()),
{
    let rest = cues.drop_last();
    assert forall|i: int| 0 <= i < rest.len() implies is_shown(#[trigger] rest[i]) by {
        assert(is_shown(cues[i]));
    }
    assert forall|i: int, j: int| 0 <= i < j < rest.len() implies (#[trigger] rest[i]).start_ms
        < (#[trigger] rest[j]).start_ms by {
        assert(cues[i].start_ms < cues[j].start_ms);
    }
}

proof fn lemma_shown_all(cues: Seq<Cue>)
    requires
        is_normal(cues),
    ensures
        shown(cues) == cues,
    decreases cues.len(),
{
    reveal(Seq::filter);
    if cues.len() > 0 {
        lemma_is_normal_prefix(cues);
        lemma_shown_all(cues.drop_last());
        assert(is_shown(cues[cues.len() - 1]));
        assert(cues.drop_last().push(cues.last()) == cues);
    }
}

proof fn lemma_ordered_fixed(cues: Seq<Cue>)
    requires
        is_normal(cues),
    ensures
        ordered(cues) == cues,
    decreases cues.len(),
{
    if cues.len() > 0 {
        lemma_is_normal_prefix(cues);
        let rest = cues.drop_last();
        lemma_ordered_fixed(rest);
        if rest.len() > 0 {
            assert(cues[rest.len() - 1].start_ms < cues[cues.len() - 1].start_ms);
            assert(not_after(rest.last(), cues.last()));
        }
        assert(place(rest, cues.last()) == rest.len());
        assert(rest.insert(rest.len() as int, cues.last()) == cues);
    }
}

proof fn lemma_merged_fixed(cues: Seq<Cue>)
    requires
        is_normal(cues),
    ensures
        merged(cues) == cues,
    decreases cues.len(),
{
    if cues.len() > 0 {
        lemma_is_normal_prefix(cues);
        let rest = cues.drop_last();
        lemma_merged_fixed(rest);
        if rest.len() > 0 {
            assert(cues[rest.len() - 1].start_ms < cues[cues.len() - 1].start_ms);
        }
        assert(rest.push(cues.last()) == cues);
    }
}

} // verus!
