//! The order in which the voices of the online service are listed: by locale, then by name.
use vstd::prelude::*;

use crate::text;
use crate::voices;
use crate::voices::{Voice, VoiceChoice};

verus! {

/// A text comes before another in the order of their characters.
pub open spec fn text_before(a: Seq<char>, b: Seq<char>) -> bool
    decreases a.len(),
{
    if b.len() == 0 {
        false
    } else if a.len() == 0 {
        true
    } else if a[0] != b[0] {
        (a[0] as u32) < (b[0] as u32)
    } else {
        text_before(a.drop_first(), b.drop_first())
    }
}

/// Whether a text comes before another in the order of their characters.
pub fn is_text_before(a: &[char], b: &[char]) -> (before: bool)
    ensures
        before == text_before(a@, b@),
{
    let mut i: usize = 0;
    assert(a@.skip(0) == a@ && b@.skip(0) == b@);
    while i < a.len() && i < b.len()
        invariant
            i <= a.len(),
            i <= b.len(),
            text_before(a@, b@) == text_before(a@.skip(i as int), b@.skip(i as int)),
        decreases a.len() - i,
    {
        assert(a@.skip(i as int).drop_first() == a@.skip(i as int + 1));
        assert(b@.skip(i as int).drop_first() == b@.skip(i as int + 1));
        if a[i] != b[i] {
            return (a[i] as u32) < (b[i] as u32);
        }
        i += 1;
    }
    i == a.len() && i < b.len()
}

/// A voice is listed before another.
pub open spec fn voice_before(a: Voice, b: Voice) -> bool {
    text_before(a.locale, b.locale) || (a.locale == b.locale && text_before(
        a.short_name,
        b.short_name,
    ))
}

fn is_voice_before(a: &VoiceChoice, b: &VoiceChoice) -> (before: bool)
    ensures
        before == voice_before(a@, b@),
{
    let a_locale = text::chars_of(a.locale.as_str());
    let b_locale = text::chars_of(b.locale.as_str());
    if is_text_before(a_locale.as_slice(), b_locale.as_slice()) {
        return true;
    }
    let a_name = text::chars_of(a.short_name.as_str());
    let b_name = text::chars_of(b.short_name.as_str());
    text::same_text(a_locale.as_slice(), b.locale.as_str()) && is_text_before(
        a_name.as_slice(),
        b_name.as_slice(),
    )
}

/// A list with one more voice, which comes behind all that are not listed after it.
pub open spec fn with_voice(sorted: Seq<Voice>, voice: Voice) -> Seq<Voice>
    decreases sorted.len(),
{
    if sorted.len() > 0 && voice_before(voice, sorted.last()) {
        with_voice(sorted.drop_last(), voice).push(sorted.last())
    } else {
        sorted.push(voice)
    }
}

/// The voices in the order in which they are listed.
pub open spec fn in_order(voices: Seq<Voice>) -> Seq<Voice>
    decreases voices.len(),
{
    if voices.len() == 0 {
        Seq::empty()
    } else {
        with_voice(in_order(voices.drop_last()), voices.last())
    }
}

/// Where a voice is put into a list.
fn place_of(sorted: &Vec<VoiceChoice>, voice: &VoiceChoice) -> (place: usize)
    ensures
        place <= sorted@.len(),
        with_voice(voices::voices_of(sorted@), voice@) == voices::voices_of(sorted@).insert(
            place as int,
            voice@,
        ),
{
    let ghost all = voices::voices_of(sorted@);
    let mut place: usize = sorted.len();
    assert(all.take(place as int) == all);
    assert(with_voice(all, voice@) + all.skip(place as int) =~= with_voice(all, voice@));
    while place > 0
        invariant_except_break
            place <= sorted@.len(),
            all == voices::voices_of(sorted@),
            with_voice(all, voice@) == with_voice(all.take(place as int), voice@) + all.skip(
                place as int,
            ),
        ensures
            place <= sorted@.len(),
            with_voice(all, voice@) == all.insert(place as int, voice@),
        decreases place,
    {
        let ghost first = all.take(place as int);
        assert(first.last() == sorted@[place - 1]@);
        if !is_voice_before(voice, &sorted[place - 1]) {
            assert(first.push(voice@) + all.skip(place as int) =~= all.insert(
                place as int,
                voice@,
            ));
            break;
        }
        assert(first.drop_last() == all.take(place - 1));
        assert(with_voice(all.take(place - 1), voice@).push(first.last()) + all.skip(place as int)
            =~= with_voice(all.take(place - 1), voice@) + all.skip(place - 1));
        place -= 1;
        if place == 0 {
            assert(all.take(0).push(voice@) + all.skip(0) =~= all.insert(0, voice@));
            break;
        }
    }
    place
}

/// Sorts the voices by locale and name. Voices that agree in both keep their order.
pub fn sort_voices(voices: &Vec<VoiceChoice>) -> (sorted: Vec<VoiceChoice>)
    ensures
        voices::voices_of(sorted@) == in_order(voices::voices_of(voices@)),
{
    let ghost all = voices::voices_of(voices@);
    let mut sorted: Vec<VoiceChoice> = Vec::new();
    let mut i: usize = 0;
    assert(all.take(0) =~= Seq::empty());
    while i < voices.len()
        invariant
            i <= voices.len(),
            all == voices::voices_of(voices@),
            voices::voices_of(sorted@) == in_order(all.take(i as int)),
        decreases voices.len() - i,
    {
        let ghost before = sorted@;
        let voice = voices[i].clone();
        assert(all.take(i as int + 1).drop_last() == all.take(i as int));
        assert(all.take(i as int + 1).last() == voice@);
        let place = place_of(&sorted, &voice);
        sorted.insert(place, voice);
        assert(voices::voices_of(sorted@) =~= voices::voices_of(before).insert(
            place as int,
            voice@,
        ));
        i += 1;
    }
    assert(all.take(i as int) == all);
    sorted
}

/// Of two characters that do not agree, one comes before the other.
proof fn lemma_characters_are_ordered(a: char, b: char)
    ensures
        a == b || (a as u32) < (b as u32) || (b as u32) < (a as u32),
{
}

/// Of two texts that do not agree, one comes before the other.
proof fn lemma_texts_are_ordered(a: Seq<char>, b: Seq<char>)
    ensures
        a == b || text_before(a, b) || text_before(b, a),
        !(text_before(a, b) && text_before(b, a)),
        text_before(a, b) ==> a != b,
    decreases a.len(),
{
    if a.len() > 0 && b.len() > 0 {
        lemma_characters_are_ordered(a[0], b[0]);
    }
    if a.len() > 0 && b.len() > 0 && a[0] == b[0] {
        lemma_texts_are_ordered(a.drop_first(), b.drop_first());
        if a.drop_first() == b.drop_first() {
            assert(a =~= seq![a[0]] + a.drop_first());
            assert(b =~= seq![b[0]] + b.drop_first());
        }
    } else if a.len() == 0 && b.len() == 0 {
        assert(a =~= b);
    }
}

/// A text between two others comes after the first or before the second.
proof fn lemma_text_between(a: Seq<char>, b: Seq<char>, c: Seq<char>)
    requires
        text_before(a, c),
    ensures
        text_before(a, b) || text_before(b, c),
    decreases a.len(),
{
    if a.len() > 0 && b.len() > 0 {
        lemma_characters_are_ordered(a[0], b[0]);
        lemma_characters_are_ordered(b[0], c[0]);
    }
    if a.len() > 0 && b.len() > 0 && a[0] == b[0] && a[0] == c[0] {
        lemma_text_between(a.drop_first(), b.drop_first(), c.drop_first());
    }
}

/// A voice between two others is listed after the first or before the second.
proof fn lemma_voice_between(a: Voice, b: Voice, c: Voice)
    requires
        voice_before(a, c),
    ensures
        voice_before(a, b) || voice_before(b, c),
{
    lemma_texts_are_ordered(a.locale, b.locale);
    lemma_texts_are_ordered(b.locale, c.locale);
    if text_before(a.locale, c.locale) {
        lemma_text_between(a.locale, b.locale, c.locale);
    } else {
        lemma_text_between(a.short_name, b.short_name, c.short_name);
    }
}

/// No voice is listed after one that it comes before.
pub open spec fn is_ordered(voices: Seq<Voice>) -> bool {
    forall|i: int, j: int|
        0 <= i < j < voices.len() ==> !voice_before(#[trigger] voices[j], #[trigger] voices[i])
}

proof fn lemma_insertion_keeps_order(sorted: Seq<Voice>, voice: Voice)
    requires
        is_ordered(sorted),
    ensures
        is_ordered(with_voice(sorted, voice)),
        with_voice(sorted, voice).to_multiset() == sorted.to_multiset().insert(voice),
        forall|i: int|
            0 <= i < with_voice(sorted, voice).len() ==> sorted.contains(
                #[trigger] with_voice(sorted, voice)[i],
            ) || with_voice(sorted, voice)[i] == voice,
    decreases sorted.len(),
{
    broadcast use vstd::seq_lib::group_to_multiset_ensures;

    let result = with_voice(sorted, voice);
    if sorted.len() > 0 && voice_before(voice, sorted.last()) {
        let first = sorted.drop_last();
        let inner = with_voice(first, voice);
        lemma_insertion_keeps_order(first, voice);
        assert(first.push(sorted.last()) == sorted);
        assert(inner.push(sorted.last()).to_multiset() == inner.to_multiset().insert(
            sorted.last(),
        ));
        assert(sorted.to_multiset() == first.to_multiset().insert(sorted.last()));
        assert(result.to_multiset() =~= sorted.to_multiset().insert(voice));
        lemma_texts_are_ordered(voice.locale, sorted.last().locale);
        lemma_texts_are_ordered(voice.short_name, sorted.last().short_name);
        assert forall|i: int, j: int| 0 <= i < j < result.len() implies !voice_before(
            #[trigger] result[j],
            #[trigger] result[i],
        ) by {
            if j == result.len() - 1 {
                assert(result[i] == inner[i]);
                if first.contains(inner[i]) {
                    let k = choose|k: int| 0 <= k < first.len() && first[k] == inner[i];
                    assert(sorted[k] == inner[i]);
                    assert(!voice_before(sorted[sorted.len() - 1], sorted[k]));
                }
            } else {
                assert(result[i] == inner[i] && result[j] == inner[j]);
            }
        }
        assert forall|i: int| 0 <= i < result.len() implies sorted.contains(#[trigger] result[i])
            || result[i] == voice by {
            if i < inner.len() {
                assert(result[i] == inner[i]);
                if first.contains(inner[i]) {
                    let k = choose|k: int| 0 <= k < first.len() && first[k] == inner[i];
                    assert(sorted[k] == inner[i]);
                }
            } else {
                assert(sorted[sorted.len() - 1] == result[i]);
            }
        }
    } else {
        assert forall|i: int, j: int| 0 <= i < j < result.len() implies !voice_before(
            #[trigger] result[j],
            #[trigger] result[i],
        ) by {
            if j == sorted.len() {
                if voice_before(voice, sorted[i]) {
                    if i < sorted.len() - 1 {
                        lemma_voice_between(voice, sorted.last(), sorted[i]);
                        assert(!voice_before(sorted[sorted.len() - 1], sorted[i]));
                    }
                }
            } else {
                assert(result[i] == sorted[i] && result[j] == sorted[j]);
            }
        }
        assert forall|i: int| 0 <= i < result.len() implies sorted.contains(#[trigger] result[i])
            || result[i] == voice by {
            if i < sorted.len() {
                assert(sorted[i] == result[i]);
            }
        }
    }
}

/// Sorting loses no voice, adds none and lists every voice behind all that come before it.
pub proof fn sorting_orders_the_same_voices(voices: Seq<Voice>)
    ensures
        is_ordered(in_order(voices)),
        in_order(voices).to_multiset() == voices.to_multiset(),
    decreases voices.len(),
{
    broadcast use vstd::seq_lib::group_to_multiset_ensures;

    if voices.len() == 0 {
        assert(voices =~= Seq::empty());
    } else {
        sorting_orders_the_same_voices(voices.drop_last());
        lemma_insertion_keeps_order(in_order(voices.drop_last()), voices.last());
        assert(voices.drop_last().push(voices.last()) == voices);
    }
}

/// The voices of a list with the given locale and name, in order.
pub open spec fn namesakes(voices: Seq<Voice>, locale: Seq<char>, name: Seq<char>) -> Seq<Voice>
    decreases voices.len(),
{
    if voices.len() == 0 {
        Seq::empty()
    } else if voices.last().locale == locale && voices.last().short_name == name {
        namesakes(voices.drop_last(), locale, name).push(voices.last())
    } else {
        namesakes(voices.drop_last(), locale, name)
    }
}

proof fn lemma_insertion_is_stable(
    sorted: Seq<Voice>,
    voice: Voice,
    locale: Seq<char>,
    name: Seq<char>,
)
    ensures
        namesakes(with_voice(sorted, voice), locale, name) == (if voice.locale == locale
            && voice.short_name == name {
            namesakes(sorted, locale, name).push(voice)
        } else {
            namesakes(sorted, locale, name)
        }),
    decreases sorted.len(),
{
    if sorted.len() > 0 && voice_before(voice, sorted.last()) {
        let inner = with_voice(sorted.drop_last(), voice);
        lemma_insertion_is_stable(sorted.drop_last(), voice, locale, name);
        assert(inner.push(sorted.last()).drop_last() == inner);
        lemma_texts_are_ordered(voice.locale, sorted.last().locale);
        lemma_texts_are_ordered(voice.short_name, sorted.last().short_name);
    } else {
        assert(sorted.push(voice).drop_last() == sorted);
    }
}

/// Voices that agree in locale and name keep their order.
pub proof fn sorting_is_stable(voices: Seq<Voice>, locale: Seq<char>, name: Seq<char>)
    ensures
        namesakes(in_order(voices), locale, name) == namesakes(voices, locale, name),
    decreases voices.len(),
{
    if voices.len() > 0 {
        sorting_is_stable(voices.drop_last(), locale, name);
        lemma_insertion_is_stable(in_order(voices.drop_last()), voices.last(), locale, name);
    }
}

} // verus!
