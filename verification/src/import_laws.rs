//! What is read of subtitle files, told by what stands in them.
//!
//! Clocks add up, plain captions are kept as they are written, the columns of an event are read by
//! their names, and every time tag of a lyric line gives an entry.
use vstd::prelude::*;

use crate::round_trip;
use crate::subtitles;
use crate::subtitles::Cue;
use crate::text;

verus! {

/// The milliseconds that the digits behind a decimal sign stand for: tenths, hundredths or
/// thousandths of a second; what is finer is dropped.
pub open spec fn decimals_ms(f: Seq<char>) -> nat {
    if f.len() == 1 {
        text::digits_value(f) * 100
    } else if f.len() == 2 {
        text::digits_value(f) * 10
    } else if f.len() == 3 {
        text::digits_value(f)
    } else {
        text::digits_value(f.take(3))
    }
}

/// One decimal digit or more.
pub open spec fn are_digits(s: Seq<char>) -> bool {
    s.len() > 0 && forall|i: int| 0 <= i < s.len() ==> '0' <= #[trigger] s[i] <= '9'
}

proof fn lemma_decimals(f: Seq<char>)
    requires
        are_digits(f),
    ensures
        subtitles::fraction_ms(f) == decimals_ms(f),
        decimals_ms(f) < 1_000,
{
    reveal_with_fuel(text::digits_value, 4);
    let digits = if f.len() >= 3 {
        f.take(3)
    } else {
        f + Seq::new((3 - f.len()) as nat, |i: int| '0')
    };
    assert(text::all_digits(digits)) by {
        assert forall|i: int| 0 <= i < digits.len() implies text::is_digit(#[trigger] digits[i]) by {
            if i < f.len() {
                assert(digits[i] == f[i]);
            }
        }
    }
    assert(digits.len() == 3);
    assert(digits[0] == f[0]);
    assert(text::unsigned_digits(digits) == digits);
    text::lemma_digits_value_bound(digits);
    if f.len() == 1 {
        assert(digits.drop_last().drop_last() == f);
    } else if f.len() == 2 {
        assert(digits.drop_last() == f);
    } else if f.len() == 3 {
        assert(digits == f);
    }
}

proof fn lemma_number_of(s: Seq<char>)
    requires
        are_digits(s),
        text::digits_value(s) <= u64::MAX,
    ensures
        text::number(s) == Some(text::digits_value(s) as u64),
        text::all_digits(s),
{
    assert(text::all_digits(s)) by {
        assert forall|i: int| 0 <= i < s.len() implies text::is_digit(#[trigger] s[i]) by {}
    }
    assert('0' <= s[0] <= '9');
    assert(text::unsigned_digits(s) == s);
}

proof fn lemma_seconds_of(s: Seq<char>, f: Seq<char>)
    requires
        are_digits(s),
        are_digits(f),
        text::digits_value(s) <= u64::MAX,
    ensures
        subtitles::seconds_ms(s + seq!['.'] + f) == Some(
            text::digits_value(s) * 1_000 + decimals_ms(f),
        ),
{
    reveal_strlit(".");
    assert("."@ == seq!['.']);
    let value = s + seq!['.'] + f;
    lemma_number_of(s);
    text::lemma_digits_lack(s, '.');
    text::lemma_find_char(s, '.', f);
    assert(value.take(s.len() as int) == s);
    assert(value.skip(s.len() as int + 1) == f);
    lemma_decimals(f);
}

/// A clock is read as the sum of its hours, minutes, seconds and decimals, whether its decimal sign
/// is a point or a comma and whether it has hours or not.
pub proof fn a_clock_adds_up(
    h: Seq<char>,
    m: Seq<char>,
    s: Seq<char>,
    f: Seq<char>,
    sign: char,
)
    requires
        are_digits(h),
        are_digits(m),
        are_digits(s),
        are_digits(f),
        sign == '.' || sign == ',',
        text::digits_value(h) * 3_600_000 + text::digits_value(m) * 60_000 + text::digits_value(s)
            * 1_000 + decimals_ms(f) <= u64::MAX,
    ensures
        subtitles::clock(h + seq![':'] + (m + seq![':'] + s + seq![sign] + f)) == Some(
            (text::digits_value(h) * 3_600_000 + text::digits_value(m) * 60_000
                + text::digits_value(s) * 1_000 + decimals_ms(f)) as u64,
        ),
        subtitles::clock(m + seq![':'] + s + seq![sign] + f) == Some(
            (text::digits_value(m) * 60_000 + text::digits_value(s) * 1_000 + decimals_ms(f)) as u64,
        ),
{
    lemma_number_of(h);
    lemma_number_of(m);
    lemma_number_of(s);
    assert(text::all_digits(f)) by {
        assert forall|i: int| 0 <= i < f.len() implies text::is_digit(#[trigger] f[i]) by {}
    }
    subtitles::lemma_clock_of_fields(h, m, s, f, sign);
    lemma_seconds_of(s, f);
}

/// A caption without markup: it begins and ends visibly, its words stand one space apart, and it
/// holds no bracket, brace, backslash or ampersand.
pub open spec fn is_plain(s: Seq<char>) -> bool {
    &&& s.len() > 0
    &&& s[0] != ' '
    &&& s.last() != ' '
    &&& forall|i: int|
        0 <= i < s.len() ==> (#[trigger] s[i] == ' ' || !text::is_space(s[i])) && s[i] != '<' && s[i]
            != '>' && s[i] != '{' && s[i] != '}' && s[i] != '\\' && s[i] != '&'
    &&& forall|i: int| 0 <= i < s.len() - 1 && s[i] == ' ' ==> #[trigger] s[i + 1] != ' '
}

pub proof fn lemma_not_found(s: Seq<char>, pattern: Seq<char>)
    requires
        pattern.len() > 0,
        text::lacks(s, pattern[0]),
    ensures
        text::find(s, pattern) is None,
        forall|to: Seq<char>| #[trigger] text::replaced(s, pattern, to) == s,
{
    text::lemma_find_from(s, pattern, 0);
    if let Some(at) = text::find(s, pattern) {
        assert(s.subrange(at, at + pattern.len())[0] == s[at]);
    }
}

pub proof fn lemma_unmarked_plain(s: Seq<char>)
    requires
        text::lacks(s, '<'),
        text::lacks(s, '>'),
        text::lacks(s, '{'),
        text::lacks(s, '}'),
    ensures
        subtitles::unmarked(s, false, false) == s,
    decreases s.len(),
{
    if s.len() > 0 {
        let rest = s.skip(1);
        assert forall|i: int| 0 <= i < rest.len() implies {
            let c = #[trigger] rest[i];
            c != '<' && c != '>' && c != '{' && c != '}'
        } by {
            assert(rest[i] == s[i + 1]);
        }
        lemma_unmarked_plain(rest);
        assert(seq![s[0]] + rest == s);
    }
}

pub proof fn lemma_joined_cons(first: Seq<char>, rest: Seq<Seq<char>>, separator: Seq<char>)
    requires
        rest.len() > 0,
    ensures
        text::joined(seq![first] + rest, separator) == first + separator + text::joined(
            rest,
            separator,
        ),
    decreases rest.len(),
{
    reveal_with_fuel(text::joined, 2);
    let all = seq![first] + rest;
    assert(all.last() == rest.last());
    if rest.len() == 1 {
        assert(all.drop_last() == seq![first]);
        assert(rest[0] == rest.last());
    } else {
        assert(all.drop_last() == seq![first] + rest.drop_last());
        lemma_joined_cons(first, rest.drop_last(), separator);
        assert(text::joined(all, separator) == (first + separator + text::joined(
            rest.drop_last(),
            separator,
        )) + separator + rest.last());
        assert(text::joined(all, separator) == first + separator + (text::joined(
            rest.drop_last(),
            separator,
        ) + separator + rest.last()));
    }
}

pub proof fn lemma_plain_words(s: Seq<char>)
    requires
        is_plain(s),
    ensures
        text::joined(text::words(s), seq![' ']) == s,
        text::words(s).len() > 0,
    decreases s.len(),
{
    assert(!text::is_space(s[0]));
    assert(text::trimmed_start(s) == s);
    text::lemma_word_len(s);
    let n = text::word_len(s) as int;
    assert(n >= 1);
    let word = s.take(n);
    let rest = s.skip(n);
    if n == s.len() {
        assert(word == s);
        assert(rest == Seq::<char>::empty());
        assert(text::words(rest) == Seq::<Seq<char>>::empty());
        assert(text::words(s) =~= seq![s]);
    } else {
        assert(s[n] == ' ');
        assert(s.last() == s[s.len() - 1]);
        let tail = s.skip(n + 1);
        assert(rest[0] == s[n]);
        assert(rest.skip(1) == tail);
        assert(n + 1 < s.len());
        assert(s[n + 1] != ' ');
        assert(tail[0] == s[n + 1]);
        assert(is_plain(tail)) by {
            assert forall|i: int| 0 <= i < tail.len() implies (#[trigger] tail[i] == ' '
                || !text::is_space(tail[i])) && tail[i] != '<' && tail[i] != '>' && tail[i] != '{'
                && tail[i] != '}' && tail[i] != '\\' && tail[i] != '&' by {
                assert(tail[i] == s[n + 1 + i]);
            }
            assert forall|i: int| 0 <= i < tail.len() - 1 && tail[i] == ' ' implies
                #[trigger] tail[i + 1] != ' ' by {
                assert(tail[i] == s[n + 1 + i]);
                assert(tail[i + 1] == s[n + 1 + i + 1]);
            }
            assert(tail.last() == s.last());
        }
        lemma_plain_words(tail);
        assert(text::trimmed_start(rest) == text::trimmed_start(tail));
        assert(text::trimmed_start(tail) == tail);
        assert(text::words(rest) == text::words(tail));
        assert(text::words(s) == seq![word] + text::words(tail));
        lemma_joined_cons(word, text::words(tail), seq![' ']);
        assert(word + seq![' '] + tail == s);
    }
}

/// A caption without markup is kept as it is written.
pub proof fn plain_captions_are_kept(s: Seq<char>)
    requires
        is_plain(s),
    ensures
        subtitles::caption(s) == s,
        subtitles::is_shown(Cue { start_ms: 0, end_ms: 1, text: s }),
        text::trimmed(s) == s,
        text::lacks(s, '\n'),
        text::lacks(s, '\r'),
{
    reveal_strlit("\\N");
    reveal_strlit("\\n");
    reveal_strlit("&nbsp;");
    reveal_strlit("&amp;");
    reveal_strlit("&lt;");
    reveal_strlit("&gt;");
    lemma_not_found(s, "\\N"@);
    lemma_not_found(s, "\\n"@);
    lemma_not_found(s, "&nbsp;"@);
    lemma_not_found(s, "&amp;"@);
    lemma_not_found(s, "&lt;"@);
    lemma_not_found(s, "&gt;"@);
    assert(subtitles::unescaped(s) == s);
    lemma_unmarked_plain(s);
    lemma_plain_words(s);
    assert(s.last() == s[s.len() - 1]);
    assert(!text::is_space(s[s.len() - 1]));
    assert(!text::is_space(s[0]));
    text::lemma_trimmed_fixed(s);
    assert forall|i: int| 0 <= i < s.len() implies #[trigger] s[i] != '\n' && s[i] != '\r' by {
        assert(s[i] == ' ' || !text::is_space(s[i]));
    }
}

/// What stands in angle brackets is no part of a caption, nor what stands in braces.
pub proof fn markup_is_left_out(before: Seq<char>, mark: Seq<char>, after: Seq<char>)
    requires
        text::lacks(before, '<') && text::lacks(before, '>') && text::lacks(before, '{')
            && text::lacks(before, '}'),
        text::lacks(mark, '<') && text::lacks(mark, '>') && text::lacks(mark, '{') && text::lacks(
            mark,
            '}',
        ),
        text::lacks(after, '<') && text::lacks(after, '>') && text::lacks(after, '{')
            && text::lacks(after, '}'),
    ensures
        subtitles::unmarked(before + (seq!['<'] + (mark + (seq!['>'] + after))), false, false)
            == before + after,
        subtitles::unmarked(before + (seq!['{'] + (mark + (seq!['}'] + after))), false, false)
            == before + after,
{
    lemma_unmarked_front(before, seq!['<'] + (mark + (seq!['>'] + after)));
    lemma_unmarked_front(before, seq!['{'] + (mark + (seq!['}'] + after)));
    let angle = mark + (seq!['>'] + after);
    let brace = mark + (seq!['}'] + after);
    assert((seq!['<'] + angle).skip(1) == angle);
    assert((seq!['{'] + brace).skip(1) == brace);
    lemma_unmarked_inside(mark, seq!['>'] + after, true);
    lemma_unmarked_inside(mark, seq!['}'] + after, false);
    assert((seq!['>'] + after).skip(1) == after);
    assert((seq!['}'] + after).skip(1) == after);
    lemma_unmarked_plain(after);
}

proof fn lemma_unmarked_front(before: Seq<char>, rest: Seq<char>)
    requires
        text::lacks(before, '<') && text::lacks(before, '>') && text::lacks(before, '{')
            && text::lacks(before, '}'),
    ensures
        subtitles::unmarked(before + rest, false, false) == before + subtitles::unmarked(
            rest,
            false,
            false,
        ),
    decreases before.len(),
{
    let all = before + rest;
    if before.len() == 0 {
        assert(all == rest);
    } else {
        let tail = before.skip(1);
        assert(all[0] == before[0]);
        assert(all.skip(1) == tail + rest);
        assert forall|i: int| 0 <= i < tail.len() implies {
            let c = #[trigger] tail[i];
            c != '<' && c != '>' && c != '{' && c != '}'
        } by {
            assert(tail[i] == before[i + 1]);
        }
        lemma_unmarked_front(tail, rest);
        assert(seq![before[0]] + (tail + subtitles::unmarked(rest, false, false)) == before
            + subtitles::unmarked(rest, false, false));
    }
}

proof fn lemma_unmarked_inside(mark: Seq<char>, rest: Seq<char>, angle: bool)
    requires
        text::lacks(mark, '<') && text::lacks(mark, '>') && text::lacks(mark, '{') && text::lacks(
            mark,
            '}',
        ),
    ensures
        subtitles::unmarked(mark + rest, angle, !angle) == subtitles::unmarked(rest, angle, !angle),
    decreases mark.len(),
{
    let all = mark + rest;
    if mark.len() == 0 {
        assert(all == rest);
    } else {
        let tail = mark.skip(1);
        assert(all[0] == mark[0]);
        assert(all.skip(1) == tail + rest);
        assert forall|i: int| 0 <= i < tail.len() implies {
            let c = #[trigger] tail[i];
            c != '<' && c != '>' && c != '{' && c != '}'
        } by {
            assert(tail[i] == mark[i + 1]);
        }
        lemma_unmarked_inside(tail, rest, angle);
    }
}

/// Values one after the other, with a comma between two neighbours.
pub open spec fn listed(values: Seq<Seq<char>>) -> Seq<char>
    decreases values.len(),
{
    if values.len() == 0 {
        Seq::empty()
    } else if values.len() == 1 {
        values[0]
    } else {
        values[0] + seq![','] + listed(values.skip(1))
    }
}

proof fn lemma_first_pieces(values: Seq<Seq<char>>)
    requires
        values.len() > 0,
        forall|i: int| 0 <= i < values.len() - 1 ==> text::lacks(#[trigger] values[i], ','),
    ensures
        text::first_pieces(listed(values), ',', values.len()) == values,
    decreases values.len(),
{
    if values.len() == 1 {
        assert(seq![values[0]] =~= values);
    } else {
        let rest = values.skip(1);
        assert forall|i: int| 0 <= i < rest.len() - 1 implies text::lacks(#[trigger] rest[i], ',') by {
            assert(rest[i] == values[i + 1]);
        }
        lemma_first_pieces(rest);
        assert(text::lacks(values[0], ','));
        text::lemma_find_char(values[0], ',', listed(rest));
        let all = listed(values);
        assert(all.take(values[0].len() as int) == values[0]);
        assert(all.skip(values[0].len() as int + 1) == listed(rest));
        assert(seq![values[0]] + rest == values);
    }
}

proof fn lemma_field_index(fields: Seq<Seq<char>>, name: Seq<char>, from: int, at: int)
    requires
        0 <= from <= at < fields.len(),
        fields[at] == name,
        forall|k: int| from <= k < at ==> #[trigger] fields[k] != name,
    ensures
        subtitles::field_index(fields, name, from) == Some(at),
    decreases at - from,
{
    if from < at {
        assert(fields[from] != name);
        lemma_field_index(fields, name, from + 1, at);
    }
}

/// A column of the given name, the first one.
pub open spec fn is_column(names: Seq<Seq<char>>, name: Seq<char>, at: int) -> bool {
    0 <= at < names.len() && names[at] == name && forall|k: int| 0 <= k < at ==> #[trigger] names[k] != name
}

/// The values of an event belong to the columns by their places, wherever the columns stand. The
/// last column holds all that is left of the line, commas too; no other value holds one.
pub proof fn columns_are_read_by_name(
    names: Seq<Seq<char>>,
    values: Seq<Seq<char>>,
    start: int,
    end: int,
    body: int,
)
    requires
        names.len() == values.len(),
        is_column(names, "start"@, start),
        is_column(names, "end"@, end),
        is_column(names, "text"@, body),
        forall|i: int| 0 <= i < values.len() - 1 ==> text::lacks(#[trigger] values[i], ','),
        text::trimmed(listed(values)) == listed(values),
        is_plain(values[body]),
    ensures
        subtitles::dialogue_cue(names, listed(values)) == (match (
            subtitles::clock(text::trimmed(values[start])),
            subtitles::clock(text::trimmed(values[end])),
        ) {
            (Some(start_ms), Some(end_ms)) => Some(
                Cue { start_ms, end_ms, text: values[body] },
            ),
            _ => None,
        }),
{
    lemma_first_pieces(values);
    lemma_field_index(names, "start"@, 0, start);
    lemma_field_index(names, "end"@, 0, end);
    lemma_field_index(names, "text"@, 0, body);
    plain_captions_are_kept(values[body]);
}

/// A time as ASS files write it: `H:MM:SS.cc`.
pub open spec fn event_time(ms: nat) -> Seq<char> {
    text::decimal(ms / 3_600_000) + seq![':'] + (subtitles::padded(ms / 60_000 % 60, 2) + seq![':']
        + subtitles::padded(ms / 1_000 % 60, 2) + seq!['.'] + subtitles::padded(ms % 1_000 / 10, 2))
}

proof fn lemma_padded_digits(n: nat, width: nat)
    requires
        n <= u64::MAX,
    ensures
        are_digits(subtitles::padded(n, width)),
        text::digits_value(subtitles::padded(n, width)) == n,
{
    text::lemma_padded_number(n, width);
    text::lemma_decimal_value(n);
    text::lemma_zero_padded_value(text::decimal(n), width);
    let s = subtitles::padded(n, width);
    assert forall|i: int| 0 <= i < s.len() implies '0' <= #[trigger] s[i] <= '9' by {
        assert(text::is_digit(s[i]));
    }
}

/// The time of an event is read back, to the hundredth of a second.
pub proof fn event_times_are_read_back(ms: nat)
    requires
        ms <= u64::MAX,
        ms % 10 == 0,
    ensures
        subtitles::clock(event_time(ms)) == Some(ms as u64),
        event_time(ms).len() > 0,
        forall|i: int|
            0 <= i < event_time(ms).len() ==> text::is_digit(#[trigger] event_time(ms)[i])
                || event_time(ms)[i] == ':' || event_time(ms)[i] == '.',
{
    let h = text::decimal(ms / 3_600_000);
    let m = subtitles::padded(ms / 60_000 % 60, 2);
    let s = subtitles::padded(ms / 1_000 % 60, 2);
    let f = subtitles::padded(ms % 1_000 / 10, 2);
    lemma_padded_digits(ms / 3_600_000, 0);
    assert(subtitles::padded(ms / 3_600_000, 0) == h);
    lemma_padded_digits(ms / 60_000 % 60, 2);
    lemma_padded_digits(ms / 1_000 % 60, 2);
    lemma_padded_digits(ms % 1_000 / 10, 2);
    text::lemma_decimal_len(ms % 1_000 / 10);
    assert(f.len() == 2);
    assert(decimals_ms(f) == ms % 1_000) by {
        assert(ms % 1_000 % 10 == ms % 10) by {
            vstd::arithmetic::div_mod::lemma_mod_mod(ms as int, 10, 100);
        }
    }
    subtitles::lemma_time_parts(ms);
    a_clock_adds_up(h, m, s, f, '.');
    let all = event_time(ms);
    let tail = m + seq![':'] + s + seq!['.'] + f;
    assert forall|i: int| 0 <= i < tail.len() implies text::is_digit(#[trigger] tail[i]) || tail[i]
        == ':' || tail[i] == '.' by {
        if i < m.len() {
            assert(tail[i] == m[i]);
        } else if m.len() < i < m.len() + 1 + s.len() {
            assert(tail[i] == s[i - m.len() - 1]);
        } else if i > m.len() + 1 + s.len() {
            assert(tail[i] == f[i - m.len() - s.len() - 2]);
        }
    }
    assert forall|i: int| 0 <= i < all.len() implies text::is_digit(#[trigger] all[i]) || all[i]
        == ':' || all[i] == '.' by {
        if i < h.len() {
            assert(all[i] == h[i]);
        } else if i > h.len() {
            assert(all[i] == tail[i - h.len() - 1]);
        }
    }
}

/// A cue as an event of an ASS file, with the columns that such files usually have.
pub open spec fn event_line(cue: Cue) -> Seq<char> {
    "Dialogue: 0,"@ + event_time(cue.start_ms as nat) + ","@ + event_time(cue.end_ms as nat)
        + ",Default,,0,0,0,,"@ + cue.text
}

/// The columns of such an event.
pub open spec fn event_values(cue: Cue) -> Seq<Seq<char>> {
    let none = Seq::<char>::empty();
    seq![
        seq!['0'],
        event_time(cue.start_ms as nat),
        event_time(cue.end_ms as nat),
        "Default"@,
        none,
        seq!['0'],
        seq!['0'],
        seq!['0'],
        none,
        cue.text,
    ]
}

/// Cues that an ASS file can hold: plain captions, and times in hundredths of a second.
pub open spec fn are_events(cues: Seq<Cue>) -> bool {
    forall|i: int|
        0 <= i < cues.len() ==> is_plain((#[trigger] cues[i]).text) && cues[i].start_ms % 10 == 0
            && cues[i].end_ms % 10 == 0
}

proof fn lemma_listed_cons(first: Seq<char>, rest: Seq<Seq<char>>)
    requires
        rest.len() > 0,
    ensures
        listed(seq![first] + rest) == first + seq![','] + listed(rest),
{
    assert((seq![first] + rest).skip(1) == rest);
}

/// The columns of an event one after the other.
proof fn lemma_event_values(cue: Cue)
    ensures
        listed(event_values(cue)) == "0,"@ + event_time(cue.start_ms as nat) + ","@ + event_time(
            cue.end_ms as nat,
        ) + ",Default,,0,0,0,,"@ + cue.text,
{
    reveal_strlit("0,");
    reveal_strlit(",");
    reveal_strlit("Default");
    reveal_strlit(",Default,,0,0,0,,");
    let none = Seq::<char>::empty();
    let zero = seq!['0'];
    let a = event_time(cue.start_ms as nat);
    let b = event_time(cue.end_ms as nat);
    let v9 = seq![cue.text];
    let v8 = seq![none] + v9;
    let v7 = seq![zero] + v8;
    let v6 = seq![zero] + v7;
    let v5 = seq![zero] + v6;
    let v4 = seq![none] + v5;
    let v3 = seq!["Default"@] + v4;
    let v2 = seq![b] + v3;
    let v1 = seq![a] + v2;
    let v0 = seq![zero] + v1;
    assert(v0 =~= event_values(cue));
    lemma_listed_cons(none, v9);
    lemma_listed_cons(zero, v8);
    lemma_listed_cons(zero, v7);
    lemma_listed_cons(zero, v6);
    lemma_listed_cons(none, v5);
    lemma_listed_cons("Default"@, v4);
    lemma_listed_cons(b, v3);
    lemma_listed_cons(a, v2);
    lemma_listed_cons(zero, v1);
    assert(listed(v9) == cue.text);
    let tail = listed(v3);
    assert(tail =~= "Default"@ + seq![',', ',', '0', ',', '0', ',', '0', ',', ','] + cue.text);
    assert(seq![','] + tail =~= ",Default,,0,0,0,,"@ + cue.text);
    assert(listed(v2) =~= b + (seq![','] + tail));
    assert(listed(v1) =~= a + seq![','] + listed(v2));
    assert(listed(v0) =~= zero + seq![','] + listed(v1));
    assert("0,"@ =~= zero + seq![',']);
    assert(","@ =~= seq![',']);
}

/// The columns that events have unless the file says otherwise.
proof fn lemma_default_columns()
    ensures
        subtitles::default_fields().len() == 10,
        is_column(subtitles::default_fields(), "start"@, 1),
        is_column(subtitles::default_fields(), "end"@, 2),
        is_column(subtitles::default_fields(), "text"@, 9),
{
    reveal_strlit("layer");
    reveal_strlit("start");
    reveal_strlit("end");
    reveal_strlit("style");
    reveal_strlit("name");
    reveal_strlit("marginl");
    reveal_strlit("marginr");
    reveal_strlit("marginv");
    reveal_strlit("effect");
    reveal_strlit("text");
    let names = subtitles::default_fields();
    assert(names[0] != "start"@ && names[0] != "end"@) by {
        assert("layer"@[0] == 'l' && "start"@[0] == 's' && "end"@[0] == 'e');
    }
    assert(names[1] != "end"@) by {
        assert("start"@[0] == 's' && "end"@[0] == 'e');
    }
    let body = "text"@;
    assert(body[0] == 't');
    assert(names[0][0] == 'l' && names[1][0] == 's' && names[2][0] == 'e' && names[3][0] == 's'
        && names[4][0] == 'n' && names[5][0] == 'm' && names[6][0] == 'm' && names[7][0] == 'm'
        && names[8][0] == 'e');
}

/// An event is read back as its cue, commas in its caption and all.
pub proof fn an_event_is_read_back(cue: Cue)
    requires
        is_plain(cue.text),
        cue.start_ms % 10 == 0,
        cue.end_ms % 10 == 0,
    ensures
        text::trimmed(event_line(cue)) == event_line(cue),
        !subtitles::is_section(event_line(cue)),
        text::after_prefix(event_line(cue), "Format:"@) is None,
        match text::after_prefix(event_line(cue), "Dialogue:"@) {
            Some(dialogue) => subtitles::dialogue_cue(subtitles::default_fields(), dialogue)
                == Some(cue),
            None => false,
        },
        text::lacks(event_line(cue), '\n'),
        text::lacks(event_line(cue), '\r'),
{
    reveal_strlit("Dialogue: 0,");
    reveal_strlit("Dialogue:");
    reveal_strlit("Format:");
    reveal_strlit("0,");
    reveal_strlit(",");
    reveal_strlit("Default");
    reveal_strlit(",Default,,0,0,0,,");
    let a = event_time(cue.start_ms as nat);
    let b = event_time(cue.end_ms as nat);
    event_times_are_read_back(cue.start_ms as nat);
    event_times_are_read_back(cue.end_ms as nat);
    plain_captions_are_kept(cue.text);
    lemma_event_values(cue);
    lemma_default_columns();
    let values = event_values(cue);
    let body = listed(values);
    let line = event_line(cue);
    assert(line =~= "Dialogue:"@ + (seq![' '] + body));
    assert(line[0] == 'D');
    assert(line.last() == cue.text.last());
    assert(!text::is_space(cue.text[cue.text.len() - 1]));
    text::lemma_trimmed_fixed(line);
    assert(line.subrange(0, 9) =~= "Dialogue:"@);
    assert(line.skip(9) =~= seq![' '] + body);
    if text::occurs_at(line, "Format:"@, 0) {
        assert(line.subrange(0, 7)[0] == line[0]);
        assert("Format:"@[0] == 'F');
    }
    assert(body[0] == '0');
    assert(body.last() == cue.text.last());
    text::lemma_trimmed_fixed(body);
    let dialogue = seq![' '] + body;
    assert(dialogue.skip(1) == body);
    assert(text::trimmed(dialogue) == body) by {
        assert(text::trimmed_start(dialogue) == text::trimmed_start(body));
    }
    lemma_time_plain(a);
    lemma_time_plain(b);
    assert forall|i: int| 0 <= i < values.len() - 1 implies text::lacks(
        #[trigger] values[i],
        ',',
    ) by {
        assert(text::lacks(values[0], ',') && text::lacks(values[1], ',') && text::lacks(
            values[2],
            ',',
        ) && text::lacks(values[3], ',') && text::lacks(values[4], ',') && text::lacks(
            values[5],
            ',',
        ) && text::lacks(values[6], ',') && text::lacks(values[7], ',') && text::lacks(
            values[8],
            ',',
        ));
    }
    columns_are_read_by_name(subtitles::default_fields(), values, 1, 2, 9);
    assert(text::trimmed(a) == a && text::trimmed(b) == b);
    lemma_dialogue_trimmed(subtitles::default_fields(), dialogue, body);
    assert forall|i: int| 0 <= i < line.len() implies #[trigger] line[i] != '\n' && line[i] != '\r' by {
        lemma_line_chars(cue, i);
    }
}

proof fn lemma_dialogue_trimmed(fields: Seq<Seq<char>>, dialogue: Seq<char>, body: Seq<char>)
    requires
        text::trimmed(dialogue) == body,
        text::trimmed(body) == body,
    ensures
        subtitles::dialogue_cue(fields, dialogue) == subtitles::dialogue_cue(fields, body),
{
}

proof fn lemma_time_plain(time: Seq<char>)
    requires
        time.len() > 0,
        forall|i: int|
            0 <= i < time.len() ==> text::is_digit(#[trigger] time[i]) || time[i] == ':' || time[i]
                == '.',
    ensures
        text::lacks(time, ','),
        text::lacks(time, '\n'),
        text::lacks(time, '\r'),
        text::trimmed(time) == time,
{
    assert(!text::is_space(time[0]));
    assert(!text::is_space(time[time.len() - 1]));
    text::lemma_trimmed_fixed(time);
    assert forall|i: int| 0 <= i < time.len() implies #[trigger] time[i] != ',' && time[i] != '\n'
        && time[i] != '\r' by {}
}

proof fn lemma_line_chars(cue: Cue, i: int)
    requires
        is_plain(cue.text),
        cue.start_ms % 10 == 0,
        cue.end_ms % 10 == 0,
        0 <= i < event_line(cue).len(),
    ensures
        event_line(cue)[i] != '\n',
        event_line(cue)[i] != '\r',
{
    reveal_strlit("Dialogue: 0,");
    reveal_strlit(",");
    reveal_strlit(",Default,,0,0,0,,");
    let a = event_time(cue.start_ms as nat);
    let b = event_time(cue.end_ms as nat);
    event_times_are_read_back(cue.start_ms as nat);
    event_times_are_read_back(cue.end_ms as nat);
    lemma_time_plain(a);
    lemma_time_plain(b);
    plain_captions_are_kept(cue.text);
    let line = event_line(cue);
    let n = 12 + a.len();
    let m = n + 1 + b.len();
    if i < 12 {
        assert(line[i] == "Dialogue: 0,"@[i]);
    } else if i < n {
        assert(line[i] == a[i - 12]);
    } else if i == n {
        assert(line[i] == ","@[0]);
    } else if i < m {
        assert(line[i] == b[i - n - 1]);
    } else if i < m + 17 {
        assert(line[i] == ",Default,,0,0,0,,"@[i - m]);
    } else {
        assert(line[i] == cue.text[i - m - 17]);
    }
}

/// The events of an ASS file.
pub open spec fn event_lines(cues: Seq<Cue>) -> Seq<char>
    decreases cues.len(),
{
    if cues.len() == 0 {
        Seq::empty()
    } else {
        event_line(cues[0]) + seq!['\n'] + event_lines(cues.skip(1))
    }
}

proof fn lemma_event_lines(cues: Seq<Cue>)
    requires
        are_events(cues),
    ensures
        subtitles::event_cues(
            text::lines_of(event_lines(cues)),
            true,
            subtitles::default_fields(),
        ) == cues,
    decreases cues.len(),
{
    if cues.len() == 0 {
        assert(text::lines_of(event_lines(cues)) == Seq::<Seq<char>>::empty());
        assert(cues == Seq::<Cue>::empty());
    } else {
        let cue = cues[0];
        let rest = cues.skip(1);
        assert(is_plain(cues[0].text));
        assert forall|i: int| 0 <= i < rest.len() implies is_plain((#[trigger] rest[i]).text)
            && rest[i].start_ms % 10 == 0 && rest[i].end_ms % 10 == 0 by {
            assert(rest[i] == cues[i + 1]);
        }
        lemma_event_lines(rest);
        an_event_is_read_back(cue);
        round_trip::lemma_lines_cons(event_line(cue), event_lines(rest));
        let lines = text::lines_of(event_lines(cues));
        assert(lines == seq![event_line(cue)] + text::lines_of(event_lines(rest)));
        assert(lines[0] == event_line(cue));
        assert(lines.skip(1) =~= text::lines_of(event_lines(rest)));
        assert(seq![cue] + rest == cues);
    }
}

/// An ASS file with the usual columns is read as exactly the cues of its events, in their order,
/// whatever commas stand in the captions and whether the columns are named in it or not.
pub proof fn written_events_are_read_back(cues: Seq<Cue>, named: bool)
    requires
        are_events(cues),
    ensures
        subtitles::ass_cues(
            "[Events]"@ + seq!['\n'] + (if named {
                usual_columns() + seq!['\n'] + event_lines(cues)
            } else {
                event_lines(cues)
            }),
        ) == cues,
{
    let body = event_lines(cues);
    let after = if named {
        usual_columns() + seq!['\n'] + body
    } else {
        body
    };
    reveal_strlit("[Events]");
    let heading = "[Events]"@;
    round_trip::lemma_lines_cons(heading, after);
    let lines = text::lines_of(heading + seq!['\n'] + after);
    assert(lines[0] == heading);
    assert(lines.skip(1) =~= text::lines_of(after));
    assert(heading[0] == '[' && heading.last() == ']');
    text::lemma_trimmed_fixed(heading);
    lemma_event_lines(cues);
    let names = subtitles::default_fields();
    assert(subtitles::is_section(text::trimmed(lines[0])));
    assert(subtitles::event_cues(lines, false, names) == subtitles::event_cues(
        text::lines_of(after),
        true,
        names,
    ));
    if named {
        lemma_usual_columns();
        round_trip::lemma_lines_cons(usual_columns(), body);
        let rest = text::lines_of(after);
        assert(rest[0] == usual_columns());
        assert(rest.skip(1) =~= text::lines_of(body));
        assert(subtitles::event_cues(rest, true, names) == subtitles::event_cues(
            rest.skip(1),
            true,
            names,
        ));
    }
}

/// The line that names the usual columns.
pub open spec fn usual_columns() -> Seq<char> {
    "Format: Layer, Start, End, Style, Name, MarginL, MarginR, MarginV, Effect, Text"@
}

proof fn lemma_usual_columns()
    ensures
        text::trimmed(usual_columns()) == usual_columns(),
        text::lacks(usual_columns(), '\n'),
        text::lacks(usual_columns(), '\r'),
        !subtitles::is_section(usual_columns()),
        match text::after_prefix(usual_columns(), "Format:"@) {
            Some(format) => subtitles::format_fields(format) == subtitles::default_fields(),
            None => false,
        },
{
    reveal_strlit("Format: Layer, Start, End, Style, Name, MarginL, MarginR, MarginV, Effect, Text");
    reveal_strlit("Format:");
    let line = usual_columns();
    assert(line[0] == 'F');
    text::lemma_trimmed_fixed(line);
    assert(line.subrange(0, 7) =~= "Format:"@);
    let names = line.skip(7);
    lemma_names();
}

proof fn lemma_names()
    ensures
        subtitles::format_fields(usual_columns().skip(7)) == subtitles::default_fields(),
{
    reveal_strlit("Format: Layer, Start, End, Style, Name, MarginL, MarginR, MarginV, Effect, Text");
    reveal_strlit("layer");
    reveal_strlit("start");
    reveal_strlit("end");
    reveal_strlit("style");
    reveal_strlit("name");
    reveal_strlit("marginl");
    reveal_strlit("marginr");
    reveal_strlit("marginv");
    reveal_strlit("effect");
    reveal_strlit("text");
    let a0 = seq![' ', 'L', 'a', 'y', 'e', 'r'];
    let a1 = seq![' ', 'S', 't', 'a', 'r', 't'];
    let a2 = seq![' ', 'E', 'n', 'd'];
    let a3 = seq![' ', 'S', 't', 'y', 'l', 'e'];
    let a4 = seq![' ', 'N', 'a', 'm', 'e'];
    let a5 = seq![' ', 'M', 'a', 'r', 'g', 'i', 'n', 'L'];
    let a6 = seq![' ', 'M', 'a', 'r', 'g', 'i', 'n', 'R'];
    let a7 = seq![' ', 'M', 'a', 'r', 'g', 'i', 'n', 'V'];
    let a8 = seq![' ', 'E', 'f', 'f', 'e', 'c', 't'];
    let a9 = seq![' ', 'T', 'e', 'x', 't'];
    let comma = seq![','];
    let b8 = a8 + comma + a9;
    let b7 = a7 + comma + b8;
    let b6 = a6 + comma + b7;
    let b5 = a5 + comma + b6;
    let b4 = a4 + comma + b5;
    let b3 = a3 + comma + b4;
    let b2 = a2 + comma + b3;
    let b1 = a1 + comma + b2;
    let b0 = a0 + comma + b1;
    let names = usual_columns().skip(7);
    assert(names =~= b0);
    text::lemma_pieces_single(a9, ',');
    text::lemma_pieces_cons(a8, ',', a9);
    text::lemma_pieces_cons(a7, ',', b8);
    text::lemma_pieces_cons(a6, ',', b7);
    text::lemma_pieces_cons(a5, ',', b6);
    text::lemma_pieces_cons(a4, ',', b5);
    text::lemma_pieces_cons(a3, ',', b4);
    text::lemma_pieces_cons(a2, ',', b3);
    text::lemma_pieces_cons(a1, ',', b2);
    text::lemma_pieces_cons(a0, ',', b1);
    let pieces = text::pieces(names, ',');
    assert(pieces =~= seq![a0, a1, a2, a3, a4, a5, a6, a7, a8, a9]);
    lemma_name(a0, "layer"@);
    lemma_name(a1, "start"@);
    lemma_name(a2, "end"@);
    lemma_name(a3, "style"@);
    lemma_name(a4, "name"@);
    lemma_name(a5, "marginl"@);
    lemma_name(a6, "marginr"@);
    lemma_name(a7, "marginv"@);
    lemma_name(a8, "effect"@);
    lemma_name(a9, "text"@);
    assert(subtitles::format_fields(names) =~= subtitles::default_fields());
}

/// A name behind one space, without its capitals.
proof fn lemma_name(written: Seq<char>, name: Seq<char>)
    requires
        written.len() == name.len() + 1,
        name.len() > 0,
        written[0] == ' ',
        forall|i: int| 0 <= i < name.len() ==> text::ascii_lower(written[i + 1]) == #[trigger] name[i],
        forall|i: int| 1 <= i < written.len() ==> !text::is_space(#[trigger] written[i]),
    ensures
        text::ascii_lowered(text::trimmed(written)) == name,
{
    let rest = written.skip(1);
    assert(rest[0] == written[1]);
    assert(rest.last() == written[written.len() - 1]);
    text::lemma_trimmed_fixed(rest);
    assert(text::trimmed_start(written) == text::trimmed_start(rest));
    assert(text::ascii_lowered(rest) =~= name);
}

/// The events section begins with its heading, whatever the case of the letters and the white space
/// around it, and ends with any other heading.
pub proof fn the_events_have_their_section(
    heading: Seq<char>,
    rest: Seq<Seq<char>>,
    in_events: bool,
    fields: Seq<Seq<char>>,
)
    requires
        text::trimmed(heading).len() > 0,
        text::trimmed(heading)[0] == '[',
        text::trimmed(heading).last() == ']',
    ensures
        subtitles::event_cues(seq![heading] + rest, in_events, fields) == subtitles::event_cues(
            rest,
            text::ascii_lowered(text::trimmed(heading)) == "[events]"@,
            fields,
        ),
{
    reveal_strlit("[Events]");
    reveal_strlit("[events]");
    assert(text::ascii_lowered("[Events]"@) =~= "[events]"@);
    let lines = seq![heading] + rest;
    assert(lines[0] == heading);
    assert(lines.skip(1) =~= rest);
}

/// Lines outside of the events section give no cues, whatever they hold.
pub proof fn only_events_are_read(lines: Seq<Seq<char>>, fields: Seq<Seq<char>>)
    requires
        forall|i: int|
            0 <= i < lines.len() ==> text::trimmed(#[trigger] lines[i]).len() == 0 || text::trimmed(
                lines[i],
            )[0] != '[',
    ensures
        subtitles::event_cues(lines, false, fields) == Seq::<Cue>::empty(),
    decreases lines.len(),
{
    if lines.len() > 0 {
        let rest = lines.skip(1);
        assert(text::trimmed(lines[0]).len() == 0 || text::trimmed(lines[0])[0] != '[');
        assert forall|i: int| 0 <= i < rest.len() implies text::trimmed(#[trigger] rest[i]).len() == 0
            || text::trimmed(rest[i])[0] != '[' by {
            assert(rest[i] == lines[i + 1]);
        }
        only_events_are_read(rest, fields);
    }
}

/// A time tag of a lyric line: minutes, seconds and thousandths in square brackets.
pub open spec fn time_tag(ms: u64) -> Seq<char> {
    seq!['['] + tag_time(ms) + seq![']']
}

/// The time in such a tag.
pub open spec fn tag_time(ms: u64) -> Seq<char> {
    subtitles::padded(ms as nat / 60_000, 2) + seq![':'] + subtitles::padded(
        ms as nat / 1_000 % 60,
        2,
    ) + seq!['.'] + subtitles::padded(ms as nat % 1_000, 3)
}

/// Time tags one after the other.
pub open spec fn time_tags(times: Seq<u64>) -> Seq<char>
    decreases times.len(),
{
    if times.len() == 0 {
        Seq::empty()
    } else {
        time_tag(times[0]) + time_tags(times.skip(1))
    }
}

proof fn lemma_tag_time(ms: u64)
    ensures
        subtitles::clock(tag_time(ms)) == Some(ms),
        text::lacks(tag_time(ms), ']'),
        text::lacks(tag_time(ms), '\n'),
        text::lacks(tag_time(ms), '\r'),
{
    let n = ms as nat;
    let m = subtitles::padded(n / 60_000, 2);
    let s = subtitles::padded(n / 1_000 % 60, 2);
    let f = subtitles::padded(n % 1_000, 3);
    lemma_padded_digits(0, 1);
    lemma_padded_digits(n / 60_000, 2);
    lemma_padded_digits(n / 1_000 % 60, 2);
    lemma_padded_digits(n % 1_000, 3);
    text::lemma_decimal_len(n % 1_000);
    assert(f.len() == 3);
    subtitles::lemma_time_parts(n);
    assert(n == n / 60_000 * 60_000 + (n / 1_000 % 60) * 1_000 + n % 1_000) by {
        let minutes = n / 60_000;
        let seconds = n / 1_000;
        vstd::arithmetic::div_mod::lemma_div_denominator(n as int, 1_000, 60);
        assert(minutes == seconds / 60);
        assert(seconds == minutes * 60 + seconds % 60);
    }
    a_clock_adds_up(subtitles::padded(0, 1), m, s, f, '.');
    let all = tag_time(ms);
    assert forall|i: int| 0 <= i < all.len() implies #[trigger] all[i] != ']' && all[i] != '\n'
        && all[i] != '\r' by {
        if i < m.len() {
            assert(all[i] == m[i]);
        } else if m.len() < i < m.len() + 1 + s.len() {
            assert(all[i] == s[i - m.len() - 1]);
        } else if i > m.len() + 1 + s.len() {
            assert(all[i] == f[i - m.len() - s.len() - 2]);
        }
    }
}

proof fn lemma_tags(times: Seq<u64>, body: Seq<char>, found: Seq<u64>)
    requires
        body.len() > 0 ==> body[0] != '[',
        times.len() + found.len() > 0,
    ensures
        subtitles::lyric_tags(time_tags(times) + body, found) == Some((found + times, body)),
    decreases times.len(),
{
    reveal_strlit("[");
    reveal_strlit("]");
    assert("["@ == seq!['[']);
    assert("]"@ == seq![']']);
    let line = time_tags(times) + body;
    if times.len() == 0 {
        assert(line =~= body);
        assert(found + times =~= found);
        text::lemma_occurs_char(line, '[', 0);
    } else {
        let time = times[0];
        let rest = time_tags(times.skip(1)) + body;
        let inside = tag_time(time);
        let after_open = inside + seq![']'] + rest;
        assert(line =~= seq!['['] + after_open);
        text::lemma_occurs_char(line, '[', 0);
        assert(line.skip(1) =~= after_open);
        lemma_tag_time(time);
        text::lemma_find_char(inside, ']', rest);
        assert(after_open.take(inside.len() as int) =~= inside);
        assert(after_open.skip(inside.len() as int + 1) =~= rest);
        lemma_tags(times.skip(1), body, found.push(time));
        assert(found.push(time) + times.skip(1) =~= found + times);
    }
}

proof fn lemma_tags_first(times: Seq<u64>, rest: Seq<char>, found: Seq<u64>)
    ensures
        subtitles::lyric_tags(time_tags(times) + rest, found) == subtitles::lyric_tags(
            rest,
            found + times,
        ),
    decreases times.len(),
{
    reveal_strlit("[");
    reveal_strlit("]");
    assert("["@ == seq!['[']);
    assert("]"@ == seq![']']);
    let line = time_tags(times) + rest;
    if times.len() == 0 {
        assert(line =~= rest);
        assert(found + times =~= found);
    } else {
        let time = times[0];
        let next = time_tags(times.skip(1)) + rest;
        let inside = tag_time(time);
        let after_open = inside + seq![']'] + next;
        assert(line =~= seq!['['] + after_open);
        text::lemma_occurs_char(line, '[', 0);
        assert(line.skip(1) =~= after_open);
        lemma_tag_time(time);
        text::lemma_find_char(inside, ']', next);
        assert(after_open.take(inside.len() as int) =~= inside);
        assert(after_open.skip(inside.len() as int + 1) =~= next);
        lemma_tags_first(times.skip(1), rest, found.push(time));
        assert(found.push(time) + times.skip(1) =~= found + times);
    }
}

/// A tag that is no time is passed over behind a time, and the times behind it count as well. A line
/// that begins with such a tag is no lyric.
pub proof fn other_tags_are_passed_over(
    first: Seq<u64>,
    tag: Seq<char>,
    second: Seq<u64>,
    body: Seq<char>,
)
    requires
        text::lacks(tag, ']'),
        subtitles::clock(tag) is None,
        body.len() > 0 ==> body[0] != '[',
    ensures
        first.len() > 0 ==> subtitles::lyric_tags(
            time_tags(first) + (seq!['['] + (tag + seq![']'] + (time_tags(second) + body))),
            Seq::empty(),
        ) == Some((first + second, body)),
        first.len() == 0 ==> subtitles::lyric_tags(
            seq!['['] + (tag + seq![']'] + (time_tags(second) + body)),
            Seq::empty(),
        ) is None,
{
    reveal_strlit("[");
    reveal_strlit("]");
    assert("["@ == seq!['[']);
    assert("]"@ == seq![']']);
    let next = time_tags(second) + body;
    let after_open = tag + seq![']'] + next;
    let line = seq!['['] + after_open;
    text::lemma_occurs_char(line, '[', 0);
    assert(line.skip(1) =~= after_open);
    text::lemma_find_char(tag, ']', next);
    assert(after_open.take(tag.len() as int) =~= tag);
    assert(after_open.skip(tag.len() as int + 1) =~= next);
    lemma_tags_first(first, line, Seq::empty());
    assert(Seq::<u64>::empty() + first =~= first);
    if first.len() > 0 {
        lemma_tags(second, body, first);
    }
}

/// Every time tag at the head of a lyric line counts: the line has exactly these times, in their
/// order, and the caption behind them.
pub proof fn every_time_tag_counts(times: Seq<u64>, body: Seq<char>)
    requires
        times.len() > 0,
        is_plain(body),
        body[0] != '[',
    ensures
        subtitles::lyric_line(time_tags(times) + body) == Some((times, body)),
        text::lacks(time_tags(times) + body, '\n') && text::lacks(time_tags(times) + body, '\r'),
{
    let line = time_tags(times) + body;
    plain_captions_are_kept(body);
    lemma_tags(times, body, Seq::empty());
    assert(Seq::<u64>::empty() + times =~= times);
    lemma_tags_begin(times);
    assert(line[0] == time_tags(times)[0]);
    assert(line.last() == body.last());
    assert(!text::is_space(body[body.len() - 1]));
    text::lemma_trimmed_fixed(line);
    assert forall|i: int| 0 <= i < line.len() implies #[trigger] line[i] != '\n' && line[i] != '\r' by {
        if i < time_tags(times).len() {
            assert(line[i] == time_tags(times)[i]);
        } else {
            assert(line[i] == body[i - time_tags(times).len()]);
        }
    }
}

proof fn lemma_tags_begin(times: Seq<u64>)
    ensures
        times.len() > 0 ==> time_tags(times).len() > 0 && time_tags(times)[0] == '[',
        text::lacks(time_tags(times), '\n'),
        text::lacks(time_tags(times), '\r'),
    decreases times.len(),
{
    if times.len() > 0 {
        let rest = times.skip(1);
        lemma_tags_begin(rest);
        lemma_tag_time(times[0]);
        let inside = tag_time(times[0]);
        let all = time_tags(times);
        assert forall|i: int| 0 <= i < all.len() implies #[trigger] all[i] != '\n' && all[i]
            != '\r' by {
            if 1 <= i < 1 + inside.len() {
                assert(all[i] == inside[i - 1]);
            } else if i > 1 + inside.len() {
                assert(all[i] == time_tags(rest)[i - inside.len() - 2]);
            }
        }
    }
}

/// The entries of a line stand among those of the whole text.
proof fn lemma_lyrics_hold(lines: Seq<Seq<char>>, i: int, times: Seq<u64>, body: Seq<char>, k: int)
    requires
        0 <= i < lines.len(),
        subtitles::lyric_line(lines[i]) == Some((times, body)),
        subtitles::caption(body).len() > 0,
        0 <= k < times.len(),
    ensures
        subtitles::lyrics(lines).contains(
            (Cue { start_ms: times[k], end_ms: 0, text: subtitles::caption(body) }),
        ),
    decreases lines.len(),
{
    let wanted = Cue { start_ms: times[k], end_ms: 0, text: subtitles::caption(body) };
    let before = subtitles::lyrics(lines.drop_last());
    let all = subtitles::lyrics(lines);
    if i == lines.len() - 1 {
        let own = subtitles::lyric_entries(times, subtitles::caption(body));
        assert(all == before + own);
        assert(own[k] == wanted);
        assert(all[before.len() + k] == wanted);
    } else {
        lemma_lyrics_hold(lines.drop_last(), i, times, body, k);
        let m = choose|m: int| 0 <= m < before.len() && before[m] == wanted;
        assert(all[m] == wanted);
    }
}

/// A track of lyrics has a cue for every time tag of every line: it starts at that time and holds the
/// caption of the line.
pub proof fn every_lyric_is_shown(content: Seq<char>, i: int, times: Seq<u64>, body: Seq<char>, k: int)
    requires
        0 <= i < text::lines_of(content).len(),
        text::lines_of(content)[i] == time_tags(times) + body,
        is_plain(body),
        body[0] != '[',
        0 <= k < times.len(),
    ensures
        exists|j: int|
            0 <= j < subtitles::lrc_cues(content).len() && (#[trigger] subtitles::lrc_cues(
                content,
            )[j]).start_ms == times[k] && text::occurs(subtitles::lrc_cues(content)[j].text, body),
{
    let lines = text::lines_of(content);
    every_time_tag_counts(times, body);
    plain_captions_are_kept(body);
    lemma_lyrics_hold(lines, i, times, body, k);
    let entries = subtitles::lyrics(lines);
    let wanted = Cue { start_ms: times[k], end_ms: 0, text: body };
    let a = choose|a: int| 0 <= a < entries.len() && entries[a] == wanted;
    let sorted = subtitles::ordered(entries);
    subtitles::lemma_ordered_keeps(entries, a);
    let b = choose|b: int| 0 <= b < sorted.len() && sorted[b] == wanted;
    subtitles::lemma_merged_keeps(sorted, b);
    let joint = subtitles::merged(sorted);
    let j = choose|j: int|
        0 <= j < joint.len() && subtitles::stands_for(#[trigger] joint[j], wanted);
    let cues = subtitles::lrc_cues(content);
    assert(cues[j].start_ms == joint[j].start_ms && cues[j].text == joint[j].text);
}

/// A lyric is shown until the next one begins. The last one stays for as long as it takes to read it:
/// from two to eight seconds.
pub proof fn a_lyric_stays_until_the_next(content: Seq<char>, j: int)
    requires
        0 <= j < subtitles::lrc_cues(content).len(),
    ensures
        ({
            let cues = subtitles::lrc_cues(content);
            let length = cues[j].text.len() * 260 + 900;
            &&& j + 1 < cues.len() ==> cues[j].start_ms < cues[j + 1].start_ms && cues[j].end_ms
                == cues[j + 1].start_ms
            &&& j + 1 == cues.len() && cues[j].start_ms + 8_000 <= u64::MAX ==> cues[j].end_ms
                - cues[j].start_ms == (if length < 2_000 {
                2_000
            } else if length > 8_000 {
                8_000
            } else {
                length as int
            })
        }),
{
    let sorted = subtitles::ordered(subtitles::lyrics(text::lines_of(content)));
    subtitles::lemma_ordered(subtitles::lyrics(text::lines_of(content)));
    lemma_merged_rise(sorted);
    let joint = subtitles::merged(sorted);
    let cues = subtitles::lrc_cues(content);
    assert(cues[j].start_ms == joint[j].start_ms && cues[j].text == joint[j].text);
    if j + 1 < cues.len() {
        assert(cues[j + 1].start_ms == joint[j + 1].start_ms);
        assert(joint[j].start_ms < joint[j + 1].start_ms);
    }
}

/// Cues in order of their starts that are made one where they start together start one after the
/// other.
proof fn lemma_merged_rise(cues: Seq<Cue>)
    requires
        forall|i: int, j: int|
            0 <= i < j < cues.len() ==> subtitles::not_after(#[trigger] cues[i], #[trigger] cues[j]),
    ensures
        forall|i: int, j: int|
            0 <= i < j < subtitles::merged(cues).len() ==> (#[trigger] subtitles::merged(
                cues,
            )[i]).start_ms < (#[trigger] subtitles::merged(cues)[j]).start_ms,
        cues.len() > 0 ==> subtitles::merged(cues).len() > 0 && subtitles::merged(
            cues,
        ).last().start_ms == cues.last().start_ms,
    decreases cues.len(),
{
    if cues.len() > 0 {
        let before = cues.drop_last();
        assert forall|i: int, j: int| 0 <= i < j < before.len() implies subtitles::not_after(
            #[trigger] before[i],
            #[trigger] before[j],
        ) by {
            assert(before[i] == cues[i] && before[j] == cues[j]);
        }
        lemma_merged_rise(before);
        let rest = subtitles::merged(before);
        let all = subtitles::merged(cues);
        if before.len() > 0 {
            assert(subtitles::not_after(cues[before.len() - 1], cues[cues.len() - 1]));
            assert(before.last() == cues[before.len() - 1]);
        }
        assert forall|i: int, j: int| 0 <= i < j < all.len() implies (#[trigger] all[i]).start_ms
            < (#[trigger] all[j]).start_ms by {
            assert(all[i].start_ms == rest[i].start_ms);
            if j < rest.len() {
                assert(all[j].start_ms == rest[j].start_ms);
                assert(rest[i].start_ms < rest[j].start_ms);
            } else {
                let last = rest.len() - 1;
                assert(rest.last() == rest[last]);
                if i < last {
                    assert(rest[i].start_ms < rest[last].start_ms);
                }
            }
        }
    }
}

} // verus!
