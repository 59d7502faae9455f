//! Subtitles that were written are read back.
//!
//! `render_subtitles` writes what `parse_subtitle` reads: the cues of an exported file come back
//! unchanged when they are in normal form and their captions hold no markup.
use vstd::prelude::*;

use crate::asr;
use crate::asr::SubtitleExportFormat;
use crate::subtitles;
use crate::subtitles::{Cue, SubtitleFormat};
use crate::text;

verus! {

/// Cues in normal form whose captions are as `clean_caption_text` leaves them.
pub open spec fn is_clean(cues: Seq<Cue>) -> bool {
    subtitles::is_normal(cues) && forall|i: int|
        0 <= i < cues.len() ==> subtitles::caption((#[trigger] cues[i]).text) == cues[i].text
}

/// Words have no white space in them.
proof fn lemma_words_dark(s: Seq<char>)
    ensures
        forall|i: int, k: int|
            0 <= i < text::words(s).len() && 0 <= k < text::words(s)[i].len() ==> !text::is_space(
                #[trigger] text::words(s)[i][k],
            ),
    decreases s.len(),
{
    let t = text::trimmed_start(s);
    text::lemma_trimmed_len(s);
    text::lemma_trimmed_start(s);
    text::lemma_word_len(t);
    if t.len() > 0 {
        let n = text::word_len(t) as int;
        let rest = text::words(t.skip(n));
        lemma_words_dark(t.skip(n));
        let all = text::words(s);
        assert forall|i: int, k: int| 0 <= i < all.len() && 0 <= k < all[i].len() implies
            !text::is_space(#[trigger] all[i][k]) by {
            if i > 0 {
                assert(all[i] == rest[i - 1]);
            } else {
                assert(all[0][k] == t[k]);
            }
        }
    }
}

/// Joined words hold no white space but single spaces, and none at either end.
proof fn lemma_joined_words(parts: Seq<Seq<char>>)
    requires
        forall|i: int| 0 <= i < parts.len() ==> (#[trigger] parts[i]).len() > 0,
        forall|i: int, k: int|
            0 <= i < parts.len() && 0 <= k < parts[i].len() ==> !text::is_space(#[trigger] parts[i][k]),
    ensures
        ({
            let all = text::joined(parts, seq![' ']);
            &&& parts.len() > 0 ==> all.len() > 0 && !text::is_space(all[0]) && !text::is_space(
                all.last(),
            )
            &&& forall|k: int|
                0 <= k < all.len() ==> #[trigger] all[k] == ' ' || !text::is_space(all[k])
        }),
    decreases parts.len(),
{
    let all = text::joined(parts, seq![' ']);
    if parts.len() == 1 {
        assert(forall|k: int| 0 <= k < all.len() ==> !text::is_space(#[trigger] parts[0][k]));
        assert(!text::is_space(parts[0][0]));
        assert(!text::is_space(parts[0][parts[0].len() - 1]));
    } else if parts.len() > 1 {
        let rest = parts.drop_last();
        assert forall|i: int, k: int| 0 <= i < rest.len() && 0 <= k < rest[i].len() implies
            !text::is_space(#[trigger] rest[i][k]) by {
            assert(rest[i][k] == parts[i][k]);
        }
        lemma_joined_words(rest);
        let before = text::joined(rest, seq![' ']);
        let last = parts.last();
        assert(all[0] == before[0]);
        assert(!text::is_space(parts[parts.len() - 1][last.len() - 1]));
        assert(all.last() == last.last());
        assert forall|k: int| 0 <= k < all.len() implies #[trigger] all[k] == ' '
            || !text::is_space(all[k]) by {
            if k < before.len() {
                assert(all[k] == before[k]);
            } else if k > before.len() {
                assert(all[k] == parts[parts.len() - 1][k - before.len() - 1]);
            }
        }
    }
}

/// A visible caption begins and ends visibly and stands on one line.
proof fn lemma_caption(value: Seq<char>)
    requires
        subtitles::caption(value).len() > 0,
    ensures
        text::trimmed(subtitles::caption(value)) == subtitles::caption(value),
        text::lacks(subtitles::caption(value), '\n'),
        text::lacks(subtitles::caption(value), '\r'),
{
    let plain = subtitles::unmarked(subtitles::unescaped(value), false, false);
    let parts = text::words(plain);
    text::lemma_words_not_empty(plain);
    lemma_words_dark(plain);
    lemma_joined_words(parts);
    let all = subtitles::caption(value);
    assert(parts.len() > 0);
    text::lemma_trimmed_fixed(all);
    assert forall|k: int| 0 <= k < all.len() implies #[trigger] all[k] != '\n' && all[k] != '\r' by {
        assert(all[k] == ' ' || !text::is_space(all[k]));
    }
}

/// A line up to its line feed is the first line; the others follow.
pub proof fn lemma_lines_cons(line: Seq<char>, rest: Seq<char>)
    requires
        text::lacks(line, '\n'),
        text::lacks(line, '\r'),
    ensures
        text::lines_of(line + seq!['\n'] + rest) == seq![line] + text::lines_of(rest),
{
    let s = line + seq!['\n'] + rest;
    text::lemma_find_char(line, '\n', rest);
    assert(s.take(line.len() as int) == line);
    assert(s.skip(line.len() as int + 1) == rest);
    if line.len() > 0 {
        assert(line[line.len() - 1] != '\r');
    }
}

/// The timing line of a cue.
pub open spec fn timing_line(cue: Cue, sign: char) -> Seq<char> {
    asr::subtitle_time(cue.start_ms, sign) + " --> "@ + asr::subtitle_time(cue.end_ms, sign)
}

/// The characters of a written time: digits, colons and the decimal sign.
pub open spec fn is_time_char(c: char) -> bool {
    text::is_digit(c) || c == ':' || c == '.' || c == ','
}

proof fn lemma_time_chars(ms: u64, sign: char)
    requires
        sign == '.' || sign == ',',
    ensures
        ({
            let s = asr::subtitle_time(ms, sign);
            &&& s.len() > 0
            &&& text::is_digit(s[0])
            &&& text::is_digit(s.last())
            &&& forall|i: int| 0 <= i < s.len() ==> is_time_char(#[trigger] s[i])
            &&& subtitles::clock(s) == Some(ms)
        }),
{
    let n = ms as nat;
    let h = subtitles::padded(n / 3_600_000, 2);
    let m = subtitles::padded(n / 60_000 % 60, 2);
    let x = subtitles::padded(n / 1_000 % 60, 2);
    let f = subtitles::padded(n % 1_000, 3);
    text::lemma_padded_number(n / 3_600_000, 2);
    text::lemma_padded_number(n / 60_000 % 60, 2);
    text::lemma_padded_number(n / 1_000 % 60, 2);
    text::lemma_padded_number(n % 1_000, 3);
    subtitles::lemma_clock_read_back(n, sign);
    lemma_time_fields(h, m, x, f, sign);
}

proof fn lemma_time_fields(h: Seq<char>, m: Seq<char>, x: Seq<char>, f: Seq<char>, sign: char)
    requires
        sign == '.' || sign == ',',
        text::all_digits(h) && h.len() > 0,
        text::all_digits(m),
        text::all_digits(x),
        text::all_digits(f) && f.len() > 0,
    ensures
        ({
            let s = h + seq![':'] + (m + seq![':'] + x + seq![sign] + f);
            &&& s.len() > 0
            &&& text::is_digit(s[0])
            &&& text::is_digit(s.last())
            &&& forall|i: int| 0 <= i < s.len() ==> is_time_char(#[trigger] s[i])
        }),
{
    let tail = m + seq![':'] + x + seq![sign] + f;
    let s = h + seq![':'] + tail;
    assert(s[0] == h[0] && text::is_digit(h[0]));
    assert(s.last() == f[f.len() - 1] && text::is_digit(f[f.len() - 1]));
    assert forall|i: int| 0 <= i < tail.len() implies is_time_char(#[trigger] tail[i]) by {
        if i < m.len() {
            assert(tail[i] == m[i] && text::is_digit(m[i]));
        } else if m.len() < i < m.len() + 1 + x.len() {
            assert(tail[i] == x[i - m.len() - 1] && text::is_digit(x[i - m.len() - 1]));
        } else if i > m.len() + 1 + x.len() {
            let k = i - m.len() - x.len() - 2;
            assert(tail[i] == f[k] && text::is_digit(f[k]));
        }
    }
    assert forall|i: int| 0 <= i < s.len() implies is_time_char(#[trigger] s[i]) by {
        if i < h.len() {
            assert(s[i] == h[i] && text::is_digit(h[i]));
        } else if i > h.len() {
            assert(s[i] == tail[i - h.len() - 1]);
        }
    }
}

/// An arrow is found where it first stands.
pub proof fn lemma_find_arrow(left: Seq<char>, right: Seq<char>)
    requires
        text::lacks(left, '-'),
    ensures
        text::find(left + "-->"@ + right, "-->"@) == Some(left.len() as int),
{
    reveal_strlit("-->");
    let s = left + "-->"@ + right;
    let at = left.len() as int;
    assert(s.subrange(at, at + 3) == "-->"@);
    assert forall|i: int| 0 <= i < at implies !#[trigger] text::occurs_at(s, "-->"@, i) by {
        if text::occurs_at(s, "-->"@, i) {
            assert(s.subrange(i, i + 3)[0] == s[i]);
            assert(s[i] == left[i]);
        }
    }
    text::lemma_find_is(s, "-->"@, at);
}

/// A text without hyphens holds no arrow.
proof fn lemma_no_arrow(s: Seq<char>)
    requires
        text::lacks(s, '-'),
    ensures
        text::find(s, "-->"@) is None,
{
    reveal_strlit("-->");
    text::lemma_find_from(s, "-->"@, 0);
    if let Some(at) = text::find(s, "-->"@) {
        assert(s.subrange(at, at + 3)[0] == s[at]);
    }
}

/// A visible text without white space is its own only word, also with a space before it.
proof fn lemma_single_word(s: Seq<char>)
    requires
        s.len() > 0,
        forall|i: int| 0 <= i < s.len() ==> !text::is_space(#[trigger] s[i]),
    ensures
        text::words(seq![' '] + s) == seq![s],
{
    let spaced = seq![' '] + s;
    assert(spaced.skip(1) == s);
    assert(!text::is_space(s[0]));
    assert(text::trimmed_start(s) == s);
    assert(text::trimmed_start(spaced) == s);
    text::lemma_word_len(s);
    assert(text::word_len(s) == s.len());
    assert(s.take(s.len() as int) == s);
    assert(s.skip(s.len() as int) == Seq::<char>::empty());
    assert(text::words(Seq::<char>::empty()) == Seq::<Seq<char>>::empty());
}

/// A line that begins with a digit opens no comment.
pub proof fn lemma_digit_opens_no_comment(line: Seq<char>)
    requires
        line.len() > 0,
        text::is_digit(line[0]),
    ensures
        !subtitles::opens_comment(line),
{
    reveal_strlit("NOTE");
    reveal_strlit("STYLE");
    reveal_strlit("REGION");
    if text::occurs_at(line, "NOTE"@, 0) {
        assert(line.subrange(0, 4)[0] == line[0]);
    }
}

/// The timing line of a cue is read back as its times.
proof fn lemma_timing_line(cue: Cue, sign: char)
    requires
        sign == '.' || sign == ',',
    ensures
        ({
            let line = timing_line(cue, sign);
            &&& text::trimmed(line) == line
            &&& !subtitles::opens_comment(line)
            &&& subtitles::timing(line) == Some((cue.start_ms, cue.end_ms))
            &&& text::lacks(line, '\n')
            &&& text::lacks(line, '\r')
        }),
{
    reveal_strlit(" --> ");
    reveal_strlit("-->");
    let from = asr::subtitle_time(cue.start_ms, sign);
    let to = asr::subtitle_time(cue.end_ms, sign);
    lemma_time_chars(cue.start_ms, sign);
    lemma_time_chars(cue.end_ms, sign);
    let line = timing_line(cue, sign);
    let left = from + seq![' '];
    let right = seq![' '] + to;
    assert(line == left + "-->"@ + right);
    assert forall|i: int| 0 <= i < left.len() implies #[trigger] left[i] != '-' by {
        if i < from.len() {
            assert(is_time_char(from[i]));
        }
    }
    lemma_find_arrow(left, right);
    assert(line.take(left.len() as int) == left);
    assert(line.skip(left.len() as int + 3) == right);
    assert(line[0] == from[0]);
    assert(line.last() == to.last());
    text::lemma_trimmed_fixed(line);
    lemma_digit_opens_no_comment(line);
    assert(text::trimmed(left) == from) by {
        assert(text::trimmed_start(left) == left);
        assert(left.drop_last() == from);
        assert(text::trimmed_end(from) == from);
        assert(text::trimmed_end(left) == from);
    }
    assert forall|i: int| 0 <= i < to.len() implies !text::is_space(#[trigger] to[i]) by {
        assert(is_time_char(to[i]));
    }
    lemma_single_word(to);
    assert forall|i: int| 0 <= i < line.len() implies #[trigger] line[i] != '\n' && line[i] != '\r' by {
        if i < from.len() {
            assert(is_time_char(from[i]));
            assert(line[i] == from[i]);
        } else if i >= from.len() + 5 {
            assert(is_time_char(to[i - from.len() - 5]));
            assert(line[i] == to[i - from.len() - 5]);
        }
    }
}

/// The lines of the blocks of the cues from `from` on.
pub open spec fn block_lines(cues: Seq<Cue>, from: int, numbered: bool, sign: char) -> Seq<Seq<char>>
    decreases cues.len() - from,
{
    if from >= cues.len() {
        Seq::empty()
    } else {
        (if numbered {
            seq![text::decimal((from + 1) as nat)]
        } else {
            Seq::empty()
        }) + seq![timing_line(cues[from], sign), cues[from].text, Seq::empty()] + block_lines(
            cues,
            from + 1,
            numbered,
            sign,
        )
    }
}

/// Three lines, the last of them empty, and the lines after them.
proof fn lemma_three_lines(time: Seq<char>, body: Seq<char>, rest: Seq<char>)
    requires
        text::lacks(time, '\n') && text::lacks(time, '\r'),
        text::lacks(body, '\n') && text::lacks(body, '\r'),
        text::lacks(rest, '\r'),
    ensures
        text::lines_of(time + "\n"@ + body + "\n\n"@ + rest) == seq![time, body, Seq::empty()]
            + text::lines_of(rest),
        text::lacks(time + "\n"@ + body + "\n\n"@ + rest, '\r'),
{
    reveal_strlit("\n");
    reveal_strlit("\n\n");
    let empty = Seq::<char>::empty();
    let after_body = empty + seq!['\n'] + rest;
    let after_time = body + seq!['\n'] + after_body;
    let all = time + seq!['\n'] + after_time;
    lemma_lines_cons(empty, rest);
    lemma_lines_cons(body, after_body);
    lemma_lines_cons(time, after_time);
    assert(time + "\n"@ + body + "\n\n"@ + rest == all);
    assert(seq![time] + (seq![body] + (seq![empty] + text::lines_of(rest))) == seq![time, body, empty]
        + text::lines_of(rest));
}

/// A line with the number of a cue before its block.
proof fn lemma_number_line(number: nat, rest: Seq<char>)
    requires
        text::lacks(rest, '\r'),
    ensures
        text::lines_of(text::decimal(number) + "\n"@ + rest) == seq![text::decimal(number)]
            + text::lines_of(rest),
        text::lacks(text::decimal(number) + "\n"@ + rest, '\r'),
{
    reveal_strlit("\n");
    assert("\n"@ == seq!['\n']);
    let digits = text::decimal(number);
    text::lemma_decimal_value(number);
    text::lemma_digits_lack(digits, '\n');
    text::lemma_digits_lack(digits, '\r');
    lemma_lines_cons(digits, rest);
}

/// The written cues consist of these lines and hold no carriage return.
proof fn lemma_block_lines(cues: Seq<Cue>, from: int, numbered: bool, sign: char)
    requires
        is_clean(cues),
        sign == '.' || sign == ',',
        0 <= from,
    ensures
        text::lines_of(asr::cue_blocks(cues, from, numbered, sign)) == block_lines(
            cues,
            from,
            numbered,
            sign,
        ),
        text::lacks(asr::cue_blocks(cues, from, numbered, sign), '\r'),
    decreases cues.len() - from,
{
    if from < cues.len() {
        let cue = cues[from];
        lemma_block_lines(cues, from + 1, numbered, sign);
        let rest = asr::cue_blocks(cues, from + 1, numbered, sign);
        let time = timing_line(cue, sign);
        lemma_timing_line(cue, sign);
        lemma_clean_text(cues, from);
        lemma_three_lines(time, cue.text, rest);
        let block = time + "\n"@ + cue.text + "\n\n"@ + rest;
        assert(asr::cue_block(cue, sign) + rest == block);
        let three = seq![time, cue.text, Seq::<char>::empty()];
        let rest_lines = block_lines(cues, from + 1, numbered, sign);
        if numbered {
            let number = text::decimal((from + 1) as nat);
            lemma_number_line((from + 1) as nat, block);
            assert(asr::cue_blocks(cues, from, numbered, sign) == number + "\n"@ + block);
            assert(seq![number] + three + rest_lines == seq![number] + (three + rest_lines));
        } else {
            assert(asr::cue_blocks(cues, from, numbered, sign) == block);
            assert(Seq::<Seq<char>>::empty() + three + rest_lines == three + rest_lines);
        }
    }
}

proof fn lemma_clean_text(cues: Seq<Cue>, i: int)
    requires
        is_clean(cues),
        0 <= i < cues.len(),
    ensures
        text::trimmed(cues[i].text) == cues[i].text,
        cues[i].text.len() > 0,
        text::lacks(cues[i].text, '\n'),
        text::lacks(cues[i].text, '\r'),
{
    assert(subtitles::is_shown(cues[i]));
    text::lemma_trimmed_len(cues[i].text);
    text::lemma_trimmed_len(text::trimmed_start(cues[i].text));
    assert(subtitles::caption(cues[i].text) == cues[i].text);
    lemma_caption(cues[i].text);
}

/// An empty line begins no cue.
proof fn lemma_empty_line()
    ensures
        !subtitles::opens_comment(Seq::empty()),
        subtitles::timing(Seq::empty()) is None,
        text::trimmed(Seq::empty()) == Seq::<char>::empty(),
{
    reveal_strlit("NOTE");
    reveal_strlit("STYLE");
    reveal_strlit("REGION");
    lemma_no_arrow(Seq::empty());
}

/// A block of three lines is read as one cue.
proof fn lemma_block_read_back(lines: Seq<Seq<char>>, at: int, cue: Cue, sign: char)
    requires
        sign == '.' || sign == ',',
        0 <= at,
        at + 3 <= lines.len(),
        lines[at] == timing_line(cue, sign),
        lines[at + 1] == cue.text,
        lines[at + 2] == Seq::<char>::empty(),
        text::trimmed(cue.text) == cue.text,
        cue.text.len() > 0,
        subtitles::caption(cue.text) == cue.text,
    ensures
        subtitles::timed_blocks(lines, at) == seq![cue] + subtitles::timed_blocks(lines, at + 3),
{
    lemma_timing_line(cue, sign);
    lemma_empty_line();
    let end = at + 2;
    assert(subtitles::block_end(lines, at + 1) == end) by {
        reveal_with_fuel(subtitles::block_end, 2);
    }
    let body = subtitles::block(lines, at + 1, end);
    assert(body == seq![cue.text]);
    assert(text::joined(body, seq![' ']) == cue.text);
    let found = Cue {
        start_ms: cue.start_ms,
        end_ms: cue.end_ms,
        text: subtitles::caption(text::joined(body, seq![' '])),
    };
    assert(found == cue);
    assert(subtitles::timed_blocks(lines, at) == seq![found] + subtitles::timed_blocks(lines, end));
    assert(subtitles::timed_blocks(lines, end) == subtitles::timed_blocks(lines, end + 1));
}

/// A line with a number begins no cue.
proof fn lemma_number_skipped(lines: Seq<Seq<char>>, at: int, number: nat)
    requires
        0 <= at < lines.len(),
        lines[at] == text::decimal(number),
    ensures
        subtitles::timed_blocks(lines, at) == subtitles::timed_blocks(lines, at + 1),
{
    let digits = text::decimal(number);
    text::lemma_decimal_value(number);
    assert(text::is_digit(digits[0]));
    assert(text::is_digit(digits[digits.len() - 1]));
    text::lemma_trimmed_fixed(digits);
    lemma_digit_opens_no_comment(digits);
    text::lemma_digits_lack(digits, '-');
    lemma_no_arrow(digits);
}

/// The lines of written cues are read as those cues.
proof fn lemma_blocks_read_back(
    lines: Seq<Seq<char>>,
    at: int,
    cues: Seq<Cue>,
    from: int,
    numbered: bool,
    sign: char,
)
    requires
        is_clean(cues),
        sign == '.' || sign == ',',
        0 <= from <= cues.len(),
        0 <= at <= lines.len(),
        lines.skip(at) == block_lines(cues, from, numbered, sign),
    ensures
        subtitles::timed_blocks(lines, at) == cues.skip(from),
    decreases cues.len() - from,
{
    let here = block_lines(cues, from, numbered, sign);
    assert(lines.skip(at).len() == lines.len() - at);
    if from < cues.len() {
        let cue = cues[from];
        let rest = block_lines(cues, from + 1, numbered, sign);
        let first = if numbered {
            at + 1
        } else {
            at
        };
        let skip = first - at;
        assert(here.len() == skip + 3 + rest.len());
        assert(lines[first] == here[skip]);
        assert(lines[first + 1] == here[skip + 1]);
        assert(lines[first + 2] == here[skip + 2]);
        if numbered {
            assert(lines[at] == here[0]);
            lemma_number_skipped(lines, at, (from + 1) as nat);
        }
        lemma_clean_text(cues, from);
        assert(subtitles::caption(cues[from].text) == cue.text);
        lemma_block_read_back(lines, first, cue, sign);
        assert(lines.skip(first + 3) == rest) by {
            assert(lines.skip(at).skip(skip + 3) == lines.skip(first + 3));
            assert(here.skip(skip + 3) == rest);
        }
        lemma_blocks_read_back(lines, first + 3, cues, from + 1, numbered, sign);
        assert(seq![cue] + cues.skip(from + 1) == cues.skip(from));
    } else {
        assert(cues.skip(from) == Seq::<Cue>::empty());
    }
}

/// Line feeds are all the line breaks there are in a text without carriage returns.
proof fn lemma_unix_lines(s: Seq<char>)
    requires
        text::lacks(s, '\r'),
    ensures
        subtitles::unix_lines(s) == s,
{
    reveal_strlit("\r\n");
    reveal_strlit("\r");
    assert("\r"@ == seq!['\r']);
    text::lemma_find_from(s, "\r\n"@, 0);
    if let Some(at) = text::find(s, "\r\n"@) {
        assert(s.subrange(at, at + 2)[0] == s[at]);
    }
    text::lemma_replaced_lacking(s, '\r', "\n"@);
}

/// The cues of a file that was written are the cues it was written from.
pub proof fn written_cues_are_read_back(cues: Seq<Cue>, format: SubtitleExportFormat)
    requires
        is_clean(cues),
    ensures
        subtitles::srt_cues(asr::rendered(cues, format)) == cues,
{
    let content = asr::rendered(cues, format);
    match format {
        SubtitleExportFormat::Srt => {
            lemma_block_lines(cues, 0, true, ',');
            lemma_unix_lines(content);
            let lines = text::lines_of(content);
            assert(lines.skip(0) == lines);
            lemma_blocks_read_back(lines, 0, cues, 0, true, ',');
        },
        SubtitleExportFormat::WebVtt => {
            reveal_strlit("WEBVTT\n\n");
            reveal_strlit("WEBVTT");
            lemma_block_lines(cues, 0, false, '.');
            let body = asr::cue_blocks(cues, 0, false, '.');
            let mark = "WEBVTT"@;
            let empty = Seq::<char>::empty();
            let rest = empty + seq!['\n'] + body;
            assert(content == mark + seq!['\n'] + rest);
            lemma_lines_cons(empty, body);
            lemma_lines_cons(mark, rest);
            assert(text::lacks(content, '\r'));
            lemma_unix_lines(content);
            let lines = text::lines_of(content);
            let block = block_lines(cues, 0, false, '.');
            assert(lines == seq![mark, empty] + block);
            assert(lines[0] == mark);
            assert(lines[1] == empty);
            text::lemma_trimmed_fixed(mark);
            reveal_strlit("NOTE");
            reveal_strlit("STYLE");
            reveal_strlit("REGION");
            assert(!subtitles::opens_comment(mark)) by {
                if text::occurs_at(mark, "NOTE"@, 0) {
                    assert(mark.subrange(0, 4)[0] == mark[0]);
                }
            }
            lemma_no_arrow(mark);
            lemma_empty_line();
            assert(subtitles::timed_blocks(lines, 0) == subtitles::timed_blocks(lines, 1));
            assert(subtitles::timed_blocks(lines, 1) == subtitles::timed_blocks(lines, 2));
            assert(lines.skip(2) == block);
            lemma_blocks_read_back(lines, 2, cues, 0, false, '.');
        },
    }
    assert(cues.skip(0) == cues);
}

/// A track that was exported comes back from `parse_subtitle` with the same cues.
pub proof fn exported_track_is_read_back(
    file_name: Seq<char>,
    cues: Seq<Cue>,
    format: SubtitleExportFormat,
)
    requires
        is_clean(cues),
        cues.len() > 0,
        crate::file_names::extension_of(file_name) == Some(asr::export_extension(format)),
    ensures
        subtitles::track_of(file_name, asr::rendered(cues, format)) == Ok::<
            (SubtitleFormat, Seq<Cue>),
            Seq<char>,
        >(
            (
                match format {
                    SubtitleExportFormat::Srt => SubtitleFormat::Srt,
                    SubtitleExportFormat::WebVtt => SubtitleFormat::WebVtt,
                },
                cues,
            ),
        ),
{
    reveal_strlit("srt");
    reveal_strlit("str");
    reveal_strlit("vtt");
    assert(text::ascii_lowered("srt"@) =~= "srt"@);
    assert(text::ascii_lowered("vtt"@) =~= "vtt"@);
    assert("vtt"@[0] != "srt"@[0]);
    assert("vtt"@[0] != "str"@[0]);
    written_cues_are_read_back(cues, format);
    subtitles::normal_cues_stay_unchanged(cues);
}

} // verus!
