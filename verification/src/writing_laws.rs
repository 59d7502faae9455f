//! What captions are read as and what subtitle files are written as.
use vstd::prelude::*;

use crate::asr;
use crate::asr::SubtitleExportFormat;
use crate::import_laws;
use crate::subtitles;
use crate::subtitles::Cue;
use crate::text;

verus! {

proof fn lemma_replaced_once(a: Seq<char>, pattern: Seq<char>, b: Seq<char>, to: Seq<char>)
    requires
        pattern.len() > 0,
        text::lacks(a, pattern[0]),
        text::lacks(b, pattern[0]),
    ensures
        text::replaced(a + pattern + b, pattern, to) == a + to + b,
{
    let s = a + pattern + b;
    let n = a.len() as int;
    assert(s.subrange(n, n + pattern.len()) =~= pattern);
    assert forall|i: int| 0 <= i < n implies !#[trigger] text::occurs_at(s, pattern, i) by {
        if text::occurs_at(s, pattern, i) {
            assert(s.subrange(i, i + pattern.len())[0] == s[i]);
            assert(s[i] == a[i]);
        }
    }
    text::lemma_find_is(s, pattern, n);
    assert(s.take(n) =~= a);
    assert(s.skip(n + pattern.len()) =~= b);
    import_laws::lemma_not_found(b, pattern);
    assert(text::replaced(b, pattern, to) == b);
    assert(text::replaced(s, pattern, to) == s.take(n) + to + text::replaced(
        s.skip(n + pattern.len()),
        pattern,
        to,
    ));
}

/// A pattern that begins like another one, but goes on otherwise, is not replaced in its place.
proof fn lemma_other_kept(a: Seq<char>, mark: Seq<char>, b: Seq<char>, pattern: Seq<char>, k: int)
    requires
        0 < k < pattern.len(),
        k < mark.len(),
        text::lacks(a, pattern[0]),
        text::lacks(b, pattern[0]),
        forall|i: int| 0 < i < mark.len() ==> #[trigger] mark[i] != pattern[0],
        mark[k] != pattern[k],
    ensures
        forall|to: Seq<char>| #[trigger]
            text::replaced(a + mark + b, pattern, to) == a + mark + b,
{
    let s = a + mark + b;
    text::lemma_find_from(s, pattern, 0);
    if let Some(at) = text::find(s, pattern) {
        assert(s.subrange(at, at + pattern.len())[0] == s[at]);
        assert(s.subrange(at, at + pattern.len())[k] == s[at + k]);
        if at < a.len() {
            assert(s[at] == a[at]);
        } else if at < a.len() + mark.len() {
            assert(s[at] == mark[at - a.len()]);
            if at == a.len() {
                assert(s[at + k] == mark[k]);
            }
        } else {
            assert(s[at] == b[at - a.len() - mark.len()]);
        }
    }
}

proof fn lemma_spaced(a: Seq<char>, b: Seq<char>)
    requires
        import_laws::is_plain(a),
        import_laws::is_plain(b),
    ensures
        import_laws::is_plain(a + " "@ + b),
        text::lacks(a, '\\') && text::lacks(a, '&'),
        text::lacks(b, '\\') && text::lacks(b, '&'),
{
    reveal_strlit(" ");
    let all = a + " "@ + b;
    assert(all[0] == a[0]);
    assert(all.last() == b.last());
    assert forall|i: int| 0 <= i < all.len() implies (#[trigger] all[i] == ' ' || !text::is_space(
        all[i],
    )) && all[i] != '<' && all[i] != '>' && all[i] != '{' && all[i] != '}' && all[i] != '\\'
        && all[i] != '&' by {
        if i < a.len() {
            assert(all[i] == a[i]);
        } else if i > a.len() {
            assert(all[i] == b[i - a.len() - 1]);
        }
    }
    assert forall|i: int| 0 <= i < all.len() - 1 && all[i] == ' ' implies #[trigger] all[i + 1]
        != ' ' by {
        if i + 1 < a.len() {
            assert(all[i] == a[i] && all[i + 1] == a[i + 1]);
        } else if i + 1 == a.len() {
            assert(all[i] == a[i]);
            assert(a.last() == a[i]);
        } else if i == a.len() {
            assert(all[i + 1] == b[0]);
        } else {
            assert(all[i] == b[i - a.len() - 1] && all[i + 1] == b[i - a.len() - 1 + 1]);
        }
    }
}

/// A line break mark inside of a caption is read as a space, in either of its forms, and so is a
/// space that does not break.
pub proof fn line_breaks_are_read_as_spaces(a: Seq<char>, b: Seq<char>)
    requires
        import_laws::is_plain(a),
        import_laws::is_plain(b),
    ensures
        subtitles::caption(a + "\\N"@ + b) == a + seq![' '] + b,
        subtitles::caption(a + "\\n"@ + b) == a + seq![' '] + b,
        subtitles::caption(a + "&nbsp;"@ + b) == a + seq![' '] + b,
{
    reveal_strlit(" ");
    reveal_strlit("\\N");
    reveal_strlit("\\n");
    reveal_strlit("&nbsp;");
    assert(" "@ =~= seq![' ']);
    lemma_spaced(a, b);
    import_laws::plain_captions_are_kept(a + " "@ + b);
    let plain = a + " "@ + b;
    lemma_replaced_once(a, "\\N"@, b, " "@);
    lemma_other_kept(a, "\\n"@, b, "\\N"@, 1);
    lemma_replaced_once(a, "\\n"@, b, " "@);
    assert(text::lacks(a + "&nbsp;"@ + b, '\\')) by {
        let s = a + "&nbsp;"@ + b;
        assert forall|i: int| 0 <= i < s.len() implies #[trigger] s[i] != '\\' by {
            if i < a.len() {
                assert(s[i] == a[i]);
            } else if i < a.len() + 6 {
                assert(s[i] == "&nbsp;"@[i - a.len()]);
            } else {
                assert(s[i] == b[i - a.len() - 6]);
            }
        }
    }
    import_laws::lemma_not_found(a + "&nbsp;"@ + b, "\\N"@);
    import_laws::lemma_not_found(a + "&nbsp;"@ + b, "\\n"@);
    lemma_replaced_once(a, "&nbsp;"@, b, " "@);
    import_laws::lemma_not_found(plain, "\\N"@);
    import_laws::lemma_not_found(plain, "\\n"@);
    lemma_plain_rest(plain);
    assert(subtitles::unescaped(a + "\\N"@ + b) == plain);
    assert(subtitles::unescaped(a + "\\n"@ + b) == plain);
    assert(subtitles::unescaped(a + "&nbsp;"@ + b) == plain);
    assert(subtitles::unescaped(plain) == plain);
}

proof fn lemma_plain_rest(s: Seq<char>)
    requires
        import_laws::is_plain(s),
    ensures
        text::replaced(s, "\\N"@, " "@) == s,
        text::replaced(s, "\\n"@, " "@) == s,
        text::replaced(s, "&nbsp;"@, " "@) == s,
        text::replaced(s, "&amp;"@, "&"@) == s,
        text::replaced(s, "&lt;"@, "<"@) == s,
        text::replaced(s, "&gt;"@, ">"@) == s,
        text::lacks(s, '\\'),
        text::lacks(s, '&'),
{
    reveal_strlit("\\N");
    reveal_strlit("\\n");
    reveal_strlit("&nbsp;");
    reveal_strlit("&amp;");
    reveal_strlit("&lt;");
    reveal_strlit("&gt;");
    assert(text::lacks(s, '\\'));
    assert(text::lacks(s, '&'));
    import_laws::lemma_not_found(s, "\\N"@);
    import_laws::lemma_not_found(s, "\\n"@);
    import_laws::lemma_not_found(s, "&nbsp;"@);
    import_laws::lemma_not_found(s, "&amp;"@);
    import_laws::lemma_not_found(s, "&lt;"@);
    import_laws::lemma_not_found(s, "&gt;"@);
}

/// Two cues that start together are shown together: both texts, the second one only where the first
/// does not hold it already, until the later end. Two that do not stay apart.
pub proof fn cues_that_start_together_are_shown_together(a: Cue, b: Cue)
    ensures
        ({
            let cues = subtitles::merged(seq![a, b]);
            &&& a.start_ms != b.start_ms ==> cues == seq![a, b]
            &&& a.start_ms == b.start_ms ==> {
                &&& cues.len() == 1
                &&& cues[0].start_ms == a.start_ms
                &&& cues[0].end_ms >= a.end_ms && cues[0].end_ms >= b.end_ms
                &&& cues[0].end_ms == a.end_ms || cues[0].end_ms == b.end_ms
                &&& text::occurs(a.text, b.text) ==> cues[0].text == a.text
                &&& !text::occurs(a.text, b.text) ==> cues[0].text == a.text + seq![' '] + b.text
            }
        }),
{
    reveal_with_fuel(subtitles::merged, 3);
    let both = seq![a, b];
    assert(both.drop_last() =~= seq![a]);
    assert(seq![a].drop_last() =~= Seq::<Cue>::empty());
    assert(subtitles::merged(seq![a]) =~= seq![a]);
    assert(seq![a].push(b) =~= both);
    assert(a.text.push(' ') + b.text =~= a.text + seq![' '] + b.text);
}

/// A cue is shown when it has a visible character and ends after it starts, and only then.
pub proof fn a_cue_with_text_and_time_is_shown(cue: Cue)
    ensures
        subtitles::is_shown(cue) <==> cue.start_ms < cue.end_ms && exists|k: int|
            0 <= k < cue.text.len() && !text::is_space(#[trigger] cue.text[k]),
{
    text::lemma_trimmed_visible(cue.text);
}

/// A track lasts until the last of its cues has ended.
pub proof fn a_track_lasts_until_its_last_end(cues: Seq<Cue>)
    ensures
        forall|i: int|
            0 <= i < cues.len() ==> (#[trigger] cues[i]).end_ms <= subtitles::latest_end(cues),
        cues.len() > 0 ==> exists|i: int|
            0 <= i < cues.len() && (#[trigger] cues[i]).end_ms == subtitles::latest_end(cues),
        cues.len() == 0 ==> subtitles::latest_end(cues) == 0,
    decreases cues.len(),
{
    if cues.len() > 0 {
        let rest = cues.drop_last();
        a_track_lasts_until_its_last_end(rest);
        assert forall|i: int| 0 <= i < cues.len() implies (#[trigger] cues[i]).end_ms
            <= subtitles::latest_end(cues) by {
            if i < rest.len() {
                assert(rest[i] == cues[i]);
            }
        }
        if subtitles::latest_end(cues) == cues.last().end_ms {
            assert(cues[cues.len() - 1].end_ms == subtitles::latest_end(cues));
        } else {
            let i = choose|i: int|
                0 <= i < rest.len() && (#[trigger] rest[i]).end_ms == subtitles::latest_end(rest);
            assert(cues[i] == rest[i]);
        }
    }
}

/// Cues are put in the order of their starts, and those that start together in the order of their
/// ends.
pub proof fn cues_are_put_in_order(cues: Seq<Cue>, i: int, j: int)
    requires
        0 <= i < j < cues.len(),
    ensures
        ({
            let a = subtitles::ordered(cues)[i];
            let b = subtitles::ordered(cues)[j];
            a.start_ms < b.start_ms || (a.start_ms == b.start_ms && a.end_ms <= b.end_ms)
        }),
        subtitles::ordered(cues).len() == cues.len(),
{
    subtitles::lemma_ordered(cues);
}

/// The cues of a list with the given times, in their order.
pub open spec fn with_times(cues: Seq<Cue>, start_ms: u64, end_ms: u64) -> Seq<Cue>
    decreases cues.len(),
{
    if cues.len() == 0 {
        Seq::empty()
    } else if cues.last().start_ms == start_ms && cues.last().end_ms == end_ms {
        with_times(cues.drop_last(), start_ms, end_ms).push(cues.last())
    } else {
        with_times(cues.drop_last(), start_ms, end_ms)
    }
}

proof fn lemma_insertion_keeps_order(rest: Seq<Cue>, cue: Cue, start_ms: u64, end_ms: u64)
    ensures
        subtitles::place(rest, cue) <= rest.len(),
        with_times(rest.insert(subtitles::place(rest, cue) as int, cue), start_ms, end_ms) == (
        if cue.start_ms == start_ms && cue.end_ms == end_ms {
            with_times(rest, start_ms, end_ms).push(cue)
        } else {
            with_times(rest, start_ms, end_ms)
        }),
    decreases rest.len(),
{
    let at = subtitles::place(rest, cue) as int;
    if rest.len() == 0 || subtitles::not_after(rest.last(), cue) {
        let all = rest.insert(at, cue);
        assert(all.last() == cue);
        assert(all.drop_last() =~= rest);
    } else {
        let less = rest.drop_last();
        lemma_insertion_keeps_order(less, cue, start_ms, end_ms);
        let all = rest.insert(at, cue);
        assert(all.last() == rest.last());
        assert(all.drop_last() =~= less.insert(at, cue));
    }
}

/// Cues with the same times keep their order.
pub proof fn cues_with_the_same_times_keep_their_order(cues: Seq<Cue>, start_ms: u64, end_ms: u64)
    ensures
        with_times(subtitles::ordered(cues), start_ms, end_ms) == with_times(cues, start_ms, end_ms),
    decreases cues.len(),
{
    if cues.len() > 0 {
        let less = cues.drop_last();
        cues_with_the_same_times_keep_their_order(less, start_ms, end_ms);
        lemma_insertion_keeps_order(subtitles::ordered(less), cues.last(), start_ms, end_ms);
    }
}

/// A time in a subtitle file is written by its hours, minutes, seconds and thousandths, with a comma
/// or a point before these.
pub proof fn a_time_is_written_by_its_parts(
    hours: nat,
    minutes: nat,
    seconds: nat,
    thousandths: nat,
    sign: char,
)
    requires
        minutes < 60,
        seconds < 60,
        thousandths < 1_000,
        hours * 3_600_000 + minutes * 60_000 + seconds * 1_000 + thousandths <= u64::MAX,
    ensures
        asr::subtitle_time(
            (hours * 3_600_000 + minutes * 60_000 + seconds * 1_000 + thousandths) as u64,
            sign,
        ) == text::zero_padded(text::decimal(hours), 2) + seq![':'] + text::zero_padded(
            text::decimal(minutes),
            2,
        ) + seq![':'] + text::zero_padded(text::decimal(seconds), 2) + seq![sign]
            + text::zero_padded(text::decimal(thousandths), 3),
{
    reveal_strlit(":");
    let ms = hours * 3_600_000 + minutes * 60_000 + seconds * 1_000 + thousandths;
    assert(ms / 3_600_000 == hours);
    assert(ms / 60_000 == hours * 60 + minutes);
    assert(ms / 60_000 % 60 == minutes);
    assert(ms / 1_000 == hours * 3_600 + minutes * 60 + seconds);
    assert(ms / 1_000 % 60 == seconds);
    assert(ms % 1_000 == thousandths);
    let a = text::zero_padded(text::decimal(hours), 2);
    let b = text::zero_padded(text::decimal(minutes), 2);
    let c = text::zero_padded(text::decimal(seconds), 2);
    let d = text::zero_padded(text::decimal(thousandths), 3);
    assert(asr::subtitle_time(ms as u64, sign) =~= a + seq![':'] + b + seq![':'] + c + seq![sign]
        + d);
}

/// A time is shown by its minutes, seconds and thousandths, with the hours before them when there
/// are any.
pub proof fn a_time_is_shown_by_its_parts(
    hours: nat,
    minutes: nat,
    seconds: nat,
    thousandths: nat,
)
    requires
        minutes < 60,
        seconds < 60,
        thousandths < 1_000,
    ensures
        ({
            let shown = subtitles::timestamp(
                hours * 3_600_000 + minutes * 60_000 + seconds * 1_000 + thousandths,
            );
            let tail = text::zero_padded(text::decimal(minutes), 2) + seq![':'] + text::zero_padded(
                text::decimal(seconds),
                2,
            ) + seq!['.'] + text::zero_padded(text::decimal(thousandths), 3);
            &&& hours == 0 ==> shown == tail
            &&& hours > 0 ==> shown == text::zero_padded(text::decimal(hours), 2) + seq![':'] + tail
        }),
{
    reveal_strlit(":");
    reveal_strlit(".");
    assert(":"@ =~= seq![':']);
    assert("."@ =~= seq!['.']);
    let ms = hours * 3_600_000 + minutes * 60_000 + seconds * 1_000 + thousandths;
    assert(ms / 3_600_000 == hours);
    assert(ms / 60_000 == hours * 60 + minutes);
    assert(ms / 60_000 % 60 == minutes);
    assert(ms / 1_000 == hours * 3_600 + minutes * 60 + seconds);
    assert(ms / 1_000 % 60 == seconds);
    assert(ms % 1_000 == thousandths);
    let a = text::zero_padded(text::decimal(hours), 2);
    let b = text::zero_padded(text::decimal(minutes), 2);
    let c = text::zero_padded(text::decimal(seconds), 2);
    let d = text::zero_padded(text::decimal(thousandths), 3);
    let tail = b + seq![':'] + c + seq!['.'] + d;
    if hours == 0 {
        assert(subtitles::timestamp(ms) =~= tail);
    } else {
        assert(subtitles::timestamp(ms) =~= a + seq![':'] + tail);
    }
}

proof fn lemma_blocks_grow(before: Seq<Cue>, cue: Cue, from: int, numbered: bool, sign: char)
    requires
        0 <= from <= before.len(),
    ensures
        asr::cue_blocks(before.push(cue), from, numbered, sign) == asr::cue_blocks(
            before,
            from,
            numbered,
            sign,
        ) + ((if numbered {
            text::decimal(before.len() + 1) + "\n"@
        } else {
            Seq::empty()
        }) + asr::cue_block(cue, sign)),
    decreases before.len() - from,
{
    let all = before.push(cue);
    if from < before.len() {
        lemma_blocks_grow(before, cue, from + 1, numbered, sign);
        assert(all[from] == before[from]);
        let head = (if numbered {
            text::decimal((from + 1) as nat) + "\n"@
        } else {
            Seq::empty()
        }) + asr::cue_block(before[from], sign);
        let rest = asr::cue_blocks(before, from + 1, numbered, sign);
        let last = (if numbered {
            text::decimal(before.len() + 1) + "\n"@
        } else {
            Seq::empty()
        }) + asr::cue_block(cue, sign);
        assert(head + (rest + last) =~= (head + rest) + last);
    } else {
        assert(all[from] == cue);
        assert(asr::cue_blocks(all, from + 1, numbered, sign) =~= Seq::empty());
        let last = (if numbered {
            text::decimal(before.len() + 1) + "\n"@
        } else {
            Seq::empty()
        }) + asr::cue_block(cue, sign);
        assert(last + Seq::empty() =~= last);
        assert(Seq::empty() + last =~= last);
    }
}

/// A subtitle file with one more cue is the file before it and a block: in SRT its number, counted
/// from one, then its times, its text and an empty line.
pub proof fn a_file_grows_by_a_block(before: Seq<Cue>, cue: Cue)
    ensures
        asr::rendered(before.push(cue), SubtitleExportFormat::Srt) == asr::rendered(
            before,
            SubtitleExportFormat::Srt,
        ) + (text::decimal(before.len() + 1) + seq!['\n'] + asr::subtitle_time(cue.start_ms, ',')
            + " --> "@ + asr::subtitle_time(cue.end_ms, ',') + seq!['\n'] + cue.text + seq![
            '\n',
            '\n',
        ]),
        asr::rendered(before.push(cue), SubtitleExportFormat::WebVtt) == asr::rendered(
            before,
            SubtitleExportFormat::WebVtt,
        ) + (asr::subtitle_time(cue.start_ms, '.') + " --> "@ + asr::subtitle_time(cue.end_ms, '.')
            + seq!['\n'] + cue.text + seq!['\n', '\n']),
        asr::rendered(Seq::empty(), SubtitleExportFormat::Srt).len() == 0,
        asr::rendered(Seq::empty(), SubtitleExportFormat::WebVtt) == "WEBVTT\n\n"@,
{
    lemma_srt_grows(before, cue);
    lemma_vtt_grows(before, cue);
    assert("WEBVTT\n\n"@ + Seq::empty() =~= "WEBVTT\n\n"@);
}

proof fn lemma_breaks()
    ensures
        "\n"@ == seq!['\n'],
        "\n\n"@ == seq!['\n', '\n'],
{
    reveal_strlit("\n");
    reveal_strlit("\n\n");
    assert("\n"@ =~= seq!['\n']);
    assert("\n\n"@ =~= seq!['\n', '\n']);
}

proof fn lemma_srt_grows(before: Seq<Cue>, cue: Cue)
    ensures
        asr::rendered(before.push(cue), SubtitleExportFormat::Srt) == asr::rendered(
            before,
            SubtitleExportFormat::Srt,
        ) + (text::decimal(before.len() + 1) + seq!['\n'] + asr::subtitle_time(cue.start_ms, ',')
            + " --> "@ + asr::subtitle_time(cue.end_ms, ',') + seq!['\n'] + cue.text + seq![
            '\n',
            '\n',
        ]),
{
    lemma_breaks();
    lemma_blocks_grow(before, cue, 0, true, ',');
    lemma_behind(
        text::decimal(before.len() + 1) + seq!['\n'],
        asr::subtitle_time(cue.start_ms, ','),
        asr::subtitle_time(cue.end_ms, ','),
        cue.text,
    );
}

proof fn lemma_behind(number: Seq<char>, start: Seq<char>, end: Seq<char>, shown: Seq<char>)
    ensures
        number + (start + " --> "@ + end + seq!['\n'] + shown + seq!['\n', '\n']) == number + start
            + " --> "@ + end + seq!['\n'] + shown + seq!['\n', '\n'],
{
    assert(number + (start + " --> "@ + end + seq!['\n'] + shown + seq!['\n', '\n']) =~= number
        + start + " --> "@ + end + seq!['\n'] + shown + seq!['\n', '\n']);
}

proof fn lemma_vtt_grows(before: Seq<Cue>, cue: Cue)
    ensures
        asr::rendered(before.push(cue), SubtitleExportFormat::WebVtt) == asr::rendered(
            before,
            SubtitleExportFormat::WebVtt,
        ) + (asr::subtitle_time(cue.start_ms, '.') + " --> "@ + asr::subtitle_time(cue.end_ms, '.')
            + seq!['\n'] + cue.text + seq!['\n', '\n']),
{
    lemma_breaks();
    lemma_blocks_grow(before, cue, 0, false, '.');
    let blocks = asr::cue_blocks(before, 0, false, '.');
    let last = asr::cue_block(cue, '.');
    assert(Seq::empty() + last =~= last);
    assert("WEBVTT\n\n"@ + (blocks + last) =~= ("WEBVTT\n\n"@ + blocks) + last);
}

/// A lyric that nothing follows is shown for 0.9 seconds and 0.26 more for each character, but for at
/// least two seconds and at most eight.
pub proof fn a_lyric_is_shown_as_long_as_it_takes_to_read(length: nat)
    ensures
        2_000 <= subtitles::reading_ms(length) <= 8_000,
        2_000 <= length * 260 + 900 <= 8_000 ==> subtitles::reading_ms(length) == length * 260
            + 900,
        length * 260 + 900 > 8_000 ==> subtitles::reading_ms(length) == 8_000,
        length * 260 + 900 < 2_000 ==> subtitles::reading_ms(length) == 2_000,
{
}

} // verus!
