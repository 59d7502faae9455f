//! How SRT and WebVTT files are read, block by block, and how the format of a file is told.
use vstd::prelude::*;

use crate::file_names;
use crate::import_laws;
use crate::round_trip;
use crate::subtitles;
use crate::subtitles::{Cue, SubtitleFormat};
use crate::text;

verus! {

/// A line with nothing visible on it.
pub open spec fn is_blank(line: Seq<char>) -> bool {
    forall|k: int| 0 <= k < line.len() ==> text::is_space(#[trigger] line[k])
}

proof fn lemma_blank(line: Seq<char>)
    ensures
        is_blank(line) <==> text::trimmed(line).len() == 0,
{
    text::lemma_trimmed_visible(line);
    if is_blank(line) {
        if text::is_visible(line) {
            let k = choose|k: int| 0 <= k < line.len() && !text::is_space(#[trigger] line[k]);
            assert(text::is_space(line[k]));
        }
    } else {
        let k = choose|k: int| 0 <= k < line.len() && !text::is_space(#[trigger] line[k]);
        assert(text::is_visible(line));
    }
}

/// The lines from `from` up to `to` are a block: all of them are visible, and behind them stands a
/// blank line or none.
pub open spec fn is_block(lines: Seq<Seq<char>>, from: int, to: int) -> bool {
    &&& 0 <= from <= to <= lines.len()
    &&& forall|k: int| from <= k < to ==> !is_blank(#[trigger] lines[k])
    &&& to < lines.len() ==> is_blank(lines[to])
}

proof fn lemma_block(lines: Seq<Seq<char>>, from: int, to: int)
    requires
        is_block(lines, from, to),
    ensures
        subtitles::block_end(lines, from) == to,
    decreases to - from,
{
    if from < to {
        assert(!is_blank(lines[from]));
        lemma_blank(lines[from]);
        lemma_block(lines, from + 1, to);
    } else if to < lines.len() {
        lemma_blank(lines[to]);
    }
}

/// Plain lines with a space between two neighbours are plain.
proof fn lemma_joined_plain(parts: Seq<Seq<char>>)
    requires
        parts.len() > 0,
        forall|i: int| 0 <= i < parts.len() ==> import_laws::is_plain(#[trigger] parts[i]),
    ensures
        import_laws::is_plain(text::joined(parts, seq![' '])),
    decreases parts.len(),
{
    assert(import_laws::is_plain(parts[parts.len() - 1]));
    if parts.len() == 1 {
        assert(import_laws::is_plain(parts[0]));
    } else {
        let rest = parts.drop_last();
        assert forall|i: int| 0 <= i < rest.len() implies import_laws::is_plain(
            #[trigger] rest[i],
        ) by {
            assert(rest[i] == parts[i]);
        }
        lemma_joined_plain(rest);
        let a = text::joined(rest, seq![' ']);
        let b = parts.last();
        let all = a + seq![' '] + b;
        assert(text::joined(parts, seq![' ']) == all);
        lemma_two_plain(a, b);
    }
}

proof fn lemma_two_plain(a: Seq<char>, b: Seq<char>)
    requires
        import_laws::is_plain(a),
        import_laws::is_plain(b),
    ensures
        import_laws::is_plain(a + seq![' '] + b),
{
    let all = a + seq![' '] + b;
    assert(all[0] == a[0]);
    assert(all.last() == b.last());
    assert forall|i: int| 0 <= i < all.len() implies (#[trigger] all[i] == ' ' || !text::is_space(
        all[i],
    )) && all[i] != '<' && all[i] != '>' && all[i] != '{' && all[i] != '}' && all[i] != '\\'
        && all[i] != '&' by {
        if i < a.len() {
            assert(all[i] == a[i]);
        } else if i > a.len() {
            assert(all[i] == b[i - a.len() - 1]);
        }
    }
    assert forall|i: int| 0 <= i < all.len() - 1 && all[i] == ' ' implies #[trigger] all[i + 1]
        != ' ' by {
        if i + 1 < a.len() {
            assert(all[i] == a[i] && all[i + 1] == a[i + 1]);
        } else if i + 1 == a.len() {
            assert(all[i] == a[i]);
            assert(a.last() == a[i]);
        } else if i == a.len() {
            assert(all[i + 1] == b[0]);
        } else {
            assert(all[i] == b[i - a.len() - 1] && all[i + 1] == b[i - a.len() - 1 + 1]);
        }
    }
}

/// A timing line: two clocks with an arrow between them. Settings may stand behind the second one,
/// white space apart.
pub open spec fn is_timing_line(line: Seq<char>, left: Seq<char>, right: Seq<char>) -> bool {
    &&& line == left + "-->"@ + right
    &&& text::lacks(left, '-')
    &&& line.len() > 0
    &&& '0' <= line[0] <= '9'
    &&& text::trimmed(line) == line
    &&& text::words(right).len() > 0
}

/// A block of a timing line and lines of text is one cue: it has the times of the timing line,
/// whatever settings follow them, and all the lines of text, a space between two of them.
pub proof fn a_block_is_one_cue(
    lines: Seq<Seq<char>>,
    at: int,
    to: int,
    left: Seq<char>,
    right: Seq<char>,
    start_ms: u64,
    end_ms: u64,
)
    requires
        0 <= at < lines.len(),
        is_timing_line(lines[at], left, right),
        subtitles::clock(text::trimmed(left)) == Some(start_ms),
        subtitles::clock(text::words(right)[0]) == Some(end_ms),
        is_block(lines, at + 1, to),
        at + 1 < to,
        forall|k: int| at < k < to ==> import_laws::is_plain(#[trigger] lines[k]),
    ensures
        subtitles::timed_blocks(lines, at) == seq![
            Cue {
                start_ms,
                end_ms,
                text: text::joined(lines.subrange(at + 1, to), seq![' ']),
            },
        ] + subtitles::timed_blocks(lines, to),
{
    reveal_strlit("-->");
    let line = lines[at];
    lemma_block(lines, at + 1, to);
    round_trip::lemma_digit_opens_no_comment(line);
    round_trip::lemma_find_arrow(left, right);
    assert(line.take(left.len() as int) =~= left);
    assert(line.skip(left.len() as int + 3) =~= right);
    assert(subtitles::timing(line) == Some((start_ms, end_ms)));
    let texts = lines.subrange(at + 1, to);
    let block = subtitles::block(lines, at + 1, to);
    assert forall|i: int| 0 <= i < texts.len() implies import_laws::is_plain(
        #[trigger] texts[i],
    ) by {
        assert(texts[i] == lines[at + 1 + i]);
    }
    assert(block =~= texts) by {
        assert forall|i: int| 0 <= i < texts.len() implies #[trigger] block[i] == texts[i] by {
            assert(texts[i] == lines[at + 1 + i]);
            import_laws::plain_captions_are_kept(texts[i]);
        }
    }
    lemma_joined_plain(texts);
    import_laws::plain_captions_are_kept(text::joined(texts, seq![' ']));
}

/// A block that begins with `NOTE` is no cue, whatever stands in it, nor are style and region blocks.
pub proof fn comments_are_passed_over(lines: Seq<Seq<char>>, at: int, to: int)
    requires
        0 <= at < lines.len(),
        text::occurs_at(text::trimmed(lines[at]), "NOTE"@, 0) || text::trimmed(lines[at])
            == "STYLE"@ || text::trimmed(lines[at]) == "REGION"@,
        is_block(lines, at + 1, to),
    ensures
        subtitles::timed_blocks(lines, at) == subtitles::timed_blocks(lines, to),
{
    lemma_block(lines, at + 1, to);
}

/// Any other line without an arrow is passed over: a number, a heading, a blank line.
pub proof fn other_lines_are_passed_over(lines: Seq<Seq<char>>, at: int)
    requires
        0 <= at < lines.len(),
        !text::occurs(text::trimmed(lines[at]), "-->"@),
        !text::occurs_at(text::trimmed(lines[at]), "NOTE"@, 0),
        text::trimmed(lines[at]) != "STYLE"@,
        text::trimmed(lines[at]) != "REGION"@,
    ensures
        subtitles::timed_blocks(lines, at) == subtitles::timed_blocks(lines, at + 1),
{
    text::lemma_occurs_iff_found(text::trimmed(lines[at]), "-->"@);
}

proof fn lemma_replaced_front(front: Seq<char>, rest: Seq<char>, pattern: Seq<char>, to: Seq<char>)
    requires
        pattern.len() > 0,
        text::lacks(front, pattern[0]),
    ensures
        text::replaced(front + rest, pattern, to) == front + text::replaced(rest, pattern, to),
{
    let all = front + rest;
    let n = front.len() as int;
    text::lemma_find_from(rest, pattern, 0);
    text::lemma_find_from(all, pattern, 0);
    assert forall|i: int| 0 <= i < n implies !#[trigger] text::occurs_at(all, pattern, i) by {
        if text::occurs_at(all, pattern, i) {
            assert(all.subrange(i, i + pattern.len())[0] == all[i]);
            assert(all[i] == front[i]);
        }
    }
    assert forall|i: int| 0 <= i implies (#[trigger] text::occurs_at(rest, pattern, i)
        <==> text::occurs_at(all, pattern, n + i)) by {
        if i + pattern.len() <= rest.len() {
            assert(all.subrange(n + i, n + i + pattern.len()) =~= rest.subrange(
                i,
                i + pattern.len(),
            ));
        }
    }
    match text::find(rest, pattern) {
        None => {
            if let Some(at) = text::find(all, pattern) {
                assert(at >= n);
                assert(text::occurs_at(rest, pattern, at - n));
            }
        },
        Some(at) => {
            assert(text::occurs_at(all, pattern, n + at));
            assert forall|i: int| 0 <= i < n + at implies !#[trigger] text::occurs_at(
                all,
                pattern,
                i,
            ) by {
                if i >= n {
                    assert(text::occurs_at(rest, pattern, i - n) <==> text::occurs_at(
                        all,
                        pattern,
                        n + (i - n),
                    ));
                }
            }
            text::lemma_find_is(all, pattern, n + at);
            assert(all.take(n + at) =~= front + rest.take(at));
            assert(all.skip(n + at + pattern.len()) =~= rest.skip(at + pattern.len()));
            assert(text::replaced(all, pattern, to) =~= front + text::replaced(rest, pattern, to));
        },
    }
}

/// A line ends with a line feed or with a carriage return and a line feed: both give the same lines.
pub proof fn either_line_break_ends_a_line(line: Seq<char>, rest: Seq<char>)
    requires
        text::lacks(line, '\n'),
        text::lacks(line, '\r'),
    ensures
        text::lines_of(subtitles::unix_lines(line + seq!['\n'] + rest)) == seq![line]
            + text::lines_of(subtitles::unix_lines(rest)),
        text::lines_of(subtitles::unix_lines(line + seq!['\r', '\n'] + rest)) == seq![line]
            + text::lines_of(subtitles::unix_lines(rest)),
{
    reveal_strlit("\r\n");
    reveal_strlit("\r");
    reveal_strlit("\n");
    let both = "\r\n"@;
    let single = "\r"@;
    let feed = "\n"@;
    assert(feed =~= seq!['\n']);
    assert(both =~= seq!['\r', '\n']);
    let front = line + seq!['\n'];
    let x = text::replaced(rest, both, feed);
    assert(text::lacks(front, '\r'));
    // A line feed alone.
    assert(line + seq!['\n'] + rest =~= front + rest);
    lemma_replaced_front(front, rest, both, feed);
    lemma_replaced_front(front, x, single, feed);
    // Both.
    let tail = both + rest;
    assert(line + seq!['\r', '\n'] + rest =~= line + tail);
    lemma_replaced_front(line, tail, both, feed);
    assert(tail.subrange(0, 2) =~= both);
    text::lemma_find_is(tail, both, 0);
    assert(tail.take(0) =~= Seq::<char>::empty());
    assert(tail.skip(2) =~= rest);
    assert(text::replaced(tail, both, feed) =~= feed + x);
    assert(line + (feed + x) =~= front + x);
    let y = text::replaced(x, single, feed);
    assert(front + y =~= line + seq!['\n'] + y);
    round_trip::lemma_lines_cons(line, y);
}

/// The extension of a file decides its format, whatever the case of its letters and whatever the file
/// holds. A file named `.str` is read as SRT.
pub proof fn the_extension_decides(file_name: Seq<char>, content: Seq<char>, extension: Seq<char>)
    requires
        file_names::extension_of(file_name) == Some(extension),
    ensures
        ({
            let lower = text::ascii_lowered(extension);
            let format = subtitles::format_of(file_name, content);
            &&& lower == "srt"@ || lower == "str"@ ==> format == Some(SubtitleFormat::Srt)
            &&& lower == "vtt"@ ==> format == Some(SubtitleFormat::WebVtt)
            &&& lower == "ass"@ || lower == "ssa"@ ==> format == Some(SubtitleFormat::Ass)
            &&& lower == "lrc"@ ==> format == Some(SubtitleFormat::Lrc)
        }),
{
    reveal_strlit("srt");
    reveal_strlit("str");
    reveal_strlit("vtt");
    reveal_strlit("ass");
    reveal_strlit("ssa");
    reveal_strlit("lrc");
    assert("srt"@[0] == 's' && "str"@[0] == 's' && "vtt"@[0] == 'v' && "ass"@[0] == 'a'
        && "ssa"@[0] == 's' && "lrc"@[0] == 'l');
    assert("srt"@[1] == 'r' && "str"@[1] == 't' && "ssa"@[1] == 's');
}

/// A name with no extension leaves it to the content: a WebVTT heading, else an events section with
/// dialogue, else a lyric line, else an arrow; and without any of these the file is refused.
pub proof fn else_the_content_decides(file_name: Seq<char>, content: Seq<char>)
    requires
        file_names::extension_of(file_name) is None,
    ensures
        ({
            let heading = text::occurs_at(text::trimmed_start(content), "WEBVTT"@, 0);
            let events = text::occurs(content, "[Events]"@) && text::occurs(content, "Dialogue:"@);
            let lyric = exists|i: int|
                0 <= i < text::lines_of(content).len() && subtitles::lyric_line(
                    #[trigger] text::lines_of(content)[i],
                ) is Some;
            let arrow = text::occurs(content, "-->"@);
            let format = subtitles::format_of(file_name, content);
            &&& heading ==> format == Some(SubtitleFormat::WebVtt)
            &&& !heading && events ==> format == Some(SubtitleFormat::Ass)
            &&& !heading && !events && lyric ==> format == Some(SubtitleFormat::Lrc)
            &&& !heading && !events && !lyric && arrow ==> format == Some(SubtitleFormat::Srt)
            &&& !heading && !events && !lyric && !arrow ==> format is None
        }),
{
    reveal_strlit("srt");
    reveal_strlit("str");
    reveal_strlit("vtt");
    reveal_strlit("ass");
    reveal_strlit("ssa");
    reveal_strlit("lrc");
    let none = Seq::<char>::empty();
    assert(none.len() == 0);
}

/// Bytes without a byte order mark that are no UTF-8 are read as GBK, and refused where that does not
/// fit either.
pub proof fn other_bytes_are_read_as_gbk(bytes: Seq<u8>)
    requires
        !vstd::utf8::valid_utf8(bytes),
        bytes.len() >= 2 ==> !(bytes[0] == 0xFF && bytes[1] == 0xFE) && !(bytes[0] == 0xFE
            && bytes[1] == 0xFF),
        bytes.len() >= 3 ==> !(bytes[0] == 0xEF && bytes[1] == 0xBB && bytes[2] == 0xBF),
    ensures
        ({
            let (content, had_errors) = subtitles::gbk_decoded(bytes);
            &&& !had_errors ==> subtitles::file_text(bytes) == Ok::<Seq<char>, Seq<char>>(content)
            &&& had_errors ==> subtitles::file_text(bytes) is Err
        }),
{
    let utf8 = subtitles::utf8_mark();
    let le = subtitles::utf16_le_mark();
    let be = subtitles::utf16_be_mark();
    if subtitles::begins_with(bytes, utf8) {
        assert(bytes[0] == utf8[0] && bytes[1] == utf8[1] && bytes[2] == utf8[2]);
    }
    if subtitles::begins_with(bytes, le) {
        assert(bytes[0] == le[0] && bytes[1] == le[1]);
    }
    if subtitles::begins_with(bytes, be) {
        assert(bytes[0] == be[0] && bytes[1] == be[1]);
    }
}

/// A cue of a file that is shown at all is shown in the track that is imported, from its start on,
/// for as long at least, and with its text.
pub proof fn every_cue_of_a_file_is_imported(
    file_name: Seq<char>,
    content: Seq<char>,
    format: SubtitleFormat,
    i: int,
)
    requires
        subtitles::format_of(file_name, content) == Some(format),
        0 <= i < subtitles::raw_cues(format, content).len(),
        subtitles::is_shown(subtitles::raw_cues(format, content)[i]),
    ensures
        match subtitles::track_of(file_name, content) {
            Ok((found, cues)) => {
                &&& found == format
                &&& subtitles::is_kept(cues, subtitles::raw_cues(format, content)[i])
            },
            Err(_) => false,
        },
{
    subtitles::normalising_keeps_every_cue(subtitles::raw_cues(format, content), i);
}

/// Each format is read in its own way.
pub proof fn an_ass_file_gives_its_events(file_name: Seq<char>, cues: Seq<Cue>)
    requires
        import_laws::are_events(cues),
        cues.len() > 0,
        subtitles::is_normal(cues),
        file_names::extension_of(file_name) == Some("ass"@),
    ensures
        subtitles::track_of(
            file_name,
            "[Events]"@ + seq!['\n'] + import_laws::event_lines(cues),
        ) == Ok::<(SubtitleFormat, Seq<Cue>), Seq<char>>((SubtitleFormat::Ass, cues)),
{
    reveal_strlit("ass");
    assert(text::ascii_lowered("ass"@) =~= "ass"@);
    the_extension_decides(
        file_name,
        "[Events]"@ + seq!['\n'] + import_laws::event_lines(cues),
        "ass"@,
    );
    import_laws::written_events_are_read_back(cues, false);
    subtitles::normal_cues_stay_unchanged(cues);
}

} // verus!
