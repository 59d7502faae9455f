//! What the local engines are told and what is made of their models, by numbers and names.
use vstd::prelude::*;

use crate::indextts;
use crate::indextts::{Progress, Settings, SetupStep};
use crate::model_files;
use crate::model_files::{ModelDirSizes, Transfer};
use crate::qwen_local;
use crate::qwen_local::{QwenModelKind, QwenModelVersion};
use crate::text;

verus! {

/// The positions at which a character of a Chinese, Japanese or Korean script stands.
pub open spec fn script_places(s: Seq<char>) -> Set<int> {
    Set::new(
        |i: int|
            0 <= i < s.len() && {
                let c = s[i] as int;
                0x3400 <= c <= 0x4DBF || 0x4E00 <= c <= 0x9FFF || 0xF900 <= c <= 0xFAFF || 0x3040 <= c
                    <= 0x30FF || 0x31F0 <= c <= 0x31FF || 0x1100 <= c <= 0x11FF || 0x3130 <= c
                    <= 0x318F || 0xAC00 <= c <= 0xD7AF
            },
    )
}

/// A Latin letter or a digit.
pub open spec fn is_latin(c: char) -> bool {
    'a' <= c <= 'z' || 'A' <= c <= 'Z' || '0' <= c <= '9'
}

/// The positions at which a Latin word or a number begins.
pub open spec fn word_places(s: Seq<char>) -> Set<int> {
    Set::new(|i: int| 0 <= i < s.len() && is_latin(s[i]) && (i == 0 || !is_latin(s[i - 1])))
}

/// The positions of punctuation marks: those of ASCII and the common Chinese ones.
pub open spec fn pause_places(s: Seq<char>) -> Set<int> {
    Set::new(
        |i: int|
            0 <= i < s.len() && {
                let c = s[i] as int;
                0x21 <= c <= 0x2F || 0x3A <= c <= 0x40 || 0x5B <= c <= 0x60 || 0x7B <= c <= 0x7E || s[i]
                    == '，' || s[i] == '。' || s[i] == '！' || s[i] == '？' || s[i] == '；' || s[i] == '：'
                    || s[i] == '、' || s[i] == '…'
            },
    )
}

proof fn lemma_counts(s: Seq<char>)
    ensures
        script_places(s).finite() && script_places(s).len() == qwen_local::cjk_count(s),
        word_places(s).finite() && word_places(s).len() == qwen_local::latin_word_count(s),
        pause_places(s).finite() && pause_places(s).len() == qwen_local::pause_count(s),
    decreases s.len(),
{
    if s.len() == 0 {
        assert(script_places(s) =~= Set::empty());
        assert(word_places(s) =~= Set::empty());
        assert(pause_places(s) =~= Set::empty());
    } else {
        let rest = s.drop_last();
        let n = s.len() - 1;
        lemma_counts(rest);
        assert(forall|i: int| 0 <= i < n ==> #[trigger] rest[i] == s[i]);
        if script_places(s).contains(n) {
            assert(script_places(s) =~= script_places(rest).insert(n));
        } else {
            assert(script_places(s) =~= script_places(rest));
        }
        if word_places(s).contains(n) {
            assert(word_places(s) =~= word_places(rest).insert(n));
        } else {
            assert(word_places(s) =~= word_places(rest));
        }
        if pause_places(s).contains(n) {
            assert(pause_places(s) =~= pause_places(rest).insert(n));
        } else {
            assert(pause_places(s) =~= pause_places(rest));
        }
    }
}

/// Five frames are reserved for each character of a Chinese, Japanese or Korean script, ten for each
/// Latin word, two for each punctuation mark and 64 besides; at least 128 and at most 1,024.
pub proof fn frames_follow_what_is_spoken(s: Seq<char>)
    ensures
        ({
            let wanted = script_places(s).len() * 5 + word_places(s).len() * 10 + pause_places(
                s,
            ).len() * 2 + 64;
            let frames = qwen_local::frame_budget(s);
            &&& wanted <= 128 ==> frames == 128
            &&& 128 <= wanted <= 1_024 ==> frames == wanted
            &&& wanted >= 1_024 ==> frames == 1_024
        }),
{
    lemma_counts(s);
}

/// Whether a long text may be divided behind position `k` when the part has begun at the beginning of
/// the text: behind a sentence mark or a line break from the 40th character on, and behind the 260th
/// character in any case.
pub open spec fn divides_at(s: Seq<char>, k: int) -> bool {
    let c = s[k];
    (k >= 39 && (c == '。' || c == '！' || c == '？' || c == '；' || c == '.' || c == '!' || c == '?' || c
        == ';' || c == '\n')) || k >= 259
}

proof fn lemma_part_end_shift(s: Seq<char>, start: int, at: int)
    requires
        0 <= start <= at <= s.len(),
    ensures
        match qwen_local::part_end(s.skip(start), 0, at - start) {
            Some(end) => qwen_local::part_end(s, start, at) == Some(end + start),
            None => qwen_local::part_end(s, start, at) is None,
        },
    decreases s.len() - at,
{
    let rest = s.skip(start);
    if at < s.len() {
        assert(rest[at - start] == s[at]);
        if !qwen_local::part_ends(s[at], at + 1 - start) {
            lemma_part_end_shift(s, start, at + 1);
        }
    }
}

proof fn lemma_part_end_within(s: Seq<char>, start: int, at: int)
    ensures
        qwen_local::part_end(s, start, at) is Some ==> at < qwen_local::part_end(s, start, at)->0
            <= s.len(),
    decreases s.len() - at,
{
    if at < s.len() && !qwen_local::part_ends(s[at], at + 1 - start) {
        lemma_part_end_within(s, start, at + 1);
    }
}

proof fn lemma_parts_shift(s: Seq<char>, start: int)
    requires
        0 <= start <= s.len(),
    ensures
        qwen_local::parts_from(s, start) == qwen_local::parts_from(s.skip(start), 0),
    decreases s.len() - start,
{
    let rest = s.skip(start);
    lemma_part_end_shift(s, start, start);
    lemma_part_end_within(s, start, start);
    lemma_part_end_within(rest, 0, 0);
    assert(rest.skip(0) =~= rest);
    match qwen_local::part_end(s, start, start) {
        None => {},
        Some(end) => {
            lemma_parts_shift(s, end);
            lemma_parts_shift(rest, end - start);
            assert(rest.skip(end - start) =~= s.skip(end));
            assert(rest.subrange(0, end - start) =~= s.subrange(start, end));
        },
    }
}

proof fn lemma_part_at(s: Seq<char>, at: int, n: int)
    requires
        0 <= at <= n <= s.len(),
        forall|k: int| at <= k < n ==> !divides_at(s, k),
    ensures
        n < s.len() && divides_at(s, n) ==> qwen_local::part_end(s, 0, at) == Some(n + 1),
        n == s.len() ==> qwen_local::part_end(s, 0, at) is None,
    decreases n - at,
{
    if at < n {
        assert(!divides_at(s, at));
        lemma_part_at(s, at + 1, n);
    }
}

/// A long text is divided behind the first place at which it may be, and what follows is divided in
/// the same way.
pub proof fn a_long_text_is_divided_where_it_may_be(s: Seq<char>, n: int)
    requires
        0 < n <= s.len(),
        divides_at(s, n - 1),
        forall|k: int| 0 <= k < n - 1 ==> !divides_at(s, k),
        text::is_visible(s.take(n)),
    ensures
        qwen_local::parts_from(s, 0) == seq![text::trimmed(s.take(n))] + qwen_local::parts_from(
            s.skip(n),
            0,
        ),
{
    lemma_part_at(s, 0, n - 1);
    lemma_parts_shift(s, n);
    text::lemma_trimmed_visible(s.take(n));
    assert(s.subrange(0, n) =~= s.take(n));
}

/// A text in which there is no such place is spoken in one part.
pub proof fn a_short_text_is_spoken_at_once(s: Seq<char>)
    requires
        text::is_visible(s),
        forall|k: int| 0 <= k < text::trimmed(s).len() ==> !divides_at(text::trimmed(s), k),
    ensures
        qwen_local::synthesis_parts(s) == seq![text::trimmed(s)],
{
    let t = text::trimmed(s);
    lemma_part_at(t, 0, t.len() as int);
    text::lemma_trimmed_visible(s);
    text::lemma_trimmed_start(s);
    assert(t.skip(0) =~= t);
    lemma_trimmed_twice(s);
}

proof fn lemma_trimmed_twice(s: Seq<char>)
    ensures
        text::trimmed(text::trimmed(s)) == text::trimmed(s),
{
    let t = text::trimmed_start(s);
    text::lemma_trimmed_start(s);
    lemma_end_trimmed(t);
    let u = text::trimmed_end(t);
    if u.len() > 0 {
        text::lemma_trimmed_fixed(u);
    }
}

proof fn lemma_end_trimmed(t: Seq<char>)
    ensures
        text::trimmed_end(t).len() > 0 ==> text::trimmed_end(t)[0] == t[0] && !text::is_space(
            text::trimmed_end(t).last(),
        ),
    decreases t.len(),
{
    if t.len() > 0 && text::is_space(t.last()) {
        lemma_end_trimmed(t.drop_last());
    }
}

/// A model is accepted exactly when its configuration tells the selected kind and the width of the
/// selected version. Any other configuration is refused.
pub proof fn a_configuration_must_fit(
    found_type: Option<Seq<char>>,
    width: Option<u64>,
    version: QwenModelVersion,
    kind: QwenModelKind,
)
    ensures
        qwen_local::config_error(found_type, width, version, kind) is None <==> {
            &&& found_type == Some(
                match kind {
                    QwenModelKind::CustomVoice => "custom_voice"@,
                    QwenModelKind::VoiceClone => "base"@,
                },
            )
            &&& width == Some(
                match version {
                    QwenModelVersion::Small0_6B => 1024u64,
                    QwenModelVersion::Large1_7B => 2048u64,
                },
            )
        },
{
}

/// A model folder is complete exactly when the weights, the decoder and a tokenizer in one of its two
/// forms are there in full.
pub proof fn a_complete_folder_is_accepted(sizes: ModelDirSizes, version: QwenModelVersion)
    ensures
        model_files::files_error(sizes, version) is None <==> {
            &&& sizes.weights is Some && sizes.weights->0 >= (match version {
                QwenModelVersion::Small0_6B => 1_500_000_000u64,
                QwenModelVersion::Large1_7B => 3_500_000_000u64,
            })
            &&& sizes.decoder is Some && sizes.decoder->0 >= 500_000_000
            &&& (sizes.tokenizer is Some && sizes.tokenizer->0 >= 1_000_000) || (
            sizes.vocabulary is Some && sizes.vocabulary->0 >= 100_000 && sizes.merges is Some
                && sizes.merges->0 >= 100_000)
        },
{
}

/// A download that is resumed goes on from what is on the disk; one that is not begins anew. The
/// announced length is that of what is still to come.
pub proof fn a_download_begins_with_what_is_there(
    partial_content: bool,
    existing_bytes: u64,
    length: u64,
)
    requires
        existing_bytes + length <= u64::MAX,
    ensures
        ({
            let begun = model_files::started(partial_content, existing_bytes, Some(length));
            let unknown = model_files::started(partial_content, existing_bytes, None);
            &&& partial_content ==> begun.downloaded == existing_bytes && begun.total
                == existing_bytes + length
            &&& !partial_content ==> begun.downloaded == 0 && begun.total == length
            &&& unknown.total == 0
            &&& model_files::continues_part(partial_content, existing_bytes) <==> partial_content
                && existing_bytes > 0
        }),
{
}

/// A download is complete exactly when all that was announced has come and it is no smaller than the
/// file can be.
pub proof fn a_download_is_judged_by_its_size(transfer: Transfer, minimum_size: u64)
    ensures
        !model_files::transfer_failure(transfer, minimum_size) <==> transfer.downloaded
            >= minimum_size && (transfer.total == 0 || transfer.downloaded >= transfer.total),
{
}

/// Progress is reported after every eight megabytes and when all is there.
pub proof fn progress_is_reported_in_steps(transfer: Transfer, downloaded: u64)
    requires
        transfer.last_reported <= downloaded,
    ensures
        model_files::is_reported(transfer, downloaded) <==> downloaded - transfer.last_reported
            >= 8 * 1_024 * 1_024 || (transfer.total > 0 && downloaded >= transfer.total),
{
}

/// Settings inside of their ranges are left as they are. The ranges of the floats are written by
/// their bits: a half to two, nought to one, nought to two, a hundredth to one, a tenth to twenty,
/// and two below nought to two above.
pub proof fn settings_in_range_are_kept(settings: Settings)
    requires
        0x3FE0_0000_0000_0000 <= settings.duration_factor <= 0x4000_0000_0000_0000,
        settings.emo_alpha <= 0x3FF0_0000_0000_0000,
        settings.temperature <= 0x4000_0000_0000_0000,
        0x3F84_7AE1_47AE_147B <= settings.top_p <= 0x3FF0_0000_0000_0000,
        0x3FB9_9999_9999_999A <= settings.repetition_penalty <= 0x4034_0000_0000_0000,
        settings.length_penalty <= 0x4000_0000_0000_0000 || 0x8000_0000_0000_0000
            < settings.length_penalty <= 0xC000_0000_0000_0000,
        16 <= settings.max_text_tokens_per_segment <= 512,
        settings.interval_silence_ms <= 5_000,
        settings.emo_text.len() <= 500,
        1 <= settings.top_k <= 200,
        1 <= settings.num_beams <= 8,
        128 <= settings.max_mel_tokens <= 4_000,
    ensures
        indextts::valid_settings(settings) == settings,
{
}

/// A setting outside of its range goes to the nearer end of it, and the others are not touched by it.
pub proof fn settings_go_to_the_nearer_end(settings: Settings)
    ensures
        ({
            let valid = indextts::valid_settings(settings);
            &&& settings.max_text_tokens_per_segment < 16 ==> valid.max_text_tokens_per_segment == 16
            &&& settings.max_text_tokens_per_segment > 512 ==> valid.max_text_tokens_per_segment
                == 512
            &&& 16 <= settings.max_text_tokens_per_segment <= 512
                ==> valid.max_text_tokens_per_segment == settings.max_text_tokens_per_segment
            &&& settings.interval_silence_ms > 5_000 ==> valid.interval_silence_ms == 5_000
            &&& settings.interval_silence_ms <= 5_000 ==> valid.interval_silence_ms
                == settings.interval_silence_ms
            &&& settings.top_k < 1 ==> valid.top_k == 1
            &&& settings.top_k > 200 ==> valid.top_k == 200
            &&& 1 <= settings.top_k <= 200 ==> valid.top_k == settings.top_k
            &&& settings.num_beams < 1 ==> valid.num_beams == 1
            &&& settings.num_beams > 8 ==> valid.num_beams == 8
            &&& 1 <= settings.num_beams <= 8 ==> valid.num_beams == settings.num_beams
            &&& settings.max_mel_tokens < 128 ==> valid.max_mel_tokens == 128
            &&& settings.max_mel_tokens > 4_000 ==> valid.max_mel_tokens == 4_000
            &&& 128 <= settings.max_mel_tokens <= 4_000 ==> valid.max_mel_tokens
                == settings.max_mel_tokens
            &&& settings.emo_text.len() <= 500 ==> valid.emo_text == settings.emo_text
            &&& settings.emo_text.len() > 500 ==> valid.emo_text == settings.emo_text.take(500)
            &&& valid.text_normalization == settings.text_normalization
            &&& valid.use_random == settings.use_random
            &&& valid.use_emo_text == settings.use_emo_text
            &&& valid.do_sample == settings.do_sample
        }),
{
}

/// A float above its range goes to the upper end, a negative one to the lower end, and what is no
/// finite number becomes the usual value of the setting.
pub proof fn floats_go_to_the_nearer_end(settings: Settings, bits: u64)
    requires
        settings.duration_factor == bits,
        settings.emo_alpha == bits,
        settings.temperature == bits,
        settings.top_p == bits,
        settings.repetition_penalty == bits,
        settings.length_penalty == bits,
    ensures
        ({
            let valid = indextts::valid_settings(settings);
            let two = 0x4000_0000_0000_0000u64;
            let one = 0x3FF0_0000_0000_0000u64;
            let usual = 0x3FE9_9999_9999_999Au64;
            let below_nought = 0x8000_0000_0000_0000 < bits < 0xFFF0_0000_0000_0000;
            let no_number = bits % 0x8000_0000_0000_0000 >= 0x7FF0_0000_0000_0000;
            let above = |limit: u64| limit < bits < 0x7FF0_0000_0000_0000;
            &&& above(two) ==> valid.duration_factor == two && valid.temperature == two
                && valid.length_penalty == two
            &&& above(one) ==> valid.emo_alpha == one && valid.top_p == one
            &&& above(0x4034_0000_0000_0000) ==> valid.repetition_penalty == 0x4034_0000_0000_0000
            &&& bits < 0x3FE0_0000_0000_0000 ==> valid.duration_factor == 0x3FE0_0000_0000_0000
            &&& bits < 0x3F84_7AE1_47AE_147B ==> valid.top_p == 0x3F84_7AE1_47AE_147B
            &&& bits < 0x3FB9_9999_9999_999A ==> valid.repetition_penalty == 0x3FB9_9999_9999_999A
            &&& below_nought ==> valid.duration_factor == 0x3FE0_0000_0000_0000 && valid.emo_alpha
                == 0 && valid.temperature == 0 && valid.top_p == 0x3F84_7AE1_47AE_147B
                && valid.repetition_penalty == 0x3FB9_9999_9999_999A
            &&& 0xC000_0000_0000_0000 < bits < 0xFFF0_0000_0000_0000 ==> valid.length_penalty
                == 0xC000_0000_0000_0000
            &&& no_number ==> valid.duration_factor == one && valid.emo_alpha == one
                && valid.temperature == usual && valid.top_p == usual && valid.repetition_penalty
                == 0x4024_0000_0000_0000 && valid.length_penalty == 0
        }),
{
}

/// A number that is clamped goes to the nearer end of its range when it lies outside; inside it is
/// kept; and what is no finite number becomes the fallback.
pub proof fn numbers_are_clamped(value: u64, least: u64, most: u64, fallback: u64)
    requires
        indextts::double_order(least) <= indextts::double_order(most),
    ensures
        ({
            let clamped = indextts::clamped_bits(value, least, most, fallback);
            let finite = value % 0x8000_0000_0000_0000 < 0x7FF0_0000_0000_0000;
            &&& !finite ==> clamped == fallback
            &&& finite && indextts::double_order(value) < indextts::double_order(least) ==> clamped
                == least
            &&& finite && indextts::double_order(value) > indextts::double_order(most) ==> clamped
                == most
            &&& finite && indextts::double_order(least) <= indextts::double_order(value)
                <= indextts::double_order(most) ==> clamped == value
        }),
{
}

/// The bits of two floats of the same sign order as the floats do, and a negative one comes before a
/// positive one.
pub proof fn floats_are_ordered_by_their_bits(a: u64, b: u64)
    requires
        a < b,
    ensures
        b < 0x8000_0000_0000_0000 ==> indextts::double_order(a) < indextts::double_order(b),
        a >= 0x8000_0000_0000_0000 ==> indextts::double_order(b) < indextts::double_order(a),
        a < 0x8000_0000_0000_0000 && b > 0x8000_0000_0000_0000 ==> indextts::double_order(b)
            < indextts::double_order(a),
{
}

/// A progress line of the download is read back: the phase and, where there is a total, how much of
/// it has come.
pub proof fn download_progress_is_read_back(phase: Seq<char>, done: u64, total: u64)
    requires
        text::lacks(phase, '\t'),
    ensures
        ({
            let line = "AURA_MODEL_PROGRESS\t"@ + phase + seq!['\t'] + text::decimal(done as nat)
                + seq!['\t'] + text::decimal(total as nat);
            &&& total > 0 ==> indextts::model_progress(line) == Some(
                Progress::ModelDownload { phase, downloaded_bytes: done, total_bytes: total },
            )
            &&& total == 0 ==> indextts::model_progress(line) == Some(Progress::Phase(phase))
        }),
{
    let mark = "AURA_MODEL_PROGRESS\t"@;
    let a = text::decimal(done as nat);
    let b = text::decimal(total as nat);
    let tail = a + seq!['\t'] + b;
    let rest = phase + seq!['\t'] + tail;
    let line = mark + phase + seq!['\t'] + a + seq!['\t'] + b;
    assert(line =~= mark + rest);
    assert(line.subrange(0, mark.len() as int) =~= mark);
    assert(line.skip(mark.len() as int) =~= rest);
    lemma_decimal_number(done);
    lemma_decimal_number(total);
    text::lemma_digits_lack(a, '\t');
    text::lemma_digits_lack(b, '\t');
    text::lemma_pieces_single(b, '\t');
    text::lemma_pieces_cons(a, '\t', b);
    text::lemma_pieces_cons(phase, '\t', tail);
    let fields = text::pieces(rest, '\t');
    assert(fields =~= seq![phase, a, b]);
}

/// A progress line of the synthesis is read back.
pub proof fn synthesis_progress_is_read_back(current: usize, total: usize)
    ensures
        indextts::inference_progress(
            "AURA_INFERENCE_PROGRESS\t"@ + text::decimal(current as nat) + seq!['\t']
                + text::decimal(total as nat),
        ) == Some(Progress::Inference { current, total }),
{
    reveal_strlit("AURA_INFERENCE_PROGRESS\t");
    reveal_strlit("AURA_INFERENCE\t");
    let mark = "AURA_INFERENCE_PROGRESS\t"@;
    let a = text::decimal(current as nat);
    let b = text::decimal(total as nat);
    let rest = a + seq!['\t'] + b;
    let line = mark + a + seq!['\t'] + b;
    assert(line =~= mark + rest);
    assert(line.subrange(0, mark.len() as int) =~= mark);
    assert(line.skip(mark.len() as int) =~= rest);
    if text::occurs_at(line, "AURA_INFERENCE\t"@, 0) {
        assert(line.subrange(0, 15)[14] == line[14]);
        assert("AURA_INFERENCE\t"@[14] == '\t');
        assert(mark[14] == '_');
    }
    lemma_decimal_number(current as u64);
    lemma_decimal_number(total as u64);
    text::lemma_digits_lack(a, '\t');
    text::lemma_digits_lack(b, '\t');
    text::lemma_pieces_single(b, '\t');
    text::lemma_pieces_cons(a, '\t', b);
    assert(text::pieces(rest, '\t') =~= seq![a, b]);
}

proof fn lemma_decimal_number(n: u64)
    ensures
        text::number(text::decimal(n as nat)) == Some(n),
        text::all_digits(text::decimal(n as nat)),
{
    text::lemma_padded_number(n as nat, 0);
    assert(text::zero_padded(text::decimal(n as nat), 0) =~= text::decimal(n as nat));
}

/// Of the lines of a command the last twelve are kept, in their order.
pub proof fn the_last_twelve_lines_are_kept(texts: Seq<Seq<char>>)
    ensures
        ({
            let kept = indextts::last_texts(texts, indextts::TAIL_LINES as int);
            &&& texts.len() <= 12 ==> kept == texts
            &&& texts.len() > 12 ==> kept.len() == 12 && forall|i: int|
                0 <= i < 12 ==> #[trigger] kept[i] == texts[texts.len() - 12 + i]
        }),
{
}

/// What has come of a download is counted, as far as 64 bits hold it.
pub proof fn received_bytes_are_counted(transfer: Transfer, bytes: usize)
    requires
        transfer.downloaded + bytes <= u64::MAX,
    ensures
        model_files::received(transfer, bytes) == transfer.downloaded + bytes,
{
}

/// The engine is set up in order, and only what is missing is done. The revision of the source is
/// verified before anything is built from it, every time.
pub proof fn setup_does_what_is_missing(
    source_present: bool,
    python_installed: bool,
    marker_written: bool,
    model_ready: bool,
)
    ensures
        ({
            let steps = indextts::needed_steps(
                source_present,
                python_installed,
                marker_written,
                model_ready,
            );
            &&& steps.contains(SetupStep::FetchSource) <==> !source_present
            &&& steps.contains(SetupStep::BuildEnvironment) <==> !(python_installed
                && marker_written)
            &&& steps.contains(SetupStep::DownloadModel) <==> !model_ready
            &&& steps[if source_present {
                0
            } else {
                1int
            }] == SetupStep::VerifyRevision
            &&& forall|i: int, j: int|
                0 <= i < j < steps.len() ==> rank(#[trigger] steps[i]) < rank(#[trigger] steps[j])
        }),
{
    let steps = indextts::needed_steps(
        source_present,
        python_installed,
        marker_written,
        model_ready,
    );
    let at = if source_present {
        0
    } else {
        1int
    };
    assert(steps[at] == SetupStep::VerifyRevision);
    if !source_present {
        assert(steps[0] == SetupStep::FetchSource);
    }
    let build = !(python_installed && marker_written);
    if build {
        assert(steps[at + 1] == SetupStep::BuildEnvironment);
    }
    if !model_ready {
        assert(steps[steps.len() - 1] == SetupStep::DownloadModel);
    }
}

/// The place of a step in the setup.
pub open spec fn rank(step: SetupStep) -> int {
    match step {
        SetupStep::FetchSource => 0,
        SetupStep::VerifyRevision => 1,
        SetupStep::BuildEnvironment => 2,
        SetupStep::DownloadModel => 3,
    }
}

/// An import is never told to have copied more than there is, and else exactly what was copied.
pub proof fn imported_bytes_add_up(copied: u64, file_bytes: u64, total: u64)
    ensures
        copied + file_bytes <= total ==> indextts::imported(copied, file_bytes, total) == copied
            + file_bytes,
        copied + file_bytes > total ==> indextts::imported(copied, file_bytes, total) == total,
{
}

/// A file of the model is reported missing when it is not there in full, by its name, and a model of
/// which nothing is reported missing is there in full.
pub proof fn missing_files_are_named(sizes: Seq<Option<u64>>, i: int)
    requires
        sizes.len() == indextts::model_files().len(),
        0 <= i < sizes.len(),
    ensures
        ({
            let file = indextts::model_files()[i];
            let missing = indextts::missing_model_files(sizes);
            &&& sizes[i] is None || sizes[i]->0 < file.1 ==> missing.contains(file.0)
            &&& missing.len() == 0 <==> forall|k: int|
                #![trigger sizes[k]]
                0 <= k < sizes.len() ==> sizes[k] is Some && sizes[k]->0
                    >= indextts::model_files()[k].1
        }),
{
    let files = indextts::model_files();
    let missing = indextts::missing_files(files, sizes, files.len() as int);
    assert forall|k: int|
        #![trigger sizes[k]]
        0 <= k < sizes.len() && (sizes[k] is None || sizes[k]->0
            < files[k].1) implies missing.contains(files[k].0) && missing.len() > 0 by {
        lemma_missing(files, sizes, sizes.len() as int, k);
    }
    if forall|k: int|
        #![trigger sizes[k]]
        0 <= k < sizes.len() ==> sizes[k] is Some && sizes[k]->0 >= files[k].1 {
        lemma_nothing_missing(files, sizes, files.len() as int);
    }
}

proof fn lemma_nothing_missing(files: Seq<(Seq<char>, u64)>, sizes: Seq<Option<u64>>, n: int)
    requires
        0 <= n <= files.len(),
        n <= sizes.len(),
        forall|k: int|
            #![trigger sizes[k]]
            0 <= k < sizes.len() ==> sizes[k] is Some && sizes[k]->0 >= files[k].1,
    ensures
        indextts::missing_files(files, sizes, n).len() == 0,
    decreases n,
{
    if n > 0 {
        lemma_nothing_missing(files, sizes, n - 1);
    }
}

proof fn lemma_missing(files: Seq<(Seq<char>, u64)>, sizes: Seq<Option<u64>>, n: int, i: int)
    requires
        0 <= i < n <= files.len(),
        n <= sizes.len(),
        sizes[i] is None || sizes[i]->0 < files[i].1,
    ensures
        indextts::missing_files(files, sizes, n).contains(files[i].0),
    decreases n,
{
    let before = indextts::missing_files(files, sizes, n - 1);
    let all = indextts::missing_files(files, sizes, n);
    if i == n - 1 {
        assert(all[before.len() as int] == files[i].0);
    } else {
        lemma_missing(files, sizes, n - 1, i);
        let k = choose|k: int| 0 <= k < before.len() && before[k] == files[i].0;
        assert(all[k] == files[i].0);
    }
}

} // verus!
