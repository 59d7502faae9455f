//! What becomes of downloads, model files, helper commands and recordings.
use vstd::prelude::*;

use crate::display_laws;
use crate::download_control;
use crate::download_control::{DownloadControl, DownloadState, ProcessSignal, UnixSignal};
use crate::indextts;
use crate::labels;
use crate::media_decoding;
use crate::model_files;
use crate::model_files::ModelDirSizes;
use crate::qwen_local;
use crate::qwen_local::{QwenModelKind, QwenModelVersion, QwenSynthesisLanguage, QwenVoice};
use crate::studio::State;
use crate::subtitle_pipeline;
use crate::text;

verus! {

/// A running download can be paused, a paused one resumed, and both cancelled. The helper process is
/// told each time, and a worker that waits is woken whenever it has not to wait any longer.
pub proof fn a_download_follows_its_user(state: DownloadState, process: u32)
    ensures
        ({
            let control = DownloadControl { state, process_id: Some(process) };
            let pause = download_control::paused(control);
            let resume = download_control::resumed(control);
            let cancel = download_control::cancelled(control);
            &&& pause.1.accepted <==> state == DownloadState::Running
            &&& resume.1.accepted <==> state == DownloadState::Paused
            &&& cancel.1.accepted <==> state == DownloadState::Running || state
                == DownloadState::Paused
            &&& pause.1.accepted ==> pause.0.state == DownloadState::Paused && pause.1.signal
                == Some((process, ProcessSignal::Pause))
            &&& resume.1.accepted ==> resume.0.state == DownloadState::Running && resume.1.signal
                == Some((process, ProcessSignal::Resume)) && resume.1.wake
            &&& cancel.1.accepted ==> cancel.0.state == DownloadState::Cancelled && cancel.1.signal
                == Some((process, ProcessSignal::Cancel)) && cancel.1.wake
            &&& pause.0.process_id == Some(process) && resume.0.process_id == Some(process)
                && cancel.0.process_id == Some(process)
        }),
{
}

/// Without a helper process nothing is signalled, and the download is told all the same.
pub proof fn a_download_needs_no_process(state: DownloadState)
    ensures
        ({
            let control = DownloadControl { state, process_id: None };
            &&& download_control::paused(control).1.signal is None
            &&& download_control::resumed(control).1.signal is None
            &&& download_control::cancelled(control).1.signal is None
            &&& state == DownloadState::Running ==> download_control::paused(control).0.state
                == DownloadState::Paused
            &&& state == DownloadState::Paused ==> download_control::resumed(control).0.state
                == DownloadState::Running
        }),
{
}

/// A process that is cancelled is terminated in the end, and goes on before that, so that one that was
/// stopped can act on it.
pub proof fn a_stopped_process_can_be_terminated()
    ensures
        ({
            let signals = download_control::unix_signals(ProcessSignal::Cancel);
            &&& signals.len() > 0 && signals.last() == UnixSignal::Terminate
            &&& signals[0] == UnixSignal::Continue
            &&& download_control::unix_signals(ProcessSignal::Pause) == seq![UnixSignal::Stop]
            &&& download_control::unix_signals(ProcessSignal::Resume) == seq![UnixSignal::Continue]
        }),
{
}

/// The size of two lists of files is the sum of their sizes, as far as 64 bits hold it. A file that
/// is there counts by its size, and one that is not by nothing.
pub proof fn sizes_add_up(first: Seq<Option<u64>>, second: Seq<Option<u64>>, size: u64)
    requires
        indextts::total_size(first) + indextts::total_size(second) < u64::MAX,
    ensures
        indextts::total_size(first + second) == indextts::total_size(first) + indextts::total_size(
            second,
        ),
        indextts::total_size(seq![Some(size)]) == size,
        indextts::total_size(seq![None]) == 0,
    decreases second.len(),
{
    reveal_with_fuel(indextts::total_size, 2);
    assert(seq![Some(size)].drop_last() =~= Seq::<Option<u64>>::empty());
    assert(seq![None::<u64>].drop_last() =~= Seq::<Option<u64>>::empty());
    if second.len() == 0 {
        assert(first + second =~= first);
    } else {
        let rest = second.drop_last();
        assert((first + second).drop_last() =~= first + rest);
        assert((first + second).last() == second.last());
        sizes_add_up(first, rest, size);
    }
}

/// A model directory into which every file of the model was fetched in full, each under its name,
/// misses nothing.
pub proof fn a_fetched_model_is_complete(
    sizes: ModelDirSizes,
    version: QwenModelVersion,
    kind: QwenModelKind,
)
    requires
        forall|i: int|
            #![trigger model_files::file_entries(version, kind)[i]]
            0 <= i < model_files::file_entries(version, kind).len() ==> {
                let entry = model_files::file_entries(version, kind)[i];
                &&& entry.local_path == "model.safetensors"@ ==> sizes.weights is Some
                    && sizes.weights->0 >= entry.minimum_size
                &&& entry.local_path == "speech_tokenizer/model.safetensors"@ ==> sizes.decoder is Some
                    && sizes.decoder->0 >= entry.minimum_size
                &&& entry.local_path == "tokenizer.json"@ ==> sizes.tokenizer is Some
                    && sizes.tokenizer->0 >= entry.minimum_size
            },
    ensures
        model_files::files_error(sizes, version) is None,
{
    let entries = model_files::file_entries(version, kind);
    assert(entries[0].local_path == "model.safetensors"@);
    assert(entries[2].local_path == "speech_tokenizer/model.safetensors"@);
    assert(entries[3].local_path == "tokenizer.json"@);
}

/// The decoder and the tokenizer are the same for every model; the weights and the configuration
/// come from a place of their own.
pub proof fn models_share_what_they_can(
    version: QwenModelVersion,
    kind: QwenModelKind,
    other_version: QwenModelVersion,
    other_kind: QwenModelKind,
)
    ensures
        ({
            let a = model_files::file_entries(version, kind);
            let b = model_files::file_entries(other_version, other_kind);
            &&& a.len() == 4 && b.len() == 4
            &&& a[2] == b[2]
            &&& a[3] == b[3]
            &&& a[0].repository == a[1].repository
            &&& a[0].repository == qwen_local::model_repository(version, kind)
        }),
{
}

/// A cancelled command is told as a cancelled download. Else one that succeeded is no error, and one
/// that failed is told with its status and its last lines.
pub proof fn a_command_is_judged_by_its_end(
    succeeded: bool,
    status: Seq<char>,
    lines: Seq<Seq<char>>,
)
    ensures
        ({
            let cancelled = indextts::command_error(true, succeeded, status, lines);
            let ended = indextts::command_error(false, succeeded, status, lines);
            &&& cancelled is Some && download_control::tells_cancelled(cancelled->0)
            &&& succeeded <==> ended is None
            &&& !succeeded ==> text::occurs(ended->0, status) && text::occurs(
                ended->0,
                text::joined(lines, seq!['\n']),
            )
        }),
{
    reveal_strlit("\n");
    assert("\n"@ =~= seq!['\n']);
    let message = download_control::DOWNLOAD_CANCELLED_ERROR@;
    assert(message.subrange(0, message.len() as int) =~= message);
    assert(text::occurs_at(message, message, 0));
    if !succeeded {
        let head = "IndexTTS 命令执行失败（"@;
        let middle = "）："@;
        let tail = text::joined(lines, "\n"@);
        let error = head + status + middle + tail;
        let at = head.len() as int;
        assert(error.subrange(at, at + status.len()) =~= status);
        assert(text::occurs_at(error, status, at));
        let behind = (head + status + middle).len() as int;
        assert(error.subrange(behind, behind + tail.len()) =~= tail);
        assert(text::occurs_at(error, tail, behind));
    }
}

/// A synthesis starts exactly when there is something to speak, the model is ready and the recording
/// is there.
pub proof fn a_synthesis_needs_all_of_it(count: nat, ready: bool, reference_present: bool)
    ensures
        indextts::batch_error(count, ready, reference_present) is None <==> count > 0 && ready
            && reference_present,
{
}

/// No two segments share a file.
pub proof fn segments_have_files_of_their_own(i: u64, j: u64)
    requires
        i != j,
    ensures
        indextts::segment_file(i as nat) != indextts::segment_file(j as nat),
{
    let ending = ".wav"@;
    let a = text::zero_padded(text::decimal(i as nat), 5);
    let b = text::zero_padded(text::decimal(j as nat), 5);
    text::lemma_padded_number(i as nat, 5);
    text::lemma_padded_number(j as nat, 5);
    if a + ending == b + ending {
        assert((a + ending).len() == (b + ending).len());
        assert((a + ending).take(a.len() as int) =~= a);
        assert((b + ending).take(b.len() as int) =~= b);
        assert(a == b);
    }
}

/// A percentage is told with its sign: plus from nought on, minus below.
pub proof fn a_percentage_has_its_sign(percent: nat)
    ensures
        subtitle_pipeline::signed_percent_text(percent as int) == seq!['+'] + text::decimal(percent)
            + seq!['%'],
        percent > 0 ==> subtitle_pipeline::signed_percent_text(-(percent as int)) == seq!['-']
            + text::decimal(percent) + seq!['%'],
{
    reveal_strlit("+");
    reveal_strlit("-");
    reveal_strlit("%");
    assert("+"@ =~= seq!['+']);
    assert("-"@ =~= seq!['-']);
    assert("%"@ =~= seq!['%']);
}

/// A search among the voices of the model finds exactly those in whose name or description, in
/// either language, it stands, whatever the case.
pub proof fn a_voice_of_the_model_is_found(voice: QwenVoice, filter: Seq<char>)
    requires
        text::is_visible(filter),
    ensures
        ({
            let wanted = text::lowercased(text::trimmed(filter));
            qwen_local::voice_found(voice, filter) <==> text::occurs(
                text::lowercased(qwen_local::voice_id(voice)),
                wanted,
            ) || text::occurs(text::lowercased(qwen_local::voice_chinese_label(voice)), wanted)
                || text::occurs(text::lowercased(qwen_local::voice_english_label(voice)), wanted)
        }),
{
    text::lemma_trimmed_visible(filter);
    let wanted = text::lowercased(text::trimmed(filter));
    if wanted.len() == 0 {
        let id = text::lowercased(qwen_local::voice_id(voice));
        assert(id.subrange(0, 0) =~= wanted);
        assert(text::occurs_at(id, wanted, 0));
    }
}

/// Ono Anna speaks Japanese, Sohee Korean, Ryan and Aiden English, and the other voices Chinese.
pub proof fn voices_have_their_language(voice: QwenVoice)
    ensures
        qwen_local::native_language(voice) == QwenSynthesisLanguage::Japanese <==> voice
            == QwenVoice::OnoAnna,
        qwen_local::native_language(voice) == QwenSynthesisLanguage::Korean <==> voice
            == QwenVoice::Sohee,
        qwen_local::native_language(voice) == QwenSynthesisLanguage::English <==> voice
            == QwenVoice::Ryan || voice == QwenVoice::Aiden,
{
}

/// The track that is read is the first one that has a sample rate; tracks without one are passed
/// over.
pub proof fn the_first_sounding_track_is_read(rates: Seq<Option<u32>>, i: int)
    requires
        0 <= i <= rates.len(),
        forall|k: int| 0 <= k < i ==> #[trigger] rates[k] is None,
    ensures
        i < rates.len() && rates[i] is Some ==> media_decoding::first_audio(rates, 0) == Some(i),
        i == rates.len() ==> media_decoding::first_audio(rates, 0) is None,
{
    lemma_first_audio(rates, i, 0);
}

proof fn lemma_first_audio(rates: Seq<Option<u32>>, i: int, from: int)
    requires
        0 <= from <= i <= rates.len(),
        forall|k: int| 0 <= k < i ==> #[trigger] rates[k] is None,
    ensures
        i < rates.len() && rates[i] is Some ==> media_decoding::first_audio(rates, from) == Some(i),
        i == rates.len() ==> media_decoding::first_audio(rates, from) is None,
    decreases i - from,
{
    if from < i {
        lemma_first_audio(rates, i, from + 1);
    }
}

/// A recording is read as MP3 exactly when its extension says so, in any case.
pub proof fn an_mp3_is_told_by_its_extension(stem: Seq<char>, extension: Seq<char>)
    requires
        stem.len() > 0,
        extension.len() > 0,
        text::lacks(extension, '.'),
    ensures
        media_decoding::named_mp3(stem + seq!['.'] + extension) <==> text::ascii_lowered(extension)
            == text::ascii_lowered("mp3"@),
{
    display_laws::a_name_is_taken_apart(stem, extension);
}

/// While a segment is spoken, those before it are done.
pub proof fn done_are_the_segments_before(s: State, current: usize, total: usize)
    requires
        0 < current <= total,
        s.subtitle_progress == Some((current, total)),
    ensures
        labels::generation_done(s) == Some(((current - 1) as u64, total as u64)),
{
}

} // verus!
