//! What the worker decides between the steps of its work: which models it keeps and which it lets
//! go, how the parts of a speech follow one another and what it tells of what came back.
use vstd::prelude::*;

use crate::asr;
use crate::asr::RecognitionLanguage;
use crate::qwen_local;
use crate::qwen_local::{QwenModelKind, QwenModelVersion};
use crate::requests::{VoiceSelection, WorkerCommand};
use crate::subtitles::SubtitleCue;
use crate::text;
use crate::timeline_audio;

verus! {

/// What makes a cloned voice reusable: the model, the recording, what is said in it, and the size
/// and age of its file.
#[derive(Debug)]
pub struct ClonePromptKey {
    pub version: QwenModelVersion,
    pub reference_path: String,
    pub reference_text: String,
    pub file_len: u64,
    pub modified_nanos: u128,
}

/// The content of `ClonePromptKey`.
#[verifier::ext_equal]
pub struct PromptKey {
    pub version: QwenModelVersion,
    pub reference_path: Seq<char>,
    pub reference_text: Seq<char>,
    pub file_len: u64,
    pub modified_nanos: u128,
}

impl View for ClonePromptKey {
    type V = PromptKey;

    open spec fn view(&self) -> PromptKey {
        PromptKey {
            version: self.version,
            reference_path: self.reference_path@,
            reference_text: self.reference_text@,
            file_len: self.file_len,
            modified_nanos: self.modified_nanos,
        }
    }
}

impl ClonePromptKey {
    /// Whether two keys are the same.
    pub fn same(&self, other: &ClonePromptKey) -> (same: bool)
        ensures
            same == (self@ == other@),
    {
        let path = text::chars_of(self.reference_path.as_str());
        let said = text::chars_of(self.reference_text.as_str());
        let same = self.version == other.version && text::same_text(
            path.as_slice(),
            other.reference_path.as_str(),
        ) && text::same_text(said.as_slice(), other.reference_text.as_str()) && self.file_len
            == other.file_len && self.modified_nanos == other.modified_nanos;
        assert(same ==> self@ =~= other@);
        same
    }
}

/// What is told to a model that clones a voice of what is said in the recording: nothing when
/// nothing is known of it.
pub fn told_reference_text(reference_text: &str) -> (told: Option<String>)
    ensures
        qwen_local::optional_text(told) == (if text::trimmed(reference_text@).len() == 0 {
            None
        } else {
            Some(text::trimmed(reference_text@))
        }),
{
    let chars = text::chars_of(reference_text);
    let trimmed = text::trim(chars.as_slice());
    if trimmed.len() == 0 {
        None
    } else {
        Some(text::string_of(trimmed))
    }
}

/// The models that the worker holds in memory.
#[derive(Debug)]
pub struct Resident {
    /// The recognition model, by the language that it was loaded for.
    pub whisper: Option<RecognitionLanguage>,
    /// The Qwen3 model.
    pub qwen: Option<(QwenModelVersion, QwenModelKind)>,
    /// The cloned voice that was made last.
    pub prompt: Option<ClonePromptKey>,
}

/// The content of `Resident`.
#[verifier::ext_equal]
pub struct Models {
    pub whisper: Option<RecognitionLanguage>,
    pub qwen: Option<(QwenModelVersion, QwenModelKind)>,
    pub prompt: Option<PromptKey>,
}

impl View for Resident {
    type V = Models;

    open spec fn view(&self) -> Models {
        Models {
            whisper: self.whisper,
            qwen: self.qwen,
            prompt: match self.prompt {
                Some(key) => Some(key@),
                None => None,
            },
        }
    }
}

/// The work that a command asks for, as far as it decides what is kept in memory.
#[derive(Clone, Copy, Debug, PartialEq, Eq, Structural)]
pub enum Task {
    /// Work that needs no model: the online service and files.
    Online,
    /// Speaking with a voice of the Qwen3 model, or making that model ready.
    Qwen3Preset,
    /// Speaking with a cloned voice of the Qwen3 model.
    Qwen3Clone,
    /// Taking a Qwen3 model in from a folder.
    ImportQwen3,
    /// Fetching a Qwen3 model again.
    RedownloadQwen3,
    /// Any work of the IndexTTS engine, which runs in a process of its own.
    IndexTts25,
    /// Recognising a recording.
    Transcribe,
}

/// The work of speaking with a voice.
pub open spec fn work_of_voice(voice: VoiceSelection) -> Task {
    match voice {
        VoiceSelection::Edge(_) => Task::Online,
        VoiceSelection::Qwen3Preset { .. } => Task::Qwen3Preset,
        VoiceSelection::Qwen3Clone { .. } => Task::Qwen3Clone,
        VoiceSelection::IndexTts25 { .. } => Task::IndexTts25,
    }
}

/// The work that a command asks for.
pub open spec fn work_of(command: WorkerCommand) -> Task {
    match command {
        WorkerCommand::FetchVoices => Task::Online,
        WorkerCommand::Preview { voice, .. } => work_of_voice(voice),
        WorkerCommand::Generate { voice, .. } => work_of_voice(voice),
        WorkerCommand::GenerateSubtitles { voice, .. } => work_of_voice(voice),
        WorkerCommand::ImportQwenModel { .. } => Task::ImportQwen3,
        WorkerCommand::PrepareQwenModel { .. } => Task::Qwen3Preset,
        WorkerCommand::RedownloadQwenModel { .. } => Task::RedownloadQwen3,
        WorkerCommand::ImportIndexTtsModel { .. } => Task::IndexTts25,
        WorkerCommand::PrepareIndexTts => Task::IndexTts25,
        WorkerCommand::TranscribeMedia { .. } => Task::Transcribe,
        WorkerCommand::SaveTranscription { .. } => Task::Online,
        WorkerCommand::LoadGeneratedAudio { .. } => Task::Online,
    }
}

fn speaking_task(voice: &VoiceSelection) -> (task: Task)
    ensures
        task == work_of_voice(*voice),
{
    match voice {
        VoiceSelection::Edge(_) => Task::Online,
        VoiceSelection::Qwen3Preset { .. } => Task::Qwen3Preset,
        VoiceSelection::Qwen3Clone { .. } => Task::Qwen3Clone,
        VoiceSelection::IndexTts25 { .. } => Task::IndexTts25,
    }
}

impl WorkerCommand {
    /// The work that the command asks for.
    pub fn task(&self) -> (task: Task)
        ensures
            task == work_of(*self),
    {
        match self {
            WorkerCommand::FetchVoices => Task::Online,
            WorkerCommand::Preview { voice, .. } => speaking_task(voice),
            WorkerCommand::Generate { voice, .. } => speaking_task(voice),
            WorkerCommand::GenerateSubtitles { voice, .. } => speaking_task(voice),
            WorkerCommand::ImportQwenModel { .. } => Task::ImportQwen3,
            WorkerCommand::PrepareQwenModel { .. } => Task::Qwen3Preset,
            WorkerCommand::RedownloadQwenModel { .. } => Task::RedownloadQwen3,
            WorkerCommand::ImportIndexTtsModel { .. } => Task::IndexTts25,
            WorkerCommand::PrepareIndexTts => Task::IndexTts25,
            WorkerCommand::TranscribeMedia { .. } => Task::Transcribe,
            WorkerCommand::SaveTranscription { .. } => Task::Online,
            WorkerCommand::LoadGeneratedAudio { .. } => Task::Online,
        }
    }
}

/// What is kept when a task begins.
pub open spec fn kept_for(models: Models, task: Task) -> Models {
    match task {
        Task::Online => models,
        Task::Qwen3Preset => Models { whisper: None, prompt: None, ..models },
        Task::Qwen3Clone => Models { whisper: None, ..models },
        Task::Transcribe => Models { qwen: None, prompt: None, ..models },
        _ => Models { whisper: None, qwen: None, prompt: None },
    }
}

/// Whether the window is told, when a task begins, that the Qwen3 model was released.
pub open spec fn tells_release(models: Models, task: Task) -> bool {
    match task {
        Task::RedownloadQwen3 => true,
        Task::ImportQwen3 | Task::IndexTts25 | Task::Transcribe => models.qwen is Some,
        _ => false,
    }
}

/// What is done about the Qwen3 model before it is used.
#[derive(Clone, Copy, Debug, PartialEq, Eq, Structural)]
pub struct ModelNeed {
    /// Another model was released, which the window is told.
    pub released: bool,
    /// The model has to be loaded.
    pub load: bool,
}

impl Resident {
    /// A worker that has just started.
    pub fn new() -> (resident: Self)
        ensures
            resident@ == (Models { whisper: None, qwen: None, prompt: None }),
    {
        Resident { whisper: None, qwen: None, prompt: None }
    }

    /// Lets go of what is not needed for a task. The result says whether the window is told that
    /// the Qwen3 model was released.
    pub fn begin(&mut self, task: Task) -> (told: bool)
        ensures
            final(self)@ == kept_for(old(self)@, task),
            told == tells_release(old(self)@, task),
    {
        let held = self.qwen.is_some();
        match task {
            Task::Online => false,
            Task::Qwen3Preset => {
                self.whisper = None;
                self.prompt = None;
                false
            },
            Task::Qwen3Clone => {
                self.whisper = None;
                false
            },
            Task::Transcribe => {
                self.qwen = None;
                self.prompt = None;
                held
            },
            Task::RedownloadQwen3 => {
                self.whisper = None;
                self.qwen = None;
                self.prompt = None;
                true
            },
            Task::ImportQwen3 | Task::IndexTts25 => {
                self.whisper = None;
                self.qwen = None;
                self.prompt = None;
                held
            },
        }
    }

    /// Prepares for the use of a Qwen3 model: another one is released, and the model is loaded
    /// unless it is there.
    pub fn need_qwen(&mut self, version: QwenModelVersion, kind: QwenModelKind) -> (need: ModelNeed)
        ensures
            final(self)@ == (Models {
                qwen: if old(self).qwen == Some((version, kind)) {
                    old(self).qwen
                } else {
                    None
                },
                ..old(self)@
            }),
            need.load == (old(self).qwen != Some((version, kind))),
            need.released == (need.load && old(self).qwen is Some),
    {
        match self.qwen {
            Some((held_version, held_kind)) => {
                if held_version == version && held_kind == kind {
                    ModelNeed { released: false, load: false }
                } else {
                    self.qwen = None;
                    ModelNeed { released: true, load: true }
                }
            },
            None => ModelNeed { released: false, load: true },
        }
    }

    /// Records that a Qwen3 model was loaded.
    pub fn qwen_loaded(&mut self, version: QwenModelVersion, kind: QwenModelKind)
        ensures
            final(self)@ == (Models { qwen: Some((version, kind)), ..old(self)@ }),
    {
        self.qwen = Some((version, kind));
    }

    /// Whether the cloned voice has to be made: the last one was another.
    pub fn needs_prompt(&self, key: &ClonePromptKey) -> (needed: bool)
        ensures
            needed == (self@.prompt != Some(key@)),
    {
        match &self.prompt {
            Some(held) => !held.same(key),
            None => true,
        }
    }

    /// Records that a cloned voice was made.
    pub fn prompt_made(&mut self, key: ClonePromptKey)
        ensures
            final(self)@ == (Models { prompt: Some(key@), ..old(self)@ }),
    {
        self.prompt = Some(key);
    }

    /// Whether the recognition model has to be loaded: it was loaded for another language.
    pub fn needs_whisper(&self, language: RecognitionLanguage) -> (needed: bool)
        ensures
            needed == (self.whisper != Some(language)),
    {
        match self.whisper {
            Some(held) => held != language,
            None => true,
        }
    }

    /// Records that the recognition model was loaded.
    pub fn whisper_loaded(&mut self, language: RecognitionLanguage)
        ensures
            final(self)@ == (Models { whisper: Some(language), ..old(self)@ }),
    {
        self.whisper = Some(language);
    }
}

/// The speech model and the recognition model are not in memory at once.
pub open spec fn one_at_a_time(models: Models) -> bool {
    models.whisper is None || models.qwen is None
}

/// What a task may load when it has begun.
pub open spec fn may_load(task: Task, before: Models, after: Models) -> bool {
    match task {
        Task::Qwen3Preset | Task::Qwen3Clone | Task::ImportQwen3 | Task::RedownloadQwen3 => {
            after.whisper == before.whisper
        },
        Task::Transcribe => after.qwen == before.qwen,
        _ => after == before,
    }
}

/// A task lets go of what it does not need before it loads what it needs, so that the speech model
/// and the recognition model are never in memory at once.
pub proof fn models_are_held_one_at_a_time(before: Models, task: Task, after: Models)
    requires
        one_at_a_time(before),
        may_load(task, kept_for(before, task), after),
    ensures
        one_at_a_time(kept_for(before, task)),
        one_at_a_time(after),
{
}

/// The number of samples of silence between the parts of a text.
pub const GAP_SAMPLES: usize = 2_160;

/// The parts of a text that is spoken by a local model; an error when there is nothing to speak.
pub fn speech_parts(spoken: &str, cloned: bool) -> (parts: Result<Vec<String>, String>)
    ensures
        match parts {
            Ok(parts) => parts@.len() > 0 && asr::strings_of(parts@) == qwen_local::synthesis_parts(
                spoken@,
            ),
            Err(error) => {
                &&& qwen_local::synthesis_parts(spoken@).len() == 0
                &&& error@ == (if cloned {
                    "没有可供 Qwen3-TTS 克隆音色合成的文字。"@
                } else {
                    "没有可供 Qwen3-TTS 合成的文字。"@
                })
            },
        },
{
    let parts = qwen_local::split_for_synthesis(spoken);
    assert(asr::strings_of(parts@).len() == parts@.len());
    if parts.len() == 0 {
        if cloned {
            Err("没有可供 Qwen3-TTS 克隆音色合成的文字。".to_string())
        } else {
            Err("没有可供 Qwen3-TTS 合成的文字。".to_string())
        }
    } else {
        Ok(parts)
    }
}

/// Whether silence follows a part: it does unless the part is the last one.
pub fn gap_follows(current: usize, total: usize) -> (follows: bool)
    ensures
        follows == (current < total),
{
    current < total
}

/// A part of a text or a cue that could not be spoken.
#[derive(Clone, Copy, Debug, PartialEq, Eq, Structural)]
pub enum SpokenUnit {
    Part,
    Cue,
}

/// The error of a part or a cue that could not be spoken.
pub open spec fn unit_error(unit: SpokenUnit, current: nat, total: nat, error: Seq<char>) -> Seq<
    char,
> {
    match unit {
        SpokenUnit::Part => "第 "@ + text::decimal(current) + "/"@ + text::decimal(total)
            + " 段："@ + error,
        SpokenUnit::Cue => "字幕 "@ + text::decimal(current) + "/"@ + text::decimal(total)
            + "："@ + error,
    }
}

pub fn unit_error_text(unit: SpokenUnit, current: usize, total: usize, error: &str) -> (message:
    String)
    ensures
        message@ == unit_error(unit, current as nat, total as nat, error@),
{
    let current_text = text::number_text(current as u64);
    let total_text = text::number_text(total as u64);
    match unit {
        SpokenUnit::Part => "第 ".to_string().concat(current_text.as_str()).concat("/").concat(
            total_text.as_str(),
        ).concat(" 段：").concat(error),
        SpokenUnit::Cue => "字幕 ".to_string().concat(current_text.as_str()).concat("/").concat(
            total_text.as_str(),
        ).concat("：").concat(error),
    }
}

/// Whether the samples of a model are resampled before they are laid onto the timeline; an error
/// when there are none.
pub fn check_speech(samples: usize, sample_rate: u32, cloned: bool) -> (resample: Result<bool, String>)
    ensures
        match resample {
            Ok(resample) => samples > 0 && resample == (sample_rate
                != timeline_audio::TIMELINE_SAMPLE_RATE),
            Err(error) => samples == 0 && error@ == (if cloned {
                "Qwen3-TTS 音色克隆没有生成可用的音频采样。"@
            } else {
                "Qwen3-TTS 没有生成可用的音频采样。"@
            }),
        },
{
    if samples == 0 {
        if cloned {
            Err("Qwen3-TTS 音色克隆没有生成可用的音频采样。".to_string())
        } else {
            Err("Qwen3-TTS 没有生成可用的音频采样。".to_string())
        }
    } else {
        Ok(sample_rate != timeline_audio::TIMELINE_SAMPLE_RATE)
    }
}

/// The cues that are spoken by a local model; an error when there are none.
pub fn check_local_cues(cues: &[SubtitleCue]) -> (count: Result<usize, String>)
    ensures
        match count {
            Ok(count) => count == cues@.len() && count > 0,
            Err(error) => cues@.len() == 0 && error@ == "导入的字幕没有可合成的时间轴文本。"@,
        },
{
    if cues.len() == 0 {
        return Err("导入的字幕没有可合成的时间轴文本。".to_string());
    }
    Ok(cues.len())
}

/// Whether every cue has its clip.
pub fn check_clip_count(clips: usize, cues: usize) -> (checked: Result<(), String>)
    ensures
        match checked {
            Ok(()) => clips == cues,
            Err(error) => clips != cues && error@
                == "IndexTTS-2.5 返回的音频段数量与字幕条数不一致。"@,
        },
{
    if clips != cues {
        Err("IndexTTS-2.5 返回的音频段数量与字幕条数不一致。".to_string())
    } else {
        Ok(())
    }
}

/// How a track that is spoken by a local model grows: every clip is kept whole, and the clips that
/// do not fit into their slots are counted.
#[derive(Clone, Copy, Debug, PartialEq, Eq, Structural)]
pub struct WholeSpeech {
    pub written_samples: u64,
    pub overflow_count: usize,
}

/// The track after one more clip.
pub open spec fn with_clip(
    track: WholeSpeech,
    start_sample: u64,
    available_samples: u64,
    clip_samples: usize,
) -> WholeSpeech {
    WholeSpeech {
        written_samples: timeline_audio::after_clip(
            track.written_samples,
            start_sample,
            clip_samples as nat,
        ),
        overflow_count: if clip_samples > available_samples {
            (track.overflow_count + 1) as usize
        } else {
            track.overflow_count
        },
    }
}

impl WholeSpeech {
    pub fn new() -> (track: Self)
        ensures
            track == (WholeSpeech { written_samples: 0, overflow_count: 0 }),
    {
        WholeSpeech { written_samples: 0, overflow_count: 0 }
    }

    /// Lays a clip onto the timeline where its cue starts, or behind the clip before it when that
    /// has not ended. The result is how many samples of silence come before the clip.
    pub fn lay(
        &mut self,
        start_sample: u64,
        available_samples: u64,
        clip_samples: usize,
    ) -> (silence: u64)
        requires
            old(self).overflow_count < usize::MAX,
        ensures
            *final(self) == with_clip(*old(self), start_sample, available_samples, clip_samples),
            silence == (if old(self).written_samples < start_sample {
                start_sample - old(self).written_samples
            } else {
                0
            }),
    {
        let silence: u64 = if self.written_samples < start_sample {
            start_sample - self.written_samples
        } else {
            0
        };
        self.written_samples = (self.written_samples + silence).saturating_add(clip_samples as u64);
        if clip_samples as u64 > available_samples {
            self.overflow_count = self.overflow_count + 1;
        }
        silence
    }
}

/// How far the timeline is written after the first `n` clips.
pub open spec fn written_after(starts: Seq<u64>, clips: Seq<usize>, n: int) -> u64
    decreases n,
{
    if n <= 0 {
        0
    } else {
        timeline_audio::after_clip(
            written_after(starts, clips, n - 1),
            starts[n - 1],
            clips[n - 1] as nat,
        )
    }
}

/// No clip is cut, laid over the one before it or heard before its cue: a clip begins where the
/// clips before it end or where its cue starts, whichever comes later.
pub proof fn clips_are_kept_whole_and_in_order(starts: Seq<u64>, clips: Seq<usize>, n: int)
    requires
        0 <= n < clips.len(),
        clips.len() == starts.len(),
        written_after(starts, clips, n + 1) < u64::MAX,
    ensures
        ({
            let begin = written_after(starts, clips, n + 1) - clips[n];
            &&& begin >= written_after(starts, clips, n)
            &&& begin >= starts[n]
            &&& begin == written_after(starts, clips, n) || begin == starts[n]
        }),
{
}

} // verus!
