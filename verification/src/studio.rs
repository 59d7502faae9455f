//! The state of the studio: what is selected, what is going on and what the user is told.
//!
//! The window shows this state and a worker changes it by its events. Paths are given as the text
//! that the user sees.
use vstd::prelude::*;

use crate::asr::{RecognitionLanguage, SubtitleExportFormat};
use crate::qwen_local;
use crate::qwen_local::{QwenModelKind, QwenModelVersion, QwenVoice};
use crate::subtitles;
use crate::subtitles::{Cue, SubtitleCue, SubtitleFormat, SubtitleTrack};
use crate::ui_text;
use crate::ui_text::{Status, StatusKind, StatusMessage, UiLanguage};
use crate::voices;
use crate::voices::{Voice, VoiceChoice};

verus! {

/// The text that is in the editor when the studio starts.
pub const DEFAULT_TEXT: &'static str = "你好！欢迎使用 Edge TTS 语音工作室。\n\n请在这里输入或粘贴中英文文本，选择喜欢的音色，然后生成 MP3 音频。";

/// The voice that is selected when the user has not chosen one.
pub const PREFERRED_VOICE: &'static str = "zh-CN-XiaoxiaoNeural";

/// What is spoken: the text in the editor or an imported subtitle track.
#[derive(Clone, Copy, Debug, PartialEq, Eq, Structural)]
pub enum InputMode {
    Text,
    Subtitles,
}

/// What speaks.
#[derive(Clone, Copy, Debug, PartialEq, Eq, Structural)]
pub enum TtsEngine {
    Edge,
    Qwen3Local,
    IndexTts25,
}

/// Whose voice the Qwen3 engine speaks with: one of its own, or that of a recording.
#[derive(Clone, Copy, Debug, PartialEq, Eq, Structural)]
pub enum QwenVoiceMode {
    Preset,
    Clone,
}

/// What the user is doing.
#[derive(Clone, Copy, Debug, PartialEq, Eq, Structural)]
pub enum WorkspaceMode {
    TextToSpeech,
    AudioToSubtitles,
}

/// How far something has got: a part of a total, or the bits of a single-precision float.
#[derive(Clone, Copy, Debug, PartialEq, Eq, Structural)]
pub enum Fraction {
    Ratio { done: u64, total: u64 },
    Measured(u32),
}

/// The format and the cues of a track, when there is one.
pub open spec fn track_content(track: Option<SubtitleTrack>) -> Option<(SubtitleFormat, Seq<Cue>)> {
    match track {
        Some(track) => Some((track.format, subtitles::cues_of(track.cues@))),
        None => None,
    }
}

/// What is selected: the engine and the voice.
#[derive(Debug)]
pub struct Selection {
    /// The voices of the online service.
    pub voices: Vec<VoiceChoice>,
    /// The position of the selected voice among `voices`.
    pub selected_voice: Option<usize>,
    pub tts_engine: TtsEngine,
    pub qwen_version: QwenModelVersion,
    pub qwen_voice: QwenVoice,
    pub qwen_voice_mode: QwenVoiceMode,
    /// The recording whose voice is cloned.
    pub clone_reference_path: Option<String>,
    /// What is said in that recording.
    pub clone_reference_text: String,
    /// Whether the user has confirmed that the voice may be cloned.
    pub clone_authorized: bool,
    pub voice_filter: String,
}

/// The content of `Selection`.
#[verifier::ext_equal]
pub struct SelectionState {
    pub voices: Seq<Voice>,
    pub selected_voice: Option<usize>,
    pub tts_engine: TtsEngine,
    pub qwen_version: QwenModelVersion,
    pub qwen_voice: QwenVoice,
    pub qwen_voice_mode: QwenVoiceMode,
    pub clone_reference_path: Option<Seq<char>>,
    pub clone_reference_text: Seq<char>,
    pub clone_authorized: bool,
    pub voice_filter: Seq<char>,
}

impl View for Selection {
    type V = SelectionState;

    open spec fn view(&self) -> SelectionState {
        SelectionState {
            voices: voices::voices_of(self.voices@),
            selected_voice: self.selected_voice,
            tts_engine: self.tts_engine,
            qwen_version: self.qwen_version,
            qwen_voice: self.qwen_voice,
            qwen_voice_mode: self.qwen_voice_mode,
            clone_reference_path: qwen_local::optional_text(self.clone_reference_path),
            clone_reference_text: self.clone_reference_text@,
            clone_authorized: self.clone_authorized,
            voice_filter: self.voice_filter@,
        }
    }
}

/// What is to be spoken and how.
#[derive(Debug)]
pub struct Input {
    pub text: String,
    pub input_mode: InputMode,
    pub subtitle_track: Option<SubtitleTrack>,
    pub subtitle_path: Option<String>,
    pub rate_percent: i32,
    pub volume_percent: i32,
}

/// The content of `Input`.
#[verifier::ext_equal]
pub struct InputState {
    pub text: Seq<char>,
    pub input_mode: InputMode,
    pub subtitle_track: Option<(SubtitleFormat, Seq<Cue>)>,
    pub subtitle_path: Option<Seq<char>>,
    pub rate_percent: i32,
    pub volume_percent: i32,
}

impl View for Input {
    type V = InputState;

    open spec fn view(&self) -> InputState {
        InputState {
            text: self.text@,
            input_mode: self.input_mode,
            subtitle_track: track_content(self.subtitle_track),
            subtitle_path: qwen_local::optional_text(self.subtitle_path),
            rate_percent: self.rate_percent,
            volume_percent: self.volume_percent,
        }
    }
}

/// What is known of the Qwen3 model.
#[derive(Debug)]
pub struct QwenStatus {
    pub preparing: bool,
    /// How much of the total has been fetched; `None` when that is not known.
    pub progress: Option<(u64, u64)>,
    pub progress_label: String,
    /// The model that is loaded.
    pub ready: Option<(QwenModelVersion, QwenModelKind)>,
    pub device: Option<String>,
    /// Whether the instructions for fetching a model by hand are shown.
    pub manual_help_open: bool,
}

/// The content of `QwenStatus`.
#[verifier::ext_equal]
pub struct QwenState {
    pub preparing: bool,
    pub progress: Option<(u64, u64)>,
    pub progress_label: Seq<char>,
    pub ready: Option<(QwenModelVersion, QwenModelKind)>,
    pub device: Option<Seq<char>>,
    pub manual_help_open: bool,
}

impl View for QwenStatus {
    type V = QwenState;

    open spec fn view(&self) -> QwenState {
        QwenState {
            preparing: self.preparing,
            progress: self.progress,
            progress_label: self.progress_label@,
            ready: self.ready,
            device: qwen_local::optional_text(self.device),
            manual_help_open: self.manual_help_open,
        }
    }
}

/// What is known of the IndexTTS engine.
#[derive(Debug)]
pub struct IndexTtsStatus {
    pub preparing: bool,
    pub ready: bool,
    /// How much of the total has been fetched; `None` when that is not known.
    pub progress: Option<(u64, u64)>,
    pub progress_label: String,
    /// Whether the instructions for fetching the model by hand are shown.
    pub manual_help_open: bool,
}

/// The content of `IndexTtsStatus`.
#[verifier::ext_equal]
pub struct IndexTtsState {
    pub preparing: bool,
    pub ready: bool,
    pub progress: Option<(u64, u64)>,
    pub progress_label: Seq<char>,
    pub manual_help_open: bool,
}

impl View for IndexTtsStatus {
    type V = IndexTtsState;

    open spec fn view(&self) -> IndexTtsState {
        IndexTtsState {
            preparing: self.preparing,
            ready: self.ready,
            progress: self.progress,
            progress_label: self.progress_label@,
            manual_help_open: self.manual_help_open,
        }
    }
}

/// The audio that was generated last.
#[derive(Debug)]
pub struct GeneratedAudio {
    pub last_path: Option<String>,
    /// Whether it can be played.
    pub player: bool,
    pub loading: bool,
}

/// The content of `GeneratedAudio`.
#[verifier::ext_equal]
pub struct AudioState {
    pub last_path: Option<Seq<char>>,
    pub player: bool,
    pub loading: bool,
}

impl View for GeneratedAudio {
    type V = AudioState;

    open spec fn view(&self) -> AudioState {
        AudioState {
            last_path: qwen_local::optional_text(self.last_path),
            player: self.player,
            loading: self.loading,
        }
    }
}

/// The recognition of a recording.
#[derive(Debug)]
pub struct Transcription {
    pub input_path: Option<String>,
    pub language: RecognitionLanguage,
    pub format: SubtitleExportFormat,
    pub loading_model: bool,
    pub running: bool,
    pub saving: bool,
    pub progress: Fraction,
    pub remaining_seconds: u64,
    pub cues: Vec<SubtitleCue>,
    pub output_path: Option<String>,
    /// Whether the cues were changed since they were saved.
    pub dirty: bool,
}

/// The content of `Transcription`.
#[verifier::ext_equal]
pub struct TranscriptionState {
    pub input_path: Option<Seq<char>>,
    pub language: RecognitionLanguage,
    pub format: SubtitleExportFormat,
    pub loading_model: bool,
    pub running: bool,
    pub saving: bool,
    pub progress: Fraction,
    pub remaining_seconds: u64,
    pub cues: Seq<Cue>,
    pub output_path: Option<Seq<char>>,
    pub dirty: bool,
}

impl View for Transcription {
    type V = TranscriptionState;

    open spec fn view(&self) -> TranscriptionState {
        TranscriptionState {
            input_path: qwen_local::optional_text(self.input_path),
            language: self.language,
            format: self.format,
            loading_model: self.loading_model,
            running: self.running,
            saving: self.saving,
            progress: self.progress,
            remaining_seconds: self.remaining_seconds,
            cues: subtitles::cues_of(self.cues@),
            output_path: qwen_local::optional_text(self.output_path),
            dirty: self.dirty,
        }
    }
}

/// The state of the studio.
#[derive(Debug)]
pub struct Studio {
    pub selection: Selection,
    pub input: Input,
    pub qwen: QwenStatus,
    pub indextts: IndexTtsStatus,
    pub audio: GeneratedAudio,
    pub transcription: Transcription,
    pub workspace_mode: WorkspaceMode,
    pub ui_language: UiLanguage,
    pub fetching_voices: bool,
    pub previewing: bool,
    pub generating: bool,
    /// The segment that is being spoken, and how many there are.
    pub subtitle_progress: Option<(usize, usize)>,
    /// What the user is told.
    pub status: Option<StatusMessage>,
}

/// The content of the state.
#[verifier::ext_equal]
pub struct State {
    pub selection: SelectionState,
    pub input: InputState,
    pub qwen: QwenState,
    pub indextts: IndexTtsState,
    pub audio: AudioState,
    pub transcription: TranscriptionState,
    pub workspace_mode: WorkspaceMode,
    pub ui_language: UiLanguage,
    pub fetching_voices: bool,
    pub previewing: bool,
    pub generating: bool,
    pub subtitle_progress: Option<(usize, usize)>,
    pub status: Option<Status>,
}

impl View for Studio {
    type V = State;

    open spec fn view(&self) -> State {
        State {
            selection: self.selection@,
            input: self.input@,
            qwen: self.qwen@,
            indextts: self.indextts@,
            audio: self.audio@,
            transcription: self.transcription@,
            workspace_mode: self.workspace_mode,
            ui_language: self.ui_language,
            fetching_voices: self.fetching_voices,
            previewing: self.previewing,
            generating: self.generating,
            subtitle_progress: self.subtitle_progress,
            status: match self.status {
                Some(message) => Some(message@),
                None => None,
            },
        }
    }
}

/// The state of a studio that has just started, with the first message to the user.
pub open spec fn initial_state(fetching_voices: bool, message: Status) -> State {
    State {
        selection: SelectionState {
            voices: Seq::empty(),
            selected_voice: None,
            tts_engine: TtsEngine::Edge,
            qwen_version: QwenModelVersion::DEFAULT,
            qwen_voice: QwenVoice::Vivian,
            qwen_voice_mode: QwenVoiceMode::Preset,
            clone_reference_path: None,
            clone_reference_text: Seq::empty(),
            clone_authorized: false,
            voice_filter: "中文"@,
        },
        input: InputState {
            text: DEFAULT_TEXT@,
            input_mode: InputMode::Text,
            subtitle_track: None,
            subtitle_path: None,
            rate_percent: 0,
            volume_percent: 0,
        },
        qwen: QwenState {
            preparing: false,
            progress: None,
            progress_label: Seq::empty(),
            ready: None,
            device: None,
            manual_help_open: false,
        },
        indextts: IndexTtsState {
            preparing: false,
            ready: false,
            progress: None,
            progress_label: Seq::empty(),
            manual_help_open: false,
        },
        audio: AudioState {
            last_path: None,
            player: false,
            loading: false,
        },
        transcription: TranscriptionState {
            input_path: None,
            language: RecognitionLanguage::MixedChineseEnglish,
            format: SubtitleExportFormat::Srt,
            loading_model: false,
            running: false,
            saving: false,
            progress: Fraction::Ratio { done: 0, total: 1 },
            remaining_seconds: 0,
            cues: Seq::empty(),
            output_path: None,
            dirty: false,
        },
        workspace_mode: WorkspaceMode::TextToSpeech,
        ui_language: UiLanguage::Chinese,
        fetching_voices: fetching_voices,
        previewing: false,
        generating: false,
        subtitle_progress: None,
        status: Some(message),
    }
}

/// How the start of the worker went.
#[derive(Debug)]
pub enum Startup {
    /// The worker runs and has been asked for the voices.
    Loading,
    /// The worker stopped before it could be asked.
    Stopped,
    /// The worker could not be started.
    Failed(String),
}

/// The state after the start of the worker.
pub open spec fn started(startup: Startup) -> State {
    match startup {
        Startup::Loading => initial_state(
            true,
            ui_text::status(
                StatusKind::Info,
                "正在加载在线音色…"@,
                "Loading the available online voices…"@,
            ),
        ),
        Startup::Stopped => initial_state(
            true,
            ui_text::status(
                StatusKind::Error,
                "语音服务尚未开始加载就已停止。"@,
                "The TTS worker stopped before voice loading began."@,
            ),
        ),
        Startup::Failed(error) => initial_state(
            false,
            ui_text::status(StatusKind::Error, "无法启动语音服务："@ + error@, error@),
        ),
    }
}

impl Studio {
    /// The state of a studio that has just started.
    pub fn new(startup: Startup) -> (studio: Self)
        ensures
            studio@ == started(startup),
    {
        let fetching_voices = !matches!(startup, Startup::Failed(_));
        let message = match startup {
            Startup::Loading => StatusMessage::fixed(
                StatusKind::Info,
                "正在加载在线音色…",
                "Loading the available online voices…",
            ),
            Startup::Stopped => StatusMessage::fixed(
                StatusKind::Error,
                "语音服务尚未开始加载就已停止。",
                "The TTS worker stopped before voice loading began.",
            ),
            Startup::Failed(error) => StatusMessage::new(
                StatusKind::Error,
                "无法启动语音服务：".to_string().concat(error.as_str()),
                error,
            ),
        };
        let studio = Studio {
            selection: Selection {
                voices: Vec::new(),
                selected_voice: None,
                tts_engine: TtsEngine::Edge,
                qwen_version: QwenModelVersion::DEFAULT,
                qwen_voice: QwenVoice::Vivian,
                qwen_voice_mode: QwenVoiceMode::Preset,
                clone_reference_path: None,
                clone_reference_text: String::new(),
                clone_authorized: false,
                voice_filter: "中文".to_string(),
            },
            input: Input {
                text: DEFAULT_TEXT.to_string(),
                input_mode: InputMode::Text,
                subtitle_track: None,
                subtitle_path: None,
                rate_percent: 0,
                volume_percent: 0,
            },
            qwen: QwenStatus {
                preparing: false,
                progress: None,
                progress_label: String::new(),
                ready: None,
                device: None,
                manual_help_open: false,
            },
            indextts: IndexTtsStatus {
                preparing: false,
                ready: false,
                progress: None,
                progress_label: String::new(),
                manual_help_open: false,
            },
            audio: GeneratedAudio {
                last_path: None,
                player: false,
                loading: false,
            },
            transcription: Transcription {
                input_path: None,
                language: RecognitionLanguage::MixedChineseEnglish,
                format: SubtitleExportFormat::Srt,
                loading_model: false,
                running: false,
                saving: false,
                progress: Fraction::Ratio { done: 0, total: 1 },
                remaining_seconds: 0,
                cues: Vec::new(),
                output_path: None,
                dirty: false,
            },
            workspace_mode: WorkspaceMode::TextToSpeech,
            ui_language: UiLanguage::Chinese,
            fetching_voices: fetching_voices,
            previewing: false,
            generating: false,
            subtitle_progress: None,
            status: Some(message),
        };
        assert(studio@ =~= started(startup));
        studio
    }
}

} // verus!
