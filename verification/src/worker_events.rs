//! What the worker tells and how the state of the studio follows.
//!
//! The worker runs beside the window and reports each step of its work as an event. Every event
//! changes the state in one way, which is stated here; two of them ask for something more to be
//! done.
use vstd::prelude::*;

use crate::download_control;
use crate::qwen_local;
use crate::qwen_local::{QwenModelKind, QwenModelVersion};
use crate::studio;
use crate::studio::{
    AudioState, Fraction, IndexTtsState, QwenState, SelectionState, State, Studio,
    TranscriptionState, TtsEngine,
};
use crate::subtitles;
use crate::subtitles::SubtitleCue;
use crate::text;
use crate::ui_text;
use crate::ui_text::{StatusKind, StatusMessage, UiLanguage};
use crate::voices;
use crate::voices::{Voice, VoiceChoice};

verus! {

/// What the worker tells.
#[derive(Debug)]
pub enum WorkerEvent {
    /// The voices of the online service were loaded.
    VoicesLoaded { voices: Vec<VoiceChoice>, from_cache: bool, warning: Option<String> },
    /// The voices could not be loaded.
    VoicesFailed(String),
    /// A Qwen3 model is being made ready.
    QwenModelPreparing { version: QwenModelVersion, kind: QwenModelKind },
    /// Some of a Qwen3 model has been fetched; `transfer` is how much, as it is shown.
    QwenModelDownload {
        version: QwenModelVersion,
        kind: QwenModelKind,
        file: String,
        downloaded_bytes: u64,
        total_bytes: u64,
        transfer: String,
    },
    /// A Qwen3 model is loaded.
    QwenModelReady { version: QwenModelVersion, kind: QwenModelKind, device: String },
    /// A Qwen3 model could not be made ready.
    QwenModelFailed(String),
    /// Some of a Qwen3 model has been imported; `transfer` is how much, as it is shown.
    QwenModelImportProgress {
        version: QwenModelVersion,
        kind: QwenModelKind,
        file: String,
        copied_bytes: u64,
        total_bytes: u64,
        transfer: String,
    },
    /// A Qwen3 model was imported and is loaded.
    QwenModelImported {
        version: QwenModelVersion,
        kind: QwenModelKind,
        device: String,
        model_dir: String,
    },
    /// A Qwen3 model could not be imported.
    QwenModelImportFailed { version: QwenModelVersion, kind: QwenModelKind, error: String },
    /// The Qwen3 model was released.
    QwenModelReleased,
    /// A reference recording is being analysed.
    QwenClonePromptPreparing,
    /// A reference recording was analysed.
    QwenClonePromptReady,
    /// A segment is being spoken locally.
    QwenProgress { current: usize, total: usize },
    /// The IndexTTS engine is being made ready; `transfer` is how much of a download is done, as it
    /// is shown.
    IndexTtsPreparing { phase: String, downloaded_bytes: u64, total_bytes: u64, transfer: String },
    /// The IndexTTS engine is ready.
    IndexTtsReady,
    /// Some of the IndexTTS model has been imported; `transfer` is how much, as it is shown.
    IndexTtsImportProgress { phase: String, copied_bytes: u64, total_bytes: u64, transfer: String },
    /// The IndexTTS model was imported.
    IndexTtsImported { model_dir: String },
    /// The IndexTTS model could not be imported.
    IndexTtsImportFailed(String),
    /// The IndexTTS engine could not be made ready.
    IndexTtsFailed(String),
    /// The IndexTTS engine is at work.
    IndexTtsInferencePhase(String),
    /// The preview was played.
    PreviewFinished,
    /// The preview could not be made or played.
    PreviewFailed(String),
    /// The audio of a text was saved; `kilobytes` is its size, as it is shown.
    GenerationFinished { output_path: String, kilobytes: String },
    /// A cue is being spoken.
    SubtitleProgress { current: usize, total: usize },
    /// The audio of a track was saved; `kilobytes` is its size, as it is shown.
    SubtitleGenerationFinished { output_path: String, kilobytes: String, overflow_count: usize },
    /// Some of the recognition model has been fetched; `transfer` is how much, as it is shown.
    AsrModelProgress { source: String, downloaded_bytes: u64, total_bytes: u64, transfer: String },
    /// The recognition model is there.
    AsrModelReady,
    /// The recognition model is being loaded; `percent` is how much, as it is shown.
    AsrModelLoading { progress: u32, percent: String },
    /// Some of a recording was recognised; `percent` is how much, as it is shown.
    TranscriptionProgress { progress: u32, percent: String, remaining_seconds: u64 },
    /// A recording was recognised.
    TranscriptionFinished { cues: Vec<SubtitleCue>, audio_duration_ms: u64 },
    /// The subtitles were saved.
    TranscriptionSaved(String),
    /// The subtitles could not be saved.
    TranscriptionSaveFailed(String),
    /// A recording could not be recognised.
    TranscriptionFailed(String),
    /// The generated audio was decoded.
    GeneratedAudioLoaded { input_path: String },
    /// The generated audio could not be decoded.
    GeneratedAudioLoadFailed { input_path: String, error: String },
    /// The audio could not be made.
    GenerationFailed(String),
    /// The worker came to an end.
    WorkerFailed(String),
}

/// What is to be done after an event.
#[derive(Debug)]
pub enum FollowUp {
    /// Ask the worker to decode the audio that was generated.
    LoadGeneratedAudio(String),
    /// Set up a player for the audio that was decoded.
    CreatePlayer,
}

/// How much of a download is done; not known without a total.
pub open spec fn progress_of(done: u64, total: u64) -> Option<(u64, u64)> {
    if total > 0 {
        Some((done, total))
    } else {
        None
    }
}

fn known_progress(done: u64, total: u64) -> (progress: Option<(u64, u64)>)
    ensures
        progress == progress_of(done, total),
{
    if total > 0 {
        Some((done, total))
    } else {
        None
    }
}

/// How much of the recognition model has been fetched; nothing as long as the total is not known.
pub open spec fn fetched_fraction(done: u64, total: u64) -> Fraction {
    if total > 0 {
        Fraction::Ratio { done, total }
    } else {
        Fraction::Ratio { done: 0, total: 1 }
    }
}

fn fraction_of(done: u64, total: u64) -> (fraction: Fraction)
    ensures
        fraction == fetched_fraction(done, total),
{
    if total > 0 {
        Fraction::Ratio { done, total }
    } else {
        Fraction::Ratio { done: 0, total: 1 }
    }
}

/// A file of a Qwen3 model as it is told to the user.
pub open spec fn file_label(file: Seq<char>, language: UiLanguage) -> Seq<char> {
    if file == "main-model"@ {
        ui_text::in_language(language, "Qwen3 主模型"@, "Qwen3 main model"@)
    } else if file == "model-config"@ {
        ui_text::in_language(language, "Qwen3 配置"@, "Qwen3 configuration"@)
    } else if file == "audio-decoder"@ {
        ui_text::in_language(language, "12Hz 音频解码器"@, "12Hz audio decoder"@)
    } else if file == "text-tokenizer"@ {
        ui_text::in_language(language, "Qwen 文本分词器"@, "Qwen text tokenizer"@)
    } else {
        ui_text::in_language(language, "Qwen3 模型文件"@, "Qwen3 model file"@)
    }
}

/// A file of a Qwen3 model as it is told to the user.
pub fn model_file_label(file: &str, language: UiLanguage) -> (label: &'static str)
    ensures
        label@ == file_label(file@, language),
{
    let chars = text::chars_of(file);
    let chars = chars.as_slice();
    if text::same_text(chars, "main-model") {
        language.text("Qwen3 主模型", "Qwen3 main model")
    } else if text::same_text(chars, "model-config") {
        language.text("Qwen3 配置", "Qwen3 configuration")
    } else if text::same_text(chars, "audio-decoder") {
        language.text("12Hz 音频解码器", "12Hz audio decoder")
    } else if text::same_text(chars, "text-tokenizer") {
        language.text("Qwen 文本分词器", "Qwen text tokenizer")
    } else {
        language.text("Qwen3 模型文件", "Qwen3 model file")
    }
}

fn is_model_loading(file: &str) -> (loading: bool)
    ensures
        loading == (file@ == "model-loading"@),
{
    let chars = text::chars_of(file);
    text::same_text(chars.as_slice(), "model-loading")
}

/// Whether an error opens the instructions for fetching a model by hand: the model was on its way,
/// it is the selected engine's, and the user did not cancel.
pub open spec fn opens_help(s: State, error: Seq<char>) -> bool {
    !download_control::tells_cancelled(error) && s.qwen.preparing && s.selection.tts_engine
        == TtsEngine::Qwen3Local
}

/// The short name of the voice that is selected, when there is one.
pub open spec fn selected_name(s: State) -> Option<Seq<char>> {
    match s.selection.selected_voice {
        Some(index) => if index < s.selection.voices.len() {
            Some(s.selection.voices[index as int].short_name)
        } else {
            None
        },
        None => None,
    }
}

/// The voice that is selected in a new list: the one that was selected before, or else the
/// preferred one, or else the first.
pub open spec fn reselected(voices: Seq<Voice>, previous: Option<Seq<char>>) -> Option<usize> {
    let kept = match previous {
        Some(name) => voices::voice_position(voices, name, 0),
        None => None,
    };
    match kept {
        Some(at) => Some(at as usize),
        None => match voices::voice_position(voices, studio::PREFERRED_VOICE@, 0) {
            Some(at) => Some(at as usize),
            None => if voices.len() > 0 {
                Some(0)
            } else {
                None
            },
        },
    }
}

/// The message after voices were loaded.
pub open spec fn voices_status(
    count: nat,
    from_cache: bool,
    warning: Option<Seq<char>>,
) -> ui_text::Status {
    match warning {
        Some(warning) => ui_text::status(
            StatusKind::Warning,
            "音色列表已加载，但遇到提示："@ + warning,
            warning,
        ),
        None => ui_text::status(
            StatusKind::Success,
            "已加载 "@ + text::decimal(count) + " 个音色"@ + (if from_cache {
                "（来自本地缓存）"@
            } else {
                ""@
            }) + "。"@,
            "Loaded "@ + text::decimal(count) + " voices"@ + (if from_cache {
                " from cache"@
            } else {
                ""@
            }) + "."@,
        ),
    }
}

/// The state after voices were loaded.
pub open spec fn after_voices_loaded(
    s: State,
    voices: Seq<Voice>,
    from_cache: bool,
    warning: Option<Seq<char>>,
) -> State {
    State {
        selection: SelectionState {
            voices,
            selected_voice: reselected(voices, selected_name(s)),
            ..s.selection
        },
        fetching_voices: false,
        status: Some(voices_status(voices.len(), from_cache, warning)),
        ..s
    }
}

/// The voices could not be loaded.
pub open spec fn after_voices_failed(s: State, error: String) -> State {
    State {
        fetching_voices: false,
        status: Some(ui_text::status(StatusKind::Error, "加载音色失败："@ + error@, error@)),
        ..s
    }
}

/// A Qwen3 model is being made ready.
pub open spec fn after_qwen_model_preparing(
    s: State,
    version: QwenModelVersion,
    kind: QwenModelKind,
) -> State {
    State {
        qwen: QwenState {
            preparing: true,
            progress: Some((0u64, 1u64)),
            progress_label: "Qwen3 "@ + qwen_local::version_label(version) + " "@
                + qwen_local::kind_label(kind),
            ready: None,
            ..s.qwen
        },
        status: Some(
            ui_text::status(
                StatusKind::Info,
                "正在准备 Qwen3-TTS "@ + qwen_local::version_label(version) + " "@
                    + qwen_local::kind_label(kind) + " 本地模型，首次使用需下载约 "@
                    + qwen_local::size_label(version) + "…"@,
                "Preparing the local Qwen3-TTS "@ + qwen_local::version_label(version) + " "@
                    + qwen_local::kind_label(kind) + " model. The first run downloads about "@
                    + qwen_local::size_label(version) + "…"@,
            ),
        ),
        ..s
    }
}

/// Some of a Qwen3 model has been fetched; `transfer` is how much, as it is shown.
pub open spec fn after_qwen_model_download(
    s: State,
    version: QwenModelVersion,
    kind: QwenModelKind,
    file: String,
    downloaded_bytes: u64,
    total_bytes: u64,
    transfer: String,
) -> State {
    if file@ == "model-loading"@ {
        State {
            qwen: QwenState {
                preparing: true,
                progress: None,
                progress_label: ui_text::in_language(
                    s.ui_language,
                    "正在载入 Qwen3 模型"@,
                    "Loading the Qwen3 model"@,
                ),
                ..s.qwen
            },
            status: Some(
                ui_text::status(
                    StatusKind::Info,
                    "Qwen3-TTS "@ + qwen_local::version_label(version) + " "@
                        + qwen_local::kind_label(kind) + " 已下载，正在载入本地推理设备…"@,
                    "Qwen3-TTS "@ + qwen_local::version_label(version) + " "@
                        + qwen_local::kind_label(kind)
                        + " is downloaded and loading onto the local device…"@,
                ),
            ),
            ..s
        }
    } else {
        State {
            qwen: QwenState {
                preparing: true,
                progress: progress_of(downloaded_bytes, total_bytes),
                progress_label: file_label(file@, UiLanguage::Chinese),
                ..s.qwen
            },
            status: Some(
                ui_text::status(
                    StatusKind::Info,
                    "正在下载 Qwen3 "@ + qwen_local::version_label(version) + " "@
                        + qwen_local::kind_label(kind) + " "@
                        + file_label(file@, UiLanguage::Chinese) + "："@ + transfer@,
                    "Downloading Qwen3 "@ + qwen_local::version_label(version) + " "@
                        + qwen_local::kind_label(kind) + " "@
                        + file_label(file@, UiLanguage::English) + ": "@ + transfer@,
                ),
            ),
            ..s
        }
    }
}

/// A Qwen3 model is loaded.
pub open spec fn after_qwen_model_ready(
    s: State,
    version: QwenModelVersion,
    kind: QwenModelKind,
    device: String,
) -> State {
    if s.generating || s.previewing {
        State {
            qwen: QwenState {
                preparing: false,
                progress: None,
                ready: Some((version, kind)),
                device: Some(device@),
                ..s.qwen
            },
            status: Some(
                ui_text::status(
                    StatusKind::Info,
                    "Qwen3-TTS "@ + qwen_local::version_label(version) + " "@
                        + qwen_local::kind_label(kind) + " 已就绪，正在使用 "@ + device@
                        + " 本地生成…"@,
                    "Qwen3-TTS "@ + qwen_local::version_label(version) + " "@
                        + qwen_local::kind_label(kind) + " is ready. Generating locally with "@
                        + device@ + "…"@,
                ),
            ),
            ..s
        }
    } else {
        State {
            qwen: QwenState {
                preparing: false,
                progress: None,
                ready: Some((version, kind)),
                device: Some(device@),
                ..s.qwen
            },
            status: Some(
                ui_text::status(
                    StatusKind::Success,
                    "Qwen3-TTS "@ + qwen_local::version_label(version) + " "@
                        + qwen_local::kind_label(kind) + " 已下载并载入（"@ + device@ + "）。"@,
                    "Qwen3-TTS "@ + qwen_local::version_label(version) + " "@
                        + qwen_local::kind_label(kind) + " is downloaded and loaded on "@ + device@
                        + "."@,
                ),
            ),
            ..s
        }
    }
}

/// A Qwen3 model could not be made ready. The instructions for fetching it by hand open when the
/// model was on its way, Qwen3 is the selected engine and the user did not cancel.
pub open spec fn after_qwen_model_failed(s: State, error: String) -> State {
    if download_control::tells_cancelled(error@) {
        State {
            qwen: QwenState {
                preparing: false,
                progress: None,
                ready: None,
                device: None,
                ..s.qwen
            },
            status: Some(
                ui_text::status(
                    StatusKind::Info,
                    "模型下载已取消，临时文件已保留；再次开始时会从已有进度继续。"@,
                    "Model download cancelled. Partial files were kept and will be resumed next time."@,
                ),
            ),
            ..s
        }
    } else {
        State {
            qwen: QwenState {
                manual_help_open: s.qwen.manual_help_open || opens_help(s, error@),
                preparing: false,
                progress: None,
                ready: None,
                device: None,
                ..s.qwen
            },
            status: Some(
                ui_text::status(
                    StatusKind::Error,
                    "Qwen3-TTS 模型准备失败："@ + error@,
                    "Qwen3-TTS model setup failed: "@ + error@,
                ),
            ),
            ..s
        }
    }
}

/// Some of a Qwen3 model has been imported; `transfer` is how much, as it is shown.
pub open spec fn after_qwen_model_import_progress(
    s: State,
    version: QwenModelVersion,
    kind: QwenModelKind,
    file: String,
    copied_bytes: u64,
    total_bytes: u64,
    transfer: String,
) -> State {
    State {
        qwen: QwenState {
            preparing: true,
            progress: progress_of(copied_bytes, total_bytes),
            progress_label: file_label(file@, UiLanguage::Chinese),
            ..s.qwen
        },
        status: Some(
            ui_text::status(
                StatusKind::Info,
                "正在导入 Qwen3 "@ + qwen_local::version_label(version) + " "@
                    + qwen_local::kind_label(kind) + " "@ + file_label(file@, UiLanguage::Chinese)
                    + "："@ + transfer@,
                "Importing Qwen3 "@ + qwen_local::version_label(version) + " "@
                    + qwen_local::kind_label(kind) + " "@ + file_label(file@, UiLanguage::English)
                    + ": "@ + transfer@,
            ),
        ),
        ..s
    }
}

/// A Qwen3 model was imported and is loaded.
pub open spec fn after_qwen_model_imported(
    s: State,
    version: QwenModelVersion,
    kind: QwenModelKind,
    device: String,
    model_dir: String,
) -> State {
    State {
        qwen: QwenState {
            preparing: false,
            progress: None,
            ready: Some((version, kind)),
            device: Some(device@),
            manual_help_open: false,
            ..s.qwen
        },
        status: Some(
            ui_text::status(
                StatusKind::Success,
                "已导入并加载 Qwen3-TTS "@ + qwen_local::version_label(version) + " "@
                    + qwen_local::kind_label(kind) + "（"@ + device@ + "）："@ + model_dir@,
                "Imported and loaded Qwen3-TTS "@ + qwen_local::version_label(version) + " "@
                    + qwen_local::kind_label(kind) + " on "@ + device@ + ": "@ + model_dir@,
            ),
        ),
        ..s
    }
}

/// A Qwen3 model could not be imported.
pub open spec fn after_qwen_model_import_failed(
    s: State,
    version: QwenModelVersion,
    kind: QwenModelKind,
    error: String,
) -> State {
    State {
        qwen: QwenState {
            preparing: false,
            progress: None,
            ready: None,
            device: None,
            manual_help_open: true,
            ..s.qwen
        },
        status: Some(
            ui_text::status(
                StatusKind::Error,
                "Qwen3 "@ + qwen_local::version_label(version) + " "@ + qwen_local::kind_label(kind)
                    + " 离线模型导入失败："@ + error@,
                "Could not import the Qwen3 "@ + qwen_local::version_label(version) + " "@
                    + qwen_local::kind_label(kind) + " offline model: "@ + error@,
            ),
        ),
        ..s
    }
}

/// The Qwen3 model was released.
pub open spec fn after_qwen_model_released(s: State) -> State {
    State {
        qwen: QwenState {
            preparing: false,
            progress: None,
            ready: None,
            device: None,
            ..s.qwen
        },
        ..s
    }
}

/// A reference recording is being analysed.
pub open spec fn after_qwen_clone_prompt_preparing(s: State) -> State {
    State {
        status: Some(
            ui_text::status(
                StatusKind::Info,
                "正在本机分析参考音频并创建克隆提示；同一参考音频只处理一次…"@,
                "Analyzing the reference locally and creating the clone prompt once…"@,
            ),
        ),
        ..s
    }
}

/// A reference recording was analysed.
pub open spec fn after_qwen_clone_prompt_ready(s: State) -> State {
    State {
        status: Some(
            ui_text::status(
                StatusKind::Info,
                "克隆提示已在本机就绪，正在使用同一音色生成…"@,
                "The local clone prompt is ready. Generating with the same voice…"@,
            ),
        ),
        ..s
    }
}

/// A segment is being spoken locally.
pub open spec fn after_qwen_progress(s: State, current: usize, total: usize) -> State {
    State {
        subtitle_progress: Some((current, total)),
        status: Some(
            ui_text::status(
                StatusKind::Info,
                "正在本地合成第 "@ + text::decimal(current as nat) + "/"@
                    + text::decimal(total as nat) + " 段…"@,
                "Synthesizing segment "@ + text::decimal(current as nat) + "/"@
                    + text::decimal(total as nat) + " locally…"@,
            ),
        ),
        ..s
    }
}

/// The IndexTTS engine is being made ready; `transfer` is how much of a download is done, as it is
/// shown.
pub open spec fn after_index_tts_preparing(
    s: State,
    phase: String,
    downloaded_bytes: u64,
    total_bytes: u64,
    transfer: String,
) -> State {
    if total_bytes > 0 {
        State {
            indextts: IndexTtsState {
                preparing: true,
                ready: false,
                progress: progress_of(downloaded_bytes, total_bytes),
                progress_label: phase@,
                ..s.indextts
            },
            status: Some(
                ui_text::status(
                    StatusKind::Info,
                    phase@ + transfer@,
                    "IndexTTS-2.5 setup: "@ + phase@ + transfer@,
                ),
            ),
            ..s
        }
    } else {
        State {
            indextts: IndexTtsState {
                preparing: true,
                ready: false,
                progress: progress_of(downloaded_bytes, total_bytes),
                progress_label: phase@,
                ..s.indextts
            },
            status: Some(
                ui_text::status(StatusKind::Info, phase@, "IndexTTS-2.5 setup: "@ + phase@),
            ),
            ..s
        }
    }
}

/// The IndexTTS engine is ready.
pub open spec fn after_index_tts_ready(s: State) -> State {
    State {
        indextts: IndexTtsState {
            preparing: false,
            progress: None,
            ready: true,
            ..s.indextts
        },
        status: Some(
            ui_text::status(
                StatusKind::Info,
                "IndexTTS-2.5 官方 v2.5.0 模型已就绪，正在本机推理…"@,
                "The official IndexTTS-2.5 v2.5.0 model is ready for local inference…"@,
            ),
        ),
        ..s
    }
}

/// Some of the IndexTTS model has been imported; `transfer` is how much, as it is shown.
pub open spec fn after_index_tts_import_progress(
    s: State,
    phase: String,
    copied_bytes: u64,
    total_bytes: u64,
    transfer: String,
) -> State {
    State {
        indextts: IndexTtsState {
            preparing: true,
            ready: false,
            progress: progress_of(copied_bytes, total_bytes),
            progress_label: phase@,
            ..s.indextts
        },
        status: Some(
            ui_text::status(
                StatusKind::Info,
                "正在导入 IndexTTS-2.5 离线模型："@ + phase@ + " · "@ + transfer@,
                "Importing the offline IndexTTS-2.5 model: "@ + phase@ + " · "@ + transfer@,
            ),
        ),
        ..s
    }
}

/// The IndexTTS model was imported.
pub open spec fn after_index_tts_imported(s: State, model_dir: String) -> State {
    State {
        indextts: IndexTtsState {
            preparing: false,
            progress: None,
            manual_help_open: false,
            ..s.indextts
        },
        status: Some(
            ui_text::status(
                StatusKind::Success,
                "IndexTTS-2.5 离线模型已导入："@ + model_dir@
                    + "。请点击“准备模型”完成本机运行环境检查。"@,
                "The offline IndexTTS-2.5 model was imported to "@ + model_dir@
                    + ". Select Prepare model to finish the local runtime check."@,
            ),
        ),
        ..s
    }
}

/// The IndexTTS model could not be imported.
pub open spec fn after_index_tts_import_failed(s: State, error: String) -> State {
    State {
        indextts: IndexTtsState {
            preparing: false,
            progress: None,
            manual_help_open: true,
            ..s.indextts
        },
        status: Some(
            ui_text::status(
                StatusKind::Error,
                "IndexTTS-2.5 离线模型导入失败："@ + error@,
                "Could not import the offline IndexTTS-2.5 model: "@ + error@,
            ),
        ),
        ..s
    }
}

/// The IndexTTS engine could not be made ready.
pub open spec fn after_index_tts_failed(s: State, error: String) -> State {
    if download_control::tells_cancelled(error@) {
        State {
            indextts: IndexTtsState {
                preparing: false,
                progress: None,
                ..s.indextts
            },
            status: Some(
                ui_text::status(
                    StatusKind::Info,
                    "IndexTTS-2.5 下载已取消，临时文件已保留；再次点击“准备模型”即可续传。"@,
                    "IndexTTS-2.5 download cancelled. Partial files were kept; select Prepare model to resume."@,
                ),
            ),
            ..s
        }
    } else {
        State {
            indextts: IndexTtsState {
                preparing: false,
                progress: None,
                ..s.indextts
            },
            status: Some(
                ui_text::status(
                    StatusKind::Error,
                    "IndexTTS-2.5 准备失败："@ + error@,
                    "IndexTTS-2.5 setup failed: "@ + error@,
                ),
            ),
            ..s
        }
    }
}

/// The IndexTTS engine is at work.
pub open spec fn after_index_tts_inference_phase(s: State, phase: String) -> State {
    State {
        status: Some(ui_text::status(StatusKind::Info, phase@, "IndexTTS-2.5: "@ + phase@)),
        ..s
    }
}

/// The preview was played.
pub open spec fn after_preview_finished(s: State) -> State {
    State {
        previewing: false,
        status: Some(
            ui_text::status(StatusKind::Success, "音色试听播放完成。"@, "Voice preview finished."@),
        ),
        ..s
    }
}

/// The preview could not be made or played.
pub open spec fn after_preview_failed(s: State, error: String) -> State {
    if download_control::tells_cancelled(error@) {
        State {
            qwen: QwenState {
                manual_help_open: s.qwen.manual_help_open || opens_help(s, error@),
                preparing: false,
                progress: None,
                ..s.qwen
            },
            indextts: IndexTtsState {
                preparing: false,
                progress: None,
                ..s.indextts
            },
            previewing: false,
            status: Some(
                ui_text::status(
                    StatusKind::Info,
                    "模型下载已取消，临时文件已保留；再次开始时会从已有进度继续。"@,
                    "Model download cancelled. Partial files were kept and will be resumed next time."@,
                ),
            ),
            ..s
        }
    } else {
        State {
            qwen: QwenState {
                manual_help_open: s.qwen.manual_help_open || opens_help(s, error@),
                preparing: false,
                progress: None,
                ..s.qwen
            },
            indextts: IndexTtsState {
                preparing: false,
                progress: None,
                ..s.indextts
            },
            previewing: false,
            status: Some(
                ui_text::status(
                    StatusKind::Error,
                    "试听失败："@ + error@,
                    "Preview failed: "@ + error@,
                ),
            ),
            ..s
        }
    }
}

/// The audio of a text was saved; `kilobytes` is its size, as it is shown.
pub open spec fn after_generation_finished(
    s: State,
    output_path: String,
    kilobytes: String,
) -> State {
    State {
        generating: false,
        subtitle_progress: None,
        audio: AudioState {
            last_path: Some(output_path@),
            player: false,
            loading: true,
            ..s.audio
        },
        status: Some(
            ui_text::status(
                StatusKind::Success,
                "已保存 "@ + kilobytes@ + " KB 到 "@ + output_path@,
                "Saved "@ + kilobytes@ + " KB to "@ + output_path@,
            ),
        ),
        ..s
    }
}

/// A cue is being spoken.
pub open spec fn after_subtitle_progress(s: State, current: usize, total: usize) -> State {
    State {
        subtitle_progress: Some((current, total)),
        status: Some(
            ui_text::status(
                StatusKind::Info,
                "正在合成第 "@ + text::decimal(current as nat) + "/"@ + text::decimal(total as nat)
                    + " 条字幕…"@,
                "Synthesizing subtitle "@ + text::decimal(current as nat) + " of "@
                    + text::decimal(total as nat) + "…"@,
            ),
        ),
        ..s
    }
}

/// The audio of a track was saved; `kilobytes` is its size, as it is shown.
pub open spec fn after_subtitle_generation_finished(
    s: State,
    output_path: String,
    kilobytes: String,
    overflow_count: usize,
) -> State {
    if overflow_count > 0 {
        State {
            generating: false,
            subtitle_progress: None,
            audio: AudioState {
                last_path: Some(output_path@),
                player: false,
                loading: true,
                ..s.audio
            },
            status: Some(
                ui_text::status(
                    StatusKind::Warning,
                    "字幕音频已保存（"@ + kilobytes@ + " KB）；保持所选语速，未自动调速或截断，"@
                        + text::decimal(overflow_count as nat) + " 条超出原时段并顺延："@
                        + output_path@,
                    "Saved subtitle audio ("@ + kilobytes@
                        + " KB); selected speed preserved, no auto-fit or truncation; "@
                        + text::decimal(overflow_count as nat)
                        + " cues extended beyond their slots: "@ + output_path@,
                ),
            ),
            ..s
        }
    } else {
        State {
            generating: false,
            subtitle_progress: None,
            audio: AudioState {
                last_path: Some(output_path@),
                player: false,
                loading: true,
                ..s.audio
            },
            status: Some(
                ui_text::status(
                    StatusKind::Success,
                    "字幕音频已保存（"@ + kilobytes@ + " KB）；保持所选语速，未自动调速或截断："@
                        + output_path@,
                    "Saved subtitle audio ("@ + kilobytes@
                        + " KB); selected speed preserved with no auto-fit or truncation: "@
                        + output_path@,
                ),
            ),
            ..s
        }
    }
}

/// Some of the recognition model has been fetched; `transfer` is how much, as it is shown.
pub open spec fn after_asr_model_progress(
    s: State,
    source: String,
    downloaded_bytes: u64,
    total_bytes: u64,
    transfer: String,
) -> State {
    State {
        transcription: TranscriptionState {
            loading_model: true,
            progress: fetched_fraction(downloaded_bytes, total_bytes),
            ..s.transcription
        },
        status: Some(
            ui_text::status(
                StatusKind::Info,
                "正在准备本地模型："@ + ui_text::source_name(source@) + " · "@ + transfer@,
                "Preparing local model: "@ + ui_text::source_name(source@) + " · "@ + transfer@,
            ),
        ),
        ..s
    }
}

/// The recognition model is there.
pub open spec fn after_asr_model_ready(s: State) -> State {
    State {
        transcription: TranscriptionState {
            loading_model: false,
            progress: Fraction::Ratio { done: 0, total: 1 },
            ..s.transcription
        },
        status: Some(
            ui_text::status(
                StatusKind::Info,
                "模型文件已就绪，正在进行本地语音识别…"@,
                "Model files are ready. Running local speech recognition…"@,
            ),
        ),
        ..s
    }
}

/// The recognition model is being loaded; `percent` is how much, as it is shown.
pub open spec fn after_asr_model_loading(s: State, progress: u32, percent: String) -> State {
    State {
        transcription: TranscriptionState {
            loading_model: true,
            progress: Fraction::Measured(progress),
            ..s.transcription
        },
        status: Some(
            ui_text::status(
                StatusKind::Info,
                "正在将 Whisper 模型载入本地设备… "@ + percent@ + "%"@,
                "Loading Whisper onto the local device… "@ + percent@ + "%"@,
            ),
        ),
        ..s
    }
}

/// Some of a recording was recognised; `percent` is how much, as it is shown.
pub open spec fn after_transcription_progress(
    s: State,
    progress: u32,
    percent: String,
    remaining_seconds: u64,
) -> State {
    State {
        transcription: TranscriptionState {
            loading_model: false,
            progress: Fraction::Measured(progress),
            remaining_seconds: remaining_seconds,
            ..s.transcription
        },
        status: Some(
            ui_text::status(
                StatusKind::Info,
                "正在本地识别… "@ + percent@ + "% · 预计剩余 "@
                    + ui_text::duration_text(remaining_seconds as nat),
                "Transcribing locally… "@ + percent@ + "% · about "@
                    + ui_text::duration_text(remaining_seconds as nat) + " remaining"@,
            ),
        ),
        ..s
    }
}

/// A recording was recognised.
pub open spec fn after_transcription_finished(
    s: State,
    cues: Vec<SubtitleCue>,
    audio_duration_ms: u64,
) -> State {
    State {
        transcription: TranscriptionState {
            loading_model: false,
            running: false,
            progress: Fraction::Ratio { done: 1, total: 1 },
            remaining_seconds: 0,
            output_path: None,
            dirty: true,
            cues: subtitles::cues_of(cues@),
            ..s.transcription
        },
        status: Some(
            ui_text::status(
                StatusKind::Success,
                "已在本机生成 "@ + text::decimal(cues@.len()) + " 条字幕（媒体时长 "@
                    + subtitles::timestamp(audio_duration_ms as nat)
                    + "）。现在可以直接修改文字，确认后再保存。"@,
                "Generated "@ + text::decimal(cues@.len()) + " subtitle cues locally from "@
                    + subtitles::timestamp(audio_duration_ms as nat)
                    + " of media. Edit the text, then save it."@,
            ),
        ),
        ..s
    }
}

/// The subtitles were saved.
pub open spec fn after_transcription_saved(s: State, output_path: String) -> State {
    State {
        transcription: TranscriptionState {
            saving: false,
            dirty: false,
            output_path: Some(output_path@),
            ..s.transcription
        },
        status: Some(
            ui_text::status(
                StatusKind::Success,
                "字幕修改已保存："@ + output_path@,
                "Saved the edited subtitles: "@ + output_path@,
            ),
        ),
        ..s
    }
}

/// The subtitles could not be saved.
pub open spec fn after_transcription_save_failed(s: State, error: String) -> State {
    State {
        transcription: TranscriptionState {
            saving: false,
            ..s.transcription
        },
        status: Some(
            ui_text::status(
                StatusKind::Error,
                "保存字幕失败："@ + error@,
                "Could not save subtitles: "@ + error@,
            ),
        ),
        ..s
    }
}

/// A recording could not be recognised.
pub open spec fn after_transcription_failed(s: State, error: String) -> State {
    State {
        transcription: TranscriptionState {
            loading_model: false,
            running: false,
            saving: false,
            progress: Fraction::Ratio { done: 0, total: 1 },
            remaining_seconds: 0,
            ..s.transcription
        },
        status: Some(
            ui_text::status(
                StatusKind::Error,
                "生成字幕失败："@ + ui_text::chinese_transcription_error(error@),
                "Subtitle generation failed: "@ + error@,
            ),
        ),
        ..s
    }
}

/// The generated audio was decoded.
pub open spec fn after_generated_audio_loaded(s: State, input_path: String) -> State {
    if s.audio.last_path == Some(input_path@) {
        State {
            audio: AudioState {
                loading: false,
                ..s.audio
            },
            ..s
        }
    } else {
        s
    }
}

/// The generated audio could not be decoded.
pub open spec fn after_generated_audio_load_failed(
    s: State,
    input_path: String,
    error: String,
) -> State {
    if s.audio.last_path == Some(input_path@) {
        State {
            audio: AudioState {
                loading: false,
                player: false,
                ..s.audio
            },
            status: Some(
                ui_text::status(
                    StatusKind::Warning,
                    "音频已生成，但无法载入预览："@ + error@,
                    "Audio was generated, but its preview could not load: "@ + error@,
                ),
            ),
            ..s
        }
    } else {
        s
    }
}

/// The audio could not be made.
pub open spec fn after_generation_failed(s: State, error: String) -> State {
    if download_control::tells_cancelled(error@) {
        State {
            qwen: QwenState {
                manual_help_open: s.qwen.manual_help_open || opens_help(s, error@),
                preparing: false,
                progress: None,
                ..s.qwen
            },
            indextts: IndexTtsState {
                preparing: false,
                progress: None,
                ..s.indextts
            },
            generating: false,
            subtitle_progress: None,
            status: Some(
                ui_text::status(
                    StatusKind::Info,
                    "模型下载已取消，临时文件已保留；再次开始时会从已有进度继续。"@,
                    "Model download cancelled. Partial files were kept and will be resumed next time."@,
                ),
            ),
            ..s
        }
    } else {
        State {
            qwen: QwenState {
                manual_help_open: s.qwen.manual_help_open || opens_help(s, error@),
                preparing: false,
                progress: None,
                ..s.qwen
            },
            indextts: IndexTtsState {
                preparing: false,
                progress: None,
                ..s.indextts
            },
            generating: false,
            subtitle_progress: None,
            status: Some(ui_text::status(StatusKind::Error, "生成语音失败："@ + error@, error@)),
            ..s
        }
    }
}

/// The worker came to an end.
pub open spec fn after_worker_failed(s: State, error: String) -> State {
    State {
        fetching_voices: false,
        qwen: QwenState {
            preparing: false,
            ..s.qwen
        },
        indextts: IndexTtsState {
            preparing: false,
            progress: None,
            ..s.indextts
        },
        previewing: false,
        generating: false,
        transcription: TranscriptionState {
            loading_model: false,
            running: false,
            saving: false,
            ..s.transcription
        },
        subtitle_progress: None,
        status: Some(ui_text::status(StatusKind::Error, "语音服务异常："@ + error@, error@)),
        ..s
    }
}

/// The state after an event.
#[verifier::opaque]
pub open spec fn after_event(s: State, event: WorkerEvent) -> State {
    match event {
        WorkerEvent::VoicesLoaded { voices, from_cache, warning } => after_voices_loaded(
            s,
            voices::voices_of(voices@),
            from_cache,
            qwen_local::optional_text(warning),
        ),
        WorkerEvent::VoicesFailed(error) => after_voices_failed(s, error),
        WorkerEvent::QwenModelPreparing { version, kind } => after_qwen_model_preparing(
            s,
            version,
            kind,
        ),
        WorkerEvent::QwenModelDownload {
            version,
            kind,
            file,
            downloaded_bytes,
            total_bytes,
            transfer,
        } => after_qwen_model_download(
            s,
            version,
            kind,
            file,
            downloaded_bytes,
            total_bytes,
            transfer,
        ),
        WorkerEvent::QwenModelReady { version, kind, device } => after_qwen_model_ready(
            s,
            version,
            kind,
            device,
        ),
        WorkerEvent::QwenModelFailed(error) => after_qwen_model_failed(s, error),
        WorkerEvent::QwenModelImportProgress {
            version,
            kind,
            file,
            copied_bytes,
            total_bytes,
            transfer,
        } => after_qwen_model_import_progress(
            s,
            version,
            kind,
            file,
            copied_bytes,
            total_bytes,
            transfer,
        ),
        WorkerEvent::QwenModelImported {
            version,
            kind,
            device,
            model_dir,
        } => after_qwen_model_imported(
            s,
            version,
            kind,
            device,
            model_dir,
        ),
        WorkerEvent::QwenModelImportFailed {
            version,
            kind,
            error,
        } => after_qwen_model_import_failed(
            s,
            version,
            kind,
            error,
        ),
        WorkerEvent::QwenModelReleased => after_qwen_model_released(s),
        WorkerEvent::QwenClonePromptPreparing => after_qwen_clone_prompt_preparing(s),
        WorkerEvent::QwenClonePromptReady => after_qwen_clone_prompt_ready(s),
        WorkerEvent::QwenProgress { current, total } => after_qwen_progress(s, current, total),
        WorkerEvent::IndexTtsPreparing {
            phase,
            downloaded_bytes,
            total_bytes,
            transfer,
        } => after_index_tts_preparing(
            s,
            phase,
            downloaded_bytes,
            total_bytes,
            transfer,
        ),
        WorkerEvent::IndexTtsReady => after_index_tts_ready(s),
        WorkerEvent::IndexTtsImportProgress {
            phase,
            copied_bytes,
            total_bytes,
            transfer,
        } => after_index_tts_import_progress(
            s,
            phase,
            copied_bytes,
            total_bytes,
            transfer,
        ),
        WorkerEvent::IndexTtsImported { model_dir } => after_index_tts_imported(s, model_dir),
        WorkerEvent::IndexTtsImportFailed(error) => after_index_tts_import_failed(s, error),
        WorkerEvent::IndexTtsFailed(error) => after_index_tts_failed(s, error),
        WorkerEvent::IndexTtsInferencePhase(phase) => after_index_tts_inference_phase(s, phase),
        WorkerEvent::PreviewFinished => after_preview_finished(s),
        WorkerEvent::PreviewFailed(error) => after_preview_failed(s, error),
        WorkerEvent::GenerationFinished { output_path, kilobytes } => after_generation_finished(
            s,
            output_path,
            kilobytes,
        ),
        WorkerEvent::SubtitleProgress { current, total } => after_subtitle_progress(
            s,
            current,
            total,
        ),
        WorkerEvent::SubtitleGenerationFinished {
            output_path,
            kilobytes,
            overflow_count,
        } => after_subtitle_generation_finished(
            s,
            output_path,
            kilobytes,
            overflow_count,
        ),
        WorkerEvent::AsrModelProgress {
            source,
            downloaded_bytes,
            total_bytes,
            transfer,
        } => after_asr_model_progress(
            s,
            source,
            downloaded_bytes,
            total_bytes,
            transfer,
        ),
        WorkerEvent::AsrModelReady => after_asr_model_ready(s),
        WorkerEvent::AsrModelLoading { progress, percent } => after_asr_model_loading(
            s,
            progress,
            percent,
        ),
        WorkerEvent::TranscriptionProgress {
            progress,
            percent,
            remaining_seconds,
        } => after_transcription_progress(
            s,
            progress,
            percent,
            remaining_seconds,
        ),
        WorkerEvent::TranscriptionFinished {
            cues,
            audio_duration_ms,
        } => after_transcription_finished(
            s,
            cues,
            audio_duration_ms,
        ),
        WorkerEvent::TranscriptionSaved(output_path) => after_transcription_saved(s, output_path),
        WorkerEvent::TranscriptionSaveFailed(error) => after_transcription_save_failed(s, error),
        WorkerEvent::TranscriptionFailed(error) => after_transcription_failed(s, error),
        WorkerEvent::GeneratedAudioLoaded { input_path } => after_generated_audio_loaded(
            s,
            input_path,
        ),
        WorkerEvent::GeneratedAudioLoadFailed {
            input_path,
            error,
        } => after_generated_audio_load_failed(
            s,
            input_path,
            error,
        ),
        WorkerEvent::GenerationFailed(error) => after_generation_failed(s, error),
        WorkerEvent::WorkerFailed(error) => after_worker_failed(s, error),
    }
}

/// What is to be done after an event.
pub open spec fn is_follow_up(s: State, event: WorkerEvent, follow_up: Option<FollowUp>) -> bool {
    match event {
        WorkerEvent::GenerationFinished { output_path, kilobytes } => follow_up matches Some(
            FollowUp::LoadGeneratedAudio(path),
        ) && path@ == output_path@,
        WorkerEvent::SubtitleGenerationFinished {
            output_path,
            kilobytes,
            overflow_count,
        } => follow_up matches Some(
            FollowUp::LoadGeneratedAudio(path),
        ) && path@ == output_path@,
        WorkerEvent::GeneratedAudioLoaded { input_path } => if s.audio.last_path == Some(
            input_path@,
        ) {
            follow_up == Some(FollowUp::CreatePlayer)
        } else {
            follow_up is None
        },
        _ => follow_up is None,
    }
}

impl Studio {
    /// Whether an error opens the instructions for fetching a model by hand.
    fn help_opens(&self, error: &str) -> (opens: bool)
        ensures
            opens == opens_help(self@, error@),
    {
        !download_control::is_download_cancelled(error) && self.qwen.preparing
            && self.selection.tts_engine == TtsEngine::Qwen3Local
    }

    /// Whether a path is that of the audio that was generated last.
    fn is_last_audio(&self, path: &str) -> (last: bool)
        ensures
            last == (self@.audio.last_path == Some(path@)),
    {
        match &self.audio.last_path {
            Some(last) => {
                let chars = text::chars_of(last.as_str());
                text::same_text(chars.as_slice(), path)
            },
            None => false,
        }
    }

    fn on_voices_loaded(
        &mut self,
        voices: Vec<VoiceChoice>,
        from_cache: bool,
        warning: Option<String>,
    )
        ensures
            final(self)@ == after_voices_loaded(
                old(self)@,
                voices::voices_of(voices@),
                from_cache,
                qwen_local::optional_text(warning),
            ),
    {
        let ghost s = self@;
        let ghost all = voices::voices_of(voices@);
        let ghost warned = qwen_local::optional_text(warning);
        let mut selected: Option<usize> = None;
        if let Some(index) = self.selection.selected_voice {
            if index < self.selection.voices.len() {
                assert(s.selection.voices[index as int] == self.selection.voices@[index as int]@);
                selected = voices::find_voice(
                    &voices,
                    self.selection.voices[index].short_name.as_str(),
                );
            }
        }
        if selected.is_none() {
            selected = voices::find_voice(&voices, studio::PREFERRED_VOICE);
        }
        if selected.is_none() && voices.len() > 0 {
            selected = Some(0);
        }
        assert(selected == reselected(all, selected_name(s)));
        let count = text::number_text(voices.len() as u64);
        self.status = Some(
            match warning {
                Some(warning) => StatusMessage::new(
                    StatusKind::Warning,
                    "音色列表已加载，但遇到提示：".to_string().concat(warning.as_str()),
                    warning,
                ),
                None => StatusMessage::new(
                    StatusKind::Success,
                    "已加载 ".to_string().concat(count.as_str()).concat(" 个音色").concat(
                        if from_cache {
                            "（来自本地缓存）"
                        } else {
                            ""
                        },
                    ).concat("。"),
                    "Loaded ".to_string().concat(count.as_str()).concat(" voices").concat(
                        if from_cache {
                            " from cache"
                        } else {
                            ""
                        },
                    ).concat("."),
                ),
            },
        );
        self.selection.voices = voices;
        self.fetching_voices = false;
        self.selection.selected_voice = selected;
    }

    fn on_voices_failed(&mut self, error: String)
        ensures
            final(self)@ == after_voices_failed(old(self)@, error),
    {
        self.fetching_voices = false;
        self.status = Some(
            StatusMessage::new(
                StatusKind::Error,
                "加载音色失败：".to_string().concat(error.as_str()),
                error.clone(),
            ),
        );
    }

    fn on_qwen_model_preparing(&mut self, version: QwenModelVersion, kind: QwenModelKind)
        ensures
            final(self)@ == after_qwen_model_preparing(old(self)@, version, kind),
    {
        self.qwen.preparing = true;
        self.qwen.progress = Some((0, 1));
        self.qwen.progress_label = "Qwen3 ".to_string()
            .concat(version.short_label())
            .concat(" ")
            .concat(kind.short_label());
        self.qwen.ready = None;
        self.status = Some(
            StatusMessage::new(
                StatusKind::Info,
                "正在准备 Qwen3-TTS ".to_string()
                    .concat(version.short_label())
                    .concat(" ")
                    .concat(kind.short_label())
                    .concat(" 本地模型，首次使用需下载约 ")
                    .concat(version.download_size_label())
                    .concat("…"),
                "Preparing the local Qwen3-TTS ".to_string()
                    .concat(version.short_label())
                    .concat(" ")
                    .concat(kind.short_label())
                    .concat(" model. The first run downloads about ")
                    .concat(version.download_size_label())
                    .concat("…"),
            ),
        );
    }

    fn on_qwen_model_download(
        &mut self,
        version: QwenModelVersion,
        kind: QwenModelKind,
        file: String,
        downloaded_bytes: u64,
        total_bytes: u64,
        transfer: String,
    )
        ensures
            final(self)@ == after_qwen_model_download(
                old(self)@,
                version,
                kind,
                file,
                downloaded_bytes,
                total_bytes,
                transfer,
            ),
    {
        let chosen = is_model_loading(file.as_str());
        self.qwen.preparing = true;
        if chosen {
            self.qwen.progress = None;
            self.qwen.progress_label = self.ui_language.text(
                "正在载入 Qwen3 模型",
                "Loading the Qwen3 model",
            ).to_string();
            self.status = Some(
                StatusMessage::new(
                    StatusKind::Info,
                    "Qwen3-TTS ".to_string()
                        .concat(version.short_label())
                        .concat(" ")
                        .concat(kind.short_label())
                        .concat(" 已下载，正在载入本地推理设备…"),
                    "Qwen3-TTS ".to_string()
                        .concat(version.short_label())
                        .concat(" ")
                        .concat(kind.short_label())
                        .concat(" is downloaded and loading onto the local device…"),
                ),
            );
        } else {
            self.qwen.progress = known_progress(downloaded_bytes, total_bytes);
            self.qwen.progress_label = model_file_label(
                file.as_str(),
                UiLanguage::Chinese,
            ).to_string();
            let chinese_file = model_file_label(file.as_str(), UiLanguage::Chinese);
            let english_file = model_file_label(file.as_str(), UiLanguage::English);
            self.status = Some(
                StatusMessage::new(
                    StatusKind::Info,
                    "正在下载 Qwen3 ".to_string()
                        .concat(version.short_label())
                        .concat(" ")
                        .concat(kind.short_label())
                        .concat(" ")
                        .concat(chinese_file)
                        .concat("：")
                        .concat(transfer.as_str()),
                    "Downloading Qwen3 ".to_string()
                        .concat(version.short_label())
                        .concat(" ")
                        .concat(kind.short_label())
                        .concat(" ")
                        .concat(english_file)
                        .concat(": ")
                        .concat(transfer.as_str()),
                ),
            );
        }
    }

    fn on_qwen_model_ready(
        &mut self,
        version: QwenModelVersion,
        kind: QwenModelKind,
        device: String,
    )
        ensures
            final(self)@ == after_qwen_model_ready(old(self)@, version, kind, device),
    {
        let chosen = self.generating || self.previewing;
        self.qwen.preparing = false;
        self.qwen.progress = None;
        self.qwen.ready = Some((version, kind));
        self.qwen.device = Some(device.clone());
        if chosen {
            self.status = Some(
                StatusMessage::new(
                    StatusKind::Info,
                    "Qwen3-TTS ".to_string()
                        .concat(version.short_label())
                        .concat(" ")
                        .concat(kind.short_label())
                        .concat(" 已就绪，正在使用 ")
                        .concat(device.as_str())
                        .concat(" 本地生成…"),
                    "Qwen3-TTS ".to_string()
                        .concat(version.short_label())
                        .concat(" ")
                        .concat(kind.short_label())
                        .concat(" is ready. Generating locally with ")
                        .concat(device.as_str())
                        .concat("…"),
                ),
            );
        } else {
            self.status = Some(
                StatusMessage::new(
                    StatusKind::Success,
                    "Qwen3-TTS ".to_string()
                        .concat(version.short_label())
                        .concat(" ")
                        .concat(kind.short_label())
                        .concat(" 已下载并载入（")
                        .concat(device.as_str())
                        .concat("）。"),
                    "Qwen3-TTS ".to_string()
                        .concat(version.short_label())
                        .concat(" ")
                        .concat(kind.short_label())
                        .concat(" is downloaded and loaded on ")
                        .concat(device.as_str())
                        .concat("."),
                ),
            );
        }
    }

    fn on_qwen_model_failed(&mut self, error: String)
        ensures
            final(self)@ == after_qwen_model_failed(old(self)@, error),
    {
        let chosen = download_control::is_download_cancelled(error.as_str());
        self.qwen.manual_help_open = self.qwen.manual_help_open || self.help_opens(error.as_str());
        self.qwen.preparing = false;
        self.qwen.progress = None;
        self.qwen.ready = None;
        self.qwen.device = None;
        if chosen {
            self.status = Some(
                StatusMessage::fixed(
                    StatusKind::Info,
                    "模型下载已取消，临时文件已保留；再次开始时会从已有进度继续。",
                    "Model download cancelled. Partial files were kept and will be resumed next time.",
                ),
            );
        } else {
            self.status = Some(
                StatusMessage::new(
                    StatusKind::Error,
                    "Qwen3-TTS 模型准备失败：".to_string().concat(error.as_str()),
                    "Qwen3-TTS model setup failed: ".to_string().concat(error.as_str()),
                ),
            );
        }
    }

    fn on_qwen_model_import_progress(
        &mut self,
        version: QwenModelVersion,
        kind: QwenModelKind,
        file: String,
        copied_bytes: u64,
        total_bytes: u64,
        transfer: String,
    )
        ensures
            final(self)@ == after_qwen_model_import_progress(
                old(self)@,
                version,
                kind,
                file,
                copied_bytes,
                total_bytes,
                transfer,
            ),
    {
        self.qwen.preparing = true;
        self.qwen.progress = known_progress(copied_bytes, total_bytes);
        self.qwen.progress_label = model_file_label(file.as_str(), UiLanguage::Chinese).to_string();
        let chinese_file = model_file_label(file.as_str(), UiLanguage::Chinese);
        let english_file = model_file_label(file.as_str(), UiLanguage::English);
        self.status = Some(
            StatusMessage::new(
                StatusKind::Info,
                "正在导入 Qwen3 ".to_string()
                    .concat(version.short_label())
                    .concat(" ")
                    .concat(kind.short_label())
                    .concat(" ")
                    .concat(chinese_file)
                    .concat("：")
                    .concat(transfer.as_str()),
                "Importing Qwen3 ".to_string()
                    .concat(version.short_label())
                    .concat(" ")
                    .concat(kind.short_label())
                    .concat(" ")
                    .concat(english_file)
                    .concat(": ")
                    .concat(transfer.as_str()),
            ),
        );
    }

    fn on_qwen_model_imported(
        &mut self,
        version: QwenModelVersion,
        kind: QwenModelKind,
        device: String,
        model_dir: String,
    )
        ensures
            final(self)@ == after_qwen_model_imported(old(self)@, version, kind, device, model_dir),
    {
        self.qwen.preparing = false;
        self.qwen.progress = None;
        self.qwen.ready = Some((version, kind));
        self.qwen.device = Some(device.clone());
        self.qwen.manual_help_open = false;
        self.status = Some(
            StatusMessage::new(
                StatusKind::Success,
                "已导入并加载 Qwen3-TTS ".to_string()
                    .concat(version.short_label())
                    .concat(" ")
                    .concat(kind.short_label())
                    .concat("（")
                    .concat(device.as_str())
                    .concat("）：")
                    .concat(model_dir.as_str()),
                "Imported and loaded Qwen3-TTS ".to_string()
                    .concat(version.short_label())
                    .concat(" ")
                    .concat(kind.short_label())
                    .concat(" on ")
                    .concat(device.as_str())
                    .concat(": ")
                    .concat(model_dir.as_str()),
            ),
        );
    }

    fn on_qwen_model_import_failed(
        &mut self,
        version: QwenModelVersion,
        kind: QwenModelKind,
        error: String,
    )
        ensures
            final(self)@ == after_qwen_model_import_failed(old(self)@, version, kind, error),
    {
        self.qwen.preparing = false;
        self.qwen.progress = None;
        self.qwen.ready = None;
        self.qwen.device = None;
        self.qwen.manual_help_open = true;
        self.status = Some(
            StatusMessage::new(
                StatusKind::Error,
                "Qwen3 ".to_string()
                    .concat(version.short_label())
                    .concat(" ")
                    .concat(kind.short_label())
                    .concat(" 离线模型导入失败：")
                    .concat(error.as_str()),
                "Could not import the Qwen3 ".to_string()
                    .concat(version.short_label())
                    .concat(" ")
                    .concat(kind.short_label())
                    .concat(" offline model: ")
                    .concat(error.as_str()),
            ),
        );
    }

    fn on_qwen_model_released(&mut self)
        ensures
            final(self)@ == after_qwen_model_released(old(self)@),
    {
        self.qwen.preparing = false;
        self.qwen.progress = None;
        self.qwen.ready = None;
        self.qwen.device = None;
    }

    fn on_qwen_clone_prompt_preparing(&mut self)
        ensures
            final(self)@ == after_qwen_clone_prompt_preparing(old(self)@),
    {
        self.status = Some(
            StatusMessage::fixed(
                StatusKind::Info,
                "正在本机分析参考音频并创建克隆提示；同一参考音频只处理一次…",
                "Analyzing the reference locally and creating the clone prompt once…",
            ),
        );
    }

    fn on_qwen_clone_prompt_ready(&mut self)
        ensures
            final(self)@ == after_qwen_clone_prompt_ready(old(self)@),
    {
        self.status = Some(
            StatusMessage::fixed(
                StatusKind::Info,
                "克隆提示已在本机就绪，正在使用同一音色生成…",
                "The local clone prompt is ready. Generating with the same voice…",
            ),
        );
    }

    fn on_qwen_progress(&mut self, current: usize, total: usize)
        ensures
            final(self)@ == after_qwen_progress(old(self)@, current, total),
    {
        self.subtitle_progress = Some((current, total));
        let current_text = text::number_text(current as u64);
        let total_text = text::number_text(total as u64);
        self.status = Some(
            StatusMessage::new(
                StatusKind::Info,
                "正在本地合成第 ".to_string()
                    .concat(current_text.as_str())
                    .concat("/")
                    .concat(total_text.as_str())
                    .concat(" 段…"),
                "Synthesizing segment ".to_string()
                    .concat(current_text.as_str())
                    .concat("/")
                    .concat(total_text.as_str())
                    .concat(" locally…"),
            ),
        );
    }

    fn on_index_tts_preparing(
        &mut self,
        phase: String,
        downloaded_bytes: u64,
        total_bytes: u64,
        transfer: String,
    )
        ensures
            final(self)@ == after_index_tts_preparing(
                old(self)@,
                phase,
                downloaded_bytes,
                total_bytes,
                transfer,
            ),
    {
        let chosen = total_bytes > 0;
        self.indextts.preparing = true;
        self.indextts.ready = false;
        self.indextts.progress = known_progress(downloaded_bytes, total_bytes);
        self.indextts.progress_label = phase.clone();
        if chosen {
            self.status = Some(
                StatusMessage::new(
                    StatusKind::Info,
                    phase.clone().concat(transfer.as_str()),
                    "IndexTTS-2.5 setup: ".to_string()
                        .concat(phase.as_str())
                        .concat(transfer.as_str()),
                ),
            );
        } else {
            self.status = Some(
                StatusMessage::new(
                    StatusKind::Info,
                    phase.clone(),
                    "IndexTTS-2.5 setup: ".to_string().concat(phase.as_str()),
                ),
            );
        }
    }

    fn on_index_tts_ready(&mut self)
        ensures
            final(self)@ == after_index_tts_ready(old(self)@),
    {
        self.indextts.preparing = false;
        self.indextts.progress = None;
        self.indextts.ready = true;
        self.status = Some(
            StatusMessage::fixed(
                StatusKind::Info,
                "IndexTTS-2.5 官方 v2.5.0 模型已就绪，正在本机推理…",
                "The official IndexTTS-2.5 v2.5.0 model is ready for local inference…",
            ),
        );
    }

    fn on_index_tts_import_progress(
        &mut self,
        phase: String,
        copied_bytes: u64,
        total_bytes: u64,
        transfer: String,
    )
        ensures
            final(self)@ == after_index_tts_import_progress(
                old(self)@,
                phase,
                copied_bytes,
                total_bytes,
                transfer,
            ),
    {
        self.indextts.preparing = true;
        self.indextts.ready = false;
        self.indextts.progress = known_progress(copied_bytes, total_bytes);
        self.indextts.progress_label = phase.clone();
        self.status = Some(
            StatusMessage::new(
                StatusKind::Info,
                "正在导入 IndexTTS-2.5 离线模型：".to_string()
                    .concat(phase.as_str())
                    .concat(" · ")
                    .concat(transfer.as_str()),
                "Importing the offline IndexTTS-2.5 model: ".to_string()
                    .concat(phase.as_str())
                    .concat(" · ")
                    .concat(transfer.as_str()),
            ),
        );
    }

    fn on_index_tts_imported(&mut self, model_dir: String)
        ensures
            final(self)@ == after_index_tts_imported(old(self)@, model_dir),
    {
        self.indextts.preparing = false;
        self.indextts.progress = None;
        self.indextts.manual_help_open = false;
        self.status = Some(
            StatusMessage::new(
                StatusKind::Success,
                "IndexTTS-2.5 离线模型已导入：".to_string()
                    .concat(model_dir.as_str())
                    .concat("。请点击“准备模型”完成本机运行环境检查。"),
                "The offline IndexTTS-2.5 model was imported to ".to_string()
                    .concat(model_dir.as_str())
                    .concat(". Select Prepare model to finish the local runtime check."),
            ),
        );
    }

    fn on_index_tts_import_failed(&mut self, error: String)
        ensures
            final(self)@ == after_index_tts_import_failed(old(self)@, error),
    {
        self.indextts.preparing = false;
        self.indextts.progress = None;
        self.indextts.manual_help_open = true;
        self.status = Some(
            StatusMessage::new(
                StatusKind::Error,
                "IndexTTS-2.5 离线模型导入失败：".to_string().concat(error.as_str()),
                "Could not import the offline IndexTTS-2.5 model: ".to_string().concat(
                    error.as_str(),
                ),
            ),
        );
    }

    fn on_index_tts_failed(&mut self, error: String)
        ensures
            final(self)@ == after_index_tts_failed(old(self)@, error),
    {
        let chosen = download_control::is_download_cancelled(error.as_str());
        self.indextts.preparing = false;
        self.indextts.progress = None;
        if chosen {
            self.status = Some(
                StatusMessage::fixed(
                    StatusKind::Info,
                    "IndexTTS-2.5 下载已取消，临时文件已保留；再次点击“准备模型”即可续传。",
                    "IndexTTS-2.5 download cancelled. Partial files were kept; select Prepare model to resume.",
                ),
            );
        } else {
            self.status = Some(
                StatusMessage::new(
                    StatusKind::Error,
                    "IndexTTS-2.5 准备失败：".to_string().concat(error.as_str()),
                    "IndexTTS-2.5 setup failed: ".to_string().concat(error.as_str()),
                ),
            );
        }
    }

    fn on_index_tts_inference_phase(&mut self, phase: String)
        ensures
            final(self)@ == after_index_tts_inference_phase(old(self)@, phase),
    {
        self.status = Some(
            StatusMessage::new(
                StatusKind::Info,
                phase.clone(),
                "IndexTTS-2.5: ".to_string().concat(phase.as_str()),
            ),
        );
    }

    fn on_preview_finished(&mut self)
        ensures
            final(self)@ == after_preview_finished(old(self)@),
    {
        self.previewing = false;
        self.status = Some(
            StatusMessage::fixed(
                StatusKind::Success,
                "音色试听播放完成。",
                "Voice preview finished.",
            ),
        );
    }

    fn on_preview_failed(&mut self, error: String)
        ensures
            final(self)@ == after_preview_failed(old(self)@, error),
    {
        let chosen = download_control::is_download_cancelled(error.as_str());
        self.qwen.manual_help_open = self.qwen.manual_help_open || self.help_opens(error.as_str());
        self.qwen.preparing = false;
        self.qwen.progress = None;
        self.indextts.preparing = false;
        self.indextts.progress = None;
        self.previewing = false;
        if chosen {
            self.status = Some(
                StatusMessage::fixed(
                    StatusKind::Info,
                    "模型下载已取消，临时文件已保留；再次开始时会从已有进度继续。",
                    "Model download cancelled. Partial files were kept and will be resumed next time.",
                ),
            );
        } else {
            self.status = Some(
                StatusMessage::new(
                    StatusKind::Error,
                    "试听失败：".to_string().concat(error.as_str()),
                    "Preview failed: ".to_string().concat(error.as_str()),
                ),
            );
        }
    }

    fn on_generation_finished(&mut self, output_path: String, kilobytes: String)
        ensures
            final(self)@ == after_generation_finished(old(self)@, output_path, kilobytes),
    {
        self.generating = false;
        self.subtitle_progress = None;
        self.audio.last_path = Some(output_path.clone());
        self.audio.player = false;
        self.audio.loading = true;
        self.status = Some(
            StatusMessage::new(
                StatusKind::Success,
                "已保存 ".to_string()
                    .concat(kilobytes.as_str())
                    .concat(" KB 到 ")
                    .concat(output_path.as_str()),
                "Saved ".to_string()
                    .concat(kilobytes.as_str())
                    .concat(" KB to ")
                    .concat(output_path.as_str()),
            ),
        );
    }

    fn on_subtitle_progress(&mut self, current: usize, total: usize)
        ensures
            final(self)@ == after_subtitle_progress(old(self)@, current, total),
    {
        self.subtitle_progress = Some((current, total));
        let current_text = text::number_text(current as u64);
        let total_text = text::number_text(total as u64);
        self.status = Some(
            StatusMessage::new(
                StatusKind::Info,
                "正在合成第 ".to_string()
                    .concat(current_text.as_str())
                    .concat("/")
                    .concat(total_text.as_str())
                    .concat(" 条字幕…"),
                "Synthesizing subtitle ".to_string()
                    .concat(current_text.as_str())
                    .concat(" of ")
                    .concat(total_text.as_str())
                    .concat("…"),
            ),
        );
    }

    fn on_subtitle_generation_finished(
        &mut self,
        output_path: String,
        kilobytes: String,
        overflow_count: usize,
    )
        ensures
            final(self)@ == after_subtitle_generation_finished(
                old(self)@,
                output_path,
                kilobytes,
                overflow_count,
            ),
    {
        let chosen = overflow_count > 0;
        self.generating = false;
        self.subtitle_progress = None;
        self.audio.last_path = Some(output_path.clone());
        self.audio.player = false;
        self.audio.loading = true;
        if chosen {
            let overflow_count_text = text::number_text(overflow_count as u64);
            self.status = Some(
                StatusMessage::new(
                    StatusKind::Warning,
                    "字幕音频已保存（".to_string()
                        .concat(kilobytes.as_str())
                        .concat(" KB）；保持所选语速，未自动调速或截断，")
                        .concat(overflow_count_text.as_str())
                        .concat(" 条超出原时段并顺延：")
                        .concat(output_path.as_str()),
                    "Saved subtitle audio (".to_string()
                        .concat(kilobytes.as_str())
                        .concat(" KB); selected speed preserved, no auto-fit or truncation; ")
                        .concat(overflow_count_text.as_str())
                        .concat(" cues extended beyond their slots: ")
                        .concat(output_path.as_str()),
                ),
            );
        } else {
            self.status = Some(
                StatusMessage::new(
                    StatusKind::Success,
                    "字幕音频已保存（".to_string()
                        .concat(kilobytes.as_str())
                        .concat(" KB）；保持所选语速，未自动调速或截断：")
                        .concat(output_path.as_str()),
                    "Saved subtitle audio (".to_string()
                        .concat(kilobytes.as_str())
                        .concat(" KB); selected speed preserved with no auto-fit or truncation: ")
                        .concat(output_path.as_str()),
                ),
            );
        }
    }

    fn on_asr_model_progress(
        &mut self,
        source: String,
        downloaded_bytes: u64,
        total_bytes: u64,
        transfer: String,
    )
        ensures
            final(self)@ == after_asr_model_progress(
                old(self)@,
                source,
                downloaded_bytes,
                total_bytes,
                transfer,
            ),
    {
        self.transcription.loading_model = true;
        self.transcription.progress = fraction_of(downloaded_bytes, total_bytes);
        self.status = Some(
            StatusMessage::new(
                StatusKind::Info,
                "正在准备本地模型：".to_string()
                    .concat(ui_text::compact_model_source(source.as_str()))
                    .concat(" · ")
                    .concat(transfer.as_str()),
                "Preparing local model: ".to_string()
                    .concat(ui_text::compact_model_source(source.as_str()))
                    .concat(" · ")
                    .concat(transfer.as_str()),
            ),
        );
    }

    fn on_asr_model_ready(&mut self)
        ensures
            final(self)@ == after_asr_model_ready(old(self)@),
    {
        self.transcription.loading_model = false;
        self.transcription.progress = Fraction::Ratio { done: 0, total: 1 };
        self.status = Some(
            StatusMessage::fixed(
                StatusKind::Info,
                "模型文件已就绪，正在进行本地语音识别…",
                "Model files are ready. Running local speech recognition…",
            ),
        );
    }

    fn on_asr_model_loading(&mut self, progress: u32, percent: String)
        ensures
            final(self)@ == after_asr_model_loading(old(self)@, progress, percent),
    {
        self.transcription.loading_model = true;
        self.transcription.progress = Fraction::Measured(progress);
        self.status = Some(
            StatusMessage::new(
                StatusKind::Info,
                "正在将 Whisper 模型载入本地设备… ".to_string()
                    .concat(percent.as_str())
                    .concat("%"),
                "Loading Whisper onto the local device… ".to_string()
                    .concat(percent.as_str())
                    .concat("%"),
            ),
        );
    }

    fn on_transcription_progress(&mut self, progress: u32, percent: String, remaining_seconds: u64)
        ensures
            final(self)@ == after_transcription_progress(
                old(self)@,
                progress,
                percent,
                remaining_seconds,
            ),
    {
        let remaining = ui_text::format_duration_seconds(remaining_seconds);
        self.transcription.loading_model = false;
        self.transcription.progress = Fraction::Measured(progress);
        self.transcription.remaining_seconds = remaining_seconds;
        self.status = Some(
            StatusMessage::new(
                StatusKind::Info,
                "正在本地识别… ".to_string()
                    .concat(percent.as_str())
                    .concat("% · 预计剩余 ")
                    .concat(remaining.as_str()),
                "Transcribing locally… ".to_string()
                    .concat(percent.as_str())
                    .concat("% · about ")
                    .concat(remaining.as_str())
                    .concat(" remaining"),
            ),
        );
    }

    fn on_transcription_finished(&mut self, cues: Vec<SubtitleCue>, audio_duration_ms: u64)
        ensures
            final(self)@ == after_transcription_finished(old(self)@, cues, audio_duration_ms),
    {
        let count = text::number_text(cues.len() as u64);
        let duration = subtitles::format_timestamp(audio_duration_ms);
        self.status = Some(
            StatusMessage::new(
                StatusKind::Success,
                "已在本机生成 ".to_string()
                    .concat(count.as_str())
                    .concat(" 条字幕（媒体时长 ")
                    .concat(duration.as_str())
                    .concat("）。现在可以直接修改文字，确认后再保存。"),
                "Generated ".to_string()
                    .concat(count.as_str())
                    .concat(" subtitle cues locally from ")
                    .concat(duration.as_str())
                    .concat(" of media. Edit the text, then save it."),
            ),
        );
        self.transcription.loading_model = false;
        self.transcription.running = false;
        self.transcription.progress = Fraction::Ratio { done: 1, total: 1 };
        self.transcription.remaining_seconds = 0;
        self.transcription.output_path = None;
        self.transcription.dirty = true;
        self.transcription.cues = cues;
    }

    fn on_transcription_saved(&mut self, output_path: String)
        ensures
            final(self)@ == after_transcription_saved(old(self)@, output_path),
    {
        self.transcription.saving = false;
        self.transcription.dirty = false;
        self.transcription.output_path = Some(output_path.clone());
        self.status = Some(
            StatusMessage::new(
                StatusKind::Success,
                "字幕修改已保存：".to_string().concat(output_path.as_str()),
                "Saved the edited subtitles: ".to_string().concat(output_path.as_str()),
            ),
        );
    }

    fn on_transcription_save_failed(&mut self, error: String)
        ensures
            final(self)@ == after_transcription_save_failed(old(self)@, error),
    {
        self.transcription.saving = false;
        self.status = Some(
            StatusMessage::new(
                StatusKind::Error,
                "保存字幕失败：".to_string().concat(error.as_str()),
                "Could not save subtitles: ".to_string().concat(error.as_str()),
            ),
        );
    }

    fn on_transcription_failed(&mut self, error: String)
        ensures
            final(self)@ == after_transcription_failed(old(self)@, error),
    {
        let localized = ui_text::localized_transcription_error(error.as_str());
        self.transcription.loading_model = false;
        self.transcription.running = false;
        self.transcription.saving = false;
        self.transcription.progress = Fraction::Ratio { done: 0, total: 1 };
        self.transcription.remaining_seconds = 0;
        self.status = Some(
            StatusMessage::new(
                StatusKind::Error,
                "生成字幕失败：".to_string().concat(localized.as_str()),
                "Subtitle generation failed: ".to_string().concat(error.as_str()),
            ),
        );
    }

    fn on_generated_audio_loaded(&mut self, input_path: String)
        ensures
            final(self)@ == after_generated_audio_loaded(old(self)@, input_path),
    {
        let chosen = self.is_last_audio(input_path.as_str());
        if chosen {
            self.audio.loading = false;
        }
    }

    fn on_generated_audio_load_failed(&mut self, input_path: String, error: String)
        ensures
            final(self)@ == after_generated_audio_load_failed(old(self)@, input_path, error),
    {
        let chosen = self.is_last_audio(input_path.as_str());
        if chosen {
            self.audio.loading = false;
            self.audio.player = false;
            self.status = Some(
                StatusMessage::new(
                    StatusKind::Warning,
                    "音频已生成，但无法载入预览：".to_string().concat(error.as_str()),
                    "Audio was generated, but its preview could not load: ".to_string().concat(
                        error.as_str(),
                    ),
                ),
            );
        }
    }

    fn on_generation_failed(&mut self, error: String)
        ensures
            final(self)@ == after_generation_failed(old(self)@, error),
    {
        let chosen = download_control::is_download_cancelled(error.as_str());
        self.qwen.manual_help_open = self.qwen.manual_help_open || self.help_opens(error.as_str());
        self.qwen.preparing = false;
        self.qwen.progress = None;
        self.indextts.preparing = false;
        self.indextts.progress = None;
        self.generating = false;
        self.subtitle_progress = None;
        if chosen {
            self.status = Some(
                StatusMessage::fixed(
                    StatusKind::Info,
                    "模型下载已取消，临时文件已保留；再次开始时会从已有进度继续。",
                    "Model download cancelled. Partial files were kept and will be resumed next time.",
                ),
            );
        } else {
            self.status = Some(
                StatusMessage::new(
                    StatusKind::Error,
                    "生成语音失败：".to_string().concat(error.as_str()),
                    error.clone(),
                ),
            );
        }
    }

    fn on_worker_failed(&mut self, error: String)
        ensures
            final(self)@ == after_worker_failed(old(self)@, error),
    {
        self.fetching_voices = false;
        self.qwen.preparing = false;
        self.indextts.preparing = false;
        self.indextts.progress = None;
        self.previewing = false;
        self.generating = false;
        self.transcription.loading_model = false;
        self.transcription.running = false;
        self.transcription.saving = false;
        self.subtitle_progress = None;
        self.status = Some(
            StatusMessage::new(
                StatusKind::Error,
                "语音服务异常：".to_string().concat(error.as_str()),
                error.clone(),
            ),
        );
    }

    /// Takes in an event. Says what is to be done next, when there is something to do.
    pub fn apply(&mut self, event: WorkerEvent) -> (follow_up: Option<FollowUp>)
        ensures
            final(self)@ == after_event(old(self)@, event),
            is_follow_up(old(self)@, event, follow_up),
    {
        reveal(after_event);
        match event {
            WorkerEvent::VoicesLoaded { voices, from_cache, warning } => {
                self.on_voices_loaded(voices, from_cache, warning);
                None
            },
            WorkerEvent::VoicesFailed(error) => {
                self.on_voices_failed(error);
                None
            },
            WorkerEvent::QwenModelPreparing { version, kind } => {
                self.on_qwen_model_preparing(version, kind);
                None
            },
            WorkerEvent::QwenModelDownload {
                version,
                kind,
                file,
                downloaded_bytes,
                total_bytes,
                transfer,
            } => {
                self.on_qwen_model_download(
                    version,
                    kind,
                    file,
                    downloaded_bytes,
                    total_bytes,
                    transfer,
                );
                None
            },
            WorkerEvent::QwenModelReady { version, kind, device } => {
                self.on_qwen_model_ready(version, kind, device);
                None
            },
            WorkerEvent::QwenModelFailed(error) => {
                self.on_qwen_model_failed(error);
                None
            },
            WorkerEvent::QwenModelImportProgress {
                version,
                kind,
                file,
                copied_bytes,
                total_bytes,
                transfer,
            } => {
                self.on_qwen_model_import_progress(
                    version,
                    kind,
                    file,
                    copied_bytes,
                    total_bytes,
                    transfer,
                );
                None
            },
            WorkerEvent::QwenModelImported { version, kind, device, model_dir } => {
                self.on_qwen_model_imported(version, kind, device, model_dir);
                None
            },
            WorkerEvent::QwenModelImportFailed { version, kind, error } => {
                self.on_qwen_model_import_failed(version, kind, error);
                None
            },
            WorkerEvent::QwenModelReleased => {
                self.on_qwen_model_released();
                None
            },
            WorkerEvent::QwenClonePromptPreparing => {
                self.on_qwen_clone_prompt_preparing();
                None
            },
            WorkerEvent::QwenClonePromptReady => {
                self.on_qwen_clone_prompt_ready();
                None
            },
            WorkerEvent::QwenProgress { current, total } => {
                self.on_qwen_progress(current, total);
                None
            },
            WorkerEvent::IndexTtsPreparing { phase, downloaded_bytes, total_bytes, transfer } => {
                self.on_index_tts_preparing(phase, downloaded_bytes, total_bytes, transfer);
                None
            },
            WorkerEvent::IndexTtsReady => {
                self.on_index_tts_ready();
                None
            },
            WorkerEvent::IndexTtsImportProgress { phase, copied_bytes, total_bytes, transfer } => {
                self.on_index_tts_import_progress(phase, copied_bytes, total_bytes, transfer);
                None
            },
            WorkerEvent::IndexTtsImported { model_dir } => {
                self.on_index_tts_imported(model_dir);
                None
            },
            WorkerEvent::IndexTtsImportFailed(error) => {
                self.on_index_tts_import_failed(error);
                None
            },
            WorkerEvent::IndexTtsFailed(error) => {
                self.on_index_tts_failed(error);
                None
            },
            WorkerEvent::IndexTtsInferencePhase(phase) => {
                self.on_index_tts_inference_phase(phase);
                None
            },
            WorkerEvent::PreviewFinished => {
                self.on_preview_finished();
                None
            },
            WorkerEvent::PreviewFailed(error) => {
                self.on_preview_failed(error);
                None
            },
            WorkerEvent::GenerationFinished { output_path, kilobytes } => {
                let path = output_path.clone();
                self.on_generation_finished(output_path, kilobytes);
                Some(FollowUp::LoadGeneratedAudio(path))
            },
            WorkerEvent::SubtitleProgress { current, total } => {
                self.on_subtitle_progress(current, total);
                None
            },
            WorkerEvent::SubtitleGenerationFinished { output_path, kilobytes, overflow_count } => {
                let path = output_path.clone();
                self.on_subtitle_generation_finished(output_path, kilobytes, overflow_count);
                Some(FollowUp::LoadGeneratedAudio(path))
            },
            WorkerEvent::AsrModelProgress { source, downloaded_bytes, total_bytes, transfer } => {
                self.on_asr_model_progress(source, downloaded_bytes, total_bytes, transfer);
                None
            },
            WorkerEvent::AsrModelReady => {
                self.on_asr_model_ready();
                None
            },
            WorkerEvent::AsrModelLoading { progress, percent } => {
                self.on_asr_model_loading(progress, percent);
                None
            },
            WorkerEvent::TranscriptionProgress { progress, percent, remaining_seconds } => {
                self.on_transcription_progress(progress, percent, remaining_seconds);
                None
            },
            WorkerEvent::TranscriptionFinished { cues, audio_duration_ms } => {
                self.on_transcription_finished(cues, audio_duration_ms);
                None
            },
            WorkerEvent::TranscriptionSaved(output_path) => {
                self.on_transcription_saved(output_path);
                None
            },
            WorkerEvent::TranscriptionSaveFailed(error) => {
                self.on_transcription_save_failed(error);
                None
            },
            WorkerEvent::TranscriptionFailed(error) => {
                self.on_transcription_failed(error);
                None
            },
            WorkerEvent::GeneratedAudioLoaded { input_path } => {
                let last = self.is_last_audio(input_path.as_str());
                self.on_generated_audio_loaded(input_path);
                if last {
                    Some(FollowUp::CreatePlayer)
                } else {
                    None
                }
            },
            WorkerEvent::GeneratedAudioLoadFailed { input_path, error } => {
                self.on_generated_audio_load_failed(input_path, error);
                None
            },
            WorkerEvent::GenerationFailed(error) => {
                self.on_generation_failed(error);
                None
            },
            WorkerEvent::WorkerFailed(error) => {
                self.on_worker_failed(error);
                None
            },
        }
    }
}

} // verus!
