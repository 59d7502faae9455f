//! What the user asks for: when a request is accepted, what is sent to the worker and how the
//! state of the studio follows.
//!
//! A request has up to three stages. The studio first decides whether it can be met and what it
//! needs; then the window may ask the user for a file; and at last the worker is sent a command,
//! which is recorded together with whether it could be sent.
use vstd::prelude::*;

use crate::asr;
use crate::asr::{RecognitionLanguage, SubtitleExportFormat};
use crate::file_names;
use crate::qwen_local;
use crate::qwen_local::{QwenModelKind, QwenModelVersion, QwenVoice};
use crate::studio::{
    AudioState, Fraction, IndexTtsState, InputMode, InputState, QwenState, QwenVoiceMode,
    SelectionState, State, Studio, Transcription, TranscriptionState, TtsEngine,
};
use crate::subtitles;
use crate::subtitles::{Cue, SubtitleCue, SubtitleFormat, SubtitleTrack};
use crate::text;
use crate::ui_text;
use crate::ui_text::{StatusKind, StatusMessage};

verus! {

/// The voice that speaks.
#[derive(Debug)]
pub enum VoiceSelection {
    /// A voice of the online service, by its short name.
    Edge(String),
    /// A voice of the Qwen3 model.
    Qwen3Preset { version: QwenModelVersion, voice: QwenVoice },
    /// The voice of a recording, spoken by the Qwen3 model.
    Qwen3Clone { version: QwenModelVersion, reference_path: String, reference_text: String },
    /// The voice of a recording, spoken by the IndexTTS engine.
    IndexTts25 { reference_path: String },
}

/// The content of a voice selection.
pub enum Speaker {
    Edge(Seq<char>),
    Qwen3Preset { version: QwenModelVersion, voice: QwenVoice },
    Qwen3Clone { version: QwenModelVersion, reference_path: Seq<char>, reference_text: Seq<char> },
    IndexTts25 { reference_path: Seq<char> },
}

impl View for VoiceSelection {
    type V = Speaker;

    open spec fn view(&self) -> Speaker {
        match *self {
            VoiceSelection::Edge(name) => Speaker::Edge(name@),
            VoiceSelection::Qwen3Preset { version, voice } => Speaker::Qwen3Preset {
                version,
                voice,
            },
            VoiceSelection::Qwen3Clone {
                version,
                reference_path,
                reference_text,
            } => Speaker::Qwen3Clone {
                version,
                reference_path: reference_path@,
                reference_text: reference_text@,
            },
            VoiceSelection::IndexTts25 { reference_path } => Speaker::IndexTts25 {
                reference_path: reference_path@,
            },
        }
    }
}

/// Whether a recording whose voice is cloned is needed.
pub open spec fn clones(s: SelectionState) -> bool {
    (s.tts_engine == TtsEngine::Qwen3Local && s.qwen_voice_mode == QwenVoiceMode::Clone)
        || s.tts_engine == TtsEngine::IndexTts25
}

/// The voice that speaks, when one can: a voice of the service that is selected, a voice of the
/// model, or a recording that is there and may be cloned.
pub open spec fn speaker(s: SelectionState, reference_present: bool) -> Option<Speaker> {
    if clones(s) {
        match s.clone_reference_path {
            Some(path) => if s.clone_authorized && reference_present {
                if s.tts_engine == TtsEngine::IndexTts25 {
                    Some(Speaker::IndexTts25 { reference_path: path })
                } else {
                    Some(
                        Speaker::Qwen3Clone {
                            version: s.qwen_version,
                            reference_path: path,
                            reference_text: text::trimmed(s.clone_reference_text),
                        },
                    )
                }
            } else {
                None
            },
            None => None,
        }
    } else if s.tts_engine == TtsEngine::Qwen3Local {
        Some(Speaker::Qwen3Preset { version: s.qwen_version, voice: s.qwen_voice })
    } else {
        match s.selected_voice {
            Some(index) => if index < s.voices.len() {
                Some(Speaker::Edge(s.voices[index as int].short_name))
            } else {
                None
            },
            None => None,
        }
    }
}

/// Why no voice can speak, in both languages.
pub open spec fn speaker_error(s: SelectionState) -> (Seq<char>, Seq<char>) {
    if clones(s) && s.clone_reference_path is None {
        ("请先选择一段 WAV/MP3 参考音频。"@, "Choose a WAV/MP3 reference recording first."@)
    } else if clones(s) && !s.clone_authorized {
        (
            "请先确认已获得该声音所有者授权。"@,
            "Confirm that you have the voice owner's permission first."@,
        )
    } else {
        ("请先选择一个音色。"@, "Choose a voice first."@)
    }
}

/// Something is going on that keeps the voice controls from being used.
pub open spec fn controls_busy(s: State) -> bool {
    s.previewing || s.generating || s.transcription.running || s.transcription.saving
        || s.qwen.preparing || s.indextts.preparing || (s.selection.tts_engine == TtsEngine::Edge
        && s.fetching_voices)
}

/// Something is going on that keeps audio from being made.
pub open spec fn speech_busy(s: State) -> bool {
    s.generating || s.previewing || s.transcription.running || s.indextts.preparing || (
    s.selection.tts_engine == TtsEngine::Edge && s.fetching_voices)
}

/// The kind of Qwen3 model that the selected voice needs.
pub open spec fn needed_kind(mode: QwenVoiceMode) -> QwenModelKind {
    match mode {
        QwenVoiceMode::Preset => QwenModelKind::CustomVoice,
        QwenVoiceMode::Clone => QwenModelKind::VoiceClone,
    }
}

/// The progress that is shown when audio has just been asked for: none of the cues of a track.
pub open spec fn first_progress(s: State) -> Option<(usize, usize)> {
    match s.input.subtitle_track {
        Some((_, cues)) => if s.input.input_mode == InputMode::Subtitles {
            Some((0, cues.len() as usize))
        } else {
            None
        },
        None => None,
    }
}

/// The state after `voices_requested`.
pub open spec fn after_voices_requested(s: State, sent: bool) -> State {
    if sent {
        State {
            fetching_voices: true,
            status: Some(
                ui_text::status(StatusKind::Info, "正在刷新音色列表…"@, "Refreshing voices…"@),
            ),
            ..s
        }
    } else {
        State {
            status: Some(
                ui_text::status(
                    StatusKind::Error,
                    "语音服务已停止，请重新启动应用。"@,
                    "The TTS worker is no longer running."@,
                ),
            ),
            ..s
        }
    }
}

/// The state after `qwen_import_requested`.
pub open spec fn after_qwen_import_requested(
    s: State,
    version: QwenModelVersion,
    kind: QwenModelKind,
    source_dir: &str,
    sent: bool,
) -> State {
    if sent {
        State {
            qwen: QwenState {
                preparing: true,
                ready: None,
                device: None,
                ..s.qwen
            },
            status: Some(
                ui_text::status(
                    StatusKind::Info,
                    "正在检查并导入 Qwen3-TTS "@ + qwen_local::version_label(version) + " "@
                        + qwen_local::kind_label(kind) + "："@ + source_dir@,
                    "Checking and importing Qwen3-TTS "@ + qwen_local::version_label(version) + " "@
                        + qwen_local::kind_label(kind) + ": "@ + source_dir@,
                ),
            ),
            ..s
        }
    } else {
        State {
            status: Some(
                ui_text::status(
                    StatusKind::Error,
                    "后台服务已停止，请重新启动应用。"@,
                    "The background worker stopped. Restart the app."@,
                ),
            ),
            ..s
        }
    }
}

/// The state after `qwen_download_requested`.
pub open spec fn after_qwen_download_requested(
    s: State,
    version: QwenModelVersion,
    kind: QwenModelKind,
    sent: bool,
) -> State {
    if sent {
        State {
            qwen: QwenState {
                preparing: true,
                progress: Some((0u64, 1u64)),
                progress_label: ui_text::in_language(
                    s.ui_language,
                    "正在清理所选模型缓存"@,
                    "Clearing the selected model cache"@,
                ),
                ready: None,
                device: None,
                ..s.qwen
            },
            status: Some(
                ui_text::status(
                    StatusKind::Info,
                    "正在重新下载 Qwen3-TTS "@ + qwen_local::version_label(version) + " "@
                        + qwen_local::kind_label(kind) + "…"@,
                    "Downloading Qwen3-TTS "@ + qwen_local::version_label(version) + " "@
                        + qwen_local::kind_label(kind) + " again…"@,
                ),
            ),
            ..s
        }
    } else {
        State {
            status: Some(
                ui_text::status(
                    StatusKind::Error,
                    "后台服务已停止，请重新启动应用。"@,
                    "The background worker stopped. Restart the app."@,
                ),
            ),
            ..s
        }
    }
}

/// The state after `qwen_preparation_requested`.
pub open spec fn after_qwen_preparation_requested(
    s: State,
    version: QwenModelVersion,
    kind: QwenModelKind,
    sent: bool,
) -> State {
    if sent {
        State {
            qwen: QwenState {
                preparing: true,
                progress: Some((0u64, 1u64)),
                progress_label: ui_text::in_language(
                    s.ui_language,
                    "正在检查断点文件"@,
                    "Checking partial downloads"@,
                ),
                ready: None,
                device: None,
                ..s.qwen
            },
            status: Some(
                ui_text::status(
                    StatusKind::Info,
                    "正在下载或续传 Qwen3-TTS "@ + qwen_local::version_label(version) + " "@
                        + qwen_local::kind_label(kind) + "…"@,
                    "Downloading or resuming Qwen3-TTS "@ + qwen_local::version_label(version)
                        + " "@ + qwen_local::kind_label(kind) + "…"@,
                ),
            ),
            ..s
        }
    } else {
        State {
            status: Some(
                ui_text::status(
                    StatusKind::Error,
                    "后台服务已停止，请重新启动应用。"@,
                    "The background worker stopped. Restart the app."@,
                ),
            ),
            ..s
        }
    }
}

/// The state after `indextts_preparation_requested`.
pub open spec fn after_indextts_preparation_requested(s: State, sent: bool) -> State {
    if sent {
        State {
            indextts: IndexTtsState {
                preparing: true,
                ready: false,
                progress: None,
                progress_label: ui_text::in_language(
                    s.ui_language,
                    "正在检查官方运行环境"@,
                    "Checking official runtime"@,
                ),
                ..s.indextts
            },
            status: Some(
                ui_text::status(
                    StatusKind::Info,
                    "正在检查 IndexTTS-2.5 官方运行环境…"@,
                    "Checking the official IndexTTS-2.5 runtime…"@,
                ),
            ),
            ..s
        }
    } else {
        State {
            status: Some(
                ui_text::status(
                    StatusKind::Error,
                    "后台服务已停止，请重新启动应用。"@,
                    "The background worker stopped. Restart the app."@,
                ),
            ),
            ..s
        }
    }
}

/// The state after `indextts_import_requested`.
pub open spec fn after_indextts_import_requested(s: State, source_dir: &str, sent: bool) -> State {
    if sent {
        State {
            indextts: IndexTtsState {
                preparing: true,
                ready: false,
                progress: Some((0u64, 1u64)),
                progress_label: ui_text::in_language(
                    s.ui_language,
                    "正在检查离线模型文件"@,
                    "Checking offline model files"@,
                ),
                ..s.indextts
            },
            status: Some(
                ui_text::status(
                    StatusKind::Info,
                    "正在导入 IndexTTS-2.5 离线模型："@ + source_dir@,
                    "Importing the offline IndexTTS-2.5 model: "@ + source_dir@,
                ),
            ),
            ..s
        }
    } else {
        State {
            status: Some(
                ui_text::status(
                    StatusKind::Error,
                    "后台服务已停止，请重新启动应用。"@,
                    "The background worker stopped. Restart the app."@,
                ),
            ),
            ..s
        }
    }
}

/// The state after `directory_opened`.
pub open spec fn after_directory_opened(s: State, directory: &str) -> State {
    State {
        status: Some(
            ui_text::status(
                StatusKind::Success,
                "已打开本地模型目录："@ + directory@,
                "Opened the local model folder: "@ + directory@,
            ),
        ),
        ..s
    }
}

/// The state after `directory_not_opened`.
pub open spec fn after_directory_not_opened(s: State, error: &str) -> State {
    State {
        status: Some(
            ui_text::status(
                StatusKind::Error,
                "无法打开本地模型目录："@ + error@,
                "Could not open the local model folder: "@ + error@,
            ),
        ),
        ..s
    }
}

/// The state after `audio_request_failed`.
pub open spec fn after_audio_request_failed(s: State, input_path: &str) -> State {
    State {
        audio: AudioState {
            loading: false,
            ..s.audio
        },
        status: Some(
            ui_text::status(
                StatusKind::Warning,
                "音频已生成，但无法载入预览："@ + input_path@,
                "Audio was generated, but its preview could not be loaded: "@ + input_path@,
            ),
        ),
        ..s
    }
}

/// The state after `player_created`.
pub open spec fn after_player_created(s: State) -> State {
    State {
        audio: AudioState {
            player: true,
            ..s.audio
        },
        ..s
    }
}

/// The state after `player_failed`.
pub open spec fn after_player_failed(s: State, error: &str) -> State {
    State {
        audio: AudioState {
            player: false,
            ..s.audio
        },
        status: Some(
            ui_text::status(
                StatusKind::Warning,
                "音频已生成，但无法初始化预览播放器："@ + error@,
                "Audio was generated, but the preview player could not start: "@ + error@,
            ),
        ),
        ..s
    }
}

/// The state after `generation_requested`.
pub open spec fn after_generation_requested(s: State, file_name: &str, sent: bool) -> State {
    if sent {
        State {
            generating: true,
            audio: AudioState {
                player: false,
                loading: false,
                ..s.audio
            },
            subtitle_progress: first_progress(s),
            status: Some(
                ui_text::status(
                    StatusKind::Info,
                    "正在生成 "@ + file_name@ + "…"@,
                    "Generating "@ + file_name@ + "…"@,
                ),
            ),
            ..s
        }
    } else {
        State {
            status: Some(
                ui_text::status(
                    StatusKind::Error,
                    "语音服务已停止，请重新启动应用。"@,
                    "The TTS worker is no longer running."@,
                ),
            ),
            ..s
        }
    }
}

/// The state after `preview_requested`.
pub open spec fn after_preview_requested(s: State, sent: bool) -> State {
    if sent {
        State {
            previewing: true,
            status: Some(
                ui_text::status(
                    StatusKind::Info,
                    "正在生成并播放试听音频…"@,
                    "Generating and playing the voice preview…"@,
                ),
            ),
            ..s
        }
    } else {
        State {
            status: Some(
                ui_text::status(
                    StatusKind::Error,
                    "语音服务已停止，请重新启动应用。"@,
                    "The TTS worker is no longer running."@,
                ),
            ),
            ..s
        }
    }
}

/// A recording to be recognised, with nothing recognised of it yet.
pub open spec fn with_recording(t: TranscriptionState, path: Seq<char>) -> TranscriptionState {
    TranscriptionState {
        input_path: Some(path),
        cues: Seq::empty(),
        output_path: None,
        dirty: false,
        ..t
    }
}

impl Transcription {
    /// Takes a recording; the result of an earlier one is dropped.
    fn take_recording(&mut self, path: String)
        ensures
            final(self)@ == with_recording(old(self)@, path@),
    {
        self.input_path = Some(path);
        self.cues = Vec::new();
        self.output_path = None;
        self.dirty = false;
        assert(subtitles::cues_of(self.cues@) =~= Seq::<Cue>::empty());
    }
}

/// The state after `media_chosen`.
pub open spec fn after_media_chosen(s: State, path: String) -> State {
    State {
        transcription: with_recording(s.transcription, path@),
        status: Some(
            ui_text::status(
                StatusKind::Info,
                "媒体已选择。视频会直接读取其中的音轨；模型首次使用会下载到本机。"@,
                "Media selected. Video audio is read directly; the model is downloaded on first use."@,
            ),
        ),
        ..s
    }
}

/// The state after `transcription_requested`.
pub open spec fn after_transcription_requested(s: State, sent: bool) -> State {
    if sent {
        State {
            transcription: TranscriptionState {
                running: true,
                loading_model: true,
                progress: Fraction::Ratio { done: 0, total: 1 },
                remaining_seconds: 0,
                cues: Seq::empty(),
                output_path: None,
                dirty: false,
                ..s.transcription
            },
            status: Some(
                ui_text::status(
                    StatusKind::Info,
                    "正在检查并加载本地 Whisper 模型…"@,
                    "Checking and loading the local Whisper model…"@,
                ),
            ),
            ..s
        }
    } else {
        State {
            status: Some(
                ui_text::status(
                    StatusKind::Error,
                    "后台服务已停止，请重新启动应用。"@,
                    "The background worker has stopped. Restart the app."@,
                ),
            ),
            ..s
        }
    }
}

/// The state after `save_requested`.
pub open spec fn after_save_requested(s: State, sent: bool) -> State {
    if sent {
        State {
            transcription: TranscriptionState {
                saving: true,
                ..s.transcription
            },
            status: Some(
                ui_text::status(
                    StatusKind::Info,
                    "正在保存已编辑字幕…"@,
                    "Saving the edited subtitles…"@,
                ),
            ),
            ..s
        }
    } else {
        State {
            status: Some(
                ui_text::status(
                    StatusKind::Error,
                    "后台服务已停止，请重新启动应用。"@,
                    "The background worker has stopped. Restart the app."@,
                ),
            ),
            ..s
        }
    }
}

/// The state after `clone_reference_chosen`.
pub open spec fn after_clone_reference_chosen(s: State, path: String) -> State {
    State {
        selection: SelectionState {
            clone_authorized: false,
            clone_reference_path: Some(path@),
            ..s.selection
        },
        status: Some(
            ui_text::status(
                StatusKind::Info,
                "已选择本地参考音频："@ + path@,
                "Selected local reference audio: "@ + path@,
            ),
        ),
        ..s
    }
}

impl Studio {
    /// Records that the voices were asked for again, or that the worker has stopped.
    pub fn voices_requested(&mut self, sent: bool)
        ensures
            final(self)@ == after_voices_requested(old(self)@, sent),
    {
        if sent {
            self.fetching_voices = true;
            self.status = Some(
                StatusMessage::fixed(StatusKind::Info, "正在刷新音色列表…", "Refreshing voices…"),
            );
        } else {
            self.status = Some(
                StatusMessage::fixed(
                    StatusKind::Error,
                    "语音服务已停止，请重新启动应用。",
                    "The TTS worker is no longer running.",
                ),
            );
        }
    }

    /// Records that a Qwen3 model is to be imported from a folder, or that the worker has stopped.
    pub fn qwen_import_requested(
        &mut self,
        version: QwenModelVersion,
        kind: QwenModelKind,
        source_dir: &str,
        sent: bool,
    )
        ensures
            final(self)@ == after_qwen_import_requested(
                old(self)@,
                version,
                kind,
                source_dir,
                sent,
            ),
    {
        if sent {
            self.qwen.preparing = true;
            self.qwen.ready = None;
            self.qwen.device = None;
            self.status = Some(
                StatusMessage::new(
                    StatusKind::Info,
                    "正在检查并导入 Qwen3-TTS ".to_string()
                        .concat(version.short_label())
                        .concat(" ")
                        .concat(kind.short_label())
                        .concat("：")
                        .concat(source_dir),
                    "Checking and importing Qwen3-TTS ".to_string()
                        .concat(version.short_label())
                        .concat(" ")
                        .concat(kind.short_label())
                        .concat(": ")
                        .concat(source_dir),
                ),
            );
        } else {
            self.status = Some(
                StatusMessage::fixed(
                    StatusKind::Error,
                    "后台服务已停止，请重新启动应用。",
                    "The background worker stopped. Restart the app.",
                ),
            );
        }
    }

    /// Records that a Qwen3 model is to be fetched again from the beginning, or that the worker has
    /// stopped.
    pub fn qwen_download_requested(
        &mut self,
        version: QwenModelVersion,
        kind: QwenModelKind,
        sent: bool,
    )
        ensures
            final(self)@ == after_qwen_download_requested(old(self)@, version, kind, sent),
    {
        if sent {
            self.qwen.preparing = true;
            self.qwen.progress = Some((0, 1));
            self.qwen.progress_label = self.ui_language.text(
                "正在清理所选模型缓存",
                "Clearing the selected model cache",
            ).to_string();
            self.qwen.ready = None;
            self.qwen.device = None;
            self.status = Some(
                StatusMessage::new(
                    StatusKind::Info,
                    "正在重新下载 Qwen3-TTS ".to_string()
                        .concat(version.short_label())
                        .concat(" ")
                        .concat(kind.short_label())
                        .concat("…"),
                    "Downloading Qwen3-TTS ".to_string()
                        .concat(version.short_label())
                        .concat(" ")
                        .concat(kind.short_label())
                        .concat(" again…"),
                ),
            );
        } else {
            self.status = Some(
                StatusMessage::fixed(
                    StatusKind::Error,
                    "后台服务已停止，请重新启动应用。",
                    "The background worker stopped. Restart the app.",
                ),
            );
        }
    }

    /// Records that a Qwen3 model is to be fetched, or that the worker has stopped.
    pub fn qwen_preparation_requested(
        &mut self,
        version: QwenModelVersion,
        kind: QwenModelKind,
        sent: bool,
    )
        ensures
            final(self)@ == after_qwen_preparation_requested(old(self)@, version, kind, sent),
    {
        if sent {
            self.qwen.preparing = true;
            self.qwen.progress = Some((0, 1));
            self.qwen.progress_label = self.ui_language.text(
                "正在检查断点文件",
                "Checking partial downloads",
            ).to_string();
            self.qwen.ready = None;
            self.qwen.device = None;
            self.status = Some(
                StatusMessage::new(
                    StatusKind::Info,
                    "正在下载或续传 Qwen3-TTS ".to_string()
                        .concat(version.short_label())
                        .concat(" ")
                        .concat(kind.short_label())
                        .concat("…"),
                    "Downloading or resuming Qwen3-TTS ".to_string()
                        .concat(version.short_label())
                        .concat(" ")
                        .concat(kind.short_label())
                        .concat("…"),
                ),
            );
        } else {
            self.status = Some(
                StatusMessage::fixed(
                    StatusKind::Error,
                    "后台服务已停止，请重新启动应用。",
                    "The background worker stopped. Restart the app.",
                ),
            );
        }
    }

    /// Records that the IndexTTS engine is to be made ready, or that the worker has stopped.
    pub fn indextts_preparation_requested(&mut self, sent: bool)
        ensures
            final(self)@ == after_indextts_preparation_requested(old(self)@, sent),
    {
        if sent {
            self.indextts.preparing = true;
            self.indextts.ready = false;
            self.indextts.progress = None;
            self.indextts.progress_label = self.ui_language.text(
                "正在检查官方运行环境",
                "Checking official runtime",
            ).to_string();
            self.status = Some(
                StatusMessage::fixed(
                    StatusKind::Info,
                    "正在检查 IndexTTS-2.5 官方运行环境…",
                    "Checking the official IndexTTS-2.5 runtime…",
                ),
            );
        } else {
            self.status = Some(
                StatusMessage::fixed(
                    StatusKind::Error,
                    "后台服务已停止，请重新启动应用。",
                    "The background worker stopped. Restart the app.",
                ),
            );
        }
    }

    /// Records that the IndexTTS model is to be imported from a folder, or that the worker has
    /// stopped.
    pub fn indextts_import_requested(&mut self, source_dir: &str, sent: bool)
        ensures
            final(self)@ == after_indextts_import_requested(old(self)@, source_dir, sent),
    {
        if sent {
            self.indextts.preparing = true;
            self.indextts.ready = false;
            self.indextts.progress = Some((0, 1));
            self.indextts.progress_label = self.ui_language.text(
                "正在检查离线模型文件",
                "Checking offline model files",
            ).to_string();
            self.status = Some(
                StatusMessage::new(
                    StatusKind::Info,
                    "正在导入 IndexTTS-2.5 离线模型：".to_string().concat(source_dir),
                    "Importing the offline IndexTTS-2.5 model: ".to_string().concat(source_dir),
                ),
            );
        } else {
            self.status = Some(
                StatusMessage::fixed(
                    StatusKind::Error,
                    "后台服务已停止，请重新启动应用。",
                    "The background worker stopped. Restart the app.",
                ),
            );
        }
    }

    /// Tells that the folder of the models was opened.
    pub fn directory_opened(&mut self, directory: &str)
        ensures
            final(self)@ == after_directory_opened(old(self)@, directory),
    {
        self.status = Some(
            StatusMessage::new(
                StatusKind::Success,
                "已打开本地模型目录：".to_string().concat(directory),
                "Opened the local model folder: ".to_string().concat(directory),
            ),
        );
    }

    /// Tells that the folder of the models could not be opened.
    pub fn directory_not_opened(&mut self, error: &str)
        ensures
            final(self)@ == after_directory_not_opened(old(self)@, error),
    {
        self.status = Some(
            StatusMessage::new(
                StatusKind::Error,
                "无法打开本地模型目录：".to_string().concat(error),
                "Could not open the local model folder: ".to_string().concat(error),
            ),
        );
    }

    /// Tells that the generated audio cannot be loaded because the worker has stopped.
    pub fn audio_request_failed(&mut self, input_path: &str)
        ensures
            final(self)@ == after_audio_request_failed(old(self)@, input_path),
    {
        self.audio.loading = false;
        self.status = Some(
            StatusMessage::new(
                StatusKind::Warning,
                "音频已生成，但无法载入预览：".to_string().concat(input_path),
                "Audio was generated, but its preview could not be loaded: ".to_string().concat(
                    input_path,
                ),
            ),
        );
    }

    /// Records that the generated audio can be played.
    pub fn player_created(&mut self)
        ensures
            final(self)@ == after_player_created(old(self)@),
    {
        self.audio.player = true;
    }

    /// Tells that the generated audio cannot be played.
    pub fn player_failed(&mut self, error: &str)
        ensures
            final(self)@ == after_player_failed(old(self)@, error),
    {
        self.audio.player = false;
        self.status = Some(
            StatusMessage::new(
                StatusKind::Warning,
                "音频已生成，但无法初始化预览播放器：".to_string().concat(error),
                "Audio was generated, but the preview player could not start: ".to_string().concat(
                    error,
                ),
            ),
        );
    }

    /// Records that audio is to be made for a file of the given name, or that the worker has
    /// stopped.
    pub fn generation_requested(&mut self, file_name: &str, sent: bool)
        ensures
            final(self)@ == after_generation_requested(old(self)@, file_name, sent),
    {
        if sent {
            self.generating = true;
            self.audio.player = false;
            self.audio.loading = false;
            self.subtitle_progress = self.progress_at_start();
            self.status = Some(
                StatusMessage::new(
                    StatusKind::Info,
                    "正在生成 ".to_string().concat(file_name).concat("…"),
                    "Generating ".to_string().concat(file_name).concat("…"),
                ),
            );
        } else {
            self.status = Some(
                StatusMessage::fixed(
                    StatusKind::Error,
                    "语音服务已停止，请重新启动应用。",
                    "The TTS worker is no longer running.",
                ),
            );
        }
    }

    /// Records that a preview is to be spoken, or that the worker has stopped.
    pub fn preview_requested(&mut self, sent: bool)
        ensures
            final(self)@ == after_preview_requested(old(self)@, sent),
    {
        if sent {
            self.previewing = true;
            self.status = Some(
                StatusMessage::fixed(
                    StatusKind::Info,
                    "正在生成并播放试听音频…",
                    "Generating and playing the voice preview…",
                ),
            );
        } else {
            self.status = Some(
                StatusMessage::fixed(
                    StatusKind::Error,
                    "语音服务已停止，请重新启动应用。",
                    "The TTS worker is no longer running.",
                ),
            );
        }
    }

    /// Takes a recording to be recognised. The result of an earlier one is dropped.
    pub fn media_chosen(&mut self, path: String)
        ensures
            final(self)@ == after_media_chosen(old(self)@, path),
    {
        self.transcription.take_recording(path);
        self.status = Some(
            StatusMessage::fixed(
                StatusKind::Info,
                "媒体已选择。视频会直接读取其中的音轨；模型首次使用会下载到本机。",
                "Media selected. Video audio is read directly; the model is downloaded on first use.",
            ),
        );
    }

    /// Records that the recording is to be recognised, or that the worker has stopped.
    pub fn transcription_requested(&mut self, sent: bool)
        ensures
            final(self)@ == after_transcription_requested(old(self)@, sent),
    {
        if sent {
            self.transcription.running = true;
            self.transcription.loading_model = true;
            self.transcription.progress = Fraction::Ratio { done: 0, total: 1 };
            self.transcription.remaining_seconds = 0;
            self.transcription.cues = Vec::new();
            self.transcription.output_path = None;
            self.transcription.dirty = false;
            self.status = Some(
                StatusMessage::fixed(
                    StatusKind::Info,
                    "正在检查并加载本地 Whisper 模型…",
                    "Checking and loading the local Whisper model…",
                ),
            );
        } else {
            self.status = Some(
                StatusMessage::fixed(
                    StatusKind::Error,
                    "后台服务已停止，请重新启动应用。",
                    "The background worker has stopped. Restart the app.",
                ),
            );
        }
    }

    /// Records that the subtitles are to be saved, or that the worker has stopped.
    pub fn save_requested(&mut self, sent: bool)
        ensures
            final(self)@ == after_save_requested(old(self)@, sent),
    {
        if sent {
            self.transcription.saving = true;
            self.status = Some(
                StatusMessage::fixed(
                    StatusKind::Info,
                    "正在保存已编辑字幕…",
                    "Saving the edited subtitles…",
                ),
            );
        } else {
            self.status = Some(
                StatusMessage::fixed(
                    StatusKind::Error,
                    "后台服务已停止，请重新启动应用。",
                    "The background worker has stopped. Restart the app.",
                ),
            );
        }
    }

    /// Takes a recording whose voice is to be cloned. The user has to confirm anew that it may be.
    pub fn clone_reference_chosen(&mut self, path: String)
        ensures
            final(self)@ == after_clone_reference_chosen(old(self)@, path),
    {
        self.selection.clone_authorized = false;
        self.selection.clone_reference_path = Some(path.clone());
        self.status = Some(
            StatusMessage::new(
                StatusKind::Info,
                "已选择本地参考音频：".to_string().concat(path.as_str()),
                "Selected local reference audio: ".to_string().concat(path.as_str()),
            ),
        );
    }
}

/// The name that is proposed for a file with spoken text.
pub open spec fn text_file_name(s: State) -> Seq<char> {
    match s.selection.tts_engine {
        TtsEngine::Edge => ui_text::in_language(
            s.ui_language,
            "语音合成.mp3"@,
            "edge-tts-output.mp3"@,
        ),
        TtsEngine::Qwen3Local => match s.selection.qwen_version {
            QwenModelVersion::Small0_6B => ui_text::in_language(
                s.ui_language,
                "Qwen3-0.6B语音.mp3"@,
                "qwen3-0.6b-output.mp3"@,
            ),
            QwenModelVersion::Large1_7B => ui_text::in_language(
                s.ui_language,
                "Qwen3-1.7B语音.mp3"@,
                "qwen3-1.7b-output.mp3"@,
            ),
        },
        TtsEngine::IndexTts25 => ui_text::in_language(
            s.ui_language,
            "IndexTTS-2.5语音.mp3"@,
            "indextts-2.5-output.mp3"@,
        ),
    }
}

/// What is spoken into a file.
#[derive(Debug)]
pub enum GenerationContent {
    Text(String),
    Subtitles(Vec<SubtitleCue>),
}

/// The content of what is spoken.
pub enum Spoken {
    Text(Seq<char>),
    Subtitles(Seq<Cue>),
}

impl View for GenerationContent {
    type V = Spoken;

    open spec fn view(&self) -> Spoken {
        match *self {
            GenerationContent::Text(s) => Spoken::Text(s@),
            GenerationContent::Subtitles(cues) => Spoken::Subtitles(subtitles::cues_of(cues@)),
        }
    }
}

/// What is needed to make audio: the voice, what it speaks and a name for the file.
#[derive(Debug)]
pub struct GenerationPlan {
    pub voice: VoiceSelection,
    pub content: GenerationContent,
    pub default_file_name: &'static str,
}

/// What is sent to the worker. Paths are given as the text that the user sees.
#[derive(Debug)]
pub enum WorkerCommand {
    /// Fetch the voices of the online service.
    FetchVoices,
    /// Speak a short text at once.
    Preview { text: String, voice: VoiceSelection, rate_percent: i32, volume_percent: i32 },
    /// Speak a text into a file.
    Generate {
        text: String,
        voice: VoiceSelection,
        rate_percent: i32,
        volume_percent: i32,
        output_path: String,
    },
    /// Speak a track into a file.
    GenerateSubtitles {
        cues: Vec<SubtitleCue>,
        voice: VoiceSelection,
        rate_percent: i32,
        volume_percent: i32,
        output_path: String,
    },
    /// Take a Qwen3 model in from a folder.
    ImportQwenModel { version: QwenModelVersion, kind: QwenModelKind, source_dir: String },
    /// Make a Qwen3 model ready.
    PrepareQwenModel { version: QwenModelVersion, kind: QwenModelKind },
    /// Fetch a Qwen3 model again from the beginning.
    RedownloadQwenModel { version: QwenModelVersion, kind: QwenModelKind },
    /// Take the IndexTTS model in from a folder.
    ImportIndexTtsModel { source_dir: String },
    /// Make the IndexTTS engine ready.
    PrepareIndexTts,
    /// Recognise a recording.
    TranscribeMedia { input_path: String, language: RecognitionLanguage },
    /// Save subtitles.
    SaveTranscription { output_path: String, cues: Vec<SubtitleCue>, format: SubtitleExportFormat },
    /// Decode the audio that was generated.
    LoadGeneratedAudio { input_path: String },
}

impl GenerationPlan {
    /// The command that carries the plan out, at the given speed and volume.
    pub fn command(self, rate_percent: i32, volume_percent: i32, output_path: String) -> (command:
        WorkerCommand)
        ensures
            match self.content {
                GenerationContent::Text(text) => command == (WorkerCommand::Generate {
                    text,
                    voice: self.voice,
                    rate_percent,
                    volume_percent,
                    output_path,
                }),
                GenerationContent::Subtitles(cues) => command
                    == (WorkerCommand::GenerateSubtitles {
                    cues,
                    voice: self.voice,
                    rate_percent,
                    volume_percent,
                    output_path,
                }),
            },
    {
        match self.content {
            GenerationContent::Text(text) => WorkerCommand::Generate {
                text,
                voice: self.voice,
                rate_percent,
                volume_percent,
                output_path,
            },
            GenerationContent::Subtitles(cues) => WorkerCommand::GenerateSubtitles {
                cues,
                voice: self.voice,
                rate_percent,
                volume_percent,
                output_path,
            },
        }
    }
}

/// What a request comes to: it is ignored while something else is going on, it is refused with a
/// message, or it is accepted.
pub enum Decision<A> {
    Ignored,
    Refused(ui_text::Status),
    Accepted(A),
}

/// The decision on a request to make audio.
pub open spec fn generation_decision(s: State, reference_present: bool) -> Decision<
    (Speaker, Spoken, Seq<char>),
> {
    if speech_busy(s) {
        Decision::Ignored
    } else {
        match speaker(s.selection, reference_present) {
            None => Decision::Refused(
                ui_text::status(
                    StatusKind::Error,
                    speaker_error(s.selection).0,
                    speaker_error(s.selection).1,
                ),
            ),
            Some(voice) => match s.input.input_mode {
                InputMode::Text => if text::trimmed(s.input.text).len() == 0 {
                    Decision::Refused(
                        ui_text::status(
                            StatusKind::Error,
                            "请先输入需要转换的文字。"@,
                            "Enter some text before generating audio."@,
                        ),
                    )
                } else {
                    Decision::Accepted(
                        (voice, Spoken::Text(text::trimmed(s.input.text)), text_file_name(s)),
                    )
                },
                InputMode::Subtitles => match s.input.subtitle_track {
                    None => Decision::Refused(
                        ui_text::status(
                            StatusKind::Error,
                            "请先导入 SRT/STR、WebVTT、ASS/SSA 或 LRC 字幕。"@,
                            "Import an SRT/STR, WebVTT, ASS/SSA, or LRC subtitle first."@,
                        ),
                    ),
                    Some((_, cues)) => Decision::Accepted(
                        (
                            voice,
                            Spoken::Subtitles(cues),
                            ui_text::in_language(
                                s.ui_language,
                                "字幕配音.mp3"@,
                                "subtitle-voiceover.mp3"@,
                            ),
                        ),
                    ),
                },
            },
        }
    }
}

/// The text from which a preview is taken: the first cue of the track, or the text in the editor.
pub open spec fn preview_source(s: State) -> Seq<char> {
    if s.input.input_mode == InputMode::Subtitles {
        match s.input.subtitle_track {
            Some((_, cues)) => if cues.len() > 0 {
                cues[0].text
            } else {
                Seq::empty()
            },
            None => Seq::empty(),
        }
    } else {
        s.input.text
    }
}

/// The decision on a request to preview a voice: the voice and what it speaks.
pub open spec fn preview_decision(s: State, reference_present: bool) -> Decision<
    (Speaker, Seq<char>),
> {
    if speech_busy(s) {
        Decision::Ignored
    } else {
        match speaker(s.selection, reference_present) {
            None => Decision::Refused(
                ui_text::status(
                    StatusKind::Error,
                    speaker_error(s.selection).0,
                    speaker_error(s.selection).1,
                ),
            ),
            Some(voice) => Decision::Accepted(
                (voice, ui_text::preview_of(preview_source(s), s.ui_language)),
            ),
        }
    }
}

/// The decision on a request to recognise the recording: its path and the language.
pub open spec fn transcription_decision(s: State, input_present: bool) -> Decision<
    (Seq<char>, RecognitionLanguage),
> {
    if s.transcription.running || s.generating || s.previewing {
        Decision::Ignored
    } else {
        match s.transcription.input_path {
            None => Decision::Refused(
                ui_text::status(
                    StatusKind::Error,
                    "请先选择需要识别的音频或视频。"@,
                    "Choose an audio or video file before transcribing."@,
                ),
            ),
            Some(path) => if !input_present {
                Decision::Refused(
                    ui_text::status(
                        StatusKind::Error,
                        "所选音频已不存在，请重新选择。"@,
                        "The selected audio no longer exists. Choose it again."@,
                    ),
                )
            } else {
                Decision::Accepted((path, s.transcription.language))
            },
        }
    }
}

/// The cues that have visible text.
pub open spec fn with_text(cues: Seq<Cue>) -> Seq<Cue>
    decreases cues.len(),
{
    if cues.len() == 0 {
        Seq::empty()
    } else if text::trimmed(cues.last().text).len() > 0 {
        with_text(cues.drop_last()).push(cues.last())
    } else {
        with_text(cues.drop_last())
    }
}

/// The name that is proposed for a subtitle file: that of the recording, where it has one, with
/// another extension.
pub open spec fn subtitle_file_name(
    input_name: Option<Seq<char>>,
    format: SubtitleExportFormat,
) -> Seq<
    char,
> {
    (match input_name {
        Some(name) => if file_names::is_file_name(name) {
            file_names::stem_of(name)
        } else {
            "transcript"@
        },
        None => "transcript"@,
    }) + "."@ + asr::export_extension(format)
}

/// The decision on a request to save the subtitles: the cues with text and a name for the file.
pub open spec fn save_decision(s: State, input_name: Option<Seq<char>>) -> Decision<
    (Seq<Cue>, Seq<char>),
> {
    if s.transcription.running || s.transcription.saving || s.transcription.cues.len() == 0 {
        Decision::Ignored
    } else if with_text(s.transcription.cues).len() == 0 {
        Decision::Refused(
            ui_text::status(
                StatusKind::Error,
                "所有字幕文字都为空，无法保存。请至少保留一条字幕。"@,
                "All subtitle cues are empty. Keep at least one cue before saving."@,
            ),
        )
    } else {
        Decision::Accepted(
            (
                with_text(s.transcription.cues),
                subtitle_file_name(input_name, s.transcription.format),
            ),
        )
    }
}

/// The state after a decision: a refusal is told to the user, and nothing else changes.
pub open spec fn after_decision<A>(s: State, decision: Decision<A>) -> State {
    match decision {
        Decision::Refused(message) => State { status: Some(message), ..s },
        _ => s,
    }
}

/// The longest track that is imported, in cues.
pub const MAX_TRACK_CUES: usize = 10_000;

/// The longest track that is imported, in milliseconds.
pub const MAX_TRACK_MS: u64 = 86_400_000;

/// The state after a subtitle file was read.
pub open spec fn after_subtitle_read(
    s: State,
    path: Seq<char>,
    result: Result<(SubtitleFormat, Seq<Cue>), Seq<char>>,
) -> State {
    match result {
        Ok((format, cues)) => if cues.len() > MAX_TRACK_CUES {
            State {
                status: Some(
                    ui_text::status(
                        StatusKind::Error,
                        "字幕超过 10,000 条，为避免误操作未导入。"@,
                        "The subtitle has more than 10,000 cues and was not imported."@,
                    ),
                ),
                ..s
            }
        } else if subtitles::latest_end(cues) > MAX_TRACK_MS {
            State {
                status: Some(
                    ui_text::status(
                        StatusKind::Error,
                        "字幕时间轴超过 24 小时，为避免异常文件未导入。"@,
                        "The subtitle timeline exceeds 24 hours and was not imported."@,
                    ),
                ),
                ..s
            }
        } else {
            State {
                input: InputState {
                    subtitle_track: Some((format, cues)),
                    subtitle_path: Some(path),
                    input_mode: InputMode::Subtitles,
                    ..s.input
                },
                status: Some(
                    ui_text::status(
                        StatusKind::Success,
                        "已导入 "@ + subtitles::format_label(format) + " 字幕，共 "@
                            + text::decimal(
                            cues.len(),
                        ) + " 条。"@,
                        "Imported "@ + text::decimal(cues.len()) + " "@ + subtitles::format_label(
                            format,
                        ) + " subtitle cues."@,
                    ),
                ),
                ..s
            }
        },
        Err(error) => State {
            status: Some(
                ui_text::status(
                    StatusKind::Error,
                    "导入字幕失败："@ + error,
                    "Could not import subtitles: "@ + error,
                ),
            ),
            ..s
        },
    }
}

/// The content of the result of reading a subtitle file.
pub open spec fn read_result(result: Result<SubtitleTrack, String>) -> Result<
    (SubtitleFormat, Seq<Cue>),
    Seq<char>,
> {
    match result {
        Ok(track) => Ok((track.format, subtitles::cues_of(track.cues@))),
        Err(error) => Err(error@),
    }
}

/// The state after the user asked to recognise the audio that was generated last.
pub open spec fn after_use_last_audio(s: State, present: bool) -> State {
    match s.audio.last_path {
        Some(path) => if present {
            State { transcription: with_recording(s.transcription, path), ..s }
        } else {
            no_generated_audio(s)
        },
        None => no_generated_audio(s),
    }
}

pub open spec fn no_generated_audio(s: State) -> State {
    State {
        status: Some(
            ui_text::status(
                StatusKind::Warning,
                "还没有可用的已生成 MP3，请先生成语音或手动选择文件。"@,
                "There is no generated MP3 yet. Generate speech or choose a file first."@,
            ),
        ),
        ..s
    }
}

/// What the user does with a model download.
#[derive(Clone, Copy, Debug, PartialEq, Eq, Structural)]
pub enum ModelDownloadAction {
    Pause,
    Resume,
    Cancel,
}

/// What the user is told of it.
pub open spec fn action_status(action: ModelDownloadAction) -> ui_text::Status {
    match action {
        ModelDownloadAction::Pause => ui_text::status(
            StatusKind::Info,
            "模型下载已暂停。点击“继续”可从当前进度恢复。"@,
            "Model download paused. Select Resume to continue from the current progress."@,
        ),
        ModelDownloadAction::Resume => ui_text::status(
            StatusKind::Info,
            "正在从已有进度继续下载模型…"@,
            "Resuming the model download from its existing progress…"@,
        ),
        ModelDownloadAction::Cancel => ui_text::status(
            StatusKind::Info,
            "正在取消模型下载；已下载的临时文件会保留，以便下次继续。"@,
            "Cancelling the model download. Partial files will be kept for a later resume."@,
        ),
    }
}

impl Studio {
    /// The progress that is shown when audio has just been asked for.
    fn progress_at_start(&self) -> (progress: Option<(usize, usize)>)
        ensures
            progress == first_progress(self@),
    {
        match &self.input.subtitle_track {
            Some(track) => {
                assert(subtitles::cues_of(track.cues@).len() == track.cues@.len());
                if self.input.input_mode == InputMode::Subtitles {
                    Some((0, track.cues.len()))
                } else {
                    None
                }
            },
            None => None,
        }
    }

    /// Whether something is going on that keeps the voice controls from being used.
    pub fn tts_controls_busy(&self) -> (busy: bool)
        ensures
            busy == controls_busy(self@),
    {
        self.previewing || self.generating || self.transcription.running
            || self.transcription.saving || self.qwen.preparing || self.indextts.preparing || (
        self.selection.tts_engine == TtsEngine::Edge && self.fetching_voices)
    }

    /// Whether something is going on that keeps audio from being made.
    pub fn speech_controls_busy(&self) -> (busy: bool)
        ensures
            busy == speech_busy(self@),
    {
        self.generating || self.previewing || self.transcription.running || self.indextts.preparing
            || (self.selection.tts_engine == TtsEngine::Edge && self.fetching_voices)
    }

    /// Whether the window is drawn again soon, because something is going on.
    pub fn needs_repaint(&self, playing: bool) -> (needed: bool)
        ensures
            needed == (self.fetching_voices || self.previewing || self.generating
                || self.transcription.running || self.transcription.saving || self.qwen.preparing
                || self.indextts.preparing || self.audio.loading || (self.audio.player && playing)),
    {
        self.fetching_voices || self.previewing || self.generating || self.transcription.running
            || self.transcription.saving || self.qwen.preparing || self.indextts.preparing
            || self.audio.loading || (self.audio.player && playing)
    }

    /// Whether the voices can be asked for again.
    pub fn can_reload_voices(&self) -> (can: bool)
        ensures
            can == !(self.fetching_voices || self.previewing || self.generating
                || self.transcription.running || self.qwen.preparing),
    {
        !(self.fetching_voices || self.previewing || self.generating || self.transcription.running
            || self.qwen.preparing)
    }

    /// The kind of Qwen3 model that the selected voice needs.
    pub fn selected_qwen_kind(&self) -> (kind: QwenModelKind)
        ensures
            kind == needed_kind(self.selection.qwen_voice_mode),
    {
        match self.selection.qwen_voice_mode {
            QwenVoiceMode::Preset => QwenModelKind::CustomVoice,
            QwenVoiceMode::Clone => QwenModelKind::VoiceClone,
        }
    }

    /// The Qwen3 model that a request to fetch or import one is about; none when it cannot be made.
    pub fn requested_qwen_model(&self) -> (model: Option<(QwenModelVersion, QwenModelKind)>)
        ensures
            model == (if self.selection.tts_engine == TtsEngine::Qwen3Local && !controls_busy(
                self@,
            ) {
                Some((self.selection.qwen_version, needed_kind(self.selection.qwen_voice_mode)))
            } else {
                None
            }),
    {
        if self.selection.tts_engine == TtsEngine::Qwen3Local && !self.tts_controls_busy() {
            Some((self.selection.qwen_version, self.selected_qwen_kind()))
        } else {
            None
        }
    }

    /// Whether the IndexTTS engine can be made ready or its model imported.
    pub fn can_prepare_indextts(&self) -> (can: bool)
        ensures
            can == (self.selection.tts_engine == TtsEngine::IndexTts25 && !controls_busy(self@)),
    {
        self.selection.tts_engine == TtsEngine::IndexTts25 && !self.tts_controls_busy()
    }

    /// Whether a recording whose voice is cloned is needed.
    pub fn needs_reference(&self) -> (needed: bool)
        ensures
            needed == clones(self@.selection),
    {
        (self.selection.tts_engine == TtsEngine::Qwen3Local && self.selection.qwen_voice_mode
            == QwenVoiceMode::Clone) || self.selection.tts_engine == TtsEngine::IndexTts25
    }

    /// The voice that speaks, when one can. `reference_present` says whether the recording that is
    /// cloned is still there.
    pub fn active_voice_selection(&self, reference_present: bool) -> (voice: Option<VoiceSelection>)
        ensures
            match voice {
                Some(voice) => speaker(self@.selection, reference_present) == Some(voice@),
                None => speaker(self@.selection, reference_present) is None,
            },
    {
        if self.needs_reference() {
            match &self.selection.clone_reference_path {
                Some(path) => {
                    if !self.selection.clone_authorized || !reference_present {
                        return None;
                    }
                    if self.selection.tts_engine == TtsEngine::IndexTts25 {
                        return Some(VoiceSelection::IndexTts25 { reference_path: path.clone() });
                    }
                    let chars = text::chars_of(self.selection.clone_reference_text.as_str());
                    Some(
                        VoiceSelection::Qwen3Clone {
                            version: self.selection.qwen_version,
                            reference_path: path.clone(),
                            reference_text: text::string_of(text::trim(chars.as_slice())),
                        },
                    )
                },
                None => None,
            }
        } else if self.selection.tts_engine == TtsEngine::Qwen3Local {
            Some(
                VoiceSelection::Qwen3Preset {
                    version: self.selection.qwen_version,
                    voice: self.selection.qwen_voice,
                },
            )
        } else {
            match self.selection.selected_voice {
                Some(index) => {
                    if index < self.selection.voices.len() {
                        assert(self@.selection.voices[index as int]
                            == self.selection.voices@[index as int]@);
                        Some(
                            VoiceSelection::Edge(self.selection.voices[index].short_name.clone()),
                        )
                    } else {
                        None
                    }
                },
                None => None,
            }
        }
    }

    /// Why no voice can speak, in both languages.
    pub fn voice_selection_error(&self) -> (error: (&'static str, &'static str))
        ensures
            (error.0@, error.1@) == speaker_error(self@.selection),
    {
        if self.needs_reference() {
            if self.selection.clone_reference_path.is_none() {
                return (
                    "请先选择一段 WAV/MP3 参考音频。",
                    "Choose a WAV/MP3 reference recording first.",
                );
            }
            if !self.selection.clone_authorized {
                return (
                    "请先确认已获得该声音所有者授权。",
                    "Confirm that you have the voice owner's permission first.",
                );
            }
        }
        ("请先选择一个音色。", "Choose a voice first.")
    }

    /// The name that is proposed for a file with spoken text.
    fn proposed_text_name(&self) -> (name: &'static str)
        ensures
            name@ == text_file_name(self@),
    {
        match self.selection.tts_engine {
            TtsEngine::Edge => self.ui_language.text("语音合成.mp3", "edge-tts-output.mp3"),
            TtsEngine::Qwen3Local => match self.selection.qwen_version {
                QwenModelVersion::Small0_6B => self.ui_language.text(
                    "Qwen3-0.6B语音.mp3",
                    "qwen3-0.6b-output.mp3",
                ),
                QwenModelVersion::Large1_7B => self.ui_language.text(
                    "Qwen3-1.7B语音.mp3",
                    "qwen3-1.7b-output.mp3",
                ),
            },
            TtsEngine::IndexTts25 => self.ui_language.text(
                "IndexTTS-2.5语音.mp3",
                "indextts-2.5-output.mp3",
            ),
        }
    }

    /// Begins to make audio: decides what is spoken by whom, or tells why nothing can be.
    pub fn start_generation(&mut self, reference_present: bool) -> (plan: Option<GenerationPlan>)
        ensures
            final(self)@ == after_decision(
                old(self)@,
                generation_decision(old(self)@, reference_present),
            ),
            match plan {
                Some(plan) => generation_decision(old(self)@, reference_present)
                    == Decision::Accepted(
                    (plan.voice@, plan.content@, plan.default_file_name@),
                ),
                None => !(generation_decision(old(self)@, reference_present) is Accepted),
            },
    {
        if self.speech_controls_busy() {
            return None;
        }
        let voice = match self.active_voice_selection(reference_present) {
            Some(voice) => voice,
            None => {
                let (chinese, english) = self.voice_selection_error();
                self.status = Some(StatusMessage::fixed(StatusKind::Error, chinese, english));
                return None;
            },
        };
        match self.input.input_mode {
            InputMode::Text => {
                let chars = text::chars_of(self.input.text.as_str());
                let trimmed = text::trim(chars.as_slice());
                if trimmed.len() == 0 {
                    self.status = Some(
                        StatusMessage::fixed(
                            StatusKind::Error,
                            "请先输入需要转换的文字。",
                            "Enter some text before generating audio.",
                        ),
                    );
                    return None;
                }
                Some(
                    GenerationPlan {
                        voice,
                        content: GenerationContent::Text(text::string_of(trimmed)),
                        default_file_name: self.proposed_text_name(),
                    },
                )
            },
            InputMode::Subtitles => match &self.input.subtitle_track {
                Some(track) => Some(
                    GenerationPlan {
                        voice,
                        content: GenerationContent::Subtitles(
                            subtitles::copy_cues(track.cues.as_slice()),
                        ),
                        default_file_name: self.ui_language.text(
                            "字幕配音.mp3",
                            "subtitle-voiceover.mp3",
                        ),
                    },
                ),
                None => {
                    self.status = Some(
                        StatusMessage::fixed(
                            StatusKind::Error,
                            "请先导入 SRT/STR、WebVTT、ASS/SSA 或 LRC 字幕。",
                            "Import an SRT/STR, WebVTT, ASS/SSA, or LRC subtitle first.",
                        ),
                    );
                    None
                },
            },
        }
    }

    /// The text from which a preview is taken.
    fn preview_excerpt(&self) -> (preview: String)
        ensures
            preview@ == ui_text::preview_of(preview_source(self@), self.ui_language),
    {
        if self.input.input_mode == InputMode::Subtitles {
            if let Some(track) = &self.input.subtitle_track {
                assert(subtitles::cues_of(track.cues@).len() == track.cues@.len());
                if track.cues.len() > 0 {
                    assert(subtitles::cues_of(track.cues@)[0] == track.cues@[0]@);
                    return ui_text::preview_text(track.cues[0].text.as_str(), self.ui_language);
                }
            }
            proof {
                reveal_strlit("");
            }
            assert(""@ =~= preview_source(self@));
            return ui_text::preview_text("", self.ui_language);
        }
        ui_text::preview_text(self.input.text.as_str(), self.ui_language)
    }

    /// Begins a preview: decides what is spoken by whom, or tells why nothing can be.
    pub fn start_preview(&mut self, reference_present: bool) -> (plan: Option<
        (VoiceSelection, String),
    >)
        ensures
            final(self)@ == after_decision(
                old(self)@,
                preview_decision(old(self)@, reference_present),
            ),
            match plan {
                Some((voice, preview)) => preview_decision(old(self)@, reference_present)
                    == Decision::Accepted((voice@, preview@)),
                None => !(preview_decision(old(self)@, reference_present) is Accepted),
            },
    {
        if self.speech_controls_busy() {
            return None;
        }
        match self.active_voice_selection(reference_present) {
            Some(voice) => {
                let preview = self.preview_excerpt();
                Some((voice, preview))
            },
            None => {
                let (chinese, english) = self.voice_selection_error();
                self.status = Some(StatusMessage::fixed(StatusKind::Error, chinese, english));
                None
            },
        }
    }

    /// Whether a subtitle file can be imported.
    pub fn can_import_subtitle(&self) -> (can: bool)
        ensures
            can == !(self.generating || self.previewing || self.transcription.running),
    {
        !(self.generating || self.previewing || self.transcription.running)
    }

    /// Takes in a subtitle file that was read, unless it is unreasonably long.
    pub fn subtitle_read(&mut self, path: String, result: Result<SubtitleTrack, String>)
        ensures
            final(self)@ == after_subtitle_read(old(self)@, path@, read_result(result)),
    {
        match result {
            Ok(track) => {
                let count = track.cues.len();
                assert(subtitles::cues_of(track.cues@).len() == count);
                if count > MAX_TRACK_CUES {
                    self.status = Some(
                        StatusMessage::fixed(
                            StatusKind::Error,
                            "字幕超过 10,000 条，为避免误操作未导入。",
                            "The subtitle has more than 10,000 cues and was not imported.",
                        ),
                    );
                } else if track.duration_ms() > MAX_TRACK_MS {
                    self.status = Some(
                        StatusMessage::fixed(
                            StatusKind::Error,
                            "字幕时间轴超过 24 小时，为避免异常文件未导入。",
                            "The subtitle timeline exceeds 24 hours and was not imported.",
                        ),
                    );
                } else {
                    let label = track.format.label();
                    let count_text = text::number_text(count as u64);
                    self.status = Some(
                        StatusMessage::new(
                            StatusKind::Success,
                            "已导入 ".to_string().concat(label).concat(" 字幕，共 ").concat(
                                count_text.as_str(),
                            ).concat(" 条。"),
                            "Imported ".to_string().concat(count_text.as_str()).concat(" ").concat(
                                label,
                            ).concat(" subtitle cues."),
                        ),
                    );
                    self.input.subtitle_track = Some(track);
                    self.input.subtitle_path = Some(path);
                    self.input.input_mode = InputMode::Subtitles;
                }
            },
            Err(error) => {
                self.status = Some(
                    StatusMessage::new(
                        StatusKind::Error,
                        "导入字幕失败：".to_string().concat(error.as_str()),
                        "Could not import subtitles: ".to_string().concat(error.as_str()),
                    ),
                );
            },
        }
    }

    /// Takes the audio that was generated last as the recording to recognise, when it is still
    /// there.
    pub fn use_last_generated_audio(&mut self, present: bool)
        ensures
            final(self)@ == after_use_last_audio(old(self)@, present),
    {
        if present {
            if let Some(path) = &self.audio.last_path {
                let path = path.clone();
                self.transcription.take_recording(path);
                return;
            }
        }
        self.status = Some(
            StatusMessage::fixed(
                StatusKind::Warning,
                "还没有可用的已生成 MP3，请先生成语音或手动选择文件。",
                "There is no generated MP3 yet. Generate speech or choose a file first.",
            ),
        );
    }

    /// Begins to recognise the recording, or tells why that cannot be done. `input_present` says
    /// whether the recording is still there.
    pub fn start_transcription(&mut self, input_present: bool) -> (plan: Option<
        (String, RecognitionLanguage),
    >)
        ensures
            final(self)@ == after_decision(
                old(self)@,
                transcription_decision(old(self)@, input_present),
            ),
            match plan {
                Some((path, language)) => transcription_decision(old(self)@, input_present)
                    == Decision::Accepted((path@, language)),
                None => !(transcription_decision(old(self)@, input_present) is Accepted),
            },
    {
        if self.transcription.running || self.generating || self.previewing {
            return None;
        }
        match &self.transcription.input_path {
            Some(path) => {
                if input_present {
                    return Some((path.clone(), self.transcription.language));
                }
            },
            None => {
                self.status = Some(
                    StatusMessage::fixed(
                        StatusKind::Error,
                        "请先选择需要识别的音频或视频。",
                        "Choose an audio or video file before transcribing.",
                    ),
                );
                return None;
            },
        }
        self.status = Some(
            StatusMessage::fixed(
                StatusKind::Error,
                "所选音频已不存在，请重新选择。",
                "The selected audio no longer exists. Choose it again.",
            ),
        );
        None
    }

    /// The cues that have visible text.
    fn cues_with_text(&self) -> (kept: Vec<SubtitleCue>)
        ensures
            subtitles::cues_of(kept@) == with_text(self@.transcription.cues),
    {
        let ghost all = self@.transcription.cues;
        let mut kept: Vec<SubtitleCue> = Vec::new();
        let mut i: usize = 0;
        while i < self.transcription.cues.len()
            invariant
                i <= self.transcription.cues.len(),
                all == subtitles::cues_of(self.transcription.cues@),
                subtitles::cues_of(kept@) == with_text(all.take(i as int)),
            decreases self.transcription.cues.len() - i,
        {
            let ghost before = kept@;
            let cue = &self.transcription.cues[i];
            assert(all.take(i as int + 1).drop_last() == all.take(i as int));
            assert(all.take(i as int + 1).last() == cue@);
            let chars = text::chars_of(cue.text.as_str());
            if text::trim(chars.as_slice()).len() > 0 {
                kept.push(cue.clone());
                assert(subtitles::cues_of(kept@) == subtitles::cues_of(before).push(cue@));
            }
            i += 1;
        }
        assert(all.take(i as int) == all);
        kept
    }

    /// Begins to save the subtitles, or tells why that cannot be done. The name is that of the
    /// recording, when it is known.
    pub fn save_transcription(&mut self, input_name: Option<&str>) -> (plan: Option<
        (Vec<SubtitleCue>, String),
    >)
        ensures
            final(self)@ == after_decision(
                old(self)@,
                save_decision(old(self)@, name_content(input_name)),
            ),
            match plan {
                Some((cues, name)) => save_decision(old(self)@, name_content(input_name))
                    == Decision::Accepted((subtitles::cues_of(cues@), name@)),
                None => !(save_decision(old(self)@, name_content(input_name)) is Accepted),
            },
    {
        assert(self@.transcription.cues.len() == self.transcription.cues@.len());
        if self.transcription.running || self.transcription.saving || self.transcription.cues.len()
            == 0 {
            return None;
        }
        let cues = self.cues_with_text();
        assert(subtitles::cues_of(cues@).len() == cues@.len());
        if cues.len() == 0 {
            self.status = Some(
                StatusMessage::fixed(
                    StatusKind::Error,
                    "所有字幕文字都为空，无法保存。请至少保留一条字幕。",
                    "All subtitle cues are empty. Keep at least one cue before saving.",
                ),
            );
            return None;
        }
        let stem = match input_name {
            Some(name) => {
                let chars = text::chars_of(name);
                if file_names::names_file(chars.as_slice()) {
                    text::string_of(file_names::stem(chars.as_slice()))
                } else {
                    "transcript".to_string()
                }
            },
            None => "transcript".to_string(),
        };
        let name = stem.concat(".").concat(self.transcription.format.extension());
        Some((cues, name))
    }

    /// Tells that a model download was paused, resumed or cancelled. A request that the download
    /// did not accept is not told.
    pub fn download_action_taken(&mut self, action: ModelDownloadAction, accepted: bool)
        ensures
            final(self)@ == (if accepted {
                State { status: Some(action_status(action)), ..old(self)@ }
            } else {
                old(self)@
            }),
    {
        if !accepted {
            return;
        }
        self.status = Some(
            match action {
                ModelDownloadAction::Pause => StatusMessage::fixed(
                    StatusKind::Info,
                    "模型下载已暂停。点击“继续”可从当前进度恢复。",
                    "Model download paused. Select Resume to continue from the current progress.",
                ),
                ModelDownloadAction::Resume => StatusMessage::fixed(
                    StatusKind::Info,
                    "正在从已有进度继续下载模型…",
                    "Resuming the model download from its existing progress…",
                ),
                ModelDownloadAction::Cancel => StatusMessage::fixed(
                    StatusKind::Info,
                    "正在取消模型下载；已下载的临时文件会保留，以便下次继续。",
                    "Cancelling the model download. Partial files will be kept for a later resume.",
                ),
            },
        );
    }
}

/// The text of an optional name.
pub open spec fn name_content(name: Option<&str>) -> Option<Seq<char>> {
    match name {
        Some(name) => Some(name@),
        None => None,
    }
}

} // verus!
