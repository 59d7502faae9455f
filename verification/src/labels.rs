//! What the window says of the state of the studio: labels, summaries and progress bars.
use vstd::prelude::*;

use crate::download_control::DownloadState;
use crate::qwen_local;
use crate::qwen_local::{QwenModel, QwenModelKind, QwenModelVersion};
use crate::requests;
use crate::requests::ModelDownloadAction;
use crate::studio::{InputMode, QwenVoiceMode, State, Studio, TtsEngine};
use crate::subtitles;
use crate::subtitles::SubtitleCue;
use crate::text;
use crate::ui_text;
use crate::ui_text::UiLanguage;
use crate::voices;

verus! {

/// What is said of the engine.
pub open spec fn description_of_engine(s: State) -> Seq<char> {
    let version = qwen_local::version_label(s.selection.qwen_version);
    let size = qwen_local::size_label(s.selection.qwen_version);
    match s.selection.tts_engine {
        TtsEngine::Edge => ui_text::in_language(
            s.ui_language,
            "Edge 在线音色，支持多语言搜索"@,
            "Online Edge voices with multilingual search"@,
        ),
        TtsEngine::Qwen3Local => match s.selection.qwen_voice_mode {
            QwenVoiceMode::Clone => ui_text::in_language(
                s.ui_language,
                "Qwen3 "@ + version + " Base · 3–15 秒干净单人录音 · 首次约 "@ + size,
                "Qwen3 "@ + version + " Base · clean 3–15s voice · about "@ + size
                    + " first use"@,
            ),
            QwenVoiceMode::Preset => ui_text::in_language(
                s.ui_language,
                "Qwen3 "@ + version + " CustomVoice 本地生成 · 首次约 "@ + size,
                "Local Qwen3 "@ + version + " CustomVoice · about "@ + size
                    + " on first use"@,
            ),
        },
        TtsEngine::IndexTts25 => ui_text::in_language(
            s.ui_language,
            "IndexTTS-2.5 官方 v2.5.0 · 3–15 秒参考音频 · 本机推理"@,
            "Official IndexTTS-2.5 v2.5.0 · clean 3–15s reference · local inference"@,
        ),
    }
}

/// What is shown as the selected voice. `reference_name` is the name of the recording that is
/// cloned.
pub open spec fn label_of_voice(s: State, reference_name: Option<Seq<char>>) -> Seq<char> {
    if requests::clones(s.selection) {
        match reference_name {
            Some(name) => name,
            None => ui_text::in_language(
                s.ui_language,
                "尚未选择参考音频"@,
                "No reference audio"@,
            ),
        }
    } else if s.selection.tts_engine == TtsEngine::Qwen3Local {
        ui_text::in_language(
            s.ui_language,
            qwen_local::voice_chinese_label(s.selection.qwen_voice),
            qwen_local::voice_english_label(s.selection.qwen_voice),
        )
    } else {
        match s.selection.selected_voice {
            Some(index) => if index < s.selection.voices.len() {
                voices::label_of(s.selection.voices[index as int], s.ui_language)
            } else {
                no_voice(s.ui_language)
            },
            None => no_voice(s.ui_language),
        }
    }
}

pub open spec fn no_voice(language: UiLanguage) -> Seq<char> {
    ui_text::in_language(language, "尚未选择音色"@, "No voice selected"@)
}

/// How many voices the search finds; of a recording that is cloned there is one or none.
pub open spec fn voice_count(s: State) -> nat {
    match s.selection.tts_engine {
        TtsEngine::Edge => voices::found_positions(
            s.selection.voices,
            s.selection.voice_filter,
        ).len(),
        TtsEngine::Qwen3Local => qwen_local::found_voices(9, s.selection.voice_filter).len(),
        TtsEngine::IndexTts25 => if s.selection.clone_reference_path is Some {
            1
        } else {
            0
        },
    }
}

/// Whether the Qwen3 model that the selected voice needs is loaded.
pub open spec fn model_loaded(s: State) -> bool {
    s.qwen.ready == Some(
        (s.selection.qwen_version, requests::needed_kind(s.selection.qwen_voice_mode)),
    )
}

/// What is said of the Qwen3 model: the device on which it runs, or how far it is from being
/// ready. `somewhere` names a device that is not known.
pub open spec fn model_state(s: State, somewhere: Seq<char>) -> Seq<char> {
    if model_loaded(s) {
        match s.qwen.device {
            Some(device) => device,
            None => somewhere,
        }
    } else if s.qwen.preparing {
        ui_text::in_language(s.ui_language, "准备中"@, "preparing"@)
    } else {
        ui_text::in_language(s.ui_language, "待加载"@, "not loaded"@)
    }
}

/// What is said below the list of voices.
pub open spec fn summary_of_voices(s: State) -> Seq<char> {
    let found = text::decimal(voice_count(s));
    match s.selection.tts_engine {
        TtsEngine::Edge => ui_text::in_language(
            s.ui_language,
            "Edge 共 "@ + text::decimal(s.selection.voices.len()) + " 个音色，当前显示 "@
                + found + " 个"@,
            text::decimal(s.selection.voices.len()) + " Edge voices · "@ + found + " shown"@,
        ),
        TtsEngine::Qwen3Local => "Qwen3 "@ + qwen_local::version_label(s.selection.qwen_version)
            + " · "@ + found + ui_text::in_language(
            s.ui_language,
            "/9 音色 · "@,
            "/9 voices · "@,
        ) + model_state(
            s,
            ui_text::in_language(s.ui_language, "本地设备"@, "local device"@),
        ),
        TtsEngine::IndexTts25 => ui_text::in_language(
            s.ui_language,
            "IndexTTS-2.5 使用参考音频克隆音色"@,
            "IndexTTS-2.5 clones the selected reference voice"@,
        ),
    }
}

/// What is said of the engine that clones a voice.
pub open spec fn summary_of_clone(s: State) -> Seq<char> {
    if s.selection.tts_engine == TtsEngine::IndexTts25 {
        "IndexTTS-2.5 · v2.5.0 · "@ + (if s.indextts.ready {
            ui_text::in_language(s.ui_language, "已就绪"@, "ready"@)
        } else if s.indextts.preparing {
            ui_text::in_language(s.ui_language, "准备中"@, "preparing"@)
        } else {
            ui_text::in_language(s.ui_language, "待准备"@, "not prepared"@)
        })
    } else {
        qwen_local::version_label(s.selection.qwen_version) + " Base · "@ + model_state(
            s,
            "local"@,
        ) + (match s.selection.qwen_version {
            QwenModelVersion::Large1_7B => ui_text::in_language(
                s.ui_language,
                " · 需更大统一内存"@,
                " · more unified memory"@,
            ),
            QwenModelVersion::Small0_6B => ui_text::in_language(
                s.ui_language,
                " · 推荐"@,
                " · recommended"@,
            ),
        })
    }
}

/// What the user is told of where the text goes and what the audio may be used for.
pub open spec fn note_on_privacy(s: State) -> Seq<char> {
    match s.selection.tts_engine {
        TtsEngine::Edge => ui_text::in_language(
            s.ui_language,
            "仅供个人学习与非商业研究，禁止商业使用；文本会发送至 Microsoft Edge 朗读服务。"@,
            "Personal learning and noncommercial research only; text is sent to Microsoft Edge Read Aloud."@,
        ),
        TtsEngine::Qwen3Local => match s.selection.qwen_voice_mode {
            QwenVoiceMode::Clone => ui_text::in_language(
                s.ui_language,
                "仅供个人学习与非商业研究，禁止商业使用；参考音频、原文与克隆提示均保留在本机，并须取得声音所有者授权。"@,
                "Personal learning and noncommercial research only; reference audio, transcript, and clone prompt stay local, and voice-owner permission is required."@,
            ),
            QwenVoiceMode::Preset => ui_text::in_language(
                s.ui_language,
                "仅供个人学习与非商业研究，禁止商业使用；Qwen3 合成在本机完成，首次使用需下载模型。"@,
                "Personal learning and noncommercial research only; Qwen3 synthesis stays local after its first model download."@,
            ),
        },
        TtsEngine::IndexTts25 => ui_text::in_language(
            s.ui_language,
            "仅供个人学习与非商业研究；IndexTTS-2.5 在本机运行，克隆声音前必须取得声音所有者授权，并受官方模型许可约束。"@,
            "Personal learning and noncommercial research only; IndexTTS-2.5 runs locally, requires voice-owner permission, and remains subject to its official model license."@,
        ),
    }
}

/// There is something to speak.
pub open spec fn has_content(s: State) -> bool {
    match s.input.input_mode {
        InputMode::Text => text::trimmed(s.input.text).len() > 0,
        InputMode::Subtitles => match s.input.subtitle_track {
            Some((_, cues)) => cues.len() > 0,
            None => false,
        },
    }
}

/// Audio can be made.
pub open spec fn generation_possible(s: State, reference_present: bool) -> bool {
    !requests::speech_busy(s) && !s.qwen.preparing && requests::speaker(
        s.selection,
        reference_present,
    ) is Some && has_content(s)
}

/// A voice can be heard.
pub open spec fn preview_possible(s: State, reference_present: bool) -> bool {
    !requests::controls_busy(s) && requests::speaker(s.selection, reference_present) is Some
}

/// The recording can be recognised.
pub open spec fn transcription_possible(s: State, input_present: bool) -> bool {
    !s.transcription.running && !s.transcription.saving && !s.generating && !s.previewing
        && s.transcription.input_path is Some && input_present
}

/// What the button says that makes audio.
pub open spec fn label_of_generation(s: State) -> Seq<char> {
    match s.input.input_mode {
        InputMode::Subtitles => if s.generating {
            ui_text::in_language(
                s.ui_language,
                "正在生成字幕音频…"@,
                "Generating timed audio…"@,
            )
        } else {
            ui_text::in_language(
                s.ui_language,
                "生成字幕 MP3"@,
                "Generate subtitle MP3"@,
            )
        },
        InputMode::Text => if s.generating {
            ui_text::in_language(s.ui_language, "正在生成…"@, "Generating…"@)
        } else {
            ui_text::in_language(s.ui_language, "生成 MP3"@, "Generate MP3"@)
        },
    }
}

/// What is said of the audio that is being made.
pub open spec fn label_of_synthesis(s: State) -> Seq<char> {
    match s.subtitle_progress {
        Some((current, total)) => {
            let part = text::decimal(current as nat) + "/"@ + text::decimal(total as nat);
            match s.input.input_mode {
                InputMode::Subtitles => ui_text::in_language(
                    s.ui_language,
                    "正在合成第 "@ + part + " 条字幕"@,
                    "Synthesizing subtitle "@ + part,
                ),
                InputMode::Text => ui_text::in_language(
                    s.ui_language,
                    "正在本地合成第 "@ + part + " 段"@,
                    "Synthesizing local segment "@ + part,
                ),
            }
        },
        None => ui_text::in_language(
            s.ui_language,
            "正在合成并保存…"@,
            "Synthesizing and saving…"@,
        ),
    }
}

/// What the button says that recognises the recording.
pub open spec fn label_of_transcription(s: State) -> Seq<char> {
    if s.transcription.running {
        ui_text::in_language(s.ui_language, "正在生成字幕…"@, "Generating subtitles…"@)
    } else if s.transcription.cues.len() == 0 {
        ui_text::in_language(s.ui_language, "开始识别"@, "Start transcription"@)
    } else {
        ui_text::in_language(s.ui_language, "重新识别"@, "Transcribe again"@)
    }
}

/// What the button says that saves the subtitles.
pub open spec fn label_of_saving(s: State) -> Seq<char> {
    if s.transcription.saving {
        ui_text::in_language(s.ui_language, "正在保存…"@, "Saving…"@)
    } else if s.transcription.dirty {
        ui_text::in_language(s.ui_language, "保存修改"@, "Save edits"@)
    } else {
        ui_text::in_language(s.ui_language, "另存字幕"@, "Save as"@)
    }
}

/// What is said of the imported track.
pub open spec fn summary_of_track(s: State) -> Option<Seq<char>> {
    match s.input.subtitle_track {
        Some((format, cues)) => Some(
            subtitles::format_label(format) + " · "@ + text::decimal(cues.len()) + (
            ui_text::in_language(
                s.ui_language,
                " 条 · 总时长 "@ + subtitles::timestamp(subtitles::latest_end(cues) as nat),
                " cues · "@ + subtitles::timestamp(subtitles::latest_end(cues) as nat) + " total"@,
            )),
        ),
        None => None,
    }
}

/// A progress bar: how much is done, when that is known, and what it says.
#[derive(Debug)]
pub struct ProgressBar {
    pub done: Option<(u64, u64)>,
    pub label: String,
}

/// The content of a progress bar.
pub struct Bar {
    pub done: Option<(u64, u64)>,
    pub label: Seq<char>,
}

impl View for ProgressBar {
    type V = Bar;

    open spec fn view(&self) -> Bar {
        Bar { done: self.done, label: self.label@ }
    }
}

/// How much of the audio has been made: the segments before the one that is being spoken, or what
/// is known of the model that is needed for it.
pub open spec fn generation_done(s: State) -> Option<(u64, u64)> {
    let fetched = match s.qwen.progress {
        Some(progress) => Some(progress),
        None => s.indextts.progress,
    };
    match s.subtitle_progress {
        Some((current, total)) => if total > 0 {
            Some(
                (
                    if current > 0 {
                        (current - 1) as u64
                    } else {
                        0
                    },
                    total as u64,
                ),
            )
        } else {
            fetched
        },
        None => fetched,
    }
}

/// The bar of the audio that is being made.
pub open spec fn generation_bar(s: State) -> Bar {
    match generation_done(s) {
        Some(done) => Bar {
            done: Some(done),
            label: ui_text::in_language(
                s.ui_language,
                "当前任务进度"@,
                "Current task progress"@,
            ),
        },
        None => Bar {
            done: None,
            label: ui_text::in_language(
                s.ui_language,
                "正在处理当前任务…"@,
                "Processing the current task…"@,
            ),
        },
    }
}

/// The bar of the model that is being made ready.
pub open spec fn model_bar(s: State) -> Bar {
    if s.qwen.preparing {
        Bar { done: s.qwen.progress, label: s.qwen.progress_label }
    } else {
        Bar { done: s.indextts.progress, label: s.indextts.progress_label }
    }
}

/// The bars that are shown while audio is made, a model is made ready, a preview is made or the
/// voices are fetched.
pub open spec fn bars(s: State) -> Seq<Bar> {
    let waiting = Bar {
        done: None,
        label: ui_text::in_language(
            s.ui_language,
            "正在加载在线音色…"@,
            "Loading online voices…"@,
        ),
    };
    let fetching = !s.previewing && s.selection.tts_engine == TtsEngine::Edge && s.fetching_voices;
    if s.generating {
        seq![generation_bar(s)]
    } else if s.qwen.preparing || s.indextts.preparing {
        if fetching {
            seq![model_bar(s), waiting]
        } else {
            seq![model_bar(s)]
        }
    } else if s.previewing {
        seq![
            Bar {
                done: None,
                label: ui_text::in_language(
                    s.ui_language,
                    "正在生成试听音频…"@,
                    "Generating the preview…"@,
                ),
            },
        ]
    } else if fetching {
        seq![waiting]
    } else {
        Seq::empty()
    }
}

/// The content of a list of bars.
pub open spec fn bars_of(bars: Seq<ProgressBar>) -> Seq<Bar> {
    bars.map_values(|bar: ProgressBar| bar@)
}

/// What the user can do with a model download, and what is said of it.
#[derive(Clone, Copy, Debug)]
pub struct DownloadOffer {
    /// What is said of the download.
    pub note: Option<&'static str>,
    /// The first button.
    pub first: Option<(ModelDownloadAction, &'static str)>,
    /// The button that cancels.
    pub cancel: Option<&'static str>,
}

/// The command that fetches a model with the tool of its publisher, and the one for the mirror.
pub open spec fn fetch_commands(version: QwenModelVersion, kind: QwenModelKind) -> (
    Seq<char>,
    Seq<char>,
) {
    let repository = qwen_local::model_repository(version, kind);
    let name = qwen_local::model_name(version, kind);
    (
        "huggingface-cli download "@ + repository + " --local-dir "@ + name,
        "modelscope download --model "@ + repository + " --local_dir "@ + name,
    )
}

impl Studio {
    /// What is said of the engine.
    pub fn engine_description(&self) -> (description: String)
        ensures
            description@ == description_of_engine(self@),
    {
        let version = self.selection.qwen_version.short_label();
        let size = self.selection.qwen_version.download_size_label();
        match self.selection.tts_engine {
            TtsEngine::Edge => self.ui_language.text(
                "Edge 在线音色，支持多语言搜索",
                "Online Edge voices with multilingual search",
            ).to_string(),
            TtsEngine::Qwen3Local => match (self.selection.qwen_voice_mode, self.ui_language) {
                (QwenVoiceMode::Clone, UiLanguage::Chinese) => "Qwen3 ".to_string().concat(
                    version,
                ).concat(" Base · 3–15 秒干净单人录音 · 首次约 ").concat(size),
                (QwenVoiceMode::Clone, UiLanguage::English) => "Qwen3 ".to_string().concat(
                    version,
                ).concat(" Base · clean 3–15s voice · about ").concat(size).concat(
                    " first use",
                ),
                (QwenVoiceMode::Preset, UiLanguage::Chinese) => "Qwen3 ".to_string().concat(
                    version,
                ).concat(" CustomVoice 本地生成 · 首次约 ").concat(size),
                (QwenVoiceMode::Preset, UiLanguage::English) => "Local Qwen3 ".to_string().concat(
                    version,
                ).concat(" CustomVoice · about ").concat(size).concat(" on first use"),
            },
            TtsEngine::IndexTts25 => self.ui_language.text(
                "IndexTTS-2.5 官方 v2.5.0 · 3–15 秒参考音频 · 本机推理",
                "Official IndexTTS-2.5 v2.5.0 · clean 3–15s reference · local inference",
            ).to_string(),
        }
    }

    /// What is shown as the selected voice. `reference_name` is the name of the recording that is
    /// cloned.
    pub fn selected_voice_label(&self, reference_name: Option<&str>) -> (label: String)
        ensures
            label@ == label_of_voice(self@, requests::name_content(reference_name)),
    {
        if self.needs_reference() {
            return match reference_name {
                Some(name) => name.to_string(),
                None => self.ui_language.text(
                    "尚未选择参考音频",
                    "No reference audio",
                ).to_string(),
            };
        }
        if self.selection.tts_engine == TtsEngine::Qwen3Local {
            return self.ui_language.text(
                self.selection.qwen_voice.chinese_label(),
                self.selection.qwen_voice.english_label(),
            ).to_string();
        }
        if let Some(index) = self.selection.selected_voice {
            if index < self.selection.voices.len() {
                assert(self@.selection.voices[index as int]
                    == self.selection.voices@[index as int]@);
                return self.selection.voices[index].label(self.ui_language);
            }
        }
        self.ui_language.text("尚未选择音色", "No voice selected").to_string()
    }

    /// How many voices the search finds; of a recording that is cloned there is one or none.
    pub fn matching_voice_count(&self) -> (count: usize)
        ensures
            count == voice_count(self@),
    {
        match self.selection.tts_engine {
            TtsEngine::Edge => voices::matching_positions(
                &self.selection.voices,
                self.selection.voice_filter.as_str(),
            ).len(),
            TtsEngine::Qwen3Local => qwen_local::matching_voices(
                self.selection.voice_filter.as_str(),
            ).len(),
            TtsEngine::IndexTts25 => if self.selection.clone_reference_path.is_some() {
                1
            } else {
                0
            },
        }
    }

    /// Whether the Qwen3 model that the selected voice needs is loaded.
    pub fn selected_model_ready(&self) -> (ready: bool)
        ensures
            ready == model_loaded(self@),
    {
        match self.qwen.ready {
            Some((version, kind)) => version == self.selection.qwen_version && kind
                == self.selected_qwen_kind(),
            None => false,
        }
    }

    /// What is said of the Qwen3 model.
    fn model_state_label(&self, somewhere: &str) -> (label: String)
        ensures
            label@ == model_state(self@, somewhere@),
    {
        if self.selected_model_ready() {
            match &self.qwen.device {
                Some(device) => device.clone(),
                None => somewhere.to_string(),
            }
        } else if self.qwen.preparing {
            self.ui_language.text("准备中", "preparing").to_string()
        } else {
            self.ui_language.text("待加载", "not loaded").to_string()
        }
    }

    /// What is said below the list of voices.
    pub fn voice_summary(&self) -> (summary: String)
        ensures
            summary@ == summary_of_voices(self@),
    {
        let found = text::number_text(self.matching_voice_count() as u64);
        assert(self@.selection.voices.len() == self.selection.voices@.len());
        let all = text::number_text(self.selection.voices.len() as u64);
        match self.selection.tts_engine {
            TtsEngine::Edge => match self.ui_language {
                UiLanguage::Chinese => "Edge 共 ".to_string().concat(all.as_str()).concat(
                    " 个音色，当前显示 ",
                ).concat(found.as_str()).concat(" 个"),
                UiLanguage::English => all.concat(" Edge voices · ").concat(
                    found.as_str(),
                ).concat(" shown"),
            },
            TtsEngine::Qwen3Local => {
                let state = self.model_state_label(
                    self.ui_language.text("本地设备", "local device"),
                );
                "Qwen3 ".to_string().concat(self.selection.qwen_version.short_label()).concat(
                    " · ",
                ).concat(found.as_str()).concat(
                    self.ui_language.text("/9 音色 · ", "/9 voices · "),
                ).concat(state.as_str())
            },
            TtsEngine::IndexTts25 => self.ui_language.text(
                "IndexTTS-2.5 使用参考音频克隆音色",
                "IndexTTS-2.5 clones the selected reference voice",
            ).to_string(),
        }
    }

    /// What is said of the engine that clones a voice.
    pub fn clone_summary(&self) -> (summary: String)
        ensures
            summary@ == summary_of_clone(self@),
    {
        if self.selection.tts_engine == TtsEngine::IndexTts25 {
            let state = if self.indextts.ready {
                self.ui_language.text("已就绪", "ready")
            } else if self.indextts.preparing {
                self.ui_language.text("准备中", "preparing")
            } else {
                self.ui_language.text("待准备", "not prepared")
            };
            "IndexTTS-2.5 · v2.5.0 · ".to_string().concat(state)
        } else {
            let state = self.model_state_label("local");
            let advice = match self.selection.qwen_version {
                QwenModelVersion::Large1_7B => self.ui_language.text(
                    " · 需更大统一内存",
                    " · more unified memory",
                ),
                QwenModelVersion::Small0_6B => self.ui_language.text(
                    " · 推荐",
                    " · recommended",
                ),
            };
            self.selection.qwen_version.short_label().to_string().concat(" Base · ").concat(
                state.as_str(),
            ).concat(advice)
        }
    }

    /// What the user is told of where the text goes and what the audio may be used for.
    pub fn privacy_note(&self) -> (note: &'static str)
        ensures
            note@ == note_on_privacy(self@),
    {
        match self.selection.tts_engine {
            TtsEngine::Edge => self.ui_language.text(
                "仅供个人学习与非商业研究，禁止商业使用；文本会发送至 Microsoft Edge 朗读服务。",
                "Personal learning and noncommercial research only; text is sent to Microsoft Edge Read Aloud.",
            ),
            TtsEngine::Qwen3Local => match self.selection.qwen_voice_mode {
                QwenVoiceMode::Clone => self.ui_language.text(
                    "仅供个人学习与非商业研究，禁止商业使用；参考音频、原文与克隆提示均保留在本机，并须取得声音所有者授权。",
                    "Personal learning and noncommercial research only; reference audio, transcript, and clone prompt stay local, and voice-owner permission is required.",
                ),
                QwenVoiceMode::Preset => self.ui_language.text(
                    "仅供个人学习与非商业研究，禁止商业使用；Qwen3 合成在本机完成，首次使用需下载模型。",
                    "Personal learning and noncommercial research only; Qwen3 synthesis stays local after its first model download.",
                ),
            },
            TtsEngine::IndexTts25 => self.ui_language.text(
                "仅供个人学习与非商业研究；IndexTTS-2.5 在本机运行，克隆声音前必须取得声音所有者授权，并受官方模型许可约束。",
                "Personal learning and noncommercial research only; IndexTTS-2.5 runs locally, requires voice-owner permission, and remains subject to its official model license.",
            ),
        }
    }

    /// Whether the button that makes audio can be pressed.
    pub fn can_generate(&self, reference_present: bool) -> (can: bool)
        ensures
            can == generation_possible(self@, reference_present),
    {
        if self.speech_controls_busy() || self.qwen.preparing {
            return false;
        }
        let content = match self.input.input_mode {
            InputMode::Text => {
                let chars = text::chars_of(self.input.text.as_str());
                text::trim(chars.as_slice()).len() > 0
            },
            InputMode::Subtitles => match &self.input.subtitle_track {
                Some(track) => {
                    assert(subtitles::cues_of(track.cues@).len() == track.cues@.len());
                    track.cues.len() > 0
                },
                None => false,
            },
        };
        content && self.active_voice_selection(reference_present).is_some()
    }

    /// Whether the button that plays a preview can be pressed.
    pub fn can_preview(&self, reference_present: bool) -> (can: bool)
        ensures
            can == preview_possible(self@, reference_present),
    {
        !self.tts_controls_busy() && self.active_voice_selection(reference_present).is_some()
    }

    /// Whether the button that recognises the recording can be pressed.
    pub fn can_transcribe(&self, input_present: bool) -> (can: bool)
        ensures
            can == transcription_possible(self@, input_present),
    {
        !self.transcription.running && !self.transcription.saving && !self.generating
            && !self.previewing && self.transcription.input_path.is_some() && input_present
    }

    /// Whether another recording can be chosen.
    pub fn can_choose_media(&self) -> (can: bool)
        ensures
            can == !self.transcription.running,
    {
        !self.transcription.running
    }

    /// What the button says that makes audio.
    pub fn generate_label(&self) -> (label: &'static str)
        ensures
            label@ == label_of_generation(self@),
    {
        match self.input.input_mode {
            InputMode::Subtitles => if self.generating {
                self.ui_language.text("正在生成字幕音频…", "Generating timed audio…")
            } else {
                self.ui_language.text("生成字幕 MP3", "Generate subtitle MP3")
            },
            InputMode::Text => if self.generating {
                self.ui_language.text("正在生成…", "Generating…")
            } else {
                self.ui_language.text("生成 MP3", "Generate MP3")
            },
        }
    }

    /// What is said of the audio that is being made.
    pub fn synthesis_label(&self) -> (label: String)
        ensures
            label@ == label_of_synthesis(self@),
    {
        match self.subtitle_progress {
            Some((current, total)) => {
                let part = text::number_text(current as u64).concat("/").concat(
                    text::number_text(total as u64).as_str(),
                );
                match (self.input.input_mode, self.ui_language) {
                    (InputMode::Subtitles, UiLanguage::Chinese) => "正在合成第 ".to_string().concat(
                        part.as_str(),
                    ).concat(" 条字幕"),
                    (
                        InputMode::Subtitles,
                        UiLanguage::English,
                    ) => "Synthesizing subtitle ".to_string().concat(part.as_str()),
                    (InputMode::Text, UiLanguage::Chinese) => "正在本地合成第 ".to_string().concat(
                        part.as_str(),
                    ).concat(" 段"),
                    (
                        InputMode::Text,
                        UiLanguage::English,
                    ) => "Synthesizing local segment ".to_string().concat(part.as_str()),
                }
            },
            None => self.ui_language.text(
                "正在合成并保存…",
                "Synthesizing and saving…",
            ).to_string(),
        }
    }

    /// What the button says that recognises the recording.
    pub fn transcribe_label(&self) -> (label: &'static str)
        ensures
            label@ == label_of_transcription(self@),
    {
        assert(self@.transcription.cues.len() == self.transcription.cues@.len());
        if self.transcription.running {
            self.ui_language.text("正在生成字幕…", "Generating subtitles…")
        } else if self.transcription.cues.len() == 0 {
            self.ui_language.text("开始识别", "Start transcription")
        } else {
            self.ui_language.text("重新识别", "Transcribe again")
        }
    }

    /// What the button says that saves the subtitles.
    pub fn save_label(&self) -> (label: &'static str)
        ensures
            label@ == label_of_saving(self@),
    {
        if self.transcription.saving {
            self.ui_language.text("正在保存…", "Saving…")
        } else if self.transcription.dirty {
            self.ui_language.text("保存修改", "Save edits")
        } else {
            self.ui_language.text("另存字幕", "Save as")
        }
    }

    /// What is said of the imported track, when there is one.
    pub fn track_summary(&self) -> (summary: Option<String>)
        ensures
            qwen_local::optional_text(summary) == summary_of_track(self@),
    {
        match &self.input.subtitle_track {
            Some(track) => {
                let ghost cues = subtitles::cues_of(track.cues@);
                assert(cues.len() == track.cues@.len());
                let duration = subtitles::format_timestamp(track.duration_ms());
                let count = text::number_text(track.cues.len() as u64);
                let length = match self.ui_language {
                    UiLanguage::Chinese => " 条 · 总时长 ".to_string().concat(duration.as_str()),
                    UiLanguage::English => " cues · ".to_string().concat(
                        duration.as_str(),
                    ).concat(" total"),
                };
                Some(
                    track.format.label().to_string().concat(" · ").concat(count.as_str()).concat(
                        length.as_str(),
                    ),
                )
            },
            None => None,
        }
    }

    /// How much of the audio has been made.
    fn generation_progress(&self) -> (done: Option<(u64, u64)>)
        ensures
            done == generation_done(self@),
    {
        let fetched = match self.qwen.progress {
            Some(progress) => Some(progress),
            None => self.indextts.progress,
        };
        match self.subtitle_progress {
            Some((current, total)) => if total > 0 {
                Some(
                    (
                        if current > 0 {
                            (current - 1) as u64
                        } else {
                            0
                        },
                        total as u64,
                    ),
                )
            } else {
                fetched
            },
            None => fetched,
        }
    }

    /// The progress bars that are shown below the cards.
    pub fn progress_bars(&self) -> (shown: Vec<ProgressBar>)
        ensures
            bars_of(shown@) == bars(self@),
    {
        let mut shown: Vec<ProgressBar> = Vec::new();
        if self.generating {
            let done = self.generation_progress();
            let label = if done.is_some() {
                self.ui_language.text("当前任务进度", "Current task progress")
            } else {
                self.ui_language.text(
                    "正在处理当前任务…",
                    "Processing the current task…",
                )
            };
            shown.push(ProgressBar { done, label: label.to_string() });
        } else {
            let preparing = self.qwen.preparing || self.indextts.preparing;
            if self.qwen.preparing {
                shown.push(
                    ProgressBar {
                        done: self.qwen.progress,
                        label: self.qwen.progress_label.clone(),
                    },
                );
            } else if self.indextts.preparing {
                shown.push(
                    ProgressBar {
                        done: self.indextts.progress,
                        label: self.indextts.progress_label.clone(),
                    },
                );
            }
            if !preparing && self.previewing {
                let label = self.ui_language.text(
                    "正在生成试听音频…",
                    "Generating the preview…",
                );
                shown.push(ProgressBar { done: None, label: label.to_string() });
            } else if !self.previewing && self.selection.tts_engine == TtsEngine::Edge
                && self.fetching_voices {
                let label = self.ui_language.text(
                    "正在加载在线音色…",
                    "Loading online voices…",
                );
                shown.push(ProgressBar { done: None, label: label.to_string() });
            }
        }
        assert(bars_of(shown@) =~= bars(self@));
        shown
    }
}

/// What the user can do with a model download; nothing when none is going on. A paused download
/// can be resumed, one that is being cancelled can only be waited for.
pub fn offered_actions(state: DownloadState, language: UiLanguage) -> (offer: Option<DownloadOffer>)
    ensures
        match offer {
            Some(offer) => {
                &&& state != DownloadState::Idle
                &&& match offer.note {
                    Some(note) => match state {
                        DownloadState::Paused => note@ == ui_text::in_language(
                            language,
                            "下载已暂停"@,
                            "Download paused"@,
                        ),
                        DownloadState::Cancelled => note@ == ui_text::in_language(
                            language,
                            "正在取消…"@,
                            "Cancelling…"@,
                        ),
                        _ => false,
                    },
                    None => state == DownloadState::Running,
                }
                &&& match offer.first {
                    Some((action, label)) => match state {
                        DownloadState::Running => action == ModelDownloadAction::Pause && label@
                            == ui_text::in_language(language, "暂停下载"@, "Pause download"@),
                        DownloadState::Paused => action == ModelDownloadAction::Resume && label@
                            == ui_text::in_language(
                            language,
                            "继续下载"@,
                            "Resume download"@,
                        ),
                        _ => false,
                    },
                    None => state == DownloadState::Cancelled,
                }
                &&& match offer.cancel {
                    Some(label) => state != DownloadState::Cancelled && label@
                        == ui_text::in_language(language, "取消下载"@, "Cancel download"@),
                    None => state == DownloadState::Cancelled,
                }
            },
            None => state == DownloadState::Idle,
        },
{
    let cancel = Some(language.text("取消下载", "Cancel download"));
    match state {
        DownloadState::Idle => None,
        DownloadState::Running => Some(
            DownloadOffer {
                note: None,
                first: Some(
                    (ModelDownloadAction::Pause, language.text("暂停下载", "Pause download")),
                ),
                cancel,
            },
        ),
        DownloadState::Paused => Some(
            DownloadOffer {
                note: Some(language.text("下载已暂停", "Download paused")),
                first: Some(
                    (ModelDownloadAction::Resume, language.text("继续下载", "Resume download")),
                ),
                cancel,
            },
        ),
        DownloadState::Cancelled => Some(
            DownloadOffer {
                note: Some(language.text("正在取消…", "Cancelling…")),
                first: None,
                cancel: None,
            },
        ),
    }
}

/// The command that fetches a model with the tool of its publisher, and the one for the mirror.
pub fn manual_commands(version: QwenModelVersion, kind: QwenModelKind) -> (commands: (
    String,
    String,
))
    ensures
        (commands.0@, commands.1@) == fetch_commands(version, kind),
{
    let model = QwenModel { version, kind };
    (
        "huggingface-cli download ".to_string().concat(model.id()).concat(" --local-dir ").concat(
            model.folder_name(),
        ),
        "modelscope download --model ".to_string().concat(model.id()).concat(
            " --local_dir ",
        ).concat(model.folder_name()),
    )
}

/// What is said above the commands: which model is to be fetched.
pub fn manual_note(language: UiLanguage, version: QwenModelVersion, kind: QwenModelKind) -> (note: String)
    ensures
        note@ == ui_text::in_language(
            language,
            "自动下载失败时，请从下面任一官方模型页面下载完整的 Qwen3-TTS "@
                + qwen_local::version_label(version) + " "@ + qwen_local::kind_label(kind)
                + " 文件夹。"@,
            "If automatic download fails, download the complete Qwen3-TTS "@
                + qwen_local::version_label(version) + " "@ + qwen_local::kind_label(kind)
                + " folder from either official model page below."@,
        ),
{
    match language {
        UiLanguage::Chinese => "自动下载失败时，请从下面任一官方模型页面下载完整的 Qwen3-TTS ".to_string().concat(
            version.short_label(),
        ).concat(" ").concat(kind.short_label()).concat(" 文件夹。"),
        UiLanguage::English => "If automatic download fails, download the complete Qwen3-TTS ".to_string().concat(
            version.short_label(),
        ).concat(" ").concat(kind.short_label()).concat(
            " folder from either official model page below.",
        ),
    }
}

/// When a cue is shown.
pub fn cue_times(cue: &SubtitleCue) -> (shown: String)
    ensures
        shown@ == subtitles::timestamp(cue.start_ms as nat) + " – "@ + subtitles::timestamp(
            cue.end_ms as nat,
        ),
{
    subtitles::format_timestamp(cue.start_ms).concat(" – ").concat(
        subtitles::format_timestamp(cue.end_ms).as_str(),
    )
}

/// What the button says that fetches a model: it fetches one again that is there already.
pub fn model_download_label(language: UiLanguage, ready: bool) -> (label: &'static str)
    ensures
        label@ == (if ready {
            ui_text::in_language(language, "重新下载"@, "Reload"@)
        } else {
            ui_text::in_language(language, "下载/续传"@, "Download"@)
        }),
{
    if ready {
        language.text("重新下载", "Reload")
    } else {
        language.text("下载/续传", "Download")
    }
}

} // verus!
