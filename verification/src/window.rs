//! What the window shows of the state of the studio and what its controls change in it.
use vstd::prelude::*;

use crate::asr::{RecognitionLanguage, SubtitleExportFormat};
use crate::qwen_local::QwenModelVersion;
use crate::studio::{
    InputMode, InputState, QwenVoiceMode, SelectionState, State, Studio, TranscriptionState,
    TtsEngine, WorkspaceMode,
};
use crate::subtitles;
use crate::subtitles::{Cue, SubtitleCue};
use crate::text;
use crate::ui_text;
use crate::ui_text::{StatusKind, StatusMessage};

verus! {

/// The measures of the card on which a voice is chosen, in points.
#[derive(Clone, Copy, Debug, PartialEq, Eq, Structural)]
pub struct VoiceCardLayout {
    pub engine_gap: u32,
    pub field_gap: u32,
    pub combo_summary_gap: u32,
    pub section_gap: u32,
    pub metadata_height: u32,
    pub settings_margin: i8,
    pub preview_margin: i8,
    pub waveform_height: u32,
    pub preview_button_height: u32,
}

/// A card of at least this height is laid out with wide gaps.
pub const ROOMY_CARD_HEIGHT: u32 = 590;

/// The measures of a card of the given height.
pub open spec fn card_layout(card_height: u32) -> VoiceCardLayout {
    if card_height < ROOMY_CARD_HEIGHT {
        VoiceCardLayout {
            engine_gap: 6,
            field_gap: 6,
            combo_summary_gap: 5,
            section_gap: 5,
            metadata_height: 26,
            settings_margin: 8,
            preview_margin: 6,
            waveform_height: 18,
            preview_button_height: 30,
        }
    } else {
        VoiceCardLayout {
            engine_gap: 8,
            field_gap: 10,
            combo_summary_gap: 9,
            section_gap: 8,
            metadata_height: 30,
            settings_margin: 10,
            preview_margin: 8,
            waveform_height: 22,
            preview_button_height: 34,
        }
    }
}

impl VoiceCardLayout {
    /// The measures of a card of the given height in whole points.
    pub fn for_height(card_height: u32) -> (layout: Self)
        ensures
            layout == card_layout(card_height),
    {
        if card_height < ROOMY_CARD_HEIGHT {
            VoiceCardLayout {
                engine_gap: 6,
                field_gap: 6,
                combo_summary_gap: 5,
                section_gap: 5,
                metadata_height: 26,
                settings_margin: 8,
                preview_margin: 6,
                waveform_height: 18,
                preview_button_height: 30,
            }
        } else {
            VoiceCardLayout {
                engine_gap: 8,
                field_gap: 10,
                combo_summary_gap: 9,
                section_gap: 8,
                metadata_height: 30,
                settings_margin: 10,
                preview_margin: 8,
                waveform_height: 22,
                preview_button_height: 34,
            }
        }
    }
}

/// The height that is kept free below the cards, in points.
pub open spec fn footer(s: State) -> u32 {
    match s.workspace_mode {
        WorkspaceMode::TextToSpeech => if s.generating || s.qwen.preparing || s.indextts.preparing {
            168
        } else if s.audio.loading || s.audio.player {
            154
        } else if s.previewing || (s.selection.tts_engine == TtsEngine::Edge && s.fetching_voices) {
            134
        } else {
            98
        },
        WorkspaceMode::AudioToSubtitles => if s.transcription.running || s.transcription.saving {
            148
        } else {
            118
        },
    }
}

/// An operation is going on that keeps the engine from being changed.
pub open spec fn operation_busy(s: State) -> bool {
    s.previewing || s.generating || s.transcription.running || s.qwen.preparing
        || s.indextts.preparing
}

/// The state after an engine was chosen. When the voices of the service are shown, only those of
/// the language of the window are; the search is emptied when they are no longer shown.
pub open spec fn after_engine_chosen(
    s: State,
    engine: TtsEngine,
    version: QwenModelVersion,
) -> State {
    if operation_busy(s) {
        s
    } else {
        State {
            selection: SelectionState {
                tts_engine: engine,
                qwen_version: version,
                voice_filter: if engine == TtsEngine::Edge {
                    if text::trimmed(s.selection.voice_filter).len() == 0 {
                        ui_text::in_language(s.ui_language, "中文"@, "English"@)
                    } else {
                        s.selection.voice_filter
                    }
                } else if s.selection.tts_engine == TtsEngine::Edge {
                    Seq::empty()
                } else {
                    s.selection.voice_filter
                },
                ..s.selection
            },
            ..s
        }
    }
}

/// The state after a workspace was opened. The audio that was generated last, when it is still
/// there, is taken as the recording to recognise unless there is one already.
pub open spec fn after_workspace_opened(
    s: State,
    mode: WorkspaceMode,
    last_present: bool,
) -> State {
    State {
        workspace_mode: mode,
        transcription: if mode == WorkspaceMode::AudioToSubtitles && s.transcription.input_path is None
            && last_present {
            TranscriptionState { input_path: s.audio.last_path, ..s.transcription }
        } else {
            s.transcription
        },
        ..s
    }
}

/// The state after the text of a cue was changed.
pub open spec fn after_cue_edited(s: State, index: int, changed: Seq<char>) -> State {
    if 0 <= index < s.transcription.cues.len() {
        State {
            transcription: TranscriptionState {
                cues: s.transcription.cues.update(
                    index,
                    Cue { text: changed, ..s.transcription.cues[index] },
                ),
                dirty: true,
                ..s.transcription
            },
            ..s
        }
    } else {
        s
    }
}

impl Studio {
    /// The height that is kept free below the cards, in points.
    pub fn footer_height(&self) -> (height: u32)
        ensures
            height == footer(self@),
    {
        match self.workspace_mode {
            WorkspaceMode::TextToSpeech => {
                if self.generating || self.qwen.preparing || self.indextts.preparing {
                    168
                } else if self.audio.loading || self.audio.player {
                    154
                } else if self.previewing || (self.selection.tts_engine == TtsEngine::Edge
                    && self.fetching_voices) {
                    134
                } else {
                    98
                }
            },
            WorkspaceMode::AudioToSubtitles => {
                if self.transcription.running || self.transcription.saving {
                    148
                } else {
                    118
                }
            },
        }
    }

    /// Whether an operation is going on that keeps the engine from being changed.
    pub fn engine_locked(&self) -> (locked: bool)
        ensures
            locked == operation_busy(self@),
    {
        self.previewing || self.generating || self.transcription.running || self.qwen.preparing
            || self.indextts.preparing
    }

    /// Chooses what speaks, unless an operation is going on.
    pub fn choose_engine(&mut self, engine: TtsEngine, version: QwenModelVersion)
        ensures
            final(self)@ == after_engine_chosen(old(self)@, engine, version),
    {
        if self.engine_locked() {
            return;
        }
        if engine == TtsEngine::Edge {
            let chars = text::chars_of(self.selection.voice_filter.as_str());
            if text::trim(chars.as_slice()).len() == 0 {
                self.selection.voice_filter = self.ui_language.text("中文", "English").to_string();
            }
        } else if self.selection.tts_engine == TtsEngine::Edge {
            self.selection.voice_filter = String::new();
        }
        self.selection.tts_engine = engine;
        self.selection.qwen_version = version;
    }

    /// Chooses whose voice the Qwen3 engine speaks with, unless an operation is going on.
    pub fn choose_qwen_voice_mode(&mut self, mode: QwenVoiceMode)
        ensures
            final(self)@ == (if operation_busy(old(self)@) {
                old(self)@
            } else {
                State {
                    selection: SelectionState { qwen_voice_mode: mode, ..old(self)@.selection },
                    ..old(self)@
                }
            }),
    {
        if !self.engine_locked() {
            self.selection.qwen_voice_mode = mode;
        }
    }

    /// Opens a workspace. `last_present` says whether the audio that was generated last is still
    /// there.
    pub fn open_workspace(&mut self, mode: WorkspaceMode, last_present: bool)
        ensures
            final(self)@ == after_workspace_opened(old(self)@, mode, last_present),
    {
        self.workspace_mode = mode;
        if mode == WorkspaceMode::AudioToSubtitles && self.transcription.input_path.is_none()
            && last_present {
            self.transcription.input_path = match &self.audio.last_path {
                Some(path) => Some(path.clone()),
                None => None,
            };
        }
    }

    /// Chooses what is spoken, unless audio is being made.
    pub fn choose_input_mode(&mut self, mode: InputMode)
        ensures
            final(self)@ == (if old(self).generating {
                old(self)@
            } else {
                State {
                    input: InputState { input_mode: mode, ..old(self)@.input },
                    ..old(self)@
                }
            }),
    {
        if !self.generating {
            self.input.input_mode = mode;
        }
    }

    /// Empties the editor, unless audio is being made.
    pub fn clear_text(&mut self)
        ensures
            final(self)@ == (if old(self).generating {
                old(self)@
            } else {
                State {
                    input: InputState { text: Seq::empty(), ..old(self)@.input },
                    ..old(self)@
                }
            }),
    {
        if !self.generating {
            self.input.text = String::new();
        }
    }

    /// Removes the subtitle track, unless audio is being made.
    pub fn remove_subtitle(&mut self)
        ensures
            final(self)@ == (if old(self).generating {
                old(self)@
            } else {
                State {
                    input: InputState {
                        subtitle_track: None,
                        subtitle_path: None,
                        ..old(self)@.input
                    },
                    ..old(self)@
                }
            }),
    {
        if !self.generating {
            self.input.subtitle_track = None;
            self.input.subtitle_path = None;
        }
    }

    /// Sets the speed and the volume back to what they were at the start.
    pub fn reset_speech_settings(&mut self)
        ensures
            final(self)@ == (State {
                input: InputState { rate_percent: 0, volume_percent: 0, ..old(self)@.input },
                ..old(self)@
            }),
    {
        self.input.rate_percent = 0;
        self.input.volume_percent = 0;
    }

    /// Chooses the language that is recognised, unless a recording is being recognised.
    pub fn choose_recognition_language(&mut self, language: RecognitionLanguage)
        ensures
            final(self)@ == (if old(self).transcription.running {
                old(self)@
            } else {
                State {
                    transcription: TranscriptionState { language, ..old(self)@.transcription },
                    ..old(self)@
                }
            }),
    {
        if !self.transcription.running {
            self.transcription.language = language;
        }
    }

    /// Chooses the format in which subtitles are saved, unless a recording is being recognised.
    pub fn choose_export_format(&mut self, format: SubtitleExportFormat)
        ensures
            final(self)@ == (if old(self).transcription.running {
                old(self)@
            } else {
                State {
                    transcription: TranscriptionState { format, ..old(self)@.transcription },
                    ..old(self)@
                }
            }),
    {
        if !self.transcription.running {
            self.transcription.format = format;
        }
    }

    /// Changes the text of a cue. The times of the cue stay.
    pub fn edit_cue(&mut self, index: usize, changed: String)
        ensures
            final(self)@ == after_cue_edited(old(self)@, index as int, changed@),
    {
        assert(self@.transcription.cues.len() == self.transcription.cues@.len());
        if index < self.transcription.cues.len() {
            let ghost before = self.transcription.cues@;
            let start_ms: u64 = self.transcription.cues[index].start_ms;
            let end_ms: u64 = self.transcription.cues[index].end_ms;
            let cue = SubtitleCue { start_ms, end_ms, text: changed };
            self.transcription.cues.set(index, cue);
            self.transcription.dirty = true;
            assert(subtitles::cues_of(self.transcription.cues@) =~= subtitles::cues_of(
                before,
            ).update(index as int, cue@));
        }
    }

    /// Tells that the player could not go to a position.
    pub fn seek_failed(&mut self, error: &str)
        ensures
            final(self)@ == (State {
                status: Some(ui_text::status(StatusKind::Warning, error@, error@)),
                ..old(self)@
            }),
    {
        self.status = Some(StatusMessage::fixed(StatusKind::Warning, error, error));
    }
}

} // verus!
