//! What the worker tells the window of what came back from outside.
use vstd::prelude::*;

use crate::indextts::IndexTtsProgress;
use crate::qwen_local;
use crate::requests::VoiceSelection;
use crate::voice_order;
use crate::voices;
use crate::voices::VoiceChoice;
use crate::worker_events::WorkerEvent;

verus! {

/// The report of voices that were fetched: they are sorted, and the user is warned when they could
/// not be kept for the next time.
pub fn voices_fetched(fetched: &Vec<VoiceChoice>, saved: Result<(), String>) -> (event: WorkerEvent)
    ensures
        match event {
            WorkerEvent::VoicesLoaded { voices, from_cache, warning } => {
                &&& voices::voices_of(voices@) == voice_order::in_order(
                    voices::voices_of(fetched@),
                )
                &&& !from_cache
                &&& qwen_local::optional_text(warning) == (match saved {
                    Ok(()) => None,
                    Err(error) => Some(
                        "Voices loaded, but the local cache could not be saved: "@ + error@,
                    ),
                })
            },
            _ => false,
        },
{
    let voices = voice_order::sort_voices(fetched);
    let warning = match saved {
        Ok(()) => None,
        Err(error) => Some(
            "Voices loaded, but the local cache could not be saved: ".to_string().concat(
                error.as_str(),
            ),
        ),
    };
    WorkerEvent::VoicesLoaded { voices, from_cache: false, warning }
}

/// The report when the voices could not be fetched: those that were kept the last time are shown,
/// when there are any.
pub fn voices_not_fetched(network_error: &str, cached: Option<Vec<VoiceChoice>>) -> (event:
    WorkerEvent)
    ensures
        match event {
            WorkerEvent::VoicesLoaded { voices, from_cache, warning } => {
                &&& cached == Some(voices)
                &&& voices@.len() > 0
                &&& from_cache
                &&& qwen_local::optional_text(warning) == Some(
                    "Could not refresh voices ("@ + network_error@
                        + "). Using the last cached list."@,
                )
            },
            WorkerEvent::VoicesFailed(error) => {
                &&& match cached {
                    Some(voices) => voices@.len() == 0,
                    None => true,
                }
                &&& error@ == "Could not load Edge TTS voices: "@ + network_error@
                    + ". Check your internet connection and try again."@
            },
            _ => false,
        },
{
    if let Some(voices) = cached {
        if voices.len() > 0 {
            return WorkerEvent::VoicesLoaded {
                voices,
                from_cache: true,
                warning: Some(
                    "Could not refresh voices (".to_string().concat(network_error).concat(
                        "). Using the last cached list.",
                    ),
                ),
            };
        }
    }
    WorkerEvent::VoicesFailed(
        "Could not load Edge TTS voices: ".to_string().concat(network_error).concat(
            ". Check your internet connection and try again.",
        ),
    )
}

/// What is told of the IndexTTS engine while it is made ready. `transfer` is how much of a
/// download is done, as it is shown.
pub fn preparation_event(progress: IndexTtsProgress, transfer: String) -> (event: Option<
    WorkerEvent,
>)
    ensures
        match progress {
            IndexTtsProgress::Phase(phase) => event == Some(
                WorkerEvent::IndexTtsPreparing {
                    phase,
                    downloaded_bytes: 0,
                    total_bytes: 0,
                    transfer,
                },
            ),
            IndexTtsProgress::ModelDownload { phase, downloaded_bytes, total_bytes } => event
                == Some(
                WorkerEvent::IndexTtsPreparing { phase, downloaded_bytes, total_bytes, transfer },
            ),
            IndexTtsProgress::Inference { .. } => event is None,
        },
{
    match progress {
        IndexTtsProgress::Phase(phase) => Some(
            WorkerEvent::IndexTtsPreparing {
                phase,
                downloaded_bytes: 0,
                total_bytes: 0,
                transfer,
            },
        ),
        IndexTtsProgress::ModelDownload { phase, downloaded_bytes, total_bytes } => Some(
            WorkerEvent::IndexTtsPreparing { phase, downloaded_bytes, total_bytes, transfer },
        ),
        IndexTtsProgress::Inference { .. } => None,
    }
}

/// What is told of the IndexTTS engine while it speaks: which part, or which cue of a track.
pub fn synthesis_event(progress: IndexTtsProgress, of_track: bool, transfer: String) -> (event:
    WorkerEvent)
    ensures
        match progress {
            IndexTtsProgress::Phase(phase) => event == WorkerEvent::IndexTtsInferencePhase(phase),
            IndexTtsProgress::ModelDownload { phase, downloaded_bytes, total_bytes } => event
                == (WorkerEvent::IndexTtsPreparing {
                phase,
                downloaded_bytes,
                total_bytes,
                transfer,
            }),
            IndexTtsProgress::Inference { current, total } => event == (if of_track {
                WorkerEvent::SubtitleProgress { current, total }
            } else {
                WorkerEvent::QwenProgress { current, total }
            }),
        },
{
    match progress {
        IndexTtsProgress::Phase(phase) => WorkerEvent::IndexTtsInferencePhase(phase),
        IndexTtsProgress::ModelDownload {
            phase,
            downloaded_bytes,
            total_bytes,
        } => WorkerEvent::IndexTtsPreparing { phase, downloaded_bytes, total_bytes, transfer },
        IndexTtsProgress::Inference { current, total } => if of_track {
            WorkerEvent::SubtitleProgress { current, total }
        } else {
            WorkerEvent::QwenProgress { current, total }
        },
    }
}

/// What is told of the IndexTTS model while it is imported.
pub fn import_event(progress: IndexTtsProgress, transfer: String) -> (event: Option<WorkerEvent>)
    ensures
        match progress {
            IndexTtsProgress::ModelDownload { phase, downloaded_bytes, total_bytes } => event
                == Some(
                WorkerEvent::IndexTtsImportProgress {
                    phase,
                    copied_bytes: downloaded_bytes,
                    total_bytes,
                    transfer,
                },
            ),
            _ => event is None,
        },
{
    match progress {
        IndexTtsProgress::ModelDownload { phase, downloaded_bytes, total_bytes } => Some(
            WorkerEvent::IndexTtsImportProgress {
                phase,
                copied_bytes: downloaded_bytes,
                total_bytes,
                transfer,
            },
        ),
        _ => None,
    }
}

/// How the decoding of a file went.
#[derive(Debug)]
pub enum Decoding {
    /// The file was decoded to this many samples.
    Samples(usize),
    /// The file could not be decoded.
    Failed(String),
    /// The task that decodes came to an unexpected end.
    Broken(String),
}

/// What is told of the generated audio: it can be played when it has samples.
pub fn audio_event(input_path: String, decoding: Decoding) -> (event: WorkerEvent)
    ensures
        match event {
            WorkerEvent::GeneratedAudioLoaded { input_path: path } => {
                &&& path@ == input_path@
                &&& match decoding {
                    Decoding::Samples(count) => count > 0,
                    _ => false,
                }
            },
            WorkerEvent::GeneratedAudioLoadFailed { input_path: path, error } => {
                &&& path@ == input_path@
                &&& match decoding {
                    Decoding::Samples(count) => count == 0 && error@
                        == "文件中没有可播放的音频采样。"@,
                    Decoding::Failed(reason) => error@ == reason@,
                    Decoding::Broken(reason) => error@ == "音频解码任务异常："@ + reason@,
                }
            },
            _ => false,
        },
{
    match decoding {
        Decoding::Samples(count) => if count > 0 {
            WorkerEvent::GeneratedAudioLoaded { input_path }
        } else {
            WorkerEvent::GeneratedAudioLoadFailed {
                input_path,
                error: "文件中没有可播放的音频采样。".to_string(),
            }
        },
        Decoding::Failed(error) => WorkerEvent::GeneratedAudioLoadFailed { input_path, error },
        Decoding::Broken(error) => WorkerEvent::GeneratedAudioLoadFailed {
            input_path,
            error: "音频解码任务异常：".to_string().concat(error.as_str()),
        },
    }
}

/// The least time between two reports on the recognition model, in milliseconds.
pub const REPORT_INTERVAL_MS: u64 = 150;

/// Whether a report on the fetching of the recognition model is due: at once for another file and
/// at the end of a file, otherwise not more often than the interval.
pub fn download_report_due(
    source_changed: bool,
    downloaded_bytes: u64,
    total_bytes: u64,
    elapsed_ms: u64,
) -> (due: bool)
    ensures
        due == (source_changed || downloaded_bytes >= total_bytes || elapsed_ms
            >= REPORT_INTERVAL_MS),
{
    source_changed || downloaded_bytes >= total_bytes || elapsed_ms >= REPORT_INTERVAL_MS
}

/// Whether a report on the loading of the recognition model is due.
pub fn loading_report_due(complete: bool, elapsed_ms: u64) -> (due: bool)
    ensures
        due == (complete || elapsed_ms >= REPORT_INTERVAL_MS),
{
    complete || elapsed_ms >= REPORT_INTERVAL_MS
}

/// What the worker was doing when an error came back.
#[derive(Clone, Copy, Debug, PartialEq, Eq, Structural)]
pub enum FailedStep {
    StartThread,
    StartRuntime,
    StartService,
    SynthesizePreview,
    WritePreview,
    PlayPreview,
    EncodePresetPreview,
    EncodeClonePreview,
    Synthesize,
    SaveSpeech,
    SavePresetSpeech,
    SaveCloneSpeech,
    SaveIndexTtsSpeech,
    SaveTrack,
    SavePresetTrack,
    SaveCloneTrack,
    SaveIndexTtsTrack,
    CreateSubtitleFolder,
    WriteSubtitles,
    ReadSubtitles,
}

/// What the user is told before the error.
pub open spec fn step_text(step: FailedStep) -> Seq<char> {
    match step {
        FailedStep::StartThread => "Could not start the TTS worker thread: "@,
        FailedStep::StartRuntime => "Could not start the async runtime: "@,
        FailedStep::StartService => "Could not initialize Edge TTS: "@,
        FailedStep::SynthesizePreview => "Could not synthesize the preview: "@,
        FailedStep::WritePreview => "Could not prepare the preview audio: "@,
        FailedStep::PlayPreview => "The audio playback task failed: "@,
        FailedStep::EncodePresetPreview => "Qwen3-TTS 试听编码失败："@,
        FailedStep::EncodeClonePreview => "Qwen3-TTS 克隆试听编码失败："@,
        FailedStep::Synthesize => "Could not generate speech: "@,
        FailedStep::SaveSpeech => "Speech was generated, but the MP3 file could not be saved: "@,
        FailedStep::SavePresetSpeech => "Qwen3-TTS 已完成合成，但无法保存 MP3："@,
        FailedStep::SaveCloneSpeech => "克隆音色已完成合成，但无法保存 MP3："@,
        FailedStep::SaveIndexTtsSpeech => "IndexTTS-2.5 已完成合成，但无法保存 MP3："@,
        FailedStep::SaveTrack => "The subtitle audio was generated, but the MP3 file could not be saved: "@,
        FailedStep::SavePresetTrack => "Qwen3-TTS 字幕音频已完成，但无法保存 MP3："@,
        FailedStep::SaveCloneTrack => "克隆音色字幕已完成合成，但无法保存 MP3："@,
        FailedStep::SaveIndexTtsTrack => "IndexTTS-2.5 字幕音频已完成，但无法保存 MP3："@,
        FailedStep::CreateSubtitleFolder => "The output folder could not be created: "@,
        FailedStep::WriteSubtitles => "The subtitle file could not be written: "@,
        FailedStep::ReadSubtitles => "Could not read the subtitle file: "@,
    }
}

/// The step in which the preview of a voice of the local Qwen3 model is encoded.
pub fn encode_preview_step(voice: &VoiceSelection) -> (step: FailedStep)
    ensures
        step == (if *voice is Qwen3Clone {
            FailedStep::EncodeClonePreview
        } else {
            FailedStep::EncodePresetPreview
        }),
{
    match voice {
        VoiceSelection::Qwen3Clone { .. } => FailedStep::EncodeClonePreview,
        _ => FailedStep::EncodePresetPreview,
    }
}

/// The step in which speech of the given voice is saved.
pub fn save_speech_step(voice: &VoiceSelection) -> (step: FailedStep)
    ensures
        step == (match *voice {
            VoiceSelection::Edge(_) => FailedStep::SaveSpeech,
            VoiceSelection::Qwen3Preset { .. } => FailedStep::SavePresetSpeech,
            VoiceSelection::Qwen3Clone { .. } => FailedStep::SaveCloneSpeech,
            VoiceSelection::IndexTts25 { .. } => FailedStep::SaveIndexTtsSpeech,
        }),
{
    match voice {
        VoiceSelection::Edge(_) => FailedStep::SaveSpeech,
        VoiceSelection::Qwen3Preset { .. } => FailedStep::SavePresetSpeech,
        VoiceSelection::Qwen3Clone { .. } => FailedStep::SaveCloneSpeech,
        VoiceSelection::IndexTts25 { .. } => FailedStep::SaveIndexTtsSpeech,
    }
}

/// The step in which a track that was spoken with the given voice is saved.
pub fn save_track_step(voice: &VoiceSelection) -> (step: FailedStep)
    ensures
        step == (match *voice {
            VoiceSelection::Edge(_) => FailedStep::SaveTrack,
            VoiceSelection::Qwen3Preset { .. } => FailedStep::SavePresetTrack,
            VoiceSelection::Qwen3Clone { .. } => FailedStep::SaveCloneTrack,
            VoiceSelection::IndexTts25 { .. } => FailedStep::SaveIndexTtsTrack,
        }),
{
    match voice {
        VoiceSelection::Edge(_) => FailedStep::SaveTrack,
        VoiceSelection::Qwen3Preset { .. } => FailedStep::SavePresetTrack,
        VoiceSelection::Qwen3Clone { .. } => FailedStep::SaveCloneTrack,
        VoiceSelection::IndexTts25 { .. } => FailedStep::SaveIndexTtsTrack,
    }
}

impl FailedStep {
    /// What the user is told of an error in this step.
    pub fn message(self, error: &str) -> (message: String)
        ensures
            message@ == step_text(self) + error@,
    {
        let said = match self {
            FailedStep::StartThread => "Could not start the TTS worker thread: ",
            FailedStep::StartRuntime => "Could not start the async runtime: ",
            FailedStep::StartService => "Could not initialize Edge TTS: ",
            FailedStep::SynthesizePreview => "Could not synthesize the preview: ",
            FailedStep::WritePreview => "Could not prepare the preview audio: ",
            FailedStep::PlayPreview => "The audio playback task failed: ",
            FailedStep::EncodePresetPreview => "Qwen3-TTS 试听编码失败：",
            FailedStep::EncodeClonePreview => "Qwen3-TTS 克隆试听编码失败：",
            FailedStep::Synthesize => "Could not generate speech: ",
            FailedStep::SaveSpeech => "Speech was generated, but the MP3 file could not be saved: ",
            FailedStep::SavePresetSpeech => "Qwen3-TTS 已完成合成，但无法保存 MP3：",
            FailedStep::SaveCloneSpeech => "克隆音色已完成合成，但无法保存 MP3：",
            FailedStep::SaveIndexTtsSpeech => "IndexTTS-2.5 已完成合成，但无法保存 MP3：",
            FailedStep::SaveTrack => "The subtitle audio was generated, but the MP3 file could not be saved: ",
            FailedStep::SavePresetTrack => "Qwen3-TTS 字幕音频已完成，但无法保存 MP3：",
            FailedStep::SaveCloneTrack => "克隆音色字幕已完成合成，但无法保存 MP3：",
            FailedStep::SaveIndexTtsTrack => "IndexTTS-2.5 字幕音频已完成，但无法保存 MP3：",
            FailedStep::CreateSubtitleFolder => "The output folder could not be created: ",
            FailedStep::WriteSubtitles => "The subtitle file could not be written: ",
            FailedStep::ReadSubtitles => "Could not read the subtitle file: ",
        };
        said.to_string().concat(error)
    }
}

} // verus!
