//! The verified core of Edge TTS Studio.

pub mod text;
pub mod subtitles;
pub mod file_names;
pub mod asr;
pub mod round_trip;
pub mod asr_laws;
pub mod download_control;
pub mod timeline_audio;
pub mod subtitle_pipeline;
pub mod indextts;
pub mod qwen_local;
pub mod model_files;
pub mod ui_text;
pub mod voices;
pub mod studio;
pub mod worker_events;
pub mod requests;
pub mod window;
pub mod labels;
pub mod worker;
pub mod voice_order;
pub mod worker_reports;
pub mod media_decoding;
pub mod audio_player;
pub mod system_proxy;
pub mod studio_laws;
pub mod language_laws;
pub mod grouping_laws;
pub mod import_laws;
pub mod recognition_laws;
pub mod caption_laws;
pub mod engine_laws;
pub mod sound_laws;
pub mod display_laws;
pub mod session_laws;
pub mod writing_laws;
pub mod resource_laws;
