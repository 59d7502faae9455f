use edge_tts_studio::download_control::{
    is_download_cancelled, model_download_control, signal_process, CheckpointStep, DownloadControl,
    DownloadState, ProcessSignal, UnixSignal, DOWNLOAD_CANCELLED_ERROR,
};
use edge_tts_studio::labels::{manual_commands, manual_note, model_download_label, offered_actions};
use edge_tts_studio::qwen_local::{QwenModelKind, QwenModelVersion};
use edge_tts_studio::requests::ModelDownloadAction;
use edge_tts_studio::system_proxy::{choose_proxy, proxy_to_set, ProxySettings};
use edge_tts_studio::ui_text::UiLanguage;

#[test]
fn pause_resume_and_cancel_are_observable_at_checkpoints() {
    let mut control = DownloadControl::new();
    let session = control.begin();
    assert!(control.pause().accepted);

    assert_eq!(control.checkpoint(), Ok(CheckpointStep::Wait));
    assert!(control.resume().accepted);
    assert_eq!(control.checkpoint(), Ok(CheckpointStep::Proceed));

    assert!(control.cancel().accepted);
    assert_eq!(
        control.checkpoint().expect_err("cancelled checkpoint"),
        DOWNLOAD_CANCELLED_ERROR
    );
    session.finish(&mut control);
    assert_eq!(control.state(), DownloadState::Idle);
}

#[test]
fn requests_are_refused_without_a_download() {
    let mut control = model_download_control();
    assert!(!control.pause().accepted);
    assert!(!control.resume().accepted);
    assert!(!control.cancel().accepted);
    assert_eq!(control.state(), DownloadState::Idle);
}

#[test]
fn a_cancelled_download_cannot_be_resumed() {
    let mut control = DownloadControl::new();
    let _session = control.begin();
    assert!(control.cancel().accepted);
    assert!(!control.pause().accepted);
    assert!(!control.resume().accepted);
    assert_eq!(control.state(), DownloadState::Cancelled);
}

#[test]
fn helper_processes_are_told() {
    let mut control = DownloadControl::new();
    let _session = control.begin();
    assert_eq!(control.register_process(7), None);
    assert_eq!(control.pause().signal, Some((7, ProcessSignal::Pause)));
    assert_eq!(control.register_process(8), Some((8, ProcessSignal::Pause)));
    control.clear_process(7);
    assert_eq!(control.process_id, Some(8));
    control.clear_process(8);
    assert_eq!(control.process_id, None);
    assert_eq!(
        signal_process(8, ProcessSignal::Cancel),
        Some((-8, vec![UnixSignal::Continue, UnixSignal::Terminate]))
    );
    assert_eq!(signal_process(u32::MAX, ProcessSignal::Pause), None);
}

#[test]
fn cancellation_is_recognised_inside_other_errors() {
    assert!(is_download_cancelled(&format!("下载失败：{DOWNLOAD_CANCELLED_ERROR}")));
    assert!(!is_download_cancelled("下载失败"));
}

#[test]
fn the_window_offers_what_the_download_accepts() {
    assert!(offered_actions(DownloadState::Idle, UiLanguage::English).is_none());
    let running = offered_actions(DownloadState::Running, UiLanguage::English).unwrap();
    assert_eq!(running.first, Some((ModelDownloadAction::Pause, "Pause download")));
    assert_eq!(running.cancel, Some("Cancel download"));
    let paused = offered_actions(DownloadState::Paused, UiLanguage::Chinese).unwrap();
    assert_eq!(paused.first, Some((ModelDownloadAction::Resume, "继续下载")));
    assert_eq!(paused.note, Some("下载已暂停"));
    let cancelled = offered_actions(DownloadState::Cancelled, UiLanguage::English).unwrap();
    assert_eq!(cancelled.first, None);
    assert_eq!(cancelled.cancel, None);
}

#[test]
fn models_can_be_fetched_by_hand() {
    let (hugging_face, model_scope) =
        manual_commands(QwenModelVersion::Small0_6B, QwenModelKind::CustomVoice);
    assert_eq!(
        hugging_face,
        "huggingface-cli download Qwen/Qwen3-TTS-12Hz-0.6B-CustomVoice --local-dir Qwen3-TTS-12Hz-0.6B-CustomVoice"
    );
    assert!(model_scope.starts_with("modelscope download --model "));
    let (hugging_face, model_scope) =
        manual_commands(QwenModelVersion::Large1_7B, QwenModelKind::VoiceClone);
    assert_eq!(
        hugging_face,
        "huggingface-cli download Qwen/Qwen3-TTS-12Hz-1.7B-Base --local-dir Qwen3-TTS-12Hz-1.7B-Base"
    );
    assert_eq!(
        model_scope,
        "modelscope download --model Qwen/Qwen3-TTS-12Hz-1.7B-Base --local_dir Qwen3-TTS-12Hz-1.7B-Base"
    );
    assert_eq!(
        manual_note(UiLanguage::English, QwenModelVersion::Large1_7B, QwenModelKind::VoiceClone),
        "If automatic download fails, download the complete Qwen3-TTS 1.7B Base folder from either official model page below."
    );
    assert_eq!(model_download_label(UiLanguage::English, true), "Reload");
    assert_eq!(model_download_label(UiLanguage::Chinese, false), "下载/续传");
}

fn settings(whitelist: &[&str]) -> ProxySettings {
    ProxySettings {
        proxies: vec![("https".to_string(), "http://127.0.0.1:7890".to_string())],
        whitelist: whitelist.iter().map(|host| host.to_string()).collect(),
        exclude_simple: false,
    }
}

#[test]
fn the_proxy_of_the_system_is_set() {
    assert_eq!(
        proxy_to_set(&[None, None], Some(settings(&[]))).as_deref(),
        Some("http://127.0.0.1:7890")
    );
    assert_eq!(proxy_to_set(&[None], Some(settings(&["speech.platform.bing.com"]))), None);
    assert_eq!(proxy_to_set(&[None], Some(settings(&["*.bing.com"]))), None);
    assert_eq!(proxy_to_set(&[None], None), None);
}

#[test]
fn the_proxy_of_the_user_wins() {
    let set = Some("http://proxy".to_string());
    assert_eq!(choose_proxy(&[None, set.clone()], Some("http://other".to_string())), None);
    assert_eq!(
        choose_proxy(&[Some(String::new())], Some("http://other".to_string())).as_deref(),
        Some("http://other")
    );
    assert_eq!(choose_proxy(&[], Some(String::new())), None);
    assert_eq!(choose_proxy(&[], None), None);
}
