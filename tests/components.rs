use simple_stt_rs::backend::SttProcessor;
use simple_stt_rs::config::Config;
use simple_stt_rs::llm::LlmRefiner;
use simple_stt_rs::status::{ClipboardManager, UiManager};

#[test]
fn test_clipboard_manager_creation() {
    let config = Config::default();
    let result = ClipboardManager::new(&config);
    assert!(!result.is_auto_paste_enabled());
}

#[test]
fn test_auto_paste_configuration() {
    let config = Config::default();
    let mut clipboard = ClipboardManager::new(&config);
    assert!(!clipboard.is_auto_paste_enabled());
    clipboard.set_auto_paste(true);
    assert!(clipboard.is_auto_paste_enabled());
}

#[test]
fn test_llm_refiner_creation() {
    let config = Config::default();
    let refiner = LlmRefiner::new(&config);
    assert_eq!(refiner.list_profiles().len(), 4);
}

#[test]
fn test_provider_getter() {
    let config = Config::default();
    let refiner = LlmRefiner::new(&config);
    assert_eq!(refiner.provider(), "openai");
}

#[test]
fn test_model_getter() {
    let config = Config::default();
    let refiner = LlmRefiner::new(&config);
    assert_eq!(refiner.model(), "gpt-3.5-turbo");
}

#[test]
fn test_is_configured() {
    let mut config = Config::default();
    let refiner = LlmRefiner::new(&config);
    assert!(!refiner.is_configured());

    config.llm.api_key = Some("test-key".to_string());
    let refiner = LlmRefiner::new(&config);
    assert!(refiner.is_configured());
}

#[test]
fn test_list_profiles() {
    let config = Config::default();
    let refiner = LlmRefiner::new(&config);
    let profiles = refiner.list_profiles();

    assert!(profiles.iter().any(|(k, _)| k == "general"));
    assert!(profiles.iter().any(|(k, _)| k == "todo"));
    assert!(profiles.iter().any(|(k, _)| k == "email"));
    assert!(profiles.iter().any(|(k, _)| k == "slack"));
}

#[test]
fn test_stt_processor_creation_api() {
    let mut config = Config::default();
    config.whisper.backend = "api".to_string();
    let processor = SttProcessor::new(&config);
    assert!(processor.is_ok());
}

#[test]
fn test_stt_processor_creation_local() {
    let mut config = Config::default();
    config.whisper.backend = "local".to_string();
    let processor = SttProcessor::new(&config);
    assert!(processor.is_ok());
}

#[test]
fn test_unknown_backend() {
    let mut config = Config::default();
    config.whisper.backend = "unknown".to_string();
    let processor = SttProcessor::new(&config);
    assert!(processor.is_err());
}

#[test]
fn test_ui_manager_creation() {
    let config = Config::default();
    let ui = UiManager::new(&config);
    assert!(ui.is_enabled());
    assert_eq!(ui.current_status(), "Ready");
}

#[test]
fn test_ui_manager_disabled() {
    let mut config = Config::default();
    config.ui.enabled = false;
    let ui = UiManager::new(&config);
    assert!(!ui.is_enabled());
}

#[test]
fn test_status_updates() {
    let config = Config::default();
    let mut ui = UiManager::new(&config);

    ui.set_status("Test");
    assert_eq!(ui.current_status(), "Test");

    ui.start_recording(Some("test-profile"));
    assert!(ui.current_status().contains("test-profile"));
}
