use simple_stt_rs::app_state::{App, AppState, Key, KeyEffect};
use simple_stt_rs::backend::{get_model_path, model_file_name, PrepareAction, SttProcessor};
use simple_stt_rs::config::{Config, WhisperConfig};
use simple_stt_rs::llm::{LlmRefiner, RefineRoute};
use simple_stt_rs::recording::Readiness;
use simple_stt_rs::text::u64_to_decimal;
use simple_stt_rs::transcript::clean_whisper_output;

fn app() -> App {
    App::new(Config::default(), "Mic".to_string())
}

#[test]
fn new_app_loads_configured_model() {
    let a = app();
    assert_eq!(a.state, AppState::LoadingModel);
    assert_eq!(a.model_status, "Loading tiny.en...");
    assert_eq!(a.selected_model_index, 0);
    let mut c = Config::default();
    c.whisper.model = "medium.en".to_string();
    let b = App::new(c, "Mic".to_string());
    assert_eq!(b.selected_model_index, 3);
    let mut c = Config::default();
    c.whisper.model = "nonexistent".to_string();
    assert_eq!(App::new(c, "Mic".to_string()).selected_model_index, 0);
}

#[test]
fn recording_cycle() {
    let mut a = app();
    a.state = AppState::Idle;
    assert_eq!(a.handle_key(Key::Char(' ')), KeyEffect::StartAudio);
    assert_eq!(a.state, AppState::Recording);
    a.tick();
    a.tick();
    assert_eq!(a.recording_duration_ms, 200);
    assert_eq!(a.handle_key(Key::Char(' ')), KeyEffect::StopAudio);
    assert_eq!(a.state, AppState::Transcribing);
    a.tick();
    assert_eq!(a.recording_duration_ms, 200);
    a.finish_processing("hello".to_string());
    assert_eq!(a.state, AppState::Finished);
    a.reset();
    assert_eq!(a.state, AppState::Idle);
    assert_eq!(a.transcribed_text.as_deref(), Some("hello"));
}

#[test]
fn start_only_from_idle() {
    let mut a = app();
    a.start_recording();
    assert_eq!(a.state, AppState::LoadingModel);
    assert_eq!(a.handle_key(Key::Char(' ')), KeyEffect::Nothing);
}

#[test]
fn space_in_finished_returns_to_idle() {
    let mut a = app();
    a.state = AppState::Finished;
    assert_eq!(a.handle_key(Key::Char(' ')), KeyEffect::Nothing);
    assert_eq!(a.state, AppState::Idle);
}

#[test]
fn model_selection_wraps() {
    let mut a = app();
    a.state = AppState::Idle;
    a.handle_key(Key::Char('m'));
    assert_eq!(a.state, AppState::ModelSelection);
    a.handle_key(Key::Up);
    assert_eq!(a.get_selected_model(), "large-v3-turbo");
    a.handle_key(Key::Down);
    assert_eq!(a.get_selected_model(), "tiny.en");
    a.handle_key(Key::Down);
    assert_eq!(a.get_selected_model(), "base.en");
    a.handle_key(Key::Enter);
    assert!(a.model_change_requested);
    a.handle_key(Key::Esc);
    assert_eq!(a.state, AppState::Idle);
    assert!(a.running);
}

#[test]
fn quit_and_shortcuts_keys() {
    let mut a = app();
    a.state = AppState::Idle;
    a.handle_key(Key::Char('?'));
    assert_eq!(a.state, AppState::ShowingShortcuts);
    a.handle_key(Key::Esc);
    assert_eq!(a.state, AppState::Idle);
    a.handle_key(Key::Char('l'));
    assert!(a.show_logs);
    a.handle_key(Key::Esc);
    assert!(!a.running);
}

#[test]
fn log_keeps_last_fifty() {
    let mut a = app();
    for i in 0..60 {
        a.add_log_message(format!("line {i}"));
    }
    assert_eq!(a.logs.len(), 50);
    assert_eq!(a.logs[0], "line 10");
    assert_eq!(a.logs[49], "line 59");
}

#[test]
fn waveform_downsamples_and_slides() {
    let mut a = app();
    let block: Vec<i16> = (0..1000).map(|i| i as i16).collect();
    a.show_audio_block(&block);
    assert_eq!(a.audio_waveform.len(), 100);
    assert_eq!(a.audio_waveform[0], 0);
    assert_eq!(a.audio_waveform[1], 10);
    assert_eq!(a.audio_waveform[99], 990);
    a.show_audio_block(&[7, 8, 9]);
    assert_eq!(a.audio_waveform.len(), 100);
    assert_eq!(&a.audio_waveform[97..], &[7, 8, 9]);
    assert_eq!(a.audio_waveform[0], 30);
    assert_eq!(a.audio_level, simple_stt_rs::level::calculate_rms(&[7, 8, 9]));
}

#[test]
fn clean_output_drops_pure_markers() {
    assert_eq!(clean_whisper_output("[BLANK_AUDIO]"), "");
    assert_eq!(clean_whisper_output("  [Blank_Audio]  "), "");
    assert_eq!(clean_whisper_output("(no audio)"), "");
    assert_eq!(clean_whisper_output("Inaudible"), "");
}

#[test]
fn clean_output_strips_markers_and_spacing() {
    assert_eq!(clean_whisper_output(" Hello [MUSIC] world , ok ? "), "Hello world, ok?");
    assert_eq!(clean_whisper_output("Hi [noise] there !"), "Hi there!");
    assert_eq!(clean_whisper_output("a  b"), "a b");
}

#[test]
fn clean_output_drops_tiny_segments() {
    assert_eq!(clean_whisper_output("a"), "");
    assert_eq!(clean_whisper_output("  "), "");
    assert_eq!(clean_whisper_output("é"), "é");
    assert_eq!(clean_whisper_output("ok"), "ok");
}

#[test]
fn nested_settings() {
    let c = Config::default();
    assert_eq!(c.get_nested("audio.silence_threshold").as_deref(), Some("491520"));
    assert_eq!(c.get_nested("audio.max_recording_ms").as_deref(), Some("120000"));
    assert_eq!(c.get_nested("whisper.model").as_deref(), Some("tiny.en"));
    assert_eq!(c.get_nested("llm.provider").as_deref(), Some("openai"));
    assert_eq!(c.get_nested("clipboard.auto_paste").as_deref(), Some("false"));
    assert_eq!(c.get_nested("audio"), None);
    assert_eq!(c.get_nested("nope.nothing"), None);
}

#[test]
fn decimal_rendering() {
    assert_eq!(u64_to_decimal(0), "0");
    assert_eq!(u64_to_decimal(907), "907");
    assert_eq!(u64_to_decimal(u64::MAX), "18446744073709551615");
}

#[test]
fn env_overrides() {
    let mut c = Config::default();
    c.apply_env_overrides(Some("k1".to_string()), Some("k2".to_string()));
    assert_eq!(c.whisper.api_key.as_deref(), Some("k1"));
    assert_eq!(c.llm.api_key.as_deref(), Some("k1"));
    let mut c = Config::default();
    c.llm.provider = "anthropic".to_string();
    c.apply_env_overrides(Some("k1".to_string()), Some("k2".to_string()));
    assert_eq!(c.llm.api_key.as_deref(), Some("k2"));
}

#[test]
fn model_paths() {
    assert_eq!(model_file_name("base.en"), "ggml-base.en.bin");
    let w = WhisperConfig::default();
    assert_eq!(get_model_path(&w, "/cache"), "/cache/simple-stt/models/ggml-tiny.en.bin");
    let mut w = WhisperConfig::default();
    w.model_path = Some("/opt/m.bin".to_string());
    assert_eq!(get_model_path(&w, "/cache"), "/opt/m.bin");
}

#[test]
fn tilde_is_expanded() {
    let mut w = WhisperConfig::default();
    w.model_path = Some("~/models/m.bin".to_string());
    let p = get_model_path(&w, "/cache");
    assert!(p.ends_with("/models/m.bin"));
    assert!(!p.starts_with('~'));
}

#[test]
fn local_preparation_states() {
    let mut c = Config::default();
    c.whisper.backend = "local".to_string();
    let mut p = SttProcessor::new(&c).unwrap();
    assert!(!p.is_configured());
    assert!(!p.is_preparing());
    assert_eq!(p.backend_type(), "local");
    if let simple_stt_rs::backend::SttBackend::Local(b) = &mut p.backend {
        assert_eq!(b.begin_prepare(false), PrepareAction::DownloadThenLoad);
        assert!(b.is_preparing());
        b.finish_prepare(Err("load failed".to_string()));
        assert_eq!(b.preparation_failed(), Some("load failed"));
        b.config.download_models = false;
        assert_eq!(b.begin_prepare(false), PrepareAction::Fail);
        assert!(b.preparation_failed().is_some());
        assert_eq!(b.begin_prepare(true), PrepareAction::Load);
        b.finish_prepare(Ok(()));
        assert_eq!(b.begin_prepare(true), PrepareAction::Done);
    } else {
        panic!("expected a local backend");
    }
    assert!(p.is_configured());
    assert_eq!(p.backend.readiness(), Readiness::Ready);
    assert_eq!(p.preparation_failed(), None);
}

#[test]
fn api_backend_needs_key() {
    let mut c = Config::default();
    c.whisper.backend = "api".to_string();
    assert!(!SttProcessor::new(&c).unwrap().is_configured());
    c.whisper.api_key = Some("k".to_string());
    let p = SttProcessor::new(&c).unwrap();
    assert!(p.is_configured());
    assert_eq!(p.backend.readiness(), Readiness::Ready);
}

#[test]
fn unknown_backend_message() {
    let mut c = Config::default();
    c.whisper.backend = "cloud".to_string();
    match SttProcessor::new(&c) {
        Err(e) => assert_eq!(e.message(), "Unknown STT backend: cloud"),
        Ok(_) => panic!("expected an error"),
    }
}

#[test]
fn refine_routes() {
    let mut c = Config::default();
    assert_eq!(LlmRefiner::new(&c).refine_route(None), RefineRoute::KeepOriginal);
    c.llm.api_key = Some("k".to_string());
    let r = LlmRefiner::new(&c);
    match r.refine_route(Some("todo")) {
        RefineRoute::OpenAi(p) => assert!(p.starts_with("Convert this speech")),
        other => panic!("unexpected {other:?}"),
    }
    assert_eq!(r.refine_route(Some("missing")), RefineRoute::KeepOriginal);
    c.llm.provider = "anthropic".to_string();
    assert!(matches!(LlmRefiner::new(&c).refine_route(None), RefineRoute::Anthropic(_)));
    c.llm.provider = "other".to_string();
    assert_eq!(LlmRefiner::new(&c).refine_route(None), RefineRoute::KeepOriginal);
}

#[test]
fn space_while_transcribing_changes_nothing() {
    let mut a = app();
    a.state = AppState::Transcribing;
    a.add_log_message("kept".to_string());
    assert_eq!(a.handle_key(Key::Char(' ')), KeyEffect::Nothing);
    assert_eq!(a.state, AppState::Transcribing);
    assert_eq!(a.logs, vec!["kept".to_string()]);
}

#[test]
fn threshold_update_touches_only_threshold() {
    let mut c = Config::default();
    c.set_silence_threshold(1234);
    assert_eq!(c.audio.silence_threshold, 1234);
    assert_eq!(c.audio.chunk_size, 2048);
    assert_eq!(c.llm.model, "gpt-3.5-turbo");
    assert_eq!(c.whisper.model, "tiny.en");
}
