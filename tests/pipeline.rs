use simple_stt_rs::config::{AudioConfig, Config};
use simple_stt_rs::gate::{GateSignal, SilenceGate};
use simple_stt_rs::level::{calculate_rms, integer_sqrt, LOUDNESS_SCALE};
use simple_stt_rs::recording::{
    hand_off, pad_to_minimum, CaptureAction, CaptureControl, Handoff, Readiness, RecordingSession,
};
use simple_stt_rs::tuning::{percentile, recommend_threshold, sorted_copy, MIN_SEPARATION};

#[test]
fn zero_block_has_zero_loudness() {
    assert_eq!(calculate_rms(&[0i16; 512]), 0);
    assert_eq!(calculate_rms(&[0i16]), 0);
}

#[test]
fn empty_block_has_zero_loudness() {
    assert_eq!(calculate_rms(&[]), 0);
}

#[test]
fn constant_block_loudness_is_exact() {
    assert_eq!(calculate_rms(&[1000i16; 64]), 1000 * LOUDNESS_SCALE);
    assert_eq!(calculate_rms(&[-1000i16; 64]), 1000 * LOUDNESS_SCALE);
    assert_eq!(calculate_rms(&[i16::MIN; 3]), 32768 * LOUDNESS_SCALE);
    assert_eq!(calculate_rms(&[i16::MAX; 7]), 32767 * LOUDNESS_SCALE);
}

#[test]
fn mixed_block_loudness() {
    // mean square = (9 + 16) / 2 = 12.5; 100 * sqrt(12.5) = 353.55...
    assert_eq!(calculate_rms(&[3, -4]), 353);
}

#[test]
fn integer_sqrt_values() {
    assert_eq!(integer_sqrt(0), 0);
    assert_eq!(integer_sqrt(15), 3);
    assert_eq!(integer_sqrt(16), 4);
    assert_eq!(integer_sqrt(1u64 << 60), 1u64 << 30);
}

fn gate() -> SilenceGate {
    // threshold 100, 2 s of silence, 10 s maximum, started at t = 0
    SilenceGate::new(100, 2000, 10_000, 0)
}

#[test]
fn silence_just_under_duration_keeps_recording() {
    let mut g = gate();
    assert_eq!(g.observe(5, 1000), GateSignal::Continue);
    assert_eq!(g.observe(5, 2000), GateSignal::Continue);
    assert_eq!(g.observe(5, 2999), GateSignal::Continue);
    assert_eq!(g.observe(5, 3000), GateSignal::Continue);
}

#[test]
fn silence_just_over_duration_stops() {
    let mut g = gate();
    assert_eq!(g.observe(5, 1000), GateSignal::Continue);
    assert_eq!(g.observe(5, 3001), GateSignal::StopSilence);
}

#[test]
fn loud_reading_restarts_silence_timer() {
    let mut g = gate();
    assert_eq!(g.observe(5, 1000), GateSignal::Continue);
    assert_eq!(g.observe(5, 2500), GateSignal::Continue);
    assert_eq!(g.observe(500, 2600), GateSignal::Continue);
    assert_eq!(g.silence_since, None);
    assert_eq!(g.observe(5, 2700), GateSignal::Continue);
    // 3100 would have ended the first run; the new run began at 2700
    assert_eq!(g.observe(5, 3100), GateSignal::Continue);
    assert_eq!(g.observe(5, 4700), GateSignal::Continue);
    assert_eq!(g.observe(5, 4701), GateSignal::StopSilence);
}

#[test]
fn timeout_fires_without_silence() {
    let mut g = gate();
    let mut t = 0;
    while t <= 10_000 {
        assert_eq!(g.observe(1000, t), GateSignal::Continue);
        t += 100;
    }
    assert_eq!(g.observe(1000, 10_001), GateSignal::StopTimeout);
}

#[test]
fn timeout_overrides_silence() {
    let mut g = gate();
    assert_eq!(g.observe(5, 9_000), GateSignal::Continue);
    assert_eq!(g.observe(5, 12_000), GateSignal::StopTimeout);
}

#[test]
fn observe_block_measures_samples() {
    let mut g = gate();
    let (level, signal) = g.observe_block(&[0i16; 160], 100);
    assert_eq!(level, 0);
    assert_eq!(signal, GateSignal::Continue);
    assert_eq!(g.silence_since, Some(100));
}

#[test]
fn percentile_median_of_five() {
    assert_eq!(percentile(&vec![1, 2, 3, 4, 5], 50), Some(3));
    assert_eq!(percentile(&vec![5, 3, 1, 4, 2], 50), Some(3));
}

#[test]
fn percentile_of_single_value() {
    for p in [0, 10, 50, 100, 1000] {
        assert_eq!(percentile(&vec![42], p), Some(42));
    }
}

#[test]
fn percentile_edges() {
    assert_eq!(percentile(&vec![], 50), None);
    assert_eq!(percentile(&vec![9, 1, 5], 0), Some(1));
    assert_eq!(percentile(&vec![9, 1, 5], 100), Some(9));
    assert_eq!(percentile(&vec![9, 1, 5], 250), Some(9));
    assert_eq!(percentile(&vec![10, 11, 12], 10), Some(10));
}

#[test]
fn sorted_copy_sorts() {
    assert_eq!(sorted_copy(&vec![3, 1, 2, 1]), vec![1, 1, 2, 3]);
}

#[test]
fn balanced_threshold_between_silence_and_speech() {
    let a = recommend_threshold(&vec![0, 0, 1], &vec![10, 11, 12]).unwrap();
    assert_eq!(a.max_silence, 1);
    assert_eq!(a.speech_p10, 10);
    assert!(a.max_silence < a.balanced && a.balanced < 10);
    assert!(!a.well_separated);
    assert_eq!(a.balanced, 5);
    assert_eq!(a.conservative, 3);
    assert_eq!(a.aggressive, 7);
    assert_eq!(a.avg_silence, 0);
}

#[test]
fn well_separated_threshold_formulas() {
    let a = recommend_threshold(&vec![1000, 2000], &vec![1_002_000, 1_500_000]).unwrap();
    assert!(a.well_separated);
    assert!(1_000_000 > MIN_SEPARATION);
    assert_eq!(a.max_silence, 2000);
    assert_eq!(a.avg_silence, 1500);
    assert_eq!(a.conservative, 202_000);
    assert_eq!(a.balanced, 502_000);
    assert_eq!(a.aggressive, 802_000);
}

#[test]
fn threshold_needs_both_recordings() {
    assert!(recommend_threshold(&vec![], &vec![1]).is_none());
    assert!(recommend_threshold(&vec![1], &vec![]).is_none());
}

#[test]
fn short_recording_is_padded_to_one_second() {
    let rate = 16_000u32;
    let recorded: Vec<i16> = vec![7; 4800]; // 0.3 s
    let mut samples = recorded.clone();
    pad_to_minimum(&mut samples, rate, 1);
    assert_eq!(samples.len(), 16_000);
    assert_eq!(&samples[..4800], &recorded[..]);
    assert!(samples[4800..].iter().all(|&s| s == 0));
}

#[test]
fn stereo_padding_counts_frames() {
    let mut samples: Vec<i16> = vec![1; 10];
    pad_to_minimum(&mut samples, 44_100, 2);
    assert_eq!(samples.len(), 88_200);
}

#[test]
fn long_recording_is_not_padded() {
    let mut samples: Vec<i16> = vec![1; 20_000];
    pad_to_minimum(&mut samples, 16_000, 1);
    assert_eq!(samples.len(), 20_000);
}

#[test]
fn session_accumulates_in_order_and_pads() {
    let config = AudioConfig::default();
    let mut s = RecordingSession::start(&config, 0);
    let (l1, g1) = s.push_block(&[1, 2, 3], 10);
    let (_, g2) = s.push_block(&[4, 5], 20);
    assert_eq!(l1, calculate_rms(&[1, 2, 3]));
    assert_eq!(g1, GateSignal::Continue);
    assert_eq!(g2, GateSignal::Continue);
    assert_eq!(s.samples, vec![1, 2, 3, 4, 5]);
    let out = s.finish().unwrap();
    assert_eq!(out.len(), 16_000);
    assert_eq!(&out[..5], &[1, 2, 3, 4, 5]);
}

#[test]
fn empty_session_yields_nothing() {
    let s = RecordingSession::start(&AudioConfig::default(), 0);
    assert!(s.finish().is_none());
}

#[test]
fn new_session_starts_clean() {
    let config = AudioConfig::default();
    let s = RecordingSession::start(&config, 500);
    assert!(s.samples.is_empty());
    assert_eq!(s.gate.silence_since, None);
    assert_eq!(s.gate.start_ms, 500);
}

#[test]
fn stale_stop_does_not_end_next_session() {
    let mut c = CaptureControl::new();
    c.request_start();
    assert_eq!(c.poll(true), CaptureAction::Begin);
    // the stop key and the transcription step both send a stop
    c.request_stop();
    c.request_stop();
    assert_eq!(c.poll(true), CaptureAction::End);
    assert!(c.take_ack());
    assert!(!c.take_ack());
    assert_eq!(c.stops_pending, 1);
    // a second recording right away
    c.request_start();
    assert_eq!(c.poll(true), CaptureAction::Begin);
    assert_eq!(c.poll(true), CaptureAction::Wait);
    assert_eq!(c.poll(true), CaptureAction::Wait);
    assert!(c.active);
    c.request_stop();
    assert_eq!(c.poll(true), CaptureAction::End);
}

#[test]
fn shutdown_exits_capture_loop() {
    let mut c = CaptureControl::new();
    c.request_start();
    assert_eq!(c.poll(false), CaptureAction::Exit);
    assert!(!c.active);
}

#[test]
fn failed_stream_open_leaves_no_session() {
    let mut c = CaptureControl::new();
    c.request_start();
    assert_eq!(c.poll(true), CaptureAction::Begin);
    c.begin_failed();
    assert!(!c.active);
    c.request_stop();
    assert_eq!(c.poll(true), CaptureAction::Wait);
}

#[test]
fn failed_backend_still_returns_audio() {
    let audio = vec![1i16, 2, 3];
    let r = hand_off(audio.clone(), &Readiness::Failed("model missing".to_string()));
    match &r {
        Handoff::Untranscribed { audio: a, reason } => {
            assert_eq!(a, &audio);
            assert_eq!(reason, "model missing");
        },
        _ => panic!("expected the untranscribed recording"),
    }
    assert_eq!(r.into_audio(), audio);
}

#[test]
fn ready_backend_transcribes() {
    assert!(matches!(hand_off(5u8, &Readiness::Ready), Handoff::Transcribe(5)));
    assert!(matches!(hand_off(5u8, &Readiness::InProgress), Handoff::AwaitBackend(5)));
    assert!(matches!(hand_off(5u8, &Readiness::NotStarted), Handoff::AwaitBackend(5)));
}

#[test]
fn default_config_values() {
    let c = Config::default();
    assert!(c.audio.is_valid());
    assert_eq!(c.audio.sample_rate, 16_000);
    assert_eq!(c.audio.silence_threshold, 491_520);
    assert_eq!(c.whisper.backend, "local");
    assert_eq!(c.whisper.language.as_deref(), Some("en"));
}

#[test]
fn invalid_audio_config() {
    let mut c = AudioConfig::default();
    c.max_recording_ms = c.silence_duration_ms;
    assert!(!c.is_valid());
}

use simple_stt_rs::device::{negotiate_config, ConfigRange, DeviceError};

fn range(channels: u16, min_rate: u32, max_rate: u32) -> ConfigRange {
    ConfigRange { channels, min_rate, max_rate }
}

#[test]
fn device_exact_match_preferred() {
    let ranges = vec![range(2, 44_100, 48_000), range(1, 8_000, 48_000)];
    assert_eq!(negotiate_config(&ranges, 16_000, 1), Ok((16_000, 1)));
}

#[test]
fn device_rate_and_channels_clamped() {
    let ranges = vec![range(2, 44_100, 48_000)];
    assert_eq!(negotiate_config(&ranges, 16_000, 4), Ok((44_100, 2)));
    assert_eq!(negotiate_config(&ranges, 96_000, 2), Ok((48_000, 2)));
}

#[test]
fn device_falls_back_to_first_range() {
    let ranges = vec![range(2, 44_100, 48_000), range(4, 8_000, 16_000)];
    // one channel is below the maximum, but no range has exactly one
    assert_eq!(negotiate_config(&ranges, 22_050, 1), Ok((44_100, 2)));
}

#[test]
fn device_without_configs_is_refused() {
    assert_eq!(negotiate_config(&vec![], 16_000, 1), Err(DeviceError::NoSupportedConfig));
}

use simple_stt_rs::tuning::TuningSession;

#[test]
fn tuning_session_splits_intervals() {
    let mut t = TuningSession::new(3000, 3000);
    assert!(!t.record(0, 0));
    assert!(!t.record(1000, 0));
    assert!(!t.record(2999, 1));
    assert!(!t.record(3000, 10));
    assert!(!t.record(4000, 11));
    assert!(!t.record(5999, 12));
    assert!(t.record(6000, 99));
    assert_eq!(t.silence, vec![0, 0, 1]);
    assert_eq!(t.speech, vec![10, 11, 12]);
    let a = t.advice().unwrap();
    assert!(a.max_silence < a.balanced && a.balanced < 10);
}
