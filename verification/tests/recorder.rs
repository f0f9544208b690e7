use screen_recorder::ffmpeg::VideoEncoder;
use screen_recorder::recorder::{RecorderState, RecordingConfig};

#[test]
fn config_defaults_favor_reliability() {
    let c = RecordingConfig::new();
    assert_eq!(c.fps, 30);
    assert_eq!(c.bitrate_kbps, 6000);
    assert!(c.output_dir.is_none());
    assert_eq!(c.encoder, VideoEncoder::Libx264);
    assert!(c.audio_input_device.is_none());
    assert!(!c.audio_enabled);
}

#[test]
fn config_clamps_frame_rate_and_bitrate() {
    let mut c = RecordingConfig::new();
    c.fps = 0;
    c.bitrate_kbps = 100;
    assert_eq!(c.effective_fps(), 1);
    assert_eq!(c.effective_bitrate_kbps(), 500);
    c.fps = -3;
    assert_eq!(c.effective_fps(), 1);
    c.fps = 60;
    c.bitrate_kbps = 8000;
    assert_eq!(c.effective_fps(), 60);
    assert_eq!(c.effective_bitrate_kbps(), 8000);
}

#[test]
fn audio_device_is_used_only_when_enabled() {
    let mut c = RecordingConfig::new();
    assert_eq!(c.resolve_audio_device(Some("2".to_string())), None);
    c.audio_enabled = true;
    assert_eq!(
        c.resolve_audio_device(Some("2".to_string())),
        Some("2".to_string())
    );
    assert_eq!(c.resolve_audio_device(None), None);
}

#[test]
fn one_session_per_window() {
    let mut r = RecorderState::new();
    assert!(!r.is_recording(7));
    assert!(r.start_recording(7, 100));
    assert!(r.is_recording(7));
    // A second start for the same window is rejected and changes nothing.
    assert!(!r.start_recording(7, 200));
    assert!(r.is_recording(7));
    assert!(r.start_recording(8, 300));

    assert_eq!(r.stop_recording(9), None);
    assert_eq!(r.stop_recording(7), Some(100));
    assert!(!r.is_recording(7));
    assert!(r.is_recording(8));
    assert_eq!(r.stop_recording(7), None);
}

#[test]
fn stop_all_drains_every_session() {
    let mut r = RecorderState::new();
    assert!(r.start_recording(1, 10));
    assert!(r.start_recording(2, 20));
    let drained = r.stop_all();
    assert_eq!(drained, vec![(1, 10), (2, 20)]);
    assert!(!r.is_recording(1));
    assert!(!r.is_recording(2));
    assert_eq!(r.stop_all(), vec![]);
}
