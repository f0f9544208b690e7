use screen_recorder::ffmpeg::VideoEncoder;
use screen_recorder::supervisor::{
    classify_stderr_line, is_videotoolbox_error, shutdown_action, supervisor_step, LogSeverity,
    ProbeOutcome, ShutdownAction, SupervisorState,
};

#[test]
fn healthy_primary_settles_in_one_spawn() {
    // A simulated encoder that succeeds at once: the supervisor settles on
    // the hardware-primary variant with no fallback attempted.
    assert_eq!(
        supervisor_step(VideoEncoder::H264VideoToolbox, ProbeOutcome::Running),
        SupervisorState::Accepted {
            variant: VideoEncoder::H264VideoToolbox
        }
    );
}

#[test]
fn immediate_exit_falls_back_to_software() {
    // A simulated encoder that always exits nonzero immediately: every probe
    // ends in the software variant, whatever variant was being probed.
    for v in [
        VideoEncoder::H264VideoToolbox,
        VideoEncoder::H264VideoToolboxFallback,
        VideoEncoder::Libx264,
    ] {
        assert_eq!(
            supervisor_step(v, ProbeOutcome::ExitedEarly),
            SupervisorState::Accepted {
                variant: VideoEncoder::Libx264
            }
        );
    }
}

#[test]
fn hardware_error_degrades_stepwise() {
    // Primary with the failure signature degrades to the hardware fallback;
    // a fallback that also dies early lands on software: two intermediate
    // respawn attempts at most.
    let s1 = supervisor_step(
        VideoEncoder::H264VideoToolbox,
        ProbeOutcome::HardwareSessionError,
    );
    assert_eq!(
        s1,
        SupervisorState::Probing {
            variant: VideoEncoder::H264VideoToolboxFallback
        }
    );
    let s2 = supervisor_step(
        VideoEncoder::H264VideoToolboxFallback,
        ProbeOutcome::ExitedEarly,
    );
    assert_eq!(
        s2,
        SupervisorState::Accepted {
            variant: VideoEncoder::Libx264
        }
    );
}

#[test]
fn hardware_error_on_fallback_is_accepted() {
    assert_eq!(
        supervisor_step(
            VideoEncoder::H264VideoToolboxFallback,
            ProbeOutcome::HardwareSessionError,
        ),
        SupervisorState::Accepted {
            variant: VideoEncoder::H264VideoToolboxFallback
        }
    );
}

#[test]
fn videotoolbox_signature_needs_encoder_and_code() {
    let text = "conversion failed\n[h264_videotoolbox @ 0x1] cannot create compression session";
    assert!(is_videotoolbox_error(text));
    assert!(is_videotoolbox_error(
        "h264_videotoolbox: error -12903 occurred"
    ));
    assert!(is_videotoolbox_error(
        "h264_videotoolbox: Error while opening encoder"
    ));
    assert!(!is_videotoolbox_error("error -12903 occurred"));
    assert!(!is_videotoolbox_error("h264_videotoolbox started fine"));
    assert!(!is_videotoolbox_error(""));
}

#[test]
fn stderr_lines_classify_by_severity() {
    assert_eq!(
        classify_stderr_line("[libx264] ERROR: rate control failed"),
        LogSeverity::ErrorLine
    );
    assert_eq!(
        classify_stderr_line("deprecated option, Warning issued"),
        LogSeverity::ErrorLine
    );
    assert_eq!(
        classify_stderr_line("Stream #0:0: Video: h264"),
        LogSeverity::InfoLine
    );
    assert_eq!(
        classify_stderr_line("selected audio device 2"),
        LogSeverity::InfoLine
    );
    assert_eq!(
        classify_stderr_line("frame=  100 fps= 30"),
        LogSeverity::DebugLine
    );
}

#[test]
fn shutdown_escalates_after_grace() {
    assert_eq!(shutdown_action(true, 0), ShutdownAction::Finished);
    assert_eq!(shutdown_action(true, 10_000), ShutdownAction::Finished);
    assert_eq!(shutdown_action(false, 4999), ShutdownAction::KeepWaiting);
    assert_eq!(shutdown_action(false, 5000), ShutdownAction::KeepWaiting);
    assert_eq!(shutdown_action(false, 5001), ShutdownAction::ForceKill);
}
