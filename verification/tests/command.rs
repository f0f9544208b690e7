use screen_recorder::ffmpeg::{
    auto_filename, custom_filename, output_filename, FfmpegCommandBuilder, VideoEncoder,
};
use screen_recorder::window::WindowInfo;

fn builder(
    fps: i32,
    bitrate: i32,
    encoder: VideoEncoder,
    audio: Option<&str>,
) -> FfmpegCommandBuilder {
    FfmpegCommandBuilder::new(
        "/usr/bin/ffmpeg".to_string(),
        1280,
        720,
        fps,
        bitrate,
        "out.mp4".to_string(),
        encoder,
        audio.map(|s| s.to_string()),
    )
}

#[test]
fn software_command_without_audio_is_exact() {
    // fps=30, bitrate=6000, software variant, no audio: raw RGBA on stdin at
    // 30 fps, yuv420p output, a 6000k bitrate, and a video-only stream map.
    let args = builder(30, 6000, VideoEncoder::Libx264, None).build(0);
    let expected: Vec<&str> = vec![
        "-hide_banner", "-loglevel", "warning", "-y",
        "-f", "rawvideo", "-pix_fmt", "rgba", "-s", "1280x720", "-r", "30", "-i", "-",
        "-vsync", "cfr", "-r", "30", "-pix_fmt", "yuv420p",
        "-c:v", "libx264", "-preset", "veryfast", "-tune", "zerolatency", "-b:v", "6000k",
        "-g", "60", "-x264-params", "keyint=60:min-keyint=30:scenecut=0",
        "-map", "0:v",
        "-movflags", "faststart", "out.mp4",
    ];
    assert_eq!(args, expected);
    assert!(!args.iter().any(|a| a == "1:a"));
    assert!(!args.iter().any(|a| a == "-shortest"));
}

#[test]
fn audio_command_maps_both_streams() {
    // audio device "2": two inputs, audio encoding directives, explicit
    // video-from-0 and audio-from-1 mapping, and "-shortest" truncation.
    let args = builder(30, 6000, VideoEncoder::Libx264, Some("2")).build(2);
    let inputs: Vec<usize> = args
        .iter()
        .enumerate()
        .filter(|(_, a)| a.as_str() == "-i")
        .map(|(i, _)| i)
        .collect();
    assert_eq!(inputs.len(), 2);
    assert_eq!(args[inputs[0] + 1], "-");
    assert_eq!(args[inputs[1] + 1], ":2");
    let pos = |needle: &str| args.iter().position(|a| a == needle);
    assert!(pos("avfoundation").is_some());
    let ca = pos("-c:a").unwrap();
    assert_eq!(args[ca + 1], "aac");
    let ba = pos("-b:a").unwrap();
    assert_eq!(args[ba + 1], "192k");
    let ar = pos("-ar").unwrap();
    assert_eq!(args[ar + 1], "48000");
    let ac = pos("-ac").unwrap();
    assert_eq!(args[ac + 1], "2");
    let maps: Vec<usize> = args
        .iter()
        .enumerate()
        .filter(|(_, a)| a.as_str() == "-map")
        .map(|(i, _)| i)
        .collect();
    assert_eq!(maps.len(), 2);
    assert_eq!(args[maps[0] + 1], "0:v");
    assert_eq!(args[maps[1] + 1], "1:a");
    assert!(pos("-shortest").is_some());
}

#[test]
fn hardware_primary_clamps_bitrate_and_parity() {
    let mut b = builder(30, 99999, VideoEncoder::H264VideoToolbox, None);
    b.width = 101;
    b.height = 151;
    let args = b.build(0);
    let pos = |needle: &str| args.iter().position(|a| a == needle).unwrap();
    assert_eq!(args[pos("-c:v") + 1], "h264_videotoolbox");
    assert_eq!(args[pos("-b:v") + 1], "50000k");
    assert_eq!(args[pos("-maxrate") + 1], "51000k");
    assert_eq!(args[pos("-bufsize") + 1], "100000k");
    assert_eq!(args[pos("-profile:v") + 1], "high");
    assert_eq!(args[pos("-level") + 1], "4.1");
    // The second "-s" carries the output size, rounded down to even.
    let sizes: Vec<usize> = args
        .iter()
        .enumerate()
        .filter(|(_, a)| a.as_str() == "-s")
        .map(|(i, _)| i)
        .collect();
    assert_eq!(args[sizes[1] + 1], "100x150");
}

#[test]
fn hardware_fallback_is_more_conservative() {
    let args = builder(30, 30000, VideoEncoder::H264VideoToolboxFallback, None).build(0);
    let pos = |needle: &str| args.iter().position(|a| a == needle).unwrap();
    assert_eq!(args[pos("-b:v") + 1], "20000k");
    assert_eq!(args[pos("-profile:v") + 1], "main");
    assert_eq!(args[pos("-level") + 1], "3.1");
    assert!(!args.iter().any(|a| a == "-realtime"));
}

#[test]
fn hardware_bitrate_floors() {
    let args = builder(30, 500, VideoEncoder::H264VideoToolboxFallback, None).build(0);
    let pos = |needle: &str| args.iter().position(|a| a == needle).unwrap();
    assert_eq!(args[pos("-b:v") + 1], "1000k");
}

fn window(id: u64, owner: &str, title: &str) -> WindowInfo {
    WindowInfo {
        window_id: id,
        owner_name: owner.to_string(),
        window_title: title.to_string(),
        x: 0,
        y: 0,
        width: 800,
        height: 600,
    }
}

#[test]
fn custom_filename_appends_suffix_and_timestamp() {
    assert_eq!(custom_filename("clip".to_string(), 42), "clip_42.mp4");
    assert_eq!(custom_filename("clip.mp4".to_string(), 42), "clip.mp4");
}

#[test]
fn auto_filename_is_exact() {
    assert_eq!(
        auto_filename(7, "App_Doc".to_string(), 10),
        "recording_7_App_Doc_10.mp4"
    );
}

#[test]
fn output_filename_sanitizes_custom_names() {
    // A path separator must not survive sanitization.
    let w = window(1, "App", "Doc");
    let name = output_filename(&w, Some("a/b"), 5);
    assert_eq!(name, "ab_5.mp4");
    assert_ne!(name, "a/b_5.mp4");
}

#[test]
fn output_filename_derives_from_window_identity() {
    let w = window(7, "App", "Doc");
    assert_eq!(output_filename(&w, None, 10), "recording_7_App_Doc_10.mp4");
}
