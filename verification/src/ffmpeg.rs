//! Encoder command construction: from target geometry, frame rate, bitrate,
//! encoder variant and optional audio device to the exact argument list of
//! the encoder subprocess invocation.

use vstd::prelude::*;
use crate::geometry::even_down;
use crate::text::{dec_digits, u64_to_string, ends_with_seq, str_ends_with};
use crate::window::WindowInfo;

verus! {

/// Encoder variant, ordered from most capable to most conservative:
/// hardware-primary, hardware-fallback, then the full software path.
#[derive(Clone, Copy, Debug, PartialEq, Eq, Structural)]
pub enum VideoEncoder {
    H264VideoToolbox,
    H264VideoToolboxFallback,
    Libx264,
}

/// Builder for the encoder subprocess invocation.
pub struct FfmpegCommandBuilder {
    pub ffmpeg_path: String,
    pub width: usize,
    pub height: usize,
    pub fps: i32,
    pub bitrate_kbps: i32,
    pub output_path: String,
    pub encoder: VideoEncoder,
    pub audio_input_device: Option<String>,
}

/// The views of a sequence of owned strings.
pub open spec fn views(args: Seq<String>) -> Seq<Seq<char>> {
    args.map_values(|s: String| s@)
}

/// `b` clamped to the ceiling, then raised to the floor.
pub open spec fn clamp_bitrate(b: int, ceiling: int, floor: int) -> int {
    let m = if b <= ceiling {
        b
    } else {
        ceiling
    };
    if m >= floor {
        m
    } else {
        floor
    }
}

/// "{w}x{h}"
pub open spec fn dim_string(w: int, h: int) -> Seq<char> {
    dec_digits(w) + "x"@ + dec_digits(h)
}

/// "{n}k"
pub open spec fn kbps_string(n: int) -> Seq<char> {
    dec_digits(n) + "k"@
}

/// ":{n}" — the avfoundation audio-only input selector.
pub open spec fn audio_input_string(n: int) -> Seq<char> {
    ":"@ + dec_digits(n)
}

/// "keyint={2 fps}:min-keyint={fps}:scenecut=0"
pub open spec fn x264_params_string(fps: int) -> Seq<char> {
    "keyint="@ + dec_digits(2 * fps) + ":min-keyint="@ + dec_digits(fps) + ":scenecut=0"@
}

/// Leading options: quiet logging and overwrite of the output file.
pub open spec fn spec_global_args() -> Seq<Seq<char>> {
    seq!["-hide_banner"@, "-loglevel"@, "warning"@, "-y"@]
}

/// Raw-video input on stdin: fixed RGBA pixel format, explicit size, and an
/// input rate (rawvideo frames carry no timestamps).
pub open spec fn spec_video_input_args(w: int, h: int, fps: int) -> Seq<Seq<char>> {
    seq![
        "-f"@,
        "rawvideo"@,
        "-pix_fmt"@,
        "rgba"@,
        "-s"@,
        dim_string(w, h),
        "-r"@,
        dec_digits(fps),
        "-i"@,
        "-"@,
    ]
}

/// Second input: platform audio capture from the device with this index.
pub open spec fn spec_audio_input_args(device_index: int) -> Seq<Seq<char>> {
    seq!["-f"@, "avfoundation"@, "-i"@, audio_input_string(device_index)]
}

/// Constant output frame rate and the encoder-friendly pixel format.
pub open spec fn spec_output_common_args(fps: int) -> Seq<Seq<char>> {
    seq!["-vsync"@, "cfr"@, "-r"@, dec_digits(fps), "-pix_fmt"@, "yuv420p"@]
}

/// Output video parameters of the chosen encoder variant.
pub open spec fn spec_encoder_args(
    e: VideoEncoder,
    width: int,
    height: int,
    fps: int,
    bitrate: int,
) -> Seq<Seq<char>> {
    match e {
        VideoEncoder::H264VideoToolbox => {
            let sb = clamp_bitrate(bitrate, 50000, 500);
            seq![
                "-c:v"@,
                "h264_videotoolbox"@,
                "-b:v"@,
                kbps_string(sb),
                "-maxrate"@,
                kbps_string(sb + 1000),
                "-bufsize"@,
                kbps_string(sb * 2),
                "-g"@,
                dec_digits(2 * fps),
                "-profile:v"@,
                "high"@,
                "-level"@,
                "4.1"@,
                "-allow_sw"@,
                "1"@,
                "-realtime"@,
                "1"@,
                "-s"@,
                dim_string(even_down(width), even_down(height)),
            ]
        },
        VideoEncoder::H264VideoToolboxFallback => {
            let sb = clamp_bitrate(bitrate, 20000, 1000);
            seq![
                "-c:v"@,
                "h264_videotoolbox"@,
                "-b:v"@,
                kbps_string(sb),
                "-profile:v"@,
                "main"@,
                "-level"@,
                "3.1"@,
                "-allow_sw"@,
                "1"@,
                "-s"@,
                dim_string(even_down(width), even_down(height)),
            ]
        },
        VideoEncoder::Libx264 => seq![
            "-c:v"@,
            "libx264"@,
            "-preset"@,
            "veryfast"@,
            "-tune"@,
            "zerolatency"@,
            "-b:v"@,
            kbps_string(bitrate),
            "-g"@,
            dec_digits(2 * fps),
            "-x264-params"@,
            x264_params_string(fps),
        ],
    }
}

/// Audio encoding plus explicit stream mapping: video from input 0, audio
/// from input 1, output truncated to the shorter stream.
pub open spec fn spec_audio_codec_args() -> Seq<Seq<char>> {
    seq![
        "-c:a"@,
        "aac"@,
        "-b:a"@,
        "192k"@,
        "-ar"@,
        "48000"@,
        "-ac"@,
        "2"@,
        "-af"@,
        "highpass=f=80,lowpass=f=15000,volume=0.8"@,
        "-map"@,
        "0:v"@,
        "-map"@,
        "1:a"@,
        "-shortest"@,
    ]
}

/// Video-only stream mapping.
pub open spec fn spec_video_map_args() -> Seq<Seq<char>> {
    seq!["-map"@, "0:v"@]
}

/// Container finalization for streamable playback, then the output path.
pub open spec fn spec_tail_args(output_path: Seq<char>) -> Seq<Seq<char>> {
    seq!["-movflags"@, "faststart"@, output_path]
}

/// The complete argument list that `build` produces.
pub open spec fn spec_build_args(b: FfmpegCommandBuilder, device_index: int) -> Seq<Seq<char>> {
    spec_global_args() + spec_video_input_args(b.width as int, b.height as int, b.fps as int) + (
    if b.audio_input_device is Some {
        spec_audio_input_args(device_index)
    } else {
        Seq::empty()
    }) + spec_output_common_args(b.fps as int) + spec_encoder_args(
        b.encoder,
        b.width as int,
        b.height as int,
        b.fps as int,
        b.bitrate_kbps as int,
    ) + (if b.audio_input_device is Some {
        spec_audio_codec_args()
    } else {
        spec_video_map_args()
    }) + spec_tail_args(b.output_path@)
}

/// Append a literal argument.
fn push_lit(args: &mut Vec<String>, s: &str)
    ensures
        views(final(args)@) == views(old(args)@).push(s@),
{
    args.push(String::from_str(s));
    proof {
        assert(views(args@) =~= views(old(args)@).push(s@));
    }
}

/// Append an owned argument.
fn push_string(args: &mut Vec<String>, s: String)
    ensures
        views(final(args)@) == views(old(args)@).push(s@),
{
    let ghost v = s@;
    args.push(s);
    proof {
        assert(views(args@) =~= views(old(args)@).push(v));
    }
}

/// "{w}x{h}"
fn dim_str(w: u64, h: u64) -> (s: String)
    ensures
        s@ == dim_string(w as int, h as int),
{
    let s = u64_to_string(w).concat("x").concat(u64_to_string(h).as_str());
    proof {
        assert(s@ =~= dim_string(w as int, h as int));
    }
    s
}

/// "{n}k"
fn kbps_str(n: u64) -> (s: String)
    ensures
        s@ == kbps_string(n as int),
{
    u64_to_string(n).concat("k")
}

impl FfmpegCommandBuilder {
    pub fn new(
        ffmpeg_path: String,
        width: usize,
        height: usize,
        fps: i32,
        bitrate_kbps: i32,
        output_path: String,
        encoder: VideoEncoder,
        audio_input_device: Option<String>,
    ) -> (r: Self)
        ensures
            r == (FfmpegCommandBuilder {
                ffmpeg_path,
                width,
                height,
                fps,
                bitrate_kbps,
                output_path,
                encoder,
                audio_input_device,
            }),
    {
        FfmpegCommandBuilder {
            ffmpeg_path,
            width,
            height,
            fps,
            bitrate_kbps,
            output_path,
            encoder,
            audio_input_device,
        }
    }

    /// The exact argument list of the encoder invocation. The program to run
    /// is `self.ffmpeg_path`; `audio_device_index` selects the avfoundation
    /// audio device and matters only when an audio input device is set.
    #[verifier::rlimit(80)]
    #[verifier::spinoff_prover]
    pub fn build(&self, audio_device_index: usize) -> (args: Vec<String>)
        requires
            1 <= self.fps <= 1000000,
            500 <= self.bitrate_kbps,
        ensures
            views(args@) == spec_build_args(*self, audio_device_index as int),
    {
        let mut args: Vec<String> = Vec::new();
        push_lit(&mut args, "-hide_banner");
        push_lit(&mut args, "-loglevel");
        push_lit(&mut args, "warning");
        push_lit(&mut args, "-y");
        proof {
            assert(views(args@) =~= spec_global_args());
        }

        push_lit(&mut args, "-f");
        push_lit(&mut args, "rawvideo");
        push_lit(&mut args, "-pix_fmt");
        push_lit(&mut args, "rgba");
        push_lit(&mut args, "-s");
        push_string(&mut args, dim_str(self.width as u64, self.height as u64));
        push_lit(&mut args, "-r");
        push_string(&mut args, u64_to_string(self.fps as u64));
        push_lit(&mut args, "-i");
        push_lit(&mut args, "-");
        proof {
            assert(views(args@) =~= spec_global_args() + spec_video_input_args(
                self.width as int,
                self.height as int,
                self.fps as int,
            ));
        }
        let ghost head = views(args@);

        if self.audio_input_device.is_some() {
            push_lit(&mut args, "-f");
            push_lit(&mut args, "avfoundation");
            push_lit(&mut args, "-i");
            let sel = String::from_str(":").concat(
                u64_to_string(audio_device_index as u64).as_str(),
            );
            proof {
                assert(sel@ =~= audio_input_string(audio_device_index as int));
            }
            push_string(&mut args, sel);
            proof {
                assert(views(args@) =~= head + spec_audio_input_args(audio_device_index as int));
            }
        } else {
            proof {
                assert(views(args@) =~= head + Seq::<Seq<char>>::empty());
            }
        }
        let ghost head2 = views(args@);

        push_lit(&mut args, "-vsync");
        push_lit(&mut args, "cfr");
        push_lit(&mut args, "-r");
        push_string(&mut args, u64_to_string(self.fps as u64));
        push_lit(&mut args, "-pix_fmt");
        push_lit(&mut args, "yuv420p");
        proof {
            assert(views(args@) =~= head2 + spec_output_common_args(self.fps as int));
        }
        let ghost head3 = views(args@);

        match self.encoder {
            VideoEncoder::H264VideoToolbox => {
                let capped = if self.bitrate_kbps <= 50000 {
                    self.bitrate_kbps
                } else {
                    50000
                };
                let sb = if capped >= 500 {
                    capped
                } else {
                    500
                };
                push_lit(&mut args, "-c:v");
                push_lit(&mut args, "h264_videotoolbox");
                push_lit(&mut args, "-b:v");
                push_string(&mut args, kbps_str(sb as u64));
                push_lit(&mut args, "-maxrate");
                push_string(&mut args, kbps_str((sb + 1000) as u64));
                push_lit(&mut args, "-bufsize");
                push_string(&mut args, kbps_str((sb * 2) as u64));
                push_lit(&mut args, "-g");
                push_string(&mut args, u64_to_string((self.fps * 2) as u64));
                push_lit(&mut args, "-profile:v");
                push_lit(&mut args, "high");
                push_lit(&mut args, "-level");
                push_lit(&mut args, "4.1");
                push_lit(&mut args, "-allow_sw");
                push_lit(&mut args, "1");
                push_lit(&mut args, "-realtime");
                push_lit(&mut args, "1");
                push_lit(&mut args, "-s");
                let sw = crate::geometry::round_down_even(self.width);
                let sh = crate::geometry::round_down_even(self.height);
                push_string(&mut args, dim_str(sw as u64, sh as u64));
                proof {
                    assert(views(args@) =~= head3 + spec_encoder_args(
                        self.encoder,
                        self.width as int,
                        self.height as int,
                        self.fps as int,
                        self.bitrate_kbps as int,
                    ));
                }
            },
            VideoEncoder::H264VideoToolboxFallback => {
                let capped = if self.bitrate_kbps <= 20000 {
                    self.bitrate_kbps
                } else {
                    20000
                };
                let sb = if capped >= 1000 {
                    capped
                } else {
                    1000
                };
                push_lit(&mut args, "-c:v");
                push_lit(&mut args, "h264_videotoolbox");
                push_lit(&mut args, "-b:v");
                push_string(&mut args, kbps_str(sb as u64));
                push_lit(&mut args, "-profile:v");
                push_lit(&mut args, "main");
                push_lit(&mut args, "-level");
                push_lit(&mut args, "3.1");
                push_lit(&mut args, "-allow_sw");
                push_lit(&mut args, "1");
                push_lit(&mut args, "-s");
                let sw = crate::geometry::round_down_even(self.width);
                let sh = crate::geometry::round_down_even(self.height);
                push_string(&mut args, dim_str(sw as u64, sh as u64));
                proof {
                    assert(views(args@) =~= head3 + spec_encoder_args(
                        self.encoder,
                        self.width as int,
                        self.height as int,
                        self.fps as int,
                        self.bitrate_kbps as int,
                    ));
                }
            },
            VideoEncoder::Libx264 => {
                push_lit(&mut args, "-c:v");
                push_lit(&mut args, "libx264");
                push_lit(&mut args, "-preset");
                push_lit(&mut args, "veryfast");
                push_lit(&mut args, "-tune");
                push_lit(&mut args, "zerolatency");
                push_lit(&mut args, "-b:v");
                push_string(&mut args, kbps_str(self.bitrate_kbps as u64));
                push_lit(&mut args, "-g");
                push_string(&mut args, u64_to_string((self.fps * 2) as u64));
                push_lit(&mut args, "-x264-params");
                let params = String::from_str("keyint=").concat(
                    u64_to_string((self.fps * 2) as u64).as_str(),
                ).concat(":min-keyint=").concat(u64_to_string(self.fps as u64).as_str()).concat(
                    ":scenecut=0",
                );
                proof {
                    assert(params@ =~= x264_params_string(self.fps as int));
                }
                push_string(&mut args, params);
                proof {
                    assert(views(args@) =~= head3 + spec_encoder_args(
                        self.encoder,
                        self.width as int,
                        self.height as int,
                        self.fps as int,
                        self.bitrate_kbps as int,
                    ));
                }
            },
        }
        let ghost head4 = views(args@);

        if self.audio_input_device.is_some() {
            push_lit(&mut args, "-c:a");
            push_lit(&mut args, "aac");
            push_lit(&mut args, "-b:a");
            push_lit(&mut args, "192k");
            push_lit(&mut args, "-ar");
            push_lit(&mut args, "48000");
            push_lit(&mut args, "-ac");
            push_lit(&mut args, "2");
            push_lit(&mut args, "-af");
            push_lit(&mut args, "highpass=f=80,lowpass=f=15000,volume=0.8");
            push_lit(&mut args, "-map");
            push_lit(&mut args, "0:v");
            push_lit(&mut args, "-map");
            push_lit(&mut args, "1:a");
            push_lit(&mut args, "-shortest");
            proof {
                assert(views(args@) =~= head4 + spec_audio_codec_args());
            }
        } else {
            push_lit(&mut args, "-map");
            push_lit(&mut args, "0:v");
            proof {
                assert(views(args@) =~= head4 + spec_video_map_args());
            }
        }

        push_lit(&mut args, "-movflags");
        push_lit(&mut args, "faststart");
        push_string(&mut args, self.output_path.clone());
        proof {
            assert(views(args@) =~= spec_build_args(*self, audio_device_index as int));
        }
        args
    }
}

/// What `sanitize_filename::sanitize_with_options` returns for this name,
/// under the fixed options below: a function of the name alone.
pub uninterp spec fn sanitized_of(name: Seq<char>) -> Seq<char>;

/// Relies on sanitize_filename::sanitize_with_options, with the options
/// pinned (non-Windows rules, truncation on, empty replacement) so the result
/// depends on the name alone: it strips path separators, control characters
/// and other illegal filename characters, and truncates overlong names.
#[verifier::external_body]
fn sanitize_component(name: &str) -> (r: String)
    ensures
        r@ == sanitized_of(name@),
{
    sanitize_filename::sanitize_with_options(
        name,
        sanitize_filename::Options { windows: false, truncate: true, replacement: "" },
    )
}

/// Filename from an already sanitized custom name: a name that carries the
/// container suffix is kept as is, any other gets the timestamp and suffix.
pub open spec fn spec_custom_filename(sanitized: Seq<char>, ts: int) -> Seq<char> {
    if ends_with_seq(sanitized, ".mp4"@) {
        sanitized
    } else {
        sanitized + "_"@ + dec_digits(ts) + ".mp4"@
    }
}

/// Finish a custom output filename from its sanitized form.
pub fn custom_filename(sanitized: String, ts: u64) -> (r: String)
    ensures
        r@ == spec_custom_filename(sanitized@, ts as int),
{
    if str_ends_with(sanitized.as_str(), ".mp4") {
        sanitized
    } else {
        let r = sanitized.concat("_").concat(u64_to_string(ts).as_str()).concat(".mp4");
        proof {
            assert(r@ =~= spec_custom_filename(sanitized@, ts as int));
        }
        r
    }
}

/// "recording_{window id}_{sanitized title}_{timestamp}.mp4"
pub open spec fn spec_auto_filename(window_id: u64, sanitized: Seq<char>, ts: int) -> Seq<char> {
    "recording_"@ + dec_digits(window_id as int) + "_"@ + sanitized + "_"@ + dec_digits(ts)
        + ".mp4"@
}

/// Finish an auto-generated output filename from the sanitized window title.
pub fn auto_filename(window_id: u64, sanitized: String, ts: u64) -> (r: String)
    ensures
        r@ == spec_auto_filename(window_id, sanitized@, ts as int),
{
    let r = String::from_str("recording_").concat(u64_to_string(window_id).as_str()).concat(
        "_",
    ).concat(sanitized.as_str()).concat("_").concat(u64_to_string(ts).as_str()).concat(".mp4");
    proof {
        assert(r@ =~= spec_auto_filename(window_id, sanitized@, ts as int));
    }
    r
}

/// The output filename of a recording, stamped with `unix_ts` (seconds): a
/// sanitized custom name with the container suffix enforced, or a name
/// derived from the window's owner, title and identifier.
pub fn output_filename(info: &WindowInfo, custom: Option<&str>, unix_ts: u64) -> (r: String)
    ensures
        match custom {
            Some(name) => r@ == spec_custom_filename(sanitized_of(name@), unix_ts as int),
            None => r@ == spec_auto_filename(
                info.window_id,
                sanitized_of(info.owner_name@ + "_"@ + info.window_title@),
                unix_ts as int,
            ),
        },
{
    match custom {
        Some(name) => custom_filename(sanitize_component(name), unix_ts),
        None => {
            let title = owner_title_stem(info);
            auto_filename(info.window_id, sanitize_component(title.as_str()), unix_ts)
        },
    }
}

/// "{owner}_{title}", the raw stem of an auto-generated filename.
fn owner_title_stem(info: &WindowInfo) -> (r: String)
    ensures
        r@ == info.owner_name@ + "_"@ + info.window_title@,
{
    let r = info.owner_name.clone().concat("_").concat(info.window_title.as_str());
    proof {
        assert(r@ =~= info.owner_name@ + "_"@ + info.window_title@);
    }
    r
}

} // verus!
