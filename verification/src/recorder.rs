//! Recording sessions: configuration defaults and clamps, and the registry
//! that holds at most one live session per window handle.

use vstd::prelude::*;
use crate::ffmpeg::VideoEncoder;

verus! {

/// Floor for the configured bitrate, in kbps.
pub const MIN_BITRATE_KBPS: i32 = 500;

/// Configuration of a recording session.
#[derive(Clone)]
pub struct RecordingConfig {
    pub fps: i32,
    pub bitrate_kbps: i32,
    pub output_dir: Option<String>,
    pub encoder: VideoEncoder,
    pub audio_input_device: Option<String>,
    pub audio_enabled: bool,
}

impl RecordingConfig {
    /// Defaults: 30 fps, 6000 kbps, the software encoder for reliability, no
    /// audio. The output directory is left unset for the caller to fill in.
    pub fn new() -> (r: Self)
        ensures
            r.fps == 30,
            r.bitrate_kbps == 6000,
            r.output_dir is None,
            r.encoder == VideoEncoder::Libx264,
            r.audio_input_device is None,
            r.audio_enabled == false,
    {
        RecordingConfig {
            fps: 30,
            bitrate_kbps: 6000,
            output_dir: None,
            encoder: VideoEncoder::Libx264,
            audio_input_device: None,
            audio_enabled: false,
        }
    }

    /// The frame rate a session actually uses: clamped to at least 1.
    pub fn effective_fps(&self) -> (r: i32)
        ensures
            r == if self.fps >= 1 {
                self.fps as int
            } else {
                1
            },
            r >= 1,
    {
        if self.fps >= 1 {
            self.fps
        } else {
            1
        }
    }

    /// The bitrate a session actually uses: clamped to the floor.
    pub fn effective_bitrate_kbps(&self) -> (r: i32)
        ensures
            r == if self.bitrate_kbps >= MIN_BITRATE_KBPS {
                self.bitrate_kbps as int
            } else {
                MIN_BITRATE_KBPS as int
            },
            r >= MIN_BITRATE_KBPS,
    {
        if self.bitrate_kbps >= MIN_BITRATE_KBPS {
            self.bitrate_kbps
        } else {
            MIN_BITRATE_KBPS
        }
    }

    /// The audio device handed to the encoder: the selected device when audio
    /// recording is enabled, none otherwise.
    pub fn resolve_audio_device(&self, selected: Option<String>) -> (r: Option<String>)
        ensures
            r == if self.audio_enabled {
                selected
            } else {
                None::<String>
            },
    {
        if self.audio_enabled {
            selected
        } else {
            None
        }
    }
}

/// The registry of live sessions: each entry ties a window handle to the
/// caller's token for that session's resources.
pub struct RecorderState {
    pub running: Vec<(u64, u64)>,
}

impl RecorderState {
    /// Window handles in the registry are unique: at most one live session
    /// per window.
    pub open spec fn wf(self) -> bool {
        forall|i: int, j: int|
            0 <= i < j < self.running@.len() ==> (#[trigger] self.running@[i]).0 != (
            #[trigger] self.running@[j]).0
    }

    /// A session is registered for this window.
    pub open spec fn spec_is_recording(self, window_id: u64) -> bool {
        exists|i: int| 0 <= i < self.running@.len() && (#[trigger] self.running@[i]).0 == window_id
    }

    /// An empty registry.
    pub fn new() -> (r: Self)
        ensures
            r.running@.len() == 0,
            r.wf(),
    {
        RecorderState { running: Vec::new() }
    }

    /// Is a session live for this window?
    pub fn is_recording(&self, window_id: u64) -> (r: bool)
        ensures
            r == self.spec_is_recording(window_id),
    {
        let mut i: usize = 0;
        while i < self.running.len()
            invariant
                i <= self.running@.len(),
                forall|j: int| 0 <= j < i ==> (#[trigger] self.running@[j]).0 != window_id,
            decreases self.running@.len() - i,
        {
            if self.running[i].0 == window_id {
                return true;
            }
            i = i + 1;
        }
        false
    }

    /// Register a session for this window. A window that already has a live
    /// session is left untouched and the start is rejected.
    pub fn start_recording(&mut self, window_id: u64, token: u64) -> (started: bool)
        requires
            old(self).wf(),
        ensures
            final(self).wf(),
            started == !old(self).spec_is_recording(window_id),
            started ==> final(self).running@ == old(self).running@.push((window_id, token)),
            !started ==> final(self).running@ == old(self).running@,
    {
        if self.is_recording(window_id) {
            return false;
        }
        self.running.push((window_id, token));
        true
    }

    /// Remove this window's session and hand its token back, if one is live.
    pub fn stop_recording(&mut self, window_id: u64) -> (r: Option<u64>)
        requires
            old(self).wf(),
        ensures
            final(self).wf(),
            r is Some <==> old(self).spec_is_recording(window_id),
            match r {
                Some(token) => exists|i: int|
                    0 <= i < old(self).running@.len() && old(self).running@[i] == (
                    window_id,
                    token,
                ) && final(self).running@ == #[trigger] old(self).running@.remove(i),
                None => final(self).running@ == old(self).running@,
            },
    {
        let mut i: usize = 0;
        while i < self.running.len()
            invariant
                old(self).wf(),
                self.running@ == old(self).running@,
                i <= self.running@.len(),
                forall|j: int| 0 <= j < i ==> (#[trigger] self.running@[j]).0 != window_id,
            decreases self.running@.len() - i,
        {
            if self.running[i].0 == window_id {
                let entry = self.running.remove(i);
                proof {
                    assert(old(self).running@[i as int] == (window_id, entry.1));
                    assert forall|a: int, b: int|
                        0 <= a < b < self.running@.len() implies (#[trigger] self.running@[a]).0
                        != (#[trigger] self.running@[b]).0 by {
                        let oa = if a < i {
                            a
                        } else {
                            a + 1
                        };
                        let ob = if b < i {
                            b
                        } else {
                            b + 1
                        };
                        assert(self.running@[a] == old(self).running@[oa]);
                        assert(self.running@[b] == old(self).running@[ob]);
                    }
                }
                return Some(entry.1);
            }
            i = i + 1;
        }
        None
    }

    /// Empty the registry and hand back every live session's entry.
    pub fn stop_all(&mut self) -> (r: Vec<(u64, u64)>)
        ensures
            r@ == old(self).running@,
            final(self).running@.len() == 0,
            final(self).wf(),
    {
        let mut drained: Vec<(u64, u64)> = Vec::new();
        core::mem::swap(&mut drained, &mut self.running);
        drained
    }
}

} // verus!
