//! Encoder supervision: the fallback state machine that degrades from the
//! hardware encoder to progressively safer configurations, the classification
//! of encoder diagnostics, and the shutdown escalation policy.

use vstd::prelude::*;
use crate::ffmpeg::VideoEncoder;
use crate::text::{contains_seq, lower_seq, contains_fold_lower, str_contains};

verus! {

/// What was observed of a freshly spawned encoder process once its grace
/// period elapsed.
#[derive(Clone, Copy, Debug, PartialEq, Eq, Structural)]
pub enum ProbeOutcome {
    /// The process had already exited nonzero.
    ExitedEarly,
    /// Its diagnostics carry the hardware-compression-session failure signature.
    HardwareSessionError,
    /// The process is live with no failure signature.
    Running,
}

/// Supervisor state: still probing a variant, or settled on one.
#[derive(Clone, Copy, Debug, PartialEq, Eq, Structural)]
pub enum SupervisorState {
    Probing { variant: VideoEncoder },
    Accepted { variant: VideoEncoder },
}

/// Milliseconds to wait after a spawn before probing for early failure.
pub const GRACE_PERIOD_MS: u64 = 250;

/// Milliseconds to wait for a graceful exit before force-killing at shutdown.
pub const SHUTDOWN_GRACE_MS: u64 = 5000;

/// Milliseconds to pause after process exit so the container finishes
/// reaching the filesystem.
pub const SHUTDOWN_FLUSH_PAUSE_MS: u64 = 500;

/// One transition of the fallback state machine, probing `v`:
/// a live process settles on `v`; an early nonzero exit respawns with the
/// software variant and settles there with no further probing; the hardware
/// failure signature demotes the primary hardware variant to the hardware
/// fallback, which is then probed in turn.
pub open spec fn spec_supervisor_step(v: VideoEncoder, outcome: ProbeOutcome) -> SupervisorState {
    match outcome {
        ProbeOutcome::Running => SupervisorState::Accepted { variant: v },
        ProbeOutcome::ExitedEarly => SupervisorState::Accepted { variant: VideoEncoder::Libx264 },
        ProbeOutcome::HardwareSessionError => {
            if v == VideoEncoder::H264VideoToolbox {
                SupervisorState::Probing { variant: VideoEncoder::H264VideoToolboxFallback }
            } else {
                SupervisorState::Accepted { variant: v }
            }
        },
    }
}

/// One transition of the fallback state machine.
pub fn supervisor_step(v: VideoEncoder, outcome: ProbeOutcome) -> (r: SupervisorState)
    ensures
        r == spec_supervisor_step(v, outcome),
{
    match outcome {
        ProbeOutcome::Running => SupervisorState::Accepted { variant: v },
        ProbeOutcome::ExitedEarly => SupervisorState::Accepted { variant: VideoEncoder::Libx264 },
        ProbeOutcome::HardwareSessionError => {
            if v == VideoEncoder::H264VideoToolbox {
                SupervisorState::Probing { variant: VideoEncoder::H264VideoToolboxFallback }
            } else {
                SupervisorState::Accepted { variant: v }
            }
        },
    }
}

/// The supervisor state after consuming probe outcomes one at a time from
/// `Probing { v0 }`, stopping at the first settled state.
pub open spec fn spec_supervisor_run(v0: VideoEncoder, outcomes: Seq<ProbeOutcome>) -> SupervisorState
    decreases outcomes.len(),
{
    if outcomes.len() == 0 {
        SupervisorState::Probing { variant: v0 }
    } else {
        match spec_supervisor_step(v0, outcomes[0]) {
            SupervisorState::Accepted { variant } => SupervisorState::Accepted { variant },
            SupervisorState::Probing { variant } => spec_supervisor_run(
                variant,
                outcomes.subrange(1, outcomes.len() as int),
            ),
        }
    }
}

/// The respawn chain is bounded: from any variant the supervisor settles
/// after at most two probe outcomes, so a session sees at most two
/// intermediate respawn attempts.
pub proof fn lemma_supervisor_settles(v0: VideoEncoder, outcomes: Seq<ProbeOutcome>)
    requires
        outcomes.len() >= 2,
    ensures
        spec_supervisor_run(v0, outcomes) is Accepted,
{
    let rest = outcomes.subrange(1, outcomes.len() as int);
    assert(rest.len() >= 1);
    match spec_supervisor_step(v0, outcomes[0]) {
        SupervisorState::Accepted { variant } => {},
        SupervisorState::Probing { variant } => {
            assert(variant == VideoEncoder::H264VideoToolboxFallback);
            assert(spec_supervisor_step(variant, rest[0]) is Accepted);
            assert(spec_supervisor_run(variant, rest) is Accepted);
        },
    }
}

/// Fallback ordering: an encoder that always exits nonzero immediately
/// drives the supervisor, from any starting variant, to the software variant.
pub proof fn lemma_fallback_reaches_software(v0: VideoEncoder, outcomes: Seq<ProbeOutcome>)
    requires
        outcomes.len() >= 1,
        forall|i: int| 0 <= i < outcomes.len() ==> outcomes[i] == ProbeOutcome::ExitedEarly,
    ensures
        spec_supervisor_run(v0, outcomes) == (SupervisorState::Accepted {
            variant: VideoEncoder::Libx264,
        }),
{
}

/// Fallback short-circuit: an encoder that is healthy at the first probe
/// leaves the supervisor settled on the starting variant after that single
/// spawn, with no fallback attempted.
pub proof fn lemma_healthy_first_probe(v0: VideoEncoder, outcomes: Seq<ProbeOutcome>)
    requires
        outcomes.len() >= 1,
        outcomes[0] == ProbeOutcome::Running,
    ensures
        spec_supervisor_run(v0, outcomes) == (SupervisorState::Accepted { variant: v0 }),
{
}

/// The hardware-compression failure signature: the diagnostics mention the
/// VideoToolbox encoder together with one of the known session-failure codes
/// or messages.
pub open spec fn spec_videotoolbox_error(s: Seq<char>) -> bool {
    contains_seq(s, "h264_videotoolbox"@) && (contains_seq(s, "-12903"@) || contains_seq(
        s,
        "-12902"@,
    ) || contains_seq(s, "cannot create compression session"@) || contains_seq(
        s,
        "cannot prepare encoder"@,
    ) || contains_seq(s, "Error while opening encoder"@))
}

/// Does captured encoder stderr carry the hardware-compression failure
/// signature?
pub fn is_videotoolbox_error(stderr_text: &str) -> (b: bool)
    ensures
        b == spec_videotoolbox_error(stderr_text@),
{
    if !str_contains(stderr_text, "h264_videotoolbox") {
        return false;
    }
    str_contains(stderr_text, "-12903") || str_contains(stderr_text, "-12902") || str_contains(
        stderr_text,
        "cannot create compression session",
    ) || str_contains(stderr_text, "cannot prepare encoder") || str_contains(
        stderr_text,
        "Error while opening encoder",
    )
}

/// Severity bucket of one encoder diagnostic line.
#[derive(Clone, Copy, Debug, PartialEq, Eq, Structural)]
pub enum LogSeverity {
    ErrorLine,
    InfoLine,
    DebugLine,
}

/// Severity of a diagnostic line: case-insensitive "error" or "warning" is
/// error-severity; stream or audio context is info-severity; the rest is
/// debug-severity.
pub open spec fn spec_classify_line(line: Seq<char>) -> LogSeverity {
    if contains_seq(lower_seq(line), "error"@) || contains_seq(lower_seq(line), "warning"@) {
        LogSeverity::ErrorLine
    } else if contains_seq(line, "Stream"@) || contains_seq(line, "audio"@) || contains_seq(
        line,
        "Audio"@,
    ) {
        LogSeverity::InfoLine
    } else {
        LogSeverity::DebugLine
    }
}

/// Classify one encoder stderr line into a severity bucket.
pub fn classify_stderr_line(line: &str) -> (r: LogSeverity)
    ensures
        r == spec_classify_line(line@),
{
    if contains_fold_lower(line, "error") || contains_fold_lower(line, "warning") {
        LogSeverity::ErrorLine
    } else if str_contains(line, "Stream") || str_contains(line, "audio") || str_contains(
        line,
        "Audio",
    ) {
        LogSeverity::InfoLine
    } else {
        LogSeverity::DebugLine
    }
}

/// Next move of the shutdown sequence.
#[derive(Clone, Copy, Debug, PartialEq, Eq, Structural)]
pub enum ShutdownAction {
    /// The process has exited; only the filesystem flush pause remains.
    Finished,
    /// Keep polling for a graceful exit.
    KeepWaiting,
    /// The graceful-exit grace period is spent: terminate forcefully.
    ForceKill,
}

/// Shutdown escalation, `elapsed_ms` after end-of-input was signalled:
/// wait for a graceful exit, but never past the shutdown grace period.
pub fn shutdown_action(exited: bool, elapsed_ms: u64) -> (a: ShutdownAction)
    ensures
        exited ==> a == ShutdownAction::Finished,
        !exited && elapsed_ms > SHUTDOWN_GRACE_MS ==> a == ShutdownAction::ForceKill,
        !exited && elapsed_ms <= SHUTDOWN_GRACE_MS ==> a == ShutdownAction::KeepWaiting,
{
    if exited {
        ShutdownAction::Finished
    } else if elapsed_ms > SHUTDOWN_GRACE_MS {
        ShutdownAction::ForceKill
    } else {
        ShutdownAction::KeepWaiting
    }
}

} // verus!
