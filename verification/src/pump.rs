//! The frame pump's real-time decisions: a wall-clock emission schedule that
//! owes exactly one frame per elapsed interval, the last-good-frame refresh
//! rule, and the bounded idle wait.
//!
//! The pump's outside work — capturing, writing the pipe, sleeping — is done
//! by the caller; this module decides how many frames are due, what frame to
//! hold, and how long to sleep.

use vstd::prelude::*;
use crate::geometry::{nn_resized, normalize_frame};

verus! {

/// Nanoseconds in one second.
pub const NANOS_PER_SEC: u64 = 1_000_000_000;

/// Cap on one idle wait, so a stop request is observed promptly.
pub const IDLE_WAIT_CAP_NS: u64 = 2_000_000;

/// A monotonically advancing "next due" timestamp, advanced by a fixed frame
/// interval each time a frame is emitted; never reset during a session.
pub struct EmissionSchedule {
    pub interval_ns: u64,
    pub next_due_ns: u64,
    pub frames_emitted: u64,
}

impl EmissionSchedule {
    /// The frame interval is a positive fraction of a second.
    pub open spec fn wf(self) -> bool {
        1 <= self.interval_ns <= NANOS_PER_SEC
    }

    /// Start a schedule at `start_ns`: the first frame falls due one interval
    /// later, and no frame has been emitted.
    pub fn new(start_ns: u64, fps: u64) -> (s: Self)
        requires
            1 <= fps <= NANOS_PER_SEC,
            start_ns <= u64::MAX - NANOS_PER_SEC,
        ensures
            s.interval_ns == NANOS_PER_SEC as int / fps as int,
            s.next_due_ns == start_ns + s.interval_ns,
            s.frames_emitted == 0,
            s.wf(),
    {
        let interval = NANOS_PER_SEC / fps;
        proof {
            assert(1 <= NANOS_PER_SEC as int / fps as int <= NANOS_PER_SEC) by (nonlinear_arith)
                requires
                    1 <= fps <= NANOS_PER_SEC,
            ;
        }
        EmissionSchedule { interval_ns: interval, next_due_ns: start_ns + interval, frames_emitted: 0 }
    }

    /// Count the frames owed at `now_ns` and advance the schedule past it:
    /// one frame per interval from the old due time through `now_ns`. Emitted
    /// slots carry the indices `old frames_emitted .. old frames_emitted + n`,
    /// so slot indices over a run grow by exactly one per frame written.
    pub fn due_emissions(&mut self, now_ns: u64) -> (n: u64)
        requires
            old(self).wf(),
            now_ns <= u64::MAX - old(self).interval_ns,
            old(self).frames_emitted + (if now_ns >= old(self).next_due_ns {
                (now_ns - old(self).next_due_ns) as int / old(self).interval_ns as int + 1
            } else {
                0
            }) <= u64::MAX,
        ensures
            final(self).wf(),
            final(self).interval_ns == old(self).interval_ns,
            final(self).frames_emitted == old(self).frames_emitted + n,
            final(self).next_due_ns == old(self).next_due_ns + n * old(self).interval_ns,
            final(self).next_due_ns > now_ns,
            n == 0 <==> now_ns < old(self).next_due_ns,
            n > 0 ==> old(self).next_due_ns + (n - 1) * old(self).interval_ns <= now_ns,
    {
        let ghost nd0 = self.next_due_ns as int;
        let ghost iv = self.interval_ns as int;
        let ghost bound = if now_ns >= old(self).next_due_ns {
            (now_ns - old(self).next_due_ns) as int / iv + 1
        } else {
            0
        };
        let mut n: u64 = 0;
        while self.next_due_ns <= now_ns
            invariant
                old(self).wf(),
                self.interval_ns == old(self).interval_ns,
                self.frames_emitted == old(self).frames_emitted,
                now_ns <= u64::MAX - self.interval_ns,
                iv == old(self).interval_ns,
                nd0 == old(self).next_due_ns,
                1 <= iv <= NANOS_PER_SEC,
                self.next_due_ns == nd0 + n * iv,
                n > 0 ==> nd0 + (n - 1) * iv <= now_ns,
                n <= bound,
                old(self).frames_emitted + bound <= u64::MAX,
                bound == if now_ns >= nd0 {
                    (now_ns - nd0) / iv + 1
                } else {
                    0
                },
            decreases now_ns - self.next_due_ns + self.interval_ns,
        {
            proof {
                assert((n + 1) * iv == n * iv + iv) by (nonlinear_arith);
                if !(n + 1 <= bound) {
                    // n == bound would contradict the loop condition: the
                    // schedule would already stand past every owed slot.
                    assert(n == bound);
                    vstd::arithmetic::mul::lemma_mul_nonnegative(n as int, iv);
                    assert(now_ns >= nd0);
                    vstd::arithmetic::div_mod::lemma_fundamental_div_mod(now_ns - nd0, iv);
                    assert(nd0 + ((now_ns - nd0) / iv + 1) * iv > now_ns) by (nonlinear_arith)
                        requires
                            iv >= 1,
                            now_ns >= nd0,
                            now_ns - nd0 == iv * ((now_ns - nd0) / iv) + (now_ns - nd0) % iv,
                            0 <= (now_ns - nd0) % iv < iv,
                    ;
                    assert(false);
                }
            }
            self.next_due_ns = self.next_due_ns + self.interval_ns;
            n = n + 1;
        }
        self.frames_emitted = self.frames_emitted + n;
        n
    }

    /// Bounded idle wait: the time remaining until the next due emission,
    /// capped so the stop flag is observed within the cap.
    pub fn sleep_budget_ns(&self, now_ns: u64) -> (r: u64)
        ensures
            r == if now_ns >= self.next_due_ns {
                0
            } else if self.next_due_ns - now_ns <= IDLE_WAIT_CAP_NS {
                self.next_due_ns - now_ns
            } else {
                IDLE_WAIT_CAP_NS as int
            },
            r <= IDLE_WAIT_CAP_NS,
    {
        if now_ns >= self.next_due_ns {
            0
        } else {
            let remaining = self.next_due_ns - now_ns;
            if remaining <= IDLE_WAIT_CAP_NS {
                remaining
            } else {
                IDLE_WAIT_CAP_NS
            }
        }
    }
}

/// Emitted slot indices of one pump step: `n` consecutive slots from `start`.
pub open spec fn emitted_slots(start: int, n: int) -> Seq<int> {
    Seq::new(n as nat, |k: int| start + k)
}

/// Schedule monotonicity: the slots of consecutive pump steps concatenate
/// into one consecutive run — each emission's slot index is exactly one more
/// than the previous emission's, with no slot skipped or repeated, however
/// the steps divide the emissions.
pub proof fn lemma_slots_consecutive(start: int, n1: int, n2: int)
    requires
        n1 >= 0,
        n2 >= 0,
    ensures
        emitted_slots(start, n1) + emitted_slots(start + n1, n2) == emitted_slots(start, n1 + n2),
        forall|k: int|
            0 <= k < n1 + n2 - 1 ==> #[trigger] emitted_slots(start, n1 + n2)[k + 1]
                == emitted_slots(start, n1 + n2)[k] + 1,
{
    assert(emitted_slots(start, n1) + emitted_slots(start + n1, n2) =~= emitted_slots(
        start,
        n1 + n2,
    ));
}

/// The pump's frame state: the fixed target geometry, the most recent
/// normalized frame, and the emission schedule.
pub struct FramePump {
    pub target_w: usize,
    pub target_h: usize,
    pub last_frame: Vec<u8>,
    pub schedule: EmissionSchedule,
}

impl FramePump {
    /// The held frame always matches the target geometry exactly.
    pub open spec fn wf(self) -> bool {
        &&& self.schedule.wf()
        &&& self.last_frame@.len() == self.target_w * self.target_h * 4
        &&& self.target_w * self.target_h * 4 <= usize::MAX
    }

    /// A pump seeded with a frame of the target geometry.
    pub fn new(seed: Vec<u8>, target_w: usize, target_h: usize, schedule: EmissionSchedule) -> (p:
        Self)
        requires
            schedule.wf(),
            seed@.len() == target_w * target_h * 4,
        ensures
            p.wf(),
            p.target_w == target_w,
            p.target_h == target_h,
            p.last_frame == seed,
            p.schedule == schedule,
    {
        let seed_len = seed.len();
        assert(seed_len == target_w * target_h * 4);
        FramePump { target_w, target_h, last_frame: seed, schedule }
    }

    /// Refresh the held frame from one capture attempt: a miss keeps the
    /// previous frame; a raster of the target geometry replaces it as is;
    /// any other geometry is normalized to the target first.
    pub fn refresh(&mut self, capture: Option<(Vec<u8>, usize, usize)>)
        requires
            old(self).wf(),
            capture matches Some(c) ==> c.0@.len() == c.1 * c.2 * 4,
        ensures
            final(self).wf(),
            final(self).target_w == old(self).target_w,
            final(self).target_h == old(self).target_h,
            final(self).schedule == old(self).schedule,
            match capture {
                None => final(self).last_frame == old(self).last_frame,
                Some(c) => {
                    if c.1 == old(self).target_w && c.2 == old(self).target_h {
                        final(self).last_frame@ == c.0@
                    } else if c.1 >= 1 && c.2 >= 1 {
                        nn_resized(
                            c.0@,
                            final(self).last_frame@,
                            c.1 as int,
                            c.2 as int,
                            old(self).target_w as int,
                            old(self).target_h as int,
                        )
                    } else {
                        forall|i: int|
                            0 <= i < final(self).last_frame@.len()
                                ==> final(self).last_frame@[i] == 0u8
                    }
                },
            },
    {
        match capture {
            None => {},
            Some((buffer, w, h)) => {
                self.last_frame = normalize_frame(buffer, w, h, self.target_w, self.target_h);
            },
        }
    }
}

} // verus!
