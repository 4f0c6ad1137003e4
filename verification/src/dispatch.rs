//! The dispatch controller: binds the subscription's frame outcomes to the
//! submission workflow. Frames are processed strictly in arrival order; each
//! block frame triggers exactly one submission; a closing frame or a
//! shutdown request stops the loop, while submissions already dispatched are
//! still awaited and reported.

use vstd::prelude::*;
use crate::stream::{spec_handle_frame, FrameOutcome, UpdateFrame};

verus! {

/// What the controller asks the surrounding loop to do with one frame
/// outcome.
#[derive(Clone, Copy, Debug, PartialEq, Eq, Structural)]
pub enum Directive {
    /// Send the probe acknowledgement carrying this id, then keep pulling.
    Reply { id: i32 },
    /// Start the transfer workflow: fetch a fresh checkpoint, build, submit.
    Dispatch,
    /// Nothing to do for this frame; keep pulling.
    Ignore,
    /// Stop pulling frames.
    Stop,
}

/// The dispatch loop's own state: whether it still pulls frames, how many
/// block frames it has seen, how many submissions it has started, and how
/// many of those are still outstanding (dispatched but not yet reported).
#[derive(Clone, Copy, Debug, PartialEq, Eq, Structural)]
pub struct DispatchController {
    pub running: bool,
    pub blocks_seen: u64,
    pub submissions_started: u64,
    pub outstanding: u64,
}

impl DispatchController {
    /// Counters never exceed what a 64-bit counter can hold, and no more
    /// submissions are outstanding than were ever started.
    pub open spec fn wf(&self) -> bool {
        self.outstanding <= self.submissions_started
    }
}

/// What one controller step does, as a function of the controller's state
/// and the frame outcome alone. A stopped controller ignores the outcome
/// and never starts a submission. A closing outcome stops the controller.
/// A probe acknowledgement is forwarded. A block outcome starts exactly one
/// submission. Anything else is ignored.
pub open spec fn spec_controller_step(c: DispatchController, out: FrameOutcome) -> (
    DispatchController,
    Directive,
) {
    if !c.running {
        (c, Directive::Stop)
    } else if out.closed is Some {
        (
            DispatchController {
                running: false,
                blocks_seen: c.blocks_seen,
                submissions_started: c.submissions_started,
                outstanding: c.outstanding,
            },
            Directive::Stop,
        )
    } else if out.reply is Some {
        (c, Directive::Reply { id: out.reply->0 })
    } else if out.dispatch {
        (
            DispatchController {
                running: c.running,
                blocks_seen: (c.blocks_seen + 1) as u64,
                submissions_started: (c.submissions_started + 1) as u64,
                outstanding: (c.outstanding + 1) as u64,
            },
            Directive::Dispatch,
        )
    } else {
        (c, Directive::Ignore)
    }
}

impl DispatchController {
    /// A fresh controller: running, with nothing seen, started or
    /// outstanding.
    pub fn new() -> (r: DispatchController)
        ensures
            r == (DispatchController {
                running: true,
                blocks_seen: 0u64,
                submissions_started: 0u64,
                outstanding: 0u64,
            }),
            r.wf(),
    {
        DispatchController { running: true, blocks_seen: 0, submissions_started: 0, outstanding: 0 }
    }

    /// Consumes one frame outcome. The controller does not move on to the
    /// next frame until this step's directive has been acted on, so frames
    /// are handled strictly in arrival order.
    pub fn step(&mut self, out: &FrameOutcome) -> (d: Directive)
        requires
            old(self).wf(),
            old(self).blocks_seen < u64::MAX,
            old(self).submissions_started < u64::MAX,
        ensures
            (*final(self), d) == spec_controller_step(*old(self), *out),
            final(self).wf(),
    {
        if !self.running {
            return Directive::Stop;
        }
        if out.closed.is_some() {
            self.running = false;
            return Directive::Stop;
        }
        if let Some(id) = out.reply {
            return Directive::Reply { id };
        }
        if out.dispatch {
            self.blocks_seen = self.blocks_seen + 1;
            self.submissions_started = self.submissions_started + 1;
            self.outstanding = self.outstanding + 1;
            return Directive::Dispatch;
        }
        Directive::Ignore
    }

    /// Records that one dispatched submission's outcome has been reported.
    pub fn submission_reported(&mut self)
        requires
            old(self).wf(),
            old(self).outstanding > 0,
        ensures
            final(self).outstanding == old(self).outstanding - 1,
            final(self).running == old(self).running,
            final(self).blocks_seen == old(self).blocks_seen,
            final(self).submissions_started == old(self).submissions_started,
            final(self).wf(),
    {
        self.outstanding = self.outstanding - 1;
    }

    /// Cooperative shutdown: stop pulling frames. Outstanding submissions
    /// are not forgotten; the loop still awaits and reports them.
    pub fn request_shutdown(&mut self)
        ensures
            final(self).running == false,
            final(self).blocks_seen == old(self).blocks_seen,
            final(self).submissions_started == old(self).submissions_started,
            final(self).outstanding == old(self).outstanding,
    {
        self.running = false;
    }

    /// Whether the loop may exit: it no longer pulls frames and every
    /// dispatched submission's outcome has been reported.
    pub fn may_exit(&self) -> (r: bool)
        ensures
            r == (!self.running && self.outstanding == 0),
    {
        !self.running && self.outstanding == 0
    }
}

/// Each block frame starts exactly one submission: a step on a running
/// controller with a block outcome increments the submission count by one
/// and directs exactly one dispatch; a step on any outcome that is not a
/// block never starts one.
pub proof fn lemma_one_submission_per_block(c: DispatchController, out: FrameOutcome)
    requires
        c.running,
        c.blocks_seen < u64::MAX,
        c.submissions_started < u64::MAX,
    ensures
        (out.closed is None && out.reply is None && out.dispatch) ==> {
            &&& spec_controller_step(c, out).1 == Directive::Dispatch
            &&& spec_controller_step(c, out).0.submissions_started == c.submissions_started + 1
        },
        !out.dispatch ==> {
            &&& spec_controller_step(c, out).1 != Directive::Dispatch
            &&& spec_controller_step(c, out).0.submissions_started == c.submissions_started
        },
{
}

/// A liveness probe is echoed end to end: when a running controller
/// consumes the outcome of a ping frame, it directs exactly one
/// acknowledgement carrying the probe's own id, starts no submission, and
/// keeps its state.
pub proof fn lemma_ping_echo_end_to_end(c: DispatchController, id: i32)
    requires
        c.running,
    ensures
        spec_controller_step(c, spec_handle_frame(Some(UpdateFrame::Ping { id }))) == (
            c,
            Directive::Reply { id },
        ),
{
}

/// A block frame dispatches end to end: when a running controller consumes
/// the outcome of a block frame, it directs exactly one submission and
/// counts it.
pub proof fn lemma_block_dispatch_end_to_end(c: DispatchController, frame: UpdateFrame)
    requires
        c.running,
        c.blocks_seen < u64::MAX,
        c.submissions_started < u64::MAX,
        frame matches UpdateFrame::Block { payload: _ },
    ensures
        ({
            let frame_outcome = spec_handle_frame(Some(frame));
            let (next, d) = spec_controller_step(c, frame_outcome);
            &&& d == Directive::Dispatch
            &&& next.submissions_started == c.submissions_started + 1
            &&& next.blocks_seen == c.blocks_seen + 1
            &&& next.running
        }),
{
}

/// A terminal frame stops the pipeline end to end: consuming its outcome
/// stops the controller, starts no submission, and keeps the outstanding
/// count, so work already dispatched is still awaited.
pub proof fn lemma_terminal_stops_end_to_end(c: DispatchController)
    requires
        c.running,
    ensures
        ({
            let (next, d) = spec_controller_step(c, spec_handle_frame(Some(UpdateFrame::Terminal)));
            &&& d == Directive::Stop
            &&& !next.running
            &&& next.submissions_started == c.submissions_started
            &&& next.outstanding == c.outstanding
        }),
{
}

/// Once stopped — by a closing frame or by shutdown — the controller never
/// starts another submission, whatever frames still arrive.
pub proof fn lemma_stopped_controller_dispatches_nothing(c: DispatchController, out: FrameOutcome)
    requires
        !c.running,
    ensures
        spec_controller_step(c, out) == (c, Directive::Stop),
{
}

/// A closing outcome stops the controller without discarding outstanding
/// submissions: their count is unchanged, so the loop still awaits them.
pub proof fn lemma_close_keeps_outstanding(c: DispatchController, out: FrameOutcome)
    requires
        c.running,
        out.closed is Some,
    ensures
        spec_controller_step(c, out).0.running == false,
        spec_controller_step(c, out).0.outstanding == c.outstanding,
        spec_controller_step(c, out).1 == Directive::Stop,
{
}

} // verus!
