//! When the screen is captured.

use crate::pipeline::ExperimentalPipeline;
use crate::pipeline_steps::PipelineStep;
use crate::video::VideoFrame;
use vstd::prelude::*;

verus! {

/// Adaptive capture mode: switches between on-demand and polling based on request frequency.
#[derive(Clone, Copy, Debug, PartialEq, Eq, Structural)]
pub enum CaptureMode {
    /// Wait for explicit capture requests; always force-capture to ensure fresh frames.
    OnDemand,
    /// Actively poll at the given interval; skip unchanged frames to save CPU.
    Polling { interval_ms: u64 },
}

/// What happened while waiting for a request. Times are in nanoseconds since some fixed moment.
#[derive(Clone, Copy, Debug, PartialEq, Eq, Structural)]
pub enum LoopEvent {
    /// A viewer asked for a frame.
    Request { now: u64 },
    /// The waiting time ran out.
    Timeout { now: u64, shutdown: bool },
    /// Nobody can ask any more.
    Disconnected,
}

/// What to do about it.
#[derive(Clone, Copy, Debug, PartialEq, Eq, Structural)]
pub enum LoopAction {
    /// Drop the requests that have queued up, and capture.
    DrainAndCapture { force: bool },
    /// Drop the requests that have queued up.
    Drain,
    /// Capture, and report with [`CaptureLoop::on_polled`] whether the frame changed.
    Poll { force: bool },
    /// Go on waiting.
    Wait,
    /// End the loop.
    Stop,
}

/// Two requests closer together than this are fast.
pub const FAST_REQUEST_NS: u64 = 100_000_000;

/// Fast requests in a row that it takes to start polling.
pub const FAST_REQUESTS_TO_POLL: u32 = 3;

/// Time without requests after which polling ends.
pub const IDLE_NS: u64 = 500_000_000;

/// Waiting time in on-demand mode.
pub const ON_DEMAND_TIMEOUT_MS: u64 = 100;

/// Time between two moments; zero if they come in the wrong order.
pub open spec fn since(now: u64, earlier: u64) -> int {
    if now >= earlier {
        now - earlier
    } else {
        0
    }
}

fn elapsed(now: u64, earlier: u64) -> (ns: u64)
    ensures
        ns == since(now, earlier),
{
    if now >= earlier {
        now - earlier
    } else {
        0
    }
}

/// State of the capture loop.
#[derive(Clone, Copy, Debug, PartialEq, Eq, Structural)]
pub struct CaptureLoop {
    pub mode: CaptureMode,
    pub poll_interval_ms: u64,
    pub last_request: Option<u64>,
    pub fast_request_count: u32,
    /// Polls in a row that found nothing new.
    pub idle_streak: u32,
}

impl CaptureLoop {
    /// The loop polls only after requests, at its own interval, which is at most a second.
    pub open spec fn wf(&self) -> bool {
        &&& self.poll_interval_ms <= 1000
        &&& self.mode matches CaptureMode::Polling { interval_ms } ==> {
            &&& interval_ms == self.poll_interval_ms
            &&& self.last_request is Some
        }
        &&& self.mode is OnDemand ==> self.idle_streak == 0 && self.fast_request_count
            < FAST_REQUESTS_TO_POLL
    }

    /// A loop that polls at most `fps` times a second, before anything has happened.
    pub open spec fn started(fps: u32) -> CaptureLoop {
        CaptureLoop {
            mode: CaptureMode::OnDemand,
            poll_interval_ms: (1000int / (if fps == 0 {
                1
            } else {
                fps as int
            })) as u64,
            last_request: None,
            fast_request_count: 0,
            idle_streak: 0,
        }
    }

    /// Starts a loop that polls at most `fps` times a second. Zero is taken as one.
    pub fn new(fps: u32) -> (state: Self)
        ensures
            state.wf(),
            state == CaptureLoop::started(fps),
    {
        let rate: u32 = if fps == 0 {
            1
        } else {
            fps
        };
        let poll_interval_ms: u64 = 1000 / rate as u64;
        proof {
            vstd::arithmetic::div_mod::lemma_div_is_ordered_by_denominator(1000, 1, rate as int);
        }
        CaptureLoop {
            mode: CaptureMode::OnDemand,
            poll_interval_ms,
            last_request: None,
            fast_request_count: 0,
            idle_streak: 0,
        }
    }

    /// How much longer than its interval the loop waits: twice as long after five polls that found
    /// nothing new, four times as long after ten.
    pub open spec fn backoff(&self) -> int {
        if self.idle_streak < 5 {
            1
        } else if self.idle_streak < 10 {
            2
        } else {
            4
        }
    }

    /// How long the loop waits for a request, in milliseconds.
    pub open spec fn waiting_ms(&self) -> int {
        match self.mode {
            CaptureMode::OnDemand => ON_DEMAND_TIMEOUT_MS as int,
            CaptureMode::Polling { interval_ms } => interval_ms * self.backoff(),
        }
    }

    /// How long to wait for a request, in milliseconds.
    pub fn timeout_ms(&self) -> (ms: u64)
        requires
            self.wf(),
        ensures
            ms == (match self.mode {
                CaptureMode::OnDemand => ON_DEMAND_TIMEOUT_MS as int,
                CaptureMode::Polling { interval_ms } => interval_ms * self.backoff(),
            }),
            ms == self.waiting_ms(),
    {
        match self.mode {
            CaptureMode::OnDemand => ON_DEMAND_TIMEOUT_MS,
            CaptureMode::Polling { interval_ms } => {
                let steps: u32 = self.idle_streak / 5;
                if steps == 0 {
                    interval_ms
                } else if steps == 1 {
                    interval_ms * 2
                } else {
                    interval_ms * 4
                }
            },
        }
    }

    /// Whether a request at `now` comes fast after the one before.
    pub open spec fn is_fast(&self, now: u64) -> bool {
        self.last_request matches Some(last) && since(now, last) < FAST_REQUEST_NS
    }

    /// The state after a request. The count of fast requests stops at the largest number it holds.
    pub open spec fn after_request(&self, now: u64) -> CaptureLoop {
        let count = if self.is_fast(now) {
            if self.fast_request_count < u32::MAX {
                self.fast_request_count + 1
            } else {
                u32::MAX as int
            }
        } else if self.last_request is Some {
            0
        } else {
            self.fast_request_count as int
        };
        CaptureLoop {
            mode: if self.is_fast(now) && count >= FAST_REQUESTS_TO_POLL {
                CaptureMode::Polling { interval_ms: self.poll_interval_ms }
            } else {
                self.mode
            },
            last_request: Some(now),
            fast_request_count: count as u32,
            ..*self
        }
    }

    /// Whether the time without requests is long enough to stop polling.
    pub open spec fn is_idle(&self, now: u64) -> bool {
        self.last_request matches Some(last) && since(now, last) > IDLE_NS
    }

    /// The state after an event.
    pub open spec fn after(&self, event: LoopEvent) -> CaptureLoop {
        match event {
            LoopEvent::Request { now } => self.after_request(now),
            LoopEvent::Timeout { now, shutdown } => if self.mode is Polling && self.is_idle(now) {
                CaptureLoop {
                    mode: CaptureMode::OnDemand,
                    fast_request_count: 0,
                    idle_streak: 0,
                    ..*self
                }
            } else {
                *self
            },
            LoopEvent::Disconnected => *self,
        }
    }

    /// What to do about an event.
    pub open spec fn action(&self, event: LoopEvent) -> LoopAction {
        match event {
            LoopEvent::Request { now } => if self.after_request(now).mode is OnDemand {
                LoopAction::DrainAndCapture { force: true }
            } else {
                LoopAction::Drain
            },
            LoopEvent::Timeout { now, shutdown } => if self.mode is OnDemand {
                if shutdown {
                    LoopAction::Stop
                } else {
                    LoopAction::Wait
                }
            } else if self.is_idle(now) {
                LoopAction::Wait
            } else {
                LoopAction::Poll { force: false }
            },
            LoopEvent::Disconnected => LoopAction::Stop,
        }
    }

    /// Takes in what happened while waiting, and decides what to do about it.
    ///
    /// In on-demand mode every request is answered by a forced capture. In polling mode the clock
    /// drives the captures, and requests are only noted, so that nothing is captured twice.
    pub fn on_event(&mut self, event: LoopEvent) -> (action: LoopAction)
        requires
            old(self).wf(),
        ensures
            action == old(self).action(event),
            *final(self) == old(self).after(event),
            final(self).wf(),
    {
        match event {
            LoopEvent::Request { now } => {
                if let Some(last) = self.last_request {
                    if elapsed(now, last) < FAST_REQUEST_NS {
                        self.fast_request_count = self.fast_request_count.saturating_add(1);
                        if self.fast_request_count >= FAST_REQUESTS_TO_POLL {
                            self.mode = CaptureMode::Polling { interval_ms: self.poll_interval_ms };
                        }
                    } else {
                        self.fast_request_count = 0;
                    }
                }
                self.last_request = Some(now);
                match self.mode {
                    CaptureMode::OnDemand => LoopAction::DrainAndCapture { force: true },
                    CaptureMode::Polling { .. } => LoopAction::Drain,
                }
            },
            LoopEvent::Timeout { now, shutdown } => match self.mode {
                CaptureMode::OnDemand => {
                    if shutdown {
                        LoopAction::Stop
                    } else {
                        LoopAction::Wait
                    }
                },
                CaptureMode::Polling { .. } => match self.last_request {
                    Some(last) => {
                        if elapsed(now, last) > IDLE_NS {
                            self.mode = CaptureMode::OnDemand;
                            self.fast_request_count = 0;
                            self.idle_streak = 0;
                            LoopAction::Wait
                        } else {
                            LoopAction::Poll { force: false }
                        }
                    },
                    None => LoopAction::Wait,
                },
            },
            LoopEvent::Disconnected => LoopAction::Stop,
        }
    }

    /// Takes in whether a poll found a new frame.
    pub fn on_polled(&mut self, changed: bool)
        requires
            old(self).wf(),
            old(self).mode is Polling,
        ensures
            *final(self) == old(self).after_poll(changed),
            final(self).wf(),
    {
        if changed {
            self.idle_streak = 0;
        } else {
            self.idle_streak = self.idle_streak.saturating_add(1);
        }
    }

    /// The state after a poll.
    pub open spec fn after_poll(&self, changed: bool) -> CaptureLoop {
        CaptureLoop {
            idle_streak: if changed {
                0
            } else if self.idle_streak < u32::MAX {
                (self.idle_streak + 1) as u32
            } else {
                u32::MAX
            },
            ..*self
        }
    }
}

/// What became of a capture.
#[derive(Clone, Copy, Debug, PartialEq, Eq, Structural)]
pub enum CaptureOutcome {
    /// There is a new frame.
    New,
    /// The screen has not changed.
    Unchanged,
    /// The capture failed.
    Failed,
}

/// What to do with the frame that was captured into.
#[derive(Debug)]
pub enum Delivery {
    /// Do the work of the video pipeline on the frame, from `work` on, if there is a pipeline; then
    /// publish the frame to the viewers, however that work ends.
    Publish { frame: VideoFrame, work: Option<PipelineStep> },
    /// Wake the viewers without a new frame, so that their requests are answered.
    Notify,
    /// Nothing.
    Keep,
}

/// The frame that the next capture writes to, kept so that its memory is used again.
#[derive(Debug)]
pub struct FrameSlot {
    pub reuse: Option<VideoFrame>,
}

impl FrameSlot {
    /// Creates an empty slot.
    pub fn new() -> (slot: Self)
        ensures
            slot.reuse is None,
    {
        FrameSlot { reuse: None }
    }

    /// Takes the frame to capture into out of the slot: the one that was kept, or an empty one.
    pub fn checkout(&mut self) -> (frame: VideoFrame)
        ensures
            final(self).reuse is None,
            match old(self).reuse {
                Some(kept) => frame == kept,
                None => frame matches VideoFrame::CpuBgra { width, height, stride, data } && width
                    == 0 && height == 0 && stride == 0 && data@.len() == 0,
            },
    {
        match self.reuse.take() {
            Some(kept) => kept,
            None => VideoFrame::new_cpu_bgra(0, 0, Vec::new()),
        }
    }

    /// Decides what to do with the frame after a capture at `now`. A new frame is given to the
    /// video pipeline once, if there is one, and is published; `force` is handed on as the demand
    /// for a keyframe. A frame that is not published goes back into the slot. Also returns whether
    /// the screen changed.
    pub fn do_capture(
        &mut self,
        frame: VideoFrame,
        outcome: CaptureOutcome,
        force: bool,
        pipeline: Option<&mut ExperimentalPipeline>,
        now: u64,
    ) -> (out: (Delivery, bool))
        requires
            old(self).reuse is None,
            pipeline is Some ==> (*pipeline->0).wf(),
        ensures
            out.1 == (outcome == CaptureOutcome::New),
            match outcome {
                CaptureOutcome::New => {
                    &&& out.0 matches Delivery::Publish { frame: published, work }
                    &&& published == frame
                    &&& work is Some <==> pipeline is Some
                    &&& pipeline is Some ==> (*pipeline->0).processes(
                        frame,
                        force,
                        now,
                        *final(pipeline->0),
                        work->0,
                    )
                    &&& final(self).reuse is None
                },
                CaptureOutcome::Unchanged => {
                    &&& out.0 == Delivery::Notify
                    &&& pipeline is Some ==> *final(pipeline->0) == *pipeline->0
                    &&& final(self).reuse == Some(frame)
                },
                CaptureOutcome::Failed => {
                    &&& out.0 == Delivery::Keep
                    &&& pipeline is Some ==> *final(pipeline->0) == *pipeline->0
                    &&& final(self).reuse == Some(frame)
                },
            },
            pipeline is Some ==> (*final(pipeline->0)).wf(),
    {
        match outcome {
            CaptureOutcome::New => {
                let work: Option<PipelineStep> = match pipeline {
                    Some(pipeline) => Some(pipeline.process(&frame, force, now)),
                    None => None,
                };
                (Delivery::Publish { frame, work }, true)
            },
            CaptureOutcome::Unchanged => {
                self.reuse = Some(frame);
                (Delivery::Notify, false)
            },
            CaptureOutcome::Failed => {
                self.reuse = Some(frame);
                (Delivery::Keep, false)
            },
        }
    }

    /// Keeps the frame that was published before, if no viewer holds it any more.
    pub fn recycle(&mut self, published_before: Option<VideoFrame>)
        ensures
            final(self).reuse == (match published_before {
                Some(frame) => Some(frame),
                None => old(self).reuse,
            }),
    {
        if let Some(frame) = published_before {
            self.reuse = Some(frame);
        }
    }
}

/// The state after each of the requests in turn.
pub open spec fn after_requests(state: CaptureLoop, times: Seq<u64>) -> CaptureLoop
    decreases times.len(),
{
    if times.len() == 0 {
        state
    } else {
        after_requests(state, times.drop_last()).after_request(times.last())
    }
}

/// The state after `n` polls that found nothing new.
pub open spec fn after_idle_polls(state: CaptureLoop, n: nat) -> CaptureLoop
    decreases n,
{
    if n == 0 {
        state
    } else {
        after_idle_polls(state, (n - 1) as nat).after_poll(false)
    }
}

/// Frequent requests start polling: after a request, three more that each come less than a tenth of
/// a second after the one before leave the loop polling at its interval. Fewer do not, in a loop
/// that has just started.
pub proof fn law_three_fast_requests_start_polling(
    state: CaptureLoop,
    t0: u64,
    t1: u64,
    t2: u64,
    t3: u64,
)
    requires
        state.wf(),
        state.mode is OnDemand,
        state.last_request is None,
        state.fast_request_count == 0,
        since(t1, t0) < 100_000_000,
        since(t2, t1) < 100_000_000,
        since(t3, t2) < 100_000_000,
    ensures
        after_requests(state, seq![t0]).mode is OnDemand,
        after_requests(state, seq![t0, t1]).mode is OnDemand,
        after_requests(state, seq![t0, t1, t2]).mode is OnDemand,
        after_requests(state, seq![t0, t1, t2, t3]).mode == (CaptureMode::Polling {
            interval_ms: state.poll_interval_ms,
        }),
{
    reveal_with_fuel(after_requests, 5);
    assert(seq![t0].drop_last() =~= Seq::<u64>::empty());
    assert(seq![t0, t1].drop_last() =~= seq![t0]);
    assert(seq![t0, t1, t2].drop_last() =~= seq![t0, t1]);
    assert(seq![t0, t1, t2, t3].drop_last() =~= seq![t0, t1, t2]);
}

/// A slow request starts the count over: a request that does not come fast after the one before
/// leaves no fast requests counted, and the mode as it was.
pub proof fn law_slow_request_starts_the_count_over(state: CaptureLoop, now: u64)
    requires
        state.last_request is Some,
        !state.is_fast(now),
    ensures
        state.after_request(now).fast_request_count == 0,
        state.after_request(now).mode == state.mode,
{
}

/// In on-demand mode every request that leaves the loop there is answered by a forced capture, and
/// in polling mode no request is answered by a capture of its own.
pub proof fn law_requests_are_captured_once(state: CaptureLoop, now: u64)
    requires
        state.wf(),
    ensures
        state.mode is Polling ==> state.action(LoopEvent::Request { now }) == LoopAction::Drain,
        state.action(LoopEvent::Request { now }) == (if state.after_request(now).mode is OnDemand {
            LoopAction::DrainAndCapture { force: true }
        } else {
            LoopAction::Drain
        }),
{
}

/// Polling backs off while nothing changes and never by more than four times: the waiting time
/// doubles with every five polls that find nothing new, up to four times the interval, and a change
/// brings it back to the interval.
pub proof fn law_idle_polling_backs_off(state: CaptureLoop, n: nat)
    requires
        state.wf(),
        state.mode is Polling,
        state.idle_streak == 0,
        n <= u32::MAX,
    ensures
        after_idle_polls(state, n).mode == state.mode,
        after_idle_polls(state, n).idle_streak == n,
        after_idle_polls(state, n).backoff() == (if n < 5 {
            1int
        } else if n < 10 {
            2
        } else {
            4
        }),
        after_idle_polls(state, n).after_poll(true).backoff() == 1,
    decreases n,
{
    if n > 0 {
        law_idle_polling_backs_off(state, (n - 1) as nat);
    }
}

/// Polling ends by itself: the first time that waiting runs out more than half a second after the
/// last request, the loop is back in on-demand mode with nothing counted, and captures nothing.
pub proof fn law_polling_ends_without_requests(
    state: CaptureLoop,
    last: u64,
    now: u64,
    shutdown: bool,
)
    requires
        state.wf(),
        state.mode is Polling,
        state.last_request == Some(last),
        now - last > 500_000_000,
    ensures
        state.after(LoopEvent::Timeout { now, shutdown }).mode is OnDemand,
        state.after(LoopEvent::Timeout { now, shutdown }).fast_request_count == 0,
        state.after(LoopEvent::Timeout { now, shutdown }).idle_streak == 0,
        state.action(LoopEvent::Timeout { now, shutdown }) == LoopAction::Wait,
{
}

/// One turn of the loop: what happened while waiting, and whether the frame changed if the loop
/// polls then.
pub struct Turn {
    pub event: LoopEvent,
    pub changed: bool,
}

/// The state after a turn.
pub open spec fn after_turn(state: CaptureLoop, turn: Turn) -> CaptureLoop {
    let next = state.after(turn.event);
    if state.action(turn.event) is Poll {
        next.after_poll(turn.changed)
    } else {
        next
    }
}

/// The state after each of the turns.
pub open spec fn after_turns(state: CaptureLoop, turns: Seq<Turn>) -> CaptureLoop
    decreases turns.len(),
{
    if turns.len() == 0 {
        state
    } else {
        after_turn(after_turns(state, turns.drop_last()), turns.last())
    }
}

/// When the requests among the turns came.
pub open spec fn request_times(turns: Seq<Turn>) -> Seq<u64>
    decreases turns.len(),
{
    if turns.len() == 0 {
        Seq::empty()
    } else {
        let earlier = request_times(turns.drop_last());
        match turns.last().event {
            LoopEvent::Request { now } => earlier.push(now),
            _ => earlier,
        }
    }
}

/// When the last of the turns was.
pub open spec fn latest(turns: Seq<Turn>) -> u64 {
    if turns.len() == 0 {
        0
    } else {
        match turns.last().event {
            LoopEvent::Request { now } => now,
            LoopEvent::Timeout { now, shutdown } => now,
            LoopEvent::Disconnected => 0,
        }
    }
}

/// Whether the turns come in the order of time, somebody can always ask, and every request but the
/// first comes fast after the one before. There may be timeouts anywhere in between.
pub open spec fn fast_turns(turns: Seq<Turn>) -> bool
    decreases turns.len(),
{
    turns.len() == 0 || {
        let earlier = turns.drop_last();
        &&& fast_turns(earlier)
        &&& latest(turns) >= latest(earlier)
        &&& match turns.last().event {
            LoopEvent::Request { now } => request_times(earlier).len() > 0 ==> now - request_times(
                earlier,
            ).last() < 100_000_000,
            LoopEvent::Timeout { now, shutdown } => true,
            LoopEvent::Disconnected => false,
        }
    }
}

/// Where a loop is after fast turns: it has counted all requests but the first, and polls once
/// three are counted, until the time without requests ends that for good.
proof fn lemma_after_fast_turns(fps: u32, turns: Seq<Turn>)
    requires
        fast_turns(turns),
    ensures
        ({
            let state = after_turns(CaptureLoop::started(fps), turns);
            let times = request_times(turns);
            &&& state.poll_interval_ms == CaptureLoop::started(fps).poll_interval_ms
            &&& state.last_request == (if times.len() == 0 {
                None
            } else {
                Some(times.last())
            })
            &&& times.len() > 0 ==> times.last() <= latest(turns)
            &&& times.len() == 0 ==> state.mode is OnDemand && state.fast_request_count == 0
            &&& 1 <= times.len() <= 3 ==> state.mode is OnDemand && state.fast_request_count
                == times.len() - 1
            &&& times.len() > 3 ==> if state.mode is Polling {
                state.fast_request_count >= FAST_REQUESTS_TO_POLL
            } else {
                latest(turns) - times.last() > 500_000_000
            }
        }),
    decreases turns.len(),
{
    if turns.len() > 0 {
        lemma_after_fast_turns(fps, turns.drop_last());
    }
}

/// Frequent requests are answered one by one until the loop polls. After any turns in which every
/// request but the first comes fast after the one before, and whatever timeouts there are between
/// them:
/// - a request is answered by a forced capture of its own exactly if it is one of the first three;
/// - waiting that runs out is answered by a capture, which is not forced, exactly if there have been
///   more than three requests and the last is at most half a second back;
/// - waiting that runs out later than that captures nothing and leaves the loop in on-demand mode.
pub proof fn law_fast_requests_lead_to_polling(fps: u32, turns: Seq<Turn>, turn: Turn)
    requires
        fast_turns(turns.push(turn)),
    ensures
        ({
            let state = after_turns(CaptureLoop::started(fps), turns);
            let times = request_times(turns);
            let action = state.action(turn.event);
            match turn.event {
                LoopEvent::Request { now } => action == (if times.len() < 3 {
                    LoopAction::DrainAndCapture { force: true }
                } else {
                    LoopAction::Drain
                }),
                LoopEvent::Timeout { now, shutdown } => if times.len() > 3 && now - times.last()
                    <= 500_000_000 {
                    action == (LoopAction::Poll { force: false })
                } else {
                    &&& action is Wait || action is Stop
                    &&& after_turn(state, turn).mode is OnDemand
                },
                LoopEvent::Disconnected => false,
            }
        }),
{
    assert(turns.push(turn).drop_last() =~= turns);
    lemma_after_fast_turns(fps, turns);
}

/// The polls in a row that found nothing new, as seen from outside, in a loop that polls: those since
/// the last poll that found a change, or since polling began. Requests in between do not count.
pub open spec fn idle_polls(fps: u32, turns: Seq<Turn>) -> int
    decreases turns.len(),
{
    if turns.len() == 0 {
        0
    } else {
        let earlier = turns.drop_last();
        let state = after_turns(CaptureLoop::started(fps), earlier);
        let last = turns.last();
        if state.action(last.event) is Poll {
            if last.changed {
                0
            } else {
                idle_polls(fps, earlier) + 1
            }
        } else if after_turns(CaptureLoop::started(fps), turns).mode is OnDemand {
            0
        } else {
            idle_polls(fps, earlier)
        }
    }
}

proof fn lemma_idle_streak(fps: u32, turns: Seq<Turn>)
    ensures
        ({
            let state = after_turns(CaptureLoop::started(fps), turns);
            let n = idle_polls(fps, turns);
            &&& n >= 0
            &&& state.idle_streak == (if n <= u32::MAX {
                n
            } else {
                u32::MAX as int
            })
            &&& state.mode is OnDemand ==> n == 0
            &&& state.mode matches CaptureMode::Polling { interval_ms } ==> interval_ms
                == CaptureLoop::started(fps).poll_interval_ms
            &&& state.poll_interval_ms == CaptureLoop::started(fps).poll_interval_ms
        }),
    decreases turns.len(),
{
    if turns.len() > 0 {
        lemma_idle_streak(fps, turns.drop_last());
    }
}

/// How long a polling loop waits depends on its polls alone: after any turns, requests among them, it
/// waits its interval if fewer than five polls in a row have found nothing new, twice as long if
/// fewer than ten have, and four times as long otherwise. A loop that does not poll waits a tenth of
/// a second.
pub proof fn law_waiting_depends_on_polls_alone(fps: u32, turns: Seq<Turn>)
    ensures
        ({
            let state = after_turns(CaptureLoop::started(fps), turns);
            let interval = CaptureLoop::started(fps).poll_interval_ms;
            let n = idle_polls(fps, turns);
            &&& state.mode is OnDemand ==> state.waiting_ms() == 100
            &&& state.mode is Polling && n < 5 ==> state.waiting_ms() == interval
            &&& state.mode is Polling && 5 <= n < 10 ==> state.waiting_ms() == 2 * interval
            &&& state.mode is Polling && 10 <= n ==> state.waiting_ms() == 4 * interval
        }),
{
    lemma_idle_streak(fps, turns);
}

/// The interval of a loop is the longest whole number of milliseconds of which `fps` fit in a second.
pub proof fn law_interval_follows_the_rate(fps: u32)
    requires
        fps > 0,
    ensures
        ({
            let interval = CaptureLoop::started(fps).poll_interval_ms;
            fps * interval <= 1000 < fps * (interval + 1)
        }),
{
    let rate = fps as int;
    let interval = 1000int / rate;
    vstd::arithmetic::div_mod::lemma_fundamental_div_mod(1000, rate);
    vstd::arithmetic::div_mod::lemma_div_is_ordered_by_denominator(1000, 1, rate);
    vstd::arithmetic::div_mod::lemma_div_pos_is_pos(1000, rate);
    assert(rate * (interval + 1) == rate * interval + rate) by (nonlinear_arith);
}

/// Requests do not slow polling down: whatever requests come while the loop polls, it goes on
/// polling, and waits as long as before. After a poll that found a change it waits exactly its
/// interval.
pub proof fn law_requests_do_not_slow_polling(state: CaptureLoop, times: Seq<u64>)
    requires
        state.wf(),
        state.mode is Polling,
    ensures
        after_requests(state, times).mode == state.mode,
        after_requests(state, times).waiting_ms() == state.waiting_ms(),
        after_requests(state.after_poll(true), times).waiting_ms() == state.poll_interval_ms,
{
    lemma_requests_keep_polling(state, times);
    lemma_requests_keep_polling(state.after_poll(true), times);
}

proof fn lemma_requests_keep_polling(state: CaptureLoop, times: Seq<u64>)
    requires
        state.wf(),
        state.mode is Polling,
    ensures
        after_requests(state, times).mode == state.mode,
        after_requests(state, times).idle_streak == state.idle_streak,
        after_requests(state, times).poll_interval_ms == state.poll_interval_ms,
    decreases times.len(),
{
    if times.len() > 0 {
        lemma_requests_keep_polling(state, times.drop_last());
    }
}

/// Whether the turns come in the order of time, somebody can always ask, and no request comes less
/// than a tenth of a second after the one before.
pub open spec fn slow_turns(turns: Seq<Turn>) -> bool
    decreases turns.len(),
{
    turns.len() == 0 || {
        let earlier = turns.drop_last();
        &&& slow_turns(earlier)
        &&& latest(turns) >= latest(earlier)
        &&& match turns.last().event {
            LoopEvent::Request { now } => request_times(earlier).len() > 0 ==> now - request_times(
                earlier,
            ).last() >= 100_000_000,
            LoopEvent::Timeout { now, shutdown } => true,
            LoopEvent::Disconnected => false,
        }
    }
}

proof fn lemma_after_slow_turns(fps: u32, turns: Seq<Turn>)
    requires
        slow_turns(turns),
    ensures
        ({
            let state = after_turns(CaptureLoop::started(fps), turns);
            let times = request_times(turns);
            &&& state.mode is OnDemand && state.fast_request_count == 0
            &&& state.last_request == (if times.len() == 0 {
                None
            } else {
                Some(times.last())
            })
        }),
    decreases turns.len(),
{
    if turns.len() > 0 {
        lemma_after_slow_turns(fps, turns.drop_last());
    }
}

/// Rare requests are answered one by one: as long as no request comes less than a tenth of a second
/// after the one before, every request is answered by a forced capture of its own, and nothing is
/// captured without a request.
pub proof fn law_slow_requests_are_captured_one_by_one(fps: u32, turns: Seq<Turn>, turn: Turn)
    requires
        slow_turns(turns.push(turn)),
    ensures
        ({
            let action = after_turns(CaptureLoop::started(fps), turns).action(turn.event);
            match turn.event {
                LoopEvent::Request { now } => action == (LoopAction::DrainAndCapture {
                    force: true,
                }),
                LoopEvent::Timeout { now, shutdown } => action == (if shutdown {
                    LoopAction::Stop
                } else {
                    LoopAction::Wait
                }),
                LoopEvent::Disconnected => false,
            }
        }),
{
    assert(turns.push(turn).drop_last() =~= turns);
    lemma_after_slow_turns(fps, turns);
}

/// The loop stops if nobody can ask any more, or if it is told to while it waits without polling, and
/// at no other time. A loop that polls stops polling half a second after the last request, so it
/// stops at the latest when waiting runs out again after that.
pub proof fn law_loop_stops_when_told(state: CaptureLoop, event: LoopEvent, now: u64, then: u64)
    requires
        state.wf(),
    ensures
        state.action(event) is Stop <==> (event is Disconnected || (state.mode is OnDemand && (
        event matches LoopEvent::Timeout { now, shutdown } && shutdown))),
        (state.mode is Polling && (state.last_request matches Some(last) && now - last
            > 500_000_000)) ==> state.after(LoopEvent::Timeout { now, shutdown: true }).action(
            LoopEvent::Timeout { now: then, shutdown: true },
        ) is Stop,
{
}

} // verus!
