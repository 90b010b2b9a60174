use kmsvnc::capture_loop::{
    CaptureLoop, CaptureMode, CaptureOutcome, Delivery, FrameSlot, LoopAction, LoopEvent,
};
use kmsvnc::config::{Config, VideoEncoderMode};
use kmsvnc::pipeline::setup_pipeline;
use kmsvnc::pipeline_steps::PipelineStep;
use kmsvnc::video::VideoFrame;

const MS: u64 = 1_000_000;

fn polling() -> CaptureLoop {
    let mut state = CaptureLoop::new(30);
    for i in 0..4u64 {
        state.on_event(LoopEvent::Request { now: i * 10 * MS });
    }
    assert_eq!(state.mode, CaptureMode::Polling { interval_ms: 33 });
    state
}

#[test]
fn interval_follows_the_rate() {
    assert_eq!(CaptureLoop::new(30).poll_interval_ms, 33);
    assert_eq!(CaptureLoop::new(0).poll_interval_ms, 1000);
    assert_eq!(CaptureLoop::new(2000).poll_interval_ms, 0);
}

#[test]
fn on_demand_requests_force_a_capture() {
    let mut state = CaptureLoop::new(30);
    assert_eq!(state.timeout_ms(), 100);
    for now in [0, 200 * MS, 400 * MS, 600 * MS, 800 * MS] {
        assert_eq!(
            state.on_event(LoopEvent::Request { now }),
            LoopAction::DrainAndCapture { force: true }
        );
    }
    assert_eq!(state.mode, CaptureMode::OnDemand);
}

#[test]
fn third_fast_request_starts_polling() {
    let mut state = CaptureLoop::new(30);
    let forced = LoopAction::DrainAndCapture { force: true };
    assert_eq!(state.on_event(LoopEvent::Request { now: 0 }), forced);
    assert_eq!(state.on_event(LoopEvent::Request { now: 99 * MS }), forced);
    assert_eq!(state.on_event(LoopEvent::Request { now: 198 * MS }), forced);
    assert_eq!(state.on_event(LoopEvent::Request { now: 297 * MS }), LoopAction::Drain);
    assert_eq!(state.mode, CaptureMode::Polling { interval_ms: 33 });
}

#[test]
fn slow_request_starts_the_count_over() {
    let mut state = CaptureLoop::new(30);
    for now in [0, 50, 100, 200, 250, 300] {
        state.on_event(LoopEvent::Request { now: now * MS });
    }
    assert_eq!(state.mode, CaptureMode::OnDemand);
    assert_eq!(state.fast_request_count, 2);
}

#[test]
fn polling_is_driven_by_the_clock() {
    let mut state = polling();
    assert_eq!(state.on_event(LoopEvent::Request { now: 40 * MS }), LoopAction::Drain);
    assert_eq!(
        state.on_event(LoopEvent::Timeout { now: 73 * MS, shutdown: true }),
        LoopAction::Poll { force: false }
    );
}

#[test]
fn idle_polls_back_off() {
    let mut state = polling();
    let mut waits = Vec::new();
    for _ in 0..16 {
        waits.push(state.timeout_ms());
        state.on_polled(false);
    }
    assert_eq!(waits[..5], [33; 5]);
    assert_eq!(waits[5..10], [66; 5]);
    assert_eq!(waits[10..], [132; 6]);
    state.on_polled(true);
    assert_eq!(state.timeout_ms(), 33);
}

#[test]
fn idle_streak_saturates() {
    let mut state = polling();
    state.idle_streak = u32::MAX;
    state.on_polled(false);
    assert_eq!(state.idle_streak, u32::MAX);
    assert_eq!(state.timeout_ms(), 132);
}

#[test]
fn polling_ends_half_a_second_after_the_last_request() {
    let mut state = polling();
    state.on_polled(false);
    assert_eq!(
        state.on_event(LoopEvent::Timeout { now: 530 * MS, shutdown: false }),
        LoopAction::Poll { force: false }
    );
    assert_eq!(
        state.on_event(LoopEvent::Timeout { now: 530 * MS + 1, shutdown: false }),
        LoopAction::Wait
    );
    assert_eq!(state.mode, CaptureMode::OnDemand);
    assert_eq!((state.fast_request_count, state.idle_streak), (0, 0));
}

#[test]
fn loop_stops_on_shutdown_or_disconnect() {
    let mut state = CaptureLoop::new(30);
    assert_eq!(
        state.on_event(LoopEvent::Timeout { now: 0, shutdown: false }),
        LoopAction::Wait
    );
    assert_eq!(
        state.on_event(LoopEvent::Timeout { now: 0, shutdown: true }),
        LoopAction::Stop
    );
    assert_eq!(polling().on_event(LoopEvent::Disconnected), LoopAction::Stop);
}

#[test]
fn new_frame_is_published_and_the_old_one_recycled() {
    let mut slot = FrameSlot::new();
    let mut frame = slot.checkout();
    frame.cpu_bgra_mut(1, 1).extend_from_slice(&[1, 2, 3, 4]);
    let (delivery, changed) = slot.do_capture(frame, CaptureOutcome::New, true, None, 0);
    assert!(changed);
    match delivery {
        Delivery::Publish { frame, work: None } => {
            assert_eq!(frame.validate_cpu_bgra(1, 1), Ok(()));
        }
        other => panic!("{other:?}"),
    }
    slot.recycle(None);
    assert!(slot.reuse.is_none());
    slot.recycle(Some(VideoFrame::new_cpu_bgra(2, 1, vec![0; 8])));
    assert_eq!(slot.checkout().validate_cpu_bgra(2, 1), Ok(()));
}

#[test]
fn new_frame_is_given_to_the_pipeline_with_the_flag() {
    let mut config = Config::default();
    config.video_encoder = VideoEncoderMode::Software;
    let mut pipeline = setup_pipeline(&config).unwrap();
    for force in [true, false] {
        let mut slot = FrameSlot::new();
        let frame = VideoFrame::new_cpu_bgra(1, 1, vec![1, 2, 3, 4]);
        let (delivery, _) =
            slot.do_capture(frame, CaptureOutcome::New, force, Some(&mut pipeline), 5);
        match delivery {
            Delivery::Publish { frame, work: Some(PipelineStep::Encode { frame: copy }) } => {
                assert_eq!(frame.as_bgra().unwrap().3, &[1, 2, 3, 4]);
                assert_eq!(copy.as_bgra().unwrap().3, &[1, 2, 3, 4]);
            }
            other => panic!("{other:?}"),
        }
        assert_eq!((pipeline.force_keyframe, pipeline.limiter.pending), (force, Some(5)));
    }
}

#[test]
fn unpublished_frame_is_kept() {
    let mut config = Config::default();
    config.video_encoder = VideoEncoderMode::Software;
    let mut pipeline = setup_pipeline(&config).unwrap();
    let mut slot = FrameSlot::new();
    let frame = VideoFrame::new_cpu_bgra(1, 1, vec![9; 4]);
    let (delivery, changed) =
        slot.do_capture(frame, CaptureOutcome::Unchanged, true, Some(&mut pipeline), 5);
    assert!(matches!(delivery, Delivery::Notify));
    assert!(!changed);
    let frame = slot.checkout();
    let (delivery, changed) =
        slot.do_capture(frame, CaptureOutcome::Failed, true, Some(&mut pipeline), 5);
    assert!(matches!(delivery, Delivery::Keep));
    assert!(!changed);
    assert_eq!(slot.checkout().as_bgra().unwrap().3, &[9; 4]);
    // The pipeline was not given anything.
    assert_eq!((pipeline.force_keyframe, pipeline.limiter.pending), (false, None));
}

#[test]
fn fast_requests_are_captured_until_the_loop_polls() {
    let mut state = CaptureLoop::new(30);
    let mut captures = Vec::new();
    for i in 0..20u64 {
        let now = i * 90 * MS;
        match state.on_event(LoopEvent::Request { now }) {
            LoopAction::DrainAndCapture { force: true } => captures.push(i),
            LoopAction::Drain => {}
            other => panic!("{other:?}"),
        }
        let action = state.on_event(LoopEvent::Timeout { now: now + 40 * MS, shutdown: false });
        if i < 3 {
            assert_eq!(action, LoopAction::Wait);
        } else {
            assert_eq!(action, LoopAction::Poll { force: false });
            state.on_polled(i % 2 == 0);
        }
    }
    assert_eq!(captures, vec![0, 1, 2]);
    let last = 19 * 90 * MS;
    let late = LoopEvent::Timeout { now: last + 501 * MS, shutdown: false };
    assert_eq!(state.on_event(late), LoopAction::Wait);
    assert_eq!(state.mode, CaptureMode::OnDemand);
}

#[test]
fn request_count_saturates() {
    let mut state = polling();
    state.fast_request_count = u32::MAX;
    assert_eq!(state.on_event(LoopEvent::Request { now: 35 * MS }), LoopAction::Drain);
    assert_eq!(state.fast_request_count, u32::MAX);
}
