use cview::capture::{
    BinningMode, CaptureMode, CaptureRun, CaptureSettingBuilder, FullWellMode, ModeAction,
    SequenceCapture, StreamCapture,
};

/// Drives a run against a mock detector that always has a frame ready; cancels once
/// `cancel_after` frames were delivered. Returns frames delivered and how often the detector
/// was released.
fn drive(mode: CaptureMode, cancel_after: Option<u64>, elapsed_ms: u64) -> (u64, u32) {
    let mut run = CaptureRun::new(mode);
    let mut unlive = 0u32;
    loop {
        let cancelled = match cancel_after {
            Some(n) => run.frames_delivered() >= n,
            None => false,
        };
        match run.next_action(cancelled, elapsed_ms) {
            ModeAction::ReadBuffer(i) => {
                assert_eq!(i as u64, run.frames_delivered());
                run.frame_delivered();
            }
            ModeAction::PollFrame => run.frame_delivered(),
            ModeAction::GoUnlive => unlive += 1,
            ModeAction::Finished => break,
        }
    }
    assert_eq!(run.unlive_calls(), 1);
    (run.frames_delivered(), unlive)
}

#[test]
fn sequence_of_one_frame() {
    let mut run = CaptureRun::new(CaptureMode::Sequence(SequenceCapture { num_frames: 1 }));
    assert_eq!(run.next_action(false, 0), ModeAction::ReadBuffer(0));
    run.frame_delivered();
    assert_eq!(run.next_action(false, 0), ModeAction::GoUnlive);
    assert_eq!(run.next_action(false, 0), ModeAction::Finished);
    assert_eq!(run.next_action(true, 0), ModeAction::Finished);
    assert_eq!(run.frames_delivered(), 1);
    assert_eq!(run.unlive_calls(), 1);
}

#[test]
fn sequence_delivers_every_frame_in_order() {
    let (frames, unlive) = drive(CaptureMode::Sequence(SequenceCapture { num_frames: 10 }), None, 0);
    assert_eq!(frames, 10);
    assert_eq!(unlive, 1);
}

#[test]
fn stream_of_zero_duration_has_no_frames() {
    let mut run = CaptureRun::new(CaptureMode::Stream(StreamCapture { duration_ms: Some(0) }));
    assert_eq!(run.next_action(false, 0), ModeAction::GoUnlive);
    assert_eq!(run.next_action(false, 0), ModeAction::Finished);
    assert_eq!(run.frames_delivered(), 0);
    assert_eq!(run.unlive_calls(), 1);
}

#[test]
fn stream_runs_until_its_time_is_up() {
    let mut run = CaptureRun::new(CaptureMode::Stream(StreamCapture { duration_ms: Some(5) }));
    assert_eq!(run.next_action(false, 4), ModeAction::PollFrame);
    run.frame_delivered();
    assert_eq!(run.next_action(false, 5), ModeAction::GoUnlive);
    assert_eq!(run.next_action(false, 9), ModeAction::Finished);
}

#[test]
fn open_stream_stops_only_when_cancelled() {
    let (frames, unlive) = drive(CaptureMode::Stream(StreamCapture { duration_ms: None }), Some(7), 1_000_000);
    assert_eq!(frames, 7);
    assert_eq!(unlive, 1);
}

#[test]
fn stop_during_third_frame_of_ten() {
    let mut run = CaptureRun::new(CaptureMode::Sequence(SequenceCapture { num_frames: 10 }));
    for i in 0..2u32 {
        assert_eq!(run.next_action(false, 0), ModeAction::ReadBuffer(i));
        run.frame_delivered();
    }
    assert_eq!(run.next_action(false, 0), ModeAction::ReadBuffer(2));
    // the stop arrives while frame 3 is read: it is handed on, then the run stops
    run.frame_delivered();
    assert_eq!(run.next_action(true, 0), ModeAction::GoUnlive);
    assert_eq!(run.next_action(true, 0), ModeAction::Finished);
    assert_eq!(run.frames_delivered(), 3);
    assert_eq!(run.unlive_calls(), 1);
}

#[test]
fn cancelled_before_first_frame_still_releases() {
    let (frames, unlive) = drive(CaptureMode::Sequence(SequenceCapture { num_frames: 4 }), Some(0), 0);
    assert_eq!(frames, 0);
    assert_eq!(unlive, 1);
}

#[test]
fn builder_defaults_and_overrides() {
    let s = CaptureSettingBuilder::new(100, CaptureMode::Sequence(SequenceCapture { num_frames: 3 })).build();
    assert_eq!(s.exp_time, 100);
    assert!(s.corrected);
    assert!(!s.dds);
    assert_eq!(s.full_well, FullWellMode::High);
    assert_eq!(s.binning_mode, BinningMode::X11);
    assert!(s.roi.is_none());
    let s = CaptureSettingBuilder::new(50, CaptureMode::Stream(StreamCapture { duration_ms: None }))
        .corrected(false)
        .dds(true)
        .full_well(FullWellMode::Low)
        .binning_mode(BinningMode::X44)
        .build();
    assert!(!s.corrected);
    assert!(s.dds);
    assert_eq!(s.full_well, FullWellMode::Low);
    assert_eq!(s.binning_mode, BinningMode::X44);
    assert_eq!(s.capture_mode, CaptureMode::Stream(StreamCapture { duration_ms: None }));
}
