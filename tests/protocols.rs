use cview::capture::{CaptureMode, CaptureRun, FullWellMode, ModeAction, SequenceCapture, StreamCapture};
use cview::image::{average_frames, RawImage};
use cview::protocols::{
    AdvancedCapture, CaptureProgress, DarkMapCapture, DefectMapCapture, LiveCapture, MultiCapture,
    SignalAccumulationCapture, SignalAccumulator, SmartCapture, SmartSelection,
};
use cview::stats::{snr, Snr};

/// Runs one stage against a mock detector whose frame `i` is `frame(i)`.
fn run_stage(mode: CaptureMode, frame: &dyn Fn(u64) -> RawImage) -> Vec<RawImage> {
    let mut run = CaptureRun::new(mode);
    let mut out = Vec::new();
    loop {
        match run.next_action(false, 0) {
            ModeAction::ReadBuffer(i) => {
                out.push(frame(i as u64));
                run.frame_delivered();
            }
            ModeAction::PollFrame => unreachable!(),
            ModeAction::GoUnlive => {}
            ModeAction::Finished => break,
        }
    }
    out
}

fn patch_image(background: u16, patch: u16) -> RawImage {
    let mut img = RawImage::filled(32, 32, background);
    for y in 8..24u32 {
        for x in 8..24u32 {
            img.pixels[(y * 32 + x) as usize] = patch;
        }
    }
    img
}

#[test]
fn multi_capture_two_exposures_three_frames() {
    let capture = AdvancedCapture::MultiCapture(MultiCapture { exp_times: vec![100, 200], frames_per_capture: 3 });
    let stages = capture.stages();
    assert_eq!(stages.len(), 2);
    let mut progress = CaptureProgress::new(2, "Starting Multi Capture".to_string());
    let mut progress_events = 0;
    let mut images = 0;
    let mut result = Vec::new();
    for stage in &stages {
        assert!(stage.corrected);
        let p = progress.update(format!("Capturing images for exposure time {}ms", stage.exp_time));
        assert_eq!(p.current_step(), progress_events + 1);
        progress_events += 1;
        for f in run_stage(stage.capture_mode, &|_| RawImage::filled(4, 4, 1000)) {
            images += 1;
            result.push(f);
        }
    }
    assert_eq!(progress_events, 2);
    assert_eq!(images, 6);
    assert_eq!(result.len(), 6);
    assert_eq!(progress.total_steps(), 2);
    assert_eq!(progress.message(), "Capturing images for exposure time 200ms");
}

#[test]
fn smart_capture_picks_the_higher_contrast_exposure() {
    let smart = SmartCapture { exp_times: vec![100, 200], frames_per_capture: 2, window_size: 16, median_filtered: false };
    let capture = AdvancedCapture::SmartCapture(smart.clone());
    let mut selection = SmartSelection::new();
    let mut emitted = Vec::new();
    for stage in capture.stages() {
        let (bg, fg) = if stage.exp_time == 100 { (400, 500) } else { (400, 800) };
        for f in run_stage(stage.capture_mode, &|_| patch_image(bg, fg)) {
            let r = snr(&f, smart.window_size).unwrap();
            selection.offer(r.signal_noise_ratio);
            emitted.push((stage.exp_time, r.signal_noise_ratio));
        }
    }
    assert_eq!(emitted.len(), 4);
    let best = selection.best_index().unwrap();
    assert_eq!(best, 2);
    assert_eq!(emitted[best].0, 200);
    for (exp, s) in &emitted {
        if *exp == 100 {
            assert!(emitted[best].1.greater_than(s));
        }
    }
}

#[test]
fn smart_selection_keeps_first_of_equals_and_is_empty_without_frames() {
    let mut sel = SmartSelection::new();
    assert_eq!(sel.best_index(), None);
    assert!(sel.offer(Snr { num: 0, den: 5 }));
    assert!(sel.offer(Snr { num: 3, den: 1 }));
    assert!(!sel.offer(Snr { num: 6, den: 2 }));
    assert!(!sel.offer(Snr { num: 1, den: 1 }));
    assert_eq!(sel.best_index(), Some(1));
}

#[test]
fn signal_accumulation_of_constant_frames() {
    let capture = AdvancedCapture::SignalAccumulationCapture(SignalAccumulationCapture { exp_times: vec![50, 50], frames_per_capture: 2 });
    let stages = capture.stages();
    let mut acc = SignalAccumulator::new(stages[0].exp_time);
    let mut emitted = Vec::new();
    for (s, stage) in stages.iter().enumerate() {
        if s > 0 {
            acc.start_stage(stage.exp_time);
        }
        for f in run_stage(stage.capture_mode, &|_| RawImage::filled(3, 2, 1000)) {
            emitted.push(acc.add_frame(f));
        }
    }
    let values: Vec<u16> = emitted.iter().map(|(img, _)| img.pixels[0]).collect();
    assert_eq!(values, vec![1000, 2000, 3000, 4000]);
    for (img, _) in &emitted {
        assert!(img.pixels.iter().all(|p| *p == img.pixels[0]));
    }
    let exps: Vec<u32> = emitted.iter().map(|(_, e)| *e).collect();
    assert_eq!(exps, vec![50, 100, 50, 100]);
    assert_eq!(emitted.len(), 4);
}

#[test]
fn signal_accumulation_saturates_at_fourteen_bits() {
    let mut acc = SignalAccumulator::new(10);
    let (a, e1) = acc.add_frame(RawImage::filled(2, 2, 9000));
    assert_eq!(a.pixels, vec![9000; 4]);
    let (b, e2) = acc.add_frame(RawImage::filled(2, 2, 9000));
    assert_eq!(b.pixels, vec![16383; 4]);
    let (c, e3) = acc.add_frame(RawImage::filled(2, 2, 1));
    assert_eq!(c.pixels, vec![16383; 4]);
    assert_eq!((e1, e2, e3), (10, 20, 30));
}

#[test]
fn dark_map_capture_averages_four_frames() {
    let capture = AdvancedCapture::DarkMapCapture(DarkMapCapture { exp_times: vec![100], frames_per_capture: 4 });
    let stages = capture.stages();
    assert_eq!(stages.len(), 1);
    assert!(!stages[0].corrected);
    let frames = run_stage(stages[0].capture_mode, &|i| RawImage::filled(5, 3, 1000 + 2 * i as u16));
    assert_eq!(frames.len(), 4);
    let avg = average_frames(&frames);
    assert_eq!(avg.width, 5);
    assert_eq!(avg.height, 3);
    assert!(avg.pixels.iter().all(|p| *p == 1003));
}

#[test]
fn defect_map_capture_plans_both_full_well_modes() {
    let capture = AdvancedCapture::DefectMapCapture(DefectMapCapture { exp_times: vec![100, 300], frames_per_capture: 5 });
    let stages = capture.stages();
    let plan: Vec<(u32, FullWellMode, bool)> = stages.iter().map(|s| (s.exp_time, s.full_well, s.corrected)).collect();
    assert_eq!(
        plan,
        vec![
            (100, FullWellMode::High, false),
            (100, FullWellMode::Low, false),
            (300, FullWellMode::High, false),
            (300, FullWellMode::Low, false),
        ]
    );
    assert_eq!(stages[3].capture_mode, CaptureMode::Sequence(SequenceCapture { num_frames: 5 }));
}

#[test]
fn live_capture_is_one_open_stream() {
    let capture = AdvancedCapture::LiveCapture(LiveCapture { exp_time: 40 });
    let stages = capture.stages();
    assert_eq!(stages.len(), 1);
    assert_eq!(stages[0].exp_time, 40);
    assert!(stages[0].corrected);
    assert_eq!(stages[0].capture_mode, CaptureMode::Stream(StreamCapture { duration_ms: None }));
}

#[test]
fn progress_counts_steps() {
    let mut p = CaptureProgress::new(3, "start".to_string());
    assert_eq!(p.current_step(), 0);
    let q = p.update("one".to_string());
    assert_eq!(q.current_step(), 1);
    assert_eq!(q.message(), "one");
    assert_eq!(p.current_step(), 1);
    assert_eq!(p.total_steps(), 3);
}

#[test]
fn protocol_copy_keeps_parameters() {
    let c = AdvancedCapture::SmartCapture(SmartCapture { exp_times: vec![1, 2], frames_per_capture: 3, window_size: 4, median_filtered: true });
    assert_eq!(c.copy(), c);
}
