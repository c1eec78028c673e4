use cview::capture::{CaptureMode, CaptureRun, FullWellMode, ModeAction};
use cview::image::RawImage;
use cview::protocols::{
    AdvancedCapture, CaptureResultData, CaptureStreamItem, DarkMapCapture, DefectMapCapture,
    LiveCapture, MultiCapture, SignalAccumulationCapture, SmartCapture,
};
use cview::session::{CaptureSession, StageAverage};

/// Runs a whole protocol against a mock detector: `frame(stage, i)` is frame `i` of a stage.
/// Returns every item delivered, in order, and the averages of calibration stages.
fn run(capture: AdvancedCapture, frame: &dyn Fn(usize, u64) -> RawImage) -> (Vec<CaptureStreamItem>, Vec<StageAverage>) {
    let mut session = CaptureSession::new(capture);
    let mut items = Vec::new();
    let mut averages = Vec::new();
    while let Some((stage, progress)) = session.start_stage(format!("stage {}", 0)) {
        if let Some(p) = progress {
            items.push(CaptureStreamItem::Progress(p));
        }
        let mode = session.stage_setting(stage).capture_mode;
        let mut run = CaptureRun::new(mode);
        loop {
            match run.next_action(false, 0) {
                ModeAction::ReadBuffer(i) => {
                    let f = frame(stage, i as u64);
                    assert!(session.can_accept(&f));
                    if let Some(item) = session.on_frame(f, None) {
                        items.push(item);
                    }
                    run.frame_delivered();
                }
                ModeAction::PollFrame => unreachable!(),
                ModeAction::GoUnlive => {}
                ModeAction::Finished => break,
            }
        }
        if let Some(avg) = session.finish_stage() {
            averages.push(avg);
        }
    }
    if let Some(result) = session.finish() {
        items.push(result);
    }
    (items, averages)
}

fn count(items: &[CaptureStreamItem]) -> (usize, usize, Vec<usize>) {
    let mut progress = 0;
    let mut images = 0;
    let mut results = Vec::new();
    for it in items {
        match it {
            CaptureStreamItem::Progress(_) => progress += 1,
            CaptureStreamItem::Image(_) => images += 1,
            CaptureStreamItem::CaptureResult(v) => results.push(v.len()),
        }
    }
    (progress, images, results)
}

fn patch_image(background: u16, patch: u16) -> RawImage {
    let mut img = RawImage::filled(32, 32, background);
    for y in 8..24u32 {
        for x in 8..24u32 {
            img.pixels[(y * 32 + x) as usize] = patch;
        }
    }
    img
}

#[test]
fn multi_capture_session() {
    let capture = AdvancedCapture::MultiCapture(MultiCapture { exp_times: vec![100, 200], frames_per_capture: 3 });
    let (items, averages) = run(capture, &|_, _| RawImage::filled(4, 4, 1000));
    assert_eq!(count(&items), (2, 6, vec![6]));
    assert!(averages.is_empty());
    let exps: Vec<u32> = items
        .iter()
        .filter_map(|it| match it {
            CaptureStreamItem::Image(ci) => Some(ci.metadata.capture_settings.as_ref().unwrap().exp_time),
            _ => None,
        })
        .collect();
    assert_eq!(exps, vec![100, 100, 100, 200, 200, 200]);
}

#[test]
fn smart_capture_session_keeps_the_best_frame() {
    let capture = AdvancedCapture::SmartCapture(SmartCapture { exp_times: vec![100, 200], frames_per_capture: 2, window_size: 16, median_filtered: false });
    let (items, _) = run(capture, &|stage, _| if stage == 0 { patch_image(400, 500) } else { patch_image(400, 800) });
    assert_eq!(count(&items), (2, 4, vec![1]));
    let best = match items.last().unwrap() {
        CaptureStreamItem::CaptureResult(v) => v[0].clone(),
        _ => panic!("no result"),
    };
    assert_eq!(best.metadata.capture_settings.as_ref().unwrap().exp_time, 200);
    let best_snr = match best.metadata.extra_info {
        Some(CaptureResultData::SmartCaptureData(d)) => d.signal_noise_ratio,
        _ => panic!("no report"),
    };
    for it in &items {
        if let CaptureStreamItem::Image(ci) = it {
            if let Some(CaptureResultData::SmartCaptureData(d)) = ci.metadata.extra_info {
                assert!(!d.signal_noise_ratio.greater_than(&best_snr));
                if ci.metadata.capture_settings.as_ref().unwrap().exp_time == 100 {
                    assert!(best_snr.greater_than(&d.signal_noise_ratio));
                }
            }
        }
    }
}

#[test]
fn smart_capture_session_without_frames_has_empty_result() {
    let capture = AdvancedCapture::SmartCapture(SmartCapture { exp_times: vec![], frames_per_capture: 2, window_size: 4, median_filtered: true });
    let (items, _) = run(capture, &|_, _| RawImage::filled(8, 8, 0));
    assert_eq!(count(&items), (0, 0, vec![0]));
}

#[test]
fn signal_accumulation_session() {
    let capture = AdvancedCapture::SignalAccumulationCapture(SignalAccumulationCapture { exp_times: vec![50, 50], frames_per_capture: 2 });
    let (items, _) = run(capture, &|_, _| RawImage::filled(3, 3, 1000));
    assert_eq!(count(&items), (2, 4, vec![4]));
    let mut values = Vec::new();
    let mut exps = Vec::new();
    for it in &items {
        if let CaptureStreamItem::Image(ci) = it {
            values.push(ci.image.pixels[4]);
            match ci.metadata.extra_info {
                Some(CaptureResultData::SignalAccumulationData(d)) => exps.push(d.accumulated_exp_time),
                _ => panic!("no accumulated exposure"),
            }
        }
    }
    assert_eq!(values, vec![1000, 2000, 3000, 4000]);
    assert_eq!(exps, vec![50, 100, 50, 100]);
    if let CaptureStreamItem::CaptureResult(v) = items.last().unwrap() {
        let last: Vec<u16> = v.iter().map(|ci| ci.image.pixels[0]).collect();
        assert_eq!(last, vec![1000, 2000, 3000, 4000]);
    }
}

#[test]
fn dark_map_session_averages_each_stage() {
    let capture = AdvancedCapture::DarkMapCapture(DarkMapCapture { exp_times: vec![100], frames_per_capture: 4 });
    let (items, averages) = run(capture, &|_, i| RawImage::filled(6, 2, 1000 + 2 * i as u16));
    assert_eq!(count(&items), (1, 0, vec![]));
    assert_eq!(averages.len(), 1);
    assert_eq!(averages[0].exp_time, 100);
    assert!(averages[0].image.pixels.iter().all(|p| *p == 1003));
}

#[test]
fn defect_map_session_averages_both_full_wells() {
    let capture = AdvancedCapture::DefectMapCapture(DefectMapCapture { exp_times: vec![100], frames_per_capture: 2 });
    let (_, averages) = run(capture, &|stage, _| RawImage::filled(2, 2, 10 + stage as u16));
    let got: Vec<(u32, FullWellMode, u16)> = averages.iter().map(|a| (a.exp_time, a.full_well, a.image.pixels[0])).collect();
    assert_eq!(got, vec![(100, FullWellMode::High, 10), (100, FullWellMode::Low, 11)]);
}

#[test]
fn live_session_delivers_frames_and_no_result() {
    let mut session = CaptureSession::new(AdvancedCapture::LiveCapture(LiveCapture { exp_time: 33 }));
    let (stage, progress) = session.start_stage("live".to_string()).unwrap();
    assert!(progress.is_none());
    assert_eq!(session.stage_setting(stage).capture_mode, CaptureMode::Stream(cview::capture::StreamCapture { duration_ms: None }));
    for v in [1u16, 2, 3] {
        match session.on_frame(RawImage::filled(2, 2, v), Some(7)) {
            Some(CaptureStreamItem::Image(ci)) => {
                assert_eq!(ci.image.pixels, vec![v; 4]);
                assert_eq!(ci.metadata.date_created, Some(7));
            }
            _ => panic!("no image"),
        }
    }
    assert!(session.finish_stage().is_none());
    assert!(session.start_stage(String::new()).is_none());
    assert!(session.finish().is_none());
}

#[test]
fn session_refuses_mismatched_frames() {
    let mut session = CaptureSession::new(AdvancedCapture::SignalAccumulationCapture(SignalAccumulationCapture { exp_times: vec![10], frames_per_capture: 2 }));
    assert!(!session.can_accept(&RawImage::filled(2, 2, 1)));
    session.start_stage(String::new()).unwrap();
    assert!(session.can_accept(&RawImage::filled(2, 2, 1)));
    session.on_frame(RawImage::filled(2, 2, 1), None);
    assert!(!session.can_accept(&RawImage::filled(3, 2, 1)));
}
