use cview::capture::CaptureError;
use cview::correction::CorrectionMaps;
use cview::image::RawImage;
use cview::manager::{
    heartbeat_action, next_detector_status, CaptureManager, CaptureManagerStatus, DetectorStatus,
    HeartbeatAction,
};
use cview::protocols::{AdvancedCapture, DarkMapCapture, LiveCapture, MultiCapture};

fn calibrated_maps() -> CorrectionMaps {
    let mut maps = CorrectionMaps::new();
    maps.set_dark_map(200, RawImage::filled(2, 2, 300));
    maps.set_dark_map(100, RawImage::filled(2, 2, 300));
    maps.set_defect_map(RawImage::filled(2, 2, 0));
    maps
}

fn multi() -> AdvancedCapture {
    AdvancedCapture::MultiCapture(MultiCapture { exp_times: vec![100, 200], frames_per_capture: 10 })
}

#[test]
fn start_while_disconnected_fails_quietly() {
    let mut m = CaptureManager::new(calibrated_maps());
    assert_eq!(*m.status_ref(), CaptureManagerStatus::DetectorDisconnected);
    let r = m.start_capture(multi());
    assert_eq!(r.unwrap_err(), CaptureError::DetectorDisconnected);
    assert_eq!(*m.status_ref(), CaptureManagerStatus::DetectorDisconnected);
    // a tick that changes nothing emits nothing
    assert!(m.on_heartbeat(DetectorStatus::Disconnected).is_none());
}

#[test]
fn one_capture_at_a_time() {
    let mut m = CaptureManager::new(calibrated_maps());
    let ev = m.on_heartbeat(DetectorStatus::Available).unwrap();
    assert_eq!(ev.0.status, CaptureManagerStatus::Available);
    let ev = m.start_capture(multi()).unwrap();
    assert_eq!(ev.0.status, CaptureManagerStatus::Capturing(multi()));
    let second = m.start_capture(AdvancedCapture::LiveCapture(LiveCapture { exp_time: 5 }));
    assert_eq!(second.unwrap_err(), CaptureError::DetectorDisconnected);
    assert_eq!(*m.status_ref(), CaptureManagerStatus::Capturing(multi()));
    // heartbeats while capturing keep the status
    assert!(m.on_heartbeat(DetectorStatus::Available).is_none());
}

#[test]
fn stop_during_capture_returns_to_available() {
    let mut m = CaptureManager::new(calibrated_maps());
    m.on_heartbeat(DetectorStatus::Available);
    m.start_capture(multi()).unwrap();
    assert!(!m.is_stop_requested());
    m.stop_capture();
    assert!(m.is_stop_requested());
    let ev = m.finish_capture();
    assert_eq!(ev.0.status, CaptureManagerStatus::Available);
    assert_eq!(*m.status_ref(), CaptureManagerStatus::Available);
    // a new capture clears the stop request
    m.start_capture(multi()).unwrap();
    assert!(!m.is_stop_requested());
}

#[test]
fn status_asks_for_missing_calibration() {
    let mut m = CaptureManager::new(CorrectionMaps::new());
    let ev = m.on_heartbeat(DetectorStatus::Available).unwrap();
    assert_eq!(ev.0.status, CaptureManagerStatus::DarkMapsRequired);
    assert!(ev.0.dark_maps.is_empty());
    m.store_dark_map(300, RawImage::filled(1, 1, 0));
    let ev = m.on_heartbeat(DetectorStatus::Available).unwrap();
    assert_eq!(ev.0.status, CaptureManagerStatus::DefectMapsRequired);
    m.store_defect_map(RawImage::filled(1, 1, 0));
    let ev = m.on_heartbeat(DetectorStatus::Available).unwrap();
    assert_eq!(ev.0.status, CaptureManagerStatus::Available);
    let ev = m.on_heartbeat(DetectorStatus::Disconnected).unwrap();
    assert_eq!(ev.0.status, CaptureManagerStatus::DetectorDisconnected);
}

#[test]
fn events_carry_sorted_dark_exposures() {
    let mut maps = CorrectionMaps::new();
    for e in [500u32, 100, 300, 200, 100] {
        maps.set_dark_map(e, RawImage::filled(1, 1, 0));
    }
    let mut m = CaptureManager::new(maps);
    let ev = m.on_heartbeat(DetectorStatus::Available).unwrap();
    assert_eq!(ev.0.dark_maps, vec![100, 200, 300, 500]);
    assert_eq!(m.event().0.dark_maps, vec![100, 200, 300, 500]);
}

#[test]
fn disconnect_during_capture_shows() {
    let mut m = CaptureManager::new(calibrated_maps());
    m.on_heartbeat(DetectorStatus::Available);
    m.start_capture(multi()).unwrap();
    let ev = m.on_heartbeat(DetectorStatus::Disconnected).unwrap();
    assert_eq!(ev.0.status, CaptureManagerStatus::DetectorDisconnected);
    let ev = m.finish_capture();
    assert_eq!(ev.0.status, CaptureManagerStatus::DetectorDisconnected);
}

#[test]
fn heartbeat_decisions() {
    assert_eq!(heartbeat_action(DetectorStatus::Disconnected), HeartbeatAction::OpenCamera);
    assert_eq!(heartbeat_action(DetectorStatus::Available), HeartbeatAction::CheckConnection);
    assert_eq!(heartbeat_action(DetectorStatus::Capturing), HeartbeatAction::CheckConnection);
    assert_eq!(next_detector_status(DetectorStatus::Disconnected, true), DetectorStatus::Available);
    assert_eq!(next_detector_status(DetectorStatus::Disconnected, false), DetectorStatus::Disconnected);
    assert_eq!(next_detector_status(DetectorStatus::Available, false), DetectorStatus::Disconnected);
    assert_eq!(next_detector_status(DetectorStatus::Capturing, true), DetectorStatus::Capturing);
}

#[test]
fn calibration_starts_while_maps_are_missing() {
    let dark = AdvancedCapture::DarkMapCapture(DarkMapCapture { exp_times: vec![100], frames_per_capture: 4 });
    let mut m = CaptureManager::new(CorrectionMaps::new());
    assert_eq!(m.start_calibration(dark.clone()).err(), Some(CaptureError::DetectorDisconnected));
    m.on_heartbeat(DetectorStatus::Available);
    assert_eq!(*m.status_ref(), CaptureManagerStatus::DarkMapsRequired);
    assert_eq!(m.start_capture(multi()).unwrap_err(), CaptureError::DetectorDisconnected);
    let started = m.start_calibration(dark.clone()).ok().unwrap();
    assert_eq!(started.capture, dark);
    assert_eq!(started.event.0.status, CaptureManagerStatus::Capturing(dark.clone()));
    assert_eq!(m.start_calibration(dark).err(), Some(CaptureError::DetectorInUse));
    m.store_dark_map(100, RawImage::filled(2, 2, 300));
    let ev = m.finish_capture();
    assert_eq!(ev.0.status, CaptureManagerStatus::DefectMapsRequired);
    assert_eq!(ev.0.dark_maps, vec![100]);
}
