use vstd::prelude::*;

use crate::capture::CaptureError;
use crate::correction::{CorrectionMaps, strictly_sorted};
use crate::image::RawImage;
use crate::protocols::{AdvancedCapture, CaptureProgress};

verus! {

/// Frames the detector buffers when it is opened.
pub const BUFFER_DEPTH: u32 = 100;

/// Period of the heartbeat that watches the detector connection.
pub const HEARTBEAT_REFRESH_TIME_MILLIS: u64 = 100;

/// Connection state of the detector, as the heartbeat sees it.
#[derive(Clone, Copy, Debug, PartialEq, Eq, Structural)]
pub enum DetectorStatus {
    Available,
    Disconnected,
    Capturing,
}

/// What the heartbeat does with the detector on a tick.
#[derive(Clone, Copy, Debug, PartialEq, Eq, Structural)]
pub enum HeartbeatAction {
    /// Try to open the first available device with `BUFFER_DEPTH` buffers.
    OpenCamera,
    /// Probe whether the device is still connected.
    CheckConnection,
}

/// The probe the heartbeat makes in `status`.
pub fn heartbeat_action(status: DetectorStatus) -> (r: HeartbeatAction)
    ensures
        r == (if status == DetectorStatus::Disconnected {
            HeartbeatAction::OpenCamera
        } else {
            HeartbeatAction::CheckConnection
        }),
{
    match status {
        DetectorStatus::Disconnected => HeartbeatAction::OpenCamera,
        _ => HeartbeatAction::CheckConnection,
    }
}

/// The detector's status after a heartbeat probe that succeeded (`probe_ok`) or failed: a
/// disconnected detector that opened becomes available, a connected one that is no longer
/// connected becomes disconnected, and otherwise nothing changes.
pub fn next_detector_status(status: DetectorStatus, probe_ok: bool) -> (r: DetectorStatus)
    ensures
        r == (match status {
            DetectorStatus::Disconnected => if probe_ok {
                DetectorStatus::Available
            } else {
                DetectorStatus::Disconnected
            },
            _ => if probe_ok {
                status
            } else {
                DetectorStatus::Disconnected
            },
        }),
{
    match status {
        DetectorStatus::Disconnected => if probe_ok {
            DetectorStatus::Available
        } else {
            DetectorStatus::Disconnected
        },
        _ => if probe_ok {
            status
        } else {
            DetectorStatus::Disconnected
        },
    }
}

/// The detector interface in use.
#[derive(Clone, Debug)]
pub struct DetectorInfo {
    pub interface: String,
}

/// What the capture manager is doing.
#[derive(Clone, Debug, PartialEq, Eq)]
pub enum CaptureManagerStatus {
    Available,
    Capturing(AdvancedCapture),
    DarkMapsRequired,
    DefectMapsRequired,
    DetectorDisconnected,
}

impl CaptureManagerStatus {
    /// Same status, and for a capture the same protocol with the same parameters.
    pub open spec fn same_as(&self, o: &CaptureManagerStatus) -> bool {
        match (*self, *o) {
            (CaptureManagerStatus::Capturing(a), CaptureManagerStatus::Capturing(b)) => a.same_as(&b),
            (CaptureManagerStatus::Available, CaptureManagerStatus::Available) => true,
            (CaptureManagerStatus::DarkMapsRequired, CaptureManagerStatus::DarkMapsRequired) => true,
            (CaptureManagerStatus::DefectMapsRequired, CaptureManagerStatus::DefectMapsRequired) => true,
            (
                CaptureManagerStatus::DetectorDisconnected,
                CaptureManagerStatus::DetectorDisconnected,
            ) => true,
            _ => false,
        }
    }

    /// A copy of the status.
    pub fn copy(&self) -> (r: CaptureManagerStatus)
        ensures
            r.same_as(self),
    {
        match self {
            CaptureManagerStatus::Available => CaptureManagerStatus::Available,
            CaptureManagerStatus::Capturing(c) => CaptureManagerStatus::Capturing(c.copy()),
            CaptureManagerStatus::DarkMapsRequired => CaptureManagerStatus::DarkMapsRequired,
            CaptureManagerStatus::DefectMapsRequired => CaptureManagerStatus::DefectMapsRequired,
            CaptureManagerStatus::DetectorDisconnected => CaptureManagerStatus::DetectorDisconnected,
        }
    }

    /// Whether a capture is running.
    pub fn is_capturing(&self) -> (r: bool)
        ensures
            r == self is Capturing,
    {
        match self {
            CaptureManagerStatus::Capturing(_) => true,
            _ => false,
        }
    }

    /// Whether a capture may start.
    pub fn is_available(&self) -> (r: bool)
        ensures
            r == self is Available,
    {
        match self {
            CaptureManagerStatus::Available => true,
            _ => false,
        }
    }
}

/// Detector information and the manager's status.
#[derive(Clone, Debug)]
pub struct CaptureManagerInfo {
    pub detector_info: Option<DetectorInfo>,
    pub status: CaptureManagerStatus,
}

/// What the front end is told of a status transition.
#[derive(Clone, Debug)]
pub struct CaptureManagerEventPayload {
    pub dark_maps: Vec<u32>,
    pub status: CaptureManagerStatus,
}

/// Event emitted on every status transition of the capture manager.
#[derive(Clone, Debug)]
pub struct CaptureManagerEvent(pub CaptureManagerEventPayload);

/// Event carrying the progress of a multi-stage capture.
#[derive(Clone, Debug)]
pub struct CaptureProgressEvent(pub CaptureProgress);

/// The status a manager settles in when no capture runs: disconnected, or the first
/// calibration still missing, or available.
pub open spec fn idle_status(detector: DetectorStatus, maps: CorrectionMaps) -> CaptureManagerStatus {
    if detector == DetectorStatus::Disconnected {
        CaptureManagerStatus::DetectorDisconnected
    } else if maps.exp_times().len() == 0 {
        CaptureManagerStatus::DarkMapsRequired
    } else if maps.defect() is None {
        CaptureManagerStatus::DefectMapsRequired
    } else {
        CaptureManagerStatus::Available
    }
}

/// The status after a heartbeat tick reporting `detector`: a disconnect always shows, a
/// running capture keeps its status otherwise, and an idle manager recomputes its status.
pub open spec fn status_after_tick(
    status: CaptureManagerStatus,
    detector: DetectorStatus,
    maps: CorrectionMaps,
) -> CaptureManagerStatus {
    match detector {
        DetectorStatus::Disconnected => CaptureManagerStatus::DetectorDisconnected,
        DetectorStatus::Available => if status is Capturing {
            status
        } else {
            idle_status(detector, maps)
        },
        DetectorStatus::Capturing => status,
    }
}

/// `e` reports `status` and the dark-map exposure times of `maps`, in increasing order.
pub open spec fn reports(e: CaptureManagerEvent, status: CaptureManagerStatus, maps: CorrectionMaps) -> bool {
    &&& e.0.status.same_as(&status)
    &&& e.0.dark_maps@ == maps.exp_times()
    &&& strictly_sorted(e.0.dark_maps@)
}

/// The orchestrator's decisions: at most one capture at a time, the status derived from the
/// detector and the calibration state, and the cancellation flag of the running capture.
pub struct CaptureManager {
    info: CaptureManagerInfo,
    correction_maps: CorrectionMaps,
    stop_signal: bool,
    detector_status: DetectorStatus,
}

impl CaptureManager {
    pub closed spec fn status(&self) -> CaptureManagerStatus {
        self.info.status
    }

    pub closed spec fn maps(&self) -> CorrectionMaps {
        self.correction_maps
    }

    pub closed spec fn stop_requested(&self) -> bool {
        self.stop_signal
    }

    pub closed spec fn detector(&self) -> DetectorStatus {
        self.detector_status
    }

    pub open spec fn wf(&self) -> bool {
        self.maps().wf()
    }

    /// A manager over `correction_maps`, waiting for the detector.
    pub fn new(correction_maps: CorrectionMaps) -> (r: CaptureManager)
        requires
            correction_maps.wf(),
        ensures
            r.wf(),
            r.maps() == correction_maps,
            r.status() == CaptureManagerStatus::DetectorDisconnected,
            r.detector() == DetectorStatus::Disconnected,
            !r.stop_requested(),
    {
        CaptureManager {
            info: CaptureManagerInfo {
                detector_info: None,
                status: CaptureManagerStatus::DetectorDisconnected,
            },
            correction_maps,
            stop_signal: false,
            detector_status: DetectorStatus::Disconnected,
        }
    }

    /// The event that reports the current status.
    pub fn event(&self) -> (r: CaptureManagerEvent)
        requires
            self.wf(),
        ensures
            reports(r, self.status(), self.maps()),
    {
        CaptureManagerEvent(
            CaptureManagerEventPayload {
                dark_maps: self.correction_maps.get_dark_map_exp_times(),
                status: self.info.status.copy(),
            },
        )
    }

    /// Applies a heartbeat tick; returns the event to emit when the status changed.
    pub fn on_heartbeat(&mut self, detector: DetectorStatus) -> (r: Option<CaptureManagerEvent>)
        requires
            old(self).wf(),
        ensures
            final(self).wf(),
            final(self).maps() == old(self).maps(),
            final(self).stop_requested() == old(self).stop_requested(),
            final(self).detector() == detector,
            final(self).status() == status_after_tick(old(self).status(), detector, old(self).maps()),
            r is Some <==> !final(self).status().same_as(&old(self).status()),
            r is Some ==> reports(r->0, final(self).status(), final(self).maps()),
    {
        self.detector_status = detector;
        let changed = match detector {
            DetectorStatus::Disconnected => {
                let c = match self.info.status {
                    CaptureManagerStatus::DetectorDisconnected => false,
                    _ => true,
                };
                self.info.status = CaptureManagerStatus::DetectorDisconnected;
                c
            },
            DetectorStatus::Available => {
                if self.info.status.is_capturing() {
                    false
                } else {
                    let next = self.idle_status();
                    let c = !same_idle_kind(&self.info.status, &next);
                    self.info.status = next;
                    c
                }
            },
            DetectorStatus::Capturing => false,
        };
        if changed {
            Some(self.event())
        } else {
            None
        }
    }

    /// The status this manager settles in when no capture runs.
    fn idle_status(&self) -> (r: CaptureManagerStatus)
        requires
            self.wf(),
        ensures
            r == idle_status(self.detector(), self.maps()),
    {
        if self.detector_status == DetectorStatus::Disconnected {
            CaptureManagerStatus::DetectorDisconnected
        } else if self.correction_maps.get_dark_map_exp_times().len() == 0 {
            CaptureManagerStatus::DarkMapsRequired
        } else if !self.correction_maps.has_defect_map() {
            CaptureManagerStatus::DefectMapsRequired
        } else {
            CaptureManagerStatus::Available
        }
    }

    /// Starts `capture`: fails with `DetectorDisconnected`, changing nothing, unless the
    /// manager is available; else clears the cancellation flag, marks the capture as running
    /// and returns the event to emit.
    pub fn start_capture(&mut self, capture: AdvancedCapture) -> (r: Result<
        CaptureManagerEvent,
        CaptureError,
    >)
        requires
            old(self).wf(),
        ensures
            final(self).wf(),
            !(old(self).status() is Available) ==> r is Err && r->Err_0
                == CaptureError::DetectorDisconnected && *final(self) == *old(self),
            old(self).status() is Available ==> r is Ok && final(self).status()
                == CaptureManagerStatus::Capturing(capture) && !final(self).stop_requested()
                && final(self).maps() == old(self).maps() && final(self).detector() == old(
                self,
            ).detector() && reports(r->Ok_0, final(self).status(), final(self).maps()),
    {
        if !self.info.status.is_available() {
            return Err(CaptureError::DetectorDisconnected);
        }
        self.stop_signal = false;
        self.info.status = CaptureManagerStatus::Capturing(capture);
        Ok(self.event())
    }

    /// Starts a calibration run of `calibration`, which must be a dark-map or defect-map
    /// capture: unlike other captures it may start while calibration is missing. Fails with
    /// `DetectorDisconnected` while the detector is away and with `DetectorInUse` while a
    /// capture runs, changing nothing; else marks it running, clears the cancellation flag,
    /// and returns a copy of the protocol to run with the event to emit.
    pub fn start_calibration(&mut self, calibration: AdvancedCapture) -> (r: Result<
        CalibrationStart,
        CaptureError,
    >)
        requires
            old(self).wf(),
            calibration is DarkMapCapture || calibration is DefectMapCapture,
        ensures
            final(self).wf(),
            old(self).status() is DetectorDisconnected ==> r == Err::<CalibrationStart, CaptureError>(
                CaptureError::DetectorDisconnected,
            ) && *final(self) == *old(self),
            old(self).status() is Capturing ==> r == Err::<CalibrationStart, CaptureError>(
                CaptureError::DetectorInUse,
            ) && *final(self) == *old(self),
            !(old(self).status() is DetectorDisconnected) && !(old(self).status() is Capturing)
                ==> r is Ok && final(self).status() == CaptureManagerStatus::Capturing(calibration)
                && !final(self).stop_requested() && final(self).maps() == old(self).maps()
                && final(self).detector() == old(self).detector() && r->Ok_0.capture.same_as(
                &calibration,
            ) && reports(r->Ok_0.event, final(self).status(), final(self).maps()),
    {
        match self.info.status {
            CaptureManagerStatus::DetectorDisconnected => {
                return Err(CaptureError::DetectorDisconnected);
            },
            CaptureManagerStatus::Capturing(_) => {
                return Err(CaptureError::DetectorInUse);
            },
            _ => {},
        }
        let capture = calibration.copy();
        self.stop_signal = false;
        self.info.status = CaptureManagerStatus::Capturing(calibration);
        Ok(CalibrationStart { capture, event: self.event() })
    }

    /// Asks the running capture to stop at its next frame or stage boundary.
    pub fn stop_capture(&mut self)
        ensures
            final(self).stop_requested(),
            final(self).status() == old(self).status(),
            final(self).maps() == old(self).maps(),
            final(self).detector() == old(self).detector(),
    {
        self.stop_signal = true;
    }

    /// Whether the running capture has been asked to stop.
    pub fn is_stop_requested(&self) -> (r: bool)
        ensures
            r == self.stop_requested(),
    {
        self.stop_signal
    }

    /// Ends the running capture: the status is recomputed and the event to emit returned.
    pub fn finish_capture(&mut self) -> (r: CaptureManagerEvent)
        requires
            old(self).wf(),
        ensures
            final(self).wf(),
            final(self).status() == idle_status(old(self).detector(), old(self).maps()),
            final(self).maps() == old(self).maps(),
            final(self).detector() == old(self).detector(),
            final(self).stop_requested() == old(self).stop_requested(),
            reports(r, final(self).status(), final(self).maps()),
    {
        self.info.status = self.idle_status();
        self.event()
    }

    /// The current status.
    pub fn status_ref(&self) -> (r: &CaptureManagerStatus)
        ensures
            *r == self.status(),
    {
        &self.info.status
    }

    /// The correction maps.
    pub fn correction_maps(&self) -> (r: &CorrectionMaps)
        ensures
            *r == self.maps(),
    {
        &self.correction_maps
    }

    /// Stores a new dark map, as calibration does.
    pub fn store_dark_map(&mut self, exp_time: u32, image: RawImage)
        requires
            old(self).wf(),
            image.wf(),
        ensures
            final(self).wf(),
            final(self).maps().exp_times().contains(exp_time),
            final(self).maps().defect() == old(self).maps().defect(),
            ({
                let k = old(self).maps().exp_times().filter(|e: u32| e < exp_time).len();
                let entry = crate::correction::DarkMap { exp_time, image };
                if old(self).maps().exp_times().contains(exp_time) {
                    final(self).maps().dark_seq() == old(self).maps().dark_seq().update(k as int, entry)
                } else {
                    final(self).maps().dark_seq() == old(self).maps().dark_seq().insert(k as int, entry)
                }
            }),
            final(self).status() == old(self).status(),
            final(self).detector() == old(self).detector(),
            final(self).stop_requested() == old(self).stop_requested(),
    {
        self.correction_maps.set_dark_map(exp_time, image);
    }

    /// Stores a new defect map, as calibration does.
    pub fn store_defect_map(&mut self, image: RawImage)
        requires
            old(self).wf(),
            image.wf(),
        ensures
            final(self).wf(),
            final(self).maps().defect() == Some(image),
            final(self).maps().dark_seq() == old(self).maps().dark_seq(),
            final(self).status() == old(self).status(),
            final(self).detector() == old(self).detector(),
            final(self).stop_requested() == old(self).stop_requested(),
    {
        self.correction_maps.set_defect_map(image);
    }
}

/// A calibration run that has started: the protocol to run and the event to emit.
pub struct CalibrationStart {
    pub capture: AdvancedCapture,
    pub event: CaptureManagerEvent,
}

/// Two statuses of an idle manager are the same.
fn same_idle_kind(a: &CaptureManagerStatus, b: &CaptureManagerStatus) -> (r: bool)
    requires
        !(*a is Capturing),
        !(*b is Capturing),
    ensures
        r == a.same_as(b),
{
    match (a, b) {
        (CaptureManagerStatus::Available, CaptureManagerStatus::Available) => true,
        (CaptureManagerStatus::DarkMapsRequired, CaptureManagerStatus::DarkMapsRequired) => true,
        (CaptureManagerStatus::DefectMapsRequired, CaptureManagerStatus::DefectMapsRequired) => true,
        (CaptureManagerStatus::DetectorDisconnected, CaptureManagerStatus::DetectorDisconnected) => true,
        _ => false,
    }
}

} // verus!
