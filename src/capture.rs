use vstd::prelude::*;

verus! {

/// Sensor capacity mode.
#[derive(Clone, Copy, Debug, PartialEq, Eq, Structural)]
pub enum FullWellMode {
    High,
    Low,
}

/// Pixel binning of the detector.
#[derive(Clone, Copy, Debug, PartialEq, Eq, Structural)]
pub enum BinningMode {
    X11,
    X22,
    X44,
}

/// A finite capture of `num_frames` frames, read back from the detector's buffer by index.
#[derive(Clone, Copy, Debug, PartialEq, Eq, Structural)]
pub struct SequenceCapture {
    pub num_frames: u32,
}

/// An open-ended capture that polls the detector for frames, for `duration_ms` milliseconds
/// when given, else until cancelled.
#[derive(Clone, Copy, Debug, PartialEq, Eq, Structural)]
pub struct StreamCapture {
    pub duration_ms: Option<u64>,
}

/// How the detector acquires the frames of one capture.
#[derive(Clone, Copy, Debug, PartialEq, Eq, Structural)]
pub enum CaptureMode {
    Sequence(SequenceCapture),
    Stream(StreamCapture),
}

/// Why a correction could not be applied.
#[derive(Clone, Copy, Debug, PartialEq, Eq, Structural)]
pub enum CorrectionError {
    /// No correction map is held for the request.
    FileNotFound,
    /// The map and the frame have different dimensions.
    SizeMismatch,
}

/// Errors of the capture subsystem.
#[derive(Clone, Copy, Debug, PartialEq, Eq, Structural)]
pub enum CaptureError {
    DetectorDisconnected,
    DetectorInUse,
    Correction(CorrectionError),
    /// An error code reported by the detector SDK.
    SLError(i32),
    Unknown,
}

/// Everything the detector is configured with for one capture run.
#[derive(Clone, Debug)]
pub struct CaptureSetting {
    pub exp_time: u32,
    pub capture_mode: CaptureMode,
    pub dds: bool,
    pub full_well: FullWellMode,
    pub binning_mode: BinningMode,
    pub roi: Option<Vec<u32>>,
    pub corrected: bool,
}

impl CaptureSetting {
    /// Same configuration, the region of interest compared by value.
    pub open spec fn same_as(&self, o: &CaptureSetting) -> bool {
        &&& self.exp_time == o.exp_time
        &&& self.capture_mode == o.capture_mode
        &&& self.dds == o.dds
        &&& self.full_well == o.full_well
        &&& self.binning_mode == o.binning_mode
        &&& self.corrected == o.corrected
        &&& (self.roi is Some <==> o.roi is Some)
        &&& (self.roi is Some ==> self.roi->0@ == o.roi->0@)
    }

    /// A copy of the setting.
    pub fn copy(&self) -> (r: CaptureSetting)
        ensures
            r.same_as(self),
    {
        let roi = match &self.roi {
            Some(v) => {
                let c = v.clone();
                proof {
                    assert(c@ =~= v@);
                }
                Some(c)
            },
            None => None,
        };
        CaptureSetting {
            exp_time: self.exp_time,
            capture_mode: self.capture_mode,
            dds: self.dds,
            full_well: self.full_well,
            binning_mode: self.binning_mode,
            roi,
            corrected: self.corrected,
        }
    }
}

/// Builds a `CaptureSetting`; starts from a corrected, high full-well, 1x1-binned capture.
#[derive(Clone, Debug)]
pub struct CaptureSettingBuilder {
    corrected: bool,
    exp_time: u32,
    capture_mode: CaptureMode,
    dds: bool,
    full_well: FullWellMode,
    binning_mode: BinningMode,
    pub roi: Option<Vec<u32>>,
}

impl CaptureSettingBuilder {
    /// The setting `build` will produce.
    pub closed spec fn spec_setting(&self) -> CaptureSetting {
        CaptureSetting {
            exp_time: self.exp_time,
            capture_mode: self.capture_mode,
            dds: self.dds,
            full_well: self.full_well,
            binning_mode: self.binning_mode,
            roi: self.roi,
            corrected: self.corrected,
        }
    }

    pub fn new(exp_time: u32, capture_mode: CaptureMode) -> (r: Self)
        ensures
            r.spec_setting() == (CaptureSetting {
                exp_time,
                capture_mode,
                dds: false,
                full_well: FullWellMode::High,
                binning_mode: BinningMode::X11,
                roi: None,
                corrected: true,
            }),
    {
        CaptureSettingBuilder {
            corrected: true,
            exp_time,
            capture_mode,
            dds: false,
            full_well: FullWellMode::High,
            binning_mode: BinningMode::X11,
            roi: None,
        }
    }

    pub fn corrected(self, corrected: bool) -> (r: Self)
        ensures
            r.spec_setting() == (CaptureSetting { corrected, ..self.spec_setting() }),
    {
        CaptureSettingBuilder { corrected, ..self }
    }

    pub fn dds(self, dds: bool) -> (r: Self)
        ensures
            r.spec_setting() == (CaptureSetting { dds, ..self.spec_setting() }),
    {
        CaptureSettingBuilder { dds, ..self }
    }

    pub fn full_well(self, full_well: FullWellMode) -> (r: Self)
        ensures
            r.spec_setting() == (CaptureSetting { full_well, ..self.spec_setting() }),
    {
        CaptureSettingBuilder { full_well, ..self }
    }

    pub fn binning_mode(self, binning_mode: BinningMode) -> (r: Self)
        ensures
            r.spec_setting() == (CaptureSetting { binning_mode, ..self.spec_setting() }),
    {
        CaptureSettingBuilder { binning_mode, ..self }
    }

    pub fn build(self) -> (r: CaptureSetting)
        ensures
            r == self.spec_setting(),
    {
        CaptureSetting {
            exp_time: self.exp_time,
            capture_mode: self.capture_mode,
            dds: self.dds,
            full_well: self.full_well,
            binning_mode: self.binning_mode,
            roi: self.roi,
            corrected: self.corrected,
        }
    }
}

/// The next thing the driver of a capture run must do with the detector.
#[derive(Clone, Copy, Debug, PartialEq, Eq, Structural)]
pub enum ModeAction {
    /// Read frame `i` from the detector buffer (retrying until it arrives or the run is
    /// cancelled), hand it on, then report it with `frame_delivered`.
    ReadBuffer(u32),
    /// Sleep one millisecond and poll for a frame; report one that arrived with
    /// `frame_delivered`.
    PollFrame,
    /// Disarm the detector and wipe its buffers.
    GoUnlive,
    /// The run is over; nothing is left to do.
    Finished,
}

/// The decisions of one capture run, from arming to release of the detector.
#[derive(Clone, Copy, Debug)]
pub struct CaptureRun {
    mode: CaptureMode,
    frames_delivered: u64,
    unlive_calls: u32,
}

impl CaptureRun {
    /// The run's invariant: the detector is released at most once, and a sequence never
    /// delivers more frames than it asked for.
    pub open spec fn wf(&self) -> bool {
        &&& self.spec_unlive_calls() <= 1
        &&& match self.spec_mode() {
            CaptureMode::Sequence(s) => self.spec_frames() <= s.num_frames,
            CaptureMode::Stream(_) => true,
        }
    }

    pub closed spec fn spec_mode(&self) -> CaptureMode {
        self.mode
    }

    /// How many frames the run has delivered.
    pub closed spec fn spec_frames(&self) -> nat {
        self.frames_delivered as nat
    }

    /// How many times the run has told its driver to release the detector.
    pub closed spec fn spec_unlive_calls(&self) -> nat {
        self.unlive_calls as nat
    }

    /// The run has released the detector and is over.
    pub open spec fn is_finished(&self) -> bool {
        self.spec_unlive_calls() == 1
    }

    /// The run must stop: it was cancelled, its frames are all in, or its time is up.
    pub open spec fn must_stop(&self, cancelled: bool, elapsed_ms: u64) -> bool {
        cancelled || match self.spec_mode() {
            CaptureMode::Sequence(s) => self.spec_frames() >= s.num_frames,
            CaptureMode::Stream(s) => s.duration_ms is Some && elapsed_ms >= s.duration_ms->0,
        }
    }

    /// A run of `mode`, with the detector configured and armed.
    pub fn new(mode: CaptureMode) -> (r: CaptureRun)
        ensures
            r.wf(),
            r.spec_mode() == mode,
            r.spec_frames() == 0,
            r.spec_unlive_calls() == 0,
    {
        CaptureRun { mode, frames_delivered: 0, unlive_calls: 0 }
    }

    /// Frames delivered so far.
    pub fn frames_delivered(&self) -> (r: u64)
        ensures
            r == self.spec_frames(),
    {
        self.frames_delivered
    }

    /// How many times the detector has been released.
    pub fn unlive_calls(&self) -> (r: u32)
        ensures
            r == self.spec_unlive_calls(),
    {
        self.unlive_calls
    }

    /// Decides the next step, given whether the run was cancelled and how long it has been
    /// streaming. The detector is released exactly once: the first time the run must stop;
    /// after that every answer is `Finished`.
    pub fn next_action(&mut self, cancelled: bool, elapsed_ms: u64) -> (r: ModeAction)
        requires
            old(self).wf(),
        ensures
            final(self).wf(),
            final(self).spec_mode() == old(self).spec_mode(),
            final(self).spec_frames() == old(self).spec_frames(),
            old(self).is_finished() ==> r == ModeAction::Finished && *final(self) == *old(self),
            !old(self).is_finished() && old(self).must_stop(cancelled, elapsed_ms) ==> r
                == ModeAction::GoUnlive && final(self).spec_unlive_calls() == 1,
            !old(self).is_finished() && !old(self).must_stop(cancelled, elapsed_ms) ==> (
            *final(self) == *old(self) && match old(self).spec_mode() {
                CaptureMode::Sequence(_) => r == ModeAction::ReadBuffer(
                    old(self).spec_frames() as u32,
                ),
                CaptureMode::Stream(_) => r == ModeAction::PollFrame,
            }),
            r == ModeAction::GoUnlive <==> (old(self).spec_unlive_calls() == 0
                && final(self).spec_unlive_calls() == 1),
            r == ModeAction::Finished <==> old(self).is_finished(),
    {
        if self.unlive_calls == 1 {
            return ModeAction::Finished;
        }
        let stop = cancelled || match self.mode {
            CaptureMode::Sequence(s) => self.frames_delivered >= s.num_frames as u64,
            CaptureMode::Stream(s) => match s.duration_ms {
                Some(d) => elapsed_ms >= d,
                None => false,
            },
        };
        if stop {
            self.unlive_calls = 1;
            ModeAction::GoUnlive
        } else {
            match self.mode {
                CaptureMode::Sequence(_) => ModeAction::ReadBuffer(self.frames_delivered as u32),
                CaptureMode::Stream(_) => ModeAction::PollFrame,
            }
        }
    }

    /// Records that the frame asked for by the last action was handed on.
    pub fn frame_delivered(&mut self)
        requires
            old(self).wf(),
            !old(self).is_finished(),
            old(self).spec_frames() < u64::MAX,
            match old(self).spec_mode() {
                CaptureMode::Sequence(s) => old(self).spec_frames() < s.num_frames,
                CaptureMode::Stream(_) => true,
            },
        ensures
            final(self).wf(),
            final(self).spec_mode() == old(self).spec_mode(),
            final(self).spec_frames() == old(self).spec_frames() + 1,
            final(self).spec_unlive_calls() == old(self).spec_unlive_calls(),
    {
        self.frames_delivered = self.frames_delivered + 1;
    }
}

} // verus!
