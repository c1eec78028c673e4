use vstd::prelude::*;

use crate::capture::{
    CaptureMode, CaptureSetting, CaptureSettingBuilder, FullWellMode, SequenceCapture,
    StreamCapture,
};
use crate::image::{RawImage, clamp_pixel, frames_sum};
use crate::filters::{is_median_filtered, median_filter_3x3};
use crate::stats::{Snr, SnrError, SnrResult, is_snr_of, snr, snr_gt};

verus! {

/// Picks, over several exposure times, the frame with the highest signal-to-noise ratio.
#[derive(Clone, Debug, PartialEq, Eq)]
pub struct SmartCapture {
    pub exp_times: Vec<u32>,
    pub frames_per_capture: u32,
    pub window_size: u32,
    pub median_filtered: bool,
}

/// Synthesizes progressively longer exposures by adding frames together.
#[derive(Clone, Debug, PartialEq, Eq)]
pub struct SignalAccumulationCapture {
    pub exp_times: Vec<u32>,
    pub frames_per_capture: u32,
}

/// Captures a sequence of frames at each of several exposure times.
#[derive(Clone, Debug, PartialEq, Eq)]
pub struct MultiCapture {
    pub exp_times: Vec<u32>,
    pub frames_per_capture: u32,
}

/// Calibration: averages dark frames into one dark map per exposure time.
#[derive(Clone, Debug, PartialEq, Eq)]
pub struct DarkMapCapture {
    pub exp_times: Vec<u32>,
    pub frames_per_capture: u32,
}

/// Calibration: averages dark frames per exposure time and full-well mode, as input to the
/// defect-map generator.
#[derive(Clone, Debug, PartialEq, Eq)]
pub struct DefectMapCapture {
    pub exp_times: Vec<u32>,
    pub frames_per_capture: u32,
}

/// An open-ended stream of frames at one exposure time.
#[derive(Clone, Debug, PartialEq, Eq)]
pub struct LiveCapture {
    pub exp_time: u32,
}

/// The capture protocols the manager can run.
#[derive(Clone, Debug, PartialEq, Eq)]
pub enum AdvancedCapture {
    SmartCapture(SmartCapture),
    SignalAccumulationCapture(SignalAccumulationCapture),
    MultiCapture(MultiCapture),
    LiveCapture(LiveCapture),
    DarkMapCapture(DarkMapCapture),
    DefectMapCapture(DefectMapCapture),
}

impl SmartCapture {
    /// Scores one corrected frame: passes it through the 3 x 3 median filter when the capture
    /// asks for it, then computes its signal-to-noise ratio over `window_size` windows. Returns
    /// the frame that was scored and the result.
    pub fn score_frame(&self, frame: RawImage) -> (r: (RawImage, Result<SnrResult, SnrError>))
        requires
            frame.wf(),
        ensures
            r.0.wf(),
            self.median_filtered ==> is_median_filtered(frame, r.0),
            !self.median_filtered ==> r.0.same_image(&frame),
            self.window_size == 0 <==> r.1 == Err::<SnrResult, SnrError>(SnrError::EmptyWindow),
            self.window_size > 0 && (self.window_size > frame.width || self.window_size
                > frame.height) <==> r.1 == Err::<SnrResult, SnrError>(SnrError::WindowTooLarge),
            r.1 is Ok ==> is_snr_of(r.0, self.window_size as int, r.1->Ok_0),
    {
        let scored = if self.median_filtered {
            median_filter_3x3(&frame)
        } else {
            frame
        };
        let res = snr(&scored, self.window_size);
        (scored, res)
    }
}

/// Exposure represented by a frame of a signal-accumulation capture.
#[derive(Clone, Copy, Debug, PartialEq, Eq, Structural)]
pub struct SignalAccumulationData {
    pub accumulated_exp_time: u32,
}

/// Signal-to-noise report attached to a frame of a smart capture.
#[derive(Clone, Copy, Debug, PartialEq, Eq, Structural)]
pub struct SmartCaptureData {
    pub signal_noise_ratio: Snr,
    pub background_rect: crate::types::Rect,
    pub foreground_rect: crate::types::Rect,
}

/// Protocol-specific data attached to a frame.
#[derive(Clone, Copy, Debug, PartialEq, Eq, Structural)]
pub enum CaptureResultData {
    SmartCaptureData(SmartCaptureData),
    SignalAccumulationData(SignalAccumulationData),
}

/// What is known of a delivered frame: how it was captured, when (milliseconds since the Unix
/// epoch), and protocol-specific data.
#[derive(Clone, Debug)]
pub struct ImageMetadata {
    pub capture_settings: Option<CaptureSetting>,
    pub date_created: Option<i64>,
    pub extra_info: Option<CaptureResultData>,
}

/// A delivered frame with its metadata.
#[derive(Clone, Debug)]
pub struct CapturedImage {
    pub image: RawImage,
    pub metadata: ImageMetadata,
}

impl ImageMetadata {
    /// Same metadata, capture settings compared by value.
    pub open spec fn same_as(&self, o: &ImageMetadata) -> bool {
        &&& match (self.capture_settings, o.capture_settings) {
            (Some(a), Some(b)) => a.same_as(&b),
            (None, None) => true,
            _ => false,
        }
        &&& self.date_created == o.date_created
        &&& self.extra_info == o.extra_info
    }

    /// A copy of the metadata.
    pub fn copy(&self) -> (r: ImageMetadata)
        ensures
            r.same_as(self),
    {
        let capture_settings = match &self.capture_settings {
            Some(s) => Some(s.copy()),
            None => None,
        };
        ImageMetadata {
            capture_settings,
            date_created: self.date_created,
            extra_info: self.extra_info,
        }
    }
}

impl CapturedImage {
    /// Same frame and same metadata.
    pub open spec fn same_as(&self, o: &CapturedImage) -> bool {
        self.image.same_image(&o.image) && self.metadata.same_as(&o.metadata)
    }

    /// A copy of the frame and its metadata.
    pub fn copy(&self) -> (r: CapturedImage)
        ensures
            r.same_as(self),
    {
        CapturedImage { image: self.image.copy(), metadata: self.metadata.copy() }
    }
}

/// The signal-to-noise ratio a delivered frame carries; zero when it carries none.
pub open spec fn ratio_of(ci: CapturedImage) -> Snr {
    match ci.metadata.extra_info {
        Some(CaptureResultData::SmartCaptureData(d)) => d.signal_noise_ratio,
        _ => Snr { num: 0, den: 0 },
    }
}

/// An item of a capture's output stream.
#[derive(Clone, Debug)]
pub enum CaptureStreamItem {
    Image(CapturedImage),
    Progress(CaptureProgress),
    CaptureResult(Vec<CapturedImage>),
}

/// Builds `ImageMetadata`; starts with nothing set.
pub struct ImageMetadataBuilder {
    capture_settings: Option<CaptureSetting>,
    date_created: Option<i64>,
    extra_info: Option<CaptureResultData>,
}

impl ImageMetadataBuilder {
    /// The metadata `build` will produce.
    pub closed spec fn spec_metadata(&self) -> ImageMetadata {
        ImageMetadata {
            capture_settings: self.capture_settings,
            date_created: self.date_created,
            extra_info: self.extra_info,
        }
    }

    pub fn new() -> (r: Self)
        ensures
            r.spec_metadata() == (ImageMetadata {
                capture_settings: None,
                date_created: None,
                extra_info: None,
            }),
    {
        ImageMetadataBuilder { capture_settings: None, date_created: None, extra_info: None }
    }

    pub fn capture_settings(&mut self, settings: CaptureSetting)
        ensures
            final(self).spec_metadata() == (ImageMetadata {
                capture_settings: Some(settings),
                ..old(self).spec_metadata()
            }),
    {
        self.capture_settings = Some(settings);
    }

    pub fn date_created(&mut self, date: i64)
        ensures
            final(self).spec_metadata() == (ImageMetadata {
                date_created: Some(date),
                ..old(self).spec_metadata()
            }),
    {
        self.date_created = Some(date);
    }

    pub fn extra_info(&mut self, extra: CaptureResultData)
        ensures
            final(self).spec_metadata() == (ImageMetadata {
                extra_info: Some(extra),
                ..old(self).spec_metadata()
            }),
    {
        self.extra_info = Some(extra);
    }

    pub fn build(self) -> (r: ImageMetadata)
        ensures
            r == self.spec_metadata(),
    {
        ImageMetadata {
            capture_settings: self.capture_settings,
            date_created: self.date_created,
            extra_info: self.extra_info,
        }
    }
}

/// The setting of one stage of a protocol.
pub open spec fn stage_setting(
    exp_time: u32,
    mode: CaptureMode,
    corrected: bool,
    full_well: FullWellMode,
) -> CaptureSetting {
    CaptureSetting {
        exp_time,
        capture_mode: mode,
        dds: false,
        full_well,
        binning_mode: crate::capture::BinningMode::X11,
        roi: None,
        corrected,
    }
}

/// One corrected or uncorrected sequence stage per exposure time.
pub open spec fn sequence_plan(exps: Seq<u32>, frames: u32, corrected: bool) -> Seq<
    CaptureSetting,
> {
    exps.map_values(
        |e: u32|
            stage_setting(
                e,
                CaptureMode::Sequence(SequenceCapture { num_frames: frames }),
                corrected,
                FullWellMode::High,
            ),
    )
}

/// Two uncorrected sequence stages per exposure time, high full-well then low.
pub open spec fn defect_plan(exps: Seq<u32>, frames: u32) -> Seq<CaptureSetting> {
    Seq::new(
        2 * exps.len(),
        |i: int|
            stage_setting(
                exps[i / 2],
                CaptureMode::Sequence(SequenceCapture { num_frames: frames }),
                false,
                if i % 2 == 0 {
                    FullWellMode::High
                } else {
                    FullWellMode::Low
                },
            ),
    )
}

impl AdvancedCapture {
    /// The stages the protocol runs, in order.
    pub open spec fn plan(&self) -> Seq<CaptureSetting> {
        match self {
            AdvancedCapture::SmartCapture(c) => sequence_plan(
                c.exp_times@,
                c.frames_per_capture,
                true,
            ),
            AdvancedCapture::SignalAccumulationCapture(c) => sequence_plan(
                c.exp_times@,
                c.frames_per_capture,
                true,
            ),
            AdvancedCapture::MultiCapture(c) => sequence_plan(
                c.exp_times@,
                c.frames_per_capture,
                true,
            ),
            AdvancedCapture::LiveCapture(c) => seq![
                stage_setting(
                    c.exp_time,
                    CaptureMode::Stream(StreamCapture { duration_ms: None }),
                    true,
                    FullWellMode::High,
                ),
            ],
            AdvancedCapture::DarkMapCapture(c) => sequence_plan(
                c.exp_times@,
                c.frames_per_capture,
                false,
            ),
            AdvancedCapture::DefectMapCapture(c) => defect_plan(
                c.exp_times@,
                c.frames_per_capture,
            ),
        }
    }

    /// Same protocol with the same parameters.
    pub open spec fn same_as(&self, o: &AdvancedCapture) -> bool {
        match (*self, *o) {
            (AdvancedCapture::SmartCapture(a), AdvancedCapture::SmartCapture(b)) => a.exp_times@
                == b.exp_times@ && a.frames_per_capture == b.frames_per_capture && a.window_size
                == b.window_size && a.median_filtered == b.median_filtered,
            (
                AdvancedCapture::SignalAccumulationCapture(a),
                AdvancedCapture::SignalAccumulationCapture(b),
            ) => a.exp_times@ == b.exp_times@ && a.frames_per_capture == b.frames_per_capture,
            (AdvancedCapture::MultiCapture(a), AdvancedCapture::MultiCapture(b)) => a.exp_times@
                == b.exp_times@ && a.frames_per_capture == b.frames_per_capture,
            (AdvancedCapture::LiveCapture(a), AdvancedCapture::LiveCapture(b)) => a.exp_time
                == b.exp_time,
            (AdvancedCapture::DarkMapCapture(a), AdvancedCapture::DarkMapCapture(b)) => a.exp_times@
                == b.exp_times@ && a.frames_per_capture == b.frames_per_capture,
            (AdvancedCapture::DefectMapCapture(a), AdvancedCapture::DefectMapCapture(b)) => a.exp_times@
                == b.exp_times@ && a.frames_per_capture == b.frames_per_capture,
            _ => false,
        }
    }

    /// A copy of the protocol and its parameters.
    pub fn copy(&self) -> (r: AdvancedCapture)
        ensures
            r.same_as(self),
    {
        match self {
            AdvancedCapture::SmartCapture(c) => AdvancedCapture::SmartCapture(
                SmartCapture {
                    exp_times: copy_times(&c.exp_times),
                    frames_per_capture: c.frames_per_capture,
                    window_size: c.window_size,
                    median_filtered: c.median_filtered,
                },
            ),
            AdvancedCapture::SignalAccumulationCapture(c) => AdvancedCapture::SignalAccumulationCapture(
                SignalAccumulationCapture {
                    exp_times: copy_times(&c.exp_times),
                    frames_per_capture: c.frames_per_capture,
                },
            ),
            AdvancedCapture::MultiCapture(c) => AdvancedCapture::MultiCapture(
                MultiCapture {
                    exp_times: copy_times(&c.exp_times),
                    frames_per_capture: c.frames_per_capture,
                },
            ),
            AdvancedCapture::LiveCapture(c) => AdvancedCapture::LiveCapture(
                LiveCapture { exp_time: c.exp_time },
            ),
            AdvancedCapture::DarkMapCapture(c) => AdvancedCapture::DarkMapCapture(
                DarkMapCapture {
                    exp_times: copy_times(&c.exp_times),
                    frames_per_capture: c.frames_per_capture,
                },
            ),
            AdvancedCapture::DefectMapCapture(c) => AdvancedCapture::DefectMapCapture(
                DefectMapCapture {
                    exp_times: copy_times(&c.exp_times),
                    frames_per_capture: c.frames_per_capture,
                },
            ),
        }
    }

    /// The capture settings of the protocol's stages, in the order they run.
    pub fn stages(&self) -> (r: Vec<CaptureSetting>)
        requires
            match self {
                AdvancedCapture::DefectMapCapture(c) => c.exp_times@.len() * 2 <= usize::MAX,
                _ => true,
            },
        ensures
            r@ == self.plan(),
    {
        match self {
            AdvancedCapture::SmartCapture(c) => sequence_stages(&c.exp_times, c.frames_per_capture, true),
            AdvancedCapture::SignalAccumulationCapture(c) => sequence_stages(
                &c.exp_times,
                c.frames_per_capture,
                true,
            ),
            AdvancedCapture::MultiCapture(c) => sequence_stages(&c.exp_times, c.frames_per_capture, true),
            AdvancedCapture::LiveCapture(c) => {
                let s = CaptureSettingBuilder::new(
                    c.exp_time,
                    CaptureMode::Stream(StreamCapture { duration_ms: None }),
                ).build();
                let mut v: Vec<CaptureSetting> = Vec::new();
                v.push(s);
                proof {
                    assert(v@ =~= self.plan());
                }
                v
            },
            AdvancedCapture::DarkMapCapture(c) => sequence_stages(&c.exp_times, c.frames_per_capture, false),
            AdvancedCapture::DefectMapCapture(c) => defect_stages(&c.exp_times, c.frames_per_capture),
        }
    }
}

/// A copy of a list of exposure times.
pub fn copy_times(v: &Vec<u32>) -> (r: Vec<u32>)
    ensures
        r@ == v@,
{
    let r = v.clone();
    proof {
        assert(r@ =~= v@);
    }
    r
}

/// One sequence stage of `frames` frames per exposure time.
fn sequence_stages(exps: &Vec<u32>, frames: u32, corrected: bool) -> (r: Vec<CaptureSetting>)
    ensures
        r@ == sequence_plan(exps@, frames, corrected),
{
    let mut out: Vec<CaptureSetting> = Vec::new();
    let mut i: usize = 0;
    while i < exps.len()
        invariant
            0 <= i <= exps@.len(),
            out@ == sequence_plan(exps@.subrange(0, i as int), frames, corrected),
        decreases exps@.len() - i,
    {
        let s = CaptureSettingBuilder::new(
            exps[i],
            CaptureMode::Sequence(SequenceCapture { num_frames: frames }),
        ).corrected(corrected).build();
        out.push(s);
        i = i + 1;
        assert(out@ =~= sequence_plan(exps@.subrange(0, i as int), frames, corrected));
    }
    assert(exps@.subrange(0, i as int) =~= exps@);
    out
}

/// Two uncorrected sequence stages per exposure time, high full-well then low.
fn defect_stages(exps: &Vec<u32>, frames: u32) -> (r: Vec<CaptureSetting>)
    requires
        exps@.len() * 2 <= usize::MAX,
    ensures
        r@ == defect_plan(exps@, frames),
{
    let mut out: Vec<CaptureSetting> = Vec::new();
    let mut i: usize = 0;
    while i < exps.len()
        invariant
            0 <= i <= exps@.len(),
            out@ == defect_plan(exps@.subrange(0, i as int), frames),
        decreases exps@.len() - i,
    {
        let mode = CaptureMode::Sequence(SequenceCapture { num_frames: frames });
        let high = CaptureSettingBuilder::new(exps[i], mode).corrected(false).full_well(
            FullWellMode::High,
        ).build();
        let low = CaptureSettingBuilder::new(exps[i], mode).corrected(false).full_well(
            FullWellMode::Low,
        ).build();
        out.push(high);
        out.push(low);
        i = i + 1;
        proof {
            let d = defect_plan(exps@.subrange(0, i as int), frames);
            assert forall|j: int| 0 <= j < out@.len() implies out@[j] == d[j] by {
                assert(exps@.subrange(0, i as int)[j / 2] == exps@[j / 2]);
                if j < out@.len() - 2 {
                    assert(exps@.subrange(0, i as int - 1)[j / 2] == exps@[j / 2]);
                }
            }
            assert(out@ =~= d);
        }
    }
    assert(exps@.subrange(0, i as int) =~= exps@);
    out
}

/// Progress through the stages of a capture.
#[derive(Clone, Debug)]
pub struct CaptureProgress {
    message: String,
    current_step: u32,
    total_steps: u32,
}

impl CaptureProgress {
    /// The progress message.
    pub closed spec fn spec_message(&self) -> Seq<char> {
        self.message@
    }

    /// Steps completed so far.
    pub closed spec fn spec_current_step(&self) -> u32 {
        self.current_step
    }

    /// Steps in all.
    pub closed spec fn spec_total_steps(&self) -> u32 {
        self.total_steps
    }

    /// Progress at step zero of `total_steps`.
    pub fn new(total_steps: u32, message: String) -> (r: Self)
        ensures
            r.spec_message() == message@,
            r.spec_current_step() == 0,
            r.spec_total_steps() == total_steps,
    {
        CaptureProgress { message, current_step: 0, total_steps }
    }

    /// Moves one step on with a new message and returns a copy of the new progress.
    pub fn update(&mut self, new_message: String) -> (r: Self)
        requires
            old(self).spec_current_step() < u32::MAX,
        ensures
            final(self).spec_message() == new_message@,
            final(self).spec_current_step() == old(self).spec_current_step() + 1,
            final(self).spec_total_steps() == old(self).spec_total_steps(),
            r.spec_message() == new_message@,
            r.spec_current_step() == final(self).spec_current_step(),
            r.spec_total_steps() == final(self).spec_total_steps(),
    {
        self.current_step = self.current_step + 1;
        let message = new_message.clone();
        self.message = new_message;
        CaptureProgress { message, current_step: self.current_step, total_steps: self.total_steps }
    }

    pub fn message(&self) -> (r: &String)
        ensures
            r@ == self.spec_message(),
    {
        &self.message
    }

    pub fn current_step(&self) -> (r: u32)
        ensures
            r == self.spec_current_step(),
    {
        self.current_step
    }

    pub fn total_steps(&self) -> (r: u32)
        ensures
            r == self.spec_total_steps(),
    {
        self.total_steps
    }
}

/// `a` is at most `b` and `b` is below `c`, so `c` is above `a`.
pub proof fn lemma_snr_above(a: Snr, b: Snr, c: Snr)
    requires
        !snr_gt(a, b),
        snr_gt(c, b),
    ensures
        snr_gt(c, a),
        !snr_gt(a, c),
{
    if b.den == 0 {
        if a.den != 0 {
            assert(c.num as int * a.den as int > 0) by (nonlinear_arith)
                requires
                    c.num > 0,
                    a.den > 0,
            ;
            assert(a.num as int * c.den as int == 0) by (nonlinear_arith)
                requires
                    a.num == 0,
            ;
        }
    } else {
        let (an, ad, bn, bd, cn, cd) = (
            a.num as int,
            a.den as int,
            b.num as int,
            b.den as int,
            c.num as int,
            c.den as int,
        );
        if ad == 0 {
            assert(cn > 0) by (nonlinear_arith)
                requires
                    cn * bd > bn * cd,
                    bn >= 0,
                    cd >= 0,
                    cn >= 0,
            ;
        } else {
            assert(cn * ad > an * cd) by (nonlinear_arith)
                requires
                    an * bd <= bn * ad,
                    cn * bd > bn * cd,
                    ad > 0,
                    bd > 0,
                    cd > 0,
                    an >= 0,
                    bn >= 0,
                    cn >= 0,
            ;
        }
    }
}

/// The ratio of a recorded best frame.
pub open spec fn best_ratio(best: Option<(usize, Snr)>) -> Snr {
    let (_, s) = best->0;
    s
}

/// The position of a recorded best frame.
pub open spec fn best_position(best: Option<(usize, Snr)>) -> usize {
    let (k, _) = best->0;
    k
}

/// Keeps track of the frame with the highest signal-to-noise ratio among those offered: the
/// first frame offered, replaced by any later frame with a strictly higher ratio.
pub struct SmartSelection {
    best: Option<(usize, Snr)>,
    count: usize,
    seen: Ghost<Seq<Snr>>,
}

impl SmartSelection {
    /// The ratios offered so far, in order.
    pub closed spec fn offered(&self) -> Seq<Snr> {
        self.seen@
    }

    /// The index and ratio of the best frame so far.
    pub closed spec fn spec_best(&self) -> Option<(usize, Snr)> {
        self.best
    }

    /// `best` is the best of `seen`: no frame is better, and every earlier frame is worse.
    pub open spec fn is_best_of(seen: Seq<Snr>, best: Option<(usize, Snr)>) -> bool {
        &&& (best is None <==> seen.len() == 0)
        &&& (best is Some ==> {
            let (k, s) = best->0;
            &&& k < seen.len()
            &&& seen[k as int] == s
            &&& forall|j: int| 0 <= j < seen.len() ==> !snr_gt(#[trigger] seen[j], s)
            &&& forall|j: int| 0 <= j < k ==> snr_gt(s, #[trigger] seen[j])
        })
    }

    pub closed spec fn wf(&self) -> bool {
        &&& self.count == self.seen@.len()
        &&& Self::is_best_of(self.seen@, self.best)
    }

    /// A selection with nothing offered.
    pub fn new() -> (r: Self)
        ensures
            r.wf(),
            r.offered().len() == 0,
            r.spec_best() is None,
    {
        SmartSelection { best: None, count: 0, seen: Ghost(Seq::empty()) }
    }

    /// Offers the ratio of the next frame; returns whether that frame became the best.
    pub fn offer(&mut self, snr: Snr) -> (r: bool)
        requires
            old(self).wf(),
            old(self).offered().len() < usize::MAX,
        ensures
            final(self).wf(),
            final(self).offered() == old(self).offered().push(snr),
            r == (old(self).spec_best() is None || snr_gt(snr, best_ratio(old(self).spec_best()))),
            r ==> final(self).spec_best() == Some((old(self).offered().len() as usize, snr)),
            !r ==> final(self).spec_best() == old(self).spec_best(),
            Self::is_best_of(final(self).offered(), final(self).spec_best()),
    {
        let idx = self.count;
        let ghost old_seen = self.seen@;
        let replace = match self.best {
            None => true,
            Some((_, b)) => snr.greater_than(&b),
        };
        proof {
            self.seen = Ghost(old_seen.push(snr));
        }
        self.count = self.count + 1;
        if replace {
            proof {
                if old_seen.len() > 0 {
                    let b = best_ratio(self.best);
                    assert forall|j: int| 0 <= j < old_seen.len() implies snr_gt(
                        snr,
                        #[trigger] old_seen[j],
                    ) && !snr_gt(old_seen[j], snr) by {
                        lemma_snr_above(old_seen[j], b, snr);
                    }
                }
                assert(!snr_gt(snr, snr));
                assert(self.seen@[idx as int] == snr);
                assert forall|j: int| 0 <= j < self.seen@.len() implies !snr_gt(
                    #[trigger] self.seen@[j],
                    snr,
                ) by {
                    if j < old_seen.len() {
                        assert(self.seen@[j] == old_seen[j]);
                    }
                }
                assert forall|j: int| 0 <= j < idx implies snr_gt(snr, #[trigger] self.seen@[j]) by {
                    assert(self.seen@[j] == old_seen[j]);
                }
            }
            self.best = Some((idx, snr));
        } else {
            proof {
                let (k, b) = self.best->0;
                assert(!snr_gt(snr, b));
                assert forall|j: int| 0 <= j < self.seen@.len() implies !snr_gt(
                    #[trigger] self.seen@[j],
                    b,
                ) by {
                    if j < old_seen.len() {
                        assert(self.seen@[j] == old_seen[j]);
                    }
                }
                assert forall|j: int| 0 <= j < k implies snr_gt(b, #[trigger] self.seen@[j]) by {
                    assert(self.seen@[j] == old_seen[j]);
                }
            }
        }
        replace
    }

    /// A well-formed selection holds the best of what was offered.
    pub proof fn lemma_holds_best(&self)
        requires
            self.wf(),
        ensures
            Self::is_best_of(self.offered(), self.spec_best()),
    {
    }

    /// How many ratios were offered.
    pub fn offered_count(&self) -> (r: usize)
        requires
            self.wf(),
        ensures
            r == self.offered().len(),
    {
        self.count
    }

    /// The index, in offering order, of the best frame; `None` when nothing was offered.
    pub fn best_index(&self) -> (r: Option<usize>)
        requires
            self.wf(),
        ensures
            r is None <==> self.offered().len() == 0,
            r is Some ==> self.spec_best() is Some && r->0 == best_position(self.spec_best()),
            r is Some ==> r->0 < self.offered().len() && forall|j: int|
                0 <= j < self.offered().len() ==> !snr_gt(
                    #[trigger] self.offered()[j],
                    self.offered()[r->0 as int],
                ),
    {
        match self.best {
            Some((k, _)) => Some(k),
            None => None,
        }
    }
}

/// Sum of the pixels of a run of frames, clamped to 14 bits, as signal accumulation yields it.
pub open spec fn accumulated_pixel(frames: Seq<RawImage>, i: int) -> int {
    clamp_pixel(frames_sum(frames, i))
}

/// The accumulated exposure of the `k`-th frame (from zero) of a stage at `exp_time`, held at
/// `u32::MAX` when it would not fit.
pub open spec fn accumulated_exp(exp_time: u32, k: int) -> int {
    if exp_time * (k + 1) > u32::MAX {
        u32::MAX as int
    } else {
        exp_time * (k + 1)
    }
}

/// The running state of a signal-accumulation capture: each frame is added, pixel by pixel, to
/// the previous accumulated frame, across stage boundaries.
pub struct SignalAccumulator {
    last: Option<RawImage>,
    stage_exp: u32,
    frames_in_stage: u32,
    history: Ghost<Seq<RawImage>>,
}

impl SignalAccumulator {
    /// Every raw frame added so far, in order.
    pub closed spec fn frames(&self) -> Seq<RawImage> {
        self.history@
    }

    /// The exposure time of the current stage.
    pub closed spec fn spec_stage_exp(&self) -> u32 {
        self.stage_exp
    }

    /// Frames added in the current stage.
    pub closed spec fn spec_frames_in_stage(&self) -> u32 {
        self.frames_in_stage
    }

    /// The last accumulated frame.
    pub closed spec fn spec_last(&self) -> Option<RawImage> {
        self.last
    }

    /// A frame can be added: it is valid and matches the frames before it.
    pub open spec fn accepts(&self, frame: RawImage) -> bool {
        &&& frame.wf()
        &&& (self.spec_last() is Some ==> frame.same_dims(&self.spec_last()->0))
    }

    pub closed spec fn wf(&self) -> bool {
        &&& (self.last is None <==> self.history@.len() == 0)
        &&& self.last is Some ==> {
            let l = self.last->0;
            &&& l.wf()
            &&& forall|k: int|
                0 <= k < self.history@.len() ==> (#[trigger] self.history@[k]).wf()
                    && self.history@[k].same_dims(&l)
            &&& forall|i: int|
                0 <= i < l.pixels@.len() ==> l.pixels@[i] as int == accumulated_pixel(
                    self.history@,
                    i,
                )
        }
    }

    /// An accumulator with no frames, at the first stage of exposure `exp_time`.
    pub fn new(exp_time: u32) -> (r: Self)
        ensures
            r.wf(),
            r.frames().len() == 0,
            r.spec_last() is None,
            r.spec_stage_exp() == exp_time,
            r.spec_frames_in_stage() == 0,
    {
        SignalAccumulator {
            last: None,
            stage_exp: exp_time,
            frames_in_stage: 0,
            history: Ghost(Seq::empty()),
        }
    }

    /// Starts the next stage at `exp_time`; the accumulated frame carries over.
    pub fn start_stage(&mut self, exp_time: u32)
        requires
            old(self).wf(),
        ensures
            final(self).wf(),
            final(self).frames() == old(self).frames(),
            final(self).spec_last() == old(self).spec_last(),
            final(self).spec_stage_exp() == exp_time,
            final(self).spec_frames_in_stage() == 0,
    {
        self.stage_exp = exp_time;
        self.frames_in_stage = 0;
    }

    /// Frames added in the current stage.
    pub fn frames_in_stage(&self) -> (r: u32)
        ensures
            r == self.spec_frames_in_stage(),
    {
        self.frames_in_stage
    }

    /// Whether `frame` can be added.
    pub fn accepts_frame(&self, frame: &RawImage) -> (r: bool)
        requires
            self.wf(),
            frame.wf(),
        ensures
            r == self.accepts(*frame),
    {
        match &self.last {
            Some(l) => frame.width == l.width && frame.height == l.height,
            None => true,
        }
    }

    /// Adds `frame` to the accumulated frame; returns the new accumulated frame and the
    /// exposure time it represents.
    pub fn add_frame(&mut self, frame: RawImage) -> (r: (RawImage, u32))
        requires
            old(self).wf(),
            old(self).accepts(frame),
            old(self).spec_frames_in_stage() < u32::MAX,
        ensures
            final(self).wf(),
            final(self).frames() == old(self).frames().push(frame),
            final(self).spec_stage_exp() == old(self).spec_stage_exp(),
            final(self).spec_frames_in_stage() == old(self).spec_frames_in_stage() + 1,
            final(self).spec_last() is Some,
            final(self).spec_last()->0.same_image(&r.0),
            r.0.wf(),
            r.0.same_dims(&frame),
            forall|i: int|
                0 <= i < r.0.pixels@.len() ==> r.0.pixels@[i] as int == accumulated_pixel(
                    final(self).frames(),
                    i,
                ),
            r.1 == accumulated_exp(
                old(self).spec_stage_exp(),
                old(self).spec_frames_in_stage() as int,
            ),
    {
        let ghost old_hist = self.history@;
        let ghost g = frame;
        proof {
            assert(old_hist.push(g).drop_last() =~= old_hist);
            assert(old_hist.push(g).last() == g);
        }
        let acc = match &self.last {
            None => {
                proof {
                    assert forall|i: int| 0 <= i < g.pixels@.len() implies g.pixels@[i] as int
                        == accumulated_pixel(old_hist.push(g), i) by {
                        assert(frames_sum(old_hist, i) == 0);
                        assert(g.pixels@[i] <= crate::image::MAX_PIXEL_VALUE);
                    }
                }
                frame
            },
            Some(prev) => {
                let a = frame.accumulate(prev);
                proof {
                    assert forall|i: int| 0 <= i < a.pixels@.len() implies a.pixels@[i] as int
                        == accumulated_pixel(old_hist.push(g), i) by {
                        lemma_frames_sum_nonneg(old_hist, i);
                        assert(prev.pixels@[i] as int == accumulated_pixel(old_hist, i));
                        assert(g.pixels@[i] <= crate::image::MAX_PIXEL_VALUE);
                    }
                }
                a
            },
        };
        let exp_now: u32 = match self.stage_exp.checked_mul(self.frames_in_stage + 1) {
            Some(v) => v,
            None => u32::MAX,
        };
        self.frames_in_stage = self.frames_in_stage + 1;
        proof {
            self.history = Ghost(old_hist.push(g));
            assert forall|k: int| 0 <= k < self.history@.len() implies (#[trigger] self.history@[k]).wf()
                && self.history@[k].same_dims(&acc) by {
                if k < old_hist.len() {
                    assert(self.history@[k] == old_hist[k]);
                }
            }
        }
        let out = acc.copy();
        self.last = Some(acc);
        (out, exp_now)
    }
}

/// Sums of pixel values over frames are never negative.
pub proof fn lemma_frames_sum_nonneg(frames: Seq<RawImage>, i: int)
    ensures
        frames_sum(frames, i) >= 0,
    decreases frames.len(),
{
    if frames.len() > 0 {
        lemma_frames_sum_nonneg(frames.drop_last(), i);
    }
}

/// Pixel sums over two runs of frames add up.
pub proof fn lemma_frames_sum_concat(a: Seq<RawImage>, b: Seq<RawImage>, i: int)
    ensures
        frames_sum(a + b, i) == frames_sum(a, i) + frames_sum(b, i),
    decreases b.len(),
{
    if b.len() > 0 {
        lemma_frames_sum_concat(a, b.drop_last(), i);
        assert((a + b).drop_last() =~= a + b.drop_last());
        assert((a + b).last() == b.last());
    } else {
        assert(a + b =~= a);
    }
}

/// Stage by stage: the accumulated frame after the frames `stage` of a stage equals the sum of
/// those frames and of the last accumulated frame of the stages before, clamped to 14 bits.
pub proof fn lemma_accumulation_by_stage(before: Seq<RawImage>, stage: Seq<RawImage>, i: int)
    ensures
        accumulated_pixel(before + stage, i) == clamp_pixel(
            (if before.len() == 0 {
                0
            } else {
                accumulated_pixel(before, i)
            }) + frames_sum(stage, i),
        ),
{
    lemma_frames_sum_concat(before, stage, i);
    lemma_frames_sum_nonneg(before, i);
    lemma_frames_sum_nonneg(stage, i);
    if before.len() == 0 {
        assert(frames_sum(before, i) == 0);
    }
}

} // verus!
