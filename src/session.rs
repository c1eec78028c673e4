use vstd::prelude::*;

use crate::capture::{CaptureSetting, FullWellMode};
use crate::image::{RawImage, average_frames, frames_sum, rounded_mean, uniform_stack};
use crate::protocols::{
    AdvancedCapture, CaptureProgress, CaptureResultData, CaptureStreamItem, CapturedImage,
    ImageMetadata, SignalAccumulationData, SignalAccumulator, SmartCaptureData, SmartSelection,
    accumulated_exp, accumulated_pixel, ratio_of,
};
use crate::stats::{Snr, is_snr_of, snr_gt};

verus! {

/// The decisions of one protocol run, stage by stage and frame by frame. The driver starts each
/// stage, runs it on the detector, hands every frame in, closes the stage, and finally asks for
/// the result.
pub struct CaptureSession {
    capture: AdvancedCapture,
    stages: Vec<CaptureSetting>,
    started: usize,
    active: bool,
    progress: CaptureProgress,
    results: Vec<CapturedImage>,
    selection: SmartSelection,
    best: Option<CapturedImage>,
    accumulator: SignalAccumulator,
    stack: Vec<RawImage>,
    count: usize,
    delivered_count: usize,
    frames: Ghost<Seq<RawImage>>,
    delivered: Ghost<Seq<CapturedImage>>,
}

/// The stage index of what `start_stage` returns.
pub open spec fn pair_index(p: (usize, Option<CaptureProgress>)) -> usize {
    p.0
}

/// The progress report of what `start_stage` returns.
pub open spec fn pair_progress(p: (usize, Option<CaptureProgress>)) -> Option<CaptureProgress> {
    p.1
}

/// A delivered frame carrying `setting` as its capture settings.
pub open spec fn carries(m: ImageMetadata, setting: CaptureSetting) -> bool {
    m.capture_settings is Some && m.capture_settings->0.same_as(&setting)
}

/// A protocol that delivers each frame it takes.
pub open spec fn delivers_frames(c: AdvancedCapture) -> bool {
    !(c is DarkMapCapture) && !(c is DefectMapCapture)
}

/// A protocol whose result holds every frame it delivered.
pub open spec fn keeps_frames(c: AdvancedCapture) -> bool {
    c is MultiCapture || c is SignalAccumulationCapture
}

/// The frame delivered for an item, if it is one.
pub open spec fn image_of(r: Option<CaptureStreamItem>) -> CapturedImage {
    r->0->Image_0
}

impl CaptureSession {
    pub closed spec fn spec_capture(&self) -> AdvancedCapture {
        self.capture
    }

    /// The stages of the protocol, in order.
    pub closed spec fn plan(&self) -> Seq<CaptureSetting> {
        self.stages@
    }

    /// How many stages have started.
    pub closed spec fn spec_started(&self) -> nat {
        self.started as nat
    }

    /// Whether a stage is running.
    pub closed spec fn spec_active(&self) -> bool {
        self.active
    }

    /// Every frame handed in, in order.
    pub closed spec fn frames(&self) -> Seq<RawImage> {
        self.frames@
    }

    /// Every frame delivered, in order.
    pub closed spec fn delivered(&self) -> Seq<CapturedImage> {
        self.delivered@
    }

    /// The frames kept for the result.
    pub closed spec fn kept(&self) -> Seq<CapturedImage> {
        self.results@
    }

    /// Frames of the running calibration stage.
    pub closed spec fn stack(&self) -> Seq<RawImage> {
        self.stack@
    }

    pub closed spec fn spec_accumulator(&self) -> SignalAccumulator {
        self.accumulator
    }

    /// The setting of the running stage.
    pub open spec fn stage(&self) -> CaptureSetting {
        self.plan()[self.spec_started() - 1]
    }

    pub closed spec fn wf(&self) -> bool {
        &&& self.stages@ == self.capture.plan()
        &&& self.stages@.len() < u32::MAX
        &&& self.started <= self.stages@.len()
        &&& (self.active ==> self.started >= 1)
        &&& self.progress.spec_current_step() == self.started
        &&& self.progress.spec_total_steps() == self.stages@.len()
        &&& self.selection.wf()
        &&& self.accumulator.wf()
        &&& (self.capture is SignalAccumulationCapture ==> self.accumulator.frames() == self.frames@)
        &&& (self.active ==> self.accumulator.spec_stage_exp() == self.stages@[self.started
            - 1].exp_time)
        &&& self.count == self.frames@.len()
        &&& self.delivered_count == self.delivered@.len()
        &&& (self.capture is SmartCapture ==> {
            &&& self.selection.offered().len() == self.delivered@.len()
            &&& forall|j: int|
                0 <= j < self.delivered@.len() ==> self.selection.offered()[j] == ratio_of(
                    #[trigger] self.delivered@[j],
                )
        })
        &&& (!(self.capture is SmartCapture) ==> self.selection.offered().len() == 0)
        &&& (self.best is Some <==> self.selection.spec_best() is Some)
        &&& (self.best is Some ==> {
            let (k, _) = self.selection.spec_best()->0;
            &&& k < self.delivered@.len()
            &&& self.best->0.same_as(&self.delivered@[k as int])
        })
        &&& forall|k: int| 0 <= k < self.stack@.len() ==> (#[trigger] self.stack@[k]).wf()
        &&& (self.stack@.len() > 0 ==> uniform_stack(
            self.stack@,
            self.stack@[0].width,
            self.stack@[0].height,
        ))
        &&& self.stack@.len() <= u32::MAX
        &&& (!keeps_frames(self.capture) ==> self.results@.len() == 0)
        &&& (keeps_frames(self.capture) ==> {
            &&& self.results@.len() == self.delivered@.len()
            &&& self.delivered@.len() == self.frames@.len()
            &&& forall|k: int|
                0 <= k < self.results@.len() ==> (#[trigger] self.results@[k]).same_as(
                    &self.delivered@[k],
                )
        })
        &&& (self.capture is MultiCapture ==> forall|k: int|
            0 <= k < self.delivered@.len() ==> (#[trigger] self.delivered@[k]).image.same_image(
                &self.frames@[k],
            ))
        &&& (self.capture is SignalAccumulationCapture ==> forall|k: int|
            0 <= k < self.delivered@.len() ==> {
                &&& (#[trigger] self.delivered@[k]).image.wf()
                &&& forall|i: int|
                    0 <= i < self.delivered@[k].image.pixels@.len()
                        ==> self.delivered@[k].image.pixels@[i] as int == accumulated_pixel(
                        self.frames@.subrange(0, k + 1),
                        i,
                    )
            })
    }

    /// A frame the session can take now: valid, during a stage, and of the same size as the
    /// frames it is combined with.
    pub open spec fn accepts(&self, frame: RawImage) -> bool {
        &&& frame.wf()
        &&& self.spec_active()
        &&& self.frames().len() < usize::MAX
        &&& self.delivered().len() < usize::MAX
        &&& (self.spec_capture() is SignalAccumulationCapture ==> {
            &&& self.spec_accumulator().accepts(frame)
            &&& self.spec_accumulator().spec_frames_in_stage() < u32::MAX
        })
        &&& (self.stack().len() > 0 ==> frame.same_dims(&self.stack()[0]))
        &&& self.stack().len() < u32::MAX
    }

    /// A session of `capture`, before its first stage.
    pub fn new(capture: AdvancedCapture) -> (r: CaptureSession)
        requires
            capture.plan().len() < u32::MAX,
            match capture {
                AdvancedCapture::DefectMapCapture(c) => c.exp_times@.len() * 2 <= usize::MAX,
                _ => true,
            },
        ensures
            r.wf(),
            r.spec_capture() == capture,
            r.plan() == capture.plan(),
            r.spec_started() == 0,
            !r.spec_active(),
            r.frames().len() == 0,
            r.delivered().len() == 0,
            r.kept().len() == 0,
            r.stack().len() == 0,
            r.spec_accumulator().spec_frames_in_stage() == 0,
            r.spec_accumulator().spec_last() is None,
    {
        let stages = capture.stages();
        let total = stages.len() as u32;
        let first_exp = if stages.len() > 0 {
            stages[0].exp_time
        } else {
            0
        };
        let accumulator = SignalAccumulator::new(first_exp);
        let selection = SmartSelection::new();
        proof {
            assert(accumulator.frames() =~= Seq::<RawImage>::empty());
        }
        let r = CaptureSession {
            capture,
            stages,
            started: 0,
            active: false,
            progress: CaptureProgress::new(total, String::new()),
            results: Vec::new(),
            selection,
            best: None,
            accumulator,
            stack: Vec::new(),
            count: 0,
            delivered_count: 0,
            frames: Ghost(Seq::empty()),
            delivered: Ghost(Seq::empty()),
        };
        proof {
            assert(r.stack@ =~= Seq::<RawImage>::empty());
            assert(r.results@ =~= Seq::<CapturedImage>::empty());
        }
        r
    }

    /// Starts the next stage, if any: returns its index and the progress to report, which
    /// carries `message`. A live capture reports no progress.
    pub fn start_stage(&mut self, message: String) -> (r: Option<(usize, Option<CaptureProgress>)>)
        requires
            old(self).wf(),
        ensures
            final(self).wf(),
            final(self).spec_capture() == old(self).spec_capture(),
            final(self).plan() == old(self).plan(),
            final(self).frames() == old(self).frames(),
            final(self).delivered() == old(self).delivered(),
            final(self).kept() == old(self).kept(),
            final(self).spec_accumulator().spec_last() == old(self).spec_accumulator().spec_last(),
            old(self).spec_started() == old(self).plan().len() ==> r is None
                && !final(self).spec_active()
                && final(self).spec_started() == old(self).spec_started()
                && final(self).stack() == old(self).stack()
                && final(self).spec_accumulator() == old(self).spec_accumulator(),
            old(self).spec_started() < old(self).plan().len() ==> {
                &&& r is Some
                &&& final(self).spec_active()
                &&& final(self).spec_started() == old(self).spec_started() + 1
                &&& final(self).stack().len() == 0
                &&& final(self).spec_accumulator().spec_frames_in_stage() == 0
                &&& pair_index(r->0) == old(self).spec_started()
                &&& (old(self).spec_capture() is LiveCapture <==> pair_progress(r->0) is None)
                &&& (pair_progress(r->0) is Some ==> {
                    let p = pair_progress(r->0)->0;
                    &&& p.spec_current_step() == final(self).spec_started()
                    &&& p.spec_total_steps() == old(self).plan().len()
                    &&& p.spec_message() == message@
                })
            },
    {
        if self.started >= self.stages.len() {
            self.active = false;
            return None;
        }
        let index = self.started;
        self.started = self.started + 1;
        self.active = true;
        self.stack = Vec::new();
        let exp = self.stages[index].exp_time;
        self.accumulator.start_stage(exp);
        let p = self.progress.update(message);
        let report = match self.capture {
            AdvancedCapture::LiveCapture(_) => None,
            _ => Some(p),
        };
        proof {
            assert(self.stack@ =~= Seq::<RawImage>::empty());
        }
        Some((index, report))
    }

    /// The setting of stage `i`.
    pub fn stage_setting(&self, i: usize) -> (r: &CaptureSetting)
        requires
            self.wf(),
            i < self.plan().len(),
        ensures
            *r == self.plan()[i as int],
    {
        &self.stages[i]
    }

    /// How many stages have started.
    pub fn stages_started(&self) -> (r: usize)
        ensures
            r == self.spec_started(),
    {
        self.started
    }

    /// How many stages the protocol has.
    pub fn stage_count(&self) -> (r: usize)
        requires
            self.wf(),
        ensures
            r == self.plan().len(),
    {
        self.stages.len()
    }

    /// Whether `frame` can be handed in now.
    pub fn can_accept(&self, frame: &RawImage) -> (r: bool)
        requires
            self.wf(),
            frame.wf(),
        ensures
            r == self.accepts(*frame),
    {
        let combined = match self.capture {
            AdvancedCapture::SignalAccumulationCapture(_) => self.accumulator.accepts_frame(frame)
                && self.accumulator.frames_in_stage() < u32::MAX,
            _ => true,
        };
        let stacked = self.stack.len() == 0 || (frame.width == self.stack[0].width && frame.height
            == self.stack[0].height);
        self.active && combined && stacked && self.stack.len() < u32::MAX as usize && self.count
            < usize::MAX && self.delivered_count < usize::MAX
    }

    /// A stage is running and its setting is at hand.
    closed spec fn stage_ready(&self) -> bool {
        self.active && 1 <= self.started <= self.stages@.len()
    }

    /// Metadata for a frame of the running stage.
    fn stage_metadata(&self, date_created: Option<i64>, extra_info: Option<CaptureResultData>) -> (r:
        ImageMetadata)
        requires
            self.stage_ready(),
        ensures
            carries(r, self.stage()),
            r.date_created == date_created,
            r.extra_info == extra_info,
    {
        ImageMetadata {
            capture_settings: Some(self.stages[self.started - 1].copy()),
            date_created,
            extra_info,
        }
    }

    /// Takes the next frame of the running stage and returns what to deliver for it:
    /// a multi or live capture delivers the frame; a signal accumulation delivers the frame
    /// added to everything before it, with its accumulated exposure; a smart capture delivers
    /// the frame as scored (median-filtered when asked) with its signal-to-noise report and
    /// keeps it when it is the best so far (a frame smaller than the window has no report and
    /// counts with ratio zero); a calibration capture stacks the frame and delivers nothing.
    /// A multi capture and a signal accumulation keep a copy of what they deliver for the
    /// result.
    pub fn on_frame(&mut self, frame: RawImage, date_created: Option<i64>) -> (r: Option<
        CaptureStreamItem,
    >)
        requires
            old(self).wf(),
            old(self).accepts(frame),
        ensures
            final(self).wf(),
            final(self).spec_capture() == old(self).spec_capture(),
            final(self).plan() == old(self).plan(),
            final(self).spec_started() == old(self).spec_started(),
            final(self).spec_active(),
            final(self).frames() == old(self).frames().push(frame),
            delivers_frames(old(self).spec_capture()) ==> {
                &&& r is Some
                &&& r->0 is Image
                &&& final(self).delivered() == old(self).delivered().push(image_of(r))
                &&& image_of(r).metadata.date_created == date_created
                &&& carries(image_of(r).metadata, old(self).stage())
                &&& final(self).stack() == old(self).stack()
            },
            !delivers_frames(old(self).spec_capture()) ==> r is None && final(self).delivered()
                == old(self).delivered() && final(self).stack() == old(self).stack().push(frame),
            keeps_frames(old(self).spec_capture()) ==> {
                &&& final(self).kept().len() == old(self).kept().len() + 1
                &&& final(self).kept() == old(self).kept().push(final(self).kept().last())
                &&& final(self).kept().last().same_as(&image_of(r))
            },
            !keeps_frames(old(self).spec_capture()) ==> final(self).kept() == old(self).kept(),
            !(old(self).spec_capture() is SignalAccumulationCapture) ==> final(self).spec_accumulator() == old(self).spec_accumulator(),
            match old(self).spec_capture() {
                AdvancedCapture::MultiCapture(_) | AdvancedCapture::LiveCapture(_) => {
                    let ci = image_of(r);
                    ci.image.same_image(&frame) && ci.metadata.extra_info is None
                },
                AdvancedCapture::SignalAccumulationCapture(_) => {
                    let ci = image_of(r);
                    let acc = final(self).spec_accumulator();
                    &&& ci.image.wf()
                    &&& ci.image.same_dims(&frame)
                    &&& forall|i: int|
                        0 <= i < ci.image.pixels@.len() ==> ci.image.pixels@[i] as int
                            == accumulated_pixel(final(self).frames(), i)
                    &&& ci.metadata.extra_info == Some(
                        CaptureResultData::SignalAccumulationData(
                            SignalAccumulationData {
                                accumulated_exp_time: accumulated_exp(
                                    old(self).stage().exp_time,
                                    old(self).spec_accumulator().spec_frames_in_stage() as int,
                                ) as u32,
                            },
                        ),
                    )
                    &&& acc.spec_frames_in_stage() == old(self).spec_accumulator().spec_frames_in_stage() + 1
                    &&& acc.spec_last() is Some
                    &&& acc.spec_last()->0.same_image(&ci.image)
                },
                AdvancedCapture::SmartCapture(c) => {
                    let ci = image_of(r);
                    &&& ci.image.wf()
                    &&& (c.median_filtered ==> crate::filters::is_median_filtered(frame, ci.image))
                    &&& (!c.median_filtered ==> ci.image.same_image(&frame))
                    &&& (ci.metadata.extra_info is Some <==> 1 <= c.window_size
                        <= ci.image.width && c.window_size <= ci.image.height)
                    &&& (ci.metadata.extra_info is Some ==> {
                        let d = ci.metadata.extra_info->0->SmartCaptureData_0;
                        &&& ci.metadata.extra_info->0 is SmartCaptureData
                        &&& is_snr_of(
                            ci.image,
                            c.window_size as int,
                            crate::stats::SnrResult {
                                signal_noise_ratio: d.signal_noise_ratio,
                                background_rect: d.background_rect,
                                foreground_rect: d.foreground_rect,
                            },
                        )
                    })
                },
                _ => true,
            },
    {
        let ghost g = frame;
        let ghost old_frames = self.frames@;
        let ghost old_delivered = self.delivered@;
        proof {
            self.frames = Ghost(old_frames.push(g));
        }
        self.count = self.count + 1;
        let ghost old_results = self.results@;
        match &self.capture {
            AdvancedCapture::MultiCapture(_) => {
                let metadata = self.stage_metadata(date_created, None);
                let item = CapturedImage { image: frame, metadata };
                let kept = item.copy();
                self.results.push(kept);
                self.record_delivery(&item);
                proof {
                    assert(self.results@.subrange(0, old_results.len() as int) =~= old_results);
                    self.lemma_kept_follow(old_results, old_delivered);
                    assert forall|k: int| 0 <= k < self.delivered@.len() implies (#[trigger] self.delivered@[k]).image.same_image(
                        &self.frames@[k],
                    ) by {
                        if k < old_delivered.len() {
                            assert(self.delivered@[k] == old_delivered[k]);
                        }
                    }
                }
                Some(CaptureStreamItem::Image(item))
            },
            AdvancedCapture::LiveCapture(_) => {
                let metadata = self.stage_metadata(date_created, None);
                let item = CapturedImage { image: frame, metadata };
                self.record_delivery(&item);
                Some(CaptureStreamItem::Image(item))
            },
            AdvancedCapture::SignalAccumulationCapture(_) => {
                let (acc, exp) = self.accumulator.add_frame(frame);
                let extra = Some(
                    CaptureResultData::SignalAccumulationData(
                        SignalAccumulationData { accumulated_exp_time: exp },
                    ),
                );
                let metadata = self.stage_metadata(date_created, extra);
                let item = CapturedImage { image: acc, metadata };
                let kept = item.copy();
                self.results.push(kept);
                self.record_delivery(&item);
                proof {
                    assert(self.results@.subrange(0, old_results.len() as int) =~= old_results);
                    self.lemma_kept_follow(old_results, old_delivered);
                    assert forall|k: int| 0 <= k < self.delivered@.len() implies {
                        &&& (#[trigger] self.delivered@[k]).image.wf()
                        &&& forall|i: int|
                            0 <= i < self.delivered@[k].image.pixels@.len()
                                ==> self.delivered@[k].image.pixels@[i] as int == accumulated_pixel(
                                self.frames@.subrange(0, k + 1),
                                i,
                            )
                    } by {
                        if k < old_delivered.len() {
                            assert(self.delivered@[k] == old_delivered[k]);
                            assert(self.frames@.subrange(0, k + 1) =~= old_frames.subrange(0, k + 1));
                        } else {
                            assert(self.frames@.subrange(0, k + 1) =~= self.frames@);
                        }
                    }
                }
                Some(CaptureStreamItem::Image(item))
            },
            AdvancedCapture::SmartCapture(c) => {
                let (scored, res) = c.score_frame(frame);
                proof {
                    assert(scored.same_dims(&g));
                    match res {
                        Err(crate::stats::SnrError::EmptyWindow) => {},
                        Err(crate::stats::SnrError::WindowTooLarge) => {},
                        Ok(_) => {},
                    }
                }
                let extra = match res {
                    Ok(r) => Some(
                        CaptureResultData::SmartCaptureData(
                            SmartCaptureData {
                                signal_noise_ratio: r.signal_noise_ratio,
                                background_rect: r.background_rect,
                                foreground_rect: r.foreground_rect,
                            },
                        ),
                    ),
                    Err(_) => None,
                };
                let ratio = match res {
                    Ok(r) => r.signal_noise_ratio,
                    Err(_) => Snr { num: 0, den: 0 },
                };
                let metadata = self.stage_metadata(date_created, extra);
                let item = CapturedImage { image: scored, metadata };
                proof {
                    assert(ratio == ratio_of(item));
                }
                let ghost old_offered = self.selection.offered();
                let became_best = self.selection.offer(ratio);
                if became_best {
                    self.best = Some(item.copy());
                }
                self.record_delivery(&item);
                proof {
                    assert forall|j: int| 0 <= j < self.delivered@.len() implies self.selection.offered()[j]
                        == ratio_of(#[trigger] self.delivered@[j]) by {
                        if j < old_delivered.len() {
                            assert(self.delivered@[j] == old_delivered[j]);
                            assert(self.selection.offered()[j] == old_offered[j]);
                        }
                    }
                    if !became_best && self.best is Some {
                        let (k, _) = self.selection.spec_best()->0;
                        assert(self.delivered@[k as int] == old_delivered[k as int]);
                    }
                }
                Some(CaptureStreamItem::Image(item))
            },
            AdvancedCapture::DarkMapCapture(_) | AdvancedCapture::DefectMapCapture(_) => {
                let ghost old_stack = self.stack@;
                self.stack.push(frame);
                proof {
                    assert forall|k: int| 0 <= k < self.stack@.len() implies (#[trigger] self.stack@[k]).wf() by {
                        if k < old_stack.len() {
                            assert(self.stack@[k] == old_stack[k]);
                        }
                    }
                    assert(uniform_stack(self.stack@, self.stack@[0].width, self.stack@[0].height)) by {
                        assert forall|k: int| 0 <= k < self.stack@.len() implies (#[trigger] self.stack@[k]).wf()
                            && self.stack@[k].width == self.stack@[0].width && self.stack@[k].height
                            == self.stack@[0].height by {
                            if k < old_stack.len() {
                                assert(self.stack@[k] == old_stack[k]);
                            }
                        }
                    }
                }
                None
            },
        }
    }

    /// Records a delivered frame.
    fn record_delivery(&mut self, item: &CapturedImage)
        requires
            old(self).delivered_count < usize::MAX,
            old(self).delivered_count == old(self).delivered@.len(),
        ensures
            final(self).delivered@ == old(self).delivered@.push(*item),
            final(self).delivered_count == final(self).delivered@.len(),
            final(self).capture == old(self).capture,
            final(self).stages == old(self).stages,
            final(self).started == old(self).started,
            final(self).active == old(self).active,
            final(self).progress == old(self).progress,
            final(self).results == old(self).results,
            final(self).selection == old(self).selection,
            final(self).best == old(self).best,
            final(self).accumulator == old(self).accumulator,
            final(self).stack == old(self).stack,
            final(self).count == old(self).count,
            final(self).frames == old(self).frames,
    {
        proof {
            self.delivered = Ghost(self.delivered@.push(*item));
        }
        self.delivered_count = self.delivered_count + 1;
    }

    /// After a kept frame and its delivery, each kept frame still matches its delivery.
    proof fn lemma_kept_follow(&self, old_results: Seq<CapturedImage>, old_delivered: Seq<CapturedImage>)
        requires
            old_results.len() == old_delivered.len(),
            forall|k: int|
                0 <= k < old_results.len() ==> (#[trigger] old_results[k]).same_as(
                    &old_delivered[k],
                ),
            self.results@.len() == old_results.len() + 1,
            self.results@.subrange(0, old_results.len() as int) == old_results,
            self.delivered@ == old_delivered.push(self.delivered@.last()),
            self.results@.last().same_as(&self.delivered@.last()),
        ensures
            self.results@.len() == self.delivered@.len(),
            forall|k: int|
                0 <= k < self.results@.len() ==> (#[trigger] self.results@[k]).same_as(
                    &self.delivered@[k],
                ),
    {
        assert forall|k: int| 0 <= k < self.results@.len() implies (#[trigger] self.results@[k]).same_as(
            &self.delivered@[k],
        ) by {
            if k < old_results.len() {
                assert(self.results@[k] == self.results@.subrange(0, old_results.len() as int)[k]);
                assert(self.delivered@[k] == old_delivered[k]);
            }
        }
    }

    /// Closes the running stage. A calibration stage that received frames returns its
    /// exposure time, full-well mode and the per-pixel mean of its frames.
    pub fn finish_stage(&mut self) -> (r: Option<StageAverage>)
        requires
            old(self).wf(),
        ensures
            final(self).wf(),
            !final(self).spec_active(),
            final(self).spec_capture() == old(self).spec_capture(),
            final(self).plan() == old(self).plan(),
            final(self).spec_started() == old(self).spec_started(),
            final(self).frames() == old(self).frames(),
            final(self).delivered() == old(self).delivered(),
            final(self).kept() == old(self).kept(),
            final(self).stack() == old(self).stack(),
            final(self).spec_accumulator() == old(self).spec_accumulator(),
            r is Some <==> (old(self).spec_active() && !delivers_frames(old(self).spec_capture())
                && old(self).stack().len() > 0),
            r is Some ==> {
                let a = r->0;
                let st = old(self).stack();
                &&& a.exp_time == old(self).stage().exp_time
                &&& a.full_well == old(self).stage().full_well
                &&& a.image.wf()
                &&& a.image.same_dims(&st[0])
                &&& forall|i: int|
                    0 <= i < a.image.pixels@.len() ==> a.image.pixels@[i] as int == rounded_mean(
                        frames_sum(st, i),
                        st.len() as int,
                    )
            },
    {
        let was_active = self.active;
        self.active = false;
        let calibration = match self.capture {
            AdvancedCapture::DarkMapCapture(_) | AdvancedCapture::DefectMapCapture(_) => true,
            _ => false,
        };
        if !was_active || !calibration || self.stack.len() == 0 {
            return None;
        }
        let image = average_frames(&self.stack);
        let setting = &self.stages[self.started - 1];
        Some(StageAverage { exp_time: setting.exp_time, full_well: setting.full_well, image })
    }

    /// The protocol's final result: every kept frame for a multi capture and a signal
    /// accumulation; for a smart capture the first delivered frame of highest ratio, or an
    /// empty result when none was delivered; nothing for the other protocols.
    pub fn finish(self) -> (r: Option<CaptureStreamItem>)
        requires
            self.wf(),
        ensures
            keeps_frames(self.spec_capture()) ==> {
                let v = r->0->CaptureResult_0@;
                &&& r is Some
                &&& r->0 is CaptureResult
                &&& v == self.kept()
                &&& v.len() == self.delivered().len()
                &&& forall|k: int|
                    0 <= k < v.len() ==> (#[trigger] v[k]).same_as(&self.delivered()[k])
            },
            self.spec_capture() is SmartCapture ==> {
                let v = r->0->CaptureResult_0@;
                let d = self.delivered();
                &&& r is Some
                &&& r->0 is CaptureResult
                &&& (v.len() == 0 <==> d.len() == 0)
                &&& v.len() <= 1
                &&& (v.len() == 1 ==> exists|k: int|
                    0 <= k < d.len() && v[0].same_as(&#[trigger] d[k]) && (forall|j: int|
                        0 <= j < d.len() ==> !snr_gt(ratio_of(#[trigger] d[j]), ratio_of(v[0])))
                        && (forall|j: int|
                        0 <= j < k ==> snr_gt(ratio_of(v[0]), ratio_of(#[trigger] d[j]))))
            },
            !keeps_frames(self.spec_capture()) && !(self.spec_capture() is SmartCapture) ==> r
                is None,
    {
        proof {
            self.selection.lemma_holds_best();
        }
        match self.capture {
            AdvancedCapture::MultiCapture(_) | AdvancedCapture::SignalAccumulationCapture(_) => {
                Some(CaptureStreamItem::CaptureResult(self.results))
            },
            AdvancedCapture::SmartCapture(_) => {
                let mut v: Vec<CapturedImage> = Vec::new();
                match self.best {
                    Some(b) => {
                        v.push(b);
                        proof {
                            let (k, s) = self.selection.spec_best()->0;
                            let d = self.delivered();
                            assert(ratio_of(v@[0]) == ratio_of(d[k as int]));
                            assert(s == self.selection.offered()[k as int]);
                            assert(v@[0].same_as(&d[k as int]));
                            assert forall|j: int| 0 <= j < d.len() implies !snr_gt(
                                ratio_of(#[trigger] d[j]),
                                ratio_of(v@[0]),
                            ) by {
                                assert(self.selection.offered()[j] == ratio_of(d[j]));
                            }
                            assert forall|j: int| 0 <= j < k implies snr_gt(
                                ratio_of(v@[0]),
                                ratio_of(#[trigger] d[j]),
                            ) by {
                                assert(self.selection.offered()[j] == ratio_of(d[j]));
                            }
                            let kk = k as int;
                            assert(0 <= kk < d.len() && v@[0].same_as(&d[kk]) && (forall|j: int|
                                0 <= j < d.len() ==> !snr_gt(ratio_of(#[trigger] d[j]), ratio_of(v@[0])))
                                && (forall|j: int|
                                0 <= j < kk ==> snr_gt(ratio_of(v@[0]), ratio_of(#[trigger] d[j]))));
                        }
                    },
                    None => {},
                }
                Some(CaptureStreamItem::CaptureResult(v))
            },
            _ => None,
        }
    }
}

/// The averaged frame of one calibration stage.
#[derive(Clone, Debug)]
pub struct StageAverage {
    pub exp_time: u32,
    pub full_well: FullWellMode,
    pub image: RawImage,
}

} // verus!
