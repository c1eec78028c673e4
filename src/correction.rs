use vstd::prelude::*;

use crate::capture::CorrectionError;
use crate::image::RawImage;

verus! {

/// Offset that the SDK's offset correction adds back after subtracting the dark map.
pub const DARK_CORRECTION_OFFSET: u16 = 300;

/// The averaged dark frame for one exposure time.
#[derive(Clone, Debug)]
pub struct DarkMap {
    pub exp_time: u32,
    pub image: RawImage,
}

/// Exposure times in strictly increasing order.
pub open spec fn strictly_sorted(s: Seq<u32>) -> bool {
    forall|i: int, j: int| 0 <= i < j < s.len() ==> s[i] < s[j]
}

/// The exposure times of a list of dark maps, in list order.
pub open spec fn exp_times_of(maps: Seq<DarkMap>) -> Seq<u32> {
    maps.map_values(|d: DarkMap| d.exp_time)
}

/// The dark maps, one per exposure time kept in increasing order, and the defect map.
#[derive(Clone, Debug)]
pub struct CorrectionMaps {
    dark_maps: Vec<DarkMap>,
    defect_map: Option<RawImage>,
}

impl CorrectionMaps {
    /// The dark maps in increasing order of exposure time.
    pub closed spec fn dark_seq(&self) -> Seq<DarkMap> {
        self.dark_maps@
    }

    /// The defect map, if one is held.
    pub closed spec fn defect(&self) -> Option<RawImage> {
        self.defect_map
    }

    /// Exposure times that have a dark map, in increasing order.
    pub open spec fn exp_times(&self) -> Seq<u32> {
        exp_times_of(self.dark_seq())
    }

    /// The maps' invariant: one dark map per exposure time, sorted, and every frame valid.
    pub open spec fn wf(&self) -> bool {
        &&& strictly_sorted(self.exp_times())
        &&& forall|i: int| 0 <= i < self.dark_seq().len() ==> (#[trigger] self.dark_seq()[i]).image.wf()
        &&& (self.defect() is Some ==> self.defect()->0.wf())
    }

    /// Maps with no dark map and no defect map.
    pub fn new() -> (r: CorrectionMaps)
        ensures
            r.wf(),
            r.dark_seq().len() == 0,
            r.defect() is None,
    {
        CorrectionMaps { dark_maps: Vec::new(), defect_map: None }
    }

    /// Where the dark map for `exp_time` stands, if there is one.
    pub fn dark_map_index(&self, exp_time: u32) -> (r: Option<usize>)
        requires
            self.wf(),
        ensures
            r is Some ==> r->0 < self.dark_seq().len() && self.exp_times()[r->0 as int]
                == exp_time,
            r is None ==> !self.exp_times().contains(exp_time),
    {
        let mut i: usize = 0;
        while i < self.dark_maps.len()
            invariant
                0 <= i <= self.dark_maps@.len(),
                forall|j: int| 0 <= j < i ==> self.dark_maps@[j].exp_time != exp_time,
            decreases self.dark_maps@.len() - i,
        {
            if self.dark_maps[i].exp_time == exp_time {
                return Some(i);
            }
            i = i + 1;
        }
        proof {
            if self.exp_times().contains(exp_time) {
                let k = choose|k: int| 0 <= k < self.exp_times().len() && self.exp_times()[k] == exp_time;
                assert(self.dark_maps@[k].exp_time == exp_time);
            }
        }
        None
    }

    /// Whether a dark map is held for `exp_time`.
    pub fn has_dark_map(&self, exp_time: u32) -> (r: bool)
        requires
            self.wf(),
        ensures
            r == self.exp_times().contains(exp_time),
    {
        match self.dark_map_index(exp_time) {
            Some(i) => {
                proof {
                    assert(self.exp_times()[i as int] == exp_time);
                }
                true
            },
            None => false,
        }
    }

    /// Whether a defect map is held.
    pub fn has_defect_map(&self) -> (r: bool)
        ensures
            r == self.defect() is Some,
    {
        self.defect_map.is_some()
    }

    /// The exposure times that have a dark map, in increasing order.
    pub fn get_dark_map_exp_times(&self) -> (r: Vec<u32>)
        requires
            self.wf(),
        ensures
            r@ == self.exp_times(),
            strictly_sorted(r@),
    {
        let mut out: Vec<u32> = Vec::new();
        let mut i: usize = 0;
        while i < self.dark_maps.len()
            invariant
                0 <= i <= self.dark_maps@.len(),
                out@ == exp_times_of(self.dark_maps@.subrange(0, i as int)),
            decreases self.dark_maps@.len() - i,
        {
            out.push(self.dark_maps[i].exp_time);
            i = i + 1;
            assert(out@ =~= exp_times_of(self.dark_maps@.subrange(0, i as int)));
        }
        assert(self.dark_maps@.subrange(0, i as int) =~= self.dark_maps@);
        out
    }

    /// Stores `image` as the dark map for `exp_time`, replacing any map for that time and
    /// keeping the exposure times in order.
    pub fn set_dark_map(&mut self, exp_time: u32, image: RawImage)
        requires
            old(self).wf(),
            image.wf(),
        ensures
            final(self).wf(),
            final(self).defect() == old(self).defect(),
            ({
                let k = old(self).exp_times().filter(|e: u32| e < exp_time).len();
                let entry = DarkMap { exp_time, image };
                if old(self).exp_times().contains(exp_time) {
                    final(self).dark_seq() == old(self).dark_seq().update(k as int, entry)
                } else {
                    final(self).dark_seq() == old(self).dark_seq().insert(k as int, entry)
                }
            }),
            final(self).exp_times().contains(exp_time),
    {
        let ghost old_times = self.exp_times();
        let mut k: usize = 0;
        while k < self.dark_maps.len() && self.dark_maps[k].exp_time < exp_time
            invariant
                0 <= k <= self.dark_maps@.len(),
                self.exp_times() == old_times,
                strictly_sorted(old_times),
                forall|j: int| 0 <= j < k ==> self.dark_maps@[j].exp_time < exp_time,
            decreases self.dark_maps@.len() - k,
        {
            k = k + 1;
        }
        proof {
            lemma_filter_below(old_times, exp_time, k as int);
        }
        let entry = DarkMap { exp_time, image };
        let ghost old_seq = self.dark_maps@;
        if k < self.dark_maps.len() && self.dark_maps[k].exp_time == exp_time {
            self.dark_maps.set(k, entry);
            proof {
                assert(old_times.contains(exp_time)) by {
                    assert(old_times[k as int] == exp_time);
                }
                assert(self.exp_times() =~= old_times.update(k as int, exp_time));
                assert(self.exp_times()[k as int] == exp_time);
            }
        } else {
            self.dark_maps.insert(k, entry);
            proof {
                assert(!old_times.contains(exp_time)) by {
                    if old_times.contains(exp_time) {
                        let j = choose|j: int| 0 <= j < old_times.len() && old_times[j] == exp_time;
                        if j < k {
                        } else if j > k {
                            assert(old_times[k as int] < old_times[j]);
                        }
                    }
                }
                assert(self.exp_times() =~= old_times.insert(k as int, exp_time));
                assert(self.exp_times()[k as int] == exp_time);
            }
        }
    }

    /// Stores `image` as the defect map.
    pub fn set_defect_map(&mut self, image: RawImage)
        requires
            old(self).wf(),
            image.wf(),
        ensures
            final(self).wf(),
            final(self).dark_seq() == old(self).dark_seq(),
            final(self).defect() == Some(image),
    {
        self.defect_map = Some(image);
    }

    /// The defect map, if one is held.
    pub fn defect_map(&self) -> (r: Option<&RawImage>)
        ensures
            r is Some <==> self.defect() is Some,
            r is Some ==> *r->0 == self.defect()->0,
    {
        self.defect_map.as_ref()
    }

    /// Subtracts the dark map for `exp_time` from `image`, with the SDK's offset of 300.
    pub fn dark_correct_image(&self, image: &RawImage, exp_time: u32) -> (r: Result<
        RawImage,
        CorrectionError,
    >)
        requires
            self.wf(),
            image.wf(),
        ensures
            !self.exp_times().contains(exp_time) <==> r == Err::<RawImage, CorrectionError>(
                CorrectionError::FileNotFound,
            ),
            self.exp_times().contains(exp_time) ==> exists|i: int|
                0 <= i < self.dark_seq().len() && self.exp_times()[i] == exp_time && ({
                    let dark = #[trigger] self.dark_seq()[i].image;
                    &&& (!image.same_dims(&dark) <==> r == Err::<RawImage, CorrectionError>(
                        CorrectionError::SizeMismatch,
                    ))
                    &&& (r is Ok ==> r->Ok_0.wf() && r->Ok_0.same_dims(image) && forall|p: int|
                        0 <= p < image.pixels@.len() ==> r->Ok_0.pixels@[p] as int
                            == crate::image::clamp_pixel(
                            image.pixels@[p] + DARK_CORRECTION_OFFSET - dark.pixels@[p],
                        ))
                }),
    {
        match self.dark_map_index(exp_time) {
            None => Err(CorrectionError::FileNotFound),
            Some(i) => {
                let dark = &self.dark_maps[i].image;
                proof {
                    assert(self.exp_times()[i as int] == exp_time);
                    assert(self.dark_seq()[i as int].image.wf());
                }
                if image.width != dark.width || image.height != dark.height {
                    Err(CorrectionError::SizeMismatch)
                } else {
                    Ok(image.dark_correct(dark, DARK_CORRECTION_OFFSET))
                }
            },
        }
    }

    /// The per-frame correction of a capture stream: an uncorrected capture passes frames
    /// through; a corrected one subtracts the dark map for its exposure time, and passes the
    /// frame through unchanged when no usable dark map is held.
    pub fn correct_frame(&self, corrected: bool, exp_time: u32, frame: RawImage) -> (r: RawImage)
        requires
            self.wf(),
            frame.wf(),
        ensures
            r.wf(),
            r.same_dims(&frame),
            !corrected ==> r.same_image(&frame),
            corrected ==> ({
                let c = exists|i: int|
                    0 <= i < self.dark_seq().len() && self.exp_times()[i] == exp_time
                        && #[trigger] self.dark_seq()[i].image.same_dims(&frame);
                &&& (!c ==> r.same_image(&frame))
                &&& (c ==> exists|i: int|
                    0 <= i < self.dark_seq().len() && self.exp_times()[i] == exp_time && ({
                        let dark = #[trigger] self.dark_seq()[i].image;
                        forall|p: int|
                            0 <= p < frame.pixels@.len() ==> r.pixels@[p] as int
                                == crate::image::clamp_pixel(
                                frame.pixels@[p] + DARK_CORRECTION_OFFSET - dark.pixels@[p],
                            )
                    }))
            }),
    {
        if !corrected {
            return frame;
        }
        match self.dark_map_index(exp_time) {
            None => {
                proof {
                    assert forall|j: int| 0 <= j < self.dark_seq().len() implies self.exp_times()[j]
                        != exp_time by {
                        if self.exp_times()[j] == exp_time {
                            assert(self.exp_times().contains(exp_time));
                        }
                    }
                }
                frame
            },
            Some(i) => {
                let dark = &self.dark_maps[i].image;
                proof {
                    assert(self.exp_times()[i as int] == exp_time);
                    assert(self.dark_seq()[i as int].image.wf());
                    assert forall|j: int|
                        0 <= j < self.dark_seq().len() && self.exp_times()[j] == exp_time implies j
                        == i by {
                        if j < i {
                            assert(self.exp_times()[j] < self.exp_times()[i as int]);
                        } else if j > i {
                            assert(self.exp_times()[i as int] < self.exp_times()[j]);
                        }
                    }
                }
                if frame.width != dark.width || frame.height != dark.height {
                    frame
                } else {
                    let r = frame.dark_correct(dark, DARK_CORRECTION_OFFSET);
                    proof {
                        assert(self.dark_seq()[i as int].image.same_dims(&frame));
                    }
                    r
                }
            },
        }
    }
}

/// In a sorted list whose first `k` times are below `e` and whose `k`-th is not, exactly `k`
/// times are below `e`.
pub proof fn lemma_filter_below(s: Seq<u32>, e: u32, k: int)
    requires
        strictly_sorted(s),
        0 <= k <= s.len(),
        forall|j: int| 0 <= j < k ==> s[j] < e,
        k < s.len() ==> s[k] >= e,
    ensures
        s.filter(|x: u32| x < e).len() == k,
    decreases s.len(),
{
    reveal(Seq::filter);
    if s.len() > 0 {
        if k == s.len() {
            lemma_filter_below(s.drop_last(), e, k - 1);
        } else {
            lemma_filter_below(s.drop_last(), e, k);
        }
    }
}

/// Dark correction with a dark map that sits exactly at the SDK's offset level leaves every
/// pixel of a valid frame as it was.
pub proof fn lemma_dark_correct_at_offset_is_identity(image: RawImage, dark: RawImage)
    requires
        image.wf(),
        dark.wf(),
        image.same_dims(&dark),
        forall|i: int| 0 <= i < dark.pixels@.len() ==> dark.pixels@[i] == DARK_CORRECTION_OFFSET,
    ensures
        forall|i: int|
            0 <= i < image.pixels@.len() ==> crate::image::clamp_pixel(
                image.pixels@[i] + DARK_CORRECTION_OFFSET - dark.pixels@[i],
            ) == image.pixels@[i],
{
    assert forall|i: int| 0 <= i < image.pixels@.len() implies crate::image::clamp_pixel(
        image.pixels@[i] + DARK_CORRECTION_OFFSET - dark.pixels@[i],
    ) == image.pixels@[i] by {
        assert(image.pixels@[i] <= crate::image::MAX_PIXEL_VALUE);
    }
}

} // verus!
