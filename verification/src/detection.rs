//! Detections as plain values: class id, confidence in thousandths, and an
//! axis-aligned bounding box relative to the analysis region.

use vstd::prelude::*;

verus! {

/// Axis-aligned rectangle in pixels. Doubles as the analysis region (whose
/// origin translates region-relative detection coordinates to full-frame
/// ones) and as a detection's bounding box.
#[derive(Clone, Copy, PartialEq, Eq, Debug)]
pub struct BoundingBox {
    pub x: i32,
    pub y: i32,
    pub width: i32,
    pub height: i32,
}

impl BoundingBox {
    /// A box never has a negative extent.
    pub open spec fn wf(self) -> bool {
        0 <= self.width && 0 <= self.height
    }

    /// Area in square pixels, as a mathematical integer.
    pub open spec fn spec_area(self) -> int {
        self.width * self.height
    }

    pub fn area(&self) -> (a: u64)
        requires
            self.wf(),
        ensures
            a == self.spec_area(),
    {
        proof {
            assert(self.width * self.height <= 0x7fff_ffffi64 * 0x7fff_ffffi64)
                by (nonlinear_arith)
                requires
                    0 <= self.width <= 0x7fff_ffff,
                    0 <= self.height <= 0x7fff_ffff,
            ;
        }
        (self.width as u64) * (self.height as u64)
    }
}

/// One detector hit. `confidence` is in thousandths: 1000 stands for
/// certainty, so the value always lies in `0 ..= 1000`.
#[derive(Clone, Copy, PartialEq, Eq, Debug)]
pub struct Detection {
    pub class_id: i32,
    pub confidence: u32,
    pub bounding_box: BoundingBox,
}

impl Detection {
    pub open spec fn wf(self) -> bool {
        self.confidence <= 1000 && self.bounding_box.wf()
    }
}

/// The representative detection of a non-empty run: the one of highest
/// confidence, ties broken in favour of the earliest.
pub open spec fn best_of(s: Seq<Detection>) -> Detection
    recommends
        s.len() > 0,
    decreases s.len(),
{
    if s.len() <= 1 {
        s[0]
    } else {
        let prev = best_of(s.drop_last());
        if s.last().confidence > prev.confidence {
            s.last()
        } else {
            prev
        }
    }
}

/// `s[i]` is the first detection of maximal confidence in `s`.
pub open spec fn is_first_max(s: Seq<Detection>, i: int) -> bool {
    &&& 0 <= i < s.len()
    &&& forall|j: int| 0 <= j < s.len() ==> s[j].confidence <= s[i].confidence
    &&& forall|j: int| 0 <= j < i ==> s[j].confidence < s[i].confidence
}

/// `best_of` picks an element of the run, of maximal confidence, and among
/// the maximal ones the first seen.
pub proof fn lemma_best_of_is_first_max(s: Seq<Detection>)
    requires
        s.len() > 0,
    ensures
        exists|i: int| is_first_max(s, i) && s[i] == best_of(s),
    decreases s.len(),
{
    if s.len() == 1 {
        assert(is_first_max(s, 0));
    } else {
        let prefix = s.drop_last();
        lemma_best_of_is_first_max(prefix);
        let i = choose|i: int| is_first_max(prefix, i) && prefix[i] == best_of(prefix);
        if s.last().confidence > best_of(prefix).confidence {
            let k = s.len() - 1;
            assert(forall|j: int| 0 <= j < k ==> s[j] == prefix[j]);
            assert(is_first_max(s, k));
        } else {
            assert(forall|j: int| 0 <= j < s.len() - 1 ==> s[j] == prefix[j]);
            assert(s.last().confidence <= s[i].confidence);
            assert(is_first_max(s, i));
        }
    }
}

/// Pick the representative detection of a non-empty list: highest
/// confidence, ties broken in favour of the first seen.
pub fn select_best(dets: &Vec<Detection>) -> (d: Detection)
    requires
        dets@.len() > 0,
    ensures
        d == best_of(dets@),
{
    let mut best = dets[0];
    let mut i: usize = 1;
    while i < dets.len()
        invariant
            1 <= i <= dets@.len(),
            best == best_of(dets@.take(i as int)),
        decreases dets@.len() - i,
    {
        proof {
            assert(dets@.take(i + 1).drop_last() =~= dets@.take(i as int));
            assert(dets@.take(i + 1).last() == dets@[i as int]);
        }
        if dets[i].confidence > best.confidence {
            best = dets[i];
        }
        i += 1;
    }
    proof {
        assert(dets@.take(dets@.len() as int) =~= dets@);
    }
    best
}

} // verus!
