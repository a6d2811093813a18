//! Per-iteration analysis logic of the main loop: keep only detections of a
//! configured class with a large enough box, pick the single best survivor,
//! derive its integer score, and render the human-readable description that
//! annotates the recorded event.

use vstd::prelude::*;

use crate::classmap::ClassMap;
use crate::detection::{best_of, select_best, BoundingBox, Detection};
use crate::text::{append_i64, append_u64, spec_int_text, spec_uint_text};

verus! {

/// A detection survives the filter when its class id is configured and its
/// box area reaches the configured minimum.
pub open spec fn spec_keep(d: Detection, classes: Map<i32, Seq<char>>, min_area: int) -> bool {
    classes.contains_key(d.class_id) && d.bounding_box.spec_area() >= min_area
}

/// The surviving detections, in their original order.
pub open spec fn spec_filter(
    s: Seq<Detection>,
    classes: Map<i32, Seq<char>>,
    min_area: int,
) -> Seq<Detection>
    decreases s.len(),
{
    if s.len() == 0 {
        Seq::empty()
    } else {
        let rest = spec_filter(s.drop_last(), classes, min_area);
        if spec_keep(s.last(), classes, min_area) {
            rest.push(s.last())
        } else {
            rest
        }
    }
}

/// Keep only detections whose class id is configured and whose bounding-box
/// area is at least `min_area`.
pub fn filter_detections(
    dets: &Vec<Detection>,
    classes: &ClassMap,
    min_area: u32,
) -> (kept: Vec<Detection>)
    requires
        forall|i: int| 0 <= i < dets@.len() ==> dets@[i].wf(),
    ensures
        kept@ == spec_filter(dets@, classes@, min_area as int),
{
    let mut kept: Vec<Detection> = Vec::new();
    let mut i: usize = 0;
    while i < dets.len()
        invariant
            i <= dets@.len(),
            forall|j: int| 0 <= j < dets@.len() ==> dets@[j].wf(),
            kept@ == spec_filter(dets@.take(i as int), classes@, min_area as int),
        decreases dets@.len() - i,
    {
        proof {
            assert(dets@.take(i + 1).drop_last() =~= dets@.take(i as int));
            assert(dets@.take(i + 1).last() == dets@[i as int]);
        }
        let d = dets[i];
        if classes.contains(d.class_id) && d.bounding_box.area() >= min_area as u64 {
            kept.push(d);
        }
        i += 1;
    }
    proof {
        assert(dets@.take(dets@.len() as int) =~= dets@);
    }
    kept
}

/// The iteration's decision: `None` when no detection survives the filter —
/// the iteration then skips trigger and tracker entirely — otherwise the
/// best surviving detection.
pub fn analyze(dets: &Vec<Detection>, classes: &ClassMap, min_area: u32) -> (r: Option<Detection>)
    requires
        forall|i: int| 0 <= i < dets@.len() ==> dets@[i].wf(),
    ensures
        match r {
            None => spec_filter(dets@, classes@, min_area as int).len() == 0,
            Some(d) => spec_filter(dets@, classes@, min_area as int).len() > 0 && d == best_of(
                spec_filter(dets@, classes@, min_area as int),
            ),
        },
{
    let kept = filter_detections(dets, classes, min_area);
    if kept.len() == 0 {
        None
    } else {
        Some(select_best(&kept))
    }
}

/// The integer score handed to the trigger call: the confidence as a whole
/// percentage, rounded down.
pub fn score_of(d: &Detection) -> (score: u32)
    ensures
        score == d.confidence / 10,
{
    d.confidence / 10
}

/// The description of a detection: class name, confidence as a percentage
/// with one decimal, box extent and area, and the box origin in full-frame
/// coordinates — the region origin added to the region-relative position.
pub open spec fn spec_description(
    name: Seq<char>,
    d: Detection,
    region_x: int,
    region_y: int,
) -> Seq<char> {
    name + seq![' ', '('] + spec_uint_text(d.confidence as int / 10) + seq!['.'] + spec_uint_text(
        d.confidence as int % 10,
    ) + seq!['%', ')', ' '] + spec_uint_text(d.bounding_box.width as int) + seq!['x']
        + spec_uint_text(d.bounding_box.height as int) + seq![' ', '(', '='] + spec_uint_text(
        d.bounding_box.spec_area(),
    ) + seq![')', ' ', 'a', 't', ' '] + spec_int_text(d.bounding_box.x + region_x) + seq!['x']
        + spec_int_text(d.bounding_box.y + region_y)
}

/// Render the description of `d` for the event notes, resolving the class
/// name and translating coordinates by the analysis region's origin.
pub fn describe(classes: &ClassMap, region: &BoundingBox, d: &Detection) -> (text: String)
    requires
        d.wf(),
        classes@.contains_key(d.class_id),
    ensures
        text@ == spec_description(classes@[d.class_id], *d, region.x as int, region.y as int),
{
    proof {
        reveal_strlit(" (");
        reveal_strlit(".");
        reveal_strlit("%) ");
        reveal_strlit("x");
        reveal_strlit(" (=");
        reveal_strlit(") at ");
    }
    let mut text = String::new();
    match classes.get(d.class_id) {
        Some(name) => text.append(name.as_str()),
        None => {
            proof {
                assert(false);
            }
        }
    }
    text.append(" (");
    append_u64(&mut text, (d.confidence / 10) as u64);
    text.append(".");
    append_u64(&mut text, (d.confidence % 10) as u64);
    text.append("%) ");
    append_u64(&mut text, d.bounding_box.width as u64);
    text.append("x");
    append_u64(&mut text, d.bounding_box.height as u64);
    text.append(" (=");
    append_u64(&mut text, d.bounding_box.area());
    text.append(") at ");
    append_i64(&mut text, d.bounding_box.x as i64 + region.x as i64);
    text.append("x");
    append_i64(&mut text, d.bounding_box.y as i64 + region.y as i64);
    proof {
        assert(text@ =~= spec_description(
            classes@[d.class_id],
            *d,
            region.x as int,
            region.y as int,
        ));
    }
    text
}

} // verus!
