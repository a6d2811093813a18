//! Coalescing state machine: collapses a bursty per-frame detection stream —
//! each frame tagged with a host-assigned event id that stays constant for
//! one physical recorded event — into at most one update per event, carrying
//! the single highest-confidence detection observed.

use vstd::prelude::*;

use crate::detection::{best_of, select_best, Detection};

verus! {

struct TrackedEvent {
    event_id: u64,
    detections: Vec<Detection>,
}

/// Event id plus its single representative detection; emitted at most once
/// per event.
#[derive(Clone, Copy, PartialEq, Eq, Debug)]
pub struct UpdateEvent {
    pub event_id: u64,
    pub detection: Detection,
}

/// At most one event is tracked at a time; `Empty` is the initial state and
/// is reached again on every `clear`.
pub struct EventTracker {
    current_event: Option<TrackedEvent>,
}

impl View for EventTracker {
    type V = Option<(u64, Seq<Detection>)>;

    closed spec fn view(&self) -> Self::V {
        match self.current_event {
            Some(t) => Some((t.event_id, t.detections@)),
            None => None,
        }
    }
}

/// What one push does: from `Empty` it starts tracking with no output; under
/// the same id it appends with no output; under a new id it finalizes the
/// previous run — emitting its best detection — and starts afresh.
pub open spec fn spec_push(
    state: Option<(u64, Seq<Detection>)>,
    d: Detection,
    event_id: u64,
) -> (Option<(u64, Seq<Detection>)>, Option<UpdateEvent>) {
    match state {
        None => (Some((event_id, seq![d])), None),
        Some((prev_id, dets)) => if prev_id == event_id {
            (Some((event_id, dets.push(d))), None)
        } else {
            (
                Some((event_id, seq![d])),
                Some(UpdateEvent { event_id: prev_id, detection: best_of(dets) }),
            )
        },
    }
}

/// What `clear` does: from `Empty` nothing; otherwise it emits the best
/// detection of the tracked run and returns to `Empty`.
pub open spec fn spec_clear(state: Option<(u64, Seq<Detection>)>) -> (
    Option<(u64, Seq<Detection>)>,
    Option<UpdateEvent>,
) {
    match state {
        None => (None, None),
        Some((prev_id, dets)) => (
            None,
            Some(UpdateEvent { event_id: prev_id, detection: best_of(dets) }),
        ),
    }
}

/// The state after pushing every detection of `dets`, in order, under the
/// one id `event_id`.
pub open spec fn spec_push_run(
    state: Option<(u64, Seq<Detection>)>,
    dets: Seq<Detection>,
    event_id: u64,
) -> Option<(u64, Seq<Detection>)>
    decreases dets.len(),
{
    if dets.len() == 0 {
        state
    } else {
        spec_push(spec_push_run(state, dets.drop_last(), event_id), dets.last(), event_id).0
    }
}

/// Every push of the run yields no update.
pub open spec fn push_run_silent(
    state: Option<(u64, Seq<Detection>)>,
    dets: Seq<Detection>,
    event_id: u64,
) -> bool
    decreases dets.len(),
{
    if dets.len() == 0 {
        true
    } else {
        &&& push_run_silent(state, dets.drop_last(), event_id)
        &&& spec_push(
            spec_push_run(state, dets.drop_last(), event_id),
            dets.last(),
            event_id,
        ).1 is None
    }
}

/// Pushing a non-empty run of detections under one event id, starting from
/// `Empty`, emits nothing along the way; the following `clear` yields exactly
/// one update, carrying the run's highest-confidence detection (ties broken
/// in favour of the first seen).
pub proof fn lemma_single_event_coalesces(dets: Seq<Detection>, event_id: u64)
    requires
        dets.len() > 0,
    ensures
        spec_push_run(None, dets, event_id) == Some((event_id, dets)),
        push_run_silent(None, dets, event_id),
        spec_clear(spec_push_run(None, dets, event_id)).1 == Some(
            UpdateEvent { event_id, detection: best_of(dets) },
        ),
    decreases dets.len(),
{
    if dets.len() == 1 {
        assert(seq![dets.last()] =~= dets);
        assert(spec_push_run(None, dets.drop_last(), event_id) is None);
        assert(push_run_silent(None, dets.drop_last(), event_id));
    } else {
        lemma_single_event_coalesces(dets.drop_last(), event_id);
        assert(dets.drop_last().push(dets.last()) =~= dets);
    }
}

/// A push under a new id finalizes the previous run at once: the update for
/// the old event — best of that run — is returned at the very push that
/// starts the new event, and the new event's own update appears only when it
/// is in turn cleared or superseded.
pub proof fn lemma_id_change_emits_previous(
    dets_a: Seq<Detection>,
    id_a: u64,
    d: Detection,
    id_b: u64,
)
    requires
        dets_a.len() > 0,
        id_a != id_b,
    ensures
        ({
            let state_a = spec_push_run(None, dets_a, id_a);
            let (state_b, update_a) = spec_push(state_a, d, id_b);
            &&& update_a == Some(UpdateEvent { event_id: id_a, detection: best_of(dets_a) })
            &&& state_b == Some((id_b, seq![d]))
            &&& spec_clear(state_b).1 == Some(UpdateEvent { event_id: id_b, detection: d })
        }),
{
    lemma_single_event_coalesces(dets_a, id_a);
    assert(best_of(seq![d]) == d);
}

/// `clear` on `Empty` yields nothing and leaves the tracker `Empty`, so
/// repeating it is safe: a second `clear` finds `Empty` again whatever the
/// state before the first.
pub proof fn lemma_clear_idempotent(state: Option<(u64, Seq<Detection>)>)
    ensures
        spec_clear(None) == (None::<(u64, Seq<Detection>)>, None::<UpdateEvent>),
        spec_clear(spec_clear(state).0) == (None::<(u64, Seq<Detection>)>, None::<UpdateEvent>),
{
}

impl EventTracker {
    /// A tracked run, while it exists, always holds at least one detection.
    pub open spec fn wf(self) -> bool {
        match self@ {
            Some((_id, dets)) => dets.len() >= 1,
            None => true,
        }
    }

    pub fn new() -> (t: EventTracker)
        ensures
            t.wf(),
            t@ is None,
    {
        EventTracker { current_event: None }
    }

    pub fn push_detection(&mut self, d: Detection, event_id: u64) -> (update: Option<UpdateEvent>)
        requires
            old(self).wf(),
        ensures
            final(self).wf(),
            (final(self)@, update) == spec_push(old(self)@, d, event_id),
    {
        let same_event = match &self.current_event {
            Some(t) => t.event_id == event_id,
            None => false,
        };
        if same_event {
            match &mut self.current_event {
                Some(t) => {
                    t.detections.push(d);
                }
                None => {
                    proof {
                        assert(false);
                    }
                }
            }
            None
        } else {
            let update = self.clear();
            let mut detections: Vec<Detection> = Vec::new();
            detections.push(d);
            self.current_event = Some(TrackedEvent { event_id, detections });
            proof {
                assert(final(self)@ == Some((event_id, seq![d])));
            }
            update
        }
    }

    pub fn clear(&mut self) -> (update: Option<UpdateEvent>)
        requires
            old(self).wf(),
        ensures
            final(self).wf(),
            (final(self)@, update) == spec_clear(old(self)@),
    {
        match self.current_event.take() {
            None => None,
            Some(t) => {
                let detection = select_best(&t.detections);
                Some(UpdateEvent { event_id: t.event_id, detection })
            }
        }
    }
}

} // verus!
