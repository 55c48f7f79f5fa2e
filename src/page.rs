//! The per-track widget set, reconciled every frame against the track ids
//! of the engine snapshot.
use vstd::prelude::*;
use crate::animation::BeatPulse;
use crate::button::{handle_event, state_for, Bounds, ButtonState, Transform};
use crate::cache::DrawCache;
use crate::event::{GuiEvent, PointerButton};
use crate::tempo::TempoView;
use crate::track::Command;

verus! {

/// Widget state of one track: hover state of the track area and of its
/// select button, and the draw caches of its waveform and beat grid (holding
/// bitmaps of type `I`).
pub struct LooperView<I> {
    pub id: u32,
    pub state: ButtonState,
    pub active_state: ButtonState,
    pub waveform: DrawCache<I>,
    pub beats: DrawCache<I>,
}

impl<I> LooperView<I> {
    /// A view just created for track `id`: nothing hovered, nothing cached.
    pub open spec fn is_fresh(&self, id: u32) -> bool {
        &&& self.id == id
        &&& self.state == ButtonState::Default
        &&& self.active_state == ButtonState::Default
        &&& self.waveform.stored_image().is_none()
        &&& self.waveform.stored_key().is_none()
        &&& self.beats.stored_image().is_none()
        &&& self.beats.stored_key().is_none()
    }

    pub fn new(id: u32) -> (r: LooperView<I>)
        ensures
            r.is_fresh(id),
    {
        LooperView {
            id,
            state: ButtonState::Default,
            active_state: ButtonState::Default,
            waveform: DrawCache::new(),
            beats: DrawCache::new(),
        }
    }
}

/// The add-track button is offered while fewer tracks than this exist.
pub const MAX_LOOPERS: usize = 5;

/// The command a left click issues; other buttons issue none.
pub open spec fn on_left(clicked: Option<PointerButton>, c: Command) -> Option<Command> {
    if clicked == Some(PointerButton::Left) {
        Some(c)
    } else {
        None
    }
}

/// Widget state of the whole page.
pub struct MainPage<I> {
    pub loopers: Vec<LooperView<I>>,
    pub beat_pulse: BeatPulse,
    pub add_button: ButtonState,
    pub tempo: TempoView,
}

impl<I> MainPage<I> {
    pub open spec fn wf(&self) -> bool {
        &&& ids_increasing(self.loopers@)
        &&& self.beat_pulse.wf()
        &&& self.tempo.wf()
    }

    pub fn new() -> (r: MainPage<I>)
        ensures
            r.wf(),
            r.loopers@.len() == 0,
            r.beat_pulse.animation.is_none(),
            r.add_button == ButtonState::Default,
            !r.tempo.is_editing(),
    {
        MainPage {
            loopers: Vec::new(),
            beat_pulse: BeatPulse::new(),
            add_button: ButtonState::Default,
            tempo: TempoView::new(),
        }
    }

    /// Reconciles the per-track views with the snapshot's track `ids`.
    pub fn sync_tracks(&mut self, ids: &Vec<u32>)
        requires
            old(self).wf(),
        ensures
            final(self).wf(),
            forall|id: u32| #[trigger] has_id(final(self).loopers@, id) <==> ids@.contains(id),
            forall|i: int, j: int|
                0 <= i < final(self).loopers@.len() && 0 <= j < old(self).loopers@.len()
                    && #[trigger] final(self).loopers@[i].id == #[trigger] old(self).loopers@[j].id
                    ==> final(self).loopers@[i] == old(self).loopers@[j],
            forall|i: int|
                0 <= i < final(self).loopers@.len() && !has_id(
                    old(self).loopers@,
                    #[trigger] final(self).loopers@[i].id,
                ) ==> final(self).loopers@[i].is_fresh(final(self).loopers@[i].id),
            final(self).beat_pulse == old(self).beat_pulse,
            final(self).tempo == old(self).tempo,
            final(self).add_button == old(self).add_button,
    {
        reconcile(&mut self.loopers, ids);
    }

    pub fn shows_add_button(&self) -> (r: bool)
        ensures
            r == (self.loopers@.len() < MAX_LOOPERS),
    {
        self.loopers.len() < MAX_LOOPERS
    }

    /// One frame of the add-track button, while it is shown: its state
    /// follows the event, and a left click asks the engine for a new track.
    pub fn add_button_frame(&mut self, transform: &Transform, bounds: &Bounds, event: Option<GuiEvent>) -> (r: Option<Command>)
        requires
            transform.wf(),
        ensures
            final(self).add_button == state_for(*transform, *bounds, event),
            r == on_left(
                if state_for(*transform, *bounds, event) == ButtonState::Pressed {
                    event.unwrap().pressed_button()
                } else {
                    None
                },
                Command::AddLooper,
            ),
            final(self).loopers == old(self).loopers,
            final(self).beat_pulse == old(self).beat_pulse,
            final(self).tempo == old(self).tempo,
    {
        let hit = handle_event(transform, bounds, event);
        self.add_button = hit.state;
        match hit.clicked {
            Some(PointerButton::Left) => Some(Command::AddLooper),
            _ => None,
        }
    }
}

/// One frame of a track's select button: its state follows the event, and a
/// left click makes track `id` the active one.
pub fn select_button_frame<I>(
    view: &mut LooperView<I>,
    transform: &Transform,
    bounds: &Bounds,
    event: Option<GuiEvent>,
) -> (r: Option<Command>)
    requires
        transform.wf(),
    ensures
        final(view).active_state == state_for(*transform, *bounds, event),
        final(view).id == old(view).id,
        final(view).state == old(view).state,
        final(view).waveform == old(view).waveform,
        final(view).beats == old(view).beats,
        r == on_left(
            if state_for(*transform, *bounds, event) == ButtonState::Pressed {
                event.unwrap().pressed_button()
            } else {
                None
            },
            Command::SelectLooperById(old(view).id),
        ),
{
    let hit = handle_event(transform, bounds, event);
    view.active_state = hit.state;
    match hit.clicked {
        Some(PointerButton::Left) => Some(Command::SelectLooperById(view.id)),
        _ => None,
    }
}

/// Views are ordered by strictly increasing id.
pub open spec fn ids_increasing<I>(s: Seq<LooperView<I>>) -> bool {
    forall|a: int, b: int| 0 <= a < b < s.len() ==> #[trigger] s[a].id < #[trigger] s[b].id
}

/// Some view is for track `id`.
pub open spec fn has_id<I>(s: Seq<LooperView<I>>, id: u32) -> bool {
    exists|k: int| 0 <= k < s.len() && #[trigger] s[k].id == id
}

fn contains_id(ids: &Vec<u32>, id: u32) -> (r: bool)
    ensures
        r == ids@.contains(id),
{
    let mut i: usize = 0;
    while i < ids.len()
        invariant
            i <= ids.len(),
            forall|k: int| 0 <= k < i ==> ids@[k] != id,
        decreases ids.len() - i,
    {
        if ids[i] == id {
            return true;
        }
        i = i + 1;
    }
    false
}

/// Brings `views` in line with the track ids of a snapshot: views of
/// vanished ids are removed, a fresh view is inserted for each new id, the
/// others are kept as they were, and the order stays by increasing id.
pub fn reconcile<I>(views: &mut Vec<LooperView<I>>, ids: &Vec<u32>)
    requires
        ids_increasing(old(views)@),
    ensures
        ids_increasing(final(views)@),
        forall|id: u32| #[trigger] has_id(final(views)@, id) <==> ids@.contains(id),
        forall|i: int, j: int|
            0 <= i < final(views)@.len() && 0 <= j < old(views)@.len() && #[trigger] final(views)@[i].id
                == #[trigger] old(views)@[j].id ==> final(views)@[i] == old(views)@[j],
        forall|i: int|
            0 <= i < final(views)@.len() && !has_id(old(views)@, #[trigger] final(views)@[i].id)
                ==> final(views)@[i].is_fresh(final(views)@[i].id),
{
    let ghost old_v = views@;
    let mut i: usize = 0;
    while i < views.len()
        invariant
            i <= views.len(),
            ids_increasing(views@),
            forall|k: int| 0 <= k < views@.len() ==> old_v.contains(#[trigger] views@[k]),
            forall|k: int| 0 <= k < i ==> ids@.contains(#[trigger] views@[k].id),
            forall|j: int|
                0 <= j < old_v.len() && ids@.contains(#[trigger] old_v[j].id) ==> views@.contains(
                    old_v[j],
                ),
        decreases views.len() - i,
    {
        let keep: bool = contains_id(ids, views[i].id);
        if keep {
            i = i + 1;
        } else {
            let ghost before = views@;
            views.remove(i);
            proof {
                assert forall|a: int, b: int| 0 <= a < b < views@.len() implies #[trigger] views@[a].id
                    < #[trigger] views@[b].id by {
                    let a2 = if a < i { a } else { a + 1 };
                    let b2 = if b < i { b } else { b + 1 };
                    assert(views@[a] == before[a2]);
                    assert(views@[b] == before[b2]);
                    assert(before[a2].id < before[b2].id);
                }
                assert forall|k: int| 0 <= k < views@.len() implies old_v.contains(
                    #[trigger] views@[k],
                ) by {
                    let k2 = if k < i { k } else { k + 1 };
                    assert(views@[k] == before[k2]);
                    assert(old_v.contains(before[k2]));
                }
                assert forall|j: int|
                    0 <= j < old_v.len() && ids@.contains(#[trigger] old_v[j].id) implies views@.contains(
                    old_v[j],
                ) by {
                    assert(before.contains(old_v[j]));
                    let w = choose|w: int| 0 <= w < before.len() && before[w] == old_v[j];
                    assert(w != i);
                    if w < i {
                        assert(views@[w] == old_v[j]);
                    } else {
                        assert(views@[w - 1] == old_v[j]);
                    }
                }
            }
        }
    }
    let mut m: usize = 0;
    while m < ids.len()
        invariant
            m <= ids.len(),
            ids_increasing(views@),
            forall|k: int|
                0 <= k < views@.len() ==> old_v.contains(#[trigger] views@[k]) || views@[k].is_fresh(
                    views@[k].id,
                ),
            forall|k: int| 0 <= k < views@.len() ==> ids@.contains(#[trigger] views@[k].id),
            forall|j: int|
                0 <= j < old_v.len() && ids@.contains(#[trigger] old_v[j].id) ==> views@.contains(
                    old_v[j],
                ),
            forall|q: int| 0 <= q < m ==> has_id(views@, #[trigger] ids@[q]),
        decreases ids.len() - m,
    {
        let id: u32 = ids[m];
        let mut k: usize = 0;
        while k < views.len() && views[k].id < id
            invariant
                k <= views.len(),
                forall|a: int| 0 <= a < k ==> #[trigger] views@[a].id < id,
            decreases views.len() - k,
        {
            k = k + 1;
        }
        let present: bool = k < views.len() && views[k].id == id;
        if !present {
            let ghost before = views@;
            let fresh: LooperView<I> = LooperView::new(id);
            views.insert(k, fresh);
            proof {
                assert(views@[k as int] == fresh);
                assert forall|a: int, b: int| 0 <= a < b < views@.len() implies #[trigger] views@[a].id
                    < #[trigger] views@[b].id by {
                    if a < k && b < k {
                        assert(views@[a] == before[a] && views@[b] == before[b]);
                    } else if a < k && b == k {
                        assert(views@[a] == before[a]);
                    } else if a < k {
                        assert(views@[a] == before[a] && views@[b] == before[b - 1]);
                    } else if a == k {
                        assert(views@[b] == before[b - 1]);
                        assert(before[k as int].id >= id);
                        assert(before[k as int].id != id);
                        if b - 1 > k {
                            assert(before[k as int].id < before[b - 1].id);
                        }
                    } else {
                        assert(views@[a] == before[a - 1] && views@[b] == before[b - 1]);
                    }
                }
                assert forall|c: int|
                    0 <= c < views@.len() implies old_v.contains(#[trigger] views@[c]) || views@[c].is_fresh(
                    views@[c].id,
                ) by {
                    if c < k {
                        assert(views@[c] == before[c]);
                    } else if c > k {
                        assert(views@[c] == before[c - 1]);
                    }
                }
                assert forall|c: int| 0 <= c < views@.len() implies ids@.contains(
                    #[trigger] views@[c].id,
                ) by {
                    if c < k {
                        assert(views@[c] == before[c]);
                    } else if c > k {
                        assert(views@[c] == before[c - 1]);
                    } else {
                        assert(ids@[m as int] == id);
                    }
                }
                assert forall|j: int|
                    0 <= j < old_v.len() && ids@.contains(#[trigger] old_v[j].id) implies views@.contains(
                    old_v[j],
                ) by {
                    assert(before.contains(old_v[j]));
                    let w = choose|w: int| 0 <= w < before.len() && before[w] == old_v[j];
                    if w < k {
                        assert(views@[w] == old_v[j]);
                    } else {
                        assert(views@[w + 1] == old_v[j]);
                    }
                }
                assert forall|q: int| 0 <= q < m + 1 implies has_id(views@, #[trigger] ids@[q]) by {
                    if q == m {
                        assert(views@[k as int].id == ids@[q]);
                    } else {
                        assert(has_id(before, ids@[q]));
                        let w = choose|w: int| 0 <= w < before.len() && #[trigger] before[w].id == ids@[q];
                        if w < k {
                            assert(views@[w] == before[w]);
                        } else {
                            assert(views@[w + 1] == before[w]);
                        }
                    }
                }
            }
        } else {
            proof {
                assert(views@[k as int].id == ids@[m as int]);
            }
        }
        m = m + 1;
    }
    proof {
        assert forall|id: u32| #[trigger] has_id(views@, id) <==> ids@.contains(id) by {
            if has_id(views@, id) {
                let w = choose|w: int| 0 <= w < views@.len() && #[trigger] views@[w].id == id;
                assert(ids@.contains(views@[w].id));
            }
            if ids@.contains(id) {
                let q = choose|q: int| 0 <= q < ids@.len() && ids@[q] == id;
                assert(has_id(views@, ids@[q]));
            }
        }
        assert forall|i: int, j: int|
            0 <= i < views@.len() && 0 <= j < old_v.len() && #[trigger] views@[i].id
                == #[trigger] old_v[j].id implies views@[i] == old_v[j] by {
            assert(ids@.contains(views@[i].id));
            assert(views@.contains(old_v[j]));
            let w = choose|w: int| 0 <= w < views@.len() && views@[w] == old_v[j];
            if w < i {
                assert(views@[w].id < views@[i].id);
            } else if w > i {
                assert(views@[i].id < views@[w].id);
            }
        }
        assert forall|i: int|
            0 <= i < views@.len() && !has_id(old_v, #[trigger] views@[i].id) implies views@[i].is_fresh(
            views@[i].id,
        ) by {
            if old_v.contains(views@[i]) {
                let w = choose|w: int| 0 <= w < old_v.len() && old_v[w] == views@[i];
                assert(old_v[w].id == views@[i].id);
            }
        }
    }
}

} // verus!
