//! The gizmo camera's viewport: a fixed fraction of the primary window,
//! recomputed from the window's physical size whenever that window is resized.

use vstd::prelude::*;

verus! {

/// A rectangle of the framebuffer, in physical pixels, with its depth range.
#[derive(Clone, Copy, Debug, PartialEq, Eq, Structural, Hash)]
pub struct ViewportRect {
    /// The left edge.
    pub x: u32,
    /// The top edge.
    pub y: u32,
    pub width: u32,
    pub height: u32,
    /// The near end of the depth range.
    pub depth_near: u32,
    /// The far end of the depth range.
    pub depth_far: u32,
}

/// A notice that a window has a new physical size.
#[derive(Clone, Copy, Debug, PartialEq, Eq, Structural, Hash)]
pub struct ResizeEvent {
    /// Whether the window is the primary one.
    pub primary: bool,
    /// The window's new width, in physical pixels.
    pub width: u32,
    /// The window's new height, in physical pixels.
    pub height: u32,
}

/// The gizmo viewport for a window of the given physical size: it starts at the
/// top edge, a half plus a third of the width across (each rounded down), is a
/// fifth of the window wide and a quarter of it high, and spans the depth range
/// from 0 to 1. A half, a third and a fifth come to more than one, so the
/// rectangle reaches past the window's right edge.
pub open spec fn gizmo_rect(window_width: u32, window_height: u32) -> ViewportRect {
    ViewportRect {
        x: (window_width / 2 + window_width / 3) as u32,
        y: 0,
        width: window_width / 5,
        height: window_height / 4,
        depth_near: 0,
        depth_far: 1,
    }
}

/// The viewport after a run of resize events: the last event for the primary
/// window decides; events for other windows do not count.
pub open spec fn after_resizes(current: Option<ViewportRect>, events: Seq<ResizeEvent>) -> Option<
    ViewportRect,
>
    decreases events.len(),
{
    if events.len() == 0 {
        current
    } else if events.last().primary {
        Some(gizmo_rect(events.last().width, events.last().height))
    } else {
        after_resizes(current, events.drop_last())
    }
}

/// Computes the gizmo viewport for a window of the given physical size.
pub fn recompute(window_width: u32, window_height: u32) -> (rect: ViewportRect)
    ensures
        rect == gizmo_rect(window_width, window_height),
{
    ViewportRect {
        x: window_width / 2 + window_width / 3,
        y: 0,
        width: window_width / 5,
        height: window_height / 4,
        depth_near: 0,
        depth_far: 1,
    }
}

/// Applies one resize event to the gizmo viewport: an event for the primary
/// window replaces it, any other event leaves it alone.
pub fn handle_resize(viewport: &mut Option<ViewportRect>, event: ResizeEvent)
    ensures
        *final(viewport) == after_resizes(*old(viewport), seq![event]),
        event.primary ==> *final(viewport) == Some(gizmo_rect(event.width, event.height)),
        !event.primary ==> *final(viewport) == *old(viewport),
{
    proof {
        lemma_single_resize(*viewport, event);
    }
    if event.primary {
        *viewport = Some(recompute(event.width, event.height));
    }
}

proof fn lemma_single_resize(current: Option<ViewportRect>, event: ResizeEvent)
    ensures
        after_resizes(current, seq![event]) == (if event.primary {
            Some(gizmo_rect(event.width, event.height))
        } else {
            current
        }),
{
    let one = seq![event];
    assert(one.last() == event);
    assert(one.drop_last().len() == 0);
    assert(after_resizes(current, one.drop_last()) == current);
}

/// Applies the resize events of one frame, in order. No events, no change.
pub fn handle_resizes(viewport: &mut Option<ViewportRect>, events: &Vec<ResizeEvent>)
    ensures
        *final(viewport) == after_resizes(*old(viewport), events@),
{
    let mut i: usize = 0;
    while i < events.len()
        invariant
            i <= events@.len(),
            *viewport == after_resizes(*old(viewport), events@.take(i as int)),
        decreases events@.len() - i,
    {
        proof {
            let upto = events@.take(i + 1);
            assert(upto.drop_last() =~= events@.take(i as int));
            assert(upto.last() == events@[i as int]);
        }
        if events[i].primary {
            *viewport = Some(recompute(events[i].width, events[i].height));
        }
        i = i + 1;
    }
    proof {
        assert(events@.take(i as int) =~= events@);
    }
}

/// The viewport is a function of the window size alone, and recomputing is
/// idempotent: a second resize to the same size leaves the viewport as the
/// first one set it, whatever stood there before.
pub proof fn lemma_recompute_idempotent(current: Option<ViewportRect>, event: ResizeEvent)
    requires
        event.primary,
    ensures
        after_resizes(current, seq![event]) == Some(gizmo_rect(event.width, event.height)),
        after_resizes(after_resizes(current, seq![event]), seq![event]) == after_resizes(
            current,
            seq![event],
        ),
        after_resizes(current, seq![event, event]) == after_resizes(current, seq![event]),
{
    assert(seq![event].last() == event);
    assert(seq![event, event].last() == event);
}

/// Resize events for windows other than the primary one never change the
/// gizmo viewport.
pub proof fn lemma_other_windows_ignored(current: Option<ViewportRect>, events: Seq<ResizeEvent>)
    requires
        forall|i: int| 0 <= i < events.len() ==> !(#[trigger] events[i]).primary,
    ensures
        after_resizes(current, events) == current,
    decreases events.len(),
{
    if events.len() > 0 {
        let earlier = events.drop_last();
        assert(!events[events.len() - 1].primary);
        assert forall|i: int| 0 <= i < earlier.len() implies !(#[trigger] earlier[i]).primary by {
            assert(earlier[i] == events[i]);
        }
        lemma_other_windows_ignored(current, earlier);
    }
}

/// Events for other windows do not count wherever they stand: a run of events
/// leaves the viewport that the same run without them leaves.
pub proof fn lemma_only_primary_counts(current: Option<ViewportRect>, events: Seq<ResizeEvent>)
    ensures
        after_resizes(current, events) == after_resizes(
            current,
            events.filter(|e: ResizeEvent| e.primary),
        ),
    decreases events.len(),
{
    let keep = |e: ResizeEvent| e.primary;
    reveal(Seq::filter);
    if events.len() > 0 {
        lemma_only_primary_counts(current, events.drop_last());
        if events.last().primary {
            assert(events.filter(keep) == events.drop_last().filter(keep).push(events.last()));
            assert(events.filter(keep).last() == events.last());
        }
    }
}

} // verus!
