//! The slideshow state machine of the image viewer.
//!
//! A `Slideshow` is a cursor over a fixed, non-empty sequence of images.
//! Keyboard and window events move the cursor (clamped at both ends),
//! request a redraw, or close the show. The event loop itself lives
//! outside the library: it polls the windowing system, feeds each event
//! to [`Slideshow::handle_event`], and performs the returned action.

use vstd::prelude::*;

verus! {

/// An input event, as the viewer classifies the windowing system's events.
#[derive(Clone, Copy, Debug, PartialEq, Eq, Structural)]
pub enum SlideshowEvent {
    /// Window close, or the Escape key.
    Quit,
    /// The right-arrow key.
    Right,
    /// The left-arrow key.
    Left,
    /// The window was exposed and must be redrawn.
    Exposed,
    /// Any other event.
    Other,
}

/// What the event loop must do after an event was handled.
#[derive(Clone, Copy, Debug, PartialEq, Eq, Structural)]
pub enum SlideshowAction {
    /// Draw the image at `index`.
    Render { index: usize },
    /// Do nothing.
    Stay,
    /// Leave the event loop.
    Exit,
}

/// The viewer's whole state: how many images there are, which one is
/// on screen, and whether the show was closed.
pub struct Slideshow {
    /// Number of images; at least 1.
    pub count: usize,
    /// Index of the image on screen; always below `count`.
    pub idx: usize,
    /// True once a quit event arrived.
    pub closed: bool,
}

/// The cursor after one event: right and left moves are clamped to
/// `[0, count - 1]`, no other event moves it.
pub open spec fn step(idx: int, count: int, ev: SlideshowEvent) -> int {
    match ev {
        SlideshowEvent::Right => if idx + 1 < count { idx + 1 } else { idx },
        SlideshowEvent::Left => if idx > 0 { idx - 1 } else { idx },
        _ => idx,
    }
}

/// The cursor after a whole sequence of events, applied in order.
pub open spec fn run_steps(idx: int, count: int, evs: Seq<SlideshowEvent>) -> int
    decreases evs.len(),
{
    if evs.len() == 0 {
        idx
    } else {
        run_steps(step(idx, count, evs[0]), count, evs.skip(1))
    }
}

/// Every event of the sequence is `ev`.
pub open spec fn all_events_are(evs: Seq<SlideshowEvent>, ev: SlideshowEvent) -> bool {
    forall|i: int| 0 <= i < evs.len() ==> #[trigger] evs[i] == ev
}

/// Some event of the sequence requests quitting.
pub open spec fn contains_quit(evs: Seq<SlideshowEvent>) -> bool {
    exists|i: int| 0 <= i < evs.len() && #[trigger] evs[i] == SlideshowEvent::Quit
}

/// Position of the first quit request; the sequence length when there is
/// none.
pub open spec fn first_quit(evs: Seq<SlideshowEvent>) -> int
    decreases evs.len(),
{
    if evs.len() == 0 {
        0
    } else if evs[0] == SlideshowEvent::Quit {
        0
    } else {
        1 + first_quit(evs.skip(1))
    }
}

/// The events a session actually handles: everything up to and including
/// the first quit request, or all of them when nothing quits.
pub open spec fn processed_events(evs: Seq<SlideshowEvent>) -> Seq<SlideshowEvent> {
    if contains_quit(evs) {
        evs.take(first_quit(evs) + 1)
    } else {
        evs
    }
}

/// A quit at position `k` with none before it is the first quit.
proof fn lemma_first_quit_at(evs: Seq<SlideshowEvent>, k: int)
    requires
        0 <= k < evs.len(),
        evs[k] == SlideshowEvent::Quit,
        forall|j: int| 0 <= j < k ==> #[trigger] evs[j] != SlideshowEvent::Quit,
    ensures
        contains_quit(evs),
        first_quit(evs) == k,
    decreases k,
{
    if k == 0 {
    } else {
        assert(evs[0] != SlideshowEvent::Quit);
        assert(forall|j: int| 0 <= j < k - 1 ==> #[trigger] evs.skip(1)[j] == evs[j + 1]);
        assert(evs.skip(1)[k - 1] == evs[k]);
        lemma_first_quit_at(evs.skip(1), k - 1);
    }
}

/// From any in-bounds cursor, any sequence of events whatsoever leaves the
/// cursor in bounds: it never reaches `count` and never drops below zero.
pub proof fn lemma_cursor_stays_in_bounds(idx: int, count: int, evs: Seq<SlideshowEvent>)
    requires
        0 <= idx < count,
    ensures
        0 <= run_steps(idx, count, evs) < count,
    decreases evs.len(),
{
    if evs.len() > 0 {
        lemma_cursor_stays_in_bounds(step(idx, count, evs[0]), count, evs.skip(1));
    }
}

/// Right moves are clamped: a run of `n` right-arrow events moves the
/// cursor to exactly `idx + n`, or to the last image if that is nearer.
/// In particular, from the first image, extra presses at the boundary
/// leave the cursor on the last image.
pub proof fn lemma_rights_clamp(idx: int, count: int, evs: Seq<SlideshowEvent>)
    requires
        0 <= idx < count,
        all_events_are(evs, SlideshowEvent::Right),
    ensures
        run_steps(idx, count, evs) == if idx + evs.len() < count {
            idx + evs.len()
        } else {
            count - 1
        },
    decreases evs.len(),
{
    if evs.len() > 0 {
        assert(evs[0] == SlideshowEvent::Right);
        assert(all_events_are(evs.skip(1), SlideshowEvent::Right)) by {
            assert(forall|i: int|
                0 <= i < evs.skip(1).len() ==> #[trigger] evs.skip(1)[i] == evs[i + 1]);
        }
        lemma_rights_clamp(step(idx, count, evs[0]), count, evs.skip(1));
    }
}

/// Left moves are clamped: a run of `n` left-arrow events moves the cursor
/// to exactly `idx - n`, or to the first image if `n` exceeds `idx`. Extra
/// presses at the first image leave the cursor there.
pub proof fn lemma_lefts_clamp(idx: int, count: int, evs: Seq<SlideshowEvent>)
    requires
        0 <= idx < count,
        all_events_are(evs, SlideshowEvent::Left),
    ensures
        run_steps(idx, count, evs) == if idx - evs.len() >= 0 {
            idx - evs.len()
        } else {
            0
        },
    decreases evs.len(),
{
    if evs.len() > 0 {
        assert(evs[0] == SlideshowEvent::Left);
        assert(all_events_are(evs.skip(1), SlideshowEvent::Left)) by {
            assert(forall|i: int|
                0 <= i < evs.skip(1).len() ==> #[trigger] evs.skip(1)[i] == evs[i + 1]);
        }
        lemma_lefts_clamp(step(idx, count, evs[0]), count, evs.skip(1));
    }
}

/// Appending one event to a run is one more step.
proof fn lemma_run_steps_push(idx: int, count: int, evs: Seq<SlideshowEvent>, ev: SlideshowEvent)
    ensures
        run_steps(idx, count, evs.push(ev)) == step(run_steps(idx, count, evs), count, ev),
    decreases evs.len(),
{
    if evs.len() == 0 {
        assert(evs.push(ev)[0] == ev);
        assert(evs.push(ev).skip(1) =~= Seq::<SlideshowEvent>::empty());
        assert(run_steps(idx, count, evs.push(ev)) == run_steps(
            step(idx, count, ev),
            count,
            Seq::<SlideshowEvent>::empty(),
        ));
        assert(run_steps(idx, count, evs) == idx);
    } else {
        assert(evs.push(ev)[0] == evs[0]);
        assert(evs.push(ev).skip(1) =~= evs.skip(1).push(ev));
        assert(run_steps(idx, count, evs.push(ev)) == run_steps(
            step(idx, count, evs[0]),
            count,
            evs.skip(1).push(ev),
        ));
        lemma_run_steps_push(step(idx, count, evs[0]), count, evs.skip(1), ev);
        assert(run_steps(idx, count, evs) == run_steps(
            step(idx, count, evs[0]),
            count,
            evs.skip(1),
        ));
    }
}

impl Slideshow {
    /// The state invariant: the show is over a non-empty image sequence
    /// and the cursor stays in bounds.
    pub open spec fn wf(self) -> bool {
        self.count >= 1 && self.idx < self.count
    }

    /// A fresh show over `count` images, open and positioned on the first.
    pub fn new(count: usize) -> (s: Slideshow)
        requires
            count >= 1,
        ensures
            s.wf(),
            s.count == count,
            s.idx == 0,
            !s.closed,
    {
        Slideshow { count, idx: 0, closed: false }
    }

    /// The action owed right after the window opens: draw the first image.
    pub fn initial_action(&self) -> (a: SlideshowAction)
        requires
            self.wf(),
        ensures
            a == (SlideshowAction::Render { index: self.idx }),
    {
        SlideshowAction::Render { index: self.idx }
    }

    /// Advance the state machine by one event.
    ///
    /// A quit event closes the show from any state. Arrow keys move the
    /// cursor, clamped at both ends, and ask for a draw only when the
    /// cursor moved; an expose event asks for a draw of the current image;
    /// everything else is ignored. Every requested index is in bounds.
    pub fn handle_event(&mut self, ev: SlideshowEvent) -> (a: SlideshowAction)
        requires
            old(self).wf(),
            !old(self).closed,
        ensures
            final(self).wf(),
            final(self).count == old(self).count,
            final(self).idx == step(old(self).idx as int, old(self).count as int, ev),
            final(self).closed == (ev == SlideshowEvent::Quit),
            a == (match ev {
                SlideshowEvent::Quit => SlideshowAction::Exit,
                SlideshowEvent::Right | SlideshowEvent::Left => {
                    if final(self).idx != old(self).idx {
                        SlideshowAction::Render { index: final(self).idx }
                    } else {
                        SlideshowAction::Stay
                    }
                },
                SlideshowEvent::Exposed => (SlideshowAction::Render { index: old(self).idx }),
                SlideshowEvent::Other => SlideshowAction::Stay,
            }),
            a matches SlideshowAction::Render { index } ==> index < final(self).count,
    {
        match ev {
            SlideshowEvent::Quit => {
                self.closed = true;
                SlideshowAction::Exit
            },
            SlideshowEvent::Right => {
                if self.idx + 1 < self.count {
                    self.idx = self.idx + 1;
                    SlideshowAction::Render { index: self.idx }
                } else {
                    SlideshowAction::Stay
                }
            },
            SlideshowEvent::Left => {
                if self.idx > 0 {
                    self.idx = self.idx - 1;
                    SlideshowAction::Render { index: self.idx }
                } else {
                    SlideshowAction::Stay
                }
            },
            SlideshowEvent::Exposed => {
                SlideshowAction::Render { index: self.idx }
            },
            SlideshowEvent::Other => {
                SlideshowAction::Stay
            },
        }
    }

    /// Run a whole viewing session over a fixed list of events: start on
    /// the first image and feed the events in order, stopping right after
    /// the first quit request. Returns the final state, always normally:
    /// the show ends closed exactly when some event requested quitting,
    /// and the cursor stands where the handled events moved it. This is
    /// the event loop's decision core; the loop around it only waits for
    /// events and draws what `handle_event` asks for.
    pub fn replay(count: usize, events: &Vec<SlideshowEvent>) -> (s: Slideshow)
        requires
            count >= 1,
        ensures
            s.wf(),
            s.count == count,
            s.closed == contains_quit(events@),
            s.idx == run_steps(0, count as int, processed_events(events@)),
    {
        let mut show = Slideshow::new(count);
        let mut i: usize = 0;
        while i < events.len()
            invariant
                show.wf(),
                show.count == count,
                !show.closed,
                i <= events.len(),
                !contains_quit(events@.take(i as int)),
                show.idx == run_steps(0, count as int, events@.take(i as int)),
            decreases events.len() - i,
        {
            let ev = events[i];
            let ghost prefix = events@.take(i as int);
            let a = show.handle_event(ev);
            proof {
                lemma_run_steps_push(0, count as int, prefix, ev);
                assert(events@.take(i + 1 as int) =~= prefix.push(ev));
            }
            i = i + 1;
            if show.is_closed() {
                proof {
                    assert(events@[i - 1 as int] == SlideshowEvent::Quit);
                    assert(forall|j: int|
                        0 <= j < i - 1 ==> #[trigger] events@[j] == prefix[j]);
                    lemma_first_quit_at(events@, i - 1 as int);
                    assert(processed_events(events@) == events@.take(i as int));
                }
                return show;
            }
            proof {
                assert(forall|j: int|
                    0 <= j < i ==> #[trigger] events@.take(i as int)[j] == events@[j]);
            }
        }
        proof {
            assert(events@.take(events@.len() as int) =~= events@);
        }
        show
    }

    /// Whether a quit event has closed the show.
    pub fn is_closed(&self) -> (c: bool)
        ensures
            c == self.closed,
    {
        self.closed
    }

    /// The index of the image on screen.
    pub fn index(&self) -> (i: usize)
        ensures
            i == self.idx,
    {
        self.idx
    }
}

} // verus!
