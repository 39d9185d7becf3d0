use vstd::prelude::*;

use crate::events::{Event, EventType, WindowEvent};
use crate::input::{observed_all, InputState};
use crate::overlay::{broadcast_records, Callback, Delivery, Overlay, OverlayHandle, OverlayStack};
use crate::renderer::Renderer;
use crate::shader::Rgb;

use std::time::Duration;

verus! {

/// The title and size in pixels of the window to open.
pub struct WindowProps {
    pub title: String,
    pub size: (u32, u32),
}

/// What the engine is started with.
pub struct EngineProps {
    pub window_props: WindowProps,
}

/// Whether `events` holds a request to close the window.
pub open spec fn requests_close(events: Seq<WindowEvent>) -> bool {
    exists|i: int| 0 <= i < events.len() && (#[trigger] events[i]).kind() == EventType::WindowCloseRequested
}

/// The overlays, the renderer and the input state, driven one frame at a time.
///
/// Each frame, the window's events are first taken into the input state and then
/// delivered to the overlays, in order; then every overlay is updated, the frame is
/// cleared and every overlay renders. A close request stops the engine once the frame
/// that carried it is over.
pub struct Engine<O: Overlay> {
    is_running: bool,
    overlay_stack: OverlayStack<O>,
    input: InputState,
    renderer: O::Target,
}

impl<O: Overlay> Engine<O> {
    pub closed spec fn running(&self) -> bool {
        self.is_running
    }

    pub closed spec fn stack(&self) -> OverlayStack<O> {
        self.overlay_stack
    }

    pub closed spec fn input_state(&self) -> InputState {
        self.input
    }

    pub open spec fn wf(&self) -> bool {
        &&& self.stack().wf()
        &&& self.input_state().wf()
    }

    /// A running engine with no overlays and no input, that draws with `renderer` after
    /// setting its clear colour to red 0.0, green 0.06, blue 0.12.
    pub fn new(renderer: O::Target) -> (r: Self)
        ensures
            r.wf(),
            r.running(),
            r.stack().handles() == Seq::<OverlayHandle>::empty(),
            r.stack().history() == Seq::<Delivery>::empty(),
            r.stack().next_handle() == 1,
            r.input_state().pressed_set() == Set::<crate::input::Button>::empty(),
    {
        let mut renderer = renderer;
        // The bit patterns of 0.0f32, 0.06f32 and 0.12f32.
        renderer.set_clear_color(Rgb { r: 0, g: 1031127695, b: 1039516303 });
        Engine { is_running: true, overlay_stack: OverlayStack::new(), input: InputState::new(), renderer }
    }

    pub fn is_running(&self) -> (r: bool)
        ensures
            r == self.running(),
    {
        self.is_running
    }

    /// Stops the engine once the current frame is over.
    pub fn exit(&mut self)
        ensures
            !final(self).running(),
            final(self).stack() == old(self).stack(),
            final(self).input_state() == old(self).input_state(),
    {
        self.is_running = false;
    }

    /// The overlays, front to back.
    pub fn overlays(&self) -> (r: &OverlayStack<O>)
        ensures
            *r == self.stack(),
    {
        &self.overlay_stack
    }

    /// The input state as of the last event taken in.
    pub fn input(&self) -> (r: &InputState)
        ensures
            *r == self.input_state(),
    {
        &self.input
    }

    /// Attaches `overlay` and puts it behind every other overlay.
    pub fn push_overlay_back(&mut self, overlay: O) -> (r: OverlayHandle)
        requires
            old(self).wf(),
            old(self).stack().next_handle() < u32::MAX,
        ensures
            final(self).wf(),
            r.0 != 0,
            r.0 == old(self).stack().next_handle(),
            final(self).stack().next_handle() == old(self).stack().next_handle() + 1,
            final(self).stack().handles() == old(self).stack().handles().push(r),
            final(self).stack().history() == old(self).stack().history().push(
                Delivery { handle: r, callback: Callback::Attach, handled: false },
            ),
            final(self).running() == old(self).running(),
            final(self).input_state() == old(self).input_state(),
    {
        self.overlay_stack.push_back(overlay, &mut self.renderer)
    }

    /// Attaches `overlay` and puts it ahead of every other overlay.
    pub fn push_overlay_front(&mut self, overlay: O) -> (r: OverlayHandle)
        requires
            old(self).wf(),
            old(self).stack().next_handle() < u32::MAX,
        ensures
            final(self).wf(),
            r.0 != 0,
            r.0 == old(self).stack().next_handle(),
            final(self).stack().next_handle() == old(self).stack().next_handle() + 1,
            final(self).stack().handles() == seq![r] + old(self).stack().handles(),
            final(self).stack().history() == old(self).stack().history().push(
                Delivery { handle: r, callback: Callback::Attach, handled: false },
            ),
            final(self).running() == old(self).running(),
            final(self).input_state() == old(self).input_state(),
    {
        self.overlay_stack.push_front(overlay, &mut self.renderer)
    }

    /// Detaches and drops the overlay under `handle`; returns whether there was one.
    pub fn remove_overlay(&mut self, handle: OverlayHandle) -> (r: bool)
        requires
            old(self).wf(),
        ensures
            final(self).wf(),
            r == old(self).stack().handles().contains(handle),
            final(self).stack().next_handle() == old(self).stack().next_handle(),
            r ==> exists|i: int|
                0 <= i < old(self).stack().handles().len() && old(self).stack().handles()[i] == handle
                    && final(self).stack().handles() == old(self).stack().handles().remove(i),
            r ==> final(self).stack().history() == old(self).stack().history().push(
                Delivery { handle, callback: Callback::Detach, handled: false },
            ),
            !r ==> final(self).stack().handles() == old(self).stack().handles(),
            !r ==> final(self).stack().history() == old(self).stack().history(),
            final(self).running() == old(self).running(),
            final(self).input_state() == old(self).input_state(),
    {
        self.overlay_stack.remove_overlay(handle, &mut self.renderer)
    }

    /// Runs one frame on the events that the window reported since the last one, `dt`
    /// after the last frame began.
    pub fn update(&mut self, dt: Duration, events: Vec<WindowEvent>)
        requires
            old(self).wf(),
        ensures
            final(self).wf(),
            final(self).running() == (old(self).running() && !requests_close(events@)),
            (final(self).input_state().pressed_set(), final(self).input_state().position()) == observed_all(
                old(self).input_state().pressed_set(),
                old(self).input_state().position(),
                events@,
            ),
            final(self).stack().handles() == old(self).stack().handles(),
            final(self).stack().next_handle() == old(self).stack().next_handle(),
            ({
                let before = old(self).stack().history();
                let after = final(self).stack().history();
                let handles = old(self).stack().handles();
                let tail = broadcast_records(handles, Callback::Update) + broadcast_records(handles, Callback::Render);
                &&& before.len() + tail.len() <= after.len()
                &&& after.take(before.len() as int) == before
                &&& after.skip(after.len() - tail.len()) == tail
                &&& forall|k: int|
                    before.len() <= k < after.len() - tail.len() ==> (#[trigger] after[k]).callback is Input
            }),
    {
        let mut events = events;
        let ghost incoming = events@;
        let ghost start = self.overlay_stack.history();
        let mut i: usize = 0;
        while i < events.len()
            invariant
                self.wf(),
                i <= events@.len(),
                events@.len() == incoming.len(),
                forall|j: int| i <= j < events@.len() ==> events@[j] == incoming[j],
                self.running() == (old(self).running() && !requests_close(incoming.take(i as int))),
                (self.input_state().pressed_set(), self.input_state().position()) == observed_all(
                    old(self).input_state().pressed_set(),
                    old(self).input_state().position(),
                    incoming.take(i as int),
                ),
                self.stack().handles() == old(self).stack().handles(),
                self.stack().next_handle() == old(self).stack().next_handle(),
                start == old(self).stack().history(),
                start.len() <= self.stack().history().len(),
                self.stack().history().take(start.len() as int) == start,
                forall|k: int|
                    start.len() <= k < self.stack().history().len() ==> (#[trigger] self.stack().history()[k]).callback is Input,
            decreases events@.len() - i,
        {
            let ghost prev_history = self.overlay_stack.history();
            let ghost event = events@[i as int];
            self.input.observe(&events[i]);
            if events[i].event_type() == EventType::WindowCloseRequested {
                self.is_running = false;
            }
            self.overlay_stack.submit(&mut events[i]);
            proof {
                assert(incoming.take(i + 1).drop_last() =~= incoming.take(i as int));
                assert(incoming.take(i + 1).last() == event);
                let after = self.stack().history();
                assert(after.take(prev_history.len() as int) == prev_history);
                assert(after.take(start.len() as int) =~= start) by {
                    assert(prev_history.take(start.len() as int) == start);
                    assert forall|k: int| 0 <= k < start.len() implies after[k] == start[k] by {
                        assert(after.take(prev_history.len() as int)[k] == after[k]);
                    }
                }
                assert forall|k: int| start.len() <= k < after.len() implies (#[trigger] after[k]).callback is Input by {
                    if k < prev_history.len() {
                        assert(after.take(prev_history.len() as int)[k] == after[k]);
                    } else {
                        let new = after.skip(prev_history.len() as int);
                        assert(new[k - prev_history.len()] == after[k]);
                    }
                }
                assert(requests_close(incoming.take(i + 1)) == (requests_close(incoming.take(i as int))
                    || event.kind() == EventType::WindowCloseRequested)) by {
                    if requests_close(incoming.take(i + 1)) {
                        let j = choose|j: int| 0 <= j < i + 1 && (#[trigger] incoming.take(i + 1)[j]).kind() == EventType::WindowCloseRequested;
                        if j < i {
                            assert(incoming.take(i as int)[j] == incoming.take(i + 1)[j]);
                        }
                    }
                    if requests_close(incoming.take(i as int)) {
                        let j = choose|j: int| 0 <= j < i && (#[trigger] incoming.take(i as int)[j]).kind() == EventType::WindowCloseRequested;
                        assert(incoming.take(i as int)[j] == incoming.take(i + 1)[j]);
                    }
                    if event.kind() == EventType::WindowCloseRequested {
                        assert(incoming.take(i + 1)[i as int] == event);
                    }
                }
            }
            i += 1;
        }
        proof {
            assert(incoming.take(i as int) =~= incoming);
        }
        let ghost mid = self.overlay_stack.history();
        self.overlay_stack.call_update(dt, &self.input);
        self.renderer.clear();
        self.overlay_stack.call_render(&mut self.renderer);
        proof {
            let handles = old(self).stack().handles();
            let tail = broadcast_records(handles, Callback::Update) + broadcast_records(handles, Callback::Render);
            let after = self.stack().history();
            assert(after =~= mid + tail);
            assert(after.skip(after.len() - tail.len()) =~= tail);
            assert(after.take(start.len() as int) =~= start) by {
                assert forall|k: int| 0 <= k < start.len() implies after[k] == start[k] by {
                    assert(mid.take(start.len() as int)[k] == mid[k]);
                }
            }
            assert forall|k: int| start.len() <= k < after.len() - tail.len() implies (#[trigger] after[k]).callback is Input by {
                assert(after[k] == mid[k]);
            }
        }
    }

    /// The renderer, for drawing or creating resources outside an overlay callback.
    pub fn renderer(&mut self) -> (r: &mut O::Target)
        ensures
            final(self).stack() == old(self).stack(),
            final(self).running() == old(self).running(),
            final(self).input_state() == old(self).input_state(),
    {
        &mut self.renderer
    }

    /// Detaches and drops every overlay, front to back.
    pub fn shutdown(&mut self)
        requires
            old(self).wf(),
        ensures
            final(self).wf(),
            final(self).stack().handles() == Seq::<OverlayHandle>::empty(),
            final(self).stack().history() == old(self).stack().history() + broadcast_records(
                old(self).stack().handles(),
                Callback::Detach,
            ),
    {
        self.overlay_stack.detach_all(&mut self.renderer);
    }
}

} // verus!
