use vstd::prelude::*;

use crate::input::{Button, InputState};
use crate::events::{Event, EventType, ScrollDelta};
use crate::renderer::Renderer;

use std::time::Duration;

verus! {

/// Identifies an overlay inside an [`OverlayStack`]. The value `0` is reserved for "no overlay".
#[derive(PartialEq, Eq, Clone, Copy, Debug, Structural)]
pub struct OverlayHandle(pub u32);

impl OverlayHandle {
    /// The reserved handle that never names a live overlay.
    pub fn none() -> (r: Self)
        ensures
            r.0 == 0,
    {
        OverlayHandle(0)
    }

    /// Wraps a raw handle value.
    pub fn new(value: u32) -> (r: Self)
        ensures
            r.0 == value,
    {
        OverlayHandle(value)
    }
}

/// Overlays are also called layers: a layer handle is an overlay handle.
pub type LayerHandle = OverlayHandle;

/// Overlays are also called layers: a layer stack is an overlay stack.
pub type LayerStack<O> = OverlayStack<O>;

/// A unit of application behaviour that lives in an [`OverlayStack`].
///
/// Every callback does nothing by default; the input callbacks return whether the
/// overlay handled the event, `false` by default.
#[allow(unused_variables)]
pub trait Overlay {
    /// The renderer that the overlay draws with.
    type Target: Renderer;

    fn on_attach(&mut self, renderer: &mut Self::Target) {
    }

    fn on_detach(&mut self, renderer: &mut Self::Target) {
    }

    fn on_update(&mut self, dt: Duration, input: &InputState) {
    }

    fn on_render(&mut self, renderer: &mut Self::Target) {
    }

    fn on_window_close_requested(&mut self) {
    }

    fn on_window_resize(&mut self, size: (u32, u32)) {
    }

    fn on_key_press(&mut self, button: Button, repeat: bool) -> bool {
        false
    }

    fn on_key_release(&mut self, button: Button) -> bool {
        false
    }

    fn on_text_written(&mut self, which: char) -> bool {
        false
    }

    fn on_mouse_down(&mut self, button: Button) -> bool {
        false
    }

    fn on_mouse_up(&mut self, button: Button) -> bool {
        false
    }

    fn on_mouse_move(&mut self, position: (u32, u32), delta: (i32, i32)) -> bool {
        false
    }

    fn on_mouse_scroll(&mut self, delta: ScrollDelta) -> bool {
        false
    }
}


/// Which callback the stack invoked on an overlay.
#[derive(PartialEq, Eq, Clone, Copy, Debug, Structural)]
pub enum Callback {
    Attach,
    Detach,
    Update,
    Render,
    Input(EventType),
}

/// One callback made by the stack: the overlay it went to, which callback it was, and,
/// for an input callback, whether the event was handled once it returned.
#[derive(PartialEq, Eq, Clone, Copy, Debug, Structural)]
pub struct Delivery {
    pub handle: OverlayHandle,
    pub callback: Callback,
    pub handled: bool,
}

/// How many times `history` shows callback `callback` going to `handle`.
pub open spec fn count_calls(history: Seq<Delivery>, handle: OverlayHandle, callback: Callback) -> nat
    decreases history.len(),
{
    if history.len() == 0 {
        0
    } else {
        count_calls(history.drop_last(), handle, callback) + if history.last().handle == handle
            && history.last().callback == callback {
            1nat
        } else {
            0nat
        }
    }
}

proof fn lemma_count_push(history: Seq<Delivery>, d: Delivery, handle: OverlayHandle, callback: Callback)
    ensures
        count_calls(history.push(d), handle, callback) == count_calls(history, handle, callback) + if d.handle
            == handle && d.callback == callback {
            1nat
        } else {
            0nat
        },
{
    assert(history.push(d).drop_last() =~= history);
}

proof fn lemma_count_absent(history: Seq<Delivery>, handle: OverlayHandle, callback: Callback)
    requires
        forall|k: int| 0 <= k < history.len() ==> history[k].handle != handle,
    ensures
        count_calls(history, handle, callback) == 0,
    decreases history.len(),
{
    if history.len() > 0 {
        lemma_count_absent(history.drop_last(), handle, callback);
    }
}

/// The records of `callback` going to each overlay of `handles`, in order, none handled.
pub open spec fn broadcast_records(handles: Seq<OverlayHandle>, callback: Callback) -> Seq<Delivery> {
    handles.map_values(|h: OverlayHandle| Delivery { handle: h, callback, handled: false })
}

/// The records that `after` holds beyond its prefix `before`.
pub open spec fn appended(before: Seq<Delivery>, after: Seq<Delivery>) -> Seq<Delivery> {
    after.skip(before.len() as int)
}

/// Says that `after` extends `before` by records of an input event of kind `kind` going to
/// the front overlays of `handles` in order, up to and including the first one that
/// handled it, or to all of them when none did.
pub open spec fn delivered_until_handled(
    before: Seq<Delivery>,
    after: Seq<Delivery>,
    handles: Seq<OverlayHandle>,
    kind: EventType,
) -> bool {
    let new = appended(before, after);
    &&& before.len() <= after.len()
    &&& after.take(before.len() as int) == before
    &&& new.len() <= handles.len()
    &&& forall|i: int|
        0 <= i < new.len() ==> (#[trigger] new[i]).handle == handles[i] && new[i].callback
            == Callback::Input(kind)
    &&& forall|i: int| 0 <= i < new.len() - 1 ==> !(#[trigger] new[i]).handled
    &&& new.len() < handles.len() ==> new.len() > 0 && new.last().handled
}

/// A structural change to an overlay stack.
#[derive(PartialEq, Eq, Clone, Copy, Debug, Structural)]
pub enum StackOp {
    PushFront,
    PushBack,
    Remove(OverlayHandle),
}

/// `handles` without the first occurrence of `handle`, or unchanged when it has none.
pub open spec fn remove_first(handles: Seq<OverlayHandle>, handle: OverlayHandle) -> Seq<OverlayHandle>
    decreases handles.len(),
{
    if handles.len() == 0 {
        handles
    } else if handles[0] == handle {
        handles.drop_first()
    } else {
        seq![handles[0]] + remove_first(handles.drop_first(), handle)
    }
}

/// The handles, front to back, and the next handle value once `op` is applied. A push
/// issues the handle whose value is `next`.
pub open spec fn stack_step(handles: Seq<OverlayHandle>, next: nat, op: StackOp) -> (Seq<OverlayHandle>, nat) {
    match op {
        StackOp::PushFront => (seq![OverlayHandle(next as u32)] + handles, next + 1),
        StackOp::PushBack => (handles.push(OverlayHandle(next as u32)), next + 1),
        StackOp::Remove(h) => (remove_first(handles, h), next),
    }
}

/// Applies `ops` in order, starting from `handles` and `next`: the handles front to back
/// at the end, the next handle value, and the handles that the pushes returned, in order.
pub open spec fn stack_run(handles: Seq<OverlayHandle>, next: nat, ops: Seq<StackOp>) -> (
    Seq<OverlayHandle>,
    nat,
    Seq<OverlayHandle>,
)
    decreases ops.len(),
{
    if ops.len() == 0 {
        (handles, next, seq![])
    } else {
        let prev = stack_run(handles, next, ops.drop_last());
        let now = stack_step(prev.0, prev.1, ops.last());
        (now.0, now.1, if ops.last() is Remove {
            prev.2
        } else {
            prev.2.push(OverlayHandle(prev.1 as u32))
        })
    }
}

proof fn lemma_remove_first_at(handles: Seq<OverlayHandle>, handle: OverlayHandle, i: int)
    requires
        0 <= i < handles.len(),
        handles[i] == handle,
        forall|j: int| 0 <= j < i ==> handles[j] != handle,
    ensures
        remove_first(handles, handle) == handles.remove(i),
    decreases handles.len(),
{
    if i == 0 {
        assert(handles.drop_first() =~= handles.remove(0));
    } else {
        let rest = handles.drop_first();
        lemma_remove_first_at(rest, handle, i - 1);
        assert(seq![handles[0]] + rest.remove(i - 1) =~= handles.remove(i));
    }
}

proof fn lemma_remove_first_absent(handles: Seq<OverlayHandle>, handle: OverlayHandle)
    requires
        !handles.contains(handle),
    ensures
        remove_first(handles, handle) == handles,
    decreases handles.len(),
{
    if handles.len() > 0 {
        let rest = handles.drop_first();
        assert(!rest.contains(handle)) by {
            if rest.contains(handle) {
                let j = choose|j: int| 0 <= j < rest.len() && rest[j] == handle;
                assert(handles[j + 1] == handle);
            }
        }
        assert(handles[0] != handle);
        lemma_remove_first_absent(rest, handle);
        assert(seq![handles[0]] + rest =~= handles);
    }
}

/// Removing keeps distinct handles distinct, and keeps only handles that were there.
proof fn lemma_remove_first_distinct(handles: Seq<OverlayHandle>, handle: OverlayHandle)
    requires
        handles.no_duplicates(),
    ensures
        remove_first(handles, handle).no_duplicates(),
        forall|i: int|
            0 <= i < remove_first(handles, handle).len() ==> handles.contains(
                #[trigger] remove_first(handles, handle)[i],
            ),
{
    if handles.contains(handle) {
        let i = choose|i: int| 0 <= i < handles.len() && handles[i] == handle;
        assert forall|j: int| 0 <= j < i implies handles[j] != handle by {
            assert(handles[j] != handles[i]);
        }
        lemma_remove_first_at(handles, handle, i);
        let r = handles.remove(i);
        assert forall|a: int, b: int| 0 <= a < b < r.len() implies r[a] != r[b] by {
            assert(handles[if a < i { a } else { a + 1 }] != handles[if b < i { b } else { b + 1 }]);
        }
        assert forall|k: int| 0 <= k < r.len() implies handles.contains(#[trigger] r[k]) by {
            assert(handles[if k < i { k } else { k + 1 }] == r[k]);
        }
    } else {
        lemma_remove_first_absent(handles, handle);
        assert forall|k: int| 0 <= k < handles.len() implies handles.contains(#[trigger] handles[k]) by {
        }
    }
}

/// Over any sequence of pushes and removals, the handles that the pushes return are
/// non-zero, distinct, and distinct from every handle present at the start; they count
/// up from `next`. The handles present at the end are distinct and were all issued.
pub proof fn lemma_run_handles_unique(handles: Seq<OverlayHandle>, next: nat, ops: Seq<StackOp>)
    requires
        1 <= next,
        next + ops.len() <= u32::MAX,
        handles.no_duplicates(),
        forall|i: int| 0 <= i < handles.len() ==> 1 <= (#[trigger] handles[i]).0 < next,
    ensures
        ({
            let (end, end_next, issued) = stack_run(handles, next, ops);
            &&& end_next == next + issued.len()
            &&& issued.len() <= ops.len()
            &&& forall|i: int| 0 <= i < issued.len() ==> (#[trigger] issued[i]).0 == next + i
            &&& forall|i: int| 0 <= i < issued.len() ==> (#[trigger] issued[i]).0 != 0
            &&& issued.no_duplicates()
            &&& forall|i: int| 0 <= i < issued.len() ==> !handles.contains(#[trigger] issued[i])
            &&& end.no_duplicates()
            &&& forall|i: int| 0 <= i < end.len() ==> 1 <= (#[trigger] end[i]).0 < end_next
        }),
    decreases ops.len(),
{
    if ops.len() > 0 {
        lemma_run_handles_unique(handles, next, ops.drop_last());
        let prev = stack_run(handles, next, ops.drop_last());
        let (end, end_next, issued) = stack_run(handles, next, ops);
        let fresh = OverlayHandle(prev.1 as u32);
        assert(prev.1 < u32::MAX);
        assert forall|i: int| 0 <= i < prev.0.len() implies (#[trigger] prev.0[i]) != fresh by {
        }
        match ops.last() {
            StackOp::Remove(h) => {
                lemma_remove_first_distinct(prev.0, h);
                assert forall|i: int| 0 <= i < end.len() implies 1 <= (#[trigger] end[i]).0 < end_next by {
                    assert(prev.0.contains(end[i]));
                    let j = choose|j: int| 0 <= j < prev.0.len() && prev.0[j] == end[i];
                    assert(1 <= prev.0[j].0 < prev.1);
                }
            },
            _ => {
                assert(issued == prev.2.push(fresh));
                assert forall|i: int| 0 <= i < issued.len() implies (#[trigger] issued[i]).0 == next + i by {
                    if i < prev.2.len() {
                        assert(issued[i] == prev.2[i]);
                    }
                }
                assert forall|i: int| 0 <= i < issued.len() implies !handles.contains(#[trigger] issued[i]) by {
                    if handles.contains(issued[i]) {
                        let j = choose|j: int| 0 <= j < handles.len() && handles[j] == issued[i];
                        assert(handles[j].0 < next);
                    }
                }
                assert forall|a: int, b: int| 0 <= a < b < issued.len() implies issued[a] != issued[b] by {
                    assert(issued[a].0 == next + a);
                    assert(issued[b].0 == next + b);
                }
                let pos: int = if ops.last() is PushFront { 0 } else { prev.0.len() as int };
                let shift: int = if ops.last() is PushFront { 1 } else { 0 };
                assert(end[pos] == fresh);
                assert forall|i: int| 0 <= i < end.len() && i != pos implies end[i] == prev.0[i - shift] by {
                }
                assert forall|i: int| 0 <= i < end.len() implies 1 <= (#[trigger] end[i]).0 < end_next by {
                    if i != pos {
                        assert(1 <= prev.0[i - shift].0 < prev.1);
                    }
                }
                assert forall|a: int, b: int| 0 <= a < b < end.len() implies end[a] != end[b] by {
                    if a != pos && b != pos {
                        assert(prev.0[a - shift] != prev.0[b - shift]);
                    } else if a == pos {
                        assert(prev.0[b - shift] != fresh);
                    } else {
                        assert(prev.0[a - shift] != fresh);
                    }
                }
            },
        }
    }
}

/// Handles are never reused: for a well-formed stack, the handle that the next push will
/// return is not zero and differs from every handle the stack has ever issued, whether
/// its overlay is still present or was removed. Live handles are non-zero and distinct.
pub proof fn lemma_next_handle_is_fresh<O>(stack: OverlayStack<O>)
    requires
        stack.wf(),
    ensures
        stack.next_handle() != 0,
        stack.handles().no_duplicates(),
        forall|i: int| 0 <= i < stack.handles().len() ==> (#[trigger] stack.handles()[i]).0 != 0,
        forall|i: int|
            0 <= i < stack.handles().len() ==> (#[trigger] stack.handles()[i]).0 != stack.next_handle(),
        forall|k: int|
            0 <= k < stack.history().len() ==> (#[trigger] stack.history()[k]).handle.0 != stack.next_handle(),
        forall|h: OverlayHandle|
            stack.issued(h) ==> #[trigger] count_calls(stack.history(), h, Callback::Attach) == 1,
{
    assert forall|i: int| 0 <= i < stack.handles().len() implies (#[trigger] stack.handles()[i]).0 != 0
        && stack.handles()[i].0 != stack.next_handle() by {
        assert(stack.issued(stack.handles()[i]));
    }
    assert forall|k: int| 0 <= k < stack.history().len() implies (#[trigger] stack.history()[k]).handle.0
        != stack.next_handle() by {
        assert(stack.issued(stack.history()[k].handle));
    }
}

/// Short-circuit delivery: when the overlay at position `k` is the first to handle an
/// event, the overlays before it received the event, in order, and none after it did.
pub proof fn lemma_short_circuit(
    before: Seq<Delivery>,
    after: Seq<Delivery>,
    handles: Seq<OverlayHandle>,
    kind: EventType,
    k: int,
)
    requires
        delivered_until_handled(before, after, handles, kind),
        handles.no_duplicates(),
        0 <= k < appended(before, after).len(),
        appended(before, after)[k].handled,
    ensures
        appended(before, after).len() == k + 1,
        forall|j: int|
            0 <= j <= k ==> (#[trigger] appended(before, after)[j]).handle == handles[j]
                && appended(before, after)[j].callback == Callback::Input(kind),
        forall|j: int| 0 <= j < k ==> !(#[trigger] appended(before, after)[j]).handled,
        forall|j: int, m: int|
            k < j < handles.len() && 0 <= m < appended(before, after).len() ==> (#[trigger] appended(
                before,
                after,
            )[m]).handle != #[trigger] handles[j],
{
    let new = appended(before, after);
    if new.len() > k + 1 {
        assert(!new[k].handled);
    }
    assert forall|j: int, m: int| k < j < handles.len() && 0 <= m < new.len() implies (#[trigger] new[m]).handle
        != #[trigger] handles[j] by {
        assert(new[m].handle == handles[m]);
    }
}

/// Updates and renders reach every overlay exactly once, in stack order: the records of
/// a broadcast follow `handles` one for one, and name each distinct handle once.
pub proof fn lemma_broadcast_once_each(handles: Seq<OverlayHandle>, callback: Callback)
    requires
        handles.no_duplicates(),
    ensures
        broadcast_records(handles, callback).len() == handles.len(),
        forall|i: int|
            0 <= i < handles.len() ==> (#[trigger] broadcast_records(handles, callback)[i]).handle == handles[i]
                && broadcast_records(handles, callback)[i].callback == callback,
        forall|i: int|
            0 <= i < handles.len() ==> #[trigger] count_calls(broadcast_records(handles, callback), handles[i], callback)
                == 1,
    decreases handles.len(),
{
    let records = broadcast_records(handles, callback);
    if handles.len() > 0 {
        let rest = handles.drop_last();
        assert(rest.no_duplicates()) by {
            assert forall|a: int, b: int| 0 <= a < b < rest.len() implies rest[a] != rest[b] by {
                assert(rest[a] == handles[a] && rest[b] == handles[b]);
            }
        }
        lemma_broadcast_once_each(rest, callback);
        assert(records.drop_last() =~= broadcast_records(rest, callback));
        assert forall|i: int| 0 <= i < handles.len() implies #[trigger] count_calls(records, handles[i], callback) == 1 by {
            let last = handles.len() - 1;
            assert(records.last().handle == handles[last] && records.last().callback == callback);
            assert(count_calls(records, handles[i], callback) == count_calls(records.drop_last(), handles[i], callback)
                + if records.last().handle == handles[i] && records.last().callback == callback { 1nat } else { 0nat });
            if i < last {
                assert(rest[i] == handles[i]);
                assert(handles[last] != handles[i]);
            } else {
                assert forall|m: int| 0 <= m < rest.len() implies broadcast_records(rest, callback)[m].handle != handles[i] by {
                    assert(broadcast_records(rest, callback)[m].handle == rest[m]);
                    assert(rest[m] == handles[m]);
                }
                lemma_count_absent(broadcast_records(rest, callback), handles[i], callback);
            }
        }
    }
}

/// An ordered collection of overlays, each under a handle that is never issued twice.
///
/// Events go to the overlays front to back until one handles them; updates and renders
/// go to every overlay in the same order. Front-pushed overlays come first.
pub struct OverlayStack<O> {
    inner: Vec<(O, OverlayHandle)>,
    handle_counter: u32,
    history: Ghost<Seq<Delivery>>,
}

impl<O> OverlayStack<O> {
    /// The handles of the overlays, front to back.
    pub closed spec fn handles(&self) -> Seq<OverlayHandle> {
        self.inner@.map_values(|e: (O, OverlayHandle)| e.1)
    }

    /// The overlays, front to back.
    pub closed spec fn overlays(&self) -> Seq<O> {
        self.inner@.map_values(|e: (O, OverlayHandle)| e.0)
    }

    /// The value of the handle that the next push will issue.
    pub closed spec fn next_handle(&self) -> u32 {
        self.handle_counter
    }

    /// Every callback that the stack has made, in order.
    pub closed spec fn history(&self) -> Seq<Delivery> {
        self.history@
    }

    /// Whether `handle` was issued by this stack.
    pub open spec fn issued(&self, handle: OverlayHandle) -> bool {
        1 <= handle.0 < self.next_handle()
    }

    /// Well-formedness: live handles are issued and distinct; every issued overlay was
    /// attached exactly once, and detached exactly once if and only if it was removed.
    pub open spec fn wf(&self) -> bool {
        &&& self.next_handle() >= 1
        &&& self.overlays().len() == self.handles().len()
        &&& forall|i: int| 0 <= i < self.handles().len() ==> self.issued(#[trigger] self.handles()[i])
        &&& self.handles().no_duplicates()
        &&& forall|k: int| 0 <= k < self.history().len() ==> self.issued(#[trigger] self.history()[k].handle)
        &&& forall|h: OverlayHandle|
            self.issued(h) ==> #[trigger] count_calls(self.history(), h, Callback::Attach) == 1
        &&& forall|h: OverlayHandle|
            self.issued(h) ==> #[trigger] count_calls(self.history(), h, Callback::Detach) == if self.handles().contains(h) {
                0nat
            } else {
                1nat
            }
    }

    /// An empty stack whose first handle will be `1`.
    pub fn new() -> (r: Self)
        ensures
            r.wf(),
            r.handles() == Seq::<OverlayHandle>::empty(),
            r.history() == Seq::<Delivery>::empty(),
            r.next_handle() == 1,
    {
        let r = OverlayStack { inner: Vec::new(), handle_counter: 1, history: Ghost(Seq::empty()) };
        assert(r.handles() =~= Seq::<OverlayHandle>::empty());
        r
    }

    /// Number of overlays in the stack.
    pub fn len(&self) -> (r: usize)
        ensures
            r == self.handles().len(),
    {
        self.inner.len()
    }

    /// Whether another overlay can be pushed: handles are 32-bit and never reused.
    pub fn has_free_handle(&self) -> (r: bool)
        ensures
            r == (self.next_handle() < u32::MAX),
    {
        self.handle_counter < u32::MAX
    }

    proof fn lemma_fresh(&self)
        requires
            self.wf(),
        ensures
            !self.handles().contains(OverlayHandle(self.next_handle())),
            count_calls(self.history(), OverlayHandle(self.next_handle()), Callback::Attach) == 0,
            count_calls(self.history(), OverlayHandle(self.next_handle()), Callback::Detach) == 0,
    {
        let h = OverlayHandle(self.next_handle());
        if self.handles().contains(h) {
            let i = choose|i: int| 0 <= i < self.handles().len() && self.handles()[i] == h;
            assert(self.issued(self.handles()[i]));
        }
        assert forall|k: int| 0 <= k < self.history().len() implies self.history()[k].handle != h by {
            assert(self.issued(self.history()[k].handle));
        }
        lemma_count_absent(self.history(), h, Callback::Attach);
        lemma_count_absent(self.history(), h, Callback::Detach);
    }

    /// Attaches `overlay`, gives it the next handle and puts it behind every other overlay.
    pub fn push_back(&mut self, overlay: O, renderer: &mut O::Target) -> (r: OverlayHandle) where
        O: Overlay,
        requires
            old(self).wf(),
            old(self).next_handle() < u32::MAX,
        ensures
            final(self).wf(),
            r.0 != 0,
            r.0 == old(self).next_handle(),
            final(self).next_handle() == old(self).next_handle() + 1,
            final(self).handles() == old(self).handles().push(r),
            (final(self).handles(), final(self).next_handle() as nat) == stack_step(
                old(self).handles(),
                old(self).next_handle() as nat,
                StackOp::PushBack,
            ),
            final(self).overlays().drop_last() == old(self).overlays(),
            final(self).history() == old(self).history().push(
                Delivery { handle: r, callback: Callback::Attach, handled: false },
            ),
    {
        let mut overlay = overlay;
        let handle = OverlayHandle(self.handle_counter);
        proof {
            self.lemma_fresh();
        }
        overlay.on_attach(renderer);
        let ghost d = Delivery { handle, callback: Callback::Attach, handled: false };
        self.history = Ghost(self.history@.push(d));
        self.handle_counter = self.handle_counter + 1;
        self.inner.push((overlay, handle));
        proof {
            assert(self.handles() =~= old(self).handles().push(handle));
            assert(self.overlays().drop_last() =~= old(self).overlays());
            self.lemma_after_attach(*old(self), handle, false);
        }
        handle
    }

    /// Attaches `overlay`, gives it the next handle and puts it ahead of every other overlay.
    pub fn push_front(&mut self, overlay: O, renderer: &mut O::Target) -> (r: OverlayHandle) where
        O: Overlay,
        requires
            old(self).wf(),
            old(self).next_handle() < u32::MAX,
        ensures
            final(self).wf(),
            r.0 != 0,
            r.0 == old(self).next_handle(),
            final(self).next_handle() == old(self).next_handle() + 1,
            final(self).handles() == seq![r] + old(self).handles(),
            (final(self).handles(), final(self).next_handle() as nat) == stack_step(
                old(self).handles(),
                old(self).next_handle() as nat,
                StackOp::PushFront,
            ),
            final(self).overlays().drop_first() == old(self).overlays(),
            final(self).history() == old(self).history().push(
                Delivery { handle: r, callback: Callback::Attach, handled: false },
            ),
    {
        let mut overlay = overlay;
        let handle = OverlayHandle(self.handle_counter);
        proof {
            self.lemma_fresh();
        }
        overlay.on_attach(renderer);
        let ghost d = Delivery { handle, callback: Callback::Attach, handled: false };
        self.history = Ghost(self.history@.push(d));
        self.handle_counter = self.handle_counter + 1;
        self.inner.insert(0, (overlay, handle));
        proof {
            assert(self.handles() =~= seq![handle] + old(self).handles());
            assert(self.overlays().drop_first() =~= old(self).overlays());
            self.lemma_after_attach(*old(self), handle, true);
        }
        handle
    }

    proof fn lemma_after_attach(&self, prev: Self, handle: OverlayHandle, front: bool)
        requires
            prev.wf(),
            prev.next_handle() < u32::MAX,
            handle.0 == prev.next_handle(),
            self.next_handle() == prev.next_handle() + 1,
            self.overlays().len() == self.handles().len(),
            self.handles() == if front {
                seq![handle] + prev.handles()
            } else {
                prev.handles().push(handle)
            },
            self.history() == prev.history().push(
                Delivery { handle, callback: Callback::Attach, handled: false },
            ),
        ensures
            self.wf(),
    {
        prev.lemma_fresh();
        let d = Delivery { handle, callback: Callback::Attach, handled: false };
        let shift: int = if front { 1 } else { 0 };
        let pos: int = if front { 0 } else { prev.handles().len() as int };
        assert forall|j: int| 0 <= j < prev.handles().len() implies self.handles()[j + shift] == prev.handles()[j] by {
        }
        assert(self.handles()[pos] == handle);
        assert forall|i: int| 0 <= i < self.handles().len() && i != pos implies self.handles()[i] == prev.handles()[i - shift] by {
        }
        assert forall|h: OverlayHandle| self.handles().contains(h) <==> prev.handles().contains(h) || h == handle by {
            if self.handles().contains(h) && h != handle {
                let i = choose|i: int| 0 <= i < self.handles().len() && self.handles()[i] == h;
                assert(prev.handles()[i - shift] == h);
            }
            if prev.handles().contains(h) {
                let j = choose|j: int| 0 <= j < prev.handles().len() && prev.handles()[j] == h;
                assert(self.handles()[j + shift] == h);
            }
        }
        assert forall|i: int| 0 <= i < self.handles().len() implies self.issued(#[trigger] self.handles()[i]) by {
            if i != pos {
                assert(prev.issued(prev.handles()[i - shift]));
            }
        }
        assert forall|a: int, b: int| 0 <= a < b < self.handles().len() implies self.handles()[a] != self.handles()[b] by {
            if a != pos && b != pos {
                assert(prev.handles()[a - shift] != prev.handles()[b - shift]);
            } else if a == pos {
                assert(prev.issued(prev.handles()[b - shift]));
            } else {
                assert(prev.issued(prev.handles()[a - shift]));
            }
        }
        assert forall|k: int| 0 <= k < self.history().len() implies self.issued(#[trigger] self.history()[k].handle) by {
            if k < prev.history().len() {
                assert(self.history()[k] == prev.history()[k]);
                assert(prev.issued(prev.history()[k].handle));
            }
        }
        assert forall|h: OverlayHandle| self.issued(h) implies #[trigger] count_calls(self.history(), h, Callback::Attach) == 1 by {
            lemma_count_push(prev.history(), d, h, Callback::Attach);
        }
        assert forall|h: OverlayHandle| self.issued(h) implies #[trigger] count_calls(self.history(), h, Callback::Detach)
            == if self.handles().contains(h) { 0nat } else { 1nat } by {
            lemma_count_push(prev.history(), d, h, Callback::Detach);
        }
    }

    proof fn lemma_record_keeps_wf(&self, prev: Self, d: Delivery)
        requires
            prev.wf(),
            self.next_handle() == prev.next_handle(),
            self.handles() == prev.handles(),
            self.overlays().len() == prev.overlays().len(),
            self.history() == prev.history().push(d),
            prev.handles().contains(d.handle),
            d.callback != Callback::Attach,
            d.callback != Callback::Detach,
        ensures
            self.wf(),
    {
        let i = choose|i: int| 0 <= i < prev.handles().len() && prev.handles()[i] == d.handle;
        assert(prev.issued(prev.handles()[i]));
        assert forall|k: int| 0 <= k < self.history().len() implies self.issued(#[trigger] self.history()[k].handle) by {
            if k < prev.history().len() {
                assert(self.history()[k] == prev.history()[k]);
                assert(prev.issued(prev.history()[k].handle));
            }
        }
        assert forall|h: OverlayHandle| self.issued(h) implies #[trigger] count_calls(self.history(), h, Callback::Attach) == 1 by {
            lemma_count_push(prev.history(), d, h, Callback::Attach);
        }
        assert forall|h: OverlayHandle| self.issued(h) implies #[trigger] count_calls(self.history(), h, Callback::Detach)
            == if self.handles().contains(h) { 0nat } else { 1nat } by {
            lemma_count_push(prev.history(), d, h, Callback::Detach);
        }
        assert forall|i: int| 0 <= i < self.handles().len() implies self.issued(#[trigger] self.handles()[i]) by {
            assert(prev.issued(prev.handles()[i]));
        }
    }

    /// Detaches and drops the overlay under `handle`. Returns whether there was one; when
    /// there was none, nothing changes.
    pub fn remove_overlay(&mut self, handle: OverlayHandle, renderer: &mut O::Target) -> (r: bool) where
        O: Overlay,
        requires
            old(self).wf(),
        ensures
            final(self).wf(),
            r == old(self).handles().contains(handle),
            final(self).next_handle() == old(self).next_handle(),
            final(self).handles() == remove_first(old(self).handles(), handle),
            r ==> exists|i: int|
                0 <= i < old(self).handles().len() && old(self).handles()[i] == handle
                    && final(self).handles() == old(self).handles().remove(i)
                    && final(self).overlays() == old(self).overlays().remove(i),
            r ==> final(self).history() == old(self).history().push(
                Delivery { handle, callback: Callback::Detach, handled: false },
            ),
            !r ==> final(self).handles() == old(self).handles(),
            !r ==> final(self).overlays() == old(self).overlays(),
            !r ==> final(self).history() == old(self).history(),
    {
        let mut i: usize = 0;
        while i < self.inner.len()
            invariant
                *self == *old(self),
                self.wf(),
                i <= self.handles().len(),
                forall|j: int| 0 <= j < i ==> self.handles()[j] != handle,
            decreases self.handles().len() - i,
        {
            if self.inner[i].1 == handle {
                let ghost prev = *self;
                let (mut overlay, _) = self.inner.remove(i);
                overlay.on_detach(renderer);
                let ghost d = Delivery { handle, callback: Callback::Detach, handled: false };
                self.history = Ghost(self.history@.push(d));
                proof {
                    assert(self.handles() =~= prev.handles().remove(i as int));
                    assert(self.overlays() =~= prev.overlays().remove(i as int));
                    self.lemma_after_detach(prev, i as int, d);
                    lemma_remove_first_at(prev.handles(), handle, i as int);
                }
                return true;
            }
            i += 1;
        }
        proof {
            lemma_remove_first_absent(self.handles(), handle);
        }
        false
    }

    proof fn lemma_after_detach(&self, prev: Self, i: int, d: Delivery)
        requires
            prev.wf(),
            0 <= i < prev.handles().len(),
            d == (Delivery { handle: prev.handles()[i], callback: Callback::Detach, handled: false }),
            self.next_handle() == prev.next_handle(),
            self.handles() == prev.handles().remove(i),
            self.overlays() == prev.overlays().remove(i),
            self.history() == prev.history().push(d),
        ensures
            self.wf(),
    {
        let handle = prev.handles()[i];
        assert(prev.issued(handle));
        assert forall|j: int| 0 <= j < self.handles().len() implies self.handles()[j] == prev.handles()[if j < i { j } else { j + 1 }] by {
        }
        assert forall|h: OverlayHandle| self.handles().contains(h) <==> prev.handles().contains(h) && h != handle by {
            if self.handles().contains(h) {
                let j = choose|j: int| 0 <= j < self.handles().len() && self.handles()[j] == h;
                let j0 = if j < i { j } else { j + 1 };
                assert(prev.handles()[j0] == h);
                assert(prev.handles()[j0] != prev.handles()[i]);
            }
            if prev.handles().contains(h) && h != handle {
                let j = choose|j: int| 0 <= j < prev.handles().len() && prev.handles()[j] == h;
                if j < i {
                    assert(self.handles()[j] == h);
                } else {
                    assert(self.handles()[j - 1] == h);
                }
            }
        }
        assert forall|j: int| 0 <= j < self.handles().len() implies self.issued(#[trigger] self.handles()[j]) by {
            assert(prev.issued(prev.handles()[if j < i { j } else { j + 1 }]));
        }
        assert forall|a: int, b: int| 0 <= a < b < self.handles().len() implies self.handles()[a] != self.handles()[b] by {
            assert(prev.handles()[if a < i { a } else { a + 1 }] != prev.handles()[if b < i { b } else { b + 1 }]);
        }
        assert forall|k: int| 0 <= k < self.history().len() implies self.issued(#[trigger] self.history()[k].handle) by {
            if k < prev.history().len() {
                assert(self.history()[k] == prev.history()[k]);
                assert(prev.issued(prev.history()[k].handle));
            }
        }
        assert(prev.handles().contains(handle));
        assert forall|h: OverlayHandle| self.issued(h) implies #[trigger] count_calls(self.history(), h, Callback::Attach) == 1 by {
            lemma_count_push(prev.history(), d, h, Callback::Attach);
        }
        assert forall|h: OverlayHandle| self.issued(h) implies #[trigger] count_calls(self.history(), h, Callback::Detach)
            == if self.handles().contains(h) { 0nat } else { 1nat } by {
            lemma_count_push(prev.history(), d, h, Callback::Detach);
        }
    }

    /// Delivers `event` to the overlays front to back, stopping after the first overlay
    /// that handles it. Overlays behind that one are not touched.
    pub fn submit<E: Event>(&mut self, event: &mut E) where
        O: Overlay,
        requires
            old(self).wf(),
        ensures
            final(self).wf(),
            final(self).handles() == old(self).handles(),
            final(self).next_handle() == old(self).next_handle(),
            final(self).overlays().len() == old(self).overlays().len(),
            final(event).kind() == old(event).kind(),
            final(event).handled() == (appended(old(self).history(), final(self).history()).len() > 0
                && appended(old(self).history(), final(self).history()).last().handled)
                || (appended(old(self).history(), final(self).history()).len() == 0 && old(event).handled()),
            delivered_until_handled(old(self).history(), final(self).history(), old(self).handles(), old(event).kind()),
            forall|j: int|
                appended(old(self).history(), final(self).history()).len() <= j < old(self).overlays().len()
                    ==> #[trigger] final(self).overlays()[j] == old(self).overlays()[j],
            !old(event).kind().can_be_handled() ==> appended(old(self).history(), final(self).history()).len()
                == old(self).handles().len(),
    {
        let ghost kind = event.kind();
        let ghost start = self.history@;
        let mut i: usize = 0;
        while i < self.inner.len()
            invariant
                self.wf(),
                self.handles() == old(self).handles(),
                self.next_handle() == old(self).next_handle(),
                self.overlays().len() == old(self).overlays().len(),
                i <= self.handles().len(),
                start == old(self).history(),
                event.kind() == kind,
                kind == old(event).kind(),
                self.history().len() == start.len() + i,
                i == 0 ==> event.handled() == old(event).handled(),
                i > 0 ==> !event.handled(),
                self.history().take(start.len() as int) == start,
                forall|j: int|
                    0 <= j < i ==> (#[trigger] appended(start, self.history())[j]).handle == self.handles()[j]
                        && appended(start, self.history())[j].callback == Callback::Input(kind)
                        && !appended(start, self.history())[j].handled,
                forall|j: int| i <= j < self.overlays().len() ==> #[trigger] self.overlays()[j] == old(self).overlays()[j],
            decreases self.handles().len() - i,
        {
            let ghost prev = *self;
            event.dispatch(&mut self.inner[i].0);
            let handled = event.is_handled();
            let ghost d = Delivery { handle: prev.handles()[i as int], callback: Callback::Input(kind), handled };
            self.history = Ghost(self.history@.push(d));
            proof {
                assert(self.handles() =~= prev.handles());
                assert(self.overlays().len() == prev.overlays().len());
                assert(prev.handles().contains(d.handle));
                self.lemma_record_keeps_wf(prev, d);
                assert(self.history().take(start.len() as int) =~= start);
                assert forall|j: int| 0 <= j <= i implies (#[trigger] appended(start, self.history())[j])
                    == if j < i { appended(start, prev.history())[j] } else { d } by {
                }
                assert forall|j: int| i < j < self.overlays().len() implies #[trigger] self.overlays()[j] == old(self).overlays()[j] by {
                    assert(self.overlays()[j] == prev.overlays()[j]);
                }
            }
            if handled {
                proof {
                    let new = appended(start, self.history());
                    assert(new.len() == i + 1);
                    assert(new.last() == d);
                    assert(kind.can_be_handled());
                    assert(delivered_until_handled(start, self.history(), old(self).handles(), kind));
                    assert forall|j: int| 0 <= j < new.len() - 1 implies !(#[trigger] new[j]).handled by {
                        assert(new[j] == appended(start, prev.history())[j]);
                    }
                }
                return;
            }
            i += 1;
        }
    }

    /// Calls `on_update` on every overlay, front to back.
    pub fn call_update(&mut self, dt: Duration, input: &InputState) where
        O: Overlay,
        requires
            old(self).wf(),
        ensures
            final(self).wf(),
            final(self).handles() == old(self).handles(),
            final(self).next_handle() == old(self).next_handle(),
            final(self).overlays().len() == old(self).overlays().len(),
            final(self).history() == old(self).history() + broadcast_records(old(self).handles(), Callback::Update),
    {
        let ghost start = self.history@;
        let mut i: usize = 0;
        while i < self.inner.len()
            invariant
                self.wf(),
                self.handles() == old(self).handles(),
                self.next_handle() == old(self).next_handle(),
                self.overlays().len() == old(self).overlays().len(),
                i <= self.handles().len(),
                start == old(self).history(),
                self.history() == start + broadcast_records(self.handles().take(i as int), Callback::Update),
            decreases self.handles().len() - i,
        {
            let ghost prev = *self;
            self.inner[i].0.on_update(dt, input);
            let ghost d = Delivery { handle: prev.handles()[i as int], callback: Callback::Update, handled: false };
            self.history = Ghost(self.history@.push(d));
            proof {
                assert(self.handles() =~= prev.handles());
                assert(prev.handles().contains(d.handle));
                self.lemma_record_keeps_wf(prev, d);
                assert(self.handles().take(i + 1) =~= self.handles().take(i as int).push(d.handle));
                assert(self.history() =~= start + broadcast_records(self.handles().take(i + 1), Callback::Update));
            }
            i += 1;
        }
        assert(self.handles().take(i as int) =~= self.handles());
    }

    /// Calls `on_render` on every overlay, front to back, so that later overlays draw over
    /// earlier ones.
    pub fn call_render(&mut self, renderer: &mut O::Target) where
        O: Overlay,
        requires
            old(self).wf(),
        ensures
            final(self).wf(),
            final(self).handles() == old(self).handles(),
            final(self).next_handle() == old(self).next_handle(),
            final(self).overlays().len() == old(self).overlays().len(),
            final(self).history() == old(self).history() + broadcast_records(old(self).handles(), Callback::Render),
    {
        let ghost start = self.history@;
        let mut i: usize = 0;
        while i < self.inner.len()
            invariant
                self.wf(),
                self.handles() == old(self).handles(),
                self.next_handle() == old(self).next_handle(),
                self.overlays().len() == old(self).overlays().len(),
                i <= self.handles().len(),
                start == old(self).history(),
                self.history() == start + broadcast_records(self.handles().take(i as int), Callback::Render),
            decreases self.handles().len() - i,
        {
            let ghost prev = *self;
            self.inner[i].0.on_render(renderer);
            let ghost d = Delivery { handle: prev.handles()[i as int], callback: Callback::Render, handled: false };
            self.history = Ghost(self.history@.push(d));
            proof {
                assert(self.handles() =~= prev.handles());
                assert(prev.handles().contains(d.handle));
                self.lemma_record_keeps_wf(prev, d);
                assert(self.handles().take(i + 1) =~= self.handles().take(i as int).push(d.handle));
                assert(self.history() =~= start + broadcast_records(self.handles().take(i + 1), Callback::Render));
            }
            i += 1;
        }
        assert(self.handles().take(i as int) =~= self.handles());
    }

    /// Detaches and drops every overlay, front to back, leaving the stack empty.
    pub fn detach_all(&mut self, renderer: &mut O::Target) where
        O: Overlay,
        requires
            old(self).wf(),
        ensures
            final(self).wf(),
            final(self).handles() == Seq::<OverlayHandle>::empty(),
            final(self).next_handle() == old(self).next_handle(),
            final(self).history() == old(self).history() + broadcast_records(old(self).handles(), Callback::Detach),
    {
        let ghost start = self.history@;
        let ghost all = self.handles();
        while self.inner.len() > 0
            invariant
                self.wf(),
                self.next_handle() == old(self).next_handle(),
                start == old(self).history(),
                all == old(self).handles(),
                self.handles().len() <= all.len(),
                self.handles() == all.skip(all.len() - self.handles().len()),
                self.history() == start + broadcast_records(all.take(all.len() - self.handles().len()), Callback::Detach),
            decreases self.handles().len(),
        {
            let ghost prev = *self;
            let ghost done = all.len() - self.handles().len();
            let (mut overlay, handle) = self.inner.remove(0);
            overlay.on_detach(renderer);
            let ghost d = Delivery { handle, callback: Callback::Detach, handled: false };
            self.history = Ghost(self.history@.push(d));
            proof {
                assert(self.handles() =~= prev.handles().remove(0));
                assert(self.overlays() =~= prev.overlays().remove(0));
                assert(prev.handles()[0] == all[done]);
                self.lemma_after_detach(prev, 0, d);
                assert(self.handles() =~= all.skip(all.len() - self.handles().len()));
                assert(all.take(done + 1) =~= all.take(done).push(handle));
                assert(self.history() =~= start + broadcast_records(all.take(all.len() - self.handles().len()), Callback::Detach));
            }
        }
        assert(all.take(all.len() as int) =~= all);
        assert(self.handles() =~= Seq::<OverlayHandle>::empty());
    }
}

} // verus!
