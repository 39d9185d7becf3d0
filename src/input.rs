use vstd::prelude::*;

use crate::events::WindowEvent;

verus! {

/// A keyboard key or mouse button, as reported by the window layer.
#[derive(PartialEq, Eq, Clone, Copy, Debug, Hash, Structural)]
pub enum Button {
    Unknown,
    MouseLeft,
    MouseRight,
    MouseMiddle,
    Mouse4,
    Mouse5,
    Mouse6,
    Mouse7,
    Mouse8,
    LShift,
    LCtrl,
    LAlt,
    LSuper,
    RShift,
    RCtrl,
    RAlt,
    RSuper,
    Tab,
    CapsLock,
    Backspace,
    Escape,
    F1,
    F2,
    F3,
    F4,
    F5,
    F6,
    F7,
    F8,
    F9,
    F10,
    F11,
    F12,
    PrintScreen,
    ScrollLock,
    Pause,
    Insert,
    Delete,
    Home,
    End,
    PgUp,
    PgDown,
    Menu,
    ArrowLeft,
    ArrowUp,
    ArrowRight,
    ArrowDown,
    Tilde,
    Num1,
    Num2,
    Num3,
    Num4,
    Num5,
    Num6,
    Num7,
    Num8,
    Num9,
    Num0,
    Q,
    W,
    E,
    R,
    T,
    Y,
    U,
    I,
    O,
    P,
    A,
    S,
    D,
    F,
    G,
    H,
    J,
    K,
    L,
    Z,
    X,
    C,
    V,
    B,
    N,
    M,
    Space,
    Minus,
    Equals,
    BracketLeft,
    BracketRight,
    Backslash,
    Semicolon,
    Apostrophe,
    Enter,
    Comma,
    Period,
    Slash,
    NumPad0,
    NumPad1,
    NumPad2,
    NumPad3,
    NumPad4,
    NumPad5,
    NumPad6,
    NumPad7,
    NumPad8,
    NumPad9,
    NumLock,
    NumPadDec,
    NumPadDiv,
    NumPadMult,
    NumPadSub,
    NumPadAdd,
    NumPadEq,
    NumPadEnter,
}

/// The live input state: which buttons are held down and where the cursor is.
///
/// It is updated from the event stream before any overlay sees an event, so an
/// overlay that reads it during `on_update` observes every event of the frame.
pub struct InputState {
    mouse_position: (u32, u32),
    pressed: Vec<Button>,
}

impl InputState {
    /// The set of buttons currently held down.
    pub closed spec fn pressed_set(&self) -> Set<Button> {
        self.pressed@.to_set()
    }

    /// The last cursor position that was reported.
    pub closed spec fn position(&self) -> (u32, u32) {
        self.mouse_position
    }

    /// Well-formedness: each held button is listed once, and `Unknown` is never tracked.
    pub closed spec fn wf(&self) -> bool {
        &&& self.pressed@.no_duplicates()
        &&& !self.pressed@.contains(Button::Unknown)
    }

    /// No button held, cursor at the origin.
    pub fn new() -> (r: Self)
        ensures
            r.wf(),
            r.pressed_set() == Set::<Button>::empty(),
            r.position() == (0u32, 0u32),
    {
        let r = InputState { mouse_position: (0, 0), pressed: Vec::new() };
        assert(r.pressed@.to_set() =~= Set::<Button>::empty());
        r
    }

    /// The last cursor position that was reported.
    pub fn mouse_position(&self) -> (r: (u32, u32))
        ensures
            r == self.position(),
    {
        self.mouse_position
    }

    /// Whether `button` is currently held down.
    pub fn is_pressed(&self, button: Button) -> (r: bool)
        ensures
            r == self.pressed_set().contains(button),
    {
        let mut i: usize = 0;
        while i < self.pressed.len()
            invariant
                i <= self.pressed@.len(),
                forall|j: int| 0 <= j < i ==> self.pressed@[j] != button,
            decreases self.pressed@.len() - i,
        {
            if self.pressed[i] == button {
                assert(self.pressed@.to_set().contains(self.pressed@[i as int]));
                return true;
            }
            i += 1;
        }
        proof {
            if self.pressed@.to_set().contains(button) {
                let k = choose|k: int| 0 <= k < self.pressed@.len() && self.pressed@[k] == button;
            }
        }
        false
    }

    /// Records that `button` went down. `Unknown` is ignored.
    pub fn press(&mut self, button: Button)
        requires
            old(self).wf(),
        ensures
            final(self).wf(),
            final(self).position() == old(self).position(),
            button == Button::Unknown ==> final(self).pressed_set() == old(self).pressed_set(),
            button != Button::Unknown ==> final(self).pressed_set() == old(self).pressed_set().insert(button),
    {
        if button == Button::Unknown {
            return;
        }
        if !self.is_pressed(button) {
            self.pressed.push(button);
            proof {
                assert(self.pressed@ == old(self).pressed@.push(button));
                old(self).pressed@.lemma_push_to_set_commute(button);
            }
        } else {
            assert(old(self).pressed_set().insert(button) =~= old(self).pressed_set());
        }
    }

    /// Records that `button` went up. `Unknown` is ignored.
    pub fn release(&mut self, button: Button)
        requires
            old(self).wf(),
        ensures
            final(self).wf(),
            final(self).position() == old(self).position(),
            final(self).pressed_set() == old(self).pressed_set().remove(button),
    {
        let mut i: usize = 0;
        while i < self.pressed.len()
            invariant
                i <= self.pressed@.len(),
                self.pressed == old(self).pressed,
                old(self).wf(),
                self.mouse_position == old(self).mouse_position,
                forall|j: int| 0 <= j < i ==> self.pressed@[j] != button,
            decreases self.pressed@.len() - i,
        {
            if self.pressed[i] == button {
                let ghost before = self.pressed@;
                self.pressed.remove(i);
                proof {
                    assert(self.pressed@ =~= before.remove(i as int));
                    assert forall|a: int, b: int|
                        0 <= a < b < self.pressed@.len() implies self.pressed@[a] != self.pressed@[b] by {
                        let a0 = if a < i { a } else { a + 1 };
                        let b0 = if b < i { b } else { b + 1 };
                        assert(self.pressed@[a] == before[a0]);
                        assert(self.pressed@[b] == before[b0]);
                    }
                    assert forall|b: Button| self.pressed@.to_set().contains(b)
                        <==> before.to_set().remove(button).contains(b) by {
                        assert(self.pressed@.to_set().contains(b) == self.pressed@.contains(b));
                        assert(before.to_set().contains(b) == before.contains(b));
                        if self.pressed@.contains(b) {
                            let k = choose|k: int| 0 <= k < self.pressed@.len() && self.pressed@[k] == b;
                            if k < i {
                                assert(before[k] == b);
                            } else {
                                assert(before[k + 1] == b);
                            }
                        }
                        if before.contains(b) && b != button {
                            let k = choose|k: int| 0 <= k < before.len() && before[k] == b;
                            if k < i {
                                assert(self.pressed@[k] == b);
                            } else {
                                assert(self.pressed@[k - 1] == b);
                            }
                        }
                    }
                    assert(self.pressed@.to_set() =~= before.to_set().remove(button));
                }
                return;
            }
            i += 1;
        }
        proof {
            assert(!self.pressed@.contains(button));
            assert(old(self).pressed_set().remove(button) =~= old(self).pressed_set());
        }
    }

    /// Records a new cursor position.
    pub fn move_mouse(&mut self, position: (u32, u32))
        requires
            old(self).wf(),
        ensures
            final(self).wf(),
            final(self).position() == position,
            final(self).pressed_set() == old(self).pressed_set(),
    {
        self.mouse_position = position;
    }
}


/// The held buttons and cursor position after `event`, given those before it. Key
/// presses and releases change the held buttons and cursor moves change the position;
/// other events change neither.
pub open spec fn observed(pressed: Set<Button>, position: (u32, u32), event: WindowEvent) -> (Set<Button>, (u32, u32)) {
    match event {
        WindowEvent::KeyPressed(e) => (
            if e.button == Button::Unknown {
                pressed
            } else {
                pressed.insert(e.button)
            },
            position,
        ),
        WindowEvent::KeyReleased(e) => (pressed.remove(e.button), position),
        WindowEvent::MouseMove(e) => (pressed, e.position),
        _ => (pressed, position),
    }
}

/// The held buttons and cursor position after `events`, in order.
pub open spec fn observed_all(pressed: Set<Button>, position: (u32, u32), events: Seq<WindowEvent>) -> (Set<Button>, (u32, u32))
    decreases events.len(),
{
    if events.len() == 0 {
        (pressed, position)
    } else {
        let before = observed_all(pressed, position, events.drop_last());
        observed(before.0, before.1, events.last())
    }
}

impl InputState {
    /// Takes in one event from the window.
    pub fn observe(&mut self, event: &WindowEvent)
        requires
            old(self).wf(),
        ensures
            final(self).wf(),
            (final(self).pressed_set(), final(self).position()) == observed(
                old(self).pressed_set(),
                old(self).position(),
                *event,
            ),
    {
        match event {
            WindowEvent::KeyPressed(e) => self.press(e.button),
            WindowEvent::KeyReleased(e) => {
                self.release(e.button);
            },
            WindowEvent::MouseMove(e) => self.move_mouse(e.position),
            _ => {},
        }
    }
}

} // verus!
