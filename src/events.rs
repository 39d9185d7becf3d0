use vstd::prelude::*;

use crate::input::Button;
use crate::overlay::Overlay;

verus! {

/// The kind of an event.
#[derive(PartialEq, Eq, Clone, Copy, Debug, Structural)]
pub enum EventType {
    WindowCloseRequested,
    WindowResized,
    KeyPressed,
    KeyReleased,
    TextWritten,
    MouseDown,
    MouseUp,
    MouseMove,
    MouseScrolled,
}

impl EventType {
    /// Whether an overlay can report events of this kind as handled, which stops their
    /// delivery. Window events always reach every overlay.
    pub open spec fn can_be_handled(self) -> bool {
        !(self is WindowCloseRequested || self is WindowResized)
    }
}

/// A scroll offset whose two axes are IEEE-754 single-precision bit patterns.
#[derive(PartialEq, Eq, Clone, Copy, Debug, Structural)]
pub struct ScrollDelta {
    pub x: u32,
    pub y: u32,
}

/// An input or window occurrence that can be delivered to overlays.
///
/// An event carries a "handled" flag, false when it is made, which delivery to an
/// overlay sets from what the overlay's callback returned.
pub trait Event {
    spec fn kind(&self) -> EventType;

    spec fn handled(&self) -> bool;

    fn is_handled(&self) -> (r: bool)
        ensures
            r == self.handled(),
    ;

    fn event_type(&self) -> (r: EventType)
        ensures
            r == self.kind(),
    ;

    /// Calls the overlay callback that matches the event and records its answer.
    fn dispatch<O: Overlay>(&mut self, overlay: &mut O)
        ensures
            final(self).kind() == old(self).kind(),
            !old(self).kind().can_be_handled() ==> !final(self).handled(),
    ;
}

/// The window asked to close.
pub struct WindowCloseRequestedEvent;

impl WindowCloseRequestedEvent {
    pub fn new() -> (r: Self) {
        WindowCloseRequestedEvent
    }

    pub fn boxed() -> (r: Box<Self>) {
        Box::new(WindowCloseRequestedEvent)
    }
}

impl Event for WindowCloseRequestedEvent {
    open spec fn kind(&self) -> EventType {
        EventType::WindowCloseRequested
    }

    open spec fn handled(&self) -> bool {
        false
    }

    fn is_handled(&self) -> (r: bool) {
        false
    }

    fn event_type(&self) -> (r: EventType) {
        EventType::WindowCloseRequested
    }

    fn dispatch<O: Overlay>(&mut self, overlay: &mut O) {
        overlay.on_window_close_requested();
    }
}

/// The window's drawable area changed to `width` by `height` pixels.
pub struct WindowResizedEvent {
    pub width: u32,
    pub height: u32,
}

impl WindowResizedEvent {
    pub fn new(size: (u32, u32)) -> (r: Self)
        ensures
            r.width == size.0,
            r.height == size.1,
    {
        WindowResizedEvent { width: size.0, height: size.1 }
    }

    pub fn boxed(size: (u32, u32)) -> (r: Box<Self>)
        ensures
            r.width == size.0,
            r.height == size.1,
    {
        Box::new(WindowResizedEvent::new(size))
    }
}

impl Event for WindowResizedEvent {
    open spec fn kind(&self) -> EventType {
        EventType::WindowResized
    }

    open spec fn handled(&self) -> bool {
        false
    }

    fn is_handled(&self) -> (r: bool) {
        false
    }

    fn event_type(&self) -> (r: EventType) {
        EventType::WindowResized
    }

    fn dispatch<O: Overlay>(&mut self, overlay: &mut O) {
        overlay.on_window_resize((self.width, self.height));
    }
}

/// A key went down, or repeated while held (`repeat`).
pub struct KeyPressedEvent {
    pub handled: bool,
    pub button: Button,
    pub repeat: bool,
}

impl KeyPressedEvent {
    pub fn new(button: Button, repeat: bool) -> (r: Self)
        ensures
            !r.handled,
            r.button == button,
            r.repeat == repeat,
    {
        KeyPressedEvent { handled: false, button, repeat }
    }

    pub fn boxed(button: Button, repeat: bool) -> (r: Box<Self>)
        ensures
            !r.handled,
            r.button == button,
            r.repeat == repeat,
    {
        Box::new(KeyPressedEvent::new(button, repeat))
    }
}

impl Event for KeyPressedEvent {
    open spec fn kind(&self) -> EventType {
        EventType::KeyPressed
    }

    open spec fn handled(&self) -> bool {
        self.handled
    }

    fn is_handled(&self) -> (r: bool) {
        self.handled
    }

    fn event_type(&self) -> (r: EventType) {
        EventType::KeyPressed
    }

    fn dispatch<O: Overlay>(&mut self, overlay: &mut O) {
        self.handled = overlay.on_key_press(self.button, self.repeat);
    }
}


/// A key went up.
pub struct KeyReleasedEvent {
    pub handled: bool,
    pub button: Button,
}

impl KeyReleasedEvent {
    pub fn new(button: Button) -> (r: Self)
        ensures
            !r.handled,
            r.button == button,
    {
        KeyReleasedEvent { handled: false, button }
    }

    pub fn boxed(button: Button) -> (r: Box<Self>)
        ensures
            !r.handled,
            r.button == button,
    {
        Box::new(KeyReleasedEvent::new(button))
    }
}

impl Event for KeyReleasedEvent {
    open spec fn kind(&self) -> EventType {
        EventType::KeyReleased
    }

    open spec fn handled(&self) -> bool {
        self.handled
    }

    fn is_handled(&self) -> (r: bool) {
        self.handled
    }

    fn event_type(&self) -> (r: EventType) {
        EventType::KeyReleased
    }

    fn dispatch<O: Overlay>(&mut self, overlay: &mut O) {
        self.handled = overlay.on_key_release(self.button);
    }
}

/// A character of text was typed.
pub struct TextWrittenEvent {
    pub handled: bool,
    pub which: char,
}

impl TextWrittenEvent {
    pub fn new(which: char) -> (r: Self)
        ensures
            !r.handled,
            r.which == which,
    {
        TextWrittenEvent { handled: false, which }
    }

    pub fn boxed(which: char) -> (r: Box<Self>)
        ensures
            !r.handled,
            r.which == which,
    {
        Box::new(TextWrittenEvent::new(which))
    }
}

impl Event for TextWrittenEvent {
    open spec fn kind(&self) -> EventType {
        EventType::TextWritten
    }

    open spec fn handled(&self) -> bool {
        self.handled
    }

    fn is_handled(&self) -> (r: bool) {
        self.handled
    }

    fn event_type(&self) -> (r: EventType) {
        EventType::TextWritten
    }

    fn dispatch<O: Overlay>(&mut self, overlay: &mut O) {
        self.handled = overlay.on_text_written(self.which);
    }
}

/// A mouse button went down.
pub struct MouseDownEvent {
    pub handled: bool,
    pub button: Button,
}

impl MouseDownEvent {
    pub fn new(button: Button) -> (r: Self)
        ensures
            !r.handled,
            r.button == button,
    {
        MouseDownEvent { handled: false, button }
    }

    pub fn boxed(button: Button) -> (r: Box<Self>)
        ensures
            !r.handled,
            r.button == button,
    {
        Box::new(MouseDownEvent::new(button))
    }
}

impl Event for MouseDownEvent {
    open spec fn kind(&self) -> EventType {
        EventType::MouseDown
    }

    open spec fn handled(&self) -> bool {
        self.handled
    }

    fn is_handled(&self) -> (r: bool) {
        self.handled
    }

    fn event_type(&self) -> (r: EventType) {
        EventType::MouseDown
    }

    fn dispatch<O: Overlay>(&mut self, overlay: &mut O) {
        self.handled = overlay.on_mouse_down(self.button);
    }
}

/// A mouse button went up.
pub struct MouseUpEvent {
    pub handled: bool,
    pub button: Button,
}

impl MouseUpEvent {
    pub fn new(button: Button) -> (r: Self)
        ensures
            !r.handled,
            r.button == button,
    {
        MouseUpEvent { handled: false, button }
    }

    pub fn boxed(button: Button) -> (r: Box<Self>)
        ensures
            !r.handled,
            r.button == button,
    {
        Box::new(MouseUpEvent::new(button))
    }
}

impl Event for MouseUpEvent {
    open spec fn kind(&self) -> EventType {
        EventType::MouseUp
    }

    open spec fn handled(&self) -> bool {
        self.handled
    }

    fn is_handled(&self) -> (r: bool) {
        self.handled
    }

    fn event_type(&self) -> (r: EventType) {
        EventType::MouseUp
    }

    fn dispatch<O: Overlay>(&mut self, overlay: &mut O) {
        self.handled = overlay.on_mouse_up(self.button);
    }
}

/// The cursor moved to `position`, by `delta` from the last recorded position.
pub struct MouseMoveEvent {
    pub handled: bool,
    pub position: (u32, u32),
    pub delta: (i32, i32),
}

impl MouseMoveEvent {
    pub fn new(position: (u32, u32), delta: (i32, i32)) -> (r: Self)
        ensures
            !r.handled,
            r.position == position,
            r.delta == delta,
    {
        MouseMoveEvent { handled: false, position, delta }
    }

    pub fn boxed(position: (u32, u32), delta: (i32, i32)) -> (r: Box<Self>)
        ensures
            !r.handled,
            r.position == position,
            r.delta == delta,
    {
        Box::new(MouseMoveEvent::new(position, delta))
    }
}

impl MouseMoveEvent {
    /// A move of the cursor from `previous` to `position`. Each axis of the delta is the
    /// difference of the two coordinates, wrapped to 32 bits.
    pub fn from_positions(position: (u32, u32), previous: (u32, u32)) -> (r: Self)
        ensures
            !r.handled,
            r.position == position,
            r.delta == ((position.0 as int - previous.0 as int) as i32, (position.1 as int - previous.1 as int) as i32),
    {
        let dx = (position.0 as i64 - previous.0 as i64) as i32;
        let dy = (position.1 as i64 - previous.1 as i64) as i32;
        MouseMoveEvent::new(position, (dx, dy))
    }
}

impl Event for MouseMoveEvent {
    open spec fn kind(&self) -> EventType {
        EventType::MouseMove
    }

    open spec fn handled(&self) -> bool {
        self.handled
    }

    fn is_handled(&self) -> (r: bool) {
        self.handled
    }

    fn event_type(&self) -> (r: EventType) {
        EventType::MouseMove
    }

    fn dispatch<O: Overlay>(&mut self, overlay: &mut O) {
        self.handled = overlay.on_mouse_move(self.position, self.delta);
    }
}

/// The scroll wheel or touchpad scrolled by `delta`.
pub struct MouseScrolledEvent {
    pub handled: bool,
    pub delta: ScrollDelta,
}

impl MouseScrolledEvent {
    pub fn new(delta: ScrollDelta) -> (r: Self)
        ensures
            !r.handled,
            r.delta == delta,
    {
        MouseScrolledEvent { handled: false, delta }
    }

    pub fn boxed(delta: ScrollDelta) -> (r: Box<Self>)
        ensures
            !r.handled,
            r.delta == delta,
    {
        Box::new(MouseScrolledEvent::new(delta))
    }
}

impl Event for MouseScrolledEvent {
    open spec fn kind(&self) -> EventType {
        EventType::MouseScrolled
    }

    open spec fn handled(&self) -> bool {
        self.handled
    }

    fn is_handled(&self) -> (r: bool) {
        self.handled
    }

    fn event_type(&self) -> (r: EventType) {
        EventType::MouseScrolled
    }

    fn dispatch<O: Overlay>(&mut self, overlay: &mut O) {
        self.handled = overlay.on_mouse_scroll(self.delta);
    }
}

/// Any one of the events that a window produces.
pub enum WindowEvent {
    CloseRequested(WindowCloseRequestedEvent),
    Resized(WindowResizedEvent),
    KeyPressed(KeyPressedEvent),
    KeyReleased(KeyReleasedEvent),
    TextWritten(TextWrittenEvent),
    MouseDown(MouseDownEvent),
    MouseUp(MouseUpEvent),
    MouseMove(MouseMoveEvent),
    MouseScrolled(MouseScrolledEvent),
}

impl Event for WindowEvent {
    open spec fn kind(&self) -> EventType {
        match self {
            WindowEvent::CloseRequested(e) => e.kind(),
            WindowEvent::Resized(e) => e.kind(),
            WindowEvent::KeyPressed(e) => e.kind(),
            WindowEvent::KeyReleased(e) => e.kind(),
            WindowEvent::TextWritten(e) => e.kind(),
            WindowEvent::MouseDown(e) => e.kind(),
            WindowEvent::MouseUp(e) => e.kind(),
            WindowEvent::MouseMove(e) => e.kind(),
            WindowEvent::MouseScrolled(e) => e.kind(),
        }
    }

    open spec fn handled(&self) -> bool {
        match self {
            WindowEvent::CloseRequested(e) => e.handled(),
            WindowEvent::Resized(e) => e.handled(),
            WindowEvent::KeyPressed(e) => e.handled(),
            WindowEvent::KeyReleased(e) => e.handled(),
            WindowEvent::TextWritten(e) => e.handled(),
            WindowEvent::MouseDown(e) => e.handled(),
            WindowEvent::MouseUp(e) => e.handled(),
            WindowEvent::MouseMove(e) => e.handled(),
            WindowEvent::MouseScrolled(e) => e.handled(),
        }
    }

    fn is_handled(&self) -> (r: bool) {
        match self {
            WindowEvent::CloseRequested(e) => e.is_handled(),
            WindowEvent::Resized(e) => e.is_handled(),
            WindowEvent::KeyPressed(e) => e.is_handled(),
            WindowEvent::KeyReleased(e) => e.is_handled(),
            WindowEvent::TextWritten(e) => e.is_handled(),
            WindowEvent::MouseDown(e) => e.is_handled(),
            WindowEvent::MouseUp(e) => e.is_handled(),
            WindowEvent::MouseMove(e) => e.is_handled(),
            WindowEvent::MouseScrolled(e) => e.is_handled(),
        }
    }

    fn event_type(&self) -> (r: EventType) {
        match self {
            WindowEvent::CloseRequested(e) => e.event_type(),
            WindowEvent::Resized(e) => e.event_type(),
            WindowEvent::KeyPressed(e) => e.event_type(),
            WindowEvent::KeyReleased(e) => e.event_type(),
            WindowEvent::TextWritten(e) => e.event_type(),
            WindowEvent::MouseDown(e) => e.event_type(),
            WindowEvent::MouseUp(e) => e.event_type(),
            WindowEvent::MouseMove(e) => e.event_type(),
            WindowEvent::MouseScrolled(e) => e.event_type(),
        }
    }

    fn dispatch<O: Overlay>(&mut self, overlay: &mut O) {
        match self {
            WindowEvent::CloseRequested(e) => e.dispatch(overlay),
            WindowEvent::Resized(e) => e.dispatch(overlay),
            WindowEvent::KeyPressed(e) => e.dispatch(overlay),
            WindowEvent::KeyReleased(e) => e.dispatch(overlay),
            WindowEvent::TextWritten(e) => e.dispatch(overlay),
            WindowEvent::MouseDown(e) => e.dispatch(overlay),
            WindowEvent::MouseUp(e) => e.dispatch(overlay),
            WindowEvent::MouseMove(e) => e.dispatch(overlay),
            WindowEvent::MouseScrolled(e) => e.dispatch(overlay),
        }
    }
}

} // verus!
