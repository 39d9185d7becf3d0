use std::cell::RefCell;
use std::rc::Rc;
use std::time::Duration;

use wrath::{
    BufferLayout, Button, Engine, Event, EventType, Indices, InputState, KeyPressedEvent, KeyReleasedEvent,
    MeshHandle, MouseDownEvent, MouseMoveEvent, MouseScrolledEvent, MouseUpEvent, Overlay, Renderer, Rgb,
    ScrollDelta, ShaderHandle, ShaderUniform, TextWrittenEvent, Vertices, WindowCloseRequestedEvent, WindowEvent,
    WindowResizedEvent,
};

type Log = Rc<RefCell<Vec<String>>>;

/// A renderer that only logs clears and clear colours.
struct LogRenderer {
    log: Log,
}

impl Renderer for LogRenderer {
    fn clear(&mut self) {
        self.log.borrow_mut().push("clear".to_string());
    }
    fn set_clear_color(&mut self, color: Rgb) {
        self.log.borrow_mut().push(format!("color {} {} {}", color.r, color.g, color.b));
    }
    fn create_shader(&mut self, _path: &str) -> ShaderHandle {
        ShaderHandle::new(1)
    }
    fn bind_shader(&mut self, _handle: ShaderHandle) {}
    fn delete_shader(&mut self, _handle: ShaderHandle) {}
    fn set_uniform(&mut self, _handle: ShaderHandle, _name: &str, _value: ShaderUniform) {}
    fn create_mesh(&mut self, _vertices: &Vertices, _layout: &BufferLayout, _indices: &Indices) -> MeshHandle {
        MeshHandle::new(1)
    }
    fn bind_mesh(&mut self, _handle: MeshHandle) {}
    fn delete_mesh(&mut self, _handle: MeshHandle) {}
    fn render(&mut self, _mesh: MeshHandle, _shader: ShaderHandle) {}
}

/// Logs what it sees, including whether `E` is held during its update.
struct Watcher {
    name: &'static str,
    log: Log,
}

impl Overlay for Watcher {
    type Target = LogRenderer;

    fn on_attach(&mut self, renderer: &mut LogRenderer) {
        renderer.log.borrow_mut().push(format!("{} attach", self.name));
    }
    fn on_detach(&mut self, _renderer: &mut LogRenderer) {
        self.log.borrow_mut().push(format!("{} detach", self.name));
    }
    fn on_update(&mut self, _dt: Duration, input: &InputState) {
        self.log.borrow_mut().push(format!("{} update E={}", self.name, input.is_pressed(Button::E)));
    }
    fn on_render(&mut self, _renderer: &mut LogRenderer) {
        self.log.borrow_mut().push(format!("{} render", self.name));
    }
    fn on_window_close_requested(&mut self) {
        self.log.borrow_mut().push(format!("{} close", self.name));
    }
    fn on_key_press(&mut self, button: Button, _repeat: bool) -> bool {
        self.log.borrow_mut().push(format!("{} key {:?}", self.name, button));
        true
    }
}

fn take(log: &Log) -> Vec<String> {
    log.borrow_mut().drain(..).collect()
}

fn engine(log: &Log) -> Engine<Watcher> {
    Engine::new(LogRenderer { log: log.clone() })
}

#[test]
fn new_engine_sets_the_default_clear_color() {
    let log: Log = Rc::new(RefCell::new(Vec::new()));
    let e = engine(&log);
    assert!(e.is_running());
    assert_eq!(take(&log), vec![format!("color 0 {} {}", 0.06f32.to_bits(), 0.12f32.to_bits())]);
}

#[test]
fn frame_order_is_events_update_clear_render() {
    let log: Log = Rc::new(RefCell::new(Vec::new()));
    let mut e = engine(&log);
    e.push_overlay_back(Watcher { name: "A", log: log.clone() });
    e.push_overlay_front(Watcher { name: "B", log: log.clone() });
    take(&log);
    e.update(Duration::from_millis(16), vec![WindowEvent::KeyPressed(KeyPressedEvent::new(Button::E, false))]);
    assert_eq!(
        take(&log),
        vec!["B key E", "B update E=true", "A update E=true", "clear", "B render", "A render"]
    );
    assert!(e.input().is_pressed(Button::E));
    e.update(Duration::from_millis(16), vec![WindowEvent::KeyReleased(KeyReleasedEvent::new(Button::E))]);
    assert_eq!(take(&log), vec!["B update E=false", "A update E=false", "clear", "B render", "A render"]);
}

#[test]
fn close_request_stops_after_the_frame() {
    let log: Log = Rc::new(RefCell::new(Vec::new()));
    let mut e = engine(&log);
    e.push_overlay_back(Watcher { name: "A", log: log.clone() });
    take(&log);
    e.update(Duration::from_millis(1), vec![WindowEvent::CloseRequested(WindowCloseRequestedEvent::new())]);
    assert!(!e.is_running());
    assert_eq!(take(&log), vec!["A close", "A update E=false", "clear", "A render"]);
}

#[test]
fn exit_stops_the_engine() {
    let log: Log = Rc::new(RefCell::new(Vec::new()));
    let mut e = engine(&log);
    e.exit();
    assert!(!e.is_running());
}

#[test]
fn remove_and_shutdown_detach() {
    let log: Log = Rc::new(RefCell::new(Vec::new()));
    let mut e = engine(&log);
    let a = e.push_overlay_back(Watcher { name: "A", log: log.clone() });
    e.push_overlay_back(Watcher { name: "B", log: log.clone() });
    e.push_overlay_back(Watcher { name: "C", log: log.clone() });
    take(&log);
    assert!(e.remove_overlay(a));
    assert!(!e.remove_overlay(a));
    e.shutdown();
    assert_eq!(take(&log), vec!["A detach", "B detach", "C detach"]);
    assert_eq!(e.overlays().len(), 0);
}

#[test]
fn renderer_is_reachable_from_the_engine() {
    let log: Log = Rc::new(RefCell::new(Vec::new()));
    let mut e = engine(&log);
    take(&log);
    e.renderer().clear();
    assert_eq!(take(&log), vec!["clear"]);
}

#[test]
fn input_state_tracks_keys_and_cursor() {
    let mut input = InputState::new();
    assert_eq!(input.mouse_position(), (0, 0));
    input.press(Button::A);
    input.press(Button::A);
    input.press(Button::Unknown);
    assert!(input.is_pressed(Button::A));
    assert!(!input.is_pressed(Button::Unknown));
    input.release(Button::A);
    assert!(!input.is_pressed(Button::A));
    input.release(Button::B);
    input.move_mouse((10, 20));
    assert_eq!(input.mouse_position(), (10, 20));
}

#[test]
fn input_state_observes_window_events() {
    let mut input = InputState::new();
    input.observe(&WindowEvent::KeyPressed(KeyPressedEvent::new(Button::LShift, false)));
    input.observe(&WindowEvent::MouseMove(MouseMoveEvent::new((5, 6), (5, 6))));
    input.observe(&WindowEvent::MouseDown(MouseDownEvent::new(Button::MouseLeft)));
    assert!(input.is_pressed(Button::LShift));
    assert!(!input.is_pressed(Button::MouseLeft));
    assert_eq!(input.mouse_position(), (5, 6));
    input.observe(&WindowEvent::KeyReleased(KeyReleasedEvent::new(Button::LShift)));
    assert!(!input.is_pressed(Button::LShift));
}

#[test]
fn event_constructors_and_kinds() {
    assert_eq!(WindowCloseRequestedEvent::boxed().event_type(), EventType::WindowCloseRequested);
    let resized = WindowResizedEvent::boxed((800, 500));
    assert_eq!((resized.width, resized.height), (800, 500));
    assert_eq!(resized.event_type(), EventType::WindowResized);
    let key = KeyPressedEvent::boxed(Button::W, true);
    assert!(!key.is_handled() && key.repeat && key.button == Button::W);
    assert_eq!(KeyReleasedEvent::boxed(Button::W).event_type(), EventType::KeyReleased);
    assert_eq!(TextWrittenEvent::boxed('q').which, 'q');
    assert_eq!(MouseDownEvent::boxed(Button::MouseRight).event_type(), EventType::MouseDown);
    assert_eq!(MouseUpEvent::boxed(Button::MouseRight).event_type(), EventType::MouseUp);
    let moved = MouseMoveEvent::boxed((1, 2), (-3, 4));
    assert_eq!((moved.position, moved.delta), ((1, 2), (-3, 4)));
    let scrolled = MouseScrolledEvent::boxed(ScrollDelta { x: 1.0f32.to_bits(), y: 0 });
    assert_eq!(scrolled.event_type(), EventType::MouseScrolled);
    assert_eq!(f32::from_bits(scrolled.delta.x), 1.0);
    let wrapped = WindowEvent::TextWritten(TextWrittenEvent::new('z'));
    assert_eq!(wrapped.event_type(), EventType::TextWritten);
    assert!(!wrapped.is_handled());
}

#[test]
fn mouse_delta_is_taken_from_the_previous_position() {
    let moved = MouseMoveEvent::from_positions((10, 5), (4, 9));
    assert_eq!(moved.position, (10, 5));
    assert_eq!(moved.delta, (6, -4));
    let wrapped = MouseMoveEvent::from_positions((0, u32::MAX), (u32::MAX, 0));
    assert_eq!(wrapped.delta, (1, -1));
}

#[test]
fn layer_names_are_overlay_names() {
    let handle: wrath::LayerHandle = wrath::LayerHandle::none();
    assert_eq!(handle, wrath::OverlayHandle::none());
    let stack: wrath::LayerStack<Watcher> = wrath::LayerStack::new();
    assert_eq!(stack.len(), 0);
}
