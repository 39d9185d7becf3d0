use std::cell::RefCell;
use std::rc::Rc;
use std::time::Duration;

use wrath::{
    BufferLayout, Button, Indices, InputState, KeyPressedEvent, MeshHandle, MouseMoveEvent, Overlay, OverlayHandle,
    OverlayStack, Renderer, Rgb, ShaderHandle, ShaderUniform, TextWrittenEvent, Vertices, WindowCloseRequestedEvent,
    WindowEvent, WindowResizedEvent,
};

/// A renderer that draws nothing.
struct NullRenderer;

impl Renderer for NullRenderer {
    fn clear(&mut self) {}
    fn set_clear_color(&mut self, _color: Rgb) {}
    fn create_shader(&mut self, _path: &str) -> ShaderHandle {
        ShaderHandle::new(1)
    }
    fn bind_shader(&mut self, _handle: ShaderHandle) {}
    fn delete_shader(&mut self, _handle: ShaderHandle) {}
    fn set_uniform(&mut self, _handle: ShaderHandle, _name: &str, _value: ShaderUniform) {}
    fn create_mesh(&mut self, _vertices: &Vertices, _layout: &BufferLayout, _indices: &Indices) -> MeshHandle {
        MeshHandle::new(1)
    }
    fn bind_mesh(&mut self, _handle: MeshHandle) {}
    fn delete_mesh(&mut self, _handle: MeshHandle) {}
    fn render(&mut self, _mesh: MeshHandle, _shader: ShaderHandle) {}
}

type Log = Rc<RefCell<Vec<String>>>;

/// Records every callback it gets, and handles key presses when `handles_keys` is set.
struct Probe {
    name: &'static str,
    handles_keys: bool,
    log: Log,
}

impl Probe {
    fn new(name: &'static str, handles_keys: bool, log: &Log) -> Probe {
        Probe { name, handles_keys, log: log.clone() }
    }
    fn note(&self, what: &str) {
        self.log.borrow_mut().push(format!("{} {}", self.name, what));
    }
}

impl Overlay for Probe {
    type Target = NullRenderer;

    fn on_attach(&mut self, _renderer: &mut NullRenderer) {
        self.note("attach");
    }
    fn on_detach(&mut self, _renderer: &mut NullRenderer) {
        self.note("detach");
    }
    fn on_update(&mut self, _dt: Duration, _input: &InputState) {
        self.note("update");
    }
    fn on_render(&mut self, _renderer: &mut NullRenderer) {
        self.note("render");
    }
    fn on_window_close_requested(&mut self) {
        self.note("close");
    }
    fn on_window_resize(&mut self, size: (u32, u32)) {
        self.note(&format!("resize {}x{}", size.0, size.1));
    }
    fn on_key_press(&mut self, _button: Button, _repeat: bool) -> bool {
        self.note("key");
        self.handles_keys
    }
    fn on_mouse_move(&mut self, _position: (u32, u32), _delta: (i32, i32)) -> bool {
        self.note("move");
        false
    }
}

fn take(log: &Log) -> Vec<String> {
    log.borrow_mut().drain(..).collect()
}

#[test]
fn lib_it_works() {
    assert_eq!(2 + 2, 4);
}

#[test]
fn handle_none_and_new() {
    assert_eq!(OverlayHandle::none().0, 0);
    assert_eq!(OverlayHandle::new(7).0, 7);
    assert_eq!(OverlayHandle::new(7), OverlayHandle(7));
}

#[test]
fn front_overlay_that_handles_hides_event_from_back() {
    let log: Log = Rc::new(RefCell::new(Vec::new()));
    let mut renderer = NullRenderer;
    let mut stack: OverlayStack<Probe> = OverlayStack::new();
    stack.push_back(Probe::new("A", false, &log), &mut renderer);
    stack.push_front(Probe::new("B", true, &log), &mut renderer);
    assert_eq!(take(&log), vec!["A attach", "B attach"]);

    let mut event = KeyPressedEvent::new(Button::Space, false);
    stack.submit(&mut event);
    assert!(event.handled);
    assert_eq!(take(&log), vec!["B key"]);
}

#[test]
fn handles_are_unique_non_zero_and_order_follows_pushes() {
    let log: Log = Rc::new(RefCell::new(Vec::new()));
    let mut renderer = NullRenderer;
    let mut stack: OverlayStack<Probe> = OverlayStack::new();
    let a = stack.push_back(Probe::new("A", false, &log), &mut renderer);
    let b = stack.push_back(Probe::new("B", false, &log), &mut renderer);
    let c = stack.push_front(Probe::new("C", false, &log), &mut renderer);
    assert!(stack.remove_overlay(b, &mut renderer));
    let d = stack.push_front(Probe::new("D", false, &log), &mut renderer);
    let e = stack.push_back(Probe::new("E", false, &log), &mut renderer);
    let all = [a, b, c, d, e];
    for (i, h) in all.iter().enumerate() {
        assert_ne!(h.0, 0);
        for g in all.iter().skip(i + 1) {
            assert_ne!(h, g);
        }
    }
    assert_eq!((a.0, b.0, c.0, d.0, e.0), (1, 2, 3, 4, 5));
    assert_eq!(stack.len(), 4);
    take(&log);

    let mut event = MouseMoveEvent::new((3, 4), (1, -1));
    stack.submit(&mut event);
    assert!(!event.handled);
    assert_eq!(take(&log), vec!["D move", "C move", "A move", "E move"]);
}

#[test]
fn removed_handle_is_not_reissued() {
    let log: Log = Rc::new(RefCell::new(Vec::new()));
    let mut renderer = NullRenderer;
    let mut stack: OverlayStack<Probe> = OverlayStack::new();
    let a = stack.push_back(Probe::new("A", false, &log), &mut renderer);
    assert!(stack.remove_overlay(a, &mut renderer));
    let b = stack.push_back(Probe::new("B", false, &log), &mut renderer);
    assert_ne!(a, b);
    assert!(!stack.remove_overlay(a, &mut renderer));
    assert_eq!(take(&log), vec!["A attach", "A detach", "B attach"]);
}

#[test]
fn removing_an_unknown_handle_fails_and_changes_nothing() {
    let log: Log = Rc::new(RefCell::new(Vec::new()));
    let mut renderer = NullRenderer;
    let mut stack: OverlayStack<Probe> = OverlayStack::new();
    stack.push_back(Probe::new("A", false, &log), &mut renderer);
    stack.push_back(Probe::new("B", false, &log), &mut renderer);
    take(&log);

    assert!(!stack.remove_overlay(OverlayHandle::new(99), &mut renderer));
    assert!(!stack.remove_overlay(OverlayHandle::none(), &mut renderer));
    assert_eq!(stack.len(), 2);
    assert!(take(&log).is_empty());

    stack.submit(&mut MouseMoveEvent::new((0, 0), (0, 0)));
    assert_eq!(take(&log), vec!["A move", "B move"]);
}

#[test]
fn delivery_stops_at_the_first_overlay_that_handles() {
    let log: Log = Rc::new(RefCell::new(Vec::new()));
    let mut renderer = NullRenderer;
    let mut stack: OverlayStack<Probe> = OverlayStack::new();
    stack.push_back(Probe::new("P0", false, &log), &mut renderer);
    stack.push_back(Probe::new("P1", false, &log), &mut renderer);
    stack.push_back(Probe::new("P2", true, &log), &mut renderer);
    stack.push_back(Probe::new("P3", false, &log), &mut renderer);
    stack.push_back(Probe::new("P4", true, &log), &mut renderer);
    take(&log);

    let mut event = KeyPressedEvent::new(Button::A, true);
    stack.submit(&mut event);
    assert!(event.handled);
    assert_eq!(take(&log), vec!["P0 key", "P1 key", "P2 key"]);
}

#[test]
fn text_event_reaches_all_when_nobody_handles_it() {
    let log: Log = Rc::new(RefCell::new(Vec::new()));
    let mut renderer = NullRenderer;
    let mut stack: OverlayStack<Probe> = OverlayStack::new();
    stack.push_back(Probe::new("A", true, &log), &mut renderer);
    stack.push_back(Probe::new("B", true, &log), &mut renderer);
    take(&log);
    // Probe does not override on_text_written, so the default "not handled" applies.
    let mut event = TextWrittenEvent::new('x');
    stack.submit(&mut event);
    assert!(!event.handled);
    assert!(take(&log).is_empty());
}

#[test]
fn window_events_reach_every_overlay() {
    let log: Log = Rc::new(RefCell::new(Vec::new()));
    let mut renderer = NullRenderer;
    let mut stack: OverlayStack<Probe> = OverlayStack::new();
    stack.push_back(Probe::new("A", true, &log), &mut renderer);
    stack.push_back(Probe::new("B", true, &log), &mut renderer);
    take(&log);

    let mut close = WindowEvent::CloseRequested(WindowCloseRequestedEvent::new());
    stack.submit(&mut close);
    let mut resize = WindowEvent::Resized(WindowResizedEvent::new((640, 480)));
    stack.submit(&mut resize);
    assert_eq!(take(&log), vec!["A close", "B close", "A resize 640x480", "B resize 640x480"]);
}

#[test]
fn update_and_render_visit_everyone_once_in_order() {
    let log: Log = Rc::new(RefCell::new(Vec::new()));
    let mut renderer = NullRenderer;
    let mut stack: OverlayStack<Probe> = OverlayStack::new();
    stack.push_back(Probe::new("A", false, &log), &mut renderer);
    stack.push_front(Probe::new("B", true, &log), &mut renderer);
    stack.push_back(Probe::new("C", false, &log), &mut renderer);
    take(&log);

    stack.submit(&mut KeyPressedEvent::new(Button::Q, false));
    assert_eq!(take(&log), vec!["B key"]);

    stack.call_update(Duration::from_millis(16), &InputState::new());
    stack.call_render(&mut renderer);
    assert_eq!(
        take(&log),
        vec!["B update", "A update", "C update", "B render", "A render", "C render"]
    );
}

#[test]
fn detach_all_detaches_front_to_back() {
    let log: Log = Rc::new(RefCell::new(Vec::new()));
    let mut renderer = NullRenderer;
    let mut stack: OverlayStack<Probe> = OverlayStack::new();
    stack.push_back(Probe::new("A", false, &log), &mut renderer);
    stack.push_front(Probe::new("B", false, &log), &mut renderer);
    take(&log);
    stack.detach_all(&mut renderer);
    assert_eq!(stack.len(), 0);
    assert_eq!(take(&log), vec!["B detach", "A detach"]);
}

#[test]
fn empty_stack_submit_does_nothing() {
    let mut stack: OverlayStack<Probe> = OverlayStack::new();
    let mut event = KeyPressedEvent::new(Button::Escape, false);
    stack.submit(&mut event);
    assert!(!event.handled);
    assert_eq!(stack.len(), 0);
    assert!(stack.has_free_handle());
}
