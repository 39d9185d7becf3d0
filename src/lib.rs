pub mod engine;
pub mod events;
pub mod input;
pub mod mesh;
pub mod overlay;
pub mod renderer;
pub mod resources;
pub mod shader;
pub mod shader_source;

pub use engine::{Engine, EngineProps, WindowProps};
pub use events::{
    Event, EventType, KeyPressedEvent, KeyReleasedEvent, MouseDownEvent, MouseMoveEvent, MouseScrolledEvent,
    MouseUpEvent, ScrollDelta, TextWrittenEvent, WindowCloseRequestedEvent, WindowEvent, WindowResizedEvent,
};
pub use input::{Button, InputState};
pub use mesh::{BufferElement, BufferLayout, IndexType, Indices, MeshHandle, Vertices};
pub use overlay::{LayerHandle, LayerStack, Overlay, Overlay as Layer, OverlayHandle, OverlayStack};
pub use renderer::Renderer;
pub use resources::{DrawCall, GpuRelease, MeshBuffers, MeshRecord, ResourceTable, UniformStep};
pub use shader::{Rgb, ShaderHandle, ShaderType, ShaderUniform};
pub use shader_source::{split_shader_source, ShaderSources, UnknownShaderType};
