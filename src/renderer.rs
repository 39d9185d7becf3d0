use vstd::prelude::*;

use crate::mesh::{BufferLayout, Indices, MeshHandle, Vertices};
use crate::shader::{Rgb, ShaderHandle, ShaderUniform};

verus! {

/// The drawing interface that overlays use.
///
/// Resources are addressed only by handle. Using a handle that the renderer does not
/// hold (to bind, set a uniform on, draw with or delete) is a programming error that
/// an implementation reports and aborts on.
pub trait Renderer {
    fn clear(&mut self);

    fn set_clear_color(&mut self, color: Rgb);

    /// Builds a program from the shader sources at `path`: a directory holding
    /// `vertex.glsl` and `fragment.glsl`, or one file split by `#type` marker lines.
    fn create_shader(&mut self, path: &str) -> ShaderHandle;

    fn bind_shader(&mut self, handle: ShaderHandle);

    fn delete_shader(&mut self, handle: ShaderHandle);

    fn set_uniform(&mut self, handle: ShaderHandle, name: &str, value: ShaderUniform);

    fn create_mesh(&mut self, vertices: &Vertices, layout: &BufferLayout, indices: &Indices) -> MeshHandle;

    fn bind_mesh(&mut self, handle: MeshHandle);

    fn delete_mesh(&mut self, handle: MeshHandle);

    /// Draws the mesh as a triangle list with the shader.
    fn render(&mut self, mesh: MeshHandle, shader: ShaderHandle);
}

} // verus!
