use wrath::{
    BufferElement, BufferLayout, DrawCall, GpuRelease, IndexType, Indices, MeshBuffers, MeshHandle, Renderer,
    ResourceTable, Rgb, ShaderHandle, ShaderUniform, UniformStep, Vertices,
};

/// A renderer over a [`ResourceTable`] that counts the GPU calls it would make.
#[derive(Default)]
struct CountingRenderer {
    table: Option<ResourceTable>,
    next_object: u32,
    clear_color_calls: u32,
    use_program_calls: u32,
    bind_mesh_calls: u32,
    locate_calls: u32,
    uniform_uploads: Vec<(i32, ShaderUniform)>,
    draws: Vec<DrawCall>,
    released: Vec<GpuRelease>,
}

impl CountingRenderer {
    fn new() -> CountingRenderer {
        CountingRenderer { table: Some(ResourceTable::new()), next_object: 100, ..Default::default() }
    }
    fn table(&mut self) -> &mut ResourceTable {
        self.table.as_mut().unwrap()
    }
    fn object(&mut self) -> u32 {
        self.next_object += 1;
        self.next_object
    }
}

impl Renderer for CountingRenderer {
    fn clear(&mut self) {}
    fn set_clear_color(&mut self, color: Rgb) {
        if self.table().set_clear_color(color) {
            self.clear_color_calls += 1;
        }
    }
    fn create_shader(&mut self, _path: &str) -> ShaderHandle {
        let program = self.object();
        self.table().add_shader(program)
    }
    fn bind_shader(&mut self, handle: ShaderHandle) {
        if self.table().bind_shader(handle).is_some() {
            self.use_program_calls += 1;
        }
    }
    fn delete_shader(&mut self, handle: ShaderHandle) {
        let released = self.table().delete_shader(handle);
        self.released.push(released);
    }
    fn set_uniform(&mut self, handle: ShaderHandle, name: &str, value: ShaderUniform) {
        loop {
            match self.table().set_uniform(handle, name) {
                UniformStep::Locate { program } => {
                    self.locate_calls += 1;
                    let location = program as i32 * 10 + name.len() as i32;
                    self.table().cache_uniform_location(handle, name, location);
                }
                UniformStep::Upload { location, bind } => {
                    if bind.is_some() {
                        self.use_program_calls += 1;
                    }
                    self.uniform_uploads.push((location, value));
                    return;
                }
            }
        }
    }
    fn create_mesh(&mut self, _vertices: &Vertices, _layout: &BufferLayout, indices: &Indices) -> MeshHandle {
        let buffers = MeshBuffers { vertex_array: self.object(), vertex_buffer: self.object(), index_buffer: self.object() };
        self.table().add_mesh(buffers, indices)
    }
    fn bind_mesh(&mut self, handle: MeshHandle) {
        if self.table().bind_mesh(handle).is_some() {
            self.bind_mesh_calls += 1;
        }
    }
    fn delete_mesh(&mut self, handle: MeshHandle) {
        let released = self.table().delete_mesh(handle);
        self.released.extend(released);
    }
    fn render(&mut self, mesh: MeshHandle, shader: ShaderHandle) {
        let draw = self.table().render(mesh, shader);
        if draw.bind_mesh.is_some() {
            self.bind_mesh_calls += 1;
        }
        if draw.bind_program.is_some() {
            self.use_program_calls += 1;
        }
        self.draws.push(draw);
    }
}

fn square(renderer: &mut CountingRenderer) -> MeshHandle {
    let layout = BufferLayout::new(&[BufferElement::Vec3, BufferElement::Vec4]);
    let vertices = Vertices::new(vec![0; 28]);
    renderer.create_mesh(&vertices, &layout, &Indices::U8(vec![0, 1, 2, 0, 2, 3]))
}

#[test]
fn binding_a_shader_twice_binds_once() {
    let mut r = CountingRenderer::new();
    let shader = r.create_shader("shaders/basic");
    r.bind_shader(shader);
    r.bind_shader(shader);
    assert_eq!(r.use_program_calls, 1);
    let other = r.create_shader("shaders/other");
    r.bind_shader(other);
    r.bind_shader(shader);
    assert_eq!(r.use_program_calls, 3);
}

#[test]
fn binding_a_mesh_twice_binds_once() {
    let mut r = CountingRenderer::new();
    let mesh = square(&mut r);
    r.bind_mesh(mesh);
    r.bind_mesh(mesh);
    assert_eq!(r.bind_mesh_calls, 1);
}

#[test]
fn create_then_delete_mesh_releases_each_object_once() {
    let mut r = CountingRenderer::new();
    let mesh = square(&mut r);
    assert!(r.table().has_mesh(mesh));
    r.delete_mesh(mesh);
    assert!(!r.table().has_mesh(mesh));
    assert_eq!(
        r.released,
        vec![GpuRelease::VertexArray(101), GpuRelease::Buffer(102), GpuRelease::Buffer(103)]
    );
    let rest = r.table().release_all();
    assert!(rest.is_empty());
}

#[test]
fn uniform_location_is_looked_up_once_per_name() {
    let mut r = CountingRenderer::new();
    let shader = r.create_shader("shaders/two_files");
    r.set_uniform(shader, "u_rotation", ShaderUniform::Float(0x3f80_0000));
    r.set_uniform(shader, "u_rotation", ShaderUniform::Float(0x4000_0000));
    assert_eq!(r.locate_calls, 1);
    assert_eq!(r.use_program_calls, 1);
    let location = 101 * 10 + "u_rotation".len() as i32;
    assert_eq!(
        r.uniform_uploads,
        vec![(location, ShaderUniform::Float(0x3f80_0000)), (location, ShaderUniform::Float(0x4000_0000))]
    );
    r.set_uniform(shader, "u_color", ShaderUniform::Vec3(1, 2, 3));
    assert_eq!(r.locate_calls, 2);
}

#[test]
fn repeated_clear_color_is_set_once() {
    let mut r = CountingRenderer::new();
    let first = Rgb::new(0x3f00_0000, 0, 0x3f80_0000);
    r.set_clear_color(first);
    r.set_clear_color(first);
    r.set_clear_color(Rgb::new(0, 0x3f80_0000, 0));
    assert_eq!(r.clear_color_calls, 2);
}

#[test]
fn clear_color_equal_to_the_initial_one_is_not_set() {
    let mut r = CountingRenderer::new();
    r.set_clear_color(Rgb::new(0, 0, 0));
    assert_eq!(r.clear_color_calls, 0);
}

#[test]
fn render_binds_mesh_then_shader_and_draws_triangles() {
    let mut r = CountingRenderer::new();
    let mesh = square(&mut r);
    let shader = r.create_shader("shaders/basic");
    r.render(mesh, shader);
    r.render(mesh, shader);
    assert_eq!(r.bind_mesh_calls, 1);
    assert_eq!(r.use_program_calls, 1);
    let buffers = MeshBuffers { vertex_array: 101, vertex_buffer: 102, index_buffer: 103 };
    assert_eq!(
        r.draws,
        vec![
            DrawCall { bind_mesh: Some(buffers), bind_program: Some(104), index_count: 6, index_type: IndexType::U8 },
            DrawCall { bind_mesh: None, bind_program: None, index_count: 6, index_type: IndexType::U8 },
        ]
    );
}

#[test]
fn handles_are_fresh_across_shaders_and_meshes() {
    let mut r = CountingRenderer::new();
    let s1 = r.create_shader("a");
    let m1 = square(&mut r);
    let s2 = r.create_shader("b");
    assert_eq!((s1.id, m1.id, s2.id), (1, 2, 3));
    r.delete_shader(s1);
    let s3 = r.create_shader("c");
    assert_eq!(s3.id, 4);
    assert!(!r.table().has_shader(s1));
    assert!(r.table().has_shader(s3));
    assert_eq!(ShaderHandle::none().id, 0);
    assert_eq!(MeshHandle::none().id, 0);
    assert_eq!(ShaderHandle::new(5).id, 5);
    assert_eq!(MeshHandle::new(6).id, 6);
}

#[test]
fn deleting_a_shader_releases_its_program() {
    let mut r = CountingRenderer::new();
    let shader = r.create_shader("a");
    r.delete_shader(shader);
    assert_eq!(r.released, vec![GpuRelease::Program(101)]);
}

#[test]
fn release_all_returns_every_live_object() {
    let mut table = ResourceTable::new();
    let shader = table.add_shader(7);
    let mesh = table.add_mesh(
        MeshBuffers { vertex_array: 1, vertex_buffer: 2, index_buffer: 3 },
        &Indices::U32(vec![0, 1, 2]),
    );
    let gone = table.add_shader(9);
    table.delete_shader(gone);
    let mut released = table.release_all();
    released.sort_by_key(|x| format!("{:?}", x));
    assert_eq!(
        released,
        vec![GpuRelease::Buffer(2), GpuRelease::Buffer(3), GpuRelease::Program(7), GpuRelease::VertexArray(1)]
    );
    assert!(!table.has_shader(shader));
    assert!(!table.has_mesh(mesh));
    assert!(table.release_all().is_empty());
}

#[test]
fn set_uniform_before_lookup_asks_for_the_program() {
    let mut table = ResourceTable::new();
    let shader = table.add_shader(42);
    assert_eq!(table.set_uniform(shader, "u_time"), UniformStep::Locate { program: 42 });
    table.cache_uniform_location(shader, "u_time", 5);
    assert_eq!(table.set_uniform(shader, "u_time"), UniformStep::Upload { location: 5, bind: Some(42) });
    assert_eq!(table.set_uniform(shader, "u_time"), UniformStep::Upload { location: 5, bind: None });
    assert_eq!(table.set_uniform(shader, "u_other"), UniformStep::Locate { program: 42 });
}
