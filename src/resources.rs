use vstd::prelude::*;

use std::collections::HashMap;

use crate::mesh::{IndexType, Indices, MeshHandle};
use crate::shader::{Rgb, ShaderHandle};

verus! {

/// The GPU objects that hold one mesh.
#[derive(PartialEq, Eq, Clone, Copy, Debug, Structural)]
pub struct MeshBuffers {
    pub vertex_array: u32,
    pub vertex_buffer: u32,
    pub index_buffer: u32,
}

/// What a renderer keeps of a mesh: its GPU objects and what drawing it needs.
#[derive(PartialEq, Eq, Clone, Copy, Debug, Structural)]
pub struct MeshRecord {
    pub buffers: MeshBuffers,
    pub index_count: usize,
    pub index_type: IndexType,
}

/// A GPU object that must be released.
#[derive(PartialEq, Eq, Clone, Copy, Debug, Structural)]
pub enum GpuRelease {
    Program(u32),
    VertexArray(u32),
    Buffer(u32),
}

/// The next step of a uniform upload.
#[derive(PartialEq, Eq, Clone, Copy, Debug, Structural)]
pub enum UniformStep {
    /// The uniform's location in `program` is not known yet: look it up and cache it
    /// with [`ResourceTable::cache_uniform_location`], then ask again.
    Locate { program: u32 },
    /// Upload the value to `location`, after making `bind` the current program if it is given.
    Upload { location: i32, bind: Option<u32> },
}

/// A draw of a mesh with a shader: the objects to bind first, if they are not bound
/// already, and the triangle-list parameters.
#[derive(PartialEq, Eq, Clone, Copy, Debug, Structural)]
pub struct DrawCall {
    pub bind_mesh: Option<MeshBuffers>,
    pub bind_program: Option<u32>,
    pub index_count: usize,
    pub index_type: IndexType,
}

/// A uniform location remembered for one uniform name of a program.
struct UniformSlot {
    name: String,
    location: i32,
}

/// A linked program and the uniform locations looked up in it so far.
struct ShaderRecord {
    program: u32,
    uniforms: Vec<UniformSlot>,
}

/// The uniform locations cached in `slots`, by name.
spec fn slot_map(slots: Seq<UniformSlot>) -> Map<Seq<char>, i32>
    decreases slots.len(),
{
    if slots.len() == 0 {
        Map::empty()
    } else {
        slot_map(slots.drop_last()).insert(slots.last().name@, slots.last().location)
    }
}

proof fn lemma_slot_lookup(slots: Seq<UniformSlot>, name: Seq<char>, j: int)
    requires
        -1 <= j < slots.len(),
        forall|k: int| j < k < slots.len() ==> (#[trigger] slots[k]).name@ != name,
    ensures
        j >= 0 && slots[j].name@ == name ==> slot_map(slots).contains_key(name) && slot_map(slots)[name]
            == slots[j].location,
        j == -1 ==> !slot_map(slots).contains_key(name),
    decreases slots.len(),
{
    if slots.len() > 0 {
        let last = slots.len() - 1;
        if j < last {
            assert(slots[last].name@ != name);
            assert forall|k: int| j < k < slots.drop_last().len() implies (#[trigger] slots.drop_last()[k]).name@ != name by {
                assert(slots.drop_last()[k] == slots[k]);
            }
            lemma_slot_lookup(slots.drop_last(), name, j);
            if j >= 0 {
                assert(slots.drop_last()[j] == slots[j]);
            }
        }
    }
}

/// The objects to release for a mesh: its vertex array, vertex buffer and index buffer,
/// once each.
pub open spec fn mesh_releases(buffers: MeshBuffers) -> Seq<GpuRelease> {
    seq![
        GpuRelease::VertexArray(buffers.vertex_array),
        GpuRelease::Buffer(buffers.vertex_buffer),
        GpuRelease::Buffer(buffers.index_buffer),
    ]
}

/// Binding a shader twice in a row makes at most one GPU call: `after` is the table once
/// `handle` was bound, and binding it again needs no call. Together the two binds make
/// one call, or none when `handle` was bound already.
pub proof fn lemma_bind_shader_twice(before: ResourceTable, after: ResourceTable, handle: ShaderHandle)
    requires
        after.bound_shader() == handle,
    ensures
        after.shader_bind_call(handle) is None,
        (if before.shader_bind_call(handle) is Some { 1int } else { 0int }) + (if after.shader_bind_call(
            handle,
        ) is Some {
            1int
        } else {
            0int
        }) == if handle == before.bound_shader() {
            0int
        } else {
            1int
        },
{
}

/// Binding a mesh twice in a row makes at most one GPU call, as for shaders.
pub proof fn lemma_bind_mesh_twice(before: ResourceTable, after: ResourceTable, handle: MeshHandle)
    requires
        after.bound_mesh() == handle,
    ensures
        after.mesh_bind_call(handle) is None,
        (if before.mesh_bind_call(handle) is Some { 1int } else { 0int }) + (if after.mesh_bind_call(
            handle,
        ) is Some {
            1int
        } else {
            0int
        }) == if handle == before.bound_mesh() {
            0int
        } else {
            1int
        },
{
}

/// Adding a mesh and deleting it right away leaves the meshes as they were (empty, if they
/// were empty), and releases each of the mesh's three GPU objects exactly once.
pub proof fn lemma_mesh_round_trip(
    start: ResourceTable,
    added: ResourceTable,
    deleted: ResourceTable,
    handle: MeshHandle,
    record: MeshRecord,
)
    requires
        !start.mesh_records().contains_key(handle.id),
        added.mesh_records() == start.mesh_records().insert(handle.id, record),
        deleted.mesh_records() == added.mesh_records().remove(handle.id),
    ensures
        deleted.mesh_records() == start.mesh_records(),
        start.mesh_records().len() == 0 ==> deleted.mesh_records().len() == 0,
        mesh_releases(added.mesh_records()[handle.id].buffers) == seq![
            GpuRelease::VertexArray(record.buffers.vertex_array),
            GpuRelease::Buffer(record.buffers.vertex_buffer),
            GpuRelease::Buffer(record.buffers.index_buffer),
        ],
{
    assert(deleted.mesh_records() =~= start.mesh_records());
}

/// The renderer's bookkeeping: which shaders and meshes are live under which handles,
/// what is bound, and the clear colour last set.
///
/// Each operation says which GPU calls it needs; the caller makes them. Binding what is
/// already bound, or setting the clear colour it already has, needs no call.
pub struct ResourceTable {
    clear_color: Rgb,
    handle_counter: u32,
    shaders: HashMap<u32, ShaderRecord>,
    bound_shader: ShaderHandle,
    meshes: HashMap<u32, MeshRecord>,
    bound_mesh: MeshHandle,
}

impl ResourceTable {
    /// Live shaders: handle value to program object.
    pub closed spec fn shader_programs(&self) -> Map<u32, u32> {
        self.shaders@.map_values(|s: ShaderRecord| s.program)
    }

    /// The uniform locations cached for the shader under `id`, by uniform name.
    pub closed spec fn uniform_locations(&self, id: u32) -> Map<Seq<char>, i32> {
        slot_map(self.shaders@[id].uniforms@)
    }

    /// Live meshes, by handle value.
    pub closed spec fn mesh_records(&self) -> Map<u32, MeshRecord> {
        self.meshes@
    }

    pub closed spec fn bound_shader(&self) -> ShaderHandle {
        self.bound_shader
    }

    pub closed spec fn bound_mesh(&self) -> MeshHandle {
        self.bound_mesh
    }

    pub closed spec fn clear_color(&self) -> Rgb {
        self.clear_color
    }

    /// The value of the next handle that will be issued, for a shader or a mesh.
    pub closed spec fn next_handle(&self) -> u32 {
        self.handle_counter
    }

    /// The program that binding `handle` makes current, or `None` when it is bound already.
    pub open spec fn shader_bind_call(&self, handle: ShaderHandle) -> Option<u32> {
        if handle == self.bound_shader() {
            None
        } else {
            Some(self.shader_programs()[handle.id])
        }
    }

    /// The objects that binding `handle` binds, or `None` when it is bound already.
    pub open spec fn mesh_bind_call(&self, handle: MeshHandle) -> Option<MeshBuffers> {
        if handle == self.bound_mesh() {
            None
        } else {
            Some(self.mesh_records()[handle.id].buffers)
        }
    }

    /// Well-formedness: every live handle was issued, and no value names both a
    /// shader and a mesh.
    pub open spec fn wf(&self) -> bool {
        &&& self.next_handle() >= 1
        &&& forall|id: u32| #[trigger] self.shader_programs().contains_key(id) ==> 1 <= id < self.next_handle()
        &&& forall|id: u32| #[trigger] self.mesh_records().contains_key(id) ==> 1 <= id < self.next_handle()
        &&& forall|id: u32|
            !(#[trigger] self.shader_programs().contains_key(id) && self.mesh_records().contains_key(id))
    }

    /// An empty table with a black clear colour and nothing bound.
    pub fn new() -> (r: Self)
        ensures
            r.wf(),
            r.shader_programs() == Map::<u32, u32>::empty(),
            r.mesh_records() == Map::<u32, MeshRecord>::empty(),
            r.bound_shader().id == 0,
            r.bound_mesh().id == 0,
            r.clear_color() == (Rgb { r: 0, g: 0, b: 0 }),
            r.next_handle() == 1,
    {
        let r = ResourceTable {
            clear_color: Rgb { r: 0, g: 0, b: 0 },
            handle_counter: 1,
            shaders: HashMap::new(),
            bound_shader: ShaderHandle { id: 0 },
            meshes: HashMap::new(),
            bound_mesh: MeshHandle { id: 0 },
        };
        assert(r.shader_programs() =~= Map::<u32, u32>::empty());
        r
    }

    /// Whether another shader or mesh can be created: handles are 32-bit and never reused.
    pub fn has_free_handle(&self) -> (r: bool)
        ensures
            r == (self.next_handle() < u32::MAX),
    {
        self.handle_counter < u32::MAX
    }

    /// The shader bound last.
    pub fn current_shader(&self) -> (r: ShaderHandle)
        ensures
            r == self.bound_shader(),
    {
        self.bound_shader
    }

    /// The mesh bound last.
    pub fn current_mesh(&self) -> (r: MeshHandle)
        ensures
            r == self.bound_mesh(),
    {
        self.bound_mesh
    }

    pub fn has_shader(&self, handle: ShaderHandle) -> (r: bool)
        ensures
            r == self.shader_programs().contains_key(handle.id),
    {
        self.shaders.contains_key(&handle.id)
    }

    pub fn has_mesh(&self, handle: MeshHandle) -> (r: bool)
        ensures
            r == self.mesh_records().contains_key(handle.id),
    {
        self.meshes.contains_key(&handle.id)
    }

    /// Records `color` as the clear colour. Returns whether it differs from the one set
    /// before, that is, whether the GPU's clear colour must be set.
    pub fn set_clear_color(&mut self, color: Rgb) -> (changed: bool)
        ensures
            changed == (color != old(self).clear_color()),
            final(self).clear_color() == color,
            final(self).shader_programs() == old(self).shader_programs(),
            final(self).mesh_records() == old(self).mesh_records(),
            final(self).bound_shader() == old(self).bound_shader(),
            final(self).bound_mesh() == old(self).bound_mesh(),
            final(self).next_handle() == old(self).next_handle(),
            forall|id: u32| #[trigger] final(self).uniform_locations(id) == old(self).uniform_locations(id),
    {
        if color == self.clear_color {
            false
        } else {
            self.clear_color = color;
            true
        }
    }

    /// Registers a linked program under a fresh handle, with no uniform locations cached.
    pub fn add_shader(&mut self, program: u32) -> (r: ShaderHandle)
        requires
            old(self).wf(),
            old(self).next_handle() < u32::MAX,
        ensures
            final(self).wf(),
            r.id == old(self).next_handle(),
            r.id != 0,
            !old(self).shader_programs().contains_key(r.id),
            !old(self).mesh_records().contains_key(r.id),
            final(self).next_handle() == old(self).next_handle() + 1,
            final(self).shader_programs() == old(self).shader_programs().insert(r.id, program),
            final(self).uniform_locations(r.id) == Map::<Seq<char>, i32>::empty(),
            forall|id: u32| id != r.id ==> #[trigger] final(self).uniform_locations(id) == old(self).uniform_locations(id),
            final(self).mesh_records() == old(self).mesh_records(),
            final(self).bound_shader() == old(self).bound_shader(),
            final(self).bound_mesh() == old(self).bound_mesh(),
            final(self).clear_color() == old(self).clear_color(),
    {
        let handle = ShaderHandle { id: self.handle_counter };
        self.handle_counter = self.handle_counter + 1;
        self.shaders.insert(handle.id, ShaderRecord { program, uniforms: Vec::new() });
        proof {
            assert(self.shader_programs() =~= old(self).shader_programs().insert(handle.id, program));
            assert(slot_map(Seq::<UniformSlot>::empty()) == Map::<Seq<char>, i32>::empty());
            if old(self).mesh_records().contains_key(handle.id) {
            }
            if old(self).shader_programs().contains_key(handle.id) {
            }
            assert forall|id: u32| #[trigger] self.shader_programs().contains_key(id) implies 1 <= id < self.next_handle() by {
                if id != handle.id {
                    assert(old(self).shader_programs().contains_key(id));
                }
            }
            assert forall|id: u32| !(#[trigger] self.shader_programs().contains_key(id) && self.mesh_records().contains_key(id)) by {
                if id != handle.id && self.shader_programs().contains_key(id) {
                    assert(old(self).shader_programs().contains_key(id));
                }
            }
        }
        handle
    }

    /// Makes `handle` the bound shader. Returns the program that must be made current, or
    /// `None` when `handle` is bound already.
    pub fn bind_shader(&mut self, handle: ShaderHandle) -> (r: Option<u32>)
        requires
            handle == old(self).bound_shader() || old(self).shader_programs().contains_key(handle.id),
        ensures
            r == old(self).shader_bind_call(handle),
            final(self).bound_shader() == handle,
            forall|id: u32| #[trigger] final(self).uniform_locations(id) == old(self).uniform_locations(id),
            final(self).shader_programs() == old(self).shader_programs(),
            final(self).mesh_records() == old(self).mesh_records(),
            final(self).bound_mesh() == old(self).bound_mesh(),
            final(self).clear_color() == old(self).clear_color(),
            final(self).next_handle() == old(self).next_handle(),
    {
        if handle == self.bound_shader {
            return None;
        }
        let program = match self.shaders.get(&handle.id) {
            Some(shader) => shader.program,
            None => {
                proof {
                    assert(self.shader_programs().contains_key(handle.id));
                }
                0
            },
        };
        self.bound_shader = handle;
        Some(program)
    }

    /// Forgets the shader under `handle`. Returns its program, which must be released.
    pub fn delete_shader(&mut self, handle: ShaderHandle) -> (r: GpuRelease)
        requires
            old(self).wf(),
            old(self).shader_programs().contains_key(handle.id),
        ensures
            final(self).wf(),
            r == GpuRelease::Program(old(self).shader_programs()[handle.id]),
            final(self).shader_programs() == old(self).shader_programs().remove(handle.id),
            forall|id: u32| id != handle.id ==> #[trigger] final(self).uniform_locations(id) == old(self).uniform_locations(id),
            final(self).mesh_records() == old(self).mesh_records(),
            final(self).bound_shader() == old(self).bound_shader(),
            final(self).bound_mesh() == old(self).bound_mesh(),
            final(self).clear_color() == old(self).clear_color(),
            final(self).next_handle() == old(self).next_handle(),
    {
        let program = match self.shaders.remove(&handle.id) {
            Some(shader) => shader.program,
            None => 0,
        };
        proof {
            assert(self.shader_programs() =~= old(self).shader_programs().remove(handle.id));
        }
        GpuRelease::Program(program)
    }

    /// The next step of setting the uniform `name` of the shader under `handle`.
    ///
    /// When its location is not cached yet, the program to look it up in is returned and
    /// nothing changes. Otherwise the cached location is returned and the shader becomes
    /// the bound one, with the program to make current unless it was bound already.
    pub fn set_uniform(&mut self, handle: ShaderHandle, name: &str) -> (r: UniformStep)
        requires
            old(self).shader_programs().contains_key(handle.id),
        ensures
            !old(self).uniform_locations(handle.id).contains_key(name@) ==> r == (UniformStep::Locate {
                program: old(self).shader_programs()[handle.id],
            }) && final(self).bound_shader() == old(self).bound_shader(),
            old(self).uniform_locations(handle.id).contains_key(name@) ==> r == (UniformStep::Upload {
                location: old(self).uniform_locations(handle.id)[name@],
                bind: old(self).shader_bind_call(handle),
            }) && final(self).bound_shader() == handle,
            forall|id: u32| #[trigger] final(self).uniform_locations(id) == old(self).uniform_locations(id),
            final(self).shader_programs() == old(self).shader_programs(),
            final(self).mesh_records() == old(self).mesh_records(),
            final(self).bound_mesh() == old(self).bound_mesh(),
            final(self).clear_color() == old(self).clear_color(),
            final(self).next_handle() == old(self).next_handle(),
    {
        let (program, found) = match self.shaders.get(&handle.id) {
            Some(shader) => (shader.program, find_slot(&shader.uniforms, name)),
            None => (0, None),
        };
        match found {
            None => UniformStep::Locate { program },
            Some(location) => {
                let bind = self.bind_shader(handle);
                UniformStep::Upload { location, bind }
            },
        }
    }

    /// Caches `location` as the location of uniform `name` in the shader under `handle`.
    pub fn cache_uniform_location(&mut self, handle: ShaderHandle, name: &str, location: i32)
        requires
            old(self).wf(),
            old(self).shader_programs().contains_key(handle.id),
        ensures
            final(self).wf(),
            final(self).uniform_locations(handle.id) == old(self).uniform_locations(handle.id).insert(name@, location),
            forall|id: u32| id != handle.id ==> #[trigger] final(self).uniform_locations(id) == old(self).uniform_locations(id),
            final(self).shader_programs() == old(self).shader_programs(),
            final(self).mesh_records() == old(self).mesh_records(),
            final(self).bound_shader() == old(self).bound_shader(),
            final(self).bound_mesh() == old(self).bound_mesh(),
            final(self).clear_color() == old(self).clear_color(),
            final(self).next_handle() == old(self).next_handle(),
    {
        match self.shaders.remove(&handle.id) {
            Some(shader) => {
                let mut shader = shader;
                let ghost before = shader.uniforms@;
                shader.uniforms.push(UniformSlot { name: name.to_owned(), location });
                proof {
                    assert(shader.uniforms@.drop_last() =~= before);
                }
                self.shaders.insert(handle.id, shader);
                proof {
                    assert(self.shader_programs() =~= old(self).shader_programs());
                }
            },
            None => {},
        }
    }

    /// Registers the GPU objects of a new mesh under a fresh handle, with the index count
    /// and index width of `indices`.
    pub fn add_mesh(&mut self, buffers: MeshBuffers, indices: &Indices) -> (r: MeshHandle)
        requires
            old(self).wf(),
            old(self).next_handle() < u32::MAX,
        ensures
            final(self).wf(),
            r.id == old(self).next_handle(),
            r.id != 0,
            !old(self).shader_programs().contains_key(r.id),
            !old(self).mesh_records().contains_key(r.id),
            final(self).next_handle() == old(self).next_handle() + 1,
            final(self).mesh_records() == old(self).mesh_records().insert(
                r.id,
                MeshRecord { buffers, index_count: indices.spec_len() as usize, index_type: indices.spec_index_type() },
            ),
            final(self).shader_programs() == old(self).shader_programs(),
            final(self).bound_shader() == old(self).bound_shader(),
            final(self).bound_mesh() == old(self).bound_mesh(),
            final(self).clear_color() == old(self).clear_color(),
            forall|id: u32| #[trigger] final(self).uniform_locations(id) == old(self).uniform_locations(id),
    {
        let handle = MeshHandle { id: self.handle_counter };
        let record = MeshRecord { buffers, index_count: indices.len(), index_type: indices.index_type() };
        self.handle_counter = self.handle_counter + 1;
        self.meshes.insert(handle.id, record);
        proof {
            if old(self).mesh_records().contains_key(handle.id) {
            }
            if old(self).shader_programs().contains_key(handle.id) {
            }
            assert forall|id: u32| #[trigger] self.mesh_records().contains_key(id) implies 1 <= id < self.next_handle() by {
                if id != handle.id {
                    assert(old(self).mesh_records().contains_key(id));
                }
            }
            assert forall|id: u32| !(#[trigger] self.shader_programs().contains_key(id) && self.mesh_records().contains_key(id)) by {
                if id != handle.id && self.mesh_records().contains_key(id) {
                    assert(old(self).mesh_records().contains_key(id));
                }
            }
        }
        handle
    }

    /// Makes `handle` the bound mesh. Returns the objects that must be bound, or `None`
    /// when `handle` is bound already.
    pub fn bind_mesh(&mut self, handle: MeshHandle) -> (r: Option<MeshBuffers>)
        requires
            handle == old(self).bound_mesh() || old(self).mesh_records().contains_key(handle.id),
        ensures
            r == old(self).mesh_bind_call(handle),
            final(self).bound_mesh() == handle,
            final(self).shader_programs() == old(self).shader_programs(),
            final(self).mesh_records() == old(self).mesh_records(),
            final(self).bound_shader() == old(self).bound_shader(),
            final(self).clear_color() == old(self).clear_color(),
            final(self).next_handle() == old(self).next_handle(),
            forall|id: u32| #[trigger] final(self).uniform_locations(id) == old(self).uniform_locations(id),
    {
        if handle == self.bound_mesh {
            return None;
        }
        let buffers = match self.meshes.get(&handle.id) {
            Some(mesh) => mesh.buffers,
            None => MeshBuffers { vertex_array: 0, vertex_buffer: 0, index_buffer: 0 },
        };
        self.bound_mesh = handle;
        Some(buffers)
    }

    /// Forgets the mesh under `handle`. Returns its vertex array, vertex buffer and index
    /// buffer, in that order, each to be released once.
    pub fn delete_mesh(&mut self, handle: MeshHandle) -> (r: Vec<GpuRelease>)
        requires
            old(self).wf(),
            old(self).mesh_records().contains_key(handle.id),
        ensures
            final(self).wf(),
            r@ == mesh_releases(old(self).mesh_records()[handle.id].buffers),
            final(self).mesh_records() == old(self).mesh_records().remove(handle.id),
            final(self).shader_programs() == old(self).shader_programs(),
            final(self).bound_shader() == old(self).bound_shader(),
            final(self).bound_mesh() == old(self).bound_mesh(),
            final(self).clear_color() == old(self).clear_color(),
            final(self).next_handle() == old(self).next_handle(),
            forall|id: u32| #[trigger] final(self).uniform_locations(id) == old(self).uniform_locations(id),
    {
        let buffers = match self.meshes.remove(&handle.id) {
            Some(mesh) => mesh.buffers,
            None => MeshBuffers { vertex_array: 0, vertex_buffer: 0, index_buffer: 0 },
        };
        proof {
            assert(self.shader_programs() == old(self).shader_programs());
            assert forall|id: u32| #[trigger] self.mesh_records().contains_key(id) implies 1 <= id < self.next_handle() by {
                assert(old(self).mesh_records().contains_key(id));
            }
            assert forall|id: u32| !(#[trigger] self.shader_programs().contains_key(id) && self.mesh_records().contains_key(id)) by {
                assert(self.shader_programs() == old(self).shader_programs());
                if self.mesh_records().contains_key(id) {
                    assert(old(self).mesh_records().contains_key(id));
                }
            }
        }
        let mut released: Vec<GpuRelease> = Vec::new();
        released.push(GpuRelease::VertexArray(buffers.vertex_array));
        released.push(GpuRelease::Buffer(buffers.vertex_buffer));
        released.push(GpuRelease::Buffer(buffers.index_buffer));
        assert(released@ =~= seq![
            GpuRelease::VertexArray(buffers.vertex_array),
            GpuRelease::Buffer(buffers.vertex_buffer),
            GpuRelease::Buffer(buffers.index_buffer),
        ]);
        released
    }

    /// Draws the mesh under `mesh` with the shader under `shader`: binds the mesh, then
    /// the shader, and returns what must be bound and the triangle-list parameters.
    pub fn render(&mut self, mesh: MeshHandle, shader: ShaderHandle) -> (r: DrawCall)
        requires
            old(self).mesh_records().contains_key(mesh.id),
            shader == old(self).bound_shader() || old(self).shader_programs().contains_key(shader.id),
        ensures
            r == (DrawCall {
                bind_mesh: old(self).mesh_bind_call(mesh),
                bind_program: old(self).shader_bind_call(shader),
                index_count: old(self).mesh_records()[mesh.id].index_count,
                index_type: old(self).mesh_records()[mesh.id].index_type,
            }),
            final(self).bound_mesh() == mesh,
            final(self).bound_shader() == shader,
            final(self).shader_programs() == old(self).shader_programs(),
            final(self).mesh_records() == old(self).mesh_records(),
            final(self).clear_color() == old(self).clear_color(),
            final(self).next_handle() == old(self).next_handle(),
            forall|id: u32| #[trigger] final(self).uniform_locations(id) == old(self).uniform_locations(id),
    {
        let bind_mesh = self.bind_mesh(mesh);
        let bind_program = self.bind_shader(shader);
        let record = match self.meshes.get(&mesh.id) {
            Some(record) => *record,
            None => MeshRecord {
                buffers: MeshBuffers { vertex_array: 0, vertex_buffer: 0, index_buffer: 0 },
                index_count: 0,
                index_type: IndexType::U8,
            },
        };
        DrawCall { bind_mesh, bind_program, index_count: record.index_count, index_type: record.index_type }
    }

    /// Whether releasing `object` is part of releasing one of the live resources.
    pub open spec fn holds_object(&self, object: GpuRelease) -> bool {
        ||| exists|id: u32|
            #[trigger] self.shader_programs().contains_key(id) && object == GpuRelease::Program(
                self.shader_programs()[id],
            )
        ||| exists|id: u32|
            #[trigger] self.mesh_records().contains_key(id) && (object == GpuRelease::VertexArray(
                self.mesh_records()[id].buffers.vertex_array,
            ) || object == GpuRelease::Buffer(self.mesh_records()[id].buffers.vertex_buffer)
                || object == GpuRelease::Buffer(self.mesh_records()[id].buffers.index_buffer))
    }

    /// Forgets every live shader and mesh. Returns the GPU objects of all of them, each of
    /// which must be released; nothing else is returned.
    pub fn release_all(&mut self) -> (r: Vec<GpuRelease>)
        requires
            old(self).wf(),
        ensures
            final(self).wf(),
            final(self).shader_programs() == Map::<u32, u32>::empty(),
            final(self).mesh_records() == Map::<u32, MeshRecord>::empty(),
            forall|id: u32|
                #[trigger] old(self).shader_programs().contains_key(id) ==> r@.contains(
                    GpuRelease::Program(old(self).shader_programs()[id]),
                ),
            forall|id: u32|
                #[trigger] old(self).mesh_records().contains_key(id) ==> {
                    let b = old(self).mesh_records()[id].buffers;
                    &&& r@.contains(GpuRelease::VertexArray(b.vertex_array))
                    &&& r@.contains(GpuRelease::Buffer(b.vertex_buffer))
                    &&& r@.contains(GpuRelease::Buffer(b.index_buffer))
                },
            forall|i: int| 0 <= i < r@.len() ==> old(self).holds_object(#[trigger] r@[i]),
            final(self).bound_shader() == old(self).bound_shader(),
            final(self).bound_mesh() == old(self).bound_mesh(),
            final(self).clear_color() == old(self).clear_color(),
            final(self).next_handle() == old(self).next_handle(),
    {
        let mut released: Vec<GpuRelease> = Vec::new();
        let mut id: u32 = 1;
        while id < self.handle_counter
            invariant
                old(self).wf(),
                1 <= id <= self.handle_counter,
                self.handle_counter == old(self).handle_counter,
                self.bound_shader == old(self).bound_shader,
                self.bound_mesh == old(self).bound_mesh,
                self.clear_color == old(self).clear_color,
                forall|k: u32| #[trigger] self.shader_programs().contains_key(k) <==> old(self).shader_programs().contains_key(k) && k >= id,
                forall|k: u32| #[trigger] self.mesh_records().contains_key(k) <==> old(self).mesh_records().contains_key(k) && k >= id,
                forall|k: u32| #[trigger] self.shader_programs().contains_key(k) ==> self.shader_programs()[k] == old(self).shader_programs()[k],
                forall|k: u32| #[trigger] self.mesh_records().contains_key(k) ==> self.mesh_records()[k] == old(self).mesh_records()[k],
                forall|k: u32|
                    #[trigger] old(self).shader_programs().contains_key(k) && k < id ==> released@.contains(
                        GpuRelease::Program(old(self).shader_programs()[k]),
                    ),
                forall|k: u32|
                    #[trigger] old(self).mesh_records().contains_key(k) && k < id ==> {
                        let b = old(self).mesh_records()[k].buffers;
                        &&& released@.contains(GpuRelease::VertexArray(b.vertex_array))
                        &&& released@.contains(GpuRelease::Buffer(b.vertex_buffer))
                        &&& released@.contains(GpuRelease::Buffer(b.index_buffer))
                    },
                forall|i: int| 0 <= i < released@.len() ==> old(self).holds_object(#[trigger] released@[i]),
            decreases self.handle_counter - id,
        {
            let ghost before = released@;
            let ghost shaders_before = self.shader_programs();
            let ghost meshes_before = self.mesh_records();
            let ghost raw_before = self.shaders@;
            match self.shaders.remove(&id) {
                Some(shader) => {
                    released.push(GpuRelease::Program(shader.program));
                    proof {
                        assert(raw_before.contains_key(id) && raw_before[id] == shader);
                        assert(shaders_before.contains_key(id));
                        assert(shaders_before[id] == shader.program);
                        assert(old(self).shader_programs().contains_key(id));
                        assert(released@.last() == GpuRelease::Program(old(self).shader_programs()[id]));
                    }
                },
                None => {},
            }
            match self.meshes.remove(&id) {
                Some(mesh) => {
                    released.push(GpuRelease::VertexArray(mesh.buffers.vertex_array));
                    released.push(GpuRelease::Buffer(mesh.buffers.vertex_buffer));
                    released.push(GpuRelease::Buffer(mesh.buffers.index_buffer));
                    proof {
                        assert(meshes_before.contains_key(id));
                        assert(old(self).mesh_records().contains_key(id));
                        let n = released@.len();
                        assert(released@[n - 3] == GpuRelease::VertexArray(mesh.buffers.vertex_array));
                        assert(released@[n - 2] == GpuRelease::Buffer(mesh.buffers.vertex_buffer));
                        assert(released@[n - 1] == GpuRelease::Buffer(mesh.buffers.index_buffer));
                    }
                },
                None => {},
            }
            proof {
                assert(self.shader_programs() == shaders_before.remove(id));
                assert(self.mesh_records() == meshes_before.remove(id));
                assert forall|i: int| 0 <= i < before.len() implies released@[i] == before[i] by {
                }
                assert forall|i: int| 0 <= i < released@.len() implies old(self).holds_object(#[trigger] released@[i]) by {
                    if i >= before.len() {
                        if old(self).shader_programs().contains_key(id) && i == before.len() {
                            assert(old(self).shader_programs().contains_key(id));
                        } else {
                            assert(old(self).mesh_records().contains_key(id));
                        }
                    }
                }
                assert forall|k: u32| #[trigger] old(self).shader_programs().contains_key(k) && k < id + 1 implies released@.contains(
                    GpuRelease::Program(old(self).shader_programs()[k])) by {
                    if k < id {
                        let x = choose|x: int| 0 <= x < before.len() && before[x] == GpuRelease::Program(old(self).shader_programs()[k]);
                        assert(released@[x] == before[x]);
                    } else {
                        assert(released@[before.len() as int] == GpuRelease::Program(old(self).shader_programs()[k]));
                    }
                }
                assert forall|k: u32| #[trigger] old(self).mesh_records().contains_key(k) && k < id + 1 implies {
                    let b = old(self).mesh_records()[k].buffers;
                    &&& released@.contains(GpuRelease::VertexArray(b.vertex_array))
                    &&& released@.contains(GpuRelease::Buffer(b.vertex_buffer))
                    &&& released@.contains(GpuRelease::Buffer(b.index_buffer))
                } by {
                    let b = old(self).mesh_records()[k].buffers;
                    if k < id {
                        let x = choose|x: int| 0 <= x < before.len() && before[x] == GpuRelease::VertexArray(b.vertex_array);
                        let y = choose|y: int| 0 <= y < before.len() && before[y] == GpuRelease::Buffer(b.vertex_buffer);
                        let z = choose|z: int| 0 <= z < before.len() && before[z] == GpuRelease::Buffer(b.index_buffer);
                        assert(released@[x] == before[x]);
                        assert(released@[y] == before[y]);
                        assert(released@[z] == before[z]);
                    } else {
                        let n = released@.len();
                        assert(released@[n - 3] == GpuRelease::VertexArray(b.vertex_array));
                        assert(released@[n - 2] == GpuRelease::Buffer(b.vertex_buffer));
                        assert(released@[n - 1] == GpuRelease::Buffer(b.index_buffer));
                    }
                }
            }
            id = id + 1;
        }
        proof {
            assert forall|k: u32| !self.shader_programs().contains_key(k) by {
                if old(self).shader_programs().contains_key(k) {
                }
            }
            assert forall|k: u32| !self.mesh_records().contains_key(k) by {
                if old(self).mesh_records().contains_key(k) {
                }
            }
            assert(self.shader_programs() =~= Map::<u32, u32>::empty());
            assert(self.mesh_records() =~= Map::<u32, MeshRecord>::empty());
        }
        released
    }
}

/// The location cached for `name` in `slots`, if any.
fn find_slot(slots: &Vec<UniformSlot>, name: &str) -> (r: Option<i32>)
    ensures
        r == if slot_map(slots@).contains_key(name@) {
            Some(slot_map(slots@)[name@])
        } else {
            None::<i32>
        },
{
    let wanted = name.to_owned();
    let mut j: usize = slots.len();
    while j > 0
        invariant
            j <= slots@.len(),
            wanted@ == name@,
            forall|k: int| j <= k < slots@.len() ==> (#[trigger] slots@[k]).name@ != name@,
        decreases j,
    {
        j -= 1;
        if slots[j].name == wanted {
            proof {
                lemma_slot_lookup(slots@, name@, j as int);
            }
            return Some(slots[j].location);
        }
    }
    proof {
        lemma_slot_lookup(slots@, name@, -1);
    }
    None
}

} // verus!
