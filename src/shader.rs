use vstd::prelude::*;

verus! {

/// Identifies a shader program owned by a renderer. The value `0` is reserved for "no shader".
#[derive(PartialEq, Eq, Clone, Copy, Debug, Hash, Structural)]
pub struct ShaderHandle {
    pub id: u32,
}

impl ShaderHandle {
    pub fn new(id: u32) -> (r: Self)
        ensures
            r.id == id,
    {
        ShaderHandle { id }
    }

    /// The reserved handle that never names a live shader.
    pub fn none() -> (r: Self)
        ensures
            r.id == 0,
    {
        ShaderHandle { id: 0 }
    }
}

/// A stage of a shader program.
#[derive(PartialEq, Eq, Clone, Copy, Debug, Structural)]
pub enum ShaderType {
    Vertex,
    Fragment,
}

impl ShaderType {
    /// The stage's name as it appears in diagnostics.
    pub fn name(&self) -> (r: &'static str)
        ensures
            *self == ShaderType::Vertex ==> r@ == "Vertex"@,
            *self == ShaderType::Fragment ==> r@ == "Fragment"@,
    {
        match self {
            ShaderType::Vertex => "Vertex",
            ShaderType::Fragment => "Fragment",
        }
    }
}

/// A value uploaded to a shader uniform. Float components are held as their
/// IEEE-754 single-precision bit patterns.
#[derive(PartialEq, Eq, Clone, Copy, Debug, Structural)]
pub enum ShaderUniform {
    Float(u32),
    Vec3(u32, u32, u32),
    Vec4(u32, u32, u32, u32),
    I32(i32),
    U32(u32),
}

/// An RGB colour whose channels are IEEE-754 single-precision bit patterns.
/// Two colours are the same when their bit patterns are.
#[derive(PartialEq, Eq, Clone, Copy, Debug, Structural)]
pub struct Rgb {
    pub r: u32,
    pub g: u32,
    pub b: u32,
}

impl Rgb {
    pub fn new(r: u32, g: u32, b: u32) -> (c: Self)
        ensures
            c == (Rgb { r, g, b }),
    {
        Rgb { r, g, b }
    }
}

} // verus!
