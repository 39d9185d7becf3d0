use vstd::prelude::*;

verus! {

/// One attribute of an interleaved vertex: a vector of 32-bit floats.
#[derive(PartialEq, Eq, Clone, Copy, Debug, Structural)]
pub enum BufferElement {
    Vec3,
    Vec4,
}

impl BufferElement {
    /// Number of float components of the attribute.
    pub open spec fn spec_count(self) -> nat {
        match self {
            BufferElement::Vec3 => 3,
            BufferElement::Vec4 => 4,
        }
    }

    /// Size of the attribute in bytes: four bytes per component.
    pub open spec fn spec_size(self) -> nat {
        4 * self.spec_count()
    }

    pub fn count(&self) -> (r: usize)
        ensures
            r == self.spec_count(),
    {
        match self {
            BufferElement::Vec3 => 3,
            BufferElement::Vec4 => 4,
        }
    }

    pub fn size(&self) -> (r: usize)
        ensures
            r == self.spec_size(),
    {
        match self {
            BufferElement::Vec3 => 12,
            BufferElement::Vec4 => 16,
        }
    }
}

/// Total byte size of a run of attributes.
pub open spec fn sum_sizes(elements: Seq<BufferElement>) -> nat
    decreases elements.len(),
{
    if elements.len() == 0 {
        0
    } else {
        sum_sizes(elements.drop_last()) + elements.last().spec_size()
    }
}

proof fn lemma_sum_sizes_bound(elements: Seq<BufferElement>)
    ensures
        sum_sizes(elements) <= 16 * elements.len(),
    decreases elements.len(),
{
    if elements.len() > 0 {
        lemma_sum_sizes_bound(elements.drop_last());
    }
}

/// How the attributes of one vertex are laid out in an interleaved vertex buffer.
///
/// Attribute `i` has `counts[i]` float components and starts `offsets[i]` bytes into
/// the vertex; `stride` is the size of a whole vertex.
pub struct BufferLayout {
    pub types: Vec<BufferElement>,
    pub counts: Vec<usize>,
    pub offsets: Vec<usize>,
    pub stride: usize,
    pub len: usize,
}

impl BufferLayout {
    /// Lays the attributes out back to back in the order given.
    pub fn new(elements: &[BufferElement]) -> (r: Self)
        requires
            16 * elements@.len() <= usize::MAX,
        ensures
            r.types@ == elements@,
            r.len == elements@.len(),
            r.counts@.len() == elements@.len(),
            r.offsets@.len() == elements@.len(),
            forall|i: int| 0 <= i < elements@.len() ==> r.counts@[i] == elements@[i].spec_count(),
            forall|i: int| 0 <= i < elements@.len() ==> r.offsets@[i] == sum_sizes(elements@.take(i)),
            r.stride == sum_sizes(elements@),
    {
        let mut offset: usize = 0;
        let mut types: Vec<BufferElement> = Vec::with_capacity(elements.len());
        let mut counts: Vec<usize> = Vec::with_capacity(elements.len());
        let mut offsets: Vec<usize> = Vec::with_capacity(elements.len());
        let mut i: usize = 0;
        while i < elements.len()
            invariant
                i <= elements@.len(),
                16 * elements@.len() <= usize::MAX,
                types@ == elements@.take(i as int),
                counts@.len() == i,
                offsets@.len() == i,
                forall|j: int| 0 <= j < i ==> counts@[j] == elements@[j].spec_count(),
                forall|j: int| 0 <= j < i ==> offsets@[j] == sum_sizes(elements@.take(j)),
                offset == sum_sizes(elements@.take(i as int)),
            decreases elements@.len() - i,
        {
            let element = elements[i];
            proof {
                assert(elements@.take(i + 1).drop_last() =~= elements@.take(i as int));
                lemma_sum_sizes_bound(elements@.take(i + 1));
            }
            types.push(element);
            counts.push(element.count());
            offsets.push(offset);
            offset = offset + element.size();
            i += 1;
            assert(types@ =~= elements@.take(i as int));
        }
        assert(elements@.take(i as int) =~= elements@);
        BufferLayout { types, counts, offsets, stride: offset, len: elements.len() }
    }
}

/// Width of one element of an index buffer.
#[derive(PartialEq, Eq, Clone, Copy, Debug, Structural)]
pub enum IndexType {
    U8,
    U16,
    U32,
}

impl IndexType {
    /// Bytes per index.
    pub open spec fn spec_width(self) -> nat {
        match self {
            IndexType::U8 => 1,
            IndexType::U16 => 2,
            IndexType::U32 => 4,
        }
    }
}

/// The indices of a triangle list, in one of three widths.
pub enum Indices {
    U8(Vec<u8>),
    U16(Vec<u16>),
    U32(Vec<u32>),
}

impl Indices {
    /// Number of indices.
    pub open spec fn spec_len(&self) -> nat {
        match self {
            Indices::U8(v) => v@.len(),
            Indices::U16(v) => v@.len(),
            Indices::U32(v) => v@.len(),
        }
    }

    /// Width of each index.
    pub open spec fn spec_index_type(&self) -> IndexType {
        match self {
            Indices::U8(_) => IndexType::U8,
            Indices::U16(_) => IndexType::U16,
            Indices::U32(_) => IndexType::U32,
        }
    }

    /// Size in bytes of the whole index buffer.
    pub open spec fn spec_size(&self) -> nat {
        self.spec_len() * self.spec_index_type().spec_width()
    }

    pub fn size(&self) -> (r: usize)
        requires
            self.spec_size() <= usize::MAX,
        ensures
            r == self.spec_size(),
    {
        match self {
            Indices::U8(v) => v.len(),
            Indices::U16(v) => 2 * v.len(),
            Indices::U32(v) => 4 * v.len(),
        }
    }

    pub fn len(&self) -> (r: usize)
        ensures
            r == self.spec_len(),
    {
        match self {
            Indices::U8(v) => v.len(),
            Indices::U16(v) => v.len(),
            Indices::U32(v) => v.len(),
        }
    }

    pub fn index_type(&self) -> (r: IndexType)
        ensures
            r == self.spec_index_type(),
    {
        match self {
            Indices::U8(_) => IndexType::U8,
            Indices::U16(_) => IndexType::U16,
            Indices::U32(_) => IndexType::U32,
        }
    }
}

/// Interleaved vertex data. Each component is a 32-bit float, held as its IEEE-754 bit pattern.
pub struct Vertices(pub Vec<u32>);

impl Vertices {
    pub fn new(components: Vec<u32>) -> (r: Self)
        ensures
            r.0@ == components@,
    {
        Vertices(components)
    }

    /// Size in bytes of the vertex data.
    pub fn size(&self) -> (r: usize)
        requires
            4 * self.0@.len() <= usize::MAX,
        ensures
            r == 4 * self.0@.len(),
    {
        4 * self.0.len()
    }
}

/// Identifies a mesh owned by a renderer. The value `0` is reserved for "no mesh".
#[derive(PartialEq, Eq, Clone, Copy, Debug, Hash, Structural)]
pub struct MeshHandle {
    pub id: u32,
}

impl MeshHandle {
    pub fn new(id: u32) -> (r: Self)
        ensures
            r.id == id,
    {
        MeshHandle { id }
    }

    /// The reserved handle that never names a live mesh.
    pub fn none() -> (r: Self)
        ensures
            r.id == 0,
    {
        MeshHandle { id: 0 }
    }
}

} // verus!
