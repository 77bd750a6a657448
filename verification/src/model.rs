//! Models: immutable geometry packed once at construction, an index
//! mirror, a per-instance transform mirror, and a material reference
//! resolved through the cache at draw time.

use vstd::prelude::*;

use crate::buffer::{
    packed, pack_all, pack_words_le, words_le, BufferUsage, GpuPod, SyncedBuffer, Transform,
    lemma_words_le_len,
};
use crate::cache::CacheHandle;

verus! {

/// A textured vertex: position and texture coordinates, each component
/// held as the 32-bit pattern of the scalar the device reads.
#[derive(Clone, Copy, Debug, PartialEq, Eq)]
pub struct TextureVertex {
    pub pos: [u32; 3],
    pub tex_coords: [u32; 2],
}

/// The five words of a vertex: three position components, then two
/// texture coordinates.
pub open spec fn vertex_words(v: TextureVertex) -> Seq<u32> {
    seq![v.pos@[0], v.pos@[1], v.pos@[2], v.tex_coords@[0], v.tex_coords@[1]]
}

impl GpuPod for TextureVertex {
    open spec fn pod_bytes(&self) -> Seq<u8> {
        words_le(vertex_words(*self))
    }

    open spec fn pod_size() -> nat {
        20
    }

    proof fn pod_size_agrees(&self) {
        lemma_words_le_len(vertex_words(*self));
    }

    fn pod(&self) -> (r: Vec<u8>) {
        let mut ws: Vec<u32> = Vec::new();
        ws.push(self.pos[0]);
        ws.push(self.pos[1]);
        ws.push(self.pos[2]);
        ws.push(self.tex_coords[0]);
        ws.push(self.tex_coords[1]);
        proof {
            assert(ws@ =~= vertex_words(*self));
        }
        pack_words_le(&ws)
    }
}

/// The scalar layout of one vertex attribute.
#[derive(Clone, Copy, Debug, PartialEq, Eq, Structural)]
pub enum VertexFormat {
    Float32x3,
    Float32x2,
}

/// How a vertex-buffer stream advances: once per vertex (geometry) or
/// once per instance (the transform stream).
#[derive(Clone, Copy, Debug, PartialEq, Eq, Structural)]
pub enum VertexStepMode {
    Vertex,
    Instance,
}

/// One attribute of the vertex layout: its format, byte offset within a
/// vertex, and the shader location it binds to.
#[derive(Clone, Copy, Debug, PartialEq, Eq, Structural)]
pub struct VertexAttribute {
    pub format: VertexFormat,
    pub offset: u32,
    pub shader_location: u32,
}

/// The vertex-buffer layout the pipelines consume.
pub struct VertexLayout {
    pub array_stride: u32,
    pub step_mode: VertexStepMode,
    pub attributes: Vec<VertexAttribute>,
}

impl TextureVertex {
    /// The layout of the packed vertex stream: a 20-byte stride, advanced
    /// once per vertex, holding the position at offset 0 (location 0) and
    /// the texture coordinates at offset 12 (location 1), matching
    /// [`TextureVertex::pod`] exactly.
    pub fn desc() -> (l: VertexLayout)
        ensures
            l.array_stride == 20,
            l.step_mode == VertexStepMode::Vertex,
            l.attributes@.len() == 2,
            l.attributes@[0] == (VertexAttribute {
                format: VertexFormat::Float32x3,
                offset: 0u32,
                shader_location: 0u32,
            }),
            l.attributes@[1] == (VertexAttribute {
                format: VertexFormat::Float32x2,
                offset: 12u32,
                shader_location: 1u32,
            }),
    {
        let mut attributes: Vec<VertexAttribute> = Vec::new();
        attributes.push(VertexAttribute {
            format: VertexFormat::Float32x3,
            offset: 0,
            shader_location: 0,
        });
        attributes.push(VertexAttribute {
            format: VertexFormat::Float32x2,
            offset: 12,
            shader_location: 1,
        });
        VertexLayout { array_stride: 20, step_mode: VertexStepMode::Vertex, attributes }
    }
}

/// One imported mesh, as a scene importer hands it over: the vertex list
/// and the index list of one model.
pub struct MeshData {
    pub vertices: Vec<TextureVertex>,
    pub indices: Vec<u16>,
}

/// A render object: geometry uploaded once at construction, an index
/// mirror, a transform mirror with one matrix per draw instance, and the
/// cache handle of its material.
pub struct Model {
    /// The packed byte image of the immutable vertex buffer, uploaded once.
    pub vertex_data: Vec<u8>,
    /// How many vertices the geometry holds.
    pub vertex_count: usize,
    /// The index buffer mirror.
    pub indices: SyncedBuffer<u16>,
    /// The per-instance transform mirror; its length is the draw's
    /// instance count.
    pub transforms: SyncedBuffer<Transform>,
    /// The material, resolved through the cache (or to its fallback) when
    /// the model is drawn.
    pub material: CacheHandle,
}

impl Model {
    /// Builds a model: packs the geometry once, creates the index and
    /// transform mirrors already synchronized, and records the material.
    pub fn new(
        vertices: Vec<TextureVertex>,
        indices: Vec<u16>,
        material: CacheHandle,
        transforms: Vec<Transform>,
    ) -> (m: Model)
        ensures
            m.vertex_data@ == packed::<TextureVertex>(vertices@),
            m.vertex_count == vertices@.len(),
            m.indices.values@ == indices@,
            m.indices.synced(),
            m.indices.usage == BufferUsage::Index,
            m.transforms.values@ == transforms@,
            m.transforms.synced(),
            m.transforms.usage == BufferUsage::Vertex,
            m.material == material,
    {
        let vertex_count = vertices.len();
        let vertex_data = pack_all(&vertices);
        let indices = SyncedBuffer::new(indices, BufferUsage::Index);
        let transforms = SyncedBuffer::new(transforms, BufferUsage::Vertex);
        Model { vertex_data, vertex_count, indices, transforms, material }
    }
}

} // verus!
