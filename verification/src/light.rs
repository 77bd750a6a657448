//! Point lights and their packed device form. A light's components are held
//! as the 32-bit patterns of the scalars the device reads, so the packing
//! into the storage buffer is a pure, fully specified word shuffle.

use vstd::prelude::*;

use crate::buffer::{words_le, GpuPod, lemma_words_le_len, pack_words_le};

verus! {

/// A point light: position and color (with alpha), each component held as
/// the 32-bit pattern of the scalar the device reads.
#[derive(Clone, Copy, Debug, PartialEq, Eq)]
pub struct Light {
    pub pos: [u32; 3],
    pub color: [u32; 4],
}

/// The packed device form of a light: the position padded to four words,
/// then the color's three components padded to four words (alpha dropped).
#[derive(Clone, Copy, Debug, PartialEq, Eq)]
pub struct LightUniform {
    pub pos: [u32; 4],
    pub color: [u32; 4],
}

/// The eight words a light uploads as: position plus a zero pad word, then
/// the color's first three components plus a zero pad word.
pub open spec fn light_words(l: Light) -> Seq<u32> {
    seq![
        l.pos@[0], l.pos@[1], l.pos@[2], 0u32,
        l.color@[0], l.color@[1], l.color@[2], 0u32,
    ]
}

impl LightUniform {
    /// The layout of the light bind group: the packed lights as a
    /// read-only storage buffer at binding 0, for the fragment stage only.
    pub fn bind_group_layout() -> (l: Vec<crate::buffer::BindGroupLayoutEntry>)
        ensures
            l@.len() == 1,
            l@[0] == (crate::buffer::BindGroupLayoutEntry {
                binding: 0u32,
                fragment_only: true,
                ty: crate::buffer::BindingType::StorageBufferReadOnly,
            }),
    {
        let mut l: Vec<crate::buffer::BindGroupLayoutEntry> = Vec::new();
        l.push(crate::buffer::BindGroupLayoutEntry {
            binding: 0,
            fragment_only: true,
            ty: crate::buffer::BindingType::StorageBufferReadOnly,
        });
        l
    }

    /// Packs a light: pads the position with a zero word and keeps the
    /// color's first three components, padded with a zero word.
    pub fn from_light(l: &Light) -> (r: LightUniform)
        ensures
            r.pos@ == seq![l.pos@[0], l.pos@[1], l.pos@[2], 0u32],
            r.color@ == seq![l.color@[0], l.color@[1], l.color@[2], 0u32],
            r.pos@ + r.color@ == light_words(*l),
    {
        let r = LightUniform {
            pos: [l.pos[0], l.pos[1], l.pos[2], 0],
            color: [l.color[0], l.color[1], l.color[2], 0],
        };
        proof {
            assert(r.pos@ =~= seq![l.pos@[0], l.pos@[1], l.pos@[2], 0u32]);
            assert(r.color@ =~= seq![l.color@[0], l.color@[1], l.color@[2], 0u32]);
            assert(r.pos@ + r.color@ =~= light_words(*l));
        }
        r
    }
}

impl GpuPod for Light {
    open spec fn pod_bytes(&self) -> Seq<u8> {
        words_le(light_words(*self))
    }

    open spec fn pod_size() -> nat {
        32
    }

    proof fn pod_size_agrees(&self) {
        lemma_words_le_len(light_words(*self));
    }

    fn pod(&self) -> (r: Vec<u8>) {
        let u = LightUniform::from_light(self);
        let mut ws: Vec<u32> = Vec::new();
        ws.push(u.pos[0]);
        ws.push(u.pos[1]);
        ws.push(u.pos[2]);
        ws.push(u.pos[3]);
        ws.push(u.color[0]);
        ws.push(u.color[1]);
        ws.push(u.color[2]);
        ws.push(u.color[3]);
        proof {
            assert(ws@ =~= light_words(*self));
        }
        pack_words_le(&ws)
    }
}

} // verus!
