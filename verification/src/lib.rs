//! A verified core for a small 3D-rendering layer: a stable-handle object
//! store for render objects, a host-mirrored GPU buffer with explicit
//! synchronization, a resident/demand resource cache with a fallback
//! material, and a frame dispatcher that turns the stored scene into an
//! ordered list of draw submissions.
//!
//! The device itself (buffer allocation, uploads, draw submission) is an
//! external collaborator: each frame the dispatcher returns the exact
//! device actions to perform — reallocations, packed uploads, and draw
//! calls — and the surrounding driver carries them out.

pub mod buffer;
pub mod cache;
pub mod camera;
pub mod handle;
pub mod light;
pub mod material;
pub mod model;

use vstd::prelude::*;

use crate::buffer::{
    grown_capacity, packed, BufferUsage, SyncPlan, SyncedBuffer, Transform, identity_words,
    SCALAR_ONE_BITS,
};
use crate::cache::ResourceCache;
use crate::camera::Camera;
use crate::handle::{Handle, HandleArena};
use crate::light::Light;
use crate::material::error_pixels;
use crate::model::{MeshData, Model};

verus! {

/// The bit pattern a device scalar reads as two.
pub const SCALAR_TWO_BITS: u32 = 0x4000_0000;

/// The bit pattern a device scalar reads as three.
pub const SCALAR_THREE_BITS: u32 = 0x4040_0000;

/// The fixed shading variants the render phase selects among. `Color` is
/// reserved and has no pipeline behind it yet; rendering with it selected
/// is a programming error.
#[derive(Clone, Copy, Debug, PartialEq, Eq, Structural)]
pub enum Pipeline {
    Normal,
    Texture,
    Wireframe,
    Color,
}

/// The size-dependent depth attachment. On resize it is recreated, never
/// resized in place: `id` names the current incarnation, and a new
/// incarnation always carries a different `id`.
#[derive(Clone, Copy, Debug, PartialEq, Eq, Structural)]
pub struct DepthAttachment {
    pub width: u32,
    pub height: u32,
    pub id: u64,
}

/// One indexed draw submission: which model's buffers and material to
/// bind, how many indices to draw, and how many instances (one per entry
/// of the model's transform mirror).
#[derive(Clone, Copy, Debug, PartialEq, Eq, Structural)]
pub struct DrawCall {
    pub model: Handle,
    pub material: crate::cache::CacheHandle,
    pub index_count: usize,
    pub instance_count: usize,
}

/// The width of the entries of an index buffer. The library packs indices
/// as 16-bit values, so every plan reads them that way.
#[derive(Clone, Copy, Debug, PartialEq, Eq, Structural)]
pub enum IndexFormat {
    Uint16,
}

/// The fixed binding protocol every draw follows: the numeric vertex
/// slots, the bind-group indices, the index format and how the transform
/// stream advances. One closed set, stated so the driver and the shaders
/// agree on it.
#[derive(Clone, Copy, Debug, PartialEq, Eq, Structural)]
pub struct BindingProtocol {
    /// The slot the model's geometry stream binds at, stepped per vertex.
    pub vertex_buffer_slot: u32,
    /// The slot the instance-transform stream binds at.
    pub transforms_buffer_slot: u32,
    /// How the transform stream advances: once per instance.
    pub transforms_step_mode: crate::model::VertexStepMode,
    /// How the index buffers are read.
    pub index_format: IndexFormat,
    /// The bind group of the material's texture and sampler.
    pub material_bind_group: u32,
    /// The bind group of the camera uniform.
    pub camera_bind_group: u32,
    /// The bind group of the light storage buffer; bound only when the
    /// plan binds lights.
    pub lights_bind_group: u32,
}

/// The binding protocol the render phase fixes for every frame.
pub open spec fn binding_protocol() -> BindingProtocol {
    BindingProtocol {
        vertex_buffer_slot: 0u32,
        transforms_buffer_slot: 1u32,
        transforms_step_mode: crate::model::VertexStepMode::Instance,
        index_format: IndexFormat::Uint16,
        material_bind_group: 0u32,
        camera_bind_group: 1u32,
        lights_bind_group: 2u32,
    }
}

/// The render phase's decisions for one frame: the pipeline to bind,
/// whether the depth attachment and the light buffer are bound, the fixed
/// binding protocol, and the draw submissions in arena order.
pub struct RenderPlan {
    pub pipeline: Pipeline,
    pub uses_depth: bool,
    pub binds_lights: bool,
    pub bindings: BindingProtocol,
    pub draws: Vec<DrawCall>,
}

/// The device writes one update phase decided on: the camera and light
/// buffer actions, and per live model (in arena order) its transform
/// buffer's actions.
pub struct UpdatePlan {
    pub camera: SyncPlan,
    pub lights: SyncPlan,
    pub models: Vec<(Handle, SyncPlan)>,
}

/// The draw a live model contributes, given its slot's handle.
pub open spec fn model_draw(h: Handle, m: Model) -> DrawCall {
    DrawCall {
        model: h,
        material: m.material,
        index_count: m.indices.values@.len() as usize,
        instance_count: m.transforms.values@.len() as usize,
    }
}

/// Whether a model contributes a draw at all: one with no indices or no
/// instances is skipped, not an error.
pub open spec fn model_draws(m: Model) -> bool {
    m.indices.values@.len() > 0 && m.transforms.values@.len() > 0
}

/// The draw calls contributed by the first `n` slots, in slot order.
pub open spec fn draw_seq_prefix(models: HandleArena<Model>, n: int) -> Seq<DrawCall>
    decreases n,
{
    if n <= 0 {
        Seq::empty()
    } else {
        let rest = draw_seq_prefix(models, n - 1);
        match models.slot_val(n - 1) {
            Some(m) => if model_draws(m) {
                rest.push(
                    model_draw(
                        Handle { index: (n - 1) as usize, generation: models.slot_gen(n - 1) },
                        m,
                    ),
                )
            } else {
                rest
            },
            None => rest,
        }
    }
}

/// The frame's draw calls: every live model with indices and instances,
/// in arena slot order.
pub open spec fn draw_seq(models: HandleArena<Model>) -> Seq<DrawCall> {
    draw_seq_prefix(models, models.num_slots() as int)
}

/// The draws that do not belong to the model named by `h`.
pub open spec fn draws_not_of(h: Handle) -> spec_fn(DrawCall) -> bool {
    |d: DrawCall| d.model != h
}

proof fn lemma_remove_excludes_draw_prefix(
    pre: HandleArena<Model>,
    post: HandleArena<Model>,
    h: Handle,
    n: int,
)
    requires
        pre.live(h),
        pre.num_slots() <= usize::MAX,
        post.num_slots() == pre.num_slots(),
        post.slot_val(h.index as int) is None,
        forall|i: int|
            0 <= i < pre.num_slots() && i != h.index ==> #[trigger] post.slot_gen(i)
                == pre.slot_gen(i) && post.slot_val(i) == pre.slot_val(i),
        0 <= n <= pre.num_slots(),
    ensures
        draw_seq_prefix(post, n) == draw_seq_prefix(pre, n).filter(draws_not_of(h)),
    decreases n,
{
    reveal(Seq::filter);
    if n == 0 {
        assert(draw_seq_prefix(pre, 0).filter(draws_not_of(h)) =~= Seq::<DrawCall>::empty());
    } else {
        lemma_remove_excludes_draw_prefix(pre, post, h, n - 1);
        let pf = draw_seq_prefix(pre, n - 1);
        let pd = draw_seq_prefix(post, n - 1);
        match pre.slot_val(n - 1) {
            Some(m) => {
                if model_draws(m) {
                    let d = model_draw(
                        Handle { index: (n - 1) as usize, generation: pre.slot_gen(n - 1) },
                        m,
                    );
                    assert(draw_seq_prefix(pre, n) == pf.push(d));
                    assert(pf.push(d).drop_last() =~= pf);
                    assert(pf.push(d).last() == d);
                    if n - 1 == h.index {
                        assert(d.model == h);
                        assert(!draws_not_of(h)(d));
                        assert(draw_seq_prefix(post, n) == pd);
                    } else {
                        assert(post.slot_val(n - 1) == pre.slot_val(n - 1));
                        assert(d.model.index != h.index);
                        assert(draws_not_of(h)(d));
                        assert(draw_seq_prefix(post, n) == pd.push(d));
                    }
                } else {
                    if n - 1 != h.index {
                        assert(post.slot_val(n - 1) == pre.slot_val(n - 1));
                    }
                    assert(draw_seq_prefix(pre, n) == pf);
                    assert(draw_seq_prefix(post, n) == pd);
                }
            }
            None => {
                assert(n - 1 != h.index);
                assert(post.slot_val(n - 1) == pre.slot_val(n - 1));
                assert(draw_seq_prefix(pre, n) == pf);
                assert(draw_seq_prefix(post, n) == pd);
            }
        }
    }
}

/// Removing a live model from the arena — whatever else is registered and
/// wherever the removal falls in the frame — excludes exactly that model's
/// draw from the draw list the render phase emits, and leaves every other
/// model's draw, and their relative order, untouched. The hypotheses are
/// what [`HandleArena::remove`] ensures of a live handle.
pub proof fn lemma_remove_excludes_draw(
    pre: HandleArena<Model>,
    post: HandleArena<Model>,
    h: Handle,
)
    requires
        pre.live(h),
        pre.num_slots() <= usize::MAX,
        post.num_slots() == pre.num_slots(),
        post.slot_val(h.index as int) is None,
        forall|i: int|
            0 <= i < pre.num_slots() && i != h.index ==> #[trigger] post.slot_gen(i)
                == pre.slot_gen(i) && post.slot_val(i) == pre.slot_val(i),
    ensures
        draw_seq(post) == draw_seq(pre).filter(draws_not_of(h)),
{
    lemma_remove_excludes_draw_prefix(pre, post, h, pre.num_slots() as int);
}

/// Every live model's mirrors are current: its index and transform
/// buffers hold exactly the packed image of their host values. Model
/// construction establishes this, the update phase re-establishes the
/// transform side and leaves index mirrors as it found them, and a host
/// that edits a mirror between frames re-synchronizes it before the next
/// render.
pub open spec fn models_synced(models: HandleArena<Model>) -> bool {
    forall|h: Handle| #[trigger] models.live(h) ==> models.spec_get(h).indices.synced()
        && models.spec_get(h).transforms.synced()
}

/// How a model looks after the update phase: its transform mirror is
/// synchronized (same values, device image rewritten), everything else is
/// untouched.
pub open spec fn transforms_resynced(om: Model, nm: Model) -> bool {
    &&& nm.vertex_data == om.vertex_data
    &&& nm.vertex_count == om.vertex_count
    &&& nm.indices == om.indices
    &&& nm.material == om.material
    &&& nm.transforms.values@ == om.transforms.values@
    &&& nm.transforms.usage == om.transforms.usage
    &&& nm.transforms.synced()
    &&& nm.transforms.device@ == packed::<Transform>(om.transforms.values@)
    &&& om.transforms.values@.len() <= om.transforms.capacity
        ==> nm.transforms.capacity == om.transforms.capacity
    &&& om.transforms.values@.len() > om.transforms.capacity
        ==> nm.transforms.capacity == grown_capacity(
            om.transforms.capacity as int,
            om.transforms.values@.len() as int,
        )
}

proof fn lemma_resynced_draws_prefix(
    pre: HandleArena<Model>,
    post: HandleArena<Model>,
    n: int,
)
    requires
        post.num_slots() == pre.num_slots(),
        forall|i: int|
            0 <= i < pre.num_slots()
                ==> #[trigger] post.slot_gen(i) == pre.slot_gen(i),
        forall|i: int|
            0 <= i < pre.num_slots() ==> match #[trigger] pre.slot_val(i) {
                Some(om) => post.slot_val(i) matches Some(nm) && transforms_resynced(om, nm),
                None => post.slot_val(i) is None,
            },
        0 <= n <= pre.num_slots(),
    ensures
        draw_seq_prefix(post, n) == draw_seq_prefix(pre, n),
    decreases n,
{
    if n > 0 {
        lemma_resynced_draws_prefix(pre, post, n - 1);
    }
}

/// The update phase rewrites device mirrors but leaves every model's
/// index count, instance count and material as they were, so a render
/// after an update emits exactly the draws the state before the update
/// prescribed. The hypotheses are what [`Renderer::update`] ensures of
/// the model store.
pub proof fn lemma_update_preserves_draws(pre: HandleArena<Model>, post: HandleArena<Model>)
    requires
        post.num_slots() == pre.num_slots(),
        forall|i: int|
            0 <= i < pre.num_slots()
                ==> #[trigger] post.slot_gen(i) == pre.slot_gen(i),
        forall|i: int|
            0 <= i < pre.num_slots() ==> match #[trigger] pre.slot_val(i) {
                Some(om) => post.slot_val(i) matches Some(nm) && transforms_resynced(om, nm),
                None => post.slot_val(i) is None,
            },
    ensures
        draw_seq(post) == draw_seq(pre),
{
    lemma_resynced_draws_prefix(pre, post, pre.num_slots() as int);
}

/// The renderer: the model store, the camera and its packed buffer, the
/// light buffer, the selected pipeline, the depth attachment and the
/// material cache.
pub struct Renderer {
    /// The registered render objects.
    pub models: HandleArena<Model>,
    /// Camera parameters; the frame driver recomputes the projection from
    /// them (scalar math outside this core) and stores it with
    /// [`Renderer::set_camera_matrix`].
    pub camera: Camera,
    /// The uniform mirror holding the packed camera matrix.
    pub camera_buffer: SyncedBuffer<Transform>,
    /// The storage mirror holding the scene's lights.
    pub lights: SyncedBuffer<Light>,
    /// The selected shading variant.
    pub pipeline: Pipeline,
    /// The depth attachment, recreated on resize.
    pub depth_texture: DepthAttachment,
    /// The material cache with its fallback.
    pub materials: ResourceCache,
}

impl Renderer {
    /// Structural invariant: the model store and the material cache are
    /// well formed.
    pub open spec fn wf(self) -> bool {
        &&& self.models.wf()
        &&& self.materials.wf()
    }

    /// A fresh renderer for a surface of the given size: no models, the
    /// default camera with an identity matrix uploaded, one white-ish
    /// default light uploaded, the shaded pipeline selected, a depth
    /// attachment of the surface's size, and an empty material cache whose
    /// fallback is the error material.
    pub fn new(width: u32, height: u32) -> (r: Renderer)
        ensures
            r.wf(),
            r.models.num_slots() == 0,
            r.camera.pos@ == seq![0u32, 0u32, 0u32],
            r.camera.ty matches crate::camera::CameraType::LookTo(d)
                && d@ == seq![0u32, 0u32, crate::camera::SCALAR_NEG_ONE_BITS],
            r.camera.fov == 0,
            r.camera.aspect == 0,
            r.camera_buffer.values@.len() == 1,
            r.camera_buffer.values@[0].matrix@ == identity_words(),
            r.camera_buffer.synced(),
            r.camera_buffer.usage == BufferUsage::Uniform,
            r.lights.values@.len() == 1,
            r.lights.values@[0].pos@ == seq![SCALAR_THREE_BITS, 0u32, SCALAR_TWO_BITS],
            r.lights.values@[0].color@ == seq![SCALAR_ONE_BITS, 0u32, 0u32, SCALAR_ONE_BITS],
            r.lights.synced(),
            r.lights.usage == BufferUsage::Storage,
            r.pipeline is Normal,
            r.depth_texture == (DepthAttachment { width, height, id: 0u64 }),
            r.materials.fallback.color.pixels@ == error_pixels(),
            forall|ch: crate::cache::CacheHandle|
                r.materials.spec_resolve(ch) == r.materials.fallback,
            draw_seq(r.models) == Seq::<DrawCall>::empty(),
            models_synced(r.models),
    {
        let mut cam_values: Vec<Transform> = Vec::new();
        cam_values.push(Transform::identity());
        let camera_buffer = SyncedBuffer::new(cam_values, BufferUsage::Uniform);

        let light = Light {
            pos: [SCALAR_THREE_BITS, 0, SCALAR_TWO_BITS],
            color: [SCALAR_ONE_BITS, 0, 0, SCALAR_ONE_BITS],
        };
        proof {
            assert(light.pos@ =~= seq![SCALAR_THREE_BITS, 0u32, SCALAR_TWO_BITS]);
            assert(light.color@ =~= seq![SCALAR_ONE_BITS, 0u32, 0u32, SCALAR_ONE_BITS]);
        }
        let mut light_values: Vec<Light> = Vec::new();
        light_values.push(light);
        let lights = SyncedBuffer::new(light_values, BufferUsage::Storage);

        Renderer {
            models: HandleArena::new(),
            camera: Camera::default(),
            camera_buffer,
            lights,
            pipeline: Pipeline::Normal,
            depth_texture: DepthAttachment { width, height, id: 0 },
            materials: ResourceCache::new(),
        }
    }

    /// Stores a freshly computed packed camera matrix; it reaches the
    /// device at the next update.
    pub fn set_camera_matrix(&mut self, m: Transform)
        requires
            old(self).camera_buffer.values@.len() == 1,
        ensures
            final(self).camera_buffer.values@ == seq![m],
            final(self).camera_buffer.capacity == old(self).camera_buffer.capacity,
            final(self).camera_buffer.device@ == old(self).camera_buffer.device@,
            final(self).camera_buffer.usage == old(self).camera_buffer.usage,
            final(self).models == old(self).models,
            final(self).camera == old(self).camera,
            final(self).lights == old(self).lights,
            final(self).pipeline == old(self).pipeline,
            final(self).depth_texture == old(self).depth_texture,
            final(self).materials == old(self).materials,
    {
        self.camera_buffer.values[0] = m;
        proof {
            assert(self.camera_buffer.values@ =~= seq![m]);
        }
    }

    /// The update phase: synchronizes the camera buffer, the light buffer
    /// and every live model's transform buffer, and returns the device
    /// actions, the per-model ones keyed by handle in arena order.
    #[verifier::loop_isolation(false)]
    pub fn update(&mut self) -> (plan: UpdatePlan)
        requires
            old(self).wf(),
        ensures
            final(self).wf(),
            final(self).camera == old(self).camera,
            final(self).pipeline == old(self).pipeline,
            final(self).depth_texture == old(self).depth_texture,
            final(self).materials == old(self).materials,
            final(self).camera_buffer.synced(),
            final(self).camera_buffer.values@ == old(self).camera_buffer.values@,
            final(self).camera_buffer.usage == old(self).camera_buffer.usage,
            plan.camera.upload@ == final(self).camera_buffer.device@,
            old(self).camera_buffer.values@.len() <= old(self).camera_buffer.capacity
                ==> plan.camera.realloc is None
                    && final(self).camera_buffer.capacity == old(self).camera_buffer.capacity,
            old(self).camera_buffer.values@.len() > old(self).camera_buffer.capacity
                ==> plan.camera.realloc == Some(final(self).camera_buffer.capacity)
                    && final(self).camera_buffer.capacity == grown_capacity(
                        old(self).camera_buffer.capacity as int,
                        old(self).camera_buffer.values@.len() as int,
                    ),
            final(self).lights.synced(),
            final(self).lights.values@ == old(self).lights.values@,
            final(self).lights.usage == old(self).lights.usage,
            plan.lights.upload@ == final(self).lights.device@,
            old(self).lights.values@.len() <= old(self).lights.capacity
                ==> plan.lights.realloc is None
                    && final(self).lights.capacity == old(self).lights.capacity,
            old(self).lights.values@.len() > old(self).lights.capacity
                ==> plan.lights.realloc == Some(final(self).lights.capacity)
                    && final(self).lights.capacity == grown_capacity(
                        old(self).lights.capacity as int,
                        old(self).lights.values@.len() as int,
                    ),
            final(self).models.num_slots() == old(self).models.num_slots(),
            forall|i: int|
                0 <= i < old(self).models.num_slots()
                    ==> final(self).models.slot_gen(i) == old(self).models.slot_gen(i),
            forall|i: int|
                0 <= i < old(self).models.num_slots()
                    ==> match #[trigger] old(self).models.slot_val(i) {
                    Some(om) => final(self).models.slot_val(i) matches Some(nm)
                        && transforms_resynced(om, nm),
                    None => final(self).models.slot_val(i) is None,
                },
            final(self).models.free == old(self).models.free,
            models_synced(old(self).models) ==> models_synced(final(self).models),
            plan.models@.len() == old(self).models.live_handles().len(),
            forall|j: int|
                0 <= j < plan.models@.len() ==> {
                    let h = old(self).models.live_handles()[j];
                    let t = old(self).models.spec_get(h).transforms;
                    &&& (#[trigger] plan.models@[j]).0 == h
                    &&& plan.models@[j].1.upload@ == packed::<Transform>(t.values@)
                    &&& (t.values@.len() <= t.capacity ==> plan.models@[j].1.realloc is None)
                    &&& (t.values@.len() > t.capacity ==> (plan.models@[j].1.realloc
                        matches Some(c)
                            && c == grown_capacity(t.capacity as int, t.values@.len() as int)))
                },
    {
        let camera_plan = self.camera_buffer.sync();
        let lights_plan = self.lights.sync();
        let ghost orig = self.models;
        let ghost snap = *self;
        let mut model_plans: Vec<(Handle, SyncPlan)> = Vec::new();
        let n = self.models.slots.len();
        for i in 0..n
            invariant
                self.camera == snap.camera,
                self.camera_buffer == snap.camera_buffer,
                self.lights == snap.lights,
                self.pipeline == snap.pipeline,
                self.depth_texture == snap.depth_texture,
                self.materials == snap.materials,
                n == orig.num_slots(),
                self.models.slots@.len() == n,
                self.models.free == orig.free,
                self.models.wf(),
                orig.wf(),
                forall|k: int| 0 <= k < n ==> self.models.slot_gen(k) == orig.slot_gen(k),
                forall|k: int|
                    i <= k < n ==> self.models.slot_val(k) == orig.slot_val(k),
                forall|k: int|
                    0 <= k < i ==> match #[trigger] orig.slot_val(k) {
                        Some(om) => self.models.slot_val(k) matches Some(nm)
                            && transforms_resynced(om, nm),
                        None => self.models.slot_val(k) is None,
                    },
                model_plans@.len() == orig.live_handles_prefix(i as int).len(),
                forall|j: int|
                    0 <= j < model_plans@.len() ==> {
                        let h = orig.live_handles_prefix(i as int)[j];
                        let t = orig.spec_get(h).transforms;
                        &&& (#[trigger] model_plans@[j]).0 == h
                        &&& model_plans@[j].1.upload@ == packed::<Transform>(t.values@)
                        &&& (t.values@.len() <= t.capacity
                            ==> model_plans@[j].1.realloc is None)
                        &&& (t.values@.len() > t.capacity ==> (model_plans@[j].1.realloc
                            matches Some(c)
                                && c == grown_capacity(t.capacity as int, t.values@.len() as int)))
                    },
        {
            let gen = self.models.slots[i].generation;
            match &mut self.models.slots[i].value {
                Some(m) => {
                    let p = m.transforms.sync();
                    model_plans.push((Handle { index: i, generation: gen }, p));
                }
                None => {}
            }
            proof {
                assert(orig.live_handles_prefix(i + 1) == if orig.slot_val(i as int) is Some {
                    orig.live_handles_prefix(i as int).push(
                        Handle { index: i, generation: orig.slot_gen(i as int) },
                    )
                } else {
                    orig.live_handles_prefix(i as int)
                });
            }
        }
        proof {
            assert(orig.live_handles_prefix(n as int) == orig.live_handles());
            if models_synced(orig) {
                assert forall|h: Handle| #[trigger] self.models.live(h)
                    implies self.models.spec_get(h).indices.synced()
                        && self.models.spec_get(h).transforms.synced() by {
                    assert(self.models.slot_val(h.index as int) is Some);
                    assert(orig.slot_val(h.index as int) is Some);
                    assert(self.models.slot_gen(h.index as int)
                        == orig.slot_gen(h.index as int));
                    assert(orig.live(h));
                    let om = orig.spec_get(h);
                    let nm = self.models.spec_get(h);
                    assert(transforms_resynced(om, nm));
                    assert(om.indices.synced());
                }
            }
        }
        UpdatePlan { camera: camera_plan, lights: lights_plan, models: model_plans }
    }

    /// The render phase: binds the selected pipeline (the depth attachment
    /// for every variant but wireframe, the light buffer for the shaded
    /// variant) and emits one indexed draw per live model in arena order,
    /// instanced once per transform; models with no indices or no
    /// transforms contribute nothing. The update phase precedes the render
    /// phase, so every live model's mirrors must be current when the draw
    /// list is cut: each draw's counts then name exactly what the device
    /// buffers hold. A reserved pipeline selector is a programming error,
    /// ruled out up front.
    pub fn render(&self) -> (plan: RenderPlan)
        requires
            !(self.pipeline is Color),
            models_synced(self.models),
        ensures
            plan.pipeline == self.pipeline,
            plan.uses_depth == !(self.pipeline is Wireframe),
            plan.binds_lights == (self.pipeline is Normal),
            plan.bindings == binding_protocol(),
            plan.draws@ == draw_seq(self.models),
    {
        let uses_depth = match self.pipeline {
            Pipeline::Wireframe => false,
            _ => true,
        };
        let binds_lights = match self.pipeline {
            Pipeline::Normal => true,
            _ => false,
        };
        let mut draws: Vec<DrawCall> = Vec::new();
        let n = self.models.slots.len();
        for i in 0..n
            invariant
                n == self.models.num_slots(),
                draws@ == draw_seq_prefix(self.models, i as int),
        {
            let gen = self.models.slots[i].generation;
            match &self.models.slots[i].value {
                Some(m) => {
                    let index_count = m.indices.values.len();
                    let instance_count = m.transforms.values.len();
                    if index_count > 0 && instance_count > 0 {
                        draws.push(DrawCall {
                            model: Handle { index: i, generation: gen },
                            material: m.material,
                            index_count,
                            instance_count,
                        });
                    }
                }
                None => {}
            }
        }
        let bindings = BindingProtocol {
            vertex_buffer_slot: 0,
            transforms_buffer_slot: 1,
            transforms_step_mode: crate::model::VertexStepMode::Instance,
            index_format: IndexFormat::Uint16,
            material_bind_group: 0,
            camera_bind_group: 1,
            lights_bind_group: 2,
        };
        RenderPlan { pipeline: self.pipeline, uses_depth, binds_lights, bindings, draws }
    }

    /// Reacts to a surface resize: the depth attachment is recreated at
    /// the new size — a fresh incarnation, never a resize in place.
    pub fn resize(&mut self, width: u32, height: u32)
        ensures
            final(self).depth_texture.width == width,
            final(self).depth_texture.height == height,
            final(self).depth_texture.id != old(self).depth_texture.id,
            final(self).models == old(self).models,
            final(self).camera == old(self).camera,
            final(self).camera_buffer == old(self).camera_buffer,
            final(self).lights == old(self).lights,
            final(self).pipeline == old(self).pipeline,
            final(self).materials == old(self).materials,
    {
        let id: u64 = if self.depth_texture.id == u64::MAX {
            0
        } else {
            self.depth_texture.id + 1
        };
        self.depth_texture = DepthAttachment { width, height, id };
    }

    /// Registers the models of an imported scene: one model per mesh, in
    /// input order, each with the given material and a single identity
    /// instance transform. Returns the issued handles in mesh order;
    /// previously registered models are untouched.
    pub fn load_gltf(&mut self, meshes: Vec<MeshData>, material: crate::cache::CacheHandle)
        -> (hs: Vec<Handle>)
        requires
            old(self).wf(),
        ensures
            final(self).wf(),
            hs@.len() == meshes@.len(),
            forall|j1: int, j2: int|
                0 <= j1 < j2 < hs@.len() ==> #[trigger] hs@[j1] != #[trigger] hs@[j2],
            forall|j: int|
                0 <= j < hs@.len()
                    ==> !old(self).models.live(#[trigger] hs@[j])
                        && !old(self).models.dead(hs@[j]),
            forall|j: int|
                0 <= j < hs@.len() ==> {
                    let m = final(self).models.spec_get(#[trigger] hs@[j]);
                    &&& final(self).models.live(hs@[j])
                    &&& m.vertex_data@ == packed::<crate::model::TextureVertex>(
                        meshes@[j].vertices@,
                    )
                    &&& m.indices.values@ == meshes@[j].indices@
                    &&& m.indices.synced()
                    &&& m.material == material
                    &&& m.transforms.values@.len() == 1
                    &&& m.transforms.values@[0].matrix@ == identity_words()
                    &&& m.transforms.synced()
                },
            forall|g: Handle|
                old(self).models.live(g) ==> #[trigger] final(self).models.live(g)
                    && final(self).models.spec_get(g) == old(self).models.spec_get(g),
            forall|g: Handle| old(self).models.dead(g) ==> #[trigger] final(self).models.dead(g),
            models_synced(old(self).models) ==> models_synced(final(self).models),
            final(self).camera == old(self).camera,
            final(self).camera_buffer == old(self).camera_buffer,
            final(self).lights == old(self).lights,
            final(self).pipeline == old(self).pipeline,
            final(self).depth_texture == old(self).depth_texture,
            final(self).materials == old(self).materials,
    {
        let ghost mesh_seq = meshes@;
        let mut rest = meshes;
        let mut built: Vec<Model> = Vec::new();
        while rest.len() > 0
            invariant
                built@.len() + rest@.len() == mesh_seq.len(),
                rest@ == mesh_seq.subrange(built@.len() as int, mesh_seq.len() as int),
                forall|j: int|
                    0 <= j < built@.len() ==> {
                        let m = #[trigger] built@[j];
                        &&& m.vertex_data@ == packed::<crate::model::TextureVertex>(
                            mesh_seq[j].vertices@,
                        )
                        &&& m.indices.values@ == mesh_seq[j].indices@
                        &&& m.indices.synced()
                        &&& m.material == material
                        &&& m.transforms.values@.len() == 1
                        &&& m.transforms.values@[0].matrix@ == identity_words()
                        &&& m.transforms.synced()
                    },
            decreases rest@.len(),
        {
            let mesh = rest.remove(0);
            let mut transforms: Vec<Transform> = Vec::new();
            transforms.push(Transform::default());
            built.push(Model::new(mesh.vertices, mesh.indices, material, transforms));
        }
        let ghost built_seq = built@;
        let hs = self.models.append(built);
        proof {
            if models_synced(old(self).models) {
                assert forall|h: Handle| #[trigger] self.models.live(h)
                    implies self.models.spec_get(h).indices.synced()
                        && self.models.spec_get(h).transforms.synced() by {
                    if old(self).models.live(h) {
                        assert(self.models.spec_get(h) == old(self).models.spec_get(h));
                    } else {
                        assert(hs@.contains(h));
                        let j = choose|j: int| 0 <= j < hs@.len() && hs@[j] == h;
                        assert(self.models.spec_get(hs@[j]) == built_seq[j]);
                        assert(built_seq[j].indices.synced());
                        assert(built_seq[j].transforms.synced());
                    }
                }
            }
        }
        hs
    }

    /// Builder form of [`Renderer::load_gltf`]: registers the scene's
    /// models and hands the renderer back.
    pub fn with_gltf(self, meshes: Vec<MeshData>, material: crate::cache::CacheHandle)
        -> (r: Renderer)
        requires
            self.wf(),
        ensures
            r.wf(),
            exists|hs: Seq<Handle>|
                {
                    &&& #[trigger] hs.len() == meshes@.len()
                    &&& forall|j1: int, j2: int|
                        0 <= j1 < j2 < hs.len() ==> #[trigger] hs[j1] != #[trigger] hs[j2]
                    &&& forall|j: int|
                        0 <= j < hs.len()
                            ==> !self.models.live(#[trigger] hs[j]) && !self.models.dead(hs[j])
                    &&& forall|j: int|
                        0 <= j < hs.len() ==> {
                            let m = r.models.spec_get(#[trigger] hs[j]);
                            &&& r.models.live(hs[j])
                            &&& m.vertex_data@ == packed::<crate::model::TextureVertex>(
                                meshes@[j].vertices@,
                            )
                            &&& m.indices.values@ == meshes@[j].indices@
                            &&& m.indices.synced()
                            &&& m.material == material
                            &&& m.transforms.values@.len() == 1
                            &&& m.transforms.values@[0].matrix@ == identity_words()
                            &&& m.transforms.synced()
                        }
                },
            forall|g: Handle|
                self.models.live(g) ==> #[trigger] r.models.live(g)
                    && r.models.spec_get(g) == self.models.spec_get(g),
            forall|g: Handle| self.models.dead(g) ==> #[trigger] r.models.dead(g),
            models_synced(self.models) ==> models_synced(r.models),
            r.camera == self.camera,
            r.camera_buffer == self.camera_buffer,
            r.lights == self.lights,
            r.pipeline == self.pipeline,
            r.depth_texture == self.depth_texture,
            r.materials == self.materials,
    {
        let mut r = self;
        let hs = r.load_gltf(meshes, material);
        proof {
            assert(hs@.len() == meshes@.len());
        }
        r
    }
}

} // verus!
