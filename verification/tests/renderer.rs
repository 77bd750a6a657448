//! Frame dispatch: the update phase synchronizes every mirror, the render
//! phase emits one instanced draw per live model in arena order, skipping
//! empty ones, and removal mid-frame excludes exactly the removed model.

use rare::buffer::{BindingType, BufferUsage, GpuPod, Transform, SCALAR_ONE_BITS};
use rare::model::{MeshData, Model, TextureVertex, VertexFormat, VertexStepMode};
use rare::{IndexFormat, Pipeline, Renderer};

fn mat(cache: &mut rare::cache::ResourceCache) -> rare::cache::CacheHandle {
    cache.register_resident(rare::material::Material::error())
}

fn simple_model(material: rare::cache::CacheHandle, instances: usize) -> Model {
    let vertices = vec![
        TextureVertex { pos: [0, 0, 0], tex_coords: [0, 0] },
        TextureVertex { pos: [1, 0, 0], tex_coords: [1, 0] },
        TextureVertex { pos: [0, 1, 0], tex_coords: [0, 1] },
    ];
    let indices: Vec<u16> = vec![0, 1, 2];
    let transforms = vec![Transform::identity(); instances];
    Model::new(vertices, indices, material, transforms)
}

#[test]
fn new_renderer_defaults() {
    let r = Renderer::new(640, 480);
    assert_eq!(r.pipeline, Pipeline::Normal);
    assert_eq!(r.depth_texture.width, 640);
    assert_eq!(r.depth_texture.height, 480);
    assert_eq!(r.camera_buffer.values.len(), 1);
    assert_eq!(r.camera_buffer.usage, BufferUsage::Uniform);
    assert_eq!(r.lights.values.len(), 1);
    assert_eq!(r.lights.usage, BufferUsage::Storage);
    assert_eq!(r.camera.fov, 0);
    assert!(r.render().draws.is_empty());
}

#[test]
fn draws_skip_models_without_instances_and_count_the_rest() {
    let mut r = Renderer::new(100, 100);
    let m = mat(&mut r.materials);
    let a = r.models.insert(simple_model(m, 1));
    let b = r.models.insert(simple_model(m, 0));
    let c = r.models.insert(simple_model(m, 2));
    r.update();
    let plan = r.render();
    // Three models with instance counts {1, 0, 2}: two draws in arena
    // order, each instanced per its transform count.
    assert_eq!(plan.draws.len(), 2);
    assert_eq!(plan.draws[0].model, a);
    assert_eq!(plan.draws[0].instance_count, 1);
    assert_eq!(plan.draws[0].index_count, 3);
    assert_eq!(plan.draws[1].model, c);
    assert_eq!(plan.draws[1].instance_count, 2);
    let _ = b;
}

#[test]
fn removing_a_model_mid_frame_excludes_only_its_draw() {
    let mut r = Renderer::new(100, 100);
    let m = mat(&mut r.materials);
    let a = r.models.insert(simple_model(m, 1));
    let b = r.models.insert(simple_model(m, 1));
    let c = r.models.insert(simple_model(m, 1));
    r.update();
    let before = r.render();
    assert_eq!(before.draws.len(), 3);
    // Mid-frame removal: the later render no longer lists the removed
    // model, and the others keep their order.
    assert!(r.models.remove(b).is_some());
    let after = r.render();
    assert_eq!(after.draws.len(), 2);
    assert_eq!(after.draws[0].model, a);
    assert_eq!(after.draws[1].model, c);
}

#[test]
fn update_uploads_every_transform_mirror() {
    let mut r = Renderer::new(100, 100);
    let m = mat(&mut r.materials);
    let a = r.models.insert(simple_model(m, 1));
    let plan = r.update();
    assert_eq!(plan.models.len(), 1);
    assert_eq!(plan.models[0].0, a);
    assert_eq!(plan.models[0].1.upload, Transform::identity().pod());
    assert_eq!(plan.camera.upload, Transform::identity().pod());
    // Mutate an instance transform; nothing reaches the device until the
    // next update.
    let device_before = match r.models.get(a) {
        Some(model) => model.transforms.device.clone(),
        None => panic!("the model is live"),
    };
    let mut bent = Transform::identity();
    bent.matrix[12] = SCALAR_ONE_BITS;
    r.models.get_mut(a).transforms.values[0] = bent;
    match r.models.get(a) {
        Some(model) => assert_eq!(model.transforms.device, device_before),
        None => panic!("the model is live"),
    }
    let plan2 = r.update();
    assert_eq!(plan2.models[0].1.upload, bent.pod());
    match r.models.get(a) {
        Some(model) => assert_eq!(model.transforms.device, bent.pod()),
        None => panic!("the model is live"),
    }
}

#[test]
fn camera_matrix_reaches_the_device_at_update() {
    let mut r = Renderer::new(100, 100);
    let mut m = Transform::identity();
    m.matrix[0] = 0x4000_0000;
    r.set_camera_matrix(m);
    let plan = r.update();
    assert_eq!(plan.camera.upload, m.pod());
    assert_eq!(r.camera_buffer.device, m.pod());
}

#[test]
fn pipeline_selection_drives_depth_and_lights() {
    let mut r = Renderer::new(100, 100);
    assert_eq!(r.pipeline, Pipeline::Normal);
    let normal = r.render();
    assert!(normal.uses_depth);
    assert!(normal.binds_lights);
    r.pipeline = Pipeline::Texture;
    let texture = r.render();
    assert!(texture.uses_depth);
    assert!(!texture.binds_lights);
    r.pipeline = Pipeline::Wireframe;
    let wire = r.render();
    assert!(!wire.uses_depth);
    assert!(!wire.binds_lights);
}

#[test]
fn resize_recreates_the_depth_attachment() {
    let mut r = Renderer::new(100, 100);
    let old_id = r.depth_texture.id;
    r.resize(300, 200);
    assert_eq!(r.depth_texture.width, 300);
    assert_eq!(r.depth_texture.height, 200);
    assert_ne!(r.depth_texture.id, old_id);
    let second = r.depth_texture.id;
    r.resize(300, 200);
    assert_ne!(r.depth_texture.id, second);
}

#[test]
fn load_gltf_registers_one_model_per_mesh() {
    let mut r = Renderer::new(100, 100);
    let m = mat(&mut r.materials);
    let meshes = vec![
        MeshData {
            vertices: vec![TextureVertex { pos: [0, 0, 0], tex_coords: [0, 0] }],
            indices: vec![0],
        },
        MeshData {
            vertices: vec![
                TextureVertex { pos: [1, 1, 1], tex_coords: [1, 1] },
                TextureVertex { pos: [2, 2, 2], tex_coords: [0, 1] },
            ],
            indices: vec![0, 1],
        },
    ];
    let hs = r.load_gltf(meshes, m);
    assert_eq!(hs.len(), 2);
    assert_ne!(hs[0], hs[1]);
    match r.models.get(hs[1]) {
        Some(model) => {
            assert_eq!(model.vertex_count, 2);
            assert_eq!(model.indices.values, vec![0, 1]);
            assert_eq!(model.transforms.values.len(), 1);
            assert_eq!(model.transforms.values[0], Transform::identity());
            assert_eq!(model.material, m);
        }
        None => panic!("loaded models are live"),
    }
    let plan = r.render();
    assert_eq!(plan.draws.len(), 2);
}

#[test]
fn with_gltf_is_the_builder_form() {
    let mut r = Renderer::new(100, 100);
    let m = mat(&mut r.materials);
    let meshes = vec![MeshData {
        vertices: vec![TextureVertex { pos: [0, 0, 0], tex_coords: [0, 0] }],
        indices: vec![0],
    }];
    let r = r.with_gltf(meshes, m);
    assert_eq!(r.render().draws.len(), 1);
}

#[test]
fn update_twice_changes_nothing_and_reallocates_nothing() {
    let mut r = Renderer::new(100, 100);
    let m = mat(&mut r.materials);
    let a = r.models.insert(simple_model(m, 2));
    r.update();
    let cam_device = r.camera_buffer.device.clone();
    let lights_device = r.lights.device.clone();
    let model_device = match r.models.get(a) {
        Some(model) => model.transforms.device.clone(),
        None => panic!("the model is live"),
    };
    // Nothing was edited since the first update: the second one uploads
    // the same images and reallocates no buffer.
    let plan = r.update();
    assert_eq!(plan.camera.realloc, None);
    assert_eq!(plan.lights.realloc, None);
    assert_eq!(plan.models.len(), 1);
    assert_eq!(plan.models[0].1.realloc, None);
    assert_eq!(r.camera_buffer.device, cam_device);
    assert_eq!(r.lights.device, lights_device);
    match r.models.get(a) {
        Some(model) => assert_eq!(model.transforms.device, model_device),
        None => panic!("the model is live"),
    }
}

#[test]
fn update_reports_a_transform_reallocation() {
    let mut r = Renderer::new(100, 100);
    let m = mat(&mut r.materials);
    let a = r.models.insert(simple_model(m, 1));
    r.models.get_mut(a).transforms.values.push(Transform::identity());
    r.models.get_mut(a).transforms.values.push(Transform::identity());
    // Capacity was 1 and three instances now exist: one reallocation,
    // to the doubled-then-covering capacity.
    let plan = r.update();
    assert_eq!(plan.models[0].1.realloc, Some(3));
    let plan2 = r.update();
    assert_eq!(plan2.models[0].1.realloc, None);
}

#[test]
fn render_plan_carries_the_fixed_binding_protocol() {
    let r = Renderer::new(100, 100);
    let b = r.render().bindings;
    assert_eq!(b.vertex_buffer_slot, 0);
    assert_eq!(b.transforms_buffer_slot, 1);
    assert_eq!(b.transforms_step_mode, VertexStepMode::Instance);
    assert_eq!(b.index_format, IndexFormat::Uint16);
    assert_eq!(b.material_bind_group, 0);
    assert_eq!(b.camera_bind_group, 1);
    assert_eq!(b.lights_bind_group, 2);
}

#[test]
fn material_bind_group_layout_entries() {
    let l = rare::material::Material::bind_group_layout();
    assert_eq!(l.len(), 2);
    assert_eq!(l[0].binding, 0);
    assert!(l[0].fragment_only);
    assert_eq!(l[0].ty, BindingType::Texture2D);
    assert_eq!(l[1].binding, 1);
    assert!(l[1].fragment_only);
    assert_eq!(l[1].ty, BindingType::FilteringSampler);
}

#[test]
fn light_bind_group_layout_entry() {
    let l = rare::light::LightUniform::bind_group_layout();
    assert_eq!(l.len(), 1);
    assert_eq!(l[0].binding, 0);
    assert!(l[0].fragment_only);
    assert_eq!(l[0].ty, BindingType::StorageBufferReadOnly);
}

#[test]
fn vertex_layout_matches_the_packed_stream() {
    let l = TextureVertex::desc();
    assert_eq!(l.array_stride, 20);
    assert_eq!(l.step_mode, VertexStepMode::Vertex);
    assert_eq!(l.attributes.len(), 2);
    assert_eq!(l.attributes[0].format, VertexFormat::Float32x3);
    assert_eq!(l.attributes[0].offset, 0);
    assert_eq!(l.attributes[0].shader_location, 0);
    assert_eq!(l.attributes[1].format, VertexFormat::Float32x2);
    assert_eq!(l.attributes[1].offset, 12);
    assert_eq!(l.attributes[1].shader_location, 1);
}
