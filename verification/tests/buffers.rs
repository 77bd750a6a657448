//! Synced-buffer behavior: packing is exact and little-endian, host edits
//! never touch the device until `sync`, and growth reallocates once per
//! sync with the whole image rewritten.

use rare::buffer::{BufferUsage, GpuPod, SyncedBuffer, Transform, SCALAR_ONE_BITS};
use rare::light::{Light, LightUniform};
use rare::model::TextureVertex;

fn le4(w: u32) -> [u8; 4] {
    [
        (w & 0xff) as u8,
        ((w >> 8) & 0xff) as u8,
        ((w >> 16) & 0xff) as u8,
        ((w >> 24) & 0xff) as u8,
    ]
}

#[test]
fn index_values_pack_little_endian() {
    let buf: SyncedBuffer<u16> = SyncedBuffer::new(vec![0x1234, 1], BufferUsage::Index);
    assert_eq!(buf.device, vec![0x34, 0x12, 0x01, 0x00]);
    assert_eq!(buf.capacity, 2);
    assert_eq!(buf.usage, BufferUsage::Index);
}

#[test]
fn identity_transform_packs_ones_on_the_diagonal() {
    let t = Transform::identity();
    let bytes = t.pod();
    assert_eq!(bytes.len(), 64);
    let one = le4(SCALAR_ONE_BITS);
    for col in 0..4 {
        for row in 0..4 {
            let at = (col * 4 + row) * 4;
            let expect = if col == row { one } else { [0, 0, 0, 0] };
            assert_eq!(&bytes[at..at + 4], &expect);
        }
    }
}

#[test]
fn host_edits_do_not_touch_the_device_until_sync() {
    let mut buf: SyncedBuffer<u16> = SyncedBuffer::new(vec![7], BufferUsage::Index);
    let before = buf.device.clone();
    buf.values.push(8);
    buf.values[0] = 9;
    assert_eq!(buf.device, before);
    let plan = buf.sync();
    assert_eq!(buf.device, vec![0x09, 0x00, 0x08, 0x00]);
    assert_eq!(plan.upload, buf.device);
}

#[test]
fn many_edits_one_sync_packs_all_values_in_order() {
    let mut buf: SyncedBuffer<u16> = SyncedBuffer::new(Vec::new(), BufferUsage::Index);
    for v in [3u16, 1, 4, 1, 5, 9] {
        buf.values.push(v);
    }
    buf.values[1] = 2;
    buf.sync();
    let mut expect = Vec::new();
    for v in [3u16, 2, 4, 1, 5, 9] {
        expect.extend_from_slice(&[(v & 0xff) as u8, (v >> 8) as u8]);
    }
    assert_eq!(buf.device, expect);
    assert!(buf.capacity >= 6);
}

#[test]
fn growth_reallocates_exactly_once_per_sync() {
    let mut buf: SyncedBuffer<u16> = SyncedBuffer::new(vec![1], BufferUsage::Index);
    assert_eq!(buf.capacity, 1);
    buf.values.push(2);
    buf.values.push(3);
    buf.values.push(4);
    // One sync, one reallocation, even though three elements were added.
    let plan = buf.sync();
    assert_eq!(plan.realloc, Some(4));
    assert_eq!(buf.capacity, 4);
    // The whole image is rewritten after the reallocation.
    assert_eq!(buf.device, vec![1, 0, 2, 0, 3, 0, 4, 0]);
    // A sync within capacity does not reallocate.
    buf.values.push(5);
    buf.values.pop();
    let plan2 = buf.sync();
    assert_eq!(plan2.realloc, None);
    assert_eq!(buf.capacity, 4);
}

#[test]
fn growth_is_amortized_by_doubling() {
    let mut buf: SyncedBuffer<u16> = SyncedBuffer::new(vec![1, 2], BufferUsage::Index);
    buf.values.push(3);
    let plan = buf.sync();
    assert_eq!(plan.realloc, Some(4));
    buf.values.push(4);
    buf.values.push(5);
    let plan2 = buf.sync();
    assert_eq!(plan2.realloc, Some(8));
}

#[test]
fn light_packs_padded_position_then_color() {
    let light = Light { pos: [1, 2, 3], color: [4, 5, 6, 7] };
    let bytes = light.pod();
    let mut expect = Vec::new();
    for w in [1u32, 2, 3, 0, 4, 5, 6, 0] {
        expect.extend_from_slice(&le4(w));
    }
    assert_eq!(bytes, expect);
}

#[test]
fn light_uniform_drops_alpha_and_pads() {
    let light = Light { pos: [10, 11, 12], color: [20, 21, 22, 99] };
    let u = LightUniform::from_light(&light);
    assert_eq!(u.pos, [10, 11, 12, 0]);
    assert_eq!(u.color, [20, 21, 22, 0]);
}

#[test]
fn vertex_packs_position_then_tex_coords() {
    let v = TextureVertex { pos: [1, 2, 3], tex_coords: [4, 5] };
    let bytes = v.pod();
    let mut expect = Vec::new();
    for w in [1u32, 2, 3, 4, 5] {
        expect.extend_from_slice(&le4(w));
    }
    assert_eq!(bytes, expect);
    assert_eq!(bytes.len(), 20);
}
