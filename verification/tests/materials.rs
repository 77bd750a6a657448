//! Material loading and the resource cache: resident entries survive
//! demand churn, demand entries fall back once their last owner releases,
//! and resolution never fails.

use rare::cache::{CacheHandle, CacheKind, ResourceCache};
use rare::handle::Handle;
use rare::material::{Material, MaterialError, SamplerKind};

/// A valid 2x2 RGBA PNG: red, green / blue, white.
fn tiny_png() -> Vec<u8> {
    vec![
        137, 80, 78, 71, 13, 10, 26, 10, 0, 0, 0, 13, 73, 72, 68, 82, 0, 0, 0, 2, 0, 0, 0, 2, 8,
        6, 0, 0, 0, 114, 182, 13, 36, 0, 0, 0, 18, 73, 68, 65, 84, 120, 218, 99, 248, 207, 192,
        240, 31, 12, 129, 52, 24, 0, 0, 73, 200, 9, 247, 3, 217, 100, 241, 0, 0, 0, 0, 73, 69,
        78, 68, 174, 66, 96, 130,
    ]
}

fn expected_error_pixels() -> Vec<u8> {
    vec![
        0xff, 0x00, 0xff, 0xff, 0x00, 0x00, 0x00, 0xff, 0x00, 0x00, 0x00, 0xff, 0xff, 0x00, 0xff,
        0xff,
    ]
}

fn sample_material(tag: u8) -> Material {
    match Material::from_bytes(&tiny_png()) {
        Ok(mut m) => {
            // Tag one byte so different registrations are distinguishable.
            m.color.pixels[0] = tag;
            m
        }
        Err(_) => panic!("the embedded test image must decode"),
    }
}

#[test]
fn error_material_is_the_embedded_checkerboard() {
    let m = Material::error();
    assert_eq!(m.color.width, 2);
    assert_eq!(m.color.height, 2);
    assert_eq!(m.color.pixels, expected_error_pixels());
    assert_eq!(m.sampler, SamplerKind::Nearest);
}

#[test]
fn from_bytes_decodes_the_actual_pixels() {
    let png = tiny_png();
    let m = match Material::from_bytes(&png) {
        Ok(m) => m,
        Err(_) => panic!("valid image bytes must decode"),
    };
    assert_eq!(m.color.width, 2);
    assert_eq!(m.color.height, 2);
    assert_eq!(
        m.color.pixels,
        vec![
            255, 0, 0, 255, 0, 255, 0, 255, // red, green
            0, 0, 255, 255, 255, 255, 255, 255, // blue, white
        ]
    );
    assert_eq!(m.sampler, SamplerKind::Linear);
    // The decode really decodes: the output differs from the input bytes.
    assert_ne!(m.color.pixels, png);
}

#[test]
fn from_bytes_rejects_garbage() {
    let garbage = vec![1u8, 2, 3, 4, 5, 6, 7, 8];
    match Material::from_bytes(&garbage) {
        Ok(_) => panic!("garbage must not decode"),
        Err(MaterialError::ImageError(_)) => {}
    }
}

#[test]
fn unregistered_handle_resolves_to_the_fallback() {
    let cache = ResourceCache::new();
    let stray = CacheHandle {
        kind: CacheKind::Resident,
        handle: Handle { index: 4, generation: 2 },
    };
    assert_eq!(cache.resolve(stray).color.pixels, expected_error_pixels());
    let stray_demand = CacheHandle {
        kind: CacheKind::Demand,
        handle: Handle { index: 0, generation: 1 },
    };
    assert_eq!(cache.resolve(stray_demand).color.pixels, expected_error_pixels());
}

#[test]
fn resident_entries_survive_demand_churn() {
    let mut cache = ResourceCache::new();
    let resident = cache.register_resident(sample_material(1));
    for round in 0..5u8 {
        let d1 = cache.register_demand(sample_material(round));
        let d2 = cache.register_demand(sample_material(round + 100));
        assert!(cache.retain_demand(d1));
        assert!(cache.release_demand(d1));
        assert!(cache.release_demand(d1));
        assert!(cache.release_demand(d2));
    }
    let got = cache.resolve(resident);
    assert_eq!(got.color.pixels[0], 1);
    assert_eq!(&got.color.pixels[1..], &sample_material(1).color.pixels[1..]);
}

#[test]
fn demand_entry_falls_back_once_last_owner_releases() {
    let mut cache = ResourceCache::new();
    let d = cache.register_demand(sample_material(7));
    assert_eq!(cache.resolve(d).color.pixels[0], 7);
    // Drop the one registered owner, then resolve: the fallback comes back.
    assert!(cache.release_demand(d));
    assert_eq!(cache.resolve(d).color.pixels, expected_error_pixels());
    // Releasing again reports the entry as gone.
    assert!(!cache.release_demand(d));
}

#[test]
fn demand_entry_lives_while_any_owner_remains() {
    let mut cache = ResourceCache::new();
    let d = cache.register_demand(sample_material(9));
    assert!(cache.retain_demand(d));
    assert_eq!(cache.demand_owners(d), Some(2));
    assert!(cache.release_demand(d));
    assert_eq!(cache.resolve(d).color.pixels[0], 9);
    assert_eq!(cache.demand_owners(d), Some(1));
    assert!(cache.release_demand(d));
    assert_eq!(cache.demand_owners(d), None);
    assert_eq!(cache.resolve(d).color.pixels, expected_error_pixels());
}

#[test]
fn removed_resident_falls_back() {
    let mut cache = ResourceCache::new();
    let r = cache.register_resident(sample_material(3));
    let got = cache.remove_resident(r);
    assert!(got.is_some());
    assert_eq!(cache.resolve(r).color.pixels, expected_error_pixels());
    assert!(cache.remove_resident(r).is_none());
}

#[test]
fn retain_on_missing_or_wrong_registry_does_nothing() {
    let mut cache = ResourceCache::new();
    let r = cache.register_resident(sample_material(5));
    assert!(!cache.retain_demand(r));
    assert!(!cache.release_demand(r));
    let stray = CacheHandle {
        kind: CacheKind::Demand,
        handle: Handle { index: 3, generation: 8 },
    };
    assert!(!cache.retain_demand(stray));
}
