//! Materials: an RGBA8 color texture, the always-available error material,
//! and loading a material from encoded image bytes.

use vstd::prelude::*;

verus! {

/// A CPU-side texture: an RGBA8 pixel grid, four bytes per pixel, row by
/// row. This is the data the device-side texture is created from.
#[derive(Debug)]
pub struct Texture {
    pub width: u32,
    pub height: u32,
    pub pixels: Vec<u8>,
}

impl Texture {
    /// The pixel data covers the grid exactly: four bytes per pixel.
    pub open spec fn wf(self) -> bool {
        self.pixels@.len() == 4 * self.width * self.height
    }
}

/// How a material's texture is sampled when it is bound.
#[derive(Clone, Copy, Debug, PartialEq, Eq, Structural)]
pub enum SamplerKind {
    Nearest,
    Linear,
}

/// A material: the color texture bound for the draws that use it, and the
/// sampler kind to bind beside it.
#[derive(Debug)]
pub struct Material {
    pub color: Texture,
    pub sampler: SamplerKind,
}

#[verifier::external_type_specification]
#[verifier::external_body]
pub struct ExImageError(image::error::ImageError);

/// Why a material could not be loaded from bytes.
pub enum MaterialError {
    ImageError(image::error::ImageError),
}

/// What decoding a byte string as a PNG yields: the dimensions and the
/// RGBA8 pixel bytes, or nothing when the bytes are not a decodable PNG.
/// With the format pinned the decode is a pure function of the bytes;
/// beyond the pixel-count fact stated at the decode call, the result is
/// left unspecified.
pub uninterp spec fn png_rgba_decode(bytes: Seq<u8>) -> Option<(u32, u32, Seq<u8>)>;

/// Relies on `image::load_from_memory_with_format` with the format pinned
/// to PNG — that path dispatches straight to the built-in PNG decoder and
/// consults neither of the image crate's process-global hook registries,
/// so the outcome depends on the input bytes alone — and on
/// `DynamicImage::to_rgba8`: the raw container of an RGBA8 image holds
/// exactly four bytes per pixel.
#[verifier::external_body]
fn decode_rgba(bytes: &Vec<u8>) -> (r: Result<Texture, image::error::ImageError>)
    ensures
        r is Ok <==> png_rgba_decode(bytes@) is Some,
        r matches Ok(t) ==> {
            let d = png_rgba_decode(bytes@)->Some_0;
            &&& t.width == d.0
            &&& t.height == d.1
            &&& t.pixels@ == d.2
            &&& d.2.len() == 4 * d.0 * d.1
        },
{
    match image::load_from_memory_with_format(bytes.as_slice(), image::ImageFormat::Png) {
        Ok(img) => {
            let rgba = img.to_rgba8();
            Ok(Texture { width: rgba.width(), height: rgba.height(), pixels: rgba.into_raw() })
        }
        Err(e) => Err(e),
    }
}

/// The embedded default image, already decoded: a two-by-two
/// magenta/black checkerboard, RGBA8.
pub open spec fn error_pixels() -> Seq<u8> {
    seq![
        0xffu8, 0x00u8, 0xffu8, 0xffu8,
        0x00u8, 0x00u8, 0x00u8, 0xffu8,
        0x00u8, 0x00u8, 0x00u8, 0xffu8,
        0xffu8, 0x00u8, 0xffu8, 0xffu8,
    ]
}

impl Material {
    /// The layout of a material's bind group: its color texture at binding
    /// 0 and a filtering sampler at binding 1, both for the fragment stage
    /// only.
    pub fn bind_group_layout() -> (l: Vec<crate::buffer::BindGroupLayoutEntry>)
        ensures
            l@.len() == 2,
            l@[0] == (crate::buffer::BindGroupLayoutEntry {
                binding: 0u32,
                fragment_only: true,
                ty: crate::buffer::BindingType::Texture2D,
            }),
            l@[1] == (crate::buffer::BindGroupLayoutEntry {
                binding: 1u32,
                fragment_only: true,
                ty: crate::buffer::BindingType::FilteringSampler,
            }),
    {
        let mut l: Vec<crate::buffer::BindGroupLayoutEntry> = Vec::new();
        l.push(crate::buffer::BindGroupLayoutEntry {
            binding: 0,
            fragment_only: true,
            ty: crate::buffer::BindingType::Texture2D,
        });
        l.push(crate::buffer::BindGroupLayoutEntry {
            binding: 1,
            fragment_only: true,
            ty: crate::buffer::BindingType::FilteringSampler,
        });
        l
    }

    /// The error material, built from the embedded default image and
    /// sampled nearest so its checkerboard stays crisp. The image is
    /// embedded already decoded, so construction involves no decoding and
    /// cannot fail.
    pub fn error() -> (m: Material)
        ensures
            m.color.width == 2,
            m.color.height == 2,
            m.color.pixels@ == error_pixels(),
            m.color.wf(),
            m.sampler == SamplerKind::Nearest,
    {
        let mut pixels: Vec<u8> = Vec::new();
        pixels.push(0xff);
        pixels.push(0x00);
        pixels.push(0xff);
        pixels.push(0xff);
        pixels.push(0x00);
        pixels.push(0x00);
        pixels.push(0x00);
        pixels.push(0xff);
        pixels.push(0x00);
        pixels.push(0x00);
        pixels.push(0x00);
        pixels.push(0xff);
        pixels.push(0xff);
        pixels.push(0x00);
        pixels.push(0xff);
        pixels.push(0xff);
        proof {
            assert(pixels@ =~= error_pixels());
        }
        Material { color: Texture { width: 2, height: 2, pixels }, sampler: SamplerKind::Nearest }
    }

    /// Loads a material from PNG bytes, sampled linear as loaded textures
    /// are. Succeeds exactly when the bytes decode as a PNG; the texture
    /// then holds the decoded RGBA8 grid. On failure the decode error is
    /// returned so the caller can fall back to the error material for that
    /// one load.
    pub fn from_bytes(bytes: &Vec<u8>) -> (r: Result<Material, MaterialError>)
        ensures
            r is Ok <==> png_rgba_decode(bytes@) is Some,
            r matches Ok(m) ==> {
                let d = png_rgba_decode(bytes@)->Some_0;
                &&& m.color.width == d.0
                &&& m.color.height == d.1
                &&& m.color.pixels@ == d.2
                &&& m.color.wf()
                &&& m.sampler == SamplerKind::Linear
            },
            r is Err ==> r->Err_0 is ImageError,
    {
        match decode_rgba(bytes) {
            Ok(t) => Ok(Material { color: t, sampler: SamplerKind::Linear }),
            Err(e) => Err(MaterialError::ImageError(e)),
        }
    }
}

} // verus!
