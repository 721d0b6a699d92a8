//! Texture records and the texture format rules: what internal format
//! a texture's usage selects, which pixel format a channel count maps
//! to, and the image data an empty texture is created from. Decoding
//! image files and uploading to the GPU are the outer layer's work.

use vstd::prelude::*;

use crate::gl_value::LINEAR;
use crate::gl_value::LINEAR_MIPMAP_LINEAR;
use crate::gl_value::REPEAT;
use crate::gl_value::RED;
use crate::gl_value::RG;
use crate::gl_value::RGB;
use crate::gl_value::RGB8;
use crate::gl_value::RGBA;
use crate::gl_value::RGBA8;
use crate::gl_value::SRGB8;
use crate::gl_value::SRGB8_ALPHA8;
use crate::gl_value::TEXTURE0;

verus! {

/// A GPU texture: its GL name and its pixel dimensions.
pub struct Texture {
    texture_id: u32,
    width: i32,
    height: i32,
}

/// Raw pixel data as uploaded to a texture: `channels` bytes per pixel,
/// rows of `width` pixels, `height` rows.
pub struct ImageData {
    pub width: i32,
    pub height: i32,
    pub channels: u8,
    pub data: Vec<u8>,
}

impl ImageData {
    /// The byte buffer holds exactly one row of `channels`-byte pixels
    /// per line of the image.
    pub open spec fn wf(self) -> bool {
        &&& 0 <= self.width
        &&& 0 <= self.height
        &&& self.data@.len() == self.width * self.height * self.channels
    }
}

/// What a texture's content means, which decides its internal format:
/// colour data is stored sRGB, vector and scalar data linear.
#[derive(Debug, Clone, Copy)]
pub enum TextureUsage {
    /// Colour, sRGB.
    Albedo,
    /// Vector data, linear.
    Normal,
    /// Roughness, metallic, occlusion and the like, linear.
    Data,
    /// Emitted colour, sRGB.
    Emissive,
}

/// Sampling and storage parameters a texture is created with.
#[derive(Debug, Clone, Copy)]
pub struct TextureSpec {
    pub usage: TextureUsage,
    pub min_filter: u32,
    pub mag_filter: u32,
    pub wrap_s: u32,
    pub wrap_t: u32,
    pub generate_mipmaps: bool,
}

/// The parameters every preset shares: trilinear minification, linear
/// magnification, repeat wrapping, mipmaps generated.
pub open spec fn standard_sampling(spec: TextureSpec) -> bool {
    &&& spec.min_filter == LINEAR_MIPMAP_LINEAR
    &&& spec.mag_filter == LINEAR
    &&& spec.wrap_s == REPEAT
    &&& spec.wrap_t == REPEAT
    &&& spec.generate_mipmaps == true
}

impl TextureSpec {
    /// Preset for colour textures.
    pub fn albedo() -> (r: TextureSpec)
        ensures
            r.usage is Albedo,
            standard_sampling(r),
    {
        TextureSpec {
            usage: TextureUsage::Albedo,
            min_filter: LINEAR_MIPMAP_LINEAR,
            mag_filter: LINEAR,
            wrap_s: REPEAT,
            wrap_t: REPEAT,
            generate_mipmaps: true,
        }
    }

    /// Preset for normal maps.
    pub fn normal() -> (r: TextureSpec)
        ensures
            r.usage is Normal,
            standard_sampling(r),
    {
        TextureSpec {
            usage: TextureUsage::Normal,
            min_filter: LINEAR_MIPMAP_LINEAR,
            mag_filter: LINEAR,
            wrap_s: REPEAT,
            wrap_t: REPEAT,
            generate_mipmaps: true,
        }
    }

    /// Preset for scalar material data.
    pub fn data() -> (r: TextureSpec)
        ensures
            r.usage is Data,
            standard_sampling(r),
    {
        TextureSpec {
            usage: TextureUsage::Data,
            min_filter: LINEAR_MIPMAP_LINEAR,
            mag_filter: LINEAR,
            wrap_s: REPEAT,
            wrap_t: REPEAT,
            generate_mipmaps: true,
        }
    }

    /// Preset for emissive maps.
    pub fn emissive() -> (r: TextureSpec)
        ensures
            r.usage is Emissive,
            standard_sampling(r),
    {
        TextureSpec {
            usage: TextureUsage::Emissive,
            min_filter: LINEAR_MIPMAP_LINEAR,
            mag_filter: LINEAR,
            wrap_s: REPEAT,
            wrap_t: REPEAT,
            generate_mipmaps: true,
        }
    }

    /// The internal storage format for this usage: sRGB for colour
    /// usages, linear for data usages, with or without an alpha
    /// channel.
    pub fn internal_format(&self, has_alpha: bool) -> (r: u32)
        ensures
            r == match self.usage {
                TextureUsage::Albedo | TextureUsage::Emissive => if has_alpha {
                    SRGB8_ALPHA8
                } else {
                    SRGB8
                },
                TextureUsage::Normal | TextureUsage::Data => if has_alpha {
                    RGBA8
                } else {
                    RGB8
                },
            },
    {
        match self.usage {
            TextureUsage::Albedo | TextureUsage::Emissive => {
                if has_alpha {
                    SRGB8_ALPHA8
                } else {
                    SRGB8
                }
            },
            TextureUsage::Normal | TextureUsage::Data => {
                if has_alpha {
                    RGBA8
                } else {
                    RGB8
                }
            },
        }
    }
}

impl Texture {
    pub closed spec fn spec_id(self) -> u32 {
        self.texture_id
    }

    pub closed spec fn spec_width(self) -> i32 {
        self.width
    }

    pub closed spec fn spec_height(self) -> i32 {
        self.height
    }

    /// Wraps the name of a texture the outer layer created, with the
    /// dimensions it was created at.
    pub fn from_raw(texture_id: u32, width: i32, height: i32) -> (r: Texture)
        ensures
            r.spec_id() == texture_id,
            r.spec_width() == width,
            r.spec_height() == height,
    {
        Texture { texture_id, width, height }
    }

    /// The CPU side of creating an empty texture: the zero-filled RGBA
    /// image to upload, paired with the record for the name the GPU
    /// handed back.
    pub fn empty(width: usize, height: usize, texture_id: u32) -> (r: (Texture, ImageData))
        requires
            width <= i32::MAX,
            height <= i32::MAX,
            width * height * 4 <= i32::MAX,
        ensures
            r.0.spec_id() == texture_id,
            r.0.spec_width() == width,
            r.0.spec_height() == height,
            r.1.wf(),
            r.1.width == width,
            r.1.height == height,
            r.1.channels == 4,
            r.1.data@ == Seq::new((width * height * 4) as nat, |i: int| 0u8),
    {
        let len: usize = width * height * 4;
        let mut data: Vec<u8> = Vec::new();
        let mut i: usize = 0;
        while i < len
            invariant
                i <= len,
                data@ == Seq::new(i as nat, |j: int| 0u8),
            decreases len - i,
        {
            data.push(0);
            i = i + 1;
            proof {
                assert(data@ =~= Seq::new(i as nat, |j: int| 0u8));
            }
        }
        let image = ImageData { width: width as i32, height: height as i32, channels: 4, data };
        (Texture { texture_id, width: width as i32, height: height as i32 }, image)
    }

    pub fn id(&self) -> (r: u32)
        ensures
            r == self.spec_id(),
    {
        self.texture_id
    }

    pub fn width(&self) -> (r: i32)
        ensures
            r == self.spec_width(),
    {
        self.width
    }

    pub fn height(&self) -> (r: i32)
        ensures
            r == self.spec_height(),
    {
        self.height
    }

    /// The highest texture unit a texture may be bound to.
    pub open spec fn max_texture_unit() -> u32 {
        31
    }

    /// The GL enumerant for binding to texture unit `unit`, or `None`
    /// for a unit past the last one this engine allows.
    pub fn unit_enum(unit: u32) -> (r: Option<u32>)
        ensures
            unit <= Texture::max_texture_unit() ==> r == Some((TEXTURE0 + unit) as u32),
            unit > Texture::max_texture_unit() ==> r is None,
    {
        if unit > 31 {
            None
        } else {
            Some(TEXTURE0 + unit)
        }
    }
}

/// The GL pixel format for `channels` one-byte components per pixel.
/// Counts outside one to four have no format and are left out.
pub fn pixel_format(channels: u8) -> (r: u32)
    requires
        1 <= channels <= 4,
    ensures
        channels == 1 ==> r == RED,
        channels == 2 ==> r == RG,
        channels == 3 ==> r == RGB,
        channels == 4 ==> r == RGBA,
{
    match channels {
        1 => RED,
        2 => RG,
        3 => RGB,
        _ => RGBA,
    }
}

} // verus!
