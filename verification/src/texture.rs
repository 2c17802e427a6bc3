//! Image textures: formats, dimensions and descriptors.
use vstd::prelude::*;

verus! {

/// Block size of an ASTC compressed texture.
#[derive(Debug, Clone, Copy, PartialEq, Eq, Hash, Structural)]
pub enum AstcBlock {
    B4x4,
    B5x4,
    B5x5,
    B6x5,
    B6x6,
    B8x5,
    B8x6,
    B8x8,
    B10x5,
    B10x6,
    B10x8,
    B10x10,
    B12x10,
    B12x12,
}

/// Channel type of an ASTC compressed texture.
#[derive(Debug, Clone, Copy, PartialEq, Eq, Hash, Structural)]
pub enum AstcChannel {
    Unorm,
    UnormSrgb,
    Hdr,
}

/// The texture formats that images and compressed textures are uploaded in.
#[derive(Debug, Clone, Copy, PartialEq, Eq, Hash, Structural)]
pub enum TextureFormat {
    R8Unorm,
    Rgba8Unorm,
    Rgba8UnormSrgb,
    Bgra8Unorm,
    Bc1RgbaUnorm,
    Bc2RgbaUnorm,
    Bc3RgbaUnorm,
    Etc2Rgb8Unorm,
    Etc2Rgba8Unorm,
    Astc { block: AstcBlock, channel: AstcChannel },
}

/// Dimension of a texture.
#[derive(Debug, Clone, Copy, PartialEq, Eq, Hash, Structural)]
pub enum TextureDimension {
    D1,
    D2,
    D3,
}

/// How a texture is viewed.
#[derive(Debug, Clone, Copy, PartialEq, Eq, Hash, Structural)]
pub enum TextureViewDimension {
    D1,
    D2,
    D2Array,
    Cube,
    CubeArray,
    D3,
}

/// The texture format of the render target of this platform, and whether it is sRGB.
pub trait PiDefaultTextureFormat: Sized {
    fn pi_render_default() -> Self;

    fn is_srgb() -> bool;
}

impl PiDefaultTextureFormat for TextureFormat {
    /// Blue-green-red-alpha, eight bits each.
    fn pi_render_default() -> (r: Self)
        ensures
            r == TextureFormat::Bgra8Unorm,
    {
        TextureFormat::Bgra8Unorm
    }

    /// Textures are not sRGB.
    fn is_srgb() -> (r: bool)
        ensures
            r == false,
    {
        false
    }
}

/// The ASTC block size of an OpenGL internal format code `0x93b0..=0x93bd`.
pub open spec fn astc_block_of(v: u32) -> AstcBlock {
    if v == 0x93b0 {
        AstcBlock::B4x4
    } else if v == 0x93b1 {
        AstcBlock::B5x4
    } else if v == 0x93b2 {
        AstcBlock::B5x5
    } else if v == 0x93b3 {
        AstcBlock::B6x5
    } else if v == 0x93b4 {
        AstcBlock::B6x6
    } else if v == 0x93b5 {
        AstcBlock::B8x5
    } else if v == 0x93b6 {
        AstcBlock::B8x6
    } else if v == 0x93b7 {
        AstcBlock::B8x8
    } else if v == 0x93b8 {
        AstcBlock::B10x5
    } else if v == 0x93b9 {
        AstcBlock::B10x6
    } else if v == 0x93ba {
        AstcBlock::B10x8
    } else if v == 0x93bb {
        AstcBlock::B10x10
    } else if v == 0x93bc {
        AstcBlock::B12x10
    } else {
        AstcBlock::B12x12
    }
}

/// OpenGL internal format codes of compressed textures that can be uploaded: S3TC
/// DXT1/3/5 with alpha, ETC2 RGB8 and RGBA8, and the ASTC RGBA formats.
pub open spec fn spec_is_known_format(v: u32) -> bool {
    ||| v == 0x83f1
    ||| v == 0x83f2
    ||| v == 0x83f3
    ||| v == 0x9274
    ||| v == 0x9278
    ||| 0x93b0 <= v && v <= 0x93bd
}

/// The texture format of an OpenGL internal format code.
pub open spec fn spec_convert_format(v: u32) -> TextureFormat {
    if v == 0x83f1 {
        TextureFormat::Bc1RgbaUnorm
    } else if v == 0x83f2 {
        TextureFormat::Bc2RgbaUnorm
    } else if v == 0x83f3 {
        TextureFormat::Bc3RgbaUnorm
    } else if v == 0x9274 {
        TextureFormat::Etc2Rgb8Unorm
    } else if v == 0x9278 {
        TextureFormat::Etc2Rgba8Unorm
    } else {
        TextureFormat::Astc { block: astc_block_of(v), channel: AstcChannel::Unorm }
    }
}

/// Whether `v` is the code of a compressed format that [`convert_format`] knows.
pub fn is_known_format(v: u32) -> (r: bool)
    ensures
        r == spec_is_known_format(v),
{
    v == 0x83f1 || v == 0x83f2 || v == 0x83f3 || v == 0x9274 || v == 0x9278 || (0x93b0 <= v && v
        <= 0x93bd)
}

/// The texture format of the OpenGL internal format code `v` of a KTX file.
pub fn convert_format(v: u32) -> (r: TextureFormat)
    requires
        spec_is_known_format(v),
    ensures
        r == spec_convert_format(v),
{
    let block = match v {
        0x93b0 => AstcBlock::B4x4,
        0x93b1 => AstcBlock::B5x4,
        0x93b2 => AstcBlock::B5x5,
        0x93b3 => AstcBlock::B6x5,
        0x93b4 => AstcBlock::B6x6,
        0x93b5 => AstcBlock::B8x5,
        0x93b6 => AstcBlock::B8x6,
        0x93b7 => AstcBlock::B8x8,
        0x93b8 => AstcBlock::B10x5,
        0x93b9 => AstcBlock::B10x6,
        0x93ba => AstcBlock::B10x8,
        0x93bb => AstcBlock::B10x10,
        0x93bc => AstcBlock::B12x10,
        _ => AstcBlock::B12x12,
    };
    match v {
        0x83f1 => TextureFormat::Bc1RgbaUnorm,
        0x83f2 => TextureFormat::Bc2RgbaUnorm,
        0x83f3 => TextureFormat::Bc3RgbaUnorm,
        0x9274 => TextureFormat::Etc2Rgb8Unorm,
        0x9278 => TextureFormat::Etc2Rgba8Unorm,
        _ => TextureFormat::Astc { block, channel: AstcChannel::Unorm },
    }
}

/// Number of layers of a texture: layers times faces for arrays and cube maps,
/// otherwise the depth; at least 1.
pub open spec fn spec_depth_or_array_layers(layer_count: u32, face_count: u32, depth: u32) -> int {
    let n = if layer_count > 1 || face_count > 1 {
        layer_count * face_count
    } else {
        depth as int
    };
    if n > 1 {
        n
    } else {
        1
    }
}

/// Number of layers of a texture with `layer_count` array elements, `face_count`
/// faces and depth `depth`.
pub fn depth_or_array_layers(layer_count: u32, face_count: u32, depth: u32) -> (r: u32)
    requires
        layer_count > 1 || face_count > 1 ==> layer_count * face_count <= u32::MAX,
    ensures
        r == spec_depth_or_array_layers(layer_count, face_count, depth),
        r >= 1,
{
    let n = if layer_count > 1 || face_count > 1 {
        layer_count * face_count
    } else {
        depth
    };
    if n > 1 {
        n
    } else {
        1
    }
}

/// Dimension of a texture of height `height` and depth `depth`.
pub fn dimension(height: u32, depth: u32) -> (r: TextureDimension)
    ensures
        r == (if depth > 1 {
            TextureDimension::D3
        } else if height > 1 {
            TextureDimension::D2
        } else {
            TextureDimension::D1
        }),
{
    if depth > 1 {
        TextureDimension::D3
    } else if height > 1 {
        TextureDimension::D2
    } else {
        TextureDimension::D1
    }
}

/// View dimension of a texture: cube (array) with six faces, otherwise 2D array,
/// 3D or 2D.
pub fn view_dimension(layer_count: u32, face_count: u32, depth: u32) -> (r: TextureViewDimension)
    ensures
        r == (if face_count == 6 {
            if layer_count > 1 {
                TextureViewDimension::CubeArray
            } else {
                TextureViewDimension::Cube
            }
        } else if layer_count > 1 {
            TextureViewDimension::D2Array
        } else if depth > 1 {
            TextureViewDimension::D3
        } else {
            TextureViewDimension::D2
        }),
{
    if face_count == 6 {
        if layer_count > 1 {
            TextureViewDimension::CubeArray
        } else {
            TextureViewDimension::Cube
        }
    } else if layer_count > 1 {
        TextureViewDimension::D2Array
    } else if depth > 1 {
        TextureViewDimension::D3
    } else {
        TextureViewDimension::D2
    }
}

/// Texture usage flags (bits of `wgpu::TextureUsages`).
#[derive(Debug, Clone, Copy, PartialEq, Eq, Hash, Structural)]
pub struct TextureUsages {
    pub bits: u32,
}

/// Copy source.
pub const COPY_SRC: u32 = 1;

/// Copy destination.
pub const COPY_DST: u32 = 2;

/// Sampled in shaders.
pub const TEXTURE_BINDING: u32 = 4;

/// Describes an image texture to load.
#[derive(Debug, Clone, PartialEq, Eq, Hash)]
pub struct ImageTextureDesc {
    /// Where the image is.
    pub url: String,
    /// Whether the texture is sRGB.
    pub srgb: bool,
    pub useage: TextureUsages,
}

impl ImageTextureDesc {
    /// A descriptor of a texture sampled in shaders and written by copies.
    pub fn new(url: String) -> (r: Self)
        ensures
            r.url@ == url@,
            r.srgb == false,
            r.useage.bits == TEXTURE_BINDING | COPY_DST,
    {
        Self {
            url,
            srgb: <TextureFormat as PiDefaultTextureFormat>::is_srgb(),
            useage: TextureUsages { bits: TEXTURE_BINDING | COPY_DST },
        }
    }
}

/// Position of a block size in the list of ASTC block sizes, smallest first (the
/// order of the KHR ASTC formats).
pub open spec fn astc_block_rank(b: AstcBlock) -> int {
    match b {
        AstcBlock::B4x4 => 0,
        AstcBlock::B5x4 => 1,
        AstcBlock::B5x5 => 2,
        AstcBlock::B6x5 => 3,
        AstcBlock::B6x6 => 4,
        AstcBlock::B8x5 => 5,
        AstcBlock::B8x6 => 6,
        AstcBlock::B8x8 => 7,
        AstcBlock::B10x5 => 8,
        AstcBlock::B10x6 => 9,
        AstcBlock::B10x8 => 10,
        AstcBlock::B10x10 => 11,
        AstcBlock::B12x10 => 12,
        AstcBlock::B12x12 => 13,
    }
}

/// Law: the ASTC codes `0x93b0..=0x93bd` name the fourteen block sizes in order,
/// one each: code `0x93b0 + k` is the `k`-th block size, so no two codes share a
/// block, and they are converted to unsigned-normalised ASTC formats.
pub proof fn lemma_astc_codes_in_order(v: u32, w: u32)
    requires
        0x93b0 <= v <= 0x93bd,
        0x93b0 <= w <= 0x93bd,
    ensures
        astc_block_rank(astc_block_of(v)) == v - 0x93b0,
        v != w ==> astc_block_of(v) != astc_block_of(w),
        spec_is_known_format(v),
        spec_convert_format(v) == (TextureFormat::Astc { block: astc_block_of(v), channel: AstcChannel::Unorm }),
{
}

/// Law: the compressed formats that can be uploaded are told apart: two different
/// known codes convert to two different texture formats.
pub proof fn lemma_known_formats_distinct(v: u32, w: u32)
    requires
        spec_is_known_format(v),
        spec_is_known_format(w),
        v != w,
    ensures
        spec_convert_format(v) != spec_convert_format(w),
{
    if 0x93b0 <= v <= 0x93bd && 0x93b0 <= w <= 0x93bd {
        lemma_astc_codes_in_order(v, w);
    }
}

} // verus!
