//! Preparing image files for upload as textures: KTX 1 compressed textures and
//! plain decoded images.
use ktx::KtxInfo;
use vstd::prelude::*;
use vstd::seq_lib::lemma_flatten_concat;

use crate::font::text_split::collect_chars;
use crate::image_res::PixelLayout;
use crate::texture::{
    convert_format, depth_or_array_layers, dimension, is_known_format, spec_convert_format,
    spec_depth_or_array_layers, spec_is_known_format, view_dimension, TextureDimension,
    TextureFormat, TextureViewDimension,
};

verus! {

// ---------------------------------------------------------------------------
// KTX 1 files
// ---------------------------------------------------------------------------

/// The twelve bytes that open a KTX 1 file.
pub open spec fn ktx_identifier() -> Seq<u8> {
    seq![0xABu8, 0x4Bu8, 0x54u8, 0x58u8, 0x20u8, 0x31u8, 0x31u8, 0xBBu8, 0x0Du8, 0x0Au8, 0x1Au8, 0x0Au8]
}

/// The 32-bit number stored in the four bytes of `b` from `off` on.
pub open spec fn read_u32(b: Seq<u8>, off: int, big_endian: bool) -> int {
    if big_endian {
        b[off] * 0x1000000 + b[off + 1] * 0x10000 + b[off + 2] * 0x100 + b[off + 3]
    } else {
        b[off] + b[off + 1] * 0x100 + b[off + 2] * 0x10000 + b[off + 3] * 0x1000000
    }
}

/// The header fields of a KTX 1 file that loading reads.
#[derive(Debug, Clone, Copy, PartialEq, Eq)]
pub struct KtxHeaderFields {
    pub big_endian: bool,
    pub gl_internal_format: u32,
    pub pixel_width: u32,
    pub pixel_height: u32,
    pub pixel_depth: u32,
    pub array_elements: u32,
    pub faces: u32,
    pub mipmap_levels: u32,
    pub bytes_of_key_value_data: u32,
}

/// The header of the KTX 1 file `b`: byte 12 tells the byte order (4 for big
/// endian), and twelve 32-bit numbers follow from byte 16 on.
pub open spec fn ktx_header_of(b: Seq<u8>) -> KtxHeaderFields {
    let be = b[12] == 4;
    KtxHeaderFields {
        big_endian: be,
        gl_internal_format: read_u32(b, 28, be) as u32,
        pixel_width: read_u32(b, 36, be) as u32,
        pixel_height: read_u32(b, 40, be) as u32,
        pixel_depth: read_u32(b, 44, be) as u32,
        array_elements: read_u32(b, 48, be) as u32,
        faces: read_u32(b, 52, be) as u32,
        mipmap_levels: read_u32(b, 56, be) as u32,
        bytes_of_key_value_data: read_u32(b, 60, be) as u32,
    }
}

/// Whether `b` holds a KTX 1 header: 64 bytes or more, starting with the identifier.
pub open spec fn has_ktx_header(b: Seq<u8>) -> bool {
    b.len() >= 64 && b.subrange(0, 12) == ktx_identifier()
}

/// The size of the level whose size field is at `off`; the field of a cube map
/// that is not an array gives the size of one face.
pub open spec fn level_size(b: Seq<u8>, h: KtxHeaderFields, off: int) -> int {
    let n = read_u32(b, off, h.big_endian);
    if h.array_elements == 0 && h.faces == 6 {
        6 * n
    } else {
        n
    }
}

/// Whether `count` levels, the first with its size field at `off`, lie in `b`.
pub open spec fn levels_fit(b: Seq<u8>, h: KtxHeaderFields, off: int, count: nat) -> bool
    decreases count,
{
    count == 0 || {
        let n = level_size(b, h, off);
        &&& 0 <= off
        &&& off + 4 <= b.len()
        &&& n <= u32::MAX
        &&& off + 4 + n <= b.len()
        &&& levels_fit(b, h, off + 4 + n, (count - 1) as nat)
    }
}

/// The data of `count` levels, the first with its size field at `off`: each level
/// is its size field followed by that many bytes.
pub open spec fn levels_at(b: Seq<u8>, h: KtxHeaderFields, off: int, count: nat) -> Seq<Seq<u8>>
    decreases count,
{
    if count == 0 {
        Seq::empty()
    } else {
        let n = level_size(b, h, off);
        seq![b.subrange(off + 4, off + 4 + n)] + levels_at(b, h, off + 4 + n, (count - 1) as nat)
    }
}

/// Where the first level of `b` starts: after the header and the key/value data.
pub open spec fn first_level(b: Seq<u8>) -> int {
    64 + ktx_header_of(b).bytes_of_key_value_data
}

/// The data of all levels of the KTX 1 file `b`.
pub open spec fn ktx_levels_of(b: Seq<u8>) -> Seq<Seq<u8>> {
    levels_at(b, ktx_header_of(b), first_level(b), ktx_header_of(b).mipmap_levels as nat)
}

/// Whether the `ktx` crate reads the header and all levels of `b`.
pub open spec fn ktx_readable(b: Seq<u8>) -> bool {
    &&& has_ktx_header(b)
    &&& first_level(b) <= u32::MAX
    &&& levels_fit(b, ktx_header_of(b), first_level(b), ktx_header_of(b).mipmap_levels as nat)
}

/// `ktx::header::KtxHeader::new` and its `KtxInfo` getters: the header fields,
/// read in the byte order that byte 12 gives.
#[verifier::external_body]
fn ktx_header(data: &[u8]) -> (r: KtxHeaderFields)
    requires
        has_ktx_header(data@),
    ensures
        r == ktx_header_of(data@),
{
    let h = ktx::header::KtxHeader::new(data);
    KtxHeaderFields {
        big_endian: h.big_endian(),
        gl_internal_format: h.gl_internal_format(),
        pixel_width: h.pixel_width(),
        pixel_height: h.pixel_height(),
        pixel_depth: h.pixel_depth(),
        array_elements: h.array_elements(),
        faces: h.faces(),
        mipmap_levels: h.mipmap_levels(),
        bytes_of_key_value_data: h.bytes_of_key_value_data(),
    }
}

pub open spec fn vec_views(v: Seq<Vec<u8>>) -> Seq<Seq<u8>> {
    v.map_values(|x: Vec<u8>| x@)
}

/// `ktx::Ktx::new` and `Ktx::textures`, each level copied out: the levels in file
/// order, each the bytes after its size field.
#[verifier::external_body]
fn ktx_levels(data: &[u8]) -> (r: Vec<Vec<u8>>)
    requires
        ktx_readable(data@),
    ensures
        vec_views(r@) == ktx_levels_of(data@),
{
    ktx::Ktx::new(data).textures().map(|level| level.to_vec()).collect()
}

/// Mipmap levels, array layers and faces of a texture: the header counts, at least 1.
pub open spec fn ktx_counts(h: KtxHeaderFields) -> (u32, u32, u32) {
    (
        if h.mipmap_levels > 1 { h.mipmap_levels } else { 1 },
        if h.array_elements > 1 { h.array_elements } else { 1 },
        if h.faces > 1 { h.faces } else { 1 },
    )
}

/// Whether `b` loads as a compressed texture: its header and levels can be read,
/// its internal format is known, its layer count fits in 32 bits, and a texture
/// of one layer and one face has at least one level.
pub open spec fn ktx_loadable(b: Seq<u8>) -> bool {
    let h = ktx_header_of(b);
    let (_, layers, faces) = ktx_counts(h);
    &&& ktx_readable(b)
    &&& spec_is_known_format(h.gl_internal_format)
    &&& (layers > 1 || faces > 1 ==> layers * faces <= u32::MAX)
    &&& !(layers == 1 && faces == 1 && h.mipmap_levels == 0)
}

/// The 32-bit number in the four bytes of `data` from `off` on.
fn u32_at(data: &[u8], off: usize, big_endian: bool) -> (r: u32)
    requires
        off + 4 <= data@.len(),
    ensures
        r == read_u32(data@, off as int, big_endian),
{
    let b0 = data[off] as u32;
    let b1 = data[off + 1] as u32;
    let b2 = data[off + 2] as u32;
    let b3 = data[off + 3] as u32;
    if big_endian {
        b0 * 0x1000000 + b1 * 0x10000 + b2 * 0x100 + b3
    } else {
        b0 + b1 * 0x100 + b2 * 0x10000 + b3 * 0x1000000
    }
}

/// Whether `data` starts with the KTX 1 identifier and is long enough for a header.
pub fn has_header(data: &[u8]) -> (r: bool)
    ensures
        r == has_ktx_header(data@),
{
    if data.len() < 64 {
        return false;
    }
    let id: [u8; 12] = [0xAB, 0x4B, 0x54, 0x58, 0x20, 0x31, 0x31, 0xBB, 0x0D, 0x0A, 0x1A, 0x0A];
    assert(id@ =~= ktx_identifier());
    let mut i: usize = 0;
    while i < 12
        invariant
            i <= 12,
            data@.len() >= 64,
            id@ == ktx_identifier(),
            data@.subrange(0, i as int) =~= ktx_identifier().subrange(0, i as int),
        decreases 12 - i,
    {
        if data[i] != id[i] {
            assert(data@.subrange(0, 12)[i as int] != ktx_identifier()[i as int]);
            return false;
        }
        i += 1;
    }
    assert(ktx_identifier().subrange(0, 12) =~= ktx_identifier());
    true
}

/// Whether `data` is a KTX 1 file that loads as a compressed texture (see
/// [`ktx_loadable`]).
pub fn is_ktx_loadable(data: &[u8]) -> (r: bool)
    ensures
        r == ktx_loadable(data@),
{
    if !has_header(data) {
        return false;
    }
    let h = ktx_header(data);
    if h.bytes_of_key_value_data > u32::MAX - 64 {
        return false;
    }
    let ghost b = data@;
    let ghost m = h.mipmap_levels as nat;
    let start: usize = 64 + h.bytes_of_key_value_data as usize;
    let mut off: usize = start;
    let mut k: u32 = 0;
    while k < h.mipmap_levels
        invariant
            b == data@,
            h == ktx_header_of(b),
            m == h.mipmap_levels,
            start == first_level(b),
            k <= m,
            levels_fit(b, h, start as int, m) == levels_fit(b, h, off as int, (m - k) as nat),
        decreases m - k,
    {
        if off > data.len() || data.len() - off < 4 {
            return false;
        }
        let n = u32_at(data, off, h.big_endian) as u64;
        let size: u64 = if h.array_elements == 0 && h.faces == 6 {
            6 * n
        } else {
            n
        };
        if size > u32::MAX as u64 {
            return false;
        }
        if size as usize > data.len() - off - 4 {
            return false;
        }
        off = off + 4 + size as usize;
        k += 1;
    }
    if !is_known_format(h.gl_internal_format) {
        return false;
    }
    let layers = if h.array_elements > 1 { h.array_elements } else { 1 };
    let faces = if h.faces > 1 { h.faces } else { 1 };
    if (layers > 1 || faces > 1) && layers.checked_mul(faces).is_none() {
        return false;
    }
    !(layers == 1 && faces == 1 && h.mipmap_levels == 0)
}

/// What a KTX 1 file gives for a texture upload.
pub struct KtxTextureData {
    pub format: TextureFormat,
    /// Width of level 0 in pixels.
    pub width: u32,
    /// Height of level 0 in pixels.
    pub height: u32,
    /// Layers of an array or cube map, or the depth of a 3D texture.
    pub depth_or_array_layers: u32,
    pub mip_level_count: u32,
    pub dimension: TextureDimension,
    pub view_dimension: TextureViewDimension,
    /// The bytes of all levels, level after level.
    pub data: Vec<u8>,
    /// Size of the file in bytes.
    pub size: usize,
}

proof fn lemma_levels_len(b: Seq<u8>, h: KtxHeaderFields, off: int, count: nat)
    requires
        levels_fit(b, h, off, count),
    ensures
        count == 0 ==> levels_at(b, h, off, count).flatten().len() == 0,
        count > 0 ==> levels_at(b, h, off, count).flatten().len() + off + 4 <= b.len(),
    decreases count,
{
    if count > 0 {
        let n = level_size(b, h, off);
        let x = b.subrange(off + 4, off + 4 + n);
        let rest = levels_at(b, h, off + 4 + n, (count - 1) as nat);
        lemma_levels_len(b, h, off + 4 + n, (count - 1) as nat);
        lemma_flatten_concat(seq![x], rest);
        seq![x].lemma_flatten_singleton();
    } else {
        assert(Seq::<Seq<u8>>::empty().flatten() =~= Seq::<u8>::empty());
    }
}

proof fn lemma_flatten_take_len(s: Seq<Seq<u8>>, k: int)
    requires
        0 <= k <= s.len(),
    ensures
        s.take(k).flatten().len() <= s.flatten().len(),
{
    assert(s =~= s.take(k) + s.skip(k));
    lemma_flatten_concat(s.take(k), s.skip(k));
}

/// Reads the compressed texture in the KTX 1 file `buffer`: its format, extent,
/// counts, dimensions, and the data of all its levels in order.
pub fn ktx_texture_data(buffer: &[u8]) -> (r: KtxTextureData)
    requires
        ktx_loadable(buffer@),
    ensures
        ({
            let h = ktx_header_of(buffer@);
            let (mips, layers, faces) = ktx_counts(h);
            &&& r.format == spec_convert_format(h.gl_internal_format)
            &&& r.width == h.pixel_width
            &&& r.height == h.pixel_height
            &&& r.depth_or_array_layers == spec_depth_or_array_layers(layers, faces, h.pixel_depth)
            &&& r.mip_level_count == mips
            &&& r.dimension == (if h.pixel_depth > 1 {
                TextureDimension::D3
            } else if h.pixel_height > 1 {
                TextureDimension::D2
            } else {
                TextureDimension::D1
            })
            &&& r.view_dimension == (if faces == 6 {
                if layers > 1 {
                    TextureViewDimension::CubeArray
                } else {
                    TextureViewDimension::Cube
                }
            } else if layers > 1 {
                TextureViewDimension::D2Array
            } else if h.pixel_depth > 1 {
                TextureViewDimension::D3
            } else {
                TextureViewDimension::D2
            })
            &&& r.data@ == ktx_levels_of(buffer@).flatten()
            &&& r.size == buffer@.len()
        }),
{
    let h = ktx_header(buffer);
    let format = convert_format(h.gl_internal_format);
    let mip_level_count = if h.mipmap_levels > 1 { h.mipmap_levels } else { 1 };
    let layer_count = if h.array_elements > 1 { h.array_elements } else { 1 };
    let face_count = if h.faces > 1 { h.faces } else { 1 };
    let depth = depth_or_array_layers(layer_count, face_count, h.pixel_depth);
    let mut levels = ktx_levels(buffer);
    let ghost lv = vec_views(levels@);
    assert(lv.len() == levels@.len());
    proof {
        lemma_levels_len(buffer@, h, first_level(buffer@), h.mipmap_levels as nat);
        assert(buffer@.len() == buffer.len());
    }
    let data: Vec<u8>;
    if mip_level_count == 1 && layer_count == 1 && face_count == 1 {
        proof {
            reveal_with_fuel(levels_at, 2);
            assert(lv =~= seq![lv[0]]);
            seq![lv[0]].lemma_flatten_singleton();
        }
        data = levels.pop().unwrap();
    } else {
        let mut len: usize = 0;
        let mut i: usize = 0;
        while i < levels.len()
            invariant
                i <= levels@.len() == lv.len(),
                lv == vec_views(levels@),
                lv.flatten().len() <= buffer@.len() <= usize::MAX,
                len == lv.take(i as int).flatten().len(),
            decreases levels@.len() - i,
        {
            proof {
                assert(lv[i as int] == levels@[i as int]@);
                assert(lv.take(i + 1) =~= lv.take(i as int).push(lv[i as int]));
                lv.take(i as int).lemma_flatten_push(lv[i as int]);
                lemma_flatten_take_len(lv, i as int + 1);
            }
            len = len + levels[i].len();
            i += 1;
        }
        let mut out: Vec<u8> = Vec::with_capacity(len);
        let mut j: usize = 0;
        while j < levels.len()
            invariant
                j <= levels@.len() == lv.len(),
                lv == vec_views(levels@),
                out@ == lv.take(j as int).flatten(),
            decreases levels@.len() - j,
        {
            let ghost before = out@;
            out.extend_from_slice(levels[j].as_slice());
            proof {
                assert(out@ =~= before + lv[j as int]);
                assert(lv.take(j + 1) =~= lv.take(j as int).push(lv[j as int]));
                lv.take(j as int).lemma_flatten_push(lv[j as int]);
            }
            j += 1;
        }
        assert(lv.take(lv.len() as int) =~= lv);
        data = out;
    }
    KtxTextureData {
        format,
        width: h.pixel_width,
        height: h.pixel_height,
        depth_or_array_layers: depth,
        mip_level_count,
        dimension: dimension(h.pixel_height, h.pixel_depth),
        view_dimension: view_dimension(layer_count, face_count, h.pixel_depth),
        data,
        size: buffer.len(),
    }
}

// ---------------------------------------------------------------------------
// Choosing the loader, and plain images
// ---------------------------------------------------------------------------

/// Whether the text `s` ends with `suffix`.
pub open spec fn spec_ends_with(s: Seq<char>, suffix: Seq<char>) -> bool {
    suffix.len() <= s.len() && s.subrange(s.len() - suffix.len(), s.len() as int) == suffix
}

/// Whether `s` ends with `suffix`.
pub fn ends_with(s: &str, suffix: &str) -> (r: bool)
    ensures
        r == spec_ends_with(s@, suffix@),
{
    let a = collect_chars(s);
    let b = collect_chars(suffix);
    if b.len() > a.len() {
        return false;
    }
    let start = a.len() - b.len();
    let mut i: usize = 0;
    while i < b.len()
        invariant
            a@ == s@,
            b@ == suffix@,
            start + b@.len() == a@.len() <= usize::MAX,
            i <= b@.len(),
            forall|k: int| 0 <= k < i ==> a@[start + k] == b@[k],
        decreases b@.len() - i,
    {
        if a[start + i] != b[i] {
            assert(s@.subrange(start as int, s@.len() as int)[i as int] != suffix@[i as int]);
            return false;
        }
        i += 1;
    }
    assert(s@.subrange(start as int, s@.len() as int) =~= suffix@);
    true
}

/// Whether the image at `url` is a KTX compressed texture (its name ends in `.ktx`).
pub fn is_ktx_url(url: &str) -> (r: bool)
    ensures
        r == spec_ends_with(url@, ".ktx"@),
{
    ends_with(url, ".ktx")
}

/// Whether a decoded image of this layout can be uploaded: 8-bit gray, RGB or RGBA.
pub open spec fn is_uploadable(layout: PixelLayout) -> bool {
    layout is Luma8 || layout is Rgb8 || layout is Rgba8
}

/// Bytes per pixel uploaded: gray stays one byte, RGB is widened to RGBA.
pub open spec fn upload_bytes_per_pixel(layout: PixelLayout) -> u32 {
    if layout is Luma8 {
        1
    } else {
        4
    }
}

/// The texture format of an uploaded image.
pub open spec fn upload_format(layout: PixelLayout, srgb: bool) -> TextureFormat {
    if layout is Luma8 {
        TextureFormat::R8Unorm
    } else if srgb {
        TextureFormat::Rgba8UnormSrgb
    } else {
        TextureFormat::Rgba8Unorm
    }
}

/// How a decoded image is uploaded as a texture.
#[derive(Debug, Clone, Copy, PartialEq, Eq)]
pub struct ImageUpload {
    pub format: TextureFormat,
    /// Whether the pixels are first converted to 8-bit RGBA.
    pub to_rgba8: bool,
    pub bytes_per_pixel: u32,
    pub bytes_per_row: u32,
    /// Memory size of the texture in bytes.
    pub size: usize,
    /// Whether the image came from a PNG file.
    pub is_opacity: bool,
}

/// How the `width` x `height` image of `layout` read from `url` is uploaded, as
/// sRGB when `srgb` holds.
pub fn image_upload(layout: PixelLayout, width: u32, height: u32, srgb: bool, url: &str) -> (r: ImageUpload)
    requires
        is_uploadable(layout),
        width * upload_bytes_per_pixel(layout) <= u32::MAX,
        upload_bytes_per_pixel(layout) * width * height <= usize::MAX,
    ensures
        r.format == upload_format(layout, srgb),
        r.to_rgba8 == (layout is Rgb8),
        r.bytes_per_pixel == upload_bytes_per_pixel(layout),
        r.bytes_per_row == width * upload_bytes_per_pixel(layout),
        r.size == upload_bytes_per_pixel(layout) * width * height,
        r.is_opacity == spec_ends_with(url@, ".png"@),
{
    let (format, bpp): (TextureFormat, u32) = match layout {
        PixelLayout::Luma8 => (TextureFormat::R8Unorm, 1),
        _ => {
            if srgb {
                (TextureFormat::Rgba8UnormSrgb, 4)
            } else {
                (TextureFormat::Rgba8Unorm, 4)
            }
        },
    };
    let to_rgba8 = match layout {
        PixelLayout::Rgb8 => true,
        _ => false,
    };
    let row = width * bpp;
    let size = bpp as usize * width as usize * height as usize;
    ImageUpload {
        format,
        to_rgba8,
        bytes_per_pixel: bpp,
        bytes_per_row: row,
        size,
        is_opacity: ends_with(url, ".png"),
    }
}

/// Law: a 32-bit number read in big-endian order is the number read in
/// little-endian order from the same four bytes reversed, and every number read
/// fits in 32 bits.
pub proof fn lemma_read_u32_byte_order(b: Seq<u8>, off: int)
    requires
        0 <= off,
        off + 4 <= b.len(),
    ensures
        read_u32(b, off, true) == read_u32(seq![b[off + 3], b[off + 2], b[off + 1], b[off]], 0, false),
        0 <= read_u32(b, off, true) <= u32::MAX,
        0 <= read_u32(b, off, false) <= u32::MAX,
        read_u32(b, off, false) % 256 == b[off],
{
}

/// Law: the counts of a texture are at least 1, and are the header's counts
/// whenever those are not 0.
pub proof fn lemma_ktx_counts(h: KtxHeaderFields)
    ensures
        ({
            let (mips, layers, faces) = ktx_counts(h);
            &&& mips >= 1 && layers >= 1 && faces >= 1
            &&& h.mipmap_levels >= 1 ==> mips == h.mipmap_levels
            &&& h.array_elements >= 1 ==> layers == h.array_elements
            &&& h.faces >= 1 ==> faces == h.faces
        }),
{
}

/// Bytes per pixel of the formats plain images are uploaded in.
pub open spec fn plain_format_bytes(f: TextureFormat) -> u32 {
    match f {
        TextureFormat::R8Unorm => 1,
        TextureFormat::Rgba8Unorm | TextureFormat::Rgba8UnormSrgb | TextureFormat::Bgra8Unorm => 4,
        _ => 0,
    }
}

/// Law: an image is uploaded in a format of as many bytes per pixel as are
/// uploaded, one-channel images in a one-channel format; colour images are sRGB
/// exactly when asked, and the format of gray images does not depend on it.
pub proof fn lemma_upload_format(layout: PixelLayout, srgb: bool)
    requires
        is_uploadable(layout),
    ensures
        plain_format_bytes(upload_format(layout, srgb)) == upload_bytes_per_pixel(layout),
        layout is Luma8 <==> upload_format(layout, srgb) == TextureFormat::R8Unorm,
        layout !is Luma8 ==> (upload_format(layout, srgb) == TextureFormat::Rgba8UnormSrgb <==> srgb),
        upload_format(layout, true) == upload_format(layout, false) <==> layout is Luma8,
{
}

} // verus!
