//! Glyphs of fonts whose distance fields are shipped ready-made.
use pi_hash::XHashMap;
use vstd::prelude::*;

use super::font::{FontFaceId, FontId, GlyphId};
use super::glyph_table::{
    face_glyph_get, face_glyph_insert, glyph_count, glyph_face_insert, glyph_info_get,
    glyph_slots, same_face, GlyphDesc, GlyphTable,
};
use super::sdf_table::GlyphInfo;
use super::text_pack::TextPacker;
use super::text_split::{char_is_whitespace, spec_is_whitespace};

verus! {

/// Byte `k` of the square texture `size` wide made from a `width` x `height` bitmap
/// `data`: the bitmap's pixel at the same row and column, or 0 outside the bitmap or
/// past the rows that `data` holds in full.
pub open spec fn square_texel(k: int, size: int, width: int, height: int, data: Seq<u8>) -> u8 {
    let row = k / size;
    let col = k % size;
    if row < height && col < width && (row + 1) * width <= data.len() {
        data[row * width + col]
    } else {
        0u8
    }
}

/// Lays the rows of a `width` x `height` glyph bitmap `data` into a zeroed square
/// texture `size` x `size`, `size` being the larger side. Rows that `data` is too
/// short to hold stay zero.
pub fn square_glyph_texture(width: usize, height: usize, data: &Vec<u8>) -> (r: (Vec<u8>, usize))
    requires
        width * width <= usize::MAX,
        height * height <= usize::MAX,
    ensures
        r.1 == (if width > height {
            width
        } else {
            height
        }),
        r.0@.len() == r.1 * r.1,
        forall|k: int|
            0 <= k < r.0@.len() ==> #[trigger] r.0@[k] == square_texel(k, r.1 as int, width as int, height as int, data@),
{
    let size = if width > height {
        width
    } else {
        height
    };
    let n = size * size;
    let mut sdf_tex: Vec<u8> = Vec::new();
    let mut i: usize = 0;
    while i < n
        invariant
            i <= n,
            sdf_tex@.len() == i,
            forall|k: int| 0 <= k < i ==> sdf_tex@[k] == 0u8,
        decreases n - i,
    {
        sdf_tex.push(0u8);
        i += 1;
    }
    let data_len = data.len();
    proof {
        assert(height * width <= size * size) by (nonlinear_arith)
            requires
                width <= size,
                height <= size,
        ;
    }
    let mut row: usize = 0;
    while row < height
        invariant_except_break
            row <= height,
            row * width <= data_len,
        invariant
            size == (if width > height {
                width
            } else {
                height
            }),
            n == size * size,
            height * width <= n,
            data_len == data@.len(),
            sdf_tex@.len() == n,
            forall|k: int|
                0 <= k < n ==> #[trigger] sdf_tex@[k] == placed_texel(k, size as int, width as int, row as int, 0, data@),
        ensures
            row <= height,
            row * width <= data_len,
            row < height ==> (row + 1) * width > data_len,
        decreases height - row,
    {
        proof {
            assert((row + 1) * width <= height * width) by (nonlinear_arith)
                requires
                    row + 1 <= height,
            ;
            assert((row + 1) * width == row * width + width) by (nonlinear_arith);
        }
        let source_start = row * width;
        let source_end = source_start + width;
        if source_end > data_len {
            break;
        }
        proof {
            assert((row + 1) * size <= size * size) by (nonlinear_arith)
                requires
                    row + 1 <= height,
                    height <= size,
            ;
            assert((row + 1) * size == row * size + size) by (nonlinear_arith);
        }
        let target_start = row * size;
        let mut col: usize = 0;
        while col < width
            invariant
                row < height,
                size == (if width > height {
                    width
                } else {
                    height
                }),
                n == size * size,
                col <= width,
                source_start == row * width,
                source_start + width <= data_len,
                target_start == row * size,
                target_start + size <= n,
                data_len == data@.len(),
                sdf_tex@.len() == n,
                forall|k: int|
                    0 <= k < n ==> #[trigger] sdf_tex@[k] == placed_texel(
                        k,
                        size as int,
                        width as int,
                        row as int,
                        col as int,
                        data@,
                    ),
            decreases width - col,
        {
            let ghost before = sdf_tex@;
            let ghost t = target_start + col;
            sdf_tex.set(target_start + col, data[source_start + col]);
            proof {
                lemma_texel_position(row as int, col as int, size as int);
                assert forall|k: int| 0 <= k < n implies #[trigger] sdf_tex@[k] == placed_texel(
                    k,
                    size as int,
                    width as int,
                    row as int,
                    col + 1,
                    data@,
                ) by {
                    if k != t {
                        assert(before[k] == placed_texel(k, size as int, width as int, row as int, col as int, data@));
                        if k / (size as int) == row as int && k % (size as int) == col as int {
                            vstd::arithmetic::div_mod::lemma_fundamental_div_mod(k, size as int);
                            vstd::arithmetic::mul::lemma_mul_is_commutative(size as int, row as int);
                            assert(k == t);
                        }
                    }
                }
            }
            col += 1;
        }
        proof {
            assert forall|k: int| 0 <= k < n implies #[trigger] sdf_tex@[k] == placed_texel(
                k,
                size as int,
                width as int,
                row + 1,
                0,
                data@,
            ) by {
                assert(sdf_tex@[k] == placed_texel(k, size as int, width as int, row as int, width as int, data@));
            }
            assert((row + 1) * width == row * width + width) by (nonlinear_arith);
        }
        row += 1;
    }
    proof {
        assert forall|k: int| 0 <= k < sdf_tex@.len() implies #[trigger] sdf_tex@[k] == square_texel(
            k,
            size as int,
            width as int,
            height as int,
            data@,
        ) by {
            assert(sdf_tex@[k] == placed_texel(k, size as int, width as int, row as int, 0, data@));
            let r = k / (size as int);
            if r < row {
                assert((r + 1) * width <= row * width) by (nonlinear_arith)
                    requires
                        r + 1 <= row,
                ;
            } else if r < height {
                assert((r + 1) * width >= (row + 1) * width) by (nonlinear_arith)
                    requires
                        r >= row,
                ;
            }
        }
    }
    (sdf_tex, size)
}

/// The texture while rows before `row`, and the first `col` pixels of row `row`,
/// have been copied.
pub open spec fn placed_texel(k: int, size: int, width: int, row: int, col: int, data: Seq<u8>) -> u8 {
    let r = k / size;
    let c = k % size;
    if (r < row && c < width) || (r == row && c < col) {
        data[r * width + c]
    } else {
        0u8
    }
}

proof fn lemma_texel_position(row: int, col: int, size: int)
    requires
        0 <= row,
        0 <= col < size,
    ensures
        (row * size + col) / size == row,
        (row * size + col) % size == col,
{
    vstd::arithmetic::div_mod::lemma_fundamental_div_mod_converse(row * size + col, size, row, col);
}

/// Side of the square atlas cell of a ready-made glyph: its larger side.
pub open spec fn cell_size(info: GlyphInfo) -> usize {
    if info.width > info.height {
        info.width as usize
    } else {
        info.height as usize
    }
}

/// The first position from `i` on at which `ids` holds `face`, or 0 when none does.
pub open spec fn face_position(ids: Seq<FontFaceId>, face: FontFaceId, i: int) -> usize
    decreases ids.len() - i,
{
    if i < 0 || i >= ids.len() {
        0
    } else if ids[i] == face {
        i as usize
    } else {
        face_position(ids, face, i + 1)
    }
}

/// The entry of the ready-made table `cfg` of a face for `c`.
pub open spec fn cfg_entry(cfg: Option<Map<char, GlyphInfo>>, c: char) -> Option<GlyphInfo> {
    match cfg {
        Some(m) => if m.contains_key(c) {
            Some(m[c])
        } else {
            None
        },
        None => None,
    }
}

fn position_of(ids: &Vec<FontFaceId>, face: FontFaceId) -> (r: usize)
    ensures
        r == face_position(ids@, face, 0),
{
    let mut i: usize = 0;
    while i < ids.len()
        invariant
            i <= ids@.len(),
            face_position(ids@, face, 0) == face_position(ids@, face, i as int),
        decreases ids@.len() - i,
    {
        if same_face(ids[i], face) {
            return i;
        }
        i += 1;
    }
    0
}

/// The glyph of `c` in the ready-made face `font_face_id` of font `font_id`.
///
/// `cfg` is the face's table of distance-field entries by character (`None` when
/// the face has no table) and `has_metrics` whether the face's metrics are known.
/// A glyph made before for the same face and character is given back. Otherwise a
/// square cell as large as the glyph's larger side is placed in `index_packer`; the
/// new glyph gets a fresh id, is recorded under (face, code point) and with its
/// face, and, unless `c` is whitespace, waits in `wait_list` to be drawn. `None`
/// when the face lacks the table, the entry or the metrics, or the atlas is full;
/// then no glyph is recorded.
pub fn glyph_id(
    cfg: Option<&XHashMap<char, GlyphInfo>>,
    has_metrics: bool,
    glyph_id_map: &mut XHashMap<(FontFaceId, u32), GlyphId>,
    glyphs: &mut GlyphTable,
    index_packer: &mut TextPacker,
    static_glyph_faces: &mut XHashMap<GlyphId, FontFaceId>,
    font_id: FontId,
    font_ids: &Vec<FontFaceId>,
    wait_list: &mut Vec<GlyphId>,
    font_face_id: FontFaceId,
    c: char,
) -> (r: Option<GlyphId>)
    requires
        old(index_packer).wf(),
        forall|s: usize| s <= 255 ==> #[trigger] old(index_packer).can_alloc(s, s),
        glyph_count(*old(glyphs)) < 0xFFFF_FFFE,
    ensures
        final(index_packer).wf(),
        final(index_packer).atlas_width() == old(index_packer).atlas_width(),
        final(index_packer).atlas_height() == old(index_packer).atlas_height(),
        ({
            let key = (font_face_id, c as u32);
            let entry = cfg_entry(
                match cfg {
                    Some(m) => Some(m@),
                    None => None,
                },
                c,
            );
            let unchanged_tables = final(glyph_id_map)@ == old(glyph_id_map)@ && glyph_slots(
                *final(glyphs),
            ) == glyph_slots(*old(glyphs)) && final(static_glyph_faces)@ == old(
                static_glyph_faces,
            )@ && final(wait_list)@ == old(wait_list)@;
            if entry is None || !has_metrics {
                &&& r is None
                &&& unchanged_tables
                &&& *final(index_packer) == *old(index_packer)
            } else if old(glyph_id_map)@.contains_key(key) {
                &&& r == Some(old(glyph_id_map)@[key])
                &&& unchanged_tables
                &&& *final(index_packer) == *old(index_packer)
            } else {
                let info = entry->0;
                let size = cell_size(info);
                let (slot, lines2, v2) = old(index_packer).alloc_outcome(size, size);
                &&& final(index_packer).lines() == lines2
                &&& final(index_packer).bottom() == v2
                &&& match slot {
                    None => r is None && unchanged_tables,
                    Some(p) => {
                        let id = r->0;
                        let desc = GlyphDesc {
                            font_id,
                            char: c,
                            glyph_index: c as u32,
                            font_face_index: face_position(font_ids@, font_face_id, 0),
                            x: p.x,
                            y: p.y,
                            info,
                        };
                        &&& r is Some
                        &&& !glyph_slots(*old(glyphs)).contains_key(id)
                        &&& glyph_slots(*final(glyphs)) == glyph_slots(*old(glyphs)).insert(id, desc)
                        &&& final(glyph_id_map)@ == old(glyph_id_map)@.insert(key, id)
                        &&& final(static_glyph_faces)@ == old(static_glyph_faces)@.insert(id, font_face_id)
                        &&& final(wait_list)@ == (if spec_is_whitespace(c) {
                            old(wait_list)@
                        } else {
                            old(wait_list)@.push(id)
                        })
                    },
                }
            }
        }),
{
    let table = match cfg {
        Some(t) => t,
        None => return None,
    };
    let info = match glyph_info_get(table, c) {
        Some(v) => v,
        None => return None,
    };
    if !has_metrics {
        return None;
    }
    let key = (font_face_id, c as u32);
    if let Some(id) = face_glyph_get(glyph_id_map, key) {
        return Some(id);
    }
    let size: usize = if info.width > info.height {
        info.width as usize
    } else {
        info.height as usize
    };
    let offset = match index_packer.allocate(size, size) {
        Some(p) => p,
        None => return None,
    };
    let desc = GlyphDesc {
        font_id,
        char: c,
        glyph_index: c as u32,
        font_face_index: position_of(font_ids, font_face_id),
        x: offset.x,
        y: offset.y,
        info,
    };
    let id = glyphs.slots_insert(desc);
    if !char_is_whitespace(c) {
        wait_list.push(id);
    }
    face_glyph_insert(glyph_id_map, key, id);
    glyph_face_insert(static_glyph_faces, id, font_face_id);
    Some(id)
}

/// Law: the square cell of a ready-made glyph holds the whole glyph: its side is at
/// least the glyph's width and at least its height, and is one of the two.
pub proof fn lemma_cell_holds_glyph(info: GlyphInfo)
    ensures
        cell_size(info) >= info.width,
        cell_size(info) >= info.height,
        cell_size(info) == info.width || cell_size(info) == info.height,
{
}

/// Law: the face position recorded for a glyph is the first position of the face
/// in the font's list (0 when the face is not in it).
pub proof fn lemma_face_position_first(ids: Seq<FontFaceId>, face: FontFaceId, i: int)
    requires
        0 <= i,
        ids.len() <= usize::MAX,
    ensures
        ({
            let k = face_position(ids, face, i) as int;
            ||| (i <= k < ids.len() && ids[k] == face && forall|j: int| i <= j < k ==> ids[j] != face)
            ||| (k == 0 && forall|j: int| i <= j < ids.len() ==> ids[j] != face)
        }),
    decreases ids.len() - i,
{
    if i < ids.len() && ids[i] != face {
        lemma_face_position_first(ids, face, i + 1);
        let k = face_position(ids, face, i + 1) as int;
        assert forall|j: int| i <= j < k implies ids[j] != face by {
            if j > i {
            }
        }
        if forall|j: int| i + 1 <= j < ids.len() ==> ids[j] != face {
            assert forall|j: int| i <= j < ids.len() implies ids[j] != face by {
                if j > i {
                }
            }
        }
    }
}

} // verus!
