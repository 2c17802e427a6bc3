//! Signed distance field glyphs computed from font outlines.
use pi_hash::XHashMap;
use vstd::prelude::*;

use super::font::{FontFaceId, FontId, GlyphId};
use super::glyph_table::{
    glyph_count, glyph_slots, outline_glyph_get, outline_glyph_insert, GlyphDesc, GlyphTable,
};
use super::sdf_table::GlyphInfo;
use super::text_pack::TextPacker;
use super::text_split::{char_is_whitespace, spec_is_whitespace};

verus! {

/// Font size at which distance fields are generated.
pub const FONT_SIZE: usize = 32;

/// The font size of the distance field used to draw text of size `_font_size`.
pub fn sdf_font_size(_font_size: usize) -> (r: usize)
    ensures
        r == FONT_SIZE,
{
    FONT_SIZE
}

/// What a font face says of a character: the glyph index of the character, of
/// `□` and of the space, 0 where the face has no such glyph.
#[derive(Debug, Clone, Copy)]
pub struct FaceIndexes {
    pub of_char: u16,
    pub of_box: u16,
    pub of_space: u16,
}

/// The glyph drawn for `c`: `c` itself when the face has it, else `□`, else the
/// space; with its glyph index (0 when the face has none of them).
pub open spec fn pick_glyph(c: char, idx: FaceIndexes) -> (char, u16) {
    if idx.of_char > 0 {
        (c, idx.of_char)
    } else if idx.of_box > 0 {
        ('□', idx.of_box)
    } else {
        (' ', idx.of_space)
    }
}

/// The outcome of looking a character up in the outline glyphs of a font.
#[derive(Debug, Clone, Copy)]
pub enum OutlineLookup {
    /// No face of the font is loaded.
    NoFace,
    /// The first loaded face has neither the character, `□` nor a space.
    NoGlyph,
    /// The glyph was made before.
    Found(GlyphId),
    /// A glyph is to be made for `ch` (the character or its stand-in), glyph
    /// `glyph_index` of the face.
    Missing { ch: char, glyph_index: u16 },
}

/// What looking `c` up gives in the map `m` from (face, glyph index, distance
/// range) to glyph.
pub open spec fn outline_outcome(
    m: Map<(FontFaceId, u16, u32), GlyphId>,
    face: Option<(FontFaceId, FaceIndexes)>,
    pxrange: u32,
    c: char,
) -> OutlineLookup {
    match face {
        None => OutlineLookup::NoFace,
        Some((f, idx)) => {
            let (ch, gi) = pick_glyph(c, idx);
            let key = (f, gi, pxrange);
            if gi == 0 {
                OutlineLookup::NoGlyph
            } else if m.contains_key(key) {
                OutlineLookup::Found(m[key])
            } else {
                OutlineLookup::Missing { ch, glyph_index: gi }
            }
        },
    }
}

/// First step of finding the glyph of `c`: `face` is the first face of the font
/// that is loaded, with what it says of `c` (`None` when no face is loaded), and
/// `pxrange` the distance range of the font. A glyph is known by (face, glyph
/// index, distance range).
pub fn outline_lookup(
    glyph_id_map: &XHashMap<(FontFaceId, u16, u32), GlyphId>,
    face: Option<(FontFaceId, FaceIndexes)>,
    pxrange: u32,
    c: char,
) -> (r: OutlineLookup)
    ensures
        r == outline_outcome(glyph_id_map@, face, pxrange, c),
{
    let (f, idx) = match face {
        None => return OutlineLookup::NoFace,
        Some(v) => v,
    };
    let (ch, gi) = if idx.of_char > 0 {
        (c, idx.of_char)
    } else if idx.of_box > 0 {
        ('□', idx.of_box)
    } else {
        (' ', idx.of_space)
    };
    if gi == 0 {
        return OutlineLookup::NoGlyph;
    }
    match outline_glyph_get(glyph_id_map, (f, gi, pxrange)) {
        Some(id) => OutlineLookup::Found(id),
        None => OutlineLookup::Missing { ch, glyph_index: gi },
    }
}

/// The glyph record made for `ch` (glyph `glyph_index`) of font `font_id` before
/// it is placed: no face position yet, at the atlas origin.
pub open spec fn new_outline_glyph(font_id: FontId, ch: char, glyph_index: u16) -> GlyphDesc {
    GlyphDesc {
        font_id,
        char: ch,
        glyph_index: glyph_index as u32,
        font_face_index: usize::MAX,
        x: 0,
        y: 0,
        info: GlyphInfo { ox: 0, oy: 0, width: 0, height: 0, advance: 0 },
    }
}

/// What recording a missing glyph under the new id `id` does (see
/// [`outline_insert`]): from the map `m0`, glyphs `g0`, packer `p0` and waiting
/// list `w0` to `m1`, `g1`, `p1`, `w1`, with result `r`.
pub open spec fn outline_inserted_as(
    m0: Map<(FontFaceId, u16, u32), GlyphId>,
    m1: Map<(FontFaceId, u16, u32), GlyphId>,
    g0: GlyphTable,
    g1: GlyphTable,
    p0: TextPacker,
    p1: TextPacker,
    w0: Seq<GlyphId>,
    w1: Seq<GlyphId>,
    font_id: FontId,
    face: FontFaceId,
    pxrange: u32,
    ch: char,
    glyph_index: u16,
    tex_size: usize,
    r: Option<GlyphId>,
    id: GlyphId,
) -> bool {
    let (slot, lines2, v2) = p0.alloc_outcome(tex_size, tex_size);
    let d0 = new_outline_glyph(font_id, ch, glyph_index);
    &&& p1.wf()
    &&& p1.atlas_width() == p0.atlas_width()
    &&& p1.atlas_height() == p0.atlas_height()
    &&& p1.lines() == lines2
    &&& p1.bottom() == v2
    &&& !glyph_slots(g0).contains_key(id)
    &&& match slot {
        None => {
            &&& r is None
            &&& glyph_slots(g1) == glyph_slots(g0).insert(id, d0)
            &&& m1 == m0
            &&& w1 == w0
        },
        Some(p) => {
            &&& r == Some(id)
            &&& glyph_slots(g1) == glyph_slots(g0).insert(id, GlyphDesc { x: p.x, y: p.y, ..d0 })
            &&& m1 == m0.insert((face, glyph_index, pxrange), id)
            &&& w1 == (if spec_is_whitespace(ch) {
                w0
            } else {
                w0.push(id)
            })
        },
    }
}

/// What recording a missing glyph does, whichever new id it gets.
pub open spec fn outline_inserted(
    m0: Map<(FontFaceId, u16, u32), GlyphId>,
    m1: Map<(FontFaceId, u16, u32), GlyphId>,
    g0: GlyphTable,
    g1: GlyphTable,
    p0: TextPacker,
    p1: TextPacker,
    w0: Seq<GlyphId>,
    w1: Seq<GlyphId>,
    font_id: FontId,
    face: FontFaceId,
    pxrange: u32,
    ch: char,
    glyph_index: u16,
    tex_size: usize,
    r: Option<GlyphId>,
) -> bool {
    exists|id: GlyphId|
        outline_inserted_as(m0, m1, g0, g1, p0, p1, w0, w1, font_id, face, pxrange, ch, glyph_index, tex_size, r, id)
}

/// Second step, for a missing glyph: records a new glyph for `ch` (glyph
/// `glyph_index` of `face`), places a square cell `tex_size` wide for its distance
/// field in `index_packer`, and then, unless `ch` is whitespace, lets it wait to
/// be drawn, and remembers it under (face, glyph index, distance range). `None`
/// when the atlas is full; the record then stays, unreachable.
pub fn outline_insert(
    glyph_id_map: &mut XHashMap<(FontFaceId, u16, u32), GlyphId>,
    glyphs: &mut GlyphTable,
    index_packer: &mut TextPacker,
    wait_list: &mut Vec<GlyphId>,
    font_id: FontId,
    face: FontFaceId,
    pxrange: u32,
    ch: char,
    glyph_index: u16,
    tex_size: usize,
) -> (r: Option<GlyphId>)
    requires
        old(index_packer).wf(),
        old(index_packer).can_alloc(tex_size, tex_size),
        glyph_count(*old(glyphs)) < 0xFFFF_FFFE,
    ensures
        final(index_packer).wf(),
        final(index_packer).atlas_width() == old(index_packer).atlas_width(),
        final(index_packer).atlas_height() == old(index_packer).atlas_height(),
        outline_inserted(
            old(glyph_id_map)@,
            final(glyph_id_map)@,
            *old(glyphs),
            *final(glyphs),
            *old(index_packer),
            *final(index_packer),
            old(wait_list)@,
            final(wait_list)@,
            font_id,
            face,
            pxrange,
            ch,
            glyph_index,
            tex_size,
            r,
        ),
{
    let d0 = GlyphDesc {
        font_id,
        char: ch,
        glyph_index: glyph_index as u32,
        font_face_index: usize::MAX,
        x: 0,
        y: 0,
        info: GlyphInfo { ox: 0, oy: 0, width: 0, height: 0, advance: 0 },
    };
    let ghost m0 = glyph_id_map@;
    let ghost g0 = *glyphs;
    let ghost p0 = *index_packer;
    let ghost w0 = wait_list@;
    let id = glyphs.slots_insert(d0);
    let offset = match index_packer.allocate(tex_size, tex_size) {
        Some(p) => p,
        None => {
            assert(outline_inserted_as(m0, glyph_id_map@, g0, *glyphs, p0, *index_packer, w0, wait_list@, font_id, face, pxrange, ch, glyph_index, tex_size, None, id));
            return None;
        },
    };
    glyphs.slots_set(id, GlyphDesc { x: offset.x, y: offset.y, ..d0 });
    if !char_is_whitespace(ch) {
        wait_list.push(id);
    }
    outline_glyph_insert(glyph_id_map, (face, glyph_index, pxrange), id);
    assert(glyph_slots(*glyphs) =~= glyph_slots(g0).insert(id, GlyphDesc { x: offset.x, y: offset.y, ..d0 }));
    assert(outline_inserted_as(m0, glyph_id_map@, g0, *glyphs, p0, *index_packer, w0, wait_list@, font_id, face, pxrange, ch, glyph_index, tex_size, Some(id), id));
    Some(id)
}

/// The glyph of `c` for a font whose first loaded face is `face` (with what it
/// says of `c`) and whose distance range is `pxrange`: a glyph made before is given
/// back; a missing one is recorded and placed in a cell `tex_size` wide (the size
/// of its distance field); `null_id` stands for a character the face cannot show
/// at all; `None` when no face is loaded or the atlas is full.
pub fn outline_glyph_id(
    glyph_id_map: &mut XHashMap<(FontFaceId, u16, u32), GlyphId>,
    glyphs: &mut GlyphTable,
    index_packer: &mut TextPacker,
    wait_list: &mut Vec<GlyphId>,
    font_id: FontId,
    face: Option<(FontFaceId, FaceIndexes)>,
    pxrange: u32,
    c: char,
    tex_size: usize,
    null_id: GlyphId,
) -> (r: Option<GlyphId>)
    requires
        old(index_packer).wf(),
        old(index_packer).can_alloc(tex_size, tex_size),
        glyph_count(*old(glyphs)) < 0xFFFF_FFFE,
    ensures
        match outline_outcome(old(glyph_id_map)@, face, pxrange, c) {
            OutlineLookup::Missing { ch, glyph_index } => outline_inserted(
                old(glyph_id_map)@,
                final(glyph_id_map)@,
                *old(glyphs),
                *final(glyphs),
                *old(index_packer),
                *final(index_packer),
                old(wait_list)@,
                final(wait_list)@,
                font_id,
                face.unwrap().0,
                pxrange,
                ch,
                glyph_index,
                tex_size,
                r,
            ),
            other => {
                &&& r == (match other {
                    OutlineLookup::Found(id) => Some(id),
                    OutlineLookup::NoGlyph => Some(null_id),
                    _ => None,
                })
                &&& final(glyph_id_map)@ == old(glyph_id_map)@
                &&& *final(glyphs) == *old(glyphs)
                &&& *final(index_packer) == *old(index_packer)
                &&& final(wait_list)@ == old(wait_list)@
            },
        },
{
    match outline_lookup(glyph_id_map, face, pxrange, c) {
        OutlineLookup::NoFace => None,
        OutlineLookup::NoGlyph => Some(null_id),
        OutlineLookup::Found(id) => Some(id),
        OutlineLookup::Missing { ch, glyph_index } => {
            let f = match face {
                Some((f, _)) => f,
                None => return None,
            };
            outline_insert(glyph_id_map, glyphs, index_packer, wait_list, font_id, f, pxrange, ch, glyph_index, tex_size)
        },
    }
}

/// Law: once a glyph is recorded for `c`, looking `c` up again with the same face
/// and distance range gives that glyph.
pub proof fn lemma_outline_lookup_cached(
    m: Map<(FontFaceId, u16, u32), GlyphId>,
    f: FontFaceId,
    idx: FaceIndexes,
    pxrange: u32,
    c: char,
    id: GlyphId,
)
    requires
        pick_glyph(c, idx).1 != 0,
    ensures
        outline_outcome(m.insert((f, pick_glyph(c, idx).1, pxrange), id), Some((f, idx)), pxrange, c)
            == OutlineLookup::Found(id),
{
}

/// Law: a face that has a glyph for the character draws the character itself;
/// `□` stands in only when it has none, and the space only when it has neither.
pub proof fn lemma_character_drawn_first(c: char, idx: FaceIndexes)
    ensures
        idx.of_char > 0 ==> pick_glyph(c, idx).0 == c && pick_glyph(c, idx).1 == idx.of_char,
        idx.of_char == 0 && idx.of_box > 0 ==> pick_glyph(c, idx).0 == '□' && pick_glyph(c, idx).1
            == idx.of_box,
        idx.of_char == 0 && idx.of_box == 0 ==> pick_glyph(c, idx).0 == ' ' && pick_glyph(c, idx).1
            == idx.of_space,
{
}

/// Law: looking up a character that the face has, and that has no glyph yet, asks
/// for a glyph of the character itself, with the face's index for it.
pub proof fn lemma_missing_character_is_itself(
    m: Map<(FontFaceId, u16, u32), GlyphId>,
    f: FontFaceId,
    idx: FaceIndexes,
    pxrange: u32,
    c: char,
)
    requires
        idx.of_char > 0,
        !m.contains_key((f, idx.of_char, pxrange)),
    ensures
        outline_outcome(m, Some((f, idx)), pxrange, c) == (OutlineLookup::Missing {
            ch: c,
            glyph_index: idx.of_char,
        }),
{
}

} // verus!
