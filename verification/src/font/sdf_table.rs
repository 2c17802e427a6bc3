//! Distance field glyphs read from a pre-built table.
use pi_atom::Atom;
use pi_hash::XHashMap;
use vstd::prelude::*;

use super::font::{AwaitInfo, FontFaceId, FontFamilyId, FontId, GlyphId, Size};
use super::glyph_table::{
    face_cfg_get, face_cfg_insert, family_glyph_get, family_glyph_insert, family_glyph_remove,
    glyph_count, glyph_info_get, glyph_slots, GlyphDesc, GlyphTable,
};
use super::text_pack::{alloc_from, LineSlot, TextPacker};

verus! {

/// A glyph of a pre-built distance field table.
#[derive(Debug, Clone, Copy, Default)]
pub struct GlyphInfo {
    /// Offset of the visible part from the left of the glyph box, scaled.
    pub ox: i16,
    /// Offset of the visible part from the top of the glyph box, scaled.
    pub oy: i16,
    pub width: u8,
    pub height: u8,
    /// Advance in pixels.
    pub advance: u8,
}

/// Position in a block `block_width` pixels wide of pixel (`row`, `col`) of a glyph
/// drawn at column `x`.
pub open spec fn block_cell(x: int, block_width: int, row: int, col: int) -> int {
    x + col + block_width * row
}

proof fn lemma_cell_bound(x: int, bw: int, cols: int, rows: int, row: int, col: int)
    requires
        0 <= row < rows,
        0 <= col < cols,
        0 <= bw,
    ensures
        block_cell(x, bw, row, col) <= block_cell(x, bw, rows - 1, cols - 1),
{
    assert(bw * row <= bw * (rows - 1)) by (nonlinear_arith)
        requires
            0 <= bw,
            row <= rows - 1,
    ;
}

proof fn lemma_src_bound(w: int, cols: int, rows: int, row: int, col: int)
    requires
        0 <= row < rows,
        0 <= col < cols,
        0 <= w,
    ensures
        col + row * w <= (cols - 1) + (rows - 1) * w,
{
    assert(row * w <= (rows - 1) * w) by (nonlinear_arith)
        requires
            0 <= w,
            row <= rows - 1,
    ;
}

/// Two different pixels of a glyph no wider than the block land on different cells.
proof fn lemma_cells_distinct(x: int, bw: int, cols: int, r1: int, c1: int, r2: int, c2: int)
    requires
        cols <= bw,
        0 <= c1 < cols,
        0 <= c2 < cols,
        0 <= r1,
        0 <= r2,
        r1 != r2 || c1 != c2,
    ensures
        block_cell(x, bw, r1, c1) != block_cell(x, bw, r2, c2),
{
    if r1 < r2 {
        assert(bw * r2 >= bw * r1 + bw) by (nonlinear_arith)
            requires
                r1 < r2,
                0 <= bw,
        ;
    } else if r2 < r1 {
        assert(bw * r1 >= bw * r2 + bw) by (nonlinear_arith)
            requires
                r2 < r1,
                0 <= bw,
        ;
    }
}

pub open spec fn min_usize(a: usize, b: usize) -> usize {
    if a < b {
        a
    } else {
        b
    }
}

/// Whether a glyph `glyph_width` x `glyph_height` (clipped to the block) drawn at
/// column `x` of a `block_width` x `block_height` block stays within `buffer_len`
/// bytes, and its clipped pixels within `bin_len` bytes.
pub open spec fn glyph_copy_in_bounds(
    buffer_len: int,
    block_width: usize,
    block_height: usize,
    x: usize,
    glyph_width: usize,
    glyph_height: usize,
    bin_len: int,
) -> bool {
    let cols = min_usize(glyph_width, block_width) as int;
    let rows = min_usize(glyph_height, block_height) as int;
    cols > 0 && rows > 0 ==> {
        &&& block_cell(x as int, block_width as int, rows - 1, cols - 1) < buffer_len
        &&& (cols - 1) + (rows - 1) * glyph_width < bin_len
    }
}

/// Copies the pixels of a glyph bitmap `bin` (rows of `glyph_width` bytes) into a
/// block of rows of `block_width` bytes, at column `x` of the first row, clipping
/// the glyph to the block's width and height.
pub fn copy_glyph_rows(
    buffer: &mut Vec<u8>,
    block_width: usize,
    block_height: usize,
    x: usize,
    glyph_width: usize,
    glyph_height: usize,
    bin: &Vec<u8>,
)
    requires
        glyph_copy_in_bounds(
            old(buffer)@.len() as int,
            block_width,
            block_height,
            x,
            glyph_width,
            glyph_height,
            bin@.len() as int,
        ),
    ensures
        final(buffer)@.len() == old(buffer)@.len(),
        ({
            let cols = min_usize(glyph_width, block_width) as int;
            let rows = min_usize(glyph_height, block_height) as int;
            &&& forall|row: int, col: int|
                0 <= row < rows && 0 <= col < cols ==> final(buffer)@[block_cell(
                    x as int,
                    block_width as int,
                    row,
                    col,
                )] == bin@[col + row * glyph_width]
            &&& forall|k: int|
                0 <= k < final(buffer)@.len() && (forall|row: int, col: int|
                    0 <= row < rows && 0 <= col < cols ==> k != block_cell(
                        x as int,
                        block_width as int,
                        row,
                        col,
                    )) ==> final(buffer)@[k] == old(buffer)@[k]
        }),
{
    let min_width = if glyph_width < block_width {
        glyph_width
    } else {
        block_width
    };
    let min_height = if glyph_height < block_height {
        glyph_height
    } else {
        block_height
    };
    let ghost cols = min_width as int;
    let ghost rows = min_height as int;
    let ghost bw = block_width as int;
    let ghost xx = x as int;
    let ghost gw = glyph_width as int;
    let ghost len = buffer@.len() as int;
    let bin_len = bin.len();
    let buf_len = buffer.len();
    let mut i: usize = 0;
    while i < min_height
        invariant
            i <= min_height,
            cols == min_width,
            min_width == min_usize(glyph_width, block_width),
            min_height == min_usize(glyph_height, block_height),
            rows == min_height,
            bw == block_width,
            xx == x,
            gw == glyph_width,
            bin_len == bin@.len(),
            buf_len == len,
            cols <= bw,
            buffer@.len() == len,
            len == old(buffer)@.len(),
            glyph_copy_in_bounds(len, block_width, block_height, x, glyph_width, glyph_height, bin@.len() as int),
            forall|row: int, col: int|
                0 <= row < i && 0 <= col < cols ==> buffer@[block_cell(xx, bw, row, col)]
                    == bin@[col + row * gw],
            forall|k: int|
                0 <= k < len && (forall|row: int, col: int|
                    0 <= row < i && 0 <= col < cols ==> k != block_cell(xx, bw, row, col))
                    ==> buffer@[k] == old(buffer)@[k],
        decreases min_height - i,
    {
        let mut j: usize = 0;
        while j < min_width
            invariant
                i < min_height,
                j <= min_width,
                cols == min_width,
            min_width == min_usize(glyph_width, block_width),
            min_height == min_usize(glyph_height, block_height),
                rows == min_height,
                bw == block_width,
                xx == x,
                gw == glyph_width,
                bin_len == bin@.len(),
            buf_len == len,
                cols <= bw,
                buffer@.len() == len,
                len == old(buffer)@.len(),
                glyph_copy_in_bounds(len, block_width, block_height, x, glyph_width, glyph_height, bin@.len() as int),
                forall|row: int, col: int|
                    (0 <= row < i && 0 <= col < cols) || (row == i && 0 <= col < j)
                        ==> buffer@[block_cell(xx, bw, row, col)] == bin@[col + row * gw],
                forall|k: int|
                    0 <= k < len && (forall|row: int, col: int|
                        (0 <= row < i && 0 <= col < cols) || (row == i && 0 <= col < j) ==> k
                            != block_cell(xx, bw, row, col)) ==> buffer@[k] == old(buffer)@[k],
            decreases min_width - j,
        {
            proof {
                lemma_cell_bound(xx, bw, cols, rows, i as int, j as int);
                lemma_src_bound(gw, cols, rows, i as int, j as int);
                assert(block_width * i <= block_width * (min_height - 1)) by (nonlinear_arith)
                    requires
                        i <= min_height - 1,
                ;
                assert(i * glyph_width <= (min_height - 1) * glyph_width) by (nonlinear_arith)
                    requires
                        i <= min_height - 1,
                ;
                assert(min_usize(glyph_width, block_width) as int == cols);
                assert(min_usize(glyph_height, block_height) as int == rows);
                assert(cols > 0 && rows > 0);
                assert((cols - 1) + (rows - 1) * gw < bin@.len());
                assert(block_cell(xx, bw, rows - 1, cols - 1) < len);
                assert(len <= usize::MAX);
                assert(j + i * glyph_width < bin_len);
            }
            let src_offset = j + i * glyph_width;
            let dst_offset = x + j + block_width * i;
            let ghost cell = block_cell(xx, bw, i as int, j as int);
            assert(dst_offset == cell);
            let ghost before = buffer@;
            buffer.set(dst_offset, bin[src_offset]);
            proof {
                assert forall|row: int, col: int|
                    (0 <= row < i && 0 <= col < cols) || (row == i && 0 <= col < j + 1) implies buffer@[block_cell(
                    xx,
                    bw,
                    row,
                    col,
                )] == bin@[col + row * gw] by {
                    if row == i && col == j {
                    } else {
                        lemma_cells_distinct(xx, bw, cols, row, col, i as int, j as int);
                        lemma_cell_bound(xx, bw, cols, rows, row, col);
                        assert(before[block_cell(xx, bw, row, col)] == bin@[col + row * gw]);
                    }
                }
            }
            j += 1;
        }
        i += 1;
    }
}

/// What a glyph lookup of a distance-field table reads and changes: the map from
/// (family, character) to glyph, the glyphs, the waiting glyphs of the font, the
/// room they take (width, height), and the open lines and bottom of the atlas.
pub type SdfCacheState = (
    Map<(FontFamilyId, char), GlyphId>,
    Map<GlyphId, GlyphDesc>,
    Seq<GlyphId>,
    (int, int),
    Map<usize, LineSlot>,
    int,
);

/// The entry for `c` of the first face, from position `i` of `ids` on, whose table
/// has one, with that face's position.
pub open spec fn find_info(
    cfgs: Map<FontFaceId, Map<char, GlyphInfo>>,
    ids: Seq<FontFaceId>,
    c: char,
    i: int,
) -> Option<(GlyphInfo, usize)>
    decreases ids.len() - i,
{
    if i < 0 || i >= ids.len() {
        None
    } else if cfgs.contains_key(ids[i]) && cfgs[ids[i]].contains_key(c) {
        Some((cfgs[ids[i]][c], i as usize))
    } else {
        find_info(cfgs, ids, c, i + 1)
    }
}

/// A glyph just made for `c` of font `f`, before its entry is known.
pub open spec fn blank_glyph(f: FontId, c: char) -> GlyphDesc {
    GlyphDesc {
        font_id: f,
        char: c,
        glyph_index: c as u32,
        font_face_index: 0,
        x: 0,
        y: 0,
        info: GlyphInfo { ox: 0, oy: 0, width: 0, height: 0, advance: 0 },
    }
}

/// One lookup of `c` without falling back to another character; a new glyph gets
/// the id `fresh`. Gives the result, the state after it, and whether no face has
/// an entry for `c`.
pub open spec fn lookup_step(
    s: SdfCacheState,
    cfgs: Map<FontFaceId, Map<char, GlyphInfo>>,
    ids: Seq<FontFaceId>,
    family: FontFamilyId,
    f: FontId,
    atlas_width: usize,
    atlas_height: usize,
    c: char,
    fresh: GlyphId,
) -> (Option<GlyphId>, SdfCacheState, bool) {
    let (m, slots, wait, size, lines, bottom) = s;
    let key = (family, c);
    if m.contains_key(key) {
        (Some(m[key]), s, false)
    } else {
        let m1 = m.insert(key, fresh);
        let d0 = blank_glyph(f, c);
        match find_info(cfgs, ids, c, 0) {
            None => (None, (m1, slots.insert(fresh, d0), wait, size, lines, bottom), true),
            Some((gi, index)) => {
                let d1 = GlyphDesc { font_face_index: index, info: gi, ..d0 };
                let wait1 = wait.push(fresh);
                let (p, lines2, v2) = alloc_from(lines, bottom, atlas_width, atlas_height, gi.width as usize, gi.height as usize);
                match p {
                    None => (None, (m1, slots.insert(fresh, d1), wait1, size, lines2, v2), false),
                    Some(pt) => (
                        Some(fresh),
                        (
                            m1,
                            slots.insert(fresh, GlyphDesc { x: pt.x, y: pt.y, ..d1 }),
                            wait1.push(fresh),
                            (size.0 + gi.width, size.1 + gi.height),
                            lines2,
                            v2,
                        ),
                        false,
                    ),
                }
            },
        }
    }
}

/// Whether `fresh` is a usable id for a lookup of `c` from `s`: it is one no glyph
/// has, unless the lookup makes no glyph.
pub open spec fn fresh_for(s: SdfCacheState, family: FontFamilyId, c: char, fresh: GlyphId) -> bool {
    s.0.contains_key((family, c)) || !s.1.contains_key(fresh)
}

/// The lookup of `c` with its fallback: a character no face has is shown as `□`
/// (the default glyph `default` when no face has `□` either), and when that fails
/// too its entry is dropped. `fresh1` and `fresh2` are the ids new glyphs get.
pub open spec fn glyph_lookup(
    s: SdfCacheState,
    cfgs: Map<FontFaceId, Map<char, GlyphInfo>>,
    ids: Seq<FontFaceId>,
    family: FontFamilyId,
    f: FontId,
    atlas_width: usize,
    atlas_height: usize,
    default: Option<GlyphId>,
    c: char,
    fresh1: GlyphId,
    fresh2: GlyphId,
) -> (Option<GlyphId>, SdfCacheState) {
    let (r1, s1, missing) = lookup_step(s, cfgs, ids, family, f, atlas_width, atlas_height, c, fresh1);
    if !missing {
        (r1, s1)
    } else if c == '□' {
        (default, s1)
    } else {
        let (rb, sb, missing_b) = lookup_step(s1, cfgs, ids, family, f, atlas_width, atlas_height, '□', fresh2);
        let rb2 = if missing_b {
            default
        } else {
            rb
        };
        let (m, slots, wait, size, lines, bottom) = sb;
        match rb2 {
            Some(id) => (Some(id), (m.insert((family, c), id), slots, wait, size, lines, bottom)),
            None => (None, (m.remove((family, c)), slots, wait, size, lines, bottom)),
        }
    }
}

/// The character shown for characters that no face has: its entry, the name of its
/// font, the character, its face and its glyph.
pub struct DefaultChar {
    pub info: GlyphInfo,
    pub name: Atom,
    pub char: char,
    pub face: FontFaceId,
    pub glyph_id: GlyphId,
}

/// Glyphs of fonts whose distance fields come from ready-made tables, and the atlas
/// they are placed in.
pub struct SdfTable {
    /// The table of each face: its entries by character.
    pub fonts_glyph: XHashMap<FontFaceId, XHashMap<char, GlyphInfo>>,
    /// The character shown when no face has a character nor `□`, once it is known.
    pub default_char: Option<DefaultChar>,
    pub glyph_id_map: XHashMap<(FontFamilyId, char), GlyphId>,
    pub glyphs: GlyphTable,
    pub text_packer: TextPacker,
}

impl SdfTable {
    /// The glyph of the default character, once it is known.
    pub open spec fn default_glyph(&self) -> Option<GlyphId> {
        match self.default_char {
            Some(d) => Some(d.glyph_id),
            None => None,
        }
    }

    /// The glyph of the default character, once it is known.
    pub fn default_glyph_id(&self) -> (r: Option<GlyphId>)
        ensures
            r == self.default_glyph(),
    {
        match &self.default_char {
            Some(d) => Some(d.glyph_id),
            None => None,
        }
    }

    /// Makes `c` of face `font_id`, drawn as glyph `glyph_id`, the default
    /// character, when the face's table has an entry for `c`; otherwise nothing
    /// changes.
    pub fn add_default_char(&mut self, font_id: FontFaceId, glyph_id: GlyphId, name: Atom, c: char)
        ensures
            final(self).default_char == (if old(self).cfgs().contains_key(font_id)
                && old(self).cfgs()[font_id].contains_key(c) {
                Some(
                    DefaultChar {
                        info: old(self).cfgs()[font_id][c],
                        name,
                        char: c,
                        face: font_id,
                        glyph_id,
                    },
                )
            } else {
                old(self).default_char
            }),
            final(self).fonts_glyph@ == old(self).fonts_glyph@,
            final(self).glyph_id_map@ == old(self).glyph_id_map@,
            glyph_slots(final(self).glyphs) == glyph_slots(old(self).glyphs),
            final(self).text_packer == old(self).text_packer,
    {
        if let Some(t) = face_cfg_get(&self.fonts_glyph, font_id) {
            if let Some(info) = glyph_info_get(t, c) {
                self.default_char = Some(DefaultChar { info, name, char: c, face: font_id, glyph_id });
            }
        }
    }

    /// The tables of the faces, by face.
    pub open spec fn cfgs(&self) -> Map<FontFaceId, Map<char, GlyphInfo>> {
        self.fonts_glyph@.map_values(|t: XHashMap<char, GlyphInfo>| t@)
    }

    /// The state a lookup reads and changes, with the waiting glyphs of a font.
    pub open spec fn cache_state(&self, a: AwaitInfo) -> SdfCacheState {
        (
            self.glyph_id_map@,
            glyph_slots(self.glyphs),
            a.wait_list@,
            (a.size.width as int, a.size.height as int),
            self.text_packer.lines(),
            self.text_packer.bottom() as int,
        )
    }

    /// A table with no faces and no glyphs, for an atlas `width` x `height`.
    pub fn new(width: usize, height: usize) -> (r: SdfTable)
        ensures
            r.cfgs() == Map::<FontFaceId, Map<char, GlyphInfo>>::empty(),
            r.default_char is None,
            r.glyph_id_map@ == Map::<(FontFamilyId, char), GlyphId>::empty(),
            glyph_slots(r.glyphs) == Map::<GlyphId, GlyphDesc>::empty(),
            r.text_packer.wf(),
            r.text_packer.atlas_width() == width,
            r.text_packer.atlas_height() == height,
            r.text_packer.bottom() == 0,
            r.text_packer.lines() == Map::<usize, LineSlot>::empty(),
    {
        let r = SdfTable {
            fonts_glyph: XHashMap::default(),
            default_char: None,
            glyph_id_map: XHashMap::default(),
            glyphs: GlyphTable::new(),
            text_packer: TextPacker::new(width, height),
        };
        assert(r.cfgs() =~= Map::<FontFaceId, Map<char, GlyphInfo>>::empty());
        r
    }

    /// Adds the table of the face `font_id`.
    pub fn add_cfg(&mut self, font_id: FontFaceId, glyphs: XHashMap<char, GlyphInfo>)
        ensures
            final(self).cfgs() == old(self).cfgs().insert(font_id, glyphs@),
            final(self).default_char == old(self).default_char,
            final(self).glyph_id_map@ == old(self).glyph_id_map@,
            glyph_slots(final(self).glyphs) == glyph_slots(old(self).glyphs),
            final(self).text_packer == old(self).text_packer,
    {
        let ghost glyphs_view = glyphs@;
        face_cfg_insert(&mut self.fonts_glyph, font_id, glyphs);
        assert(self.cfgs() =~= old(self).cfgs().insert(font_id, glyphs_view));
    }

    fn info(&self, font_ids: &Vec<FontFaceId>, c: char) -> (r: Option<(GlyphInfo, usize)>)
        ensures
            r == find_info(self.cfgs(), font_ids@, c, 0),
    {
        let mut i: usize = 0;
        while i < font_ids.len()
            invariant
                i <= font_ids@.len(),
                find_info(self.cfgs(), font_ids@, c, 0) == find_info(self.cfgs(), font_ids@, c, i as int),
            decreases font_ids@.len() - i,
        {
            if let Some(t) = face_cfg_get(&self.fonts_glyph, font_ids[i]) {
                if let Some(gi) = glyph_info_get(t, c) {
                    return Some((gi, i));
                }
            }
            i += 1;
        }
        None
    }

    /// One lookup of `c` for the font `f` of family `family` whose faces are
    /// `font_ids`, without falling back to another character (see [`lookup_step`]).
    fn lookup_once(
        &mut self,
        f: FontId,
        family: FontFamilyId,
        font_ids: &Vec<FontFaceId>,
        await_info: &mut AwaitInfo,
        c: char,
    ) -> (r: (Option<GlyphId>, bool))
        requires
            old(self).text_packer.wf(),
            forall|w: usize, h: usize|
                w <= 255 && h <= 255 ==> #[trigger] old(self).text_packer.can_alloc(w, h),
            glyph_count(old(self).glyphs) < 0xFFFF_FFFE,
            old(await_info).size.width + 255 <= usize::MAX,
            old(await_info).size.height + 255 <= usize::MAX,
        ensures
            final(self).text_packer.wf(),
            final(self).text_packer.atlas_width() == old(self).text_packer.atlas_width(),
            final(self).text_packer.atlas_height() == old(self).text_packer.atlas_height(),
            final(self).fonts_glyph@ == old(self).fonts_glyph@,
            final(self).default_char == old(self).default_char,
            glyph_count(final(self).glyphs) <= glyph_count(old(self).glyphs) + 1,
            r.1 ==> final(self).text_packer == old(self).text_packer
                && final(await_info).size == old(await_info).size,
            exists|fresh: GlyphId|
                #![trigger lookup_step(old(self).cache_state(*old(await_info)), old(self).cfgs(), font_ids@, family, f, old(self).text_packer.atlas_width(), old(self).text_packer.atlas_height(), c, fresh)]
                fresh_for(old(self).cache_state(*old(await_info)), family, c, fresh) && (
                r.0,
                final(self).cache_state(*final(await_info)),
                r.1,
            ) == lookup_step(
                old(self).cache_state(*old(await_info)),
                old(self).cfgs(),
                font_ids@,
                family,
                f,
                old(self).text_packer.atlas_width(),
                old(self).text_packer.atlas_height(),
                c,
                fresh,
            ),
    {
        let ghost s0 = old(self).cache_state(*old(await_info));
        let ghost aw = old(self).text_packer.atlas_width();
        let ghost ah = old(self).text_packer.atlas_height();
        let key = (family, c);
        if let Some(id) = family_glyph_get(&self.glyph_id_map, key) {
            assert(lookup_step(s0, self.cfgs(), font_ids@, family, f, aw, ah, c, id).1 == s0);
            return (Some(id), false);
        }
        let d0 = GlyphDesc {
            font_id: f,
            char: c,
            glyph_index: c as u32,
            font_face_index: 0,
            x: 0,
            y: 0,
            info: GlyphInfo { ox: 0, oy: 0, width: 0, height: 0, advance: 0 },
        };
        let id = self.glyphs.slots_insert(d0);
        family_glyph_insert(&mut self.glyph_id_map, key, id);
        match self.info(font_ids, c) {
            None => {
                assert(self.cache_state(*await_info) == lookup_step(s0, old(self).cfgs(), font_ids@, family, f, aw, ah, c, id).1);
                (None, true)
            },
            Some((gi, index)) => {
                await_info.wait_list.push(id);
                let d1 = GlyphDesc { font_face_index: index, info: gi, ..d0 };
                self.glyphs.slots_set(id, d1);
                match self.text_packer.allocate(gi.width as usize, gi.height as usize) {
                    None => {
                        assert(self.cache_state(*await_info) == lookup_step(s0, old(self).cfgs(), font_ids@, family, f, aw, ah, c, id).1);
                        (None, false)
                    },
                    Some(p) => {
                        self.glyphs.slots_set(id, GlyphDesc { x: p.x, y: p.y, ..d1 });
                        await_info.size.width = await_info.size.width + gi.width as usize;
                        await_info.size.height = await_info.size.height + gi.height as usize;
                        await_info.wait_list.push(id);
                        assert(self.cache_state(*await_info) == lookup_step(s0, old(self).cfgs(), font_ids@, family, f, aw, ah, c, id).1);
                        (Some(id), false)
                    },
                }
            },
        }
    }

    /// The glyph of `c` for the font `f` of family `family` whose faces are
    /// `font_ids`, the font's waiting glyphs being `await_info`.
    ///
    /// A glyph found before for the family and character is given back. Otherwise
    /// a new glyph is recorded; when a face has an entry for `c`, the glyph waits
    /// to be drawn and gets a cell of the entry's size in the atlas (`None` when
    /// the atlas is full). A character that no face has is shown as `□`, or as the
    /// default glyph when no face has `□` either; when that fails too, the
    /// character's entry is dropped and the answer is `None`.
    pub fn glyph_id(
        &mut self,
        f: FontId,
        family: FontFamilyId,
        font_ids: &Vec<FontFaceId>,
        await_info: &mut AwaitInfo,
        c: char,
    ) -> (r: Option<GlyphId>)
        requires
            old(self).text_packer.wf(),
            forall|w: usize, h: usize|
                w <= 255 && h <= 255 ==> #[trigger] old(self).text_packer.can_alloc(w, h),
            glyph_count(old(self).glyphs) + 2 <= 0xFFFF_FFFE,
            old(await_info).size.width + 255 <= usize::MAX,
            old(await_info).size.height + 255 <= usize::MAX,
        ensures
            final(self).text_packer.wf(),
            final(self).text_packer.atlas_width() == old(self).text_packer.atlas_width(),
            final(self).text_packer.atlas_height() == old(self).text_packer.atlas_height(),
            final(self).fonts_glyph@ == old(self).fonts_glyph@,
            final(self).default_char == old(self).default_char,
            exists|fresh1: GlyphId, fresh2: GlyphId|
                #![trigger glyph_lookup(old(self).cache_state(*old(await_info)), old(self).cfgs(), font_ids@, family, f, old(self).text_packer.atlas_width(), old(self).text_packer.atlas_height(), old(self).default_glyph(), c, fresh1, fresh2)]
                {
                    let s0 = old(self).cache_state(*old(await_info));
                    let aw = old(self).text_packer.atlas_width();
                    let ah = old(self).text_packer.atlas_height();
                    let (_, s1, missing) = lookup_step(s0, old(self).cfgs(), font_ids@, family, f, aw, ah, c, fresh1);
                    &&& fresh_for(s0, family, c, fresh1)
                    &&& (missing && c != '□' ==> fresh_for(s1, family, '□', fresh2))
                    &&& (r, final(self).cache_state(*final(await_info))) == glyph_lookup(
                        s0,
                        old(self).cfgs(),
                        font_ids@,
                        family,
                        f,
                        aw,
                        ah,
                        old(self).default_glyph(),
                        c,
                        fresh1,
                        fresh2,
                    )
                },
    {
        let ghost s0 = old(self).cache_state(*old(await_info));
        let ghost cfgs = old(self).cfgs();
        let ghost aw = old(self).text_packer.atlas_width();
        let ghost ah = old(self).text_packer.atlas_height();
        let (r1, missing) = self.lookup_once(f, family, font_ids, await_info, c);
        let ghost fresh1 = choose|fresh: GlyphId|
            fresh_for(s0, family, c, fresh) && (r1, self.cache_state(*await_info), missing)
                == lookup_step(s0, cfgs, font_ids@, family, f, aw, ah, c, fresh);
        if !missing {
            assert(glyph_lookup(s0, cfgs, font_ids@, family, f, aw, ah, self.default_glyph(), c, fresh1, fresh1).0 == r1);
            return r1;
        }
        if c == '□' {
            assert(glyph_lookup(s0, cfgs, font_ids@, family, f, aw, ah, self.default_glyph(), c, fresh1, fresh1).0 == self.default_glyph());
            return self.default_glyph_id();
        }
        let ghost s1 = self.cache_state(*await_info);
        let (rb, missing_b) = self.lookup_once(f, family, font_ids, await_info, '□');
        let ghost fresh2 = choose|fresh: GlyphId|
            fresh_for(s1, family, '□', fresh) && (rb, self.cache_state(*await_info), missing_b)
                == lookup_step(s1, cfgs, font_ids@, family, f, aw, ah, '□', fresh);
        let rb2 = if missing_b {
            self.default_glyph_id()
        } else {
            rb
        };
        match rb2 {
            Some(id) => {
                family_glyph_insert(&mut self.glyph_id_map, (family, c), id);
                assert(glyph_lookup(s0, cfgs, font_ids@, family, f, aw, ah, self.default_glyph(), c, fresh1, fresh2).1 == self.cache_state(*await_info));
                Some(id)
            },
            None => {
                family_glyph_remove(&mut self.glyph_id_map, (family, c));
                assert(glyph_lookup(s0, cfgs, font_ids@, family, f, aw, ah, self.default_glyph(), c, fresh1, fresh2).1 == self.cache_state(*await_info));
                None
            },
        }
    }
}

/// Law: once a character other than `□` has been given a glyph, looking it up
/// again gives the same glyph and changes nothing.
pub proof fn lemma_lookup_is_cached(
    s: SdfCacheState,
    cfgs: Map<FontFaceId, Map<char, GlyphInfo>>,
    ids: Seq<FontFaceId>,
    family: FontFamilyId,
    f: FontId,
    atlas_width: usize,
    atlas_height: usize,
    default: Option<GlyphId>,
    c: char,
    fresh1: GlyphId,
    fresh2: GlyphId,
    again1: GlyphId,
    again2: GlyphId,
)
    requires
        c != '□',
        glyph_lookup(s, cfgs, ids, family, f, atlas_width, atlas_height, default, c, fresh1, fresh2).0 is Some,
    ensures
        ({
            let (r, s1) = glyph_lookup(s, cfgs, ids, family, f, atlas_width, atlas_height, default, c, fresh1, fresh2);
            glyph_lookup(s1, cfgs, ids, family, f, atlas_width, atlas_height, default, c, again1, again2) == (r, s1)
        }),
{
}

// ---------------------------------------------------------------------------
// Loading the distance fields of waiting glyphs
// ---------------------------------------------------------------------------

#[verifier::external_type_specification]
#[verifier::external_body]
pub struct ExAtom(Atom);

/// The text of an interned string.
pub uninterp spec fn atom_text(a: Atom) -> Seq<char>;

/// `Atom::as_str`: the text of `a`.
#[verifier::external_body]
fn atom_str(a: &Atom) -> (r: &str)
    ensures
        r@ == atom_text(*a),
{
    a.as_str()
}

/// `Atom::clone`: the same interned string.
#[verifier::external_body]
fn atom_clone(a: &Atom) -> (r: Atom)
    ensures
        atom_text(r) == atom_text(*a),
{
    a.clone()
}

fn same_text(a: &str, b: &str) -> (r: bool)
    ensures
        r == (a@ == b@),
{
    let x = super::text_split::collect_chars(a);
    let y = super::text_split::collect_chars(b);
    if x.len() != y.len() {
        return false;
    }
    let mut i: usize = 0;
    while i < x.len()
        invariant
            x@ == a@,
            y@ == b@,
            x@.len() == y@.len(),
            i <= x@.len(),
            forall|k: int| 0 <= k < i ==> x@[k] == y@[k],
        decreases x@.len() - i,
    {
        if x[i] != y[i] {
            return false;
        }
        i += 1;
    }
    assert(a@ =~= b@);
    true
}

/// The family whose table a block of glyphs is drawn from: the face at
/// `face_index` of `font_family`, or `default` one past the last face.
pub fn block_family(font_family: &Vec<Atom>, face_index: usize, default: &Option<Atom>) -> (r: Atom)
    requires
        face_index < font_family@.len() || (face_index == font_family@.len() && default is Some),
    ensures
        atom_text(r) == (if face_index == font_family@.len() {
            atom_text(default->0)
        } else {
            atom_text(font_family@[face_index as int])
        }),
{
    if face_index == font_family.len() {
        match default {
            Some(d) => atom_clone(d),
            None => atom_clone(&font_family[0]),
        }
    } else {
        atom_clone(&font_family[face_index])
    }
}

/// The requests for the glyphs of blocks `families[i]`/`chars[i]` in order: blocks
/// in a row of the same family make one request, their characters joined.
pub open spec fn family_groups(families: Seq<Seq<char>>, chars: Seq<Seq<char>>) -> Seq<(Seq<char>, Seq<char>)>
    decreases families.len(),
{
    if families.len() == 0 {
        Seq::empty()
    } else {
        let n = families.len() - 1;
        let g = family_groups(families.take(n), chars.take(n));
        if g.len() > 0 && g.last().0 == families[n] {
            g.update(g.len() - 1, (families[n], g.last().1 + chars[n]))
        } else {
            g.push((families[n], chars[n]))
        }
    }
}

pub open spec fn group_views(v: Seq<(Atom, Vec<char>)>) -> Seq<(Seq<char>, Seq<char>)> {
    v.map_values(|g: (Atom, Vec<char>)| (atom_text(g.0), g.1@))
}

/// Joins the characters of consecutive blocks of the same family into one request
/// per run of blocks (see [`family_groups`]).
pub fn group_by_family(families: &Vec<Atom>, chars: &Vec<Vec<char>>) -> (r: Vec<(Atom, Vec<char>)>)
    requires
        families@.len() == chars@.len(),
    ensures
        group_views(r@) == family_groups(
            families@.map_values(|a: Atom| atom_text(a)),
            chars@.map_values(|v: Vec<char>| v@),
        ),
{
    let ghost fv = families@.map_values(|a: Atom| atom_text(a));
    let ghost cv = chars@.map_values(|v: Vec<char>| v@);
    let mut out: Vec<(Atom, Vec<char>)> = Vec::new();
    let mut i: usize = 0;
    while i < families.len()
        invariant
            i <= families@.len() == chars@.len(),
            fv == families@.map_values(|a: Atom| atom_text(a)),
            cv == chars@.map_values(|v: Vec<char>| v@),
            group_views(out@) == family_groups(fv.take(i as int), cv.take(i as int)),
        decreases families@.len() - i,
    {
        let ghost before = out@;
        proof {
            assert(fv.take(i + 1).take(i as int) =~= fv.take(i as int));
            assert(cv.take(i + 1).take(i as int) =~= cv.take(i as int));
        }
        let n = out.len();
        let same = n > 0 && same_text(atom_str(&out[n - 1].0), atom_str(&families[i]));
        if same {
            let (fam, mut cs) = out.pop().unwrap();
            let mut k: usize = 0;
            let ghost start = cs@;
            while k < chars[i].len()
                invariant
                    i < chars@.len(),
                    k <= chars@[i as int]@.len(),
                    cs@ == start + chars@[i as int]@.take(k as int),
                decreases chars@[i as int]@.len() - k,
            {
                cs.push(chars[i][k]);
                proof {
                    assert(chars@[i as int]@.take(k + 1) =~= chars@[i as int]@.take(k as int).push(chars@[i as int]@[k as int]));
                }
                k += 1;
            }
            assert(chars@[i as int]@.take(chars@[i as int]@.len() as int) =~= chars@[i as int]@);
            out.push((fam, cs));
            assert(group_views(out@) =~= group_views(before).update(n - 1, (fv[i as int], group_views(before).last().1 + cv[i as int])));
        } else {
            let cs = chars[i].clone();
            out.push((atom_clone(&families[i]), cs));
            assert(group_views(out@) =~= group_views(before).push((fv[i as int], cv[i as int])));
        }
        i += 1;
    }
    assert(fv.take(i as int) =~= fv);
    assert(cv.take(i as int) =~= cv);
    out
}

/// Where a waiting glyph is drawn in its block: its column in the block's first
/// row, and the size of its bitmap.
#[derive(Debug, Clone, Copy)]
pub struct GlyphPlacement {
    pub x: usize,
    pub width: usize,
    pub height: usize,
}

/// Whether byte `k` of a block `bw` x `bh` is a pixel of the glyph `g` (clipped to
/// the block).
pub open spec fn covers(k: int, bw: usize, bh: usize, g: GlyphPlacement) -> bool {
    let d = k - g.x;
    &&& bw > 0
    &&& d >= 0
    &&& d / (bw as int) < min_usize(g.height, bh)
    &&& d % (bw as int) < min_usize(g.width, bw)
}

/// The bitmap byte of `g` that lands on byte `k` of a block `bw` wide.
pub open spec fn covered_value(k: int, bw: usize, g: GlyphPlacement, bin: Seq<u8>) -> u8 {
    let d = k - g.x;
    bin[d % (bw as int) + (d / (bw as int)) * g.width]
}

/// Byte `k` of a block `bw` x `bh` with the glyphs `gs` (bitmaps `bins`) from
/// position `i` on drawn in it: the first of them that covers it gives it, and
/// it is 0 where none does.
pub open spec fn block_pixel(k: int, bw: usize, bh: usize, gs: Seq<GlyphPlacement>, bins: Seq<Seq<u8>>, i: int) -> u8
    decreases gs.len() - i,
{
    if i < 0 || i >= gs.len() {
        0u8
    } else if covers(k, bw, bh, gs[i]) {
        covered_value(k, bw, gs[i], bins[i])
    } else {
        block_pixel(k, bw, bh, gs, bins, i + 1)
    }
}

proof fn lemma_cell_decodes(x: int, bw: int, row: int, col: int)
    requires
        bw > 0,
        0 <= row,
        0 <= col < bw,
    ensures
        (block_cell(x, bw, row, col) - x) / bw == row,
        (block_cell(x, bw, row, col) - x) % bw == col,
{
    assert(bw * row == row * bw) by (nonlinear_arith);
    vstd::arithmetic::div_mod::lemma_fundamental_div_mod_converse(block_cell(x, bw, row, col) - x, bw, row, col);
}

proof fn lemma_decode_cell(k: int, x: int, bw: int)
    requires
        bw > 0,
        k - x >= 0,
    ensures
        k == block_cell(x, bw, (k - x) / bw, (k - x) % bw),
        (k - x) / bw >= 0,
        0 <= (k - x) % bw < bw,
{
    vstd::arithmetic::div_mod::lemma_fundamental_div_mod(k - x, bw);
    assert(bw * ((k - x) / bw) >= 0) by (nonlinear_arith)
        requires
            bw > 0,
            k - x >= 0,
    ;
}

/// The image of a block `block_width` x `block_height` (one byte per pixel) with
/// the waiting glyphs `glyphs` drawn in it from their bitmaps `bins`. Glyphs are
/// drawn from the last to the first, so the first glyph covering a pixel gives it;
/// pixels that no glyph covers are 0.
pub fn block_image(
    block_width: usize,
    block_height: usize,
    glyphs: &Vec<GlyphPlacement>,
    bins: &Vec<Vec<u8>>,
) -> (r: super::font::FontImage)
    requires
        block_width * block_height <= usize::MAX,
        glyphs@.len() == bins@.len(),
        forall|i: int|
            0 <= i < glyphs@.len() ==> glyph_copy_in_bounds(
                block_width * block_height,
                block_width,
                block_height,
                #[trigger] glyphs@[i].x,
                glyphs@[i].width,
                glyphs@[i].height,
                bins@[i]@.len() as int,
            ),
    ensures
        r.width == block_width,
        r.height == block_height,
        r.buffer@.len() == block_width * block_height,
        forall|k: int|
            0 <= k < r.buffer@.len() ==> #[trigger] r.buffer@[k] == block_pixel(
                k,
                block_width,
                block_height,
                glyphs@,
                bins@.map_values(|b: Vec<u8>| b@),
                0,
            ),
{
    let ghost bv = bins@.map_values(|b: Vec<u8>| b@);
    let len = block_width * block_height;
    let mut buffer: Vec<u8> = Vec::with_capacity(len);
    let mut z: usize = 0;
    while z < len
        invariant
            z <= len,
            buffer@.len() == z,
            forall|k: int| 0 <= k < z ==> buffer@[k] == 0u8,
        decreases len - z,
    {
        buffer.push(0u8);
        z += 1;
    }
    let mut index = glyphs.len();
    while index > 0
        invariant
            index <= glyphs@.len() == bins@.len() == bv.len(),
            bv == bins@.map_values(|b: Vec<u8>| b@),
            len == block_width * block_height,
            buffer@.len() == len,
            forall|i: int|
                0 <= i < glyphs@.len() ==> glyph_copy_in_bounds(
                    block_width * block_height,
                    block_width,
                    block_height,
                    #[trigger] glyphs@[i].x,
                    glyphs@[i].width,
                    glyphs@[i].height,
                    bins@[i]@.len() as int,
                ),
            forall|k: int|
                0 <= k < len ==> #[trigger] buffer@[k] == block_pixel(
                    k,
                    block_width,
                    block_height,
                    glyphs@,
                    bv,
                    index as int,
                ),
        decreases index,
    {
        index -= 1;
        let g = glyphs[index];
        let ghost before = buffer@;
        assert(glyph_copy_in_bounds(len as int, block_width, block_height, glyphs@[index as int].x, g.width, g.height, bins@[index as int]@.len() as int));
        copy_glyph_rows(&mut buffer, block_width, block_height, g.x, g.width, g.height, &bins[index]);
        proof {
            let cols = min_usize(g.width, block_width) as int;
            let rows = min_usize(g.height, block_height) as int;
            let bw = block_width as int;
            assert(bv[index as int] == bins@[index as int]@);
            assert forall|k: int| 0 <= k < len implies #[trigger] buffer@[k] == block_pixel(
                k,
                block_width,
                block_height,
                glyphs@,
                bv,
                index as int,
            ) by {
                if covers(k, block_width, block_height, g) {
                    let row = (k - g.x) / bw;
                    let col = (k - g.x) % bw;
                    lemma_decode_cell(k, g.x as int, bw);
                    assert(buffer@[block_cell(g.x as int, bw, row, col)] == bins@[index as int]@[col + row * g.width]);
                } else {
                    assert forall|row: int, col: int|
                        0 <= row < rows && 0 <= col < cols implies k != block_cell(g.x as int, bw, row, col) by {
                        if k == block_cell(g.x as int, bw, row, col) {
                            lemma_cell_decodes(g.x as int, bw, row, col);
                        }
                    }
                    assert(buffer@[k] == before[k]);
                }
            }
        }
    }
    super::font::FontImage { buffer, width: block_width, height: block_height }
}

/// Whether the table of the face at position `j` of `ids` has an entry for `c`.
pub open spec fn face_has(cfgs: Map<FontFaceId, Map<char, GlyphInfo>>, ids: Seq<FontFaceId>, c: char, j: int) -> bool {
    cfgs.contains_key(ids[j]) && cfgs[ids[j]].contains_key(c)
}

/// Law: the entry chosen for a character is that of the first face in the font's
/// list whose table has it: the face at the chosen position has the entry that is
/// given, no face before it has one, and nothing is chosen only when no face from
/// `i` on has one.
pub proof fn lemma_first_face_wins(
    cfgs: Map<FontFaceId, Map<char, GlyphInfo>>,
    ids: Seq<FontFaceId>,
    c: char,
    i: int,
)
    requires
        0 <= i,
        ids.len() <= usize::MAX,
    ensures
        match find_info(cfgs, ids, c, i) {
            Some((gi, k)) => {
                &&& i <= k < ids.len()
                &&& face_has(cfgs, ids, c, k as int)
                &&& gi == cfgs[ids[k as int]][c]
                &&& forall|j: int| i <= j < k ==> !face_has(cfgs, ids, c, j)
            },
            None => forall|j: int| i <= j < ids.len() ==> !face_has(cfgs, ids, c, j),
        },
    decreases ids.len() - i,
{
    if i < ids.len() && !face_has(cfgs, ids, c, i) {
        lemma_first_face_wins(cfgs, ids, c, i + 1);
        match find_info(cfgs, ids, c, i + 1) {
            Some((gi, k)) => {
                assert forall|j: int| i <= j < k implies !face_has(cfgs, ids, c, j) by {
                    if j > i {
                    }
                }
            },
            None => {
                assert forall|j: int| i <= j < ids.len() implies !face_has(cfgs, ids, c, j) by {
                    if j > i {
                    }
                }
            },
        }
    }
}

/// Law: one lookup step. A known character gives its glyph and changes nothing. A
/// new character is recorded under the fresh id; when a face has an entry for it,
/// the new glyph is that character with that entry and face position, it waits to
/// be drawn, and when it is placed it is the answer; when no face has one, the
/// step reports it missing and answers nothing.
pub proof fn lemma_lookup_step_meaning(
    s: SdfCacheState,
    cfgs: Map<FontFaceId, Map<char, GlyphInfo>>,
    ids: Seq<FontFaceId>,
    family: FontFamilyId,
    f: FontId,
    aw: usize,
    ah: usize,
    c: char,
    fresh: GlyphId,
)
    ensures
        ({
            let key = (family, c);
            let (r, s1, missing) = lookup_step(s, cfgs, ids, family, f, aw, ah, c, fresh);
            &&& s.0.contains_key(key) ==> r == Some(s.0[key]) && s1 == s && !missing
            &&& !s.0.contains_key(key) ==> s1.0.contains_key(key) && s1.0[key] == fresh
                && s1.1.contains_key(fresh) && s1.1[fresh].char == c && s1.1[fresh].font_id == f
            &&& !s.0.contains_key(key) ==> (missing <==> find_info(cfgs, ids, c, 0) is None)
            &&& !s.0.contains_key(key) && missing ==> r is None
            &&& !s.0.contains_key(key) && find_info(cfgs, ids, c, 0) is Some ==> {
                &&& s1.1[fresh].info == find_info(cfgs, ids, c, 0).unwrap().0
                &&& s1.1[fresh].font_face_index == find_info(cfgs, ids, c, 0).unwrap().1
                &&& s1.2.len() > s.2.len()
                &&& s1.2[s.2.len() as int] == fresh
                &&& (r is Some ==> r == Some(fresh))
            }
        }),
{
}

/// Law: a character that no face has is drawn as `□` when a face has `□`: the
/// answer, if any, is the glyph recorded for `□`, and the character is recorded
/// under that same glyph.
pub proof fn lemma_missing_char_shown_as_box(
    s: SdfCacheState,
    cfgs: Map<FontFaceId, Map<char, GlyphInfo>>,
    ids: Seq<FontFaceId>,
    family: FontFamilyId,
    f: FontId,
    aw: usize,
    ah: usize,
    default: Option<GlyphId>,
    c: char,
    fresh1: GlyphId,
    fresh2: GlyphId,
)
    requires
        c != '□',
        !s.0.contains_key((family, c)),
        find_info(cfgs, ids, c, 0) is None,
        find_info(cfgs, ids, '□', 0) is Some,
    ensures
        ({
            let (r, s2) = glyph_lookup(s, cfgs, ids, family, f, aw, ah, default, c, fresh1, fresh2);
            &&& r is Some ==> s2.0[(family, c)] == r->0 && s2.0.contains_key((family, '□'))
                && s2.0[(family, '□')] == r->0
            &&& r is None ==> !s2.0.contains_key((family, c))
        }),
{
}

/// The characters of the requests `g`, one request after the other.
pub open spec fn group_chars(g: Seq<(Seq<char>, Seq<char>)>) -> Seq<char> {
    g.map_values(|x: (Seq<char>, Seq<char>)| x.1).flatten()
}

/// Law: grouping requests by family asks for every character of the blocks, in
/// block order, each once; neighbouring requests are for different families, and
/// there is a request exactly when there is a block.
pub proof fn lemma_family_groups(families: Seq<Seq<char>>, chars: Seq<Seq<char>>)
    requires
        families.len() == chars.len(),
    ensures
        group_chars(family_groups(families, chars)) == chars.flatten(),
        forall|i: int|
            0 <= i < family_groups(families, chars).len() - 1 ==> #[trigger] family_groups(families, chars)[i].0
                != family_groups(families, chars)[i + 1].0,
        family_groups(families, chars).len() == 0 <==> families.len() == 0,
        families.len() > 0 ==> family_groups(families, chars).last().0 == families.last(),
    decreases families.len(),
{
    if families.len() == 0 {
        assert(family_groups(families, chars).map_values(|x: (Seq<char>, Seq<char>)| x.1) =~= Seq::<Seq<char>>::empty());
        assert(chars =~= Seq::<Seq<char>>::empty());
    } else {
        let n = families.len() - 1;
        let fa = families.take(n);
        let ca = chars.take(n);
        lemma_family_groups(fa, ca);
        let g = family_groups(fa, ca);
        let gm = g.map_values(|x: (Seq<char>, Seq<char>)| x.1);
        assert(chars =~= ca.push(chars[n]));
        ca.lemma_flatten_push(chars[n]);
        if g.len() > 0 && g.last().0 == families[n] {
            let g2 = g.update(g.len() - 1, (families[n], g.last().1 + chars[n]));
            let gm2 = g2.map_values(|x: (Seq<char>, Seq<char>)| x.1);
            let init = gm.drop_last();
            assert(gm =~= init.push(g.last().1));
            assert(gm2 =~= init.push(g.last().1 + chars[n]));
            init.lemma_flatten_push(g.last().1);
            init.lemma_flatten_push(g.last().1 + chars[n]);
            assert(group_chars(g2) =~= group_chars(g) + chars[n]);
            assert forall|i: int| 0 <= i < g2.len() - 1 implies #[trigger] g2[i].0 != g2[i + 1].0 by {
                assert(g2[i].0 == g[i].0);
                if i + 1 < g2.len() - 1 {
                    assert(g2[i + 1].0 == g[i + 1].0);
                } else {
                    assert(g2[i + 1].0 == g[i + 1].0);
                }
            }
        } else {
            let g2 = g.push((families[n], chars[n]));
            assert(g2.map_values(|x: (Seq<char>, Seq<char>)| x.1) =~= gm.push(chars[n]));
            gm.lemma_flatten_push(chars[n]);
            assert forall|i: int| 0 <= i < g2.len() - 1 implies #[trigger] g2[i].0 != g2[i + 1].0 by {
                if i + 1 < g.len() {
                    assert(g2[i].0 == g[i].0 && g2[i + 1].0 == g[i + 1].0);
                } else {
                    assert(g2[i] == g.last());
                }
            }
        }
    }
}

/// Law: the pixel of a glyph at row `row` and column `col` of its bitmap, inside
/// the block, lands on byte `x + col + row * bw` of the block, which the glyph
/// covers with that very bitmap byte.
pub proof fn lemma_glyph_pixel_lands(bw: usize, bh: usize, g: GlyphPlacement, bin: Seq<u8>, row: int, col: int)
    requires
        bw > 0,
        0 <= row < min_usize(g.height, bh),
        0 <= col < min_usize(g.width, bw),
    ensures
        covers(block_cell(g.x as int, bw as int, row, col), bw, bh, g),
        covered_value(block_cell(g.x as int, bw as int, row, col), bw, g, bin) == bin[col + row * g.width],
{
    lemma_cell_decodes(g.x as int, bw as int, row, col);
}

/// Law: a pixel of a block takes its byte from the first glyph, in list order,
/// that covers it, and is 0 when no glyph covers it.
pub proof fn lemma_first_glyph_gives_pixel(
    k: int,
    bw: usize,
    bh: usize,
    gs: Seq<GlyphPlacement>,
    bins: Seq<Seq<u8>>,
    i: int,
)
    requires
        0 <= i,
    ensures
        forall|j: int| i <= j < gs.len() && covers(k, bw, bh, gs[j])
            && (forall|m: int| i <= m < j ==> !covers(k, bw, bh, #[trigger] gs[m]))
            ==> block_pixel(k, bw, bh, gs, bins, i) == covered_value(k, bw, gs[j], bins[j]),
        (forall|m: int| i <= m < gs.len() ==> !covers(k, bw, bh, #[trigger] gs[m]))
            ==> block_pixel(k, bw, bh, gs, bins, i) == 0,
    decreases gs.len() - i,
{
    if i < gs.len() {
        lemma_first_glyph_gives_pixel(k, bw, bh, gs, bins, i + 1);
        assert forall|j: int| i <= j < gs.len() && covers(k, bw, bh, gs[j])
            && (forall|m: int| i <= m < j ==> !covers(k, bw, bh, #[trigger] gs[m]))
            implies block_pixel(k, bw, bh, gs, bins, i) == covered_value(k, bw, gs[j], bins[j]) by {
            if j > i {
                assert(!covers(k, bw, bh, gs[i]));
                assert forall|m: int| i + 1 <= m < j implies !covers(k, bw, bh, #[trigger] gs[m]) by {
                }
            }
        }
        if forall|m: int| i <= m < gs.len() ==> !covers(k, bw, bh, #[trigger] gs[m]) {
            assert(!covers(k, bw, bh, gs[i]));
            assert forall|m: int| i + 1 <= m < gs.len() implies !covers(k, bw, bh, #[trigger] gs[m]) by {
            }
        }
    }
}

} // verus!
