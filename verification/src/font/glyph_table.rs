//! The table of glyphs placed in an atlas, and the maps that find them again.
use pi_hash::XHashMap;
use pi_slotmap::{DefaultKey, SlotMap};
use vstd::prelude::*;

use super::font::{FontFaceId, FontFamilyId, FontId, GlyphId};
use super::sdf_table::GlyphInfo;

verus! {

/// What the table keeps of a glyph: its font and character, where its texture lies
/// in the atlas, and the distance-field entry it was made from. The metrics in
/// font units are derived from these on use.
#[derive(Debug, Clone, Copy)]
pub struct GlyphDesc {
    pub font_id: FontId,
    pub char: char,
    /// Index of the glyph in its font face (the code point for ready-made tables).
    pub glyph_index: u32,
    /// Position of the face among the faces of the font.
    pub font_face_index: usize,
    /// Left of the glyph's texture in the atlas.
    pub x: usize,
    /// Top of the glyph's texture in the atlas.
    pub y: usize,
    pub info: GlyphInfo,
}

/// Glyphs by id, held in a `pi_slotmap::SlotMap`.
#[verifier::external_body]
pub struct GlyphTable {
    slots: SlotMap<DefaultKey, GlyphDesc>,
}

/// The glyphs of a table: id -> glyph.
pub uninterp spec fn glyph_slots(t: GlyphTable) -> Map<GlyphId, GlyphDesc>;

/// The number of glyphs in a table (`SlotMap::len`).
pub uninterp spec fn glyph_count(t: GlyphTable) -> nat;

impl GlyphTable {
    /// `SlotMap::new`: an empty table.
    #[verifier::external_body]
    pub(crate) fn slots_new() -> (r: GlyphTable)
        ensures
            glyph_slots(r) =~= Map::empty(),
            glyph_count(r) == 0,
    {
        GlyphTable { slots: SlotMap::new() }
    }

    /// `SlotMap::insert`: stores `desc` under a key that was in no use, and returns
    /// it. The crate panics once the table holds 2^32 - 2 glyphs.
    #[verifier::external_body]
    pub(crate) fn slots_insert(&mut self, desc: GlyphDesc) -> (r: GlyphId)
        requires
            glyph_count(*old(self)) < 0xFFFF_FFFE,
        ensures
            !glyph_slots(*old(self)).contains_key(r),
            glyph_slots(*final(self)) == glyph_slots(*old(self)).insert(r, desc),
            glyph_count(*final(self)) == glyph_count(*old(self)) + 1,
    {
        GlyphId(self.slots.insert(desc))
    }

    /// `IndexMut` of `SlotMap` (`slots[id] = desc`): replaces the glyph stored under
    /// `id`. The crate panics for an id it does not hold.
    #[verifier::external_body]
    pub(crate) fn slots_set(&mut self, id: GlyphId, desc: GlyphDesc)
        requires
            glyph_slots(*old(self)).contains_key(id),
        ensures
            glyph_slots(*final(self)) == glyph_slots(*old(self)).insert(id, desc),
            glyph_count(*final(self)) == glyph_count(*old(self)),
    {
        self.slots[id.0] = desc;
    }

    /// `SlotMap::get`: the glyph stored under `id`, if any.
    #[verifier::external_body]
    pub(crate) fn slots_get(&self, id: GlyphId) -> (r: Option<GlyphDesc>)
        ensures
            r == (if glyph_slots(*self).contains_key(id) {
                Some(glyph_slots(*self)[id])
            } else {
                None
            }),
    {
        self.slots.get(id.0).copied()
    }

    /// `SlotMap::len`: the number of glyphs.
    #[verifier::external_body]
    pub(crate) fn slots_len(&self) -> (r: usize)
        ensures
            r == glyph_count(*self),
    {
        self.slots.len()
    }

    /// An empty table.
    pub fn new() -> (r: GlyphTable)
        ensures
            glyph_slots(r) == Map::<GlyphId, GlyphDesc>::empty(),
            glyph_count(r) == 0,
    {
        Self::slots_new()
    }

    /// The glyph with id `id`, if the table has it.
    pub fn get(&self, id: GlyphId) -> (r: Option<GlyphDesc>)
        ensures
            r == (if glyph_slots(*self).contains_key(id) {
                Some(glyph_slots(*self)[id])
            } else {
                None
            }),
    {
        self.slots_get(id)
    }

    /// The number of glyphs.
    pub fn len(&self) -> (r: usize)
        ensures
            r == glyph_count(*self),
    {
        self.slots_len()
    }
}

/// `HashMap::get` on the map from (face, code point) to glyph. Keys are compared by
/// value: face ids and code points are plain integers with derived equality.
#[verifier::external_body]
pub(crate) fn face_glyph_get(map: &XHashMap<(FontFaceId, u32), GlyphId>, key: (FontFaceId, u32)) -> (r: Option<GlyphId>)
    ensures
        r == (if map@.contains_key(key) {
            Some(map@[key])
        } else {
            None
        }),
{
    map.get(&key).copied()
}

/// `HashMap::insert` on the map from (face, code point) to glyph.
#[verifier::external_body]
pub(crate) fn face_glyph_insert(map: &mut XHashMap<(FontFaceId, u32), GlyphId>, key: (FontFaceId, u32), id: GlyphId)
    ensures
        final(map)@ == old(map)@.insert(key, id),
{
    map.insert(key, id);
}

/// `HashMap::insert` on the map from glyph to the face it was made from.
#[verifier::external_body]
pub(crate) fn glyph_face_insert(map: &mut XHashMap<GlyphId, FontFaceId>, id: GlyphId, face: FontFaceId)
    ensures
        final(map)@ == old(map)@.insert(id, face),
{
    map.insert(id, face);
}

/// `HashMap::get` on the distance-field entries of a face, by character.
#[verifier::external_body]
pub(crate) fn glyph_info_get(map: &XHashMap<char, GlyphInfo>, c: char) -> (r: Option<GlyphInfo>)
    ensures
        r == (if map@.contains_key(c) {
            Some(map@[c])
        } else {
            None
        }),
{
    map.get(&c).copied()
}

/// `HashMap::get` on the map from (font family, character) to glyph.
#[verifier::external_body]
pub(crate) fn family_glyph_get(map: &XHashMap<(FontFamilyId, char), GlyphId>, key: (FontFamilyId, char)) -> (r: Option<GlyphId>)
    ensures
        r == (if map@.contains_key(key) {
            Some(map@[key])
        } else {
            None
        }),
{
    map.get(&key).copied()
}

/// `HashMap::insert` on the map from (font family, character) to glyph.
#[verifier::external_body]
pub(crate) fn family_glyph_insert(map: &mut XHashMap<(FontFamilyId, char), GlyphId>, key: (FontFamilyId, char), id: GlyphId)
    ensures
        final(map)@ == old(map)@.insert(key, id),
{
    map.insert(key, id);
}

/// `HashMap::remove` on the map from (font family, character) to glyph.
#[verifier::external_body]
pub(crate) fn family_glyph_remove(map: &mut XHashMap<(FontFamilyId, char), GlyphId>, key: (FontFamilyId, char))
    ensures
        final(map)@ == old(map)@.remove(key),
{
    map.remove(&key);
}

/// `HashMap::get` on the tables of ready-made glyphs, by face.
#[verifier::external_body]
pub(crate) fn face_cfg_get<'a>(map: &'a XHashMap<FontFaceId, XHashMap<char, GlyphInfo>>, face: FontFaceId) -> (r: Option<&'a XHashMap<char, GlyphInfo>>)
    ensures
        r == (if map@.contains_key(face) {
            Some(&map@[face])
        } else {
            None
        }),
{
    map.get(&face)
}

/// `HashMap::insert` on the tables of ready-made glyphs, by face.
#[verifier::external_body]
pub(crate) fn face_cfg_insert(map: &mut XHashMap<FontFaceId, XHashMap<char, GlyphInfo>>, face: FontFaceId, cfg: XHashMap<char, GlyphInfo>)
    ensures
        final(map)@ == old(map)@.insert(face, cfg),
{
    map.insert(face, cfg);
}

/// `HashMap::get` on the map from (face, glyph index, distance range) to glyph.
#[verifier::external_body]
pub(crate) fn outline_glyph_get(map: &XHashMap<(FontFaceId, u16, u32), GlyphId>, key: (FontFaceId, u16, u32)) -> (r: Option<GlyphId>)
    ensures
        r == (if map@.contains_key(key) {
            Some(map@[key])
        } else {
            None
        }),
{
    map.get(&key).copied()
}

/// `HashMap::insert` on the map from (face, glyph index, distance range) to glyph.
#[verifier::external_body]
pub(crate) fn outline_glyph_insert(map: &mut XHashMap<(FontFaceId, u16, u32), GlyphId>, key: (FontFaceId, u16, u32), id: GlyphId)
    ensures
        final(map)@ == old(map)@.insert(key, id),
{
    map.insert(key, id);
}

/// `==` on face ids (derived: the keys' index and version are compared).
#[verifier::external_body]
pub(crate) fn same_face(a: FontFaceId, b: FontFaceId) -> (r: bool)
    ensures
        r == (a == b),
{
    a == b
}

} // verus!
