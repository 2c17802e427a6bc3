use pi_hash::XHashMap;
use pi_hal::font::font::{FontFaceId, FontId, GlyphId};
use pi_hal::font::glyph_table::GlyphTable;
use pi_hal::font::sdf2_table::{outline_insert, outline_lookup, FaceIndexes, OutlineLookup};
use pi_hal::font::sdf_table::GlyphInfo;
use pi_hal::font::static_sdf_font::glyph_id;
use pi_hal::font::text_pack::{Point2, TextPacker};
use pi_slotmap::{DefaultKey, SlotMap};

struct Fixture {
    cfg: XHashMap<char, GlyphInfo>,
    map: XHashMap<(FontFaceId, u32), GlyphId>,
    glyphs: GlyphTable,
    packer: TextPacker,
    faces: XHashMap<GlyphId, FontFaceId>,
    font_id: FontId,
    font_ids: Vec<FontFaceId>,
    wait: Vec<GlyphId>,
    face: FontFaceId,
}

fn fixture(atlas_height: usize) -> Fixture {
    let mut keys: SlotMap<DefaultKey, ()> = SlotMap::new();
    let other = FontFaceId(keys.insert(()));
    let face = FontFaceId(keys.insert(()));
    let font_id = FontId(keys.insert(()));
    let mut cfg = XHashMap::default();
    cfg.insert('a', GlyphInfo { ox: 0, oy: 0, width: 10, height: 20, advance: 12 });
    cfg.insert(' ', GlyphInfo { ox: 0, oy: 0, width: 4, height: 4, advance: 8 });
    Fixture {
        cfg,
        map: XHashMap::default(),
        glyphs: GlyphTable::new(),
        packer: TextPacker::new(100, atlas_height),
        faces: XHashMap::default(),
        font_id,
        font_ids: vec![other, face],
        wait: Vec::new(),
        face,
    }
}

fn lookup(f: &mut Fixture, cfg_present: bool, has_metrics: bool, c: char) -> Option<GlyphId> {
    let cfg = if cfg_present { Some(&f.cfg) } else { None };
    glyph_id(
        cfg, has_metrics, &mut f.map, &mut f.glyphs, &mut f.packer, &mut f.faces, f.font_id,
        &f.font_ids, &mut f.wait, f.face, c,
    )
}

#[test]
fn new_glyph_is_placed_recorded_and_waits() {
    let mut f = fixture(1000);
    let id = lookup(&mut f, true, true, 'a').unwrap();
    let desc = f.glyphs.get(id).unwrap();
    assert_eq!((desc.x, desc.y, desc.char, desc.glyph_index, desc.font_face_index), (0, 0, 'a', 97, 1));
    assert_eq!(desc.info.width, 10);
    assert_eq!(f.wait, vec![id]);
    assert_eq!(f.map.get(&(f.face, 'a' as u32)), Some(&id));
    assert_eq!(f.faces.get(&id), Some(&f.face));
    assert_eq!(f.glyphs.len(), 1);
    // the cell is square: 20 x 20 in a 42-pixel line
    assert_eq!(f.packer.last_v(), 42);
    assert_eq!(f.packer.allocate(1, 1), Some(Point2::new(20, 0)));
}

#[test]
fn known_glyph_comes_back_unchanged() {
    let mut f = fixture(1000);
    let id = lookup(&mut f, true, true, 'a').unwrap();
    let again = lookup(&mut f, true, true, 'a').unwrap();
    assert_eq!(id, again);
    assert_eq!(f.wait.len(), 1);
    assert_eq!(f.glyphs.len(), 1);
}

#[test]
fn whitespace_does_not_wait() {
    let mut f = fixture(1000);
    let a = lookup(&mut f, true, true, 'a').unwrap();
    let space = lookup(&mut f, true, true, ' ').unwrap();
    assert_ne!(a, space);
    assert_eq!(f.wait, vec![a]);
    assert_eq!(f.glyphs.get(space).unwrap().x, 20);
}

#[test]
fn missing_entry_table_or_metrics_record_nothing() {
    let mut f = fixture(1000);
    assert_eq!(lookup(&mut f, true, true, 'z'), None);
    assert_eq!(lookup(&mut f, false, true, 'a'), None);
    assert_eq!(lookup(&mut f, true, false, 'a'), None);
    assert!(f.map.is_empty());
    assert_eq!(f.glyphs.len(), 0);
    assert!(f.wait.is_empty());
    assert_eq!(f.packer.last_v(), 0);
}

#[test]
fn full_atlas_records_nothing() {
    let mut f = fixture(30);
    assert_eq!(lookup(&mut f, true, true, 'a'), None);
    assert!(f.map.is_empty());
    assert_eq!(f.glyphs.len(), 0);
    assert!(f.wait.is_empty());
}

#[test]
fn outline_glyphs_fall_back_and_cache() {
    let mut keys: SlotMap<DefaultKey, ()> = SlotMap::new();
    let face = FontFaceId(keys.insert(()));
    let font = FontId(keys.insert(()));
    let mut map: XHashMap<(FontFaceId, u16, u32), GlyphId> = XHashMap::default();
    let mut glyphs = GlyphTable::new();
    let mut packer = TextPacker::new(100, 1000);
    let mut wait = Vec::new();
    assert!(matches!(outline_lookup(&map, None, 5, 'a'), OutlineLookup::NoFace));
    let none = FaceIndexes { of_char: 0, of_box: 0, of_space: 0 };
    assert!(matches!(outline_lookup(&map, Some((face, none)), 5, 'a'), OutlineLookup::NoGlyph));
    let boxed = FaceIndexes { of_char: 0, of_box: 7, of_space: 3 };
    let (ch, gi) = match outline_lookup(&map, Some((face, boxed)), 5, 'a') {
        OutlineLookup::Missing { ch, glyph_index } => (ch, glyph_index),
        _ => panic!("expected a missing glyph"),
    };
    assert_eq!((ch, gi), ('□', 7));
    let id = outline_insert(&mut map, &mut glyphs, &mut packer, &mut wait, font, face, 5, ch, gi, 30).unwrap();
    assert_eq!(wait, vec![id]);
    let d = glyphs.get(id).unwrap();
    assert_eq!((d.x, d.y, d.char, d.glyph_index, d.font_face_index), (0, 0, '□', 7, usize::MAX));
    assert!(matches!(outline_lookup(&map, Some((face, boxed)), 5, 'a'), OutlineLookup::Found(g) if g == id));
    // another distance range is another glyph
    assert!(matches!(outline_lookup(&map, Some((face, boxed)), 6, 'a'), OutlineLookup::Missing { .. }));
    let space = FaceIndexes { of_char: 0, of_box: 0, of_space: 3 };
    let sid = outline_insert(&mut map, &mut glyphs, &mut packer, &mut wait, font, face, 5, ' ', 3, 10).unwrap();
    assert_eq!(wait.len(), 1);
    assert!(matches!(outline_lookup(&map, Some((face, space)), 5, 'x'), OutlineLookup::Found(g) if g == sid));
}

#[test]
fn outline_glyph_in_full_atlas_is_not_remembered() {
    let mut keys: SlotMap<DefaultKey, ()> = SlotMap::new();
    let face = FontFaceId(keys.insert(()));
    let font = FontId(keys.insert(()));
    let mut map: XHashMap<(FontFaceId, u16, u32), GlyphId> = XHashMap::default();
    let mut glyphs = GlyphTable::new();
    let mut packer = TextPacker::new(100, 20);
    let mut wait = Vec::new();
    assert_eq!(outline_insert(&mut map, &mut glyphs, &mut packer, &mut wait, font, face, 5, 'a', 9, 30), None);
    assert!(map.is_empty());
    assert!(wait.is_empty());
    assert_eq!(glyphs.len(), 1);
}
