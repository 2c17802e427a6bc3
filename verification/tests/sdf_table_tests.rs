use pi_hash::XHashMap;
use pi_hal::font::font::{AwaitInfo, FontFaceId, FontFamilyId, FontId, GlyphId, Size};
use pi_atom::Atom;
use pi_hal::font::sdf_table::{block_family, block_image, group_by_family, GlyphInfo, GlyphPlacement, SdfTable};
use pi_slotmap::{DefaultKey, SlotMap};

struct Ids {
    face: FontFaceId,
    family: FontFamilyId,
    font: FontId,
    spare: GlyphId,
}

fn ids() -> Ids {
    let mut keys: SlotMap<DefaultKey, ()> = SlotMap::new();
    Ids {
        face: FontFaceId(keys.insert(())),
        family: FontFamilyId(keys.insert(())),
        font: FontId(keys.insert(())),
        spare: GlyphId(keys.insert(())),
    }
}

fn info(width: u8, height: u8) -> GlyphInfo {
    GlyphInfo { ox: 0, oy: 0, width, height, advance: width }
}

fn table(atlas_height: usize, with_box: bool, k: &Ids) -> SdfTable {
    let mut t = SdfTable::new(100, atlas_height);
    let mut cfg = XHashMap::default();
    cfg.insert('a', info(10, 20));
    if with_box {
        cfg.insert('□', info(8, 8));
    }
    t.add_cfg(k.face, cfg);
    t
}

fn waiting() -> AwaitInfo {
    AwaitInfo { size: Size { width: 0, height: 0 }, wait_list: Vec::new() }
}

#[test]
fn sdf_glyph_is_placed_and_cached() {
    let k = ids();
    let mut t = table(1000, false, &k);
    let mut w = waiting();
    let faces = vec![k.face];
    let id = t.glyph_id(k.font, k.family, &faces, &mut w, 'a').unwrap();
    let d = t.glyphs.get(id).unwrap();
    assert_eq!((d.x, d.y, d.char, d.font_face_index, d.info.width, d.info.height), (0, 0, 'a', 0, 10, 20));
    // the glyph waits once when its entry is found and once when it is placed
    assert_eq!(w.wait_list, vec![id, id]);
    assert_eq!((w.size.width, w.size.height), (10, 20));
    assert_eq!(t.text_packer.last_v(), 42);
    let again = t.glyph_id(k.font, k.family, &faces, &mut w, 'a').unwrap();
    assert_eq!(again, id);
    assert_eq!(w.wait_list.len(), 2);
    assert_eq!(t.glyphs.len(), 1);
}

#[test]
fn unknown_char_shows_the_box() {
    let k = ids();
    let mut t = table(1000, true, &k);
    let mut w = waiting();
    let faces = vec![k.face];
    let id = t.glyph_id(k.font, k.family, &faces, &mut w, 'z').unwrap();
    assert_eq!(t.glyphs.get(id).unwrap().char, '□');
    assert_eq!(t.glyph_id_map.get(&(k.family, 'z')), Some(&id));
    assert_eq!(t.glyph_id_map.get(&(k.family, '□')), Some(&id));
    assert_eq!(t.glyph_id(k.font, k.family, &faces, &mut w, 'z'), Some(id));
}

#[test]
fn unknown_char_without_box_or_default_is_dropped() {
    let k = ids();
    let mut t = table(1000, false, &k);
    let mut w = waiting();
    let faces = vec![k.face];
    assert_eq!(t.glyph_id(k.font, k.family, &faces, &mut w, 'z'), None);
    assert!(t.glyph_id_map.get(&(k.family, 'z')).is_none());
    assert!(w.wait_list.is_empty());
}

#[test]
fn unknown_char_falls_back_to_default_glyph() {
    let k = ids();
    let mut t = table(1000, false, &k);
    t.add_default_char(k.face, k.spare, Atom::from("f"), 'q');
    assert!(t.default_char.is_none());
    t.add_default_char(k.face, k.spare, Atom::from("f"), 'a');
    assert_eq!(t.default_char.as_ref().unwrap().glyph_id, k.spare);
    assert_eq!(t.default_glyph_id(), Some(k.spare));
    let mut w = waiting();
    let faces = vec![k.face];
    assert_eq!(t.glyph_id(k.font, k.family, &faces, &mut w, 'z'), Some(k.spare));
    assert_eq!(t.glyph_id_map.get(&(k.family, 'z')), Some(&k.spare));
}

#[test]
fn sdf_full_atlas_gives_none() {
    let k = ids();
    let mut t = table(30, false, &k);
    let mut w = waiting();
    let faces = vec![k.face];
    assert_eq!(t.glyph_id(k.font, k.family, &faces, &mut w, 'a'), None);
    assert_eq!(w.size.width, 0);
}

#[test]
fn blocks_of_one_family_in_a_row_make_one_request() {
    let fams = vec![Atom::from("a"), Atom::from("a"), Atom::from("b"), Atom::from("a")];
    let chars = vec![vec!['x'], vec!['y', 'z'], vec!['u'], vec!['v']];
    let g = group_by_family(&fams, &chars);
    let got: Vec<(String, Vec<char>)> = g.iter().map(|(a, c)| (a.as_str().to_string(), c.clone())).collect();
    assert_eq!(
        got,
        vec![
            ("a".to_string(), vec!['x', 'y', 'z']),
            ("b".to_string(), vec!['u']),
            ("a".to_string(), vec!['v']),
        ]
    );
    let list = vec![Atom::from("serif"), Atom::from("sans")];
    assert_eq!(block_family(&list, 1, &None).as_str(), "sans");
    assert_eq!(block_family(&list, 2, &Some(Atom::from("fallback"))).as_str(), "fallback");
}

#[test]
fn block_image_first_glyph_wins() {
    let glyphs = vec![
        GlyphPlacement { x: 0, width: 2, height: 2 },
        GlyphPlacement { x: 1, width: 2, height: 1 },
    ];
    let bins = vec![vec![1, 2, 3, 4], vec![9, 8]];
    let img = block_image(4, 2, &glyphs, &bins);
    assert_eq!((img.width, img.height), (4, 2));
    assert_eq!(img.buffer, vec![1, 2, 8, 0, 3, 4, 0, 0]);
}

#[test]
fn block_image_clips_to_the_block() {
    let glyphs = vec![GlyphPlacement { x: 0, width: 4, height: 3 }];
    let bins = vec![(1..=12).collect::<Vec<u8>>()];
    let img = block_image(3, 2, &glyphs, &bins);
    // a 4 x 3 bitmap clipped to the 3 x 2 block
    assert_eq!(img.buffer, vec![1, 2, 3, 5, 6, 7]);
}
