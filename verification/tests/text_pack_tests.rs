use pi_hal::font::text_pack::{Point2, TextPacker};

#[test]
fn glyphs_of_one_height_go_side_by_side() {
    let mut p = TextPacker::new(100, 200);
    assert_eq!(p.allocate(10, 10), Some(Point2::new(0, 0)));
    assert_eq!(p.allocate(20, 30), Some(Point2::new(10, 0)));
    assert_eq!(p.last_v(), 42);
}

#[test]
fn taller_glyphs_open_a_new_line() {
    let mut p = TextPacker::new(100, 300);
    assert_eq!(p.allocate(10, 10), Some(Point2::new(0, 0)));
    assert_eq!(p.allocate(10, 50), Some(Point2::new(0, 42)));
    assert_eq!(p.last_v(), 42 + 74);
    assert_eq!(p.allocate(10, 75), Some(Point2::new(0, 116)));
    assert_eq!(p.last_v(), 116 + 106);
}

#[test]
fn full_line_moves_below() {
    let mut p = TextPacker::new(100, 200);
    assert_eq!(p.allocate(60, 10), Some(Point2::new(0, 0)));
    assert_eq!(p.allocate(60, 10), Some(Point2::new(0, 42)));
    assert_eq!(p.last_v(), 84);
    assert_eq!(p.allocate(40, 10), Some(Point2::new(60, 42)));
}

#[test]
fn full_atlas_gives_none() {
    let mut p = TextPacker::new(100, 100);
    assert_eq!(p.allocate(10, 10), Some(Point2::new(0, 0)));
    assert_eq!(p.allocate(10, 50), None);
    assert_eq!(p.last_v(), 116);
    assert_eq!(p.allocate(95, 10), None);
    assert_eq!(p.last_v(), 158);
}

#[test]
fn clear_starts_again_at_origin() {
    let mut p = TextPacker::new(100, 100);
    p.allocate(30, 10);
    p.allocate(30, 60);
    p.clear();
    assert_eq!(p.last_v(), 0);
    assert_eq!(p.allocate(5, 5), Some(Point2::new(0, 0)));
}

#[test]
fn line_handle() {
    let mut p = TextPacker::new(50, 500);
    p.allocate(10, 10);
    let mut line = p.alloc_line(100);
    assert_eq!(line.line_height, 106);
    assert_eq!(line.get_v(), 42);
    assert_eq!(line.allocate(30), Point2::new(0, 42));
    assert_eq!(line.allocate(30), Point2::new(0, 148));
    assert_eq!(line.packer.last_v(), 254);
}

#[test]
fn line_heights_follow_the_32_pixel_grid() {
    let mut p = TextPacker::new(100, 1000);
    let line = p.alloc_line(74);
    assert_eq!(line.line_height, 74);
    assert_eq!(p.last_v(), 74);
    let line = p.alloc_line(10);
    assert_eq!(line.line_height, 42);
    assert_eq!(p.last_v(), 116);
    assert_eq!(p.alloc_line(75).line_height, 106);
    assert_eq!(p.alloc_line(43).line_height, 74);
}

#[test]
fn room_checks() {
    let mut p = TextPacker::new(100, 1000);
    assert!(p.can_place(10, 10));
    assert!(p.has_glyph_room());
    p.allocate(10, 10);
    assert!(p.can_place(usize::MAX - 20, 10));
    assert!(!p.can_place(usize::MAX, 10));
    assert!(!p.can_place(1, usize::MAX));
    assert_eq!((p.width(), p.height()), (100, 1000));
}
