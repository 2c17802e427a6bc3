use pi_hal::font::font::{font_family_names, FontImage, FontType, Size, BASE_FONT_SIZE, BLOD_WEIGHT};
use pi_hal::font::sdf2_table::{sdf_font_size, FONT_SIZE};
use pi_hal::font::sdf_gpu::create_indices;
use pi_hal::font::sdf_table::{copy_glyph_rows, GlyphInfo};
use pi_hal::font::static_sdf_font::square_glyph_texture;

#[test]
fn font_image_is_zeroed_rgba() {
    let img = FontImage::new(2, 3);
    assert_eq!(img.width, 2);
    assert_eq!(img.height, 3);
    assert_eq!(img.buffer, vec![0u8; 24]);
}

#[test]
fn background_is_magenta() {
    let mut img = FontImage::new(2, 1);
    img.init_background();
    assert_eq!(img.buffer, vec![255, 0, 255, 255, 255, 0, 255, 255]);
}

#[test]
fn default_font_type_is_bitmap() {
    assert_eq!(FontType::default(), FontType::Bitmap);
}

#[test]
fn constants_and_sizes() {
    assert_eq!(BASE_FONT_SIZE, 32);
    assert_eq!(BLOD_WEIGHT, 700);
    assert_eq!(FONT_SIZE, 32);
    assert_eq!(sdf_font_size(12), 32);
    assert_eq!(sdf_font_size(200), 32);
    let s = Size { width: 3usize, height: 4usize };
    assert_eq!(s.clone().width, 3);
}

#[test]
fn quad_indices() {
    assert_eq!(create_indices(), [0, 1, 2, 1, 2, 3]);
}

#[test]
fn glyph_rows_are_copied_into_block() {
    let mut buffer = vec![0u8; 8];
    copy_glyph_rows(&mut buffer, 4, 2, 1, 2, 2, &vec![1, 2, 3, 4]);
    assert_eq!(buffer, vec![0, 1, 2, 0, 0, 3, 4, 0]);
}

#[test]
fn glyph_is_clipped_to_block() {
    let mut buffer = vec![9u8; 4];
    copy_glyph_rows(&mut buffer, 2, 2, 0, 3, 3, &vec![1, 2, 3, 4, 5, 6, 7, 8, 9]);
    assert_eq!(buffer, vec![1, 2, 4, 5]);
}

#[test]
fn glyph_info_default() {
    let g = GlyphInfo::default();
    assert_eq!((g.ox, g.oy, g.width, g.height, g.advance), (0, 0, 0, 0, 0));
}

#[test]
fn square_texture_pads_rows() {
    let (tex, size) = square_glyph_texture(2, 1, &vec![5, 6]);
    assert_eq!(size, 2);
    assert_eq!(tex, vec![5, 6, 0, 0]);
    let (tex, size) = square_glyph_texture(1, 3, &vec![1, 2, 3]);
    assert_eq!(size, 3);
    assert_eq!(tex, vec![1, 0, 0, 2, 0, 0, 3, 0, 0]);
}

#[test]
fn square_texture_stops_at_short_data() {
    let (tex, size) = square_glyph_texture(2, 2, &vec![1, 2, 3]);
    assert_eq!(size, 2);
    assert_eq!(tex, vec![1, 2, 0, 0]);
}

#[test]
fn family_names_are_split_and_trimmed() {
    assert_eq!(font_family_names("Arial, sans-serif"), vec!["Arial", "sans-serif"]);
    assert_eq!(font_family_names(""), vec![""]);
    assert_eq!(font_family_names(" a ,, b \t"), vec!["a", "", "b"]);
    assert_eq!(font_family_names("\u{3000}宋体\u{A0}"), vec!["宋体"]);
}
