use pi_hal::image_res::PixelLayout;
use pi_hal::image_texture_load::{
    ends_with, has_header, image_upload, is_ktx_loadable, is_ktx_url, ktx_texture_data,
};
use pi_hal::texture::{AstcBlock, AstcChannel, TextureDimension, TextureFormat, TextureViewDimension};

const IDENTIFIER: [u8; 12] = [0xAB, 0x4B, 0x54, 0x58, 0x20, 0x31, 0x31, 0xBB, 0x0D, 0x0A, 0x1A, 0x0A];

fn put(out: &mut Vec<u8>, v: u32, big_endian: bool) {
    if big_endian {
        out.extend_from_slice(&v.to_be_bytes());
    } else {
        out.extend_from_slice(&v.to_le_bytes());
    }
}

/// A KTX 1 file with the given header numbers (internal format, width, height,
/// depth, array elements, faces, mip levels) and levels (size field, bytes).
fn ktx_file(fields: [u32; 7], levels: &[(u32, Vec<u8>)], big_endian: bool) -> Vec<u8> {
    let mut out = IDENTIFIER.to_vec();
    put(&mut out, 0x04030201, big_endian);
    let [internal, width, height, depth, array, faces, mips] = fields;
    for v in [0, 1, 0, internal, 0x1908, width, height, depth, array, faces, mips, 0] {
        put(&mut out, v, big_endian);
    }
    for (size, bytes) in levels {
        put(&mut out, *size, big_endian);
        out.extend_from_slice(bytes);
    }
    out
}

#[test]
fn ktx_two_levels_are_concatenated() {
    let l0: Vec<u8> = (0..16).collect();
    let l1: Vec<u8> = (100..116).collect();
    let file = ktx_file([0x93b0, 4, 4, 0, 0, 1, 2], &[(16, l0.clone()), (16, l1.clone())], false);
    assert!(has_header(&file));
    assert!(is_ktx_loadable(&file));
    let t = ktx_texture_data(&file);
    assert_eq!(t.format, TextureFormat::Astc { block: AstcBlock::B4x4, channel: AstcChannel::Unorm });
    assert_eq!((t.width, t.height, t.depth_or_array_layers, t.mip_level_count), (4, 4, 1, 2));
    assert_eq!(t.dimension, TextureDimension::D2);
    assert_eq!(t.view_dimension, TextureViewDimension::D2);
    let mut expected = l0;
    expected.extend_from_slice(&l1);
    assert_eq!(t.data, expected);
    assert_eq!(t.size, file.len());
}

#[test]
fn ktx_single_level_big_endian() {
    let l0: Vec<u8> = vec![7; 8];
    let file = ktx_file([0x83f1, 8, 4, 0, 0, 1, 1], &[(8, l0.clone())], true);
    assert!(is_ktx_loadable(&file));
    let t = ktx_texture_data(&file);
    assert_eq!((t.width, t.height), (8, 4));
    assert_eq!(t.format, TextureFormat::Bc1RgbaUnorm);
    assert_eq!(t.mip_level_count, 1);
    assert_eq!(t.data, l0);
}

#[test]
fn ktx_cube_map_level_holds_six_faces() {
    let faces: Vec<u8> = (0..48).collect();
    let file = ktx_file([0x9278, 4, 4, 0, 0, 6, 1], &[(8, faces.clone())], false);
    assert!(is_ktx_loadable(&file));
    let t = ktx_texture_data(&file);
    assert_eq!(t.format, TextureFormat::Etc2Rgba8Unorm);
    assert_eq!(t.depth_or_array_layers, 6);
    assert_eq!(t.view_dimension, TextureViewDimension::Cube);
    assert_eq!(t.data, faces);
}

#[test]
fn ktx_array_of_cube_maps() {
    let data: Vec<u8> = vec![1; 32];
    let file = ktx_file([0x83f3, 4, 4, 0, 2, 6, 1], &[(32, data.clone())], false);
    assert!(is_ktx_loadable(&file));
    let t = ktx_texture_data(&file);
    assert_eq!(t.depth_or_array_layers, 12);
    assert_eq!(t.view_dimension, TextureViewDimension::CubeArray);
    assert_eq!(t.data, data);
}

#[test]
fn ktx_refused_inputs() {
    let good = ktx_file([0x93b0, 4, 4, 0, 0, 1, 1], &[(16, vec![0; 16])], false);
    assert!(is_ktx_loadable(&good));
    // too short for a header
    assert!(!has_header(&good[..63]));
    assert!(!is_ktx_loadable(&good[..63]));
    // wrong identifier
    let mut bad = good.clone();
    bad[1] = 0;
    assert!(!has_header(&bad));
    assert!(!is_ktx_loadable(&bad));
    // truncated level
    assert!(!is_ktx_loadable(&good[..good.len() - 1]));
    // unknown internal format
    let unknown = ktx_file([0x1234, 4, 4, 0, 0, 1, 1], &[(16, vec![0; 16])], false);
    assert!(!is_ktx_loadable(&unknown));
    // one layer, one face and no level
    let empty = ktx_file([0x93b0, 4, 4, 0, 0, 1, 0], &[], false);
    assert!(!is_ktx_loadable(&empty));
}

#[test]
fn url_suffixes() {
    assert!(ends_with("a/b.png", ".png"));
    assert!(!ends_with("a/b.jpg", ".png"));
    assert!(!ends_with("png", ".png"));
    assert!(ends_with("", ""));
    assert!(is_ktx_url("tex/stone.ktx"));
    assert!(!is_ktx_url("tex/stone.ktx2"));
}

#[test]
fn image_upload_layouts() {
    let gray = image_upload(PixelLayout::Luma8, 10, 3, true, "a.jpg");
    assert_eq!(gray.format, TextureFormat::R8Unorm);
    assert_eq!((gray.bytes_per_pixel, gray.bytes_per_row, gray.size), (1, 10, 30));
    assert!(!gray.to_rgba8);
    assert!(!gray.is_opacity);

    let rgb = image_upload(PixelLayout::Rgb8, 10, 3, false, "a.png");
    assert_eq!(rgb.format, TextureFormat::Rgba8Unorm);
    assert!(rgb.to_rgba8);
    assert_eq!((rgb.bytes_per_pixel, rgb.bytes_per_row, rgb.size), (4, 40, 120));
    assert!(rgb.is_opacity);

    let rgba = image_upload(PixelLayout::Rgba8, 2, 2, true, "b.png");
    assert_eq!(rgba.format, TextureFormat::Rgba8UnormSrgb);
    assert!(!rgba.to_rgba8);
    assert_eq!(rgba.size, 16);
}
