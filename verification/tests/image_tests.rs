use std::io::Cursor;

use image::{DynamicImage, ImageOutputFormat, Rgba, RgbaImage};
use pi_hal::image_res::{decode_image, from_memory, image_size, ImageRes, LoadError, PixelLayout};
use pi_hal::svg::{encode_verbs, PathVerb};
use pi_hal::Arg;

fn png_bytes() -> Vec<u8> {
    let mut img = RgbaImage::new(2, 1);
    img.put_pixel(0, 0, Rgba([1, 2, 3, 4]));
    img.put_pixel(1, 0, Rgba([5, 6, 7, 8]));
    let mut out = Cursor::new(Vec::new());
    DynamicImage::ImageRgba8(img).write_to(&mut out, ImageOutputFormat::Png).unwrap();
    out.into_inner()
}

#[test]
fn decodes_png_to_rgba() {
    let (pixels, w, h) = match from_memory(&png_bytes()) {
        Ok(v) => v,
        Err(_) => panic!("decoding failed"),
    };
    assert_eq!((w, h), (2, 1));
    assert_eq!(pixels, vec![1, 2, 3, 4, 5, 6, 7, 8]);
}

#[test]
fn garbage_is_an_error() {
    match from_memory(b"not an image") {
        Err(LoadError::Other(msg)) => assert!(!msg.is_empty()),
        _ => panic!("expected an error"),
    }
}

#[test]
fn image_sizes() {
    assert_eq!(image_size(PixelLayout::Rgba16, 2, 2), 32);
    assert_eq!(image_size(PixelLayout::Luma8, 3, 3), 36);
    assert_eq!(image_size(PixelLayout::Rgb32F, 1, 1), 12);
    assert_eq!(image_size(PixelLayout::Rgba32F, 65536, 65536), 0);
    assert_eq!(ImageRes::new(DynamicImage::new_rgb8(2, 3)).size(), 18);
    assert_eq!(ImageRes::new(DynamicImage::new_luma8(2, 2)).size(), 16);
    let res = ImageRes::new(DynamicImage::new_rgba16(1, 5));
    assert_eq!(res.size(), 40);
    assert_eq!(res.value().width(), 1);
}

#[test]
fn path_verb_codes() {
    assert_eq!(PathVerb::MoveTo.code(), 1);
    assert_eq!(PathVerb::LineToRelative.code(), 4);
    assert_eq!(PathVerb::Close.code(), 19);
    assert_eq!(
        encode_verbs(&vec![PathVerb::MoveTo, PathVerb::CubicTo, PathVerb::Close]),
        vec![1, 9, 19]
    );
}

#[test]
fn load_args() {
    let args = vec![Arg::Number(3), Arg::String("x".to_string()), Arg::Buffer(vec![1]), Arg::Empty];
    assert_eq!(args.len(), 4);
    assert!(matches!(args[0], Arg::Number(3)));
}

#[test]
fn image_res_size_follows_layout_and_dimensions() {
    let r = ImageRes::new(DynamicImage::new_rgb8(2, 3));
    assert_eq!(r.size(), 18);
    assert_eq!(r.layout(), PixelLayout::Rgb8);
    assert_eq!((r.width(), r.height()), (2, 3));
    assert_eq!(ImageRes::new(DynamicImage::new_luma8(2, 3)).size(), 24);
    assert_eq!(ImageRes::new(DynamicImage::new_rgba16(2, 3)).size(), 48);
}

#[test]
fn decode_image_gives_sized_image() {
    let r = decode_image(&png_bytes()).ok().unwrap();
    assert_eq!(r.layout(), PixelLayout::Rgba8);
    assert_eq!(r.size(), (r.width() * r.height() * 4) as usize);
    assert!(r.width() > 0);
    assert!(matches!(decode_image(&[1, 2, 3]), Err(LoadError::Other(_))));
}

#[test]
fn decode_image_gives_the_decoded_pixels() {
    let bytes = png_bytes();
    let r = decode_image(&bytes).ok().unwrap();
    let (pixels, w, h) = match from_memory(&bytes) {
        Ok(v) => v,
        Err(_) => panic!("png decodes"),
    };
    assert_eq!(r.rgba8(), pixels);
    assert_eq!(r.rgba8(), vec![1, 2, 3, 4, 5, 6, 7, 8]);
    assert_eq!((r.width(), r.height()), (w, h));
}
