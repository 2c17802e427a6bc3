use pi_hal::texture::{
    convert_format, depth_or_array_layers, dimension, is_known_format, view_dimension, AstcBlock,
    AstcChannel, ImageTextureDesc, PiDefaultTextureFormat, TextureDimension, TextureFormat,
    TextureViewDimension, COPY_DST, TEXTURE_BINDING,
};

#[test]
fn compressed_formats() {
    assert_eq!(convert_format(0x83f1), TextureFormat::Bc1RgbaUnorm);
    assert_eq!(convert_format(0x83f3), TextureFormat::Bc3RgbaUnorm);
    assert_eq!(convert_format(0x9278), TextureFormat::Etc2Rgba8Unorm);
    assert_eq!(
        convert_format(0x93b2),
        TextureFormat::Astc { block: AstcBlock::B5x5, channel: AstcChannel::Unorm }
    );
    assert_eq!(
        convert_format(0x93bd),
        TextureFormat::Astc { block: AstcBlock::B12x12, channel: AstcChannel::Unorm }
    );
    assert!(is_known_format(0x93b0));
    assert!(!is_known_format(0x83f0));
    assert!(!is_known_format(0x93be));
}

#[test]
fn layers() {
    assert_eq!(depth_or_array_layers(2, 6, 1), 12);
    assert_eq!(depth_or_array_layers(1, 1, 5), 5);
    assert_eq!(depth_or_array_layers(1, 1, 0), 1);
    assert_eq!(depth_or_array_layers(0, 0, 0), 1);
}

#[test]
fn dimensions() {
    assert_eq!(dimension(1, 1), TextureDimension::D1);
    assert_eq!(dimension(2, 1), TextureDimension::D2);
    assert_eq!(dimension(2, 3), TextureDimension::D3);
    assert_eq!(view_dimension(1, 6, 1), TextureViewDimension::Cube);
    assert_eq!(view_dimension(2, 6, 1), TextureViewDimension::CubeArray);
    assert_eq!(view_dimension(2, 1, 1), TextureViewDimension::D2Array);
    assert_eq!(view_dimension(1, 1, 4), TextureViewDimension::D3);
    assert_eq!(view_dimension(1, 1, 1), TextureViewDimension::D2);
}

#[test]
fn default_format_and_desc() {
    assert_eq!(TextureFormat::pi_render_default(), TextureFormat::Bgra8Unorm);
    assert!(!TextureFormat::is_srgb());
    let d = ImageTextureDesc::new("a.png".to_string());
    assert_eq!(d.url, "a.png");
    assert!(!d.srgb);
    assert_eq!(d.useage.bits, TEXTURE_BINDING | COPY_DST);
    assert_eq!(d.useage.bits, 6);
}
