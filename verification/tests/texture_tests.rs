use john_wick_parse::texture::{
    decode_pixels, get_bc3_indices, get_pixel_loc, texture_format, ColourLayout, TextureFormat,
};

#[test]
fn pixel_formats_are_named() {
    assert_eq!(texture_format("PF_DXT5").unwrap(), TextureFormat::Dxt5);
    assert_eq!(texture_format("PF_DXT1").unwrap(), TextureFormat::Dxt1);
    assert_eq!(texture_format("PF_B8G8R8A8").unwrap(), TextureFormat::Bgra8);
    assert_eq!(texture_format("PF_BC5").unwrap(), TextureFormat::Bc5);
    assert_eq!(texture_format("PF_G8").unwrap(), TextureFormat::G8);
}

#[test]
fn unknown_pixel_format_is_named_in_the_error() {
    let e = texture_format("PF_ASTC").err().unwrap();
    assert_eq!(e.get_properties(), &vec!["Unsupported pixel format: PF_ASTC".to_string()]);
}

#[test]
fn colour_layouts() {
    assert_eq!(TextureFormat::Dxt1.colour_layout(), ColourLayout::Rgb8);
    assert_eq!(TextureFormat::Dxt5.colour_layout(), ColourLayout::Rgba8);
    assert_eq!(TextureFormat::Bgra8.colour_layout(), ColourLayout::Rgba8);
    assert_eq!(TextureFormat::Bc5.colour_layout(), ColourLayout::Rgb8);
    assert_eq!(TextureFormat::G8.colour_layout(), ColourLayout::L8);
}

#[test]
fn pixel_location_in_an_rgb_image() {
    assert_eq!(get_pixel_loc(4, 0, 0, 0), 0);
    assert_eq!(get_pixel_loc(4, 1, 0, 2), 5);
    assert_eq!(get_pixel_loc(4, 3, 2, 1), 34);
}

#[test]
fn bc3_indices_are_three_bits_each() {
    // Bytes read last first: 0b000_001_01 0b0_011_100_1 0b01_110_111
    let block = [0b0111_0111u8, 0b0011_1001, 0b0000_0101];
    assert_eq!(get_bc3_indices(&block), [0, 1, 2, 3, 4, 5, 6, 7]);
    assert_eq!(get_bc3_indices(&[0xff, 0xff, 0xff]), [7; 8]);
    assert_eq!(get_bc3_indices(&[0, 0, 0]), [0; 8]);
}

#[test]
fn bgra_pixels_swap_blue_and_red() {
    let data = vec![1u8, 2, 3, 4, 5, 6, 7, 8, 9];
    assert_eq!(john_wick_parse::texture::bgra_pixels(&data, 2, 1).unwrap(), vec![3, 2, 1, 4, 7, 6, 5, 8]);
    assert!(john_wick_parse::texture::bgra_pixels(&data, 3, 1).is_none());
}

#[test]
fn grey_pixels_become_a_png() {
    let png = decode_pixels(TextureFormat::G8, vec![0u8, 64, 128, 255], 2, 2, None).unwrap();
    assert_eq!(&png[..8], &[137, 80, 78, 71, 13, 10, 26, 10]);
    assert!(decode_pixels(TextureFormat::G8, vec![0u8, 64, 128], 2, 2, None).is_err());
}

#[test]
fn dxt1_block_decodes_to_rgb() {
    // one block: both colours white, every index 0
    let block = vec![0xffu8, 0xff, 0xff, 0xff, 0, 0, 0, 0];
    let png = decode_pixels(TextureFormat::Dxt1, block, 4, 4, None).unwrap();
    assert_eq!(&png[..4], &[137, 80, 78, 71]);
    assert!(decode_pixels(TextureFormat::Dxt1, vec![0u8; 4], 4, 4, None).is_err());
    assert!(decode_pixels(TextureFormat::Dxt1, vec![0u8; 8], 0, 4, None).is_err());
}

#[test]
fn bc5_texture_needs_its_pixels() {
    assert!(decode_pixels(TextureFormat::Bc5, vec![0u8; 16], 4, 4, None).is_err());
    assert!(decode_pixels(TextureFormat::Bc5, vec![0u8; 16], 4, 4, Some(vec![0u8; 48])).is_ok());
}

#[test]
fn pixel_errors_have_their_messages() {
    let msgs = |r: Result<Vec<u8>, john_wick_parse::assets::ParserError>| r.err().unwrap().get_properties().clone();
    assert_eq!(msgs(decode_pixels(TextureFormat::Bgra8, vec![0u8; 7], 2, 1, None)), vec!["Image buffer too small".to_string()]);
    assert_eq!(msgs(decode_pixels(TextureFormat::Dxt5, vec![0u8; 16], 0, 4, None)), vec!["Image width is zero".to_string()]);
    assert_eq!(msgs(decode_pixels(TextureFormat::Bc5, vec![0u8; 16], 4, 4, None)), vec!["BC5 pixels missing".to_string()]);
    assert_eq!(msgs(decode_pixels(TextureFormat::Dxt1, vec![0u8; 4], 4, 4, None)).len(), 1);
}
