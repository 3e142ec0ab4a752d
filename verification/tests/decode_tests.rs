use photoframe::decode::decode_upright;

fn png(width: u32, height: u32, pixels: Vec<u8>) -> Vec<u8> {
    let img = image::RgbaImage::from_raw(width, height, pixels).unwrap();
    let mut out = std::io::Cursor::new(Vec::new());
    img.write_to(&mut out, image::ImageFormat::Png).unwrap();
    out.into_inner()
}

#[test]
fn decodes_png_without_orientation_as_is() {
    let pixels: Vec<u8> = (0..2 * 3 * 4).map(|v| v as u8).collect();
    let bytes = png(2, 3, pixels.clone());
    let img = decode_upright(&bytes, 1 << 20).expect("decodes");
    assert_eq!((img.width, img.height), (2, 3));
    assert_eq!(img.pixels, pixels);
}

#[test]
fn undecodable_bytes_give_none() {
    assert!(decode_upright(b"not an image", 1 << 20).is_none());
}
