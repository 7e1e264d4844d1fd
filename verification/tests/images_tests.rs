use redumper_gui::images::{alpha_of, decode_image};

// A 2x1 PNG: an opaque red pixel and a half-transparent blue one.
fn two_pixel_png() -> Vec<u8> {
    let img = image::RgbaImage::from_raw(2, 1, vec![255, 0, 0, 255, 0, 0, 255, 128]).unwrap();
    let mut out = std::io::Cursor::new(Vec::new());
    img.write_to(&mut out, image::ImageFormat::Png).unwrap();
    out.into_inner()
}

#[test]
fn alpha_bytes_of_pixels() {
    assert_eq!(alpha_of(&[1, 2, 3, 4, 5, 6, 7, 8]), vec![4, 8]);
    assert_eq!(alpha_of(&[1, 2, 3, 4, 5, 6]), vec![4]);
    assert!(alpha_of(&[]).is_empty());
}

#[test]
fn icon_decodes_to_rgba() {
    let png = two_pixel_png();
    assert_eq!(decode_image(&png), Some((2, 1, vec![255, 0, 0, 255, 0, 0, 255, 128])));
    assert_eq!(decode_image(b"not an image"), None);
}

#[test]
fn profile_logo_is_an_alpha_mask() {
    let png = two_pixel_png();
    let (w, h, px) = decode_image(&png).unwrap();
    assert_eq!((w, h, alpha_of(&px)), (2, 1, vec![255, 128]));
    assert_eq!(decode_image(&[]), None);
}
