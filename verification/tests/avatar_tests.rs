use v2conv::avatar::{aspect_ratio_ok, convert_buf, convert_path};

fn png_bytes(w: u32, h: u32) -> Vec<u8> {
    let img = image::DynamicImage::ImageRgb8(image::RgbImage::new(w, h));
    let mut buf: Vec<u8> = Vec::new();
    img.write_to(&mut std::io::Cursor::new(&mut buf), image::ImageFormat::Png)
        .unwrap();
    buf
}

#[test]
fn wide_image_is_rejected() {
    let buf = png_bytes(200, 100);
    let r = convert_buf(&buf, &b"someone.png".to_vec());
    assert!(r.is_err());
}

#[test]
fn square_image_gives_three_renditions() {
    let buf = png_bytes(64, 64);
    let name = b"someone.png".to_vec();
    let r = convert_buf(&buf, &name).unwrap();
    assert_eq!(r.len(), 3);
    assert_eq!(r[0].size, 230);
    assert_eq!(r[1].size, 100);
    assert_eq!(r[2].size, 40);
    for rendition in &r {
        assert_eq!(rendition.file_name, name);
        assert!(!rendition.png.is_empty());
    }
    assert_eq!(r[0].dir, b"230".to_vec());
    assert_eq!(r[1].dir, b"100".to_vec());
    assert_eq!(r[2].dir, b"40".to_vec());
}

#[test]
fn nearly_square_image_is_accepted() {
    let buf = png_bytes(100, 96);
    assert!(convert_buf(&buf, &b"x.png".to_vec()).is_ok());
}

#[test]
fn undecodable_bytes_name_the_path() {
    let r = convert_path(
        &b"/tmp/in/pic.jpg".to_vec(),
        &b"not an image".to_vec(),
        &b"x.png".to_vec(),
    );
    let err = r.err().unwrap();
    assert!(err.starts_with(b"(/tmp/in/pic.jpg) "));
}

#[test]
fn aspect_ratio_bounds_are_exact() {
    // 0.95 and 1.05 themselves are within tolerance; just beyond is not.
    assert!(aspect_ratio_ok(95, 100));
    assert!(aspect_ratio_ok(105, 100));
    assert!(aspect_ratio_ok(19, 20));
    assert!(!aspect_ratio_ok(94, 100));
    assert!(!aspect_ratio_ok(106, 100));
    assert!(!aspect_ratio_ok(2, 1));
    assert!(!aspect_ratio_ok(0, 1));
    assert!(!aspect_ratio_ok(1, 0));
}
