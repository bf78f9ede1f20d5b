use std::io::Cursor;
use toki_core::image::{check_rgba8_len, load_image_rgba8_from_bytes, load_image_rgba8_from_file_bytes};

fn encode_png(width: u32, height: u32, data: Vec<u8>) -> Vec<u8> {
    let img = image::RgbaImage::from_raw(width, height, data).expect("buffer");
    let mut bytes = Cursor::new(Vec::new());
    img.write_to(&mut bytes, image::ImageFormat::Png).expect("encode");
    bytes.into_inner()
}

#[test]
fn decoding_png_bytes_gives_back_the_pixels() {
    let pixels = vec![1, 2, 3, 255, 10, 20, 30, 0];
    let png = encode_png(2, 1, pixels.clone());
    let decoded = load_image_rgba8_from_bytes(&png).expect("decode");
    assert_eq!(decoded.width, 2);
    assert_eq!(decoded.height, 1);
    assert_eq!(decoded.data, pixels);
}

#[test]
fn decoding_garbage_is_an_error() {
    assert!(load_image_rgba8_from_bytes(b"not an image").is_err());
}

#[test]
fn image_length_check_names_both_lengths() {
    assert_eq!(check_rgba8_len(2, 3, 24), Ok(()));
    assert_eq!(
        check_rgba8_len(2, 3, 20),
        Err("Invalid image data length: expected 24, got 20".to_string())
    );
}

#[test]
fn too_large_message_names_file_size_and_limit() {
    assert_eq!(
        toki_core::text::too_large_message("palette file", "/p/a.json", 10, 8),
        "palette file is too large to load safely: /p/a.json (10 bytes, max 8)"
    );
}

#[test]
fn file_bytes_decode_in_the_format_their_extension_names() {
    let pixels = vec![9, 8, 7, 255];
    let png = encode_png(1, 1, pixels.clone());
    let decoded = load_image_rgba8_from_file_bytes(&png, "png").expect("decode");
    assert_eq!((decoded.width, decoded.height), (1, 1));
    assert_eq!(decoded.data, pixels);
    assert!(load_image_rgba8_from_file_bytes(&png, "PNG").is_ok());
    assert!(load_image_rgba8_from_file_bytes(&png, "bmp").is_err());
    assert!(load_image_rgba8_from_file_bytes(&png, "").is_err());
}
