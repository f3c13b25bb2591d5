use clipboard_history::failure::{INTERNAL_ERROR};
use clipboard_history::media::{
    blob_file_name, check_image_buffer, decode_png, downscale_to, image_within_edge, encode_png, jpeg_data_url, lightbox_data_url, lightbox_from_rgba,
    png_data_url, rgba_byte_len,
};

#[test]
fn base64_in_data_urls() {
    assert_eq!(png_data_url(b"Man"), "data:image/png;base64,TWFu");
    assert_eq!(png_data_url(b"Ma"), "data:image/png;base64,TWE=");
    assert_eq!(png_data_url(b"M"), "data:image/png;base64,TQ==");
    assert_eq!(png_data_url(b""), "data:image/png;base64,");
    assert_eq!(jpeg_data_url(&[0xfb, 0xff, 0xbf]), "data:image/jpeg;base64,+/+/");
    assert_eq!(jpeg_data_url(b"hello world"), "data:image/jpeg;base64,aGVsbG8gd29ybGQ=");
}

#[test]
fn png_round_trip() {
    let rgba = vec![255, 0, 0, 255, 0, 255, 0, 128, 0, 0, 255, 255, 10, 20, 30, 40];
    let png = encode_png(2, 2, &rgba).expect("encodes");
    assert_eq!(&png[1..4], b"PNG");
    let (w, h, px) = decode_png(&png).expect("decodes");
    assert_eq!((w, h), (2, 2));
    assert_eq!(px, rgba);
}

#[test]
fn png_refuses_short_buffer() {
    let err = encode_png(2, 2, &[0; 15]).unwrap_err();
    assert_eq!(err.code, INTERNAL_ERROR);
    assert_eq!(err.message, "Invalid image buffer");
}

#[test]
fn undecodable_blob_fails() {
    let err = decode_png(b"not an image").unwrap_err();
    assert_eq!(err.code, INTERNAL_ERROR);
    assert!(err.message.starts_with("Failed to decode image blob: "));
}

#[test]
fn lightbox_is_jpeg_data_url() {
    let rgb = vec![200u8; 4 * 3 * 3];
    let (w, h, url) = lightbox_data_url(4, 3, &rgb).expect("encodes");
    assert_eq!((w, h), (4, 3));
    assert!(url.starts_with("data:image/jpeg;base64,/9j/"));
    assert!(url.len() <= 1_500_000);
}

#[test]
fn lightbox_refuses_empty_image() {
    let err = lightbox_data_url(0, 3, &[]).unwrap_err();
    assert_eq!(err.code, INTERNAL_ERROR);
    assert!(err.message.starts_with("JPEG encode failed: "));
}

#[test]
fn lightbox_from_rgba_checks_buffer() {
    let err = lightbox_from_rgba(2, 2, vec![0; 3]).unwrap_err();
    assert_eq!(err.message, "Invalid image buffer");
    let (w, h, url) = lightbox_from_rgba(2, 1, vec![9, 9, 9, 255, 1, 2, 3, 255]).expect("ok");
    assert_eq!((w, h), (2, 1));
    assert!(url.starts_with("data:image/jpeg;base64,"));
    // the alpha byte of each pixel is dropped, whatever it holds
    let (_, _, from_rgb) = lightbox_data_url(2, 1, &[9, 9, 9, 1, 2, 3]).expect("ok");
    assert_eq!(url, from_rgb);
    let (_, _, other_alpha) = lightbox_from_rgba(2, 1, vec![9, 9, 9, 0, 1, 2, 3, 7]).expect("ok");
    assert_eq!(other_alpha, from_rgb);
}

#[test]
fn lightbox_large_noisy_image_lowers_quality() {
    // noise does not compress: a large image needs a lower quality or hits the floor
    let (w, h) = (1200u32, 1200u32);
    let mut rgb = Vec::with_capacity((w * h * 3) as usize);
    let mut x: u32 = 12345;
    for _ in 0..(w * h * 3) {
        x = x.wrapping_mul(1103515245).wrapping_add(12345);
        rgb.push((x >> 16) as u8);
    }
    let (_, _, url) = lightbox_data_url(w, h, &rgb).expect("encodes");
    assert!(url.starts_with("data:image/jpeg;base64,"));
}

#[test]
fn rgba_length_saturates() {
    assert_eq!(rgba_byte_len(3, 2), 24);
    assert_eq!(rgba_byte_len(0, 100), 0);
    assert_eq!(rgba_byte_len(u32::MAX, u32::MAX), (u32::MAX as usize * u32::MAX as usize).saturating_mul(4));
}

#[test]
fn blob_names() {
    assert_eq!(blob_file_name("abc-1"), "blobs/abc-1.png");
}

#[test]
fn png_needs_both_edges() {
    let err = encode_png(0, 5, &[]).unwrap_err();
    assert_eq!(err.code, INTERNAL_ERROR);
    assert!(err.message.starts_with("PNG encode failed: "));
    assert!(encode_png(1, 1, &[1, 2, 3, 4]).is_ok());
}

#[test]
fn png_round_trip_keeps_only_the_image_bytes() {
    let rgba = vec![5u8, 6, 7, 8, 9, 9, 9, 9];
    let png = encode_png(1, 1, &rgba).expect("encodes");
    let (w, h, px) = decode_png(&png).expect("decodes");
    assert_eq!((w, h), (1, 1));
    assert_eq!(px, vec![5, 6, 7, 8]);
}

fn jpeg_url_at(rgb: &[u8], w: u32, h: u32, quality: u8) -> String {
    let mut out = std::io::Cursor::new(Vec::new());
    let encoder = image::codecs::jpeg::JpegEncoder::new_with_quality(&mut out, quality);
    image::ImageEncoder::write_image(encoder, rgb, w, h, image::ExtendedColorType::Rgb8).unwrap();
    jpeg_data_url(&out.into_inner())
}

#[test]
fn lightbox_keeps_quality_40_past_the_limit() {
    // noise does not compress: even quality 40 stays above the limit, and is taken
    let (w, h) = (1900u32, 1900u32);
    let mut rgb = Vec::with_capacity((w * h * 3) as usize);
    let mut x: u32 = 99;
    for _ in 0..(w * h * 3) {
        x = x.wrapping_mul(1664525).wrapping_add(1013904223);
        rgb.push((x >> 24) as u8);
    }
    let (rw, rh, url) = lightbox_data_url(w, h, &rgb).expect("encodes");
    assert_eq!((rw, rh), (w, h));
    let q40 = jpeg_url_at(&rgb, w, h, 40);
    assert!(q40.len() > 1_500_000);
    assert_eq!(url, q40);
}

#[test]
fn lightbox_small_image_keeps_quality_85() {
    let rgb: Vec<u8> = (0..(8 * 8 * 3)).map(|i| (i * 7 % 256) as u8).collect();
    let (_, _, url) = lightbox_data_url(8, 8, &rgb).expect("encodes");
    assert_eq!(url, jpeg_url_at(&rgb, 8, 8, 85));
}

#[test]
fn image_buffer_checks() {
    let e = check_image_buffer(2, 2, 15).unwrap_err();
    assert_eq!((e.code, e.message.as_str()), (INTERNAL_ERROR, "Image buffer is truncated"));
    assert_eq!(check_image_buffer(2, 2, 20).unwrap(), 16);
    let e = check_image_buffer(u32::MAX, u32::MAX, 10).unwrap_err();
    assert_eq!(e.message, "Image buffer is truncated");
}

#[test]
fn image_within_edge_keeps_or_asks_for_scaling() {
    let rgba = vec![1u8; 2 * 3 * 4 + 3];
    match image_within_edge(2, 3, &rgba, 4).unwrap() {
        Some((w, h, px)) => {
            assert_eq!((w, h), (2, 3));
            assert_eq!(px.len(), 24);
        },
        None => panic!("within the edge"),
    }
    assert!(image_within_edge(5, 3, &vec![0u8; 60], 4).unwrap().is_none());
    let e = image_within_edge(2, 3, &[0u8; 5], 4).unwrap_err();
    assert_eq!(e.message, "Image buffer is truncated");
}

#[test]
fn downscale_scales_the_image_bytes() {
    let rgba: Vec<u8> = (0..(6 * 4 * 4)).map(|i| (i * 13 % 256) as u8).collect();
    let mut padded = rgba.clone();
    padded.extend_from_slice(&[1, 2, 3]);
    let (w, h, px) = downscale_to(6, 4, &padded, 3, 2).expect("scales");
    assert_eq!((w, h), (3, 2));
    let img = image::RgbaImage::from_raw(6, 4, rgba).unwrap();
    let expected = image::imageops::resize(&img, 3, 2, image::imageops::FilterType::Triangle).into_raw();
    assert_eq!(px.len(), 3 * 2 * 4);
    assert_eq!(px, expected);
    assert_ne!(px, padded[..24].to_vec());
}

#[test]
fn downscale_refuses_short_buffer() {
    let e = downscale_to(6, 4, &[0u8; 95], 3, 2).unwrap_err();
    assert_eq!((e.code, e.message.as_str()), (INTERNAL_ERROR, "Image buffer is truncated"));
}
