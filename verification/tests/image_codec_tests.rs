use rook_core::image_handler::{decode_data_url, detect_image_dimensions, ImageHandler};

fn encoded(width: u32, height: u32, format: image::ImageFormat) -> Vec<u8> {
    let picture = image::DynamicImage::ImageRgb8(image::RgbImage::from_pixel(
        width,
        height,
        image::Rgb([200, 100, 50]),
    ));
    let mut buffer = std::io::Cursor::new(Vec::new());
    picture.write_to(&mut buffer, format).unwrap();
    buffer.into_inner()
}

#[test]
fn thumbnails_fit_the_square_and_are_kept() {
    let png = encoded(512, 128, image::ImageFormat::Png);
    let size = png.len();
    let mut handler = ImageHandler::new();
    handler.cache_image("wide", png);
    assert_eq!(handler.total_cache_size(), size);
    let thumbnail = handler.get_thumbnail("wide").unwrap();
    let small = image::load_from_memory(&thumbnail).unwrap();
    assert_eq!((small.width(), small.height()), (256, 64));
    assert_eq!(image::guess_format(&thumbnail).unwrap(), image::ImageFormat::Png);
    assert_eq!(handler.total_cache_size(), size + thumbnail.len());
    let again = handler.get_thumbnail("wide").unwrap();
    assert_eq!(again, thumbnail);
    assert_eq!(handler.total_cache_size(), size + thumbnail.len());
    assert!(handler.remove_image("wide"));
    assert_eq!(handler.total_cache_size(), 0);
}

#[test]
fn sizes_are_decoded_where_the_header_does_not_tell() {
    let webp = encoded(5, 7, image::ImageFormat::WebP);
    assert_eq!(&webp[0..4], b"RIFF");
    assert_eq!(detect_image_dimensions(&webp), Some((5, 7)));
    let jpeg = encoded(9, 3, image::ImageFormat::Jpeg);
    assert_eq!(detect_image_dimensions(&jpeg), Some((9, 3)));
    let png = encoded(11, 13, image::ImageFormat::Png);
    assert_eq!(detect_image_dimensions(&png), Some((11, 13)));
    assert_eq!(detect_image_dimensions(b"RIFF0000WEBPjunk"), None);
    assert_eq!(detect_image_dimensions(&[]), None);
}

#[test]
fn data_urls_are_decoded() {
    assert_eq!(decode_data_url("data:image/png;base64,AQID"), Ok(vec![1, 2, 3]));
    assert_eq!(decode_data_url(",AQID"), Ok(vec![1, 2, 3]));
    assert_eq!(decode_data_url("a,"), Ok(vec![]));
    assert_eq!(decode_data_url("é,/w=="), Ok(vec![255]));
    assert_eq!(decode_data_url("no comma"), Err("Invalid data URL format".to_string()));
    assert_eq!(decode_data_url(""), Err("Invalid data URL format".to_string()));
    match decode_data_url("a,b,c") {
        Err(msg) => assert!(msg.starts_with("Failed to decode base64: ")),
        Ok(_) => panic!("expected an error"),
    }
    match decode_data_url("x,AQI") {
        Err(msg) => assert!(msg.starts_with("Failed to decode base64: ")),
        Ok(_) => panic!("expected an error"),
    }
}
