use rook_core::image_cache::{cache_image, clear_cache, get_cached_image, ImageCache};
use rook_core::image_handler::{
    detect_image_dimensions, get_cache_stats, remove_cached_image, ImageError, ImageFormat,
    ImageHandler, MAX_CACHE_SIZE,
};

#[test]
fn test_image_handler_cache() {
    let mut handler = ImageHandler::new();
    let image_data = vec![0x89, 0x50, 0x4E, 0x47];

    handler.cache_image("test-image", image_data.clone());

    assert!(handler.has_image("test-image"));
    assert_eq!(handler.get_image_size("test-image"), Some(4));
    assert_eq!(handler.cache_count(), 1);
    assert_eq!(handler.total_cache_size(), 4);
}

#[test]
fn test_image_handler_remove() {
    let mut handler = ImageHandler::new();
    handler.cache_image("test-image", vec![1, 2, 3]);

    assert!(handler.remove_image("test-image"));
    assert!(!handler.has_image("test-image"));
    assert_eq!(handler.total_cache_size(), 0);
}

#[test]
fn test_image_handler_clear() {
    let mut handler = ImageHandler::new();
    handler.cache_image("image-1", vec![1]);
    handler.cache_image("image-2", vec![2]);

    handler.clear_cache();

    assert_eq!(handler.cache_count(), 0);
    assert_eq!(handler.total_cache_size(), 0);
}

#[test]
fn test_image_not_found() {
    let mut handler = ImageHandler::new();
    let result = handler.get_image_response("nonexistent");

    assert!(result.is_err());
    match result {
        Err(ImageError::NotFound(id)) => assert_eq!(id, "nonexistent"),
        _ => panic!("Expected NotFound error"),
    }
}

#[test]
fn test_cache_update_size_tracking() {
    let mut handler = ImageHandler::new();

    handler.cache_image("test", vec![1, 2, 3, 4, 5]);
    assert_eq!(handler.total_cache_size(), 5);

    handler.cache_image("test", vec![1, 2]);
    assert_eq!(handler.total_cache_size(), 2);

    handler.cache_image("test", vec![1, 2, 3, 4, 5, 6, 7, 8]);
    assert_eq!(handler.total_cache_size(), 8);
}

#[test]
fn test_multiple_images_size_tracking() {
    let mut handler = ImageHandler::new();

    handler.cache_image("img1", vec![1, 2, 3]);
    handler.cache_image("img2", vec![4, 5, 6, 7]);
    handler.cache_image("img3", vec![8, 9]);

    assert_eq!(handler.cache_count(), 3);
    assert_eq!(handler.total_cache_size(), 9);
}

#[test]
fn cached_bytes_come_back() {
    let mut handler = ImageHandler::new();
    handler.cache_image("a", vec![9, 8, 7]);
    assert_eq!(handler.get_image_bytes("a"), Some(vec![9, 8, 7]));
    assert_eq!(handler.get_image_bytes("b"), None);
    assert_eq!(handler.get_image_response("a").ok(), Some(vec![9, 8, 7]));
    assert_eq!(handler.get_cached_ids(), vec!["a".to_string()]);
    assert!(!handler.remove_image("b"));
    assert_eq!(get_cache_stats(&handler), (1, 3));
    assert!(remove_cached_image(&mut handler, "a"));
    assert_eq!(get_cache_stats(&handler), (0, 0));
}

#[test]
fn least_recently_used_image_leaves_first() {
    let half = MAX_CACHE_SIZE / 2;
    let mut handler = ImageHandler::new();
    handler.cache_image_with_dimensions("old", vec![0u8; half], 1, 1);
    handler.cache_image_with_dimensions("new", vec![0u8; half], 1, 1);
    assert_eq!(handler.total_cache_size(), MAX_CACHE_SIZE);
    assert!(handler.get_image_bytes("old").is_some());
    handler.cache_image_with_dimensions("more", vec![0u8; 10], 1, 1);
    assert!(handler.has_image("old"));
    assert!(!handler.has_image("new"));
    assert!(handler.has_image("more"));
    assert_eq!(handler.total_cache_size(), half + 10);
    handler.cache_image_with_dimensions("huge", vec![0u8; MAX_CACHE_SIZE + 1], 1, 1);
    assert_eq!(handler.cache_count(), 1);
    assert!(handler.has_image("huge"));
    assert_eq!(handler.total_cache_size(), MAX_CACHE_SIZE + 1);
}

#[test]
fn stale_use_of_an_uncached_id_counts_for_eviction() {
    let half = MAX_CACHE_SIZE / 2;
    let mut handler = ImageHandler::new();
    assert_eq!(handler.get_image_bytes("late"), None);
    handler.cache_image_with_dimensions("early", vec![0u8; half], 1, 1);
    handler.cache_image_with_dimensions("late", vec![0u8; half], 1, 1);
    handler.cache_image_with_dimensions("more", vec![0u8; 1], 1, 1);
    assert!(!handler.has_image("late"));
    assert!(handler.has_image("early"));
    assert!(handler.has_image("more"));
}

#[test]
fn formats_by_magic_bytes() {
    let mut png = vec![0x89, 0x50, 0x4E, 0x47, 0x0D, 0x0A, 0x1A, 0x0A, 0, 0, 0, 13];
    assert_eq!(ImageFormat::from_bytes(&png), ImageFormat::Png);
    assert_eq!(ImageFormat::from_bytes(&png[..11]), ImageFormat::Unknown);
    let jpeg = [0xFF, 0xD8, 0xFF, 0xE0, 0, 0, 0, 0, 0, 0, 0, 0];
    assert_eq!(ImageFormat::from_bytes(&jpeg), ImageFormat::Jpeg);
    let webp = *b"RIFF\x00\x00\x00\x00WEBP";
    assert_eq!(ImageFormat::from_bytes(&webp), ImageFormat::WebP);
    assert_eq!(ImageFormat::from_bytes(&[0u8; 12]), ImageFormat::Unknown);
    assert_eq!(ImageFormat::Png.mime_type(), "image/png");
    assert_eq!(ImageFormat::Jpeg.mime_type(), "image/jpeg");
    assert_eq!(ImageFormat::WebP.mime_type(), "image/webp");
    assert_eq!(ImageFormat::Unknown.mime_type(), "application/octet-stream");
    png.extend_from_slice(b"IHDR");
    png.extend_from_slice(&[0, 0, 1, 44, 0, 0, 0, 200]);
    assert_eq!(detect_image_dimensions(&png), Some((300, 200)));
    let mut handler = ImageHandler::new();
    handler.cache_image("p", png);
    assert_eq!(handler.get_image_info("p"), Some((300, 200, ImageFormat::Png)));
    handler.cache_image_with_dimensions("q", vec![1, 2, 3], 7, 9);
    assert_eq!(handler.get_image_info("q"), Some((7, 9, ImageFormat::Unknown)));
    handler.cache_image_with_dimensions("r", vec![1, 2, 3], 7, 0);
    assert_eq!(handler.get_image_info("r"), Some((0, 0, ImageFormat::Unknown)));
}

#[test]
fn jpeg_size_from_start_of_frame() {
    let mut jpeg = vec![0xFF, 0xD8];
    jpeg.extend_from_slice(&[0xFF, 0xE0, 0x00, 0x04, 0xAA, 0xBB]);
    jpeg.extend_from_slice(&[0xFF, 0xC0, 0x00, 0x11, 0x08, 0x00, 0x64, 0x01, 0x90]);
    jpeg.extend_from_slice(&[0; 12]);
    assert_eq!(detect_image_dimensions(&jpeg), Some((400, 100)));
    let cut = [0xFF, 0xD8, 0xFF, 0xE0, 0xFF, 0xFF, 0, 0, 0, 0, 0, 0, 0];
    assert_eq!(detect_image_dimensions(&cut), None);
    assert_eq!(detect_image_dimensions(&[1, 2, 3]), None);
}

#[test]
fn thumbnails_need_decodable_data() {
    let mut handler = ImageHandler::new();
    handler.cache_image("junk", vec![1, 2, 3]);
    assert!(matches!(handler.get_thumbnail("junk"), Err(ImageError::ThumbnailFailed)));
    match handler.get_thumbnail("none") {
        Err(ImageError::NotFound(id)) => assert_eq!(id, "none"),
        _ => panic!("expected a missing image"),
    }
    assert_eq!(handler.total_cache_size(), 3);
}

#[test]
fn error_messages() {
    assert_eq!(ImageError::NotFound("x".to_string()).to_string(), "Image not found: x");
    assert_eq!(ImageError::StreamFailed("y".to_string()).to_string(), "Failed to stream image: y");
    assert_eq!(ImageError::InvalidData.to_string(), "Invalid image data");
    assert_eq!(ImageError::IoError("z".to_string()).to_string(), "IO error: z");
    assert_eq!(ImageError::InvalidDataUrl.to_string(), "Invalid data URL format");
    assert_eq!(ImageError::CacheSizeExceeded.to_string(), "Cache size exceeded");
    assert_eq!(ImageError::ThumbnailFailed.to_string(), "Thumbnail generation failed");
}

#[test]
fn plain_store_keeps_the_latest_bytes() {
    let mut cache = ImageCache::new();
    assert_eq!(cache.get("a"), None);
    cache.store("a", vec![1]);
    cache.store("a", vec![2, 3]);
    cache_image(&mut cache, "b", vec![4]);
    assert_eq!(cache.get("a"), Some(&vec![2, 3]));
    assert_eq!(get_cached_image(&cache, "b"), Some(vec![4]));
    assert!(cache._remove("a"));
    assert!(!cache._remove("a"));
    assert_eq!(get_cached_image(&cache, "a"), None);
    clear_cache(&mut cache);
    assert_eq!(get_cached_image(&cache, "b"), None);
}

#[test]
fn identifiers_are_listed_in_the_order_of_entry() {
    let mut handler = ImageHandler::new();
    handler.cache_image("a", vec![1]);
    handler.cache_image("b", vec![2, 2]);
    handler.cache_image("c", vec![3, 3, 3]);
    assert_eq!(handler.get_cached_ids(), vec!["a", "b", "c"]);
    assert_eq!(handler.cache_count(), 3);
    assert!(handler.remove_image("b"));
    assert!(!handler.remove_image("b"));
    assert_eq!(handler.get_cached_ids(), vec!["a", "c"]);
    assert_eq!(handler.cache_count(), 2);
    assert_eq!(handler.total_cache_size(), 4);
    handler.cache_image("a", vec![9, 9]);
    assert_eq!(handler.get_cached_ids(), vec!["c", "a"]);
    assert_eq!(handler.get_image_size("a"), Some(2));
    assert_eq!(handler.get_image_size("b"), None);
    assert_eq!(handler.get_image_bytes("c"), Some(vec![3, 3, 3]));
    assert_eq!(handler.total_cache_size(), 5);
    handler.clear_cache();
    assert_eq!(handler.cache_count(), 0);
    assert!(handler.get_cached_ids().is_empty());
    assert!(!handler.has_image("a"));
}
