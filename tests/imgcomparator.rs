use raytracer_rust::imgcomparator::{extract_rgb, pack_rgb, Image};

#[test]
fn test_compare_identical_images() {
    let data = vec![0xFF0000, 0x00FF00, 0x0000FF];
    let img1 = Image::new(3, 1, data.clone());
    let img2 = Image::new(3, 1, data.clone());

    let result = Image::compare(&img1, &img2);

    assert!(result.is_ok());
    let (_diff, diff_img) = result.unwrap();
    assert_eq!(diff_img.data, vec![0, 0, 0]);
    assert_eq!(diff_img.width, 3);
}

#[test]
fn test_compare_dimension_mismatch() {
    let img1 = Image::new(2, 2, vec![0; 4]);
    let img2 = Image::new(3, 3, vec![0; 9]);

    let result = Image::compare(&img1, &img2);

    assert!(result.is_err());
    assert_eq!(
        result.err(),
        Some("Images have different dimensions".to_string())
    );
}

#[test]
fn test_compare_calculates_difference_correctly() {
    let img1 = Image::new(2, 1, vec![0xFF0000, 0xFFFFFF]);
    let img2 = Image::new(2, 1, vec![0x000000, 0x0000FF]);

    let (_diff, img) = Image::compare(&img1, &img2).unwrap();

    assert_eq!(img.data[0], 0xFF0000);
    assert_eq!(img.data[1], 0xFFFF00);
}

#[test]
fn test_compare_channel_borrowing() {
    let img1 = Image::new(1, 1, vec![0x010000]);
    let img2 = Image::new(1, 1, vec![0x00FFFF]);

    let (_diff, img) = Image::compare(&img1, &img2).unwrap();

    assert_eq!(img.data[0], 0x01FFFF);
}

#[test]
fn compare_counts_only_pixels_beyond_tolerance() {
    // Off by one in every channel: within tolerance. Off by two in blue: counted.
    let img1 = Image::new(3, 1, vec![0x102030, 0x102030, 0x102030]);
    let img2 = Image::new(3, 1, vec![0x112131, 0x102032, 0x102030]);
    let (count, diff) = Image::compare(&img1, &img2).unwrap();
    assert_eq!(count, 1);
    assert_eq!(diff.data, vec![0, 0x000002, 0]);
    assert_eq!(diff.height, 1);
}

#[test]
fn compare_ignores_the_high_byte() {
    let img1 = Image::new(1, 1, vec![0xAA000000]);
    let img2 = Image::new(1, 1, vec![0x00000000]);
    let (count, diff) = Image::compare(&img1, &img2).unwrap();
    assert_eq!(count, 0);
    assert_eq!(diff.data, vec![0]);
}

#[test]
fn compare_identical_images_counts_nothing() {
    let data = vec![0x123456, 0xFFFFFF, 0, 0x0000FF];
    let img = Image::new(2, 2, data.clone());
    let (count, diff) = Image::compare(&img, &Image::new(2, 2, data)).unwrap();
    assert_eq!(count, 0);
    assert_eq!(diff.data, vec![0, 0, 0, 0]);
}

#[test]
fn compare_refuses_a_transposed_size() {
    let img1 = Image::new(2, 3, vec![0; 6]);
    let img2 = Image::new(3, 2, vec![0; 6]);
    assert!(Image::compare(&img1, &img2).is_err());
}

#[test]
fn extract_rgb_splits_channels() {
    assert_eq!(extract_rgb(0x123456), (0x12, 0x34, 0x56));
    assert_eq!(extract_rgb(0xFF00FF00), (0x00, 0xFF, 0x00));
    assert_eq!(extract_rgb(0), (0, 0, 0));
}

#[test]
fn pack_rgb_builds_pixel() {
    assert_eq!(pack_rgb(0x12, 0x34, 0x56), 0x123456);
    assert_eq!(pack_rgb(255, 255, 255), 0xFFFFFF);
    assert_eq!(pack_rgb(0, 0, 0), 0);
}

#[test]
fn pack_of_unpack_round_trips() {
    for p in [0u32, 1, 0xFF, 0x100, 0xABCDEF, 0xFFFFFF, 0x00FF00, 0x7F7F7F] {
        let (r, g, b) = extract_rgb(p);
        assert_eq!(pack_rgb(r, g, b), p);
    }
}

#[test]
fn rgb_bytes_round_trip() {
    let img = Image::new(2, 2, vec![0x010203, 0xFFFFFF, 0x000000, 0xA0B0C0]);
    let bytes = img.to_rgb_bytes();
    assert_eq!(
        bytes,
        vec![1, 2, 3, 255, 255, 255, 0, 0, 0, 0xA0, 0xB0, 0xC0]
    );
    let back = Image::from_rgb_bytes(2, 2, &bytes);
    assert_eq!(back, img);
}

#[test]
fn from_rgb_bytes_packs_triples() {
    let img = Image::from_rgb_bytes(1, 2, &[0x12, 0x34, 0x56, 9, 8, 7]);
    assert_eq!(img.width, 1);
    assert_eq!(img.height, 2);
    assert_eq!(img.data, vec![0x123456, 0x090807]);
}

#[test]
fn from_rows_lays_rows_out_in_order() {
    let rows = vec![vec![1, 2, 3], vec![4, 5, 6]];
    let img = Image::from_rows(3, 2, &rows);
    assert_eq!(img.width, 3);
    assert_eq!(img.height, 2);
    assert_eq!(img.data, vec![1, 2, 3, 4, 5, 6]);
}

#[test]
fn from_rows_of_an_empty_image() {
    let rows: Vec<Vec<u32>> = Vec::new();
    let img = Image::from_rows(5, 0, &rows);
    assert!(img.data.is_empty());
}

#[test]
fn png_round_trip_keeps_every_pixel() {
    let img = Image::new(3, 2, vec![0xFF0000, 0x00FF00, 0x0000FF, 0x123456, 0xFFFFFF, 0]);
    let png = img.to_png().unwrap();
    let back = Image::from_png(&png).unwrap();
    assert_eq!(back, img);
    let (count, _) = Image::compare(&img, &back).unwrap();
    assert_eq!(count, 0);
}

#[test]
fn png_stream_is_not_the_raw_channels() {
    let img = Image::new(1, 1, vec![0x0A0B0C]);
    let png = img.to_png().unwrap();
    assert_eq!(&png[..8], &[0x89, b'P', b'N', b'G', 0x0D, 0x0A, 0x1A, 0x0A]);
    assert_ne!(png, img.to_rgb_bytes());
}

#[test]
fn from_png_refuses_garbage() {
    assert!(Image::from_png(&[1, 2, 3, 4]).is_err());
    assert!(Image::from_png(&[]).is_err());
}

#[test]
fn to_png_refuses_an_empty_image() {
    assert!(Image::new(0, 0, vec![]).to_png().is_err());
    assert!(Image::new(4, 0, vec![]).to_png().is_err());
}
