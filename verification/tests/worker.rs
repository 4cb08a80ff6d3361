use image_viewer::error::Error;
use image_viewer::geometry::Envelope;
use image_viewer::worker::{process, thumbnail_of, FailureKind, RawImage, ThumbnailOutcome};
use std::io::{Cursor, ErrorKind};

fn decode(path: &str, bytes: &[u8]) -> Result<RawImage, FailureKind> {
    let format = image::ImageFormat::from_path(path).map_err(|_| FailureKind::InvalidImage)?;
    let decoded = image::ImageReader::with_format(Cursor::new(bytes), format)
        .decode()
        .map_err(|_| FailureKind::InvalidImage)?;
    let rgba = decoded.into_rgba8();
    Ok(RawImage { width: rgba.width(), height: rgba.height(), pixels: rgba.into_raw() })
}

fn read_and_process(path: &str, bytes: Vec<u8>, envelope: &Envelope) -> ThumbnailOutcome {
    process(Ok(decode(path, &bytes)), envelope)
}

fn encoded(width: u32, height: u32, format: image::ImageFormat, pixel: [u8; 4]) -> Vec<u8> {
    let source = image::RgbaImage::from_pixel(width, height, image::Rgba(pixel));
    let mut out = Cursor::new(Vec::new());
    source.write_to(&mut out, format).unwrap();
    out.into_inner()
}

fn gradient(width: u32, height: u32) -> Vec<u8> {
    let mut pixels = Vec::new();
    for y in 0..height {
        for x in 0..width {
            for channel in 0..4u32 {
                pixels.push((10 * x + 100 * y + channel) as u8);
            }
        }
    }
    pixels
}

fn bitmap_of(outcome: ThumbnailOutcome) -> (u32, u32, Vec<u8>) {
    match outcome {
        ThumbnailOutcome::Bitmap(bitmap) => (bitmap.width, bitmap.height, bitmap.pixels),
        ThumbnailOutcome::Failed(kind) => panic!("no bitmap: {:?}", kind),
    }
}

#[test]
fn unreadable_file_is_a_failure_of_its_own() {
    let envelope = Envelope::thumbnail();
    let outcome = process(Err(Error::IoError(ErrorKind::NotFound)), &envelope);
    assert!(matches!(outcome, ThumbnailOutcome::Failed(FailureKind::Unreadable)));
    let outcome = process(Err(Error::DialogClosed), &envelope);
    assert!(matches!(outcome, ThumbnailOutcome::Failed(FailureKind::Unreadable)));
}

#[test]
fn failed_decode_keeps_its_kind() {
    let envelope = Envelope::thumbnail();
    for kind in [FailureKind::InvalidImage, FailureKind::EmptyImage, FailureKind::Unreadable] {
        match process(Ok(Err(kind)), &envelope) {
            ThumbnailOutcome::Failed(got) => assert_eq!(got, kind),
            ThumbnailOutcome::Bitmap(_) => panic!("a bitmap out of a failure"),
        }
    }
}

#[test]
fn decoded_image_without_pixels_is_empty() {
    let envelope = Envelope::thumbnail();
    let image = RawImage { width: 0, height: 0, pixels: Vec::new() };
    assert!(matches!(
        process(Ok(Ok(image)), &envelope),
        ThumbnailOutcome::Failed(FailureKind::EmptyImage)
    ));
}

#[test]
fn corrupt_file_is_an_invalid_image() {
    let envelope = Envelope::thumbnail();
    let outcome = read_and_process("/a/x.png", vec![1, 2, 3, 4, 5], &envelope);
    assert!(matches!(outcome, ThumbnailOutcome::Failed(FailureKind::InvalidImage)));
    let outcome = read_and_process("/a/x.png", Vec::new(), &envelope);
    assert!(matches!(outcome, ThumbnailOutcome::Failed(FailureKind::InvalidImage)));
}

#[test]
fn truncated_file_is_an_invalid_image() {
    let envelope = Envelope::thumbnail();
    let mut bytes = encoded(8, 8, image::ImageFormat::Png, [1, 2, 3, 255]);
    bytes.truncate(bytes.len() / 2);
    let outcome = read_and_process("/a/x.png", bytes, &envelope);
    assert!(matches!(outcome, ThumbnailOutcome::Failed(FailureKind::InvalidImage)));
}

#[test]
fn unknown_extension_is_an_invalid_image() {
    let envelope = Envelope::thumbnail();
    let bytes = encoded(2, 2, image::ImageFormat::Png, [1, 2, 3, 255]);
    let outcome = read_and_process("/a/x.unknownext", bytes.clone(), &envelope);
    assert!(matches!(outcome, ThumbnailOutcome::Failed(FailureKind::InvalidImage)));
    let outcome = read_and_process("/a/no_extension", bytes, &envelope);
    assert!(matches!(outcome, ThumbnailOutcome::Failed(FailureKind::InvalidImage)));
}

#[test]
fn format_goes_by_the_extension_not_the_contents() {
    let envelope = Envelope::thumbnail();
    let bytes = encoded(2, 2, image::ImageFormat::Png, [1, 2, 3, 255]);
    let outcome = read_and_process("/a/x.bmp", bytes, &envelope);
    assert!(matches!(outcome, ThumbnailOutcome::Failed(FailureKind::InvalidImage)));
}

#[test]
fn small_png_is_decoded_and_left_as_it_is() {
    let envelope = Envelope::thumbnail();
    let bytes = encoded(3, 2, image::ImageFormat::Png, [10, 20, 30, 255]);
    let (width, height, pixels) = bitmap_of(read_and_process("/a/x.png", bytes, &envelope));
    assert_eq!((width, height), (3, 2));
    assert_eq!(pixels, [10u8, 20, 30, 255].repeat(6));
}

#[test]
fn upper_case_extension_is_decoded() {
    let envelope = Envelope::thumbnail();
    let bytes = encoded(1, 1, image::ImageFormat::Bmp, [9, 8, 7, 255]);
    let (width, height, pixels) = bitmap_of(read_and_process("/a/X.BMP", bytes, &envelope));
    assert_eq!((width, height), (1, 1));
    assert_eq!(pixels, vec![9, 8, 7, 255]);
}

#[test]
fn image_without_alpha_becomes_opaque_rgba() {
    let envelope = Envelope::thumbnail();
    let source = image::RgbImage::from_pixel(2, 1, image::Rgb([5, 6, 7]));
    let mut out = Cursor::new(Vec::new());
    source.write_to(&mut out, image::ImageFormat::Png).unwrap();
    let (width, height, pixels) = bitmap_of(read_and_process("/a/x.png", out.into_inner(), &envelope));
    assert_eq!((width, height), (2, 1));
    assert_eq!(pixels, vec![5, 6, 7, 255, 5, 6, 7, 255]);
}

#[test]
fn large_png_is_shrunk_into_the_envelope() {
    let envelope = Envelope::new(50, 50).unwrap();
    let bytes = encoded(400, 200, image::ImageFormat::Png, [40, 50, 60, 255]);
    let (width, height, pixels) = bitmap_of(read_and_process("/a/x.png", bytes, &envelope));
    assert_eq!((width, height), (50, 25));
    assert_eq!(pixels, [40u8, 50, 60, 255].repeat(50 * 25));
}

#[test]
fn resizing_4000_by_2000_gives_500_by_250() {
    let envelope = Envelope::thumbnail();
    let image = RawImage { width: 4000, height: 2000, pixels: vec![7; 4 * 4000 * 2000] };
    let (width, height, pixels) = bitmap_of(thumbnail_of(image, &envelope));
    assert_eq!((width, height), (500, 250));
    assert_eq!(pixels.len(), 4 * 500 * 250);
    assert!(pixels.iter().all(|sample| *sample == 7));
}

#[test]
fn resizing_100_by_100_changes_nothing() {
    let envelope = Envelope::thumbnail();
    let pixels: Vec<u8> = (0..4 * 100 * 100).map(|i| (i % 251) as u8).collect();
    let image = RawImage { width: 100, height: 100, pixels: pixels.clone() };
    let (width, height, out) = bitmap_of(thumbnail_of(image, &envelope));
    assert_eq!((width, height), (100, 100));
    assert_eq!(out, pixels);
}

#[test]
fn shrinking_averages_blocks_of_pixels() {
    let envelope = Envelope::new(2, 1).unwrap();
    let image = RawImage { width: 4, height: 2, pixels: gradient(4, 2) };
    let (width, height, pixels) = bitmap_of(thumbnail_of(image, &envelope));
    assert_eq!((width, height), (2, 1));
    assert_eq!(pixels, vec![55, 56, 57, 58, 75, 76, 77, 78]);
}

#[test]
fn shrinking_one_axis_only() {
    let envelope = Envelope::new(2, 2).unwrap();
    let image = RawImage { width: 4, height: 1, pixels: gradient(4, 1) };
    let (width, height, pixels) = bitmap_of(thumbnail_of(image, &envelope));
    assert_eq!((width, height), (2, 1));
    assert_eq!(pixels, vec![5, 6, 7, 8, 25, 26, 27, 28]);
}

#[test]
fn image_without_pixels_is_empty() {
    let envelope = Envelope::thumbnail();
    for (width, height) in [(0, 0), (0, 5), (5, 0)] {
        let image = RawImage { width, height, pixels: Vec::new() };
        assert!(matches!(
            thumbnail_of(image, &envelope),
            ThumbnailOutcome::Failed(FailureKind::EmptyImage)
        ));
    }
}

#[test]
fn grid_with_missing_samples_is_invalid() {
    let envelope = Envelope::thumbnail();
    let image = RawImage { width: 2, height: 2, pixels: vec![0; 15] };
    assert!(matches!(
        thumbnail_of(image, &envelope),
        ThumbnailOutcome::Failed(FailureKind::InvalidImage)
    ));
    let image = RawImage { width: u32::MAX, height: u32::MAX, pixels: vec![0; 16] };
    assert!(matches!(
        thumbnail_of(image, &envelope),
        ThumbnailOutcome::Failed(FailureKind::InvalidImage)
    ));
}

#[test]
fn surplus_samples_are_cut_off() {
    let envelope = Envelope::thumbnail();
    let image = RawImage { width: 1, height: 1, pixels: vec![1, 2, 3, 4, 5, 6] };
    let (width, height, pixels) = bitmap_of(thumbnail_of(image, &envelope));
    assert_eq!((width, height), (1, 1));
    assert_eq!(pixels, vec![1, 2, 3, 4]);
}

#[test]
fn very_long_image_is_sampled_down() {
    let envelope = Envelope::thumbnail();
    let width: u32 = 0x100_0000;
    let image = RawImage { width, height: 1, pixels: vec![7; 4 * width as usize] };
    let (new_width, new_height, pixels) = bitmap_of(thumbnail_of(image, &envelope));
    assert_eq!((new_width, new_height), (500, 1));
    assert_eq!(pixels, vec![7; 4 * 500]);
}

#[test]
fn very_tall_image_is_sampled_down() {
    let envelope = Envelope::thumbnail();
    let height: u32 = 0x100_0000;
    let image = RawImage { width: 1, height, pixels: vec![9; 4 * height as usize] };
    let (new_width, new_height, pixels) = bitmap_of(thumbnail_of(image, &envelope));
    assert_eq!((new_width, new_height), (1, 500));
    assert_eq!(pixels, vec![9; 4 * 500]);
}

#[test]
fn largest_block_of_one_call_is_summed() {
    let envelope = Envelope::new(1, 1).unwrap();
    let image = RawImage { width: 4000, height: 4000, pixels: vec![200; 4 * 4000 * 4000] };
    let (width, height, pixels) = bitmap_of(thumbnail_of(image, &envelope));
    assert_eq!((width, height), (1, 1));
    assert_eq!(pixels, vec![200, 200, 200, 200]);
}

#[test]
fn blocks_too_large_for_one_call_are_sampled_in_two() {
    let envelope = Envelope::new(1, 1).unwrap();
    let side: usize = 4100;
    let mut pixels = vec![0u8; 4 * side * side];
    for y in 0..side {
        for x in side / 2..side {
            for channel in 0..4 {
                pixels[4 * (y * side + x) + channel] = 200;
            }
        }
    }
    let image = RawImage { width: 4100, height: 4100, pixels };
    let (width, height, pixels) = bitmap_of(thumbnail_of(image, &envelope));
    assert_eq!((width, height), (1, 1));
    assert_eq!(pixels, vec![100, 100, 100, 100]);
}

#[test]
fn no_size_is_a_failure() {
    let envelope = Envelope::new(3, 2).unwrap();
    for (width, height) in [(1u32, 1u32), (3, 2), (4, 2), (3, 3), (6000, 1), (1, 6000), (5000, 5000)] {
        let pixels = vec![50; 4 * width as usize * height as usize];
        let (new_width, new_height, out) =
            bitmap_of(thumbnail_of(RawImage { width, height, pixels }, &envelope));
        assert_eq!((new_width, new_height), envelope.fit(width, height));
        assert!(new_width <= 3 && new_height <= 2);
        assert_eq!(out, vec![50; 4 * new_width as usize * new_height as usize]);
    }
}
