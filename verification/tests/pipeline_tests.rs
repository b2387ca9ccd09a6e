use watermark_pipeline::img::Image;
use watermark_pipeline::pipeline::process_image;
use watermark_pipeline::pipeline::PipelineError;
use watermark_pipeline::transform::apply_watermark;
use watermark_pipeline::transform::attenuate_alpha;
use watermark_pipeline::transform::center_offset;
use watermark_pipeline::transform::composite_over;
use watermark_pipeline::transform::resize_nearest;
use watermark_pipeline::transform::target_dims;

fn solid_image(width: u32, height: u32, px: [u8; 4]) -> Image {
    let mut data: Vec<u8> = Vec::new();
    for _ in 0..(width as usize) * (height as usize) {
        data.extend_from_slice(&px);
    }
    Image { width, height, data }
}

fn solid_png(width: u32, height: u32, px: [u8; 4]) -> Vec<u8> {
    let img = image::RgbaImage::from_pixel(width, height, image::Rgba(px));
    let mut bytes: Vec<u8> = Vec::new();
    img.write_to(&mut std::io::Cursor::new(&mut bytes), image::ImageFormat::Png)
        .unwrap();
    bytes
}

fn decoded_dims(bytes: &[u8]) -> (u32, u32) {
    let img = image::load_from_memory(bytes).unwrap();
    (img.width(), img.height())
}

fn pixel(im: &Image, x: u32, y: u32) -> [u8; 4] {
    [im.get(x, y, 0), im.get(x, y, 1), im.get(x, y, 2), im.get(x, y, 3)]
}

#[test]
fn target_dims_wide_is_landscape() {
    assert_eq!(target_dims(2000, 1000), (1600, 1200));
}

#[test]
fn target_dims_tall_is_portrait() {
    assert_eq!(target_dims(800, 1000), (1200, 1600));
}

#[test]
fn target_dims_square_is_portrait() {
    assert_eq!(target_dims(500, 500), (1200, 1600));
}

#[test]
fn center_offset_values() {
    assert_eq!(center_offset(1600, 100), 750);
    assert_eq!(center_offset(1200, 100), 550);
    assert_eq!(center_offset(5, 3), 1);
    // Floor division: the offset of a larger span inside a smaller one
    // rounds toward negative infinity.
    assert_eq!(center_offset(100, 101), -1);
    assert_eq!(center_offset(100, 104), -2);
}

#[test]
fn attenuation_opaque_becomes_204() {
    let wm = solid_image(3, 2, [10, 20, 30, 255]);
    let out = attenuate_alpha(&wm);
    assert_eq!(pixel(&out, 2, 1), [10, 20, 30, 204]);
}

#[test]
fn attenuation_zero_stays_zero() {
    let wm = solid_image(2, 2, [10, 20, 30, 0]);
    let out = attenuate_alpha(&wm);
    assert_eq!(pixel(&out, 0, 0), [10, 20, 30, 0]);
}

#[test]
fn attenuation_truncates() {
    let wm = solid_image(1, 1, [0, 0, 0, 101]);
    let out = attenuate_alpha(&wm);
    // floor(101 * 0.8) = floor(80.8) = 80
    assert_eq!(out.get(0, 0, 3), 80);
}

#[test]
fn resize_stretches_to_exact_dimensions() {
    // A 2x1 source, left pixel A and right pixel B, stretched to 1600x1200:
    // the left half of every row is A and the right half is B.
    let a = [10, 20, 30, 255];
    let b = [200, 210, 220, 255];
    let mut data: Vec<u8> = Vec::new();
    data.extend_from_slice(&a);
    data.extend_from_slice(&b);
    let src = Image { width: 2, height: 1, data };
    let out = resize_nearest(&src, 1600, 1200);
    assert_eq!(out.width, 1600);
    assert_eq!(out.height, 1200);
    assert_eq!(pixel(&out, 0, 0), a);
    assert_eq!(pixel(&out, 799, 1199), a);
    assert_eq!(pixel(&out, 800, 0), b);
    assert_eq!(pixel(&out, 1599, 1199), b);
}

#[test]
fn transparent_watermark_leaves_destination_unchanged() {
    let dst = solid_image(4, 4, [1, 2, 3, 200]);
    let wm = solid_image(2, 2, [255, 255, 255, 0]);
    let out = composite_over(&dst, &wm, 1, 1);
    for y in 0..4 {
        for x in 0..4 {
            assert_eq!(pixel(&out, x, y), [1, 2, 3, 200]);
        }
    }
}

#[test]
fn oversize_watermark_is_clipped() {
    // The watermark exceeds the destination in both axes at a negative
    // offset; compositing completes and every destination pixel gets the
    // in-bounds blend.
    let dst = solid_image(2, 2, [0, 0, 0, 255]);
    let wm = solid_image(4, 4, [255, 255, 255, 255]);
    let out = composite_over(&dst, &wm, -1, -1);
    assert_eq!(out.width, 2);
    assert_eq!(out.height, 2);
    for y in 0..2 {
        for x in 0..2 {
            // Fully opaque watermark replaces the color entirely.
            assert_eq!(pixel(&out, x, y), [255, 255, 255, 255]);
        }
    }
}

#[test]
fn partially_overlapping_watermark_affects_only_overlap() {
    let dst = solid_image(4, 4, [9, 9, 9, 255]);
    let wm = solid_image(2, 2, [255, 255, 255, 255]);
    // Top-left corner of the watermark at (3, 3): only that destination
    // pixel overlaps.
    let out = composite_over(&dst, &wm, 3, 3);
    assert_eq!(pixel(&out, 3, 3), [255, 255, 255, 255]);
    assert_eq!(pixel(&out, 2, 3), [9, 9, 9, 255]);
    assert_eq!(pixel(&out, 3, 2), [9, 9, 9, 255]);
    assert_eq!(pixel(&out, 0, 0), [9, 9, 9, 255]);
}

#[test]
fn watermark_is_centered_and_blended_at_204() {
    // A 2000x1000 blue source with a 100x100 fully opaque white watermark:
    // the output is 1600x1200, the watermark region starts at (750, 550),
    // and inside it the colors blend at effective alpha 204.
    let src = solid_image(2000, 1000, [0, 0, 255, 255]);
    let wm = solid_image(100, 100, [255, 255, 255, 255]);
    let out = apply_watermark(&src, &wm);
    assert_eq!(out.width, 1600);
    assert_eq!(out.height, 1200);
    // Inside the watermark region: (255*204 + bg*51) / 255.
    let blended_white_over_zero = (255u32 * 204 / 255) as u8; // 204
    let blended_white_over_255 = ((255u32 * 204 + 255 * 51) / 255) as u8; // 255
    let inside = [
        blended_white_over_zero,
        blended_white_over_zero,
        blended_white_over_255,
        255,
    ];
    assert_eq!(pixel(&out, 750, 550), inside);
    assert_eq!(pixel(&out, 849, 649), inside);
    assert_eq!(pixel(&out, 800, 600), inside);
    // Just outside the region the source color is untouched.
    assert_eq!(pixel(&out, 749, 550), [0, 0, 255, 255]);
    assert_eq!(pixel(&out, 750, 549), [0, 0, 255, 255]);
    assert_eq!(pixel(&out, 850, 650), [0, 0, 255, 255]);
}

#[test]
fn landscape_source_roundtrips_to_1600_by_1200() {
    let src = solid_png(2000, 1000, [0, 0, 255, 255]);
    let wm = solid_png(100, 100, [255, 255, 255, 255]);
    let jpeg = process_image(&src, &wm).unwrap();
    assert_eq!(decoded_dims(&jpeg), (1600, 1200));
}

#[test]
fn portrait_source_roundtrips_to_1200_by_1600() {
    let src = solid_png(800, 1000, [10, 200, 40, 255]);
    let wm = solid_png(100, 100, [255, 255, 255, 255]);
    let jpeg = process_image(&src, &wm).unwrap();
    assert_eq!(decoded_dims(&jpeg), (1200, 1600));
}

#[test]
fn output_is_jpeg_encoded() {
    let src = solid_png(40, 20, [128, 128, 128, 255]);
    let wm = solid_png(4, 4, [255, 255, 255, 128]);
    let jpeg = process_image(&src, &wm).unwrap();
    // JPEG streams begin with the SOI marker.
    assert_eq!(&jpeg[0..2], &[0xFF, 0xD8]);
    let guessed = image::guess_format(&jpeg).unwrap();
    assert_eq!(guessed, image::ImageFormat::Jpeg);
}

#[test]
fn corrupt_source_is_rejected() {
    let wm = solid_png(4, 4, [255, 255, 255, 255]);
    let corrupt: Vec<u8> = vec![0, 1, 2, 3, 4, 5, 6, 7];
    assert_eq!(
        process_image(&corrupt, &wm),
        Err(PipelineError::DecodeSource)
    );
}

#[test]
fn corrupt_watermark_is_rejected() {
    let src = solid_png(4, 4, [255, 0, 0, 255]);
    let corrupt: Vec<u8> = vec![255, 254, 253];
    assert_eq!(
        process_image(&src, &corrupt),
        Err(PipelineError::DecodeWatermark)
    );
}
