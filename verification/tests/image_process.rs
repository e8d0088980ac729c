use fastvlm::image_process::{
    fit_within, letterbox, resize_with_padding, to_tensor, FastVLMImageProcessor, PixelImage, RgbFrame,
    SIDE_LIMIT, TARGET_SIZE,
};
use fastvlm::FastVLMError;

fn rgba_frame(width: u32, height: u32, colour: [u8; 4]) -> Vec<u8> {
    let mut data = Vec::new();
    for _ in 0..(width * height) {
        data.extend_from_slice(&colour);
    }
    data
}

#[test]
fn from_rgba_takes_a_buffer_of_the_right_length() {
    let data: Vec<u8> = (0..16).collect();
    let image = PixelImage::from_rgba(data.clone(), 2, 2).unwrap();
    assert_eq!(image.width, 2);
    assert_eq!(image.height, 2);
    assert_eq!(image.data, data);
}

#[test]
fn from_rgba_cuts_one_extra_pixel() {
    let data: Vec<u8> = (0..20).collect();
    let image = PixelImage::from_rgba(data, 2, 2).unwrap();
    assert_eq!(image.data.len(), 16);
    assert_eq!(image.data, (0..16).collect::<Vec<u8>>());
}

#[test]
fn from_rgba_refuses_a_short_buffer() {
    let data: Vec<u8> = (0..15).collect();
    let result = PixelImage::from_rgba(data, 2, 2);
    match result {
        Err(e) => assert_eq!(e, FastVLMError::ImageShape { actual: 15, expected: 16 }),
        Ok(_) => panic!("a short buffer was accepted"),
    }
}

#[test]
fn from_rgba_counts_large_frames_without_overflow() {
    let result = PixelImage::from_rgba(vec![0u8; 8], 65536, 65536);
    match result {
        Err(e) => assert_eq!(e, FastVLMError::ImageShape { actual: 8, expected: 17_179_869_184 }),
        Ok(_) => panic!("a short buffer was accepted"),
    }
}

#[test]
fn from_rgba_takes_an_empty_frame() {
    let image = PixelImage::from_rgba(vec![1, 2, 3], 0, 7).unwrap();
    assert!(image.data.is_empty());
}

#[test]
fn extra_pixel_is_processed_like_the_exact_frame() {
    let processor = FastVLMImageProcessor { crop_size: (4, 4) };
    let exact = rgba_frame(2, 2, [9, 8, 7, 255]);
    let mut longer = exact.clone();
    longer.extend_from_slice(&[1, 2, 3, 4]);
    let a = processor.preprocess(&PixelImage::from_rgba(exact, 2, 2).unwrap()).unwrap();
    let b = processor.preprocess(&PixelImage::from_rgba(longer, 2, 2).unwrap()).unwrap();
    assert_eq!(a.pixel_values.data, b.pixel_values.data);
    assert_eq!(b.pixel_values.shape(), [1, 3, 4, 4]);
}

#[test]
fn to_rgb_drops_alpha() {
    let image = PixelImage::from_rgba(vec![1, 2, 3, 4, 5, 6, 7, 8], 2, 1).unwrap();
    let rgb = image.to_rgb();
    assert_eq!(rgb.width, 2);
    assert_eq!(rgb.height, 1);
    assert_eq!(rgb.data, vec![1, 2, 3, 5, 6, 7]);
}

#[test]
fn fit_within_scales_by_the_smaller_ratio() {
    assert_eq!(fit_within(2000, 1000, 1024, 1024), (1024, 512));
    assert_eq!(fit_within(1000, 2000, 1024, 1024), (512, 1024));
    assert_eq!(fit_within(1024, 1024, 1024, 1024), (1024, 1024));
    assert_eq!(fit_within(512, 512, 1024, 1024), (1024, 1024));
    assert_eq!(fit_within(3, 7, 1024, 1024), (438, 1024));
    assert_eq!(fit_within(7, 3, 1024, 1024), (1024, 438));
    assert_eq!(fit_within(4, 2, 8, 2), (4, 2));
    assert_eq!(fit_within(4000, 3000, 640, 480), (640, 480));
}

#[test]
fn fit_within_handles_degenerate_frames() {
    assert_eq!(fit_within(0, 5, 1024, 1024), (0, 0));
    assert_eq!(fit_within(5, 0, 1024, 1024), (0, 0));
    assert_eq!(fit_within(1, 5000, 1024, 1024), (0, 1024));
    assert_eq!(fit_within(5000, 1, 1024, 1024), (1024, 0));
    assert_eq!(fit_within(10, 10, 0, 0), (0, 0));
    assert_eq!(
        fit_within(u32::MAX, u32::MAX, u32::MAX, u32::MAX),
        (u32::MAX, u32::MAX)
    );
}

#[test]
fn fit_within_never_crops() {
    let sizes = [(1u32, 1u32), (3, 2), (2, 3), (1920, 1080), (1080, 1920), (1025, 1023), (17, 4000)];
    for (width, height) in sizes.iter() {
        let (w, h) = fit_within(*width, *height, 1024, 1024);
        assert!(w <= 1024 && h <= 1024);
        assert!(w == 1024 || h == 1024);
        if w == 1024 {
            assert!((h as u64) * (*width as u64) <= (*height as u64) * 1024);
            assert!((*height as u64) * 1024 < (h as u64 + 1) * (*width as u64));
        } else {
            assert!((w as u64) * (*height as u64) <= (*width as u64) * 1024);
            assert!((*width as u64) * 1024 < (w as u64 + 1) * (*height as u64));
        }
    }
}

#[test]
fn letterbox_centres_the_frame_on_black() {
    let resized = vec![1, 2, 3, 4, 5, 6];
    let canvas = letterbox(&resized, 2, 1, 4, 3);
    let mut expected = vec![0u8; 4 * 3 * 3];
    expected[(1 * 4 + 1) * 3..(1 * 4 + 1) * 3 + 6].copy_from_slice(&resized);
    assert_eq!(canvas, expected);
}

#[test]
fn letterbox_puts_the_odd_pixel_after_the_frame() {
    let resized = vec![7, 8, 9];
    let canvas = letterbox(&resized, 1, 1, 4, 2);
    let mut expected = vec![0u8; 4 * 2 * 3];
    expected[3..6].copy_from_slice(&resized);
    assert_eq!(canvas, expected);
}

#[test]
fn letterbox_of_nothing_is_black() {
    let canvas = letterbox(&Vec::new(), 0, 0, 3, 2);
    assert_eq!(canvas, vec![0u8; 18]);
}

#[test]
fn letterbox_of_a_full_frame_is_the_frame() {
    let resized: Vec<u8> = (0..24).collect();
    assert_eq!(letterbox(&resized, 4, 2, 4, 2), resized);
}

#[test]
fn to_tensor_is_channel_first() {
    let frame = RgbFrame { width: 2, height: 2, data: vec![1, 2, 3, 4, 5, 6, 7, 8, 9, 10, 11, 12] };
    let tensor = to_tensor(&frame);
    assert_eq!(tensor.shape(), [1, 3, 2, 2]);
    assert_eq!(tensor.data, vec![1, 4, 7, 10, 2, 5, 8, 11, 3, 6, 9, 12]);
}

#[test]
fn resize_with_padding_keeps_a_frame_of_the_target_size() {
    let frame = RgbFrame { width: 2, height: 2, data: (0..12).collect() };
    let canvas = resize_with_padding(&frame, 2, 2).unwrap();
    assert_eq!(canvas.width, 2);
    assert_eq!(canvas.height, 2);
    assert_eq!(canvas.data, frame.data);
}

#[test]
fn resize_with_padding_scales_a_uniform_frame() {
    let frame = RgbFrame { width: 2, height: 1, data: vec![10, 20, 30, 10, 20, 30] };
    let canvas = resize_with_padding(&frame, 4, 4).unwrap();
    assert_eq!(canvas.width, 4);
    assert_eq!(canvas.height, 4);
    assert_eq!(canvas.data.len(), 48);
    for y in 0..4usize {
        for x in 0..4usize {
            let pixel = &canvas.data[(y * 4 + x) * 3..(y * 4 + x) * 3 + 3];
            if y == 1 || y == 2 {
                assert_eq!(pixel, &[10, 20, 30]);
            } else {
                assert_eq!(pixel, &[0, 0, 0]);
            }
        }
    }
}

#[test]
fn resize_with_padding_shrinks_a_large_frame() {
    let mut data = Vec::new();
    for _ in 0..(8 * 4) {
        data.extend_from_slice(&[200u8, 100, 50]);
    }
    let frame = RgbFrame { width: 8, height: 4, data };
    let canvas = resize_with_padding(&frame, 4, 4).unwrap();
    for y in 0..4usize {
        for x in 0..4usize {
            let pixel = &canvas.data[(y * 4 + x) * 3..(y * 4 + x) * 3 + 3];
            if y == 1 || y == 2 {
                assert_eq!(pixel, &[200, 100, 50]);
            } else {
                assert_eq!(pixel, &[0, 0, 0]);
            }
        }
    }
}

#[test]
fn resize_with_padding_of_an_empty_frame_is_black() {
    let frame = RgbFrame { width: 0, height: 3, data: Vec::new() };
    let canvas = resize_with_padding(&frame, 2, 2).unwrap();
    assert_eq!(canvas.data, vec![0u8; 12]);
}

#[test]
fn resize_with_padding_refuses_a_canvas_beyond_memory() {
    let frame = RgbFrame { width: 1, height: 1, data: vec![1, 2, 3] };
    match resize_with_padding(&frame, u32::MAX, u32::MAX) {
        Err(e) => assert_eq!(e, FastVLMError::ImageTooLarge),
        Ok(_) => panic!("a canvas beyond memory was built"),
    }
}

#[test]
fn processor_targets_the_encoder_square() {
    assert_eq!(TARGET_SIZE, 1024);
    assert_eq!(FastVLMImageProcessor::new().crop_size, (1024, 1024));
    assert_eq!(FastVLMImageProcessor::default().crop_size, (1024, 1024));
}

#[test]
fn preprocess_shape_is_fixed_for_a_wide_frame() {
    let processor = FastVLMImageProcessor::new();
    let image = PixelImage::from_rgba(rgba_frame(4, 2, [255, 0, 128, 255]), 4, 2).unwrap();
    let feature = processor.preprocess(&image).unwrap();
    assert_eq!(feature.pixel_values.shape(), [1, 3, 1024, 1024]);
    assert_eq!(feature.pixel_values.data.len(), 3 * 1024 * 1024);
    let plane = 1024 * 1024;
    assert_eq!(feature.pixel_values.data[0], 0);
    assert_eq!(feature.pixel_values.data[255 * 1024 + 512], 0);
    assert_eq!(feature.pixel_values.data[256 * 1024 + 512], 255);
    assert_eq!(feature.pixel_values.data[plane + 256 * 1024 + 512], 0);
    assert_eq!(feature.pixel_values.data[2 * plane + 256 * 1024 + 512], 128);
    assert_eq!(feature.pixel_values.data[767 * 1024 + 512], 255);
    assert_eq!(feature.pixel_values.data[768 * 1024 + 512], 0);
}

#[test]
fn preprocess_shape_is_fixed_for_a_tall_frame() {
    let processor = FastVLMImageProcessor::new();
    let image = PixelImage::from_rgba(rgba_frame(1, 3, [1, 2, 3, 0]), 1, 3).unwrap();
    let feature = processor.preprocess(&image).unwrap();
    assert_eq!(feature.pixel_values.shape(), [1, 3, 1024, 1024]);
    assert_eq!(feature.pixel_values.data.len(), 3 * 1024 * 1024);
    let left = (1024 - 341) / 2;
    assert_eq!(feature.pixel_values.data[500 * 1024 + left - 1], 0);
    assert_eq!(feature.pixel_values.data[500 * 1024 + left], 1);
    assert_eq!(feature.pixel_values.data[500 * 1024 + left + 340], 1);
    assert_eq!(feature.pixel_values.data[500 * 1024 + left + 341], 0);
}

#[test]
fn preprocess_shape_is_fixed_for_small_targets() {
    let processor = FastVLMImageProcessor { crop_size: (6, 4) };
    let sizes = [(1u32, 1u32), (3, 2), (2, 3), (12, 1), (1, 12), (6, 4), (0, 0)];
    for (width, height) in sizes.iter() {
        let image = PixelImage::from_rgba(rgba_frame(*width, *height, [5, 6, 7, 8]), *width, *height).unwrap();
        let feature = processor.preprocess(&image).unwrap();
        assert_eq!(feature.pixel_values.shape(), [1, 3, 4, 6]);
        assert_eq!(feature.pixel_values.data.len(), 3 * 4 * 6);
    }
}

#[test]
fn preprocess_keeps_the_pixels_of_a_frame_of_the_target_size() {
    let processor = FastVLMImageProcessor { crop_size: (2, 2) };
    let data = vec![1, 2, 3, 255, 4, 5, 6, 255, 7, 8, 9, 255, 10, 11, 12, 255];
    let image = PixelImage::from_rgba(data, 2, 2).unwrap();
    let feature = processor.preprocess(&image).unwrap();
    assert_eq!(feature.pixel_values.data, vec![1, 4, 7, 10, 2, 5, 8, 11, 3, 6, 9, 12]);
}

#[test]
fn frames_are_checked_against_their_size() {
    assert!(PixelImage { width: 2, height: 3, data: vec![0; 24] }.is_well_formed());
    assert!(!PixelImage { width: 2, height: 3, data: vec![0; 23] }.is_well_formed());
    assert!(!PixelImage { width: 2, height: 3, data: vec![0; 25] }.is_well_formed());
    assert!(!PixelImage { width: u32::MAX, height: u32::MAX, data: vec![0; 4] }.is_well_formed());
    assert!(RgbFrame { width: 2, height: 3, data: vec![0; 18] }.is_well_formed());
    assert!(!RgbFrame { width: 2, height: 3, data: vec![0; 24] }.is_well_formed());
    assert!(RgbFrame { width: 0, height: 9, data: Vec::new() }.is_well_formed());
}

#[test]
fn sides_beyond_the_limit_are_not_resampled() {
    assert_eq!(SIDE_LIMIT, 1 << 23);
    let wide = RgbFrame { width: SIDE_LIMIT, height: 1, data: vec![0u8; 3 * (1 << 23)] };
    match resize_with_padding(&wide, SIDE_LIMIT, 2) {
        Err(e) => assert_eq!(e, FastVLMError::ImageTooLarge),
        Ok(_) => panic!("a side at the limit was resampled"),
    }
    let small = RgbFrame { width: 2, height: 1, data: vec![9u8; 6] };
    match resize_with_padding(&small, 1 << 24, 1 << 23) {
        Err(e) => assert_eq!(e, FastVLMError::ImageTooLarge),
        Ok(_) => panic!("a frame was scaled to a side at the limit"),
    }
}

#[test]
fn a_frame_wider_than_single_precision_counts_is_refused() {
    let frame = RgbFrame { width: 33554435, height: 1, data: vec![0u8; 3 * 33554435] };
    match resize_with_padding(&frame, 33554436, 2) {
        Err(e) => assert_eq!(e, FastVLMError::ImageTooLarge),
        Ok(_) => panic!("a frame of 33554435 columns was resampled"),
    }
}

#[test]
fn a_long_frame_below_the_limit_is_taken() {
    let frame = RgbFrame { width: 3000, height: 1, data: vec![77u8; 9000] };
    let canvas = resize_with_padding(&frame, 6, 2).unwrap();
    assert_eq!(canvas.data, vec![0u8; 36]);
    let wide = RgbFrame { width: 3000, height: 2, data: vec![77u8; 18000] };
    let shrunk = resize_with_padding(&wide, 3000, 3000).unwrap();
    assert_eq!(shrunk.data.len(), 3000 * 3000 * 3);
    assert_eq!(&shrunk.data[(1499 * 3000 + 10) * 3..(1499 * 3000 + 10) * 3 + 3], &[77, 77, 77]);
    assert_eq!(&shrunk.data[(1497 * 3000 + 10) * 3..(1497 * 3000 + 10) * 3 + 3], &[0, 0, 0]);
}

#[test]
fn an_empty_frame_of_any_width_gives_a_black_canvas() {
    let frame = RgbFrame { width: u32::MAX, height: 0, data: Vec::new() };
    assert_eq!(resize_with_padding(&frame, 2, 2).unwrap().data, vec![0u8; 12]);
}
