use fridge_monitor::frame::{
    needs_rescaler, rgb_rescaler_for_frame, video_frame_to_pixel_buffer, video_image, FrameShape, Resampling,
    TargetFormat, VideoFrame,
};

fn frame(width: u32, height: u32, stride: usize, data: &[u8]) -> VideoFrame<'_> {
    VideoFrame { width, height, stride, data }
}

#[test]
fn padding_of_rows_is_left_out() {
    let data = [1, 2, 3, 4, 5, 6, 90, 91, 7, 8, 9, 10, 11, 12, 92, 93];
    let frame = frame(2, 2, 8, &data);
    assert!(frame.is_valid());
    let buffer = video_frame_to_pixel_buffer(&frame);
    assert_eq!((buffer.width(), buffer.height()), (2, 2));
    assert_eq!(buffer.as_bytes(), &[1, 2, 3, 4, 5, 6, 7, 8, 9, 10, 11, 12]);
}

#[test]
fn padding_does_not_matter() {
    let one = [1, 2, 3, 0, 4, 5, 6, 0];
    let other = [1, 2, 3, 255, 4, 5, 6, 254];
    let one = video_frame_to_pixel_buffer(&frame(1, 2, 4, &one));
    let other = video_frame_to_pixel_buffer(&frame(1, 2, 4, &other));
    assert_eq!(one.as_bytes(), other.as_bytes());
}

#[test]
fn frame_without_padding_is_copied() {
    let data = [9, 8, 7, 6, 5, 4];
    let buffer = video_frame_to_pixel_buffer(&frame(1, 2, 3, &data));
    assert_eq!(buffer.as_bytes(), &data);
}

#[test]
fn rows_that_are_missing_stay_black() {
    let data = [1, 2, 3, 0, 4, 5, 6];
    let buffer = video_frame_to_pixel_buffer(&frame(1, 3, 4, &data));
    assert_eq!(buffer.as_bytes(), &[1, 2, 3, 0, 0, 0, 0, 0, 0]);
    let buffer = video_frame_to_pixel_buffer(&frame(2, 1, 6, &[]));
    assert_eq!(buffer.as_bytes(), &[0; 6]);
}

#[test]
fn rows_past_the_height_are_not_shown() {
    let data = [1, 2, 3, 4, 5, 6, 7, 8, 9];
    let buffer = video_frame_to_pixel_buffer(&frame(1, 2, 3, &data));
    assert_eq!(buffer.as_bytes(), &[1, 2, 3, 4, 5, 6]);
}

#[test]
fn frame_of_no_rows_is_empty() {
    let frame = frame(5, 0, 1, &[1, 2, 3]);
    assert!(frame.is_valid());
    let buffer = video_frame_to_pixel_buffer(&frame);
    assert_eq!((buffer.width(), buffer.height()), (5, 0));
    assert_eq!(buffer.as_bytes().len(), 0);
}

#[test]
fn pixels_keep_their_place() {
    let (width, height, stride) = (3usize, 4usize, 11usize);
    let data: Vec<u8> = (0..stride * height).map(|i| i as u8).collect();
    let buffer =
        video_frame_to_pixel_buffer(&frame(width as u32, height as u32, stride, &data));
    let pixels = buffer.as_slice();
    for y in 0..height {
        for x in 0..width {
            let pixel = pixels[y * width + x];
            let at = y * stride + x * 3;
            assert_eq!((pixel.r, pixel.g, pixel.b), (data[at], data[at + 1], data[at + 2]));
        }
    }
}

#[test]
fn video_image_shows_the_frame() {
    let data = [1, 2, 3, 90, 4, 5, 6, 91];
    let image = video_image(video_frame_to_pixel_buffer(&frame(1, 2, 4, &data)));
    let pixels = image.to_rgba8().unwrap();
    assert_eq!((pixels.width(), pixels.height()), (1, 2));
    assert_eq!(pixels.as_bytes(), &[1, 2, 3, 255, 4, 5, 6, 255]);
}

#[test]
fn frames_that_cannot_be_shown_are_found() {
    assert!(!frame(0, 1, 3, &[1, 2, 3]).is_valid());
    assert!(!frame(1, 1, 0, &[1, 2, 3]).is_valid());
    assert!(!frame(2, 1, 5, &[1, 2, 3, 4, 5]).is_valid());
    assert!(frame(2, 1, 5, &[1, 2, 3, 4]).is_valid());
    assert!(!frame(u32::MAX, u32::MAX, usize::MAX, &[]).is_valid());
}

const YUV: FrameShape = FrameShape { format: 0, width: 640, height: 360 };

#[test]
fn converter_gives_rgb_of_the_same_size() {
    let setup = rgb_rescaler_for_frame(YUV);
    assert_eq!(setup.input, YUV);
    assert_eq!(setup.output_format, TargetFormat::Rgb24);
    assert_eq!((setup.output_width, setup.output_height), (640, 360));
    assert_eq!(setup.resampling, Resampling::Bilinear);
}

#[test]
fn converter_is_rebuilt_when_the_frame_changes() {
    assert!(needs_rescaler(None, YUV));
    let input = Some(rgb_rescaler_for_frame(YUV).input);
    assert!(!needs_rescaler(input, YUV));
    assert!(needs_rescaler(input, FrameShape { format: 1, ..YUV }));
    assert!(needs_rescaler(input, FrameShape { width: 641, ..YUV }));
    assert!(needs_rescaler(input, FrameShape { height: 361, ..YUV }));
}

#[test]
fn converter_fits_the_last_frame_of_a_run() {
    let wide = FrameShape { width: 1280, ..YUV };
    let mut input = None;
    let mut rebuilt = Vec::new();
    for frame in [YUV, YUV, wide, wide, YUV] {
        let rebuild = needs_rescaler(input, frame);
        if rebuild {
            input = Some(rgb_rescaler_for_frame(frame).input);
        }
        rebuilt.push(rebuild);
        assert_eq!(input, Some(frame));
    }
    assert_eq!(rebuilt, vec![true, false, true, false, true]);
}
