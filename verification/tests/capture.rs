use area_translator::image::{gray_png, rgb_png, EncodeError};
use area_translator::capture::{
    crop_preview_wait, CropWait,
    crop, crop_png, crop_preview_allowed, preview_png, CaptureError, PreviewError, SharedFrames,
};
use area_translator::model::{Frame, LayoutError, Rect};

fn bgrx_buffer(width: usize, height: usize, stride: usize) -> Vec<u8> {
    let mut data = vec![0u8; stride * height];
    for y in 4..20 {
        for x in 8..24 {
            let i = y * stride + x * 4;
            data[i..i + 4].copy_from_slice(&[0, 0, 255, 255]);
        }
    }
    assert!(width * 4 <= stride);
    data
}

#[test]
fn crop_uses_row_stride_and_bgr_channel_order() {
    let data = bgrx_buffer(40, 32, 160);
    let mut state = SharedFrames::default();
    state.region = Some(Rect { x: 8, y: 4, width: 16, height: 16 });
    assert_eq!(state.begin_sample(40, 32), Ok(true));
    state.store_sample(40, 32, 160, true, &data, 7).unwrap();
    let frame = state.frame.unwrap();
    assert_eq!(frame.gray.len(), 256);
    assert!(frame.gray.iter().all(|p| *p == 76));
    assert_eq!(frame.captured, 7);
}

#[test]
fn resolution_changes_require_reselection() {
    let mut state = SharedFrames::default();
    state.dimensions = Some((200, 200));
    let error = state.begin_sample(100, 100).unwrap_err();
    assert_eq!(error, CaptureError::SizeChanged);
    assert!(error.message().contains("tamanho da captura mudou"));
}

#[test]
fn padded_stride_is_skipped_and_rgb_order_is_kept() {
    // 2 × 2 RGBx image with 4 bytes of row padding.
    let data = vec![
        10, 20, 30, 0, 40, 50, 60, 0, 9, 9, 9, 9, //
        70, 80, 90, 0, 100, 110, 120, 0, 9, 9, 9, 9,
    ];
    let region = Rect { x: 0, y: 0, width: 2, height: 2 };
    let rgb = crop(&data, 12, region, false, false).unwrap();
    assert_eq!(rgb, vec![10, 20, 30, 40, 50, 60, 70, 80, 90, 100, 110, 120]);
    let gray = crop(&data, 12, region, false, true).unwrap();
    // (77 r + 150 g + 29 b) >> 8
    assert_eq!(gray[0], ((10 * 77 + 20 * 150 + 30 * 29) >> 8) as u8);
    assert_eq!(gray[3], ((100 * 77 + 110 * 150 + 120 * 29) >> 8) as u8);
    let bgr = crop(&data, 12, region, true, false).unwrap();
    assert_eq!(&bgr[0..3], &[30, 20, 10]);
}

#[test]
fn incomplete_buffer_and_bad_stride_are_refused() {
    let data = vec![0u8; 100];
    let region = Rect { x: 0, y: 0, width: 16, height: 16 };
    assert!(crop(&data, 64, region, true, true).is_none());
    let mut state = SharedFrames::default();
    state.region = Some(region);
    assert_eq!(state.begin_sample(16, 16), Ok(true));
    assert_eq!(state.store_sample(16, 16, 0, true, &data, 0), Err(CaptureError::UnsupportedStride));
    assert_eq!(state.store_sample(16, 16, 64, true, &data, 0), Err(CaptureError::IncompleteBuffer));
    assert!(state.frame.is_none());
    // A region that no longer fits the capture is refused with its own message.
    state.region = Some(Rect { x: 8, y: 0, width: 16, height: 16 });
    assert_eq!(
        state.store_sample(16, 16, 64, true, &vec![0u8; 64 * 16], 0),
        Err(CaptureError::Region(LayoutError::OutsideCapture))
    );
}

#[test]
fn selection_keeps_a_single_frozen_rgb_preview() {
    let data = vec![255u8; 16 * 4 * 16];
    let mut state = SharedFrames::default();
    assert_eq!(state.begin_sample(16, 16), Ok(true));
    state.store_sample(16, 16, 64, false, &data, 0).unwrap();
    let (w, h, pixels) = state.preview.clone().unwrap();
    assert_eq!((w, h, pixels.len()), (16, 16, 16 * 16 * 3));
    assert_eq!(state.begin_sample(16, 16), Ok(false));
    assert_eq!(state.begin_sample(0, 16), Err(CaptureError::UnsupportedResolution));
    let png = preview_png(&state).unwrap();
    let mut reader = png::Decoder::new(std::io::Cursor::new(png)).read_info().unwrap();
    let mut out = vec![0; reader.output_buffer_size().unwrap()];
    let info = reader.next_frame(&mut out).unwrap();
    assert_eq!((info.width, info.height), (16, 16));
    assert_eq!(info.color_type, png::ColorType::Rgb);
    assert!(out.iter().all(|p| *p == 255));
    assert_eq!(preview_png(&SharedFrames::default()), Err(PreviewError::NotReady));
}

#[test]
fn samples_are_throttled_and_dropped_while_paused() {
    let mut state = SharedFrames::default();
    assert!(state.accept_sample(1000));
    assert!(!state.accept_sample(1100));
    assert!(state.accept_sample(1200));
    state.set_paused(true);
    assert!(!state.accept_sample(5000));
    state.set_paused(false);
    assert!(state.accept_sample(5000));
}

#[test]
fn crop_preview_requires_active_capture_and_encodes_only_requested_crop() {
    let mut state = SharedFrames::default();
    assert_eq!(crop_preview_allowed(&state), Err(PreviewError::Inactive));
    state.region = Some(Rect { x: 20, y: 40, width: 16, height: 16 });
    state.paused = true;
    assert_eq!(crop_preview_allowed(&state), Err(PreviewError::Inactive));
    state.paused = false;
    assert_eq!(crop_preview_allowed(&state), Ok(()));
    let frame = Frame { width: 16, height: 16, gray: vec![77; 256], captured: 0 };
    let png = crop_png(&frame).unwrap();
    let mut reader = png::Decoder::new(std::io::Cursor::new(png)).read_info().unwrap();
    let mut pixels = vec![0; reader.output_buffer_size().unwrap()];
    let info = reader.next_frame(&mut pixels).unwrap();
    assert_eq!((info.width, info.height), (16, 16));
    assert_eq!(info.color_type, png::ColorType::Grayscale);
    assert_eq!(pixels, vec![77; 256]);
}

#[test]
fn frames_must_hold_one_byte_per_pixel() {
    assert!(Frame { width: 4, height: 3, gray: vec![0; 12], captured: 0 }.is_complete());
    assert!(!Frame { width: 4, height: 3, gray: vec![0; 11], captured: 0 }.is_complete());
    assert!(Frame { width: 0, height: 3, gray: vec![], captured: 0 }.is_complete());
}

#[test]
fn png_encoding_succeeds_exactly_on_consistent_images() {
    assert!(gray_png(2, 3, &[7; 6]).is_ok());
    assert!(rgb_png(2, 3, &[7; 18]).is_ok());
    assert_eq!(gray_png(0, 3, &[]), Err(EncodeError::Png));
    assert_eq!(rgb_png(2, 0, &[]), Err(EncodeError::Png));
    assert_eq!(gray_png(2, 3, &[7; 5]), Err(EncodeError::Png));
    assert_eq!(rgb_png(2, 3, &[7; 6]), Err(EncodeError::Png));
}

#[test]
fn crop_preview_of_an_incomplete_frame_is_refused() {
    let frame = Frame { width: 16, height: 16, gray: vec![77; 255], captured: 0 };
    assert_eq!(crop_png(&frame), Err(PreviewError::Encoding));
    let mut state = SharedFrames::default();
    state.preview = Some((4, 4, vec![0; 47]));
    assert_eq!(preview_png(&state), Err(PreviewError::Encoding));
    state.preview = Some((4, 4, vec![0; 48]));
    assert!(preview_png(&state).is_ok());
}

#[test]
fn crop_preview_waits_for_a_frame_taken_after_the_request() {
    let mut state = SharedFrames::default();
    assert_eq!(crop_preview_wait(&state, 1000, 1000), Err(PreviewError::Interrupted));
    state.region = Some(Rect { x: 0, y: 0, width: 16, height: 16 });
    state.frame = Some(Frame { width: 16, height: 16, gray: vec![0; 256], captured: 900 });
    assert_eq!(crop_preview_wait(&state, 1000, 1200), Ok(CropWait::Wait), "an older frame is not used");
    assert_eq!(crop_preview_wait(&state, 1000, 4000), Err(PreviewError::NoFreshFrame));
    state.frame = Some(Frame { width: 16, height: 16, gray: vec![0; 256], captured: 1000 });
    assert_eq!(crop_preview_wait(&state, 1000, 1100), Ok(CropWait::Ready));
    state.paused = true;
    assert_eq!(crop_preview_wait(&state, 1000, 1100), Err(PreviewError::Interrupted));
}
