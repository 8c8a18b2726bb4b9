use screenshot::capture::{
    capture_screen, dim_color_image, capture_window, CaptureAction, CaptureError, CaptureEvent, CaptureResult, CropRect,
};

fn frame_3x2() -> CaptureResult {
    CaptureResult { width: 3, height: 2, data: (0u8..24).collect() }
}

#[test]
fn crop_inner_rectangle_copies_its_pixels() {
    let f = frame_3x2();
    let c = f.crop(CropRect { x: 1, y: 0, width: 2, height: 2 }).unwrap();
    assert_eq!(c.width, 2);
    assert_eq!(c.height, 2);
    assert_eq!(c.data, vec![4, 5, 6, 7, 8, 9, 10, 11, 16, 17, 18, 19, 20, 21, 22, 23]);
}

#[test]
fn crop_single_pixel() {
    let f = frame_3x2();
    let c = f.crop(CropRect { x: 2, y: 1, width: 1, height: 1 }).unwrap();
    assert_eq!((c.width, c.height), (1, 1));
    assert_eq!(c.data, vec![20, 21, 22, 23]);
}

#[test]
fn crop_is_clamped_to_the_frame() {
    let f = frame_3x2();
    let c = f.crop(CropRect { x: 2, y: 1, width: 10, height: 10 }).unwrap();
    assert_eq!((c.width, c.height), (1, 1));
    assert_eq!(c.data, vec![20, 21, 22, 23]);
    let e = f.crop(CropRect { x: 7, y: 0, width: 2, height: 2 }).unwrap();
    assert_eq!((e.width, e.height), (0, 2));
    assert!(e.data.is_empty());
}

#[test]
fn crop_of_whole_frame_is_the_frame() {
    let f = frame_3x2();
    let c = f.crop(CropRect { x: 0, y: 0, width: 3, height: 2 }).unwrap();
    assert_eq!((c.width, c.height), (3, 2));
    assert_eq!(c.data, f.data);
}

#[test]
fn crop_ignores_bytes_past_the_frame() {
    let mut f = frame_3x2();
    f.data.extend_from_slice(&[99, 99, 99, 99]);
    let c = f.crop(CropRect { x: 0, y: 1, width: 3, height: 5 }).unwrap();
    assert_eq!((c.width, c.height), (3, 1));
    assert_eq!(c.data, (12u8..24).collect::<Vec<u8>>());
}

#[test]
fn crop_refuses_a_short_buffer() {
    let f = CaptureResult { width: 3, height: 2, data: vec![0; 23] };
    assert!(f.crop(CropRect { x: 0, y: 0, width: 1, height: 1 }).is_none());
}

#[test]
fn crop_refuses_an_overflowing_size() {
    let f = CaptureResult { width: u32::MAX, height: u32::MAX, data: vec![0; 16] };
    assert!(f.crop(CropRect { x: 0, y: 0, width: 1, height: 1 }).is_none());
}

#[test]
fn egui_image_of_opaque_frame_keeps_colours() {
    let f = CaptureResult { width: 2, height: 1, data: vec![200, 100, 50, 255, 1, 2, 3, 255] };
    let img = f.to_egui_color_image();
    assert_eq!(img.size, [2, 1]);
    assert_eq!(img.pixels[0].to_array(), [200, 100, 50, 255]);
    assert_eq!(img.pixels[1].to_array(), [1, 2, 3, 255]);
}

#[test]
fn egui_image_premultiplies_alpha() {
    let f = CaptureResult { width: 2, height: 1, data: vec![200, 100, 50, 128, 200, 100, 50, 0] };
    let img = f.to_egui_color_image();
    let expected = egui::ColorImage::from_rgba_unmultiplied([2, 1], &f.data);
    assert_eq!(img, expected);
    assert_ne!(img.pixels[0].to_array(), [200, 100, 50, 128]);
    assert_eq!(img.pixels[0].a(), 128);
    assert_eq!(img.pixels[1].to_array(), [0, 0, 0, 0]);
}

#[test]
fn dimmed_egui_image_is_forty_percent_of_the_image() {
    let f = CaptureResult { width: 1, height: 3, data: vec![250, 100, 5, 255, 0, 255, 7, 255, 200, 100, 50, 128] };
    let img = f.to_egui_color_image();
    let dark = dim_color_image(&img);
    assert_eq!(dark.size, [1, 3]);
    assert_eq!(dark.pixels[0].to_array(), [100, 40, 2, 255]);
    assert_eq!(dark.pixels[1].to_array(), [0, 102, 2, 255]);
    let p = img.pixels[2].to_array();
    assert_eq!(dark.pixels[2].to_array(), [(p[0] as u16 * 2 / 5) as u8, (p[1] as u16 * 2 / 5) as u8, (p[2] as u16 * 2 / 5) as u8, 128]);
}

fn finished(a: CaptureAction) -> Result<CaptureResult, CaptureError> {
    match a {
        CaptureAction::Finished(r) => r,
        _ => panic!("not finished"),
    }
}

#[test]
fn capture_starts_by_listing_monitors() {
    assert!(matches!(capture_screen(CaptureEvent::Start), CaptureAction::ListMonitors));
    assert!(matches!(capture_window(CaptureEvent::Start), CaptureAction::ListMonitors));
}

#[test]
fn capture_grabs_the_first_monitor() {
    assert!(matches!(
        capture_screen(CaptureEvent::MonitorsListed(Ok(3))),
        CaptureAction::CaptureMonitor { index: 0 }
    ));
}

#[test]
fn capture_without_monitor_fails() {
    let e = finished(capture_screen(CaptureEvent::MonitorsListed(Ok(0)))).err().unwrap();
    assert!(matches!(e, CaptureError::NoPrimaryMonitor));
    assert_eq!(e.message(), "无法获取主显示器");
}

#[test]
fn capture_passes_backend_errors_on() {
    let e = finished(capture_window(CaptureEvent::MonitorsListed(Err("no display".to_string())))).err().unwrap();
    assert_eq!(e.message(), "no display");
    let e = finished(capture_screen(CaptureEvent::MonitorCaptured(Err("denied".to_string())))).err().unwrap();
    assert_eq!(e.message(), "denied");
}

#[test]
fn capture_wraps_the_grabbed_frame() {
    let r = finished(capture_window(CaptureEvent::MonitorCaptured(Ok((1, 1, vec![1, 2, 3, 4]))))).ok().unwrap();
    assert_eq!((r.width, r.height), (1, 1));
    assert_eq!(r.data, vec![1, 2, 3, 4]);
}
