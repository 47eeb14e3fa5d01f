use screen_caster::crop::{crop_color_image, CropRect};
use screen_caster::frame::{test_pattern, RawFrame, Rgb};
use screen_caster::still::{frame_from_rgba, image_from_bytes};
use screen_caster::stride::{frame_from_plane, pack_rows, PixelFormat, PlaneError};

fn px(r: u8, g: u8, b: u8) -> Rgb {
    Rgb { r, g, b }
}

/// A frame whose pixel (x, y) is (x, y, x + y).
fn numbered(width: u32, height: u32) -> RawFrame {
    let mut pixels = Vec::new();
    for y in 0..height {
        for x in 0..width {
            pixels.push(px(x as u8, y as u8, (x + y) as u8));
        }
    }
    RawFrame::new(width, height, pixels).unwrap()
}

#[test]
fn new_frame_checks_pixel_count() {
    assert!(RawFrame::new(2, 2, vec![px(0, 0, 0); 4]).is_some());
    assert!(RawFrame::new(2, 2, vec![px(0, 0, 0); 3]).is_none());
    assert!(RawFrame::new(0, 5, Vec::new()).is_some());
}

#[test]
fn crop_inside_keeps_size_and_pixels() {
    let img = numbered(10, 8);
    let r = CropRect { x: 2, y: 3, width: 4, height: 5 };
    let c = crop_color_image(&img, r.x, r.y, r.width, r.height);
    assert_eq!(c.width(), 4);
    assert_eq!(c.height(), 5);
    for j in 0..5 {
        for i in 0..4 {
            assert_eq!(c.pixel(i, j), img.pixel(2 + i, 3 + j));
        }
    }
}

#[test]
fn crop_whole_image_is_identity() {
    let img = numbered(5, 4);
    let c = crop_color_image(&img, 0, 0, 5, 4);
    assert_eq!(c.pixels(), img.pixels());
}

#[test]
fn crop_past_edge_returns_intersection() {
    let img = numbered(10, 8);
    let c = crop_color_image(&img, 7, 6, 10, 10);
    assert_eq!(c.width(), 3);
    assert_eq!(c.height(), 2);
    assert_eq!(c.pixel(0, 0), px(7, 6, 13));
    assert_eq!(c.pixel(2, 1), px(9, 7, 16));
}

#[test]
fn crop_outside_image_is_empty() {
    let img = numbered(4, 4);
    let c = crop_color_image(&img, 9, 1, 3, 2);
    assert_eq!(c.width(), 0);
    assert_eq!(c.height(), 2);
    assert!(c.pixels().is_empty());
}

#[test]
fn clamp_to_cuts_rectangle() {
    let r = CropRect { x: 5, y: 20, width: 10, height: 10 };
    assert_eq!(r.clamp_to(12, 8), CropRect { x: 5, y: 8, width: 7, height: 0 });
}

#[test]
fn test_pattern_encodes_coordinates() {
    let f = test_pattern(300, 260).unwrap();
    assert_eq!(f.width(), 300);
    assert_eq!(f.height(), 260);
    assert_eq!(f.pixel(0, 0), px(0, 0, 0));
    assert_eq!(f.pixel(255, 1), px(255, 1, 0));
    assert_eq!(f.pixel(256, 257), px(0, 1, 0));
    assert_eq!(f.pixel(299, 259), px(43, 3, 0));
}

#[test]
fn padded_plane_round_trip_reproduces_pattern() {
    let f = test_pattern(7, 5).unwrap();
    let stride = 7 * 3 + 5;
    let plane = pack_rows(&f, stride, PixelFormat::Rgb).unwrap();
    assert_eq!(plane.len(), 5 * stride);
    assert_eq!(&plane[stride..stride + 3], &[0, 1, 0]);
    assert_eq!(&plane[21..26], &[0, 0, 0, 0, 0]);
    let back = frame_from_plane(&plane, 7, 5, stride, PixelFormat::Rgb).unwrap();
    assert_eq!(back.width(), 7);
    assert_eq!(back.height(), 5);
    assert_eq!(back.pixels(), f.pixels());
}

#[test]
fn padded_rgba_plane_round_trip() {
    let f = numbered(3, 4);
    let stride = 16;
    let plane = pack_rows(&f, stride, PixelFormat::Rgba).unwrap();
    assert_eq!(&plane[16..20], &[0, 1, 1, 255]);
    let back = frame_from_plane(&plane, 3, 4, stride, PixelFormat::Rgba).unwrap();
    assert_eq!(back.pixels(), f.pixels());
}

#[test]
fn strided_plane_skips_padding() {
    // two rows of two RGB pixels, each row padded with two bytes of 0xEE
    let plane = [1, 2, 3, 4, 5, 6, 0xEE, 0xEE, 7, 8, 9, 10, 11, 12, 0xEE, 0xEE];
    let f = frame_from_plane(&plane, 2, 2, 8, PixelFormat::Rgb).unwrap();
    assert_eq!(f.pixels(), &vec![px(1, 2, 3), px(4, 5, 6), px(7, 8, 9), px(10, 11, 12)]);
}

#[test]
fn rgba_plane_ignores_alpha() {
    let plane = [10, 20, 30, 0, 40, 50, 60, 128];
    let f = frame_from_plane(&plane, 2, 1, 8, PixelFormat::Rgba).unwrap();
    assert_eq!(f.pixels(), &vec![px(10, 20, 30), px(40, 50, 60)]);
}

#[test]
fn plane_with_short_stride_is_refused() {
    let plane = [0u8; 64];
    assert_eq!(
        frame_from_plane(&plane, 4, 2, 11, PixelFormat::Rgb).unwrap_err(),
        PlaneError::StrideTooSmall
    );
}

#[test]
fn plane_too_short_is_refused() {
    // the last row may end early, at width * 3 bytes, but not earlier
    let plane = [0u8; 17];
    assert_eq!(
        frame_from_plane(&plane, 2, 2, 12, PixelFormat::Rgb).unwrap_err(),
        PlaneError::PlaneTooShort
    );
    let plane = [0u8; 18];
    assert!(frame_from_plane(&plane, 2, 2, 12, PixelFormat::Rgb).is_ok());
}

#[test]
fn pack_rows_refuses_narrow_stride() {
    let f = numbered(4, 2);
    assert!(pack_rows(&f, 11, PixelFormat::Rgb).is_none());
    assert!(pack_rows(&f, 12, PixelFormat::Rgb).is_some());
}

#[test]
fn rgba_buffer_to_frame() {
    let rgba = [1, 2, 3, 255, 4, 5, 6, 255, 7, 8, 9, 0, 10, 11, 12, 0];
    let f = frame_from_rgba(2, 2, &rgba).unwrap();
    assert_eq!(f.pixel(1, 1), px(10, 11, 12));
    assert!(frame_from_rgba(3, 2, &rgba).is_none());
}

#[test]
fn png_bytes_decode_to_frame() {
    let raw: Vec<u8> = vec![
        255, 0, 0, 255, 0, 255, 0, 255, 0, 0, 255, 255, //
        10, 20, 30, 255, 40, 50, 60, 255, 70, 80, 90, 255,
    ];
    let img = image::RgbaImage::from_raw(3, 2, raw).unwrap();
    let mut encoded = std::io::Cursor::new(Vec::new());
    image::DynamicImage::ImageRgba8(img)
        .write_to(&mut encoded, image::ImageFormat::Png)
        .unwrap();
    let f = image_from_bytes(encoded.get_ref()).unwrap();
    assert_eq!(f.width(), 3);
    assert_eq!(f.height(), 2);
    assert_eq!(f.pixel(0, 0), px(255, 0, 0));
    assert_eq!(f.pixel(2, 0), px(0, 0, 255));
    assert_eq!(f.pixel(1, 1), px(40, 50, 60));
}

#[test]
fn garbage_bytes_do_not_decode() {
    assert!(image_from_bytes(&[1, 2, 3, 4, 5]).is_none());
    assert!(image_from_bytes(&[]).is_none());
}
