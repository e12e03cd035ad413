use embedded_graphics_core::pixelcolor::raw::{RawData, RawU16};
use embedded_graphics_core::pixelcolor::{IntoStorage, Rgb565 as EgRgb565};
use lcd_async::raw_framebuf::{IntoRawBytes, Point, RawFrameBuf, Rectangle, Rgb565, Rgb888, Size};

fn framebuf_565(width: usize, height: usize) -> RawFrameBuf<Rgb565> {
    RawFrameBuf::new(vec![0u8; width * height * 2], width, height)
}

#[test]
fn rgb565_packs_like_the_raw_storage() {
    // Cross-check the packed form against the 16-bit storage form: the two
    // big-endian bytes of (r << 11) | (g << 5) | b.
    let cases = [(0u8, 0u8, 0u8), (31, 63, 31), (31, 0, 31), (1, 2, 3), (16, 32, 16)];
    for &(r, g, b) in cases.iter() {
        let ours = Rgb565::new(r, g, b).into_raw_bytes();
        let reference = RawU16::from(EgRgb565::new(r, g, b)).into_inner().to_be_bytes();
        assert_eq!(ours, reference.to_vec());
    }
}

#[test]
fn clear_single_byte_color() {
    // An all-zero color packs to two equal bytes; every pixel must hold
    // exactly those bytes afterwards.
    let mut fbuf = framebuf_565(4, 4);
    fbuf.clear(Rgb565::new(31, 63, 31));
    fbuf.clear(Rgb565::new(0, 0, 0));
    for &byte in fbuf.as_bytes() {
        assert_eq!(byte, 0);
    }
}

#[test]
fn clear_multi_byte_color() {
    // A color whose two packed bytes differ must tile the pattern.
    let mut fbuf = framebuf_565(3, 2);
    let color = Rgb565::new(31, 0, 31);
    let raw = color.into_raw_bytes();
    assert_ne!(raw[0], raw[1]);
    fbuf.clear(color);
    let bytes = fbuf.as_bytes();
    assert_eq!(bytes.len(), 12);
    for p in 0..6 {
        assert_eq!(bytes[2 * p], raw[0]);
        assert_eq!(bytes[2 * p + 1], raw[1]);
    }
}

#[test]
fn draw_out_of_bounds_is_dropped() {
    // A coordinate equal to (width, 0) is outside the framebuffer: the
    // buffer stays unmodified and no error is reported.
    let mut fbuf = framebuf_565(4, 4);
    fbuf.clear(Rgb565::new(0, 0, 0));
    fbuf.draw(4, 0, Rgb565::new(31, 63, 31));
    fbuf.draw(-1, 2, Rgb565::new(31, 63, 31));
    fbuf.draw(0, 4, Rgb565::new(31, 63, 31));
    for &byte in fbuf.as_bytes() {
        assert_eq!(byte, 0);
    }
}

#[test]
fn draw_writes_one_pixel() {
    let mut fbuf = framebuf_565(4, 4);
    fbuf.clear(Rgb565::new(0, 0, 0));
    let color = Rgb565::new(31, 0, 0);
    let raw = color.into_raw_bytes();
    fbuf.draw(2, 1, color);
    let bytes = fbuf.as_bytes();
    let start = (1 * 4 + 2) * 2;
    for k in 0..bytes.len() {
        if k == start {
            assert_eq!(bytes[k], raw[0]);
        } else if k == start + 1 {
            assert_eq!(bytes[k], raw[1]);
        } else {
            assert_eq!(bytes[k], 0);
        }
    }
}

#[test]
fn fill_solid_clips_to_bounds() {
    let mut fbuf = framebuf_565(4, 4);
    fbuf.clear(Rgb565::new(0, 0, 0));
    let color = Rgb565::new(0, 63, 0);
    let raw = color.into_raw_bytes();
    // Extends past the right and bottom edges; covers pixels (2..4, 2..4).
    let area = Rectangle {
        top_left: Point { x: 2, y: 2 },
        size: Size { width: 10, height: 10 },
    };
    fbuf.fill_solid(&area, color);
    let bytes = fbuf.as_bytes();
    for py in 0..4 {
        for px in 0..4 {
            let start = (py * 4 + px) * 2;
            if px >= 2 && py >= 2 {
                assert_eq!(bytes[start], raw[0]);
                assert_eq!(bytes[start + 1], raw[1]);
            } else {
                assert_eq!(bytes[start], 0);
                assert_eq!(bytes[start + 1], 0);
            }
        }
    }
}

#[test]
fn fill_solid_empty_intersection_is_noop() {
    let mut fbuf = framebuf_565(4, 4);
    fbuf.clear(Rgb565::new(0, 0, 0));
    let area = Rectangle {
        top_left: Point { x: -10, y: -10 },
        size: Size { width: 3, height: 3 },
    };
    fbuf.fill_solid(&area, Rgb565::new(31, 63, 31));
    for &byte in fbuf.as_bytes() {
        assert_eq!(byte, 0);
    }
}

#[test]
fn rgb888_packs_component_bytes() {
    let c = Rgb888::new(10, 20, 30);
    assert_eq!(c.into_raw_bytes(), vec![10, 20, 30]);
    let mut fbuf: RawFrameBuf<Rgb888> = RawFrameBuf::new(vec![0u8; 2 * 2 * 3], 2, 2);
    fbuf.clear(Rgb888::new(1, 2, 3));
    assert_eq!(fbuf.as_bytes(), &[1, 2, 3, 1, 2, 3, 1, 2, 3, 1, 2, 3]);
}

#[test]
fn rgb565_new_masks_components() {
    // Out-of-range components keep only the bits the channel has room for,
    // as the 16-bit storage form does.
    let ours = Rgb565::new(200, 200, 200).into_raw_bytes();
    let reference = EgRgb565::new(200, 200, 200).into_storage().to_be_bytes();
    assert_eq!(ours, reference.to_vec());
}

#[test]
fn framebuf_reports_dimensions() {
    let fbuf = framebuf_565(7, 3);
    assert_eq!(fbuf.width(), 7);
    assert_eq!(fbuf.height(), 3);
    assert_eq!(fbuf.as_bytes().len(), 42);
}

#[test]
fn as_mut_bytes_exposes_the_active_area() {
    let mut fbuf = framebuf_565(2, 2);
    fbuf.clear(Rgb565::new(0, 0, 0));
    {
        let bytes = fbuf.as_mut_bytes();
        assert_eq!(bytes.len(), 8);
        bytes[3] = 0xab;
    }
    assert_eq!(fbuf.as_bytes()[3], 0xab);
    assert_eq!(fbuf.as_bytes()[2], 0);
}
