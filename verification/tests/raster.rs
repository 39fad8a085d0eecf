use pix::mask::{Mask16, Mask8};
use pix::gray::{Gray8, SGray16, SGray8, SGraya16};
use pix::raster::{RasterBuilder, Region};
use pix::rgb::SRgb8;

/// Raw 16-bit value of a fraction of one.
fn u16_of(v: f32) -> u16 {
    (v.max(0.0).min(1.0) * 65535.0).round() as u16
}

#[test]
fn region_size() {
    assert_eq!(std::mem::size_of::<Region>(), 16);
}

#[test]
fn intersect() -> Result<(), ()> {
    let r = Region::new(0, 0, 5, 5);
    assert_eq!(r, Region::new(0, 0, 5, 5));
    assert_eq!(r, r.intersection(Region::new(0, 0, 10, 10)));
    assert_eq!(r, r.intersection(Region::new(-5, -5, 10, 10)));
    assert_eq!(Region::new(0, 0, 4, 4), r.intersection(Region::new(-1, -1, 5, 5)));
    assert_eq!(Region::new(1, 2, 1, 3), r.intersection(Region::new(1, 2, 1, 100)));
    assert_eq!(Region::new(2, 1, 3, 1), r.intersection(Region::new(2, 1, 100, 1)));
    Ok(())
}

#[test]
fn pixel_mut_mask8() {
    let mut r = RasterBuilder::<Mask8>::new().with_clear(3, 3);
    *r.pixel_mut(0, 0) = Mask8::new(0xFF);
    *r.pixel_mut(2, 0) = Mask8::new(0x12);
    *r.pixel_mut(1, 1) = Mask8::new(0x34);
    *r.pixel_mut(0, 2) = Mask8::new(0x56);
    *r.pixel_mut(2, 2) = Mask8::new(0x78);
    let v = vec![
        Mask8::new(0xFF), Mask8::new(0x00), Mask8::new(0x12),
        Mask8::new(0x00), Mask8::new(0x34), Mask8::new(0x00),
        Mask8::new(0x56), Mask8::new(0x00), Mask8::new(0x78),
    ];
    assert_eq!(r.pixels(), &v[..]);
}

#[test]
fn pixel_mut_mask16() {
    let mut r = RasterBuilder::<Mask16>::new().with_clear(3, 3);
    *r.pixel_mut(2, 0) = Mask16::new(0x9ABC);
    *r.pixel_mut(1, 1) = Mask16::new(0x5678);
    *r.pixel_mut(0, 2) = Mask16::new(0x1234);
    *r.pixel_mut(0, 0) = Mask16::new(u16_of(1.0));
    *r.pixel_mut(2, 2) = Mask16::new(0x8080);
    let v = vec![
        Mask16::new(0xFFFF), Mask16::new(0x0000), Mask16::new(0x9ABC),
        Mask16::new(0x0000), Mask16::new(0x5678), Mask16::new(0x0000),
        Mask16::new(0x1234), Mask16::new(0x0000), Mask16::new(0x8080),
    ];
    assert_eq!(r.pixels(), &v[..]);
}

#[test]
fn rgb8() {
    let mut r = RasterBuilder::<SRgb8>::new().with_clear(4, 4);
    let rgb = SRgb8::new(0xCC, 0xAA, 0xBB);
    r.set_region((1, 1, 2, 2), rgb);
    let v = vec![
        SRgb8::new(0, 0, 0), SRgb8::new(0, 0, 0), SRgb8::new(0, 0, 0),
        SRgb8::new(0, 0, 0), SRgb8::new(0, 0, 0),
        SRgb8::new(0xCC, 0xAA, 0xBB), SRgb8::new(0xCC, 0xAA, 0xBB),
        SRgb8::new(0, 0, 0), SRgb8::new(0, 0, 0),
        SRgb8::new(0xCC, 0xAA, 0xBB), SRgb8::new(0xCC, 0xAA, 0xBB),
        SRgb8::new(0, 0, 0), SRgb8::new(0, 0, 0), SRgb8::new(0, 0, 0),
        SRgb8::new(0, 0, 0), SRgb8::new(0, 0, 0),
    ];
    assert_eq!(r.pixels(), &v[..]);
}

#[test]
fn gray8() {
    let mut r = RasterBuilder::<SGray8>::new().with_clear(4, 4);
    r.set_region((0, 0, 1, 1), SGray8::new(0x23));
    r.set_region((10, 10, 1, 1), SGray8::new(0x45));
    r.set_region((2, 2, 10, 10), SGray8::new(0xBB));
    let v = vec![
        SGray8::new(0x23), SGray8::new(0), SGray8::new(0), SGray8::new(0),
        SGray8::new(0), SGray8::new(0), SGray8::new(0), SGray8::new(0),
        SGray8::new(0), SGray8::new(0), SGray8::new(0xBB), SGray8::new(0xBB),
        SGray8::new(0), SGray8::new(0), SGray8::new(0xBB), SGray8::new(0xBB),
    ];
    assert_eq!(r.pixels(), &v[..]);
}

#[test]
fn compose_raster_gray_to_gray() {
    let mut g0 = RasterBuilder::<Gray8>::new().with_clear(3, 3);
    let g1 = RasterBuilder::<Gray8>::new().with_color(3, 3, Gray8::new(0x40));
    let g2 = RasterBuilder::<Gray8>::new().with_color(3, 3, Gray8::new(0x60));
    let g3 = RasterBuilder::<Gray8>::new().with_color(3, 3, Gray8::new(0x80));
    g0.compose_raster((-1, 2, 3, 3), &g1, ());
    g0.compose_raster((2, -1, 3, 3), &g2, ());
    g0.compose_raster((-2, -2, 3, 3), &g3, ());
    let v = vec![
        Gray8::new(0x80), Gray8::new(0x00), Gray8::new(0x60),
        Gray8::new(0x00), Gray8::new(0x00), Gray8::new(0x60),
        Gray8::new(0x40), Gray8::new(0x40), Gray8::new(0x00),
    ];
    assert_eq!(g0.pixels(), &v[..]);
}

#[test]
fn compose_raster_gray_to_rgb() {
    let mut rgb = RasterBuilder::<SRgb8>::new().with_clear(3, 3);
    let gray = RasterBuilder::<SGray16>::new().with_color(3, 3, SGray16::new(0x8000));
    rgb.compose_raster((), &gray, (0, 1, 3, 3));
    let mut v = vec![SRgb8::new(0x80, 0x80, 0x80); 6];
    v.extend_from_slice(&vec![SRgb8::new(0, 0, 0); 3]);
    assert_eq!(rgb.pixels(), &v[..]);
}

#[test]
fn rgb8_buffer() {
    let b = vec![
        0xAA,0x00,0x00, 0x00,0x11,0x22, 0x33,0x44,0x55,
        0x00,0xBB,0x00, 0x66,0x77,0x88, 0x99,0xAA,0xBB,
        0x00,0x00,0xCC, 0xCC,0xDD,0xEE, 0xFF,0x00,0x11,
    ];
    let mut r = RasterBuilder::<SRgb8>::new().with_u8_buffer(3, 3, b);
    let rgb = SRgb8::new(0x12, 0x34, 0x56);
    r.set_region((0, 1, 2, 1), rgb);
    let v = vec![
        SRgb8::new(0xAA, 0x00, 0x00), SRgb8::new(0x00, 0x11, 0x22),
        SRgb8::new(0x33, 0x44, 0x55),
        SRgb8::new(0x12, 0x34, 0x56), SRgb8::new(0x12, 0x34, 0x56),
        SRgb8::new(0x99, 0xAA, 0xBB),
        SRgb8::new(0x00, 0x00, 0xCC), SRgb8::new(0xCC, 0xDD, 0xEE),
        SRgb8::new(0xFF, 0x00, 0x11),
    ];
    assert_eq!(r.pixels(), &v[..]);
}

#[test]
fn graya16_buffer() {
    let b = vec![
        0x1001,0x5005, 0x1000,0x3002, 0x5004,0x7006,
        0x2002,0x6006, 0x9008,0xB00A, 0xD00C,0xF00E,
        0x3003,0x7007, 0xE00F,0xC00D, 0xA00B,0x8009,
    ];
    let mut r = RasterBuilder::<SGraya16>::new().with_u16_buffer(3, 3, b);
    r.set_region((1, 0, 2, 2), SGraya16::new(0x4444, 0xFFFF));
    let v = vec![
        SGraya16::new(0x1001, 0x5005), SGraya16::new(0x4444, 0xFFFF),
        SGraya16::new(0x4444, 0xFFFF), SGraya16::new(0x2002, 0x6006),
        SGraya16::new(0x4444, 0xFFFF), SGraya16::new(0x4444, 0xFFFF),
        SGraya16::new(0x3003, 0x7007), SGraya16::new(0xE00F, 0xC00D),
        SGraya16::new(0xA00B, 0x8009),
    ];
    assert_eq!(r.pixels(), &v[..]);
}
