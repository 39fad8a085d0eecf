use pix::chan::{DECODE_SRGB_U8, ENCODE_SRGB_U8};
use pix::cmy::{Cmy16, Cmy8};
use pix::gray::{SGray16, SGray8};
use pix::mask::{Mask16, Mask8};
use pix::raster::RasterBuilder;
use pix::rgb::{
    Rgb16, Rgb8, Rgba16, Rgba16p, Rgba8, Rgba8p, SRgb16, SRgb8, SRgba16, SRgba8, SRgba8p,
};

fn srgb_gamma_encode(v: f32) -> f32 {
    if v <= 0.0 {
        0.0
    } else if v < 0.003_130_8 {
        v * 12.92
    } else if v < 1.0 {
        v.powf(1.0 / 2.4) * 1.055 - 0.055
    } else {
        1.0
    }
}

fn srgb_gamma_decode(v: f32) -> f32 {
    if v <= 0.0 {
        0.0
    } else if v < 0.04045 {
        v / 12.92
    } else if v < 1.0 {
        ((v + 0.055) / 1.055).powf(2.4)
    } else {
        1.0
    }
}

fn check_encode_table() {
    for i in 0..=255 {
        let s = i as f32 / 255.0;
        let v = (srgb_gamma_encode(s) * 255.0).round() as u8;
        assert_eq!(v, ENCODE_SRGB_U8[i]);
    }
}

fn check_decode_table() {
    for i in 0..=255 {
        let s = i as f32 / 255.0;
        let v = (srgb_gamma_decode(s) * 255.0).round() as u8;
        assert_eq!(v, DECODE_SRGB_U8[i]);
    }
}

#[test]
fn chan_lut_encode_u8() {
    check_encode_table();
}

#[test]
fn chan_lut_decode_u8() {
    check_decode_table();
}

#[test]
fn gamma_lut_encode_u8() {
    check_encode_table();
}

#[test]
fn gamma_lut_decode_u8() {
    check_decode_table();
}

#[test]
fn cmy_to_rgb() {
    let a: Rgb8 = Cmy8::new(0, 254, 253).convert();
    assert_eq!(Rgb8::new(255, 1, 2), a);
    let b: Rgb8 = Cmy16::new(65535, 65535, 0).convert();
    assert_eq!(Rgb8::new(0, 0, 255), b);
}

#[test]
fn rgb_to_cmy() {
    let a: Cmy8 = Rgb8::new(255, 0, 128).convert();
    assert_eq!(Cmy8::new(0, 255, 127), a);
    let b: Cmy16 = Rgb8::new(255, 0, 0).convert();
    assert_eq!(Cmy16::new(0, 65535, 65535), b);
}

fn check_gray_to_rgb() {
    let a: SRgb8 = SGray8::new(0xD9).convert();
    assert_eq!(SRgb8::new(0xD9, 0xD9, 0xD9), a);
    let b: SRgb8 = SGray16::new(0x337F).convert();
    assert_eq!(SRgb8::new(0x33, 0x33, 0x33), b);
    let c: SRgb16 = SGray8::new(0x29).convert();
    assert_eq!(SRgb16::new(0x2929, 0x2929, 0x2929), c);
    let d: SRgb16 = SGray16::new(0x5593).convert();
    assert_eq!(SRgb16::new(0x5593, 0x5593, 0x5593), d);
}

fn check_linear_to_srgb() {
    let a: SRgb8 = Rgb8::new(0xDC, 0x43, 0x91).convert();
    assert_eq!(SRgb8::new(0xEF, 0x8C, 0xC7), a);
    let b: SRgb8 = Rgb16::new(0x2205, 0xE699, 0x7654).convert();
    assert_eq!(SRgb8::new(0x66, 0xF4, 0xB5), b);
}

fn check_srgb_to_linear() {
    let a: Rgb8 = SRgb8::new(0xEF, 0x8C, 0xC7).convert();
    assert_eq!(Rgb8::new(0xDC, 0x43, 0x92), a);
    let b: Rgb8 = SRgb16::new(0x6673, 0xF453, 0xB593).convert();
    assert_eq!(Rgb8::new(0x22, 0xE7, 0x76), b);
}

fn check_straight_to_premultiplied() {
    let a: Rgba8p = Rgba8::new(0x20, 0x40, 0x80, 0x80).convert();
    assert_eq!(Rgba8p::new(0x10, 0x20, 0x40, 0x80), a);
    let b: Rgba8p = Rgba16::new(0x1000, 0x4000, 0x8000, 0x4000).convert();
    assert_eq!(Rgba8p::new(0x04, 0x10, 0x20, 0x40), b);
}

fn check_premultiplied_to_straight() {
    let a: Rgba8 = Rgba8p::new(0x20, 0x40, 0x80, 0x80).convert();
    assert_eq!(Rgba8::new(0x40, 0x80, 0xFF, 0x80), a);
    let b: Rgba8 = Rgba16p::new(0x1000, 0x4000, 0x2000, 0x4000).convert();
    assert_eq!(Rgba8::new(0x40, 0xFF, 0x80, 0x40), b);
}

fn check_straight_to_premultiplied_srgb() {
    let a: SRgba8p = SRgba8::new(0x20, 0x40, 0x80, 0x80).convert();
    assert_eq!(SRgba8p::new(0x16, 0x2A, 0x5C, 0x80), a);
    let b: SRgba8p = SRgba16::new(0x2000, 0x4000, 0x8000, 0x4000).convert();
    assert_eq!(SRgba8p::new(0x0D, 0x1C, 0x40, 0x40), b);
}

#[test]
fn el_gray_to_rgb() {
    check_gray_to_rgb();
}

#[test]
fn pixel_gray_to_rgb() {
    check_gray_to_rgb();
}

#[test]
fn el_linear_to_srgb() {
    check_linear_to_srgb();
}

#[test]
fn pixel_linear_to_srgb() {
    check_linear_to_srgb();
}

#[test]
fn el_srgb_to_linear() {
    check_srgb_to_linear();
}

#[test]
fn pixel_srgb_to_linear() {
    check_srgb_to_linear();
}

#[test]
fn el_straight_to_premultiplied() {
    check_straight_to_premultiplied();
}

#[test]
fn pixel_straight_to_premultiplied() {
    check_straight_to_premultiplied();
}

#[test]
fn el_premultiplied_to_straight() {
    check_premultiplied_to_straight();
}

#[test]
fn pixel_premultiplied_to_straight() {
    check_premultiplied_to_straight();
}

#[test]
fn el_straight_to_premultiplied_srgb() {
    check_straight_to_premultiplied_srgb();
}

#[test]
fn pixel_straight_to_premultiplied_srgb() {
    check_straight_to_premultiplied_srgb();
}

#[test]
fn with_raster_rgb() {
    let r = RasterBuilder::<SRgb8>::new().with_clear(50, 50);
    let _ = RasterBuilder::<SRgb16>::new().with_raster(&r);
    let _ = RasterBuilder::<SRgba8>::new().with_raster(&r);
    let _ = RasterBuilder::<SRgba16>::new().with_raster(&r);
    let _ = RasterBuilder::<Mask8>::new().with_raster(&r);
}

#[test]
fn with_raster_mask8() {
    let r = RasterBuilder::<Mask8>::new().with_clear(50, 50);
    let _ = RasterBuilder::<SRgb8>::new().with_raster(&r);
    let _ = RasterBuilder::<SRgba8>::new().with_raster(&r);
    let _ = RasterBuilder::<Mask8>::new().with_raster(&r);
    let _ = RasterBuilder::<Mask16>::new().with_raster(&r);
}

#[test]
fn with_raster_pixel_values() {
    let r = RasterBuilder::<SRgb8>::new().with_clear(50, 50);
    let a = RasterBuilder::<SRgb16>::new().with_raster(&r);
    assert_eq!(a.pixels().len(), 2500);
    assert!(a.pixels().iter().all(|p| *p == SRgb16::new(0, 0, 0)));
    let b = RasterBuilder::<SRgba8>::new().with_raster(&r);
    assert!(b.pixels().iter().all(|p| *p == SRgba8::new(0, 0, 0, 0xFF)));
    let c = RasterBuilder::<SRgba16>::new().with_raster(&r);
    assert!(c.pixels().iter().all(|p| *p == SRgba16::new(0, 0, 0, 0xFFFF)));
    let d = RasterBuilder::<Mask8>::new().with_raster(&r);
    assert!(d.pixels().iter().all(|p| *p == Mask8::new(0xFF)));

    let m = RasterBuilder::<Mask8>::new().with_clear(50, 50);
    let e = RasterBuilder::<SRgb8>::new().with_raster(&m);
    assert!(e.pixels().iter().all(|p| *p == SRgb8::new(0xFF, 0xFF, 0xFF)));
    let f = RasterBuilder::<SRgba8>::new().with_raster(&m);
    assert!(f.pixels().iter().all(|p| *p == SRgba8::new(0xFF, 0xFF, 0xFF, 0)));
    let g = RasterBuilder::<Mask16>::new().with_raster(&m);
    assert!(g.pixels().iter().all(|p| *p == Mask16::new(0)));
}
