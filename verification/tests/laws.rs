use pix::bgr::Bgr8;
use pix::chan::{Ch16, Ch8, Channel, Gamma, Linear, Srgb};
use pix::cmy::Cmy8;
use pix::gray::{Gray8, SGray8, SGraya8};
use pix::matte::Matte8;
use pix::ops::{Dest, DestOut, DestOver, PorterDuff, Src, SrcOut, SrcOver, Xor};
use pix::palette::Palette;
use pix::raster::{Raster, RasterBuilder, Region};
use pix::rgb::{Rgb, Rgb16, Rgb8, Rgba8, Rgba8p, SRgb8, SRgba8, SRgba8p};

#[test]
fn ch8_ch16_round_trip_every_value() {
    for i in 0..=255u8 {
        let c16: Ch16 = Ch8::new(i).into();
        assert_eq!(c16.get(), u16::from(i) * 257);
        let back: Ch8 = c16.into();
        assert_eq!(back, Ch8::new(i));
    }
}

#[test]
fn depth_keeps_extremes() {
    assert_eq!(Ch16::from(Ch8::minimum()), Ch16::minimum());
    assert_eq!(Ch16::from(Ch8::maximum()), Ch16::maximum());
    assert_eq!(Ch8::from(Ch16::minimum()), Ch8::minimum());
    assert_eq!(Ch8::from(Ch16::maximum()), Ch8::maximum());
}

#[test]
fn mul_is_commutative_and_at_most_factors() {
    for a in (0..=255u8).step_by(7) {
        for b in (0..=255u8).step_by(11) {
            let p = Ch8::new(a) * Ch8::new(b);
            assert_eq!(p, Ch8::new(b) * Ch8::new(a));
            assert!(p.get() <= a && p.get() <= b);
        }
        assert_eq!(Ch8::new(a) * Ch8::new(0), Ch8::new(0));
    }
    assert_eq!(Ch16::new(40000) * Ch16::new(30000), Ch16::new(30000) * Ch16::new(40000));
    assert!((Ch16::new(40000) * Ch16::new(30000)).get() <= 30000);
}

#[test]
fn div_by_max_is_identity() {
    for a in 0..=255u8 {
        assert_eq!(Ch8::new(a) / Ch8::maximum(), Ch8::new(a));
    }
    for a in [0u16, 1, 2, 255, 256, 32767, 32768, 65534, 65535] {
        assert_eq!(Ch16::new(a) / Ch16::maximum(), Ch16::new(a));
    }
}

#[test]
fn convert_to_same_format_is_identity() {
    let p = SRgba8p::new(0x12, 0x34, 0x56, 0x78);
    let q: SRgba8p = p.convert();
    assert_eq!(p, q);
    let g = SGraya8::new(0x9A, 0xBC);
    let h: SGraya8 = g.convert();
    assert_eq!(g, h);
}

#[test]
fn cmy_rgb_round_trip() {
    let c = Cmy8::new(0, 254, 253);
    let r: Rgb8 = c.convert();
    assert_eq!(r, Rgb8::new(255, 1, 2));
    let back: Cmy8 = r.convert();
    assert_eq!(back, c);
    let r2 = Rgb8::new(255, 0, 128);
    let c2: Cmy8 = r2.convert();
    assert_eq!(c2, Cmy8::new(0, 255, 127));
}

#[test]
fn gray_to_rgb_replicates_value() {
    for v in [0u8, 1, 0x45, 0x80, 0xFF] {
        let r: Rgb8 = Gray8::new(v).convert();
        assert_eq!(r, Rgb8::new(v, v, v));
        let s: SRgb8 = SGray8::new(v).convert();
        assert_eq!(s, SRgb8::new(v, v, v));
    }
}

#[test]
fn bgr_to_rgb_swaps() {
    let r: Rgb8 = Bgr8::new(1, 2, 3).convert();
    assert_eq!(r, Rgb8::new(3, 2, 1));
}

#[test]
fn alpha_modes() {
    let p: Rgba8p = Rgba8::new(0x20, 0x40, 0x80, 0x80).convert();
    assert_eq!(p, Rgba8p::new(0x10, 0x20, 0x40, 0x80));
    let s: Rgba8 = Rgba8p::new(0x20, 0x40, 0x80, 0x80).convert();
    assert_eq!(s, Rgba8::new(0x40, 0x80, 0xFF, 0x80));
    let m: Rgba8p = Matte8::new(0x80).convert();
    assert_eq!(m, Rgba8p::new(0xFF, 0xFF, 0xFF, 0x80));
}

#[test]
fn gamma_modes() {
    let s: SRgb8 = Rgb8::new(0xDC, 0x43, 0x91).convert();
    assert_eq!(s, SRgb8::new(0xEF, 0x8C, 0xC7));
    let l: Rgb8 = SRgb8::new(0xEF, 0x8C, 0xC7).convert();
    assert_eq!(l, Rgb8::new(0xDC, 0x43, 0x92));
    let p: SRgba8p = SRgba8::new(0x20, 0x40, 0x80, 0x80).convert();
    assert_eq!(p, SRgba8p::new(0x16, 0x2A, 0x5C, 0x80));
    let d: SRgb8 = Rgb16::new(0x2205, 0xE699, 0x7654).convert();
    assert_eq!(d, SRgb8::new(0x66, 0xF4, 0xB5));
    assert_eq!(Srgb::from_linear(Ch8::new(0x7D)), Some(Ch8::new(0xBA)));
    assert_eq!(Srgb::to_linear(Ch16::new(0x7D7D)), None);
    assert_eq!(Linear::to_linear(Ch16::new(0x7D7D)), Some(Ch16::new(0x7D7D)));
}

#[test]
fn porter_duff_with_opaque_operands() {
    let dst0 = Ch8::new(0x40);
    let src = Ch8::new(0x90);
    let zero = Ch8::new(0);
    let mut d = dst0;
    SrcOver::composite(&mut d, Ch8::new(0x33), &src, zero);
    assert_eq!(d, src);
    let mut d = dst0;
    DestOut::composite(&mut d, Ch8::new(0x33), &src, zero);
    assert_eq!(d, zero);
    let mut d = dst0;
    DestOver::composite(&mut d, zero, &src, Ch8::new(0x33));
    assert_eq!(d, dst0);
    let mut d = dst0;
    SrcOut::composite(&mut d, zero, &src, Ch8::new(0x33));
    assert_eq!(d, zero);
    let mut d = dst0;
    Src::composite(&mut d, zero, &src, zero);
    assert_eq!(d, src);
    let mut d = dst0;
    Dest::composite(&mut d, zero, &src, zero);
    assert_eq!(d, dst0);
    // xor with half-transparent operands: src * da1 + dst * sa1
    let mut d = dst0;
    Xor::composite(&mut d, Ch8::new(0x80), &src, Ch8::new(0x80));
    assert_eq!(d, Ch8::new(0x90) * Ch8::new(0x80) + Ch8::new(0x40) * Ch8::new(0x80));
}

#[test]
fn write_then_read() {
    let mut r = RasterBuilder::<Gray8>::new().with_clear(4, 3);
    *r.pixel_mut(2, 1) = Gray8::new(0x77);
    assert_eq!(r.pixel(2, 1), Gray8::new(0x77));
    for y in 0..3 {
        for x in 0..4 {
            if (x, y) != (2, 1) {
                assert_eq!(r.pixel(x, y), Gray8::new(0));
            }
        }
    }
}

#[test]
fn intersection_commutes_and_keeps_inner_region() {
    let a = Region::new(3, -2, 10, 7);
    let b = Region::new(-1, 1, 6, 20);
    assert_eq!(a.intersection(b), b.intersection(a));
    assert_eq!(a.intersection(b), Region::new(3, 1, 2, 4));
    let inner = Region::new(2, 2, 3, 3);
    assert_eq!(inner.intersection(Region::new(0, 0, 10, 10)), inner);
}

#[test]
fn palette_finds_existing_color() {
    let mut p = Palette::new(4);
    assert_eq!(p.set_entry(SRgb8::new(1, 2, 3)), Some(0));
    assert_eq!(p.set_entry(SRgb8::new(9, 9, 9)), Some(1));
    let mut p = p.set_threshold_fn(|_| SRgb8::new(200, 200, 200));
    assert_eq!(p.set_entry(SRgb8::new(9, 9, 9)), Some(1));
    assert_eq!(p.set_entry(SRgb8::new(1, 2, 3)), Some(0));
    assert_eq!(p.len(), 2);
}

#[test]
fn palette_replace_then_entry() {
    let mut p = Palette::new(4);
    p.set_entry(SRgb8::new(1, 1, 1));
    assert_eq!(p.replace_entry(0, SRgb8::new(7, 7, 7)), Some(SRgb8::new(1, 1, 1)));
    assert_eq!(p.entry(0), Some(SRgb8::new(7, 7, 7)));
    assert_eq!(p.replace_entry(3, SRgb8::new(7, 7, 7)), None);
}

#[test]
fn with_raster_converts_every_pixel() {
    let src = Raster::with_color(3, 2, Gray8::new(0x7D));
    let dst: Raster<SRgb8> = Raster::with_raster(&src);
    assert_eq!(dst.width(), 3);
    assert_eq!(dst.height(), 2);
    assert_eq!(dst.pixels(), &vec![SRgb8::new(0xBA, 0xBA, 0xBA); 6][..]);
}

#[test]
fn rgb_difference_and_threshold() {
    let a = Rgba8::new(10, 200, 30, 255);
    let b = Rgba8::new(20, 100, 30, 250);
    let d = Rgb::difference(a, b);
    assert_eq!(d, Rgba8::new(10, 100, 0, 5));
    assert!(Rgb::within_threshold(d, Rgba8::new(10, 100, 0, 5)));
    assert!(!Rgb::within_threshold(d, Rgba8::new(9, 100, 0, 5)));
}

#[test]
fn u8_buffer_round_trip() {
    let buf: Vec<u8> = (0u8..24).collect();
    let r = RasterBuilder::<Rgba8>::new().with_u8_buffer(3, 2, buf.clone());
    assert_eq!(r.as_u8_slice(), buf);
}

#[test]
fn u16_buffer_round_trip() {
    let buf: Vec<u16> = vec![0x0102, 0xA0B0, 0xFFFF, 0x0000, 0x1234, 0x8001];
    let r = RasterBuilder::<Rgb16>::new().with_u16_buffer(2, 1, buf.clone());
    let want: Vec<u8> = buf.iter().flat_map(|v| v.to_ne_bytes()).collect();
    assert_eq!(r.as_u8_slice(), want);
}
