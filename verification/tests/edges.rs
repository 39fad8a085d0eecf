use pix::chan::{Ch16, Ch8, Channel};
use pix::gray::{Gray8, SGray8};
use pix::mask::Mask16;
use pix::rgb::Rgb8;
use pix::hsv::Hsv;
use pix::model::ColorModel;
use pix::palette::Palette;
use pix::raster::{RasterBuilder, Region};
use pix::rgb::SRgb8;

#[test]
fn ch8_arithmetic_exact_values() {
    assert_eq!(Ch8::new(200) + Ch8::new(100), Ch8::new(255));
    assert_eq!(Ch8::new(20) + Ch8::new(100), Ch8::new(120));
    assert_eq!(Ch8::new(20) - Ch8::new(100), Ch8::new(0));
    assert_eq!(Ch8::new(200).wrapping_add(Ch8::new(100)), Ch8::new(44));
    assert_eq!(Ch8::new(20).wrapping_sub(Ch8::new(100)), Ch8::new(176));
    // small values lose one step when multiplied by one
    assert_eq!(Ch8::new(1) * Ch8::new(255), Ch8::new(0));
    assert_eq!(Ch8::new(16) * Ch8::new(255), Ch8::new(16));
    assert_eq!(Ch8::new(100) / Ch8::new(0), Ch8::new(0));
    assert_eq!(Ch8::new(200) / Ch8::new(100), Ch8::new(255));
}

#[test]
fn ch16_arithmetic_exact_values() {
    assert_eq!(Ch16::new(60000) + Ch16::new(6000), Ch16::new(65535));
    assert_eq!(Ch16::new(6000) - Ch16::new(60000), Ch16::new(0));
    assert_eq!(Ch16::new(60000).wrapping_add(Ch16::new(6000)), Ch16::new(464));
    assert_eq!(Ch16::new(6000).wrapping_sub(Ch16::new(60000)), Ch16::new(11536));
    assert_eq!(Ch16::new(100) / Ch16::new(0), Ch16::new(0));
    assert_eq!(Ch16::new(1000) / Ch16::new(2000), Ch16::new(32768));
}

#[test]
fn float_models_do_not_convert_here() {
    let q = [Ch8::new(1), Ch8::new(2), Ch8::new(3), Ch8::new(4)];
    assert_eq!(Hsv::into_rgba(q, Ch8::new(4)), None);
    assert_eq!(Hsv::from_rgba(q), None);
}

#[test]
fn region_new_clamps_large_dimensions() {
    let r = Region::new(-3, 4, u32::MAX, 5);
    assert_eq!(r.width(), 0);
    assert_eq!(r.height(), 5);
    assert_eq!(r.left(), -3);
    assert_eq!(r.top(), 4);
    assert_eq!(Region::new(i32::MAX - 1, 0, 10, 1).right(), i32::MAX);
    assert_eq!(Region::new(1, 2, 3, 4), Region::from((1, 2, 3, 4)));
    assert_eq!(Region::from(()), Region::new(0, 0, i32::MAX as u32, i32::MAX as u32));
}

#[test]
fn set_region_negative_side_sets_nothing() {
    let mut r = RasterBuilder::<SGray8>::new().with_clear(3, 3);
    r.set_region((-1, 0, 3, 3), SGray8::new(0x55));
    assert_eq!(r.pixels(), &vec![SGray8::new(0); 9][..]);
}

#[test]
fn compose_raster_shifted_regions() {
    let mut dst = RasterBuilder::<Gray8>::new().with_clear(4, 4);
    let mut src = RasterBuilder::<Gray8>::new().with_clear(2, 2);
    *src.pixel_mut(0, 0) = Gray8::new(1);
    *src.pixel_mut(1, 0) = Gray8::new(2);
    *src.pixel_mut(0, 1) = Gray8::new(3);
    *src.pixel_mut(1, 1) = Gray8::new(4);
    dst.compose_raster((1, 2, 2, 2), &src, ());
    let z = Gray8::new(0);
    let v = vec![
        z, z, z, z,
        z, z, z, z,
        z, Gray8::new(1), Gray8::new(2), z,
        z, Gray8::new(3), Gray8::new(4), z,
    ];
    assert_eq!(dst.pixels(), &v[..]);
}

#[test]
fn palette_full_gives_none() {
    let mut p = Palette::new(1);
    assert!(p.is_empty());
    assert_eq!(p.set_entry(SRgb8::new(1, 1, 1)), Some(0));
    assert_eq!(p.set_entry(SRgb8::new(2, 2, 2)), None);
    assert_eq!(p.len(), 1);
    assert_eq!(p.set_entry_with_threshold(SRgb8::new(2, 2, 2), SRgb8::new(1, 1, 1)), Some(0));
}

#[test]
fn histogram_rejects_index_past_table() {
    let mut p = Palette::new(4);
    p.set_entry(SRgb8::new(1, 1, 1));
    p.set_entry(SRgb8::new(2, 2, 2));
    assert_eq!(p.histogram(&[0u8, 1, 1][..]), Some(vec![1, 2]));
    assert_eq!(p.histogram(&[0u8, 2][..]), None);
}

#[test]
fn rows_and_region_iter() {
    let mut r = RasterBuilder::<Gray8>::new().with_clear(3, 2);
    for y in 0..2 {
        for x in 0..3 {
            *r.pixel_mut(x, y) = Gray8::new((y * 3 + x) as u8);
        }
    }
    let mut rows = r.rows();
    assert_eq!(rows.next().unwrap(), &[Gray8::new(0), Gray8::new(1), Gray8::new(2)][..]);
    assert_eq!(rows.next().unwrap(), &[Gray8::new(3), Gray8::new(4), Gray8::new(5)][..]);
    assert!(rows.next().is_none());
    let mut it = r.region_iter((1, 0, 2, 2));
    let mut got = vec![];
    while let Some(p) = it.next() {
        got.push(p);
    }
    assert_eq!(got, vec![Gray8::new(1), Gray8::new(2), Gray8::new(4), Gray8::new(5)]);
}

#[test]
fn rows_mut_write_through() {
    let mut r = RasterBuilder::<Gray8>::new().with_clear(2, 2);
    {
        let mut rows = r.rows_mut();
        let row = rows.next().unwrap();
        row[1] = Gray8::new(9);
    }
    assert_eq!(r.pixel(1, 0), Gray8::new(9));
}

#[test]
fn raster_bytes_in_memory_order() {
    let mut r = RasterBuilder::<Rgb8>::new().with_clear(2, 1);
    *r.pixel_mut(0, 0) = Rgb8::new(1, 2, 3);
    *r.pixel_mut(1, 0) = Rgb8::new(4, 5, 6);
    assert_eq!(r.as_u8_slice(), vec![1, 2, 3, 4, 5, 6]);
    let mut m = RasterBuilder::<Mask16>::new().with_clear(2, 1);
    *m.pixel_mut(1, 0) = Mask16::new(0x1234);
    let mut want = vec![0u8, 0];
    want.extend_from_slice(&0x1234u16.to_ne_bytes());
    assert_eq!(m.as_u8_slice(), want);
}

#[test]
fn region_iter_empty_regions_give_nothing() {
    let r = RasterBuilder::<Gray8>::new().with_clear(2, 2);
    let mut it = r.region_iter((0, 0, 2, 0));
    assert!(it.next().is_none());
    assert!(it.next().is_none());
    let mut it = r.region_iter((1, 0, 0, 2));
    assert!(it.next().is_none());
}

#[test]
fn set_region_copies_from_region_iter() {
    let mut gray = RasterBuilder::<SGray8>::new().with_clear(3, 3);
    for y in 0..3 {
        for x in 0..3 {
            *gray.pixel_mut(x, y) = SGray8::new((y * 3 + x) as u8 + 1);
        }
    }
    let mut rgb = RasterBuilder::<SRgb8>::new().with_clear(4, 4);
    rgb.set_region((2, 1, 2, 2), gray.region_iter((1, 1, 2, 2)));
    let z = SRgb8::new(0, 0, 0);
    let g = |v: u8| SRgb8::new(v, v, v);
    let v = vec![
        z, z, z, z,
        z, z, g(5), g(6),
        z, z, g(8), g(9),
        z, z, z, z,
    ];
    assert_eq!(rgb.pixels(), &v[..]);
}

#[test]
fn set_region_keeps_pixels_past_the_source() {
    let src = RasterBuilder::<Gray8>::new().with_color(1, 1, Gray8::new(7));
    let mut dst = RasterBuilder::<Gray8>::new().with_clear(2, 1);
    dst.set_region((0, 0, 2, 1), src.region_iter(src.region()));
    assert_eq!(dst.pixels(), &[Gray8::new(7), Gray8::new(0)][..]);
}

#[test]
fn rows_mut_fills_every_row() {
    let mut r = RasterBuilder::<Gray8>::new().with_clear(3, 2);
    let mut rows = r.rows_mut();
    let mut k = 0u8;
    while let Some(row) = rows.next() {
        for j in 0..row.len() {
            row[j] = Gray8::new(k * 10 + j as u8);
        }
        k += 1;
    }
    assert_eq!(k, 2);
    assert_eq!(r.pixel(2, 1), Gray8::new(12));
    assert_eq!(r.pixel(0, 0), Gray8::new(0));
    assert_eq!(r.width(), 3);
}

#[test]
fn palette_never_passes_capacity() {
    let mut p = Palette::new(2);
    for v in 0..5u8 {
        p.set_entry(SRgb8::new(v, v, v));
        assert!(p.len() <= 2);
    }
    assert_eq!(p.len(), 2);
}

#[test]
fn set_region_from_vec_of_pixels() {
    let mut r = RasterBuilder::<Gray8>::new().with_clear(3, 2);
    r.set_region((1, 0, 2, 2), vec![Gray8::new(1), Gray8::new(2), Gray8::new(3)]);
    let z = Gray8::new(0);
    assert_eq!(r.pixels(), &[z, Gray8::new(1), Gray8::new(2), z, Gray8::new(3), z][..]);
}

#[test]
fn rows_give_height_rows_in_order() {
    let mut r = RasterBuilder::<Gray8>::new().with_clear(2, 3);
    for (i, p) in r.pixels_mut().iter_mut().enumerate() {
        *p = Gray8::new(i as u8);
    }
    let mut rows = r.rows();
    for k in 0..3u8 {
        assert_eq!(rows.next().unwrap(), &[Gray8::new(2 * k), Gray8::new(2 * k + 1)][..]);
    }
    assert!(rows.next().is_none());
}

#[test]
fn dimensions_stay_fixed() {
    let mut r = RasterBuilder::<Gray8>::new().with_color(3, 2, Gray8::new(5));
    r.clear();
    *r.pixel_mut(1, 1) = Gray8::new(4);
    r.set_region((0, 0, 9, 9), Gray8::new(1));
    let src = RasterBuilder::<Gray8>::new().with_clear(1, 1);
    r.compose_raster((), &src, ());
    let _ = r.rows_mut().next();
    assert_eq!((r.width(), r.height()), (3, 2));
}
