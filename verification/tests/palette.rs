use pix::palette::Palette;
use pix::rgb::SRgb8;

#[test]
fn fill_16() {
    let mut p = Palette::new(16);
    assert_eq!(p.entry(4), None);
    // test insertion
    for i in 0..16 {
        let idx = p.set_entry(SRgb8::new(i, i, i)).unwrap();
        assert_eq!(i as usize, idx);
    }
    assert_eq!(p.set_entry(SRgb8::new(255, 255, 255)), None);
    // test lookup
    for i in 0..16 {
        let idx = p.set_entry(SRgb8::new(i, i, i)).unwrap();
        assert_eq!(i as usize, idx);
    }
    assert_eq!(p.entry(5), Some(SRgb8::new(5, 5, 5)));
    p.replace_entry(5, SRgb8::new(0x55, 0x55, 0x55));
    let v = vec![
        0x00, 0x00, 0x00, 0x01, 0x01, 0x01, 0x02, 0x02, 0x02, 0x03, 0x03,
        0x03, 0x04, 0x04, 0x04, 0x55, 0x55, 0x55, 0x06, 0x06, 0x06, 0x07,
        0x07, 0x07, 0x08, 0x08, 0x08, 0x09, 0x09, 0x09, 0x0A, 0x0A, 0x0A,
        0x0B, 0x0B, 0x0B, 0x0C, 0x0C, 0x0C, 0x0D, 0x0D, 0x0D, 0x0E, 0x0E,
        0x0E, 0x0F, 0x0F, 0x0F,
    ];
    assert_eq!(&p.as_u8_slice()[..], &v[..]);
}

#[test]
fn check_hist() {
    let mut p = Palette::new(8);
    for i in 0..7 {
        p.set_entry(SRgb8::new(i, i, i));
    }
    let v: Vec<u8> = vec![
        0x00, 0x00, 0x00, 0x00, 0x04, 0x00, 0x00, 0x01, 0x02, 0x04, 0x01,
        0x02, 0x02, 0x04, 0x02, 0x06, 0x04, 0x03, 0x03, 0x03, 0x06, 0x03,
        0x01, 0x02, 0x01, 0x02, 0x04, 0x00, 0x04, 0x00, 0x00, 0x00, 0x00,
        0x00, 0x01, 0x02, 0x00, 0x00, 0x00, 0x02, 0x02, 0x04, 0x01, 0x00,
        0x00, 0x00, 0x02, 0x04,
    ];
    assert_eq!(p.histogram(&v[..]), Some(vec![18, 6, 10, 4, 8, 0, 2]));
}

#[test]
fn matching() {
    let mut p = Palette::new(8);
    assert_eq!(p.set_entry(SRgb8::new(10, 10, 10)), Some(0));
    assert_eq!(p.set_entry(SRgb8::new(20, 20, 20)), Some(1));
    assert_eq!(p.set_entry(SRgb8::new(30, 30, 30)), Some(2));
    assert_eq!(p.set_entry(SRgb8::new(40, 40, 40)), Some(3));
    let mut p = p.set_threshold_fn(|_| SRgb8::new(4, 5, 6));
    assert_eq!(p.set_entry(SRgb8::new(15, 15, 15)), Some(4));
    let mut p = p.set_threshold_fn(|_| SRgb8::new(5, 5, 5));
    assert_eq!(p.set_entry(SRgb8::new(35, 35, 35)), Some(2));
}
