use pix::gray::{Gray8, SGray8, SGraya8};
use pix::rgb::SRgb8;

#[test]
fn gray_gray_to_rgb() {
    assert_eq!(SRgb8::new(0x45, 0x45, 0x45), SGray8::new(0x45).convert());
    assert_eq!(SRgb8::new(0xDA, 0xDA, 0xDA), SGraya8::new(0xDA, 0x33).convert());
    assert_eq!(SRgb8::new(0xBA, 0xBA, 0xBA), Gray8::new(0x7D).convert());
}
