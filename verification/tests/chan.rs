use pix::chan::{Ch16, Ch8};

/// An 8-bit channel from a fraction of one, as `Ch8::from(f32)` does it:
/// clamped to [0, 1], then scaled and rounded.
fn ch8(v: f32) -> Ch8 {
    let v = if v.is_nan() || v < 0.0 { 0.0 } else if v > 1.0 { 1.0 } else { v };
    Ch8::new((v * 255.0).round() as u8)
}

/// A 16-bit channel from a fraction of one, as `Ch16::from(f32)` does it.
fn ch16(v: f32) -> Ch16 {
    let v = if v.is_nan() || v < 0.0 { 0.0 } else if v > 1.0 { 1.0 } else { v };
    Ch16::new((v * 65535.0).round() as u16)
}

#[test]
fn chan_ch8_into() {
    assert_eq!(Ch8::new(255), 255.into());
    assert_eq!(Ch8::new(128), 128.into());
    assert_eq!(Ch8::new(64), 64.into());
    assert_eq!(Ch8::new(32), 32.into());
    for i in 0..=255 {
        let c8 = Ch8::new(i);
        let c16: Ch16 = c8.into();
        assert_eq!(c8, c16.into());
    }
    assert_eq!(Ch8::new(128), Ch16::new(32768).into());
    assert_eq!(Ch8::new(128), ch8(0.5));
}

#[test]
fn chan_ch16_into() {
    assert_eq!(Ch16::new(65535), 65535.into());
    assert_eq!(Ch16::new(32768), 32768.into());
    assert_eq!(Ch16::new(16384), 16384.into());
    assert_eq!(Ch16::new(8192), 8192.into());
    assert_eq!(Ch16::new(0), Ch8::new(0).into());
    assert_eq!(Ch16::new(65535), Ch8::new(255).into());
}

#[test]
fn chan_ch8_mul() {
    assert_eq!(Ch8::new(255), Ch8::new(255) * ch8(1.0));
    assert_eq!(Ch8::new(128), Ch8::new(255) * ch8(0.5));
    assert_eq!(Ch8::new(64), Ch8::new(255) * ch8(0.25));
    assert_eq!(Ch8::new(32), Ch8::new(255) * ch8(0.125));
    assert_eq!(Ch8::new(16), Ch8::new(255) * ch8(0.0625));
    assert_eq!(Ch8::new(64), Ch8::new(128) * ch8(0.5));
    assert_eq!(Ch8::new(32), Ch8::new(128) * ch8(0.25));
    assert_eq!(Ch8::new(16), Ch8::new(128) * ch8(0.125));
    assert_eq!(Ch8::new(8), Ch8::new(128) * ch8(0.0625));
}

#[test]
fn chan_ch8_div() {
    assert_eq!(Ch8::new(255), Ch8::new(255) / ch8(1.0));
    assert_eq!(Ch8::new(255), Ch8::new(128) / ch8(0.5));
    assert_eq!(Ch8::new(255), Ch8::new(64) / ch8(0.25));
    assert_eq!(Ch8::new(255), Ch8::new(32) / ch8(0.125));
    assert_eq!(Ch8::new(255), Ch8::new(16) / ch8(0.0625));
    assert_eq!(Ch8::new(128), Ch8::new(128) / ch8(1.0));
    assert_eq!(Ch8::new(128), Ch8::new(64) / ch8(0.5));
    assert_eq!(Ch8::new(128), Ch8::new(32) / ch8(0.25));
    assert_eq!(Ch8::new(128), Ch8::new(16) / ch8(0.125));
    assert_eq!(Ch8::new(64), Ch8::new(64) / ch8(1.0));
    assert_eq!(Ch8::new(64), Ch8::new(32) / ch8(0.5));
    assert_eq!(Ch8::new(64), Ch8::new(16) / ch8(0.25));
}

#[test]
fn chan_ch16_mul() {
    assert_eq!(Ch16::new(65535), Ch16::new(65535) * ch16(1.0));
    assert_eq!(Ch16::new(32768), Ch16::new(65535) * ch16(0.5));
    assert_eq!(Ch16::new(16384), Ch16::new(65535) * ch16(0.25));
    assert_eq!(Ch16::new(8192), Ch16::new(65535) * ch16(0.125));
    assert_eq!(Ch16::new(4096), Ch16::new(65535) * ch16(0.0625));
    assert_eq!(Ch16::new(16384), Ch16::new(32768) * ch16(0.5));
    assert_eq!(Ch16::new(8192), Ch16::new(32768) * ch16(0.25));
    assert_eq!(Ch16::new(4096), Ch16::new(32768) * ch16(0.125));
    assert_eq!(Ch16::new(2048), Ch16::new(32768) * ch16(0.0625));
}

#[test]
fn chan_ch16_div() {
    assert_eq!(Ch16::new(65535), Ch16::new(65535) / ch16(1.0));
    assert_eq!(Ch16::new(65535), Ch16::new(32768) / ch16(0.5));
    assert_eq!(Ch16::new(65535), Ch16::new(16384) / ch16(0.25));
    assert_eq!(Ch16::new(65535), Ch16::new(8192) / ch16(0.125));
    assert_eq!(Ch16::new(65535), Ch16::new(4096) / ch16(0.0625));
    assert_eq!(Ch16::new(32768), Ch16::new(32768) / ch16(1.0));
    assert_eq!(Ch16::new(32768), Ch16::new(16384) / ch16(0.5));
    assert_eq!(Ch16::new(32768), Ch16::new(8192) / ch16(0.25));
    assert_eq!(Ch16::new(32768), Ch16::new(4096) / ch16(0.125));
    assert_eq!(Ch16::new(16384), Ch16::new(16384) / ch16(1.0));
    assert_eq!(Ch16::new(16384), Ch16::new(8192) / ch16(0.5));
    assert_eq!(Ch16::new(16384), Ch16::new(4096) / ch16(0.25));
}

#[test]
fn channel_ch8_into() {
    assert_eq!(Ch16::new(255), 255.into());
    assert_eq!(Ch16::new(128), 128.into());
    assert_eq!(Ch16::new(64), 64.into());
    assert_eq!(Ch16::new(32), 32.into());
}

#[test]
fn channel_ch16_into() {
    assert_eq!(Ch16::new(65535), 65535.into());
    assert_eq!(Ch16::new(32768), 32768.into());
    assert_eq!(Ch16::new(16384), 16384.into());
    assert_eq!(Ch16::new(8192), 8192.into());
}

#[test]
fn channel_ch8_mul() {
    assert_eq!(Ch8::new(255), Ch8::new(255) * ch8(1.0));
    assert_eq!(Ch8::new(128), Ch8::new(255) * ch8(0.5));
    assert_eq!(Ch8::new(64), Ch8::new(255) * ch8(0.25));
    assert_eq!(Ch8::new(32), Ch8::new(255) * ch8(0.125));
    assert_eq!(Ch8::new(16), Ch8::new(255) * ch8(0.0625));
    assert_eq!(Ch8::new(64), Ch8::new(128) * ch8(0.5));
    assert_eq!(Ch8::new(32), Ch8::new(128) * ch8(0.25));
    assert_eq!(Ch8::new(16), Ch8::new(128) * ch8(0.125));
    assert_eq!(Ch8::new(8), Ch8::new(128) * ch8(0.0625));
}

#[test]
fn channel_ch8_div() {
    assert_eq!(Ch8::new(255), Ch8::new(255) / ch8(1.0));
    assert_eq!(Ch8::new(255), Ch8::new(128) / ch8(0.5));
    assert_eq!(Ch8::new(255), Ch8::new(64) / ch8(0.25));
    assert_eq!(Ch8::new(255), Ch8::new(32) / ch8(0.125));
    assert_eq!(Ch8::new(255), Ch8::new(16) / ch8(0.0625));
    assert_eq!(Ch8::new(128), Ch8::new(128) / ch8(1.0));
    assert_eq!(Ch8::new(128), Ch8::new(64) / ch8(0.5));
    assert_eq!(Ch8::new(128), Ch8::new(32) / ch8(0.25));
    assert_eq!(Ch8::new(128), Ch8::new(16) / ch8(0.125));
    assert_eq!(Ch8::new(64), Ch8::new(64) / ch8(1.0));
    assert_eq!(Ch8::new(64), Ch8::new(32) / ch8(0.5));
    assert_eq!(Ch8::new(64), Ch8::new(16) / ch8(0.25));
}

#[test]
fn channel_ch16_mul() {
    assert_eq!(Ch16::new(65535), Ch16::new(65535) * ch16(1.0));
    assert_eq!(Ch16::new(32768), Ch16::new(65535) * ch16(0.5));
    assert_eq!(Ch16::new(16384), Ch16::new(65535) * ch16(0.25));
    assert_eq!(Ch16::new(8192), Ch16::new(65535) * ch16(0.125));
    assert_eq!(Ch16::new(4096), Ch16::new(65535) * ch16(0.0625));
    assert_eq!(Ch16::new(16384), Ch16::new(32768) * ch16(0.5));
    assert_eq!(Ch16::new(8192), Ch16::new(32768) * ch16(0.25));
    assert_eq!(Ch16::new(4096), Ch16::new(32768) * ch16(0.125));
    assert_eq!(Ch16::new(2048), Ch16::new(32768) * ch16(0.0625));
}

#[test]
fn channel_ch16_div() {
    assert_eq!(Ch16::new(65535), Ch16::new(65535) / ch16(1.0));
    assert_eq!(Ch16::new(65535), Ch16::new(32768) / ch16(0.5));
    assert_eq!(Ch16::new(65535), Ch16::new(16384) / ch16(0.25));
    assert_eq!(Ch16::new(65535), Ch16::new(8192) / ch16(0.125));
    assert_eq!(Ch16::new(65535), Ch16::new(4096) / ch16(0.0625));
    assert_eq!(Ch16::new(32768), Ch16::new(32768) / ch16(1.0));
    assert_eq!(Ch16::new(32768), Ch16::new(16384) / ch16(0.5));
    assert_eq!(Ch16::new(32768), Ch16::new(8192) / ch16(0.25));
    assert_eq!(Ch16::new(32768), Ch16::new(4096) / ch16(0.125));
    assert_eq!(Ch16::new(16384), Ch16::new(16384) / ch16(1.0));
    assert_eq!(Ch16::new(16384), Ch16::new(8192) / ch16(0.5));
    assert_eq!(Ch16::new(16384), Ch16::new(4096) / ch16(0.25));
}
