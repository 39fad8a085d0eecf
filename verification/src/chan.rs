// Color channels: 8-bit and 16-bit integer components, alpha modes and
// gamma modes.
use vstd::prelude::*;

verus! {

/// Smaller of two naturals.
pub open spec fn min_nat(a: nat, b: nat) -> nat {
    if a <= b { a } else { b }
}

/// Value of a saturating addition of two channel values.
pub open spec fn saturating_add_value(a: nat, b: nat, max: nat) -> nat {
    min_nat(a + b, max)
}

/// Value of a saturating subtraction of two channel values.
pub open spec fn saturating_sub_value(a: nat, b: nat) -> nat {
    if a >= b { (a - b) as nat } else { 0 }
}

/// Value of a wrapping addition: the sum, less `max + 1` where it passes `max`.
pub open spec fn wrapping_add_value(a: nat, b: nat, max: nat) -> nat {
    if a + b > max { (a + b - (max + 1)) as nat } else { a + b }
}

/// Value of a wrapping subtraction: the difference, plus `max + 1` where it is negative.
pub open spec fn wrapping_sub_value(a: nat, b: nat, max: nat) -> nat {
    if a >= b { (a - b) as nat } else { (a - b + max + 1) as nat }
}

/// *Component* of a color model, such as *red*, *green*, *etc*.
///
/// A channel holds an integer between zero and `max_value()`; multiplication
/// and division treat it as a fraction of the maximum.  The existing channels
/// are [Ch8] and [Ch16].
pub trait Channel: Copy + Sized {
    /// Raw integer type holding the channel.
    type Raw: Copy;

    /// Integer value of the channel.
    spec fn value(self) -> nat;

    /// Integer value of a raw value.
    spec fn raw_value(r: Self::Raw) -> nat;

    /// Value at maximum intensity (*one*).
    spec fn max_value() -> nat;

    /// Value of the product of two channel values.
    spec fn mul_value(a: nat, b: nat) -> nat;

    /// Value of the quotient of two channel values.
    spec fn div_value(a: nat, b: nat) -> nat;

    /// 16-bit value of a channel value (used for bit depth conversion).
    spec fn wide_value(v: nat) -> nat;

    /// Channel value of a 16-bit value (used for bit depth conversion).
    spec fn narrow_value(w: nat) -> nat;

    /// Whether the library holds an sRGB table for this channel.
    spec fn srgb_table() -> bool;

    /// Number of bytes in the memory representation of a channel.
    spec fn byte_count() -> nat;

    /// Is `s` the memory representation of a channel holding value `v`, in
    /// little-endian byte order where `le`, else big-endian?
    spec fn bytes_of(v: nat, s: Seq<u8>, le: bool) -> bool;

    /// Value of sRGB encoding (linear to sRGB).
    spec fn encode_srgb_value(v: nat) -> nat;

    /// Value of sRGB decoding (sRGB to linear).
    spec fn decode_srgb_value(v: nat) -> nat;

    /// Every channel value lies between zero and the maximum.
    proof fn lemma_bounded(c: Self)
        ensures
            c.value() <= Self::max_value(),
            0 < Self::max_value() <= 65535,
    ;

    /// Widening a channel value and narrowing it back gives the same value.
    proof fn lemma_depth_round_trip(v: nat)
        requires
            v <= Self::max_value(),
        ensures
            Self::narrow_value(Self::wide_value(v)) == v,
            Self::wide_value(v) <= 65535,
    ;

    /// A product with *zero* is *zero*.
    proof fn lemma_mul_zero(a: nat)
        ensures
            Self::mul_value(a, 0) == 0,
    ;

    /// Channels with the same value are the same channel.
    proof fn lemma_injective(a: Self, b: Self)
        ensures
            a.value() == b.value() ==> a == b,
    ;

    /// A channel takes one or two bytes.
    proof fn lemma_byte_count()
        ensures
            1 <= Self::byte_count() <= 2,
    ;

    /// Make a channel from its raw integer.
    fn from_raw(r: Self::Raw) -> (c: Self)
        ensures
            c.value() == Self::raw_value(r),
    ;

    /// Minimum intensity (*zero*).
    fn minimum() -> (c: Self)
        ensures
            c.value() == 0,
    ;

    /// Maximum intensity (*one*).
    fn maximum() -> (c: Self)
        ensures
            c.value() == Self::max_value(),
    ;

    /// Saturating addition.
    fn saturating_add(self, rhs: Self) -> (c: Self)
        ensures
            c.value() == saturating_add_value(self.value(), rhs.value(), Self::max_value()),
    ;

    /// Saturating subtraction.
    fn saturating_sub(self, rhs: Self) -> (c: Self)
        ensures
            c.value() == saturating_sub_value(self.value(), rhs.value()),
    ;

    /// Multiplication, treating both values as fractions of the maximum.
    fn mul_chan(self, rhs: Self) -> (c: Self)
        ensures
            c.value() == Self::mul_value(self.value(), rhs.value()),
    ;

    /// Division, treating both values as fractions of the maximum.
    fn div_chan(self, rhs: Self) -> (c: Self)
        ensures
            c.value() == Self::div_value(self.value(), rhs.value()),
    ;

    /// Wrapping addition.
    fn wrapping_add(self, rhs: Self) -> (c: Self)
        ensures
            c.value() == wrapping_add_value(self.value(), rhs.value(), Self::max_value()),
    ;

    /// Wrapping subtraction.
    fn wrapping_sub(self, rhs: Self) -> (c: Self)
        ensures
            c.value() == wrapping_sub_value(self.value(), rhs.value(), Self::max_value()),
    ;

    /// Is `self` less than `rhs`?
    fn less_than(self, rhs: Self) -> (b: bool)
        ensures
            b == (self.value() < rhs.value()),
    ;

    /// Is `self` equal to `rhs`?
    fn same_as(self, rhs: Self) -> (b: bool)
        ensures
            b == (self.value() == rhs.value()),
    ;

    /// Widen to a 16-bit value.
    fn to_wide(self) -> (w: u16)
        ensures
            w as nat == Self::wide_value(self.value()),
    ;

    /// Narrow from a 16-bit value.
    fn from_wide(w: u16) -> (c: Self)
        ensures
            c.value() == Self::narrow_value(w as nat),
    ;

    /// Append the memory representation of the channel to `out`, in
    /// little-endian byte order where `le`, else big-endian.
    fn push_bytes(self, out: &mut Vec<u8>, le: bool)
        ensures
            final(out)@.len() == old(out)@.len() + Self::byte_count(),
            final(out)@.subrange(0, old(out)@.len() as int) == old(out)@,
            Self::bytes_of(
                self.value(),
                final(out)@.subrange(old(out)@.len() as int, final(out)@.len() as int),
                le,
            ),
    ;

    /// Encode an sRGB gamma value from linear intensity, where the library
    /// holds a table for this channel.
    fn encode_srgb(self) -> (c: Option<Self>)
        ensures
            c is Some <==> Self::srgb_table(),
            c matches Some(v) ==> v.value() == Self::encode_srgb_value(self.value()),
    ;

    /// Decode an sRGB gamma value into linear intensity, where the library
    /// holds a table for this channel.
    fn decode_srgb(self) -> (c: Option<Self>)
        ensures
            c is Some <==> Self::srgb_table(),
            c matches Some(v) ==> v.value() == Self::decode_srgb_value(self.value()),
    ;
}

/// Build-time sRGB encoding look-up table for 8-bit channels.
pub const ENCODE_SRGB_U8: [u8; 256] = [
    0x00, 0x0D, 0x16, 0x1C, 0x22, 0x26, 0x2A, 0x2E, 0x32, 0x35, 0x38, 0x3B, 0x3D, 0x40, 0x42, 0x45,
    0x47, 0x49, 0x4B, 0x4D, 0x4F, 0x51, 0x53, 0x55, 0x56, 0x58, 0x5A, 0x5C, 0x5D, 0x5F, 0x60, 0x62,
    0x63, 0x65, 0x66, 0x68, 0x69, 0x6A, 0x6C, 0x6D, 0x6E, 0x70, 0x71, 0x72, 0x73, 0x75, 0x76, 0x77,
    0x78, 0x79, 0x7A, 0x7C, 0x7D, 0x7E, 0x7F, 0x80, 0x81, 0x82, 0x83, 0x84, 0x85, 0x86, 0x87, 0x88,
    0x89, 0x8A, 0x8B, 0x8C, 0x8D, 0x8E, 0x8F, 0x90, 0x91, 0x92, 0x93, 0x94, 0x94, 0x95, 0x96, 0x97,
    0x98, 0x99, 0x9A, 0x9B, 0x9B, 0x9C, 0x9D, 0x9E, 0x9F, 0x9F, 0xA0, 0xA1, 0xA2, 0xA3, 0xA3, 0xA4,
    0xA5, 0xA6, 0xA7, 0xA7, 0xA8, 0xA9, 0xAA, 0xAA, 0xAB, 0xAC, 0xAD, 0xAD, 0xAE, 0xAF, 0xAF, 0xB0,
    0xB1, 0xB2, 0xB2, 0xB3, 0xB4, 0xB4, 0xB5, 0xB6, 0xB6, 0xB7, 0xB8, 0xB9, 0xB9, 0xBA, 0xBB, 0xBB,
    0xBC, 0xBD, 0xBD, 0xBE, 0xBE, 0xBF, 0xC0, 0xC0, 0xC1, 0xC2, 0xC2, 0xC3, 0xC4, 0xC4, 0xC5, 0xC5,
    0xC6, 0xC7, 0xC7, 0xC8, 0xC8, 0xC9, 0xCA, 0xCA, 0xCB, 0xCB, 0xCC, 0xCD, 0xCD, 0xCE, 0xCE, 0xCF,
    0xD0, 0xD0, 0xD1, 0xD1, 0xD2, 0xD2, 0xD3, 0xD4, 0xD4, 0xD5, 0xD5, 0xD6, 0xD6, 0xD7, 0xD7, 0xD8,
    0xD8, 0xD9, 0xDA, 0xDA, 0xDB, 0xDB, 0xDC, 0xDC, 0xDD, 0xDD, 0xDE, 0xDE, 0xDF, 0xDF, 0xE0, 0xE0,
    0xE1, 0xE2, 0xE2, 0xE3, 0xE3, 0xE4, 0xE4, 0xE5, 0xE5, 0xE6, 0xE6, 0xE7, 0xE7, 0xE8, 0xE8, 0xE9,
    0xE9, 0xEA, 0xEA, 0xEB, 0xEB, 0xEC, 0xEC, 0xED, 0xED, 0xEE, 0xEE, 0xEE, 0xEF, 0xEF, 0xF0, 0xF0,
    0xF1, 0xF1, 0xF2, 0xF2, 0xF3, 0xF3, 0xF4, 0xF4, 0xF5, 0xF5, 0xF6, 0xF6, 0xF6, 0xF7, 0xF7, 0xF8,
    0xF8, 0xF9, 0xF9, 0xFA, 0xFA, 0xFB, 0xFB, 0xFB, 0xFC, 0xFC, 0xFD, 0xFD, 0xFE, 0xFE, 0xFF, 0xFF,
];

/// Build-time sRGB decoding look-up table for 8-bit channels.
pub const DECODE_SRGB_U8: [u8; 256] = [
    0x00, 0x00, 0x00, 0x00, 0x00, 0x00, 0x00, 0x01, 0x01, 0x01, 0x01, 0x01, 0x01, 0x01, 0x01, 0x01,
    0x01, 0x01, 0x02, 0x02, 0x02, 0x02, 0x02, 0x02, 0x02, 0x02, 0x03, 0x03, 0x03, 0x03, 0x03, 0x03,
    0x04, 0x04, 0x04, 0x04, 0x04, 0x05, 0x05, 0x05, 0x05, 0x06, 0x06, 0x06, 0x06, 0x07, 0x07, 0x07,
    0x08, 0x08, 0x08, 0x08, 0x09, 0x09, 0x09, 0x0A, 0x0A, 0x0A, 0x0B, 0x0B, 0x0C, 0x0C, 0x0C, 0x0D,
    0x0D, 0x0D, 0x0E, 0x0E, 0x0F, 0x0F, 0x10, 0x10, 0x11, 0x11, 0x11, 0x12, 0x12, 0x13, 0x13, 0x14,
    0x14, 0x15, 0x16, 0x16, 0x17, 0x17, 0x18, 0x18, 0x19, 0x19, 0x1A, 0x1B, 0x1B, 0x1C, 0x1D, 0x1D,
    0x1E, 0x1E, 0x1F, 0x20, 0x20, 0x21, 0x22, 0x23, 0x23, 0x24, 0x25, 0x25, 0x26, 0x27, 0x28, 0x29,
    0x29, 0x2A, 0x2B, 0x2C, 0x2D, 0x2D, 0x2E, 0x2F, 0x30, 0x31, 0x32, 0x33, 0x33, 0x34, 0x35, 0x36,
    0x37, 0x38, 0x39, 0x3A, 0x3B, 0x3C, 0x3D, 0x3E, 0x3F, 0x40, 0x41, 0x42, 0x43, 0x44, 0x45, 0x46,
    0x47, 0x48, 0x49, 0x4A, 0x4C, 0x4D, 0x4E, 0x4F, 0x50, 0x51, 0x52, 0x54, 0x55, 0x56, 0x57, 0x58,
    0x5A, 0x5B, 0x5C, 0x5D, 0x5F, 0x60, 0x61, 0x63, 0x64, 0x65, 0x67, 0x68, 0x69, 0x6B, 0x6C, 0x6D,
    0x6F, 0x70, 0x72, 0x73, 0x74, 0x76, 0x77, 0x79, 0x7A, 0x7C, 0x7D, 0x7F, 0x80, 0x82, 0x83, 0x85,
    0x86, 0x88, 0x8A, 0x8B, 0x8D, 0x8E, 0x90, 0x92, 0x93, 0x95, 0x97, 0x98, 0x9A, 0x9C, 0x9D, 0x9F,
    0xA1, 0xA3, 0xA4, 0xA6, 0xA8, 0xAA, 0xAB, 0xAD, 0xAF, 0xB1, 0xB3, 0xB5, 0xB7, 0xB8, 0xBA, 0xBC,
    0xBE, 0xC0, 0xC2, 0xC4, 0xC6, 0xC8, 0xCA, 0xCC, 0xCE, 0xD0, 0xD2, 0xD4, 0xD6, 0xD8, 0xDA, 0xDC,
    0xDE, 0xE0, 0xE2, 0xE5, 0xE7, 0xE9, 0xEB, 0xED, 0xEF, 0xF2, 0xF4, 0xF6, 0xF8, 0xFA, 0xFD, 0xFF,
];

/// 8-bit color [Channel].
///
/// The `Channel` is represented by a `u8`, but multiplication and division
/// treat values as though they range between 0 and 1.
#[derive(Clone, Copy, Debug, PartialEq, Eq, Structural)]
pub struct Ch8(u8);

/// 16-bit color [Channel].
///
/// The `Channel` is represented by a `u16`, but multiplication and division
/// treat values as though they range between 0 and 1.
#[derive(Clone, Copy, Debug, PartialEq, Eq, Structural)]
pub struct Ch16(u16);

impl View for Ch8 {
    type V = u8;

    closed spec fn view(&self) -> u8 {
        self.0
    }
}

impl View for Ch16 {
    type V = u16;

    closed spec fn view(&self) -> u16 {
        self.0
    }
}

/// Fixed-point expansion of an 8-bit value: `v` times 16, plus its top nibble.
pub open spec fn expand8(v: nat) -> nat {
    v * 16 + v / 16
}

/// Fixed-point expansion of a 16-bit value: `v` times 256, plus its top byte.
pub open spec fn expand16(v: nat) -> nat {
    v * 256 + v / 256
}

/// Value of an 8-bit channel product.
pub open spec fn mul8_value(a: nat, b: nat) -> nat {
    (expand8(a) * expand8(b)) / 65536
}

/// Value of an 8-bit channel quotient.
pub open spec fn div8_value(a: nat, b: nat) -> nat {
    if b == 0 { 0 } else { min_nat((a * 256) / b, 255) }
}

/// Value of a 16-bit channel product.
pub open spec fn mul16_value(a: nat, b: nat) -> nat {
    (expand16(a) * expand16(b)) / 0x1_0000_0000
}

/// Value of a 16-bit channel quotient.
pub open spec fn div16_value(a: nat, b: nat) -> nat {
    if b == 0 { 0 } else { min_nat((a * 65536) / b, 65535) }
}

impl Ch8 {
    /// Channel holding a given raw value.
    pub closed spec fn of(v: u8) -> Ch8 {
        Ch8(v)
    }

    /// Create a new 8-bit `Channel` value.
    pub fn new(value: u8) -> (c: Self)
        ensures
            c@ == value,
            c == Ch8::of(value),
    {
        Ch8(value)
    }

    /// The raw value of the channel.
    pub fn get(self) -> (v: u8)
        ensures
            v == self@,
    {
        self.0
    }

    /// `Ch8::of` gives back its argument as view.
    pub broadcast proof fn lemma_of(v: u8)
        ensures
            #[trigger] Ch8::of(v)@ == v,
    {
    }
}

impl Ch16 {
    /// Channel holding a given raw value.
    pub closed spec fn of(v: u16) -> Ch16 {
        Ch16(v)
    }

    /// Create a new 16-bit `Channel` value.
    pub fn new(value: u16) -> (c: Self)
        ensures
            c@ == value,
            c == Ch16::of(value),
    {
        Ch16(value)
    }

    /// The raw value of the channel.
    pub fn get(self) -> (v: u16)
        ensures
            v == self@,
    {
        self.0
    }

    /// `Ch16::of` gives back its argument as view.
    pub broadcast proof fn lemma_of(v: u16)
        ensures
            #[trigger] Ch16::of(v)@ == v,
    {
    }
}

proof fn lemma_expand8(a: u32)
    requires
        a < 256,
    ensures
        (a << 4u32) | (a >> 4u32) == a * 16 + a / 16,
        a * 16 + a / 16 <= 4095,
{
    assert((a << 4u32) | (a >> 4u32) == a * 16 + a / 16) by (bit_vector)
        requires
            a < 256u32,
    ;
}

proof fn lemma_expand16(a: u64)
    requires
        a < 65536,
    ensures
        (a << 8u64) | (a >> 8u64) == a * 256 + a / 256,
        a * 256 + a / 256 <= 16777215,
{
    assert((a << 8u64) | (a >> 8u64) == a * 256 + a / 256) by (bit_vector)
        requires
            a < 65536u64,
    ;
}

impl Channel for Ch8 {
    type Raw = u8;

    open spec fn value(self) -> nat {
        self@ as nat
    }

    open spec fn raw_value(r: u8) -> nat {
        r as nat
    }

    open spec fn max_value() -> nat {
        255
    }

    open spec fn mul_value(a: nat, b: nat) -> nat {
        mul8_value(a, b)
    }

    open spec fn div_value(a: nat, b: nat) -> nat {
        div8_value(a, b)
    }

    open spec fn wide_value(v: nat) -> nat {
        v * 257
    }

    open spec fn narrow_value(w: nat) -> nat {
        w / 256
    }

    open spec fn srgb_table() -> bool {
        true
    }

    open spec fn byte_count() -> nat {
        1
    }

    open spec fn bytes_of(v: nat, s: Seq<u8>, le: bool) -> bool {
        s.len() == 1 && s[0] == v
    }

    open spec fn encode_srgb_value(v: nat) -> nat {
        ENCODE_SRGB_U8@[v as int] as nat
    }

    open spec fn decode_srgb_value(v: nat) -> nat {
        DECODE_SRGB_U8@[v as int] as nat
    }

    proof fn lemma_bounded(c: Self) {
    }

    proof fn lemma_mul_zero(a: nat) {
        assert(expand8(a) * expand8(0) == 0) by (nonlinear_arith);
    }

    proof fn lemma_depth_round_trip(v: nat) {
        lemma_ch8_ch16_round_trip(v as u8);
    }

    proof fn lemma_injective(a: Self, b: Self) {
    }

    proof fn lemma_byte_count() {
    }

    fn from_raw(r: u8) -> (c: Self) {
        Ch8(r)
    }

    fn minimum() -> (c: Self) {
        Ch8(0)
    }

    fn maximum() -> (c: Self) {
        Ch8(0xFF)
    }

    fn saturating_add(self, rhs: Self) -> (c: Self) {
        Ch8(self.0.saturating_add(rhs.0))
    }

    fn saturating_sub(self, rhs: Self) -> (c: Self) {
        Ch8(self.0.saturating_sub(rhs.0))
    }

    fn mul_chan(self, rhs: Self) -> (c: Self) {
        let l = self.0 as u32;
        let r = rhs.0 as u32;
        proof {
            lemma_expand8(l);
            lemma_expand8(r);
        }
        let l = (l << 4u32) | (l >> 4u32);
        let r = (r << 4u32) | (r >> 4u32);
        proof {
            assert(l * r <= 4095 * 4095) by (nonlinear_arith)
                requires
                    l <= 4095,
                    r <= 4095,
            ;
        }
        let p = l * r;
        let value = p >> 16u32;
        proof {
            assert(p >> 16u32 == p / 65536) by (bit_vector);
        }
        Ch8(value as u8)
    }

    fn div_chan(self, rhs: Self) -> (c: Self) {
        if rhs.0 > 0 {
            let ss = (self.0 as u32) << 8u32;
            proof {
                let a = self.0 as u32;
                assert(a << 8u32 == a * 256) by (bit_vector)
                    requires
                        a < 256u32,
                ;
            }
            let rr = rhs.0 as u32;
            let q = ss / rr;
            let value = if q < 255 { q } else { 255 };
            Ch8(value as u8)
        } else {
            Ch8(0)
        }
    }

    fn wrapping_add(self, rhs: Self) -> (c: Self) {
        let v = self.0.wrapping_add(rhs.0);
        Ch8::new(v)
    }

    fn wrapping_sub(self, rhs: Self) -> (c: Self) {
        let v = self.0.wrapping_sub(rhs.0);
        Ch8::new(v)
    }

    fn less_than(self, rhs: Self) -> (b: bool) {
        self.0 < rhs.0
    }

    fn same_as(self, rhs: Self) -> (b: bool) {
        self.0 == rhs.0
    }

    fn to_wide(self) -> (w: u16) {
        let v = self.0 as u16;
        proof {
            assert((v << 8u16) | v == v * 257) by (bit_vector)
                requires
                    v < 256u16,
            ;
        }
        (v << 8u16) | v
    }

    fn from_wide(w: u16) -> (c: Self) {
        proof {
            assert(w >> 8u16 == w / 256) by (bit_vector);
        }
        Ch8((w >> 8u16) as u8)
    }

    fn push_bytes(self, out: &mut Vec<u8>, le: bool) {
        out.push(self.0);
        assert(out@.subrange(0, old(out)@.len() as int) =~= old(out)@);
    }

    fn encode_srgb(self) -> (c: Option<Self>) {
        Some(Ch8(ENCODE_SRGB_U8[self.0 as usize]))
    }

    fn decode_srgb(self) -> (c: Option<Self>) {
        Some(Ch8(DECODE_SRGB_U8[self.0 as usize]))
    }
}

impl Channel for Ch16 {
    type Raw = u16;

    open spec fn value(self) -> nat {
        self@ as nat
    }

    open spec fn raw_value(r: u16) -> nat {
        r as nat
    }

    open spec fn max_value() -> nat {
        65535
    }

    open spec fn mul_value(a: nat, b: nat) -> nat {
        mul16_value(a, b)
    }

    open spec fn div_value(a: nat, b: nat) -> nat {
        div16_value(a, b)
    }

    open spec fn wide_value(v: nat) -> nat {
        v
    }

    open spec fn narrow_value(w: nat) -> nat {
        w
    }

    /// The sRGB curve of 16-bit channels is computed in floating point, which
    /// the library does not carry.
    open spec fn srgb_table() -> bool {
        false
    }

    open spec fn byte_count() -> nat {
        2
    }

    /// Two bytes: the low byte first where `le`, else the high byte first.
    open spec fn bytes_of(v: nat, s: Seq<u8>, le: bool) -> bool {
        &&& s.len() == 2
        &&& le ==> s[0] == v % 256 && s[1] == v / 256
        &&& !le ==> s[0] == v / 256 && s[1] == v % 256
    }

    open spec fn encode_srgb_value(v: nat) -> nat {
        v
    }

    open spec fn decode_srgb_value(v: nat) -> nat {
        v
    }

    proof fn lemma_bounded(c: Self) {
    }

    proof fn lemma_mul_zero(a: nat) {
        assert(expand16(a) * expand16(0) == 0) by (nonlinear_arith);
    }

    proof fn lemma_depth_round_trip(v: nat) {
    }

    proof fn lemma_injective(a: Self, b: Self) {
    }

    proof fn lemma_byte_count() {
    }

    fn from_raw(r: u16) -> (c: Self) {
        Ch16(r)
    }

    fn minimum() -> (c: Self) {
        Ch16(0)
    }

    fn maximum() -> (c: Self) {
        Ch16(0xFFFF)
    }

    fn saturating_add(self, rhs: Self) -> (c: Self) {
        Ch16(self.0.saturating_add(rhs.0))
    }

    fn saturating_sub(self, rhs: Self) -> (c: Self) {
        Ch16(self.0.saturating_sub(rhs.0))
    }

    fn mul_chan(self, rhs: Self) -> (c: Self) {
        let l = self.0 as u64;
        let r = rhs.0 as u64;
        proof {
            lemma_expand16(l);
            lemma_expand16(r);
        }
        let l = (l << 8u64) | (l >> 8u64);
        let r = (r << 8u64) | (r >> 8u64);
        proof {
            assert(l * r <= 16777215 * 16777215) by (nonlinear_arith)
                requires
                    l <= 16777215,
                    r <= 16777215,
            ;
        }
        let p = l * r;
        let value = p >> 32u64;
        proof {
            assert(p >> 32u64 == p / 0x1_0000_0000) by (bit_vector);
        }
        Ch16(value as u16)
    }

    fn div_chan(self, rhs: Self) -> (c: Self) {
        if rhs.0 > 0 {
            let ss = (self.0 as u64) << 16u64;
            proof {
                let a = self.0 as u64;
                assert(a << 16u64 == a * 65536) by (bit_vector)
                    requires
                        a < 65536u64,
                ;
            }
            let rr = rhs.0 as u64;
            let q = ss / rr;
            let value = if q < 65535 { q } else { 65535 };
            Ch16(value as u16)
        } else {
            Ch16(0)
        }
    }

    fn wrapping_add(self, rhs: Self) -> (c: Self) {
        let v = self.0.wrapping_add(rhs.0);
        Ch16::new(v)
    }

    fn wrapping_sub(self, rhs: Self) -> (c: Self) {
        let v = self.0.wrapping_sub(rhs.0);
        Ch16::new(v)
    }

    fn less_than(self, rhs: Self) -> (b: bool) {
        self.0 < rhs.0
    }

    fn same_as(self, rhs: Self) -> (b: bool) {
        self.0 == rhs.0
    }

    fn to_wide(self) -> (w: u16) {
        self.0
    }

    fn from_wide(w: u16) -> (c: Self) {
        Ch16(w)
    }

    fn push_bytes(self, out: &mut Vec<u8>, le: bool) {
        let lo = (self.0 % 256) as u8;
        let hi = (self.0 / 256) as u8;
        if le {
            out.push(lo);
            out.push(hi);
        } else {
            out.push(hi);
            out.push(lo);
        }
        assert(out@.subrange(0, old(out)@.len() as int) =~= old(out)@);
    }

    fn encode_srgb(self) -> (c: Option<Self>) {
        None
    }

    fn decode_srgb(self) -> (c: Option<Self>) {
        None
    }
}

/// The memory representation of a `u16`, by `u16::to_ne_bytes`: its two
/// bytes in the machine's byte order, which is either little-endian (low
/// byte first) or big-endian (high byte first).  Which of the two is left
/// unsaid.
#[verifier::external_body]
fn u16_ne_bytes(v: u16) -> (b: [u8; 2])
    ensures
        (b[0] == v % 256 && b[1] == v / 256) || (b[0] == v / 256 && b[1] == v % 256),
{
    v.to_ne_bytes()
}

/// Is the machine's byte order little-endian?  Read from the memory
/// representation of the value one.
pub(crate) fn native_little_endian() -> (le: bool) {
    let b = u16_ne_bytes(1);
    b[0] == 1
}

impl Default for Ch8 {
    fn default() -> (c: Self)
        ensures
            c@ == 0,
    {
        Ch8(0)
    }
}

impl From<u8> for Ch8 {
    fn from(value: u8) -> (c: Self) {
        Ch8(value)
    }
}

impl vstd::std_specs::convert::FromSpecImpl<u8> for Ch8 {
    open spec fn obeys_from_spec() -> bool {
        true
    }

    open spec fn from_spec(v: u8) -> Self {
        Ch8::of(v)
    }
}

impl From<Ch8> for u8 {
    fn from(c: Ch8) -> (v: u8) {
        c.0
    }
}

impl vstd::std_specs::convert::FromSpecImpl<Ch8> for u8 {
    open spec fn obeys_from_spec() -> bool {
        true
    }

    open spec fn from_spec(c: Ch8) -> u8 {
        c@
    }
}

impl core::ops::Add for Ch8 {
    type Output = Ch8;

    fn add(self, rhs: Ch8) -> (c: Ch8) {
        Channel::saturating_add(self, rhs)
    }
}

impl vstd::std_specs::ops::AddSpecImpl for Ch8 {
    open spec fn obeys_add_spec() -> bool {
        true
    }

    open spec fn add_req(self, rhs: Ch8) -> bool {
        true
    }

    open spec fn add_spec(self, rhs: Ch8) -> Ch8 {
        Ch8::of((saturating_add_value(self@ as nat, rhs@ as nat, Ch8::max_value())) as u8)
    }
}

impl core::ops::Sub for Ch8 {
    type Output = Ch8;

    fn sub(self, rhs: Ch8) -> (c: Ch8) {
        Channel::saturating_sub(self, rhs)
    }
}

impl vstd::std_specs::ops::SubSpecImpl for Ch8 {
    open spec fn obeys_sub_spec() -> bool {
        true
    }

    open spec fn sub_req(self, rhs: Ch8) -> bool {
        true
    }

    open spec fn sub_spec(self, rhs: Ch8) -> Ch8 {
        Ch8::of((saturating_sub_value(self@ as nat, rhs@ as nat)) as u8)
    }
}

impl core::ops::Mul for Ch8 {
    type Output = Ch8;

    fn mul(self, rhs: Ch8) -> (c: Ch8) {
        Channel::mul_chan(self, rhs)
    }
}

impl vstd::std_specs::ops::MulSpecImpl for Ch8 {
    open spec fn obeys_mul_spec() -> bool {
        true
    }

    open spec fn mul_req(self, rhs: Ch8) -> bool {
        true
    }

    open spec fn mul_spec(self, rhs: Ch8) -> Ch8 {
        Ch8::of((Ch8::mul_value(self@ as nat, rhs@ as nat)) as u8)
    }
}

impl core::ops::Div for Ch8 {
    type Output = Ch8;

    fn div(self, rhs: Ch8) -> (c: Ch8) {
        Channel::div_chan(self, rhs)
    }
}

impl vstd::std_specs::ops::DivSpecImpl for Ch8 {
    open spec fn obeys_div_spec() -> bool {
        true
    }

    open spec fn div_req(self, rhs: Ch8) -> bool {
        true
    }

    open spec fn div_spec(self, rhs: Ch8) -> Ch8 {
        Ch8::of((Ch8::div_value(self@ as nat, rhs@ as nat)) as u8)
    }
}

impl Default for Ch16 {
    fn default() -> (c: Self)
        ensures
            c@ == 0,
    {
        Ch16(0)
    }
}

impl From<u16> for Ch16 {
    fn from(value: u16) -> (c: Self) {
        Ch16(value)
    }
}

impl vstd::std_specs::convert::FromSpecImpl<u16> for Ch16 {
    open spec fn obeys_from_spec() -> bool {
        true
    }

    open spec fn from_spec(v: u16) -> Self {
        Ch16::of(v)
    }
}

impl From<Ch16> for u16 {
    fn from(c: Ch16) -> (v: u16) {
        c.0
    }
}

impl vstd::std_specs::convert::FromSpecImpl<Ch16> for u16 {
    open spec fn obeys_from_spec() -> bool {
        true
    }

    open spec fn from_spec(c: Ch16) -> u16 {
        c@
    }
}

impl core::ops::Add for Ch16 {
    type Output = Ch16;

    fn add(self, rhs: Ch16) -> (c: Ch16) {
        Channel::saturating_add(self, rhs)
    }
}

impl vstd::std_specs::ops::AddSpecImpl for Ch16 {
    open spec fn obeys_add_spec() -> bool {
        true
    }

    open spec fn add_req(self, rhs: Ch16) -> bool {
        true
    }

    open spec fn add_spec(self, rhs: Ch16) -> Ch16 {
        Ch16::of((saturating_add_value(self@ as nat, rhs@ as nat, Ch16::max_value())) as u16)
    }
}

impl core::ops::Sub for Ch16 {
    type Output = Ch16;

    fn sub(self, rhs: Ch16) -> (c: Ch16) {
        Channel::saturating_sub(self, rhs)
    }
}

impl vstd::std_specs::ops::SubSpecImpl for Ch16 {
    open spec fn obeys_sub_spec() -> bool {
        true
    }

    open spec fn sub_req(self, rhs: Ch16) -> bool {
        true
    }

    open spec fn sub_spec(self, rhs: Ch16) -> Ch16 {
        Ch16::of((saturating_sub_value(self@ as nat, rhs@ as nat)) as u16)
    }
}

impl core::ops::Mul for Ch16 {
    type Output = Ch16;

    fn mul(self, rhs: Ch16) -> (c: Ch16) {
        Channel::mul_chan(self, rhs)
    }
}

impl vstd::std_specs::ops::MulSpecImpl for Ch16 {
    open spec fn obeys_mul_spec() -> bool {
        true
    }

    open spec fn mul_req(self, rhs: Ch16) -> bool {
        true
    }

    open spec fn mul_spec(self, rhs: Ch16) -> Ch16 {
        Ch16::of((Ch16::mul_value(self@ as nat, rhs@ as nat)) as u16)
    }
}

impl core::ops::Div for Ch16 {
    type Output = Ch16;

    fn div(self, rhs: Ch16) -> (c: Ch16) {
        Channel::div_chan(self, rhs)
    }
}

impl vstd::std_specs::ops::DivSpecImpl for Ch16 {
    open spec fn obeys_div_spec() -> bool {
        true
    }

    open spec fn div_req(self, rhs: Ch16) -> bool {
        true
    }

    open spec fn div_spec(self, rhs: Ch16) -> Ch16 {
        Ch16::of((Ch16::div_value(self@ as nat, rhs@ as nat)) as u16)
    }
}

impl From<Ch8> for Ch16 {
    fn from(c: Ch8) -> (r: Ch16) {
        Ch16(c.to_wide())
    }
}

impl vstd::std_specs::convert::FromSpecImpl<Ch8> for Ch16 {
    open spec fn obeys_from_spec() -> bool {
        true
    }

    open spec fn from_spec(c: Ch8) -> Ch16 {
        Ch16::of((c@ as nat * 257) as u16)
    }
}

impl From<Ch16> for Ch8 {
    fn from(c: Ch16) -> (r: Ch8) {
        Ch8::from_wide(c.0)
    }
}

impl vstd::std_specs::convert::FromSpecImpl<Ch16> for Ch8 {
    open spec fn obeys_from_spec() -> bool {
        true
    }

    open spec fn from_spec(c: Ch16) -> Ch8 {
        Ch8::of((c@ as nat / 256) as u8)
    }
}

/// Value of a channel after alpha encoding.
pub open spec fn alpha_encode_value<C: Channel>(premultiplied: bool, c: nat, a: nat) -> nat {
    if premultiplied { C::mul_value(c, a) } else { c }
}

/// Value of a channel after alpha decoding.
pub open spec fn alpha_decode_value<C: Channel>(premultiplied: bool, c: nat, a: nat) -> nat {
    if premultiplied { C::div_value(c, a) } else { c }
}

/// *Alpha* encoding mode: [Straight] or [Premultiplied].
pub trait Alpha: Copy + Sized {
    /// Whether channels are premultiplied with alpha.
    spec fn premultiplied() -> bool;

    /// Whether channels are premultiplied with alpha.
    fn is_premultiplied() -> (b: bool)
        ensures
            b == Self::premultiplied(),
    ;

    /// Encode one `Channel` using the alpha mode.
    fn encode<C: Channel>(c: C, a: C) -> (r: C)
        ensures
            r.value() == alpha_encode_value::<C>(Self::premultiplied(), c.value(), a.value()),
    ;

    /// Decode one `Channel` using the alpha mode.
    fn decode<C: Channel>(c: C, a: C) -> (r: C)
        ensures
            r.value() == alpha_decode_value::<C>(Self::premultiplied(), c.value(), a.value()),
    ;
}

/// Channels are *straight*, not premultiplied with *alpha*.
#[derive(Clone, Copy, Debug, PartialEq, Eq, Structural)]
pub struct Straight;

/// Channels are premultiplied, or associated, with *alpha*.
#[derive(Clone, Copy, Debug, PartialEq, Eq, Structural)]
pub struct Premultiplied;

impl Alpha for Straight {
    open spec fn premultiplied() -> bool {
        false
    }

    fn is_premultiplied() -> (b: bool) {
        false
    }

    fn encode<C: Channel>(c: C, a: C) -> (r: C) {
        c
    }

    fn decode<C: Channel>(c: C, a: C) -> (r: C) {
        c
    }
}

impl Alpha for Premultiplied {
    open spec fn premultiplied() -> bool {
        true
    }

    fn is_premultiplied() -> (b: bool) {
        true
    }

    fn encode<C: Channel>(c: C, a: C) -> (r: C) {
        c.mul_chan(a)
    }

    fn decode<C: Channel>(c: C, a: C) -> (r: C) {
        c.div_chan(a)
    }
}

/// Value of a channel converted to linear gamma.
pub open spec fn gamma_to_linear_value<C: Channel>(srgb: bool, v: nat) -> nat {
    if srgb { C::decode_srgb_value(v) } else { v }
}

/// Value of a channel converted from linear gamma.
pub open spec fn gamma_from_linear_value<C: Channel>(srgb: bool, v: nat) -> nat {
    if srgb { C::encode_srgb_value(v) } else { v }
}

/// Whether the library can apply a gamma mode to a channel type.
pub open spec fn gamma_supported<C: Channel>(srgb: bool) -> bool {
    !srgb || C::srgb_table()
}

/// *Gamma* encoding mode: [Linear] or [Srgb].
pub trait Gamma: Copy + Sized {
    /// Whether channels are sRGB encoded.
    spec fn srgb() -> bool;

    /// Whether channels are sRGB encoded.
    fn is_srgb() -> (b: bool)
        ensures
            b == Self::srgb(),
    ;

    /// Convert a `Channel` value to linear, where the library can.
    fn to_linear<C: Channel>(c: C) -> (r: Option<C>)
        ensures
            r is Some <==> gamma_supported::<C>(Self::srgb()),
            r matches Some(v) ==> v.value() == gamma_to_linear_value::<C>(Self::srgb(), c.value()),
    ;

    /// Convert a `Channel` value from linear, where the library can.
    fn from_linear<C: Channel>(c: C) -> (r: Option<C>)
        ensures
            r is Some <==> gamma_supported::<C>(Self::srgb()),
            r matches Some(v) ==> v.value() == gamma_from_linear_value::<C>(Self::srgb(), c.value()),
    ;
}

/// Channels are encoded with linear gamma.
///
/// This mode should be used when editing `Raster`s.
#[derive(Clone, Copy, Debug, PartialEq, Eq, Structural)]
pub struct Linear;

/// Channels are corrected using the sRGB gamma formula.
///
/// This mode is for displaying and storing `Raster`s.
#[derive(Clone, Copy, Debug, PartialEq, Eq, Structural)]
pub struct Srgb;

impl Gamma for Linear {
    open spec fn srgb() -> bool {
        false
    }

    fn is_srgb() -> (b: bool) {
        false
    }

    fn to_linear<C: Channel>(c: C) -> (r: Option<C>) {
        Some(c)
    }

    fn from_linear<C: Channel>(c: C) -> (r: Option<C>) {
        Some(c)
    }
}

impl Gamma for Srgb {
    open spec fn srgb() -> bool {
        true
    }

    fn is_srgb() -> (b: bool) {
        true
    }

    fn to_linear<C: Channel>(c: C) -> (r: Option<C>) {
        c.decode_srgb()
    }

    fn from_linear<C: Channel>(c: C) -> (r: Option<C>) {
        c.encode_srgb()
    }
}

/// Widening an 8-bit channel to 16 bits and narrowing it back gives the same
/// channel (the conversions `Ch8 -> Ch16 -> Ch8` are lossless).
pub proof fn lemma_ch8_ch16_round_trip(v: u8)
    ensures
        Ch8::narrow_value(Ch8::wide_value(v as nat)) == v as nat,
        Ch8::wide_value(v as nat) <= 65535,
{
    let x = v as u32;
    assert((x * 257) / 256 == x) by (bit_vector)
        requires
            x < 256u32,
    ;
}

/// Bit depth conversion keeps *zero* at zero and *one* at one, in both
/// directions.
pub proof fn lemma_depth_keeps_extremes()
    ensures
        Ch8::wide_value(0) == Ch16::narrow_value(0),
        Ch8::narrow_value(Ch16::wide_value(0)) == 0,
        Ch8::wide_value(Ch8::max_value()) == Ch16::max_value(),
        Ch8::narrow_value(Ch16::wide_value(Ch16::max_value())) == Ch8::max_value(),
{
}

/// Multiplying channels is commutative, and the product of two fractions of
/// one is at most each of them; a product with *zero* is *zero*.
pub proof fn lemma_ch8_mul_fraction(a: u8, b: u8)
    ensures
        mul8_value(a as nat, b as nat) == mul8_value(b as nat, a as nat),
        mul8_value(a as nat, b as nat) <= a as nat,
        mul8_value(a as nat, b as nat) <= b as nat,
        mul8_value(a as nat, 0) == 0,
{
    lemma_mul8_le(a, b);
    lemma_mul8_le(b, a);
    let ea = expand8(a as nat);
    let eb = expand8(b as nat);
    assert(ea * eb == eb * ea) by (nonlinear_arith);
    assert(ea * expand8(0) == 0) by (nonlinear_arith);
}

proof fn lemma_mul8_le(a: u8, b: u8)
    ensures
        mul8_value(a as nat, b as nat) <= a as nat,
{
    let ea = expand8(a as nat);
    let eb = expand8(b as nat);
    assert(eb <= 4095);
    assert(ea <= a * 16 + 15);
    assert(ea * eb <= ea * 4095) by (nonlinear_arith)
        requires
            eb <= 4095,
    ;
    assert((ea * eb) / 65536 <= a as nat) by (nonlinear_arith)
        requires
            ea * eb <= ea * 4095,
            ea <= a * 16 + 15,
    ;
}

/// Multiplying 16-bit channels is commutative, and the product of two
/// fractions of one is at most each of them; a product with *zero* is *zero*.
pub proof fn lemma_ch16_mul_fraction(a: u16, b: u16)
    ensures
        mul16_value(a as nat, b as nat) == mul16_value(b as nat, a as nat),
        mul16_value(a as nat, b as nat) <= a as nat,
        mul16_value(a as nat, b as nat) <= b as nat,
        mul16_value(a as nat, 0) == 0,
{
    lemma_mul16_le(a, b);
    lemma_mul16_le(b, a);
    let ea = expand16(a as nat);
    let eb = expand16(b as nat);
    assert(ea * eb == eb * ea) by (nonlinear_arith);
    assert(ea * expand16(0) == 0) by (nonlinear_arith);
}

proof fn lemma_mul16_le(a: u16, b: u16)
    ensures
        mul16_value(a as nat, b as nat) <= a as nat,
{
    let ea = expand16(a as nat);
    let eb = expand16(b as nat);
    assert(eb <= 16777215);
    assert(ea <= a * 256 + 255);
    assert(ea * eb <= ea * 16777215) by (nonlinear_arith)
        requires
            eb <= 16777215,
    ;
    assert((ea * eb) / 0x1_0000_0000 <= a as nat) by (nonlinear_arith)
        requires
            ea * eb <= ea * 16777215,
            ea <= a * 256 + 255,
    ;
}

/// Dividing by *one* (the maximum) leaves an 8-bit channel unchanged.
pub proof fn lemma_ch8_div_by_max(a: u8)
    ensures
        div8_value(a as nat, 255) == a as nat,
{
    let x = a as u32;
    if x < 255 {
        assert((x * 256) / 255 == x) by (bit_vector)
            requires
                x < 255u32,
        ;
    }
}

/// Dividing by *one* (the maximum) leaves a 16-bit channel unchanged.
pub proof fn lemma_ch16_div_by_max(a: u16)
    ensures
        div16_value(a as nat, 65535) == a as nat,
{
    let x = a as u64;
    if x < 65535 {
        assert((x * 65536) / 65535 == x) by (bit_vector)
            requires
                x < 65535u64,
        ;
    }
}

} // verus!
