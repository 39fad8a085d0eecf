// HSV color model.
use vstd::prelude::*;
use crate::chan::{Ch16, Ch8, Channel, Linear, Premultiplied, Srgb, Straight};
use crate::el::{Pix3, Pix4, Pixel, chan_value};
use crate::model::{ColorModel, quad_values};

verus! {

/// HSV [color model].
///
/// The components are *hue*, *saturation*, *value* and optional *alpha*.
#[derive(Clone, Copy, Debug, PartialEq, Eq, Structural)]
pub struct Hsv {}

impl Hsv {
    /// Get the *hue* component.
    pub fn hue<P: Pixel<Model = Self>>(p: P) -> (c: P::Chan)
        ensures
            c == p.chans()[0],
            c.value() == chan_value(p, 0),
    {
        proof {
            P::lemma_count(p);
        }
        p.one()
    }

    /// Get a mutable reference to the *hue* component.
    pub fn hue_mut<P: Pixel<Model = Self>>(p: &mut P) -> (c: &mut P::Chan)
        ensures
            *c == old(p).chans()[0],
            final(p).chans() == old(p).chans().update(0, *final(c)),
    {
        proof {
            P::lemma_count_range();
        }
        p.channel_mut(0)
    }

    /// Get the *saturation* component.
    pub fn saturation<P: Pixel<Model = Self>>(p: P) -> (c: P::Chan)
        ensures
            c.value() == chan_value(p, 1),
    {
        proof {
            P::lemma_count(p);
        }
        p.two()
    }

    /// Get a mutable reference to the *saturation* component.
    pub fn saturation_mut<P: Pixel<Model = Self>>(p: &mut P) -> (c: &mut P::Chan)
        requires
            1 < P::count(),
        ensures
            *c == old(p).chans()[1],
            final(p).chans() == old(p).chans().update(1, *final(c)),
    {
        p.channel_mut(1)
    }

    /// Get the *value* component.
    pub fn value<P: Pixel<Model = Self>>(p: P) -> (c: P::Chan)
        ensures
            c.value() == chan_value(p, 2),
    {
        proof {
            P::lemma_count(p);
        }
        p.three()
    }

    /// Get a mutable reference to the *value* component.
    pub fn value_mut<P: Pixel<Model = Self>>(p: &mut P) -> (c: &mut P::Chan)
        requires
            2 < P::count(),
        ensures
            *c == old(p).chans()[2],
            final(p).chans() == old(p).chans().update(2, *final(c)),
    {
        p.channel_mut(2)
    }
}

impl ColorModel for Hsv {
    open spec fn model_id() -> nat {
        5
    }

    open spec fn circular() -> (nat, nat) {
        (0, 1)
    }

    open spec fn linear() -> (nat, nat) {
        (1, 3)
    }

    open spec fn alpha_index() -> nat {
        3
    }

    /// Conversion to and from RGBA is computed in floating point, which the library does not carry.
    open spec fn into_rgba_exact() -> bool {
        false
    }

    open spec fn from_rgba_exact() -> bool {
        false
    }

    /// No integer value: the conversion is computed in floating point.
    open spec fn into_rgba_value(q: Seq<nat>, alpha: nat, max: nat) -> Seq<nat> {
        Seq::empty()
    }

    /// No integer value: the conversion is computed in floating point.
    open spec fn from_rgba_value(rgba: Seq<nat>, max: nat) -> Seq<nat> {
        Seq::empty()
    }

    proof fn lemma_layout() {
    }

    fn id() -> (r: u8) {
        5
    }

    fn circular_range() -> (r: (usize, usize)) {
        (0, 1)
    }

    fn linear_range() -> (r: (usize, usize)) {
        (1, 3)
    }

    fn alpha_channel() -> (r: usize) {
        3
    }

    fn into_rgba<C: Channel>(q: [C; 4], alpha: C) -> (r: Option<[C; 4]>) {
        None
    }

    fn from_rgba<C: Channel>(rgba: [C; 4]) -> (r: Option<[C; 4]>) {
        None
    }
}

/// Hsv 8-bit opaque (no *alpha* channel) linear gamma pixel format.
pub type Hsv8 = Pix3<Ch8, Hsv, Straight, Linear>;

/// Hsv 16-bit opaque (no *alpha* channel) linear gamma pixel format.
pub type Hsv16 = Pix3<Ch16, Hsv, Straight, Linear>;

/// Hsv 8-bit straight alpha linear gamma pixel format.
pub type Hsva8 = Pix4<Ch8, Hsv, Straight, Linear>;

/// Hsv 16-bit straight alpha linear gamma pixel format.
pub type Hsva16 = Pix4<Ch16, Hsv, Straight, Linear>;

/// Hsv 8-bit premultiplied alpha linear gamma pixel format.
pub type Hsva8p = Pix4<Ch8, Hsv, Premultiplied, Linear>;

/// Hsv 16-bit premultiplied alpha linear gamma pixel format.
pub type Hsva16p = Pix4<Ch16, Hsv, Premultiplied, Linear>;

/// Hsv 8-bit opaque (no *alpha* channel) sRGB gamma pixel format.
pub type SHsv8 = Pix3<Ch8, Hsv, Straight, Srgb>;

/// Hsv 16-bit opaque (no *alpha* channel) sRGB gamma pixel format.
pub type SHsv16 = Pix3<Ch16, Hsv, Straight, Srgb>;

/// Hsv 8-bit straight alpha sRGB gamma pixel format.
pub type SHsva8 = Pix4<Ch8, Hsv, Straight, Srgb>;

/// Hsv 16-bit straight alpha sRGB gamma pixel format.
pub type SHsva16 = Pix4<Ch16, Hsv, Straight, Srgb>;

/// Hsv 8-bit premultiplied alpha sRGB gamma pixel format.
pub type SHsva8p = Pix4<Ch8, Hsv, Premultiplied, Srgb>;

/// Hsv 16-bit premultiplied alpha sRGB gamma pixel format.
pub type SHsva16p = Pix4<Ch16, Hsv, Premultiplied, Srgb>;

} // verus!
