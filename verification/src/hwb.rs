// HWB color model.
use vstd::prelude::*;
use crate::chan::{Ch16, Ch8, Channel, Linear, Premultiplied, Srgb, Straight};
use crate::el::{Pix3, Pix4, Pixel, chan_value};
use crate::model::{ColorModel, quad_values};

verus! {

/// HWB [color model].
///
/// The components are *hue*, *whiteness*, *blackness* and optional *alpha*.
#[derive(Clone, Copy, Debug, PartialEq, Eq, Structural)]
pub struct Hwb {}

impl Hwb {
    /// Get the *hue* component.
    pub fn hue<P: Pixel<Model = Self>>(p: P) -> (c: P::Chan)
        ensures
            c == p.chans()[0],
            c.value() == chan_value(p, 0),
    {
        proof {
            P::lemma_count(p);
        }
        p.one()
    }

    /// Get a mutable reference to the *hue* component.
    pub fn hue_mut<P: Pixel<Model = Self>>(p: &mut P) -> (c: &mut P::Chan)
        ensures
            *c == old(p).chans()[0],
            final(p).chans() == old(p).chans().update(0, *final(c)),
    {
        proof {
            P::lemma_count_range();
        }
        p.channel_mut(0)
    }

    /// Get the *whiteness* component.
    pub fn whiteness<P: Pixel<Model = Self>>(p: P) -> (c: P::Chan)
        ensures
            c.value() == chan_value(p, 1),
    {
        proof {
            P::lemma_count(p);
        }
        p.two()
    }

    /// Get a mutable reference to the *whiteness* component.
    pub fn whiteness_mut<P: Pixel<Model = Self>>(p: &mut P) -> (c: &mut P::Chan)
        requires
            1 < P::count(),
        ensures
            *c == old(p).chans()[1],
            final(p).chans() == old(p).chans().update(1, *final(c)),
    {
        p.channel_mut(1)
    }

    /// Get the *blackness* component.
    pub fn blackness<P: Pixel<Model = Self>>(p: P) -> (c: P::Chan)
        ensures
            c.value() == chan_value(p, 2),
    {
        proof {
            P::lemma_count(p);
        }
        p.three()
    }

    /// Get a mutable reference to the *blackness* component.
    pub fn blackness_mut<P: Pixel<Model = Self>>(p: &mut P) -> (c: &mut P::Chan)
        requires
            2 < P::count(),
        ensures
            *c == old(p).chans()[2],
            final(p).chans() == old(p).chans().update(2, *final(c)),
    {
        p.channel_mut(2)
    }
}

impl ColorModel for Hwb {
    open spec fn model_id() -> nat {
        6
    }

    open spec fn circular() -> (nat, nat) {
        (0, 1)
    }

    open spec fn linear() -> (nat, nat) {
        (1, 3)
    }

    open spec fn alpha_index() -> nat {
        3
    }

    /// Conversion to and from RGBA is computed in floating point, which the library does not carry.
    open spec fn into_rgba_exact() -> bool {
        false
    }

    open spec fn from_rgba_exact() -> bool {
        false
    }

    /// No integer value: the conversion is computed in floating point.
    open spec fn into_rgba_value(q: Seq<nat>, alpha: nat, max: nat) -> Seq<nat> {
        Seq::empty()
    }

    /// No integer value: the conversion is computed in floating point.
    open spec fn from_rgba_value(rgba: Seq<nat>, max: nat) -> Seq<nat> {
        Seq::empty()
    }

    proof fn lemma_layout() {
    }

    fn id() -> (r: u8) {
        6
    }

    fn circular_range() -> (r: (usize, usize)) {
        (0, 1)
    }

    fn linear_range() -> (r: (usize, usize)) {
        (1, 3)
    }

    fn alpha_channel() -> (r: usize) {
        3
    }

    fn into_rgba<C: Channel>(q: [C; 4], alpha: C) -> (r: Option<[C; 4]>) {
        None
    }

    fn from_rgba<C: Channel>(rgba: [C; 4]) -> (r: Option<[C; 4]>) {
        None
    }
}

/// Hwb 8-bit opaque (no *alpha* channel) linear gamma pixel format.
pub type Hwb8 = Pix3<Ch8, Hwb, Straight, Linear>;

/// Hwb 16-bit opaque (no *alpha* channel) linear gamma pixel format.
pub type Hwb16 = Pix3<Ch16, Hwb, Straight, Linear>;

/// Hwb 8-bit straight alpha linear gamma pixel format.
pub type Hwba8 = Pix4<Ch8, Hwb, Straight, Linear>;

/// Hwb 16-bit straight alpha linear gamma pixel format.
pub type Hwba16 = Pix4<Ch16, Hwb, Straight, Linear>;

/// Hwb 8-bit premultiplied alpha linear gamma pixel format.
pub type Hwba8p = Pix4<Ch8, Hwb, Premultiplied, Linear>;

/// Hwb 16-bit premultiplied alpha linear gamma pixel format.
pub type Hwba16p = Pix4<Ch16, Hwb, Premultiplied, Linear>;

/// Hwb 8-bit opaque (no *alpha* channel) sRGB gamma pixel format.
pub type SHwb8 = Pix3<Ch8, Hwb, Straight, Srgb>;

/// Hwb 16-bit opaque (no *alpha* channel) sRGB gamma pixel format.
pub type SHwb16 = Pix3<Ch16, Hwb, Straight, Srgb>;

/// Hwb 8-bit straight alpha sRGB gamma pixel format.
pub type SHwba8 = Pix4<Ch8, Hwb, Straight, Srgb>;

/// Hwb 16-bit straight alpha sRGB gamma pixel format.
pub type SHwba16 = Pix4<Ch16, Hwb, Straight, Srgb>;

/// Hwb 8-bit premultiplied alpha sRGB gamma pixel format.
pub type SHwba8p = Pix4<Ch8, Hwb, Premultiplied, Srgb>;

/// Hwb 16-bit premultiplied alpha sRGB gamma pixel format.
pub type SHwba16p = Pix4<Ch16, Hwb, Premultiplied, Srgb>;

} // verus!
