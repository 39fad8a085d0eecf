// Grayscale color model.
use vstd::prelude::*;
use crate::chan::{Ch16, Ch8, Channel, Linear, Premultiplied, Srgb, Straight};
use crate::el::{
    Pix1, Pix2, Pixel, chan_value, convert_quad, convert_supported, lemma_depth_quad_same,
    lemma_quad_bounded, quad,
};
use crate::rgb::Rgb;
use crate::model::{ColorModel, quad_values};

verus! {

/// Gray [color model].
///
/// The components are *value* and optional *alpha*.  *Value* ranges from
/// *black* to *white*.  With sRGB gamma it is *luma*, but with linear
/// gamma it is *relative luminance*.
#[derive(Clone, Copy, Debug, PartialEq, Eq, Structural)]
pub struct Gray {}

impl Gray {
    /// Get the *luma* / *relative luminance* component.
    pub fn value<P: Pixel<Model = Self>>(p: P) -> (c: P::Chan)
        ensures
            c == p.chans()[0],
            c.value() == chan_value(p, 0),
    {
        proof {
            P::lemma_count(p);
        }
        p.one()
    }

    /// Get a mutable reference to the *luma* / *relative luminance* component.
    pub fn value_mut<P: Pixel<Model = Self>>(p: &mut P) -> (c: &mut P::Chan)
        ensures
            *c == old(p).chans()[0],
            final(p).chans() == old(p).chans().update(0, *final(c)),
    {
        proof {
            P::lemma_count_range();
        }
        p.channel_mut(0)
    }
}

impl ColorModel for Gray {
    open spec fn model_id() -> nat {
        3
    }

    open spec fn circular() -> (nat, nat) {
        (0, 0)
    }

    open spec fn linear() -> (nat, nat) {
        (0, 1)
    }

    open spec fn alpha_index() -> nat {
        1
    }

    open spec fn into_rgba_exact() -> bool {
        true
    }

    /// Conversion from RGBA weighs *red*, *green* and *blue* in floating point, which the library does not carry.
    open spec fn from_rgba_exact() -> bool {
        false
    }

    open spec fn into_rgba_value(q: Seq<nat>, alpha: nat, max: nat) -> Seq<nat> {
        seq![q[0], q[0], q[0], alpha]
    }

    /// No integer value: the luminance is computed in floating point.
    open spec fn from_rgba_value(rgba: Seq<nat>, max: nat) -> Seq<nat> {
        Seq::empty()
    }

    proof fn lemma_layout() {
    }

    fn id() -> (r: u8) {
        3
    }

    fn circular_range() -> (r: (usize, usize)) {
        (0, 0)
    }

    fn linear_range() -> (r: (usize, usize)) {
        (0, 1)
    }

    fn alpha_channel() -> (r: usize) {
        1
    }

    fn into_rgba<C: Channel>(q: [C; 4], alpha: C) -> (r: Option<[C; 4]>) {
        Some([q[0], q[0], q[0], alpha])
    }

    fn from_rgba<C: Channel>(rgba: [C; 4]) -> (r: Option<[C; 4]>) {
        None
    }
}

/// Gray 8-bit opaque (no *alpha* channel) linear gamma pixel format.
pub type Gray8 = Pix1<Ch8, Gray, Straight, Linear>;

/// Gray 16-bit opaque (no *alpha* channel) linear gamma pixel format.
pub type Gray16 = Pix1<Ch16, Gray, Straight, Linear>;

/// Gray 8-bit straight alpha linear gamma pixel format.
pub type Graya8 = Pix2<Ch8, Gray, Straight, Linear>;

/// Gray 16-bit straight alpha linear gamma pixel format.
pub type Graya16 = Pix2<Ch16, Gray, Straight, Linear>;

/// Gray 8-bit premultiplied alpha linear gamma pixel format.
pub type Graya8p = Pix2<Ch8, Gray, Premultiplied, Linear>;

/// Gray 16-bit premultiplied alpha linear gamma pixel format.
pub type Graya16p = Pix2<Ch16, Gray, Premultiplied, Linear>;

/// Gray 8-bit opaque (no *alpha* channel) sRGB gamma pixel format.
pub type SGray8 = Pix1<Ch8, Gray, Straight, Srgb>;

/// Gray 16-bit opaque (no *alpha* channel) sRGB gamma pixel format.
pub type SGray16 = Pix1<Ch16, Gray, Straight, Srgb>;

/// Gray 8-bit straight alpha sRGB gamma pixel format.
pub type SGraya8 = Pix2<Ch8, Gray, Straight, Srgb>;

/// Gray 16-bit straight alpha sRGB gamma pixel format.
pub type SGraya16 = Pix2<Ch16, Gray, Straight, Srgb>;

/// Gray 8-bit premultiplied alpha sRGB gamma pixel format.
pub type SGraya8p = Pix2<Ch8, Gray, Premultiplied, Srgb>;

/// Gray 16-bit premultiplied alpha sRGB gamma pixel format.
pub type SGraya16p = Pix2<Ch16, Gray, Premultiplied, Srgb>;

/// Converting a gray pixel to RGB with the same channel, alpha mode and
/// gamma mode gives *red*, *green* and *blue* equal to the gray *value*.
pub proof fn lemma_gray_to_rgb<P, D>(p: P)
    where
        P: Pixel<Model = Gray>,
        D: Pixel<Model = Rgb, Chan = P::Chan, Alpha = P::Alpha, Gamma = P::Gamma>,
    ensures
        convert_supported::<P, D>(),
        forall|i: int| 0 <= i < 3 ==> #[trigger] convert_quad::<P, D>(p)[i] == quad(p)[0],
{
    let max = P::Chan::max_value();
    lemma_quad_bounded(p);
    let rgba = Gray::into_rgba_value(quad(p), chan_value(p, 1), max);
    assert(forall|i: int| 0 <= i < 4 ==> #[trigger] rgba[i] <= max);
    lemma_depth_quad_same::<P::Chan>(rgba);
}

} // verus!
