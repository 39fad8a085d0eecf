// RGB color model.
use vstd::prelude::*;
use crate::chan::{Ch16, Ch8, Channel, Linear, Premultiplied, Srgb, Straight};
use crate::el::{
    Pix3, Pix4, Pixel, chan_value, convert_quad, holds, lemma_depth_quad_same, lemma_quad_bounded,
    quad,
};
use crate::model::{ColorModel, quad_values};

verus! {

/// RGB [color model].
///
/// The components are *red*, *green*, *blue* and optional *alpha*.
#[derive(Clone, Copy, Debug, PartialEq, Eq, Structural)]
pub struct Rgb {}

impl Rgb {
    /// Get the *red* component.
    pub fn red<P: Pixel<Model = Self>>(p: P) -> (c: P::Chan)
        ensures
            c == p.chans()[0],
            c.value() == chan_value(p, 0),
    {
        proof {
            P::lemma_count(p);
        }
        p.one()
    }

    /// Get a mutable reference to the *red* component.
    pub fn red_mut<P: Pixel<Model = Self>>(p: &mut P) -> (c: &mut P::Chan)
        ensures
            *c == old(p).chans()[0],
            final(p).chans() == old(p).chans().update(0, *final(c)),
    {
        proof {
            P::lemma_count_range();
        }
        p.channel_mut(0)
    }

    /// Get the *green* component.
    pub fn green<P: Pixel<Model = Self>>(p: P) -> (c: P::Chan)
        ensures
            c.value() == chan_value(p, 1),
    {
        proof {
            P::lemma_count(p);
        }
        p.two()
    }

    /// Get a mutable reference to the *green* component.
    pub fn green_mut<P: Pixel<Model = Self>>(p: &mut P) -> (c: &mut P::Chan)
        requires
            1 < P::count(),
        ensures
            *c == old(p).chans()[1],
            final(p).chans() == old(p).chans().update(1, *final(c)),
    {
        p.channel_mut(1)
    }

    /// Get the *blue* component.
    pub fn blue<P: Pixel<Model = Self>>(p: P) -> (c: P::Chan)
        ensures
            c.value() == chan_value(p, 2),
    {
        proof {
            P::lemma_count(p);
        }
        p.three()
    }

    /// Get the *alpha* component (*one* where the pixel has none).
    pub fn alpha<P: Pixel<Model = Self>>(p: P) -> (c: P::Chan)
        ensures
            c.value() == chan_value(p, 3),
    {
        proof {
            P::lemma_count(p);
        }
        p.four()
    }

    /// Get the difference of two pixels, channel by channel.
    pub fn difference<P: Pixel<Model = Self>>(p: P, rhs: P) -> (r: P)
        ensures
            holds(r, difference_quad(p, rhs)),
    {
        let red = channel_difference(Self::red(p), Self::red(rhs));
        let green = channel_difference(Self::green(p), Self::green(rhs));
        let blue = channel_difference(Self::blue(p), Self::blue(rhs));
        let alpha = channel_difference(Self::alpha(p), Self::alpha(rhs));
        let ch = [red, green, blue, alpha];
        proof {
            P::lemma_count_range();
        }
        let r = P::from_channels(ch.as_slice());
        proof {
            P::lemma_count(r);
        }
        r
    }

    /// Is every channel of `p` at most the same channel of `rhs`?
    pub fn within_threshold<P: Pixel<Model = Self>>(p: P, rhs: P) -> (b: bool)
        ensures
            b == within(p, rhs),
    {
        let r = !Self::red(rhs).less_than(Self::red(p)) && !Self::green(rhs).less_than(
            Self::green(p),
        ) && !Self::blue(rhs).less_than(Self::blue(p)) && !Self::alpha(rhs).less_than(
            Self::alpha(p),
        );
        proof {
            if r {
                assert forall|i: int| 0 <= i < 4 implies chan_value(p, i) <= chan_value(rhs, i) by {
                    if i == 0 {
                    } else if i == 1 {
                    } else if i == 2 {
                    } else {
                    }
                }
            }
        }
        r
    }

    /// Get a mutable reference to the *blue* component.
    pub fn blue_mut<P: Pixel<Model = Self>>(p: &mut P) -> (c: &mut P::Chan)
        requires
            2 < P::count(),
        ensures
            *c == old(p).chans()[2],
            final(p).chans() == old(p).chans().update(2, *final(c)),
    {
        p.channel_mut(2)
    }


}

/// Absolute difference of two channel values.
pub open spec fn abs_diff(a: nat, b: nat) -> nat {
    if a > b { (a - b) as nat } else { (b - a) as nat }
}

/// Channel-wise absolute difference of the *red*, *green*, *blue* and
/// *alpha* values of two pixels.
pub open spec fn difference_quad<P: Pixel>(p: P, rhs: P) -> Seq<nat> {
    seq![
        abs_diff(chan_value(p, 0), chan_value(rhs, 0)),
        abs_diff(chan_value(p, 1), chan_value(rhs, 1)),
        abs_diff(chan_value(p, 2), chan_value(rhs, 2)),
        abs_diff(chan_value(p, 3), chan_value(rhs, 3)),
    ]
}

/// Is every channel (*red*, *green*, *blue* and *alpha*) of `p` at most the
/// same channel of `rhs`?
pub open spec fn within<P: Pixel>(p: P, rhs: P) -> bool {
    forall|i: int| 0 <= i < 4 ==> chan_value(p, i) <= chan_value(rhs, i)
}

/// Absolute difference of two channels.
fn channel_difference<C: Channel>(a: C, b: C) -> (c: C)
    ensures
        c.value() == abs_diff(a.value(), b.value()),
{
    if b.less_than(a) {
        a.saturating_sub(b)
    } else {
        b.saturating_sub(a)
    }
}

impl ColorModel for Rgb {
    open spec fn model_id() -> nat {
        0
    }

    open spec fn circular() -> (nat, nat) {
        (0, 0)
    }

    open spec fn linear() -> (nat, nat) {
        (0, 3)
    }

    open spec fn alpha_index() -> nat {
        3
    }

    open spec fn into_rgba_exact() -> bool {
        true
    }

    open spec fn from_rgba_exact() -> bool {
        true
    }

    open spec fn into_rgba_value(q: Seq<nat>, alpha: nat, max: nat) -> Seq<nat> {
        seq![q[0], q[1], q[2], alpha]
    }

    open spec fn from_rgba_value(rgba: Seq<nat>, max: nat) -> Seq<nat> {
        rgba
    }

    proof fn lemma_layout() {
    }

    fn id() -> (r: u8) {
        0
    }

    fn circular_range() -> (r: (usize, usize)) {
        (0, 0)
    }

    fn linear_range() -> (r: (usize, usize)) {
        (0, 3)
    }

    fn alpha_channel() -> (r: usize) {
        3
    }

    fn into_rgba<C: Channel>(q: [C; 4], alpha: C) -> (r: Option<[C; 4]>) {
        Some([q[0], q[1], q[2], alpha])
    }

    fn from_rgba<C: Channel>(rgba: [C; 4]) -> (r: Option<[C; 4]>) {
        Some(rgba)
    }
}

/// Rgb 8-bit opaque (no *alpha* channel) linear gamma pixel format.
pub type Rgb8 = Pix3<Ch8, Rgb, Straight, Linear>;

/// Rgb 16-bit opaque (no *alpha* channel) linear gamma pixel format.
pub type Rgb16 = Pix3<Ch16, Rgb, Straight, Linear>;

/// Rgb 8-bit straight alpha linear gamma pixel format.
pub type Rgba8 = Pix4<Ch8, Rgb, Straight, Linear>;

/// Rgb 16-bit straight alpha linear gamma pixel format.
pub type Rgba16 = Pix4<Ch16, Rgb, Straight, Linear>;

/// Rgb 8-bit premultiplied alpha linear gamma pixel format.
pub type Rgba8p = Pix4<Ch8, Rgb, Premultiplied, Linear>;

/// Rgb 16-bit premultiplied alpha linear gamma pixel format.
pub type Rgba16p = Pix4<Ch16, Rgb, Premultiplied, Linear>;

/// Rgb 8-bit opaque (no *alpha* channel) sRGB gamma pixel format.
pub type SRgb8 = Pix3<Ch8, Rgb, Straight, Srgb>;

/// Rgb 16-bit opaque (no *alpha* channel) sRGB gamma pixel format.
pub type SRgb16 = Pix3<Ch16, Rgb, Straight, Srgb>;

/// Rgb 8-bit straight alpha sRGB gamma pixel format.
pub type SRgba8 = Pix4<Ch8, Rgb, Straight, Srgb>;

/// Rgb 16-bit straight alpha sRGB gamma pixel format.
pub type SRgba16 = Pix4<Ch16, Rgb, Straight, Srgb>;

/// Rgb 8-bit premultiplied alpha sRGB gamma pixel format.
pub type SRgba8p = Pix4<Ch8, Rgb, Premultiplied, Srgb>;

/// Rgb 16-bit premultiplied alpha sRGB gamma pixel format.
pub type SRgba16p = Pix4<Ch16, Rgb, Premultiplied, Srgb>;

/// Changing the alpha mode of an sRGB pixel works on linear values: an sRGB
/// premultiplied pixel converted to sRGB straight is the same as the pixel
/// made linear, un-premultiplied, and made sRGB again, step by step.
pub proof fn lemma_srgb_unpremultiply<C: Channel>(
    p: Pix4<C, Rgb, Premultiplied, Srgb>,
    x: Pix4<C, Rgb, Premultiplied, Linear>,
    y: Pix4<C, Rgb, Straight, Linear>,
    z: Pix4<C, Rgb, Straight, Srgb>,
)
    requires
        C::srgb_table(),
        holds(x, convert_quad::<Pix4<C, Rgb, Premultiplied, Srgb>, Pix4<C, Rgb, Premultiplied, Linear>>(p)),
        holds(y, convert_quad::<Pix4<C, Rgb, Premultiplied, Linear>, Pix4<C, Rgb, Straight, Linear>>(x)),
        holds(z, convert_quad::<Pix4<C, Rgb, Straight, Linear>, Pix4<C, Rgb, Straight, Srgb>>(y)),
    ensures
        holds(z, convert_quad::<Pix4<C, Rgb, Premultiplied, Srgb>, Pix4<C, Rgb, Straight, Srgb>>(p)),
{
    lemma_quad_bounded(p);
    lemma_quad_bounded(x);
    lemma_quad_bounded(y);
    lemma_quad_bounded(z);
    Pix4::<C, Rgb, Premultiplied, Srgb>::lemma_count(p);
    Pix4::<C, Rgb, Premultiplied, Linear>::lemma_count(x);
    Pix4::<C, Rgb, Straight, Linear>::lemma_count(y);
    Pix4::<C, Rgb, Straight, Srgb>::lemma_count(z);
    lemma_depth_quad_same::<C>(quad(p));
    lemma_depth_quad_same::<C>(quad(x));
    lemma_depth_quad_same::<C>(quad(y));
    assert(quad(x) =~= convert_quad::<Pix4<C, Rgb, Premultiplied, Srgb>, Pix4<C, Rgb, Premultiplied, Linear>>(p));
    assert(quad(y) =~= convert_quad::<Pix4<C, Rgb, Premultiplied, Linear>, Pix4<C, Rgb, Straight, Linear>>(x));
}

/// Changing the alpha mode of an sRGB pixel works on linear values: an sRGB
/// straight pixel converted to sRGB premultiplied is the same as the pixel
/// made linear, premultiplied, and made sRGB again, step by step.
pub proof fn lemma_srgb_premultiply<C: Channel>(
    p: Pix4<C, Rgb, Straight, Srgb>,
    x: Pix4<C, Rgb, Straight, Linear>,
    y: Pix4<C, Rgb, Premultiplied, Linear>,
    z: Pix4<C, Rgb, Premultiplied, Srgb>,
)
    requires
        C::srgb_table(),
        holds(x, convert_quad::<Pix4<C, Rgb, Straight, Srgb>, Pix4<C, Rgb, Straight, Linear>>(p)),
        holds(y, convert_quad::<Pix4<C, Rgb, Straight, Linear>, Pix4<C, Rgb, Premultiplied, Linear>>(x)),
        holds(z, convert_quad::<Pix4<C, Rgb, Premultiplied, Linear>, Pix4<C, Rgb, Premultiplied, Srgb>>(y)),
    ensures
        holds(z, convert_quad::<Pix4<C, Rgb, Straight, Srgb>, Pix4<C, Rgb, Premultiplied, Srgb>>(p)),
{
    lemma_quad_bounded(p);
    lemma_quad_bounded(x);
    lemma_quad_bounded(y);
    lemma_quad_bounded(z);
    Pix4::<C, Rgb, Straight, Srgb>::lemma_count(p);
    Pix4::<C, Rgb, Straight, Linear>::lemma_count(x);
    Pix4::<C, Rgb, Premultiplied, Linear>::lemma_count(y);
    Pix4::<C, Rgb, Premultiplied, Srgb>::lemma_count(z);
    lemma_depth_quad_same::<C>(quad(p));
    lemma_depth_quad_same::<C>(quad(x));
    lemma_depth_quad_same::<C>(quad(y));
    assert(quad(x) =~= convert_quad::<Pix4<C, Rgb, Straight, Srgb>, Pix4<C, Rgb, Straight, Linear>>(p));
    assert(quad(y) =~= convert_quad::<Pix4<C, Rgb, Straight, Linear>, Pix4<C, Rgb, Premultiplied, Linear>>(x));
}

} // verus!
