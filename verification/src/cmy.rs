// CMY color model.
use vstd::prelude::*;
use crate::chan::{Alpha, Ch16, Ch8, Channel, Gamma, Linear, Premultiplied, Srgb, Straight};
use crate::el::{
    Pix3, Pix4, Pixel, chan_value, convert_quad, convert_supported, holds, lemma_depth_quad_same,
    lemma_quad_bounded, quad,
};
use crate::rgb::Rgb;
use crate::model::{ColorModel, quad_values};

verus! {

/// CMY [color model].
///
/// The components are *cyan*, *magenta*, *yellow* and optional *alpha*.
#[derive(Clone, Copy, Debug, PartialEq, Eq, Structural)]
pub struct Cmy {}

impl Cmy {
    /// Get the *cyan* component.
    pub fn cyan<P: Pixel<Model = Self>>(p: P) -> (c: P::Chan)
        ensures
            c == p.chans()[0],
            c.value() == chan_value(p, 0),
    {
        proof {
            P::lemma_count(p);
        }
        p.one()
    }

    /// Get a mutable reference to the *cyan* component.
    pub fn cyan_mut<P: Pixel<Model = Self>>(p: &mut P) -> (c: &mut P::Chan)
        ensures
            *c == old(p).chans()[0],
            final(p).chans() == old(p).chans().update(0, *final(c)),
    {
        proof {
            P::lemma_count_range();
        }
        p.channel_mut(0)
    }

    /// Get the *magenta* component.
    pub fn magenta<P: Pixel<Model = Self>>(p: P) -> (c: P::Chan)
        ensures
            c.value() == chan_value(p, 1),
    {
        proof {
            P::lemma_count(p);
        }
        p.two()
    }

    /// Get a mutable reference to the *magenta* component.
    pub fn magenta_mut<P: Pixel<Model = Self>>(p: &mut P) -> (c: &mut P::Chan)
        requires
            1 < P::count(),
        ensures
            *c == old(p).chans()[1],
            final(p).chans() == old(p).chans().update(1, *final(c)),
    {
        p.channel_mut(1)
    }

    /// Get the *yellow* component.
    pub fn yellow<P: Pixel<Model = Self>>(p: P) -> (c: P::Chan)
        ensures
            c.value() == chan_value(p, 2),
    {
        proof {
            P::lemma_count(p);
        }
        p.three()
    }

    /// Get a mutable reference to the *yellow* component.
    pub fn yellow_mut<P: Pixel<Model = Self>>(p: &mut P) -> (c: &mut P::Chan)
        requires
            2 < P::count(),
        ensures
            *c == old(p).chans()[2],
            final(p).chans() == old(p).chans().update(2, *final(c)),
    {
        p.channel_mut(2)
    }
}

impl ColorModel for Cmy {
    open spec fn model_id() -> nat {
        2
    }

    open spec fn circular() -> (nat, nat) {
        (0, 0)
    }

    open spec fn linear() -> (nat, nat) {
        (0, 3)
    }

    open spec fn alpha_index() -> nat {
        3
    }

    open spec fn into_rgba_exact() -> bool {
        true
    }

    open spec fn from_rgba_exact() -> bool {
        true
    }

    open spec fn into_rgba_value(q: Seq<nat>, alpha: nat, max: nat) -> Seq<nat> {
        seq![(max - q[0]) as nat, (max - q[1]) as nat, (max - q[2]) as nat, alpha]
    }

    open spec fn from_rgba_value(rgba: Seq<nat>, max: nat) -> Seq<nat> {
        seq![(max - rgba[0]) as nat, (max - rgba[1]) as nat, (max - rgba[2]) as nat, rgba[3]]
    }

    proof fn lemma_layout() {
    }

    fn id() -> (r: u8) {
        2
    }

    fn circular_range() -> (r: (usize, usize)) {
        (0, 0)
    }

    fn linear_range() -> (r: (usize, usize)) {
        (0, 3)
    }

    fn alpha_channel() -> (r: usize) {
        3
    }

    fn into_rgba<C: Channel>(q: [C; 4], alpha: C) -> (r: Option<[C; 4]>) {
        proof {
            C::lemma_bounded(q[0]);
            C::lemma_bounded(q[1]);
            C::lemma_bounded(q[2]);
        }
        let max = C::maximum();
        let red = max.saturating_sub(q[0]);
        let green = max.saturating_sub(q[1]);
        let blue = max.saturating_sub(q[2]);
        let r = [red, green, blue, alpha];
        assert(quad_values(r) =~= seq![(C::max_value() - q[0].value()) as nat, (C::max_value() - q[1].value()) as nat, (C::max_value() - q[2].value()) as nat, alpha.value()]);
        Some(r)
    }

    fn from_rgba<C: Channel>(rgba: [C; 4]) -> (r: Option<[C; 4]>) {
        proof {
            C::lemma_bounded(rgba[0]);
            C::lemma_bounded(rgba[1]);
            C::lemma_bounded(rgba[2]);
        }
        let max = C::maximum();
        let cyan = max.saturating_sub(rgba[0]);
        let magenta = max.saturating_sub(rgba[1]);
        let yellow = max.saturating_sub(rgba[2]);
        let r = [cyan, magenta, yellow, rgba[3]];
        assert(quad_values(r) =~= seq![(C::max_value() - rgba[0].value()) as nat, (C::max_value() - rgba[1].value()) as nat, (C::max_value() - rgba[2].value()) as nat, rgba[3].value()]);
        Some(r)
    }
}

/// Cmy 8-bit opaque (no *alpha* channel) linear gamma pixel format.
pub type Cmy8 = Pix3<Ch8, Cmy, Straight, Linear>;

/// Cmy 16-bit opaque (no *alpha* channel) linear gamma pixel format.
pub type Cmy16 = Pix3<Ch16, Cmy, Straight, Linear>;

/// Cmy 8-bit straight alpha linear gamma pixel format.
pub type Cmya8 = Pix4<Ch8, Cmy, Straight, Linear>;

/// Cmy 16-bit straight alpha linear gamma pixel format.
pub type Cmya16 = Pix4<Ch16, Cmy, Straight, Linear>;

/// Cmy 8-bit premultiplied alpha linear gamma pixel format.
pub type Cmya8p = Pix4<Ch8, Cmy, Premultiplied, Linear>;

/// Cmy 16-bit premultiplied alpha linear gamma pixel format.
pub type Cmya16p = Pix4<Ch16, Cmy, Premultiplied, Linear>;

/// Cmy 8-bit opaque (no *alpha* channel) sRGB gamma pixel format.
pub type SCmy8 = Pix3<Ch8, Cmy, Straight, Srgb>;

/// Cmy 16-bit opaque (no *alpha* channel) sRGB gamma pixel format.
pub type SCmy16 = Pix3<Ch16, Cmy, Straight, Srgb>;

/// Cmy 8-bit straight alpha sRGB gamma pixel format.
pub type SCmya8 = Pix4<Ch8, Cmy, Straight, Srgb>;

/// Cmy 16-bit straight alpha sRGB gamma pixel format.
pub type SCmya16 = Pix4<Ch16, Cmy, Straight, Srgb>;

/// Cmy 8-bit premultiplied alpha sRGB gamma pixel format.
pub type SCmya8p = Pix4<Ch8, Cmy, Premultiplied, Srgb>;

/// Cmy 16-bit premultiplied alpha sRGB gamma pixel format.
pub type SCmya16p = Pix4<Ch16, Cmy, Premultiplied, Srgb>;

/// Converting a CMY pixel to RGB (with the same channel, alpha and gamma)
/// and back gives the same pixel: *red* is *one* minus *cyan*, and so on.
pub proof fn lemma_cmy_rgb_round_trip<C: Channel, A: Alpha, G: Gamma>(
    p: Pix3<C, Cmy, A, G>,
    q: Pix3<C, Rgb, A, G>,
)
    requires
        holds(q, convert_quad::<Pix3<C, Cmy, A, G>, Pix3<C, Rgb, A, G>>(p)),
    ensures
        convert_supported::<Pix3<C, Cmy, A, G>, Pix3<C, Rgb, A, G>>(),
        convert_supported::<Pix3<C, Rgb, A, G>, Pix3<C, Cmy, A, G>>(),
        forall|i: int|
            0 <= i < 3 ==> #[trigger] quad(q)[i] == (C::max_value() - quad(p)[i]) as nat,
        holds(p, convert_quad::<Pix3<C, Rgb, A, G>, Pix3<C, Cmy, A, G>>(q)),
{
    let max = C::max_value();
    lemma_quad_bounded(p);
    lemma_quad_bounded(q);
    Pix3::<C, Cmy, A, G>::lemma_count(p);
    Pix3::<C, Rgb, A, G>::lemma_count(q);
    let rgba = Cmy::into_rgba_value(quad(p), max, max);
    assert(forall|i: int| 0 <= i < 4 ==> #[trigger] rgba[i] <= max);
    lemma_depth_quad_same::<C>(rgba);
    let back = Rgb::into_rgba_value(quad(q), max, max);
    assert(forall|i: int| 0 <= i < 4 ==> #[trigger] back[i] <= max);
    lemma_depth_quad_same::<C>(back);
}

} // verus!
