// BGR color model.
use vstd::prelude::*;
use crate::chan::{Alpha, Ch16, Ch8, Channel, Gamma, Linear, Premultiplied, Srgb, Straight};
use crate::el::{
    Pix3, Pix4, Pixel, chan_value, convert_quad, convert_supported, holds, lemma_depth_quad_same,
    lemma_quad_bounded, quad,
};
use crate::rgb::Rgb;
use crate::model::{ColorModel, quad_values};

verus! {

/// BGR [color model].
///
/// The components are *blue*, *green*, *red* and optional *alpha*.
#[derive(Clone, Copy, Debug, PartialEq, Eq, Structural)]
pub struct Bgr {}

impl Bgr {
    /// Get the *blue* component.
    pub fn blue<P: Pixel<Model = Self>>(p: P) -> (c: P::Chan)
        ensures
            c == p.chans()[0],
            c.value() == chan_value(p, 0),
    {
        proof {
            P::lemma_count(p);
        }
        p.one()
    }

    /// Get a mutable reference to the *blue* component.
    pub fn blue_mut<P: Pixel<Model = Self>>(p: &mut P) -> (c: &mut P::Chan)
        ensures
            *c == old(p).chans()[0],
            final(p).chans() == old(p).chans().update(0, *final(c)),
    {
        proof {
            P::lemma_count_range();
        }
        p.channel_mut(0)
    }

    /// Get the *green* component.
    pub fn green<P: Pixel<Model = Self>>(p: P) -> (c: P::Chan)
        ensures
            c.value() == chan_value(p, 1),
    {
        proof {
            P::lemma_count(p);
        }
        p.two()
    }

    /// Get a mutable reference to the *green* component.
    pub fn green_mut<P: Pixel<Model = Self>>(p: &mut P) -> (c: &mut P::Chan)
        requires
            1 < P::count(),
        ensures
            *c == old(p).chans()[1],
            final(p).chans() == old(p).chans().update(1, *final(c)),
    {
        p.channel_mut(1)
    }

    /// Get the *red* component.
    pub fn red<P: Pixel<Model = Self>>(p: P) -> (c: P::Chan)
        ensures
            c.value() == chan_value(p, 2),
    {
        proof {
            P::lemma_count(p);
        }
        p.three()
    }

    /// Get the *alpha* component (*one* where the pixel has none).
    pub fn alpha<P: Pixel<Model = Self>>(p: P) -> (c: P::Chan)
        ensures
            c.value() == chan_value(p, 3),
    {
        proof {
            P::lemma_count(p);
        }
        p.four()
    }

    /// Get a mutable reference to the *red* component.
    pub fn red_mut<P: Pixel<Model = Self>>(p: &mut P) -> (c: &mut P::Chan)
        requires
            2 < P::count(),
        ensures
            *c == old(p).chans()[2],
            final(p).chans() == old(p).chans().update(2, *final(c)),
    {
        p.channel_mut(2)
    }


}

impl ColorModel for Bgr {
    open spec fn model_id() -> nat {
        1
    }

    open spec fn circular() -> (nat, nat) {
        (0, 0)
    }

    open spec fn linear() -> (nat, nat) {
        (0, 3)
    }

    open spec fn alpha_index() -> nat {
        3
    }

    open spec fn into_rgba_exact() -> bool {
        true
    }

    open spec fn from_rgba_exact() -> bool {
        true
    }

    open spec fn into_rgba_value(q: Seq<nat>, alpha: nat, max: nat) -> Seq<nat> {
        seq![q[2], q[1], q[0], alpha]
    }

    open spec fn from_rgba_value(rgba: Seq<nat>, max: nat) -> Seq<nat> {
        seq![rgba[2], rgba[1], rgba[0], rgba[3]]
    }

    proof fn lemma_layout() {
    }

    fn id() -> (r: u8) {
        1
    }

    fn circular_range() -> (r: (usize, usize)) {
        (0, 0)
    }

    fn linear_range() -> (r: (usize, usize)) {
        (0, 3)
    }

    fn alpha_channel() -> (r: usize) {
        3
    }

    fn into_rgba<C: Channel>(q: [C; 4], alpha: C) -> (r: Option<[C; 4]>) {
        Some([q[2], q[1], q[0], alpha])
    }

    fn from_rgba<C: Channel>(rgba: [C; 4]) -> (r: Option<[C; 4]>) {
        Some([rgba[2], rgba[1], rgba[0], rgba[3]])
    }
}

/// Bgr 8-bit opaque (no *alpha* channel) linear gamma pixel format.
pub type Bgr8 = Pix3<Ch8, Bgr, Straight, Linear>;

/// Bgr 16-bit opaque (no *alpha* channel) linear gamma pixel format.
pub type Bgr16 = Pix3<Ch16, Bgr, Straight, Linear>;

/// Bgr 8-bit straight alpha linear gamma pixel format.
pub type Bgra8 = Pix4<Ch8, Bgr, Straight, Linear>;

/// Bgr 16-bit straight alpha linear gamma pixel format.
pub type Bgra16 = Pix4<Ch16, Bgr, Straight, Linear>;

/// Bgr 8-bit premultiplied alpha linear gamma pixel format.
pub type Bgra8p = Pix4<Ch8, Bgr, Premultiplied, Linear>;

/// Bgr 16-bit premultiplied alpha linear gamma pixel format.
pub type Bgra16p = Pix4<Ch16, Bgr, Premultiplied, Linear>;

/// Bgr 8-bit opaque (no *alpha* channel) sRGB gamma pixel format.
pub type SBgr8 = Pix3<Ch8, Bgr, Straight, Srgb>;

/// Bgr 16-bit opaque (no *alpha* channel) sRGB gamma pixel format.
pub type SBgr16 = Pix3<Ch16, Bgr, Straight, Srgb>;

/// Bgr 8-bit straight alpha sRGB gamma pixel format.
pub type SBgra8 = Pix4<Ch8, Bgr, Straight, Srgb>;

/// Bgr 16-bit straight alpha sRGB gamma pixel format.
pub type SBgra16 = Pix4<Ch16, Bgr, Straight, Srgb>;

/// Bgr 8-bit premultiplied alpha sRGB gamma pixel format.
pub type SBgra8p = Pix4<Ch8, Bgr, Premultiplied, Srgb>;

/// Bgr 16-bit premultiplied alpha sRGB gamma pixel format.
pub type SBgra16p = Pix4<Ch16, Bgr, Premultiplied, Srgb>;

/// Converting an RGB pixel to BGR (with the same channel, alpha and gamma)
/// keeps each color: the BGR pixel's *blue* is the RGB pixel's *blue*, its
/// *green* the RGB *green*, its *red* the RGB *red*.  Converting back gives
/// the RGB pixel again.
pub proof fn lemma_rgb_to_bgr<C: Channel, A: Alpha, G: Gamma>(
    p: Pix3<C, Rgb, A, G>,
    q: Pix3<C, Bgr, A, G>,
)
    requires
        holds(q, convert_quad::<Pix3<C, Rgb, A, G>, Pix3<C, Bgr, A, G>>(p)),
    ensures
        convert_supported::<Pix3<C, Rgb, A, G>, Pix3<C, Bgr, A, G>>(),
        convert_supported::<Pix3<C, Bgr, A, G>, Pix3<C, Rgb, A, G>>(),
        q.chans()[0].value() == p.chans()[2].value(),
        q.chans()[1].value() == p.chans()[1].value(),
        q.chans()[2].value() == p.chans()[0].value(),
        holds(p, convert_quad::<Pix3<C, Bgr, A, G>, Pix3<C, Rgb, A, G>>(q)),
{
    let max = C::max_value();
    lemma_quad_bounded(p);
    lemma_quad_bounded(q);
    Pix3::<C, Rgb, A, G>::lemma_count(p);
    Pix3::<C, Bgr, A, G>::lemma_count(q);
    let rgba = Rgb::into_rgba_value(quad(p), max, max);
    assert(forall|i: int| 0 <= i < 4 ==> #[trigger] rgba[i] <= max);
    lemma_depth_quad_same::<C>(rgba);
    let back = Bgr::into_rgba_value(quad(q), max, max);
    assert(forall|i: int| 0 <= i < 4 ==> #[trigger] back[i] <= max);
    lemma_depth_quad_same::<C>(back);
    assert(q.chans()[0].value() == quad(q)[0]);
    assert(q.chans()[2].value() == quad(q)[2]);
}

/// Converting an RGBA pixel to BGRA (with the same channel, alpha and
/// gamma) keeps each color and the *alpha*; converting back gives the RGBA
/// pixel again.
pub proof fn lemma_rgba_to_bgra<C: Channel, A: Alpha, G: Gamma>(
    p: Pix4<C, Rgb, A, G>,
    q: Pix4<C, Bgr, A, G>,
)
    requires
        holds(q, convert_quad::<Pix4<C, Rgb, A, G>, Pix4<C, Bgr, A, G>>(p)),
    ensures
        convert_supported::<Pix4<C, Rgb, A, G>, Pix4<C, Bgr, A, G>>(),
        convert_supported::<Pix4<C, Bgr, A, G>, Pix4<C, Rgb, A, G>>(),
        q.chans()[0].value() == p.chans()[2].value(),
        q.chans()[1].value() == p.chans()[1].value(),
        q.chans()[2].value() == p.chans()[0].value(),
        q.chans()[3].value() == p.chans()[3].value(),
        holds(p, convert_quad::<Pix4<C, Bgr, A, G>, Pix4<C, Rgb, A, G>>(q)),
{
    let max = C::max_value();
    lemma_quad_bounded(p);
    lemma_quad_bounded(q);
    Pix4::<C, Rgb, A, G>::lemma_count(p);
    Pix4::<C, Bgr, A, G>::lemma_count(q);
    let rgba = Rgb::into_rgba_value(quad(p), quad(p)[3], max);
    assert(forall|i: int| 0 <= i < 4 ==> #[trigger] rgba[i] <= max);
    lemma_depth_quad_same::<C>(rgba);
    let back = Bgr::into_rgba_value(quad(q), quad(q)[3], max);
    assert(forall|i: int| 0 <= i < 4 ==> #[trigger] back[i] <= max);
    lemma_depth_quad_same::<C>(back);
    assert(q.chans()[0].value() == quad(q)[0]);
    assert(q.chans()[2].value() == quad(q)[2]);
    assert(q.chans()[3].value() == quad(q)[3]);
}

} // verus!
