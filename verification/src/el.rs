// Pixel formats: channels in a color model, with alpha and gamma modes.
use vstd::prelude::*;
use core::marker::PhantomData;
use crate::chan::{
    Alpha, Channel, Gamma, alpha_decode_value, alpha_encode_value, gamma_from_linear_value,
    gamma_supported, gamma_to_linear_value,
};
use crate::model::{ColorModel, quad_values};

verus! {

/// Value of channel `i` of a pixel, or *one* where the pixel has no channel
/// `i`.
pub open spec fn chan_value<P: Pixel>(p: P, i: int) -> nat {
    if 0 <= i < p.chans().len() {
        p.chans()[i].value()
    } else {
        P::Chan::max_value()
    }
}

/// The first four channel values of a pixel (*one* where it has fewer).
pub open spec fn quad<P: Pixel>(p: P) -> Seq<nat> {
    seq![chan_value(p, 0), chan_value(p, 1), chan_value(p, 2), chan_value(p, 3)]
}

/// Value of the *alpha* channel of a pixel (*one* where it has none).
pub open spec fn alpha_value<P: Pixel>(p: P) -> nat {
    chan_value(p, P::Model::alpha_index() as int)
}

/// Channel value after bit depth conversion from `S` to `D`.
pub open spec fn depth_value<S: Channel, D: Channel>(v: nat) -> nat {
    D::narrow_value(S::wide_value(v))
}

/// Four channel values after bit depth conversion from `S` to `D`.
pub open spec fn depth_quad<S: Channel, D: Channel>(q: Seq<nat>) -> Seq<nat> {
    Seq::new(4, |i: int| depth_value::<S, D>(q[i]))
}

/// Is `i` inside the half-open range `r`?
pub open spec fn in_range(i: int, r: (nat, nat)) -> bool {
    r.0 <= i < r.1
}

/// Four channel values after converting the linear channels from `src_srgb`
/// gamma to linear, re-encoding *alpha* (at `ai`) where the alpha modes differ,
/// and converting the linear channels to `dst_srgb` gamma.
pub open spec fn alpha_gamma_quad<C: Channel>(
    q: Seq<nat>,
    lin: (nat, nat),
    ai: nat,
    src_srgb: bool,
    dst_srgb: bool,
    src_premul: bool,
    dst_premul: bool,
) -> Seq<nat> {
    let q1 = Seq::new(
        4,
        |i: int|
            if in_range(i, lin) {
                gamma_to_linear_value::<C>(src_srgb, q[i])
            } else {
                q[i]
            },
    );
    let a = q1[ai as int];
    let q2 = Seq::new(
        4,
        |i: int|
            if in_range(i, lin) && src_premul != dst_premul {
                alpha_encode_value::<C>(dst_premul, alpha_decode_value::<C>(src_premul, q1[i], a), a)
            } else {
                q1[i]
            },
    );
    Seq::new(
        4,
        |i: int|
            if in_range(i, lin) {
                gamma_from_linear_value::<C>(dst_srgb, q2[i])
            } else {
                q2[i]
            },
    )
}

/// Do the alpha or gamma modes of two pixel formats differ?
pub open spec fn modes_differ<S: Pixel, D: Pixel>() -> bool {
    S::Alpha::premultiplied() != D::Alpha::premultiplied() || S::Gamma::srgb() != D::Gamma::srgb()
}

/// Can the library convert the alpha and gamma of `S` into those of `D`
/// (with channels of `D`)?  It can where no sRGB curve without a table is
/// needed.
pub open spec fn modes_supported<S: Pixel, D: Pixel>() -> bool {
    modes_differ::<S, D>() ==> gamma_supported::<D::Chan>(S::Gamma::srgb())
        && gamma_supported::<D::Chan>(D::Gamma::srgb())
}

/// Channel values (first four) of a pixel converted to a format of the same
/// color model.
pub open spec fn same_model_quad<S: Pixel, D: Pixel>(src: S) -> Seq<nat> {
    let q = depth_quad::<S::Chan, D::Chan>(quad(src));
    if modes_differ::<S, D>() {
        alpha_gamma_quad::<D::Chan>(
            q,
            D::Model::linear(),
            D::Model::alpha_index(),
            S::Gamma::srgb(),
            D::Gamma::srgb(),
            S::Alpha::premultiplied(),
            D::Alpha::premultiplied(),
        )
    } else {
        q
    }
}

/// RGBA values of a pixel converted to the channel, alpha and gamma of `D`.
pub open spec fn rgba_quad<S: Pixel, D: Pixel>(rgba: Seq<nat>) -> Seq<nat> {
    let q = depth_quad::<S::Chan, D::Chan>(rgba);
    if modes_differ::<S, D>() {
        alpha_gamma_quad::<D::Chan>(
            q,
            (0, 3),
            3,
            S::Gamma::srgb(),
            D::Gamma::srgb(),
            S::Alpha::premultiplied(),
            D::Alpha::premultiplied(),
        )
    } else {
        q
    }
}

/// Channel values (first four) of a pixel converted through RGBA.
pub open spec fn thru_rgba_quad<S: Pixel, D: Pixel>(src: S) -> Seq<nat> {
    let rgba = S::Model::into_rgba_value(quad(src), alpha_value(src), S::Chan::max_value());
    D::Model::from_rgba_value(rgba_quad::<S, D>(rgba), D::Chan::max_value())
}

/// Can the library convert a pixel of format `S` to format `D`?
///
/// Where the models are the same it converts bit depth, alpha and gamma; the
/// alpha channel must then exist where alpha modes differ.  Otherwise it
/// goes through RGBA, which both models must do in integer arithmetic.
pub open spec fn convert_supported<S: Pixel, D: Pixel>() -> bool {
    if S::Model::model_id() == D::Model::model_id() {
        &&& modes_supported::<S, D>()
        &&& S::Alpha::premultiplied() != D::Alpha::premultiplied() ==> D::Model::alpha_index()
            < D::count()
    } else {
        &&& S::Model::into_rgba_exact()
        &&& D::Model::from_rgba_exact()
        &&& modes_supported::<S, D>()
    }
}

/// Channel values (first four) of a pixel converted to format `D`.
pub open spec fn convert_quad<S: Pixel, D: Pixel>(src: S) -> Seq<nat> {
    if S::Model::model_id() == D::Model::model_id() {
        same_model_quad::<S, D>(src)
    } else {
        thru_rgba_quad::<S, D>(src)
    }
}

/// Does pixel `p` hold the first channel values of `q`?
pub open spec fn holds<P: Pixel>(p: P, q: Seq<nat>) -> bool {
    forall|i: int| 0 <= i < P::count() ==> #[trigger] p.chans()[i].value() == q[i]
}

/// Pixel [channel], [color model], [alpha mode] and [gamma mode].
///
/// A pixel can be converted to another format using the [convert] method.
///
/// [alpha mode]: ../chan/trait.Alpha.html
/// [channel]: ../chan/trait.Channel.html
/// [color model]: ../trait.ColorModel.html
/// [convert]: trait.Pixel.html#method.convert
/// [gamma mode]: ../chan/trait.Gamma.html
pub trait Pixel: Copy + Sized {
    /// Channel type
    type Chan: Channel;

    /// Color model
    type Model: ColorModel;

    /// Alpha mode
    type Alpha: Alpha;

    /// Gamma mode
    type Gamma: Gamma;

    /// The channels of the pixel.
    spec fn chans(self) -> Seq<Self::Chan>;

    /// Number of channels.
    spec fn count() -> nat;

    /// A pixel holds `count()` channels, between one and four.
    proof fn lemma_count(p: Self)
        ensures
            p.chans().len() == Self::count(),
            1 <= Self::count() <= 4,
    ;

    /// Every pixel format has between one and four channels.
    proof fn lemma_count_range()
        ensures
            1 <= Self::count() <= 4,
    ;

    /// Number of channels.
    fn channel_count() -> (n: usize)
        ensures
            n as nat == Self::count(),
    ;

    /// A pixel with every channel at *zero*.
    fn zero() -> (p: Self)
        ensures
            forall|i: int| 0 <= i < Self::count() ==> #[trigger] p.chans()[i].value() == 0,
    ;

    /// Make a pixel from a slice of channels.
    fn from_channels(ch: &[Self::Chan]) -> (p: Self)
        requires
            ch@.len() >= Self::count(),
        ensures
            p.chans() == ch@.take(Self::count() as int),
    ;

    /// Get the channels.
    fn channels(&self) -> (r: &[Self::Chan])
        ensures
            r@ == self.chans(),
    ;

    /// Get the first channel.
    fn one(self) -> (c: Self::Chan)
        ensures
            c == self.chans()[0],
    ;

    /// Get the second channel (*one* where there is none).
    fn two(self) -> (c: Self::Chan)
        ensures
            1 < Self::count() ==> c == self.chans()[1],
            Self::count() <= 1 ==> c.value() == Self::Chan::max_value(),
    ;

    /// Get the third channel (*one* where there is none).
    fn three(self) -> (c: Self::Chan)
        ensures
            2 < Self::count() ==> c == self.chans()[2],
            Self::count() <= 2 ==> c.value() == Self::Chan::max_value(),
    ;

    /// Get the fourth channel (*one* where there is none).
    fn four(self) -> (c: Self::Chan)
        ensures
            3 < Self::count() ==> c == self.chans()[3],
            Self::count() <= 3 ==> c.value() == Self::Chan::max_value(),
    ;

    /// Get the *alpha* channel (*one* where there is none).
    fn alpha(self) -> (c: Self::Chan)
        ensures
            Self::Model::alpha_index() < Self::count() ==> c == self.chans()[Self::Model::alpha_index() as int],
            Self::count() <= Self::Model::alpha_index() ==> c.value() == Self::Chan::max_value(),
    ;

    /// Get a channel mutably.
    fn channel_mut(&mut self, i: usize) -> (c: &mut Self::Chan)
        requires
            i < Self::count(),
        ensures
            *c == old(self).chans()[i as int],
            final(self).chans() == old(self).chans().update(i as int, *final(c)),
    ;
}

/// [Pixel] with one [channel] in its [color model].
///
/// [channel]: ../chan/trait.Channel.html
/// [color model]: ../trait.ColorModel.html
/// [pixel]: trait.Pixel.html
#[derive(Copy, Debug, PartialEq)]
pub struct Pix1<C, M, A, G>
where
    C: Channel,
    M: ColorModel,
    A: Alpha,
    G: Gamma,
{
    channels: [C; 1],
    _model: PhantomData<M>,
    _alpha: PhantomData<A>,
    _gamma: PhantomData<G>,
}

impl<C: Channel, M: ColorModel, A: Alpha, G: Gamma> Clone for Pix1<C, M, A, G> {
    fn clone(&self) -> (r: Self)
        ensures
            r == *self,
    {
        *self
    }
}

impl<C: Channel, M: ColorModel, A: Alpha, G: Gamma> Default for Pix1<C, M, A, G> {
    fn default() -> (r: Self)
        ensures
            forall|i: int| 0 <= i < 1 ==> #[trigger] r.chans()[i].value() == 0,
    {
        Self::zero()
    }
}

impl<C: Channel, M: ColorModel, A: Alpha, G: Gamma> Pix1<C, M, A, G> {
    /// Convert from a pixel with a different bit depth (and the same color
    /// model).
    pub fn from_bit_depth<P: Pixel>(p: P) -> (r: Self)
        requires
            P::Model::model_id() == M::model_id(),
        ensures
            holds(r, depth_quad::<P::Chan, C>(quad(p))),
    {
        from_bit_depth::<Self, P>(p)
    }

    /// Convert a pixel to another format.
    ///
    /// * `D` Destination format.
    pub fn convert<D: Pixel>(self) -> (r: D)
        requires
            convert_supported::<Self, D>(),
        ensures
            holds(r, convert_quad::<Self, D>(self)),
    {
        convert::<Self, D>(self)
    }

    /// Create a one-channel color from raw channel values.
    pub fn new(one: C::Raw) -> (p: Self)
        ensures
            p.chans()[0].value() == C::raw_value(one),
    {
        let channels = [C::from_raw(one)];
        Pix1 { channels, _model: PhantomData, _alpha: PhantomData, _gamma: PhantomData }
    }

    /// Create a one-channel color from channels.
    pub fn with_channels(one: C) -> (p: Self)
        ensures
            p.chans() == seq![one],
    {
        let channels = [one];
        Pix1 { channels, _model: PhantomData, _alpha: PhantomData, _gamma: PhantomData }
    }
}

impl<C: Channel, M: ColorModel, A: Alpha, G: Gamma> Pixel for Pix1<C, M, A, G> {
    type Chan = C;
    type Model = M;
    type Alpha = A;
    type Gamma = G;

    closed spec fn chans(self) -> Seq<C> {
        self.channels@
    }

    open spec fn count() -> nat {
        1
    }

    proof fn lemma_count(p: Self) {
    }

    proof fn lemma_count_range() {
    }

    fn channel_count() -> (n: usize) {
        1
    }

    fn zero() -> (p: Self) {
        let z = C::minimum();
        let channels = [z];
        Pix1 { channels, _model: PhantomData, _alpha: PhantomData, _gamma: PhantomData }
    }

    fn from_channels(ch: &[C]) -> (p: Self) {
        let channels = [ch[0]];
        let p = Pix1 { channels, _model: PhantomData, _alpha: PhantomData, _gamma: PhantomData };
        assert(p.chans() =~= ch@.take(1));
        p
    }

    fn channels(&self) -> (r: &[C]) {
        self.channels.as_slice()
    }

    fn one(self) -> (c: C) {
        self.channels[0]
    }

    fn two(self) -> (c: C) {
        C::maximum()
    }

    fn three(self) -> (c: C) {
        C::maximum()
    }

    fn four(self) -> (c: C) {
        C::maximum()
    }

    fn alpha(self) -> (c: C) {
        let i = M::alpha_channel();
        if i < 1 {
            self.channels[i]
        } else {
            C::maximum()
        }
    }

    fn channel_mut(&mut self, i: usize) -> (c: &mut C) {
        &mut self.channels[i]
    }
}

/// [Pixel] with two [channel]s in its [color model].
///
/// [channel]: ../chan/trait.Channel.html
/// [color model]: ../trait.ColorModel.html
/// [pixel]: trait.Pixel.html
#[derive(Copy, Debug, PartialEq)]
pub struct Pix2<C, M, A, G>
where
    C: Channel,
    M: ColorModel,
    A: Alpha,
    G: Gamma,
{
    channels: [C; 2],
    _model: PhantomData<M>,
    _alpha: PhantomData<A>,
    _gamma: PhantomData<G>,
}

impl<C: Channel, M: ColorModel, A: Alpha, G: Gamma> Clone for Pix2<C, M, A, G> {
    fn clone(&self) -> (r: Self)
        ensures
            r == *self,
    {
        *self
    }
}

impl<C: Channel, M: ColorModel, A: Alpha, G: Gamma> Default for Pix2<C, M, A, G> {
    fn default() -> (r: Self)
        ensures
            forall|i: int| 0 <= i < 2 ==> #[trigger] r.chans()[i].value() == 0,
    {
        Self::zero()
    }
}

impl<C: Channel, M: ColorModel, A: Alpha, G: Gamma> Pix2<C, M, A, G> {
    /// Convert from a pixel with a different bit depth (and the same color
    /// model).
    pub fn from_bit_depth<P: Pixel>(p: P) -> (r: Self)
        requires
            P::Model::model_id() == M::model_id(),
        ensures
            holds(r, depth_quad::<P::Chan, C>(quad(p))),
    {
        from_bit_depth::<Self, P>(p)
    }

    /// Convert a pixel to another format.
    ///
    /// * `D` Destination format.
    pub fn convert<D: Pixel>(self) -> (r: D)
        requires
            convert_supported::<Self, D>(),
        ensures
            holds(r, convert_quad::<Self, D>(self)),
    {
        convert::<Self, D>(self)
    }

    /// Create a two-channel color from raw channel values.
    pub fn new(one: C::Raw, two: C::Raw) -> (p: Self)
        ensures
            p.chans()[0].value() == C::raw_value(one),
            p.chans()[1].value() == C::raw_value(two),
    {
        let channels = [C::from_raw(one), C::from_raw(two)];
        Pix2 { channels, _model: PhantomData, _alpha: PhantomData, _gamma: PhantomData }
    }

    /// Create a two-channel color from channels.
    pub fn with_channels(one: C, two: C) -> (p: Self)
        ensures
            p.chans() == seq![one, two],
    {
        let channels = [one, two];
        Pix2 { channels, _model: PhantomData, _alpha: PhantomData, _gamma: PhantomData }
    }
}

impl<C: Channel, M: ColorModel, A: Alpha, G: Gamma> Pixel for Pix2<C, M, A, G> {
    type Chan = C;
    type Model = M;
    type Alpha = A;
    type Gamma = G;

    closed spec fn chans(self) -> Seq<C> {
        self.channels@
    }

    open spec fn count() -> nat {
        2
    }

    proof fn lemma_count(p: Self) {
    }

    proof fn lemma_count_range() {
    }

    fn channel_count() -> (n: usize) {
        2
    }

    fn zero() -> (p: Self) {
        let z = C::minimum();
        let channels = [z, z];
        Pix2 { channels, _model: PhantomData, _alpha: PhantomData, _gamma: PhantomData }
    }

    fn from_channels(ch: &[C]) -> (p: Self) {
        let channels = [ch[0], ch[1]];
        let p = Pix2 { channels, _model: PhantomData, _alpha: PhantomData, _gamma: PhantomData };
        assert(p.chans() =~= ch@.take(2));
        p
    }

    fn channels(&self) -> (r: &[C]) {
        self.channels.as_slice()
    }

    fn one(self) -> (c: C) {
        self.channels[0]
    }

    fn two(self) -> (c: C) {
        self.channels[1]
    }

    fn three(self) -> (c: C) {
        C::maximum()
    }

    fn four(self) -> (c: C) {
        C::maximum()
    }

    fn alpha(self) -> (c: C) {
        let i = M::alpha_channel();
        if i < 2 {
            self.channels[i]
        } else {
            C::maximum()
        }
    }

    fn channel_mut(&mut self, i: usize) -> (c: &mut C) {
        &mut self.channels[i]
    }
}

/// [Pixel] with three [channel]s in its [color model].
///
/// [channel]: ../chan/trait.Channel.html
/// [color model]: ../trait.ColorModel.html
/// [pixel]: trait.Pixel.html
#[derive(Copy, Debug, PartialEq)]
pub struct Pix3<C, M, A, G>
where
    C: Channel,
    M: ColorModel,
    A: Alpha,
    G: Gamma,
{
    channels: [C; 3],
    _model: PhantomData<M>,
    _alpha: PhantomData<A>,
    _gamma: PhantomData<G>,
}

impl<C: Channel, M: ColorModel, A: Alpha, G: Gamma> Clone for Pix3<C, M, A, G> {
    fn clone(&self) -> (r: Self)
        ensures
            r == *self,
    {
        *self
    }
}

impl<C: Channel, M: ColorModel, A: Alpha, G: Gamma> Default for Pix3<C, M, A, G> {
    fn default() -> (r: Self)
        ensures
            forall|i: int| 0 <= i < 3 ==> #[trigger] r.chans()[i].value() == 0,
    {
        Self::zero()
    }
}

impl<C: Channel, M: ColorModel, A: Alpha, G: Gamma> Pix3<C, M, A, G> {
    /// Convert from a pixel with a different bit depth (and the same color
    /// model).
    pub fn from_bit_depth<P: Pixel>(p: P) -> (r: Self)
        requires
            P::Model::model_id() == M::model_id(),
        ensures
            holds(r, depth_quad::<P::Chan, C>(quad(p))),
    {
        from_bit_depth::<Self, P>(p)
    }

    /// Convert a pixel to another format.
    ///
    /// * `D` Destination format.
    pub fn convert<D: Pixel>(self) -> (r: D)
        requires
            convert_supported::<Self, D>(),
        ensures
            holds(r, convert_quad::<Self, D>(self)),
    {
        convert::<Self, D>(self)
    }

    /// Create a three-channel color from raw channel values.
    pub fn new(one: C::Raw, two: C::Raw, three: C::Raw) -> (p: Self)
        ensures
            p.chans()[0].value() == C::raw_value(one),
            p.chans()[1].value() == C::raw_value(two),
            p.chans()[2].value() == C::raw_value(three),
    {
        let channels = [C::from_raw(one), C::from_raw(two), C::from_raw(three)];
        Pix3 { channels, _model: PhantomData, _alpha: PhantomData, _gamma: PhantomData }
    }

    /// Create a three-channel color from channels.
    pub fn with_channels(one: C, two: C, three: C) -> (p: Self)
        ensures
            p.chans() == seq![one, two, three],
    {
        let channels = [one, two, three];
        Pix3 { channels, _model: PhantomData, _alpha: PhantomData, _gamma: PhantomData }
    }
}

impl<C: Channel, M: ColorModel, A: Alpha, G: Gamma> Pixel for Pix3<C, M, A, G> {
    type Chan = C;
    type Model = M;
    type Alpha = A;
    type Gamma = G;

    closed spec fn chans(self) -> Seq<C> {
        self.channels@
    }

    open spec fn count() -> nat {
        3
    }

    proof fn lemma_count(p: Self) {
    }

    proof fn lemma_count_range() {
    }

    fn channel_count() -> (n: usize) {
        3
    }

    fn zero() -> (p: Self) {
        let z = C::minimum();
        let channels = [z, z, z];
        Pix3 { channels, _model: PhantomData, _alpha: PhantomData, _gamma: PhantomData }
    }

    fn from_channels(ch: &[C]) -> (p: Self) {
        let channels = [ch[0], ch[1], ch[2]];
        let p = Pix3 { channels, _model: PhantomData, _alpha: PhantomData, _gamma: PhantomData };
        assert(p.chans() =~= ch@.take(3));
        p
    }

    fn channels(&self) -> (r: &[C]) {
        self.channels.as_slice()
    }

    fn one(self) -> (c: C) {
        self.channels[0]
    }

    fn two(self) -> (c: C) {
        self.channels[1]
    }

    fn three(self) -> (c: C) {
        self.channels[2]
    }

    fn four(self) -> (c: C) {
        C::maximum()
    }

    fn alpha(self) -> (c: C) {
        let i = M::alpha_channel();
        if i < 3 {
            self.channels[i]
        } else {
            C::maximum()
        }
    }

    fn channel_mut(&mut self, i: usize) -> (c: &mut C) {
        &mut self.channels[i]
    }
}

/// [Pixel] with four [channel]s in its [color model].
///
/// [channel]: ../chan/trait.Channel.html
/// [color model]: ../trait.ColorModel.html
/// [pixel]: trait.Pixel.html
#[derive(Copy, Debug, PartialEq)]
pub struct Pix4<C, M, A, G>
where
    C: Channel,
    M: ColorModel,
    A: Alpha,
    G: Gamma,
{
    channels: [C; 4],
    _model: PhantomData<M>,
    _alpha: PhantomData<A>,
    _gamma: PhantomData<G>,
}

impl<C: Channel, M: ColorModel, A: Alpha, G: Gamma> Clone for Pix4<C, M, A, G> {
    fn clone(&self) -> (r: Self)
        ensures
            r == *self,
    {
        *self
    }
}

impl<C: Channel, M: ColorModel, A: Alpha, G: Gamma> Default for Pix4<C, M, A, G> {
    fn default() -> (r: Self)
        ensures
            forall|i: int| 0 <= i < 4 ==> #[trigger] r.chans()[i].value() == 0,
    {
        Self::zero()
    }
}

impl<C: Channel, M: ColorModel, A: Alpha, G: Gamma> Pix4<C, M, A, G> {
    /// Convert from a pixel with a different bit depth (and the same color
    /// model).
    pub fn from_bit_depth<P: Pixel>(p: P) -> (r: Self)
        requires
            P::Model::model_id() == M::model_id(),
        ensures
            holds(r, depth_quad::<P::Chan, C>(quad(p))),
    {
        from_bit_depth::<Self, P>(p)
    }

    /// Convert a pixel to another format.
    ///
    /// * `D` Destination format.
    pub fn convert<D: Pixel>(self) -> (r: D)
        requires
            convert_supported::<Self, D>(),
        ensures
            holds(r, convert_quad::<Self, D>(self)),
    {
        convert::<Self, D>(self)
    }

    /// Create a four-channel color from raw channel values.
    pub fn new(one: C::Raw, two: C::Raw, three: C::Raw, four: C::Raw) -> (p: Self)
        ensures
            p.chans()[0].value() == C::raw_value(one),
            p.chans()[1].value() == C::raw_value(two),
            p.chans()[2].value() == C::raw_value(three),
            p.chans()[3].value() == C::raw_value(four),
    {
        let channels = [C::from_raw(one), C::from_raw(two), C::from_raw(three), C::from_raw(four)];
        Pix4 { channels, _model: PhantomData, _alpha: PhantomData, _gamma: PhantomData }
    }

    /// Create a four-channel color from channels.
    pub fn with_channels(one: C, two: C, three: C, four: C) -> (p: Self)
        ensures
            p.chans() == seq![one, two, three, four],
    {
        let channels = [one, two, three, four];
        Pix4 { channels, _model: PhantomData, _alpha: PhantomData, _gamma: PhantomData }
    }
}

impl<C: Channel, M: ColorModel, A: Alpha, G: Gamma> Pixel for Pix4<C, M, A, G> {
    type Chan = C;
    type Model = M;
    type Alpha = A;
    type Gamma = G;

    closed spec fn chans(self) -> Seq<C> {
        self.channels@
    }

    open spec fn count() -> nat {
        4
    }

    proof fn lemma_count(p: Self) {
    }

    proof fn lemma_count_range() {
    }

    fn channel_count() -> (n: usize) {
        4
    }

    fn zero() -> (p: Self) {
        let z = C::minimum();
        let channels = [z, z, z, z];
        Pix4 { channels, _model: PhantomData, _alpha: PhantomData, _gamma: PhantomData }
    }

    fn from_channels(ch: &[C]) -> (p: Self) {
        let channels = [ch[0], ch[1], ch[2], ch[3]];
        let p = Pix4 { channels, _model: PhantomData, _alpha: PhantomData, _gamma: PhantomData };
        assert(p.chans() =~= ch@.take(4));
        p
    }

    fn channels(&self) -> (r: &[C]) {
        self.channels.as_slice()
    }

    fn one(self) -> (c: C) {
        self.channels[0]
    }

    fn two(self) -> (c: C) {
        self.channels[1]
    }

    fn three(self) -> (c: C) {
        self.channels[2]
    }

    fn four(self) -> (c: C) {
        self.channels[3]
    }

    fn alpha(self) -> (c: C) {
        let i = M::alpha_channel();
        if i < 4 {
            self.channels[i]
        } else {
            C::maximum()
        }
    }

    fn channel_mut(&mut self, i: usize) -> (c: &mut C) {
        &mut self.channels[i]
    }
}

/// Convert a pixel to format `D` from a pixel with a different bit depth
/// (and the same color model).
pub fn from_bit_depth<D: Pixel, P: Pixel>(p: P) -> (r: D)
    requires
        P::Model::model_id() == D::Model::model_id(),
    ensures
        holds(r, depth_quad::<P::Chan, D::Chan>(quad(p))),
{
    proof {
        D::lemma_count_range();
        P::lemma_count(p);
    }
    let q = [
        D::Chan::from_wide(p.one().to_wide()),
        D::Chan::from_wide(p.two().to_wide()),
        D::Chan::from_wide(p.three().to_wide()),
        D::Chan::from_wide(p.four().to_wide()),
    ];
    let r = D::from_channels(q.as_slice());
    proof {
        D::lemma_count(r);
    }
    r
}

/// Do the alpha or gamma modes of two pixel formats differ?
fn differ_in_modes<S: Pixel, D: Pixel>() -> (b: bool)
    ensures
        b == modes_differ::<S, D>(),
{
    S::Alpha::is_premultiplied() != D::Alpha::is_premultiplied() || S::Gamma::is_srgb()
        != D::Gamma::is_srgb()
}

/// Four channels converted to the bit depth of `D`.
fn depth_channels<S: Pixel, D: Pixel>(q: [S::Chan; 4]) -> (r: [D::Chan; 4])
    ensures
        quad_values(r) == depth_quad::<S::Chan, D::Chan>(quad_values(q)),
{
    let r = [
        D::Chan::from_wide(q[0].to_wide()),
        D::Chan::from_wide(q[1].to_wide()),
        D::Chan::from_wide(q[2].to_wide()),
        D::Chan::from_wide(q[3].to_wide()),
    ];
    assert(quad_values(r) =~= depth_quad::<S::Chan, D::Chan>(quad_values(q)));
    r
}

/// Convert *alpha* / *gamma* of four channels (with channel type of `D`) from
/// the modes of `S` to those of `D`.
///
/// * `lin` Range of linear channels.
/// * `ai` Alpha channel number.
fn convert_alpha_gamma<S: Pixel, D: Pixel>(
    q: [D::Chan; 4],
    lin: (usize, usize),
    ai: usize,
) -> (r: [D::Chan; 4])
    requires
        lin.0 <= lin.1 <= ai <= 3,
        gamma_supported::<D::Chan>(S::Gamma::srgb()),
        gamma_supported::<D::Chan>(D::Gamma::srgb()),
    ensures
        quad_values(r) == alpha_gamma_quad::<D::Chan>(
            quad_values(q),
            (lin.0 as nat, lin.1 as nat),
            ai as nat,
            S::Gamma::srgb(),
            D::Gamma::srgb(),
            S::Alpha::premultiplied(),
            D::Alpha::premultiplied(),
        ),
{
    let ghost q0 = quad_values(q);
    let ghost l = (lin.0 as nat, lin.1 as nat);
    let ghost q1 = Seq::new(
        4,
        |j: int|
            if in_range(j, l) {
                gamma_to_linear_value::<D::Chan>(S::Gamma::srgb(), q0[j])
            } else {
                q0[j]
            },
    );
    let mut q = q;
    let mut i = lin.0;
    while i < lin.1
        invariant
            lin.0 <= i <= lin.1 <= ai <= 3,
            l == (lin.0 as nat, lin.1 as nat),
            gamma_supported::<D::Chan>(S::Gamma::srgb()),
            q1 == Seq::new(
                4,
                |j: int|
                    if in_range(j, l) {
                        gamma_to_linear_value::<D::Chan>(S::Gamma::srgb(), q0[j])
                    } else {
                        q0[j]
                    },
            ),
            forall|j: int|
                0 <= j < 4 ==> #[trigger] q[j].value() == (if lin.0 <= j < i {
                    q1[j]
                } else {
                    q0[j]
                }),
        decreases lin.1 - i,
    {
        let v = S::Gamma::to_linear(q[i]);
        q[i] = v.unwrap();
        i += 1;
    }
    let a = q[ai];
    let ghost av = q1[ai as int];
    let ghost premul_differ = S::Alpha::premultiplied() != D::Alpha::premultiplied();
    let ghost q2 = Seq::new(
        4,
        |j: int|
            if in_range(j, l) && premul_differ {
                alpha_encode_value::<D::Chan>(
                    D::Alpha::premultiplied(),
                    alpha_decode_value::<D::Chan>(S::Alpha::premultiplied(), q1[j], av),
                    av,
                )
            } else {
                q1[j]
            },
    );
    if S::Alpha::is_premultiplied() != D::Alpha::is_premultiplied() {
        let mut i = lin.0;
        while i < lin.1
            invariant
                lin.0 <= i <= lin.1 <= ai <= 3,
                l == (lin.0 as nat, lin.1 as nat),
                premul_differ,
                a.value() == av,
                q2 == Seq::new(
                    4,
                    |j: int|
                        if in_range(j, l) && premul_differ {
                            alpha_encode_value::<D::Chan>(
                                D::Alpha::premultiplied(),
                                alpha_decode_value::<D::Chan>(S::Alpha::premultiplied(), q1[j], av),
                                av,
                            )
                        } else {
                            q1[j]
                        },
                ),
                forall|j: int|
                    0 <= j < 4 ==> #[trigger] q[j].value() == (if lin.0 <= j < i {
                        q2[j]
                    } else {
                        q1[j]
                    }),
            decreases lin.1 - i,
        {
            let c = S::Alpha::decode(q[i], a);
            q[i] = D::Alpha::encode(c, a);
            i += 1;
        }
    }
    assert forall|j: int| 0 <= j < 4 implies #[trigger] q[j].value() == q2[j] by {
    }
    let ghost q3 = Seq::new(
        4,
        |j: int|
            if in_range(j, l) {
                gamma_from_linear_value::<D::Chan>(D::Gamma::srgb(), q2[j])
            } else {
                q2[j]
            },
    );
    let mut i = lin.0;
    while i < lin.1
        invariant
            lin.0 <= i <= lin.1 <= ai <= 3,
            l == (lin.0 as nat, lin.1 as nat),
            gamma_supported::<D::Chan>(D::Gamma::srgb()),
            q3 == Seq::new(
                4,
                |j: int|
                    if in_range(j, l) {
                        gamma_from_linear_value::<D::Chan>(D::Gamma::srgb(), q2[j])
                    } else {
                        q2[j]
                    },
            ),
            forall|j: int|
                0 <= j < 4 ==> #[trigger] q[j].value() == (if lin.0 <= j < i {
                    q3[j]
                } else {
                    q2[j]
                }),
        decreases lin.1 - i,
    {
        let v = D::Gamma::from_linear(q[i]);
        q[i] = v.unwrap();
        i += 1;
    }
    assert(quad_values(q) =~= q3);
    q
}

/// Convert a pixel to another format with the same color model.
///
/// * `D` Destination pixel format.
/// * `S` Source pixel format.
/// * `src` Source pixel.
fn convert_same_model<D: Pixel, S: Pixel>(src: S) -> (r: D)
    requires
        S::Model::model_id() == D::Model::model_id(),
        modes_supported::<S, D>(),
    ensures
        holds(r, same_model_quad::<S, D>(src)),
{
    proof {
        D::Model::lemma_layout();
        D::lemma_count_range();
        S::lemma_count(src);
    }
    let q = [src.one(), src.two(), src.three(), src.four()];
    assert(quad_values(q) =~= quad(src));
    let mut d = depth_channels::<S, D>(q);
    if differ_in_modes::<S, D>() {
        d = convert_alpha_gamma::<S, D>(d, D::Model::linear_range(), D::Model::alpha_channel());
    }
    let r = D::from_channels(d.as_slice());
    proof {
        D::lemma_count(r);
    }
    r
}

/// Convert a pixel to another format thru RGBA.
///
/// * `D` Destination pixel format.
/// * `S` Source pixel format.
/// * `src` Source pixel.
fn convert_thru_rgba<D: Pixel, S: Pixel>(src: S) -> (r: D)
    requires
        S::Model::into_rgba_exact(),
        D::Model::from_rgba_exact(),
        modes_supported::<S, D>(),
    ensures
        holds(r, thru_rgba_quad::<S, D>(src)),
{
    proof {
        D::lemma_count_range();
        S::lemma_count(src);
    }
    let q = [src.one(), src.two(), src.three(), src.four()];
    assert(quad_values(q) =~= quad(src));
    let rgba = S::Model::into_rgba(q, src.alpha()).unwrap();
    let mut d = depth_channels::<S, D>(rgba);
    if differ_in_modes::<S, D>() {
        d = convert_alpha_gamma::<S, D>(d, (0, 3), 3);
    }
    let out = D::Model::from_rgba(d).unwrap();
    let r = D::from_channels(out.as_slice());
    proof {
        D::lemma_count(r);
    }
    r
}

/// Convert a pixel to another format.
///
/// Where both formats have the same color model, bit depth, alpha and gamma
/// are converted; otherwise the pixel goes through *red*, *green*, *blue*
/// and *alpha*.
///
/// * `S` Source format.
/// * `D` Destination format.
pub fn convert<S: Pixel, D: Pixel>(src: S) -> (r: D)
    requires
        convert_supported::<S, D>(),
    ensures
        holds(r, convert_quad::<S, D>(src)),
{
    if S::Model::id() == D::Model::id() {
        convert_same_model::<D, S>(src)
    } else {
        convert_thru_rgba::<D, S>(src)
    }
}

/// Converting four channel values to the same channel type leaves them as
/// they are.
pub proof fn lemma_depth_quad_same<C: Channel>(q: Seq<nat>)
    requires
        q.len() == 4,
        forall|i: int| 0 <= i < 4 ==> #[trigger] q[i] <= C::max_value(),
    ensures
        depth_quad::<C, C>(q) == q,
{
    assert forall|i: int| 0 <= i < 4 implies #[trigger] depth_quad::<C, C>(q)[i] == q[i] by {
        C::lemma_depth_round_trip(q[i]);
    }
    assert(depth_quad::<C, C>(q) =~= q);
}

/// The channel values of a pixel are at most the channel maximum.
pub proof fn lemma_quad_bounded<P: Pixel>(p: P)
    ensures
        quad(p).len() == 4,
        forall|i: int| 0 <= i < 4 ==> #[trigger] quad(p)[i] <= P::Chan::max_value(),
{
    P::lemma_count(p);
    assert forall|i: int| 0 <= i < 4 implies #[trigger] quad(p)[i] <= P::Chan::max_value() by {
        P::Chan::lemma_bounded(p.chans()[0]);
        if i < P::count() {
            P::Chan::lemma_bounded(p.chans()[i]);
        }
    }
}

/// Converting a pixel to its own format gives back its channels.
pub proof fn lemma_convert_same_format<P: Pixel>(p: P)
    ensures
        convert_supported::<P, P>(),
        forall|i: int| 0 <= i < P::count() ==> #[trigger] convert_quad::<P, P>(p)[i] == quad(p)[i],
{
    lemma_quad_bounded(p);
    lemma_depth_quad_same::<P::Chan>(quad(p));
}

} // verus!
