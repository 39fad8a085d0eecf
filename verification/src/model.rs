// Color models.
use vstd::prelude::*;
use crate::chan::Channel;

verus! {

/// Values of four channels, read as `[C; 4]`.
pub open spec fn quad_values<C: Channel>(q: [C; 4]) -> Seq<nat> {
    seq![q[0].value(), q[1].value(), q[2].value(), q[3].value()]
}

/// Model for pixel colors.
///
/// A model fixes how the channels of a pixel are laid out: which of them are
/// circular (hue), which are linear, and which one is *alpha*.  Models that
/// can be converted to and from *red*, *green*, *blue*, *alpha* with integer
/// arithmetic do so here; the others do it in floating point, which this
/// library does not carry, and report that they cannot.
pub trait ColorModel: Copy + Sized {
    /// Number that tells the model apart from every other model.
    spec fn model_id() -> nat;

    /// Range of circular channel numbers.
    spec fn circular() -> (nat, nat);

    /// Range of linear channel numbers.
    spec fn linear() -> (nat, nat);

    /// Alpha channel number.
    spec fn alpha_index() -> nat;

    /// Whether the model converts into RGBA with integer arithmetic.
    spec fn into_rgba_exact() -> bool;

    /// Whether the model converts from RGBA with integer arithmetic.
    spec fn from_rgba_exact() -> bool;

    /// RGBA values of a color with channel values `q` (four of them, *one*
    /// where the pixel has fewer), *alpha* `alpha`, and channel maximum `max`.
    /// Empty where the model does not convert in integer arithmetic.
    spec fn into_rgba_value(q: Seq<nat>, alpha: nat, max: nat) -> Seq<nat>;

    /// Channel values (in model order) of a color with RGBA values `rgba`.
    /// Empty where the model does not convert in integer arithmetic.
    spec fn from_rgba_value(rgba: Seq<nat>, max: nat) -> Seq<nat>;

    /// The layout puts the linear range before the alpha channel, inside the
    /// first four channels.
    proof fn lemma_layout()
        ensures
            Self::circular().0 <= Self::circular().1 <= Self::linear().0,
            Self::linear().0 <= Self::linear().1 <= Self::alpha_index() <= 3,
    ;

    /// Model identity.
    fn id() -> (r: u8)
        ensures
            r as nat == Self::model_id(),
    ;

    /// Range of circular channel numbers.
    fn circular_range() -> (r: (usize, usize))
        ensures
            r.0 as nat == Self::circular().0,
            r.1 as nat == Self::circular().1,
    ;

    /// Range of linear channel numbers.
    fn linear_range() -> (r: (usize, usize))
        ensures
            r.0 as nat == Self::linear().0,
            r.1 as nat == Self::linear().1,
    ;

    /// Alpha channel number.
    fn alpha_channel() -> (r: usize)
        ensures
            r as nat == Self::alpha_index(),
    ;

    /// Convert into *red*, *green*, *blue* and *alpha* components.
    ///
    /// * `q` The first four channels (*one* where the pixel has fewer).
    /// * `alpha` The *alpha* channel.
    fn into_rgba<C: Channel>(q: [C; 4], alpha: C) -> (r: Option<[C; 4]>)
        ensures
            r is Some <==> Self::into_rgba_exact(),
            r matches Some(v) ==> quad_values(v) == Self::into_rgba_value(
                quad_values(q),
                alpha.value(),
                C::max_value(),
            ),
    ;

    /// Convert from *red*, *green*, *blue* and *alpha* components, giving
    /// the channels in model order.
    fn from_rgba<C: Channel>(rgba: [C; 4]) -> (r: Option<[C; 4]>)
        ensures
            r is Some <==> Self::from_rgba_exact(),
            r matches Some(v) ==> quad_values(v) == Self::from_rgba_value(
                quad_values(rgba),
                C::max_value(),
            ),
    ;
}

} // verus!
