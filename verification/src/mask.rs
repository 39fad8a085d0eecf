// Alpha mask color model.
use vstd::prelude::*;
use crate::chan::{Ch16, Ch8, Channel, Linear, Premultiplied, Srgb, Straight};
use crate::el::{Pix1, Pixel, chan_value};
use crate::model::{ColorModel, quad_values};

verus! {

/// Mask [color model].
///
/// The component is *alpha* only, with straight alpha mode.
#[derive(Clone, Copy, Debug, PartialEq, Eq, Structural)]
pub struct Mask {}

impl Mask {
    /// Get the *alpha* component.
    pub fn alpha<P: Pixel<Model = Self>>(p: P) -> (c: P::Chan)
        ensures
            c == p.chans()[0],
            c.value() == chan_value(p, 0),
    {
        proof {
            P::lemma_count(p);
        }
        p.one()
    }
}

impl ColorModel for Mask {
    open spec fn model_id() -> nat {
        11
    }

    open spec fn circular() -> (nat, nat) {
        (0, 0)
    }

    open spec fn linear() -> (nat, nat) {
        (0, 0)
    }

    open spec fn alpha_index() -> nat {
        0
    }

    open spec fn into_rgba_exact() -> bool {
        true
    }

    open spec fn from_rgba_exact() -> bool {
        true
    }

    open spec fn into_rgba_value(q: Seq<nat>, alpha: nat, max: nat) -> Seq<nat> {
        seq![max, max, max, alpha]
    }

    open spec fn from_rgba_value(rgba: Seq<nat>, max: nat) -> Seq<nat> {
        seq![rgba[3], rgba[3], rgba[3], rgba[3]]
    }

    proof fn lemma_layout() {
    }

    fn id() -> (r: u8) {
        11
    }

    fn circular_range() -> (r: (usize, usize)) {
        (0, 0)
    }

    fn linear_range() -> (r: (usize, usize)) {
        (0, 0)
    }

    fn alpha_channel() -> (r: usize) {
        0
    }

    fn into_rgba<C: Channel>(q: [C; 4], alpha: C) -> (r: Option<[C; 4]>) {
        let max = C::maximum();
        Some([max, max, max, alpha])
    }

    fn from_rgba<C: Channel>(rgba: [C; 4]) -> (r: Option<[C; 4]>) {
        Some([rgba[3], rgba[3], rgba[3], rgba[3]])
    }
}

/// Mask 8-bit alpha linear gamma pixel format.
pub type Mask8 = Pix1<Ch8, Mask, Straight, Linear>;

/// Mask 16-bit alpha linear gamma pixel format.
pub type Mask16 = Pix1<Ch16, Mask, Straight, Linear>;

} // verus!
