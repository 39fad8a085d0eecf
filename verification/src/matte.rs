// Alpha matte color model.
use vstd::prelude::*;
use crate::chan::{Ch16, Ch8, Channel, Linear, Premultiplied, Srgb, Straight};
use crate::el::{Pix1, Pixel, chan_value};
use crate::model::{ColorModel, quad_values};

verus! {

/// Matte [color model].
///
/// The component is *alpha* only.
#[derive(Clone, Copy, Debug, PartialEq, Eq, Structural)]
pub struct Matte {}

impl Matte {
}

impl ColorModel for Matte {
    open spec fn model_id() -> nat {
        7
    }

    open spec fn circular() -> (nat, nat) {
        (0, 0)
    }

    open spec fn linear() -> (nat, nat) {
        (0, 0)
    }

    open spec fn alpha_index() -> nat {
        0
    }

    open spec fn into_rgba_exact() -> bool {
        true
    }

    open spec fn from_rgba_exact() -> bool {
        true
    }

    open spec fn into_rgba_value(q: Seq<nat>, alpha: nat, max: nat) -> Seq<nat> {
        seq![max, max, max, alpha]
    }

    open spec fn from_rgba_value(rgba: Seq<nat>, max: nat) -> Seq<nat> {
        seq![rgba[3], rgba[3], rgba[3], rgba[3]]
    }

    proof fn lemma_layout() {
    }

    fn id() -> (r: u8) {
        7
    }

    fn circular_range() -> (r: (usize, usize)) {
        (0, 0)
    }

    fn linear_range() -> (r: (usize, usize)) {
        (0, 0)
    }

    fn alpha_channel() -> (r: usize) {
        0
    }

    fn into_rgba<C: Channel>(q: [C; 4], alpha: C) -> (r: Option<[C; 4]>) {
        let max = C::maximum();
        Some([max, max, max, alpha])
    }

    fn from_rgba<C: Channel>(rgba: [C; 4]) -> (r: Option<[C; 4]>) {
        Some([rgba[3], rgba[3], rgba[3], rgba[3]])
    }
}

/// Matte 8-bit alpha linear gamma pixel format.
pub type Matte8 = Pix1<Ch8, Matte, Premultiplied, Linear>;

/// Matte 16-bit alpha linear gamma pixel format.
pub type Matte16 = Pix1<Ch16, Matte, Premultiplied, Linear>;

} // verus!
