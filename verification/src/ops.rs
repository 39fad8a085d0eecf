// Porter-Duff compositing operations.
use vstd::prelude::*;
use crate::chan::{Channel, saturating_add_value, saturating_sub_value};

verus! {

/// Value of a channel sum (saturating).
pub open spec fn add_v<C: Channel>(a: nat, b: nat) -> nat {
    saturating_add_value(a, b, C::max_value())
}

/// Value of a channel product.
pub open spec fn mul_v<C: Channel>(a: nat, b: nat) -> nat {
    C::mul_value(a, b)
}

/// Value of *one* minus a channel value.
pub open spec fn inv_v<C: Channel>(a: nat) -> nat {
    saturating_sub_value(C::max_value(), a)
}

/// The Porter-Duff operations.
pub enum Op {
    Src,
    Dest,
    SrcOver,
    DestOver,
    SrcOut,
    DestOut,
    SrcIn,
    DestIn,
    SrcAtop,
    DestAtop,
    Xor,
}

/// Value of a destination channel composited with operation `op`.
///
/// * `dst` Destination channel value
/// * `da1` One minus destination *alpha*
/// * `src` Source channel value
/// * `sa1` One minus source *alpha*
pub open spec fn composite_value<C: Channel>(op: Op, dst: nat, da1: nat, src: nat, sa1: nat) -> nat {
    match op {
        Op::Src => src,
        Op::Dest => dst,
        Op::SrcOver => add_v::<C>(src, mul_v::<C>(dst, sa1)),
        Op::DestOver => add_v::<C>(mul_v::<C>(src, da1), dst),
        Op::SrcOut => mul_v::<C>(src, da1),
        Op::DestOut => mul_v::<C>(dst, sa1),
        Op::SrcIn => mul_v::<C>(src, inv_v::<C>(da1)),
        Op::DestIn => mul_v::<C>(dst, inv_v::<C>(sa1)),
        Op::SrcAtop => add_v::<C>(mul_v::<C>(src, inv_v::<C>(da1)), mul_v::<C>(dst, sa1)),
        Op::DestAtop => add_v::<C>(mul_v::<C>(src, da1), mul_v::<C>(dst, inv_v::<C>(sa1))),
        Op::Xor => add_v::<C>(mul_v::<C>(src, da1), mul_v::<C>(dst, sa1)),
    }
}

/// Porter-Duff compositing operation.
pub trait PorterDuff: Copy + Sized {
    /// The operation.
    spec fn operation() -> Op;

    /// Composite a destination and source
    ///
    /// * `dst` Destination channel
    /// * `da1` One minus destination *alpha*
    /// * `src` Source channel
    /// * `sa1` One minus source *alpha*
    fn composite<C: Channel>(dst: &mut C, da1: C, src: &C, sa1: C)
        ensures
            final(dst).value() == composite_value::<C>(
                Self::operation(),
                old(dst).value(),
                da1.value(),
                src.value(),
                sa1.value(),
            ),
    ;
}

/// Source only (ignore destination)
#[derive(Clone, Copy, Debug)]
pub struct Src;

impl PorterDuff for Src {
    open spec fn operation() -> Op {
        Op::Src
    }

    fn composite<C: Channel>(dst: &mut C, da1: C, src: &C, sa1: C) {
        *dst = *src;
    }
}

/// Destination only (ignore source)
#[derive(Clone, Copy, Debug)]
pub struct Dest;

impl PorterDuff for Dest {
    open spec fn operation() -> Op {
        Op::Dest
    }

    fn composite<C: Channel>(dst: &mut C, da1: C, src: &C, sa1: C) {
    }
}

/// Source Over compositing (standard *alpha* blending)
#[derive(Clone, Copy, Debug)]
pub struct SrcOver;

impl PorterDuff for SrcOver {
    open spec fn operation() -> Op {
        Op::SrcOver
    }

    fn composite<C: Channel>(dst: &mut C, da1: C, src: &C, sa1: C) {
        *dst = src.saturating_add(dst.mul_chan(sa1));
    }
}

/// Destination Over compositing (*alpha* blending behind destination)
#[derive(Clone, Copy, Debug)]
pub struct DestOver;

impl PorterDuff for DestOver {
    open spec fn operation() -> Op {
        Op::DestOver
    }

    fn composite<C: Channel>(dst: &mut C, da1: C, src: &C, sa1: C) {
        *dst = src.mul_chan(da1).saturating_add(*dst);
    }
}

/// Source Out compositing (remove destination from source)
#[derive(Clone, Copy, Debug)]
pub struct SrcOut;

impl PorterDuff for SrcOut {
    open spec fn operation() -> Op {
        Op::SrcOut
    }

    fn composite<C: Channel>(dst: &mut C, da1: C, src: &C, sa1: C) {
        *dst = src.mul_chan(da1);
    }
}

/// Destination Out compositing (remove source from destination)
#[derive(Clone, Copy, Debug)]
pub struct DestOut;

impl PorterDuff for DestOut {
    open spec fn operation() -> Op {
        Op::DestOut
    }

    fn composite<C: Channel>(dst: &mut C, da1: C, src: &C, sa1: C) {
        *dst = dst.mul_chan(sa1);
    }
}

/// Source In compositing (mask source with destination *alpha*)
#[derive(Clone, Copy, Debug)]
pub struct SrcIn;

impl PorterDuff for SrcIn {
    open spec fn operation() -> Op {
        Op::SrcIn
    }

    fn composite<C: Channel>(dst: &mut C, da1: C, src: &C, sa1: C) {
        let da = C::maximum().saturating_sub(da1);
        *dst = src.mul_chan(da);
    }
}

/// Destination In compositing (mask destination with source *alpha*)
#[derive(Clone, Copy, Debug)]
pub struct DestIn;

impl PorterDuff for DestIn {
    open spec fn operation() -> Op {
        Op::DestIn
    }

    fn composite<C: Channel>(dst: &mut C, da1: C, src: &C, sa1: C) {
        let sa = C::maximum().saturating_sub(sa1);
        *dst = dst.mul_chan(sa);
    }
}

/// Source Atop compositing (overlay and mask source atop destination)
#[derive(Clone, Copy, Debug)]
pub struct SrcAtop;

impl PorterDuff for SrcAtop {
    open spec fn operation() -> Op {
        Op::SrcAtop
    }

    fn composite<C: Channel>(dst: &mut C, da1: C, src: &C, sa1: C) {
        let da = C::maximum().saturating_sub(da1);
        *dst = src.mul_chan(da).saturating_add(dst.mul_chan(sa1));
    }
}

/// Destination Atop compositing (overlay and mask destination atop source)
#[derive(Clone, Copy, Debug)]
pub struct DestAtop;

impl PorterDuff for DestAtop {
    open spec fn operation() -> Op {
        Op::DestAtop
    }

    fn composite<C: Channel>(dst: &mut C, da1: C, src: &C, sa1: C) {
        let sa = C::maximum().saturating_sub(sa1);
        *dst = src.mul_chan(da1).saturating_add(dst.mul_chan(sa));
    }
}

/// Xor compositing (source or destination with no overlap)
#[derive(Clone, Copy, Debug)]
pub struct Xor;

impl PorterDuff for Xor {
    open spec fn operation() -> Op {
        Op::Xor
    }

    fn composite<C: Channel>(dst: &mut C, da1: C, src: &C, sa1: C) {
        *dst = src.mul_chan(da1).saturating_add(dst.mul_chan(sa1));
    }
}

/// With an opaque source (`sa1` is *zero*), *source over* gives the source
/// and *destination out* clears the destination; with an opaque destination
/// (`da1` is *zero*), *destination over* gives the destination and *source
/// out* gives *zero*.
pub proof fn lemma_opaque_operands<C: Channel>(dst: nat, src: nat, da1: nat, sa1: nat)
    requires
        dst <= C::max_value(),
        src <= C::max_value(),
    ensures
        composite_value::<C>(SrcOver::operation(), dst, da1, src, 0) == src,
        composite_value::<C>(DestOut::operation(), dst, da1, src, 0) == 0,
        composite_value::<C>(DestOver::operation(), dst, 0, src, sa1) == dst,
        composite_value::<C>(SrcOut::operation(), dst, 0, src, sa1) == 0,
        composite_value::<C>(Src::operation(), dst, da1, src, sa1) == src,
        composite_value::<C>(Dest::operation(), dst, da1, src, sa1) == dst,
{
    C::lemma_mul_zero(dst);
    C::lemma_mul_zero(src);
}

/// Each compound operation is the (saturating) sum of a part of the source
/// and a part of the destination, as Porter and Duff define them: *source
/// atop* keeps the source where the destination is (*source in*) and the
/// destination where the source is not (*destination out*); *destination
/// atop*, *xor*, *source over* and *destination over* likewise.
pub proof fn lemma_compound_operations<C: Channel>(dst: nat, da1: nat, src: nat, sa1: nat)
    ensures
        composite_value::<C>(SrcAtop::operation(), dst, da1, src, sa1) == saturating_add_value(
            composite_value::<C>(SrcIn::operation(), dst, da1, src, sa1),
            composite_value::<C>(DestOut::operation(), dst, da1, src, sa1),
            C::max_value(),
        ),
        composite_value::<C>(DestAtop::operation(), dst, da1, src, sa1) == saturating_add_value(
            composite_value::<C>(SrcOut::operation(), dst, da1, src, sa1),
            composite_value::<C>(DestIn::operation(), dst, da1, src, sa1),
            C::max_value(),
        ),
        composite_value::<C>(Xor::operation(), dst, da1, src, sa1) == saturating_add_value(
            composite_value::<C>(SrcOut::operation(), dst, da1, src, sa1),
            composite_value::<C>(DestOut::operation(), dst, da1, src, sa1),
            C::max_value(),
        ),
        composite_value::<C>(SrcOver::operation(), dst, da1, src, sa1) == saturating_add_value(
            composite_value::<C>(Src::operation(), dst, da1, src, sa1),
            composite_value::<C>(DestOut::operation(), dst, da1, src, sa1),
            C::max_value(),
        ),
        composite_value::<C>(DestOver::operation(), dst, da1, src, sa1) == saturating_add_value(
            composite_value::<C>(SrcOut::operation(), dst, da1, src, sa1),
            composite_value::<C>(Dest::operation(), dst, da1, src, sa1),
            C::max_value(),
        ),
{
}

/// Over a transparent destination (`da1` is *one*), *source in* and *source
/// atop* leave nothing of the source; over an opaque destination (`da1` is
/// *zero*), *source out* and *xor* leave nothing of the source.
pub proof fn lemma_source_parts<C: Channel>(dst: nat, src: nat, sa1: nat)
    ensures
        composite_value::<C>(SrcIn::operation(), dst, C::max_value(), src, sa1) == 0,
        composite_value::<C>(SrcAtop::operation(), dst, C::max_value(), src, sa1)
            == saturating_add_value(0, C::mul_value(dst, sa1), C::max_value()),
        composite_value::<C>(SrcOut::operation(), dst, 0, src, sa1) == 0,
        composite_value::<C>(Xor::operation(), dst, 0, src, sa1) == saturating_add_value(
            0,
            C::mul_value(dst, sa1),
            C::max_value(),
        ),
{
    C::lemma_mul_zero(src);
}

} // verus!
