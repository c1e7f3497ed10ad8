//! The per-scalar-type element codec: each supported primitive type knows
//! its kind and appends its little-endian byte representation to a sink.

use vstd::prelude::*;
use vstd::bytes::{
    spec_u16_to_le_bytes, spec_u32_to_le_bytes, spec_u64_to_le_bytes,
    u16_to_le_bytes, u32_to_le_bytes, u64_to_le_bytes,
    lemma_auto_spec_u16_to_from_le_bytes, lemma_auto_spec_u32_to_from_le_bytes,
    lemma_auto_spec_u64_to_from_le_bytes,
};
use crate::dtype::ElemKind;
use crate::header::push_all;

verus! {

/// One encodable scalar: a fixed element kind plus a little-endian byte
/// representation of exactly that kind's width.
pub trait NumpyArrayElement: Sized {
    /// The element kind this type encodes as.
    spec fn kind_spec() -> ElemKind;

    /// The little-endian bytes this value encodes to.
    spec fn le_bytes_spec(&self) -> Seq<u8>;

    /// Every value encodes to exactly its kind's byte width.
    proof fn lemma_encoded_width(&self)
        ensures
            self.le_bytes_spec().len() == Self::kind_spec().width(),
    ;

    /// The element kind, as a runtime value.
    fn elem_kind() -> (k: ElemKind)
        ensures
            k == Self::kind_spec(),
    ;

    /// Appends this value's little-endian byte representation to `out`.
    fn encode_npy_element(&self, out: &mut Vec<u8>)
        ensures
            final(out)@ == old(out)@ + self.le_bytes_spec(),
    ;
}

impl NumpyArrayElement for u8 {
    open spec fn kind_spec() -> ElemKind {
        ElemKind::U8
    }

    open spec fn le_bytes_spec(&self) -> Seq<u8> {
        seq![*self]
    }

    proof fn lemma_encoded_width(&self) {
    }

    fn elem_kind() -> ElemKind {
        ElemKind::U8
    }

    fn encode_npy_element(&self, out: &mut Vec<u8>) {
        out.push(*self);
        proof {
            assert(out@ =~= old(out)@ + self.le_bytes_spec());
        }
    }
}

impl NumpyArrayElement for u16 {
    open spec fn kind_spec() -> ElemKind {
        ElemKind::U16
    }

    open spec fn le_bytes_spec(&self) -> Seq<u8> {
        spec_u16_to_le_bytes(*self)
    }

    proof fn lemma_encoded_width(&self) {
        lemma_auto_spec_u16_to_from_le_bytes();
    }

    fn elem_kind() -> ElemKind {
        ElemKind::U16
    }

    fn encode_npy_element(&self, out: &mut Vec<u8>) {
        let bytes = u16_to_le_bytes(*self);
        push_all(out, &bytes);
    }
}

impl NumpyArrayElement for u32 {
    open spec fn kind_spec() -> ElemKind {
        ElemKind::U32
    }

    open spec fn le_bytes_spec(&self) -> Seq<u8> {
        spec_u32_to_le_bytes(*self)
    }

    proof fn lemma_encoded_width(&self) {
        lemma_auto_spec_u32_to_from_le_bytes();
    }

    fn elem_kind() -> ElemKind {
        ElemKind::U32
    }

    fn encode_npy_element(&self, out: &mut Vec<u8>) {
        let bytes = u32_to_le_bytes(*self);
        push_all(out, &bytes);
    }
}

impl NumpyArrayElement for u64 {
    open spec fn kind_spec() -> ElemKind {
        ElemKind::U64
    }

    open spec fn le_bytes_spec(&self) -> Seq<u8> {
        spec_u64_to_le_bytes(*self)
    }

    proof fn lemma_encoded_width(&self) {
        lemma_auto_spec_u64_to_from_le_bytes();
    }

    fn elem_kind() -> ElemKind {
        ElemKind::U64
    }

    fn encode_npy_element(&self, out: &mut Vec<u8>) {
        let bytes = u64_to_le_bytes(*self);
        push_all(out, &bytes);
    }
}

impl NumpyArrayElement for i8 {
    open spec fn kind_spec() -> ElemKind {
        ElemKind::I8
    }

    open spec fn le_bytes_spec(&self) -> Seq<u8> {
        seq![*self as u8]
    }

    proof fn lemma_encoded_width(&self) {
    }

    fn elem_kind() -> ElemKind {
        ElemKind::I8
    }

    fn encode_npy_element(&self, out: &mut Vec<u8>) {
        out.push(*self as u8);
        proof {
            assert(out@ =~= old(out)@ + self.le_bytes_spec());
        }
    }
}

impl NumpyArrayElement for i16 {
    open spec fn kind_spec() -> ElemKind {
        ElemKind::I16
    }

    open spec fn le_bytes_spec(&self) -> Seq<u8> {
        spec_u16_to_le_bytes(*self as u16)
    }

    proof fn lemma_encoded_width(&self) {
        lemma_auto_spec_u16_to_from_le_bytes();
    }

    fn elem_kind() -> ElemKind {
        ElemKind::I16
    }

    fn encode_npy_element(&self, out: &mut Vec<u8>) {
        let bytes = u16_to_le_bytes(*self as u16);
        push_all(out, &bytes);
    }
}

impl NumpyArrayElement for i32 {
    open spec fn kind_spec() -> ElemKind {
        ElemKind::I32
    }

    open spec fn le_bytes_spec(&self) -> Seq<u8> {
        spec_u32_to_le_bytes(*self as u32)
    }

    proof fn lemma_encoded_width(&self) {
        lemma_auto_spec_u32_to_from_le_bytes();
    }

    fn elem_kind() -> ElemKind {
        ElemKind::I32
    }

    fn encode_npy_element(&self, out: &mut Vec<u8>) {
        let bytes = u32_to_le_bytes(*self as u32);
        push_all(out, &bytes);
    }
}

impl NumpyArrayElement for i64 {
    open spec fn kind_spec() -> ElemKind {
        ElemKind::I64
    }

    open spec fn le_bytes_spec(&self) -> Seq<u8> {
        spec_u64_to_le_bytes(*self as u64)
    }

    proof fn lemma_encoded_width(&self) {
        lemma_auto_spec_u64_to_from_le_bytes();
    }

    fn elem_kind() -> ElemKind {
        ElemKind::I64
    }

    fn encode_npy_element(&self, out: &mut Vec<u8>) {
        let bytes = u64_to_le_bytes(*self as u64);
        push_all(out, &bytes);
    }
}

/// The IEEE 754 bit pattern of a 32-bit float, as `f32::to_bits` gives it.
/// The codec carries floats as raw bit patterns; converting a float to or
/// from its bits is the caller's step.
#[derive(Clone, Copy, PartialEq, Eq, Structural, Debug)]
pub struct F32Bits {
    pub bits: u32,
}

impl NumpyArrayElement for F32Bits {
    open spec fn kind_spec() -> ElemKind {
        ElemKind::F32
    }

    open spec fn le_bytes_spec(&self) -> Seq<u8> {
        spec_u32_to_le_bytes(self.bits)
    }

    proof fn lemma_encoded_width(&self) {
        lemma_auto_spec_u32_to_from_le_bytes();
    }

    fn elem_kind() -> ElemKind {
        ElemKind::F32
    }

    fn encode_npy_element(&self, out: &mut Vec<u8>) {
        let bytes = u32_to_le_bytes(self.bits);
        push_all(out, &bytes);
    }
}

/// The IEEE 754 bit pattern of a 64-bit float, as `f64::to_bits` gives it.
#[derive(Clone, Copy, PartialEq, Eq, Structural, Debug)]
pub struct F64Bits {
    pub bits: u64,
}

impl NumpyArrayElement for F64Bits {
    open spec fn kind_spec() -> ElemKind {
        ElemKind::F64
    }

    open spec fn le_bytes_spec(&self) -> Seq<u8> {
        spec_u64_to_le_bytes(self.bits)
    }

    proof fn lemma_encoded_width(&self) {
        lemma_auto_spec_u64_to_from_le_bytes();
    }

    fn elem_kind() -> ElemKind {
        ElemKind::F64
    }

    fn encode_npy_element(&self, out: &mut Vec<u8>) {
        let bytes = u64_to_le_bytes(self.bits);
        push_all(out, &bytes);
    }
}

/// The concatenated little-endian bytes of a sequence of elements, in
/// sequence order.
pub open spec fn elems_bytes<E: NumpyArrayElement>(es: Seq<E>) -> Seq<u8>
    decreases es.len(),
{
    if es.len() == 0 {
        Seq::<u8>::empty()
    } else {
        es[0].le_bytes_spec() + elems_bytes(es.drop_first())
    }
}

/// Encoding one more element appends exactly its bytes.
pub proof fn lemma_elems_bytes_snoc<E: NumpyArrayElement>(es: Seq<E>, e: E)
    ensures
        elems_bytes(es.push(e)) == elems_bytes(es) + e.le_bytes_spec(),
    decreases es.len(),
{
    if es.len() == 0 {
        assert(es.push(e)[0] == e);
        assert(es.push(e).drop_first() =~= Seq::<E>::empty());
        assert(elems_bytes(es.push(e)) == e.le_bytes_spec() + elems_bytes(Seq::<E>::empty()));
        assert(elems_bytes(Seq::<E>::empty()) == Seq::<u8>::empty());
        assert(e.le_bytes_spec() + Seq::<u8>::empty() =~= e.le_bytes_spec());
        assert(elems_bytes(es) + e.le_bytes_spec() =~= e.le_bytes_spec());
    } else {
        assert(es.push(e).drop_first() =~= es.drop_first().push(e));
        lemma_elems_bytes_snoc(es.drop_first(), e);
        assert(es.push(e)[0] == es[0]);
        assert(elems_bytes(es.push(e)) =~= elems_bytes(es) + e.le_bytes_spec());
    }
}

/// A sequence of `n` elements encodes to exactly `n` times the kind's byte
/// width.
pub proof fn lemma_elems_bytes_len<E: NumpyArrayElement>(es: Seq<E>)
    ensures
        elems_bytes(es).len() == es.len() * E::kind_spec().width(),
    decreases es.len(),
{
    if es.len() == 0 {
    } else {
        es[0].lemma_encoded_width();
        lemma_elems_bytes_len(es.drop_first());
        assert(es.len() * E::kind_spec().width() == E::kind_spec().width() + (es.len() - 1)
            * E::kind_spec().width()) by (nonlinear_arith);
    }
}

} // verus!
