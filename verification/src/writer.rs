//! The NPY writer: one pass that emits the preamble and then the raw
//! element bytes of any value with an array view.

use vstd::prelude::*;
use crate::array::{shape_product, NumpyArray};
use crate::element::{elems_bytes, lemma_elems_bytes_len, lemma_elems_bytes_snoc, NumpyArrayElement};
use crate::header::{encode_header, header_bytes, header_fits, push_all};

verus! {

/// The complete NPY payload of an array value: the preamble for its
/// element kind and shape, then its elements' little-endian bytes in
/// row-major order.
pub open spec fn array_npy_bytes<A: NumpyArray>(a: &A) -> Seq<u8> {
    header_bytes(<A::Elem as NumpyArrayElement>::kind_spec().tag(), a.shape_spec())
        + elems_bytes(a.elems_spec())
}

/// Anything that encodes to one complete NPY payload.
pub trait NumpyWriter: Sized {
    /// The complete NPY payload this value encodes to.
    spec fn npy_bytes_spec(&self) -> Seq<u8>;

    /// When the payload can be emitted: the value is well formed and its
    /// header text fits the format's 16-bit header-length field.
    spec fn npy_permitted(&self) -> bool;

    /// Appends the full payload — preamble, then element bytes — to `out`.
    fn write_npy(self, out: &mut Vec<u8>)
        requires
            self.npy_permitted(),
        ensures
            final(out)@ == old(out)@ + self.npy_bytes_spec(),
    ;
}

/// Every array-shaped value encodes through the one shared path:
/// preamble from its kind and shape, then its element stream.
impl<A: NumpyArray> NumpyWriter for A {
    open spec fn npy_bytes_spec(&self) -> Seq<u8> {
        array_npy_bytes(self)
    }

    open spec fn npy_permitted(&self) -> bool {
        self.arr_wf() && header_fits(
            <A::Elem as NumpyArrayElement>::kind_spec().tag(),
            self.shape_spec(),
        )
    }

    fn write_npy(self, out: &mut Vec<u8>) {
        let kind = <A::Elem as NumpyArrayElement>::elem_kind();
        let tag = kind.tag_bytes();
        let shape = self.npy_shape();
        let header = encode_header(&tag, &shape);
        push_all(out, &header);
        let ghost mid = old(out)@ + header@;
        let elems = self.npy_elements();
        let ghost ge = elems@;
        let mut i: usize = 0;
        while i < elems.len()
            invariant
                i <= elems.len(),
                elems@ == ge,
                out@ == mid + elems_bytes(ge.take(i as int)),
            decreases elems.len() - i,
        {
            elems[i].encode_npy_element(out);
            proof {
                lemma_elems_bytes_snoc(ge.take(i as int), ge[i as int]);
                assert(ge.take(i as int).push(ge[i as int]) =~= ge.take(i + 1));
                assert(mid + elems_bytes(ge.take(i as int)) + ge[i as int].le_bytes_spec() =~= mid
                    + elems_bytes(ge.take(i + 1)));
            }
            i = i + 1;
        }
        proof {
            assert(ge.take(ge.len() as int) =~= ge);
            assert(out@ =~= old(out)@ + self.npy_bytes_spec());
        }
    }
}

/// Emitting a scalar: the preamble declares the empty shape `()`, its
/// length is a multiple of 64, and exactly one element's worth of bytes
/// follows it.
pub proof fn lemma_scalar_npy_layout<E: NumpyArrayElement>(e: &E)
    ensures
        e.npy_bytes_spec() == header_bytes(E::kind_spec().tag(), Seq::<usize>::empty())
            + e.le_bytes_spec(),
        header_bytes(E::kind_spec().tag(), Seq::<usize>::empty()).len() % 64 == 0,
        e.le_bytes_spec().len() == E::kind_spec().width(),
{
    e.lemma_encoded_width();
    let es = e.elems_spec();
    assert(es.drop_first() =~= Seq::<E>::empty());
    assert(elems_bytes(es) =~= e.le_bytes_spec() + elems_bytes(Seq::<E>::empty()));
    assert(elems_bytes(es) =~= e.le_bytes_spec());
    crate::header::lemma_preamble_aligned(E::kind_spec().tag(), Seq::<usize>::empty());
    lemma_header_bytes_len(E::kind_spec().tag(), Seq::<usize>::empty());
}

/// The preamble's total length is the ten fixed bytes plus the padded
/// header text, and is a multiple of 64 for every tag and shape.
pub proof fn lemma_header_bytes_len(tag: Seq<u8>, shape: Seq<usize>)
    ensures
        header_bytes(tag, shape).len() == 10 + crate::header::padded_header(tag, shape).len(),
        header_bytes(tag, shape).len() % 64 == 0,
{
    vstd::bytes::lemma_auto_spec_u16_to_from_le_bytes();
    crate::header::lemma_preamble_aligned(tag, shape);
}

/// Every array of modest rank may be written: the primitive dtype tags
/// are three bytes, so any shape of at most 100 dimensions keeps the
/// header text within the format's 16-bit length field.
pub proof fn lemma_array_permitted<A: NumpyArray>(a: &A)
    requires
        a.arr_wf(),
        a.shape_spec().len() <= 100,
    ensures
        <A as NumpyWriter>::npy_permitted(a),
{
    assert(<A::Elem as NumpyArrayElement>::kind_spec().tag().len() == 3);
    crate::header::lemma_header_fits(
        <A::Elem as NumpyArrayElement>::kind_spec().tag(),
        a.shape_spec(),
    );
}

/// Re-encoding the same logical array through the owning path and through
/// the referencing (copying) path yields byte-identical output.
pub proof fn lemma_owning_borrowing_agree<T: NumpyArrayElement + Copy>(a: &crate::array::NdArray<T>)
    ensures
        <crate::array::NdArray<T> as NumpyWriter>::npy_bytes_spec(a)
            == <&crate::array::NdArray<T> as NumpyWriter>::npy_bytes_spec(&a),
{
}

/// For every well-formed rank-N array: the payload is the preamble
/// followed by element bytes numbering exactly the dimension product
/// times the element kind's byte width, and the header dictionary
/// reproduces the shape tuple text `d0, d1, ..., dk,` exactly.
pub proof fn lemma_array_npy_byte_count<A: NumpyArray>(a: &A)
    requires
        a.arr_wf(),
    ensures
        a.npy_bytes_spec() == header_bytes(
            <A::Elem as NumpyArrayElement>::kind_spec().tag(),
            a.shape_spec(),
        ) + elems_bytes(a.elems_spec()),
        elems_bytes(a.elems_spec()).len() == shape_product(a.shape_spec())
            * <A::Elem as NumpyArrayElement>::kind_spec().width(),
        crate::header::header_dict_text(
            <A::Elem as NumpyArrayElement>::kind_spec().tag(),
            a.shape_spec(),
        ) == crate::header::dict_prefix() + <A::Elem as NumpyArrayElement>::kind_spec().tag()
            + crate::header::dict_middle() + crate::header::shape_text(a.shape_spec())
            + crate::header::dict_suffix(),
{
    a.lemma_elem_count();
    lemma_elems_bytes_len(a.elems_spec());
}

} // verus!
