//! The array abstraction: one shape-plus-element-stream view over bare
//! scalars, flat vectors, and rank-N arrays, so that every rank reuses the
//! same downstream encoding path.

use vstd::prelude::*;
use crate::element::NumpyArrayElement;

verus! {

/// The number of elements a shape calls for: the product of its dimension
/// sizes, 1 for the empty (scalar) shape.
pub open spec fn shape_product(shape: Seq<usize>) -> nat
    decreases shape.len(),
{
    if shape.len() == 0 {
        1
    } else {
        (shape[0] * shape_product(shape.drop_first())) as nat
    }
}

/// Appending one dimension multiplies the element count by it.
pub proof fn lemma_shape_product_snoc(s: Seq<usize>, d: usize)
    ensures
        shape_product(s.push(d)) == shape_product(s) * d,
    decreases s.len(),
{
    if s.len() == 0 {
        assert(s.push(d)[0] == d);
        assert(s.push(d).drop_first() =~= Seq::<usize>::empty());
        assert(shape_product(Seq::<usize>::empty()) == 1);
        assert(shape_product(s.push(d)) == (d as nat) * 1);
        assert((d as nat) * 1 == 1 * (d as nat)) by (nonlinear_arith);
    } else {
        assert(s.push(d).drop_first() =~= s.drop_first().push(d));
        lemma_shape_product_snoc(s.drop_first(), d);
        assert(s.push(d)[0] == s[0]);
        assert((s[0] as nat) * (shape_product(s.drop_first()) * (d as nat)) == ((s[0] as nat)
            * shape_product(s.drop_first())) * (d as nat)) by (nonlinear_arith);
    }
}

/// A dimension of size zero forces an element count of zero.
pub proof fn lemma_shape_product_zero(s: Seq<usize>, j: int)
    requires
        0 <= j < s.len(),
        s[j] == 0,
    ensures
        shape_product(s) == 0,
    decreases s.len(),
{
    if j == 0 {
        assert(shape_product(s) == 0 * shape_product(s.drop_first()));
    } else {
        lemma_shape_product_zero(s.drop_first(), j - 1);
        assert(shape_product(s) == (s[0] as nat) * 0);
        assert((s[0] as nat) * 0 == 0) by (nonlinear_arith);
    }
}

/// The uniform view the writer consumes: a shape and a row-major element
/// stream whose length matches the shape. Rank-0 (a scalar) and rank-N go
/// through the same two methods.
pub trait NumpyArray: Sized {
    type Elem: NumpyArrayElement;

    /// The dimension sizes, outermost first; empty for a scalar.
    spec fn shape_spec(&self) -> Seq<usize>;

    /// The elements, in row-major (last-axis-fastest) order.
    spec fn elems_spec(&self) -> Seq<Self::Elem>;

    /// Structural invariant: the element stream matches the shape.
    spec fn arr_wf(&self) -> bool;

    /// A well-formed array yields exactly as many elements as the product
    /// of its dimension sizes.
    proof fn lemma_elem_count(&self)
        requires
            self.arr_wf(),
        ensures
            self.elems_spec().len() == shape_product(self.shape_spec()),
    ;

    /// The shape, as a runtime vector.
    fn npy_shape(&self) -> (shape: Vec<usize>)
        ensures
            shape@ == self.shape_spec(),
    ;

    /// The elements in row-major order, consuming the value.
    fn npy_elements(self) -> (elems: Vec<Self::Elem>)
        ensures
            elems@ == self.elems_spec(),
    ;
}

/// A bare scalar is the rank-0 array: empty shape, one element.
impl<A: NumpyArrayElement> NumpyArray for A {
    type Elem = A;

    open spec fn shape_spec(&self) -> Seq<usize> {
        Seq::<usize>::empty()
    }

    open spec fn elems_spec(&self) -> Seq<A> {
        seq![*self]
    }

    open spec fn arr_wf(&self) -> bool {
        true
    }

    proof fn lemma_elem_count(&self) {
    }

    fn npy_shape(&self) -> Vec<usize> {
        Vec::new()
    }

    fn npy_elements(self) -> (elems: Vec<A>) {
        let mut elems: Vec<A> = Vec::new();
        elems.push(self);
        elems
    }
}

/// A flat vector is the rank-1 array: one dimension, original order.
impl<A: NumpyArrayElement> NumpyArray for Vec<A> {
    type Elem = A;

    open spec fn shape_spec(&self) -> Seq<usize> {
        seq![self.len()]
    }

    open spec fn elems_spec(&self) -> Seq<A> {
        self@
    }

    open spec fn arr_wf(&self) -> bool {
        true
    }

    proof fn lemma_elem_count(&self) {
        let s = self.shape_spec();
        assert(s.drop_first() =~= Seq::<usize>::empty());
        assert(shape_product(Seq::<usize>::empty()) == 1);
        assert(s[0] == self.len());
        assert(shape_product(s) == (self.len() as nat) * 1);
        assert((self.len() as nat) * 1 == self.len() as nat) by (nonlinear_arith);
    }

    fn npy_shape(&self) -> (shape: Vec<usize>) {
        let mut shape: Vec<usize> = Vec::new();
        shape.push(self.len());
        proof {
            assert(shape@ =~= self.shape_spec());
        }
        shape
    }

    fn npy_elements(self) -> (elems: Vec<A>) {
        self
    }
}

/// An owned rank-N array: dimension sizes plus the elements in row-major
/// order, with the count invariant established at construction.
pub struct NdArray<T> {
    shape: Vec<usize>,
    data: Vec<T>,
}

impl<T> NdArray<T> {
    /// The dimension sizes.
    pub closed spec fn shape_view(&self) -> Seq<usize> {
        self.shape@
    }

    /// The elements in row-major order.
    pub closed spec fn data_view(&self) -> Seq<T> {
        self.data@
    }

    /// The count invariant: exactly as many elements as the shape calls for.
    pub closed spec fn wf(&self) -> bool {
        self.data@.len() == shape_product(self.shape@)
    }

    /// Builds a rank-N array from dimension sizes and row-major elements.
    /// Accepts the input exactly when the element count equals the product
    /// of the dimension sizes.
    pub fn new(shape: Vec<usize>, data: Vec<T>) -> (r: Option<NdArray<T>>)
        ensures
            r is Some <==> data@.len() == shape_product(shape@),
            match r {
                Some(a) => a.shape_view() == shape@ && a.data_view() == data@ && a.wf(),
                None => true,
            },
    {
        let ghost sv = shape@;
        let data_len = data.len();
        let mut has_zero = false;
        let mut i: usize = 0;
        while i < shape.len()
            invariant
                i <= shape.len(),
                shape@ == sv,
                has_zero <==> exists|j: int| 0 <= j < i && sv[j] == 0,
            decreases shape.len() - i,
        {
            if shape[i] == 0 {
                has_zero = true;
            }
            i = i + 1;
        }
        if has_zero {
            proof {
                let j = choose|j: int| 0 <= j < sv.len() && sv[j] == 0;
                lemma_shape_product_zero(sv, j);
            }
            if data_len == 0 {
                Some(NdArray { shape, data })
            } else {
                None
            }
        } else {
            assert(forall|j: int| 0 <= j < sv.len() ==> sv[j] >= 1);
            let mut prod: usize = 1;
            let mut overflow = false;
            let mut k: usize = 0;
            while k < shape.len()
                invariant
                    k <= shape.len(),
                    shape@ == sv,
                    forall|j: int| 0 <= j < sv.len() ==> sv[j] >= 1,
                    !overflow ==> prod == shape_product(sv.take(k as int)),
                    overflow ==> shape_product(sv.take(k as int)) > usize::MAX,
                decreases shape.len() - k,
            {
                let d = shape[k];
                proof {
                    assert(sv.take(k + 1) =~= sv.take(k as int).push(sv[k as int]));
                    lemma_shape_product_snoc(sv.take(k as int), sv[k as int]);
                }
                if !overflow {
                    match prod.checked_mul(d) {
                        Some(p) => {
                            prod = p;
                        },
                        None => {
                            overflow = true;
                        },
                    }
                } else {
                    proof {
                        assert(shape_product(sv.take(k as int)) * (d as nat) >= shape_product(
                            sv.take(k as int)) * 1) by (nonlinear_arith)
                            requires d >= 1;
                    }
                }
                k = k + 1;
            }
            proof {
                assert(sv.take(sv.len() as int) =~= sv);
            }
            if overflow {
                None
            } else if prod == data_len {
                Some(NdArray { shape, data })
            } else {
                None
            }
        }
    }
}

impl<T: NumpyArrayElement> NumpyArray for NdArray<T> {
    type Elem = T;

    open spec fn shape_spec(&self) -> Seq<usize> {
        self.shape_view()
    }

    open spec fn elems_spec(&self) -> Seq<T> {
        self.data_view()
    }

    open spec fn arr_wf(&self) -> bool {
        self.wf()
    }

    proof fn lemma_elem_count(&self) {
    }

    fn npy_shape(&self) -> (shape: Vec<usize>) {
        copy_usizes(&self.shape)
    }

    fn npy_elements(self) -> (elems: Vec<T>) {
        let NdArray { shape: _, data } = self;
        data
    }
}

/// Copies a vector of dimension sizes.
fn copy_usizes(src: &Vec<usize>) -> (r: Vec<usize>)
    ensures
        r@ == src@,
{
    let mut r: Vec<usize> = Vec::new();
    let mut i: usize = 0;
    while i < src.len()
        invariant
            i <= src.len(),
            r@ == src@.take(i as int),
        decreases src.len() - i,
    {
        r.push(src[i]);
        proof {
            assert(r@ =~= src@.take(i + 1));
        }
        i = i + 1;
    }
    proof {
        assert(src@.take(src@.len() as int) =~= src@);
    }
    r
}

/// Iterates a borrowed vector front to back, handing out copies of the
/// elements and leaving the source intact.
pub struct OwnedIter<'a, T> {
    contained: &'a Vec<T>,
    pos: usize,
}

impl<'a, T: Copy> OwnedIter<'a, T> {
    /// The source elements.
    pub closed spec fn src(&self) -> Seq<T> {
        self.contained@
    }

    /// How many elements have been handed out.
    pub closed spec fn at(&self) -> int {
        self.pos as int
    }

    /// Starts at the front of `contained`.
    pub fn new(contained: &'a Vec<T>) -> (it: OwnedIter<'a, T>)
        ensures
            it.src() == contained@,
            it.at() == 0,
    {
        OwnedIter { contained, pos: 0 }
    }

    /// Copies out the next element, or returns `None` past the end.
    pub fn next(&mut self) -> (r: Option<T>)
        ensures
            final(self).src() == old(self).src(),
            old(self).at() < old(self).src().len() ==> r == Some(old(self).src()[old(self).at()])
                && final(self).at() == old(self).at() + 1,
            old(self).at() >= old(self).src().len() ==> r is None && final(self).at() == old(
                self).at(),
    {
        if self.pos < self.contained.len() {
            let v = self.contained[self.pos];
            self.pos = self.pos + 1;
            Some(v)
        } else {
            None
        }
    }
}

/// The referencing (non-consuming) path over a rank-N array: same shape,
/// same row-major element order, the source left intact.
impl<'a, T: NumpyArrayElement + Copy> NumpyArray for &'a NdArray<T> {
    type Elem = T;

    open spec fn shape_spec(&self) -> Seq<usize> {
        self.shape_view()
    }

    open spec fn elems_spec(&self) -> Seq<T> {
        self.data_view()
    }

    open spec fn arr_wf(&self) -> bool {
        self.wf()
    }

    proof fn lemma_elem_count(&self) {
    }

    fn npy_shape(&self) -> (shape: Vec<usize>) {
        copy_usizes(&self.shape)
    }

    fn npy_elements(self) -> (elems: Vec<T>) {
        let mut it = OwnedIter::new(&self.data);
        let mut elems: Vec<T> = Vec::new();
        loop
            invariant_except_break
                it.src() == self.data@,
                0 <= it.at() <= it.src().len(),
                elems@ == self.data@.take(it.at()),
            ensures
                elems@ == self.data@,
            decreases it.src().len() - it.at(),
        {
            match it.next() {
                Some(v) => {
                    elems.push(v);
                    proof {
                        assert(elems@ =~= self.data@.take(it.at()));
                    }
                },
                None => {
                    proof {
                        assert(self.data@.take(it.at()) =~= self.data@);
                    }
                    break;
                },
            }
        }
        elems
    }
}

} // verus!
