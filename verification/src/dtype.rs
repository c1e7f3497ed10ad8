//! The fixed set of primitive element kinds and their NPY dtype tags.

use vstd::prelude::*;

verus! {

/// One primitive element kind of the NPY format: 8/16/32/64-bit signed or
/// unsigned integers, or 32/64-bit IEEE floating point (carried as raw bit
/// patterns by the codec).
#[derive(Clone, Copy, PartialEq, Eq, Structural, Debug)]
pub enum ElemKind {
    I8,
    I16,
    I32,
    I64,
    U8,
    U16,
    U32,
    U64,
    F32,
    F64,
}

impl ElemKind {
    /// The fixed number of bytes one element of this kind occupies.
    pub open spec fn width(self) -> nat {
        match self {
            ElemKind::I8 => 1,
            ElemKind::I16 => 2,
            ElemKind::I32 => 4,
            ElemKind::I64 => 8,
            ElemKind::U8 => 1,
            ElemKind::U16 => 2,
            ElemKind::U32 => 4,
            ElemKind::U64 => 8,
            ElemKind::F32 => 4,
            ElemKind::F64 => 8,
        }
    }

    /// The NPY dtype tag for this kind, as ASCII bytes: `<i1`, `<u4`, `<f8`, ...
    /// (always little-endian, hence the leading `<`).
    pub open spec fn tag(self) -> Seq<u8> {
        match self {
            ElemKind::I8 => seq![('<' as u8), ('i' as u8), ('1' as u8)],
            ElemKind::I16 => seq![('<' as u8), ('i' as u8), ('2' as u8)],
            ElemKind::I32 => seq![('<' as u8), ('i' as u8), ('4' as u8)],
            ElemKind::I64 => seq![('<' as u8), ('i' as u8), ('8' as u8)],
            ElemKind::U8 => seq![('<' as u8), ('u' as u8), ('1' as u8)],
            ElemKind::U16 => seq![('<' as u8), ('u' as u8), ('2' as u8)],
            ElemKind::U32 => seq![('<' as u8), ('u' as u8), ('4' as u8)],
            ElemKind::U64 => seq![('<' as u8), ('u' as u8), ('8' as u8)],
            ElemKind::F32 => seq![('<' as u8), ('f' as u8), ('4' as u8)],
            ElemKind::F64 => seq![('<' as u8), ('f' as u8), ('8' as u8)],
        }
    }

    /// Executable byte width, matching `width`.
    pub fn byte_width(self) -> (n: usize)
        ensures
            n == self.width(),
    {
        match self {
            ElemKind::I8 => 1,
            ElemKind::I16 => 2,
            ElemKind::I32 => 4,
            ElemKind::I64 => 8,
            ElemKind::U8 => 1,
            ElemKind::U16 => 2,
            ElemKind::U32 => 4,
            ElemKind::U64 => 8,
            ElemKind::F32 => 4,
            ElemKind::F64 => 8,
        }
    }

    /// Executable dtype tag, matching `tag`.
    pub fn tag_bytes(self) -> (r: Vec<u8>)
        ensures
            r@ == self.tag(),
    {
        let mut r: Vec<u8> = Vec::new();
        r.push(('<' as u8));
        match self {
            ElemKind::I8 | ElemKind::I16 | ElemKind::I32 | ElemKind::I64 => r.push(('i' as u8)),
            ElemKind::U8 | ElemKind::U16 | ElemKind::U32 | ElemKind::U64 => r.push(('u' as u8)),
            ElemKind::F32 | ElemKind::F64 => r.push(('f' as u8)),
        }
        match self {
            ElemKind::I8 | ElemKind::U8 => r.push(('1' as u8)),
            ElemKind::I16 | ElemKind::U16 => r.push(('2' as u8)),
            ElemKind::I32 | ElemKind::U32 | ElemKind::F32 => r.push(('4' as u8)),
            ElemKind::I64 | ElemKind::U64 | ElemKind::F64 => r.push(('8' as u8)),
        }
        proof {
            assert(r@ =~= self.tag());
        }
        r
    }
}

} // verus!
