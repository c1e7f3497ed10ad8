//! The fixed-width Unicode string encoder: single strings and collections
//! of strings as UCS-4 (32-bit little-endian code point) NPY arrays, with
//! the per-row width set by the longest string and shorter rows zero-padded.

use vstd::prelude::*;
use vstd::bytes::spec_u32_to_le_bytes;
use vstd::bytes::u32_to_le_bytes;
use vstd::string::StrSliceExecFns;
use vstd::string::StringExecFns;
use crate::header::{
    dec_rep, encode_header, header_bytes, lemma_dec_rep_len_usize, lemma_header_fits, push_all,
    push_decimal,
};
use crate::writer::NumpyWriter;

verus! {

/// The UCS-4 little-endian code units of a string's characters: each code
/// point as its full 32-bit value, no surrogate pairing.
pub open spec fn codepoints_le(s: Seq<char>) -> Seq<u8>
    decreases s.len(),
{
    if s.len() == 0 {
        Seq::<u8>::empty()
    } else {
        spec_u32_to_le_bytes(s[0] as u32) + codepoints_le(s.drop_first())
    }
}

/// `n` zeroed 4-byte code units: the padding for a short row.
pub open spec fn zero_pad(n: nat) -> Seq<u8> {
    Seq::<u8>::new(4 * n, |i: int| 0u8)
}

/// One fixed-width row: the string's code units, zero-padded to `w` units.
pub open spec fn row_bytes(s: Seq<char>, w: nat) -> Seq<u8>
    recommends
        s.len() <= w,
{
    codepoints_le(s) + zero_pad((w - s.len()) as nat)
}

/// All rows in order, each exactly `w` units wide.
pub open spec fn rows_bytes(strs: Seq<Seq<char>>, w: nat) -> Seq<u8>
    decreases strs.len(),
{
    if strs.len() == 0 {
        Seq::<u8>::empty()
    } else {
        row_bytes(strs[0], w) + rows_bytes(strs.drop_first(), w)
    }
}

/// The longest character count in the collection, 0 if it is empty.
pub open spec fn max_str_len(strs: Seq<Seq<char>>) -> nat
    decreases strs.len(),
{
    if strs.len() == 0 {
        0
    } else if strs[0].len() >= max_str_len(strs.drop_first()) {
        strs[0].len()
    } else {
        max_str_len(strs.drop_first())
    }
}

/// The dtype tag `<U{n}` of a fixed-width Unicode array.
pub open spec fn u_tag(n: nat) -> Seq<u8> {
    seq![('<' as u8), ('U' as u8)] + dec_rep(n)
}

/// The NPY payload of a string collection: dtype `<U{max}`, shape `(n,)`,
/// fixed-width zero-padded rows. An empty collection still gets a complete
/// valid header — dtype `<U1`, shape `(0,)` — and no element bytes.
pub open spec fn strings_npy_bytes(strs: Seq<Seq<char>>) -> Seq<u8> {
    if strs.len() == 0 {
        header_bytes(u_tag(1), seq![0usize])
    } else {
        header_bytes(u_tag(max_str_len(strs)), seq![strs.len() as usize]) + rows_bytes(
            strs,
            max_str_len(strs),
        )
    }
}

/// The NPY payload of one string: dtype `<U{len}`, empty (scalar) shape,
/// exactly the string's own code units.
pub open spec fn str_npy_bytes(s: Seq<char>) -> Seq<u8> {
    header_bytes(u_tag(s.len()), Seq::<usize>::empty()) + codepoints_le(s)
}

/// Encoding one more character appends its 4 little-endian bytes.
pub proof fn lemma_codepoints_le_snoc(s: Seq<char>, c: char)
    ensures
        codepoints_le(s.push(c)) == codepoints_le(s) + spec_u32_to_le_bytes(c as u32),
    decreases s.len(),
{
    if s.len() == 0 {
        assert(s.push(c)[0] == c);
        assert(s.push(c).drop_first() =~= Seq::<char>::empty());
        assert(codepoints_le(Seq::<char>::empty()) == Seq::<u8>::empty());
        assert(codepoints_le(s.push(c)) == spec_u32_to_le_bytes(c as u32) + Seq::<u8>::empty());
        assert(codepoints_le(s) + spec_u32_to_le_bytes(c as u32) =~= spec_u32_to_le_bytes(
            c as u32) + Seq::<u8>::empty());
    } else {
        assert(s.push(c)[0] == s[0]);
        assert(s.push(c).drop_first() =~= s.drop_first().push(c));
        lemma_codepoints_le_snoc(s.drop_first(), c);
        assert(codepoints_le(s.push(c)) =~= codepoints_le(s) + spec_u32_to_le_bytes(c as u32));
    }
}

/// Emitting one more row appends exactly its fixed-width bytes.
pub proof fn lemma_rows_bytes_snoc(strs: Seq<Seq<char>>, s: Seq<char>, w: nat)
    ensures
        rows_bytes(strs.push(s), w) == rows_bytes(strs, w) + row_bytes(s, w),
    decreases strs.len(),
{
    if strs.len() == 0 {
        assert(strs.push(s)[0] == s);
        assert(strs.push(s).drop_first() =~= Seq::<Seq<char>>::empty());
        assert(rows_bytes(Seq::<Seq<char>>::empty(), w) == Seq::<u8>::empty());
        assert(rows_bytes(strs.push(s), w) == row_bytes(s, w) + Seq::<u8>::empty());
        assert(rows_bytes(strs, w) + row_bytes(s, w) =~= row_bytes(s, w) + Seq::<u8>::empty());
    } else {
        assert(strs.push(s)[0] == strs[0]);
        assert(strs.push(s).drop_first() =~= strs.drop_first().push(s));
        lemma_rows_bytes_snoc(strs.drop_first(), s, w);
        assert(rows_bytes(strs.push(s), w) =~= rows_bytes(strs, w) + row_bytes(s, w));
    }
}

/// Adding a string raises the maximum to its length if that is longer.
pub proof fn lemma_max_str_len_snoc(strs: Seq<Seq<char>>, s: Seq<char>)
    ensures
        max_str_len(strs.push(s)) == if s.len() >= max_str_len(strs) {
            s.len()
        } else {
            max_str_len(strs)
        },
    decreases strs.len(),
{
    if strs.len() == 0 {
        assert(strs.push(s)[0] == s);
        assert(strs.push(s).drop_first() =~= Seq::<Seq<char>>::empty());
        assert(max_str_len(Seq::<Seq<char>>::empty()) == 0);
    } else {
        assert(strs.push(s)[0] == strs[0]);
        assert(strs.push(s).drop_first() =~= strs.drop_first().push(s));
        lemma_max_str_len_snoc(strs.drop_first(), s);
    }
}

/// No string in the collection is longer than the maximum.
pub proof fn lemma_max_str_len_ge(strs: Seq<Seq<char>>, i: int)
    requires
        0 <= i < strs.len(),
    ensures
        strs[i].len() <= max_str_len(strs),
    decreases strs.len(),
{
    if i > 0 {
        lemma_max_str_len_ge(strs.drop_first(), i - 1);
    }
}

/// Appends the UCS-4 little-endian code units of `s` to `out`.
fn push_codepoints(out: &mut Vec<u8>, s: &str)
    ensures
        final(out)@ == old(out)@ + codepoints_le(s@),
{
    let n = s.unicode_len();
    let mut j: usize = 0;
    while j < n
        invariant
            j <= n,
            n == s@.len(),
            out@ == old(out)@ + codepoints_le(s@.take(j as int)),
        decreases n - j,
    {
        let c = s.get_char(j);
        let bytes = u32_to_le_bytes(c as u32);
        push_all(out, &bytes);
        proof {
            lemma_codepoints_le_snoc(s@.take(j as int), s@[j as int]);
            assert(s@.take(j as int).push(s@[j as int]) =~= s@.take(j + 1));
            assert(out@ =~= old(out)@ + codepoints_le(s@.take(j + 1)));
        }
        j = j + 1;
    }
    proof {
        assert(s@.take(s@.len() as int) =~= s@);
    }
}

/// Appends `count` zeroed 4-byte code units to `out`.
fn push_zero_units(out: &mut Vec<u8>, count: usize)
    ensures
        final(out)@ == old(out)@ + zero_pad(count as nat),
{
    let mut k: usize = 0;
    while k < count
        invariant
            k <= count,
            out@ == old(out)@ + zero_pad(k as nat),
        decreases count - k,
    {
        out.push(0);
        out.push(0);
        out.push(0);
        out.push(0);
        proof {
            assert(out@ =~= old(out)@ + zero_pad((k + 1) as nat));
        }
        k = k + 1;
    }
}

/// Encodes a collection of strings as one fixed-width Unicode NPY array:
/// the header declares dtype `<U{max}` and shape `(n,)`, then each string's
/// code points follow in order, zero-padded to the width of the longest.
/// An empty collection produces a valid `<U1`, shape-`(0,)` header and no
/// element bytes.
pub fn write_strings_to_npy(strings: &Vec<String>, out: &mut Vec<u8>)
    ensures
        final(out)@ == old(out)@ + strings_npy_bytes(strings.deep_view()),
{
    let ghost strs = strings.deep_view();
    proof {
        assert(strs.len() == strings@.len());
    }
    let n = strings.len();
    if n == 0 {
        let mut tag: Vec<u8> = Vec::new();
        tag.push('<' as u8);
        tag.push('U' as u8);
        tag.push('1' as u8);
        let mut shape: Vec<usize> = Vec::new();
        shape.push(0);
        proof {
            assert(dec_rep(1) =~= seq![('1' as u8)]);
            assert(tag@ =~= u_tag(1));
            assert(shape@ =~= seq![0usize]);
            lemma_header_fits(u_tag(1), seq![0usize]);
        }
        let header = encode_header(&tag, &shape);
        push_all(out, &header);
    } else {
        let mut max_len: usize = 0;
        let mut i: usize = 0;
        while i < n
            invariant
                i <= n,
                n == strs.len(),
                strs == strings.deep_view(),
                max_len as nat == max_str_len(strs.take(i as int)),
            decreases n - i,
        {
            let l = strings[i].as_str().unicode_len();
            proof {
                assert(strs[i as int] == strings@[i as int]@);
                lemma_max_str_len_snoc(strs.take(i as int), strs[i as int]);
                assert(strs.take(i as int).push(strs[i as int]) =~= strs.take(i + 1));
            }
            if l > max_len {
                max_len = l;
            }
            i = i + 1;
        }
        proof {
            assert(strs.take(strs.len() as int) =~= strs);
        }
        let ghost w = max_str_len(strs);

        let mut tag: Vec<u8> = Vec::new();
        tag.push('<' as u8);
        tag.push('U' as u8);
        push_decimal(&mut tag, max_len);
        let mut shape: Vec<usize> = Vec::new();
        shape.push(n);
        proof {
            assert(tag@ =~= u_tag(w));
            assert(shape@ =~= seq![strs.len() as usize]);
            lemma_dec_rep_len_usize(max_len);
            lemma_header_fits(u_tag(w), seq![strs.len() as usize]);
        }
        let header = encode_header(&tag, &shape);
        push_all(out, &header);
        let ghost base = old(out)@ + header@;

        let mut i: usize = 0;
        while i < n
            invariant
                i <= n,
                n == strs.len(),
                strs == strings.deep_view(),
                max_len as nat == w,
                w == max_str_len(strs),
                out@ == base + rows_bytes(strs.take(i as int), w),
            decreases n - i,
        {
            let s = strings[i].as_str();
            proof {
                assert(s@ == strs[i as int]);
                lemma_max_str_len_ge(strs, i as int);
            }
            let l = s.unicode_len();
            push_codepoints(out, s);
            push_zero_units(out, max_len - l);
            proof {
                lemma_rows_bytes_snoc(strs.take(i as int), strs[i as int], w);
                assert(strs.take(i as int).push(strs[i as int]) =~= strs.take(i + 1));
                assert(out@ =~= base + rows_bytes(strs.take(i + 1), w));
            }
            i = i + 1;
        }
        proof {
            assert(strs.take(strs.len() as int) =~= strs);
            assert(out@ =~= old(out)@ + strings_npy_bytes(strs));
        }
    }
}

/// A single string encodes as a rank-0 Unicode array: dtype `<U{len}`,
/// empty shape, exactly its own code units.
impl NumpyWriter for &str {
    open spec fn npy_bytes_spec(&self) -> Seq<u8> {
        str_npy_bytes(self@)
    }

    open spec fn npy_permitted(&self) -> bool {
        true
    }

    fn write_npy(self, out: &mut Vec<u8>) {
        let n = self.unicode_len();
        let mut tag: Vec<u8> = Vec::new();
        tag.push('<' as u8);
        tag.push('U' as u8);
        push_decimal(&mut tag, n);
        let shape: Vec<usize> = Vec::new();
        proof {
            assert(tag@ =~= u_tag(self@.len()));
            assert(shape@ =~= Seq::<usize>::empty());
            lemma_dec_rep_len_usize(n);
            lemma_header_fits(u_tag(self@.len()), Seq::<usize>::empty());
        }
        let header = encode_header(&tag, &shape);
        push_all(out, &header);
        push_codepoints(out, self);
        proof {
            assert(out@ =~= old(out)@ + str_npy_bytes(self@));
        }
    }
}

/// An owned string encodes exactly as its borrowed form does.
impl NumpyWriter for String {
    open spec fn npy_bytes_spec(&self) -> Seq<u8> {
        str_npy_bytes(self@)
    }

    open spec fn npy_permitted(&self) -> bool {
        true
    }

    fn write_npy(self, out: &mut Vec<u8>) {
        self.as_str().write_npy(out);
    }
}

/// A borrowed owned string encodes exactly as its dereferenced form does.
impl NumpyWriter for &String {
    open spec fn npy_bytes_spec(&self) -> Seq<u8> {
        str_npy_bytes(self@)
    }

    open spec fn npy_permitted(&self) -> bool {
        true
    }

    fn write_npy(self, out: &mut Vec<u8>) {
        self.as_str().write_npy(out);
    }
}

/// A borrowed collection of strings encodes as a fixed-width Unicode array.
impl NumpyWriter for &Vec<String> {
    open spec fn npy_bytes_spec(&self) -> Seq<u8> {
        strings_npy_bytes(self.deep_view())
    }

    open spec fn npy_permitted(&self) -> bool {
        true
    }

    fn write_npy(self, out: &mut Vec<u8>) {
        write_strings_to_npy(self, out);
    }
}

/// An owned collection of strings encodes exactly as its borrowed form.
impl NumpyWriter for Vec<String> {
    open spec fn npy_bytes_spec(&self) -> Seq<u8> {
        strings_npy_bytes(self.deep_view())
    }

    open spec fn npy_permitted(&self) -> bool {
        true
    }

    fn write_npy(self, out: &mut Vec<u8>) {
        write_strings_to_npy(&self, out);
    }
}

/// Copies borrowed strings into owned ones, character for character.
fn to_owned_strings(strs: &Vec<&str>) -> (r: Vec<String>)
    ensures
        r.deep_view() == strs.deep_view(),
{
    let mut r: Vec<String> = Vec::new();
    let mut i: usize = 0;
    while i < strs.len()
        invariant
            i <= strs.len(),
            r@.len() == i,
            forall|j: int| 0 <= j < i ==> r@[j]@ == strs@[j]@,
        decreases strs.len() - i,
    {
        r.push(String::from_str(strs[i]));
        i = i + 1;
    }
    proof {
        assert forall|j: int| 0 <= j < strs@.len() implies r.deep_view()[j]
            == strs.deep_view()[j] by {
            assert(r.deep_view()[j] == r@[j].deep_view());
            assert(strs.deep_view()[j] == strs@[j].deep_view());
            assert(r@[j]@ == strs@[j]@);
        }
        assert(r.deep_view() =~~= strs.deep_view());
    }
    r
}

/// A borrowed collection of string slices encodes exactly as the same
/// collection of owned strings does.
impl NumpyWriter for &Vec<&str> {
    open spec fn npy_bytes_spec(&self) -> Seq<u8> {
        strings_npy_bytes(self.deep_view())
    }

    open spec fn npy_permitted(&self) -> bool {
        true
    }

    fn write_npy(self, out: &mut Vec<u8>) {
        let owned = to_owned_strings(self);
        write_strings_to_npy(&owned, out);
    }
}

/// An owned collection of string slices encodes exactly as its borrowed
/// form.
impl NumpyWriter for Vec<&str> {
    open spec fn npy_bytes_spec(&self) -> Seq<u8> {
        strings_npy_bytes(self.deep_view())
    }

    open spec fn npy_permitted(&self) -> bool {
        true
    }

    fn write_npy(self, out: &mut Vec<u8>) {
        let owned = to_owned_strings(&self);
        write_strings_to_npy(&owned, out);
    }
}

} // verus!
