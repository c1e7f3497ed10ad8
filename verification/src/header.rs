//! The fixed-layout NPY preamble: magic bytes, format version, a 2-byte
//! little-endian header-length field, and a space-padded ASCII dictionary
//! header, sized so that the whole preamble is a multiple of 64 bytes.

use vstd::prelude::*;
use vstd::arithmetic::div_mod::{lemma_fundamental_div_mod, lemma_mod_multiples_basic};
use vstd::bytes::{spec_u16_to_le_bytes, u16_to_le_bytes};

verus! {

/// Decimal digits of `n`, as ASCII bytes, most significant first.
pub open spec fn dec_rep(n: nat) -> Seq<u8>
    decreases n,
{
    if n < 10 {
        seq![(('0' as u8) + n) as u8]
    } else {
        dec_rep(n / 10) + seq![(('0' as u8) + n % 10) as u8]
    }
}

/// The shape tuple's interior text: each dimension in decimal followed by a
/// comma, dimensions separated by one space, trailing comma kept.
pub open spec fn shape_text(shape: Seq<usize>) -> Seq<u8>
    decreases shape.len(),
{
    if shape.len() == 0 {
        Seq::<u8>::empty()
    } else if shape.len() == 1 {
        dec_rep(shape[0] as nat) + seq![(',' as u8)]
    } else {
        shape_text(shape.drop_last()) + seq![(' ' as u8)] + dec_rep(shape.last() as nat)
            + seq![(',' as u8)]
    }
}

/// The ASCII text `{'descr': '` that opens the header dictionary.
pub open spec fn dict_prefix() -> Seq<u8> {
    seq![
        ('{' as u8),
        ('\'' as u8),
        ('d' as u8),
        ('e' as u8),
        ('s' as u8),
        ('c' as u8),
        ('r' as u8),
        ('\'' as u8),
        (':' as u8),
        (' ' as u8),
        ('\'' as u8),
    ]
}

/// The ASCII text `', 'fortran_order': False, 'shape': (` between the dtype
/// tag and the shape tuple.
pub open spec fn dict_middle() -> Seq<u8> {
    seq![
        ('\'' as u8),
        (',' as u8),
        (' ' as u8),
        ('\'' as u8),
        ('f' as u8),
        ('o' as u8),
        ('r' as u8),
        ('t' as u8),
        ('r' as u8),
        ('a' as u8),
        ('n' as u8),
        ('_' as u8),
        ('o' as u8),
        ('r' as u8),
        ('d' as u8),
        ('e' as u8),
        ('r' as u8),
        ('\'' as u8),
        (':' as u8),
        (' ' as u8),
        ('F' as u8),
        ('a' as u8),
        ('l' as u8),
        ('s' as u8),
        ('e' as u8),
        (',' as u8),
        (' ' as u8),
        ('\'' as u8),
        ('s' as u8),
        ('h' as u8),
        ('a' as u8),
        ('p' as u8),
        ('e' as u8),
        ('\'' as u8),
        (':' as u8),
        (' ' as u8),
        ('(' as u8),
    ]
}

/// The ASCII text `), }` that closes the header dictionary.
pub open spec fn dict_suffix() -> Seq<u8> {
    seq![(')' as u8), (',' as u8), (' ' as u8), ('}' as u8)]
}

/// The unpadded dictionary text
/// `{'descr': '<tag>', 'fortran_order': False, 'shape': (<dims>)}`.
pub open spec fn header_dict_text(tag: Seq<u8>, shape: Seq<usize>) -> Seq<u8> {
    dict_prefix() + tag + dict_middle() + shape_text(shape) + dict_suffix()
}

/// How many padding spaces bring `11 + l` (magic, version, length field and
/// trailing newline around a text of length `l`) up to a multiple of 64.
pub open spec fn pad_of(l: nat) -> nat {
    if (11 + l) % 64 == 0 {
        0
    } else {
        (64 - ((11 + l) % 64)) as nat
    }
}

/// The dictionary text, space-padded and newline-terminated: exactly the
/// bytes counted by the preamble's header-length field.
pub open spec fn padded_header(tag: Seq<u8>, shape: Seq<usize>) -> Seq<u8> {
    let t = header_dict_text(tag, shape);
    t + Seq::<u8>::new(pad_of(t.len()), |i: int| (' ' as u8)) + seq![('\n' as u8)]
}

/// The six magic bytes `\x93NUMPY` followed by version bytes 1, 0.
pub open spec fn magic_version() -> Seq<u8> {
    seq![
        0x93u8,
        ('N' as u8),
        ('U' as u8),
        ('M' as u8),
        ('P' as u8),
        ('Y' as u8),
        1u8,
        0u8,
    ]
}

/// The complete preamble: magic, version, little-endian header length, and
/// the padded header text.
pub open spec fn header_bytes(tag: Seq<u8>, shape: Seq<usize>) -> Seq<u8> {
    magic_version() + spec_u16_to_le_bytes(padded_header(tag, shape).len() as u16)
        + padded_header(tag, shape)
}

/// The header-length field is 16 bits wide, so the dictionary text (padding
/// and newline included) must fit in it.
pub open spec fn header_fits(tag: Seq<u8>, shape: Seq<usize>) -> bool {
    header_dict_text(tag, shape).len() + 64 <= 0xffff
}

/// Powers of ten, for sizing decimal representations.
pub open spec fn pow10(k: nat) -> nat
    decreases k,
{
    if k == 0 {
        1
    } else {
        10 * pow10((k - 1) as nat)
    }
}

/// A number below `10^k` has at most `k` decimal digits.
pub proof fn lemma_dec_rep_len(n: nat, k: nat)
    requires
        k >= 1,
        n < pow10(k),
    ensures
        dec_rep(n).len() <= k,
    decreases n,
{
    if n < 10 {
    } else {
        if k == 1 {
            assert(pow10(1) == 10 * pow10(0));
            assert(false);
        }
        assert(pow10(k) == 10 * pow10((k - 1) as nat));
        lemma_fundamental_div_mod(n as int, 10);
        assert(n / 10 < pow10((k - 1) as nat)) by (nonlinear_arith)
            requires
                n < 10 * pow10((k - 1) as nat),
                n == 10 * (n / 10) + n % 10,
                0 <= n % 10 < 10,
        ;
        lemma_dec_rep_len(n / 10, (k - 1) as nat);
    }
}

/// Any `usize` dimension has at most 20 decimal digits.
pub proof fn lemma_dec_rep_len_usize(n: usize)
    ensures
        dec_rep(n as nat).len() <= 20,
{
    assert(pow10(20) == 100000000000000000000) by {
        reveal_with_fuel(pow10, 21);
    }
    assert((n as nat) < pow10(20));
    lemma_dec_rep_len(n as nat, 20);
}

/// Each dimension contributes at most 22 bytes of shape text.
pub proof fn lemma_shape_text_len(s: Seq<usize>)
    ensures
        shape_text(s).len() <= 22 * s.len(),
    decreases s.len(),
{
    if s.len() == 0 {
    } else if s.len() == 1 {
        lemma_dec_rep_len_usize(s[0]);
    } else {
        lemma_shape_text_len(s.drop_last());
        lemma_dec_rep_len_usize(s.last());
    }
}

/// Short tags and shallow shapes always fit the 16-bit length field.
pub proof fn lemma_header_fits(tag: Seq<u8>, shape: Seq<usize>)
    requires
        tag.len() <= 30,
        shape.len() <= 100,
    ensures
        header_fits(tag, shape),
{
    lemma_shape_text_len(shape);
}

/// Appends all of `src` to `out`.
pub fn push_all(out: &mut Vec<u8>, src: &Vec<u8>)
    ensures
        final(out)@ == old(out)@ + src@,
{
    let mut i: usize = 0;
    while i < src.len()
        invariant
            i <= src.len(),
            out@ == old(out)@ + src@.take(i as int),
        decreases src.len() - i,
    {
        out.push(src[i]);
        proof {
            assert(out@ =~= old(out)@ + src@.take(i + 1));
        }
        i = i + 1;
    }
    proof {
        assert(old(out)@ + src@.take(src@.len() as int) =~= old(out)@ + src@);
    }
}

/// Appends the decimal digits of `n` to `out`.
pub fn push_decimal(out: &mut Vec<u8>, n: usize)
    ensures
        final(out)@ == old(out)@ + dec_rep(n as nat),
    decreases n,
{
    if n < 10 {
        out.push(('0' as u8) + (n as u8));
        proof {
            assert(out@ =~= old(out)@ + dec_rep(n as nat));
        }
    } else {
        push_decimal(out, n / 10);
        out.push(('0' as u8) + ((n % 10) as u8));
        proof {
            assert(out@ =~= old(out)@ + dec_rep(n as nat));
        }
    }
}

/// Appends the text of `dict_prefix` to `out`.
fn push_dict_prefix(out: &mut Vec<u8>)
    ensures
        final(out)@ == old(out)@ + dict_prefix(),
{
    out.push('{' as u8);
    out.push('\'' as u8);
    out.push('d' as u8);
    out.push('e' as u8);
    out.push('s' as u8);
    out.push('c' as u8);
    out.push('r' as u8);
    out.push('\'' as u8);
    out.push(':' as u8);
    out.push(' ' as u8);
    out.push('\'' as u8);
    proof {
        assert(out@ =~= old(out)@ + dict_prefix());
    }
}

/// Appends the text of `dict_middle` to `out`.
#[verifier::rlimit(30)]
fn push_dict_middle(out: &mut Vec<u8>)
    ensures
        final(out)@ == old(out)@ + dict_middle(),
{
    out.push('\'' as u8);
    out.push(',' as u8);
    out.push(' ' as u8);
    out.push('\'' as u8);
    out.push('f' as u8);
    out.push('o' as u8);
    out.push('r' as u8);
    out.push('t' as u8);
    out.push('r' as u8);
    out.push('a' as u8);
    out.push('n' as u8);
    out.push('_' as u8);
    out.push('o' as u8);
    out.push('r' as u8);
    out.push('d' as u8);
    out.push('e' as u8);
    out.push('r' as u8);
    out.push('\'' as u8);
    out.push(':' as u8);
    out.push(' ' as u8);
    out.push('F' as u8);
    out.push('a' as u8);
    out.push('l' as u8);
    out.push('s' as u8);
    out.push('e' as u8);
    out.push(',' as u8);
    out.push(' ' as u8);
    out.push('\'' as u8);
    out.push('s' as u8);
    out.push('h' as u8);
    out.push('a' as u8);
    out.push('p' as u8);
    out.push('e' as u8);
    out.push('\'' as u8);
    out.push(':' as u8);
    out.push(' ' as u8);
    out.push('(' as u8);
    proof {
        assert(out@ =~= old(out)@ + dict_middle());
    }
}

/// Appends the text of `dict_suffix` to `out`.
fn push_dict_suffix(out: &mut Vec<u8>)
    ensures
        final(out)@ == old(out)@ + dict_suffix(),
{
    out.push(')' as u8);
    out.push(',' as u8);
    out.push(' ' as u8);
    out.push('}' as u8);
    proof {
        assert(out@ =~= old(out)@ + dict_suffix());
    }
}

/// Builds the complete NPY preamble for the given dtype tag and shape:
/// magic and version bytes, the header length as two little-endian bytes,
/// and the space-padded, newline-terminated dictionary text. The result's
/// length is always a multiple of 64.
pub fn encode_header(format: &Vec<u8>, shape: &Vec<usize>) -> (r: Vec<u8>)
    requires
        header_fits(format@, shape@),
    ensures
        r@ == header_bytes(format@, shape@),
        r@.len() == 10 + padded_header(format@, shape@).len(),
        r@.len() % 64 == 0,
{
    let mut text: Vec<u8> = Vec::new();
    push_dict_prefix(&mut text);
    push_all(&mut text, format);
    push_dict_middle(&mut text);
    proof {
        assert(text@ =~= dict_prefix() + format@ + dict_middle());
    }
    let ghost head = dict_prefix() + format@ + dict_middle();
    let mut i: usize = 0;
    while i < shape.len()
        invariant
            i <= shape.len(),
            text@ == head + shape_text(shape@.take(i as int)),
        decreases shape.len() - i,
    {
        if i > 0 {
            text.push(' ' as u8);
        }
        push_decimal(&mut text, shape[i]);
        text.push(',' as u8);
        proof {
            let s1 = shape@.take(i + 1);
            assert(s1.drop_last() =~= shape@.take(i as int));
            assert(s1.last() == shape@[i as int]);
            if i == 0 {
                assert(shape_text(s1) == dec_rep(shape@[0] as nat) + seq![(',' as u8)]);
                assert(text@ =~= head + shape_text(s1));
            } else {
                assert(text@ =~= head + shape_text(s1));
            }
        }
        i = i + 1;
    }
    proof {
        assert(shape@.take(shape@.len() as int) =~= shape@);
    }
    push_dict_suffix(&mut text);
    proof {
        assert(text@ =~= header_dict_text(format@, shape@));
    }
    let ghost unpadded = header_dict_text(format@, shape@);

    // Space-pad so that magic, version, length field and newline land the
    // whole preamble on a 64-byte boundary.
    let rem = (11 + text.len()) % 64;
    let pad: usize = if rem == 0 {
        0
    } else {
        64 - rem
    };
    let mut j: usize = 0;
    while j < pad
        invariant
            j <= pad,
            pad == pad_of(unpadded.len()),
            text@ == unpadded + Seq::<u8>::new(j as nat, |k: int| (' ' as u8)),
        decreases pad - j,
    {
        text.push(' ' as u8);
        proof {
            assert(text@ =~= unpadded + Seq::<u8>::new((j + 1) as nat, |k: int| (' ' as u8)));
        }
        j = j + 1;
    }
    text.push('\n' as u8);
    proof {
        assert(text@ =~= padded_header(format@, shape@));
    }

    let mut r: Vec<u8> = Vec::new();
    r.push(0x93u8);
    r.push('N' as u8);
    r.push('U' as u8);
    r.push('M' as u8);
    r.push('P' as u8);
    r.push('Y' as u8);
    r.push(1u8);
    r.push(0u8);
    let hlen_bytes = u16_to_le_bytes(text.len() as u16);
    r.push(hlen_bytes[0]);
    r.push(hlen_bytes[1]);
    proof {
        assert(r@ =~= magic_version() + spec_u16_to_le_bytes(text@.len() as u16));
    }
    push_all(&mut r, &text);
    proof {
        assert(r@ =~= header_bytes(format@, shape@));
        lemma_preamble_aligned(format@, shape@);
    }
    r
}

/// The preamble-length invariant: for every dtype tag and shape, the ten
/// fixed bytes plus the padded header text land on a 64-byte boundary.
pub proof fn lemma_preamble_aligned(tag: Seq<u8>, shape: Seq<usize>)
    ensures
        (10 + padded_header(tag, shape).len()) % 64 == 0,
{
    let l = header_dict_text(tag, shape).len();
    let a = (11 + l) as int;
    let total = (10 + padded_header(tag, shape).len()) as int;
    assert(padded_header(tag, shape).len() == l + pad_of(l) + 1);
    lemma_fundamental_div_mod(a, 64);
    if a % 64 == 0 {
        assert(total == 64 * (a / 64));
        lemma_mod_multiples_basic(a / 64, 64);
    } else {
        assert(total == a + 64 - a % 64);
        assert(total == 64 * (a / 64 + 1));
        lemma_mod_multiples_basic(a / 64 + 1, 64);
    }
}

} // verus!
