//! Byte-exact checks of the NPY encoding: headers, scalars, vectors,
//! rank-N arrays and strings.

use npy_writer::array::{NdArray, NumpyArray, OwnedIter};
use npy_writer::dtype::ElemKind;
use npy_writer::element::{F32Bits, F64Bits, NumpyArrayElement};
use npy_writer::header::encode_header;
use npy_writer::strings::write_strings_to_npy;
use npy_writer::writer::NumpyWriter;

/// Builds the expected preamble for a given header dictionary text, by the
/// format definition: magic, version 1.0, little-endian length, the text
/// space-padded so the whole preamble is a multiple of 64, and a newline.
fn expected_preamble(dict: &str) -> Vec<u8> {
    let mut text: Vec<u8> = dict.as_bytes().to_vec();
    while (11 + text.len()) % 64 != 0 {
        text.push(0x20);
    }
    text.push(0x0a);
    let mut v: Vec<u8> = vec![0x93];
    v.extend("NUMPY".as_bytes());
    v.push(1);
    v.push(0);
    v.push((text.len() & 0xff) as u8);
    v.push(((text.len() >> 8) & 0xff) as u8);
    v.extend(text);
    v
}

fn codepoints(s: &str, width: usize) -> Vec<u8> {
    let mut v = Vec::new();
    let mut n = 0;
    for c in s.chars() {
        v.extend((c as u32).to_le_bytes());
        n += 1;
    }
    while n < width {
        v.extend([0u8, 0, 0, 0]);
        n += 1;
    }
    v
}

#[test]
fn test_encode_strings() {
    let strs = vec!["hello", "test", "123", "longest"];
    let mut buf: Vec<u8> = Vec::new();
    strs.write_npy(&mut buf);
    let mut expected =
        expected_preamble("{'descr': '<U7', 'fortran_order': False, 'shape': (4,), }");
    expected.extend(codepoints("hello", 7));
    expected.extend(codepoints("test", 7));
    expected.extend(codepoints("123", 7));
    expected.extend(codepoints("longest", 7));
    assert_eq!(buf, expected);
}

#[test]
fn test_encode_string() {
    let x = "hello".to_owned();
    let mut buf: Vec<u8> = Vec::new();
    x.write_npy(&mut buf);
    let mut expected =
        expected_preamble("{'descr': '<U5', 'fortran_order': False, 'shape': (), }");
    expected.extend(codepoints("hello", 5));
    assert_eq!(buf, expected);
}

#[test]
fn test_3d_array() {
    let mut data: Vec<F32Bits> = Vec::new();
    let mut raw: Vec<u8> = Vec::new();
    for i in 0..2 {
        for j in 0..3 {
            for k in 0..4 {
                let v = (i as f32) * 0.25 + (j as f32) * 0.5 + (k as f32) * 1.0;
                data.push(F32Bits { bits: v.to_bits() });
                raw.extend(v.to_le_bytes());
            }
        }
    }
    let arr = NdArray::new(vec![2, 3, 4], data).unwrap();
    let mut expected =
        expected_preamble("{'descr': '<f4', 'fortran_order': False, 'shape': (2, 3, 4,), }");
    expected.extend(raw);

    // Writing a reference should work.
    let mut buf: Vec<u8> = Vec::new();
    (&arr).write_npy(&mut buf);
    assert_eq!(buf, expected);

    // We should also be able to consume the array.
    let mut buf: Vec<u8> = Vec::new();
    arr.write_npy(&mut buf);
    assert_eq!(buf, expected);
}

#[test]
fn scalar_layout_all_kinds() {
    // Every supported primitive kind: empty shape in the header, preamble a
    // multiple of 64 bytes, exactly one element's worth of bytes after it.
    let cases: Vec<(Vec<u8>, &str)> = vec![
        {
            let mut b = Vec::new();
            0x12u8.write_npy(&mut b);
            (b, "<u1")
        },
        {
            let mut b = Vec::new();
            0x1234u16.write_npy(&mut b);
            (b, "<u2")
        },
        {
            let mut b = Vec::new();
            0x12345678u32.write_npy(&mut b);
            (b, "<u4")
        },
        {
            let mut b = Vec::new();
            0x123456789abcdef0u64.write_npy(&mut b);
            (b, "<u8")
        },
        {
            let mut b = Vec::new();
            (-5i8).write_npy(&mut b);
            (b, "<i1")
        },
        {
            let mut b = Vec::new();
            (-5i16).write_npy(&mut b);
            (b, "<i2")
        },
        {
            let mut b = Vec::new();
            (-5i32).write_npy(&mut b);
            (b, "<i4")
        },
        {
            let mut b = Vec::new();
            (-5i64).write_npy(&mut b);
            (b, "<i8")
        },
        {
            let mut b = Vec::new();
            F32Bits { bits: 1.5f32.to_bits() }.write_npy(&mut b);
            (b, "<f4")
        },
        {
            let mut b = Vec::new();
            F64Bits { bits: 1.5f64.to_bits() }.write_npy(&mut b);
            (b, "<f8")
        },
    ];
    for (buf, tag) in cases {
        let width: usize = tag[2..].parse().unwrap();
        let dict = format!("{}'descr': '{}', 'fortran_order': False, 'shape': (), {}", "{", tag, "}");
        let preamble = expected_preamble(&dict);
        assert_eq!(preamble.len() % 64, 0);
        assert_eq!(&buf[..preamble.len()], &preamble[..]);
        assert_eq!(buf.len(), preamble.len() + width);
    }
}

#[test]
fn scalar_exact_bytes() {
    let mut buf: Vec<u8> = Vec::new();
    0xabcdu16.write_npy(&mut buf);
    let mut expected =
        expected_preamble("{'descr': '<u2', 'fortran_order': False, 'shape': (), }");
    expected.extend([0xcd, 0xab]);
    assert_eq!(buf, expected);

    let mut buf: Vec<u8> = Vec::new();
    (-2i16).write_npy(&mut buf);
    let mut expected =
        expected_preamble("{'descr': '<i2', 'fortran_order': False, 'shape': (), }");
    expected.extend((-2i16).to_le_bytes());
    assert_eq!(buf, expected);

    let mut buf: Vec<u8> = Vec::new();
    F32Bits { bits: 1.5f32.to_bits() }.write_npy(&mut buf);
    let mut expected =
        expected_preamble("{'descr': '<f4', 'fortran_order': False, 'shape': (), }");
    expected.extend(1.5f32.to_le_bytes());
    assert_eq!(buf, expected);
}

#[test]
fn vector_byte_count_and_shape_text() {
    let v: Vec<u32> = vec![10, 20, 30, 40, 50];
    let mut buf: Vec<u8> = Vec::new();
    v.write_npy(&mut buf);
    let mut expected =
        expected_preamble("{'descr': '<u4', 'fortran_order': False, 'shape': (5,), }");
    for x in [10u32, 20, 30, 40, 50] {
        expected.extend(x.to_le_bytes());
    }
    assert_eq!(buf, expected);
}

#[test]
fn rank_n_byte_count() {
    // Shapes of several ranks, including a zero dimension: the element
    // byte count is always the dimension product times the width.
    let shapes: Vec<Vec<usize>> = vec![vec![], vec![7], vec![3, 5], vec![2, 0, 4]];
    for shape in shapes {
        let count: usize = shape.iter().product();
        let data: Vec<u16> = (0..count as u16).collect();
        let arr = NdArray::new(shape.clone(), data).unwrap();
        let mut buf: Vec<u8> = Vec::new();
        let mut dims = String::new();
        for (i, d) in shape.iter().enumerate() {
            if i > 0 {
                dims.push(' ');
            }
            dims.push_str(&format!("{},", d));
        }
        (&arr).write_npy(&mut buf);
        let dict = format!(
            "{}'descr': '<u2', 'fortran_order': False, 'shape': ({}), {}",
            "{", dims, "}"
        );
        let preamble = expected_preamble(&dict);
        assert_eq!(&buf[..preamble.len()], &preamble[..]);
        assert_eq!(buf.len() - preamble.len(), count * 2);
    }
}

#[test]
fn strings_mixed_widths() {
    // ["ab", "", "xyz"]: dtype <U3, shape (3,); the empty row is three
    // zero units; the first row is 'a','b',0.
    let strs: Vec<String> = vec!["ab".to_string(), "".to_string(), "xyz".to_string()];
    let mut buf: Vec<u8> = Vec::new();
    write_strings_to_npy(&strs, &mut buf);
    let mut expected =
        expected_preamble("{'descr': '<U3', 'fortran_order': False, 'shape': (3,), }");
    expected.extend(codepoints("ab", 3));
    expected.extend(codepoints("", 3));
    expected.extend(codepoints("xyz", 3));
    assert_eq!(buf, expected);
    let h = expected_preamble("{'descr': '<U3', 'fortran_order': False, 'shape': (3,), }").len();
    assert_eq!(&buf[h + 12..h + 24], &[0u8; 12]);
    assert_eq!(
        &buf[h..h + 12],
        &[b'a', 0, 0, 0, b'b', 0, 0, 0, 0, 0, 0, 0]
    );
}

#[test]
fn strings_empty_collection() {
    // An empty collection still produces a complete valid header: <U1,
    // shape (0,), and no element bytes at all.
    let strs: Vec<String> = Vec::new();
    let mut buf: Vec<u8> = Vec::new();
    write_strings_to_npy(&strs, &mut buf);
    let expected =
        expected_preamble("{'descr': '<U1', 'fortran_order': False, 'shape': (0,), }");
    assert_eq!(buf, expected);
    assert_eq!(buf.len() % 64, 0);
}

#[test]
fn strings_beyond_bmp() {
    // Code points beyond the basic multilingual plane are emitted as their
    // full 32-bit value, not as surrogate pairs.
    let strs: Vec<String> = vec!["\u{1F600}".to_string()];
    let mut buf: Vec<u8> = Vec::new();
    write_strings_to_npy(&strs, &mut buf);
    let mut expected =
        expected_preamble("{'descr': '<U1', 'fortran_order': False, 'shape': (1,), }");
    expected.extend(0x1F600u32.to_le_bytes());
    assert_eq!(buf, expected);
}

#[test]
fn preamble_always_multiple_of_64() {
    // 1000 pseudo-random (dtype tag, shape) pairs: 10 + header length is
    // always divisible by 64.
    let mut state: u64 = 0x243F6A8885A308D3;
    let mut next = move || {
        state = state.wrapping_mul(6364136223846793005).wrapping_add(1442695040888963407);
        (state >> 33) as usize
    };
    let tags = ["<u1", "<u2", "<u4", "<u8", "<i1", "<i2", "<i4", "<i8", "<f4", "<f8", "<U17"];
    for _ in 0..1000 {
        let tag = tags[next() % tags.len()].as_bytes().to_vec();
        let rank = next() % 6;
        let mut shape: Vec<usize> = Vec::new();
        for _ in 0..rank {
            shape.push(next() % 100000);
        }
        let header = encode_header(&tag, &shape);
        assert_eq!(header.len() % 64, 0);
        let hlen = (header[8] as usize) | ((header[9] as usize) << 8);
        assert_eq!(10 + hlen, header.len());
    }
}

#[test]
fn elem_kind_tags_and_widths() {
    let cases = [
        (ElemKind::I8, "<i1", 1),
        (ElemKind::I16, "<i2", 2),
        (ElemKind::I32, "<i4", 4),
        (ElemKind::I64, "<i8", 8),
        (ElemKind::U8, "<u1", 1),
        (ElemKind::U16, "<u2", 2),
        (ElemKind::U32, "<u4", 4),
        (ElemKind::U64, "<u8", 8),
        (ElemKind::F32, "<f4", 4),
        (ElemKind::F64, "<f8", 8),
    ];
    for (kind, tag, width) in cases {
        assert_eq!(kind.tag_bytes(), tag.as_bytes().to_vec());
        assert_eq!(kind.byte_width(), width);
    }
}

#[test]
fn element_encoding_little_endian() {
    let mut buf: Vec<u8> = Vec::new();
    0x0102030405060708u64.encode_npy_element(&mut buf);
    assert_eq!(buf, vec![8, 7, 6, 5, 4, 3, 2, 1]);
    let mut buf: Vec<u8> = Vec::new();
    (-1i32).encode_npy_element(&mut buf);
    assert_eq!(buf, vec![0xff, 0xff, 0xff, 0xff]);
}

#[test]
fn nd_array_construction() {
    // Accepted exactly when the element count matches the shape product.
    assert!(NdArray::new(vec![2, 3], (0u8..6).collect()).is_some());
    assert!(NdArray::new(vec![2, 3], (0u8..5).collect()).is_none());
    assert!(NdArray::new(vec![], vec![42u8]).is_some());
    assert!(NdArray::new(vec![], Vec::<u8>::new()).is_none());
    assert!(NdArray::new(vec![0], Vec::<u8>::new()).is_some());
    assert!(NdArray::new(vec![5, 0, 9], Vec::<u8>::new()).is_some());
    assert!(NdArray::new(vec![5, 0, 9], vec![1u8]).is_none());
    // A shape whose product overflows cannot match any element count.
    assert!(NdArray::new(vec![usize::MAX, usize::MAX], Vec::<u8>::new()).is_none());
}

#[test]
fn owned_iter_copies_in_order() {
    let src: Vec<u16> = vec![5, 6, 7];
    let mut it = OwnedIter::new(&src);
    assert_eq!(it.next(), Some(5));
    assert_eq!(it.next(), Some(6));
    assert_eq!(it.next(), Some(7));
    assert_eq!(it.next(), None);
    assert_eq!(src, vec![5, 6, 7]);
}

#[test]
fn array_views_agree() {
    // The owning and borrowing views hand out the same shape and elements.
    let arr = NdArray::new(vec![2, 2], vec![1u32, 2, 3, 4]).unwrap();
    assert_eq!((&arr).npy_shape(), vec![2, 2]);
    assert_eq!(arr.npy_shape(), vec![2, 2]);
    assert_eq!((&arr).npy_elements(), vec![1, 2, 3, 4]);
    assert_eq!(arr.npy_elements(), vec![1, 2, 3, 4]);
}

#[test]
fn deref_wrappers_agree() {
    // Every wrapper form encodes exactly as its dereferenced view: the
    // owned and borrowed strings, and the owned and borrowed collections
    // of slices and of owned strings, all emit identical bytes.
    let mut via_str: Vec<u8> = Vec::new();
    "hello".write_npy(&mut via_str);
    let mut via_string: Vec<u8> = Vec::new();
    "hello".to_string().write_npy(&mut via_string);
    let mut via_string_ref: Vec<u8> = Vec::new();
    (&"hello".to_string()).write_npy(&mut via_string_ref);
    assert_eq!(via_str, via_string);
    assert_eq!(via_str, via_string_ref);

    let slices = vec!["ab", "", "xyz"];
    let owned: Vec<String> = vec!["ab".to_string(), "".to_string(), "xyz".to_string()];
    let mut via_owned: Vec<u8> = Vec::new();
    owned.clone().write_npy(&mut via_owned);
    let mut via_owned_ref: Vec<u8> = Vec::new();
    (&owned).write_npy(&mut via_owned_ref);
    let mut via_slices_ref: Vec<u8> = Vec::new();
    (&slices).write_npy(&mut via_slices_ref);
    let mut via_slices: Vec<u8> = Vec::new();
    slices.write_npy(&mut via_slices);
    assert_eq!(via_owned, via_owned_ref);
    assert_eq!(via_owned, via_slices_ref);
    assert_eq!(via_owned, via_slices);
}

#[test]
fn deep_header_still_aligned() {
    // A shape deep enough that the dictionary text spans several 64-byte
    // blocks: the padding still converges and the invariant holds.
    let shape: Vec<usize> = vec![1; 200];
    let tag = "<u1".as_bytes().to_vec();
    let header = encode_header(&tag, &shape);
    assert_eq!(header.len() % 64, 0);
    let hlen = (header[8] as usize) | ((header[9] as usize) << 8);
    assert_eq!(10 + hlen, header.len());
}
