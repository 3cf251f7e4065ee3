use v3d_tool::binary32;
use v3d_tool::encoding::{
    write_char_array, write_f32_slice, write_v3d_mesh_data_padding, write_zeros,
};
use v3d_tool::error::{append_decimal, create_custom_error, Error, ErrorKind, Warning};
use v3d_tool::geometry::{extract_translation_from_matrix, projection_axis, Axis};

fn samples() -> Vec<f32> {
    vec![
        0.0,
        -0.0,
        1.0,
        -1.0,
        0.5,
        -0.5,
        3.25,
        -7.75,
        f32::MIN_POSITIVE,
        -f32::MIN_POSITIVE,
        1.0e-45,
        -1.0e-45,
        f32::MAX,
        f32::MIN,
        f32::INFINITY,
        f32::NEG_INFINITY,
        f32::NAN,
        -f32::NAN,
    ]
}

fn same(a: f32, b: f32) -> bool {
    (a.is_nan() && b.is_nan()) || a == b
}

#[test]
fn constants_are_the_bit_patterns_of_their_values() {
    assert_eq!(binary32::ZERO, 0.0f32.to_bits());
    assert_eq!(binary32::INFINITY, f32::INFINITY.to_bits());
    assert_eq!(binary32::NEG_INFINITY, f32::NEG_INFINITY.to_bits());
    assert_eq!(binary32::SIGN_BIT, (-0.0f32).to_bits());
}

#[test]
fn comparisons_agree_with_the_values() {
    for a in samples() {
        for b in samples() {
            assert_eq!(binary32::lt(a.to_bits(), b.to_bits()), a < b, "{} < {}", a, b);
            assert_eq!(binary32::le(a.to_bits(), b.to_bits()), a <= b, "{} <= {}", a, b);
        }
        assert_eq!(binary32::nan(a.to_bits()), a.is_nan());
        assert!(same(f32::from_bits(binary32::abs(a.to_bits())), a.abs()));
    }
}

#[test]
fn min_and_max_agree_with_the_values() {
    for a in samples() {
        for b in samples() {
            let lo = f32::from_bits(binary32::min(a.to_bits(), b.to_bits()));
            let hi = f32::from_bits(binary32::max(a.to_bits(), b.to_bits()));
            assert!(same(lo, a.min(b)), "min({}, {}) = {}", a, b, lo);
            assert!(same(hi, a.max(b)), "max({}, {}) = {}", a, b, hi);
        }
    }
}

#[test]
fn min_and_max_ignore_what_is_not_a_number() {
    let nan = f32::NAN.to_bits();
    let two = 2.0f32.to_bits();
    assert_eq!(binary32::min(nan, two), two);
    assert_eq!(binary32::min(two, nan), two);
    assert_eq!(binary32::max(nan, two), two);
    assert_eq!(binary32::max(two, nan), two);
}

#[test]
fn equal_values_keep_the_first_pattern() {
    let plus = 0.0f32.to_bits();
    let minus = (-0.0f32).to_bits();
    assert_eq!(binary32::min(plus, minus), plus);
    assert_eq!(binary32::min(minus, plus), minus);
    assert_eq!(binary32::max(plus, minus), plus);
    assert_eq!(binary32::max(minus, plus), minus);
}

#[test]
fn words_are_written_least_significant_byte_first() {
    let mut out = vec![0xAAu8];
    write_f32_slice(&mut out, &[1.0f32.to_bits(), 0x0102_0304, 0xFFFF_FF00]);
    let mut expected = vec![0xAAu8];
    expected.extend_from_slice(&1.0f32.to_le_bytes());
    expected.extend_from_slice(&[0x04, 0x03, 0x02, 0x01]);
    expected.extend_from_slice(&[0x00, 0xFF, 0xFF, 0xFF]);
    assert_eq!(out, expected);
}

#[test]
fn an_empty_slice_writes_nothing() {
    let mut out = vec![1u8, 2, 3];
    write_f32_slice(&mut out, &[]);
    assert_eq!(out, vec![1u8, 2, 3]);
}

#[test]
fn zeros_are_appended() {
    let mut out = vec![9u8];
    write_zeros(&mut out, 5);
    assert_eq!(out, vec![9u8, 0, 0, 0, 0, 0]);
    write_zeros(&mut out, 0);
    assert_eq!(out.len(), 6);
}

#[test]
fn padding_reaches_the_next_multiple_of_sixteen() {
    for len in 0..40usize {
        let mut out = vec![7u8; len];
        write_v3d_mesh_data_padding(&mut out);
        let expected = (len + 15) / 16 * 16;
        assert_eq!(out.len(), expected);
        assert!(out[..len].iter().all(|b| *b == 7));
        assert!(out[len..].iter().all(|b| *b == 0));
    }
}

#[test]
fn padding_leaves_an_aligned_buffer_alone() {
    let mut out = vec![1u8; 32];
    write_v3d_mesh_data_padding(&mut out);
    assert_eq!(out, vec![1u8; 32]);
    let mut empty: Vec<u8> = Vec::new();
    write_v3d_mesh_data_padding(&mut empty);
    assert!(empty.is_empty());
}

#[test]
fn a_name_is_filled_up_with_zero_bytes() {
    let mut out = vec![1u8];
    assert_eq!(write_char_array(&mut out, "None", 24), Ok(()));
    let mut expected = vec![1u8];
    expected.extend_from_slice(b"None");
    expected.extend_from_slice(&[0u8; 20]);
    assert_eq!(out, expected);
}

#[test]
fn a_name_counts_in_bytes() {
    let mut out = Vec::new();
    assert_eq!(write_char_array(&mut out, "é", 3), Ok(()));
    assert_eq!(out, vec![0xC3, 0xA9, 0]);
    let mut short = Vec::new();
    assert_eq!(
        write_char_array(&mut short, "é", 2),
        Err(Error::NameTooLong { name: "é".to_string(), max: 1 })
    );
    assert!(short.is_empty());
}

#[test]
fn a_name_must_leave_room_for_its_terminator() {
    let mut out = vec![5u8];
    let name = "a".repeat(24);
    assert_eq!(
        write_char_array(&mut out, &name, 24),
        Err(Error::NameTooLong { name: name.clone(), max: 23 })
    );
    assert_eq!(out, vec![5u8]);
    let fits = "a".repeat(23);
    assert_eq!(write_char_array(&mut out, &fits, 24), Ok(()));
    assert_eq!(out.len(), 25);
    assert_eq!(out[24], 0);
}

#[test]
fn an_empty_name_is_all_zero_bytes() {
    let mut out = Vec::new();
    assert_eq!(write_char_array(&mut out, "", 1), Ok(()));
    assert_eq!(out, vec![0u8]);
}

#[test]
fn errors_fall_into_two_classes() {
    let validation = vec![
        create_custom_error("anything".to_string()),
        Error::UnsupportedTopology,
        Error::NotIndexed,
        Error::TooManyIndices { count: 9233, limit: 9232 },
        Error::TooManyVertices { count: 5233, limit: 5232 },
        Error::TooManyTextures { count: 8, limit: 7 },
        Error::NameTooLong { name: "x".to_string(), max: 0 },
    ];
    for e in validation {
        assert_eq!(e.kind(), ErrorKind::Validation);
    }
    let data = vec![
        Error::IndexCountNotMultipleOfThree { count: 4 },
        Error::MissingPositions,
        Error::MissingNormals,
        Error::IndexOutOfRange { index: 3, vertex_count: 3 },
        Error::PlaneCountMismatch { planes: 0, triangles: 1 },
    ];
    for e in data {
        assert_eq!(e.kind(), ErrorKind::DataAssumption);
    }
}

#[test]
fn a_custom_error_keeps_its_message() {
    assert_eq!(create_custom_error("no such file".to_string()), Error::Custom("no such file".to_string()));
}

#[test]
fn a_transform_splits_into_origin_and_linear_part() {
    let mut m = [[0u32; 4]; 4];
    for i in 0..4 {
        for j in 0..4 {
            m[i][j] = ((i * 4 + j) as f32).to_bits();
        }
    }
    let (origin, linear) = extract_translation_from_matrix(&m);
    assert_eq!(origin, [12.0f32.to_bits(), 13.0f32.to_bits(), 14.0f32.to_bits()]);
    assert_eq!(linear[0], [0.0f32.to_bits(), 1.0f32.to_bits(), 2.0f32.to_bits()]);
    assert_eq!(linear[1], [4.0f32.to_bits(), 5.0f32.to_bits(), 6.0f32.to_bits()]);
    assert_eq!(linear[2], [8.0f32.to_bits(), 9.0f32.to_bits(), 10.0f32.to_bits()]);
}

fn reference_axis(n: [f32; 3]) -> Axis {
    if n[0].abs() >= n[1].abs().max(n[2].abs()) {
        Axis::X
    } else if n[1].abs() >= n[0].abs().max(n[2].abs()) {
        Axis::Y
    } else {
        Axis::Z
    }
}

#[test]
fn the_projection_axis_is_that_of_the_longest_component() {
    let bits = |n: [f32; 3]| [n[0].to_bits(), n[1].to_bits(), n[2].to_bits()];
    assert_eq!(projection_axis(&bits([1.0, 0.0, 0.0])), Axis::X);
    assert_eq!(projection_axis(&bits([-1.0, 0.5, 0.0])), Axis::X);
    assert_eq!(projection_axis(&bits([0.0, -1.0, 0.0])), Axis::Y);
    assert_eq!(projection_axis(&bits([0.1, 0.2, -0.9])), Axis::Z);
    assert_eq!(projection_axis(&bits([0.5, 0.5, 0.5])), Axis::X);
    assert_eq!(projection_axis(&bits([0.1, 0.5, 0.5])), Axis::Y);
    for x in samples() {
        for y in samples() {
            for z in samples() {
                assert_eq!(projection_axis(&bits([x, y, z])), reference_axis([x, y, z]));
            }
        }
    }
}

#[test]
fn numbers_are_rendered_in_decimal() {
    let mut s = String::from("n=");
    append_decimal(&mut s, 0);
    s.push(',');
    append_decimal(&mut s, 7);
    s.push(',');
    append_decimal(&mut s, 10);
    s.push(',');
    append_decimal(&mut s, 9232);
    s.push(',');
    append_decimal(&mut s, 1_000_000_007);
    assert_eq!(s, "n=0,7,10,9232,1000000007");
    let mut max = String::new();
    append_decimal(&mut max, usize::MAX);
    assert_eq!(max, usize::MAX.to_string());
}

#[test]
fn errors_are_rendered_in_words() {
    assert_eq!(create_custom_error("no such file".to_string()).message(), "no such file");
    assert_eq!(Error::UnsupportedTopology.message(), "only triangle list primitives are supported");
    assert_eq!(Error::NotIndexed.message(), "not indexed geometry is not supported");
    assert_eq!(
        Error::TooManyIndices { count: 9233, limit: 9232 }.message(),
        "primitive has too many indices: 9233 (limit 9232)"
    );
    assert_eq!(
        Error::TooManyVertices { count: 6000, limit: 5232 }.message(),
        "primitive has too many vertices: 6000 (limit 5232)"
    );
    assert_eq!(
        Error::TooManyTextures { count: 8, limit: 7 }.message(),
        "found 8 textures in a submesh but only 7 are allowed"
    );
    assert_eq!(
        Error::NameTooLong { name: "a_very_long_name_of_a_node".to_string(), max: 23 }.message(),
        "string value a_very_long_name_of_a_node is too long (max 23)"
    );
    assert_eq!(
        Error::IndexCountNotMultipleOfThree { count: 100 }.message(),
        "number of indices is not a multiple of three: 100"
    );
    assert_eq!(Error::MissingPositions.message(), "mesh has no positions");
    assert_eq!(Error::MissingNormals.message(), "mesh has no normals");
    assert_eq!(
        Error::IndexOutOfRange { index: 12, vertex_count: 12 }.message(),
        "index 12 is out of range for 12 vertices"
    );
    assert_eq!(
        Error::PlaneCountMismatch { planes: 0, triangles: 4 }.message(),
        "found 0 planes for 4 triangles"
    );
}

#[test]
fn warnings_are_rendered_in_words() {
    assert_eq!(Warning::HierarchyIgnored.message(), "Node hierarchy is ignored!");
    assert_eq!(
        Warning::MissingBaseColorTexture { material: 3 }.message(),
        "Cannot obtain texture name for material 3 (materials without base color texture are not supported)"
    );
    assert_eq!(
        Warning::WrapModeMismatch.message(),
        "Ignoring wrapT - wrapping mode must be the same for T and S"
    );
    assert_eq!(
        Warning::MirroredRepeatUnsupported.message(),
        "MirroredRepeat wrapping mode is not supported"
    );
}
