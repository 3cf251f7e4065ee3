use v3d_tool::batch::{
    check_primitive, create_v3d_mesh_data, get_primitive_vertex_count, validate_primitive,
    write_v3d_batch_data, write_v3d_batch_header, write_v3d_batch_info,
};
use v3d_tool::bounds::{
    compute_mesh_aabb, compute_mesh_bounding_sphere_radius, count_mesh_vertices, BoundingBox,
};
use v3d_tool::error::{Error, ErrorKind};
use v3d_tool::scene::{
    AlphaMode, Material, Mesh, Mode, Position, Primitive, Texture, WrappingMode,
};

fn bits3(v: [f32; 3]) -> [u32; 3] {
    [v[0].to_bits(), v[1].to_bits(), v[2].to_bits()]
}

fn position(v: [f32; 3]) -> Position {
    let distance = (v[0] * v[0] + v[1] * v[1] + v[2] * v[2]).sqrt();
    Position { coords: bits3(v), distance: distance.to_bits() }
}

fn material(name: &str) -> Material {
    Material {
        index: Some(0),
        base_color_texture: Some(Texture {
            image_name: Some(name.to_string()),
            image_uri: None,
            wrap_s: WrappingMode::Repeat,
            wrap_t: WrappingMode::Repeat,
        }),
        alpha_mode: AlphaMode::Opaque,
        emissive_factor: [0; 3],
        double_sided: false,
    }
}

fn triangle() -> Primitive {
    Primitive {
        mode: Mode::Triangles,
        positions: Some(vec![
            position([0.0, 0.0, 0.0]),
            position([1.0, 0.0, 0.0]),
            position([0.0, 1.0, 0.0]),
        ]),
        normals: Some(vec![bits3([0.0, 0.0, 1.0]); 3]),
        tex_coords: vec![
            [0.0f32.to_bits(), 0.0f32.to_bits()],
            [1.0f32.to_bits(), 0.0f32.to_bits()],
            [0.0f32.to_bits(), 1.0f32.to_bits()],
        ],
        indices: Some(vec![0, 1, 2]),
        planes: vec![[0.0f32.to_bits(), 0.0f32.to_bits(), 1.0f32.to_bits(), (-0.0f32).to_bits()]],
        material: material("wall.png"),
    }
}

fn sized(vertices: usize, indices: usize) -> Primitive {
    let mut p = triangle();
    p.positions = Some(vec![position([1.0, 2.0, 3.0]); vertices]);
    p.normals = Some(vec![bits3([0.0, 0.0, 1.0]); vertices]);
    p.tex_coords = vec![[0, 0]; vertices];
    p.indices = Some(vec![0; indices]);
    p.planes = vec![[0; 4]; indices / 3];
    p
}

fn cloud(points: &[[f32; 3]]) -> Primitive {
    let mut p = triangle();
    p.positions = Some(points.iter().map(|v| position(*v)).collect());
    p
}

fn floats(values: &[f32]) -> Vec<u8> {
    values.iter().flat_map(|v| v.to_le_bytes()).collect()
}

fn padded(mut bytes: Vec<u8>) -> Vec<u8> {
    while bytes.len() % 16 != 0 {
        bytes.push(0);
    }
    bytes
}

#[test]
fn a_triangle_is_accepted() {
    assert_eq!(validate_primitive(&triangle()), Ok(()));
    assert_eq!(check_primitive(&triangle()), Ok(()));
    assert_eq!(get_primitive_vertex_count(&triangle()), 3);
}

#[test]
fn only_triangle_lists_are_supported() {
    for mode in [
        Mode::Points,
        Mode::Lines,
        Mode::LineLoop,
        Mode::LineStrip,
        Mode::TriangleStrip,
        Mode::TriangleFan,
    ] {
        let mut p = triangle();
        p.mode = mode;
        assert_eq!(validate_primitive(&p), Err(Error::UnsupportedTopology));
    }
}

#[test]
fn a_primitive_without_indices_is_refused() {
    let mut p = triangle();
    p.indices = None;
    assert_eq!(validate_primitive(&p), Err(Error::NotIndexed));
    p.mode = Mode::Lines;
    assert_eq!(validate_primitive(&p), Err(Error::UnsupportedTopology));
}

#[test]
fn a_primitive_with_9233_indices_is_refused() {
    let e = validate_primitive(&sized(3, 9233)).unwrap_err();
    assert_eq!(e, Error::TooManyIndices { count: 9233, limit: 9232 });
    assert_eq!(e.kind(), ErrorKind::Validation);
}

#[test]
fn a_primitive_with_9231_indices_is_accepted() {
    let p = sized(3, 9231);
    assert_eq!(validate_primitive(&p), Ok(()));
    let mut out = Vec::new();
    assert_eq!(write_v3d_batch_data(&mut out, &p), Ok(()));
    assert_eq!(out.len() % 16, 0);
}

#[test]
fn a_primitive_with_9232_indices_passes_the_limit_but_not_the_division() {
    let e = validate_primitive(&sized(3, 9232)).unwrap_err();
    assert_eq!(e, Error::IndexCountNotMultipleOfThree { count: 9232 });
    assert_eq!(e.kind(), ErrorKind::DataAssumption);
}

#[test]
fn the_vertex_limit_is_5232() {
    assert_eq!(validate_primitive(&sized(5232, 3)), Ok(()));
    assert_eq!(
        validate_primitive(&sized(5233, 3)),
        Err(Error::TooManyVertices { count: 5233, limit: 5232 })
    );
}

#[test]
fn the_index_limit_is_checked_before_the_vertex_limit() {
    assert_eq!(
        validate_primitive(&sized(6000, 10000)),
        Err(Error::TooManyIndices { count: 10000, limit: 9232 })
    );
}

#[test]
fn the_limits_are_checked_before_the_division() {
    assert_eq!(
        validate_primitive(&sized(5233, 4)),
        Err(Error::TooManyVertices { count: 5233, limit: 5232 })
    );
    assert_eq!(
        validate_primitive(&sized(3, 4)),
        Err(Error::IndexCountNotMultipleOfThree { count: 4 })
    );
}

#[test]
fn missing_positions_are_a_failure_of_the_data() {
    let mut p = triangle();
    p.positions = None;
    p.indices = Some(Vec::new());
    p.planes = Vec::new();
    assert_eq!(validate_primitive(&p), Ok(()));
    assert_eq!(check_primitive(&p), Err(Error::MissingPositions));
    assert_eq!(get_primitive_vertex_count(&p), 0);
}

#[test]
fn missing_normals_are_a_failure_of_the_data() {
    let mut p = triangle();
    p.normals = None;
    assert_eq!(check_primitive(&p), Err(Error::MissingNormals));
}

#[test]
fn an_index_must_name_a_vertex() {
    let mut p = triangle();
    p.indices = Some(vec![0, 1, 2, 2, 3, 7]);
    p.planes.push([0; 4]);
    assert_eq!(check_primitive(&p), Err(Error::IndexOutOfRange { index: 3, vertex_count: 3 }));
}

#[test]
fn each_triangle_needs_its_plane() {
    let mut p = triangle();
    p.planes.clear();
    assert_eq!(check_primitive(&p), Err(Error::PlaneCountMismatch { planes: 0, triangles: 1 }));
    let mut q = triangle();
    q.planes.push([0; 4]);
    assert_eq!(check_primitive(&q), Err(Error::PlaneCountMismatch { planes: 2, triangles: 1 }));
}

#[test]
fn validation_comes_before_the_data() {
    let mut p = triangle();
    p.positions = None;
    p.normals = None;
    p.mode = Mode::Points;
    assert_eq!(check_primitive(&p), Err(Error::UnsupportedTopology));
}

#[test]
fn nothing_is_written_for_a_primitive_that_is_refused() {
    let mut p = triangle();
    p.normals = None;
    let mut out = vec![1u8, 2, 3];
    assert_eq!(write_v3d_batch_data(&mut out, &p), Err(Error::MissingNormals));
    assert_eq!(out, vec![1u8, 2, 3]);
    p.mode = Mode::Lines;
    assert_eq!(write_v3d_batch_info(&mut out, &p), Err(Error::UnsupportedTopology));
    assert_eq!(out, vec![1u8, 2, 3]);
}

#[test]
fn the_data_of_a_triangle_is_laid_out_in_seven_blocks() {
    let mut out = Vec::new();
    assert_eq!(write_v3d_batch_data(&mut out, &triangle()), Ok(()));
    let mut expected = Vec::new();
    expected.extend(padded(floats(&[0.0, 0.0, 0.0, 1.0, 0.0, 0.0, 0.0, 1.0, 0.0])));
    expected.extend(padded(floats(&[0.0, 0.0, 1.0, 0.0, 0.0, 1.0, 0.0, 0.0, 1.0])));
    expected.extend(padded(floats(&[0.0, 0.0, 1.0, 0.0, 0.0, 1.0])));
    expected.extend(padded(vec![0, 0, 1, 0, 2, 0, 0, 0]));
    expected.extend(padded(floats(&[0.0, 0.0, 1.0, -0.0])));
    expected.extend(padded(vec![0u8; 6]));
    expected.extend(padded(vec![0u8; 24]));
    assert_eq!(expected.len(), 48 + 48 + 32 + 16 + 16 + 16 + 32);
    assert_eq!(out, expected);
}

#[test]
fn a_double_sided_material_flags_every_triangle() {
    let mut p = triangle();
    p.material.double_sided = true;
    p.indices = Some(vec![0, 1, 2, 2, 1, 0]);
    p.planes.push([0; 4]);
    let mut out = Vec::new();
    assert_eq!(write_v3d_batch_data(&mut out, &p), Ok(()));
    let triangles = &out[48 + 48 + 32..48 + 48 + 32 + 16];
    assert_eq!(triangles, &[0, 0, 1, 0, 2, 0, 0x20, 0, 2, 0, 1, 0, 0, 0, 0x20, 0]);
}

#[test]
fn indices_are_written_in_sixteen_bits() {
    let mut p = sized(5232, 3);
    p.indices = Some(vec![5231, 256, 1]);
    let mut out = Vec::new();
    assert_eq!(write_v3d_batch_data(&mut out, &p), Ok(()));
    let start = 5232 * 12 + 5232 * 12 + 5232 * 8;
    assert_eq!(start % 16, 0);
    assert_eq!(&out[start..start + 8], &[0x6F, 0x14, 0x00, 0x01, 0x01, 0x00, 0, 0]);
}

#[test]
fn padding_is_counted_from_the_start_of_the_buffer() {
    let mut out = vec![0xEEu8; 4];
    assert_eq!(write_v3d_batch_data(&mut out, &triangle()), Ok(()));
    assert_eq!(out.len() % 16, 0);
    assert_eq!(out.len(), 48 + 48 + 32 + 16 + 16 + 16 + 32);
    assert_eq!(&out[4..8], &0.0f32.to_le_bytes());
    assert_eq!(&out[40..48], &[0u8; 8]);
    assert_eq!(&out[48..60], &floats(&[0.0, 0.0, 1.0])[..]);
}

#[test]
fn every_block_of_a_batch_starts_on_a_multiple_of_sixteen() {
    for vertices in [0usize, 1, 2, 3, 4, 5, 7, 9] {
        let mut p = sized(vertices, 0);
        if vertices > 0 {
            p.indices = Some(vec![0; 3]);
            p.planes = vec![[0x3F80_0000; 4]];
        }
        p.tex_coords = vec![[0x4000_0000, 0x4000_0000]; vertices + 1];
        let mut out = Vec::new();
        assert_eq!(write_v3d_batch_data(&mut out, &p), Ok(()));
        let align = |n: usize| (n + 15) / 16 * 16;
        let triangles = p.indices.as_ref().unwrap().len() / 3;
        let sizes = [
            12 * vertices,
            12 * vertices,
            8 * (vertices + 1),
            8 * triangles,
            16 * triangles,
            2 * vertices,
            8 * vertices,
        ];
        let mut at = 0;
        for size in sizes {
            assert_eq!(at % 16, 0);
            assert!(out[at + size..align(at + size)].iter().all(|b| *b == 0));
            at = align(at + size);
        }
        assert_eq!(out.len(), at);
    }
}

#[test]
fn a_batch_header_holds_the_place_of_the_texture() {
    let table = vec!["a.tga".to_string(), "wall.tga".to_string()];
    let mut out = vec![0xFFu8];
    write_v3d_batch_header(&mut out, &triangle(), &table);
    assert_eq!(out.len(), 1 + 0x38);
    assert!(out[1..0x21].iter().all(|b| *b == 0));
    assert_eq!(&out[0x21..0x25], &[1, 0, 0, 0]);
    assert!(out[0x25..].iter().all(|b| *b == 0));
}

#[test]
fn a_batch_record_holds_counts_sizes_and_render_state() {
    let mut p = sized(5, 9);
    p.material.alpha_mode = AlphaMode::Blend;
    let mut out = Vec::new();
    assert_eq!(write_v3d_batch_info(&mut out, &p), Ok(()));
    let mut expected = Vec::new();
    for n in [5u16, 3, 60, 24, 10, 40, 40] {
        expected.extend_from_slice(&n.to_le_bytes());
    }
    expected.extend_from_slice(&0x518C41u32.to_le_bytes());
    assert_eq!(out, expected);
}

#[test]
fn a_batch_record_of_the_largest_batch_fits_its_fields() {
    let p = sized(5232, 9231);
    let mut out = Vec::new();
    assert_eq!(write_v3d_batch_info(&mut out, &p), Ok(()));
    let mut expected = Vec::new();
    for n in [5232u16, 3077, 62784, 24616, 10464, 41856, 41856] {
        expected.extend_from_slice(&n.to_le_bytes());
    }
    expected.extend_from_slice(&0x400C41u32.to_le_bytes());
    assert_eq!(out, expected);
}

#[test]
fn the_data_section_puts_the_headers_first() {
    let mut second = triangle();
    second.material = material("a.png");
    let mesh = Mesh { primitives: vec![triangle(), second] };
    let table = vec!["a.tga".to_string(), "wall.tga".to_string()];
    let data = create_v3d_mesh_data(&mesh, &table).unwrap();
    let batch = 48 + 48 + 32 + 16 + 16 + 16 + 32;
    assert_eq!(data.len(), 112 + 2 * batch);
    assert_eq!(&data[0x20..0x24], &[1, 0, 0, 0]);
    assert_eq!(&data[0x38 + 0x20..0x38 + 0x24], &[0, 0, 0, 0]);
    let mut one = Vec::new();
    write_v3d_batch_data(&mut one, &triangle()).unwrap();
    assert_eq!(&data[112..112 + batch], &one[..]);
    assert_eq!(&data[112 + batch..], &one[..]);
}

#[test]
fn the_data_section_of_no_primitives_is_empty() {
    let mesh = Mesh { primitives: Vec::new() };
    assert_eq!(create_v3d_mesh_data(&mesh, &Vec::new()), Ok(Vec::new()));
}

#[test]
fn the_first_primitive_that_fails_decides() {
    let mut lines = triangle();
    lines.mode = Mode::Lines;
    let mut bare = triangle();
    bare.normals = None;
    let table = vec!["wall.tga".to_string()];
    let mesh = Mesh { primitives: vec![triangle(), bare.clone(), lines.clone()] };
    assert_eq!(create_v3d_mesh_data(&mesh, &table), Err(Error::MissingNormals));
    let other = Mesh { primitives: vec![lines, bare] };
    assert_eq!(create_v3d_mesh_data(&other, &table), Err(Error::UnsupportedTopology));
}

#[test]
fn vertices_are_counted_over_all_primitives() {
    let mut bare = triangle();
    bare.positions = None;
    let mesh = Mesh { primitives: vec![triangle(), bare, sized(5, 3)] };
    assert_eq!(count_mesh_vertices(&mesh), 8);
    assert_eq!(count_mesh_vertices(&Mesh { primitives: Vec::new() }), 0);
}

#[test]
fn the_box_of_a_mesh_without_vertices_is_the_origin() {
    let zero = BoundingBox { min: [0; 3], max: [0; 3] };
    assert_eq!(compute_mesh_aabb(&Mesh { primitives: Vec::new() }), zero);
    let mut bare = triangle();
    bare.positions = None;
    assert_eq!(compute_mesh_aabb(&Mesh { primitives: vec![bare, sized(0, 0)] }), zero);
}

#[test]
fn the_box_holds_every_vertex() {
    let mesh = Mesh {
        primitives: vec![
            cloud(&[[1.0, -2.0, 3.0], [-4.0, 5.0, 0.5]]),
            cloud(&[[0.0, 0.0, -6.0], [2.5, 1.0, 1.0]]),
        ],
    };
    assert_eq!(
        compute_mesh_aabb(&mesh),
        BoundingBox { min: bits3([-4.0, -2.0, -6.0]), max: bits3([2.5, 5.0, 3.0]) }
    );
}

#[test]
fn the_box_of_one_vertex_is_that_vertex() {
    let mesh = Mesh { primitives: vec![cloud(&[[7.0, 8.0, 9.0]])] };
    assert_eq!(
        compute_mesh_aabb(&mesh),
        BoundingBox { min: bits3([7.0, 8.0, 9.0]), max: bits3([7.0, 8.0, 9.0]) }
    );
}

#[test]
fn the_box_skips_what_is_not_a_number() {
    let mesh = Mesh { primitives: vec![cloud(&[[1.0, f32::NAN, 3.0], [2.0, 4.0, f32::NAN]])] };
    assert_eq!(
        compute_mesh_aabb(&mesh),
        BoundingBox { min: bits3([1.0, 4.0, 3.0]), max: bits3([2.0, 4.0, 3.0]) }
    );
}

#[test]
fn the_radius_is_the_greatest_distance() {
    let mesh = Mesh {
        primitives: vec![
            cloud(&[[3.0, 4.0, 0.0], [1.0, 0.0, 0.0]]),
            cloud(&[[0.0, 0.0, -13.0], [0.0, 2.0, 0.0]]),
        ],
    };
    assert_eq!(compute_mesh_bounding_sphere_radius(&mesh), Ok(13.0f32.to_bits()));
    let near = Mesh { primitives: vec![cloud(&[[3.0, 4.0, 0.0], [1.0, 0.0, 0.0]])] };
    assert_eq!(compute_mesh_bounding_sphere_radius(&near), Ok(5.0f32.to_bits()));
}

#[test]
fn one_vertex_at_the_origin_gives_the_radius_zero() {
    let mesh = Mesh { primitives: vec![cloud(&[[0.0, 0.0, 0.0]])] };
    assert_eq!(compute_mesh_bounding_sphere_radius(&mesh), Ok(0));
}

#[test]
fn the_radius_of_a_mesh_without_primitives_is_zero() {
    assert_eq!(compute_mesh_bounding_sphere_radius(&Mesh { primitives: Vec::new() }), Ok(0));
}

#[test]
fn the_radius_needs_the_positions_of_every_primitive() {
    let mut bare = triangle();
    bare.positions = None;
    let mesh = Mesh { primitives: vec![triangle(), bare] };
    assert_eq!(compute_mesh_bounding_sphere_radius(&mesh), Err(Error::MissingPositions));
}
