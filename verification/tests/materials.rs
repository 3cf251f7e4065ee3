use v3d_tool::error::{Error, Warning};
use v3d_tool::render_state::{
    compute_render_state_for_material, material_render_state, AlphaBlend, AlphaOp, ColorOp,
    FogType, RenderState, TextureSource, ZbufferType,
};
use v3d_tool::scene::{AlphaMode, Material, Mesh, Mode, Primitive, Texture, WrappingMode};
use v3d_tool::texture::{
    change_texture_ext_to_tga, find_texture, get_emissive_factor,
    get_material_base_color_texture_name, get_submesh_textures, name_lt, texture_index,
};

fn texture(name: &str) -> Texture {
    Texture {
        image_name: Some(name.to_string()),
        image_uri: None,
        wrap_s: WrappingMode::Repeat,
        wrap_t: WrappingMode::Repeat,
    }
}

fn material(name: Option<&str>) -> Material {
    Material {
        index: Some(0),
        base_color_texture: name.map(texture),
        alpha_mode: AlphaMode::Opaque,
        emissive_factor: [0; 3],
        double_sided: false,
    }
}

fn sampled(wrap_s: WrappingMode, wrap_t: WrappingMode, alpha_mode: AlphaMode) -> Material {
    Material {
        index: Some(0),
        base_color_texture: Some(Texture {
            image_name: Some("t.png".to_string()),
            image_uri: None,
            wrap_s,
            wrap_t,
        }),
        alpha_mode,
        emissive_factor: [0; 3],
        double_sided: false,
    }
}

fn primitive(material: Material) -> Primitive {
    Primitive {
        mode: Mode::Triangles,
        positions: None,
        normals: None,
        tex_coords: Vec::new(),
        indices: None,
        planes: Vec::new(),
        material,
    }
}

fn mesh_of(names: &[&str]) -> Mesh {
    Mesh { primitives: names.iter().map(|n| primitive(material(Some(n)))).collect() }
}

fn emissive(name: &str, rgb: [f32; 3]) -> Primitive {
    let mut m = material(Some(name));
    m.emissive_factor = [rgb[0].to_bits(), rgb[1].to_bits(), rgb[2].to_bits()];
    primitive(m)
}

#[test]
fn the_extension_is_replaced() {
    assert_eq!(change_texture_ext_to_tga("wall.png"), "wall.tga");
    assert_eq!(change_texture_ext_to_tga("wall.tga"), "wall.tga");
}

#[test]
fn a_name_without_extension_gets_one() {
    assert_eq!(change_texture_ext_to_tga("wall"), "wall.tga");
    assert_eq!(change_texture_ext_to_tga(""), ".tga");
}

#[test]
fn everything_from_the_first_dot_on_is_replaced() {
    assert_eq!(change_texture_ext_to_tga("wall.old.png"), "wall.tga");
    assert_eq!(change_texture_ext_to_tga(".png"), ".tga");
    assert_eq!(change_texture_ext_to_tga("textures/v1.2/wall.png"), "textures/v1.tga");
    assert_eq!(change_texture_ext_to_tga("wall."), "wall.tga");
}

#[test]
fn names_beyond_ascii_keep_their_characters() {
    assert_eq!(change_texture_ext_to_tga("mür.png"), "mür.tga");
    assert_eq!(change_texture_ext_to_tga("壁.jpeg"), "壁.tga");
}

#[test]
fn the_image_name_is_preferred() {
    let mut m = material(Some("wall.png"));
    m.base_color_texture.as_mut().unwrap().image_uri = Some("other.jpg".to_string());
    assert_eq!(get_material_base_color_texture_name(&m), ("wall.tga".to_string(), None));
}

#[test]
fn the_path_stands_in_for_a_missing_image_name() {
    let mut m = material(Some("unused"));
    let t = m.base_color_texture.as_mut().unwrap();
    t.image_name = None;
    t.image_uri = Some("brick.jpg".to_string());
    assert_eq!(get_material_base_color_texture_name(&m), ("brick.tga".to_string(), None));
}

#[test]
fn a_material_without_texture_gets_the_default_name() {
    let mut m = material(None);
    m.index = Some(4);
    assert_eq!(
        get_material_base_color_texture_name(&m),
        ("Rck_Default.tga".to_string(), Some(Warning::MissingBaseColorTexture { material: 4 }))
    );
    m.index = None;
    assert_eq!(
        get_material_base_color_texture_name(&m),
        ("Rck_Default.tga".to_string(), Some(Warning::MissingBaseColorTexture { material: 0 }))
    );
}

#[test]
fn a_texture_without_any_name_gets_the_default_name() {
    let mut m = material(Some("unused"));
    m.index = Some(2);
    m.base_color_texture.as_mut().unwrap().image_name = None;
    assert_eq!(
        get_material_base_color_texture_name(&m),
        ("Rck_Default.tga".to_string(), Some(Warning::MissingBaseColorTexture { material: 2 }))
    );
}

#[test]
fn names_are_ordered_by_their_bytes() {
    let names = ["", "A", "B.tga", "Z", "a", "a.tga", "aa", "ab", "b", "é", "壁"];
    for a in names {
        for b in names {
            assert_eq!(name_lt(a, b), a < b, "{:?} < {:?}", a, b);
        }
    }
}

#[test]
fn the_table_is_sorted_and_without_repetition() {
    let mesh = mesh_of(&["b.png", "a.png", "b.jpg", "c.png", "a.bmp"]);
    assert_eq!(
        get_submesh_textures(&mesh),
        Ok(vec!["a.tga".to_string(), "b.tga".to_string(), "c.tga".to_string()])
    );
}

#[test]
fn the_table_of_a_mesh_without_primitives_is_empty() {
    assert_eq!(get_submesh_textures(&mesh_of(&[])), Ok(Vec::new()));
}

#[test]
fn the_table_holds_the_default_name_too() {
    let mut mesh = mesh_of(&["wall.png", "Stone.png"]);
    mesh.primitives.push(primitive(material(None)));
    assert_eq!(
        get_submesh_textures(&mesh),
        Ok(vec!["Rck_Default.tga".to_string(), "Stone.tga".to_string(), "wall.tga".to_string()])
    );
}

#[test]
fn the_table_does_not_depend_on_the_order_of_the_primitives() {
    let names = ["d.png", "a.png", "c.png", "b.png", "a.png"];
    let expected = get_submesh_textures(&mesh_of(&names)).unwrap();
    let mut reversed = names;
    reversed.reverse();
    assert_eq!(get_submesh_textures(&mesh_of(&reversed)).unwrap(), expected);
    let rotated = ["a.png", "d.png", "a.png", "c.png", "b.png"];
    assert_eq!(get_submesh_textures(&mesh_of(&rotated)).unwrap(), expected);
    assert_eq!(expected, vec!["a.tga", "b.tga", "c.tga", "d.tga"]);
}

#[test]
fn seven_textures_are_accepted() {
    let mesh = mesh_of(&["g", "f", "e", "d", "c", "b", "a", "a", "g"]);
    let table = get_submesh_textures(&mesh).unwrap();
    assert_eq!(table.len(), 7);
    assert_eq!(table[0], "a.tga");
    assert_eq!(table[6], "g.tga");
}

#[test]
fn eight_textures_are_refused() {
    let mesh = mesh_of(&["h", "g", "f", "e", "d", "c", "b", "a"]);
    assert_eq!(get_submesh_textures(&mesh), Err(Error::TooManyTextures { count: 8, limit: 7 }));
    let more = mesh_of(&["h", "g", "f", "e", "d", "c", "b", "a", "i", "a"]);
    assert_eq!(get_submesh_textures(&more), Err(Error::TooManyTextures { count: 9, limit: 7 }));
}

#[test]
fn a_texture_is_found_at_its_place() {
    let table = vec!["a.tga".to_string(), "b.tga".to_string(), "c.tga".to_string()];
    assert_eq!(find_texture(&table, &"a.tga".to_string()), Some(0));
    assert_eq!(find_texture(&table, &"c.tga".to_string()), Some(2));
    assert_eq!(find_texture(&table, &"d.tga".to_string()), None);
    assert_eq!(find_texture(&Vec::new(), &"a.tga".to_string()), None);
}

#[test]
fn the_emissive_factor_is_the_strongest_channel() {
    let mesh = Mesh { primitives: vec![emissive("a.png", [0.25, 0.75, 0.5])] };
    assert_eq!(get_emissive_factor(&mesh, "a.tga"), 0.75f32.to_bits());
}

#[test]
fn the_emissive_factor_is_taken_over_the_primitives_of_the_texture() {
    let mesh = Mesh {
        primitives: vec![
            emissive("a.png", [0.25, 0.0, 0.0]),
            emissive("b.png", [0.0, 0.0, 1.0]),
            emissive("a.jpg", [0.0, 0.5, 0.125]),
        ],
    };
    assert_eq!(get_emissive_factor(&mesh, "a.tga"), 0.5f32.to_bits());
    assert_eq!(get_emissive_factor(&mesh, "b.tga"), 1.0f32.to_bits());
    assert_eq!(get_emissive_factor(&mesh, "c.tga"), 0);
}

#[test]
fn the_emissive_factor_is_never_negative() {
    let mesh = Mesh { primitives: vec![emissive("a.png", [-1.0, -2.0, f32::NAN])] };
    assert_eq!(get_emissive_factor(&mesh, "a.tga"), 0);
}

#[test]
fn an_opaque_material_is_drawn_with_the_full_depth_buffer() {
    let m = sampled(WrappingMode::Repeat, WrappingMode::Repeat, AlphaMode::Opaque);
    assert_eq!(
        material_render_state(&m),
        RenderState {
            texture_source: TextureSource::Wrap,
            color_op: ColorOp::Mul,
            alpha_op: AlphaOp::Mul,
            alpha_blend: AlphaBlend::Disabled,
            zbuffer_type: ZbufferType::Full,
            fog: FogType::Type0,
        }
    );
    assert_eq!(compute_render_state_for_material(&m), (0x400C41, Vec::new()));
}

#[test]
fn a_blended_material_blends_and_tests_alpha() {
    let m = sampled(WrappingMode::Repeat, WrappingMode::Repeat, AlphaMode::Blend);
    assert_eq!(compute_render_state_for_material(&m), (0x518C41, Vec::new()));
}

#[test]
fn a_masked_material_tests_alpha_without_blending() {
    let m = sampled(WrappingMode::Repeat, WrappingMode::Repeat, AlphaMode::Mask);
    assert_eq!(compute_render_state_for_material(&m), (0x500C41, Vec::new()));
}

#[test]
fn clamping_to_the_edge_clamps() {
    let m = sampled(WrappingMode::ClampToEdge, WrappingMode::ClampToEdge, AlphaMode::Opaque);
    assert_eq!(compute_render_state_for_material(&m), (0x400C42, Vec::new()));
}

#[test]
fn a_material_without_texture_wraps() {
    let mut m = material(None);
    m.alpha_mode = AlphaMode::Opaque;
    assert_eq!(compute_render_state_for_material(&m), (0x400C41, Vec::new()));
}

#[test]
fn mirrored_repeat_degrades_to_wrap_with_a_warning() {
    let m = sampled(WrappingMode::MirroredRepeat, WrappingMode::MirroredRepeat, AlphaMode::Opaque);
    let (state, warnings) = compute_render_state_for_material(&m);
    assert_eq!(state & 31, 1);
    assert_eq!(state, 0x400C41);
    assert_eq!(warnings, vec![Warning::MirroredRepeatUnsupported]);
}

#[test]
fn a_mismatch_of_wrapping_modes_follows_s_with_a_warning() {
    let m = sampled(WrappingMode::ClampToEdge, WrappingMode::Repeat, AlphaMode::Opaque);
    assert_eq!(compute_render_state_for_material(&m), (0x400C42, vec![Warning::WrapModeMismatch]));
    let n = sampled(WrappingMode::Repeat, WrappingMode::ClampToEdge, AlphaMode::Opaque);
    assert_eq!(compute_render_state_for_material(&n), (0x400C41, vec![Warning::WrapModeMismatch]));
}

#[test]
fn both_warnings_come_in_their_order() {
    let m = sampled(WrappingMode::MirroredRepeat, WrappingMode::Repeat, AlphaMode::Blend);
    assert_eq!(
        compute_render_state_for_material(&m),
        (0x518C41, vec![Warning::WrapModeMismatch, Warning::MirroredRepeatUnsupported])
    );
}

#[test]
fn codes_match_the_format() {
    assert_eq!(TextureSource::Disabled.value(), 0);
    assert_eq!(TextureSource::ClampNoFiltering.value(), 3);
    assert_eq!(ColorOp::SelectArg0IgnoreCurrentColor.value(), 0);
    assert_eq!(ColorOp::Mul2x.value(), 4);
    assert_eq!(AlphaOp::SelArg2.value(), 0);
    assert_eq!(AlphaOp::Mul.value(), 3);
    assert_eq!(AlphaBlend::Disabled.value(), 0);
    assert_eq!(AlphaBlend::SwappedSrcDestColor.value(), 7);
    assert_eq!(ZbufferType::Disabled.value(), 0);
    assert_eq!(ZbufferType::FullAlphaTest.value(), 5);
    assert_eq!(FogType::Type0.value(), 0);
    assert_eq!(FogType::ForceOff.value(), 3);
}

#[test]
fn each_field_takes_five_bits() {
    let state = RenderState {
        texture_source: TextureSource::ClampNoFiltering,
        color_op: ColorOp::Mul2x,
        alpha_op: AlphaOp::SelArg1,
        alpha_blend: AlphaBlend::SwappedSrcDestColor,
        zbuffer_type: ZbufferType::Write,
        fog: FogType::ForceOff,
    };
    assert_eq!(state.pack(), 3 | (4 << 5) | (1 << 10) | (7 << 15) | (3 << 20) | (3 << 25));
}

#[test]
fn the_place_of_a_texture_in_its_table() {
    let table = get_submesh_textures(&mesh_of(&["c.png", "a.png", "b.png"])).unwrap();
    assert_eq!(texture_index(&table, &"a.tga".to_string()), 0);
    assert_eq!(texture_index(&table, &"b.tga".to_string()), 1);
    assert_eq!(texture_index(&table, &"c.tga".to_string()), 2);
}
