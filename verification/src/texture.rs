//! Texture names: how a material resolves to one, and the sorted table of
//! the distinct names that a submesh uses.

use vstd::pervasive::unreached;
use vstd::prelude::*;
use vstd::string::{StrSliceExecFns, StringExecFns};
use vstd::utf8::{encode_utf8, encode_utf8_decode_utf8};
use crate::binary32::{max, maximum, ZERO};
use crate::error::{Error, ErrorView, Warning};
use crate::scene::{Material, MaterialView, Mesh, MeshView, PrimitiveView, Vector3};

verus! {

/// The most distinct textures that one submesh can use.
pub const MAX_TEXTURES: usize = 7;

/// Where the first dot of `name` stands, or the length of `name` if it has none.
pub open spec fn first_dot(name: Seq<char>) -> int
    decreases name.len(),
{
    if name.len() == 0 || name[0] == '.' {
        0
    } else {
        1 + first_dot(name.drop_first())
    }
}

/// `name` with everything from its first dot on replaced by `.tga`.
pub open spec fn tga_name(name: Seq<char>) -> Seq<char> {
    name.take(first_dot(name)) + ".tga"@
}

/// The name that stands in for a material without a named base-color texture.
pub open spec fn default_texture() -> Seq<char> {
    "Rck_Default.tga"@
}

/// The name of the source image of a material's base-color texture: the
/// name of the image where it has one, else the path it is referred to by.
pub open spec fn source_name(m: MaterialView) -> Option<Seq<char>> {
    match m.base_color_texture {
        Some(texture) => match texture.image_name {
            Some(name) => Some(name),
            None => texture.image_uri,
        },
        None => None,
    }
}

/// The texture name that a material resolves to.
pub open spec fn texture_name(m: MaterialView) -> Seq<char> {
    match source_name(m) {
        Some(name) => tga_name(name),
        None => default_texture(),
    }
}

/// The diagnostic that goes with [`texture_name`]: one is due exactly when
/// the default name stands in.
pub open spec fn texture_warning(m: MaterialView) -> Option<Warning> {
    match source_name(m) {
        Some(_) => None,
        None => Some(
            Warning::MissingBaseColorTexture {
                material: match m.index {
                    Some(i) => i,
                    None => 0,
                },
            },
        ),
    }
}

/// Lexicographic order on bytes: a proper prefix comes first.
pub open spec fn bytes_less(a: Seq<u8>, b: Seq<u8>) -> bool
    decreases a.len(),
{
    if b.len() == 0 {
        false
    } else if a.len() == 0 {
        true
    } else if a[0] != b[0] {
        a[0] < b[0]
    } else {
        bytes_less(a.drop_first(), b.drop_first())
    }
}

/// The order of names: that of their UTF-8 bytes.
pub open spec fn name_less(a: Seq<char>, b: Seq<char>) -> bool {
    bytes_less(encode_utf8(a), encode_utf8(b))
}

/// Whether each name comes before all later ones.
pub open spec fn strictly_increasing(t: Seq<Seq<char>>) -> bool {
    forall|i: int, j: int| 0 <= i < j < t.len() ==> name_less(#[trigger] t[i], #[trigger] t[j])
}

/// The texture names that the primitives resolve to.
pub open spec fn texture_names(primitives: Seq<PrimitiveView>) -> Set<Seq<char>> {
    Set::new(
        |name: Seq<char>|
            exists|i: int|
                0 <= i < primitives.len() && name == texture_name(
                    #[trigger] primitives[i].material,
                ),
    )
}

/// Whether `t` lists exactly the names in `names`, each once, in increasing order.
pub open spec fn is_texture_table(t: Seq<Seq<char>>, names: Set<Seq<char>>) -> bool {
    &&& strictly_increasing(t)
    &&& forall|name: Seq<char>| t.contains(name) <==> names.contains(name)
}

/// The texture table of a mesh: the distinct texture names of its
/// primitives in increasing order.
pub open spec fn texture_table(mesh: MeshView) -> Seq<Seq<char>> {
    choose|t: Seq<Seq<char>>| is_texture_table(t, texture_names(mesh.primitives))
}

/// The names that a vector of strings holds.
pub open spec fn names_of(v: Seq<String>) -> Seq<Seq<char>> {
    v.map_values(|s: String| s@)
}

/// The place of `name` in `table`, or the length of `table` if it is not there.
pub open spec fn position(table: Seq<Seq<char>>, name: Seq<char>) -> int
    decreases table.len(),
{
    if table.len() == 0 || table[0] == name {
        0
    } else {
        1 + position(table.drop_first(), name)
    }
}

/// The strongest of the three channels of an emissive color, and no less than zero.
pub open spec fn channel_max(e: Vector3) -> u32 {
    maximum(maximum(maximum(ZERO, e[0]), e[1]), e[2])
}

/// The emissive strength of a texture: the greatest [`channel_max`] among
/// the primitives that resolve to it, and zero if there is none.
pub open spec fn emissive_factor(primitives: Seq<PrimitiveView>, texture: Seq<char>) -> u32
    decreases primitives.len(),
{
    if primitives.len() == 0 {
        ZERO
    } else {
        let rest = emissive_factor(primitives.drop_last(), texture);
        let material = primitives.last().material;
        if texture_name(material) == texture {
            maximum(rest, channel_max(material.emissive_factor))
        } else {
            rest
        }
    }
}

proof fn lemma_first_dot(name: Seq<char>, k: int)
    requires
        0 <= k <= name.len(),
        forall|j: int| 0 <= j < k ==> name[j] != '.',
        k < name.len() ==> name[k] == '.',
    ensures
        first_dot(name) == k,
    decreases k,
{
    if k > 0 {
        let rest = name.drop_first();
        assert forall|j: int| 0 <= j < k - 1 implies rest[j] != '.' by {
            assert(rest[j] == name[j + 1]);
        }
        lemma_first_dot(rest, k - 1);
    }
}

/// Replaces the extension of a texture name, which is all that follows its
/// first dot, by `.tga`; a name without a dot gets `.tga` appended.
pub fn change_texture_ext_to_tga(name: &str) -> (r: String)
    ensures
        r@ == tga_name(name@),
{
    let len = name.unicode_len();
    let mut dot_offset: usize = 0;
    while dot_offset < len && name.get_char(dot_offset) != '.'
        invariant
            dot_offset <= len,
            len == name@.len(),
            forall|j: int| 0 <= j < dot_offset ==> name@[j] != '.',
        decreases len - dot_offset,
    {
        dot_offset += 1;
    }
    proof {
        lemma_first_dot(name@, dot_offset as int);
    }
    let mut owned = String::from_str(name.substring_char(0, dot_offset));
    owned.append(".tga");
    owned
}

/// Resolves the texture name of a material. A material without a named
/// base-color texture resolves to the default name, and the diagnostic says so.
pub fn get_material_base_color_texture_name(material: &Material) -> (r: (String, Option<Warning>))
    ensures
        r.0@ == texture_name(material@),
        r.1 == texture_warning(material@),
{
    if let Some(texture) = &material.base_color_texture {
        if let Some(img_name) = &texture.image_name {
            return (change_texture_ext_to_tga(img_name.as_str()), None);
        }
        if let Some(uri) = &texture.image_uri {
            return (change_texture_ext_to_tga(uri.as_str()), None);
        }
    }
    let index = match material.index {
        Some(i) => i,
        None => 0,
    };
    (
        String::from_str("Rck_Default.tga"),
        Some(Warning::MissingBaseColorTexture { material: index }),
    )
}

/// No sequence of bytes comes before itself.
pub proof fn lemma_bytes_less_irreflexive(a: Seq<u8>)
    ensures
        !bytes_less(a, a),
    decreases a.len(),
{
    if a.len() > 0 {
        lemma_bytes_less_irreflexive(a.drop_first());
    }
}

/// The order on bytes is transitive.
pub proof fn lemma_bytes_less_transitive(a: Seq<u8>, b: Seq<u8>, c: Seq<u8>)
    requires
        bytes_less(a, b),
        bytes_less(b, c),
    ensures
        bytes_less(a, c),
    decreases a.len(),
{
    if a.len() > 0 && a[0] == b[0] && b[0] == c[0] {
        lemma_bytes_less_transitive(a.drop_first(), b.drop_first(), c.drop_first());
    }
}

/// Of two different sequences of bytes one comes before the other.
pub proof fn lemma_bytes_less_total(a: Seq<u8>, b: Seq<u8>)
    ensures
        a == b || bytes_less(a, b) || bytes_less(b, a),
    decreases a.len(),
{
    if a.len() == 0 || b.len() == 0 {
        if a.len() == 0 && b.len() == 0 {
            assert(a =~= b);
        }
    } else if a[0] == b[0] {
        lemma_bytes_less_total(a.drop_first(), b.drop_first());
        if a.drop_first() == b.drop_first() {
            assert(a =~= seq![a[0]] + a.drop_first());
            assert(b =~= seq![b[0]] + b.drop_first());
        }
    }
}

/// The order of names is a strict total order.
pub proof fn lemma_name_order(a: Seq<char>, b: Seq<char>, c: Seq<char>)
    ensures
        !name_less(a, a),
        name_less(a, b) && name_less(b, c) ==> name_less(a, c),
        a == b || name_less(a, b) || name_less(b, a),
{
    lemma_bytes_less_irreflexive(encode_utf8(a));
    if name_less(a, b) && name_less(b, c) {
        lemma_bytes_less_transitive(encode_utf8(a), encode_utf8(b), encode_utf8(c));
    }
    lemma_bytes_less_total(encode_utf8(a), encode_utf8(b));
    encode_utf8_decode_utf8(a);
    encode_utf8_decode_utf8(b);
}

/// A set of names has at most one texture table.
pub proof fn lemma_texture_table_unique(a: Seq<Seq<char>>, b: Seq<Seq<char>>)
    requires
        strictly_increasing(a),
        strictly_increasing(b),
        forall|name: Seq<char>| a.contains(name) <==> b.contains(name),
    ensures
        a == b,
    decreases a.len(),
{
    if a.len() == 0 {
        if b.len() > 0 {
            assert(b.contains(b[0]));
        }
        assert(a =~= b);
    } else {
        let m = a.last();
        assert(a.contains(m));
        assert(b.contains(m));
        let j = choose|j: int| 0 <= j < b.len() && b[j] == m;
        if j != b.len() - 1 {
            let top = b.last();
            assert(name_less(b[j], top));
            assert(b.contains(top));
            assert(a.contains(top));
            let i = choose|i: int| 0 <= i < a.len() && a[i] == top;
            if i < a.len() - 1 {
                assert(name_less(a[i], a[a.len() - 1]));
            }
            lemma_name_order(m, top, m);
            assert(false);
        }
        let a0 = a.drop_last();
        let b0 = b.drop_last();
        assert forall|name: Seq<char>| a0.contains(name) <==> b0.contains(name) by {
            lemma_name_order(name, name, name);
            if a0.contains(name) {
                let i = choose|i: int| 0 <= i < a0.len() && a0[i] == name;
                assert(a[i] == name);
                assert(name_less(a[i], a[a.len() - 1]));
                assert(a.contains(name));
                let k = choose|k: int| 0 <= k < b.len() && b[k] == name;
                assert(b0[k] == name);
            }
            if b0.contains(name) {
                let i = choose|i: int| 0 <= i < b0.len() && b0[i] == name;
                assert(b[i] == name);
                assert(name_less(b[i], b[b.len() - 1]));
                assert(b.contains(name));
                let k = choose|k: int| 0 <= k < a.len() && a[k] == name;
                assert(a0[k] == name);
            }
        }
        assert(strictly_increasing(a0)) by {
            assert forall|i: int, j: int| 0 <= i < j < a0.len() implies name_less(
                #[trigger] a0[i],
                #[trigger] a0[j],
            ) by {
                assert(name_less(a[i], a[j]));
            }
        }
        assert(strictly_increasing(b0)) by {
            assert forall|i: int, j: int| 0 <= i < j < b0.len() implies name_less(
                #[trigger] b0[i],
                #[trigger] b0[j],
            ) by {
                assert(name_less(b[i], b[j]));
            }
        }
        lemma_texture_table_unique(a0, b0);
        assert(a =~= a0.push(m));
        assert(b =~= b0.push(m));
    }
}

/// Putting a new name into a table at the place where the greater names
/// begin gives a table again, which holds that name besides the others.
pub proof fn lemma_insert_keeps_order(before: Seq<Seq<char>>, k: int, name: Seq<char>)
    requires
        strictly_increasing(before),
        0 <= k <= before.len(),
        forall|j: int| 0 <= j < k ==> name_less(#[trigger] before[j], name),
        k < before.len() ==> name_less(name, before[k]),
    ensures
        strictly_increasing(before.insert(k, name)),
        forall|n: Seq<char>|
            before.insert(k, name).contains(n) <==> (before.contains(n) || n == name),
{
    let after = before.insert(k, name);
    assert forall|j: int| k <= j < before.len() implies name_less(name, #[trigger] before[j]) by {
        lemma_name_order(name, before[k], before[j]);
        if j > k {
            assert(name_less(before[k], before[j]));
        }
    }
    assert forall|i: int, j: int| 0 <= i < j < after.len() implies name_less(
        #[trigger] after[i],
        #[trigger] after[j],
    ) by {
        if j < k {
            assert(name_less(before[i], before[j]));
        } else if j == k {
        } else if i < k {
            assert(name_less(before[i], before[j - 1]));
        } else if i == k {
        } else {
            assert(name_less(before[i - 1], before[j - 1]));
        }
    }
    assert forall|n: Seq<char>| after.contains(n) <==> (before.contains(n) || n == name) by {
        if after.contains(n) {
            let i = choose|i: int| 0 <= i < after.len() && after[i] == n;
            if i < k {
                assert(before[i] == n);
            } else if i > k {
                assert(before[i - 1] == n);
            }
        }
        if before.contains(n) {
            let i = choose|i: int| 0 <= i < before.len() && before[i] == n;
            if i < k {
                assert(after[i] == n);
            } else {
                assert(after[i + 1] == n);
            }
        }
        if n == name {
            assert(after[k] == n);
        }
    }
}

proof fn lemma_place_of(table: Seq<Seq<char>>, name: Seq<char>, from: int) -> (k: int)
    requires
        0 <= from <= table.len(),
        forall|j: int| 0 <= j < from ==> name_less(#[trigger] table[j], name),
    ensures
        from <= k <= table.len(),
        forall|j: int| 0 <= j < k ==> name_less(#[trigger] table[j], name),
        k < table.len() ==> !name_less(table[k], name),
    decreases table.len() - from,
{
    if from < table.len() && name_less(table[from], name) {
        lemma_place_of(table, name, from + 1)
    } else {
        from
    }
}

/// Whatever the primitives, their texture names have a table.
pub proof fn lemma_texture_table_exists(primitives: Seq<PrimitiveView>) -> (table: Seq<Seq<char>>)
    ensures
        is_texture_table(table, texture_names(primitives)),
    decreases primitives.len(),
{
    if primitives.len() == 0 {
        let table = Seq::<Seq<char>>::empty();
        assert forall|n: Seq<char>| !table.contains(n) by {}
        table
    } else {
        let seen = primitives.drop_last();
        let before = lemma_texture_table_exists(seen);
        let name = texture_name(primitives.last().material);
        let table = if before.contains(name) {
            before
        } else {
            let k = lemma_place_of(before, name, 0);
            if k < before.len() {
                assert(before.contains(before[k]));
                lemma_name_order(before[k], name, name);
            }
            lemma_insert_keeps_order(before, k, name);
            before.insert(k, name)
        };
        assert forall|n: Seq<char>| table.contains(n) <==> texture_names(primitives).contains(
            n,
        ) by {
            if texture_names(seen).contains(n) {
                let j = choose|j: int|
                    0 <= j < seen.len() && n == texture_name(#[trigger] seen[j].material);
                assert(primitives[j] == seen[j]);
            }
            if texture_names(primitives).contains(n) {
                let j = choose|j: int|
                    0 <= j < primitives.len() && n == texture_name(
                        #[trigger] primitives[j].material,
                    );
                if j < seen.len() {
                    assert(seen[j] == primitives[j]);
                }
            }
        }
        table
    }
}

/// The texture table of a mesh is a table of the texture names of its
/// primitives, and the only one.
pub proof fn lemma_texture_table(mesh: MeshView, other: Seq<Seq<char>>)
    ensures
        is_texture_table(texture_table(mesh), texture_names(mesh.primitives)),
        is_texture_table(other, texture_names(mesh.primitives)) ==> other == texture_table(mesh),
{
    let witness = lemma_texture_table_exists(mesh.primitives);
    if is_texture_table(other, texture_names(mesh.primitives)) {
        lemma_texture_table_unique(other, texture_table(mesh));
    }
}

/// Decides [`name_less`].
pub fn name_lt(a: &str, b: &str) -> (r: bool)
    ensures
        r == name_less(a@, b@),
{
    let x = a.as_bytes();
    let y = b.as_bytes();
    let mut i: usize = 0;
    assert(x@.skip(0) == x@ && y@.skip(0) == y@);
    loop
        invariant
            i <= x.len(),
            i <= y.len(),
            x@ == encode_utf8(a@),
            y@ == encode_utf8(b@),
            bytes_less(x@, y@) == bytes_less(x@.skip(i as int), y@.skip(i as int)),
        decreases x.len() - i,
    {
        if i == y.len() {
            return false;
        }
        if i == x.len() {
            return true;
        }
        if x[i] != y[i] {
            return x[i] < y[i];
        }
        proof {
            assert(x@.skip(i as int).drop_first() == x@.skip(i + 1));
            assert(y@.skip(i as int).drop_first() == y@.skip(i + 1));
        }
        i += 1;
    }
}

/// Puts `name` into a sorted table, unless it is there already.
fn insert_texture(textures: &mut Vec<String>, name: String)
    requires
        strictly_increasing(names_of(old(textures)@)),
    ensures
        strictly_increasing(names_of(final(textures)@)),
        forall|n: Seq<char>|
            names_of(final(textures)@).contains(n) <==> (names_of(old(textures)@).contains(n) || n
                == name@),
{
    let ghost before = names_of(textures@);
    let mut k: usize = 0;
    while k < textures.len() && name_lt(textures[k].as_str(), name.as_str())
        invariant
            k <= textures.len(),
            names_of(textures@) == before,
            forall|j: int| 0 <= j < k ==> name_less(#[trigger] before[j], name@),
        decreases textures.len() - k,
    {
        k += 1;
    }
    if k < textures.len() && textures[k] == name {
        proof {
            assert(before[k as int] == name@);
        }
        return ;
    }
    let ghost wanted = name@;
    proof {
        if k < textures.len() {
            assert(before[k as int] == textures@[k as int]@);
            lemma_name_order(before[k as int], wanted, wanted);
        }
    }
    textures.insert(k, name);
    proof {
        let after = names_of(textures@);
        assert(after =~= before.insert(k as int, wanted));
        lemma_insert_keeps_order(before, k as int, wanted);
        assert(strictly_increasing(after));
        assert forall|n: Seq<char>| after.contains(n) <==> (before.contains(n) || n
            == wanted) by {
            assert(before.insert(k as int, wanted).contains(n) <==> (before.contains(n) || n
                == wanted));
        }
    }
}

/// Builds the texture table of a mesh: the texture names of its primitives,
/// sorted and without repetition. A mesh with more than [`MAX_TEXTURES`]
/// distinct names is refused.
pub fn get_submesh_textures(mesh: &Mesh) -> (r: Result<Vec<String>, Error>)
    ensures
        is_texture_table(texture_table(mesh@), texture_names(mesh@.primitives)),
        match r {
            Ok(textures) => names_of(textures@) == texture_table(mesh@) && textures@.len()
                <= MAX_TEXTURES,
            Err(e) => texture_table(mesh@).len() > MAX_TEXTURES && e@
                == ErrorView::TooManyTextures {
                count: texture_table(mesh@).len() as usize,
                limit: MAX_TEXTURES,
            },
        },
{
    let mut textures: Vec<String> = Vec::new();
    let mut i: usize = 0;
    assert(is_texture_table(names_of(textures@), texture_names(mesh@.primitives.take(0)))) by {
        assert forall|n: Seq<char>| !names_of(textures@).contains(n) by {}
    }
    while i < mesh.primitives.len()
        invariant
            i <= mesh.primitives.len(),
            is_texture_table(names_of(textures@), texture_names(mesh@.primitives.take(i as int))),
        decreases mesh.primitives.len() - i,
    {
        let ghost before = names_of(textures@);
        let (name, _) = get_material_base_color_texture_name(&mesh.primitives[i].material);
        let ghost wanted = name@;
        insert_texture(&mut textures, name);
        proof {
            let seen = mesh@.primitives.take(i as int);
            let next = mesh@.primitives.take(i + 1);
            assert(next[i as int].material == mesh.primitives@[i as int].material@);
            assert forall|n: Seq<char>|
                names_of(textures@).contains(n) <==> texture_names(next).contains(n) by {
                if texture_names(seen).contains(n) {
                    let j = choose|j: int|
                        0 <= j < seen.len() && n == texture_name(#[trigger] seen[j].material);
                    assert(next[j] == seen[j]);
                }
                if texture_names(next).contains(n) {
                    let j = choose|j: int|
                        0 <= j < next.len() && n == texture_name(#[trigger] next[j].material);
                    if j < i {
                        assert(seen[j] == next[j]);
                    }
                }
            }
        }
        i += 1;
    }
    proof {
        assert(mesh@.primitives.take(i as int) == mesh@.primitives);
        let table = texture_table(mesh@);
        lemma_texture_table_unique(names_of(textures@), table);
    }
    if textures.len() > MAX_TEXTURES {
        return Err(Error::TooManyTextures { count: textures.len(), limit: MAX_TEXTURES });
    }
    Ok(textures)
}

/// The place of `name` in `textures`, if it is there.
pub fn find_texture(textures: &Vec<String>, name: &String) -> (r: Option<usize>)
    ensures
        match r {
            Some(i) => i == position(names_of(textures@), name@) && i < textures@.len(),
            None => position(names_of(textures@), name@) == textures@.len(),
        },
{
    let mut i: usize = 0;
    assert(names_of(textures@).skip(0) == names_of(textures@));
    while i < textures.len()
        invariant
            i <= textures.len(),
            position(names_of(textures@), name@) == i + position(
                names_of(textures@).skip(i as int),
                name@,
            ),
        decreases textures.len() - i,
    {
        if textures[i] == *name {
            return Some(i);
        }
        proof {
            let rest = names_of(textures@).skip(i as int);
            assert(rest[0] == textures@[i as int]@);
            assert(rest.drop_first() == names_of(textures@).skip(i + 1));
        }
        i += 1;
    }
    None
}

/// A name that a table holds has a place in it.
pub proof fn lemma_position_of_member(table: Seq<Seq<char>>, name: Seq<char>)
    ensures
        0 <= position(table, name) <= table.len(),
        table.contains(name) <==> position(table, name) < table.len(),
        position(table, name) < table.len() ==> table[position(table, name)] == name,
    decreases table.len(),
{
    if table.len() > 0 && table[0] != name {
        let rest = table.drop_first();
        lemma_position_of_member(rest, name);
        if table.contains(name) {
            let i = choose|i: int| 0 <= i < table.len() && table[i] == name;
            assert(rest[i - 1] == name);
        }
        if rest.contains(name) {
            let i = choose|i: int| 0 <= i < rest.len() && rest[i] == name;
            assert(table[i + 1] == name);
        }
    } else if table.len() > 0 {
        assert(table[0] == name);
    }
}

/// The place of a name that the table holds.
pub fn texture_index(textures: &Vec<String>, name: &String) -> (i: usize)
    requires
        names_of(textures@).contains(name@),
    ensures
        i == position(names_of(textures@), name@),
        i < textures@.len(),
{
    proof {
        lemma_position_of_member(names_of(textures@), name@);
    }
    match find_texture(textures, name) {
        Some(i) => i,
        None => unreached(),
    }
}

/// The emissive strength that is recorded for a texture of a mesh: over the
/// primitives that resolve to the texture, the greatest channel of their
/// emissive colors.
pub fn get_emissive_factor(mesh: &Mesh, texture: &str) -> (r: u32)
    ensures
        r == emissive_factor(mesh@.primitives, texture@),
{
    let wanted = texture.to_owned();
    let mut factor = ZERO;
    let mut i: usize = 0;
    while i < mesh.primitives.len()
        invariant
            i <= mesh.primitives.len(),
            wanted@ == texture@,
            factor == emissive_factor(mesh@.primitives.take(i as int), texture@),
        decreases mesh.primitives.len() - i,
    {
        let material = &mesh.primitives[i].material;
        let (name, _) = get_material_base_color_texture_name(material);
        proof {
            let next = mesh@.primitives.take(i + 1);
            assert(next.drop_last() == mesh@.primitives.take(i as int));
            assert(next.last().material == material@);
        }
        if name == wanted {
            let rgb = &material.emissive_factor;
            let strongest = max(max(max(ZERO, rgb[0]), rgb[1]), rgb[2]);
            factor = max(factor, strongest);
        }
        i += 1;
    }
    assert(mesh@.primitives.take(i as int) == mesh@.primitives);
    factor
}

/// The texture table does not depend on the order of the primitives: two
/// meshes that hold the same primitives, in whatever order and however
/// often, have the same table.
pub proof fn lemma_texture_table_order_independent(a: MeshView, b: MeshView)
    requires
        forall|p: PrimitiveView| a.primitives.contains(p) <==> b.primitives.contains(p),
    ensures
        texture_table(a) == texture_table(b),
{
    assert forall|n: Seq<char>|
        texture_names(a.primitives).contains(n) <==> texture_names(b.primitives).contains(n) by {
        if texture_names(a.primitives).contains(n) {
            let i = choose|i: int|
                0 <= i < a.primitives.len() && n == texture_name(
                    #[trigger] a.primitives[i].material,
                );
            assert(a.primitives.contains(a.primitives[i]));
            let j = choose|j: int| 0 <= j < b.primitives.len() && b.primitives[j] == a.primitives[i];
            assert(n == texture_name(b.primitives[j].material));
        }
        if texture_names(b.primitives).contains(n) {
            let i = choose|i: int|
                0 <= i < b.primitives.len() && n == texture_name(
                    #[trigger] b.primitives[i].material,
                );
            assert(b.primitives.contains(b.primitives[i]));
            let j = choose|j: int| 0 <= j < a.primitives.len() && a.primitives[j] == b.primitives[i];
            assert(n == texture_name(a.primitives[j].material));
        }
    }
    assert(texture_names(a.primitives) =~= texture_names(b.primitives));
}


} // verus!
