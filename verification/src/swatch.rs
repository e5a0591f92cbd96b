//! Which tiles of a Mineways texture atlas a block's six faces use.
//!
//! The atlas is described by a [`SwatchTable`]: the texture file name of
//! every swatch (tile) in order, and the Mineways block definitions with the
//! column and row of each block's tile.

use vstd::prelude::*;
use crate::chunk::{spec_strip_namespace, strip_namespace};
use crate::mineways::{legacy_color_suffix, normalize_block_name, spec_legacy_color_suffix, spec_normalize_block_name};
use crate::swatch_rules::{face_rule, lookup_face_rule, FaceSource};
use crate::blocks::{is_air, is_air_short};
use crate::mineways::{spec_atlas_tint, spec_split_texture_key, split_texture_key, tint_for_atlas_swatch};
use crate::texture::{insert_unique, strictly_sorted, texts, tinted};
use vstd::arithmetic::div_mod::{lemma_fundamental_div_mod, lemma_fundamental_div_mod_converse};
use crate::text::{
    has_suffix, push_char, split_fields, split_str, str_eq, strip_prefix, strip_suffix, without_prefix,
    without_suffix,
};

verus! {

/// A Mineways atlas description.
pub struct SwatchTable {
    /// Atlas column, atlas row and texture file name of each swatch, by
    /// swatch index.
    pub tiles: Vec<(u32, u32, String)>,
    /// Mineways block definitions: display name (`"Oak Planks"`), texture
    /// column and texture row.
    pub definitions: Vec<(String, u16, u16)>,
}

/// The names of the swatches, in order.
pub open spec fn tile_names(t: SwatchTable) -> Seq<Seq<char>> {
    t.tiles@.map_values(|e: (u32, u32, String)| e.2@)
}

/// The names of the block definitions, in order.
pub open spec fn definition_names(t: SwatchTable) -> Seq<Seq<char>> {
    t.definitions@.map_values(|d: (String, u16, u16)| d.0@)
}

/// The text of an optional string.
pub open spec fn opt_text(c: Option<&str>) -> Option<Seq<char>> {
    match c {
        Some(s) => Some(s@),
        None => None,
    }
}

/// The first position of `n` in `s`.
pub open spec fn first_position(s: Seq<Seq<char>>, n: Seq<char>) -> Option<int>
    decreases s.len(),
{
    if s.len() == 0 {
        None
    } else {
        match first_position(s.drop_last(), n) {
            Some(i) => Some(i),
            None => if s.last() == n {
                Some(s.len() - 1)
            } else {
                None
            },
        }
    }
}

/// `a`, else `b`.
pub open spec fn or_else(a: Option<int>, b: Option<int>) -> Option<int> {
    if a is Some {
        a
    } else {
        b
    }
}

/// An optional index as an integer.
pub open spec fn as_int(o: Option<usize>) -> Option<int> {
    match o {
        Some(v) => Some(v as int),
        None => None,
    }
}

/// The first swatch with texture file name `name`.
fn position_of(list: &Vec<(u32, u32, String)>, name: &str) -> (r: Option<usize>)
    ensures
        as_int(r) == first_position(list@.map_values(|e: (u32, u32, String)| e.2@), name@),
        r matches Some(i) ==> i < list@.len(),
{
    let ghost all = list@.map_values(|e: (u32, u32, String)| e.2@);
    let mut i: usize = 0;
    assert(all.take(0) =~= Seq::<Seq<char>>::empty());
    while i < list.len()
        invariant
            i <= list@.len(),
            all == list@.map_values(|e: (u32, u32, String)| e.2@),
            first_position(all.take(i as int), name@) is None,
        decreases list@.len() - i,
    {
        assert(all.take(i + 1).drop_last() =~= all.take(i as int));
        if str_eq(list[i].2.as_str(), name) {
            assert(first_position(all.take(i + 1), name@) == Some(i as int));
            proof {
                lemma_first_position_prefix(all, (i + 1) as int, name@);
            }
            return Some(i);
        }
        i += 1;
    }
    assert(all.take(list@.len() as int) =~= all);
    None
}

/// A match found in a prefix is the first match of the whole list.
pub(crate) proof fn lemma_first_position_prefix(s: Seq<Seq<char>>, k: int, n: Seq<char>)
    requires
        0 <= k <= s.len(),
        first_position(s.take(k), n) is Some,
    ensures
        first_position(s, n) == first_position(s.take(k), n),
    decreases s.len() - k,
{
    if k < s.len() {
        assert(s.take(k + 1).drop_last() =~= s.take(k));
        lemma_first_position_prefix(s, k + 1, n);
    } else {
        assert(s.take(k) =~= s);
    }
}

/// A texture name with a `block_` or `tile_` prefix removed.
pub open spec fn without_block_prefix(n: Seq<char>) -> Seq<char> {
    match without_prefix(n, "block_"@) {
        Some(r) => r,
        None => match without_prefix(n, "tile_"@) {
            Some(r) => r,
            None => n,
        },
    }
}

/// The swatch of a texture file name: an exact match, else the name with a
/// `block_` or `tile_` prefix removed.
pub open spec fn spec_find_swatch(t: SwatchTable, name: Seq<char>) -> Option<int> {
    or_else(first_position(tile_names(t), name), first_position(tile_names(t), without_block_prefix(name)))
}

/// Try to find the swatch index for a texture name, with fallback logic.
fn find_swatch(table: &SwatchTable, name: &str) -> (r: Option<usize>)
    ensures
        as_int(r) == spec_find_swatch(*table, name@),
{
    proof {
        reveal_strlit("block_");
        reveal_strlit("tile_");
    }
    if let Some(i) = position_of(&table.tiles, name) {
        return Some(i);
    }
    let stripped = match strip_prefix(name, "block_") {
        Some(s) => s,
        None => match strip_prefix(name, "tile_") {
            Some(s) => s,
            None => name,
        },
    };
    position_of(&table.tiles, stripped)
}

/// Two texts one after the other.
fn joined(a: &str, b: &str) -> (r: String)
    ensures
        r@ == a@ + b@,
{
    let mut s = a.to_string();
    s.append(b);
    s
}

/// What `char::to_uppercase` gives for a character, as text.
pub uninterp spec fn char_upper(c: char) -> Seq<char>;

/// The upper-case form of a character (`char::to_uppercase`), as text.
///
/// Trusted: calls `char::to_uppercase` and collects it into a `String`; the
/// contract only names the result.
#[verifier::external_body]
fn upper_case(c: char) -> (r: String)
    ensures
        r@ == char_upper(c),
{
    c.to_uppercase().to_string()
}

/// A word with its first character in upper case.
pub open spec fn title_word(w: Seq<char>) -> Seq<char> {
    if w.len() == 0 {
        w
    } else {
        char_upper(w[0]) + w.drop_first()
    }
}

/// Words in title case, joined by single spaces.
pub open spec fn title_words(ws: Seq<Seq<char>>) -> Seq<char>
    decreases ws.len(),
{
    if ws.len() == 0 {
        Seq::empty()
    } else if ws.len() == 1 {
        title_word(ws[0])
    } else {
        title_words(ws.drop_last()) + " "@ + title_word(ws.last())
    }
}

/// The Mineways display name of a block: its `_`-separated words in title
/// case, joined by spaces (`"oak_planks"` is `"Oak Planks"`).
pub open spec fn mineways_name(short: Seq<char>) -> Seq<char> {
    title_words(split_fields(short, '_'))
}

/// The Mineways display name of a block.
fn display_name(short: &str) -> (r: String)
    ensures
        r@ == mineways_name(short@),
{
    let words = split_str(short, '_');
    let ghost ws = split_fields(short@, '_');
    let mut out = String::new();
    let mut i: usize = 0;
    while i < words.len()
        invariant
            i <= words@.len(),
            words@.len() == ws.len(),
            forall|k: int| 0 <= k < words@.len() ==> (#[trigger] words@[k])@ == ws[k],
            out@ == title_words(ws.take(i as int)),
        decreases words@.len() - i,
    {
        let ghost before = out@;
        assert(ws.take(i + 1).drop_last() =~= ws.take(i as int));
        assert(ws.take(i + 1).last() == ws[i as int]);
        if i > 0 {
            push_char(&mut out, ' ');
        }
        let w = words[i];
        let n = w.unicode_len();
        if n > 0 {
            let up = upper_case(w.get_char(0));
            out.append(up.as_str());
            let mut j: usize = 1;
            let ghost mid = out@;
            while j < n
                invariant
                    1 <= j <= n,
                    n == w@.len(),
                    out@ == mid + w@.subrange(1, j as int),
                decreases n - j,
            {
                push_char(&mut out, w.get_char(j));
                assert(w@.subrange(1, j + 1) =~= w@.subrange(1, j as int).push(w@[j as int]));
                j += 1;
            }
            assert(w@.subrange(1, n as int) =~= w@.drop_first());
        }
        proof {
            reveal_strlit(" ");
            if i == 0 {
                assert(before =~= Seq::<char>::empty());
            }
            assert(out@ =~= title_words(ws.take(i + 1)));
        }
        i += 1;
    }
    assert(ws.take(words@.len() as int) =~= ws);
    out
}

/// The swatch of a block from the Mineways block definitions: row · 16 +
/// column of the first definition with the block's display name.
pub open spec fn spec_swatch_from_definitions(t: SwatchTable, short: Seq<char>) -> Option<int> {
    match first_position(definition_names(t), mineways_name(short)) {
        Some(i) => Some(t.definitions@[i].2 * 16 + t.definitions@[i].1),
        None => None,
    }
}

/// Fallback: look up a block in the block definitions to derive the swatch
/// index (`txr_y * 16 + txr_x`).
fn swatch_from_definitions(table: &SwatchTable, short: &str) -> (r: Option<usize>)
    ensures
        as_int(r) == spec_swatch_from_definitions(*table, short@),
{
    let mw = display_name(short);
    let mut i: usize = 0;
    let ghost names = definition_names(*table);
    assert(names.take(0) =~= Seq::<Seq<char>>::empty());
    while i < table.definitions.len()
        invariant
            i <= table.definitions@.len(),
            names == definition_names(*table),
            first_position(names.take(i as int), mw@) is None,
            mw@ == mineways_name(short@),
        decreases table.definitions@.len() - i,
    {
        assert(names.take(i + 1).drop_last() =~= names.take(i as int));
        if str_eq(table.definitions[i].0.as_str(), mw.as_str()) {
            assert(names[i as int] == table.definitions@[i as int].0@);
            assert(first_position(names.take(i + 1), mw@) == Some(i as int));
            proof {
                lemma_first_position_prefix(names, (i + 1) as int, mw@);
            }
            let x = table.definitions[i].1;
            let y = table.definitions[i].2;
            let v = (y as usize) * 16 + (x as usize);
            assert(first_position(names, mw@) == Some(i as int));
            assert(v as int == table.definitions@[i as int].2 * 16 + table.definitions@[i as int].1);
            assert(mw@ == mineways_name(short@));
            assert(spec_swatch_from_definitions(*table, short@) == Some(v as int));
            return Some(v);
        }
        i += 1;
    }
    assert(names.take(table.definitions@.len() as int) =~= names);
    None
}

/// A cut-down variant (`_slab`, `_stairs`, `_wall`) drawn from its base
/// block: the base, its plural, its planks, or its top.
pub open spec fn cut_swatch(t: SwatchTable, short: Seq<char>, suffix: Seq<char>) -> Option<int> {
    match without_suffix(short, suffix) {
        Some(b) => or_else(
            spec_find_swatch(t, b),
            or_else(
                spec_find_swatch(t, b + "s"@),
                or_else(spec_find_swatch(t, b + "_planks"@), spec_find_swatch(t, b + "_top"@)),
            ),
        ),
        None => None,
    }
}

/// A wooden variant (`_fence_gate`, `_fence`, `_trapdoor`, `_door`) drawn
/// from its planks.
pub open spec fn plank_swatch(t: SwatchTable, short: Seq<char>, suffix: Seq<char>) -> Option<int> {
    match without_suffix(short, suffix) {
        Some(b) => spec_find_swatch(t, b + "_planks"@),
        None => None,
    }
}

/// Last-resort swatch of a block whose own name is no texture file name:
/// the family rules for two-tall plants, cut-down variants, stems, wooden
/// parts, waxed copper, carpets, beds, potted plants, wall torches and
/// infested blocks, tried in this order.
pub open spec fn spec_fallback_swatch(t: SwatchTable, short: Seq<char>) -> Option<int>
    decreases short.len(),
{
    let waxed = if short.len() >= 6 && short.subrange(0, 6) == "waxed_"@ {
        let b = short.subrange(6, short.len() as int);
        or_else(spec_find_swatch(t, b), spec_fallback_swatch(t, b))
    } else {
        None
    };
    or_else(
        spec_find_swatch(t, short + "_top"@),
        or_else(
            spec_find_swatch(t, short + "_side"@),
            or_else(
                cut_swatch(t, short, "_slab"@),
                or_else(
                    cut_swatch(t, short, "_stairs"@),
                    or_else(
                        cut_swatch(t, short, "_wall"@),
                        or_else(
                            match without_suffix(short, "_stem"@) {
                                Some(b) => or_else(
                                    spec_find_swatch(t, b + "_side"@),
                                    spec_find_swatch(t, b + "_top"@),
                                ),
                                None => None,
                            },
                            or_else(
                                plank_swatch(t, short, "_fence_gate"@),
                                or_else(
                                    plank_swatch(t, short, "_fence"@),
                                    or_else(
                                        plank_swatch(t, short, "_trapdoor"@),
                                        or_else(
                                            plank_swatch(t, short, "_door"@),
                                            or_else(waxed, fallback_tail(t, short)),
                                        ),
                                    ),
                                ),
                            ),
                        ),
                    ),
                ),
            ),
        ),
    )
}

/// The rules after waxing: carpets, beds, potted plants, wall torches and
/// infested blocks.
pub open spec fn fallback_tail(t: SwatchTable, short: Seq<char>) -> Option<int> {
    or_else(
        match without_suffix(short, "_carpet"@) {
            Some(b) => or_else(
                spec_find_swatch(t, b + "_wool"@),
                or_else(spec_find_swatch(t, b + "_block"@), spec_find_swatch(t, b)),
            ),
            None => None,
        },
        or_else(
            if has_suffix(short, "_bed"@) {
                spec_find_swatch(t, "MW_bed_head_top"@)
            } else {
                None
            },
            or_else(
                match without_prefix(short, "potted_"@) {
                    Some(p) => spec_find_swatch(t, p),
                    None => None,
                },
                or_else(
                    match without_suffix(short, "_wall_torch"@) {
                        Some(b) => spec_find_swatch(t, b + "_torch"@),
                        None => None,
                    },
                    or_else(
                        if short == "wall_torch"@ {
                            spec_find_swatch(t, "torch"@)
                        } else {
                            None
                        },
                        match without_prefix(short, "infested_"@) {
                            Some(b) => or_else(spec_find_swatch(t, b), spec_find_swatch(t, b + "_top"@)),
                            None => None,
                        },
                    ),
                ),
            ),
        ),
    )
}

/// A cut-down variant drawn from its base block.
fn cut_rule(table: &SwatchTable, short: &str, suffix: &str) -> (r: Option<usize>)
    ensures
        as_int(r) == cut_swatch(*table, short@, suffix@),
{
    proof {
        reveal_strlit("s");
        reveal_strlit("_planks");
        reveal_strlit("_top");
    }
    match strip_suffix(short, suffix) {
        None => None,
        Some(base) => {
            if let Some(i) = find_swatch(table, base) {
                return Some(i);
            }
            if let Some(i) = find_swatch(table, joined(base, "s").as_str()) {
                return Some(i);
            }
            if let Some(i) = find_swatch(table, joined(base, "_planks").as_str()) {
                return Some(i);
            }
            find_swatch(table, joined(base, "_top").as_str())
        },
    }
}

/// A wooden variant drawn from its planks.
fn plank_rule(table: &SwatchTable, short: &str, suffix: &str) -> (r: Option<usize>)
    ensures
        as_int(r) == plank_swatch(*table, short@, suffix@),
{
    match strip_suffix(short, suffix) {
        None => None,
        Some(base) => find_swatch(table, joined(base, "_planks").as_str()),
    }
}

/// The rules after waxing: carpets, beds, potted plants, wall torches and
/// infested blocks.
fn tail_rules(table: &SwatchTable, short: &str) -> (r: Option<usize>)
    ensures
        as_int(r) == fallback_tail(*table, short@),
{
    if let Some(base) = strip_suffix(short, "_carpet") {
        if let Some(i) = find_swatch(table, joined(base, "_wool").as_str()) {
            return Some(i);
        }
        if let Some(i) = find_swatch(table, joined(base, "_block").as_str()) {
            return Some(i);
        }
        if let Some(i) = find_swatch(table, base) {
            return Some(i);
        }
    }
    if strip_suffix(short, "_bed").is_some() {
        if let Some(i) = find_swatch(table, "MW_bed_head_top") {
            return Some(i);
        }
    }
    if let Some(plant) = strip_prefix(short, "potted_") {
        if let Some(i) = find_swatch(table, plant) {
            return Some(i);
        }
    }
    if let Some(base) = strip_suffix(short, "_wall_torch") {
        if let Some(i) = find_swatch(table, joined(base, "_torch").as_str()) {
            return Some(i);
        }
    }
    if str_eq(short, "wall_torch") {
        if let Some(i) = find_swatch(table, "torch") {
            return Some(i);
        }
    }
    if let Some(base) = strip_prefix(short, "infested_") {
        if let Some(i) = find_swatch(table, base) {
            return Some(i);
        }
        if let Some(i) = find_swatch(table, joined(base, "_top").as_str()) {
            return Some(i);
        }
    }
    None
}

/// Last-resort swatch resolution for blocks whose own name is not a texture
/// filename in the atlas.
fn fallback_swatch(table: &SwatchTable, short: &str) -> (r: Option<usize>)
    ensures
        as_int(r) == spec_fallback_swatch(*table, short@),
    decreases short@.len(),
{
    proof {
        reveal_strlit("waxed_");
    }
    if let Some(i) = find_swatch(table, joined(short, "_top").as_str()) {
        return Some(i);
    }
    if let Some(i) = find_swatch(table, joined(short, "_side").as_str()) {
        return Some(i);
    }
    if let Some(i) = cut_rule(table, short, "_slab") {
        return Some(i);
    }
    if let Some(i) = cut_rule(table, short, "_stairs") {
        return Some(i);
    }
    if let Some(i) = cut_rule(table, short, "_wall") {
        return Some(i);
    }
    if let Some(base) = strip_suffix(short, "_stem") {
        if let Some(i) = find_swatch(table, joined(base, "_side").as_str()) {
            return Some(i);
        }
        if let Some(i) = find_swatch(table, joined(base, "_top").as_str()) {
            return Some(i);
        }
    }
    if let Some(i) = plank_rule(table, short, "_fence_gate") {
        return Some(i);
    }
    if let Some(i) = plank_rule(table, short, "_fence") {
        return Some(i);
    }
    if let Some(i) = plank_rule(table, short, "_trapdoor") {
        return Some(i);
    }
    if let Some(i) = plank_rule(table, short, "_door") {
        return Some(i);
    }
    if let Some(base) = strip_prefix(short, "waxed_") {
        if let Some(i) = find_swatch(table, base) {
            return Some(i);
        }
        if let Some(i) = fallback_swatch(table, base) {
            return Some(i);
        }
    }
    tail_rules(table, short)
}

/// The swatch of one face under a per-face rule, with `block` the block's
/// own swatch (`None` when unresolved).
pub open spec fn face_swatch(t: SwatchTable, f: FaceSource, block: Option<int>) -> Option<int> {
    match f {
        FaceSource::Texture(n, d) => Some(
            match spec_find_swatch(t, n@) {
                Some(i) => i,
                None => d as int,
            },
        ),
        FaceSource::Block => block,
    }
}

/// The six swatches of a block, `[top, bottom, east, west, south, north]`:
/// for a legacy colour block with a colour whose coloured texture exists,
/// that texture on all faces; otherwise the block's per-face rule, or its own
/// swatch (texture name, Mineways definition, family fallback) on all six
/// faces; `None` when a face needs the block's own swatch and there is none.
pub open spec fn spec_swatch_for_block(t: SwatchTable, name: Seq<char>, color: Option<Seq<char>>) -> Option<
    Seq<int>,
> {
    let short = spec_strip_namespace(name);
    let colored = match (color, spec_legacy_color_suffix(short)) {
        (Some(c), Some(suffix)) => spec_find_swatch(t, c + suffix),
        _ => None,
    };
    if colored is Some {
        Some(Seq::new(6, |_i: int| colored.unwrap()))
    } else {
        let own = or_else(
            spec_find_swatch(t, spec_normalize_block_name(short)),
            or_else(spec_swatch_from_definitions(t, short), spec_fallback_swatch(t, short)),
        );
        faces_result(block_faces(t, short, own))
    }
}

/// The swatch of each face of a block under its per-face rule, or its own
/// swatch on all faces when it has no rule.
pub open spec fn block_faces(t: SwatchTable, short: Seq<char>, own: Option<int>) -> Seq<Option<int>> {
    match face_rule(short) {
        Some(rule) => Seq::new(6, |i: int| face_swatch(t, rule[i], own)),
        None => Seq::new(6, |_i: int| own),
    }
}

/// The six swatches when every face has one.
pub open spec fn faces_result(faces: Seq<Option<int>>) -> Option<Seq<int>> {
    if forall|i: int| 0 <= i < 6 ==> (#[trigger] faces[i]) is Some {
        Some(Seq::new(6, |i: int| faces[i].unwrap()))
    } else {
        None
    }
}

/// Get the swatch indices for all 6 faces of a block.
///
/// Returns `[top, bottom, east, west, south, north]` swatch indices.
pub fn get_swatch_for_block(table: &SwatchTable, name: &str, color: Option<&str>) -> (r: Option<[usize; 6]>)
    ensures
        match r {
            Some(a) => spec_swatch_for_block(*table, name@, opt_text(color)) matches Some(s) && forall|
                i: int,
            | 0 <= i < 6 ==> #[trigger] a@[i] as int == s[i],
            None => spec_swatch_for_block(*table, name@, opt_text(color)) is None,
        },
{
    let short = strip_namespace(name);
    if let Some(c) = color {
        if let Some(suffix) = legacy_color_suffix(short) {
            let colored = joined(c, suffix);
            if let Some(i) = find_swatch(table, colored.as_str()) {
                return Some([i, i, i, i, i, i]);
            }
        }
    }
    let ghost colored = match (opt_text(color), spec_legacy_color_suffix(short@)) {
        (Some(c), Some(suffix)) => spec_find_swatch(*table, c + suffix),
        _ => None,
    };
    assert(colored is None);
    let tex_name = normalize_block_name(short);
    let own: Option<usize> = match find_swatch(table, tex_name) {
        Some(i) => Some(i),
        None => match swatch_from_definitions(table, short) {
            Some(i) => Some(i),
            None => fallback_swatch(table, short),
        },
    };
    let rule = lookup_face_rule(short);
    let ghost spec_own = as_int(own);
    assert(spec_own == or_else(
        spec_find_swatch(*table, spec_normalize_block_name(short@)),
        or_else(spec_swatch_from_definitions(*table, short@), spec_fallback_swatch(*table, short@)),
    ));
    let ghost faces = block_faces(*table, short@, spec_own);
    let ghost result = faces_result(faces);
    assert(spec_swatch_for_block(*table, name@, opt_text(color)) == result);
    let mut out: [usize; 6] = [0, 0, 0, 0, 0, 0];
    let mut k: usize = 0;
    while k < 6
        invariant
            k <= 6,
            rule == face_rule(short@),
            spec_own == as_int(own),
            faces == block_faces(*table, short@, spec_own),
            forall|i: int| 0 <= i < k ==> (#[trigger] faces[i]) is Some && out@[i] as int == faces[i].unwrap(),
            spec_swatch_for_block(*table, name@, opt_text(color)) == result,
            result == faces_result(faces),
        decreases 6 - k,
    {
        let face: Option<usize> = match rule {
            Some(rl) => match rl[k] {
                FaceSource::Texture(n, d) => match find_swatch(table, n) {
                    Some(i) => Some(i),
                    None => Some(d),
                },
                FaceSource::Block => own,
            },
            None => own,
        };
        assert(as_int(face) == faces[k as int]);
        match face {
            Some(v) => {
                out[k] = v;
            },
            None => {
                assert(faces[k as int] is None);
                assert(!(forall|i: int| 0 <= i < 6 ==> (#[trigger] faces[i]) is Some));
                return None;
            },
        }
        k += 1;
    }
    assert(forall|i: int| 0 <= i < 6 ==> (#[trigger] faces[i]) is Some);
    Some(out)
}

/// What a texture key (`"minecraft:wool|red"`) resolves to: nothing for air,
/// else the swatches of its block (`None` when unresolved).
pub open spec fn key_faces(t: SwatchTable, key: Seq<char>) -> Option<Option<Seq<int>>> {
    let (name, color) = spec_split_texture_key(key);
    let short = spec_strip_namespace(name);
    if is_air_short(short) {
        None
    } else {
        Some(spec_swatch_for_block(t, short, color))
    }
}

/// The keys that resolve, in order, with their swatches.
pub open spec fn resolved_keys(t: SwatchTable, keys: Seq<Seq<char>>) -> Seq<(Seq<char>, Seq<int>)>
    decreases keys.len(),
{
    if keys.len() == 0 {
        Seq::empty()
    } else {
        let before = resolved_keys(t, keys.drop_last());
        match key_faces(t, keys.last()) {
            Some(Some(f)) => before.push((keys.last(), f)),
            _ => before,
        }
    }
}

/// The short block name of a key that is not air and does not resolve.
pub open spec fn unmapped_short(t: SwatchTable, key: Seq<char>) -> Option<Seq<char>> {
    match key_faces(t, key) {
        Some(None) => Some(spec_strip_namespace(spec_split_texture_key(key).0)),
        _ => None,
    }
}

/// Resolve texture keys against the table: the keys that resolve, in order,
/// with their six swatches; and the short names of the blocks that do not,
/// sorted, each once. Air is skipped.
pub fn resolve_texture_keys(table: &SwatchTable, texture_keys: &[String]) -> (r: (
    Vec<(String, [usize; 6])>,
    Vec<String>,
))
    ensures
        r.0@.len() == resolved_keys(*table, texts(texture_keys@)).len(),
        forall|i: int|
            0 <= i < r.0@.len() ==> #[trigger] r.0@[i].0@ == resolved_keys(*table, texts(texture_keys@))[i].0
                && forall|f: int| 0 <= f < 6 ==> r.0@[i].1@[f] as int == resolved_keys(
                *table,
                texts(texture_keys@),
            )[i].1[f],
        strictly_sorted(texts(r.1@)),
        forall|n: Seq<char>| #[trigger]
            texts(r.1@).contains(n) <==> exists|i: int|
                0 <= i < texture_keys@.len() && unmapped_short(*table, #[trigger] texture_keys@[i]@) == Some(n),
{
    let ghost keys = texts(texture_keys@);
    let mut resolved: Vec<(String, [usize; 6])> = Vec::new();
    let mut unmapped: Vec<String> = Vec::new();
    let mut i: usize = 0;
    assert(keys.take(0) =~= Seq::<Seq<char>>::empty());
    assert(texts(unmapped@) =~= Seq::<Seq<char>>::empty());
    while i < texture_keys.len()
        invariant
            i <= texture_keys@.len(),
            keys == texts(texture_keys@),
            resolved@.len() == resolved_keys(*table, keys.take(i as int)).len(),
            forall|j: int|
                0 <= j < resolved@.len() ==> #[trigger] resolved@[j].0@ == resolved_keys(*table, keys.take(i as int))[j].0
                    && forall|f: int| 0 <= f < 6 ==> resolved@[j].1@[f] as int == resolved_keys(
                    *table,
                    keys.take(i as int),
                )[j].1[f],
            strictly_sorted(texts(unmapped@)),
            forall|n: Seq<char>| #[trigger]
                texts(unmapped@).contains(n) <==> exists|j: int|
                    0 <= j < i && unmapped_short(*table, #[trigger] texture_keys@[j]@) == Some(n),
        decreases texture_keys@.len() - i,
    {
        let key = &texture_keys[i];
        assert(keys.take(i + 1).drop_last() =~= keys.take(i as int));
        assert(keys.take(i + 1).last() == key@);
        let ghost before = resolved_keys(*table, keys.take(i as int));
        let ghost before_unmapped = texts(unmapped@);
        let (name, color) = split_texture_key(key.as_str());
        let short = strip_namespace(name);
        proof {
            assert(opt_text(color) == spec_split_texture_key(key@).1);
        }
        if is_air(short) {
            proof {
                assert(is_air_short(spec_strip_namespace(short@)));
                lemma_strip_twice(name@);
                assert(unmapped_short(*table, key@) is None);
                assert forall|n: Seq<char>| #[trigger]
                    texts(unmapped@).contains(n) <==> exists|j: int|
                        0 <= j < i + 1 && unmapped_short(*table, #[trigger] texture_keys@[j]@) == Some(n) by {
                    if exists|j: int| 0 <= j < i + 1 && unmapped_short(*table, #[trigger] texture_keys@[j]@) == Some(n) {
                        let j = choose|j: int| 0 <= j < i + 1 && unmapped_short(*table, #[trigger] texture_keys@[j]@) == Some(n);
                        assert(j < i);
                    }
                }
            }
        } else {
            proof {
                lemma_strip_twice(name@);
            }
            match get_swatch_for_block(table, short, color) {
                Some(faces) => {
                    resolved.push((key.clone(), faces));
                    proof {
                        assert(resolved_keys(*table, keys.take(i + 1)) == before.push((key@, spec_swatch_for_block(*table, short@, opt_text(color)).unwrap())));
                        assert(unmapped_short(*table, key@) is None);
                        assert forall|n: Seq<char>| #[trigger]
                            texts(unmapped@).contains(n) <==> exists|j: int|
                                0 <= j < i + 1 && unmapped_short(*table, #[trigger] texture_keys@[j]@) == Some(n) by {
                            if exists|j: int| 0 <= j < i + 1 && unmapped_short(*table, #[trigger] texture_keys@[j]@) == Some(n) {
                                let j = choose|j: int| 0 <= j < i + 1 && unmapped_short(*table, #[trigger] texture_keys@[j]@) == Some(n);
                                assert(j < i);
                            }
                        }
                    }
                },
                None => {
                    insert_unique(&mut unmapped, short.to_string());
                    proof {
                        assert(unmapped_short(*table, key@) == Some(short@));
                        assert forall|n: Seq<char>| #[trigger]
                            texts(unmapped@).contains(n) <==> exists|j: int|
                                0 <= j < i + 1 && unmapped_short(*table, #[trigger] texture_keys@[j]@) == Some(n) by {
                            if exists|j: int| 0 <= j < i + 1 && unmapped_short(*table, #[trigger] texture_keys@[j]@) == Some(n) {
                                let j = choose|j: int| 0 <= j < i + 1 && unmapped_short(*table, #[trigger] texture_keys@[j]@) == Some(n);
                                if j < i {
                                    assert(before_unmapped.contains(n));
                                }
                            }
                            if n == short@ {
                                assert(unmapped_short(*table, texture_keys@[i as int]@) == Some(n));
                            }
                        }
                    }
                },
            }
        }
        i += 1;
    }
    assert(keys.take(texture_keys@.len() as int) =~= keys);
    (resolved, unmapped)
}

/// Stripping the namespace twice is stripping it once.
proof fn lemma_strip_twice(s: Seq<char>)
    ensures
        spec_strip_namespace(spec_strip_namespace(s)) == spec_strip_namespace(s),
    decreases s.len(),
{
    if s.len() > 0 {
        if s.last() == ':' {
        } else {
            lemma_strip_twice(s.drop_last());
            let t = spec_strip_namespace(s.drop_last());
            assert(t.push(s.last()).drop_last() =~= t);
        }
    }
}

/// The tint of the first tintable table entry at atlas tile `(col, row)`.
pub open spec fn first_tint(tiles: Seq<(u32, u32, String)>, col: int, row: int) -> Option<[u8; 3]>
    decreases tiles.len(),
{
    if tiles.len() == 0 {
        None
    } else {
        match first_tint(tiles.drop_last(), col, row) {
            Some(t) => Some(t),
            None => if tiles.last().0 == col && tiles.last().1 == row {
                spec_atlas_tint(tiles.last().2@)
            } else {
                None
            },
        }
    }
}

/// Byte `i` of an RGBA atlas `w` × `h` pixels after biome tinting: a colour
/// byte of a pixel whose 16×16 tile lies inside the atlas and has a tintable
/// table entry is multiplied by that entry's tint; every other byte stays.
pub open spec fn tinted_byte(old: Seq<u8>, w: int, h: int, tiles: Seq<(u32, u32, String)>, i: int) -> u8 {
    let p = i / 4;
    let x = p % w;
    let y = p / w;
    let c = i % 4;
    match first_tint(tiles, x / 16, y / 16) {
        Some(t) => if c < 3 && (x / 16) * 16 + 16 <= w && (y / 16) * 16 + 16 <= h {
            tinted(old[i], t[c])
        } else {
            old[i]
        },
        None => old[i],
    }
}

/// The atlas after biome tinting.
pub open spec fn atlas_tinted(old: Seq<u8>, w: int, h: int, tiles: Seq<(u32, u32, String)>) -> Seq<u8> {
    Seq::new(old.len(), |i: int| tinted_byte(old, w, h, tiles, i))
}

/// The atlas with the first `done` pixels (row by row) of tile
/// `(col, row)` tinted.
pub open spec fn tile_tinted_upto(base: Seq<u8>, w: int, col: int, row: int, t: [u8; 3], done: int) -> Seq<u8> {
    Seq::new(
        base.len(),
        |i: int|
            {
                let p = i / 4;
                let x = p % w;
                let y = p / w;
                let c = i % 4;
                if x / 16 == col && y / 16 == row && c < 3 && (y - row * 16) * 16 + (x - col * 16) < done {
                    tinted(base[i], t[c])
                } else {
                    base[i]
                }
            },
    )
}

/// Where byte `c` of pixel `j` of tile `(col, row)` lies in the atlas.
proof fn lemma_tile_pixel(w: int, col: int, row: int, j: int, c: int, i: int)
    requires
        w > 0,
        col >= 0,
        row >= 0,
        col * 16 + 16 <= w,
        0 <= j < 256,
        0 <= c < 4,
        i == ((row * 16 + j / 16) * w + col * 16 + j % 16) * 4 + c,
    ensures
        i / 4 == (row * 16 + j / 16) * w + col * 16 + j % 16,
        i % 4 == c,
        (i / 4) % w == col * 16 + j % 16,
        (i / 4) / w == row * 16 + j / 16,
{
    let p = (row * 16 + j / 16) * w + col * 16 + j % 16;
    lemma_fundamental_div_mod_converse(i, 4, p, c);
    lemma_fundamental_div_mod_converse(p, w, row * 16 + j / 16, col * 16 + j % 16);
}

/// A byte of tile `(col, row)` with in-tile pixel `j` is one of the three
/// colour bytes `lemma_tile_pixel` places.
proof fn lemma_tile_pixel_unique(w: int, col: int, row: int, j: int, i: int)
    requires
        w > 0,
        col >= 0,
        row >= 0,
        0 <= j < 256,
        i >= 0,
        (i / 4) % w / 16 == col,
        (i / 4) / w / 16 == row,
        ((i / 4) / w - row * 16) * 16 + ((i / 4) % w - col * 16) == j,
    ensures
        i == ((row * 16 + j / 16) * w + col * 16 + j % 16) * 4 + i % 4,
{
    let p = i / 4;
    let x = p % w;
    let y = p / w;
    assert(y == row * 16 + j / 16 && x == col * 16 + j % 16);
    lemma_fundamental_div_mod(i, 4);
    lemma_fundamental_div_mod(p, w);
    assert(p == w * y + x);
    assert(w * y == y * w) by (nonlinear_arith);
}

/// One colour byte multiplied by a tint byte: `v · t / 255`.
fn tinted_value(v: u8, t: u8) -> (r: u8)
    ensures
        r == tinted(v, t),
{
    assert((v as int) * (t as int) <= 255 * 255) by (nonlinear_arith)
        requires
            v <= 255,
            t <= 255,
    ;
    let m: u32 = (v as u32) * (t as u32) / 255;
    assert(m <= 255) by (nonlinear_arith)
        requires
            m == (v as int) * (t as int) / 255,
            (v as int) * (t as int) <= 255 * 255,
    ;
    m as u8
}

/// Tint every colour byte of one 16×16 tile inside the atlas.
fn tint_tile(pixels: &mut Vec<u8>, width: usize, col: usize, row: usize, t: [u8; 3])
    requires
        width > 0,
        col * 16 + 16 <= width,
        (row * 16 + 16) * width * 4 <= old(pixels)@.len(),
    ensures
        final(pixels)@ == tile_tinted_upto(old(pixels)@, width as int, col as int, row as int, t, 256),
{
    let ghost orig = pixels@;
    let ghost w = width as int;
    let mut j: usize = 0;
    assert(pixels@ =~= tile_tinted_upto(orig, w, col as int, row as int, t, 0));
    while j < 256
        invariant
            j <= 256,
            w == width,
            width > 0,
            col * 16 + 16 <= width,
            (row * 16 + 16) * width * 4 <= orig.len(),
            pixels@ == tile_tinted_upto(orig, w, col as int, row as int, t, j as int),
        decreases 256 - j,
    {
        let ly = j / 16;
        let lx = j % 16;
        let plen = pixels.len();
        assert(plen == orig.len());
        assert(row * 16 + 16 <= (row * 16 + 16) * width * 4) by (nonlinear_arith)
            requires
                width >= 1,
        ;
        assert((row * 16 + ly) * width + col * 16 + lx + 1 <= (row * 16 + 16) * width) by (nonlinear_arith)
            requires
                ly < 16,
                lx < 16,
                col * 16 + 16 <= width,
        ;
        assert((row * 16 + ly) * width <= (row * 16 + 16) * width * 4) by (nonlinear_arith)
            requires
                ly < 16,
        ;
        let line = row * 16 + ly;
        let start = line * width;
        let idx = (start + col * 16 + lx) * 4;
        let ghost before = pixels@;
        proof {
            lemma_tile_pixel(w, col as int, row as int, j as int, 0, idx as int);
            lemma_tile_pixel(w, col as int, row as int, j as int, 1, idx + 1);
            lemma_tile_pixel(w, col as int, row as int, j as int, 2, idx + 2);
        }
        let v0 = tinted_value(pixels[idx], t[0]);
        pixels.set(idx, v0);
        let v1 = tinted_value(pixels[idx + 1], t[1]);
        pixels.set(idx + 1, v1);
        let v2 = tinted_value(pixels[idx + 2], t[2]);
        pixels.set(idx + 2, v2);
        proof {
            let next = tile_tinted_upto(orig, w, col as int, row as int, t, j + 1);
            assert forall|i: int| 0 <= i < orig.len() implies #[trigger] pixels@[i] == next[i] by {
                let p = i / 4;
                let x = p % w;
                let y = p / w;
                if i == idx || i == idx + 1 || i == idx + 2 {
                } else {
                    assert(pixels@[i] == before[i]);
                    if x / 16 == col && y / 16 == row && i % 4 < 3 && (y - row * 16) * 16 + (x - col * 16) == j {
                        lemma_tile_pixel_unique(w, col as int, row as int, j as int, i);
                        assert(false);
                    }
                }
            }
            assert(pixels@ =~= next);
        }
        j += 1;
    }
}

/// Whether tile `(col, row)` is in the list.
fn has_tile(list: &Vec<(u32, u32)>, col: u32, row: u32) -> (r: bool)
    ensures
        r == list@.contains((col, row)),
{
    let mut i: usize = 0;
    while i < list.len()
        invariant
            i <= list@.len(),
            forall|j: int| 0 <= j < i ==> list@[j] != (col, row),
        decreases list@.len() - i,
    {
        if list[i].0 == col && list[i].1 == row {
            assert(list@[i as int] == (col, row));
            return true;
        }
        i += 1;
    }
    false
}

/// Multiply the RGB channels (alpha untouched) of every biome-tintable
/// swatch's 16×16 tile in place, each tile once even when several table
/// entries share it; tiles reaching past the atlas are left alone.
pub fn tint_biome_swatches(table: &SwatchTable, pixels: &mut Vec<u8>, width: u32, height: u32)
    requires
        (width as int) * (height as int) * 4 <= old(pixels)@.len(),
    ensures
        final(pixels)@ == atlas_tinted(old(pixels)@, width as int, height as int, table.tiles@),
{
    let ghost orig = pixels@;
    let ghost w = width as int;
    let ghost h = height as int;
    let ghost tiles = table.tiles@;
    let mut marked: Vec<(u32, u32)> = Vec::new();
    let mut k: usize = 0;
    proof {
        assert forall|i: int| 0 <= i < orig.len() implies #[trigger] orig[i] == atlas_tinted(orig, w, h, tiles.take(0))[i] by {
            assert(first_tint(tiles.take(0), (i / 4) % w / 16, (i / 4) / w / 16) is None);
        }
        assert(orig =~= atlas_tinted(orig, w, h, tiles.take(0)));
    }
    while k < table.tiles.len()
        invariant
            k <= tiles.len(),
            tiles == table.tiles@,
            w == width,
            h == height,
            w * h * 4 <= orig.len(),
            pixels@ == atlas_tinted(orig, w, h, tiles.take(k as int)),
            forall|c: u32, r: u32| #[trigger] marked@.contains((c, r)) <==> first_tint(tiles.take(k as int), c as int, r as int) is Some,
        decreases tiles.len() - k,
    {
        let ghost before = pixels@;
        let ghost prev = tiles.take(k as int);
        let ghost next = tiles.take(k + 1);
        assert(next.drop_last() =~= prev);
        assert(next.last() == tiles[k as int]);
        let col = table.tiles[k].0;
        let row = table.tiles[k].1;
        let tint = tint_for_atlas_swatch(table.tiles[k].2.as_str());
        match tint {
            None => {
                proof {
                    assert forall|c: int, r: int| first_tint(next, c, r) == first_tint(prev, c, r) by {}
                    assert forall|i: int| 0 <= i < orig.len() implies #[trigger] atlas_tinted(orig, w, h, next)[i] == atlas_tinted(orig, w, h, prev)[i] by {
                        assert(first_tint(next, (i / 4) % w / 16, (i / 4) / w / 16) == first_tint(prev, (i / 4) % w / 16, (i / 4) / w / 16));
                    }
                    assert(atlas_tinted(orig, w, h, next) =~= atlas_tinted(orig, w, h, prev));
                }
            },
            Some(t) => {
                if has_tile(&marked, col, row) {
                    proof {
                        assert(first_tint(prev, col as int, row as int) is Some);
                        assert forall|c: int, r: int| first_tint(next, c, r) == first_tint(prev, c, r) by {}
                        assert forall|i: int| 0 <= i < orig.len() implies #[trigger] atlas_tinted(orig, w, h, next)[i] == atlas_tinted(orig, w, h, prev)[i] by {
                            assert(first_tint(next, (i / 4) % w / 16, (i / 4) / w / 16) == first_tint(prev, (i / 4) % w / 16, (i / 4) / w / 16));
                        }
                        assert(atlas_tinted(orig, w, h, next) =~= atlas_tinted(orig, w, h, prev));
                    }
                } else {
                    let ghost old_marked = marked@;
                    marked.push((col, row));
                    proof {
                        assert(marked@.drop_last() =~= old_marked);
                        assert(first_tint(prev, col as int, row as int) is None);
                        assert(first_tint(next, col as int, row as int) == Some(t));
                        assert forall|c: u32, r: u32| #[trigger] marked@.contains((c, r)) <==> first_tint(next, c as int, r as int) is Some by {
                            if c == col && r == row {
                                assert(marked@[marked@.len() - 1] == (c, r));
                            } else {
                                assert(first_tint(next, c as int, r as int) == first_tint(prev, c as int, r as int));
                                if marked@.contains((c, r)) {
                                    let q = choose|q: int| 0 <= q < marked@.len() && marked@[q] == (c, r);
                                    assert(q < marked@.len() - 1);
                                    assert(old_marked[q] == (c, r));
                                    assert(old_marked.contains((c, r)));
                                }
                                if first_tint(prev, c as int, r as int) is Some {
                                    assert(old_marked.contains((c, r)));
                                    let q = choose|q: int| 0 <= q < old_marked.len() && old_marked[q] == (c, r);
                                    assert(marked@[q] == (c, r));
                                }
                            }
                        }
                    }
                    let in_bounds = (col as u64) * 16 + 16 <= width as u64 && (row as u64) * 16 + 16 <= height as u64;
                    if in_bounds {
                        assert(((row as int) * 16 + 16) * (width as int) * 4 <= orig.len()) by (nonlinear_arith)
                            requires
                                (row as int) * 16 + 16 <= height as int,
                                (width as int) * (height as int) * 4 <= orig.len(),
                        ;
                        tint_tile(pixels, width as usize, col as usize, row as usize, t);
                        proof {
                            assert forall|i: int| 0 <= i < orig.len() implies #[trigger] pixels@[i] == atlas_tinted(orig, w, h, next)[i] by {
                                let p = i / 4;
                                let x = p % w;
                                let y = p / w;
                                if !(x / 16 == col && y / 16 == row) {
                                    assert(first_tint(next, x / 16, y / 16) == first_tint(prev, x / 16, y / 16));
                                } else {
                                    assert(0 <= x < w) by {
                                        lemma_fundamental_div_mod(p, w);
                                    }
                                    assert((y - row * 16) * 16 + (x - col * 16) < 256);
                                }
                            }
                            assert(pixels@ =~= atlas_tinted(orig, w, h, next));
                        }
                    } else {
                        proof {
                            assert forall|i: int| 0 <= i < orig.len() implies #[trigger] atlas_tinted(orig, w, h, next)[i] == atlas_tinted(orig, w, h, prev)[i] by {
                                let p = i / 4;
                                let x = p % w;
                                let y = p / w;
                                if !(x / 16 == col && y / 16 == row) {
                                    assert(first_tint(next, x / 16, y / 16) == first_tint(prev, x / 16, y / 16));
                                }
                            }
                            assert(atlas_tinted(orig, w, h, next) =~= atlas_tinted(orig, w, h, prev));
                        }
                    }
                }
            },
        }
        k += 1;
    }
    assert(tiles.take(tiles.len() as int) =~= tiles);
}

} // verus!

verus! {

/// A block face's place in the Mineways atlas: the texture key, the face
/// (0..6) and the tile's `(column, row)`, or `None` for the whole atlas.
pub type FaceTile = (Seq<char>, int, Option<(u32, u32)>);

/// The face tiles as plain values.
pub open spec fn tile_entries(v: Seq<(String, usize, Option<(u32, u32)>)>) -> Seq<FaceTile> {
    v.map_values(|e: (String, usize, Option<(u32, u32)>)| (e.0@, e.1 as int, e.2))
}

/// The atlas tile of swatch `s`, when the table has that swatch.
pub open spec fn swatch_tile(t: SwatchTable, s: int) -> Option<(u32, u32)> {
    if 0 <= s < t.tiles@.len() {
        Some((t.tiles@[s].0, t.tiles@[s].1))
    } else {
        None
    }
}

/// The faces among the first `n` of a resolved key whose swatch the table
/// has, with that swatch's tile.
pub open spec fn swatch_face_entries(t: SwatchTable, key: Seq<char>, faces: Seq<int>, n: int) -> Seq<FaceTile>
    decreases n,
{
    if n <= 0 {
        Seq::empty()
    } else {
        let prev = swatch_face_entries(t, key, faces, n - 1);
        match swatch_tile(t, faces[n - 1]) {
            Some(c) => prev.push((key, n - 1, Some(c))),
            None => prev,
        }
    }
}

/// The face tiles of the keys that resolve, key by key.
pub open spec fn resolved_entries(t: SwatchTable, res: Seq<(Seq<char>, Seq<int>)>) -> Seq<FaceTile>
    decreases res.len(),
{
    if res.len() == 0 {
        Seq::empty()
    } else {
        resolved_entries(t, res.drop_last()) + swatch_face_entries(t, res.last().0, res.last().1, 6)
    }
}

/// Whether the top face (face 0) of `key` already has a tile.
pub open spec fn has_top_face(es: Seq<FaceTile>, key: Seq<char>) -> bool {
    exists|i: int| 0 <= i < es.len() && (#[trigger] es[i]).0 == key && es[i].1 == 0
}

/// The tile of a block the table lacks: its JAR tile, appended after the
/// atlas's `base_rows` rows sixteen to a row in the order of `extra`; else
/// the neutral stone swatch (swatch 1); else the whole atlas.
pub open spec fn fallback_tile(t: SwatchTable, extra: Seq<Seq<char>>, base_rows: u32, short: Seq<char>) -> Option<(u32, u32)> {
    match first_position(extra, short) {
        Some(i) => Some(((i % 16) as u32, (base_rows + i / 16) as u32)),
        None => swatch_tile(t, 1),
    }
}

/// All six faces of `key` on one tile.
pub open spec fn six_faces(key: Seq<char>, tile: Option<(u32, u32)>) -> Seq<FaceTile> {
    Seq::new(6, |f: int| (key, f, tile))
}

/// The face tiles of a set of texture keys, in the order they are assigned
/// (a later entry for the same key and face replaces an earlier one): first
/// every face of every resolved key whose swatch the table has; then, key by
/// key among the first `n`, every non-air key whose top face still has no
/// tile gets `fallback_tile` on all six faces.
pub open spec fn spec_face_tiles(
    t: SwatchTable,
    keys: Seq<Seq<char>>,
    extra: Seq<Seq<char>>,
    base_rows: u32,
    n: int,
) -> Seq<FaceTile>
    decreases n,
{
    if n <= 0 {
        resolved_entries(t, resolved_keys(t, keys))
    } else {
        let prev = spec_face_tiles(t, keys, extra, base_rows, n - 1);
        let key = keys[n - 1];
        let short = spec_strip_namespace(spec_split_texture_key(key).0);
        if is_air_short(short) || has_top_face(prev, key) {
            prev
        } else {
            prev + six_faces(key, fallback_tile(t, extra, base_rows, short))
        }
    }
}

/// The first position of `name` in `list`.
fn position_in(list: &[String], name: &str) -> (r: Option<usize>)
    ensures
        as_int(r) == first_position(texts(list@), name@),
        r matches Some(i) ==> i < list@.len(),
{
    let ghost all = texts(list@);
    let mut i: usize = 0;
    assert(all.take(0) =~= Seq::<Seq<char>>::empty());
    while i < list.len()
        invariant
            i <= list@.len(),
            all == texts(list@),
            first_position(all.take(i as int), name@) is None,
        decreases list@.len() - i,
    {
        assert(all.take(i + 1).drop_last() =~= all.take(i as int));
        if str_eq(list[i].as_str(), name) {
            assert(first_position(all.take(i + 1), name@) == Some(i as int));
            proof {
                lemma_first_position_prefix(all, (i + 1) as int, name@);
            }
            return Some(i);
        }
        i += 1;
    }
    assert(all.take(list@.len() as int) =~= all);
    None
}

/// Whether the top face of `key` has a tile among `out`.
fn top_face_assigned(out: &Vec<(String, usize, Option<(u32, u32)>)>, key: &str) -> (r: bool)
    ensures
        r == has_top_face(tile_entries(out@), key@),
{
    let ghost es = tile_entries(out@);
    let mut j: usize = 0;
    while j < out.len()
        invariant
            j <= out@.len(),
            es == tile_entries(out@),
            forall|i: int| 0 <= i < j ==> !((#[trigger] es[i]).0 == key@ && es[i].1 == 0),
        decreases out@.len() - j,
    {
        if out[j].1 == 0 && str_eq(out[j].0.as_str(), key) {
            assert(es[j as int].0 == key@ && es[j as int].1 == 0);
            return true;
        }
        j += 1;
    }
    false
}

/// Which atlas tile each face of each texture key is drawn with, for the
/// Mineways atlas: the table's swatch for the keys that resolve; for the
/// rest, the JAR tile appended for the block (`extra` lists the blocks
/// whose tiles were appended after the atlas's `base_rows` rows, sixteen to
/// a row), else the stone swatch. Air gets none. The entries come in the
/// order they are assigned.
pub fn mineways_face_tiles(table: &SwatchTable, keys: &[String], extra: &[String], base_rows: u32) -> (r: Vec<(
    String,
    usize,
    Option<(u32, u32)>,
)>)
    requires
        extra@.len() <= u32::MAX,
        base_rows + extra@.len() / 16 <= u32::MAX,
    ensures
        tile_entries(r@) == spec_face_tiles(*table, texts(keys@), texts(extra@), base_rows, keys@.len() as int),
{
    let (resolved, _unmapped) = resolve_texture_keys(table, keys);
    let ghost res = resolved_keys(*table, texts(keys@));
    let mut out: Vec<(String, usize, Option<(u32, u32)>)> = Vec::new();
    let mut i: usize = 0;
    assert(res.take(0) =~= Seq::<(Seq<char>, Seq<int>)>::empty());
    assert(tile_entries(out@) =~= Seq::<FaceTile>::empty());
    while i < resolved.len()
        invariant
            i <= resolved@.len(),
            res == resolved_keys(*table, texts(keys@)),
            resolved@.len() == res.len(),
            forall|a: int|
                0 <= a < resolved@.len() ==> #[trigger] resolved@[a].0@ == res[a].0
                    && forall|f: int| 0 <= f < 6 ==> resolved@[a].1@[f] as int == res[a].1[f],
            tile_entries(out@) == resolved_entries(*table, res.take(i as int)),
        decreases resolved@.len() - i,
    {
        let key = &resolved[i].0;
        let faces = resolved[i].1;
        assert(resolved@[i as int].0@ == res[i as int].0);
        let ghost before = tile_entries(out@);
        let mut f: usize = 0;
        while f < 6
            invariant
                f <= 6,
                key@ == res[i as int].0,
                forall|g: int| 0 <= g < 6 ==> faces@[g] as int == res[i as int].1[g],
                tile_entries(out@) == before + swatch_face_entries(*table, res[i as int].0, res[i as int].1, f as int),
            decreases 6 - f,
        {
            let s = faces[f];
            assert(s as int == res[i as int].1[f as int]);
            if s < table.tiles.len() {
                let col = table.tiles[s].0;
                let row = table.tiles[s].1;
                let ghost prev = tile_entries(out@);
                out.push((key.clone(), f, Some((col, row))));
                assert(tile_entries(out@) =~= prev.push((key@, f as int, Some((col, row)))));
            }
            f += 1;
        }
        assert(res.take(i + 1).drop_last() =~= res.take(i as int));
        assert(res.take(i + 1).last() == res[i as int]);
        i += 1;
    }
    assert(res.take(resolved@.len() as int) =~= res);
    let ghost ks = texts(keys@);
    let ghost ex = texts(extra@);
    let mut k: usize = 0;
    while k < keys.len()
        invariant
            k <= keys@.len(),
            ks == texts(keys@),
            ex == texts(extra@),
            extra@.len() <= u32::MAX,
            base_rows + extra@.len() / 16 <= u32::MAX,
            tile_entries(out@) == spec_face_tiles(*table, ks, ex, base_rows, k as int),
        decreases keys@.len() - k,
    {
        let key = &keys[k];
        let (name, _color) = split_texture_key(key.as_str());
        let short = strip_namespace(name);
        proof {
            lemma_strip_twice(name@);
        }
        if !is_air(short) && !top_face_assigned(&out, key.as_str()) {
            let tile: Option<(u32, u32)> = match position_in(extra, short) {
                Some(p) => {
                    assert(p / 16 <= extra@.len() / 16) by (nonlinear_arith)
                        requires p < extra@.len();
                    Some(((p % 16) as u32, base_rows + (p / 16) as u32))
                },
                None => if 1 < table.tiles.len() {
                    Some((table.tiles[1].0, table.tiles[1].1))
                } else {
                    None
                },
            };
            assert(tile == fallback_tile(*table, ex, base_rows, short@));
            let ghost prev = tile_entries(out@);
            let mut f: usize = 0;
            while f < 6
                invariant
                    f <= 6,
                    tile_entries(out@) == prev + six_faces(key@, tile).take(f as int),
                decreases 6 - f,
            {
                let ghost p2 = tile_entries(out@);
                out.push((key.clone(), f, tile));
                assert(tile_entries(out@) =~= p2.push((key@, f as int, tile)));
                assert(six_faces(key@, tile).take(f + 1) =~= six_faces(key@, tile).take(f as int).push(
                    (key@, f as int, tile),
                ));
                f += 1;
            }
            assert(six_faces(key@, tile).take(6) =~= six_faces(key@, tile));
        }
        k += 1;
    }
    out
}

} // verus!
