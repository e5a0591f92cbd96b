//! Face textures of a vanilla block model: texture variables collected up
//! the model's parent chain, `#variable` references resolved, and one
//! texture picked per face.

use vstd::prelude::*;
use vstd::set_lib::lemma_len_subset;
use crate::block_model::{face_names, face_textures, faces_for, FaceNames, FaceTextures};
use crate::chunk::{spec_strip_namespace, strip_namespace};
use crate::swatch::{first_position, lemma_first_position_prefix};
use crate::text::{chars_of, str_eq, strip_prefix, without_prefix};

verus! {

/// A parsed block model as far as texture resolution reads it.
pub struct ModelTextures {
    /// The parent model (`"block/cube_all"`), if any.
    pub parent: Option<String>,
    /// The model's texture variables, `(variable, value)`.
    pub textures: Vec<(String, String)>,
    /// Whether the model lists its own elements.
    pub has_elements: bool,
}

/// The names of the models, in order.
pub open spec fn model_names(ms: Seq<(String, ModelTextures)>) -> Seq<Seq<char>> {
    ms.map_values(|m: (String, ModelTextures)| m.0@)
}

/// The texts of a list of string pairs.
pub open spec fn text_pairs(v: Seq<(String, String)>) -> Seq<(Seq<char>, Seq<char>)> {
    v.map_values(|e: (String, String)| (e.0@, e.1@))
}

/// A name without a leading `prefix`.
pub open spec fn without(s: Seq<char>, prefix: Seq<char>) -> Seq<char> {
    match without_prefix(s, prefix) {
        Some(r) => r,
        None => s,
    }
}

/// The value of `key` in an association list (its first entry).
pub open spec fn env_get(env: Seq<(Seq<char>, Seq<char>)>, key: Seq<char>) -> Option<Seq<char>>
    decreases env.len(),
{
    if env.len() == 0 {
        None
    } else {
        match env_get(env.drop_last(), key) {
            Some(v) => Some(v),
            None => if env.last().0 == key {
                Some(env.last().1)
            } else {
                None
            },
        }
    }
}

/// `env` with the entries of `ts` whose variable it does not have yet
/// added, in order.
pub open spec fn merged(env: Seq<(Seq<char>, Seq<char>)>, ts: Seq<(Seq<char>, Seq<char>)>) -> Seq<
    (Seq<char>, Seq<char>),
>
    decreases ts.len(),
{
    if ts.len() == 0 {
        env
    } else {
        let e = merged(env, ts.drop_last());
        if env_get(e, ts.last().0) is Some {
            e
        } else {
            e.push(ts.last())
        }
    }
}

/// The texture variables collected from model `name` up its parent chain,
/// the nearest model's value winning; the walk stops at a model that is
/// missing, has no parent, or was already visited (`seen`). The guard on
/// `seen`'s length never stops it: the visited names are distinct names of
/// models.
pub open spec fn chain_env(
    ms: Seq<(String, ModelTextures)>,
    name: Seq<char>,
    seen: Seq<Seq<char>>,
    env: Seq<(Seq<char>, Seq<char>)>,
) -> Seq<(Seq<char>, Seq<char>)>
    decreases ms.len() + 1 - seen.len(),
{
    if seen.len() > ms.len() || seen.contains(name) {
        env
    } else {
        match first_position(model_names(ms), name) {
            None => env,
            Some(i) => {
                let env2 = merged(env, text_pairs(ms[i].1.textures@));
                match ms[i].1.parent {
                    Some(p) => chain_env(ms, without(p@, "minecraft:"@), seen.push(name), env2),
                    None => env2,
                }
            },
        }
    }
}

/// A value with its `#variable` references followed through `env` until it
/// is no reference, names a variable `env` lacks, or repeats (`seen`). The
/// guard on `seen`'s length never stops it.
pub open spec fn resolve_var(env: Seq<(Seq<char>, Seq<char>)>, val: Seq<char>, seen: Seq<Seq<char>>) -> Seq<char>
    decreases env.len() + 1 - seen.len(),
{
    if !(val.len() > 0 && val[0] == '#') || seen.contains(val) || seen.len() > env.len() {
        val
    } else {
        match env_get(env, val.drop_first()) {
            Some(r) => resolve_var(env, r, seen.push(val)),
            None => val,
        }
    }
}

/// The final texture of a variable's value: resolved, then without a
/// `minecraft:` and a `block/` prefix.
pub open spec fn final_texture(env: Seq<(Seq<char>, Seq<char>)>, val: Seq<char>) -> Seq<char> {
    without(without(resolve_var(env, val, Seq::empty()), "minecraft:"@), "block/"@)
}

/// The texture of the first of `keys` that `env` has, else the model's own
/// name without `block/`.
pub open spec fn face_texture(env: Seq<(Seq<char>, Seq<char>)>, keys: Seq<Seq<char>>, model: Seq<char>) -> Seq<
    char,
>
    decreases keys.len(),
{
    if keys.len() == 0 {
        without(model, "block/"@)
    } else {
        match env_get(env, keys[0]) {
            Some(v) => final_texture(env, v),
            None => face_texture(env, keys.drop_first(), model),
        }
    }
}

/// The six face textures of a model.
pub open spec fn model_faces(ms: Seq<(String, ModelTextures)>, model: Seq<char>) -> FaceNames {
    let env = chain_env(ms, model, Seq::empty(), Seq::empty());
    face_names(
        face_texture(env, seq!["up"@, "top"@, "end"@, "all"@, "particle"@], model),
        face_texture(env, seq!["down"@, "bottom"@, "end"@, "all"@, "particle"@], model),
        face_texture(env, seq!["south"@, "side"@, "all"@, "particle"@], model),
        face_texture(env, seq!["north"@, "side"@, "all"@, "particle"@], model),
        face_texture(env, seq!["east"@, "side"@, "all"@, "particle"@], model),
        face_texture(env, seq!["west"@, "side"@, "all"@, "particle"@], model),
    )
}

/// Distinct members of a list are no more than the list's length.
proof fn lemma_distinct_within(s: Seq<Seq<char>>, t: Seq<Seq<char>>)
    requires
        s.no_duplicates(),
        forall|i: int| 0 <= i < s.len() ==> t.contains(#[trigger] s[i]),
    ensures
        s.len() <= t.len(),
{
    broadcast use vstd::seq_lib::seq_to_set_is_finite;

    s.unique_seq_to_set();
    t.lemma_cardinality_of_set();
    assert(s.to_set().subset_of(t.to_set())) by {
        assert forall|x: Seq<char>| s.to_set().contains(x) implies t.to_set().contains(x) by {
            let i = choose|i: int| 0 <= i < s.len() && s[i] == x;
            assert(t.contains(s[i]));
        }
    }
    lemma_len_subset(s.to_set(), t.to_set());
}

/// A name without a leading `prefix`.
fn strip_or_keep<'a>(s: &'a str, prefix: &str) -> (r: &'a str)
    ensures
        r@ == without(s@, prefix@),
{
    match strip_prefix(s, prefix) {
        Some(r) => r,
        None => s,
    }
}

/// The value of `key` in an association list.
fn get_value<'a>(env: &'a Vec<(String, String)>, key: &str) -> (r: Option<&'a String>)
    ensures
        match r {
            Some(v) => env_get(text_pairs(env@), key@) == Some(v@),
            None => env_get(text_pairs(env@), key@) is None,
        },
{
    let ghost all = text_pairs(env@);
    let mut i: usize = 0;
    assert(all.take(0) =~= Seq::<(Seq<char>, Seq<char>)>::empty());
    while i < env.len()
        invariant
            i <= env@.len(),
            all == text_pairs(env@),
            env_get(all.take(i as int), key@) is None,
        decreases env@.len() - i,
    {
        assert(all.take(i + 1).drop_last() =~= all.take(i as int));
        if str_eq(env[i].0.as_str(), key) {
            assert(env_get(all.take(i + 1), key@) == Some(env@[i as int].1@));
            proof {
                lemma_env_get_prefix(all, i + 1, key@);
            }
            return Some(&env[i].1);
        }
        i += 1;
    }
    assert(all.take(env@.len() as int) =~= all);
    None
}

/// A value found in a prefix of the list is the list's value.
proof fn lemma_env_get_prefix(env: Seq<(Seq<char>, Seq<char>)>, k: int, key: Seq<char>)
    requires
        0 <= k <= env.len(),
        env_get(env.take(k), key) is Some,
    ensures
        env_get(env, key) == env_get(env.take(k), key),
    decreases env.len() - k,
{
    if k < env.len() {
        assert(env.take(k + 1).drop_last() =~= env.take(k));
        lemma_env_get_prefix(env, k + 1, key);
    } else {
        assert(env.take(k) =~= env);
    }
}

/// Add the entries of `textures` whose variable `env` lacks.
fn merge_into(env: &mut Vec<(String, String)>, textures: &Vec<(String, String)>)
    ensures
        text_pairs(final(env)@) == merged(text_pairs(old(env)@), text_pairs(textures@)),
{
    let ghost start = text_pairs(env@);
    let ghost ts = text_pairs(textures@);
    let mut i: usize = 0;
    assert(ts.take(0) =~= Seq::<(Seq<char>, Seq<char>)>::empty());
    while i < textures.len()
        invariant
            i <= textures@.len(),
            ts == text_pairs(textures@),
            text_pairs(env@) == merged(start, ts.take(i as int)),
        decreases textures@.len() - i,
    {
        assert(ts.take(i + 1).drop_last() =~= ts.take(i as int));
        assert(ts.take(i + 1).last() == ts[i as int]);
        let ghost before = text_pairs(env@);
        if get_value(env, textures[i].0.as_str()).is_none() {
            env.push((textures[i].0.clone(), textures[i].1.clone()));
            assert(text_pairs(env@) =~= before.push(ts[i as int]));
        }
        i += 1;
    }
    assert(ts.take(textures@.len() as int) =~= ts);
}

/// The position of the first model named `name`.
fn find_model(models: &[(String, ModelTextures)], name: &str) -> (r: Option<usize>)
    ensures
        match r {
            Some(i) => i < models@.len() && first_position(model_names(models@), name@) == Some(i as int),
            None => first_position(model_names(models@), name@) is None,
        },
{
    let ghost all = model_names(models@);
    let mut i: usize = 0;
    assert(all.take(0) =~= Seq::<Seq<char>>::empty());
    while i < models.len()
        invariant
            i <= models@.len(),
            all == model_names(models@),
            first_position(all.take(i as int), name@) is None,
        decreases models@.len() - i,
    {
        assert(all.take(i + 1).drop_last() =~= all.take(i as int));
        if str_eq(models[i].0.as_str(), name) {
            assert(first_position(all.take(i + 1), name@) == Some(i as int));
            proof {
                lemma_first_position_prefix(all, i + 1, name@);
            }
            return Some(i);
        }
        i += 1;
    }
    assert(all.take(models@.len() as int) =~= all);
    None
}

/// The first position found is a position holding the name.
proof fn lemma_first_position_found(s: Seq<Seq<char>>, n: Seq<char>)
    ensures
        first_position(s, n) matches Some(i) ==> 0 <= i < s.len() && s[i] == n,
        first_position(s, n) is None ==> !s.contains(n),
    decreases s.len(),
{
    if s.len() > 0 {
        lemma_first_position_found(s.drop_last(), n);
        if first_position(s, n) is None {
            assert forall|i: int| 0 <= i < s.len() implies s[i] != n by {
                if i < s.len() - 1 {
                    assert(s.drop_last()[i] == s[i]);
                }
            }
        }
    }
}

/// Whether the list holds the text `s`.
fn contains_text(list: &Vec<String>, s: &str) -> (r: bool)
    ensures
        r == list@.map_values(|x: String| x@).contains(s@),
{
    let ghost all = list@.map_values(|x: String| x@);
    let mut j: usize = 0;
    while j < list.len()
        invariant
            j <= list@.len(),
            all == list@.map_values(|x: String| x@),
            forall|q: int| 0 <= q < j ==> all[q] != s@,
        decreases list@.len() - j,
    {
        assert(all[j as int] == list@[j as int]@);
        if str_eq(list[j].as_str(), s) {
            assert(all[j as int] == s@);
            return true;
        }
        j += 1;
    }
    false
}

/// Walk the parent chain of `model_name`, collecting texture variables.
fn collect_chain(models: &[(String, ModelTextures)], model_name: &str) -> (r: Vec<(String, String)>)
    ensures
        text_pairs(r@) == chain_env(models@, model_name@, Seq::empty(), Seq::empty()),
{
    let ghost ms = models@;
    let ghost target = chain_env(ms, model_name@, Seq::empty(), Seq::empty());
    let mut env: Vec<(String, String)> = Vec::new();
    let mut visited: Vec<String> = Vec::new();
    let mut cur: Option<String> = Some(model_name.to_string());
    assert(text_pairs(env@) =~= Seq::<(Seq<char>, Seq<char>)>::empty());
    assert(model_names(ms).len() == ms.len());
    assert(visited@.map_values(|s: String| s@) =~= Seq::<Seq<char>>::empty());
    while cur.is_some()
        invariant
            ms == models@,
            model_names(ms).len() == ms.len(),
            visited@.map_values(|s: String| s@).no_duplicates(),
            forall|j: int| 0 <= j < visited@.len() ==> model_names(ms).contains(#[trigger] visited@[j]@),
            match cur {
                Some(n) => target == chain_env(ms, n@, visited@.map_values(|s: String| s@), text_pairs(env@)),
                None => target == text_pairs(env@),
            },
        decreases 2 * (ms.len() + 1 - visited@.len()) + if cur is Some { 1int } else { 0int },
    {
        let ghost seen = visited@.map_values(|s: String| s@);
        proof {
            lemma_distinct_within(seen, model_names(ms));
        }
        let name = match cur {
            Some(n) => n,
            None => String::new(),
        };
        let already = contains_text(&visited, name.as_str());
        assert(already == seen.contains(name@));
        if already {
            cur = None;
        } else {
            match find_model(models, name.as_str()) {
                None => {
                    cur = None;
                },
                Some(i) => {
                    proof {
                        lemma_first_position_found(model_names(ms), name@);
                    }
                    merge_into(&mut env, &models[i].1.textures);
                    let ghost pushed = name@;
                    visited.push(name);
                    proof {
                        assert(visited@.map_values(|s: String| s@) =~= seen.push(pushed));
                        assert forall|a: int, b: int|
                            0 <= a < b < seen.push(pushed).len() implies seen.push(pushed)[a] != seen.push(pushed)[b] by {
                            if b == seen.len() {
                                assert(seen[a] == seen.push(pushed)[a]);
                            }
                        }
                        assert(model_names(ms)[i as int] == pushed);
                        assert forall|q: int| 0 <= q < visited@.len() implies model_names(ms).contains(#[trigger] visited@[q]@) by {
                            if q == visited@.len() - 1 {
                                assert(model_names(ms)[i as int] == visited@[q]@);
                            } else {
                                assert(visited@[q]@ == seen[q]);
                            }
                        }
                    }
                    cur = match &models[i].1.parent {
                        Some(p) => Some(strip_or_keep(p.as_str(), "minecraft:").to_string()),
                        None => None,
                    };
                },
            }
        }
    }
    env
}

/// Follow `#variable` references of a value through `env`.
fn resolve_value(env: &Vec<(String, String)>, v: &String) -> (r: String)
    ensures
        r@ == resolve_var(text_pairs(env@), v@, Seq::empty()),
{
    let ghost e = text_pairs(env@);
    let ghost target = resolve_var(e, v@, Seq::empty());
    let mut val: String = v.clone();
    let mut seen: Vec<String> = Vec::new();
    let mut done = false;
    assert(e.len() == env@.len());
    assert(seen@.map_values(|s: String| s@) =~= Seq::<Seq<char>>::empty());
    while !done
        invariant
            e == text_pairs(env@),
            e.len() == env@.len(),
            seen@.map_values(|s: String| s@).no_duplicates(),
            seen@.len() > 0 ==> seen@[0]@ == v@,
            seen@.len() == 0 ==> val@ == v@,
            forall|q: int| 1 <= q < seen@.len() ==> env_values(e).contains(#[trigger] seen@[q]@),
            seen@.len() > 0 ==> env_values(e).contains(val@),
            !done ==> target == resolve_var(e, val@, seen@.map_values(|s: String| s@)),
            done ==> target == val@,
        decreases 2 * (env@.len() + 2 - seen@.len()) + if done { 0int } else { 1int },
    {
        let ghost sv = seen@.map_values(|s: String| s@);
        proof {
            if sv.len() > 0 {
                lemma_distinct_within(sv.drop_first(), env_values(e));
                assert(env_values(e).len() == e.len());
            }
        }
        let is_ref = val.as_str().unicode_len() > 0 && val.as_str().get_char(0) == '#';
        if !is_ref {
            done = true;
        } else {
            let already = contains_text(&seen, val.as_str());
            assert(already == sv.contains(val@));
            if already {
                done = true;
            } else {
                let key = strip_or_keep(val.as_str(), "#");
                proof {
                    reveal_strlit("#");
                    assert("#"@.len() == 1 && "#"@[0] == '#');
                    assert(val@.subrange(0, 1) =~= "#"@);
                    assert(val@.subrange(1, val@.len() as int) =~= val@.drop_first());
                    assert(key@ == val@.drop_first());
                }
                match get_value(env, key) {
                    None => {
                        done = true;
                    },
                    Some(next) => {
                        let ghost old_val = val@;
                        proof {
                            lemma_env_get_value(e, val@.drop_first());
                            if sv.len() > 0 {
                                let t = sv.drop_first().push(old_val);
                                assert forall|a: int, b: int| 0 <= a < b < t.len() implies t[a] != t[b] by {
                                    if b == t.len() - 1 {
                                        assert(t[a] == sv[a + 1]);
                                        assert(sv.contains(sv[a + 1]));
                                    } else {
                                        assert(t[a] == sv[a + 1] && t[b] == sv[b + 1]);
                                    }
                                }
                                assert forall|q: int| 0 <= q < t.len() implies env_values(e).contains(#[trigger] t[q]) by {
                                    if q < t.len() - 1 {
                                        assert(t[q] == seen@[q + 1]@);
                                    }
                                }
                                lemma_distinct_within(t, env_values(e));
                                assert(env_values(e).len() == e.len());
                            }
                            assert(sv.len() <= e.len());
                            assert(resolve_var(e, old_val, sv) == resolve_var(e, next@, sv.push(old_val)));
                        }
                        let next_val = next.clone();
                        seen.push(val);
                        val = next_val;
                        proof {
                            assert(seen@.map_values(|s: String| s@) =~= sv.push(old_val));
                            assert forall|a: int, b: int|
                                0 <= a < b < sv.push(old_val).len() implies sv.push(old_val)[a] != sv.push(old_val)[b] by {
                                if b == sv.len() {
                                    assert(sv[a] == sv.push(old_val)[a]);
                                }
                            }
                            assert forall|q: int| 1 <= q < seen@.len() implies env_values(e).contains(#[trigger] seen@[q]@) by {
                                if q < seen@.len() - 1 {
                                    assert(seen@[q]@ == sv[q]);
                                }
                            }
                        }
                    },
                }
            }
        }
    }
    val
}

/// The values of an association list.
pub open spec fn env_values(env: Seq<(Seq<char>, Seq<char>)>) -> Seq<Seq<char>> {
    env.map_values(|e: (Seq<char>, Seq<char>)| e.1)
}

/// A value found in the list is one of its values.
proof fn lemma_env_get_value(env: Seq<(Seq<char>, Seq<char>)>, key: Seq<char>)
    ensures
        env_get(env, key) matches Some(v) ==> env_values(env).contains(v),
    decreases env.len(),
{
    if env.len() > 0 {
        lemma_env_get_value(env.drop_last(), key);
        if env_get(env.drop_last(), key) is Some {
            let v = env_get(env.drop_last(), key).unwrap();
            let i = choose|i: int| 0 <= i < env_values(env.drop_last()).len() && env_values(env.drop_last())[i] == v;
            assert(env_values(env)[i] == v);
        } else if env.last().0 == key {
            assert(env_values(env)[env.len() - 1] == env.last().1);
        }
    }
}

/// The final texture of a variable's value.
fn final_value(env: &Vec<(String, String)>, v: &String) -> (r: String)
    ensures
        r@ == final_texture(text_pairs(env@), v@),
{
    let resolved = resolve_value(env, v);
    strip_or_keep(strip_or_keep(resolved.as_str(), "minecraft:"), "block/").to_string()
}

/// The texture of the first of `keys` the model defines, else the model's
/// own name without `block/`.
fn pick_face(env: &Vec<(String, String)>, keys: &[&str], model_name: &str) -> (r: String)
    ensures
        r@ == face_texture(text_pairs(env@), keys@.map_values(|k: &str| k@), model_name@),
{
    let ghost ks = keys@.map_values(|k: &str| k@);
    let mut i: usize = 0;
    assert(ks.skip(0) =~= ks);
    while i < keys.len()
        invariant
            i <= keys@.len(),
            ks == keys@.map_values(|k: &str| k@),
            face_texture(text_pairs(env@), ks, model_name@) == face_texture(
                text_pairs(env@),
                ks.skip(i as int),
                model_name@,
            ),
        decreases keys@.len() - i,
    {
        assert(ks.skip(i as int)[0] == keys@[i as int]@);
        assert(ks.skip(i as int).drop_first() =~= ks.skip(i + 1));
        if let Some(v) = get_value(env, keys[i]) {
            return final_value(env, v);
        }
        i += 1;
    }
    assert(ks.skip(keys@.len() as int) =~= Seq::<Seq<char>>::empty());
    strip_or_keep(model_name, "block/").to_string()
}

/// Resolve the six face textures of a model (`"block/stone"`) from the
/// parsed models: variables gathered up the parent chain, references
/// followed, and for each face the first of its keys that is defined
/// (`up`/`top`/`end`/`all`/`particle` for the top, and so on), else the
/// model's own name.
pub fn resolve_textures(model_name: &str, models: &[(String, ModelTextures)]) -> (r: FaceTextures)
    ensures
        r@ == model_faces(models@, model_name@),
{
    let env = collect_chain(models, model_name);
    let top = ["up", "top", "end", "all", "particle"];
    let bottom = ["down", "bottom", "end", "all", "particle"];
    let south = ["south", "side", "all", "particle"];
    let north = ["north", "side", "all", "particle"];
    let east = ["east", "side", "all", "particle"];
    let west = ["west", "side", "all", "particle"];
    assert(top@.map_values(|k: &str| k@) =~= seq!["up"@, "top"@, "end"@, "all"@, "particle"@]);
    assert(bottom@.map_values(|k: &str| k@) =~= seq!["down"@, "bottom"@, "end"@, "all"@, "particle"@]);
    assert(south@.map_values(|k: &str| k@) =~= seq!["south"@, "side"@, "all"@, "particle"@]);
    assert(north@.map_values(|k: &str| k@) =~= seq!["north"@, "side"@, "all"@, "particle"@]);
    assert(east@.map_values(|k: &str| k@) =~= seq!["east"@, "side"@, "all"@, "particle"@]);
    assert(west@.map_values(|k: &str| k@) =~= seq!["west"@, "side"@, "all"@, "particle"@]);
    FaceTextures {
        top: pick_face(&env, &top, model_name),
        bottom: pick_face(&env, &bottom, model_name),
        south: pick_face(&env, &south, model_name),
        north: pick_face(&env, &north, model_name),
        east: pick_face(&env, &east, model_name),
        west: pick_face(&env, &west, model_name),
    }
}

/// `s` contains `pat` somewhere.
pub open spec fn has_part(s: Seq<char>, pat: Seq<char>) -> bool {
    exists|i: int| 0 <= i && i + pat.len() <= s.len() && #[trigger] s.subrange(i, i + pat.len()) == pat
}

/// Whether `pat` occurs in `s` at position `i`.
fn occurs_at(s: &Vec<char>, pat: &Vec<char>, i: usize) -> (r: bool)
    requires
        i + pat@.len() <= s@.len(),
    ensures
        r == (s@.subrange(i as int, i + pat@.len()) == pat@),
{
    let sl = s.len();
    let mut k: usize = 0;
    while k < pat.len()
        invariant
            k <= pat@.len(),
            sl == s@.len(),
            i + pat@.len() <= s@.len(),
            forall|q: int| 0 <= q < k ==> s@[i + q] == pat@[q],
        decreases pat@.len() - k,
    {
        if s[i + k] != pat[k] {
            assert(s@.subrange(i as int, i + pat@.len())[k as int] != pat@[k as int]);
            return false;
        }
        k += 1;
    }
    assert(s@.subrange(i as int, i + pat@.len()) =~= pat@);
    true
}

/// `str::contains` for a text pattern.
fn text_contains(s: &str, pat: &str) -> (r: bool)
    ensures
        r == has_part(s@, pat@),
{
    let cs = chars_of(s);
    let ps = chars_of(pat);
    if ps.len() == 0 {
        assert(s@.subrange(0, 0int + pat@.len()) =~= pat@);
        return true;
    }
    if ps.len() > cs.len() {
        return false;
    }
    let cl = cs.len();
    let last = cl - ps.len();
    let mut i: usize = 0;
    while i <= last
        invariant
            cl == cs@.len(),
            last + ps@.len() == cs@.len(),
            ps@.len() > 0,
            i <= last + 1,
            cs@ == s@,
            ps@ == pat@,
            forall|q: int| 0 <= q < i ==> #[trigger] s@.subrange(q, q + pat@.len()) != pat@,
        decreases last + 1 - i,
    {
        if occurs_at(&cs, &ps, i) {
            return true;
        }
        i += 1;
    }
    assert forall|q: int| 0 <= q && q + pat@.len() <= s@.len() implies #[trigger] s@.subrange(q, q + pat@.len()) != pat@ by {
        assert(q <= last);
    }
    false
}

/// The first key that contains `pat`.
pub open spec fn first_containing(keys: Seq<Seq<char>>, pat: Seq<char>) -> Option<int>
    decreases keys.len(),
{
    if keys.len() == 0 {
        None
    } else {
        match first_containing(keys.drop_last(), pat) {
            Some(i) => Some(i),
            None => if has_part(keys.last(), pat) {
                Some(keys.len() - 1)
            } else {
                None
            },
        }
    }
}

/// `a`, else `b`.
pub open spec fn either(a: Option<int>, b: Option<int>) -> Option<int> {
    if a is Some {
        a
    } else {
        b
    }
}

/// The variant a blockstate is drawn with: the one keyed `""`, else
/// `"normal"`, else the first whose key says `axis=y`, `snowy=false`,
/// `half=lower` or `facing=south` (tried in that order), else the first.
pub open spec fn spec_preferred_variant(keys: Seq<Seq<char>>) -> Option<int> {
    either(
        first_position(keys, ""@),
        either(
            first_position(keys, "normal"@),
            either(
                first_containing(keys, "axis=y"@),
                either(
                    first_containing(keys, "snowy=false"@),
                    either(
                        first_containing(keys, "half=lower"@),
                        either(first_containing(keys, "facing=south"@), if keys.len() > 0 { Some(0) } else { None }),
                    ),
                ),
            ),
        ),
    )
}

/// The first key equal to `name`.
fn key_position(keys: &[String], name: &str) -> (r: Option<usize>)
    ensures
        match r {
            Some(i) => i < keys@.len() && first_position(keys@.map_values(|k: String| k@), name@) == Some(i as int),
            None => first_position(keys@.map_values(|k: String| k@), name@) is None,
        },
{
    let ghost all = keys@.map_values(|k: String| k@);
    let mut i: usize = 0;
    assert(all.take(0) =~= Seq::<Seq<char>>::empty());
    while i < keys.len()
        invariant
            i <= keys@.len(),
            all == keys@.map_values(|k: String| k@),
            first_position(all.take(i as int), name@) is None,
        decreases keys@.len() - i,
    {
        assert(all.take(i + 1).drop_last() =~= all.take(i as int));
        if str_eq(keys[i].as_str(), name) {
            assert(first_position(all.take(i + 1), name@) == Some(i as int));
            proof {
                lemma_first_position_prefix(all, i + 1, name@);
            }
            return Some(i);
        }
        i += 1;
    }
    assert(all.take(keys@.len() as int) =~= all);
    None
}

/// The first key containing `pat`.
fn key_containing(keys: &[String], pat: &str) -> (r: Option<usize>)
    ensures
        match r {
            Some(i) => i < keys@.len() && first_containing(keys@.map_values(|k: String| k@), pat@) == Some(i as int),
            None => first_containing(keys@.map_values(|k: String| k@), pat@) is None,
        },
{
    let ghost all = keys@.map_values(|k: String| k@);
    let mut i: usize = 0;
    assert(all.take(0) =~= Seq::<Seq<char>>::empty());
    while i < keys.len()
        invariant
            i <= keys@.len(),
            all == keys@.map_values(|k: String| k@),
            first_containing(all.take(i as int), pat@) is None,
        decreases keys@.len() - i,
    {
        assert(all.take(i + 1).drop_last() =~= all.take(i as int));
        if text_contains(keys[i].as_str(), pat) {
            assert(first_containing(all.take(i + 1), pat@) == Some(i as int));
            proof {
                lemma_first_containing_prefix(all, i + 1, pat@);
            }
            return Some(i);
        }
        i += 1;
    }
    assert(all.take(keys@.len() as int) =~= all);
    None
}

/// A match found in a prefix is the first match of the whole list.
proof fn lemma_first_containing_prefix(s: Seq<Seq<char>>, k: int, pat: Seq<char>)
    requires
        0 <= k <= s.len(),
        first_containing(s.take(k), pat) is Some,
    ensures
        first_containing(s, pat) == first_containing(s.take(k), pat),
    decreases s.len() - k,
{
    if k < s.len() {
        assert(s.take(k + 1).drop_last() =~= s.take(k));
        lemma_first_containing_prefix(s, k + 1, pat);
    } else {
        assert(s.take(k) =~= s);
    }
}

/// The position of the variant a blockstate is drawn with, among its
/// variant keys.
pub fn preferred_variant(keys: &[String]) -> (r: Option<usize>)
    ensures
        match r {
            Some(i) => i < keys@.len() && spec_preferred_variant(keys@.map_values(|k: String| k@)) == Some(i as int),
            None => spec_preferred_variant(keys@.map_values(|k: String| k@)) is None,
        },
{
    if let Some(i) = key_position(keys, "") {
        return Some(i);
    }
    if let Some(i) = key_position(keys, "normal") {
        return Some(i);
    }
    if let Some(i) = key_containing(keys, "axis=y") {
        return Some(i);
    }
    if let Some(i) = key_containing(keys, "snowy=false") {
        return Some(i);
    }
    if let Some(i) = key_containing(keys, "half=lower") {
        return Some(i);
    }
    if let Some(i) = key_containing(keys, "facing=south") {
        return Some(i);
    }
    if keys.len() > 0 {
        Some(0)
    } else {
        None
    }
}

/// The face textures a block's blockstate gives: the model of its preferred
/// variant (`None` when the variant's model could not be read), without a
/// `minecraft:` prefix, resolved against the models.
pub open spec fn spec_blockstate_faces(
    variants: Seq<(String, Option<String>)>,
    models: Seq<(String, ModelTextures)>,
) -> Option<FaceNames> {
    match spec_preferred_variant(variants.map_values(|v: (String, Option<String>)| v.0@)) {
        Some(i) => match variants[i].1 {
            Some(m) => Some(model_faces(models, without(m@, "minecraft:"@))),
            None => None,
        },
        None => None,
    }
}

/// The face textures of a block from its blockstate's variants, each given
/// as its key and the model of its first entry.
pub fn blockstate_faces(variants: &[(String, Option<String>)], models: &[(String, ModelTextures)]) -> (r: Option<
    FaceTextures,
>)
    ensures
        match r {
            Some(f) => spec_blockstate_faces(variants@, models@) == Some(f@),
            None => spec_blockstate_faces(variants@, models@) is None,
        },
{
    let mut keys: Vec<String> = Vec::new();
    let mut i: usize = 0;
    while i < variants.len()
        invariant
            i <= variants@.len(),
            keys@.len() == i,
            forall|q: int| 0 <= q < i ==> #[trigger] keys@[q]@ == variants@[q].0@,
        decreases variants@.len() - i,
    {
        keys.push(variants[i].0.clone());
        i += 1;
    }
    assert(keys@.map_values(|k: String| k@) =~= variants@.map_values(|v: (String, Option<String>)| v.0@));
    match preferred_variant(&keys) {
        None => None,
        Some(i) => match &variants[i].1 {
            None => None,
            Some(m) => Some(resolve_textures(strip_or_keep(m.as_str(), "minecraft:"), models)),
        },
    }
}

/// The faces resolved for a block name from its blockstate, if the table
/// has the name (its first entry).
pub open spec fn resolved_faces(table: Seq<(String, FaceTextures)>, short: Seq<char>) -> Option<FaceNames>
    decreases table.len(),
{
    if table.len() == 0 {
        None
    } else {
        match resolved_faces(table.drop_last(), short) {
            Some(f) => Some(f),
            None => if table.last().0@ == short {
                Some(table.last().1@)
            } else {
                None
            },
        }
    }
}

/// The six face textures of a block: those resolved from the vanilla JSON
/// definitions when the table has the block, else the built-in ones.
pub open spec fn spec_face_textures_with(table: Seq<(String, FaceTextures)>, block: Seq<char>) -> FaceNames {
    match resolved_faces(table, spec_strip_namespace(block)) {
        Some(f) => f,
        None => faces_for(spec_strip_namespace(block)),
    }
}

/// A copy of a set of face textures.
fn copy_faces(f: &FaceTextures) -> (r: FaceTextures)
    ensures
        r@ == f@,
{
    FaceTextures {
        top: f.top.clone(),
        bottom: f.bottom.clone(),
        south: f.south.clone(),
        north: f.north.clone(),
        east: f.east.clone(),
        west: f.west.clone(),
    }
}

/// Resolve the six face textures for a block name (namespace optional),
/// trying the faces resolved from the vanilla JSON definitions first.
pub fn face_textures_with(table: &[(String, FaceTextures)], block: &str) -> (r: FaceTextures)
    ensures
        r@ == spec_face_textures_with(table@, block@),
{
    let short = strip_namespace(block);
    let ghost all = table@;
    let mut i: usize = 0;
    assert(all.take(0) =~= Seq::<(String, FaceTextures)>::empty());
    while i < table.len()
        invariant
            i <= table@.len(),
            all == table@,
            short@ == spec_strip_namespace(block@),
            resolved_faces(all.take(i as int), short@) is None,
        decreases table@.len() - i,
    {
        assert(all.take(i + 1).drop_last() =~= all.take(i as int));
        if str_eq(table[i].0.as_str(), short) {
            assert(resolved_faces(all.take(i + 1), short@) == Some(table@[i as int].1@));
            proof {
                lemma_resolved_prefix(all, i + 1, short@);
            }
            return copy_faces(&table[i].1);
        }
        i += 1;
    }
    assert(all.take(table@.len() as int) =~= all);
    face_textures(block)
}

/// A match found in a prefix is the first match of the whole table.
proof fn lemma_resolved_prefix(s: Seq<(String, FaceTextures)>, k: int, n: Seq<char>)
    requires
        0 <= k <= s.len(),
        resolved_faces(s.take(k), n) is Some,
    ensures
        resolved_faces(s, n) == resolved_faces(s.take(k), n),
    decreases s.len() - k,
{
    if k < s.len() {
        assert(s.take(k + 1).drop_last() =~= s.take(k));
        lemma_resolved_prefix(s, k + 1, n);
    } else {
        assert(s.take(k) =~= s);
    }
}

/// The texture map of a model: every collected variable with its final
/// texture, then the empty variable naming the model itself (without
/// `block/`), which replaces any variable of that name.
pub open spec fn texture_map(ms: Seq<(String, ModelTextures)>, model: Seq<char>) -> Seq<(Seq<char>, Seq<char>)> {
    let env = chain_env(ms, model, Seq::empty(), Seq::empty());
    finals(env, env).push((Seq::empty(), without(model, "block/"@)))
}

/// The entries of `part` other than the empty variable, each with its final
/// texture under `env`.
pub open spec fn finals(env: Seq<(Seq<char>, Seq<char>)>, part: Seq<(Seq<char>, Seq<char>)>) -> Seq<
    (Seq<char>, Seq<char>),
>
    decreases part.len(),
{
    if part.len() == 0 {
        Seq::empty()
    } else {
        let before = finals(env, part.drop_last());
        if part.last().0.len() == 0 {
            before
        } else {
            before.push((part.last().0, final_texture(env, part.last().1)))
        }
    }
}

/// Every texture variable of a model (gathered up its parent chain) with
/// its final texture, and the empty variable naming the model.
pub fn resolved_texture_map(model_name: &str, models: &[(String, ModelTextures)]) -> (r: Vec<(String, String)>)
    ensures
        text_pairs(r@) == texture_map(models@, model_name@),
{
    let env = collect_chain(models, model_name);
    let ghost e = text_pairs(env@);
    let mut out: Vec<(String, String)> = Vec::new();
    let mut i: usize = 0;
    assert(e.take(0) =~= Seq::<(Seq<char>, Seq<char>)>::empty());
    assert(text_pairs(out@) =~= Seq::<(Seq<char>, Seq<char>)>::empty());
    while i < env.len()
        invariant
            i <= env@.len(),
            e == text_pairs(env@),
            text_pairs(out@) == finals(e, e.take(i as int)),
        decreases env@.len() - i,
    {
        assert(e.take(i + 1).drop_last() =~= e.take(i as int));
        assert(e.take(i + 1).last() == e[i as int]);
        let ghost before = text_pairs(out@);
        if env[i].0.as_str().unicode_len() > 0 {
            let v = final_value(&env, &env[i].1);
            out.push((env[i].0.clone(), v));
            assert(text_pairs(out@) =~= before.push((e[i as int].0, final_texture(e, e[i as int].1))));
        }
        i += 1;
    }
    assert(e.take(env@.len() as int) =~= e);
    let ghost before = text_pairs(out@);
    out.push((String::new(), strip_or_keep(model_name, "block/").to_string()));
    assert(text_pairs(out@) =~= before.push((Seq::<char>::empty(), without(model_name@, "block/"@))));
    out
}

/// The first model up the parent chain of `name` that lists elements, by
/// its position; the walk is the one `chain_env` makes.
pub open spec fn elements_model(ms: Seq<(String, ModelTextures)>, name: Seq<char>, seen: Seq<Seq<char>>) -> Option<int>
    decreases ms.len() + 1 - seen.len(),
{
    if seen.len() > ms.len() || seen.contains(name) {
        None
    } else {
        match first_position(model_names(ms), name) {
            None => None,
            Some(i) => if ms[i].1.has_elements {
                Some(i)
            } else {
                match ms[i].1.parent {
                    Some(p) => elements_model(ms, without(p@, "minecraft:"@), seen.push(name)),
                    None => None,
                }
            },
        }
    }
}

/// The position of the model whose elements a model uses: the nearest one
/// up its parent chain that lists any.
pub fn elements_source(models: &[(String, ModelTextures)], model_name: &str) -> (r: Option<usize>)
    ensures
        match r {
            Some(i) => i < models@.len() && elements_model(models@, model_name@, Seq::empty()) == Some(i as int),
            None => elements_model(models@, model_name@, Seq::empty()) is None,
        },
{
    let ghost ms = models@;
    let ghost target = elements_model(ms, model_name@, Seq::empty());
    let mut visited: Vec<String> = Vec::new();
    let mut cur: Option<String> = Some(model_name.to_string());
    assert(visited@.map_values(|s: String| s@) =~= Seq::<Seq<char>>::empty());
    while cur.is_some()
        invariant
            ms == models@,
            target == elements_model(models@, model_name@, Seq::empty()),
            model_names(ms).len() == ms.len(),
            visited@.map_values(|s: String| s@).no_duplicates(),
            forall|j: int| 0 <= j < visited@.len() ==> model_names(ms).contains(#[trigger] visited@[j]@),
            match cur {
                Some(n) => target == elements_model(ms, n@, visited@.map_values(|s: String| s@)),
                None => target is None,
            },
        decreases 2 * (ms.len() + 1 - visited@.len()) + if cur is Some { 1int } else { 0int },
    {
        let ghost seen = visited@.map_values(|s: String| s@);
        proof {
            lemma_distinct_within(seen, model_names(ms));
        }
        let ghost cur_name = cur.unwrap()@;
        let name = match cur {
            Some(n) => n,
            None => String::new(),
        };
        assert(name@ == cur_name);
        if contains_text(&visited, name.as_str()) {
            cur = None;
        } else {
            match find_model(models, name.as_str()) {
                None => {
                    cur = None;
                },
                Some(i) => {
                    proof {
                        lemma_first_position_found(model_names(ms), name@);
                    }
                    if models[i].1.has_elements {
                        assert(elements_model(ms, name@, seen) == Some(i as int));
                        return Some(i);
                    }
                    let ghost pushed = name@;
                    visited.push(name);
                    proof {
                        assert(visited@.map_values(|s: String| s@) =~= seen.push(pushed));
                        assert forall|a: int, b: int|
                            0 <= a < b < seen.push(pushed).len() implies seen.push(pushed)[a] != seen.push(pushed)[b] by {
                            if b == seen.len() {
                                assert(seen[a] == seen.push(pushed)[a]);
                            }
                        }
                        assert(model_names(ms)[i as int] == pushed);
                        assert forall|q: int| 0 <= q < visited@.len() implies model_names(ms).contains(#[trigger] visited@[q]@) by {
                            if q == visited@.len() - 1 {
                                assert(model_names(ms)[i as int] == visited@[q]@);
                            } else {
                                assert(visited@[q]@ == seen[q]);
                            }
                        }
                    }
                    cur = match &models[i].1.parent {
                        Some(p) => Some(strip_or_keep(p.as_str(), "minecraft:").to_string()),
                        None => None,
                    };
                },
            }
        }
    }
    None
}

/// `list` with the texts of `add` appended that are non-empty and not in it
/// yet, in order.
pub open spec fn add_new(list: Seq<Seq<char>>, add: Seq<Seq<char>>) -> Seq<Seq<char>>
    decreases add.len(),
{
    if add.len() == 0 {
        list
    } else {
        let before = add_new(list, add.drop_last());
        if add.last().len() == 0 || before.contains(add.last()) {
            before
        } else {
            before.push(add.last())
        }
    }
}

/// The values of a texture map.
pub open spec fn map_values_of(m: Seq<(Seq<char>, Seq<char>)>) -> Seq<Seq<char>> {
    m.map_values(|e: (Seq<char>, Seq<char>)| e.1)
}

/// The distinct textures the given models use, in order: each model's
/// texture map values (models named with an optional `minecraft:`).
pub open spec fn models_textures(ms: Seq<(String, ModelTextures)>, block_models: Seq<Seq<char>>) -> Seq<Seq<char>>
    decreases block_models.len(),
{
    if block_models.len() == 0 {
        Seq::empty()
    } else {
        add_new(
            models_textures(ms, block_models.drop_last()),
            map_values_of(texture_map(ms, without(block_models.last(), "minecraft:"@))),
        )
    }
}

/// Append the texts of `add` that are non-empty and not in `list` yet.
fn push_new(list: &mut Vec<String>, add: &Vec<(String, String)>)
    ensures
        final(list)@.map_values(|s: String| s@) == add_new(
            old(list)@.map_values(|s: String| s@),
            map_values_of(text_pairs(add@)),
        ),
{
    let ghost start = list@.map_values(|s: String| s@);
    let ghost vals = map_values_of(text_pairs(add@));
    let mut i: usize = 0;
    assert(vals.take(0) =~= Seq::<Seq<char>>::empty());
    while i < add.len()
        invariant
            i <= add@.len(),
            vals == map_values_of(text_pairs(add@)),
            vals.len() == add@.len(),
            list@.map_values(|s: String| s@) == add_new(start, vals.take(i as int)),
        decreases add@.len() - i,
    {
        assert(vals.take(i + 1).drop_last() =~= vals.take(i as int));
        assert(vals.take(i + 1).last() == add@[i as int].1@);
        let ghost before = list@.map_values(|s: String| s@);
        let v = &add[i].1;
        if v.as_str().unicode_len() > 0 && !contains_text(list, v.as_str()) {
            list.push(v.clone());
            assert(list@.map_values(|s: String| s@) =~= before.push(v@));
        }
        i += 1;
    }
    assert(vals.take(add@.len() as int) =~= vals);
}

/// Every texture a block's models use, each once, in order: the texture
/// maps of the models of its variants and multipart cases, as listed.
pub fn all_textures(block_models: &[String], models: &[(String, ModelTextures)]) -> (r: Vec<String>)
    ensures
        r@.map_values(|s: String| s@) == models_textures(models@, block_models@.map_values(|s: String| s@)),
{
    let ghost bm = block_models@.map_values(|s: String| s@);
    let mut out: Vec<String> = Vec::new();
    let mut i: usize = 0;
    assert(bm.take(0) =~= Seq::<Seq<char>>::empty());
    assert(out@.map_values(|s: String| s@) =~= Seq::<Seq<char>>::empty());
    while i < block_models.len()
        invariant
            i <= block_models@.len(),
            bm == block_models@.map_values(|s: String| s@),
            out@.map_values(|s: String| s@) == models_textures(models@, bm.take(i as int)),
        decreases block_models@.len() - i,
    {
        assert(bm.take(i + 1).drop_last() =~= bm.take(i as int));
        assert(bm.take(i + 1).last() == block_models@[i as int]@);
        let map = resolved_texture_map(strip_or_keep(block_models[i].as_str(), "minecraft:"), models);
        push_new(&mut out, &map);
        i += 1;
    }
    assert(bm.take(block_models@.len() as int) =~= bm);
    out
}

/// `list` with the texts of `add` appended that are not in it yet, in order.
pub open spec fn add_distinct(list: Seq<Seq<char>>, add: Seq<Seq<char>>) -> Seq<Seq<char>>
    decreases add.len(),
{
    if add.len() == 0 {
        list
    } else {
        let before = add_distinct(list, add.drop_last());
        if before.contains(add.last()) {
            before
        } else {
            before.push(add.last())
        }
    }
}

/// The textures a block contributes to a face-aware atlas: every texture
/// its models use, then its six face textures.
pub open spec fn block_atlas_textures(e: (Vec<String>, FaceTextures)) -> Seq<Seq<char>> {
    e.0@.map_values(|s: String| s@) + seq![e.1@.top, e.1@.bottom, e.1@.south, e.1@.north, e.1@.east, e.1@.west]
}

/// The texture names of a face-aware atlas, each once, in first-seen order.
pub open spec fn atlas_texture_set(blocks: Seq<(Vec<String>, FaceTextures)>) -> Seq<Seq<char>>
    decreases blocks.len(),
{
    if blocks.len() == 0 {
        Seq::empty()
    } else {
        add_distinct(atlas_texture_set(blocks.drop_last()), block_atlas_textures(blocks.last()))
    }
}

/// Append the texts of `add` that are not in `list` yet.
fn push_distinct(list: &mut Vec<String>, items: &[&str])
    ensures
        final(list)@.map_values(|s: String| s@) == add_distinct(
            old(list)@.map_values(|s: String| s@),
            items@.map_values(|s: &str| s@),
        ),
{
    let ghost add = items@.map_values(|s: &str| s@);
    let ghost start = list@.map_values(|s: String| s@);
    let mut i: usize = 0;
    assert(add.take(0) =~= Seq::<Seq<char>>::empty());
    while i < items.len()
        invariant
            i <= items@.len(),
            items@.map_values(|s: &str| s@) == add,
            list@.map_values(|s: String| s@) == add_distinct(start, add.take(i as int)),
        decreases items@.len() - i,
    {
        assert(add.take(i + 1).drop_last() =~= add.take(i as int));
        assert(add.take(i + 1).last() == items@[i as int]@);
        let ghost before = list@.map_values(|s: String| s@);
        if !contains_text(list, items[i]) {
            list.push(items[i].to_string());
            assert(list@.map_values(|s: String| s@) =~= before.push(items@[i as int]@));
        }
        i += 1;
    }
    assert(add.take(items@.len() as int) =~= add);
}

/// The texture names a face-aware atlas needs, each once, in first-seen
/// order, from each block's model textures and six face textures.
pub fn face_texture_set(blocks: &[(Vec<String>, FaceTextures)]) -> (r: Vec<String>)
    ensures
        r@.map_values(|s: String| s@) == atlas_texture_set(blocks@),
{
    let mut out: Vec<String> = Vec::new();
    let mut b: usize = 0;
    assert(blocks@.take(0) =~= Seq::<(Vec<String>, FaceTextures)>::empty());
    assert(out@.map_values(|s: String| s@) =~= Seq::<Seq<char>>::empty());
    while b < blocks.len()
        invariant
            b <= blocks@.len(),
            out@.map_values(|s: String| s@) == atlas_texture_set(blocks@.take(b as int)),
        decreases blocks@.len() - b,
    {
        assert(blocks@.take(b + 1).drop_last() =~= blocks@.take(b as int));
        assert(blocks@.take(b + 1).last() == blocks@[b as int]);
        let (models_tex, faces) = (&blocks[b].0, &blocks[b].1);
        let mut items: Vec<&str> = Vec::new();
        let mut j: usize = 0;
        while j < models_tex.len()
            invariant
                j <= models_tex@.len(),
                items@.map_values(|s: &str| s@) == models_tex@.map_values(|s: String| s@).take(j as int),
            decreases models_tex@.len() - j,
        {
            let ghost before = items@.map_values(|s: &str| s@);
            items.push(models_tex[j].as_str());
            assert(items@.map_values(|s: &str| s@) =~= before.push(models_tex@[j as int]@));
            assert(models_tex@.map_values(|s: String| s@).take(j + 1) =~= models_tex@.map_values(|s: String| s@).take(j as int).push(models_tex@[j as int]@));
            j += 1;
        }
        assert(models_tex@.map_values(|s: String| s@).take(models_tex@.len() as int) =~= models_tex@.map_values(|s: String| s@));
        let ghost base = items@.map_values(|s: &str| s@);
        items.push(faces.top.as_str());
        items.push(faces.bottom.as_str());
        items.push(faces.south.as_str());
        items.push(faces.north.as_str());
        items.push(faces.east.as_str());
        items.push(faces.west.as_str());
        assert(items@.map_values(|s: &str| s@) =~= block_atlas_textures(blocks@[b as int]));
        push_distinct(&mut out, items.as_slice());
        b += 1;
    }
    assert(blocks@.take(blocks@.len() as int) =~= blocks@);
    out
}

/// A list with entries added keeps every value it had.
proof fn lemma_env_get_push(env: Seq<(Seq<char>, Seq<char>)>, e: (Seq<char>, Seq<char>), key: Seq<char>)
    ensures
        env_get(env, key) is Some ==> env_get(env.push(e), key) == env_get(env, key),
        env_get(env, key) is None ==> env_get(env.push(e), key) == (if e.0 == key {
            Some(e.1)
        } else {
            None::<Seq<char>>
        }),
{
    assert(env.push(e).drop_last() =~= env);
}

/// Merging keeps every value `env` had, and gives a variable it lacked its
/// first value in `ts`.
proof fn lemma_merged_get(env: Seq<(Seq<char>, Seq<char>)>, ts: Seq<(Seq<char>, Seq<char>)>, key: Seq<char>)
    ensures
        env_get(env, key) is Some ==> env_get(merged(env, ts), key) == env_get(env, key),
        env_get(env, key) is None ==> env_get(merged(env, ts), key) == env_get(ts, key),
    decreases ts.len(),
{
    if ts.len() > 0 {
        lemma_merged_get(env, ts.drop_last(), key);
        let e = merged(env, ts.drop_last());
        lemma_env_get_push(e, ts.last(), key);
        if env_get(e, ts.last().0) is None && ts.last().0 == key {
            if env_get(env, key) is None {
                assert(env_get(ts.drop_last(), key) is None);
            }
        }
    }
}

/// Walking further up the chain keeps every value already collected.
proof fn lemma_chain_keeps(
    ms: Seq<(String, ModelTextures)>,
    name: Seq<char>,
    seen: Seq<Seq<char>>,
    env: Seq<(Seq<char>, Seq<char>)>,
    key: Seq<char>,
)
    requires
        env_get(env, key) is Some,
    ensures
        env_get(chain_env(ms, name, seen, env), key) == env_get(env, key),
    decreases ms.len() + 1 - seen.len(),
{
    if !(seen.len() > ms.len() || seen.contains(name)) {
        if let Some(i) = first_position(model_names(ms), name) {
            let env2 = merged(env, text_pairs(ms[i].1.textures@));
            lemma_merged_get(env, text_pairs(ms[i].1.textures@), key);
            if let Some(p) = ms[i].1.parent {
                lemma_chain_keeps(ms, without(p@, "minecraft:"@), seen.push(name), env2, key);
            }
        }
    }
}

/// The nearest model wins: a texture variable a model defines itself keeps
/// its value, whatever its parents define.
pub proof fn law_nearest_model_wins(ms: Seq<(String, ModelTextures)>, model: Seq<char>, key: Seq<char>)
    requires
        first_position(model_names(ms), model) is Some,
        env_get(text_pairs(ms[first_position(model_names(ms), model).unwrap()].1.textures@), key) is Some,
    ensures
        env_get(chain_env(ms, model, Seq::empty(), Seq::empty()), key) == env_get(
            text_pairs(ms[first_position(model_names(ms), model).unwrap()].1.textures@),
            key,
        ),
{
    let i = first_position(model_names(ms), model).unwrap();
    let ts = text_pairs(ms[i].1.textures@);
    let empty = Seq::<(Seq<char>, Seq<char>)>::empty();
    lemma_merged_get(empty, ts, key);
    let env2 = merged(empty, ts);
    assert(!Seq::<Seq<char>>::empty().contains(model));
    if let Some(p) = ms[i].1.parent {
        lemma_chain_keeps(ms, without(p@, "minecraft:"@), Seq::<Seq<char>>::empty().push(model), env2, key);
    }
}

} // verus!
