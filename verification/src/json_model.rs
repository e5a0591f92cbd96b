//! Blockstate definitions from the game's JSON assets, and which of their
//! variants and multipart pieces a block state shows.
//!
//! A blockstate file either lists `variants` keyed by property tests such
//! as `facing=east,half=top`, or a `multipart` list of pieces applied when
//! their `when` conditions hold. Reading the JSON is the caller's part;
//! the types here hold what was read.

use vstd::prelude::*;
use crate::chunk::{lookup, lookup_or, BlockState};
use crate::text::{split_fields, split_str, str_eq};
use crate::json::{json_as_array, json_as_str, json_get, json_of, json_str, member, Json};

verus! {

/// One model a blockstate variant points at, with its rotation.
#[derive(Debug, Clone)]
pub struct BlockstateVariant {
    pub model: String,
    pub x: Option<i32>,
    pub y: Option<i32>,
    pub uvlock: Option<bool>,
}

/// The property tests of a multipart piece: each key (possibly several
/// keys joined by `|`) with the values (joined by `|`) it accepts.
#[derive(Debug, Clone)]
pub struct BlockstateMultipartCondition {
    pub properties: Vec<(String, String)>,
}

/// What a multipart piece applies: one variant, or a list of them.
#[derive(Debug, Clone)]
pub enum MultipartApply {
    Single(BlockstateVariant),
    Multiple(Vec<BlockstateVariant>),
}

/// One multipart piece: applied when its condition holds (always, when it
/// has none).
#[derive(Debug, Clone)]
pub struct BlockstateMultipart {
    pub when: Option<BlockstateMultipartCondition>,
    pub apply: MultipartApply,
}

/// Property values a Bedrock chunk leaves out only when they are off; a
/// variant asking for one of them does not match a state without the
/// property.
pub open spec fn non_default_value(v: Seq<char>) -> bool {
    ||| v == "true"@
    ||| v == "top"@
    ||| v == "upper"@
    ||| v == "hanging"@
    ||| v == "powered"@
}

/// How one `key=value` test of a variant key scores against a state's
/// properties: ten for a match, one for a property the state lacks and
/// whose asked value is a default-looking one, `None` when the test
/// fails. A test that is not of the form `key=value` scores nothing.
pub open spec fn test_score(test: Seq<char>, props: Seq<(Seq<char>, Seq<char>)>) -> Option<int> {
    let parts = split_fields(test, '=');
    if parts.len() != 2 {
        Some(0)
    } else {
        match lookup(props, parts[0]) {
            Some(v) => if v == parts[1] {
                Some(10)
            } else {
                None
            },
            None => if non_default_value(parts[1]) {
                None
            } else {
                Some(1)
            },
        }
    }
}

/// The tests of a variant key taken in order: whether all pass, and the
/// sum of the scores of those before the first that fails.
pub open spec fn tests_score(tests: Seq<Seq<char>>, props: Seq<(Seq<char>, Seq<char>)>) -> (bool, int)
    decreases tests.len(),
{
    if tests.len() == 0 {
        (true, 0)
    } else {
        let (ok, s) = tests_score(tests.drop_last(), props);
        if !ok {
            (false, s)
        } else {
            match test_score(tests.last(), props) {
                Some(x) => (true, s + x),
                None => (false, s),
            }
        }
    }
}

/// The score of a variant key against a state: `None` when one of its
/// tests fails. The empty key and `normal` match every state with score
/// zero.
pub open spec fn key_score(key: Seq<char>, props: Seq<(Seq<char>, Seq<char>)>) -> Option<int> {
    if key.len() == 0 || key == "normal"@ {
        Some(0)
    } else {
        let (ok, s) = tests_score(split_fields(key, ','), props);
        if ok {
            Some(s)
        } else {
            None
        }
    }
}

/// The running score of a variant key never leaves `i32`.
pub open spec fn key_score_fits(key: Seq<char>, props: Seq<(Seq<char>, Seq<char>)>) -> bool {
    tests_score(split_fields(key, ','), props).1 <= i32::MAX
}

/// The variant a state picks, as an index: the first of the best-scoring
/// matching keys, in the order given; with its score (`-1` for none).
pub open spec fn best_variant(keys: Seq<Seq<char>>, props: Seq<(Seq<char>, Seq<char>)>) -> (Option<int>, int)
    decreases keys.len(),
{
    if keys.len() == 0 {
        (None, -1)
    } else {
        let (b, bs) = best_variant(keys.drop_last(), props);
        match key_score(keys.last(), props) {
            Some(s) => if s > bs {
                (Some(keys.len() - 1), s)
            } else {
                (b, bs)
            },
            None => (b, bs),
        }
    }
}

/// One test of a multipart condition: some key of its `|`-list has, in
/// the state (with `false` for a missing property), one of the values of
/// its `|`-list.
pub open spec fn condition_test_holds(key: Seq<char>, values: Seq<char>, props: Seq<(Seq<char>, Seq<char>)>) -> bool {
    exists|i: int, j: int|
        0 <= i < split_fields(key, '|').len() && 0 <= j < split_fields(values, '|').len()
            && #[trigger] split_fields(values, '|')[j] == lookup_or(
            props,
            #[trigger] split_fields(key, '|')[i],
            "false"@,
        )
}

/// Every test of a multipart condition holds.
pub open spec fn tests_hold(tests: Seq<(Seq<char>, Seq<char>)>, props: Seq<(Seq<char>, Seq<char>)>) -> bool {
    forall|t: int| 0 <= t < tests.len() ==> condition_test_holds(#[trigger] tests[t].0, tests[t].1, props)
}

/// A multipart piece applies to a state.
pub open spec fn piece_applies(when: Option<Seq<(Seq<char>, Seq<char>)>>, props: Seq<(Seq<char>, Seq<char>)>) -> bool {
    match when {
        None => true,
        Some(tests) => tests_hold(tests, props),
    }
}

/// The tests of a condition as text pairs.
pub open spec fn condition_tests(c: BlockstateMultipartCondition) -> Seq<(Seq<char>, Seq<char>)> {
    c.properties@.map_values(|p: (String, String)| (p.0@, p.1@))
}

/// The `when` of a piece as text pairs.
pub open spec fn piece_when(p: BlockstateMultipart) -> Option<Seq<(Seq<char>, Seq<char>)>> {
    match p.when {
        Some(c) => Some(condition_tests(c)),
        None => None,
    }
}

/// The variants the applying pieces contribute, in order: a single
/// variant, or the first of a list.
pub open spec fn pieces_result(parts: Seq<BlockstateMultipart>, props: Seq<(Seq<char>, Seq<char>)>) -> Seq<BlockstateVariant>
    decreases parts.len(),
{
    if parts.len() == 0 {
        Seq::empty()
    } else {
        let before = pieces_result(parts.drop_last(), props);
        let p = parts.last();
        if piece_applies(piece_when(p), props) {
            match p.apply {
                MultipartApply::Single(v) => before.push(v),
                MultipartApply::Multiple(arr) => if arr@.len() > 0 {
                    before.push(arr@[0])
                } else {
                    before
                },
            }
        } else {
            before
        }
    }
}

/// The models a state shows: the best matching variant, when it could be
/// read, then the variants of the applying multipart pieces.
pub open spec fn spec_match_variants(
    variants: Seq<(Seq<char>, Option<BlockstateVariant>)>,
    parts: Seq<BlockstateMultipart>,
    props: Seq<(Seq<char>, Seq<char>)>,
) -> Seq<BlockstateVariant> {
    let first = match best_variant(variants.map_values(|v: (Seq<char>, Option<BlockstateVariant>)| v.0), props).0 {
        Some(i) => match variants[i].1 {
            Some(v) => seq![v],
            None => Seq::empty(),
        },
        None => Seq::empty(),
    };
    first + pieces_result(parts, props)
}

/// The variant keys with their variants as text.
pub open spec fn variant_view(vs: Seq<(String, Option<BlockstateVariant>)>) -> Seq<(Seq<char>, Option<BlockstateVariant>)> {
    vs.map_values(|v: (String, Option<BlockstateVariant>)| (v.0@, v.1))
}

/// A field-by-field copy of a variant.
fn copy_variant(v: &BlockstateVariant) -> (r: BlockstateVariant)
    ensures
        r == *v,
{
    BlockstateVariant { model: v.model.clone(), x: v.x, y: v.y, uvlock: v.uvlock }
}

fn default_looking_not(v: &str) -> (r: bool)
    ensures
        r == non_default_value(v@),
{
    str_eq(v, "true") || str_eq(v, "top") || str_eq(v, "upper") || str_eq(v, "hanging") || str_eq(
        v,
        "powered",
    )
}

/// Scores a variant key against a state: `None` when one of its tests
/// fails.
fn score_key(key: &str, state: &BlockState) -> (r: Option<i32>)
    requires
        key_score_fits(key@, state.props()),
    ensures
        match r {
            Some(s) => key_score(key@, state.props()) == Some(s as int),
            None => key_score(key@, state.props()) is None,
        },
{
    if key.unicode_len() == 0 || str_eq(key, "normal") {
        return Some(0);
    }
    let tests = split_str(key, ',');
    let ghost fs = split_fields(key@, ',');
    let ghost props = state.props();
    let mut score: i32 = 0;
    let mut k: usize = 0;
    while k < tests.len()
        invariant
            k <= tests@.len(),
            tests@.len() == fs.len(),
            forall|j: int| 0 <= j < tests@.len() ==> (#[trigger] tests@[j])@ == fs[j],
            tests_score(fs.take(k as int), props) == (true, score as int),
            tests_score(fs, props).1 <= i32::MAX,
            props == state.props(),
            fs == split_fields(key@, ','),
            key@.len() != 0,
            key@ != "normal"@,
        decreases tests@.len() - k,
    {
        proof {
            assert(fs.take(k + 1).drop_last() =~= fs.take(k as int));
            assert(fs.take(k + 1).last() == fs[k as int]);
            lemma_tests_score_prefix(fs, props, k + 1);
        }
        let parts = split_str(tests[k], '=');
        if parts.len() == 2 {
            match state.property(parts[0]) {
                Some(v) => {
                    if str_eq(v, parts[1]) {
                        score = score + 10;
                    } else {
                        proof {
                            assert(tests@[k as int]@ == fs[k as int]);
                            assert(test_score(fs[k as int], props) is None);
                            lemma_tests_score_fail(fs, props, k as int);
                            assert(key@.len() != 0 && key@ != "normal"@);
                            assert(key_score(key@, props) is None);
                        }
                        return None;
                    }
                },
                None => {
                    if default_looking_not(parts[1]) {
                        proof {
                            assert(tests@[k as int]@ == fs[k as int]);
                            assert(test_score(fs[k as int], props) is None);
                            lemma_tests_score_fail(fs, props, k as int);
                            assert(key@.len() != 0 && key@ != "normal"@);
                            assert(key_score(key@, props) is None);
                        }
                        return None;
                    }
                    score = score + 1;
                },
            }
        }
        k += 1;
    }
    assert(fs.take(k as int) =~= fs);
    Some(score)
}

proof fn lemma_tests_score_prefix(fs: Seq<Seq<char>>, props: Seq<(Seq<char>, Seq<char>)>, k: int)
    requires
        0 <= k <= fs.len(),
    ensures
        tests_score(fs.take(k), props).1 <= tests_score(fs, props).1,
        !tests_score(fs.take(k), props).0 ==> tests_score(fs, props) == tests_score(fs.take(k), props),
    decreases fs.len() - k,
{
    if k < fs.len() {
        lemma_tests_score_prefix(fs, props, k + 1);
        assert(fs.take(k + 1).drop_last() =~= fs.take(k));
        let (ok, s) = tests_score(fs.take(k), props);
        if ok {
            match test_score(fs[k], props) {
                Some(x) => {
                    assert(x >= 0);
                },
                None => {},
            }
        }
    } else {
        assert(fs.take(k) =~= fs);
    }
}

proof fn lemma_tests_score_fail(fs: Seq<Seq<char>>, props: Seq<(Seq<char>, Seq<char>)>, k: int)
    requires
        0 <= k < fs.len(),
        tests_score(fs.take(k), props).0,
        test_score(fs[k], props) is None,
    ensures
        !tests_score(fs, props).0,
{
    assert(fs.take(k + 1).drop_last() =~= fs.take(k));
    lemma_tests_score_prefix(fs, props, k + 1);
}

/// Does the state pass one test of a multipart condition?
fn condition_test(key: &str, values: &str, state: &BlockState) -> (r: bool)
    ensures
        r == condition_test_holds(key@, values@, state.props()),
{
    let keys = split_str(key, '|');
    let opts = split_str(values, '|');
    let ghost ks = split_fields(key@, '|');
    let ghost os = split_fields(values@, '|');
    let mut i: usize = 0;
    while i < keys.len()
        invariant
            i <= keys@.len(),
            keys@.len() == ks.len(),
            opts@.len() == os.len(),
            forall|a: int| 0 <= a < keys@.len() ==> (#[trigger] keys@[a])@ == ks[a],
            forall|b: int| 0 <= b < opts@.len() ==> (#[trigger] opts@[b])@ == os[b],
            forall|a: int, b: int|
                0 <= a < i && 0 <= b < os.len() ==> #[trigger] os[b] != lookup_or(state.props(), #[trigger] ks[a], "false"@),
            ks == split_fields(key@, '|'),
            os == split_fields(values@, '|'),
        decreases keys@.len() - i,
    {
        let sv: &str = match state.property(keys[i]) {
            Some(v) => v,
            None => "false",
        };
        proof {
            reveal_strlit("false");
        }
        let mut j: usize = 0;
        while j < opts.len()
            invariant
                j <= opts@.len(),
                opts@.len() == os.len(),
                forall|b: int| 0 <= b < opts@.len() ==> (#[trigger] opts@[b])@ == os[b],
                sv@ == lookup_or(state.props(), ks[i as int], "false"@),
                forall|b: int| 0 <= b < j ==> os[b] != sv@,
                i < ks.len(),
                ks == split_fields(key@, '|'),
                os == split_fields(values@, '|'),
            decreases opts@.len() - j,
        {
            if str_eq(opts[j], sv) {
                proof {
                    assert(split_fields(values@, '|')[j as int] == lookup_or(
                        state.props(),
                        split_fields(key@, '|')[i as int],
                        "false"@,
                    ));
                }
                return true;
            }
            j += 1;
        }
        i += 1;
    }
    false
}

/// Does a multipart piece apply to the state?
fn piece_matches(part: &BlockstateMultipart, state: &BlockState) -> (r: bool)
    ensures
        r == piece_applies(piece_when(*part), state.props()),
{
    match &part.when {
        None => true,
        Some(cond) => {
            let ghost tests = condition_tests(*cond);
            let mut t: usize = 0;
            while t < cond.properties.len()
                invariant
                    t <= cond.properties@.len(),
                    tests == condition_tests(*cond),
                    part.when == Some(*cond),
                    forall|u: int| 0 <= u < t ==> condition_test_holds(#[trigger] tests[u].0, tests[u].1, state.props()),
                decreases cond.properties@.len() - t,
            {
                if !condition_test(cond.properties[t].0.as_str(), cond.properties[t].1.as_str(), state) {
                    proof {
                        assert(tests[t as int] == (cond.properties@[t as int].0@, cond.properties@[t as int].1@));
                        assert(!condition_test_holds(tests[t as int].0, tests[t as int].1, state.props()));
                        assert(piece_when(*part) == Some(tests));
                        assert(0 <= t < tests.len());
                        assert(!tests_hold(tests, state.props()));
                    }
                    return false;
                }
                t += 1;
            }
            true
        },
    }
}

/// The models a block state shows, from its blockstate definition: the
/// variant whose key matches the state best — the first of the best, in
/// the order the variants are given — when it could be read, then the
/// variant of every multipart piece whose condition holds (a piece listing
/// several takes the first).
///
/// A variant key is a `,`-list of `key=value` tests. A test the state
/// passes scores ten. A property the state lacks scores one, unless the
/// test asks for a value a Bedrock chunk only leaves out when it is off
/// (`true`, `top`, `upper`, `hanging`, `powered`): then the variant does
/// not match, so the default variant is picked. The empty key and
/// `normal` match any state.
pub fn match_variants(
    variants: &[(String, Option<BlockstateVariant>)],
    multipart: &[BlockstateMultipart],
    state: &BlockState,
) -> (r: Vec<BlockstateVariant>)
    requires
        forall|i: int| 0 <= i < variants@.len() ==> key_score_fits((#[trigger] variants@[i]).0@, state.props()),
    ensures
        r@ == spec_match_variants(variant_view(variants@), multipart@, state.props()),
{
    let ghost keys = variant_view(variants@).map_values(|v: (Seq<char>, Option<BlockstateVariant>)| v.0);
    let mut best: Option<usize> = None;
    let mut best_score: i32 = -1;
    let mut k: usize = 0;
    while k < variants.len()
        invariant
            k <= variants@.len(),
            keys == variant_view(variants@).map_values(|v: (Seq<char>, Option<BlockstateVariant>)| v.0),
            forall|i: int| 0 <= i < variants@.len() ==> key_score_fits((#[trigger] variants@[i]).0@, state.props()),
            best_variant(keys.take(k as int), state.props()) == (
                match best {
                    Some(i) => Some(i as int),
                    None => None::<int>,
                },
                best_score as int,
            ),
            best matches Some(i) ==> i < k,
        decreases variants@.len() - k,
    {
        proof {
            assert(keys.take(k + 1).drop_last() =~= keys.take(k as int));
            assert(keys.take(k + 1).last() == variants@[k as int].0@);
            assert(keys.take(k + 1).len() - 1 == k);
        }
        match score_key(variants[k].0.as_str(), state) {
            Some(s) => {
                if s > best_score {
                    best_score = s;
                    best = Some(k);
                }
            },
            None => {},
        }
        k += 1;
    }
    assert(keys.take(k as int) =~= keys);
    let mut out: Vec<BlockstateVariant> = Vec::new();
    match best {
        Some(i) => {
            match &variants[i].1 {
                Some(v) => {
                    out.push(copy_variant(v));
                },
                None => {},
            }
        },
        None => {},
    }
    let ghost first = out@;
    let mut p: usize = 0;
    while p < multipart.len()
        invariant
            p <= multipart@.len(),
            out@ == first + pieces_result(multipart@.take(p as int), state.props()),
        decreases multipart@.len() - p,
    {
        proof {
            assert(multipart@.take(p + 1).drop_last() =~= multipart@.take(p as int));
            assert(multipart@.take(p + 1).last() == multipart@[p as int]);
        }
        if piece_matches(&multipart[p], state) {
            match &multipart[p].apply {
                MultipartApply::Single(v) => {
                    out.push(copy_variant(v));
                },
                MultipartApply::Multiple(arr) => {
                    if arr.len() > 0 {
                        out.push(copy_variant(&arr[0]));
                    }
                },
            }
        }
        proof {
            assert(out@ =~= first + pieces_result(multipart@.take(p + 1), state.props()));
        }
        p += 1;
    }
    assert(multipart@.take(p as int) =~= multipart@);
    out
}


proof fn lemma_tests_score_nonneg(tests: Seq<Seq<char>>, props: Seq<(Seq<char>, Seq<char>)>)
    ensures
        tests_score(tests, props).1 >= 0,
    decreases tests.len(),
{
    if tests.len() > 0 {
        lemma_tests_score_nonneg(tests.drop_last(), props);
    }
}

/// The variant a state picks is one whose key matches, scoring at least
/// as high as every matching key and strictly higher than every matching
/// key before it; no variant is picked exactly when no key matches.
pub proof fn law_picked_variant_scores_highest(keys: Seq<Seq<char>>, props: Seq<(Seq<char>, Seq<char>)>)
    ensures
        match best_variant(keys, props) {
            (Some(i), s) => {
                &&& 0 <= i < keys.len()
                &&& key_score(keys[i], props) == Some(s)
                &&& forall|j: int| 0 <= j < keys.len() ==> (#[trigger] key_score(keys[j], props) matches Some(t) ==> t <= s)
                &&& forall|j: int| 0 <= j < i ==> (#[trigger] key_score(keys[j], props) matches Some(t) ==> t < s)
            },
            (None, s) => s == -1 && forall|j: int| 0 <= j < keys.len() ==> (#[trigger] key_score(keys[j], props)) is None,
        },
    decreases keys.len(),
{
    if keys.len() > 0 {
        let d = keys.drop_last();
        law_picked_variant_scores_highest(d, props);
        assert forall|j: int| 0 <= j < d.len() implies key_score(#[trigger] d[j], props) == key_score(keys[j], props) by {
            assert(d[j] == keys[j]);
        }
        let last = keys.last();
        if last.len() == 0 || last == "normal"@ {
        } else {
            lemma_tests_score_nonneg(split_fields(last, ','), props);
        }
        let n = keys.len() - 1;
        assert(keys[n] == last);
        let (b, bs) = best_variant(d, props);
        match key_score(last, props) {
            Some(sc) => {
                assert(sc >= 0);
                if sc > bs {
                    assert forall|j: int| 0 <= j < keys.len() implies (#[trigger] key_score(keys[j], props) matches Some(t) ==> t <= sc) by {
                        if j < n {
                            assert(key_score(d[j], props) == key_score(keys[j], props));
                        }
                    }
                    assert forall|j: int| 0 <= j < n implies (#[trigger] key_score(keys[j], props) matches Some(t) ==> t < sc) by {
                        assert(key_score(d[j], props) == key_score(keys[j], props));
                    }
                } else {
                    match b {
                        Some(i) => {
                            assert(key_score(keys[i], props) == key_score(d[i], props));
                            assert forall|j: int| 0 <= j < keys.len() implies (#[trigger] key_score(keys[j], props) matches Some(t) ==> t <= bs) by {
                                if j < n {
                                    assert(key_score(d[j], props) == key_score(keys[j], props));
                                }
                            }
                            assert forall|j: int| 0 <= j < i implies (#[trigger] key_score(keys[j], props) matches Some(t) ==> t < bs) by {
                                assert(key_score(d[j], props) == key_score(keys[j], props));
                            }
                        },
                        None => {},
                    }
                }
            },
            None => {
                match b {
                    Some(i) => {
                        assert(key_score(keys[i], props) == key_score(d[i], props));
                        assert forall|j: int| 0 <= j < keys.len() implies (#[trigger] key_score(keys[j], props) matches Some(t) ==> t <= bs) by {
                            if j < n {
                                assert(key_score(d[j], props) == key_score(keys[j], props));
                            }
                        }
                        assert forall|j: int| 0 <= j < i implies (#[trigger] key_score(keys[j], props) matches Some(t) ==> t < bs) by {
                            assert(key_score(d[j], props) == key_score(keys[j], props));
                        }
                    },
                    None => {
                        assert forall|j: int| 0 <= j < keys.len() implies (#[trigger] key_score(keys[j], props)) is None by {
                            if j < n {
                                assert(key_score(d[j], props) == key_score(keys[j], props));
                            }
                        }
                    },
                }
            },
        }
    }
}

} // verus!

verus! {

/// The model a blockstate variant names, as serde reads a `{"model": ..}`
/// variant: an object with a `model` text, or the one-element list form of
/// the same record; `None` otherwise.
pub open spec fn variant_model(j: Json) -> Option<Seq<char>> {
    match j {
        Json::Object(_) => match member(j, "model"@) {
            Some(m) => json_str(m),
            None => None,
        },
        Json::Array(items) => if items.len() == 1 {
            json_str(items[0])
        } else {
            None
        },
        _ => None,
    }
}

/// The model of a blockstate variant value: the first entry of a list of
/// weighted variants, else the variant itself.
pub open spec fn spec_first_model(j: Json) -> Option<Seq<char>> {
    match j {
        Json::Array(items) => if items.len() == 0 {
            None
        } else {
            variant_model(items[0])
        },
        _ => variant_model(j),
    }
}

/// The model a variant record names.
fn variant_model_of(v: &serde_json::Value) -> (r: Option<String>)
    ensures
        match r {
            Some(m) => variant_model(json_of(v)) == Some(m@),
            None => variant_model(json_of(v)) is None,
        },
{
    if let Some(items) = json_as_array(v) {
        if items.len() == 1 {
            assert(json_of(&items[0]) == items@.map_values(|e: serde_json::Value| json_of(&e))[0]);
            return match json_as_str(&items[0]) {
                Some(t) => Some(t.to_string()),
                None => None,
            };
        }
        return None;
    }
    if !crate::json::json_is_object(v) {
        return None;
    }
    match json_get(v, "model") {
        Some(m) => match json_as_str(m) {
            Some(t) => Some(t.to_string()),
            None => None,
        },
        None => None,
    }
}

/// The model of a blockstate variant value (`"variants"` entries and
/// multipart `"apply"` values): the first of a list of weighted variants,
/// else the variant itself; `None` when it names no model.
pub fn first_model(value: &serde_json::Value) -> (r: Option<String>)
    ensures
        match r {
            Some(m) => spec_first_model(json_of(value)) == Some(m@),
            None => spec_first_model(json_of(value)) is None,
        },
{
    match json_as_array(value) {
        Some(items) => {
            if items.len() == 0 {
                None
            } else {
                assert(json_of(&items[0]) == items@.map_values(|e: serde_json::Value| json_of(&e))[0]);
                variant_model_of(&items[0])
            }
        },
        None => variant_model_of(value),
    }
}

} // verus!
