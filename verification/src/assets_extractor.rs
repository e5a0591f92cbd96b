//! Vanilla blockstate and model JSON files, picked out of the entries of the
//! Minecraft client JAR by their paths.

use vstd::prelude::*;
use crate::text::{has_prefix, has_suffix, str_eq, strip_prefix, strip_suffix};

verus! {

/// Folder of the blockstate files inside the JAR.
pub const BLOCKSTATES_PREFIX: &'static str = "assets/minecraft/blockstates/";

/// Folder of the model files inside the JAR.
pub const MODELS_PREFIX: &'static str = "assets/minecraft/models/";

/// Which kind of asset a JAR entry holds.
#[derive(Debug, Clone, Copy, PartialEq, Eq, Structural)]
pub enum AssetKind {
    Blockstate,
    Model,
}

/// The asset a JAR entry holds: a `.json` file under the blockstates or the
/// models folder, named by its path below that folder without `.json`
/// (`"assets/minecraft/models/block/stone.json"` is the model
/// `"block/stone"`).
pub open spec fn spec_asset_entry(name: Seq<char>) -> Option<(AssetKind, Seq<char>)> {
    let bs = "assets/minecraft/blockstates/"@;
    let ms = "assets/minecraft/models/"@;
    if !has_suffix(name, ".json"@) {
        None
    } else if has_prefix(name, bs) && name.len() >= bs.len() + 5 {
        Some((AssetKind::Blockstate, name.subrange(bs.len() as int, name.len() - 5)))
    } else if has_prefix(name, ms) && name.len() >= ms.len() + 5 {
        Some((AssetKind::Model, name.subrange(ms.len() as int, name.len() - 5)))
    } else {
        None
    }
}

/// The stem between a folder prefix and the `.json` ending, when `name`
/// has both.
fn json_stem<'a>(name: &'a str, prefix: &str) -> (r: Option<&'a str>)
    requires
        has_suffix(name@, ".json"@),
    ensures
        match r {
            Some(s) => has_prefix(name@, prefix@) && name@.len() >= prefix@.len() + 5 && s@
                == name@.subrange(prefix@.len() as int, name@.len() - 5),
            None => !(has_prefix(name@, prefix@) && name@.len() >= prefix@.len() + 5),
        },
{
    proof {
        reveal_strlit(".json");
    }
    match strip_prefix(name, prefix) {
        None => None,
        Some(rest) => match strip_suffix(rest, ".json") {
            None => {
                proof {
                    let k = prefix@.len() as int;
                    let n = name@.len() as int;
                    if n >= k + 5 {
                        assert(rest@ == name@.subrange(k, n));
                        assert(rest@.subrange(rest@.len() - 5, rest@.len() as int) =~= name@.subrange(
                            n - 5,
                            n,
                        ));
                    }
                }
                None
            },
            Some(stem) => {
                proof {
                    let k = prefix@.len() as int;
                    let n = name@.len() as int;
                    assert(stem@ =~= name@.subrange(k, n - 5));
                }
                Some(stem)
            },
        },
    }
}

/// The kind and name of the asset a JAR entry holds, if any.
pub fn asset_entry(name: &str) -> (r: Option<(AssetKind, &str)>)
    ensures
        match r {
            Some((k, s)) => spec_asset_entry(name@) == Some((k, s@)),
            None => spec_asset_entry(name@) is None,
        },
{
    proof {
        reveal_strlit(".json");
    }
    if strip_suffix(name, ".json").is_none() {
        return None;
    }
    if let Some(stem) = json_stem(name, BLOCKSTATES_PREFIX) {
        return Some((AssetKind::Blockstate, stem));
    }
    if let Some(stem) = json_stem(name, MODELS_PREFIX) {
        return Some((AssetKind::Model, stem));
    }
    None
}

/// The assets of one kind among `(entry name, text)` pairs, in entry order,
/// each named as `spec_asset_entry` names it.
pub open spec fn assets_of(entries: Seq<(Seq<char>, Seq<char>)>, kind: AssetKind) -> Seq<
    (Seq<char>, Seq<char>),
>
    decreases entries.len(),
{
    if entries.len() == 0 {
        Seq::empty()
    } else {
        let before = assets_of(entries.drop_last(), kind);
        match spec_asset_entry(entries.last().0) {
            Some((k, n)) => if k == kind {
                before.push((n, entries.last().1))
            } else {
                before
            },
            None => before,
        }
    }
}

/// The text stored under `name`, the last entry of that name winning.
pub open spec fn lookup_text(s: Seq<(Seq<char>, Seq<char>)>, name: Seq<char>) -> Option<Seq<char>>
    decreases s.len(),
{
    if s.len() == 0 {
        None
    } else if s.last().0 == name {
        Some(s.last().1)
    } else {
        lookup_text(s.drop_last(), name)
    }
}

/// The texts of a list of string pairs.
pub open spec fn pair_texts(v: Seq<(String, String)>) -> Seq<(Seq<char>, Seq<char>)> {
    v.map_values(|e: (String, String)| (e.0@, e.1@))
}

/// The raw JSON of the blockstates and models extracted from the JAR.
pub struct VanillaAssets {
    /// e.g. `"grass_block"` → `"{ ... }"`, in JAR order.
    pub blockstates: Vec<(String, String)>,
    /// e.g. `"block/grass_block"` → `"{ ... }"`, in JAR order.
    pub models: Vec<(String, String)>,
    pub version: String,
}

/// The text stored under `name` in a list of pairs, searching from the end.
fn find_text<'a>(v: &'a Vec<(String, String)>, name: &str) -> (r: Option<&'a str>)
    ensures
        match r {
            Some(t) => lookup_text(pair_texts(v@), name@) == Some(t@),
            None => lookup_text(pair_texts(v@), name@) is None,
        },
{
    let mut i = v.len();
    assert(pair_texts(v@).take(i as int) =~= pair_texts(v@));
    while i > 0
        invariant
            i <= v@.len(),
            lookup_text(pair_texts(v@), name@) == lookup_text(pair_texts(v@).take(i as int), name@),
        decreases i,
    {
        let ghost p = pair_texts(v@).take(i as int);
        assert(p.drop_last() =~= pair_texts(v@).take(i - 1));
        assert(p.last() == (v@[i - 1].0@, v@[i - 1].1@));
        if str_eq(v[i - 1].0.as_str(), name) {
            return Some(v[i - 1].1.as_str());
        }
        i -= 1;
    }
    None
}

impl VanillaAssets {
    /// Sort `(entry name, text)` pairs read from a JAR into blockstates and
    /// models; an error naming `jar_label` when either kind is missing.
    pub fn from_entries(entries: Vec<(String, String)>, version: String, jar_label: &str) -> (r: Result<
        Self,
        String,
    >)
        ensures
            match r {
                Ok(a) => {
                    &&& pair_texts(a.blockstates@) == assets_of(pair_texts(entries@), AssetKind::Blockstate)
                    &&& pair_texts(a.models@) == assets_of(pair_texts(entries@), AssetKind::Model)
                    &&& a.blockstates@.len() > 0
                    &&& a.models@.len() > 0
                    &&& a.version@ == version@
                },
                Err(m) => {
                    &&& (assets_of(pair_texts(entries@), AssetKind::Blockstate).len() == 0 || assets_of(
                        pair_texts(entries@),
                        AssetKind::Model,
                    ).len() == 0)
                    &&& m@ == "No blockstates or models found in JAR "@ + jar_label@
                },
            },
    {
        let ghost all = pair_texts(entries@);
        let mut blockstates: Vec<(String, String)> = Vec::new();
        let mut models: Vec<(String, String)> = Vec::new();
        let mut i: usize = 0;
        assert(all.take(0) =~= Seq::<(Seq<char>, Seq<char>)>::empty());
        assert(pair_texts(blockstates@) =~= Seq::<(Seq<char>, Seq<char>)>::empty());
        assert(pair_texts(models@) =~= Seq::<(Seq<char>, Seq<char>)>::empty());
        while i < entries.len()
            invariant
                i <= entries@.len(),
                all == pair_texts(entries@),
                pair_texts(blockstates@) == assets_of(all.take(i as int), AssetKind::Blockstate),
                pair_texts(models@) == assets_of(all.take(i as int), AssetKind::Model),
            decreases entries@.len() - i,
        {
            let ghost bs0 = pair_texts(blockstates@);
            let ghost ms0 = pair_texts(models@);
            assert(all.take(i + 1).drop_last() =~= all.take(i as int));
            assert(all.take(i + 1).last() == all[i as int]);
            let (name, text) = (&entries[i].0, &entries[i].1);
            match asset_entry(name.as_str()) {
                Some((AssetKind::Blockstate, stem)) => {
                    blockstates.push((stem.to_string(), text.clone()));
                    assert(pair_texts(blockstates@) =~= bs0.push((stem@, text@)));
                },
                Some((AssetKind::Model, stem)) => {
                    models.push((stem.to_string(), text.clone()));
                    assert(pair_texts(models@) =~= ms0.push((stem@, text@)));
                },
                None => {},
            }
            i += 1;
        }
        assert(all.take(entries@.len() as int) =~= all);
        if blockstates.len() == 0 || models.len() == 0 {
            let mut m = String::from_str("No blockstates or models found in JAR ");
            m.append(jar_label);
            proof {
                reveal_strlit("No blockstates or models found in JAR ");
            }
            return Err(m);
        }
        Ok(VanillaAssets { blockstates, models, version })
    }

    /// The blockstate JSON of a block (`"grass_block"`).
    pub fn blockstate(&self, name: &str) -> (r: Option<&str>)
        ensures
            match r {
                Some(t) => lookup_text(pair_texts(self.blockstates@), name@) == Some(t@),
                None => lookup_text(pair_texts(self.blockstates@), name@) is None,
            },
    {
        find_text(&self.blockstates, name)
    }

    /// The JSON of a model (`"block/grass_block"`).
    pub fn model(&self, name: &str) -> (r: Option<&str>)
        ensures
            match r {
                Some(t) => lookup_text(pair_texts(self.models@), name@) == Some(t@),
                None => lookup_text(pair_texts(self.models@), name@) is None,
            },
    {
        find_text(&self.models, name)
    }
}

} // verus!

verus! {

/// The blockstate and model entries among the first `k` entries of an
/// archive, in entry order, as `(entry name, JSON text)`; an asset entry
/// whose text cannot be read as UTF-8 is left out. `None` when one of
/// those entries cannot be opened.
pub open spec fn jar_assets_upto(bytes: Seq<u8>, k: nat) -> Option<Seq<(Seq<char>, Seq<char>)>>
    decreases k,
{
    if k == 0 {
        Some(Seq::empty())
    } else {
        match jar_assets_upto(bytes, (k - 1) as nat) {
            None => None,
            Some(prev) => match crate::archive::zip_entry_name(bytes, (k - 1) as nat) {
                None => None,
                Some(n) => if spec_asset_entry(n) is None {
                    Some(prev)
                } else {
                    match crate::archive::zip_entry_text(bytes, (k - 1) as nat) {
                        None => Some(prev),
                        Some(t) => Some(prev.push((n, t))),
                    }
                },
            },
        }
    }
}

/// The blockstate and model entries of a whole archive; `None` when it is
/// not an archive or one of its entries cannot be opened.
pub open spec fn jar_assets_of(bytes: Seq<u8>) -> Option<Seq<(Seq<char>, Seq<char>)>> {
    match crate::archive::zip_count(bytes) {
        None => None,
        Some(n) => jar_assets_upto(bytes, n),
    }
}

proof fn lemma_assets_fail_on(bytes: Seq<u8>, k: nat, n: nat)
    requires
        k <= n,
        jar_assets_upto(bytes, k) is None,
    ensures
        jar_assets_upto(bytes, n) is None,
    decreases n - k,
{
    if k < n {
        lemma_assets_fail_on(bytes, k + 1, n);
        assert(jar_assets_upto(bytes, (k + 1) as nat) is None);
    }
}

impl VanillaAssets {
    /// Read every blockstate and model JSON file of a client JAR from its
    /// bytes. Fails when the bytes are not a ZIP archive, an entry cannot be
    /// opened, or the archive holds no blockstate or no model.
    pub fn extract_bytes(bytes: &[u8], version: String, jar_label: &str) -> (r: Result<VanillaAssets, String>)
        ensures
            match jar_assets_of(bytes@) {
                None => r is Err,
                Some(es) => match r {
                    Ok(a) => {
                        &&& pair_texts(a.blockstates@) == assets_of(es, AssetKind::Blockstate)
                        &&& pair_texts(a.models@) == assets_of(es, AssetKind::Model)
                        &&& a.blockstates@.len() > 0
                        &&& a.models@.len() > 0
                        &&& a.version@ == version@
                    },
                    Err(_) => assets_of(es, AssetKind::Blockstate).len() == 0 || assets_of(es, AssetKind::Model).len() == 0,
                },
            },
    {
        let mut archive = match crate::archive::open_archive(bytes) {
            Some(a) => a,
            None => return Err(String::from_str("Cannot read JAR as ZIP")),
        };
        let ghost src = bytes@;
        let n = crate::archive::archive_len(&archive);
        let mut entries: Vec<(String, String)> = Vec::new();
        let mut i: usize = 0;
        while i < n
            invariant
                i <= n,
                src == bytes@,
                crate::archive::archive_source(archive) == src,
                crate::archive::zip_count(src) == Some(n as nat),
                jar_assets_upto(src, i as nat) == Some(pair_texts(entries@)),
            decreases n - i,
        {
            let ghost before = pair_texts(entries@);
            let name = match crate::archive::entry_name(&mut archive, i) {
                Some(s) => s,
                None => {
                    proof {
                        assert(jar_assets_upto(src, (i + 1) as nat) is None);
                        lemma_assets_fail_on(src, (i + 1) as nat, n as nat);
                    }
                    return Err(String::from_str("Cannot read JAR entry"));
                },
            };
            if asset_entry(name.as_str()).is_some() {
                if let Some(text) = crate::archive::entry_text(&mut archive, i) {
                    entries.push((name, text));
                    assert(pair_texts(entries@) =~= before.push((name@, text@)));
                }
            }
            i += 1;
        }
        VanillaAssets::from_entries(entries, version, jar_label)
    }
}

} // verus!
