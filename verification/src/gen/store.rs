//! Storage side of the derive: which fields are stored, their storage keys
//! (FNV-1a of the field name) and `ConfigKey` variants, the key collision
//! checks, and where a loaded field's value comes from.
use vstd::prelude::*;
use vstd::utf8::encode_utf8;
use crate::config::{FORMAT_VERSION_KEY, MAGIC_KEY};
use crate::gen::attrs::{find_key, find_last_key_lit, has_key, last_key_lit, or_keep, copy_opt, FieldInput, MetaItem};
use crate::gen::form::opt_view;
use crate::hash::{fnv1a_hash, fnv1a_spec};
use crate::text::{cased_spec, to_pascal_case};

verus! {

/// One stored field.
pub struct StoreField {
    /// The field's name.
    pub name: String,
    /// `default = "…"`: parsed when nothing is stored.
    pub default: Option<String>,
    /// `env_default = "VAR"`: the build-time variable parsed when nothing is stored.
    pub env_default: Option<String>,
    /// `bump = "field"`: the field incremented (wrapping) whenever this one is set.
    pub bump: Option<String>,
}

/// One `ConfigKey` variant and its storage key.
pub struct KeyEntry {
    /// The variant name.
    pub variant: String,
    /// The storage key: FNV-1a of the key name.
    pub hash: u64,
}

/// The storage key of a key name: FNV-1a of its UTF-8 bytes.
pub open spec fn key_hash_spec(name: Seq<char>) -> u64 {
    fnv1a_spec(encode_utf8(name))
}

/// Whether a field is stored: it has no `skip` in `#[config_store]`.
pub open spec fn stored(src: FieldInput) -> bool {
    !has_key(src.store_metas@, "skip"@)
}

/// The stored fields, in order.
pub open spec fn store_inputs(fields: Seq<FieldInput>) -> Seq<FieldInput>
    decreases fields.len(),
{
    if fields.len() == 0 {
        Seq::empty()
    } else if stored(fields.last()) {
        store_inputs(fields.drop_last()).push(fields.last())
    } else {
        store_inputs(fields.drop_last())
    }
}

/// The stored field read from a field's `#[config_store(...)]` items (each
/// option takes the last item's string literal, or `None`).
pub open spec fn store_field_matches(s: StoreField, src: FieldInput) -> bool {
    let m = src.store_metas@;
    &&& s.name@ == src.name@
    &&& opt_view(s.default) == or_keep(last_key_lit(m, "default"@), None)
    &&& opt_view(s.env_default) == or_keep(last_key_lit(m, "env_default"@), None)
    &&& opt_view(s.bump) == or_keep(last_key_lit(m, "bump"@), None)
}

fn key_lit(metas: &Vec<MetaItem>, k: &str) -> (r: Option<String>)
    ensures
        opt_view(r) == or_keep(last_key_lit(metas@, k@), None),
{
    match find_last_key_lit(metas, k) {
        Some(v) => copy_opt(v),
        None => None,
    }
}

/// The stored fields of a struct, in declaration order.
pub fn parse_store_fields(fields: &Vec<FieldInput>) -> (r: Vec<StoreField>)
    ensures
        r.len() == store_inputs(fields@).len(),
        forall|k: int| 0 <= k < r.len() ==> store_field_matches(#[trigger] r@[k], store_inputs(fields@)[k]),
{
    let mut out: Vec<StoreField> = Vec::new();
    let mut i: usize = 0;
    while i < fields.len()
        invariant
            i <= fields.len(),
            out.len() == store_inputs(fields@.take(i as int)).len(),
            forall|k: int|
                0 <= k < out.len() ==> store_field_matches(
                    #[trigger] out@[k],
                    store_inputs(fields@.take(i as int))[k],
                ),
        decreases fields.len() - i,
    {
        proof {
            assert(fields@.take(i + 1).drop_last() =~= fields@.take(i as int));
            assert(fields@.take(i + 1).last() == fields@[i as int]);
        }
        let src = &fields[i];
        let m = &src.store_metas;
        if !find_key(m, "skip") {
            let f = StoreField {
                name: src.name.clone(),
                default: key_lit(m, "default"),
                env_default: key_lit(m, "env_default"),
                bump: key_lit(m, "bump"),
            };
            out.push(f);
        }
        i = i + 1;
    }
    proof {
        assert(fields@.take(fields.len() as int) =~= fields@);
    }
    out
}

/// The `ConfigKey` variants: `Magic` and `FormatVersion` on the reserved key
/// names, then one per stored field, named by its PascalCase name and keyed
/// by its name.
pub open spec fn key_entries_spec(r: Seq<KeyEntry>, stored: Seq<StoreField>) -> bool {
    &&& r.len() == stored.len() + 2
    &&& r[0].variant@ == "Magic"@
    &&& r[0].hash == key_hash_spec(MAGIC_KEY@)
    &&& r[1].variant@ == "FormatVersion"@
    &&& r[1].hash == key_hash_spec(FORMAT_VERSION_KEY@)
    &&& forall|k: int|
        0 <= k < stored.len() ==> (#[trigger] r[k + 2]).variant@ == cased_spec(stored[k].name@, Seq::empty())
            && r[k + 2].hash == key_hash_spec(stored[k].name@)
}

/// The `ConfigKey` variants of the stored fields.
pub fn key_entries(stored: &Vec<StoreField>) -> (r: Vec<KeyEntry>)
    ensures
        key_entries_spec(r@, stored@),
{
    let mut out: Vec<KeyEntry> = Vec::new();
    out.push(KeyEntry { variant: "Magic".to_owned(), hash: fnv1a_hash(MAGIC_KEY) });
    out.push(KeyEntry { variant: "FormatVersion".to_owned(), hash: fnv1a_hash(FORMAT_VERSION_KEY) });
    let mut i: usize = 0;
    while i < stored.len()
        invariant
            i <= stored.len(),
            out.len() == i + 2,
            out@[0].variant@ == "Magic"@,
            out@[0].hash == key_hash_spec(MAGIC_KEY@),
            out@[1].variant@ == "FormatVersion"@,
            out@[1].hash == key_hash_spec(FORMAT_VERSION_KEY@),
            forall|k: int|
                0 <= k < i ==> (#[trigger] out@[k + 2]).variant@ == cased_spec(stored@[k].name@, Seq::empty())
                    && out@[k + 2].hash == key_hash_spec(stored@[k].name@),
        decreases stored.len() - i,
    {
        let name = stored[i].name.as_str();
        let e = KeyEntry { variant: to_pascal_case(name), hash: fnv1a_hash(name) };
        out.push(e);
        i = i + 1;
    }
    out
}

/// The hashes of the key entries, in order.
pub fn key_hashes(keys: &Vec<KeyEntry>) -> (r: Vec<u64>)
    ensures
        r@ == keys@.map_values(|e: KeyEntry| e.hash),
{
    let mut out: Vec<u64> = Vec::new();
    let mut i: usize = 0;
    while i < keys.len()
        invariant
            i <= keys.len(),
            out@ == keys@.take(i as int).map_values(|e: KeyEntry| e.hash),
        decreases keys.len() - i,
    {
        out.push(keys[i].hash);
        proof {
            assert(out@ =~= keys@.take(i + 1).map_values(|e: KeyEntry| e.hash));
        }
        i = i + 1;
    }
    proof {
        assert(keys@.take(keys.len() as int) =~= keys@);
    }
    out
}

/// Every pair of hashes at positions `i < j`, ordered by `i` then `j`: each
/// pair becomes a compile-time inequality check.
pub open spec fn collision_pairs<A>(h: Seq<A>) -> Seq<(A, A)>
    decreases h.len(),
{
    if h.len() == 0 {
        Seq::empty()
    } else {
        h.skip(1).map_values(|x: A| (h[0], x)) + collision_pairs(h.skip(1))
    }
}

/// The pairs of hashes that must differ (see `collision_pairs`).
pub fn collision_checks(hashes: &Vec<u64>) -> (r: Vec<(u64, u64)>)
    ensures
        r@ == collision_pairs(hashes@),
{
    let h = hashes;
    let mut out: Vec<(u64, u64)> = Vec::new();
    let mut i: usize = 0;
    proof {
        assert(h@.skip(0) =~= h@);
        assert(out@ + collision_pairs(h@) =~= collision_pairs(h@));
    }
    while i < h.len()
        invariant
            i <= h.len(),
            collision_pairs(h@) == out@ + collision_pairs(h@.skip(i as int)),
        decreases h.len() - i,
    {
        let ghost base = out@;
        let ghost t = h@.skip(i as int);
        proof {
            assert(t[0] == h@[i as int]);
            assert(t.skip(1) =~= h@.skip(i + 1));
        }
        let mut j: usize = i + 1;
        proof {
            assert(h@.subrange(i + 1, j as int).map_values(|x: u64| (h@[i as int], x)) =~= Seq::<(u64, u64)>::empty());
            assert(out@ =~= base + h@.subrange(i + 1, j as int).map_values(|x: u64| (h@[i as int], x)));
        }
        while j < h.len()
            invariant
                i < j <= h.len(),
                out@ == base + h@.subrange(i + 1, j as int).map_values(|x: u64| (h@[i as int], x)),
            decreases h.len() - j,
        {
            out.push((h[i], h[j]));
            proof {
                assert(h@.subrange(i + 1, j + 1).map_values(|x: u64| (h@[i as int], x)) =~= h@.subrange(
                    i + 1,
                    j as int,
                ).map_values(|x: u64| (h@[i as int], x)).push((h@[i as int], h@[j as int])));
            }
            j = j + 1;
        }
        proof {
            assert(h@.subrange(i + 1, h@.len() as int) =~= t.skip(1));
            let row = t.skip(1).map_values(|x: u64| (t[0], x));
            assert(h@.subrange(i + 1, h@.len() as int).map_values(|x: u64| (h@[i as int], x)) =~= row);
            assert(collision_pairs(t) == row + collision_pairs(t.skip(1)));
            assert(base + (row + collision_pairs(t.skip(1))) =~= (base + row) + collision_pairs(t.skip(1)));
        }
        i = i + 1;
    }
    proof {
        assert(h@.skip(h@.len() as int) =~= Seq::<u64>::empty());
        assert(out@ + collision_pairs(Seq::<u64>::empty()) =~= out@);
    }
    out
}

/// Where a loaded field's value comes from.
#[derive(Clone, Copy, PartialEq, Eq, Structural, Debug)]
pub enum LoadSource {
    /// The value found in storage.
    Stored,
    /// The `env_default` variable, read at build time.
    EnvDefault,
    /// The `default` text.
    Default,
    /// Nothing: the struct's `Default` value stays.
    Unchanged,
}

/// A stored value wins; else a field with `env_default` takes the variable
/// when it was set at build time and parses (its `default` is then not
/// consulted); else `default` when the field has one and it parses; else the
/// value stays.
pub open spec fn load_source_spec(
    has_env_default: bool,
    has_default: bool,
    stored: bool,
    env_parses: bool,
    default_parses: bool,
) -> LoadSource {
    if stored {
        LoadSource::Stored
    } else if has_env_default {
        if env_parses {
            LoadSource::EnvDefault
        } else {
            LoadSource::Unchanged
        }
    } else if has_default && default_parses {
        LoadSource::Default
    } else {
        LoadSource::Unchanged
    }
}

/// Where the generated `load_from` takes a field's value from, given whether
/// the field has an `env_default` and a `default`, whether storage holds a
/// value, whether the build-time variable is set and parses, and whether the
/// `default` text parses.
pub fn load_source(
    has_env_default: bool,
    has_default: bool,
    stored: bool,
    env_parses: bool,
    default_parses: bool,
) -> (r: LoadSource)
    ensures
        r == load_source_spec(has_env_default, has_default, stored, env_parses, default_parses),
{
    if stored {
        LoadSource::Stored
    } else if has_env_default {
        if env_parses {
            LoadSource::EnvDefault
        } else {
            LoadSource::Unchanged
        }
    } else if has_default && default_parses {
        LoadSource::Default
    } else {
        LoadSource::Unchanged
    }
}

/// The variant names of the keys compared by each collision check, in the
/// order of the checks, for their messages.
pub fn collision_names(keys: &Vec<KeyEntry>) -> (r: Vec<(String, String)>)
    ensures
        r@.map_values(|p: (String, String)| (p.0@, p.1@)) == collision_pairs(
            keys@.map_values(|e: KeyEntry| e.variant@),
        ),
{
    let ghost h = keys@.map_values(|e: KeyEntry| e.variant@);
    let mut out: Vec<(String, String)> = Vec::new();
    let mut i: usize = 0;
    proof {
        assert(h.skip(0) =~= h);
        assert(out@.map_values(|p: (String, String)| (p.0@, p.1@)) + collision_pairs(h) =~= collision_pairs(h));
    }
    while i < keys.len()
        invariant
            i <= keys.len(),
            h == keys@.map_values(|e: KeyEntry| e.variant@),
            collision_pairs(h) == out@.map_values(|p: (String, String)| (p.0@, p.1@)) + collision_pairs(
                h.skip(i as int),
            ),
        decreases keys.len() - i,
    {
        let ghost base = out@.map_values(|p: (String, String)| (p.0@, p.1@));
        let ghost t = h.skip(i as int);
        proof {
            assert(t[0] == h[i as int]);
            assert(t.skip(1) =~= h.skip(i + 1));
        }
        let mut j: usize = i + 1;
        proof {
            assert(h.subrange(i + 1, j as int).map_values(|x: Seq<char>| (h[i as int], x)) =~= Seq::<
                (Seq<char>, Seq<char>),
            >::empty());
            assert(out@.map_values(|p: (String, String)| (p.0@, p.1@)) =~= base + h.subrange(
                i + 1,
                j as int,
            ).map_values(|x: Seq<char>| (h[i as int], x)));
        }
        while j < keys.len()
            invariant
                i < j <= keys.len(),
                h == keys@.map_values(|e: KeyEntry| e.variant@),
                out@.map_values(|p: (String, String)| (p.0@, p.1@)) == base + h.subrange(i + 1, j as int).map_values(
                    |x: Seq<char>| (h[i as int], x),
                ),
            decreases keys.len() - j,
        {
            let ghost pre = out@;
            out.push((keys[i].variant.clone(), keys[j].variant.clone()));
            proof {
                assert(out@ =~= pre.push((keys@[i as int].variant, keys@[j as int].variant)));
                assert(h.subrange(i + 1, j + 1).map_values(|x: Seq<char>| (h[i as int], x)) =~= h.subrange(
                    i + 1,
                    j as int,
                ).map_values(|x: Seq<char>| (h[i as int], x)).push((h[i as int], h[j as int])));
                assert(out@.map_values(|p: (String, String)| (p.0@, p.1@)) =~= pre.map_values(
                    |p: (String, String)| (p.0@, p.1@),
                ).push((h[i as int], h[j as int])));
            }
            j = j + 1;
        }
        proof {
            assert(h.subrange(i + 1, h.len() as int) =~= t.skip(1));
            let row = t.skip(1).map_values(|x: Seq<char>| (t[0], x));
            assert(h.subrange(i + 1, h.len() as int).map_values(|x: Seq<char>| (h[i as int], x)) =~= row);
            assert(collision_pairs(t) == row + collision_pairs(t.skip(1)));
            assert(base + (row + collision_pairs(t.skip(1))) =~= (base + row) + collision_pairs(t.skip(1)));
        }
        i = i + 1;
    }
    proof {
        assert(h.skip(h.len() as int) =~= Seq::<Seq<char>>::empty());
        let v = out@.map_values(|p: (String, String)| (p.0@, p.1@));
        assert(v + collision_pairs(Seq::<Seq<char>>::empty()) =~= v);
    }
    out
}

} // verus!
