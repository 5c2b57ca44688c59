//! Group API side of the derive: the fields the JSON group API serves, the
//! `ConfigChange` variants, DTO names, the notify channel capacity, storage
//! parameters, and how the generated setters decide what changed.
use vstd::prelude::*;
use crate::config::{ConfigStorageParams, DEFAULT_STORAGE_MAGIC, DEFAULT_STORAGE_VERSION};
use crate::gen::attrs::{
    find_last_key_int, form_inputs, last_key_int, last_key_lit, last_lit, on_form, or_default,
    or_keep, parse_config_form_attr_into, FieldInput, MetaItem, ParsedFormAttrs,
};
use crate::gen::form::opt_view;
use crate::strs::{chars_of, str_eq};
use crate::text::{cased_spec, to_pascal_case};

verus! {

/// A field served by the JSON group API.
pub struct ApiField {
    /// The field's name.
    pub name: String,
    /// The page (config group) it belongs to.
    pub page: String,
    /// Its input type is `password`: redacted in GET, kept when sent empty.
    pub is_password: bool,
    /// The `ConfigChange` variant it notifies; `Changed` when `None`.
    pub notify: Option<String>,
}

/// The notify variant named by `#[config_store(...)]` items: `notify = "V"`
/// sets it (or clears it when not a string literal); `notify_group = "g"`
/// sets the PascalCase of `g`; the last such item wins.
pub open spec fn notify_spec(m: Seq<MetaItem>) -> Option<Seq<char>>
    decreases m.len(),
{
    if m.len() == 0 {
        None
    } else if m.last().key@ == "notify"@ {
        opt_view(m.last().lit)
    } else if m.last().key@ == "notify_group"@ && m.last().lit is Some {
        Some(cased_spec(m.last().lit->Some_0@, Seq::empty()))
    } else {
        notify_spec(m.drop_last())
    }
}

/// The API field of a struct field that is on the form.
pub open spec fn api_field_matches(a: ApiField, src: FieldInput) -> bool {
    let m = src.form_metas@;
    &&& a.name@ == src.name@
    &&& a.page@ == or_default(last_lit(m, "page"@), "main"@)
    &&& a.is_password == (or_keep(last_key_lit(m, "input_type"@), None) == Some("password"@))
    &&& opt_view(a.notify) == notify_spec(src.store_metas@)
}

/// The notify variant named by a field's `#[config_store(...)]` items.
fn parse_notify(m: &Vec<MetaItem>) -> (r: Option<String>)
    ensures
        opt_view(r) == notify_spec(m@),
{
    let mut r: Option<String> = None;
    let mut i: usize = 0;
    while i < m.len()
        invariant
            i <= m.len(),
            opt_view(r) == notify_spec(m@.take(i as int)),
        decreases m.len() - i,
    {
        proof {
            assert(m@.take(i + 1).drop_last() =~= m@.take(i as int));
            assert(m@.take(i + 1).last() == m@[i as int]);
        }
        let item = &m[i];
        if str_eq(item.key.as_str(), "notify") {
            r = match &item.lit {
                Some(s) => Some(s.clone()),
                None => None,
            };
        } else if str_eq(item.key.as_str(), "notify_group") {
            match &item.lit {
                Some(s) => {
                    r = Some(to_pascal_case(s.as_str()));
                },
                None => {},
            }
        }
        i = i + 1;
    }
    proof {
        assert(m@.take(m.len() as int) =~= m@);
    }
    r
}

/// The fields the group API serves, in declaration order: those on the form.
pub fn collect_api_fields(fields: &Vec<FieldInput>) -> (r: Vec<ApiField>)
    ensures
        r.len() == form_inputs(fields@).len(),
        forall|k: int| 0 <= k < r.len() ==> api_field_matches(#[trigger] r@[k], form_inputs(fields@)[k]),
{
    let mut out: Vec<ApiField> = Vec::new();
    let mut i: usize = 0;
    while i < fields.len()
        invariant
            i <= fields.len(),
            out.len() == form_inputs(fields@.take(i as int)).len(),
            forall|k: int|
                0 <= k < out.len() ==> api_field_matches(#[trigger] out@[k], form_inputs(fields@.take(i as int))[k]),
        decreases fields.len() - i,
    {
        proof {
            assert(fields@.take(i + 1).drop_last() =~= fields@.take(i as int));
            assert(fields@.take(i + 1).last() == fields@[i as int]);
        }
        let src = &fields[i];
        let mut form = ParsedFormAttrs::default();
        parse_config_form_attr_into(&src.form_metas, &mut form);
        if src.has_config_form && !form.skip {
            let is_password = match &form.input_type {
                Some(t) => str_eq(t.as_str(), "password"),
                None => false,
            };
            let notify = parse_notify(&src.store_metas);
            let a = ApiField { name: src.name.clone(), page: form.page, is_password, notify };
            proof {
                assert(on_form(*src));
            }
            out.push(a);
        } else {
            proof {
                assert(!on_form(*src));
            }
        }
        i = i + 1;
    }
    proof {
        assert(fields@.take(fields.len() as int) =~= fields@);
    }
    out
}

// ---------------------------------------------------------------------------
// ConfigChange variants
// ---------------------------------------------------------------------------

/// Lexicographic order on character sequences (by code point, which for
/// strings is also the order of their UTF-8 bytes).
pub open spec fn lex_lt(a: Seq<char>, b: Seq<char>) -> bool
    decreases a.len(),
{
    if a.len() == 0 {
        b.len() > 0
    } else if b.len() == 0 {
        false
    } else if a[0] != b[0] {
        (a[0] as int) < (b[0] as int)
    } else {
        lex_lt(a.skip(1), b.skip(1))
    }
}

/// `lex_lt` is a strict order.
pub proof fn lemma_lex_irrefl(a: Seq<char>)
    ensures
        !lex_lt(a, a),
    decreases a.len(),
{
    if a.len() > 0 {
        lemma_lex_irrefl(a.skip(1));
    }
}

/// `lex_lt` is transitive.
pub proof fn lemma_lex_trans(a: Seq<char>, b: Seq<char>, c: Seq<char>)
    requires
        lex_lt(a, b),
        lex_lt(b, c),
    ensures
        lex_lt(a, c),
    decreases a.len(),
{
    if a.len() > 0 && b.len() > 0 && c.len() > 0 {
        if a[0] == b[0] && b[0] == c[0] {
            lemma_lex_trans(a.skip(1), b.skip(1), c.skip(1));
        }
    }
}

/// Any two sequences are equal or ordered by `lex_lt`.
pub proof fn lemma_lex_total(a: Seq<char>, b: Seq<char>)
    ensures
        a == b || lex_lt(a, b) || lex_lt(b, a),
    decreases a.len(),
{
    if a.len() > 0 && b.len() > 0 && a[0] == b[0] {
        lemma_lex_total(a.skip(1), b.skip(1));
        if a.skip(1) == b.skip(1) {
            assert(a =~= seq![a[0]] + a.skip(1));
            assert(b =~= seq![b[0]] + b.skip(1));
        }
    } else if a.len() > 0 && b.len() > 0 {
        assert((a[0] as int) != (b[0] as int));
    } else if a.len() == 0 && b.len() == 0 {
        assert(a =~= b);
    }
}

/// Equal prefixes do not change the order.
proof fn lemma_lex_skip(a: Seq<char>, b: Seq<char>, i: int)
    requires
        0 <= i <= a.len(),
        i <= b.len(),
        forall|j: int| 0 <= j < i ==> a[j] == b[j],
    ensures
        lex_lt(a, b) == lex_lt(a.skip(i), b.skip(i)),
    decreases i,
{
    if i > 0 {
        lemma_lex_skip(a.skip(1), b.skip(1), i - 1);
        assert(a.skip(1).skip(i - 1) =~= a.skip(i));
        assert(b.skip(1).skip(i - 1) =~= b.skip(i));
    } else {
        assert(a.skip(0) =~= a);
        assert(b.skip(0) =~= b);
    }
}

/// Whether `a` sorts before `b`.
pub fn lex_less(a: &str, b: &str) -> (r: bool)
    ensures
        r == lex_lt(a@, b@),
{
    let x = chars_of(a);
    let y = chars_of(b);
    let mut i: usize = 0;
    while i < x.len() && i < y.len() && x[i] == y[i]
        invariant
            i <= x.len(),
            i <= y.len(),
            x@ == a@,
            y@ == b@,
            forall|j: int| 0 <= j < i ==> x@[j] == y@[j],
        decreases x.len() - i,
    {
        i = i + 1;
    }
    proof {
        lemma_lex_skip(x@, y@, i as int);
    }
    if i == x.len() {
        i < y.len()
    } else if i == y.len() {
        false
    } else {
        proof {
            assert(x@.skip(i as int)[0] == x@[i as int]);
            assert(y@.skip(i as int)[0] == y@[i as int]);
        }
        x[i] < y[i]
    }
}

/// Strictly increasing in `lex_lt`.
pub open spec fn strictly_sorted(s: Seq<Seq<char>>) -> bool {
    forall|i: int, j: int| 0 <= i < j < s.len() ==> lex_lt(#[trigger] s[i], #[trigger] s[j])
}

/// The views of a vector of strings.
pub open spec fn string_views(v: Seq<String>) -> Seq<Seq<char>> {
    v.map_values(|s: String| s@)
}

/// Inserts `s` into a strictly sorted vector unless it is there already.
fn insert_sorted(v: &mut Vec<String>, s: &str)
    requires
        strictly_sorted(string_views(old(v)@)),
    ensures
        strictly_sorted(string_views(final(v)@)),
        forall|t: Seq<char>| string_views(final(v)@).contains(t) <==> (string_views(old(v)@).contains(t) || t == s@),
{
    let ghost pre = string_views(v@);
    let mut p: usize = 0;
    while p < v.len() && lex_less(v[p].as_str(), s)
        invariant
            p <= v.len(),
            pre == string_views(v@),
            strictly_sorted(pre),
            forall|k: int| 0 <= k < p ==> lex_lt(#[trigger] pre[k], s@),
        decreases v.len() - p,
    {
        p = p + 1;
    }
    if p < v.len() && str_eq(v[p].as_str(), s) {
        proof {
            assert(pre[p as int] == s@);
            assert forall|t: Seq<char>| pre.contains(t) <==> (pre.contains(t) || t == s@) by {
                if t == s@ {
                    assert(pre[p as int] == t);
                }
            }
        }
        return;
    }
    proof {
        if p < v.len() {
            lemma_lex_total(pre[p as int], s@);
            assert(lex_lt(s@, pre[p as int]));
            assert forall|k: int| p <= k < pre.len() implies lex_lt(s@, #[trigger] pre[k]) by {
                if k > p {
                    lemma_lex_trans(s@, pre[p as int], pre[k]);
                }
            }
        }
    }
    v.insert(p, s.to_owned());
    proof {
        let post = string_views(v@);
        assert(post =~= pre.insert(p as int, s@));
        assert forall|i: int, j: int| 0 <= i < j < post.len() implies lex_lt(#[trigger] post[i], #[trigger] post[j]) by {
            if j < p {
            } else if j == p {
            } else if i < p {
                assert(post[j] == pre[j - 1]);
                if j - 1 >= p {
                    lemma_lex_trans(pre[i], s@, pre[j - 1]);
                }
            } else if i == p {
                assert(post[j] == pre[j - 1]);
            } else {
                assert(post[i] == pre[i - 1]);
                assert(post[j] == pre[j - 1]);
            }
        }
        assert forall|t: Seq<char>| post.contains(t) <==> (pre.contains(t) || t == s@) by {
            if post.contains(t) {
                let k = choose|k: int| 0 <= k < post.len() && post[k] == t;
                if k < p {
                    assert(pre[k] == t);
                } else if k > p {
                    assert(pre[k - 1] == t);
                }
            }
            if pre.contains(t) {
                let k = choose|k: int| 0 <= k < pre.len() && pre[k] == t;
                if k < p {
                    assert(post[k] == t);
                } else {
                    assert(post[k + 1] == t);
                }
            }
            if t == s@ {
                assert(post[p as int] == t);
            }
        }
    }
}

/// The names of the `ConfigChange` variants: every `notify` variant named by
/// a field, and `Changed` when some field names none.
pub open spec fn change_names(fields: Seq<ApiField>) -> Set<Seq<char>> {
    Set::new(
        |t: Seq<char>|
            (exists|i: int| 0 <= i < fields.len() && opt_view(#[trigger] fields[i].notify) == Some(t)) || (t
                == "Changed"@ && exists|i: int| 0 <= i < fields.len() && (#[trigger] fields[i].notify) is None),
    )
}

/// The `ConfigChange` variants: distinct, in sorted order (the order of the
/// generated enum, and so of the change-set bits).
pub fn change_variants(fields: &Vec<ApiField>) -> (r: Vec<String>)
    ensures
        strictly_sorted(string_views(r@)),
        forall|t: Seq<char>| string_views(r@).contains(t) <==> change_names(fields@).contains(t),
{
    let mut out: Vec<String> = Vec::new();
    let mut untagged = false;
    let mut i: usize = 0;
    while i < fields.len()
        invariant
            i <= fields.len(),
            strictly_sorted(string_views(out@)),
            untagged == exists|k: int| 0 <= k < i && (#[trigger] fields@[k].notify) is None,
            forall|t: Seq<char>|
                string_views(out@).contains(t) <==> exists|k: int|
                    0 <= k < i && opt_view(#[trigger] fields@[k].notify) == Some(t),
        decreases fields.len() - i,
    {
        match &fields[i].notify {
            Some(v) => {
                insert_sorted(&mut out, v.as_str());
                proof {
                    assert forall|t: Seq<char>| string_views(out@).contains(t) <==> exists|k: int|
                        0 <= k < i + 1 && opt_view(#[trigger] fields@[k].notify) == Some(t) by {
                        if t == v@ {
                            assert(opt_view(fields@[i as int].notify) == Some(t));
                        }
                    }
                }
            },
            None => {
                untagged = true;
                proof {
                    assert forall|t: Seq<char>| string_views(out@).contains(t) <==> exists|k: int|
                        0 <= k < i + 1 && opt_view(#[trigger] fields@[k].notify) == Some(t) by {
                        if exists|k: int| 0 <= k < i + 1 && opt_view(#[trigger] fields@[k].notify) == Some(t) {
                            let k = choose|k: int| 0 <= k < i + 1 && opt_view(#[trigger] fields@[k].notify) == Some(t);
                            assert(k != i);
                        }
                    }
                }
            },
        }
        i = i + 1;
    }
    if untagged {
        insert_sorted(&mut out, "Changed");
    }
    proof {
        assert forall|t: Seq<char>| string_views(out@).contains(t) <==> change_names(fields@).contains(t) by {}
    }
    out
}

/// The variant a field's changes are recorded under: its `notify`, else `Changed`.
pub fn field_variant(f: &ApiField) -> (r: String)
    ensures
        r@ == or_default(opt_view(f.notify), "Changed"@),
{
    match &f.notify {
        Some(v) => v.clone(),
        None => "Changed".to_owned(),
    }
}

/// The DTO type name of a page: `{Struct}{PascalPage}PageDto`.
pub fn dto_name(struct_name: &str, page: &str) -> (r: String)
    ensures
        r@ == struct_name@ + cased_spec(page@, Seq::empty()) + "PageDto"@,
{
    let mut s = struct_name.to_owned();
    let p = to_pascal_case(page);
    s.append(p.as_str());
    s.append("PageDto");
    s
}

// ---------------------------------------------------------------------------
// Struct-level attributes
// ---------------------------------------------------------------------------

/// Values read from `#[config_server(...)]` and `#[config_notify(...)]`.
pub struct StructAttrs {
    /// `storage_magic = 0x...`.
    pub storage_magic: Option<u32>,
    /// `storage_version = N`.
    pub storage_version: Option<u32>,
    /// `cap = N`.
    pub notify_cap: Option<usize>,
}

/// The value of the last item with key `k` when it is an integer that fits `u32`.
pub open spec fn last_u32(m: Seq<MetaItem>, k: Seq<char>) -> Option<u32> {
    match last_key_int(m, k) {
        Some(Some(v)) => if v <= u32::MAX {
            Some(v as u32)
        } else {
            None
        },
        _ => None,
    }
}

/// The value of the last item with key `k` when it is an integer that fits `usize`.
pub open spec fn last_usize(m: Seq<MetaItem>, k: Seq<char>) -> Option<usize> {
    match last_key_int(m, k) {
        Some(Some(v)) => if v <= usize::MAX {
            Some(v as usize)
        } else {
            None
        },
        _ => None,
    }
}

/// Reads `storage_magic` and `storage_version` from the `#[config_server]`
/// items and `cap` from the `#[config_notify(...)]` items.
pub fn parse_struct_attrs(server: &Vec<MetaItem>, notify: &Vec<MetaItem>) -> (r: StructAttrs)
    ensures
        r.storage_magic == last_u32(server@, "storage_magic"@),
        r.storage_version == last_u32(server@, "storage_version"@),
        r.notify_cap == last_usize(notify@, "cap"@),
{
    let magic = match find_last_key_int(server, "storage_magic") {
        Some(Some(v)) => if v <= 0xffff_ffffu64 {
            Some(v as u32)
        } else {
            None
        },
        _ => None,
    };
    let version = match find_last_key_int(server, "storage_version") {
        Some(Some(v)) => if v <= 0xffff_ffffu64 {
            Some(v as u32)
        } else {
            None
        },
        _ => None,
    };
    let cap = match find_last_key_int(notify, "cap") {
        Some(Some(v)) => if v <= usize::MAX as u64 {
            Some(v as usize)
        } else {
            None
        },
        _ => None,
    };
    StructAttrs { storage_magic: magic, storage_version: version, notify_cap: cap }
}

/// Storage parameters of the config struct: the given magic and version, else
/// the defaults.
pub fn storage_params(attrs: &StructAttrs) -> (r: ConfigStorageParams)
    ensures
        r.magic == match attrs.storage_magic {
            Some(m) => m,
            None => DEFAULT_STORAGE_MAGIC,
        },
        r.format_version == match attrs.storage_version {
            Some(v) => v,
            None => DEFAULT_STORAGE_VERSION,
        },
{
    ConfigStorageParams {
        magic: match attrs.storage_magic {
            Some(m) => m,
            None => DEFAULT_STORAGE_MAGIC,
        },
        format_version: match attrs.storage_version {
            Some(v) => v,
            None => DEFAULT_STORAGE_VERSION,
        },
    }
}

/// The distinct page names in order of first occurrence.
pub open spec fn page_order(names: Seq<Seq<char>>) -> Seq<Seq<char>>
    decreases names.len(),
{
    if names.len() == 0 {
        Seq::empty()
    } else {
        let prev = page_order(names.drop_last());
        if prev.contains(names.last()) {
            prev
        } else {
            prev.push(names.last())
        }
    }
}

/// The pages of the API fields, in order of first occurrence.
pub fn api_pages(fields: &Vec<ApiField>) -> (r: Vec<String>)
    ensures
        string_views(r@) == page_order(fields@.map_values(|f: ApiField| f.page@)),
{
    let ghost names = fields@.map_values(|f: ApiField| f.page@);
    let mut out: Vec<String> = Vec::new();
    let mut i: usize = 0;
    while i < fields.len()
        invariant
            i <= fields.len(),
            names == fields@.map_values(|f: ApiField| f.page@),
            string_views(out@) == page_order(names.take(i as int)),
        decreases fields.len() - i,
    {
        proof {
            assert(names.take(i + 1).drop_last() =~= names.take(i as int));
            assert(names.take(i + 1).last() == fields@[i as int].page@);
        }
        let page = fields[i].page.as_str();
        let mut j: usize = 0;
        let mut seen = false;
        while j < out.len()
            invariant
                j <= out.len(),
                seen ==> string_views(out@).contains(page@),
                !seen ==> forall|k: int| 0 <= k < j ==> string_views(out@)[k] != page@,
            decreases out.len() - j,
        {
            if str_eq(out[j].as_str(), page) {
                seen = true;
                proof {
                    assert(string_views(out@)[j as int] == page@);
                }
            }
            j = j + 1;
        }
        if !seen {
            out.push(page.to_owned());
            proof {
                assert(string_views(out@) =~= page_order(names.take(i as int)).push(page@));
            }
        }
        i = i + 1;
    }
    proof {
        assert(names.take(fields.len() as int) =~= names);
    }
    out
}

/// Capacity of the change-notification channel: `cap` when given, else one
/// slot per config page.
pub fn notify_capacity(attrs: &StructAttrs, num_pages: usize) -> (r: usize)
    ensures
        r == match attrs.notify_cap {
            Some(c) => c,
            None => num_pages,
        },
{
    match attrs.notify_cap {
        Some(c) => c,
        None => num_pages,
    }
}

// ---------------------------------------------------------------------------
// Per-page DTOs
// ---------------------------------------------------------------------------

/// The positions of the fields that belong to `page`, in declaration order:
/// the fields of the page's DTO.
pub open spec fn page_field_indices(fields: Seq<ApiField>, page: Seq<char>) -> Seq<usize>
    decreases fields.len(),
{
    if fields.len() == 0 {
        Seq::empty()
    } else {
        let prev = page_field_indices(fields.drop_last(), page);
        if fields.last().page@ == page {
            prev.push((fields.len() - 1) as usize)
        } else {
            prev
        }
    }
}

/// The positions of the fields on `page`, in declaration order.
pub fn page_fields(fields: &Vec<ApiField>, page: &str) -> (r: Vec<usize>)
    ensures
        r@ == page_field_indices(fields@, page@),
{
    let mut out: Vec<usize> = Vec::new();
    let mut i: usize = 0;
    while i < fields.len()
        invariant
            i <= fields.len(),
            out@ == page_field_indices(fields@.take(i as int), page@),
        decreases fields.len() - i,
    {
        proof {
            assert(fields@.take(i + 1).drop_last() =~= fields@.take(i as int));
            assert(fields@.take(i + 1).last() == fields@[i as int]);
        }
        if str_eq(fields[i].page.as_str(), page) {
            out.push(i);
        }
        i = i + 1;
    }
    proof {
        assert(fields@.take(fields@.len() as int) =~= fields@);
    }
    out
}

/// What the generated `get_group_json` sends for a field.
#[derive(Clone, Copy, PartialEq, Eq, Structural, Debug)]
pub enum GroupRead {
    /// The field's current value.
    Current,
    /// Its type's default: the stored value is never sent.
    Redacted,
}

/// Password fields are redacted when a group is read; every other field is
/// sent as it is.
pub fn group_read(is_password: bool) -> (r: GroupRead)
    ensures
        r == (if is_password {
            GroupRead::Redacted
        } else {
            GroupRead::Current
        }),
{
    if is_password {
        GroupRead::Redacted
    } else {
        GroupRead::Current
    }
}

// ---------------------------------------------------------------------------
// Behaviour of the generated setters
// ---------------------------------------------------------------------------

/// Whether the generated `set_group_json` applies a submitted field and
/// records its variant: a password field sent empty (its type's default)
/// keeps the stored value; any other field is applied when it differs.
pub open spec fn group_field_applies_spec(is_password: bool, sent_default: bool, differs: bool) -> bool {
    (!is_password || !sent_default) && differs
}

/// Whether the generated `set_group_json` applies a submitted field (see
/// `group_field_applies_spec`), given whether it is a password field, whether
/// it was sent as its type's default, and whether it differs from the current
/// value.
pub fn group_field_applies(is_password: bool, sent_default: bool, differs: bool) -> (r: bool)
    ensures
        r == group_field_applies_spec(is_password, sent_default, differs),
{
    (!is_password || !sent_default) && differs
}

/// Outcome of the generated `set_field(key, value)` for a known field.
#[derive(Clone, Copy, PartialEq, Eq, Structural, Debug)]
pub enum SetFieldOutcome {
    /// Nothing changed (empty password, or the same value).
    Unchanged,
    /// The value was applied and its variant recorded.
    Changed,
    /// The value does not parse as the field's type.
    Invalid,
}

/// An empty value for a password field keeps it; otherwise an unparsable
/// value is invalid, and a parsed one changes the field when it differs.
pub open spec fn set_field_outcome_spec(is_password: bool, value_empty: bool, parsed: Option<bool>) -> SetFieldOutcome {
    if is_password && value_empty {
        SetFieldOutcome::Unchanged
    } else {
        match parsed {
            None => SetFieldOutcome::Invalid,
            Some(differs) => if differs {
                SetFieldOutcome::Changed
            } else {
                SetFieldOutcome::Unchanged
            },
        }
    }
}

/// What the generated `set_field` does for a field, given whether it is a
/// password field, whether the value is empty and, when it parses, whether it
/// differs from the current one.
pub fn set_field_outcome(is_password: bool, value_empty: bool, parsed: Option<bool>) -> (r: SetFieldOutcome)
    ensures
        r == set_field_outcome_spec(is_password, value_empty, parsed),
{
    if is_password && value_empty {
        SetFieldOutcome::Unchanged
    } else {
        match parsed {
            None => SetFieldOutcome::Invalid,
            Some(differs) => if differs {
                SetFieldOutcome::Changed
            } else {
                SetFieldOutcome::Unchanged
            },
        }
    }
}

} // verus!
