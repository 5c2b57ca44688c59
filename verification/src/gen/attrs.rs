//! The derive's attribute arguments: `#[config_ui(...)]` on the struct and
//! `#[config_form(...)]` / `#[config_store(...)]` on its fields, read as
//! key/value items in source order (a later item for the same key wins).
use vstd::prelude::*;
use crate::gen::form::{opt_view, FormField};
use crate::gen::page::UiAttrs;
use crate::strs::str_eq;
use crate::text::{cased_spec, humanize_label};

verus! {

/// One `key = value` (or bare `key`) item of an attribute's argument list.
pub struct MetaItem {
    /// The item's path, e.g. `page`.
    pub key: String,
    /// The value when it is a string literal.
    pub lit: Option<String>,
    /// The value when it is an integer literal that fits in `u64`.
    pub int: Option<u64>,
    /// `Some` when the value parses as an expression; inside, its text as a
    /// `min`/`max` bound (a number or a string literal), if it is one.
    pub expr: Option<Option<String>>,
}

/// A struct field as the derive sees it.
pub struct FieldInput {
    /// The field's name.
    pub name: String,
    /// The last path segment of the field's type, when it is a path type.
    pub field_type: Option<String>,
    /// Whether the field carries a `#[config_form]` attribute (even an empty one).
    pub has_config_form: bool,
    /// The items of its `#[config_form(...)]` attributes, in order.
    pub form_metas: Vec<MetaItem>,
    /// The items of its `#[config_store(...)]` attributes, in order.
    pub store_metas: Vec<MetaItem>,
}

/// Whether some item has key `k`.
pub open spec fn has_key(metas: Seq<MetaItem>, k: Seq<char>) -> bool {
    exists|i: int| 0 <= i < metas.len() && (#[trigger] metas[i]).key@ == k
}

/// The string value of the last item with key `k` that has one.
pub open spec fn last_lit(metas: Seq<MetaItem>, k: Seq<char>) -> Option<Seq<char>>
    decreases metas.len(),
{
    if metas.len() == 0 {
        None
    } else if metas.last().key@ == k && metas.last().lit is Some {
        Some(metas.last().lit->Some_0@)
    } else {
        last_lit(metas.drop_last(), k)
    }
}

/// The string value, if any, of the last item with key `k`; `None` when no item has that key.
pub open spec fn last_key_lit(metas: Seq<MetaItem>, k: Seq<char>) -> Option<Option<Seq<char>>>
    decreases metas.len(),
{
    if metas.len() == 0 {
        None
    } else if metas.last().key@ == k {
        Some(opt_view(metas.last().lit))
    } else {
        last_key_lit(metas.drop_last(), k)
    }
}

/// The bound text, if any, of the last item with key `k` whose value is an expression.
pub open spec fn last_expr(metas: Seq<MetaItem>, k: Seq<char>) -> Option<Option<Seq<char>>>
    decreases metas.len(),
{
    if metas.len() == 0 {
        None
    } else if metas.last().key@ == k && metas.last().expr is Some {
        Some(opt_view(metas.last().expr->Some_0))
    } else {
        last_expr(metas.drop_last(), k)
    }
}

/// The integer value, if any, of the last item with key `k`; `None` when no item has that key.
pub open spec fn last_key_int(metas: Seq<MetaItem>, k: Seq<char>) -> Option<Option<u64>>
    decreases metas.len(),
{
    if metas.len() == 0 {
        None
    } else if metas.last().key@ == k {
        Some(metas.last().int)
    } else {
        last_key_int(metas.drop_last(), k)
    }
}

/// `v` when set, else `d`.
pub open spec fn or_default(v: Option<Seq<char>>, d: Seq<char>) -> Seq<char> {
    match v {
        Some(s) => s,
        None => d,
    }
}

/// `v` when set, else `d`.
pub open spec fn or_keep(v: Option<Option<Seq<char>>>, d: Option<Seq<char>>) -> Option<Seq<char>> {
    match v {
        Some(s) => s,
        None => d,
    }
}

/// Whether some item has key `k`.
pub fn find_key(metas: &Vec<MetaItem>, k: &str) -> (r: bool)
    ensures
        r == has_key(metas@, k@),
{
    let mut i: usize = 0;
    while i < metas.len()
        invariant
            i <= metas.len(),
            forall|j: int| 0 <= j < i ==> (#[trigger] metas@[j]).key@ != k@,
        decreases metas.len() - i,
    {
        if str_eq(metas[i].key.as_str(), k) {
            return true;
        }
        i = i + 1;
    }
    false
}

/// The string value of the last item with key `k` that has one.
pub fn find_last_lit<'a>(metas: &'a Vec<MetaItem>, k: &str) -> (r: Option<&'a String>)
    ensures
        match r {
            Some(s) => last_lit(metas@, k@) == Some(s@),
            None => last_lit(metas@, k@) is None,
        },
{
    let mut r: Option<&'a String> = None;
    let mut i: usize = 0;
    while i < metas.len()
        invariant
            i <= metas.len(),
            match r {
                Some(s) => last_lit(metas@.take(i as int), k@) == Some(s@),
                None => last_lit(metas@.take(i as int), k@) is None,
            },
        decreases metas.len() - i,
    {
        proof {
            assert(metas@.take(i + 1).drop_last() =~= metas@.take(i as int));
            assert(metas@.take(i + 1).last() == metas@[i as int]);
        }
        let m = &metas[i];
        if str_eq(m.key.as_str(), k) {
            match &m.lit {
                Some(v) => {
                    r = Some(v);
                },
                None => {},
            }
        }
        i = i + 1;
    }
    proof {
        assert(metas@.take(metas.len() as int) =~= metas@);
    }
    r
}

/// The string value, if any, of the last item with key `k`.
pub fn find_last_key_lit<'a>(metas: &'a Vec<MetaItem>, k: &str) -> (r: Option<&'a Option<String>>)
    ensures
        match r {
            Some(v) => last_key_lit(metas@, k@) == Some(opt_view(*v)),
            None => last_key_lit(metas@, k@) is None,
        },
{
    let mut r: Option<&'a Option<String>> = None;
    let mut i: usize = 0;
    while i < metas.len()
        invariant
            i <= metas.len(),
            match r {
                Some(v) => last_key_lit(metas@.take(i as int), k@) == Some(opt_view(*v)),
                None => last_key_lit(metas@.take(i as int), k@) is None,
            },
        decreases metas.len() - i,
    {
        proof {
            assert(metas@.take(i + 1).drop_last() =~= metas@.take(i as int));
            assert(metas@.take(i + 1).last() == metas@[i as int]);
        }
        let m = &metas[i];
        if str_eq(m.key.as_str(), k) {
            r = Some(&m.lit);
        }
        i = i + 1;
    }
    proof {
        assert(metas@.take(metas.len() as int) =~= metas@);
    }
    r
}

/// The bound text, if any, of the last item with key `k` whose value is an expression.
pub fn find_last_expr<'a>(metas: &'a Vec<MetaItem>, k: &str) -> (r: Option<&'a Option<String>>)
    ensures
        match r {
            Some(v) => last_expr(metas@, k@) == Some(opt_view(*v)),
            None => last_expr(metas@, k@) is None,
        },
{
    let mut r: Option<&'a Option<String>> = None;
    let mut i: usize = 0;
    while i < metas.len()
        invariant
            i <= metas.len(),
            match r {
                Some(v) => last_expr(metas@.take(i as int), k@) == Some(opt_view(*v)),
                None => last_expr(metas@.take(i as int), k@) is None,
            },
        decreases metas.len() - i,
    {
        proof {
            assert(metas@.take(i + 1).drop_last() =~= metas@.take(i as int));
            assert(metas@.take(i + 1).last() == metas@[i as int]);
        }
        let m = &metas[i];
        if str_eq(m.key.as_str(), k) {
            match &m.expr {
                Some(v) => {
                    r = Some(v);
                },
                None => {},
            }
        }
        i = i + 1;
    }
    proof {
        assert(metas@.take(metas.len() as int) =~= metas@);
    }
    r
}

/// The integer value, if any, of the last item with key `k`.
pub fn find_last_key_int(metas: &Vec<MetaItem>, k: &str) -> (r: Option<Option<u64>>)
    ensures
        r == last_key_int(metas@, k@),
{
    let mut r: Option<Option<u64>> = None;
    let mut i: usize = 0;
    while i < metas.len()
        invariant
            i <= metas.len(),
            r == last_key_int(metas@.take(i as int), k@),
        decreases metas.len() - i,
    {
        proof {
            assert(metas@.take(i + 1).drop_last() =~= metas@.take(i as int));
            assert(metas@.take(i + 1).last() == metas@[i as int]);
        }
        if str_eq(metas[i].key.as_str(), k) {
            r = Some(metas[i].int);
        }
        i = i + 1;
    }
    proof {
        assert(metas@.take(metas.len() as int) =~= metas@);
    }
    r
}

/// A copy of an optional string.
pub fn copy_opt(o: &Option<String>) -> (r: Option<String>)
    ensures
        opt_view(r) == opt_view(*o),
{
    match o {
        Some(s) => Some(s.clone()),
        None => None,
    }
}

/// The string value of the last item with key `k`, or `d`.
fn lit_or(metas: &Vec<MetaItem>, k: &str, d: &str) -> (r: String)
    ensures
        r@ == or_default(last_lit(metas@, k@), d@),
{
    match find_last_lit(metas, k) {
        Some(v) => v.clone(),
        None => d.to_owned(),
    }
}

/// The value, if any, of the last item with key `k`, or `d` when there is none.
fn key_lit_or(metas: &Vec<MetaItem>, k: &str, d: &Option<String>) -> (r: Option<String>)
    ensures
        opt_view(r) == or_keep(last_key_lit(metas@, k@), opt_view(*d)),
{
    match find_last_key_lit(metas, k) {
        Some(v) => copy_opt(v),
        None => copy_opt(d),
    }
}

/// The bound text of the last `min`/`max`-like item with key `k`, or `d`.
fn expr_or(metas: &Vec<MetaItem>, k: &str, d: &Option<String>) -> (r: Option<String>)
    ensures
        opt_view(r) == or_keep(last_expr(metas@, k@), opt_view(*d)),
{
    match find_last_expr(metas, k) {
        Some(v) => copy_opt(v),
        None => copy_opt(d),
    }
}

/// The page chrome described by the items of `#[config_ui(...)]`: each of
/// `page_heading`, `title`, `subtitle`, `nav_left`, `nav_right`, `extra_css`,
/// `default_group` takes the last string literal given for it; others keep
/// their defaults.
pub fn parse_ui_attrs(metas: &Vec<MetaItem>) -> (r: UiAttrs)
    ensures
        r.page_heading@ == or_default(last_lit(metas@, "page_heading"@), "Configuration"@),
        r.title@ == or_default(last_lit(metas@, "title"@), "Configuration"@),
        r.subtitle@ == or_default(last_lit(metas@, "subtitle"@), Seq::empty()),
        r.nav_left@ == or_default(last_lit(metas@, "nav_left"@), "<span>Configuration</span>"@),
        r.nav_right@ == or_default(last_lit(metas@, "nav_right"@), "<span></span>"@),
        r.extra_css@ == or_default(last_lit(metas@, "extra_css"@), Seq::empty()),
        opt_view(r.default_group) == last_lit(metas@, "default_group"@),
{
    proof {
        reveal_strlit("");
    }
    let default_group = match find_last_lit(metas, "default_group") {
        Some(v) => Some(v.clone()),
        None => None,
    };
    UiAttrs {
        page_heading: lit_or(metas, "page_heading", "Configuration"),
        title: lit_or(metas, "title", "Configuration"),
        subtitle: lit_or(metas, "subtitle", ""),
        nav_left: lit_or(metas, "nav_left", "<span>Configuration</span>"),
        nav_right: lit_or(metas, "nav_right", "<span></span>"),
        extra_css: lit_or(metas, "extra_css", ""),
        default_group,
    }
}

/// The form field described by a field's `#[config_form(...)]` items.
pub open spec fn form_field_matches(f: FormField, src: FieldInput) -> bool {
    let m = src.form_metas@;
    &&& f.name@ == src.name@
    &&& opt_view(f.field_type) == opt_view(src.field_type)
    &&& f.page@ == or_default(last_lit(m, "page"@), "main"@)
    &&& opt_view(f.fieldset) == or_keep(last_key_lit(m, "fieldset"@), None)
    &&& f.hidden == has_key(m, "hidden"@)
    &&& f.label@ == or_default(last_lit(m, "label"@), cased_spec(src.name@, seq![' ']))
    &&& f.help@ == or_default(last_lit(m, "help"@), Seq::empty())
    &&& opt_view(f.class) == or_keep(last_key_lit(m, "class"@), None)
    &&& opt_view(f.input_type) == or_keep(last_key_lit(m, "input_type"@), None)
    &&& opt_view(f.prim_type) == or_keep(last_key_lit(m, "prim_type"@), None)
    &&& opt_view(f.save_as) == or_keep(last_key_lit(m, "save_as"@), None)
    &&& opt_view(f.min) == or_keep(last_expr(m, "min"@), None)
    &&& opt_view(f.max) == or_keep(last_expr(m, "max"@), None)
}

/// Whether a field is on the form: it has `#[config_form]` and no `skip`.
pub open spec fn on_form(src: FieldInput) -> bool {
    src.has_config_form && !has_key(src.form_metas@, "skip"@)
}

/// The fields that are on the form, in order.
pub open spec fn form_inputs(fields: Seq<FieldInput>) -> Seq<FieldInput>
    decreases fields.len(),
{
    if fields.len() == 0 {
        Seq::empty()
    } else if on_form(fields.last()) {
        form_inputs(fields.drop_last()).push(fields.last())
    } else {
        form_inputs(fields.drop_last())
    }
}

/// The form field of one struct field that is on the form.
fn form_field_of(src: &FieldInput) -> (r: FormField)
    ensures
        form_field_matches(r, *src),
{
    proof {
        reveal_strlit("");
    }
    let m = &src.form_metas;
    let none: Option<String> = None;
    let label = match find_last_lit(m, "label") {
        Some(v) => v.clone(),
        None => humanize_label(src.name.as_str()),
    };
    let name = src.name.clone();
    let page = lit_or(m, "page", "main");
    let fieldset = key_lit_or(m, "fieldset", &none);
    let hidden = find_key(m, "hidden");
    let help = lit_or(m, "help", "");
    let class = key_lit_or(m, "class", &none);
    let field_type = copy_opt(&src.field_type);
    let min = expr_or(m, "min", &none);
    let max = expr_or(m, "max", &none);
    let input_type = key_lit_or(m, "input_type", &none);
    let prim_type = key_lit_or(m, "prim_type", &none);
    let save_as = key_lit_or(m, "save_as", &none);
    let r = FormField {
        name,
        page,
        fieldset,
        hidden,
        label,
        help,
        class,
        field_type,
        min,
        max,
        input_type,
        prim_type,
        save_as,
    };
    proof {
        assert(r.name@ == src.name@);
        assert(opt_view(none) == None::<Seq<char>>);
        assert(""@ =~= Seq::<char>::empty());
        assert(r.help@ == or_default(last_lit(m@, "help"@), Seq::empty()));
        assert(r.label@ == or_default(last_lit(m@, "label"@), cased_spec(src.name@, seq![' '])));
    }
    r
}

/// The form fields of a struct, in declaration order: fields without
/// `#[config_form]` or with `skip` are left out; the label defaults to the
/// field name humanized, the page to `main`.
pub fn parse_form_fields(fields: &Vec<FieldInput>) -> (r: Vec<FormField>)
    ensures
        r.len() == form_inputs(fields@).len(),
        forall|k: int| 0 <= k < r.len() ==> form_field_matches(#[trigger] r@[k], form_inputs(fields@)[k]),
{
    let mut out: Vec<FormField> = Vec::new();
    let mut i: usize = 0;
    while i < fields.len()
        invariant
            i <= fields.len(),
            out.len() == form_inputs(fields@.take(i as int)).len(),
            forall|k: int|
                0 <= k < out.len() ==> form_field_matches(
                    #[trigger] out@[k],
                    form_inputs(fields@.take(i as int))[k],
                ),
        decreases fields.len() - i,
    {
        proof {
            assert(fields@.take(i + 1).drop_last() =~= fields@.take(i as int));
            assert(fields@.take(i + 1).last() == fields@[i as int]);
        }
        let src = &fields[i];
        if src.has_config_form && !find_key(&src.form_metas, "skip") {
            let f = form_field_of(src);
            out.push(f);
        }
        i = i + 1;
    }
    proof {
        assert(fields@.take(fields.len() as int) =~= fields@);
    }
    out
}

/// All values read from a field's `#[config_form(...)]` items.
pub struct ParsedFormAttrs {
    /// The page (config group); `main` by default.
    pub page: String,
    /// Left out of the form and the group API.
    pub skip: bool,
    /// Explicit `<input type=..>`.
    pub input_type: Option<String>,
    /// The fieldset (legend) grouping the field.
    pub fieldset: Option<String>,
    /// Help text under the input.
    pub help: String,
    /// Explicit label.
    pub label: Option<String>,
    /// Rendered as a hidden input.
    pub hidden: bool,
    /// `min` bound.
    pub min: Option<String>,
    /// `max` bound.
    pub max: Option<String>,
    /// Extra input class.
    pub class: Option<String>,
    /// Primitive type name used for the input kind.
    pub prim_type: Option<String>,
    /// Explicit save kind.
    pub save_as: Option<String>,
}

impl Default for ParsedFormAttrs {
    /// Page `main`, no help, nothing else set.
    fn default() -> (r: Self)
        ensures
            r.page@ == "main"@,
            !r.skip,
            r.input_type is None,
            r.fieldset is None,
            r.help@ == Seq::<char>::empty(),
            r.label is None,
            !r.hidden,
            r.min is None,
            r.max is None,
            r.class is None,
            r.prim_type is None,
            r.save_as is None,
    {
        ParsedFormAttrs {
            page: "main".to_owned(),
            skip: false,
            input_type: None,
            fieldset: None,
            help: String::new(),
            label: None,
            hidden: false,
            min: None,
            max: None,
            class: None,
            prim_type: None,
            save_as: None,
        }
    }
}

/// Merges the items of one `#[config_form(...)]` into `out`: `page` and `help`
/// take a string literal when one is given; `fieldset`, `label`, `class`,
/// `input_type`, `prim_type`, `save_as` take the item's string literal or
/// `None`; `min`/`max` take the bound text of an expression; `skip` and
/// `hidden` are set by their presence; the last item for a key wins.
pub fn parse_config_form_attr_into(metas: &Vec<MetaItem>, out: &mut ParsedFormAttrs)
    ensures
        final(out).page@ == or_default(last_lit(metas@, "page"@), old(out).page@),
        final(out).skip == (old(out).skip || has_key(metas@, "skip"@)),
        final(out).hidden == (old(out).hidden || has_key(metas@, "hidden"@)),
        opt_view(final(out).fieldset) == or_keep(last_key_lit(metas@, "fieldset"@), opt_view(old(out).fieldset)),
        opt_view(final(out).label) == or_keep(last_key_lit(metas@, "label"@), opt_view(old(out).label)),
        final(out).help@ == or_default(last_lit(metas@, "help"@), old(out).help@),
        opt_view(final(out).class) == or_keep(last_key_lit(metas@, "class"@), opt_view(old(out).class)),
        opt_view(final(out).input_type) == or_keep(
            last_key_lit(metas@, "input_type"@),
            opt_view(old(out).input_type),
        ),
        opt_view(final(out).prim_type) == or_keep(
            last_key_lit(metas@, "prim_type"@),
            opt_view(old(out).prim_type),
        ),
        opt_view(final(out).save_as) == or_keep(last_key_lit(metas@, "save_as"@), opt_view(old(out).save_as)),
        opt_view(final(out).min) == or_keep(last_expr(metas@, "min"@), opt_view(old(out).min)),
        opt_view(final(out).max) == or_keep(last_expr(metas@, "max"@), opt_view(old(out).max)),
{
    let page = lit_or(metas, "page", out.page.as_str());
    out.page = page;
    if find_key(metas, "skip") {
        out.skip = true;
    }
    if find_key(metas, "hidden") {
        out.hidden = true;
    }
    let fieldset = key_lit_or(metas, "fieldset", &out.fieldset);
    out.fieldset = fieldset;
    let label = key_lit_or(metas, "label", &out.label);
    out.label = label;
    let help = lit_or(metas, "help", out.help.as_str());
    out.help = help;
    let class = key_lit_or(metas, "class", &out.class);
    out.class = class;
    let input_type = key_lit_or(metas, "input_type", &out.input_type);
    out.input_type = input_type;
    let prim_type = key_lit_or(metas, "prim_type", &out.prim_type);
    out.prim_type = prim_type;
    let save_as = key_lit_or(metas, "save_as", &out.save_as);
    out.save_as = save_as;
    let min = expr_or(metas, "min", &out.min);
    out.min = min;
    let max = expr_or(metas, "max", &out.max);
    out.max = max;
}

} // verus!
