//! What the derive's decisions, the portal's routing and the storage mount
//! are for, stated over their inputs and results.
use vstd::prelude::*;
use crate::config::{ConfigError, ConfigStorageParams};
use crate::esp::storage::{mount_step_spec, MountAction, MountEvent};
use crate::gen::attrs::{form_field_matches, form_inputs, has_key, on_form, FieldInput, MetaItem};
use crate::gen::form::{
    js_loads_spec, js_save_field_spec, js_saves_spec, js_string_spec, opt_view, resolve_spec, FormField, SaveKind,
    FORM_ID_PREFIX, JS_ASSIGN_STR, JS_END, JS_EXPORT_LOAD_A, JS_EXPORT_LOAD_B, JS_EXPORT_SAVE_A, JS_EXPORT_SAVE_B,
    JS_EXPORT_SAVE_C, JS_LOAD_FETCH, JS_LOAD_FN, JS_LOAD_JSON, JS_PAGE_CONST, JS_SAVE_DATA, JS_SAVE_FETCH,
    JS_SAVE_FN, JS_SAVE_FORM, JS_SAVE_SEND, JS_URL_CONST, JS_URL_VALUE,
};
use crate::gen::group::{config_page_spec, group_pages};
use crate::gen::page::{
    default_page_id, full_page_spec, head_spec, panels_spec, scripts_spec, tab_bar_spec, BODY_CLOSE,
    DEFAULT_PAGE_CLOSE, DEFAULT_PAGE_OPEN, SCRIPT_BETWEEN,
};
use crate::laws::{around, fields_on, law_group_pages_partition, lemma_occurs_extend, occurs_in};
use crate::style::CONFIG_PAGE_TAB_SCRIPT;
use crate::text::{escape_js_spec, js_id_spec};
use crate::gen::store::{load_source_spec, LoadSource};
use crate::portal::handler::{route_matches, Route};
use crate::portal::query::{first_index_of, lemma_first_index_of, path_only_spec};

verus! {

// ---------------------------------------------------------------------------
// Loading a field
// ---------------------------------------------------------------------------

/// A value found in storage always wins: whenever storage holds a value for
/// the field, it is loaded, whatever `default` or `env_default` the field has
/// and whether they parse.
pub proof fn law_stored_value_wins(has_env_default: bool, has_default: bool, env_parses: bool, default_parses: bool)
    ensures
        load_source_spec(has_env_default, has_default, true, env_parses, default_parses) == LoadSource::Stored,
{
}

/// Without a stored value: a field with `env_default` takes the build-time
/// variable when it parses and otherwise keeps its value (its `default` is
/// never consulted); a field without one takes its `default` when it has one
/// that parses, and otherwise keeps its value.
pub proof fn law_fallbacks_without_stored_value(
    has_env_default: bool,
    has_default: bool,
    env_parses: bool,
    default_parses: bool,
)
    ensures
        has_env_default && env_parses ==> load_source_spec(has_env_default, has_default, false, env_parses, default_parses)
            == LoadSource::EnvDefault,
        has_env_default && !env_parses ==> load_source_spec(has_env_default, has_default, false, env_parses, default_parses)
            == LoadSource::Unchanged,
        !has_env_default && has_default && default_parses ==> load_source_spec(
            has_env_default,
            has_default,
            false,
            env_parses,
            default_parses,
        ) == LoadSource::Default,
        !has_env_default && !(has_default && default_parses) ==> load_source_spec(
            has_env_default,
            has_default,
            false,
            env_parses,
            default_parses,
        ) == LoadSource::Unchanged,
{
}

// ---------------------------------------------------------------------------
// Mounting the store
// ---------------------------------------------------------------------------

/// Mounting a blank store succeeds: a missing magic formats the store, a
/// successful format reads the magic back, the magic read back leads to the
/// version read, and with the expected magic the store is mounted.
pub proof fn law_blank_store_mounts(
    params: ConfigStorageParams,
    version: Option<u32>,
    a1: MountAction,
    a2: MountAction,
    a3: MountAction,
    a4: MountAction,
)
    requires
        mount_step_spec(params, MountEvent::MagicRead(Ok(None)), a1),
        mount_step_spec(params, MountEvent::Formatted(Ok(())), a2),
        mount_step_spec(params, MountEvent::MagicReread(Ok(Some(params.magic))), a3),
        mount_step_spec(params, MountEvent::VersionRead(params.magic, Ok(version)), a4),
    ensures
        a1 is Format,
        a2 is RereadMagic,
        a3 == MountAction::ReadVersion(params.magic),
        a4 is Mounted,
{
}

/// A store that holds the expected magic mounts without formatting; one that
/// holds another magic fails with `Backend` once its version is read.
pub proof fn law_existing_store_mounts(
    params: ConfigStorageParams,
    m: u32,
    version: Option<u32>,
    a1: MountAction,
    a2: MountAction,
)
    requires
        mount_step_spec(params, MountEvent::MagicRead(Ok(Some(m))), a1),
        mount_step_spec(params, MountEvent::VersionRead(m, Ok(version)), a2),
    ensures
        a1 == MountAction::ReadVersion(m),
        m == params.magic ==> a2 is Mounted,
        m != params.magic ==> a2 == MountAction::Fail(ConfigError::Backend),
{
}

/// A magic value read back after formatting is handled like one read first.
pub proof fn law_reread_magic_like_first_read(params: ConfigStorageParams, m: u32, a: MountAction)
    ensures
        mount_step_spec(params, MountEvent::MagicReread(Ok(Some(m))), a) == mount_step_spec(
            params,
            MountEvent::MagicRead(Ok(Some(m))),
            a,
        ),
{
}

// ---------------------------------------------------------------------------
// Routing
// ---------------------------------------------------------------------------

/// A request for `/config/<f>`, with or without a query, is routed to the
/// field `f` (for field names without `?`): the query is never part of the
/// field name.
pub proof fn law_field_route(f: Seq<char>, query: Option<Seq<char>>, r: Route)
    requires
        forall|i: int| 0 <= i < f.len() ==> f[i] != '?',
        route_matches(
            match query {
                Some(q) => "/config/"@ + f + seq!['?'] + q,
                None => "/config/"@ + f,
            },
            r,
        ),
    ensures
        r matches Route::ConfigField(x) && x@ == f,
{
    reveal_strlit("/config/");
    reveal_strlit("/config-group/");
    reveal_strlit("/");
    let path = "/config/"@ + f;
    let full = match query {
        Some(q) => path + seq!['?'] + q,
        None => path,
    };
    lemma_first_index_of(full, '?');
    assert forall|i: int| 0 <= i < path.len() implies path[i] != '?' by {
        if i >= 8 {
            assert(path[i] == f[i - 8]);
        }
    }
    match query {
        Some(q) => {
            assert(full[path.len() as int] == '?');
            match first_index_of(full, '?') {
                Some(k) => {
                    assert(!(k < path.len()));
                    assert(k == path.len());
                    assert(full.take(k) =~= path);
                },
                None => {},
            }
        },
        None => {},
    }
    assert(path_only_spec(full) == path);
    assert(path[1] == 'c');
    assert(path != "/"@);
    assert(path[7] == '/');
    assert(path.len() >= 14 ==> path.subrange(0, 14)[7] != "/config-group/"@[7]);
    assert(path.subrange(0, 8) =~= "/config/"@);
    assert(path.skip(8) =~= f);
}

// ---------------------------------------------------------------------------
// Form attributes
// ---------------------------------------------------------------------------

/// Each `#[config_form(...)]` key lands in the form field of the same name: an
/// item appended to a field's items sets the field that its key names (the
/// last item for a key wins) and leaves the others as they were.
pub proof fn law_form_item_sets_its_key(src: FieldInput, f: FormField, src2: FieldInput, f2: FormField, item: MetaItem)
    requires
        form_field_matches(f, src),
        form_field_matches(f2, src2),
        src2.name@ == src.name@,
        opt_view(src2.field_type) == opt_view(src.field_type),
        src2.form_metas@ == src.form_metas@.push(item),
    ensures
        item.key@ == "min"@ && item.expr is Some ==> opt_view(f2.min) == opt_view(item.expr->Some_0),
        item.key@ != "min"@ ==> opt_view(f2.min) == opt_view(f.min),
        item.key@ == "max"@ && item.expr is Some ==> opt_view(f2.max) == opt_view(item.expr->Some_0),
        item.key@ != "max"@ ==> opt_view(f2.max) == opt_view(f.max),
        item.key@ == "page"@ && item.lit is Some ==> f2.page@ == item.lit->Some_0@,
        item.key@ != "page"@ ==> f2.page@ == f.page@,
        item.key@ == "label"@ && item.lit is Some ==> f2.label@ == item.lit->Some_0@,
        item.key@ != "label"@ ==> f2.label@ == f.label@,
        item.key@ == "help"@ && item.lit is Some ==> f2.help@ == item.lit->Some_0@,
        item.key@ != "help"@ ==> f2.help@ == f.help@,
        item.key@ == "fieldset"@ ==> opt_view(f2.fieldset) == opt_view(item.lit),
        item.key@ != "fieldset"@ ==> opt_view(f2.fieldset) == opt_view(f.fieldset),
        item.key@ == "class"@ ==> opt_view(f2.class) == opt_view(item.lit),
        item.key@ != "class"@ ==> opt_view(f2.class) == opt_view(f.class),
        item.key@ == "input_type"@ ==> opt_view(f2.input_type) == opt_view(item.lit),
        item.key@ != "input_type"@ ==> opt_view(f2.input_type) == opt_view(f.input_type),
        item.key@ == "prim_type"@ ==> opt_view(f2.prim_type) == opt_view(item.lit),
        item.key@ != "prim_type"@ ==> opt_view(f2.prim_type) == opt_view(f.prim_type),
        item.key@ == "save_as"@ ==> opt_view(f2.save_as) == opt_view(item.lit),
        item.key@ != "save_as"@ ==> opt_view(f2.save_as) == opt_view(f.save_as),
        item.key@ == "hidden"@ ==> f2.hidden,
        item.key@ != "hidden"@ ==> f2.hidden == f.hidden,
{
    let m = src.form_metas@;
    let m2 = src2.form_metas@;
    assert(m2.last() == item);
    assert(m2.drop_last() =~= m);
    assert(m2[m2.len() - 1] == item);
    if item.key@ != "hidden"@ {
        assert(crate::gen::attrs::has_key(m2, "hidden"@) == crate::gen::attrs::has_key(m, "hidden"@)) by {
            if crate::gen::attrs::has_key(m, "hidden"@) {
                let i = choose|i: int| 0 <= i < m.len() && (#[trigger] m[i]).key@ == "hidden"@;
                assert(m2[i] == m[i]);
            }
            if crate::gen::attrs::has_key(m2, "hidden"@) {
                let i = choose|i: int| 0 <= i < m2.len() && (#[trigger] m2[i]).key@ == "hidden"@;
                assert(i < m.len());
                assert(m2[i] == m[i]);
            }
        }
    }
}


// ---------------------------------------------------------------------------
// Saving a page
// ---------------------------------------------------------------------------

proof fn lemma_save_in_saves(fields: Seq<FormField>, j: int)
    requires
        js_saves_spec(fields) is Ok,
        0 <= j < fields.len(),
    ensures
        resolve_spec(fields[j]) is Ok,
        occurs_in(js_save_field_spec(fields[j], resolve_spec(fields[j])->Ok_0.2), js_saves_spec(fields)->Ok_0),
    decreases fields.len(),
{
    let item = js_save_field_spec(fields[0], resolve_spec(fields[0])->Ok_0.2);
    let rest = js_saves_spec(fields.skip(1))->Ok_0;
    assert(js_saves_spec(fields)->Ok_0 == item + rest);
    if j == 0 {
        assert(item + rest =~= around(Seq::empty(), item, rest));
    } else {
        assert(fields.skip(1)[j - 1] == fields[j]);
        lemma_save_in_saves(fields.skip(1), j - 1);
        let x = js_save_field_spec(fields[j], resolve_spec(fields[j])->Ok_0.2);
        lemma_occurs_extend(x, rest, item, Seq::empty());
        assert(item + rest + Seq::<char>::empty() =~= item + rest);
    }
}

proof fn lemma_saves_in_script(page: Seq<char>, fields: Seq<FormField>, x: Seq<char>)
    requires
        js_string_spec(page, fields) is Ok,
        occurs_in(x, js_saves_spec(fields)->Ok_0),
    ensures
        occurs_in(x, js_string_spec(page, fields)->Ok_0),
{
    let id = js_id_spec(page);
    let saves = js_saves_spec(fields)->Ok_0;
    let pre = JS_PAGE_CONST@ + id + JS_ASSIGN_STR@ + escape_js_spec(page) + JS_URL_CONST@ + id + JS_URL_VALUE@ + id
        + JS_LOAD_FN@ + id + JS_LOAD_FETCH@ + id + JS_LOAD_JSON@ + js_loads_spec(fields) + JS_SAVE_FN@ + id
        + JS_SAVE_FORM@ + escape_js_spec(FORM_ID_PREFIX@ + id) + JS_SAVE_DATA@;
    let post = JS_SAVE_FETCH@ + id + JS_SAVE_SEND@ + id + JS_EXPORT_LOAD_A@ + id + JS_EXPORT_LOAD_B@ + id
        + JS_EXPORT_SAVE_A@ + id + JS_EXPORT_SAVE_B@ + id + JS_EXPORT_SAVE_C@ + id + JS_END@;
    lemma_occurs_extend(x, saves, pre, post);
    assert(js_string_spec(page, fields)->Ok_0 =~= pre + saves + post);
}

proof fn lemma_script_in_scripts(pages: Seq<(Seq<char>, Seq<FormField>)>, k: int, x: Seq<char>)
    requires
        scripts_spec(pages) is Ok,
        0 <= k < pages.len(),
        js_string_spec(pages[k].0, pages[k].1) is Ok ==> occurs_in(x, js_string_spec(pages[k].0, pages[k].1)->Ok_0),
    ensures
        js_string_spec(pages[k].0, pages[k].1) is Ok,
        occurs_in(x, scripts_spec(pages)->Ok_0),
    decreases pages.len(),
{
    let h = js_string_spec(pages[0].0, pages[0].1)->Ok_0;
    let rest = scripts_spec(pages.skip(1))->Ok_0;
    assert(scripts_spec(pages)->Ok_0 == h + rest);
    if k == 0 {
        lemma_occurs_extend(x, h, Seq::empty(), rest);
        assert(Seq::<char>::empty() + h + rest =~= h + rest);
    } else {
        assert(pages.skip(1)[k - 1] == pages[k]);
        lemma_script_in_scripts(pages.skip(1), k - 1, x);
        lemma_occurs_extend(x, rest, h, Seq::empty());
        assert(h + rest + Seq::<char>::empty() =~= h + rest);
    }
}

proof fn lemma_field_on_its_page(fields: Seq<FormField>, i: int) -> (j: int)
    requires
        0 <= i < fields.len(),
    ensures
        0 <= j < fields_on(fields, fields[i].page@).len(),
        fields_on(fields, fields[i].page@)[j] == fields[i],
    decreases fields.len(),
{
    let pre = fields.drop_last();
    let n = fields[i].page@;
    if i == fields.len() - 1 {
        assert(fields.last() == fields[i]);
        fields_on(pre, n).len() as int
    } else {
        assert(pre[i] == fields[i]);
        let j = lemma_field_on_its_page(pre, i);
        j
    }
}

/// The page script of every field saves its value by the field's save kind:
/// a `String` field as the form's text (`formData.get(name)??""`), an `Int`
/// field through `parseInt(.., 10)`, a `Float` field through `parseFloat`.
#[verifier::rlimit(50)]
#[verifier::spinoff_prover]
pub proof fn law_fields_saved_by_kind(ui: crate::gen::page::UiAttrs, fields: Seq<FormField>, i: int)
    requires
        config_page_spec(ui, fields) is Ok,
        0 <= i < fields.len(),
    ensures
        resolve_spec(fields[i]) is Ok,
        resolve_spec(fields[i])->Ok_0.2 == SaveKind::String ==> occurs_in(
            "data[\""@ + escape_js_spec(fields[i].name@) + "\"]=formData.get(\""@ + fields[i].name@ + "\")??\"\";"@,
            config_page_spec(ui, fields)->Ok_0,
        ),
        resolve_spec(fields[i])->Ok_0.2 == SaveKind::Int ==> occurs_in(
            "data[\""@ + escape_js_spec(fields[i].name@) + "\"]=parseInt(formData.get(\""@ + fields[i].name@
                + "\"),10);"@,
            config_page_spec(ui, fields)->Ok_0,
        ),
        resolve_spec(fields[i])->Ok_0.2 == SaveKind::Float ==> occurs_in(
            "data[\""@ + escape_js_spec(fields[i].name@) + "\"]=parseFloat(formData.get(\""@ + fields[i].name@
                + "\"));"@,
            config_page_spec(ui, fields)->Ok_0,
        ),
{
    let g = group_pages(fields);
    let f = fields[i];
    law_group_pages_partition(fields);
    let k = choose|k: int| 0 <= k < g.len() && (#[trigger] g[k]).0 == (#[trigger] fields[i]).page@;
    assert(g[k].1 == fields_on(fields, g[k].0));
    let j = lemma_field_on_its_page(fields, i);
    assert(g[k].1[j] == f);
    let doc = full_page_spec(ui, g);
    assert(config_page_spec(ui, fields) == doc);
    let def = default_page_id(ui, g);
    let js = scripts_spec(g)->Ok_0;
    assert(js_string_spec(g[k].0, g[k].1) is Ok) by {
        if js_string_spec(g[k].0, g[k].1) is Ok {
            let s0 = js_string_spec(g[k].0, g[k].1)->Ok_0;
            assert(s0 =~= around(Seq::empty(), Seq::empty(), s0));
        }
        lemma_script_in_scripts(g, k, Seq::empty());
    }
    assert(js_saves_spec(g[k].1) is Ok);
    lemma_save_in_saves(g[k].1, j);
    let kind = resolve_spec(f)->Ok_0.2;
    let x = js_save_field_spec(f, kind);
    lemma_saves_in_script(g[k].0, g[k].1, x);
    lemma_script_in_scripts(g, k, x);
    let head = head_spec(ui) + tab_bar_spec(g, def) + panels_spec(g, def)->Ok_0 + BODY_CLOSE@;
    let end = SCRIPT_BETWEEN@ + CONFIG_PAGE_TAB_SCRIPT@ + DEFAULT_PAGE_OPEN@ + escape_js_spec(def)
        + DEFAULT_PAGE_CLOSE@;
    lemma_occurs_extend(x, js, head, end);
    assert(doc->Ok_0 =~= head + js + end);
    let n = f.name@;
    let nj = escape_js_spec(n);
    reveal_strlit("data[\"");
    reveal_strlit("\"]=formData.get(\"");
    reveal_strlit("\")??\"\";");
    reveal_strlit("\"]=parseInt(formData.get(\"");
    reveal_strlit("\"),10);");
    reveal_strlit("\"]=parseFloat(formData.get(\"");
    reveal_strlit("\"));");
    if kind == SaveKind::String {
        assert(x =~= "data[\""@ + nj + "\"]=formData.get(\""@ + n + "\")??\"\";"@);
    } else if kind == SaveKind::Int {
        assert(x =~= "data[\""@ + nj + "\"]=parseInt(formData.get(\""@ + n + "\"),10);"@);
    } else {
        assert(x =~= "data[\""@ + nj + "\"]=parseFloat(formData.get(\""@ + n + "\"));"@);
    }
}

proof fn lemma_type_names(n: Seq<char>)
    ensures
        (n == "f32"@ || n == "f64"@ || n == "String"@) ==> !crate::gen::form::is_int_type_name(n),
        n == "String"@ ==> n != "f32"@ && n != "f64"@,
{
    reveal_strlit("f32");
    reveal_strlit("f64");
    reveal_strlit("String");
    reveal_strlit("u8");
    reveal_strlit("u16");
    reveal_strlit("u32");
    reveal_strlit("u64");
    reveal_strlit("i8");
    reveal_strlit("i16");
    reveal_strlit("i32");
    reveal_strlit("i64");
    reveal_strlit("usize");
    reveal_strlit("isize");
    if n == "f32"@ || n == "f64"@ {
        assert(n[0] == 'f');
        assert(n.len() == 3);
    }
    if n == "String"@ {
        assert(n.len() == 6);
    }
}

/// The save kind of a field follows its type unless `save_as` names another:
/// `f32` and `f64` fields are numbers saved through `parseFloat`, the integer
/// types numbers saved through `parseInt`, `String` text saved as it is.
pub proof fn law_type_save_kinds(f: FormField)
    requires
        f.prim_type is None,
        f.input_type is None,
        f.save_as is None,
        f.field_type is Some,
    ensures
        f.field_type->Some_0@ == "f32"@ || f.field_type->Some_0@ == "f64"@ ==> resolve_spec(f) == Ok::<
            (Seq<char>, bool, SaveKind),
            Seq<char>,
        >(("number"@, true, SaveKind::Float)),
        f.field_type->Some_0@ == "u16"@ || f.field_type->Some_0@ == "i32"@ || f.field_type->Some_0@ == "u32"@
            || f.field_type->Some_0@ == "u8"@ || f.field_type->Some_0@ == "u64"@ ==> resolve_spec(f) == Ok::<
            (Seq<char>, bool, SaveKind),
            Seq<char>,
        >(("number"@, false, SaveKind::Int)),
        f.field_type->Some_0@ == "String"@ ==> resolve_spec(f) == Ok::<(Seq<char>, bool, SaveKind), Seq<char>>(
            ("text"@, false, SaveKind::String),
        ),
{
    lemma_type_names(f.field_type->Some_0@);
    reveal_strlit("f32");
    reveal_strlit("f64");
    reveal_strlit("String");
    reveal_strlit("u8");
    reveal_strlit("u16");
    reveal_strlit("u32");
    reveal_strlit("u64");
    reveal_strlit("i8");
    reveal_strlit("i16");
    reveal_strlit("i32");
    reveal_strlit("i64");
    reveal_strlit("usize");
    reveal_strlit("isize");
}

/// `save_as` decides the save kind of a field of a known type.
pub proof fn law_save_as_overrides(f: FormField)
    requires
        f.prim_type is None,
        f.field_type is Some,
        f.field_type->Some_0@ == "f32"@,
        f.save_as is Some,
    ensures
        f.save_as->Some_0@ == "int"@ ==> (resolve_spec(f) matches Ok(info) && info.2 == SaveKind::Int),
        f.save_as->Some_0@ == "string"@ ==> (resolve_spec(f) matches Ok(info) && info.2 == SaveKind::String),
        f.save_as->Some_0@ == "float"@ ==> (resolve_spec(f) matches Ok(info) && info.2 == SaveKind::Float),
{
    lemma_type_names(f.field_type->Some_0@);
    reveal_strlit("f32");
    reveal_strlit("int");
    reveal_strlit("string");
    reveal_strlit("float");
    let s = f.save_as->Some_0@;
    if s == "int"@ {
        assert(s.len() == 3);
    }
    if s == "float"@ {
        assert(s.len() == 5);
    }
}


/// A field of unknown type takes its save kind from its explicit input type:
/// `number` and `range` inputs save through `parseInt`, every other input as
/// text; without an input type the field is refused.
pub proof fn law_input_type_save_kind(f: FormField)
    requires
        f.prim_type is None,
        f.field_type is None,
        f.save_as is None,
    ensures
        f.input_type is None ==> resolve_spec(f) is Err,
        f.input_type matches Some(it) && (it@ == "number"@ || it@ == "range"@) ==> resolve_spec(f) == Ok::<
            (Seq<char>, bool, SaveKind),
            Seq<char>,
        >((f.input_type->Some_0@, false, SaveKind::Int)),
        f.input_type matches Some(it) && it@ != "number"@ && it@ != "range"@ ==> resolve_spec(f) == Ok::<
            (Seq<char>, bool, SaveKind),
            Seq<char>,
        >((f.input_type->Some_0@, false, SaveKind::String)),
{
}

/// An explicit input type changes how a field of known type is shown, not how
/// it is saved.
pub proof fn law_input_type_keeps_type_save_kind(f: FormField)
    requires
        f.prim_type is None,
        f.save_as is None,
        f.field_type is Some,
        f.field_type->Some_0@ == "f32"@,
        f.input_type is Some,
    ensures
        resolve_spec(f) == Ok::<(Seq<char>, bool, SaveKind), Seq<char>>(
            (f.input_type->Some_0@, true, SaveKind::Float),
        ),
{
    lemma_type_names(f.field_type->Some_0@);
}

/// The form holds exactly the fields that carry `#[config_form]` without
/// `skip`, in declaration order.
pub proof fn law_form_inputs_exact(fields: Seq<FieldInput>)
    ensures
        forall|k: int|
            0 <= k < form_inputs(fields).len() ==> (#[trigger] form_inputs(fields)[k]).has_config_form && !has_key(
                form_inputs(fields)[k].form_metas@,
                "skip"@,
            ),
        forall|i: int|
            0 <= i < fields.len() && (#[trigger] fields[i]).has_config_form && !has_key(fields[i].form_metas@, "skip"@)
                ==> form_inputs(fields).contains(fields[i]),
    decreases fields.len(),
{
    if fields.len() > 0 {
        let pre = fields.drop_last();
        law_form_inputs_exact(pre);
        let p = form_inputs(pre);
        let r = form_inputs(fields);
        if on_form(fields.last()) {
            assert(r == p.push(fields.last()));
            assert forall|k: int| 0 <= k < r.len() implies (#[trigger] r[k]).has_config_form && !has_key(
                r[k].form_metas@,
                "skip"@,
            ) by {
                if k < p.len() {
                    assert(r[k] == p[k]);
                }
            }
        }
        assert forall|i: int|
            0 <= i < fields.len() && (#[trigger] fields[i]).has_config_form && !has_key(fields[i].form_metas@, "skip"@)
                implies r.contains(fields[i]) by {
            if i < pre.len() {
                assert(pre[i] == fields[i]);
                let k = choose|k: int| 0 <= k < p.len() && p[k] == pre[i];
                if on_form(fields.last()) {
                    assert(r[k] == p[k]);
                }
            } else {
                assert(fields.last() == fields[i]);
                assert(r[r.len() - 1] == fields[i]);
            }
        }
    }
}

/// `/`, with or without a query, is the config page.
pub proof fn law_root_route(query: Option<Seq<char>>, r: Route)
    requires
        route_matches(
            match query {
                Some(q) => "/"@ + seq!['?'] + q,
                None => "/"@,
            },
            r,
        ),
    ensures
        r is ConfigPage,
{
    reveal_strlit("/");
    let path = "/"@;
    let full = match query {
        Some(q) => path + seq!['?'] + q,
        None => path,
    };
    lemma_first_index_of(full, '?');
    match query {
        Some(q) => {
            assert(full[1] == '?');
            assert(full[0] == '/');
            match first_index_of(full, '?') {
                Some(k) => {
                    assert(k == 1);
                    assert(full.take(k) =~= path);
                },
                None => {},
            }
        },
        None => {},
    }
    assert(path_only_spec(full) == path);
}

/// The mount's failure paths: a magic that does not decode formats the store,
/// an I/O error reading it fails without formatting, and an error of the
/// format, of the reread or of the version read fails the mount with that
/// error; a magic missing after formatting fails with `Backend`.
pub proof fn law_mount_failures(params: ConfigStorageParams, e: ConfigError, m: u32, a: MountAction)
    ensures
        mount_step_spec(params, MountEvent::MagicRead(Err(ConfigError::InvalidData)), a) ==> a is Format,
        mount_step_spec(params, MountEvent::MagicRead(Err(ConfigError::Utf8)), a) ==> a is Format,
        mount_step_spec(params, MountEvent::MagicRead(Err(ConfigError::Backend)), a) ==> a == MountAction::Fail(
            ConfigError::Backend,
        ),
        mount_step_spec(params, MountEvent::Formatted(Err(e)), a) ==> a == MountAction::Fail(e),
        mount_step_spec(params, MountEvent::MagicReread(Err(e)), a) ==> a == MountAction::Fail(e),
        mount_step_spec(params, MountEvent::MagicReread(Ok(None)), a) ==> a == MountAction::Fail(ConfigError::Backend),
        mount_step_spec(params, MountEvent::VersionRead(m, Err(e)), a) ==> a == MountAction::Fail(e),
{
}

} // verus!
