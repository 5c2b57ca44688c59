//! The config form page of a `WifiCaddyConfig` struct: the whole HTML document
//! (head, tab bar, one form per page, per-page load/save scripts) as one string.
use vstd::prelude::*;
use crate::strs::{push_char, str_eq};
use crate::text::{escape_html, escape_html_spec, escape_js_spec, escape_js_str, js_id_spec, page_name_to_js_id};

verus! {

/// How a field's value is sent back when its page is saved.
#[derive(Clone, Copy, PartialEq, Eq, Structural, Debug)]
pub enum SaveKind {
    /// Sent as the form's string.
    String,
    /// Sent through `parseInt(.., 10)`.
    Int,
    /// Sent through `parseFloat(..)`.
    Float,
}

/// Form information for a known field type.
pub struct TypeInfo {
    /// The `<input type=..>` used for the field.
    pub input_type: &'static str,
    /// Whether the input accepts any step (floating-point types).
    pub is_float: bool,
    /// How the value is sent back.
    pub save_kind: SaveKind,
}

/// Whether `n` names one of the integer types.
pub open spec fn is_int_type_name(n: Seq<char>) -> bool {
    n == "u8"@ || n == "u16"@ || n == "u32"@ || n == "u64"@ || n == "i8"@ || n == "i16"@ || n
        == "i32"@ || n == "i64"@ || n == "usize"@ || n == "isize"@
}

/// Form information for a type name: input type, float flag and save kind.
pub open spec fn known_type_spec(n: Seq<char>) -> Option<(Seq<char>, bool, SaveKind)> {
    if is_int_type_name(n) {
        Some(("number"@, false, SaveKind::Int))
    } else if n == "f32"@ || n == "f64"@ {
        Some(("number"@, true, SaveKind::Float))
    } else if n == "String"@ {
        Some(("text"@, false, SaveKind::String))
    } else {
        None
    }
}

/// The view of a [`TypeInfo`].
pub open spec fn type_info_view(t: TypeInfo) -> (Seq<char>, bool, SaveKind) {
    (t.input_type@, t.is_float, t.save_kind)
}

/// Form information for the integer, float and `String` types.
pub fn known_type_info_by_name(name: &str) -> (r: Option<TypeInfo>)
    ensures
        match known_type_spec(name@) {
            Some(t) => r matches Some(info) && type_info_view(info) == t,
            None => r is None,
        },
{
    if str_eq(name, "u8") || str_eq(name, "u16") || str_eq(name, "u32") || str_eq(name, "u64")
        || str_eq(name, "i8") || str_eq(name, "i16") || str_eq(name, "i32") || str_eq(name, "i64")
        || str_eq(name, "usize") || str_eq(name, "isize") {
        Some(TypeInfo { input_type: "number", is_float: false, save_kind: SaveKind::Int })
    } else if str_eq(name, "f32") || str_eq(name, "f64") {
        Some(TypeInfo { input_type: "number", is_float: true, save_kind: SaveKind::Float })
    } else if str_eq(name, "String") {
        Some(TypeInfo { input_type: "text", is_float: false, save_kind: SaveKind::String })
    } else {
        None
    }
}

/// The save kind named by a `save_as` attribute value.
pub open spec fn save_as_spec(s: Seq<char>) -> Option<SaveKind> {
    if s == "string"@ {
        Some(SaveKind::String)
    } else if s == "int"@ {
        Some(SaveKind::Int)
    } else if s == "float"@ {
        Some(SaveKind::Float)
    } else {
        None
    }
}

/// Parses a `save_as = "string" | "int" | "float"` value.
pub fn parse_save_as(s: &str) -> (r: Option<SaveKind>)
    ensures
        r == save_as_spec(s@),
{
    if str_eq(s, "string") {
        Some(SaveKind::String)
    } else if str_eq(s, "int") {
        Some(SaveKind::Int)
    } else if str_eq(s, "float") {
        Some(SaveKind::Float)
    } else {
        None
    }
}

/// The save kind implied by an explicit input type.
pub open spec fn infer_save_kind_spec(input_type: Seq<char>) -> SaveKind {
    if input_type == "number"@ || input_type == "range"@ {
        SaveKind::Int
    } else {
        SaveKind::String
    }
}

/// `number` and `range` inputs save as integers, everything else as strings.
pub fn infer_save_kind(input_type: &str) -> (r: SaveKind)
    ensures
        r == infer_save_kind_spec(input_type@),
{
    if str_eq(input_type, "number") || str_eq(input_type, "range") {
        SaveKind::Int
    } else {
        SaveKind::String
    }
}

/// One form field, as parsed from a struct field and its `#[config_form(...)]`.
pub struct FormField {
    /// Field name (also the input's id and name).
    pub name: String,
    /// Page (config group) the field is shown on.
    pub page: String,
    /// Fieldset legend grouping consecutive fields, if any.
    pub fieldset: Option<String>,
    /// Rendered as a hidden input.
    pub hidden: bool,
    /// Label text.
    pub label: String,
    /// Help text under the input.
    pub help: String,
    /// Extra CSS class for the input.
    pub class: Option<String>,
    /// Last path segment of the field's type (`None` if the type is not a path).
    pub field_type: Option<String>,
    /// `min` attribute value.
    pub min: Option<String>,
    /// `max` attribute value.
    pub max: Option<String>,
    /// Explicit `<input type=..>`.
    pub input_type: Option<String>,
    /// Type name to use for the form information instead of the field's type.
    pub prim_type: Option<String>,
    /// Explicit save kind (`string`, `int`, `float`).
    pub save_as: Option<String>,
}

/// The view of an optional string.
pub open spec fn opt_view(o: Option<String>) -> Option<Seq<char>> {
    match o {
        Some(s) => Some(s@),
        None => None,
    }
}

/// The resolved input type, float flag and save kind of a field.
pub struct ResolvedInfo {
    /// The `<input type=..>`.
    pub input_type: String,
    /// Whether the input accepts any step.
    pub is_float: bool,
    /// How the value is sent back.
    pub save_kind: SaveKind,
}

/// The error for a field whose type has no form information.
pub open spec fn unrecognized_type_msg(name: Seq<char>) -> Seq<char> {
    "field `"@ + name + "` has unrecognized type; add #[config_form(input_type = \"...\")] or #[config_form(prim_type = \"...\")]"@
}

/// The form information of the field's `prim_type`, else of its type.
pub open spec fn base_info_spec(f: FormField) -> Option<(Seq<char>, bool, SaveKind)> {
    let from_prim = match f.prim_type {
        Some(p) => known_type_spec(p@),
        None => None,
    };
    match from_prim {
        Some(t) => Some(t),
        None => match f.field_type {
            Some(t) => known_type_spec(t@),
            None => None,
        },
    }
}

/// The save kind named by the field's `save_as`, if any.
pub open spec fn field_save_as(f: FormField) -> Option<SaveKind> {
    match f.save_as {
        Some(s) => save_as_spec(s@),
        None => None,
    }
}

/// Input type, float flag and save kind of a field: from its known type (an
/// explicit `input_type` or `save_as` overriding), otherwise from its explicit
/// `input_type`, which is then required.
pub open spec fn resolve_spec(f: FormField) -> Result<(Seq<char>, bool, SaveKind), Seq<char>> {
    match base_info_spec(f) {
        Some(info) => Ok(
            (
                match f.input_type {
                    Some(it) => it@,
                    None => info.0,
                },
                info.1,
                match field_save_as(f) {
                    Some(k) => k,
                    None => info.2,
                },
            ),
        ),
        None => match f.input_type {
            None => Err(unrecognized_type_msg(f.name@)),
            Some(it) => {
                let k = match field_save_as(f) {
                    Some(k) => k,
                    None => infer_save_kind_spec(it@),
                };
                Ok((it@, k == SaveKind::Float, k))
            },
        },
    }
}

/// The view of a [`ResolvedInfo`].
pub open spec fn resolved_view(r: ResolvedInfo) -> (Seq<char>, bool, SaveKind) {
    (r.input_type@, r.is_float, r.save_kind)
}

/// An optional string argument as a string slice option.
fn opt_str(o: &Option<String>) -> (r: Option<&str>)
    ensures
        match o {
            Some(s) => r matches Some(x) && x@ == s@,
            None => r is None,
        },
{
    match o {
        Some(s) => Some(s.as_str()),
        None => None,
    }
}

/// Resolves the input type, float flag and save kind of a field.
pub fn resolve_field_info(f: &FormField) -> (r: Result<ResolvedInfo, String>)
    ensures
        match resolve_spec(*f) {
            Ok(t) => r matches Ok(info) && resolved_view(info) == t,
            Err(e) => r matches Err(m) && m@ == e,
        },
{
    let from_prim = match opt_str(&f.prim_type) {
        Some(p) => known_type_info_by_name(p),
        None => None,
    };
    let base = match from_prim {
        Some(t) => Some(t),
        None => match opt_str(&f.field_type) {
            Some(t) => known_type_info_by_name(t),
            None => None,
        },
    };
    let save_as = match opt_str(&f.save_as) {
        Some(s) => parse_save_as(s),
        None => None,
    };
    match base {
        Some(info) => {
            let input_type = match opt_str(&f.input_type) {
                Some(it) => it.to_owned(),
                None => info.input_type.to_owned(),
            };
            let save_kind = match save_as {
                Some(k) => k,
                None => info.save_kind,
            };
            Ok(ResolvedInfo { input_type, is_float: info.is_float, save_kind })
        },
        None => match opt_str(&f.input_type) {
            None => {
                let mut msg = "field `".to_owned();
                msg.append(f.name.as_str());
                msg.append("` has unrecognized type; add #[config_form(input_type = \"...\")] or #[config_form(prim_type = \"...\")]");
                Err(msg)
            },
            Some(it) => {
                let save_kind = match save_as {
                    Some(k) => k,
                    None => infer_save_kind(it),
                };
                Ok(ResolvedInfo {
                    input_type: it.to_owned(),
                    is_float: save_kind == SaveKind::Float,
                    save_kind,
                })
            },
        },
    }
}


// ---------------------------------------------------------------------------
// Form body HTML
// ---------------------------------------------------------------------------

/// Start of a visible field's wrapper, up to the field name in its class.
pub const FIELD_WRAPPER_OPEN: &'static str = "<div class=\"config-form-group config-form-field-";
/// Between the wrapper class and the label's `for`.
pub const FIELD_LABEL_OPEN: &'static str = "\"><label for=\"";
/// Rest of the label opening tag.
pub const FIELD_LABEL_REST: &'static str = "\" class=\"config-form-label\" style=\"color:var(--config-form-label-color,#555)\">";
/// Between the label text and the input's type.
pub const FIELD_INPUT_OPEN: &'static str = "</label><input type=\"";
/// Closing quote of an attribute.
pub const ATTR_QUOTE: &'static str = "\"";
/// Float inputs accept any step.
pub const STEP_ANY: &'static str = " step=\"any\"";
/// Non-password inputs are required.
pub const REQUIRED: &'static str = " required";
/// Start of the input's id.
pub const FIELD_ID: &'static str = " id=\"";
/// Between the input's id and its name.
pub const FIELD_NAME: &'static str = "\" name=\"";
/// Between the input's name and its per-field class.
pub const FIELD_CLASS: &'static str = "\" class=\"config-form-input config-form-input-";
/// Between the input's classes and its optional `min`/`max`.
pub const FIELD_STYLE: &'static str = "\" style=\"border:var(--config-form-input-border,2px solid #ddd)\"";
/// Start of a `min` attribute.
pub const MIN_ATTR: &'static str = " min=\"";
/// Start of a `max` attribute.
pub const MAX_ATTR: &'static str = " max=\"";
/// Between the input and the help text.
pub const FIELD_HELP: &'static str = "><div class=\"config-form-help\" style=\"color:var(--config-form-help-color,#888)\">";
/// End of a visible field.
pub const FIELD_CLOSE: &'static str = "</div></div>";
/// Start of a hidden input, up to its id.
pub const HIDDEN_OPEN: &'static str = "<input type=\"hidden\" id=\"";
/// End of a hidden input.
pub const HIDDEN_CLOSE: &'static str = "\">";
/// Start of a fieldset, up to its legend text.
pub const FIELDSET_OPEN: &'static str = "<fieldset class=\"config-form-fieldset\" style=\"border:var(--config-form-fieldset-border,2px solid #e0e0e0)\"><legend class=\"config-form-legend\" style=\"color:var(--config-form-legend-color,#667eea)\">";
/// End of a fieldset's legend.
pub const LEGEND_CLOSE: &'static str = "</legend>";
/// End of a fieldset.
pub const FIELDSET_CLOSE: &'static str = "</fieldset>";
/// Opening of the form body.
pub const FORM_BODY_OPEN: &'static str = "<div class=\"config-form\">";
/// Closing `</div>`.
pub const DIV_END: &'static str = "</div>";

/// An optional attribute: `prefix`, the escaped value and a closing quote.
pub open spec fn opt_attr_spec(prefix: Seq<char>, v: Option<String>) -> Seq<char> {
    match v {
        Some(s) => prefix + escape_html_spec(s@) + ATTR_QUOTE@,
        None => Seq::empty(),
    }
}

/// The HTML of a visible field.
pub open spec fn visible_input_spec(f: FormField, info: (Seq<char>, bool, SaveKind)) -> Seq<char> {
    let name = f.name@;
    let field_class = match f.class {
        Some(c) => seq![' '] + escape_html_spec(c@),
        None => Seq::empty(),
    };
    let req = if opt_view(f.input_type) == Some("password"@) {
        Seq::empty()
    } else {
        REQUIRED@
    };
    FIELD_WRAPPER_OPEN@ + name + FIELD_LABEL_OPEN@ + name + FIELD_LABEL_REST@ + escape_html_spec(
        f.label@,
    ) + FIELD_INPUT_OPEN@ + info.0 + ATTR_QUOTE@ + (if info.1 {
        STEP_ANY@
    } else {
        Seq::empty()
    }) + req + FIELD_ID@ + name + FIELD_NAME@ + name + FIELD_CLASS@ + name + field_class
        + FIELD_STYLE@ + opt_attr_spec(MIN_ATTR@, f.min) + opt_attr_spec(MAX_ATTR@, f.max)
        + FIELD_HELP@ + escape_html_spec(f.help@) + FIELD_CLOSE@
}

/// The HTML of a hidden field.
pub open spec fn hidden_input_spec(f: FormField) -> Seq<char> {
    let n = escape_html_spec(f.name@);
    HIDDEN_OPEN@ + n + FIELD_NAME@ + n + HIDDEN_CLOSE@
}

/// The opening of a fieldset with the given legend.
pub open spec fn fieldset_open_spec(legend: Seq<char>) -> Seq<char> {
    FIELDSET_OPEN@ + escape_html_spec(legend) + LEGEND_CLOSE@
}

/// What is written when the current fieldset changes from `cur` to `next`.
pub open spec fn fieldset_transition(cur: Option<Seq<char>>, next: Option<Seq<char>>) -> Seq<char> {
    if cur != next {
        (if cur is Some {
            FIELDSET_CLOSE@
        } else {
            Seq::empty()
        }) + match next {
            Some(l) => fieldset_open_spec(l),
            None => Seq::empty(),
        }
    } else {
        Seq::empty()
    }
}

/// The HTML of one field (hidden, or visible with its resolved information).
pub open spec fn field_item_spec(f: FormField) -> Result<Seq<char>, Seq<char>> {
    if f.hidden {
        Ok(hidden_input_spec(f))
    } else {
        match resolve_spec(f) {
            Ok(info) => Ok(visible_input_spec(f, info)),
            Err(e) => Err(e),
        }
    }
}

/// `p` prepended to a successful result.
pub open spec fn prepend(p: Seq<char>, r: Result<Seq<char>, Seq<char>>) -> Result<Seq<char>, Seq<char>> {
    match r {
        Ok(x) => Ok(p + x),
        Err(e) => Err(e),
    }
}

/// The HTML of the fields, with fieldsets opened and closed as consecutive fields
/// change fieldset, starting with `cur` as the open fieldset; fails with the
/// error of the first visible field whose type cannot be resolved.
pub open spec fn fields_html_spec(fields: Seq<FormField>, cur: Option<Seq<char>>) -> Result<Seq<char>, Seq<char>>
    decreases fields.len(),
{
    if fields.len() == 0 {
        Ok(
            if cur is Some {
                FIELDSET_CLOSE@
            } else {
                Seq::empty()
            },
        )
    } else {
        let f = fields[0];
        let fs = opt_view(f.fieldset);
        match field_item_spec(f) {
            Err(e) => Err(e),
            Ok(item) => prepend(
                fieldset_transition(cur, fs) + item,
                fields_html_spec(fields.skip(1), fs),
            ),
        }
    }
}

/// The form body of a page.
pub open spec fn html_string_spec(fields: Seq<FormField>) -> Result<Seq<char>, Seq<char>> {
    match fields_html_spec(fields, None) {
        Ok(b) => Ok(FORM_BODY_OPEN@ + b + DIV_END@),
        Err(e) => Err(e),
    }
}

/// Appends an escaped optional attribute.
fn push_opt_attr(out: &mut String, prefix: &str, v: &Option<String>)
    ensures
        final(out)@ == old(out)@ + opt_attr_spec(prefix@, *v),
{
    match v {
        Some(s) => {
            out.append(prefix);
            let e = escape_html(s.as_str());
            out.append(e.as_str());
            out.append(ATTR_QUOTE);
        },
        None => {},
    }
}

/// The HTML of a visible field.
pub fn gen_visible_input_html(f: &FormField, info: &ResolvedInfo) -> (r: String)
    ensures
        r@ == visible_input_spec(*f, resolved_view(*info)),
{
    let name = f.name.as_str();
    let mut out = FIELD_WRAPPER_OPEN.to_owned();
    out.append(name);
    out.append(FIELD_LABEL_OPEN);
    out.append(name);
    out.append(FIELD_LABEL_REST);
    let label = escape_html(f.label.as_str());
    out.append(label.as_str());
    out.append(FIELD_INPUT_OPEN);
    out.append(info.input_type.as_str());
    out.append(ATTR_QUOTE);
    if info.is_float {
        out.append(STEP_ANY);
    }
    let is_password = match opt_str(&f.input_type) {
        Some(it) => str_eq(it, "password"),
        None => false,
    };
    if !is_password {
        out.append(REQUIRED);
    }
    out.append(FIELD_ID);
    out.append(name);
    out.append(FIELD_NAME);
    out.append(name);
    out.append(FIELD_CLASS);
    out.append(name);
    match opt_str(&f.class) {
        Some(c) => {
            push_char(&mut out, ' ');
            let e = escape_html(c);
            out.append(e.as_str());
        },
        None => {},
    }
    out.append(FIELD_STYLE);
    push_opt_attr(&mut out, MIN_ATTR, &f.min);
    push_opt_attr(&mut out, MAX_ATTR, &f.max);
    out.append(FIELD_HELP);
    let help = escape_html(f.help.as_str());
    out.append(help.as_str());
    out.append(FIELD_CLOSE);
    proof {
        assert(out@ =~= visible_input_spec(*f, resolved_view(*info)));
    }
    out
}

/// Whether two optional strings are equal.
fn opt_str_eq(a: Option<&str>, b: Option<&str>) -> (r: bool)
    ensures
        r == (match (a, b) {
            (Some(x), Some(y)) => x@ == y@,
            (None, None) => true,
            _ => false,
        }),
{
    match (a, b) {
        (Some(x), Some(y)) => str_eq(x, y),
        (None, None) => true,
        _ => false,
    }
}

/// The view of an optional string slice.
pub open spec fn opt_str_view(o: Option<&str>) -> Option<Seq<char>> {
    match o {
        Some(s) => Some(s@),
        None => None,
    }
}

/// Appends the fieldset transition from `cur` and the HTML of field `f`.
fn push_field(out: &mut String, cur: Option<&str>, f: &FormField) -> (r: Result<(), String>)
    ensures
        match field_item_spec(*f) {
            Ok(item) => r is Ok && final(out)@ == old(out)@ + fieldset_transition(
                opt_str_view(cur),
                opt_view(f.fieldset),
            ) + item,
            Err(e) => r matches Err(m) && m@ == e,
        },
{
    let fs = opt_str(&f.fieldset);
    if !opt_str_eq(cur, fs) {
        if cur.is_some() {
            out.append(FIELDSET_CLOSE);
        }
        match fs {
            Some(legend) => {
                out.append(FIELDSET_OPEN);
                let e = escape_html(legend);
                out.append(e.as_str());
                out.append(LEGEND_CLOSE);
            },
            None => {},
        }
    }
    let ghost mid = out@;
    proof {
        assert(mid =~= old(out)@ + fieldset_transition(opt_str_view(cur), opt_view(f.fieldset)));
    }
    if f.hidden {
        let mut item = HIDDEN_OPEN.to_owned();
        let n = escape_html(f.name.as_str());
        item.append(n.as_str());
        item.append(FIELD_NAME);
        item.append(n.as_str());
        item.append(HIDDEN_CLOSE);
        out.append(item.as_str());
    } else {
        match resolve_field_info(f) {
            Ok(info) => {
                let item = gen_visible_input_html(f, &info);
                out.append(item.as_str());
            },
            Err(e) => {
                return Err(e);
            },
        }
    }
    Ok(())
}

/// The form body HTML of one page: fields in order, consecutive fields with the
/// same fieldset grouped in one `<fieldset>`.
pub fn gen_html_string(fields: &Vec<FormField>) -> (r: Result<String, String>)
    ensures
        match html_string_spec(fields@) {
            Ok(h) => r matches Ok(s) && s@ == h,
            Err(e) => r matches Err(m) && m@ == e,
        },
{
    let mut out = FORM_BODY_OPEN.to_owned();
    let mut cur: Option<&str> = None;
    let mut i: usize = 0;
    proof {
        assert(fields@.skip(0) =~= fields@);
    }
    while i < fields.len()
        invariant
            i <= fields.len(),
            html_string_spec(fields@) == (match fields_html_spec(fields@.skip(i as int), opt_str_view(cur)) {
                Ok(b) => Ok(out@ + b + DIV_END@),
                Err(e) => Err(e),
            }),
        decreases fields.len() - i,
    {
        let f = &fields[i];
        let ghost rest = fields@.skip(i as int);
        let ghost before = out@;
        let ghost old_cur = opt_str_view(cur);
        proof {
            assert(rest[0] == *f);
            assert(rest.skip(1) =~= fields@.skip(i + 1));
        }
        match push_field(&mut out, cur, f) {
            Ok(()) => {},
            Err(e) => {
                return Err(e);
            },
        }
        cur = opt_str(&f.fieldset);
        proof {
            let trans = fieldset_transition(old_cur, opt_view(f.fieldset));
            let item = field_item_spec(*f)->Ok_0;
            assert forall|b2: Seq<char>| before + (trans + item + b2) + DIV_END@ =~= out@ + b2 + DIV_END@ by {}
        }
        i = i + 1;
    }
    if cur.is_some() {
        out.append(FIELDSET_CLOSE);
    }
    out.append(DIV_END);
    proof {
        assert(fields@.skip(fields@.len() as int) =~= Seq::<FormField>::empty());
    }
    Ok(out)
}

// ---------------------------------------------------------------------------
// Per-page load/save script
// ---------------------------------------------------------------------------

/// Start of a page's script: its group constant name.
pub const JS_PAGE_CONST: &'static str = "const CONFIG_PAGE_";
/// Between the group constant name and its value.
pub const JS_ASSIGN_STR: &'static str = "=\"";
/// Between the group constant value and the URL constant name.
pub const JS_URL_CONST: &'static str = "\";const CONFIG_URL_";
/// The URL constant's value, up to the group constant name.
pub const JS_URL_VALUE: &'static str = "=\"/config-group/\"+CONFIG_PAGE_";
/// Start of the load function, up to its page id.
pub const JS_LOAD_FN: &'static str = ";async function loadConfig_";
/// The load function's fetch, up to the URL constant's page id.
pub const JS_LOAD_FETCH: &'static str = "(){const response=await fetch(CONFIG_URL_";
/// Rest of the load function's fetch.
pub const JS_LOAD_JSON: &'static str = ");if(!response.ok)throw new Error(\"HTTP \"+response.status);const data=await response.json();";
/// Start of one field's load statement, up to the element id.
pub const JS_LOAD_FIELD_A: &'static str = "var el=document.getElementById(\"";
/// Between the element id and the data key.
pub const JS_LOAD_FIELD_B: &'static str = "\");if(el)el.value=data[\"";
/// Between the data key and its repetition.
pub const JS_LOAD_FIELD_C: &'static str = "\"]!==undefined?String(data[\"";
/// End of one field's load statement.
pub const JS_LOAD_FIELD_D: &'static str = "\"]):\"\";";
/// End of the load function and start of the save function, up to its page id.
pub const JS_SAVE_FN: &'static str = "} async function saveConfig_";
/// The save function's form lookup, up to the form id.
pub const JS_SAVE_FORM: &'static str = "(){const form=document.getElementById(\"";
/// Rest of the save function's preamble.
pub const JS_SAVE_DATA: &'static str = "\");if(!form)return;const formData=new FormData(form);const data={};";
/// Start of one field's save statement, up to the data key.
pub const JS_SAVE_FIELD: &'static str = "data[\"";
/// A string field's value.
pub const JS_SAVE_STRING_A: &'static str = "\"]=formData.get(\"";
/// End of a string field's save statement.
pub const JS_SAVE_STRING_B: &'static str = "\")??\"\";";
/// An integer field's value.
pub const JS_SAVE_INT_A: &'static str = "\"]=parseInt(formData.get(\"";
/// End of an integer field's save statement.
pub const JS_SAVE_INT_B: &'static str = "\"),10);";
/// A float field's value.
pub const JS_SAVE_FLOAT_A: &'static str = "\"]=parseFloat(formData.get(\"";
/// End of a float field's save statement.
pub const JS_SAVE_FLOAT_B: &'static str = "\"));";
/// The save request, up to the URL constant's page id.
pub const JS_SAVE_FETCH: &'static str = "const response=await fetch(CONFIG_URL_";
/// Rest of the save request, up to the load function's export.
pub const JS_SAVE_SEND: &'static str = "+\"?set=\"+encodeURIComponent(JSON.stringify(data)),{method:\"GET\"});if(!response.ok)throw new Error(await response.text()||\"HTTP \"+response.status);};window.loadConfig_";
/// Export pieces of the load and save functions.
pub const JS_EXPORT_LOAD_A: &'static str = "=window.loadConfig_";
/// Export pieces of the load and save functions.
pub const JS_EXPORT_LOAD_B: &'static str = "||loadConfig_";
/// Export pieces of the load and save functions.
pub const JS_EXPORT_SAVE_A: &'static str = ";window.saveConfig_";
/// Export pieces of the load and save functions.
pub const JS_EXPORT_SAVE_B: &'static str = "=window.saveConfig_";
/// Export pieces of the load and save functions.
pub const JS_EXPORT_SAVE_C: &'static str = "||saveConfig_";
/// End of a page's script.
pub const JS_END: &'static str = ";";
/// Prefix of a page's form id.
pub const FORM_ID_PREFIX: &'static str = "configForm-";

/// One field's load statement.
pub open spec fn js_load_field_spec(f: FormField) -> Seq<char> {
    let nj = escape_js_spec(f.name@);
    JS_LOAD_FIELD_A@ + f.name@ + JS_LOAD_FIELD_B@ + nj + JS_LOAD_FIELD_C@ + nj + JS_LOAD_FIELD_D@
}

/// The load statements of the fields, in order.
pub open spec fn js_loads_spec(fields: Seq<FormField>) -> Seq<char>
    decreases fields.len(),
{
    if fields.len() == 0 {
        Seq::empty()
    } else {
        js_loads_spec(fields.drop_last()) + js_load_field_spec(fields.last())
    }
}

/// One field's save statement for its save kind.
pub open spec fn js_save_field_spec(f: FormField, k: SaveKind) -> Seq<char> {
    let nj = escape_js_spec(f.name@);
    match k {
        SaveKind::String => JS_SAVE_FIELD@ + nj + JS_SAVE_STRING_A@ + f.name@ + JS_SAVE_STRING_B@,
        SaveKind::Int => JS_SAVE_FIELD@ + nj + JS_SAVE_INT_A@ + f.name@ + JS_SAVE_INT_B@,
        SaveKind::Float => JS_SAVE_FIELD@ + nj + JS_SAVE_FLOAT_A@ + f.name@ + JS_SAVE_FLOAT_B@,
    }
}

/// The save statements of the fields, in order; fails with the first field
/// whose type cannot be resolved.
pub open spec fn js_saves_spec(fields: Seq<FormField>) -> Result<Seq<char>, Seq<char>>
    decreases fields.len(),
{
    if fields.len() == 0 {
        Ok(Seq::empty())
    } else {
        match resolve_spec(fields[0]) {
            Err(e) => Err(e),
            Ok(info) => prepend(js_save_field_spec(fields[0], info.2), js_saves_spec(fields.skip(1))),
        }
    }
}

/// The script of one page: the group and URL constants, `loadConfig_<id>` filling
/// every field from the group's JSON, and `saveConfig_<id>` sending the page's
/// form as JSON in the `set` query parameter, both exported on `window`.
pub open spec fn js_string_spec(page: Seq<char>, fields: Seq<FormField>) -> Result<Seq<char>, Seq<char>> {
    let id = js_id_spec(page);
    match js_saves_spec(fields) {
        Err(e) => Err(e),
        Ok(saves) => Ok(
            JS_PAGE_CONST@ + id + JS_ASSIGN_STR@ + escape_js_spec(page) + JS_URL_CONST@ + id
                + JS_URL_VALUE@ + id + JS_LOAD_FN@ + id + JS_LOAD_FETCH@ + id + JS_LOAD_JSON@
                + js_loads_spec(fields) + JS_SAVE_FN@ + id + JS_SAVE_FORM@ + escape_js_spec(
                FORM_ID_PREFIX@ + id,
            ) + JS_SAVE_DATA@ + saves + JS_SAVE_FETCH@ + id + JS_SAVE_SEND@ + id
                + JS_EXPORT_LOAD_A@ + id + JS_EXPORT_LOAD_B@ + id + JS_EXPORT_SAVE_A@ + id
                + JS_EXPORT_SAVE_B@ + id + JS_EXPORT_SAVE_C@ + id + JS_END@,
        ),
    }
}

/// The save statements of the fields.
fn gen_js_saves(fields: &Vec<FormField>) -> (r: Result<String, String>)
    ensures
        match js_saves_spec(fields@) {
            Ok(h) => r matches Ok(s) && s@ == h,
            Err(e) => r matches Err(m) && m@ == e,
        },
{
    let mut out = String::new();
    let mut i: usize = 0;
    proof {
        assert(fields@.skip(0) =~= fields@);
        assert(out@ =~= Seq::<char>::empty());
    }
    while i < fields.len()
        invariant
            i <= fields.len(),
            js_saves_spec(fields@) == prepend(out@, js_saves_spec(fields@.skip(i as int))),
        decreases fields.len() - i,
    {
        let f = &fields[i];
        let ghost rest = fields@.skip(i as int);
        let ghost before = out@;
        proof {
            assert(rest[0] == *f);
            assert(rest.skip(1) =~= fields@.skip(i + 1));
        }
        let info = match resolve_field_info(f) {
            Ok(info) => info,
            Err(e) => {
                return Err(e);
            },
        };
        let nj = escape_js_str(f.name.as_str());
        out.append(JS_SAVE_FIELD);
        out.append(nj.as_str());
        match info.save_kind {
            SaveKind::String => {
                out.append(JS_SAVE_STRING_A);
                out.append(f.name.as_str());
                out.append(JS_SAVE_STRING_B);
            },
            SaveKind::Int => {
                out.append(JS_SAVE_INT_A);
                out.append(f.name.as_str());
                out.append(JS_SAVE_INT_B);
            },
            SaveKind::Float => {
                out.append(JS_SAVE_FLOAT_A);
                out.append(f.name.as_str());
                out.append(JS_SAVE_FLOAT_B);
            },
        }
        proof {
            let item = js_save_field_spec(*f, info.save_kind);
            assert(out@ =~= before + item);
            assert forall|b2: Seq<char>| before + (item + b2) =~= out@ + b2 by {}
        }
        i = i + 1;
    }
    proof {
        assert(fields@.skip(fields@.len() as int) =~= Seq::<FormField>::empty());
        assert(out@ + Seq::<char>::empty() =~= out@);
    }
    Ok(out)
}

/// The load statements of the fields.
fn gen_js_loads(fields: &Vec<FormField>) -> (r: String)
    ensures
        r@ == js_loads_spec(fields@),
{
    let mut out = String::new();
    let mut i: usize = 0;
    while i < fields.len()
        invariant
            i <= fields.len(),
            out@ == js_loads_spec(fields@.take(i as int)),
        decreases fields.len() - i,
    {
        proof {
            assert(fields@.take(i + 1).drop_last() =~= fields@.take(i as int));
        }
        let f = &fields[i];
        let nj = escape_js_str(f.name.as_str());
        out.append(JS_LOAD_FIELD_A);
        out.append(f.name.as_str());
        out.append(JS_LOAD_FIELD_B);
        out.append(nj.as_str());
        out.append(JS_LOAD_FIELD_C);
        out.append(nj.as_str());
        out.append(JS_LOAD_FIELD_D);
        proof {
            assert(out@ =~= js_loads_spec(fields@.take(i + 1)));
        }
        i = i + 1;
    }
    proof {
        assert(fields@.take(fields@.len() as int) =~= fields@);
    }
    out
}

/// The load/save script of one page.
pub fn gen_js_string(page_name: &str, fields: &Vec<FormField>) -> (r: Result<String, String>)
    ensures
        match js_string_spec(page_name@, fields@) {
            Ok(h) => r matches Ok(s) && s@ == h,
            Err(e) => r matches Err(m) && m@ == e,
        },
{
    let saves = match gen_js_saves(fields) {
        Ok(s) => s,
        Err(e) => {
            return Err(e);
        },
    };
    let id_s = page_name_to_js_id(page_name);
    let id = id_s.as_str();
    let page_esc = escape_js_str(page_name);
    let mut form_id = FORM_ID_PREFIX.to_owned();
    form_id.append(id);
    let form_id_esc = escape_js_str(form_id.as_str());
    let loads = gen_js_loads(fields);
    let mut js = JS_PAGE_CONST.to_owned();
    js.append(id);
    js.append(JS_ASSIGN_STR);
    js.append(page_esc.as_str());
    js.append(JS_URL_CONST);
    js.append(id);
    js.append(JS_URL_VALUE);
    js.append(id);
    js.append(JS_LOAD_FN);
    js.append(id);
    js.append(JS_LOAD_FETCH);
    js.append(id);
    js.append(JS_LOAD_JSON);
    js.append(loads.as_str());
    js.append(JS_SAVE_FN);
    js.append(id);
    js.append(JS_SAVE_FORM);
    js.append(form_id_esc.as_str());
    js.append(JS_SAVE_DATA);
    js.append(saves.as_str());
    js.append(JS_SAVE_FETCH);
    js.append(id);
    js.append(JS_SAVE_SEND);
    js.append(id);
    js.append(JS_EXPORT_LOAD_A);
    js.append(id);
    js.append(JS_EXPORT_LOAD_B);
    js.append(id);
    js.append(JS_EXPORT_SAVE_A);
    js.append(id);
    js.append(JS_EXPORT_SAVE_B);
    js.append(id);
    js.append(JS_EXPORT_SAVE_C);
    js.append(id);
    js.append(JS_END);
    proof {
        assert(js@ =~= js_string_spec(page_name@, fields@)->Ok_0);
    }
    Ok(js)
}

} // verus!
