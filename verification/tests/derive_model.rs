use wifi_caddy::config::ConfigError;
use wifi_caddy::gen::api::{
    api_pages, change_variants, collect_api_fields, dto_name, field_variant, group_field_applies,
    group_read, lex_less, notify_capacity, page_fields, parse_struct_attrs, set_field_outcome, storage_params,
    ApiField, GroupRead, SetFieldOutcome,
};
use wifi_caddy::gen::attrs::{
    parse_config_form_attr_into, parse_form_fields, parse_ui_attrs, FieldInput, MetaItem, ParsedFormAttrs,
};
use wifi_caddy::gen::form::{
    infer_save_kind, known_type_info_by_name, parse_save_as, resolve_field_info, SaveKind,
};
use wifi_caddy::gen::store::{
    collision_checks, collision_names, key_entries, key_hashes, load_source, parse_store_fields, LoadSource, StoreField,
};
use wifi_caddy::gen::group::group_by_page;
use wifi_caddy::hash::fnv1a_hash;

fn lit(key: &str, value: &str) -> MetaItem {
    MetaItem { key: key.to_string(), lit: Some(value.to_string()), int: None, expr: Some(None) }
}

fn flag(key: &str) -> MetaItem {
    MetaItem { key: key.to_string(), lit: None, int: None, expr: None }
}

fn num(key: &str, v: u64) -> MetaItem {
    MetaItem { key: key.to_string(), lit: None, int: Some(v), expr: Some(Some(v.to_string())) }
}

fn field(name: &str, ty: &str, form: Option<Vec<MetaItem>>, store: Vec<MetaItem>) -> FieldInput {
    FieldInput {
        name: name.to_string(),
        field_type: Some(ty.to_string()),
        has_config_form: form.is_some(),
        form_metas: form.unwrap_or_default(),
        store_metas: store,
    }
}

/// `input_type = "password"` is recognized when other items (fieldset, help)
/// come before it, so the group API redacts the field.
#[test]
fn config_form_password_recognized_after_fieldset_and_help() {
    let metas = vec![lit("fieldset", "WiFi"), lit("input_type", "password"), lit("help", "Secret")];
    let mut form = ParsedFormAttrs::default();
    parse_config_form_attr_into(&metas, &mut form);
    assert_eq!(
        form.input_type.as_deref(),
        Some("password"),
        "input_type must be recognized so GET /config-group/main redacts the field"
    );
    assert_eq!(form.fieldset.as_deref(), Some("WiFi"));
    assert_eq!(form.help, "Secret");
    assert_eq!(form.page, "main");
}

#[test]
fn later_items_win_and_flags_stick() {
    let metas = vec![
        lit("page", "A"),
        flag("page"),
        lit("label", "X"),
        flag("label"),
        flag("hidden"),
        num("min", 3),
        flag("unknown"),
    ];
    let mut form = ParsedFormAttrs::default();
    parse_config_form_attr_into(&metas, &mut form);
    assert_eq!(form.page, "A");
    assert_eq!(form.label, None);
    assert!(form.hidden);
    assert!(!form.skip);
    assert_eq!(form.min.as_deref(), Some("3"));
    assert_eq!(form.max, None);
}

#[test]
fn form_fields_skip_and_defaults() {
    let fields = vec![
        field("plain", "String", Some(vec![]), vec![]),
        field("skipped", "String", Some(vec![flag("skip")]), vec![]),
        field("untagged", "String", None, vec![]),
        field("labelled", "u8", Some(vec![lit("label", "Nice"), lit("class", "c")]), vec![]),
    ];
    let form = parse_form_fields(&fields);
    assert_eq!(form.len(), 2);
    assert_eq!(form[0].name, "plain");
    assert_eq!(form[0].label, "Plain");
    assert_eq!(form[0].page, "main");
    assert_eq!(form[1].label, "Nice");
    assert_eq!(form[1].class.as_deref(), Some("c"));
}

#[test]
fn ui_attrs_defaults_and_overrides() {
    let ui = parse_ui_attrs(&vec![]);
    assert_eq!(ui.title, "Configuration");
    assert_eq!(ui.page_heading, "Configuration");
    assert_eq!(ui.subtitle, "");
    assert_eq!(ui.nav_left, "<span>Configuration</span>");
    assert_eq!(ui.nav_right, "<span></span>");
    assert_eq!(ui.extra_css, "");
    assert_eq!(ui.default_group, None);
    let ui = parse_ui_attrs(&vec![lit("title", "T1"), lit("title", "T2"), flag("subtitle"), lit("default_group", "net")]);
    assert_eq!(ui.title, "T2");
    assert_eq!(ui.subtitle, "");
    assert_eq!(ui.default_group.as_deref(), Some("net"));
}

#[test]
fn type_info_and_save_kinds() {
    let t = known_type_info_by_name("u16").unwrap();
    assert_eq!((t.input_type, t.is_float, t.save_kind), ("number", false, SaveKind::Int));
    let t = known_type_info_by_name("f32").unwrap();
    assert_eq!((t.input_type, t.is_float, t.save_kind), ("number", true, SaveKind::Float));
    let t = known_type_info_by_name("String").unwrap();
    assert_eq!((t.input_type, t.save_kind), ("text", SaveKind::String));
    assert!(known_type_info_by_name("bool").is_none());
    assert_eq!(parse_save_as("float"), Some(SaveKind::Float));
    assert_eq!(parse_save_as("bytes"), None);
    assert_eq!(infer_save_kind("range"), SaveKind::Int);
    assert_eq!(infer_save_kind("email"), SaveKind::String);
}

#[test]
fn resolve_field_info_rules() {
    let fields = vec![
        field("a", "Custom", Some(vec![lit("input_type", "range")]), vec![]),
        field("b", "u32", Some(vec![lit("save_as", "string")]), vec![]),
        field("c", "Custom", Some(vec![lit("prim_type", "f64")]), vec![]),
        field("d", "Custom", Some(vec![]), vec![]),
    ];
    let form = parse_form_fields(&fields);
    let a = resolve_field_info(&form[0]).unwrap();
    assert_eq!((a.input_type.as_str(), a.save_kind, a.is_float), ("range", SaveKind::Int, false));
    let b = resolve_field_info(&form[1]).unwrap();
    assert_eq!((b.input_type.as_str(), b.save_kind), ("number", SaveKind::String));
    let c = resolve_field_info(&form[2]).unwrap();
    assert_eq!((c.input_type.as_str(), c.save_kind, c.is_float), ("number", SaveKind::Float, true));
    assert!(resolve_field_info(&form[3]).is_err());
}

fn api(name: &str, page: &str, password: bool, notify: Option<&str>) -> ApiField {
    ApiField {
        name: name.to_string(),
        page: page.to_string(),
        is_password: password,
        notify: notify.map(|s| s.to_string()),
    }
}

#[test]
fn api_fields_collected() {
    let fields = vec![
        field("ssid", "String", Some(vec![lit("page", "Network")]), vec![lit("notify", "Wifi")]),
        field("pass", "String", Some(vec![lit("input_type", "password")]), vec![lit("notify_group", "wifi_creds")]),
        field("hidden_away", "String", Some(vec![flag("skip")]), vec![]),
        field("n", "u32", Some(vec![]), vec![lit("notify", "A"), flag("notify")]),
    ];
    let a = collect_api_fields(&fields);
    assert_eq!(a.len(), 3);
    assert_eq!((a[0].page.as_str(), a[0].is_password, a[0].notify.as_deref()), ("Network", false, Some("Wifi")));
    assert_eq!((a[1].page.as_str(), a[1].is_password, a[1].notify.as_deref()), ("main", true, Some("WifiCreds")));
    assert_eq!(a[2].notify, None);
    assert_eq!(field_variant(&a[2]), "Changed");
    assert_eq!(field_variant(&a[0]), "Wifi");
}

#[test]
fn change_variants_sorted_distinct() {
    let fields = vec![
        api("a", "main", false, Some("Wifi")),
        api("b", "main", false, None),
        api("c", "x", false, Some("Example")),
        api("d", "x", false, Some("Wifi")),
    ];
    assert_eq!(change_variants(&fields), vec!["Changed", "Example", "Wifi"]);
    let tagged = vec![api("a", "main", false, Some("B")), api("b", "main", false, Some("A"))];
    assert_eq!(change_variants(&tagged), vec!["A", "B"]);
    assert!(change_variants(&vec![]).is_empty());
    assert!(lex_less("Ab", "B"));
    assert!(lex_less("A", "Ab"));
    assert!(!lex_less("b", "B"));
}

#[test]
fn pages_capacity_dto_and_params() {
    let fields = vec![api("a", "Network", false, None), api("b", "main", false, None), api("c", "Network", false, None)];
    let pages = api_pages(&fields);
    assert_eq!(pages, vec!["Network", "main"]);
    let attrs = parse_struct_attrs(&vec![], &vec![]);
    assert_eq!(notify_capacity(&attrs, pages.len()), 2);
    let p = storage_params(&attrs);
    assert_eq!((p.magic, p.format_version), (0x4255_aa42, 1));
    let attrs = parse_struct_attrs(
        &vec![num("storage_magic", 0xdead), num("storage_version", 7), num("storage_magic", 0x1_0000_0000)],
        &vec![num("cap", 4)],
    );
    assert_eq!(attrs.storage_magic, None);
    assert_eq!(attrs.storage_version, Some(7));
    assert_eq!(notify_capacity(&attrs, 2), 4);
    assert_eq!(dto_name("AppConfig", "main"), "AppConfigMainPageDto");
    assert_eq!(dto_name("AppConfig", "home assistant"), "AppConfigHomeAssistantPageDto");
}

#[test]
fn generated_setters_keep_empty_passwords() {
    let pw = api("pass", "main", true, None);
    let plain = api("ssid", "main", false, None);
    assert!(!group_field_applies(pw.is_password, true, true));
    assert!(group_field_applies(pw.is_password, false, true));
    assert!(group_field_applies(plain.is_password, true, true));
    assert!(!group_field_applies(plain.is_password, false, false));
    assert_eq!(set_field_outcome(pw.is_password, true, None), SetFieldOutcome::Unchanged);
    assert_eq!(set_field_outcome(pw.is_password, false, None), SetFieldOutcome::Invalid);
    assert_eq!(set_field_outcome(plain.is_password, true, Some(true)), SetFieldOutcome::Changed);
    assert_eq!(set_field_outcome(plain.is_password, false, Some(false)), SetFieldOutcome::Unchanged);
}

#[test]
fn store_keys_and_collision_checks() {
    let fields = vec![
        field("wifi_ssid", "String", None, vec![lit("env_default", "WIFI_SSID")]),
        field("secret", "String", None, vec![flag("skip")]),
        field("port", "u16", None, vec![lit("default", "80"), lit("bump", "config_version")]),
    ];
    let stored = parse_store_fields(&fields);
    assert_eq!(stored.len(), 2);
    assert_eq!(stored[0].env_default.as_deref(), Some("WIFI_SSID"));
    assert_eq!(stored[1].default.as_deref(), Some("80"));
    assert_eq!(stored[1].bump.as_deref(), Some("config_version"));
    let keys = key_entries(&stored);
    assert_eq!(keys.len(), 4);
    assert_eq!(keys[0].variant, "Magic");
    assert_eq!(keys[0].hash, fnv1a_hash("__magic__"));
    assert_eq!(keys[1].variant, "FormatVersion");
    assert_eq!(keys[1].hash, fnv1a_hash("__format_version__"));
    assert_eq!(keys[2].variant, "WifiSsid");
    assert_eq!(keys[2].hash, fnv1a_hash("wifi_ssid"));
    assert_eq!(keys[3].variant, "Port");
    let hashes = key_hashes(&keys);
    let checks = collision_checks(&hashes);
    assert_eq!(checks.len(), 6);
    assert_eq!(checks[0], (hashes[0], hashes[1]));
    assert_eq!(checks[2], (hashes[0], hashes[3]));
    assert_eq!(checks[3], (hashes[1], hashes[2]));
    assert_eq!(checks[5], (hashes[2], hashes[3]));
    assert!(checks.iter().all(|(a, b)| a != b));
    let names = collision_names(&keys);
    assert_eq!(names.len(), 6);
    assert_eq!(names[0], ("Magic".to_string(), "FormatVersion".to_string()));
    assert_eq!(names[5], ("WifiSsid".to_string(), "Port".to_string()));
}

#[test]
fn load_precedence() {
    let env = StoreField { name: "a".into(), default: Some("1".into()), env_default: Some("V".into()), bump: None };
    let def = StoreField { name: "b".into(), default: Some("1".into()), env_default: None, bump: None };
    let none = StoreField { name: "c".into(), default: None, env_default: None, bump: None };
    assert_eq!(load_source(env.env_default.is_some(), env.default.is_some(), true, true, true), LoadSource::Stored);
    assert_eq!(load_source(env.env_default.is_some(), env.default.is_some(), false, true, true), LoadSource::EnvDefault);
    assert_eq!(load_source(env.env_default.is_some(), env.default.is_some(), false, false, true), LoadSource::Unchanged);
    assert_eq!(load_source(def.env_default.is_some(), def.default.is_some(), false, false, true), LoadSource::Default);
    assert_eq!(load_source(def.env_default.is_some(), def.default.is_some(), false, false, false), LoadSource::Unchanged);
    assert_eq!(load_source(none.env_default.is_some(), none.default.is_some(), false, true, true), LoadSource::Unchanged);
    let _ = ConfigError::InvalidData;
}

#[test]
fn api_groups_match_page_tabs() {
    let fields = vec![
        field("a", "String", Some(vec![lit("page", "Network")]), vec![]),
        field("b", "String", Some(vec![]), vec![]),
        field("c", "String", Some(vec![lit("page", "Network")]), vec![]),
        field("d", "String", Some(vec![lit("page", "Extra")]), vec![]),
    ];
    let api_names = api_pages(&collect_api_fields(&fields));
    let tabs: Vec<String> = group_by_page(parse_form_fields(&fields)).into_iter().map(|p| p.name).collect();
    assert_eq!(api_names, tabs);
    assert_eq!(tabs, vec!["Network", "main", "Extra"]);
}

#[test]
fn page_dtos_hold_their_page_fields_in_order() {
    let fields = vec![
        api("ssid", "main", false, None),
        api("host", "mqtt", false, None),
        api("pass", "main", true, None),
        api("port", "mqtt", false, None),
    ];
    assert_eq!(page_fields(&fields, "main"), vec![0, 2]);
    assert_eq!(page_fields(&fields, "mqtt"), vec![1, 3]);
    assert!(page_fields(&fields, "other").is_empty());
    assert_eq!(group_read(true), GroupRead::Redacted);
    assert_eq!(group_read(false), GroupRead::Current);
}
