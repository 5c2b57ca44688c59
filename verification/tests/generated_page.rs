use wifi_caddy::gen::attrs::{parse_form_fields, parse_ui_attrs, FieldInput, MetaItem};
use wifi_caddy::gen::group::build_config_page;

fn lit(key: &str, value: &str) -> MetaItem {
    MetaItem { key: key.to_string(), lit: Some(value.to_string()), int: None, expr: Some(None) }
}

fn field(name: &str, ty: &str, form: Vec<MetaItem>, store: Vec<MetaItem>) -> FieldInput {
    FieldInput {
        name: name.to_string(),
        field_type: Some(ty.to_string()),
        has_config_form: true,
        form_metas: form,
        store_metas: store,
    }
}

/// The `PageTestConfig` struct: two fields on page `Network`, two on `Example`.
fn page_test_config() -> String {
    let fields = vec![
        field(
            "wifi_ssid",
            "String",
            vec![lit("page", "Network"), lit("fieldset", "WiFi"), lit("help", "SSID")],
            vec![lit("notify", "Wifi")],
        ),
        field(
            "wifi_pass",
            "String",
            vec![
                lit("page", "Network"),
                lit("fieldset", "WiFi"),
                lit("input_type", "password"),
                lit("help", "Password"),
            ],
            vec![lit("notify", "Wifi")],
        ),
        field(
            "example_string",
            "String",
            vec![lit("page", "Example"), lit("fieldset", "Example"), lit("help", "String")],
            vec![lit("notify", "Example")],
        ),
        field(
            "example_integer",
            "u32",
            vec![lit("page", "Example"), lit("fieldset", "Example"), lit("help", "Integer")],
            vec![lit("notify", "Example")],
        ),
    ];
    let ui = parse_ui_attrs(&vec![]);
    build_config_page(&ui, parse_form_fields(&fields)).unwrap()
}

#[test]
fn generated_page_saves_per_tab() {
    let page = page_test_config();

    // One form per page, each posting to its own config group.
    assert!(page.contains("configForm-Network"), "missing Network form");
    assert!(page.contains("configForm-Example"), "missing Example form");
    assert!(
        page.contains("CONFIG_URL_Network=\"/config-group/\"+CONFIG_PAGE_Network"),
        "Network page is not bound to the Network group"
    );
    assert!(
        page.contains("CONFIG_URL_Example=\"/config-group/\"+CONFIG_PAGE_Example"),
        "Example page is not bound to the Example group"
    );

    // Each page's save function reads only its own form.
    assert!(page.contains("document.getElementById(\"configForm-Network\")"));
    assert!(page.contains("document.getElementById(\"configForm-Example\")"));

    // Per-tab save message and unsaved-changes indicator.
    assert!(page.contains("pageLabel(page) + ' saved'"));
    assert!(page.contains("button.config-tab.dirty::after"));
    assert!(
        !page.contains("showMessage('Configuration saved')"),
        "the hardcoded all-tabs save message should be gone"
    );
}

#[test]
fn generated_page_first_page_is_shown_first() {
    let page = page_test_config();
    assert!(page.starts_with("<!DOCTYPE html><html lang=\"en\"><head>"));
    assert!(page.ends_with("</script></body></html>"));
    assert!(page.contains(
        "<button type=\"button\" class=\"config-tab active\" data-page=\"Network\">Network</button>"
    ));
    assert!(page.contains(
        "<button type=\"button\" class=\"config-tab\" data-page=\"Example\">Example</button>"
    ));
    assert!(page.contains("<div class=\"config-tab-panel\" id=\"panel-Network\">"));
    assert!(page.contains("<div class=\"config-tab-panel\" id=\"panel-Example\" style=\"display:none\">"));
    assert!(page.contains("var defaultPage=\"Network\";"));
    assert!(page.contains("<title>Configuration</title>"));
}

#[test]
fn generated_page_password_input_is_not_required() {
    let page = page_test_config();
    assert!(page.contains("<input type=\"password\" id=\"wifi_pass\""));
    assert!(page.contains("<input type=\"text\" required id=\"wifi_ssid\""));
    assert!(page.contains("<input type=\"number\" required id=\"example_integer\""));
    assert!(page.contains("data[\"example_integer\"]=parseInt(formData.get(\"example_integer\"),10);"));
    assert!(page.contains("data[\"wifi_ssid\"]=formData.get(\"wifi_ssid\")??\"\";"));
    assert!(page.contains("<legend class=\"config-form-legend\" style=\"color:var(--config-form-legend-color,#667eea)\">WiFi</legend>"));
}

#[test]
fn split_fieldset_is_rejected() {
    let fields = vec![
        field("a", "String", vec![lit("page", "One"), lit("fieldset", "Shared")], vec![]),
        field("b", "String", vec![lit("page", "Two"), lit("fieldset", "Shared")], vec![]),
    ];
    let ui = parse_ui_attrs(&vec![]);
    let err = build_config_page(&ui, parse_form_fields(&fields)).unwrap_err();
    assert_eq!(
        err,
        "fieldset \"Shared\" appears on pages \"One\" and \"Two\"; groups cannot be split across pages"
    );
}

#[test]
fn unrecognized_type_needs_an_input_type() {
    let fields = vec![field("ip", "Ipv4Addr", vec![], vec![])];
    let ui = parse_ui_attrs(&vec![]);
    let err = build_config_page(&ui, parse_form_fields(&fields)).unwrap_err();
    assert!(err.starts_with("field `ip` has unrecognized type"), "{err}");
}

#[test]
fn single_page_has_no_tab_bar() {
    let fields = vec![field("name", "String", vec![], vec![])];
    let ui = parse_ui_attrs(&vec![lit("title", "<Mine>"), lit("default_group", "main")]);
    let page = build_config_page(&ui, parse_form_fields(&fields)).unwrap();
    assert!(!page.contains("<div class=\"config-tabs\">"));
    assert!(page.contains("<title>&lt;Mine&gt;</title>"));
    assert!(page.contains("id=\"panel-main\">"));
    assert!(page.contains("<label for=\"name\" class=\"config-form-label\" style=\"color:var(--config-form-label-color,#555)\">Name</label>"));
}
