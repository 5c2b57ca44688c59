use wifi_caddy::hash::fnv1a_hash;
use wifi_caddy::text::{
    escape_html, escape_js_str, humanize_label, page_name_to_js_id, snake_to_cased, to_pascal_case,
};

#[test]
fn test_to_pascal_case_and_humanize_label() {
    assert_eq!(to_pascal_case("wifi_pass"), "WifiPass");
    assert_eq!(humanize_label("wifi_pass"), "Wifi Pass");
    assert_eq!(to_pascal_case("foo"), "Foo");
    assert_eq!(humanize_label("foo"), "Foo");
    assert_eq!(to_pascal_case("Home Assistant"), "HomeAssistant");
    assert_eq!(humanize_label("Home Assistant"), "Home Assistant");
    assert_eq!(to_pascal_case("my-page"), "MyPage");
}

#[test]
fn test_escape_html() {
    assert_eq!(escape_html("a & b"), "a &amp; b");
    assert_eq!(escape_html("<tag>"), "&lt;tag&gt;");
    assert_eq!(escape_html(r#" "quoted" "#), " &quot;quoted&quot; ");
}

#[test]
fn test_escape_js_str() {
    // Input: space, backslash, space, double-quote -> backslash and quote are escaped
    assert_eq!(escape_js_str(r#" \ ""#), " \\\\ \\\"");
    assert_eq!(escape_js_str("a\nb"), r#"a\nb"#);
    assert_eq!(escape_js_str("a\rb"), r#"a\rb"#);
}

#[test]
fn test_page_name_to_js_id() {
    assert_eq!(page_name_to_js_id("Network"), "Network");
    assert_eq!(page_name_to_js_id("my-page"), "my_page");
    assert_eq!(page_name_to_js_id("main"), "main");
    assert_eq!(page_name_to_js_id("Home Assistant"), "Home_Assistant");
}

#[test]
fn test_fnv1a_hash_stability() {
    let h = fnv1a_hash("wifi_ssid");
    assert_eq!(h, fnv1a_hash("wifi_ssid"));
    assert_ne!(h, fnv1a_hash("wifi_pass"));
}

#[test]
fn fnv1a_known_values() {
    // FNV-1a 64-bit reference values.
    assert_eq!(fnv1a_hash(""), 0xcbf29ce484222325);
    assert_eq!(fnv1a_hash("a"), 0xaf63dc4c8601ec8c);
    assert_eq!(fnv1a_hash("foobar"), 0x85944171f73967e8);
}

#[test]
fn cased_words_split_on_any_non_alphanumeric() {
    assert_eq!(snake_to_cased("__a--b  c__", "."), "A.B.C");
    assert_eq!(snake_to_cased("", "-"), "");
    assert_eq!(to_pascal_case("x1_y2"), "X1Y2");
    assert_eq!(humanize_label("ssid"), "Ssid");
}

#[test]
fn escaping_leaves_plain_text_alone() {
    assert_eq!(escape_html("plain"), "plain");
    assert_eq!(escape_js_str("plain 'single'"), "plain 'single'");
    assert_eq!(escape_html("'"), "'");
}

#[test]
fn js_id_replaces_every_non_alphanumeric() {
    assert_eq!(page_name_to_js_id("a.b/c"), "a_b_c");
    assert_eq!(page_name_to_js_id("x_y"), "x_y");
    assert_eq!(page_name_to_js_id(&page_name_to_js_id("my page-2")), "my_page_2");
}

#[test]
fn non_ascii_words_use_unicode_rules() {
    assert_eq!(to_pascal_case("élan_vital"), "ÉlanVital");
    assert_eq!(to_pascal_case("ß_x"), "SSX");
    assert_eq!(humanize_label("straße_nr"), "Straße Nr");
    assert_eq!(to_pascal_case("a·b"), "AB");
}

#[test]
fn escaped_text_is_safe_to_embed() {
    let html = escape_html("<a href=\"x\">&</a>");
    assert!(!html.contains('<') && !html.contains('>') && !html.contains('"'));
    let js = escape_js_str("line1\nline2\r\"q\"");
    assert!(!js.contains('\n') && !js.contains('\r'));
    assert_eq!(js, "line1\\nline2\\r\\\"q\\\"");
}

#[test]
fn portal_and_page_ids_agree() {
    use_ids("my page-2_x");
    use_ids("Network");
    use_ids("a.b");
    use_ids("Wi/Fi (2.4) Ünïcode");
}

fn use_ids(name: &str) {
    assert_eq!(wifi_caddy::portal::page::page_to_id(name), page_name_to_js_id(name));
}

#[test]
fn labels_without_spaces_are_pascal_case() {
    for name in ["wifi_pass", "Home Assistant", "my-page", "a__b", "x1_y2", "ünïcode_näme", "  lead trail  "] {
        assert_eq!(humanize_label(name).replace(' ', ""), to_pascal_case(name));
    }
}

#[test]
fn html_escape_reads_back() {
    let s = "a&b<c>\"d\" &amp; plain";
    let e = escape_html(s);
    assert_eq!(e, "a&amp;b&lt;c&gt;&quot;d&quot; &amp;amp; plain");
    let back = e.replace("&lt;", "<").replace("&gt;", ">").replace("&quot;", "\"").replace("&amp;", "&");
    assert_eq!(back, s);
    assert_eq!(escape_html("plain text 123"), "plain text 123");
}

fn js_literal_value(body: &str) -> Option<String> {
    let mut out = String::new();
    let mut chars = body.chars();
    while let Some(c) = chars.next() {
        match c {
            '\\' => match chars.next()? {
                'n' => out.push('\n'),
                'r' => out.push('\r'),
                't' => out.push('\t'),
                other => out.push(other),
            },
            '"' | '\n' | '\r' => return None,
            other => out.push(other),
        }
    }
    Some(out)
}

#[test]
fn js_escape_reads_back() {
    let s = "line1\nline2\r\"q\" back\\slash 'single' ünï";
    assert_eq!(js_literal_value(&escape_js_str(s)).as_deref(), Some(s));
    assert_eq!(escape_js_str("plain 'text' 123"), "plain 'text' 123");
}
