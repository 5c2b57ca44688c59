use wifi_caddy::portal::handler::{
    check_captive_redirect, eq_ignore_ascii_case, field_get_reply, field_set_notifies, field_set_reply,
    field_set_stores, group_step, route, ConfigGroupResult, FieldSetOutcome, GroupAction, GroupEvent, Route,
    AP_HOST_NAME, AP_URL,
};
use wifi_caddy::portal::page::{page_to_id, ConfigPageChunks, PageTab};
use wifi_caddy::portal::query::{hex_nibble, parse_set_param, path_only, percent_decode};

#[test]
fn routes_by_path() {
    assert!(matches!(route("/"), Route::ConfigPage));
    assert!(matches!(route("/?x=1"), Route::ConfigPage));
    match route("/config-group/Network?set=%7B%7D") {
        Route::ConfigGroup(g) => assert_eq!(g, "Network"),
        _ => panic!("expected a config group"),
    }
    match route("/config/wifi_ssid") {
        Route::ConfigField(f) => assert_eq!(f, "wifi_ssid"),
        _ => panic!("expected a config field"),
    }
    assert!(matches!(route("/favicon.ico"), Route::NotFound));
    assert!(matches!(route("/config"), Route::NotFound));
}

#[test]
fn path_only_strips_query() {
    assert_eq!(path_only("/config/a?set=1"), "/config/a");
    assert_eq!(path_only("/plain"), "/plain");
    assert_eq!(path_only("?q"), "");
}

#[test]
fn set_param_is_found_and_decoded() {
    assert_eq!(parse_set_param("/config/a?set=hello%20world"), Some("hello world".to_string()));
    assert_eq!(parse_set_param("/config/a?x=1&set=a+b"), Some("a b".to_string()));
    assert_eq!(parse_set_param("/config/a?x=1"), None);
    assert_eq!(parse_set_param("/config/a"), None);
    assert_eq!(parse_set_param("/config/a?set="), Some(String::new()));
    assert_eq!(
        parse_set_param("/config-group/Network?set=%7B%22wifi_ssid%22%3A%22home%22%7D"),
        Some("{\"wifi_ssid\":\"home\"}".to_string())
    );
}

#[test]
fn percent_decoding_edge_cases() {
    assert_eq!(percent_decode("%41%62"), "Ab");
    assert_eq!(percent_decode("100%"), "100%");
    assert_eq!(percent_decode("%4"), "%");
    assert_eq!(percent_decode("%zz"), "\0");
    assert_eq!(percent_decode("a+b"), "a b");
}

#[test]
fn hex_nibbles() {
    assert_eq!(hex_nibble(b'0'), 0);
    assert_eq!(hex_nibble(b'9'), 9);
    assert_eq!(hex_nibble(b'a'), 10);
    assert_eq!(hex_nibble(b'F'), 15);
    assert_eq!(hex_nibble(b'g'), 0);
}

#[test]
fn page_ids() {
    assert_eq!(page_to_id("my-page"), "my_page");
    assert_eq!(page_to_id("Home Assistant"), "Home_Assistant");
    assert_eq!(page_to_id("Network"), "Network");
    assert_eq!(page_to_id("a.b"), "a_b");
    assert_eq!(page_to_id("Wi/Fi (2.4)"), "Wi_Fi__2_4_");
}

#[test]
fn captive_redirects_foreign_hosts_only() {
    let h = |name: &str, value: &str| vec![(name.to_string(), value.to_string())];
    assert!(check_captive_redirect(&h("Host", "connectivitycheck.gstatic.com")));
    assert!(check_captive_redirect(&h("host", "example.com")));
    assert!(!check_captive_redirect(&h("HOST", AP_HOST_NAME)));
    assert!(!check_captive_redirect(&h("Accept", "*/*")));
    assert!(!check_captive_redirect(&vec![]));
    assert_eq!(AP_URL, "http://192.168.2.1/");
    assert!(eq_ignore_ascii_case("HoSt", "hOsT"));
    assert!(!eq_ignore_ascii_case("Host", "Hosts"));
}

#[test]
fn config_group_flow() {
    assert!(matches!(group_step(GroupEvent::Start(true)), GroupAction::Apply));
    assert!(matches!(group_step(GroupEvent::Start(false)), GroupAction::Read));
    assert!(matches!(group_step(GroupEvent::Applied(Ok(true))), GroupAction::Store));
    assert!(matches!(group_step(GroupEvent::Applied(Ok(false))), GroupAction::Read));
    match group_step(GroupEvent::Applied(Err("bad json".to_string()))) {
        GroupAction::Reply(ConfigGroupResult::Error(400, m)) => assert_eq!(m, "bad json"),
        _ => panic!("expected 400"),
    }
    assert!(matches!(group_step(GroupEvent::Stored(Ok(()))), GroupAction::NotifyAndRead));
    match group_step(GroupEvent::Stored(Err("flash".to_string()))) {
        GroupAction::Reply(ConfigGroupResult::Error(500, m)) => assert_eq!(m, "flash"),
        _ => panic!("expected 500"),
    }
    match group_step(GroupEvent::Read(Ok("{}".to_string()))) {
        GroupAction::Reply(ConfigGroupResult::Json(j)) => assert_eq!(j, "{}"),
        _ => panic!("expected JSON"),
    }
    match group_step(GroupEvent::Read(Err("unknown group".to_string()))) {
        GroupAction::Reply(ConfigGroupResult::Error(400, m)) => assert_eq!(m, "unknown group"),
        _ => panic!("expected 400"),
    }
}

#[test]
fn config_field_replies() {
    let ok = field_set_reply("abc", FieldSetOutcome::Changed, true);
    assert_eq!((ok.status, ok.body.as_str()), (200, "abc"));
    let failed = field_set_reply("abc", FieldSetOutcome::Changed, false);
    assert_eq!((failed.status, failed.body.as_str()), (500, ""));
    let same = field_set_reply("abc", FieldSetOutcome::Unchanged, false);
    assert_eq!((same.status, same.body.as_str()), (200, "abc"));
    let bad = field_set_reply("abc", FieldSetOutcome::Rejected, true);
    assert_eq!((bad.status, bad.body.as_str()), (400, "Invalid key or value"));
    let got = field_get_reply(Some("v".to_string()));
    assert_eq!((got.status, got.body.as_str()), (200, "v"));
    let missing = field_get_reply(None);
    assert_eq!((missing.status, missing.body.as_str()), (404, ""));
    assert!(field_set_stores(FieldSetOutcome::Changed));
    assert!(!field_set_stores(FieldSetOutcome::Unchanged));
    assert!(field_set_notifies(FieldSetOutcome::Changed, true));
    assert!(!field_set_notifies(FieldSetOutcome::Changed, false));
    assert!(!field_set_notifies(FieldSetOutcome::Rejected, true));
}

static NET_HTML: [&str; 2] = ["<div class=\"config-form\">", "</div>"];
static NET_JS: [&str; 1] = ["function loadConfig_Network(){}"];
static MAIN_HTML: [&str; 1] = ["<div>main</div>"];
static MAIN_JS: [&str; 1] = ["function loadConfig_main(){}"];

#[test]
fn page_chunks_in_order() {
    let chunks = ConfigPageChunks {
        page_heading: "Heading",
        title: "Title",
        subtitle: "Sub",
        nav_left: "<span>L</span>",
        nav_right: "<span>R</span>",
        extra_css: ".x{}",
        pages: vec![
            PageTab { name: "Network", html_segments: &NET_HTML, js_segments: &NET_JS },
            PageTab { name: "main", html_segments: &MAIN_HTML, js_segments: &MAIN_JS },
        ],
        default_page_id: "Network".to_string(),
    }
    .chunks();
    let page: String = chunks.concat();
    assert!(page.starts_with("<!DOCTYPE html>"));
    assert!(page.contains("Title"));
    assert!(page.contains(".x{}"));
    assert!(page.contains("data-page=\"Network\""));
    assert!(page.contains("config-tab active"));
    assert!(page.contains("function loadConfig_Network(){}"));
    assert!(page.contains("<div>main</div>"));
    assert!(page.contains("var defaultPage=\"Network\""));
    let net = page.find("panel-Network").unwrap();
    let main = page.find("panel-main").unwrap();
    assert!(net < main);
}
