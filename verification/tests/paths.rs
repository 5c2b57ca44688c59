use wifi_caddy::gen::paths::{CrateAttrArg, CratePaths, FoundCrate};

/// The core profile must keep emitting exactly the historical crate names.
#[test]
fn core_profile_uses_bare_paths() {
    let paths = CratePaths::core_profile();
    assert_eq!(paths.wifi_caddy.to_string(), "wifi_caddy");
    assert_eq!(paths.serde.to_string(), "serde");
    assert_eq!(paths.serde_json_core.to_string(), "serde_json_core");
    assert_eq!(paths.embassy_sync.to_string(), "embassy_sync");
    assert_eq!(paths.static_cell.to_string(), "static_cell");
    assert!(
        paths.serde_crate_attr.is_empty(),
        "core mode must not emit #[serde(crate = ...)]"
    );
}

/// The facade profile must route every path and point serde at the facade.
#[test]
fn facade_profile_roots_all_paths() {
    let paths = CratePaths::facade("::esp_wifi_caddy");
    let compact = |ts: &String| ts.replace(' ', "");
    assert_eq!(compact(&paths.wifi_caddy), "::esp_wifi_caddy::wifi_caddy");
    assert_eq!(compact(&paths.serde), "::esp_wifi_caddy::serde");
    assert_eq!(compact(&paths.serde_json_core), "::esp_wifi_caddy::serde_json_core");
    assert_eq!(compact(&paths.embassy_sync), "::esp_wifi_caddy::embassy_sync");
    assert_eq!(compact(&paths.static_cell), "::esp_wifi_caddy::static_cell");
    assert_eq!(
        compact(&paths.serde_crate_attr),
        "#[serde(crate=\"::esp_wifi_caddy::serde\")]"
    );
}

/// `#[config_crate(...)]` must override detection, including the core escape
/// and the arbitrary-path (string) form.
#[test]
fn config_crate_attr_overrides_detection() {
    let found = FoundCrate::Name("wifi_caddy".to_string());
    let none = FoundCrate::Missing;

    // #[config_crate(esp_wifi_caddy)]
    let args = vec![CrateAttrArg::Path("esp_wifi_caddy".to_string(), 1)];
    let paths = CratePaths::resolve(&args, &found, &none);
    assert_eq!(paths.wifi_caddy.replace(' ', ""), "::esp_wifi_caddy::wifi_caddy");

    // #[config_crate(core)]
    let args = vec![CrateAttrArg::Path("core".to_string(), 1)];
    assert_eq!(CratePaths::resolve(&args, &found, &none).wifi_caddy, "wifi_caddy");

    // #[config_crate("crate")]
    let args = vec![CrateAttrArg::Lit("crate".to_string())];
    assert_eq!(
        CratePaths::resolve(&args, &found, &none).wifi_caddy.replace(' ', ""),
        "crate::wifi_caddy"
    );
}

/// Without an override, a manifest naming `wifi-caddy` as `wifi_caddy`
/// selects the core profile.
#[test]
fn detection_falls_back_to_core_for_wifi_caddy_users() {
    let paths = CratePaths::resolve(
        &vec![],
        &FoundCrate::Name("wifi_caddy".to_string()),
        &FoundCrate::Missing,
    );
    assert_eq!(paths.wifi_caddy.to_string(), "wifi_caddy");
    assert!(paths.serde_crate_attr.is_empty());
}

#[test]
fn detection_of_renamed_core_and_facade() {
    let renamed = CratePaths::resolve(&vec![], &FoundCrate::Name("caddy".to_string()), &FoundCrate::Missing);
    assert_eq!(renamed.wifi_caddy, "::caddy");
    assert_eq!(renamed.serde, "serde");
    let inside = CratePaths::resolve(&vec![], &FoundCrate::Itself, &FoundCrate::Missing);
    assert_eq!(inside.wifi_caddy, "crate");
    let facade = CratePaths::resolve(
        &vec![],
        &FoundCrate::Missing,
        &FoundCrate::Name("esp_wifi_caddy".to_string()),
    );
    assert_eq!(facade.static_cell, "::esp_wifi_caddy::static_cell");
    let facade_inside = CratePaths::resolve(&vec![], &FoundCrate::Missing, &FoundCrate::Itself);
    assert_eq!(facade_inside.serde_crate_attr, "#[serde(crate=\"crate::serde\")]");
    let neither = CratePaths::resolve(&vec![], &FoundCrate::Missing, &FoundCrate::Missing);
    assert_eq!(neither.wifi_caddy, "wifi_caddy");
}

#[test]
fn first_usable_override_wins() {
    let args = vec![
        CrateAttrArg::Other,
        CrateAttrArg::Path("my::facade".to_string(), 2),
        CrateAttrArg::Path("core".to_string(), 1),
    ];
    let paths = CratePaths::resolve(&args, &FoundCrate::Missing, &FoundCrate::Missing);
    assert_eq!(paths.wifi_caddy, "my::facade::wifi_caddy");
    let only_other = vec![CrateAttrArg::Other];
    let p = CratePaths::resolve(&only_other, &FoundCrate::Itself, &FoundCrate::Missing);
    assert_eq!(p.wifi_caddy, "crate");
}
