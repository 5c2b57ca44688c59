use wifi_caddy::config::{ConfigError, ConfigStorageParams, Error};
use wifi_caddy::esp::storage::{copy_loaded, put_value, format_version_key_id, magic_key_id, mount_step, needs_write, MountAction, MountEvent};
use wifi_caddy::esp::wifi::{redact, ModeChoice, WifiCaddyCommand, WifiEventKind, WifiState};
use wifi_caddy::esp::partition::{resolve_partition_range, PartitionEntry};
use wifi_caddy::esp::wifi::{radio_action, RadioAction, ScheduleChange};
use wifi_caddy::hash::fnv1a_hash;

fn cmd_ap(prefix: &str) -> WifiCaddyCommand {
    WifiCaddyCommand::APUp(heapless::String::try_from(prefix).unwrap())
}

fn cmd_sta(ssid: &str, pass: &str) -> WifiCaddyCommand {
    WifiCaddyCommand::StaUp(heapless::String::try_from(ssid).unwrap(), heapless::String::try_from(pass).unwrap())
}

#[test]
fn runner_modes_follow_commands() {
    let mut st = WifiState::new([0x24, 0x0a, 0xc4, 0x00, 0xff, 0x01]);
    assert!(matches!(st.current_config(), ModeChoice::Off));
    st.handle_command(cmd_ap("caddy-"));
    match st.current_config() {
        ModeChoice::AccessPoint(ap) => {
            assert_eq!(ap.ssid, "caddy-240ac400ff01");
            assert_eq!(ap.password, "");
        }
        _ => panic!("expected AP"),
    }
    st.handle_command(cmd_sta("home", "secret"));
    match st.current_config() {
        ModeChoice::ApSta(c, ap) => {
            assert_eq!((c.ssid.as_str(), c.password.as_str()), ("home", "secret"));
            assert_eq!(ap.ssid, "caddy-240ac400ff01");
        }
        _ => panic!("expected AP+STA"),
    }
    st.handle_command(WifiCaddyCommand::APDown);
    assert!(matches!(st.current_config(), ModeChoice::Client(_)));
    assert_eq!(st.ap_ssid(), "caddy-240ac400ff01");
}

#[test]
fn runner_reconnect_schedule() {
    let mut st = WifiState::new([0; 6]);
    assert!(!st.needs_connect(false));
    st.handle_command(cmd_sta("net", "pw"));
    assert!(st.needs_connect(false));
    assert!(!st.needs_connect(true));
    st.handle_wifi_event(WifiEventKind::StaDisconnected);
    assert!(st.reconnect_pending);
    st.handle_wifi_event(WifiEventKind::Other);
    assert!(st.reconnect_pending);
    st.handle_wifi_event(WifiEventKind::StaConnected);
    assert!(!st.reconnect_pending);
    st.after_attempt(false);
    assert!(st.reconnect_pending);
    st.reconnect_due();
    assert!(!st.reconnect_pending);
    st.after_attempt(false);
    st.handle_command(cmd_sta("other", ""));
    assert!(!st.reconnect_pending);
}

#[test]
fn every_disconnect_and_failure_rearms_the_deadline() {
    let mut st = WifiState::new([0; 6]);
    assert_eq!(st.handle_command(cmd_sta("net", "pw")), ScheduleChange::Cancel);
    assert_eq!(st.handle_command(cmd_ap("p")), ScheduleChange::Keep);
    assert_eq!(st.handle_command(WifiCaddyCommand::APDown), ScheduleChange::Keep);
    assert_eq!(st.handle_wifi_event(WifiEventKind::StaDisconnected), ScheduleChange::Arm);
    // Already pending: a second disconnect still sets the deadline afresh.
    assert_eq!(st.handle_wifi_event(WifiEventKind::StaDisconnected), ScheduleChange::Arm);
    assert_eq!(st.after_attempt(false), ScheduleChange::Arm);
    assert_eq!(st.after_attempt(true), ScheduleChange::Keep);
    assert!(st.reconnect_pending);
    assert_eq!(st.handle_wifi_event(WifiEventKind::Other), ScheduleChange::Keep);
    assert_eq!(st.handle_wifi_event(WifiEventKind::StaConnected), ScheduleChange::Cancel);
    assert_eq!(st.reconnect_due(), ScheduleChange::Cancel);
    assert!(!st.reconnect_pending);
}

#[test]
fn only_a_failed_radio_start_rearms() {
    let mut st = WifiState::new([0; 6]);
    assert_eq!(st.after_radio(RadioAction::ApplyAndStart, false), ScheduleChange::Arm);
    assert!(st.reconnect_pending);
    st.reconnect_due();
    assert_eq!(st.after_radio(RadioAction::Apply, false), ScheduleChange::Keep);
    assert_eq!(st.after_radio(RadioAction::ApplyAndStart, true), ScheduleChange::Keep);
    assert_eq!(st.after_radio(RadioAction::Nothing, true), ScheduleChange::Keep);
    assert!(!st.reconnect_pending);
}

#[test]
fn commands_are_logged_redacted() {
    assert_eq!(redact("secret"), "******");
    assert_eq!(redact(""), "");
    assert_eq!(cmd_sta("home", "pässword").describe(), "StaUp(home, ********)");
    assert_eq!(cmd_ap("x").describe(), "APUp(x)");
    assert_eq!(WifiCaddyCommand::APDown.describe(), "APDown");
}

#[test]
fn commands_debug_form_quotes_and_redacts() {
    assert_eq!(cmd_sta("home", "pässword").debug_text(), "StaUp(\"home\", ********)");
    assert_eq!(cmd_ap("Caddy-").debug_text(), "APUp(\"Caddy-\")");
    assert_eq!(cmd_ap("a\"b").debug_text(), "APUp(\"a\\\"b\")");
    assert_eq!(WifiCaddyCommand::APDown.debug_text(), "APDown");
}

#[test]
fn storage_key_ids_match_the_derive() {
    assert_eq!(magic_key_id(), fnv1a_hash("__magic__"));
    assert_eq!(format_version_key_id(), fnv1a_hash("__format_version__"));
}

#[test]
fn mount_procedure() {
    let params = ConfigStorageParams { magic: 0x4255_aa42, format_version: 1 };
    assert!(matches!(mount_step(&params, MountEvent::MagicRead(Ok(Some(7)))), MountAction::ReadVersion(7)));
    assert!(matches!(mount_step(&params, MountEvent::MagicRead(Ok(None))), MountAction::Format));
    assert!(matches!(mount_step(&params, MountEvent::MagicRead(Err(ConfigError::InvalidData))), MountAction::Format));
    assert!(matches!(mount_step(&params, MountEvent::MagicRead(Err(ConfigError::Utf8))), MountAction::Format));
    assert!(matches!(
        mount_step(&params, MountEvent::MagicRead(Err(ConfigError::Backend))),
        MountAction::Fail(ConfigError::Backend)
    ));
    assert!(matches!(mount_step(&params, MountEvent::Formatted(Ok(()))), MountAction::RereadMagic));
    assert!(matches!(
        mount_step(&params, MountEvent::MagicReread(Ok(None))),
        MountAction::Fail(ConfigError::Backend)
    ));
    assert!(matches!(
        mount_step(&params, MountEvent::VersionRead(0x4255_aa42, Ok(None))),
        MountAction::Mounted
    ));
    assert!(matches!(
        mount_step(&params, MountEvent::VersionRead(7, Ok(Some(1)))),
        MountAction::Fail(ConfigError::Backend)
    ));
    assert!(matches!(
        mount_step(&params, MountEvent::VersionRead(0x4255_aa42, Err(ConfigError::Utf8))),
        MountAction::Fail(ConfigError::Utf8)
    ));
}

#[test]
fn unchanged_values_are_not_rewritten() {
    assert!(needs_write(None, b"abc"));
    assert!(!needs_write(Some(b"abc"), b"abc"));
    assert!(needs_write(Some(b"abd"), b"abc"));
    assert!(needs_write(Some(b"ab"), b"abc"));
}

#[test]
fn loaded_values_are_truncated_to_the_buffer() {
    let mut buf = [9u8; 4];
    assert_eq!(copy_loaded(b"ab", &mut buf), 2);
    assert_eq!(buf, [b'a', b'b', 9, 9]);
    let mut small = [0u8; 2];
    assert_eq!(copy_loaded(b"xyz", &mut small), 2);
    assert_eq!(small, [b'x', b'y']);
}

#[test]
fn config_error_converts() {
    let e: Error = ConfigError::Backend.into();
    assert!(matches!(e, Error::Config(ConfigError::Backend)));
}

#[test]
fn partition_lookup() {
    let parts = vec![
        PartitionEntry { label: "nvs".to_string(), offset: 0x9000, len: 0x6000 },
        PartitionEntry { label: "config".to_string(), offset: 0x10000, len: 0x4000 },
        PartitionEntry { label: "config".to_string(), offset: 0x20000, len: 0x1000 },
    ];
    assert_eq!(resolve_partition_range(&parts, "config").unwrap(), 0x10000..0x14000);
    assert!(matches!(resolve_partition_range(&parts, "app"), Err(ConfigError::Backend)));
}

#[test]
fn partition_lookup_ignores_other_entries_end() {
    let parts = vec![
        PartitionEntry { label: "huge".to_string(), offset: 0xFFFF_F000, len: 0x2000 },
        PartitionEntry { label: "config".to_string(), offset: 0x10000, len: 0x4000 },
    ];
    assert_eq!(resolve_partition_range(&parts, "config").unwrap(), 0x10000..0x14000);
}

#[test]
fn radio_actions() {
    let st = WifiState::new([0; 6]);
    assert_eq!(radio_action(&st.current_config(), false), RadioAction::Nothing);
    let mut st = WifiState::new([1; 6]);
    st.handle_command(cmd_ap("p"));
    assert_eq!(radio_action(&st.current_config(), false), RadioAction::ApplyAndStart);
    assert_eq!(radio_action(&st.current_config(), true), RadioAction::Apply);
}

#[test]
fn put_value_copies_or_names_the_size() {
    let mut buf = [9u8; 4];
    assert_eq!(put_value(&[1, 2], &mut buf).unwrap(), 2);
    assert_eq!(buf, [1, 2, 9, 9]);
    let mut small = [7u8; 3];
    match put_value(&[0u8; 1234], &mut small) {
        Err(ConfigError::BufferTooSmall(t)) => assert_eq!(t, "need 1234 bytes"),
        _ => panic!("expected BufferTooSmall"),
    }
    assert_eq!(small, [7, 7, 7]);
    match put_value(&[0u8; 10], &mut small) {
        Err(ConfigError::BufferTooSmall(t)) => assert_eq!(t, "need 10 bytes"),
        _ => panic!("expected BufferTooSmall"),
    }
    let mut exact = [0u8; 3];
    assert_eq!(put_value(&[4, 5, 6], &mut exact).unwrap(), 3);
    assert_eq!(exact, [4, 5, 6]);
}
