use quote_sidecar::fragment::ExportedKey;
use quote_sidecar::layers::DefaultValue;
use quote_sidecar::paths::{directory_of, join, temp_file_for};
use quote_sidecar::settings::Setting;
use quote_sidecar::text::{contains_char, push_decimal, starts_with};

#[test]
fn finds_a_character() {
    assert!(contains_char("a\nb", '\n'));
    assert!(!contains_char("ab", '\n'));
    assert!(!contains_char("", 'a'));
    assert!(contains_char("héllo", 'é'));
}

#[test]
fn writes_decimals() {
    let mut out = "port ".to_string();
    push_decimal(&mut out, 0);
    assert_eq!(out, "port 0");

    let mut out = String::new();
    push_decimal(&mut out, 1234567890123);
    assert_eq!(out, "1234567890123");

    let mut out = String::new();
    push_decimal(&mut out, u64::MAX);
    assert_eq!(out, u64::MAX.to_string());
}

#[test]
fn stages_next_to_the_destination() {
    let dir = directory_of("/shared/instance.conf");
    assert_eq!(dir, "/shared");
    assert_eq!(
        temp_file_for("/shared/instance.conf", &dir),
        Some("/shared/.instance.conf.tmp".to_string())
    );
}

#[test]
fn stages_relative_paths_in_their_directory() {
    let dir = directory_of("conf/fluent.conf");
    assert_eq!(dir, "conf");
    assert_eq!(temp_file_for("conf/fluent.conf", &dir), Some("conf/.fluent.conf.tmp".to_string()));
}

#[test]
fn a_bare_name_is_staged_in_the_working_directory() {
    let dir = directory_of("instance.conf");
    assert_eq!(dir, ".");
    assert_eq!(temp_file_for("instance.conf", &dir), Some("./.instance.conf.tmp".to_string()));
}

#[test]
fn a_root_or_parent_path_names_no_file() {
    assert_eq!(directory_of("/"), ".");
    assert_eq!(temp_file_for("/", "."), None);
    let dir = directory_of("/shared/..");
    assert_eq!(dir, "/shared");
    assert_eq!(temp_file_for("/shared/..", &dir), None);
}

#[test]
fn exported_key_names() {
    assert_eq!(ExportedKey::InstanceId.name(), "INSTANCE_ID");
    assert_eq!(ExportedKey::AppId.name(), "APP_ID");
    assert_eq!(ExportedKey::AppName.name(), "APP_NAME");
    assert_eq!(ExportedKey::ComposeHash.name(), "COMPOSE_HASH");
}

#[test]
fn default_values() {
    assert!(matches!(Setting::ServerHost.default_value(), DefaultValue::Text("0.0.0.0")));
    assert!(matches!(Setting::ServerPort.default_value(), DefaultValue::Integer(9999)));
    assert!(matches!(Setting::InstanceFileEnabled.default_value(), DefaultValue::Flag(false)));
    assert!(matches!(Setting::InstanceFilePath.default_value(), DefaultValue::Text("/shared/instance.conf")));
    assert!(matches!(Setting::InstanceFileRetries.default_value(), DefaultValue::Integer(5)));
    assert!(matches!(Setting::InstanceFileRetryDelayMs.default_value(), DefaultValue::Integer(2000)));
}

#[test]
fn joins_paths_as_unix_does() {
    assert_eq!(join("/shared", ".instance.conf.tmp"), "/shared/.instance.conf.tmp");
    assert_eq!(join("/shared/", "x"), "/shared/x");
    assert_eq!(join("/", "x"), "/x");
    assert_eq!(join(".", ".a.tmp"), "./.a.tmp");
    assert_eq!(join("", "x"), "x");
    assert_eq!(join("a", "/b"), "/b");
}

#[test]
fn checks_prefixes() {
    assert!(starts_with("quote_sidecar_server", "quote_sidecar_"));
    assert!(starts_with("abc", ""));
    assert!(!starts_with("quote", "quote_sidecar_"));
    assert!(!starts_with("xquote_sidecar_", "quote_sidecar_"));
}
