use quote_sidecar::fragment::{exported_fields, render, ExportedKey, InstanceInfo};

/// Builds an identity with the given exported fields and fixed other fields.
fn info_fixture(instance_id: &str, app_id: &str, app_name: &str, compose_hash: &str) -> InstanceInfo {
    InstanceInfo {
        app_id: app_id.to_string(),
        instance_id: instance_id.to_string(),
        app_cert: "-----BEGIN CERTIFICATE-----\nirrelevant\n-----END CERTIFICATE-----".to_string(),
        app_name: app_name.to_string(),
        device_id: "device-id".to_string(),
        key_provider_info: "{}".to_string(),
        compose_hash: compose_hash.to_string(),
    }
}

#[test]
fn should_emit_the_four_exported_keys_in_a_stable_order() {
    let info = info_fixture("i-1", "app-1", "my-app", "hash-1");

    let result = render(&info).expect("render must succeed");

    assert_eq!(
        result,
        "@SET INSTANCE_ID=i-1\n@SET APP_ID=app-1\n@SET APP_NAME=my-app\n@SET COMPOSE_HASH=hash-1\n"
    );
}

#[test]
fn should_write_values_unquoted() {
    let info = info_fixture("i-1", "app-1", "it's an app", "hash-1");

    let result = render(&info).expect("render must succeed");

    assert!(
        result.contains("@SET APP_NAME=it's an app\n"),
        "@SET takes the value literally, quotes would become part of it: {result}"
    );
}

#[test]
fn should_reject_a_value_containing_a_newline() {
    let info = info_fixture("i-1", "app-1", "evil\n@SET INSTANCE_ID=spoofed", "hash-1");

    let result = render(&info);

    assert!(result.is_err(), "a newline must not reach the file");
}

#[test]
fn should_not_leak_the_app_certificate() {
    let info = info_fixture("i-1", "app-1", "my-app", "hash-1");

    let result = render(&info).expect("render must succeed");

    assert!(
        !result.contains("BEGIN CERTIFICATE"),
        "app_cert must never reach the instance file: {result}"
    );
}

#[test]
fn rejection_names_the_first_offending_field() {
    let info = info_fixture("i-1", "app-1", "evil\nline", "hash\n2");

    let err = render(&info).expect_err("a newline must be refused");

    assert_eq!(err.key, ExportedKey::AppName);
    assert_eq!(
        err.message(),
        "Guest agent returned a APP_NAME containing a newline, which cannot be exported"
    );
}

#[test]
fn rejection_of_the_last_field() {
    let info = info_fixture("i-1", "app-1", "my-app", "hash\n");

    let err = render(&info).expect_err("a newline must be refused");

    assert_eq!(err.key, ExportedKey::ComposeHash);
}

#[test]
fn carriage_returns_and_empty_values_are_kept() {
    let info = info_fixture("", "app\r1", "", "h");

    let result = render(&info).expect("render must succeed");

    assert_eq!(result, "@SET INSTANCE_ID=\n@SET APP_ID=app\r1\n@SET APP_NAME=\n@SET COMPOSE_HASH=h\n");
}

#[test]
fn non_exported_fields_do_not_change_the_fragment() {
    let a = info_fixture("i-1", "app-1", "my-app", "hash-1");
    let mut b = info_fixture("i-1", "app-1", "my-app", "hash-1");
    b.app_cert = "other\ncert".to_string();
    b.device_id = "other\ndevice".to_string();
    b.key_provider_info = "x".to_string();

    assert_eq!(render(&a).unwrap(), render(&b).unwrap());
}

#[test]
fn rendered_fragment_has_one_line_per_field() {
    let info = info_fixture("i-1", "app 1", "name=with=equals", "h");

    let result = render(&info).unwrap();

    assert_eq!(result.matches('\n').count(), 4);
    assert!(result.ends_with('\n'));
    assert!(result.lines().all(|line| line.starts_with("@SET ")));
}

#[test]
fn exported_fields_come_in_order() {
    let info = info_fixture("i", "a", "n", "c");

    let fields = exported_fields(&info);

    let names: Vec<&str> = fields.iter().map(|(k, _)| k.name()).collect();
    let values: Vec<&str> = fields.iter().map(|(_, v)| *v).collect();
    assert_eq!(names, vec!["INSTANCE_ID", "APP_ID", "APP_NAME", "COMPOSE_HASH"]);
    assert_eq!(values, vec!["i", "a", "n", "c"]);
}
