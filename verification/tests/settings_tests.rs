use quote_sidecar::settings::{
    Config, FluentBitFragmentConfig, LoadError, RawSettings, ServerConfig, Setting, names_a_setting,
};

fn vars(pairs: &[(&str, &str)]) -> Vec<(String, String)> {
    pairs.iter().map(|(k, v)| (k.to_string(), v.to_string())).collect()
}

#[test]
fn defaults_apply_without_variables() {
    let config = Config::load(vec![]).expect("defaults must load");

    assert_eq!(config.server.host, "0.0.0.0");
    assert_eq!(config.server.port, 9999);
    assert!(!config.instance_file.enabled);
    assert!(config.instance_file.required);
    assert_eq!(config.instance_file.path, "/shared/instance.conf");
    assert_eq!(config.instance_file.retries, 5);
    assert_eq!(config.instance_file.retry_delay_ms, 2000);
    assert_eq!(config.bind_addr(), "0.0.0.0:9999");
}

#[test]
fn variables_override_the_server_address() {
    let config = Config::load(vars(&[
        ("QUOTE_SIDECAR_SERVER__HOST", "127.0.0.1"),
        ("QUOTE_SIDECAR_SERVER__PORT", "8080"),
    ]))
    .expect("must load");

    assert_eq!(config.bind_addr(), "127.0.0.1:8080");
}

#[test]
fn variables_override_the_fragment_settings() {
    let config = Config::load(vars(&[
        ("QUOTE_SIDECAR_INSTANCE_FILE__ENABLED", "true"),
        ("QUOTE_SIDECAR_INSTANCE_FILE__PATH", "/tmp/identity.conf"),
        ("QUOTE_SIDECAR_INSTANCE_FILE__RETRIES", "0"),
        ("QUOTE_SIDECAR_INSTANCE_FILE__RETRY_DELAY_MS", "15"),
    ]))
    .expect("must load");

    let fragment = config.instance_file;
    assert!(fragment.enabled);
    assert!(fragment.required);
    assert_eq!(fragment.path, "/tmp/identity.conf");
    assert_eq!(fragment.retries, 0);
    assert_eq!(fragment.retry_delay_ms, 15);
}

#[test]
fn unrelated_variables_are_ignored() {
    let config = Config::load(vars(&[
        ("PATH", "/usr/bin"),
        ("SERVER__PORT", "1"),
        ("QUOTE_SIDECAR_SERVER_PORT", "2"),
    ]))
    .expect("must load");

    assert_eq!(config.server.port, 9999);
}

#[test]
fn a_port_beyond_sixteen_bits_is_refused() {
    let result = Config::load(vars(&[("QUOTE_SIDECAR_SERVER__PORT", "70000")]));

    match result {
        Err(LoadError::OutOfRange { setting, value }) => {
            assert_eq!(setting, Setting::ServerPort);
            assert_eq!(value, 70000);
        }
        other => panic!("unexpected: {other:?}"),
    }
}

#[test]
fn a_port_that_is_no_number_is_refused() {
    let result = Config::load(vars(&[("QUOTE_SIDECAR_SERVER__PORT", "http")]));

    assert!(matches!(result, Err(LoadError::Layers { .. })));
}

#[test]
fn a_flag_that_is_no_boolean_is_refused() {
    let result = Config::load(vars(&[("QUOTE_SIDECAR_INSTANCE_FILE__ENABLED", "maybe")]));

    assert!(matches!(result, Err(LoadError::Layers { .. })));
}

#[test]
fn retries_beyond_thirty_two_bits_are_refused() {
    let result = Config::load(vars(&[("QUOTE_SIDECAR_INSTANCE_FILE__RETRIES", "4294967296")]));

    match result {
        Err(LoadError::OutOfRange { setting, value }) => {
            assert_eq!(setting, Setting::InstanceFileRetries);
            assert_eq!(value, 4294967296);
        }
        other => panic!("unexpected: {other:?}"),
    }
}

#[test]
fn settings_are_checked_in_order() {
    let raw = RawSettings {
        host: Ok("h".to_string()),
        port: Ok(65536),
        enabled: Err(LoadError::Layers { message: "bad flag".to_string() }),
        required: Ok(true),
        path: Ok("/p".to_string()),
        retries: Ok(1),
        retry_delay_ms: Ok(2),
    };

    match Config::from_settings(raw) {
        Err(LoadError::OutOfRange { setting, value }) => {
            assert_eq!(setting, Setting::ServerPort);
            assert_eq!(value, 65536);
        }
        other => panic!("unexpected: {other:?}"),
    }
}

#[test]
fn settings_assemble_into_a_configuration() {
    let raw = RawSettings {
        host: Ok("h".to_string()),
        port: Ok(65535),
        enabled: Ok(true),
        required: Ok(false),
        path: Ok("/p".to_string()),
        retries: Ok(4294967295),
        retry_delay_ms: Ok(u64::MAX),
    };

    let config = Config::from_settings(raw).expect("must assemble");

    assert_eq!(config.server.port, 65535);
    assert_eq!(config.instance_file.retries, u32::MAX);
    assert_eq!(config.instance_file.retry_delay_ms, u64::MAX);
    assert_eq!(config.bind_addr(), "h:65535");
}

#[test]
fn bind_addr_writes_the_port_in_decimal() {
    let config = Config {
        server: ServerConfig { host: "::1".to_string(), port: 0 },
        instance_file: FluentBitFragmentConfig {
            enabled: false,
            path: "/x".to_string(),
            required: true,
            retries: 0,
            retry_delay_ms: 0,
        },
    };

    assert_eq!(config.bind_addr(), "::1:0");
}

#[test]
fn setting_keys() {
    assert_eq!(Setting::ServerHost.key(), "server.host");
    assert_eq!(Setting::InstanceFileRetryDelayMs.key(), "instance_file.retry_delay_ms");
}

#[test]
fn the_instance_file_example_loads() {
    let config = Config::load(vars(&[
        ("QUOTE_SIDECAR_INSTANCE_FILE__ENABLED", "true"),
        ("QUOTE_SIDECAR_INSTANCE_FILE__PATH", "/tmp/dstack-test/instance.conf"),
    ]))
    .expect("must load");

    assert!(config.instance_file.enabled);
    assert_eq!(config.instance_file.path, "/tmp/dstack-test/instance.conf");
    assert!(config.instance_file.required);
    assert_eq!(config.server.port, 9999);
}

#[test]
fn the_instance_file_can_be_made_optional() {
    let config = Config::load(vars(&[("QUOTE_SIDECAR_INSTANCE_FILE__REQUIRED", "false")])).expect("must load");

    assert!(!config.instance_file.required);
    assert!(!config.instance_file.enabled);
}

#[test]
fn misnamed_variables_set_nothing() {
    let config = Config::load(vars(&[
        ("QUOTE_SIDECAR__SERVER__PORT", "8080"),
        ("QUOTE_SIDECAR_SERVER_PORT", "8081"),
    ]))
    .expect("must load");

    assert_eq!(config.server.port, 9999);
    assert_eq!(config.bind_addr(), "0.0.0.0:9999");
}

#[test]
fn variable_names_are_matched_in_any_case() {
    let config = Config::load(vars(&[("quote_sidecar_server__port", "+8080")])).expect("must load");

    assert_eq!(config.server.port, 8080);
}

#[test]
fn flags_read_words_in_any_case() {
    let config = Config::load(vars(&[
        ("QUOTE_SIDECAR_INSTANCE_FILE__ENABLED", "YES"),
        ("QUOTE_SIDECAR_INSTANCE_FILE__REQUIRED", "off"),
    ]))
    .expect("must load");

    assert!(config.instance_file.enabled);
    assert!(!config.instance_file.required);
}

#[test]
fn retries_read_words_as_numbers() {
    let config = Config::load(vars(&[("QUOTE_SIDECAR_INSTANCE_FILE__RETRIES", "true")])).expect("must load");

    assert_eq!(config.instance_file.retries, 1);
}

#[test]
fn a_negative_delay_is_refused() {
    let result = Config::load(vars(&[("QUOTE_SIDECAR_INSTANCE_FILE__RETRY_DELAY_MS", "-5")]));

    assert!(matches!(result, Err(LoadError::Layers { .. })));
}

#[test]
fn non_ascii_names_without_the_prefix_are_ignored() {
    let config = Config::load(vars(&[
        ("ÜBER_PORT", "1"),
        ("QUOTE_SIDECAR_SERVER__PORT", "8081"),
        ("Ωmega", "x"),
    ]))
    .expect("must load");

    assert_eq!(config.bind_addr(), "0.0.0.0:8081");
}

#[test]
fn a_variable_replacing_a_section_is_refused() {
    let result = Config::load(vars(&[("QUOTE_SIDECAR_SERVER", "x")]));
    assert!(matches!(result, Err(LoadError::Layers { .. })));

    let result = Config::load(vars(&[("quote_sidecar_instance_file", "on")]));
    assert!(matches!(result, Err(LoadError::Layers { .. })));
}

#[test]
fn keys_beside_the_settings_change_nothing() {
    let config = Config::load(vars(&[
        ("QUOTE_SIDECAR_INSTANCE_FILE__GENERATE", "true"),
        ("QUOTE_SIDECAR_SERVER__WORKERS", "4"),
        ("QUOTE_SIDECAR_OTHER__THING", "1"),
        ("QUOTE_SIDECAR_SERVER__LIMITS__MAX", "3"),
        ("QUOTE_SIDECAR_SERVER__", "y"),
    ]))
    .expect("must load");

    assert!(!config.instance_file.enabled);
    assert_eq!(config.bind_addr(), "0.0.0.0:9999");
}

#[test]
fn recognises_the_names_of_settings() {
    assert!(names_a_setting("QUOTE_SIDECAR_SERVER__HOST"));
    assert!(names_a_setting("Quote_Sidecar_anything"));
    assert!(names_a_setting("QUOTE_SIDECAR_"));
    assert!(!names_a_setting("QUOTE_SIDECAR"));
    assert!(!names_a_setting("QUOTE_SIDECARX_SERVER__HOST"));
    assert!(!names_a_setting("PATH"));
    assert!(!names_a_setting("ÜQUOTE_SIDECAR_"));
}

#[test]
fn a_variable_below_a_setting_makes_it_unreadable() {
    let result = Config::load(vars(&[("QUOTE_SIDECAR_SERVER__HOST__NAME", "x")]));
    assert!(matches!(result, Err(LoadError::Layers { .. })));
}
