use quote_sidecar::fragment::{ExportedKey, InstanceInfo};
use quote_sidecar::settings::FluentBitFragmentConfig;
use quote_sidecar::startup::{Action, Outcome, Startup, StartupError};

fn fragment_config(enabled: bool, path: &str, retries: u32) -> FluentBitFragmentConfig {
    FluentBitFragmentConfig {
        enabled,
        required: true,
        path: path.to_string(),
        retries,
        retry_delay_ms: 2000,
    }
}

fn info(app_name: &str) -> InstanceInfo {
    InstanceInfo {
        app_id: "app-1".to_string(),
        instance_id: "i-1".to_string(),
        app_cert: "cert".to_string(),
        app_name: app_name.to_string(),
        device_id: "d".to_string(),
        key_provider_info: "{}".to_string(),
        compose_hash: "hash-1".to_string(),
    }
}

fn step(s: Startup, outcome: Outcome) -> (Startup, Action) {
    assert!(s.accepts(&outcome), "outcome out of place");
    s.step(outcome)
}

#[test]
fn serves_at_once_when_no_fragment_is_asked_for() {
    let (s, action) = Startup::begin(&fragment_config(false, "/shared/instance.conf", 5));

    assert!(matches!(action, Action::Serve));
    assert!(s.is_finished());
    assert!(!s.accepts(&Outcome::Done));
}

#[test]
fn writes_the_fragment_then_serves() {
    let (s, action) = Startup::begin(&fragment_config(true, "/shared/instance.conf", 5));
    assert!(matches!(action, Action::QueryInfo { attempt: 1, attempts: 6 }));

    let (s, action) = step(s, Outcome::Info(info("my-app")));
    match &action {
        Action::CreateDir { dir } => assert_eq!(dir, "/shared"),
        other => panic!("unexpected: {other:?}"),
    }

    let (s, action) = step(s, Outcome::Done);
    match &action {
        Action::WriteFile { path, contents } => {
            assert_eq!(path, "/shared/.instance.conf.tmp");
            assert_eq!(
                contents,
                "@SET INSTANCE_ID=i-1\n@SET APP_ID=app-1\n@SET APP_NAME=my-app\n@SET COMPOSE_HASH=hash-1\n"
            );
        }
        other => panic!("unexpected: {other:?}"),
    }

    let (s, action) = step(s, Outcome::Done);
    match &action {
        Action::Rename { from, to } => {
            assert_eq!(from, "/shared/.instance.conf.tmp");
            assert_eq!(to, "/shared/instance.conf");
        }
        other => panic!("unexpected: {other:?}"),
    }

    let (s, action) = step(s, Outcome::Done);
    assert!(matches!(action, Action::Serve));
    assert!(s.is_finished());
}

#[test]
fn retries_failed_queries_then_gives_up() {
    let (mut s, action) = Startup::begin(&fragment_config(true, "/shared/instance.conf", 2));
    assert!(matches!(action, Action::QueryInfo { attempt: 1, attempts: 3 }));

    for attempt in 1..3u32 {
        let (next, action) = step(s, Outcome::Failed("socket not ready".to_string()));
        match action {
            Action::Sleep { millis, failed_attempt, attempts, cause } => {
                assert_eq!(millis, 2000);
                assert_eq!(failed_attempt, attempt);
                assert_eq!(attempts, 3);
                assert_eq!(cause, "socket not ready");
            }
            other => panic!("unexpected: {other:?}"),
        }
        let (next, action) = step(next, Outcome::Done);
        match action {
            Action::QueryInfo { attempt: a, attempts } => {
                assert_eq!(a, attempt + 1);
                assert_eq!(attempts, 3);
            }
            other => panic!("unexpected: {other:?}"),
        }
        s = next;
    }

    let (s, action) = step(s, Outcome::Failed("still down".to_string()));
    match action {
        Action::Abort { error: StartupError::GuestAgent { attempts, cause } } => {
            assert_eq!(attempts, 3);
            assert_eq!(cause, "still down");
        }
        other => panic!("unexpected: {other:?}"),
    }
    assert!(s.is_finished());
}

#[test]
fn no_retries_means_a_single_query() {
    let (s, action) = Startup::begin(&fragment_config(true, "/x/y", 0));
    assert!(matches!(action, Action::QueryInfo { attempt: 1, attempts: 1 }));

    let (_, action) = step(s, Outcome::Failed("down".to_string()));
    assert!(matches!(action, Action::Abort { error: StartupError::GuestAgent { attempts: 1, .. } }));
}

#[test]
fn the_retry_count_saturates() {
    let (_, action) = Startup::begin(&fragment_config(true, "/x/y", u32::MAX));

    assert!(matches!(action, Action::QueryInfo { attempt: 1, attempts: u32::MAX }));
}

#[test]
fn a_query_succeeding_after_a_failure_goes_on() {
    let (s, _) = Startup::begin(&fragment_config(true, "/x/y", 1));
    let (s, _) = step(s, Outcome::Failed("down".to_string()));
    let (s, action) = step(s, Outcome::Done);
    assert!(matches!(action, Action::QueryInfo { attempt: 2, attempts: 2 }));

    let (_, action) = step(s, Outcome::Info(info("app")));
    assert!(matches!(action, Action::CreateDir { .. }));
}

#[test]
fn an_identity_with_a_newline_aborts_before_writing() {
    let (s, _) = Startup::begin(&fragment_config(true, "/shared/instance.conf", 5));

    let (s, action) = step(s, Outcome::Info(info("evil\n@SET INSTANCE_ID=spoofed")));

    match action {
        Action::Abort { error: StartupError::Render(e) } => assert_eq!(e.key, ExportedKey::AppName),
        other => panic!("unexpected: {other:?}"),
    }
    assert!(s.is_finished());
}

#[test]
fn a_failed_rename_removes_the_staged_file() {
    let (s, _) = Startup::begin(&fragment_config(true, "/shared/instance.conf", 5));
    let (s, _) = step(s, Outcome::Info(info("app")));
    let (s, _) = step(s, Outcome::Done);
    let (s, _) = step(s, Outcome::Done);

    let (s, action) = step(s, Outcome::Failed("cross-device link".to_string()));
    match &action {
        Action::RemoveFile { path } => assert_eq!(path, "/shared/.instance.conf.tmp"),
        other => panic!("unexpected: {other:?}"),
    }

    let (s, action) = step(s, Outcome::Failed("no such file".to_string()));
    match action {
        Action::Abort { error: StartupError::Rename { from, to, cause } } => {
            assert_eq!(from, "/shared/.instance.conf.tmp");
            assert_eq!(to, "/shared/instance.conf");
            assert_eq!(cause, "cross-device link");
        }
        other => panic!("unexpected: {other:?}"),
    }
    assert!(s.is_finished());
}

#[test]
fn a_failed_directory_creation_aborts() {
    let (s, _) = Startup::begin(&fragment_config(true, "/shared/instance.conf", 5));
    let (s, _) = step(s, Outcome::Info(info("app")));

    let (_, action) = step(s, Outcome::Failed("permission denied".to_string()));
    match action {
        Action::Abort { error: StartupError::CreateDir { dir, cause } } => {
            assert_eq!(dir, "/shared");
            assert_eq!(cause, "permission denied");
        }
        other => panic!("unexpected: {other:?}"),
    }
}

#[test]
fn a_failed_write_aborts() {
    let (s, _) = Startup::begin(&fragment_config(true, "/shared/instance.conf", 5));
    let (s, _) = step(s, Outcome::Info(info("app")));
    let (s, _) = step(s, Outcome::Done);

    let (_, action) = step(s, Outcome::Failed("disk full".to_string()));
    match action {
        Action::Abort { error: StartupError::WriteFile { path, cause } } => {
            assert_eq!(path, "/shared/.instance.conf.tmp");
            assert_eq!(cause, "disk full");
        }
        other => panic!("unexpected: {other:?}"),
    }
}

#[test]
fn a_bare_file_name_is_staged_in_the_working_directory() {
    let (s, _) = Startup::begin(&fragment_config(true, "instance.conf", 5));

    let (s, action) = step(s, Outcome::Info(info("app")));
    match &action {
        Action::CreateDir { dir } => assert_eq!(dir, "."),
        other => panic!("unexpected: {other:?}"),
    }
    let (_, action) = step(s, Outcome::Done);
    match &action {
        Action::WriteFile { path, .. } => assert_eq!(path, "./.instance.conf.tmp"),
        other => panic!("unexpected: {other:?}"),
    }
}

#[test]
fn a_path_without_a_file_name_aborts() {
    let (s, _) = Startup::begin(&fragment_config(true, "/", 5));
    let (s, action) = step(s, Outcome::Info(info("app")));
    match &action {
        Action::CreateDir { dir } => assert_eq!(dir, "."),
        other => panic!("unexpected: {other:?}"),
    }

    let (_, action) = step(s, Outcome::Done);
    match action {
        Action::Abort { error: StartupError::NoFileName { path } } => assert_eq!(path, "/"),
        other => panic!("unexpected: {other:?}"),
    }
}

#[test]
fn outcomes_out_of_place_are_not_accepted() {
    let (s, _) = Startup::begin(&fragment_config(true, "/x/y", 5));
    assert!(!s.accepts(&Outcome::Done));
    assert!(s.accepts(&Outcome::Failed("x".to_string())));

    let (s, _) = s.step(Outcome::Failed("x".to_string()));
    assert!(!s.accepts(&Outcome::Info(info("a"))));
    assert!(!s.accepts(&Outcome::Failed("x".to_string())));
    assert!(s.accepts(&Outcome::Done));
}

fn optional_config(path: &str, retries: u32) -> FluentBitFragmentConfig {
    FluentBitFragmentConfig {
        enabled: true,
        path: path.to_string(),
        required: false,
        retries,
        retry_delay_ms: 10,
    }
}

#[test]
fn an_optional_fragment_that_cannot_be_fetched_still_serves() {
    let (s, _) = Startup::begin(&optional_config("/shared/instance.conf", 0));

    let (s, action) = step(s, Outcome::Failed("down".to_string()));
    match action {
        Action::ServeWithoutFragment { error: StartupError::GuestAgent { attempts, cause } } => {
            assert_eq!(attempts, 1);
            assert_eq!(cause, "down");
        }
        other => panic!("unexpected: {other:?}"),
    }
    assert!(s.is_finished());
}

#[test]
fn an_optional_fragment_that_cannot_be_moved_still_serves_after_cleanup() {
    let (s, _) = Startup::begin(&optional_config("/shared/instance.conf", 0));
    let (s, _) = step(s, Outcome::Info(info("app")));
    let (s, _) = step(s, Outcome::Done);
    let (s, _) = step(s, Outcome::Done);
    let (s, action) = step(s, Outcome::Failed("busy".to_string()));
    assert!(matches!(action, Action::RemoveFile { .. }));

    let (s, action) = step(s, Outcome::Done);
    assert!(matches!(action, Action::ServeWithoutFragment { error: StartupError::Rename { .. } }));
    assert!(s.is_finished());
}

#[test]
fn an_optional_fragment_that_renders_badly_still_serves() {
    let (s, _) = Startup::begin(&optional_config("/shared/instance.conf", 3));

    let (_, action) = step(s, Outcome::Info(info("bad\nname")));
    assert!(matches!(action, Action::ServeWithoutFragment { error: StartupError::Render(_) }));
}

#[test]
fn an_optional_fragment_written_serves_normally() {
    let (s, _) = Startup::begin(&optional_config("/shared/instance.conf", 3));
    let (s, _) = step(s, Outcome::Info(info("app")));
    let (s, _) = step(s, Outcome::Done);
    let (s, _) = step(s, Outcome::Done);

    let (_, action) = step(s, Outcome::Done);
    assert!(matches!(action, Action::Serve));
}

#[test]
fn startup_errors_describe_themselves() {
    let error = StartupError::GuestAgent { attempts: 6, cause: "connection refused".to_string() };
    assert_eq!(error.message(), "Failed to query the dstack guest agent after 6 attempt(s)");
    assert_eq!(error.cause(), Some("connection refused"));

    let error = StartupError::CreateDir { dir: "/shared".to_string(), cause: "denied".to_string() };
    assert_eq!(error.message(), "Failed to create directory /shared");
    assert_eq!(error.cause(), Some("denied"));

    let error = StartupError::NoFileName { path: "/".to_string() };
    assert_eq!(error.message(), "Instance file path / has no file name");
    assert_eq!(error.cause(), None);

    let error = StartupError::WriteFile { path: "/shared/.a.tmp".to_string(), cause: "full".to_string() };
    assert_eq!(error.message(), "Failed to write /shared/.a.tmp");

    let error = StartupError::Rename {
        from: "/shared/.a.tmp".to_string(),
        to: "/shared/a".to_string(),
        cause: "busy".to_string(),
    };
    assert_eq!(error.message(), "Failed to move /shared/.a.tmp to /shared/a");
    assert_eq!(error.cause(), Some("busy"));
}

#[test]
fn an_aborted_startup_reports_the_required_file() {
    let error = StartupError::GuestAgent { attempts: 1, cause: "refused".to_string() };
    assert_eq!(
        error.abort_report(),
        vec![
            "Failed to write the required instance file".to_string(),
            "Failed to query the dstack guest agent after 1 attempt(s)".to_string(),
            "refused".to_string(),
        ]
    );

    let error = StartupError::NoFileName { path: "/".to_string() };
    assert_eq!(
        error.abort_report(),
        vec![
            "Failed to write the required instance file".to_string(),
            "Instance file path / has no file name".to_string(),
        ]
    );
}
