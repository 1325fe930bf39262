use proxy::compute::filtered_options;
use proxy::compute::replication_mode_from_param;
use proxy::compute::next_connect_action;
use proxy::compute::AttemptOutcome;
use proxy::compute::ConnCfg;
use proxy::compute::ConnectAction;
use proxy::compute::ConnectPlanError;
use proxy::compute::ConnectionError;
use proxy::compute::Host;
use proxy::compute::ReplicationMode;
use proxy::compute::ScramKeys;
use proxy::compute::COULD_NOT_CONNECT;
use proxy::compute::DEFAULT_PORT;
use proxy::startup::StartupMessageParams;

#[test]
fn test_filtered_options() {
    // Empty options is unlikely to be useful anyway.
    let params = StartupMessageParams::new([("options", "")]);
    assert_eq!(filtered_options(&params), None);

    // It's likely that clients will only use options to specify endpoint/project.
    let params = StartupMessageParams::new([("options", "project=foo")]);
    assert_eq!(filtered_options(&params), None);

    // Same, because unescaped whitespaces are no-op.
    let params = StartupMessageParams::new([("options", " project=foo ")]);
    assert_eq!(filtered_options(&params).as_deref(), None);

    let params = StartupMessageParams::new([("options", r"\  project=foo \ ")]);
    assert_eq!(filtered_options(&params).as_deref(), Some(r"\  \ "));

    let params = StartupMessageParams::new([("options", "project = foo")]);
    assert_eq!(filtered_options(&params).as_deref(), Some("project = foo"));
}

#[test]
fn filtered_options_without_options_parameter() {
    let params = StartupMessageParams::new([("user", "alice")]);
    assert_eq!(filtered_options(&params), None);
}

#[test]
fn filtered_options_drops_only_project_options() {
    let params = StartupMessageParams::new([("options", "-c\tgeqo=off  project=x\n-c a=b")]);
    assert_eq!(filtered_options(&params).as_deref(), Some("-c geqo=off -c a=b"));
}

#[test]
fn filtered_options_keeps_escaped_project() {
    // an escaped space does not separate, so the option does not start with `project=`
    let params = StartupMessageParams::new([("options", r"x\ project=y")]);
    assert_eq!(filtered_options(&params).as_deref(), Some(r"x\ project=y"));
}

#[test]
fn filtered_options_are_stable() {
    let params = StartupMessageParams::new([("options", "  -c  a=1 project=p\t-c b=\\ 2 ")]);
    let once = filtered_options(&params).unwrap();
    assert_eq!(once, "-c a=1 -c b=\\ 2");
    let again = StartupMessageParams::new([("options", once.as_str())]);
    assert_eq!(filtered_options(&again), Some(once));
}

#[test]
fn replication_values() {
    for v in ["true", "on", "yes", "1"] {
        assert_eq!(replication_mode_from_param(v), Some(ReplicationMode::Physical));
    }
    assert_eq!(replication_mode_from_param("database"), Some(ReplicationMode::Logical));
    assert_eq!(replication_mode_from_param("false"), None);
    assert_eq!(replication_mode_from_param("True"), None);
    assert_eq!(replication_mode_from_param(""), None);
}

#[test]
fn startup_params_fill_empty_config() {
    let params = StartupMessageParams::new([
        ("user", "alice"),
        ("database", "db1"),
        ("options", "project=p -c x=1"),
        ("application_name", "psql"),
        ("replication", "database"),
    ]);
    let mut cfg = ConnCfg::new();
    cfg.set_startup_params(&params);
    assert_eq!(cfg.get_user(), Some("alice"));
    assert_eq!(cfg.get_dbname(), Some("db1"));
    assert_eq!(cfg.get_options(), Some("-c x=1"));
    assert_eq!(cfg.get_application_name(), Some("psql"));
    assert_eq!(cfg.get_replication_mode(), Some(ReplicationMode::Logical));
}

#[test]
fn startup_params_keep_existing_user_and_dbname() {
    let params = StartupMessageParams::new([("user", "alice"), ("database", "db1")]);
    let mut cfg = ConnCfg::new();
    cfg.user("bob");
    cfg.dbname("main");
    cfg.options("-c keep=1");
    cfg.set_startup_params(&params);
    assert_eq!(cfg.get_user(), Some("bob"));
    assert_eq!(cfg.get_dbname(), Some("main"));
    // no options in the message: the config keeps its own
    assert_eq!(cfg.get_options(), Some("-c keep=1"));
    assert_eq!(cfg.get_application_name(), None);
    assert_eq!(cfg.get_replication_mode(), None);
}

#[test]
fn startup_params_unknown_replication_is_ignored() {
    let mut cfg = ConnCfg::new();
    cfg.replication_mode(ReplicationMode::Physical);
    cfg.set_startup_params(&StartupMessageParams::new([("replication", "off")]));
    assert_eq!(cfg.get_replication_mode(), Some(ReplicationMode::Physical));
    cfg.set_startup_params(&StartupMessageParams::new([("replication", "database")]));
    assert_eq!(cfg.get_replication_mode(), Some(ReplicationMode::Logical));
    cfg.set_startup_params(&StartupMessageParams::new([("replication", "on")]));
    assert_eq!(cfg.get_replication_mode(), Some(ReplicationMode::Physical));
}

#[test]
fn startup_params_twice_as_once() {
    let params = StartupMessageParams::new([("user", "u"), ("options", "a project=b")]);
    let mut once = ConnCfg::new();
    once.set_startup_params(&params);
    let mut twice = ConnCfg::new();
    twice.set_startup_params(&params);
    twice.set_startup_params(&params);
    assert_eq!(once.get_user(), twice.get_user());
    assert_eq!(once.get_options(), twice.get_options());
    assert_eq!(twice.get_options(), Some("a"));
}

#[test]
fn reuse_password_copies_what_is_set() {
    let keys = ScramKeys { client_key: [1; 32], server_key: [2; 32] };
    let mut other = ConnCfg::new();
    other.password(b"secret");
    other.auth_keys(keys);
    let mut cfg = ConnCfg::new();
    cfg.password(b"old");
    cfg.user("u");
    cfg.reuse_password(&other);
    assert_eq!(cfg.get_password(), Some(&b"secret"[..]));
    let got = cfg.get_auth_keys().unwrap();
    assert_eq!(got.client_key, [1; 32]);
    assert_eq!(got.server_key, [2; 32]);
    assert_eq!(cfg.get_user(), Some("u"));
}

#[test]
fn reuse_password_keeps_own_when_other_has_none() {
    let other = ConnCfg::new();
    let mut cfg = ConnCfg::new();
    cfg.password(b"mine");
    cfg.reuse_password(&other);
    assert_eq!(cfg.get_password(), Some(&b"mine"[..]));
    assert!(cfg.get_auth_keys().is_none());
}

fn targets(cfg: &ConnCfg) -> Vec<(String, u16)> {
    cfg.connect_targets()
        .unwrap()
        .into_iter()
        .map(|t| (t.host, t.port))
        .collect()
}

#[test]
fn connect_targets_default_port() {
    let mut cfg = ConnCfg::new();
    cfg.host("a");
    cfg.host("b");
    assert_eq!(targets(&cfg), vec![("a".to_string(), DEFAULT_PORT), ("b".to_string(), 5432)]);
}

#[test]
fn connect_targets_single_port_for_all() {
    let mut cfg = ConnCfg::new();
    cfg.host("a");
    cfg.host("b");
    cfg.port(6543);
    assert_eq!(targets(&cfg), vec![("a".to_string(), 6543), ("b".to_string(), 6543)]);
}

#[test]
fn connect_targets_port_per_host_skipping_unix() {
    let mut cfg = ConnCfg::new();
    cfg.host("a");
    cfg.host_path("/run/pg");
    cfg.host("c");
    cfg.port(1);
    cfg.port(2);
    cfg.port(3);
    assert_eq!(targets(&cfg), vec![("a".to_string(), 1), ("c".to_string(), 3)]);
    assert_eq!(cfg.get_hosts().len(), 3);
    assert!(matches!(&cfg.get_hosts()[1], Host::Unix(p) if p == "/run/pg"));
    assert_eq!(cfg.get_ports(), &[1, 2, 3]);
}

#[test]
fn connect_targets_port_count_mismatch() {
    let mut cfg = ConnCfg::new();
    cfg.host("a");
    cfg.port(1);
    cfg.port(2);
    assert_eq!(
        cfg.connect_targets().err(),
        Some(ConnectPlanError::PortCountMismatch { ports: 2, hosts: 1 })
    );
}

#[test]
fn connect_targets_no_hosts() {
    let cfg = ConnCfg::new();
    assert!(targets(&cfg).is_empty());
}

#[test]
fn could_not_connect_message() {
    let err = ConnectionError::CouldNotConnect { description: "connection refused".to_string() };
    assert_eq!(err.to_string_client(), COULD_NOT_CONNECT);
    assert_eq!(COULD_NOT_CONNECT, "Could not connect to compute node");
}

#[test]
fn server_message_reaches_client() {
    let err = ConnectionError::Postgres {
        server_message: Some("password authentication failed for user \"u\"".to_string()),
        description: "db error: FATAL: password authentication failed".to_string(),
    };
    assert_eq!(err.to_string_client(), "password authentication failed for user \"u\"");
}

#[test]
fn description_reaches_client_without_server_message() {
    let err = ConnectionError::Postgres {
        server_message: None,
        description: "unexpected message from server".to_string(),
    };
    assert_eq!(err.to_string_client(), "unexpected message from server");
}

#[test]
fn connect_steps() {
    assert_eq!(next_connect_action(2, 0, None), ConnectAction::Try(0));
    assert_eq!(next_connect_action(2, 1, Some(AttemptOutcome::Failed)), ConnectAction::Try(1));
    assert_eq!(next_connect_action(2, 1, Some(AttemptOutcome::Connected)), ConnectAction::UseConnection);
    assert_eq!(next_connect_action(2, 2, Some(AttemptOutcome::Failed)), ConnectAction::ReturnLastError);
    assert_eq!(next_connect_action(0, 0, None), ConnectAction::ReturnBadConfig);
}

#[test]
fn host_with_slash_is_a_unix_socket() {
    let mut cfg = ConnCfg::new();
    cfg.host("/tmp/sockets");
    cfg.host("db.local");
    assert!(matches!(&cfg.get_hosts()[0], Host::Unix(p) if p == "/tmp/sockets"));
    assert!(matches!(&cfg.get_hosts()[1], Host::Tcp(h) if h == "db.local"));
    assert_eq!(targets(&cfg), vec![("db.local".to_string(), 5432)]);
}
