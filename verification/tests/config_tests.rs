use boss_engine::cli::Mode;
use boss_engine::config::{
    missing_path_message, not_on_path_message, preflight_requirement, PreflightCheck, RuntimeConfig,
};
use boss_engine::numfmt::{format_i64, format_u64};
use boss_engine::registry::{allocate_agent_labels, unknown_agent_message};

#[test]
fn config_requires_the_credential() {
    let err = RuntimeConfig::from_env_values(None, None, "/work".to_owned())
        .expect_err("missing key");
    assert_eq!(err, "ANTHROPIC_API_KEY must be set before starting boss-engine");
}

#[test]
fn config_splits_the_override_command() {
    let cfg = RuntimeConfig::from_env_values(
        Some("test-key".to_owned()),
        Some("node adapter.js --flag value".to_owned()),
        "/work".to_owned(),
    )
    .expect("valid override");
    assert_eq!(cfg.acp_command, "node");
    assert_eq!(cfg.acp_args, vec!["adapter.js", "--flag", "value"]);
    assert_eq!(cfg.cwd, "/work");
    assert_eq!(cfg.anthropic_api_key, "test-key");
}

#[test]
fn config_uses_the_default_command() {
    let cfg = RuntimeConfig::from_env_values(
        Some("test-key".to_owned()),
        None,
        "/work".to_owned(),
    )
    .expect("default command");
    assert_eq!(cfg.acp_command, "pnpm");
    assert_eq!(
        cfg.acp_args,
        vec!["--filter", "@mono/acp-adapter", "exec", "acp-adapter"]
    );
}

#[test]
fn config_rejects_unusable_commands() {
    let err = RuntimeConfig::from_env_values(
        Some("test-key".to_owned()),
        Some("broken 'quote".to_owned()),
        "/".to_owned(),
    )
    .expect_err("unparsable");
    assert_eq!(err, "could not parse BOSS_ACP_CMD: broken 'quote");
    let err = RuntimeConfig::from_env_values(
        Some("test-key".to_owned()),
        Some("".to_owned()),
        "/".to_owned(),
    )
    .expect_err("empty");
    assert_eq!(err, "BOSS_ACP_CMD resolved to an empty command");
}

#[test]
fn preflight_rule_depends_on_path_separator() {
    assert_eq!(preflight_requirement("/usr/bin/adapter"), PreflightCheck::PathMustExist);
    assert_eq!(preflight_requirement("./adapter"), PreflightCheck::PathMustExist);
    assert_eq!(preflight_requirement("adapter"), PreflightCheck::MustBeOnPath);
}

#[test]
fn preflight_failures_point_at_the_override() {
    assert_eq!(
        missing_path_message("/opt/adapter"),
        "ACP command does not exist: /opt/adapter (set BOSS_ACP_CMD to override)"
    );
    assert_eq!(
        not_on_path_message("adapter"),
        "ACP command not found on PATH: adapter (set BOSS_ACP_CMD to override)"
    );
}

#[test]
fn mode_defaults_to_cli() {
    assert_eq!(Mode::default(), Mode::Cli);
}

#[test]
fn agent_labels() {
    let (id, name) = allocate_agent_labels(1, None);
    assert_eq!(id, "agent-1");
    assert_eq!(name, "Agent 1");
    let (id, name) = allocate_agent_labels(2, Some("Helper".to_owned()));
    assert_eq!(id, "agent-2");
    assert_eq!(name, "Helper");
    assert_eq!(unknown_agent_message("agent-9"), "unknown agent: agent-9");
}

#[test]
fn decimal_formatting() {
    assert_eq!(format_u64(0), "0");
    assert_eq!(format_u64(7), "7");
    assert_eq!(format_u64(40961), "40961");
    assert_eq!(format_u64(u64::MAX), "18446744073709551615");
    assert_eq!(format_i64(-15), "-15");
    assert_eq!(format_i64(0), "0");
    assert_eq!(format_i64(i64::MIN), "-9223372036854775808");
}
