use yubikey_notifier::config::Config;
use yubikey_notifier::setup::{
    get_real_scdaemon, parse_scdaemon_from_gpgconf, plan_setup, plan_uninstall,
    render_conf_lines, scdaemon_from_gpgconf_output, SetupError,
};

#[test]
fn parse_gpgconf_output() {
    let output = "gpg:GPG:gpg\nscdaemon:SCDaemon:/usr/local/libexec/scdaemon\n";
    assert_eq!(
        parse_scdaemon_from_gpgconf(output),
        Some("/usr/local/libexec/scdaemon".to_string())
    );
}

#[test]
fn parse_gpgconf_no_scdaemon() {
    let output = "gpg:GPG:gpg\n";
    assert_eq!(parse_scdaemon_from_gpgconf(output), None);
}

#[test]
fn parse_gpgconf_skips_empty_path() {
    let output = "scdaemon:SCDaemon:\nscdaemon:SCDaemon:/opt/scd:extra\r\n";
    assert_eq!(parse_scdaemon_from_gpgconf(output), Some("/opt/scd".to_string()));
    assert_eq!(parse_scdaemon_from_gpgconf("scdaemon:only-two"), None);
    assert_eq!(parse_scdaemon_from_gpgconf(""), None);
}

#[test]
fn plan_setup_basic() {
    let plan = plan_setup(
        "/usr/local/bin/yubikey-notifier",
        Some("/usr/local/libexec/scdaemon".to_string()),
        Some("pinentry-program /usr/local/bin/pinentry\n"),
        "/System/Library/Sounds/Funk.aiff",
        "2.0",
    )
    .unwrap();

    assert_eq!(
        plan.config.scdaemon,
        Some("/usr/local/libexec/scdaemon".to_string())
    );
    assert!(plan
        .gpg_agent_conf_lines
        .contains(&"pinentry-program /usr/local/bin/pinentry".to_string()));
    assert!(plan
        .gpg_agent_conf_lines
        .contains(&"scdaemon-program /usr/local/bin/yubikey-notifier".to_string()));
}

#[test]
fn plan_setup_replaces_existing_scdaemon_program() {
    let plan = plan_setup(
        "/new/path",
        Some("/usr/local/libexec/scdaemon".to_string()),
        Some("scdaemon-program /old/path\nother-option foo\n"),
        "Funk.aiff",
        "1.0",
    )
    .unwrap();

    let scd_lines: Vec<_> = plan
        .gpg_agent_conf_lines
        .iter()
        .filter(|l| l.starts_with("scdaemon-program"))
        .collect();
    assert_eq!(scd_lines.len(), 1);
    assert_eq!(scd_lines[0], "scdaemon-program /new/path");
}

#[test]
fn plan_setup_self_reference() {
    let result = plan_setup(
        "/my/binary",
        Some("/my/binary".to_string()),
        None,
        "Funk.aiff",
        "1.0",
    );
    assert!(matches!(result, Err(SetupError::SelfReference)));
}

#[test]
fn plan_setup_no_scdaemon() {
    let result = plan_setup("/my/binary", None, None, "Funk.aiff", "1.0");
    assert!(matches!(result, Err(SetupError::ScdaemonNotFound)));
}

#[test]
fn plan_uninstall_removes_scdaemon_program() {
    let lines = plan_uninstall("pinentry-program /bin/pinentry\nscdaemon-program /my/binary\nother stuff\n");
    assert_eq!(lines.len(), 2);
    assert!(!lines.iter().any(|l| l.contains("scdaemon-program")));
}

#[test]
fn plan_setup_keeps_config_and_line_order() {
    let plan = plan_setup(
        "/bin/wrapper",
        Some("/bin/scd".to_string()),
        Some("a\n  scdaemon-program\t/x\nb\nscdaemon-program\n"),
        "S",
        "V",
    )
    .unwrap();
    assert_eq!(
        plan.config,
        Config { scdaemon: Some("/bin/scd".to_string()), sound: "S".to_string(), volume: "V".to_string() }
    );
    assert_eq!(plan.gpg_agent_conf_lines, vec!["a", "b", "scdaemon-program /bin/wrapper"]);
}

#[test]
fn plan_uninstall_keeps_lookalike_lines() {
    let lines = plan_uninstall("scdaemon-programX y\nscdaemon-program-other\n  scdaemon-program  \nz");
    assert_eq!(lines, vec!["scdaemon-programX y", "scdaemon-program-other", "z"]);
}

#[test]
fn uninstall_after_setup_restores_other_lines() {
    let existing = "pinentry-program /bin/pinentry\nscdaemon-program /old\n# note\n";
    let plan = plan_setup("/bin/new", Some("/bin/scd".to_string()), Some(existing), "s", "v").unwrap();
    let written = render_conf_lines(&plan.gpg_agent_conf_lines);
    assert_eq!(written, "pinentry-program /bin/pinentry\n# note\nscdaemon-program /bin/new\n");
    assert_eq!(plan_uninstall(&written), plan_uninstall(existing));
}

#[test]
fn uninstall_twice_writes_the_same_file() {
    let once = render_conf_lines(&plan_uninstall("scdaemon-program /x\n"));
    assert_eq!(once, "\n");
    let twice = render_conf_lines(&plan_uninstall(&once));
    assert_eq!(twice, once);
    let once = render_conf_lines(&plan_uninstall("a\r\nscdaemon-program /x\nb"));
    assert_eq!(once, "a\nb\n");
    assert_eq!(render_conf_lines(&plan_uninstall(&once)), once);
}

#[test]
fn render_joins_with_final_newline() {
    assert_eq!(render_conf_lines(&vec![]), "\n");
    assert_eq!(render_conf_lines(&vec!["x".to_string()]), "x\n");
    assert_eq!(render_conf_lines(&vec!["x".to_string(), "".to_string()]), "x\n\n");
}

#[test]
fn real_scdaemon_prefers_config() {
    let mut config = Config::default();
    assert_eq!(get_real_scdaemon(&config, None), "/usr/local/libexec/scdaemon");
    assert_eq!(get_real_scdaemon(&config, Some("/found".to_string())), "/found");
    config.scdaemon = Some("/configured".to_string());
    assert_eq!(get_real_scdaemon(&config, Some("/found".to_string())), "/configured");
}

#[test]
fn gpgconf_raw_output() {
    let out = b"gpg:OpenPGP:/usr/bin/gpg\nscdaemon:Smartcards:/usr/lib/gnupg/scdaemon\n";
    assert_eq!(scdaemon_from_gpgconf_output(out), Some("/usr/lib/gnupg/scdaemon".to_string()));
    let out = b"scdaemon:Sm\xffartcards:/opt/scd\xff\n";
    assert_eq!(scdaemon_from_gpgconf_output(out), Some("/opt/scd\u{fffd}".to_string()));
    assert_eq!(scdaemon_from_gpgconf_output(b""), None);
}
