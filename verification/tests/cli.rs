use yubikey_notifier::cli::{parse_args, CliAction};

fn args(items: &[&str]) -> Vec<String> {
    items.iter().map(|s| s.to_string()).collect()
}

#[test]
fn wrapper_mode_from_gpg_agent() {
    assert!(matches!(parse_args(&args(&["bin", "--multi-server"])), CliAction::Wrapper));
    assert!(matches!(parse_args(&args(&["bin", "--bogus", "--multi-server"])), CliAction::Wrapper));
}

#[test]
fn commands() {
    assert!(matches!(parse_args(&args(&["bin"])), CliAction::Usage));
    assert!(matches!(parse_args(&args(&[])), CliAction::Usage));
    assert!(matches!(parse_args(&args(&["bin", "-h"])), CliAction::Help));
    assert!(matches!(parse_args(&args(&["bin", "--help", "--bogus"])), CliAction::Help));
    assert!(matches!(parse_args(&args(&["bin", "--list-sounds"])), CliAction::ListSounds));
    assert!(matches!(parse_args(&args(&["bin", "--uninstall"])), CliAction::Uninstall));
    match parse_args(&args(&["bin", "--what"])) {
        CliAction::UnknownOption { option } => assert_eq!(option, "--what"),
        _ => panic!("expected an unknown option"),
    }
}

#[test]
fn setup_options() {
    match parse_args(&args(&["bin", "--setup"])) {
        CliAction::Setup { sound, volume } => {
            assert_eq!(sound, "/System/Library/Sounds/Funk.aiff");
            assert_eq!(volume, "2.0");
        }
        _ => panic!("expected setup"),
    }
    match parse_args(&args(&["bin", "--setup", "x", "--sound", "Ping", "--volume", "0.5"])) {
        CliAction::Setup { sound, volume } => {
            assert_eq!(sound, "/System/Library/Sounds/Ping.aiff");
            assert_eq!(volume, "0.5");
        }
        _ => panic!("expected setup"),
    }
    match parse_args(&args(&["bin", "--sound", "Hero", "--volume", "3", "--setup", "--volume"])) {
        CliAction::Setup { sound, volume } => {
            assert_eq!(sound, "/System/Library/Sounds/Hero.aiff");
            assert_eq!(volume, "3");
        }
        _ => panic!("expected setup"),
    }
}

#[test]
fn options_without_command_show_usage() {
    assert!(matches!(parse_args(&args(&["bin", "--sound", "Ping"])), CliAction::Usage));
    assert!(matches!(parse_args(&args(&["bin", "--volume"])), CliAction::Usage));
    assert!(matches!(parse_args(&args(&["bin", "--sound", "--help"])), CliAction::Usage));
}
