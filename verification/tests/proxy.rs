use yubikey_notifier::event::{Direction, Event};
use yubikey_notifier::proxy::{
    decode_line, has_touch_prefix, is_completion, is_touch_command, ProxyAction, ProxyState,
};
use yubikey_notifier::sound::GRACE_PERIOD_MS;

#[test]
fn test_is_touch_command() {
    assert!(is_touch_command("PKSIGN"));
    assert!(is_touch_command("PKSIGN --hash=sha256"));
    assert!(is_touch_command("PKDECRYPT"));
    assert!(is_touch_command("PKAUTH"));
    assert!(is_touch_command("  pksign  ")); // case insensitive, trimmed
    assert!(!is_touch_command("READKEY"));
    assert!(!is_touch_command("LEARN"));
    assert!(!is_touch_command("OK"));
}

#[test]
fn test_is_completion() {
    assert_eq!(is_completion("OK"), Some(true));
    assert_eq!(is_completion("OK Finished"), Some(true));
    assert_eq!(is_completion("ERR 123 error"), Some(false));
    assert_eq!(is_completion("D some data"), None);
    assert_eq!(is_completion("S PROGRESS"), None);
}

#[test]
fn touch_command_uses_full_case_mapping() {
    assert!(is_touch_command("pkauth --x"));
    assert!(is_touch_command("\tPkDeCrYpT"));
    // U+017F LATIN SMALL LETTER LONG S upper-cases to 'S'.
    assert!(is_touch_command("pk\u{17f}ign"));
    assert!(!is_touch_command("PK SIGN"));
    assert!(!is_touch_command(""));
}

#[test]
fn touch_prefix_of_upper_case_text() {
    assert!(has_touch_prefix("PKSIGNX"));
    assert!(!has_touch_prefix("pksign"));
    assert!(!has_touch_prefix(" PKSIGN"));
}

#[test]
fn completion_after_whitespace() {
    assert_eq!(is_completion("  OK\r"), Some(true));
    assert_eq!(is_completion("OKAY"), Some(true));
    assert_eq!(is_completion("\tERR"), Some(false));
    assert_eq!(is_completion("ok"), None);
    assert_eq!(is_completion(""), None);
}

#[test]
fn decode_line_drops_line_endings() {
    assert_eq!(decode_line(b"PKSIGN --hash=sha256\n"), "PKSIGN --hash=sha256");
    assert_eq!(decode_line(b"OK\r\n"), "OK");
    assert_eq!(decode_line(b"a\r\n\n"), "a");
    assert_eq!(decode_line(b"a\n\r"), "a\n");
    assert_eq!(decode_line(b"D \xff\n"), "D \u{fffd}");
    assert_eq!(decode_line(b""), "");
}

#[test]
fn fast_completion_raises_no_alert() {
    let mut state = ProxyState::new();
    assert!(state.on_agent_line("PKSIGN --hash=sha256", 5));
    assert!(state.is_pending_or_alerting());
    assert_eq!(state.millis_until_alert(105), Some(GRACE_PERIOD_MS - 100));
    assert!(state.on_tick(105).is_none());
    match state.on_scd_line("OK") {
        Some(ProxyAction::Finish { success, alert_was_active }) => {
            assert!(success);
            assert!(!alert_was_active);
        }
        _ => panic!("expected the operation to finish"),
    }
    assert!(!state.is_pending_or_alerting());
    assert!(state.on_tick(5 + 10 * GRACE_PERIOD_MS).is_none());
    assert_eq!(state.millis_until_alert(0), None);
}

#[test]
fn fast_error_raises_no_alert() {
    let mut state = ProxyState::new();
    assert!(state.on_agent_line("PKDECRYPT", 0));
    assert!(state.on_tick(GRACE_PERIOD_MS - 1).is_none());
    let action = state.on_scd_line("ERR 100 failed").unwrap();
    assert_eq!(action.event(), Event::TouchCompleted { success: false });
    assert!(!state.is_pending_or_alerting());
}

#[test]
fn alert_starts_after_grace_period() {
    let mut state = ProxyState::new();
    assert!(state.on_agent_line("  PKSIGN --hash=sha256  ", 1000));
    assert!(!state.on_agent_line("PKAUTH", 1500));
    assert!(state.on_scd_line("S PROGRESS").is_none());
    assert!(state.on_tick(1000 + GRACE_PERIOD_MS - 1).is_none());
    assert_eq!(state.millis_until_alert(1000 + GRACE_PERIOD_MS), Some(0));
    let action = state.on_tick(1000 + GRACE_PERIOD_MS).unwrap();
    assert_eq!(
        action.event(),
        Event::TouchRequired { command: "PKSIGN --hash=sha256".to_string() }
    );
    assert!(state.on_tick(5000).is_none());
    match state.on_scd_line("OK") {
        Some(ProxyAction::Finish { success, alert_was_active }) => {
            assert!(success);
            assert!(alert_was_active);
        }
        _ => panic!("expected the operation to finish"),
    }
}

#[test]
fn closing_while_alerting_reports_failure() {
    let mut state = ProxyState::new();
    assert!(state.on_scd_closed().is_none());
    state.on_agent_line("PKSIGN", 0);
    assert!(state.on_scd_closed().is_none());
    assert!(!state.is_pending_or_alerting());
    state.on_agent_line("PKSIGN", 0);
    state.on_tick(GRACE_PERIOD_MS);
    match state.on_scd_closed() {
        Some(ProxyAction::Finish { success, alert_was_active }) => {
            assert!(!success);
            assert!(alert_was_active);
        }
        _ => panic!("expected a failed completion"),
    }
    assert!(!state.is_pending_or_alerting());
}

#[test]
fn idle_session_ignores_completions() {
    let mut state = ProxyState::new();
    assert!(state.on_scd_line("OK").is_none());
    assert!(!state.on_agent_line("LEARN", 0));
    assert!(!state.is_pending_or_alerting());
}

#[test]
fn waiting_time_saturates() {
    let mut state = ProxyState::new();
    state.on_agent_line("PKSIGN", u64::MAX);
    assert_eq!(state.millis_until_alert(0), Some(u64::MAX));
    assert_eq!(state.millis_until_alert(u64::MAX), Some(GRACE_PERIOD_MS));
}

#[test]
fn direction_arrows() {
    assert_eq!(Direction::ToScdaemon.arrow(), "->");
    assert_eq!(Direction::FromScdaemon.arrow(), "<-");
}

#[test]
fn session_reports_in_order() {
    let mut state = ProxyState::new();
    let mut log: Vec<Event> = vec![Event::ProxyStarted];
    let record = |a: Option<ProxyAction>, log: &mut Vec<Event>| {
        if let Some(a) = a {
            log.push(a.event());
        }
    };
    state.on_agent_line("PKSIGN", 0);
    record(state.on_tick(GRACE_PERIOD_MS), &mut log);
    state.on_agent_line("PKAUTH", GRACE_PERIOD_MS + 1);
    record(state.on_tick(3 * GRACE_PERIOD_MS), &mut log);
    record(state.on_scd_line("OK"), &mut log);
    record(state.on_scd_line("OK"), &mut log);
    state.on_agent_line("PKDECRYPT", 10 * GRACE_PERIOD_MS);
    record(state.on_tick(11 * GRACE_PERIOD_MS), &mut log);
    record(state.on_scd_closed(), &mut log);
    assert_eq!(
        log,
        vec![
            Event::ProxyStarted,
            Event::TouchRequired { command: "PKSIGN".to_string() },
            Event::TouchCompleted { success: true },
            Event::TouchRequired { command: "PKDECRYPT".to_string() },
            Event::TouchCompleted { success: false },
        ]
    );
}
