use modem_telemetry::{
    get_modem_info, Action, AtRegexps, ConnectionStatus, CursorPosition, Interrupted, LineEditor, ModemInfo,
    SelectedTab, StateStore, StoreEffect, StoreMode,
};

#[test]
fn port_selection_starts_one_poller() {
    let mut store = StateStore::new();
    assert_eq!(store.mode, StoreMode::Idle);
    assert_eq!(store.state.baud_rate, 115200);
    match store.handle_action(Action::SetPortName("/dev/ttyACM0".to_string())) {
        StoreEffect::StartPoller(port) => assert_eq!(port, "/dev/ttyACM0"),
        _ => panic!("expected the poller to start"),
    }
    assert_eq!(store.mode, StoreMode::Polling);
    assert!(matches!(store.state.status, ConnectionStatus::Connecting));
    assert!(matches!(store.handle_action(Action::SetPortName("/dev/ttyUSB1".to_string())), StoreEffect::Broadcast));
    assert_eq!(store.state.port_name, "/dev/ttyACM0");
}

#[test]
fn telemetry_replaces_modem_info() {
    let mut store = StateStore::new();
    let g = AtRegexps::new();
    let info = get_modem_info(&g, "+CSQ: 11,2\r\n");
    assert!(matches!(store.handle_action(Action::UpdateStateFromModem(info)), StoreEffect::Broadcast));
    assert_eq!(store.state.modem_info.csq, 11);
    assert!(matches!(store.state.status, ConnectionStatus::Connected));
}

#[test]
fn poll_failure_is_recorded() {
    let mut store = StateStore::new();
    store.handle_action(Action::SetPortName("p".to_string()));
    assert!(matches!(store.handle_action(Action::PollFailed("no device".to_string())), StoreEffect::Broadcast));
    match &store.state.status {
        ConnectionStatus::Errored(msg) => assert_eq!(msg, "no device"),
        _ => panic!("expected an error status"),
    }
    assert_eq!(store.mode, StoreMode::Polling);
}

#[test]
fn command_reply_is_kept_without_touching_telemetry() {
    let mut store = StateStore::new();
    store.handle_action(Action::SetPortName("p".to_string()));
    match store.handle_action(Action::ExecuteModemCommand("ATI".to_string())) {
        StoreEffect::RunCommand { port, command } => {
            assert_eq!(port, "p");
            assert_eq!(command, "ATI");
        }
        _ => panic!("expected the command to run"),
    }
    assert!(matches!(store.finish_command("OK".to_string()), StoreEffect::Broadcast));
    assert_eq!(store.state.terminal_user_output, "OK");
    assert_eq!(store.state.modem_info.ip, "---");
}

#[test]
fn exit_is_final() {
    let mut store = StateStore::new();
    match store.handle_action(Action::Exit) {
        StoreEffect::Shutdown(reason) => assert_eq!(reason, Interrupted::UserInt),
        _ => panic!("expected shutdown"),
    }
    assert_eq!(store.mode, StoreMode::ShuttingDown);
    assert!(matches!(store.handle_action(Action::SetPortName("p".to_string())), StoreEffect::Ignore));
    assert!(matches!(store.handle_action(Action::UpdateStateFromModem(ModemInfo::default())), StoreEffect::Ignore));
    assert!(matches!(store.finish_command("x".to_string()), StoreEffect::Ignore));
    assert_eq!(store.state.port_name, "");
}

#[test]
fn tabs_cycle() {
    assert_eq!(SelectedTab::MonitorTab.next(), SelectedTab::BandsConfigTab);
    assert_eq!(SelectedTab::TerminalTab.next(), SelectedTab::MonitorTab);
    assert_eq!(SelectedTab::MonitorTab.previous(), SelectedTab::TerminalTab);
    assert_eq!(SelectedTab::BandsConfigTab.title(), "Select bands");
    let c = CursorPosition::default();
    assert_eq!((c.x, c.y), (1, 0));
}

#[test]
fn line_editing() {
    let mut e = LineEditor::new();
    for c in "ATI".chars() {
        e.enter_char(c);
    }
    e.move_cursor_left();
    e.enter_char('X');
    assert_eq!(e.input.iter().collect::<String>(), "ATXI");
    assert_eq!(e.cursor, 3);
    e.delete_char();
    e.delete_char();
    assert_eq!(e.input.iter().collect::<String>(), "AI");
    assert_eq!(e.cursor, 1);
    e.move_cursor_right();
    e.move_cursor_right();
    assert_eq!(e.cursor, 2);
    assert_eq!(e.clamp_cursor(9), 2);
    e.clear();
    e.delete_char();
    assert_eq!(e.cursor, 0);
    assert!(e.input.is_empty());
}
