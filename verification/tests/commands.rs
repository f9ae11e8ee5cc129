//! Keys, the commands they give, and the answers.

use iwd_tui::app::{Adapter, App, Overlay};
use iwd_tui::bus::{answer, dbus_call, toggled};
use iwd_tui::keys::{ActionResult, Command, KeyCode};
use iwd_tui::network::Network;

fn net(name: &str, net_type: &str, connected: bool, known: bool) -> Network {
    Network {
        path: format!("/n/{name}"),
        name: name.into(),
        net_type: net_type.into(),
        signal_dbm: -50,
        connected,
        known_path: if known { Some(format!("/kn/{name}")) } else { None },
    }
}

fn app_with(networks: Vec<Network>) -> App {
    let mut app = App::new(Vec::new(), "/station".into(), "wlan0".into(), "disconnected");
    app.networks = networks;
    app
}

fn keys(app: &mut App, text: &str) {
    for c in text.chars() {
        assert!(app.handle_key(KeyCode::Char(c), 0).is_none());
    }
}

#[test]
fn cursor_stays_in_the_list() {
    let mut app = app_with(vec![net("a", "psk", false, true), net("b", "psk", false, true)]);
    keys(&mut app, "k");
    assert_eq!(app.selected, 0);
    keys(&mut app, "jjj");
    assert_eq!(app.selected, 1);
    app.handle_key(KeyCode::Up, 0);
    assert_eq!(app.selected, 0);
    app.handle_key(KeyCode::Down, 0);
    assert_eq!(app.selected, 1);
    let mut empty = app_with(vec![]);
    keys(&mut empty, "jk");
    assert_eq!(empty.selected, 0);
}

#[test]
fn quitting() {
    for code in [KeyCode::Char('q'), KeyCode::Esc] {
        let mut app = app_with(vec![]);
        assert!(app.handle_key(code, 0).is_none());
        assert!(app.should_quit);
    }
    let mut app = app_with(vec![]);
    app.handle_key(KeyCode::Other, 0);
    app.handle_key(KeyCode::Char('x'), 0);
    assert!(!app.should_quit);
}

#[test]
fn known_network_is_connected_to() {
    let mut app = app_with(vec![net("a", "psk", false, true)]);
    app.header_error = Some("old".into());
    let command = app.handle_key(KeyCode::Enter, 0).unwrap();
    assert!(matches!(&command, Command::Connect { network_path } if network_path == "/n/a"));
    assert_eq!(app.pending_connect_path.as_deref(), Some("/n/a"));
    assert!(app.header_error.is_none());
    // A second connection waits for the first.
    assert!(app.handle_key(KeyCode::Enter, 0).is_none());
}

#[test]
fn open_network_needs_no_password() {
    let mut app = app_with(vec![net("a", "open", false, false)]);
    let command = app.handle_key(KeyCode::Enter, 0).unwrap();
    assert!(matches!(command, Command::Connect { .. }));
    assert!(app.overlay.is_none());
}

#[test]
fn connected_network_is_left_alone() {
    let mut app = app_with(vec![net("a", "psk", true, true)]);
    assert!(app.handle_key(KeyCode::Enter, 0).is_none());
    assert!(app.pending_connect_path.is_none());
    assert!(app.header_error.is_none());
}

#[test]
fn nothing_to_connect_to_is_an_error() {
    let mut app = app_with(vec![]);
    assert!(app.handle_key(KeyCode::Enter, 77).is_none());
    assert_eq!(app.header_error.as_deref(), Some("No network selected"));
    assert_eq!(app.header_error_at, 77);
}

#[test]
fn password_is_asked_for_and_submitted() {
    let mut app = app_with(vec![net("a", "psk", false, false)]);
    assert!(app.handle_key(KeyCode::Enter, 0).is_none());
    assert!(matches!(
        &app.overlay,
        Some(Overlay::Password { input, visible: false, network_path, network_name })
            if input.is_empty() && network_path == "/n/a" && network_name == "a"
    ));
    keys(&mut app, "sec\u{e9}ret!");
    app.handle_key(KeyCode::Backspace, 0);
    keys(&mut app, "v");
    assert!(matches!(
        &app.overlay,
        Some(Overlay::Password { input, visible: true, .. }) if input == "sec\u{e9}ret"
    ));
    let command = app.handle_key(KeyCode::Enter, 0).unwrap();
    assert!(matches!(
        &command,
        Command::AgentConnect { network_path, password }
            if network_path == "/n/a" && password == "sec\u{e9}ret"
    ));
    assert!(app.overlay.is_none());
    assert_eq!(app.pending_connect_path.as_deref(), Some("/n/a"));
}

#[test]
fn open_box_takes_the_keys() {
    let mut app = app_with(vec![net("a", "psk", false, false), net("b", "psk", false, true)]);
    app.handle_key(KeyCode::Enter, 0);
    keys(&mut app, "jq");
    assert_eq!(app.selected, 0);
    assert!(!app.should_quit);
    app.handle_key(KeyCode::Backspace, 0);
    app.handle_key(KeyCode::Backspace, 0);
    app.handle_key(KeyCode::Backspace, 0);
    app.handle_key(KeyCode::Tab, 0);
    assert!(matches!(&app.overlay, Some(Overlay::Password { input, .. }) if input.is_empty()));
    app.handle_key(KeyCode::Esc, 0);
    assert!(app.overlay.is_none());
    assert!(!app.should_quit);
}

#[test]
fn password_waits_for_a_connection_under_way() {
    let mut app = app_with(vec![net("a", "psk", false, false)]);
    app.handle_key(KeyCode::Enter, 0);
    app.pending_connect_path = Some("/n/other".into());
    assert!(app.handle_key(KeyCode::Enter, 0).is_none());
    assert!(app.overlay.is_some());
}

#[test]
fn forgetting_is_confirmed() {
    let mut app = app_with(vec![net("a", "psk", false, true)]);
    keys(&mut app, "f");
    assert!(matches!(
        &app.overlay,
        Some(Overlay::ForgetConfirm { known_path, network_name })
            if known_path == "/kn/a" && network_name == "a"
    ));
    keys(&mut app, "x");
    assert!(app.overlay.is_some());
    keys(&mut app, "n");
    assert!(app.overlay.is_none());
    keys(&mut app, "f");
    app.handle_key(KeyCode::Esc, 0);
    assert!(app.overlay.is_none());
    keys(&mut app, "f");
    let command = app.handle_key(KeyCode::Char('y'), 0).unwrap();
    assert!(matches!(&command, Command::Forget { known_path } if known_path == "/kn/a"));
    assert!(app.overlay.is_none());
}

#[test]
fn unknown_network_cannot_be_forgotten_or_toggled() {
    for key in ['f', 'a'] {
        let mut app = app_with(vec![net("a", "psk", false, false)]);
        assert!(app.handle_key(KeyCode::Char(key), 9).is_none());
        assert_eq!(app.header_error.as_deref(), Some("Not a known network"));
        assert_eq!(app.header_error_at, 9);
        let mut empty = app_with(vec![]);
        assert!(empty.handle_key(KeyCode::Char(key), 9).is_none());
        assert!(empty.header_error.is_none());
    }
}

#[test]
fn scan_disconnect_and_toggle() {
    let mut app = app_with(vec![net("a", "psk", false, true)]);
    let command = app.handle_key(KeyCode::Char('s'), 0).unwrap();
    assert!(matches!(&command, Command::Scan { station_path } if station_path == "/station"));
    let command = app.handle_key(KeyCode::Char('d'), 0).unwrap();
    assert!(matches!(&command, Command::Disconnect { station_path } if station_path == "/station"));
    let command = app.handle_key(KeyCode::Char('a'), 0).unwrap();
    assert!(matches!(&command, Command::ToggleAutoConnect { known_path } if known_path == "/kn/a"));
    app.scanning = true;
    app.header_error = Some("kept".into());
    assert!(app.handle_key(KeyCode::Char('s'), 0).is_none());
    assert_eq!(app.header_error.as_deref(), Some("kept"));
}

#[test]
fn tab_goes_round_the_adapters() {
    let adapters = || {
        vec![
            Adapter { path: "/0".into(), name: "wlan0".into() },
            Adapter { path: "/1".into(), name: "wlan1".into() },
        ]
    };
    let mut app = App::new(adapters(), "/0".into(), "wlan0".into(), "connected");
    assert!(matches!(app.handle_key(KeyCode::Tab, 0), Some(Command::Refresh)));
    assert_eq!((app.station_path.as_str(), app.interface_name.as_str()), ("/1", "wlan1"));
    assert!(matches!(app.handle_key(KeyCode::Tab, 0), Some(Command::Refresh)));
    assert_eq!((app.station_path.as_str(), app.interface_name.as_str()), ("/0", "wlan0"));
    let mut one = App::new(
        vec![Adapter { path: "/0".into(), name: "wlan0".into() }],
        "/0".into(),
        "wlan0".into(),
        "connected",
    );
    assert!(one.handle_key(KeyCode::Tab, 0).is_none());
    assert_eq!(one.state, "CONNECTED");
}

#[test]
fn answers_are_taken_in() {
    let mut app = app_with(vec![]);
    app.pending_connect_path = Some("/n/a".into());
    let failed = |path: &str| ActionResult::Connect {
        path: path.into(),
        result: Err("x: Failed.".into()),
    };
    assert!(!app.apply_action_result(failed("/n/b"), 5));
    assert_eq!(app.pending_connect_path.as_deref(), Some("/n/a"));
    assert_eq!(app.header_error.as_deref(), Some("Failed"));
    assert_eq!(app.header_error_at, 5);
    assert!(!app.apply_action_result(failed("/n/a"), 6));
    assert!(app.pending_connect_path.is_none());
    app.header_error = None;
    let fine = ActionResult::Connect { path: "/n/a".into(), result: Ok(()) };
    assert!(!app.apply_action_result(fine, 7));
    assert!(!app.apply_action_result(ActionResult::Scan(Ok(())), 7));
    assert!(!app.apply_action_result(ActionResult::AutoConnect(Ok(())), 7));
    assert!(!app.apply_action_result(ActionResult::Disconnect(Ok(())), 7));
    assert!(app.apply_action_result(ActionResult::Forget(Ok(())), 7));
    assert!(app.header_error.is_none());
    for bad in [
        ActionResult::Scan(Err("e".into())),
        ActionResult::Disconnect(Err("e".into())),
        ActionResult::Forget(Err("e".into())),
        ActionResult::AutoConnect(Err("e".into())),
    ] {
        app.header_error = None;
        assert!(!app.apply_action_result(bad, 8));
        assert_eq!(app.header_error.as_deref(), Some("e"));
    }
}

#[test]
fn commands_stand_for_calls() {
    let called = |command: &Command| {
        dbus_call(command).map(|c| format!("{} {}.{}", c.path, c.interface, c.method))
    };
    let path = || "/p".to_string();
    assert_eq!(
        called(&Command::Scan { station_path: path() }).unwrap(),
        "/p net.connman.iwd.Station.Scan"
    );
    assert_eq!(
        called(&Command::Connect { network_path: path() }).unwrap(),
        "/p net.connman.iwd.Network.Connect"
    );
    assert_eq!(
        called(&Command::Disconnect { station_path: path() }).unwrap(),
        "/p net.connman.iwd.Station.Disconnect"
    );
    assert_eq!(
        called(&Command::Forget { known_path: path() }).unwrap(),
        "/p net.connman.iwd.KnownNetwork.Forget"
    );
    assert!(called(&Command::ToggleAutoConnect { known_path: path() }).is_none());
    assert!(called(&Command::AgentConnect { network_path: path(), password: path() }).is_none());
    assert!(called(&Command::Refresh).is_none());
}

#[test]
fn commands_are_answered_in_kind() {
    let p = || "/p".to_string();
    assert!(matches!(
        answer(Command::Scan { station_path: p() }, Ok(())),
        Some(ActionResult::Scan(Ok(())))
    ));
    assert!(matches!(
        answer(Command::AgentConnect { network_path: p(), password: p() }, Err("e".into())),
        Some(ActionResult::Connect { path, result: Err(e) }) if path == "/p" && e == "e"
    ));
    assert!(matches!(
        answer(Command::Connect { network_path: p() }, Ok(())),
        Some(ActionResult::Connect { path, result: Ok(()) }) if path == "/p"
    ));
    assert!(matches!(
        answer(Command::Disconnect { station_path: p() }, Ok(())),
        Some(ActionResult::Disconnect(Ok(())))
    ));
    assert!(matches!(
        answer(Command::Forget { known_path: p() }, Ok(())),
        Some(ActionResult::Forget(Ok(())))
    ));
    assert!(matches!(
        answer(Command::ToggleAutoConnect { known_path: p() }, Ok(())),
        Some(ActionResult::AutoConnect(Ok(())))
    ));
    assert!(answer(Command::Refresh, Ok(())).is_none());
}

#[test]
fn autoconnect_is_turned_over() {
    assert_eq!(toggled(Ok(true)), Ok(false));
    assert_eq!(toggled(Ok(false)), Ok(true));
    assert_eq!(toggled(Err("e".into())), Err("e".to_string()));
}

#[test]
fn showing_and_hiding_cancel_out() {
    let mut app = app_with(vec![net("a", "psk", false, false)]);
    app.handle_key(KeyCode::Enter, 0);
    keys(&mut app, "abc");
    keys(&mut app, "v");
    keys(&mut app, "v");
    assert!(matches!(
        &app.overlay,
        Some(Overlay::Password { input, visible: false, .. }) if input == "abc"
    ));
}
