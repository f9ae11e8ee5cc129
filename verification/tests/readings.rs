//! What is read from the system and from iwd.

use iwd_tui::app::{Adapter, App};
use iwd_tui::ethernet::{find_plugged_in, InterfaceFacts};
use iwd_tui::layout::{centered_rect, Rect};
use iwd_tui::network::{list_networks, NetworkReading};
use iwd_tui::refresh::{DetailReadings, RawDiagnostics, RuntimeAction, RuntimeEvent, Stations};
use iwd_tui::schedule::{Schedule, Task};

fn reading(path: &str, signal: i16, connected: bool, known: Option<&str>) -> NetworkReading {
    NetworkReading {
        path: path.into(),
        signal,
        name: format!("name {path}"),
        net_type: "psk".into(),
        connected,
        known_path: known.map(|k| k.to_string()),
    }
}

fn app() -> App {
    App::new(Vec::new(), "/s".into(), "wlan0".into(), "disconnected")
}

fn paths(app: &App) -> Vec<&str> {
    app.networks.iter().map(|n| n.path.as_str()).collect()
}

#[test]
fn networks_are_ranked() {
    let list = list_networks(vec![
        reading("/far", -8000, false, None),
        reading("/near", -3000, false, None),
        reading("/known far", -7000, false, Some("/k1")),
        reading("/mine", -9000, true, Some("/k2")),
        reading("/known near", -5000, false, Some("/k3")),
        reading("/twin", -3000, false, None),
    ]);
    let order: Vec<&str> = list.iter().map(|n| n.path.as_str()).collect();
    assert_eq!(order, ["/mine", "/known near", "/known far", "/near", "/twin", "/far"]);
}

#[test]
fn signal_is_read_in_hundredths() {
    let list = list_networks(vec![
        reading("/a", -6000, false, None),
        reading("/b", -6099, false, None),
        reading("/c", -99, false, None),
        reading("/d", i16::MIN, false, None),
    ]);
    let dbm: Vec<i16> = list.iter().map(|n| n.signal_dbm).collect();
    assert_eq!(dbm, [0, -60, -60, -327]);
}

#[test]
fn empty_known_path_means_unknown() {
    let list = list_networks(vec![
        reading("/a", -6000, false, Some("")),
        reading("/b", -6000, false, Some("/k")),
    ]);
    assert!(list[0].is_known());
    assert_eq!(list[0].path, "/b");
    assert!(!list[1].is_known());
}

#[test]
fn cursor_follows_its_network() {
    let mut app = app();
    app.refresh_networks(vec![reading("/a", -5000, false, None), reading("/b", -6000, false, None)]);
    app.selected = 1;
    app.refresh_networks(vec![reading("/a", -7000, false, None), reading("/b", -3000, false, None)]);
    assert_eq!(paths(&app), ["/b", "/a"]);
    assert_eq!(app.selected, 0);
    app.selected = 1;
    app.refresh_networks(vec![reading("/c", -3000, false, None)]);
    assert_eq!(app.selected, 0);
    app.refresh_networks(vec![]);
    assert_eq!(app.selected, 0);
    assert!(app.selected_network().is_none());
}

#[test]
fn connection_under_way_ends_when_it_is_there() {
    let mut app = App::new(Vec::new(), "/s".into(), "wlan0".into(), "connecting");
    app.pending_connect_path = Some("/a".into());
    app.refresh_networks(vec![reading("/a", -5000, false, None), reading("/b", -6000, true, None)]);
    assert_eq!(app.pending_connect_path.as_deref(), Some("/a"));
    app.refresh_networks(vec![reading("/a", -5000, true, None)]);
    assert!(app.pending_connect_path.is_none());
    // It ends as well when the station is no longer connecting.
    app.pending_connect_path = Some("/b".into());
    state(&mut app, false, Ok("disconnected"), 1);
    app.refresh_runtime_state(RuntimeEvent::Scanning(Ok(false)), 1);
    assert!(app.pending_connect_path.is_none());
}

fn state(app: &mut App, again: bool, reading: Result<&str, &str>, now: u64) -> RuntimeAction {
    let reading = match reading {
        Ok(s) => Ok(s.to_string()),
        Err(e) => Err(e.to_string()),
    };
    app.refresh_runtime_state(RuntimeEvent::State { again, reading }, now)
}

#[test]
fn state_is_read() {
    let mut app = app();
    let first = app.refresh_runtime_state(RuntimeEvent::Start, 1);
    assert!(matches!(first, RuntimeAction::ReadState { again: false }));
    assert!(matches!(state(&mut app, false, Ok("connected"), 2), RuntimeAction::ReadScanning));
    assert_eq!(app.state, "CONNECTED");
    assert_eq!(app.connected_since, Some(2));
    state(&mut app, false, Ok("connected"), 3);
    assert_eq!(app.connected_since, Some(2));
    state(&mut app, false, Ok("connecting"), 4);
    assert_eq!(app.connected_since, None);
    let end = app.refresh_runtime_state(RuntimeEvent::Scanning(Ok(false)), 5);
    assert!(matches!(end, RuntimeAction::Done(Ok(()))));
}

#[test]
fn lost_station_is_looked_for_once() {
    let mut app = app();
    assert!(matches!(state(&mut app, false, Err("gone"), 1), RuntimeAction::FindStation));
    let found = Stations {
        adapters: vec![Adapter { path: "/t".into(), name: "wlan7".into() }],
        path: "/t".into(),
        name: "wlan7".into(),
    };
    let next = app.refresh_runtime_state(RuntimeEvent::Found(Ok(found)), 2);
    assert!(matches!(next, RuntimeAction::ReadState { again: true }));
    assert_eq!(app.station_path, "/t");
    assert_eq!(app.interface_name, "wlan7");
    assert_eq!(app.adapters.len(), 1);
    assert!(matches!(
        state(&mut app, true, Err("still gone"), 3),
        RuntimeAction::Done(Err(e)) if e == "still gone"
    ));
    let lost = app.refresh_runtime_state(RuntimeEvent::Found(Err("none".into())), 4);
    assert!(matches!(lost, RuntimeAction::Done(Err(e)) if e == "none"));
}

#[test]
fn networks_are_listed_after_a_scan() {
    let mut app = app();
    let scanning = |app: &mut App, on: bool, now: u64| {
        app.refresh_runtime_state(RuntimeEvent::Scanning(Ok(on)), now)
    };
    assert!(matches!(scanning(&mut app, true, 10), RuntimeAction::Done(Ok(()))));
    assert_eq!(app.scan_started_at, Some(10));
    scanning(&mut app, true, 11);
    assert_eq!(app.scan_started_at, Some(10));
    assert!(matches!(scanning(&mut app, false, 12), RuntimeAction::ListNetworks));
    assert_eq!(app.scan_started_at, None);
    let list = vec![reading("/a", -5000, false, None)];
    let end = app.refresh_runtime_state(RuntimeEvent::Networks(Ok(list)), 13);
    assert!(matches!(end, RuntimeAction::Done(Ok(()))));
    assert_eq!(paths(&app), ["/a"]);
    let bad = app.refresh_runtime_state(RuntimeEvent::Networks(Err("e".into())), 14);
    assert!(matches!(bad, RuntimeAction::Done(Err(e)) if e == "e"));
    let bad = app.refresh_runtime_state(RuntimeEvent::Scanning(Err("f".into())), 15);
    assert!(matches!(bad, RuntimeAction::Done(Err(e)) if e == "f"));
    assert_eq!(paths(&app), ["/a"]);
}

fn details() -> DetailReadings {
    DetailReadings {
        diagnostics: Some(RawDiagnostics {
            rssi: Some(-45),
            frequency: Some(5180),
            tx_bitrate: Some(866_700),
            rx_bitrate: Some(650_000),
            security: Some("WPA2".into()),
        }),
        rx_bytes: Some("1234\n".into()),
        tx_bytes: Some("x".into()),
        autoconnect: Some(true),
        ip_output: Some(b"inet 10.1.2.3/8".to_vec()),
    }
}

#[test]
fn details_are_read_while_connected() {
    let mut app = App::new(Vec::new(), "/s".into(), "wlan0".into(), "connected");
    app.refresh_networks(vec![reading("/a", -5000, true, Some("/k"))]);
    let plan = app.detail_plan();
    assert!(plan.connection && plan.address);
    assert_eq!(plan.autoconnect_path.as_deref(), Some("/k"));
    app.refresh_diagnostics(details());
    let d = app.diagnostics.as_ref().unwrap();
    assert_eq!(d.rssi, Some(-45));
    assert_eq!(d.frequency, Some(5180));
    assert_eq!(d.tx_bitrate, Some(866_700));
    assert_eq!(d.rx_bitrate, Some(650_000));
    assert_eq!(d.security.as_deref(), Some("WPA2"));
    assert_eq!(app.wifi_rx_bytes, 1234);
    assert_eq!(app.wifi_tx_bytes, 0);
    assert_eq!(app.detail_autoconnect, Some(true));
    assert_eq!(app.detail_ipv4.as_deref(), Some("10.1.███.███"));
    assert!(!app.detail_plan().address);
    let mut again = details();
    again.ip_output = Some(b"inet 99.9.9.9/8".to_vec());
    again.diagnostics = None;
    app.refresh_diagnostics(again);
    assert_eq!(app.detail_ipv4.as_deref(), Some("10.1.███.███"));
    assert!(app.diagnostics.is_none());
}

#[test]
fn details_end_with_the_connection() {
    let mut app = App::new(Vec::new(), "/s".into(), "wlan0".into(), "connected");
    app.refresh_diagnostics(details());
    assert_eq!(app.detail_autoconnect, None);
    app.state = "DISCONNECTED".into();
    let plan = app.detail_plan();
    assert!(!plan.connection && !plan.address && plan.autoconnect_path.is_none());
    app.refresh_diagnostics(details());
    assert!(app.diagnostics.is_none());
    assert!(app.detail_ipv4.is_none());
    assert_eq!((app.wifi_rx_bytes, app.wifi_tx_bytes), (0, 0));
}

#[test]
fn wide_numbers_keep_their_low_bits() {
    let mut app = App::new(Vec::new(), "/s".into(), "wlan0".into(), "connected");
    let mut readings = details();
    readings.diagnostics = Some(RawDiagnostics {
        rssi: Some(65_491),
        frequency: Some((1 << 32) + 2412),
        tx_bitrate: None,
        rx_bitrate: Some(u64::MAX),
        security: None,
    });
    app.refresh_diagnostics(readings);
    let d = app.diagnostics.unwrap();
    assert_eq!(d.rssi, Some(-45));
    assert_eq!(d.frequency, Some(2412));
    assert_eq!(d.tx_bitrate, None);
    assert_eq!(d.rx_bitrate, Some(u32::MAX));
}

fn interface(name: &str) -> InterfaceFacts {
    InterfaceFacts {
        name: name.into(),
        kind: Some("1\n".into()),
        wireless: false,
        carrier: Some("1\n".into()),
        speed: Some("1000\n".into()),
        rx_bytes: Some("42\n".into()),
        tx_bytes: None,
    }
}

#[test]
fn first_plugged_in_interface_is_taken() {
    let mut wifi = interface("wlan0");
    wifi.wireless = true;
    let mut loose = interface("eth0");
    loose.carrier = Some("0\n".into());
    let mut other = interface("tun0");
    other.kind = Some("65534".into());
    let list = vec![
        interface("lo"),
        interface("veth12"),
        interface("docker0"),
        interface("br-1"),
        wifi,
        loose,
        other,
        interface("eth1"),
        interface("eth2"),
    ];
    assert_eq!(find_plugged_in(&list), Some(7));
    let mut app = app();
    app.refresh_ethernet(&Some(list), &Some(b"inet 10.0.0.1/8".to_vec()));
    let wired = app.ethernet.as_ref().unwrap();
    assert_eq!(wired.interface, "eth1");
    assert_eq!(wired.speed_mbps, Some(1000));
    assert_eq!((wired.rx_bytes, wired.tx_bytes), (42, 0));
    assert_eq!(wired.ipv4_masked.as_deref(), Some("10.0.███.███"));
    app.refresh_ethernet(&Some(vec![interface("lo")]), &None);
    assert!(app.ethernet.is_none());
    app.refresh_ethernet(&Some(vec![interface("eth1")]), &None);
    assert!(app.ethernet.is_some());
    app.refresh_ethernet(&None, &None);
    assert!(app.ethernet.is_none());
}

#[test]
fn unlikely_speeds_are_left_out() {
    for (speed, wanted) in [
        ("-1", None),
        ("0", None),
        ("100000", None),
        ("99999", Some(99_999)),
        ("4294967296", None),
    ] {
        let mut i = interface("eth0");
        i.speed = Some(speed.into());
        let mut app = app();
        app.refresh_ethernet(&Some(vec![i]), &None);
        assert_eq!(app.ethernet.unwrap().speed_mbps, wanted);
    }
}

#[test]
fn test_centered_rect() {
    let area = Rect::new(0, 0, 80, 20);
    let rect = centered_rect(42, 7, area);
    assert_eq!(rect.x, 19);
    assert_eq!(rect.y, 6);
    assert_eq!(rect.width, 42);
    assert_eq!(rect.height, 7);

    // Clamping when area is smaller than requested
    let small = Rect::new(0, 0, 30, 5);
    let rect = centered_rect(42, 7, small);
    assert_eq!(rect.width, 30);
    assert_eq!(rect.height, 5);
}

#[test]
fn areas_do_not_go_too_far() {
    let far = Rect::new(65_530, 65_535, 10, 10);
    assert_eq!((far.width, far.height), (5, 0));
    let near = Rect::new(1, 2, 3, 4);
    assert_eq!(near, Rect { x: 1, y: 2, width: 3, height: 4 });
}

#[test]
fn tasks_take_turns() {
    let mut schedule = Schedule::new(1_000);
    assert_eq!(schedule.next_task(None, 1_299), None);
    assert_eq!(schedule.next_task(None, 1_300), Some(Task::Status));
    assert_eq!(schedule.next_task(Some(Task::Status), 1_300), None);
    schedule.done(Task::Status, 1_350);
    assert_eq!(schedule.next_task(None, 1_649), None);
    assert_eq!(schedule.next_task(None, 3_000), Some(Task::Status));
    assert_eq!(schedule.next_task(Some(Task::Status), 3_000), Some(Task::Networks));
    schedule.done(Task::Networks, 3_010);
    assert_eq!(schedule.next_task(Some(Task::Networks), 9_000), None);
    schedule.done(Task::Status, 3_000);
    assert_eq!(schedule.next_task(None, 3_100), None);
}

#[test]
fn odd_cells_go_to_the_far_side() {
    let rect = centered_rect(4, 3, Rect::new(10, 20, 9, 8));
    assert_eq!(rect, Rect { x: 12, y: 22, width: 4, height: 3 });
    let none = centered_rect(4, 3, Rect::new(10, 20, 0, 0));
    assert_eq!(none, Rect { x: 10, y: 20, width: 0, height: 0 });
}
