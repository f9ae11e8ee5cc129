//! Whole screens, drawn into a terminal of a given size.

use iwd_tui::app::{Adapter, App, Diagnostics, EthernetInfo, Overlay};
use iwd_tui::format::Color;
use iwd_tui::layout::Rect;
use iwd_tui::network::Network;
use iwd_tui::ui::{draw_screen, ui, Draw, Line, Span};
use ratatui::backend::TestBackend;
use ratatui::style::{Modifier, Style};
use ratatui::symbols::border;
use ratatui::widgets::{Block, Clear, Paragraph};
use ratatui::Terminal;

const ASCII_BORDER: border::Set = border::Set {
    top_left: "+",
    top_right: "+",
    bottom_left: "+",
    bottom_right: "+",
    vertical_left: "|",
    vertical_right: "|",
    horizontal_top: "-",
    horizontal_bottom: "-",
};

/// A moment shortly after the start.
const NOW: u64 = 1_000;

fn net(name: &str, dbm: i16, connected: bool, known: bool) -> Network {
    Network {
        path: format!("/net/connman/iwd/0/{name}"),
        name: name.into(),
        net_type: "psk".into(),
        signal_dbm: dbm,
        connected,
        known_path: if known {
            Some(format!("/kn/{name}"))
        } else {
            None
        },
    }
}

fn test_app(networks: Vec<Network>, state: &str) -> App {
    let mut app = App::new(Vec::new(), String::new(), "wlan0".into(), state);
    app.networks = networks;
    app
}

fn place(area: &Rect) -> ratatui::layout::Rect {
    ratatui::layout::Rect::new(area.x, area.y, area.width, area.height)
}

fn color(color: &Color) -> ratatui::style::Color {
    match color {
        Color::Green => ratatui::style::Color::Green,
        Color::Yellow => ratatui::style::Color::Yellow,
        Color::Red => ratatui::style::Color::Red,
    }
}

fn span(span: &Span) -> ratatui::text::Span<'static> {
    match &span.color {
        Some(c) => ratatui::text::Span::styled(span.text.clone(), Style::default().fg(color(c))),
        None => ratatui::text::Span::raw(span.text.clone()),
    }
}

fn line(line: &Line) -> ratatui::text::Line<'static> {
    let spans: Vec<ratatui::text::Span> = line.spans.iter().map(span).collect();
    let drawn = ratatui::text::Line::from(spans);
    if line.reversed {
        drawn.style(Style::default().add_modifier(Modifier::REVERSED))
    } else {
        drawn
    }
}

fn draw(f: &mut ratatui::Frame, draws: &[Draw]) {
    for d in draws {
        match d {
            Draw::Clear { area } => f.render_widget(Clear, place(area)),
            Draw::Border { area } => {
                f.render_widget(Block::bordered().border_set(ASCII_BORDER), place(area))
            }
            Draw::Text { area, lines, scroll } => {
                let lines: Vec<ratatui::text::Line> = lines.iter().map(line).collect();
                f.render_widget(Paragraph::new(lines).scroll((*scroll, 0)), place(area))
            }
        }
    }
}

fn terminal_at(app: &App, width: u16, height: u16, now: u64) -> Terminal<TestBackend> {
    let mut terminal = Terminal::new(TestBackend::new(width, height)).unwrap();
    terminal
        .draw(|f| {
            let a = f.area();
            let draws = ui(Rect::new(a.x, a.y, a.width, a.height), app, now).unwrap();
            draw(f, &draws);
        })
        .unwrap();
    terminal
}

fn text_at(app: &App, width: u16, height: u16, now: u64) -> String {
    let terminal = terminal_at(app, width, height, now);
    let buf = terminal.backend().buffer();
    let area = buf.area;
    let mut output = String::new();
    for y in area.y..area.y + area.height {
        let mut line = String::new();
        for x in area.x..area.x + area.width {
            if let Some(cell) = buf.cell((x, y)) {
                line.push_str(cell.symbol());
            }
        }
        output.push_str(line.trim_end());
        output.push('\n');
    }
    output
}

fn render_to_string(app: &App, width: u16, height: u16) -> String {
    text_at(app, width, height, NOW)
}

fn screen(lines: &[&str]) -> String {
    let mut text = String::new();
    for l in lines {
        text.push_str(l);
        text.push('\n');
    }
    text
}

#[test]
fn snapshot_narrow_connected() {
    let app = test_app(
        vec![
            net("HomeWiFi", -45, true, true),
            net("Neighbor", -72, false, false),
        ],
        "connected",
    );
    assert_eq!(
        render_to_string(&app, 80, 20),
        screen(&[
            " iwd -- wlan0 -- CONNECTED                                             esc:quit",
            "+------------------------------------------------------------------------------+",
            "|>  HomeWiFi              █████████▓▒░   -45 dBm   psk   CONNECTED             |",
            "|   Neighbor              ████▓▒░        -72 dBm   psk                         |",
            "|                                                                              |",
            "|                                                                              |",
            "|                                                                              |",
            "|                                                                              |",
            "|                                                                              |",
            "|                                                                              |",
            "|                                                                              |",
            "|                                                                              |",
            "|                                                                              |",
            "|                                                                              |",
            "|                                                                              |",
            "|                                                                              |",
            "|                                                                              |",
            "|                                                                              |",
            "+------------------------------------------------------------------------------+",
            " j/k:move  enter:connect  d:disconnect  f:forget  s:scan  a:autoconnect",
        ])
    );
}

#[test]
fn snapshot_wide_connected() {
    let mut app = test_app(
        vec![
            net("HomeWiFi", -45, true, true),
            net("CoffeeShop", -65, false, true),
            net("Neighbor", -72, false, false),
        ],
        "connected",
    );
    app.diagnostics = Some(Diagnostics {
        rssi: Some(-45),
        frequency: Some(5180),
        tx_bitrate: Some(866700),
        rx_bitrate: Some(650000),
        security: Some("WPA2-PSK".into()),
    });
    app.wifi_rx_bytes = 1024 * 1024 * 150;
    app.wifi_tx_bytes = 1024 * 1024 * 25;
    app.detail_autoconnect = Some(true);
    app.detail_ipv4 = Some("192.168.███.███".into());
    assert_eq!(
        render_to_string(&app, 120, 24),
        screen(&[
            " iwd -- wlan0 -- CONNECTED                                                                                     esc:quit",
            "+-----------------------------------------------------------+----------------------------------------------------------+",
            "|>  HomeWiFi              █████████▓▒░   -45 dBm   psk   CON| NETWORK: HomeWiFi                                        |",
            "|   CoffeeShop            █████▓▒░       -65 dBm   psk   kno| Status:  CONNECTED                                       |",
            "|   Neighbor              ████▓▒░        -72 dBm   psk      | Type:    psk                                             |",
            "|                                                           | Channel: 36 (5 GHz)                                      |",
            "|                                                           | RSSI:    -45 dBm                                         |",
            "|                                                           | Tx:      866 Mbit/s                                      |",
            "|                                                           | Rx:      650 Mbit/s                                      |",
            "|                                                           | Cipher:  WPA2-PSK                                        |",
            "|                                                           | Data                                                     |",
            "|                                                           |   Down:  150 MB                                          |",
            "|                                                           |   Up:    25 MB                                           |",
            "|                                                           | AutoConnect: ON                                          |",
            "|                                                           | IPv4:    192.168.███.███                                 |",
            "|                                                           |                                                          |",
            "|                                                           |                                                          |",
            "|                                                           |                                                          |",
            "|                                                           |                                                          |",
            "|                                                           |                                                          |",
            "|                                                           |                                                          |",
            "|                                                           |                                                          |",
            "+-----------------------------------------------------------+----------------------------------------------------------+",
            " j/k:move  enter:connect  d:disconnect  f:forget  s:scan  a:autoconnect",
        ])
    );
}

#[test]
fn snapshot_wide_disconnected() {
    let app = test_app(
        vec![
            net("OpenNet", -50, false, false),
            net("SecureNet", -68, false, true),
        ],
        "disconnected",
    );
    assert_eq!(
        render_to_string(&app, 120, 24),
        screen(&[
            " iwd -- wlan0 -- DISCONNECTED                                                                                  esc:quit",
            "+-----------------------------------------------------------+----------------------------------------------------------+",
            "|>  OpenNet               ████████▓▒░    -50 dBm   psk      | NETWORK: OpenNet                                         |",
            "|   SecureNet             ████▓▒░        -68 dBm   psk   kno| Status:                                                  |",
            "|                                                           | Type:    psk                                             |",
            "|                                                           | RSSI:    -50 dBm                                         |",
            "|                                                           |                                                          |",
            "|                                                           |                                                          |",
            "|                                                           |                                                          |",
            "|                                                           |                                                          |",
            "|                                                           |                                                          |",
            "|                                                           |                                                          |",
            "|                                                           |                                                          |",
            "|                                                           |                                                          |",
            "|                                                           |                                                          |",
            "|                                                           |                                                          |",
            "|                                                           |                                                          |",
            "|                                                           |                                                          |",
            "|                                                           |                                                          |",
            "|                                                           |                                                          |",
            "|                                                           |                                                          |",
            "|                                                           |                                                          |",
            "+-----------------------------------------------------------+----------------------------------------------------------+",
            " j/k:move  enter:connect  d:disconnect  f:forget  s:scan  a:autoconnect",
        ])
    );
}

#[test]
fn snapshot_ethernet() {
    let mut app = test_app(vec![net("HomeWiFi", -45, true, true)], "connected");
    app.ethernet = Some(EthernetInfo {
        interface: "eth0".into(),
        speed_mbps: Some(1000),
        rx_bytes: 1024 * 1024 * 500,
        tx_bytes: 1024 * 1024 * 50,
        ipv4_masked: Some("10.0.███.███".into()),
    });
    assert_eq!(
        render_to_string(&app, 120, 24),
        screen(&[
            " iwd -- wlan0 -- ETHERNET (eth0 1Gbps)                                                                         esc:quit",
            "+-----------------------------------------------------------+----------------------------------------------------------+",
            "|>  HomeWiFi              █████████▓▒░   -45 dBm   psk   CON| ETHERNET                                                 |",
            "|                                                           | Iface:   eth0                                            |",
            "|                                                           | Speed                                                    |",
            "|                                                           |   Down:  1Gbps                                           |",
            "|                                                           |   Up:    1Gbps                                           |",
            "|                                                           | Data                                                     |",
            "|                                                           |   Down:  500 MB                                          |",
            "|                                                           |   Up:    50 MB                                           |",
            "|                                                           | IPv4:    10.0.███.███                                    |",
            "|                                                           |                                                          |",
            "|                                                           |                                                          |",
            "|                                                           |                                                          |",
            "|                                                           |                                                          |",
            "|                                                           |                                                          |",
            "|                                                           |                                                          |",
            "|                                                           |                                                          |",
            "|                                                           |                                                          |",
            "|                                                           |                                                          |",
            "|                                                           |                                                          |",
            "|                                                           |                                                          |",
            "+-----------------------------------------------------------+----------------------------------------------------------+",
            " j/k:move  enter:connect  d:disconnect  f:forget  s:scan  a:autoconnect",
        ])
    );
}

#[test]
fn snapshot_password_overlay() {
    let mut app = test_app(vec![net("SecureNet", -55, false, false)], "disconnected");
    app.overlay = Some(Overlay::Password {
        input: "secret".into(),
        visible: false,
        network_path: "/net/connman/iwd/0/SecureNet".into(),
        network_name: "SecureNet".into(),
    });
    assert_eq!(
        render_to_string(&app, 80, 20),
        screen(&[
            " iwd -- wlan0 -- DISCONNECTED                                          esc:quit",
            "+------------------------------------------------------------------------------+",
            "|>  SecureNet             ███████▓▒░     -55 dBm   psk                         |",
            "|                                                                              |",
            "|                                                                              |",
            "|                                                                              |",
            "|                  +----------------------------------------+                  |",
            "|                  |  CONNECT: SecureNet                    |                  |",
            "|                  |                                        |                  |",
            "|                  |  Password: ******_                     |                  |",
            "|                  |  [v] show password                     |                  |",
            "|                  |                                        |                  |",
            "|                  |  enter:connect  esc:cancel             |                  |",
            "|                  +----------------------------------------+                  |",
            "|                                                                              |",
            "|                                                                              |",
            "|                                                                              |",
            "|                                                                              |",
            "+------------------------------------------------------------------------------+",
            " j/k:move  enter:connect  d:disconnect  f:forget  s:scan  a:autoconnect",
        ])
    );
}

#[test]
fn snapshot_forget_overlay() {
    let mut app = test_app(vec![net("OldNetwork", -60, false, true)], "disconnected");
    app.overlay = Some(Overlay::ForgetConfirm {
        known_path: "/kn/OldNetwork".into(),
        network_name: "OldNetwork".into(),
    });
    assert_eq!(
        render_to_string(&app, 80, 20),
        screen(&[
            " iwd -- wlan0 -- DISCONNECTED                                          esc:quit",
            "+------------------------------------------------------------------------------+",
            "|>  OldNetwork            ██████▓▒░      -60 dBm   psk   known                 |",
            "|                                                                              |",
            "|                                                                              |",
            "|                                                                              |",
            "|                                                                              |",
            "|                  +----------------------------------------+                  |",
            "|                  |  FORGET: OldNetwork?                   |                  |",
            "|                  |                                        |                  |",
            "|                  |  y:confirm  n:cancel                   |                  |",
            "|                  +----------------------------------------+                  |",
            "|                                                                              |",
            "|                                                                              |",
            "|                                                                              |",
            "|                                                                              |",
            "|                                                                              |",
            "|                                                                              |",
            "+------------------------------------------------------------------------------+",
            " j/k:move  enter:connect  d:disconnect  f:forget  s:scan  a:autoconnect",
        ])
    );
}

#[test]
fn snapshot_scanning() {
    let mut app = test_app(vec![net("HomeWiFi", -45, false, true)], "disconnected");
    app.scanning = true;
    assert_eq!(
        render_to_string(&app, 80, 20),
        screen(&[
            " iwd -- wlan0 -- SCANNING.                                             esc:quit",
            "+------------------------------------------------------------------------------+",
            "|>  HomeWiFi              █████████▓▒░   -45 dBm   psk   known                 |",
            "|                                                                              |",
            "|                                                                              |",
            "|                                                                              |",
            "|                                                                              |",
            "|                                                                              |",
            "|                                                                              |",
            "|                                                                              |",
            "|                                                                              |",
            "|                                                                              |",
            "|                                                                              |",
            "|                                                                              |",
            "|                                                                              |",
            "|                                                                              |",
            "|                                                                              |",
            "|                                                                              |",
            "+------------------------------------------------------------------------------+",
            " j/k:move  enter:connect  d:disconnect  f:forget  s:scan  a:autoconnect",
        ])
    );
}

#[test]
fn snapshot_error() {
    let mut app = test_app(vec![net("HomeWiFi", -45, false, true)], "disconnected");
    app.header_error = Some("Connection failed".into());
    assert_eq!(
        render_to_string(&app, 80, 20),
        screen(&[
            " iwd -- wlan0 -- FAILED: Connection failed                             esc:quit",
            "+------------------------------------------------------------------------------+",
            "|>  HomeWiFi              █████████▓▒░   -45 dBm   psk   known                 |",
            "|                                                                              |",
            "|                                                                              |",
            "|                                                                              |",
            "|                                                                              |",
            "|                                                                              |",
            "|                                                                              |",
            "|                                                                              |",
            "|                                                                              |",
            "|                                                                              |",
            "|                                                                              |",
            "|                                                                              |",
            "|                                                                              |",
            "|                                                                              |",
            "|                                                                              |",
            "|                                                                              |",
            "+------------------------------------------------------------------------------+",
            " j/k:move  enter:connect  d:disconnect  f:forget  s:scan  a:autoconnect",
        ])
    );
}

fn header(app: &App, now: u64) -> String {
    text_at(app, 80, 20, now).lines().next().unwrap().to_string()
}

#[test]
fn error_is_shown_for_three_seconds() {
    let mut app = test_app(vec![], "connected");
    app.set_error("net.connman.iwd.Failed: auth error.", 5_000);
    assert!(header(&app, 5_000).starts_with(" iwd -- wlan0 -- FAILED: auth error "));
    assert!(header(&app, 7_999).starts_with(" iwd -- wlan0 -- FAILED: auth error "));
    assert!(header(&app, 8_000).starts_with(" iwd -- wlan0 -- CONNECTED "));
}

#[test]
fn scanning_goes_round_three_dots() {
    let mut app = test_app(vec![], "disconnected");
    app.scanning = true;
    app.scan_started_at = Some(10_000);
    let dots = |now: u64| {
        let text = header(&app, now);
        text.chars().filter(|c| *c == '.').count()
    };
    assert_eq!(dots(10_000), 1);
    assert_eq!(dots(10_299), 1);
    assert_eq!(dots(10_300), 2);
    assert_eq!(dots(10_600), 3);
    assert_eq!(dots(10_899), 3);
    assert_eq!(dots(10_900), 1);
}

#[test]
fn header_fills_the_width() {
    let app = test_app(vec![], "connected");
    assert_eq!(header(&app, 0), format!("{:<71}esc:quit", " iwd -- wlan0 -- CONNECTED"));
}

#[test]
fn several_adapters_are_named_in_the_header() {
    let mut app = App::new(
        vec![
            Adapter { path: "/0/3".into(), name: "wlp0s20f3".into() },
            Adapter { path: "/0/4".into(), name: "wlp1s0".into() },
        ],
        "/0/3".into(),
        "wlp0s20f3".into(),
        "connected",
    );
    assert!(header(&app, 0).starts_with(" iwd -- [wlp0s20f3] / wlp1s0 -- CONNECTED "));
    app.station_path = "/0/4".into();
    assert!(header(&app, 0).starts_with(" iwd -- wlp0s20f3 / [wlp1s0] -- CONNECTED "));
}

#[test]
fn one_adapter_is_named_without_brackets() {
    let app = App::new(
        vec![Adapter { path: "/0/3".into(), name: "wlp0s20f3".into() }],
        "/0/3".into(),
        "wlp0s20f3".into(),
        "connecting",
    );
    assert!(header(&app, 0).starts_with(" iwd -- wlp0s20f3 -- CONNECTING "));
}

#[test]
fn ethernet_without_speed_leaves_a_gap() {
    let mut app = test_app(vec![], "connected");
    app.ethernet = Some(EthernetInfo {
        interface: "eth0".into(),
        speed_mbps: None,
        rx_bytes: 0,
        tx_bytes: 0,
        ipv4_masked: None,
    });
    assert!(header(&app, 0).starts_with(" iwd -- wlan0 -- ETHERNET (eth0 ) "));
}

#[test]
fn long_names_are_cut_off() {
    let mut app = test_app(vec![net("ABCDEFGHIJKLMNOPQRSTUVWXYZ", -30, false, false)], "");
    app.networks[0].net_type = "8021x".into();
    let text = render_to_string(&app, 80, 20);
    let row = text.lines().nth(2).unwrap();
    assert_eq!(
        row,
        "|>  ABCDEFGHIJKLMNOPQRST  ██████████▓▒░  -30 dBm   8021x                       |"
    );
}

#[test]
fn signal_number_alone_is_colored() {
    let app = test_app(
        vec![
            net("Strong", -40, false, false),
            net("Fair", -60, false, false),
            net("Weak", -80, false, false),
        ],
        "disconnected",
    );
    let terminal = terminal_at(&app, 80, 20, NOW);
    let buf = terminal.backend().buffer();
    let expected = [
        ratatui::style::Color::Green,
        ratatui::style::Color::Yellow,
        ratatui::style::Color::Red,
    ];
    for (i, wanted) in expected.iter().enumerate() {
        let y = 2 + i as u16;
        // The bar begins at column 26, the number at column 40.
        assert_eq!(buf.cell((26, y)).unwrap().symbol(), "█");
        assert_eq!(buf.cell((26, y)).unwrap().fg, ratatui::style::Color::Reset);
        assert_eq!(buf.cell((41, y)).unwrap().symbol(), "-");
        assert_eq!(buf.cell((41, y)).unwrap().fg, *wanted);
    }
}

#[test]
fn row_under_the_cursor_is_reversed_and_visible() {
    let networks: Vec<Network> =
        (0..30).map(|i| net(&format!("net{i:02}"), -50, false, false)).collect();
    let mut app = test_app(networks, "disconnected");
    app.selected = 25;
    let terminal = terminal_at(&app, 80, 20, NOW);
    let buf = terminal.backend().buffer();
    // Sixteen rows: the last one is that of the cursor.
    assert_eq!(buf.cell((1, 17)).unwrap().symbol(), ">");
    assert!(buf.cell((1, 17)).unwrap().modifier.contains(Modifier::REVERSED));
    assert!(!buf.cell((1, 16)).unwrap().modifier.contains(Modifier::REVERSED));
    let text = render_to_string(&app, 80, 20);
    assert!(text.lines().nth(2).unwrap().contains("net10"));
    assert!(text.lines().nth(17).unwrap().contains("net25"));
}

#[test]
fn details_need_a_hundred_columns() {
    let app = test_app(vec![net("HomeWiFi", -45, true, true)], "connected");
    assert!(!render_to_string(&app, 99, 24).contains("NETWORK:"));
    assert!(render_to_string(&app, 100, 24).contains("NETWORK: HomeWiFi"));
}

#[test]
fn uptime_and_autoconnect_are_among_the_details() {
    let mut app = test_app(vec![net("HomeWiFi", -45, true, true)], "connected");
    app.connected_since = Some(1_000);
    app.detail_autoconnect = Some(false);
    let text = text_at(&app, 120, 24, 1_000 + 9_240_000);
    assert!(text.contains("| Uptime:  2h 34m"));
    assert!(text.contains("| AutoConnect: OFF"));
    assert!(!text.contains("Data"));
}

#[test]
fn low_band_is_named() {
    let mut app = test_app(vec![net("HomeWiFi", -45, true, true)], "connected");
    app.diagnostics = Some(Diagnostics {
        rssi: None,
        frequency: Some(2437),
        tx_bitrate: None,
        rx_bitrate: None,
        security: None,
    });
    let text = render_to_string(&app, 120, 24);
    assert!(text.contains("| Channel: 6 (2.4 GHz)"));
    assert!(!text.contains("RSSI:"));
    assert!(!text.contains("Tx:"));
    assert!(!text.contains("Cipher:"));
}

#[test]
fn known_network_shows_its_status() {
    let mut app = test_app(vec![net("CoffeeShop", -58, false, true)], "disconnected");
    app.detail_autoconnect = Some(true);
    let text = render_to_string(&app, 120, 24);
    assert!(text.contains("| NETWORK: CoffeeShop"));
    assert!(text.contains("| Status:  known"));
    assert!(text.contains("| RSSI:    -58 dBm"));
    assert!(text.contains("| AutoConnect: ON"));
}

#[test]
fn empty_list_has_no_details() {
    let app = test_app(vec![], "disconnected");
    let text = render_to_string(&app, 120, 24);
    assert!(!text.contains("NETWORK:"));
    assert!(text.contains("esc:quit"));
}

fn password(input: &str, visible: bool) -> String {
    let mut app = test_app(vec![], "disconnected");
    app.overlay = Some(Overlay::Password {
        input: input.into(),
        visible,
        network_path: "/n".into(),
        network_name: "n".into(),
    });
    let text = render_to_string(&app, 80, 20);
    let line = text.lines().find(|l| l.contains("Password:")).unwrap();
    let line = line.split("Password: ").nth(1).unwrap();
    line.split(['_', '|']).next().unwrap().to_string()
}

#[test]
fn password_is_masked_by_the_byte() {
    assert_eq!(password("secret", true), "secret");
    assert_eq!(password("secret", false), "******");
    assert_eq!(password("abcdef", false), password("secret", false));
    assert_eq!(password("é", false), "**");
    assert_eq!(password("", false), "");
}

#[test]
fn end_of_a_long_password_is_shown() {
    assert_eq!(password("0123456789abcdefghijklmnopqrst", true), "23456789abcdefghijklmnopqrst");
    assert_eq!(password("0123456789abcdefghijklmnopqrst", false).len(), 28);
}

#[test]
fn small_screens_hold_what_fits() {
    let mut app = test_app(vec![net("HomeWiFi", -45, true, true)], "connected");
    app.overlay = Some(Overlay::ForgetConfirm {
        known_path: "/kn".into(),
        network_name: "HomeWiFi".into(),
    });
    for (width, height) in [(1, 1), (2, 2), (30, 5), (10, 24)] {
        assert_eq!(render_to_string(&app, width, height).lines().count(), height as usize);
    }
}

#[test]
fn details_that_do_not_fit_give_no_picture() {
    let app = test_app(vec![net("HomeWiFi", -45, true, true)], "connected");
    let area = Rect::new(0, 0, 100, 24);
    let rows = vec![
        Rect::new(0, 0, 100, 1),
        Rect::new(0, 1, 100, 22),
        Rect::new(0, 23, 100, 1),
    ];
    let columns = |width: u16| {
        vec![
            Rect::new(1, 2, 97 - width, 20),
            Rect::new(98 - width, 2, 1, 20),
            Rect::new(99 - width, 2, width, 20),
        ]
    };
    assert!(draw_screen(area, &rows, &columns(9), &app, 0).is_none());
    assert!(draw_screen(area, &rows, &columns(10), &app, 0).is_some());
    let empty = test_app(vec![], "connected");
    assert!(draw_screen(area, &rows, &columns(9), &empty, 0).is_some());
}

#[test]
fn everything_is_drawn_on_the_screen() {
    let mut app = test_app(vec![net("HomeWiFi", -45, true, true)], "connected");
    app.overlay = Some(Overlay::Password {
        input: "x".into(),
        visible: true,
        network_path: "/n".into(),
        network_name: "n".into(),
    });
    for (width, height) in [(40, 6), (80, 24), (120, 40), (300, 100)] {
        for d in ui(Rect::new(0, 0, width, height), &app, 0).unwrap() {
            let a = match d {
                Draw::Clear { area } => area,
                Draw::Border { area } => area,
                Draw::Text { area, .. } => area,
            };
            assert!(a.x + a.width <= width);
            assert!(a.y + a.height <= height);
        }
    }
}

fn area_of(draw: &Draw) -> Rect {
    match draw {
        Draw::Clear { area } => *area,
        Draw::Border { area } => *area,
        Draw::Text { area, .. } => *area,
    }
}

#[test]
fn header_list_and_keys_stand_in_their_rows() {
    let app = test_app(vec![net("HomeWiFi", -45, true, true)], "connected");
    for height in 5..200 {
        for (x, y) in [(0, 0), (7, 11), (65_000, 65_300)] {
            let area = Rect::new(x, y, 90, height);
            let draws = ui(area, &app, 0).unwrap();
            assert_eq!(draws.len(), 4);
            assert_eq!(area_of(&draws[0]), Rect::new(x, y, 90, 1));
            assert_eq!(area_of(&draws[1]), Rect::new(x, y + 1, 90, height - 2));
            assert_eq!(area_of(&draws[2]), Rect::new(x + 1, y + 2, 88, height - 4));
            assert_eq!(area_of(&draws[3]), Rect::new(x, y + height - 1, 90, 1));
        }
    }
}

#[test]
fn list_line_and_details_stand_side_by_side() {
    let app = test_app(vec![net("HomeWiFi", -45, true, true)], "connected");
    for width in 100..400 {
        for x in [0, 13, 65_000] {
            let draws = ui(Rect::new(x, 3, width, 24), &app, 0).unwrap();
            assert_eq!(draws.len(), 8);
            let left = (width - 2) / 2;
            assert_eq!(area_of(&draws[2]), Rect::new(x + 1, 5, left, 20));
            assert_eq!(area_of(&draws[3]), Rect::new(x + 1 + left, 5, 1, 20));
            assert_eq!(area_of(&draws[4]), Rect::new(x + 1 + left, 4, 1, 1));
            assert_eq!(area_of(&draws[5]), Rect::new(x + 1 + left, 25, 1, 1));
            assert_eq!(area_of(&draws[6]), Rect::new(x + 2 + left, 5, width - 3 - left, 20));
            assert_eq!(area_of(&draws[7]), Rect::new(x, 26, width, 1));
        }
    }
}
