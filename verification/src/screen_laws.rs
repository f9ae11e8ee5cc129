//! What holds of the screen: what each line says, and where it stands.

use vstd::prelude::*;

use crate::app::{AdapterView, AppView, DiagnosticsView, OverlayView};
use crate::format::{
    bar_text, bytes_text, channel_text, color_of, seconds_between, speed_text, uptime_text,
};
use crate::layout::{centered, size_from, within_border, Rect};
use crate::network::NetworkView;
use crate::text::{
    decimal, first_chars, integer, last_chars, padded_left, padded_right, repeated, utf8_len,
};
use crate::ui::{
    adapters_text, detail_drawing, detail_fits, footer_text, header_line, interface_text, is_wide,
    list_drawing, overlay_drawing, plain, scan_dots, screen_fits, separator_drawing, state_text,
    DrawView, LineView, SpanView,
};

verus! {

/// A line of one piece of text in the color of the terminal.
pub open spec fn says(line: LineView, text: Seq<char>) -> bool {
    &&& line.spans.len() == 1
    &&& line.spans[0] == (SpanView { text, color: None })
    &&& !line.reversed
}

// ---------------------------------------------------------------------------------------------
// The header
// ---------------------------------------------------------------------------------------------

/// The header shows an error for three seconds from the moment it came; else that a scan is
/// under way, with one to three dots; else the state of the station.
pub proof fn law_header_state(app: AppView, now: u64)
    ensures
        app.header_error matches Some(e) ==> (now < app.header_error_at + 3_000 ==> state_text(
            app,
            now,
        ) == "FAILED: "@ + e),
        app.header_error is None || now >= app.header_error_at + 3_000 ==> {
            &&& !app.scanning ==> state_text(app, now) == app.state
            &&& app.scanning ==> (app.scan_started_at matches Some(since) ==> state_text(app, now)
                == "SCANNING"@ + repeated('.', scan_dots(since, now)))
            &&& app.scanning && app.scan_started_at is None ==> state_text(app, now)
                == "SCANNING"@ + repeated('.', 1)
            &&& app.scanning ==> (app.scan_started_at matches Some(since) ==> (now < since
                ==> state_text(app, now) == "SCANNING"@ + repeated('.', 1)))
        },
{
}

/// The header names the interface and then the state, or the wired connection where there is
/// one, at its left, and how to quit at its right, with nothing but spaces between: as many as
/// fill the width, or none where there is no room.
pub proof fn law_header(app: AppView, width: u16, now: u64)
    ensures
        ({
            let line = header_line(app, width, now);
            let used = utf8_len(line.spans[0].text) + utf8_len(line.spans[2].text);
            &&& line.spans.len() == 3 && !line.reversed
            &&& line.spans[0].color is None && line.spans[1].color is None && line.spans[2].color
                is None
            &&& line.spans[0].text == " iwd -- "@ + interface_text(app) + " -- "@ + (
            match app.ethernet {
                Some(e) => "ETHERNET ("@ + e.interface + " "@ + (match e.speed_mbps {
                    Some(mbps) => speed_text(mbps as nat),
                    None => Seq::empty(),
                }) + ")"@,
                None => state_text(app, now),
            })
            &&& line.spans[2].text == "esc:quit "@
            &&& line.spans[1].text == repeated(
                ' ',
                if used < width {
                    (width - used) as nat
                } else {
                    0
                },
            )
        }),
{
}

/// A single adapter goes by the name of the interface. Of several all are named, in order and
/// with a slash between, and the one in use is in brackets.
pub proof fn law_adapters_in_the_header(
    app: AppView,
    list: Seq<AdapterView>,
    one: AdapterView,
    station: Seq<char>,
)
    ensures
        app.adapters.len() <= 1 ==> interface_text(app) == app.interface_name,
        app.adapters.len() > 1 ==> interface_text(app) == adapters_text(
            app.adapters,
            app.station_path,
        ),
        adapters_text(seq![one], station) == if one.path == station {
            "["@ + one.name + "]"@
        } else {
            one.name
        },
        list.len() > 0 ==> adapters_text(list.push(one), station) == adapters_text(list, station)
            + " / "@ + adapters_text(seq![one], station),
{
    assert(list.push(one).drop_last() =~= list);
}

// ---------------------------------------------------------------------------------------------
// The list
// ---------------------------------------------------------------------------------------------

/// Row by row the list shows its networks: a cursor on the selected row alone, which is in
/// reverse video; the beginning of the name; the bar and the number of the signal, the number in
/// its color; the kind; and whether the network is connected or known.
pub proof fn law_rows_show_their_networks(area: Rect, app: AppView, i: int)
    requires
        0 <= i < app.networks.len(),
    ensures
        list_drawing(area, app) matches DrawView::Text { area: place, lines, .. } && {
            let n = app.networks[i];
            let row = lines[i];
            &&& place == area
            &&& lines.len() == app.networks.len()
            &&& row.spans.len() == 4
            &&& row.reversed <==> i == app.selected
            &&& row.spans[0] == (SpanView {
                text: (if i == app.selected {
                    ">  "@
                } else {
                    "   "@
                }) + padded_right(first_chars(n.name, 20), 20) + "  "@,
                color: None,
            })
            &&& row.spans[1] == (SpanView { text: bar_text(n.signal_dbm) + " "@, color: None })
            &&& row.spans[2] == (SpanView {
                text: padded_left(integer(n.signal_dbm), 4) + " dBm"@,
                color: Some(color_of(n.signal_dbm)),
            })
            &&& row.spans[3] == (SpanView {
                text: "   "@ + padded_right(n.net_type, 4) + "  "@ + (if n.connected {
                    "CONNECTED"@
                } else if n.known_path is Some {
                    "known"@
                } else {
                    ""@
                }),
                color: None,
            })
        },
{
    reveal_strlit(">  ");
    reveal_strlit("   ");
    reveal_strlit(">");
    reveal_strlit(" ");
    reveal_strlit("  ");
    let name = padded_right(first_chars(app.networks[i].name, 20), 20);
    assert(">"@ + "  "@ =~= ">  "@);
    assert(" "@ + "  "@ =~= "   "@);
    assert(">"@ + "  "@ + name + "  "@ =~= ">  "@ + name + "  "@);
    assert(" "@ + "  "@ + name + "  "@ =~= "   "@ + name + "  "@);
}

/// The list is moved no further than it takes to see the cursor: not at all while the cursor is
/// on the first rows, and else so far that the cursor is on the last row.
pub proof fn law_list_moves_with_the_cursor(area: Rect, app: AppView)
    requires
        app.selected < 0x1_0000,
        app.selected < 0xffff || area.height > 0,
    ensures
        list_drawing(area, app) matches DrawView::Text { scroll, .. } && scroll == if app.selected
            < area.height {
            0
        } else {
            app.selected - area.height + 1
        },
{
}

// ---------------------------------------------------------------------------------------------
// The details
// ---------------------------------------------------------------------------------------------

/// Whether a line says a signal strength: the label, and the number with its unit in its color.
pub open spec fn says_rssi(line: LineView, dbm: int) -> bool {
    &&& line.spans.len() == 2
    &&& line.spans[0] == (SpanView { text: " RSSI:    "@, color: None })
    &&& line.spans[1] == (SpanView {
        text: integer(dbm) + " dBm"@,
        color: Some(color_of(dbm)),
    })
    &&& !line.reversed
}

proof fn lemma_field(label: Seq<char>, whole: Seq<char>, value: Seq<char>)
    requires
        label.len() <= 9,
        whole.len() == 10,
        whole[0] == ' ',
        forall|i: int| 0 <= i < label.len() ==> #[trigger] whole[i + 1] == label[i],
        forall|i: int| label.len() < i < 10 ==> #[trigger] whole[i] == ' ',
    ensures
        says(crate::ui::field(label, value), whole + value),
        " "@ + padded_right(label, 9) == whole,
{
    reveal_strlit(" ");
    let text = " "@ + padded_right(label, 9);
    assert(text =~= whole) by {
        assert forall|i: int| 0 <= i < 10 implies text[i] == whole[i] by {
            if 0 < i <= label.len() {
                assert(whole[i - 1 + 1] == label[i - 1]);
            }
        }
    }
}

proof fn lemma_subfield(label: Seq<char>, whole: Seq<char>, value: Seq<char>)
    requires
        label.len() <= 7,
        whole.len() == 10,
        whole[0] == ' ' && whole[1] == ' ' && whole[2] == ' ',
        forall|i: int| 0 <= i < label.len() ==> #[trigger] whole[i + 3] == label[i],
        forall|i: int| label.len() + 2 < i < 10 ==> #[trigger] whole[i] == ' ',
    ensures
        says(crate::ui::subfield(label, value), whole + value),
{
    reveal_strlit("   ");
    let text = "   "@ + padded_right(label, 7);
    assert(text =~= whole) by {
        assert forall|i: int| 0 <= i < 10 implies text[i] == whole[i] by {
            if 3 <= i < 3 + label.len() {
                assert(whole[i - 3 + 3] == label[i - 3]);
            }
        }
    }
}

/// On a wide screen, with no wired connection, the details are those of the network under the
/// cursor: its name, cut off to fit, then its status, then its kind.
pub proof fn law_details_are_of_the_selected_network(area: Rect, app: AppView, now: u64)
    requires
        app.ethernet is None,
        app.selected < app.networks.len(),
        area.width >= 10,
    ensures
        ({
            let n = app.networks[app.selected as int];
            let draws = detail_drawing(area, app, now);
            draws.len() == 1 && (draws[0] matches DrawView::Text { area: place, lines, scroll } && {
                &&& place == area && scroll == 0
                &&& lines.len() >= 3
                &&& says(lines[0], " NETWORK: "@ + first_chars(n.name, (area.width - 10) as nat))
                &&& says(lines[1], " Status:  "@ + (if n.connected {
                    "CONNECTED"@
                } else if n.known_path is Some {
                    "known"@
                } else {
                    ""@
                }))
                &&& says(lines[2], " Type:    "@ + n.net_type)
            })
        }),
{
    let n = app.networks[app.selected as int];
    lemma_labels(n, (area.width - 10) as nat);
}

proof fn lemma_labels(n: NetworkView, width: nat)
    ensures
        says(
            crate::ui::field("NETWORK:"@, first_chars(n.name, width)),
            " NETWORK: "@ + first_chars(n.name, width),
        ),
        says(crate::ui::field("Status:"@, "CONNECTED"@), " Status:  "@ + "CONNECTED"@),
        says(crate::ui::field("Status:"@, "known"@), " Status:  "@ + "known"@),
        says(crate::ui::field("Status:"@, ""@), " Status:  "@ + ""@),
        says(crate::ui::field("Type:"@, n.net_type), " Type:    "@ + n.net_type),
        says_rssi(crate::ui::rssi_line(n.signal_dbm), n.signal_dbm),
{
    reveal_strlit("NETWORK:");
    reveal_strlit(" NETWORK: ");
    reveal_strlit("Status:");
    reveal_strlit(" Status:  ");
    reveal_strlit("Type:");
    reveal_strlit(" Type:    ");
    lemma_field("NETWORK:"@, " NETWORK: "@, first_chars(n.name, width));
    lemma_field("Status:"@, " Status:  "@, "CONNECTED"@);
    lemma_field("Status:"@, " Status:  "@, "known"@);
    lemma_field("Status:"@, " Status:  "@, ""@);
    lemma_field("Type:"@, " Type:    "@, n.net_type);
    lemma_rssi(n.signal_dbm);
}

proof fn lemma_rssi(dbm: int)
    ensures
        says_rssi(crate::ui::rssi_line(dbm), dbm),
{
    reveal_strlit("RSSI:");
    reveal_strlit(" RSSI:    ");
    lemma_field("RSSI:"@, " RSSI:    "@, ""@);
}

/// The details of a network that is not connected go on with its signal and, where it is known,
/// with whether it is connected to by itself, and end there.
pub proof fn law_details_of_another_network(area: Rect, app: AppView, now: u64)
    requires
        app.ethernet is None,
        app.selected < app.networks.len(),
        !app.networks[app.selected as int].connected,
        area.width >= 10,
    ensures
        detail_drawing(area, app, now)[0] matches DrawView::Text { lines, .. } && {
            &&& says_rssi(lines[3], app.networks[app.selected as int].signal_dbm)
            &&& lines.len() == if app.detail_autoconnect is Some {
                5nat
            } else {
                4nat
            }
            &&& app.detail_autoconnect matches Some(on) ==> says(
                lines[4],
                " AutoConnect: "@ + (if on {
                    "ON"@
                } else {
                    "OFF"@
                }),
            )
        },
{
    let n = app.networks[app.selected as int];
    lemma_rssi(n.signal_dbm);
}

/// A line of text is one piece, in the color of the terminal and not in reverse video.
pub proof fn law_plain_line(text: Seq<char>)
    ensures
        plain(text).spans.len() == 1,
        plain(text).spans[0].text == text,
        plain(text).spans[0].color is None,
        !plain(text).reversed,
        plain(text) == text_line_of(text),
{
    assert(plain(text).spans =~= text_line_of(text).spans);
}

/// A line in the color of the terminal.
pub open spec fn text_line_of(text: Seq<char>) -> LineView {
    LineView { spans: seq![SpanView { text, color: None }], reversed: false }
}

/// The details of the network that is connected: after its name, status and kind come, where
/// they are known and in this order, the channel with its band, the signal, the rates of sending
/// and receiving in whole Mbit/s, the cipher, the data received and sent, the time of the
/// connection, whether it is connected to by itself, and the address.
pub proof fn law_details_of_the_connection(area: Rect, app: AppView, now: u64)
    requires
        app.ethernet is None,
        app.selected < app.networks.len(),
        app.networks[app.selected as int].connected,
        area.width >= 10,
    ensures
        detail_drawing(area, app, now)[0] matches DrawView::Text { lines, .. } && lines.skip(3)
            == (match app.diagnostics {
            None => Seq::empty(),
        Some(d) => (match d.frequency {
                Some(mhz) => seq![
                    text_line_of(
                        " Channel: "@ + (channel_text(mhz as nat) + " ("@ + (if mhz >= 5000 {
                            "5 GHz"@
                        } else {
                            "2.4 GHz"@
                        }) + ")"@),
                    ),
                ],
                None => Seq::empty(),
            }) + (match d.rssi {
                Some(dbm) => seq![
                    LineView {
                        spans: seq![
                            SpanView { text: " RSSI:    "@, color: None },
                            SpanView {
                                text: integer(dbm as int) + " dBm"@,
                                color: Some(color_of(dbm as int)),
                            },
                        ],
                        reversed: false,
                    },
                ],
                None => Seq::empty(),
            }) + (match d.tx_bitrate {
                Some(kbps) => seq![
                    text_line_of(" Tx:      "@ + (decimal(kbps as nat / 1000) + " Mbit/s"@)),
                ],
                None => Seq::empty(),
            }) + (match d.rx_bitrate {
                Some(kbps) => seq![
                    text_line_of(" Rx:      "@ + (decimal(kbps as nat / 1000) + " Mbit/s"@)),
                ],
                None => Seq::empty(),
            }) + (match d.security {
                Some(security) => seq![text_line_of(" Cipher:  "@ + security)],
                None => Seq::empty(),
            }),
        }) + (if app.wifi_rx_bytes > 0 || app.wifi_tx_bytes > 0 {
            seq![
                text_line_of(" Data"@),
                text_line_of("   Down:  "@ + bytes_text(app.wifi_rx_bytes as nat)),
                text_line_of("   Up:    "@ + bytes_text(app.wifi_tx_bytes as nat)),
            ]
        } else {
            Seq::empty()
        }) + (match app.connected_since {
            Some(since) => seq![
                text_line_of(
                    " Uptime:  "@ + uptime_text(seconds_between(since as nat, now as nat)),
                ),
            ],
            None => Seq::empty(),
        }) + (match app.detail_autoconnect {
            Some(on) => seq![
                text_line_of(
                    " AutoConnect: "@ + (if on {
                        "ON"@
                    } else {
                        "OFF"@
                    }),
                ),
            ],
            None => Seq::empty(),
        }) + (match app.detail_ipv4 {
            Some(ip) => seq![text_line_of(" IPv4:    "@ + ip)],
            None => Seq::empty(),
        }),
{
    let n = app.networks[app.selected as int];
    lemma_measured(app.diagnostics);
    lemma_counted(app.wifi_rx_bytes, app.wifi_tx_bytes);
    lemma_timed(app.connected_since, now, app.detail_ipv4);
    let head = seq![
        crate::ui::field("NETWORK:"@, first_chars(n.name, (area.width - 10) as nat)),
        crate::ui::field("Status:"@, "CONNECTED"@),
        crate::ui::field("Type:"@, n.net_type),
    ];
    let a = crate::ui::diagnostics_lines(app.diagnostics);
    let b = if app.wifi_rx_bytes > 0 || app.wifi_tx_bytes > 0 {
        crate::ui::data_lines(app.wifi_rx_bytes, app.wifi_tx_bytes)
    } else {
        Seq::empty()
    };
    let c = crate::ui::uptime_lines(app.connected_since, now);
    let d = crate::ui::autoconnect_lines(app.detail_autoconnect);
    let e = crate::ui::ipv4_lines(app.detail_ipv4);
    let lines = crate::ui::network_lines(app, n, area.width, now);
    let two = seq![crate::ui::field("Status:"@, "CONNECTED"@), crate::ui::field("Type:"@, n.net_type)];
    assert(lines == seq![head[0]] + (two + a + b + c + d + e));
    lemma_skip_head(head[0], two, a, b, c, d, e);
    assert(lines.skip(3) == a + b + c + d + e);
    assert(a == measured_lines(app.diagnostics));
    assert(app.wifi_rx_bytes > 0 || app.wifi_tx_bytes > 0 ==> b == counted_lines(
        app.wifi_rx_bytes,
        app.wifi_tx_bytes,
    ));
}

proof fn lemma_skip_head(
    first: LineView,
    two: Seq<LineView>,
    a: Seq<LineView>,
    b: Seq<LineView>,
    c: Seq<LineView>,
    d: Seq<LineView>,
    e: Seq<LineView>,
)
    requires
        two.len() == 2,
    ensures
        (seq![first] + (two + a + b + c + d + e)).skip(3) == a + b + c + d + e,
{
    let ab = a + b;
    let abc = ab + c;
    let abcd = abc + d;
    assert(two + a + b =~= two + ab);
    assert(two + ab + c =~= two + abc);
    assert(two + abc + d =~= two + abcd);
    assert(two + abcd + e =~= two + (abcd + e));
    let rest = abcd + e;
    assert((seq![first] + (two + rest)).skip(3) =~= rest);
}

spec fn measured_lines(diagnostics: Option<DiagnosticsView>) -> Seq<LineView> {
    match diagnostics {
        None => Seq::empty(),
        Some(d) => (match d.frequency {
            Some(mhz) => seq![
                text_line_of(
                    " Channel: "@ + (channel_text(mhz as nat) + " ("@ + (if mhz >= 5000 {
                        "5 GHz"@
                    } else {
                        "2.4 GHz"@
                    }) + ")"@),
                ),
            ],
            None => Seq::empty(),
        }) + (match d.rssi {
            Some(dbm) => seq![
                LineView {
                    spans: seq![
                        SpanView { text: " RSSI:    "@, color: None },
                        SpanView {
                            text: integer(dbm as int) + " dBm"@,
                            color: Some(color_of(dbm as int)),
                        },
                    ],
                    reversed: false,
                },
            ],
            None => Seq::empty(),
        }) + (match d.tx_bitrate {
            Some(kbps) => seq![
                text_line_of(" Tx:      "@ + (decimal(kbps as nat / 1000) + " Mbit/s"@)),
            ],
            None => Seq::empty(),
        }) + (match d.rx_bitrate {
            Some(kbps) => seq![
                text_line_of(" Rx:      "@ + (decimal(kbps as nat / 1000) + " Mbit/s"@)),
            ],
            None => Seq::empty(),
        }) + (match d.security {
            Some(security) => seq![text_line_of(" Cipher:  "@ + security)],
            None => Seq::empty(),
        }),
    }
}

spec fn counted_lines(rx_bytes: u64, tx_bytes: u64) -> Seq<LineView> {
    seq![
        text_line_of(" Data"@),
        text_line_of("   Down:  "@ + bytes_text(rx_bytes as nat)),
        text_line_of("   Up:    "@ + bytes_text(tx_bytes as nat)),
    ]
}

proof fn lemma_says(line: LineView, text: Seq<char>)
    requires
        says(line, text),
    ensures
        line == text_line_of(text),
{
    assert(line.spans =~= text_line_of(text).spans);
}

proof fn lemma_measured(diagnostics: Option<DiagnosticsView>)
    ensures
        crate::ui::diagnostics_lines(diagnostics) == measured_lines(diagnostics),
{
    if let Some(d) = diagnostics {
        reveal_strlit("Channel:");
        reveal_strlit(" Channel: ");
        reveal_strlit("Tx:");
        reveal_strlit(" Tx:      ");
        reveal_strlit("Rx:");
        reveal_strlit(" Rx:      ");
        reveal_strlit("Cipher:");
        reveal_strlit(" Cipher:  ");
        if let Some(mhz) = d.frequency {
            let value = channel_text(mhz as nat) + " ("@ + (if mhz >= 5000 {
                "5 GHz"@
            } else {
                "2.4 GHz"@
            }) + ")"@;
            lemma_field("Channel:"@, " Channel: "@, value);
            lemma_says(crate::ui::field("Channel:"@, value), " Channel: "@ + value);
        }
        if let Some(dbm) = d.rssi {
            lemma_rssi(dbm as int);
            assert(crate::ui::rssi_line(dbm as int).spans =~= seq![
                SpanView { text: " RSSI:    "@, color: None },
                SpanView {
                    text: integer(dbm as int) + " dBm"@,
                    color: Some(color_of(dbm as int)),
                },
            ]);
        }
        if let Some(kbps) = d.tx_bitrate {
            let value = decimal(kbps as nat / 1000) + " Mbit/s"@;
            lemma_field("Tx:"@, " Tx:      "@, value);
            lemma_says(crate::ui::field("Tx:"@, value), " Tx:      "@ + value);
        }
        if let Some(kbps) = d.rx_bitrate {
            let value = decimal(kbps as nat / 1000) + " Mbit/s"@;
            lemma_field("Rx:"@, " Rx:      "@, value);
            lemma_says(crate::ui::field("Rx:"@, value), " Rx:      "@ + value);
        }
        if let Some(security) = d.security {
            lemma_field("Cipher:"@, " Cipher:  "@, security);
            lemma_says(crate::ui::field("Cipher:"@, security), " Cipher:  "@ + security);
        }
    }
}

proof fn lemma_counted(rx_bytes: u64, tx_bytes: u64)
    ensures
        crate::ui::data_lines(rx_bytes, tx_bytes) == counted_lines(rx_bytes, tx_bytes),
{
    reveal_strlit("Down:");
    reveal_strlit("   Down:  ");
    reveal_strlit("Up:");
    reveal_strlit("   Up:    ");
    let down = bytes_text(rx_bytes as nat);
    let up = bytes_text(tx_bytes as nat);
    lemma_subfield("Down:"@, "   Down:  "@, down);
    lemma_subfield("Up:"@, "   Up:    "@, up);
    lemma_says(crate::ui::subfield("Down:"@, down), "   Down:  "@ + down);
    lemma_says(crate::ui::subfield("Up:"@, up), "   Up:    "@ + up);
}

proof fn lemma_timed(since: Option<u64>, now: u64, ip: Option<Seq<char>>)
    ensures
        since matches Some(at) ==> crate::ui::uptime_lines(since, now) == seq![
            text_line_of(" Uptime:  "@ + uptime_text(seconds_between(at as nat, now as nat))),
        ],
        ip matches Some(address) ==> crate::ui::ipv4_lines(ip) == seq![
            text_line_of(" IPv4:    "@ + address),
        ],
{
    reveal_strlit("Uptime:");
    reveal_strlit(" Uptime:  ");
    reveal_strlit("IPv4:");
    reveal_strlit(" IPv4:    ");
    if let Some(at) = since {
        let value = uptime_text(seconds_between(at as nat, now as nat));
        lemma_field("Uptime:"@, " Uptime:  "@, value);
        lemma_says(crate::ui::field("Uptime:"@, value), " Uptime:  "@ + value);
    }
    if let Some(address) = ip {
        lemma_field("IPv4:"@, " IPv4:    "@, address);
        lemma_says(crate::ui::field("IPv4:"@, address), " IPv4:    "@ + address);
    }
}

/// With a wired connection the details are of that: its interface, its speed both ways where it
/// is known, the data received and sent, and its address where it is known. Without one, and
/// without a network under the cursor, there are none.
pub proof fn law_details_of_the_wired_connection(area: Rect, app: AppView, now: u64)
    ensures
        app.ethernet matches Some(e) ==> detail_drawing(area, app, now) == seq![
            DrawView::Text {
                area,
                lines: seq![text_line_of(" ETHERNET"@), text_line_of(" Iface:   "@ + e.interface)]
                    + (match e.speed_mbps {
                    Some(mbps) => seq![
                        text_line_of(" Speed"@),
                        text_line_of("   Down:  "@ + speed_text(mbps as nat)),
                        text_line_of("   Up:    "@ + speed_text(mbps as nat)),
                    ],
                    None => Seq::empty(),
                }) + seq![
                    text_line_of(" Data"@),
                    text_line_of("   Down:  "@ + bytes_text(e.rx_bytes as nat)),
                    text_line_of("   Up:    "@ + bytes_text(e.tx_bytes as nat)),
                ] + (match e.ipv4_masked {
                    Some(ip) => seq![text_line_of(" IPv4:    "@ + ip)],
                    None => Seq::empty(),
                }),
                scroll: 0,
            },
        ],
        app.ethernet is None && app.selected >= app.networks.len() ==> detail_drawing(
            area,
            app,
            now,
        ).len() == 0,
{
    if let Some(e) = app.ethernet {
        reveal_strlit("Iface:");
        reveal_strlit(" Iface:   ");
        reveal_strlit("Down:");
        reveal_strlit("   Down:  ");
        reveal_strlit("Up:");
        reveal_strlit("   Up:    ");
        lemma_field("Iface:"@, " Iface:   "@, e.interface);
        lemma_says(crate::ui::field("Iface:"@, e.interface), " Iface:   "@ + e.interface);
        lemma_counted(e.rx_bytes, e.tx_bytes);
        lemma_timed(None, now, e.ipv4_masked);
        if let Some(mbps) = e.speed_mbps {
            let value = speed_text(mbps as nat);
            lemma_subfield("Down:"@, "   Down:  "@, value);
            lemma_subfield("Up:"@, "   Up:    "@, value);
            lemma_says(crate::ui::subfield("Down:"@, value), "   Down:  "@ + value);
            lemma_says(crate::ui::subfield("Up:"@, value), "   Up:    "@ + value);
        }
    }
}

// ---------------------------------------------------------------------------------------------
// The boxes
// ---------------------------------------------------------------------------------------------

/// The box for a password names its network and shows what was typed as it is, or an asterisk
/// for each byte of it, and the end of that where it is long. It is 42 by 8 in the middle of the
/// screen, which is emptied there first.
pub proof fn law_password_box(
    area: Rect,
    app: AppView,
    input: Seq<char>,
    visible: bool,
    network_path: Seq<char>,
    network_name: Seq<char>,
)
    requires
        app.overlay == Some(
            OverlayView::Password { input, visible, network_path, network_name },
        ),
    ensures
        ({
            let place = centered(42, 8, area);
            let shown = last_chars(
                if visible {
                    input
                } else {
                    repeated('*', utf8_len(input))
                },
                28,
            );
            overlay_drawing(area, app) == seq![
                DrawView::Clear { area: place },
                DrawView::Border { area: place },
                DrawView::Text {
                    area: within_border(place),
                    lines: seq![
                        text_line_of("  CONNECT: "@ + first_chars(network_name, 30)),
                        text_line_of(""@),
                        text_line_of("  Password: "@ + shown + "_"@),
                        text_line_of("  [v] show password"@),
                        text_line_of(""@),
                        text_line_of("  enter:connect  esc:cancel"@),
                    ],
                    scroll: 0,
                },
            ]
        }),
{
}

/// The box that asks whether to forget a network names it, and is 42 by 5 in the middle of the
/// screen. Without an open box none is drawn.
pub proof fn law_forget_box(
    area: Rect,
    app: AppView,
    known_path: Seq<char>,
    network_name: Seq<char>,
)
    ensures
        app.overlay == Some(OverlayView::ForgetConfirm { known_path, network_name }) ==> ({
            let place = centered(42, 5, area);
            overlay_drawing(area, app) == seq![
                DrawView::Clear { area: place },
                DrawView::Border { area: place },
                DrawView::Text {
                    area: within_border(place),
                    lines: seq![
                        text_line_of("  FORGET: "@ + first_chars(network_name, 28) + "?"@),
                        text_line_of(""@),
                        text_line_of("  y:confirm  n:cancel"@),
                    ],
                    scroll: 0,
                },
            ]
        }),
        app.overlay is None ==> overlay_drawing(area, app).len() == 0,
{
}

// ---------------------------------------------------------------------------------------------
// The whole screen
// ---------------------------------------------------------------------------------------------

/// The details of a network need ten columns. Those of a wired connection need none, and neither
/// does having nothing to show.
pub proof fn law_room_for_the_details(area: Rect, app: AppView)
    ensures
        detail_fits(area, app) <==> app.ethernet is Some || app.selected >= app.networks.len()
            || area.width >= 10,
{
}

/// The details are beside the list from 100 columns on.
pub proof fn law_wide_from_a_hundred_columns(area: Rect)
    ensures
        is_wide(area) <==> area.width >= 100,
        screen_fits(area) <==> area.x + area.width <= 65_535 && area.y + area.height <= 65_535
            && area.height >= 5,
        footer_text()
            == " j/k:move  enter:connect  d:disconnect  f:forget  s:scan  a:autoconnect"@,
{
}

/// The line beside the list is one bar on each of its rows, with a corner on the border above
/// it and one on the border below it.
pub proof fn law_separator(body: Rect, column: Rect)
    requires
        body.height > 0,
        body.y + body.height <= u16::MAX,
    ensures
        ({
            let draws = separator_drawing(body, column);
            let corner = seq![text_line_of("+"@)];
            &&& draws.len() == 3
            &&& draws[0] matches DrawView::Text { area, lines, scroll } && {
                &&& area == column && scroll == 0
                &&& lines.len() == column.height
                &&& forall|i: int|
                    0 <= i < lines.len() ==> #[trigger] lines[i] == text_line_of("|"@)
            }
            &&& draws[1] == (DrawView::Text {
                area: Rect { x: column.x, y: body.y, width: column.width, height: 1 },
                lines: corner,
                scroll: 0,
            })
            &&& draws[2] == (DrawView::Text {
                area: Rect {
                    x: column.x,
                    y: (body.y + body.height - 1) as u16,
                    width: column.width,
                    height: 1,
                },
                lines: corner,
                scroll: 0,
            })
        }),
{
}

/// A border takes one cell on each side, as far as there are cells.
pub proof fn law_border_takes_one_cell(area: Rect)
    requires
        area.x + area.width <= u16::MAX,
        area.y + area.height <= u16::MAX,
    ensures
        area.width >= 2 && area.height >= 2 ==> within_border(area) == (Rect {
            x: (area.x + 1) as u16,
            y: (area.y + 1) as u16,
            width: (area.width - 2) as u16,
            height: (area.height - 2) as u16,
        }),
        area.width < 2 ==> within_border(area).width == 0 && within_border(area).x == area.x
            + area.width,
        area.height < 2 ==> within_border(area).height == 0 && within_border(area).y == area.y
            + area.height,
{
}

/// An area keeps its size where there are cells for it, and is cut off at the last cell.
pub proof fn law_size_from(at: u16, size: u16)
    ensures
        at + size <= 65_535 ==> size_from(at, size) == size,
        at + size > 65_535 ==> at + size_from(at, size) == 65_535,
{
}

/// The middle of an area: a box that fits has its size and half of the room that is left, rounded
/// down, in front of it; one that does not fit takes all there is.
pub proof fn law_middle(width: u16, height: u16, area: Rect)
    requires
        area.x + area.width <= u16::MAX,
        area.y + area.height <= u16::MAX,
    ensures
        ({
            let c = centered(width, height, area);
            &&& width <= area.width ==> c.width == width && c.x == area.x + (area.width - width) / 2
            &&& width > area.width ==> c.width == area.width && c.x == area.x
            &&& height <= area.height ==> c.height == height && c.y == area.y + (area.height
                - height) / 2
            &&& height > area.height ==> c.height == area.height && c.y == area.y
        }),
{
}

} // verus!
