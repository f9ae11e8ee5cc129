//! What the screen shows.

use vstd::prelude::*;

use crate::app::{diagnostics_view, network_at_cursor, Adapter, AdapterView, App, AppView};
use crate::app::{Diagnostics, DiagnosticsView, EthernetInfo, EthernetView, Overlay, OverlayView};
use crate::format::{bar_text, bytes_text, channel_text, color_of, seconds_between, speed_text};
use crate::format::{dbm_color, format_bytes, format_speed, format_uptime, freq_to_channel};
use crate::format::{signal_bar, uptime_text, Color};
use crate::layout::{are_columns, are_rows, centered, centered_rect, columns_of, has_middle};
use crate::layout::{inside_border, lies_in, rows_fit, rows_of, split_columns, split_rows};
use crate::layout::{within_border, Rect};
use crate::network::{text_of, Network, NetworkView};
use crate::text::{byte_len, decimal, first_chars, integer, last_chars, padded_left, padded_right};
use crate::text::{push_decimal, push_integer, push_padded_left, push_padded_right, push_repeated};
use crate::text::{push_text, repeated, same_text, take_chars, take_last_chars, utf8_len};

verus! {

/// How long an error is shown, in milliseconds.
pub const ERROR_FLASH_MS: u64 = 3_000;

/// How long each picture of a scan is shown, in milliseconds.
pub const SCAN_STEP_MS: u64 = 300;

/// How many characters of a network's name are shown in the list.
pub const MAX_SSID: usize = 20;

/// How wide the screen has to be for the details of a network.
pub const DETAIL_MIN_WIDTH: u16 = 100;

/// How wide the boxes in front of the list are.
pub const OVERLAY_WIDTH: u16 = 42;

/// How high the box for a password is.
pub const PASSWORD_HEIGHT: u16 = 8;

/// How high the box that asks whether to forget a network is.
pub const FORGET_HEIGHT: u16 = 5;

/// How many columns the details of a network need at least.
pub const DETAIL_MARGIN: u16 = 10;

// ---------------------------------------------------------------------------------------------
// What is drawn
// ---------------------------------------------------------------------------------------------

/// A piece of text in one color. Without one it has the color of the terminal.
pub struct Span {
    pub text: String,
    pub color: Option<Color>,
}

/// What a [`Span`] stands for.
#[verifier::ext_equal]
pub struct SpanView {
    pub text: Seq<char>,
    pub color: Option<Color>,
}

impl View for Span {
    type V = SpanView;

    open spec fn view(&self) -> SpanView {
        SpanView { text: self.text@, color: self.color }
    }
}

/// A line of text, in reverse video or not.
pub struct Line {
    pub spans: Vec<Span>,
    pub reversed: bool,
}

/// What a [`Line`] stands for.
#[verifier::ext_equal]
pub struct LineView {
    pub spans: Seq<SpanView>,
    pub reversed: bool,
}

/// What the pieces of a line stand for.
pub open spec fn span_views(spans: Seq<Span>) -> Seq<SpanView> {
    spans.map_values(|s: Span| s@)
}

impl View for Line {
    type V = LineView;

    open spec fn view(&self) -> LineView {
        LineView { spans: span_views(self.spans@), reversed: self.reversed }
    }
}

/// What the lines of a list stand for.
pub open spec fn line_views(lines: Seq<Line>) -> Seq<LineView> {
    lines.map_values(|l: Line| l@)
}

/// Something to draw.
pub enum Draw {
    /// Empty an area.
    Clear { area: Rect },
    /// Put a border round the inside of an area, out of `+`, `-` and `|`.
    Border { area: Rect },
    /// Write lines into an area, without the first `scroll` ones.
    Text { area: Rect, lines: Vec<Line>, scroll: u16 },
}

/// What a [`Draw`] stands for.
#[verifier::ext_equal]
pub enum DrawView {
    Clear { area: Rect },
    Border { area: Rect },
    Text { area: Rect, lines: Seq<LineView>, scroll: u16 },
}

impl View for Draw {
    type V = DrawView;

    open spec fn view(&self) -> DrawView {
        match self {
            Draw::Clear { area } => DrawView::Clear { area: *area },
            Draw::Border { area } => DrawView::Border { area: *area },
            Draw::Text { area, lines, scroll } => DrawView::Text {
                area: *area,
                lines: line_views(lines@),
                scroll: *scroll,
            },
        }
    }
}

/// What the drawings of a list stand for.
pub open spec fn draw_views(draws: Seq<Draw>) -> Seq<DrawView> {
    draws.map_values(|d: Draw| d@)
}

/// The area that something is drawn in.
pub open spec fn draw_area(draw: DrawView) -> Rect {
    match draw {
        DrawView::Clear { area } => area,
        DrawView::Border { area } => area,
        DrawView::Text { area, .. } => area,
    }
}

/// A piece of text in the color of the terminal.
pub open spec fn raw(text: Seq<char>) -> SpanView {
    SpanView { text, color: None }
}

/// A line of one piece of text.
pub open spec fn plain(text: Seq<char>) -> LineView {
    LineView { spans: seq![raw(text)], reversed: false }
}

fn raw_span(text: String) -> (res: Span)
    ensures
        res@ == raw(text@),
{
    Span { text, color: None }
}

fn text_line(text: String) -> (res: Line)
    ensures
        res@ == plain(text@),
{
    let ghost t = text@;
    let res = Line { spans: vec![raw_span(text)], reversed: false };
    assert(res@.spans =~= seq![raw(t)]);
    res
}

fn literal_line(text: &str) -> (res: Line)
    ensures
        res@ == plain(text@),
{
    text_line(text.to_owned())
}

fn push_line(lines: &mut Vec<Line>, line: Line)
    ensures
        line_views(final(lines)@) == line_views(old(lines)@).push(line@),
{
    let ghost before = line_views(lines@);
    let ghost view = line@;
    lines.push(line);
    assert(line_views(lines@) =~= before.push(view));
}

fn push_draw(draws: &mut Vec<Draw>, draw: Draw)
    ensures
        draw_views(final(draws)@) == draw_views(old(draws)@).push(draw@),
{
    let ghost before = draw_views(draws@);
    let ghost view = draw@;
    draws.push(draw);
    assert(draw_views(draws@) =~= before.push(view));
}

fn push_draws(draws: &mut Vec<Draw>, more: Vec<Draw>)
    ensures
        draw_views(final(draws)@) == draw_views(old(draws)@) + draw_views(more@),
{
    let ghost before = draws@;
    let ghost added = more@;
    let mut more = more;
    draws.append(&mut more);
    assert(draws@ =~= before + added);
    assert(draw_views(draws@) =~= draw_views(before) + draw_views(added));
}

// ---------------------------------------------------------------------------------------------
// The header
// ---------------------------------------------------------------------------------------------

/// Whether the error is shown: for a while after it came.
pub open spec fn error_shown(app: AppView, now: u64) -> bool {
    app.header_error is Some && now < app.header_error_at + ERROR_FLASH_MS
}

/// How many dots a scan that began at `since` is shown with: one, two and three in turn.
pub open spec fn scan_dots(since: u64, now: u64) -> nat {
    let elapsed: nat = if since <= now {
        (now - since) as nat
    } else {
        0
    };
    elapsed / SCAN_STEP_MS as nat % 3 + 1
}

/// The state that the header shows: the error, for a while after it came; else the scan, if
/// one is under way; else the state of the station.
pub open spec fn state_text(app: AppView, now: u64) -> Seq<char> {
    if error_shown(app, now) {
        "FAILED: "@ + app.header_error->0
    } else if app.scanning {
        let since = match app.scan_started_at {
            Some(since) => since,
            None => now,
        };
        "SCANNING"@ + repeated('.', scan_dots(since, now))
    } else {
        app.state
    }
}

/// Puts the state into words.
pub fn header_state(app: &App, now: u64) -> (res: String)
    ensures
        res@ == state_text(app@, now),
{
    if let Some(error) = &app.header_error {
        if now < app.header_error_at || now - app.header_error_at < ERROR_FLASH_MS {
            let mut res = "FAILED: ".to_owned();
            push_text(&mut res, error.as_str());
            return res;
        }
    }
    if app.scanning {
        let since: u64 = match app.scan_started_at {
            Some(since) => since,
            None => now,
        };
        let dots: u64 = now.saturating_sub(since) / SCAN_STEP_MS % 3 + 1;
        let mut res = "SCANNING".to_owned();
        push_repeated(&mut res, '.', dots as usize);
        return res;
    }
    app.state.clone()
}

/// An error is shown for three seconds, and the header then shows what it would without it.
pub proof fn law_error_flash(app: AppView, now: u64)
    requires
        app.header_error is Some,
    ensures
        now < app.header_error_at + 3_000 ==> state_text(app, now) == "FAILED: "@
            + app.header_error->0,
        now >= app.header_error_at + 3_000 ==> state_text(app, now) == state_text(
            AppView { header_error: None, ..app },
            now,
        ),
{
}

/// A scan is shown with one to three dots, the next number every 300 ms, and from one again
/// after three.
pub proof fn law_scan_animation(since: u64, steps: nat, now: u64)
    requires
        since + steps * 300 <= now < since + (steps + 1) * 300,
    ensures
        1 <= scan_dots(since, now) <= 3,
        scan_dots(since, now) == steps % 3 + 1,
{
    assert((now - since) as nat / 300 == steps) by (nonlinear_arith)
        requires
            since + steps * 300 <= now < since + (steps + 1) * 300,
    ;
}

/// The name of an adapter as the header shows it: in brackets where it is in use.
pub open spec fn adapter_text(adapter: AdapterView, station: Seq<char>) -> Seq<char> {
    if adapter.path == station {
        "["@ + adapter.name + "]"@
    } else {
        adapter.name
    }
}

/// The names of several adapters, one after another.
pub open spec fn adapters_text(adapters: Seq<AdapterView>, station: Seq<char>) -> Seq<char>
    decreases adapters.len(),
{
    if adapters.len() == 0 {
        Seq::empty()
    } else if adapters.len() == 1 {
        adapter_text(adapters[0], station)
    } else {
        adapters_text(adapters.drop_last(), station) + " / "@ + adapter_text(
            adapters.last(),
            station,
        )
    }
}

/// What the header calls the interface: by its name, and among the others where there are any.
pub open spec fn interface_text(app: AppView) -> Seq<char> {
    if app.adapters.len() > 1 {
        adapters_text(app.adapters, app.station_path)
    } else {
        app.interface_name
    }
}

/// What the header says of a wired connection.
pub open spec fn wired_text(ethernet: EthernetView) -> Seq<char> {
    "ETHERNET ("@ + ethernet.interface + " "@ + (match ethernet.speed_mbps {
        Some(mbps) => speed_text(mbps as nat),
        None => Seq::empty(),
    }) + ")"@
}

/// What stands at the left of the header.
pub open spec fn header_left(app: AppView, now: u64) -> Seq<char> {
    " iwd -- "@ + interface_text(app) + " -- "@ + (match app.ethernet {
        Some(ethernet) => wired_text(ethernet),
        None => state_text(app, now),
    })
}

/// The header: what there is at its left, how to quit at its right, and as many spaces between
/// as it takes to fill the width with the bytes of both.
pub open spec fn header_line(app: AppView, width: u16, now: u64) -> LineView {
    let left = header_left(app, now);
    let used = utf8_len(left) + utf8_len("esc:quit "@);
    let gap: nat = if used < width {
        (width - used) as nat
    } else {
        0
    };
    LineView { spans: seq![raw(left), raw(repeated(' ', gap)), raw("esc:quit "@)], reversed: false }
}

fn push_adapter(out: &mut String, adapter: &Adapter, station: &str)
    ensures
        final(out)@ == old(out)@ + adapter_text(adapter@, station@),
{
    let ghost start = out@;
    if same_text(adapter.path.as_str(), station) {
        push_text(out, "[");
        push_text(out, adapter.name.as_str());
        push_text(out, "]");
    } else {
        push_text(out, adapter.name.as_str());
    }
    assert(out@ =~= start + adapter_text(adapter@, station@));
}

fn interface_name(app: &App) -> (res: String)
    ensures
        res@ == interface_text(app@),
{
    assert(app@.adapters.len() == app.adapters@.len());
    if app.adapters.len() <= 1 {
        return app.interface_name.clone();
    }
    let ghost adapters = app@.adapters;
    let mut res = String::new();
    let mut i: usize = 0;
    while i < app.adapters.len()
        invariant
            i <= app.adapters@.len(),
            adapters == app@.adapters,
            res@ == adapters_text(adapters.take(i as int), app.station_path@),
        decreases app.adapters@.len() - i,
    {
        let ghost start = res@;
        let ghost head = adapters.take(i + 1);
        assert(head.drop_last() =~= adapters.take(i as int));
        assert(head.last() == app.adapters@[i as int]@);
        if i > 0 {
            push_text(&mut res, " / ");
        }
        push_adapter(&mut res, &app.adapters[i], app.station_path.as_str());
        i += 1;
        assert(res@ =~= adapters_text(head, app.station_path@));
    }
    assert(adapters.take(i as int) =~= adapters);
    res
}

fn wired_state(ethernet: &EthernetInfo) -> (res: String)
    ensures
        res@ == wired_text(ethernet@),
{
    let mut res = "ETHERNET (".to_owned();
    push_text(&mut res, ethernet.interface.as_str());
    push_text(&mut res, " ");
    if let Some(mbps) = ethernet.speed_mbps {
        push_text(&mut res, format_speed(mbps).as_str());
    }
    push_text(&mut res, ")");
    assert(res@ =~= wired_text(ethernet@));
    res
}

/// Draws the header.
pub fn render_header(area: Rect, app: &App, now: u64) -> (res: Draw)
    ensures
        res@ == (DrawView::Text {
            area,
            lines: seq![header_line(app@, area.width, now)],
            scroll: 0,
        }),
{
    let state = match &app.ethernet {
        Some(ethernet) => wired_state(ethernet),
        None => header_state(app, now),
    };
    let mut left = " iwd -- ".to_owned();
    push_text(&mut left, interface_name(app).as_str());
    push_text(&mut left, " -- ");
    push_text(&mut left, state.as_str());
    assert(left@ =~= header_left(app@, now));
    let right = "esc:quit ";
    let gap: usize = (area.width as usize).saturating_sub(byte_len(left.as_str())).saturating_sub(
        byte_len(right),
    );
    let mut spaces = String::new();
    push_repeated(&mut spaces, ' ', gap);
    assert(spaces@ =~= repeated(' ', gap as nat));
    let line = Line {
        spans: vec![raw_span(left), raw_span(spaces), raw_span(right.to_owned())],
        reversed: false,
    };
    assert(line@.spans =~= header_line(app@, area.width, now).spans);
    let lines = vec![line];
    assert(line_views(lines@) =~= seq![header_line(app@, area.width, now)]);
    Draw::Text { area, lines, scroll: 0 }
}

// ---------------------------------------------------------------------------------------------
// The list
// ---------------------------------------------------------------------------------------------

/// What the list says of a network besides its signal.
pub open spec fn status_text(network: NetworkView) -> Seq<char> {
    if network.connected {
        "CONNECTED"@
    } else if network.known_path is Some {
        "known"@
    } else {
        ""@
    }
}

/// A signal strength with its unit, in its color.
pub open spec fn dbm_span(text: Seq<char>, dbm: int) -> SpanView {
    SpanView { text: text + " dBm"@, color: Some(color_of(dbm)) }
}

/// The row of a network: the cursor, the name, the signal as a bar and as a number in its
/// color, the kind and the status. The row under the cursor is in reverse video.
pub open spec fn network_row(network: NetworkView, selected: bool) -> LineView {
    let dbm = network.signal_dbm as int;
    LineView {
        spans: seq![
            raw(
                (if selected {
                    ">"@
                } else {
                    " "@
                }) + "  "@ + padded_right(first_chars(network.name, 20), 20) + "  "@,
            ),
            raw(bar_text(dbm) + " "@),
            dbm_span(padded_left(integer(dbm), 4), dbm),
            raw("   "@ + padded_right(network.net_type, 4) + "  "@ + status_text(network)),
        ],
        reversed: selected,
    }
}

/// The rows of all networks.
pub open spec fn network_rows(app: AppView) -> Seq<LineView> {
    Seq::new(app.networks.len(), |i: int| network_row(app.networks[i], i == app.selected))
}

/// How many rows are left out above so that the row under the cursor is within `height` rows.
pub open spec fn rows_above(selected: nat, height: u16) -> nat {
    if selected >= height {
        (selected - height + 1) as nat
    } else {
        0
    }
}

/// The list in an area.
pub open spec fn list_drawing(area: Rect, app: AppView) -> DrawView {
    DrawView::Text {
        area,
        lines: network_rows(app),
        scroll: (rows_above(app.selected, area.height) % 0x1_0000) as u16,
    }
}

fn network_status(network: &Network) -> (res: &'static str)
    ensures
        res@ == status_text(network@),
{
    if network.connected {
        "CONNECTED"
    } else if network.is_known() {
        "known"
    } else {
        ""
    }
}

fn signal_span(prefix: String, dbm: i16) -> (res: Span)
    ensures
        res@ == dbm_span(prefix@, dbm as int),
{
    let mut text = prefix;
    push_text(&mut text, " dBm");
    Span { text, color: Some(dbm_color(dbm)) }
}

fn row_of(network: &Network, selected: bool) -> (res: Line)
    ensures
        res@ == network_row(network@, selected),
{
    let mut first = (if selected { ">" } else { " " }).to_owned();
    push_text(&mut first, "  ");
    push_padded_right(&mut first, take_chars(network.name.as_str(), MAX_SSID).as_str(), MAX_SSID);
    push_text(&mut first, "  ");
    let mut bar = signal_bar(network.signal_dbm);
    push_text(&mut bar, " ");
    let mut number = String::new();
    push_integer(&mut number, network.signal_dbm as i32);
    assert(number@ =~= integer(network.signal_dbm as int));
    let mut dbm = String::new();
    push_padded_left(&mut dbm, number.as_str(), 4);
    assert(dbm@ =~= padded_left(integer(network.signal_dbm as int), 4));
    let mut last = "   ".to_owned();
    push_padded_right(&mut last, network.net_type.as_str(), 4);
    push_text(&mut last, "  ");
    push_text(&mut last, network_status(network));
    let res = Line {
        spans: vec![
            raw_span(first),
            raw_span(bar),
            signal_span(dbm, network.signal_dbm),
            raw_span(last),
        ],
        reversed: selected,
    };
    assert(res@.spans =~= network_row(network@, selected).spans);
    res
}

/// Draws the list without a border.
pub fn render_list_content(area: Rect, app: &App) -> (res: Draw)
    ensures
        res@ == list_drawing(area, app@),
{
    let ghost rows = network_rows(app@);
    assert(app@.networks.len() == app.networks@.len());
    let mut lines: Vec<Line> = Vec::new();
    let mut i: usize = 0;
    assert(line_views(lines@) =~= rows.take(0));
    while i < app.networks.len()
        invariant
            i <= app.networks@.len(),
            app@.networks.len() == app.networks@.len(),
            rows == network_rows(app@),
            line_views(lines@) == rows.take(i as int),
        decreases app.networks@.len() - i,
    {
        assert(app@.networks[i as int] == app.networks@[i as int]@);
        push_line(&mut lines, row_of(&app.networks[i], i == app.selected));
        i += 1;
        assert(line_views(lines@) =~= rows.take(i as int));
    }
    assert(rows.take(i as int) =~= rows);
    let visible: usize = area.height as usize;
    let offset: usize = if app.selected >= visible {
        if visible == 0 && app.selected == usize::MAX {
            // One more than can be counted: it comes to the same row of a screen.
            0
        } else {
            app.selected - visible + 1
        }
    } else {
        0
    };
    proof {
        if visible == 0 && app.selected == usize::MAX {
            assert(usize::MAX as nat + 1 == 0x1_0000_0000 || usize::MAX as nat + 1
                == 0x1_0000_0000_0000_0000);
        }
    }
    Draw::Text { area, lines, scroll: (offset % 0x1_0000) as u16 }
}

/// Draws the list with a border round it.
pub fn render_list(area: Rect, app: &App) -> (res: Vec<Draw>)
    ensures
        draw_views(res@) == seq![
            DrawView::Border { area },
            list_drawing(within_border(area), app@),
        ],
{
    let res = vec![Draw::Border { area }, render_list_content(inside_border(area), app)];
    assert(draw_views(res@) =~= seq![
        DrawView::Border { area },
        list_drawing(within_border(area), app@),
    ]);
    res
}

/// The columns of the list line up: whatever a network is called, its bar begins at the same
/// place, and so does its number.
pub proof fn law_columns_line_up(network: NetworkView, selected: bool)
    ensures
        network_row(network, selected).spans.len() == 4,
        network_row(network, selected).spans[0].text.len() == 25,
        network_row(network, selected).spans[1].text.len() == 14,
        network_row(network, selected).spans[3].color is None,
{
    reveal_strlit(">");
    reveal_strlit(" ");
    reveal_strlit("  ");
    crate::format::law_bar_shape(network.signal_dbm);
}

/// The row under the cursor can be seen, wherever the cursor is in a list of fewer than 65536
/// networks, as long as the list has any height.
pub proof fn law_cursor_is_visible(area: Rect, app: AppView)
    requires
        app.selected < app.networks.len() < 0x1_0000,
        area.height > 0,
    ensures
        list_drawing(area, app) matches DrawView::Text { lines, scroll, .. } ==> {
            &&& lines.len() == app.networks.len()
            &&& scroll <= app.selected < scroll + area.height
            &&& lines[app.selected as int].reversed
            &&& forall|i: int|
                0 <= i < lines.len() && i != app.selected ==> !(#[trigger] lines[i]).reversed
        },
{
}

// ---------------------------------------------------------------------------------------------
// The details
// ---------------------------------------------------------------------------------------------

/// A label and what it labels.
pub open spec fn field(label: Seq<char>, value: Seq<char>) -> LineView {
    plain(" "@ + padded_right(label, 9) + value)
}

/// A label below a heading and what it labels.
pub open spec fn subfield(label: Seq<char>, value: Seq<char>) -> LineView {
    plain("   "@ + padded_right(label, 7) + value)
}

/// A signal strength with its label.
pub open spec fn rssi_line(dbm: int) -> LineView {
    LineView {
        spans: seq![raw(" "@ + padded_right("RSSI:"@, 9)), dbm_span(integer(dbm), dbm)],
        reversed: false,
    }
}

/// How much was received and sent.
pub open spec fn data_lines(rx_bytes: u64, tx_bytes: u64) -> Seq<LineView> {
    seq![
        plain(" Data"@),
        subfield("Down:"@, bytes_text(rx_bytes as nat)),
        subfield("Up:"@, bytes_text(tx_bytes as nat)),
    ]
}

/// An address, where there is one.
pub open spec fn ipv4_lines(ip: Option<Seq<char>>) -> Seq<LineView> {
    match ip {
        Some(ip) => seq![field("IPv4:"@, ip)],
        None => Seq::empty(),
    }
}

/// The speed of a wired connection, where it is known.
pub open spec fn wired_speed_lines(mbps: Option<u32>) -> Seq<LineView> {
    match mbps {
        Some(mbps) => seq![
            plain(" Speed"@),
            subfield("Down:"@, speed_text(mbps as nat)),
            subfield("Up:"@, speed_text(mbps as nat)),
        ],
        None => Seq::empty(),
    }
}

/// The details of a wired connection.
pub open spec fn wired_lines(ethernet: EthernetView) -> Seq<LineView> {
    seq![plain(" ETHERNET"@), field("Iface:"@, ethernet.interface)] + wired_speed_lines(
        ethernet.speed_mbps,
    ) + data_lines(ethernet.rx_bytes, ethernet.tx_bytes) + ipv4_lines(ethernet.ipv4_masked)
}

/// The channel of a connection and its band, where the frequency is known.
pub open spec fn channel_lines(mhz: Option<u32>) -> Seq<LineView> {
    match mhz {
        Some(mhz) => seq![
            field(
                "Channel:"@,
                channel_text(mhz as nat) + " ("@ + (if mhz >= 5000 {
                    "5 GHz"@
                } else {
                    "2.4 GHz"@
                }) + ")"@,
            ),
        ],
        None => Seq::empty(),
    }
}

/// A signal strength, where it is known.
pub open spec fn rssi_lines(dbm: Option<i16>) -> Seq<LineView> {
    match dbm {
        Some(dbm) => seq![rssi_line(dbm as int)],
        None => Seq::empty(),
    }
}

/// A bit rate in whole Mbit/s, where it is known. It is measured in kbit/s.
pub open spec fn rate_lines(label: Seq<char>, kbps: Option<u32>) -> Seq<LineView> {
    match kbps {
        Some(kbps) => seq![field(label, decimal(kbps as nat / 1000) + " Mbit/s"@)],
        None => Seq::empty(),
    }
}

/// The cipher of a connection, where it is known.
pub open spec fn cipher_lines(security: Option<Seq<char>>) -> Seq<LineView> {
    match security {
        Some(security) => seq![field("Cipher:"@, security)],
        None => Seq::empty(),
    }
}

/// What is measured of a connection.
pub open spec fn diagnostics_lines(diagnostics: Option<DiagnosticsView>) -> Seq<LineView> {
    match diagnostics {
        Some(d) => channel_lines(d.frequency) + rssi_lines(d.rssi) + rate_lines(
            "Tx:"@,
            d.tx_bitrate,
        ) + rate_lines("Rx:"@, d.rx_bitrate) + cipher_lines(d.security),
        None => Seq::empty(),
    }
}

/// How long a connection has lasted, where that is known.
pub open spec fn uptime_lines(since: Option<u64>, now: u64) -> Seq<LineView> {
    match since {
        Some(since) => seq![
            field("Uptime:"@, uptime_text(seconds_between(since as nat, now as nat))),
        ],
        None => Seq::empty(),
    }
}

/// Whether a network is connected to by itself, where that is known.
pub open spec fn autoconnect_lines(on: Option<bool>) -> Seq<LineView> {
    match on {
        Some(on) => seq![
            plain(
                " AutoConnect: "@ + (if on {
                    "ON"@
                } else {
                    "OFF"@
                }),
            ),
        ],
        None => Seq::empty(),
    }
}

/// The details of the network that is connected.
pub open spec fn connected_lines(app: AppView, network: NetworkView, now: u64) -> Seq<LineView> {
    seq![field("Status:"@, "CONNECTED"@), field("Type:"@, network.net_type)] + diagnostics_lines(
        app.diagnostics,
    ) + (if app.wifi_rx_bytes > 0 || app.wifi_tx_bytes > 0 {
        data_lines(app.wifi_rx_bytes, app.wifi_tx_bytes)
    } else {
        Seq::empty()
    }) + uptime_lines(app.connected_since, now) + autoconnect_lines(app.detail_autoconnect)
        + ipv4_lines(app.detail_ipv4)
}

/// The details of a network that is not connected.
pub open spec fn other_lines(app: AppView, network: NetworkView) -> Seq<LineView> {
    seq![
        field("Status:"@, status_text(network)),
        field("Type:"@, network.net_type),
        rssi_line(network.signal_dbm as int),
    ] + autoconnect_lines(app.detail_autoconnect)
}

/// The details of a network, with its name cut off to fit the width.
pub open spec fn network_lines(
    app: AppView,
    network: NetworkView,
    width: u16,
    now: u64,
) -> Seq<LineView> {
    seq![field("NETWORK:"@, first_chars(network.name, (width - 10) as nat))] + (
    if network.connected {
        connected_lines(app, network, now)
    } else {
        other_lines(app, network)
    })
}

/// Whether there is room for the details: those of a network need ten columns.
pub open spec fn detail_fits(area: Rect, app: AppView) -> bool {
    app.ethernet is None && network_at_cursor(app) is Some ==> area.width >= DETAIL_MARGIN
}

/// The details in an area: of the wired connection, if there is one; else of the network under
/// the cursor, if there is one.
pub open spec fn detail_drawing(area: Rect, app: AppView, now: u64) -> Seq<DrawView> {
    match app.ethernet {
        Some(ethernet) => seq![
            DrawView::Text { area, lines: wired_lines(ethernet), scroll: 0 },
        ],
        None => match network_at_cursor(app) {
            Some(network) => seq![
                DrawView::Text {
                    area,
                    lines: network_lines(app, network, area.width, now),
                    scroll: 0,
                },
            ],
            None => Seq::empty(),
        },
    }
}

fn field_line(label: &str, value: &str) -> (res: Line)
    ensures
        res@ == field(label@, value@),
{
    let mut text = " ".to_owned();
    push_padded_right(&mut text, label, 9);
    push_text(&mut text, value);
    text_line(text)
}

fn subfield_line(label: &str, value: &str) -> (res: Line)
    ensures
        res@ == subfield(label@, value@),
{
    let mut text = "   ".to_owned();
    push_padded_right(&mut text, label, 7);
    push_text(&mut text, value);
    text_line(text)
}

fn signal_line(dbm: i16) -> (res: Line)
    ensures
        res@ == rssi_line(dbm as int),
{
    let mut label = " ".to_owned();
    push_padded_right(&mut label, "RSSI:", 9);
    let mut number = String::new();
    push_integer(&mut number, dbm as i32);
    assert(number@ =~= integer(dbm as int));
    let res = Line { spans: vec![raw_span(label), signal_span(number, dbm)], reversed: false };
    assert(res@.spans =~= rssi_line(dbm as int).spans);
    res
}

fn push_data(lines: &mut Vec<Line>, rx_bytes: u64, tx_bytes: u64)
    ensures
        line_views(final(lines)@) == line_views(old(lines)@) + data_lines(rx_bytes, tx_bytes),
{
    let ghost before = line_views(lines@);
    push_line(lines, literal_line(" Data"));
    push_line(lines, subfield_line("Down:", format_bytes(rx_bytes).as_str()));
    push_line(lines, subfield_line("Up:", format_bytes(tx_bytes).as_str()));
    assert(line_views(lines@) =~= before + data_lines(rx_bytes, tx_bytes));
}

fn push_ipv4(lines: &mut Vec<Line>, ip: &Option<String>)
    ensures
        line_views(final(lines)@) == line_views(old(lines)@) + ipv4_lines(text_of(*ip)),
{
    let ghost before = line_views(lines@);
    if let Some(ip) = ip {
        push_line(lines, field_line("IPv4:", ip.as_str()));
    }
    assert(line_views(lines@) =~= before + ipv4_lines(text_of(*ip)));
}

fn push_wired_speed(lines: &mut Vec<Line>, mbps: Option<u32>)
    ensures
        line_views(final(lines)@) == line_views(old(lines)@) + wired_speed_lines(mbps),
{
    let ghost before = line_views(lines@);
    if let Some(mbps) = mbps {
        let speed = format_speed(mbps);
        push_line(lines, literal_line(" Speed"));
        push_line(lines, subfield_line("Down:", speed.as_str()));
        push_line(lines, subfield_line("Up:", speed.as_str()));
    }
    assert(line_views(lines@) =~= before + wired_speed_lines(mbps));
}

fn push_channel(lines: &mut Vec<Line>, mhz: Option<u32>)
    ensures
        line_views(final(lines)@) == line_views(old(lines)@) + channel_lines(mhz),
{
    let ghost before = line_views(lines@);
    if let Some(mhz) = mhz {
        let mut value = freq_to_channel(mhz);
        push_text(&mut value, " (");
        push_text(&mut value, if mhz >= 5000 { "5 GHz" } else { "2.4 GHz" });
        push_text(&mut value, ")");
        push_line(lines, field_line("Channel:", value.as_str()));
    }
    assert(line_views(lines@) =~= before + channel_lines(mhz));
}

fn push_rssi(lines: &mut Vec<Line>, dbm: Option<i16>)
    ensures
        line_views(final(lines)@) == line_views(old(lines)@) + rssi_lines(dbm),
{
    let ghost before = line_views(lines@);
    if let Some(dbm) = dbm {
        push_line(lines, signal_line(dbm));
    }
    assert(line_views(lines@) =~= before + rssi_lines(dbm));
}

fn push_rate(lines: &mut Vec<Line>, label: &str, kbps: Option<u32>)
    ensures
        line_views(final(lines)@) == line_views(old(lines)@) + rate_lines(label@, kbps),
{
    let ghost before = line_views(lines@);
    if let Some(kbps) = kbps {
        let mut value = String::new();
        push_decimal(&mut value, (kbps / 1000) as u64);
        push_text(&mut value, " Mbit/s");
        assert(value@ =~= decimal(kbps as nat / 1000) + " Mbit/s"@);
        push_line(lines, field_line(label, value.as_str()));
    }
    assert(line_views(lines@) =~= before + rate_lines(label@, kbps));
}

fn push_cipher(lines: &mut Vec<Line>, security: &Option<String>)
    ensures
        line_views(final(lines)@) == line_views(old(lines)@) + cipher_lines(text_of(*security)),
{
    let ghost before = line_views(lines@);
    if let Some(security) = security {
        push_line(lines, field_line("Cipher:", security.as_str()));
    }
    assert(line_views(lines@) =~= before + cipher_lines(text_of(*security)));
}

fn push_diagnostics(lines: &mut Vec<Line>, diagnostics: &Option<Diagnostics>)
    ensures
        line_views(final(lines)@) == line_views(old(lines)@) + diagnostics_lines(
            diagnostics_view(*diagnostics),
        ),
{
    let ghost before = line_views(lines@);
    if let Some(d) = diagnostics {
        push_channel(lines, d.frequency);
        push_rssi(lines, d.rssi);
        push_rate(lines, "Tx:", d.tx_bitrate);
        push_rate(lines, "Rx:", d.rx_bitrate);
        push_cipher(lines, &d.security);
    }
    assert(line_views(lines@) =~= before + diagnostics_lines(diagnostics_view(*diagnostics)));
}

fn push_uptime(lines: &mut Vec<Line>, since: Option<u64>, now: u64)
    ensures
        line_views(final(lines)@) == line_views(old(lines)@) + uptime_lines(since, now),
{
    let ghost before = line_views(lines@);
    if let Some(since) = since {
        push_line(lines, field_line("Uptime:", format_uptime(since, now).as_str()));
    }
    assert(line_views(lines@) =~= before + uptime_lines(since, now));
}

fn push_autoconnect(lines: &mut Vec<Line>, on: Option<bool>)
    ensures
        line_views(final(lines)@) == line_views(old(lines)@) + autoconnect_lines(on),
{
    let ghost before = line_views(lines@);
    if let Some(on) = on {
        let mut text = " AutoConnect: ".to_owned();
        push_text(&mut text, if on { "ON" } else { "OFF" });
        push_line(lines, text_line(text));
    }
    assert(line_views(lines@) =~= before + autoconnect_lines(on));
}

fn wired_details(ethernet: &EthernetInfo) -> (res: Vec<Line>)
    ensures
        line_views(res@) == wired_lines(ethernet@),
{
    let mut lines: Vec<Line> = Vec::new();
    push_line(&mut lines, literal_line(" ETHERNET"));
    push_line(&mut lines, field_line("Iface:", ethernet.interface.as_str()));
    assert(line_views(lines@) =~= seq![
        plain(" ETHERNET"@),
        field("Iface:"@, ethernet@.interface),
    ]);
    push_wired_speed(&mut lines, ethernet.speed_mbps);
    push_data(&mut lines, ethernet.rx_bytes, ethernet.tx_bytes);
    push_ipv4(&mut lines, &ethernet.ipv4_masked);
    lines
}

proof fn lemma_lines_joined(a: Seq<LineView>, b: Seq<LineView>, c: Seq<LineView>)
    ensures
        (a + b) + c == a + (b + c),
        a + Seq::<LineView>::empty() == a,
{
    assert((a + b) + c =~= a + (b + c));
    assert(a + Seq::<LineView>::empty() =~= a);
}

fn push_connected(lines: &mut Vec<Line>, app: &App, network: &Network, now: u64)
    ensures
        line_views(final(lines)@) == line_views(old(lines)@) + connected_lines(
            app@,
            network@,
            now,
        ),
{
    let ghost before = line_views(lines@);
    let ghost head = seq![field("Status:"@, "CONNECTED"@), field("Type:"@, network@.net_type)];
    push_line(lines, field_line("Status:", "CONNECTED"));
    push_line(lines, field_line("Type:", network.net_type.as_str()));
    assert(line_views(lines@) =~= before + head);
    push_diagnostics(lines, &app.diagnostics);
    let ghost measured = head + diagnostics_lines(app@.diagnostics);
    proof {
        lemma_lines_joined(before, head, diagnostics_lines(app@.diagnostics));
    }
    let ghost data = if app.wifi_rx_bytes > 0 || app.wifi_tx_bytes > 0 {
        data_lines(app.wifi_rx_bytes, app.wifi_tx_bytes)
    } else {
        Seq::empty()
    };
    if app.wifi_rx_bytes > 0 || app.wifi_tx_bytes > 0 {
        push_data(lines, app.wifi_rx_bytes, app.wifi_tx_bytes);
    }
    let ghost counted = measured + data;
    proof {
        lemma_lines_joined(before, measured, data);
    }
    push_uptime(lines, app.connected_since, now);
    let ghost timed = counted + uptime_lines(app.connected_since, now);
    proof {
        lemma_lines_joined(before, counted, uptime_lines(app.connected_since, now));
    }
    push_autoconnect(lines, app.detail_autoconnect);
    proof {
        lemma_lines_joined(before, timed, autoconnect_lines(app.detail_autoconnect));
    }
    push_ipv4(lines, &app.detail_ipv4);
    proof {
        lemma_lines_joined(
            before,
            timed + autoconnect_lines(app.detail_autoconnect),
            ipv4_lines(app@.detail_ipv4),
        );
    }
}

fn push_other(lines: &mut Vec<Line>, app: &App, network: &Network)
    ensures
        line_views(final(lines)@) == line_views(old(lines)@) + other_lines(app@, network@),
{
    let ghost before = line_views(lines@);
    push_line(lines, field_line("Status:", network_status(network)));
    push_line(lines, field_line("Type:", network.net_type.as_str()));
    push_line(lines, signal_line(network.signal_dbm));
    push_autoconnect(lines, app.detail_autoconnect);
    assert(line_views(lines@) =~= before + other_lines(app@, network@));
}

/// Draws the details of the wired connection or of the network under the cursor.
pub fn render_detail(area: Rect, app: &App, now: u64) -> (res: Vec<Draw>)
    requires
        detail_fits(area, app@),
    ensures
        draw_views(res@) == detail_drawing(area, app@, now),
{
    let mut res: Vec<Draw> = Vec::new();
    if let Some(ethernet) = &app.ethernet {
        push_draw(&mut res, Draw::Text { area, lines: wired_details(ethernet), scroll: 0 });
    } else if let Some(network) = app.selected_network() {
        let mut lines: Vec<Line> = Vec::new();
        let name = take_chars(network.name.as_str(), (area.width - DETAIL_MARGIN) as usize);
        push_line(&mut lines, field_line("NETWORK:", name.as_str()));
        if network.connected {
            push_connected(&mut lines, app, network, now);
        } else {
            push_other(&mut lines, app, network);
        }
        assert(line_views(lines@) =~= network_lines(app@, network@, area.width, now));
        push_draw(&mut res, Draw::Text { area, lines, scroll: 0 });
    }
    assert(draw_views(res@) =~= detail_drawing(area, app@, now));
    res
}

// ---------------------------------------------------------------------------------------------
// The boxes in front of the list
// ---------------------------------------------------------------------------------------------

/// A password as it is shown: as it is, or as an asterisk for each of its bytes, and the end of
/// that.
pub open spec fn password_text(input: Seq<char>, visible: bool) -> Seq<char> {
    last_chars(
        if visible {
            input
        } else {
            repeated('*', utf8_len(input))
        },
        28,
    )
}

/// What the box for a password says.
pub open spec fn password_lines(name: Seq<char>, input: Seq<char>, visible: bool) -> Seq<LineView> {
    seq![
        plain("  CONNECT: "@ + first_chars(name, 30)),
        plain(""@),
        plain("  Password: "@ + password_text(input, visible) + "_"@),
        plain("  [v] show password"@),
        plain(""@),
        plain("  enter:connect  esc:cancel"@),
    ]
}

/// What the box that asks whether to forget a network says.
pub open spec fn forget_lines(name: Seq<char>) -> Seq<LineView> {
    seq![
        plain("  FORGET: "@ + first_chars(name, 28) + "?"@),
        plain(""@),
        plain("  y:confirm  n:cancel"@),
    ]
}

/// How high a box is.
pub open spec fn overlay_height(overlay: OverlayView) -> u16 {
    match overlay {
        OverlayView::Password { .. } => PASSWORD_HEIGHT,
        OverlayView::ForgetConfirm { .. } => FORGET_HEIGHT,
    }
}

/// What a box says.
pub open spec fn overlay_lines(overlay: OverlayView) -> Seq<LineView> {
    match overlay {
        OverlayView::Password { input, visible, network_name, .. } => password_lines(
            network_name,
            input,
            visible,
        ),
        OverlayView::ForgetConfirm { network_name, .. } => forget_lines(network_name),
    }
}

/// Whether there is a middle for the box, if one is open.
pub open spec fn overlay_fits(area: Rect, app: AppView) -> bool {
    match app.overlay {
        Some(overlay) => has_middle(OVERLAY_WIDTH, overlay_height(overlay), area),
        None => true,
    }
}

/// The box that is open, if one is, in the middle of an area.
pub open spec fn overlay_drawing(area: Rect, app: AppView) -> Seq<DrawView> {
    match app.overlay {
        Some(overlay) => {
            let place = centered(OVERLAY_WIDTH, overlay_height(overlay), area);
            seq![
                DrawView::Clear { area: place },
                DrawView::Border { area: place },
                DrawView::Text {
                    area: within_border(place),
                    lines: overlay_lines(overlay),
                    scroll: 0,
                },
            ]
        },
        None => Seq::empty(),
    }
}

fn shown_password(input: &str, visible: bool) -> (res: String)
    ensures
        res@ == password_text(input@, visible),
{
    if visible {
        take_last_chars(input, 28)
    } else {
        let mut masked = String::new();
        push_repeated(&mut masked, '*', byte_len(input));
        assert(masked@ =~= repeated('*', utf8_len(input@)));
        take_last_chars(masked.as_str(), 28)
    }
}

fn password_box(name: &str, input: &str, visible: bool) -> (res: Vec<Line>)
    ensures
        line_views(res@) == password_lines(name@, input@, visible),
{
    let mut title = "  CONNECT: ".to_owned();
    push_text(&mut title, take_chars(name, 30).as_str());
    let mut password = "  Password: ".to_owned();
    push_text(&mut password, shown_password(input, visible).as_str());
    push_text(&mut password, "_");
    let res = vec![
        text_line(title),
        literal_line(""),
        text_line(password),
        literal_line("  [v] show password"),
        literal_line(""),
        literal_line("  enter:connect  esc:cancel"),
    ];
    assert(line_views(res@) =~= password_lines(name@, input@, visible));
    res
}

fn forget_box(name: &str) -> (res: Vec<Line>)
    ensures
        line_views(res@) == forget_lines(name@),
{
    let mut title = "  FORGET: ".to_owned();
    push_text(&mut title, take_chars(name, 28).as_str());
    push_text(&mut title, "?");
    let res = vec![text_line(title), literal_line(""), literal_line("  y:confirm  n:cancel")];
    assert(line_views(res@) =~= forget_lines(name@));
    res
}

/// Draws the box that is open, if one is.
pub fn render_overlay(area: Rect, app: &App) -> (res: Vec<Draw>)
    requires
        overlay_fits(area, app@),
    ensures
        draw_views(res@) == overlay_drawing(area, app@),
{
    let (height, lines) = match &app.overlay {
        Some(Overlay::Password { input, visible, network_name, .. }) => (
            PASSWORD_HEIGHT,
            password_box(network_name.as_str(), input.as_str(), *visible),
        ),
        Some(Overlay::ForgetConfirm { network_name, .. }) => (
            FORGET_HEIGHT,
            forget_box(network_name.as_str()),
        ),
        None => {
            let res: Vec<Draw> = Vec::new();
            assert(draw_views(res@) =~= overlay_drawing(area, app@));
            return res;
        },
    };
    let place = centered_rect(OVERLAY_WIDTH, height, area);
    let res = vec![
        Draw::Clear { area: place },
        Draw::Border { area: place },
        Draw::Text { area: inside_border(place), lines, scroll: 0 },
    ];
    assert(draw_views(res@) =~= overlay_drawing(area, app@));
    res
}

/// A hidden password shows nothing but its length: two of as many bytes look the same.
pub proof fn law_hidden_password(name: Seq<char>, a: Seq<char>, b: Seq<char>)
    requires
        utf8_len(a) == utf8_len(b),
    ensures
        password_lines(name, a, false) == password_lines(name, b, false),
        forall|i: int|
            0 <= i < password_text(a, false).len() ==> #[trigger] password_text(a, false)[i] == '*',
{
}

// ---------------------------------------------------------------------------------------------
// The whole screen
// ---------------------------------------------------------------------------------------------

/// What the last row says.
pub open spec fn footer_text() -> Seq<char> {
    " j/k:move  enter:connect  d:disconnect  f:forget  s:scan  a:autoconnect"@
}

/// The line between the list and the details, with a corner at each end.
pub open spec fn separator_drawing(body: Rect, column: Rect) -> Seq<DrawView> {
    seq![
        DrawView::Text {
            area: column,
            lines: Seq::new(column.height as nat, |i: int| plain("|"@)),
            scroll: 0,
        },
    ] + (if body.height > 0 && body.y + body.height <= u16::MAX {
        seq![
            DrawView::Text {
                area: Rect { y: body.y, height: 1, ..column },
                lines: seq![plain("+"@)],
                scroll: 0,
            },
            DrawView::Text {
                area: Rect { y: (body.y + body.height - 1) as u16, height: 1, ..column },
                lines: seq![plain("+"@)],
                scroll: 0,
            },
        ]
    } else {
        Seq::empty()
    })
}

/// The list and the details beside it.
pub open spec fn wide_drawing(body: Rect, columns: Seq<Rect>, app: AppView, now: u64) -> Seq<
    DrawView,
> {
    seq![DrawView::Border { area: body }, list_drawing(columns[0], app)] + separator_drawing(
        body,
        columns[1],
    ) + detail_drawing(columns[2], app, now)
}

/// The list alone.
pub open spec fn narrow_drawing(body: Rect, app: AppView) -> Seq<DrawView> {
    seq![DrawView::Border { area: body }, list_drawing(within_border(body), app)]
}

/// Whether there are details beside the list.
pub open spec fn is_wide(area: Rect) -> bool {
    area.width >= DETAIL_MIN_WIDTH
}

/// The screen with rows and columns as given: the header, the list and, on a wide screen, the
/// details; the box that is open; the last row. There is no picture where the details do not
/// fit their column.
pub open spec fn screen(
    area: Rect,
    rows: Seq<Rect>,
    columns: Seq<Rect>,
    app: AppView,
    now: u64,
) -> Option<Seq<DrawView>> {
    if is_wide(area) && !detail_fits(columns[2], app) {
        None
    } else {
        Some(
            seq![
                DrawView::Text {
                    area: rows[0],
                    lines: seq![header_line(app, rows[0].width, now)],
                    scroll: 0,
                },
            ] + (if is_wide(area) {
                wide_drawing(rows[1], columns, app, now)
            } else {
                narrow_drawing(rows[1], app)
            }) + overlay_drawing(area, app) + seq![
                DrawView::Text { area: rows[2], lines: seq![plain(footer_text())], scroll: 0 },
            ],
        )
    }
}

/// What an optional list of drawings stands for.
pub open spec fn picture_view(picture: Option<Vec<Draw>>) -> Option<Seq<DrawView>> {
    match picture {
        Some(draws) => Some(draw_views(draws@)),
        None => None,
    }
}

fn draw_separator(body: Rect, column: Rect) -> (res: Vec<Draw>)
    ensures
        draw_views(res@) == separator_drawing(body, column),
{
    let ghost bars = Seq::new(column.height as nat, |i: int| plain("|"@));
    let mut lines: Vec<Line> = Vec::new();
    let mut i: u16 = 0;
    assert(line_views(lines@) =~= bars.take(0));
    while i < column.height
        invariant
            i <= column.height,
            bars == Seq::new(column.height as nat, |i: int| plain("|"@)),
            line_views(lines@) == bars.take(i as int),
        decreases column.height - i,
    {
        push_line(&mut lines, literal_line("|"));
        i += 1;
        assert(line_views(lines@) =~= bars.take(i as int));
    }
    assert(bars.take(i as int) =~= bars);
    let mut res: Vec<Draw> = Vec::new();
    push_draw(&mut res, Draw::Text { area: column, lines, scroll: 0 });
    if body.height > 0 && body.y <= u16::MAX - body.height {
        let top = Rect { x: column.x, y: body.y, width: column.width, height: 1 };
        let bottom = Rect {
            x: column.x,
            y: body.y + (body.height - 1),
            width: column.width,
            height: 1,
        };
        let upper = vec![literal_line("+")];
        assert(line_views(upper@) =~= seq![plain("+"@)]);
        let lower = vec![literal_line("+")];
        assert(line_views(lower@) =~= seq![plain("+"@)]);
        push_draw(&mut res, Draw::Text { area: top, lines: upper, scroll: 0 });
        push_draw(&mut res, Draw::Text { area: bottom, lines: lower, scroll: 0 });
    }
    assert(draw_views(res@) =~= separator_drawing(body, column));
    res
}

fn draw_wide(body: Rect, columns: &Vec<Rect>, app: &App, now: u64) -> (res: Vec<Draw>)
    requires
        columns@.len() == 3,
        detail_fits(columns@[2], app@),
    ensures
        draw_views(res@) == wide_drawing(body, columns@, app@, now),
{
    let mut res: Vec<Draw> = Vec::new();
    push_draw(&mut res, Draw::Border { area: body });
    push_draw(&mut res, render_list_content(columns[0], app));
    assert(draw_views(res@) =~= seq![
        DrawView::Border { area: body },
        list_drawing(columns@[0], app@),
    ]);
    push_draws(&mut res, draw_separator(body, columns[1]));
    push_draws(&mut res, render_detail(columns[2], app, now));
    res
}

/// Whether the details fit an area.
pub fn has_room_for_detail(area: Rect, app: &App) -> (res: bool)
    ensures
        res == detail_fits(area, app@),
{
    app.ethernet.is_some() || app.selected_network().is_none() || area.width >= DETAIL_MARGIN
}

/// Draws the screen with rows and columns as given. Columns are for a wide screen only.
pub fn draw_screen(
    area: Rect,
    rows: &Vec<Rect>,
    columns: &Vec<Rect>,
    app: &App,
    now: u64,
) -> (res: Option<Vec<Draw>>)
    requires
        rows@.len() == 3,
        is_wide(area) ==> columns@.len() == 3,
        overlay_fits(area, app@),
    ensures
        picture_view(res) == screen(area, rows@, columns@, app@, now),
{
    let wide = area.width >= DETAIL_MIN_WIDTH;
    if wide && !has_room_for_detail(columns[2], app) {
        return None;
    }
    let mut draws: Vec<Draw> = Vec::new();
    push_draw(&mut draws, render_header(rows[0], app, now));
    assert(draw_views(draws@) =~= seq![
        DrawView::Text {
            area: rows@[0],
            lines: seq![header_line(app@, rows@[0].width, now)],
            scroll: 0,
        },
    ]);
    if wide {
        push_draws(&mut draws, draw_wide(rows[1], columns, app, now));
    } else {
        push_draws(&mut draws, render_list(rows[1], app));
    }
    push_draws(&mut draws, render_overlay(area, app));
    let footer = vec![
        literal_line(" j/k:move  enter:connect  d:disconnect  f:forget  s:scan  a:autoconnect"),
    ];
    assert(line_views(footer@) =~= seq![plain(footer_text())]);
    let ghost before = draw_views(draws@);
    push_draw(&mut draws, Draw::Text { area: rows[2], lines: footer, scroll: 0 });
    let ghost last = DrawView::Text { area: rows@[2], lines: seq![plain(footer_text())], scroll: 0 };
    assert(draw_views(draws@) =~= before + seq![last]);
    Some(draws)
}

/// Whether the rows of the screen have room: one for the header, three for the list with its
/// border, one at the end.
pub open spec fn screen_fits(area: Rect) -> bool {
    &&& area.x + area.width <= u16::MAX
    &&& area.y + area.height <= u16::MAX
    &&& area.height >= 5
}

/// The rows of the screen: the first one for the header, the last one for the keys, the list
/// between.
pub open spec fn screen_rows(area: Rect) -> Seq<Rect> {
    rows_of(area, 1, 1)
}

/// The columns within the border on a wide screen: the list, a line, the details.
pub open spec fn screen_columns(body: Rect) -> Seq<Rect> {
    columns_of(within_border(body), 1)
}

/// Draws the screen: the header on the first row, the keys on the last row, the list between,
/// and on a wide screen the details beside it. Where the area is too low for that, the rows lie
/// within it.
pub fn ui(area: Rect, app: &App, now: u64) -> (res: Option<Vec<Draw>>)
    requires
        overlay_fits(area, app@),
    ensures
        screen_fits(area) ==> picture_view(res) == screen(
            area,
            screen_rows(area),
            screen_columns(screen_rows(area)[1]),
            app@,
            now,
        ),
        exists|rows: Seq<Rect>, columns: Seq<Rect>|
            #![trigger screen(area, rows, columns, app@, now)]
            {
                &&& are_rows(rows, area)
                &&& rows_fit(area, 1, 3, 1) ==> rows == screen_rows(area)
                &&& is_wide(area) ==> are_columns(columns, within_border(rows[1]))
                &&& is_wide(area) && area.x + area.width <= u16::MAX ==> columns == screen_columns(
                    rows[1],
                )
                &&& picture_view(res) == screen(area, rows, columns, app@, now)
            },
        area.x + area.width <= u16::MAX ==> res is Some,
        !is_wide(area) ==> res is Some,
        app@.ethernet is Some || network_at_cursor(app@) is None ==> res is Some,
{
    let rows = split_rows(area, 1, 3, 1);
    let columns: Vec<Rect> = if area.width >= DETAIL_MIN_WIDTH {
        split_columns(inside_border(rows[1]), 1, 1, 1)
    } else {
        Vec::new()
    };
    let res = draw_screen(area, &rows, &columns, app, now);
    assert(picture_view(res) == screen(area, rows@, columns@, app@, now));
    res
}

/// Wherever the screen has room, the header is on its first row, the keys are on its last row,
/// and the list with its border is between. A wide screen draws, beside the list and within the
/// border, the line and the details of the network under the cursor, and a narrow one draws
/// neither. The box is drawn where one is open.
pub proof fn law_places_on_screen(area: Rect, app: AppView, now: u64)
    requires
        screen_fits(area),
    ensures
        ({
            let rows = screen_rows(area);
            let columns = screen_columns(rows[1]);
            let header = DrawView::Text {
                area: Rect { height: 1, ..area },
                lines: seq![header_line(app, area.width, now)],
                scroll: 0,
            };
            let keys = DrawView::Text {
                area: Rect { y: (area.y + area.height - 1) as u16, height: 1, ..area },
                lines: seq![plain(footer_text())],
                scroll: 0,
            };
            let border = DrawView::Border {
                area: Rect {
                    y: (area.y + 1) as u16,
                    height: (area.height - 2) as u16,
                    ..area
                },
            };
            &&& screen(area, rows, columns, app, now) == Some(
                if is_wide(area) {
                    seq![header, border, list_drawing(columns[0], app)] + separator_drawing(
                        rows[1],
                        columns[1],
                    ) + detail_drawing(columns[2], app, now) + overlay_drawing(area, app) + seq![
                        keys,
                    ]
                } else {
                    seq![header, border, list_drawing(within_border(rows[1]), app)]
                        + overlay_drawing(area, app) + seq![keys]
                },
            )
            &&& is_wide(area) ==> columns[1].width == 1 && columns[2].width >= 48
            &&& overlay_drawing(area, app).len() > 0 <==> app.overlay is Some
        }),
{
    let rows = screen_rows(area);
    let columns = screen_columns(rows[1]);
    let header = DrawView::Text {
        area: Rect { height: 1, ..area },
        lines: seq![header_line(app, area.width, now)],
        scroll: 0,
    };
    let border = DrawView::Border { area: rows[1] };
    let overlay = overlay_drawing(area, app);
    if is_wide(area) {
        let list = list_drawing(columns[0], app);
        let line = separator_drawing(rows[1], columns[1]);
        let detail = detail_drawing(columns[2], app, now);
        assert(seq![header] + (seq![border, list] + line + detail) =~= seq![header, border, list]
            + line + detail);
    } else {
        let list = list_drawing(within_border(rows[1]), app);
        assert(seq![header] + seq![border, list] =~= seq![header, border, list]);
    }
}

/// Nothing is drawn outside the screen.
pub proof fn law_drawn_on_screen(
    area: Rect,
    rows: Seq<Rect>,
    columns: Seq<Rect>,
    app: AppView,
    now: u64,
)
    requires
        area.x + area.width <= u16::MAX,
        area.y + area.height <= u16::MAX,
        are_rows(rows, area),
        is_wide(area) ==> are_columns(columns, within_border(rows[1])),
    ensures
        overlay_fits(area, app),
        screen(area, rows, columns, app, now) matches Some(draws) ==> forall|i: int|
            0 <= i < draws.len() ==> lies_in(draw_area(#[trigger] draws[i]), area),
{
    if let Some(overlay) = app.overlay {
        crate::layout::law_centered(OVERLAY_WIDTH, overlay_height(overlay), area);
        crate::layout::law_within_border(centered(OVERLAY_WIDTH, overlay_height(overlay), area));
    }
    crate::layout::law_within_border(rows[1]);
    if let Some(draws) = screen(area, rows, columns, app, now) {
        let header = seq![
            DrawView::Text {
                area: rows[0],
                lines: seq![header_line(app, rows[0].width, now)],
                scroll: 0,
            },
        ];
        let body = if is_wide(area) {
            wide_drawing(rows[1], columns, app, now)
        } else {
            narrow_drawing(rows[1], app)
        };
        let overlay = overlay_drawing(area, app);
        assert forall|i: int| 0 <= i < body.len() implies lies_in(
            draw_area(#[trigger] body[i]),
            area,
        ) by {
            if is_wide(area) {
                let pair = seq![DrawView::Border { area: rows[1] }, list_drawing(columns[0], app)];
                let separator = separator_drawing(rows[1], columns[1]);
                let detail = detail_drawing(columns[2], app, now);
                if i < 2 {
                    assert(body[i] == pair[i]);
                } else if i < 2 + separator.len() {
                    assert(body[i] == separator[i - 2]);
                } else {
                    assert(body[i] == detail[i - 2 - separator.len()]);
                }
            }
        }
        assert forall|i: int| 0 <= i < draws.len() implies lies_in(
            draw_area(#[trigger] draws[i]),
            area,
        ) by {
            if i < 1 {
                assert(draws[i] == header[i]);
            } else if i < 1 + body.len() {
                assert(draws[i] == body[i - 1]);
            } else if i < 1 + body.len() + overlay.len() {
                assert(draws[i] == overlay[i - 1 - body.len()]);
            } else {
                assert(draw_area(draws[i]) == rows[2]);
            }
        }
    }
}

/// A narrow screen shows no details: what is known of the connection and of the wired data
/// does not change it.
pub proof fn law_narrow_screen_has_no_details(
    area: Rect,
    rows: Seq<Rect>,
    columns: Seq<Rect>,
    app: AppView,
    other: AppView,
    now: u64,
)
    requires
        area.width < 100,
        other == (AppView {
            diagnostics: other.diagnostics,
            connected_since: other.connected_since,
            detail_autoconnect: other.detail_autoconnect,
            detail_ipv4: other.detail_ipv4,
            wifi_rx_bytes: other.wifi_rx_bytes,
            wifi_tx_bytes: other.wifi_tx_bytes,
            ..app
        }),
    ensures
        screen(area, rows, columns, app, now) == screen(area, rows, columns, other, now),
        screen(area, rows, columns, app, now) is Some,
{
    assert(network_rows(app) =~= network_rows(other));
}

} // verus!
