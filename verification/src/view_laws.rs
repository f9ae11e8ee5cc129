//! What holds of the values that contracts speak of: each stands for what it holds, part by
//! part.

use vstd::prelude::*;

use crate::agent::{AgentCall, AgentSession, ConnectAttempt};
use crate::app::{Adapter, App, Diagnostics, EthernetInfo, Overlay, OverlayView};
use crate::bus::{MethodCall, PropertyRead};
use crate::ethernet::InterfaceFacts;
use crate::keys::{ActionResult, ActionResultView, Command, CommandView};
use crate::network::{text_of, Network, NetworkReading};
use crate::refresh::{DetailPlan, Stations};
use crate::station::{ManagedObject, NetworkWait};
use crate::ui::{Draw, DrawView, Line, Span};

verus! {

/// A text that may be missing stands for the text where it is there, and for none where it is
/// not.
pub proof fn law_text_that_may_be_missing(s: Option<String>)
    ensures
        s is None <==> text_of(s) is None,
        s matches Some(text) ==> text_of(s) == Some(text@),
{
}

/// A network stands for its own path, name, kind, signal, connection and stored network.
pub proof fn law_network_stands_for_its_parts(n: Network, r: NetworkReading)
    ensures
        n@.path == n.path@,
        n@.name == n.name@,
        n@.net_type == n.net_type@,
        n@.signal_dbm == n.signal_dbm,
        n@.connected == n.connected,
        n@.known_path == text_of(n.known_path),
        r@.path == r.path@,
        r@.name == r.name@,
        r@.net_type == r.net_type@,
        r@.signal == r.signal,
        r@.connected == r.connected,
        r@.known_path == text_of(r.known_path),
{
}

/// The state of the program stands for what it holds: the networks and the adapters one by one
/// and in order, the cursor where it is, and all the rest as it is.
pub proof fn law_app_stands_for_its_parts(app: App, i: int)
    ensures
        app@.networks.len() == app.networks@.len(),
        0 <= i < app.networks@.len() ==> app@.networks[i] == app.networks@[i]@,
        app@.selected == app.selected,
        app@.adapters.len() == app.adapters@.len(),
        0 <= i < app.adapters@.len() ==> app@.adapters[i] == app.adapters@[i]@,
        app@.station_path == app.station_path@,
        app@.interface_name == app.interface_name@,
        app@.state == app.state@,
        app@.pending_connect_path == text_of(app.pending_connect_path),
        app@.scanning == app.scanning,
        app@.scan_started_at == app.scan_started_at,
        app.overlay is None <==> app@.overlay is None,
        app.overlay matches Some(overlay) ==> app@.overlay == Some(overlay@),
        app@.header_error == text_of(app.header_error),
        app@.header_error_at == app.header_error_at,
        app@.should_quit == app.should_quit,
        app.diagnostics is None <==> app@.diagnostics is None,
        app.diagnostics matches Some(diagnostics) ==> app@.diagnostics == Some(diagnostics@),
        app@.connected_since == app.connected_since,
        app@.detail_autoconnect == app.detail_autoconnect,
        app@.detail_ipv4 == text_of(app.detail_ipv4),
        app.ethernet is None <==> app@.ethernet is None,
        app.ethernet matches Some(ethernet) ==> app@.ethernet == Some(ethernet@),
        app@.wifi_rx_bytes == app.wifi_rx_bytes,
        app@.wifi_tx_bytes == app.wifi_tx_bytes,
{
}

/// An adapter, the measurements of a connection and a wired connection stand for their own
/// parts.
pub proof fn law_details_stand_for_their_parts(a: Adapter, d: Diagnostics, e: EthernetInfo)
    ensures
        a@.path == a.path@,
        a@.name == a.name@,
        d@.rssi == d.rssi,
        d@.frequency == d.frequency,
        d@.tx_bitrate == d.tx_bitrate,
        d@.rx_bitrate == d.rx_bitrate,
        d@.security == text_of(d.security),
        e@.interface == e.interface@,
        e@.speed_mbps == e.speed_mbps,
        e@.rx_bytes == e.rx_bytes,
        e@.tx_bytes == e.tx_bytes,
        e@.ipv4_masked == text_of(e.ipv4_masked),
{
}

/// A box stands for what it holds.
pub proof fn law_box_stands_for_its_parts(
    input: String,
    visible: bool,
    path: String,
    network_name: String,
)
    ensures
        (Overlay::Password { input, visible, network_path: path, network_name })@ == (
        OverlayView::Password {
            input: input@,
            visible,
            network_path: path@,
            network_name: network_name@,
        }),
        (Overlay::ForgetConfirm { known_path: path, network_name })@ == (
        OverlayView::ForgetConfirm { known_path: path@, network_name: network_name@ }),
{
}

/// What was read stands for its own parts: an interface, the objects that iwd manages, and the
/// stations that were found.
pub proof fn law_readings_stand_for_their_parts(
    f: InterfaceFacts,
    o: ManagedObject,
    s: Stations,
    i: int,
)
    ensures
        f@.name == f.name@,
        f@.kind == text_of(f.kind),
        f@.wireless == f.wireless,
        f@.carrier == text_of(f.carrier),
        f@.speed == text_of(f.speed),
        f@.rx_bytes == text_of(f.rx_bytes),
        f@.tx_bytes == text_of(f.tx_bytes),
        o@.path == o.path@,
        o@.interfaces.len() == o.interfaces@.len(),
        0 <= i < o.interfaces@.len() ==> o@.interfaces[i] == o.interfaces@[i]@,
        s@.path == s.path@,
        s@.name == s.name@,
        s@.adapters.len() == s.adapters@.len(),
        0 <= i < s.adapters@.len() ==> s@.adapters[i] == s.adapters@[i]@,
{
}

/// A command stands for itself, with the object that it is about.
pub proof fn law_command_stands_for_its_parts(path: String, password: String)
    ensures
        (Command::Scan { station_path: path })@ == (CommandView::Scan { station_path: path@ }),
        (Command::Connect { network_path: path })@ == (CommandView::Connect {
            network_path: path@,
        }),
        (Command::AgentConnect { network_path: path, password })@ == (CommandView::AgentConnect {
            network_path: path@,
            password: password@,
        }),
        (Command::Disconnect { station_path: path })@ == (CommandView::Disconnect {
            station_path: path@,
        }),
        (Command::Forget { known_path: path })@ == (CommandView::Forget { known_path: path@ }),
        (Command::ToggleAutoConnect { known_path: path })@ == (CommandView::ToggleAutoConnect {
            known_path: path@,
        }),
        (Command::Refresh)@ == CommandView::Refresh,
{
}

/// An answer stands for itself, with its error where it has one.
pub proof fn law_answer_stands_for_its_parts(path: String, error: String)
    ensures
        ActionResult::Scan(Err(error))@ == ActionResultView::Scan(Err(error@)),
        ActionResult::Disconnect(Err(error))@ == ActionResultView::Disconnect(Err(error@)),
        ActionResult::Forget(Err(error))@ == ActionResultView::Forget(Err(error@)),
        ActionResult::AutoConnect(Err(error))@ == ActionResultView::AutoConnect(Err(error@)),
        (ActionResult::Connect { path, result: Err(error) })@ == (ActionResultView::Connect {
            path: path@,
            result: Err(error@),
        }),
        ActionResult::Scan(Ok(()))@ == ActionResultView::Scan(Ok(())),
        ActionResult::Disconnect(Ok(()))@ == ActionResultView::Disconnect(Ok(())),
        ActionResult::Forget(Ok(()))@ == ActionResultView::Forget(Ok(())),
        ActionResult::AutoConnect(Ok(()))@ == ActionResultView::AutoConnect(Ok(())),
        (ActionResult::Connect { path, result: Ok(()) })@ == (ActionResultView::Connect {
            path: path@,
            result: Ok(()),
        }),
{
}

/// A call and a read stand for their own parts, and so does what is to be read for the details.
pub proof fn law_call_stands_for_its_parts(
    c: MethodCall,
    a: AgentCall,
    r: PropertyRead,
    p: DetailPlan,
)
    ensures
        c@.path == c.path@,
        c@.interface == c.interface@,
        c@.method == c.method@,
        a@.call == a.call@,
        a@.argument == text_of(a.argument),
        r@.path == r.path@,
        r@.interface == r.interface@,
        r@.property == r.property@,
        p@.connection == p.connection,
        p@.autoconnect_path == text_of(p.autoconnect_path),
        p@.address == p.address,
{
}

/// A session, an attempt and a wait stand for their own parts.
pub proof fn law_session_stands_for_its_parts(s: AgentSession, a: ConnectAttempt, w: NetworkWait)
    ensures
        s@.network_path == s.network_path@,
        s@.password == s.password@,
        s@.station_path == s.station_path@,
        s@.phase == s.phase@,
        s@.seen_connecting == s.seen_connecting,
        s@.started_at == s.started_at,
        a@.network_path == a.network_path@,
        a@.password == a.password@,
        a@.retried == a.retried,
        w@.suffix == w.suffix@,
        w@.since == w.since,
        w@.scanned == w.scanned,
        w@.found == text_of(w.found),
{
}

/// What is drawn stands for its own parts: pieces and lines one by one and in order.
pub proof fn law_drawing_stands_for_its_parts(
    span: Span,
    line: Line,
    draw: Draw,
    i: int,
)
    ensures
        span@.text == span.text@,
        span@.color == span.color,
        line@.reversed == line.reversed,
        line@.spans.len() == line.spans@.len(),
        0 <= i < line.spans@.len() ==> line@.spans[i] == line.spans@[i]@,
        draw matches Draw::Clear { area } ==> draw@ == (DrawView::Clear { area }),
        draw matches Draw::Border { area } ==> draw@ == (DrawView::Border { area }),
        draw matches Draw::Text { area, lines, scroll } ==> (draw@ matches DrawView::Text {
            area: place,
            lines: views,
            scroll: rows,
        } && {
            &&& place == area && rows == scroll
            &&& views.len() == lines@.len()
            &&& 0 <= i < lines@.len() ==> views[i] == lines@[i]@
        }),
{
}

} // verus!
