//! What holds of what was read: the networks, the state of the station and the details.

use vstd::prelude::*;

use crate::app::{cursor_in_list, network_at_cursor, started, AdapterView, AppView, DiagnosticsView};
use crate::ethernet::{file_count, ip_address};
use crate::network::{
    in_order, law_ranked, network_read, networks_read, ranked, text_of, NetworkReadingView,
    NetworkView,
};
use crate::refresh::{
    known_at_cursor, network_paths, on_station, plan_for, reconciled, runtime_step, with_details,
    with_networks, with_scanning, with_state, DetailReadings, RuntimeActionView, RuntimeEventView,
    StationsView,
};
use crate::text::{in_uppercase, lemma_at_index_of};

verus! {

// ---------------------------------------------------------------------------------------------
// Networks
// ---------------------------------------------------------------------------------------------

/// Whether a network is what a reading says: its object, its name, its kind and whether it is
/// connected as they stand there, its signal in whole dBm, and its stored network where one is
/// named.
pub open spec fn describes(r: NetworkReadingView, n: NetworkView) -> bool {
    &&& n.path == r.path
    &&& n.name == r.name
    &&& n.net_type == r.net_type
    &&& n.connected == r.connected
    &&& r.signal <= 0 ==> r.signal <= 100 * n.signal_dbm < r.signal + 100 && n.signal_dbm <= 0
    &&& r.signal >= 0 ==> r.signal - 100 < 100 * n.signal_dbm <= r.signal && n.signal_dbm >= 0
    &&& n.known_path == r.known_path || n.known_path is None
    &&& n.known_path is Some <==> r.known_path is Some && r.known_path->0.len() > 0
}

/// Each network carries what its own reading says: the path, the name, the kind and whether it
/// is connected are the reading's, and the signal is the reading's in whole dBm.
pub proof fn law_network_is_as_read(r: NetworkReadingView)
    ensures
        network_read(r).path == r.path,
        network_read(r).name == r.name,
        network_read(r).net_type == r.net_type,
        network_read(r).connected == r.connected,
        network_read(r).known_path is Some ==> network_read(r).known_path == r.known_path,
        network_read(r).known_path is Some <==> r.known_path is Some && r.known_path->0.len() > 0,
        r.signal <= 0 ==> r.signal <= 100 * network_read(r).signal_dbm < r.signal + 100,
        r.signal >= 0 ==> r.signal - 100 < 100 * network_read(r).signal_dbm <= r.signal,
        describes(r, network_read(r)),
{
}

/// The list shows every network that was read and no other: each listed one is as one of the
/// readings says, each reading is listed, and there are as many of one as of the other.
pub proof fn law_list_shows_what_was_read(rs: Seq<NetworkReadingView>)
    ensures
        ranked(networks_read(rs)).len() == rs.len(),
        forall|i: int|
            0 <= i < rs.len() ==> exists|k: int|
                0 <= k < rs.len() && describes(
                    #[trigger] rs[k],
                    #[trigger] ranked(networks_read(rs))[i],
                ),
        forall|k: int|
            0 <= k < rs.len() ==> exists|i: int|
                0 <= i < rs.len() && describes(
                    #[trigger] rs[k],
                    #[trigger] ranked(networks_read(rs))[i],
                ),
{
    broadcast use vstd::seq_lib::group_to_multiset_ensures;

    let all = networks_read(rs);
    let list = ranked(all);
    if rs.len() > 0 {
        law_ranked(all, all[0]);
    } else {
        assert(list.len() == 0);
    }
    assert forall|i: int| 0 <= i < rs.len() implies exists|k: int|
        0 <= k < rs.len() && describes(#[trigger] rs[k], #[trigger] list[i]) by {
        assert(list.contains(list[i]));
        assert(list.to_multiset().count(list[i]) > 0);
        assert(all.to_multiset().count(list[i]) > 0);
        assert(all.contains(list[i]));
        let k = choose|k: int| 0 <= k < all.len() && all[k] == list[i];
        law_network_is_as_read(rs[k]);
        assert(describes(rs[k], list[i]));
    }
    assert forall|k: int| 0 <= k < rs.len() implies exists|i: int|
        0 <= i < rs.len() && describes(#[trigger] rs[k], #[trigger] list[i]) by {
        assert(all.contains(all[k]));
        assert(all.to_multiset().count(all[k]) > 0);
        assert(list.to_multiset().count(all[k]) > 0);
        assert(list.contains(all[k]));
        let i = choose|i: int| 0 <= i < list.len() && list[i] == all[k];
        law_network_is_as_read(rs[k]);
        assert(describes(rs[k], list[i]));
    }
}

/// Of two listed networks the one in front is the connected one, or the known one where neither
/// is connected, or the one with the stronger signal where that makes no difference.
pub proof fn law_list_order(list: Seq<NetworkView>, i: int, j: int)
    requires
        0 <= i < j < list.len(),
    ensures
        ({
            let a = ranked(list)[i];
            let b = ranked(list)[j];
            &&& b.connected ==> a.connected
            &&& !a.connected && b.known_path is Some ==> a.known_path is Some
            &&& a.connected && b.connected ==> a.signal_dbm >= b.signal_dbm
            &&& !a.connected && !b.connected && (a.known_path is Some) == (b.known_path is Some)
                ==> a.signal_dbm >= b.signal_dbm
        }),
{
    law_ranked(list, list[0]);
    assert(in_order(ranked(list)));
    assert(!crate::network::goes_before(ranked(list)[j], ranked(list)[i]));
}

/// New networks replace the list and leave the rest alone, but for the cursor and a connection
/// that is no longer being made. The cursor stays on its network where that is still listed;
/// else it stays at its position, or goes to the last one.
pub proof fn law_new_networks(app: AppView, networks: Seq<NetworkView>)
    ensures
        ({
            let after = with_networks(app, networks);
            let list = ranked(networks);
            &&& after == (AppView {
                networks: list,
                selected: after.selected,
                pending_connect_path: after.pending_connect_path,
                ..app
            })
            &&& app.pending_connect_path is None ==> after.pending_connect_path is None
            &&& app.pending_connect_path matches Some(path) ==> {
                let arrived = exists|i: int|
                    0 <= i < list.len() && (#[trigger] list[i]).path == path && list[i].connected;
                after.pending_connect_path == if app.state == "CONNECTING"@ && !arrived {
                    Some(path)
                } else {
                    None
                }
            }
            &&& list.len() == 0 ==> after.selected == 0
            &&& list.len() > 0 ==> after.selected < list.len()
            &&& app.selected < app.networks.len() && (exists|i: int|
                0 <= i < list.len() && (#[trigger] list[i]).path
                    == app.networks[app.selected as int].path) ==> list[after.selected as int].path
                == app.networks[app.selected as int].path && forall|i: int|
                0 <= i < after.selected ==> (#[trigger] list[i]).path
                    != app.networks[app.selected as int].path
            &&& list.len() > 0 && (app.selected >= app.networks.len() || forall|i: int|
                0 <= i < list.len() ==> (#[trigger] list[i]).path
                    != app.networks[app.selected as int].path) ==> after.selected == if app.selected
                < list.len() {
                app.selected
            } else {
                (list.len() - 1) as nat
            }
        }),
{
    let list = ranked(networks);
    let paths = network_paths(list);
    if app.selected < app.networks.len() {
        let wanted = app.networks[app.selected as int].path;
        lemma_at_index_of(paths, wanted);
        assert(paths.len() == list.len());
        let at = crate::text::index_of(paths, wanted);
        if exists|i: int| 0 <= i < list.len() && (#[trigger] list[i]).path == wanted {
            let i = choose|i: int| 0 <= i < list.len() && (#[trigger] list[i]).path == wanted;
            assert(paths[i] == wanted);
            assert(paths.contains(wanted));
            assert(list[at as int].path == paths[at as int]);
            assert forall|j: int| 0 <= j < at implies (#[trigger] list[j]).path != wanted by {
                assert(paths[j] != wanted);
            }
        }
        if forall|i: int| 0 <= i < list.len() ==> (#[trigger] list[i]).path != wanted {
            if at < list.len() {
                assert(list[at as int].path == paths[at as int]);
            }
        }
    }
}

/// A connection is being made until its network is connected or the station has stopped
/// connecting; nothing else ends it or begins one, and nothing else changes.
pub proof fn law_connection_being_made(app: AppView)
    ensures
        ({
            let after = reconciled(app);
            &&& after == (AppView { pending_connect_path: after.pending_connect_path, ..app })
            &&& app.pending_connect_path is None ==> after.pending_connect_path is None
            &&& app.pending_connect_path matches Some(path) ==> {
                let arrived = exists|i: int|
                    0 <= i < app.networks.len() && (#[trigger] app.networks[i]).path == path
                        && app.networks[i].connected;
                after.pending_connect_path == if app.state == "CONNECTING"@ && !arrived {
                    Some(path)
                } else {
                    None
                }
            }
        }),
{
}

// ---------------------------------------------------------------------------------------------
// The state of the station
// ---------------------------------------------------------------------------------------------

/// The program starts on its station, in the state that is named for it, with nothing else
/// known.
pub proof fn law_start(
    adapters: Seq<AdapterView>,
    station_path: Seq<char>,
    interface_name: Seq<char>,
    named: Seq<char>,
)
    ensures
        ({
            let app = started(adapters, station_path, interface_name, named);
            &&& app.adapters == adapters
            &&& app.station_path == station_path
            &&& app.interface_name == interface_name
            &&& app.state == in_uppercase(named)
            &&& app.networks.len() == 0 && app.selected == 0
            &&& app.pending_connect_path is None && app.overlay is None
            &&& app.header_error is None
            &&& !app.scanning && app.scan_started_at is None
            &&& !app.should_quit
            &&& app.diagnostics is None && app.connected_since is None
            &&& app.detail_autoconnect is None && app.detail_ipv4 is None
            &&& app.ethernet is None
            &&& app.wifi_rx_bytes == 0 && app.wifi_tx_bytes == 0
        }),
{
}

/// The network under the cursor is the one at its position.
pub proof fn law_under_the_cursor(app: AppView)
    ensures
        app.selected < app.networks.len() ==> network_at_cursor(app) == Some(
            app.networks[app.selected as int],
        ),
        app.selected >= app.networks.len() ==> network_at_cursor(app) is None,
        cursor_in_list(app) <==> app.selected < app.networks.len() || (app.networks.len() == 0
            && app.selected == 0),
        known_at_cursor(app) == if app.selected < app.networks.len() {
            app.networks[app.selected as int].known_path
        } else {
            None
        },
{
}

/// The state that iwd names is shown in upper case. The time of a connection begins when the
/// state becomes connected, goes on while it stays so, and ends with it. Nothing else changes.
pub proof fn law_state_is_taken_in(app: AppView, named: Seq<char>, now: u64)
    ensures
        ({
            let after = with_state(app, named, now);
            &&& after == (AppView {
                state: in_uppercase(named),
                connected_since: after.connected_since,
                ..app
            })
            &&& after.connected_since == if in_uppercase(named) != "CONNECTED"@ {
                None
            } else if app.state == "CONNECTED"@ {
                app.connected_since
            } else {
                Some(now)
            }
        }),
        named == "connected"@ && app.state != "CONNECTED"@ ==> with_state(
            app,
            named,
            now,
        ).connected_since == Some(now) && with_state(app, named, now).state == "CONNECTED"@,
        named == "disconnected"@ ==> with_state(app, named, now).connected_since is None
            && with_state(app, named, now).state == "DISCONNECTED"@,
{
    crate::text_laws::lemma_state_names();
    reveal_strlit("CONNECTED");
    reveal_strlit("DISCONNECTED");
    assert("CONNECTED"@.len() != "DISCONNECTED"@.len());
}

/// A scan begins when the station is first seen scanning and ends when it is not. Nothing else
/// changes.
pub proof fn law_scan_is_taken_in(app: AppView, scanning: bool, now: u64)
    ensures
        with_scanning(app, scanning, now) == (AppView {
            scanning,
            scan_started_at: with_scanning(app, scanning, now).scan_started_at,
            ..app
        }),
        scanning && !app.scanning ==> with_scanning(app, scanning, now).scan_started_at == Some(
            now,
        ),
        !scanning && app.scanning ==> with_scanning(app, scanning, now).scan_started_at is None,
        scanning == app.scanning ==> with_scanning(app, scanning, now).scan_started_at
            == app.scan_started_at,
{
}

/// A station that was found is the one in use from then on, under its own name, among the
/// adapters that were found with it. Nothing else changes.
pub proof fn law_station_is_taken_in(app: AppView, found: StationsView)
    ensures
        on_station(app, found) == (AppView {
            adapters: found.adapters,
            station_path: found.path,
            interface_name: found.name,
            ..app
        }),
{
}

/// Reading the state goes from the state to the scan and, once a scan has ended, to the
/// networks. A state that cannot be read has the station looked for anew, but only once. Any
/// other failure ends the reading with it, and leaves everything as it was.
pub proof fn law_reading_goes_on(app: AppView, event: RuntimeEventView, now: u64)
    ensures
        ({
            let (after, action) = runtime_step(app, event, now);
            &&& event is Start ==> after == app && action == (RuntimeActionView::ReadState {
                again: false,
            })
            &&& event matches RuntimeEventView::State { again, reading: Ok(named) } ==> after
                == with_state(app, named, now) && action == RuntimeActionView::ReadScanning
            &&& event matches RuntimeEventView::State { again: false, reading: Err(e) } ==> after
                == app && action == RuntimeActionView::FindStation
            &&& event matches RuntimeEventView::State { again: true, reading: Err(e) } ==> after
                == app && action == RuntimeActionView::Done(Err(e))
            &&& event matches RuntimeEventView::Found(Ok(found)) ==> after == on_station(app, found)
                && action == (RuntimeActionView::ReadState { again: true })
            &&& event matches RuntimeEventView::Found(Err(e)) ==> after == app && action
                == RuntimeActionView::Done(Err(e))
            &&& event matches RuntimeEventView::Scanning(Ok(scanning)) ==> if app.scanning
                && !scanning {
                after == with_scanning(app, scanning, now) && action
                    == RuntimeActionView::ListNetworks
            } else {
                after == reconciled(with_scanning(app, scanning, now)) && action
                    == RuntimeActionView::Done(Ok(()))
            }
            &&& event matches RuntimeEventView::Scanning(Err(e)) ==> after == app && action
                == RuntimeActionView::Done(Err(e))
            &&& event matches RuntimeEventView::Networks(Ok(readings)) ==> after == with_networks(
                app,
                networks_read(readings),
            ) && action == RuntimeActionView::Done(Ok(()))
            &&& event matches RuntimeEventView::Networks(Err(e)) ==> after == app && action
                == RuntimeActionView::Done(Err(e))
        }),
{
}

// ---------------------------------------------------------------------------------------------
// Details
// ---------------------------------------------------------------------------------------------

/// What belongs to a connection is read while the station is connected, its address until that
/// is known, and automatic connection for the network under the cursor where it is stored.
pub proof fn law_what_is_read_for_the_details(app: AppView)
    ensures
        plan_for(app).connection <==> app.state == "CONNECTED"@,
        plan_for(app).address <==> app.state == "CONNECTED"@ && app.detail_ipv4 is None,
        app.selected < app.networks.len() ==> plan_for(app).autoconnect_path
            == app.networks[app.selected as int].known_path,
        app.selected >= app.networks.len() ==> plan_for(app).autoconnect_path is None,
{
}

/// While the station is connected the details are those that were read: each measurement in
/// its own place, the counts of the files, and the address once it is known. Automatic
/// connection is that of the known network under the cursor, connected or not. Nothing else
/// changes.
pub proof fn law_details_are_as_read(app: AppView, readings: DetailReadings)
    ensures
        ({
            let after = with_details(app, readings);
            &&& after == (AppView {
                diagnostics: after.diagnostics,
                wifi_rx_bytes: after.wifi_rx_bytes,
                wifi_tx_bytes: after.wifi_tx_bytes,
                detail_autoconnect: after.detail_autoconnect,
                detail_ipv4: after.detail_ipv4,
                ..app
            })
            &&& app.selected < app.networks.len() && app.networks[app.selected as int].known_path
                is Some ==> after.detail_autoconnect == readings.autoconnect
            &&& app.selected >= app.networks.len() || app.networks[app.selected as int].known_path
                is None ==> after.detail_autoconnect is None
            &&& app.state != "CONNECTED"@ ==> {
                &&& after.diagnostics is None && after.detail_ipv4 is None
                &&& after.wifi_rx_bytes == 0 && after.wifi_tx_bytes == 0
            }
            &&& app.state == "CONNECTED"@ ==> {
                &&& after.wifi_rx_bytes == file_count(text_of(readings.rx_bytes))
                &&& after.wifi_tx_bytes == file_count(text_of(readings.tx_bytes))
                &&& after.detail_ipv4 == if app.detail_ipv4 is Some {
                    app.detail_ipv4
                } else {
                    ip_address(readings.ip_output)
                }
                &&& after.diagnostics is Some <==> readings.diagnostics is Some
            }
        }),
{
}

/// A measurement that fits its width is kept as it was read, and one that was not read is not
/// known. One that does not fit keeps its low bits.
pub proof fn law_measurements_are_as_read(app: AppView, readings: DetailReadings)
    requires
        app.state == "CONNECTED"@,
        readings.diagnostics is Some,
    ensures
        with_details(app, readings).diagnostics is Some,
        ({
            let raw = readings.diagnostics->0;
            let d: DiagnosticsView = with_details(app, readings).diagnostics->0;
            &&& raw.rssi is None ==> d.rssi is None
            &&& raw.frequency is None ==> d.frequency is None
            &&& raw.tx_bitrate is None ==> d.tx_bitrate is None
            &&& raw.rx_bitrate is None ==> d.rx_bitrate is None
            &&& raw.rssi matches Some(n) ==> d.rssi is Some && (d.rssi->0 - n) % 0x1_0000 == 0
                && (-0x8000 <= n < 0x8000 ==> d.rssi->0 == n)
            &&& raw.frequency matches Some(n) ==> d.frequency is Some && (n - d.frequency->0)
                % 0x1_0000_0000 == 0
            &&& raw.tx_bitrate matches Some(n) ==> d.tx_bitrate is Some && (n - d.tx_bitrate->0)
                % 0x1_0000_0000 == 0
            &&& raw.rx_bitrate matches Some(n) ==> d.rx_bitrate is Some && (n - d.rx_bitrate->0)
                % 0x1_0000_0000 == 0
            &&& d.security == text_of(raw.security)
        }),
{
}

} // verus!
