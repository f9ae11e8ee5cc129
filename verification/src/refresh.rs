//! Taking in what iwd and the system say.

use vstd::prelude::*;

use crate::address::get_masked_ipv4;
use crate::app::{
    adapter_views, cursor_in_list, network_at_cursor, Adapter, AdapterView, App, AppView,
    Diagnostics, DiagnosticsView,
};
use crate::ethernet::{count_in, file_count, ip_address};
use crate::keys::outcome_view;
use crate::network::{
    list_networks, network_views, networks_read, ranked, reading_views, text_of, Network,
    NetworkReading, NetworkReadingView, NetworkView,
};
use crate::text::{in_uppercase, index_of, lemma_at_index_of, lemma_index_of, same_text, uppercase};

verus! {

// ---------------------------------------------------------------------------------------------
// Networks
// ---------------------------------------------------------------------------------------------

/// The D-Bus objects of a list of networks.
pub open spec fn network_paths(networks: Seq<NetworkView>) -> Seq<Seq<char>> {
    networks.map_values(|n: NetworkView| n.path)
}

/// Where the cursor goes when the list becomes `networks`: it stays on the network it stands
/// on, where that is still in the list, and otherwise on its position, or on the last one.
pub open spec fn cursor_after(app: AppView, networks: Seq<NetworkView>) -> nat {
    let last: nat = if networks.len() > 0 {
        (networks.len() - 1) as nat
    } else {
        0
    };
    let kept: nat = if app.selected < last {
        app.selected
    } else {
        last
    };
    match network_at_cursor(app) {
        Some(n) => {
            let at = index_of(network_paths(networks), n.path);
            if at < networks.len() {
                at
            } else {
                kept
            }
        },
        None => kept,
    }
}

/// Whether the network at `path` is in a list and connected.
pub open spec fn is_connected_in(networks: Seq<NetworkView>, path: Seq<char>) -> bool {
    exists|i: int|
        0 <= i < networks.len() && (#[trigger] networks[i]).path == path && networks[i].connected
}

/// `app` without a connection that is no longer being made: the network is connected, or the
/// station is not connecting.
pub open spec fn reconciled(app: AppView) -> AppView {
    match app.pending_connect_path {
        Some(path) => if is_connected_in(app.networks, path) || app.state != "CONNECTING"@ {
            AppView { pending_connect_path: None, ..app }
        } else {
            app
        },
        None => app,
    }
}

/// `app` with the networks that came in.
pub open spec fn with_networks(app: AppView, networks: Seq<NetworkView>) -> AppView {
    reconciled(
        AppView { networks: ranked(networks), selected: cursor_after(app, ranked(networks)), ..app },
    )
}

fn find_network(networks: &Vec<Network>, path: &str) -> (res: usize)
    ensures
        res == index_of(network_paths(network_views(networks@)), path@),
        res <= networks@.len(),
{
    let ghost paths = network_paths(network_views(networks@));
    let mut at: usize = 0;
    while at < networks.len() && !same_text(networks[at].path.as_str(), path)
        invariant
            at <= networks@.len(),
            paths == network_paths(network_views(networks@)),
            forall|i: int| 0 <= i < at ==> #[trigger] paths[i] != path@,
        decreases networks@.len() - at,
    {
        at += 1;
    }
    proof {
        lemma_index_of(paths, path@, at as nat);
    }
    at
}

impl App {
    /// Drops a connection that is no longer being made.
    pub fn reconcile_pending_connect(&mut self)
        ensures
            final(self)@ == reconciled(old(self)@),
    {
        let path = match &self.pending_connect_path {
            Some(path) => path.clone(),
            None => {
                return ;
            },
        };
        let ghost views = network_views(self.networks@);
        let mut connected = false;
        let mut i: usize = 0;
        while i < self.networks.len() && !connected
            invariant
                i <= self.networks@.len(),
                views == network_views(self.networks@),
                *self == *old(self),
                connected ==> is_connected_in(views, path@),
                !connected ==> forall|k: int|
                    0 <= k < i ==> !((#[trigger] views[k]).path == path@ && views[k].connected),
            decreases self.networks@.len() - i,
        {
            let network = &self.networks[i];
            assert(views[i as int] == network@);
            if same_text(network.path.as_str(), path.as_str()) && network.connected {
                connected = true;
            }
            i += 1;
        }
        assert(connected == is_connected_in(views, path@));
        if connected || !same_text(self.state.as_str(), "CONNECTING") {
            self.pending_connect_path = None;
        }
    }

    /// Takes in the networks in range.
    pub fn refresh_networks(&mut self, readings: Vec<NetworkReading>)
        ensures
            final(self)@ == with_networks(
                old(self)@,
                networks_read(reading_views(readings@)),
            ),
    {
        let previous = match self.selected_network() {
            Some(n) => Some(n.path.clone()),
            None => None,
        };
        let networks = list_networks(readings);
        let last: usize = networks.len().saturating_sub(1);
        let kept: usize = if self.selected < last { self.selected } else { last };
        let selected: usize = match previous {
            Some(path) => {
                let at = find_network(&networks, path.as_str());
                if at < networks.len() { at } else { kept }
            },
            None => kept,
        };
        self.networks = networks;
        self.selected = selected;
        self.reconcile_pending_connect();
    }
}

/// However the list changes, the cursor stays in it. It stays on its network where that is
/// still in the list.
pub proof fn law_cursor_follows_network(app: AppView, networks: Seq<NetworkView>)
    ensures
        cursor_in_list(with_networks(app, networks)),
        network_at_cursor(app) matches Some(n) ==> (network_paths(ranked(networks)).contains(n.path)
            ==> (network_at_cursor(with_networks(app, networks)) matches Some(m) && m.path
            == n.path)),
{
    if network_at_cursor(app) is Some {
        lemma_at_index_of(network_paths(ranked(networks)), network_at_cursor(app)->0.path);
    }
}

/// A connection that is being made stays so only while the station is connecting and the
/// network is not connected. Looking once is enough.
pub proof fn law_reconciled(app: AppView)
    ensures
        reconciled(app).pending_connect_path matches Some(path) ==> app.state == "CONNECTING"@
            && !is_connected_in(app.networks, path) && app.pending_connect_path == Some(path),
        reconciled(reconciled(app)) == reconciled(app),
{
}

// ---------------------------------------------------------------------------------------------
// The state of the station
// ---------------------------------------------------------------------------------------------

/// The station to use and all there are.
pub struct Stations {
    pub adapters: Vec<Adapter>,
    pub path: String,
    pub name: String,
}

/// What a [`Stations`] stands for.
#[verifier::ext_equal]
pub struct StationsView {
    pub adapters: Seq<AdapterView>,
    pub path: Seq<char>,
    pub name: Seq<char>,
}

impl View for Stations {
    type V = StationsView;

    open spec fn view(&self) -> StationsView {
        StationsView {
            adapters: adapter_views(self.adapters@),
            path: self.path@,
            name: self.name@,
        }
    }
}

/// What happens while the state of the station is read.
pub enum RuntimeEvent {
    /// It is to be read.
    Start,
    /// The state was read, or could not be; `again` after the station was looked for anew.
    State { again: bool, reading: Result<String, String> },
    /// The station was looked for.
    Found(Result<Stations, String>),
    /// Whether the station is scanning was read.
    Scanning(Result<bool, String>),
    /// The networks were listed.
    Networks(Result<Vec<NetworkReading>, String>),
}

/// What a [`RuntimeEvent`] stands for.
#[verifier::ext_equal]
pub enum RuntimeEventView {
    Start,
    State { again: bool, reading: Result<Seq<char>, Seq<char>> },
    Found(Result<StationsView, Seq<char>>),
    Scanning(Result<bool, Seq<char>>),
    Networks(Result<Seq<NetworkReadingView>, Seq<char>>),
}

impl View for RuntimeEvent {
    type V = RuntimeEventView;

    open spec fn view(&self) -> RuntimeEventView {
        match self {
            RuntimeEvent::Start => RuntimeEventView::Start,
            RuntimeEvent::State { again, reading } => RuntimeEventView::State {
                again: *again,
                reading: match reading {
                    Ok(s) => Ok(s@),
                    Err(e) => Err(e@),
                },
            },
            RuntimeEvent::Found(r) => RuntimeEventView::Found(
                match r {
                    Ok(s) => Ok(s@),
                    Err(e) => Err(e@),
                },
            ),
            RuntimeEvent::Scanning(r) => RuntimeEventView::Scanning(
                match r {
                    Ok(b) => Ok(*b),
                    Err(e) => Err(e@),
                },
            ),
            RuntimeEvent::Networks(r) => RuntimeEventView::Networks(
                match r {
                    Ok(list) => Ok(reading_views(list@)),
                    Err(e) => Err(e@),
                },
            ),
        }
    }
}

/// What is to be done next while the state of the station is read.
pub enum RuntimeAction {
    /// Read the state; `again` after the station was looked for anew.
    ReadState { again: bool },
    /// Look for the station.
    FindStation,
    /// Read whether the station is scanning.
    ReadScanning,
    /// List the networks.
    ListNetworks,
    /// Nothing more.
    Done(Result<(), String>),
}

/// What a [`RuntimeAction`] stands for.
#[verifier::ext_equal]
pub enum RuntimeActionView {
    ReadState { again: bool },
    FindStation,
    ReadScanning,
    ListNetworks,
    Done(Result<(), Seq<char>>),
}

impl View for RuntimeAction {
    type V = RuntimeActionView;

    open spec fn view(&self) -> RuntimeActionView {
        match self {
            RuntimeAction::ReadState { again } => RuntimeActionView::ReadState { again: *again },
            RuntimeAction::FindStation => RuntimeActionView::FindStation,
            RuntimeAction::ReadScanning => RuntimeActionView::ReadScanning,
            RuntimeAction::ListNetworks => RuntimeActionView::ListNetworks,
            RuntimeAction::Done(r) => RuntimeActionView::Done(outcome_view(*r)),
        }
    }
}

/// `app` on a station.
pub open spec fn on_station(app: AppView, found: StationsView) -> AppView {
    AppView {
        adapters: found.adapters,
        station_path: found.path,
        interface_name: found.name,
        ..app
    }
}

/// `app` with the state that iwd names. The time of a connection counts from the moment the
/// station is first seen connected.
pub open spec fn with_state(app: AppView, named: Seq<char>, now: u64) -> AppView {
    let state = in_uppercase(named);
    AppView {
        state,
        connected_since: if state != "CONNECTED"@ {
            None
        } else if app.state != "CONNECTED"@ {
            Some(now)
        } else {
            app.connected_since
        },
        ..app
    }
}

/// `app` with the station scanning or not. The time of a scan counts from the moment the
/// station is first seen scanning.
pub open spec fn with_scanning(app: AppView, scanning: bool, now: u64) -> AppView {
    AppView {
        scanning,
        scan_started_at: if scanning && !app.scanning {
            Some(now)
        } else if !scanning && app.scanning {
            None
        } else {
            app.scan_started_at
        },
        ..app
    }
}

/// What happens while the state of the station is read: where it cannot be read, the station
/// is looked for anew, once. After the state comes whether the station is scanning. Once a
/// scan has ended, the networks are listed.
pub open spec fn runtime_step(app: AppView, event: RuntimeEventView, now: u64) -> (
    AppView,
    RuntimeActionView,
) {
    match event {
        RuntimeEventView::Start => (app, RuntimeActionView::ReadState { again: false }),
        RuntimeEventView::State { again, reading } => match reading {
            Ok(named) => (with_state(app, named, now), RuntimeActionView::ReadScanning),
            Err(e) => if again {
                (app, RuntimeActionView::Done(Err(e)))
            } else {
                (app, RuntimeActionView::FindStation)
            },
        },
        RuntimeEventView::Found(r) => match r {
            Ok(found) => (on_station(app, found), RuntimeActionView::ReadState { again: true }),
            Err(e) => (app, RuntimeActionView::Done(Err(e))),
        },
        RuntimeEventView::Scanning(r) => match r {
            Ok(scanning) => if app.scanning && !scanning {
                (with_scanning(app, scanning, now), RuntimeActionView::ListNetworks)
            } else {
                (
                    reconciled(with_scanning(app, scanning, now)),
                    RuntimeActionView::Done(Ok(())),
                )
            },
            Err(e) => (app, RuntimeActionView::Done(Err(e))),
        },
        RuntimeEventView::Networks(r) => match r {
            Ok(readings) => (
                with_networks(app, networks_read(readings)),
                RuntimeActionView::Done(Ok(())),
            ),
            Err(e) => (app, RuntimeActionView::Done(Err(e))),
        },
    }
}

impl App {
    /// Takes in the state of the station, one event at a time, and says what is to be done
    /// next.
    pub fn refresh_runtime_state(&mut self, event: RuntimeEvent, now: u64) -> (res: RuntimeAction)
        ensures
            final(self)@ == runtime_step(old(self)@, event@, now).0,
            res@ == runtime_step(old(self)@, event@, now).1,
    {
        match event {
            RuntimeEvent::Start => RuntimeAction::ReadState { again: false },
            RuntimeEvent::State { again, reading } => match reading {
                Ok(named) => {
                    let state = uppercase(named.as_str());
                    if !same_text(state.as_str(), "CONNECTED") {
                        self.connected_since = None;
                    } else if !same_text(self.state.as_str(), "CONNECTED") {
                        self.connected_since = Some(now);
                    }
                    self.state = state;
                    RuntimeAction::ReadScanning
                },
                Err(e) => {
                    if again {
                        RuntimeAction::Done(Err(e))
                    } else {
                        RuntimeAction::FindStation
                    }
                },
            },
            RuntimeEvent::Found(found) => match found {
                Ok(found) => {
                    self.adapters = found.adapters;
                    self.station_path = found.path;
                    self.interface_name = found.name;
                    RuntimeAction::ReadState { again: true }
                },
                Err(e) => RuntimeAction::Done(Err(e)),
            },
            RuntimeEvent::Scanning(reading) => match reading {
                Ok(scanning) => {
                    if scanning && !self.scanning {
                        self.scan_started_at = Some(now);
                    }
                    let finished = self.scanning && !scanning;
                    self.scanning = scanning;
                    if finished {
                        self.scan_started_at = None;
                        return RuntimeAction::ListNetworks;
                    }
                    self.reconcile_pending_connect();
                    RuntimeAction::Done(Ok(()))
                },
                Err(e) => RuntimeAction::Done(Err(e)),
            },
            RuntimeEvent::Networks(list) => match list {
                Ok(list) => {
                    self.refresh_networks(list);
                    self.reconcile_pending_connect();
                    RuntimeAction::Done(Ok(()))
                },
                Err(e) => RuntimeAction::Done(Err(e)),
            },
        }
    }
}

/// How many actions may still come after one, at most.
pub open spec fn actions_left(action: RuntimeActionView) -> nat {
    match action {
        RuntimeActionView::ReadState { again } => if again {
            3
        } else {
            5
        },
        RuntimeActionView::FindStation => 4,
        RuntimeActionView::ReadScanning => 2,
        RuntimeActionView::ListNetworks => 1,
        RuntimeActionView::Done(_) => 0,
    }
}

/// Whether an event is the outcome of an action.
pub open spec fn is_outcome(event: RuntimeEventView, action: RuntimeActionView) -> bool {
    match event {
        RuntimeEventView::Start => false,
        RuntimeEventView::State { again, reading } => action == (RuntimeActionView::ReadState {
            again,
        }),
        RuntimeEventView::Found(_) => action == RuntimeActionView::FindStation,
        RuntimeEventView::Scanning(_) => action == RuntimeActionView::ReadScanning,
        RuntimeEventView::Networks(_) => action == RuntimeActionView::ListNetworks,
    }
}

/// Reading the state of the station comes to an end, whatever happens: each action leaves
/// fewer to come than the one before. No event moves the cursor off the list.
pub proof fn law_reading_state_ends(
    app: AppView,
    action: RuntimeActionView,
    event: RuntimeEventView,
    now: u64,
)
    requires
        is_outcome(event, action),
    ensures
        actions_left(runtime_step(app, event, now).1) < actions_left(action),
        cursor_in_list(app) ==> cursor_in_list(runtime_step(app, event, now).0),
{
    if event is Networks && event->Networks_0 is Ok {
        law_cursor_follows_network(app, networks_read(event->Networks_0->Ok_0));
    }
}

/// The time of a connection is known only while the station is connected, and does not change
/// while it stays so.
pub proof fn law_connection_time(app: AppView, named: Seq<char>, now: u64)
    ensures
        with_state(app, named, now).connected_since is Some ==> with_state(app, named, now).state
            == "CONNECTED"@,
        app.state == "CONNECTED"@ && with_state(app, named, now).state == "CONNECTED"@
            ==> with_state(app, named, now).connected_since == app.connected_since,
        app.state != "CONNECTED"@ && with_state(app, named, now).state == "CONNECTED"@
            ==> with_state(app, named, now).connected_since == Some(now),
{
}

// ---------------------------------------------------------------------------------------------
// Details
// ---------------------------------------------------------------------------------------------

/// What is to be read for the details.
pub struct DetailPlan {
    /// Whether to read the diagnostics and the byte counters of the connection.
    pub connection: bool,
    /// The stored network whose automatic connection is to be read.
    pub autoconnect_path: Option<String>,
    /// Whether to run `ip -4 -o addr show`.
    pub address: bool,
}

/// What a [`DetailPlan`] stands for.
#[verifier::ext_equal]
pub struct DetailPlanView {
    pub connection: bool,
    pub autoconnect_path: Option<Seq<char>>,
    pub address: bool,
}

impl View for DetailPlan {
    type V = DetailPlanView;

    open spec fn view(&self) -> DetailPlanView {
        DetailPlanView {
            connection: self.connection,
            autoconnect_path: text_of(self.autoconnect_path),
            address: self.address,
        }
    }
}

/// What iwd says of the connection.
pub struct RawDiagnostics {
    pub rssi: Option<i64>,
    pub frequency: Option<u64>,
    pub tx_bitrate: Option<u64>,
    pub rx_bitrate: Option<u64>,
    pub security: Option<String>,
}

/// What was read for the details.
pub struct DetailReadings {
    pub diagnostics: Option<RawDiagnostics>,
    pub rx_bytes: Option<String>,
    pub tx_bytes: Option<String>,
    pub autoconnect: Option<bool>,
    pub ip_output: Option<Vec<u8>>,
}

/// The low 32 bits of a number.
pub open spec fn low_u32(n: Option<u64>) -> Option<u32> {
    match n {
        Some(n) => Some((n % 0x1_0000_0000) as u32),
        None => None,
    }
}

/// A number in the low 16 bits, with a sign.
pub open spec fn low_i16(n: Option<i64>) -> Option<i16> {
    match n {
        Some(n) => {
            let low = n as int % 0x1_0000;
            if low < 0x8000 {
                Some(low as i16)
            } else {
                Some((low - 0x1_0000) as i16)
            }
        },
        None => None,
    }
}

/// The diagnostics in the widths they are kept in.
pub open spec fn diagnostics_read(raw: RawDiagnostics) -> DiagnosticsView {
    DiagnosticsView {
        rssi: low_i16(raw.rssi),
        frequency: low_u32(raw.frequency),
        tx_bitrate: low_u32(raw.tx_bitrate),
        rx_bitrate: low_u32(raw.rx_bitrate),
        security: text_of(raw.security),
    }
}

/// The stored network under the cursor.
pub open spec fn known_at_cursor(app: AppView) -> Option<Seq<char>> {
    match network_at_cursor(app) {
        Some(n) => n.known_path,
        None => None,
    }
}

/// `app` with the details that were read. What belongs to a connection is kept only while
/// there is one; the address is kept as long as there is.
pub open spec fn with_details(app: AppView, readings: DetailReadings) -> AppView {
    let connected = app.state == "CONNECTED"@;
    AppView {
        diagnostics: match readings.diagnostics {
            Some(raw) => if connected {
                Some(diagnostics_read(raw))
            } else {
                None
            },
            None => None,
        },
        wifi_rx_bytes: if connected {
            file_count(text_of(readings.rx_bytes)) as u64
        } else {
            0
        },
        wifi_tx_bytes: if connected {
            file_count(text_of(readings.tx_bytes)) as u64
        } else {
            0
        },
        detail_autoconnect: if known_at_cursor(app) is Some {
            readings.autoconnect
        } else {
            None
        },
        detail_ipv4: if !connected {
            None
        } else if app.detail_ipv4 is Some {
            app.detail_ipv4
        } else {
            ip_address(readings.ip_output)
        },
        ..app
    }
}

fn narrow_u32(n: Option<u64>) -> (res: Option<u32>)
    ensures
        res == low_u32(n),
{
    match n {
        Some(n) => Some((n % 0x1_0000_0000) as u32),
        None => None,
    }
}

fn narrow_i16(n: Option<i64>) -> (res: Option<i16>)
    ensures
        res == low_i16(n),
{
    match n {
        Some(n) => {
            let low: u64 = n as u64 % 0x1_0000;
            assert(n as u64 % 0x1_0000 == n % 0x1_0000) by (bit_vector);
            Some(if low < 0x8000 { low as i16 } else { (low as i32 - 0x1_0000) as i16 })
        },
        None => None,
    }
}

/// What is to be read for the details: what belongs to a connection while there is one, the
/// address until it is known, and automatic connection to the stored network under the cursor.
pub open spec fn plan_for(app: AppView) -> DetailPlanView {
    DetailPlanView {
        connection: app.state == "CONNECTED"@,
        autoconnect_path: known_at_cursor(app),
        address: app.state == "CONNECTED"@ && app.detail_ipv4 is None,
    }
}

impl App {
    /// Says what is to be read for the details.
    pub fn detail_plan(&self) -> (res: DetailPlan)
        ensures
            res@ == plan_for(self@),
    {
        let connection = same_text(self.state.as_str(), "CONNECTED");
        let autoconnect_path = match self.selected_network() {
            Some(n) => n.known_path.clone(),
            None => None,
        };
        DetailPlan {
            connection,
            autoconnect_path,
            address: connection && self.detail_ipv4.is_none(),
        }
    }

    /// Takes in the details that [`App::detail_plan`] asks for.
    pub fn refresh_diagnostics(&mut self, readings: DetailReadings)
        ensures
            final(self)@ == with_details(old(self)@, readings),
    {
        let known = match self.selected_network() {
            Some(n) => n.is_known(),
            None => false,
        };
        if same_text(self.state.as_str(), "CONNECTED") {
            self.wifi_rx_bytes = count_in(&readings.rx_bytes);
            self.wifi_tx_bytes = count_in(&readings.tx_bytes);
            if self.detail_ipv4.is_none() {
                self.detail_ipv4 = get_masked_ipv4(&readings.ip_output);
            }
            self.diagnostics = match readings.diagnostics {
                Some(raw) => Some(
                    Diagnostics {
                        rssi: narrow_i16(raw.rssi),
                        frequency: narrow_u32(raw.frequency),
                        tx_bitrate: narrow_u32(raw.tx_bitrate),
                        rx_bitrate: narrow_u32(raw.rx_bitrate),
                        security: raw.security,
                    },
                ),
                None => None,
            };
        } else {
            self.wifi_rx_bytes = 0;
            self.wifi_tx_bytes = 0;
            self.detail_ipv4 = None;
            self.diagnostics = None;
        }
        self.detail_autoconnect = if known { readings.autoconnect } else { None };
    }
}

/// Without a connection nothing is left of one: no diagnostics, no counts, no address.
pub proof fn law_details_end_with_connection(app: AppView, readings: DetailReadings)
    requires
        app.state != "CONNECTED"@,
    ensures
        with_details(app, readings).diagnostics is None,
        with_details(app, readings).wifi_rx_bytes == 0,
        with_details(app, readings).wifi_tx_bytes == 0,
        with_details(app, readings).detail_ipv4 is None,
{
}

} // verus!
