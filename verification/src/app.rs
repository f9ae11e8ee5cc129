//! The state of the program.

use vstd::prelude::*;

use crate::network::{network_views, text_of, Network, NetworkView};

verus! {

/// A wireless adapter that iwd drives.
pub struct Adapter {
    /// The D-Bus object of the adapter's station.
    pub path: String,
    /// The name of the network interface.
    pub name: String,
}

/// What an [`Adapter`] stands for.
#[verifier::ext_equal]
pub struct AdapterView {
    pub path: Seq<char>,
    pub name: Seq<char>,
}

impl View for Adapter {
    type V = AdapterView;

    open spec fn view(&self) -> AdapterView {
        AdapterView { path: self.path@, name: self.name@ }
    }
}

/// What the adapters of a list stand for.
pub open spec fn adapter_views(list: Seq<Adapter>) -> Seq<AdapterView> {
    list.map_values(|a: Adapter| a@)
}

/// A box in front of the list that takes the keys while it is open.
pub enum Overlay {
    /// Asks for the password of a network.
    Password { input: String, visible: bool, network_path: String, network_name: String },
    /// Asks whether to forget a network.
    ForgetConfirm { known_path: String, network_name: String },
}

/// What an [`Overlay`] stands for.
#[verifier::ext_equal]
pub enum OverlayView {
    Password {
        input: Seq<char>,
        visible: bool,
        network_path: Seq<char>,
        network_name: Seq<char>,
    },
    ForgetConfirm { known_path: Seq<char>, network_name: Seq<char> },
}

impl View for Overlay {
    type V = OverlayView;

    open spec fn view(&self) -> OverlayView {
        match self {
            Overlay::Password { input, visible, network_path, network_name } => {
                OverlayView::Password {
                    input: input@,
                    visible: *visible,
                    network_path: network_path@,
                    network_name: network_name@,
                }
            },
            Overlay::ForgetConfirm { known_path, network_name } => {
                OverlayView::ForgetConfirm {
                    known_path: known_path@,
                    network_name: network_name@,
                }
            },
        }
    }
}

/// What iwd measures of the connection.
pub struct Diagnostics {
    pub rssi: Option<i16>,
    /// In MHz.
    pub frequency: Option<u32>,
    /// In kbit/s.
    pub tx_bitrate: Option<u32>,
    /// In kbit/s.
    pub rx_bitrate: Option<u32>,
    pub security: Option<String>,
}

/// What a [`Diagnostics`] stands for.
#[verifier::ext_equal]
pub struct DiagnosticsView {
    pub rssi: Option<i16>,
    pub frequency: Option<u32>,
    pub tx_bitrate: Option<u32>,
    pub rx_bitrate: Option<u32>,
    pub security: Option<Seq<char>>,
}

impl View for Diagnostics {
    type V = DiagnosticsView;

    open spec fn view(&self) -> DiagnosticsView {
        DiagnosticsView {
            rssi: self.rssi,
            frequency: self.frequency,
            tx_bitrate: self.tx_bitrate,
            rx_bitrate: self.rx_bitrate,
            security: text_of(self.security),
        }
    }
}

/// A wired connection.
pub struct EthernetInfo {
    pub interface: String,
    pub speed_mbps: Option<u32>,
    pub rx_bytes: u64,
    pub tx_bytes: u64,
    pub ipv4_masked: Option<String>,
}

/// What an [`EthernetInfo`] stands for.
#[verifier::ext_equal]
pub struct EthernetView {
    pub interface: Seq<char>,
    pub speed_mbps: Option<u32>,
    pub rx_bytes: u64,
    pub tx_bytes: u64,
    pub ipv4_masked: Option<Seq<char>>,
}

impl View for EthernetInfo {
    type V = EthernetView;

    open spec fn view(&self) -> EthernetView {
        EthernetView {
            interface: self.interface@,
            speed_mbps: self.speed_mbps,
            rx_bytes: self.rx_bytes,
            tx_bytes: self.tx_bytes,
            ipv4_masked: text_of(self.ipv4_masked),
        }
    }
}

/// All that the program knows and shows. Moments are in milliseconds on one clock.
pub struct App {
    pub networks: Vec<Network>,
    /// The position of the cursor in `networks`.
    pub selected: usize,
    /// The adapters that `tab` goes round.
    pub adapters: Vec<Adapter>,
    pub station_path: String,
    pub interface_name: String,
    /// The state of the station, in upper case.
    pub state: String,
    /// The network that a connection is being made to.
    pub pending_connect_path: Option<String>,
    pub scanning: bool,
    pub scan_started_at: Option<u64>,
    pub overlay: Option<Overlay>,
    pub header_error: Option<String>,
    /// When `header_error` was set.
    pub header_error_at: u64,
    pub should_quit: bool,
    pub diagnostics: Option<Diagnostics>,
    pub connected_since: Option<u64>,
    pub detail_autoconnect: Option<bool>,
    pub detail_ipv4: Option<String>,
    pub ethernet: Option<EthernetInfo>,
    pub wifi_rx_bytes: u64,
    pub wifi_tx_bytes: u64,
}

/// What an [`App`] stands for.
#[verifier::ext_equal]
pub struct AppView {
    pub networks: Seq<NetworkView>,
    pub selected: nat,
    pub adapters: Seq<AdapterView>,
    pub station_path: Seq<char>,
    pub interface_name: Seq<char>,
    pub state: Seq<char>,
    pub pending_connect_path: Option<Seq<char>>,
    pub scanning: bool,
    pub scan_started_at: Option<u64>,
    pub overlay: Option<OverlayView>,
    pub header_error: Option<Seq<char>>,
    pub header_error_at: u64,
    pub should_quit: bool,
    pub diagnostics: Option<DiagnosticsView>,
    pub connected_since: Option<u64>,
    pub detail_autoconnect: Option<bool>,
    pub detail_ipv4: Option<Seq<char>>,
    pub ethernet: Option<EthernetView>,
    pub wifi_rx_bytes: u64,
    pub wifi_tx_bytes: u64,
}

/// What an optional overlay stands for.
pub open spec fn overlay_view(overlay: Option<Overlay>) -> Option<OverlayView> {
    match overlay {
        Some(o) => Some(o@),
        None => None,
    }
}

/// What optional diagnostics stand for.
pub open spec fn diagnostics_view(diagnostics: Option<Diagnostics>) -> Option<DiagnosticsView> {
    match diagnostics {
        Some(d) => Some(d@),
        None => None,
    }
}

/// What an optional wired connection stands for.
pub open spec fn ethernet_view(ethernet: Option<EthernetInfo>) -> Option<EthernetView> {
    match ethernet {
        Some(e) => Some(e@),
        None => None,
    }
}

impl View for App {
    type V = AppView;

    open spec fn view(&self) -> AppView {
        AppView {
            networks: network_views(self.networks@),
            selected: self.selected as nat,
            adapters: adapter_views(self.adapters@),
            station_path: self.station_path@,
            interface_name: self.interface_name@,
            state: self.state@,
            pending_connect_path: text_of(self.pending_connect_path),
            scanning: self.scanning,
            scan_started_at: self.scan_started_at,
            overlay: overlay_view(self.overlay),
            header_error: text_of(self.header_error),
            header_error_at: self.header_error_at,
            should_quit: self.should_quit,
            diagnostics: diagnostics_view(self.diagnostics),
            connected_since: self.connected_since,
            detail_autoconnect: self.detail_autoconnect,
            detail_ipv4: text_of(self.detail_ipv4),
            ethernet: ethernet_view(self.ethernet),
            wifi_rx_bytes: self.wifi_rx_bytes,
            wifi_tx_bytes: self.wifi_tx_bytes,
        }
    }
}

/// The network under the cursor.
pub open spec fn network_at_cursor(app: AppView) -> Option<NetworkView> {
    if app.selected < app.networks.len() {
        Some(app.networks[app.selected as int])
    } else {
        None
    }
}

/// The cursor stands on a network, or at the top of an empty list.
pub open spec fn cursor_in_list(app: AppView) -> bool {
    if app.networks.len() == 0 {
        app.selected == 0
    } else {
        app.selected < app.networks.len()
    }
}

/// What a network reference stands for.
pub open spec fn network_ref_view(n: Option<&Network>) -> Option<NetworkView> {
    match n {
        Some(n) => Some(n@),
        None => None,
    }
}

/// A state with nothing in it but a station.
pub open spec fn fresh(
    adapters: Seq<AdapterView>,
    station_path: Seq<char>,
    interface_name: Seq<char>,
    state: Seq<char>,
) -> AppView {
    AppView {
        networks: Seq::empty(),
        selected: 0,
        adapters,
        station_path,
        interface_name,
        state,
        pending_connect_path: None,
        scanning: false,
        scan_started_at: None,
        overlay: None,
        header_error: None,
        header_error_at: 0,
        should_quit: false,
        diagnostics: None,
        connected_since: None,
        detail_autoconnect: None,
        detail_ipv4: None,
        ethernet: None,
        wifi_rx_bytes: 0,
        wifi_tx_bytes: 0,
    }
}

/// The state at the start, on a station in the state that iwd names for it.
pub open spec fn started(
    adapters: Seq<AdapterView>,
    station_path: Seq<char>,
    interface_name: Seq<char>,
    named: Seq<char>,
) -> AppView {
    fresh(adapters, station_path, interface_name, crate::text::in_uppercase(named))
}

impl App {
    /// Starts on a station, in the state that iwd names for it.
    pub fn new(
        adapters: Vec<Adapter>,
        station_path: String,
        interface_name: String,
        state: &str,
    ) -> (res: App)
        ensures
            res@ == started(
                adapter_views(adapters@),
                station_path@,
                interface_name@,
                state@,
            ),
            cursor_in_list(res@),
    {
        let res = App {
            networks: Vec::new(),
            selected: 0,
            adapters,
            station_path,
            interface_name,
            state: crate::text::uppercase(state),
            pending_connect_path: None,
            scanning: false,
            scan_started_at: None,
            overlay: None,
            header_error: None,
            header_error_at: 0,
            should_quit: false,
            diagnostics: None,
            connected_since: None,
            detail_autoconnect: None,
            detail_ipv4: None,
            ethernet: None,
            wifi_rx_bytes: 0,
            wifi_tx_bytes: 0,
        };
        assert(network_views(res.networks@) =~= Seq::<NetworkView>::empty());
        res
    }

    /// The network under the cursor.
    pub fn selected_network(&self) -> (res: Option<&Network>)
        ensures
            network_ref_view(res) == network_at_cursor(self@),
            res matches Some(n) ==> self.selected < self.networks@.len() && *n
                == self.networks@[self.selected as int],
    {
        if self.selected < self.networks.len() {
            Some(&self.networks[self.selected])
        } else {
            None
        }
    }
}

} // verus!
