//! The names that iwd has on D-Bus, and the calls that the commands stand for.

use vstd::prelude::*;

use crate::keys::{outcome_view, ActionResult, ActionResultView, Command, CommandView};

verus! {

pub const IWD_BUS: &'static str = "net.connman.iwd";

pub const IWD_STATION: &'static str = "net.connman.iwd.Station";

pub const IWD_NETWORK: &'static str = "net.connman.iwd.Network";

pub const IWD_DEVICE: &'static str = "net.connman.iwd.Device";

pub const IWD_KNOWN_NETWORK: &'static str = "net.connman.iwd.KnownNetwork";

pub const IWD_AGENT_MANAGER: &'static str = "net.connman.iwd.AgentManager";

pub const IWD_STATION_DIAG: &'static str = "net.connman.iwd.StationDiagnostic";

/// Where iwd takes agents.
pub const IWD_ROOT: &'static str = "/net/connman/iwd";

/// Where the agent is.
pub const AGENT_PATH: &'static str = "/iwdtui/agent";

/// A call of a method that takes and returns nothing.
pub struct MethodCall {
    pub path: String,
    pub interface: String,
    pub method: String,
}

/// What a [`MethodCall`] stands for.
#[verifier::ext_equal]
pub struct MethodCallView {
    pub path: Seq<char>,
    pub interface: Seq<char>,
    pub method: Seq<char>,
}

impl View for MethodCall {
    type V = MethodCallView;

    open spec fn view(&self) -> MethodCallView {
        MethodCallView { path: self.path@, interface: self.interface@, method: self.method@ }
    }
}

/// A property to read.
pub struct PropertyRead {
    pub path: String,
    pub interface: String,
    pub property: String,
}

/// What a [`PropertyRead`] stands for.
#[verifier::ext_equal]
pub struct PropertyReadView {
    pub path: Seq<char>,
    pub interface: Seq<char>,
    pub property: Seq<char>,
}

impl View for PropertyRead {
    type V = PropertyReadView;

    open spec fn view(&self) -> PropertyReadView {
        PropertyReadView {
            path: self.path@,
            interface: self.interface@,
            property: self.property@,
        }
    }
}

/// The call that does all of a command. A command that takes more than one call has none.
pub open spec fn call_of(command: CommandView) -> Option<MethodCallView> {
    match command {
        CommandView::Scan { station_path } => Some(
            MethodCallView { path: station_path, interface: IWD_STATION@, method: "Scan"@ },
        ),
        CommandView::Connect { network_path } => Some(
            MethodCallView { path: network_path, interface: IWD_NETWORK@, method: "Connect"@ },
        ),
        CommandView::Disconnect { station_path } => Some(
            MethodCallView { path: station_path, interface: IWD_STATION@, method: "Disconnect"@ },
        ),
        CommandView::Forget { known_path } => Some(
            MethodCallView { path: known_path, interface: IWD_KNOWN_NETWORK@, method: "Forget"@ },
        ),
        _ => None,
    }
}

/// The call that does all of a command, where one does.
pub fn dbus_call(command: &Command) -> (res: Option<MethodCall>)
    ensures
        match call_of(command@) {
            Some(call) => res matches Some(r) && r@ == call,
            None => res is None,
        },
{
    match command {
        Command::Scan { station_path } => Some(
            MethodCall {
                path: station_path.clone(),
                interface: IWD_STATION.to_owned(),
                method: "Scan".to_owned(),
            },
        ),
        Command::Connect { network_path } => Some(
            MethodCall {
                path: network_path.clone(),
                interface: IWD_NETWORK.to_owned(),
                method: "Connect".to_owned(),
            },
        ),
        Command::Disconnect { station_path } => Some(
            MethodCall {
                path: station_path.clone(),
                interface: IWD_STATION.to_owned(),
                method: "Disconnect".to_owned(),
            },
        ),
        Command::Forget { known_path } => Some(
            MethodCall {
                path: known_path.clone(),
                interface: IWD_KNOWN_NETWORK.to_owned(),
                method: "Forget".to_owned(),
            },
        ),
        _ => None,
    }
}

/// The answer to a command that ended with `result`. Reading anew is answered by what was read.
pub open spec fn answer_of(command: CommandView, result: Result<(), Seq<char>>) -> Option<
    ActionResultView,
> {
    match command {
        CommandView::Scan { .. } => Some(ActionResultView::Scan(result)),
        CommandView::Connect { network_path } => Some(
            ActionResultView::Connect { path: network_path, result },
        ),
        CommandView::AgentConnect { network_path, .. } => Some(
            ActionResultView::Connect { path: network_path, result },
        ),
        CommandView::Disconnect { .. } => Some(ActionResultView::Disconnect(result)),
        CommandView::Forget { .. } => Some(ActionResultView::Forget(result)),
        CommandView::ToggleAutoConnect { .. } => Some(ActionResultView::AutoConnect(result)),
        CommandView::Refresh => None,
    }
}

/// The answer to a command that ended with `result`, where it has one.
pub fn answer(command: Command, result: Result<(), String>) -> (res: Option<ActionResult>)
    ensures
        match answer_of(command@, outcome_view(result)) {
            Some(a) => res matches Some(r) && r@ == a,
            None => res is None,
        },
{
    match command {
        Command::Scan { .. } => Some(ActionResult::Scan(result)),
        Command::Connect { network_path } => Some(
            ActionResult::Connect { path: network_path, result },
        ),
        Command::AgentConnect { network_path, .. } => Some(
            ActionResult::Connect { path: network_path, result },
        ),
        Command::Disconnect { .. } => Some(ActionResult::Disconnect(result)),
        Command::Forget { .. } => Some(ActionResult::Forget(result)),
        Command::ToggleAutoConnect { .. } => Some(ActionResult::AutoConnect(result)),
        Command::Refresh => None,
    }
}

/// What a setting that was read stands for.
pub open spec fn setting_view(setting: Result<bool, String>) -> Result<bool, Seq<char>> {
    match setting {
        Ok(on) => Ok(on),
        Err(e) => Err(e@),
    }
}

/// The setting that is the opposite of the one that was read; a failure stays as it is.
pub open spec fn opposite(setting: Result<bool, Seq<char>>) -> Result<bool, Seq<char>> {
    match setting {
        Ok(on) => Ok(!on),
        Err(e) => Err(e),
    }
}

/// What automatic connection is to be set to, from what it is, where that could be read.
pub fn toggled(current: Result<bool, String>) -> (res: Result<bool, String>)
    ensures
        setting_view(res) == opposite(setting_view(current)),
{
    match current {
        Ok(on) => Ok(!on),
        Err(e) => Err(e),
    }
}

} // verus!
