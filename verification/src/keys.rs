//! What the keys do, and what follows from the answers to the commands they give.

use vstd::prelude::*;

use crate::app::{
    adapter_views, network_at_cursor, Adapter, AdapterView, App, AppView, Overlay, OverlayView,
};
use crate::format::{condense_error, gist};
use crate::network::{Network, NetworkView};
use crate::text::{index_of, lemma_index_of, same_text};

verus! {

/// The keys that the program tells apart.
#[derive(Clone, Copy, Debug, PartialEq, Eq, Structural)]
pub enum KeyCode {
    Char(char),
    Enter,
    Esc,
    Backspace,
    Up,
    Down,
    Tab,
    Other,
}

/// Work to be done outside.
pub enum Command {
    /// Look for networks.
    Scan { station_path: String },
    /// Connect to a network that needs no password.
    Connect { network_path: String },
    /// Connect to a network with a password.
    AgentConnect { network_path: String, password: String },
    /// Leave the current network.
    Disconnect { station_path: String },
    /// Forget a stored network.
    Forget { known_path: String },
    /// Turn automatic connection to a stored network on or off.
    ToggleAutoConnect { known_path: String },
    /// Read the state of the station and the networks anew.
    Refresh,
}

/// What a [`Command`] stands for.
#[verifier::ext_equal]
pub enum CommandView {
    Scan { station_path: Seq<char> },
    Connect { network_path: Seq<char> },
    AgentConnect { network_path: Seq<char>, password: Seq<char> },
    Disconnect { station_path: Seq<char> },
    Forget { known_path: Seq<char> },
    ToggleAutoConnect { known_path: Seq<char> },
    Refresh,
}

impl View for Command {
    type V = CommandView;

    open spec fn view(&self) -> CommandView {
        match self {
            Command::Scan { station_path } => CommandView::Scan { station_path: station_path@ },
            Command::Connect { network_path } => CommandView::Connect {
                network_path: network_path@,
            },
            Command::AgentConnect { network_path, password } => CommandView::AgentConnect {
                network_path: network_path@,
                password: password@,
            },
            Command::Disconnect { station_path } => CommandView::Disconnect {
                station_path: station_path@,
            },
            Command::Forget { known_path } => CommandView::Forget { known_path: known_path@ },
            Command::ToggleAutoConnect { known_path } => CommandView::ToggleAutoConnect {
                known_path: known_path@,
            },
            Command::Refresh => CommandView::Refresh,
        }
    }
}

/// What an optional command stands for.
pub open spec fn command_view(command: Option<Command>) -> Option<CommandView> {
    match command {
        Some(c) => Some(c@),
        None => None,
    }
}

/// The answer to a command.
pub enum ActionResult {
    Scan(Result<(), String>),
    Connect { path: String, result: Result<(), String> },
    Disconnect(Result<(), String>),
    Forget(Result<(), String>),
    AutoConnect(Result<(), String>),
}

/// What an [`ActionResult`] stands for.
#[verifier::ext_equal]
pub enum ActionResultView {
    Scan(Result<(), Seq<char>>),
    Connect { path: Seq<char>, result: Result<(), Seq<char>> },
    Disconnect(Result<(), Seq<char>>),
    Forget(Result<(), Seq<char>>),
    AutoConnect(Result<(), Seq<char>>),
}

/// What the outcome of an action stands for.
pub open spec fn outcome_view(result: Result<(), String>) -> Result<(), Seq<char>> {
    match result {
        Ok(()) => Ok(()),
        Err(e) => Err(e@),
    }
}

impl View for ActionResult {
    type V = ActionResultView;

    open spec fn view(&self) -> ActionResultView {
        match self {
            ActionResult::Scan(r) => ActionResultView::Scan(outcome_view(*r)),
            ActionResult::Connect { path, result } => ActionResultView::Connect {
                path: path@,
                result: outcome_view(*result),
            },
            ActionResult::Disconnect(r) => ActionResultView::Disconnect(outcome_view(*r)),
            ActionResult::Forget(r) => ActionResultView::Forget(outcome_view(*r)),
            ActionResult::AutoConnect(r) => ActionResultView::AutoConnect(outcome_view(*r)),
        }
    }
}

// ---------------------------------------------------------------------------------------------
// The model
// ---------------------------------------------------------------------------------------------

/// `app` with an error shown from `now` on.
pub open spec fn with_error(app: AppView, error: Seq<char>, now: u64) -> AppView {
    AppView { header_error: Some(gist(error)), header_error_at: now, ..app }
}

/// `app` without an error.
pub open spec fn without_error(app: AppView) -> AppView {
    AppView { header_error: None, ..app }
}

/// Whether there is nothing to do to connect to a network: it is connected, or a connection is
/// being made.
pub open spec fn nothing_to_connect(app: AppView, network: NetworkView) -> bool {
    network.connected || app.pending_connect_path is Some
}

/// What connecting to the network under the cursor does: it needs a network there. One that
/// is connected, or a connection that is being made, leaves things as they are. One that is
/// neither known nor open opens the box for its password. Any other is connected to.
pub open spec fn connecting(app: AppView) -> (AppView, Result<Option<CommandView>, Seq<char>>) {
    match network_at_cursor(app) {
        None => (app, Err("No network selected"@)),
        Some(network) => if nothing_to_connect(app, network) {
            (app, Ok(None))
        } else if network.known_path is None && network.net_type != "open"@ {
            (
                AppView {
                    overlay: Some(
                        OverlayView::Password {
                            input: Seq::empty(),
                            visible: false,
                            network_path: network.path,
                            network_name: network.name,
                        },
                    ),
                    ..app
                },
                Ok(None),
            )
        } else {
            (
                AppView { pending_connect_path: Some(network.path), ..app },
                Ok(Some(CommandView::Connect { network_path: network.path })),
            )
        },
    }
}

/// What submitting the password does: it closes the box and connects, unless a connection is
/// being made.
pub open spec fn submitting(app: AppView) -> (AppView, Option<CommandView>) {
    match app.overlay {
        Some(
            OverlayView::Password { input, visible, network_path, network_name },
        ) if app.pending_connect_path is None => (
            AppView { pending_connect_path: Some(network_path), overlay: None, ..app },
            Some(CommandView::AgentConnect { network_path, password: input }),
        ),
        _ => (app, None),
    }
}

/// What confirming that a network is to be forgotten does.
pub open spec fn forgetting(app: AppView) -> (AppView, Option<CommandView>) {
    match app.overlay {
        Some(OverlayView::ForgetConfirm { known_path, network_name }) => (
            AppView { overlay: None, ..app },
            Some(CommandView::Forget { known_path }),
        ),
        _ => (app, None),
    }
}

/// What asking to toggle automatic connection does: it needs a known network under the cursor.
pub open spec fn toggling(app: AppView, now: u64) -> (AppView, Option<CommandView>) {
    match network_at_cursor(app) {
        None => (app, None),
        Some(network) => match network.known_path {
            None => (with_error(app, "Not a known network"@, now), None),
            Some(known_path) => (app, Some(CommandView::ToggleAutoConnect { known_path })),
        },
    }
}

/// What asking to forget a network does: it opens the box that asks for confirmation. It needs
/// a known network under the cursor.
pub open spec fn asking_to_forget(app: AppView, now: u64) -> AppView {
    match network_at_cursor(app) {
        None => app,
        Some(network) => match network.known_path {
            None => with_error(app, "Not a known network"@, now),
            Some(known_path) => AppView {
                overlay: Some(
                    OverlayView::ForgetConfirm { known_path, network_name: network.name },
                ),
                ..app
            },
        },
    }
}

/// The D-Bus objects of a list of adapters.
pub open spec fn adapter_paths(adapters: Seq<AdapterView>) -> Seq<Seq<char>> {
    adapters.map_values(|a: AdapterView| a.path)
}

/// The position of the adapter that comes after the one at `station_path`, from the last on to
/// the first; the first where there is no adapter at `station_path`.
pub open spec fn next_adapter(adapters: Seq<AdapterView>, station_path: Seq<char>) -> int {
    let at = index_of(adapter_paths(adapters), station_path);
    if at + 1 < adapters.len() {
        at + 1int
    } else {
        0
    }
}

/// What going on to the next adapter does: what was known of the connection is forgotten and
/// read anew. With a single adapter there is nowhere to go.
pub open spec fn cycling(app: AppView) -> (AppView, Option<CommandView>) {
    if app.adapters.len() < 2 {
        (app, None)
    } else {
        let next = app.adapters[next_adapter(app.adapters, app.station_path)];
        (
            AppView {
                station_path: next.path,
                interface_name: next.name,
                state: Seq::empty(),
                diagnostics: None,
                connected_since: None,
                detail_ipv4: None,
                ..app
            },
            Some(CommandView::Refresh),
        )
    }
}

/// What a key does while a box is open.
pub open spec fn overlay_key(app: AppView, key: KeyCode) -> (AppView, Option<CommandView>) {
    match app.overlay {
        Some(OverlayView::Password { input, visible, network_path, network_name }) => match key {
            KeyCode::Esc => (AppView { overlay: None, ..app }, None),
            KeyCode::Enter => submitting(app),
            KeyCode::Backspace => (
                AppView {
                    overlay: Some(
                        OverlayView::Password {
                            input: if input.len() > 0 {
                                input.drop_last()
                            } else {
                                input
                            },
                            visible,
                            network_path,
                            network_name,
                        },
                    ),
                    ..app
                },
                None,
            ),
            KeyCode::Char(c) => (
                AppView {
                    overlay: Some(
                        OverlayView::Password {
                            input: if c == 'v' {
                                input
                            } else {
                                input.push(c)
                            },
                            visible: (c == 'v') != visible,
                            network_path,
                            network_name,
                        },
                    ),
                    ..app
                },
                None,
            ),
            _ => (app, None),
        },
        Some(OverlayView::ForgetConfirm { known_path, network_name }) => match key {
            KeyCode::Char(c) => if c == 'y' {
                forgetting(app)
            } else if c == 'n' {
                (AppView { overlay: None, ..app }, None)
            } else {
                (app, None)
            },
            KeyCode::Esc => (AppView { overlay: None, ..app }, None),
            _ => (app, None),
        },
        None => (app, None),
    }
}

/// `app` with the cursor one network further down, unless it stands on the last.
pub open spec fn cursor_down(app: AppView) -> AppView {
    AppView {
        selected: if app.selected + 1 < app.networks.len() {
            app.selected + 1
        } else {
            app.selected
        },
        ..app
    }
}

/// `app` with the cursor one network further up, unless it stands on the first.
pub open spec fn cursor_up(app: AppView) -> AppView {
    AppView {
        selected: if app.selected > 0 {
            (app.selected - 1) as nat
        } else {
            0
        },
        ..app
    }
}

/// What a key does in the list.
pub open spec fn list_key(app: AppView, key: KeyCode, now: u64) -> (AppView, Option<CommandView>) {
    match key {
        KeyCode::Esc => (AppView { should_quit: true, ..app }, None),
        KeyCode::Down => (cursor_down(app), None),
        KeyCode::Up => (cursor_up(app), None),
        KeyCode::Tab => cycling(app),
        KeyCode::Enter => {
            let (after, outcome) = connecting(without_error(app));
            match outcome {
                Ok(command) => (after, command),
                Err(error) => (with_error(after, error, now), None),
            }
        },
        KeyCode::Char(c) => if c == 'q' {
            (AppView { should_quit: true, ..app }, None)
        } else if c == 'j' {
            (cursor_down(app), None)
        } else if c == 'k' {
            (cursor_up(app), None)
        } else if c == 's' {
            if app.scanning {
                (app, None)
            } else {
                (
                    without_error(app),
                    Some(CommandView::Scan { station_path: app.station_path }),
                )
            }
        } else if c == 'd' {
            (
                without_error(app),
                Some(CommandView::Disconnect { station_path: app.station_path }),
            )
        } else if c == 'f' {
            (asking_to_forget(without_error(app), now), None)
        } else if c == 'a' {
            toggling(without_error(app), now)
        } else {
            (app, None)
        },
        _ => (app, None),
    }
}

/// What a key does: an open box takes it; otherwise the list does.
pub open spec fn key_pressed(app: AppView, key: KeyCode, now: u64) -> (AppView, Option<
    CommandView,
>) {
    if app.overlay is Some {
        overlay_key(app, key)
    } else {
        list_key(app, key, now)
    }
}

/// What the answer to a command does, and whether the networks are to be read anew: a failure
/// is shown, a failed connection is no longer being made, and a network that was forgotten
/// changes the list.
pub open spec fn answered(app: AppView, answer: ActionResultView, now: u64) -> (AppView, bool) {
    match answer {
        ActionResultView::Connect { path, result: Err(e) } => (
            with_error(
                AppView {
                    pending_connect_path: if app.pending_connect_path == Some(path) {
                        None
                    } else {
                        app.pending_connect_path
                    },
                    ..app
                },
                e,
                now,
            ),
            false,
        ),
        ActionResultView::Scan(Err(e)) => (with_error(app, e, now), false),
        ActionResultView::Disconnect(Err(e)) => (with_error(app, e, now), false),
        ActionResultView::Forget(Err(e)) => (with_error(app, e, now), false),
        ActionResultView::AutoConnect(Err(e)) => (with_error(app, e, now), false),
        ActionResultView::Forget(Ok(())) => (app, true),
        _ => (app, false),
    }
}

// ---------------------------------------------------------------------------------------------
// The program
// ---------------------------------------------------------------------------------------------

/// Finds the adapter at a D-Bus object; the length of the list where there is none.
pub fn find_adapter(adapters: &Vec<Adapter>, path: &str) -> (res: usize)
    ensures
        res == index_of(adapter_paths(adapter_views(adapters@)), path@),
        res <= adapters@.len(),
{
    let ghost paths = adapter_paths(adapter_views(adapters@));
    let mut at: usize = 0;
    while at < adapters.len() && !same_text(adapters[at].path.as_str(), path)
        invariant
            at <= adapters@.len(),
            paths == adapter_paths(adapter_views(adapters@)),
            forall|i: int| 0 <= i < at ==> #[trigger] paths[i] != path@,
        decreases adapters@.len() - at,
    {
        at += 1;
    }
    proof {
        lemma_index_of(paths, path@, at as nat);
    }
    at
}

impl App {
    /// Shows the gist of an error in the header.
    pub fn set_error(&mut self, error: &str, now: u64)
        ensures
            final(self)@ == with_error(old(self)@, error@, now),
    {
        self.header_error = Some(condense_error(error));
        self.header_error_at = now;
    }

    /// Takes the error out of the header.
    pub fn clear_action_error(&mut self)
        ensures
            final(self)@ == without_error(old(self)@),
    {
        self.header_error = None;
    }

    /// Whether connecting to a network would change nothing.
    pub fn connect_is_idempotent_noop(&self, network: &Network) -> (res: bool)
        ensures
            res == nothing_to_connect(self@, network@),
    {
        network.connected || self.pending_connect_path.is_some()
    }

    /// Looks for networks.
    pub fn scan(&self) -> (res: Command)
        ensures
            res@ == (CommandView::Scan { station_path: self@.station_path }),
    {
        Command::Scan { station_path: self.station_path.clone() }
    }

    /// Leaves the current network.
    pub fn disconnect(&self) -> (res: Command)
        ensures
            res@ == (CommandView::Disconnect { station_path: self@.station_path }),
    {
        Command::Disconnect { station_path: self.station_path.clone() }
    }

    /// Connects to the network under the cursor.
    pub fn connect_selected(&mut self) -> (res: Result<Option<Command>, String>)
        ensures
            final(self)@ == connecting(old(self)@).0,
            match res {
                Ok(command) => connecting(old(self)@).1 == Ok::<Option<CommandView>, Seq<char>>(
                    command_view(command),
                ),
                Err(error) => connecting(old(self)@).1 == Err::<Option<CommandView>, Seq<char>>(
                    error@,
                ),
            },
    {
        let (network_path, network_name, known, open, noop) = match self.selected_network() {
            None => {
                return Err("No network selected".to_owned());
            },
            Some(network) => (
                network.path.clone(),
                network.name.clone(),
                network.is_known(),
                same_text(network.net_type.as_str(), "open"),
                self.connect_is_idempotent_noop(network),
            ),
        };
        if noop {
            return Ok(None);
        }
        if !known && !open {
            self.overlay = Some(
                Overlay::Password {
                    input: String::new(),
                    visible: false,
                    network_path,
                    network_name,
                },
            );
            return Ok(None);
        }
        self.pending_connect_path = Some(network_path.clone());
        Ok(Some(Command::Connect { network_path }))
    }

    /// Connects with the password that was typed.
    pub fn agent_connect_selected(&mut self) -> (res: Option<Command>)
        ensures
            final(self)@ == submitting(old(self)@).0,
            command_view(res) == submitting(old(self)@).1,
    {
        if self.pending_connect_path.is_some() {
            return None;
        }
        let (network_path, password) = match &self.overlay {
            Some(Overlay::Password { input, network_path, .. }) => (
                network_path.clone(),
                input.clone(),
            ),
            _ => {
                return None;
            },
        };
        self.pending_connect_path = Some(network_path.clone());
        self.overlay = None;
        Some(Command::AgentConnect { network_path, password })
    }

    /// Forgets the network that the open box asks about.
    pub fn forget_network(&mut self) -> (res: Option<Command>)
        ensures
            final(self)@ == forgetting(old(self)@).0,
            command_view(res) == forgetting(old(self)@).1,
    {
        let known_path = match &self.overlay {
            Some(Overlay::ForgetConfirm { known_path, .. }) => known_path.clone(),
            _ => {
                return None;
            },
        };
        self.overlay = None;
        Some(Command::Forget { known_path })
    }

    /// Turns automatic connection to the network under the cursor on or off.
    pub fn toggle_autoconnect(&mut self, now: u64) -> (res: Option<Command>)
        ensures
            final(self)@ == toggling(old(self)@, now).0,
            command_view(res) == toggling(old(self)@, now).1,
    {
        let known_path = match self.selected_network() {
            None => {
                return None;
            },
            Some(network) => network.known_path.clone(),
        };
        match known_path {
            None => {
                self.set_error("Not a known network", now);
                None
            },
            Some(known_path) => Some(Command::ToggleAutoConnect { known_path }),
        }
    }

    /// Asks whether to forget the network under the cursor.
    pub fn ask_to_forget(&mut self, now: u64)
        ensures
            final(self)@ == asking_to_forget(old(self)@, now),
    {
        let (known_path, network_name) = match self.selected_network() {
            None => {
                return ;
            },
            Some(network) => (network.known_path.clone(), network.name.clone()),
        };
        match known_path {
            None => {
                self.set_error("Not a known network", now);
            },
            Some(known_path) => {
                self.overlay = Some(Overlay::ForgetConfirm { known_path, network_name });
            },
        }
    }

    /// Goes on to the next adapter.
    pub fn cycle_adapter(&mut self) -> (res: Option<Command>)
        ensures
            final(self)@ == cycling(old(self)@).0,
            command_view(res) == cycling(old(self)@).1,
    {
        if self.adapters.len() < 2 {
            return None;
        }
        let at = find_adapter(&self.adapters, self.station_path.as_str());
        let next: usize = if at < self.adapters.len() - 1 { at + 1 } else { 0 };
        assert(adapter_views(self.adapters@)[next as int] == self.adapters@[next as int]@);
        self.station_path = self.adapters[next].path.clone();
        self.interface_name = self.adapters[next].name.clone();
        self.state = String::new();
        self.diagnostics = None;
        self.connected_since = None;
        self.detail_ipv4 = None;
        Some(Command::Refresh)
    }

    /// Handles a key while a box is open.
    pub fn handle_overlay_key(&mut self, code: KeyCode) -> (res: Option<Command>)
        ensures
            final(self)@ == overlay_key(old(self)@, code).0,
            command_view(res) == overlay_key(old(self)@, code).1,
    {
        match &mut self.overlay {
            Some(Overlay::Password { input, visible, .. }) => match code {
                KeyCode::Esc => {
                    self.overlay = None;
                    None
                },
                KeyCode::Enter => self.agent_connect_selected(),
                KeyCode::Backspace => {
                    input.pop();
                    None
                },
                KeyCode::Char(c) => {
                    if c == 'v' {
                        *visible = !*visible;
                    } else {
                        input.push(c);
                    }
                    None
                },
                _ => None,
            },
            Some(Overlay::ForgetConfirm { .. }) => match code {
                KeyCode::Char(c) => {
                    if c == 'y' {
                        self.forget_network()
                    } else {
                        if c == 'n' {
                            self.overlay = None;
                        }
                        None
                    }
                },
                KeyCode::Esc => {
                    self.overlay = None;
                    None
                },
                _ => None,
            },
            None => None,
        }
    }

    /// Moves the cursor one network further down.
    pub fn move_down(&mut self)
        ensures
            final(self)@ == cursor_down(old(self)@),
    {
        if self.selected < self.networks.len().saturating_sub(1) {
            self.selected += 1;
        }
    }

    /// Moves the cursor one network further up.
    pub fn move_up(&mut self)
        ensures
            final(self)@ == cursor_up(old(self)@),
    {
        self.selected = self.selected.saturating_sub(1);
    }

    /// Handles a key.
    pub fn handle_key(&mut self, code: KeyCode, now: u64) -> (res: Option<Command>)
        ensures
            final(self)@ == key_pressed(old(self)@, code, now).0,
            command_view(res) == key_pressed(old(self)@, code, now).1,
    {
        if self.overlay.is_some() {
            return self.handle_overlay_key(code);
        }
        match code {
            KeyCode::Esc => {
                self.should_quit = true;
                None
            },
            KeyCode::Down => {
                self.move_down();
                None
            },
            KeyCode::Up => {
                self.move_up();
                None
            },
            KeyCode::Tab => self.cycle_adapter(),
            KeyCode::Enter => {
                self.clear_action_error();
                match self.connect_selected() {
                    Ok(command) => command,
                    Err(error) => {
                        self.set_error(error.as_str(), now);
                        None
                    },
                }
            },
            KeyCode::Char(c) => {
                if c == 'q' {
                    self.should_quit = true;
                    None
                } else if c == 'j' {
                    self.move_down();
                    None
                } else if c == 'k' {
                    self.move_up();
                    None
                } else if c == 's' {
                    if self.scanning {
                        return None;
                    }
                    self.clear_action_error();
                    Some(self.scan())
                } else if c == 'd' {
                    self.clear_action_error();
                    Some(self.disconnect())
                } else if c == 'f' {
                    self.clear_action_error();
                    self.ask_to_forget(now);
                    None
                } else if c == 'a' {
                    self.clear_action_error();
                    self.toggle_autoconnect(now)
                } else {
                    None
                }
            },
            _ => None,
        }
    }

    /// Takes in the answer to a command. Says whether the networks are to be read anew.
    pub fn apply_action_result(&mut self, answer: ActionResult, now: u64) -> (refresh: bool)
        ensures
            final(self)@ == answered(old(self)@, answer@, now).0,
            refresh == answered(old(self)@, answer@, now).1,
    {
        match answer {
            ActionResult::Connect { path, result: Err(e) } => {
                let failed = match &self.pending_connect_path {
                    Some(pending) => same_text(pending.as_str(), path.as_str()),
                    None => false,
                };
                if failed {
                    self.pending_connect_path = None;
                }
                self.set_error(e.as_str(), now);
                false
            },
            ActionResult::Scan(Err(e)) => {
                self.set_error(e.as_str(), now);
                false
            },
            ActionResult::Disconnect(Err(e)) => {
                self.set_error(e.as_str(), now);
                false
            },
            ActionResult::Forget(Err(e)) => {
                self.set_error(e.as_str(), now);
                false
            },
            ActionResult::AutoConnect(Err(e)) => {
                self.set_error(e.as_str(), now);
                false
            },
            ActionResult::Forget(Ok(())) => true,
            _ => false,
        }
    }
}

} // verus!
