//! Connecting to a network with a password, through an agent that iwd asks for it.

use vstd::prelude::*;

use crate::bus::{
    MethodCall, MethodCallView, PropertyRead, PropertyReadView, AGENT_PATH, IWD_AGENT_MANAGER,
    IWD_NETWORK, IWD_ROOT, IWD_STATION,
};
use crate::keys::{outcome_view, Command, CommandView};
use crate::network::text_of;
use crate::split::{after_last, contains, last_part, occurs, texts};
use crate::text::{push_text, same_text};

verus! {

/// How often to look whether the station has left its network.
pub const LEAVE_POLLS: u32 = 20;

/// How long to wait before each such look, in milliseconds.
pub const LEAVE_POLL_MS: u64 = 50;

/// How long a connection may take, in milliseconds.
pub const CONNECT_LIMIT_MS: u64 = 30_000;

/// How long the station may stay disconnected before it starts to connect, in milliseconds.
pub const CONNECT_GRACE_MS: u64 = 5_000;

/// How long to wait for messages, in milliseconds.
pub const MESSAGE_WAIT_MS: u64 = 250;

// ---------------------------------------------------------------------------------------------
// One session
// ---------------------------------------------------------------------------------------------

/// What a session with an agent waits for.
pub enum AgentPhase {
    Opening,
    Finding,
    Checking,
    Disconnecting,
    Leaving { polls: u32 },
    Clearing,
    Registering,
    Sending,
    Draining,
    Collecting,
    Asking,
    Watching,
    Waiting,
    Closing { result: Result<(), String> },
    Finished { result: Result<(), String> },
}

/// What an [`AgentPhase`] stands for.
#[verifier::ext_equal]
pub enum AgentPhaseView {
    Opening,
    Finding,
    Checking,
    Disconnecting,
    Leaving { polls: u32 },
    Clearing,
    Registering,
    Sending,
    Draining,
    Collecting,
    Asking,
    Watching,
    Waiting,
    Closing { result: Result<(), Seq<char>> },
    Finished { result: Result<(), Seq<char>> },
}

impl View for AgentPhase {
    type V = AgentPhaseView;

    open spec fn view(&self) -> AgentPhaseView {
        match self {
            AgentPhase::Opening => AgentPhaseView::Opening,
            AgentPhase::Finding => AgentPhaseView::Finding,
            AgentPhase::Checking => AgentPhaseView::Checking,
            AgentPhase::Disconnecting => AgentPhaseView::Disconnecting,
            AgentPhase::Leaving { polls } => AgentPhaseView::Leaving { polls: *polls },
            AgentPhase::Clearing => AgentPhaseView::Clearing,
            AgentPhase::Registering => AgentPhaseView::Registering,
            AgentPhase::Sending => AgentPhaseView::Sending,
            AgentPhase::Draining => AgentPhaseView::Draining,
            AgentPhase::Collecting => AgentPhaseView::Collecting,
            AgentPhase::Asking => AgentPhaseView::Asking,
            AgentPhase::Watching => AgentPhaseView::Watching,
            AgentPhase::Waiting => AgentPhaseView::Waiting,
            AgentPhase::Closing { result } => AgentPhaseView::Closing {
                result: outcome_view(*result),
            },
            AgentPhase::Finished { result } => AgentPhaseView::Finished {
                result: outcome_view(*result),
            },
        }
    }
}

/// What is to be done next in a session.
pub enum AgentAction {
    /// Open the system bus and answer there, with the password, when iwd asks the agent for one.
    OpenBus { password: String },
    /// Find the station.
    FindStation,
    /// Read the state of the station.
    ReadState { station_path: String },
    /// Tell the station to leave its network.
    Disconnect { station_path: String },
    /// Wait for [`LEAVE_POLL_MS`] and read the state of the station.
    WaitAndReadState { station_path: String },
    /// Take the agent back from iwd.
    UnregisterAgent,
    /// Give the agent to iwd.
    RegisterAgent,
    /// Send the request to connect, without waiting for the answer.
    SendConnect { network_path: String },
    /// Handle the messages that have arrived.
    DrainMessages,
    /// Take the error that the request was answered with, if it was.
    TakeError,
    /// Read whether the network is connected.
    ReadConnected { network_path: String },
    /// Wait for messages, for at most [`MESSAGE_WAIT_MS`].
    WaitForMessages,
    /// Nothing more.
    Done(Result<(), String>),
}

/// What an [`AgentAction`] stands for.
#[verifier::ext_equal]
pub enum AgentActionView {
    OpenBus { password: Seq<char> },
    FindStation,
    ReadState { station_path: Seq<char> },
    Disconnect { station_path: Seq<char> },
    WaitAndReadState { station_path: Seq<char> },
    UnregisterAgent,
    RegisterAgent,
    SendConnect { network_path: Seq<char> },
    DrainMessages,
    TakeError,
    ReadConnected { network_path: Seq<char> },
    WaitForMessages,
    Done(Result<(), Seq<char>>),
}

impl View for AgentAction {
    type V = AgentActionView;

    open spec fn view(&self) -> AgentActionView {
        match self {
            AgentAction::OpenBus { password } => AgentActionView::OpenBus { password: password@ },
            AgentAction::FindStation => AgentActionView::FindStation,
            AgentAction::ReadState { station_path } => AgentActionView::ReadState {
                station_path: station_path@,
            },
            AgentAction::Disconnect { station_path } => AgentActionView::Disconnect {
                station_path: station_path@,
            },
            AgentAction::WaitAndReadState { station_path } => AgentActionView::WaitAndReadState {
                station_path: station_path@,
            },
            AgentAction::UnregisterAgent => AgentActionView::UnregisterAgent,
            AgentAction::RegisterAgent => AgentActionView::RegisterAgent,
            AgentAction::SendConnect { network_path } => AgentActionView::SendConnect {
                network_path: network_path@,
            },
            AgentAction::DrainMessages => AgentActionView::DrainMessages,
            AgentAction::TakeError => AgentActionView::TakeError,
            AgentAction::ReadConnected { network_path } => AgentActionView::ReadConnected {
                network_path: network_path@,
            },
            AgentAction::WaitForMessages => AgentActionView::WaitForMessages,
            AgentAction::Done(result) => AgentActionView::Done(outcome_view(*result)),
        }
    }
}

/// A call with an object's path for its argument, or without one.
pub struct AgentCall {
    pub call: MethodCall,
    pub argument: Option<String>,
}

/// What an [`AgentCall`] stands for.
#[verifier::ext_equal]
pub struct AgentCallView {
    pub call: MethodCallView,
    pub argument: Option<Seq<char>>,
}

impl View for AgentCall {
    type V = AgentCallView;

    open spec fn view(&self) -> AgentCallView {
        AgentCallView { call: self.call@, argument: text_of(self.argument) }
    }
}

/// The call that gives the agent to iwd or takes it back.
pub open spec fn manager_call(method: Seq<char>) -> AgentCallView {
    AgentCallView {
        call: MethodCallView { path: IWD_ROOT@, interface: IWD_AGENT_MANAGER@, method },
        argument: Some(AGENT_PATH@),
    }
}

/// The call that an action makes: the request to connect goes to the network, the one to leave
/// goes to the station, and the agent is given to iwd and taken back by its path.
pub open spec fn call_of_action(action: AgentActionView) -> Option<AgentCallView> {
    match action {
        AgentActionView::SendConnect { network_path } => Some(
            AgentCallView {
                call: MethodCallView {
                    path: network_path,
                    interface: IWD_NETWORK@,
                    method: "Connect"@,
                },
                argument: None,
            },
        ),
        AgentActionView::Disconnect { station_path } => Some(
            AgentCallView {
                call: MethodCallView {
                    path: station_path,
                    interface: IWD_STATION@,
                    method: "Disconnect"@,
                },
                argument: None,
            },
        ),
        AgentActionView::RegisterAgent => Some(manager_call("RegisterAgent"@)),
        AgentActionView::UnregisterAgent => Some(manager_call("UnregisterAgent"@)),
        _ => None,
    }
}

/// The property that an action reads.
pub open spec fn read_of_action(action: AgentActionView) -> Option<PropertyReadView> {
    match action {
        AgentActionView::ReadState { station_path } => Some(
            PropertyReadView { path: station_path, interface: IWD_STATION@, property: "State"@ },
        ),
        AgentActionView::WaitAndReadState { station_path } => Some(
            PropertyReadView { path: station_path, interface: IWD_STATION@, property: "State"@ },
        ),
        AgentActionView::ReadConnected { network_path } => Some(
            PropertyReadView {
                path: network_path,
                interface: IWD_NETWORK@,
                property: "Connected"@,
            },
        ),
        _ => None,
    }
}

fn call_manager(method: &str) -> (res: AgentCall)
    ensures
        res@ == manager_call(method@),
{
    AgentCall {
        call: MethodCall {
            path: IWD_ROOT.to_owned(),
            interface: IWD_AGENT_MANAGER.to_owned(),
            method: method.to_owned(),
        },
        argument: Some(AGENT_PATH.to_owned()),
    }
}

/// The call that an action makes, where it makes one.
pub fn agent_call(action: &AgentAction) -> (res: Option<AgentCall>)
    ensures
        match call_of_action(action@) {
            Some(call) => res matches Some(r) && r@ == call,
            None => res is None,
        },
{
    match action {
        AgentAction::SendConnect { network_path } => Some(
            AgentCall {
                call: MethodCall {
                    path: network_path.clone(),
                    interface: IWD_NETWORK.to_owned(),
                    method: "Connect".to_owned(),
                },
                argument: None,
            },
        ),
        AgentAction::Disconnect { station_path } => Some(
            AgentCall {
                call: MethodCall {
                    path: station_path.clone(),
                    interface: IWD_STATION.to_owned(),
                    method: "Disconnect".to_owned(),
                },
                argument: None,
            },
        ),
        AgentAction::RegisterAgent => Some(call_manager("RegisterAgent")),
        AgentAction::UnregisterAgent => Some(call_manager("UnregisterAgent")),
        _ => None,
    }
}

fn state_of(station_path: &String) -> (res: PropertyRead)
    ensures
        res@ == (PropertyReadView {
            path: station_path@,
            interface: IWD_STATION@,
            property: "State"@,
        }),
{
    PropertyRead {
        path: station_path.clone(),
        interface: IWD_STATION.to_owned(),
        property: "State".to_owned(),
    }
}

/// The property that an action reads, where it reads one.
pub fn agent_read(action: &AgentAction) -> (res: Option<PropertyRead>)
    ensures
        match read_of_action(action@) {
            Some(read) => res matches Some(r) && r@ == read,
            None => res is None,
        },
{
    match action {
        AgentAction::ReadState { station_path } => Some(state_of(station_path)),
        AgentAction::WaitAndReadState { station_path } => Some(state_of(station_path)),
        AgentAction::ReadConnected { network_path } => Some(
            PropertyRead {
                path: network_path.clone(),
                interface: IWD_NETWORK.to_owned(),
                property: "Connected".to_owned(),
            },
        ),
        _ => None,
    }
}

/// What became of the request to connect.
pub enum SendOutcome {
    Sent,
    /// It could not be put together.
    BadMessage(String),
    /// It could not be sent.
    NotSent,
}

/// What a [`SendOutcome`] stands for.
#[verifier::ext_equal]
pub enum SendOutcomeView {
    Sent,
    BadMessage(Seq<char>),
    NotSent,
}

impl View for SendOutcome {
    type V = SendOutcomeView;

    open spec fn view(&self) -> SendOutcomeView {
        match self {
            SendOutcome::Sent => SendOutcomeView::Sent,
            SendOutcome::BadMessage(e) => SendOutcomeView::BadMessage(e@),
            SendOutcome::NotSent => SendOutcomeView::NotSent,
        }
    }
}

/// What came of an action.
pub enum AgentEvent {
    BusOpened(Result<(), String>),
    /// The station's path, where there is one.
    StationFound(Result<String, String>),
    /// The state of the station, where it could be read.
    State(Option<String>),
    /// The station was told to leave its network.
    Disconnected,
    Unregistered,
    Registered(Result<(), String>),
    Sent(SendOutcome),
    Drained(Result<(), String>),
    /// The name of the error that the request was answered with, if it was.
    Error(Option<String>),
    /// Whether the network is connected, where that could be read.
    Connected(Option<bool>),
    Waited,
}

/// What an [`AgentEvent`] stands for.
#[verifier::ext_equal]
pub enum AgentEventView {
    BusOpened(Result<(), Seq<char>>),
    StationFound(Result<Seq<char>, Seq<char>>),
    State(Option<Seq<char>>),
    Disconnected,
    Unregistered,
    Registered(Result<(), Seq<char>>),
    Sent(SendOutcomeView),
    Drained(Result<(), Seq<char>>),
    Error(Option<Seq<char>>),
    Connected(Option<bool>),
    Waited,
}

impl View for AgentEvent {
    type V = AgentEventView;

    open spec fn view(&self) -> AgentEventView {
        match self {
            AgentEvent::BusOpened(r) => AgentEventView::BusOpened(outcome_view(*r)),
            AgentEvent::StationFound(r) => AgentEventView::StationFound(
                match r {
                    Ok(path) => Ok(path@),
                    Err(e) => Err(e@),
                },
            ),
            AgentEvent::State(s) => AgentEventView::State(text_of(*s)),
            AgentEvent::Disconnected => AgentEventView::Disconnected,
            AgentEvent::Unregistered => AgentEventView::Unregistered,
            AgentEvent::Registered(r) => AgentEventView::Registered(outcome_view(*r)),
            AgentEvent::Sent(o) => AgentEventView::Sent(o@),
            AgentEvent::Drained(r) => AgentEventView::Drained(outcome_view(*r)),
            AgentEvent::Error(e) => AgentEventView::Error(text_of(*e)),
            AgentEvent::Connected(c) => AgentEventView::Connected(*c),
            AgentEvent::Waited => AgentEventView::Waited,
        }
    }
}

/// A session with an agent.
pub struct AgentSession {
    /// The network to connect to.
    pub network_path: String,
    /// The password that the agent hands out.
    pub password: String,
    /// The station, once it has been found.
    pub station_path: String,
    pub phase: AgentPhase,
    /// Whether the station has been seen to connect.
    pub seen_connecting: bool,
    /// When the request to connect was sent, in milliseconds.
    pub started_at: u64,
}

/// What an [`AgentSession`] stands for.
#[verifier::ext_equal]
pub struct AgentSessionView {
    pub network_path: Seq<char>,
    pub password: Seq<char>,
    pub station_path: Seq<char>,
    pub phase: AgentPhaseView,
    pub seen_connecting: bool,
    pub started_at: u64,
}

impl View for AgentSession {
    type V = AgentSessionView;

    open spec fn view(&self) -> AgentSessionView {
        AgentSessionView {
            network_path: self.network_path@,
            password: self.password@,
            station_path: self.station_path@,
            phase: self.phase@,
            seen_connecting: self.seen_connecting,
            started_at: self.started_at,
        }
    }
}

/// A session as it begins.
pub open spec fn session_start(network_path: Seq<char>, password: Seq<char>) -> AgentSessionView {
    AgentSessionView {
        network_path,
        password,
        station_path: Seq::empty(),
        phase: AgentPhaseView::Opening,
        seen_connecting: false,
        started_at: 0,
    }
}

/// What is to be done next in a session.
pub open spec fn agent_action(s: AgentSessionView) -> AgentActionView {
    match s.phase {
        AgentPhaseView::Opening => AgentActionView::OpenBus { password: s.password },
        AgentPhaseView::Finding => AgentActionView::FindStation,
        AgentPhaseView::Checking => AgentActionView::ReadState { station_path: s.station_path },
        AgentPhaseView::Disconnecting => AgentActionView::Disconnect {
            station_path: s.station_path,
        },
        AgentPhaseView::Leaving { .. } => AgentActionView::WaitAndReadState {
            station_path: s.station_path,
        },
        AgentPhaseView::Clearing => AgentActionView::UnregisterAgent,
        AgentPhaseView::Registering => AgentActionView::RegisterAgent,
        AgentPhaseView::Sending => AgentActionView::SendConnect { network_path: s.network_path },
        AgentPhaseView::Draining => AgentActionView::DrainMessages,
        AgentPhaseView::Collecting => AgentActionView::TakeError,
        AgentPhaseView::Asking => AgentActionView::ReadConnected { network_path: s.network_path },
        AgentPhaseView::Watching => AgentActionView::ReadState { station_path: s.station_path },
        AgentPhaseView::Waiting => AgentActionView::WaitForMessages,
        AgentPhaseView::Closing { .. } => AgentActionView::UnregisterAgent,
        AgentPhaseView::Finished { result } => AgentActionView::Done(result),
    }
}

/// Whether a state that was read is `wanted`. One that could not be read is no state.
pub open spec fn state_is(state: Option<Seq<char>>, wanted: Seq<char>) -> bool {
    state == Some(wanted)
}

/// What an error that the request was answered with is called: by the last part of its name,
/// and `InProgress` where that occurs anywhere in it.
pub open spec fn connect_error(name: Seq<char>) -> Seq<char> {
    if occurs(name, "InProgress"@) {
        "InProgress"@
    } else {
        last_part(name, "."@)
    }
}

/// What follows when the state of the station was read while it connects: it is given up when
/// the station is disconnected, after it was seen to connect or the grace has passed, and when
/// the time is up.
pub open spec fn watched(
    s: AgentSessionView,
    state: Option<Seq<char>>,
    now: u64,
) -> AgentSessionView {
    let seen = s.seen_connecting || state_is(state, "connecting"@);
    let phase = if state_is(state, "disconnected"@) && (seen || now > s.started_at
        + CONNECT_GRACE_MS) {
        AgentPhaseView::Closing { result: Err("Connection failed"@) }
    } else if now >= s.started_at + CONNECT_LIMIT_MS {
        AgentPhaseView::Closing { result: Err("Connection timed out"@) }
    } else {
        AgentPhaseView::Waiting
    };
    AgentSessionView { phase, seen_connecting: seen, ..s }
}

/// What a session does with the outcome of its action. Any other event leaves it as it is.
pub open spec fn agent_advance(
    s: AgentSessionView,
    event: AgentEventView,
    now: u64,
) -> AgentSessionView {
    match (s.phase, event) {
        (AgentPhaseView::Opening, AgentEventView::BusOpened(r)) => AgentSessionView {
            phase: match r {
                Ok(()) => AgentPhaseView::Finding,
                Err(e) => AgentPhaseView::Finished { result: Err(e) },
            },
            ..s
        },
        (AgentPhaseView::Finding, AgentEventView::StationFound(r)) => match r {
            Ok(path) => AgentSessionView {
                station_path: path,
                phase: AgentPhaseView::Checking,
                ..s
            },
            Err(e) => AgentSessionView {
                phase: AgentPhaseView::Finished { result: Err(e) },
                ..s
            },
        },
        (AgentPhaseView::Checking, AgentEventView::State(state)) => AgentSessionView {
            phase: if state_is(state, "disconnected"@) {
                AgentPhaseView::Clearing
            } else {
                AgentPhaseView::Disconnecting
            },
            ..s
        },
        (AgentPhaseView::Disconnecting, AgentEventView::Disconnected) => AgentSessionView {
            phase: AgentPhaseView::Leaving { polls: 0 },
            ..s
        },
        (AgentPhaseView::Leaving { polls }, AgentEventView::State(state)) => AgentSessionView {
            phase: if state_is(state, "disconnected"@) || polls + 1 >= LEAVE_POLLS {
                AgentPhaseView::Clearing
            } else {
                AgentPhaseView::Leaving { polls: (polls + 1) as u32 }
            },
            ..s
        },
        (AgentPhaseView::Clearing, AgentEventView::Unregistered) => AgentSessionView {
            phase: AgentPhaseView::Registering,
            ..s
        },
        (AgentPhaseView::Registering, AgentEventView::Registered(r)) => AgentSessionView {
            phase: match r {
                Ok(()) => AgentPhaseView::Sending,
                Err(e) => AgentPhaseView::Finished { result: Err(e) },
            },
            ..s
        },
        (AgentPhaseView::Sending, AgentEventView::Sent(outcome)) => match outcome {
            SendOutcomeView::Sent => AgentSessionView {
                phase: AgentPhaseView::Draining,
                started_at: now,
                ..s
            },
            SendOutcomeView::BadMessage(e) => AgentSessionView {
                phase: AgentPhaseView::Closing { result: Err(e) },
                ..s
            },
            SendOutcomeView::NotSent => AgentSessionView {
                phase: AgentPhaseView::Closing { result: Err("Failed to send Connect"@) },
                ..s
            },
        },
        (AgentPhaseView::Draining, AgentEventView::Drained(r)) => AgentSessionView {
            phase: match r {
                Ok(()) => AgentPhaseView::Collecting,
                Err(e) => AgentPhaseView::Closing { result: Err("D-Bus error: "@ + e) },
            },
            ..s
        },
        (AgentPhaseView::Collecting, AgentEventView::Error(error)) => AgentSessionView {
            phase: match error {
                None => AgentPhaseView::Asking,
                Some(name) => AgentPhaseView::Closing { result: Err(connect_error(name)) },
            },
            ..s
        },
        (AgentPhaseView::Asking, AgentEventView::Connected(connected)) => AgentSessionView {
            phase: if connected == Some(true) {
                AgentPhaseView::Closing { result: Ok(()) }
            } else {
                AgentPhaseView::Watching
            },
            ..s
        },
        (AgentPhaseView::Watching, AgentEventView::State(state)) => watched(s, state, now),
        (AgentPhaseView::Waiting, AgentEventView::Waited) => AgentSessionView {
            phase: AgentPhaseView::Draining,
            ..s
        },
        (AgentPhaseView::Closing { result }, AgentEventView::Unregistered) => AgentSessionView {
            phase: AgentPhaseView::Finished { result },
            ..s
        },
        _ => s,
    }
}

fn same_outcome(result: &Result<(), String>) -> (res: Result<(), String>)
    ensures
        outcome_view(res) == outcome_view(*result),
{
    match result {
        Ok(()) => Ok(()),
        Err(e) => Err(e.clone()),
    }
}

fn reads(state: &Option<String>, wanted: &str) -> (res: bool)
    ensures
        res == state_is(text_of(*state), wanted@),
{
    match state {
        Some(state) => same_text(state.as_str(), wanted),
        None => false,
    }
}

fn error_label(name: &str) -> (res: String)
    ensures
        res@ == connect_error(name@),
{
    if contains(name, "InProgress") {
        "InProgress".to_owned()
    } else {
        proof {
            reveal_strlit(".");
        }
        after_last(name, ".")
    }
}

fn finished_or(result: Result<(), String>, next: AgentPhase) -> (res: AgentPhase)
    ensures
        res@ == (match outcome_view(result) {
            Ok(()) => next@,
            Err(e) => AgentPhaseView::Finished { result: Err(e) },
        }),
{
    match result {
        Ok(()) => next,
        Err(e) => AgentPhase::Finished { result: Err(e) },
    }
}

impl AgentSession {
    /// A session that connects to a network with a password, as it begins.
    pub fn new(network_path: String, password: String) -> (res: AgentSession)
        ensures
            res@ == session_start(network_path@, password@),
    {
        AgentSession {
            network_path,
            password,
            station_path: String::new(),
            phase: AgentPhase::Opening,
            seen_connecting: false,
            started_at: 0,
        }
    }

    /// Says what is to be done next.
    pub fn action(&self) -> (res: AgentAction)
        ensures
            res@ == agent_action(self@),
    {
        match &self.phase {
            AgentPhase::Opening => AgentAction::OpenBus { password: self.password.clone() },
            AgentPhase::Finding => AgentAction::FindStation,
            AgentPhase::Checking => AgentAction::ReadState {
                station_path: self.station_path.clone(),
            },
            AgentPhase::Disconnecting => AgentAction::Disconnect {
                station_path: self.station_path.clone(),
            },
            AgentPhase::Leaving { .. } => AgentAction::WaitAndReadState {
                station_path: self.station_path.clone(),
            },
            AgentPhase::Clearing => AgentAction::UnregisterAgent,
            AgentPhase::Registering => AgentAction::RegisterAgent,
            AgentPhase::Sending => AgentAction::SendConnect {
                network_path: self.network_path.clone(),
            },
            AgentPhase::Draining => AgentAction::DrainMessages,
            AgentPhase::Collecting => AgentAction::TakeError,
            AgentPhase::Asking => AgentAction::ReadConnected {
                network_path: self.network_path.clone(),
            },
            AgentPhase::Watching => AgentAction::ReadState {
                station_path: self.station_path.clone(),
            },
            AgentPhase::Waiting => AgentAction::WaitForMessages,
            AgentPhase::Closing { .. } => AgentAction::UnregisterAgent,
            AgentPhase::Finished { result } => AgentAction::Done(same_outcome(result)),
        }
    }

    fn watch(&mut self, state: &Option<String>, now: u64)
        ensures
            final(self)@ == watched(old(self)@, text_of(*state), now),
    {
        if reads(state, "connecting") {
            self.seen_connecting = true;
        }
        let elapsed: u64 = if now >= self.started_at {
            now - self.started_at
        } else {
            0
        };
        if reads(state, "disconnected") && (self.seen_connecting || elapsed > CONNECT_GRACE_MS) {
            self.phase = AgentPhase::Closing { result: Err("Connection failed".to_owned()) };
        } else if elapsed >= CONNECT_LIMIT_MS {
            self.phase = AgentPhase::Closing { result: Err("Connection timed out".to_owned()) };
        } else {
            self.phase = AgentPhase::Waiting;
        }
    }

    /// Takes in what came of the action that was to be done.
    pub fn agent_connect_once(&mut self, event: AgentEvent, now: u64)
        ensures
            final(self)@ == agent_advance(old(self)@, event@, now),
    {
        match (&self.phase, event) {
            (AgentPhase::Opening, AgentEvent::BusOpened(r)) => {
                self.phase = finished_or(r, AgentPhase::Finding);
            },
            (AgentPhase::Finding, AgentEvent::StationFound(r)) => {
                match r {
                    Ok(path) => {
                        self.station_path = path;
                        self.phase = AgentPhase::Checking;
                    },
                    Err(e) => {
                        self.phase = AgentPhase::Finished { result: Err(e) };
                    },
                }
            },
            (AgentPhase::Checking, AgentEvent::State(state)) => {
                self.phase = if reads(&state, "disconnected") {
                    AgentPhase::Clearing
                } else {
                    AgentPhase::Disconnecting
                };
            },
            (AgentPhase::Disconnecting, AgentEvent::Disconnected) => {
                self.phase = AgentPhase::Leaving { polls: 0 };
            },
            (AgentPhase::Leaving { polls }, AgentEvent::State(state)) => {
                let polls = *polls;
                self.phase = if reads(&state, "disconnected") || polls >= LEAVE_POLLS - 1 {
                    AgentPhase::Clearing
                } else {
                    AgentPhase::Leaving { polls: polls + 1 }
                };
            },
            (AgentPhase::Clearing, AgentEvent::Unregistered) => {
                self.phase = AgentPhase::Registering;
            },
            (AgentPhase::Registering, AgentEvent::Registered(r)) => {
                self.phase = finished_or(r, AgentPhase::Sending);
            },
            (AgentPhase::Sending, AgentEvent::Sent(outcome)) => {
                match outcome {
                    SendOutcome::Sent => {
                        self.phase = AgentPhase::Draining;
                        self.started_at = now;
                    },
                    SendOutcome::BadMessage(e) => {
                        self.phase = AgentPhase::Closing { result: Err(e) };
                    },
                    SendOutcome::NotSent => {
                        self.phase =
                        AgentPhase::Closing { result: Err("Failed to send Connect".to_owned()) };
                    },
                }
            },
            (AgentPhase::Draining, AgentEvent::Drained(r)) => {
                self.phase = match r {
                    Ok(()) => AgentPhase::Collecting,
                    Err(e) => {
                        let mut text = "D-Bus error: ".to_owned();
                        push_text(&mut text, e.as_str());
                        AgentPhase::Closing { result: Err(text) }
                    },
                };
            },
            (AgentPhase::Collecting, AgentEvent::Error(error)) => {
                self.phase = match error {
                    None => AgentPhase::Asking,
                    Some(name) => AgentPhase::Closing { result: Err(error_label(name.as_str())) },
                };
            },
            (AgentPhase::Asking, AgentEvent::Connected(connected)) => {
                self.phase = match connected {
                    Some(true) => AgentPhase::Closing { result: Ok(()) },
                    _ => AgentPhase::Watching,
                };
            },
            (AgentPhase::Watching, AgentEvent::State(state)) => {
                self.watch(&state, now);
            },
            (AgentPhase::Waiting, AgentEvent::Waited) => {
                self.phase = AgentPhase::Draining;
            },
            (AgentPhase::Closing { result }, AgentEvent::Unregistered) => {
                let result = same_outcome(result);
                self.phase = AgentPhase::Finished { result };
            },
            _ => {},
        }
    }
}

/// Whether an event is what comes of the action of a session.
pub open spec fn answers(s: AgentSessionView, event: AgentEventView) -> bool {
    match agent_action(s) {
        AgentActionView::OpenBus { .. } => event is BusOpened,
        AgentActionView::FindStation => event is StationFound,
        AgentActionView::ReadState { .. } => event is State,
        AgentActionView::Disconnect { .. } => event is Disconnected,
        AgentActionView::WaitAndReadState { .. } => event is State,
        AgentActionView::UnregisterAgent => event is Unregistered,
        AgentActionView::RegisterAgent => event is Registered,
        AgentActionView::SendConnect { .. } => event is Sent,
        AgentActionView::DrainMessages => event is Drained,
        AgentActionView::TakeError => event is Error,
        AgentActionView::ReadConnected { .. } => event is Connected,
        AgentActionView::WaitForMessages => event is Waited,
        AgentActionView::Done(_) => false,
    }
}

/// Whether iwd has the agent and the outcome is open.
pub open spec fn has_agent(phase: AgentPhaseView) -> bool {
    match phase {
        AgentPhaseView::Sending | AgentPhaseView::Draining | AgentPhaseView::Collecting
        | AgentPhaseView::Asking | AgentPhaseView::Watching | AgentPhaseView::Waiting => true,
        _ => false,
    }
}

/// Once iwd has the agent, it is taken back whatever happens: the session goes on, or it comes
/// to the phase that takes the agent back, and it ends from there alone, with the result it
/// came with.
pub proof fn law_agent_is_taken_back(s: AgentSessionView, event: AgentEventView, now: u64)
    ensures
        has_agent(s.phase) ==> ({
            let after = agent_advance(s, event, now).phase;
            has_agent(after) || after is Closing
        }),
        s.phase matches AgentPhaseView::Closing { result } ==> ({
            let after = agent_advance(s, event, now);
            &&& agent_action(s) == AgentActionView::UnregisterAgent
            &&& if event is Unregistered {
                after.phase == (AgentPhaseView::Finished { result })
            } else {
                after == s
            }
        }),
        s.phase is Finished ==> agent_advance(s, event, now) == s,
{
}

/// A session succeeds when the network was read to be connected, and then alone.
pub proof fn law_success_is_a_connected_network(
    s: AgentSessionView,
    event: AgentEventView,
    now: u64,
)
    ensures
        ({
            let after = agent_advance(s, event, now).phase;
            let ok = Ok::<(), Seq<char>>(());
            &&& after == (AgentPhaseView::Closing { result: ok }) && after != s.phase
                <==> s.phase is Asking && event == AgentEventView::Connected(Some(true))
            &&& after == (AgentPhaseView::Finished { result: ok }) ==> s.phase == after || s.phase
                == (AgentPhaseView::Closing { result: ok })
        }),
{
}

/// The session for a network with a password after a row of events, each with its moment.
pub open spec fn session_after(
    network_path: Seq<char>,
    password: Seq<char>,
    events: Seq<(AgentEventView, u64)>,
) -> AgentSessionView
    decreases events.len(),
{
    if events.len() == 0 {
        session_start(network_path, password)
    } else {
        let (event, now) = events.last();
        agent_advance(session_after(network_path, password, events.drop_last()), event, now)
    }
}

/// A session serves the network and the password it began with, whatever happens: the request
/// to connect goes to that network, that network is asked whether it is connected, and the
/// agent hands out that password. The station that is told to leave, and whose state is read,
/// is one that was found.
pub proof fn law_session_serves_its_network(
    network_path: Seq<char>,
    password: Seq<char>,
    events: Seq<(AgentEventView, u64)>,
)
    ensures
        ({
            let s = session_after(network_path, password, events);
            let action = agent_action(s);
            &&& s.network_path == network_path && s.password == password
            &&& action matches AgentActionView::SendConnect { network_path: p } ==> p
                == network_path
            &&& action matches AgentActionView::ReadConnected { network_path: p } ==> p
                == network_path
            &&& action matches AgentActionView::OpenBus { password: p } ==> p == password
            &&& action matches AgentActionView::Disconnect { station_path: p } ==> was_found(
                events,
                p,
            )
            &&& action matches AgentActionView::ReadState { station_path: p } ==> was_found(
                events,
                p,
            )
            &&& action matches AgentActionView::WaitAndReadState { station_path: p } ==> was_found(
                events,
                p,
            )
        }),
{
    lemma_session_keeps(network_path, password, events);
}

/// Whether a station was found in a row of events.
pub open spec fn was_found(events: Seq<(AgentEventView, u64)>, station_path: Seq<char>) -> bool {
    exists|i: int|
        0 <= i < events.len() && (#[trigger] events[i]).0 == AgentEventView::StationFound(
            Ok(station_path),
        )
}

/// Whether a phase comes before the station was found, or after the session has ended.
pub open spec fn needs_no_station(phase: AgentPhaseView) -> bool {
    phase is Opening || phase is Finding || phase is Finished
}

proof fn lemma_session_keeps(
    network_path: Seq<char>,
    password: Seq<char>,
    events: Seq<(AgentEventView, u64)>,
)
    ensures
        ({
            let s = session_after(network_path, password, events);
            &&& s.network_path == network_path
            &&& s.password == password
            &&& needs_no_station(s.phase) || was_found(events, s.station_path)
        }),
    decreases events.len(),
{
    if events.len() > 0 {
        let rest = events.drop_last();
        lemma_session_keeps(network_path, password, rest);
        let before = session_after(network_path, password, rest);
        let after = session_after(network_path, password, events);
        if was_found(rest, before.station_path) {
            let i = choose|i: int|
                0 <= i < rest.len() && (#[trigger] rest[i]).0 == AgentEventView::StationFound(
                    Ok(before.station_path),
                );
            assert(events[i] == rest[i]);
        }
        if before.phase is Finding && after.phase is Checking {
            assert(events[events.len() - 1].0 == AgentEventView::StationFound(
                Ok(after.station_path),
            ));
        }
    }
}

/// Whether a session has succeeded, or is about to have.
pub open spec fn has_succeeded(phase: AgentPhaseView) -> bool {
    match phase {
        AgentPhaseView::Closing { result } => result is Ok,
        AgentPhaseView::Finished { result } => result is Ok,
        _ => false,
    }
}

/// No session succeeds unless the network was read to be connected in the course of it.
pub proof fn law_no_success_without_connection(
    network_path: Seq<char>,
    password: Seq<char>,
    events: Seq<(AgentEventView, u64)>,
)
    requires
        has_succeeded(session_after(network_path, password, events).phase),
    ensures
        exists|i: int|
            0 <= i < events.len() && (#[trigger] events[i]).0 == AgentEventView::Connected(
                Some(true),
            ),
    decreases events.len(),
{
    let rest = events.drop_last();
    if has_succeeded(session_after(network_path, password, rest).phase) {
        law_no_success_without_connection(network_path, password, rest);
        let i = choose|i: int|
            0 <= i < rest.len() && (#[trigger] rest[i]).0 == AgentEventView::Connected(Some(true));
        assert(events[i] == rest[i]);
    } else {
        assert(events[events.len() - 1].0 == AgentEventView::Connected(Some(true)));
    }
}

/// A session that has given iwd the agent does not end, with success or without, before it has
/// taken the agent back.
pub proof fn law_no_end_with_the_agent_left(
    network_path: Seq<char>,
    password: Seq<char>,
    events: Seq<(AgentEventView, u64)>,
    registered: int,
)
    requires
        0 <= registered < events.len(),
        session_after(network_path, password, events.take(registered)).phase is Registering,
        events[registered].0 == AgentEventView::Registered(Ok(())),
        session_after(network_path, password, events).phase is Finished,
    ensures
        exists|i: int|
            registered < i < events.len() && (#[trigger] events[i]).0 is Unregistered
                && agent_action(session_after(network_path, password, events.take(i)))
                == AgentActionView::UnregisterAgent,
{
    let next = events.take(registered + 1);
    assert(next.drop_last() =~= events.take(registered));
    assert(next.last() == events[registered]);
    lemma_way_to_the_end(network_path, password, events, registered + 1);
}

proof fn lemma_way_to_the_end(
    network_path: Seq<char>,
    password: Seq<char>,
    events: Seq<(AgentEventView, u64)>,
    from: int,
)
    requires
        0 <= from <= events.len(),
        ({
            let phase = session_after(network_path, password, events.take(from)).phase;
            has_agent(phase) || phase is Closing
        }),
        session_after(network_path, password, events).phase is Finished,
    ensures
        exists|i: int|
            from <= i < events.len() && (#[trigger] events[i]).0 is Unregistered
                && session_after(network_path, password, events.take(i)).phase is Closing,
    decreases events.len() - from,
{
    if from == events.len() {
        assert(events.take(from) =~= events);
    } else {
        let next = events.take(from + 1);
        assert(next.drop_last() =~= events.take(from));
        assert(next.last() == events[from]);
        let before = session_after(network_path, password, events.take(from));
        let (event, now) = events[from];
        law_agent_is_taken_back(before, event, now);
        if before.phase is Closing && event is Unregistered {
            assert(events[from].0 is Unregistered);
        } else {
            lemma_way_to_the_end(network_path, password, events, from + 1);
        }
    }
}

/// No session goes on for longer than the limit: when the state is read after it, the session
/// comes to its end. Before it, only a station that is disconnected ends it.
pub proof fn law_connecting_is_limited(
    s: AgentSessionView,
    state: Option<Seq<char>>,
    now: u64,
)
    requires
        s.phase is Watching,
    ensures
        ({
            let after = agent_advance(s, AgentEventView::State(state), now).phase;
            &&& now >= s.started_at + CONNECT_LIMIT_MS ==> after is Closing
            &&& after is Waiting ==> now < s.started_at + CONNECT_LIMIT_MS
            &&& now < s.started_at + CONNECT_LIMIT_MS && !state_is(state, "disconnected"@)
                ==> after is Waiting
            &&& now <= s.started_at + CONNECT_GRACE_MS && !s.seen_connecting ==> after is Waiting
        }),
{
    reveal_strlit("connecting");
    reveal_strlit("disconnected");
    assert("connecting"@.len() != "disconnected"@.len());
}

/// How many actions are left at most before the next wait for messages or the end.
pub open spec fn steps_left(phase: AgentPhaseView) -> nat {
    match phase {
        AgentPhaseView::Opening => 32,
        AgentPhaseView::Finding => 31,
        AgentPhaseView::Checking => 30,
        AgentPhaseView::Disconnecting => 29,
        AgentPhaseView::Leaving { polls } => if polls < LEAVE_POLLS {
            (8 + LEAVE_POLLS - polls) as nat
        } else {
            8
        },
        AgentPhaseView::Clearing => 7,
        AgentPhaseView::Registering => 6,
        AgentPhaseView::Sending => 5,
        AgentPhaseView::Draining => 4,
        AgentPhaseView::Collecting => 3,
        AgentPhaseView::Asking => 2,
        AgentPhaseView::Watching => 1,
        AgentPhaseView::Waiting => 0,
        AgentPhaseView::Closing { .. } => 0,
        AgentPhaseView::Finished { .. } => 0,
    }
}

/// A session does not stand still: each action that is answered brings it nearer to the next
/// wait for messages or to its end, and leaving the old network takes a limited number of
/// looks.
pub proof fn law_session_gets_on(s: AgentSessionView, event: AgentEventView, now: u64)
    requires
        answers(s, event),
    ensures
        s.phase is Waiting ==> agent_advance(s, event, now).phase is Draining,
        s.phase is Closing ==> agent_advance(s, event, now).phase is Finished,
        s.phase !is Waiting && s.phase !is Closing ==> steps_left(
            agent_advance(s, event, now).phase,
        ) < steps_left(s.phase),
{
}

// ---------------------------------------------------------------------------------------------
// With one retry
// ---------------------------------------------------------------------------------------------

/// An attempt to connect to a network with a password.
pub struct ConnectAttempt {
    pub network_path: String,
    pub password: String,
    /// Whether iwd has been restarted for it.
    pub retried: bool,
}

/// What a [`ConnectAttempt`] stands for.
#[verifier::ext_equal]
pub struct ConnectAttemptView {
    pub network_path: Seq<char>,
    pub password: Seq<char>,
    pub retried: bool,
}

impl View for ConnectAttempt {
    type V = ConnectAttemptView;

    open spec fn view(&self) -> ConnectAttemptView {
        ConnectAttemptView {
            network_path: self.network_path@,
            password: self.password@,
            retried: self.retried,
        }
    }
}

/// What happens in an attempt.
pub enum AttemptEvent {
    /// It begins.
    Start,
    /// A session ended.
    Tried(Result<(), String>),
    /// iwd was restarted, or could not be.
    Restarted(Result<(), String>),
    /// The network came back, under this path, or did not.
    Found(Result<String, String>),
}

/// What an [`AttemptEvent`] stands for.
#[verifier::ext_equal]
pub enum AttemptEventView {
    Start,
    Tried(Result<(), Seq<char>>),
    Restarted(Result<(), Seq<char>>),
    Found(Result<Seq<char>, Seq<char>>),
}

impl View for AttemptEvent {
    type V = AttemptEventView;

    open spec fn view(&self) -> AttemptEventView {
        match self {
            AttemptEvent::Start => AttemptEventView::Start,
            AttemptEvent::Tried(r) => AttemptEventView::Tried(outcome_view(*r)),
            AttemptEvent::Restarted(r) => AttemptEventView::Restarted(outcome_view(*r)),
            AttemptEvent::Found(r) => AttemptEventView::Found(
                match r {
                    Ok(path) => Ok(path@),
                    Err(e) => Err(e@),
                },
            ),
        }
    }
}

/// What is to be done next in an attempt.
pub enum AttemptAction {
    /// Run a session for a network with a password.
    TryOnce { network_path: String, password: String },
    /// Restart iwd.
    Restart,
    /// Wait for a network whose path ends like this.
    WaitForNetwork { suffix: String },
    /// Nothing more.
    Done(Result<(), String>),
}

/// What an [`AttemptAction`] stands for.
#[verifier::ext_equal]
pub enum AttemptActionView {
    TryOnce { network_path: Seq<char>, password: Seq<char> },
    Restart,
    WaitForNetwork { suffix: Seq<char> },
    Done(Result<(), Seq<char>>),
}

impl View for AttemptAction {
    type V = AttemptActionView;

    open spec fn view(&self) -> AttemptActionView {
        match self {
            AttemptAction::TryOnce { network_path, password } => AttemptActionView::TryOnce {
                network_path: network_path@,
                password: password@,
            },
            AttemptAction::Restart => AttemptActionView::Restart,
            AttemptAction::WaitForNetwork { suffix } => AttemptActionView::WaitForNetwork {
                suffix: suffix@,
            },
            AttemptAction::Done(r) => AttemptActionView::Done(outcome_view(*r)),
        }
    }
}

/// What an attempt does: it runs a session. Where iwd answers that it is still busy with an
/// earlier request, iwd is restarted, the network is waited for by the last part of its path,
/// and one more session is run. What that one ends with is the result.
pub open spec fn attempt_step(a: ConnectAttemptView, event: AttemptEventView) -> (
    ConnectAttemptView,
    AttemptActionView,
) {
    match event {
        AttemptEventView::Start => (
            a,
            AttemptActionView::TryOnce { network_path: a.network_path, password: a.password },
        ),
        AttemptEventView::Tried(result) => if !a.retried && result == Err::<(), Seq<char>>(
            "InProgress"@,
        ) {
            (a, AttemptActionView::Restart)
        } else {
            (a, AttemptActionView::Done(result))
        },
        AttemptEventView::Restarted(result) => match result {
            Ok(()) => (
                a,
                AttemptActionView::WaitForNetwork { suffix: last_part(a.network_path, "/"@) },
            ),
            Err(e) => (a, AttemptActionView::Done(Err(e))),
        },
        AttemptEventView::Found(result) => match result {
            Ok(path) => (
                ConnectAttemptView { network_path: path, retried: true, ..a },
                AttemptActionView::TryOnce { network_path: path, password: a.password },
            ),
            Err(e) => (a, AttemptActionView::Done(Err(e))),
        },
    }
}

/// The attempt that a command asks for: the one to connect with a password does.
pub open spec fn attempt_of(command: CommandView) -> Option<ConnectAttemptView> {
    match command {
        CommandView::AgentConnect { network_path, password } => Some(
            ConnectAttemptView { network_path, password, retried: false },
        ),
        _ => None,
    }
}

/// The attempt that a command asks for, where it asks for one.
pub fn connect_attempt(command: &Command) -> (res: Option<ConnectAttempt>)
    ensures
        match attempt_of(command@) {
            Some(a) => res matches Some(r) && r@ == a,
            None => res is None,
        },
{
    match command {
        Command::AgentConnect { network_path, password } => Some(
            ConnectAttempt {
                network_path: network_path.clone(),
                password: password.clone(),
                retried: false,
            },
        ),
        _ => None,
    }
}

/// Takes in what happened in an attempt and says what is to be done next.
pub fn agent_connect(attempt: &mut ConnectAttempt, event: AttemptEvent) -> (res: AttemptAction)
    ensures
        final(attempt)@ == attempt_step(old(attempt)@, event@).0,
        res@ == attempt_step(old(attempt)@, event@).1,
{
    match event {
        AttemptEvent::Start => {
            AttemptAction::TryOnce {
                network_path: attempt.network_path.clone(),
                password: attempt.password.clone(),
            }
        },
        AttemptEvent::Tried(result) => {
            let busy = match &result {
                Ok(()) => false,
                Err(e) => same_text(e.as_str(), "InProgress"),
            };
            if busy && !attempt.retried {
                AttemptAction::Restart
            } else {
                AttemptAction::Done(result)
            }
        },
        AttemptEvent::Restarted(result) => match result {
            Ok(()) => {
                proof {
                    reveal_strlit("/");
                }
                AttemptAction::WaitForNetwork {
                    suffix: after_last(attempt.network_path.as_str(), "/"),
                }
            },
            Err(e) => AttemptAction::Done(Err(e)),
        },
        AttemptEvent::Found(result) => match result {
            Ok(path) => {
                attempt.network_path = path.clone();
                attempt.retried = true;
                AttemptAction::TryOnce { network_path: path, password: attempt.password.clone() }
            },
            Err(e) => AttemptAction::Done(Err(e)),
        },
    }
}

/// Every session of an attempt is for its network, under the path it has by then, and with its
/// password, which stays.
pub proof fn law_attempt_serves_its_command(a: ConnectAttemptView, event: AttemptEventView)
    ensures
        attempt_step(a, event).0.password == a.password,
        event !is Found ==> attempt_step(a, event).0 == a,
        attempt_step(a, event).1 matches AttemptActionView::TryOnce { network_path, password }
            ==> network_path == attempt_step(a, event).0.network_path && password == a.password,
        event is Start ==> attempt_step(a, event).1 is TryOnce,
        event matches AttemptEventView::Found(Ok(path)) ==> attempt_step(a, event).0.network_path
            == path,
{
}

/// iwd is restarted at most once: only a first session that found it busy leads there, and
/// whatever a second session ends with is the result.
pub proof fn law_one_restart(a: ConnectAttemptView, event: AttemptEventView)
    ensures
        attempt_step(a, event).1 is Restart <==> !a.retried && event == AttemptEventView::Tried(
            Err("InProgress"@),
        ),
        a.retried ==> attempt_step(a, event).0.retried,
        a.retried && event is Tried ==> attempt_step(a, event).1 == AttemptActionView::Done(
            event->Tried_0,
        ),
        event is Found && attempt_step(a, event).1 is TryOnce ==> attempt_step(a, event).0.retried,
{
}

/// How many actions are left at most in an attempt, with the one that is to be done.
pub open spec fn attempt_left(a: ConnectAttemptView, action: AttemptActionView) -> nat {
    match action {
        AttemptActionView::TryOnce { .. } => if a.retried {
            1
        } else {
            4
        },
        AttemptActionView::Restart => 3,
        AttemptActionView::WaitForNetwork { .. } => 2,
        AttemptActionView::Done(_) => 0,
    }
}

/// Whether an event is what comes of an action in an attempt.
pub open spec fn attempt_answers(action: AttemptActionView, event: AttemptEventView) -> bool {
    match action {
        AttemptActionView::TryOnce { .. } => event is Tried,
        AttemptActionView::Restart => event is Restarted,
        AttemptActionView::WaitForNetwork { .. } => event is Found,
        AttemptActionView::Done(_) => false,
    }
}

/// An attempt comes to an end after two sessions at most: each action that is answered leaves
/// fewer to come.
pub proof fn law_attempt_ends(
    a: ConnectAttemptView,
    action: AttemptActionView,
    event: AttemptEventView,
)
    requires
        attempt_answers(action, event),
    ensures
        attempt_left(attempt_step(a, event).0, attempt_step(a, event).1) < attempt_left(a, action),
{
}

// ---------------------------------------------------------------------------------------------
// Restarting iwd
// ---------------------------------------------------------------------------------------------

/// What is to be done next to restart iwd.
pub enum RestartAction {
    /// Run a program.
    Run { program: String, args: Vec<String> },
    /// Nothing more.
    Done(Result<(), String>),
}

/// What a [`RestartAction`] stands for.
#[verifier::ext_equal]
pub enum RestartActionView {
    Run { program: Seq<char>, args: Seq<Seq<char>> },
    Done(Result<(), Seq<char>>),
}

impl View for RestartAction {
    type V = RestartActionView;

    open spec fn view(&self) -> RestartActionView {
        match self {
            RestartAction::Run { program, args } => RestartActionView::Run {
                program: program@,
                args: texts(args@),
            },
            RestartAction::Done(r) => RestartActionView::Done(outcome_view(*r)),
        }
    }
}

/// What is to be done after `runs` programs were run, of which the last one succeeded or not:
/// `sv` alone, then through `sudo` without asking.
pub open spec fn restart_step(runs: u32, succeeded: bool) -> RestartActionView {
    if runs == 0 {
        RestartActionView::Run { program: "sv"@, args: seq!["restart"@, "iwd"@] }
    } else if succeeded {
        RestartActionView::Done(Ok(()))
    } else if runs == 1 {
        RestartActionView::Run { program: "sudo"@, args: seq!["-n"@, "sv"@, "restart"@, "iwd"@] }
    } else {
        RestartActionView::Done(Err("Failed to restart iwd (need root)"@))
    }
}

/// Says what is to be done to restart iwd after `runs` programs were run, of which the last one
/// succeeded or not.
pub fn restart_iwd_service(runs: u32, succeeded: bool) -> (res: RestartAction)
    ensures
        res@ == restart_step(runs, succeeded),
{
    if runs == 0 {
        let args = vec!["restart".to_owned(), "iwd".to_owned()];
        assert(texts(args@) =~= seq!["restart"@, "iwd"@]);
        RestartAction::Run { program: "sv".to_owned(), args }
    } else if succeeded {
        RestartAction::Done(Ok(()))
    } else if runs == 1 {
        let args = vec!["-n".to_owned(), "sv".to_owned(), "restart".to_owned(), "iwd".to_owned()];
        assert(texts(args@) =~= seq!["-n"@, "sv"@, "restart"@, "iwd"@]);
        RestartAction::Run { program: "sudo".to_owned(), args }
    } else {
        RestartAction::Done(Err("Failed to restart iwd (need root)".to_owned()))
    }
}

} // verus!
