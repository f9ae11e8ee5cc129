//! Finding stations and connecting with a password.

use iwd_tui::agent::{
    agent_call, agent_connect, agent_read, connect_attempt, restart_iwd_service, AgentAction,
    AgentEvent, AgentSession, AttemptAction, AttemptEvent, ConnectAttempt, RestartAction,
    SendOutcome,
};
use iwd_tui::keys::Command;
use iwd_tui::station::{
    find_station, wait_for_network, ManagedObject, StationAction, StationSearch, WaitAction,
};

const STATION: &str = "net.connman.iwd.Station";
const NETWORK: &str = "net.connman.iwd.Network";

fn object(path: &str, interfaces: &[&str]) -> ManagedObject {
    ManagedObject {
        path: path.into(),
        interfaces: interfaces.iter().map(|i| i.to_string()).collect(),
    }
}

fn search(states: &[Option<&str>]) -> (StationSearch, Vec<String>) {
    let objects = vec![
        object("/0/9", &["net.connman.iwd.Device", STATION]),
        object("/0/10", &[STATION]),
        object("/0/3", &["net.connman.iwd.Device"]),
        object("/0", &[STATION]),
    ];
    let mut search = find_station(&Some(objects)).unwrap();
    let mut asked = Vec::new();
    let mut i = 0;
    while let StationAction::ReadState { path } = search.action() {
        asked.push(path);
        search.state_read(&states[i].map(|s| s.to_string()));
        i += 1;
    }
    (search, asked)
}

fn finish(mut search: StationSearch) -> (String, String, Vec<(String, String)>) {
    loop {
        match search.action() {
            StationAction::ReadState { .. } => panic!("all states were read"),
            StationAction::ReadName { path } => {
                let name = if path == "/0" { None } else { Some(format!("name of {path}")) };
                search.name_read(name);
            }
            StationAction::Done(found) => {
                let adapters = found.adapters.into_iter().map(|a| (a.path, a.name)).collect();
                return (found.path, found.name, adapters);
            }
        }
    }
}

#[test]
fn connected_station_is_preferred() {
    let (found, asked) = search(&[Some("disconnected"), Some("connected"), Some("connected")]);
    assert_eq!(asked, ["/0", "/0/10"]);
    let (path, name, adapters) = finish(found);
    assert_eq!((path.as_str(), name.as_str()), ("/0/10", "name of /0/10"));
    let paths: Vec<&str> = adapters.iter().map(|a| a.0.as_str()).collect();
    assert_eq!(paths, ["/0", "/0/10", "/0/9"]);
}

#[test]
fn first_station_is_taken_where_none_is_connected() {
    let (found, asked) = search(&[None, Some("connecting"), Some("disconnected")]);
    assert_eq!(asked, ["/0", "/0/10", "/0/9"]);
    let (path, name, adapters) = finish(found);
    assert_eq!((path.as_str(), name.as_str()), ("/0", "unknown"));
    assert_eq!(adapters.len(), 3);
}

#[test]
fn no_station_is_an_error() {
    assert_eq!(
        find_station(&None).err().unwrap(),
        "iwd service not found on D-Bus. Is iwd running?"
    );
    assert_eq!(
        find_station(&Some(vec![object("/0", &["net.connman.iwd.Device"])])).err().unwrap(),
        "No wireless adapters found. Check rfkill?"
    );
}

#[test]
fn network_is_waited_for() {
    let mut wait = wait_for_network("abc_psk".into(), 100);
    assert!(matches!(wait.action(100), WaitAction::Look));
    assert!(wait.looked(&None).is_none());
    assert!(wait.looked(&Some(vec![object("/x", &["other"])])).is_none());
    let station = object("/0/5", &[STATION]);
    let wrong = object("/0/5/other_psk", &[NETWORK]);
    let decoy = object("/known/abc_psk", &["net.connman.iwd.KnownNetwork"]);
    assert_eq!(wait.looked(&Some(vec![wrong, decoy, station])).as_deref(), Some("/0/5"));
    assert!(matches!(wait.action(15_099), WaitAction::Look));
    let station = object("/0/5", &[STATION]);
    let right = object("/0/5/abc_psk", &[NETWORK]);
    assert!(wait.looked(&Some(vec![station, right])).is_none());
    assert!(matches!(wait.action(99_999), WaitAction::Done(Ok(p)) if p == "/0/5/abc_psk"));
}

#[test]
fn wait_comes_to_an_end() {
    let wait = wait_for_network("abc".into(), 100);
    assert!(matches!(
        wait.action(15_100),
        WaitAction::Done(Err(e)) if e == "Network not found after iwd restart"
    ));
}

fn session_with(events: Vec<(AgentEvent, u64)>) -> AgentSession {
    let mut session = AgentSession::new("/n/a".into(), "secret".into());
    for (event, now) in events {
        session.agent_connect_once(event, now);
    }
    session
}

fn until_sent(now: u64) -> Vec<(AgentEvent, u64)> {
    vec![
        (AgentEvent::BusOpened(Ok(())), 0),
        (AgentEvent::StationFound(Ok("/0/5".into())), 0),
        (AgentEvent::State(Some("disconnected".into())), 0),
        (AgentEvent::Unregistered, 0),
        (AgentEvent::Registered(Ok(())), 0),
        (AgentEvent::Sent(SendOutcome::Sent), now),
    ]
}

fn one_round(session: &mut AgentSession, state: &str, now: u64) {
    session.agent_connect_once(AgentEvent::Drained(Ok(())), now);
    session.agent_connect_once(AgentEvent::Error(None), now);
    session.agent_connect_once(AgentEvent::Connected(Some(false)), now);
    assert!(matches!(session.action(), AgentAction::ReadState { .. }));
    session.agent_connect_once(AgentEvent::State(Some(state.into())), now);
}

fn closed_with(session: &mut AgentSession) -> Result<(), String> {
    assert!(matches!(session.action(), AgentAction::UnregisterAgent));
    session.agent_connect_once(AgentEvent::Unregistered, 0);
    match session.action() {
        AgentAction::Done(result) => result,
        _ => panic!("the session goes on"),
    }
}

#[test]
fn session_succeeds() {
    let mut session = AgentSession::new("/n/a".into(), "secret".into());
    let mut seen = Vec::new();
    for (event, now) in until_sent(1_000) {
        seen.push(match session.action() {
            AgentAction::OpenBus { .. } => "open",
            AgentAction::FindStation => "find",
            AgentAction::ReadState { .. } => "read",
            AgentAction::UnregisterAgent => "clear",
            AgentAction::RegisterAgent => "register",
            AgentAction::SendConnect { .. } => "send",
            _ => "other",
        });
        session.agent_connect_once(event, now);
    }
    assert_eq!(seen, ["open", "find", "read", "clear", "register", "send"]);
    assert!(matches!(session.action(), AgentAction::DrainMessages));
    one_round(&mut session, "connecting", 1_100);
    assert!(matches!(session.action(), AgentAction::WaitForMessages));
    session.agent_connect_once(AgentEvent::Waited, 1_200);
    session.agent_connect_once(AgentEvent::Drained(Ok(())), 1_200);
    assert!(matches!(session.action(), AgentAction::TakeError));
    session.agent_connect_once(AgentEvent::Error(None), 1_200);
    assert!(matches!(session.action(), AgentAction::ReadConnected { .. }));
    session.agent_connect_once(AgentEvent::Connected(Some(true)), 1_200);
    assert_eq!(closed_with(&mut session), Ok(()));
}

#[test]
fn old_network_is_left_first() {
    let mut session = session_with(vec![
        (AgentEvent::BusOpened(Ok(())), 0),
        (AgentEvent::StationFound(Ok("/0/5".into())), 0),
        (AgentEvent::State(Some("connected".into())), 0),
    ]);
    assert!(matches!(session.action(), AgentAction::Disconnect { .. }));
    session.agent_connect_once(AgentEvent::Disconnected, 0);
    for _ in 0..19 {
        assert!(matches!(session.action(), AgentAction::WaitAndReadState { .. }));
        session.agent_connect_once(AgentEvent::State(None), 0);
    }
    assert!(matches!(session.action(), AgentAction::WaitAndReadState { .. }));
    session.agent_connect_once(AgentEvent::State(Some("disconnecting".into())), 0);
    assert!(matches!(session.action(), AgentAction::UnregisterAgent));

    let mut session = session_with(vec![
        (AgentEvent::BusOpened(Ok(())), 0),
        (AgentEvent::StationFound(Ok("/0/5".into())), 0),
        (AgentEvent::State(None), 0),
        (AgentEvent::Disconnected, 0),
    ]);
    session.agent_connect_once(AgentEvent::State(Some("disconnected".into())), 0);
    assert!(matches!(session.action(), AgentAction::UnregisterAgent));
}

#[test]
fn session_fails_before_iwd_has_the_agent() {
    let failed = |events: Vec<(AgentEvent, u64)>| match session_with(events).action() {
        AgentAction::Done(Err(e)) => e,
        _ => panic!("the session goes on"),
    };
    assert_eq!(failed(vec![(AgentEvent::BusOpened(Err("no bus".into())), 0)]), "no bus");
    let mut events = until_sent(0);
    events.truncate(1);
    events.push((AgentEvent::StationFound(Err("none".into())), 0));
    assert_eq!(failed(events), "none");
    let mut events = until_sent(0);
    events.truncate(4);
    events.push((AgentEvent::Registered(Err("busy".into())), 0));
    assert_eq!(failed(events), "busy");
}

#[test]
fn agent_is_taken_back_when_the_request_is_not_sent() {
    for (outcome, error) in [
        (SendOutcome::BadMessage("bad".into()), "bad"),
        (SendOutcome::NotSent, "Failed to send Connect"),
    ] {
        let mut events = until_sent(0);
        events.truncate(5);
        events.push((AgentEvent::Sent(outcome), 0));
        let mut session = session_with(events);
        assert_eq!(closed_with(&mut session), Err(error.to_string()));
    }
}

#[test]
fn session_fails_after_the_request() {
    let mut session = session_with(until_sent(0));
    session.agent_connect_once(AgentEvent::Drained(Err("lost".into())), 0);
    assert_eq!(closed_with(&mut session), Err("D-Bus error: lost".to_string()));

    for (name, label) in [
        ("net.connman.iwd.InProgress", "InProgress"),
        ("net.connman.iwd.InProgress.More", "InProgress"),
        ("net.connman.iwd.Failed", "Failed"),
        ("Plain", "Plain"),
    ] {
        let mut session = session_with(until_sent(0));
        session.agent_connect_once(AgentEvent::Drained(Ok(())), 0);
        session.agent_connect_once(AgentEvent::Error(Some(name.into())), 0);
        assert_eq!(closed_with(&mut session), Err(label.to_string()));
    }
}

#[test]
fn station_may_take_its_time_to_start() {
    let mut session = session_with(until_sent(1_000));
    one_round(&mut session, "disconnected", 6_000);
    assert!(matches!(session.action(), AgentAction::WaitForMessages));
    session.agent_connect_once(AgentEvent::Waited, 6_001);
    one_round(&mut session, "disconnected", 6_001);
    assert_eq!(closed_with(&mut session), Err("Connection failed".to_string()));

    let mut session = session_with(until_sent(1_000));
    one_round(&mut session, "connecting", 1_100);
    session.agent_connect_once(AgentEvent::Waited, 1_200);
    one_round(&mut session, "disconnected", 1_200);
    assert_eq!(closed_with(&mut session), Err("Connection failed".to_string()));
}

#[test]
fn session_times_out() {
    let mut session = session_with(until_sent(1_000));
    one_round(&mut session, "connecting", 30_999);
    assert!(matches!(session.action(), AgentAction::WaitForMessages));
    session.agent_connect_once(AgentEvent::Waited, 31_000);
    one_round(&mut session, "connecting", 31_000);
    assert_eq!(closed_with(&mut session), Err("Connection timed out".to_string()));
}

#[test]
fn other_events_are_passed_over() {
    let mut session = session_with(until_sent(0));
    session.agent_connect_once(AgentEvent::Unregistered, 0);
    session.agent_connect_once(AgentEvent::Connected(Some(true)), 0);
    assert!(matches!(session.action(), AgentAction::DrainMessages));
}

fn attempt_for(path: &str) -> ConnectAttempt {
    connect_attempt(&Command::AgentConnect {
        network_path: path.into(),
        password: "secret".into(),
    })
    .unwrap()
}

#[test]
fn other_commands_ask_for_no_attempt() {
    assert!(connect_attempt(&Command::Refresh).is_none());
    assert!(connect_attempt(&Command::Connect { network_path: "/n".into() }).is_none());
}

fn called(session: &AgentSession) -> String {
    let call = agent_call(&session.action()).unwrap();
    let argument = call.argument.unwrap_or_default();
    let call = call.call;
    format!("{} {}.{}({argument})", call.path, call.interface, call.method)
}

fn read_by(session: &AgentSession) -> String {
    let read = agent_read(&session.action()).unwrap();
    format!("{} {}.{}", read.path, read.interface, read.property)
}

#[test]
fn actions_go_to_the_network_and_the_station() {
    let mut session = AgentSession::new("/n/a".into(), "secret".into());
    assert!(matches!(session.action(), AgentAction::OpenBus { password } if password == "secret"));
    assert!(agent_call(&session.action()).is_none());
    assert!(agent_read(&session.action()).is_none());
    session.agent_connect_once(AgentEvent::BusOpened(Ok(())), 0);
    session.agent_connect_once(AgentEvent::StationFound(Ok("/0/5".into())), 0);
    assert_eq!(read_by(&session), "/0/5 net.connman.iwd.Station.State");
    session.agent_connect_once(AgentEvent::State(Some("connected".into())), 0);
    assert_eq!(called(&session), "/0/5 net.connman.iwd.Station.Disconnect()");
    session.agent_connect_once(AgentEvent::Disconnected, 0);
    assert_eq!(read_by(&session), "/0/5 net.connman.iwd.Station.State");
    session.agent_connect_once(AgentEvent::State(Some("disconnected".into())), 0);
    let manager = "/net/connman/iwd net.connman.iwd.AgentManager";
    assert_eq!(called(&session), format!("{manager}.UnregisterAgent(/iwdtui/agent)"));
    session.agent_connect_once(AgentEvent::Unregistered, 0);
    assert_eq!(called(&session), format!("{manager}.RegisterAgent(/iwdtui/agent)"));
    session.agent_connect_once(AgentEvent::Registered(Ok(())), 0);
    assert_eq!(called(&session), "/n/a net.connman.iwd.Network.Connect()");
    assert!(agent_read(&session.action()).is_none());
    session.agent_connect_once(AgentEvent::Sent(SendOutcome::Sent), 0);
    session.agent_connect_once(AgentEvent::Drained(Ok(())), 0);
    session.agent_connect_once(AgentEvent::Error(None), 0);
    assert_eq!(read_by(&session), "/n/a net.connman.iwd.Network.Connected");
    assert!(agent_call(&session.action()).is_none());
    session.agent_connect_once(AgentEvent::Connected(None), 0);
    assert_eq!(read_by(&session), "/0/5 net.connman.iwd.Station.State");
}

#[test]
fn busy_iwd_is_restarted_once() {
    let mut attempt = attempt_for("/net/connman/iwd/0/5/abc_psk");
    assert!(matches!(
        agent_connect(&mut attempt, AttemptEvent::Start),
        AttemptAction::TryOnce { network_path, password }
            if network_path == "/net/connman/iwd/0/5/abc_psk" && password == "secret"
    ));
    let busy = || AttemptEvent::Tried(Err("InProgress".into()));
    assert!(matches!(agent_connect(&mut attempt, busy()), AttemptAction::Restart));
    assert!(matches!(
        agent_connect(&mut attempt, AttemptEvent::Restarted(Ok(()))),
        AttemptAction::WaitForNetwork { suffix } if suffix == "abc_psk"
    ));
    assert!(matches!(
        agent_connect(&mut attempt, AttemptEvent::Found(Ok("/0/7/abc_psk".into()))),
        AttemptAction::TryOnce { network_path, password }
            if network_path == "/0/7/abc_psk" && password == "secret"
    ));
    assert!(matches!(
        agent_connect(&mut attempt, busy()),
        AttemptAction::Done(Err(e)) if e == "InProgress"
    ));
}

#[test]
fn other_outcomes_end_the_attempt() {
    let ended = |event: AttemptEvent| {
        match agent_connect(&mut attempt_for("/n"), event) {
            AttemptAction::Done(result) => result,
            _ => panic!("the attempt goes on"),
        }
    };
    assert_eq!(ended(AttemptEvent::Tried(Ok(()))), Ok(()));
    assert_eq!(ended(AttemptEvent::Tried(Err("Failed".into()))), Err("Failed".to_string()));
    assert_eq!(ended(AttemptEvent::Restarted(Err("root".into()))), Err("root".to_string()));
    assert_eq!(ended(AttemptEvent::Found(Err("gone".into()))), Err("gone".to_string()));
}

#[test]
fn restart_is_tried_twice() {
    let run = |runs: u32, succeeded: bool| match restart_iwd_service(runs, succeeded) {
        RestartAction::Run { program, args } => Ok(format!("{program} {}", args.join(" "))),
        RestartAction::Done(result) => Err(result),
    };
    assert_eq!(run(0, false), Ok("sv restart iwd".to_string()));
    assert_eq!(run(1, false), Ok("sudo -n sv restart iwd".to_string()));
    assert_eq!(run(1, true), Err(Ok(())));
    assert_eq!(run(2, true), Err(Ok(())));
    assert_eq!(run(2, false), Err(Err("Failed to restart iwd (need root)".to_string())));
}
