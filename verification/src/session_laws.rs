//! What holds of the search for a station, of sessions with an agent, and of the calls.

use vstd::prelude::*;

use crate::agent::{
    agent_action, agent_advance, answers, attempt_of, attempt_step, call_of_action, connect_error,
    read_of_action, restart_step, session_start, AgentActionView, AgentCallView, AgentEventView,
    AgentPhaseView, AgentSessionView, AttemptActionView, AttemptEventView, ConnectAttemptView,
    RestartActionView, SendOutcomeView,
};
use crate::app::AdapterView;
use crate::bus::{answer_of, call_of, opposite, MethodCallView, PropertyReadView};
use crate::keys::{ActionResultView, CommandView};
use crate::schedule::{schedule_from, task_done, task_due, Schedule, Task};
use crate::split::{ends_in, occurs};
use crate::station::{
    bytes_before, first_network, first_station, search_action, search_among, search_begun,
    search_with_name, search_with_state, search_with_states, station_paths, text_before,
    texts_in_order, wait_action, wait_from, wait_looked, ManagedObjectView, NetworkWaitView,
    StationActionView, StationSearchView, WaitActionView,
};
use crate::text_laws::law_behind_the_last;

verus! {

// ---------------------------------------------------------------------------------------------
// Stations
// ---------------------------------------------------------------------------------------------

/// The stations are the objects with iwd's interface for them, and no others: a path is among
/// theirs exactly where such an object has it.
pub proof fn law_stations_are_those_with_the_interface(
    objects: Seq<ManagedObjectView>,
    path: Seq<char>,
)
    ensures
        station_paths(objects).contains(path) <==> exists|i: int|
            0 <= i < objects.len() && (#[trigger] objects[i]).path == path
                && objects[i].interfaces.contains("net.connman.iwd.Station"@),
    decreases objects.len(),
{
    if objects.len() > 0 {
        let rest = objects.drop_last();
        let before = station_paths(rest);
        let all = station_paths(objects);
        let last = objects.last();
        law_stations_are_those_with_the_interface(rest, path);
        let takes = last.interfaces.contains("net.connman.iwd.Station"@);
        if all.contains(path) {
            let k = choose|k: int| 0 <= k < all.len() && all[k] == path;
            if k < before.len() {
                assert(before[k] == path);
                assert(before.contains(path));
                let i = choose|i: int|
                    0 <= i < rest.len() && (#[trigger] rest[i]).path == path
                        && rest[i].interfaces.contains("net.connman.iwd.Station"@);
                assert(objects[i] == rest[i]);
            } else {
                assert(objects[objects.len() - 1].path == path);
            }
        }
        if exists|i: int|
            0 <= i < objects.len() && (#[trigger] objects[i]).path == path
                && objects[i].interfaces.contains("net.connman.iwd.Station"@) {
            let i = choose|i: int|
                0 <= i < objects.len() && (#[trigger] objects[i]).path == path
                    && objects[i].interfaces.contains("net.connman.iwd.Station"@);
            if i < rest.len() {
                assert(rest[i] == objects[i]);
                assert(before.contains(path));
                let k = choose|k: int| 0 <= k < before.len() && before[k] == path;
                assert(all[k] == path);
            } else {
                assert(takes);
                assert(all[all.len() - 1] == path);
            }
        }
    } else {
        assert(station_paths(objects).len() == 0);
    }
}

/// The stations are listed as the objects are: each object that is one adds its path behind
/// those of the objects before it, and any other adds nothing.
pub proof fn law_stations_are_listed_in_turn(
    objects: Seq<ManagedObjectView>,
    more: Seq<ManagedObjectView>,
)
    ensures
        station_paths(objects + more) == station_paths(objects) + station_paths(more),
        more.len() == 1 && more[0].interfaces.contains("net.connman.iwd.Station"@)
            ==> station_paths(more) == seq![more[0].path],
        more.len() == 1 && !more[0].interfaces.contains("net.connman.iwd.Station"@)
            ==> station_paths(more).len() == 0,
    decreases more.len(),
{
    if more.len() == 0 {
        assert(objects + more =~= objects);
        assert(station_paths(objects) + station_paths(more) =~= station_paths(objects));
    } else {
        let rest = more.drop_last();
        law_stations_are_listed_in_turn(objects, rest);
        assert((objects + more).drop_last() =~= objects + rest);
        assert((objects + more).last() == more.last());
        assert(station_paths(objects + more) =~= station_paths(objects) + station_paths(more));
        if more.len() == 1 {
            assert(rest.len() == 0);
            assert(station_paths(rest).len() == 0);
            assert(more.last() == more[0]);
            if more[0].interfaces.contains("net.connman.iwd.Station"@) {
                assert(station_paths(more) =~= seq![more[0].path]);
            }
        }
    }
}

/// Texts are ordered by their bytes: at the first place where they differ the smaller byte
/// comes first, and a text comes before any that goes on from it.
pub proof fn law_byte_order(common: Seq<u8>, a: Seq<u8>, b: Seq<u8>)
    ensures
        b.len() > 0 ==> bytes_before(common, common + b),
        !bytes_before(common + b, common),
        a.len() > 0 && b.len() > 0 && a[0] != b[0] ==> (bytes_before(common + a, common + b)
            <==> a[0] < b[0]),
    decreases common.len(),
{
    if common.len() == 0 {
        assert(common + a =~= a);
        assert(common + b =~= b);
    } else {
        let rest = common.drop_first();
        law_byte_order(rest, a, b);
        assert((common + a).drop_first() =~= rest + a);
        assert((common + b).drop_first() =~= rest + b);
        assert((common + a)[0] == common[0] && (common + b)[0] == common[0]);
    }
}

/// Texts are ordered by the bytes of their encoding.
pub proof fn law_text_order(a: Seq<char>, b: Seq<char>)
    ensures
        text_before(a, b) == bytes_before(
            vstd::utf8::encode_utf8(a),
            vstd::utf8::encode_utf8(b),
        ),
{
}

/// The states are read one after another, in the order of the stations, until one is
/// connected.
pub proof fn law_states_are_read_in_order(
    paths: Seq<Seq<char>>,
    states: Seq<Option<Seq<char>>>,
)
    requires
        states.len() < paths.len(),
        forall|i: int| 0 <= i < states.len() ==> #[trigger] states[i] != Some("connected"@),
    ensures
        search_action(search_with_states(search_among(paths), states)) == (
        StationActionView::ReadState { path: paths[states.len() as int] }),
{
    lemma_states(paths, states);
}

proof fn lemma_states(paths: Seq<Seq<char>>, states: Seq<Option<Seq<char>>>)
    requires
        states.len() < paths.len(),
        forall|i: int| 0 <= i < states.len() ==> #[trigger] states[i] != Some("connected"@),
    ensures
        search_with_states(search_among(paths), states) == (StationSearchView {
            states_read: states.len(),
            ..search_among(paths)
        }),
        search_among(paths).paths == paths,
        search_among(paths).chosen is None,
        search_among(paths).names.len() == 0,
    decreases states.len(),
{
    if states.len() > 0 {
        let rest = states.drop_last();
        assert forall|i: int| 0 <= i < rest.len() implies #[trigger] rest[i] != Some(
            "connected"@,
        ) by {
            assert(states[i] != Some("connected"@));
        }
        lemma_states(paths, rest);
        assert(states[states.len() - 1] != Some("connected"@));
    }
}

/// The search after the names of the stations were read, one after another.
pub open spec fn search_with_names(
    s: StationSearchView,
    names: Seq<Option<Seq<char>>>,
) -> StationSearchView
    decreases names.len(),
{
    if names.len() == 0 {
        s
    } else {
        search_with_name(search_with_names(s, names.drop_last()), names.last())
    }
}

/// Once the station is chosen the names are read in the order of the stations. When all were
/// read, the search ends with the chosen station under its own name, and with every station as
/// an adapter under its own name, or as `unknown` where it could not be read.
pub proof fn law_names_go_with_their_stations(
    s: StationSearchView,
    names: Seq<Option<Seq<char>>>,
    chosen: nat,
)
    requires
        s.chosen == Some(chosen),
        chosen < s.paths.len(),
        s.names.len() == 0,
        names.len() <= s.paths.len(),
    ensures
        names.len() < s.paths.len() ==> search_action(search_with_names(s, names)) == (
        StationActionView::ReadName { path: s.paths[names.len() as int] }),
        names.len() == s.paths.len() ==> (search_action(search_with_names(s, names)) matches
            StationActionView::Done(found) && {
            &&& found.path == s.paths[chosen as int]
            &&& found.name == (match names[chosen as int] {
                Some(name) => name,
                None => "unknown"@,
            })
            &&& found.adapters.len() == s.paths.len()
            &&& forall|i: int|
                0 <= i < s.paths.len() ==> #[trigger] found.adapters[i] == (AdapterView {
                    path: s.paths[i],
                    name: match names[i] {
                        Some(name) => name,
                        None => "unknown"@,
                    },
                })
        }),
{
    lemma_names(s, names, chosen);
}

proof fn lemma_names(s: StationSearchView, names: Seq<Option<Seq<char>>>, chosen: nat)
    requires
        s.chosen == Some(chosen),
        s.names.len() == 0,
        names.len() <= s.paths.len(),
    ensures
        ({
            let after = search_with_names(s, names);
            &&& after.paths == s.paths
            &&& after.chosen == s.chosen
            &&& after.names.len() == names.len()
            &&& forall|i: int|
                0 <= i < names.len() ==> #[trigger] after.names[i] == (match names[i] {
                    Some(name) => name,
                    None => "unknown"@,
                })
        }),
    decreases names.len(),
{
    if names.len() > 0 {
        let rest = names.drop_last();
        lemma_names(s, rest, chosen);
        let before = search_with_names(s, rest);
        let after = search_with_names(s, names);
        assert forall|i: int| 0 <= i < names.len() implies #[trigger] after.names[i] == (
        match names[i] {
            Some(name) => name,
            None => "unknown"@,
        }) by {
            if i < rest.len() {
                assert(after.names[i] == before.names[i]);
                assert(rest[i] == names[i]);
            }
        }
    }
}

/// A state is taken in while no station is chosen, and a name while one is and names are
/// missing. Any other reading changes nothing, and none changes the stations.
pub proof fn law_readings_of_a_search(s: StationSearchView, reading: Option<Seq<char>>)
    ensures
        s.chosen is Some ==> search_with_state(s, reading) == s,
        s.chosen is None || s.names.len() >= s.paths.len() ==> search_with_name(s, reading) == s,
        search_with_state(s, reading).paths == s.paths,
        search_with_state(s, reading).names == s.names,
        search_with_name(s, reading).paths == s.paths,
        search_with_name(s, reading).chosen == s.chosen,
        search_with_name(s, reading).states_read == s.states_read,
        s.chosen is None ==> search_with_state(s, reading).states_read == s.states_read + 1,
{
}

/// The search begins among all stations, in order, with nothing read. Where there is none, or
/// nothing was listed, it does not begin.
pub proof fn law_search_begins(objects: Seq<ManagedObjectView>)
    ensures
        search_begun(None) == Err::<StationSearchView, _>(
            "iwd service not found on D-Bus. Is iwd running?"@,
        ),
        search_begun(Some(objects)) is Err <==> forall|i: int|
            0 <= i < objects.len() ==> !(#[trigger] objects[i]).interfaces.contains(
                "net.connman.iwd.Station"@,
            ),
        search_begun(Some(objects)) matches Err(e) ==> e
            == "No wireless adapters found. Check rfkill?"@,
        search_begun(Some(objects)) matches Ok(s) ==> {
            &&& s.paths.to_multiset() == station_paths(objects).to_multiset()
            &&& texts_in_order(s.paths)
            &&& s.chosen is None && s.states_read == 0 && s.names.len() == 0
        },
{
    let paths = station_paths(objects);
    crate::station::law_texts_sorted(paths);
    if paths.len() > 0 {
        law_stations_are_those_with_the_interface(objects, paths[0]);
        assert(paths.contains(paths[0]));
    } else {
        assert forall|i: int| 0 <= i < objects.len() implies !(
        #[trigger] objects[i]).interfaces.contains("net.connman.iwd.Station"@) by {
            law_stations_are_those_with_the_interface(objects, objects[i].path);
        }
    }
}

// ---------------------------------------------------------------------------------------------
// Waiting for a network
// ---------------------------------------------------------------------------------------------

/// A look finds the network where one of the objects is a network whose path ends as wanted, and
/// does not find it where none is. Of several it takes the first.
pub proof fn law_network_is_found_where_it_is(
    objects: Seq<ManagedObjectView>,
    suffix: Seq<char>,
    first: int,
)
    requires
        0 <= first <= objects.len(),
        forall|i: int|
            0 <= i < first ==> !((#[trigger] objects[i]).interfaces.contains(
                "net.connman.iwd.Network"@,
            ) && ends_in(objects[i].path, suffix)),
        first < objects.len() ==> objects[first].interfaces.contains("net.connman.iwd.Network"@)
            && ends_in(objects[first].path, suffix),
    ensures
        first_network(objects, suffix) == if first < objects.len() {
            Some(objects[first].path)
        } else {
            None
        },
    decreases first,
{
    if first > 0 {
        let rest = objects.drop_first();
        assert(!(objects[0].interfaces.contains("net.connman.iwd.Network"@) && ends_in(
            objects[0].path,
            suffix,
        )));
        assert forall|i: int| 0 <= i < first - 1 implies !((
        #[trigger] rest[i]).interfaces.contains("net.connman.iwd.Network"@) && ends_in(
            rest[i].path,
            suffix,
        )) by {
            assert(rest[i] == objects[i + 1]);
        }
        law_network_is_found_where_it_is(rest, suffix, first - 1);
        if first < objects.len() {
            assert(rest[first - 1] == objects[first]);
        }
    }
}

/// The station that is to scan is the first object that is one.
pub proof fn law_first_station_scans(objects: Seq<ManagedObjectView>, first: int)
    requires
        0 <= first <= objects.len(),
        forall|i: int|
            0 <= i < first ==> !(#[trigger] objects[i]).interfaces.contains(
                "net.connman.iwd.Station"@,
            ),
        first < objects.len() ==> objects[first].interfaces.contains("net.connman.iwd.Station"@),
    ensures
        first_station(objects) == if first < objects.len() {
            Some(objects[first].path)
        } else {
            None
        },
    decreases first,
{
    if first > 0 {
        let rest = objects.drop_first();
        assert(!objects[0].interfaces.contains("net.connman.iwd.Station"@));
        assert forall|i: int| 0 <= i < first - 1 implies !(#[trigger] rest[i]).interfaces.contains(
            "net.connman.iwd.Station"@,
        ) by {
            assert(rest[i] == objects[i + 1]);
        }
        law_first_station_scans(rest, first - 1);
        if first < objects.len() {
            assert(rest[first - 1] == objects[first]);
        }
    }
}

/// The wait looks on for fifteen seconds. It ends with the network as soon as that is found, and
/// with an error when the time is up. A look at nothing changes nothing; any other keeps what
/// is waited for, takes in what was found, and has a station scan the first time one is there.
pub proof fn law_wait(w: NetworkWaitView, objects: Seq<ManagedObjectView>, now: u64)
    ensures
        w.found matches Some(path) ==> wait_action(w, now) == WaitActionView::Done(Ok(path)),
        w.found is None && now < w.since + 15_000 ==> wait_action(w, now) == WaitActionView::Look,
        w.found is None && now >= w.since + 15_000 ==> wait_action(w, now) == WaitActionView::Done(
            Err("Network not found after iwd restart"@),
        ),
        wait_looked(w, None) == (w, None::<Seq<char>>),
        wait_from(w.suffix, now).suffix == w.suffix && wait_from(w.suffix, now).since == now
            && !wait_from(w.suffix, now).scanned && wait_from(w.suffix, now).found is None,
        ({
            let (after, scan) = wait_looked(w, Some(objects));
            &&& after.suffix == w.suffix && after.since == w.since
            &&& after.found == first_network(objects, w.suffix)
            &&& w.scanned ==> scan is None && after.scanned
            &&& !w.scanned ==> scan == first_station(objects) && after.scanned == scan is Some
        }),
{
}

// ---------------------------------------------------------------------------------------------
// A session with an agent
// ---------------------------------------------------------------------------------------------

/// The state of a session before the request is sent: each success leads to the next action,
/// and each failure ends the session with it, after the agent was taken back where iwd has it.
pub proof fn law_steps_to_the_request(s: AgentSessionView, event: AgentEventView, now: u64)
    ensures
        ({
            let after = agent_advance(s, event, now);
            let next = agent_action(after);
            &&& s.phase is Opening ==> (event matches AgentEventView::BusOpened(r) ==> match r {
                Ok(_) => next == AgentActionView::FindStation,
                Err(e) => next == AgentActionView::Done(Err(e)),
            })
            &&& s.phase is Finding ==> (event matches AgentEventView::StationFound(r) ==> match r {
                Ok(path) => next == (AgentActionView::ReadState { station_path: path })
                    && after.phase is Checking,
                Err(e) => next == AgentActionView::Done(Err(e)),
            })
            &&& s.phase is Checking ==> (event matches AgentEventView::State(state) ==> if state
                == Some("disconnected"@) {
                next == AgentActionView::UnregisterAgent && after.phase is Clearing
            } else {
                next == (AgentActionView::Disconnect { station_path: s.station_path })
            })
            &&& s.phase is Disconnecting && event is Disconnected ==> next == (
            AgentActionView::WaitAndReadState { station_path: s.station_path }) && after.phase == (
            AgentPhaseView::Leaving { polls: 0 })
            &&& s.phase matches AgentPhaseView::Leaving { polls } ==> (event matches
                AgentEventView::State(state) ==> if state == Some("disconnected"@) || polls >= 19 {
                after.phase is Clearing
            } else {
                after.phase == (AgentPhaseView::Leaving { polls: (polls + 1) as u32 }) && next == (
                AgentActionView::WaitAndReadState { station_path: s.station_path })
            })
            &&& s.phase is Clearing && event is Unregistered ==> next
                == AgentActionView::RegisterAgent
            &&& s.phase is Registering ==> (event matches AgentEventView::Registered(r) ==> match r {
                Ok(_) => next == (AgentActionView::SendConnect { network_path: s.network_path }),
                Err(e) => next == AgentActionView::Done(Err(e)),
            })
            &&& s.phase is Sending ==> (event matches AgentEventView::Sent(outcome) ==> match outcome {
                SendOutcomeView::Sent => next == AgentActionView::DrainMessages && after.started_at
                    == now,
                SendOutcomeView::BadMessage(e) => after.phase == (AgentPhaseView::Closing {
                    result: Err(e),
                }),
                SendOutcomeView::NotSent => after.phase == (AgentPhaseView::Closing {
                    result: Err("Failed to send Connect"@),
                }),
            })
        }),
{
}

/// The state of a session after the request was sent. In each round the messages are handled,
/// the error of the request is looked for, then whether the network is connected, then the
/// state of the station. A lost bus, an error and a connection end it. So does a station that is
/// disconnected, once it was seen to connect or after more than five seconds; and so does any
/// state after thirty. Else messages are waited for, and it goes round again.
pub proof fn law_steps_after_the_request(s: AgentSessionView, event: AgentEventView, now: u64)
    ensures
        ({
            let after = agent_advance(s, event, now);
            let next = agent_action(after);
            &&& s.phase is Draining ==> (event matches AgentEventView::Drained(r) ==> match r {
                Ok(_) => next == AgentActionView::TakeError,
                Err(e) => after.phase == (AgentPhaseView::Closing {
                    result: Err("D-Bus error: "@ + e),
                }),
            })
            &&& s.phase is Collecting ==> (event matches AgentEventView::Error(error) ==> match error {
                None => next == (AgentActionView::ReadConnected { network_path: s.network_path }),
                Some(name) => after.phase == (AgentPhaseView::Closing {
                    result: Err(connect_error(name)),
                }),
            })
            &&& s.phase is Asking ==> (event matches AgentEventView::Connected(connected)
                ==> if connected == Some(true) {
                after.phase == (AgentPhaseView::Closing { result: Ok::<(), Seq<char>>(()) })
            } else {
                next == (AgentActionView::ReadState { station_path: s.station_path })
                    && after.phase is Watching
            })
            &&& s.phase is Watching ==> (event matches AgentEventView::State(state) ==> {
                let seen = s.seen_connecting || state == Some("connecting"@);
                &&& after.seen_connecting == seen
                &&& state == Some("disconnected"@) && (seen || now > s.started_at + 5_000)
                    ==> after.phase == (AgentPhaseView::Closing {
                    result: Err("Connection failed"@),
                })
                &&& !(state == Some("disconnected"@) && (seen || now > s.started_at + 5_000)) && now
                    >= s.started_at + 30_000 ==> after.phase == (AgentPhaseView::Closing {
                    result: Err("Connection timed out"@),
                })
                &&& !(state == Some("disconnected"@) && (seen || now > s.started_at + 5_000)) && now
                    < s.started_at + 30_000 ==> next == AgentActionView::WaitForMessages
            })
            &&& s.phase is Waiting && event is Waited ==> next == AgentActionView::DrainMessages
            &&& s.phase matches AgentPhaseView::Closing { result } ==> agent_action(s)
                == AgentActionView::UnregisterAgent && (event is Unregistered ==> next
                == AgentActionView::Done(result))
            &&& after.network_path == s.network_path && after.password == s.password
            &&& s.phase !is Finding ==> after.station_path == s.station_path
            &&& s.phase !is Sending ==> after.started_at == s.started_at
            &&& s.phase !is Watching ==> after.seen_connecting == s.seen_connecting
        }),
{
}

/// An event that does not answer what was to be done leaves a session as it is.
pub proof fn law_other_events_change_nothing(
    s: AgentSessionView,
    event: AgentEventView,
    now: u64,
)
    requires
        !answers(s, event),
    ensures
        agent_advance(s, event, now) == s,
{
}

/// A session begins by opening the bus with the password that the agent hands out, and has not
/// seen anything yet.
pub proof fn law_session_begins(network_path: Seq<char>, password: Seq<char>)
    ensures
        agent_action(session_start(network_path, password)) == (AgentActionView::OpenBus {
            password,
        }),
        session_start(network_path, password).network_path == network_path,
        !session_start(network_path, password).seen_connecting,
{
}

/// An error is called by what stands behind the last dot of its name, and by all of its name
/// where there is no dot. One that says `InProgress` anywhere is called that.
pub proof fn law_connect_error(prefix: Seq<char>, label: Seq<char>)
    requires
        !occurs(label, "."@),
    ensures
        !occurs(prefix + "."@ + label, "InProgress"@) ==> connect_error(prefix + "."@ + label)
            == label,
        !occurs(label, "InProgress"@) ==> connect_error(label) == label,
        occurs(label, "InProgress"@) ==> connect_error(label) == "InProgress"@,
        occurs(prefix + "."@ + label, "InProgress"@) ==> connect_error(prefix + "."@ + label)
            == "InProgress"@,
{
    reveal_strlit(".");
    law_behind_the_last(prefix, "."@, label);
}

/// Each call of a session goes where it belongs: the request to connect to the network, the one
/// to leave to the station, and the agent to iwd's manager of agents, by its path. Each read is
/// of the network or of the station. No other action calls or reads.
pub proof fn law_calls_of_a_session(action: AgentActionView, path: Seq<char>)
    ensures
        call_of_action(AgentActionView::SendConnect { network_path: path }) == Some(
            AgentCallView {
                call: MethodCallView {
                    path,
                    interface: "net.connman.iwd.Network"@,
                    method: "Connect"@,
                },
                argument: None,
            },
        ),
        call_of_action(AgentActionView::Disconnect { station_path: path }) == Some(
            AgentCallView {
                call: MethodCallView {
                    path,
                    interface: "net.connman.iwd.Station"@,
                    method: "Disconnect"@,
                },
                argument: None,
            },
        ),
        action is RegisterAgent || action is UnregisterAgent ==> call_of_action(action) == Some(
            AgentCallView {
                call: MethodCallView {
                    path: "/net/connman/iwd"@,
                    interface: "net.connman.iwd.AgentManager"@,
                    method: if action is RegisterAgent {
                        "RegisterAgent"@
                    } else {
                        "UnregisterAgent"@
                    },
                },
                argument: Some("/iwdtui/agent"@),
            },
        ),
        action !is SendConnect && action !is Disconnect && action !is RegisterAgent && action
            !is UnregisterAgent ==> call_of_action(action) is None,
        read_of_action(AgentActionView::ReadConnected { network_path: path }) == Some(
            PropertyReadView {
                path,
                interface: "net.connman.iwd.Network"@,
                property: "Connected"@,
            },
        ),
        read_of_action(AgentActionView::ReadState { station_path: path }) == Some(
            PropertyReadView {
                path,
                interface: "net.connman.iwd.Station"@,
                property: "State"@,
            },
        ),
        read_of_action(AgentActionView::WaitAndReadState { station_path: path }) == Some(
            PropertyReadView {
                path,
                interface: "net.connman.iwd.Station"@,
                property: "State"@,
            },
        ),
        action !is ReadConnected && action !is ReadState && action !is WaitAndReadState
            ==> read_of_action(action) is None,
{
}

// ---------------------------------------------------------------------------------------------
// Attempts and restarts
// ---------------------------------------------------------------------------------------------

/// The command to connect with a password, and no other, asks for an attempt, on its network
/// and with its password.
pub proof fn law_attempt_is_as_commanded(
    command: CommandView,
    network_path: Seq<char>,
    password: Seq<char>,
)
    ensures
        attempt_of(CommandView::AgentConnect { network_path, password }) == Some(
            ConnectAttemptView { network_path, password, retried: false },
        ),
        command !is AgentConnect ==> attempt_of(command) is None,
{
}

/// An attempt runs a session and ends as that does, unless iwd is busy; then it restarts iwd,
/// waits for the network by the last part of its path, and runs one more session, which decides.
/// A failure on the way ends it.
pub proof fn law_steps_of_an_attempt(
    a: ConnectAttemptView,
    result: Result<(), Seq<char>>,
    path: Seq<char>,
    error: Seq<char>,
    dir: Seq<char>,
    name: Seq<char>,
)
    requires
        !occurs(name, "/"@),
    ensures
        attempt_step(a, AttemptEventView::Start) == (
            a,
            AttemptActionView::TryOnce { network_path: a.network_path, password: a.password },
        ),
        a.retried || result is Ok || result->Err_0 != "InProgress"@ ==> attempt_step(
            a,
            AttemptEventView::Tried(result),
        ) == (a, AttemptActionView::Done(result)),
        !a.retried ==> attempt_step(a, AttemptEventView::Tried(Err("InProgress"@))) == (
            a,
            AttemptActionView::Restart,
        ),
        attempt_step(a, AttemptEventView::Restarted(Err(error))) == (
            a,
            AttemptActionView::Done(Err(error)),
        ),
        a.network_path == dir + "/"@ + name ==> attempt_step(
            a,
            AttemptEventView::Restarted(Ok(())),
        ) == (a, AttemptActionView::WaitForNetwork { suffix: name }),
        a.network_path == name ==> attempt_step(a, AttemptEventView::Restarted(Ok(()))) == (
            a,
            AttemptActionView::WaitForNetwork { suffix: name },
        ),
        attempt_step(a, AttemptEventView::Found(Err(error))) == (
            a,
            AttemptActionView::Done(Err(error)),
        ),
        attempt_step(a, AttemptEventView::Found(Ok(path))) == (
            ConnectAttemptView { network_path: path, password: a.password, retried: true },
            AttemptActionView::TryOnce { network_path: path, password: a.password },
        ),
{
    reveal_strlit("/");
    law_behind_the_last(dir, "/"@, name);
}

/// To restart iwd, `sv restart iwd` is run, then the same through `sudo -n` where that failed.
/// One that succeeds is enough, and two that fail are an error.
pub proof fn law_restart(runs: u32, succeeded: bool)
    ensures
        runs == 0 ==> restart_step(runs, succeeded) == (RestartActionView::Run {
            program: "sv"@,
            args: seq!["restart"@, "iwd"@],
        }),
        runs > 0 && succeeded ==> restart_step(runs, succeeded) == RestartActionView::Done(Ok(())),
        runs == 1 && !succeeded ==> restart_step(runs, succeeded) == (RestartActionView::Run {
            program: "sudo"@,
            args: seq!["-n"@, "sv"@, "restart"@, "iwd"@],
        }),
        runs >= 2 && !succeeded ==> restart_step(runs, succeeded) == RestartActionView::Done(
            Err("Failed to restart iwd (need root)"@),
        ),
{
}

// ---------------------------------------------------------------------------------------------
// Commands
// ---------------------------------------------------------------------------------------------

/// Each command that one call does is that call on its own object: scanning and leaving on the
/// station, connecting on the network, forgetting on the stored network. The others have no
/// such call.
pub proof fn law_commands_call_their_objects(command: CommandView, path: Seq<char>)
    ensures
        call_of(CommandView::Scan { station_path: path }) == Some(
            MethodCallView { path, interface: "net.connman.iwd.Station"@, method: "Scan"@ },
        ),
        call_of(CommandView::Disconnect { station_path: path }) == Some(
            MethodCallView { path, interface: "net.connman.iwd.Station"@, method: "Disconnect"@ },
        ),
        call_of(CommandView::Connect { network_path: path }) == Some(
            MethodCallView { path, interface: "net.connman.iwd.Network"@, method: "Connect"@ },
        ),
        call_of(CommandView::Forget { known_path: path }) == Some(
            MethodCallView { path, interface: "net.connman.iwd.KnownNetwork"@, method: "Forget"@ },
        ),
        command is AgentConnect || command is ToggleAutoConnect || command is Refresh ==> call_of(
            command,
        ) is None,
{
}

/// Automatic connection is turned on where it is off and off where it is on. A failure to read
/// it is handed on.
pub proof fn law_opposite(on: bool, error: Seq<char>)
    ensures
        opposite(Ok(on)) == Ok::<bool, Seq<char>>(!on),
        opposite(Err(error)) == Err::<bool, Seq<char>>(error),
        opposite(opposite(Ok(on))) == Ok::<bool, Seq<char>>(on),
{
}

/// Each command is answered in its own kind with its own outcome, and a connection under the
/// path it was made to.
pub proof fn law_answers_go_with_their_commands(
    path: Seq<char>,
    password: Seq<char>,
    result: Result<(), Seq<char>>,
)
    ensures
        answer_of(CommandView::Scan { station_path: path }, result) == Some(
            ActionResultView::Scan(result),
        ),
        answer_of(CommandView::Connect { network_path: path }, result) == Some(
            ActionResultView::Connect { path, result },
        ),
        answer_of(CommandView::AgentConnect { network_path: path, password }, result) == Some(
            ActionResultView::Connect { path, result },
        ),
        answer_of(CommandView::Disconnect { station_path: path }, result) == Some(
            ActionResultView::Disconnect(result),
        ),
        answer_of(CommandView::Forget { known_path: path }, result) == Some(
            ActionResultView::Forget(result),
        ),
        answer_of(CommandView::ToggleAutoConnect { known_path: path }, result) == Some(
            ActionResultView::AutoConnect(result),
        ),
        answer_of(CommandView::Refresh, result) is None,
{
}

// ---------------------------------------------------------------------------------------------
// The schedule
// ---------------------------------------------------------------------------------------------

/// The state is read anew 300 ms after it last was, and the networks two seconds after; a task
/// is asked for as soon as it is due and not before, the state first. Doing one task leaves the
/// time of the other alone.
pub proof fn law_tasks_when_due(s: Schedule, now: u64)
    ensures
        task_due(s, None, now) == if now >= s.status_at + 300 {
            Some(Task::Status)
        } else if now >= s.networks_at + 2_000 {
            Some(Task::Networks)
        } else {
            None
        },
        task_due(s, Some(Task::Status), now) == if now >= s.networks_at + 2_000 {
            Some(Task::Networks)
        } else {
            None
        },
        task_due(s, Some(Task::Networks), now) is None,
        schedule_from(now).status_at == now && schedule_from(now).networks_at == now,
        task_done(s, Task::Status, now) == (Schedule {
            status_at: now,
            networks_at: s.networks_at,
        }),
        task_done(s, Task::Networks, now) == (Schedule {
            status_at: s.status_at,
            networks_at: now,
        }),
{
}

} // verus!
