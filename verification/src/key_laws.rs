//! What holds of the keys, whatever the state.

use vstd::prelude::*;

use crate::app::{cursor_in_list, network_at_cursor, AdapterView, AppView, OverlayView};
use crate::keys::{
    adapter_paths, answered, asking_to_forget, connecting, cursor_down, cursor_up, cycling,
    forgetting, key_pressed, next_adapter, nothing_to_connect, overlay_key, submitting, toggling,
    with_error, without_error, ActionResultView, CommandView, KeyCode,
};
use crate::network::NetworkView;
use crate::text::lemma_index_of;

verus! {

/// No key moves the cursor off the list, and no key changes the list.
pub proof fn law_keys_keep_cursor_in_list(app: AppView, key: KeyCode, now: u64)
    requires
        cursor_in_list(app),
    ensures
        cursor_in_list(key_pressed(app, key, now).0),
        key_pressed(app, key, now).0.networks == app.networks,
        key_pressed(app, key, now).0.adapters == app.adapters,
{
}

/// While a box is open, a key can change the box and the connection that is being made, and
/// nothing else. It cannot quit the program.
pub proof fn law_open_box_takes_keys(app: AppView, key: KeyCode, now: u64)
    requires
        app.overlay is Some,
    ensures
        key_pressed(app, key, now).0 == (AppView {
            overlay: key_pressed(app, key, now).0.overlay,
            pending_connect_path: key_pressed(app, key, now).0.pending_connect_path,
            ..app
        }),
{
}

/// `esc` closes an open box and does no more; with no box open it quits.
pub proof fn law_esc(app: AppView, now: u64)
    ensures
        key_pressed(app, KeyCode::Esc, now).1 is None,
        app.overlay is Some ==> key_pressed(app, KeyCode::Esc, now).0 == (AppView {
            overlay: None,
            ..app
        }),
        app.overlay is None ==> key_pressed(app, KeyCode::Esc, now).0 == (AppView {
            should_quit: true,
            ..app
        }),
{
}

/// The network that a command connects to.
pub open spec fn connects_to(command: Option<CommandView>) -> Option<Seq<char>> {
    match command {
        Some(CommandView::Connect { network_path }) => Some(network_path),
        Some(CommandView::AgentConnect { network_path, password }) => Some(network_path),
        _ => None,
    }
}

/// One connection is made at a time: a key gives the command to connect only where no
/// connection is being made, and then that one is. No key takes back a connection that is
/// being made.
pub proof fn law_one_connection_at_a_time(app: AppView, key: KeyCode, now: u64)
    ensures
        connects_to(key_pressed(app, key, now).1) matches Some(path)
            ==> app.pending_connect_path is None
            && key_pressed(app, key, now).0.pending_connect_path == Some(path),
        connects_to(key_pressed(app, key, now).1) is None
            ==> key_pressed(app, key, now).0.pending_connect_path == app.pending_connect_path,
{
}

/// Connecting is idempotent: once `enter` in the list has given the command to connect, `enter`
/// again gives no command and changes nothing.
pub proof fn law_connecting_again_does_nothing(app: AppView, now: u64, later: u64)
    requires
        app.overlay is None,
        key_pressed(app, KeyCode::Enter, now).1 is Some,
    ensures
        key_pressed(key_pressed(app, KeyCode::Enter, now).0, KeyCode::Enter, later) == (
            key_pressed(app, KeyCode::Enter, now).0,
            None::<CommandView>,
        ),
{
}

/// The connected network is not connected to again.
pub proof fn law_connected_network_is_left_alone(app: AppView, now: u64)
    requires
        app.overlay is None,
        network_at_cursor(app) matches Some(n) && n.connected,
    ensures
        key_pressed(app, KeyCode::Enter, now) == (without_error(app), None::<CommandView>),
{
}

/// A network is forgotten only after confirmation: the command to forget one comes from `y` in
/// the box that asks about that very network.
pub proof fn law_forgetting_is_confirmed(app: AppView, key: KeyCode, now: u64)
    requires
        key_pressed(app, key, now).1 matches Some(CommandView::Forget { known_path }),
    ensures
        key == KeyCode::Char('y'),
        app.overlay matches Some(OverlayView::ForgetConfirm { known_path: asked, network_name })
            && key_pressed(app, key, now).1 == Some(CommandView::Forget { known_path: asked }),
{
}

/// The box that asks whether to forget a network asks about the known network under the
/// cursor.
pub proof fn law_forgetting_asks_about_selection(app: AppView, now: u64)
    requires
        app.overlay is None,
    ensures
        key_pressed(app, KeyCode::Char('f'), now).1 is None,
        key_pressed(app, KeyCode::Char('f'), now).0.overlay matches Some(overlay)
            ==> network_at_cursor(app) matches Some(n) && n.known_path is Some && overlay == (
        OverlayView::ForgetConfirm { known_path: n.known_path->0, network_name: n.name }),
{
}

/// A password is asked for only where one is needed: for a network that is neither known nor
/// open.
pub proof fn law_password_is_asked_when_needed(app: AppView, now: u64)
    requires
        app.overlay is None,
    ensures
        key_pressed(app, KeyCode::Enter, now).0.overlay matches Some(overlay)
            ==> network_at_cursor(app) matches Some(n) && n.known_path is None && n.net_type
            != "open"@ && overlay == (OverlayView::Password {
            input: Seq::empty(),
            visible: false,
            network_path: n.path,
            network_name: n.name,
        }),
{
}

/// The state after a text was typed, character by character.
pub open spec fn typed(app: AppView, text: Seq<char>, now: u64) -> AppView
    decreases text.len(),
{
    if text.len() == 0 {
        app
    } else {
        key_pressed(typed(app, text.drop_last(), now), KeyCode::Char(text.last()), now).0
    }
}

/// What is typed is what is submitted: a text typed into an empty password box, then `enter`,
/// gives the command to connect to the network of the box with that text as the password. This
/// leaves out the character `v`, which shows and hides the password.
pub proof fn law_password_is_what_was_typed(app: AppView, text: Seq<char>, now: u64)
    requires
        app.pending_connect_path is None,
        app.overlay matches Some(OverlayView::Password { input, visible, network_path, network_name })
            && input.len() == 0,
        forall|i: int| 0 <= i < text.len() ==> #[trigger] text[i] != 'v',
    ensures
        key_pressed(typed(app, text, now), KeyCode::Enter, now).1 == Some(
            CommandView::AgentConnect {
                network_path: app.overlay->0->Password_network_path,
                password: text,
            },
        ),
        key_pressed(typed(app, text, now), KeyCode::Enter, now).0.overlay is None,
{
    lemma_typed(app, text, now);
}

proof fn lemma_typed(app: AppView, text: Seq<char>, now: u64)
    requires
        app.overlay matches Some(OverlayView::Password { input, visible, network_path, network_name })
            && input.len() == 0,
        forall|i: int| 0 <= i < text.len() ==> #[trigger] text[i] != 'v',
    ensures
        typed(app, text, now) == (AppView {
            overlay: Some(
                OverlayView::Password {
                    input: text,
                    visible: app.overlay->0->visible,
                    network_path: app.overlay->0->Password_network_path,
                    network_name: app.overlay->0->Password_network_name,
                },
            ),
            ..app
        }),
    decreases text.len(),
{
    if text.len() == 0 {
        assert(app.overlay->0->input =~= text);
    } else {
        lemma_typed(app, text.drop_last(), now);
        assert(text.drop_last().push(text.last()) =~= text);
    }
}

/// `backspace` takes back what was typed last.
pub proof fn law_backspace_takes_back(app: AppView, c: char, now: u64)
    requires
        app.overlay is Some && app.overlay->0 is Password,
        c != 'v',
    ensures
        key_pressed(key_pressed(app, KeyCode::Char(c), now).0, KeyCode::Backspace, now).0 == app,
{
    let input = app.overlay->0->input;
    assert(input.push(c).drop_last() =~= input);
}

/// `v` shows the password and `v` again hides it; what was typed stays.
pub proof fn law_show_and_hide(app: AppView, now: u64)
    requires
        app.overlay is Some && app.overlay->0 is Password,
    ensures
        ({
            let shown = key_pressed(app, KeyCode::Char('v'), now).0;
            &&& shown.overlay->0->input == app.overlay->0->input
            &&& shown.overlay->0->visible != app.overlay->0->visible
            &&& key_pressed(shown, KeyCode::Char('v'), now).0 == app
        }),
{
}

/// The state after `tab` was pressed `n` times.
pub open spec fn tabbed(app: AppView, n: nat) -> AppView
    decreases n,
{
    if n == 0 {
        app
    } else {
        cycling(tabbed(app, (n - 1) as nat)).0
    }
}

/// `tab` goes round the adapters: pressed once for each of them, it is back where it began.
pub proof fn law_tab_goes_round(app: AppView)
    requires
        app.adapters.len() >= 2,
        adapter_paths(app.adapters).no_duplicates(),
        app.adapters.contains(
            AdapterView { path: app.station_path, name: app.interface_name },
        ),
    ensures
        tabbed(app, app.adapters.len()).station_path == app.station_path,
        tabbed(app, app.adapters.len()).interface_name == app.interface_name,
{
    let at = choose|i: int|
        0 <= i < app.adapters.len() && app.adapters[i] == (AdapterView {
            path: app.station_path,
            name: app.interface_name,
        });
    lemma_tabbed(app, at, app.adapters.len());
    assert((at + app.adapters.len()) % (app.adapters.len() as int) == at) by (nonlinear_arith)
        requires
            0 <= at < app.adapters.len(),
    ;
}

proof fn lemma_tabbed(app: AppView, at: int, n: nat)
    requires
        app.adapters.len() >= 2,
        adapter_paths(app.adapters).no_duplicates(),
        0 <= at < app.adapters.len(),
        app.adapters[at] == (AdapterView { path: app.station_path, name: app.interface_name }),
    ensures
        tabbed(app, n).adapters == app.adapters,
        ({
            let now_at = app.adapters[(at + n) % (app.adapters.len() as int)];
            &&& tabbed(app, n).station_path == now_at.path
            &&& tabbed(app, n).interface_name == now_at.name
        }),
    decreases n,
{
    let len = app.adapters.len() as int;
    if n == 0 {
        assert(at % len == at) by (nonlinear_arith)
            requires
                0 <= at < len,
        ;
    } else {
        let before = tabbed(app, (n - 1) as nat);
        lemma_tabbed(app, at, (n - 1) as nat);
        let k = (at + n - 1) % len;
        let paths = adapter_paths(app.adapters);
        assert(0 <= k < len) by (nonlinear_arith)
            requires
                k == (at + n - 1) % len,
                len > 0,
        ;
        assert(paths[k] == before.station_path);
        assert forall|i: int| 0 <= i < k implies #[trigger] paths[i] != before.station_path by {
            assert(paths[i] != paths[k]);
        }
        lemma_index_of(paths, before.station_path, k as nat);
        let next = next_adapter(app.adapters, before.station_path);
        assert((at + n) % len == (if k + 1 < len { k + 1 } else { 0 })) by (nonlinear_arith)
            requires
                k == (at + n - 1) % len,
                len > 0,
        ;
        assert(next == (at + n) % len);
    }
}

/// With a single adapter, `tab` does nothing.
pub proof fn law_tab_with_one_adapter(app: AppView, now: u64)
    requires
        app.overlay is None,
        app.adapters.len() <= 1,
    ensures
        key_pressed(app, KeyCode::Tab, now) == (app, None::<CommandView>),
{
}

/// Once a connection has failed, it is no longer being made, and its failure is shown.
pub proof fn law_failed_connection_ends(app: AppView, path: Seq<char>, error: Seq<char>, now: u64)
    requires
        app.pending_connect_path == Some(path),
    ensures
        ({
            let after = answered(
                app,
                ActionResultView::Connect { path, result: Err(error) },
                now,
            ).0;
            &&& after.pending_connect_path is None
            &&& after.header_error == Some(crate::format::gist(error))
        }),
{
}

/// The answer to one command leaves the connection to another network alone.
pub proof fn law_answers_leave_other_connections(app: AppView, answer: ActionResultView, now: u64)
    requires
        app.pending_connect_path matches Some(pending) && !(answer matches ActionResultView::Connect {
            path,
            result,
        } && path == pending),
    ensures
        answered(app, answer, now).0.pending_connect_path == app.pending_connect_path,
        answered(app, answer, now).0.networks == app.networks,
        answered(app, answer, now).0.selected == app.selected,
{
}

// ---------------------------------------------------------------------------------------------
// Each key by itself
// ---------------------------------------------------------------------------------------------

/// `enter` connects to the network under the cursor and to no other: at once where it is known
/// or open, and then that connection is being made; else it asks for that network's password.
/// Where it is connected, or a connection is being made, nothing happens.
pub proof fn law_enter_connects_to_the_selected_network(app: AppView, now: u64)
    requires
        app.overlay is None,
        app.selected < app.networks.len(),
    ensures
        ({
            let n = app.networks[app.selected as int];
            let (after, command) = key_pressed(app, KeyCode::Enter, now);
            let idle = n.connected || app.pending_connect_path is Some;
            let direct = n.known_path is Some || n.net_type == "open"@;
            &&& command matches Some(c) ==> c == (CommandView::Connect { network_path: n.path })
            &&& command is Some <==> !idle && direct
            &&& command is Some ==> after == (AppView {
                header_error: None,
                pending_connect_path: Some(n.path),
                ..app
            })
            &&& idle ==> after == (AppView { header_error: None, ..app })
            &&& !idle && !direct ==> after == (AppView {
                header_error: None,
                overlay: Some(
                    OverlayView::Password {
                        input: Seq::empty(),
                        visible: false,
                        network_path: n.path,
                        network_name: n.name,
                    },
                ),
                ..app
            })
        }),
{
}

/// `enter` without a network under the cursor gives no command and shows an error from then
/// on.
pub proof fn law_enter_needs_a_network(app: AppView, now: u64)
    requires
        app.overlay is None,
        app.selected >= app.networks.len(),
    ensures
        key_pressed(app, KeyCode::Enter, now) == (
            AppView {
                header_error: Some(crate::format::gist("No network selected"@)),
                header_error_at: now,
                ..app
            },
            None::<CommandView>,
        ),
{
}

/// The cursor after `j` was pressed `n` times.
pub open spec fn down(app: AppView, n: nat, now: u64) -> AppView
    decreases n,
{
    if n == 0 {
        app
    } else {
        key_pressed(down(app, (n - 1) as nat, now), KeyCode::Char('j'), now).0
    }
}

/// `j` and the arrow down move the cursor to the next network, `k` and the arrow up to the one
/// before, by one and no more, and stop at the ends of the list. They change nothing else and
/// give no command.
pub proof fn law_cursor_moves_by_one(app: AppView, now: u64)
    requires
        app.overlay is None,
        app.selected < app.networks.len(),
    ensures
        key_pressed(app, KeyCode::Char('j'), now) == (
            AppView {
                selected: if app.selected + 1 == app.networks.len() {
                    app.selected
                } else {
                    app.selected + 1
                },
                ..app
            },
            None::<CommandView>,
        ),
        key_pressed(app, KeyCode::Down, now) == key_pressed(app, KeyCode::Char('j'), now),
        key_pressed(app, KeyCode::Char('k'), now) == (
            AppView {
                selected: if app.selected == 0 {
                    0
                } else {
                    (app.selected - 1) as nat
                },
                ..app
            },
            None::<CommandView>,
        ),
        key_pressed(app, KeyCode::Up, now) == key_pressed(app, KeyCode::Char('k'), now),
        app.selected + 1 < app.networks.len() ==> key_pressed(
            key_pressed(app, KeyCode::Char('j'), now).0,
            KeyCode::Char('k'),
            now,
        ).0 == app,
        app.selected > 0 ==> key_pressed(
            key_pressed(app, KeyCode::Char('k'), now).0,
            KeyCode::Char('j'),
            now,
        ).0 == app,
{
}

/// Every network can be reached: from the top, `j` pressed `n` times leads to position `n`.
pub proof fn law_every_network_is_reached(app: AppView, n: nat, now: u64)
    requires
        app.overlay is None,
        app.selected == 0,
        n < app.networks.len(),
    ensures
        down(app, n, now) == (AppView { selected: n, ..app }),
    decreases n,
{
    if n > 0 {
        law_every_network_is_reached(app, (n - 1) as nat, now);
    }
}

/// In an empty list the cursor keys do nothing.
pub proof fn law_cursor_in_empty_list(app: AppView, now: u64)
    requires
        app.overlay is None,
        app.networks.len() == 0,
        app.selected == 0,
    ensures
        key_pressed(app, KeyCode::Char('j'), now) == (app, None::<CommandView>),
        key_pressed(app, KeyCode::Char('k'), now) == (app, None::<CommandView>),
        key_pressed(app, KeyCode::Down, now) == (app, None::<CommandView>),
        key_pressed(app, KeyCode::Up, now) == (app, None::<CommandView>),
{
}

/// `s` has the station scan, unless it is scanning already, and `d` has it leave its network.
/// Both take the error off and change nothing else.
pub proof fn law_scan_and_disconnect(app: AppView, now: u64)
    requires
        app.overlay is None,
    ensures
        !app.scanning ==> key_pressed(app, KeyCode::Char('s'), now) == (
            AppView { header_error: None, ..app },
            Some(CommandView::Scan { station_path: app.station_path }),
        ),
        app.scanning ==> key_pressed(app, KeyCode::Char('s'), now) == (app, None::<CommandView>),
        key_pressed(app, KeyCode::Char('d'), now) == (
            AppView { header_error: None, ..app },
            Some(CommandView::Disconnect { station_path: app.station_path }),
        ),
{
}

/// `f` asks about the network under the cursor and `a` toggles automatic connection to it,
/// where it is known. Where it is not, both show so. Without a network under the cursor they
/// only take the error off.
pub proof fn law_forget_and_toggle_the_selected_network(app: AppView, now: u64)
    requires
        app.overlay is None,
    ensures
        app.selected >= app.networks.len() ==> key_pressed(app, KeyCode::Char('f'), now) == (
            AppView { header_error: None, ..app },
            None::<CommandView>,
        ) && key_pressed(app, KeyCode::Char('a'), now) == (
            AppView { header_error: None, ..app },
            None::<CommandView>,
        ),
        app.selected < app.networks.len() ==> ({
            let n = app.networks[app.selected as int];
            let refused = (
                AppView {
                    header_error: Some(crate::format::gist("Not a known network"@)),
                    header_error_at: now,
                    ..app
                },
                None::<CommandView>,
            );
            &&& n.known_path is None ==> key_pressed(app, KeyCode::Char('f'), now) == refused
                && key_pressed(app, KeyCode::Char('a'), now) == refused
            &&& n.known_path matches Some(known_path) ==> key_pressed(
                app,
                KeyCode::Char('f'),
                now,
            ) == (
                AppView {
                    header_error: None,
                    overlay: Some(
                        OverlayView::ForgetConfirm { known_path, network_name: n.name },
                    ),
                    ..app
                },
                None::<CommandView>,
            ) && key_pressed(app, KeyCode::Char('a'), now) == (
                AppView { header_error: None, ..app },
                Some(CommandView::ToggleAutoConnect { known_path }),
            )
        }),
{
}

/// `q` quits, and keys without a meaning do nothing.
pub proof fn law_other_keys(app: AppView, c: char, now: u64)
    requires
        app.overlay is None,
    ensures
        key_pressed(app, KeyCode::Char('q'), now) == (
            AppView { should_quit: true, ..app },
            None::<CommandView>,
        ),
        c != 'q' && c != 'j' && c != 'k' && c != 's' && c != 'd' && c != 'f' && c != 'a'
            ==> key_pressed(app, KeyCode::Char(c), now) == (app, None::<CommandView>),
        key_pressed(app, KeyCode::Backspace, now) == (app, None::<CommandView>),
        key_pressed(app, KeyCode::Other, now) == (app, None::<CommandView>),
{
}

/// In the box for a password, characters are added to what was typed, `backspace` takes the
/// last one off, and `enter` submits it to the network of the box and closes the box, unless
/// a connection is being made. Keys without a meaning do nothing.
pub proof fn law_password_box_keys(
    app: AppView,
    input: Seq<char>,
    visible: bool,
    network_path: Seq<char>,
    network_name: Seq<char>,
    c: char,
    now: u64,
)
    requires
        app.overlay == Some(
            OverlayView::Password { input, visible, network_path, network_name },
        ),
    ensures
        c != 'v' ==> key_pressed(app, KeyCode::Char(c), now) == (
            AppView {
                overlay: Some(
                    OverlayView::Password {
                        input: input.push(c),
                        visible,
                        network_path,
                        network_name,
                    },
                ),
                ..app
            },
            None::<CommandView>,
        ),
        key_pressed(app, KeyCode::Char('v'), now) == (
            AppView {
                overlay: Some(
                    OverlayView::Password { input, visible: !visible, network_path, network_name },
                ),
                ..app
            },
            None::<CommandView>,
        ),
        input.len() > 0 ==> key_pressed(app, KeyCode::Backspace, now) == (
            AppView {
                overlay: Some(
                    OverlayView::Password {
                        input: input.take(input.len() - 1),
                        visible,
                        network_path,
                        network_name,
                    },
                ),
                ..app
            },
            None::<CommandView>,
        ),
        input.len() == 0 ==> key_pressed(app, KeyCode::Backspace, now) == (
            app,
            None::<CommandView>,
        ),
        app.pending_connect_path is None ==> key_pressed(app, KeyCode::Enter, now) == (
            AppView { overlay: None, pending_connect_path: Some(network_path), ..app },
            Some(CommandView::AgentConnect { network_path, password: input }),
        ),
        app.pending_connect_path is Some ==> key_pressed(app, KeyCode::Enter, now) == (
            app,
            None::<CommandView>,
        ),
        key_pressed(app, KeyCode::Up, now) == (app, None::<CommandView>),
        key_pressed(app, KeyCode::Down, now) == (app, None::<CommandView>),
        key_pressed(app, KeyCode::Tab, now) == (app, None::<CommandView>),
        key_pressed(app, KeyCode::Other, now) == (app, None::<CommandView>),
{
    if input.len() > 0 {
        assert(input.drop_last() =~= input.take(input.len() - 1));
    }
}

/// In the box that asks whether to forget a network, `y` forgets that one and `n` does not;
/// both close the box. Other characters do nothing, and neither do keys without a meaning.
pub proof fn law_forget_box_keys(
    app: AppView,
    known_path: Seq<char>,
    network_name: Seq<char>,
    c: char,
    now: u64,
)
    requires
        app.overlay == Some(OverlayView::ForgetConfirm { known_path, network_name }),
    ensures
        key_pressed(app, KeyCode::Char('y'), now) == (
            AppView { overlay: None, ..app },
            Some(CommandView::Forget { known_path }),
        ),
        key_pressed(app, KeyCode::Char('n'), now) == (
            AppView { overlay: None, ..app },
            None::<CommandView>,
        ),
        c != 'y' && c != 'n' ==> key_pressed(app, KeyCode::Char(c), now) == (
            app,
            None::<CommandView>,
        ),
        key_pressed(app, KeyCode::Enter, now) == (app, None::<CommandView>),
        key_pressed(app, KeyCode::Backspace, now) == (app, None::<CommandView>),
        key_pressed(app, KeyCode::Up, now) == (app, None::<CommandView>),
        key_pressed(app, KeyCode::Down, now) == (app, None::<CommandView>),
        key_pressed(app, KeyCode::Tab, now) == (app, None::<CommandView>),
        key_pressed(app, KeyCode::Other, now) == (app, None::<CommandView>),
{
}

/// `tab` goes to the adapter that comes next in the list, from the last to the first, and has
/// its state read. What was known of the connection is dropped; the rest stays.
pub proof fn law_tab_goes_to_the_next_adapter(app: AppView, at: int, now: u64)
    requires
        app.overlay is None,
        app.adapters.len() >= 2,
        0 <= at < app.adapters.len(),
        app.adapters[at].path == app.station_path,
        forall|i: int| 0 <= i < at ==> (#[trigger] app.adapters[i]).path != app.station_path,
    ensures
        ({
            let next = app.adapters[if at + 1 == app.adapters.len() {
                0
            } else {
                at + 1
            }];
            key_pressed(app, KeyCode::Tab, now) == (
                AppView {
                    station_path: next.path,
                    interface_name: next.name,
                    state: Seq::empty(),
                    diagnostics: None,
                    connected_since: None,
                    detail_ipv4: None,
                    ..app
                },
                Some(CommandView::Refresh),
            )
        }),
{
    let paths = adapter_paths(app.adapters);
    assert(paths[at] == app.station_path);
    assert forall|i: int| 0 <= i < at implies #[trigger] paths[i] != app.station_path by {
        assert(app.adapters[i].path != app.station_path);
    }
    lemma_index_of(paths, app.station_path, at as nat);
}

/// Where the station in use is not among the adapters, `tab` goes to the first of them.
pub proof fn law_tab_from_a_station_that_is_gone(app: AppView, now: u64)
    requires
        app.overlay is None,
        app.adapters.len() >= 2,
        forall|i: int|
            0 <= i < app.adapters.len() ==> (#[trigger] app.adapters[i]).path != app.station_path,
    ensures
        key_pressed(app, KeyCode::Tab, now).0.station_path == app.adapters[0].path,
        key_pressed(app, KeyCode::Tab, now).0.interface_name == app.adapters[0].name,
        key_pressed(app, KeyCode::Tab, now).1 == Some(CommandView::Refresh),
{
    let paths = adapter_paths(app.adapters);
    assert forall|i: int| 0 <= i < paths.len() implies #[trigger] paths[i] != app.station_path by {
        assert(app.adapters[i].path != app.station_path);
    }
    lemma_index_of(paths, app.station_path, paths.len());
}

/// What each operation does by itself: submitting needs an open box for a password and no
/// connection being made, forgetting needs an open box that asks about it, and neither does
/// anything else. A connection is not made twice. A key for a box does nothing without one.
pub proof fn law_operations_need_their_box(
    app: AppView,
    network: NetworkView,
    key: KeyCode,
    error: Seq<char>,
    now: u64,
)
    ensures
        app.overlay is None || app.overlay->0 is ForgetConfirm || app.pending_connect_path is Some
            ==> submitting(app) == (app, None::<CommandView>),
        app.overlay is None || app.overlay->0 is Password ==> forgetting(app) == (
            app,
            None::<CommandView>,
        ),
        app.overlay is None ==> overlay_key(app, key) == (app, None::<CommandView>),
        nothing_to_connect(app, network) <==> network.connected || app.pending_connect_path
            is Some,
        without_error(app) == (AppView { header_error: None, ..app }),
        with_error(app, error, now) == (AppView {
            header_error: Some(crate::format::gist(error)),
            header_error_at: now,
            ..app
        }),
{
}

/// Connecting, asking and toggling are about the network under the cursor, whatever is shown
/// and whichever box is open.
pub proof fn law_operations_are_on_the_selected_network(app: AppView, now: u64)
    requires
        app.selected < app.networks.len(),
    ensures
        ({
            let n = app.networks[app.selected as int];
            let idle = n.connected || app.pending_connect_path is Some;
            let direct = n.known_path is Some || n.net_type == "open"@;
            &&& idle ==> connecting(app) == (app, Ok::<Option<CommandView>, Seq<char>>(None))
            &&& !idle && direct ==> connecting(app) == (
                AppView { pending_connect_path: Some(n.path), ..app },
                Ok::<Option<CommandView>, Seq<char>>(
                    Some(CommandView::Connect { network_path: n.path }),
                ),
            )
            &&& !idle && !direct ==> connecting(app) == (
                AppView {
                    overlay: Some(
                        OverlayView::Password {
                            input: Seq::empty(),
                            visible: false,
                            network_path: n.path,
                            network_name: n.name,
                        },
                    ),
                    ..app
                },
                Ok::<Option<CommandView>, Seq<char>>(None),
            )
            &&& n.known_path matches Some(known_path) ==> toggling(app, now) == (
                app,
                Some(CommandView::ToggleAutoConnect { known_path }),
            ) && asking_to_forget(app, now) == (AppView {
                overlay: Some(
                    OverlayView::ForgetConfirm { known_path, network_name: n.name },
                ),
                ..app
            })
        }),
{
}

/// A cursor beyond the list is not moved further by `j`, and `k` moves it back by one.
pub proof fn law_cursor_beyond_the_list(app: AppView)
    requires
        app.selected >= app.networks.len(),
    ensures
        cursor_down(app) == app,
        app.selected > 0 ==> cursor_up(app) == (AppView {
            selected: (app.selected - 1) as nat,
            ..app
        }),
        app.selected == 0 ==> cursor_up(app) == app,
{
}

/// Every failure is shown from then on, and a success changes nothing. A connection that
/// failed is no longer being made, and no other answer ends one. The networks are read anew
/// after one was forgotten, and then alone.
pub proof fn law_answers(app: AppView, path: Seq<char>, error: Seq<char>, now: u64)
    ensures
        ({
            let shown = AppView {
                header_error: Some(crate::format::gist(error)),
                header_error_at: now,
                ..app
            };
            &&& answered(app, ActionResultView::Scan(Err(error)), now) == (shown, false)
            &&& answered(app, ActionResultView::Disconnect(Err(error)), now) == (shown, false)
            &&& answered(app, ActionResultView::Forget(Err(error)), now) == (shown, false)
            &&& answered(app, ActionResultView::AutoConnect(Err(error)), now) == (shown, false)
            &&& app.pending_connect_path == Some(path) ==> answered(
                app,
                ActionResultView::Connect { path, result: Err(error) },
                now,
            ) == (AppView { pending_connect_path: None, ..shown }, false)
            &&& app.pending_connect_path != Some(path) ==> answered(
                app,
                ActionResultView::Connect { path, result: Err(error) },
                now,
            ) == (shown, false)
        }),
        answered(app, ActionResultView::Scan(Ok(())), now) == (app, false),
        answered(app, ActionResultView::Disconnect(Ok(())), now) == (app, false),
        answered(app, ActionResultView::AutoConnect(Ok(())), now) == (app, false),
        answered(app, ActionResultView::Connect { path, result: Ok(()) }, now) == (app, false),
        answered(app, ActionResultView::Forget(Ok(())), now) == (app, true),
{
}

} // verus!
