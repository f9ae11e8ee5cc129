# iwd_tui

A terminal front end for the iwd wireless daemon: the networks in range, the details of the
connection, and the keys to connect, disconnect, scan, forget and toggle automatic connection.

The logic is a library that is verified with Verus. The program around it only talks to D-Bus, to
the file system and to the terminal.

- `src/text.rs`, `src/split.rs`: building and taking apart texts
- `src/format.rs`, `src/address.rs`: values as they are shown
- `src/network.rs`: networks and their order in the list
- `src/app.rs`: the state of the program
- `src/keys.rs`, `src/key_laws.rs`: what the keys do
- `src/bus.rs`: the calls that commands stand for
- `src/refresh.rs`, `src/ethernet.rs`: taking in what was read
- `src/station.rs`: finding a station, and waiting for a network
- `src/agent.rs`: connecting with a password
- `src/layout.rs`, `src/ui.rs`: what the screen shows
- `src/schedule.rs`: when to look anew
- `app/`: the program
- `tests/`: examples of all of it

Work that has to be done outside is asked for one action at a time, and its outcome is handed back
as an event: see `AgentSession`, `StationSearch`, `NetworkWait` and `App::refresh_runtime_state`.
Moments are milliseconds on one clock and are handed in.

Functions whose names begin with `law_` are proved and state what holds of the library as a whole.
