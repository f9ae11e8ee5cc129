//! Finding the station to use among the objects that iwd manages.

use vstd::prelude::*;

use crate::app::{adapter_views, Adapter, AdapterView};
use crate::bus::{IWD_NETWORK, IWD_STATION};
use crate::network::text_of;
use crate::refresh::{Stations, StationsView};
use crate::split::{ends_in, ends_with, texts};
use crate::text::same_text;

verus! {

/// An object that iwd manages, with the names of its interfaces.
pub struct ManagedObject {
    pub path: String,
    pub interfaces: Vec<String>,
}

/// What a [`ManagedObject`] stands for.
#[verifier::ext_equal]
pub struct ManagedObjectView {
    pub path: Seq<char>,
    pub interfaces: Seq<Seq<char>>,
}

impl View for ManagedObject {
    type V = ManagedObjectView;

    open spec fn view(&self) -> ManagedObjectView {
        ManagedObjectView { path: self.path@, interfaces: texts(self.interfaces@) }
    }
}

/// What the objects of a list stand for.
pub open spec fn object_views(list: Seq<ManagedObject>) -> Seq<ManagedObjectView> {
    list.map_values(|o: ManagedObject| o@)
}

/// Whether an object has an interface.
pub fn has_interface(object: &ManagedObject, interface: &str) -> (res: bool)
    ensures
        res == object@.interfaces.contains(interface@),
{
    let ghost names = object@.interfaces;
    let mut i: usize = 0;
    while i < object.interfaces.len()
        invariant
            i <= object.interfaces@.len(),
            names == texts(object.interfaces@),
            forall|k: int| 0 <= k < i ==> #[trigger] names[k] != interface@,
        decreases object.interfaces@.len() - i,
    {
        assert(names[i as int] == object.interfaces@[i as int]@);
        if same_text(object.interfaces[i].as_str(), interface) {
            return true;
        }
        i += 1;
    }
    false
}

// ---------------------------------------------------------------------------------------------
// The order of texts
// ---------------------------------------------------------------------------------------------

/// Whether one row of bytes comes before another in a dictionary.
pub open spec fn bytes_before(a: Seq<u8>, b: Seq<u8>) -> bool
    decreases a.len(),
{
    if b.len() == 0 {
        false
    } else if a.len() == 0 {
        true
    } else if a[0] != b[0] {
        a[0] < b[0]
    } else {
        bytes_before(a.drop_first(), b.drop_first())
    }
}

/// Whether one text comes before another: in the order of their bytes.
pub open spec fn text_before(a: Seq<char>, b: Seq<char>) -> bool {
    bytes_before(vstd::utf8::encode_utf8(a), vstd::utf8::encode_utf8(b))
}

/// `list` with `text` put behind every text that it does not come before.
pub open spec fn text_placed(list: Seq<Seq<char>>, text: Seq<char>) -> Seq<Seq<char>>
    decreases list.len(),
{
    if list.len() == 0 || !text_before(text, list.last()) {
        list.push(text)
    } else {
        text_placed(list.drop_last(), text).push(list.last())
    }
}

/// The texts of a list in order.
pub open spec fn texts_sorted(list: Seq<Seq<char>>) -> Seq<Seq<char>>
    decreases list.len(),
{
    if list.len() == 0 {
        Seq::empty()
    } else {
        text_placed(texts_sorted(list.drop_last()), list.last())
    }
}

fn comes_before(a: &str, b: &str) -> (res: bool)
    ensures
        res == text_before(a@, b@),
{
    let x = a.as_bytes();
    let y = b.as_bytes();
    let n = x.len();
    let m = y.len();
    let mut i: usize = 0;
    assert(x@.skip(0) =~= x@);
    assert(y@.skip(0) =~= y@);
    while i < n && i < m && x[i] == y[i]
        invariant
            n == x@.len(),
            m == y@.len(),
            i <= n,
            i <= m,
            bytes_before(x@, y@) == bytes_before(x@.skip(i as int), y@.skip(i as int)),
        decreases n - i,
    {
        assert(x@.skip(i as int).drop_first() =~= x@.skip(i + 1));
        assert(y@.skip(i as int).drop_first() =~= y@.skip(i + 1));
        i += 1;
    }
    if i >= m {
        false
    } else if i >= n {
        true
    } else {
        x[i] < y[i]
    }
}

fn place_text(list: &mut Vec<String>, text: String)
    ensures
        texts(final(list)@) == text_placed(texts(old(list)@), text@),
{
    let ghost before = texts(list@);
    let mut at: usize = list.len();
    assert(before.take(at as int) =~= before);
    assert(before.skip(at as int) =~= Seq::<Seq<char>>::empty());
    assert(text_placed(before, text@) =~= text_placed(before.take(at as int), text@) + before.skip(
        at as int,
    ));
    while at > 0 && comes_before(text.as_str(), list[at - 1].as_str())
        invariant
            at <= list@.len(),
            before == texts(list@),
            text_placed(before, text@) == text_placed(before.take(at as int), text@) + before.skip(
                at as int,
            ),
        decreases at,
    {
        let ghost head = before.take(at as int);
        assert(head.last() == list@[at - 1]@);
        assert(head.drop_last() =~= before.take(at - 1));
        assert(before.skip(at - 1) =~= seq![head.last()] + before.skip(at as int));
        assert(text_placed(before, text@) =~= text_placed(before.take(at - 1), text@)
            + before.skip(at - 1));
        at -= 1;
    }
    assert(at > 0 ==> before.take(at as int).last() == list@[at - 1]@);
    list.insert(at, text);
    assert(texts(list@) =~= before.take(at as int).push(text@) + before.skip(at as int));
}

proof fn lemma_bytes_before_order(a: Seq<u8>, b: Seq<u8>, c: Seq<u8>)
    ensures
        !bytes_before(a, a),
        bytes_before(a, b) ==> !bytes_before(b, a),
        !bytes_before(b, a) && !bytes_before(c, b) ==> !bytes_before(c, a),
    decreases a.len() + b.len() + c.len(),
{
    if a.len() > 0 && b.len() > 0 && c.len() > 0 {
        lemma_bytes_before_order(a.drop_first(), b.drop_first(), c.drop_first());
    } else if a.len() > 0 && b.len() > 0 {
        lemma_bytes_before_order(a.drop_first(), b.drop_first(), c);
    } else if a.len() > 0 {
        lemma_bytes_before_order(a.drop_first(), b, c);
    }
}

/// Whether no text of a list comes before one in front of it.
pub open spec fn texts_in_order(list: Seq<Seq<char>>) -> bool {
    forall|i: int, j: int|
        0 <= i < j < list.len() ==> !text_before(#[trigger] list[j], #[trigger] list[i])
}

proof fn lemma_text_placed(list: Seq<Seq<char>>, text: Seq<char>)
    requires
        texts_in_order(list),
    ensures
        texts_in_order(text_placed(list, text)),
        text_placed(list, text).to_multiset() == list.to_multiset().insert(text),
        forall|i: int|
            0 <= i < text_placed(list, text).len() ==> #[trigger] text_placed(list, text)[i] == text
                || list.contains(text_placed(list, text)[i]),
    decreases list.len(),
{
    broadcast use vstd::seq_lib::group_to_multiset_ensures;

    let out = text_placed(list, text);
    if list.len() == 0 || !text_before(text, list.last()) {
        assert forall|i: int| 0 <= i < out.len() implies #[trigger] out[i] == text || list.contains(
            out[i],
        ) by {
            if i < list.len() {
                assert(list.contains(list[i]));
            }
        }
        assert forall|i: int, j: int| 0 <= i < j < out.len() implies !text_before(
            #[trigger] out[j],
            #[trigger] out[i],
        ) by {
            if j == list.len() && i < list.len() - 1 {
                assert(!text_before(list.last(), list[i]));
                lemma_bytes_before_order(
                    vstd::utf8::encode_utf8(list[i]),
                    vstd::utf8::encode_utf8(list.last()),
                    vstd::utf8::encode_utf8(text),
                );
            }
        }
    } else {
        let rest = list.drop_last();
        lemma_text_placed(rest, text);
        let inner = text_placed(rest, text);
        assert(list =~= rest.push(list.last()));
        assert(out.to_multiset() =~= list.to_multiset().insert(text));
        assert forall|i: int| 0 <= i < out.len() implies #[trigger] out[i] == text || list.contains(
            out[i],
        ) by {
            if i < inner.len() {
                assert(out[i] == inner[i]);
                if inner[i] != text {
                    let k = choose|k: int| 0 <= k < rest.len() && rest[k] == inner[i];
                    assert(list[k] == inner[i]);
                }
            } else {
                assert(list[list.len() - 1] == out[i]);
            }
        }
        assert forall|i: int, j: int| 0 <= i < j < out.len() implies !text_before(
            #[trigger] out[j],
            #[trigger] out[i],
        ) by {
            if j == inner.len() {
                assert(out[i] == inner[i]);
                if inner[i] != text {
                    let k = choose|k: int| 0 <= k < rest.len() && rest[k] == inner[i];
                    assert(!text_before(list[list.len() - 1], list[k]));
                } else {
                    lemma_bytes_before_order(
                        vstd::utf8::encode_utf8(text),
                        vstd::utf8::encode_utf8(list.last()),
                        vstd::utf8::encode_utf8(text),
                    );
                }
            } else {
                assert(out[j] == inner[j] && out[i] == inner[i]);
            }
        }
    }
}

/// Sorting texts keeps each as often as it was there and puts them in order.
pub proof fn law_texts_sorted(list: Seq<Seq<char>>)
    ensures
        texts_sorted(list).to_multiset() == list.to_multiset(),
        texts_sorted(list).len() == list.len(),
        texts_in_order(texts_sorted(list)),
    decreases list.len(),
{
    broadcast use vstd::seq_lib::group_to_multiset_ensures;

    if list.len() > 0 {
        let rest = list.drop_last();
        law_texts_sorted(rest);
        lemma_text_placed(texts_sorted(rest), list.last());
        assert(list =~= rest.push(list.last()));
        assert(texts_sorted(list).to_multiset().len() == list.to_multiset().len());
    }
}

// ---------------------------------------------------------------------------------------------
// The search
// ---------------------------------------------------------------------------------------------

/// The paths of the objects that are stations, in the order of the list.
pub open spec fn station_paths(objects: Seq<ManagedObjectView>) -> Seq<Seq<char>>
    decreases objects.len(),
{
    if objects.len() == 0 {
        Seq::empty()
    } else {
        let before = station_paths(objects.drop_last());
        if objects.last().interfaces.contains(IWD_STATION@) {
            before.push(objects.last().path)
        } else {
            before
        }
    }
}

/// The search for a station. First the state of one station after another is read, until one
/// is connected; then the name of each.
pub struct StationSearch {
    /// The stations, in order.
    paths: Vec<String>,
    /// How many states have been read.
    states_read: usize,
    /// The station to use, once that is clear.
    chosen: Option<usize>,
    /// The names that have been read.
    names: Vec<String>,
}

/// What a [`StationSearch`] stands for.
#[verifier::ext_equal]
pub struct StationSearchView {
    pub paths: Seq<Seq<char>>,
    pub states_read: nat,
    pub chosen: Option<nat>,
    pub names: Seq<Seq<char>>,
}

impl View for StationSearch {
    type V = StationSearchView;

    closed spec fn view(&self) -> StationSearchView {
        StationSearchView {
            paths: texts(self.paths@),
            states_read: self.states_read as nat,
            chosen: match self.chosen {
                Some(i) => Some(i as nat),
                None => None,
            },
            names: texts(self.names@),
        }
    }
}

/// What is to be done next in the search for a station.
pub enum StationAction {
    /// Read the state of a station.
    ReadState { path: String },
    /// Read the name of a station's interface.
    ReadName { path: String },
    /// Nothing more.
    Done(Stations),
}

/// What a [`StationAction`] stands for.
#[verifier::ext_equal]
pub enum StationActionView {
    ReadState { path: Seq<char> },
    ReadName { path: Seq<char> },
    Done(StationsView),
}

impl View for StationAction {
    type V = StationActionView;

    open spec fn view(&self) -> StationActionView {
        match self {
            StationAction::ReadState { path } => StationActionView::ReadState { path: path@ },
            StationAction::ReadName { path } => StationActionView::ReadName { path: path@ },
            StationAction::Done(stations) => StationActionView::Done(stations@),
        }
    }
}

/// A search that makes sense: there is a station, and what has been found so far is about one.
pub open spec fn search_wf(s: StationSearchView) -> bool {
    &&& s.paths.len() > 0
    &&& s.names.len() <= s.paths.len()
    &&& match s.chosen {
        Some(i) => i < s.paths.len(),
        None => s.states_read < s.paths.len() && s.names.len() == 0,
    }
}

/// The search as it begins.
pub open spec fn search_among(paths: Seq<Seq<char>>) -> StationSearchView {
    StationSearchView { paths, states_read: 0, chosen: None, names: Seq::empty() }
}

/// The adapters that a search has found, with their names.
pub open spec fn adapters_found(s: StationSearchView) -> Seq<AdapterView> {
    Seq::new(s.paths.len(), |i: int| AdapterView { path: s.paths[i], name: s.names[i] })
}

/// What is to be done next.
pub open spec fn search_action(s: StationSearchView) -> StationActionView {
    match s.chosen {
        None => StationActionView::ReadState { path: s.paths[s.states_read as int] },
        Some(i) => if s.names.len() < s.paths.len() {
            StationActionView::ReadName { path: s.paths[s.names.len() as int] }
        } else {
            StationActionView::Done(
                StationsView {
                    adapters: adapters_found(s),
                    path: s.paths[i as int],
                    name: s.names[i as int],
                },
            )
        },
    }
}

/// The search after a state was read, where it could be: a connected station is the one to
/// use. Where none is connected, the first one is.
pub open spec fn search_with_state(
    s: StationSearchView,
    state: Option<Seq<char>>,
) -> StationSearchView {
    if s.chosen is Some {
        s
    } else {
        StationSearchView {
            states_read: s.states_read + 1,
            chosen: if state == Some("connected"@) {
                Some(s.states_read)
            } else if s.states_read + 1 >= s.paths.len() {
                Some(0)
            } else {
                None
            },
            ..s
        }
    }
}

/// The search after a name was read, where it could be.
pub open spec fn search_with_name(
    s: StationSearchView,
    name: Option<Seq<char>>,
) -> StationSearchView {
    if s.chosen is Some && s.names.len() < s.paths.len() {
        StationSearchView {
            names: s.names.push(
                match name {
                    Some(name) => name,
                    None => "unknown"@,
                },
            ),
            ..s
        }
    } else {
        s
    }
}

/// How the search for a station begins: among the stations in order. Without objects, or
/// without a station among them, there is none.
pub open spec fn search_begun(objects: Option<Seq<ManagedObjectView>>) -> Result<
    StationSearchView,
    Seq<char>,
> {
    match objects {
        None => Err("iwd service not found on D-Bus. Is iwd running?"@),
        Some(list) => if station_paths(list).len() == 0 {
            Err("No wireless adapters found. Check rfkill?"@)
        } else {
            Ok(search_among(texts_sorted(station_paths(list))))
        },
    }
}

/// Begins the search for a station among the objects that iwd manages, where they could be
/// listed.
pub fn find_station(objects: &Option<Vec<ManagedObject>>) -> (res: Result<StationSearch, String>)
    ensures
        match search_begun(objects_view(*objects)) {
            Ok(search) => res matches Ok(s) && s@ == search && search_wf(s@),
            Err(error) => res matches Err(e) && e@ == error,
        },
{
    let list = match objects {
        None => {
            return Err("iwd service not found on D-Bus. Is iwd running?".to_owned());
        },
        Some(list) => list,
    };
    let ghost views = object_views(list@);
    let mut paths: Vec<String> = Vec::new();
    let mut i: usize = 0;
    assert(texts(paths@) =~= texts_sorted(station_paths(views.take(0))));
    while i < list.len()
        invariant
            i <= list@.len(),
            views == object_views(list@),
            texts(paths@) == texts_sorted(station_paths(views.take(i as int))),
        decreases list@.len() - i,
    {
        let ghost head = views.take(i + 1);
        assert(head.drop_last() =~= views.take(i as int));
        assert(head.last() == list@[i as int]@);
        if has_interface(&list[i], IWD_STATION) {
            let ghost before = station_paths(views.take(i as int));
            place_text(&mut paths, list[i].path.clone());
            assert(station_paths(head).drop_last() =~= before);
        }
        i += 1;
    }
    assert(views.take(i as int) =~= views);
    proof {
        law_texts_sorted(station_paths(views));
    }
    assert(texts(paths@).len() == paths@.len());
    if paths.len() == 0 {
        return Err("No wireless adapters found. Check rfkill?".to_owned());
    }
    let search = StationSearch { paths, states_read: 0, chosen: None, names: Vec::new() };
    assert(texts(search.names@) =~= Seq::<Seq<char>>::empty());
    Ok(search)
}

impl StationSearch {
    #[verifier::type_invariant]
    spec fn makes_sense(self) -> bool {
        search_wf(self@)
    }

    /// Says what is to be done next.
    pub fn action(&self) -> (res: StationAction)
        ensures
            search_wf(self@),
            res@ == search_action(self@),
    {
        proof {
            use_type_invariant(self);
        }
        assert(self@.paths.len() == self.paths@.len());
        assert(self@.names.len() == self.names@.len());
        match self.chosen {
            None => {
                assert(self@.paths[self.states_read as int] == self.paths@[self.states_read as int]@);
                StationAction::ReadState { path: self.paths[self.states_read].clone() }
            },
            Some(chosen) => {
                if self.names.len() < self.paths.len() {
                    let at = self.names.len();
                    assert(self@.paths[at as int] == self.paths@[at as int]@);
                    return StationAction::ReadName { path: self.paths[at].clone() };
                }
                let mut adapters: Vec<Adapter> = Vec::new();
                let mut i: usize = 0;
                while i < self.paths.len()
                    invariant
                        i <= self.paths@.len(),
                        self@.paths.len() == self.paths@.len(),
                        self.names@.len() == self.paths@.len(),
                        adapter_views(adapters@) == adapters_found(self@).take(i as int),
                    decreases self.paths@.len() - i,
                {
                    let ghost before = adapter_views(adapters@);
                    adapters.push(
                        Adapter { path: self.paths[i].clone(), name: self.names[i].clone() },
                    );
                    i += 1;
                    assert(adapters@.last()@ == adapters_found(self@)[i - 1]);
                    assert(adapter_views(adapters@) =~= before.push(adapters@.last()@));
                    assert(adapter_views(adapters@) =~= adapters_found(self@).take(i as int));
                }
                assert(adapters_found(self@).take(i as int) =~= adapters_found(self@));
                StationAction::Done(
                    Stations {
                        adapters,
                        path: self.paths[chosen].clone(),
                        name: self.names[chosen].clone(),
                    },
                )
            },
        }
    }

    /// Takes in the state that was to be read, where it could be.
    pub fn state_read(&mut self, state: &Option<String>)
        ensures
            final(self)@ == search_with_state(old(self)@, text_of(*state)),
    {
        proof {
            use_type_invariant(&*self);
        }
        assert(self@.paths.len() == self.paths@.len());
        if self.chosen.is_some() {
            return ;
        }
        let connected = match state {
            Some(state) => same_text(state.as_str(), "connected"),
            None => false,
        };
        let count = self.paths.len();
        if connected {
            self.chosen = Some(self.states_read);
        } else if self.states_read + 1 >= count {
            self.chosen = Some(0);
        }
        self.states_read += 1;
    }

    /// Takes in the name that was to be read, where it could be.
    pub fn name_read(&mut self, name: Option<String>)
        ensures
            final(self)@ == search_with_name(old(self)@, text_of(name)),
    {
        proof {
            use_type_invariant(&*self);
        }
        assert(self@.paths.len() == self.paths@.len());
        assert(self@.names.len() == self.names@.len());
        if self.chosen.is_none() || self.names.len() >= self.paths.len() {
            return ;
        }
        let name = match name {
            Some(name) => name,
            None => "unknown".to_owned(),
        };
        let ghost before = self@.names;
        let ghost text = name@;
        let mut names: Vec<String> = Vec::new();
        std::mem::swap(&mut names, &mut self.names);
        names.push(name);
        self.names = names;
        assert(self@.names =~= before.push(text));
    }
}

/// The search after the states of the stations were read, one after another.
pub open spec fn search_with_states(
    s: StationSearchView,
    states: Seq<Option<Seq<char>>>,
) -> StationSearchView
    decreases states.len(),
{
    if states.len() == 0 {
        s
    } else {
        search_with_state(search_with_states(s, states.drop_last()), states.last())
    }
}

/// A connected station is preferred: once all states were read, the station to use is the
/// first that is connected, and the first of all where none is.
pub proof fn law_connected_station_is_preferred(
    paths: Seq<Seq<char>>,
    states: Seq<Option<Seq<char>>>,
    first: int,
)
    requires
        paths.len() > 0,
        states.len() == paths.len(),
        0 <= first <= states.len(),
        first < states.len() ==> states[first] == Some("connected"@),
        forall|i: int| 0 <= i < first ==> #[trigger] states[i] != Some("connected"@),
    ensures
        search_with_states(search_among(paths), states).chosen == Some(
            if first < states.len() {
                first as nat
            } else {
                0nat
            },
        ),
{
    lemma_search_with_states(paths, states, states.len() as int, first);
    assert(states.take(states.len() as int) =~= states);
}

proof fn lemma_search_with_states(
    paths: Seq<Seq<char>>,
    states: Seq<Option<Seq<char>>>,
    n: int,
    first: int,
)
    requires
        paths.len() > 0,
        states.len() == paths.len(),
        0 <= n <= states.len(),
        0 <= first <= states.len(),
        first < states.len() ==> states[first] == Some("connected"@),
        forall|i: int| 0 <= i < first ==> #[trigger] states[i] != Some("connected"@),
    ensures
        ({
            let s = search_with_states(search_among(paths), states.take(n));
            &&& s.paths == paths
            &&& if first < n {
                s.chosen == Some(first as nat)
            } else if n == paths.len() {
                s.chosen == Some(0nat)
            } else {
                s.chosen is None && s.states_read == n
            }
        }),
    decreases n,
{
    if n > 0 {
        lemma_search_with_states(paths, states, n - 1, first);
        assert(states.take(n).drop_last() =~= states.take(n - 1));
        assert(states.take(n).last() == states[n - 1]);
    }
}

// ---------------------------------------------------------------------------------------------
// Waiting for a network
// ---------------------------------------------------------------------------------------------

/// How long to wait for a network, in milliseconds.
pub const WAIT_LIMIT_MS: u64 = 15_000;

/// The path of the first station in a list of objects.
pub open spec fn first_station(objects: Seq<ManagedObjectView>) -> Option<Seq<char>>
    decreases objects.len(),
{
    if objects.len() == 0 {
        None
    } else if objects[0].interfaces.contains(IWD_STATION@) {
        Some(objects[0].path)
    } else {
        first_station(objects.drop_first())
    }
}

/// The path of the first network in a list of objects whose path ends with `suffix`.
pub open spec fn first_network(objects: Seq<ManagedObjectView>, suffix: Seq<char>) -> Option<
    Seq<char>,
>
    decreases objects.len(),
{
    if objects.len() == 0 {
        None
    } else if objects[0].interfaces.contains(IWD_NETWORK@) && ends_in(objects[0].path, suffix) {
        Some(objects[0].path)
    } else {
        first_network(objects.drop_first(), suffix)
    }
}

/// The wait for a network to come back after iwd was restarted.
pub struct NetworkWait {
    /// What the path of the network ends with.
    pub suffix: String,
    /// When the wait began, in milliseconds.
    pub since: u64,
    /// Whether a scan has been asked for.
    pub scanned: bool,
    /// The network, once it is back.
    pub found: Option<String>,
}

/// What a [`NetworkWait`] stands for.
#[verifier::ext_equal]
pub struct NetworkWaitView {
    pub suffix: Seq<char>,
    pub since: u64,
    pub scanned: bool,
    pub found: Option<Seq<char>>,
}

impl View for NetworkWait {
    type V = NetworkWaitView;

    open spec fn view(&self) -> NetworkWaitView {
        NetworkWaitView {
            suffix: self.suffix@,
            since: self.since,
            scanned: self.scanned,
            found: text_of(self.found),
        }
    }
}

/// What is to be done next in the wait for a network.
pub enum WaitAction {
    /// Sleep for a second and list the objects that iwd manages.
    Look,
    /// Nothing more.
    Done(Result<String, String>),
}

/// What a [`WaitAction`] stands for.
#[verifier::ext_equal]
pub enum WaitActionView {
    Look,
    Done(Result<Seq<char>, Seq<char>>),
}

impl View for WaitAction {
    type V = WaitActionView;

    open spec fn view(&self) -> WaitActionView {
        match self {
            WaitAction::Look => WaitActionView::Look,
            WaitAction::Done(r) => WaitActionView::Done(
                match r {
                    Ok(path) => Ok(path@),
                    Err(e) => Err(e@),
                },
            ),
        }
    }
}

/// What is to be done next: look, until the network is back or the time is up.
pub open spec fn wait_action(w: NetworkWaitView, now: u64) -> WaitActionView {
    match w.found {
        Some(path) => WaitActionView::Done(Ok(path)),
        None => if now < w.since + WAIT_LIMIT_MS {
            WaitActionView::Look
        } else {
            WaitActionView::Done(Err("Network not found after iwd restart"@))
        },
    }
}

/// The wait after a look at the objects, where they could be listed, and the station that is
/// to scan: the first one there is, once.
pub open spec fn wait_looked(
    w: NetworkWaitView,
    objects: Option<Seq<ManagedObjectView>>,
) -> (NetworkWaitView, Option<Seq<char>>) {
    match objects {
        None => (w, None),
        Some(list) => {
            let scan = if w.scanned {
                None
            } else {
                first_station(list)
            };
            (
                NetworkWaitView {
                    scanned: w.scanned || scan is Some,
                    found: first_network(list, w.suffix),
                    ..w
                },
                scan,
            )
        },
    }
}

fn find_first_station(objects: &Vec<ManagedObject>) -> (res: Option<String>)
    ensures
        text_of(res) == first_station(object_views(objects@)),
{
    let ghost views = object_views(objects@);
    let mut i: usize = 0;
    assert(views.skip(0) =~= views);
    while i < objects.len()
        invariant
            i <= objects@.len(),
            views == object_views(objects@),
            first_station(views) == first_station(views.skip(i as int)),
        decreases objects@.len() - i,
    {
        assert(views.skip(i as int)[0] == objects@[i as int]@);
        assert(views.skip(i as int).drop_first() =~= views.skip(i + 1));
        if has_interface(&objects[i], IWD_STATION) {
            return Some(objects[i].path.clone());
        }
        i += 1;
    }
    None
}

fn find_first_network(objects: &Vec<ManagedObject>, suffix: &str) -> (res: Option<String>)
    ensures
        text_of(res) == first_network(object_views(objects@), suffix@),
{
    let ghost views = object_views(objects@);
    let mut i: usize = 0;
    assert(views.skip(0) =~= views);
    while i < objects.len()
        invariant
            i <= objects@.len(),
            views == object_views(objects@),
            first_network(views, suffix@) == first_network(views.skip(i as int), suffix@),
        decreases objects@.len() - i,
    {
        assert(views.skip(i as int)[0] == objects@[i as int]@);
        assert(views.skip(i as int).drop_first() =~= views.skip(i + 1));
        if has_interface(&objects[i], IWD_NETWORK) && ends_with(objects[i].path.as_str(), suffix) {
            return Some(objects[i].path.clone());
        }
        i += 1;
    }
    None
}

/// What an optional list of objects stands for.
pub open spec fn objects_view(objects: Option<Vec<ManagedObject>>) -> Option<
    Seq<ManagedObjectView>,
> {
    match objects {
        Some(list) => Some(object_views(list@)),
        None => None,
    }
}

/// The wait for a network as it begins.
pub open spec fn wait_from(suffix: Seq<char>, now: u64) -> NetworkWaitView {
    NetworkWaitView { suffix, since: now, scanned: false, found: None }
}

/// Begins to wait for the network whose path ends with `suffix`.
pub fn wait_for_network(suffix: String, now: u64) -> (res: NetworkWait)
    ensures
        res@ == wait_from(suffix@, now),
{
    NetworkWait { suffix, since: now, scanned: false, found: None }
}

impl NetworkWait {
    /// Says what is to be done next.
    pub fn action(&self, now: u64) -> (res: WaitAction)
        ensures
            res@ == wait_action(self@, now),
    {
        match &self.found {
            Some(path) => WaitAction::Done(Ok(path.clone())),
            None => {
                if now < self.since || now - self.since < WAIT_LIMIT_MS {
                    WaitAction::Look
                } else {
                    WaitAction::Done(Err("Network not found after iwd restart".to_owned()))
                }
            },
        }
    }

    /// Takes in the objects that iwd manages, where they could be listed. Says which station is
    /// to scan.
    pub fn looked(&mut self, objects: &Option<Vec<ManagedObject>>) -> (scan: Option<String>)
        ensures
            final(self)@ == wait_looked(old(self)@, objects_view(*objects)).0,
            text_of(scan) == wait_looked(old(self)@, objects_view(*objects)).1,
    {
        match objects {
            None => None,
            Some(list) => {
                let scan = if self.scanned { None } else { find_first_station(list) };
                if scan.is_some() {
                    self.scanned = true;
                }
                self.found = find_first_network(list, self.suffix.as_str());
                scan
            },
        }
    }
}

/// A network that ends the wait has the wanted ending and was in the list. One scan is asked
/// for at most.
pub proof fn law_wait_finds_wanted_network(
    w: NetworkWaitView,
    objects: Seq<ManagedObjectView>,
)
    ensures
        ({
            let (after, scan) = wait_looked(w, Some(objects));
            &&& after.found matches Some(path) ==> ends_in(path, w.suffix) && exists|i: int|
                0 <= i < objects.len() && (#[trigger] objects[i]).path == path
                    && objects[i].interfaces.contains(IWD_NETWORK@)
            &&& scan is Some ==> !w.scanned && after.scanned
            &&& w.scanned ==> after.scanned
        }),
{
    lemma_first_network(objects, w.suffix);
}

proof fn lemma_first_network(objects: Seq<ManagedObjectView>, suffix: Seq<char>)
    ensures
        first_network(objects, suffix) matches Some(path) ==> ends_in(path, suffix) && exists|i: int|
            0 <= i < objects.len() && (#[trigger] objects[i]).path == path
                && objects[i].interfaces.contains(IWD_NETWORK@),
    decreases objects.len(),
{
    if objects.len() > 0 {
        if objects[0].interfaces.contains(IWD_NETWORK@) && ends_in(objects[0].path, suffix) {
        } else {
            let rest = objects.drop_first();
            lemma_first_network(rest, suffix);
            if first_network(rest, suffix) is Some {
                let path = first_network(rest, suffix)->0;
                let i = choose|i: int|
                    0 <= i < rest.len() && (#[trigger] rest[i]).path == path
                        && rest[i].interfaces.contains(IWD_NETWORK@);
                assert(objects[i + 1] == rest[i]);
            }
        }
    }
}

} // verus!
