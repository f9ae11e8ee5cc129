//! Wireless networks and the order they are listed in.

use vstd::prelude::*;

verus! {

/// The text behind an optional string.
pub open spec fn text_of(s: Option<String>) -> Option<Seq<char>> {
    match s {
        Some(s) => Some(s@),
        None => None,
    }
}

/// A network in range.
pub struct Network {
    /// The D-Bus object of the network.
    pub path: String,
    pub name: String,
    /// `psk`, `open` or `8021x`.
    pub net_type: String,
    pub signal_dbm: i16,
    pub connected: bool,
    /// The D-Bus object of the stored network, for a network that is known.
    pub known_path: Option<String>,
}

/// What a [`Network`] stands for.
#[verifier::ext_equal]
pub struct NetworkView {
    pub path: Seq<char>,
    pub name: Seq<char>,
    pub net_type: Seq<char>,
    pub signal_dbm: int,
    pub connected: bool,
    pub known_path: Option<Seq<char>>,
}

impl View for Network {
    type V = NetworkView;

    open spec fn view(&self) -> NetworkView {
        NetworkView {
            path: self.path@,
            name: self.name@,
            net_type: self.net_type@,
            signal_dbm: self.signal_dbm as int,
            connected: self.connected,
            known_path: text_of(self.known_path),
        }
    }
}

impl Network {
    /// Whether the network is stored.
    pub fn is_known(&self) -> (res: bool)
        ensures
            res == self@.known_path is Some,
    {
        self.known_path.is_some()
    }
}

/// What the networks of a list stand for.
pub open spec fn network_views(list: Seq<Network>) -> Seq<NetworkView> {
    list.map_values(|n: Network| n@)
}

/// What iwd says of a network in range.
pub struct NetworkReading {
    pub path: String,
    /// The signal strength in hundredths of a dBm.
    pub signal: i16,
    pub name: String,
    pub net_type: String,
    pub connected: bool,
    /// The stored network's object, where iwd names one.
    pub known_path: Option<String>,
}

/// What a [`NetworkReading`] stands for.
#[verifier::ext_equal]
pub struct NetworkReadingView {
    pub path: Seq<char>,
    pub signal: int,
    pub name: Seq<char>,
    pub net_type: Seq<char>,
    pub connected: bool,
    pub known_path: Option<Seq<char>>,
}

impl View for NetworkReading {
    type V = NetworkReadingView;

    open spec fn view(&self) -> NetworkReadingView {
        NetworkReadingView {
            path: self.path@,
            signal: self.signal as int,
            name: self.name@,
            net_type: self.net_type@,
            connected: self.connected,
            known_path: text_of(self.known_path),
        }
    }
}

/// Hundredths of a dBm in whole dBm; what is left over is dropped.
pub open spec fn whole_dbm(hundredths: int) -> int {
    if hundredths < 0 {
        -((-hundredths) / 100)
    } else {
        hundredths / 100
    }
}

/// The network that a reading describes. A network is known where the object of its stored
/// network is not empty.
pub open spec fn network_read(r: NetworkReadingView) -> NetworkView {
    NetworkView {
        path: r.path,
        name: r.name,
        net_type: r.net_type,
        signal_dbm: whole_dbm(r.signal),
        connected: r.connected,
        known_path: match r.known_path {
            Some(p) => if p.len() > 0 { Some(p) } else { None },
            None => None,
        },
    }
}

/// Makes a network out of what iwd says of it.
pub fn network_from(reading: NetworkReading) -> (res: Network)
    ensures
        res@ == network_read(reading@),
{
    let wide: i32 = reading.signal as i32;
    let dbm: i32 = if wide < 0 { -((-wide) / 100) } else { wide / 100 };
    let known_path = match reading.known_path {
        Some(p) => if p.as_str().is_empty() { None } else { Some(p) },
        None => None,
    };
    Network {
        path: reading.path,
        name: reading.name,
        net_type: reading.net_type,
        signal_dbm: dbm as i16,
        connected: reading.connected,
        known_path,
    }
}

// ---------------------------------------------------------------------------------------------
// The order of the list
// ---------------------------------------------------------------------------------------------

/// The group that a network is listed in: the connected one, the known ones, the others.
pub open spec fn group_of(n: NetworkView) -> int {
    if n.connected {
        2
    } else if n.known_path is Some {
        1
    } else {
        0
    }
}

/// Whether `a` is to be listed before `b`: in a higher group, or with a stronger signal in the
/// same one.
pub open spec fn goes_before(a: NetworkView, b: NetworkView) -> bool {
    group_of(a) > group_of(b) || (group_of(a) == group_of(b) && a.signal_dbm > b.signal_dbm)
}

/// `list` with `n` put behind every network that `n` does not go before.
pub open spec fn placed(list: Seq<NetworkView>, n: NetworkView) -> Seq<NetworkView>
    decreases list.len(),
{
    if list.len() == 0 || !goes_before(n, list.last()) {
        list.push(n)
    } else {
        placed(list.drop_last(), n).push(list.last())
    }
}

/// The networks of `list` in the order they are listed: the connected one first, then the
/// known ones, then the others, each group by falling signal strength, and networks that rank
/// alike in the order they came in.
pub open spec fn ranked(list: Seq<NetworkView>) -> Seq<NetworkView>
    decreases list.len(),
{
    if list.len() == 0 {
        Seq::empty()
    } else {
        placed(ranked(list.drop_last()), list.last())
    }
}

fn group(n: &Network) -> (res: u8)
    ensures
        res == group_of(n@),
{
    if n.connected {
        2
    } else if n.known_path.is_some() {
        1
    } else {
        0
    }
}

fn ranks_before(a: &Network, b: &Network) -> (res: bool)
    ensures
        res == goes_before(a@, b@),
{
    let ga = group(a);
    let gb = group(b);
    ga > gb || (ga == gb && a.signal_dbm > b.signal_dbm)
}

/// Puts a network in its place in a list that is in order.
fn place(list: &mut Vec<Network>, n: Network)
    ensures
        network_views(final(list)@) == placed(network_views(old(list)@), n@),
{
    let ghost before = network_views(list@);
    let mut at: usize = list.len();
    assert(before.take(at as int) =~= before);
    assert(before.skip(at as int) =~= Seq::<NetworkView>::empty());
    assert(placed(before, n@) =~= placed(before.take(at as int), n@) + before.skip(at as int));
    while at > 0 && ranks_before(&n, &list[at - 1])
        invariant
            at <= list@.len(),
            before == network_views(list@),
            placed(before, n@) == placed(before.take(at as int), n@) + before.skip(at as int),
        decreases at,
    {
        let ghost head = before.take(at as int);
        assert(head.last() == list@[at - 1]@);
        assert(head.drop_last() =~= before.take(at - 1));
        assert(before.skip(at - 1) =~= seq![head.last()] + before.skip(at as int));
        assert(placed(before, n@) =~= placed(before.take(at - 1), n@) + before.skip(at - 1));
        at -= 1;
    }
    assert(at > 0 ==> before.take(at as int).last() == list@[at - 1]@);
    list.insert(at, n);
    assert(network_views(list@) =~= before.take(at as int).push(n@) + before.skip(at as int));
}

/// What the readings of a list stand for.
pub open spec fn reading_views(list: Seq<NetworkReading>) -> Seq<NetworkReadingView> {
    list.map_values(|r: NetworkReading| r@)
}

/// The networks that the readings of a list describe.
pub open spec fn networks_read(readings: Seq<NetworkReadingView>) -> Seq<NetworkView> {
    readings.map_values(|r: NetworkReadingView| network_read(r))
}

/// Makes the list of networks out of what iwd says of each.
pub fn list_networks(readings: Vec<NetworkReading>) -> (res: Vec<Network>)
    ensures
        network_views(res@) == ranked(networks_read(reading_views(readings@))),
{
    let mut res: Vec<Network> = Vec::new();
    let ghost all = networks_read(reading_views(readings@));
    assert(network_views(res@) =~= ranked(all.take(0)));
    for reading in it: readings
        invariant
            it.seq() == readings@,
            all == networks_read(reading_views(readings@)),
            network_views(res@) == ranked(all.take(it.index() as int)),
    {
        let ghost i = it.index() as int;
        place(&mut res, network_from(reading));
        assert(all.take(i + 1).drop_last() =~= all.take(i));
        assert(all.take(i + 1).last() == network_read(readings@[i]@));
    }
    assert(all.take(all.len() as int) =~= all);
    res
}

/// Whether no network of a list is to be listed before one that stands in front of it.
pub open spec fn in_order(list: Seq<NetworkView>) -> bool {
    forall|i: int, j: int| 0 <= i < j < list.len() ==> !goes_before(#[trigger] list[j], #[trigger] list[i])
}

/// Whether two networks rank alike.
pub open spec fn rank_alike(a: NetworkView, b: NetworkView) -> bool {
    group_of(a) == group_of(b) && a.signal_dbm == b.signal_dbm
}

/// The networks of a list that rank as `n` does, in the order they stand.
pub open spec fn alike(list: Seq<NetworkView>, n: NetworkView) -> Seq<NetworkView> {
    list.filter(|m: NetworkView| rank_alike(m, n))
}

proof fn lemma_placed(list: Seq<NetworkView>, n: NetworkView)
    requires
        in_order(list),
    ensures
        in_order(placed(list, n)),
        placed(list, n).to_multiset() == list.to_multiset().insert(n),
        forall|i: int| 0 <= i < placed(list, n).len() ==> #[trigger] placed(list, n)[i] == n
            || list.contains(placed(list, n)[i]),
    decreases list.len(),
{
    broadcast use vstd::seq_lib::group_to_multiset_ensures;

    let out = placed(list, n);
    if list.len() == 0 || !goes_before(n, list.last()) {
        assert forall|i: int| 0 <= i < out.len() implies #[trigger] out[i] == n || list.contains(out[i]) by {
            if i < list.len() {
                assert(list.contains(list[i]));
            }
        }
        assert forall|i: int, j: int| 0 <= i < j < out.len() implies !goes_before(
            #[trigger] out[j],
            #[trigger] out[i],
        ) by {
            if j == list.len() && i < list.len() - 1 {
                assert(!goes_before(list.last(), list[i]));
            }
        }
    } else {
        let rest = list.drop_last();
        lemma_placed(rest, n);
        let inner = placed(rest, n);
        assert(list =~= rest.push(list.last()));
        assert(out.to_multiset() =~= list.to_multiset().insert(n));
        assert forall|i: int| 0 <= i < out.len() implies #[trigger] out[i] == n || list.contains(out[i]) by {
            if i < inner.len() {
                assert(out[i] == inner[i]);
                if inner[i] != n {
                    let k = choose|k: int| 0 <= k < rest.len() && rest[k] == inner[i];
                    assert(list[k] == inner[i]);
                }
            } else {
                assert(list[list.len() - 1] == out[i]);
            }
        }
        assert forall|i: int, j: int| 0 <= i < j < out.len() implies !goes_before(
            #[trigger] out[j],
            #[trigger] out[i],
        ) by {
            if j == inner.len() {
                assert(out[i] == inner[i]);
                if inner[i] != n {
                    let k = choose|k: int| 0 <= k < rest.len() && rest[k] == inner[i];
                    assert(!goes_before(list[list.len() - 1], list[k]));
                }
            } else {
                assert(out[j] == inner[j] && out[i] == inner[i]);
            }
        }
    }
}

proof fn lemma_alike_push(list: Seq<NetworkView>, n: NetworkView, m: NetworkView)
    ensures
        alike(list.push(n), m) == if rank_alike(n, m) {
            alike(list, m).push(n)
        } else {
            alike(list, m)
        },
{
    reveal(Seq::filter);
    assert(list.push(n).drop_last() =~= list);
}

proof fn lemma_placed_stable(list: Seq<NetworkView>, n: NetworkView, m: NetworkView)
    ensures
        alike(placed(list, n), m) == alike(list.push(n), m),
    decreases list.len(),
{
    if list.len() == 0 || !goes_before(n, list.last()) {
    } else {
        let rest = list.drop_last();
        let last = list.last();
        lemma_placed_stable(rest, n, m);
        assert(rest.push(last) =~= list);
        lemma_alike_push(placed(rest, n), last, m);
        lemma_alike_push(rest, n, m);
        lemma_alike_push(rest, last, m);
        lemma_alike_push(list, n, m);
        // `n` and the last network of the list do not rank alike, so one of them at most is
        // counted.
        assert(!(rank_alike(n, m) && rank_alike(last, m)));
    }
}

/// The listed networks are those that came in, each as often as it came in. They are in order.
/// Networks that rank alike keep the order they came in.
pub proof fn law_ranked(list: Seq<NetworkView>, n: NetworkView)
    ensures
        ranked(list).to_multiset() == list.to_multiset(),
        ranked(list).len() == list.len(),
        in_order(ranked(list)),
        alike(ranked(list), n) == alike(list, n),
    decreases list.len(),
{
    broadcast use vstd::seq_lib::group_to_multiset_ensures;

    if list.len() > 0 {
        let rest = list.drop_last();
        law_ranked(rest, n);
        lemma_placed(ranked(rest), list.last());
        lemma_placed_stable(ranked(rest), list.last(), n);
        assert(list =~= rest.push(list.last()));
        lemma_alike_push(ranked(rest), list.last(), n);
        lemma_alike_push(rest, list.last(), n);
        assert(ranked(list).to_multiset().len() == list.to_multiset().len());
    }
}

/// The connected network stands first, and no unknown network stands in front of a known one.
pub proof fn law_ranked_groups(list: Seq<NetworkView>, i: int, j: int)
    requires
        0 <= i < j < list.len(),
    ensures
        ranked(list)[j].connected ==> ranked(list)[i].connected,
        ranked(list)[j].known_path is Some ==> ranked(list)[i].connected
            || ranked(list)[i].known_path is Some,
        group_of(ranked(list)[i]) == group_of(ranked(list)[j]) ==> ranked(list)[i].signal_dbm
            >= ranked(list)[j].signal_dbm,
{
    law_ranked(list, list[0]);
    assert(!goes_before(ranked(list)[j], ranked(list)[i]));
}

/// A list that is in order stays as it is.
pub proof fn law_ranked_keeps_order(list: Seq<NetworkView>)
    requires
        in_order(list),
    ensures
        ranked(list) == list,
    decreases list.len(),
{
    if list.len() > 0 {
        let rest = list.drop_last();
        law_ranked_keeps_order(rest);
        if rest.len() > 0 {
            assert(!goes_before(list[list.len() - 1], list[list.len() - 2]));
        }
        assert(rest.push(list.last()) =~= list);
    } else {
        assert(list =~= Seq::empty());
    }
}

} // verus!
