//! Wired connections.

use vstd::prelude::*;

use crate::address::{get_masked_ipv4, lossy_text, masked_in};
use crate::app::{App, AppView, EthernetInfo, EthernetView};
use crate::network::text_of;
use crate::split::{begins_with, starts_with};
use crate::text::{parse_unsigned, parsed, same_text, trim, trimmed};

verus! {

/// Speeds from this many Mbps on are not believed.
pub const SPEED_LIMIT_MBPS: u32 = 100_000;

/// What the system says of a network interface. A text is what a file under the interface's
/// directory holds, where it could be read.
pub struct InterfaceFacts {
    pub name: String,
    pub kind: Option<String>,
    /// Whether the interface has a directory for wireless settings.
    pub wireless: bool,
    pub carrier: Option<String>,
    pub speed: Option<String>,
    pub rx_bytes: Option<String>,
    pub tx_bytes: Option<String>,
}

/// What an [`InterfaceFacts`] stands for.
#[verifier::ext_equal]
pub struct InterfaceView {
    pub name: Seq<char>,
    pub kind: Option<Seq<char>>,
    pub wireless: bool,
    pub carrier: Option<Seq<char>>,
    pub speed: Option<Seq<char>>,
    pub rx_bytes: Option<Seq<char>>,
    pub tx_bytes: Option<Seq<char>>,
}

impl View for InterfaceFacts {
    type V = InterfaceView;

    open spec fn view(&self) -> InterfaceView {
        InterfaceView {
            name: self.name@,
            kind: text_of(self.kind),
            wireless: self.wireless,
            carrier: text_of(self.carrier),
            speed: text_of(self.speed),
            rx_bytes: text_of(self.rx_bytes),
            tx_bytes: text_of(self.tx_bytes),
        }
    }
}

/// What the interfaces of a list stand for.
pub open spec fn interface_views(list: Seq<InterfaceFacts>) -> Seq<InterfaceView> {
    list.map_values(|i: InterfaceFacts| i@)
}

// ---------------------------------------------------------------------------------------------
// Files that hold one value
// ---------------------------------------------------------------------------------------------

/// Whether a file was read and holds `wanted`, but for white space around it.
pub open spec fn file_holds(content: Option<Seq<char>>, wanted: Seq<char>) -> bool {
    content matches Some(text) && trimmed(text) == wanted
}

/// The number in a file, no greater than `max`, where there is one.
pub open spec fn file_number(content: Option<Seq<char>>, max: nat) -> Option<nat> {
    match content {
        Some(text) => parsed(trimmed(text), max),
        None => None,
    }
}

/// The count in a file; zero where there is none.
pub open spec fn file_count(content: Option<Seq<char>>) -> nat {
    match file_number(content, u64::MAX as nat) {
        Some(n) => n,
        None => 0,
    }
}

/// Whether a file was read and holds `wanted`, but for white space around it.
pub fn holds(content: &Option<String>, wanted: &str) -> (res: bool)
    ensures
        res == file_holds(text_of(*content), wanted@),
{
    match content {
        Some(text) => same_text(trim(text.as_str()).as_str(), wanted),
        None => false,
    }
}

/// Reads the number in a file.
pub fn number_in(content: &Option<String>, max: u64) -> (res: Option<u64>)
    ensures
        match res {
            Some(n) => file_number(text_of(*content), max as nat) == Some(n as nat),
            None => file_number(text_of(*content), max as nat) is None,
        },
{
    match content {
        Some(text) => parse_unsigned(trim(text.as_str()).as_str(), max),
        None => None,
    }
}

/// Reads the count in a file.
pub fn count_in(content: &Option<String>) -> (res: u64)
    ensures
        res == file_count(text_of(*content)),
{
    match number_in(content, u64::MAX) {
        Some(n) => n,
        None => 0,
    }
}

// ---------------------------------------------------------------------------------------------
// The wired interface
// ---------------------------------------------------------------------------------------------

/// Whether a name is that of an interface that is no device: the loopback, or one end of a
/// virtual network.
pub open spec fn is_virtual(name: Seq<char>) -> bool {
    ||| name == "lo"@
    ||| begins_with(name, "veth"@)
    ||| begins_with(name, "docker"@)
    ||| begins_with(name, "br-"@)
}

/// Whether an interface is a wired one with its cable in.
pub open spec fn is_plugged_in(i: InterfaceView) -> bool {
    &&& !is_virtual(i.name)
    &&& file_holds(i.kind, "1"@)
    &&& !i.wireless
    &&& file_holds(i.carrier, "1"@)
}

/// The position of the first wired interface with its cable in, from `from` on; the length of
/// the list where there is none.
pub open spec fn plugged_in_from(list: Seq<InterfaceView>, from: nat) -> nat
    decreases list.len() - from,
{
    if from >= list.len() {
        list.len()
    } else if is_plugged_in(list[from as int]) {
        from
    } else {
        plugged_in_from(list, from + 1)
    }
}

/// The link speed of an interface, where it is believed.
pub open spec fn speed_of(i: InterfaceView) -> Option<u32> {
    match file_number(i.speed, u32::MAX as nat) {
        Some(n) => if 0 < n < SPEED_LIMIT_MBPS {
            Some(n as u32)
        } else {
            None
        },
        None => None,
    }
}

/// The wired connection over an interface.
pub open spec fn wired(i: InterfaceView, ipv4_masked: Option<Seq<char>>) -> EthernetView {
    EthernetView {
        interface: i.name,
        speed_mbps: speed_of(i),
        rx_bytes: file_count(i.rx_bytes) as u64,
        tx_bytes: file_count(i.tx_bytes) as u64,
        ipv4_masked,
    }
}

fn virtual_name(name: &str) -> (res: bool)
    ensures
        res == is_virtual(name@),
{
    same_text(name, "lo") || starts_with(name, "veth") || starts_with(name, "docker")
        || starts_with(name, "br-")
}

/// Whether an interface is a wired one with its cable in.
pub fn plugged_in(i: &InterfaceFacts) -> (res: bool)
    ensures
        res == is_plugged_in(i@),
{
    !virtual_name(i.name.as_str()) && holds(&i.kind, "1") && !i.wireless && holds(&i.carrier, "1")
}

/// Finds the first wired interface with its cable in.
pub fn find_plugged_in(list: &Vec<InterfaceFacts>) -> (res: Option<usize>)
    ensures
        match res {
            Some(at) => at < list@.len() && at == plugged_in_from(interface_views(list@), 0),
            None => plugged_in_from(interface_views(list@), 0) == list@.len(),
        },
{
    let ghost views = interface_views(list@);
    let mut at: usize = 0;
    while at < list.len()
        invariant
            views == interface_views(list@),
            at <= list@.len(),
            plugged_in_from(views, 0) == plugged_in_from(views, at as nat),
        decreases list@.len() - at,
    {
        assert(views[at as int] == list@[at as int]@);
        if plugged_in(&list[at]) {
            return Some(at);
        }
        at += 1;
    }
    None
}

/// Describes the wired connection over an interface, given what `ip -4 -o addr show` printed
/// of it.
pub fn ethernet_info(i: &InterfaceFacts, ip_output: &Option<Vec<u8>>) -> (res: EthernetInfo)
    ensures
        res@ == wired(i@, ip_address(*ip_output)),
{
    let speed_mbps = match number_in(&i.speed, u32::MAX as u64) {
        Some(n) => if n > 0 && n < SPEED_LIMIT_MBPS as u64 {
            Some(n as u32)
        } else {
            None
        },
        None => None,
    };
    EthernetInfo {
        interface: i.name.clone(),
        speed_mbps,
        rx_bytes: count_in(&i.rx_bytes),
        tx_bytes: count_in(&i.tx_bytes),
        ipv4_masked: get_masked_ipv4(ip_output),
    }
}

/// The masked address in what `ip -4 -o addr show` printed, where it could be run.
pub open spec fn ip_address(output: Option<Vec<u8>>) -> Option<Seq<char>> {
    match output {
        Some(bytes) => masked_in(lossy_text(bytes@)),
        None => None,
    }
}

/// The wired connection among the interfaces, where they could be listed: the one over the
/// first interface that is wired and has its cable in.
pub open spec fn wired_among(
    interfaces: Option<Seq<InterfaceView>>,
    ipv4_masked: Option<Seq<char>>,
) -> Option<EthernetView> {
    match interfaces {
        Some(list) => {
            let at = plugged_in_from(list, 0);
            if at < list.len() {
                Some(wired(list[at as int], ipv4_masked))
            } else {
                None
            }
        },
        None => None,
    }
}

/// What an optional list of interfaces stands for.
pub open spec fn interfaces_view(list: Option<Vec<InterfaceFacts>>) -> Option<Seq<InterfaceView>> {
    match list {
        Some(list) => Some(interface_views(list@)),
        None => None,
    }
}

/// `app` with the wired connection among the interfaces.
pub open spec fn with_ethernet(
    app: AppView,
    interfaces: Option<Seq<InterfaceView>>,
    ipv4_masked: Option<Seq<char>>,
) -> AppView {
    AppView { ethernet: wired_among(interfaces, ipv4_masked), ..app }
}

impl App {
    /// Takes in the interfaces of the system, where they could be listed, and what
    /// `ip -4 -o addr show` printed of the one that [`find_plugged_in`] names.
    pub fn refresh_ethernet(
        &mut self,
        interfaces: &Option<Vec<InterfaceFacts>>,
        ip_output: &Option<Vec<u8>>,
    )
        ensures
            final(self)@ == with_ethernet(
                old(self)@,
                interfaces_view(*interfaces),
                ip_address(*ip_output),
            ),
    {
        self.ethernet = match interfaces {
            Some(list) => match find_plugged_in(list) {
                Some(at) => {
                    assert(interface_views(list@)[at as int] == list@[at as int]@);
                    Some(ethernet_info(&list[at], ip_output))
                },
                None => None,
            },
            None => None,
        };
    }
}

/// The interface that is taken is wired and has its cable in, and none in front of it has.
pub proof fn law_first_plugged_in(list: Seq<InterfaceView>, from: nat)
    requires
        from <= list.len(),
    ensures
        from <= plugged_in_from(list, from) <= list.len(),
        plugged_in_from(list, from) < list.len() ==> is_plugged_in(
            list[plugged_in_from(list, from) as int],
        ),
        forall|i: int|
            from <= i < plugged_in_from(list, from) ==> !is_plugged_in(#[trigger] list[i]),
    decreases list.len() - from,
{
    if from < list.len() && !is_plugged_in(list[from as int]) {
        law_first_plugged_in(list, from + 1);
    }
}

} // verus!
