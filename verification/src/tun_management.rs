//! What the TUN devices are set up with: one device for each virtual
//! network, named by its place in the list, holding the first host address of
//! its network under the netmask that the host count asks for.

use crate::argparse::Arguments;
use crate::ip_addrs::{
    calc_netmask_from_size4, calc_netmask_size_with_n_hosts4, calc_netmask_size_with_n_hosts6,
    get_nth_address_in_network4, get_nth_address_in_network6, in_subnet4, in_subnet6,
    lemma_first_address4_is_not_network, lemma_first_address6_is_not_network,
    lemma_host_bits_at_most_65, lemma_host_bits_exist, lemma_netmask_size4_bound,
    lemma_nth_address4_in_subnet, lemma_nth_address6_in_subnet, netmask4, netmask6,
    netmask_size4, netmask_size6, nth_address4, nth_address6, IpAddress, Ipv4Address, Ipv6Address,
};
use vstd::prelude::*;
use vstd::string::StringExecFns;

verus! {

/// The address and the size of the network that a TUN device is given.
#[derive(Clone, Copy, Debug, PartialEq, Eq, Structural)]
#[allow(inconsistent_fields)]
pub enum TunDeviceSettings {
    V4 { address: Ipv4Address, netmask: Ipv4Address },
    V6 { address: Ipv6Address, prefix_length: u32 },
}

/// One TUN device to create.
#[derive(Debug)]
pub struct TunDevicePlan {
    /// The name of the interface.
    pub name: String,
    /// The address and the size of the network to configure it with.
    pub settings: TunDeviceSettings,
    /// Whether the device exchanges ethernet frames in place of IP datagrams.
    pub ethernet_framing: bool,
    /// Whether the device puts packet information in front of each datagram.
    pub packet_information: bool,
    /// Whether the device is brought up when it is created.
    pub up: bool,
}

impl TunDevicePlan {
    /// Whether the device works in IP mode: it exchanges bare IP datagrams
    /// and is up from the start.
    pub open spec fn ip_mode(&self) -> bool {
        !self.ethernet_framing && !self.packet_information && self.up
    }
}

/// The decimal digit of a number below ten.
pub open spec fn digit(value: nat) -> char {
    if value == 0 {
        '0'
    } else if value == 1 {
        '1'
    } else if value == 2 {
        '2'
    } else if value == 3 {
        '3'
    } else if value == 4 {
        '4'
    } else if value == 5 {
        '5'
    } else if value == 6 {
        '6'
    } else if value == 7 {
        '7'
    } else if value == 8 {
        '8'
    } else {
        '9'
    }
}

/// A number in decimal digits, without leading zeros.
pub open spec fn decimal(value: nat) -> Seq<char>
    decreases value,
{
    if value < 10 {
        seq![digit(value)]
    } else {
        decimal(value / 10).push(digit(value % 10))
    }
}

/// The name of the device for network number `index`: the base name with the
/// number behind it.
pub open spec fn tun_device_name(base_name: Seq<char>, index: nat) -> Seq<char> {
    base_name + decimal(index)
}

/// What the device of `network` is set up with: host number one of the
/// network as its own address, and the netmask or prefix that leaves room for
/// `n_hosts` hosts.
pub open spec fn tun_device_settings(n_hosts: usize, network: IpAddress) -> TunDeviceSettings {
    match network {
        IpAddress::V4(network) => TunDeviceSettings::V4 {
            address: Ipv4Address {
                bits: nth_address4(1, netmask_size4(n_hosts) as u32, network.bits),
            },
            netmask: Ipv4Address { bits: netmask4(netmask_size4(n_hosts) as u32) },
        },
        IpAddress::V6(network) => TunDeviceSettings::V6 {
            address: Ipv6Address {
                bits: nth_address6(1, netmask_size6(n_hosts) as usize, network.bits),
            },
            prefix_length: netmask_size6(n_hosts) as u32,
        },
    }
}

/// The address that a device claims lies in the subnet of its network and is
/// not the base address of that subnet.
pub proof fn lemma_own_address(n_hosts: usize, network: IpAddress)
    requires
        network is V4 ==> netmask_size4(n_hosts) >= 0,
    ensures
        match tun_device_settings(n_hosts, network) {
            TunDeviceSettings::V4 { address, netmask } => {
                &&& network is V4
                &&& netmask_size4(n_hosts) <= 31
                &&& netmask.bits == netmask4(netmask_size4(n_hosts) as u32)
                &&& in_subnet4(address.bits, netmask_size4(n_hosts) as u32, network->V4_0.bits)
                &&& address.bits != network->V4_0.bits & netmask.bits
            },
            TunDeviceSettings::V6 { address, prefix_length } => {
                &&& network is V6
                &&& prefix_length == netmask_size6(n_hosts)
                &&& prefix_length <= 127
                &&& in_subnet6(address.bits, prefix_length as usize, network->V6_0.bits)
                &&& address.bits != network->V6_0.bits & netmask6(prefix_length as usize)
            },
        },
{
    lemma_host_bits_exist(n_hosts as nat);
    match network {
        IpAddress::V4(base) => {
            let prefix = netmask_size4(n_hosts) as u32;
            lemma_nth_address4_in_subnet(1, prefix, base.bits);
            lemma_first_address4_is_not_network(prefix, base.bits);
        },
        IpAddress::V6(base) => {
            lemma_host_bits_at_most_65(n_hosts);
            let prefix = netmask_size6(n_hosts) as usize;
            lemma_nth_address6_in_subnet(1, prefix, base.bits);
            lemma_first_address6_is_not_network(prefix, base.bits);
        },
    }
}

/// The text of one decimal digit.
fn digit_text(value: usize) -> (text: &'static str)
    requires
        value < 10,
    ensures
        text@ == seq![digit(value as nat)],
{
    proof {
        reveal_strlit("0");
        reveal_strlit("1");
        reveal_strlit("2");
        reveal_strlit("3");
        reveal_strlit("4");
        reveal_strlit("5");
        reveal_strlit("6");
        reveal_strlit("7");
        reveal_strlit("8");
        reveal_strlit("9");
    }
    let text: &'static str = if value == 0 {
        "0"
    } else if value == 1 {
        "1"
    } else if value == 2 {
        "2"
    } else if value == 3 {
        "3"
    } else if value == 4 {
        "4"
    } else if value == 5 {
        "5"
    } else if value == 6 {
        "6"
    } else if value == 7 {
        "7"
    } else if value == 8 {
        "8"
    } else {
        "9"
    };
    proof {
        assert(text@ =~= seq![digit(value as nat)]);
    }
    text
}

/// Appends `value` in decimal digits to `text`.
fn append_decimal(text: String, value: usize) -> (extended: String)
    ensures
        extended@ == text@ + decimal(value as nat),
    decreases value,
{
    if value < 10 {
        text.concat(digit_text(value))
    } else {
        let extended: String = append_decimal(text, value / 10).concat(digit_text(value % 10));
        proof {
            assert(extended@ =~= text@ + decimal(value as nat));
        }
        extended
    }
}

/// The name of the device for network number `index`.
pub fn name_tun_device(base_name: &str, index: usize) -> (name: String)
    ensures
        name@ == tun_device_name(base_name@, index as nat),
{
    append_decimal(base_name.to_owned(), index)
}

/// What the device of `network` is set up with.
pub fn plan_tun_device(n_hosts: usize, network: &IpAddress) -> (settings: TunDeviceSettings)
    requires
        *network is V4 ==> netmask_size4(n_hosts) >= 0,
    ensures
        settings == tun_device_settings(n_hosts, *network),
{
    match network {
        IpAddress::V4(network) => {
            proof {
                lemma_netmask_size4_bound(n_hosts);
            }
            let netmask_size: u32 = calc_netmask_size_with_n_hosts4(n_hosts);
            TunDeviceSettings::V4 {
                address: get_nth_address_in_network4(1, netmask_size, network),
                netmask: calc_netmask_from_size4(netmask_size),
            }
        },
        IpAddress::V6(network) => {
            let netmask_size: usize = calc_netmask_size_with_n_hosts6(n_hosts);
            TunDeviceSettings::V6 {
                address: get_nth_address_in_network6(1, netmask_size, network),
                prefix_length: netmask_size as u32,
            }
        },
    }
}

/// The devices to create for a configuration: one for each network and in
/// the order of the networks, each in IP mode.
pub fn plan_tun_devices(program_args: &Arguments) -> (plans: Vec<TunDevicePlan>)
    requires
        program_args.valid(),
    ensures
        plans@.len() == program_args.networks@.len(),
        forall|i: int|
            0 <= i < plans@.len() ==> {
                &&& (#[trigger] plans@[i]).name@ == tun_device_name(
                    program_args.tun_device_name@,
                    i as nat,
                )
                &&& plans@[i].settings == tun_device_settings(
                    program_args.n_hosts,
                    program_args.networks@[i],
                )
                &&& plans@[i].ip_mode()
            },
{
    let mut plans: Vec<TunDevicePlan> = Vec::with_capacity(program_args.networks.len());
    let mut i: usize = 0;
    while i < program_args.networks.len()
        invariant
            i <= program_args.networks@.len(),
            program_args.valid(),
            plans@.len() == i,
            forall|k: int|
                0 <= k < i ==> {
                    &&& (#[trigger] plans@[k]).name@ == tun_device_name(
                        program_args.tun_device_name@,
                        k as nat,
                    )
                    &&& plans@[k].settings == tun_device_settings(
                        program_args.n_hosts,
                        program_args.networks@[k],
                    )
                    &&& plans@[k].ip_mode()
                },
        decreases program_args.networks@.len() - i,
    {
        let network: &IpAddress = &program_args.networks[i];
        proof {
            if *network is V4 {
                assert(program_args.networks@[i as int] is V4);
            }
        }
        let plan = TunDevicePlan {
            name: name_tun_device(program_args.tun_device_name.as_str(), i),
            settings: plan_tun_device(program_args.n_hosts, network),
            ethernet_framing: false,
            packet_information: false,
            up: true,
        };
        plans.push(plan);
        i = i + 1;
    }
    plans
}

} // verus!
