//! The configuration of the program and the rules it has to meet.

use crate::ip_addrs::{n_hosts_fit_ipv4, netmask_size4, IpAddress};
use vstd::prelude::*;

verus! {

/// How much the program reports of what it does.
#[derive(Clone, Copy, Debug, PartialEq, Eq, Structural)]
pub enum LogLevel {
    Info,
    Debug,
    Trace,
}

/// Why a configuration is rejected at startup.
#[derive(Clone, Copy, Debug, PartialEq, Eq, Structural)]
pub enum ArgumentsError {
    /// The host count is zero.
    NoHosts,
    /// No virtual network is named.
    NoNetworks,
    /// The host count leaves no prefix in an IPv4 network.
    TooManyHosts,
}

/// The configuration that the program runs with; it does not change after
/// startup.
#[derive(Debug, Clone)]
pub struct Arguments {
    /// The verbosity of the diagnostics.
    pub log_level: LogLevel,
    /// The base name of the TUN interfaces; interface `i` appends `i` to it.
    pub tun_device_name: String,
    /// The number of hosts in each virtual network.
    pub n_hosts: usize,
    /// One address out of each virtual network.
    pub networks: Vec<IpAddress>,
}

/// The log level that a number of verbosity flags asks for.
pub open spec fn log_level_of(verbosity: u64) -> LogLevel {
    if verbosity == 0 {
        LogLevel::Info
    } else if verbosity == 1 {
        LogLevel::Debug
    } else {
        LogLevel::Trace
    }
}

/// Whether one of `networks` is an IPv4 network.
pub open spec fn has_ipv4_network(networks: Seq<IpAddress>) -> bool {
    exists|i: int| 0 <= i < networks.len() && #[trigger] networks[i] is V4
}

/// Why a host count and a list of networks are rejected, if they are: the
/// host count must be at least one, there must be a network, and where there
/// is an IPv4 network the host count must leave a prefix of at least one bit.
/// An IPv6 prefix is never used up by a host count that fits the machine.
pub open spec fn rejection(n_hosts: usize, networks: Seq<IpAddress>) -> Option<ArgumentsError> {
    if n_hosts == 0 {
        Some(ArgumentsError::NoHosts)
    } else if networks.len() == 0 {
        Some(ArgumentsError::NoNetworks)
    } else if has_ipv4_network(networks) && netmask_size4(n_hosts) < 1 {
        Some(ArgumentsError::TooManyHosts)
    } else {
        None
    }
}

impl LogLevel {
    /// Raises the level from `Info` by one step for each verbosity flag.
    pub fn from_verbosity(verbosity: u64) -> (level: LogLevel)
        ensures
            level == log_level_of(verbosity),
    {
        if verbosity == 0 {
            LogLevel::Info
        } else if verbosity == 1 {
            LogLevel::Debug
        } else {
            LogLevel::Trace
        }
    }
}

/// Tests a host count and a list of networks against the rules.
pub fn check_arguments(n_hosts: usize, networks: &Vec<IpAddress>) -> (result: Result<
    (),
    ArgumentsError,
>)
    ensures
        match result {
            Ok(_) => rejection(n_hosts, networks@) is None,
            Err(error) => rejection(n_hosts, networks@) == Some(error),
        },
{
    if n_hosts == 0 {
        return Err(ArgumentsError::NoHosts);
    }
    if networks.len() == 0 {
        return Err(ArgumentsError::NoNetworks);
    }
    let mut has_ipv4: bool = false;
    let mut i: usize = 0;
    while i < networks.len()
        invariant
            i <= networks@.len(),
            has_ipv4 <==> has_ipv4_network(networks@.subrange(0, i as int)),
        decreases networks@.len() - i,
    {
        let ghost before = networks@.subrange(0, i as int);
        let ghost after = networks@.subrange(0, i + 1);
        proof {
            if has_ipv4_network(before) {
                let k = choose|k: int| 0 <= k < before.len() && #[trigger] before[k] is V4;
                assert(after[k] is V4);
            }
            if has_ipv4_network(after) {
                let k = choose|k: int| 0 <= k < after.len() && #[trigger] after[k] is V4;
                if k < i {
                    assert(before[k] is V4);
                }
            }
            assert(after[i as int] == networks@[i as int]);
        }
        match networks[i] {
            IpAddress::V4(_) => {
                has_ipv4 = true;
            },
            IpAddress::V6(_) => {},
        }
        i = i + 1;
    }
    proof {
        assert(networks@.subrange(0, i as int) =~= networks@);
    }
    if has_ipv4 && !n_hosts_fit_ipv4(n_hosts) {
        return Err(ArgumentsError::TooManyHosts);
    }
    Ok(())
}

impl Arguments {
    /// Whether the configuration meets the rules.
    pub open spec fn valid(&self) -> bool {
        rejection(self.n_hosts, self.networks@) is None
    }

    /// The configuration that the command line asks for, if it meets the
    /// rules.
    pub fn new(
        verbosity: u64,
        tun_device_name: String,
        n_hosts: usize,
        networks: Vec<IpAddress>,
    ) -> (result: Result<Arguments, ArgumentsError>)
        ensures
            match result {
                Ok(arguments) => {
                    &&& rejection(n_hosts, networks@) is None
                    &&& arguments.valid()
                    &&& arguments.log_level == log_level_of(verbosity)
                    &&& arguments.tun_device_name@ == tun_device_name@
                    &&& arguments.n_hosts == n_hosts
                    &&& arguments.networks@ == networks@
                },
                Err(error) => rejection(n_hosts, networks@) == Some(error),
            },
    {
        match check_arguments(n_hosts, &networks) {
            Err(error) => Err(error),
            Ok(_) => Ok(
                Arguments {
                    log_level: LogLevel::from_verbosity(verbosity),
                    tun_device_name,
                    n_hosts,
                    networks,
                },
            ),
        }
    }
}

} // verus!
