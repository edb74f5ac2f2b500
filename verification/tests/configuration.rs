use traceroute_extender::argparse::{check_arguments, Arguments, ArgumentsError, LogLevel};
use traceroute_extender::ip_addrs::{
    calc_netmask_from_size4, calc_netmask_from_size6, calc_netmask_size_with_n_hosts4,
    calc_netmask_size_with_n_hosts6, get_nth_address_in_network4, get_nth_address_in_network6,
    n_hosts_fit_ipv4, IpAddress, Ipv4Address, Ipv6Address,
};
use traceroute_extender::tun_management::{
    name_tun_device, plan_tun_device, plan_tun_devices, TunDeviceSettings,
};

fn v4(a: u8, b: u8, c: u8, d: u8) -> IpAddress {
    IpAddress::V4(Ipv4Address::new(a, b, c, d))
}

fn v6(last: u16) -> IpAddress {
    IpAddress::V6(Ipv6Address::new(0x2001, 0xdb8, 0, 0, 0, 0, 0, last))
}

#[test]
fn prefix_for_host_counts() {
    assert_eq!(calc_netmask_size_with_n_hosts4(8), 28);
    assert_eq!(calc_netmask_size_with_n_hosts6(16), 123);
    assert_eq!(calc_netmask_size_with_n_hosts4(0), 31);
    assert_eq!(calc_netmask_size_with_n_hosts4(2), 30);
    assert_eq!(calc_netmask_size_with_n_hosts4(3), 29);
    assert_eq!(calc_netmask_size_with_n_hosts4(6), 29);
    assert_eq!(calc_netmask_size_with_n_hosts4(7), 28);
    assert_eq!(calc_netmask_size_with_n_hosts4(14), 28);
    assert_eq!(calc_netmask_size_with_n_hosts4(15), 27);
    assert_eq!(calc_netmask_size_with_n_hosts4(254), 24);
    assert_eq!(calc_netmask_size_with_n_hosts4(255), 23);
    assert_eq!(calc_netmask_size_with_n_hosts4(0x7fff_fffe), 1);
    assert_eq!(calc_netmask_size_with_n_hosts4(0x7fff_ffff), 0);
    assert_eq!(calc_netmask_size_with_n_hosts4(0xffff_fffe), 0);
    assert_eq!(calc_netmask_size_with_n_hosts6(0), 127);
    assert_eq!(calc_netmask_size_with_n_hosts6(254), 120);
    assert_eq!(calc_netmask_size_with_n_hosts6(0xffff_fffe), 96);
    assert_eq!(calc_netmask_size_with_n_hosts6(0xffff_ffff), 95);
}

#[test]
fn prefix_is_exact_where_floating_point_rounds() {
    // 2^60 - 1 hosts and two reserved addresses are one more than 2^60
    assert_eq!(calc_netmask_size_with_n_hosts6((1usize << 60) - 2), 68);
    assert_eq!(calc_netmask_size_with_n_hosts6((1usize << 60) - 1), 67);
    assert_eq!(calc_netmask_size_with_n_hosts6(usize::MAX - 2), 64);
    assert_eq!(calc_netmask_size_with_n_hosts6(usize::MAX - 1), 64);
    assert_eq!(calc_netmask_size_with_n_hosts6(usize::MAX), 63);
}

#[test]
fn single_host_takes_the_smallest_subnet() {
    assert_eq!(calc_netmask_size_with_n_hosts4(1), 30);
    assert_eq!(calc_netmask_size_with_n_hosts6(1), 126);
    assert_eq!(calc_netmask_from_size4(30), Ipv4Address::new(255, 255, 255, 252));
}

#[test]
fn derived_subnet_holds_hosts_and_reserved_addresses() {
    for n_hosts in 1usize..5000 {
        let prefix = calc_netmask_size_with_n_hosts4(n_hosts);
        let size: u64 = 1 << (32 - prefix);
        assert!(size >= n_hosts as u64 + 2);
        assert!(size / 2 < n_hosts as u64 + 2);
        let prefix6 = calc_netmask_size_with_n_hosts6(n_hosts);
        assert_eq!(128 - prefix6, (32 - prefix) as usize);
    }
}

#[test]
fn netmasks_have_leading_ones() {
    assert_eq!(calc_netmask_from_size4(0), Ipv4Address::new(0, 0, 0, 0));
    assert_eq!(calc_netmask_from_size4(1), Ipv4Address::new(128, 0, 0, 0));
    assert_eq!(calc_netmask_from_size4(28), Ipv4Address::new(255, 255, 255, 240));
    assert_eq!(calc_netmask_from_size4(31), Ipv4Address::new(255, 255, 255, 254));
    assert_eq!(calc_netmask_from_size4(32), Ipv4Address::new(255, 255, 255, 255));
    assert_eq!(calc_netmask_from_size6(0), Ipv6Address::new(0, 0, 0, 0, 0, 0, 0, 0));
    assert_eq!(calc_netmask_from_size6(1), Ipv6Address::new(0x8000, 0, 0, 0, 0, 0, 0, 0));
    assert_eq!(
        calc_netmask_from_size6(123),
        Ipv6Address::new(0xffff, 0xffff, 0xffff, 0xffff, 0xffff, 0xffff, 0xffff, 0xffe0)
    );
    assert_eq!(
        calc_netmask_from_size6(128),
        Ipv6Address::new(0xffff, 0xffff, 0xffff, 0xffff, 0xffff, 0xffff, 0xffff, 0xffff)
    );
    for size in 0u32..=32 {
        assert_eq!(calc_netmask_from_size4(size).bits.leading_ones(), size);
        assert_eq!(calc_netmask_from_size4(size).bits.count_ones(), size);
    }
    for size in 0usize..=128 {
        assert_eq!(calc_netmask_from_size6(size).bits.leading_ones() as usize, size);
        assert_eq!(calc_netmask_from_size6(size).bits.count_ones() as usize, size);
    }
}

#[test]
fn nth_address_lies_in_the_subnet() {
    let networks = [
        Ipv4Address::new(10, 0, 0, 0),
        Ipv4Address::new(10, 0, 0, 125),
        Ipv4Address::new(192, 168, 255, 255),
        Ipv4Address::new(255, 255, 255, 255),
    ];
    for network in networks {
        for prefix in 0u32..=32 {
            let mask = calc_netmask_from_size4(prefix).bits;
            for n in [0u32, 1, 2, 3, 100, 255, 256, 65_535, 0xffff_ffff] {
                let address = get_nth_address_in_network4(n, prefix, &network).bits;
                assert_eq!(address & mask, network.bits & mask);
                assert_eq!(address & !mask, n & !mask);
            }
        }
    }
    let network = Ipv6Address::new(0x2001, 0xdb8, 0x1234, 0x5678, 0x9abc, 0xdef0, 0x1111, 0x2222);
    for prefix in 0usize..=128 {
        let mask = calc_netmask_from_size6(prefix).bits;
        for n in [0usize, 1, 5, 255, 65_536, usize::MAX] {
            let address = get_nth_address_in_network6(n, prefix, &network).bits;
            assert_eq!(address & mask, network.bits & mask);
            assert_eq!(address & !mask, n as u128 & !mask);
        }
    }
}

#[test]
fn nth_address_examples() {
    assert_eq!(
        get_nth_address_in_network4(3, 28, &Ipv4Address::new(10, 0, 0, 0)),
        Ipv4Address::new(10, 0, 0, 3)
    );
    assert_eq!(
        get_nth_address_in_network4(3, 28, &Ipv4Address::new(10, 0, 0, 5)),
        Ipv4Address::new(10, 0, 0, 3)
    );
    // host numbers beyond the subnet wrap
    assert_eq!(
        get_nth_address_in_network4(19, 28, &Ipv4Address::new(10, 0, 0, 37)),
        Ipv4Address::new(10, 0, 0, 35)
    );
    assert_eq!(
        get_nth_address_in_network6(5, 123, &Ipv6Address::new(0x2001, 0xdb8, 0, 0, 0, 0, 0, 0)),
        Ipv6Address::new(0x2001, 0xdb8, 0, 0, 0, 0, 0, 5)
    );
    assert_eq!(
        get_nth_address_in_network6(5, 123, &Ipv6Address::new(0x2001, 0xdb8, 0, 0, 0, 0, 0, 0x47)),
        Ipv6Address::new(0x2001, 0xdb8, 0, 0, 0, 0, 0, 0x45)
    );
}

#[test]
fn first_address_is_not_the_network_address() {
    for prefix in 0u32..32 {
        let mask = calc_netmask_from_size4(prefix).bits;
        let network = Ipv4Address::new(172, 16, 99, 200);
        assert_ne!(get_nth_address_in_network4(1, prefix, &network).bits, network.bits & mask);
    }
}

#[test]
fn addresses_spell_their_octets() {
    assert_eq!(Ipv4Address::new(10, 0, 0, 1).bits, 0x0a00_0001);
    assert_eq!(Ipv4Address::new(255, 255, 255, 252).bits, 0xffff_fffc);
    assert_eq!(
        Ipv6Address::new(0x2001, 0xdb8, 0, 0, 0, 0, 0, 7).bits,
        0x2001_0db8_0000_0000_0000_0000_0000_0007
    );
    assert_eq!(
        Ipv6Address::new(1, 2, 3, 4, 5, 6, 7, 8).bits,
        0x0001_0002_0003_0004_0005_0006_0007_0008
    );
}

#[test]
fn verbosity_raises_the_log_level() {
    assert_eq!(LogLevel::from_verbosity(0), LogLevel::Info);
    assert_eq!(LogLevel::from_verbosity(1), LogLevel::Debug);
    assert_eq!(LogLevel::from_verbosity(2), LogLevel::Trace);
    assert_eq!(LogLevel::from_verbosity(7), LogLevel::Trace);
}

#[test]
fn configuration_is_checked_at_startup() {
    let accepted = Arguments::new(1, String::from("tun"), 8, vec![v4(10, 0, 0, 0), v6(0)]).unwrap();
    assert_eq!(accepted.log_level, LogLevel::Debug);
    assert_eq!(accepted.tun_device_name, "tun");
    assert_eq!(accepted.n_hosts, 8);
    assert_eq!(accepted.networks, vec![v4(10, 0, 0, 0), v6(0)]);
    assert_eq!(
        Arguments::new(0, String::from("tun"), 0, vec![v4(10, 0, 0, 0)]).unwrap_err(),
        ArgumentsError::NoHosts
    );
    assert_eq!(
        Arguments::new(0, String::from("tun"), 8, vec![]).unwrap_err(),
        ArgumentsError::NoNetworks
    );
    assert_eq!(
        Arguments::new(0, String::from("tun"), 0, vec![]).unwrap_err(),
        ArgumentsError::NoHosts
    );
    assert_eq!(
        Arguments::new(0, String::from("tun"), 0x7fff_ffff, vec![v6(0), v4(10, 0, 0, 0)])
            .unwrap_err(),
        ArgumentsError::TooManyHosts
    );
    assert!(Arguments::new(0, String::from("tun"), 0x7fff_fffe, vec![v4(10, 0, 0, 0)]).is_ok());
    assert!(Arguments::new(0, String::from("tun"), 0x7fff_ffff, vec![v6(0)]).is_ok());
    assert!(Arguments::new(0, String::from("tun"), usize::MAX, vec![v6(0), v6(1)]).is_ok());
    assert_eq!(check_arguments(1, &vec![v4(10, 0, 0, 0)]), Ok(()));
    assert_eq!(check_arguments(0, &vec![v4(10, 0, 0, 0)]), Err(ArgumentsError::NoHosts));
}

#[test]
fn host_counts_that_fit_ipv4() {
    assert!(n_hosts_fit_ipv4(0));
    assert!(n_hosts_fit_ipv4(1));
    assert!(n_hosts_fit_ipv4(0x7fff_fffe));
    assert!(!n_hosts_fit_ipv4(0x7fff_ffff));
    assert!(!n_hosts_fit_ipv4(usize::MAX));
}

#[test]
fn devices_are_named_by_their_place() {
    assert_eq!(name_tun_device("tunTraceRtExt", 0), "tunTraceRtExt0");
    assert_eq!(name_tun_device("tunTraceRtExt", 7), "tunTraceRtExt7");
    assert_eq!(name_tun_device("tun", 10), "tun10");
    assert_eq!(name_tun_device("tun", 109), "tun109");
    assert_eq!(name_tun_device("", 4096), "4096");
    assert_eq!(name_tun_device("t", usize::MAX), format!("t{}", usize::MAX));
}

#[test]
fn devices_claim_the_first_address_of_their_network() {
    assert_eq!(
        plan_tun_device(8, &v4(10, 0, 0, 0)),
        TunDeviceSettings::V4 {
            address: Ipv4Address::new(10, 0, 0, 1),
            netmask: Ipv4Address::new(255, 255, 255, 240),
        }
    );
    assert_eq!(
        plan_tun_device(8, &v4(10, 0, 0, 37)),
        TunDeviceSettings::V4 {
            address: Ipv4Address::new(10, 0, 0, 33),
            netmask: Ipv4Address::new(255, 255, 255, 240),
        }
    );
    assert_eq!(
        plan_tun_device(16, &v6(0)),
        TunDeviceSettings::V6 {
            address: Ipv6Address::new(0x2001, 0xdb8, 0, 0, 0, 0, 0, 1),
            prefix_length: 123,
        }
    );
    assert_eq!(
        plan_tun_device(1, &v6(0xfffe)),
        TunDeviceSettings::V6 {
            address: Ipv6Address::new(0x2001, 0xdb8, 0, 0, 0, 0, 0, 0xfffd),
            prefix_length: 126,
        }
    );
}

#[test]
fn one_device_for_each_network() {
    let mut networks = vec![v4(10, 0, 0, 0), v6(0), v4(10, 0, 1, 0)];
    for i in 0..9 {
        networks.push(v4(10, 1, i, 0));
    }
    let args = Arguments::new(0, String::from("tunTraceRtExt"), 8, networks.clone()).unwrap();
    let plans = plan_tun_devices(&args);
    assert_eq!(plans.len(), 12);
    for (i, plan) in plans.iter().enumerate() {
        assert_eq!(plan.name, format!("tunTraceRtExt{}", i));
        assert_eq!(plan.settings, plan_tun_device(8, &networks[i]));
        assert!(!plan.ethernet_framing);
        assert!(!plan.packet_information);
        assert!(plan.up);
    }
    assert_eq!(plans[0].name, "tunTraceRtExt0");
    assert_eq!(plans[11].name, "tunTraceRtExt11");
    assert_eq!(
        plans[1].settings,
        TunDeviceSettings::V6 {
            address: Ipv6Address::new(0x2001, 0xdb8, 0, 0, 0, 0, 0, 1),
            prefix_length: 124,
        }
    );
}
