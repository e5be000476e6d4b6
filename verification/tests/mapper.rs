use netmigrate::addr::{contains_char, parse_nameserver};
use netmigrate::interface::{Bond, Bridge, Interface, Miimon as RawMiimon};
use netmigrate::mapper::{
    bond_config, bridge_config, field_name, field_warnings, map_interface, method,
    parse_bond_mode, read_addresses, parse_carrier_detect, parse_fail_over_mac, parse_hash_policy,
    unhandled_field_message, MapError, MapField,
};
use netmigrate::model::{
    BondConfig, BondMode, BridgeConfig, CarrierDetect, ConnectionConfig, DhcpSettings,
    FailOverMac, IpAddr, IpInet, IpMethod, Miimon, XmitHashPolicy,
};
use netmigrate::policy::NetconfigDhcp;

fn named(name: &str) -> Interface {
    Interface::named(name.to_string())
}

fn fixture_bond() -> Bond {
    Bond {
        mode: "active-backup".to_string(),
        xmit_hash_policy: Some("layer3+4".to_string()),
        fail_over_mac: Some("none".to_string()),
        miimon: Some(RawMiimon {
            frequency: 23,
            carrier_detect: "ioctl".to_string(),
            downdelay: Some(31),
            updelay: Some(27),
        }),
    }
}

fn failure(raw: &Interface) -> MapError {
    map_interface(raw, &None, 1).unwrap_err()
}

#[test]
fn bond_fixture_round_trip() {
    let mut raw = named("bond0");
    raw.bond = Some(fixture_bond());
    let result = raw.to_connection(&None).unwrap();
    assert_eq!(result.connections.len(), 1);
    assert!(result.warnings.is_empty());
    let connection = &result.connections[0];
    assert_eq!(connection.id, "bond0");
    assert_eq!(connection.interface, Some("bond0".to_string()));
    assert_eq!(connection.controller, None);
    assert_eq!(
        connection.config,
        ConnectionConfig::Bond(BondConfig {
            mode: BondMode::ActiveBackup,
            xmit_hash_policy: Some(XmitHashPolicy::Layer34),
            fail_over_mac: Some(FailOverMac::Off),
            miimon: Some(Miimon {
                frequency: 23,
                carrier_detect: CarrierDetect::Ioctl,
                downdelay: Some(31),
                updelay: Some(27),
            }),
        })
    );
}

#[test]
fn bond_with_the_short_hash_policy_spelling() {
    let mut bond = fixture_bond();
    bond.xmit_hash_policy = Some("layer34".to_string());
    assert_eq!(
        bond_config(&bond).unwrap().xmit_hash_policy,
        Some(XmitHashPolicy::Layer34)
    );
}

#[test]
fn bond_with_the_mode_alone() {
    let bond = Bond {
        mode: "802.3ad".to_string(),
        xmit_hash_policy: None,
        fail_over_mac: None,
        miimon: None,
    };
    assert_eq!(
        bond_config(&bond).unwrap(),
        BondConfig {
            mode: BondMode::Ieee8023ad,
            xmit_hash_policy: None,
            fail_over_mac: None,
            miimon: None,
        }
    );
}

#[test]
fn bridge_without_stp_has_stp_off() {
    let mut raw = named("br0");
    raw.bridge = Some(Bridge { stp: None, priority: None, forward_delay: None });
    let result = raw.to_connection(&None).unwrap();
    assert_eq!(
        result.connections[0].config,
        ConnectionConfig::Bridge(BridgeConfig { stp: false, priority: None, forward_delay: None })
    );
}

#[test]
fn bridge_keeps_what_the_descriptor_says() {
    assert_eq!(
        bridge_config(Bridge { stp: Some(true), priority: Some(7), forward_delay: Some(15) }),
        BridgeConfig { stp: true, priority: Some(7), forward_delay: Some(15) }
    );
    assert_eq!(
        bridge_config(Bridge { stp: Some(false), priority: None, forward_delay: None }),
        BridgeConfig { stp: false, priority: None, forward_delay: None }
    );
}

#[test]
fn plain_interface_is_ethernet() {
    let result = map_interface(&named("eth0"), &None, 99).unwrap();
    let c = &result.connections[0];
    assert_eq!(c.config, ConnectionConfig::Ethernet);
    assert_eq!(c.uuid, 99);
    assert_eq!(c.id, "eth0");
    assert_eq!(c.ip_config.method4, IpMethod::Unset);
    assert_eq!(c.ip_config.method6, IpMethod::Unset);
    assert!(c.ip_config.addresses.is_empty());
    assert!(c.ip_config.nameservers.is_empty());
    assert!(!c.ip_config.ignore_auto_dns);
    assert_eq!(c.ip_config.dns_priority4, None);
    assert_eq!(c.ip_config.dns_priority6, None);
    assert!(c.match_config.interface.is_empty());
    assert!(c.match_config.driver.is_empty());
    assert_eq!(c.firewall_zone, None);
}

#[test]
fn firewall_zone_is_carried_over() {
    let mut raw = named("eth1");
    raw.firewall.zone = Some("foo".to_string());
    let result = map_interface(&raw, &None, 1).unwrap();
    assert_eq!(result.connections[0].firewall_zone, Some("foo".to_string()));
}

#[test]
fn fresh_uuids_differ() {
    let a = named("eth0").to_connection(&None).unwrap();
    let b = named("eth0").to_connection(&None).unwrap();
    assert_ne!(a.connections[0].uuid, b.connections[0].uuid);
}

#[test]
fn static_addresses_are_read() {
    let mut raw = named("eth0");
    raw.ipv4.addresses = vec!["192.168.1.5/24".to_string(), "10.0.0.1".to_string()];
    raw.ipv6.addresses = vec!["fe80::1/64".to_string()];
    let result = map_interface(&raw, &None, 1).unwrap();
    let ip = &result.connections[0].ip_config;
    assert_eq!(ip.method4, IpMethod::Manual);
    assert_eq!(ip.method6, IpMethod::Manual);
    assert_eq!(
        ip.addresses,
        vec![
            IpInet { address: IpAddr::V4(0xc0a8_0105), prefix: 24 },
            IpInet { address: IpAddr::V4(0x0a00_0001), prefix: 32 },
            IpInet { address: IpAddr::V6(0xfe80_0000_0000_0000_0000_0000_0000_0001), prefix: 64 },
        ]
    );
}

fn read_one(text: &str, v6: bool) -> Option<IpInet> {
    let mut out = vec![];
    match read_addresses(&vec![text.to_string()], v6, &mut out) {
        Ok(()) => {
            assert_eq!(out.len(), 1);
            Some(out[0])
        }
        Err(bad) => {
            assert_eq!(bad, text);
            assert!(out.is_empty());
            None
        }
    }
}

#[test]
fn addresses_are_read_with_their_prefix() {
    assert_eq!(
        read_one("127.0.0.1/8", false),
        Some(IpInet { address: IpAddr::V4(0x7f00_0001), prefix: 8 })
    );
    assert_eq!(read_one("::1/128", true), Some(IpInet { address: IpAddr::V6(1), prefix: 128 }));
    assert_eq!(read_one("::1", true), Some(IpInet { address: IpAddr::V6(1), prefix: 128 }));
    assert_eq!(read_one("1.2.3.4/33", false), None);
    assert_eq!(read_one("::1/129", true), None);
    assert_eq!(read_one("1.2.3/8", false), None);
    assert_eq!(read_one("", false), None);
    assert_eq!(read_one("eth0", false), None);
    assert_eq!(read_one("1.2.3.4/8", true), None);
    assert_eq!(read_one("::1/8", false), None);
}

#[test]
fn addresses_are_added_behind_those_already_read() {
    let mut out = vec![IpInet { address: IpAddr::V4(1), prefix: 1 }];
    let list = vec!["10.0.0.1/8".to_string(), "bad".to_string(), "10.0.0.2/8".to_string()];
    assert_eq!(read_addresses(&list, false, &mut out), Err("bad".to_string()));
    assert_eq!(out[0], IpInet { address: IpAddr::V4(1), prefix: 1 });
    let mut out = vec![IpInet { address: IpAddr::V4(1), prefix: 1 }];
    assert_eq!(read_addresses(&list[..1].to_vec(), false, &mut out), Ok(()));
    assert_eq!(
        out,
        vec![
            IpInet { address: IpAddr::V4(1), prefix: 1 },
            IpInet { address: IpAddr::V4(0x0a00_0001), prefix: 8 },
        ]
    );
}

#[test]
fn parse_nameserver_takes_bare_addresses_only() {
    assert_eq!(parse_nameserver("1.2.3.4"), Some(IpAddr::V4(0x0102_0304)));
    assert_eq!(parse_nameserver("2001:db8::1"), Some(IpAddr::V6(0x2001_0db8 << 96 | 1)));
    assert_eq!(parse_nameserver("1.2.3.4/32"), None);
    assert_eq!(parse_nameserver("::1/128"), None);
    assert_eq!(parse_nameserver("dns.example.com"), None);
    assert_eq!(parse_nameserver(""), None);
}

#[test]
fn contains_char_finds_characters() {
    assert!(contains_char("a/b", '/'));
    assert!(contains_char("/", '/'));
    assert!(!contains_char("", '/'));
    assert!(!contains_char("abc", '/'));
    assert!(contains_char("ä/ö", 'ö'));
}

#[test]
fn methods_follow_the_descriptor() {
    let mut raw = named("eth0");
    raw.ipv4.dhcp = true;
    raw.ipv6.enabled = false;
    let result = map_interface(&raw, &None, 1).unwrap();
    assert_eq!(result.connections[0].ip_config.method4, IpMethod::Auto);
    assert_eq!(result.connections[0].ip_config.method6, IpMethod::Disabled);
    assert_eq!(method(&raw.ipv4), Some(IpMethod::Auto));
    assert_eq!(method(&raw.ipv6), Some(IpMethod::Disabled));
    assert_eq!(method(&named("x").ipv4), Some(IpMethod::Unset));
}

#[test]
fn dhcp_with_static_addresses_is_automatic() {
    let mut raw = named("eth0");
    raw.ipv4.dhcp = true;
    raw.ipv4.addresses = vec!["10.0.0.2/8".to_string()];
    let result = map_interface(&raw, &None, 1).unwrap();
    let ip = &result.connections[0].ip_config;
    assert_eq!(ip.method4, IpMethod::Auto);
    assert_eq!(ip.addresses, vec![IpInet { address: IpAddr::V4(0x0a00_0002), prefix: 8 }]);
}

#[test]
fn dhcp_policy_applies_to_automatic_families_only() {
    let policy = Some(NetconfigDhcp {
        dhcp4: DhcpSettings { send_hostname: Some(false), route_metric: Some(100) },
        dhcp6: DhcpSettings { send_hostname: Some(true), route_metric: None },
    });
    let unset = DhcpSettings { send_hostname: None, route_metric: None };
    let mut raw = named("eth0");
    raw.ipv4.dhcp = true;
    let result = map_interface(&raw, &policy, 1).unwrap();
    let ip = &result.connections[0].ip_config;
    assert_eq!(ip.dhcp4, policy.unwrap().dhcp4);
    assert_eq!(ip.dhcp6, unset);
    let result = map_interface(&raw, &None, 1).unwrap();
    assert_eq!(result.connections[0].ip_config.dhcp4, unset);
    raw.ipv4.dhcp = false;
    raw.ipv6.dhcp = true;
    let result = map_interface(&raw, &policy, 1).unwrap();
    let ip = &result.connections[0].ip_config;
    assert_eq!(ip.dhcp4, unset);
    assert_eq!(ip.dhcp6, policy.unwrap().dhcp6);
}

#[test]
fn disabled_family_that_is_configured_is_contradictory() {
    let mut raw = named("eth0");
    raw.ipv4.enabled = false;
    raw.ipv4.dhcp = true;
    let e = failure(&raw);
    assert_eq!(e.field, MapField::Ipv4Method);
    assert_eq!(e.interface, "eth0");
    assert_eq!(e.value, "");
    assert_eq!(e.message(), "Interface eth0: invalid ipv4 method");
    assert_eq!(method(&raw.ipv4), None);

    let mut raw = named("eth1");
    raw.ipv6.enabled = false;
    raw.ipv6.addresses = vec!["::1/128".to_string()];
    let e = failure(&raw);
    assert_eq!(e.field, MapField::Ipv6Method);
    assert_eq!(e.message(), "Interface eth1: invalid ipv6 method");
}

#[test]
fn wrong_addresses_are_mapping_errors() {
    let mut raw = named("eth0");
    raw.ipv4.addresses = vec!["10.0.0.1/8".to_string(), "10.0.0.300/8".to_string()];
    let e = failure(&raw);
    assert_eq!(e.field, MapField::Ipv4Address);
    assert_eq!(e.value, "10.0.0.300/8");
    assert_eq!(e.message(), "Interface eth0: invalid ipv4 address '10.0.0.300/8'");

    let mut raw = named("eth0");
    raw.ipv4.addresses = vec!["::1/128".to_string()];
    assert_eq!(failure(&raw).field, MapField::Ipv4Address);

    let mut raw = named("eth0");
    raw.ipv6.addresses = vec!["1.2.3.4/8".to_string()];
    let e = failure(&raw);
    assert_eq!(e.field, MapField::Ipv6Address);
    assert_eq!(e.value, "1.2.3.4/8");
}

#[test]
fn ipv4_is_looked_at_before_ipv6() {
    let mut raw = named("eth0");
    raw.ipv4.addresses = vec!["bad".to_string()];
    raw.ipv6.enabled = false;
    raw.ipv6.dhcp = true;
    assert_eq!(failure(&raw).field, MapField::Ipv4Address);
}

#[test]
fn wrong_bond_values_are_mapping_errors() {
    let mut raw = named("bond0");
    let mut bond = fixture_bond();
    bond.mode = "active_backup".to_string();
    raw.bond = Some(bond);
    let e = failure(&raw);
    assert_eq!(e.field, MapField::BondMode);
    assert_eq!(e.value, "active_backup");
    assert_eq!(e.message(), "Interface bond0: invalid bond mode 'active_backup'");

    let mut bond = fixture_bond();
    bond.xmit_hash_policy = Some("layer5".to_string());
    assert_eq!(bond_config(&bond).unwrap_err(), (MapField::XmitHashPolicy, "layer5".to_string()));

    let mut bond = fixture_bond();
    bond.fail_over_mac = Some("None".to_string());
    assert_eq!(bond_config(&bond).unwrap_err(), (MapField::FailOverMac, "None".to_string()));

    let mut bond = fixture_bond();
    bond.miimon = Some(RawMiimon {
        frequency: 1,
        carrier_detect: "magic".to_string(),
        downdelay: None,
        updelay: None,
    });
    assert_eq!(bond_config(&bond).unwrap_err(), (MapField::CarrierDetect, "magic".to_string()));
}

#[test]
fn the_first_wrong_bond_value_is_reported() {
    let bond = Bond {
        mode: "x".to_string(),
        xmit_hash_policy: Some("y".to_string()),
        fail_over_mac: Some("z".to_string()),
        miimon: None,
    };
    assert_eq!(bond_config(&bond).unwrap_err(), (MapField::BondMode, "x".to_string()));
}

#[test]
fn bond_and_bridge_together_are_refused() {
    let mut raw = named("x0");
    raw.bond = Some(fixture_bond());
    raw.bridge = Some(Bridge { stp: None, priority: None, forward_delay: None });
    let e = failure(&raw);
    assert_eq!(e.field, MapField::Kind);
    assert_eq!(e.message(), "Interface x0: invalid combination of bond and bridge");
}

#[test]
fn the_kind_is_looked_at_before_the_addresses() {
    let mut raw = named("bond0");
    let mut bond = fixture_bond();
    bond.mode = "nope".to_string();
    raw.bond = Some(bond);
    raw.ipv4.addresses = vec!["bad".to_string()];
    assert_eq!(failure(&raw).field, MapField::BondMode);
}

#[test]
fn enumerations_are_read_from_their_names() {
    assert_eq!(parse_bond_mode("balance-rr"), Some(BondMode::BalanceRr));
    assert_eq!(parse_bond_mode("active-backup"), Some(BondMode::ActiveBackup));
    assert_eq!(parse_bond_mode("balance-xor"), Some(BondMode::BalanceXor));
    assert_eq!(parse_bond_mode("broadcast"), Some(BondMode::Broadcast));
    assert_eq!(parse_bond_mode("802.3ad"), Some(BondMode::Ieee8023ad));
    assert_eq!(parse_bond_mode("balance-tlb"), Some(BondMode::BalanceTlb));
    assert_eq!(parse_bond_mode("balance-alb"), Some(BondMode::BalanceAlb));
    assert_eq!(parse_bond_mode(""), None);
    assert_eq!(parse_bond_mode("Active-Backup"), None);
    assert_eq!(parse_hash_policy("layer2"), Some(XmitHashPolicy::Layer2));
    assert_eq!(parse_hash_policy("layer2+3"), Some(XmitHashPolicy::Layer23));
    assert_eq!(parse_hash_policy("layer23"), Some(XmitHashPolicy::Layer23));
    assert_eq!(parse_hash_policy("layer3+4"), Some(XmitHashPolicy::Layer34));
    assert_eq!(parse_hash_policy("encap2+3"), Some(XmitHashPolicy::Encap23));
    assert_eq!(parse_hash_policy("encap23"), Some(XmitHashPolicy::Encap23));
    assert_eq!(parse_hash_policy("encap3+4"), Some(XmitHashPolicy::Encap34));
    assert_eq!(parse_hash_policy("encap34"), Some(XmitHashPolicy::Encap34));
    assert_eq!(parse_hash_policy("vlan+srcmac"), Some(XmitHashPolicy::VlanSrcMac));
    assert_eq!(parse_hash_policy("layer4"), None);
    assert_eq!(parse_fail_over_mac("none"), Some(FailOverMac::Off));
    assert_eq!(parse_fail_over_mac("active"), Some(FailOverMac::Active));
    assert_eq!(parse_fail_over_mac("follow"), Some(FailOverMac::Follow));
    assert_eq!(parse_fail_over_mac("off"), None);
    assert_eq!(parse_carrier_detect("ioctl"), Some(CarrierDetect::Ioctl));
    assert_eq!(parse_carrier_detect("netif"), Some(CarrierDetect::Netif));
    assert_eq!(parse_carrier_detect("mii"), None);
}

#[test]
fn unhandled_fields_become_warnings_unless_ignored() {
    let mut raw = named("eth0");
    raw.unhandled_fields = vec![
        "foo".to_string(),
        "ipv4.forwarding".to_string(),
        "bar.baz".to_string(),
        "ipv6.stable-secret".to_string(),
    ];
    let result = map_interface(&raw, &None, 1).unwrap();
    assert_eq!(
        result.warnings,
        vec![
            "Unhandled field in interface eth0: foo",
            "Unhandled field in interface eth0: bar.baz",
        ]
    );
    assert_eq!(result.connections.len(), 1);
    assert!(field_warnings("eth0", &vec!["ipv6.autoconf".to_string()]).is_empty());
    assert!(field_warnings("eth0", &vec![]).is_empty());
    assert_eq!(unhandled_field_message("br0", "x.y"), "Unhandled field in interface br0: x.y");
}

#[test]
fn field_names_are_spelled_out() {
    assert_eq!(field_name(MapField::Kind), "combination of bond and bridge");
    assert_eq!(field_name(MapField::BondMode), "bond mode");
    assert_eq!(field_name(MapField::XmitHashPolicy), "bond xmit-hash-policy");
    assert_eq!(field_name(MapField::FailOverMac), "bond fail-over-mac");
    assert_eq!(field_name(MapField::CarrierDetect), "bond miimon carrier-detect");
    assert_eq!(field_name(MapField::Ipv4Method), "ipv4 method");
    assert_eq!(field_name(MapField::Ipv4Address), "ipv4 address");
    assert_eq!(field_name(MapField::Ipv6Method), "ipv6 method");
    assert_eq!(field_name(MapField::Ipv6Address), "ipv6 address");
}
