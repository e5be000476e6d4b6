use netmigrate::fields::{is_ignored_field, IGNORED_FIELDS};
use netmigrate::interface::Interface;
use netmigrate::paths::{parse_index, split_field_path};
use netmigrate::policy::{MigrationSettings, Netconfig, NetconfigDhcp};
use netmigrate::model::DhcpSettings;
use netmigrate::reader::{
    accept_netconfig, accept_netconfig_dhcp, drop_loopback, read_files, reads_standard_input,
    replace_colons, replaced_text, with_unhandled_fields, InterfacesResult, ReadError,
};

fn settings(continue_migration: bool) -> MigrationSettings {
    MigrationSettings {
        continue_migration,
        dry_run: false,
        with_netconfig: true,
        netconfig_path: "/etc/sysconfig/network/config".to_string(),
        netconfig_dhcp_path: "/etc/sysconfig/network/dhcp".to_string(),
    }
}

fn names(interfaces: &Vec<Interface>) -> Vec<String> {
    interfaces.iter().map(|i| i.name.clone()).collect()
}

fn result_of(interface_names: &[&str], warning: Option<&str>) -> InterfacesResult {
    InterfacesResult {
        interfaces: interface_names
            .iter()
            .map(|n| Interface::named(n.to_string()))
            .collect(),
        netconfig: None,
        netconfig_dhcp: None,
        warning: warning.map(|w| w.to_string()),
    }
}

fn policy(warnings: &[&str]) -> Netconfig {
    Netconfig {
        static_dns_servers: vec![],
        static_dns_searchlist: None,
        dns_policy: vec![],
        warnings: warnings.iter().map(|w| w.to_string()).collect(),
    }
}

#[test]
fn check_sort_of_ignored_fields() {
    let mut i = 1;

    while i < IGNORED_FIELDS.len() {
        let a = IGNORED_FIELDS[i - 1].as_bytes();
        let b = IGNORED_FIELDS[i].as_bytes();
        assert!(a <= b);
        i += 1;
    }
}

#[test]
fn ignored_fields_are_recognised() {
    for field in IGNORED_FIELDS.iter() {
        assert!(is_ignored_field(field));
    }
    assert!(is_ignored_field("ipv6.accept-ra"));
    assert!(!is_ignored_field("ipv6.accept"));
    assert!(!is_ignored_field("ipv4.arp-notify "));
    assert!(!is_ignored_field(""));
    assert!(!is_ignored_field("firewall.zone"));
}

#[test]
fn colons_in_tag_names_become_hyphens() {
    assert_eq!(replace_colons("<ipv4:static>"), "<ipv4-static>");
    assert_eq!(replace_colons("</ipv4:static>"), "</ipv4-static>");
    assert_eq!(
        replace_colons("<interface><ipv6:dhcp><enabled>true</enabled></ipv6:dhcp></interface>"),
        "<interface><ipv6-dhcp><enabled>true</enabled></ipv6-dhcp></interface>"
    );
}

#[test]
fn colons_outside_tag_names_stay() {
    assert_eq!(replace_colons("<address>fe80::1</address>"), "<address>fe80::1</address>");
    assert_eq!(replace_colons("<name>eth0</name>"), "<name>eth0</name>");
    assert_eq!(replace_colons(""), "");
    assert_eq!(replace_colons("a:b"), "a:b");
}

#[test]
fn replaced_text_falls_back_to_the_original() {
    assert_eq!(replaced_text("<a:b>", Some("<a-b>".to_string())), "<a-b>");
    assert_eq!(replaced_text("<a:b>", None), "<a:b>");
}

#[test]
fn parse_index_reads_decimal_positions() {
    assert_eq!(parse_index("0"), Some(0));
    assert_eq!(parse_index("7"), Some(7));
    assert_eq!(parse_index("0012"), Some(12));
    assert_eq!(parse_index("+3"), Some(3));
    assert_eq!(parse_index("18446744073709551615"), Some(usize::MAX));
}

#[test]
fn parse_index_refuses_what_is_no_position() {
    assert_eq!(parse_index(""), None);
    assert_eq!(parse_index("+"), None);
    assert_eq!(parse_index("-1"), None);
    assert_eq!(parse_index("1a"), None);
    assert_eq!(parse_index(" 1"), None);
    assert_eq!(parse_index("18446744073709551616"), None);
    assert_eq!(parse_index("99999999999999999999999"), None);
}

#[test]
fn parse_index_agrees_with_std() {
    for text in ["0", "42", "+42", "007", "", "+", "++1", "4 2", "x", "18446744073709551616"] {
        assert_eq!(parse_index(text), text.parse::<usize>().ok());
    }
}

#[test]
fn split_field_path_splits_at_first_dot() {
    assert_eq!(
        split_field_path("0.ipv4.forwarding"),
        Some((0, "ipv4.forwarding".to_string()))
    );
    assert_eq!(split_field_path("12.foo"), Some((12, "foo".to_string())));
    assert_eq!(split_field_path("3."), Some((3, "".to_string())));
    assert_eq!(split_field_path("3"), None);
    assert_eq!(split_field_path(".foo"), None);
    assert_eq!(split_field_path("x.foo"), None);
    assert_eq!(split_field_path(""), None);
}

#[test]
fn unhandled_fields_are_noted_with_their_interface() {
    let interfaces = vec![
        Interface::named("eth0".to_string()),
        Interface::named("eth1".to_string()),
    ];
    let paths = vec![
        "1.ipv4.forwarding".to_string(),
        "0.foo".to_string(),
        "1.bar.baz".to_string(),
    ];
    let result = with_unhandled_fields(interfaces, &paths).unwrap();
    assert_eq!(names(&result.interfaces), vec!["eth0", "eth1"]);
    assert_eq!(result.interfaces[0].unhandled_fields, vec!["foo"]);
    assert_eq!(result.interfaces[1].unhandled_fields, vec!["ipv4.forwarding", "bar.baz"]);
    assert_eq!(
        result.warning,
        Some("Unhandled fields, use the `--continue-migration` flag to ignore".to_string())
    );
    assert!(result.netconfig.is_none());
    assert!(result.netconfig_dhcp.is_none());
}

#[test]
fn ignored_fields_give_no_warning() {
    let interfaces = vec![Interface::named("eth0".to_string())];
    let paths = vec!["0.ipv4.forwarding".to_string(), "0.ipv6.accept-ra".to_string()];
    let result = with_unhandled_fields(interfaces, &paths).unwrap();
    assert_eq!(result.warning, None);
    assert_eq!(
        result.interfaces[0].unhandled_fields,
        vec!["ipv4.forwarding", "ipv6.accept-ra"]
    );
}

#[test]
fn no_paths_leave_the_interfaces_alone() {
    let interfaces = vec![Interface::named("eth0".to_string())];
    let result = with_unhandled_fields(interfaces, &vec![]).unwrap();
    assert_eq!(result.warning, None);
    assert!(result.interfaces[0].unhandled_fields.is_empty());
}

#[test]
fn a_path_outside_the_document_is_refused() {
    let one = || vec![Interface::named("eth0".to_string())];
    assert!(with_unhandled_fields(one(), &vec!["1.foo".to_string()]).is_none());
    assert!(with_unhandled_fields(one(), &vec!["foo".to_string()]).is_none());
    assert!(with_unhandled_fields(one(), &vec!["0.foo".to_string(), "x.y".to_string()]).is_none());
    assert!(with_unhandled_fields(vec![], &vec!["0.foo".to_string()]).is_none());
}

#[test]
fn read_files_joins_in_order() {
    let joined = read_files(vec![
        result_of(&["eth0", "eth1"], None),
        result_of(&[], Some("first")),
        result_of(&["br0"], Some("second")),
    ]);
    assert_eq!(names(&joined.interfaces), vec!["eth0", "eth1", "br0"]);
    assert_eq!(joined.warning, Some("first".to_string()));
    assert!(joined.netconfig.is_none());
    assert!(joined.netconfig_dhcp.is_none());
}

#[test]
fn read_files_of_nothing_is_empty() {
    let joined = read_files(vec![]);
    assert!(joined.interfaces.is_empty());
    assert_eq!(joined.warning, None);
}

#[test]
fn read_files_without_warnings_has_none() {
    let joined = read_files(vec![result_of(&["a"], None), result_of(&["b"], None)]);
    assert_eq!(names(&joined.interfaces), vec!["a", "b"]);
    assert_eq!(joined.warning, None);
}

#[test]
fn standard_input_is_a_single_dash() {
    assert!(reads_standard_input(&vec!["-".to_string()]));
    assert!(!reads_standard_input(&vec![]));
    assert!(!reads_standard_input(&vec!["-".to_string(), "-".to_string()]));
    assert!(!reads_standard_input(&vec!["--".to_string()]));
    assert!(!reads_standard_input(&vec!["ifcfg.xml".to_string()]));
}

#[test]
fn loopback_interfaces_are_dropped() {
    let interfaces = vec![
        Interface::named("lo".to_string()),
        Interface::named("eth0".to_string()),
        Interface::named("lo".to_string()),
        Interface::named("lo0".to_string()),
        Interface::named("br0".to_string()),
    ];
    assert_eq!(names(&drop_loopback(interfaces)), vec!["eth0", "lo0", "br0"]);
    assert!(drop_loopback(vec![]).is_empty());
    assert!(drop_loopback(vec![Interface::named("lo".to_string())]).is_empty());
}

#[test]
fn netconfig_that_cannot_be_read_fails_in_either_mode() {
    for mode in [false, true] {
        let e = accept_netconfig(Err("no such file".to_string()), &settings(mode)).unwrap_err();
        assert!(matches!(e, ReadError::Netconfig { .. }));
        assert_eq!(
            e.message(),
            "Failed to read netconfig at /etc/sysconfig/network/config: no such file"
        );
    }
}

#[test]
fn netconfig_with_warnings_fails_a_strict_run() {
    let e = accept_netconfig(Ok(Some(policy(&["bad line"]))), &settings(false)).unwrap_err();
    assert!(matches!(e, ReadError::NetconfigWarnings { .. }));
    assert_eq!(
        e.message(),
        "/etc/sysconfig/network/config parse errors, use the `--continue-migration` flag to ignore"
    );
    let kept = accept_netconfig(Ok(Some(policy(&["bad line"]))), &settings(true)).unwrap();
    assert_eq!(kept.unwrap().warnings, vec!["bad line"]);
}

#[test]
fn netconfig_without_warnings_passes() {
    assert!(accept_netconfig(Ok(Some(policy(&[]))), &settings(false)).unwrap().is_some());
    assert!(accept_netconfig(Ok(None), &settings(false)).unwrap().is_none());
    assert!(accept_netconfig(Ok(None), &settings(true)).unwrap().is_none());
}

#[test]
fn netconfig_dhcp_failure_depends_on_the_mode() {
    let e = accept_netconfig_dhcp(Err("denied".to_string()), &settings(false)).unwrap_err();
    assert!(matches!(e, ReadError::NetconfigDhcp { .. }));
    assert_eq!(
        e.message(),
        "Failed to read netconfig_dhcp at /etc/sysconfig/network/dhcp: denied, use the `--continue-migration` flag to ignore"
    );
    let (policy, warning) =
        accept_netconfig_dhcp(Err("denied".to_string()), &settings(true)).unwrap();
    assert!(policy.is_none());
    assert_eq!(
        warning,
        Some("Failed to read netconfig_dhcp at /etc/sysconfig/network/dhcp: denied".to_string())
    );
}

#[test]
fn netconfig_dhcp_that_was_read_passes() {
    let read = NetconfigDhcp {
        dhcp4: DhcpSettings { send_hostname: Some(true), route_metric: Some(5) },
        dhcp6: DhcpSettings { send_hostname: None, route_metric: None },
    };
    for mode in [false, true] {
        let (policy, warning) = accept_netconfig_dhcp(Ok(read), &settings(mode)).unwrap();
        assert_eq!(policy, Some(read));
        assert_eq!(warning, None);
    }
}
