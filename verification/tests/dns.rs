use netmigrate::dns::{
    merge_dns, merge_dns_with, policy_priorities, rule_claims, settle, static_dns_servers,
    MergeError,
};
use netmigrate::loopback::loopback_connection;
use netmigrate::model::{
    Connection, ConnectionConfig, IpAddr, IpConfig, IpInet, IpMethod, MatchConfig,
};
use netmigrate::policy::{DnsRule, Netconfig, RuleTarget};
use netmigrate::state::{assemble, NetworkState};

fn connection(id: &str, interface: Option<&str>, uuid: u128) -> Connection {
    Connection {
        id: id.to_string(),
        uuid,
        interface: interface.map(|i| i.to_string()),
        controller: None,
        ip_config: IpConfig::empty(),
        match_config: MatchConfig::by_name(),
        firewall_zone: None,
        config: ConnectionConfig::Ethernet,
    }
}

fn rule(interface: Option<&str>, priority4: Option<i32>, priority6: Option<i32>) -> DnsRule {
    DnsRule {
        target: match interface {
            Some(name) => RuleTarget::Interface(name.to_string()),
            None => RuleTarget::AnyInterface,
        },
        priority4,
        priority6,
    }
}

fn netconfig(servers: &[&str], searchlist: Option<&[&str]>, rules: Vec<DnsRule>) -> Netconfig {
    Netconfig {
        static_dns_servers: servers.iter().map(|s| s.to_string()).collect(),
        static_dns_searchlist: searchlist.map(|l| l.iter().map(|s| s.to_string()).collect()),
        dns_policy: rules,
        warnings: vec![],
    }
}

fn state_of(list: Vec<Connection>) -> NetworkState {
    assemble(&list).unwrap()
}

fn ids(state: &NetworkState) -> Vec<String> {
    state.connections.iter().map(|c| c.id.clone()).collect()
}

#[test]
fn a_missing_loopback_is_made() {
    let mut state = state_of(vec![connection("eth0", Some("eth0"), 1)]);
    let policy = netconfig(&["1.2.3.4", "2001:db8::1"], Some(&["example.com", "example.org"]), vec![]);
    let skipped = merge_dns(&policy, &mut state, None, false).unwrap();
    assert_eq!(skipped, None);
    assert_eq!(ids(&state), vec!["eth0", "lo"]);
    let los: Vec<&Connection> = state.connections.iter().filter(|c| c.id == "lo").collect();
    assert_eq!(los.len(), 1);
    let lo = los[0];
    assert_eq!(lo.interface, Some("lo".to_string()));
    assert_eq!(lo.config, ConnectionConfig::Loopback);
    assert_eq!(lo.ip_config.method4, IpMethod::Manual);
    assert_eq!(lo.ip_config.method6, IpMethod::Manual);
    assert_eq!(
        lo.ip_config.addresses,
        vec![
            IpInet { address: IpAddr::V4(0x7f00_0001), prefix: 8 },
            IpInet { address: IpAddr::V6(1), prefix: 128 },
        ]
    );
    assert_eq!(
        lo.ip_config.nameservers,
        vec![IpAddr::V4(0x0102_0304), IpAddr::V6(0x2001_0db8 << 96 | 1)]
    );
    assert_eq!(lo.ip_config.dns_searchlist, vec!["example.com", "example.org"]);
    assert!(!lo.ip_config.ignore_auto_dns);
}

#[test]
fn the_loopback_of_the_system_is_kept() {
    let mut current = loopback_connection(42);
    current.firewall_zone = Some("trusted".to_string());
    current.ip_config.dns_searchlist = vec!["old.example".to_string()];
    current.ip_config.nameservers = vec![IpAddr::V4(9)];
    current.ip_config.addresses.push(IpInet { address: IpAddr::V4(0x7f00_0002), prefix: 8 });
    let mut state = state_of(vec![connection("eth0", Some("eth0"), 1)]);
    let policy = netconfig(&["8.8.8.8"], None, vec![]);
    merge_dns(&policy, &mut state, Some(current), false).unwrap();
    let lo = state.get_connection("lo").unwrap();
    assert_eq!(lo.uuid, 42);
    assert_eq!(lo.firewall_zone, Some("trusted".to_string()));
    assert_eq!(lo.ip_config.addresses.len(), 3);
    assert_eq!(lo.ip_config.nameservers, vec![IpAddr::V4(0x0808_0808)]);
    assert_eq!(lo.ip_config.dns_searchlist, vec!["old.example"]);
}

#[test]
fn an_empty_search_list_replaces_the_old_one() {
    let mut current = loopback_connection(42);
    current.ip_config.dns_searchlist = vec!["old.example".to_string()];
    let mut state = state_of(vec![]);
    merge_dns(&netconfig(&[], Some(&[]), vec![]), &mut state, Some(current), false).unwrap();
    assert!(state.get_connection("lo").unwrap().ip_config.dns_searchlist.is_empty());
    assert!(state.get_connection("lo").unwrap().ip_config.nameservers.is_empty());
}

#[test]
fn a_wrong_nameserver_fails_a_strict_run() {
    let mut state = state_of(vec![connection("eth0", Some("eth0"), 1)]);
    let policy = netconfig(&["1.2.3.4", "not-an-address", "also wrong"], None, vec![]);
    match merge_dns(&policy, &mut state, None, false) {
        Err(MergeError::Nameserver { entry }) => assert_eq!(entry, "not-an-address"),
        other => panic!("{:?}", other),
    }
    assert_eq!(ids(&state), vec!["eth0"]);
    assert!(!state.connections[0].ip_config.ignore_auto_dns);
}

#[test]
fn a_wrong_nameserver_empties_the_list_in_continue_mode() {
    let mut state = state_of(vec![connection("eth0", Some("eth0"), 1)]);
    let policy = netconfig(&["1.2.3.4", "not-an-address", "5.6.7.8"], None, vec![]);
    let skipped = merge_dns(&policy, &mut state, None, true).unwrap();
    assert_eq!(skipped, Some("not-an-address".to_string()));
    assert!(state.get_connection("lo").unwrap().ip_config.nameservers.is_empty());
    assert_eq!(ids(&state), vec!["eth0", "lo"]);
}

#[test]
fn nameserver_entries_are_read_in_order() {
    let policy = netconfig(&["10.0.0.1", "::1", "10.0.0.1"], None, vec![]);
    assert_eq!(
        static_dns_servers(&policy),
        Ok(vec![IpAddr::V4(0x0a00_0001), IpAddr::V6(1), IpAddr::V4(0x0a00_0001)])
    );
    assert_eq!(static_dns_servers(&netconfig(&[], None, vec![])), Ok(vec![]));
    assert_eq!(
        static_dns_servers(&netconfig(&["10.0.0.1/8"], None, vec![])),
        Err("10.0.0.1/8".to_string())
    );
}

#[test]
fn a_second_loopback_is_refused() {
    let mut state = state_of(vec![connection("lo", Some("lo"), 1), connection("eth0", None, 2)]);
    match merge_dns(&netconfig(&[], None, vec![]), &mut state, None, true) {
        Err(MergeError::ConnectionExists { id }) => assert_eq!(id, "lo"),
        other => panic!("{:?}", other),
    }
    assert_eq!(ids(&state), vec!["lo", "eth0"]);
    assert!(!state.connections[1].ip_config.ignore_auto_dns);
}

#[test]
fn unclaimed_connections_ignore_automatic_dns() {
    let mut with_priority = connection("wlan0", Some("wlan0"), 3);
    with_priority.ip_config.dns_priority6 = Some(7);
    let mut state = state_of(vec![
        connection("eth0", Some("eth0"), 1),
        connection("eth1", Some("eth1"), 2),
        with_priority,
        connection("vpn", None, 4),
    ]);
    let policy = netconfig(&[], None, vec![rule(Some("eth1"), Some(20), None)]);
    merge_dns(&policy, &mut state, None, false).unwrap();
    let flags: Vec<bool> = state.connections.iter().map(|c| c.ip_config.ignore_auto_dns).collect();
    assert_eq!(flags, vec![true, false, false, true, false]);
    let fourth: Vec<Option<i32>> = state.connections.iter().map(|c| c.ip_config.dns_priority4).collect();
    assert_eq!(fourth, vec![None, Some(20), None, None, None]);
    let sixth: Vec<Option<i32>> = state.connections.iter().map(|c| c.ip_config.dns_priority6).collect();
    assert_eq!(sixth, vec![None, None, Some(7), None, None]);
}

#[test]
fn a_claimed_connection_keeps_its_setting() {
    let mut c = connection("eth0", Some("eth0"), 1);
    c.ip_config.ignore_auto_dns = true;
    let rules = vec![rule(Some("eth0"), None, Some(5))];
    let settled = settle(&rules, &c);
    assert!(settled.ip_config.ignore_auto_dns);
    assert_eq!(settled.ip_config.dns_priority6, Some(5));
    assert_eq!(settled.ip_config.dns_priority4, None);
    let mut c = connection("eth0", Some("eth0"), 1);
    c.ip_config.ignore_auto_dns = false;
    assert!(!settle(&rules, &c).ip_config.ignore_auto_dns);
}

#[test]
fn the_loopback_is_exempt() {
    let lo = loopback_connection(1);
    let rules = vec![rule(None, Some(1), Some(2))];
    let settled = settle(&rules, &lo);
    assert!(!settled.ip_config.ignore_auto_dns);
    assert_eq!(settled.ip_config.dns_priority4, None);
    assert_eq!(settled.ip_config.dns_priority6, None);
    let settled = settle(&vec![], &lo);
    assert!(!settled.ip_config.ignore_auto_dns);
}

#[test]
fn the_first_rule_with_a_priority_wins() {
    let rules = vec![
        rule(Some("eth1"), Some(1), Some(1)),
        rule(Some("eth0"), None, Some(30)),
        rule(None, Some(50), Some(60)),
        rule(Some("eth0"), Some(70), Some(80)),
    ];
    let eth0 = connection("eth0", Some("eth0"), 1);
    assert_eq!(policy_priorities(&rules, &eth0), (Some(50), Some(30)));
    let eth1 = connection("eth1", Some("eth1"), 1);
    assert_eq!(policy_priorities(&rules, &eth1), (Some(1), Some(1)));
    let unbound = connection("vpn", None, 1);
    assert_eq!(policy_priorities(&rules, &unbound), (None, None));
    assert_eq!(policy_priorities(&vec![], &eth0), (None, None));
}

#[test]
fn a_rule_claims_by_interface() {
    let eth0 = connection("x", Some("eth0"), 1);
    let unbound = connection("eth0", None, 1);
    assert!(rule_claims(&rule(Some("eth0"), None, None), &eth0));
    assert!(!rule_claims(&rule(Some("eth1"), None, None), &eth0));
    assert!(!rule_claims(&rule(Some("eth0"), None, None), &unbound));
    assert!(rule_claims(&rule(None, None, None), &eth0));
    assert!(!rule_claims(&rule(None, None, None), &unbound));
}

#[test]
fn a_priority_of_the_policy_replaces_the_old_one() {
    let mut c = connection("eth0", Some("eth0"), 1);
    c.ip_config.dns_priority4 = Some(5);
    c.ip_config.dns_priority6 = Some(6);
    let settled = settle(&vec![rule(Some("eth0"), Some(100), None)], &c);
    assert_eq!(settled.ip_config.dns_priority4, Some(100));
    assert_eq!(settled.ip_config.dns_priority6, Some(6));
}

#[test]
fn merging_with_a_given_loopback() {
    let mut state = state_of(vec![connection("eth0", Some("eth0"), 1)]);
    let policy = netconfig(&["9.9.9.9"], None, vec![rule(None, Some(10), Some(10))]);
    merge_dns_with(&policy, &mut state, loopback_connection(8), false).unwrap();
    assert_eq!(ids(&state), vec!["eth0", "lo"]);
    assert_eq!(state.connections[1].uuid, 8);
    assert_eq!(state.connections[0].ip_config.dns_priority4, Some(10));
    assert!(!state.connections[0].ip_config.ignore_auto_dns);
    assert_eq!(state.connections[1].ip_config.dns_priority4, None);
}
