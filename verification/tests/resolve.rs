use netmigrate::loopback::{create_lo_connection, loopback_connection};
use netmigrate::model::{
    Connection, ConnectionConfig, IpAddr, IpConfig, IpInet, IpMethod, MatchConfig,
};
use netmigrate::resolve::{
    find_by_id, find_by_interface, update_parent_connection, ParentMap, ResolveError,
};
use netmigrate::state::{assemble, GeneralState, NetworkState, StateError};

fn connection(id: &str, interface: Option<&str>, uuid: u128) -> Connection {
    Connection {
        id: id.to_string(),
        uuid,
        interface: interface.map(|i| i.to_string()),
        controller: None,
        ip_config: IpConfig::empty(),
        match_config: MatchConfig::by_name(),
        firewall_zone: None,
        config: ConnectionConfig::Ethernet,
    }
}

fn parents(pairs: &[(&str, &str)]) -> ParentMap {
    let mut map = ParentMap::new();
    for (child, parent) in pairs {
        map.insert(child.to_string(), parent.to_string());
    }
    map
}

fn controllers(connections: &Vec<Connection>) -> Vec<Option<u128>> {
    connections.iter().map(|c| c.controller).collect()
}

fn ids(state: &NetworkState) -> Vec<String> {
    state.connections.iter().map(|c| c.id.clone()).collect()
}

#[test]
fn parent_map_keeps_one_pair_for_each_child() {
    let mut map = ParentMap::new();
    assert_eq!(map.len(), 0);
    map.insert("eth0".to_string(), "bond0".to_string());
    map.insert("eth1".to_string(), "bond0".to_string());
    map.insert("eth0".to_string(), "br0".to_string());
    assert_eq!(map.len(), 2);
    assert_eq!(
        map.entries,
        vec![
            ("eth0".to_string(), "br0".to_string()),
            ("eth1".to_string(), "bond0".to_string()),
        ]
    );
}

#[test]
fn finds_the_first_connection() {
    let list = vec![
        connection("a", Some("eth0"), 1),
        connection("b", None, 2),
        connection("a", Some("eth0"), 3),
        connection("c", Some("eth1"), 4),
    ];
    assert_eq!(find_by_interface(&list, "eth0"), Some(0));
    assert_eq!(find_by_interface(&list, "eth1"), Some(3));
    assert_eq!(find_by_interface(&list, "eth2"), None);
    assert_eq!(find_by_interface(&list, ""), None);
    assert_eq!(find_by_id(&list, "a"), Some(0));
    assert_eq!(find_by_id(&list, "b"), Some(1));
    assert_eq!(find_by_id(&list, "c"), Some(3));
    assert_eq!(find_by_id(&list, "eth0"), None);
    assert_eq!(find_by_id(&vec![], "a"), None);
}

#[test]
fn present_parent_becomes_the_controller() {
    for mode in [false, true] {
        let mut list = vec![
            connection("eth0", Some("eth0"), 10),
            connection("eth1", Some("eth1"), 11),
            connection("bond0", Some("bond0"), 12),
            connection("eth2", Some("eth2"), 13),
        ];
        let skipped = update_parent_connection(
            &mut list,
            &parents(&[("eth0", "bond0"), ("eth1", "bond0")]),
            mode,
        )
        .unwrap();
        assert!(skipped.is_empty());
        assert_eq!(controllers(&list), vec![Some(12), Some(12), None, None]);
        assert_eq!(list[2].uuid, 12);
        assert_eq!(list[0].id, "eth0");
    }
}

#[test]
fn a_parent_is_found_wherever_it_stands() {
    let mut list = vec![
        connection("br0", Some("br0"), 1),
        connection("bond0", Some("bond0"), 2),
        connection("eth0", Some("eth0"), 3),
    ];
    update_parent_connection(
        &mut list,
        &parents(&[("eth0", "bond0"), ("bond0", "br0")]),
        false,
    )
    .unwrap();
    assert_eq!(controllers(&list), vec![None, Some(1), Some(2)]);
}

#[test]
fn absent_parent_fails_a_strict_run() {
    let mut list = vec![
        connection("eth0", Some("eth0"), 10),
        connection("eth1", Some("eth1"), 11),
        connection("bond0", Some("bond0"), 12),
    ];
    let e = update_parent_connection(
        &mut list,
        &parents(&[("eth0", "bond0"), ("eth1", "bond1")]),
        false,
    )
    .unwrap_err();
    match e {
        ResolveError::MissingParent { id, parent } => {
            assert_eq!(id, "eth1");
            assert_eq!(parent, "bond1");
        }
        other => panic!("{:?}", other),
    }
    assert_eq!(controllers(&list), vec![None, None, None]);
}

#[test]
fn absent_parent_is_passed_over_in_continue_mode() {
    let mut list = vec![
        connection("eth0", Some("eth0"), 10),
        connection("eth1", Some("eth1"), 11),
        connection("bond0", Some("bond0"), 12),
    ];
    let skipped = update_parent_connection(
        &mut list,
        &parents(&[("eth1", "bond1"), ("eth0", "bond0")]),
        true,
    )
    .unwrap();
    assert_eq!(skipped, vec![("eth1".to_string(), "bond1".to_string())]);
    assert_eq!(controllers(&list), vec![Some(12), None, None]);
}

#[test]
fn a_controller_that_was_set_stays_where_the_parent_is_absent() {
    let mut list = vec![connection("eth0", Some("eth0"), 10)];
    list[0].controller = Some(77);
    update_parent_connection(&mut list, &parents(&[("eth0", "bond0")]), true).unwrap();
    assert_eq!(list[0].controller, Some(77));
}

#[test]
fn a_child_without_connection_fails_in_either_mode() {
    for mode in [false, true] {
        let mut list = vec![
            connection("eth0", Some("eth0"), 10),
            connection("bond0", Some("bond0"), 12),
        ];
        let e = update_parent_connection(
            &mut list,
            &parents(&[("eth0", "bond0"), ("ghost", "bond0")]),
            mode,
        )
        .unwrap_err();
        match e {
            ResolveError::MissingConnection { id } => assert_eq!(id, "ghost"),
            other => panic!("{:?}", other),
        }
        assert_eq!(controllers(&list), vec![Some(12), None]);
    }
}

#[test]
fn the_child_is_found_by_its_id() {
    let mut list = vec![
        connection("port", Some("eth0"), 10),
        connection("bond0", Some("bond0"), 12),
    ];
    update_parent_connection(&mut list, &parents(&[("port", "bond0")]), false).unwrap();
    assert_eq!(controllers(&list), vec![Some(12), None]);
    let mut list = vec![
        connection("port", Some("eth0"), 10),
        connection("bond0", Some("bond0"), 12),
    ];
    let e = update_parent_connection(&mut list, &parents(&[("eth0", "bond0")]), false);
    assert!(matches!(e, Err(ResolveError::MissingConnection { .. })));
}

#[test]
fn the_first_of_several_parents_gives_the_uuid() {
    let mut list = vec![
        connection("eth0", Some("eth0"), 10),
        connection("bond0", Some("bond0"), 12),
        connection("bond0-again", Some("bond0"), 13),
    ];
    update_parent_connection(&mut list, &parents(&[("eth0", "bond0")]), false).unwrap();
    assert_eq!(list[0].controller, Some(12));
}

#[test]
fn nothing_to_resolve_changes_nothing() {
    let mut list = vec![connection("eth0", Some("eth0"), 10)];
    assert!(update_parent_connection(&mut list, &ParentMap::new(), false).unwrap().is_empty());
    assert_eq!(controllers(&list), vec![None]);
    let mut none: Vec<Connection> = vec![];
    assert!(update_parent_connection(&mut none, &ParentMap::new(), false).is_ok());
}

#[test]
fn duplicate_ids_cannot_be_assembled() {
    let list = vec![
        connection("eth0", Some("eth0"), 1),
        connection("eth1", Some("eth1"), 2),
        connection("eth0", Some("eth5"), 3),
        connection("eth1", Some("eth1"), 4),
    ];
    match assemble(&list) {
        Err(StateError::ConnectionExists(id)) => assert_eq!(id, "eth0"),
        other => panic!("{:?}", other),
    }
}

#[test]
fn distinct_ids_are_assembled_in_order() {
    let list = vec![
        connection("eth1", Some("eth0"), 1),
        connection("eth0", Some("eth0"), 2),
        connection("br0", None, 3),
    ];
    let state = assemble(&list).unwrap();
    assert_eq!(ids(&state), vec!["eth1", "eth0", "br0"]);
    assert_eq!(state.connections[1].uuid, 2);
    assert_eq!(state.general_state, GeneralState {});
    assert!(assemble(&vec![]).unwrap().connections.is_empty());
}

#[test]
fn a_state_refuses_an_id_twice() {
    let mut state = NetworkState::new(GeneralState {});
    assert!(state.add_connection(connection("eth0", None, 1)).is_ok());
    assert!(state.add_connection(connection("eth1", None, 2)).is_ok());
    match state.add_connection(connection("eth0", Some("other"), 3)) {
        Err(StateError::ConnectionExists(id)) => assert_eq!(id, "eth0"),
        other => panic!("{:?}", other),
    }
    assert_eq!(ids(&state), vec!["eth0", "eth1"]);
    assert_eq!(state.get_connection("eth1").unwrap().uuid, 2);
    assert_eq!(state.get_connection("eth0").unwrap().uuid, 1);
    assert!(state.get_connection("eth2").is_none());
}

#[test]
fn the_canonical_loopback() {
    let lo = loopback_connection(5);
    assert_eq!(lo.id, "lo");
    assert_eq!(lo.uuid, 5);
    assert_eq!(lo.interface, Some("lo".to_string()));
    assert_eq!(lo.controller, None);
    assert_eq!(lo.config, ConnectionConfig::Loopback);
    assert_eq!(lo.ip_config.method4, IpMethod::Manual);
    assert_eq!(lo.ip_config.method6, IpMethod::Manual);
    assert_eq!(
        lo.ip_config.addresses,
        vec![
            IpInet { address: IpAddr::V4(0x7f00_0001), prefix: 8 },
            IpInet { address: IpAddr::V6(1), prefix: 128 },
        ]
    );
    assert!(lo.ip_config.nameservers.is_empty());
    assert!(lo.ip_config.dns_searchlist.is_empty());
    assert!(!lo.ip_config.ignore_auto_dns);
    assert_eq!(lo.ip_config.dns_priority4, None);
    assert_eq!(lo.firewall_zone, None);
    assert!(lo.match_config.interface.is_empty());
}

#[test]
fn a_fresh_loopback_is_canonical_but_for_its_uuid() {
    let a = create_lo_connection();
    let b = create_lo_connection();
    assert_ne!(a.uuid, b.uuid);
    assert_eq!(a.id, "lo");
    assert_eq!(a.ip_config.addresses, loopback_connection(0).ip_config.addresses);
    assert_eq!(a.config, ConnectionConfig::Loopback);
}

#[test]
fn a_copy_equals_the_original() {
    let mut c = connection("eth0", Some("eth0"), 9);
    c.controller = Some(4);
    c.firewall_zone = Some("public".to_string());
    c.ip_config.dns_searchlist = vec!["example.com".to_string()];
    c.ip_config.nameservers = vec![IpAddr::V4(1)];
    c.ip_config.addresses = vec![IpInet { address: IpAddr::V6(2), prefix: 64 }];
    c.ip_config.dns_priority6 = Some(-3);
    c.match_config.path = vec!["pci-0000".to_string()];
    let d = c.duplicate();
    assert_eq!(d.id, c.id);
    assert_eq!(d.uuid, c.uuid);
    assert_eq!(d.interface, c.interface);
    assert_eq!(d.controller, c.controller);
    assert_eq!(d.firewall_zone, c.firewall_zone);
    assert_eq!(d.ip_config.dns_searchlist, c.ip_config.dns_searchlist);
    assert_eq!(d.ip_config.nameservers, c.ip_config.nameservers);
    assert_eq!(d.ip_config.addresses, c.ip_config.addresses);
    assert_eq!(d.ip_config.dns_priority6, c.ip_config.dns_priority6);
    assert_eq!(d.match_config.path, c.match_config.path);
    assert_eq!(d.config, c.config);
}

#[test]
fn a_state_knows_whether_its_ids_are_unique() {
    let mut state = NetworkState::new(GeneralState {});
    assert!(state.has_unique_ids());
    state.connections.push(connection("eth0", None, 1));
    state.connections.push(connection("eth1", None, 2));
    assert!(state.has_unique_ids());
    state.connections.push(connection("eth0", None, 3));
    assert!(!state.has_unique_ids());
}
