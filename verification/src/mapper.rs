//! The mapping of one raw interface to normalized connections.

use vstd::prelude::*;
use crate::addr::{inet_from_str, inet_of_text};
use crate::fields::{is_ignored, is_ignored_field};
use crate::ident::fresh_uuid;
use crate::interface::{Bond, BondView, Bridge, Interface, InterfaceView, IpFamily, IpFamilyView};
use crate::model::{BondConfig, BondMode, BridgeConfig, CarrierDetect, Connection,
    ConnectionConfig, ConnectionView, DhcpSettings, FailOverMac, IpAddr, IpConfig, all_wf,
    IpConfigView, IpInet, IpMethod, MatchConfig, MatchConfigView, Miimon, XmitHashPolicy};
use crate::policy::NetconfigDhcp;
use crate::search::{first_index, lemma_first_index_absent, lemma_first_index_found};
use crate::text::{clone_opt_text, text_eq, texts};

verus! {

/// The bonding mode that a text names.
pub open spec fn bond_mode_of(text: Seq<char>) -> Option<BondMode> {
    if text == "balance-rr"@ {
        Some(BondMode::BalanceRr)
    } else if text == "active-backup"@ {
        Some(BondMode::ActiveBackup)
    } else if text == "balance-xor"@ {
        Some(BondMode::BalanceXor)
    } else if text == "broadcast"@ {
        Some(BondMode::Broadcast)
    } else if text == "802.3ad"@ {
        Some(BondMode::Ieee8023ad)
    } else if text == "balance-tlb"@ {
        Some(BondMode::BalanceTlb)
    } else if text == "balance-alb"@ {
        Some(BondMode::BalanceAlb)
    } else {
        None
    }
}

/// The transmit hash policy that a text names. The layered policies may be
/// written with or without the `+` between the two layers.
pub open spec fn hash_policy_of(text: Seq<char>) -> Option<XmitHashPolicy> {
    if text == "layer2"@ {
        Some(XmitHashPolicy::Layer2)
    } else if text == "layer2+3"@ || text == "layer23"@ {
        Some(XmitHashPolicy::Layer23)
    } else if text == "layer3+4"@ || text == "layer34"@ {
        Some(XmitHashPolicy::Layer34)
    } else if text == "encap2+3"@ || text == "encap23"@ {
        Some(XmitHashPolicy::Encap23)
    } else if text == "encap3+4"@ || text == "encap34"@ {
        Some(XmitHashPolicy::Encap34)
    } else if text == "vlan+srcmac"@ {
        Some(XmitHashPolicy::VlanSrcMac)
    } else {
        None
    }
}

/// The fail-over MAC policy that a text names.
pub open spec fn fail_over_mac_of(text: Seq<char>) -> Option<FailOverMac> {
    if text == "none"@ {
        Some(FailOverMac::Off)
    } else if text == "active"@ {
        Some(FailOverMac::Active)
    } else if text == "follow"@ {
        Some(FailOverMac::Follow)
    } else {
        None
    }
}

/// The way of carrier detection that a text names.
pub open spec fn carrier_detect_of(text: Seq<char>) -> Option<CarrierDetect> {
    if text == "ioctl"@ {
        Some(CarrierDetect::Ioctl)
    } else if text == "netif"@ {
        Some(CarrierDetect::Netif)
    } else {
        None
    }
}

/// Reads a bonding mode from its name.
pub fn parse_bond_mode(text: &str) -> (r: Option<BondMode>)
    ensures
        r == bond_mode_of(text@),
{
    if text_eq(text, "balance-rr") {
        Some(BondMode::BalanceRr)
    } else if text_eq(text, "active-backup") {
        Some(BondMode::ActiveBackup)
    } else if text_eq(text, "balance-xor") {
        Some(BondMode::BalanceXor)
    } else if text_eq(text, "broadcast") {
        Some(BondMode::Broadcast)
    } else if text_eq(text, "802.3ad") {
        Some(BondMode::Ieee8023ad)
    } else if text_eq(text, "balance-tlb") {
        Some(BondMode::BalanceTlb)
    } else if text_eq(text, "balance-alb") {
        Some(BondMode::BalanceAlb)
    } else {
        None
    }
}

/// Reads a transmit hash policy from its name.
pub fn parse_hash_policy(text: &str) -> (r: Option<XmitHashPolicy>)
    ensures
        r == hash_policy_of(text@),
{
    if text_eq(text, "layer2") {
        Some(XmitHashPolicy::Layer2)
    } else if text_eq(text, "layer2+3") || text_eq(text, "layer23") {
        Some(XmitHashPolicy::Layer23)
    } else if text_eq(text, "layer3+4") || text_eq(text, "layer34") {
        Some(XmitHashPolicy::Layer34)
    } else if text_eq(text, "encap2+3") || text_eq(text, "encap23") {
        Some(XmitHashPolicy::Encap23)
    } else if text_eq(text, "encap3+4") || text_eq(text, "encap34") {
        Some(XmitHashPolicy::Encap34)
    } else if text_eq(text, "vlan+srcmac") {
        Some(XmitHashPolicy::VlanSrcMac)
    } else {
        None
    }
}

/// Reads a fail-over MAC policy from its name.
pub fn parse_fail_over_mac(text: &str) -> (r: Option<FailOverMac>)
    ensures
        r == fail_over_mac_of(text@),
{
    if text_eq(text, "none") {
        Some(FailOverMac::Off)
    } else if text_eq(text, "active") {
        Some(FailOverMac::Active)
    } else if text_eq(text, "follow") {
        Some(FailOverMac::Follow)
    } else {
        None
    }
}

/// Reads a way of carrier detection from its name.
pub fn parse_carrier_detect(text: &str) -> (r: Option<CarrierDetect>)
    ensures
        r == carrier_detect_of(text@),
{
    if text_eq(text, "ioctl") {
        Some(CarrierDetect::Ioctl)
    } else if text_eq(text, "netif") {
        Some(CarrierDetect::Netif)
    } else {
        None
    }
}

/// The part of a descriptor that a mapping failure is about.
#[derive(Clone, Copy, Debug, PartialEq, Eq, Structural)]
pub enum MapField {
    /// Bonding and bridging parameters in one descriptor.
    Kind,
    BondMode,
    XmitHashPolicy,
    FailOverMac,
    CarrierDetect,
    /// A disabled IPv4 family that is configured all the same.
    Ipv4Method,
    Ipv4Address,
    /// A disabled IPv6 family that is configured all the same.
    Ipv6Method,
    Ipv6Address,
}

/// Why an interface could not be mapped: the interface, the field and the
/// value that is wrong (empty where the fault is no single value).
#[derive(Debug)]
pub struct MapError {
    pub interface: String,
    pub field: MapField,
    pub value: String,
}

/// The mathematical view of a `MapError`.
pub struct MapErrorView {
    pub interface: Seq<char>,
    pub field: MapField,
    pub value: Seq<char>,
}

impl View for MapError {
    type V = MapErrorView;

    open spec fn view(&self) -> MapErrorView {
        MapErrorView { interface: self.interface@, field: self.field, value: self.value@ }
    }
}

/// The bond configuration that the parameters denote, or the first field
/// with a value outside its enumeration, beside that value.
pub open spec fn bond_config_of(b: BondView) -> Result<BondConfig, (MapField, Seq<char>)> {
    if bond_mode_of(b.mode).is_none() {
        Err((MapField::BondMode, b.mode))
    } else if b.xmit_hash_policy.is_some() && hash_policy_of(b.xmit_hash_policy.unwrap()).is_none() {
        Err((MapField::XmitHashPolicy, b.xmit_hash_policy.unwrap()))
    } else if b.fail_over_mac.is_some() && fail_over_mac_of(b.fail_over_mac.unwrap()).is_none() {
        Err((MapField::FailOverMac, b.fail_over_mac.unwrap()))
    } else if b.miimon.is_some() && carrier_detect_of(b.miimon.unwrap().carrier_detect).is_none() {
        Err((MapField::CarrierDetect, b.miimon.unwrap().carrier_detect))
    } else {
        Ok(
            BondConfig {
                mode: bond_mode_of(b.mode).unwrap(),
                xmit_hash_policy: match b.xmit_hash_policy {
                    Some(t) => hash_policy_of(t),
                    None => None,
                },
                fail_over_mac: match b.fail_over_mac {
                    Some(t) => fail_over_mac_of(t),
                    None => None,
                },
                miimon: match b.miimon {
                    Some(m) => Some(
                        Miimon {
                            frequency: m.frequency,
                            carrier_detect: carrier_detect_of(m.carrier_detect).unwrap(),
                            downdelay: m.downdelay,
                            updelay: m.updelay,
                        },
                    ),
                    None => None,
                },
            },
        )
    }
}

/// The bridge configuration that the parameters denote. Spanning tree is off
/// unless the descriptor switches it on.
pub open spec fn bridge_config_of(b: Bridge) -> BridgeConfig {
    BridgeConfig {
        stp: match b.stp {
            Some(on) => on,
            None => false,
        },
        priority: b.priority,
        forward_delay: b.forward_delay,
    }
}

/// The method of a protocol family, or nothing where the descriptor
/// contradicts itself: the family is disabled and yet configured.
pub open spec fn method_of(family: IpFamilyView) -> Option<IpMethod> {
    if !family.enabled {
        if family.dhcp || family.addresses.len() > 0 {
            None
        } else {
            Some(IpMethod::Disabled)
        }
    } else if family.dhcp {
        Some(IpMethod::Auto)
    } else if family.addresses.len() > 0 {
        Some(IpMethod::Manual)
    } else {
        Some(IpMethod::Unset)
    }
}

/// Whether an address belongs to the IPv6 family.
pub open spec fn is_v6(inet: IpInet) -> bool {
    inet.address is V6
}

/// Whether a text denotes an address of the wanted family.
pub open spec fn address_ok(text: Seq<char>, v6: bool) -> bool {
    inet_of_text(text).is_some() && is_v6(inet_of_text(text).unwrap()) == v6
}

/// For each text, whether it denotes an address of the wanted family.
pub open spec fn addresses_ok(list: Seq<Seq<char>>, v6: bool) -> Seq<bool> {
    Seq::new(list.len(), |i: int| address_ok(list[i], v6))
}

/// The first text that denotes no address of the wanted family.
pub open spec fn bad_address(list: Seq<Seq<char>>, v6: bool) -> Option<int> {
    first_index(addresses_ok(list, v6), false)
}

/// The addresses that the texts denote, in order.
pub open spec fn addresses_of(list: Seq<Seq<char>>) -> Seq<IpInet> {
    Seq::new(list.len(), |i: int| inet_of_text(list[i]).unwrap())
}

/// The kind of connection that a descriptor asks for, or the field and value
/// that are wrong.
pub open spec fn config_of(raw: InterfaceView) -> Result<ConnectionConfig, (MapField, Seq<char>)> {
    if raw.bond.is_some() && raw.bridge.is_some() {
        Err((MapField::Kind, Seq::<char>::empty()))
    } else if raw.bond.is_some() {
        match bond_config_of(raw.bond.unwrap()) {
            Ok(config) => Ok(ConnectionConfig::Bond(config)),
            Err(e) => Err(e),
        }
    } else if raw.bridge.is_some() {
        Ok(ConnectionConfig::Bridge(bridge_config_of(raw.bridge.unwrap())))
    } else {
        Ok(ConnectionConfig::Ethernet)
    }
}

/// What is wrong with the IP configuration of a descriptor, if anything:
/// IPv4 is looked at before IPv6, the method before the addresses.
pub open spec fn ip_failure(raw: InterfaceView) -> Option<(MapField, Seq<char>)> {
    if method_of(raw.ipv4).is_none() {
        Some((MapField::Ipv4Method, Seq::<char>::empty()))
    } else if bad_address(raw.ipv4.addresses, false).is_some() {
        Some((MapField::Ipv4Address, raw.ipv4.addresses[bad_address(raw.ipv4.addresses, false).unwrap()]))
    } else if method_of(raw.ipv6).is_none() {
        Some((MapField::Ipv6Method, Seq::<char>::empty()))
    } else if bad_address(raw.ipv6.addresses, true).is_some() {
        Some((MapField::Ipv6Address, raw.ipv6.addresses[bad_address(raw.ipv6.addresses, true).unwrap()]))
    } else {
        None
    }
}

/// Why a descriptor cannot be mapped, if it cannot: the kind is looked at
/// before the IP configuration.
pub open spec fn map_failure(raw: InterfaceView) -> Option<MapErrorView> {
    match config_of(raw) {
        Err((field, value)) => Some(MapErrorView { interface: raw.name, field, value }),
        Ok(_) => match ip_failure(raw) {
            Some((field, value)) => Some(MapErrorView { interface: raw.name, field, value }),
            None => None,
        },
    }
}

/// The DHCP settings of a family: those of the policy where the family is
/// configured automatically and a policy was supplied.
pub open spec fn dhcp_of(method: IpMethod, policy: Option<DhcpSettings>) -> DhcpSettings {
    if method == IpMethod::Auto && policy.is_some() {
        policy.unwrap()
    } else {
        DhcpSettings::unset()
    }
}

/// The IP configuration of the connection of a descriptor without failure.
pub open spec fn ip_config_of(raw: InterfaceView, policy: Option<NetconfigDhcp>) -> IpConfigView {
    let method4 = method_of(raw.ipv4).unwrap();
    let method6 = method_of(raw.ipv6).unwrap();
    IpConfigView {
        method4,
        method6,
        dhcp4: dhcp_of(
            method4,
            match policy {
                Some(p) => Some(p.dhcp4),
                None => None,
            },
        ),
        dhcp6: dhcp_of(
            method6,
            match policy {
                Some(p) => Some(p.dhcp6),
                None => None,
            },
        ),
        addresses: addresses_of(raw.ipv4.addresses) + addresses_of(raw.ipv6.addresses),
        ..IpConfigView::empty()
    }
}

/// The connection of a descriptor without failure: id and interface are the
/// name of the descriptor, the controller is not yet known.
pub open spec fn mapped_connection(
    raw: InterfaceView,
    policy: Option<NetconfigDhcp>,
    uuid: u128,
) -> ConnectionView {
    ConnectionView {
        id: raw.name,
        uuid,
        interface: Some(raw.name),
        controller: None,
        ip_config: ip_config_of(raw, policy),
        match_config: MatchConfigView::by_name(),
        firewall_zone: raw.zone,
        config: config_of(raw)->Ok_0,
    }
}

/// The warning about a field that has no place in the model.
pub open spec fn unhandled_message(name: Seq<char>, field: Seq<char>) -> Seq<char> {
    "Unhandled field in interface "@ + name + ": "@ + field
}

/// The warnings of a descriptor: one for each field without a place in the
/// model that is not ignored on purpose, in the order of the fields.
pub open spec fn warnings_of(name: Seq<char>, fields: Seq<Seq<char>>) -> Seq<Seq<char>>
    decreases fields.len(),
{
    if fields.len() == 0 {
        seq![]
    } else {
        let rest = warnings_of(name, fields.drop_last());
        if is_ignored(fields.last()) {
            rest
        } else {
            rest.push(unhandled_message(name, fields.last()))
        }
    }
}

/// What a mapping returns: the connections and the warnings.
#[derive(Debug)]
pub struct ConnectionResult {
    pub connections: Vec<Connection>,
    pub warnings: Vec<String>,
}

/// The bond configuration of a descriptor.
pub fn bond_config(b: &Bond) -> (r: Result<BondConfig, (MapField, String)>)
    ensures
        match r {
            Ok(config) => bond_config_of(b@) == Ok::<BondConfig, (MapField, Seq<char>)>(config),
            Err(e) => bond_config_of(b@) == Err::<BondConfig, (MapField, Seq<char>)>((e.0, e.1@)),
        },
{
    let mode = match parse_bond_mode(b.mode.as_str()) {
        Some(mode) => mode,
        None => {
            return Err((MapField::BondMode, b.mode.clone()));
        },
    };
    let xmit_hash_policy = match &b.xmit_hash_policy {
        Some(text) => match parse_hash_policy(text.as_str()) {
            Some(policy) => Some(policy),
            None => {
                return Err((MapField::XmitHashPolicy, text.clone()));
            },
        },
        None => None,
    };
    let fail_over_mac = match &b.fail_over_mac {
        Some(text) => match parse_fail_over_mac(text.as_str()) {
            Some(policy) => Some(policy),
            None => {
                return Err((MapField::FailOverMac, text.clone()));
            },
        },
        None => None,
    };
    let miimon = match &b.miimon {
        Some(m) => match parse_carrier_detect(m.carrier_detect.as_str()) {
            Some(carrier_detect) => Some(
                Miimon {
                    frequency: m.frequency,
                    carrier_detect,
                    downdelay: m.downdelay,
                    updelay: m.updelay,
                },
            ),
            None => {
                return Err((MapField::CarrierDetect, m.carrier_detect.clone()));
            },
        },
        None => None,
    };
    Ok(BondConfig { mode, xmit_hash_policy, fail_over_mac, miimon })
}

/// The bridge configuration of a descriptor.
pub fn bridge_config(b: Bridge) -> (r: BridgeConfig)
    ensures
        r == bridge_config_of(b),
{
    BridgeConfig {
        stp: match b.stp {
            Some(on) => on,
            None => false,
        },
        priority: b.priority,
        forward_delay: b.forward_delay,
    }
}

/// The method of a protocol family.
pub fn method(family: &IpFamily) -> (r: Option<IpMethod>)
    ensures
        r == method_of(family@),
{
    if !family.enabled {
        if family.dhcp || family.addresses.len() > 0 {
            None
        } else {
            Some(IpMethod::Disabled)
        }
    } else if family.dhcp {
        Some(IpMethod::Auto)
    } else if family.addresses.len() > 0 {
        Some(IpMethod::Manual)
    } else {
        Some(IpMethod::Unset)
    }
}

/// Reads the static addresses of one family into `out`. Fails with the first
/// text that denotes no address of that family; `out` then holds what was
/// read before it.
pub fn read_addresses(list: &Vec<String>, v6: bool, out: &mut Vec<IpInet>) -> (r: Result<
    (),
    String,
>)
    ensures
        all_wf(old(out)@) ==> all_wf(final(out)@),
        match r {
            Ok(()) => bad_address(texts(list@), v6).is_none() && final(out)@ == old(out)@
                + addresses_of(texts(list@)),
            Err(text) => bad_address(texts(list@), v6).is_some() && text@ == texts(
                list@,
            )[bad_address(texts(list@), v6).unwrap()] && final(out)@ == old(out)@
                + addresses_of(texts(list@)).take(bad_address(texts(list@), v6).unwrap()),
        },
{
    let ghost all = texts(list@);
    let ghost flags = addresses_ok(all, v6);
    let mut i: usize = 0;
    while i < list.len()
        invariant
            i <= list.len(),
            all == texts(list@),
            flags == addresses_ok(all, v6),
            forall|j: int| 0 <= j < i ==> flags[j] != false,
            out@ == old(out)@ + addresses_of(all).take(i as int),
            all_wf(old(out)@) ==> all_wf(out@),
        decreases list.len() - i,
    {
        assert(all[i as int] == list[i as int]@);
        let ghost prior = out@;
        match inet_from_str(list[i].as_str()) {
            Some(inet) => {
                let family_v6 = match inet.address {
                    IpAddr::V4(_) => false,
                    IpAddr::V6(_) => true,
                };
                if family_v6 != v6 {
                    proof {
                        assert(flags[i as int] == false);
                        lemma_first_index_found(flags, false, i as int);
                    }
                    return Err(list[i].clone());
                }
                out.push(inet);
                proof {
                    assert(flags[i as int] == true);
                    assert(addresses_of(all).take(i as int + 1) =~= addresses_of(all).take(
                        i as int,
                    ).push(inet));
                    assert(out@ =~= old(out)@ + addresses_of(all).take(i as int + 1));
                }
            },
            None => {
                proof {
                    assert(flags[i as int] == false);
                    lemma_first_index_found(flags, false, i as int);
                }
                return Err(list[i].clone());
            },
        }
        i += 1;
    }
    proof {
        lemma_first_index_absent(flags, false);
        assert(addresses_of(all).take(i as int) =~= addresses_of(all));
    }
    Ok(())
}

/// The warning about one field.
pub fn unhandled_field_message(name: &str, field: &str) -> (r: String)
    ensures
        r@ == unhandled_message(name@, field@),
{
    let mut message = "Unhandled field in interface ".to_owned();
    message.append(name);
    message.append(": ");
    message.append(field);
    message
}

/// The warnings about the fields of a descriptor.
pub fn field_warnings(name: &str, fields: &Vec<String>) -> (r: Vec<String>)
    ensures
        texts(r@) == warnings_of(name@, texts(fields@)),
{
    let ghost all = texts(fields@);
    let mut out: Vec<String> = Vec::new();
    let mut i: usize = 0;
    assert(texts(out@) =~= warnings_of(name@, all.take(0)));
    while i < fields.len()
        invariant
            i <= fields.len(),
            all == texts(fields@),
            texts(out@) == warnings_of(name@, all.take(i as int)),
        decreases fields.len() - i,
    {
        let ghost prior = texts(out@);
        proof {
            assert(all.take(i as int + 1).drop_last() =~= all.take(i as int));
            assert(all.take(i as int + 1).last() == fields[i as int]@);
        }
        if !is_ignored_field(fields[i].as_str()) {
            let message = unhandled_field_message(name, fields[i].as_str());
            out.push(message);
            assert(texts(out@) =~= prior.push(message@));
        }
        i += 1;
    }
    assert(all.take(i as int) =~= all);
    out
}

/// Whether a mapping that returned `r` for the descriptor `raw` under the
/// uuid `uuid` did what the model says: on success one connection, the one
/// that `mapped_connection` describes, every address of it with a prefix
/// within the width of its family, beside the warnings of the
/// descriptor; on failure the error that `map_failure` describes.
pub open spec fn mapping_is(
    raw: InterfaceView,
    policy: Option<NetconfigDhcp>,
    uuid: u128,
    r: Result<ConnectionResult, MapError>,
) -> bool {
    match r {
        Ok(result) => {
            &&& map_failure(raw).is_none()
            &&& result.connections@.len() == 1
            &&& result.connections@[0]@ == mapped_connection(raw, policy, uuid)
            &&& all_wf(result.connections@[0]@.ip_config.addresses)
            &&& texts(result.warnings@) == warnings_of(raw.name, raw.unhandled_fields)
        },
        Err(e) => map_failure(raw) == Some(e@),
    }
}

/// Maps one descriptor to its connection under the given uuid.
pub fn map_interface(raw: &Interface, policy: &Option<NetconfigDhcp>, uuid: u128) -> (r: Result<
    ConnectionResult,
    MapError,
>)
    ensures
        mapping_is(raw@, *policy, uuid, r),
{
    let config = if raw.bond.is_some() && raw.bridge.is_some() {
        return Err(
            MapError { interface: raw.name.clone(), field: MapField::Kind, value: String::new() },
        );
    } else {
        match &raw.bond {
            Some(b) => match bond_config(b) {
                Ok(config) => ConnectionConfig::Bond(config),
                Err(e) => {
                    return Err(MapError { interface: raw.name.clone(), field: e.0, value: e.1 });
                },
            },
            None => match raw.bridge {
                Some(b) => ConnectionConfig::Bridge(bridge_config(b)),
                None => ConnectionConfig::Ethernet,
            },
        }
    };
    assert(config_of(raw@) == Ok::<ConnectionConfig, (MapField, Seq<char>)>(config));
    let mut ip_config = IpConfig::empty();
    match method(&raw.ipv4) {
        Some(m) => {
            ip_config.method4 = m;
        },
        None => {
            return Err(
                MapError {
                    interface: raw.name.clone(),
                    field: MapField::Ipv4Method,
                    value: String::new(),
                },
            );
        },
    }
    match read_addresses(&raw.ipv4.addresses, false, &mut ip_config.addresses) {
        Ok(()) => {},
        Err(text) => {
            return Err(
                MapError { interface: raw.name.clone(), field: MapField::Ipv4Address, value: text },
            );
        },
    }
    match method(&raw.ipv6) {
        Some(m) => {
            ip_config.method6 = m;
        },
        None => {
            return Err(
                MapError {
                    interface: raw.name.clone(),
                    field: MapField::Ipv6Method,
                    value: String::new(),
                },
            );
        },
    }
    match read_addresses(&raw.ipv6.addresses, true, &mut ip_config.addresses) {
        Ok(()) => {},
        Err(text) => {
            return Err(
                MapError { interface: raw.name.clone(), field: MapField::Ipv6Address, value: text },
            );
        },
    }
    match policy {
        Some(p) => {
            if ip_config.method4 == IpMethod::Auto {
                ip_config.dhcp4 = p.dhcp4;
            }
            if ip_config.method6 == IpMethod::Auto {
                ip_config.dhcp6 = p.dhcp6;
            }
        },
        None => {},
    }
    proof {
        assert(ip_config@.addresses =~= addresses_of(raw@.ipv4.addresses) + addresses_of(
            raw@.ipv6.addresses,
        ));
        assert(ip_config@ == ip_config_of(raw@, *policy));
    }
    let connection = Connection {
        id: raw.name.clone(),
        uuid,
        interface: Some(raw.name.clone()),
        controller: None,
        ip_config,
        match_config: MatchConfig::by_name(),
        firewall_zone: clone_opt_text(&raw.firewall.zone),
        config,
    };
    let warnings = field_warnings(raw.name.as_str(), &raw.unhandled_fields);
    let mut connections: Vec<Connection> = Vec::new();
    connections.push(connection);
    Ok(ConnectionResult { connections, warnings })
}

impl Interface {
    /// Maps the descriptor to its connection, under a fresh uuid.
    pub fn to_connection(&self, netconfig_dhcp: &Option<NetconfigDhcp>) -> (r: Result<
        ConnectionResult,
        MapError,
    >)
        ensures
            match r {
                Ok(result) => result.connections.len() == 1 && mapping_is(
                    self@,
                    *netconfig_dhcp,
                    result.connections[0].uuid,
                    r,
                ),
                Err(e) => map_failure(self@) == Some(e@),
            },
    {
        let uuid = fresh_uuid();
        map_interface(self, netconfig_dhcp, uuid)
    }
}

/// Spanning tree is off by default: a bridge descriptor that says nothing
/// about it maps, where it maps at all, to a bridge with spanning tree off.
pub proof fn law_bridge_stp_defaults_off(
    raw: InterfaceView,
    policy: Option<NetconfigDhcp>,
    uuid: u128,
)
    requires
        raw.bridge.is_some(),
        raw.bridge.unwrap().stp.is_none(),
        map_failure(raw).is_none(),
    ensures
        mapped_connection(raw, policy, uuid).config matches ConnectionConfig::Bridge(b) && !b.stp,
{
}

/// The words for a field in the text of an error.
pub open spec fn field_words(field: MapField) -> Seq<char> {
    match field {
        MapField::Kind => "combination of bond and bridge"@,
        MapField::BondMode => "bond mode"@,
        MapField::XmitHashPolicy => "bond xmit-hash-policy"@,
        MapField::FailOverMac => "bond fail-over-mac"@,
        MapField::CarrierDetect => "bond miimon carrier-detect"@,
        MapField::Ipv4Method => "ipv4 method"@,
        MapField::Ipv4Address => "ipv4 address"@,
        MapField::Ipv6Method => "ipv6 method"@,
        MapField::Ipv6Address => "ipv6 address"@,
    }
}

impl MapErrorView {
    /// The text of the error: it names the interface and the field, and the
    /// value where there is one.
    pub open spec fn message(self) -> Seq<char> {
        let head = "Interface "@ + self.interface + ": invalid "@ + field_words(self.field);
        if self.value.len() == 0 {
            head
        } else {
            head + " '"@ + self.value + "'"@
        }
    }
}

/// The words for a field in the text of an error.
pub fn field_name(field: MapField) -> (r: &'static str)
    ensures
        r@ == field_words(field),
{
    match field {
        MapField::Kind => "combination of bond and bridge",
        MapField::BondMode => "bond mode",
        MapField::XmitHashPolicy => "bond xmit-hash-policy",
        MapField::FailOverMac => "bond fail-over-mac",
        MapField::CarrierDetect => "bond miimon carrier-detect",
        MapField::Ipv4Method => "ipv4 method",
        MapField::Ipv4Address => "ipv4 address",
        MapField::Ipv6Method => "ipv6 method",
        MapField::Ipv6Address => "ipv6 address",
    }
}

impl MapError {
    /// The text of the error.
    pub fn message(&self) -> (r: String)
        ensures
            r@ == self@.message(),
    {
        let mut text = "Interface ".to_owned();
        text.append(self.interface.as_str());
        text.append(": invalid ");
        text.append(field_name(self.field));
        if self.value.as_str().unicode_len() > 0 {
            text.append(" '");
            text.append(self.value.as_str());
            text.append("'");
        }
        text
    }
}

} // verus!
