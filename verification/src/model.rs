//! The normalized connection model that a migration produces.

use vstd::prelude::*;
use crate::text::{texts, opt_text, clone_texts, clone_opt_text};

verus! {

/// An IP address as a plain number: 32 bits for IPv4, 128 bits for IPv6.
#[derive(Clone, Copy, Debug, PartialEq, Eq, Structural)]
pub enum IpAddr {
    V4(u32),
    V6(u128),
}

/// An address together with the length of its network prefix.
#[derive(Clone, Copy, Debug, PartialEq, Eq, Structural)]
pub struct IpInet {
    pub address: IpAddr,
    pub prefix: u8,
}

impl IpInet {
    /// The prefix does not exceed the width of the address family.
    pub open spec fn wf(self) -> bool {
        match self.address {
            IpAddr::V4(_) => self.prefix <= 32,
            IpAddr::V6(_) => self.prefix <= 128,
        }
    }
}

/// Every address of the list has a prefix within the width of its family.
pub open spec fn all_wf(addresses: Seq<IpInet>) -> bool {
    forall|i: int| 0 <= i < addresses.len() ==> (#[trigger] addresses[i]).wf()
}

/// How a protocol family obtains its addresses.
#[derive(Clone, Copy, Debug, PartialEq, Eq, Structural)]
pub enum IpMethod {
    Unset,
    Manual,
    Auto,
    Disabled,
}

/// How a bond spreads traffic over its ports.
#[derive(Clone, Copy, Debug, PartialEq, Eq, Structural)]
pub enum BondMode {
    BalanceRr,
    ActiveBackup,
    BalanceXor,
    Broadcast,
    Ieee8023ad,
    BalanceTlb,
    BalanceAlb,
}

/// How a bond picks the port for a packet.
#[derive(Clone, Copy, Debug, PartialEq, Eq, Structural)]
pub enum XmitHashPolicy {
    Layer2,
    Layer23,
    Layer34,
    Encap23,
    Encap34,
    VlanSrcMac,
}

/// What a bond does with the MAC addresses of its ports on fail-over.
#[derive(Clone, Copy, Debug, PartialEq, Eq, Structural)]
pub enum FailOverMac {
    Off,
    Active,
    Follow,
}

/// How MII monitoring learns the state of a link.
#[derive(Clone, Copy, Debug, PartialEq, Eq, Structural)]
pub enum CarrierDetect {
    Ioctl,
    Netif,
}

/// Link monitoring of a bond by MII polling.
#[derive(Clone, Copy, Debug, PartialEq, Eq, Structural)]
pub struct Miimon {
    pub frequency: u32,
    pub carrier_detect: CarrierDetect,
    pub downdelay: Option<u32>,
    pub updelay: Option<u32>,
}

/// The parameters of a bond.
#[derive(Clone, Copy, Debug, PartialEq, Eq, Structural)]
pub struct BondConfig {
    pub mode: BondMode,
    pub xmit_hash_policy: Option<XmitHashPolicy>,
    pub fail_over_mac: Option<FailOverMac>,
    pub miimon: Option<Miimon>,
}

/// The parameters of a bridge.
#[derive(Clone, Copy, Debug, PartialEq, Eq, Structural)]
pub struct BridgeConfig {
    pub stp: bool,
    pub priority: Option<u32>,
    pub forward_delay: Option<u32>,
}

/// The kind of a connection with the parameters that only that kind has.
#[derive(Clone, Copy, Debug, PartialEq, Eq, Structural)]
pub enum ConnectionConfig {
    Ethernet,
    Bond(BondConfig),
    Bridge(BridgeConfig),
    Loopback,
}

/// Which devices a connection applies to. With every list empty the
/// connection is matched by its interface name alone.
#[derive(Debug)]
pub struct MatchConfig {
    pub driver: Vec<String>,
    pub interface: Vec<String>,
    pub path: Vec<String>,
    pub kernel: Vec<String>,
}

/// The mathematical view of a `MatchConfig`.
pub struct MatchConfigView {
    pub driver: Seq<Seq<char>>,
    pub interface: Seq<Seq<char>>,
    pub path: Seq<Seq<char>>,
    pub kernel: Seq<Seq<char>>,
}

impl View for MatchConfig {
    type V = MatchConfigView;

    open spec fn view(&self) -> MatchConfigView {
        MatchConfigView {
            driver: texts(self.driver@),
            interface: texts(self.interface@),
            path: texts(self.path@),
            kernel: texts(self.kernel@),
        }
    }
}

impl MatchConfigView {
    /// Matching by interface name: no explicit rule of any sort.
    pub open spec fn by_name() -> MatchConfigView {
        MatchConfigView { driver: seq![], interface: seq![], path: seq![], kernel: seq![] }
    }
}

impl MatchConfig {
    /// The default predicate: match by interface name.
    pub fn by_name() -> (r: MatchConfig)
        ensures
            r@ == MatchConfigView::by_name(),
    {
        let r = MatchConfig {
            driver: Vec::new(),
            interface: Vec::new(),
            path: Vec::new(),
            kernel: Vec::new(),
        };
        assert(r@.driver =~= seq![] && r@.interface =~= seq![] && r@.path =~= seq![]
            && r@.kernel =~= seq![]);
        r
    }

    /// A copy with the same view.
    pub fn duplicate(&self) -> (r: MatchConfig)
        ensures
            r@ == self@,
    {
        MatchConfig {
            driver: clone_texts(&self.driver),
            interface: clone_texts(&self.interface),
            path: clone_texts(&self.path),
            kernel: clone_texts(&self.kernel),
        }
    }
}

/// How a DHCP client behaves for one protocol family.
#[derive(Clone, Copy, Debug, PartialEq, Eq, Structural)]
pub struct DhcpSettings {
    pub send_hostname: Option<bool>,
    pub route_metric: Option<u32>,
}

impl DhcpSettings {
    /// Nothing overridden.
    pub open spec fn unset() -> DhcpSettings {
        DhcpSettings { send_hostname: None, route_metric: None }
    }
}

/// The IP side of a connection.
#[derive(Debug)]
pub struct IpConfig {
    pub method4: IpMethod,
    pub method6: IpMethod,
    pub dhcp4: DhcpSettings,
    pub dhcp6: DhcpSettings,
    pub addresses: Vec<IpInet>,
    pub nameservers: Vec<IpAddr>,
    pub dns_searchlist: Vec<String>,
    pub dns_priority4: Option<i32>,
    pub dns_priority6: Option<i32>,
    pub ignore_auto_dns: bool,
}

/// The mathematical view of an `IpConfig`.
pub struct IpConfigView {
    pub method4: IpMethod,
    pub method6: IpMethod,
    pub dhcp4: DhcpSettings,
    pub dhcp6: DhcpSettings,
    pub addresses: Seq<IpInet>,
    pub nameservers: Seq<IpAddr>,
    pub dns_searchlist: Seq<Seq<char>>,
    pub dns_priority4: Option<i32>,
    pub dns_priority6: Option<i32>,
    pub ignore_auto_dns: bool,
}

impl View for IpConfig {
    type V = IpConfigView;

    open spec fn view(&self) -> IpConfigView {
        IpConfigView {
            method4: self.method4,
            method6: self.method6,
            dhcp4: self.dhcp4,
            dhcp6: self.dhcp6,
            addresses: self.addresses@,
            nameservers: self.nameservers@,
            dns_searchlist: texts(self.dns_searchlist@),
            dns_priority4: self.dns_priority4,
            dns_priority6: self.dns_priority6,
            ignore_auto_dns: self.ignore_auto_dns,
        }
    }
}

impl IpConfigView {
    /// Nothing configured.
    pub open spec fn empty() -> IpConfigView {
        IpConfigView {
            method4: IpMethod::Unset,
            method6: IpMethod::Unset,
            dhcp4: DhcpSettings { send_hostname: None, route_metric: None },
            dhcp6: DhcpSettings { send_hostname: None, route_metric: None },
            addresses: seq![],
            nameservers: seq![],
            dns_searchlist: seq![],
            dns_priority4: None,
            dns_priority6: None,
            ignore_auto_dns: false,
        }
    }

    /// Whether a DNS priority is set for either protocol.
    pub open spec fn has_dns_priority(self) -> bool {
        self.dns_priority4.is_some() || self.dns_priority6.is_some()
    }
}

/// A copy of a list of addresses with prefixes.
pub fn clone_inets(v: &Vec<IpInet>) -> (r: Vec<IpInet>)
    ensures
        r@ == v@,
{
    let mut out: Vec<IpInet> = Vec::new();
    let mut i: usize = 0;
    while i < v.len()
        invariant
            i <= v.len(),
            out@ == v@.take(i as int),
        decreases v.len() - i,
    {
        out.push(v[i]);
        assert(v@.take(i as int + 1) =~= v@.take(i as int).push(v@[i as int]));
        i += 1;
    }
    assert(v@.take(v.len() as int) =~= v@);
    out
}

/// A copy of a list of addresses.
pub fn clone_addrs(v: &Vec<IpAddr>) -> (r: Vec<IpAddr>)
    ensures
        r@ == v@,
{
    let mut out: Vec<IpAddr> = Vec::new();
    let mut i: usize = 0;
    while i < v.len()
        invariant
            i <= v.len(),
            out@ == v@.take(i as int),
        decreases v.len() - i,
    {
        out.push(v[i]);
        assert(v@.take(i as int + 1) =~= v@.take(i as int).push(v@[i as int]));
        i += 1;
    }
    assert(v@.take(v.len() as int) =~= v@);
    out
}

impl IpConfig {
    /// An IP configuration with nothing set.
    pub fn empty() -> (r: IpConfig)
        ensures
            r@ == IpConfigView::empty(),
    {
        let r = IpConfig {
            method4: IpMethod::Unset,
            method6: IpMethod::Unset,
            dhcp4: DhcpSettings { send_hostname: None, route_metric: None },
            dhcp6: DhcpSettings { send_hostname: None, route_metric: None },
            addresses: Vec::new(),
            nameservers: Vec::new(),
            dns_searchlist: Vec::new(),
            dns_priority4: None,
            dns_priority6: None,
            ignore_auto_dns: false,
        };
        assert(r@.addresses =~= seq![] && r@.nameservers =~= seq![] && r@.dns_searchlist =~= seq![]);
        r
    }

    /// A copy with the same view.
    pub fn duplicate(&self) -> (r: IpConfig)
        ensures
            r@ == self@,
    {
        IpConfig {
            method4: self.method4,
            method6: self.method6,
            dhcp4: self.dhcp4,
            dhcp6: self.dhcp6,
            addresses: clone_inets(&self.addresses),
            nameservers: clone_addrs(&self.nameservers),
            dns_searchlist: clone_texts(&self.dns_searchlist),
            dns_priority4: self.dns_priority4,
            dns_priority6: self.dns_priority6,
            ignore_auto_dns: self.ignore_auto_dns,
        }
    }
}

/// One normalized connection.
#[derive(Debug)]
pub struct Connection {
    pub id: String,
    pub uuid: u128,
    pub interface: Option<String>,
    pub controller: Option<u128>,
    pub ip_config: IpConfig,
    pub match_config: MatchConfig,
    pub firewall_zone: Option<String>,
    pub config: ConnectionConfig,
}

/// The mathematical view of a `Connection`.
pub struct ConnectionView {
    pub id: Seq<char>,
    pub uuid: u128,
    pub interface: Option<Seq<char>>,
    pub controller: Option<u128>,
    pub ip_config: IpConfigView,
    pub match_config: MatchConfigView,
    pub firewall_zone: Option<Seq<char>>,
    pub config: ConnectionConfig,
}

impl View for Connection {
    type V = ConnectionView;

    open spec fn view(&self) -> ConnectionView {
        ConnectionView {
            id: self.id@,
            uuid: self.uuid,
            interface: opt_text(self.interface),
            controller: self.controller,
            ip_config: self.ip_config@,
            match_config: self.match_config@,
            firewall_zone: opt_text(self.firewall_zone),
            config: self.config,
        }
    }
}

impl ConnectionView {
    /// The same connection under the given controller.
    pub open spec fn with_controller(self, controller: Option<u128>) -> ConnectionView {
        ConnectionView { controller, ..self }
    }

    /// The same connection with automatically learned DNS servers ignored.
    pub open spec fn ignoring_auto_dns(self) -> ConnectionView {
        ConnectionView {
            ip_config: IpConfigView { ignore_auto_dns: true, ..self.ip_config },
            ..self
        }
    }
}

/// The views of a list of connections, in order.
pub open spec fn views(v: Seq<Connection>) -> Seq<ConnectionView> {
    Seq::new(v.len(), |i: int| v[i]@)
}

impl Connection {
    /// A copy with the same view.
    pub fn duplicate(&self) -> (r: Connection)
        ensures
            r@ == self@,
    {
        Connection {
            id: self.id.clone(),
            uuid: self.uuid,
            interface: clone_opt_text(&self.interface),
            controller: self.controller,
            ip_config: self.ip_config.duplicate(),
            match_config: self.match_config.duplicate(),
            firewall_zone: clone_opt_text(&self.firewall_zone),
            config: self.config,
        }
    }
}

} // verus!
