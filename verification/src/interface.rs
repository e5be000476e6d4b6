//! The raw interface model: one legacy interface descriptor as it was read.

use vstd::prelude::*;
use crate::text::{opt_text, texts};

verus! {

/// Link metadata of an interface.
#[derive(Debug)]
pub struct Link {
    /// The name of the interface that controls this one.
    pub master: Option<String>,
}

/// Firewall settings of an interface.
#[derive(Debug)]
pub struct Firewall {
    pub zone: Option<String>,
}

/// MII monitoring as the descriptor gives it.
#[derive(Debug)]
pub struct Miimon {
    pub frequency: u32,
    pub carrier_detect: String,
    pub downdelay: Option<u32>,
    pub updelay: Option<u32>,
}

/// The mathematical view of a `Miimon`.
pub struct MiimonView {
    pub frequency: u32,
    pub carrier_detect: Seq<char>,
    pub downdelay: Option<u32>,
    pub updelay: Option<u32>,
}

impl View for Miimon {
    type V = MiimonView;

    open spec fn view(&self) -> MiimonView {
        MiimonView {
            frequency: self.frequency,
            carrier_detect: self.carrier_detect@,
            downdelay: self.downdelay,
            updelay: self.updelay,
        }
    }
}

/// Bonding parameters as the descriptor gives them: the enumerated ones are
/// still text.
#[derive(Debug)]
pub struct Bond {
    pub mode: String,
    pub xmit_hash_policy: Option<String>,
    pub fail_over_mac: Option<String>,
    pub miimon: Option<Miimon>,
}

/// The mathematical view of a `Bond`.
pub struct BondView {
    pub mode: Seq<char>,
    pub xmit_hash_policy: Option<Seq<char>>,
    pub fail_over_mac: Option<Seq<char>>,
    pub miimon: Option<MiimonView>,
}

impl View for Bond {
    type V = BondView;

    open spec fn view(&self) -> BondView {
        BondView {
            mode: self.mode@,
            xmit_hash_policy: opt_text(self.xmit_hash_policy),
            fail_over_mac: opt_text(self.fail_over_mac),
            miimon: match self.miimon {
                Some(m) => Some(m@),
                None => None,
            },
        }
    }
}

/// Bridging parameters as the descriptor gives them.
#[derive(Clone, Copy, Debug, PartialEq, Eq, Structural)]
pub struct Bridge {
    /// Spanning tree, where the descriptor says anything about it.
    pub stp: Option<bool>,
    pub priority: Option<u32>,
    pub forward_delay: Option<u32>,
}

/// The configuration of one protocol family.
#[derive(Debug)]
pub struct IpFamily {
    pub enabled: bool,
    pub dhcp: bool,
    /// Static addresses in the notation `address/length`.
    pub addresses: Vec<String>,
}

/// The mathematical view of an `IpFamily`.
pub struct IpFamilyView {
    pub enabled: bool,
    pub dhcp: bool,
    pub addresses: Seq<Seq<char>>,
}

impl View for IpFamily {
    type V = IpFamilyView;

    open spec fn view(&self) -> IpFamilyView {
        IpFamilyView {
            enabled: self.enabled,
            dhcp: self.dhcp,
            addresses: texts(self.addresses@),
        }
    }
}

/// One legacy interface descriptor.
#[derive(Debug)]
pub struct Interface {
    pub name: String,
    pub link: Link,
    pub bond: Option<Bond>,
    pub bridge: Option<Bridge>,
    pub ipv4: IpFamily,
    pub ipv6: IpFamily,
    pub firewall: Firewall,
    /// The fields of the descriptor that the model has no place for, each by
    /// its path below the interface.
    pub unhandled_fields: Vec<String>,
}

/// The mathematical view of an `Interface`: link and firewall are flattened
/// into the master and the zone.
pub struct InterfaceView {
    pub name: Seq<char>,
    pub master: Option<Seq<char>>,
    pub bond: Option<BondView>,
    pub bridge: Option<Bridge>,
    pub ipv4: IpFamilyView,
    pub ipv6: IpFamilyView,
    pub zone: Option<Seq<char>>,
    pub unhandled_fields: Seq<Seq<char>>,
}

impl View for Interface {
    type V = InterfaceView;

    open spec fn view(&self) -> InterfaceView {
        InterfaceView {
            name: self.name@,
            master: opt_text(self.link.master),
            bond: match self.bond {
                Some(b) => Some(b@),
                None => None,
            },
            bridge: self.bridge,
            ipv4: self.ipv4@,
            ipv6: self.ipv6@,
            zone: opt_text(self.firewall.zone),
            unhandled_fields: texts(self.unhandled_fields@),
        }
    }
}

/// The views of a list of interfaces, in order.
pub open spec fn interface_views(v: Seq<Interface>) -> Seq<InterfaceView> {
    Seq::new(v.len(), |i: int| v[i]@)
}

impl Interface {
    /// A descriptor that holds a name and nothing else: both protocol
    /// families enabled and unconfigured.
    pub fn named(name: String) -> (r: Interface)
        ensures
            r@ == (InterfaceView {
                name: name@,
                master: None,
                bond: None,
                bridge: None,
                ipv4: IpFamilyView { enabled: true, dhcp: false, addresses: seq![] },
                ipv6: IpFamilyView { enabled: true, dhcp: false, addresses: seq![] },
                zone: None,
                unhandled_fields: seq![],
            }),
    {
        let r = Interface {
            name,
            link: Link { master: None },
            bond: None,
            bridge: None,
            ipv4: IpFamily { enabled: true, dhcp: false, addresses: Vec::new() },
            ipv6: IpFamily { enabled: true, dhcp: false, addresses: Vec::new() },
            firewall: Firewall { zone: None },
            unhandled_fields: Vec::new(),
        };
        assert(r@.ipv4.addresses =~= seq![] && r@.ipv6.addresses =~= seq![]
            && r@.unhandled_fields =~= seq![]);
        r
    }
}

} // verus!
