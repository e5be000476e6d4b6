//! The settings of a run and the two legacy policy documents.

use vstd::prelude::*;
use crate::model::DhcpSettings;
use crate::text::texts;

verus! {

/// The configuration of one run. Every stage takes it as a parameter.
#[derive(Debug)]
pub struct MigrationSettings {
    /// Pass over warnings in place of failing on them.
    pub continue_migration: bool,
    /// Assemble the state and stop before anything is written.
    pub dry_run: bool,
    /// Read the two policy documents.
    pub with_netconfig: bool,
    pub netconfig_path: String,
    pub netconfig_dhcp_path: String,
}

/// Which connections a DNS rule claims.
#[derive(Debug)]
pub enum RuleTarget {
    /// Every connection that is bound to an interface.
    AnyInterface,
    /// The connections bound to the interface of this name.
    Interface(String),
}

/// The mathematical view of a `RuleTarget`.
pub enum RuleTargetView {
    AnyInterface,
    Interface(Seq<char>),
}

impl View for RuleTarget {
    type V = RuleTargetView;

    open spec fn view(&self) -> RuleTargetView {
        match self {
            RuleTarget::AnyInterface => RuleTargetView::AnyInterface,
            RuleTarget::Interface(name) => RuleTargetView::Interface(name@),
        }
    }
}

/// One match rule of the static DNS policy: the connections it claims and
/// the DNS priority it gives them for each protocol.
#[derive(Debug)]
pub struct DnsRule {
    pub target: RuleTarget,
    pub priority4: Option<i32>,
    pub priority6: Option<i32>,
}

/// The mathematical view of a `DnsRule`.
pub struct DnsRuleView {
    pub target: RuleTargetView,
    pub priority4: Option<i32>,
    pub priority6: Option<i32>,
}

impl View for DnsRule {
    type V = DnsRuleView;

    open spec fn view(&self) -> DnsRuleView {
        DnsRuleView {
            target: self.target@,
            priority4: self.priority4,
            priority6: self.priority6,
        }
    }
}

/// The views of a list of rules, in order.
pub open spec fn rule_views(rules: Seq<DnsRule>) -> Seq<DnsRuleView> {
    Seq::new(rules.len(), |i: int| rules[i]@)
}

/// The static DNS policy.
#[derive(Debug)]
pub struct Netconfig {
    /// The nameserver entries as the document gives them.
    pub static_dns_servers: Vec<String>,
    pub static_dns_searchlist: Option<Vec<String>>,
    pub dns_policy: Vec<DnsRule>,
    /// What the reader of the document found wrong with it.
    pub warnings: Vec<String>,
}

/// The mathematical view of a `Netconfig`.
pub struct NetconfigView {
    pub static_dns_servers: Seq<Seq<char>>,
    pub static_dns_searchlist: Option<Seq<Seq<char>>>,
    pub dns_policy: Seq<DnsRuleView>,
    pub warnings: Seq<Seq<char>>,
}

impl View for Netconfig {
    type V = NetconfigView;

    open spec fn view(&self) -> NetconfigView {
        NetconfigView {
            static_dns_servers: texts(self.static_dns_servers@),
            static_dns_searchlist: match self.static_dns_searchlist {
                Some(list) => Some(texts(list@)),
                None => None,
            },
            dns_policy: rule_views(self.dns_policy@),
            warnings: texts(self.warnings@),
        }
    }
}

/// The DHCP policy: what a DHCP client does, for each protocol family.
#[derive(Clone, Copy, Debug, PartialEq, Eq, Structural)]
pub struct NetconfigDhcp {
    pub dhcp4: DhcpSettings,
    pub dhcp6: DhcpSettings,
}

} // verus!
