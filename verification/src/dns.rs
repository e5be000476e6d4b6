//! The merge of the static DNS policy into an assembled state.

use vstd::prelude::*;
use crate::addr::{nameserver_of_text, parse_nameserver};
use crate::loopback::{canonical_loopback, create_lo_connection};
use crate::model::{Connection, ConnectionView, IpAddr, IpConfigView};
use crate::policy::{DnsRule, DnsRuleView, Netconfig, NetconfigView, RuleTarget, RuleTargetView,
    rule_views};
use crate::resolve::{first_with_id, ids};
use crate::search::{first_index, lemma_first_index, lemma_first_index_absent,
    lemma_first_index_found};
use crate::state::{NetworkState, StateError, distinct_ids};
use crate::text::{clone_texts, opt_text, opt_text_is, text_eq};

verus! {

/// Whether a rule claims a connection.
pub open spec fn claims(rule: DnsRuleView, c: ConnectionView) -> bool {
    match rule.target {
        RuleTargetView::AnyInterface => c.interface.is_some(),
        RuleTargetView::Interface(name) => c.interface == Some(name),
    }
}

/// For each rule, whether it claims `c` and gives an IPv4 priority.
pub open spec fn gives4(rules: Seq<DnsRuleView>, c: ConnectionView) -> Seq<bool> {
    Seq::new(rules.len(), |k: int| claims(rules[k], c) && rules[k].priority4.is_some())
}

/// For each rule, whether it claims `c` and gives an IPv6 priority.
pub open spec fn gives6(rules: Seq<DnsRuleView>, c: ConnectionView) -> Seq<bool> {
    Seq::new(rules.len(), |k: int| claims(rules[k], c) && rules[k].priority6.is_some())
}

/// The IPv4 priority that the policy gives `c`: that of the first rule which
/// claims `c` and has one.
pub open spec fn policy_priority4(rules: Seq<DnsRuleView>, c: ConnectionView) -> Option<i32> {
    match first_index(gives4(rules, c), true) {
        Some(k) => rules[k].priority4,
        None => None,
    }
}

/// The IPv6 priority that the policy gives `c`.
pub open spec fn policy_priority6(rules: Seq<DnsRuleView>, c: ConnectionView) -> Option<i32> {
    match first_index(gives6(rules, c), true) {
        Some(k) => rules[k].priority6,
        None => None,
    }
}

/// Whether a connection is exempt from the policy: the loopback is.
pub open spec fn is_loopback(c: ConnectionView) -> bool {
    c.id == "lo"@
}

/// A connection after the match rules: a priority that the policy gives
/// replaces the one it had, for each protocol by itself.
pub open spec fn with_policy(rules: Seq<DnsRuleView>, c: ConnectionView) -> ConnectionView {
    if is_loopback(c) {
        c
    } else {
        ConnectionView {
            ip_config: IpConfigView {
                dns_priority4: match policy_priority4(rules, c) {
                    Some(p) => Some(p),
                    None => c.ip_config.dns_priority4,
                },
                dns_priority6: match policy_priority6(rules, c) {
                    Some(p) => Some(p),
                    None => c.ip_config.dns_priority6,
                },
                ..c.ip_config
            },
            ..c
        }
    }
}

/// A connection at the end of the merge: after the match rules, and with
/// automatically learned DNS servers ignored where it is no loopback and has
/// no priority for either protocol.
pub open spec fn settled(rules: Seq<DnsRuleView>, c: ConnectionView) -> ConnectionView {
    let d = with_policy(rules, c);
    if !is_loopback(d) && !d.ip_config.has_dns_priority() {
        d.ignoring_auto_dns()
    } else {
        d
    }
}

/// The state at the end of the merge: the connections and then the loopback,
/// each settled.
pub open spec fn merged(
    rules: Seq<DnsRuleView>,
    conns: Seq<ConnectionView>,
    lo: ConnectionView,
) -> Seq<ConnectionView> {
    Seq::new(conns.len() + 1, |i: int| settled(rules, conns.push(lo)[i]))
}

/// For each nameserver entry, whether it denotes an address.
pub open spec fn nameserver_ok(entries: Seq<Seq<char>>) -> Seq<bool> {
    Seq::new(entries.len(), |i: int| nameserver_of_text(entries[i]).is_some())
}

/// The first entry that denotes no address.
pub open spec fn bad_nameserver(entries: Seq<Seq<char>>) -> Option<int> {
    first_index(nameserver_ok(entries), false)
}

/// The addresses that the entries denote, in order.
pub open spec fn nameservers_of(entries: Seq<Seq<char>>) -> Seq<IpAddr> {
    Seq::new(entries.len(), |i: int| nameserver_of_text(entries[i]).unwrap())
}

/// The nameservers that the loopback receives: all of them, or none at all
/// where a single entry is wrong.
pub open spec fn usable_nameservers(entries: Seq<Seq<char>>) -> Seq<IpAddr> {
    if bad_nameserver(entries).is_some() {
        seq![]
    } else {
        nameservers_of(entries)
    }
}

/// The loopback carrying the static DNS configuration.
pub open spec fn prepared_loopback(
    base: ConnectionView,
    nameservers: Seq<IpAddr>,
    searchlist: Option<Seq<Seq<char>>>,
) -> ConnectionView {
    ConnectionView {
        ip_config: IpConfigView {
            nameservers,
            dns_searchlist: match searchlist {
                Some(list) => list,
                None => base.ip_config.dns_searchlist,
            },
            ..base.ip_config
        },
        ..base
    }
}

/// Why a merge failed.
#[derive(Debug)]
pub enum MergeError {
    /// A nameserver entry denotes no address, and the run is strict.
    Nameserver { entry: String },
    /// The state holds a connection with the id of the loopback already.
    ConnectionExists { id: String },
}

/// The mathematical view of a `MergeError`.
pub enum MergeErrorView {
    Nameserver { entry: Seq<char> },
    ConnectionExists { id: Seq<char> },
}

impl View for MergeError {
    type V = MergeErrorView;

    open spec fn view(&self) -> MergeErrorView {
        match self {
            MergeError::Nameserver { entry } => MergeErrorView::Nameserver { entry: entry@ },
            MergeError::ConnectionExists { id } => MergeErrorView::ConnectionExists { id: id@ },
        }
    }
}

/// What a merge yields, from the policy, the connections of the state, the
/// loopback to start from and the mode: the new connections beside the
/// nameserver entry that was passed over, if one was, or the failure.
pub open spec fn merge_outcome(
    netconfig: NetconfigView,
    conns: Seq<ConnectionView>,
    base: ConnectionView,
    continue_migration: bool,
) -> Result<(Seq<ConnectionView>, Option<Seq<char>>), MergeErrorView> {
    let entries = netconfig.static_dns_servers;
    let bad = bad_nameserver(entries);
    if bad.is_some() && !continue_migration {
        Err(MergeErrorView::Nameserver { entry: entries[bad.unwrap()] })
    } else {
        let lo = prepared_loopback(
            base,
            usable_nameservers(entries),
            netconfig.static_dns_searchlist,
        );
        if first_with_id(conns, lo.id).is_some() {
            Err(MergeErrorView::ConnectionExists { id: lo.id })
        } else {
            Ok(
                (
                    merged(netconfig.dns_policy, conns, lo),
                    match bad {
                        Some(k) => Some(entries[k]),
                        None => None,
                    },
                ),
            )
        }
    }
}

/// Whether a merge that started from `before` with the loopback `base`,
/// returned `r` and left `after` did what `merge_outcome` says: on success
/// the new connections and the entry passed over, on failure the error and
/// the state as it was.
pub open spec fn merge_is(
    netconfig: NetconfigView,
    before: Seq<ConnectionView>,
    base: ConnectionView,
    continue_migration: bool,
    r: Result<Option<String>, MergeError>,
    after: Seq<ConnectionView>,
) -> bool {
    match r {
        Ok(skipped) => merge_outcome(netconfig, before, base, continue_migration) == Ok::<
            (Seq<ConnectionView>, Option<Seq<char>>),
            MergeErrorView,
        >((after, opt_text(skipped))),
        Err(e) => merge_outcome(netconfig, before, base, continue_migration) == Err::<
            (Seq<ConnectionView>, Option<Seq<char>>),
            MergeErrorView,
        >(e@) && after == before,
    }
}

/// Reads the nameserver entries of the policy. Fails with the first entry
/// that denotes no address.
pub fn static_dns_servers(netconfig: &Netconfig) -> (r: Result<Vec<IpAddr>, String>)
    ensures
        match r {
            Ok(list) => bad_nameserver(netconfig@.static_dns_servers).is_none() && list@
                == nameservers_of(netconfig@.static_dns_servers),
            Err(entry) => bad_nameserver(netconfig@.static_dns_servers).is_some() && entry@
                == netconfig@.static_dns_servers[bad_nameserver(
                netconfig@.static_dns_servers,
            ).unwrap()],
        },
{
    let ghost entries = netconfig@.static_dns_servers;
    let ghost flags = nameserver_ok(entries);
    let mut list: Vec<IpAddr> = Vec::new();
    let mut i: usize = 0;
    while i < netconfig.static_dns_servers.len()
        invariant
            i <= netconfig.static_dns_servers.len(),
            entries == netconfig@.static_dns_servers,
            entries.len() == netconfig.static_dns_servers.len(),
            flags == nameserver_ok(entries),
            forall|j: int| 0 <= j < i ==> flags[j] != false,
            list@ == nameservers_of(entries).take(i as int),
        decreases netconfig.static_dns_servers.len() - i,
    {
        assert(entries[i as int] == netconfig.static_dns_servers[i as int]@);
        match parse_nameserver(netconfig.static_dns_servers[i].as_str()) {
            Some(address) => {
                list.push(address);
                proof {
                    assert(flags[i as int] == true);
                    assert(nameservers_of(entries).take(i as int + 1) =~= nameservers_of(
                        entries,
                    ).take(i as int).push(address));
                }
            },
            None => {
                proof {
                    assert(flags[i as int] == false);
                    lemma_first_index_found(flags, false, i as int);
                }
                return Err(netconfig.static_dns_servers[i].clone());
            },
        }
        i += 1;
    }
    proof {
        lemma_first_index_absent(flags, false);
        assert(nameservers_of(entries).take(i as int) =~= nameservers_of(entries));
    }
    Ok(list)
}

/// Whether a rule claims a connection.
pub fn rule_claims(rule: &DnsRule, c: &Connection) -> (r: bool)
    ensures
        r == claims(rule@, c@),
{
    match &rule.target {
        RuleTarget::AnyInterface => c.interface.is_some(),
        RuleTarget::Interface(name) => opt_text_is(&c.interface, name.as_str()),
    }
}

/// The priorities that the policy gives a connection, IPv4 first.
pub fn policy_priorities(rules: &Vec<DnsRule>, c: &Connection) -> (r: (Option<i32>, Option<i32>))
    ensures
        r.0 == policy_priority4(rule_views(rules@), c@),
        r.1 == policy_priority6(rule_views(rules@), c@),
{
    let ghost rv = rule_views(rules@);
    let ghost g4 = gives4(rv, c@);
    let ghost g6 = gives6(rv, c@);
    let mut found4: Option<i32> = None;
    let mut found6: Option<i32> = None;
    let mut k: usize = 0;
    while k < rules.len()
        invariant
            k <= rules.len(),
            rv == rule_views(rules@),
            g4 == gives4(rv, c@),
            g6 == gives6(rv, c@),
            match found4 {
                Some(p) => first_index(g4, true).is_some() && rv[first_index(
                    g4,
                    true,
                ).unwrap()].priority4 == Some(p),
                None => forall|j: int| 0 <= j < k ==> g4[j] != true,
            },
            match found6 {
                Some(p) => first_index(g6, true).is_some() && rv[first_index(
                    g6,
                    true,
                ).unwrap()].priority6 == Some(p),
                None => forall|j: int| 0 <= j < k ==> g6[j] != true,
            },
        decreases rules.len() - k,
    {
        assert(rv[k as int] == rules[k as int]@);
        if rule_claims(&rules[k], c) {
            if found4.is_none() && rules[k].priority4.is_some() {
                proof {
                    assert(g4[k as int] == true);
                    lemma_first_index_found(g4, true, k as int);
                }
                found4 = rules[k].priority4;
            }
            if found6.is_none() && rules[k].priority6.is_some() {
                proof {
                    assert(g6[k as int] == true);
                    lemma_first_index_found(g6, true, k as int);
                }
                found6 = rules[k].priority6;
            }
        }
        assert(found4.is_none() ==> g4[k as int] != true);
        assert(found6.is_none() ==> g6[k as int] != true);
        k += 1;
    }
    proof {
        if found4.is_none() {
            lemma_first_index_absent(g4, true);
        }
        if found6.is_none() {
            lemma_first_index_absent(g6, true);
        }
    }
    (found4, found6)
}

/// A connection as the merge leaves it.
pub fn settle(rules: &Vec<DnsRule>, c: &Connection) -> (r: Connection)
    ensures
        r@ == settled(rule_views(rules@), c@),
{
    let mut out = c.duplicate();
    if !text_eq(c.id.as_str(), "lo") {
        let (found4, found6) = policy_priorities(rules, c);
        if found4.is_some() {
            out.ip_config.dns_priority4 = found4;
        }
        if found6.is_some() {
            out.ip_config.dns_priority6 = found6;
        }
        if out.ip_config.dns_priority4.is_none() && out.ip_config.dns_priority6.is_none() {
            out.ip_config.ignore_auto_dns = true;
        }
    }
    out
}

/// Merges the static DNS policy into the state, starting from the given
/// loopback connection.
///
/// The loopback receives the nameservers and the search list and goes to the
/// end of the state; then every connection is settled. A wrong nameserver
/// entry fails a strict run before the state changes; otherwise it leaves the
/// loopback without nameservers and is handed back.
pub fn merge_dns_with(
    netconfig: &Netconfig,
    state: &mut NetworkState,
    loopback: Connection,
    continue_migration: bool,
) -> (r: Result<Option<String>, MergeError>)
    requires
        old(state).wf(),
    ensures
        final(state).wf(),
        final(state).general_state == old(state).general_state,
        merge_is(netconfig@, old(state)@, loopback@, continue_migration, r, final(state)@),
{
    let ghost before = state@;
    let mut lo = loopback;
    let mut skipped: Option<String> = None;
    match static_dns_servers(netconfig) {
        Ok(list) => {
            lo.ip_config.nameservers = list;
        },
        Err(entry) => {
            if !continue_migration {
                return Err(MergeError::Nameserver { entry });
            }
            lo.ip_config.nameservers = Vec::new();
            skipped = Some(entry);
        },
    }
    assert(lo@.ip_config.nameservers =~= usable_nameservers(netconfig@.static_dns_servers));
    match &netconfig.static_dns_searchlist {
        Some(list) => {
            lo.ip_config.dns_searchlist = clone_texts(list);
        },
        None => {},
    }
    let ghost ready = lo@;
    assert(ready == prepared_loopback(
        loopback@,
        usable_nameservers(netconfig@.static_dns_servers),
        netconfig@.static_dns_searchlist,
    ));
    match state.add_connection(lo) {
        Ok(()) => {},
        Err(e) => {
            match e {
                StateError::ConnectionExists(id) => {
                    return Err(MergeError::ConnectionExists { id });
                },
            }
        },
    }
    let ghost all = before.push(ready);
    let ghost rules = netconfig@.dns_policy;
    let n = state.connections.len();
    let mut i: usize = 0;
    while i < n
        invariant
            i <= n,
            n == state.connections.len(),
            n == all.len(),
            rules == rule_views(netconfig.dns_policy@),
            state.general_state == old(state).general_state,
            distinct_ids(all),
            forall|j: int| 0 <= j < i ==> (#[trigger] state@[j]) == settled(rules, all[j]),
            forall|j: int| i <= j < n ==> (#[trigger] state@[j]) == all[j],
        decreases n - i,
    {
        let ghost now = state@;
        let changed = settle(&netconfig.dns_policy, &state.connections[i]);
        let ghost put = changed@;
        proof {
            assert(now[i as int] == all[i as int]);
            assert(put == settled(rules, all[i as int]));
        }
        state.connections.set(i, changed);
        proof {
            assert(state@[i as int] == put);
            assert forall|j: int| 0 <= j < i + 1 implies (#[trigger] state@[j]) == settled(
                rules,
                all[j],
            ) by {
                if j < i {
                    assert(state@[j] == now[j]);
                }
            }
            assert forall|j: int| i + 1 <= j < n implies (#[trigger] state@[j]) == all[j] by {
                assert(state@[j] == now[j]);
            }
        }
        i += 1;
    }
    proof {
        assert(state@ =~= merged(rules, before, ready));
        assert forall|a: int, b: int| 0 <= a < b < state@.len() implies state@[a].id
            != state@[b].id by {
            assert(state@[a].id == all[a].id);
            assert(state@[b].id == all[b].id);
        }
    }
    Ok(skipped)
}

/// Merges the static DNS policy into the state. The merge starts from a
/// copy of the loopback of the running system where there is one, and from
/// the canonical loopback under a fresh uuid where there is none.
pub fn merge_dns(
    netconfig: &Netconfig,
    state: &mut NetworkState,
    current_loopback: Option<Connection>,
    continue_migration: bool,
) -> (r: Result<Option<String>, MergeError>)
    requires
        old(state).wf(),
    ensures
        final(state).wf(),
        final(state).general_state == old(state).general_state,
        match current_loopback {
            Some(lo) => merge_is(
                netconfig@,
                old(state)@,
                lo@,
                continue_migration,
                r,
                final(state)@,
            ),
            None => exists|uuid: u128|
                merge_is(
                    netconfig@,
                    old(state)@,
                    canonical_loopback(uuid),
                    continue_migration,
                    r,
                    final(state)@,
                ),
        },
{
    match current_loopback {
        Some(lo) => merge_dns_with(netconfig, state, lo, continue_migration),
        None => {
            let lo = create_lo_connection();
            let ghost uuid = lo@.uuid;
            let r = merge_dns_with(netconfig, state, lo, continue_migration);
            assert(merge_is(
                netconfig@,
                old(state)@,
                canonical_loopback(uuid),
                continue_migration,
                r,
                state@,
            ));
            r
        },
    }
}

/// A loopback that had to be made. Where the merge starts from the canonical
/// loopback and succeeds on a state with unique ids, the new state ends with
/// that loopback: id and interface `lo`, both protocols manual, the addresses
/// 127.0.0.1/8 and ::1/128, the nameservers of the policy. No other
/// connection of the new state has the id `lo`, and the connections before it
/// keep their ids and their order.
pub proof fn law_synthesized_loopback(
    netconfig: NetconfigView,
    conns: Seq<ConnectionView>,
    uuid: u128,
    continue_migration: bool,
)
    requires
        distinct_ids(conns),
        merge_outcome(netconfig, conns, canonical_loopback(uuid), continue_migration).is_ok(),
    ensures
        ({
            let out = merge_outcome(
                netconfig,
                conns,
                canonical_loopback(uuid),
                continue_migration,
            )->Ok_0.0;
            let lo = out[conns.len() as int];
            &&& out.len() == conns.len() + 1
            &&& lo.id == "lo"@
            &&& lo.uuid == uuid
            &&& lo.interface == Some("lo"@)
            &&& lo.config == crate::model::ConnectionConfig::Loopback
            &&& lo.ip_config.method4 == crate::model::IpMethod::Manual
            &&& lo.ip_config.method6 == crate::model::IpMethod::Manual
            &&& lo.ip_config.addresses == seq![
                crate::loopback::loopback_inet4(),
                crate::loopback::loopback_inet6(),
            ]
            &&& lo.ip_config.nameservers == usable_nameservers(netconfig.static_dns_servers)
            &&& !lo.ip_config.ignore_auto_dns
            &&& forall|i: int| 0 <= i < conns.len() ==> (#[trigger] out[i]).id == conns[i].id
            &&& forall|i: int| 0 <= i < out.len() && (#[trigger] out[i]).id == "lo"@ ==> i
                == conns.len()
        }),
{
    let base = canonical_loopback(uuid);
    let lo = prepared_loopback(
        base,
        usable_nameservers(netconfig.static_dns_servers),
        netconfig.static_dns_searchlist,
    );
    let out = merged(netconfig.dns_policy, conns, lo);
    assert(merge_outcome(netconfig, conns, base, continue_migration)->Ok_0.0 == out);
    assert(first_with_id(conns, lo.id).is_none());
    lemma_first_index(ids(conns), lo.id);
    assert(conns.push(lo)[conns.len() as int] == lo);
    assert forall|i: int| 0 <= i < conns.len() implies (#[trigger] out[i]).id == conns[i].id by {
        assert(conns.push(lo)[i] == conns[i]);
    }
    assert forall|i: int| 0 <= i < out.len() && (#[trigger] out[i]).id == "lo"@ implies i
        == conns.len() by {
        if i < conns.len() {
            assert(conns.push(lo)[i] == conns[i]);
            assert(ids(conns)[i] != lo.id);
        }
    }
}

/// The default for connections that the policy does not claim. A connection
/// other than the loopback that ends without a DNS priority for either
/// protocol ignores automatically learned DNS servers. One that ends with a
/// priority keeps its setting, and the loopback is left exactly as it was. A
/// connection ends without a priority exactly if it had none and the policy
/// gives it none.
pub proof fn law_unclaimed_ignores_auto_dns(rules: Seq<DnsRuleView>, c: ConnectionView)
    ensures
        settled(rules, c).id == c.id,
        !is_loopback(c) && !settled(rules, c).ip_config.has_dns_priority() ==> settled(
            rules,
            c,
        ).ip_config.ignore_auto_dns,
        settled(rules, c).ip_config.has_dns_priority() ==> settled(
            rules,
            c,
        ).ip_config.ignore_auto_dns == c.ip_config.ignore_auto_dns,
        is_loopback(c) ==> settled(rules, c) == c,
        !is_loopback(c) ==> (settled(rules, c).ip_config.has_dns_priority() <==> (
        c.ip_config.has_dns_priority() || policy_priority4(rules, c).is_some() || policy_priority6(
            rules,
            c,
        ).is_some())),
{
}

/// The same default, of a whole merged state: each connection of it is the
/// settled form of the connection that stood at its place.
pub proof fn law_merged_is_settled(
    rules: Seq<DnsRuleView>,
    conns: Seq<ConnectionView>,
    lo: ConnectionView,
    i: int,
)
    requires
        0 <= i <= conns.len(),
    ensures
        merged(rules, conns, lo).len() == conns.len() + 1,
        i < conns.len() ==> merged(rules, conns, lo)[i] == settled(rules, conns[i]),
        merged(rules, conns, lo)[conns.len() as int] == settled(rules, lo),
        !is_loopback(merged(rules, conns, lo)[i]) && !merged(
            rules,
            conns,
            lo,
        )[i].ip_config.has_dns_priority() ==> merged(rules, conns, lo)[i].ip_config.ignore_auto_dns,
{
    law_unclaimed_ignores_auto_dns(rules, conns.push(lo)[i]);
}

} // verus!
