//! The migration itself: every interface is mapped, controllers are
//! resolved over the full set of connections, and the state is assembled.
//! What happens to the state then is decided here and done by the caller.

use vstd::prelude::*;
use crate::dns::{MergeError, MergeErrorView, merge_dns, merge_is, merge_outcome};
use crate::loopback::canonical_loopback;
use crate::interface::{Interface, InterfaceView, interface_views};
use crate::mapper::{MapError, MapErrorView, map_failure, mapped_connection, warnings_of};
use crate::model::{Connection, ConnectionView, views};
use crate::policy::{MigrationSettings, Netconfig, NetconfigDhcp};
use crate::reader::{InterfacesResult, InterfacesResultView, continue_hint};
use crate::resolve::{ParentMap, ResolveError, ResolveErrorView, inserted, orphans, pair_views,
    resolve, update_parent_connection};
use crate::search::{first_index, lemma_first_index_absent, lemma_first_index_found};
use crate::state::{NetworkState, StateError, assemble, assembled};
use crate::text::texts;

verus! {

/// Why a migration failed.
#[derive(Debug)]
pub enum MigrateError {
    /// The documents could not be read or parsed; `detail` says why.
    Parse { detail: String },
    /// A document held fields that nothing handles, and the run is strict.
    UnhandledFields { warning: String },
    /// An interface could not be mapped, and the run is strict.
    Mapping(MapError),
    /// The mapping of the interface behind the connection `id` gave
    /// warnings, and the run is strict.
    Warnings { id: String },
    /// The interface `parent`, wanted by the connection `id`, has no
    /// connection, and the run is strict.
    MissingParent { id: String, parent: String },
    /// A parent was found for `id`, but no connection carries that id.
    MissingConnection { id: String },
    /// Two connections share the id `id`.
    ConnectionExists { id: String },
    /// A nameserver entry denotes no address, and the run is strict.
    Nameserver { entry: String },
}

/// The mathematical view of a `MigrateError`.
pub enum MigrateErrorView {
    Parse { detail: Seq<char> },
    UnhandledFields { warning: Seq<char> },
    Mapping(MapErrorView),
    Warnings { id: Seq<char> },
    MissingParent { id: Seq<char>, parent: Seq<char> },
    MissingConnection { id: Seq<char> },
    ConnectionExists { id: Seq<char> },
    Nameserver { entry: Seq<char> },
}

impl View for MigrateError {
    type V = MigrateErrorView;

    open spec fn view(&self) -> MigrateErrorView {
        match self {
            MigrateError::Parse { detail } => MigrateErrorView::Parse { detail: detail@ },
            MigrateError::UnhandledFields { warning } => MigrateErrorView::UnhandledFields {
                warning: warning@,
            },
            MigrateError::Mapping(e) => MigrateErrorView::Mapping(e@),
            MigrateError::Warnings { id } => MigrateErrorView::Warnings { id: id@ },
            MigrateError::MissingParent { id, parent } => MigrateErrorView::MissingParent {
                id: id@,
                parent: parent@,
            },
            MigrateError::MissingConnection { id } => MigrateErrorView::MissingConnection {
                id: id@,
            },
            MigrateError::ConnectionExists { id } => MigrateErrorView::ConnectionExists { id: id@ },
            MigrateError::Nameserver { entry } => MigrateErrorView::Nameserver { entry: entry@ },
        }
    }
}

/// A failure of the resolution as a failure of the migration.
pub open spec fn of_resolve_error(e: ResolveErrorView) -> MigrateErrorView {
    match e {
        ResolveErrorView::MissingParent { id, parent } => MigrateErrorView::MissingParent {
            id,
            parent,
        },
        ResolveErrorView::MissingConnection { id } => MigrateErrorView::MissingConnection { id },
    }
}

/// A failure of the merge as a failure of the migration.
pub open spec fn of_merge_error(e: MergeErrorView) -> MigrateErrorView {
    match e {
        MergeErrorView::Nameserver { entry } => MigrateErrorView::Nameserver { entry },
        MergeErrorView::ConnectionExists { id } => MigrateErrorView::ConnectionExists { id },
    }
}

/// The text of a failure over warnings.
pub open spec fn warnings_failure(id: Seq<char>) -> Seq<char> {
    "Migration of "@ + id + " failed because of warnings"@ + continue_hint()
}

/// The warning about a parent without a connection.
pub open spec fn missing_parent_message(id: Seq<char>, parent: Seq<char>) -> Seq<char> {
    "Missing parent "@ + parent + " connection for "@ + id
}

/// The warning about a nameserver entry that denotes no address.
pub open spec fn nameserver_message(entry: Seq<char>) -> Seq<char> {
    "Error when parsing static DNS servers: "@ + entry
}

impl MigrateErrorView {
    /// The text of the error: it names the interface, connection or entry
    /// that caused it, and says where the run can be told to go on. What a
    /// reader of documents reported is given word for word.
    pub open spec fn message(self) -> Seq<char> {
        match self {
            MigrateErrorView::Parse { detail } => detail,
            MigrateErrorView::UnhandledFields { warning } => warning,
            MigrateErrorView::Mapping(e) => e.message() + continue_hint(),
            MigrateErrorView::Warnings { id } => warnings_failure(id),
            MigrateErrorView::MissingParent { id, parent } => warnings_failure(id),
            MigrateErrorView::MissingConnection { id } => "Unexpected failure - missing connection "@
                + id,
            MigrateErrorView::ConnectionExists { id } => "Connection "@ + id + " already exists"@,
            MigrateErrorView::Nameserver { entry } => nameserver_message(entry) + continue_hint(),
        }
    }
}

/// The text of a failure over warnings.
pub fn warnings_failure_message(id: &str) -> (r: String)
    ensures
        r@ == warnings_failure(id@),
{
    let mut text = "Migration of ".to_owned();
    text.append(id);
    text.append(" failed because of warnings");
    text.append(", use the `--continue-migration` flag to ignore");
    text
}

/// The warning about a parent without a connection.
pub fn missing_parent_warning(id: &str, parent: &str) -> (r: String)
    ensures
        r@ == missing_parent_message(id@, parent@),
{
    let mut text = "Missing parent ".to_owned();
    text.append(parent);
    text.append(" connection for ");
    text.append(id);
    text
}

/// The warning about a nameserver entry that denotes no address.
pub fn nameserver_warning(entry: &str) -> (r: String)
    ensures
        r@ == nameserver_message(entry@),
{
    let mut text = "Error when parsing static DNS servers: ".to_owned();
    text.append(entry);
    text
}

impl MigrateError {
    /// The text of the error.
    pub fn message(&self) -> (r: String)
        ensures
            r@ == self@.message(),
    {
        match self {
            MigrateError::Parse { detail } => detail.clone(),
            MigrateError::UnhandledFields { warning } => warning.clone(),
            MigrateError::Mapping(e) => {
                let mut text = e.message();
                text.append(", use the `--continue-migration` flag to ignore");
                text
            },
            MigrateError::Warnings { id } => warnings_failure_message(id.as_str()),
            MigrateError::MissingParent { id, parent } => warnings_failure_message(id.as_str()),
            MigrateError::MissingConnection { id } => {
                let mut text = "Unexpected failure - missing connection ".to_owned();
                text.append(id.as_str());
                text
            },
            MigrateError::ConnectionExists { id } => {
                let mut text = "Connection ".to_owned();
                text.append(id.as_str());
                text.append(" already exists");
                text
            },
            MigrateError::Nameserver { entry } => {
                let mut text = nameserver_warning(entry.as_str());
                text.append(", use the `--continue-migration` flag to ignore");
                text
            },
        }
    }

    /// A failure of the resolution as a failure of the migration.
    pub fn from_resolve(e: ResolveError) -> (r: MigrateError)
        ensures
            r@ == of_resolve_error(e@),
    {
        match e {
            ResolveError::MissingParent { id, parent } => MigrateError::MissingParent {
                id,
                parent,
            },
            ResolveError::MissingConnection { id } => MigrateError::MissingConnection { id },
        }
    }

    /// A conflict in the state as a failure of the migration.
    pub fn from_state(e: StateError) -> (r: MigrateError)
        ensures
            r@ == (MigrateErrorView::ConnectionExists { id: e.id() }),
    {
        match e {
            StateError::ConnectionExists(id) => MigrateError::ConnectionExists { id },
        }
    }

    /// A failure of the merge as a failure of the migration.
    pub fn from_merge(e: MergeError) -> (r: MigrateError)
        ensures
            r@ == of_merge_error(e@),
    {
        match e {
            MergeError::Nameserver { entry } => MigrateError::Nameserver { entry },
            MergeError::ConnectionExists { id } => MigrateError::ConnectionExists { id },
        }
    }
}

/// What mapping a batch of interfaces gives.
pub struct Collected {
    pub connections: Vec<Connection>,
    pub parents: ParentMap,
    pub warnings: Vec<String>,
}

/// The mathematical view of a `Collected`.
pub struct CollectedView {
    pub connections: Seq<ConnectionView>,
    pub parents: Seq<(Seq<char>, Seq<char>)>,
    pub warnings: Seq<Seq<char>>,
}

impl View for Collected {
    type V = CollectedView;

    open spec fn view(&self) -> CollectedView {
        CollectedView {
            connections: views(self.connections@),
            parents: self.parents@,
            warnings: texts(self.warnings@),
        }
    }
}

/// Whether an interface stops a strict run at the mapping: it cannot be
/// mapped, or its mapping gives warnings.
pub open spec fn stops(raw: InterfaceView) -> bool {
    map_failure(raw).is_some() || warnings_of(raw.name, raw.unhandled_fields).len() > 0
}

/// For each interface, whether it stops a strict run.
pub open spec fn stop_flags(raws: Seq<InterfaceView>) -> Seq<bool> {
    Seq::new(raws.len(), |i: int| stops(raws[i]))
}

/// The error with which an interface stops a strict run.
pub open spec fn stop_error(raw: InterfaceView) -> MigrateErrorView {
    match map_failure(raw) {
        Some(e) => MigrateErrorView::Mapping(e),
        None => MigrateErrorView::Warnings { id: raw.name },
    }
}

/// The failure of the mapping stage: that of the first interface which
/// stops a strict run. A run in continue mode does not fail here.
pub open spec fn collect_failure(
    raws: Seq<InterfaceView>,
    continue_migration: bool,
) -> Option<MigrateErrorView> {
    if continue_migration {
        None
    } else {
        match first_index(stop_flags(raws), true) {
            Some(k) => Some(stop_error(raws[k])),
            None => None,
        }
    }
}

/// What one interface adds: its connection and its warnings, and the pair
/// of its connection and its controlling interface where it names one. An
/// interface that cannot be mapped adds the text of that failure to the
/// warnings and nothing else.
pub open spec fn collect_step(
    acc: CollectedView,
    raw: InterfaceView,
    policy: Option<NetconfigDhcp>,
    uuid: u128,
) -> CollectedView {
    match map_failure(raw) {
        Some(e) => CollectedView { warnings: acc.warnings.push(e.message()), ..acc },
        None => CollectedView {
            connections: acc.connections.push(mapped_connection(raw, policy, uuid)),
            parents: match raw.master {
                Some(parent) => inserted(acc.parents, raw.name, parent),
                None => acc.parents,
            },
            warnings: acc.warnings + warnings_of(raw.name, raw.unhandled_fields),
        },
    }
}

/// What the mapping of a batch gives where nothing stops it, the interface
/// at position `i` being mapped under the uuid `uuids[i]`.
pub open spec fn collected(
    raws: Seq<InterfaceView>,
    policy: Option<NetconfigDhcp>,
    uuids: Seq<u128>,
) -> CollectedView
    decreases raws.len(),
{
    if raws.len() == 0 {
        CollectedView { connections: seq![], parents: seq![], warnings: seq![] }
    } else {
        collect_step(
            collected(raws.drop_last(), policy, uuids),
            raws.last(),
            policy,
            uuids[raws.len() - 1],
        )
    }
}

/// Only the uuids at the positions of the interfaces matter.
pub proof fn lemma_collected_uuids(
    raws: Seq<InterfaceView>,
    policy: Option<NetconfigDhcp>,
    a: Seq<u128>,
    b: Seq<u128>,
)
    requires
        a.len() >= raws.len(),
        b.len() >= raws.len(),
        forall|i: int| 0 <= i < raws.len() ==> a[i] == b[i],
    ensures
        collected(raws, policy, a) == collected(raws, policy, b),
    decreases raws.len(),
{
    if raws.len() > 0 {
        lemma_collected_uuids(raws.drop_last(), policy, a, b);
    }
}

/// Maps every interface of a batch, each under a fresh uuid, and collects
/// the connections, the pairs of child and controlling interface, and the
/// warnings. A strict run fails at the first interface that cannot be mapped
/// or whose mapping gives warnings.
pub fn collect_connections(
    interfaces: &Vec<Interface>,
    netconfig_dhcp: &Option<NetconfigDhcp>,
    continue_migration: bool,
) -> (r: Result<Collected, MigrateError>)
    ensures
        match r {
            Ok(c) => {
                &&& c.parents.wf()
                &&& collect_failure(interface_views(interfaces@), continue_migration).is_none()
                &&& exists|uuids: Seq<u128>|
                    uuids.len() == interfaces.len() && c@ == collected(
                        interface_views(interfaces@),
                        *netconfig_dhcp,
                        uuids,
                    )
            },
            Err(e) => collect_failure(interface_views(interfaces@), continue_migration) == Some(
                e@,
            ),
        },
{
    let ghost raws = interface_views(interfaces@);
    let ghost flags = stop_flags(raws);
    let ghost policy = *netconfig_dhcp;
    let ghost mut uuids: Seq<u128> = Seq::empty();
    let mut acc = Collected {
        connections: Vec::new(),
        parents: ParentMap::new(),
        warnings: Vec::new(),
    };
    assert(acc@.connections =~= seq![] && acc@.warnings =~= seq![]);
    assert(raws.take(0).len() == 0);
    let mut k: usize = 0;
    while k < interfaces.len()
        invariant
            k <= interfaces.len(),
            raws == interface_views(interfaces@),
            flags == stop_flags(raws),
            policy == *netconfig_dhcp,
            uuids.len() == k,
            acc.parents.wf(),
            acc@ == collected(raws.take(k as int), policy, uuids),
            !continue_migration ==> forall|j: int| 0 <= j < k ==> flags[j] != true,
        decreases interfaces.len() - k,
    {
        let raw = &interfaces[k];
        let ghost before = acc@;
        let ghost old_uuids = uuids;
        proof {
            assert(raws[k as int] == raw@);
            assert(raws.take(k as int + 1).drop_last() =~= raws.take(k as int));
            assert(raws.take(k as int + 1).last() == raw@);
        }
        match raw.to_connection(netconfig_dhcp) {
            Err(e) => {
                if !continue_migration {
                    proof {
                        assert(flags[k as int] == true);
                        lemma_first_index_found(flags, true, k as int);
                    }
                    return Err(MigrateError::Mapping(e));
                }
                let message = e.message();
                acc.warnings.push(message);
                proof {
                    uuids = uuids.push(0);
                    assert(acc@.warnings =~= before.warnings.push(e@.message()));
                }
            },
            Ok(result) => {
                let mut result = result;
                let ghost uuid = result.connections[0].uuid;
                let ghost added = texts(result.warnings@);
                if result.warnings.len() > 0 && !continue_migration {
                    proof {
                        assert(flags[k as int] == true);
                        lemma_first_index_found(flags, true, k as int);
                    }
                    return Err(MigrateError::Warnings { id: result.connections[0].id.clone() });
                }
                acc.warnings.append(&mut result.warnings);
                let connection = result.connections.remove(0);
                match &raw.link.master {
                    Some(parent) => {
                        acc.parents.insert(connection.id.clone(), parent.clone());
                    },
                    None => {},
                }
                acc.connections.push(connection);
                proof {
                    uuids = uuids.push(uuid);
                    assert(acc@.warnings =~= before.warnings + added);
                    assert(acc@.connections =~= before.connections.push(
                        mapped_connection(raw@, policy, uuid),
                    ));
                    assert(!continue_migration ==> flags[k as int] != true);
                }
            },
        }
        proof {
            lemma_collected_uuids(raws.take(k as int), policy, old_uuids, uuids);
            assert(acc@ == collect_step(before, raw@, policy, uuids[k as int]));
        }
        k += 1;
    }
    proof {
        assert(raws.take(k as int) =~= raws);
        if !continue_migration {
            lemma_first_index_absent(flags, true);
        }
    }
    Ok(acc)
}

/// The warnings about the pairs whose parent is missing, in their order.
pub open spec fn orphan_warnings(pairs: Seq<(Seq<char>, Seq<char>)>) -> Seq<Seq<char>> {
    Seq::new(pairs.len(), |i: int| missing_parent_message(pairs[i].0, pairs[i].1))
}

/// The warnings about the pairs whose parent is missing.
pub fn missing_parent_warnings(pairs: &Vec<(String, String)>) -> (r: Vec<String>)
    ensures
        texts(r@) == orphan_warnings(pair_views(pairs@)),
{
    let mut out: Vec<String> = Vec::new();
    let mut i: usize = 0;
    while i < pairs.len()
        invariant
            i <= pairs.len(),
            out.len() == i,
            forall|j: int|
                0 <= j < i ==> (#[trigger] out[j])@ == missing_parent_message(
                    pairs[j].0@,
                    pairs[j].1@,
                ),
        decreases pairs.len() - i,
    {
        out.push(missing_parent_warning(pairs[i].0.as_str(), pairs[i].1.as_str()));
        i += 1;
    }
    assert(texts(out@) =~= orphan_warnings(pair_views(pairs@)));
    out
}

/// What is to be done with an assembled state.
#[derive(Clone, Copy, Debug, PartialEq, Eq, Structural)]
pub enum NextStep {
    /// A dry run: show the connections and stop.
    LogOnly,
    /// Write the state as it is.
    Write,
    /// Read the running system for its loopback, merge the DNS policy into
    /// the state, and write the result.
    MergeThenWrite,
}

/// The step that follows the assembly: a dry run only shows the state; any
/// other run writes it, after the merge where a DNS policy was supplied.
pub open spec fn step_after(dry_run: bool, has_netconfig: bool) -> NextStep {
    if dry_run {
        NextStep::LogOnly
    } else if has_netconfig {
        NextStep::MergeThenWrite
    } else {
        NextStep::Write
    }
}

/// Decides what is to be done with an assembled state.
pub fn next_step(settings: &MigrationSettings, netconfig: &Option<Netconfig>) -> (r: NextStep)
    ensures
        r == step_after(settings.dry_run, netconfig.is_some()),
{
    if settings.dry_run {
        NextStep::LogOnly
    } else if netconfig.is_some() {
        NextStep::MergeThenWrite
    } else {
        NextStep::Write
    }
}

/// The connections of the assembled state beside the warnings of the run,
/// or the failure: of the mapping, else of the resolution, else of the
/// assembly. The interface at position `i` is mapped under `uuids[i]`.
pub open spec fn built(
    raws: Seq<InterfaceView>,
    policy: Option<NetconfigDhcp>,
    continue_migration: bool,
    uuids: Seq<u128>,
) -> Result<(Seq<ConnectionView>, Seq<Seq<char>>), MigrateErrorView> {
    match collect_failure(raws, continue_migration) {
        Some(e) => Err(e),
        None => {
            let c = collected(raws, policy, uuids);
            let resolved = resolve(c.connections, c.parents, continue_migration);
            match resolved.1 {
                Some(e) => Err(of_resolve_error(e)),
                None => match assembled(resolved.0) {
                    Err(id) => Err(MigrateErrorView::ConnectionExists { id }),
                    Ok(all) => Ok(
                        (all, c.warnings + orphan_warnings(orphans(c.connections, c.parents))),
                    ),
                },
            }
        },
    }
}

/// An assembled state, the warnings that were passed over on the way to it,
/// and what is to be done with it.
#[derive(Debug)]
pub struct Migration {
    pub state: NetworkState,
    pub warnings: Vec<String>,
    pub next: NextStep,
}

/// Whether a migration that returned `r` did what `built` says under the
/// given uuids, and chose `next` as the step to follow.
pub open spec fn migration_is(
    raws: Seq<InterfaceView>,
    policy: Option<NetconfigDhcp>,
    continue_migration: bool,
    uuids: Seq<u128>,
    next: NextStep,
    r: Result<Migration, MigrateError>,
) -> bool {
    match r {
        Ok(m) => m.state.wf() && m.next == next && built(raws, policy, continue_migration, uuids)
            == Ok::<(Seq<ConnectionView>, Seq<Seq<char>>), MigrateErrorView>(
            (m.state@, texts(m.warnings@)),
        ),
        Err(e) => built(raws, policy, continue_migration, uuids) == Err::<
            (Seq<ConnectionView>, Seq<Seq<char>>),
            MigrateErrorView,
        >(e@),
    }
}

/// Migrates a batch of interfaces into a network state: maps each of them,
/// resolves the controllers once all are mapped, and assembles the state.
/// Nothing is written: the result says which step follows.
pub fn migrate(
    interfaces: &Vec<Interface>,
    netconfig: &Option<Netconfig>,
    netconfig_dhcp: &Option<NetconfigDhcp>,
    settings: &MigrationSettings,
) -> (r: Result<Migration, MigrateError>)
    ensures
        exists|uuids: Seq<u128>|
            uuids.len() == interfaces.len() && migration_is(
                interface_views(interfaces@),
                *netconfig_dhcp,
                settings.continue_migration,
                uuids,
                step_after(settings.dry_run, netconfig.is_some()),
                r,
            ),
{
    let ghost raws = interface_views(interfaces@);
    let ghost next = step_after(settings.dry_run, netconfig.is_some());
    let collected = match collect_connections(
        interfaces,
        netconfig_dhcp,
        settings.continue_migration,
    ) {
        Ok(c) => c,
        Err(e) => {
            let r = Err(e);
            proof {
                let uuids = Seq::new(interfaces.len() as nat, |i: int| 0u128);
                assert(uuids.len() == interfaces.len());
                assert(migration_is(
                    raws,
                    *netconfig_dhcp,
                    settings.continue_migration,
                    uuids,
                    next,
                    r,
                ));
            }
            return r;
        },
    };
    let ghost uuids = choose|uuids: Seq<u128>|
        uuids.len() == interfaces.len() && collected@ == self::collected(
            raws,
            *netconfig_dhcp,
            uuids,
        );
    let ghost c = collected@;
    let Collected { connections, parents, warnings } = collected;
    let mut connections = connections;
    let mut warnings = warnings;
    let skipped = match update_parent_connection(
        &mut connections,
        &parents,
        settings.continue_migration,
    ) {
        Ok(skipped) => skipped,
        Err(e) => {
            let r = Err(MigrateError::from_resolve(e));
            assert(migration_is(
                raws,
                *netconfig_dhcp,
                settings.continue_migration,
                uuids,
                next,
                r,
            ));
            return r;
        },
    };
    let mut more = missing_parent_warnings(&skipped);
    let ghost first = texts(warnings@);
    let ghost second = texts(more@);
    warnings.append(&mut more);
    assert(texts(warnings@) =~= first + second);
    let r = match assemble(&connections) {
        Ok(state) => Ok(Migration { state, warnings, next: next_step(settings, netconfig) }),
        Err(e) => Err(MigrateError::from_state(e)),
    };
    assert(migration_is(raws, *netconfig_dhcp, settings.continue_migration, uuids, next, r));
    r
}

/// The warnings of a merge: one about the nameserver entry that was passed
/// over, if one was.
pub open spec fn merge_warnings(skipped: Option<Seq<char>>) -> Seq<Seq<char>> {
    match skipped {
        Some(entry) => seq![nameserver_message(entry)],
        None => seq![],
    }
}

/// Whether the merge stage, started from `before` with the loopback `base`,
/// returned `r` and left `after` as the merge of the DNS policy says.
pub open spec fn merge_stage_is(
    netconfig: crate::policy::NetconfigView,
    before: Seq<ConnectionView>,
    base: ConnectionView,
    continue_migration: bool,
    r: Result<Vec<String>, MigrateError>,
    after: Seq<ConnectionView>,
) -> bool {
    match merge_outcome(netconfig, before, base, continue_migration) {
        Ok(done) => r.is_ok() && after == done.0 && texts(r->Ok_0@) == merge_warnings(done.1),
        Err(e) => r.is_err() && after == before && r->Err_0@ == of_merge_error(e),
    }
}

/// The merge stage of a run that writes: merges the DNS policy into the
/// assembled state, starting from the loopback of the running system where
/// it has one. Hands back the warnings that were passed over.
pub fn merge_netconfig(
    netconfig: &Netconfig,
    state: &mut NetworkState,
    current_loopback: Option<Connection>,
    settings: &MigrationSettings,
) -> (r: Result<Vec<String>, MigrateError>)
    requires
        old(state).wf(),
    ensures
        final(state).wf(),
        final(state).general_state == old(state).general_state,
        match current_loopback {
            Some(lo) => merge_stage_is(
                netconfig@,
                old(state)@,
                lo@,
                settings.continue_migration,
                r,
                final(state)@,
            ),
            None => exists|uuid: u128|
                merge_stage_is(
                    netconfig@,
                    old(state)@,
                    canonical_loopback(uuid),
                    settings.continue_migration,
                    r,
                    final(state)@,
                ),
        },
{
    let ghost before = state@;
    let ghost given: Option<ConnectionView> = if current_loopback.is_some() {
        Some(current_loopback->Some_0@)
    } else {
        None
    };
    let merged = merge_dns(netconfig, state, current_loopback, settings.continue_migration);
    let ghost base = match given {
        Some(lo) => lo,
        None => canonical_loopback(
            choose|uuid: u128|
                merge_is(
                    netconfig@,
                    before,
                    canonical_loopback(uuid),
                    settings.continue_migration,
                    merged,
                    state@,
                ),
        ),
    };
    assert(merge_is(netconfig@, before, base, settings.continue_migration, merged, state@));
    let r = match merged {
        Ok(skipped) => {
            let mut warnings: Vec<String> = Vec::new();
            match skipped {
                Some(entry) => {
                    warnings.push(nameserver_warning(entry.as_str()));
                },
                None => {},
            }
            assert(texts(warnings@) =~= merge_warnings(crate::text::opt_text(skipped)));
            Ok(warnings)
        },
        Err(e) => Err(MigrateError::from_merge(e)),
    };
    assert(merge_stage_is(netconfig@, before, base, settings.continue_migration, r, state@));
    r
}

/// The warning of the reader as a list of warnings.
pub open spec fn read_warnings(warning: Option<Seq<char>>) -> Seq<Seq<char>> {
    match warning {
        Some(w) => seq![w],
        None => seq![],
    }
}

/// What a run yields from what the reader gave: a failure to read or parse
/// fails it at once; unhandled fields fail a strict run; anything else goes
/// on to the migration, and the warning of the reader comes first among
/// the warnings of the run.
pub open spec fn run_outcome(
    read: Result<InterfacesResultView, Seq<char>>,
    continue_migration: bool,
    uuids: Seq<u128>,
) -> Result<(Seq<ConnectionView>, Seq<Seq<char>>), MigrateErrorView> {
    match read {
        Err(detail) => Err(MigrateErrorView::Parse { detail }),
        Ok(result) => if result.warning.is_some() && !continue_migration {
            Err(MigrateErrorView::UnhandledFields { warning: result.warning.unwrap() })
        } else {
            match built(result.interfaces, result.netconfig_dhcp, continue_migration, uuids) {
                Ok(done) => Ok((done.0, read_warnings(result.warning) + done.1)),
                Err(e) => Err(e),
            }
        },
    }
}

/// The view of what a reader gave.
pub open spec fn read_view(read: Result<InterfacesResult, String>) -> Result<
    InterfacesResultView,
    Seq<char>,
> {
    match read {
        Ok(result) => Ok(result@),
        Err(detail) => Err(detail@),
    }
}

/// Whether a run that returned `r` did what `run_outcome` says under the
/// given uuids, one for each interface that was read.
pub open spec fn run_is(
    read: Result<InterfacesResultView, Seq<char>>,
    settings: MigrationSettings,
    uuids: Seq<u128>,
    r: Result<Migration, MigrateError>,
) -> bool {
    &&& read.is_ok() ==> uuids.len() == read->Ok_0.interfaces.len()
    &&& match r {
        Ok(m) => m.state.wf() && run_outcome(read, settings.continue_migration, uuids) == Ok::<
            (Seq<ConnectionView>, Seq<Seq<char>>),
            MigrateErrorView,
        >((m.state@, texts(m.warnings@))) && read.is_ok() && m.next == step_after(
            settings.dry_run,
            read->Ok_0.netconfig.is_some(),
        ),
        Err(e) => run_outcome(read, settings.continue_migration, uuids) == Err::<
            (Seq<ConnectionView>, Seq<Seq<char>>),
            MigrateErrorView,
        >(e@),
    }
}

/// A run from the parse stage on: takes what the reader gave, or the words
/// with which it failed, and migrates the interfaces. Documents that could
/// not be parsed fail the run before any interface is mapped.
pub fn migrate_read(read: &Result<InterfacesResult, String>, settings: &MigrationSettings) -> (r:
    Result<Migration, MigrateError>)
    ensures
        read.is_err() ==> r.is_err() && r->Err_0@ == (MigrateErrorView::Parse {
            detail: read->Err_0@,
        }),
        exists|uuids: Seq<u128>| run_is(read_view(*read), *settings, uuids, r),
{
    match read {
        Err(detail) => {
            let r = Err(MigrateError::Parse { detail: detail.clone() });
            assert(run_is(read_view(*read), *settings, Seq::<u128>::empty(), r));
            r
        },
        Ok(result) => {
            let mut first: Vec<String> = Vec::new();
            match &result.warning {
                Some(warning) => {
                    if !settings.continue_migration {
                        let r = Err(MigrateError::UnhandledFields { warning: warning.clone() });
                        proof {
                            let uuids = Seq::new(result.interfaces.len() as nat, |i: int| 0u128);
                            assert(uuids.len() == result.interfaces.len());
                            assert(run_is(read_view(*read), *settings, uuids, r));
                        }
                        return r;
                    }
                    first.push(warning.clone());
                },
                None => {},
            }
            assert(texts(first@) =~= read_warnings(result@.warning));
            let migrated = migrate(
                &result.interfaces,
                &result.netconfig,
                &result.netconfig_dhcp,
                settings,
            );
            let ghost uuids = choose|uuids: Seq<u128>|
                uuids.len() == result.interfaces.len() && migration_is(
                    interface_views(result.interfaces@),
                    result.netconfig_dhcp,
                    settings.continue_migration,
                    uuids,
                    step_after(settings.dry_run, result.netconfig.is_some()),
                    migrated,
                );
            let r = match migrated {
                Ok(m) => {
                    let Migration { state, warnings, next } = m;
                    let mut warnings = warnings;
                    let ghost head = texts(first@);
                    let ghost tail = texts(warnings@);
                    first.append(&mut warnings);
                    assert(texts(first@) =~= head + tail);
                    Ok(Migration { state, warnings: first, next })
                },
                Err(e) => Err(e),
            };
            assert(run_is(read_view(*read), *settings, uuids, r));
            r
        },
    }
}

} // verus!
