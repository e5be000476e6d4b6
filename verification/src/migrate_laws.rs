//! What a whole migration guarantees about controllers, stated of the
//! interfaces that went in.

use vstd::prelude::*;
use crate::interface::InterfaceView;
use crate::mapper::{map_failure, mapped_connection};
use crate::migrate::{built, collected, CollectedView};
use crate::model::ConnectionView;
use crate::policy::NetconfigDhcp;
use crate::resolve::{children, distinct_children, first_with_id, first_with_interface,
    ids, inserted, interfaces, recorded, resolve};
use crate::resolve_laws::{law_absent_parent, law_present_parent_is_controller, lemma_attach};
use crate::search::{first_index, lemma_first_index, lemma_first_index_absent,
    lemma_first_index_found};
use crate::state::{assembled, distinct_ids, repeats};

verus! {

/// No two interfaces have the same name.
pub open spec fn distinct_names(raws: Seq<InterfaceView>) -> bool {
    forall|a: int, b: int| 0 <= a < b < raws.len() ==> raws[a].name != raws[b].name
}

/// Some interface has this name.
pub open spec fn has_name(raws: Seq<InterfaceView>, name: Seq<char>) -> bool {
    exists|m: int| 0 <= m < raws.len() && raws[m].name == name
}

/// The list holds this connection.
pub open spec fn holds_connection(conns: Seq<ConnectionView>, c: ConnectionView) -> bool {
    exists|x: int| 0 <= x < conns.len() && conns[x] == c
}

/// Some connection of the list has this id.
pub open spec fn holds_id(conns: Seq<ConnectionView>, id: Seq<char>) -> bool {
    exists|x: int| 0 <= x < conns.len() && conns[x].id == id
}

/// The list holds this pair.
pub open spec fn holds_pair(
    pairs: Seq<(Seq<char>, Seq<char>)>,
    pair: (Seq<char>, Seq<char>),
) -> bool {
    exists|p: int| 0 <= p < pairs.len() && pairs[p] == pair
}

/// Every connection carries the name of some interface as its id, is bound
/// to the interface of that name, and has no controller.
pub open spec fn named_after(raws: Seq<InterfaceView>, conns: Seq<ConnectionView>) -> bool {
    forall|x: int|
        0 <= x < conns.len() ==> has_name(raws, (#[trigger] conns[x]).id) && conns[x].interface
            == Some(conns[x].id) && conns[x].controller.is_none()
}

/// The child of every pair has a connection.
pub open spec fn children_carried(
    conns: Seq<ConnectionView>,
    pairs: Seq<(Seq<char>, Seq<char>)>,
) -> bool {
    forall|p: int| 0 <= p < pairs.len() ==> holds_id(conns, (#[trigger] pairs[p]).0)
}

/// What the mapping of a batch with distinct names has collected: a
/// connection for every interface that maps, under the name of the interface
/// as id and as interface, and a pair for every such interface that names a
/// controlling interface.
pub open spec fn well_collected(
    raws: Seq<InterfaceView>,
    policy: Option<NetconfigDhcp>,
    uuids: Seq<u128>,
    c: CollectedView,
) -> bool {
    &&& distinct_ids(c.connections)
    &&& distinct_children(c.parents)
    &&& named_after(raws, c.connections)
    &&& children_carried(c.connections, c.parents)
    &&& forall|m: int|
        0 <= m < raws.len() && map_failure(#[trigger] raws[m]).is_none() ==> holds_connection(
            c.connections,
            mapped_connection(raws[m], policy, uuids[m]),
        )
    &&& forall|m: int|
        0 <= m < raws.len() && map_failure(#[trigger] raws[m]).is_none()
            && raws[m].master.is_some() ==> holds_pair(
            c.parents,
            (raws[m].name, raws[m].master.unwrap()),
        )
}

/// A name of a shorter batch is a name of the batch.
proof fn lemma_name_stays(raws: Seq<InterfaceView>, name: Seq<char>)
    requires
        raws.len() > 0,
        has_name(raws.drop_last(), name),
    ensures
        has_name(raws, name),
{
    let init = raws.drop_last();
    let m = choose|m: int| 0 <= m < init.len() && init[m].name == name;
    assert(raws[m].name == name);
}

/// Among distinct names, that of the last interface is no name of the others.
proof fn lemma_last_name_is_new(raws: Seq<InterfaceView>, name: Seq<char>)
    requires
        raws.len() > 0,
        distinct_names(raws),
        has_name(raws.drop_last(), name),
    ensures
        name != raws.last().name,
{
    let init = raws.drop_last();
    let m = choose|m: int| 0 <= m < init.len() && init[m].name == name;
    assert(raws[m].name != raws[raws.len() - 1].name);
}

/// Distinct names stay distinct without the last interface.
proof fn lemma_names_stay_distinct(raws: Seq<InterfaceView>)
    requires
        raws.len() > 0,
        distinct_names(raws),
    ensures
        distinct_names(raws.drop_last()),
{
    let init = raws.drop_last();
    assert forall|a: int, b: int| 0 <= a < b < init.len() implies init[a].name
        != init[b].name by {
        assert(init[a] == raws[a] && init[b] == raws[b]);
    }
}

/// The connections of a batch are named after its interfaces.
proof fn lemma_named_after(
    raws: Seq<InterfaceView>,
    policy: Option<NetconfigDhcp>,
    uuids: Seq<u128>,
)
    ensures
        named_after(raws, collected(raws, policy, uuids).connections),
    decreases raws.len(),
{
    if raws.len() > 0 {
        let init = raws.drop_last();
        let last = raws.last();
        lemma_named_after(init, policy, uuids);
        let before = collected(init, policy, uuids).connections;
        let after = collected(raws, policy, uuids).connections;
        assert forall|x: int| 0 <= x < after.len() implies has_name(
            raws,
            (#[trigger] after[x]).id,
        ) && after[x].interface == Some(after[x].id) && after[x].controller.is_none() by {
            if x < before.len() {
                assert(after[x] == before[x]);
                lemma_name_stays(raws, before[x].id);
            } else {
                assert(raws[raws.len() - 1].name == after[x].id);
            }
        }
    }
}

/// Interfaces with distinct names give connections with distinct ids.
proof fn lemma_ids_distinct(
    raws: Seq<InterfaceView>,
    policy: Option<NetconfigDhcp>,
    uuids: Seq<u128>,
)
    requires
        distinct_names(raws),
    ensures
        distinct_ids(collected(raws, policy, uuids).connections),
    decreases raws.len(),
{
    if raws.len() > 0 {
        let init = raws.drop_last();
        lemma_names_stay_distinct(raws);
        lemma_ids_distinct(init, policy, uuids);
        lemma_named_after(init, policy, uuids);
        let before = collected(init, policy, uuids).connections;
        let after = collected(raws, policy, uuids).connections;
        assert forall|a: int, b: int| 0 <= a < b < after.len() implies after[a].id
            != after[b].id by {
            assert(after[a] == before[a]);
            if b < before.len() {
                assert(after[b] == before[b]);
            } else {
                lemma_last_name_is_new(raws, before[a].id);
            }
        }
    }
}

/// The connection of an interface that maps is among the connections.
proof fn lemma_connection_held(
    raws: Seq<InterfaceView>,
    policy: Option<NetconfigDhcp>,
    uuids: Seq<u128>,
    m: int,
)
    requires
        0 <= m < raws.len(),
        map_failure(raws[m]).is_none(),
    ensures
        holds_connection(
            collected(raws, policy, uuids).connections,
            mapped_connection(raws[m], policy, uuids[m]),
        ),
    decreases raws.len(),
{
    let init = raws.drop_last();
    let before = collected(init, policy, uuids).connections;
    let after = collected(raws, policy, uuids).connections;
    let wanted = mapped_connection(raws[m], policy, uuids[m]);
    if m == raws.len() - 1 {
        assert(after[before.len() as int] == wanted);
    } else {
        assert(init[m] == raws[m]);
        lemma_connection_held(init, policy, uuids, m);
        let x = choose|x: int| 0 <= x < before.len() && before[x] == wanted;
        assert(after[x] == wanted);
    }
}

/// Recording a pair keeps the children distinct.
proof fn lemma_inserted_distinct(
    pairs: Seq<(Seq<char>, Seq<char>)>,
    child: Seq<char>,
    parent: Seq<char>,
)
    requires
        distinct_children(pairs),
    ensures
        distinct_children(inserted(pairs, child, parent)),
{
    let after = inserted(pairs, child, parent);
    lemma_first_index(children(pairs), child);
    match first_index(children(pairs), child) {
        Some(k) => {
            assert(children(pairs)[k] == child);
            assert forall|a: int, b: int| 0 <= a < b < after.len() implies after[a].0
                != after[b].0 by {
                assert(after[a].0 == pairs[a].0);
                assert(after[b].0 == pairs[b].0);
            }
        },
        None => {
            assert forall|a: int, b: int| 0 <= a < b < after.len() implies after[a].0
                != after[b].0 by {
                assert(after[a] == pairs[a]);
                if b < pairs.len() {
                    assert(after[b] == pairs[b]);
                } else {
                    assert(children(pairs)[a] != child);
                }
            }
        },
    }
}

/// The children of the pairs of a batch are distinct.
proof fn lemma_children_distinct(
    raws: Seq<InterfaceView>,
    policy: Option<NetconfigDhcp>,
    uuids: Seq<u128>,
)
    ensures
        distinct_children(collected(raws, policy, uuids).parents),
    decreases raws.len(),
{
    if raws.len() > 0 {
        let init = raws.drop_last();
        let last = raws.last();
        lemma_children_distinct(init, policy, uuids);
        if map_failure(last).is_none() && last.master.is_some() {
            lemma_inserted_distinct(
                collected(init, policy, uuids).parents,
                last.name,
                last.master.unwrap(),
            );
        }
    }
}

/// The child of every pair of a batch has a connection.
proof fn lemma_children_carried(
    raws: Seq<InterfaceView>,
    policy: Option<NetconfigDhcp>,
    uuids: Seq<u128>,
)
    ensures
        children_carried(
            collected(raws, policy, uuids).connections,
            collected(raws, policy, uuids).parents,
        ),
    decreases raws.len(),
{
    if raws.len() > 0 {
        let init = raws.drop_last();
        let last = raws.last();
        lemma_children_carried(init, policy, uuids);
        let before = collected(init, policy, uuids);
        let after = collected(raws, policy, uuids);
        if map_failure(last).is_none() {
            let made = mapped_connection(last, policy, uuids[raws.len() - 1]);
            assert(after.connections == before.connections.push(made));
            lemma_first_index(children(before.parents), last.name);
            assert forall|p: int| 0 <= p < after.parents.len() implies holds_id(
                after.connections,
                (#[trigger] after.parents[p]).0,
            ) by {
                if p < before.parents.len() && after.parents[p].0 == before.parents[p].0 {
                    let x = choose|x: int|
                        0 <= x < before.connections.len() && before.connections[x].id
                            == before.parents[p].0;
                    assert(after.connections[x].id == after.parents[p].0);
                } else {
                    assert(after.parents[p].0 == last.name);
                    assert(after.connections[before.connections.len() as int].id == last.name);
                }
            }
        }
    }
}

/// The pair of an interface that maps and names a master is among the pairs.
proof fn lemma_pair_held(
    raws: Seq<InterfaceView>,
    policy: Option<NetconfigDhcp>,
    uuids: Seq<u128>,
    m: int,
)
    requires
        distinct_names(raws),
        0 <= m < raws.len(),
        map_failure(raws[m]).is_none(),
        raws[m].master.is_some(),
    ensures
        holds_pair(
            collected(raws, policy, uuids).parents,
            (raws[m].name, raws[m].master.unwrap()),
        ),
    decreases raws.len(),
{
    let init = raws.drop_last();
    let last = raws.last();
    let before = collected(init, policy, uuids).parents;
    let after = collected(raws, policy, uuids).parents;
    let wanted = (raws[m].name, raws[m].master.unwrap());
    if m == raws.len() - 1 {
        lemma_first_index(children(before), last.name);
        match first_index(children(before), last.name) {
            Some(k) => {
                assert(after[k] == wanted);
            },
            None => {
                assert(after[before.len() as int] == wanted);
            },
        }
    } else {
        assert(init[m] == raws[m]);
        lemma_names_stay_distinct(raws);
        lemma_pair_held(init, policy, uuids, m);
        let p = choose|p: int| 0 <= p < before.len() && before[p] == wanted;
        if map_failure(last).is_none() && last.master.is_some() {
            assert(raws[m].name != raws[raws.len() - 1].name);
            lemma_first_index(children(before), last.name);
            match first_index(children(before), last.name) {
                Some(k) => {
                    assert(children(before)[k] == last.name);
                    assert(k != p);
                    assert(after[p] == wanted);
                },
                None => {
                    assert(after[p] == wanted);
                },
            }
        } else {
            assert(after[p] == wanted);
        }
    }
}

/// The mapping of a batch with distinct names is well collected.
pub proof fn lemma_well_collected(
    raws: Seq<InterfaceView>,
    policy: Option<NetconfigDhcp>,
    uuids: Seq<u128>,
)
    requires
        distinct_names(raws),
    ensures
        well_collected(raws, policy, uuids, collected(raws, policy, uuids)),
{
    let c = collected(raws, policy, uuids);
    lemma_ids_distinct(raws, policy, uuids);
    lemma_children_distinct(raws, policy, uuids);
    lemma_named_after(raws, policy, uuids);
    lemma_children_carried(raws, policy, uuids);
    assert forall|m: int|
        0 <= m < raws.len() && map_failure(#[trigger] raws[m]).is_none() implies holds_connection(
        c.connections,
        mapped_connection(raws[m], policy, uuids[m]),
    ) by {
        lemma_connection_held(raws, policy, uuids, m);
    }
    assert forall|m: int|
        0 <= m < raws.len() && map_failure(#[trigger] raws[m]).is_none()
            && raws[m].master.is_some() implies holds_pair(
        c.parents,
        (raws[m].name, raws[m].master.unwrap()),
    ) by {
        lemma_pair_held(raws, policy, uuids, m);
    }
}

/// Connections with distinct ids are assembled as they are.
pub proof fn lemma_distinct_assembles(conns: Seq<ConnectionView>)
    requires
        distinct_ids(conns),
    ensures
        assembled(conns) == Ok::<Seq<ConnectionView>, Seq<char>>(conns),
{
    let flags = repeats(conns);
    assert forall|j: int| 0 <= j < flags.len() implies flags[j] != true by {
        let early = conns.take(j);
        if first_with_id(early, conns[j].id).is_some() {
            lemma_first_index(ids(early), conns[j].id);
            let k = first_with_id(early, conns[j].id).unwrap();
            assert(ids(early)[k] == conns[j].id);
            assert(early[k] == conns[k]);
        }
    }
    lemma_first_index_absent(flags, true);
}

/// Resolution changes controllers only: ids and interfaces stay as they
/// are, at their places.
pub proof fn lemma_resolve_keeps(
    conns: Seq<ConnectionView>,
    pairs: Seq<(Seq<char>, Seq<char>)>,
    continue_migration: bool,
)
    ensures
        ids(resolve(conns, pairs, continue_migration).0) == ids(conns),
        interfaces(resolve(conns, pairs, continue_migration).0) == interfaces(conns),
        distinct_ids(conns) ==> distinct_ids(resolve(conns, pairs, continue_migration).0),
{
    let out = resolve(conns, pairs, continue_migration).0;
    lemma_attach(conns, recorded(conns, pairs));
    assert forall|x: int| 0 <= x < conns.len() implies out[x].id == conns[x].id
        && out[x].interface == conns[x].interface by {
        assert(out[x].with_controller(conns[x].controller) == conns[x]);
    }
    assert(ids(out) =~= ids(conns));
    assert(interfaces(out) =~= interfaces(conns));
    if distinct_ids(conns) {
        assert forall|a: int, b: int| 0 <= a < b < out.len() implies out[a].id != out[b].id by {
            assert(out[a].id == conns[a].id && out[b].id == conns[b].id);
        }
    }
}

/// Among distinct ids, a connection is the first of its id.
pub proof fn lemma_only_id(conns: Seq<ConnectionView>, x: int)
    requires
        distinct_ids(conns),
        0 <= x < conns.len(),
    ensures
        first_with_id(conns, conns[x].id) == Some(x),
{
    assert forall|y: int| 0 <= y < x implies ids(conns)[y] != conns[x].id by {
        assert(conns[y].id != conns[x].id);
    }
    assert(ids(conns)[x] == conns[x].id);
    lemma_first_index_found(ids(conns), conns[x].id, x);
}

/// Among distinct ids, a connection that is bound to the interface of its
/// id is the first that is bound to it, if every connection is bound so.
pub proof fn lemma_only_interface(raws: Seq<InterfaceView>, conns: Seq<ConnectionView>, x: int)
    requires
        distinct_ids(conns),
        named_after(raws, conns),
        0 <= x < conns.len(),
    ensures
        first_with_interface(conns, conns[x].id) == Some(x),
{
    assert forall|y: int| 0 <= y < x implies interfaces(conns)[y] != Some(conns[x].id) by {
        assert(conns[y].interface == Some(conns[y].id));
        assert(conns[y].id != conns[x].id);
    }
    assert(interfaces(conns)[x] == Some(conns[x].id));
    lemma_first_index_found(interfaces(conns), Some(conns[x].id), x);
}

/// A master within the batch. Let the interfaces have distinct names, let
/// the interface at `i` name the interface at `j` as its master, let both be
/// mapped, and let the migration succeed. Then the state holds exactly one
/// connection with the name of `i` as its id, and the controller of that
/// connection is the uuid under which `j` was mapped, which is the uuid of the
/// one connection of the state that is bound to the interface of `j`.
pub proof fn law_master_in_batch(
    raws: Seq<InterfaceView>,
    policy: Option<NetconfigDhcp>,
    continue_migration: bool,
    uuids: Seq<u128>,
    i: int,
    j: int,
)
    requires
        distinct_names(raws),
        uuids.len() == raws.len(),
        0 <= i < raws.len(),
        0 <= j < raws.len(),
        raws[i].master == Some(raws[j].name),
        map_failure(raws[i]).is_none(),
        map_failure(raws[j]).is_none(),
        built(raws, policy, continue_migration, uuids).is_ok(),
    ensures
        ({
            let out = built(raws, policy, continue_migration, uuids)->Ok_0.0;
            &&& distinct_ids(out)
            &&& first_with_id(out, raws[i].name).is_some()
            &&& first_with_interface(out, raws[j].name).is_some()
            &&& out[first_with_interface(out, raws[j].name).unwrap()].uuid == uuids[j]
            &&& forall|x: int|
                0 <= x < out.len() && (#[trigger] out[x]).id == raws[i].name ==> out[x].controller
                    == Some(uuids[j])
        }),
{
    let c = collected(raws, policy, uuids);
    let conns = c.connections;
    lemma_well_collected(raws, policy, uuids);
    let out = resolve(conns, c.parents, continue_migration).0;
    lemma_resolve_keeps(conns, c.parents, continue_migration);
    lemma_distinct_assembles(out);
    assert(built(raws, policy, continue_migration, uuids)->Ok_0.0 == out);
    // where the two connections and their pair stand
    let child = mapped_connection(raws[i], policy, uuids[i]);
    let parent = mapped_connection(raws[j], policy, uuids[j]);
    let xi = choose|x: int| 0 <= x < conns.len() && conns[x] == child;
    let xj = choose|x: int| 0 <= x < conns.len() && conns[x] == parent;
    let p = choose|p: int|
        0 <= p < c.parents.len() && c.parents[p] == (raws[i].name, raws[j].name);
    lemma_only_id(conns, xi);
    lemma_only_interface(raws, conns, xj);
    law_present_parent_is_controller(conns, c.parents, continue_migration, p);
    assert(out[xi].controller == Some(uuids[j]));
    assert forall|x: int| 0 <= x < out.len() && (#[trigger] out[x]).id
        == raws[i].name implies out[x].controller == Some(uuids[j]) by {
        assert(ids(out)[x] == raws[i].name && ids(out)[xi] == raws[i].name);
        if x < xi {
            assert(out[x].id != out[xi].id);
        } else if xi < x {
            assert(out[xi].id != out[x].id);
        }
    }
}

/// A master outside the batch. Let the interfaces have distinct names and
/// let the interface at `i`, which is mapped, name a master that no interface
/// of the batch has as its name. Then a strict migration fails; a migration
/// in continue mode succeeds, and the connection of `i` is part of its state,
/// without a controller.
pub proof fn law_master_outside_batch(
    raws: Seq<InterfaceView>,
    policy: Option<NetconfigDhcp>,
    uuids: Seq<u128>,
    i: int,
)
    requires
        distinct_names(raws),
        uuids.len() == raws.len(),
        0 <= i < raws.len(),
        raws[i].master.is_some(),
        !has_name(raws, raws[i].master.unwrap()),
        map_failure(raws[i]).is_none(),
    ensures
        built(raws, policy, false, uuids).is_err(),
        built(raws, policy, true, uuids).is_ok(),
        ({
            let out = built(raws, policy, true, uuids)->Ok_0.0;
            &&& holds_id(out, raws[i].name)
            &&& forall|x: int|
                0 <= x < out.len() && (#[trigger] out[x]).id == raws[i].name
                    ==> out[x].controller.is_none()
        }),
{
    let c = collected(raws, policy, uuids);
    lemma_well_collected(raws, policy, uuids);
    let conns = c.connections;
    let master = raws[i].master.unwrap();
    let p = choose|p: int| 0 <= p < c.parents.len() && c.parents[p] == (raws[i].name, master);
    // no connection is bound to the master
    assert forall|x: int| 0 <= x < conns.len() implies interfaces(conns)[x] != Some(master) by {
        assert(has_name(raws, conns[x].id));
    }
    lemma_first_index_absent(interfaces(conns), Some(master));
    // every child has its connection
    assert forall|q: int| 0 <= q < c.parents.len() implies first_with_id(
        conns,
        #[trigger] c.parents[q].0,
    ).is_some() by {
        let x = choose|x: int| 0 <= x < conns.len() && conns[x].id == c.parents[q].0;
        lemma_only_id(conns, x);
    }
    law_absent_parent(conns, c.parents, p);
    // the run in continue mode
    let out = resolve(conns, c.parents, true).0;
    lemma_resolve_keeps(conns, c.parents, true);
    lemma_distinct_assembles(out);
    assert(built(raws, policy, true, uuids)->Ok_0.0 == out);
    let child = mapped_connection(raws[i], policy, uuids[i]);
    let xi = choose|x: int| 0 <= x < conns.len() && conns[x] == child;
    assert(ids(out)[xi] == ids(conns)[xi]);
    assert(out[xi].id == raws[i].name);
    assert forall|x: int| 0 <= x < out.len() && (#[trigger] out[x]).id
        == raws[i].name implies out[x].controller.is_none() by {
        assert(ids(out)[x] == ids(conns)[x]);
        assert(conns[x].id == c.parents[p].0);
        assert(resolve(conns, c.parents, true).0[x] == conns[x]);
    }
}

} // verus!
