//! What resolution guarantees about the controller of each connection.

use vstd::prelude::*;
use crate::model::ConnectionView;
use crate::resolve::{attach, distinct_children, first_missing, first_with_id,
    first_with_interface, ids, parent_present, recorded, resolve, ResolveErrorView};
use crate::search::{first_index, lemma_first_index};

verus! {

/// The uuid that the last pair for `id` carries.
pub open spec fn assigned(found: Seq<(Seq<char>, u128)>, id: Seq<char>) -> Option<u128>
    decreases found.len(),
{
    if found.len() == 0 {
        None
    } else if found.last().0 == id {
        Some(found.last().1)
    } else {
        assigned(found.drop_last(), id)
    }
}

/// The controller that the connection at `c` has once every pair of `found`
/// is attached: the first connection of an id takes the uuid assigned to that
/// id, every other connection keeps what it had.
pub open spec fn controller_after(
    conns: Seq<ConnectionView>,
    found: Seq<(Seq<char>, u128)>,
    c: int,
) -> Option<u128> {
    if first_with_id(conns, conns[c].id) == Some(c) && assigned(found, conns[c].id).is_some() {
        assigned(found, conns[c].id)
    } else {
        conns[c].controller
    }
}

proof fn lemma_assigned_front(found: Seq<(Seq<char>, u128)>, id: Seq<char>)
    requires
        found.len() > 0,
    ensures
        assigned(found, id) == match assigned(found.drop_first(), id) {
            Some(u) => Some(u),
            None => if found[0].0 == id {
                Some(found[0].1)
            } else {
                None
            },
        },
    decreases found.len(),
{
    if found.len() == 1 {
        assert(found.drop_first().len() == 0);
        assert(found.drop_last().len() == 0);
        assert(found.last() == found[0]);
    } else {
        let tail = found.drop_first();
        assert(tail.last() == found.last());
        assert(tail.drop_last() =~= found.drop_last().drop_first());
        assert(found.drop_last()[0] == found[0]);
        if found.last().0 == id {
        } else {
            lemma_assigned_front(found.drop_last(), id);
        }
    }
}

/// Attaching changes controllers and nothing else, and sets each as
/// `controller_after` says, provided that every pair found its connection.
pub proof fn lemma_attach(conns: Seq<ConnectionView>, found: Seq<(Seq<char>, u128)>)
    ensures
        attach(conns, found).0.len() == conns.len(),
        forall|c: int|
            0 <= c < conns.len() ==> (#[trigger] attach(conns, found).0[c]).with_controller(
                conns[c].controller,
            ) == conns[c],
        attach(conns, found).1.is_none() ==> forall|c: int|
            0 <= c < conns.len() ==> (#[trigger] attach(conns, found).0[c]).controller
                == controller_after(conns, found, c),
    decreases found.len(),
{
    if found.len() == 0 {
    } else {
        match first_with_id(conns, found[0].0) {
            Some(c0) => {
                lemma_first_index(ids(conns), found[0].0);
                let next = conns.update(c0, conns[c0].with_controller(Some(found[0].1)));
                let rest = found.drop_first();
                assert(ids(next) =~= ids(conns));
                lemma_attach(next, rest);
                assert(attach(conns, found) == attach(next, rest));
                if attach(conns, found).1.is_none() {
                    assert forall|c: int| 0 <= c < conns.len() implies (#[trigger] attach(
                        conns,
                        found,
                    ).0[c]).controller == controller_after(conns, found, c) by {
                        lemma_assigned_front(found, conns[c].id);
                        assert(attach(next, rest).0[c].controller == controller_after(
                            next,
                            rest,
                            c,
                        ));
                        assert(next[c].id == conns[c].id);
                        if c == c0 {
                            assert(ids(conns)[c0] == found[0].0);
                        } else {
                            assert(next[c] == conns[c]);
                            if first_with_id(conns, conns[c].id) == Some(c) {
                                assert(conns[c].id != found[0].0);
                            }
                        }
                    }
                }
            },
            None => {},
        }
    }
}

/// Attaching succeeds when every child id is carried by some connection.
pub proof fn lemma_attach_succeeds(conns: Seq<ConnectionView>, found: Seq<(Seq<char>, u128)>)
    requires
        forall|j: int| 0 <= j < found.len() ==> first_with_id(conns, #[trigger] found[j].0).is_some(),
    ensures
        attach(conns, found).1.is_none(),
    decreases found.len(),
{
    if found.len() > 0 {
        let c0 = first_with_id(conns, found[0].0).unwrap();
        lemma_first_index(ids(conns), found[0].0);
        let next = conns.update(c0, conns[c0].with_controller(Some(found[0].1)));
        let rest = found.drop_first();
        assert(ids(next) =~= ids(conns));
        assert forall|j: int| 0 <= j < rest.len() implies first_with_id(
            next,
            #[trigger] rest[j].0,
        ).is_some() by {
            assert(rest[j] == found[j + 1]);
        }
        lemma_attach_succeeds(next, rest);
    }
}

/// Every recorded child id is the child id of some pair.
pub proof fn lemma_recorded_children(
    conns: Seq<ConnectionView>,
    pairs: Seq<(Seq<char>, Seq<char>)>,
)
    ensures
        forall|j: int|
            0 <= j < recorded(conns, pairs).len() ==> exists|k: int|
                0 <= k < pairs.len() && pairs[k].0 == (#[trigger] recorded(conns, pairs)[j]).0,
    decreases pairs.len(),
{
    if pairs.len() > 0 {
        let init = pairs.drop_last();
        lemma_recorded_children(conns, init);
        assert forall|j: int| 0 <= j < recorded(conns, pairs).len() implies exists|k: int|
            0 <= k < pairs.len() && pairs[k].0 == (#[trigger] recorded(conns, pairs)[j]).0 by {
            if j < recorded(conns, init).len() {
                let k = choose|k: int|
                    0 <= k < init.len() && init[k].0 == recorded(conns, init)[j].0;
                assert(pairs[k].0 == recorded(conns, pairs)[j].0);
            } else {
                assert(pairs[pairs.len() - 1].0 == recorded(conns, pairs)[j].0);
            }
        }
    }
}

/// A child id that no pair carries is assigned nothing.
proof fn lemma_unlisted_unassigned(
    conns: Seq<ConnectionView>,
    pairs: Seq<(Seq<char>, Seq<char>)>,
    id: Seq<char>,
)
    requires
        forall|j: int| 0 <= j < pairs.len() ==> pairs[j].0 != id,
    ensures
        assigned(recorded(conns, pairs), id).is_none(),
    decreases pairs.len(),
{
    if pairs.len() > 0 {
        let init = pairs.drop_last();
        assert forall|j: int| 0 <= j < init.len() implies init[j].0 != id by {
            assert(init[j] == pairs[j]);
        }
        lemma_unlisted_unassigned(conns, init, id);
        assert(pairs.last().0 != id);
        match first_with_interface(conns, pairs.last().1) {
            Some(p) => {
                let rest = recorded(conns, init);
                let all = rest.push((pairs.last().0, conns[p].uuid));
                assert(all.drop_last() =~= rest);
            },
            None => {},
        }
    }
}

/// With no child id twice, the uuid assigned to the child of pair `k` is that
/// of its parent, or nothing where the parent is missing.
pub proof fn lemma_assigned_of_pair(
    conns: Seq<ConnectionView>,
    pairs: Seq<(Seq<char>, Seq<char>)>,
    k: int,
)
    requires
        distinct_children(pairs),
        0 <= k < pairs.len(),
    ensures
        assigned(recorded(conns, pairs), pairs[k].0) == match first_with_interface(
            conns,
            pairs[k].1,
        ) {
            Some(p) => Some(conns[p].uuid),
            None => None,
        },
    decreases pairs.len(),
{
    let init = pairs.drop_last();
    let rest = recorded(conns, init);
    assert forall|i: int, j: int| 0 <= i < j < init.len() implies init[i].0 != init[j].0 by {
        assert(init[i] == pairs[i]);
        assert(init[j] == pairs[j]);
    }
    if k == pairs.len() - 1 {
        match first_with_interface(conns, pairs.last().1) {
            Some(p) => {},
            None => {
                assert forall|j: int| 0 <= j < init.len() implies init[j].0 != pairs[k].0 by {
                    assert(init[j] == pairs[j]);
                }
                lemma_unlisted_unassigned(conns, init, pairs[k].0);
            },
        }
    } else {
        assert(init[k] == pairs[k]);
        lemma_assigned_of_pair(conns, init, k);
        assert(pairs.last().0 != pairs[k].0);
        match first_with_interface(conns, pairs.last().1) {
            Some(p) => {
                let all = rest.push((pairs.last().0, conns[p].uuid));
                assert(all.drop_last() =~= rest);
            },
            None => {},
        }
    }
}

/// A parent that is present becomes the controller. Let no child id stand
/// twice among the pairs, let the interface that pair `k` wants be bound to a
/// connection, and let the resolution succeed. Then the child of pair `k` has
/// a connection, and the first connection of that id ends with the uuid of the
/// first connection bound to that interface as its controller. Ids, interfaces
/// and uuids are as they were.
pub proof fn law_present_parent_is_controller(
    conns: Seq<ConnectionView>,
    pairs: Seq<(Seq<char>, Seq<char>)>,
    continue_migration: bool,
    k: int,
)
    requires
        distinct_children(pairs),
        0 <= k < pairs.len(),
        first_with_interface(conns, pairs[k].1).is_some(),
        resolve(conns, pairs, continue_migration).1.is_none(),
    ensures
        first_with_id(conns, pairs[k].0).is_some(),
        ({
            let out = resolve(conns, pairs, continue_migration).0;
            let child = first_with_id(conns, pairs[k].0).unwrap();
            let parent = first_with_interface(conns, pairs[k].1).unwrap();
            &&& out.len() == conns.len()
            &&& 0 <= child < out.len()
            &&& 0 <= parent < out.len()
            &&& out[child].id == pairs[k].0
            &&& out[parent].interface == Some(pairs[k].1)
            &&& out[child].controller == Some(out[parent].uuid)
            &&& out[parent].uuid == conns[parent].uuid
        }),
{
    let found = recorded(conns, pairs);
    let out = attach(conns, found).0;
    assert(resolve(conns, pairs, continue_migration).0 == out);
    assert(attach(conns, found).1.is_none());
    lemma_attach(conns, found);
    lemma_assigned_of_pair(conns, pairs, k);
    let parent = first_with_interface(conns, pairs[k].1).unwrap();
    lemma_first_index(crate::resolve::interfaces(conns), Some(pairs[k].1));
    lemma_first_index(ids(conns), pairs[k].0);
    lemma_recorded_carried(conns, found, pairs[k].0);
    let child = first_with_id(conns, pairs[k].0).unwrap();
    assert(ids(conns)[child] == pairs[k].0);
    assert(out[child].with_controller(conns[child].controller) == conns[child]);
    assert(out[parent].with_controller(conns[parent].controller) == conns[parent]);
    assert(out[child].controller == controller_after(conns, found, child));
}

/// Where attaching succeeds, every id that is assigned a uuid is carried by
/// some connection.
proof fn lemma_recorded_carried(
    conns: Seq<ConnectionView>,
    found: Seq<(Seq<char>, u128)>,
    id: Seq<char>,
)
    requires
        attach(conns, found).1.is_none(),
        assigned(found, id).is_some(),
    ensures
        first_with_id(conns, id).is_some(),
    decreases found.len(),
{
    if found.len() > 0 {
        lemma_assigned_front(found, id);
        match first_with_id(conns, found[0].0) {
            Some(c0) => {
                lemma_first_index(ids(conns), found[0].0);
                let next = conns.update(c0, conns[c0].with_controller(Some(found[0].1)));
                assert(ids(next) =~= ids(conns));
                if assigned(found.drop_first(), id).is_some() {
                    lemma_recorded_carried(next, found.drop_first(), id);
                }
            },
            None => {},
        }
    }
}

/// A parent that is missing. Let no child id stand twice among the pairs and
/// let no connection be bound to the interface that pair `k` wants. In strict
/// mode the resolution fails for a missing parent and leaves every connection
/// as it was. In continue mode it succeeds if every child id is carried by a
/// connection, and whenever it succeeds each connection with the child id of
/// pair `k` keeps the controller it had.
pub proof fn law_absent_parent(
    conns: Seq<ConnectionView>,
    pairs: Seq<(Seq<char>, Seq<char>)>,
    k: int,
)
    requires
        distinct_children(pairs),
        0 <= k < pairs.len(),
        first_with_interface(conns, pairs[k].1).is_none(),
    ensures
        resolve(conns, pairs, false).0 == conns,
        resolve(conns, pairs, false).1 matches Some(ResolveErrorView::MissingParent { .. }),
        (forall|j: int| 0 <= j < pairs.len() ==> first_with_id(conns, #[trigger] pairs[j].0).is_some())
            ==> resolve(conns, pairs, true).1.is_none(),
        resolve(conns, pairs, true).1.is_none() ==> forall|c: int|
            0 <= c < conns.len() && conns[c].id == pairs[k].0 ==> (#[trigger] resolve(
                conns,
                pairs,
                true,
            ).0[c]) == conns[c],
{
    let present = parent_present(conns, pairs);
    assert(present[k] == false);
    if first_index(present, false).is_none() {
        lemma_first_index(present, false);
    }
    assert(first_missing(conns, pairs).is_some());
    let found = recorded(conns, pairs);
    lemma_attach(conns, found);
    lemma_assigned_of_pair(conns, pairs, k);
    if forall|j: int| 0 <= j < pairs.len() ==> first_with_id(conns, #[trigger] pairs[j].0).is_some() {
        lemma_recorded_children(conns, pairs);
        assert forall|j: int| 0 <= j < found.len() implies first_with_id(
            conns,
            #[trigger] found[j].0,
        ).is_some() by {
            let i = choose|i: int| 0 <= i < pairs.len() && pairs[i].0 == found[j].0;
            assert(first_with_id(conns, pairs[i].0).is_some());
        }
        lemma_attach_succeeds(conns, found);
    }
    if resolve(conns, pairs, true).1.is_none() {
        let out = attach(conns, found).0;
        assert forall|c: int| 0 <= c < conns.len() && conns[c].id == pairs[k].0 implies (
        #[trigger] resolve(conns, pairs, true).0[c]) == conns[c] by {
            assert(out[c].controller == controller_after(conns, found, c));
            assert(out[c].with_controller(conns[c].controller) == conns[c]);
        }
    }
}

} // verus!
