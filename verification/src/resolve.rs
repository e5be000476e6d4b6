//! Resolution of controller references: every connection whose descriptor
//! named a controlling interface receives the identifier of the connection
//! that stands for that interface.

use vstd::prelude::*;
use crate::model::{Connection, ConnectionView, views};
use crate::search::{first_index, is_first_index, lemma_first_index_absent, lemma_first_index_found};
use crate::text::{text_eq, opt_text_is};

verus! {

/// The interface names of a list of connections, in order.
pub open spec fn interfaces(conns: Seq<ConnectionView>) -> Seq<Option<Seq<char>>> {
    Seq::new(conns.len(), |i: int| conns[i].interface)
}

/// The ids of a list of connections, in order.
pub open spec fn ids(conns: Seq<ConnectionView>) -> Seq<Seq<char>> {
    Seq::new(conns.len(), |i: int| conns[i].id)
}

/// The first connection bound to the interface `name`.
pub open spec fn first_with_interface(conns: Seq<ConnectionView>, name: Seq<char>) -> Option<int> {
    first_index(interfaces(conns), Some(name))
}

/// The first connection with the id `id`.
pub open spec fn first_with_id(conns: Seq<ConnectionView>, id: Seq<char>) -> Option<int> {
    first_index(ids(conns), id)
}

/// Which child wants which controlling interface: pairs of a connection id
/// and an interface name, no id occurring twice.
pub struct ParentMap {
    pub entries: Vec<(String, String)>,
}

impl View for ParentMap {
    type V = Seq<(Seq<char>, Seq<char>)>;

    open spec fn view(&self) -> Seq<(Seq<char>, Seq<char>)> {
        pair_views(self.entries@)
    }
}

/// The child ids of a list of pairs.
pub open spec fn children(pairs: Seq<(Seq<char>, Seq<char>)>) -> Seq<Seq<char>> {
    Seq::new(pairs.len(), |i: int| pairs[i].0)
}

/// No child id occurs twice.
pub open spec fn distinct_children(pairs: Seq<(Seq<char>, Seq<char>)>) -> bool {
    forall|i: int, j: int| 0 <= i < j < pairs.len() ==> pairs[i].0 != pairs[j].0
}

/// The pairs after `child` is recorded to want `parent`: a pair already held
/// for `child` keeps its place and takes the new parent, a new child goes to
/// the end.
pub open spec fn inserted(
    pairs: Seq<(Seq<char>, Seq<char>)>,
    child: Seq<char>,
    parent: Seq<char>,
) -> Seq<(Seq<char>, Seq<char>)> {
    match first_index(children(pairs), child) {
        Some(k) => pairs.update(k, (child, parent)),
        None => pairs.push((child, parent)),
    }
}

/// The views of a list of pairs, in order.
pub open spec fn pair_views(pairs: Seq<(String, String)>) -> Seq<(Seq<char>, Seq<char>)> {
    Seq::new(pairs.len(), |i: int| (pairs[i].0@, pairs[i].1@))
}

impl ParentMap {
    /// The invariant of the map: no child id occurs twice.
    pub open spec fn wf(&self) -> bool {
        distinct_children(self@)
    }

    /// A map without pairs.
    pub fn new() -> (r: ParentMap)
        ensures
            r.wf(),
            r@ == Seq::<(Seq<char>, Seq<char>)>::empty(),
    {
        let r = ParentMap { entries: Vec::new() };
        assert(r@ =~= Seq::<(Seq<char>, Seq<char>)>::empty());
        r
    }

    /// The number of pairs.
    pub fn len(&self) -> (n: usize)
        ensures
            n == self@.len(),
    {
        self.entries.len()
    }

    /// Records that `child` wants `parent`.
    pub fn insert(&mut self, child: String, parent: String)
        requires
            old(self).wf(),
        ensures
            final(self).wf(),
            final(self)@ == inserted(old(self)@, child@, parent@),
    {
        let ghost before = self@;
        let mut i: usize = 0;
        while i < self.entries.len()
            invariant
                i <= self.entries.len(),
                self@ == before,
                before == old(self)@,
                distinct_children(before),
                forall|j: int| 0 <= j < i ==> children(before)[j] != child@,
            decreases self.entries.len() - i,
        {
            if text_eq(self.entries[i].0.as_str(), child.as_str()) {
                proof {
                    assert(children(before)[i as int] == child@);
                    assert(is_first_index(children(before), child@, i as int));
                    lemma_first_index_found(children(before), child@, i as int);
                }
                let ghost pair = (child@, parent@);
                self.entries.set(i, (child, parent));
                proof {
                    assert(before[i as int].0 == pair.0);
                    assert(self@ =~= before.update(i as int, pair));
                    assert forall|a: int, b: int| 0 <= a < b < self@.len() implies self@[a].0
                        != self@[b].0 by {
                        assert(self@[a].0 == before[a].0);
                        assert(self@[b].0 == before[b].0);
                    }
                }
                return ;
            }
            proof {
                assert(children(before)[i as int] == before[i as int].0);
            }
            i += 1;
        }
        proof {
            lemma_first_index_absent(children(before), child@);
        }
        self.entries.push((child, parent));
        proof {
            assert(self@ =~= before.push((child@, parent@)));
            assert forall|a: int, b: int| 0 <= a < b < self@.len() implies self@[a].0
                != self@[b].0 by {
                if b < before.len() {
                    assert(self@[a].0 == before[a].0);
                    assert(self@[b].0 == before[b].0);
                } else {
                    assert(children(before)[a] != child@);
                }
            }
        }
    }
}

/// Why a resolution failed.
#[derive(Debug)]
pub enum ResolveError {
    /// The interface `parent`, wanted by the connection `id`, has no connection.
    MissingParent { id: String, parent: String },
    /// A parent was found for `id`, but no connection carries that id.
    MissingConnection { id: String },
}

/// The mathematical view of a `ResolveError`.
pub enum ResolveErrorView {
    MissingParent { id: Seq<char>, parent: Seq<char> },
    MissingConnection { id: Seq<char> },
}

impl View for ResolveError {
    type V = ResolveErrorView;

    open spec fn view(&self) -> ResolveErrorView {
        match self {
            ResolveError::MissingParent { id, parent } => ResolveErrorView::MissingParent {
                id: id@,
                parent: parent@,
            },
            ResolveError::MissingConnection { id } => ResolveErrorView::MissingConnection {
                id: id@,
            },
        }
    }
}

/// For each pair, whether some connection is bound to the wanted interface.
pub open spec fn parent_present(
    conns: Seq<ConnectionView>,
    pairs: Seq<(Seq<char>, Seq<char>)>,
) -> Seq<bool> {
    Seq::new(pairs.len(), |k: int| first_with_interface(conns, pairs[k].1).is_some())
}

/// The first pair whose wanted interface has no connection.
pub open spec fn first_missing(
    conns: Seq<ConnectionView>,
    pairs: Seq<(Seq<char>, Seq<char>)>,
) -> Option<int> {
    first_index(parent_present(conns, pairs), false)
}

/// The pairs whose parent exists, each child id with the uuid of the first
/// connection bound to the wanted interface, in the order of the pairs.
pub open spec fn recorded(
    conns: Seq<ConnectionView>,
    pairs: Seq<(Seq<char>, Seq<char>)>,
) -> Seq<(Seq<char>, u128)>
    decreases pairs.len(),
{
    if pairs.len() == 0 {
        seq![]
    } else {
        let rest = recorded(conns, pairs.drop_last());
        match first_with_interface(conns, pairs.last().1) {
            Some(p) => rest.push((pairs.last().0, conns[p].uuid)),
            None => rest,
        }
    }
}

/// The pairs whose parent is missing, in the order of the pairs.
pub open spec fn orphans(
    conns: Seq<ConnectionView>,
    pairs: Seq<(Seq<char>, Seq<char>)>,
) -> Seq<(Seq<char>, Seq<char>)>
    decreases pairs.len(),
{
    if pairs.len() == 0 {
        seq![]
    } else {
        let rest = orphans(conns, pairs.drop_last());
        match first_with_interface(conns, pairs.last().1) {
            Some(_) => rest,
            None => rest.push(pairs.last()),
        }
    }
}

/// Sets, pair by pair, the controller of the first connection with the child
/// id. Stops at the first child id that no connection carries and returns it
/// beside the connections as they stand then.
pub open spec fn attach(conns: Seq<ConnectionView>, found: Seq<(Seq<char>, u128)>) -> (
    Seq<ConnectionView>,
    Option<Seq<char>>,
)
    decreases found.len(),
{
    if found.len() == 0 {
        (conns, None)
    } else {
        match first_with_id(conns, found[0].0) {
            Some(c) => attach(
                conns.update(c, conns[c].with_controller(Some(found[0].1))),
                found.drop_first(),
            ),
            None => (conns, Some(found[0].0)),
        }
    }
}

/// The whole resolution: the connections afterwards and the failure, if any.
/// In strict mode a missing parent fails it before any connection changes;
/// otherwise such a pair is passed over.
pub open spec fn resolve(
    conns: Seq<ConnectionView>,
    pairs: Seq<(Seq<char>, Seq<char>)>,
    continue_migration: bool,
) -> (Seq<ConnectionView>, Option<ResolveErrorView>) {
    let missing = first_missing(conns, pairs);
    if missing.is_some() && !continue_migration {
        let k = missing.unwrap();
        (conns, Some(ResolveErrorView::MissingParent { id: pairs[k].0, parent: pairs[k].1 }))
    } else {
        let (out, bad) = attach(conns, recorded(conns, pairs));
        (
            out,
            match bad {
                Some(id) => Some(ResolveErrorView::MissingConnection { id }),
                None => None,
            },
        )
    }
}

/// The index of the first connection bound to the interface `name`.
pub fn find_by_interface(connections: &Vec<Connection>, name: &str) -> (r: Option<usize>)
    ensures
        match r {
            Some(i) => first_with_interface(views(connections@), name@) == Some(i as int),
            None => first_with_interface(views(connections@), name@).is_none(),
        },
{
    let ghost keys = interfaces(views(connections@));
    let mut i: usize = 0;
    while i < connections.len()
        invariant
            i <= connections.len(),
            keys == interfaces(views(connections@)),
            forall|j: int| 0 <= j < i ==> keys[j] != Some(name@),
        decreases connections.len() - i,
    {
        if opt_text_is(&connections[i].interface, name) {
            proof {
                assert(keys[i as int] == Some(name@));
                lemma_first_index_found(keys, Some(name@), i as int);
            }
            return Some(i);
        }
        assert(keys[i as int] != Some(name@));
        i += 1;
    }
    proof {
        lemma_first_index_absent(keys, Some(name@));
    }
    None
}

/// The index of the first connection with the id `id`.
pub fn find_by_id(connections: &Vec<Connection>, id: &str) -> (r: Option<usize>)
    ensures
        match r {
            Some(i) => first_with_id(views(connections@), id@) == Some(i as int),
            None => first_with_id(views(connections@), id@).is_none(),
        },
{
    let ghost keys = ids(views(connections@));
    let mut i: usize = 0;
    while i < connections.len()
        invariant
            i <= connections.len(),
            keys == ids(views(connections@)),
            forall|j: int| 0 <= j < i ==> keys[j] != id@,
        decreases connections.len() - i,
    {
        if text_eq(connections[i].id.as_str(), id) {
            proof {
                assert(keys[i as int] == id@);
                lemma_first_index_found(keys, id@, i as int);
            }
            return Some(i);
        }
        assert(keys[i as int] != id@);
        i += 1;
    }
    proof {
        lemma_first_index_absent(keys, id@);
    }
    None
}

/// The recorded pairs as plain values.
pub open spec fn found_view(found: Seq<(String, u128)>) -> Seq<(Seq<char>, u128)> {
    Seq::new(found.len(), |i: int| (found[i].0@, found[i].1))
}

/// Gives every connection whose id stands in `parents` the uuid of the
/// connection bound to the wanted interface as its controller.
///
/// All parents are looked up before any controller is set, so that a parent
/// is found wherever in the list it stands. A pair without a parent fails the
/// resolution in strict mode; otherwise it is passed over and handed back
/// with the others of its sort. A child id that no connection carries fails
/// the resolution in either mode.
pub fn update_parent_connection(
    connections: &mut Vec<Connection>,
    parents: &ParentMap,
    continue_migration: bool,
) -> (r: Result<Vec<(String, String)>, ResolveError>)
    ensures
        views(final(connections)@) == resolve(
            views(old(connections)@),
            parents@,
            continue_migration,
        ).0,
        match r {
            Ok(skipped) => resolve(
                views(old(connections)@),
                parents@,
                continue_migration,
            ).1.is_none() && pair_views(skipped@) == orphans(views(old(connections)@), parents@),
            Err(e) => resolve(views(old(connections)@), parents@, continue_migration).1 == Some(
                e@,
            ),
        },
{
    let ghost before = views(connections@);
    let mut skipped: Vec<(String, String)> = Vec::new();
    let ghost pairs = parents@;
    let ghost present = parent_present(before, pairs);
    let mut found: Vec<(String, u128)> = Vec::new();
    let mut k: usize = 0;
    while k < parents.entries.len()
        invariant
            k <= parents.entries.len(),
            pairs == parents@,
            pairs.len() == parents.entries.len(),
            before == views(connections@),
            connections@ == old(connections)@,
            present == parent_present(before, pairs),
            !continue_migration ==> forall|j: int| 0 <= j < k ==> present[j] != false,
            found_view(found@) == recorded(before, pairs.take(k as int)),
            pair_views(skipped@) == orphans(before, pairs.take(k as int)),
        decreases parents.entries.len() - k,
    {
        let id = &parents.entries[k].0;
        let parent = &parents.entries[k].1;
        proof {
            assert(pairs[k as int] == (id@, parent@));
            assert(pairs.take(k as int + 1).drop_last() =~= pairs.take(k as int));
            assert(pairs.take(k as int + 1).last() == pairs[k as int]);
        }
        match find_by_interface(connections, parent.as_str()) {
            Some(p) => {
                let uuid = connections[p].uuid;
                let ghost prior = found_view(found@);
                found.push((id.clone(), uuid));
                proof {
                    assert(before[p as int].uuid == uuid);
                    assert(found_view(found@) =~= prior.push((id@, uuid)));
                    assert(present[k as int] == true);
                }
            },
            None => {
                proof {
                    assert(present[k as int] == false);
                }
                if !continue_migration {
                    proof {
                        lemma_first_index_found(present, false, k as int);
                    }
                    return Err(
                        ResolveError::MissingParent { id: id.clone(), parent: parent.clone() },
                    );
                }
                let ghost passed = pair_views(skipped@);
                skipped.push((id.clone(), parent.clone()));
                assert(pair_views(skipped@) =~= passed.push((id@, parent@)));
            },
        }
        k += 1;
    }
    proof {
        assert(pairs.take(k as int) =~= pairs);
        if !continue_migration {
            lemma_first_index_absent(present, false);
        }
    }
    let ghost wanted = found_view(found@);
    proof {
        assert(wanted.skip(0) =~= wanted);
    }
    let mut i: usize = 0;
    while i < found.len()
        invariant
            i <= found.len(),
            wanted == found_view(found@),
            wanted == recorded(before, pairs),
            pair_views(skipped@) == orphans(before, pairs),
            pairs == parents@,
            before == views(old(connections)@),
            continue_migration || first_missing(before, pairs).is_none(),
            attach(before, wanted) == attach(views(connections@), wanted.skip(i as int)),
        decreases found.len() - i,
    {
        let ghost now = views(connections@);
        let ghost rest = wanted.skip(i as int);
        proof {
            assert(rest[0] == (found[i as int].0@, found[i as int].1));
            assert(rest.drop_first() =~= wanted.skip(i as int + 1));
        }
        match find_by_id(connections, found[i].0.as_str()) {
            Some(c) => {
                let mut changed = connections[c].duplicate();
                changed.controller = Some(found[i].1);
                connections.set(c, changed);
                proof {
                    assert(views(connections@) =~= now.update(
                        c as int,
                        now[c as int].with_controller(Some(rest[0].1)),
                    ));
                }
            },
            None => {
                assert(attach(now, rest) == (now, Some(rest[0].0)));
                return Err(ResolveError::MissingConnection { id: found[i].0.clone() });
            },
        }
        i += 1;
    }
    Ok(skipped)
}

} // verus!
