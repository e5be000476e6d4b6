//! The aggregate network state: connections in the order in which they were
//! added, no two with the same id.

use vstd::prelude::*;
use crate::model::{Connection, ConnectionView, views};
use crate::resolve::{find_by_id, first_with_id, ids};
use crate::search::{first_index, lemma_first_index, lemma_first_index_absent,
    lemma_first_index_found};

verus! {

/// General settings of the network stack. The migration creates them and
/// hands them on untouched.
#[derive(Clone, Copy, Debug, PartialEq, Eq, Structural)]
pub struct GeneralState {}

/// Why a state refused a change.
#[derive(Debug)]
pub enum StateError {
    /// A connection with this id is part of the state already.
    ConnectionExists(String),
}

impl StateError {
    /// The id that the error is about.
    pub open spec fn id(self) -> Seq<char> {
        match self {
            StateError::ConnectionExists(id) => id@,
        }
    }
}

/// No id occurs twice.
pub open spec fn distinct_ids(conns: Seq<ConnectionView>) -> bool {
    forall|i: int, j: int| 0 <= i < j < conns.len() ==> conns[i].id != conns[j].id
}

/// The aggregate state that a migration builds and hands on.
#[derive(Debug)]
pub struct NetworkState {
    pub general_state: GeneralState,
    pub connections: Vec<Connection>,
}

impl View for NetworkState {
    type V = Seq<ConnectionView>;

    open spec fn view(&self) -> Seq<ConnectionView> {
        views(self.connections@)
    }
}

impl NetworkState {
    /// The invariant of a state: ids are unique.
    pub open spec fn wf(&self) -> bool {
        distinct_ids(self@)
    }

    /// A state without connections.
    pub fn new(general_state: GeneralState) -> (r: NetworkState)
        ensures
            r.wf(),
            r@ == Seq::<ConnectionView>::empty(),
            r.general_state == general_state,
    {
        let r = NetworkState { general_state, connections: Vec::new() };
        assert(r@ =~= Seq::<ConnectionView>::empty());
        r
    }

    /// Whether the state keeps its invariant.
    pub fn has_unique_ids(&self) -> (r: bool)
        ensures
            r == self.wf(),
    {
        let ghost all = self@;
        let mut i: usize = 0;
        while i < self.connections.len()
            invariant
                i <= self.connections.len(),
                all == self@,
                forall|a: int, b: int| 0 <= a < b < i ==> all[a].id != all[b].id,
            decreases self.connections.len() - i,
        {
            proof {
                lemma_first_index(ids(all), all[i as int].id);
                assert(ids(all)[i as int] == all[i as int].id);
            }
            match find_by_id(&self.connections, self.connections[i].id.as_str()) {
                Some(j) => {
                    if j != i {
                        assert(ids(all)[j as int] == all[i as int].id);
                        assert(all[j as int].id == all[i as int].id);
                        return false;
                    }
                    assert forall|a: int| 0 <= a < i implies all[a].id != all[i as int].id by {
                        assert(ids(all)[a] != all[i as int].id);
                    }
                },
                None => {
                    return false;
                },
            }
            i += 1;
        }
        true
    }

    /// The connection with the given id.
    pub fn get_connection(&self, id: &str) -> (r: Option<&Connection>)
        ensures
            match r {
                Some(c) => first_with_id(self@, id@).is_some() && c@ == self@[first_with_id(
                    self@,
                    id@,
                ).unwrap()],
                None => first_with_id(self@, id@).is_none(),
            },
    {
        match find_by_id(&self.connections, id) {
            Some(i) => {
                proof {
                    lemma_first_index(ids(self@), id@);
                }
                Some(&self.connections[i])
            },
            None => None,
        }
    }

    /// Adds a connection at the end, unless its id is taken: then the state
    /// stays as it is and the error names the id.
    pub fn add_connection(&mut self, connection: Connection) -> (r: Result<(), StateError>)
        requires
            old(self).wf(),
        ensures
            final(self).wf(),
            final(self).general_state == old(self).general_state,
            match r {
                Ok(()) => first_with_id(old(self)@, connection@.id).is_none() && final(self)@
                    == old(self)@.push(connection@),
                Err(e) => first_with_id(old(self)@, connection@.id).is_some() && final(self)@
                    == old(self)@ && e.id() == connection@.id,
            },
    {
        match find_by_id(&self.connections, connection.id.as_str()) {
            Some(_) => Err(StateError::ConnectionExists(connection.id)),
            None => {
                let ghost before = self@;
                proof {
                    lemma_first_index(ids(before), connection@.id);
                }
                self.connections.push(connection);
                proof {
                    assert(self@ =~= before.push(connection@));
                    assert forall|i: int, j: int| 0 <= i < j < self@.len() implies self@[i].id
                        != self@[j].id by {
                        if j < before.len() {
                            assert(self@[i] == before[i] && self@[j] == before[j]);
                        } else {
                            assert(ids(before)[i] != connection@.id);
                        }
                    }
                }
                Ok(())
            },
        }
    }
}

/// For each connection, whether its id stood earlier in the list.
pub open spec fn repeats(conns: Seq<ConnectionView>) -> Seq<bool> {
    Seq::new(conns.len(), |j: int| first_with_id(conns.take(j), conns[j].id).is_some())
}

/// What assembling a list of connections gives: the list itself where all
/// ids differ, else the id of the first connection that repeats an earlier one.
pub open spec fn assembled(conns: Seq<ConnectionView>) -> Result<Seq<ConnectionView>, Seq<char>> {
    match first_index(repeats(conns), true) {
        Some(j) => Err(conns[j].id),
        None => Ok(conns),
    }
}

/// Inserts the connections one at a time into a fresh state. Fails at the
/// first id that occurs a second time.
pub fn assemble(connections: &Vec<Connection>) -> (r: Result<NetworkState, StateError>)
    ensures
        r.is_ok() <==> distinct_ids(views(connections@)),
        match r {
            Ok(state) => state.wf() && assembled(views(connections@)) == Ok::<
                Seq<ConnectionView>,
                Seq<char>,
            >(state@) && state@ == views(connections@),
            Err(e) => assembled(views(connections@)) == Err::<Seq<ConnectionView>, Seq<char>>(
                e.id(),
            ),
        },
{
    let ghost all = views(connections@);
    let ghost flags = repeats(all);
    let mut state = NetworkState::new(GeneralState {  });
    let mut i: usize = 0;
    while i < connections.len()
        invariant
            i <= connections.len(),
            all == views(connections@),
            flags == repeats(all),
            state.wf(),
            state@ == all.take(i as int),
            forall|j: int| 0 <= j < i ==> flags[j] != true,
        decreases connections.len() - i,
    {
        let ghost before = state@;
        match state.add_connection(connections[i].duplicate()) {
            Ok(()) => {
                proof {
                    assert(all.take(i as int + 1) =~= all.take(i as int).push(all[i as int]));
                    assert(flags[i as int] == false);
                }
            },
            Err(e) => {
                proof {
                    assert(flags[i as int] == true);
                    lemma_first_index_found(flags, true, i as int);
                    lemma_first_index(ids(all.take(i as int)), all[i as int].id);
                    let k = first_with_id(all.take(i as int), all[i as int].id).unwrap();
                    assert(ids(all.take(i as int))[k] == all[i as int].id);
                    assert(all.take(i as int)[k] == all[k]);
                    assert(all[k].id == all[i as int].id);
                }
                return Err(e);
            },
        }
        i += 1;
    }
    proof {
        assert(all.take(i as int) =~= all);
        lemma_first_index_absent(flags, true);
    }
    Ok(state)
}

/// Two connections with the same id cannot be assembled, whatever else the
/// list holds.
pub proof fn law_duplicate_id_conflicts(conns: Seq<ConnectionView>, i: int, j: int)
    requires
        0 <= i < j < conns.len(),
        conns[i].id == conns[j].id,
    ensures
        assembled(conns).is_err(),
{
    let flags = repeats(conns);
    let early = conns.take(j);
    assert(ids(early)[i] == conns[j].id);
    if first_index(ids(early), conns[j].id).is_none() {
        lemma_first_index(ids(early), conns[j].id);
    }
    assert(flags[j] == true);
    if first_index(flags, true).is_none() {
        lemma_first_index(flags, true);
    }
}

} // verus!
