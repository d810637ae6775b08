//! Player sessions on the server: clients that connected but have not named
//! themselves yet, and the entity each named player controls.

use vstd::prelude::*;
use crate::store::{client_map_contents, client_set_contents, entry_keys, lists_entries, ClientMap, ClientSet};

verus! {

/// Connected clients that have not yet sent their nickname.
pub struct UnAuthedPlayers {
    pub players: ClientSet,
}

impl Default for UnAuthedPlayers {
    fn default() -> (r: Self)
        ensures
            r.players@ == Set::<u64>::empty(),
    {
        UnAuthedPlayers { players: ClientSet::new() }
    }
}

impl UnAuthedPlayers {
    /// A client connected: it waits for its nickname.
    pub fn client_connected(&mut self, client: u64)
        ensures
            final(self).players@ == old(self).players@.insert(client),
    {
        let _ = self.players.insert(client);
    }

    /// Whether `client` connected and has not sent its nickname yet.
    pub fn is_pending(&self, client: u64) -> (r: bool)
        ensures
            r == self.players@.contains(client),
    {
        self.players.contains(client)
    }
}

/// The entity (by its bits) of each authenticated player, by client id.
pub struct PlayerEntities {
    pub players: ClientMap,
}

impl Default for PlayerEntities {
    fn default() -> (r: Self)
        ensures
            r.players@.dom() == Set::<u64>::empty(),
    {
        PlayerEntities { players: ClientMap::new() }
    }
}

/// The nickname a player chose.
#[derive(Debug)]
pub struct PlayerNickname(pub String);

/// Marks a player entity with the client that controls it.
pub struct ClientId(pub u64);

/// The answer to a client that sent its nickname.
pub enum AuthOutcome {
    /// The client was not waiting for authentication; nothing changed.
    NotPending,
    /// The entity of that nickname already belongs to a connected player; the
    /// client is no longer waiting, and no player was added.
    Taken,
    /// The client now controls the entity. `others` lists every player that
    /// was already there, as (client, entity): each of them and the newcomer
    /// are told about one another.
    Joined { others: Vec<(u64, u64)> },
}

/// Whether some player already controls `entity`.
pub open spec fn entity_taken(players: Map<u64, u64>, entity: u64) -> bool {
    exists|k: u64| players.contains_key(k) && players[k] == entity
}

/// No entity is controlled by two clients.
pub open spec fn one_client_per_entity(players: Map<u64, u64>) -> bool {
    forall|a: u64, b: u64|
        players.contains_key(a) && players.contains_key(b) && #[trigger] players[a] == #[trigger] players[b]
            ==> a == b
}

impl PlayerEntities {
    /// A client disconnected: its entry is dropped and its entity handed back.
    pub fn client_disconnected(&mut self, client: u64) -> (r: u64)
        requires
            old(self).players@.contains_key(client),
        ensures
            r == old(self).players@[client],
            final(self).players@ == old(self).players@.remove(client),
            one_client_per_entity(old(self).players@) ==> one_client_per_entity(final(self).players@),
    {
        match self.players.remove(client) {
            Some(e) => e,
            None => 0,
        }
    }

    /// Whether `client` controls a player.
    pub fn is_player(&self, client: u64) -> (r: bool)
        ensures
            r == self.players@.contains_key(client),
    {
        self.players.get(client).is_some()
    }

    /// The entity of the player of `client`.
    pub fn entity_of(&self, client: u64) -> (r: u64)
        requires
            self.players@.contains_key(client),
        ensures
            r == self.players@[client],
    {
        match self.players.get(client) {
            Some(e) => e,
            None => 0,
        }
    }

    /// Whether some player already controls `entity`.
    pub fn is_taken(&self, entity: u64) -> (r: bool)
        ensures
            r == entity_taken(self.players@, entity),
    {
        let entries = self.players.entries();
        let n = entries.len();
        let mut i: usize = 0;
        while i < n
            invariant
                n == entries@.len(),
                i <= n,
                lists_entries(entries@, self.players@),
                forall|j: int| 0 <= j < i ==> entries@[j].1 != entity,
            decreases n - i,
        {
            if entries[i].1 == entity {
                proof {
                    let k = entries@[i as int].0;
                    assert(entry_keys(entries@)[i as int] == k);
                    assert(entry_keys(entries@).to_set().contains(k));
                }
                return true;
            }
            i = i + 1;
        }
        proof {
            assert forall|k: u64| self.players@.contains_key(k) implies self.players@[k] != entity by {
                assert(entry_keys(entries@).to_set().contains(k));
                let j = choose|j: int| 0 <= j < entry_keys(entries@).len() && entry_keys(entries@)[j] == k;
                assert(entries@[j].0 == k);
            }
        }
        false
    }

    /// The clients of every player except `client`, each once, in an order
    /// this contract leaves open: those that see an animation `client` started.
    pub fn others(&self, client: u64) -> (r: Vec<u64>)
        ensures
            r@.to_set() == self.players@.dom().remove(client),
            r@.no_duplicates(),
    {
        let entries = self.players.entries();
        let n = entries.len();
        let mut r: Vec<u64> = Vec::new();
        let mut i: usize = 0;
        while i < n
            invariant
                n == entries@.len(),
                i <= n,
                lists_entries(entries@, self.players@),
                r@.no_duplicates(),
                forall|x: u64| #[trigger] r@.contains(x) <==> x != client && entry_keys(entries@).take(i as int).contains(x),
            decreases n - i,
        {
            let k = entries[i].0;
            proof {
                assert(entry_keys(entries@)[i as int] == k);
                assert(entry_keys(entries@).take(i as int + 1) == entry_keys(entries@).take(i as int).push(k));
                assert(!entry_keys(entries@).take(i as int).contains(k)) by {
                    if entry_keys(entries@).take(i as int).contains(k) {
                        let j = choose|j: int| 0 <= j < i && entry_keys(entries@).take(i as int)[j] == k;
                        assert(entry_keys(entries@)[j] == entry_keys(entries@)[i as int]);
                    }
                }
            }
            let ghost before = r@;
            if k != client {
                r.push(k);
            }
            proof {
                let seen = entry_keys(entries@).take(i as int);
                assert forall|x: u64| #[trigger] r@.contains(x) implies x != client
                    && seen.push(k).contains(x) by {
                    let j = choose|j: int| 0 <= j < r@.len() && r@[j] == x;
                    if j < before.len() {
                        assert(before[j] == x);
                        assert(before.contains(x));
                        let m = choose|m: int| 0 <= m < seen.len() && seen[m] == x;
                        assert(seen.push(k)[m] == x);
                    } else {
                        assert(seen.push(k)[seen.len() as int] == k);
                    }
                }
                assert forall|x: u64| x != client && #[trigger] seen.push(k).contains(x) implies r@.contains(x) by {
                    let m = choose|m: int| 0 <= m < seen.len() + 1 && seen.push(k)[m] == x;
                    if m < seen.len() {
                        assert(seen[m] == x);
                        assert(seen.contains(x));
                        assert(before.contains(x));
                        let j = choose|j: int| 0 <= j < before.len() && before[j] == x;
                        assert(r@[j] == x);
                    } else {
                        assert(r@[r@.len() - 1] == k);
                    }
                }
                if k != client {
                    assert(!before.contains(k));
                    assert forall|a: int, b: int| 0 <= a < b < r@.len() implies r@[a] != r@[b] by {
                        if b == r@.len() - 1 {
                            assert(before[a] == r@[a]);
                        } else {
                            assert(before[a] != before[b]);
                        }
                    }
                }
            }
            i = i + 1;
        }
        proof {
            assert(entry_keys(entries@).take(n as int) == entry_keys(entries@));
            assert(r@.to_set() =~= self.players@.dom().remove(client)) by {
                assert forall|x: u64| r@.to_set().contains(x) <==> self.players@.dom().remove(client).contains(x) by {
                    assert(r@.contains(x) <==> x != client && entry_keys(entries@).contains(x));
                    assert(entry_keys(entries@).contains(x) <==> entry_keys(entries@).to_set().contains(x));
                }
            }
        }
        r
    }
}

/// A client sent its nickname, and `entity` is the entity of that nickname
/// (found among the players' entities, or newly made for it). A client that
/// was waiting stops waiting; when no player controls `entity` yet, the client
/// becomes its player.
pub fn authenticate(
    unauthed: &mut UnAuthedPlayers,
    players: &mut PlayerEntities,
    client: u64,
    entity: u64,
) -> (r: AuthOutcome)
    ensures
        !old(unauthed).players@.contains(client) ==> {
            &&& r is NotPending
            &&& final(unauthed).players@ == old(unauthed).players@
            &&& final(players).players@ == old(players).players@
        },
        old(unauthed).players@.contains(client) ==> {
            &&& final(unauthed).players@ == old(unauthed).players@.remove(client)
            &&& entity_taken(old(players).players@, entity) ==> {
                &&& r is Taken
                &&& final(players).players@ == old(players).players@
            }
            &&& !entity_taken(old(players).players@, entity) ==> {
                &&& r is Joined
                &&& lists_entries(r->others@, old(players).players@)
                &&& final(players).players@ == old(players).players@.insert(client, entity)
            }
        },
        one_client_per_entity(old(players).players@) ==> one_client_per_entity(final(players).players@),
{
    if !unauthed.players.remove(client) {
        return AuthOutcome::NotPending;
    }
    if players.is_taken(entity) {
        return AuthOutcome::Taken;
    }
    let others = players.players.entries();
    let ghost before = players.players@;
    let _ = players.players.insert(client, entity);
    proof {
        let after = players.players@;
        if one_client_per_entity(before) {
            assert forall|a: u64, b: u64|
                after.contains_key(a) && after.contains_key(b) && #[trigger] after[a] == #[trigger] after[b]
                    implies a == b by {
                if a != client && b != client {
                    assert(before[a] == before[b]);
                } else if a == client && b != client {
                    assert(before.contains_key(b) && before[b] == entity);
                } else if b == client && a != client {
                    assert(before.contains_key(a) && before[a] == entity);
                }
            }
        }
    }
    AuthOutcome::Joined { others }
}

} // verus!
