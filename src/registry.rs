//! Matchmaking: which session a player joins.
use vstd::prelude::*;
use crate::board::City;

verus! {

/// The most players a session takes.
pub const SESSION_CAPACITY: usize = 6;

/// A registered session: its game's identifier, its city and its players.
#[derive(Clone, Debug)]
pub struct SessionEntry {
    pub id: u128,
    pub city: City,
    pub players: Vec<u128>,
}

/// The sessions in the order they were created.
#[derive(Clone, Debug)]
pub struct SessionRegistry {
    pub sessions: Vec<SessionEntry>,
}

/// Session `i` is for `city` and has room.
pub open spec fn is_open(sessions: Seq<SessionEntry>, city: City, i: int) -> bool {
    0 <= i < sessions.len() && sessions[i].city == city && sessions[i].players@.len() < SESSION_CAPACITY
}

/// `i` is the first open session for `city`.
pub open spec fn is_first_open(sessions: Seq<SessionEntry>, city: City, i: int) -> bool {
    is_open(sessions, city, i) && forall|j: int| 0 <= j < i ==> !is_open(sessions, city, j)
}

impl SessionRegistry {
    /// An empty registry.
    pub fn new() -> (r: SessionRegistry)
        ensures
            r.sessions@.len() == 0,
    {
        SessionRegistry { sessions: Vec::new() }
    }

    /// The first session for `city` with fewer than six players.
    pub fn find_open_session(&self, city: City) -> (r: Option<usize>)
        ensures
            match r {
                Some(i) => is_first_open(self.sessions@, city, i as int),
                None => forall|j: int| 0 <= j < self.sessions@.len() ==> !is_open(self.sessions@, city, j),
            },
    {
        let mut i: usize = 0;
        while i < self.sessions.len()
            invariant
                i <= self.sessions@.len(),
                forall|j: int| 0 <= j < i ==> !is_open(self.sessions@, city, j),
            decreases self.sessions@.len() - i,
        {
            if self.sessions[i].city == city && self.sessions[i].players.len() < SESSION_CAPACITY {
                return Some(i);
            }
            i = i + 1;
        }
        None
    }

    /// Puts `player` into the first open session for `city`, or into a new session
    /// `new_id` for `city` where none is open, and returns the session's identifier.
    pub fn join_or_create(&mut self, city: City, player: u128, new_id: u128) -> (r: u128)
        ensures
            forall|i: int| 0 <= i < old(self).sessions@.len() ==> !#[trigger] is_first_open(old(self).sessions@, city, i)
                ==> final(self).sessions@[i] == old(self).sessions@[i],
            (exists|i: int| is_first_open(old(self).sessions@, city, i)) ==> {
                let i = choose|i: int| is_first_open(old(self).sessions@, city, i);
                &&& final(self).sessions@.len() == old(self).sessions@.len()
                &&& r == old(self).sessions@[i].id
                &&& final(self).sessions@[i].id == old(self).sessions@[i].id
                &&& final(self).sessions@[i].city == city
                &&& final(self).sessions@[i].players@ == old(self).sessions@[i].players@.push(player)
            },
            (forall|i: int| !#[trigger] is_first_open(old(self).sessions@, city, i)) ==> {
                &&& final(self).sessions@.len() == old(self).sessions@.len() + 1
                &&& r == new_id
                &&& final(self).sessions@.last().id == new_id
                &&& final(self).sessions@.last().city == city
                &&& final(self).sessions@.last().players@ == seq![player]
            },
    {
        match self.find_open_session(city) {
            Some(i) => {
                proof {
                    let c = choose|k: int| is_first_open(old(self).sessions@, city, k);
                    if c < i {
                    } else if c > i {
                        assert(is_open(old(self).sessions@, city, i as int));
                    }
                }
                let mut entry = self.sessions.remove(i);
                entry.players.push(player);
                let id = entry.id;
                self.sessions.insert(i, entry);
                id
            },
            None => {
                let mut players: Vec<u128> = Vec::new();
                players.push(player);
                assert(players@ =~= seq![player]);
                self.sessions.push(SessionEntry { id: new_id, city, players });
                new_id
            },
        }
    }
}

} // verus!
