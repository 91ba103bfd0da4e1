//! An in-memory message port: an inbox of messages and a table of routes
//! from message sources to rooms.

use vstd::prelude::*;
use vstd::hash_map::StringHashMap;

verus! {

/// An inbox of messages, oldest first, and routes from sources to rooms.
pub struct MemoryPort<M> {
    pub inbox: Vec<M>,
    pub routes: StringHashMap<String>,
}

impl<M> MemoryPort<M> {
    /// The routes, from source to room, as text.
    pub open spec fn route_table(&self) -> Map<Seq<char>, Seq<char>> {
        self.routes@.map_values(|room: String| room@)
    }

    pub fn new() -> (port: Self)
        ensures
            port.inbox@ == Seq::<M>::empty(),
            port.route_table() == Map::<Seq<char>, Seq<char>>::empty(),
    {
        let port = MemoryPort { inbox: Vec::new(), routes: StringHashMap::new() };
        assert(port.route_table() =~= Map::<Seq<char>, Seq<char>>::empty());
        port
    }

    /// Routes messages from `source` to `room`, replacing an earlier route
    /// of that source.
    pub fn add_route(&mut self, source: &str, room: &str)
        ensures
            final(self).inbox@ == old(self).inbox@,
            final(self).route_table() == old(self).route_table().insert(source@, room@),
    {
        self.routes.insert(source.to_owned(), room.to_owned());
        assert(self.route_table() =~= old(self).route_table().insert(source@, room@));
    }

    pub fn inject(&mut self, msg: M)
        ensures
            final(self).inbox@ == old(self).inbox@.push(msg),
            final(self).route_table() == old(self).route_table(),
    {
        self.inbox.push(msg);
    }

    /// Hands over every message in the inbox, oldest first, leaving it empty.
    pub fn drain(&mut self) -> (msgs: Vec<M>)
        ensures
            msgs@ == old(self).inbox@,
            final(self).inbox@ == Seq::<M>::empty(),
            final(self).route_table() == old(self).route_table(),
    {
        let mut msgs: Vec<M> = Vec::new();
        std::mem::swap(&mut msgs, &mut self.inbox);
        msgs
    }
}

impl<M> Default for MemoryPort<M> {
    fn default() -> (port: Self)
        ensures
            port.inbox@ == Seq::<M>::empty(),
            port.route_table() == Map::<Seq<char>, Seq<char>>::empty(),
    {
        Self::new()
    }
}

} // verus!
