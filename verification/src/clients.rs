//! The client registry: per-window state, owned here and referenced by
//! identifier everywhere else.

use vstd::prelude::*;
use std::collections::HashMap;
use crate::geometry::Rect;

verus! {

broadcast use vstd::std_specs::hash::group_hash_axioms;

/// One managed window: its geometry, whether it floats above the tiled
/// clients, which workspace it belongs to, and its border width.
#[derive(Clone, Copy, PartialEq, Eq, Structural, Debug)]
pub struct Client {
    pub geometry: Rect,
    pub floating: bool,
    pub workspace: usize,
    pub border_width: u32,
}

/// Maps window identifiers (the display server's opaque handles) to client
/// state. Identifiers are unique by construction; removing an identifier that
/// is already gone is a recoverable no-op, reported through the return value.
pub struct ClientRegistry {
    map: HashMap<u32, Client>,
}

impl View for ClientRegistry {
    type V = Map<u32, Client>;

    closed spec fn view(&self) -> Map<u32, Client> {
        self.map@
    }
}

impl ClientRegistry {
    pub fn new() -> (r: ClientRegistry)
        ensures
            r@ == Map::<u32, Client>::empty(),
    {
        ClientRegistry { map: HashMap::new() }
    }

    pub fn contains(&self, id: u32) -> (r: bool)
        ensures
            r == self@.contains_key(id),
    {
        self.map.contains_key(&id)
    }

    /// The state recorded for `id`, if that window is managed.
    pub fn get(&self, id: u32) -> (r: Option<Client>)
        ensures
            r matches Some(c) ==> self@.contains_key(id) && c == self@[id],
            r is None ==> !self@.contains_key(id),
    {
        match self.map.get(&id) {
            Option::Some(c) => Option::Some(*c),
            Option::None => Option::None,
        }
    }

    /// Record (or overwrite) the state for window `id`.
    pub fn insert(&mut self, id: u32, c: Client)
        ensures
            final(self)@ == old(self)@.insert(id, c),
    {
        self.map.insert(id, c);
    }

    /// Forget window `id`. Removing an unknown identifier changes nothing and
    /// returns `false` — the already-gone-window race is not an error.
    pub fn remove(&mut self, id: u32) -> (was: bool)
        ensures
            final(self)@ == old(self)@.remove(id),
            was == old(self)@.contains_key(id),
    {
        let r = self.map.remove(&id);
        proof {
            if !old(self)@.contains_key(id) {
                assert(final(self)@ =~= old(self)@.remove(id));
            }
        }
        r.is_some()
    }

    /// Overwrite the geometry of `id`; `false` (and no change) when unknown.
    pub fn set_geometry(&mut self, id: u32, g: Rect) -> (was: bool)
        ensures
            was == old(self)@.contains_key(id),
            was ==> final(self)@ == old(self)@.insert(
                id,
                Client { geometry: g, ..old(self)@[id] },
            ),
            !was ==> final(self)@ == old(self)@,
    {
        match self.get(id) {
            Option::Some(c) => {
                self.map.insert(id, Client { geometry: g, ..c });
                true
            }
            Option::None => false,
        }
    }

    /// Overwrite the floating flag of `id`; `false` (and no change) when unknown.
    pub fn set_floating(&mut self, id: u32, floating: bool) -> (was: bool)
        ensures
            was == old(self)@.contains_key(id),
            was ==> final(self)@ == old(self)@.insert(id, Client { floating, ..old(self)@[id] }),
            !was ==> final(self)@ == old(self)@,
    {
        match self.get(id) {
            Option::Some(c) => {
                self.map.insert(id, Client { floating, ..c });
                true
            }
            Option::None => false,
        }
    }

    /// Move `id` to another workspace; `false` (and no change) when unknown.
    pub fn set_workspace(&mut self, id: u32, workspace: usize) -> (was: bool)
        ensures
            was == old(self)@.contains_key(id),
            was ==> final(self)@ == old(self)@.insert(id, Client { workspace, ..old(self)@[id] }),
            !was ==> final(self)@ == old(self)@,
    {
        match self.get(id) {
            Option::Some(c) => {
                self.map.insert(id, Client { workspace, ..c });
                true
            }
            Option::None => false,
        }
    }

    pub fn len(&self) -> (n: usize)
        ensures
            n == self@.dom().len(),
    {
        self.map.len()
    }
}

} // verus!
