//! The table of open handles that are served from a buffer.

use crate::buffer::{Buffer, BufferView};
use std::collections::hash_map::Entry;
use std::collections::HashMap;
use vstd::prelude::*;

verus! {

/// What the asset API hands out for an open file. The library never looks
/// behind it: a handle is compared and looked up, nothing else.
#[derive(Clone, Copy, Debug, PartialEq, Eq, Hash)]
pub struct Handle(pub usize);

/// The open handles that are served from a [`Buffer`], each with its buffer.
#[derive(Debug)]
pub struct HandleRegistry<'a> {
    wanted: HashMap<usize, Buffer<'a>>,
}

impl<'a> View for HandleRegistry<'a> {
    type V = Map<Handle, BufferView>;

    closed spec fn view(&self) -> Map<Handle, BufferView> {
        Map::new(
            |handle: Handle| self.wanted@.contains_key(handle.0),
            |handle: Handle| self.wanted@[handle.0]@,
        )
    }
}

impl<'a> HandleRegistry<'a> {
    /// A registry without any handle.
    pub fn new() -> (registry: Self)
        ensures
            registry@ == Map::<Handle, BufferView>::empty(),
    {
        let registry = HandleRegistry { wanted: HashMap::new() };
        assert(registry@ =~= Map::<Handle, BufferView>::empty());
        registry
    }

    /// Puts `buffer` under `handle`. What stood there before is dropped.
    pub fn register(&mut self, handle: Handle, buffer: Buffer<'a>)
        ensures
            final(self)@ == old(self)@.insert(handle, buffer@),
    {
        broadcast use vstd::std_specs::hash::group_hash_axioms;

        self.wanted.insert(handle.0, buffer);
        assert(self@ =~= old(self)@.insert(handle, buffer@));
    }

    /// Whether `handle` is served from a buffer.
    pub fn contains(&self, handle: Handle) -> (registered: bool)
        ensures
            registered == self@.contains_key(handle),
    {
        broadcast use vstd::std_specs::hash::group_hash_axioms;

        self.wanted.contains_key(&handle.0)
    }

    /// The buffer under `handle`, if there is one.
    pub fn lookup(&self, handle: Handle) -> (found: Option<&Buffer<'a>>)
        ensures
            match found {
                Some(buffer) => self@.contains_key(handle) && buffer@ == self@[handle],
                None => !self@.contains_key(handle),
            },
    {
        broadcast use vstd::std_specs::hash::group_hash_axioms;

        self.wanted.get(&handle.0)
    }

    /// The buffer under `handle`, to be read from or moved in. The registry
    /// afterwards holds the buffer as the caller left it.
    pub fn lookup_mut(&mut self, handle: Handle) -> (found: Option<&mut Buffer<'a>>)
        ensures
            match found {
                Some(buffer) => {
                    &&& old(self)@.contains_key(handle)
                    &&& buffer@ == old(self)@[handle]
                    &&& final(self)@ == old(self)@.insert(handle, final(buffer)@)
                },
                None => !old(self)@.contains_key(handle) && final(self)@ == old(self)@,
            },
    {
        broadcast use vstd::std_specs::hash::group_hash_axioms;

        match self.wanted.entry(handle.0) {
            Entry::Occupied(slot) => Some(slot.into_mut()),
            Entry::Vacant(_slot) => None,
        }
    }

    /// Takes `handle` out of the registry and hands its buffer over.
    pub fn retire(&mut self, handle: Handle) -> (retired: Option<Buffer<'a>>)
        ensures
            final(self)@ == old(self)@.remove(handle),
            match retired {
                Some(buffer) => old(self)@.contains_key(handle) && buffer@ == old(self)@[handle],
                None => !old(self)@.contains_key(handle),
            },
    {
        broadcast use vstd::std_specs::hash::group_hash_axioms;

        let retired = self.wanted.remove(&handle.0);
        assert(self@ =~= old(self)@.remove(handle));
        retired
    }
}

/// A handle is in the registry from the open that registered it to the
/// close that retires it, and a close takes it out once: after it the handle
/// is unknown, a second close finds nothing, and no other handle is touched.
pub proof fn lemma_handle_lives_from_open_to_close(
    registry: Map<Handle, BufferView>,
    handle: Handle,
    buffer: BufferView,
    other: Handle,
)
    requires
        other != handle,
    ensures
        registry.insert(handle, buffer).contains_key(handle),
        registry.insert(handle, buffer)[handle] == buffer,
        !registry.insert(handle, buffer).remove(handle).contains_key(handle),
        registry.remove(handle).remove(handle) == registry.remove(handle),
        registry.insert(handle, buffer).contains_key(other) == registry.contains_key(other),
        registry.remove(handle).contains_key(other) == registry.contains_key(other),
        registry.contains_key(other) ==> registry.insert(handle, buffer)[other] == registry[other]
            && registry.remove(handle)[other] == registry[other],
{
    assert(registry.remove(handle).remove(handle) =~= registry.remove(handle));
}

} // verus!
