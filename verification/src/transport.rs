//! What a transport tells of the messages that it delivers.
use crate::typemap::{data_in, data_of, Erased, TypeMap};
use std::any::TypeId;
use std::sync::Arc;
use vstd::prelude::*;

verus! {

/// What a transport tells of itself: at most one value of each type, of types that the transport
/// chooses.
pub struct TransportMetadata {
    map: TypeMap,
}

impl View for TransportMetadata {
    type V = Map<TypeId, Erased>;

    closed spec fn view(&self) -> Map<TypeId, Erased> {
        self.map@
    }
}

impl TransportMetadata {
    /// The map is well formed.
    pub closed spec fn wf(&self) -> bool {
        self.map.wf()
    }

    /// Creates metadata that tells nothing.
    pub fn new() -> (metadata: Self)
        ensures
            metadata.wf(),
            metadata@ == Map::<TypeId, Erased>::empty(),
    {
        TransportMetadata { map: TypeMap::new() }
    }

    /// Creates metadata that tells what is in `map`.
    pub fn from_map(map: TypeMap) -> (metadata: Self)
        requires
            map.wf(),
        ensures
            metadata.wf(),
            metadata@ == map@,
    {
        TransportMetadata { map }
    }

    /// Returns the value of type `T`, if there is one.
    pub fn get<T: 'static>(&self) -> (found: Option<&T>)
        requires
            self.wf(),
        ensures
            match found {
                Some(value) => data_in::<T>(self@) == Some(data_of(*value)),
                None => data_in::<T>(self@) is None,
            },
    {
        self.map.get::<T>()
    }

    /// Returns a clone of the value of type `T`, if there is one.
    pub fn get_clone<T: Clone + 'static>(&self) -> (found: Option<T>)
        requires
            self.wf(),
        ensures
            match found {
                Some(copy) => exists|value: T|
                    data_in::<T>(self@) == Some(#[trigger] data_of(value)) && cloned(value, copy),
                None => data_in::<T>(self@) is None,
            },
    {
        self.map.get_clone::<T>()
    }

    /// Tells whether there is a value of type `T`.
    pub fn contains<T: 'static>(&self) -> (found: bool)
        requires
            self.wf(),
        ensures
            found == (data_in::<T>(self@) is Some),
    {
        self.map.contains::<T>()
    }
}

impl Default for TransportMetadata {
    fn default() -> (metadata: Self)
        ensures
            metadata.wf(),
            metadata@ == Map::<TypeId, Erased>::empty(),
    {
        TransportMetadata::new()
    }
}

/// A text as a transport delivers it, with what the transport tells of it.
pub struct TransportMessage {
    pub metadata: Arc<TransportMetadata>,
    pub message: String,
}

/// Joins what was received, if the transport is not closed, with what the transport tells of it.
pub fn received_message(metadata: &Arc<TransportMetadata>, received: Option<String>) -> (message:
    Option<TransportMessage>)
    ensures
        message == match received {
            Some(message) => Some(TransportMessage { metadata: *metadata, message }),
            None => None,
        },
{
    match received {
        Some(message) => Some(TransportMessage { metadata: metadata.clone(), message }),
        None => None,
    }
}

} // verus!
