//! The single error kind of the world's queries.
use vstd::prelude::*;
use crate::component::EntityId;

verus! {

/// A component the operation needs is not attached to an entity.
#[derive(Debug)]
pub enum ComponentError {
    /// The kind's name, and the entity that lacks it.
    NotAttached(String, EntityId),
}

impl ComponentError {
    /// The missing kind's name and the entity that lacks it.
    pub open spec fn missing(&self) -> (Seq<char>, EntityId) {
        match self {
            ComponentError::NotAttached(name, id) => (name@, *id),
        }
    }
}

} // verus!
