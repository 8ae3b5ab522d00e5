//! Events, and the stretches of time at which they show.
use crate::ids::{is_random_uuid, DatasetId, EventID, ManifestationId};
use crate::table::Table;
use crate::time::Timestamp;
use vstd::prelude::*;

verus! {

/// A stretch of a dataset at which an event shows.
#[derive(Debug, Clone, Copy, PartialEq, Eq, Structural)]
pub struct Manifestation {
    pub id: ManifestationId,
    pub dataset_id: DatasetId,
    pub start: Timestamp,
    pub end: Timestamp,
}

impl Manifestation {
    /// A manifestation with a given identifier.
    pub fn with_id(
        id: ManifestationId,
        dataset_id: DatasetId,
        start: Timestamp,
        end: Timestamp,
    ) -> (r: Manifestation)
        ensures
            r == (Manifestation { id, dataset_id, start, end }),
    {
        Manifestation { id, dataset_id, start, end }
    }
}

/// Manifestations by their identifiers.
pub type Manifestations = Table<u128, Manifestation>;

/// An event and where it shows.
#[derive(Debug)]
pub struct Event {
    pub id: EventID,
    pub name: String,
    pub description: Option<String>,
    pub manifestations: Manifestations,
}

impl Event {
    pub open spec fn is_valid(&self) -> bool {
        self.manifestations.is_valid()
    }

    /// An event; without an identifier it gets a new one, and without manifestations it has none.
    pub fn new(
        id: Option<EventID>,
        name: String,
        description: Option<String>,
        manifestations: Option<Manifestations>,
    ) -> (r: Event)
        requires
            manifestations matches Some(m) ==> m.is_valid(),
        ensures
            r.is_valid(),
            id matches Some(given) ==> r.id == given,
            id is None ==> is_random_uuid(r.id.value),
            r.name == name,
            r.description == description,
            manifestations matches Some(m) ==> r.manifestations == m,
            manifestations is None ==> r.manifestations@ == Map::<u128, Manifestation>::empty(),
    {
        let id = match id {
            Some(id) => id,
            None => EventID::new(),
        };
        let manifestations = match manifestations {
            Some(m) => m,
            None => Table::new(),
        };
        Event { id, name, description, manifestations }
    }
}

}
