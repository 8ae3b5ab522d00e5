//! Datasets: measurements under a name.
use crate::ids::{is_random_uuid, DatasetId};
use crate::measurement::Measurement;
use fake::faker::lorem::en::Word;
use fake::Fake;
use vstd::prelude::*;

verus! {

/// `fake`'s `Word` of the English lorem ipsum: some word, by chance. Nothing is said of it.
#[verifier::external_body]
fn random_word() -> (r: String) {
    Word().fake()
}

/// Measurements under a name.
#[derive(Debug)]
pub struct Dataset {
    pub id: DatasetId,
    pub name: String,
    pub measurements: Vec<Measurement>,
}

impl Dataset {
    /// A dataset without measurements, with a new identifier.
    pub fn new(name: String) -> (r: Dataset)
        ensures
            is_random_uuid(r.id.value),
            r.name == name,
            r.measurements@.len() == 0,
    {
        Dataset { id: DatasetId::new(), name, measurements: Vec::new() }
    }

    /// A dataset without measurements, with a new identifier and a name by chance.
    pub fn random() -> (r: Dataset)
        ensures
            is_random_uuid(r.id.value),
            r.measurements@.len() == 0,
    {
        Dataset::new(random_word())
    }

    /// Adds a measurement behind the others.
    pub fn add_measurement(&mut self, measurement: Measurement)
        ensures
            final(self).id == old(self).id,
            final(self).name == old(self).name,
            final(self).measurements@ == old(self).measurements@.push(measurement),
    {
        self.measurements.push(measurement);
    }

    pub fn id(&self) -> (r: &DatasetId)
        ensures
            *r == self.id,
    {
        &self.id
    }

    pub fn set_id(&mut self, id: DatasetId)
        ensures
            *final(self) == (Dataset { id, ..*old(self) }),
    {
        self.id = id;
    }

    pub fn name(&self) -> (r: &String)
        ensures
            *r == self.name,
    {
        &self.name
    }

    pub fn set_name(&mut self, name: String)
        ensures
            *final(self) == (Dataset { name, ..*old(self) }),
    {
        self.name = name;
    }

    pub fn measurements(&self) -> (r: &Vec<Measurement>)
        ensures
            *r == self.measurements,
    {
        &self.measurements
    }

    pub fn measurements_mut(&mut self) -> (r: &mut Vec<Measurement>)
        ensures
            *r == old(self).measurements,
            *final(self) == (Dataset { measurements: *final(r), ..*old(self) }),
    {
        &mut self.measurements
    }

    pub fn set_measurements(&mut self, measurements: Vec<Measurement>)
        ensures
            *final(self) == (Dataset { measurements, ..*old(self) }),
    {
        self.measurements = measurements;
    }
}

}
