//! Aspects: the quantities that are observed of a subject, and where each keeps its data.
use crate::error::Error;
use crate::ids::{is_random_uuid, AspectId, SubjectId};
use crate::paths::{
    aspect_correlations_db_path,
    aspect_measurements_db_path,
    aspect_path,
    aspect_patterns_db_path,
    aspect_processed_batches_db_path,
    aspect_processed_events_db_path,
    aspect_unprocessed_batches_db_path,
    aspect_unprocessed_events_db_path,
    below,
    database_name_in,
    database_name_of,
    dictionary_of_file,
    dictionary_path,
    ends_plainly,
    has_db_extension,
    join_path,
    joined,
    is_ordinary,
    is_portable,
    parent_path,
    path_parent,
    plain_name,
    spec_aspect_path,
    without_db,
};
use crate::resolution::Resolution;
use crate::table::{Entry, Table};
use crate::text::{join, same_text};
use vstd::prelude::*;

verus! {

/// An aspect and the files it keeps its data in.
#[derive(Debug)]
pub struct AspectInfo {
    pub id: AspectId,
    pub name: String,
    pub subject_id: SubjectId,
    pub resolution: Resolution,
    pub database_metadata_db_path: String,
    pub subject_name: String,
    pub path: String,
    pub measurements_path: String,
    pub unprocessed_batches_path: String,
    pub processed_batches_path: String,
    pub patterns_path: String,
    pub unprocessed_events_path: String,
    pub processed_events_path: String,
    pub correlations_path: String,
}

impl Clone for AspectInfo {
    fn clone(&self) -> (r: AspectInfo)
        ensures
            r == *self,
    {
        AspectInfo {
            id: self.id,
            name: self.name.clone(),
            subject_id: self.subject_id,
            resolution: self.resolution,
            database_metadata_db_path: self.database_metadata_db_path.clone(),
            subject_name: self.subject_name.clone(),
            path: self.path.clone(),
            measurements_path: self.measurements_path.clone(),
            unprocessed_batches_path: self.unprocessed_batches_path.clone(),
            processed_batches_path: self.processed_batches_path.clone(),
            patterns_path: self.patterns_path.clone(),
            unprocessed_events_path: self.unprocessed_events_path.clone(),
            processed_events_path: self.processed_events_path.clone(),
            correlations_path: self.correlations_path.clone(),
        }
    }
}

/// An aspect, and the files of its dictionaries by their names.
#[derive(Debug)]
pub struct Aspect {
    pub info: AspectInfo,
    pub dictionaries: Table<String, String>,
}

pub struct AspectView {
    pub info: AspectInfo,
    pub dictionaries: Map<Seq<char>, String>,
}

impl View for Aspect {
    type V = AspectView;

    open spec fn view(&self) -> AspectView {
        AspectView { info: self.info, dictionaries: self.dictionaries@ }
    }
}

impl Clone for Aspect {
    fn clone(&self) -> (r: Aspect)
        ensures
            r@ == self@,
            r.dictionaries.entries@ == self.dictionaries.entries@,
    {
        let mut entries: Vec<Entry<String, String>> = Vec::new();
        let mut i: usize = 0;
        while i < self.dictionaries.entries.len()
            invariant
                i <= self.dictionaries.entries.len(),
                entries@ == self.dictionaries.entries@.take(i as int),
            decreases self.dictionaries.entries.len() - i,
        {
            let entry = &self.dictionaries.entries[i];
            entries.push(Entry { key: entry.key.clone(), value: entry.value.clone() });
            i += 1;
        }
        assert(entries@ == self.dictionaries.entries@);
        Aspect { info: self.info.clone(), dictionaries: Table { entries } }
    }
}

/// A file in a directory: its name, and its path.
#[derive(Debug)]
pub struct DirectoryFile {
    pub name: String,
    pub path: String,
}

/// The tables that a file of an aspect is given.
#[derive(Debug, Clone, Copy, PartialEq, Eq, Structural)]
pub enum Schema {
    Measurements,
    Batches,
    Patterns,
    Events,
    Correlations,
    Dictionary,
}

/// One step of laying out the data of an aspect.
#[derive(Debug)]
pub enum LayoutStep {
    /// Create a directory and those above it.
    CreateDirectory(String),
    /// Open a database, creating it where it is missing, and give it its tables.
    CreateDatabase(String, Schema),
}

pub struct LayoutStepView {
    pub path: Seq<char>,
    pub schema: Option<Schema>,
}

impl View for LayoutStep {
    type V = LayoutStepView;

    open spec fn view(&self) -> LayoutStepView {
        match self {
            LayoutStep::CreateDirectory(path) => LayoutStepView { path: path@, schema: None },
            LayoutStep::CreateDatabase(path, schema) => LayoutStepView {
                path: path@,
                schema: Some(*schema),
            },
        }
    }
}

/// The dictionaries that the files of a directory hold; of two files for one name the later counts.
pub open spec fn dictionaries_in(files: Seq<DirectoryFile>) -> Map<Seq<char>, String>
    decreases files.len(),
{
    if files.len() == 0 {
        Map::empty()
    } else {
        let rest = dictionaries_in(files.drop_last());
        if has_db_extension(files.last().name@) {
            rest.insert(without_db(files.last().name@), files.last().path)
        } else {
            rest
        }
    }
}

impl AspectInfo {
    /// Whether the files of the aspect lie below the directory of its database.
    pub open spec fn lies_below(self, database_dir: Seq<char>) -> bool {
        let info = self;
        &&& info.path@ == joined(joined(database_dir, info.subject_name@), info.name@)
        &&& info.measurements_path@ == info.path@ + "/measurements.db"@
        &&& info.unprocessed_batches_path@ == info.path@ + "/unprocessed_batches.db"@
        &&& info.processed_batches_path@ == info.path@ + "/processed_batches.db"@
        &&& info.patterns_path@ == info.path@ + "/patterns.db"@
        &&& info.unprocessed_events_path@ == info.path@ + "/unprocessed_events.db"@
        &&& info.processed_events_path@ == info.path@ + "/processed_events.db"@
        &&& info.correlations_path@ == info.path@ + "/correlations.db"@
    }
}

impl Aspect {
    /// A new aspect of a subject of a database.
    pub fn new(
        id: Option<AspectId>,
        name: &str,
        subject_id: SubjectId,
        resolution: Resolution,
        data_dir: &str,
        db_name: &str,
        subject_name: String,
        database_metadata_db_path: String,
    ) -> (r: Aspect)
        ensures
            id matches Some(given) ==> r.info.id == given,
            id is None ==> is_random_uuid(r.info.id.value),
            r.info.name@ == name@,
            r.info.subject_id == subject_id,
            r.info.resolution == resolution,
            r.info.database_metadata_db_path == database_metadata_db_path,
            r.info.subject_name == subject_name,
            r.info.path@ == spec_aspect_path(data_dir@, db_name@, subject_name@, name@),
            r.info.measurements_path@ == joined(r.info.path@, "measurements.db"@),
            r.info.unprocessed_batches_path@ == joined(r.info.path@, "unprocessed_batches.db"@),
            r.info.processed_batches_path@ == joined(r.info.path@, "processed_batches.db"@),
            r.info.patterns_path@ == joined(r.info.path@, "patterns.db"@),
            r.info.unprocessed_events_path@ == joined(r.info.path@, "unprocessed_events.db"@),
            r.info.processed_events_path@ == joined(r.info.path@, "processed_events.db"@),
            r.info.correlations_path@ == joined(r.info.path@, "correlations.db"@),
            r.dictionaries.is_valid(),
            r@.dictionaries == Map::<Seq<char>, String>::empty(),
    {
        let path = aspect_path(data_dir, db_name, subject_name.as_str(), name);
        let measurements_path = aspect_measurements_db_path(
            data_dir,
            db_name,
            subject_name.as_str(),
            name,
        );
        let unprocessed_batches_path = aspect_unprocessed_batches_db_path(
            data_dir,
            db_name,
            subject_name.as_str(),
            name,
        );
        let processed_batches_path = aspect_processed_batches_db_path(
            data_dir,
            db_name,
            subject_name.as_str(),
            name,
        );
        let patterns_path = aspect_patterns_db_path(
            data_dir,
            db_name,
            subject_name.as_str(),
            name,
        );
        let unprocessed_events_path = aspect_unprocessed_events_db_path(
            data_dir,
            db_name,
            subject_name.as_str(),
            name,
        );
        let processed_events_path = aspect_processed_events_db_path(
            data_dir,
            db_name,
            subject_name.as_str(),
            name,
        );
        let correlations_path = aspect_correlations_db_path(
            data_dir,
            db_name,
            subject_name.as_str(),
            name,
        );
        let id = match id {
            Some(given) => given,
            None => AspectId::new(),
        };
        Aspect {
            info: AspectInfo {
                id,
                name: name.to_owned(),
                subject_id,
                resolution,
                database_metadata_db_path,
                subject_name,
                path,
                measurements_path,
                unprocessed_batches_path,
                processed_batches_path,
                patterns_path,
                unprocessed_events_path,
                processed_events_path,
                correlations_path,
            },
            dictionaries: Table::new(),
        }
    }

    /// What has to be created for a new aspect, in order: its directory, a database for each kind of
    /// data, and the directory of its dictionaries.
    pub fn layout(&self) -> (r: Vec<LayoutStep>)
        ensures
            r.len() == 9,
            r@[0]@ == (LayoutStepView { path: self.info.path@, schema: None }),
            r@[1]@ == (LayoutStepView {
                path: self.info.measurements_path@,
                schema: Some(Schema::Measurements),
            }),
            r@[2]@ == (LayoutStepView {
                path: self.info.unprocessed_batches_path@,
                schema: Some(Schema::Batches),
            }),
            r@[3]@ == (LayoutStepView {
                path: self.info.processed_batches_path@,
                schema: Some(Schema::Batches),
            }),
            r@[4]@ == (LayoutStepView {
                path: self.info.patterns_path@,
                schema: Some(Schema::Patterns),
            }),
            r@[5]@ == (LayoutStepView {
                path: self.info.unprocessed_events_path@,
                schema: Some(Schema::Events),
            }),
            r@[6]@ == (LayoutStepView {
                path: self.info.processed_events_path@,
                schema: Some(Schema::Events),
            }),
            r@[7]@ == (LayoutStepView {
                path: self.info.correlations_path@,
                schema: Some(Schema::Correlations),
            }),
            r@[8]@ == (LayoutStepView {
                path: joined(self.info.path@, "dictionaries"@),
                schema: None,
            }),
    {
        let mut r: Vec<LayoutStep> = Vec::new();
        r.push(LayoutStep::CreateDirectory(self.info.path.clone()));
        r.push(
            LayoutStep::CreateDatabase(self.info.measurements_path.clone(), Schema::Measurements),
        );
        r.push(
            LayoutStep::CreateDatabase(self.info.unprocessed_batches_path.clone(), Schema::Batches),
        );
        r.push(
            LayoutStep::CreateDatabase(self.info.processed_batches_path.clone(), Schema::Batches),
        );
        r.push(LayoutStep::CreateDatabase(self.info.patterns_path.clone(), Schema::Patterns));
        r.push(
            LayoutStep::CreateDatabase(self.info.unprocessed_events_path.clone(), Schema::Events),
        );
        r.push(LayoutStep::CreateDatabase(self.info.processed_events_path.clone(), Schema::Events));
        r.push(
            LayoutStep::CreateDatabase(self.info.correlations_path.clone(), Schema::Correlations),
        );
        let folder = join_path(self.info.path.as_str(), "dictionaries");
        r.push(LayoutStep::CreateDirectory(folder));
        r
    }

    /// An aspect below the directory of its database, with the dictionaries that are found there.
    pub fn in_directory(
        id: Option<AspectId>,
        name: String,
        subject_id: SubjectId,
        resolution: Resolution,
        database_metadata_db_path: String,
        subject_name: String,
        database_dir: &str,
        files: &Vec<DirectoryFile>,
    ) -> (r: Aspect)
        ensures
            id matches Some(given) ==> r.info.id == given,
            id is None ==> is_random_uuid(r.info.id.value),
            r.info.name == name,
            r.info.subject_id == subject_id,
            r.info.resolution == resolution,
            r.info.database_metadata_db_path == database_metadata_db_path,
            r.info.subject_name == subject_name,
            r.info.lies_below(database_dir@),
            r.dictionaries.is_valid(),
            r@.dictionaries == dictionaries_in(files@),
    {
        let subject_path = join_path(database_dir, subject_name.as_str());
        let path = join_path(subject_path.as_str(), name.as_str());
        let measurements_path = join(path.as_str(), "/measurements.db");
        let unprocessed_batches_path = join(path.as_str(), "/unprocessed_batches.db");
        let processed_batches_path = join(path.as_str(), "/processed_batches.db");
        let patterns_path = join(path.as_str(), "/patterns.db");
        let unprocessed_events_path = join(path.as_str(), "/unprocessed_events.db");
        let processed_events_path = join(path.as_str(), "/processed_events.db");
        let correlations_path = join(path.as_str(), "/correlations.db");
        let mut dictionaries: Table<String, String> = Table::new();
        let mut i: usize = 0;
        while i < files.len()
            invariant
                i <= files.len(),
                dictionaries.is_valid(),
                dictionaries@ == dictionaries_in(files@.take(i as int)),
            decreases files.len() - i,
        {
            assert(files@.take(i + 1).drop_last() == files@.take(i as int));
            match dictionary_of_file(files[i].name.as_str()) {
                Some(dictionary) => dictionaries.insert(dictionary, files[i].path.clone()),
                None => (),
            }
            i += 1;
        }
        assert(files@.take(files@.len() as int) == files@);
        let id = match id {
            Some(given) => given,
            None => AspectId::new(),
        };
        Aspect {
            info: AspectInfo {
                id,
                name,
                subject_id,
                resolution,
                database_metadata_db_path,
                subject_name,
                path,
                measurements_path,
                unprocessed_batches_path,
                processed_batches_path,
                patterns_path,
                unprocessed_events_path,
                processed_events_path,
                correlations_path,
            },
            dictionaries,
        }
    }

    /// An aspect of a database that is known by the path of its metadata.
    pub fn from_metadata(
        id: Option<AspectId>,
        name: String,
        subject_id: SubjectId,
        resolution: Resolution,
        database_metadata_db_path: String,
        subject_name: String,
        files: &Vec<DirectoryFile>,
    ) -> (r: Result<Aspect, Error>)
        ensures
            forall|dir: Seq<char>, file: Seq<char>|
                database_metadata_db_path@ == #[trigger] below(dir, file) && is_ordinary(
                    database_metadata_db_path@,
                ) && ends_plainly(dir) && plain_name(file) ==> r is Ok && r->Ok_0.info.lies_below(
                    dir,
                ),
            is_portable(database_metadata_db_path@) ==> match path_parent(
                database_metadata_db_path@,
            ) {
                Some(dir) => r is Ok && r->Ok_0.info.lies_below(dir),
                None => r is Err,
            },
            match r {
                Ok(aspect) => {
                    &&& id matches Some(given) ==> aspect.info.id == given
                    &&& id is None ==> is_random_uuid(aspect.info.id.value)
                    &&& aspect.info.name == name
                    &&& aspect.info.subject_id == subject_id
                    &&& aspect.info.resolution == resolution
                    &&& aspect.info.database_metadata_db_path == database_metadata_db_path
                    &&& aspect.info.subject_name == subject_name
                    &&& exists|dir: Seq<char>| aspect.info.lies_below(dir)
                    &&& aspect.dictionaries.is_valid()
                    &&& aspect@.dictionaries == dictionaries_in(files@)
                },
                Err(e) => e.spec_message() == "Cannot determine database directory"@,
            },
    {
        match parent_path(database_metadata_db_path.as_str()) {
            Some(dir) => {
                let aspect = Aspect::in_directory(
                    id,
                    name,
                    subject_id,
                    resolution,
                    database_metadata_db_path,
                    subject_name,
                    dir.as_str(),
                    files,
                );
                assert(aspect.info.lies_below(dir@));
                Ok(aspect)
            },
            None => Err(Error::Message("Cannot determine database directory".to_owned())),
        }
    }

    /// The directory of an aspect, beside the metadata of its database.
    pub fn get_aspect_path(metadata_path: &str, subject_name: &str, aspect_name: &str) -> (r: Result<
        String,
        Error,
    >)
        ensures
            forall|dir: Seq<char>, file: Seq<char>|
                metadata_path@ == #[trigger] below(dir, file) && is_ordinary(metadata_path@)
                    && ends_plainly(dir) && plain_name(file) ==> r is Ok && r->Ok_0@ == joined(
                    joined(dir, subject_name@),
                    aspect_name@,
                ),
            is_portable(metadata_path@) ==> match path_parent(metadata_path@) {
                Some(dir) => r is Ok && r->Ok_0@ == joined(
                    joined(dir, subject_name@),
                    aspect_name@,
                ),
                None => r is Err,
            },
            match r {
                Ok(path) => exists|dir: Seq<char>|
                    path@ == #[trigger] joined(joined(dir, subject_name@), aspect_name@),
                Err(e) => e.spec_message() == "Cannot determine database directory"@,
            },
    {
        match parent_path(metadata_path) {
            Some(dir) => {
                let subject = join_path(dir.as_str(), subject_name);
                let path = join_path(subject.as_str(), aspect_name);
                assert(path@ == joined(joined(dir@, subject_name@), aspect_name@));
                Ok(path)
            },
            None => Err(Error::Message("Cannot determine database directory".to_owned())),
        }
    }

    /// The directory of an aspect, if it is there.
    pub fn existing_aspect_path(path: String, exists: bool) -> (r: Result<String, Error>)
        ensures
            match r {
                Ok(found) => exists && found == path,
                Err(e) => !exists && e.spec_message() == "Aspect metadata path does not exist"@,
            },
    {
        if exists {
            Ok(path)
        } else {
            Err(Error::Message("Aspect metadata path does not exist".to_owned()))
        }
    }

    /// Two aspects are the same if identifier, name, subject and resolution are.
    pub fn same(&self, other: &Aspect) -> (r: bool)
        ensures
            r == (self.info.id == other.info.id && self.info.name@ == other.info.name@
                && self.info.subject_id == other.info.subject_id && self.info.resolution
                == other.info.resolution),
    {
        self.info.id == other.info.id && same_text(
            self.info.name.as_str(),
            other.info.name.as_str(),
        ) && self.info.subject_id == other.info.subject_id && self.info.resolution
            == other.info.resolution
    }

    /// The file of a dictionary of the aspect, below the data directory.
    pub fn dictionary_file(&self, data_dir: &str, dictionary: &str) -> (r: Result<String, Error>)
        ensures
            forall|root: Seq<char>, db: Seq<char>, subject: Seq<char>, aspect: Seq<char>|
                self.info.path@ == #[trigger] below(below(below(root, db), subject), aspect)
                    && is_ordinary(self.info.path@) && plain_name(db) && plain_name(subject) && plain_name(aspect) ==> r is Ok
                    && r->Ok_0@ == joined(
                    joined(
                        spec_aspect_path(
                            data_dir@,
                            db,
                            self.info.subject_name@,
                            self.info.name@,
                        ),
                        "dictionaries"@,
                    ),
                    dictionary@ + ".db"@,
                ),
            is_portable(self.info.path@) ==> match database_name_in(self.info.path@) {
                Ok(db) => r is Ok && r->Ok_0@ == joined(
                    joined(
                        spec_aspect_path(
                            data_dir@,
                            db,
                            self.info.subject_name@,
                            self.info.name@,
                        ),
                        "dictionaries"@,
                    ),
                    dictionary@ + ".db"@,
                ),
                Err(message) => r is Err && r->Err_0.spec_message() == message,
            },
            r matches Err(e) ==> e.spec_message() == "Cannot get subject path from aspect path"@
                || e.spec_message() == "Cannot get db path from subject path"@ || e.spec_message()
                == "Cannot extract db_name from path"@,
    {
        match database_name_of(self.info.path.as_str()) {
            Ok(db) => Ok(
                dictionary_path(
                    data_dir,
                    db.as_str(),
                    self.info.subject_name.as_str(),
                    self.info.name.as_str(),
                    dictionary,
                ),
            ),
            Err(e) => Err(Error::Message(e)),
        }
    }

    /// Whether a dictionary may be opened: its file is there, or the aspect knows it.
    pub fn admit_dictionary(&self, dictionary: &str, file_exists: bool) -> (r: Result<(), Error>)
        requires
            self.dictionaries.is_valid(),
        ensures
            match r {
                Ok(_) => file_exists || self@.dictionaries.dom().contains(dictionary@),
                Err(e) => {
                    &&& !file_exists
                    &&& !self@.dictionaries.dom().contains(dictionary@)
                    &&& e.spec_message() == "Dictionary '"@ + dictionary@
                        + "' does not exist for aspect '"@ + self.info.name@ + "'"@
                },
            },
    {
        let name = dictionary.to_owned();
        if !file_exists && !self.dictionaries.contains_key(&name) {
            let mut text = join("Dictionary '", dictionary);
            text.append("' does not exist for aspect '");
            text.append(self.info.name.as_str());
            text.append("'");
            return Err(Error::Message(text));
        }
        Ok(())
    }

    /// Remembers the file of a dictionary that was opened, unless one is known already.
    pub fn remember_dictionary(&mut self, dictionary: &str, path: String)
        requires
            old(self).dictionaries.is_valid(),
        ensures
            final(self).dictionaries.is_valid(),
            final(self).info == old(self).info,
            final(self)@.dictionaries == if old(self)@.dictionaries.dom().contains(dictionary@) {
                old(self)@.dictionaries
            } else {
                old(self)@.dictionaries.insert(dictionary@, path)
            },
    {
        let name = dictionary.to_owned();
        if !self.dictionaries.contains_key(&name) {
            self.dictionaries.insert(name, path);
        }
    }
}

/// An aspect that is loaded again from the metadata of its database has the files that it was
/// created with: below the directory of its database, where a new aspect is laid out, the file of
/// each kind of data is the one that [`Aspect::new`] names.
pub proof fn law_reloaded_aspect_has_same_files(
    data_dir: Seq<char>,
    db_name: Seq<char>,
    info: AspectInfo,
)
    requires
        plain_name(info.name@),
        info.lies_below(joined(data_dir, db_name)),
    ensures
        info.path@ == spec_aspect_path(data_dir, db_name, info.subject_name@, info.name@),
        info.measurements_path@ == joined(info.path@, "measurements.db"@),
        info.unprocessed_batches_path@ == joined(info.path@, "unprocessed_batches.db"@),
        info.processed_batches_path@ == joined(info.path@, "processed_batches.db"@),
        info.patterns_path@ == joined(info.path@, "patterns.db"@),
        info.unprocessed_events_path@ == joined(info.path@, "unprocessed_events.db"@),
        info.processed_events_path@ == joined(info.path@, "processed_events.db"@),
        info.correlations_path@ == joined(info.path@, "correlations.db"@),
{
    let base = joined(joined(data_dir, db_name), info.subject_name@);
    assert(info.path@ == joined(base, info.name@));
    assert(info.path@.last() == info.name@.last());
    reveal_strlit("measurements.db");
    reveal_strlit("/measurements.db");
    assert("/measurements.db"@ =~= seq!['/'] + "measurements.db"@);
    assert(info.measurements_path@ =~= joined(info.path@, "measurements.db"@));
    reveal_strlit("unprocessed_batches.db");
    reveal_strlit("/unprocessed_batches.db");
    assert("/unprocessed_batches.db"@ =~= seq!['/'] + "unprocessed_batches.db"@);
    assert(info.unprocessed_batches_path@ =~= joined(info.path@, "unprocessed_batches.db"@));
    reveal_strlit("processed_batches.db");
    reveal_strlit("/processed_batches.db");
    assert("/processed_batches.db"@ =~= seq!['/'] + "processed_batches.db"@);
    assert(info.processed_batches_path@ =~= joined(info.path@, "processed_batches.db"@));
    reveal_strlit("patterns.db");
    reveal_strlit("/patterns.db");
    assert("/patterns.db"@ =~= seq!['/'] + "patterns.db"@);
    assert(info.patterns_path@ =~= joined(info.path@, "patterns.db"@));
    reveal_strlit("unprocessed_events.db");
    reveal_strlit("/unprocessed_events.db");
    assert("/unprocessed_events.db"@ =~= seq!['/'] + "unprocessed_events.db"@);
    assert(info.unprocessed_events_path@ =~= joined(info.path@, "unprocessed_events.db"@));
    reveal_strlit("processed_events.db");
    reveal_strlit("/processed_events.db");
    assert("/processed_events.db"@ =~= seq!['/'] + "processed_events.db"@);
    assert(info.processed_events_path@ =~= joined(info.path@, "processed_events.db"@));
    reveal_strlit("correlations.db");
    reveal_strlit("/correlations.db");
    assert("/correlations.db"@ =~= seq!['/'] + "correlations.db"@);
    assert(info.correlations_path@ =~= joined(info.path@, "correlations.db"@));
}

}
