//! What is known of a database: its subjects and their aspects.
use crate::aspect::{Aspect, AspectView};
use crate::error::Error;
use crate::ids::{is_random_uuid, AspectId, DatabaseId, SubjectId};
use crate::text::{contains, occurs_in, same_text};
use vstd::prelude::*;

verus! {

/// Something that is observed, and its aspects.
#[derive(Debug)]
pub struct Subject {
    pub id: SubjectId,
    pub name: String,
    pub database_id: DatabaseId,
    pub aspects: Vec<Aspect>,
}

pub struct SubjectView {
    pub id: SubjectId,
    pub name: Seq<char>,
    pub database_id: DatabaseId,
    pub aspects: Seq<AspectView>,
}

pub open spec fn aspect_views(aspects: Seq<Aspect>) -> Seq<AspectView> {
    Seq::new(aspects.len(), |i: int| aspects[i]@)
}

impl View for Subject {
    type V = SubjectView;

    open spec fn view(&self) -> SubjectView {
        SubjectView {
            id: self.id,
            name: self.name@,
            database_id: self.database_id,
            aspects: aspect_views(self.aspects@),
        }
    }
}

/// A copy of the aspects.
pub fn clone_aspects(aspects: &Vec<Aspect>) -> (r: Vec<Aspect>)
    ensures
        aspect_views(r@) == aspect_views(aspects@),
{
    let mut r: Vec<Aspect> = Vec::new();
    let mut i: usize = 0;
    while i < aspects.len()
        invariant
            i <= aspects.len(),
            r.len() == i,
            forall|k: int| 0 <= k < i ==> (#[trigger] r@[k])@ == aspects@[k]@,
        decreases aspects.len() - i,
    {
        r.push(aspects[i].clone());
        i += 1;
    }
    assert(aspect_views(r@) == aspect_views(aspects@));
    r
}

impl Clone for Subject {
    fn clone(&self) -> (r: Subject)
        ensures
            r@ == self@,
    {
        Subject {
            id: self.id,
            name: self.name.clone(),
            database_id: self.database_id,
            aspects: clone_aspects(&self.aspects),
        }
    }
}

/// The place of the aspect with an identifier.
pub open spec fn aspect_place(aspects: Seq<AspectView>, id: AspectId) -> Option<int> {
    if exists|i: int| 0 <= i < aspects.len() && (#[trigger] aspects[i]).info.id == id {
        Some(choose|i: int| 0 <= i < aspects.len() && (#[trigger] aspects[i]).info.id == id)
    } else {
        None
    }
}

impl SubjectView {
    /// No two aspects share an identifier.
    pub open spec fn is_valid(self) -> bool {
        forall|i: int, j: int|
            0 <= i < j < self.aspects.len() ==> (#[trigger] self.aspects[i]).info.id != (
            #[trigger] self.aspects[j]).info.id
    }
}

impl Subject {
    pub fn new(id: Option<SubjectId>, name: String, database_id: DatabaseId) -> (r: Subject)
        ensures
            id matches Some(given) ==> r.id == given,
            id is None ==> is_random_uuid(r.id.value),
            r.name == name,
            r.database_id == database_id,
            r.aspects@.len() == 0,
            r@.is_valid(),
    {
        let id = match id {
            Some(given) => given,
            None => SubjectId::new(),
        };
        Subject { id, name, database_id, aspects: Vec::new() }
    }

    /// Adds an aspect, in place of the one with its identifier if there is one.
    pub fn add_aspect(&mut self, aspect: Aspect)
        requires
            old(self)@.is_valid(),
        ensures
            final(self)@.is_valid(),
            final(self).id == old(self).id,
            final(self).name == old(self).name,
            final(self).database_id == old(self).database_id,
            match aspect_place(old(self)@.aspects, aspect.info.id) {
                Some(i) => final(self)@.aspects == old(self)@.aspects.update(i, aspect@),
                None => final(self)@.aspects == old(self)@.aspects.push(aspect@),
            },
    {
        let mut i: usize = 0;
        while i < self.aspects.len()
            invariant
                i <= self.aspects.len(),
                *self == *old(self),
                old(self)@.is_valid(),
                forall|k: int| 0 <= k < i ==> (#[trigger] self@.aspects[k]).info.id != aspect.info.id,
            decreases self.aspects.len() - i,
        {
            if self.aspects[i].info.id == aspect.info.id {
                proof {
                    let place = aspect_place(self@.aspects, aspect.info.id);
                    assert(self@.aspects[i as int].info.id == aspect.info.id);
                    assert(place == Some(i as int)) by {
                        let p = place->0;
                        assert(self@.aspects[p].info.id == self@.aspects[i as int].info.id);
                    }
                }
                let ghost view = aspect@;
                self.aspects.set(i, aspect);
                assert(self@.aspects == old(self)@.aspects.update(i as int, view));
                assert forall|a: int, b: int| 0 <= a < b < self@.aspects.len() implies (
                #[trigger] self@.aspects[a]).info.id != (#[trigger] self@.aspects[b]).info.id by {
                    assert(old(self)@.aspects[a].info.id != old(self)@.aspects[b].info.id);
                }
                return ;
            }
            i += 1;
        }
        let ghost view = aspect@;
        self.aspects.push(aspect);
        assert(self@.aspects == old(self)@.aspects.push(view));
        assert forall|a: int, b: int| 0 <= a < b < self@.aspects.len() implies (
        #[trigger] self@.aspects[a]).info.id != (#[trigger] self@.aspects[b]).info.id by {
            if b < old(self)@.aspects.len() {
                assert(old(self)@.aspects[a].info.id != old(self)@.aspects[b].info.id);
            }
        }
    }

    /// The aspect with an identifier.
    pub fn get_aspect(&self, id: AspectId) -> (r: Option<&Aspect>)
        ensures
            match r {
                Some(aspect) => self.aspects@.contains(*aspect) && aspect.info.id == id,
                None => forall|i: int|
                    0 <= i < self.aspects.len() ==> (#[trigger] self.aspects@[i]).info.id != id,
            },
    {
        let mut i: usize = 0;
        while i < self.aspects.len()
            invariant
                i <= self.aspects.len(),
                forall|k: int| 0 <= k < i ==> (#[trigger] self.aspects@[k]).info.id != id,
            decreases self.aspects.len() - i,
        {
            if self.aspects[i].info.id == id {
                assert(self.aspects@[i as int].info.id == id);
                return Some(&self.aspects[i]);
            }
            i += 1;
        }
        None
    }
}

/// What is known of a database.
#[derive(Debug)]
pub struct DatabaseInfo {
    pub id: DatabaseId,
    pub name: String,
    pub path: String,
    pub subjects: Vec<Subject>,
    pub metadata_path: Option<String>,
}

pub struct DatabaseInfoView {
    pub id: DatabaseId,
    pub name: Seq<char>,
    pub path: Seq<char>,
    pub subjects: Seq<SubjectView>,
    pub metadata_path: Option<String>,
}

pub open spec fn subject_views(subjects: Seq<Subject>) -> Seq<SubjectView> {
    Seq::new(subjects.len(), |i: int| subjects[i]@)
}

impl View for DatabaseInfo {
    type V = DatabaseInfoView;

    open spec fn view(&self) -> DatabaseInfoView {
        DatabaseInfoView {
            id: self.id,
            name: self.name@,
            path: self.path@,
            subjects: subject_views(self.subjects@),
            metadata_path: self.metadata_path,
        }
    }
}

impl Clone for DatabaseInfo {
    fn clone(&self) -> (r: DatabaseInfo)
        ensures
            r@ == self@,
    {
        let mut subjects: Vec<Subject> = Vec::new();
        let mut i: usize = 0;
        while i < self.subjects.len()
            invariant
                i <= self.subjects.len(),
                subjects.len() == i,
                forall|k: int| 0 <= k < i ==> (#[trigger] subjects@[k])@ == self.subjects@[k]@,
            decreases self.subjects.len() - i,
        {
            subjects.push(self.subjects[i].clone());
            i += 1;
        }
        assert(subject_views(subjects@) == subject_views(self.subjects@));
        DatabaseInfo {
            id: self.id,
            name: self.name.clone(),
            path: self.path.clone(),
            subjects,
            metadata_path: match &self.metadata_path {
                Some(p) => Some(p.clone()),
                None => None,
            },
        }
    }
}

/// The place of the subject with an identifier.
pub open spec fn subject_place(subjects: Seq<SubjectView>, id: SubjectId) -> Option<int> {
    if exists|i: int| 0 <= i < subjects.len() && (#[trigger] subjects[i]).id == id {
        Some(choose|i: int| 0 <= i < subjects.len() && (#[trigger] subjects[i]).id == id)
    } else {
        None
    }
}

/// How many aspects the subjects have together.
pub open spec fn aspect_count(subjects: Seq<SubjectView>) -> nat
    decreases subjects.len(),
{
    if subjects.len() == 0 {
        0
    } else {
        aspect_count(subjects.drop_last()) + subjects.last().aspects.len()
    }
}

proof fn lemma_aspect_count_monotonic(subjects: Seq<SubjectView>, n: int)
    requires
        0 <= n <= subjects.len(),
    ensures
        aspect_count(subjects.take(n)) <= aspect_count(subjects),
    decreases subjects.len(),
{
    if n < subjects.len() {
        assert(subjects.drop_last().take(n) == subjects.take(n));
        lemma_aspect_count_monotonic(subjects.drop_last(), n);
    } else {
        assert(subjects.take(n) == subjects);
    }
}

impl DatabaseInfoView {
    /// No two subjects share an identifier.
    pub open spec fn is_valid(self) -> bool {
        forall|i: int, j: int|
            0 <= i < j < self.subjects.len() ==> (#[trigger] self.subjects[i]).id != (
            #[trigger] self.subjects[j]).id
    }
}

impl DatabaseInfo {
    /// A database of which only the name and the directory are known.
    pub fn new(name: String, path: String) -> (r: DatabaseInfo)
        ensures
            is_random_uuid(r.id.value),
            r.name == name,
            r.path == path,
            r.subjects@.len() == 0,
            r.metadata_path is None,
            r@.is_valid(),
    {
        DatabaseInfo {
            id: DatabaseId::new(),
            name,
            path,
            subjects: Vec::new(),
            metadata_path: None,
        }
    }

    pub fn id(&self) -> (r: DatabaseId)
        ensures
            r == self.id,
    {
        self.id
    }

    pub fn set_id(&mut self, id: DatabaseId)
        ensures
            final(self)@ == (DatabaseInfoView { id, ..old(self)@ }),
    {
        self.id = id;
    }

    pub fn name(&self) -> (r: &str)
        ensures
            r@ == self.name@,
    {
        self.name.as_str()
    }

    pub fn path(&self) -> (r: &str)
        ensures
            r@ == self.path@,
    {
        self.path.as_str()
    }

    pub fn subjects(&self) -> (r: &Vec<Subject>)
        ensures
            *r == self.subjects,
    {
        &self.subjects
    }

    pub fn metadata_path(&self) -> (r: &Option<String>)
        ensures
            *r == self.metadata_path,
    {
        &self.metadata_path
    }

    pub fn set_metadata_path(&mut self, path: Option<String>)
        ensures
            final(self)@ == (DatabaseInfoView { metadata_path: path, ..old(self)@ }),
    {
        self.metadata_path = path;
    }

    /// Adds a subject, in place of the one with its identifier if there is one.
    pub fn add_subject(&mut self, subject: Subject)
        requires
            old(self)@.is_valid(),
        ensures
            final(self)@.is_valid(),
            match subject_place(old(self)@.subjects, subject.id) {
                Some(i) => final(self)@ == (DatabaseInfoView {
                    subjects: old(self)@.subjects.update(i, subject@),
                    ..old(self)@
                }),
                None => final(self)@ == (DatabaseInfoView {
                    subjects: old(self)@.subjects.push(subject@),
                    ..old(self)@
                }),
            },
    {
        let mut i: usize = 0;
        while i < self.subjects.len()
            invariant
                i <= self.subjects.len(),
                *self == *old(self),
                old(self)@.is_valid(),
                forall|k: int| 0 <= k < i ==> (#[trigger] self@.subjects[k]).id != subject.id,
            decreases self.subjects.len() - i,
        {
            if self.subjects[i].id == subject.id {
                proof {
                    let place = subject_place(self@.subjects, subject.id);
                    assert(self@.subjects[i as int].id == subject.id);
                    assert(place == Some(i as int)) by {
                        let p = place->0;
                        assert(self@.subjects[p].id == self@.subjects[i as int].id);
                    }
                }
                let ghost view = subject@;
                self.subjects.set(i, subject);
                assert(self@.subjects == old(self)@.subjects.update(i as int, view));
                assert forall|a: int, b: int| 0 <= a < b < self@.subjects.len() implies (
                #[trigger] self@.subjects[a]).id != (#[trigger] self@.subjects[b]).id by {
                    assert(old(self)@.subjects[a].id != old(self)@.subjects[b].id);
                }
                return ;
            }
            i += 1;
        }
        let ghost view = subject@;
        self.subjects.push(subject);
        assert(self@.subjects == old(self)@.subjects.push(view));
        assert forall|a: int, b: int| 0 <= a < b < self@.subjects.len() implies (
        #[trigger] self@.subjects[a]).id != (#[trigger] self@.subjects[b]).id by {
            if b < old(self)@.subjects.len() {
                assert(old(self)@.subjects[a].id != old(self)@.subjects[b].id);
            }
        }
    }

    /// A subject with the given name, if there is one.
    pub fn get_subject_by_name(&self, name: &str) -> (r: Option<&Subject>)
        ensures
            match r {
                Some(subject) => self.subjects@.contains(*subject) && subject.name@ == name@,
                None => forall|i: int|
                    0 <= i < self.subjects.len() ==> (#[trigger] self.subjects@[i]).name@ != name@,
            },
    {
        let mut i: usize = 0;
        while i < self.subjects.len()
            invariant
                i <= self.subjects.len(),
                forall|k: int| 0 <= k < i ==> (#[trigger] self.subjects@[k]).name@ != name@,
            decreases self.subjects.len() - i,
        {
            if same_text(self.subjects[i].name.as_str(), name) {
                assert(self.subjects@[i as int].name@ == name@);
                return Some(&self.subjects[i]);
            }
            i += 1;
        }
        None
    }

    /// The number of aspects of all subjects.
    pub fn total_aspects(&self) -> (r: usize)
        requires
            aspect_count(self@.subjects) <= usize::MAX,
        ensures
            r == aspect_count(self@.subjects),
    {
        let mut total: usize = 0;
        let mut i: usize = 0;
        while i < self.subjects.len()
            invariant
                i <= self.subjects.len(),
                aspect_count(self@.subjects) <= usize::MAX,
                total == aspect_count(self@.subjects.take(i as int)),
            decreases self.subjects.len() - i,
        {
            proof {
                lemma_aspect_count_monotonic(self@.subjects, i + 1);
                assert(self@.subjects.take(i + 1).drop_last() == self@.subjects.take(i as int));
                assert(self@.subjects[i as int].aspects.len() == self.subjects@[i as int].aspects.len());
            }
            total += self.subjects[i].aspects.len();
            i += 1;
        }
        assert(self@.subjects.take(self@.subjects.len() as int) == self@.subjects);
        total
    }

    /// Whether the database has no subjects.
    pub fn is_empty(&self) -> (r: bool)
        ensures
            r == (self.subjects@.len() == 0),
    {
        self.subjects.len() == 0
    }

    /// The aspect with an identifier, of whichever subject has it.
    pub fn get_aspect(&self, id: AspectId) -> (r: Option<&Aspect>)
        ensures
            match r {
                Some(aspect) => aspect.info.id == id && exists|i: int|
                    0 <= i < self.subjects.len() && (#[trigger] self.subjects@[i]).aspects@.contains(
                        *aspect,
                    ),
                None => forall|i: int, j: int|
                    0 <= i < self.subjects.len() && 0 <= j < self.subjects@[i].aspects.len()
                        ==> (#[trigger] self.subjects@[i].aspects@[j]).info.id != id,
            },
    {
        let mut i: usize = 0;
        while i < self.subjects.len()
            invariant
                i <= self.subjects.len(),
                forall|k: int, j: int|
                    0 <= k < i && 0 <= j < self.subjects@[k].aspects.len() ==> (
                    #[trigger] self.subjects@[k].aspects@[j]).info.id != id,
            decreases self.subjects.len() - i,
        {
            match self.subjects[i].get_aspect(id) {
                Some(aspect) => {
                    assert(self.subjects@[i as int].aspects@.contains(*aspect));
                    return Some(aspect);
                },
                None => (),
            }
            i += 1;
        }
        None
    }

    /// The aspects of a subject.
    pub fn get_subject_aspects(&self, subject_id: SubjectId) -> (r: Result<Vec<Aspect>, Error>)
        requires
            self@.is_valid(),
        ensures
            match subject_place(self@.subjects, subject_id) {
                Some(i) => r is Ok && aspect_views(r->Ok_0@) == self@.subjects[i].aspects,
                None => r is Err && r->Err_0.spec_message() == "Database error: "@
                    + "Subject not found"@,
            },
    {
        let mut i: usize = 0;
        while i < self.subjects.len()
            invariant
                i <= self.subjects.len(),
                self@.is_valid(),
                forall|k: int| 0 <= k < i ==> (#[trigger] self@.subjects[k]).id != subject_id,
            decreases self.subjects.len() - i,
        {
            if self.subjects[i].id == subject_id {
                proof {
                    let place = subject_place(self@.subjects, subject_id);
                    assert(self@.subjects[i as int].id == subject_id);
                    assert(place == Some(i as int)) by {
                        let p = place->0;
                        assert(self@.subjects[p].id == self@.subjects[i as int].id);
                    }
                }
                return Ok(clone_aspects(&self.subjects[i].aspects));
            }
            i += 1;
        }
        Err(Error::DatabaseError("Subject not found".to_owned()))
    }

    /// The identifiers and names of the subjects.
    pub fn list_subjects(&self) -> (r: Vec<(SubjectId, String)>)
        ensures
            r.len() == self.subjects.len(),
            forall|i: int|
                0 <= i < r.len() ==> (#[trigger] r@[i]).0 == self.subjects@[i].id && r@[i].1
                    == self.subjects@[i].name,
    {
        let mut r: Vec<(SubjectId, String)> = Vec::new();
        let mut i: usize = 0;
        while i < self.subjects.len()
            invariant
                i <= self.subjects.len(),
                r.len() == i,
                forall|k: int|
                    0 <= k < i ==> (#[trigger] r@[k]).0 == self.subjects@[k].id && r@[k].1
                        == self.subjects@[k].name,
            decreases self.subjects.len() - i,
        {
            r.push((self.subjects[i].id, self.subjects[i].name.clone()));
            i += 1;
        }
        r
    }
}

/// Counts of what a database holds.
#[derive(Debug, Clone, Copy, PartialEq, Eq, Structural)]
pub struct DatabaseStats {
    pub subject_count: usize,
    pub aspect_count: usize,
}

impl Default for DatabaseStats {
    fn default() -> (r: DatabaseStats)
        ensures
            r.subject_count == 0,
            r.aspect_count == 0,
    {
        DatabaseStats { subject_count: 0, aspect_count: 0 }
    }
}

/// The databases whose names hold a pattern, in order.
pub open spec fn named_like(databases: Seq<DatabaseInfo>, pattern: Seq<char>) -> Seq<
    (DatabaseId, String),
>
    decreases databases.len(),
{
    if databases.len() == 0 {
        seq![]
    } else {
        let rest = named_like(databases.drop_last(), pattern);
        if occurs_in(databases.last().name@, pattern) {
            rest.push((databases.last().id, databases.last().name))
        } else {
            rest
        }
    }
}

/// The databases whose names hold a pattern.
pub fn find_databases_by_name(databases: &Vec<DatabaseInfo>, pattern: &str) -> (r: Vec<
    (DatabaseId, String),
>)
    ensures
        r@ == named_like(databases@, pattern@),
{
    let mut r: Vec<(DatabaseId, String)> = Vec::new();
    let mut i: usize = 0;
    while i < databases.len()
        invariant
            i <= databases.len(),
            r@ == named_like(databases@.take(i as int), pattern@),
        decreases databases.len() - i,
    {
        assert(databases@.take(i + 1).drop_last() == databases@.take(i as int));
        if contains(databases[i].name.as_str(), pattern) {
            r.push((databases[i].id, databases[i].name.clone()));
        }
        i += 1;
    }
    assert(databases@.take(databases@.len() as int) == databases@);
    r
}

/// A database with the given name, if there is one.
pub fn find_database_by_name(databases: &Vec<DatabaseInfo>, name: &str) -> (r: Option<DatabaseId>)
    ensures
        match r {
            Some(id) => exists|i: int|
                0 <= i < databases.len() && (#[trigger] databases@[i]).name@ == name@
                    && databases@[i].id == id,
            None => forall|i: int|
                0 <= i < databases.len() ==> (#[trigger] databases@[i]).name@ != name@,
        },
{
    let mut i: usize = 0;
    while i < databases.len()
        invariant
            i <= databases.len(),
            forall|k: int| 0 <= k < i ==> (#[trigger] databases@[k]).name@ != name@,
        decreases databases.len() - i,
    {
        if same_text(databases[i].name.as_str(), name) {
            assert(databases@[i as int].name@ == name@);
            return Some(databases[i].id);
        }
        i += 1;
    }
    None
}

/// The identifier, name and directory of every database.
pub fn get_all_database_info(databases: &Vec<DatabaseInfo>) -> (r: Vec<
    (DatabaseId, String, String),
>)
    ensures
        r.len() == databases.len(),
        forall|i: int|
            0 <= i < r.len() ==> (#[trigger] r@[i]).0 == databases@[i].id && r@[i].1
                == databases@[i].name && r@[i].2 == databases@[i].path,
{
    let mut r: Vec<(DatabaseId, String, String)> = Vec::new();
    let mut i: usize = 0;
    while i < databases.len()
        invariant
            i <= databases.len(),
            r.len() == i,
            forall|k: int|
                0 <= k < i ==> (#[trigger] r@[k]).0 == databases@[k].id && r@[k].1
                    == databases@[k].name && r@[k].2 == databases@[k].path,
        decreases databases.len() - i,
    {
        r.push((databases[i].id, databases[i].name.clone(), databases[i].path.clone()));
        i += 1;
    }
    r
}

}
