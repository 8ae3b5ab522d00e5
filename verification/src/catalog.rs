//! The registry of databases and their subjects, and of the schemas of aspects.
use crate::decimal::{decimal_parse, Decimal, DecimalView};
use crate::error::Error;
use crate::names::{is_ascending, name_views, standing, text_before, Names, Standing};
use crate::sql::{statement, text_value, value_views, SqlValue, SqlView, Statement, StatementView};
use crate::table::Table;
use crate::text::{join, same_text};
use crate::transaction::{step, step_views, OnFailure, Step, StepView};
use vstd::prelude::*;

verus! {

/// The databases, and the subjects of each.
#[verifier::ext_equal]
pub struct CatalogView {
    pub databases: Set<Seq<char>>,
    pub subjects: Map<Seq<char>, Set<Seq<char>>>,
}

impl CatalogView {
    /// No subject stands under a database that is not registered.
    pub open spec fn is_sound(self) -> bool {
        self.subjects.dom() == self.databases
    }

    /// With one more database, which has no subjects; one that is there already stays as it is.
    pub open spec fn with_database(self, name: Seq<char>) -> CatalogView {
        if self.databases.contains(name) {
            self
        } else {
            CatalogView {
                databases: self.databases.insert(name),
                subjects: self.subjects.insert(name, Set::empty()),
            }
        }
    }

    /// With one more subject of a database.
    pub open spec fn with_subject(self, database: Seq<char>, subject: Seq<char>) -> CatalogView {
        CatalogView {
            subjects: self.subjects.insert(database, self.subjects[database].insert(subject)),
            ..self
        }
    }

    /// Without a subject of a database.
    pub open spec fn without_subject(self, database: Seq<char>, subject: Seq<char>) -> CatalogView {
        if self.databases.contains(database) {
            CatalogView {
                subjects: self.subjects.insert(database, self.subjects[database].remove(subject)),
                ..self
            }
        } else {
            self
        }
    }

    /// Without a database and all its subjects.
    pub open spec fn without_database(self, name: Seq<char>) -> CatalogView {
        CatalogView {
            databases: self.databases.remove(name),
            subjects: self.subjects.remove(name),
        }
    }

    /// Whether a subject of a database is registered.
    pub open spec fn has_subject(self, database: Seq<char>, subject: Seq<char>) -> bool {
        self.databases.contains(database) && self.subjects[database].contains(subject)
    }
}

/// The registry of databases and their subjects.
#[derive(Debug)]
pub struct CatalogStore {
    pub databases: Names,
    pub subjects: Table<String, Names>,
}

impl View for CatalogStore {
    type V = CatalogView;

    open spec fn view(&self) -> CatalogView {
        CatalogView {
            databases: self.databases@,
            subjects: Map::new(
                |k: Seq<char>| self.subjects@.dom().contains(k),
                |k: Seq<char>| self.subjects@[k]@,
            ),
        }
    }
}

/// One text as the values of a statement.
pub open spec fn one_text(a: Seq<char>) -> Seq<SqlView> {
    seq![SqlView::Text(a)]
}

/// Two texts as the values of a statement.
pub open spec fn two_texts(a: Seq<char>, b: Seq<char>) -> Seq<SqlView> {
    seq![SqlView::Text(a), SqlView::Text(b)]
}

fn texts(a: &str) -> (r: Vec<SqlValue>)
    ensures
        value_views(r@) == one_text(a@),
{
    let mut r: Vec<SqlValue> = Vec::new();
    r.push(text_value(a));
    assert(value_views(r@) =~= one_text(a@));
    r
}

fn text_pair(a: &str, b: &str) -> (r: Vec<SqlValue>)
    ensures
        value_views(r@) == two_texts(a@, b@),
{
    let mut r: Vec<SqlValue> = Vec::new();
    r.push(text_value(a));
    r.push(text_value(b));
    assert(value_views(r@) =~= two_texts(a@, b@));
    r
}

/// A text between quotes, as Rust writes it for debugging.
pub uninterp spec fn quoted_text(text: Seq<char>) -> Seq<char>;

/// `format!` of std with `{:?}`: the text between quotes with its special characters escaped,
/// which is named.
#[verifier::external_body]
pub(crate) fn quoted(text: &str) -> (r: String)
    ensures
        r@ == quoted_text(text@),
{
    format!("{:?}", text)
}

/// Whether a listing of databases, and beside each the subjects of it, holds a subject of a database.
pub open spec fn stands_in_listing(
    databases: Seq<String>,
    subjects: Seq<Vec<String>>,
    d: Seq<char>,
    s: Seq<char>,
) -> bool {
    exists|k: int|
        0 <= k < databases.len() && (#[trigger] databases[k])@ == d && exists|j: int|
            0 <= j < subjects[k]@.len() && (#[trigger] subjects[k]@[j])@ == s
}

impl CatalogStore {
    pub open spec fn is_valid(&self) -> bool {
        &&& self.databases.is_valid()
        &&& self.subjects.is_valid()
        &&& self@.is_sound()
        &&& forall|k: Seq<char>| #[trigger]
            self.subjects@.dom().contains(k) ==> self.subjects@[k].is_valid()
    }

    /// A registry with nothing in it.
    pub fn open_in_memory() -> (r: CatalogStore)
        ensures
            r.is_valid(),
            r@.databases == Set::<Seq<char>>::empty(),
    {
        let r = CatalogStore { databases: Names::new(), subjects: Table::new() };
        assert(r@.subjects.dom() =~= r@.databases);
        r
    }

    /// A registry that is read back: the databases, and beside each the subjects of it.
    pub fn open(databases: &Vec<String>, subjects: &Vec<Vec<String>>) -> (r: CatalogStore)
        requires
            subjects.len() == databases.len(),
        ensures
            r.is_valid(),
            forall|d: Seq<char>| #[trigger]
                r@.databases.contains(d) <==> exists|i: int|
                    0 <= i < databases.len() && (#[trigger] databases@[i])@ == d,
            forall|d: Seq<char>, s: Seq<char>| #[trigger]
                r@.has_subject(d, s) <==> stands_in_listing(databases@, subjects@, d, s),
    {
        let mut r = CatalogStore::open_in_memory();
        let mut i: usize = 0;
        while i < databases.len()
            invariant
                i <= databases.len(),
                subjects.len() == databases.len(),
                r.is_valid(),
                forall|d: Seq<char>| #[trigger]
                    r@.databases.contains(d) <==> exists|k: int|
                        0 <= k < i && (#[trigger] databases@[k])@ == d,
                forall|d: Seq<char>, s: Seq<char>| #[trigger]
                    r@.has_subject(d, s) <==> exists|k: int|
                        0 <= k < i && (#[trigger] databases@[k])@ == d && exists|j: int|
                            0 <= j < subjects@[k]@.len() && (#[trigger] subjects@[k]@[j])@ == s,
            decreases databases.len() - i,
        {
            let database = databases[i].as_str();
            let names = &subjects[i];
            let ghost before = r@;
            r.register_database(database);
            assert(forall|d: Seq<char>, s: Seq<char>| #[trigger]
                r@.has_subject(d, s) <==> before.has_subject(d, s));
            let mut j: usize = 0;
            while j < names.len()
                invariant
                    j <= names.len(),
                    i < databases.len(),
                    subjects.len() == databases.len(),
                    names == subjects@[i as int],
                    database@ == databases@[i as int]@,
                    r.is_valid(),
                    r@.databases == before.databases.insert(database@),
                    forall|d: Seq<char>, s: Seq<char>| #[trigger]
                        r@.has_subject(d, s) <==> before.has_subject(d, s) || (d == database@
                            && exists|k: int| 0 <= k < j && (#[trigger] names@[k])@ == s),
                decreases names.len() - j,
            {
                let ghost so_far = r@;
                let subject = names[j].as_str();
                let _ = r.register_subject(database, subject);
                assert(so_far.databases.contains(database@));
                assert(r@ == so_far.with_subject(database@, subject@));
                assert forall|d: Seq<char>, s: Seq<char>| #[trigger]
                    r@.has_subject(d, s) <==> before.has_subject(d, s) || (d == database@
                        && exists|k: int| 0 <= k < j + 1 && (#[trigger] names@[k])@ == s) by {
                    assert(r@.has_subject(d, s) <==> so_far.has_subject(d, s) || (d == database@
                        && s == subject@));
                    if d == database@ && s == subject@ {
                        assert(names@[j as int]@ == s);
                    }
                }
                j += 1;
            }
            assert forall|d: Seq<char>| #[trigger] r@.databases.contains(d) <==> exists|k: int|
                0 <= k < i + 1 && (#[trigger] databases@[k])@ == d by {
                if d == database@ {
                    assert(databases@[i as int]@ == d);
                }
                if before.databases.contains(d) {
                    let k = choose|k: int| 0 <= k < i && (#[trigger] databases@[k])@ == d;
                    assert(databases@[k]@ == d);
                }
            }
            assert forall|d: Seq<char>, s: Seq<char>| #[trigger]
                r@.has_subject(d, s) <==> exists|k: int|
                    0 <= k < i + 1 && (#[trigger] databases@[k])@ == d && exists|j: int|
                        0 <= j < subjects@[k]@.len() && (#[trigger] subjects@[k]@[j])@ == s by {
                if d == database@ {
                    assert(databases@[i as int]@ == d);
                }
            }
            i += 1;
        }
        r
    }

    /// The statement of [`Self::list_databases_query`].
    pub open spec fn spec_list_databases_query() -> StatementView {
        StatementView { sql: "SELECT name FROM databases ORDER BY name"@, params: seq![] }
    }

    /// The query for the names of the databases, in order.
    pub fn list_databases_query() -> (r: Statement)
        ensures
            r@ == Self::spec_list_databases_query(),
    {
        let none: Vec<SqlValue> = Vec::new();
        assert(value_views(none@) =~= Seq::<SqlView>::empty());
        statement("SELECT name FROM databases ORDER BY name", none)
    }

    /// The statement of [`Self::list_subjects_query`].
    pub open spec fn spec_list_subjects_query(database: &str) -> StatementView {
        StatementView {
            sql: "SELECT subject FROM subjects WHERE database = ? ORDER BY subject"@,
            params: one_text(database@),
        }
    }

    /// The query for the subjects of a database, in order.
    pub fn list_subjects_query(database: &str) -> (r: Statement)
        ensures
            r@ == Self::spec_list_subjects_query(database),
    {
        statement(
            "SELECT subject FROM subjects WHERE database = ? ORDER BY subject",
            texts(database),
        )
    }

    /// The statement of [`Self::database_exists_query`].
    pub open spec fn spec_database_exists_query(name: &str) -> StatementView {
        StatementView {
            sql: "SELECT 1 FROM databases WHERE name = ?"@,
            params: one_text(name@),
        }
    }

    /// The query that finds a database where it is registered.
    pub fn database_exists_query(name: &str) -> (r: Statement)
        ensures
            r@ == Self::spec_database_exists_query(name),
    {
        statement("SELECT 1 FROM databases WHERE name = ?", texts(name))
    }

    /// The statement of [`Self::subject_exists_query`].
    pub open spec fn spec_subject_exists_query(database: &str, subject: &str) -> StatementView {
        StatementView {
            sql: "SELECT 1 FROM subjects WHERE database = ? AND subject = ?"@,
            params: two_texts(database@, subject@),
        }
    }

    /// The query that finds a subject where it is registered.
    pub fn subject_exists_query(database: &str, subject: &str) -> (r: Statement)
        ensures
            r@ == Self::spec_subject_exists_query(database, subject),
    {
        statement(
            "SELECT 1 FROM subjects WHERE database = ? AND subject = ?",
            text_pair(database, subject),
        )
    }

    /// The statements that make the tables of a new registry.
    pub fn tables() -> (r: Vec<Statement>)
        ensures
            crate::sql::statement_views(r@) == seq![
                StatementView {
                    sql: "CREATE TABLE IF NOT EXISTS databases (name TEXT NOT NULL, PRIMARY KEY (name))"@,
                    params: seq![],
                },
                StatementView {
                    sql: "CREATE TABLE IF NOT EXISTS subjects (database TEXT NOT NULL, subject TEXT NOT NULL, PRIMARY KEY (database, subject))"@,
                    params: seq![],
                },
            ],
    {
        let none: Vec<SqlValue> = Vec::new();
        let nothing: Vec<SqlValue> = Vec::new();
        assert(value_views(none@) =~= Seq::<SqlView>::empty());
        assert(value_views(nothing@) =~= Seq::<SqlView>::empty());
        let mut r: Vec<Statement> = Vec::new();
        r.push(
            statement(
                "CREATE TABLE IF NOT EXISTS databases (name TEXT NOT NULL, PRIMARY KEY (name))",
                none,
            ),
        );
        r.push(
            statement(
                "CREATE TABLE IF NOT EXISTS subjects (database TEXT NOT NULL, subject TEXT NOT NULL, PRIMARY KEY (database, subject))",
                nothing,
            ),
        );
        assert(crate::sql::statement_views(r@) =~= seq![r@[0]@, r@[1]@]);
        r
    }

    /// The step of [`Self::register_database`].
    pub open spec fn spec_register_database(name: &str) -> StepView {
        StepView {
            statement: StatementView {
                sql: "INSERT OR IGNORE INTO databases (name) VALUES (?)"@,
                params: one_text(name@),
            },
            complaint: "register_database failed: "@,
            on_failure: OnFailure::RollBackQuietly,
        }
    }

    /// Registers a database, if it is not registered yet, and says how that is stored.
    pub fn register_database(&mut self, name: &str) -> (r: Step)
        requires
            old(self).is_valid(),
        ensures
            final(self).is_valid(),
            final(self)@ == old(self)@.with_database(name@),
            r@ == Self::spec_register_database(name),
    {
        if !self.databases.contains(name) {
            self.databases.insert(name);
            let none = Names::new();
            self.subjects.insert(name.to_owned(), none);
            proof {
                let ghost want = old(self)@.with_database(name@);
                assert(self@.subjects =~= want.subjects);
                assert(self@ =~= want);
                assert(self@.subjects.dom() =~= self@.databases);
            }
        }
        step(
            statement("INSERT OR IGNORE INTO databases (name) VALUES (?)", texts(name)),
            "register_database failed: ",
            OnFailure::RollBackQuietly,
        )
    }

    /// The step of [`Self::register_subject`].
    pub open spec fn spec_register_subject(database: &str, subject: &str) -> StepView {
        StepView {
            statement: StatementView {
                sql: "INSERT OR IGNORE INTO subjects (database, subject) VALUES (?, ?)"@,
                params: two_texts(database@, subject@),
            },
            complaint: "register_subject failed: "@,
            on_failure: OnFailure::RollBackQuietly,
        }
    }

    /// Registers a subject of a database, if it is not registered yet, and says how that is stored.
    /// A subject of a database that is not registered is an error.
    pub fn register_subject(&mut self, database: &str, subject: &str) -> (r: Result<Step, Error>)
        requires
            old(self).is_valid(),
        ensures
            final(self).is_valid(),
            match r {
                Ok(s) => {
                    &&& old(self)@.databases.contains(database@)
                    &&& final(self)@ == old(self)@.with_subject(database@, subject@)
                    &&& s@ == Self::spec_register_subject(database, subject)
                },
                Err(e) => {
                    &&& !old(self)@.databases.contains(database@)
                    &&& final(self)@ == old(self)@
                    &&& e is Message
                    &&& e.spec_message() == "register_subject: database "@ + quoted_text(database@)
                        + " is not registered"@
                },
            },
    {
        match self.subjects.find(&database.to_owned()) {
            None => {
                proof {
                    assert(self@.subjects.dom().contains(database@)
                        <==> self.subjects@.dom().contains(database@));
                }
                let mut message = join("register_subject: database ", quoted(database).as_str());
                message.append(" is not registered");
                Err(Error::Message(message))
            },
            Some(at) => {
                proof {
                    assert(self@.subjects.dom().contains(database@));
                }
                let entry = self.subjects.remove_at(at);
                let mut names = entry.value;
                names.insert(subject);
                self.subjects.insert(entry.key, names);
                proof {
                    let ghost want = old(self)@.with_subject(database@, subject@);
                    assert(self@.subjects =~= want.subjects);
                    assert(self@ =~= want);
                    assert(self@.subjects.dom() =~= self@.databases);
                }
                Ok(
                    step(
                        statement(
                            "INSERT OR IGNORE INTO subjects (database, subject) VALUES (?, ?)",
                            text_pair(database, subject),
                        ),
                        "register_subject failed: ",
                        OnFailure::RollBackQuietly,
                    ),
                )
            },
        }
    }

    /// Whether a database is registered.
    pub fn database_exists(&self, name: &str) -> (r: bool)
        requires
            self.is_valid(),
        ensures
            r == self@.databases.contains(name@),
    {
        self.databases.contains(name)
    }

    /// Whether a subject of a database is registered.
    pub fn subject_exists(&self, database: &str, subject: &str) -> (r: bool)
        requires
            self.is_valid(),
        ensures
            r == self@.has_subject(database@, subject@),
    {
        proof {
            assert(self@.subjects.dom().contains(database@) <==> self.subjects@.dom().contains(
                database@,
            ));
        }
        match self.subjects.get(&database.to_owned()) {
            Some(names) => names.contains(subject),
            None => false,
        }
    }

    /// The databases, in the order of their names.
    pub fn list_databases(&self) -> (r: Vec<String>)
        requires
            self.is_valid(),
        ensures
            is_ascending(name_views(r@)),
            name_views(r@).to_set() == self@.databases,
    {
        self.databases.names()
    }

    /// The subjects of a database, in the order of their names.
    pub fn list_subjects(&self, database: &str) -> (r: Vec<String>)
        requires
            self.is_valid(),
        ensures
            is_ascending(name_views(r@)),
            name_views(r@).to_set() == if self@.databases.contains(database@) {
                self@.subjects[database@]
            } else {
                Set::empty()
            },
    {
        proof {
            assert(self@.subjects.dom().contains(database@) <==> self.subjects@.dom().contains(
                database@,
            ));
        }
        match self.subjects.get(&database.to_owned()) {
            Some(names) => names.names(),
            None => {
                let none: Vec<String> = Vec::new();
                assert(name_views(none@).to_set() =~= Set::<Seq<char>>::empty());
                none
            },
        }
    }

    /// The step of [`Self::remove_subject`].
    pub open spec fn spec_remove_subject(database: &str, subject: &str) -> StepView {
        StepView {
            statement: StatementView {
                sql: "DELETE FROM subjects WHERE database = ? AND subject = ?"@,
                params: two_texts(database@, subject@),
            },
            complaint: "remove_subject failed: "@,
            on_failure: OnFailure::RollBackQuietly,
        }
    }

    /// Takes a subject out, if it is there, and says how that is stored.
    pub fn remove_subject(&mut self, database: &str, subject: &str) -> (r: Step)
        requires
            old(self).is_valid(),
        ensures
            final(self).is_valid(),
            final(self)@ == old(self)@.without_subject(database@, subject@),
            r@ == Self::spec_remove_subject(database, subject),
    {
        proof {
            assert(self@.subjects.dom().contains(database@) <==> self.subjects@.dom().contains(
                database@,
            ));
        }
        match self.subjects.find(&database.to_owned()) {
            None => {},
            Some(at) => {
                let entry = self.subjects.remove_at(at);
                let mut names = entry.value;
                names.remove(subject);
                self.subjects.insert(entry.key, names);
                proof {
                    let ghost want = old(self)@.without_subject(database@, subject@);
                    assert(self@.subjects =~= want.subjects);
                    assert(self@ =~= want);
                    assert(self@.subjects.dom() =~= self@.databases);
                }
            },
        }
        step(
            statement(
                "DELETE FROM subjects WHERE database = ? AND subject = ?",
                text_pair(database, subject),
            ),
            "remove_subject failed: ",
            OnFailure::RollBackQuietly,
        )
    }

    /// The steps of [`Self::remove_database`].
    pub open spec fn spec_remove_database(name: &str) -> Seq<StepView> {
        seq![
            StepView {
                statement: StatementView {
                    sql: "DELETE FROM subjects WHERE database = ?"@,
                    params: one_text(name@),
                },
                complaint: "remove_database failed: "@,
                on_failure: OnFailure::RollBackQuietly,
            },
            StepView {
                statement: StatementView {
                    sql: "DELETE FROM databases WHERE name = ?"@,
                    params: one_text(name@),
                },
                complaint: "remove_database failed: "@,
                on_failure: OnFailure::RollBackQuietly,
            },
        ]
    }

    /// Takes a database and all its subjects out, if it is there, and says how that is stored.
    pub fn remove_database(&mut self, name: &str) -> (r: Vec<Step>)
        requires
            old(self).is_valid(),
        ensures
            final(self).is_valid(),
            final(self)@ == old(self)@.without_database(name@),
            step_views(r@) == Self::spec_remove_database(name),
    {
        self.databases.remove(name);
        let _ = self.subjects.remove(&name.to_owned());
        proof {
            let ghost want = old(self)@.without_database(name@);
            assert(self@.subjects =~= want.subjects);
            assert(self@ =~= want);
            assert(self@.subjects.dom() =~= self@.databases);
        }
        let mut r: Vec<Step> = Vec::new();
        r.push(
            step(
                statement("DELETE FROM subjects WHERE database = ?", texts(name)),
                "remove_database failed: ",
                OnFailure::RollBackQuietly,
            ),
        );
        r.push(
            step(
                statement("DELETE FROM databases WHERE name = ?", texts(name)),
                "remove_database failed: ",
                OnFailure::RollBackQuietly,
            ),
        );
        assert(step_views(r@) =~= seq![r@[0]@, r@[1]@]);
        r
    }
}

/// A registry is known by what it lists: one that is read back from the listing of another is the
/// same.
pub proof fn law_reopened_catalog_is_the_same(a: CatalogView, b: CatalogView)
    requires
        a.is_sound(),
        b.is_sound(),
        forall|d: Seq<char>| #[trigger] a.databases.contains(d) <==> b.databases.contains(d),
        forall|d: Seq<char>, s: Seq<char>| #[trigger] a.has_subject(d, s) <==> b.has_subject(d, s),
    ensures
        a == b,
{
    assert(a.databases =~= b.databases);
    assert forall|d: Seq<char>| a.databases.contains(d) implies a.subjects[d] == b.subjects[d] by {
        assert forall|s: Seq<char>| a.subjects[d].contains(s) <==> b.subjects[d].contains(s) by {
            assert(a.has_subject(d, s) <==> b.has_subject(d, s));
        }
        assert(a.subjects[d] =~= b.subjects[d]);
    }
    assert(a.subjects =~= b.subjects);
}

/// Registering a database again changes nothing.
pub proof fn law_registering_a_database_twice_is_once(c: CatalogView, name: Seq<char>)
    ensures
        c.with_database(name).with_database(name) == c.with_database(name),
        c.with_database(name).databases.contains(name),
{
}

/// Registering a subject again changes nothing.
pub proof fn law_registering_a_subject_twice_is_once(
    c: CatalogView,
    database: Seq<char>,
    subject: Seq<char>,
)
    requires
        c.is_sound(),
        c.databases.contains(database),
    ensures
        c.with_subject(database, subject).with_subject(database, subject) == c.with_subject(
            database,
            subject,
        ),
        c.with_subject(database, subject).has_subject(database, subject),
{
    let once = c.with_subject(database, subject);
    assert(once.subjects[database].insert(subject) =~= once.subjects[database]);
    assert(once.with_subject(database, subject).subjects =~= once.subjects);
}

/// No subject outlives its database, and the subjects of other databases stay.
pub proof fn law_no_subject_outlives_its_database(
    c: CatalogView,
    name: Seq<char>,
    database: Seq<char>,
    subject: Seq<char>,
)
    requires
        c.is_sound(),
    ensures
        c.without_database(name).is_sound(),
        c.without_database(name).has_subject(database, subject) <==> database != name
            && c.has_subject(database, subject),
{
    assert(c.without_database(name).subjects.dom() =~= c.without_database(name).databases);
}

/// A subject is registered under its own database alone.
pub proof fn law_subjects_belong_to_their_database(
    c: CatalogView,
    database: Seq<char>,
    subject: Seq<char>,
    other: Seq<char>,
    name: Seq<char>,
)
    requires
        c.is_sound(),
        c.databases.contains(database),
        other != database || name != subject,
    ensures
        c.with_subject(database, subject).has_subject(other, name) == c.has_subject(other, name),
        c.without_subject(database, subject).has_subject(other, name) == c.has_subject(other, name),
        c.without_subject(database, subject).databases == c.databases,
{
}

/// How the values of an aspect are stored.
#[derive(Debug, Clone, Copy, PartialEq, Eq, Structural)]
pub enum PhysicalType {
    F32,
    F64,
    /// Integers that count a decimal fraction with so many places.
    ScaledI64 { scale: u32 },
}

/// In which unit the instants of an aspect are stored.
#[derive(Debug, Clone, Copy, PartialEq, Eq, Structural)]
pub enum TimeUnit {
    Seconds,
    Millis,
    Micros,
    Nanos,
}

/// How an aspect is encoded.
#[derive(Debug)]
pub struct AspectSchema {
    pub value: PhysicalType,
    pub value_tolerance: Decimal,
    pub timestamp_unit: TimeUnit,
}

pub struct SchemaView {
    pub value: PhysicalType,
    pub value_tolerance: DecimalView,
    pub timestamp_unit: TimeUnit,
}

impl View for AspectSchema {
    type V = SchemaView;

    open spec fn view(&self) -> SchemaView {
        SchemaView {
            value: self.value,
            value_tolerance: self.value_tolerance@,
            timestamp_unit: self.timestamp_unit,
        }
    }
}

impl AspectSchema {
    pub fn new(value: PhysicalType, value_tolerance: Decimal, timestamp_unit: TimeUnit) -> (r:
        AspectSchema)
        ensures
            r.value == value,
            r.value_tolerance == value_tolerance,
            r.timestamp_unit == timestamp_unit,
    {
        AspectSchema { value, value_tolerance, timestamp_unit }
    }
}

/// An aspect, by the names of its database, its subject and itself.
#[derive(Debug)]
pub struct AspectKey {
    pub database: String,
    pub subject: String,
    pub aspect: String,
}

pub struct KeyView {
    pub database: Seq<char>,
    pub subject: Seq<char>,
    pub aspect: Seq<char>,
}

impl View for AspectKey {
    type V = KeyView;

    open spec fn view(&self) -> KeyView {
        KeyView { database: self.database@, subject: self.subject@, aspect: self.aspect@ }
    }
}

impl Clone for AspectKey {
    fn clone(&self) -> (r: AspectKey)
        ensures
            r@ == self@,
    {
        AspectKey {
            database: self.database.clone(),
            subject: self.subject.clone(),
            aspect: self.aspect.clone(),
        }
    }
}

/// Whether an aspect comes before another: by the database, then by the subject, then by its name.
pub open spec fn key_before(a: KeyView, b: KeyView) -> bool {
    if a.database != b.database {
        text_before(a.database, b.database)
    } else if a.subject != b.subject {
        text_before(a.subject, b.subject)
    } else {
        text_before(a.aspect, b.aspect)
    }
}

proof fn lemma_key_order(a: KeyView, b: KeyView, c: KeyView)
    ensures
        !key_before(a, a),
        key_before(a, b) && key_before(b, c) ==> key_before(a, c),
        key_before(a, b) || key_before(b, a) || a == b,
{
    crate::names::lemma_before_irreflexive(a.aspect);
    crate::names::lemma_before_irreflexive(a.subject);
    crate::names::lemma_before_irreflexive(a.database);
    crate::names::lemma_before_total(a.database, b.database);
    crate::names::lemma_before_total(a.subject, b.subject);
    crate::names::lemma_before_total(a.aspect, b.aspect);
    if key_before(a, b) && key_before(b, c) {
        if text_before(a.database, b.database) && text_before(b.database, c.database) {
            crate::names::lemma_before_transitive(a.database, b.database, c.database);
        }
        if text_before(a.subject, b.subject) && text_before(b.subject, c.subject) {
            crate::names::lemma_before_transitive(a.subject, b.subject, c.subject);
        }
        if text_before(a.aspect, b.aspect) && text_before(b.aspect, c.aspect) {
            crate::names::lemma_before_transitive(a.aspect, b.aspect, c.aspect);
        }
        if a.database == c.database && a.database != b.database {
            lemma_asymmetric(a.database, b.database);
        }
        if a.subject == c.subject && a.subject != b.subject {
            lemma_asymmetric(a.subject, b.subject);
        }
    }
}

proof fn lemma_asymmetric(a: Seq<char>, b: Seq<char>)
    ensures
        !(text_before(a, b) && text_before(b, a)),
{
    if text_before(a, b) && text_before(b, a) {
        crate::names::lemma_before_transitive(a, b, a);
        crate::names::lemma_before_irreflexive(a);
    }
}

fn key_standing(a: &AspectKey, database: &str, subject: &str, aspect: &str) -> (r: Standing)
    ensures
        ({
            let b = KeyView { database: database@, subject: subject@, aspect: aspect@ };
            &&& r == Standing::Before <==> key_before(a@, b)
            &&& r == Standing::Same <==> a@ == b
            &&& r == Standing::Behind <==> key_before(b, a@)
        }),
{
    proof {
        let b = KeyView { database: database@, subject: subject@, aspect: aspect@ };
        lemma_key_order(a@, b, a@);
        lemma_key_order(b, a@, b);
        lemma_asymmetric(a@.database, b.database);
        lemma_asymmetric(a@.subject, b.subject);
        lemma_asymmetric(a@.aspect, b.aspect);
        crate::names::lemma_before_irreflexive(a@.database);
        crate::names::lemma_before_irreflexive(a@.subject);
        crate::names::lemma_before_irreflexive(a@.aspect);
    }
    match standing(a.database.as_str(), database) {
        Standing::Same => match standing(a.subject.as_str(), subject) {
            Standing::Same => standing(a.aspect.as_str(), aspect),
            other => other,
        },
        other => other,
    }
}

/// A declared schema.
#[derive(Debug)]
pub struct Declaration {
    pub key: AspectKey,
    pub schema: AspectSchema,
}

/// The schemas of aspects, in the order of their names.
#[derive(Debug)]
pub struct AspectCatalog {
    pub declarations: Vec<Declaration>,
}

pub open spec fn declared_keys(s: Seq<Declaration>) -> Seq<KeyView> {
    Seq::new(s.len(), |i: int| s[i].key@)
}

/// Whether every aspect comes before all that follow it.
pub open spec fn keys_ascend(s: Seq<KeyView>) -> bool {
    forall|i: int, j: int| 0 <= i < j < s.len() ==> key_before(#[trigger] s[i], #[trigger] s[j])
}

pub open spec fn is_declared(s: Seq<Declaration>, key: KeyView) -> bool {
    exists|i: int| 0 <= i < s.len() && (#[trigger] s[i]).key@ == key
}

pub open spec fn place_declared(s: Seq<Declaration>, key: KeyView) -> int {
    choose|i: int| 0 <= i < s.len() && (#[trigger] s[i]).key@ == key
}

impl View for AspectCatalog {
    type V = Map<KeyView, SchemaView>;

    open spec fn view(&self) -> Map<KeyView, SchemaView> {
        Map::new(
            |key: KeyView| is_declared(self.declarations@, key),
            |key: KeyView|
                self.declarations@[place_declared(self.declarations@, key)].schema@,
        )
    }
}

proof fn lemma_declared(s: Seq<Declaration>, i: int)
    requires
        keys_ascend(declared_keys(s)),
        0 <= i < s.len(),
    ensures
        is_declared(s, s[i].key@),
        place_declared(s, s[i].key@) == i,
{
    let key = s[i].key@;
    assert(is_declared(s, key));
    let p = place_declared(s, key);
    let keys = declared_keys(s);
    lemma_key_order(key, key, key);
    if p < i {
        assert(key_before(keys[p], keys[i]));
    } else if i < p {
        assert(key_before(keys[i], keys[p]));
    }
}

impl AspectCatalog {
    pub open spec fn is_valid(&self) -> bool {
        keys_ascend(declared_keys(self.declarations@))
    }

    /// A catalog with nothing in it.
    pub fn open_in_memory() -> (r: AspectCatalog)
        ensures
            r.is_valid(),
            r@ == Map::<KeyView, SchemaView>::empty(),
    {
        let r = AspectCatalog { declarations: Vec::new() };
        assert(r@ =~= Map::<KeyView, SchemaView>::empty());
        r
    }

    fn place(&self, database: &str, subject: &str, aspect: &str) -> (r: Result<usize, usize>)
        requires
            self.is_valid(),
        ensures
            ({
                let key = KeyView { database: database@, subject: subject@, aspect: aspect@ };
                match r {
                    Ok(i) => {
                        &&& i < self.declarations.len()
                        &&& self.declarations@[i as int].key@ == key
                        &&& self@.dom().contains(key)
                        &&& self@[key] == self.declarations@[i as int].schema@
                    },
                    Err(i) => {
                        &&& i <= self.declarations.len()
                        &&& !self@.dom().contains(key)
                        &&& forall|k: int|
                            0 <= k < i ==> key_before(#[trigger] self.declarations@[k].key@, key)
                        &&& forall|k: int|
                            i <= k < self.declarations.len() ==> key_before(
                                key,
                                #[trigger] self.declarations@[k].key@,
                            )
                    },
                }
            }),
    {
        let ghost key = KeyView { database: database@, subject: subject@, aspect: aspect@ };
        let ghost keys = declared_keys(self.declarations@);
        let mut i: usize = 0;
        while i < self.declarations.len()
            invariant
                i <= self.declarations.len(),
                self.is_valid(),
                keys == declared_keys(self.declarations@),
                key == (KeyView { database: database@, subject: subject@, aspect: aspect@ }),
                forall|k: int|
                    0 <= k < i ==> key_before(#[trigger] self.declarations@[k].key@, key),
            decreases self.declarations.len() - i,
        {
            match key_standing(&self.declarations[i].key, database, subject, aspect) {
                Standing::Before => {},
                Standing::Same => {
                    proof {
                        lemma_declared(self.declarations@, i as int);
                    }
                    return Ok(i);
                },
                Standing::Behind => {
                    proof {
                        assert forall|k: int| i <= k < self.declarations.len() implies key_before(
                            key,
                            #[trigger] self.declarations@[k].key@,
                        ) by {
                            if k > i {
                                assert(key_before(keys[i as int], keys[k]));
                                lemma_key_order(key, keys[i as int], keys[k]);
                            }
                        }
                        lemma_not_declared(self.declarations@, key, i as int);
                    }
                    return Err(i);
                },
            }
            i += 1;
        }
        proof {
            lemma_not_declared(self.declarations@, key, i as int);
        }
        Err(i)
    }

    /// Declares the schema of an aspect, in place of the one declared before.
    pub fn declare(&mut self, database: &str, subject: &str, aspect: &str, schema: AspectSchema)
        requires
            old(self).is_valid(),
        ensures
            final(self).is_valid(),
            final(self)@ == old(self)@.insert(
                (KeyView { database: database@, subject: subject@, aspect: aspect@ }),
                schema@,
            ),
    {
        let ghost key = KeyView { database: database@, subject: subject@, aspect: aspect@ };
        let ghost before = self.declarations@;
        let ghost keys = declared_keys(before);
        let ghost view = schema@;
        let entry = Declaration {
            key: AspectKey {
                database: database.to_owned(),
                subject: subject.to_owned(),
                aspect: aspect.to_owned(),
            },
            schema,
        };
        assert(entry.key@ == key);
        match self.place(database, subject, aspect) {
            Ok(i) => {
                self.declarations.set(i, entry);
                proof {
                    let after = self.declarations@;
                    assert(declared_keys(after) =~= keys);
                    lemma_replaced_declaration(before, after, i as int, key, view);
                    assert(self@ =~= old(self)@.insert(key, view));
                }
            },
            Err(i) => {
                self.declarations.insert(i, entry);
                proof {
                    let after = self.declarations@;
                    assert(after =~= before.insert(i as int, entry));
                    lemma_added_declaration(before, entry, i as int);
                    assert(self@ =~= old(self)@.insert(key, view));
                }
            },
        }
    }

    /// The schema of an aspect, if one is declared.
    pub fn get(&self, database: &str, subject: &str, aspect: &str) -> (r: Option<&AspectSchema>)
        requires
            self.is_valid(),
        ensures
            ({
                let key = KeyView { database: database@, subject: subject@, aspect: aspect@ };
                match r {
                    Some(s) => self@.dom().contains(key) && s@ == self@[key],
                    None => !self@.dom().contains(key),
                }
            }),
    {
        match self.place(database, subject, aspect) {
            Ok(i) => Some(&self.declarations[i].schema),
            Err(_) => None,
        }
    }

    /// The aspects of a subject that have a schema, in the order of their names.
    pub fn list_aspects(&self, database: &str, subject: &str) -> (r: Vec<String>)
        requires
            self.is_valid(),
        ensures
            is_ascending(name_views(r@)),
            forall|aspect: Seq<char>| #[trigger]
                name_views(r@).contains(aspect) <==> self@.dom().contains(
                    KeyView { database: database@, subject: subject@, aspect },
                ),
    {
        let ghost keys = declared_keys(self.declarations@);
        let mut r: Vec<String> = Vec::new();
        let mut i: usize = 0;
        while i < self.declarations.len()
            invariant
                i <= self.declarations.len(),
                self.is_valid(),
                keys == declared_keys(self.declarations@),
                is_ascending(name_views(r@)),
                forall|k: int|
                    0 <= k < r.len() ==> exists|j: int|
                        0 <= j < i && (#[trigger] keys[j]) == (KeyView {
                            database: database@,
                            subject: subject@,
                            aspect: (#[trigger] name_views(r@)[k]),
                        }),
                forall|j: int|
                    0 <= j < i && (#[trigger] keys[j]).database == database@ && keys[j].subject
                        == subject@ ==> name_views(r@).contains(keys[j].aspect),
            decreases self.declarations.len() - i,
        {
            let key = &self.declarations[i].key;
            let ghost before = name_views(r@);
            assert(keys[i as int] == key@);
            if same_text(key.database.as_str(), database) && same_text(
                key.subject.as_str(),
                subject,
            ) {
                r.push(key.aspect.clone());
                proof {
                    let after = name_views(r@);
                    assert(after =~= before.push(key.aspect@));
                    assert forall|a: int, b: int| 0 <= a < b < after.len() implies text_before(
                        #[trigger] after[a],
                        #[trigger] after[b],
                    ) by {
                        assert(after[a] == before[a]);
                        if b < before.len() {
                            assert(text_before(before[a], before[b]));
                        } else {
                            let j = choose|j: int|
                                0 <= j < i && (#[trigger] keys[j]) == (KeyView {
                                    database: database@,
                                    subject: subject@,
                                    aspect: before[a],
                                });
                            assert(key_before(keys[j], keys[i as int]));
                        }
                    }
                    assert forall|k: int| 0 <= k < r.len() implies exists|j: int|
                        0 <= j < i + 1 && (#[trigger] keys[j]) == (KeyView {
                            database: database@,
                            subject: subject@,
                            aspect: (#[trigger] after[k]),
                        }) by {
                        if k < before.len() {
                            let j = choose|j: int|
                                0 <= j < i && (#[trigger] keys[j]) == (KeyView {
                                    database: database@,
                                    subject: subject@,
                                    aspect: before[k],
                                });
                            assert(keys[j].aspect == after[k]);
                        } else {
                            assert(keys[i as int].aspect == after[k]);
                        }
                    }
                    assert forall|j: int|
                        0 <= j < i + 1 && (#[trigger] keys[j]).database == database@
                            && keys[j].subject == subject@ implies after.contains(
                        keys[j].aspect,
                    ) by {
                        if j < i {
                            let k = choose|k: int|
                                0 <= k < before.len() && before[k] == keys[j].aspect;
                            assert(after[k] == keys[j].aspect);
                        } else {
                            assert(after[before.len() as int] == keys[j].aspect);
                        }
                    }
                }
            }
            i += 1;
        }
        proof {
            let listed = name_views(r@);
            assert forall|aspect: Seq<char>| #[trigger] listed.contains(aspect)
                <==> self@.dom().contains(
                KeyView { database: database@, subject: subject@, aspect },
            ) by {
                let key = KeyView { database: database@, subject: subject@, aspect };
                if listed.contains(aspect) {
                    let k = choose|k: int| 0 <= k < listed.len() && listed[k] == aspect;
                    let j = choose|j: int|
                        0 <= j < i && (#[trigger] keys[j]) == (KeyView {
                            database: database@,
                            subject: subject@,
                            aspect: listed[k],
                        });
                    assert(self.declarations@[j].key@ == key);
                    assert(is_declared(self.declarations@, key));
                }
                if is_declared(self.declarations@, key) {
                    let j = place_declared(self.declarations@, key);
                    assert(keys[j] == key);
                }
            }
        }
        r
    }

    /// All aspects that have a schema: by the database, then by the subject, then by their names.
    pub fn list_all(&self) -> (r: Vec<AspectKey>)
        requires
            self.is_valid(),
        ensures
            ({
                let keys = Seq::new(r@.len(), |i: int| r@[i]@);
                &&& keys_ascend(keys)
                &&& forall|key: KeyView| #[trigger]
                    keys.contains(key) <==> self@.dom().contains(key)
            }),
    {
        let mut r: Vec<AspectKey> = Vec::new();
        let mut i: usize = 0;
        while i < self.declarations.len()
            invariant
                i <= self.declarations.len(),
                r.len() == i,
                forall|k: int| 0 <= k < i ==> (#[trigger] r@[k])@ == self.declarations@[k].key@,
            decreases self.declarations.len() - i,
        {
            r.push(self.declarations[i].key.clone());
            i += 1;
        }
        proof {
            let keys = Seq::new(r@.len(), |i: int| r@[i]@);
            assert(keys =~= declared_keys(self.declarations@));
            assert forall|key: KeyView| #[trigger] keys.contains(key) <==> self@.dom().contains(
                key,
            ) by {
                if keys.contains(key) {
                    let k = choose|k: int| 0 <= k < keys.len() && keys[k] == key;
                    assert(self.declarations@[k].key@ == key);
                }
                if is_declared(self.declarations@, key) {
                    let k = place_declared(self.declarations@, key);
                    assert(keys[k] == key);
                }
            }
        }
        r
    }
}

proof fn lemma_not_declared(s: Seq<Declaration>, key: KeyView, i: int)
    requires
        0 <= i <= s.len(),
        forall|k: int| 0 <= k < i ==> key_before(#[trigger] s[k].key@, key),
        forall|k: int| i <= k < s.len() ==> key_before(key, #[trigger] s[k].key@),
    ensures
        !is_declared(s, key),
{
    lemma_key_order(key, key, key);
    if is_declared(s, key) {
        let k = place_declared(s, key);
        assert(s[k].key@ == key);
    }
}

proof fn lemma_replaced_declaration(
    before: Seq<Declaration>,
    after: Seq<Declaration>,
    i: int,
    key: KeyView,
    view: SchemaView,
)
    requires
        keys_ascend(declared_keys(before)),
        keys_ascend(declared_keys(after)),
        0 <= i < before.len(),
        before[i].key@ == key,
        after.len() == before.len(),
        after[i].key@ == key,
        after[i].schema@ == view,
        forall|k: int| 0 <= k < before.len() && k != i ==> #[trigger] after[k] == before[k],
    ensures
        forall|k: KeyView| is_declared(after, k) <==> #[trigger] is_declared(before, k),
        forall|k: KeyView| #[trigger]
            is_declared(after, k) ==> after[place_declared(after, k)].schema@ == if k == key {
                view
            } else {
                before[place_declared(before, k)].schema@
            },
{
    assert forall|k: KeyView| is_declared(after, k) <==> #[trigger] is_declared(before, k) by {
        if is_declared(after, k) {
            let p = place_declared(after, k);
            if p != i {
                assert(before[p].key@ == k);
            } else {
                assert(before[i].key@ == k);
            }
        }
        if is_declared(before, k) {
            let p = place_declared(before, k);
            if p != i {
                assert(after[p].key@ == k);
            } else {
                assert(after[i].key@ == k);
            }
        }
    }
    assert forall|k: KeyView| #[trigger] is_declared(after, k) implies after[place_declared(
        after,
        k,
    )].schema@ == (if k == key {
        view
    } else {
        before[place_declared(before, k)].schema@
    }) by {
        let p = place_declared(after, k);
        lemma_declared(after, i);
        if k != key {
            assert(p != i);
            assert(before[p].key@ == k);
            lemma_declared(before, p);
        }
    }
}

proof fn lemma_added_declaration(before: Seq<Declaration>, entry: Declaration, i: int)
    requires
        keys_ascend(declared_keys(before)),
        0 <= i <= before.len(),
        forall|k: int| 0 <= k < i ==> key_before(#[trigger] before[k].key@, entry.key@),
        forall|k: int| i <= k < before.len() ==> key_before(entry.key@, #[trigger] before[k].key@),
    ensures
        keys_ascend(declared_keys(before.insert(i, entry))),
        forall|k: KeyView|
            is_declared(before.insert(i, entry), k) <==> #[trigger] is_declared(before, k) || k
                == entry.key@,
        forall|k: KeyView| #[trigger]
            is_declared(before.insert(i, entry), k) ==> before.insert(i, entry)[place_declared(
                before.insert(i, entry),
                k,
            )].schema@ == if k == entry.key@ {
                entry.schema@
            } else {
                before[place_declared(before, k)].schema@
            },
{
    let after = before.insert(i, entry);
    let keys = declared_keys(before);
    let new_keys = declared_keys(after);
    assert(new_keys =~= keys.insert(i, entry.key@));
    assert forall|a: int, b: int| 0 <= a < b < new_keys.len() implies key_before(
        #[trigger] new_keys[a],
        #[trigger] new_keys[b],
    ) by {
        let x = if a < i {
            a
        } else {
            a - 1
        };
        let y = if b < i {
            b
        } else {
            b - 1
        };
        if a != i && b != i {
            assert(key_before(keys[x], keys[y]));
        } else if a == i {
            assert(new_keys[b] == before[y].key@);
        } else {
            assert(new_keys[a] == before[x].key@);
        }
    }
    assert(after[i] == entry);
    assert forall|k: KeyView|
        is_declared(after, k) <==> #[trigger] is_declared(before, k) || k == entry.key@ by {
        if is_declared(after, k) {
            let p = place_declared(after, k);
            if p < i {
                assert(before[p].key@ == k);
            } else if p > i {
                assert(before[p - 1].key@ == k);
            }
        }
        if is_declared(before, k) {
            let p = place_declared(before, k);
            if p < i {
                assert(after[p].key@ == k);
            } else {
                assert(after[p + 1].key@ == k);
            }
        }
        if k == entry.key@ {
            assert(after[i].key@ == k);
        }
    }
    assert forall|k: KeyView| #[trigger] is_declared(after, k) implies after[place_declared(
        after,
        k,
    )].schema@ == (if k == entry.key@ {
        entry.schema@
    } else {
        before[place_declared(before, k)].schema@
    }) by {
        let p = place_declared(after, k);
        lemma_declared(after, i);
        if k != entry.key@ {
            let q = if p < i {
                p
            } else {
                p - 1
            };
            assert(before[q].key@ == k);
            lemma_declared(before, q);
        }
    }
}

/// The statement that makes the table of a new catalog.
pub fn aspect_schema_table() -> (r: Statement)
    ensures
        r@ == (StatementView {
            sql: "CREATE TABLE IF NOT EXISTS aspect_schema (database TEXT NOT NULL, subject TEXT NOT NULL, aspect TEXT NOT NULL, physical_type TEXT NOT NULL, value_tolerance TEXT NOT NULL, timestamp_unit TEXT NOT NULL, PRIMARY KEY (database, subject, aspect))"@,
            params: seq![],
        }),
{
    let none: Vec<SqlValue> = Vec::new();
    assert(value_views(none@) =~= Seq::<SqlView>::empty());
    statement(
        "CREATE TABLE IF NOT EXISTS aspect_schema (database TEXT NOT NULL, subject TEXT NOT NULL, aspect TEXT NOT NULL, physical_type TEXT NOT NULL, value_tolerance TEXT NOT NULL, timestamp_unit TEXT NOT NULL, PRIMARY KEY (database, subject, aspect))",
        none,
    )
}

/// The statement of [`schema_query`].
pub open spec fn spec_schema_query(database: &str, subject: &str, aspect: &str) -> StatementView {
    StatementView {
        sql: "SELECT physical_type, value_tolerance, timestamp_unit FROM aspect_schema WHERE database = ? AND subject = ? AND aspect = ?"@,
        params: two_texts(database@, subject@).push(SqlView::Text(aspect@)),
    }
}

/// The query for the schema of an aspect.
pub fn schema_query(database: &str, subject: &str, aspect: &str) -> (r: Statement)
    ensures
        r@ == spec_schema_query(database, subject, aspect),
{
    let mut params = text_pair(database, subject);
    let ghost first = value_views(params@);
    params.push(text_value(aspect));
    assert(value_views(params@) =~= first.push(SqlView::Text(aspect@)));
    statement(
        "SELECT physical_type, value_tolerance, timestamp_unit FROM aspect_schema WHERE database = ? AND subject = ? AND aspect = ?",
        params,
    )
}

/// The statement of [`list_aspects_query`].
pub open spec fn spec_list_aspects_query(database: &str, subject: &str) -> StatementView {
    StatementView {
        sql: "SELECT aspect FROM aspect_schema WHERE database = ? AND subject = ? ORDER BY aspect"@,
        params: two_texts(database@, subject@),
    }
}

/// The query for the aspects of a subject that have a schema, in order.
pub fn list_aspects_query(database: &str, subject: &str) -> (r: Statement)
    ensures
        r@ == spec_list_aspects_query(database, subject),
{
    statement(
        "SELECT aspect FROM aspect_schema WHERE database = ? AND subject = ? ORDER BY aspect",
        text_pair(database, subject),
    )
}

/// The statement of [`list_all_query`].
pub open spec fn spec_list_all_query() -> StatementView {
    StatementView {
        sql: "SELECT database, subject, aspect FROM aspect_schema ORDER BY database, subject, aspect"@,
        params: seq![],
    }
}

/// The query for everything that has a schema, in order.
pub fn list_all_query() -> (r: Statement)
    ensures
        r@ == spec_list_all_query(),
{
    let none: Vec<SqlValue> = Vec::new();
    assert(value_views(none@) =~= Seq::<SqlView>::empty());
    statement(
        "SELECT database, subject, aspect FROM aspect_schema ORDER BY database, subject, aspect",
        none,
    )
}

/// The row that a schema is stored in, in which the type and the unit are given as texts.
pub open spec fn schema_row(
    key: KeyView,
    physical_type: Seq<char>,
    tolerance: DecimalView,
    unit: Seq<char>,
) -> Seq<SqlView> {
    seq![
        SqlView::Text(key.database),
        SqlView::Text(key.subject),
        SqlView::Text(key.aspect),
        SqlView::Text(physical_type),
        SqlView::Text(crate::decimal::decimal_plain_text(tolerance.mantissa, tolerance.scale)),
        SqlView::Text(unit),
    ]
}

/// The step of [`store_declaration`].
pub open spec fn spec_store_declaration(
    key: &AspectKey,
    physical_type: &str,
    tolerance: &Decimal,
    timestamp_unit: &str,
) -> StepView {
    StepView {
        statement: StatementView {
            sql: "INSERT OR REPLACE INTO aspect_schema (database, subject, aspect, physical_type, value_tolerance, timestamp_unit) VALUES (?, ?, ?, ?, ?, ?)"@,
            params: schema_row(key@, physical_type@, tolerance@, timestamp_unit@),
        },
        complaint: "aspect_schema declare failed: "@,
        on_failure: OnFailure::RollBackQuietly,
    }
}

/// How the declaration of a schema is stored, of which the type and the unit are given as texts.
pub fn store_declaration(
    key: &AspectKey,
    physical_type: &str,
    tolerance: &Decimal,
    timestamp_unit: &str,
) -> (r: Step)
    requires
        tolerance@.is_comparable(),
    ensures
        r@ == spec_store_declaration(key, physical_type, tolerance, timestamp_unit),
{
    let mut params: Vec<SqlValue> = Vec::new();
    params.push(text_value(key.database.as_str()));
    params.push(text_value(key.subject.as_str()));
    params.push(text_value(key.aspect.as_str()));
    params.push(text_value(physical_type));
    params.push(SqlValue::Text(tolerance.plain_text()));
    params.push(text_value(timestamp_unit));
    assert(value_views(params@) =~= schema_row(
        key@,
        physical_type@,
        tolerance@,
        timestamp_unit@,
    ));
    step(
        statement(
            "INSERT OR REPLACE INTO aspect_schema (database, subject, aspect, physical_type, value_tolerance, timestamp_unit) VALUES (?, ?, ?, ?, ?, ?)",
            params,
        ),
        "aspect_schema declare failed: ",
        OnFailure::RollBackQuietly,
    )
}

/// The text of a value, and nothing of a value that is no text.
pub open spec fn text_or_empty(v: SqlView) -> Seq<char> {
    match v {
        SqlView::Text(s) => s,
        _ => seq![],
    }
}

/// The tolerance that a stored value writes, or the error. A tolerance that was stored is read back
/// as the same value.
pub fn stored_tolerance(value: &SqlValue) -> (r: Result<Decimal, Error>)
    ensures
        match r {
            Ok(d) => decimal_parse(text_or_empty(value@)) == Ok::<(int, int), Seq<char>>(
                (d@.mantissa, d@.scale),
            ),
            Err(e) => e is Message && decimal_parse(text_or_empty(value@)) == Err::<
                (int, int),
                Seq<char>,
            >(e.spec_message()),
        },
        forall|d: DecimalView|
            d.is_comparable() && value@ == SqlView::Text(
                #[trigger] crate::decimal::decimal_plain_text(d.mantissa, d.scale),
            ) ==> r is Ok && r->Ok_0@.same_value(d),
{
    let text = match value {
        SqlValue::Text(s) => s.clone(),
        _ => String::new(),
    };
    assert(text@ =~= text_or_empty(value@));
    match Decimal::parse(text.as_str()) {
        Ok(d) => Ok(d),
        Err(e) => Err(Error::Message(e)),
    }
}

}
