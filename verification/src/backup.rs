//! Backups of the control plane: what is copied, what a copy is checked for, and when a restore is
//! refused.
use crate::catalog::quoted_text;
use crate::error::Error;
use crate::names::name_views;
use crate::paths::{join_path, joined};
use crate::sql::{SqlValue, SqlView};
use crate::text::{
    double_quotes,
    doubled,
    has_prefix,
    i64_text,
    int_text,
    join,
    same_text,
    starts_with,
};
use vstd::prelude::*;

verus! {

/// What the copy of a database is checked against.
#[derive(Debug, Clone, Copy, PartialEq, Eq, Structural)]
pub enum VerifyMode {
    /// The source, which must not be written to meanwhile.
    SourceMatch,
    /// Nothing but itself.
    SnapshotOnly,
}

impl Default for VerifyMode {
    fn default() -> (r: VerifyMode)
        ensures
            r == VerifyMode::SourceMatch,
    {
        VerifyMode::SourceMatch
    }
}

/// A copy of a database, and what was checked of it.
#[derive(Debug)]
pub struct SnapshotReport {
    pub dest: String,
    pub tables: usize,
    pub rows: i64,
    pub bytes: u64,
    pub mode: VerifyMode,
}

pub open spec fn spec_engine_internal(name: Seq<char>) -> bool {
    starts_with(name, "sqlite_"@) || starts_with(name, "__turso_"@)
}

/// Whether a table belongs to the database engine.
pub fn is_engine_internal(name: &str) -> (r: bool)
    ensures
        r == spec_engine_internal(name@),
{
    has_prefix(name, "sqlite_") || has_prefix(name, "__turso_")
}

/// The text of [`tables_query`].
pub open spec fn spec_tables_query() -> Seq<char> {
    "SELECT name FROM sqlite_master WHERE type = 'table' ORDER BY name"@
}

/// The query for the names of all tables, in order.
pub fn tables_query() -> (r: &'static str)
    ensures
        r@ == spec_tables_query(),
{
    "SELECT name FROM sqlite_master WHERE type = 'table' ORDER BY name"
}

/// The names of tables without those of the engine, up to a place.
pub open spec fn user_names(values: Seq<SqlValue>) -> Seq<Seq<char>>
    decreases values.len(),
{
    if values.len() == 0 {
        seq![]
    } else {
        let name = values.last()@->Text_0;
        if spec_engine_internal(name) {
            user_names(values.drop_last())
        } else {
            user_names(values.drop_last()).push(name)
        }
    }
}

/// Whether the value at a place is the first that is no text.
pub open spec fn is_first_odd(values: Seq<SqlValue>, i: int) -> bool {
    &&& 0 <= i < values.len()
    &&& !(values[i]@ is Text)
    &&& forall|k: int| 0 <= k < i ==> (#[trigger] values[k])@ is Text
}

/// The tables of the user, in the order in which all tables are given. A name that is no text is an
/// error; how it is shown then is given for each.
pub fn user_tables(values: &Vec<SqlValue>, shown: &Vec<String>) -> (r: Result<Vec<String>, Error>)
    requires
        shown.len() == values.len(),
    ensures
        match r {
            Ok(names) => name_views(names@) == user_names(values@) && forall|i: int|
                0 <= i < values.len() ==> (#[trigger] values@[i])@ is Text,
            Err(e) => exists|i: int| #[trigger]
                is_first_odd(values@, i) && e is Message && e.spec_message()
                    == "sqlite_master.name was not text: "@ + shown@[i]@,
        },
{
    let mut names: Vec<String> = Vec::new();
    let mut i: usize = 0;
    assert(values@.take(0) =~= Seq::<SqlValue>::empty());
    assert(name_views(names@) =~= user_names(values@.take(0)));
    while i < values.len()
        invariant
            i <= values.len(),
            shown.len() == values.len(),
            name_views(names@) == user_names(values@.take(i as int)),
            forall|k: int| 0 <= k < i ==> (#[trigger] values@[k])@ is Text,
        decreases values.len() - i,
    {
        assert(values@.take(i + 1).drop_last() =~= values@.take(i as int));
        match &values[i] {
            SqlValue::Text(name) => {
                if !is_engine_internal(name.as_str()) {
                    let ghost before = name_views(names@);
                    names.push(name.clone());
                    assert(name_views(names@) =~= before.push(name@));
                }
            },
            _ => {
                assert(is_first_odd(values@, i as int));
                return Err(
                    Error::Message(
                        join("sqlite_master.name was not text: ", shown[i].as_str()),
                    ),
                );
            },
        }
        i += 1;
    }
    assert(values@.take(values.len() as int) =~= values@);
    Ok(names)
}

/// The query for the number of rows of a table.
pub fn count_query(table: &str) -> (r: String)
    ensures
        r@ == "SELECT COUNT(*) FROM \""@ + doubled(table@, '"') + "\""@,
{
    let mut r = join("SELECT COUNT(*) FROM \"", double_quotes(table, '"').as_str());
    r.append("\"");
    r
}

/// The query for all rows of a table.
pub fn scan_query(table: &str) -> (r: String)
    ensures
        r@ == "SELECT * FROM \""@ + doubled(table@, '"') + "\""@,
{
    let mut r = join("SELECT * FROM \"", double_quotes(table, '"').as_str());
    r.append("\"");
    r
}

/// Whether the first column that cannot be read stands at a place.
pub open spec fn is_first_unread(columns: Seq<Result<SqlValue, String>>, i: int) -> bool {
    &&& 0 <= i < columns.len()
    &&& columns[i] is Err
    &&& forall|k: int| 0 <= k < i ==> #[trigger] columns[k] is Ok
}

/// The number of rows that were scanned, with one more. Every column of it has to be read: the first
/// that cannot be is the error.
pub fn scan_row(count: i64, columns: &Vec<Result<SqlValue, String>>) -> (r: Result<i64, Error>)
    requires
        count < i64::MAX,
    ensures
        match r {
            Ok(n) => n == count + 1 && forall|i: int|
                0 <= i < columns@.len() ==> #[trigger] columns@[i] is Ok,
            Err(e) => e is Message && exists|i: int| #[trigger]
                is_first_unread(columns@, i) && e.spec_message() == columns@[i]->Err_0@,
        },
{
    let mut i: usize = 0;
    while i < columns.len()
        invariant
            i <= columns.len(),
            forall|k: int| 0 <= k < i ==> #[trigger] columns@[k] is Ok,
        decreases columns.len() - i,
    {
        if let Err(e) = &columns[i] {
            assert(is_first_unread(columns@, i as int));
            return Err(Error::Message(e.clone()));
        }
        i += 1;
    }
    Ok(count + 1)
}

/// The number of rows of a table, by the answer to the query; how the answer is shown where it is no
/// integer is given.
pub fn count_rows(table: &str, answer: Option<&SqlValue>, shown: &str) -> (r: Result<i64, Error>)
    ensures
        match answer {
            None => r is Err && r->Err_0 is Message && r->Err_0.spec_message()
                == "COUNT(*) over \""@ + table@ + "\" returned no row"@,
            Some(v) => match v@ {
                SqlView::Integer(n) => r == Ok::<i64, Error>(n as i64),
                _ => r is Err && r->Err_0 is Message && r->Err_0.spec_message()
                    == "COUNT(*) over \""@ + table@ + "\" was not an integer: "@ + shown@,
            },
        },
{
    match answer {
        None => {
            let mut message = join("COUNT(*) over \"", table);
            message.append("\" returned no row");
            Err(Error::Message(message))
        },
        Some(v) => match v {
            SqlValue::Integer(n) => Ok(*n),
            _ => {
                let mut message = join("COUNT(*) over \"", table);
                message.append("\" was not an integer: ");
                message.append(shown);
                Err(Error::Message(message))
            },
        },
    }
}

/// The statement that writes a copy to a file. The path must be Unicode, and there must be no such
/// file yet.
pub fn vacuum_into(dest: Option<&str>, shown: &str, exists_already: bool) -> (r: Result<
    String,
    Error,
>)
    ensures
        match dest {
            None => r is Err && r->Err_0 is Message && r->Err_0.spec_message()
                == "backup destination is not valid UTF-8: "@ + shown@,
            Some(path) => if exists_already {
                r is Err && r->Err_0 is Message && r->Err_0.spec_message()
                    == "backup destination already exists (VACUUM INTO needs a fresh file): "@
                    + path@
            } else {
                r is Ok && r->Ok_0@ == "VACUUM INTO '"@ + doubled(path@, '\'') + "'"@
            },
        },
{
    match dest {
        None => Err(Error::Message(join("backup destination is not valid UTF-8: ", shown))),
        Some(path) => {
            if exists_already {
                Err(
                    Error::Message(
                        join(
                            "backup destination already exists (VACUUM INTO needs a fresh file): ",
                            path,
                        ),
                    ),
                )
            } else {
                let mut r = join("VACUUM INTO '", double_quotes(path, '\'').as_str());
                r.append("'");
                Ok(r)
            }
        },
    }
}

/// The sum of counts.
pub open spec fn sum_counts(s: Seq<i64>) -> int
    decreases s.len(),
{
    if s.len() == 0 {
        0
    } else {
        sum_counts(s.drop_last()) + s.last()
    }
}

/// Whether counts can be added up one after the other.
pub open spec fn can_add_up(s: Seq<i64>) -> bool {
    forall|i: int|
        0 <= i <= s.len() ==> i64::MIN <= sum_counts(#[trigger] s.take(i)) <= i64::MAX
}

/// The sum of counts.
fn added_up(counts: &Vec<i64>) -> (r: i64)
    requires
        can_add_up(counts@),
    ensures
        r == sum_counts(counts@),
{
    let mut sum: i64 = 0;
    let mut i: usize = 0;
    assert(counts@.take(0) =~= Seq::<i64>::empty());
    while i < counts.len()
        invariant
            i <= counts.len(),
            can_add_up(counts@),
            sum == sum_counts(counts@.take(i as int)),
        decreases counts.len() - i,
    {
        proof {
            assert(counts@.take(i + 1).drop_last() =~= counts@.take(i as int));
            assert(i64::MIN <= sum_counts(counts@.take(i + 1)) <= i64::MAX);
        }
        sum = sum + counts[i];
        i += 1;
    }
    assert(counts@.take(counts.len() as int) =~= counts@);
    sum
}

/// What was checked of a copy by itself: so many rows could be read of each of its tables.
pub fn verify_snapshot(dest: String, counts: &Vec<i64>, bytes: u64) -> (r: SnapshotReport)
    requires
        can_add_up(counts@),
    ensures
        r.dest == dest,
        r.tables == counts@.len(),
        r.rows == sum_counts(counts@),
        r.bytes == bytes,
        r.mode == VerifyMode::SnapshotOnly,
{
    SnapshotReport {
        dest,
        tables: counts.len(),
        rows: added_up(counts),
        bytes,
        mode: VerifyMode::SnapshotOnly,
    }
}

/// Texts between quotes, with commas between.
pub open spec fn quoted_list(s: Seq<Seq<char>>) -> Seq<char>
    decreases s.len(),
{
    if s.len() == 0 {
        seq![]
    } else if s.len() == 1 {
        quoted_text(s[0])
    } else {
        quoted_list(s.drop_last()) + ", "@ + quoted_text(s.last())
    }
}

fn list_text(names: &Vec<String>) -> (r: String)
    ensures
        r@ == "["@ + quoted_list(name_views(names@)) + "]"@,
{
    let ghost views = name_views(names@);
    let mut inner = String::new();
    let mut i: usize = 0;
    assert(views.take(0) =~= Seq::<Seq<char>>::empty());
    assert(inner@ =~= quoted_list(views.take(0)));
    while i < names.len()
        invariant
            i <= names.len(),
            views == name_views(names@),
            inner@ == quoted_list(views.take(i as int)),
        decreases names.len() - i,
    {
        if i > 0 {
            inner.append(", ");
        }
        let text = crate::catalog::quoted(names[i].as_str());
        inner.append(text.as_str());
        proof {
            let part = views.take(i + 1);
            assert(part.drop_last() =~= views.take(i as int));
            assert(part.last() == views[i as int]);
            assert(inner@ =~= quoted_list(part));
        }
        i += 1;
    }
    assert(views.take(names.len() as int) =~= views);
    let mut r = join("[", inner.as_str());
    r.append("]");
    r
}

/// Whether the table at a place is the first with different numbers of rows.
pub open spec fn is_first_difference(a: Seq<i64>, b: Seq<i64>, i: int) -> bool {
    &&& 0 <= i < a.len()
    &&& a[i] != b[i]
    &&& forall|k: int| 0 <= k < i ==> #[trigger] a[k] == b[k]
}

fn same_names(a: &Vec<String>, b: &Vec<String>) -> (r: bool)
    ensures
        r == (name_views(a@) == name_views(b@)),
{
    if a.len() != b.len() {
        assert(name_views(a@).len() != name_views(b@).len());
        return false;
    }
    let mut i: usize = 0;
    while i < a.len()
        invariant
            i <= a.len(),
            a.len() == b.len(),
            forall|k: int| 0 <= k < i ==> (#[trigger] a@[k])@ == b@[k]@,
        decreases a.len() - i,
    {
        if !same_text(a[i].as_str(), b[i].as_str()) {
            assert(name_views(a@)[i as int] != name_views(b@)[i as int]);
            return false;
        }
        i += 1;
    }
    assert(name_views(a@) =~= name_views(b@));
    true
}

/// What was checked of a copy against its source: they have the same tables, with the same numbers
/// of rows. The first difference is an error.
pub fn verify_against_source(
    dest: String,
    source_tables: &Vec<String>,
    copy_tables: &Vec<String>,
    source_counts: &Vec<i64>,
    copy_counts: &Vec<i64>,
    bytes: u64,
) -> (r: Result<SnapshotReport, Error>)
    requires
        source_counts.len() == source_tables.len(),
        copy_counts.len() == copy_tables.len(),
        can_add_up(copy_counts@),
    ensures
        match r {
            Ok(report) => {
                &&& name_views(source_tables@) == name_views(copy_tables@)
                &&& source_counts@ == copy_counts@
                &&& report.dest == dest
                &&& report.tables == source_tables@.len()
                &&& report.rows == sum_counts(copy_counts@)
                &&& report.bytes == bytes
                &&& report.mode == VerifyMode::SourceMatch
            },
            Err(e) => e is Message && if name_views(source_tables@) != name_views(copy_tables@) {
                e.spec_message() == "backup copy table set differs from source: source "@ + ("["@
                    + quoted_list(name_views(source_tables@)) + "]"@) + " vs copy "@ + ("["@
                    + quoted_list(name_views(copy_tables@)) + "]"@)
            } else {
                exists|i: int| #[trigger]
                    is_first_difference(source_counts@, copy_counts@, i) && e.spec_message()
                        == "backup copy row count for "@ + source_tables@[i]@
                        + " differs: source "@ + int_text(source_counts@[i] as int) + " vs copy "@
                        + int_text(copy_counts@[i] as int)
            },
        },
{
    if !same_names(source_tables, copy_tables) {
        let mut message = join(
            "backup copy table set differs from source: source ",
            list_text(source_tables).as_str(),
        );
        message.append(" vs copy ");
        message.append(list_text(copy_tables).as_str());
        return Err(Error::Message(message));
    }
    assert(source_tables.len() == name_views(source_tables@).len());
    assert(copy_tables.len() == name_views(copy_tables@).len());
    let mut i: usize = 0;
    while i < source_tables.len()
        invariant
            i <= source_tables.len(),
            source_counts.len() == source_tables.len(),
            copy_counts.len() == copy_tables.len(),
            source_tables.len() == copy_tables.len(),
            name_views(source_tables@) == name_views(copy_tables@),
            forall|k: int| 0 <= k < i ==> #[trigger] source_counts@[k] == copy_counts@[k],
        decreases source_tables.len() - i,
    {
        if source_counts[i] != copy_counts[i] {
            let mut message = join("backup copy row count for ", source_tables[i].as_str());
            message.append(" differs: source ");
            message.append(i64_text(source_counts[i]).as_str());
            message.append(" vs copy ");
            message.append(i64_text(copy_counts[i]).as_str());
            assert(is_first_difference(source_counts@, copy_counts@, i as int));
            return Err(Error::Message(message));
        }
        i += 1;
    }
    assert(source_counts@ =~= copy_counts@);
    Ok(
        SnapshotReport {
            dest,
            tables: source_tables.len(),
            rows: added_up(copy_counts),
            bytes,
            mode: VerifyMode::SourceMatch,
        },
    )
}

/// The files of the control plane.
pub open spec fn spec_control_plane_files() -> Seq<&'static str> {
    seq!["segment_index.db", "metadata.db", "aspect_catalog.db", "catalog.db"]
}

/// The files of the control plane.
pub fn control_plane_files() -> (r: Vec<&'static str>)
    ensures
        r@ == spec_control_plane_files(),
{
    let mut r: Vec<&'static str> = Vec::new();
    r.push("segment_index.db");
    r.push("metadata.db");
    r.push("aspect_catalog.db");
    r.push("catalog.db");
    assert(r@ =~= spec_control_plane_files());
    r
}

/// What a restore would find of a file: whether the backup has it, and whether it is there already.
#[derive(Debug, Clone, Copy, PartialEq, Eq, Structural)]
pub struct RestoreFile {
    pub in_backup: bool,
    pub in_root: bool,
}

/// Whether the file at a place is the first that stops a restore.
pub open spec fn is_first_obstacle(files: Seq<RestoreFile>, i: int) -> bool {
    &&& 0 <= i < files.len()
    &&& !files[i].in_backup || files[i].in_root
    &&& forall|k: int| 0 <= k < i ==> (#[trigger] files[k]).in_backup && !files[k].in_root
}

/// Why a file stops a restore.
pub open spec fn obstacle(dir: Seq<char>, root: Seq<char>, file: RestoreFile, name: Seq<char>) -> Seq<
    char,
> {
    if !file.in_backup {
        "backup dir "@ + dir + " is missing "@ + name
            + " — not a complete control-plane backup"@
    } else {
        "refusing to overwrite an existing control plane: "@ + joined(root, name)
            + " already exists (restore into a fresh root)"@
    }
}

/// Whether a restore may be done: the backup has every file, and none of them is there already. Else
/// nothing is written, and the first file that is in the way is told.
pub fn check_restore(backup_dir: &str, root: &str, files: &Vec<RestoreFile>) -> (r: Result<
    (),
    Error,
>)
    requires
        files.len() == 4,
    ensures
        match r {
            Ok(_) => forall|i: int|
                0 <= i < files@.len() ==> (#[trigger] files@[i]).in_backup && !files@[i].in_root,
            Err(e) => exists|i: int| #[trigger]
                is_first_obstacle(files@, i) && e is Message && e.spec_message() == obstacle(
                    backup_dir@,
                    root@,
                    files@[i],
                    spec_control_plane_files()[i]@,
                ),
        },
{
    let names = control_plane_files();
    let mut i: usize = 0;
    while i < files.len()
        invariant
            i <= files.len(),
            files.len() == 4,
            names@ == spec_control_plane_files(),
            forall|k: int|
                0 <= k < i ==> (#[trigger] files@[k]).in_backup && !files@[k].in_root,
        decreases files.len() - i,
    {
        if !files[i].in_backup {
            let mut message = join("backup dir ", backup_dir);
            message.append(" is missing ");
            message.append(names[i]);
            message.append(" — not a complete control-plane backup");
            assert(is_first_obstacle(files@, i as int));
            return Err(Error::Message(message));
        }
        if files[i].in_root {
            let mut message = join(
                "refusing to overwrite an existing control plane: ",
                join_path(root, names[i]).as_str(),
            );
            message.append(" already exists (restore into a fresh root)");
            assert(is_first_obstacle(files@, i as int));
            return Err(Error::Message(message));
        }
        i += 1;
    }
    Ok(())
}

/// What a restore put back.
#[derive(Debug)]
pub struct RestoreReport {
    pub root: String,
    pub restored: Vec<SnapshotReport>,
}

pub open spec fn report_rows(s: Seq<SnapshotReport>) -> Seq<i64> {
    Seq::new(s.len(), |i: int| s[i].rows)
}

/// The sum of sizes.
pub open spec fn sum_bytes(s: Seq<SnapshotReport>) -> int
    decreases s.len(),
{
    if s.len() == 0 {
        0
    } else {
        sum_bytes(s.drop_last()) + s.last().bytes
    }
}

proof fn lemma_bytes_grow(s: Seq<SnapshotReport>, i: int)
    requires
        0 <= i <= s.len(),
    ensures
        0 <= sum_bytes(s.take(i)) <= sum_bytes(s),
    decreases s.len(),
{
    if s.len() == 0 {
        assert(s.take(i) =~= s);
    } else if i == s.len() {
        assert(s.take(i) =~= s);
        lemma_bytes_grow(s.drop_last(), s.len() - 1);
        assert(s.drop_last().take(s.len() - 1) =~= s.drop_last());
    } else {
        lemma_bytes_grow(s.drop_last(), i);
        assert(s.drop_last().take(i) =~= s.take(i));
    }
}

impl RestoreReport {
    /// The rows that could be read, of all files.
    pub fn total_rows(&self) -> (r: i64)
        requires
            can_add_up(report_rows(self.restored@)),
        ensures
            r == sum_counts(report_rows(self.restored@)),
    {
        let mut counts: Vec<i64> = Vec::new();
        let mut i: usize = 0;
        while i < self.restored.len()
            invariant
                i <= self.restored.len(),
                counts.len() == i,
                forall|k: int| 0 <= k < i ==> #[trigger] counts@[k] == self.restored@[k].rows,
            decreases self.restored.len() - i,
        {
            counts.push(self.restored[i].rows);
            i += 1;
        }
        assert(counts@ =~= report_rows(self.restored@));
        added_up(&counts)
    }

    /// The size of all files.
    pub fn total_bytes(&self) -> (r: u64)
        requires
            sum_bytes(self.restored@) <= u64::MAX,
        ensures
            r == sum_bytes(self.restored@),
    {
        let mut sum: u64 = 0;
        let mut i: usize = 0;
        assert(self.restored@.take(0) =~= Seq::<SnapshotReport>::empty());
        while i < self.restored.len()
            invariant
                i <= self.restored.len(),
                sum_bytes(self.restored@) <= u64::MAX,
                sum == sum_bytes(self.restored@.take(i as int)),
            decreases self.restored.len() - i,
        {
            proof {
                lemma_bytes_grow(self.restored@, i + 1);
                assert(self.restored@.take(i + 1).drop_last() =~= self.restored@.take(i as int));
            }
            sum = sum + self.restored[i].bytes;
            i += 1;
        }
        assert(self.restored@.take(self.restored.len() as int) =~= self.restored@);
        sum
    }
}

}
