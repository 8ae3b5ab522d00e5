//! Where the files of a database lie.
//!
//! A database has a directory below the data directory; a subject has one below its database, and
//! an aspect one below its subject. Directories are separated by `/`.
use crate::text::{ends_with, has_suffix, join, slice, to_chars};
use vstd::prelude::*;

verus! {

pub const METADATA_DB_FILENAME: &'static str = "metadata.db";

pub const MEASUREMENT_DB_FILENAME: &'static str = "measurements.db";

pub const UNPROCESSED_BATCHES_DB_FILENAME: &'static str = "unprocessed_batches.db";

pub const PROCESSED_BATCHES_DB_FILENAME: &'static str = "processed_batches.db";

pub const PATTERNS_DB_FILENAME: &'static str = "patterns.db";

pub const EVENTS_DB_FILENAME: &'static str = "events.db";

pub const UNPROCESSED_EVENTS_DB_FILENAME: &'static str = "unprocessed_events.db";

pub const PROCESSED_EVENTS_DB_FILENAME: &'static str = "processed_events.db";

pub const CORRELATIONS_DB_FILENAME: &'static str = "correlations.db";

pub const DICTIONARIES_DB_FOLDERNAME: &'static str = "dictionaries";

/// The path of `part` below `base`: an absolute part stands for itself, and a separator is put
/// between the two where `base` does not end in one.
pub open spec fn joined(base: Seq<char>, part: Seq<char>) -> Seq<char> {
    if part.len() > 0 && part[0] == '/' {
        part
    } else if base.len() == 0 || base.last() == '/' {
        base + part
    } else {
        base + seq!['/'] + part
    }
}

/// The path of `part` below `base`.
pub fn join_path(base: &str, part: &str) -> (r: String)
    ensures
        r@ == joined(base@, part@),
{
    let base_chars = to_chars(base);
    let part_chars = to_chars(part);
    if part_chars.len() > 0 && part_chars[0] == '/' {
        return part.to_owned();
    }
    let mut r = base.to_owned();
    if base_chars.len() > 0 && base_chars[base_chars.len() - 1] != '/' {
        r.push('/');
        assert(r@ == base@ + seq!['/']);
    }
    r.append(part);
    r
}

pub open spec fn spec_db_path(data_dir: Seq<char>, db_name: Seq<char>) -> Seq<char> {
    joined(data_dir, db_name)
}

pub open spec fn spec_aspect_path(
    data_dir: Seq<char>,
    db_name: Seq<char>,
    subject_name: Seq<char>,
    aspect_name: Seq<char>,
) -> Seq<char> {
    joined(joined(spec_db_path(data_dir, db_name), subject_name), aspect_name)
}

/// The directory of a database.
pub fn db_path(data_dir: &str, db_name: &str) -> (r: String)
    ensures
        r@ == spec_db_path(data_dir@, db_name@),
{
    join_path(data_dir, db_name)
}

/// The file of the metadata of a database.
pub fn metadata_db_path(data_dir: &str, db_name: &str) -> (r: String)
    ensures
        r@ == joined(spec_db_path(data_dir@, db_name@), "metadata.db"@),
{
    join_path(db_path(data_dir, db_name).as_str(), METADATA_DB_FILENAME)
}

/// The directory of an aspect.
pub fn aspect_path(data_dir: &str, db_name: &str, subject_name: &str, aspect_name: &str) -> (r:
    String)
    ensures
        r@ == spec_aspect_path(data_dir@, db_name@, subject_name@, aspect_name@),
{
    let database = db_path(data_dir, db_name);
    let subject = join_path(database.as_str(), subject_name);
    join_path(subject.as_str(), aspect_name)
}

/// The file of the measurements of an aspect.
pub fn aspect_measurements_db_path(
    data_dir: &str,
    db_name: &str,
    subject_name: &str,
    aspect_name: &str,
) -> (r: String)
    ensures
        r@ == joined(
            spec_aspect_path(data_dir@, db_name@, subject_name@, aspect_name@),
            "measurements.db"@,
        ),
{
    join_path(
        aspect_path(data_dir, db_name, subject_name, aspect_name).as_str(),
        MEASUREMENT_DB_FILENAME,
    )
}

/// The file of the batches of an aspect that wait to be processed.
pub fn aspect_unprocessed_batches_db_path(
    data_dir: &str,
    db_name: &str,
    subject_name: &str,
    aspect_name: &str,
) -> (r: String)
    ensures
        r@ == joined(
            spec_aspect_path(data_dir@, db_name@, subject_name@, aspect_name@),
            "unprocessed_batches.db"@,
        ),
{
    join_path(
        aspect_path(data_dir, db_name, subject_name, aspect_name).as_str(),
        UNPROCESSED_BATCHES_DB_FILENAME,
    )
}

/// The file of the processed batches of an aspect.
pub fn aspect_processed_batches_db_path(
    data_dir: &str,
    db_name: &str,
    subject_name: &str,
    aspect_name: &str,
) -> (r: String)
    ensures
        r@ == joined(
            spec_aspect_path(data_dir@, db_name@, subject_name@, aspect_name@),
            "processed_batches.db"@,
        ),
{
    join_path(
        aspect_path(data_dir, db_name, subject_name, aspect_name).as_str(),
        PROCESSED_BATCHES_DB_FILENAME,
    )
}

/// The file of the patterns of an aspect.
pub fn aspect_patterns_db_path(
    data_dir: &str,
    db_name: &str,
    subject_name: &str,
    aspect_name: &str,
) -> (r: String)
    ensures
        r@ == joined(
            spec_aspect_path(data_dir@, db_name@, subject_name@, aspect_name@),
            "patterns.db"@,
        ),
{
    join_path(
        aspect_path(data_dir, db_name, subject_name, aspect_name).as_str(),
        PATTERNS_DB_FILENAME,
    )
}

/// The file of the events of an aspect.
pub fn aspect_events_db_path(
    data_dir: &str,
    db_name: &str,
    subject_name: &str,
    aspect_name: &str,
) -> (r: String)
    ensures
        r@ == joined(
            spec_aspect_path(data_dir@, db_name@, subject_name@, aspect_name@),
            "events.db"@,
        ),
{
    join_path(
        aspect_path(data_dir, db_name, subject_name, aspect_name).as_str(),
        EVENTS_DB_FILENAME,
    )
}

/// The file of the events of an aspect that wait to be processed.
pub fn aspect_unprocessed_events_db_path(
    data_dir: &str,
    db_name: &str,
    subject_name: &str,
    aspect_name: &str,
) -> (r: String)
    ensures
        r@ == joined(
            spec_aspect_path(data_dir@, db_name@, subject_name@, aspect_name@),
            "unprocessed_events.db"@,
        ),
{
    join_path(
        aspect_path(data_dir, db_name, subject_name, aspect_name).as_str(),
        UNPROCESSED_EVENTS_DB_FILENAME,
    )
}

/// The file of the processed events of an aspect.
pub fn aspect_processed_events_db_path(
    data_dir: &str,
    db_name: &str,
    subject_name: &str,
    aspect_name: &str,
) -> (r: String)
    ensures
        r@ == joined(
            spec_aspect_path(data_dir@, db_name@, subject_name@, aspect_name@),
            "processed_events.db"@,
        ),
{
    join_path(
        aspect_path(data_dir, db_name, subject_name, aspect_name).as_str(),
        PROCESSED_EVENTS_DB_FILENAME,
    )
}

/// The file of the correlations of an aspect.
pub fn aspect_correlations_db_path(
    data_dir: &str,
    db_name: &str,
    subject_name: &str,
    aspect_name: &str,
) -> (r: String)
    ensures
        r@ == joined(
            spec_aspect_path(data_dir@, db_name@, subject_name@, aspect_name@),
            "correlations.db"@,
        ),
{
    join_path(
        aspect_path(data_dir, db_name, subject_name, aspect_name).as_str(),
        CORRELATIONS_DB_FILENAME,
    )
}

/// The directory of the dictionaries of an aspect.
pub fn aspect_dictionaries_path(
    data_dir: &str,
    db_name: &str,
    subject_name: &str,
    aspect_name: &str,
) -> (r: String)
    ensures
        r@ == joined(
            spec_aspect_path(data_dir@, db_name@, subject_name@, aspect_name@),
            "dictionaries"@,
        ),
{
    join_path(
        aspect_path(data_dir, db_name, subject_name, aspect_name).as_str(),
        DICTIONARIES_DB_FOLDERNAME,
    )
}

/// The file of one dictionary of an aspect.
pub fn dictionary_path(
    data_dir: &str,
    db_name: &str,
    subject_name: &str,
    aspect_name: &str,
    dictionary_name: &str,
) -> (r: String)
    ensures
        r@ == joined(
            joined(
                spec_aspect_path(data_dir@, db_name@, subject_name@, aspect_name@),
                "dictionaries"@,
            ),
            dictionary_name@ + ".db"@,
        ),
{
    let folder = aspect_dictionaries_path(data_dir, db_name, subject_name, aspect_name);
    join_path(folder.as_str(), join(dictionary_name, ".db").as_str())
}

/// A name that is one component of a path: it holds no separator, and is neither empty nor a
/// reference to the directory itself or the one above.
pub open spec fn plain_name(name: Seq<char>) -> bool {
    &&& name.len() > 0
    &&& forall|i: int| 0 <= i < name.len() ==> name[i] != '/' && name[i] != '\\' && name[i] != ':'
    &&& name != seq!['.']
    &&& name != seq!['.', '.']
}

/// Whether the last component of a path is a plain name.
pub open spec fn ends_plainly(path: Seq<char>) -> bool {
    ||| plain_name(path)
    ||| exists|dir: Seq<char>, name: Seq<char>| path == #[trigger] below(dir, name) && plain_name(name)
}

/// A name below a directory.
pub open spec fn below(dir: Seq<char>, name: Seq<char>) -> Seq<char> {
    dir + seq!['/'] + name
}

pub open spec fn is_separator(c: char) -> bool {
    c == '/' || c == '\\'
}

/// Whether a path does not begin with two separators. On some machines such a path begins with the
/// name of another machine or of a device, which is no component of it.
pub open spec fn is_ordinary(path: Seq<char>) -> bool {
    path.len() >= 2 ==> !(is_separator(path[0]) && is_separator(path[1]))
}

/// Whether a path means the same on every machine: `/` is the only separator in it, it does not begin
/// with two of them, and it names no drive.
pub open spec fn is_portable(path: Seq<char>) -> bool {
    &&& is_ordinary(path)
    &&& forall|i: int| 0 <= i < path.len() ==> #[trigger] path[i] != '\\' && path[i] != ':'
}

/// What `Path::parent` of std gives for a path that means the same on every machine.
pub uninterp spec fn path_parent(path: Seq<char>) -> Option<Seq<char>>;

/// What `Path::file_name` of std gives for a path that means the same on every machine.
pub uninterp spec fn path_file_name(path: Seq<char>) -> Option<Seq<char>>;

/// What a result of a text is, as characters.
pub open spec fn text_found(r: Option<String>) -> Option<Seq<char>> {
    match r {
        Some(s) => Some(s@),
        None => None,
    }
}

/// `Path::parent` of std, on a path in UTF-8: the path without its last component, which is a
/// beginning of it. It is stated where the last two components are plain names, and named for every
/// path that means the same on every machine; of the others nothing is said, since it depends on the
/// machine which component is the last.
#[verifier::external_body]
fn std_parent(path: &str) -> (r: Option<String>)
    ensures
        is_portable(path@) ==> path_parent(path@) == text_found(r),
        r matches Some(p) ==> p@.len() <= path@.len() && p@ == path@.take(p@.len() as int),
        forall|dir: Seq<char>, name: Seq<char>|
            path@ == #[trigger] below(dir, name) && is_ordinary(path@) && ends_plainly(dir)
                && plain_name(name) ==> r is Some && r->0@ == dir,
{
    match std::path::Path::new(path).parent() {
        Some(p) => Some(p.to_string_lossy().to_string()),
        None => None,
    }
}

/// `Path::file_name` of std, on a path in UTF-8: the last component. It is stated where that is a
/// plain name, and named for every path that means the same on every machine; of the others nothing
/// is said, since it depends on the machine which component is the last.
#[verifier::external_body]
fn std_file_name(path: &str) -> (r: Option<String>)
    ensures
        is_portable(path@) ==> path_file_name(path@) == text_found(r),
        plain_name(path@) ==> r is Some && r->0@ == path@,
        forall|dir: Seq<char>, name: Seq<char>|
            path@ == #[trigger] below(dir, name) && is_ordinary(path@) && plain_name(name)
                ==> r is Some && r->0@ == name,
{
    match std::path::Path::new(path).file_name() {
        Some(name) => Some(name.to_string_lossy().to_string()),
        None => None,
    }
}

/// The directory that a path lies in.
pub fn parent_path(path: &str) -> (r: Option<String>)
    ensures
        is_portable(path@) ==> path_parent(path@) == text_found(r),
        r matches Some(p) ==> p@.len() <= path@.len() && p@ == path@.take(p@.len() as int),
        forall|dir: Seq<char>, name: Seq<char>|
            path@ == #[trigger] below(dir, name) && is_ordinary(path@) && ends_plainly(dir)
                && plain_name(name) ==> r is Some && r->0@ == dir,
{
    std_parent(path)
}

/// The last component of a path.
pub fn file_name(path: &str) -> (r: Option<String>)
    ensures
        is_portable(path@) ==> path_file_name(path@) == text_found(r),
        plain_name(path@) ==> r is Some && r->0@ == path@,
        forall|dir: Seq<char>, name: Seq<char>|
            path@ == #[trigger] below(dir, name) && is_ordinary(path@) && plain_name(name)
                ==> r is Some && r->0@ == name,
{
    std_file_name(path)
}

/// The name of the database in the path of an aspect, or what is wrong with the path: the first
/// directory is that of the subject, the next one that of the database.
pub open spec fn database_name_in(aspect_path: Seq<char>) -> Result<Seq<char>, Seq<char>> {
    match path_parent(aspect_path) {
        None => Err("Cannot get subject path from aspect path"@),
        Some(subject) => match path_parent(subject) {
            None => Err("Cannot get db path from subject path"@),
            Some(database) => match path_file_name(database) {
                None => Err("Cannot extract db_name from path"@),
                Some(name) => Ok(name),
            },
        },
    }
}

/// The name of the database in the path of an aspect: the directory above that of its subject.
pub fn database_name_of(aspect_path: &str) -> (r: Result<String, String>)
    ensures
        is_portable(aspect_path@) ==> match r {
            Ok(name) => database_name_in(aspect_path@) == Ok::<Seq<char>, Seq<char>>(name@),
            Err(e) => database_name_in(aspect_path@) == Err::<Seq<char>, Seq<char>>(e@),
        },
        forall|root: Seq<char>, db: Seq<char>, subject: Seq<char>, aspect: Seq<char>|
            aspect_path@ == #[trigger] below(below(below(root, db), subject), aspect)
                && is_ordinary(aspect_path@) && plain_name(db) && plain_name(subject)
                && plain_name(aspect) ==> r is Ok && r->Ok_0@ == db,
        r matches Err(e) ==> e@ == "Cannot get subject path from aspect path"@ || e@
            == "Cannot get db path from subject path"@ || e@ == "Cannot extract db_name from path"@,
{
    let subject = match std_parent(aspect_path) {
        Some(p) => p,
        None => return Err("Cannot get subject path from aspect path".to_owned()),
    };
    proof {
        lemma_beginning(aspect_path@, subject@.len() as int);
    }
    let database = match std_parent(subject.as_str()) {
        Some(p) => p,
        None => return Err("Cannot get db path from subject path".to_owned()),
    };
    proof {
        lemma_beginning(subject@, database@.len() as int);
    }
    match std_file_name(database.as_str()) {
        Some(name) => Ok(name),
        None => Err("Cannot extract db_name from path".to_owned()),
    }
}

/// A beginning of a path is no less ordinary, and means the same wherever the path does.
proof fn lemma_beginning(path: Seq<char>, n: int)
    requires
        0 <= n <= path.len(),
    ensures
        is_ordinary(path) ==> is_ordinary(path.take(n)),
        is_portable(path) ==> is_portable(path.take(n)),
{
    assert forall|i: int| is_portable(path) && 0 <= i < n implies #[trigger] path.take(n)[i] != '\\'
        && path.take(n)[i] != ':' by {
        assert(path[i] != '\\');
    }
}

/// Whether the name of a file ends in the extension `db`, in either case.
pub open spec fn has_db_extension(name: Seq<char>) -> bool {
    &&& name.len() >= 4
    &&& name[name.len() - 3] == '.'
    &&& (name[name.len() - 2] == 'd' || name[name.len() - 2] == 'D')
    &&& (name[name.len() - 1] == 'b' || name[name.len() - 1] == 'B')
}

/// The name without any `.db` at its end.
pub open spec fn without_db(name: Seq<char>) -> Seq<char>
    decreases name.len(),
{
    if ends_with(name, ".db"@) && ".db"@.len() > 0 {
        without_db(name.take(name.len() - ".db"@.len()))
    } else {
        name
    }
}

/// The name of the dictionary that a file in the directory of the dictionaries holds, if it holds
/// one.
pub fn dictionary_of_file(name: &str) -> (r: Option<String>)
    ensures
        match r {
            Some(dictionary) => has_db_extension(name@) && dictionary@ == without_db(name@),
            None => !has_db_extension(name@),
        },
{
    let chars = to_chars(name);
    let n: usize = chars.len();
    if n < 4 || chars[n - 3] != '.' || (chars[n - 2] != 'd' && chars[n - 2] != 'D') || (chars[n - 1]
        != 'b' && chars[n - 1] != 'B') {
        return None;
    }
    let mut rest = name.to_owned();
    while has_suffix(rest.as_str(), ".db")
        invariant
            without_db(rest@) == without_db(name@),
        ensures
            !ends_with(rest@, ".db"@),
            without_db(rest@) == without_db(name@),
        decreases rest@.len(),
    {
        proof {
            reveal_strlit(".db");
        }
        let chars = to_chars(rest.as_str());
        let shorter = slice(&chars, 0, chars.len() - 3);
        assert(shorter@ == rest@.take(rest@.len() - 3));
        rest = shorter;
    }
    Some(rest)
}

proof fn lemma_below_injective(dir1: Seq<char>, name1: Seq<char>, dir2: Seq<char>, name2: Seq<char>)
    requires
        below(dir1, name1) == below(dir2, name2),
        plain_name(name1),
        plain_name(name2),
    ensures
        dir1 == dir2,
        name1 == name2,
{
    let path = below(dir1, name1);
    let at1 = dir1.len() as int;
    let at2 = dir2.len() as int;
    assert(path == below(dir2, name2));
    assert(path.len() == at1 + 1 + name1.len() && path.len() == at2 + 1 + name2.len());
    assert(below(dir2, name2)[at2] == '/');
    assert(path[at1] == '/');
    if at1 < at2 {
        assert(path[at2] == name1[at2 - at1 - 1]);
    } else if at2 < at1 {
        assert(below(dir2, name2)[at1] == name2[at1 - at2 - 1]);
    }
    assert(dir1 =~= path.take(at1));
    assert(dir2 =~= path.take(at1));
    assert(name1 =~= path.skip(at1 + 1));
    assert(name2 =~= path.skip(at1 + 1));
}

proof fn lemma_joined_below(base: Seq<char>, name: Seq<char>)
    requires
        plain_name(name),
    ensures
        joined(base, name).len() > 0,
        joined(base, name).last() != '/',
        base.len() > 0 && base.last() != '/' ==> joined(base, name) == below(base, name),
{
    assert(joined(base, name).last() == name.last());
}

/// Different aspects have different directories: where the names of databases, subjects and aspects
/// are plain, the directory of an aspect tells all three.
pub proof fn law_aspect_directories_differ(
    data_dir: Seq<char>,
    db1: Seq<char>,
    subject1: Seq<char>,
    aspect1: Seq<char>,
    db2: Seq<char>,
    subject2: Seq<char>,
    aspect2: Seq<char>,
)
    requires
        plain_name(db1),
        plain_name(subject1),
        plain_name(aspect1),
        plain_name(db2),
        plain_name(subject2),
        plain_name(aspect2),
        spec_aspect_path(data_dir, db1, subject1, aspect1) == spec_aspect_path(
            data_dir,
            db2,
            subject2,
            aspect2,
        ),
    ensures
        db1 == db2,
        subject1 == subject2,
        aspect1 == aspect2,
{
    let base1 = joined(data_dir, db1);
    let base2 = joined(data_dir, db2);
    lemma_joined_below(data_dir, db1);
    lemma_joined_below(data_dir, db2);
    lemma_joined_below(base1, subject1);
    lemma_joined_below(base2, subject2);
    lemma_joined_below(joined(base1, subject1), aspect1);
    lemma_joined_below(joined(base2, subject2), aspect2);
    lemma_below_injective(joined(base1, subject1), aspect1, joined(base2, subject2), aspect2);
    lemma_below_injective(base1, subject1, base2, subject2);
    let start = base1.len() - db1.len();
    assert(db1 =~= base1.skip(start));
    assert(db2 =~= base2.skip(base2.len() - db2.len()));
}

/// The file that a dictionary is kept in is found again under the name of the dictionary, unless
/// that name itself ends in `.db`.
pub proof fn law_dictionary_file_is_found(dictionary: Seq<char>)
    requires
        dictionary.len() > 0,
        !ends_with(dictionary, ".db"@),
    ensures
        has_db_extension(dictionary + ".db"@),
        without_db(dictionary + ".db"@) == dictionary,
{
    reveal_strlit(".db");
    let file = dictionary + ".db"@;
    assert(file.skip(file.len() - 3) =~= ".db"@);
    assert(file.take(file.len() - 3) =~= dictionary);
    reveal_with_fuel(without_db, 2);
}

}
