//! SQL statements, the values bound to them, and the columns of their results.
use crate::error::Error;
use crate::ids::{text_of, uuid_text};
use crate::text::{i64_text, int_text, join};
use vstd::prelude::*;
use vstd::utf8::{decode_utf8, valid_utf8};

verus! {

/// A value that is bound to a statement or read from a column.
#[derive(Debug)]
pub enum SqlValue {
    Null,
    Integer(i64),
    /// A floating-point number, by its decimal text.
    Real(String),
    Text(String),
    Blob(Vec<u8>),
}

pub enum SqlView {
    Null,
    Integer(int),
    Real(Seq<char>),
    Text(Seq<char>),
    Blob(Seq<u8>),
}

impl View for SqlValue {
    type V = SqlView;

    open spec fn view(&self) -> SqlView {
        match self {
            SqlValue::Null => SqlView::Null,
            SqlValue::Integer(i) => SqlView::Integer(*i as int),
            SqlValue::Real(s) => SqlView::Real(s@),
            SqlValue::Text(s) => SqlView::Text(s@),
            SqlValue::Blob(b) => SqlView::Blob(b@),
        }
    }
}

impl Clone for SqlValue {
    fn clone(&self) -> (r: SqlValue)
        ensures
            r@ == self@,
    {
        match self {
            SqlValue::Null => SqlValue::Null,
            SqlValue::Integer(i) => SqlValue::Integer(*i),
            SqlValue::Real(s) => SqlValue::Real(s.clone()),
            SqlValue::Text(s) => SqlValue::Text(s.clone()),
            SqlValue::Blob(b) => {
                let copy = b.clone();
                assert(copy@ =~= b@);
                SqlValue::Blob(copy)
            },
        }
    }
}

/// A text value.
pub fn text_value(s: &str) -> (r: SqlValue)
    ensures
        r@ == SqlView::Text(s@),
{
    SqlValue::Text(s.to_owned())
}

/// A statement with the values bound to it.
#[derive(Debug)]
pub struct Statement {
    pub sql: String,
    pub params: Vec<SqlValue>,
}

pub struct StatementView {
    pub sql: Seq<char>,
    pub params: Seq<SqlView>,
}

pub open spec fn value_views(s: Seq<SqlValue>) -> Seq<SqlView> {
    Seq::new(s.len(), |i: int| s[i]@)
}

impl View for Statement {
    type V = StatementView;

    open spec fn view(&self) -> StatementView {
        StatementView { sql: self.sql@, params: value_views(self.params@) }
    }
}

pub open spec fn statement_views(s: Seq<Statement>) -> Seq<StatementView> {
    Seq::new(s.len(), |i: int| s[i]@)
}

/// A statement.
pub fn statement(sql: &str, params: Vec<SqlValue>) -> (r: Statement)
    ensures
        r@ == (StatementView { sql: sql@, params: value_views(params@) }),
{
    Statement { sql: sql.to_owned(), params }
}

/// A group, written several times with commas between.
pub open spec fn repeated(group: Seq<char>, times: nat) -> Seq<char>
    decreases times,
{
    if times == 0 {
        seq![]
    } else if times == 1 {
        group
    } else {
        repeated(group, (times - 1) as nat) + ", "@ + group
    }
}

/// A group of placeholders, written several times with commas between.
pub fn placeholders(group: &str, times: usize) -> (r: String)
    ensures
        r@ == repeated(group@, times as nat),
{
    let mut r = String::new();
    let mut i: usize = 0;
    assert(r@ == repeated(group@, 0));
    while i < times
        invariant
            i <= times,
            r@ == repeated(group@, i as nat),
        decreases times - i,
    {
        if i > 0 {
            r.append(", ");
        }
        r.append(group);
        assert(r@ =~= repeated(group@, (i + 1) as nat));
        i += 1;
    }
    r
}

/// Values row by row, in one sequence.
pub open spec fn flat(rows: Seq<Seq<SqlView>>) -> Seq<SqlView>
    decreases rows.len(),
{
    if rows.len() == 0 {
        seq![]
    } else {
        flat(rows.drop_last()) + rows.last()
    }
}

pub open spec fn row_views(rows: Seq<Vec<SqlValue>>) -> Seq<Seq<SqlView>> {
    Seq::new(rows.len(), |i: int| value_views(rows[i]@))
}

/// The number of chunks of a size.
pub open spec fn chunk_count(len: nat, size: nat) -> nat {
    if size == 0 {
        0
    } else {
        ((len + size - 1) / size as int) as nat
    }
}

/// The place behind the last element of a chunk.
pub open spec fn chunk_end(len: nat, size: nat, k: int) -> int {
    if (k + 1) * size <= len {
        (k + 1) * size
    } else {
        len as int
    }
}

/// The elements of a chunk.
pub open spec fn chunk<T>(s: Seq<T>, size: nat, k: int) -> Seq<T> {
    s.subrange(k * size, chunk_end(s.len(), size, k))
}

/// Every chunk begins within the elements, and the last chunk ends with them.
pub proof fn lemma_chunk_bounds(len: nat, size: nat, k: int)
    requires
        size > 0,
        0 <= k < chunk_count(len, size),
    ensures
        0 <= k * size < len,
        k * size < chunk_end(len, size, k) <= len,
        chunk_end(len, size, k) - k * size <= size,
        k + 1 < chunk_count(len, size) ==> chunk_end(len, size, k) == (k + 1) * size,
        k + 1 == chunk_count(len, size) ==> chunk_end(len, size, k) == len,
{
    let n = len as int;
    let s = size as int;
    let c = (n + s - 1) / s;
    assert(c * s <= n + s - 1 < (c + 1) * s) by {
        vstd::arithmetic::div_mod::lemma_fundamental_div_mod(n + s - 1, s);
        vstd::arithmetic::mul::lemma_mul_is_commutative(s, c);
        vstd::arithmetic::mul::lemma_mul_is_distributive_add_other_way(s, c, 1);
    }
    assert(k * s < n && (k + 1 < c ==> (k + 1) * s <= n) && (k + 1 == c ==> (k + 1) * s >= n)
        && (k + 1) * s == k * s + s && 0 <= k * s) by (nonlinear_arith)
        requires
            c * s <= n + s - 1,
            n + s - 1 < (c + 1) * s,
            s > 0,
            0 <= k < c,
    ;
}

/// Chunks miss no element, repeat none and keep their order: put together, they are the elements.
pub proof fn law_chunks_cover<T>(s: Seq<T>, size: nat)
    requires
        size > 0,
    ensures
        concatenated(Seq::new(chunk_count(s.len(), size), |k: int| chunk(s, size, k))) == s,
{
    let count = chunk_count(s.len(), size);
    let all = Seq::new(count, |k: int| chunk(s, size, k));
    lemma_chunks_cover(s, size, count);
    assert(all.take(count as int) =~= all);
    if count > 0 {
        lemma_chunk_bounds(s.len(), size, count - 1);
    } else {
        if s.len() > 0 {
            vstd::arithmetic::div_mod::lemma_div_is_ordered(
                size as int,
                s.len() + size - 1,
                size as int,
            );
            vstd::arithmetic::div_mod::lemma_div_by_self(size as int);
        }
    }
    assert(s.take(s.len() as int) =~= s);
}

proof fn lemma_chunks_cover<T>(s: Seq<T>, size: nat, n: nat)
    requires
        size > 0,
        n <= chunk_count(s.len(), size),
    ensures
        concatenated(
            Seq::new(chunk_count(s.len(), size), |k: int| chunk(s, size, k)).take(n as int),
        ) == s.take(if n == 0 {
            0
        } else {
            chunk_end(s.len(), size, n - 1)
        }),
    decreases n,
{
    let all = Seq::new(chunk_count(s.len(), size), |k: int| chunk(s, size, k));
    if n > 0 {
        let m = (n - 1) as nat;
        lemma_chunks_cover(s, size, m);
        lemma_chunk_bounds(s.len(), size, m as int);
        if m > 0 {
            lemma_chunk_bounds(s.len(), size, m - 1);
        } else {
            assert(0 * size == 0);
        }
        assert(all.take(n as int).drop_last() =~= all.take(m as int));
        assert(all.take(n as int).last() == chunk(s, size, m as int));
        assert(s.take((m * size) as int) + chunk(s, size, m as int) =~= s.take(
            chunk_end(s.len(), size, m as int),
        ));
    } else {
        assert(all.take(0) =~= Seq::<Seq<T>>::empty());
        assert(s.take(0) =~= Seq::<T>::empty());
    }
}

/// Sequences one behind the other.
pub open spec fn concatenated<T>(parts: Seq<Seq<T>>) -> Seq<T>
    decreases parts.len(),
{
    if parts.len() == 0 {
        seq![]
    } else {
        concatenated(parts.drop_last()) + parts.last()
    }
}

/// The statement for one chunk of rows.
pub open spec fn bulk_statement(
    prefix: Seq<char>,
    group: Seq<char>,
    suffix: Seq<char>,
    lead: Seq<SqlView>,
    rows: Seq<Seq<SqlView>>,
) -> StatementView {
    StatementView { sql: prefix + repeated(group, rows.len()) + suffix, params: lead + flat(rows) }
}

/// The statements for rows that are taken in chunks.
pub open spec fn bulk(
    prefix: Seq<char>,
    group: Seq<char>,
    suffix: Seq<char>,
    lead: Seq<SqlView>,
    rows: Seq<Seq<SqlView>>,
    size: nat,
) -> Seq<StatementView> {
    Seq::new(
        chunk_count(rows.len(), size),
        |k: int| bulk_statement(prefix, group, suffix, lead, chunk(rows, size, k)),
    )
}

/// The statements for rows that are taken in chunks: each repeats the group of placeholders once
/// for each row, and binds the leading values and then those of its rows.
pub fn bulk_statements(
    prefix: &str,
    group: &str,
    suffix: &str,
    lead: &Vec<SqlValue>,
    rows: &Vec<Vec<SqlValue>>,
    size: usize,
) -> (r: Vec<Statement>)
    requires
        size > 0,
    ensures
        statement_views(r@) == bulk(
            prefix@,
            group@,
            suffix@,
            value_views(lead@),
            row_views(rows@),
            size as nat,
        ),
{
    let ghost rv = row_views(rows@);
    let ghost n = rows.len() as nat;
    let mut r: Vec<Statement> = Vec::new();
    let mut at: usize = 0;
    let ghost mut k: int = 0;
    assert(0 * size == 0);
    proof {
        lemma_count_reached(n, size as nat, 0, 0);
    }
    while at < rows.len()
        invariant
            size > 0,
            at <= rows.len(),
            n == rows.len(),
            rv == row_views(rows@),
            r.len() == k,
            0 <= k <= chunk_count(n, size as nat),
            at < n ==> at == k * size && k < chunk_count(n, size as nat),
            at == n ==> k == chunk_count(n, size as nat),
            forall|j: int|
                0 <= j < k ==> (#[trigger] r@[j])@ == bulk_statement(
                    prefix@,
                    group@,
                    suffix@,
                    value_views(lead@),
                    chunk(rv, size as nat, j),
                ),
        decreases rows.len() - at,
    {
        proof {
            lemma_chunk_bounds(n, size as nat, k);
        }
        let end: usize = if rows.len() - at > size {
            at + size
        } else {
            rows.len()
        };
        assert(end == chunk_end(n, size as nat, k)) by {
            assert((k + 1) * size == k * size + size) by (nonlinear_arith);
        }
        let next = chunk_statement(prefix, group, suffix, lead, rows, at, end);
        assert(next@ == bulk_statement(
            prefix@,
            group@,
            suffix@,
            value_views(lead@),
            chunk(rv, size as nat, k),
        ));
        r.push(next);
        proof {
            k = k + 1;
            if end < n {
                assert(end == k * size);
            }
            lemma_count_reached(n, size as nat, k, end as int);
        }
        at = end;
    }
    assert(statement_views(r@) =~= bulk(
        prefix@,
        group@,
        suffix@,
        value_views(lead@),
        rv,
        size as nat,
    ));
    r
}

/// Behind the last element of a chunk, either another chunk begins or all chunks are done.
pub proof fn lemma_count_reached(len: nat, size: nat, k: int, at: int)
    requires
        size > 0,
        0 <= k <= chunk_count(len, size),
        k == 0 ==> at == 0,
        k > 0 ==> at == chunk_end(len, size, k - 1),
    ensures
        at < len ==> k < chunk_count(len, size),
        at == len ==> k == chunk_count(len, size),
{
    if k > 0 {
        lemma_chunk_bounds(len, size, k - 1);
    }
    if len > 0 {
        vstd::arithmetic::div_mod::lemma_div_is_ordered(
            size as int,
            len + size - 1,
            size as int,
        );
        vstd::arithmetic::div_mod::lemma_div_by_self(size as int);
    } else {
        vstd::arithmetic::div_mod::lemma_basic_div(size - 1, size as int);
    }
    if k == chunk_count(len, size) && k > 0 {
        assert(at == len);
    }
    if k < chunk_count(len, size) && k > 0 {
        lemma_chunk_bounds(len, size, k);
    }
}

fn chunk_statement(
    prefix: &str,
    group: &str,
    suffix: &str,
    lead: &Vec<SqlValue>,
    rows: &Vec<Vec<SqlValue>>,
    from: usize,
    to: usize,
) -> (r: Statement)
    requires
        from <= to <= rows.len(),
    ensures
        r@ == bulk_statement(
            prefix@,
            group@,
            suffix@,
            value_views(lead@),
            row_views(rows@).subrange(from as int, to as int),
        ),
{
    let ghost part = row_views(rows@).subrange(from as int, to as int);
    let mut sql = join(prefix, placeholders(group, to - from).as_str());
    sql.append(suffix);
    let mut params = clone_values(lead);
    let mut i: usize = from;
    assert(part.take(0) =~= Seq::<Seq<SqlView>>::empty());
    assert(value_views(params@) =~= value_views(lead@) + flat(part.take(0)));
    while i < to
        invariant
            from <= i <= to <= rows.len(),
            part == row_views(rows@).subrange(from as int, to as int),
            value_views(params@) == value_views(lead@) + flat(part.take(i - from)),
        decreases to - i,
    {
        let ghost before = params@;
        let mut row = clone_values(&rows[i]);
        let ghost values = row@;
        params.append(&mut row);
        proof {
            assert(value_views(params@) =~= value_views(before) + value_views(values));
            assert(part.take(i + 1 - from).drop_last() =~= part.take(i - from));
            assert(part.take(i + 1 - from).last() == value_views(values));
            assert(value_views(params@) =~= value_views(lead@) + flat(part.take(i + 1 - from)));
        }
        i += 1;
    }
    assert(part.take(to - from) =~= part);
    Statement { sql, params }
}

/// A copy of values.
pub fn clone_values(values: &Vec<SqlValue>) -> (r: Vec<SqlValue>)
    ensures
        value_views(r@) == value_views(values@),
{
    let mut r: Vec<SqlValue> = Vec::new();
    let mut i: usize = 0;
    while i < values.len()
        invariant
            i <= values.len(),
            r.len() == i,
            forall|k: int| 0 <= k < i ==> (#[trigger] r@[k])@ == values@[k]@,
        decreases values.len() - i,
    {
        r.push(values[i].clone());
        i += 1;
    }
    assert(value_views(r@) =~= value_views(values@));
    r
}

/// What `String::from_utf8` says of bytes that are no UTF-8.
pub uninterp spec fn utf8_refusal(bytes: Seq<u8>) -> Seq<char>;

/// `String::from_utf8` of std: bytes that are UTF-8 are the encoding of the string; of others its
/// error tells where they go wrong, in a text that is named.
#[verifier::external_body]
fn string_of_utf8(bytes: &Vec<u8>) -> (r: Result<String, String>)
    ensures
        r is Ok <==> valid_utf8(bytes@),
        r is Ok ==> r->Ok_0@ == decode_utf8(bytes@),
        r is Err ==> r->Err_0@ == utf8_refusal(bytes@),
{
    match String::from_utf8(bytes.clone()) {
        Ok(s) => Ok(s),
        Err(e) => Err(e.to_string()),
    }
}

/// Bytes as a number, most significant byte first.
pub open spec fn big_endian(bytes: Seq<u8>) -> nat
    decreases bytes.len(),
{
    if bytes.len() == 0 {
        0
    } else {
        big_endian(bytes.drop_last()) * 256 + bytes.last() as nat
    }
}

/// The text of a value, or the text of the error.
pub open spec fn value_text(value: SqlView, field: Seq<char>) -> Result<Seq<char>, Seq<char>> {
    match value {
        SqlView::Text(s) => Ok(s),
        SqlView::Blob(bytes) => if bytes.len() == 16 {
            Ok(uuid_text(big_endian(bytes) as u128))
        } else if valid_utf8(bytes) {
            Ok(decode_utf8(bytes))
        } else {
            Err(field + " blob is not valid UTF-8: "@ + utf8_refusal(bytes))
        },
        SqlView::Integer(i) => Ok(int_text(i)),
        SqlView::Real(s) => Ok(s),
        SqlView::Null => Err(field + " is null"@),
    }
}

/// The number that sixteen bytes write, most significant byte first.
fn uuid_of_bytes(bytes: &Vec<u8>) -> (r: u128)
    requires
        bytes.len() == 16,
    ensures
        r == big_endian(bytes@),
{
    let mut r: u128 = 0;
    let mut i: usize = 0;
    proof {
        vstd::arithmetic::power::lemma_pow0(256);
        assert(bytes@.take(0) =~= Seq::<u8>::empty());
    }
    while i < 16
        invariant
            i <= 16,
            bytes.len() == 16,
            r == big_endian(bytes@.take(i as int)),
            r < vstd::arithmetic::power::pow(256, i as nat),
        decreases 16 - i,
    {
        proof {
            assert(bytes@.take(i + 1).drop_last() =~= bytes@.take(i as int));
            vstd::arithmetic::power::lemma_pow1(256);
            vstd::arithmetic::power::lemma_pow_adds(256, i as nat, 1);
            vstd::arithmetic::power::lemma_pow_increases(256, (i + 1) as nat, 16);
            lemma_bytes_fit();
        }
        r = r * 256 + bytes[i] as u128;
        i += 1;
    }
    assert(bytes@.take(16) =~= bytes@);
    r
}

proof fn lemma_bytes_fit()
    ensures
        vstd::arithmetic::power::pow(256, 16) == u128::MAX + 1,
{
    reveal_with_fuel(vstd::arithmetic::power::pow, 17);
}

/// The text of a value that is stored in any of several ways.
pub fn value_to_string(value: &SqlValue, field_name: &str) -> (r: Result<String, Error>)
    ensures
        match r {
            Ok(s) => value_text(value@, field_name@) == Ok::<Seq<char>, Seq<char>>(s@),
            Err(e) => e is Message && value_text(value@, field_name@) == Err::<
                Seq<char>,
                Seq<char>,
            >(e.spec_message()),
        },
{
    match value {
        SqlValue::Text(s) => Ok(s.clone()),
        SqlValue::Blob(bytes) => {
            if bytes.len() == 16 {
                Ok(text_of(uuid_of_bytes(bytes)))
            } else {
                match string_of_utf8(bytes) {
                    Ok(s) => Ok(s),
                    Err(e) => {
                        let mut message = join(field_name, " blob is not valid UTF-8: ");
                        message.append(e.as_str());
                        Err(Error::Message(message))
                    },
                }
            }
        },
        SqlValue::Integer(i) => Ok(i64_text(*i)),
        SqlValue::Real(s) => Ok(s.clone()),
        SqlValue::Null => Err(Error::Message(join(field_name, " is null"))),
    }
}

/// The text in a column, or an error with the complaint.
pub fn text_column(row: &Vec<SqlValue>, i: usize, complaint: &str) -> (r: Result<String, Error>)
    requires
        i < row.len(),
    ensures
        match r {
            Ok(s) => row@[i as int]@ == SqlView::Text(s@),
            Err(e) => !(row@[i as int]@ is Text) && (e matches Error::DatabaseError(s) && s@
                == complaint@),
        },
{
    match &row[i] {
        SqlValue::Text(s) => Ok(s.clone()),
        _ => Err(Error::DatabaseError(complaint.to_owned())),
    }
}

/// The integer in a column, or an error with the complaint.
pub fn integer_column(row: &Vec<SqlValue>, i: usize, complaint: &str) -> (r: Result<i64, Error>)
    requires
        i < row.len(),
    ensures
        match r {
            Ok(n) => row@[i as int]@ == SqlView::Integer(n as int),
            Err(e) => !(row@[i as int]@ is Integer) && (e matches Error::DatabaseError(s) && s@
                == complaint@),
        },
{
    match &row[i] {
        SqlValue::Integer(n) => Ok(*n),
        _ => Err(Error::DatabaseError(complaint.to_owned())),
    }
}

/// No values for a statement.
pub(crate) fn no_values() -> (r: Vec<SqlValue>)
    ensures
        value_views(r@) == Seq::<SqlView>::empty(),
{
    let r: Vec<SqlValue> = Vec::new();
    assert(value_views(r@) =~= Seq::<SqlView>::empty());
    r
}

/// A text as the only value of a statement.
pub(crate) fn one_text(s: &str) -> (r: Vec<SqlValue>)
    ensures
        value_views(r@) == seq![SqlView::Text(s@)],
{
    let mut r: Vec<SqlValue> = Vec::new();
    r.push(text_value(s));
    assert(value_views(r@) =~= seq![SqlView::Text(s@)]);
    r
}

}
