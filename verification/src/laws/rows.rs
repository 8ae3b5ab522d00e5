//! Which rows can be read.
use crate::columns::{or, text_in};
use crate::decimal::decimal_parse;
use crate::correlation::signal_name;
use crate::ids::uuid_parse;
use crate::resolution::{spline_parse, Resolution};
use crate::sql::{value_text, SqlView};
use crate::stats::count_error;
use crate::store::batches::batch_error;
use crate::store::correlations::{distance_read, head_error, rate_error};
use crate::store::dictionaries::{
    constraint_error,
    constraint_text,
    metadata_error,
    says_no_steps,
    stored_error,
};
use crate::store::events::{event_id_error, manifestation_error, EventStage};
use crate::store::metadata::{aspect_text_error, aspect_value_error, instant_error};
use crate::store::metadata::{subject_id_error, subject_text_error};
use crate::store::occurrences::{correlated_error, patterned_error};
use crate::store::patterns::{figures_error, relative_error};
use crate::store::readings::measurement_error;
use crate::text::{int_text, unsigned_of};
use crate::time::{rfc3339_parse, MAX_SECONDS, MIN_SECONDS};
use vstd::prelude::*;
use vstd::utf8::{decode_utf8, valid_utf8};

verus! {

/// Whether a value is the text of an identifier.
pub open spec fn holds_id(v: SqlView) -> bool {
    v is Text && uuid_parse(v->Text_0) is Ok
}

/// Whether a value is the text of a decimal number.
pub open spec fn holds_number(v: SqlView) -> bool {
    v is Text && decimal_parse(v->Text_0) is Ok
}

/// Whether a value is the text of a resolution.
pub open spec fn holds_resolution(v: SqlView) -> bool {
    v is Text && exists|r: Resolution| v->Text_0 == #[trigger] r.spec_text()
}

/// Whether a value is the milliseconds of an instant.
pub open spec fn holds_instant(v: SqlView) -> bool {
    v is Integer && MIN_SECONDS <= v->Integer_0 / 1000 <= MAX_SECONDS
}

/// Whether a value is a size.
pub open spec fn holds_size(v: SqlView) -> bool {
    v is Integer && 0 <= v->Integer_0 <= usize::MAX
}

/// Whether a value has a text.
pub open spec fn has_a_text(v: SqlView) -> bool {
    match v {
        SqlView::Null => false,
        SqlView::Blob(bytes) => bytes.len() == 16 || valid_utf8(bytes),
        _ => true,
    }
}

/// Whether a value has the text of an identifier.
pub open spec fn has_an_id(v: SqlView) -> bool {
    has_a_text(v) && uuid_parse(text_in(v)) is Ok
}

proof fn lemma_texts(v: SqlView)
    ensures
        forall|field: Seq<char>| #[trigger] crate::columns::no_text(v, field) is None
            <==> has_a_text(v),
{
}

/// What is told is what is wrong first.
pub proof fn law_the_first_complaint_is_told(
    first: Option<Seq<char>>,
    rest: Option<Seq<char>>,
)
    ensures
        or(first, rest) is None <==> first is None && rest is None,
        first is Some ==> or(first, rest) == first,
        first is None ==> or(first, rest) == rest,
{
}

/// A text is itself, a number is its digits, bytes are the identifier that sixteen of them are or the
/// text that they encode, and nothing has no text.
pub proof fn law_values_have_texts(v: SqlView, field: Seq<char>)
    ensures
        value_text(v, field) is Ok <==> has_a_text(v),
        v is Text ==> value_text(v, field)->Ok_0 == v->Text_0,
        v is Integer ==> value_text(v, field)->Ok_0 == int_text(v->Integer_0),
        v matches SqlView::Blob(bytes) ==> bytes.len() != 16 && valid_utf8(bytes) ==> value_text(
            v,
            field,
        )->Ok_0 == decode_utf8(bytes),
{
}

/// A row of a measurement is read exactly where it holds two identifiers, an instant and a number,
/// in this order.
pub proof fn law_measurement_rows_that_are_read(row: Seq<SqlView>)
    ensures
        measurement_error(row) is None <==> holds_id(row[0]) && holds_id(row[1]) && holds_instant(
            row[2],
        ) && holds_number(row[3]),
{
}

/// The head of a correlation is read exactly where it holds six identifiers.
pub proof fn law_correlation_rows_that_are_read(row: Seq<SqlView>)
    ensures
        head_error(row) is None <==> holds_id(row[0]) && holds_id(row[1]) && holds_id(row[2])
            && holds_id(row[3]) && holds_id(row[4]) && holds_id(row[5]),
{
}

/// A rate is read exactly where its row holds the key of a kind of signal, a number and a
/// resolution.
pub proof fn law_rate_rows_that_are_read(row: Seq<SqlView>)
    ensures
        rate_error(row) is None <==> row[0] is Text && signal_name(row[0]->Text_0) is Some
            && holds_number(row[1]) && holds_resolution(row[2]),
{
}

/// A distance is read exactly where a number and a resolution stand in its two columns, and it is
/// that number of those units.
pub proof fn law_distances_that_are_read(value: SqlView, units: SqlView)
    ensures
        distance_read(value, units) is Some <==> holds_number(value) && holds_resolution(units),
        distance_read(value, units) matches Some(d) ==> decimal_parse(value->Text_0) == Ok::<
            (int, int),
            Seq<char>,
        >((d.value.mantissa, d.value.scale)) && units->Text_0 == d.units.spec_text(),
{
}

/// A stretch of a correlation is read exactly where its row holds a place, an aspect, a resolution,
/// a size, the description of a database that can be read, a pattern and two instants.
pub proof fn law_stretch_rows_of_correlations_that_are_read(
    row: Seq<SqlView>,
    info: Option<Seq<char>>,
)
    ensures
        correlated_error(row, info) is None <==> {
            &&& holds_size(row[1])
            &&& holds_id(row[2])
            &&& holds_resolution(row[3])
            &&& holds_size(row[4])
            &&& row[5] is Text
            &&& info is None
            &&& holds_id(row[6])
            &&& holds_instant(row[7])
            &&& holds_instant(row[8])
        },
{
}

/// A stretch of a pattern is read exactly where its row holds a pattern, an aspect, a resolution, a
/// size, the description of a database that can be read, and two instants.
pub proof fn law_stretch_rows_of_patterns_that_are_read(row: Seq<SqlView>, info: Option<Seq<char>>)
    ensures
        patterned_error(row, info) is None <==> {
            &&& holds_id(row[0])
            &&& holds_id(row[1])
            &&& holds_resolution(row[2])
            &&& holds_size(row[3])
            &&& row[4] is Text
            &&& info is None
            &&& holds_instant(row[5])
            &&& holds_instant(row[6])
        },
{
}

/// An event is read exactly where its row holds an identifier, a name and a description; one of
/// which only the identifier is asked for, where it holds that.
pub proof fn law_event_rows_that_are_read(row: Seq<SqlView>, stage: EventStage)
    ensures
        crate::store::events::head_error(row) is None <==> holds_id(row[0]) && row[1] is Text
            && row[2] is Text,
        event_id_error(row, stage) is None <==> holds_id(row[0]),
{
}

/// A manifestation is read exactly where its row holds three identifiers and two instants.
pub proof fn law_manifestation_rows_that_are_read(row: Seq<SqlView>)
    ensures
        manifestation_error(row) is None <==> holds_id(row[0]) && holds_id(row[1]) && holds_id(
            row[2],
        ) && holds_instant(row[3]) && holds_instant(row[4]),
{
}

/// A batch is read exactly where its row holds its identifier, its aspect, a number, a resolution
/// and measurements that can be read.
pub proof fn law_batch_rows_that_are_read(row: Seq<SqlView>, measurements: Option<Seq<char>>)
    ensures
        batch_error(row, measurements) is None <==> {
            &&& holds_id(row[0])
            &&& holds_id(row[1])
            &&& row[3] is Integer
            &&& holds_resolution(row[4])
            &&& row[5] is Text
            &&& measurements is None
        },
{
}

/// The figures of a pattern are read exactly where their row holds its identifier and seven numbers.
pub proof fn law_figure_rows_that_are_read(row: Seq<SqlView>)
    ensures
        figures_error(row) is None <==> {
            &&& holds_id(row[0])
            &&& holds_number(row[1])
            &&& holds_number(row[2])
            &&& holds_number(row[3])
            &&& holds_number(row[4])
            &&& holds_number(row[5])
            &&& holds_number(row[6])
            &&& holds_number(row[7])
        },
{
}

/// A relative is read exactly where its row holds a text for its pattern, a place, and a text that
/// can be read.
pub proof fn law_relative_rows_that_are_read(row: Seq<SqlView>, relative: Option<Seq<char>>)
    ensures
        relative_error(row, relative) is None <==> row[0] is Text && holds_size(row[1]) && row[2]
            is Text && relative is None,
{
}

/// What is known of a dictionary is read exactly where its row holds an identifier, a name, a
/// description and an instant.
pub proof fn law_dictionary_rows_that_are_read(row: Seq<SqlView>)
    ensures
        metadata_error(row) is None <==> holds_id(row[0]) && row[1] is Text && row[2] is Text
            && holds_instant(row[3]),
{
}

/// The constraints of a dictionary are read exactly where both columns say something that can be
/// taken as a text and, unless they say that no steps are demanded, it is a number and a method.
pub proof fn law_constraint_rows_that_are_read(row: Seq<SqlView>)
    ensures
        constraint_error(row) is None <==> {
            &&& constraint_text(row[0]) is Some
            &&& constraint_text(row[1]) is Some
            &&& says_no_steps(constraint_text(row[0])->0) || (unsigned_of(
                constraint_text(row[0])->0,
                usize::MAX as nat,
            ) is Some && spline_parse(constraint_text(row[1])->0) is Ok)
        },
{
}

/// A stored dictionary is read exactly where its row has a description and constraints that can be
/// read.
pub proof fn law_stored_dictionary_rows_that_are_read(
    row: Seq<SqlView>,
    constraints: Option<Seq<char>>,
)
    ensures
        stored_error(row, constraints) is None <==> has_a_text(row[0]) && has_a_text(row[1])
            && constraints is None,
{
    lemma_texts(row[0]);
    lemma_texts(row[1]);
}

/// A subject is read exactly where its row has its identifier, its name and that of its database; an
/// aspect where it has its identifier, its name, that of its subject and a resolution that can be
/// read.
pub proof fn law_subject_and_aspect_rows_that_are_read(
    row: Seq<SqlView>,
    resolution: Option<Seq<char>>,
)
    ensures
        subject_text_error(row) is None && subject_id_error(row) is None <==> has_an_id(row[0])
            && has_a_text(row[1]) && has_an_id(row[2]),
        aspect_text_error(row) is None && aspect_value_error(row, resolution) is None
            <==> has_an_id(row[0]) && has_a_text(row[1]) && has_an_id(row[2]) && has_a_text(row[3])
            && resolution is None,
{
    lemma_texts(row[0]);
    lemma_texts(row[1]);
    lemma_texts(row[2]);
    lemma_texts(row[3]);
}

/// An instant is read where a column has a text that is empty, which is none, or one after RFC 3339.
pub proof fn law_instants_that_are_read(row: Seq<SqlView>, field: Seq<char>)
    ensures
        instant_error(row, field) is None <==> has_a_text(row[0]) && (text_in(row[0]).len() == 0
            || rfc3339_parse(text_in(row[0])) is Ok),
{
    lemma_texts(row[0]);
}

/// Queued events, patterns and batches, and counts of them, are read exactly where their rows have
/// what they are made of.
pub proof fn law_queued_rows_that_are_read(
    row: Seq<SqlView>,
    complaint: Seq<char>,
    first: Option<Seq<char>>,
    second: Option<Seq<char>>,
    is_wrapped: bool,
)
    ensures
        crate::queue::events::queued_error(row, first) is None <==> has_an_id(row[0])
            && has_a_text(row[1]) && has_a_text(row[2]) && first is None,
        crate::queue::patterns::queued_error(row, complaint, first, second) is None
            <==> has_an_id(row[0]) && has_a_text(row[1]) && has_a_text(row[2]) && first is None
            && second is None,
        crate::queue::batches::queued_error(row, first) is None <==> {
            &&& has_an_id(row[0])
            &&& has_a_text(row[1])
            &&& unsigned_of(text_in(row[1]), usize::MAX as nat) is Some
            &&& has_a_text(row[2])
            &&& exists|r: Resolution| text_in(row[2]) == #[trigger] r.spec_text()
            &&& has_a_text(row[3])
            &&& has_a_text(row[4])
            &&& first is None
        },
        count_error(row, is_wrapped) is None <==> has_a_text(row[0]) && has_a_text(row[1])
            && unsigned_of(text_in(row[1]), usize::MAX as nat) is Some,
{
    lemma_texts(row[0]);
    lemma_texts(row[1]);
    lemma_texts(row[2]);
    lemma_texts(row[3]);
    lemma_texts(row[4]);
}

}
