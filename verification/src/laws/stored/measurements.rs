//! What the statements on the stored measurements read, add, change and take away.
use crate::decimal::{decimal_text, DecimalView};
use crate::ids::{uuid_text, AspectId};
use crate::laws::statements::{
    addition_text,
    change_text,
    columns_text,
    conditions_text,
    is_met,
    listed_text,
    only,
    puts,
    reading_text,
    removal_text,
    settings_text,
    values_put,
    values_taken,
    values_text,
    Fields,
    Listed,
    Operand,
    Row,
    Sign,
};
use crate::sql::SqlView;
use crate::store::measurements::{
    delete_range,
    dirty_region,
    insert_one,
    spec_clear_unbatched_measurements,
    spec_compressed_range_at,
    spec_compressed_ranges_within,
    spec_existing_measurement,
    update_one,
    CompressedRange,
};
use crate::time::Timestamp;
use vstd::prelude::*;

verus! {

/// The statement of `clear_unbatched_measurements` takes exactly those rows of
/// `unbatched_measurements` away that are meant.
pub proof fn law_clear_unbatched_measurements_removes(aspect_id: &AspectId, row: Row)
    ensures
        ({
            let met = only("aspect_id"@, Sign::Is);
            let s = spec_clear_unbatched_measurements(aspect_id).statement;
            &&& s.sql == removal_text("unbatched_measurements"@, met)
            &&& s.params.len() == 1
            &&& is_met(met, s.params, 0, row) <==> row["aspect_id"@] == SqlView::Text(uuid_text(aspect_id.value))
        }),
{
    reveal_with_fuel(conditions_text, 3);
    reveal_with_fuel(is_met, 3);
    reveal_with_fuel(values_taken, 3);
    reveal_strlit("");
    reveal_strlit(" = ");
    reveal_strlit(" WHERE ");
    reveal_strlit("?");
    reveal_strlit("DELETE FROM ");
    reveal_strlit("DELETE FROM unbatched_measurements WHERE aspect_id = ?");
    reveal_strlit("aspect_id");
    reveal_strlit("unbatched_measurements");
    let met = only("aspect_id"@, Sign::Is);
    let s = spec_clear_unbatched_measurements(aspect_id).statement;
    assert(s.sql =~= removal_text("unbatched_measurements"@, met));
}

/// The statement of `insert_one` adds a row to `measurements`, with each value in the column that
/// is meant for it.
pub proof fn law_insert_one_adds(id: u128, dataset: u128, millis: int, value: DecimalView)
    ensures
        ({
            let fields = Fields::Only("id"@, Operand::Given)
                .and("dataset_id"@, Operand::Given)
                .and("timestamp"@, Operand::Given)
                .and("value"@, Operand::Given);
            let s = insert_one(id, dataset, millis, value);
            &&& s.sql == addition_text("INSERT INTO "@, "measurements"@, fields)
            &&& s.params.len() == 4
            &&& puts(fields, s.params, "id"@, SqlView::Text(uuid_text(id)))
            &&& puts(fields, s.params, "dataset_id"@, SqlView::Text(uuid_text(dataset)))
            &&& puts(fields, s.params, "timestamp"@, SqlView::Integer(millis))
            &&& puts(fields, s.params, "value"@, SqlView::Text(decimal_text(value.mantissa, value.scale)))
        }),
{
    reveal_with_fuel(columns_text, 5);
    reveal_with_fuel(values_text, 5);
    reveal_with_fuel(puts, 5);
    reveal_with_fuel(values_put, 5);
    reveal_strlit(" (");
    reveal_strlit(")");
    reveal_strlit(") VALUES (");
    reveal_strlit(", ");
    reveal_strlit("?");
    reveal_strlit("INSERT INTO ");
    reveal_strlit("INSERT INTO measurements (id, dataset_id, timestamp, value) VALUES (?, ?, ?, ?)");
    reveal_strlit("dataset_id");
    reveal_strlit("id");
    reveal_strlit("measurements");
    reveal_strlit("timestamp");
    reveal_strlit("value");
    let fields = Fields::Only("id"@, Operand::Given)
        .and("dataset_id"@, Operand::Given)
        .and("timestamp"@, Operand::Given)
        .and("value"@, Operand::Given);
    let s = insert_one(id, dataset, millis, value);
    assert(s.sql =~= addition_text("INSERT INTO "@, "measurements"@, fields));
}

/// The statement of `update_one` puts what is given into `value` of exactly those rows of
/// `measurements` that are meant.
pub proof fn law_update_one_changes(millis: int, value: DecimalView, row: Row)
    ensures
        ({
            let fields = Fields::Only("value"@, Operand::Given);
            let met = only("timestamp"@, Sign::Is);
            let s = update_one(millis, value);
            &&& s.sql == change_text("measurements"@, fields, met)
            &&& s.params.len() == 2
            &&& puts(fields, s.params, "value"@, SqlView::Text(decimal_text(value.mantissa, value.scale)))
            &&& is_met(met, s.params, 1, row) <==> row["timestamp"@] == SqlView::Integer(millis)
        }),
{
    reveal_with_fuel(settings_text, 2);
    reveal_with_fuel(puts, 2);
    reveal_with_fuel(values_put, 2);
    reveal_with_fuel(conditions_text, 3);
    reveal_with_fuel(is_met, 3);
    reveal_with_fuel(values_taken, 3);
    reveal_strlit("");
    reveal_strlit(" = ");
    reveal_strlit(" SET ");
    reveal_strlit(" WHERE ");
    reveal_strlit("?");
    reveal_strlit("UPDATE ");
    reveal_strlit("UPDATE measurements SET value = ? WHERE timestamp = ?");
    reveal_strlit("measurements");
    reveal_strlit("timestamp");
    reveal_strlit("value");
    let fields = Fields::Only("value"@, Operand::Given);
    let met = only("timestamp"@, Sign::Is);
    let s = update_one(millis, value);
    assert(s.sql =~= change_text("measurements"@, fields, met));
}

/// The statement of `existing_measurement` reads `value` of exactly those rows of `measurements`
/// that are asked for, and no more than one.
pub proof fn law_existing_measurement_reads(timestamp: &Timestamp, row: Row)
    ensures
        ({
            let met = only("timestamp"@, Sign::Is);
            let columns = Listed::Only("value"@);
            let s = spec_existing_measurement(timestamp);
            &&& s.sql == reading_text(columns, "measurements"@, met) + " LIMIT 1"@
            &&& s.params.len() == 1
            &&& is_met(met, s.params, 0, row) <==> row["timestamp"@] == SqlView::Integer(timestamp.spec_millis())
        }),
{
    reveal_with_fuel(listed_text, 2);
    reveal_with_fuel(conditions_text, 3);
    reveal_with_fuel(is_met, 3);
    reveal_with_fuel(values_taken, 3);
    reveal_strlit("");
    reveal_strlit(" = ");
    reveal_strlit(" FROM ");
    reveal_strlit(" LIMIT 1");
    reveal_strlit(" WHERE ");
    reveal_strlit("?");
    reveal_strlit("SELECT ");
    reveal_strlit("SELECT value FROM measurements WHERE timestamp = ? LIMIT 1");
    reveal_strlit("measurements");
    reveal_strlit("timestamp");
    reveal_strlit("value");
    let met = only("timestamp"@, Sign::Is);
    let columns = Listed::Only("value"@);
    let s = spec_existing_measurement(timestamp);
    assert(s.sql =~= reading_text(columns, "measurements"@, met) + " LIMIT 1"@);
}

/// The statement of `delete_range` takes exactly those rows of `measurements` away that are meant.
pub proof fn law_delete_range_removes(start: Timestamp, end: Timestamp, row: Row)
    ensures
        ({
            let met = only("timestamp"@, Sign::AtLeast).and("timestamp"@, Sign::AtMost);
            let s = delete_range(start, end).statement;
            &&& s.sql == removal_text("measurements"@, met)
            &&& s.params.len() == 2
            &&& is_met(met, s.params, 0, row) <==> {
                &&& row["timestamp"@] is Integer
                &&& row["timestamp"@]->Integer_0 >= start.spec_millis()
                &&& row["timestamp"@] is Integer
                &&& row["timestamp"@]->Integer_0 <= end.spec_millis()
            }
        }),
{
    reveal_with_fuel(conditions_text, 4);
    reveal_with_fuel(is_met, 4);
    reveal_with_fuel(values_taken, 4);
    reveal_strlit("");
    reveal_strlit(" <= ");
    reveal_strlit(" >= ");
    reveal_strlit(" AND ");
    reveal_strlit(" WHERE ");
    reveal_strlit("?");
    reveal_strlit("DELETE FROM ");
    reveal_strlit("DELETE FROM measurements WHERE timestamp >= ? AND timestamp <= ?");
    reveal_strlit("measurements");
    reveal_strlit("timestamp");
    let met = only("timestamp"@, Sign::AtLeast).and("timestamp"@, Sign::AtMost);
    let s = delete_range(start, end).statement;
    assert(s.sql =~= removal_text("measurements"@, met));
}

/// The statement of `compressed_range_at` reads `time_range_start` and `time_range_end` of exactly
/// those rows of `compression_tier_results` that are asked for, and no more than one.
pub proof fn law_compressed_range_at_reads(timestamp: &Timestamp, row: Row)
    ensures
        ({
            let met = only("time_range_start"@, Sign::AtMost).and("time_range_end"@, Sign::AtLeast);
            let columns = Listed::Only("time_range_start"@).and("time_range_end"@);
            let s = spec_compressed_range_at(timestamp);
            &&& s.sql == reading_text(columns, "compression_tier_results"@, met) + " LIMIT 1"@
            &&& s.params.len() == 2
            &&& is_met(met, s.params, 0, row) <==> {
                &&& row["time_range_start"@] is Integer
                &&& row["time_range_start"@]->Integer_0 <= timestamp.spec_millis()
                &&& row["time_range_end"@] is Integer
                &&& row["time_range_end"@]->Integer_0 >= timestamp.spec_millis()
            }
        }),
{
    reveal_with_fuel(listed_text, 3);
    reveal_with_fuel(conditions_text, 4);
    reveal_with_fuel(is_met, 4);
    reveal_with_fuel(values_taken, 4);
    reveal_strlit("");
    reveal_strlit(" <= ");
    reveal_strlit(" >= ");
    reveal_strlit(" AND ");
    reveal_strlit(" FROM ");
    reveal_strlit(" LIMIT 1");
    reveal_strlit(" WHERE ");
    reveal_strlit(", ");
    reveal_strlit("?");
    reveal_strlit("SELECT ");
    reveal_strlit("SELECT time_range_start, time_range_end FROM compression_tier_results WHERE time_range_start <= ? AND time_range_end >= ? LIMIT 1");
    reveal_strlit("compression_tier_results");
    reveal_strlit("time_range_end");
    reveal_strlit("time_range_start");
    let met = only("time_range_start"@, Sign::AtMost).and("time_range_end"@, Sign::AtLeast);
    let columns = Listed::Only("time_range_start"@).and("time_range_end"@);
    let s = spec_compressed_range_at(timestamp);
    assert(s.sql =~= reading_text(columns, "compression_tier_results"@, met) + " LIMIT 1"@);
}

/// The statement of `compressed_ranges_within` reads `DISTINCT time_range_start` and
/// `time_range_end` of exactly those rows of `compression_tier_results` that are asked for.
pub proof fn law_compressed_ranges_within_reads(
    min_timestamp: &Timestamp,
    max_timestamp: &Timestamp,
    row: Row,
)
    ensures
        ({
            let met = only("time_range_start"@, Sign::AtMost).and("time_range_end"@, Sign::AtLeast);
            let columns = Listed::Only("DISTINCT time_range_start"@).and("time_range_end"@);
            let s = spec_compressed_ranges_within(min_timestamp, max_timestamp);
            &&& s.sql == reading_text(columns, "compression_tier_results"@, met)
            &&& s.params.len() == 2
            &&& is_met(met, s.params, 0, row) <==> {
                &&& row["time_range_start"@] is Integer
                &&& row["time_range_start"@]->Integer_0 <= max_timestamp.spec_millis()
                &&& row["time_range_end"@] is Integer
                &&& row["time_range_end"@]->Integer_0 >= min_timestamp.spec_millis()
            }
        }),
{
    reveal_with_fuel(listed_text, 3);
    reveal_with_fuel(conditions_text, 4);
    reveal_with_fuel(is_met, 4);
    reveal_with_fuel(values_taken, 4);
    reveal_strlit("");
    reveal_strlit(" <= ");
    reveal_strlit(" >= ");
    reveal_strlit(" AND ");
    reveal_strlit(" FROM ");
    reveal_strlit(" WHERE ");
    reveal_strlit(", ");
    reveal_strlit("?");
    reveal_strlit("DISTINCT time_range_start");
    reveal_strlit("SELECT ");
    reveal_strlit("SELECT DISTINCT time_range_start, time_range_end FROM compression_tier_results WHERE time_range_start <= ? AND time_range_end >= ?");
    reveal_strlit("compression_tier_results");
    reveal_strlit("time_range_end");
    reveal_strlit("time_range_start");
    let met = only("time_range_start"@, Sign::AtMost).and("time_range_end"@, Sign::AtLeast);
    let columns = Listed::Only("DISTINCT time_range_start"@).and("time_range_end"@);
    let s = spec_compressed_ranges_within(min_timestamp, max_timestamp);
    assert(s.sql =~= reading_text(columns, "compression_tier_results"@, met));
}

/// The statement of `dirty_region` adds a row to `dirty_regions`, with each value in the column
/// that is meant for it.
pub proof fn law_dirty_region_adds(range: CompressedRange, now: int, reason: Seq<char>)
    ensures
        ({
            let fields = Fields::Only("region_start"@, Operand::Given)
                .and("region_end"@, Operand::Given)
                .and("marked_at"@, Operand::Given)
                .and("reason"@, Operand::Given);
            let s = dirty_region(range, now, reason);
            &&& s.sql == addition_text("INSERT INTO "@, "dirty_regions"@, fields)
            &&& s.params.len() == 4
            &&& puts(fields, s.params, "region_start"@, SqlView::Integer(range.start as int))
            &&& puts(fields, s.params, "region_end"@, SqlView::Integer(range.end as int))
            &&& puts(fields, s.params, "marked_at"@, SqlView::Integer(now))
            &&& puts(fields, s.params, "reason"@, SqlView::Text(reason))
        }),
{
    reveal_with_fuel(columns_text, 5);
    reveal_with_fuel(values_text, 5);
    reveal_with_fuel(puts, 5);
    reveal_with_fuel(values_put, 5);
    reveal_strlit(" (");
    reveal_strlit(")");
    reveal_strlit(") VALUES (");
    reveal_strlit(", ");
    reveal_strlit("?");
    reveal_strlit("INSERT INTO ");
    reveal_strlit("INSERT INTO dirty_regions (region_start, region_end, marked_at, reason) VALUES (?, ?, ?, ?)");
    reveal_strlit("dirty_regions");
    reveal_strlit("marked_at");
    reveal_strlit("reason");
    reveal_strlit("region_end");
    reveal_strlit("region_start");
    let fields = Fields::Only("region_start"@, Operand::Given)
        .and("region_end"@, Operand::Given)
        .and("marked_at"@, Operand::Given)
        .and("reason"@, Operand::Given);
    let s = dirty_region(range, now, reason);
    assert(s.sql =~= addition_text("INSERT INTO "@, "dirty_regions"@, fields));
}

}
