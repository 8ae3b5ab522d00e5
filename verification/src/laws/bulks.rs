//! What statements for several rows at once add and take away.
use crate::batch::Batch;
use crate::decimal::{decimal_text, DecimalView};
use crate::ids::{uuid_text, AspectId, BatchId, DatabaseId};
use crate::laws::statements::{
    columns_text,
    conditions_text,
    only,
    puts,
    values_put,
    values_text,
    Conditions,
    Fields,
    Operand,
    Sign,
};
use crate::names::name_views;
use crate::sql::{chunk, flat, repeated, SqlView};
use crate::store::batches::{
    id_rows,
    md5_text,
    spec_bulk_insert_processed_batches,
    spec_bulk_remove_batches,
    text_rows,
    BatchStatus,
    INSERTED_AT_ONCE,
    REMOVED_AT_ONCE,
};
use crate::store::measurements::{
    measurement_row,
    millis_row,
    queue_row,
    spec_dequeue_unbatched_measurements,
    spec_enqueue_unbatched_measurements,
    CHUNK_SIZE,
    MEASUREMENTS_INSERT,
};
use crate::text::int_text;
use crate::time::Timestamp;
use vstd::prelude::*;

verus! {

/// The text that adds several rows to a table, with what it begins with.
pub open spec fn additions_text(
    verb: Seq<char>,
    table: Seq<char>,
    fields: Fields,
    rows: nat,
) -> Seq<char> {
    verb + table + " ("@ + columns_text(fields) + ") VALUES "@ + repeated(
        "("@ + values_text(fields) + ")"@,
        rows,
    )
}

/// The text that takes those rows of a table away that meet conditions, and a column of which holds
/// one of several values that are given.
pub open spec fn removal_among_text(
    table: Seq<char>,
    cs: Conditions,
    column: Seq<char>,
    values: nat,
) -> Seq<char> {
    "DELETE FROM "@ + table + conditions_text(cs) + (if cs is Always {
        " WHERE "@
    } else {
        " AND "@
    }) + column + " IN ("@ + repeated("?"@, values) + ")"@
}

/// The fields of a batch.
pub open spec fn batch_fields() -> Fields {
    Fields::Only("id"@, Operand::Given).and("aspect_id"@, Operand::Given).and(
        "database_id"@,
        Operand::Given,
    ).and("size"@, Operand::Given).and("resolution"@, Operand::Given).and(
        "measurements"@,
        Operand::Given,
    ).and("batch_hash"@, Operand::Given).and("status"@, Operand::Given).and(
        "created_at"@,
        Operand::Given,
    )
}

/// The fields of a measurement.
pub open spec fn measurement_fields() -> Fields {
    Fields::Only("id"@, Operand::Given).and("dataset_id"@, Operand::Given).and(
        "timestamp"@,
        Operand::Given,
    ).and("value"@, Operand::Given)
}

/// The fields of an instant that waits to be batched.
pub open spec fn queue_fields() -> Fields {
    Fields::Only("aspect_id"@, Operand::Given).and("data_timestamp"@, Operand::Given).and(
        "queued_at"@,
        Operand::Given,
    )
}

/// Batches that are taken out at once are met by their identifiers: each statement asks for those
/// of its part of them, and for nothing else.
pub proof fn law_bulk_removal_goes_by_the_identifiers(
    batch_ids: &Vec<BatchId>,
    status: BatchStatus,
    k: int,
    i: int,
)
    requires
        0 <= k < spec_bulk_remove_batches(batch_ids, status).len(),
        0 <= i < batch_ids@.len(),
    ensures
        ({
            let s = spec_bulk_remove_batches(batch_ids, status)[k].statement;
            let part = chunk(id_rows(batch_ids@), REMOVED_AT_ONCE as nat, k);
            &&& s.sql == removal_among_text("batches"@, Conditions::Always, "id"@, part.len())
            &&& s.params == flat(part)
            &&& id_rows(batch_ids@)[i] == seq![SqlView::Text(uuid_text(batch_ids@[i].value))]
        }),
{
    reveal_strlit("DELETE FROM batches WHERE id IN (");
    reveal_strlit("DELETE FROM ");
    reveal_strlit("batches");
    reveal_strlit("");
    reveal_strlit(" WHERE ");
    reveal_strlit("id");
    reveal_strlit(" IN (");
    reveal_strlit(")");
    let s = spec_bulk_remove_batches(batch_ids, status)[k].statement;
    let part = chunk(id_rows(batch_ids@), REMOVED_AT_ONCE as nat, k);
    assert(s.sql =~= removal_among_text("batches"@, Conditions::Always, "id"@, part.len()));
    assert(s.params =~= flat(part));
    assert(id_rows(batch_ids@)[i] =~= seq![SqlView::Text(uuid_text(batch_ids@[i].value))]);
}

/// Batches that are added at once each stand in a row of their own, with each value in the column
/// that is meant for it, as processed ones.
pub proof fn law_bulk_batches_are_added_as_they_are(
    aspect_id: &AspectId,
    database_id: &DatabaseId,
    batches: &Vec<Batch>,
    measurements: &Vec<String>,
    now: i64,
    k: int,
    i: int,
)
    requires
        0 <= k < spec_bulk_insert_processed_batches(
            aspect_id,
            database_id,
            batches,
            measurements,
            now,
        ).len(),
        0 <= i < batches@.len() <= measurements@.len(),
    ensures
        ({
            let s = spec_bulk_insert_processed_batches(
                aspect_id,
                database_id,
                batches,
                measurements,
                now,
            )[k].statement;
            let rows = text_rows(
                batches@,
                aspect_id.value,
                database_id.value,
                name_views(measurements@),
                now as int,
            );
            let part = chunk(rows, INSERTED_AT_ONCE as nat, k);
            let fields = batch_fields();
            let row = rows[i];
            let batch = batches@[i];
            &&& s.sql == additions_text("INSERT INTO "@, "batches"@, fields, part.len())
            &&& s.params == flat(part)
            &&& row.len() == 9
            &&& puts(fields, row, "id"@, SqlView::Text(uuid_text(batch.batch_id.value)))
            &&& puts(fields, row, "aspect_id"@, SqlView::Text(uuid_text(aspect_id.value)))
            &&& puts(fields, row, "database_id"@, SqlView::Text(uuid_text(database_id.value)))
            &&& batch.metadata.size <= i64::MAX ==> puts(
                fields,
                row,
                "size"@,
                SqlView::Text(int_text(batch.metadata.size as int)),
            )
            &&& puts(
                fields,
                row,
                "resolution"@,
                SqlView::Text(batch.metadata.resolution.spec_text()),
            )
            &&& puts(fields, row, "measurements"@, SqlView::Text(measurements@[i]@))
            &&& puts(fields, row, "batch_hash"@, SqlView::Text(md5_text(measurements@[i]@)))
            &&& puts(fields, row, "status"@, SqlView::Text("processed"@))
            &&& puts(fields, row, "created_at"@, SqlView::Text(int_text(now as int)))
        }),
{
    reveal_with_fuel(columns_text, 10);
    reveal_with_fuel(values_text, 10);
    reveal_with_fuel(puts, 10);
    reveal_with_fuel(values_put, 10);
    reveal_strlit("INSERT INTO batches (id, aspect_id, database_id, size, resolution, measurements, batch_hash, status, created_at) VALUES ");
    reveal_strlit("(?, ?, ?, ?, ?, ?, ?, ?, ?)");
    reveal_strlit("");
    reveal_strlit("INSERT INTO ");
    reveal_strlit("batches");
    reveal_strlit(" (");
    reveal_strlit(") VALUES ");
    reveal_strlit("(");
    reveal_strlit(")");
    reveal_strlit(", ");
    reveal_strlit("?");
    reveal_strlit("id");
    reveal_strlit("aspect_id");
    reveal_strlit("database_id");
    reveal_strlit("size");
    reveal_strlit("resolution");
    reveal_strlit("measurements");
    reveal_strlit("batch_hash");
    reveal_strlit("status");
    reveal_strlit("created_at");
    let rows = text_rows(
        batches@,
        aspect_id.value,
        database_id.value,
        name_views(measurements@),
        now as int,
    );
    let part = chunk(rows, INSERTED_AT_ONCE as nat, k);
    let fields = batch_fields();
    let s = spec_bulk_insert_processed_batches(
        aspect_id,
        database_id,
        batches,
        measurements,
        now,
    )[k].statement;
    assert("("@ + values_text(fields) + ")"@ =~= "(?, ?, ?, ?, ?, ?, ?, ?, ?)"@);
    assert("INSERT INTO batches (id, aspect_id, database_id, size, resolution, measurements, batch_hash, status, created_at) VALUES "@
        =~= "INSERT INTO "@ + "batches"@ + " ("@ + columns_text(fields) + ") VALUES "@);
    assert(s.sql =~= additions_text("INSERT INTO "@, "batches"@, fields, part.len()));
    assert(s.params =~= flat(part));
}

/// Instants that wait to be batched are each added in a row of their own, unless they wait already,
/// with each value in the column that is meant for it.
pub proof fn law_instants_are_enqueued_as_they_are(
    aspect_id: &AspectId,
    data_timestamps: &Vec<Timestamp>,
    queued_at: i64,
    k: int,
    t: Timestamp,
)
    requires
        0 <= k < spec_enqueue_unbatched_measurements(aspect_id, data_timestamps, queued_at).len(),
    ensures
        ({
            let s = spec_enqueue_unbatched_measurements(aspect_id, data_timestamps, queued_at)[k];
            let rows = Seq::new(
                data_timestamps@.len(),
                |i: int| queue_row(aspect_id.value, data_timestamps@[i], queued_at as int),
            );
            let part = chunk(rows, CHUNK_SIZE as nat, k);
            let fields = queue_fields();
            let row = queue_row(aspect_id.value, t, queued_at as int);
            &&& s.statement.sql == additions_text(
                "INSERT OR IGNORE INTO "@,
                "unbatched_measurements"@,
                fields,
                part.len(),
            )
            &&& s.statement.params == flat(part)
            &&& row.len() == 3
            &&& puts(fields, row, "aspect_id"@, SqlView::Text(uuid_text(aspect_id.value)))
            &&& puts(fields, row, "data_timestamp"@, SqlView::Text(int_text(t.spec_millis())))
            &&& puts(fields, row, "queued_at"@, SqlView::Text(int_text(queued_at as int)))
        }),
{
    reveal_with_fuel(columns_text, 4);
    reveal_with_fuel(values_text, 4);
    reveal_with_fuel(puts, 4);
    reveal_with_fuel(values_put, 4);
    reveal_strlit("INSERT OR IGNORE INTO unbatched_measurements (aspect_id, data_timestamp, queued_at) VALUES ");
    reveal_strlit("(?, ?, ?)");
    reveal_strlit("");
    reveal_strlit("INSERT OR IGNORE INTO ");
    reveal_strlit("unbatched_measurements");
    reveal_strlit(" (");
    reveal_strlit(") VALUES ");
    reveal_strlit("(");
    reveal_strlit(")");
    reveal_strlit(", ");
    reveal_strlit("?");
    reveal_strlit("aspect_id");
    reveal_strlit("data_timestamp");
    reveal_strlit("queued_at");
    let rows = Seq::new(
        data_timestamps@.len(),
        |i: int| queue_row(aspect_id.value, data_timestamps@[i], queued_at as int),
    );
    let part = chunk(rows, CHUNK_SIZE as nat, k);
    let fields = queue_fields();
    let s = spec_enqueue_unbatched_measurements(aspect_id, data_timestamps, queued_at)[k];
    assert("("@ + values_text(fields) + ")"@ =~= "(?, ?, ?)"@);
    assert("INSERT OR IGNORE INTO unbatched_measurements (aspect_id, data_timestamp, queued_at) VALUES "@
        =~= "INSERT OR IGNORE INTO "@ + "unbatched_measurements"@ + " ("@ + columns_text(fields)
        + ") VALUES "@);
    assert(s.statement.sql =~= additions_text(
        "INSERT OR IGNORE INTO "@,
        "unbatched_measurements"@,
        fields,
        part.len(),
    ));
    assert(s.statement.params =~= flat(part));
}

/// Instants that were batched are taken out of the queue of their aspect, and of no other.
pub proof fn law_instants_are_dequeued_for_their_aspect(
    aspect_id: &AspectId,
    data_timestamps: &Vec<Timestamp>,
    k: int,
    t: Timestamp,
)
    requires
        0 <= k < spec_dequeue_unbatched_measurements(aspect_id, data_timestamps).len(),
    ensures
        ({
            let s = spec_dequeue_unbatched_measurements(aspect_id, data_timestamps)[k].statement;
            let rows = Seq::new(
                data_timestamps@.len(),
                |i: int| millis_row(data_timestamps@[i]),
            );
            let part = chunk(rows, CHUNK_SIZE as nat, k);
            &&& s.sql == removal_among_text(
                "unbatched_measurements"@,
                only("aspect_id"@, Sign::Is),
                "data_timestamp"@,
                part.len(),
            )
            &&& s.params == seq![SqlView::Text(uuid_text(aspect_id.value))] + flat(part)
            &&& millis_row(t) == seq![SqlView::Text(int_text(t.spec_millis()))]
        }),
{
    reveal_with_fuel(conditions_text, 3);
    reveal_strlit("DELETE FROM unbatched_measurements WHERE aspect_id = ? AND data_timestamp IN (");
    reveal_strlit("DELETE FROM ");
    reveal_strlit("unbatched_measurements");
    reveal_strlit("");
    reveal_strlit(" WHERE ");
    reveal_strlit(" AND ");
    reveal_strlit(" = ");
    reveal_strlit("?");
    reveal_strlit("aspect_id");
    reveal_strlit("data_timestamp");
    reveal_strlit(" IN (");
    reveal_strlit(")");
    let rows = Seq::new(data_timestamps@.len(), |i: int| millis_row(data_timestamps@[i]));
    let part = chunk(rows, CHUNK_SIZE as nat, k);
    let s = spec_dequeue_unbatched_measurements(aspect_id, data_timestamps)[k].statement;
    assert(s.sql =~= removal_among_text(
        "unbatched_measurements"@,
        only("aspect_id"@, Sign::Is),
        "data_timestamp"@,
        part.len(),
    ));
}

/// Measurements that are added at once stand in rows of their own, with each value in the column
/// that is meant for it.
pub proof fn law_bulk_measurements_are_added_as_they_are(
    id: u128,
    dataset: u128,
    millis: int,
    value: DecimalView,
    rows: nat,
)
    ensures
        ({
            let fields = measurement_fields();
            let row = measurement_row(id, dataset, millis, value);
            &&& MEASUREMENTS_INSERT@ + repeated("(?, ?, ?, ?)"@, rows) + ""@ == additions_text(
                "INSERT INTO "@,
                "measurements"@,
                fields,
                rows,
            )
            &&& row.len() == 4
            &&& puts(fields, row, "id"@, SqlView::Text(uuid_text(id)))
            &&& puts(fields, row, "dataset_id"@, SqlView::Text(uuid_text(dataset)))
            &&& puts(fields, row, "timestamp"@, SqlView::Text(int_text(millis)))
            &&& puts(
                fields,
                row,
                "value"@,
                SqlView::Text(decimal_text(value.mantissa, value.scale)),
            )
        }),
{
    reveal_with_fuel(columns_text, 5);
    reveal_with_fuel(values_text, 5);
    reveal_with_fuel(puts, 5);
    reveal_with_fuel(values_put, 5);
    reveal_strlit("INSERT INTO measurements (id, dataset_id, timestamp, value) VALUES ");
    reveal_strlit("(?, ?, ?, ?)");
    reveal_strlit("");
    reveal_strlit("INSERT INTO ");
    reveal_strlit("measurements");
    reveal_strlit(" (");
    reveal_strlit(") VALUES ");
    reveal_strlit("(");
    reveal_strlit(")");
    reveal_strlit(", ");
    reveal_strlit("?");
    reveal_strlit("id");
    reveal_strlit("dataset_id");
    reveal_strlit("timestamp");
    reveal_strlit("value");
    let fields = measurement_fields();
    assert("("@ + values_text(fields) + ")"@ =~= "(?, ?, ?, ?)"@);
    assert(MEASUREMENTS_INSERT@ =~= "INSERT INTO "@ + "measurements"@ + " ("@ + columns_text(
        fields,
    ) + ") VALUES "@);
    assert(MEASUREMENTS_INSERT@ + repeated("(?, ?, ?, ?)"@, rows) + ""@ =~= additions_text(
        "INSERT INTO "@,
        "measurements"@,
        fields,
        rows,
    ));
}

}
