//! What the statements on the stored readings read, add, change and take away.
use crate::laws::statements::{conditions_text, listed_text, reading_text, Conditions, Listed};
use crate::store::readings::{
    spec_first_measurements_query,
    spec_last_measurements_query,
    spec_measurements_count_query,
};
use vstd::prelude::*;

verus! {

/// The statement of `measurements_count_query` reads `COUNT(*)` of every row of `measurements`.
pub proof fn law_measurements_count_query_reads()
    ensures
        ({
            let met = Conditions::Always;
            let columns = Listed::Only("COUNT(*)"@);
            let s = spec_measurements_count_query();
            &&& s.sql == reading_text(columns, "measurements"@, met)
            &&& s.params.len() == 0
        }),
{
    reveal_with_fuel(listed_text, 2);
    reveal_with_fuel(conditions_text, 2);
    reveal_strlit("");
    reveal_strlit(" FROM ");
    reveal_strlit("COUNT(*)");
    reveal_strlit("SELECT ");
    reveal_strlit("SELECT COUNT(*) FROM measurements");
    reveal_strlit("measurements");
    let met = Conditions::Always;
    let columns = Listed::Only("COUNT(*)"@);
    let s = spec_measurements_count_query();
    assert(s.sql =~= reading_text(columns, "measurements"@, met));
}

/// The statement of `first_measurements_query` reads `id`, `dataset_id`, `timestamp` and `value` of
/// every row of `measurements`, the first by `timestamp` first, and no more than two.
pub proof fn law_first_measurements_query_reads()
    ensures
        ({
            let met = Conditions::Always;
            let columns = Listed::Only("id"@).and("dataset_id"@).and("timestamp"@).and("value"@);
            let s = spec_first_measurements_query();
            &&& s.sql == reading_text(columns, "measurements"@, met) + " ORDER BY timestamp ASC LIMIT 2"@
            &&& s.params.len() == 0
        }),
{
    reveal_with_fuel(listed_text, 5);
    reveal_with_fuel(conditions_text, 2);
    reveal_strlit("");
    reveal_strlit(" FROM ");
    reveal_strlit(" ORDER BY timestamp ASC LIMIT 2");
    reveal_strlit(", ");
    reveal_strlit("SELECT ");
    reveal_strlit("SELECT id, dataset_id, timestamp, value FROM measurements ORDER BY timestamp ASC LIMIT 2");
    reveal_strlit("dataset_id");
    reveal_strlit("id");
    reveal_strlit("measurements");
    reveal_strlit("timestamp");
    reveal_strlit("value");
    let met = Conditions::Always;
    let columns = Listed::Only("id"@).and("dataset_id"@).and("timestamp"@).and("value"@);
    let s = spec_first_measurements_query();
    assert(s.sql =~= reading_text(columns, "measurements"@, met) + " ORDER BY timestamp ASC LIMIT 2"@);
}

/// The statement of `last_measurements_query` reads `id`, `dataset_id`, `timestamp` and `value` of
/// every row of `measurements`, the last by `timestamp` first, and no more than two.
pub proof fn law_last_measurements_query_reads()
    ensures
        ({
            let met = Conditions::Always;
            let columns = Listed::Only("id"@).and("dataset_id"@).and("timestamp"@).and("value"@);
            let s = spec_last_measurements_query();
            &&& s.sql == reading_text(columns, "measurements"@, met) + " ORDER BY timestamp DESC LIMIT 2"@
            &&& s.params.len() == 0
        }),
{
    reveal_with_fuel(listed_text, 5);
    reveal_with_fuel(conditions_text, 2);
    reveal_strlit("");
    reveal_strlit(" FROM ");
    reveal_strlit(" ORDER BY timestamp DESC LIMIT 2");
    reveal_strlit(", ");
    reveal_strlit("SELECT ");
    reveal_strlit("SELECT id, dataset_id, timestamp, value FROM measurements ORDER BY timestamp DESC LIMIT 2");
    reveal_strlit("dataset_id");
    reveal_strlit("id");
    reveal_strlit("measurements");
    reveal_strlit("timestamp");
    reveal_strlit("value");
    let met = Conditions::Always;
    let columns = Listed::Only("id"@).and("dataset_id"@).and("timestamp"@).and("value"@);
    let s = spec_last_measurements_query();
    assert(s.sql =~= reading_text(columns, "measurements"@, met) + " ORDER BY timestamp DESC LIMIT 2"@);
}

}
