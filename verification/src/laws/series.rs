//! That all parts of something are written, and what becomes of it when one cannot be.
use crate::correlation::Correlation;
use crate::error::ErrorView;
use crate::event::Event;
use crate::ids::TxId;
use crate::measurement::InputMeasurement;
use crate::pattern::{occurrence_views, PatternView};
use crate::sql::SqlView;
use crate::store::correlations::{rate_step, rate_steps};
use crate::store::dictionaries::{plain_step, told_step, variability_step, variability_steps};
use crate::store::events::quietly_rolled_back;
use crate::store::observations::{observation, observation_steps};
use crate::store::patterns::{
    relative_step,
    relative_steps,
    relative_text_step,
    relative_text_steps,
};
use crate::transaction::{actions_from, rolled_back, ActionView, StepView};
use crate::variability::VariabilityView;
use vstd::prelude::*;

verus! {

/// Whether all stretches of something fit into their columns.
pub open spec fn all_fit(s: Seq<crate::pattern::OccurrenceView>) -> bool {
    &&& s.len() <= i64::MAX
    &&& forall|i: int| 0 <= i < s.len() ==> (#[trigger] s[i]).size <= i64::MAX
}

proof fn lemma_all_fit(s: Seq<crate::pattern::OccurrenceView>, is_placed: bool, i: int)
    requires
        all_fit(s),
        0 <= i <= s.len(),
    ensures
        crate::store::occurrences::first_unfit(s, is_placed, i) == s.len(),
    decreases s.len() - i,
{
    if i < s.len() {
        assert(s[i].size <= i64::MAX);
        lemma_all_fit(s, is_placed, i + 1);
    }
}

/// A correlation is written with every rate and every stretch, once each and in their order, where
/// they fit.
pub proof fn law_every_part_of_a_correlation_is_written(
    c: Correlation,
    infos: Seq<Seq<char>>,
    i: int,
)
    requires
        all_fit(occurrence_views(c.occurrences@)),
    ensures
        rate_steps(c).len() == c.error_rate.entries@.len(),
        0 <= i < rate_steps(c).len() ==> rate_steps(c)[i] == rate_step(
            c.id.value,
            c.error_rate.entries@[i],
        ),
        crate::store::correlations::stretch_steps(c, infos).len() == c.occurrences@.len(),
        0 <= i < c.occurrences@.len() ==> crate::store::correlations::stretch_steps(c, infos)[i]
            == crate::store::correlations::stretch_step(
            c.id.value,
            i,
            c.occurrences@[i]@,
            infos[i],
        ),
{
    lemma_all_fit(occurrence_views(c.occurrences@), true, 0);
}

/// A pattern is written with every stretch and every relative, once each, in their order and with
/// their places, where they fit.
pub proof fn law_every_part_of_a_pattern_is_written(
    p: PatternView,
    aspect: u128,
    is_placed: bool,
    infos: Seq<Seq<char>>,
    texts: Seq<Seq<char>>,
    i: int,
)
    requires
        all_fit(p.occurrences),
        p.relatives.len() <= i64::MAX,
        texts.len() <= i64::MAX,
    ensures
        crate::store::patterns::stretch_steps(p, aspect, is_placed, infos).len()
            == p.occurrences.len(),
        0 <= i < p.occurrences.len() ==> crate::store::patterns::stretch_steps(
            p,
            aspect,
            is_placed,
            infos,
        )[i] == crate::store::patterns::stretch_step(
            p.id.value,
            aspect,
            is_placed,
            i,
            p.occurrences[i],
            infos[i],
        ),
        relative_steps(p).len() == p.relatives.len(),
        0 <= i < p.relatives.len() ==> relative_steps(p)[i] == relative_step(
            p.id.value,
            i,
            p.relatives[i],
        ),
        relative_text_steps(p.id.value, texts).len() == texts.len(),
        0 <= i < texts.len() ==> relative_text_steps(p.id.value, texts)[i] == relative_text_step(
            p.id.value,
            i,
            texts[i],
        ),
{
    lemma_all_fit(p.occurrences, is_placed, 0);
}

/// Every bound of a dictionary is written, once each and in their order; without bounds none is.
pub proof fn law_every_bound_is_written(id: u128, s: Seq<VariabilityView>, i: int)
    ensures
        variability_steps(id, None).len() == 0,
        variability_steps(id, Some(s)).len() == s.len(),
        0 <= i < s.len() ==> variability_steps(id, Some(s))[i] == variability_step(id, s[i]),
{
}

/// Every observation is written, once each and in their order, with its own identifier.
pub proof fn law_every_observation_is_written(
    table_name: Seq<char>,
    tx_ids: Seq<TxId>,
    s: Seq<InputMeasurement>,
    i: int,
)
    ensures
        observation_steps(table_name, tx_ids, s).len() == s.len(),
        0 <= i < s.len() ==> observation_steps(table_name, tx_ids, s)[i].statement == observation(
            table_name,
            tx_ids[i].value,
            s[i].timestamp.spec_millis(),
            s[i].value@,
        ),
{
}

/// Every processed event is written, once each and in their order.
pub proof fn law_every_processed_event_is_written(
    events: Seq<Event>,
    database: u128,
    manifestations: Seq<Seq<char>>,
    nows: Seq<i64>,
    i: int,
)
    ensures
        crate::queue::events::processed_steps(events, database, manifestations, nows).len()
            == events.len(),
        0 <= i < events.len() ==> crate::queue::events::processed_steps(
            events,
            database,
            manifestations,
            nows,
        )[i] == crate::queue::events::processed_step(
            events[i].id.value,
            database,
            events[i].name@,
            manifestations[i],
            nows[i] as int,
        ),
{
}

/// What is done when a step that stands alone fails.
pub open spec fn after_failure(step: StepView, e: Seq<char>) -> ActionView {
    actions_from(seq![step], seq![Some(e)], 0).last()
}

/// A step that is to be rolled back is, whether the rollback is looked at or not; one that is left
/// or told ends the transaction with its error, as an error of the database or by its text alone.
/// The complaint comes before the error, and the statement is the one that was given.
pub proof fn law_steps_fail_as_they_are_made(
    sql: Seq<char>,
    params: Seq<SqlView>,
    complaint: Seq<char>,
    e: Seq<char>,
)
    ensures
        after_failure(rolled_back(sql, params, complaint), e) == ActionView::RollBack(
            complaint + e,
        ),
        after_failure(quietly_rolled_back(sql, params, complaint), e) == ActionView::RollBack(
            complaint + e,
        ),
        after_failure(crate::pipeline::left(sql, params, complaint), e) == ActionView::Fail(
            ErrorView::DatabaseError(complaint + e),
        ),
        after_failure(told_step(sql, params), e) == ActionView::Fail(ErrorView::Message(e)),
        after_failure(plain_step(sql), e) == ActionView::Fail(ErrorView::Message(e)),
        rolled_back(sql, params, complaint).statement.sql == sql,
        rolled_back(sql, params, complaint).statement.params == params,
        quietly_rolled_back(sql, params, complaint).statement.sql == sql,
        quietly_rolled_back(sql, params, complaint).statement.params == params,
        crate::pipeline::left(sql, params, complaint).statement.sql == sql,
        crate::pipeline::left(sql, params, complaint).statement.params == params,
        told_step(sql, params).statement.sql == sql,
        told_step(sql, params).statement.params == params,
{
    reveal_strlit("");
    reveal_with_fuel(actions_from, 2);
    assert(""@ + e =~= e);
    lemma_after_failure(rolled_back(sql, params, complaint), e);
    lemma_after_failure(quietly_rolled_back(sql, params, complaint), e);
    lemma_after_failure(crate::pipeline::left(sql, params, complaint), e);
    lemma_after_failure(told_step(sql, params), e);
    lemma_after_failure(plain_step(sql), e);
}

proof fn lemma_after_failure(step: StepView, e: Seq<char>)
    ensures
        after_failure(step, e) == crate::transaction::failure_action(step, e),
{
    let steps = seq![step];
    let outcomes = seq![Some(e)];
    assert(outcomes[0] == Some(e));
    assert(steps[0] == step);
    let done = actions_from(steps, outcomes, 0);
    assert(done.len() == 2);
    assert(done[1] == crate::transaction::failure_action(step, e));
}

}
