//! What the statements on a queue do to its rows.
use crate::ids::uuid_text;
use crate::transaction::{
    action_at,
    actions_from,
    law_failed_transaction_is_not_committed,
    law_successful_transaction_is_committed,
    ActionView,
    StepView,
};
use vstd::prelude::*;

verus! {

/// A row of a queue. One of a queue that does not part its rows by aspects has no aspect.
pub struct QueuedRow {
    pub id: Seq<char>,
    pub aspect: Option<Seq<char>>,
    pub database: Seq<char>,
    pub status: Seq<char>,
    pub processed_at: Option<int>,
}

impl QueuedRow {
    pub open spec fn is_processed(self) -> bool {
        self.status == "processed"@
    }

    pub open spec fn is_unprocessed(self) -> bool {
        self.status == "unprocessed"@
    }

    pub open spec fn has_id(self, id: u128) -> bool {
        self.id == uuid_text(id)
    }

    pub open spec fn is_of(self, database: u128) -> bool {
        self.database == uuid_text(database)
    }

    pub open spec fn is_about(self, aspect: u128) -> bool {
        self.aspect == Some(uuid_text(aspect))
    }

    /// The row once it is processed.
    pub open spec fn marked(self, now: int) -> QueuedRow {
        QueuedRow { status: "processed"@, processed_at: Some(now), ..self }
    }
}

/// The rows that a statement meets.
pub open spec fn met_rows<T>(stored: Seq<T>, meets: spec_fn(T) -> bool) -> Seq<T> {
    stored.filter(meets)
}

/// The rows that a statement leaves which deletes those that it meets.
pub open spec fn left_rows<T>(stored: Seq<T>, meets: spec_fn(T) -> bool) -> Seq<T> {
    stored.filter(|row: T| !meets(row))
}

/// The rows after a statement which marks those that it meets as processed.
pub open spec fn marked_rows(
    stored: Seq<QueuedRow>,
    meets: spec_fn(QueuedRow) -> bool,
    now: int,
) -> Seq<QueuedRow> {
    Seq::new(
        stored.len(),
        |i: int|
            if meets(stored[i]) {
                stored[i].marked(now)
            } else {
                stored[i]
            },
    )
}

/// Whether what a step did lasts, where it is given how the step and the commit went: it does if the
/// transaction was committed.
pub open spec fn lasts(step: StepView, outcome: Option<Seq<char>>, commit: Option<Seq<char>>) -> bool {
    actions_from(seq![step], seq![outcome], 0).contains(ActionView::Commit) && commit is None
}

/// What is told of a step, where it is given how the step and the commit went, and what is told of
/// the rows that it met.
pub open spec fn told(
    step: StepView,
    outcome: Option<Seq<char>>,
    commit: Option<Seq<char>>,
    of_rows: Option<Seq<char>>,
) -> Option<Seq<char>> {
    match (outcome, commit) {
        (Some(e), _) => Some(step.complaint + e),
        (None, Some(e)) => Some(e),
        (None, None) => of_rows,
    }
}

/// What a step did lasts if and only if neither the step nor the commit failed.
pub proof fn lemma_lasts(step: StepView, outcome: Option<Seq<char>>, commit: Option<Seq<char>>)
    ensures
        lasts(step, outcome, commit) <==> outcome is None && commit is None,
{
    let steps = seq![step];
    let outcomes = seq![outcome];
    let done = actions_from(steps, outcomes, 0);
    assert(outcomes[0] == outcome);
    if outcome is None {
        law_successful_transaction_is_committed(steps, outcomes, 0);
        assert(done[1] == action_at(steps, 1));
        assert(done.contains(ActionView::Commit));
    } else {
        law_failed_transaction_is_not_committed(steps, outcomes, 0, 0);
    }
}

/// Those of the rows that are picked are rows, and are the ones to pick.
pub proof fn lemma_picked<T>(stored: Seq<T>, pick: spec_fn(T) -> bool)
    ensures
        forall|row: T| #[trigger]
            stored.filter(pick).contains(row) <==> stored.contains(row) && pick(row),
        stored.filter(pick).len() > 0 <==> exists|row: T| #[trigger]
            stored.contains(row) && pick(row),
    decreases stored.len(),
{
    reveal(Seq::filter);
    let picked = stored.filter(pick);
    if stored.len() > 0 {
        let rest = stored.drop_last();
        let last = stored.last();
        let before = rest.filter(pick);
        lemma_picked(rest, pick);
        assert(picked == if pick(last) {
            before.push(last)
        } else {
            before
        });
        assert forall|row: T| #[trigger] picked.contains(row) <==> stored.contains(row)
            && pick(row) by {
            assert(before.contains(row) <==> rest.contains(row) && pick(row));
            if picked.contains(row) {
                let k = choose|k: int| 0 <= k < picked.len() && picked[k] == row;
                if k < before.len() {
                    assert(before[k] == row);
                    let i = choose|i: int| 0 <= i < rest.len() && rest[i] == row;
                    assert(stored[i] == row);
                } else {
                    assert(stored[stored.len() - 1] == row);
                }
            }
            if stored.contains(row) && pick(row) {
                let i = choose|i: int| 0 <= i < stored.len() && stored[i] == row;
                if i < rest.len() {
                    assert(rest[i] == row);
                    let k = choose|k: int| 0 <= k < before.len() && before[k] == row;
                    assert(picked[k] == row);
                } else {
                    assert(picked[before.len() as int] == row);
                }
            }
        }
        if picked.len() > 0 {
            assert(picked.contains(picked[0]));
            assert(stored.contains(picked[0]) && pick(picked[0]));
        }
        if exists|row: T| #[trigger] stored.contains(row) && pick(row) {
            let row = choose|row: T| #[trigger] stored.contains(row) && pick(row);
            assert(picked.contains(row));
        }
    }
}

/// A statement that meets no row deletes none.
pub proof fn lemma_nothing_met<T>(stored: Seq<T>, meets: spec_fn(T) -> bool)
    ensures
        met_rows(stored, meets).len() + left_rows(stored, meets).len() == stored.len(),
        met_rows(stored, meets).len() == 0 ==> left_rows(stored, meets) == stored,
    decreases stored.len(),
{
    reveal(Seq::filter);
    if stored.len() > 0 {
        lemma_nothing_met(stored.drop_last(), meets);
        assert(stored =~= stored.drop_last().push(stored.last()));
    }
}

/// What deleting the rows that a statement meets does to a queue.
pub proof fn lemma_deleted<T>(stored: Seq<T>, meets: spec_fn(T) -> bool)
    ensures
        met_rows(stored, meets).len() + left_rows(stored, meets).len() == stored.len(),
        met_rows(stored, meets).len() == 0 ==> left_rows(stored, meets) == stored,
        met_rows(stored, meets).len() > 0 <==> exists|row: T| #[trigger]
            stored.contains(row) && meets(row),
        forall|row: T| #[trigger]
            left_rows(stored, meets).contains(row) <==> stored.contains(row) && !meets(row),
{
    lemma_nothing_met(stored, meets);
    lemma_picked(stored, meets);
    lemma_picked(stored, |row: T| !meets(row));
}

}
