//! What is done when a step of a transaction fails, and how long is waited before trying again.
use crate::error::ErrorView;
use crate::text::occurs_in;
use crate::transaction::{
    actions_from,
    begin_base_delay,
    doubling,
    follows_begin,
    is_transient,
    lookup_delay,
    spec_connect_wait,
    spec_lookup_retry,
    spec_release_wait,
    ActionView,
    BeginAction,
    BeginMode,
    FileState,
    LookupStage,
    OnFailure,
    StepView,
};
use vstd::arithmetic::power2::{lemma2_to64, lemma_pow2_unfold, pow2};
use vstd::prelude::*;

verus! {

/// The first step that fails is the last that is executed: those before it are executed once each,
/// in order, and behind it comes only what the step demands then, with the complaint of the step
/// before the error.
pub proof fn law_a_failed_step_is_the_last(
    steps: Seq<StepView>,
    outcomes: Seq<Option<Seq<char>>>,
    i: int,
    failed: int,
    e: Seq<char>,
)
    requires
        0 <= i <= failed < steps.len(),
        forall|k: int| i <= k < failed ==> #[trigger] outcomes[k] is None,
        outcomes[failed] == Some(e),
    ensures
        ({
            let done = actions_from(steps, outcomes, i);
            &&& done.len() == failed - i + 2
            &&& forall|k: int| i <= k <= failed ==> #[trigger] done[k - i] == ActionView::Execute(k)
            &&& done.last() == match steps[failed].on_failure {
                OnFailure::Leave => ActionView::Fail(
                    ErrorView::DatabaseError(steps[failed].complaint + e),
                ),
                OnFailure::Tell => ActionView::Fail(
                    ErrorView::Message(steps[failed].complaint + e),
                ),
                _ => ActionView::RollBack(steps[failed].complaint + e),
            }
        }),
    decreases failed - i,
{
    let done = actions_from(steps, outcomes, i);
    if i < failed {
        assert(outcomes[i] is None);
        law_a_failed_step_is_the_last(steps, outcomes, i + 1, failed, e);
        let rest = actions_from(steps, outcomes, i + 1);
        assert forall|k: int| i <= k <= failed implies #[trigger] done[k - i]
            == ActionView::Execute(k) by {
            if k > i {
                assert(done[k - i] == rest[k - (i + 1)]);
            }
        }
        assert(done.last() == rest.last());
    }
}

/// The wait before a transaction is begun again starts at ten milliseconds and doubles with every
/// attempt, up to half a second.
pub proof fn law_the_wait_to_begin_doubles(attempts: nat)
    ensures
        begin_base_delay(0) == 10,
        begin_base_delay(attempts + 1) == if 2 * begin_base_delay(attempts) <= 500 {
            2 * begin_base_delay(attempts)
        } else {
            500
        },
{
    lemma2_to64();
    if attempts < 6 {
        lemma_pow2_unfold(attempts + 1);
    }
    if attempts == 0 {
    } else if attempts == 1 {
    } else if attempts == 2 {
    } else if attempts == 3 {
    } else if attempts == 4 {
    } else if attempts == 5 {
    } else {
        assert(begin_base_delay(attempts) == 500);
        assert(begin_base_delay(attempts + 1) == 500);
    }
}

/// The wait before a lookup is tried again grows by 25 milliseconds with every attempt to connect
/// for a subject or for aspects; else it starts at 25 milliseconds and doubles, up to 128 times as
/// long.
pub proof fn law_the_wait_to_look_up_grows(stage: LookupStage, attempts: nat)
    ensures
        stage is ConnectForAspect || stage is ConnectForSubject ==> lookup_delay(stage, 0) == 0
            && lookup_delay(stage, attempts + 1) == lookup_delay(stage, attempts) + 25,
        stage is ConnectForName || stage is Query ==> lookup_delay(stage, 0) == 25 && lookup_delay(
            stage,
            attempts + 1,
        ) == if 2 * lookup_delay(stage, attempts) <= 3200 {
            2 * lookup_delay(stage, attempts)
        } else {
            3200
        },
{
    lemma2_to64();
    if attempts < 7 {
        lemma_pow2_unfold(attempts + 1);
        assert(pow2(attempts) <= 64) by {
            if attempts < 6 {
                vstd::arithmetic::power2::lemma_pow2_strictly_increases(attempts, 6);
            }
        }
    } else {
        assert(doubling(7) == 128);
    }
}

/// A lock passes by itself wherever it is met. A busy database does too, but on connecting for
/// aspects; a conflict does on querying and on connecting for a subject by its name. An error that
/// says none of these does not pass.
pub proof fn law_what_passes_by_itself(stage: LookupStage, lowered: Seq<char>)
    ensures
        occurs_in(lowered, "locked"@) ==> is_transient(stage, lowered),
        occurs_in(lowered, "busy"@) && !(stage is ConnectForAspect) ==> is_transient(
            stage,
            lowered,
        ),
        occurs_in(lowered, "conflict"@) && (stage is Query || stage is ConnectForName)
            ==> is_transient(stage, lowered),
        is_transient(LookupStage::ConnectForAspect, lowered) ==> is_transient(
            LookupStage::ConnectForSubject,
            lowered,
        ),
        is_transient(LookupStage::ConnectForSubject, lowered) ==> is_transient(
            LookupStage::Query,
            lowered,
        ),
        is_transient(LookupStage::ConnectForName, lowered) == is_transient(
            LookupStage::Query,
            lowered,
        ),
        is_transient(stage, lowered) ==> occurs_in(lowered, "locked"@) || occurs_in(
            lowered,
            "busy"@,
        ) || occurs_in(lowered, "conflict"@),
        is_transient(LookupStage::ConnectForAspect, lowered) ==> occurs_in(lowered, "locked"@),
        is_transient(LookupStage::ConnectForSubject, lowered) ==> occurs_in(lowered, "locked"@)
            || occurs_in(lowered, "busy"@),
{
}

/// A connection is tried again up to the last attempt, after a fifth of a second, or ten times as
/// long where another program holds the file.
pub proof fn law_connecting_is_tried_again(
    attempts: int,
    max_attempts: int,
    lowered: Seq<char>,
)
    ensures
        spec_connect_wait(attempts, max_attempts, lowered) is Some <==> attempts < max_attempts,
        attempts < max_attempts && (occurs_in(lowered, "i/o error"@) || occurs_in(
            lowered,
            "unexpected end of file"@,
        )) ==> spec_connect_wait(attempts, max_attempts, lowered) == Some(2000u64),
        attempts < max_attempts && !occurs_in(lowered, "i/o error"@) && !occurs_in(
            lowered,
            "unexpected end of file"@,
        ) ==> spec_connect_wait(attempts, max_attempts, lowered) == Some(200u64),
{
}

/// A lookup is tried again only after an error that passes by itself, and before forty attempts
/// have failed.
pub proof fn law_a_lookup_is_tried_again(stage: LookupStage, attempts: u32, lowered: Seq<char>)
    ensures
        spec_lookup_retry(stage, attempts, lowered) is Some <==> attempts < 40 && is_transient(
            stage,
            lowered,
        ),
        attempts < 40 && is_transient(stage, lowered) ==> spec_lookup_retry(
            stage,
            attempts,
            lowered,
        )->0 == lookup_delay(stage, attempts as nat),
{
    lemma2_to64();
    if attempts < 7 {
        vstd::arithmetic::power2::lemma_pow2_strictly_increases(attempts as nat, 7);
    }
}

/// A file that is not locked is not waited for, and a locked one is waited for a tenth of a second
/// each, and looked at fifty times.
pub proof fn law_a_locked_file_is_waited_for(attempt: int, state: FileState)
    requires
        0 <= attempt < 50,
    ensures
        spec_release_wait(attempt, state) is Some <==> state is Denied && attempt < 49,
        spec_release_wait(attempt, state) is Some ==> spec_release_wait(attempt, state)->0 == 100,
{
}

/// A transaction that could not be begun is tried again until a hundred attempts have failed; then
/// the last error is told. One that has begun is not begun again.
pub proof fn law_beginning_is_tried_again(
    kind: Seq<char>,
    failed: int,
    outcome: Result<(), String>,
    r: BeginAction,
)
    requires
        0 <= failed < 100,
        follows_begin(kind, failed, outcome, r),
    ensures
        outcome is Ok <==> r is Begun,
        r is Fail <==> outcome is Err && failed == 99,
        r is Retry ==> r->Retry_0 == begin_base_delay((failed + 1) as nat),
        r is Fail ==> r->Fail_0.spec_message() == "Failed to begin "@ + kind
            + " transaction after "@ + crate::text::nat_text(100) + " attempts: "@
            + outcome->Err_0@,
{
}

/// The ways to begin a transaction are tried from the most to the least demanding, each once.
pub proof fn law_every_way_to_begin_is_tried(mode: BeginMode)
    ensures
        mode.spec_fallback() is None <==> mode is Deferred,
        mode is Concurrent ==> mode.spec_fallback()->0.spec_sql() == "BEGIN IMMEDIATE"@,
        mode is Concurrent ==> mode.spec_fallback()->0.spec_fallback()->0.spec_sql() == "BEGIN"@,
        mode is Immediate ==> mode.spec_fallback()->0.spec_sql() == "BEGIN"@,
        mode is Concurrent ==> mode.spec_sql() == "BEGIN CONCURRENT"@,
{
}

}
