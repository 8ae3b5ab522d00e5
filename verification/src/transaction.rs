//! Transactions: how they begin, what happens when a statement fails, and how long to wait before
//! another attempt.
use crate::error::{Error, ErrorView};
use crate::sql::{
    chunk,
    chunk_count,
    chunk_end,
    statement,
    value_views,
    SqlValue,
    SqlView,
    Statement,
    StatementView,
};
use crate::text::{contains, join, nat_text, occurs_in, u64_text};
use vstd::prelude::*;

verus! {

/// What happens when a statement fails.
#[derive(Debug, Clone, Copy, PartialEq, Eq, Structural)]
pub enum OnFailure {
    /// The transaction is rolled back; that this fails too is what is told then.
    RollBack,
    /// The transaction is rolled back, and whether that succeeds is not looked at.
    RollBackQuietly,
    /// The transaction is left as it is.
    Leave,
    /// The transaction is left as it is, and the failure is told by its text alone.
    Tell,
}

/// A statement of a transaction, and what happens when it fails.
#[derive(Debug)]
pub struct Step {
    pub statement: Statement,
    /// How the error is told: before the database's own text.
    pub complaint: String,
    pub on_failure: OnFailure,
}

pub struct StepView {
    pub statement: StatementView,
    pub complaint: Seq<char>,
    pub on_failure: OnFailure,
}

impl View for Step {
    type V = StepView;

    open spec fn view(&self) -> StepView {
        StepView {
            statement: self.statement@,
            complaint: self.complaint@,
            on_failure: self.on_failure,
        }
    }
}

pub open spec fn step_views(s: Seq<Step>) -> Seq<StepView> {
    Seq::new(s.len(), |i: int| s[i]@)
}

/// A step of a transaction.
pub fn step(statement: Statement, complaint: &str, on_failure: OnFailure) -> (r: Step)
    ensures
        r@ == (StepView { statement: statement@, complaint: complaint@, on_failure }),
{
    Step { statement, complaint: complaint.to_owned(), on_failure }
}

/// A step that is rolled back when it fails.
pub open spec fn rolled_back(sql: Seq<char>, params: Seq<SqlView>, complaint: Seq<char>) -> StepView {
    StepView {
        statement: StatementView { sql, params },
        complaint,
        on_failure: OnFailure::RollBack,
    }
}

/// A step that is rolled back when it fails.
pub fn rolling_back(sql: &str, params: Vec<SqlValue>, complaint: &str) -> (r: Step)
    ensures
        r@ == rolled_back(sql@, value_views(params@), complaint@),
{
    step(statement(sql, params), complaint, OnFailure::RollBack)
}

/// What is done next in a transaction.
#[derive(Debug)]
pub enum Action {
    /// The statement at a place is executed.
    Execute(usize),
    /// The transaction is committed.
    Commit,
    /// The transaction is rolled back, and the failure is told.
    RollBack(String),
    /// The failure is told.
    Fail(Error),
}

pub enum ActionView {
    Execute(int),
    Commit,
    RollBack(Seq<char>),
    Fail(ErrorView),
}

impl View for Action {
    type V = ActionView;

    open spec fn view(&self) -> ActionView {
        match self {
            Action::Execute(i) => ActionView::Execute(*i as int),
            Action::Commit => ActionView::Commit,
            Action::RollBack(s) => ActionView::RollBack(s@),
            Action::Fail(e) => ActionView::Fail(e@),
        }
    }
}

/// What is done from a place on.
pub open spec fn action_at(steps: Seq<StepView>, i: int) -> ActionView {
    if i < steps.len() {
        ActionView::Execute(i)
    } else {
        ActionView::Commit
    }
}

/// What is done when a step has failed.
pub open spec fn failure_action(step: StepView, e: Seq<char>) -> ActionView {
    match step.on_failure {
        OnFailure::Leave => ActionView::Fail(ErrorView::DatabaseError(step.complaint + e)),
        OnFailure::Tell => ActionView::Fail(ErrorView::Message(step.complaint + e)),
        _ => ActionView::RollBack(step.complaint + e),
    }
}

/// What is done after a step, of which the error is given where it failed.
pub open spec fn action_after(steps: Seq<StepView>, i: int, outcome: Option<Seq<char>>) -> ActionView {
    match outcome {
        None => action_at(steps, i + 1),
        Some(e) => failure_action(steps[i], e),
    }
}

/// Everything that is done from a place on, where it is given which steps fail, and how.
pub open spec fn actions_from(
    steps: Seq<StepView>,
    outcomes: Seq<Option<Seq<char>>>,
    i: int,
) -> Seq<ActionView>
    decreases steps.len() - i,
{
    if i >= steps.len() {
        seq![action_at(steps, i)]
    } else {
        match outcomes[i] {
            None => seq![action_at(steps, i)] + actions_from(steps, outcomes, i + 1),
            Some(e) => seq![action_at(steps, i), action_after(steps, i, outcomes[i])],
        }
    }
}

/// What is done first.
pub fn first_action(steps: &Vec<Step>) -> (r: Action)
    ensures
        r@ == action_at(step_views(steps@), 0),
{
    if steps.len() == 0 {
        Action::Commit
    } else {
        Action::Execute(0)
    }
}

/// What is done after the step at a place, by how it went.
pub fn after_statement(steps: &Vec<Step>, i: usize, outcome: Result<u64, String>) -> (r: Action)
    requires
        i < steps.len(),
    ensures
        r@ == action_after(
            step_views(steps@),
            i as int,
            match outcome {
                Ok(_) => None,
                Err(e) => Some(e@),
            },
        ),
{
    match outcome {
        Ok(_) => {
            if i + 1 < steps.len() {
                Action::Execute(i + 1)
            } else {
                Action::Commit
            }
        },
        Err(e) => {
            let message = join(steps[i].complaint.as_str(), e.as_str());
            match steps[i].on_failure {
                OnFailure::Leave => Action::Fail(Error::DatabaseError(message)),
                OnFailure::Tell => Action::Fail(Error::Message(message)),
                _ => Action::RollBack(message),
            }
        },
    }
}

/// The error that is told after a rollback, by how the rollback went.
pub fn after_rollback(on_failure: OnFailure, message: String, outcome: Result<(), String>) -> (r:
    Error)
    ensures
        r is Message,
        r.spec_message() == match outcome {
            Ok(_) => message@,
            Err(e) => if on_failure == OnFailure::RollBack {
                "Rollback failed: "@ + e@
            } else {
                message@
            },
        },
{
    match outcome {
        Ok(_) => Error::Message(message),
        Err(e) => {
            if on_failure == OnFailure::RollBack {
                Error::Message(join("Rollback failed: ", e.as_str()))
            } else {
                Error::Message(message)
            }
        },
    }
}

/// How a transaction ends after its commit: where the commit is looked at, its failure is told.
pub fn after_commit(is_checked: bool, outcome: Result<(), String>) -> (r: Result<(), Error>)
    ensures
        match outcome {
            Err(e) if is_checked => r is Err && r->Err_0 is Message && r->Err_0.spec_message() == e@,
            _ => r == Ok::<(), Error>(()),
        },
{
    match outcome {
        Err(e) => {
            if is_checked {
                Err(Error::Message(e))
            } else {
                Ok(())
            }
        },
        Ok(_) => Ok(()),
    }
}

/// A transaction in which a step fails is never committed: the steps up to the first failure are
/// executed, and then it is rolled back or left.
pub proof fn law_failed_transaction_is_not_committed(
    steps: Seq<StepView>,
    outcomes: Seq<Option<Seq<char>>>,
    i: int,
    failed: int,
)
    requires
        0 <= i <= failed < steps.len(),
        outcomes[failed] is Some,
    ensures
        !actions_from(steps, outcomes, i).contains(ActionView::Commit),
    decreases failed - i,
{
    let done = actions_from(steps, outcomes, i);
    if outcomes[i] is None {
        law_failed_transaction_is_not_committed(steps, outcomes, i + 1, failed);
        let rest = actions_from(steps, outcomes, i + 1);
        assert forall|k: int| 0 <= k < done.len() implies done[k] != ActionView::Commit by {
            if k > 0 {
                assert(done[k] == rest[k - 1]);
                assert(rest.contains(rest[k - 1]));
            }
        }
    }
}

/// A transaction of which every step succeeds executes every step once, in order, and is then
/// committed.
pub proof fn law_successful_transaction_is_committed(
    steps: Seq<StepView>,
    outcomes: Seq<Option<Seq<char>>>,
    i: int,
)
    requires
        0 <= i <= steps.len(),
        forall|k: int| 0 <= k < steps.len() ==> #[trigger] outcomes[k] is None,
    ensures
        actions_from(steps, outcomes, i) == Seq::new(
            (steps.len() - i + 1) as nat,
            |k: int| action_at(steps, i + k),
        ),
    decreases steps.len() - i,
{
    if i < steps.len() {
        law_successful_transaction_is_committed(steps, outcomes, i + 1);
        assert(outcomes[i] is None);
    }
    assert(actions_from(steps, outcomes, i) =~= Seq::new(
        (steps.len() - i + 1) as nat,
        |k: int| action_at(steps, i + k),
    ));
}

/// The steps of a transaction, and the error with which it ends before it is committed, if it does.
#[derive(Debug)]
pub struct Script {
    pub steps: Vec<Step>,
    pub stop: Option<Error>,
}

#[verifier::ext_equal]
pub struct ScriptView {
    pub steps: Seq<StepView>,
    pub stop: Option<ErrorView>,
}

impl View for Script {
    type V = ScriptView;

    open spec fn view(&self) -> ScriptView {
        ScriptView {
            steps: step_views(self.steps@),
            stop: match self.stop {
                Some(e) => Some(e@),
                None => None,
            },
        }
    }
}

/// What is done when every step of a script has succeeded.
pub fn after_last_step(stop: Option<Error>) -> (r: Action)
    ensures
        r@ == match stop {
            Some(e) => ActionView::Fail(e@),
            None => ActionView::Commit,
        },
{
    match stop {
        Some(e) => Action::Fail(e),
        None => Action::Commit,
    }
}

/// Steps in transactions of their own, as many as fit into each.
pub fn in_transactions(steps: Vec<Step>, size: usize) -> (r: Vec<Vec<Step>>)
    requires
        size > 0,
    ensures
        transaction_views(r@) == Seq::new(
            chunk_count(steps@.len(), size as nat),
            |k: int| chunk(step_views(steps@), size as nat, k),
        ),
{
    let ghost all = step_views(steps@);
    let ghost given = steps@;
    let ghost n = steps.len() as nat;
    let total: usize = steps.len();
    let mut rest = steps;
    let mut r: Vec<Vec<Step>> = Vec::new();
    let ghost mut k: int = 0;
    let mut at: usize = 0;
    assert(0 * size == 0);
    assert(rest@ =~= given.skip(0));
    proof {
        crate::sql::lemma_count_reached(n, size as nat, 0, 0);
    }
    while at < total
        invariant
            size > 0,
            at <= total,
            n == total,
            n == given.len(),
            all == step_views(given),
            rest@ == given.skip(at as int),
            r.len() == k,
            0 <= k <= chunk_count(n, size as nat),
            at < n ==> at == k * size && k < chunk_count(n, size as nat),
            at == n ==> k == chunk_count(n, size as nat),
            forall|j: int|
                0 <= j < k ==> step_views((#[trigger] r@[j])@) == chunk(all, size as nat, j),
        decreases total - at,
    {
        proof {
            crate::sql::lemma_chunk_bounds(n, size as nat, k);
        }
        let end: usize = if total - at > size {
            at + size
        } else {
            total
        };
        assert(end == chunk_end(n, size as nat, k)) by {
            assert((k + 1) * size == k * size + size) by (nonlinear_arith);
        }
        let mut part: Vec<Step> = Vec::new();
        let mut i: usize = at;
        while i < end
            invariant
                at <= i <= end,
                end <= total,
                total == given.len(),
                rest@ == given.skip(i as int),
                part@ == given.subrange(at as int, i as int),
            decreases end - i,
        {
            let next = rest.remove(0);
            part.push(next);
            proof {
                assert(next == given[i as int]);
                assert(rest@ =~= given.skip(i + 1));
                assert(part@ =~= given.subrange(at as int, i + 1));
            }
            i += 1;
        }
        assert(step_views(part@) =~= chunk(all, size as nat, k));
        r.push(part);
        proof {
            k = k + 1;
            if end < n {
                assert(end == k * size);
            }
            crate::sql::lemma_count_reached(n, size as nat, k, end as int);
        }
        at = end;
    }
    assert(transaction_views(r@) =~= Seq::new(
        chunk_count(n, size as nat),
        |k: int| chunk(all, size as nat, k),
    ));
    r
}

pub open spec fn transaction_views(s: Seq<Vec<Step>>) -> Seq<Seq<StepView>> {
    Seq::new(s.len(), |i: int| step_views(s[i]@))
}

/// The number of times that a transaction is tried to be begun.
pub const BEGIN_ATTEMPTS: u32 = 100;

/// Twice as many for each further one.
pub open spec fn doubling(n: nat) -> nat {
    vstd::arithmetic::power2::pow2(n)
}

/// How long to wait at least, in milliseconds, after a number of attempts to begin.
pub open spec fn begin_base_delay(attempts: nat) -> nat {
    let shift = if attempts < 6 {
        attempts
    } else {
        6
    };
    if 10 * doubling(shift) <= 500 {
        10 * doubling(shift)
    } else {
        500
    }
}

/// What is done after an attempt to begin a transaction.
#[derive(Debug)]
pub enum BeginAction {
    Begun,
    /// Another attempt, after at least so many milliseconds.
    Retry(u64),
    Fail(Error),
}

fn power_of_two(n: u32) -> (r: u64)
    requires
        n < 60,
    ensures
        r == doubling(n as nat),
        1 <= r,
        r <= 0x0800_0000_0000_0000,
{
    let mut r: u64 = 1;
    let mut i: u32 = 0;
    proof {
        vstd::arithmetic::power2::lemma2_to64();
    }
    while i < n
        invariant
            i <= n,
            n < 60,
            r == doubling(i as nat),
            1 <= r,
            r <= 0x0800_0000_0000_0000,
        decreases n - i,
    {
        proof {
            vstd::arithmetic::power2::lemma_pow2_unfold((i + 1) as nat);
            vstd::arithmetic::power2::lemma2_to64();
            if i + 1 < 59 {
                vstd::arithmetic::power2::lemma_pow2_strictly_increases((i + 1) as nat, 59);
            }
            lemma_59();
        }
        r = r * 2;
        i += 1;
    }
    r
}

proof fn lemma_59()
    ensures
        vstd::arithmetic::power2::pow2(59) == 0x0800_0000_0000_0000,
{
    vstd::arithmetic::power2::lemma_pow2_adds(32, 27);
    vstd::arithmetic::power2::lemma2_to64();
    assert(0x1_0000_0000int * 0x0800_0000 == 0x0800_0000_0000_0000);
}

/// How long to wait at least, in milliseconds, after a number of attempts to begin.
pub fn base_delay(attempts: u32) -> (r: u64)
    ensures
        r == begin_base_delay(attempts as nat),
        10 <= r <= 500,
{
    let shift: u32 = if attempts < 6 {
        attempts
    } else {
        6
    };
    let factor = power_of_two(shift);
    proof {
        vstd::arithmetic::power2::lemma2_to64();
        if shift < 6 {
            vstd::arithmetic::power2::lemma_pow2_strictly_increases(shift as nat, 6);
        }
    }
    if 10 * factor <= 500 {
        10 * factor
    } else {
        500
    }
}

/// What follows an attempt to begin a transaction, after so many that failed.
pub open spec fn follows_begin(
    kind: Seq<char>,
    failed: int,
    outcome: Result<(), String>,
    r: BeginAction,
) -> bool {
    match r {
        BeginAction::Begun => outcome is Ok,
        BeginAction::Retry(delay) => outcome is Err && failed + 1 < BEGIN_ATTEMPTS && delay
            == begin_base_delay((failed + 1) as nat),
        BeginAction::Fail(e) => outcome is Err && failed + 1 == BEGIN_ATTEMPTS && e is Message
            && e.spec_message() == "Failed to begin "@ + kind + " transaction after "@ + nat_text(
            (failed + 1) as nat,
        ) + " attempts: "@ + outcome->Err_0@,
    }
}

/// What is done after an attempt to begin a transaction, where so many attempts failed before it:
/// up to the last one, it is tried again.
pub fn after_begin(kind: &str, failed: u32, outcome: Result<(), String>) -> (r: BeginAction)
    requires
        failed < BEGIN_ATTEMPTS,
    ensures
        follows_begin(kind@, failed as int, outcome, r),
{
    match outcome {
        Ok(_) => BeginAction::Begun,
        Err(e) => {
            let attempts: u32 = failed + 1;
            if attempts >= BEGIN_ATTEMPTS {
                let mut message = join("Failed to begin ", kind);
                message.append(" transaction after ");
                message.append(u64_text(attempts as u64).as_str());
                message.append(" attempts: ");
                message.append(e.as_str());
                BeginAction::Fail(Error::Message(message))
            } else {
                BeginAction::Retry(base_delay(attempts))
            }
        },
    }
}

/// `fastrand::u64` on the numbers below a limit: some number below the limit, by chance.
#[verifier::external_body]
fn random_below(limit: u64) -> (r: u64)
    requires
        limit > 0,
    ensures
        r < limit,
{
    fastrand::u64(0..limit)
}

/// How long to wait, in milliseconds: at least so long, and up to half as long again, by chance.
pub fn jittered(base: u64) -> (r: u64)
    requires
        2 <= base <= 500,
    ensures
        base <= r < base + base / 2,
{
    base + random_below(base / 2)
}

/// The ways of beginning a transaction, the best first.
#[derive(Debug, Clone, Copy, PartialEq, Eq, Structural)]
pub enum BeginMode {
    Concurrent,
    Immediate,
    Deferred,
}

impl BeginMode {
    pub open spec fn spec_sql(self) -> Seq<char> {
        match self {
            BeginMode::Concurrent => "BEGIN CONCURRENT"@,
            BeginMode::Immediate => "BEGIN IMMEDIATE"@,
            BeginMode::Deferred => "BEGIN"@,
        }
    }

    /// The statement that begins such a transaction.
    pub fn sql(self) -> (r: &'static str)
        ensures
            r@ == self.spec_sql(),
    {
        match self {
            BeginMode::Concurrent => "BEGIN CONCURRENT",
            BeginMode::Immediate => "BEGIN IMMEDIATE",
            BeginMode::Deferred => "BEGIN",
        }
    }

    pub open spec fn spec_fallback(self) -> Option<BeginMode> {
        match self {
            BeginMode::Concurrent => Some(BeginMode::Immediate),
            BeginMode::Immediate => Some(BeginMode::Deferred),
            BeginMode::Deferred => None,
        }
    }

    /// The way that is tried when this one has failed; when the last one has failed, the error.
    pub fn fallback(self, e: String) -> (r: Result<BeginMode, Error>)
        ensures
            match self.spec_fallback() {
                Some(mode) => r == Ok::<BeginMode, Error>(mode),
                None => r is Err && r->Err_0 is Message && r->Err_0.spec_message()
                    == "Failed to begin transaction: "@ + e@,
            },
    {
        match self {
            BeginMode::Concurrent => Ok(BeginMode::Immediate),
            BeginMode::Immediate => Ok(BeginMode::Deferred),
            BeginMode::Deferred => Err(
                Error::Message(join("Failed to begin transaction: ", e.as_str())),
            ),
        }
    }
}

/// What std makes of a text in lower case.
pub uninterp spec fn lowercase(text: Seq<char>) -> Seq<char>;

/// `str::to_lowercase` of std: the text in lower case, as Unicode has it, which is named.
#[verifier::external_body]
fn lower(text: &str) -> (r: String)
    ensures
        r@ == lowercase(text@),
{
    text.to_lowercase()
}

/// Where a lookup in the metadata went wrong.
#[derive(Debug, Clone, Copy, PartialEq, Eq, Structural)]
pub enum LookupStage {
    /// On connecting, for a subject by its id.
    ConnectForSubject,
    /// On connecting, for a subject by its name.
    ConnectForName,
    /// On connecting, for aspects.
    ConnectForAspect,
    /// On querying.
    Query,
}

/// The number of times that a lookup in the metadata is tried.
pub const LOOKUP_ATTEMPTS: u32 = 40;

/// Whether an error, in lower case, passes by itself.
pub open spec fn is_transient(stage: LookupStage, lowered: Seq<char>) -> bool {
    match stage {
        LookupStage::ConnectForAspect => occurs_in(lowered, "locked"@),
        LookupStage::ConnectForSubject => occurs_in(lowered, "locked"@) || occurs_in(
            lowered,
            "busy"@,
        ),
        _ => occurs_in(lowered, "locked"@) || occurs_in(lowered, "busy"@) || occurs_in(
            lowered,
            "conflict"@,
        ),
    }
}

/// How long to wait, in milliseconds, after a number of attempts at a lookup.
pub open spec fn lookup_delay(stage: LookupStage, attempts: nat) -> nat {
    match stage {
        LookupStage::ConnectForAspect | LookupStage::ConnectForSubject => 25 * attempts,
        _ => 25 * doubling(
            if attempts < 7 {
                attempts
            } else {
                7
            },
        ),
    }
}

pub open spec fn spec_lookup_retry(
    stage: LookupStage,
    attempts: u32,
    lowered: Seq<char>,
) -> Option<u64> {
    if attempts < LOOKUP_ATTEMPTS && is_transient(stage, lowered) {
        Some(lookup_delay(stage, attempts as nat) as u64)
    } else {
        None
    }
}

/// After how many milliseconds a lookup is tried again, if it is: the error, in lower case, passes
/// by itself, and attempts are left.
pub fn retry_by(stage: LookupStage, attempts: u32, lowered: &str) -> (r: Option<u64>)
    ensures
        r == spec_lookup_retry(stage, attempts, lowered@),
{
    if attempts >= LOOKUP_ATTEMPTS {
        return None;
    }
    let transient = match stage {
        LookupStage::ConnectForAspect => contains(lowered, "locked"),
        LookupStage::ConnectForSubject => contains(lowered, "locked") || contains(lowered, "busy"),
        _ => contains(lowered, "locked") || contains(lowered, "busy") || contains(
            lowered,
            "conflict",
        ),
    };
    if !transient {
        return None;
    }
    match stage {
        LookupStage::ConnectForAspect | LookupStage::ConnectForSubject => Some(
            25 * attempts as u64,
        ),
        _ => {
            let shift: u32 = if attempts < 7 {
                attempts
            } else {
                7
            };
            let factor = power_of_two(shift);
            proof {
                vstd::arithmetic::power2::lemma2_to64();
                if shift < 7 {
                    vstd::arithmetic::power2::lemma_pow2_strictly_increases(shift as nat, 7);
                }
            }
            Some(25 * factor)
        },
    }
}

/// After how many milliseconds a lookup that failed with an error is tried again, if it is.
pub fn lookup_retry(stage: LookupStage, attempts: u32, error: &str) -> (r: Option<u64>)
    ensures
        r == spec_lookup_retry(stage, attempts, lowercase(error@)),
{
    retry_by(stage, attempts, lower(error).as_str())
}

/// Whether an error, in lower case, tells that another program holds the file.
pub open spec fn is_held(lowered: Seq<char>) -> bool {
    occurs_in(lowered, "i/o error"@) || occurs_in(lowered, "unexpected end of file"@)
}

/// What follows a connection that could not be made: a wait in milliseconds, or nothing more, and
/// the error.
pub struct ConnectFailure {
    pub wait: Option<u64>,
    pub error: Error,
}

pub open spec fn spec_connect_wait(attempts: int, max_attempts: int, lowered: Seq<char>) -> Option<
    u64,
> {
    if attempts < max_attempts {
        Some(
            if is_held(lowered) {
                2000u64
            } else {
                200u64
            },
        )
    } else {
        None
    }
}

/// What follows a connection that could not be made, by its error and the error in lower case: up
/// to the last attempt a wait, longer where another program holds the file.
pub fn connect_failure_by(attempts: i32, max_attempts: i32, error: &str, lowered: &str) -> (r:
    ConnectFailure)
    ensures
        r.wait == spec_connect_wait(attempts as int, max_attempts as int, lowered@),
        attempts < max_attempts ==> r.error is Message && r.error.spec_message()
            == "Retry needed"@,
        attempts >= max_attempts ==> r.error is DatabaseError && r.error.spec_message()
            == "Database error: "@ + ("Failed to connect after "@ + crate::text::int_text(
            max_attempts as int,
        ) + " attempts: "@ + error@),
{
    if attempts < max_attempts {
        let wait: u64 = if contains(lowered, "i/o error") || contains(
            lowered,
            "unexpected end of file",
        ) {
            2000
        } else {
            200
        };
        ConnectFailure { wait: Some(wait), error: Error::Message("Retry needed".to_owned()) }
    } else {
        let mut message = join(
            "Failed to connect after ",
            crate::text::i64_text(max_attempts as i64).as_str(),
        );
        message.append(" attempts: ");
        message.append(error);
        ConnectFailure { wait: None, error: Error::DatabaseError(message) }
    }
}

/// What follows a connection that could not be made.
pub fn connect_failure(attempts: i32, max_attempts: i32, error: &str) -> (r: ConnectFailure)
    ensures
        r.wait == spec_connect_wait(attempts as int, max_attempts as int, lowercase(error@)),
        attempts < max_attempts ==> r.error is Message && r.error.spec_message()
            == "Retry needed"@,
        attempts >= max_attempts ==> r.error is DatabaseError && r.error.spec_message()
            == "Database error: "@ + ("Failed to connect after "@ + crate::text::int_text(
            max_attempts as int,
        ) + " attempts: "@ + error@),
{
    connect_failure_by(attempts, max_attempts, error, lower(error).as_str())
}

/// How opening a database file went.
#[derive(Debug, Clone, Copy, PartialEq, Eq, Structural)]
pub enum FileState {
    Accessible,
    /// The file is locked.
    Denied,
    /// The file could not be opened for another reason, such as that there is none.
    OtherError,
}

/// The number of times that a database file is looked at for being released.
pub const RELEASE_ATTEMPTS: u32 = 50;

/// How long to wait, in milliseconds, before a database file is looked at again.
pub const RELEASE_DELAY: u64 = 100;

pub open spec fn spec_release_wait(attempt: int, state: FileState) -> Option<u64> {
    if state == FileState::Denied && attempt + 1 < RELEASE_ATTEMPTS {
        Some(RELEASE_DELAY)
    } else {
        None
    }
}

/// Whether a database file is looked at again, after so many milliseconds: only while it is locked,
/// and while attempts are left.
pub fn release_wait(attempt: u32, state: FileState) -> (r: Option<u64>)
    requires
        attempt < RELEASE_ATTEMPTS,
    ensures
        r == spec_release_wait(attempt as int, state),
{
    if state == FileState::Denied && attempt + 1 < RELEASE_ATTEMPTS {
        Some(RELEASE_DELAY)
    } else {
        None
    }
}

/// The settings that a database for concurrent writes gets, in order.
pub fn concurrent_settings() -> (r: Vec<&'static str>)
    ensures
        r@ == spec_concurrent_settings(),
{
    let mut r: Vec<&'static str> = Vec::new();
    r.push("PRAGMA journal_mode=experimental_mvcc");
    r.push("PRAGMA busy_timeout=600000");
    r.push("PRAGMA synchronous=NORMAL");
    r.push("PRAGMA temp_store=memory");
    r.push("PRAGMA wal_autocheckpoint=1000");
    r.push("PRAGMA cache_size=-256000");
    assert(r@ =~= spec_concurrent_settings());
    r
}

/// The settings that a database gets where writes are only logged ahead, in order.
pub fn wal_settings() -> (r: Vec<&'static str>)
    ensures
        r@ == spec_wal_settings(),
{
    let mut r: Vec<&'static str> = Vec::new();
    r.push("PRAGMA journal_mode=WAL");
    r.push("PRAGMA busy_timeout=600000");
    r.push("PRAGMA synchronous=NORMAL");
    r.push("PRAGMA temp_store=memory");
    r.push("PRAGMA wal_autocheckpoint=1000");
    r.push("PRAGMA cache_size=-64000");
    assert(r@ =~= spec_wal_settings());
    r
}

pub open spec fn spec_wal_settings() -> Seq<&'static str> {
    seq![
        "PRAGMA journal_mode=WAL",
        "PRAGMA busy_timeout=600000",
        "PRAGMA synchronous=NORMAL",
        "PRAGMA temp_store=memory",
        "PRAGMA wal_autocheckpoint=1000",
        "PRAGMA cache_size=-64000",
    ]
}

/// The settings that a database gets when it is opened again, in order.
pub fn reopened_settings() -> (r: Vec<&'static str>)
    ensures
        r@ == spec_reopened_settings(),
{
    let mut r: Vec<&'static str> = Vec::new();
    r.push("PRAGMA journal_mode=WAL");
    r.push("PRAGMA busy_timeout = 30000");
    r.push("PRAGMA synchronous = NORMAL");
    assert(r@ =~= spec_reopened_settings());
    r
}

pub open spec fn spec_reopened_settings() -> Seq<&'static str> {
    seq![
        "PRAGMA journal_mode=WAL",
        "PRAGMA busy_timeout = 30000",
        "PRAGMA synchronous = NORMAL",
    ]
}

pub open spec fn spec_concurrent_settings() -> Seq<&'static str> {
    seq![
        "PRAGMA journal_mode=experimental_mvcc",
        "PRAGMA busy_timeout=600000",
        "PRAGMA synchronous=NORMAL",
        "PRAGMA temp_store=memory",
        "PRAGMA wal_autocheckpoint=1000",
        "PRAGMA cache_size=-256000",
    ]
}

}
