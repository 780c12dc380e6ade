//! How the schema of a table is looked up.
//!
//! A lookup prepares a statement, opens its result, whose columns are the
//! schema, and reads the result to its end before it hands the schema out, so
//! that the session goes back to the pool clean. The lookup says what to do
//! next; whoever drives it does it and says what came of it.

use crate::conn::{is_undefined_table, schema_sql, Error, QueryFailure};
#[allow(unused_imports)]
use crate::conn::{means_undefined_table, schema_statement};
use crate::table_reference::TableReference;
#[allow(unused_imports)]
use crate::table_reference::dotted;
use vstd::prelude::*;

verus! {

/// How far a lookup has come.
#[derive(Debug, Clone, Copy, PartialEq, Eq)]
pub enum Step {
    /// The statement is being prepared.
    Preparing,
    /// The result is being opened.
    Opening,
    /// The result is being read to its end.
    Draining,
    /// The schema, or a failure, has been handed out.
    Finished,
}

/// What came of the last action.
#[derive(Debug, PartialEq, Eq)]
pub enum Event {
    /// The statement was prepared.
    Prepared,
    /// The statement could not be prepared.
    PrepareFailed(QueryFailure),
    /// The result was opened, and its schema is known.
    Opened,
    /// The result could not be opened.
    OpenFailed(QueryFailure),
    /// A part of the result was read.
    BatchRead,
    /// A part of the result could not be read.
    BatchFailed(QueryFailure),
    /// The result has no further part.
    Exhausted,
}

/// What to do next.
#[derive(Debug, PartialEq, Eq)]
pub enum Action {
    /// Open the result of the prepared statement.
    OpenResult,
    /// Read the next part of the result.
    ReadBatch,
    /// Hand out the schema of the opened result.
    ReturnSchema,
    /// Give up, with this error.
    Fail(Error),
}

/// Whether the event can come of what is done in that step.
pub open spec fn is_expected(step: Step, event: Event) -> bool {
    match event {
        Event::Prepared | Event::PrepareFailed(_) => step == Step::Preparing,
        Event::Opened | Event::OpenFailed(_) => step == Step::Opening,
        Event::BatchRead | Event::BatchFailed(_) | Event::Exhausted => step == Step::Draining,
    }
}

/// The step after an event.
pub open spec fn step_after(event: Event) -> Step {
    match event {
        Event::Prepared => Step::Opening,
        Event::Opened | Event::BatchRead => Step::Draining,
        _ => Step::Finished,
    }
}

/// Whether `error` is what a failure to prepare the statement for `table` gives:
/// the table is undefined where the server says that it does not exist, and else
/// its schema could not be read.
pub open spec fn is_prepare_error(
    table: Seq<Seq<char>>,
    failure: QueryFailure,
    error: Error,
) -> bool {
    if means_undefined_table(failure) {
        error matches Error::UndefinedTable { table_name, source } && table_name@ == dotted(table)
            && source == failure
    } else {
        error == Error::UnableToGetSchema { source: failure }
    }
}

/// Whether `action` is what follows the event in the lookup of `table`.
pub open spec fn is_action_after(table: Seq<Seq<char>>, event: Event, action: Action) -> bool {
    match event {
        Event::Prepared => action == Action::OpenResult,
        Event::PrepareFailed(failure) => action matches Action::Fail(error) && is_prepare_error(
            table,
            failure,
            error,
        ),
        Event::Opened | Event::BatchRead => action == Action::ReadBatch,
        Event::OpenFailed(failure) | Event::BatchFailed(failure) => action == Action::Fail(
            Error::UnableToGetSchema { source: failure },
        ),
        Event::Exhausted => action == Action::ReturnSchema,
    }
}

/// The lookup of one table's schema.
pub struct SchemaLookup {
    table: TableReference,
    step: Step,
}

impl SchemaLookup {
    /// The parts of the table's reference.
    pub closed spec fn spec_table(&self) -> Seq<Seq<char>> {
        self.table@
    }

    /// How far the lookup has come.
    pub closed spec fn spec_step(&self) -> Step {
        self.step
    }

    /// Begins the lookup of `table`.
    pub fn new(table: TableReference) -> (lookup: Self)
        ensures
            lookup.spec_table() == table@,
            lookup.spec_step() == Step::Preparing,
    {
        SchemaLookup { table, step: Step::Preparing }
    }

    /// The statement to prepare.
    pub fn sql(&self) -> (sql: String)
        ensures
            sql@ == schema_statement(self.spec_table()),
    {
        schema_sql(&self.table)
    }

    /// How far the lookup has come.
    pub fn step(&self) -> (step: Step)
        ensures
            step == self.spec_step(),
    {
        self.step
    }

    /// Takes what came of the last action, and says what to do next.
    pub fn advance(&mut self, event: Event) -> (action: Action)
        requires
            is_expected(old(self).spec_step(), event),
        ensures
            final(self).spec_table() == old(self).spec_table(),
            final(self).spec_step() == step_after(event),
            is_action_after(old(self).spec_table(), event, action),
    {
        match event {
            Event::Prepared => {
                self.step = Step::Opening;
                Action::OpenResult
            },
            Event::PrepareFailed(failure) => {
                self.step = Step::Finished;
                if is_undefined_table(&failure) {
                    Action::Fail(
                        Error::UndefinedTable { table_name: self.table.to_text(), source: failure },
                    )
                } else {
                    Action::Fail(Error::UnableToGetSchema { source: failure })
                }
            },
            Event::Opened | Event::BatchRead => {
                self.step = Step::Draining;
                Action::ReadBatch
            },
            Event::OpenFailed(failure) | Event::BatchFailed(failure) => {
                self.step = Step::Finished;
                Action::Fail(Error::UnableToGetSchema { source: failure })
            },
            Event::Exhausted => {
                self.step = Step::Finished;
                Action::ReturnSchema
            },
        }
    }
}

/// Whether the events can come one after the other in one lookup.
pub open spec fn is_history(events: Seq<Event>) -> bool
    decreases events.len(),
{
    events.len() > 0 ==> is_history(events.drop_last()) && is_expected(
        step_in(events.drop_last()),
        events.last(),
    )
}

/// How far a lookup has come after the events.
pub open spec fn step_in(events: Seq<Event>) -> Step {
    if events.len() == 0 {
        Step::Preparing
    } else {
        step_after(events.last())
    }
}

/// The schema is handed out only after the statement was prepared, its result
/// opened and every part of it read.
pub proof fn law_schema_comes_after_the_whole_result(
    table: Seq<Seq<char>>,
    events: Seq<Event>,
    action: Action,
)
    requires
        events.len() > 0,
        is_history(events),
        is_action_after(table, events.last(), action),
        action == Action::ReturnSchema,
    ensures
        events.len() >= 3,
        events[0] == Event::Prepared,
        events[1] == Event::Opened,
        forall|i: int| 2 <= i < events.len() - 1 ==> #[trigger] events[i] == Event::BatchRead,
        events.last() == Event::Exhausted,
{
    let earlier = events.drop_last();
    lemma_draining_history(earlier);
    assert forall|i: int| 2 <= i < events.len() - 1 implies #[trigger] events[i]
        == Event::BatchRead by {
        assert(earlier[i] == Event::BatchRead);
    }
}

proof fn lemma_draining_history(events: Seq<Event>)
    requires
        is_history(events),
        step_in(events) == Step::Draining,
    ensures
        events.len() >= 2,
        events[0] == Event::Prepared,
        events[1] == Event::Opened,
        forall|i: int| 2 <= i < events.len() ==> #[trigger] events[i] == Event::BatchRead,
    decreases events.len(),
{
    let earlier = events.drop_last();
    if events.last() == Event::BatchRead {
        lemma_draining_history(earlier);
        assert forall|i: int| 2 <= i < events.len() implies #[trigger] events[i]
            == Event::BatchRead by {
            if i < earlier.len() {
                assert(earlier[i] == Event::BatchRead);
            }
        }
    } else {
        assert(events.last() == Event::Opened);
        assert(step_in(earlier) == Step::Opening);
        assert(earlier.last() == Event::Prepared);
        assert(is_history(earlier));
        assert(step_in(earlier.drop_last()) == Step::Preparing);
        assert(earlier.drop_last().len() == 0) by {
            if earlier.drop_last().len() > 0 {
                assert(step_after(earlier.drop_last().last()) != Step::Preparing);
            }
        }
    }
}

/// A lookup whose result can be read to its end always hands out the schema.
pub proof fn law_readable_result_gives_the_schema(table: Seq<Seq<char>>, batches: nat)
    ensures
        ({
            let events = seq![Event::Prepared, Event::Opened] + Seq::new(
                batches,
                |i: int| Event::BatchRead,
            ).push(Event::Exhausted);
            &&& is_history(events)
            &&& is_action_after(table, events.last(), Action::ReturnSchema)
        }),
{
    let read = seq![Event::Prepared, Event::Opened] + Seq::new(batches, |i: int| Event::BatchRead);
    let events = seq![Event::Prepared, Event::Opened] + Seq::new(
        batches,
        |i: int| Event::BatchRead,
    ).push(Event::Exhausted);
    assert(events.drop_last() == read);
    lemma_reading_history(batches);
}

proof fn lemma_reading_history(batches: nat)
    ensures
        ({
            let read = seq![Event::Prepared, Event::Opened] + Seq::new(
                batches,
                |i: int| Event::BatchRead,
            );
            is_history(read) && step_in(read) == Step::Draining
        }),
    decreases batches,
{
    let read = seq![Event::Prepared, Event::Opened] + Seq::new(batches, |i: int| Event::BatchRead);
    if batches == 0 {
        assert(read == seq![Event::Prepared, Event::Opened]);
        assert(read.drop_last() == seq![Event::Prepared]);
        assert(seq![Event::Prepared].drop_last() == Seq::<Event>::empty());
        assert(is_history(Seq::<Event>::empty()));
        assert(is_history(seq![Event::Prepared]));
    } else {
        lemma_reading_history((batches - 1) as nat);
        assert(read.drop_last() == seq![Event::Prepared, Event::Opened] + Seq::new(
            (batches - 1) as nat,
            |i: int| Event::BatchRead,
        ));
    }
}

/// After a failure, or after the schema was handed out, nothing more is expected.
pub proof fn law_outcome_ends_the_lookup(
    table: Seq<Seq<char>>,
    event: Event,
    action: Action,
    next: Event,
)
    requires
        is_action_after(table, event, action),
        action is Fail || action is ReturnSchema,
    ensures
        step_after(event) == Step::Finished,
        !is_expected(step_after(event), next),
{
}

/// A table is reported as undefined only where the server refused to prepare the
/// statement with a message that says so.
pub proof fn law_undefined_table_is_the_servers_word(
    table: Seq<Seq<char>>,
    event: Event,
    action: Action,
)
    requires
        is_action_after(table, event, action),
        action matches Action::Fail(error) && error is UndefinedTable,
    ensures
        event matches Event::PrepareFailed(failure) && means_undefined_table(failure),
{
}

/// A table that the server says does not exist is reported as undefined, under its
/// own name, whatever that name is and however it is qualified.
pub proof fn law_missing_table_is_reported(
    table: Seq<Seq<char>>,
    failure: QueryFailure,
    action: Action,
)
    requires
        means_undefined_table(failure),
        is_action_after(table, Event::PrepareFailed(failure), action),
    ensures
        action is Fail,
        action->Fail_0 is UndefinedTable,
        action->Fail_0->UndefinedTable_table_name@ == dotted(table),
        action->Fail_0->UndefinedTable_source == failure,
{
}

/// A failure that does not mean a missing table, or that comes after the statement
/// was prepared, is passed on as the reason why there is no schema.
pub proof fn law_other_failures_are_passed_on(
    table: Seq<Seq<char>>,
    event: Event,
    failure: QueryFailure,
    action: Action,
)
    requires
        is_action_after(table, event, action),
        event == Event::OpenFailed(failure) || event == Event::BatchFailed(failure) || (event
            == Event::PrepareFailed(failure) && !means_undefined_table(failure)),
    ensures
        action == Action::Fail(Error::UnableToGetSchema { source: failure }),
{
}

/// What succeeds leads on: a prepared statement is opened, an opened result and
/// every part of it are followed by the next part, and the end by the schema.
pub proof fn law_success_leads_on(table: Seq<Seq<char>>, action: Action)
    ensures
        is_action_after(table, Event::Prepared, action) <==> action == Action::OpenResult,
        is_action_after(table, Event::Opened, action) <==> action == Action::ReadBatch,
        is_action_after(table, Event::BatchRead, action) <==> action == Action::ReadBatch,
        is_action_after(table, Event::Exhausted, action) <==> action == Action::ReturnSchema,
{
}

/// What an action can come to is what the lookup expects next, and nothing else.
pub proof fn law_outcome_of_the_action_is_expected(
    table: Seq<Seq<char>>,
    event: Event,
    action: Action,
    next: Event,
)
    requires
        is_action_after(table, event, action),
    ensures
        is_expected(Step::Preparing, next) <==> next is Prepared || next is PrepareFailed,
        action is OpenResult ==> (is_expected(step_after(event), next) <==> next is Opened
            || next is OpenFailed),
        action is ReadBatch ==> (is_expected(step_after(event), next) <==> next is BatchRead
            || next is BatchFailed || next is Exhausted),
        action is ReturnSchema || action is Fail ==> !is_expected(step_after(event), next),
{
}

} // verus!
