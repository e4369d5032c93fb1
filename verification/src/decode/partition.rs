//! Which operation each event of a transaction belongs to.
//!
//! The events of all operations stand in one list. An operation begins where a call is
//! reported that is not inside another call.

use vstd::prelude::*;

use crate::decode::xdr::{
    contract_event_models, diagnostic_models, optional_texts, ContractEventData,
    ContractEventModel, DiagnosticEventData, DiagnosticEventModel,
};
use crate::text::{is_word, optional_text, same_word};

verus! {

/// What an event reports.
#[derive(Debug, Clone, Copy, PartialEq, Eq)]
pub struct Mark {
    /// A call begins.
    pub is_call: bool,
    /// A call ends.
    pub is_return: bool,
}

/// Whether a topic reports that a call begins.
pub open spec fn call_topic(topic: Option<Seq<char>>) -> bool {
    match topic {
        Some(symbol) => is_word(symbol, "fn_call"@) || is_word(symbol, "function_call"@) || is_word(
            symbol,
            "call"@,
        ),
        None => false,
    }
}

/// Whether a topic reports that a call ends.
pub open spec fn return_topic(topic: Option<Seq<char>>) -> bool {
    match topic {
        Some(symbol) => is_word(symbol, "fn_return"@) || is_word(symbol, "function_return"@)
            || is_word(symbol, "return"@),
        None => false,
    }
}

/// What an event with the given topics reports.
pub open spec fn mark_of(topics: Seq<Option<Seq<char>>>) -> Mark {
    Mark {
        is_call: exists|i: int| 0 <= i < topics.len() && call_topic(#[trigger] topics[i]),
        is_return: exists|i: int| 0 <= i < topics.len() && return_topic(#[trigger] topics[i]),
    }
}

/// How many calls have begun and not ended, and how many operations have begun.
pub struct Walk {
    pub depth: nat,
    pub begun: nat,
}

/// Where a walk over events stands after all of them, of `operations` operations.
pub open spec fn walk(marks: Seq<Mark>, operations: nat) -> Walk
    decreases marks.len(),
{
    if marks.len() == 0 {
        Walk { depth: 0, begun: 0 }
    } else {
        let before = walk(marks.drop_last(), operations);
        let mark = marks.last();
        let inside = before.depth + if mark.is_call {
            1nat
        } else {
            0
        };
        Walk {
            depth: if mark.is_return && inside > 0 {
                (inside - 1) as nat
            } else {
                inside
            },
            begun: if mark.is_call && before.depth == 0 && before.begun < operations {
                before.begun + 1
            } else {
                before.begun
            },
        }
    }
}

/// The events of one operation, in order.
pub open spec fn events_of<E>(
    events: Seq<E>,
    marks: Seq<Mark>,
    operations: nat,
    operation: int,
) -> Seq<E>
    decreases events.len(),
{
    if events.len() == 0 {
        Seq::empty()
    } else {
        let earlier = events_of(events.drop_last(), marks.drop_last(), operations, operation);
        if walk(marks, operations).begun == operation + 1 {
            earlier.push(events.last())
        } else {
            earlier
        }
    }
}

/// The events of each operation. Where there is one operation, or none, it has all of
/// them; otherwise what comes before the first call belongs to no operation.
pub open spec fn shares<E>(events: Seq<E>, marks: Seq<Mark>, operations: nat) -> Seq<Seq<E>> {
    if operations <= 1 || events.len() == 0 {
        seq![events]
    } else {
        Seq::new(operations, |operation: int| events_of(events, marks, operations, operation))
    }
}

/// What each of several diagnostic events reports.
pub open spec fn diagnostic_marks(events: Seq<DiagnosticEventModel>) -> Seq<Mark> {
    Seq::new(events.len(), |i: int| mark_of(events[i].topics))
}

/// What each of several contract events reports.
pub open spec fn contract_marks(events: Seq<ContractEventModel>) -> Seq<Mark> {
    Seq::new(events.len(), |i: int| mark_of(events[i].topics))
}

/// The contents of several shares.
pub open spec fn share_views<E>(partitions: Seq<Vec<E>>) -> Seq<Seq<E>> {
    Seq::new(partitions.len(), |i: int| partitions[i]@)
}

/// Whether a topic reports that a call begins.
fn is_call_topic(topic: &Option<String>) -> (is: bool)
    ensures
        is == call_topic(optional_text(*topic)),
{
    match topic {
        Some(symbol) => same_word(symbol.as_str(), "fn_call") || same_word(
            symbol.as_str(),
            "function_call",
        ) || same_word(symbol.as_str(), "call"),
        None => false,
    }
}

/// Whether a topic reports that a call ends.
fn is_return_topic(topic: &Option<String>) -> (is: bool)
    ensures
        is == return_topic(optional_text(*topic)),
{
    match topic {
        Some(symbol) => same_word(symbol.as_str(), "fn_return") || same_word(
            symbol.as_str(),
            "function_return",
        ) || same_word(symbol.as_str(), "return"),
        None => false,
    }
}

/// What an event with the given topics reports.
pub fn mark_topics(topics: &Vec<Option<String>>) -> (mark: Mark)
    ensures
        mark == mark_of(optional_texts(topics@)),
{
    let ghost models = optional_texts(topics@);
    let mut is_call = false;
    let mut is_return = false;
    let mut i: usize = 0;
    while i < topics.len()
        invariant
            i <= topics@.len(),
            models == optional_texts(topics@),
            is_call == exists|j: int| 0 <= j < i && call_topic(#[trigger] models[j]),
            is_return == exists|j: int| 0 <= j < i && return_topic(#[trigger] models[j]),
        decreases topics@.len() - i,
    {
        assert(models[i as int] == optional_text(topics@[i as int]));
        if is_call_topic(&topics[i]) {
            is_call = true;
        }
        if is_return_topic(&topics[i]) {
            is_return = true;
        }
        i += 1;
    }
    Mark { is_call, is_return }
}

/// Hands each event to the operation that it belongs to.
pub fn partition<E>(events: Vec<E>, marks: &Vec<Mark>, num_operations: usize) -> (partitions: Vec<
    Vec<E>,
>)
    requires
        marks@.len() == events@.len(),
    ensures
        share_views(partitions@) == shares(events@, marks@, num_operations as nat),
{
    let mut partitions: Vec<Vec<E>> = Vec::new();
    if num_operations <= 1 || events.len() == 0 {
        partitions.push(events);
        assert(share_views(partitions@) =~= seq![events@]);
        return partitions;
    }
    let mut filled: usize = 0;
    while filled < num_operations
        invariant
            filled <= num_operations,
            partitions@.len() == filled,
            forall|k: int| 0 <= k < filled ==> (#[trigger] partitions@[k])@ =~= Seq::empty(),
        decreases num_operations - filled,
    {
        partitions.push(Vec::new());
        filled += 1;
    }
    let mut depth: usize = 0;
    let mut current_op: usize = 0;
    let mut at: usize = 0;
    let ghost operations = num_operations as nat;
    assert(events.len() == events@.len());
    for event in items: events
        invariant
            items.seq() == events@,
            at == items.index(),
            events@.len() <= usize::MAX,
            marks@.len() == events@.len(),
            partitions@.len() == num_operations,
            operations == num_operations,
            depth == walk(marks@.take(at as int), operations).depth,
            current_op == walk(marks@.take(at as int), operations).begun,
            depth <= at,
            current_op <= num_operations,
            forall|k: int|
                0 <= k < num_operations ==> (#[trigger] partitions@[k])@ == events_of(
                    events@.take(at as int),
                    marks@.take(at as int),
                    operations,
                    k,
                ),
    {
        let mark = marks[at];
        proof {
            let next = marks@.take(at + 1);
            assert(next.drop_last() =~= marks@.take(at as int));
            assert(next.last() == mark);
            assert(events@.take(at + 1).drop_last() =~= events@.take(at as int));
            assert(events@.take(at + 1).last() == event);
        }
        if mark.is_call {
            if depth == 0 && current_op < num_operations {
                current_op += 1;
            }
            depth += 1;
        }
        if current_op > 0 {
            partitions[current_op - 1].push(event);
        }
        if mark.is_return {
            depth = depth.saturating_sub(1);
        }
        at += 1;
    }
    assert(events@.take(events@.len() as int) =~= events@);
    assert(marks@.take(marks@.len() as int) =~= marks@);
    assert(share_views(partitions@) =~= shares(events@, marks@, operations));
    partitions
}

/// Hands each diagnostic event to the operation that it belongs to.
pub fn partition_events_by_operation(
    diagnostic_events: Vec<DiagnosticEventData>,
    num_operations: usize,
) -> (partitions: Vec<Vec<DiagnosticEventData>>)
    ensures
        share_views(partitions@) == shares(
            diagnostic_events@,
            diagnostic_marks(diagnostic_models(diagnostic_events@)),
            num_operations as nat,
        ),
{
    let mut marks: Vec<Mark> = Vec::new();
    let mut i: usize = 0;
    while i < diagnostic_events.len()
        invariant
            i <= diagnostic_events@.len(),
            marks@.len() == i,
            forall|j: int|
                0 <= j < i ==> #[trigger] marks@[j] == mark_of(diagnostic_events@[j]@.topics),
        decreases diagnostic_events@.len() - i,
    {
        marks.push(mark_topics(&diagnostic_events[i].topics));
        i += 1;
    }
    assert(marks@ =~= diagnostic_marks(diagnostic_models(diagnostic_events@)));
    partition(diagnostic_events, &marks, num_operations)
}

/// Hands each contract event to the operation that it belongs to.
pub fn partition_contract_events_by_operation(
    contract_events: Vec<ContractEventData>,
    num_operations: usize,
) -> (partitions: Vec<Vec<ContractEventData>>)
    ensures
        share_views(partitions@) == shares(
            contract_events@,
            contract_marks(contract_event_models(contract_events@)),
            num_operations as nat,
        ),
{
    let mut marks: Vec<Mark> = Vec::new();
    let mut i: usize = 0;
    while i < contract_events.len()
        invariant
            i <= contract_events@.len(),
            marks@.len() == i,
            forall|j: int|
                0 <= j < i ==> #[trigger] marks@[j] == mark_of(contract_events@[j]@.topics),
        decreases contract_events@.len() - i,
    {
        marks.push(mark_topics(&contract_events[i].topics));
        i += 1;
    }
    assert(marks@ =~= contract_marks(contract_event_models(contract_events@)));
    partition(contract_events, &marks, num_operations)
}

/// What belongs to an operation does not depend on what the events are.
pub proof fn events_of_mapped<E, M>(
    events: Seq<E>,
    model: spec_fn(E) -> M,
    marks: Seq<Mark>,
    operations: nat,
    operation: int,
)
    requires
        marks.len() == events.len(),
    ensures
        events_of(events, marks, operations, operation).map_values(model) == events_of(
            events.map_values(model),
            marks,
            operations,
            operation,
        ),
    decreases events.len(),
{
    let mapped = events.map_values(model);
    if events.len() > 0 {
        events_of_mapped(
            events.drop_last(),
            model,
            marks.drop_last(),
            operations,
            operation,
        );
        assert(mapped.drop_last() =~= events.drop_last().map_values(model));
    }
    assert(events_of(events, marks, operations, operation).map_values(model) =~= events_of(
        mapped,
        marks,
        operations,
        operation,
    ));
}

/// Several sequences one after the other.
pub open spec fn concatenation<E>(parts: Seq<Seq<E>>) -> Seq<E>
    decreases parts.len(),
{
    if parts.len() == 0 {
        Seq::empty()
    } else {
        concatenation(parts.drop_last()) + parts.last()
    }
}

/// Where the first call is reported, or the number of events where none is.
pub open spec fn first_call(marks: Seq<Mark>) -> nat
    decreases marks.len(),
{
    if marks.len() == 0 {
        0
    } else if first_call(marks.drop_last()) < marks.len() - 1 {
        first_call(marks.drop_last())
    } else if marks.last().is_call {
        (marks.len() - 1) as nat
    } else {
        marks.len()
    }
}

/// The shares of the first `count` operations.
spec fn first_shares<E>(
    events: Seq<E>,
    marks: Seq<Mark>,
    operations: nat,
    count: nat,
) -> Seq<Seq<E>> {
    Seq::new(count, |operation: int| events_of(events, marks, operations, operation))
}

/// An operation has begun exactly when a call was reported, and no more have begun than
/// there are.
proof fn begun_with_first_call(marks: Seq<Mark>, operations: nat)
    requires
        operations > 0,
    ensures
        walk(marks, operations).begun > 0 <==> first_call(marks) < marks.len(),
        walk(marks, operations).begun == 0 ==> walk(marks, operations).depth == 0,
        walk(marks, operations).begun <= operations,
        first_call(marks) <= marks.len(),
    decreases marks.len(),
{
    if marks.len() > 0 {
        begun_with_first_call(marks.drop_last(), operations);
    }
}

/// An operation that has not begun has no events.
pub(crate) proof fn not_begun_has_no_events<E>(
    events: Seq<E>,
    marks: Seq<Mark>,
    operations: nat,
    operation: int,
)
    requires
        events.len() == marks.len(),
        walk(marks, operations).begun <= operation,
    ensures
        events_of(events, marks, operations, operation) == Seq::<E>::empty(),
    decreases events.len(),
{
    if events.len() > 0 {
        not_begun_has_no_events(events.drop_last(), marks.drop_last(), operations, operation);
    }
}

/// The last event comes last in the shares put one after the other.
proof fn last_event_comes_last<E>(events: Seq<E>, marks: Seq<Mark>, operations: nat, count: nat)
    requires
        events.len() == marks.len(),
        events.len() > 0,
    ensures
        ({
            let begun = walk(marks, operations).begun;
            let now = concatenation(first_shares(events, marks, operations, count));
            let before = concatenation(
                first_shares(events.drop_last(), marks.drop_last(), operations, count),
            );
            now == if 0 < begun <= count {
                before.push(events.last())
            } else {
                before
            }
        }),
    decreases count,
{
    let now = first_shares(events, marks, operations, count);
    let before = first_shares(events.drop_last(), marks.drop_last(), operations, count);
    let begun = walk(marks, operations).begun;
    if count > 0 {
        let rest = (count - 1) as nat;
        last_event_comes_last(events, marks, operations, rest);
        assert(now.drop_last() =~= first_shares(events, marks, operations, rest));
        assert(before.drop_last() =~= first_shares(
            events.drop_last(),
            marks.drop_last(),
            operations,
            rest,
        ));
        if begun <= rest {
            not_begun_has_no_events(events, marks, operations, rest as int);
            not_begun_has_no_events(
                events.drop_last(),
                marks.drop_last(),
                operations,
                rest as int,
            );
            assert(concatenation(now) =~= concatenation(now.drop_last()));
            assert(concatenation(before) =~= concatenation(before.drop_last()));
        } else if begun == count {
            assert(concatenation(now) =~= concatenation(before).push(events.last()));
        }
    }
}

/// The shares put one after the other are the events from the first call on: every event
/// from there on belongs to one operation, and the order is kept.
pub proof fn shares_are_the_events_from_the_first_call<E>(
    events: Seq<E>,
    marks: Seq<Mark>,
    operations: nat,
)
    requires
        marks.len() == events.len(),
        operations > 1,
        events.len() > 0,
    ensures
        shares(events, marks, operations).len() == operations,
        concatenation(shares(events, marks, operations)) == events.skip(first_call(marks) as int),
{
    shares_follow_the_events(events, marks, operations);
    assert(shares(events, marks, operations) =~= first_shares(
        events,
        marks,
        operations,
        operations,
    ));
}

/// The same, also where there are no events.
proof fn shares_follow_the_events<E>(events: Seq<E>, marks: Seq<Mark>, operations: nat)
    requires
        marks.len() == events.len(),
        operations > 1,
    ensures
        first_call(marks) <= events.len(),
        concatenation(first_shares(events, marks, operations, operations)) == events.skip(
            first_call(marks) as int,
        ),
    decreases events.len(),
{
    begun_with_first_call(marks, operations);
    if events.len() == 0 {
        no_events_no_shares(events, marks, operations, operations);
        assert(events.skip(0) =~= Seq::empty());
    } else {
        shares_follow_the_events(events.drop_last(), marks.drop_last(), operations);
        last_event_comes_last(events, marks, operations, operations);
        begun_with_first_call(marks.drop_last(), operations);
        let from = first_call(marks) as int;
        if from < events.len() {
            assert(events.skip(from) =~= events.drop_last().skip(
                first_call(marks.drop_last()) as int,
            ).push(events.last()));
        } else {
            assert(events.skip(from) =~= events.drop_last().skip(
                first_call(marks.drop_last()) as int,
            ));
        }
    }
}

/// Without events, every share is empty.
proof fn no_events_no_shares<E>(events: Seq<E>, marks: Seq<Mark>, operations: nat, count: nat)
    requires
        events.len() == 0,
    ensures
        concatenation(first_shares(events, marks, operations, count)) == Seq::<E>::empty(),
    decreases count,
{
    let now = first_shares(events, marks, operations, count);
    if count > 0 {
        let rest = (count - 1) as nat;
        no_events_no_shares(events, marks, operations, rest);
        assert(now.drop_last() =~= first_shares(events, marks, operations, rest));
        assert(concatenation(now) =~= Seq::empty());
    }
}

/// The first call is where it is said to be: that event reports a call and none before
/// it does.
pub proof fn first_call_is_the_first(marks: Seq<Mark>)
    ensures
        first_call(marks) <= marks.len(),
        first_call(marks) < marks.len() ==> marks[first_call(marks) as int].is_call,
        forall|i: int| 0 <= i < first_call(marks) ==> !(#[trigger] marks[i]).is_call,
    decreases marks.len(),
{
    if marks.len() > 0 {
        first_call_is_the_first(marks.drop_last());
        assert(forall|i: int|
            0 <= i < marks.len() - 1 ==> #[trigger] marks[i] == marks.drop_last()[i]);
    }
}

/// The events of an operation begin with a call.
pub proof fn share_begins_with_a_call(marks: Seq<Mark>, operations: nat, operation: int)
    requires
        0 <= operation < operations,
    ensures
        events_of(marks, marks, operations, operation).len() > 0 ==> events_of(
            marks,
            marks,
            operations,
            operation,
        )[0].is_call,
    decreases marks.len(),
{
    if marks.len() > 0 {
        let earlier = marks.drop_last();
        share_begins_with_a_call(earlier, operations, operation);
        if walk(earlier, operations).begun == operation + 1 {
            begun_has_events(earlier, operations);
        }
    }
}

/// The operation that began last has an event.
proof fn begun_has_events(marks: Seq<Mark>, operations: nat)
    requires
        walk(marks, operations).begun > 0,
    ensures
        events_of(marks, marks, operations, walk(marks, operations).begun - 1).len() > 0,
{
}

} // verus!
