//! What holds of the events that operations are handed.
//!
//! Calls and returns are counted here, without regard to how the events are walked.

use vstd::prelude::*;

use crate::decode::partition::{
    call_topic, contract_marks, diagnostic_marks, events_of, mark_of, not_begun_has_no_events,
    return_topic, share_views, shares, walk, Mark,
};
use crate::decode::xdr::{ContractEventModel, DiagnosticEventModel};
use crate::text::is_word;

verus! {

/// How many of the events report that a call begins.
pub open spec fn calls_in(marks: Seq<Mark>) -> nat
    decreases marks.len(),
{
    if marks.len() == 0 {
        0
    } else {
        calls_in(marks.drop_last()) + if marks.last().is_call {
            1nat
        } else {
            0
        }
    }
}

/// How many of the events report that a call ends.
pub open spec fn returns_in(marks: Seq<Mark>) -> nat
    decreases marks.len(),
{
    if marks.len() == 0 {
        0
    } else {
        returns_in(marks.drop_last()) + if marks.last().is_return {
            1nat
        } else {
            0
        }
    }
}

/// Whether no call ends that has not begun.
pub open spec fn well_nested(marks: Seq<Mark>) -> bool {
    forall|n: int|
        0 <= n <= marks.len() ==> returns_in(#[trigger] marks.take(n)) <= calls_in(marks.take(n))
}

/// Whether the calls are well nested and each has ended.
pub open spec fn balanced(marks: Seq<Mark>) -> bool {
    well_nested(marks) && calls_in(marks) == returns_in(marks)
}

/// Whether the events run from a call to the return of that call.
pub open spec fn is_run(marks: Seq<Mark>) -> bool {
    &&& marks.len() > 0
    &&& marks[0].is_call
    &&& calls_in(marks) == returns_in(marks)
    &&& forall|n: int|
        0 < n < marks.len() ==> returns_in(#[trigger] marks.take(n)) < calls_in(marks.take(n))
}

/// How many calls begin while every earlier call has ended.
pub open spec fn outermost_calls(marks: Seq<Mark>) -> nat
    decreases marks.len(),
{
    if marks.len() == 0 {
        0
    } else {
        let earlier = marks.drop_last();
        outermost_calls(earlier) + if marks.last().is_call && calls_in(earlier) == returns_in(
            earlier,
        ) {
            1nat
        } else {
            0
        }
    }
}

/// The elements at the places that are wanted, in order.
pub open spec fn picked<E>(elements: Seq<E>, wanted: spec_fn(int) -> bool) -> Seq<E>
    decreases elements.len(),
{
    if elements.len() == 0 {
        Seq::empty()
    } else if wanted(elements.len() - 1) {
        picked(elements.drop_last(), wanted).push(elements.last())
    } else {
        picked(elements.drop_last(), wanted)
    }
}

/// The lesser of two numbers.
pub open spec fn at_most(n: nat, limit: nat) -> nat {
    if n < limit {
        n
    } else {
        limit
    }
}

/// What is true of every start of a sequence is true of every start of its start.
proof fn start_is_well_nested(marks: Seq<Mark>, length: int)
    requires
        well_nested(marks),
        0 <= length <= marks.len(),
    ensures
        well_nested(marks.take(length)),
{
    let start = marks.take(length);
    assert forall|n: int| 0 <= n <= start.len() implies returns_in(#[trigger] start.take(n))
        <= calls_in(start.take(n)) by {
        assert(start.take(n) =~= marks.take(n));
    }
}

/// The walk counts what is open and what has begun.
proof fn walk_counts(marks: Seq<Mark>, operations: nat)
    requires
        well_nested(marks),
    ensures
        walk(marks, operations).depth == calls_in(marks) - returns_in(marks),
        walk(marks, operations).begun == at_most(outermost_calls(marks), operations),
    decreases marks.len(),
{
    assert(marks.take(marks.len() as int) =~= marks);
    if marks.len() > 0 {
        start_is_well_nested(marks, marks.len() - 1);
        assert(marks.take(marks.len() - 1) =~= marks.drop_last());
        walk_counts(marks.drop_last(), operations);
    }
}

/// An event of well nested calls belongs to the operation whose outermost call began
/// last, and calls inside a call begin no operation. Calls beyond the last operation
/// stay with it; what comes before the first call belongs to no operation.
pub proof fn events_belong_to_the_outermost_call<E>(
    events: Seq<E>,
    marks: Seq<Mark>,
    operations: nat,
    operation: int,
)
    requires
        marks.len() == events.len(),
        events.len() > 0,
        operations > 1,
        0 <= operation < operations,
        well_nested(marks),
    ensures
        shares(events, marks, operations).len() == operations,
        shares(events, marks, operations)[operation] == picked(
            events,
            |j: int| at_most(outermost_calls(marks.take(j + 1)), operations) == operation + 1,
        ),
{
    assert(marks.take(marks.len() as int) =~= marks);
    events_are_picked(events, marks, marks, operations, operation);
}

/// The same for the start of the events.
proof fn events_are_picked<E>(
    events: Seq<E>,
    marks: Seq<Mark>,
    all: Seq<Mark>,
    operations: nat,
    operation: int,
)
    requires
        marks.len() == events.len(),
        marks.len() <= all.len(),
        marks == all.take(marks.len() as int),
        well_nested(all),
    ensures
        events_of(events, marks, operations, operation) == picked(
            events,
            |j: int| at_most(outermost_calls(all.take(j + 1)), operations) == operation + 1,
        ),
    decreases events.len(),
{
    if events.len() > 0 {
        assert(marks.drop_last() =~= all.take(marks.len() - 1));
        events_are_picked(events.drop_last(), marks.drop_last(), all, operations, operation);
        start_is_well_nested(all, marks.len() as int);
        walk_counts(marks, operations);
    }
}

/// Counts of two sequences one after the other add up.
proof fn counts_add_up(first: Seq<Mark>, second: Seq<Mark>)
    ensures
        calls_in(first + second) == calls_in(first) + calls_in(second),
        returns_in(first + second) == returns_in(first) + returns_in(second),
    decreases second.len(),
{
    if second.len() == 0 {
        assert(first + second =~= first);
    } else {
        assert((first + second).drop_last() =~= first + second.drop_last());
        counts_add_up(first, second.drop_last());
    }
}

/// The run after a balanced start has begun one operation more, and holds it.
proof fn run_begins_one(before: Seq<Mark>, run: Seq<Mark>, length: int, operations: nat)
    requires
        balanced(before),
        is_run(run),
        0 < length <= run.len(),
    ensures
        well_nested(before + run.take(length)),
        outermost_calls(before + run.take(length)) == outermost_calls(before) + 1,
    decreases length,
{
    let marks = before + run.take(length);
    assert forall|n: int| 0 <= n <= marks.len() implies returns_in(#[trigger] marks.take(n))
        <= calls_in(marks.take(n)) by {
        if n <= before.len() {
            assert(marks.take(n) =~= before.take(n));
        } else {
            let m = n - before.len();
            assert(marks.take(n) =~= before + run.take(m));
            counts_add_up(before, run.take(m));
            assert(run.take(run.len() as int) =~= run);
        }
    }
    let earlier = marks.drop_last();
    assert(earlier =~= before + run.take(length - 1));
    counts_add_up(before, run.take(length - 1));
    assert(marks.last() == run[length - 1]);
    if length > 1 {
        run_begins_one(before, run, length - 1, operations);
    } else {
        assert(earlier =~= before);
    }
}

/// What an operation has of the start of the events it has of all of them, first.
proof fn share_grows<E>(
    events: Seq<E>,
    marks: Seq<Mark>,
    operations: nat,
    operation: int,
    length: int,
)
    requires
        marks.len() == events.len(),
        0 <= length <= events.len(),
    ensures
        events_of(events.take(length), marks.take(length), operations, operation).is_prefix_of(
            events_of(events, marks, operations, operation),
        ),
    decreases events.len(),
{
    let start = events_of(events.take(length), marks.take(length), operations, operation);
    let whole = events_of(events, marks, operations, operation);
    if length == events.len() {
        assert(events.take(length) =~= events);
        assert(marks.take(length) =~= marks);
        assert(start =~= whole.subrange(0, start.len() as int));
    } else {
        let rest = events.drop_last();
        assert(rest.take(length) =~= events.take(length));
        assert(marks.drop_last().take(length) =~= marks.take(length));
        share_grows(rest, marks.drop_last(), operations, operation, length);
        let earlier = events_of(rest, marks.drop_last(), operations, operation);
        assert(start =~= earlier.subrange(0, start.len() as int));
        assert(start =~= whole.subrange(0, start.len() as int));
    }
}

/// No operation that has begun is taken back.
proof fn begun_grows(marks: Seq<Mark>, operations: nat, length: int)
    requires
        0 <= length <= marks.len(),
    ensures
        walk(marks.take(length), operations).begun <= walk(marks, operations).begun,
    decreases marks.len(),
{
    if length == marks.len() {
        assert(marks.take(length) =~= marks);
    } else {
        assert(marks.drop_last().take(length) =~= marks.take(length));
        begun_grows(marks.drop_last(), operations, length);
    }
}

/// The run is the operation's share as far as the run goes.
proof fn run_is_the_share<E>(
    before_events: Seq<E>,
    run_events: Seq<E>,
    before: Seq<Mark>,
    run: Seq<Mark>,
    operations: nat,
    length: int,
)
    requires
        before.len() == before_events.len(),
        run.len() == run_events.len(),
        balanced(before),
        is_run(run),
        outermost_calls(before) < operations,
        0 <= length <= run.len(),
    ensures
        events_of(
            before_events + run_events.take(length),
            before + run.take(length),
            operations,
            outermost_calls(before) as int,
        ) == run_events.take(length),
    decreases length,
{
    let operation = outermost_calls(before) as int;
    let events = before_events + run_events.take(length);
    let marks = before + run.take(length);
    if length == 0 {
        assert(events =~= before_events);
        assert(marks =~= before);
        walk_counts(before, operations);
        not_begun_has_no_events(before_events, before, operations, operation);
    } else {
        run_is_the_share(before_events, run_events, before, run, operations, length - 1);
        assert(events.drop_last() =~= before_events + run_events.take(length - 1));
        assert(marks.drop_last() =~= before + run.take(length - 1));
        run_begins_one(before, run, length, operations);
        walk_counts(marks, operations);
        assert(run_events.take(length) =~= run_events.take(length - 1).push(
            run_events[length - 1],
        ));
    }
}

/// The whole run from an outermost call to the return of that call lies in the share of
/// one operation, and is the first that the operation has. Where another call follows
/// and there is an operation left, the run is all that the operation has, and the call
/// begins the next operation.
pub proof fn run_stays_with_one_operation<E>(
    before_events: Seq<E>,
    run_events: Seq<E>,
    after_events: Seq<E>,
    before: Seq<Mark>,
    run: Seq<Mark>,
    after: Seq<Mark>,
    operations: nat,
)
    requires
        before.len() == before_events.len(),
        run.len() == run_events.len(),
        after.len() == after_events.len(),
        operations > 1,
        balanced(before),
        is_run(run),
        outermost_calls(before) < operations,
    ensures
        ({
            let all = shares(
                before_events + run_events + after_events,
                before + run + after,
                operations,
            );
            let operation = outermost_calls(before) as int;
            &&& all.len() == operations
            &&& run_events.is_prefix_of(all[operation])
            &&& after.len() > 0 && after[0].is_call && operation + 1 < operations ==> {
                &&& all[operation] == run_events
                &&& all[operation + 1].len() > 0
                &&& all[operation + 1][0] == after_events[0]
            }
        }),
{
    let events = before_events + run_events + after_events;
    let marks = before + run + after;
    let operation = outermost_calls(before) as int;
    let length = (before.len() + run.len()) as int;
    assert(events.len() > 0);
    run_is_the_share(before_events, run_events, before, run, operations, run.len() as int);
    assert(run_events.take(run.len() as int) =~= run_events);
    assert(run.take(run.len() as int) =~= run);
    assert(events.take(length) =~= before_events + run_events);
    assert(marks.take(length) =~= before + run);
    share_grows(events, marks, operations, operation, length);
    if after.len() > 0 && after[0].is_call && operation + 1 < operations {
        run_begins_one(before, run, run.len() as int, operations);
        walk_counts(before + run, operations);
        counts_add_up(before, run);
        let next = marks.take(length + 1);
        assert(next.drop_last() =~= before + run);
        assert(next.last() == after[0]);
        assert(walk(next, operations).begun == operation + 2);
        nothing_more_is_handed_over(events, marks, operations, operation, length);
        assert(events.take(length + 1).drop_last() =~= before_events + run_events);
        not_begun_has_no_events(
            before_events + run_events,
            before + run,
            operations,
            operation + 1,
        );
        share_grows(events, marks, operations, operation + 1, length + 1);
        let first = events_of(events.take(length + 1), next, operations, operation + 1);
        assert(first =~= seq![after_events[0]]);
        let whole = events_of(events, marks, operations, operation + 1);
        assert(first[0] == whole.subrange(0, first.len() as int)[0]);
    }
}

/// Once the next operation has begun, an operation has all its events.
proof fn nothing_more_is_handed_over<E>(
    events: Seq<E>,
    marks: Seq<Mark>,
    operations: nat,
    operation: int,
    length: int,
)
    requires
        marks.len() == events.len(),
        0 <= length < events.len(),
        walk(marks.take(length + 1), operations).begun > operation + 1,
    ensures
        events_of(events, marks, operations, operation) == events_of(
            events.take(length),
            marks.take(length),
            operations,
            operation,
        ),
    decreases events.len(),
{
    begun_grows(marks, operations, length + 1);
    let rest = events.drop_last();
    let earlier = marks.drop_last();
    if length < rest.len() {
        assert(rest.take(length) =~= events.take(length));
        assert(earlier.take(length) =~= marks.take(length));
        assert(earlier.take(length + 1) =~= marks.take(length + 1));
        nothing_more_is_handed_over(rest, earlier, operations, operation, length);
    } else {
        assert(rest =~= events.take(length));
        assert(earlier =~= marks.take(length));
    }
}

/// A return that is reported while no call is open is as an event that reports nothing.
pub proof fn stray_return_changes_nothing<E>(
    events: Seq<E>,
    before: Seq<Mark>,
    after: Seq<Mark>,
    operations: nat,
)
    requires
        balanced(before),
        events.len() == before.len() + 1 + after.len(),
    ensures
        ({
            let stray = Mark { is_call: false, is_return: true };
            let plain = Mark { is_call: false, is_return: false };
            shares(events, before.push(stray) + after, operations) == shares(
                events,
                before.push(plain) + after,
                operations,
            )
        }),
{
    let stray = Mark { is_call: false, is_return: true };
    let plain = Mark { is_call: false, is_return: false };
    let with_stray = before.push(stray) + after;
    let with_plain = before.push(plain) + after;
    assert forall|operation: int| #[trigger] events_of(events, with_stray, operations, operation)
        == events_of(events, with_plain, operations, operation) by {
        stray_share(events, before, after, operations, operation);
    }
    assert(shares(events, with_stray, operations) =~= shares(events, with_plain, operations));
}

/// The walk is the same with a stray return.
proof fn stray_walk(before: Seq<Mark>, after: Seq<Mark>, operations: nat)
    requires
        balanced(before),
    ensures
        walk(before.push(Mark { is_call: false, is_return: true }) + after, operations) == walk(
            before.push(Mark { is_call: false, is_return: false }) + after,
            operations,
        ),
    decreases after.len(),
{
    let stray = before.push(Mark { is_call: false, is_return: true });
    let plain = before.push(Mark { is_call: false, is_return: false });
    if after.len() == 0 {
        assert(stray + after =~= stray);
        assert(plain + after =~= plain);
        assert(stray.drop_last() =~= before);
        assert(plain.drop_last() =~= before);
        walk_counts(before, operations);
    } else {
        assert((stray + after).drop_last() =~= stray + after.drop_last());
        assert((plain + after).drop_last() =~= plain + after.drop_last());
        stray_walk(before, after.drop_last(), operations);
    }
}

/// The shares are the same with a stray return.
proof fn stray_share<E>(
    events: Seq<E>,
    before: Seq<Mark>,
    after: Seq<Mark>,
    operations: nat,
    operation: int,
)
    requires
        balanced(before),
        events.len() == before.len() + 1 + after.len(),
    ensures
        events_of(
            events,
            before.push(Mark { is_call: false, is_return: true }) + after,
            operations,
            operation,
        ) == events_of(
            events,
            before.push(Mark { is_call: false, is_return: false }) + after,
            operations,
            operation,
        ),
    decreases after.len(),
{
    let stray = before.push(Mark { is_call: false, is_return: true });
    let plain = before.push(Mark { is_call: false, is_return: false });
    stray_walk(before, after, operations);
    if after.len() == 0 {
        assert(stray + after =~= stray);
        assert(plain + after =~= plain);
        assert(stray.drop_last() =~= before);
        assert(plain.drop_last() =~= before);
    } else {
        assert((stray + after).drop_last() =~= stray + after.drop_last());
        assert((plain + after).drop_last() =~= plain + after.drop_last());
        stray_share(events.drop_last(), before, after.drop_last(), operations, operation);
    }
}

/// One operation has all the events, whatever they report, and so has none.
pub proof fn single_operation_has_every_event<E>(
    events: Seq<E>,
    marks: Seq<Mark>,
    operations: nat,
)
    requires
        operations <= 1 || events.len() == 0,
    ensures
        shares(events, marks, operations).len() == 1,
        shares(events, marks, operations)[0] == events,
{
}

/// Whether `text` differs from a word in lower case at most in that letters are upper
/// case.
pub open spec fn spells(text: Seq<char>, word: Seq<char>) -> bool {
    &&& text.len() == word.len()
    &&& forall|i: int|
        #![trigger text[i]]
        0 <= i < text.len() ==> text[i] == word[i] || ('a' <= word[i] <= 'z' && text[i] as int + 32
            == word[i] as int)
}

/// A topic reports a call, or a return, exactly when it is a symbol that spells one of
/// three words.
pub proof fn topics_are_told_by_their_words(symbol: Seq<char>)
    ensures
        call_topic(Some(symbol)) <==> spells(symbol, "call"@) || spells(symbol, "fn_call"@)
            || spells(symbol, "function_call"@),
        return_topic(Some(symbol)) <==> spells(symbol, "return"@) || spells(symbol, "fn_return"@)
            || spells(symbol, "function_return"@),
        !call_topic(None),
        !return_topic(None),
{
    reveal_strlit("call");
    reveal_strlit("fn_call");
    reveal_strlit("function_call");
    reveal_strlit("return");
    reveal_strlit("fn_return");
    reveal_strlit("function_return");
    spelled_in_any_case(symbol, "call"@);
    spelled_in_any_case(symbol, "fn_call"@);
    spelled_in_any_case(symbol, "function_call"@);
    spelled_in_any_case(symbol, "return"@);
    spelled_in_any_case(symbol, "fn_return"@);
    spelled_in_any_case(symbol, "function_return"@);
}

/// A text is a word in lower case exactly when it spells it.
proof fn spelled_in_any_case(text: Seq<char>, word: Seq<char>)
    requires
        forall|i: int| 0 <= i < word.len() ==> #[trigger] word[i] == '_' || 'a' <= word[i] <= 'z',
    ensures
        is_word(text, word) <==> spells(text, word),
{
    if is_word(text, word) {
        assert forall|i: int| #![trigger text[i]] 0 <= i < text.len() implies text[i] == word[i]
            || ('a' <= word[i] <= 'z' && text[i] as int + 32 == word[i] as int) by {
            assert(word[i] == '_' || 'a' <= word[i] <= 'z');
        }
    }
    if spells(text, word) {
        assert forall|i: int| 0 <= i < text.len() implies crate::text::lower(#[trigger] text[i])
            == word[i] by {
            assert(word[i] == '_' || 'a' <= word[i] <= 'z');
        }
    }
}

/// An event reports a call, or a return, exactly when one of its topics does.
pub proof fn any_topic_tells(topics: Seq<Option<Seq<char>>>, at: int)
    requires
        0 <= at < topics.len(),
    ensures
        call_topic(topics[at]) ==> mark_of(topics).is_call,
        return_topic(topics[at]) ==> mark_of(topics).is_return,
        (forall|i: int| 0 <= i < topics.len() ==> !call_topic(#[trigger] topics[i]))
            ==> !mark_of(topics).is_call,
        (forall|i: int| 0 <= i < topics.len() ==> !return_topic(#[trigger] topics[i]))
            ==> !mark_of(topics).is_return,
        mark_of(Seq::empty()) == (Mark { is_call: false, is_return: false }),
{
}

/// Each event is marked by its own topics.
pub proof fn events_are_marked_one_for_one(
    diagnostic_events: Seq<DiagnosticEventModel>,
    contract_events: Seq<ContractEventModel>,
)
    ensures
        diagnostic_marks(diagnostic_events).len() == diagnostic_events.len(),
        contract_marks(contract_events).len() == contract_events.len(),
        forall|i: int|
            0 <= i < diagnostic_events.len() ==> #[trigger] diagnostic_marks(diagnostic_events)[i]
                == mark_of(diagnostic_events[i].topics),
        forall|i: int|
            0 <= i < contract_events.len() ==> #[trigger] contract_marks(contract_events)[i]
                == mark_of(contract_events[i].topics),
{
}

/// What is said of several shares is said of each, and of no other.
pub proof fn shares_are_seen_one_for_one<E>(partitions: Seq<Vec<E>>)
    ensures
        share_views(partitions).len() == partitions.len(),
        forall|i: int|
            0 <= i < partitions.len() ==> #[trigger] share_views(partitions)[i] == partitions[i]@,
{
}

} // verus!
