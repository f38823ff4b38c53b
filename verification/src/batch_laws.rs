//! What holds of every batch, however its chunks are scheduled.

use crate::api::{
    response_to, violation_info, ApiResponse, AppError, AppErrorView, GroupChatMessage,
    ModerationResponse,
};
use crate::batch::{
    answers_batch, answers_in_order, answers_message, at_index, batch_refusal, chunk_count,
    chunks_of, count_violations, has_index, is_chunk_outcome, is_ordered, is_stable_sort,
    is_violating, responses_of, with_content, BatchModerationResponse, IndexedResponse, MAX_BATCH,
};
use crate::kinds::ModerationSuggestion;
use crate::kinds_laws::suggestion_is_known_by_its_code;
use crate::moderation::{opt_text, verdict};
use crate::moderation_laws::{risk_score_is_bounded, violation_iff_a_pattern_occurs};
use crate::rules::rule_table;
use crate::seqs::{lemma_filter_keeps, lemma_filters_keep_as_many, lemma_flatten_in_any_order};
use crate::text::{lowered, occurs_in};
use vstd::arithmetic::div_mod::lemma_fundamental_div_mod;
use vstd::prelude::*;

verus! {

/// Where chunk number `k` lies among `count` items.
pub proof fn lemma_chunk_bounds(count: int, size: int, k: int)
    requires
        0 < size,
        0 <= count,
        0 <= k < chunk_count(count, size),
    ensures
        0 <= k * size < count,
        k + 1 < chunk_count(count, size) ==> (k + 1) * size < count,
        k + 1 == chunk_count(count, size) ==> (k + 1) * size >= count,
{
    let n = chunk_count(count, size);
    let sum = count + size - 1;
    lemma_fundamental_div_mod(sum, size);
    let rest = sum % size;
    assert(0 <= k * size) by (nonlinear_arith)
        requires
            0 <= k,
            0 < size,
    ;
    assert(k * size + size <= n * size) by (nonlinear_arith)
        requires
            k + 1 <= n,
            0 < size,
    ;
    assert((k + 1) * size == k * size + size) by (nonlinear_arith);
    assert(size * n == n * size) by (nonlinear_arith);
    if k + 1 < n {
        assert((k + 1) * size + size <= n * size) by (nonlinear_arith)
            requires
                k + 2 <= n,
                0 < size,
        ;
    }
}

/// Every chunk has an item and at most `size` of them; every chunk but the last has exactly
/// `size`.
pub proof fn chunks_are_full_but_the_last<T>(items: Seq<T>, size: int, k: int)
    requires
        0 < size,
        0 <= k < chunks_of(items, size).len(),
    ensures
        1 <= chunks_of(items, size)[k].len() <= size,
        k + 1 < chunks_of(items, size).len() ==> chunks_of(items, size)[k].len() == size,
{
    lemma_chunk_bounds(items.len() as int, size, k);
    assert((k + 1) * size == k * size + size) by (nonlinear_arith);
}

/// The leading chunks put one after the other are the leading items.
proof fn lemma_leading_chunks<T>(items: Seq<T>, size: int, n: int)
    requires
        0 < size,
        0 <= n <= chunks_of(items, size).len(),
    ensures
        n < chunks_of(items, size).len() ==> 0 <= n * size < items.len()
            && chunks_of(items, size).take(n).flatten() == items.take(n * size),
        n == chunks_of(items, size).len() ==> chunks_of(items, size).flatten() == items,
    decreases n,
{
    let chunks = chunks_of(items, size);
    if n == 0 {
        if chunks.len() == 0 {
            if items.len() > 0 {
                lemma_fundamental_div_mod(items.len() + size - 1, size);
            }
            assert(chunks.flatten() =~= items);
        } else {
            lemma_chunk_bounds(items.len() as int, size, 0);
            assert(chunks.take(0).flatten() =~= items.take(0));
        }
    } else {
        lemma_leading_chunks(items, size, n - 1);
        lemma_chunk_bounds(items.len() as int, size, n - 1);
        assert(chunks.take(n) =~= chunks.take(n - 1).push(chunks[n - 1]));
        chunks.take(n - 1).lemma_flatten_push(chunks[n - 1]);
        assert((n - 1 + 1) * size == n * size);
        assert((n - 1) * size + size == n * size) by (nonlinear_arith);
        if n < chunks.len() {
            lemma_chunk_bounds(items.len() as int, size, n);
            assert(chunks.take(n).flatten() =~= items.take(n * size));
        } else {
            assert(chunks.take(n) =~= chunks);
            assert(chunks.flatten() =~= items);
        }
    }
}

/// Cutting into chunks loses nothing, repeats nothing and keeps the order.
pub proof fn chunks_put_together_are_the_items<T>(items: Seq<T>, size: int)
    requires
        0 < size,
    ensures
        chunks_of(items, size).flatten() == items,
{
    lemma_leading_chunks(items, size, chunks_of(items, size).len() as int);
}

/// The item at offset `o` of chunk `k` is item number `k * size + o`.
pub proof fn chunk_offset_gives_the_position<T>(items: Seq<T>, size: int, k: int, o: int)
    requires
        0 < size,
        0 <= k < chunks_of(items, size).len(),
        0 <= o < chunks_of(items, size)[k].len(),
    ensures
        0 <= k * size + o < items.len(),
        chunks_of(items, size)[k][o] == items[k * size + o],
{
    lemma_chunk_bounds(items.len() as int, size, k);
    assert((k + 1) * size == k * size + size) by (nonlinear_arith);
}

/// A message is moderated exactly when it has content.
pub proof fn messages_without_content_are_skipped(messages: Seq<GroupChatMessage>)
    ensures
        with_content(messages).len() <= messages.len(),
        forall|m: GroupChatMessage| #[trigger]
            with_content(messages).contains(m) <==> messages.contains(m) && m@.content.len() > 0,
{
    let pred = |m: GroupChatMessage| m@.content.len() > 0;
    lemma_filter_keeps(messages, pred);
    messages.lemma_filter_len(pred);
    assert(with_content(messages) == messages.filter(pred));
    assert forall|m: GroupChatMessage| #[trigger]
        with_content(messages).contains(m) <==> messages.contains(m) && m@.content.len() > 0 by {
        if with_content(messages).contains(m) {
            messages.lemma_filter_contains_rev(pred, m);
            let k = choose|k: int|
                0 <= k < with_content(messages).len() && with_content(messages)[k] == m;
            assert(pred(with_content(messages)[k]));
        }
        if messages.contains(m) && m@.content.len() > 0 {
            let k = choose|k: int| 0 <= k < messages.len() && messages[k] == m;
            assert(pred(messages[k]));
        }
    }
}

/// A batch is refused exactly when it is empty or holds more than the largest number of
/// messages.
pub proof fn batch_is_refused_when_empty_or_too_large(count: nat)
    ensures
        batch_refusal(count) is None <==> 1 <= count <= MAX_BATCH,
        batch_refusal(count) matches Some(e) ==> e.status() == 400,
{
}

/// The answers of the leading chunks, put one after the other, answer the leading messages.
proof fn lemma_leading_outcomes(
    messages: Seq<GroupChatMessage>,
    size: int,
    outcomes: Seq<Seq<IndexedResponse>>,
    n: int,
)
    requires
        0 < size,
        outcomes.len() == chunks_of(messages, size).len(),
        forall|k: int|
            0 <= k < outcomes.len() ==> is_chunk_outcome(
                #[trigger] outcomes[k],
                chunks_of(messages, size)[k],
                k * size,
            ),
        0 <= n <= outcomes.len(),
    ensures
        is_chunk_outcome(
            outcomes.take(n).flatten(),
            chunks_of(messages, size).take(n).flatten(),
            0,
        ),
    decreases n,
{
    let chunks = chunks_of(messages, size);
    if n > 0 {
        lemma_leading_outcomes(messages, size, outcomes, n - 1);
        assert(outcomes.take(n) =~= outcomes.take(n - 1).push(outcomes[n - 1]));
        assert(chunks.take(n) =~= chunks.take(n - 1).push(chunks[n - 1]));
        outcomes.take(n - 1).lemma_flatten_push(outcomes[n - 1]);
        chunks.take(n - 1).lemma_flatten_push(chunks[n - 1]);
        lemma_leading_chunks(messages, size, n - 1);
        let front = outcomes.take(n - 1).flatten();
        let all = outcomes.take(n).flatten();
        let sources = chunks.take(n).flatten();
        assert(front.len() == (n - 1) * size);
        assert forall|i: int| 0 <= i < all.len() implies (#[trigger] all[i]).0 == i
            && answers_message(all[i], sources[i]@) by {
            if i < front.len() {
                assert(all[i] == front[i]);
                assert(sources[i] == chunks.take(n - 1).flatten()[i]);
            } else {
                let o = i - front.len();
                assert(all[i] == outcomes[n - 1][o]);
                assert(sources[i] == chunks[n - 1][o]);
            }
        }
    } else {
        assert(outcomes.take(0).flatten() =~= Seq::empty());
        assert(chunks.take(0).flatten() =~= Seq::empty());
    }
}

/// Items that are numbered from 0 have only one order by number.
pub proof fn lemma_numbered_items_have_one_order(
    numbered: Seq<IndexedResponse>,
    sorted: Seq<IndexedResponse>,
)
    requires
        forall|i: int| 0 <= i < numbered.len() ==> (#[trigger] numbered[i]).0 == i,
        sorted.to_multiset() == numbered.to_multiset(),
        is_ordered(sorted),
    ensures
        sorted == numbered,
{
    numbered.to_multiset_ensures();
    sorted.to_multiset_ensures();
    assert(sorted.len() == numbered.len());
    let n = sorted.len() as int;
    assert(numbered.no_duplicates());
    numbered.lemma_multiset_has_no_duplicates();
    sorted.lemma_multiset_has_no_duplicates_conv();
    assert forall|i: int| 0 <= i < n implies 0 <= (#[trigger] sorted[i]).0 < n && sorted[i]
        == numbered[sorted[i].0 as int] by {
        assert(sorted.contains(sorted[i]));
        assert(sorted.to_multiset().count(sorted[i]) > 0);
        assert(numbered.contains(sorted[i]));
        let k = choose|k: int| 0 <= k < n && numbered[k] == sorted[i];
        assert(numbered[k].0 == k);
    }
    assert forall|i: int, j: int| 0 <= i < j < n implies (#[trigger] sorted[i]).0 < (
    #[trigger] sorted[j]).0 by {
        if sorted[i].0 == sorted[j].0 {
            assert(sorted[i] == sorted[j]);
        }
    }
    assert forall|i: int| 0 <= i < n implies sorted[i] == numbered[i] by {
        lemma_at_least_its_place(sorted, i);
        lemma_at_most_its_place(sorted, n, i);
        assert(sorted[i] == numbered[sorted[i].0 as int]);
    }
    assert(sorted =~= numbered);
}

proof fn lemma_at_least_its_place(sorted: Seq<IndexedResponse>, i: int)
    requires
        0 <= i < sorted.len(),
        forall|a: int, b: int|
            0 <= a < b < sorted.len() ==> (#[trigger] sorted[a]).0 < (#[trigger] sorted[b]).0,
    ensures
        i <= sorted[i].0,
    decreases i,
{
    if i > 0 {
        lemma_at_least_its_place(sorted, i - 1);
        assert(sorted[i - 1].0 < sorted[i].0);
    }
}

proof fn lemma_at_most_its_place(sorted: Seq<IndexedResponse>, n: int, i: int)
    requires
        n == sorted.len(),
        0 <= i < n,
        forall|a: int| 0 <= a < n ==> (#[trigger] sorted[a]).0 < n,
        forall|a: int, b: int|
            0 <= a < b < n ==> (#[trigger] sorted[a]).0 < (#[trigger] sorted[b]).0,
    ensures
        sorted[i].0 <= i,
    decreases n - i,
{
    if i + 1 < n {
        lemma_at_most_its_place(sorted, n, i + 1);
        assert(sorted[i].0 < sorted[i + 1].0);
    } else {
        assert(sorted[i].0 < n);
    }
}

/// As many items are violations as messages that they answer.
pub proof fn lemma_violations_counted(items: Seq<IndexedResponse>, messages: Seq<GroupChatMessage>)
    requires
        is_chunk_outcome(items, messages, 0),
    ensures
        count_violations(items) == messages.filter(|m: GroupChatMessage| is_violating(m)).len(),
    decreases items.len(),
{
    reveal(Seq::filter);
    if items.len() > 0 {
        lemma_violations_counted(items.drop_last(), messages.drop_last());
    }
}

/// The answer to a batch does not depend on the order in which the chunks finish: however the
/// answers of the chunks come in, result number `i` answers message number `i`, there is one
/// result for each message, and the violations are counted right.
pub proof fn batch_answers_every_message_in_order(
    messages: Seq<GroupChatMessage>,
    size: int,
    outcomes: Seq<Seq<IndexedResponse>>,
    completed: Seq<IndexedResponse>,
    sorted: Seq<IndexedResponse>,
    results: Seq<ModerationResponse>,
    violation_count: nat,
)
    requires
        0 < size,
        outcomes.len() == chunks_of(messages, size).len(),
        forall|k: int|
            0 <= k < outcomes.len() ==> is_chunk_outcome(
                #[trigger] outcomes[k],
                chunks_of(messages, size)[k],
                k * size,
            ),
        completed.to_multiset() == outcomes.flatten().to_multiset(),
        is_stable_sort(completed, sorted),
        results == responses_of(sorted),
        violation_count == count_violations(sorted),
    ensures
        sorted == outcomes.flatten(),
        results.len() == messages.len(),
        forall|i: int|
            0 <= i < messages.len() ==> (#[trigger] sorted[i]).0 == i && answers_message(
                sorted[i],
                messages[i]@,
            ) && results[i] == sorted[i].1,
        violation_count == messages.filter(|m: GroupChatMessage| is_violating(m)).len(),
        violation_count == results.filter(|r: ModerationResponse| r.is_violation).len(),
        violation_count <= results.len(),
{
    let n = outcomes.len() as int;
    let numbered = outcomes.flatten();
    assert(outcomes.take(n) =~= outcomes);
    assert(chunks_of(messages, size).take(n) =~= chunks_of(messages, size));
    lemma_leading_outcomes(messages, size, outcomes, n);
    chunks_put_together_are_the_items(messages, size);
    lemma_numbered_items_have_one_order(numbered, sorted);
    lemma_violations_counted(sorted, messages);
    sorted.lemma_filter_len(|item: IndexedResponse| item.2);
    flagged_answers_are_those_that_say_so(sorted);
}

/// Whatever order the chunks finish in, the same answers come in: `arrived` holds the answers of
/// the chunks in the order in which the chunks finished.
pub proof fn chunks_may_finish_in_any_order(
    outcomes: Seq<Seq<IndexedResponse>>,
    arrived: Seq<Seq<IndexedResponse>>,
)
    requires
        arrived.to_multiset() == outcomes.to_multiset(),
    ensures
        arrived.flatten().to_multiset() == outcomes.flatten().to_multiset(),
{
    lemma_flatten_in_any_order(arrived, outcomes);
}

/// There is only one way to sort items stably, so the answer to a batch is determined.
pub proof fn stable_sort_is_unique(
    items: Seq<IndexedResponse>,
    a: Seq<IndexedResponse>,
    b: Seq<IndexedResponse>,
)
    requires
        is_stable_sort(items, a),
        is_stable_sort(items, b),
    ensures
        a == b,
{
    assert forall|index: usize| #[trigger] at_index(a, index) == at_index(b, index) by {
        assert(at_index(a, index) == at_index(items, index));
    }
    lemma_ordered_is_unique(a, b);
}

/// An item of an ordered sequence is found at its position, and not beyond the last one.
proof fn lemma_found_at_index(items: Seq<IndexedResponse>, index: usize)
    requires
        is_ordered(items),
        at_index(items, index).len() > 0,
    ensures
        items.len() > 0,
        index <= items.last().0,
{
    reveal(Seq::filter);
    let pred = has_index(index);
    lemma_filter_keeps(items, pred);
    let item = at_index(items, index)[0];
    assert(pred(item));
    items.lemma_filter_contains_rev(pred, item);
    let k = choose|k: int| 0 <= k < items.len() && items[k] == item;
    if k < items.len() - 1 {
        assert(items[k].0 <= items[items.len() - 1].0);
    }
}

proof fn lemma_ordered_is_unique(a: Seq<IndexedResponse>, b: Seq<IndexedResponse>)
    requires
        is_ordered(a),
        is_ordered(b),
        forall|index: usize| #[trigger] at_index(a, index) == at_index(b, index),
    ensures
        a == b,
    decreases a.len(),
{
    reveal(Seq::filter);
    if a.len() == 0 {
        if b.len() > 0 {
            let index = b.last().0;
            assert(at_index(a, index) == at_index(b, index));
            assert(at_index(b, index).len() > 0);
        }
        assert(a =~= b);
    } else {
        let index = a.last().0;
        assert(at_index(a, index).last() == a.last());
        assert(at_index(b, index).len() > 0);
        lemma_found_at_index(b, index);
        let other = b.last().0;
        assert(at_index(b, other).last() == b.last());
        assert(at_index(a, other).len() > 0);
        lemma_found_at_index(a, other);
        assert(index == other);
        let a1 = a.drop_last();
        let b1 = b.drop_last();
        assert forall|j: usize| #[trigger] at_index(a1, j) == at_index(b1, j) by {
            assert(at_index(a, j) == at_index(b, j));
            if j == index {
                assert(at_index(a1, j) =~= at_index(a, j).drop_last());
                assert(at_index(b1, j) =~= at_index(b, j).drop_last());
            }
        }
        lemma_ordered_is_unique(a1, b1);
        assert(a =~= a1.push(a.last()));
        assert(b =~= b1.push(b.last()));
    }
}

/// Whether some pattern of some rule occurs in a lowercased text.
pub open spec fn holds_a_pattern(text: Seq<char>) -> bool {
    exists|r: int, k: int|
        0 <= r < rule_table().len() && 0 <= k < rule_table()[r].patterns.len() && occurs_in(
            #[trigger] rule_table()[r].patterns[k],
            text,
        )
}

/// Whether `response` answers `msg`: it carries the ids of the message; it is a violation exactly
/// when the lowercase form of the content holds a pattern, and exactly when it reports one; and
/// it gives the score, the reports and the suggestion of the verdict on the content.
pub open spec fn tells_of(response: ModerationResponse, msg: GroupChatMessage) -> bool {
    let result = verdict(lowered(msg.content@));
    &&& response.group_id@ == msg.group_id@
    &&& response.user_id@ == msg.user_id@
    &&& opt_text(response.message_id) == opt_text(msg.message_id)
    &&& response.is_violation <==> holds_a_pattern(lowered(msg.content@))
    &&& response.is_violation <==> response.violations@.len() > 0
    &&& response.is_violation <==> response.risk_score > 0
    &&& response.risk_score == result.risk_score
    &&& response.violations@.len() == result.violations.len()
    &&& forall|k: int|
        0 <= k < result.violations.len() ==> (#[trigger] response.violations@[k])@
            == violation_info(result.violations[k])
    &&& response.suggestion@ == "block"@ <==> result.suggestion == ModerationSuggestion::Block
    &&& response.suggestion@ == "review"@ <==> result.suggestion == ModerationSuggestion::Review
    &&& response.suggestion@ == "pass"@ <==> result.suggestion == ModerationSuggestion::Pass
}

proof fn lemma_answer_tells_of_its_message(response: ModerationResponse, msg: GroupChatMessage)
    requires
        response@ == response_to(
            msg@,
            verdict(lowered(msg@.content)),
            response.processed_at,
        ),
    ensures
        tells_of(response, msg),
{
    let text = lowered(msg.content@);
    violation_iff_a_pattern_occurs(text);
    risk_score_is_bounded(text);
    suggestion_is_known_by_its_code(verdict(text).suggestion);
    assert(response@.violations.len() == response.violations@.len());
    assert forall|k: int| 0 <= k < verdict(text).violations.len() implies (
    #[trigger] response.violations@[k])@ == violation_info(verdict(text).violations[k]) by {
        assert(response@.violations[k] == response.violations@[k]@);
    }
}

/// Each message of a chunk is answered with its position, and flagged exactly when its answer
/// says that it is a violation, that is, when its content holds a pattern.
pub proof fn chunk_flags_its_violations(
    items: Seq<IndexedResponse>,
    chunk: Seq<GroupChatMessage>,
    base: int,
)
    requires
        is_chunk_outcome(items, chunk, base),
    ensures
        items.len() == chunk.len(),
        forall|o: int|
            0 <= o < items.len() ==> {
                let item = #[trigger] items[o];
                &&& item.0 == base + o
                &&& item.2 == item.1.is_violation
                &&& item.2 <==> holds_a_pattern(lowered(chunk[o].content@))
                &&& tells_of(item.1, chunk[o])
            },
{
    assert forall|o: int| 0 <= o < items.len() implies {
        let item = #[trigger] items[o];
        &&& item.0 == base + o
        &&& item.2 == item.1.is_violation
        &&& item.2 <==> holds_a_pattern(lowered(chunk[o].content@))
        &&& tells_of(item.1, chunk[o])
    } by {
        assert(answers_message(items[o], chunk[o]@));
        lemma_answer_tells_of_its_message(items[o].1, chunk[o]);
        assert(items[o].1@.is_violation == items[o].1.is_violation);
    }
}

/// Where each answer is flagged exactly when it says that it is a violation, as many are flagged
/// as say so; and the responses are those of the items, one for each and in order.
pub proof fn flagged_answers_are_those_that_say_so(items: Seq<IndexedResponse>)
    ensures
        responses_of(items).len() == items.len(),
        forall|i: int| 0 <= i < items.len() ==> #[trigger] responses_of(items)[i] == items[i].1,
        (forall|i: int| 0 <= i < items.len() ==> (#[trigger] items[i]).2 == items[i].1.is_violation)
            ==> count_violations(items) == responses_of(items).filter(
            |r: ModerationResponse| r.is_violation,
        ).len(),
{
    if forall|i: int|
        0 <= i < items.len() ==> (#[trigger] items[i]).2 == items[i].1.is_violation {
        lemma_filters_keep_as_many(
            items,
            |item: IndexedResponse| item.2,
            responses_of(items),
            |r: ModerationResponse| r.is_violation,
        );
    }
}

/// One more item adds one to the count of violations where it is flagged, and otherwise nothing.
pub proof fn violations_are_counted_one_by_one(
    items: Seq<IndexedResponse>,
    item: IndexedResponse,
)
    ensures
        count_violations(Seq::<IndexedResponse>::empty()) == 0,
        item.2 ==> count_violations(items.push(item)) == count_violations(items) + 1,
        !item.2 ==> count_violations(items.push(item)) == count_violations(items),
{
    reveal(Seq::filter);
    assert(items.push(item).drop_last() =~= items);
}

/// An answered batch counts as violations exactly the results that say so, which are the answers
/// to the messages whose lowercase form holds a pattern; it has one result for each message, and
/// result number `i` tells of message number `i`.
pub proof fn batch_counts_the_results_that_are_violations<Clock: Fn() -> i64>(
    data: BatchModerationResponse,
    messages: Seq<GroupChatMessage>,
    clock: Clock,
)
    requires
        answers_in_order(data, messages, clock),
    ensures
        data.violation_count == data.results@.filter(|r: ModerationResponse| r.is_violation).len(),
        data.violation_count == messages.filter(
            |m: GroupChatMessage| holds_a_pattern(lowered(m.content@)),
        ).len(),
        data.total == data.results@.len(),
        data.results@.len() == messages.len(),
        forall|i: int|
            0 <= i < messages.len() ==> tells_of(#[trigger] data.results@[i], messages[i])
                && clock.ensures((), data.results@[i].processed_at),
{
    let results = data.results@;
    let judged = |m: GroupChatMessage| is_violating(m);
    assert forall|i: int| 0 <= i < messages.len() implies tells_of(
        #[trigger] results[i],
        messages[i],
    ) && results[i].is_violation == is_violating(messages[i]) by {
        lemma_answer_tells_of_its_message(results[i], messages[i]);
        assert(results[i]@.is_violation == results[i].is_violation);
    }
    lemma_filters_keep_as_many(
        results,
        |r: ModerationResponse| r.is_violation,
        messages,
        judged,
    );
    assert forall|i: int| 0 <= i < messages.len() implies judged(#[trigger] messages[i])
        == holds_a_pattern(lowered(messages[i].content@)) by {
        violation_iff_a_pattern_occurs(lowered(messages[i].content@));
    }
    lemma_filters_keep_as_many(
        messages,
        judged,
        messages,
        |m: GroupChatMessage| holds_a_pattern(lowered(m.content@)),
    );
}

/// What a batch is answered. It is refused exactly when it has no messages or more than 5000.
/// Otherwise every message that has content is answered, in order; the answer counts the results
/// that are violations; and it gives the time that the timer gave.
pub proof fn batch_is_answered_in_full<Clock: Fn() -> i64, Timer: Fn() -> u64>(
    outcome: Result<ApiResponse<BatchModerationResponse>, AppError>,
    messages: Seq<GroupChatMessage>,
    clock: Clock,
    timer: Timer,
)
    requires
        answers_batch(outcome, messages, clock, timer),
    ensures
        outcome is Ok <==> 1 <= messages.len() <= 5000,
        outcome matches Err(e) ==> (e matches AppError::BadRequest(reason) && reason@ == if
            messages.len() == 0 {
            "消息列表不能为空"@
        } else {
            "单次最多审核5000条消息"@
        }),
        outcome matches Ok(response) ==> {
            let selected = messages.filter(|m: GroupChatMessage| m.content@.len() > 0);
            &&& response.code == 200
            &&& response.message@ == "success"@
            &&& response.data matches Some(data)
            &&& timer.ensures((), data.duration_ms)
            &&& data.total == selected.len()
            &&& data.results@.len() == selected.len()
            &&& data.violation_count == data.results@.filter(
                |r: ModerationResponse| r.is_violation,
            ).len()
            &&& forall|i: int|
                0 <= i < selected.len() ==> tells_of(#[trigger] data.results@[i], selected[i])
                    && clock.ensures((), data.results@[i].processed_at)
        },
{
    if outcome is Ok {
        let data = (outcome->Ok_0).data->0;
        batch_counts_the_results_that_are_violations(data, with_content(messages), clock);
        let pred = |m: GroupChatMessage| m.content@.len() > 0;
        let kept = |m: GroupChatMessage| m@.content.len() > 0;
        assert(pred =~= kept);
        assert(with_content(messages) == messages.filter(kept));
    }
}

/// What a refused batch is told: that it is empty where it is, and otherwise that it has more
/// than 5000 messages.
pub proof fn batch_refusal_says_why(count: nat)
    ensures
        batch_refusal(count) == Some(AppErrorView::BadRequest("消息列表不能为空"@)) <==> count == 0,
        batch_refusal(count) == Some(AppErrorView::BadRequest("单次最多审核5000条消息"@)) <==> count
            > 5000,
        batch_refusal(count) is None <==> 1 <= count <= 5000,
{
    reveal_strlit("消息列表不能为空");
    reveal_strlit("单次最多审核5000条消息");
    assert("消息列表不能为空"@.len() == 8);
    assert("单次最多审核5000条消息"@.len() == 13);
}

/// Messages are selected one by one and in order: those of two batches are those of the one and
/// then those of the other, and a single message is kept exactly when it has content.
pub proof fn messages_are_selected_one_by_one(
    a: Seq<GroupChatMessage>,
    b: Seq<GroupChatMessage>,
    msg: GroupChatMessage,
)
    ensures
        with_content(a + b) == with_content(a) + with_content(b),
        msg.content@.len() > 0 ==> with_content(seq![msg]) == seq![msg],
        msg.content@.len() == 0 ==> with_content(seq![msg]).len() == 0,
{
    let pred = |m: GroupChatMessage| m@.content.len() > 0;
    Seq::filter_distributes_over_add(a, b, pred);
    reveal(Seq::filter);
    assert(seq![msg].drop_last() =~= Seq::empty());
    assert(seq![msg].last() == msg);
    assert(Seq::<GroupChatMessage>::empty().filter(pred) =~= Seq::empty());
    if msg.content@.len() > 0 {
        assert(with_content(seq![msg]) =~= seq![msg]);
    }
}

} // verus!
