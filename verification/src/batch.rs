//! Batches: many messages in one request, moderated in chunks that may finish in any order.

use crate::api::{
    build_moderation_response, response_to, ApiResponse, AppError, AppErrorView, GroupChatMessage,
    GroupChatMessageView, ModerationResponse,
};
use crate::batch_laws::{
    batch_counts_the_results_that_are_violations, chunk_flags_its_violations,
    chunks_put_together_are_the_items, lemma_chunk_bounds, lemma_numbered_items_have_one_order,
    lemma_violations_counted, messages_without_content_are_skipped,
};
use crate::moderation::{has_verdict, moderate_message, points_fit, verdict};
use crate::text::lowered;
use vstd::arithmetic::div_mod::{lemma_div_pos_is_pos, lemma_fundamental_div_mod_converse};
use vstd::prelude::*;

verus! {

/// The largest number of messages in one batch.
pub const MAX_BATCH: usize = 5000;

/// The request to moderate many messages.
#[derive(Debug)]
pub struct BatchModerationRequest {
    pub messages: Vec<GroupChatMessage>,
}

/// The answer to a batch.
#[derive(Debug, Clone)]
pub struct BatchModerationResponse {
    pub results: Vec<ModerationResponse>,
    pub total: usize,
    pub violation_count: usize,
    pub duration_ms: u64,
}

/// The answer to a message, with the position of the message and whether it is a violation.
pub type IndexedResponse = (usize, ModerationResponse, bool);

/// Why a batch of `count` messages is refused, if it is.
pub open spec fn batch_refusal(count: nat) -> Option<AppErrorView> {
    if count == 0 {
        Some(AppErrorView::BadRequest("消息列表不能为空"@))
    } else if count > MAX_BATCH {
        Some(AppErrorView::BadRequest("单次最多审核5000条消息"@))
    } else {
        None
    }
}

/// Checks that a batch can be moderated.
pub fn validate_batch(req: &BatchModerationRequest) -> (checked: Result<(), AppError>)
    ensures
        match checked {
            Ok(_) => batch_refusal(req.messages@.len()) is None,
            Err(e) => batch_refusal(req.messages@.len()) == Some(e@),
        },
        checked is Ok <==> 1 <= req.messages@.len() <= 5000,
{
    if req.messages.is_empty() {
        return Err(AppError::BadRequest("消息列表不能为空".to_owned()));
    }
    if req.messages.len() > MAX_BATCH {
        return Err(AppError::BadRequest("单次最多审核5000条消息".to_owned()));
    }
    Ok(())
}

/// The messages that have content, in order.
pub open spec fn with_content(messages: Seq<GroupChatMessage>) -> Seq<GroupChatMessage> {
    messages.filter(|m: GroupChatMessage| m@.content.len() > 0)
}

/// Keeps the messages that have content.
pub fn select_messages(messages: Vec<GroupChatMessage>) -> (selected: Vec<GroupChatMessage>)
    ensures
        selected@ == with_content(messages@),
{
    let ghost all = messages@;
    let mut selected: Vec<GroupChatMessage> = Vec::new();
    proof {
        reveal(Seq::filter);
        assert(selected@ =~= with_content(all.take(0)));
    }
    for message in it: messages
        invariant
            it.seq() == all,
            selected@ == with_content(all.take(it.index())),
    {
        proof {
            reveal(Seq::filter);
            let i = it.index();
            assert(all.take(i + 1).drop_last() =~= all.take(i));
            assert(all.take(i + 1).last() == message);
        }
        if !message.content.as_str().is_empty() {
            selected.push(message);
        }
    }
    proof {
        assert(all.take(all.len() as int) =~= all);
    }
    selected
}

/// How many chunks of `size` items `count` items make; the last one may be shorter.
pub open spec fn chunk_count(count: int, size: int) -> int {
    (count + size - 1) / size
}

/// The chunk number `k` of `items`.
pub open spec fn chunk_at<T>(items: Seq<T>, size: int, k: int) -> Seq<T> {
    items.subrange(
        k * size,
        if (k + 1) * size <= items.len() {
            (k + 1) * size
        } else {
            items.len() as int
        },
    )
}

/// `items` cut into consecutive chunks of `size` items; the last one may be shorter.
pub open spec fn chunks_of<T>(items: Seq<T>, size: int) -> Seq<Seq<T>> {
    Seq::new(chunk_count(items.len() as int, size) as nat, |k: int| chunk_at(items, size, k))
}

/// `full` whole chunks of `size` items and `rest` further items make this many chunks.
proof fn lemma_chunk_count(full: int, size: int, rest: int)
    requires
        0 < size,
        0 <= rest < size,
        0 <= full,
    ensures
        chunk_count(full * size + rest, size) == if rest == 0 {
            full
        } else {
            full + 1
        },
{
    let count = full * size + rest;
    if rest == 0 {
        lemma_fundamental_div_mod_converse(count + size - 1, size, full, size - 1);
    } else {
        assert((full + 1) * size == full * size + size) by (nonlinear_arith);
        lemma_fundamental_div_mod_converse(count + size - 1, size, full + 1, rest - 1);
    }
}

/// The vectors as sequences.
pub open spec fn rows<T>(chunks: Seq<Vec<T>>) -> Seq<Seq<T>> {
    chunks.map_values(|c: Vec<T>| c@)
}

/// Cuts the messages into chunks.
pub fn split_chunks(messages: Vec<GroupChatMessage>, chunk_size: usize) -> (chunks: Vec<
    Vec<GroupChatMessage>,
>)
    requires
        chunk_size > 0,
    ensures
        rows(chunks@) == chunks_of(messages@, chunk_size as int),
{
    let ghost all = messages@;
    let ghost size = chunk_size as int;
    let mut chunks: Vec<Vec<GroupChatMessage>> = Vec::new();
    let mut current: Vec<GroupChatMessage> = Vec::new();
    for message in it: messages
        invariant
            it.seq() == all,
            chunk_size > 0,
            size == chunk_size,
            current@.len() < size,
            it.index() == chunks@.len() * size + current@.len(),
            current@ == all.subrange(chunks@.len() * size, it.index()),
            forall|k: int|
                0 <= k < chunks@.len() ==> (#[trigger] chunks@[k])@ == chunk_at(all, size, k),
    {
        let ghost n = chunks@.len() as int;
        let ghost i = it.index();
        current.push(message);
        proof {
            assert((n + 1) * size == n * size + size) by (nonlinear_arith);
            assert(current@ =~= all.subrange(n * size, i + 1));
        }
        if current.len() == chunk_size {
            chunks.push(current);
            current = Vec::new();
            proof {
                assert(chunks@[n]@ == chunk_at(all, size, n));
                assert(current@ =~= all.subrange((n + 1) * size, i + 1));
            }
        }
    }
    proof {
        let n = chunks@.len() as int;
        lemma_chunk_count(n, size, current@.len() as int);
        assert((n + 1) * size == n * size + size) by (nonlinear_arith);
        assert(current@.len() > 0 ==> current@ == chunk_at(all, size, n));
    }
    if !current.is_empty() {
        chunks.push(current);
    }
    proof {
        assert(rows(chunks@) =~= chunks_of(all, size));
    }
    chunks
}

/// Whether the content of a message commits a violation.
pub open spec fn is_violating(msg: GroupChatMessage) -> bool {
    verdict(lowered(msg@.content)).is_violation
}

/// Whether `item` is the answer to `msg`.
pub open spec fn answers_message(item: IndexedResponse, msg: GroupChatMessageView) -> bool {
    &&& item.1@ == response_to(msg, verdict(lowered(msg.content)), item.1.processed_at)
    &&& item.2 == verdict(lowered(msg.content)).is_violation
}

/// Whether `items` are the answers to the messages of a chunk whose first message has the
/// position `base` in the batch.
pub open spec fn is_chunk_outcome(
    items: Seq<IndexedResponse>,
    chunk: Seq<GroupChatMessage>,
    base: int,
) -> bool {
    &&& items.len() == chunk.len()
    &&& forall|o: int|
        0 <= o < items.len() ==> (#[trigger] items[o]).0 == base + o && answers_message(
            items[o],
            chunk[o]@,
        )
}

/// Moderates one chunk. The clock is read once for each message.
pub fn moderate_chunk<Clock: Fn() -> i64>(
    chunk_idx: usize,
    chunk_size: usize,
    chunk: &Vec<GroupChatMessage>,
    clock: &Clock,
) -> (items: Vec<IndexedResponse>)
    requires
        chunk_idx * chunk_size + chunk@.len() <= usize::MAX,
        forall|o: int|
            0 <= o < chunk@.len() ==> points_fit(lowered((#[trigger] chunk@[o])@.content)),
        clock.requires(()),
    ensures
        is_chunk_outcome(items@, chunk@, chunk_idx * chunk_size),
        forall|o: int|
            0 <= o < items@.len() ==> clock.ensures((), (#[trigger] items@[o]).1.processed_at),
        forall|o: int|
            0 <= o < items@.len() ==> (#[trigger] items@[o]).2 == items@[o].1.is_violation,
{
    let mut items: Vec<IndexedResponse> = Vec::with_capacity(chunk.len());
    let n: usize = chunk.len();
    let mut offset: usize = 0;
    while offset < n
        invariant
            n == chunk@.len(),
            offset <= n,
            chunk_idx * chunk_size + chunk@.len() <= usize::MAX,
            forall|o: int|
                0 <= o < chunk@.len() ==> points_fit(lowered((#[trigger] chunk@[o])@.content)),
            clock.requires(()),
            is_chunk_outcome(items@, chunk@.take(offset as int), chunk_idx * chunk_size),
            forall|o: int|
                0 <= o < items@.len() ==> clock.ensures((), (#[trigger] items@[o]).1.processed_at),
        decreases n - offset,
    {
        let msg: &GroupChatMessage = &chunk[offset];
        let result = moderate_message(msg.content.as_str());
        proof {
            assert(0 <= chunk_idx * chunk_size) by (nonlinear_arith)
                requires
                    0 <= chunk_idx,
                    0 <= chunk_size,
            ;
        }
        let global_idx: usize = chunk_idx * chunk_size + offset;
        let processed_at: i64 = clock();
        let response = build_moderation_response(msg, &result, processed_at);
        items.push((global_idx, response, result.is_violation));
        offset += 1;
    }
    proof {
        assert(chunk@.take(n as int) =~= chunk@);
        chunk_flags_its_violations(items@, chunk@, chunk_idx * chunk_size);
    }
    items
}

/// Moderates one chunk, if there is a verdict on each of its messages.
pub fn checked_moderate_chunk<Clock: Fn() -> i64>(
    chunk_idx: usize,
    chunk_size: usize,
    chunk: &Vec<GroupChatMessage>,
    clock: &Clock,
) -> (items: Option<Vec<IndexedResponse>>)
    requires
        chunk_idx * chunk_size + chunk@.len() <= usize::MAX,
        clock.requires(()),
    ensures
        items is Some <==> forall|o: int|
            0 <= o < chunk@.len() ==> points_fit(lowered((#[trigger] chunk@[o])@.content)),
        items matches Some(items) ==> {
            &&& is_chunk_outcome(items@, chunk@, chunk_idx * chunk_size)
            &&& forall|o: int|
                0 <= o < items@.len() ==> clock.ensures((), (#[trigger] items@[o]).1.processed_at)
            &&& forall|o: int|
                0 <= o < items@.len() ==> (#[trigger] items@[o]).2 == items@[o].1.is_violation
        },
{
    let n: usize = chunk.len();
    let mut i: usize = 0;
    while i < n
        invariant
            n == chunk@.len(),
            i <= n,
            forall|o: int|
                0 <= o < i ==> points_fit(lowered((#[trigger] chunk@[o])@.content)),
        decreases n - i,
    {
        if !has_verdict(chunk[i].content.as_str()) {
            assert(!points_fit(lowered(chunk@[i as int]@.content)));
            return None;
        }
        i += 1;
    }
    Some(moderate_chunk(chunk_idx, chunk_size, chunk, clock))
}

/// Whether the positions of the items never decrease.
pub open spec fn is_ordered(items: Seq<IndexedResponse>) -> bool {
    forall|i: int, j: int|
        0 <= i < j < items.len() ==> (#[trigger] items[i]).0 <= (#[trigger] items[j]).0
}

/// The predicate that an item has the position `index`.
pub open spec fn has_index(index: usize) -> spec_fn(IndexedResponse) -> bool {
    |item: IndexedResponse| item.0 == index
}

/// The items with the position `index`, in order.
pub open spec fn at_index(items: Seq<IndexedResponse>, index: usize) -> Seq<IndexedResponse> {
    items.filter(has_index(index))
}

/// Whether `sorted` is `items` stably sorted by position: the same items in the order of their
/// positions, and those with the same position in the order in which they came.
pub open spec fn is_stable_sort(
    items: Seq<IndexedResponse>,
    sorted: Seq<IndexedResponse>,
) -> bool {
    &&& is_ordered(sorted)
    &&& sorted.to_multiset() == items.to_multiset()
    &&& forall|index: usize| #[trigger] at_index(sorted, index) == at_index(items, index)
}

/// Inserting an item after those with smaller or equal positions and before those with larger
/// ones puts it last among those with its position.
proof fn lemma_insert_is_stable(
    sorted: Seq<IndexedResponse>,
    at: int,
    item: IndexedResponse,
    index: usize,
)
    requires
        0 <= at <= sorted.len(),
        forall|k: int| at <= k < sorted.len() ==> item.0 < (#[trigger] sorted[k]).0,
    ensures
        at_index(sorted.insert(at, item), index) == at_index(sorted.push(item), index),
{
    reveal(Seq::filter);
    let pred = has_index(index);
    let front = sorted.take(at);
    let back = sorted.skip(at);
    assert(sorted =~= front + back);
    assert(sorted.insert(at, item) =~= front.push(item) + back);
    assert(sorted.push(item) =~= (front + back).push(item));
    assert(at_index(front.push(item), index) == if item.0 == index {
        at_index(front, index).push(item)
    } else {
        at_index(front, index)
    }) by {
        assert(front.push(item).drop_last() =~= front);
    }
    Seq::filter_distributes_over_add(front.push(item), back, pred);
    Seq::filter_distributes_over_add(front, back, pred);
    assert(at_index(sorted, index) == at_index(front, index) + at_index(back, index));
    assert(at_index(sorted.insert(at, item), index) == at_index(front.push(item), index)
        + at_index(back, index));
    assert((front + back).push(item).drop_last() =~= front + back);
    if item.0 == index {
        assert forall|k: int| 0 <= k < back.len() implies !pred(#[trigger] back[k]) by {
            assert(back[k] == sorted[at + k]);
        }
        back.lemma_all_neg_filter_empty(pred);
        assert(at_index(back, index) =~= Seq::empty());
        assert(at_index(sorted.insert(at, item), index) =~= at_index(front, index).push(item));
        assert(at_index(sorted.push(item), index) =~= at_index(front, index).push(item));
    }
}

/// Sorts the items by position, and keeps the order of those with the same position.
pub fn sort_by_index(items: Vec<IndexedResponse>) -> (sorted: Vec<IndexedResponse>)
    ensures
        is_stable_sort(items@, sorted@),
{
    let ghost all = items@;
    let mut sorted: Vec<IndexedResponse> = Vec::with_capacity(items.len());
    proof {
        assert(all.take(0) =~= sorted@);
    }
    for item in it: items
        invariant
            it.seq() == all,
            sorted@.len() == it.index(),
            is_stable_sort(all.take(it.index()), sorted@),
    {
        let ghost before = sorted@;
        let ghost came = all.take(it.index());
        let mut at: usize = sorted.len();
        while at > 0 && item.0 < sorted[at - 1].0
            invariant
                at <= sorted@.len(),
                sorted@ == before,
                forall|k: int| at <= k < before.len() ==> item.0 < (#[trigger] before[k]).0,
            decreases at,
        {
            at -= 1;
        }
        sorted.insert(at, item);
        proof {
            reveal(Seq::filter);
            assert(all.take(it.index() + 1) =~= came.push(item));
            assert(is_ordered(sorted@));
            vstd::seq_lib::to_multiset_insert(before, at as int, item);
            vstd::seq_lib::to_multiset_build(came, item);
            assert forall|index: usize| #[trigger]
                at_index(sorted@, index) == at_index(came.push(item), index) by {
                lemma_insert_is_stable(before, at as int, item, index);
                assert(at_index(before, index) == at_index(came, index));
                assert(before.push(item).drop_last() =~= before);
                assert(came.push(item).drop_last() =~= came);
            }
        }
    }
    proof {
        assert(all.take(all.len() as int) =~= all);
    }
    sorted
}

/// How many of the items are violations.
pub open spec fn count_violations(items: Seq<IndexedResponse>) -> nat {
    items.filter(|item: IndexedResponse| item.2).len()
}

/// The responses of the items, in order.
pub open spec fn responses_of(items: Seq<IndexedResponse>) -> Seq<ModerationResponse> {
    items.map_values(|item: IndexedResponse| item.1)
}

/// Puts the answers, which may have come in any order, in the order of the messages, and counts
/// the violations.
pub fn collect_results(items: Vec<IndexedResponse>) -> (collected: (
    Vec<ModerationResponse>,
    usize,
))
    ensures
        exists|sorted: Seq<IndexedResponse>| #[trigger]
            is_stable_sort(items@, sorted) && collected.0@ == responses_of(sorted) && collected.1
                == count_violations(sorted),
{
    let sorted = sort_by_index(items);
    let ghost all = sorted@;
    let mut results: Vec<ModerationResponse> = Vec::with_capacity(sorted.len());
    let mut violation_count: usize = 0;
    proof {
        reveal(Seq::filter);
        assert(count_violations(all.take(0)) == 0);
    }
    for item in it: sorted
        invariant
            it.seq() == all,
            all.len() <= usize::MAX,
            results@ == responses_of(all.take(it.index())),
            violation_count == count_violations(all.take(it.index())),
            violation_count <= it.index(),
    {
        proof {
            reveal(Seq::filter);
            let i = it.index();
            assert(all.take(i + 1).drop_last() =~= all.take(i));
            assert(all.take(i + 1).last() == item);
            assert(responses_of(all.take(i + 1)) =~= responses_of(all.take(i)).push(item.1));
        }
        let (_, response, is_violation) = item;
        if is_violation {
            violation_count += 1;
        }
        results.push(response);
    }
    proof {
        assert(all.take(all.len() as int) =~= all);
    }
    (results, violation_count)
}

/// The answer to a batch with the given results.
pub fn batch_response(
    results: Vec<ModerationResponse>,
    violation_count: usize,
    duration_ms: u64,
) -> (response: ApiResponse<BatchModerationResponse>)
    ensures
        response.code == 200,
        response.message@ == "success"@,
        response.data matches Some(data) && data.results@ == results@ && data.total
            == results@.len() && data.violation_count == violation_count && data.duration_ms
            == duration_ms,
{
    let total: usize = results.len();
    ApiResponse::success(
        BatchModerationResponse { results, total, violation_count, duration_ms },
    )
}

/// Whether `data` answers the messages in order, each at a time that the clock gave.
pub open spec fn answers_in_order<Clock: Fn() -> i64>(
    data: BatchModerationResponse,
    messages: Seq<GroupChatMessage>,
    clock: Clock,
) -> bool {
    &&& data.results@.len() == messages.len()
    &&& data.total == messages.len()
    &&& data.violation_count == messages.filter(|m: GroupChatMessage| is_violating(m)).len()
    &&& forall|i: int|
        0 <= i < messages.len() ==> {
            let result = #[trigger] data.results@[i];
            &&& result@ == response_to(
                messages[i]@,
                verdict(lowered(messages[i]@.content)),
                result.processed_at,
            )
            &&& clock.ensures((), result.processed_at)
        }
}

/// Whether `outcome` is what a batch is answered.
pub open spec fn answers_batch<Clock: Fn() -> i64, Timer: Fn() -> u64>(
    outcome: Result<ApiResponse<BatchModerationResponse>, AppError>,
    messages: Seq<GroupChatMessage>,
    clock: Clock,
    timer: Timer,
) -> bool {
    match outcome {
        Ok(response) => {
            &&& batch_refusal(messages.len()) is None
            &&& response.code == 200
            &&& response.message@ == "success"@
            &&& response.data matches Some(data)
            &&& answers_in_order(data, with_content(messages), clock)
            &&& timer.ensures((), data.duration_ms)
        },
        Err(e) => batch_refusal(messages.len()) == Some(e@),
    }
}

/// Moderates messages, one chunk after the other.
fn moderate_in_chunks<Clock: Fn() -> i64>(
    messages: Vec<GroupChatMessage>,
    chunk_size: usize,
    clock: &Clock,
) -> (items: Vec<IndexedResponse>)
    requires
        chunk_size > 0,
        forall|i: int|
            0 <= i < messages@.len() ==> points_fit(
                lowered((#[trigger] messages@[i])@.content),
            ),
        clock.requires(()),
    ensures
        is_chunk_outcome(items@, messages@, 0),
        forall|i: int|
            0 <= i < items@.len() ==> clock.ensures((), (#[trigger] items@[i]).1.processed_at),
{
    let ghost all = messages@;
    let ghost size = chunk_size as int;
    let mut items: Vec<IndexedResponse> = Vec::with_capacity(messages.len());
    proof {
        assert(all.len() <= usize::MAX);
    }
    let chunks = split_chunks(messages, chunk_size);
    let n: usize = chunks.len();
    let mut k: usize = 0;
    proof {
        lemma_div_pos_is_pos(all.len() + size - 1, size);
        assert(rows(chunks@).len() == n);
        if n == 0 {
            chunks_put_together_are_the_items(all, size);
            assert(chunks_of(all, size) =~= Seq::empty());
        }
    }
    while k < n
        invariant
            n == chunks@.len(),
            k <= n,
            size == chunk_size,
            size > 0,
            all.len() <= usize::MAX,
            rows(chunks@) == chunks_of(all, size),
            n == chunk_count(all.len() as int, size),
            forall|i: int|
                0 <= i < all.len() ==> points_fit(lowered((#[trigger] all[i])@.content)),
            clock.requires(()),
            items@.len() == if k < n {
                k * size
            } else {
                all.len() as int
            },
            items@.len() <= all.len(),
            is_chunk_outcome(items@, all.take(items@.len() as int), 0),
            forall|i: int|
                0 <= i < items@.len() ==> clock.ensures((), (#[trigger] items@[i]).1.processed_at),
        decreases n - k,
    {
        let chunk: &Vec<GroupChatMessage> = &chunks[k];
        let ghost start = k * size;
        proof {
            assert(rows(chunks@)[k as int] == chunk@);
            assert(chunk@ == chunks_of(all, size)[k as int]);
            lemma_chunk_bounds(all.len() as int, size, k as int);
            assert((k + 1) * size == start + size) by (nonlinear_arith)
                requires
                    start == k * size,
            ;
            assert forall|o: int| 0 <= o < chunk@.len() implies #[trigger] chunk@[o] == all[start
                + o] && points_fit(lowered(chunk@[o]@.content)) by {
                assert(points_fit(lowered(all[start + o]@.content)));
            }
        }
        let mut outcome = moderate_chunk(k, chunk_size, chunk, clock);
        let ghost before = items@;
        let ghost added = outcome@;
        items.append(&mut outcome);
        k += 1;
        proof {
            let done = items@.len() as int;
            assert(items@ =~= before + added);
            assert forall|i: int| 0 <= i < done implies (#[trigger] items@[i]).0 == i
                && answers_message(items@[i], all[i]@) && clock.ensures(
                (),
                items@[i].1.processed_at,
            ) by {
                if i < start {
                    assert(items@[i] == before[i]);
                } else {
                    assert(items@[i] == added[i - start]);
                    assert(chunk@[i - start] == all[i]);
                }
            }
        }
    }
    proof {
        assert(all.take(items@.len() as int) =~= all);
    }
    items
}

/// Answers the request to moderate a batch, one chunk after the other. The timer is read when
/// the results have been put in order.
pub fn moderate_batch<Clock: Fn() -> i64, Timer: Fn() -> u64>(
    req: BatchModerationRequest,
    chunk_size: usize,
    clock: &Clock,
    timer: &Timer,
) -> (outcome: Result<ApiResponse<BatchModerationResponse>, AppError>)
    requires
        batch_refusal(req.messages@.len()) is None ==> chunk_size > 0,
        batch_refusal(req.messages@.len()) is None ==> forall|i: int|
            0 <= i < req.messages@.len() && (#[trigger] req.messages@[i])@.content.len() > 0
                ==> points_fit(lowered(req.messages@[i]@.content)),
        clock.requires(()),
        timer.requires(()),
    ensures
        answers_batch(outcome, req.messages@, *clock, *timer),
        outcome matches Ok(response) ==> (response.data matches Some(data) && data.total
            == data.results@.len() && data.violation_count == data.results@.filter(
            |r: ModerationResponse| r.is_violation,
        ).len()),
{
    match validate_batch(&req) {
        Ok(_) => {},
        Err(e) => {
            return Err(e);
        },
    }
    let ghost all = req.messages@;
    let selected = select_messages(req.messages);
    let ghost messages = selected@;
    proof {
        messages_without_content_are_skipped(all);
        assert forall|i: int| 0 <= i < messages.len() implies points_fit(
            lowered((#[trigger] messages[i])@.content),
        ) by {
            assert(with_content(all).contains(messages[i]));
            let j = choose|j: int| 0 <= j < all.len() && all[j] == messages[i];
            assert(points_fit(lowered(all[j]@.content)));
        }
    }
    let items = moderate_in_chunks(selected, chunk_size, clock);
    let ghost numbered = items@;
    let (results, violation_count) = collect_results(items);
    let ghost collected = results@;
    let duration_ms: u64 = timer();
    let response = batch_response(results, violation_count, duration_ms);
    proof {
        let data = response.data->0;
        let sorted = choose|sorted: Seq<IndexedResponse>| #[trigger]
            is_stable_sort(numbered, sorted) && collected == responses_of(sorted)
                && violation_count == count_violations(sorted);
        lemma_numbered_items_have_one_order(numbered, sorted);
        lemma_violations_counted(numbered, messages);
        assert forall|i: int| 0 <= i < messages.len() implies {
            let result = #[trigger] data.results@[i];
            &&& result@ == response_to(
                messages[i]@,
                verdict(lowered(messages[i]@.content)),
                result.processed_at,
            )
            &&& clock.ensures((), result.processed_at)
        } by {
            assert(data.results@[i] == numbered[i].1);
        }
        batch_counts_the_results_that_are_violations(data, messages, *clock);
    }
    Ok(response)
}

/// Answers the request to moderate a batch, if there is a verdict on each of its messages.
pub fn checked_moderate_batch<Clock: Fn() -> i64, Timer: Fn() -> u64>(
    req: BatchModerationRequest,
    chunk_size: usize,
    clock: &Clock,
    timer: &Timer,
) -> (outcome: Option<Result<ApiResponse<BatchModerationResponse>, AppError>>)
    requires
        batch_refusal(req.messages@.len()) is None ==> chunk_size > 0,
        clock.requires(()),
        timer.requires(()),
    ensures
        outcome is None <==> batch_refusal(req.messages@.len()) is None && exists|i: int|
            0 <= i < req.messages@.len() && (#[trigger] req.messages@[i])@.content.len() > 0
                && !points_fit(lowered(req.messages@[i]@.content)),
        outcome matches Some(answer) ==> answers_batch(answer, req.messages@, *clock, *timer),
        outcome matches Some(Ok(response)) ==> (response.data matches Some(data) && data.total
            == data.results@.len() && data.violation_count == data.results@.filter(
            |r: ModerationResponse| r.is_violation,
        ).len()),
{
    match validate_batch(&req) {
        Ok(_) => {},
        Err(e) => {
            return Some(Err(e));
        },
    }
    let n: usize = req.messages.len();
    let mut i: usize = 0;
    while i < n
        invariant
            n == req.messages@.len(),
            i <= n,
            batch_refusal(req.messages@.len()) is None,
            forall|o: int|
                0 <= o < i && (#[trigger] req.messages@[o])@.content.len() > 0 ==> points_fit(
                    lowered(req.messages@[o]@.content),
                ),
        decreases n - i,
    {
        let content = req.messages[i].content.as_str();
        if !content.is_empty() && !has_verdict(content) {
            assert(!points_fit(lowered(req.messages@[i as int]@.content)));
            return None;
        }
        i += 1;
    }
    Some(moderate_batch(req, chunk_size, clock, timer))
}

} // verus!
