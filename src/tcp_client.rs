//! The engine around the device link: the request and response queues, the
//! identifier allocator, the standing poller, the correlation pass and the
//! connection decisions. The threads, locks, sockets and clocks that drive
//! it belong to the caller.

use vstd::prelude::*;
use crate::codec::{digit_char, joined_text};
use crate::hottoh_const::{Command, CommandType};
use crate::hottoh_structs::CommandData;
use crate::shared_struct::{SharedState, SharedStateView};
use crate::hottoh_structs::texts;
use crate::tcp_client_structs::{
    decoded_from, frame_accepted, same_params, split_on, split_text, string_texts, Request,
    RequestView, Response, ResponseError, ResponseView,
};

verus! {

/// Identifiers wrap below this bound.
pub const REQUEST_ID_BOUND: u32 = 100000;

/// A sent request unanswered for longer than this is dropped.
pub const REQUEST_TIMEOUT_MS: u64 = 5000;

/// The views of the requests of a queue.
pub open spec fn request_views(q: Seq<Request>) -> Seq<RequestView> {
    q.map_values(|r: Request| r@)
}

/// The views of the responses of a queue.
pub open spec fn response_views(q: Seq<Response>) -> Seq<ResponseView> {
    q.map_values(|r: Response| r@)
}

/// The elements of `s` that satisfy `p`, in order.
pub open spec fn keep<A>(s: Seq<A>, p: spec_fn(A) -> bool) -> Seq<A>
    decreases s.len(),
{
    if s.len() == 0 {
        s
    } else if p(s.last()) {
        keep(s.drop_last(), p).push(s.last())
    } else {
        keep(s.drop_last(), p)
    }
}

proof fn lemma_keep_concat<A>(a: Seq<A>, b: Seq<A>, p: spec_fn(A) -> bool)
    ensures
        keep(a + b, p) == keep(a, p) + keep(b, p),
    decreases b.len(),
{
    if b.len() == 0 {
        assert(a + b =~= a);
        assert(keep(b, p) =~= Seq::<A>::empty());
        assert(keep(a, p) + keep(b, p) =~= keep(a, p));
    } else {
        lemma_keep_concat(a, b.drop_last(), p);
        assert((a + b).drop_last() =~= a + b.drop_last());
        assert((a + b).last() == b.last());
        if p(b.last()) {
            assert(keep(a, p) + keep(b.drop_last(), p).push(b.last()) =~= (keep(a, p) + keep(
                b.drop_last(),
                p,
            )).push(b.last()));
        }
    }
}

proof fn lemma_keep_all<A>(s: Seq<A>, p: spec_fn(A) -> bool)
    requires
        forall|i: int| 0 <= i < s.len() ==> p(#[trigger] s[i]),
    ensures
        keep(s, p) == s,
    decreases s.len(),
{
    if s.len() > 0 {
        assert forall|i: int| 0 <= i < s.drop_last().len() implies p(#[trigger] s.drop_last()[i]) by {
            assert(s.drop_last()[i] == s[i]);
        }
        lemma_keep_all(s.drop_last(), p);
        assert(s.drop_last().push(s.last()) =~= s);
    }
}

proof fn lemma_keep_remove<A>(s: Seq<A>, i: int, p: spec_fn(A) -> bool)
    requires
        0 <= i < s.len(),
        !p(s[i]),
    ensures
        keep(s.remove(i), p) == keep(s, p),
{
    let a = s.subrange(0, i);
    let b = s.subrange(i + 1, s.len() as int);
    assert(s =~= a + seq![s[i]] + b);
    assert(s.remove(i) =~= a + b);
    lemma_keep_concat(a, b, p);
    lemma_keep_concat(a + seq![s[i]], b, p);
    lemma_keep_concat(a, seq![s[i]], p);
    let one = seq![s[i]];
    assert(one.last() == s[i]);
    assert(one.drop_last() =~= Seq::<A>::empty());
    assert(keep(one.drop_last(), p) == one.drop_last());
    assert(keep(one, p) =~= Seq::<A>::empty());
    assert(keep(a, p) + Seq::<A>::empty() =~= keep(a, p));
}

/// The requests not marked as deleted.
pub open spec fn live_requests(q: Seq<RequestView>) -> Seq<RequestView> {
    keep(q, |r: RequestView| !r.marked_as_deleted)
}

/// The responses not marked as deleted.
pub open spec fn live_responses(q: Seq<ResponseView>) -> Seq<ResponseView> {
    keep(q, |r: ResponseView| !r.marked_as_deleted)
}

/// The identifier allocated after `id`.
pub open spec fn next_id(id: u32) -> u32 {
    ((id + 1) % (REQUEST_ID_BOUND as int)) as u32
}

/// Takes the next identifier: returns the counter and advances it,
/// wrapping below `REQUEST_ID_BOUND`.
pub fn next_request_id(counter: &mut u32) -> (r: u32)
    ensures
        r == *old(counter),
        *final(counter) == next_id(*old(counter)),
{
    let id = *counter;
    *counter = ((id as u64 + 1) % (REQUEST_ID_BOUND as u64)) as u32;
    id
}

/// Appends `request` to the queue.
pub fn send_request(request: Request, request_queue: &mut Vec<Request>)
    ensures
        request_views(final(request_queue)@) == request_views(old(request_queue)@).push(request@),
{
    request_queue.push(request);
    assert(request_views(request_queue@) =~= request_views(old(request_queue)@).push(request@));
}

/// Whether a live request of the queue asks for `command`, `command_type`
/// and `params`, whatever its identifier.
pub open spec fn has_live_query(
    q: Seq<RequestView>,
    command: Command,
    command_type: CommandType,
    params: Seq<Seq<char>>,
) -> bool {
    exists|i: int|
        0 <= i < q.len() && !q[i].marked_as_deleted && q[i].command == command && q[i].command_type
            == command_type && #[trigger] q[i].params == params
}

/// Whether a request not marked as deleted asks the same thing.
pub fn already_existing_request(
    command: &Command,
    command_type: &CommandType,
    params: &[String],
    request_queue: &Vec<Request>,
) -> (r: bool)
    ensures
        r == has_live_query(
            request_views(request_queue@),
            *command,
            *command_type,
            string_texts(params@),
        ),
{
    let ghost q = request_views(request_queue@);
    let mut i: usize = 0;
    while i < request_queue.len()
        invariant
            i <= request_queue@.len(),
            q == request_views(request_queue@),
            forall|k: int|
                0 <= k < i ==> !(!q[k].marked_as_deleted && q[k].command == *command
                    && q[k].command_type == *command_type && #[trigger] q[k].params
                    == string_texts(params@)),
        decreases request_queue@.len() - i,
    {
        let r = &request_queue[i];
        if !r.is_marked_as_deleted() && *r.get_command() == *command && *r.get_command_type()
            == *command_type && same_params(r.get_params().as_slice(), params) {
            assert(q[i as int].params == string_texts(params@));
            return true;
        }
        i = i + 1;
    }
    false
}

/// A request as it is first queued.
pub open spec fn fresh_request(
    req_id: u32,
    command: Command,
    command_type: CommandType,
    params: Seq<Seq<char>>,
) -> RequestView {
    RequestView {
        req_id,
        command,
        command_type,
        params,
        sent: false,
        sent_at: None,
        marked_as_deleted: false,
    }
}

/// Queues a new request under the next identifier and returns that
/// identifier. Nothing is deduplicated.
pub fn submit(
    command: Command,
    command_type: CommandType,
    params: Vec<String>,
    request_queue: &mut Vec<Request>,
    counter: &mut u32,
) -> (r: u32)
    ensures
        r == *old(counter),
        *final(counter) == next_id(*old(counter)),
        request_views(final(request_queue)@) == request_views(old(request_queue)@).push(
            fresh_request(r, command, command_type, string_texts(params@)),
        ),
{
    let id = next_request_id(counter);
    send_request(Request::new(id, command, command_type, params), request_queue);
    id
}

/// The queue and counter after asking for a query only when no live
/// request already asks for it.
pub open spec fn enqueue_model(
    q: Seq<RequestView>,
    counter: u32,
    command: Command,
    command_type: CommandType,
    params: Seq<Seq<char>>,
) -> (Seq<RequestView>, u32) {
    if has_live_query(q, command, command_type, params) {
        (q, counter)
    } else {
        (q.push(fresh_request(counter, command, command_type, params)), next_id(counter))
    }
}

/// Queues a request for the query under the next identifier unless a live
/// request already asks for it; returns whether it queued one.
pub fn enqueue_if_absent(
    command: Command,
    command_type: CommandType,
    params: Vec<String>,
    request_queue: &mut Vec<Request>,
    counter: &mut u32,
) -> (r: bool)
    ensures
        r == !has_live_query(
            request_views(old(request_queue)@),
            command,
            command_type,
            string_texts(params@),
        ),
        (request_views(final(request_queue)@), *final(counter)) == enqueue_model(
            request_views(old(request_queue)@),
            *old(counter),
            command,
            command_type,
            string_texts(params@),
        ),
{
    if already_existing_request(&command, &command_type, params.as_slice(), request_queue) {
        false
    } else {
        submit(command, command_type, params, request_queue, counter);
        true
    }
}

/// The command of standing query `k` (device information, then the three
/// data pages).
pub open spec fn standing_command(k: nat) -> Command {
    if k == 0 {
        Command::Inf
    } else {
        Command::Dat
    }
}

/// The parameters of standing query `k`: none, then the page number.
pub open spec fn standing_params(k: nat) -> Seq<Seq<char>> {
    if k == 0 {
        seq![]
    } else {
        seq![seq![digit_char((k - 1) as nat)]]
    }
}

/// The queue and counter after the first `k` standing queries.
pub open spec fn poll_model(q: Seq<RequestView>, counter: u32, k: nat) -> (Seq<RequestView>, u32)
    decreases k,
{
    if k == 0 {
        (q, counter)
    } else {
        let prev = poll_model(q, counter, (k - 1) as nat);
        enqueue_model(
            prev.0,
            prev.1,
            standing_command((k - 1) as nat),
            CommandType::Read,
            standing_params((k - 1) as nat),
        )
    }
}

fn standing_query_params(k: usize) -> (r: Vec<String>)
    requires
        k < 4,
    ensures
        string_texts(r@) == standing_params(k as nat),
{
    let mut r: Vec<String> = Vec::new();
    if k == 0 {
        assert(string_texts(r@) =~= standing_params(k as nat));
        return r;
    }
    let page = if k == 1 {
        "0"
    } else if k == 2 {
        "1"
    } else {
        "2"
    };
    proof {
        reveal_strlit("0");
        reveal_strlit("1");
        reveal_strlit("2");
    }
    assert(page@ =~= seq![digit_char((k - 1) as nat)]);
    r.push(String::from_str(page));
    assert(string_texts(r@) =~= standing_params(k as nat));
    r
}

/// One round of the poller: makes sure that a live Read request for the
/// device information and for each of the three data pages is queued.
pub fn periodic_requests(request_queue: &mut Vec<Request>, counter: &mut u32)
    ensures
        (request_views(final(request_queue)@), *final(counter)) == poll_model(
            request_views(old(request_queue)@),
            *old(counter),
            4,
        ),
{
    let mut k: usize = 0;
    while k < 4
        invariant
            k <= 4,
            (request_views(request_queue@), *counter) == poll_model(
                request_views(old(request_queue)@),
                *old(counter),
                k as nat,
            ),
        decreases 4 - k,
    {
        let command = if k == 0 {
            Command::Inf
        } else {
            Command::Dat
        };
        let params = standing_query_params(k);
        enqueue_if_absent(command, CommandType::Read, params, request_queue, counter);
        k = k + 1;
    }
}

proof fn lemma_enqueue_makes_live(
    q: Seq<RequestView>,
    counter: u32,
    command: Command,
    command_type: CommandType,
    params: Seq<Seq<char>>,
)
    ensures
        has_live_query(enqueue_model(q, counter, command, command_type, params).0, command, command_type, params),
        forall|other_command: Command, other_type: CommandType, other_params: Seq<Seq<char>>|
            has_live_query(q, other_command, other_type, other_params) ==> #[trigger] has_live_query(
                enqueue_model(q, counter, command, command_type, params).0,
                other_command,
                other_type,
                other_params,
            ),
{
    let grown = enqueue_model(q, counter, command, command_type, params).0;
    if !has_live_query(q, command, command_type, params) {
        assert(grown[q.len() as int].params == params);
    }
    assert forall|other_command: Command, other_type: CommandType, other_params: Seq<Seq<char>>|
        has_live_query(q, other_command, other_type, other_params) implies #[trigger] has_live_query(grown, other_command, other_type, other_params) by {
        let i = choose|i: int|
            0 <= i < q.len() && !q[i].marked_as_deleted && q[i].command == other_command && q[i].command_type
                == other_type && #[trigger] q[i].params == other_params;
        assert(grown[i].params == other_params);
    }
}

proof fn lemma_poll_leaves_live(q: Seq<RequestView>, counter: u32, k: nat)
    requires
        k <= 4,
    ensures
        forall|j: nat|
            j < k ==> #[trigger] has_live_query(
                poll_model(q, counter, k).0,
                standing_command(j),
                CommandType::Read,
                standing_params(j),
            ),
    decreases k,
{
    if k > 0 {
        lemma_poll_leaves_live(q, counter, (k - 1) as nat);
        let prev = poll_model(q, counter, (k - 1) as nat);
        lemma_enqueue_makes_live(
            prev.0,
            prev.1,
            standing_command((k - 1) as nat),
            CommandType::Read,
            standing_params((k - 1) as nat),
        );
    }
}

proof fn lemma_poll_unchanged(q: Seq<RequestView>, counter: u32, k: nat)
    requires
        k <= 4,
        forall|j: nat|
            j < 4 ==> #[trigger] has_live_query(
                q,
                standing_command(j),
                CommandType::Read,
                standing_params(j),
            ),
    ensures
        poll_model(q, counter, k) == (q, counter),
    decreases k,
{
    if k > 0 {
        lemma_poll_unchanged(q, counter, (k - 1) as nat);
        assert(has_live_query(
            q,
            standing_command((k - 1) as nat),
            CommandType::Read,
            standing_params((k - 1) as nat),
        ));
    }
}

/// Standing requests are deduplicated: once a round of the poller has run,
/// a second round queues nothing and leaves the counter as it is.
pub proof fn lemma_second_poll_is_noop(q: Seq<RequestView>, counter: u32)
    ensures
        ({
            let first = poll_model(q, counter, 4);
            poll_model(first.0, first.1, 4) == first
        }),
{
    let first = poll_model(q, counter, 4);
    lemma_poll_leaves_live(q, counter, 4);
    lemma_poll_unchanged(first.0, first.1, 4);
}

/// Whether some request of the queue carries identifier `id`.
pub open spec fn has_request_id(q: Seq<RequestView>, id: u32) -> bool {
    exists|i: int| 0 <= i < q.len() && #[trigger] q[i].req_id == id
}

/// The responses after the orphan check: a live response whose identifier
/// no request carries is marked as deleted.
pub open spec fn discard_orphans_model(
    reqs: Seq<RequestView>,
    resps: Seq<ResponseView>,
) -> Seq<ResponseView> {
    Seq::new(
        resps.len(),
        |j: int|
            if !resps[j].marked_as_deleted && !has_request_id(reqs, resps[j].req_id) {
                ResponseView { marked_as_deleted: true, ..resps[j] }
            } else {
                resps[j]
            },
    )
}

/// The first live response from position `from` on that carries `id`.
pub open spec fn first_live_match(resps: Seq<ResponseView>, id: u32, from: int) -> Option<int>
    decreases resps.len() - from,
{
    if from < 0 || from >= resps.len() {
        None
    } else if !resps[from].marked_as_deleted && resps[from].req_id == id {
        Some(from)
    } else {
        first_live_match(resps, id, from + 1)
    }
}

/// Whether a sent request has waited more than `REQUEST_TIMEOUT_MS` at `now_ms`.
pub open spec fn timed_out(r: RequestView, now_ms: u64) -> bool {
    r.sent && (r.sent_at matches Some(t) && t <= now_ms && now_ms - t > REQUEST_TIMEOUT_MS)
}

/// The device-state record after a validated payload: its category is
/// replaced; an acknowledgement changes nothing.
pub open spec fn apply_payload(s: SharedStateView, d: CommandData) -> SharedStateView {
    match d {
        CommandData::Inf(v) => SharedStateView { inf: v, ..s },
        CommandData::Dat0(v) => SharedStateView { dat0: v, ..s },
        CommandData::Dat1(v) => SharedStateView { dat1: v, ..s },
        CommandData::Dat2(v) => SharedStateView { dat2: v, ..s },
        CommandData::DATReqResponse(_) => s,
    }
}

/// Both queues and the device-state record.
pub struct Pipeline {
    pub requests: Seq<RequestView>,
    pub responses: Seq<ResponseView>,
    pub state: SharedStateView,
}

/// Settles request `i`: a deleted one is skipped; a timed-out one is
/// marked as deleted; otherwise its first live matching response, if any,
/// closes it: both are marked as deleted, and the payload is applied when
/// the checksum is valid.
pub open spec fn settle_step(p: Pipeline, now_ms: u64, i: int) -> Pipeline {
    let r = p.requests[i];
    if r.marked_as_deleted {
        p
    } else if timed_out(r, now_ms) {
        Pipeline {
            requests: p.requests.update(i, RequestView { marked_as_deleted: true, ..r }),
            ..p
        }
    } else {
        match first_live_match(p.responses, r.req_id, 0) {
            None => p,
            Some(j) => Pipeline {
                requests: p.requests.update(i, RequestView { marked_as_deleted: true, ..r }),
                responses: p.responses.update(
                    j,
                    ResponseView { marked_as_deleted: true, ..p.responses[j] },
                ),
                state: if p.responses[j].crc_is_valid {
                    apply_payload(p.state, p.responses[j].command_data)
                } else {
                    p.state
                },
            },
        }
    }
}

/// The pipeline after settling the first `k` requests in order.
pub open spec fn settle_upto(p: Pipeline, now_ms: u64, k: nat) -> Pipeline
    decreases k,
{
    if k == 0 {
        p
    } else {
        settle_step(settle_upto(p, now_ms, (k - 1) as nat), now_ms, k - 1)
    }
}

/// One correlation pass before compaction: the orphan check, then every
/// request settled in order.
pub open spec fn correlation_model(
    reqs: Seq<RequestView>,
    resps: Seq<ResponseView>,
    state: SharedStateView,
    now_ms: u64,
) -> Pipeline {
    settle_upto(
        Pipeline { requests: reqs, responses: discard_orphans_model(reqs, resps), state },
        now_ms,
        reqs.len(),
    )
}

/// Whether a request of the queue carries `id`.
fn has_request(requests: &Vec<Request>, id: u32) -> (r: bool)
    ensures
        r == has_request_id(request_views(requests@), id),
{
    let ghost q = request_views(requests@);
    let mut i: usize = 0;
    while i < requests.len()
        invariant
            i <= requests@.len(),
            q == request_views(requests@),
            forall|k: int| 0 <= k < i ==> #[trigger] q[k].req_id != id,
        decreases requests@.len() - i,
    {
        if requests[i].get_req_id() == id {
            assert(q[i as int].req_id == id);
            return true;
        }
        i = i + 1;
    }
    false
}

/// Marks as deleted each live response whose identifier no request carries.
pub fn discard_orphans(requests: &Vec<Request>, responses: &mut Vec<Response>)
    ensures
        response_views(final(responses)@) == discard_orphans_model(
            request_views(requests@),
            response_views(old(responses)@),
        ),
{
    let ghost reqs = request_views(requests@);
    let ghost target = discard_orphans_model(reqs, response_views(old(responses)@));
    let mut j: usize = 0;
    while j < responses.len()
        invariant
            j <= responses@.len() == old(responses)@.len(),
            reqs == request_views(requests@),
            target == discard_orphans_model(reqs, response_views(old(responses)@)),
            forall|k: int| 0 <= k < j ==> #[trigger] response_views(responses@)[k] == target[k],
            forall|k: int|
                j <= k < responses@.len() ==> #[trigger] responses@[k] == old(responses)@[k],
        decreases responses@.len() - j,
    {
        let ghost before = responses@;
        if !responses[j].is_marked_as_deleted() {
            let id = responses[j].get_req_id();
            if !has_request(requests, id) {
                responses[j].set_marked_as_deleted(true);
            }
        }
        assert(response_views(responses@)[j as int] == target[j as int]);
        assert forall|k: int| 0 <= k < responses@.len() && k != j implies #[trigger] responses@[k]
            == before[k] by {}
        assert forall|k: int| 0 <= k < j + 1 implies #[trigger] response_views(responses@)[k]
            == target[k] by {
            if k < j {
                assert(responses@[k] == before[k]);
                assert(response_views(before)[k] == target[k]);
            }
        }
        j = j + 1;
    }
    assert(response_views(responses@) =~= target);
}

proof fn lemma_first_live_match(resps: Seq<ResponseView>, id: u32, from: int)
    ensures
        first_live_match(resps, id, from) matches Some(j) ==> from <= j < resps.len()
            && !resps[j].marked_as_deleted && resps[j].req_id == id,
    decreases resps.len() - from,
{
    if 0 <= from < resps.len() {
        lemma_first_live_match(resps, id, from + 1);
    }
}

/// The first live response that carries `id`.
fn find_live_response(responses: &Vec<Response>, id: u32) -> (r: Option<usize>)
    ensures
        r matches Some(j) ==> first_live_match(response_views(responses@), id, 0) == Some(j as int),
        r is None ==> first_live_match(response_views(responses@), id, 0) is None,
{
    let ghost q = response_views(responses@);
    let mut j: usize = 0;
    while j < responses.len()
        invariant
            j <= responses@.len(),
            q == response_views(responses@),
            first_live_match(q, id, 0) == first_live_match(q, id, j as int),
        decreases responses@.len() - j,
    {
        if !responses[j].is_marked_as_deleted() && responses[j].get_req_id() == id {
            return Some(j);
        }
        j = j + 1;
    }
    None
}

/// Writes a validated payload into its category of the record.
pub fn apply_response(state: &mut SharedState, data: &CommandData)
    ensures
        final(state)@ == apply_payload(old(state)@, *data),
{
    match data {
        CommandData::Inf(v) => state.set_inf(v),
        CommandData::Dat0(v) => state.set_dat0(v),
        CommandData::Dat1(v) => state.set_dat1(v),
        CommandData::Dat2(v) => state.set_dat2(v),
        CommandData::DATReqResponse(_) => {},
    }
}

/// Whether request `r` has timed out at `now_ms`.
fn is_timed_out(r: &Request, now_ms: u64) -> (b: bool)
    ensures
        b == timed_out(r@, now_ms),
{
    if !r.is_sent() {
        return false;
    }
    match r.get_sent_at() {
        Some(t) => t <= now_ms && now_ms - t > REQUEST_TIMEOUT_MS,
        None => false,
    }
}

/// Settles request `i` (see `settle_step`).
pub fn settle_request(
    requests: &mut Vec<Request>,
    i: usize,
    responses: &mut Vec<Response>,
    state: &mut SharedState,
    now_ms: u64,
) -> (expired: bool)
    requires
        i < old(requests)@.len(),
    ensures
        expired == (!old(requests)@[i as int]@.marked_as_deleted && timed_out(
            old(requests)@[i as int]@,
            now_ms,
        )),
        final(requests)@.len() == old(requests)@.len(),
        (Pipeline {
            requests: request_views(final(requests)@),
            responses: response_views(final(responses)@),
            state: final(state)@,
        }) == settle_step(
            Pipeline {
                requests: request_views(old(requests)@),
                responses: response_views(old(responses)@),
                state: old(state)@,
            },
            now_ms,
            i as int,
        ),
{
    let ghost p = Pipeline {
        requests: request_views(requests@),
        responses: response_views(responses@),
        state: state@,
    };
    if requests[i].is_marked_as_deleted() {
        return false;
    }
    if is_timed_out(&requests[i], now_ms) {
        requests[i].set_marked_as_deleted(true);
        assert(request_views(requests@) =~= p.requests.update(
            i as int,
            RequestView { marked_as_deleted: true, ..p.requests[i as int] },
        ));
        return true;
    }
    let id = requests[i].get_req_id();
    assert(p.requests[i as int].req_id == id);
    proof {
        lemma_first_live_match(p.responses, id, 0);
    }
    match find_live_response(responses, id) {
        None => {
            assert(first_live_match(p.responses, p.requests[i as int].req_id, 0) is None);
        },
        Some(j) => {
            assert(first_live_match(p.responses, p.requests[i as int].req_id, 0) == Some(j as int));
            if responses[j].is_crc_valid() {
                apply_response(state, responses[j].get_command_data());
            }
            assert(state@ == (if p.responses[j as int].crc_is_valid {
                apply_payload(p.state, p.responses[j as int].command_data)
            } else {
                p.state
            }));
            responses[j].set_marked_as_deleted(true);
            requests[i].set_marked_as_deleted(true);
            assert(request_views(requests@) =~= p.requests.update(
                i as int,
                RequestView { marked_as_deleted: true, ..p.requests[i as int] },
            ));
            assert(response_views(responses@) =~= p.responses.update(
                j as int,
                ResponseView { marked_as_deleted: true, ..p.responses[j as int] },
            ));
        },
    }
    false
}

/// Removes from both queues every entry marked as deleted, keeping the
/// order of the rest.
pub fn clean_queues(requests: &mut Vec<Request>, responses: &mut Vec<Response>)
    ensures
        request_views(final(requests)@) == live_requests(request_views(old(requests)@)),
        response_views(final(responses)@) == live_responses(response_views(old(responses)@)),
{
    let mut i: usize = 0;
    while i < requests.len()
        invariant
            i <= requests@.len(),
            live_requests(request_views(requests@)) == live_requests(
                request_views(old(requests)@),
            ),
            forall|k: int| 0 <= k < i ==> !(#[trigger] requests@[k])@.marked_as_deleted,
        decreases requests@.len() - i,
    {
        if requests[i].is_marked_as_deleted() {
            let ghost before = request_views(requests@);
            requests.remove(i);
            proof {
                assert(request_views(requests@) =~= before.remove(i as int));
                lemma_keep_remove(before, i as int, |r: RequestView| !r.marked_as_deleted);
            }
        } else {
            i = i + 1;
        }
    }
    proof {
        lemma_keep_all(request_views(requests@), |r: RequestView| !r.marked_as_deleted);
    }
    let mut j: usize = 0;
    while j < responses.len()
        invariant
            j <= responses@.len(),
            live_responses(response_views(responses@)) == live_responses(
                response_views(old(responses)@),
            ),
            forall|k: int| 0 <= k < j ==> !(#[trigger] responses@[k])@.marked_as_deleted,
        decreases responses@.len() - j,
    {
        if responses[j].is_marked_as_deleted() {
            let ghost before = response_views(responses@);
            responses.remove(j);
            proof {
                assert(response_views(responses@) =~= before.remove(j as int));
                lemma_keep_remove(before, j as int, |r: ResponseView| !r.marked_as_deleted);
            }
        } else {
            j = j + 1;
        }
    }
    proof {
        lemma_keep_all(response_views(responses@), |r: ResponseView| !r.marked_as_deleted);
    }
}

/// The identifiers of the live requests that have timed out at `now_ms`.
pub open spec fn timed_out_ids(reqs: Seq<RequestView>, now_ms: u64) -> Seq<u32> {
    keep(reqs, |r: RequestView| !r.marked_as_deleted && timed_out(r, now_ms)).map_values(
        |r: RequestView| r.req_id,
    )
}

/// One correlation cycle at `now_ms`: the orphan check, every request
/// settled in order, then both queues compacted. Returns the identifiers of
/// the requests dropped for want of an answer.
pub fn manage_messages(
    requests: &mut Vec<Request>,
    responses: &mut Vec<Response>,
    state: &mut SharedState,
    now_ms: u64,
) -> (expired: Vec<u32>)
    ensures
        expired@ == timed_out_ids(request_views(old(requests)@), now_ms),
        ({
            let p = correlation_model(
                request_views(old(requests)@),
                response_views(old(responses)@),
                old(state)@,
                now_ms,
            );
            &&& request_views(final(requests)@) == live_requests(p.requests)
            &&& response_views(final(responses)@) == live_responses(p.responses)
            &&& final(state)@ == p.state
        }),
{
    let ghost reqs0 = request_views(requests@);
    let ghost initial = Pipeline {
        requests: reqs0,
        responses: discard_orphans_model(reqs0, response_views(responses@)),
        state: state@,
    };
    let ghost expiring = |r: RequestView| !r.marked_as_deleted && timed_out(r, now_ms);
    discard_orphans(requests, responses);
    let n = requests.len();
    let mut expired: Vec<u32> = Vec::new();
    let mut i: usize = 0;
    assert(reqs0.subrange(0, 0) =~= Seq::<RequestView>::empty());
    assert(expired@ =~= keep(reqs0.subrange(0, 0), expiring).map_values(|r: RequestView| r.req_id));
    while i < n
        invariant
            i <= n == requests@.len(),
            initial.requests.len() == n,
            initial.requests == reqs0,
            expiring == (|r: RequestView| !r.marked_as_deleted && timed_out(r, now_ms)),
            (Pipeline {
                requests: request_views(requests@),
                responses: response_views(responses@),
                state: state@,
            }) == settle_upto(initial, now_ms, i as nat),
            expired@ == keep(reqs0.subrange(0, i as int), expiring).map_values(
                |r: RequestView| r.req_id,
            ),
        decreases n - i,
    {
        proof {
            lemma_settle_upto_frame(initial, now_ms, i as nat);
        }
        assert(settle_upto(initial, now_ms, i as nat).requests[i as int] == reqs0[i as int]);
        assert(request_views(requests@)[i as int] == requests@[i as int]@);
        assert(requests@[i as int]@ == reqs0[i as int]);
        let ghost before = expired@;
        let id = requests[i].get_req_id();
        let gone = settle_request(requests, i, responses, state, now_ms);
        assert(reqs0.subrange(0, i + 1).drop_last() =~= reqs0.subrange(0, i as int));
        assert(reqs0.subrange(0, i + 1).last() == reqs0[i as int]);
        if gone {
            expired.push(id);
            assert(expired@ =~= keep(reqs0.subrange(0, i + 1), expiring).map_values(
                |r: RequestView| r.req_id,
            ));
        } else {
            assert(keep(reqs0.subrange(0, i + 1), expiring) == keep(reqs0.subrange(0, i as int), expiring));
        }
        i = i + 1;
    }
    assert(reqs0.subrange(0, n as int) =~= reqs0);
    clean_queues(requests, responses);
    expired
}

proof fn lemma_settle_upto_frame(p: Pipeline, now_ms: u64, k: nat)
    requires
        k <= p.requests.len(),
    ensures
        settle_upto(p, now_ms, k).requests.len() == p.requests.len(),
        settle_upto(p, now_ms, k).responses.len() == p.responses.len(),
        forall|m: int|
            k <= m < p.requests.len() ==> #[trigger] settle_upto(p, now_ms, k).requests[m]
                == p.requests[m],
        forall|j: int|
            0 <= j < p.responses.len() && p.responses[j].marked_as_deleted
                ==> #[trigger] settle_upto(p, now_ms, k).responses[j] == p.responses[j],
    decreases k,
{
    if k > 0 {
        let q = settle_upto(p, now_ms, (k - 1) as nat);
        lemma_settle_upto_frame(p, now_ms, (k - 1) as nat);
        let r = q.requests[k - 1];
        if !r.marked_as_deleted && !timed_out(r, now_ms) {
            lemma_first_live_match(q.responses, r.req_id, 0);
        }
    }
}

proof fn lemma_settle_upto_keeps(p: Pipeline, now_ms: u64, k1: nat, k2: nat, m: int)
    requires
        0 <= m < k1 <= k2 <= p.requests.len(),
    ensures
        settle_upto(p, now_ms, k2).requests[m] == settle_upto(p, now_ms, k1).requests[m],
    decreases k2,
{
    if k2 > k1 {
        lemma_settle_upto_keeps(p, now_ms, k1, (k2 - 1) as nat, m);
        lemma_settle_upto_frame(p, now_ms, (k2 - 1) as nat);
    }
}

/// Timeout eviction: a live request sent more than `REQUEST_TIMEOUT_MS`
/// before `now_ms` comes out of the pass marked as deleted, so compaction
/// drops it.
pub proof fn lemma_timeout_eviction(
    reqs: Seq<RequestView>,
    resps: Seq<ResponseView>,
    state: SharedStateView,
    now_ms: u64,
    i: int,
)
    requires
        0 <= i < reqs.len(),
        !reqs[i].marked_as_deleted,
        timed_out(reqs[i], now_ms),
    ensures
        correlation_model(reqs, resps, state, now_ms).requests[i] == (RequestView {
            marked_as_deleted: true,
            ..reqs[i]
        }),
{
    let initial = Pipeline { requests: reqs, responses: discard_orphans_model(reqs, resps), state };
    lemma_settle_upto_frame(initial, now_ms, i as nat);
    lemma_settle_upto_frame(initial, now_ms, (i + 1) as nat);
    lemma_settle_upto_keeps(initial, now_ms, (i + 1) as nat, reqs.len(), i);
}

proof fn lemma_settle_upto_state(p: Pipeline, now_ms: u64, k: nat)
    requires
        k <= p.requests.len(),
        forall|j: int|
            0 <= j < p.responses.len() && (#[trigger] p.responses[j]).crc_is_valid
                ==> p.responses[j].marked_as_deleted,
    ensures
        settle_upto(p, now_ms, k).state == p.state,
        forall|j: int|
            0 <= j < p.responses.len() && (#[trigger] settle_upto(
                p,
                now_ms,
                k,
            ).responses[j]).crc_is_valid ==> settle_upto(p, now_ms, k).responses[j].marked_as_deleted,
    decreases k,
{
    if k > 0 {
        let q = settle_upto(p, now_ms, (k - 1) as nat);
        lemma_settle_upto_state(p, now_ms, (k - 1) as nat);
        lemma_settle_upto_frame(p, now_ms, (k - 1) as nat);
        let r = q.requests[k - 1];
        if !r.marked_as_deleted && !timed_out(r, now_ms) {
            lemma_first_live_match(q.responses, r.req_id, 0);
            let grown = settle_step(q, now_ms, k - 1);
            assert forall|j: int|
                0 <= j < p.responses.len() && (#[trigger] grown.responses[j]).crc_is_valid
                    implies grown.responses[j].marked_as_deleted by {
                assert(q.responses[j].crc_is_valid == grown.responses[j].crc_is_valid);
            }
        }
    }
}

/// Only validated payloads reach the device-state record: when every
/// response with a valid checksum is already deleted or carries an
/// identifier that no request carries, the pass leaves the record as it
/// was. In particular an invalid checksum or an orphan never changes it.
pub proof fn lemma_state_only_from_valid_matches(
    reqs: Seq<RequestView>,
    resps: Seq<ResponseView>,
    state: SharedStateView,
    now_ms: u64,
)
    requires
        forall|j: int|
            0 <= j < resps.len() && (#[trigger] resps[j]).crc_is_valid
                ==> resps[j].marked_as_deleted || !has_request_id(reqs, resps[j].req_id),
    ensures
        correlation_model(reqs, resps, state, now_ms).state == state,
{
    let initial = Pipeline { requests: reqs, responses: discard_orphans_model(reqs, resps), state };
    assert forall|j: int|
        0 <= j < initial.responses.len() && (#[trigger] initial.responses[j]).crc_is_valid
            implies initial.responses[j].marked_as_deleted by {
        assert(resps[j].crc_is_valid);
    }
    lemma_settle_upto_state(initial, now_ms, reqs.len());
}

/// A response closes out the live request that it answers whatever its
/// checksum; with an invalid checksum the device-state record stays as it
/// was.
pub proof fn lemma_invalid_checksum_closes_request(
    r: RequestView,
    resp: ResponseView,
    state: SharedStateView,
    now_ms: u64,
)
    requires
        !r.marked_as_deleted,
        !timed_out(r, now_ms),
        !resp.marked_as_deleted,
        resp.req_id == r.req_id,
        !resp.crc_is_valid,
    ensures
        ({
            let p = correlation_model(seq![r], seq![resp], state, now_ms);
            &&& p.requests == seq![RequestView { marked_as_deleted: true, ..r }]
            &&& p.responses == seq![ResponseView { marked_as_deleted: true, ..resp }]
            &&& p.state == state
        }),
{
    let reqs = seq![r];
    let resps = seq![resp];
    assert(reqs[0].req_id == resp.req_id);
    assert(has_request_id(reqs, resp.req_id));
    let initial = Pipeline { requests: reqs, responses: discard_orphans_model(reqs, resps), state };
    assert(initial.responses =~= resps);
    assert(first_live_match(initial.responses, r.req_id, 0) == Some(0int));
    assert(settle_upto(initial, now_ms, 1) == settle_step(settle_upto(initial, now_ms, 0), now_ms, 0));
    let p = settle_upto(initial, now_ms, 1);
    assert(p.requests =~= seq![RequestView { marked_as_deleted: true, ..r }]);
    assert(p.responses =~= seq![ResponseView { marked_as_deleted: true, ..resp }]);
}

/// Orphan discard: a live response whose identifier no request carries
/// comes out of the pass marked as deleted, so compaction drops it.
pub proof fn lemma_orphan_discarded(
    reqs: Seq<RequestView>,
    resps: Seq<ResponseView>,
    state: SharedStateView,
    now_ms: u64,
    j: int,
)
    requires
        0 <= j < resps.len(),
        !has_request_id(reqs, resps[j].req_id),
    ensures
        correlation_model(reqs, resps, state, now_ms).responses[j] == (ResponseView {
            marked_as_deleted: true,
            ..resps[j]
        }),
{
    let initial = Pipeline { requests: reqs, responses: discard_orphans_model(reqs, resps), state };
    lemma_settle_upto_frame(initial, now_ms, reqs.len());
}

/// The frames in a chunk read from the link: the pieces between `#`
/// delimiters, empty ones dropped, each prefixed with `#` again.
pub open spec fn chunk_frames(chunk: Seq<char>) -> Seq<Seq<char>> {
    keep(split_on(chunk, '#'), |p: Seq<char>| p.len() > 0).map_values(
        |p: Seq<char>| seq!['#'] + p,
    )
}

/// Splits a chunk read from the link into frames (see `chunk_frames`).
pub fn frames_from_chunk(chunk: &str) -> (r: Vec<String>)
    ensures
        string_texts(r@) == chunk_frames(chunk@),
{
    let pieces = split_text(chunk, '#');
    let ghost ps = texts(pieces@);
    let ghost nonempty = |p: Seq<char>| p.len() > 0;
    let ghost prefix = |p: Seq<char>| seq!['#'] + p;
    let mut out: Vec<String> = Vec::new();
    let mut i: usize = 0;
    assert(ps.subrange(0, 0) =~= Seq::<Seq<char>>::empty());
    assert(string_texts(out@) =~= keep(ps.subrange(0, 0), nonempty).map_values(prefix));
    while i < pieces.len()
        invariant
            i <= pieces@.len(),
            ps == texts(pieces@),
            nonempty == (|p: Seq<char>| p.len() > 0),
            prefix == (|p: Seq<char>| seq!['#'] + p),
            string_texts(out@) == keep(ps.subrange(0, i as int), nonempty).map_values(prefix),
        decreases pieces@.len() - i,
    {
        let ghost before = out@;
        let piece = pieces[i];
        assert(ps.subrange(0, i + 1).drop_last() =~= ps.subrange(0, i as int));
        assert(ps.subrange(0, i + 1).last() == piece@);
        if piece.unicode_len() > 0 {
            let frame = joined_text("#", piece);
            proof {
                reveal_strlit("#");
            }
            assert("#"@ =~= seq!['#']);
            assert(frame@ =~= seq!['#'] + piece@);
            out.push(frame);
            assert(string_texts(out@) =~= string_texts(before).push(seq!['#'] + piece@));
            assert(keep(ps.subrange(0, i + 1), nonempty) == keep(ps.subrange(0, i as int), nonempty).push(piece@));
            assert(keep(ps.subrange(0, i + 1), nonempty).map_values(prefix) =~= keep(
                ps.subrange(0, i as int),
                nonempty,
            ).map_values(prefix).push(seq!['#'] + piece@));
        } else {
            assert(keep(ps.subrange(0, i + 1), nonempty) == keep(ps.subrange(0, i as int), nonempty));
        }
        i = i + 1;
    }
    assert(ps.subrange(0, pieces@.len() as int) =~= ps);
    out
}

/// Decodes every frame of a chunk read from the link and appends the
/// responses to the queue in order; returns the frames that did not decode,
/// each with its error.
pub fn ingest_chunk(chunk: &str, responses: &mut Vec<Response>) -> (rejected: Vec<
    (String, ResponseError),
>)
    ensures
        ({
            let frames = chunk_frames(chunk@);
            let good = keep(frames, |m: Seq<char>| frame_accepted(m));
            let bad = keep(frames, |m: Seq<char>| !frame_accepted(m));
            let n0 = old(responses)@.len();
            &&& final(responses)@.len() == n0 + good.len()
            &&& final(responses)@.subrange(0, n0 as int) == old(responses)@
            &&& forall|k: int|
                0 <= k < good.len() ==> decoded_from(
                    #[trigger] final(responses)@[n0 + k]@,
                    good[k],
                )
            &&& rejected@.map_values(|e: (String, ResponseError)| e.0@) == bad
        }),
{
    let frames = frames_from_chunk(chunk);
    let ghost fs = string_texts(frames@);
    let ghost acc = |m: Seq<char>| frame_accepted(m);
    let ghost rej = |m: Seq<char>| !frame_accepted(m);
    let ghost n0 = responses@.len();
    let mut rejected: Vec<(String, ResponseError)> = Vec::new();
    let mut i: usize = 0;
    assert(fs.subrange(0, 0) =~= Seq::<Seq<char>>::empty());
    assert(rejected@.map_values(|e: (String, ResponseError)| e.0@) =~= keep(fs.subrange(0, 0), rej));
    assert(responses@.subrange(0, n0 as int) =~= old(responses)@);
    while i < frames.len()
        invariant
            i <= frames@.len(),
            fs == string_texts(frames@),
            fs == chunk_frames(chunk@),
            acc == (|m: Seq<char>| frame_accepted(m)),
            rej == (|m: Seq<char>| !frame_accepted(m)),
            n0 == old(responses)@.len(),
            responses@.len() == n0 + keep(fs.subrange(0, i as int), acc).len(),
            responses@.subrange(0, n0 as int) == old(responses)@,
            forall|k: int|
                0 <= k < keep(fs.subrange(0, i as int), acc).len() ==> decoded_from(
                    #[trigger] responses@[n0 + k]@,
                    keep(fs.subrange(0, i as int), acc)[k],
                ),
            rejected@.map_values(|e: (String, ResponseError)| e.0@) == keep(
                fs.subrange(0, i as int),
                rej,
            ),
        decreases frames@.len() - i,
    {
        let ghost before = responses@;
        let ghost before_rej = rejected@;
        let frame = frames[i].as_str();
        let ghost sub = fs.subrange(0, i as int);
        assert(fs.subrange(0, i + 1).drop_last() =~= sub);
        assert(fs.subrange(0, i + 1).last() == frame@);
        match Response::from_message(frame) {
            Ok(resp) => {
                responses.push(resp);
                assert(keep(fs.subrange(0, i + 1), acc) == keep(sub, acc).push(frame@));
                assert(keep(fs.subrange(0, i + 1), rej) == keep(sub, rej));
                assert(responses@.subrange(0, n0 as int) =~= old(responses)@) by {
                    assert(before.subrange(0, n0 as int) == old(responses)@);
                }
                assert forall|k: int| 0 <= k < keep(fs.subrange(0, i + 1), acc).len() implies decoded_from(
                    #[trigger] responses@[n0 + k]@,
                    keep(fs.subrange(0, i + 1), acc)[k],
                ) by {
                    if k < keep(sub, acc).len() {
                        assert(responses@[n0 + k] == before[n0 + k]);
                    }
                }
            },
            Err(e) => {
                rejected.push((String::from_str(frame), e));
                assert(keep(fs.subrange(0, i + 1), acc) == keep(sub, acc));
                assert(keep(fs.subrange(0, i + 1), rej) == keep(sub, rej).push(frame@));
                assert(rejected@.map_values(|e: (String, ResponseError)| e.0@) =~= before_rej.map_values(
                    |e: (String, ResponseError)| e.0@,
                ).push(frame@));
            },
        }
        i = i + 1;
    }
    assert(fs.subrange(0, frames@.len() as int) =~= fs);
    rejected
}

/// Where the link stands.
#[derive(Clone, Copy, Debug, PartialEq, Eq, Structural)]
pub enum LinkState {
    /// No connection; the next step is a connect attempt.
    Disconnected,
    /// Connected; `last_sent_ms` is when the last request went out, or when
    /// the connection was made.
    Connected { last_sent_ms: u64 },
    /// Shut down; nothing more is done.
    Stopped,
}

/// What the link reports after performing the last action.
#[derive(Clone, Copy, Debug, PartialEq, Eq, Structural)]
pub enum LinkOutcome {
    /// A loop boundary; whether the front request exists and is unsent.
    Tick { front_unsent: bool },
    /// The connect attempt succeeded.
    ConnectOk,
    /// The connect attempt failed.
    ConnectFailed,
    /// The front request was written.
    SendOk,
    /// The write would block; it is tried again at the next boundary.
    SendWouldBlock,
    /// The write failed.
    SendFailed,
    /// The read returned (data, nothing, or would block).
    ReceiveOk,
    /// The read failed.
    ReceiveFailed,
}

/// An outcome with the shutdown flag and the time at which it was observed.
#[derive(Clone, Copy, Debug, PartialEq, Eq, Structural)]
pub struct LinkEvent {
    pub running: bool,
    pub now_ms: u64,
    pub outcome: LinkOutcome,
}

/// What the link does next.
#[derive(Clone, Copy, Debug, PartialEq, Eq, Structural)]
pub enum LinkAction {
    /// Attempt a connection.
    Connect,
    /// Write the front request and mark it sent.
    SendFront,
    /// Read what has arrived, without blocking.
    Receive,
    /// Wait this many milliseconds, then report a boundary.
    Pause(u64),
    /// Report a boundary at once.
    Continue,
    /// Leave the loop.
    Exit,
}

/// Interval between two writes.
pub const SEND_INTERVAL_MS: u64 = 1000;

/// Interval between two reads.
pub const RECEIVE_INTERVAL_MS: u64 = 200;

/// Wait before a new connect attempt.
pub const RECONNECT_DELAY_MS: u64 = 5000;

/// The connection decisions: the next state and action after `e` in state `s`.
pub open spec fn link_next(s: LinkState, e: LinkEvent) -> (LinkState, LinkAction) {
    if !e.running {
        (LinkState::Stopped, LinkAction::Exit)
    } else {
        match (s, e.outcome) {
            (LinkState::Disconnected, LinkOutcome::Tick { .. }) => (s, LinkAction::Connect),
            (LinkState::Disconnected, LinkOutcome::ConnectOk) => (
                LinkState::Connected { last_sent_ms: e.now_ms },
                LinkAction::Receive,
            ),
            (LinkState::Disconnected, LinkOutcome::ConnectFailed) => (
                s,
                LinkAction::Pause(RECONNECT_DELAY_MS),
            ),
            (LinkState::Connected { last_sent_ms }, LinkOutcome::Tick { front_unsent }) => if front_unsent
                && last_sent_ms <= e.now_ms && e.now_ms - last_sent_ms >= SEND_INTERVAL_MS {
                (s, LinkAction::SendFront)
            } else {
                (s, LinkAction::Receive)
            },
            (LinkState::Connected { .. }, LinkOutcome::SendOk) => (
                LinkState::Connected { last_sent_ms: e.now_ms },
                LinkAction::Receive,
            ),
            (LinkState::Connected { .. }, LinkOutcome::SendWouldBlock) => (s, LinkAction::Continue),
            (LinkState::Connected { .. }, LinkOutcome::ReceiveOk) => (
                s,
                LinkAction::Pause(RECEIVE_INTERVAL_MS),
            ),
            (LinkState::Connected { .. }, LinkOutcome::SendFailed) => (
                LinkState::Disconnected,
                LinkAction::Pause(RECONNECT_DELAY_MS),
            ),
            (LinkState::Connected { .. }, LinkOutcome::ReceiveFailed) => (
                LinkState::Disconnected,
                LinkAction::Pause(RECONNECT_DELAY_MS),
            ),
            _ => (LinkState::Stopped, LinkAction::Exit),
        }
    }
}

/// Decides the link's next state and action (see `link_next`). A write is
/// only asked for on a live connection whose front request is unsent and
/// whose last write is at least `SEND_INTERVAL_MS` old; any I/O failure
/// leads back to a fresh connect attempt after `RECONNECT_DELAY_MS`; a
/// cleared running flag stops the link at once; an outcome that cannot
/// follow the state's last action stops it too.
pub fn link_step(state: LinkState, event: LinkEvent) -> (r: (LinkState, LinkAction))
    ensures
        r == link_next(state, event),
        r.1 == LinkAction::SendFront ==> event.running && state is Connected,
        !event.running ==> r == (LinkState::Stopped, LinkAction::Exit),
{
    if !event.running {
        return (LinkState::Stopped, LinkAction::Exit);
    }
    match (state, event.outcome) {
        (LinkState::Disconnected, LinkOutcome::Tick { .. }) => (state, LinkAction::Connect),
        (LinkState::Disconnected, LinkOutcome::ConnectOk) => (
            LinkState::Connected { last_sent_ms: event.now_ms },
            LinkAction::Receive,
        ),
        (LinkState::Disconnected, LinkOutcome::ConnectFailed) => (
            state,
            LinkAction::Pause(RECONNECT_DELAY_MS),
        ),
        (LinkState::Connected { last_sent_ms }, LinkOutcome::Tick { front_unsent }) => {
            if front_unsent && last_sent_ms <= event.now_ms && event.now_ms - last_sent_ms
                >= SEND_INTERVAL_MS {
                (state, LinkAction::SendFront)
            } else {
                (state, LinkAction::Receive)
            }
        },
        (LinkState::Connected { .. }, LinkOutcome::SendOk) => (
            LinkState::Connected { last_sent_ms: event.now_ms },
            LinkAction::Receive,
        ),
        (LinkState::Connected { .. }, LinkOutcome::SendWouldBlock) => (
            state,
            LinkAction::Continue,
        ),
        (LinkState::Connected { .. }, LinkOutcome::ReceiveOk) => (
            state,
            LinkAction::Pause(RECEIVE_INTERVAL_MS),
        ),
        (LinkState::Connected { .. }, LinkOutcome::SendFailed) => (
            LinkState::Disconnected,
            LinkAction::Pause(RECONNECT_DELAY_MS),
        ),
        (LinkState::Connected { .. }, LinkOutcome::ReceiveFailed) => (
            LinkState::Disconnected,
            LinkAction::Pause(RECONNECT_DELAY_MS),
        ),
        _ => (LinkState::Stopped, LinkAction::Exit),
    }
}

/// The frame to write now, if the front request exists and is unsent.
pub fn front_frame_to_send(requests: &Vec<Request>) -> (r: Option<Vec<u8>>)
    ensures
        requests@.len() > 0 && !requests@[0]@.sent ==> (r matches Some(b) && b@
            == vstd::utf8::encode_utf8(requests@[0]@.wire_text())),
        !(requests@.len() > 0 && !requests@[0]@.sent) ==> r is None,
{
    if requests.len() > 0 && !requests[0].is_sent() {
        Some(requests[0].build_message())
    } else {
        None
    }
}

/// Records that the front request went out at `now_ms`.
pub fn mark_front_sent(requests: &mut Vec<Request>, now_ms: u64)
    ensures
        old(requests)@.len() > 0 ==> request_views(final(requests)@) == request_views(
            old(requests)@,
        ).update(0, old(requests)@[0]@.after_send(now_ms)),
        old(requests)@.len() == 0 ==> final(requests)@ == old(requests)@,
{
    if requests.len() > 0 {
        requests[0].mark_as_sent(now_ms);
        assert(request_views(requests@) =~= request_views(old(requests)@).update(
            0,
            old(requests)@[0]@.after_send(now_ms),
        ));
    }
}

/// The handles that the link, the correlation pass and the poller share:
/// the request queue, the response queue and the running flag, in whatever
/// synchronised form the caller chose.
pub struct TcpClient<Q, R, F> {
    pub request_queue: Q,
    pub response_queue: R,
    pub running: F,
}

impl<Q, R, F> TcpClient<Q, R, F> {
    pub fn new(request_queue: Q, response_queue: R, running: F) -> (r: Self)
        ensures
            r.request_queue == request_queue,
            r.response_queue == response_queue,
            r.running == running,
    {
        TcpClient { request_queue, response_queue, running }
    }
}

proof fn lemma_keep_members<A>(s: Seq<A>, p: spec_fn(A) -> bool)
    ensures
        forall|j: int|
            0 <= j < keep(s, p).len() ==> exists|k: int|
                0 <= k < s.len() && s[k] == #[trigger] keep(s, p)[j] && p(s[k]),
    decreases s.len(),
{
    if s.len() > 0 {
        let pre = s.drop_last();
        lemma_keep_members(pre, p);
        assert forall|j: int| 0 <= j < keep(s, p).len() implies exists|k: int|
            0 <= k < s.len() && s[k] == #[trigger] keep(s, p)[j] && p(s[k]) by {
            if j < keep(pre, p).len() {
                let k = choose|k: int| 0 <= k < pre.len() && pre[k] == keep(pre, p)[j] && p(pre[k]);
                assert(s[k] == pre[k]);
            } else {
                assert(s[s.len() - 1] == s.last());
            }
        }
    }
}

proof fn lemma_settle_upto_shape(p: Pipeline, now_ms: u64, k: nat)
    requires
        k <= p.requests.len(),
    ensures
        settle_upto(p, now_ms, k).requests.len() == p.requests.len(),
        settle_upto(p, now_ms, k).responses.len() == p.responses.len(),
        forall|m: int|
            0 <= m < p.requests.len() ==> {
                let x = #[trigger] settle_upto(p, now_ms, k).requests[m];
                &&& x.req_id == p.requests[m].req_id
                &&& !x.marked_as_deleted ==> x == p.requests[m]
            },
        forall|j: int|
            0 <= j < p.responses.len() ==> {
                let x = #[trigger] settle_upto(p, now_ms, k).responses[j];
                &&& x.req_id == p.responses[j].req_id
                &&& !x.marked_as_deleted ==> x == p.responses[j]
            },
    decreases k,
{
    if k > 0 {
        let q = settle_upto(p, now_ms, (k - 1) as nat);
        lemma_settle_upto_shape(p, now_ms, (k - 1) as nat);
        let r = q.requests[k - 1];
        if !r.marked_as_deleted && !timed_out(r, now_ms) {
            lemma_first_live_match(q.responses, r.req_id, 0);
        }
    }
}

proof fn lemma_settle_upto_keeps_deleted(p: Pipeline, now_ms: u64, k1: nat, k2: nat, j: int)
    requires
        k1 <= k2 <= p.requests.len(),
        0 <= j < p.responses.len(),
        settle_upto(p, now_ms, k1).responses[j].marked_as_deleted,
    ensures
        settle_upto(p, now_ms, k2).responses[j] == settle_upto(p, now_ms, k1).responses[j],
    decreases k2,
{
    if k2 > k1 {
        lemma_settle_upto_keeps_deleted(p, now_ms, k1, (k2 - 1) as nat, j);
        let q = settle_upto(p, now_ms, (k2 - 1) as nat);
        lemma_settle_upto_frame(p, now_ms, (k2 - 1) as nat);
        let r = q.requests[k2 - 1];
        if !r.marked_as_deleted && !timed_out(r, now_ms) {
            lemma_first_live_match(q.responses, r.req_id, 0);
        }
    }
}

/// Timeout eviction, after compaction: when no other request carries the
/// identifier of a live request that has timed out, no request with that
/// identifier is left in the compacted queue, and every request left was
/// already queued before the pass.
pub proof fn lemma_timed_out_request_gone(
    reqs: Seq<RequestView>,
    resps: Seq<ResponseView>,
    state: SharedStateView,
    now_ms: u64,
    i: int,
)
    requires
        0 <= i < reqs.len(),
        !reqs[i].marked_as_deleted,
        timed_out(reqs[i], now_ms),
        forall|k: int| 0 <= k < reqs.len() && k != i ==> #[trigger] reqs[k].req_id != reqs[i].req_id,
    ensures
        ({
            let left = live_requests(correlation_model(reqs, resps, state, now_ms).requests);
            forall|x: RequestView| #[trigger] left.contains(x) ==> x.req_id != reqs[i].req_id
                && reqs.contains(x)
        }),
{
    let initial = Pipeline { requests: reqs, responses: discard_orphans_model(reqs, resps), state };
    let p = correlation_model(reqs, resps, state, now_ms);
    lemma_timeout_eviction(reqs, resps, state, now_ms, i);
    lemma_settle_upto_shape(initial, now_ms, reqs.len());
    let live = |r: RequestView| !r.marked_as_deleted;
    lemma_keep_members(p.requests, live);
    let left = live_requests(p.requests);
    assert forall|x: RequestView| #[trigger] left.contains(x) implies x.req_id != reqs[i].req_id
        && reqs.contains(x) by {
        let j = choose|j: int| 0 <= j < left.len() && left[j] == x;
        let k = choose|k: int|
            0 <= k < p.requests.len() && p.requests[k] == #[trigger] keep(p.requests, live)[j] && live(
                p.requests[k],
            );
        assert(p.requests[k] == reqs[k]);
        assert(k != i);
    }
}

/// Orphan discard, after compaction: when no request carries the identifier
/// of a response, no response with that identifier is left in the
/// compacted queue.
pub proof fn lemma_orphan_gone(
    reqs: Seq<RequestView>,
    resps: Seq<ResponseView>,
    state: SharedStateView,
    now_ms: u64,
    j: int,
)
    requires
        0 <= j < resps.len(),
        !has_request_id(reqs, resps[j].req_id),
    ensures
        ({
            let left = live_responses(correlation_model(reqs, resps, state, now_ms).responses);
            forall|x: ResponseView| #[trigger] left.contains(x) ==> x.req_id != resps[j].req_id
        }),
{
    let initial = Pipeline { requests: reqs, responses: discard_orphans_model(reqs, resps), state };
    let p = correlation_model(reqs, resps, state, now_ms);
    lemma_settle_upto_shape(initial, now_ms, reqs.len());
    let live = |r: ResponseView| !r.marked_as_deleted;
    lemma_keep_members(p.responses, live);
    let left = live_responses(p.responses);
    assert forall|x: ResponseView| #[trigger] left.contains(x) implies x.req_id
        != resps[j].req_id by {
        let m = choose|m: int| 0 <= m < left.len() && left[m] == x;
        let k = choose|k: int|
            0 <= k < p.responses.len() && p.responses[k] == #[trigger] keep(p.responses, live)[m]
                && live(p.responses[k]);
        assert(p.responses[k] == initial.responses[k]);
        assert(has_request_id(reqs, resps[k].req_id));
    }
}

proof fn lemma_lone_response_untouched(
    initial: Pipeline,
    now_ms: u64,
    i: int,
    k: nat,
)
    requires
        0 <= i < initial.requests.len(),
        k <= i,
        initial.responses.len() == 1,
        forall|m: int|
            0 <= m < initial.requests.len() && m != i ==> #[trigger] initial.requests[m].req_id
                != initial.responses[0].req_id,
    ensures
        settle_upto(initial, now_ms, k).responses == initial.responses,
    decreases k,
{
    if k > 0 {
        lemma_lone_response_untouched(initial, now_ms, i, (k - 1) as nat);
        let q = settle_upto(initial, now_ms, (k - 1) as nat);
        lemma_settle_upto_shape(initial, now_ms, (k - 1) as nat);
        let r = q.requests[k - 1];
        assert(r.req_id == initial.requests[k - 1].req_id);
        assert(first_live_match(q.responses, r.req_id, 1) is None);
    }
}

/// Integrity failure: a response with an invalid checksum, alone in its
/// queue, closes out the live request that it answers when no other request
/// carries that identifier, whatever else the request queue holds; neither
/// is left after compaction and the device-state record is unchanged.
pub proof fn lemma_invalid_checksum_closes_its_request(
    reqs: Seq<RequestView>,
    resp: ResponseView,
    state: SharedStateView,
    now_ms: u64,
    i: int,
)
    requires
        0 <= i < reqs.len(),
        !reqs[i].marked_as_deleted,
        !timed_out(reqs[i], now_ms),
        forall|k: int| 0 <= k < reqs.len() && k != i ==> #[trigger] reqs[k].req_id != reqs[i].req_id,
        !resp.marked_as_deleted,
        resp.req_id == reqs[i].req_id,
        !resp.crc_is_valid,
    ensures
        ({
            let p = correlation_model(reqs, seq![resp], state, now_ms);
            &&& p.requests[i] == (RequestView { marked_as_deleted: true, ..reqs[i] })
            &&& p.responses == seq![ResponseView { marked_as_deleted: true, ..resp }]
            &&& p.state == state
            &&& live_responses(p.responses).len() == 0
            &&& forall|x: RequestView| #[trigger] live_requests(p.requests).contains(x)
                ==> x.req_id != reqs[i].req_id
        }),
{
    let resps = seq![resp];
    assert(has_request_id(reqs, resp.req_id));
    let initial = Pipeline { requests: reqs, responses: discard_orphans_model(reqs, resps), state };
    assert(initial.responses =~= resps);
    let n = reqs.len();
    lemma_lone_response_untouched(initial, now_ms, i, i as nat);
    lemma_settle_upto_frame(initial, now_ms, i as nat);
    let before = settle_upto(initial, now_ms, i as nat);
    assert(before.requests[i] == reqs[i]);
    assert(first_live_match(before.responses, reqs[i].req_id, 0) == Some(0int));
    let after = settle_upto(initial, now_ms, (i + 1) as nat);
    assert(after.requests[i] == RequestView { marked_as_deleted: true, ..reqs[i] });
    assert(after.responses[0] == ResponseView { marked_as_deleted: true, ..resp });
    lemma_settle_upto_keeps(initial, now_ms, (i + 1) as nat, n, i);
    lemma_settle_upto_frame(initial, now_ms, (i + 1) as nat);
    lemma_settle_upto_keeps_deleted(initial, now_ms, (i + 1) as nat, n, 0);
    let p = correlation_model(reqs, resps, state, now_ms);
    lemma_settle_upto_shape(initial, now_ms, n);
    assert(p.responses =~= seq![ResponseView { marked_as_deleted: true, ..resp }]);
    lemma_state_only_from_valid_matches(reqs, resps, state, now_ms);
    let lr = |r: ResponseView| !r.marked_as_deleted;
    assert(p.responses.drop_last() =~= Seq::<ResponseView>::empty());
    assert(keep(p.responses.drop_last(), lr) == p.responses.drop_last());
    let live = |r: RequestView| !r.marked_as_deleted;
    lemma_keep_members(p.requests, live);
    assert forall|x: RequestView| #[trigger] live_requests(p.requests).contains(x) implies x.req_id
        != reqs[i].req_id by {
        let left = live_requests(p.requests);
        let m = choose|m: int| 0 <= m < left.len() && left[m] == x;
        let k = choose|k: int|
            0 <= k < p.requests.len() && p.requests[k] == #[trigger] keep(p.requests, live)[m]
                && live(p.requests[k]);
        assert(p.requests[k] == reqs[k]);
        assert(k != i);
    }
}

} // verus!
