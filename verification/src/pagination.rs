use vstd::prelude::*;

use crate::error::ApiError;
use crate::objects::{ListObjectsResponse, Object};

verus! {

/// Whether the accumulated item count has reached the caller's cap.
/// A caller that passes no cap is never limited.
pub open spec fn reached_limit(count: nat, limit: Option<usize>) -> bool {
    match limit {
        Some(l) => count >= l,
        None => false,
    }
}

/// The aggregation stop condition, checked after every page: stop once
/// the caller's cap is reached, the server reports no further pages, or
/// the offset has reached the server-reported total. The last guard is
/// defensive: it keeps the walk finite even against a server that
/// reports `has_more` forever.
pub open spec fn spec_stop(
    count: nat,
    limit: Option<usize>,
    has_more: bool,
    offset: nat,
    total: nat,
) -> bool {
    reached_limit(count, limit) || !has_more || offset >= total
}

/// The aggregation loop over a script of page responses, one entry per
/// request in order: starting from `offset` with `acc` already
/// collected, consume pages until the stop condition holds, a response
/// fails, or the script runs dry (a transport that stops answering).
/// A failure discards everything collected so far: all or nothing.
pub open spec fn spec_run(
    script: Seq<Result<ListObjectsResponse, ApiError>>,
    limit: Option<usize>,
    offset: nat,
    acc: Seq<Object>,
) -> Result<Seq<Object>, ApiError>
    decreases script.len(),
{
    if script.len() == 0 {
        Err(ApiError::Transport)
    } else {
        match script[0] {
            Result::Err(e) => Err(e),
            Result::Ok(page) => {
                let acc2 = acc + page.data@;
                let off2 = offset + page.data@.len();
                if spec_stop(
                    acc2.len(),
                    limit,
                    page.pagination.has_more,
                    off2,
                    page.pagination.total as nat,
                ) {
                    Ok(acc2)
                } else {
                    spec_run(script.drop_first(), limit, off2, acc2)
                }
            },
        }
    }
}

/// How many responses of the script the aggregation consumes, counting
/// a failing response as consumed.
pub open spec fn spec_pages_used(
    script: Seq<Result<ListObjectsResponse, ApiError>>,
    limit: Option<usize>,
    offset: nat,
    acc: Seq<Object>,
) -> nat
    decreases script.len(),
{
    if script.len() == 0 {
        0
    } else {
        match script[0] {
            Result::Err(_) => 1,
            Result::Ok(page) => {
                let acc2 = acc + page.data@;
                let off2 = offset + page.data@.len();
                if spec_stop(
                    acc2.len(),
                    limit,
                    page.pagination.has_more,
                    off2,
                    page.pagination.total as nat,
                ) {
                    1
                } else {
                    1 + spec_pages_used(script.drop_first(), limit, off2, acc2)
                }
            },
        }
    }
}

/// The whole aggregation, from an empty collection at offset zero.
pub open spec fn spec_aggregate(
    script: Seq<Result<ListObjectsResponse, ApiError>>,
    limit: Option<usize>,
) -> Result<Seq<Object>, ApiError> {
    spec_run(script, limit, 0, Seq::empty())
}

/// A `Result` of collected items, reduced to its mathematical value.
pub open spec fn result_items(r: Result<Vec<Object>, ApiError>) -> Result<Seq<Object>, ApiError> {
    match r {
        Result::Ok(v) => Ok(v@),
        Result::Err(e) => Err(e),
    }
}

/// Cursor state of an aggregation in progress: the items collected so
/// far, the offset for the next page request, and the caller's cap.
///
/// The transport-owning caller drives it: request a page at
/// `next_offset`, feed the response to `absorb`, and keep going exactly
/// while `absorb` answers `true`.
pub struct Aggregator {
    limit: Option<usize>,
    offset: usize,
    items: Vec<Object>,
}

impl Aggregator {
    /// The caller's cap on the aggregate result size.
    pub closed spec fn spec_limit(&self) -> Option<usize> {
        self.limit
    }

    /// Count of items already fetched; the offset of the next request.
    pub closed spec fn spec_offset(&self) -> nat {
        self.offset as nat
    }

    /// The items collected so far, in page order.
    pub closed spec fn collected(&self) -> Seq<Object> {
        self.items@
    }

    /// The offset equals the count of items collected: it advances by
    /// exactly the size of each absorbed page.
    pub closed spec fn wf(&self) -> bool {
        self.offset == self.items@.len()
    }

    /// Start an aggregation: nothing collected, offset zero.
    pub fn new(limit: Option<usize>) -> (r: Aggregator)
        ensures
            r.wf(),
            r.spec_limit() == limit,
            r.spec_offset() == 0,
            r.collected() == Seq::<Object>::empty(),
    {
        Aggregator { limit, offset: 0, items: Vec::new() }
    }

    /// The offset to request the next page at.
    pub fn next_offset(&self) -> (r: usize)
        ensures
            r == self.spec_offset(),
    {
        self.offset
    }

    /// The caller's cap, forwarded to each page request as a size hint.
    pub fn page_limit(&self) -> (r: Option<usize>)
        ensures
            r == self.spec_limit(),
    {
        self.limit
    }

    /// Take one page in: append its items, advance the offset by their
    /// count, and answer whether another page must be requested. The
    /// answer is `false` exactly when the stop condition holds, so an
    /// empty page with `has_more == false` ends the walk at once and a
    /// page that leaves the offset at the reported total ends it even
    /// if the server still claims more.
    pub fn absorb(&mut self, page: ListObjectsResponse) -> (more: bool)
        requires
            old(self).wf(),
        ensures
            final(self).wf(),
            final(self).spec_limit() == old(self).spec_limit(),
            final(self).collected() == old(self).collected() + page.data@,
            final(self).spec_offset() == old(self).spec_offset() + page.data@.len(),
            more == !spec_stop(
                final(self).collected().len(),
                old(self).spec_limit(),
                page.pagination.has_more,
                final(self).spec_offset(),
                page.pagination.total as nat,
            ),
    {
        let ListObjectsResponse { data, pagination } = page;
        let mut data = data;
        self.items.append(&mut data);
        self.offset = self.items.len();
        let count = self.items.len();
        let at_cap = match self.limit {
            Some(l) => count >= l,
            None => false,
        };
        !at_cap && pagination.has_more && self.offset < pagination.total
    }

    /// Hand the collected items out, in the order the pages gave them.
    pub fn into_items(self) -> (r: Vec<Object>)
        ensures
            r@ == self.collected(),
    {
        self.items
    }
}

/// Run the aggregation loop against an already-recorded script of page
/// responses, one entry per request in order. The result is exactly
/// what the loop specification says: the pages' items concatenated up
/// to the first stop, or the first failure with nothing of the partial
/// collection attached.
#[verifier::loop_isolation(false)]
pub fn aggregate_pages(
    script: Vec<Result<ListObjectsResponse, ApiError>>,
    limit: Option<usize>,
) -> (r: Result<Vec<Object>, ApiError>)
    ensures
        result_items(r) == spec_aggregate(script@, limit),
{
    let ghost full = script@;
    let mut script = script;
    let mut agg = Aggregator::new(limit);
    loop
        invariant
            agg.wf(),
            agg.spec_limit() == limit,
            spec_aggregate(full, limit) == spec_run(
                script@,
                limit,
                agg.spec_offset(),
                agg.collected(),
            ),
        decreases script@.len(),
    {
        if script.len() == 0 {
            return Err(ApiError::Transport);
        }
        let ghost pre = script@;
        let next = script.remove(0);
        proof {
            assert(script@ =~= pre.drop_first());
        }
        match next {
            Result::Err(e) => {
                return Err(e);
            },
            Result::Ok(page) => {
                let more = agg.absorb(page);
                if !more {
                    return Ok(agg.into_items());
                }
            },
        }
    }
}

/// The page of a successful response; meaningless for a failure.
pub open spec fn ok_page(r: Result<ListObjectsResponse, ApiError>) -> ListObjectsResponse
    recommends
        r is Ok,
{
    match r {
        Result::Ok(p) => p,
        Result::Err(_) => arbitrary(),
    }
}

/// The items of a script's pages, concatenated in page order; a failing
/// response contributes nothing.
pub open spec fn pages_concat(script: Seq<Result<ListObjectsResponse, ApiError>>) -> Seq<Object>
    decreases script.len(),
{
    if script.len() == 0 {
        Seq::empty()
    } else {
        (match script[0] {
            Result::Ok(p) => p.data@,
            Result::Err(_) => Seq::empty(),
        }) + pages_concat(script.drop_first())
    }
}

proof fn lemma_run_complete(
    script: Seq<Result<ListObjectsResponse, ApiError>>,
    total: usize,
    offset: nat,
    acc: Seq<Object>,
)
    requires
        script.len() > 0,
        forall|i: int| 0 <= i < script.len() ==> script[i] is Ok,
        forall|i: int| 0 <= i < script.len() ==> ok_page(script[i]).pagination.total == total,
        forall|i: int| 0 <= i < script.len() - 1 ==> ok_page(script[i]).pagination.has_more,
        offset + pages_concat(script).len() == total,
    ensures
        spec_run(script, None, offset, acc) == Ok::<Seq<Object>, ApiError>(
            acc + pages_concat(script),
        ),
    decreases script.len(),
{
    let p0 = ok_page(script[0]);
    let rest = script.drop_first();
    let acc2 = acc + p0.data@;
    let off2 = offset + p0.data@.len();
    assert(pages_concat(script) == p0.data@ + pages_concat(rest));
    if spec_stop(acc2.len(), None, p0.pagination.has_more, off2, p0.pagination.total as nat) {
        assert(pages_concat(rest).len() == 0);
        assert(pages_concat(rest) =~= Seq::<Object>::empty());
        assert(acc + pages_concat(script) =~= acc2);
    } else {
        assert(off2 < total);
        assert(pages_concat(rest).len() > 0);
        assert(rest.len() > 0);
        assert forall|i: int| 0 <= i < rest.len() implies rest[i] is Ok by {
            assert(rest[i] == script[i + 1]);
        }
        assert forall|i: int| 0 <= i < rest.len() implies ok_page(rest[i]).pagination.total
            == total by {
            assert(rest[i] == script[i + 1]);
        }
        assert forall|i: int| 0 <= i < rest.len() - 1 implies ok_page(
            rest[i],
        ).pagination.has_more by {
            assert(rest[i] == script[i + 1]);
        }
        lemma_run_complete(rest, total, off2, acc2);
        assert(acc2 + pages_concat(rest) =~= acc + pages_concat(script));
    }
}

/// Law: over a complete scan — every response arrives, every page
/// reports the same total, the concatenated item count equals that
/// total, and every page but the last reports `has_more` — an uncapped
/// aggregation returns exactly the concatenation of the pages' items,
/// once, in page order.
pub proof fn lemma_complete_scan_returns_concatenation(
    script: Seq<Result<ListObjectsResponse, ApiError>>,
    total: usize,
)
    requires
        script.len() > 0,
        forall|i: int| 0 <= i < script.len() ==> script[i] is Ok,
        forall|i: int| 0 <= i < script.len() ==> ok_page(script[i]).pagination.total == total,
        forall|i: int| 0 <= i < script.len() - 1 ==> ok_page(script[i]).pagination.has_more,
        !ok_page(script[script.len() - 1]).pagination.has_more,
        pages_concat(script).len() == total,
    ensures
        spec_aggregate(script, None) == Ok::<Seq<Object>, ApiError>(pages_concat(script)),
{
    lemma_run_complete(script, total, 0, Seq::empty());
    assert(Seq::<Object>::empty() + pages_concat(script) =~= pages_concat(script));
}

/// Law (runaway-loop guard): however the server sets `has_more`, a page
/// that carries the offset up to its reported total ends the
/// aggregation: the response after it is never consumed.
pub proof fn lemma_total_guard_stops(
    script: Seq<Result<ListObjectsResponse, ApiError>>,
    limit: Option<usize>,
    offset: nat,
    acc: Seq<Object>,
)
    requires
        script.len() > 0,
        script[0] is Ok,
        offset + ok_page(script[0]).data@.len() >= ok_page(script[0]).pagination.total,
    ensures
        spec_run(script, limit, offset, acc) == Ok::<Seq<Object>, ApiError>(
            acc + ok_page(script[0]).data@,
        ),
        spec_pages_used(script, limit, offset, acc) == 1,
{
}

/// Law: once the accumulated count reaches the caller's cap, no further
/// page is requested; the page that met the cap is the last one
/// consumed.
pub proof fn lemma_limit_stops(
    script: Seq<Result<ListObjectsResponse, ApiError>>,
    n: usize,
    offset: nat,
    acc: Seq<Object>,
)
    requires
        script.len() > 0,
        script[0] is Ok,
        acc.len() + ok_page(script[0]).data@.len() >= n,
    ensures
        spec_run(script, Some(n), offset, acc) == Ok::<Seq<Object>, ApiError>(
            acc + ok_page(script[0]).data@,
        ),
        spec_pages_used(script, Some(n), offset, acc) == 1,
{
}

/// Law: with a cap of `n` and a first page of exactly `n` items — a
/// server that honours the page-size hint while more items exist — the
/// aggregation returns exactly those `n` items and consumes exactly one
/// response.
pub proof fn lemma_limit_first_page_is_result(
    script: Seq<Result<ListObjectsResponse, ApiError>>,
    n: usize,
)
    requires
        script.len() > 0,
        script[0] is Ok,
        ok_page(script[0]).data@.len() == n,
    ensures
        spec_aggregate(script, Some(n)) == Ok::<Seq<Object>, ApiError>(ok_page(script[0]).data@),
        spec_pages_used(script, Some(n), 0, Seq::empty()) == 1,
{
    lemma_limit_stops(script, n, 0, Seq::empty());
    assert(Seq::<Object>::empty() + ok_page(script[0]).data@ =~= ok_page(script[0]).data@);
}

/// Law: an empty first page with `has_more == false` yields an empty
/// result, with exactly one response consumed.
pub proof fn lemma_empty_first_page(
    script: Seq<Result<ListObjectsResponse, ApiError>>,
    limit: Option<usize>,
)
    requires
        script.len() > 0,
        script[0] is Ok,
        ok_page(script[0]).data@.len() == 0,
        !ok_page(script[0]).pagination.has_more,
    ensures
        spec_aggregate(script, limit) == Ok::<Seq<Object>, ApiError>(Seq::<Object>::empty()),
        spec_pages_used(script, limit, 0, Seq::empty()) == 1,
{
    assert(Seq::<Object>::empty() + ok_page(script[0]).data@ =~= Seq::<Object>::empty());
}

/// Whether the walk, after absorbing each of the first `k` pages in
/// turn, decides to request another one every time. The count and
/// offset after page `i` are the starting values plus the items of the
/// pages up to and including `i`.
pub open spec fn continues_through(
    script: Seq<Result<ListObjectsResponse, ApiError>>,
    limit: Option<usize>,
    offset: nat,
    acc: Seq<Object>,
    k: int,
) -> bool {
    forall|i: int|
        0 <= i < k ==> !spec_stop(
            acc.len() + pages_concat(script.take(i + 1)).len(),
            limit,
            (#[trigger] ok_page(script[i])).pagination.has_more,
            offset + pages_concat(script.take(i + 1)).len(),
            ok_page(script[i]).pagination.total as nat,
        )
}

proof fn lemma_concat_take_shift(script: Seq<Result<ListObjectsResponse, ApiError>>, m: int)
    requires
        1 <= m <= script.len(),
    ensures
        pages_concat(script.take(m)) == (match script[0] {
            Result::Ok(p) => p.data@,
            Result::Err(_) => Seq::empty(),
        }) + pages_concat(script.drop_first().take(m - 1)),
{
    assert(script.take(m)[0] == script[0]);
    assert(script.take(m).drop_first() =~= script.drop_first().take(m - 1));
}

/// Law: a failing response on any page the walk reaches propagates its
/// error; the items collected from the earlier pages are discarded,
/// not returned.
pub proof fn lemma_failure_propagates(
    script: Seq<Result<ListObjectsResponse, ApiError>>,
    limit: Option<usize>,
    offset: nat,
    acc: Seq<Object>,
    k: int,
    e: ApiError,
)
    requires
        0 <= k < script.len(),
        forall|i: int| 0 <= i < k ==> script[i] is Ok,
        script[k] == Err::<ListObjectsResponse, ApiError>(e),
        continues_through(script, limit, offset, acc, k),
    ensures
        spec_run(script, limit, offset, acc) == Err::<Seq<Object>, ApiError>(e),
    decreases k,
{
    if k == 0 {
        assert(spec_run(script, limit, offset, acc) == Err::<Seq<Object>, ApiError>(e));
    } else {
        let p0 = ok_page(script[0]);
        let rest = script.drop_first();
        let acc2 = acc + p0.data@;
        let off2 = offset + p0.data@.len();
        lemma_concat_take_shift(script, 1);
        assert(rest.take(0) =~= Seq::<Result<ListObjectsResponse, ApiError>>::empty());
        assert(pages_concat(Seq::<Result<ListObjectsResponse, ApiError>>::empty())
            =~= Seq::<Object>::empty());
        assert(pages_concat(script.take(1)) =~= p0.data@);
        assert(!spec_stop(
            acc2.len(),
            limit,
            p0.pagination.has_more,
            off2,
            p0.pagination.total as nat,
        ));
        assert(rest[k - 1] == script[k]);
        assert forall|i: int| 0 <= i < k - 1 implies rest[i] is Ok by {
            assert(rest[i] == script[i + 1]);
        }
        assert forall|i: int|
            0 <= i < k - 1 implies !spec_stop(
            acc2.len() + pages_concat(#[trigger] rest.take(i + 1)).len(),
            limit,
            ok_page(rest[i]).pagination.has_more,
            off2 + pages_concat(rest.take(i + 1)).len(),
            ok_page(rest[i]).pagination.total as nat,
        ) by {
            assert(rest[i] == script[i + 1]);
            lemma_concat_take_shift(script, i + 2);
            assert(pages_concat(script.take(i + 2)) == p0.data@ + pages_concat(rest.take(i + 1)));
            assert(acc.len() + pages_concat(script.take(i + 2)).len() == acc2.len() + pages_concat(
                rest.take(i + 1),
            ).len());
            assert(!spec_stop(
                acc.len() + pages_concat(script.take(i + 2)).len(),
                limit,
                ok_page(script[i + 1]).pagination.has_more,
                offset + pages_concat(script.take(i + 2)).len(),
                ok_page(script[i + 1]).pagination.total as nat,
            ));
        }
        lemma_failure_propagates(rest, limit, off2, acc2, k - 1, e);
        assert(spec_run(script, limit, offset, acc) == spec_run(rest, limit, off2, acc2));
    }
}

} // verus!
