//! Fan-out planning and fan-in collection for a checking run.
//!
//! The URL list is split into contiguous chunks, one per worker, with chunk
//! size `ceil(total / workers)`. Results come back in any order; the
//! collector accepts exactly one result per requested URL.
use vstd::prelude::*;
use crate::report::WebsiteStatus;
use crate::retry::{RetryPolicy, RETRY_DELAY_MS};
use vstd::multiset::Multiset;

verus! {

/// The chunk size that spreads `total` items over `workers` workers.
pub open spec fn chunk_size_for(total: nat, workers: nat) -> nat
    recommends
        workers > 0,
{
    if total == 0 {
        1
    } else {
        ((total + workers - 1) as nat) / workers
    }
}

/// `s` cut into consecutive pieces of `size` items, the last one possibly shorter.
pub open spec fn chunked<A>(s: Seq<A>, size: nat) -> Seq<Seq<A>>
    recommends
        size > 0,
    decreases s.len(),
{
    if s.len() == 0 || size == 0 {
        Seq::empty()
    } else if s.len() <= size {
        seq![s]
    } else {
        seq![s.take(size as int)] + chunked(s.skip(size as int), size)
    }
}

/// The views of a sequence of strings.
pub open spec fn texts(v: Seq<String>) -> Seq<Seq<char>> {
    v.map_values(|s: String| s@)
}

/// The views of the chunks of a plan.
pub open spec fn plan_view(p: Seq<Vec<String>>) -> Seq<Seq<Seq<char>>> {
    p.map_values(|c: Vec<String>| texts(c@))
}

/// Splits `urls` into at most `workers` contiguous chunks, each of
/// `ceil(urls.len() / workers)` URLs but the last. No URL is dropped or
/// repeated; an empty list gives no chunks.
pub fn plan_chunks(urls: &Vec<String>, workers: usize) -> (plan: Vec<Vec<String>>)
    requires
        workers >= 1,
    ensures
        plan_view(plan@) == chunked(texts(urls@), chunk_size_for(urls@.len(), workers as nat)),
{
    let n = urls.len();
    let q = n / workers;
    let size: usize = if n == 0 {
        1
    } else if n % workers == 0 {
        assert(q >= 1) by (nonlinear_arith)
            requires
                q == n / workers,
                n % workers == 0,
                n > 0,
                workers >= 1,
        {
        }
        q
    } else {
        assert(q < n) by (nonlinear_arith)
            requires
                q == n / workers,
                n % workers != 0,
                workers >= 1,
        {
        }
        q + 1
    };
    assert(size == chunk_size_for(n as nat, workers as nat)) by (nonlinear_arith)
        requires
            workers >= 1,
            n == 0 ==> size == 1,
            n > 0 ==> size == n / workers + if n % workers == 0 { 0int } else { 1int },
    {
        if n > 0 {
            assert(((n + workers - 1) as nat) / (workers as nat) == n / workers + if n % workers == 0 { 0int } else { 1int });
        }
    }
    let ghost all = texts(urls@);
    assert(all.skip(0) =~= all);
    assert(plan_view(Seq::<Vec<String>>::empty()) + chunked(all, size as nat) =~= chunked(all, size as nat));
    let mut plan: Vec<Vec<String>> = Vec::new();
    let mut pos: usize = 0;
    while pos < n
        invariant
            n == urls@.len(),
            all == texts(urls@),
            size >= 1,
            pos <= n,
            plan_view(plan@) + chunked(all.skip(pos as int), size as nat) == chunked(all, size as nat),
        decreases n - pos,
    {
        let end: usize = if n - pos <= size { n } else { pos + size };
        let mut chunk: Vec<String> = Vec::new();
        let mut j: usize = pos;
        while j < end
            invariant
                pos <= j <= end <= n,
                n == urls@.len(),
                texts(chunk@) == all.subrange(pos as int, j as int),
                all == texts(urls@),
            decreases end - j,
        {
            let u = urls[j].clone();
            proof {
                assert(texts(chunk@.push(u)) =~= texts(chunk@).push(all[j as int]));
            }
            chunk.push(u);
            assert(texts(chunk@) =~= all.subrange(pos as int, j + 1));
            j = j + 1;
        }
        proof {
            let rest = all.skip(pos as int);
            assert(rest.len() > 0);
            if rest.len() <= size {
                assert(texts(chunk@) =~= rest);
                assert(all.skip(end as int) =~= Seq::<Seq<char>>::empty());
                assert(chunked(all.skip(end as int), size as nat) =~= Seq::<Seq<Seq<char>>>::empty());
            } else {
                assert(texts(chunk@) =~= rest.take(size as int));
                assert(rest.skip(size as int) =~= all.skip(end as int));
            }
            assert(plan_view(plan@.push(chunk)) =~= plan_view(plan@).push(texts(chunk@)));
            assert(plan_view(plan@.push(chunk)) + chunked(all.skip(end as int), size as nat)
                =~= plan_view(plan@) + chunked(rest, size as nat));
        }
        plan.push(chunk);
        pos = end;
    }
    assert(all.skip(n as int) =~= Seq::<Seq<char>>::empty());
    assert(plan_view(plan@) =~= plan_view(plan@) + chunked(all.skip(n as int), size as nat));
    plan
}

} // verus!

verus! {

/// The URLs that a sequence of results answers for, in order.
pub open spec fn urls_of(rs: Seq<WebsiteStatus>) -> Seq<Seq<char>> {
    rs.map_values(|r: WebsiteStatus| r.url@)
}

/// Gathers the results of a run as workers deliver them, in any order.
/// Each requested URL is answered once: a result for a URL that is not
/// outstanding is handed back.
pub struct Collector {
    outstanding: Vec<String>,
    results: Vec<WebsiteStatus>,
    requested: Ghost<Multiset<Seq<char>>>,
}

impl Collector {
    /// The URLs that the run was asked to check, with their multiplicities.
    pub closed spec fn requested(&self) -> Multiset<Seq<char>> {
        self.requested@
    }

    /// The URLs that still await a result.
    pub closed spec fn pending(&self) -> Multiset<Seq<char>> {
        texts(self.outstanding@).to_multiset()
    }

    /// The results accepted so far, in order of arrival.
    pub closed spec fn collected(&self) -> Seq<WebsiteStatus> {
        self.results@
    }

    /// Every requested URL is either pending or answered by exactly one result.
    pub open spec fn wf(&self) -> bool {
        self.pending().add(urls_of(self.collected()).to_multiset()) == self.requested()
    }

    /// A collector that awaits one result for each entry of `urls`.
    pub fn new(urls: &Vec<String>) -> (c: Collector)
        ensures
            c.wf(),
            c.requested() == texts(urls@).to_multiset(),
            c.pending() == c.requested(),
            c.collected() == Seq::<WebsiteStatus>::empty(),
    {
        broadcast use vstd::seq_lib::group_to_multiset_ensures;

        let outstanding = urls.clone();
        assert(outstanding@ =~= urls@);
        let c = Collector {
            outstanding,
            results: Vec::new(),
            requested: Ghost(texts(urls@).to_multiset()),
        };
        proof {
            let none = urls_of(c.results@);
            assert(none =~= Seq::<Seq<char>>::empty());
            assert forall|a: Seq<char>| #[trigger] none.to_multiset().count(a) == 0 by {
                assert(!none.contains(a));
            }
            assert(none.to_multiset() =~= Multiset::empty());
            assert(c.pending().add(Multiset::empty()) =~= c.pending());
        }
        c
    }

    /// Records `status` if its URL is pending; otherwise hands it back.
    pub fn accept(&mut self, status: WebsiteStatus) -> (r: Result<(), WebsiteStatus>)
        requires
            old(self).wf(),
        ensures
            final(self).wf(),
            final(self).requested() == old(self).requested(),
            r is Ok <==> old(self).pending().contains(status.url@),
            r is Ok ==> final(self).pending() == old(self).pending().remove(status.url@)
                && final(self).collected() == old(self).collected().push(status),
            r is Err ==> r->Err_0 == status && final(self).pending() == old(self).pending()
                && final(self).collected() == old(self).collected(),
    {
        broadcast use vstd::seq_lib::group_to_multiset_ensures;

        let n = self.outstanding.len();
        let mut j: usize = 0;
        while j < n
            invariant
                n == self.outstanding@.len(),
                j <= n,
                forall|k: int| 0 <= k < j ==> self.outstanding@[k]@ != status.url@,
            ensures
                j < n ==> self.outstanding@[j as int]@ == status.url@,
            decreases n - j,
        {
            if self.outstanding[j] == status.url {
                break;
            }
            j = j + 1;
        }
        if j == n {
            proof {
                assert forall|k: int| 0 <= k < texts(self.outstanding@).len() implies texts(
                    self.outstanding@,
                )[k] != status.url@ by {}
                assert(!texts(self.outstanding@).contains(status.url@));
            }
            return Err(status);
        }
        proof {
            assert(texts(self.outstanding@)[j as int] == status.url@);
            assert(texts(self.outstanding@).contains(status.url@));
            assert(texts(self.outstanding@.remove(j as int)) =~= texts(self.outstanding@).remove(j as int));
            assert(urls_of(self.results@.push(status)) =~= urls_of(self.results@).push(status.url@));
        }
        self.outstanding.remove(j);
        self.results.push(status);
        proof {
            assert(self.pending().add(urls_of(self.collected()).to_multiset()) =~= self.requested());
        }
        Ok(())
    }

    /// Whether every requested URL has its result.
    pub fn is_complete(&self) -> (r: bool)
        ensures
            r == (self.pending().len() == 0),
    {
        broadcast use vstd::seq_lib::group_to_multiset_ensures;

        self.outstanding.len() == 0
    }

    /// The collected results. Once every URL is answered they hold one result
    /// per requested URL: as many as were requested, for the same URLs.
    pub fn into_results(self) -> (r: Vec<WebsiteStatus>)
        requires
            self.wf(),
            self.pending().len() == 0,
        ensures
            r@ == self.collected(),
            urls_of(r@).to_multiset() == self.requested(),
            r@.len() == self.requested().len(),
    {
        broadcast use vstd::seq_lib::group_to_multiset_ensures;

        proof {
            assert(self.pending() =~= Multiset::empty());
            assert(Multiset::<Seq<char>>::empty().add(urls_of(self.results@).to_multiset())
                =~= urls_of(self.results@).to_multiset());
        }
        self.results
    }
}

} // verus!

verus! {

proof fn lemma_chunked_parts<A>(s: Seq<A>, size: nat)
    requires
        size > 0,
    ensures
        chunked(s, size).flatten() == s,
        forall|i: int| 0 <= i < chunked(s, size).len() ==> #[trigger] chunked(s, size)[i].len() > 0,
        chunked(s, size).len() * size >= s.len(),
        s.len() > 0 ==> (chunked(s, size).len() - 1) * size < s.len(),
    decreases s.len(),
{
    let c = chunked(s, size);
    if s.len() == 0 {
        assert(c.flatten() =~= s);
    } else if s.len() <= size {
        assert(c =~= seq![s]);
        c.lemma_flatten_singleton();
        assert(1 * size == size && 0 * size == 0) by (nonlinear_arith);
    } else {
        let rest = s.skip(size as int);
        lemma_chunked_parts(rest, size);
        let head = seq![s.take(size as int)];
        vstd::seq_lib::lemma_flatten_concat(head, chunked(rest, size));
        head.lemma_flatten_singleton();
        assert(c.flatten() =~= s);
        assert forall|i: int| 0 <= i < c.len() implies #[trigger] c[i].len() > 0 by {
            if i > 0 {
                assert(c[i] == chunked(rest, size)[i - 1]);
            }
        }
        let m = chunked(rest, size).len();
        assert(c.len() == m + 1);
        assert((m + 1) * size == m * size + size) by (nonlinear_arith);
        if rest.len() > 0 {
            assert((m - 1) * size == m * size - size) by (nonlinear_arith);
        }
    }
}

/// Planning loses no URL and repeats none: for any list and any worker count
/// of at least one, the chunks joined in order are the list itself, no chunk
/// is empty, and there are no more chunks than workers (none for an empty list).
pub proof fn lemma_plan_covers_input<A>(urls: Seq<A>, workers: nat)
    requires
        workers >= 1,
    ensures
        chunked(urls, chunk_size_for(urls.len(), workers)).flatten() == urls,
        chunked(urls, chunk_size_for(urls.len(), workers)).len() <= workers,
        forall|i: int|
            0 <= i < chunked(urls, chunk_size_for(urls.len(), workers)).len()
                ==> #[trigger] chunked(urls, chunk_size_for(urls.len(), workers))[i].len() > 0,
        urls.len() == 0 ==> chunked(urls, chunk_size_for(urls.len(), workers)).len() == 0,
{
    let k = urls.len();
    let size = chunk_size_for(k, workers);
    if k == 0 {
        lemma_chunked_parts(urls, size);
    } else {
        let t = (k + workers - 1) as nat;
        vstd::arithmetic::div_mod::lemma_fundamental_div_mod(t as int, workers as int);
        assert(size * workers >= k && size > 0) by (nonlinear_arith)
            requires
                size == t / workers,
                t == k + workers - 1,
                t == workers * (t / workers) + t % workers,
                0 <= t % workers < workers,
                k > 0,
        {
        }
        lemma_chunked_parts(urls, size);
        let n = chunked(urls, size).len();
        assert(n <= workers) by (nonlinear_arith)
            requires
                (n - 1) * size < k,
                size * workers >= k,
                size > 0,
        {
        }
    }
}

} // verus!

verus! {

/// The parameters of a checking run.
#[derive(Debug, Clone, Copy, PartialEq, Eq)]
pub struct RunConfig {
    /// How many workers probe at once; at least one.
    pub workers: usize,
    /// The bound on each HTTP attempt, in milliseconds; above zero.
    pub timeout_ms: u64,
    /// How failed attempts are retried.
    pub retry: RetryPolicy,
}

impl RunConfig {
    /// A configuration, or `None` when there would be no worker or no time
    /// for an attempt.
    pub fn new(workers: usize, timeout_ms: u64, max_retries: usize) -> (c: Option<RunConfig>)
        ensures
            c is None <==> (workers == 0 || timeout_ms == 0),
            c matches Some(cfg) ==> cfg.workers == workers && cfg.timeout_ms == timeout_ms
                && cfg.retry.max_retries == max_retries && cfg.retry.delay_ms == RETRY_DELAY_MS,
    {
        if workers == 0 || timeout_ms == 0 {
            None
        } else {
            Some(RunConfig { workers, timeout_ms, retry: RetryPolicy::new(max_retries) })
        }
    }
}

} // verus!
