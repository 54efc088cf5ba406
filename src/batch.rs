use vstd::prelude::*;

use crate::error::VcsError;

verus! {

/// The outcome of one backend operation, tagged with what it was run on.
#[derive(Debug)]
pub struct BatchEntry<Q, T> {
    pub subject: Q,
    pub outcome: Result<T, VcsError>,
}

/// A failed operation of a batch and what the backend reported.
#[derive(Debug)]
pub struct Failure<Q> {
    pub subject: Q,
    pub error: VcsError,
}

/// One backend operation per request, in order, each outcome kept whether it
/// succeeded or not.
///
/// The caller asks [`Batch::next`] which request is due, performs it and hands
/// the outcome to [`Batch::record`]. A failure is recorded like a success and
/// the batch moves on to the next request, so every request gets exactly one
/// outcome.
#[derive(Debug)]
pub struct Batch<Q, T> {
    requests: Vec<Q>,
    outcomes: Vec<Result<T, VcsError>>,
}

/// The entries that pair each request with its outcome.
pub open spec fn paired<Q, T>(requests: Seq<Q>, outcomes: Seq<Result<T, VcsError>>) -> Seq<
    BatchEntry<Q, T>,
> {
    Seq::new(
        outcomes.len(),
        |i: int| BatchEntry { subject: requests[i], outcome: outcomes[i] },
    )
}

/// The failed entries of `entries`, in their order.
pub open spec fn failures_of<Q, T>(entries: Seq<BatchEntry<Q, T>>) -> Seq<Failure<Q>>
    decreases entries.len(),
{
    if entries.len() == 0 {
        Seq::empty()
    } else {
        let rest = failures_of(entries.drop_last());
        match entries.last().outcome {
            Ok(_) => rest,
            Err(e) => rest.push(Failure { subject: entries.last().subject, error: e }),
        }
    }
}

impl<Q, T> Batch<Q, T> {
    pub closed spec fn requests(&self) -> Seq<Q> {
        self.requests@
    }

    pub closed spec fn outcomes(&self) -> Seq<Result<T, VcsError>> {
        self.outcomes@
    }

    /// Outcomes come in request order, never more than requests.
    pub open spec fn wf(&self) -> bool {
        self.outcomes().len() <= self.requests().len()
    }

    /// Every request has its outcome.
    pub open spec fn is_done(&self) -> bool {
        self.outcomes().len() == self.requests().len()
    }

    /// A batch over `requests` in which nothing has run yet.
    pub fn new(requests: Vec<Q>) -> (r: Batch<Q, T>)
        ensures
            r.wf(),
            r.requests() == requests@,
            r.outcomes() == Seq::<Result<T, VcsError>>::empty(),
    {
        Batch { requests, outcomes: Vec::new() }
    }

    /// The request whose outcome is due, or `None` once every request has one.
    pub fn next(&self) -> (r: Option<&Q>)
        requires
            self.wf(),
        ensures
            r is None <==> self.is_done(),
            r matches Some(q) ==> *q == self.requests()[self.outcomes().len() as int],
    {
        if self.outcomes.len() < self.requests.len() {
            Some(&self.requests[self.outcomes.len()])
        } else {
            None
        }
    }

    /// Records the outcome of the request that [`Batch::next`] names.
    pub fn record(&mut self, outcome: Result<T, VcsError>)
        requires
            old(self).wf(),
            !old(self).is_done(),
        ensures
            final(self).wf(),
            final(self).requests() == old(self).requests(),
            final(self).outcomes() == old(self).outcomes().push(outcome),
    {
        self.outcomes.push(outcome);
    }

    /// The entries of a finished batch: one per request, in request order,
    /// each with the outcome recorded for it.
    pub fn finish(self) -> (r: Vec<BatchEntry<Q, T>>)
        requires
            self.wf(),
            self.is_done(),
        ensures
            r@.len() == self.requests().len(),
            r@ == paired(self.requests(), self.outcomes()),
    {
        let ghost reqs = self.requests@;
        let ghost outs = self.outcomes@;
        let mut requests = self.requests;
        let mut outcomes = self.outcomes;
        let mut entries: Vec<BatchEntry<Q, T>> = Vec::new();
        let n = requests.len();
        let mut i: usize = 0;
        while i < n
            invariant
                n == reqs.len(),
                n == outs.len(),
                i <= n,
                requests@ == reqs.subrange(i as int, n as int),
                outcomes@ == outs.subrange(i as int, n as int),
                entries@ == paired(reqs, outs).subrange(0, i as int),
            decreases n - i,
        {
            let subject = requests.remove(0);
            let outcome = outcomes.remove(0);
            entries.push(BatchEntry { subject, outcome });
            i = i + 1;
            assert(requests@ =~= reqs.subrange(i as int, n as int));
            assert(outcomes@ =~= outs.subrange(i as int, n as int));
            assert(entries@ =~= paired(reqs, outs).subrange(0, i as int));
        }
        assert(entries@ =~= paired(reqs, outs));
        entries
    }
}

/// The failed entries of `entries`, in their order: every entry whose outcome
/// is an error, and nothing else.
pub fn failures<Q, T>(entries: Vec<BatchEntry<Q, T>>) -> (r: Vec<Failure<Q>>)
    ensures
        r@ == failures_of(entries@),
{
    let ghost all = entries@;
    let mut rest = entries;
    let mut r: Vec<Failure<Q>> = Vec::new();
    let n = rest.len();
    let mut i: usize = 0;
    while i < n
        invariant
            n == all.len(),
            i <= n,
            rest@ == all.subrange(i as int, n as int),
            r@ == failures_of(all.subrange(0, i as int)),
        decreases n - i,
    {
        let entry = rest.remove(0);
        assert(all.subrange(0, i + 1 as int).drop_last() =~= all.subrange(0, i as int));
        match entry.outcome {
            Ok(_) => {},
            Err(error) => {
                r.push(Failure { subject: entry.subject, error });
            },
        }
        i = i + 1;
        assert(rest@ =~= all.subrange(i as int, n as int));
    }
    assert(all.subrange(0, n as int) =~= all);
    r
}

/// Each failure of a batch is one of its entries, with that entry's error.
pub proof fn lemma_failures_are_entries<Q, T>(entries: Seq<BatchEntry<Q, T>>)
    ensures
        forall|k: int|
            0 <= k < failures_of(entries).len() ==> exists|j: int|
                0 <= j < entries.len() && #[trigger] entries[j].subject == (
                #[trigger] failures_of(entries)[k]).subject && entries[j].outcome == Err::<
                    T,
                    VcsError,
                >(failures_of(entries)[k].error),
    decreases entries.len(),
{
    if entries.len() > 0 {
        let rest = entries.drop_last();
        lemma_failures_are_entries(rest);
        assert forall|k: int| 0 <= k < failures_of(entries).len() implies exists|j: int|
            0 <= j < entries.len() && #[trigger] entries[j].subject == (
            #[trigger] failures_of(entries)[k]).subject && entries[j].outcome == Err::<T, VcsError>(
                failures_of(entries)[k].error,
            ) by {
            if k < failures_of(rest).len() {
                let j = choose|j: int|
                    0 <= j < rest.len() && #[trigger] rest[j].subject == (
                    #[trigger] failures_of(rest)[k]).subject && rest[j].outcome == Err::<
                        T,
                        VcsError,
                    >(failures_of(rest)[k].error);
                assert(entries[j] == rest[j]);
            } else {
                assert(entries[entries.len() - 1] == entries.last());
            }
        }
    }
}

/// A batch has no failure exactly when every outcome is a success.
pub proof fn lemma_no_failures_iff_all_ok<Q, T>(entries: Seq<BatchEntry<Q, T>>)
    ensures
        failures_of(entries).len() == 0 <==> forall|j: int|
            0 <= j < entries.len() ==> (#[trigger] entries[j]).outcome is Ok,
    decreases entries.len(),
{
    if entries.len() > 0 {
        let rest = entries.drop_last();
        lemma_no_failures_iff_all_ok(rest);
        if failures_of(entries).len() == 0 {
            assert forall|j: int| 0 <= j < entries.len() implies (
            #[trigger] entries[j]).outcome is Ok by {
                if j < rest.len() {
                    assert(entries[j] == rest[j]);
                }
            }
        }
        if forall|j: int| 0 <= j < entries.len() ==> (#[trigger] entries[j]).outcome is Ok {
            assert forall|j: int| 0 <= j < rest.len() implies (#[trigger] rest[j]).outcome is Ok by {
                assert(entries[j] == rest[j]);
            }
            assert(entries[entries.len() - 1].outcome is Ok);
        }
    }
}

/// A finished batch holds one entry per request, tagged with that request and
/// holding the outcome recorded for it, whatever those outcomes are.
pub proof fn lemma_entry_per_request<Q, T>(requests: Seq<Q>, outcomes: Seq<Result<T, VcsError>>)
    requires
        outcomes.len() == requests.len(),
    ensures
        paired(requests, outcomes).len() == requests.len(),
        forall|i: int|
            0 <= i < requests.len() ==> (#[trigger] paired(requests, outcomes)[i]).subject
                == requests[i] && paired(requests, outcomes)[i].outcome == outcomes[i],
{
}

} // verus!
