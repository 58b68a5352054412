//! Progress of the background prefetch of every static preview: workers
//! take catalog indices in turn, count each entry they finish, and the
//! prefetch is complete once every entry was counted.

use vstd::prelude::*;

verus! {

/// `(fetched, total, complete)` before any entry of a catalog of `n`.
pub open spec fn progress_start(n: nat) -> (u32, u32, bool) {
    (0u32, (if n > u32::MAX {
        u32::MAX as int
    } else {
        n as int
    }) as u32, false)
}

/// One more entry counted; the counter wraps as an atomic one does.
pub open spec fn progress_recorded(p: (u32, u32, bool)) -> (u32, u32, bool) {
    ((if p.0 == u32::MAX {
        0
    } else {
        p.0 + 1
    }) as u32, p.1, p.2)
}

/// Completion checked: complete once every entry was counted.
pub open spec fn progress_finished(p: (u32, u32, bool)) -> (u32, u32, bool) {
    (p.0, p.1, p.2 || p.0 >= p.1)
}

/// Prefetch progress as the IPC `sync_status` command reports it.
#[derive(Debug)]
pub struct SyncProgress {
    fetched: u32,
    total: u32,
    complete: bool,
}

impl View for SyncProgress {
    type V = (u32, u32, bool);

    closed spec fn view(&self) -> (u32, u32, bool) {
        (self.fetched, self.total, self.complete)
    }
}

impl SyncProgress {
    /// No entry fetched yet out of `catalog_len` (capped at `u32::MAX`).
    pub fn new(catalog_len: usize) -> (res: Self)
        ensures
            res@ == progress_start(catalog_len as nat),
    {
        let total = if catalog_len as u64 > 0xFFFF_FFFFu64 {
            0xFFFF_FFFFu32
        } else {
            catalog_len as u32
        };
        SyncProgress { fetched: 0, total, complete: false }
    }

    /// One more entry was fetched or given up on (the counter wraps as
    /// an atomic counter does).
    pub fn record_fetched(&mut self)
        ensures
            final(self)@ == progress_recorded(old(self)@),
    {
        self.fetched = if self.fetched == 0xFFFF_FFFF {
            0
        } else {
            self.fetched + 1
        };
    }

    /// Marks the prefetch complete once every entry was counted; returns
    /// whether it is complete. Completion is never undone.
    pub fn finish_if_done(&mut self) -> (complete: bool)
        ensures
            final(self)@ == progress_finished(old(self)@),
            complete == final(self)@.2,
    {
        if self.fetched >= self.total {
            self.complete = true;
        }
        self.complete
    }

    /// `(fetched, total, complete)`.
    pub fn snapshot(&self) -> (res: (u32, u32, bool))
        ensures
            res == self@,
    {
        (self.fetched, self.total, self.complete)
    }
}

/// Hands out the next catalog index from the shared work counter: the
/// index `*next` if it is within the catalog, `None` once the catalog is
/// exhausted. The counter moves on either way.
pub fn claim_next(next: &mut usize, catalog_len: usize) -> (res: Option<usize>)
    requires
        *old(next) < usize::MAX,
    ensures
        *final(next) == *old(next) + 1,
        res == (if *old(next) < catalog_len {
            Some(*old(next))
        } else {
            None::<usize>
        }),
{
    let i = *next;
    *next = i + 1;
    if i < catalog_len {
        Some(i)
    } else {
        None
    }
}

/// The index the claim of a work counter at `next` hands out.
pub open spec fn claimed(next: nat, catalog_len: nat) -> Option<nat> {
    if next < catalog_len {
        Some(next)
    } else {
        None
    }
}

/// One step of a prefetch, as the workers and the status reader take
/// them in turn.
pub enum PrefetchStep {
    /// A worker claims the next index from the work counter.
    Claim,
    /// A worker counts an entry it finished (fetched or given up on).
    Record,
    /// The completion check runs.
    Check,
}

/// How many claims the steps make.
pub open spec fn claims(steps: Seq<PrefetchStep>) -> nat
    decreases steps.len(),
{
    if steps.len() == 0 {
        0
    } else {
        claims(steps.drop_last()) + if steps.last() is Claim {
            1nat
        } else {
            0
        }
    }
}

/// How many catalog indices the work counter, starting at 0, hands out
/// over the steps: a claim at counter value `c` hands out `claimed(c, n)`.
pub open spec fn handed_out(n: nat, steps: Seq<PrefetchStep>) -> nat
    decreases steps.len(),
{
    if steps.len() == 0 {
        0
    } else {
        let prev = steps.drop_last();
        handed_out(n, prev) + if steps.last() is Claim && claimed(claims(prev), n) is Some {
            1nat
        } else {
            0
        }
    }
}

/// How many entries the steps count.
pub open spec fn recorded(steps: Seq<PrefetchStep>) -> nat
    decreases steps.len(),
{
    if steps.len() == 0 {
        0
    } else {
        recorded(steps.drop_last()) + if steps.last() is Record {
            1nat
        } else {
            0
        }
    }
}

/// Workers count only entries they were handed: each count follows a
/// claim that handed out an index not yet counted.
pub open spec fn counts_follow_claims(n: nat, steps: Seq<PrefetchStep>) -> bool
    decreases steps.len(),
{
    if steps.len() == 0 {
        true
    } else {
        let prev = steps.drop_last();
        &&& counts_follow_claims(n, prev)
        &&& (steps.last() is Record ==> recorded(prev) < handed_out(n, prev))
    }
}

/// The progress after the steps, from `p`.
pub open spec fn progress_run(p: (u32, u32, bool), steps: Seq<PrefetchStep>) -> (u32, u32, bool)
    decreases steps.len(),
{
    if steps.len() == 0 {
        p
    } else {
        let q = progress_run(p, steps.drop_last());
        match steps.last() {
            PrefetchStep::Claim => q,
            PrefetchStep::Record => progress_recorded(q),
            PrefetchStep::Check => progress_finished(q),
        }
    }
}

proof fn lemma_handed_out(n: nat, steps: Seq<PrefetchStep>)
    ensures
        handed_out(n, steps) == (if claims(steps) < n {
            claims(steps)
        } else {
            n
        }),
    decreases steps.len(),
{
    if steps.len() > 0 {
        lemma_handed_out(n, steps.drop_last());
    }
}

/// A whole prefetch over a catalog of `n` entries, in any interleaving of
/// claims, counts and completion checks in which workers count only
/// entries they were handed. The work counter, starting at 0, hands out
/// every index below `n` once, in order, and nothing after; so at most
/// `n` entries are counted. The reported total stays `n`, the count is
/// the number of entries counted and never exceeds it, and completion is
/// only reported once every entry was counted. Once the counter has run
/// past the catalog and every entry handed out was counted, the next
/// check reports completion. (The counter wraps at `u32::MAX`, so the
/// catalog is taken to be no larger.)
pub proof fn law_prefetch_counts_every_entry_once(n: nat, steps: Seq<PrefetchStep>)
    requires
        n <= u32::MAX,
        counts_follow_claims(n, steps),
    ensures
        forall|i: nat| #[trigger] claimed(i, n) is Some <==> i < n,
        forall|i: nat| i < n ==> #[trigger] claimed(i, n) == Some(i),
        recorded(steps) <= handed_out(n, steps) <= n,
        progress_run(progress_start(n), steps).0 == recorded(steps),
        progress_run(progress_start(n), steps).1 == n,
        progress_run(progress_start(n), steps).2 ==> recorded(steps) == n,
        claims(steps) >= n && recorded(steps) == handed_out(n, steps) ==> progress_finished(
            progress_run(progress_start(n), steps),
        ).2,
    decreases steps.len(),
{
    lemma_handed_out(n, steps);
    if steps.len() > 0 {
        let rest = steps.drop_last();
        lemma_handed_out(n, rest);
        law_prefetch_counts_every_entry_once(n, rest);
    }
}

} // verus!
