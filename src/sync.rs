//! One synchronisation cycle: record the new tip, then backfill the periods
//! below it that the chain is missing.
use vstd::prelude::*;
use crate::backfill::{Backfill, BackfillView};
use crate::chain::{ChainView, HeaderChain};
use crate::period::{period_height, periods_below};

verus! {

/// Starts a cycle on a freshly reported tip: records the tip in the chain,
/// then plans the backfill of every period below it that has no header,
/// with at most `cap` fetches outstanding at once. When the chain already
/// covers the tip, the plan is empty.
pub fn begin_cycle<H>(chain: &mut HeaderChain<H>, new_tip: u32, cap: usize) -> (r: Backfill<H>)
    requires
        old(chain).wf(),
        cap >= 1,
    ensures
        final(chain).wf(),
        final(chain)@.tip_height == if new_tip > old(chain)@.tip_height {
            new_tip as nat
        } else {
            old(chain)@.tip_height
        },
        final(chain)@.headers == old(chain)@.headers,
        r.wf(),
        r@.first == old(chain)@.headers.len(),
        r@.end == periods_below(final(chain)@.tip_height),
        r@.end - r@.first == final(chain)@.missing(),
        r@.cap == cap,
        r@.next_request == r@.first,
        r@.next_release == r@.first,
        r@.in_flight == 0,
        period_height(r@.end) <= final(chain)@.tip_height,
{
    chain.update_tip(new_tip);
    let r = Backfill::for_chain(chain, cap);
    proof {
        let t = chain@.tip_height;
        assert((t / 2016) * 2016 <= t) by (nonlinear_arith);
    }
    r
}

/// Starts a cycle from the outcome of the tip fetch. A failed fetch aborts
/// the cycle: its error is passed on and the chain is left as it was, tip
/// and headers alike. A fetched tip starts the cycle as `begin_cycle` does.
pub fn start_cycle<H, E>(chain: &mut HeaderChain<H>, fetched_tip: Result<u32, E>, cap: usize) -> (r:
    Result<Backfill<H>, E>)
    requires
        old(chain).wf(),
        cap >= 1,
    ensures
        final(chain).wf(),
        fetched_tip is Err ==> r == Err::<Backfill<H>, E>(fetched_tip->Err_0) && final(chain)@
            == old(chain)@,
        fetched_tip is Ok ==> r is Ok,
        fetched_tip is Ok ==> final(chain)@.tip_height == if fetched_tip->Ok_0
            > old(chain)@.tip_height {
            fetched_tip->Ok_0 as nat
        } else {
            old(chain)@.tip_height
        },
        final(chain)@.headers == old(chain)@.headers,
        r is Ok ==> {
            let plan = r->Ok_0;
            &&& plan.wf()
            &&& plan@.first == old(chain)@.headers.len()
            &&& plan@.end == periods_below(final(chain)@.tip_height)
            &&& plan@.cap == cap
            &&& plan@.next_request == plan@.first
            &&& plan@.next_release == plan@.first
            &&& plan@.in_flight == 0
        },
{
    match fetched_tip {
        Ok(tip) => Ok(begin_cycle(chain, tip, cap)),
        Err(e) => Err(e),
    }
}

/// A cycle that ran to the end leaves no period missing: once its backfill
/// has released every period and the chain has taken them, a second cycle
/// at the same tip plans no fetch at all.
pub proof fn lemma_finished_cycle_is_idempotent<H>(
    started: ChainView<H>,
    plan: BackfillView<H>,
    finished: ChainView<H>,
)
    requires
        started.wf(),
        plan.wf(),
        plan.end == periods_below(started.tip_height),
        plan.next_release == plan.end,
        finished.tip_height == started.tip_height,
        finished.headers.len() == plan.next_release,
    ensures
        finished.wf(),
        finished.missing() == 0,
        periods_below(finished.tip_height) == finished.headers.len(),
{
    let t = started.tip_height;
    assert((t / 2016) * 2016 <= t) by (nonlinear_arith);
}

/// Headers land at their own period, whatever order their fetches came
/// back in. Say `served(h)` is the header the remote side gives for height
/// `h`. If the chain holds, at each index `i`, the header served for
/// `i * 2016`, and each header a backfill releases next is the one served
/// for its period's height, then after the chain takes `n` of them it still
/// holds, at each index `i`, the header served for `i * 2016`.
pub proof fn lemma_delivery_keeps_periods<H>(
    plan: BackfillView<H>,
    before: Seq<H>,
    n: nat,
    served: spec_fn(nat) -> H,
)
    requires
        before.len() == plan.next_release,
        forall|i: int| 0 <= i < before.len() ==> #[trigger] before[i] == served(period_height(i as nat)),
        forall|k: nat|
            plan.next_release <= k < plan.next_release + n ==> #[trigger] plan.slot(k) == Some(
                served(period_height(k)),
            ),
    ensures
        forall|i: int|
            0 <= i < before.len() + n ==> #[trigger] (before + plan.ready_run(n))[i] == served(
                period_height(i as nat),
            ),
{
    assert forall|i: int| 0 <= i < before.len() + n implies #[trigger] (before + plan.ready_run(
        n,
    ))[i] == served(period_height(i as nat)) by {
        if i >= before.len() {
            let k = i as nat;
            assert(plan.slot(k) == Some(served(period_height(k))));
        }
    }
}

} // verus!
