//! Backfilling the periods a chain is missing: hands out the periods to fetch,
//! at most `cap` at a time, takes the results in any order, and releases them
//! to the chain strictly in period order.
use vstd::prelude::*;
use crate::chain::HeaderChain;
use crate::period::{DIFFICULTY_PERIOD, period_height, periods_below};

verus! {

/// Number of fetches still outstanding among `s`: the empty slots.
pub open spec fn count_waiting<H>(s: Seq<Option<H>>) -> nat
    decreases s.len(),
{
    if s.len() == 0 {
        0
    } else {
        (if s[0] is None { 1nat } else { 0nat }) + count_waiting(s.drop_first())
    }
}

proof fn lemma_count_push<H>(s: Seq<Option<H>>, x: Option<H>)
    ensures
        count_waiting(s.push(x)) == count_waiting(s) + if x is None { 1nat } else { 0nat },
    decreases s.len(),
{
    if s.len() > 0 {
        assert(s.push(x).drop_first() =~= s.drop_first().push(x));
        assert(s.push(x)[0] == s[0]);
        lemma_count_push(s.drop_first(), x);
    } else {
        assert(s.push(x).drop_first() =~= Seq::<Option<H>>::empty());
        assert(count_waiting(Seq::<Option<H>>::empty()) == 0);
        assert(s.push(x)[0] == x);
    }
}

proof fn lemma_count_update<H>(s: Seq<Option<H>>, i: int, x: Option<H>)
    requires
        0 <= i < s.len(),
    ensures
        count_waiting(s.update(i, x)) + (if s[i] is None { 1nat } else { 0nat }) == count_waiting(s)
            + (if x is None { 1nat } else { 0nat }),
    decreases s.len(),
{
    if i == 0 {
        assert(s.update(0, x).drop_first() =~= s.drop_first());
    } else {
        assert(s.update(i, x).drop_first() =~= s.drop_first().update(i - 1, x));
        lemma_count_update(s.drop_first(), i - 1, x);
    }
}

/// The state of one backfill over the periods `first..end`.
///
/// Periods `first..next_release` have been handed to the chain; periods
/// `next_release..next_request` have been requested, and each holds its
/// header once it has come back; periods `next_request..end` wait.
pub ghost struct BackfillView<H> {
    pub first: nat,
    pub end: nat,
    pub cap: nat,
    pub next_request: nat,
    pub next_release: nat,
    pub in_flight: nat,
    /// `slots[k - first]` for each requested period `k`.
    pub slots: Seq<Option<H>>,
}

impl<H> BackfillView<H> {
    pub open spec fn slot(self, k: nat) -> Option<H> {
        self.slots[k - self.first]
    }

    /// The requested periods that are not released yet.
    pub open spec fn window(self) -> Seq<Option<H>> {
        self.slots.subrange(self.next_release - self.first, self.next_request - self.first)
    }

    pub open spec fn wf(self) -> bool {
        &&& self.first <= self.next_release <= self.next_request <= self.end
        &&& period_height(self.end) <= u32::MAX
        &&& self.slots.len() == self.next_request - self.first
        &&& 1 <= self.cap
        &&& self.in_flight <= self.cap
        &&& self.in_flight == count_waiting(self.window())
    }

    /// The headers of the `n` periods from `next_release` on, in order.
    pub open spec fn ready_run(self, n: nat) -> Seq<H> {
        Seq::new(n, |i: int| self.slot((self.next_release + i) as nat)->Some_0)
    }
}

/// Why a fetched header was not accepted.
#[derive(Debug, Clone, Copy, PartialEq, Eq, Structural)]
pub enum BackfillError {
    /// The period was never requested, or was already released.
    NotRequested,
    /// A header for the period has already come back.
    AlreadyCompleted,
}

/// A backfill in progress.
#[derive(Debug)]
pub struct Backfill<H> {
    first: u32,
    end: u32,
    cap: usize,
    next_request: u32,
    next_release: u32,
    in_flight: usize,
    slots: Vec<Option<H>>,
}

impl<H> View for Backfill<H> {
    type V = BackfillView<H>;

    closed spec fn view(&self) -> BackfillView<H> {
        BackfillView {
            first: self.first as nat,
            end: self.end as nat,
            cap: self.cap as nat,
            next_request: self.next_request as nat,
            next_release: self.next_release as nat,
            in_flight: self.in_flight as nat,
            slots: self.slots@,
        }
    }
}

impl<H> Backfill<H> {
    pub open spec fn wf(&self) -> bool {
        self@.wf()
    }

    proof fn lemma_view(&self)
        ensures
            self@.first == self.first as nat,
            self@.end == self.end as nat,
            self@.cap == self.cap as nat,
            self@.next_request == self.next_request as nat,
            self@.next_release == self.next_release as nat,
            self@.in_flight == self.in_flight as nat,
            self@.slots == self.slots@,
    {
    }

    /// A backfill of every period the chain is missing below its tip, with
    /// at most `cap` fetches outstanding at once.
    pub fn for_chain(chain: &HeaderChain<H>, cap: usize) -> (r: Self)
        requires
            chain.wf(),
            cap >= 1,
        ensures
            r.wf(),
            r@.first == chain@.headers.len(),
            r@.end == periods_below(chain@.tip_height),
            r@.cap == cap,
            r@.next_request == r@.first,
            r@.next_release == r@.first,
            r@.in_flight == 0,
    {
        let first = chain.first_missing();
        let end = chain.end_of_periods();
        proof {
            let t = chain@.tip_height;
            assert((t / 2016) * 2016 <= t) by (nonlinear_arith);
        }
        let r = Backfill {
            first,
            end,
            cap,
            next_request: first,
            next_release: first,
            in_flight: 0,
            slots: Vec::new(),
        };
        proof {
            assert(r@.window() =~= Seq::<Option<H>>::empty());
        }
        r
    }

    /// Hands out the next period to fetch, with its height, unless all are
    /// handed out or `cap` fetches are outstanding.
    pub fn next_request(&mut self) -> (r: Option<(u32, u32)>)
        requires
            old(self).wf(),
        ensures
            final(self).wf(),
            r is Some <==> old(self)@.in_flight < old(self)@.cap && old(self)@.next_request
                < old(self)@.end,
            r is None ==> final(self)@ == old(self)@,
            r is Some ==> {
                &&& r->Some_0.0 == old(self)@.next_request
                &&& r->Some_0.1 == period_height(old(self)@.next_request)
                &&& final(self)@ == (BackfillView {
                    next_request: old(self)@.next_request + 1,
                    in_flight: old(self)@.in_flight + 1,
                    slots: old(self)@.slots.push(None),
                    ..old(self)@
                })
            },
    {
        proof { self.lemma_view(); }
        if self.in_flight >= self.cap || self.next_request >= self.end {
            return None;
        }
        let k = self.next_request;
        proof {
            let lo = (self.next_release - self.first) as int;
            let hi = (self.next_request - self.first) as int;
            assert(self.slots@.push(None).subrange(lo, hi + 1) =~= self.slots@.subrange(
                lo,
                hi,
            ).push(None));
            lemma_count_push(self.slots@.subrange(lo, hi), None);
            assert(k as nat * 2016 <= self.end as nat * 2016) by (nonlinear_arith)
                requires k < self.end;
        }
        self.slots.push(None);
        self.next_request = k + 1;
        self.in_flight = self.in_flight + 1;
        Some((k, k * DIFFICULTY_PERIOD))
    }

    /// Takes the header fetched for period `index`.
    pub fn complete(&mut self, index: u32, header: H) -> (r: Result<(), BackfillError>)
        requires
            old(self).wf(),
        ensures
            final(self).wf(),
            r is Ok <==> old(self)@.next_release <= index < old(self)@.next_request && old(
                self,
            )@.slot(index as nat) is None,
            !(old(self)@.next_release <= index < old(self)@.next_request) ==> r == Err::<
                (),
                BackfillError,
            >(BackfillError::NotRequested),
            r is Err ==> final(self)@ == old(self)@,
            r is Ok ==> final(self)@ == (BackfillView {
                in_flight: (old(self)@.in_flight - 1) as nat,
                slots: old(self)@.slots.update(index - old(self)@.first, Some(header)),
                ..old(self)@
            }),
    {
        proof { self.lemma_view(); }
        if index < self.next_release || index >= self.next_request {
            return Err(BackfillError::NotRequested);
        }
        let pos = (index - self.first) as usize;
        if self.slots[pos].is_some() {
            return Err(BackfillError::AlreadyCompleted);
        }
        proof {
            let lo = (self.next_release - self.first) as int;
            let hi = (self.next_request - self.first) as int;
            let s = self.slots@;
            assert(s.update(pos as int, Some(header)).subrange(lo, hi) =~= s.subrange(
                lo,
                hi,
            ).update(pos - lo, Some(header)));
            lemma_count_update(s.subrange(lo, hi), pos - lo, Some(header));
        }
        self.slots.set(pos, Some(header));
        self.in_flight = self.in_flight - 1;
        Ok(())
    }

    /// Releases the header of the next period in order, if it has come back.
    pub fn release(&mut self) -> (r: Option<(u32, H)>)
        requires
            old(self).wf(),
        ensures
            final(self).wf(),
            r is Some <==> old(self)@.next_release < old(self)@.next_request && old(self)@.slot(
                old(self)@.next_release,
            ) is Some,
            r is None ==> final(self)@ == old(self)@,
            r is Some ==> {
                &&& r->Some_0.0 == old(self)@.next_release
                &&& Some(r->Some_0.1) == old(self)@.slot(old(self)@.next_release)
                &&& final(self)@ == (BackfillView {
                    next_release: old(self)@.next_release + 1,
                    slots: old(self)@.slots.update(
                        old(self)@.next_release - old(self)@.first,
                        None,
                    ),
                    ..old(self)@
                })
            },
    {
        proof { self.lemma_view(); }
        if self.next_release >= self.next_request {
            return None;
        }
        let pos = (self.next_release - self.first) as usize;
        if self.slots[pos].is_none() {
            return None;
        }
        let k = self.next_release;
        let mut taken: Option<H> = None;
        self.slots.set_and_swap(pos, &mut taken);
        proof {
            let lo = pos as int;
            let hi = (self.next_request - self.first) as int;
            let s = old(self).slots@;
            assert(self.slots@.subrange(lo + 1, hi) =~= s.subrange(lo, hi).drop_first());
        }
        self.next_release = k + 1;
        match taken {
            Some(h) => Some((k, h)),
            None => None,
        }
    }

    /// Whether every period of the backfill has been released.
    pub fn is_done(&self) -> (r: bool)
        ensures
            r == (self@.next_release == self@.end),
    {
        proof { self.lemma_view(); }
        self.next_release == self.end
    }

    /// The next period to be released to the chain.
    pub fn next_release(&self) -> (r: u32)
        ensures
            r == self@.next_release,
    {
        proof { self.lemma_view(); }
        self.next_release
    }

    /// One past the last period of the backfill.
    pub fn end(&self) -> (r: u32)
        ensures
            r == self@.end,
    {
        proof { self.lemma_view(); }
        self.end
    }

    /// Number of fetches handed out whose header has not come back.
    pub fn in_flight(&self) -> (r: usize)
        ensures
            r == self@.in_flight,
    {
        proof { self.lemma_view(); }
        self.in_flight
    }

    /// Appends to `chain` the header of the next period in order, if it has
    /// come back, and says whether it did.
    pub fn deliver_next(&mut self, chain: &mut HeaderChain<H>) -> (r: bool)
        requires
            old(self).wf(),
            old(chain).wf(),
            old(chain)@.headers.len() == old(self)@.next_release,
            period_height(old(self)@.end) <= old(chain)@.tip_height,
        ensures
            final(self).wf(),
            final(chain).wf(),
            final(chain)@.tip_height == old(chain)@.tip_height,
            r <==> old(self)@.next_release < old(self)@.next_request && old(self)@.slot(
                old(self)@.next_release,
            ) is Some,
            !r ==> final(self)@ == old(self)@ && final(chain)@ == old(chain)@,
            r ==> final(chain)@.headers == old(chain)@.headers.push(
                old(self)@.slot(old(self)@.next_release)->Some_0,
            ),
            r ==> final(self)@ == (BackfillView {
                next_release: old(self)@.next_release + 1,
                slots: old(self)@.slots.update(
                    old(self)@.next_release - old(self)@.first,
                    None,
                ),
                ..old(self)@
            }),
            final(chain)@.headers.len() == final(self)@.next_release,
    {
        match self.release() {
            Some((k, h)) => {
                proof {
                    let e = self@.end;
                    assert(k as nat * 2016 + 2016 <= e * 2016) by (nonlinear_arith)
                        requires k < e;
                }
                let height = k * DIFFICULTY_PERIOD;
                let pushed = chain.push_header(height, h);
                proof {
                    assert(pushed is Ok);
                }
                true
            },
            None => false,
        }
    }

    /// Appends to `chain`, in period order, every header that has come back
    /// with no gap before it, and returns how many. Afterwards the chain
    /// holds exactly the periods up to the first one still outstanding; the
    /// results of later periods stay where they were.
    pub fn deliver_ready(&mut self, chain: &mut HeaderChain<H>) -> (n: u32)
        requires
            old(self).wf(),
            old(chain).wf(),
            old(chain)@.headers.len() == old(self)@.next_release,
            period_height(old(self)@.end) <= old(chain)@.tip_height,
        ensures
            final(self).wf(),
            final(chain).wf(),
            final(chain)@.tip_height == old(chain)@.tip_height,
            final(self)@.next_release == old(self)@.next_release + n,
            final(chain)@.headers == old(chain)@.headers + old(self)@.ready_run(n as nat),
            final(chain)@.headers.len() == final(self)@.next_release,
            forall|k: nat|
                old(self)@.next_release <= k < final(self)@.next_release ==> (#[trigger] old(
                    self,
                )@.slot(k)) is Some,
            final(self)@.next_release < final(self)@.next_request ==> final(self)@.slot(
                final(self)@.next_release,
            ) is None,
            forall|k: nat|
                final(self)@.next_release <= k < final(self)@.next_request
                    ==> #[trigger] final(self)@.slot(k) == old(self)@.slot(k),
            final(self)@.first == old(self)@.first,
            final(self)@.end == old(self)@.end,
            final(self)@.cap == old(self)@.cap,
            final(self)@.next_request == old(self)@.next_request,
            final(self)@.in_flight == old(self)@.in_flight,
    {
        let ghost s0 = self@;
        let ghost h0 = chain@.headers;
        let mut n: u32 = 0;
        loop
            invariant
                s0.wf(),
                self.wf(),
                chain.wf(),
                chain@.tip_height == old(chain)@.tip_height,
                period_height(s0.end) <= chain@.tip_height,
                self@.next_release == s0.next_release + n,
                self@.first == s0.first,
                self@.end == s0.end,
                self@.cap == s0.cap,
                self@.next_request == s0.next_request,
                self@.in_flight == s0.in_flight,
                chain@.headers == h0 + s0.ready_run(n as nat),
                chain@.headers.len() == self@.next_release,
                forall|k: nat|
                    s0.next_release <= k < self@.next_release ==> (#[trigger] s0.slot(k)) is Some,
                forall|k: nat|
                    self@.next_release <= k < self@.next_request ==> #[trigger] self@.slot(k)
                        == s0.slot(k),
            ensures
                self@.next_release < self@.next_request ==> self@.slot(self@.next_release) is None,
            decreases self@.next_request - self@.next_release,
        {
            let ghost before = self@;
            if self.deliver_next(chain) {
                proof {
                    let h = before.slot(before.next_release)->Some_0;
                    assert(s0.slot(before.next_release) == Some(h));
                    assert forall|j: nat|
                        self@.next_release <= j < self@.next_request implies #[trigger] self@.slot(
                            j,
                        ) == s0.slot(j) by {
                        assert(before.slot(j) == s0.slot(j));
                    }
                    assert(s0.ready_run((n + 1) as nat) =~= s0.ready_run(n as nat).push(h));
                    assert(chain@.headers =~= h0 + s0.ready_run((n + 1) as nat));
                }
                n = n + 1;
            } else {
                break ;
            }
        }
        n
    }
}

} // verus!
