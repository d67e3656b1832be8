//! The sparse header chain: one header per difficulty period, appended in
//! order, never more than the known tip allows.
use vstd::prelude::*;
use crate::period::{DIFFICULTY_PERIOD, period_height, periods_below};

verus! {

/// What a chain holds: the tip it was told of, and the headers of periods
/// `0..headers.len()`, the one at index `i` taken at height `i * 2016`.
pub ghost struct ChainView<H> {
    pub tip_height: nat,
    pub headers: Seq<H>,
}

impl<H> ChainView<H> {
    /// The headers never run past the tip: every stored period is followed
    /// by a whole period at or below it.
    pub open spec fn wf(self) -> bool {
        &&& self.tip_height <= u32::MAX
        &&& self.headers.len() * 2016 <= self.tip_height
    }

    /// Periods below the tip whose header is not stored yet.
    pub open spec fn missing(self) -> nat {
        (periods_below(self.tip_height) - self.headers.len()) as nat
    }
}

/// Why a header was not appended.
#[derive(Debug, Clone, Copy, PartialEq, Eq, Structural)]
pub enum ChainError {
    /// The header's height is not the first height of the next period.
    OutOfOrder,
    /// The next period has no full period at or below the tip after it.
    BeyondTip,
}

/// The shared header chain.
#[derive(Debug)]
pub struct HeaderChain<H> {
    tip_height: u32,
    sparse_headers: Vec<H>,
}

impl<H> View for HeaderChain<H> {
    type V = ChainView<H>;

    closed spec fn view(&self) -> ChainView<H> {
        ChainView { tip_height: self.tip_height as nat, headers: self.sparse_headers@ }
    }
}

impl<H> HeaderChain<H> {
    pub open spec fn wf(&self) -> bool {
        self@.wf()
    }

    /// An empty chain at tip zero.
    pub fn new() -> (r: Self)
        ensures
            r@.tip_height == 0,
            r@.headers.len() == 0,
            r.wf(),
    {
        HeaderChain { tip_height: 0, sparse_headers: Vec::new() }
    }

    /// The highest height the remote side has reported.
    pub fn tip_height(&self) -> (r: u32)
        ensures
            r == self@.tip_height,
    {
        proof { self.lemma_view(); }
        self.tip_height
    }

    /// The stored headers, the one at index `i` for height `i * 2016`.
    pub fn headers(&self) -> (r: &Vec<H>)
        ensures
            r@ == self@.headers,
    {
        proof { self.lemma_view(); }
        &self.sparse_headers
    }

    /// Number of stored headers.
    pub fn len(&self) -> (r: usize)
        ensures
            r == self@.headers.len(),
    {
        proof { self.lemma_view(); }
        self.sparse_headers.len()
    }

    proof fn lemma_view(&self)
        ensures
            self@.tip_height == self.tip_height as nat,
            self@.headers == self.sparse_headers@,
    {
    }

    /// Index of the first period without a header.
    pub fn first_missing(&self) -> (r: u32)
        requires
            self.wf(),
        ensures
            r == self@.headers.len(),
            r <= periods_below(self@.tip_height),
    {
        proof {
            self.lemma_view();
            let n = self.sparse_headers@.len();
            let t = self.tip_height as nat;
            assert(n <= t / 2016) by (nonlinear_arith)
                requires n * 2016 <= t;
        }
        self.sparse_headers.len() as u32
    }

    /// One past the index of the last period the tip covers.
    pub fn end_of_periods(&self) -> (r: u32)
        ensures
            r == periods_below(self@.tip_height),
    {
        proof { self.lemma_view(); }
        self.tip_height / DIFFICULTY_PERIOD
    }

    /// Height of the next header to append.
    pub fn next_height(&self) -> (r: u32)
        requires
            self.wf(),
        ensures
            r == period_height(self@.headers.len()),
    {
        proof { self.lemma_view(); }
        let n = self.sparse_headers.len() as u32;
        n * DIFFICULTY_PERIOD
    }

    /// Records a newly reported tip. The tip never moves down: a lower
    /// report is ignored. Returns whether the tip moved.
    pub fn update_tip(&mut self, new_tip: u32) -> (r: bool)
        requires
            old(self).wf(),
        ensures
            final(self).wf(),
            r == (new_tip > old(self)@.tip_height),
            final(self)@.tip_height == if r { new_tip as nat } else { old(self)@.tip_height },
            final(self)@.headers == old(self)@.headers,
    {
        proof { self.lemma_view(); }
        if new_tip > self.tip_height {
            self.tip_height = new_tip;
            true
        } else {
            false
        }
    }

    /// Appends the header of the next period, taken at `height`. It is
    /// refused unless `height` is that period's first height and a whole
    /// period after it lies at or below the tip.
    pub fn push_header(&mut self, height: u32, header: H) -> (r: Result<(), ChainError>)
        requires
            old(self).wf(),
        ensures
            final(self).wf(),
            final(self)@.tip_height == old(self)@.tip_height,
            height != period_height(old(self)@.headers.len()) ==> r == Err::<(), ChainError>(
                ChainError::OutOfOrder,
            ),
            height == period_height(old(self)@.headers.len()) && height + 2016
                > old(self)@.tip_height ==> r == Err::<(), ChainError>(ChainError::BeyondTip),
            r is Ok <==> height == period_height(old(self)@.headers.len()) && height + 2016
                <= old(self)@.tip_height,
            r is Ok ==> final(self)@.headers == old(self)@.headers.push(header),
            r is Err ==> final(self)@.headers == old(self)@.headers,
    {
        proof { self.lemma_view(); }
        let next = self.next_height();
        if height != next {
            return Err(ChainError::OutOfOrder);
        }
        if self.tip_height - height < DIFFICULTY_PERIOD {
            return Err(ChainError::BeyondTip);
        }
        self.sparse_headers.push(header);
        Ok(())
    }
}

impl<H> Default for HeaderChain<H> {
    fn default() -> (r: Self)
        ensures
            r@.tip_height == 0,
            r@.headers.len() == 0,
            r.wf(),
    {
        Self::new()
    }
}

} // verus!
