//! Deciding, after each attempt of a remote call, whether to stop, wait and
//! try again, or give up. The delays come from backon's exponential backoff;
//! the bound on the number of retries is kept here as well.
use vstd::prelude::*;
use backon::BackoffBuilder;

verus! {

#[verifier::external_type_specification]
#[verifier::external_body]
pub struct ExExponentialBackoff(backon::ExponentialBackoff);

/// The delays, in milliseconds, that a backoff still has to give, in order.
pub uninterp spec fn delays_left(b: backon::ExponentialBackoff) -> Seq<u64>;

/// Relies on backon's `ExponentialBuilder::default()` and its `build`: a
/// backoff without jitter or total-delay limit that starts at one second
/// and doubles each time, and runs out after three delays.
#[verifier::external_body]
fn default_backoff() -> (r: backon::ExponentialBackoff)
    ensures
        delays_left(r) == seq![1000u64, 2000u64, 4000u64],
{
    backon::ExponentialBuilder::default().build()
}

/// Relies on backon's `Iterator for ExponentialBackoff`: the next delay, in
/// milliseconds, or `None` once the backoff has run out, which leaves it as
/// it was.
#[verifier::external_body]
fn next_delay(backoff: &mut backon::ExponentialBackoff) -> (r: Option<u64>)
    ensures
        delays_left(*old(backoff)).len() > 0 ==> r == Some(delays_left(*old(backoff))[0])
            && delays_left(*final(backoff)) == delays_left(*old(backoff)).drop_first(),
        delays_left(*old(backoff)).len() == 0 ==> r is None && delays_left(*final(backoff))
            == delays_left(*old(backoff)),
{
    match backoff.next() {
        Some(d) => Some(d.as_millis() as u64),
        None => None,
    }
}

/// What to do after an attempt.
pub enum RetryStep<T, E> {
    /// The attempt succeeded with this value.
    Done(T),
    /// Wait this many milliseconds, then try again.
    Wait(u64),
    /// Give up; this is the last attempt's error.
    Exhausted(E),
}

/// The retry state of one remote call.
pub struct Retry {
    backoff: backon::ExponentialBackoff,
    retries: u32,
    max_retries: u32,
}

impl Retry {
    /// Retries granted so far.
    pub closed spec fn retries_spec(&self) -> nat {
        self.retries as nat
    }

    /// The delays the backoff still has to give.
    pub closed spec fn delays_left_spec(&self) -> Seq<u64> {
        delays_left(self.backoff)
    }

    /// The most retries this call is granted.
    pub closed spec fn max_retries_spec(&self) -> nat {
        self.max_retries as nat
    }

    pub open spec fn wf(&self) -> bool {
        self.retries_spec() <= self.max_retries_spec()
    }

    /// A fresh retry state granting at most `max_retries` retries.
    pub fn new(max_retries: u32) -> (r: Self)
        ensures
            r.wf(),
            r.retries_spec() == 0,
            r.max_retries_spec() == max_retries,
            r.delays_left_spec() == seq![1000u64, 2000u64, 4000u64],
    {
        Retry { backoff: default_backoff(), retries: 0, max_retries }
    }

    /// Retries granted so far.
    pub fn retries(&self) -> (r: u32)
        ensures
            r == self.retries_spec(),
    {
        self.retries
    }

    /// Decides what follows an attempt that ended with `outcome`. A success
    /// ends the call; a failure is retried after the backoff's next delay
    /// while the bound and the backoff allow, and otherwise ends the call
    /// with that failure. Each
    /// retry counts against the bound, so a call never makes more than
    /// `max_retries + 1` attempts.
    pub fn on_outcome<T, E>(&mut self, outcome: Result<T, E>) -> (r: RetryStep<T, E>)
        requires
            old(self).wf(),
        ensures
            final(self).wf(),
            final(self).max_retries_spec() == old(self).max_retries_spec(),
            outcome is Ok ==> r == RetryStep::<T, E>::Done(outcome->Ok_0),
            outcome is Err && old(self).retries_spec() == old(self).max_retries_spec() ==> r
                == RetryStep::<T, E>::Exhausted(outcome->Err_0),
            outcome is Err && old(self).retries_spec() < old(self).max_retries_spec() && old(
                self,
            ).delays_left_spec().len() > 0 ==> r == RetryStep::<T, E>::Wait(
                old(self).delays_left_spec()[0],
            ) && final(self).delays_left_spec() == old(self).delays_left_spec().drop_first(),
            outcome is Err && old(self).delays_left_spec().len() == 0 ==> r == RetryStep::<
                T,
                E,
            >::Exhausted(outcome->Err_0),
            outcome is Err ==> r == RetryStep::<T, E>::Exhausted(outcome->Err_0) || r is Wait,
            !(r is Wait) ==> final(self).delays_left_spec() == old(self).delays_left_spec(),
            r is Wait <==> final(self).retries_spec() == old(self).retries_spec() + 1,
            !(r is Wait) ==> final(self).retries_spec() == old(self).retries_spec(),
    {
        match outcome {
            Ok(v) => RetryStep::Done(v),
            Err(e) => {
                if self.retries >= self.max_retries {
                    return RetryStep::Exhausted(e);
                }
                match next_delay(&mut self.backoff) {
                    Some(ms) => {
                        self.retries = self.retries + 1;
                        RetryStep::Wait(ms)
                    },
                    None => RetryStep::Exhausted(e),
                }
            },
        }
    }
}

} // verus!
