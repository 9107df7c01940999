use vstd::prelude::*;

verus! {

/// How many descriptor fetches may be in flight at once.
pub const MAX_IN_FLIGHT: usize = 64;

/// How many times a failed descriptor fetch is retried before it is skipped.
pub const MAX_FETCH_RETRIES: u32 = 8;

/// Tunable limits of the resolver pool.
#[derive(Clone, Copy, Debug, PartialEq, Eq)]
pub struct PoolSettings {
    pub max_in_flight: usize,
    pub max_fetch_retries: u32,
}

impl PoolSettings {
    /// The limits the tool runs with.
    pub fn standard() -> (r: PoolSettings)
        ensures
            r.max_in_flight == MAX_IN_FLIGHT,
            r.max_fetch_retries == MAX_FETCH_RETRIES,
    {
        PoolSettings { max_in_flight: MAX_IN_FLIGHT, max_fetch_retries: MAX_FETCH_RETRIES }
    }
}

/// What the driver of the pool should do next.
#[derive(Clone, Copy, Debug, PartialEq, Eq)]
pub enum PoolAction {
    /// Start fetching the next queued record.
    Start,
    /// Wait for one of the fetches in flight to finish.
    Await,
    /// Every record has been resolved or skipped.
    Finished,
}

/// The bookkeeping of a batch of resolutions: how many records wait, how
/// many are being fetched, and how many are done.
pub struct ResolverPool {
    limit: usize,
    total: usize,
    queued: usize,
    in_flight: usize,
    done: usize,
}

impl ResolverPool {
    pub closed spec fn limit(&self) -> nat {
        self.limit as nat
    }

    pub closed spec fn total(&self) -> nat {
        self.total as nat
    }

    pub closed spec fn queued(&self) -> nat {
        self.queued as nat
    }

    pub closed spec fn in_flight(&self) -> nat {
        self.in_flight as nat
    }

    pub closed spec fn done(&self) -> nat {
        self.done as nat
    }

    /// Never more in flight than the limit, and every record is in exactly
    /// one of the three states.
    pub closed spec fn wf(&self) -> bool {
        &&& 0 < self.limit
        &&& self.in_flight <= self.limit
        &&& self.queued + self.in_flight + self.done == self.total
    }

    /// A pool for `total` records with at most `settings.max_in_flight` in
    /// flight.
    pub fn new(settings: PoolSettings, total: usize) -> (r: ResolverPool)
        requires
            settings.max_in_flight > 0,
        ensures
            r.wf(),
            r.limit() == settings.max_in_flight,
            r.total() == total,
            r.queued() == total,
            r.in_flight() == 0,
            r.done() == 0,
    {
        ResolverPool { limit: settings.max_in_flight, total, queued: total, in_flight: 0, done: 0 }
    }

    /// Start another fetch while one is queued and a slot is free; else wait
    /// while any is in flight; else the batch is finished.
    pub fn next_action(&self) -> (r: PoolAction)
        requires
            self.wf(),
        ensures
            r == PoolAction::Start <==> self.queued() > 0 && self.in_flight() < self.limit(),
            r == PoolAction::Await <==> !(self.queued() > 0 && self.in_flight() < self.limit())
                && self.in_flight() > 0,
            r == PoolAction::Finished <==> self.queued() == 0 && self.in_flight() == 0,
            r == PoolAction::Finished ==> self.done() == self.total(),
    {
        if self.queued > 0 && self.in_flight < self.limit {
            PoolAction::Start
        } else if self.in_flight > 0 {
            PoolAction::Await
        } else {
            PoolAction::Finished
        }
    }

    /// One queued record starts being fetched.
    pub fn start(&mut self)
        requires
            old(self).wf(),
            old(self).queued() > 0,
            old(self).in_flight() < old(self).limit(),
        ensures
            final(self).wf(),
            final(self).limit() == old(self).limit(),
            final(self).total() == old(self).total(),
            final(self).queued() == old(self).queued() - 1,
            final(self).in_flight() == old(self).in_flight() + 1,
            final(self).done() == old(self).done(),
    {
        self.queued = self.queued - 1;
        self.in_flight = self.in_flight + 1;
    }

    /// One fetch in flight ended, resolved or skipped.
    pub fn complete(&mut self)
        requires
            old(self).wf(),
            old(self).in_flight() > 0,
        ensures
            final(self).wf(),
            final(self).limit() == old(self).limit(),
            final(self).total() == old(self).total(),
            final(self).queued() == old(self).queued(),
            final(self).in_flight() == old(self).in_flight() - 1,
            final(self).done() == old(self).done() + 1,
    {
        self.in_flight = self.in_flight - 1;
        self.done = self.done + 1;
    }

    pub fn in_flight_count(&self) -> (r: usize)
        ensures
            r == self.in_flight(),
    {
        self.in_flight
    }

    pub fn done_count(&self) -> (r: usize)
        ensures
            r == self.done(),
    {
        self.done
    }
}

/// At no point has a well-formed pool more fetches in flight than its limit;
/// with the standard settings, never more than 64, however large the batch.
pub proof fn lemma_in_flight_bounded(p: ResolverPool)
    requires
        p.wf(),
    ensures
        p.in_flight() <= p.limit(),
        p.limit() == MAX_IN_FLIGHT ==> p.in_flight() <= 64,
{
}

} // verus!
