use vstd::prelude::*;

verus! {

/// The cache gate: it says whether a scrape has to refresh the metrics, or may
/// serve what the last refresh left.
///
/// Time is a count of whole units on a clock of the caller's, from an origin of
/// the caller's.
#[derive(Clone, Copy, Debug, PartialEq, Eq)]
pub struct CacheGate {
    /// When the last refresh began; `None` until the first one.
    pub last: Option<u64>,
    /// For how long a refresh stays valid.
    pub window: u64,
}

/// The time that has passed at `now` since `last`; none where the clock reads
/// less than it did then.
pub open spec fn elapsed(last: u64, now: u64) -> nat {
    if now >= last {
        (now - last) as nat
    } else {
        0
    }
}

/// The scrape times `count` scrapes have that all arrive at `now`.
pub open spec fn simultaneous(now: u64, count: nat) -> Seq<u64> {
    Seq::new(count, |i: int| now)
}

impl CacheGate {
    /// Whether a scrape at `now` has to refresh: always before the first refresh,
    /// and then whenever the window has passed since the last one began.
    pub open spec fn is_due(self, now: u64) -> bool {
        match self.last {
            None => true,
            Some(last) => elapsed(last, now) >= self.window,
        }
    }

    /// The cache gate after a refresh that began at `now`.
    pub open spec fn stamped(self, now: u64) -> CacheGate {
        CacheGate { last: Some(now), window: self.window }
    }

    /// The cache gate after a scrape at `now`: stamped where a refresh was due, else
    /// as it was.
    pub open spec fn polled(self, now: u64) -> CacheGate {
        if self.is_due(now) {
            self.stamped(now)
        } else {
            self
        }
    }

    /// How many of the scrapes, served one after the other at the times given,
    /// find a refresh due, and so fetch.
    pub open spec fn fetches(self, scrapes: Seq<u64>) -> nat
        decreases scrapes.len(),
    {
        if scrapes.len() == 0 {
            0
        } else {
            let first: nat = if self.is_due(scrapes[0]) {
                1
            } else {
                0
            };
            first + self.polled(scrapes[0]).fetches(scrapes.drop_first())
        }
    }

    /// The cache gate after all the scrapes, served one after the other.
    pub open spec fn polled_all(self, scrapes: Seq<u64>) -> CacheGate
        decreases scrapes.len(),
    {
        if scrapes.len() == 0 {
            self
        } else {
            self.polled(scrapes[0]).polled_all(scrapes.drop_first())
        }
    }

    /// A gate for the given window, on which the first scrape refreshes whenever
    /// it comes.
    pub fn new(window: u64) -> (gate: CacheGate)
        ensures
            gate == (CacheGate { last: None, window }),
            forall|now: u64| gate.is_due(now),
    {
        CacheGate { last: None, window }
    }

    /// Whether a scrape at `now` has to refresh. Changes nothing: a caller that
    /// goes on to refresh calls `poll`.
    pub fn should_refresh(&self, now: u64) -> (due: bool)
        ensures
            due == self.is_due(now),
    {
        match self.last {
            None => true,
            Some(last) => {
                let passed: u64 = if now >= last {
                    now - last
                } else {
                    0
                };
                passed >= self.window
            },
        }
    }

    /// Records that a refresh began at `now`.
    pub fn mark_refreshed(&mut self, now: u64)
        ensures
            *final(self) == old(self).stamped(now),
    {
        self.last = Some(now);
    }

    /// Checks and stamps in one step: says whether a scrape at `now` has to
    /// refresh, and if so records that the refresh began at `now`, before it is
    /// carried out.
    pub fn poll(&mut self, now: u64) -> (due: bool)
        ensures
            due == old(self).is_due(now),
            *final(self) == old(self).polled(now),
    {
        let due = self.should_refresh(now);
        if due {
            self.mark_refreshed(now);
        }
        due
    }
}

/// A scrape that comes less than a window after a refresh began does not fetch.
pub proof fn lemma_fresh_within_window(gate: CacheGate, refreshed: u64, later: u64)
    requires
        refreshed + later <= u64::MAX,
        later < gate.window,
    ensures
        !gate.stamped(refreshed).is_due((refreshed + later) as u64),
        gate.stamped(refreshed).fetches(seq![(refreshed + later) as u64]) == 0,
{
    let scrapes = seq![(refreshed + later) as u64];
    assert(scrapes.drop_first().len() == 0);
    assert(gate.stamped(refreshed).polled(scrapes[0]).fetches(scrapes.drop_first()) == 0);
}

/// However many scrapes come before a window has passed since a refresh began,
/// none of them fetches.
pub proof fn lemma_no_fetch_within_window(gate: CacheGate, refreshed: u64, scrapes: Seq<u64>)
    requires
        forall|i: int|
            0 <= i < scrapes.len() ==> refreshed <= #[trigger] scrapes[i] < refreshed + gate.window,
    ensures
        gate.stamped(refreshed).fetches(scrapes) == 0,
        gate.stamped(refreshed).polled_all(scrapes) == gate.stamped(refreshed),
    decreases scrapes.len(),
{
    if scrapes.len() > 0 {
        assert(refreshed <= scrapes[0] < refreshed + gate.window);
        assert(!gate.stamped(refreshed).is_due(scrapes[0]));
        assert forall|i: int| 0 <= i < scrapes.drop_first().len() implies refreshed <= (
        #[trigger] scrapes.drop_first()[i]) < refreshed + gate.window by {
            assert(scrapes.drop_first()[i] == scrapes[i + 1]);
        }
        lemma_no_fetch_within_window(gate, refreshed, scrapes.drop_first());
    }
}

/// A scrape that comes a window or more after the last refresh began fetches,
/// once, and stamps the cache gate with its own time.
pub proof fn lemma_stale_fetches_once(gate: CacheGate, refreshed: u64, later: u64)
    requires
        refreshed + later <= u64::MAX,
        later >= gate.window,
    ensures
        gate.stamped(refreshed).is_due((refreshed + later) as u64),
        gate.stamped(refreshed).fetches(seq![(refreshed + later) as u64]) == 1,
        gate.stamped(refreshed).polled((refreshed + later) as u64) == gate.stamped(
            (refreshed + later) as u64,
        ),
{
    let scrapes = seq![(refreshed + later) as u64];
    assert(scrapes.drop_first().len() == 0);
    assert(gate.stamped(refreshed).polled(scrapes[0]).fetches(scrapes.drop_first()) == 0);
}

/// Of any number of scrapes that arrive together when a refresh is due, the one
/// served first fetches and no other does. The window must not be empty: with a
/// window of no length every scrape refreshes.
pub proof fn lemma_simultaneous_scrapes_fetch_once(gate: CacheGate, now: u64, count: nat)
    requires
        gate.is_due(now),
        gate.window > 0,
        count >= 1,
    ensures
        gate.fetches(simultaneous(now, count)) == 1,
        gate.polled_all(simultaneous(now, count)) == gate.stamped(now),
{
    let scrapes = simultaneous(now, count);
    let rest = simultaneous(now, (count - 1) as nat);
    assert(scrapes.drop_first() =~= rest);
    assert(gate.stamped(now).window == gate.window);
    lemma_no_fetch_within_window(gate, now, rest);
}

} // verus!
