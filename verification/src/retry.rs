//! Getting a dropped connection back: when to dial again and what to say.

use vstd::prelude::*;

use crate::text::{cat, dec, decimal};

verus! {

/// How long after a drop the first redial goes out, in milliseconds.
pub const RETRY_MIN_MS: i64 = 1_000;

/// The longest that the wait between redials grows to.
pub const RETRY_MAX_MS: i64 = 30_000;

/// The longest that a wait is drawn out to spread the radios of one station.
pub const STAGGER_MAX_MS: i64 = 750;

/// The latest moment, in milliseconds, that the clock is read at: far beyond
/// any date, and far enough below what fits for a wait to be added.
pub const CLOCK_END_MS: i64 = 0x3fff_ffff_ffff_ffff;

/// The state of a radio's connection.
#[derive(Debug)]
pub struct Link {
    /// What went wrong, while something is.
    pub error: Option<String>,
    /// When the next redial goes out.
    pub retry_at: Option<i64>,
    /// How long the next wait will be.
    pub backoff: i64,
}

/// The extra wait that spreads the radios of one station.
pub open spec fn stagger(radio_id: u32) -> int {
    250 * (radio_id % 4)
}

/// The wait after one of `backoff`: twice as long, up to the longest.
pub open spec fn longer(backoff: int) -> int {
    if 2 * backoff <= RETRY_MAX_MS {
        2 * backoff
    } else {
        RETRY_MAX_MS as int
    }
}

impl Link {
    /// A wait is never shorter than the first nor longer than the longest.
    pub open spec fn wf(&self) -> bool {
        RETRY_MIN_MS <= self.backoff <= RETRY_MAX_MS
    }

    /// A connection with nothing wrong.
    pub fn new() -> (l: Link)
        ensures
            l.wf(),
            l.error is None,
            l.retry_at is None,
            l.backoff == RETRY_MIN_MS,
    {
        Link { error: None, retry_at: None, backoff: RETRY_MIN_MS }
    }

    /// Line up the next redial. A drop is often reported twice, and neither
    /// the wait nor its length is charged for that twice.
    pub fn arm_retry(&mut self, now: i64, radio_id: u32, can_reconnect: bool)
        requires
            old(self).wf(),
            now <= CLOCK_END_MS,
        ensures
            final(self).wf(),
            final(self).error == old(self).error,
            if old(self).retry_at is Some || !can_reconnect {
                *final(self) == *old(self)
            } else {
                &&& final(self).retry_at == Some((now + old(self).backoff + stagger(radio_id)) as i64)
                &&& final(self).backoff == longer(old(self).backoff as int)
            },
    {
        if self.retry_at.is_some() || !can_reconnect {
            return;
        }
        let stagger: i64 = 250 * (radio_id % 4) as i64;
        self.retry_at = Some(now + self.backoff + stagger);
        self.backoff = if 2 * self.backoff <= RETRY_MAX_MS {
            2 * self.backoff
        } else {
            RETRY_MAX_MS
        };
    }

    /// The connection was lost.
    pub fn on_lost(&mut self, error: String, now: i64, radio_id: u32, can_reconnect: bool)
        requires
            old(self).wf(),
            now <= CLOCK_END_MS,
        ensures
            final(self).wf(),
            final(self).error == Some(error),
            if old(self).retry_at is Some || !can_reconnect {
                final(self).retry_at == old(self).retry_at && final(self).backoff == old(self).backoff
            } else {
                &&& final(self).retry_at == Some((now + old(self).backoff + stagger(radio_id)) as i64)
                &&& final(self).backoff == longer(old(self).backoff as int)
            },
    {
        self.error = Some(error);
        self.arm_retry(now, radio_id, can_reconnect);
    }

    /// The far end accepted the session, so the next drop starts its waits
    /// from the shortest.
    pub fn on_accepted(&mut self)
        requires
            old(self).wf(),
        ensures
            final(self).wf(),
            *final(self) == (Link { backoff: RETRY_MIN_MS, ..*old(self) }),
    {
        self.backoff = RETRY_MIN_MS;
    }

    /// True when the redial goes out now. The clock may step backwards: a wait
    /// that lies further off than any that is ever lined up is over too.
    pub open spec fn is_due(&self, now: int) -> bool {
        self.retry_at matches Some(at) && (now >= at || now < at - RETRY_MAX_MS - STAGGER_MAX_MS)
    }

    /// True when the redial goes out now.
    pub fn due(&self, now: i64) -> (r: bool)
        ensures
            r == self.is_due(now as int),
    {
        match self.retry_at {
            Some(at) => now >= at || (now as i128) < at as i128 - RETRY_MAX_MS as i128
                - STAGGER_MAX_MS as i128,
            None => false,
        }
    }

    /// The redial went out. `failed` is the error of one that did not even
    /// start; nothing else will report it, so the next is lined up here.
    pub fn reconnect_now(
        &mut self,
        failed: Option<String>,
        now: i64,
        radio_id: u32,
        can_reconnect: bool,
    )
        requires
            old(self).wf(),
            now <= CLOCK_END_MS,
        ensures
            final(self).wf(),
            final(self).error == failed,
            if failed is Some && can_reconnect {
                &&& final(self).retry_at == Some((now + old(self).backoff + stagger(radio_id)) as i64)
                &&& final(self).backoff == longer(old(self).backoff as int)
            } else {
                final(self).retry_at is None && final(self).backoff == old(self).backoff
            },
    {
        self.error = None;
        self.retry_at = None;
        if failed.is_some() {
            self.error = failed;
            self.arm_retry(now, radio_id, can_reconnect);
        }
    }

    /// The operator asked for a redial: the waits start from the shortest
    /// again.
    pub fn redial_by_hand(&mut self)
        requires
            old(self).wf(),
        ensures
            final(self).wf(),
            final(self).backoff == RETRY_MIN_MS,
            *final(self) == (Link { backoff: RETRY_MIN_MS, ..*old(self) }),
    {
        self.backoff = RETRY_MIN_MS;
    }

    /// True while a redial is still to come.
    pub fn pending(&self) -> (r: bool)
        ensures
            r == self.retry_at is Some,
    {
        self.retry_at.is_some()
    }

    /// What the error screen says is going to happen.
    pub open spec fn outlook(&self, now: int) -> Seq<char> {
        match self.retry_at {
            Some(at) => if at - now >= 1000 {
                "Reconnecting in "@ + dec(((at - now + 999) / 1000) as nat) + "s…"@
            } else {
                "Reconnecting…"@
            },
            None => "Not connected."@,
        }
    }

    /// What the error screen says is going to happen: the whole seconds to the
    /// next redial, rounded up.
    pub fn outlook_text(&self, now: i64) -> (t: String)
        requires
            -CLOCK_END_MS <= now <= CLOCK_END_MS,
            self.retry_at matches Some(at) ==> at <= CLOCK_END_MS,
        ensures
            t@ == self.outlook(now as int),
            self.retry_at is None ==> t@ == "Not connected."@,
            self.retry_at matches Some(at) && at - now < 1000 ==> t@ == "Reconnecting…"@,
    {
        match self.retry_at {
            Some(at) => {
                let left: i128 = at as i128 - now as i128;
                if left >= 1000 {
                    let secs: u64 = ((left + 999) / 1000) as u64;
                    let mut t = cat("Reconnecting in ", decimal(secs).as_str());
                    t.append("s…");
                    t
                } else {
                    "Reconnecting…".to_owned()
                }
            },
            None => "Not connected.".to_owned(),
        }
    }
}

/// The wait that the `n`th redial of an outage has ahead of it.
pub open spec fn nth_wait(n: nat) -> int
    decreases n,
{
    if n == 0 {
        RETRY_MIN_MS as int
    } else {
        longer(nth_wait((n - 1) as nat))
    }
}

/// Waits double from the shortest up to the longest: no wait is shorter than
/// the one ahead of it, and from the fifth redial on each is the longest.
pub proof fn law_waits_grow_to_the_longest(n: nat)
    ensures
        RETRY_MIN_MS <= nth_wait(n) <= nth_wait(n + 1) <= RETRY_MAX_MS,
        n >= 5 ==> nth_wait(n) == RETRY_MAX_MS,
    decreases n,
{
    if n > 0 {
        law_waits_grow_to_the_longest((n - 1) as nat);
    }
    if n == 5 {
        reveal_with_fuel(nth_wait, 6);
    }
}

/// No two of four radios numbered one behind the other dial at the same
/// moment, and the spread stays under a second.
pub proof fn law_radios_of_a_station_are_spread(a: u32, b: u32)
    requires
        a < b < a + 4,
    ensures
        stagger(a) != stagger(b),
        0 <= stagger(a) <= STAGGER_MAX_MS,
{
}

/// A wait that was lined up at `armed` is over once its time has come, and
/// from `armed` on no sooner: only a clock that was set back ends it early.
pub proof fn law_redial_goes_out_on_time(l: Link, armed: int, now: int, backoff: int, radio_id: u32)
    requires
        RETRY_MIN_MS <= backoff <= RETRY_MAX_MS,
        l.retry_at matches Some(at) && at == armed + backoff + stagger(radio_id),
    ensures
        now >= armed + backoff + stagger(radio_id) ==> l.is_due(now),
        armed <= now < armed + backoff + stagger(radio_id) ==> !l.is_due(now),
        now < armed + backoff + stagger(radio_id) && l.is_due(now) ==> now < armed,
{
}

/// A wait is twice the one before it, and never more than half a minute; the
/// first is a second.
pub proof fn law_a_wait_doubles(wait: int)
    requires
        1_000 <= wait <= 30_000,
    ensures
        wait <= 15_000 ==> longer(wait) == 2 * wait,
        wait >= 15_000 ==> longer(wait) == 30_000,
        nth_wait(0) == 1_000 && nth_wait(1) == 2_000 && nth_wait(4) == 16_000,
{
    reveal_with_fuel(nth_wait, 6);
}

/// Neighbouring radios of a station dial a quarter of a second apart, and every
/// fourth one together.
pub proof fn law_radios_are_a_quarter_second_apart(id: u32)
    requires
        id < u32::MAX - 4,
    ensures
        stagger((id + 4) as u32) == stagger(id),
        stagger(id) < 750 ==> stagger((id + 1) as u32) == stagger(id) + 250,
        stagger(0) == 0,
{
    let (a, b) = (id % 4, (id + 1) % 4);
    assert((id + 4) % 4 == a);
    assert(a < 3 ==> b == a + 1);
}

/// Without a redial lined up none is due, and one that is due stays due as time
/// goes on.
pub proof fn law_a_due_redial_stays_due(l: Link, now: int, later: int)
    requires
        now <= later,
    ensures
        l.retry_at is None ==> !l.is_due(now),
        l.retry_at is Some && now >= l.retry_at->0 ==> l.is_due(now) && l.is_due(later),
{
}

/// The error screen counts whole seconds down to the redial, rounded up, and
/// below one says only that it is coming.
pub proof fn law_the_screen_counts_down(l: Link, now: int, n: nat)
    requires
        l.retry_at is Some,
        1_000 * (n - 1) < l.retry_at->0 - now <= 1_000 * n,
    ensures
        n >= 2 ==> l.outlook(now) == "Reconnecting in "@ + dec(n) + "s…"@,
        n == 0 ==> l.outlook(now) == "Reconnecting…"@,
        n == 1 && l.retry_at->0 - now < 1_000 ==> l.outlook(now) == "Reconnecting…"@,
{
    let left = l.retry_at->0 - now;
    if n >= 2 {
        assert((left + 999) / 1000 == n);
    }
}

} // verus!
