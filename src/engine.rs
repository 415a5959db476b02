use vstd::prelude::*;
use crate::activity::{credit, uptime_of, ActivityState};
use crate::store::{json_uptimes, save};

verus! {

/// Whole seconds from one clock reading to a later one, both in
/// milliseconds; a reading earlier than the last one gives zero.
pub open spec fn seconds_between(last_ms: u64, now_ms: u64) -> u64 {
    if now_ms >= last_ms {
        ((now_ms - last_ms) / 1000) as u64
    } else {
        0
    }
}

/// The mapping after one tick that measured `secs` seconds: credited to the
/// identity sampled, or left alone where none could be resolved.
pub open spec fn after_tick(m: Map<Seq<char>, u64>, id: Option<Seq<char>>, secs: u64) -> Map<
    Seq<char>,
    u64,
> {
    match id {
        Some(k) => credit(m, k, secs),
        None => m,
    }
}

/// The identity that a sample names, as characters.
pub open spec fn sample_view(id: Option<String>) -> Option<Seq<char>> {
    match id {
        Some(s) => Some(s@),
        None => None,
    }
}

/// The mapping after a run of resolved ticks, each an identity and the
/// seconds it measured, applied in order.
pub open spec fn replay(m: Map<Seq<char>, u64>, ticks: Seq<(Seq<char>, u64)>) -> Map<
    Seq<char>,
    u64,
>
    decreases ticks.len(),
{
    if ticks.len() == 0 {
        m
    } else {
        credit(replay(m, ticks.drop_last()), ticks.last().0, ticks.last().1)
    }
}

/// The seconds that a run of ticks measured while `id` had focus.
pub open spec fn attributed(ticks: Seq<(Seq<char>, u64)>, id: Seq<char>) -> nat
    decreases ticks.len(),
{
    if ticks.len() == 0 {
        0
    } else {
        attributed(ticks.drop_last(), id) + if ticks.last().0 == id {
            ticks.last().1 as nat
        } else {
            0
        }
    }
}

/// The whole seconds between two clock readings in milliseconds; zero where
/// the clock went backwards.
pub fn elapsed_secs(last_ms: u64, now_ms: u64) -> (r: u64)
    ensures
        r == seconds_between(last_ms, now_ms),
        now_ms < last_ms ==> r == 0,
{
    if now_ms >= last_ms {
        (now_ms - last_ms) / 1000
    } else {
        0
    }
}

/// The loop-driving component: it owns the activity state and the clock
/// reading of the last tick.
pub struct Tracker {
    state: ActivityState,
    last_tick_ms: u64,
}

impl Tracker {
    pub closed spec fn wf(&self) -> bool {
        self.state.wf()
    }

    /// The cumulative seconds per identity.
    pub closed spec fn activity(&self) -> Map<Seq<char>, u64> {
        self.state@
    }

    /// The clock reading, in milliseconds, of the last tick.
    pub closed spec fn last_tick(&self) -> u64 {
        self.last_tick_ms
    }

    /// Starts tracking from a loaded state at clock reading `now_ms`.
    pub fn new(state: ActivityState, now_ms: u64) -> (r: Tracker)
        requires
            state.wf(),
        ensures
            r.wf(),
            r.activity() == state@,
            r.last_tick() == now_ms,
    {
        Tracker { state, last_tick_ms: now_ms }
    }

    /// The state tracked so far.
    pub fn state(&self) -> (r: &ActivityState)
        requires
            self.wf(),
        ensures
            r.wf(),
            r@ == self.activity(),
    {
        &self.state
    }

    /// The clock reading of the last tick.
    pub fn last_tick_ms(&self) -> (r: u64)
        ensures
            r == self.last_tick(),
    {
        self.last_tick_ms
    }

    /// One tick at clock reading `now_ms` with the identity sampled then.
    /// The seconds since the last tick go to that identity, or are dropped
    /// where none was resolved. Where the state changed, the result is the
    /// text to write to the store in place of its contents.
    pub fn tick(&mut self, now_ms: u64, identity: Option<String>) -> (r: Option<String>)
        requires
            old(self).wf(),
        ensures
            final(self).wf(),
            final(self).last_tick() == now_ms,
            final(self).activity() == after_tick(
                old(self).activity(),
                sample_view(identity),
                seconds_between(old(self).last_tick(), now_ms),
            ),
            identity is None ==> final(self).activity() == old(self).activity(),
            forall|k: Seq<char>| #[trigger]
                old(self).activity().contains_key(k) ==> final(self).activity().contains_key(k)
                    && old(self).activity()[k] <= final(self).activity()[k],
            match r {
                Some(text) => identity is Some && json_uptimes(text@) == Some(
                    final(self).activity(),
                ),
                None => identity is None,
            },
    {
        let secs = elapsed_secs(self.last_tick_ms, now_ms);
        self.last_tick_ms = now_ms;
        match identity {
            Some(id) => {
                self.state.credit(id, secs);
                Some(save(&self.state))
            },
            None => None,
        }
    }
}

/// A tick that resolved `id` and measured `secs` seconds takes the state
/// one step further along the run of resolved ticks.
pub proof fn lemma_tick_extends_replay(
    m: Map<Seq<char>, u64>,
    ticks: Seq<(Seq<char>, u64)>,
    id: Seq<char>,
    secs: u64,
)
    ensures
        replay(m, ticks.push((id, secs))) == after_tick(replay(m, ticks), Some(id), secs),
{
    assert(ticks.push((id, secs)).drop_last() =~= ticks);
}

/// Time is conserved: after a run of resolved ticks, each identity holds
/// what it held before plus exactly the seconds of the ticks that named it,
/// as long as that total fits in a `u64`.
pub proof fn lemma_time_conservation(
    m: Map<Seq<char>, u64>,
    ticks: Seq<(Seq<char>, u64)>,
    id: Seq<char>,
)
    requires
        uptime_of(m, id) + attributed(ticks, id) <= u64::MAX,
    ensures
        uptime_of(replay(m, ticks), id) == uptime_of(m, id) + attributed(ticks, id),
    decreases ticks.len(),
{
    if ticks.len() > 0 {
        lemma_time_conservation(m, ticks.drop_last(), id);
    }
}

/// No identity ever loses time or disappears over a run of ticks.
pub proof fn lemma_monotone(m: Map<Seq<char>, u64>, ticks: Seq<(Seq<char>, u64)>, id: Seq<char>)
    ensures
        m.contains_key(id) ==> replay(m, ticks).contains_key(id),
        uptime_of(m, id) <= uptime_of(replay(m, ticks), id),
    decreases ticks.len(),
{
    if ticks.len() > 0 {
        lemma_monotone(m, ticks.drop_last(), id);
    }
}

} // verus!
