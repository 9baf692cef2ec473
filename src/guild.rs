//! The state of one guild as a mathematical value, the transitions that
//! the playback operations and the scheduler make on it, and the laws those
//! transitions obey.
use vstd::prelude::*;
use crate::track::SongInfo;

verus! {

/// Seconds the scheduler waits past a track's end before moving on.
pub const GRACE_SECS: u64 = 10;

/// The loaded track of a guild. `started_at` is the second at which it began
/// playing, or `None` when it is loaded but not advancing (paused).
pub struct Slot {
    pub started_at: Option<u64>,
    pub current: SongInfo,
}

/// What one guild holds: its pending tracks, front first, and its loaded track.
pub struct GuildModel {
    pub queue: Seq<SongInfo>,
    pub slot: Option<Slot>,
}

/// What a scheduler tick decided for one guild.
pub enum TickOutcome {
    /// Nothing to do: not playing, not yet due, or nothing queued.
    Idle,
    /// Due, but the voice connection is gone: the guild was paused.
    Paused,
    /// Due: this track was taken from the front of the queue and should start.
    Next(SongInfo),
}

/// A guild with no queue and no loaded track.
pub open spec fn empty_guild() -> GuildModel {
    GuildModel { queue: Seq::empty(), slot: None }
}

/// The guild is playing: a track is loaded and advancing.
pub open spec fn is_playing(m: GuildModel) -> bool {
    m.slot is Some && m.slot->Some_0.started_at is Some
}

/// The guild is paused: a track is loaded but not advancing.
pub open spec fn is_paused(m: GuildModel) -> bool {
    m.slot is Some && m.slot->Some_0.started_at is None
}

/// The titles of a queue, in order.
pub open spec fn titles(q: Seq<SongInfo>) -> Seq<String> {
    q.map_values(|t: SongInfo| t.title)
}

/// Appends a track to the back of the queue.
pub open spec fn enqueue_spec(m: GuildModel, t: SongInfo) -> GuildModel {
    GuildModel { queue: m.queue.push(t), slot: m.slot }
}

/// Loads a track as the current one, playing from `now`.
pub open spec fn promote_spec(m: GuildModel, t: SongInfo, now: u64) -> GuildModel {
    GuildModel { queue: m.queue, slot: Some(Slot { started_at: Some(now), current: t }) }
}

/// Restarts the loaded track from `now`; without one, nothing changes.
pub open spec fn resume_spec(m: GuildModel, now: u64) -> GuildModel {
    match m.slot {
        Some(s) => GuildModel {
            queue: m.queue,
            slot: Some(Slot { started_at: Some(now), current: s.current }),
        },
        None => m,
    }
}

/// Stops the loaded track from advancing; without one, nothing changes.
pub open spec fn pause_spec(m: GuildModel) -> GuildModel {
    match m.slot {
        Some(s) => GuildModel {
            queue: m.queue,
            slot: Some(Slot { started_at: None, current: s.current }),
        },
        None => m,
    }
}

/// Moves the front of the queue into the slot, playing from `now`; with an
/// empty queue, nothing changes.
pub open spec fn skip_spec(m: GuildModel, now: u64) -> GuildModel {
    if m.queue.len() > 0 {
        GuildModel {
            queue: m.queue.drop_first(),
            slot: Some(Slot { started_at: Some(now), current: m.queue[0] }),
        }
    } else {
        m
    }
}

/// Position `n` (counted from one) names a queued track.
pub open spec fn skip_to_in_range(m: GuildModel, n: int) -> bool {
    1 <= n <= m.queue.len()
}

/// Drops the first `n - 1` queued tracks and plays the next from `now`;
/// out of range, nothing changes.
pub open spec fn skip_to_spec(m: GuildModel, n: int, now: u64) -> GuildModel {
    if skip_to_in_range(m, n) {
        GuildModel {
            queue: m.queue.subrange(n, m.queue.len() as int),
            slot: Some(Slot { started_at: Some(now), current: m.queue[n - 1] }),
        }
    } else {
        m
    }
}

/// Clears the queue and unloads the track.
pub open spec fn stop_spec(m: GuildModel) -> GuildModel {
    empty_guild()
}

/// The loaded track has been playing for its whole length plus the grace
/// period at second `now`.
pub open spec fn is_due(m: GuildModel, now: u64) -> bool {
    match m.slot {
        Some(s) => match s.started_at {
            Some(t) => now as int >= t as int + s.current.duration_secs as int + GRACE_SECS as int,
            None => false,
        },
        None => false,
    }
}

/// The state after one scheduler tick at second `now`.
pub open spec fn tick_spec(m: GuildModel, now: u64, connected: bool) -> GuildModel {
    if !is_due(m, now) || m.queue.len() == 0 {
        m
    } else if !connected {
        pause_spec(m)
    } else {
        GuildModel { queue: m.queue.drop_first(), slot: m.slot }
    }
}

/// What one scheduler tick at second `now` reports.
pub open spec fn tick_outcome_spec(m: GuildModel, now: u64, connected: bool) -> TickOutcome {
    if !is_due(m, now) || m.queue.len() == 0 {
        TickOutcome::Idle
    } else if !connected {
        TickOutcome::Paused
    } else {
        TickOutcome::Next(m.queue[0])
    }
}

/// The state after enqueuing each of `ts` in order.
pub open spec fn enqueue_all(m: GuildModel, ts: Seq<SongInfo>) -> GuildModel
    decreases ts.len(),
{
    if ts.len() == 0 {
        m
    } else {
        enqueue_spec(enqueue_all(m, ts.drop_last()), ts.last())
    }
}

/// The state after `k` skips, all at second `now`.
pub open spec fn skip_n(m: GuildModel, k: nat, now: u64) -> GuildModel
    decreases k,
{
    if k == 0 {
        m
    } else {
        skip_spec(skip_n(m, (k - 1) as nat, now), now)
    }
}

/// Enqueuing a sequence of tracks appends it to the queue and leaves the slot.
pub proof fn lemma_enqueue_all(m: GuildModel, ts: Seq<SongInfo>)
    ensures
        enqueue_all(m, ts).queue == m.queue + ts,
        enqueue_all(m, ts).slot == m.slot,
    decreases ts.len(),
{
    if ts.len() > 0 {
        lemma_enqueue_all(m, ts.drop_last());
        assert(m.queue + ts == (m.queue + ts.drop_last()).push(ts.last()));
    }
}

/// `k` skips on a queue of at least `k` tracks drop its first `k` and leave
/// the `k`-th playing.
pub proof fn lemma_skip_n(m: GuildModel, k: nat, now: u64)
    requires
        k <= m.queue.len(),
    ensures
        skip_n(m, k, now).queue == m.queue.subrange(k as int, m.queue.len() as int),
        k > 0 ==> skip_n(m, k, now).slot == Some(
            Slot { started_at: Some(now), current: m.queue[k - 1] },
        ),
    decreases k,
{
    if k > 0 {
        lemma_skip_n(m, (k - 1) as nat, now);
        let prev = skip_n(m, (k - 1) as nat, now);
        assert(prev.queue.len() > 0);
        assert(prev.queue[0] == m.queue[k - 1]);
        assert(prev.queue.drop_first() == m.queue.subrange(k as int, m.queue.len() as int));
    } else {
        assert(m.queue.subrange(0, m.queue.len() as int) == m.queue);
    }
}

/// Tracks come out in the order they went in: after enqueuing `ts` on an
/// empty queue, the `i`-th skip plays `ts[i - 1]`, and what is left queued is
/// the rest of `ts`.
pub proof fn law_queue_fifo(m: GuildModel, ts: Seq<SongInfo>, i: nat, now: u64)
    requires
        m.queue.len() == 0,
        1 <= i <= ts.len(),
    ensures
        skip_n(enqueue_all(m, ts), i, now).slot == Some(
            Slot { started_at: Some(now), current: ts[i - 1] },
        ),
        skip_n(enqueue_all(m, ts), i, now).queue == ts.subrange(i as int, ts.len() as int),
{
    lemma_enqueue_all(m, ts);
    assert(m.queue + ts == ts);
    lemma_skip_n(enqueue_all(m, ts), i, now);
}

/// A skip to a position past the end of the queue changes nothing; a skip to
/// a position in range plays the track that stood there.
pub proof fn law_skip_to_bounds(m: GuildModel, n: int, now: u64)
    ensures
        n > m.queue.len() ==> !skip_to_in_range(m, n) && skip_to_spec(m, n, now) == m,
        skip_to_in_range(m, n) ==> skip_to_spec(m, n, now).slot == Some(
            Slot { started_at: Some(now), current: m.queue[n - 1] },
        ),
        skip_to_in_range(m, n) ==> skip_to_spec(m, n, now).queue.len() == m.queue.len() - n,
{
}

/// Pausing and then resuming replays the same track, from `now`, with the
/// queue untouched; pausing with nothing loaded changes nothing.
pub proof fn law_pause_resume(m: GuildModel, now: u64)
    ensures
        m.slot is Some ==> resume_spec(pause_spec(m), now) == (GuildModel {
            queue: m.queue,
            slot: Some(Slot { started_at: Some(now), current: m.slot->Some_0.current }),
        }),
        m.slot is None ==> pause_spec(m) == m,
{
}

/// A playing guild whose track ended more than the grace period ago, with one
/// track queued and a live connection, hands that track out on a tick; once
/// it is loaded it plays from `now` and the queue is one shorter.
pub proof fn law_tick_advances(m: GuildModel, now: u64)
    requires
        is_playing(m),
        m.queue.len() >= 1,
        m.slot->Some_0.started_at->Some_0 as int + m.slot->Some_0.current.duration_secs as int
            + GRACE_SECS as int + 1 == now as int,
    ensures
        tick_outcome_spec(m, now, true) == TickOutcome::Next(m.queue[0]),
        promote_spec(tick_spec(m, now, true), m.queue[0], now).slot == Some(
            Slot { started_at: Some(now), current: m.queue[0] },
        ),
        promote_spec(tick_spec(m, now, true), m.queue[0], now).queue.len() == m.queue.len() - 1,
{
}

/// A playing guild whose track ended less than the grace period ago is left
/// as it is by a tick.
pub proof fn law_tick_waits(m: GuildModel, now: u64, connected: bool)
    requires
        is_playing(m),
        m.slot->Some_0.started_at->Some_0 as int + m.slot->Some_0.current.duration_secs as int
            + 5 == now as int,
    ensures
        tick_spec(m, now, connected) == m,
        tick_outcome_spec(m, now, connected) == TickOutcome::Idle,
{
}

/// After a stop the guild lists no titles and has no loaded track, and a
/// track loaded next starts a fresh playing state with nothing queued.
pub proof fn law_stop_clears(m: GuildModel, t: SongInfo, now: u64)
    ensures
        titles(stop_spec(m).queue).len() == 0,
        !is_playing(stop_spec(m)) && !is_paused(stop_spec(m)),
        promote_spec(stop_spec(m), t, now) == (GuildModel {
            queue: Seq::empty(),
            slot: Some(Slot { started_at: Some(now), current: t }),
        }),
{
}

} // verus!
