//! The two process-wide stores, pending tracks and loaded tracks, keyed by
//! guild, and the operations that commands and the scheduler make on them.
use vstd::prelude::*;
use std::collections::HashMap;
use vstd::std_specs::iter::IteratorSpec;
use std::collections::VecDeque;
use crate::track::{
    SongInfo, ResolutionError, is_json_object, process_output, record_ok, track_of, tracks_of, views,
    lemma_views_push,
};
use crate::guild::{
    GuildModel, Slot, empty_guild, enqueue_spec, promote_spec, resume_spec, pause_spec, skip_spec,
    skip_to_in_range, skip_to_spec, stop_spec, titles, is_playing, is_due, tick_spec,
    tick_outcome_spec, TickOutcome, GRACE_SECS,
};

verus! {

broadcast use {vstd::std_specs::hash::group_hash_axioms, vstd::std_specs::vecdeque::group_vec_dequeue_axioms};

/// Why a playback operation did nothing.
#[derive(Clone, Copy, Debug, PartialEq, Eq, Structural)]
pub enum PlayError {
    /// There is no loaded track to resume.
    NothingQueued,
    /// The requested queue position does not exist.
    NotEnoughSongs,
}

/// The queue store and the playback store. A guild absent from a store has
/// an empty queue, or no loaded track. Each guild also has a generation,
/// which `stop` advances, so that work begun before a stop can be told apart
/// from work begun after it.
pub struct Player {
    queues: HashMap<u64, VecDeque<SongInfo>>,
    slots: HashMap<u64, Slot>,
    epochs: HashMap<u64, u64>,
}

impl Player {
    /// The state of guild `g`.
    pub closed spec fn model(&self, g: u64) -> GuildModel {
        GuildModel {
            queue: if self.queues@.contains_key(g) {
                self.queues@[g]@
            } else {
                Seq::empty()
            },
            slot: if self.slots@.contains_key(g) {
                Some(self.slots@[g])
            } else {
                None
            },
        }
    }

    /// The generation of guild `g`: zero until its first stop.
    pub closed spec fn epoch(&self, g: u64) -> u64 {
        if self.epochs@.contains_key(g) {
            self.epochs@[g]
        } else {
            0
        }
    }

    /// No guild's generation differs from `before`.
    pub open spec fn same_epochs(&self, before: &Player) -> bool {
        forall|h: u64| #[trigger] self.epoch(h) == before.epoch(h)
    }

    /// Every guild but `g` is as it was in `before`.
    pub open spec fn others_unchanged(&self, before: &Player, g: u64) -> bool {
        forall|h: u64| h != g ==> #[trigger] self.model(h) == before.model(h)
    }

    /// Both stores empty.
    pub fn new() -> (r: Player)
        ensures
            forall|g: u64| #[trigger] r.model(g) == empty_guild(),
            forall|g: u64| #[trigger] r.epoch(g) == 0,
    {
        Player { queues: HashMap::new(), slots: HashMap::new(), epochs: HashMap::new() }
    }

    fn take_queue(&mut self, g: u64) -> (q: VecDeque<SongInfo>)
        ensures
            q@ == old(self).model(g).queue,
            final(self).queues@ == old(self).queues@.remove(g),
            final(self).slots == old(self).slots,
            final(self).epochs == old(self).epochs,
    {
        match self.queues.remove(&g) {
            Some(q) => q,
            None => VecDeque::new(),
        }
    }

    fn put_queue(&mut self, g: u64, q: VecDeque<SongInfo>)
        ensures
            final(self).queues@ == old(self).queues@.insert(g, q),
            final(self).slots == old(self).slots,
            final(self).epochs == old(self).epochs,
    {
        self.queues.insert(g, q);
    }

    /// Appends a track to the back of guild `g`'s queue.
    pub fn enqueue(&mut self, g: u64, t: SongInfo)
        ensures
            final(self).model(g) == enqueue_spec(old(self).model(g), t),
            final(self).others_unchanged(old(self), g),
            final(self).same_epochs(old(self)),
    {
        let mut q = self.take_queue(g);
        q.push_back(t);
        self.put_queue(g, q);
        assert(final(self).model(g).queue == enqueue_spec(old(self).model(g), t).queue);
    }

    /// Loads `t` as guild `g`'s current track, playing from second `now`.
    pub fn promote(&mut self, g: u64, t: SongInfo, now: u64)
        ensures
            final(self).model(g) == promote_spec(old(self).model(g), t, now),
            final(self).others_unchanged(old(self), g),
            final(self).same_epochs(old(self)),
    {
        self.slots.insert(g, Slot { started_at: Some(now), current: t });
    }

    /// Restarts guild `g`'s loaded track from second `now`; with none loaded,
    /// reports that nothing is queued and changes nothing.
    pub fn resume(&mut self, g: u64, now: u64) -> (r: Result<(), PlayError>)
        ensures
            final(self).model(g) == resume_spec(old(self).model(g), now),
            final(self).others_unchanged(old(self), g),
            final(self).same_epochs(old(self)),
            r is Ok <==> old(self).model(g).slot is Some,
            r is Err ==> r == Err::<(), PlayError>(PlayError::NothingQueued),
    {
        match self.slots.remove(&g) {
            Some(s) => {
                self.slots.insert(g, Slot { started_at: Some(now), current: s.current });
                Ok(())
            },
            None => Err(PlayError::NothingQueued),
        }
    }

    /// Stops guild `g`'s loaded track from advancing; returns whether one was
    /// loaded (only then is there audio to stop).
    pub fn pause(&mut self, g: u64) -> (r: bool)
        ensures
            final(self).model(g) == pause_spec(old(self).model(g)),
            final(self).others_unchanged(old(self), g),
            final(self).same_epochs(old(self)),
            r == old(self).model(g).slot is Some,
    {
        match self.slots.remove(&g) {
            Some(s) => {
                self.slots.insert(g, Slot { started_at: None, current: s.current });
                true
            },
            None => false,
        }
    }

    /// Moves the front of guild `g`'s queue into its slot, playing from
    /// second `now`; returns whether there was one. With an empty queue,
    /// nothing changes.
    pub fn skip(&mut self, g: u64, now: u64) -> (r: bool)
        ensures
            final(self).model(g) == skip_spec(old(self).model(g), now),
            final(self).others_unchanged(old(self), g),
            final(self).same_epochs(old(self)),
            r == (old(self).model(g).queue.len() > 0),
    {
        let mut q = self.take_queue(g);
        let next = q.pop_front();
        self.put_queue(g, q);
        match next {
            Some(t) => {
                self.slots.insert(g, Slot { started_at: Some(now), current: t });
                assert(final(self).model(g).queue == skip_spec(old(self).model(g), now).queue);
                true
            },
            None => {
                assert(final(self).model(g).queue == old(self).model(g).queue);
                false
            },
        }
    }

    /// Drops the first `n - 1` tracks of guild `g`'s queue and plays the next
    /// from second `now`. Unless `1 <= n <= ` the queue's length, reports that
    /// there are not enough songs and changes nothing.
    pub fn skip_to(&mut self, g: u64, n: usize, now: u64) -> (r: Result<(), PlayError>)
        ensures
            final(self).model(g) == skip_to_spec(old(self).model(g), n as int, now),
            final(self).others_unchanged(old(self), g),
            final(self).same_epochs(old(self)),
            r is Ok <==> skip_to_in_range(old(self).model(g), n as int),
            r is Err ==> r == Err::<(), PlayError>(PlayError::NotEnoughSongs),
    {
        let mut q = self.take_queue(g);
        if n == 0 || n > q.len() {
            self.put_queue(g, q);
            assert(final(self).model(g).queue == old(self).model(g).queue);
            return Err(PlayError::NotEnoughSongs);
        }
        let mut rest = q.split_off(n - 1);
        let next = rest.pop_front();
        self.put_queue(g, rest);
        match next {
            Some(t) => {
                self.slots.insert(g, Slot { started_at: Some(now), current: t });
            },
            None => {},
        }
        assert(final(self).model(g).queue == skip_to_spec(old(self).model(g), n as int, now).queue);
        Ok(())
    }

    /// Clears guild `g`'s queue and unloads its track.
    pub fn stop(&mut self, g: u64)
        ensures
            final(self).model(g) == stop_spec(old(self).model(g)),
            final(self).others_unchanged(old(self), g),
            final(self).epoch(g) == next_epoch(old(self).epoch(g)),
            forall|h: u64| h != g ==> #[trigger] final(self).epoch(h) == old(self).epoch(h),
    {
        self.slots.remove(&g);
        self.queues.remove(&g);
        let e = self.current_epoch(g);
        let next = if e < u64::MAX {
            e + 1
        } else {
            0
        };
        self.epochs.insert(g, next);
    }

    /// The generation of guild `g`.
    pub fn current_epoch(&self, g: u64) -> (r: u64)
        ensures
            r == self.epoch(g),
    {
        match self.epochs.get(&g) {
            Some(e) => *e,
            None => 0,
        }
    }

    /// Like `add_line`, for work begun in generation `epoch` of guild `g`: if
    /// the guild has been stopped since, the line is dropped and nothing changes.
    pub fn add_line_in(&mut self, g: u64, epoch: u64, line: &str, channel: u64) -> (r: Option<
        Result<(), ResolutionError>,
    >)
        ensures
            r is None <==> epoch != old(self).epoch(g),
            r is None ==> final(self).model(g) == old(self).model(g),
            r is Some ==> (r->Some_0 is Ok <==> record_ok(line@)),
            r is Some ==> (r->Some_0 == Err::<(), ResolutionError>(ResolutionError::Malformed)
                <==> !is_json_object(line@)),
            r is Some && r->Some_0 is Err ==> final(self).model(g) == old(self).model(g),
            r is Some && r->Some_0 is Ok ==> final(self).model(g) == enqueue_spec(
                old(self).model(g),
                final(self).model(g).queue.last(),
            ),
            r is Some && r->Some_0 is Ok ==> final(self).model(g).queue.last()@ == track_of(
                line@,
                channel,
            ),
            final(self).others_unchanged(old(self), g),
            final(self).same_epochs(old(self)),
    {
        if epoch != self.current_epoch(g) {
            return None;
        }
        Some(self.add_line(g, line, channel))
    }

    /// Decodes one resolver line for guild `g` and, if it is a usable record,
    /// appends its track to the queue. Any other line changes nothing.
    pub fn add_line(&mut self, g: u64, line: &str, channel: u64) -> (r: Result<(), ResolutionError>)
        ensures
            r is Ok <==> record_ok(line@),
            r == Err::<(), ResolutionError>(ResolutionError::Malformed) <==> !is_json_object(line@),
            r is Err ==> final(self).model(g) == old(self).model(g),
            r is Ok ==> final(self).model(g) == enqueue_spec(
                old(self).model(g),
                final(self).model(g).queue.last(),
            ),
            r is Ok ==> final(self).model(g).queue.last()@ == track_of(line@, channel),
            final(self).others_unchanged(old(self), g),
            final(self).same_epochs(old(self)),
    {
        match process_output(line, channel) {
            Ok(t) => {
                self.enqueue(g, t);
                Ok(())
            },
            Err(e) => Err(e),
        }
    }

    /// Adds every line of a resolver's output for guild `g`, in order, and
    /// reports for each line whether it became a track. A line that is not a
    /// usable record is reported and skipped; it never stops the lines after it.
    pub fn add_lines(&mut self, g: u64, lines: &Vec<String>, channel: u64) -> (r: Vec<
        Result<(), ResolutionError>,
    >)
        ensures
            r@.len() == lines@.len(),
            forall|i: int|
                0 <= i < lines@.len() ==> (#[trigger] r@[i] is Ok <==> record_ok(lines@[i]@)),
            forall|i: int|
                0 <= i < lines@.len() ==> (#[trigger] r@[i] == Err::<(), ResolutionError>(
                    ResolutionError::Malformed,
                ) <==> !is_json_object(lines@[i]@)),
            views(final(self).model(g).queue) == views(old(self).model(g).queue) + tracks_of(
                texts(lines@),
                channel,
            ),
            final(self).model(g).queue.subrange(0, old(self).model(g).queue.len() as int)
                == old(self).model(g).queue,
            final(self).model(g).slot == old(self).model(g).slot,
            final(self).others_unchanged(old(self), g),
            final(self).same_epochs(old(self)),
    {
        let mut r: Vec<Result<(), ResolutionError>> = Vec::new();
        let mut i: usize = 0;
        while i < lines.len()
            invariant
                i <= lines@.len(),
                r@.len() == i,
                forall|k: int| 0 <= k < i ==> (#[trigger] r@[k] is Ok <==> record_ok(lines@[k]@)),
                forall|k: int|
                    0 <= k < i ==> (#[trigger] r@[k] == Err::<(), ResolutionError>(
                        ResolutionError::Malformed,
                    ) <==> !is_json_object(lines@[k]@)),
                views(self.model(g).queue) == views(old(self).model(g).queue) + tracks_of(
                    texts(lines@).take(i as int),
                    channel,
                ),
                self.model(g).queue.len() >= old(self).model(g).queue.len(),
                self.model(g).queue.subrange(0, old(self).model(g).queue.len() as int)
                    == old(self).model(g).queue,
                self.model(g).slot == old(self).model(g).slot,
                self.others_unchanged(old(self), g),
                self.same_epochs(old(self)),
            decreases lines@.len() - i,
        {
            let ghost before = self.model(g);
            let ghost prev = *self;
            let o = self.add_line(g, lines[i].as_str(), channel);
            proof {
                let now_q = self.model(g).queue;
                let ls = texts(lines@);
                assert(ls.take(i + 1).drop_last() == ls.take(i as int));
                assert(ls.take(i + 1).last() == lines@[i as int]@);
                if o is Ok {
                    assert(now_q == before.queue.push(now_q.last()));
                    lemma_views_push(before.queue, now_q.last());
                    assert(now_q.subrange(0, old(self).model(g).queue.len() as int)
                        == before.queue.subrange(0, old(self).model(g).queue.len() as int));
                } else {
                    assert(now_q == before.queue);
                }
                assert forall|h: u64| h != g implies #[trigger] self.model(h) == old(self).model(h) by {
                    assert(self.model(h) == prev.model(h));
                }
            }
            let ghost done_before = r@;
            r.push(o);
            assert(r@.drop_last() == done_before);
            i = i + 1;
        }
        assert(texts(lines@).take(lines@.len() as int) == texts(lines@));
        r
    }

    /// Decodes the first resolver line of a `play` for guild `g` and, if it is
    /// a usable record, loads its track as the current one, playing from
    /// second `now`. Any other line changes nothing.
    pub fn start_line(&mut self, g: u64, line: &str, channel: u64, now: u64) -> (r: Result<
        (),
        ResolutionError,
    >)
        ensures
            r is Ok <==> record_ok(line@),
            r == Err::<(), ResolutionError>(ResolutionError::Malformed) <==> !is_json_object(line@),
            r is Err ==> final(self).model(g) == old(self).model(g),
            r is Ok ==> final(self).model(g) == promote_spec(
                old(self).model(g),
                final(self).model(g).slot->Some_0.current,
                now,
            ),
            r is Ok ==> final(self).model(g).slot->Some_0.current@ == track_of(line@, channel),
            final(self).others_unchanged(old(self), g),
            final(self).same_epochs(old(self)),
    {
        match process_output(line, channel) {
            Ok(t) => {
                self.promote(g, t, now);
                Ok(())
            },
            Err(e) => Err(e),
        }
    }

    /// One scheduler tick for guild `g` at second `now`. When the loaded track
    /// is due and a track is queued: with a live connection the front track is
    /// taken out and handed back to be started; without one the guild is
    /// paused and its queue kept. Otherwise nothing changes; in particular a
    /// due track with nothing queued after it keeps its slot as it is. A track
    /// handed back is loaded with `promote` once its audio starts; if the audio
    /// cannot start, the track is dropped and the next tick moves on to the one
    /// after it.
    pub fn tick(&mut self, g: u64, now: u64, connected: bool) -> (r: TickOutcome)
        ensures
            final(self).model(g) == tick_spec(old(self).model(g), now, connected),
            r == tick_outcome_spec(old(self).model(g), now, connected),
            final(self).others_unchanged(old(self), g),
            final(self).same_epochs(old(self)),
    {
        let due = match self.slots.get(&g) {
            Some(s) => match s.started_at {
                Some(t) => has_elapsed(t, s.current.duration_secs, now),
                None => false,
            },
            None => false,
        };
        if !due || self.queue_len(g) == 0 {
            return TickOutcome::Idle;
        }
        if !connected {
            self.pause(g);
            return TickOutcome::Paused;
        }
        let mut q = self.take_queue(g);
        let next = q.pop_front();
        self.put_queue(g, q);
        match next {
            Some(t) => {
                assert(final(self).model(g).queue == tick_spec(old(self).model(g), now, connected).queue);
                TickOutcome::Next(t)
            },
            None => TickOutcome::Idle,
        }
    }

    /// The guilds that have a loaded track, in no particular order.
    pub fn guilds(&self) -> (r: Vec<u64>)
        ensures
            forall|g: u64| r@.contains(g) <==> (#[trigger] self.model(g)).slot is Some,
    {
        let mut r: Vec<u64> = Vec::new();
        let ghost keys = self.slots.keys().remaining();
        for g in it: self.slots.keys()
            invariant
                it.seq() == keys,
                r@.len() == it.index(),
                forall|i: int| 0 <= i < r@.len() ==> r@[i] == *keys[i],
        {
            r.push(*g);
        }
        proof {
            assert(keys.unref().to_set() == self.slots@.dom());
            assert(r@.len() == keys.len());
            assert forall|g: u64| r@.contains(g) <==> self.slots@.dom().contains(g) by {
                if r@.contains(g) {
                    let i = choose|i: int| 0 <= i < r@.len() && r@[i] == g;
                    assert(keys.unref()[i] == g);
                    assert(keys.unref().contains(g));
                }
                if self.slots@.dom().contains(g) {
                    assert(keys.unref().to_set().contains(g));
                    assert(keys.unref().contains(g));
                    let i = choose|i: int| 0 <= i < keys.len() && keys.unref()[i] == g;
                    assert(r@[i] == g);
                }
            }
        }
        r
    }

    /// The titles of guild `g`'s queue, front first.
    pub fn list(&self, g: u64) -> (r: Vec<String>)
        ensures
            r@ == titles(self.model(g).queue),
    {
        let mut r: Vec<String> = Vec::new();
        match self.queues.get(&g) {
            Some(q) => {
                let mut i: usize = 0;
                while i < q.len()
                    invariant
                        q@ == self.model(g).queue,
                        i <= q@.len(),
                        r@ == titles(q@.subrange(0, i as int)),
                    decreases q@.len() - i,
                {
                    r.push(q[i].title.clone());
                    i = i + 1;
                    assert(q@.subrange(0, i as int).drop_last() == q@.subrange(0, i as int - 1));
                }
                assert(q@.subrange(0, q@.len() as int) == q@);
            },
            None => {},
        }
        r
    }

    /// The number of tracks in guild `g`'s queue.
    pub fn queue_len(&self, g: u64) -> (r: usize)
        ensures
            r == self.model(g).queue.len(),
    {
        match self.queues.get(&g) {
            Some(q) => q.len(),
            None => 0,
        }
    }

    /// Guild `g`'s loaded track, if any.
    pub fn current(&self, g: u64) -> (r: Option<&SongInfo>)
        ensures
            r is Some <==> self.model(g).slot is Some,
            r is Some ==> *r->Some_0 == self.model(g).slot->Some_0.current,
    {
        match self.slots.get(&g) {
            Some(s) => Some(&s.current),
            None => None,
        }
    }

    /// Whether guild `g`'s loaded track is advancing.
    pub fn is_playing(&self, g: u64) -> (r: bool)
        ensures
            r == is_playing(self.model(g)),
    {
        match self.slots.get(&g) {
            Some(s) => s.started_at.is_some(),
            None => false,
        }
    }
}

/// The generation after `e`; it wraps to zero after the largest.
pub open spec fn next_epoch(e: u64) -> u64 {
    if e < u64::MAX {
        (e + 1) as u64
    } else {
        0
    }
}

/// The texts of a run of lines.
pub open spec fn texts(lines: Seq<String>) -> Seq<Seq<char>> {
    lines.map_values(|l: String| l@)
}

/// Whether at second `now` a track of `duration` seconds that started at
/// second `started` has played through the grace period.
pub fn has_elapsed(started: u64, duration: u64, now: u64) -> (r: bool)
    ensures
        r == (now as int >= started as int + duration as int + GRACE_SECS as int),
{
    now >= started && now - started >= duration && now - started - duration >= GRACE_SECS
}

} // verus!
