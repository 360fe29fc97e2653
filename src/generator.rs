//! The identifier generator: a per-second sequence counter, an instance identity and
//! a clock, producing one packed identifier per call.
//!
//! The window rule: the counter starts again at 0 only when the current second is more
//! than one second past the second of the last reset, so a window spans the second of
//! its reset and the one after it. This is deliberately not "a new second starts a new
//! window": identifiers stay compatible with those already issued, and the sequence
//! field, not the timestamp, keeps two identifiers of one window apart.
//!
//! The counter itself is a full `u64` (wrapping after `u64::MAX`); only its low 12 bits
//! enter an identifier, so more than 4096 identifiers in one window repeat sequence
//! values. This is not an error of `generate_id`; `SequenceCounter::window_overrun`
//! tells the host when it has happened, so that it can be logged or counted.
use vstd::prelude::*;
use crate::clock::{Clock, Elapsed, SystemClock};
use crate::id::{
    encode,
    pack,
    machine_id_of,
    datacenter_id_of,
    sequence_of,
    lemma_pack_fields,
};

verus! {

/// The mutable part of a generator: the next sequence value and the time of the
/// last reset.
#[derive(Clone, Copy, Debug, PartialEq, Eq, Structural)]
pub struct SequenceCounter {
    pub sequence_value: u64,
    pub last_refresh: Elapsed,
}

/// `v + 1`, wrapping to 0 after `u64::MAX`.
pub open spec fn wrapping_inc(v: u64) -> u64 {
    if v == u64::MAX {
        0
    } else {
        (v + 1) as u64
    }
}

impl SequenceCounter {
    /// Whether a call at `now` starts a new window.
    pub open spec fn resets_at(self, now: Elapsed) -> bool {
        now.secs > self.last_refresh.secs + 1
    }

    /// The sequence value that a call at `now` embeds.
    pub open spec fn sequence_at(self, now: Elapsed) -> u64 {
        if self.resets_at(now) {
            0
        } else {
            self.sequence_value
        }
    }

    /// The counter after a call at `now`.
    pub open spec fn after(self, now: Elapsed) -> SequenceCounter {
        SequenceCounter {
            sequence_value: wrapping_inc(self.sequence_at(now)),
            last_refresh: if self.resets_at(now) {
                now
            } else {
                self.last_refresh
            },
        }
    }

    /// A counter at 0 whose last reset is at the epoch.
    pub fn new() -> (r: SequenceCounter)
        ensures
            r.sequence_value == 0,
            r.last_refresh == Elapsed::from_secs_spec(0),
    {
        SequenceCounter { sequence_value: 0, last_refresh: Elapsed::from_secs(0) }
    }

    /// Whether the identifier of the last call repeated the sequence field of an earlier
    /// one of its window: the window had already handed out all 4096 values.
    pub fn window_overrun(&self) -> (r: bool)
        ensures
            r == (self.sequence_value > 4096),
    {
        self.sequence_value > 4096
    }

    /// Records a call at `now` and returns the sequence value it embeds.
    pub fn advance(&mut self, now: Elapsed) -> (seq: u64)
        ensures
            seq == old(self).sequence_at(now),
            *final(self) == old(self).after(now),
    {
        if now.secs > self.last_refresh.secs && now.secs - self.last_refresh.secs > 1 {
            self.last_refresh = now;
            self.sequence_value = 0;
        }
        let seq = self.sequence_value;
        self.sequence_value = if seq == u64::MAX {
            0
        } else {
            seq + 1
        };
        seq
    }
}

/// An identifier generator: an instance identity, its sequence counter and its clock.
/// Calls must be serialised by the owner (`&mut self`); one generator holds no lock.
pub struct IdGenerator<C> {
    pub machine_id: u64,
    pub datacenter_id: u64,
    pub counter: SequenceCounter,
    pub clock: C,
}

impl<C> IdGenerator<C> {
    /// Whether a call at `now` takes this generator to `next` and returns `id`.
    pub open spec fn generates(&self, next: &Self, now: Elapsed, id: u64) -> bool {
        &&& id == pack(
            now.secs,
            self.machine_id,
            self.datacenter_id,
            self.counter.sequence_at(now),
        )
        &&& next.counter == self.counter.after(now)
        &&& next.machine_id == self.machine_id
        &&& next.datacenter_id == self.datacenter_id
        &&& next.clock == self.clock
    }

    /// Whether a call at some time takes this generator to `next` and returns `id`.
    pub open spec fn generates_at_some_time(&self, next: &Self, id: u64) -> bool {
        exists|now: Elapsed| self.generates(next, now, id)
    }

    /// A generator with the given identity that reads `clock`, its counter at 0.
    pub fn with_clock(machine_id: u64, datacenter_id: u64, clock: C) -> (r: IdGenerator<C>)
        ensures
            r.machine_id == machine_id,
            r.datacenter_id == datacenter_id,
            r.counter.sequence_value == 0,
            r.counter.last_refresh == Elapsed::from_secs_spec(0),
            r.clock == clock,
    {
        IdGenerator { machine_id, datacenter_id, counter: SequenceCounter::new(), clock }
    }

    /// The identifier for a call at `now`: `now`'s seconds, this instance's identity
    /// and the sequence value that the counter gives for `now`.
    pub fn generate_id_at(&mut self, now: Elapsed) -> (r: u64)
        ensures
            old(self).generates(final(self), now, r),
    {
        let sequence = self.counter.advance(now);
        encode(now.secs, self.machine_id, self.datacenter_id, sequence)
    }
}

impl IdGenerator<SystemClock> {
    /// A generator with the given identity that reads the system clock.
    pub fn new(machine_id: u64, datacenter_id: u64) -> (r: IdGenerator<SystemClock>)
        ensures
            r.machine_id == machine_id,
            r.datacenter_id == datacenter_id,
            r.counter.sequence_value == 0,
            r.counter.last_refresh == Elapsed::from_secs_spec(0),
    {
        IdGenerator::with_clock(machine_id, datacenter_id, SystemClock::new())
    }
}

impl<C: Clock> IdGenerator<C> {
    /// Reads the clock once and returns the identifier for that time, or `None`, with
    /// the generator unchanged, when the clock has no valid time to give.
    pub fn generate_id(&mut self) -> (r: Option<u64>)
        ensures
            r is None ==> *final(self) == *old(self),
            r matches Some(id) ==> old(self).generates_at_some_time(final(self), id),
            r matches Some(id) ==> machine_id_of(id) == old(self).machine_id % 32
                && datacenter_id_of(id) == old(self).datacenter_id % 32,
    {
        let ghost before = *self;
        let reading = self.clock.now();
        match reading {
            Some(now) => {
                let id = self.generate_id_at(now);
                proof {
                    lemma_generated_identity(*old(self), *self, now, id);
                    assert(before.generates(&*self, now, id));
                    assert(before.generates_at_some_time(&*self, id));
                }
                Some(id)
            },
            None => None,
        }
    }
}

/// Every identifier a generator produces carries the machine and datacenter id it
/// was built with (each modulo 32), and the identity does not change.
pub proof fn lemma_generated_identity<C>(g: IdGenerator<C>, next: IdGenerator<C>, now: Elapsed, id: u64)
    requires
        g.generates(&next, now, id),
    ensures
        machine_id_of(id) == g.machine_id % 32,
        datacenter_id_of(id) == g.datacenter_id % 32,
        next.machine_id == g.machine_id,
        next.datacenter_id == g.datacenter_id,
{
    lemma_pack_fields(now.secs, g.machine_id, g.datacenter_id, g.counter.sequence_at(now));
}

/// The sequence values embedded by calls at `times`, in order, starting from `c`.
pub open spec fn sequences_of_calls(c: SequenceCounter, times: Seq<Elapsed>) -> Seq<u64>
    decreases times.len(),
{
    if times.len() == 0 {
        Seq::empty()
    } else {
        seq![c.sequence_at(times[0])] + sequences_of_calls(c.after(times[0]), times.drop_first())
    }
}

/// Calls none of which resets the counter embed consecutive values from the
/// counter's current one.
proof fn lemma_sequences_without_reset(c: SequenceCounter, times: Seq<Elapsed>)
    requires
        forall|i: int| 0 <= i < times.len() ==> !c.resets_at(#[trigger] times[i]),
        c.sequence_value + times.len() <= u64::MAX,
    ensures
        sequences_of_calls(c, times).len() == times.len(),
        forall|i: int|
            0 <= i < times.len() ==> #[trigger] sequences_of_calls(c, times)[i] == c.sequence_value
                + i,
    decreases times.len(),
{
    if times.len() > 0 {
        let next = c.after(times[0]);
        let rest = times.drop_first();
        assert(forall|i: int| 0 <= i < rest.len() ==> rest[i] == times[i + 1]);
        lemma_sequences_without_reset(next, rest);
        let all = sequences_of_calls(c, times);
        assert forall|i: int| 0 <= i < times.len() implies #[trigger] all[i] == c.sequence_value
            + i by {
            if i > 0 {
                assert(all[i] == sequences_of_calls(next, rest)[i - 1]);
            }
        }
    }
}

/// The calls at `times` embed as many sequence values as there are calls.
proof fn lemma_sequences_len(c: SequenceCounter, times: Seq<Elapsed>)
    ensures
        sequences_of_calls(c, times).len() == times.len(),
    decreases times.len(),
{
    if times.len() > 0 {
        lemma_sequences_len(c.after(times[0]), times.drop_first());
    }
}

/// Within one window the calls embed 0, 1, 2, ... in call order. A window is opened by
/// its first call, which either resets the counter or finds it at 0, and holds every
/// later call that comes no more than one second after the window's reset (so none of
/// them resets). With at most 4096 calls, the sequence fields of their identifiers are
/// 0, 1, 2, ... as well.
pub proof fn lemma_sequences_within_one_window(
    c: SequenceCounter,
    times: Seq<Elapsed>,
    machine_id: u64,
    datacenter_id: u64,
)
    requires
        times.len() <= 4096,
        times.len() > 0 ==> c.resets_at(times[0]) || c.sequence_value == 0,
        forall|i: int|
            1 <= i < times.len() ==> (#[trigger] times[i]).secs <= c.after(times[0]).last_refresh.secs
                + 1,
    ensures
        sequences_of_calls(c, times).len() == times.len(),
        forall|i: int| 0 <= i < times.len() ==> #[trigger] sequences_of_calls(c, times)[i] == i,
        forall|i: int|
            0 <= i < times.len() ==> sequence_of(
                #[trigger] pack(times[i].secs, machine_id, datacenter_id, sequences_of_calls(c, times)[i]),
            ) == i,
{
    lemma_sequences_len(c, times);
    if times.len() > 0 {
        let all = sequences_of_calls(c, times);
        let next = c.after(times[0]);
        let rest = times.drop_first();
        assert(next.sequence_value == 1);
        assert(forall|i: int| 0 <= i < rest.len() ==> rest[i] == times[i + 1]);
        assert forall|i: int| 0 <= i < rest.len() implies !next.resets_at(#[trigger] rest[i]) by {
            assert(rest[i] == times[i + 1]);
        }
        lemma_sequences_without_reset(next, rest);
        assert forall|i: int| 0 <= i < times.len() implies #[trigger] all[i] == i by {
            if i > 0 {
                assert(all[i] == sequences_of_calls(next, rest)[i - 1]);
            }
        }
        assert forall|i: int| 0 <= i < times.len() implies sequence_of(
            #[trigger] pack(times[i].secs, machine_id, datacenter_id, all[i]),
        ) == i by {
            lemma_pack_fields(times[i].secs, machine_id, datacenter_id, all[i]);
        }
    }
}

/// Calls that all fall in one second embed strictly increasing sequence values, one
/// apart, from whatever the first of them embeds: only the first can reset the counter.
pub proof fn lemma_sequences_within_one_second(c: SequenceCounter, times: Seq<Elapsed>)
    requires
        c.sequence_value + times.len() <= u64::MAX,
        forall|i: int| 0 <= i < times.len() ==> (#[trigger] times[i]).secs == times[0].secs,
    ensures
        sequences_of_calls(c, times).len() == times.len(),
        times.len() > 0 ==> sequences_of_calls(c, times)[0] <= c.sequence_value,
        forall|i: int|
            0 <= i < times.len() ==> #[trigger] sequences_of_calls(c, times)[i]
                == sequences_of_calls(c, times)[0] + i,
{
    lemma_sequences_len(c, times);
    if times.len() > 0 {
        let all = sequences_of_calls(c, times);
        if c.resets_at(times[0]) {
            let next = c.after(times[0]);
            let rest = times.drop_first();
            assert(forall|i: int| 0 <= i < rest.len() ==> rest[i] == times[i + 1]);
            assert forall|i: int| 0 <= i < rest.len() implies !next.resets_at(#[trigger] rest[i]) by {
                assert(rest[i] == times[i + 1]);
            }
            lemma_sequences_without_reset(next, rest);
            assert forall|i: int| 0 <= i < times.len() implies #[trigger] all[i] == all[0] + i by {
                if i > 0 {
                    assert(all[i] == sequences_of_calls(next, rest)[i - 1]);
                }
            }
        } else {
            assert forall|i: int| 0 <= i < times.len() implies !c.resets_at(#[trigger] times[i]) by {
                assert(times[i].secs == times[0].secs);
            }
            lemma_sequences_without_reset(c, times);
        }
    }
}

/// Successive calls of a generator, the `i`-th at `times[i]` returning `ids[i]`, return
/// the identity of the first generator and the sequence values that its counter gives
/// for those times.
pub proof fn lemma_calls_follow_counter<C>(
    gs: Seq<IdGenerator<C>>,
    times: Seq<Elapsed>,
    ids: Seq<u64>,
)
    requires
        gs.len() == times.len() + 1,
        ids.len() == times.len(),
        forall|i: int| 0 <= i < times.len() ==> (#[trigger] gs[i]).generates(&gs[i + 1], times[i], ids[i]),
    ensures
        sequences_of_calls(gs[0].counter, times).len() == times.len(),
        forall|i: int|
            0 <= i < times.len() ==> #[trigger] ids[i] == pack(
                times[i].secs,
                gs[0].machine_id,
                gs[0].datacenter_id,
                sequences_of_calls(gs[0].counter, times)[i],
            ),
    decreases times.len(),
{
    lemma_sequences_len(gs[0].counter, times);
    if times.len() > 0 {
        let gs1 = gs.drop_first();
        let t1 = times.drop_first();
        let ids1 = ids.drop_first();
        assert forall|i: int| 0 <= i < t1.len() implies (#[trigger] gs1[i]).generates(
            &gs1[i + 1],
            t1[i],
            ids1[i],
        ) by {
            assert(gs[i + 1].generates(&gs[i + 2], times[i + 1], ids[i + 1]));
        }
        lemma_calls_follow_counter(gs1, t1, ids1);
        assert(gs[0].generates(&gs[1], times[0], ids[0]));
        let all = sequences_of_calls(gs[0].counter, times);
        assert forall|i: int| 0 <= i < times.len() implies #[trigger] ids[i] == pack(
            times[i].secs,
            gs[0].machine_id,
            gs[0].datacenter_id,
            all[i],
        ) by {
            if i > 0 {
                assert(ids[i] == ids1[i - 1]);
                assert(times[i] == t1[i - 1]);
                assert(all[i] == sequences_of_calls(gs1[0].counter, t1)[i - 1]);
            }
        }
    }
}

/// `k` successive calls of a generator within one window (see
/// `lemma_sequences_within_one_window`), `k <= 4096`, return identifiers whose sequence
/// fields are 0, 1, ..., k - 1 in call order, each with the generator's identity.
pub proof fn lemma_generated_ids_within_one_window<C>(
    gs: Seq<IdGenerator<C>>,
    times: Seq<Elapsed>,
    ids: Seq<u64>,
)
    requires
        gs.len() == times.len() + 1,
        ids.len() == times.len(),
        forall|i: int| 0 <= i < times.len() ==> (#[trigger] gs[i]).generates(&gs[i + 1], times[i], ids[i]),
        times.len() <= 4096,
        times.len() > 0 ==> gs[0].counter.resets_at(times[0]) || gs[0].counter.sequence_value == 0,
        forall|i: int|
            1 <= i < times.len() ==> (#[trigger] times[i]).secs <= gs[0].counter.after(
                times[0],
            ).last_refresh.secs + 1,
    ensures
        forall|i: int| 0 <= i < ids.len() ==> sequence_of(#[trigger] ids[i]) == i,
        forall|i: int|
            0 <= i < ids.len() ==> machine_id_of(#[trigger] ids[i]) == gs[0].machine_id % 32
                && datacenter_id_of(ids[i]) == gs[0].datacenter_id % 32,
{
    lemma_calls_follow_counter(gs, times, ids);
    lemma_sequences_within_one_window(gs[0].counter, times, gs[0].machine_id, gs[0].datacenter_id);
    let all = sequences_of_calls(gs[0].counter, times);
    assert forall|i: int| 0 <= i < ids.len() implies machine_id_of(#[trigger] ids[i])
        == gs[0].machine_id % 32 && datacenter_id_of(ids[i]) == gs[0].datacenter_id % 32 by {
        lemma_pack_fields(times[i].secs, gs[0].machine_id, gs[0].datacenter_id, all[i]);
    }
    assert forall|i: int| 0 <= i < ids.len() implies sequence_of(#[trigger] ids[i]) == i by {
        assert(ids[i] == pack(times[i].secs, gs[0].machine_id, gs[0].datacenter_id, all[i]));
    }
}

/// Successive calls of a generator that all fall in one second return identifiers whose
/// sequence fields go up by one per call from the first, so no two are equal, as long
/// as the counter had room for all of them below 4096.
pub proof fn lemma_generated_ids_within_one_second<C>(
    gs: Seq<IdGenerator<C>>,
    times: Seq<Elapsed>,
    ids: Seq<u64>,
)
    requires
        gs.len() == times.len() + 1,
        ids.len() == times.len(),
        forall|i: int| 0 <= i < times.len() ==> (#[trigger] gs[i]).generates(&gs[i + 1], times[i], ids[i]),
        forall|i: int| 0 <= i < times.len() ==> (#[trigger] times[i]).secs == times[0].secs,
        gs[0].counter.sequence_value + times.len() <= 4096,
    ensures
        forall|i: int| 0 <= i < ids.len() ==> sequence_of(#[trigger] ids[i]) == sequence_of(ids[0]) + i,
        forall|a: int, b: int| 0 <= a < b < ids.len() ==> #[trigger] ids[a] != #[trigger] ids[b],
{
    lemma_calls_follow_counter(gs, times, ids);
    lemma_sequences_within_one_second(gs[0].counter, times);
    let all = sequences_of_calls(gs[0].counter, times);
    assert forall|i: int| 0 <= i < ids.len() implies sequence_of(#[trigger] ids[i]) == all[i] by {
        lemma_pack_fields(times[i].secs, gs[0].machine_id, gs[0].datacenter_id, all[i]);
        assert(ids[i] == pack(times[i].secs, gs[0].machine_id, gs[0].datacenter_id, all[i]));
    }
    assert forall|a: int, b: int| 0 <= a < b < ids.len() implies #[trigger] ids[a] != #[trigger] ids[b] by {
        assert(sequence_of(ids[a]) != sequence_of(ids[b]));
    }
}

/// When the clock moves on by more than one full second between two calls, the second
/// call starts a new window and embeds 0. This needs the first call to come no earlier
/// than the last reset, which holds whenever the clock never goes back.
pub proof fn lemma_gap_resets_sequence(c: SequenceCounter, first: Elapsed, second: Elapsed)
    requires
        c.last_refresh.secs <= first.secs,
        second.secs > first.secs + 1,
    ensures
        c.after(first).resets_at(second),
        c.after(first).sequence_at(second) == 0,
{
}

} // verus!
