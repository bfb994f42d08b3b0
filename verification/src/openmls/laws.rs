//! What holds of the counters of several peers over whole runs.

use crate::openmls::counters::{
    lemma_absorbed_value, lemma_after_value, lemma_reading_value, lemma_same_cells, Bucket, Cell,
    CounterInner, Event, Primitive, PrimitiveCounters,
};
use crate::openmls::crypto::{recorded, recorded_as};
use crate::openmls::table::{CounterHandle, CounterTable};
use crate::threads::{interleaves, one_by_one};
use vstd::prelude::*;

verus! {

/// How much `events` add to `cell` in all.
pub open spec fn total(events: Seq<Event>, cell: Cell) -> nat
    decreases events.len(),
{
    if events.len() == 0 {
        0
    } else {
        total(events.drop_last(), cell) + events.last().adds(cell) as nat
    }
}

/// How much the events of all of `threads` add to `cell`.
pub open spec fn total_in(threads: Seq<Seq<Event>>, cell: Cell) -> nat
    decreases threads.len(),
{
    if threads.len() == 0 {
        0
    } else {
        total_in(threads.drop_last(), cell) + total(threads.last(), cell)
    }
}

/// What a peer can do to its counters. A snapshot that is absorbed stands for the
/// events that it shows, as [`law_absorbing_is_recording`] says, and is no act of its
/// own.
pub enum Act {
    /// Call a primitive.
    Call(Primitive),
    /// Ask for this many random bytes.
    Random(u64),
    /// Reset the counters.
    Reset,
}

/// What can be done to a table.
pub enum Operation {
    /// Make a peer, whose counters start at zero.
    Create,
    /// Let the peer with this handle act.
    Peer(CounterHandle, Act),
}

/// `operation` leads from `before` to `after`.
pub open spec fn performed(
    before: CounterTable,
    after: CounterTable,
    operation: Operation,
) -> bool {
    match operation {
        Operation::Create => after@ == before@.push(CounterInner::zero()),
        Operation::Peer(handle, act) => {
            &&& before.holds(handle)
            &&& match act {
                Act::Call(primitive) => recorded(before, after, handle, primitive),
                Act::Random(bytes) => after@ == before.with(
                    handle,
                    before.at(handle).after(Event::Random(bytes)),
                ),
                Act::Reset => after@ == before.with(handle, CounterInner::zero()),
            }
        },
    }
}

/// `tables` are the states that a table goes through as `operations` are performed
/// on it, one after the other.
pub open spec fn run(tables: Seq<CounterTable>, operations: Seq<Operation>) -> bool {
    &&& tables.len() == operations.len() + 1
    &&& forall|i: int|
        0 <= i < operations.len() ==> performed(tables[i], #[trigger] tables[i + 1], operations[i])
}

/// What the peer with `handle` does in `operations`, in its order.
pub open spec fn acts_of(operations: Seq<Operation>, handle: CounterHandle) -> Seq<Act>
    decreases operations.len(),
{
    if operations.len() == 0 {
        Seq::empty()
    } else {
        let earlier = acts_of(operations.drop_last(), handle);
        match operations.last() {
            Operation::Peer(peer, act) if peer.index() == handle.index() => earlier.push(act),
            _ => earlier,
        }
    }
}

/// What `acts` bring a counter to that stood at `start`: a call adds one to the
/// count of its primitive, a request for random bytes adds one to the requests and
/// its size to the bytes, a reset goes back to zero.
pub open spec fn tally(start: nat, acts: Seq<Act>, cell: Cell) -> nat
    decreases acts.len(),
{
    if acts.len() == 0 {
        start
    } else {
        let earlier = tally(start, acts.drop_last(), cell);
        match acts.last() {
            Act::Call(primitive) => earlier + Event::Count(primitive).adds(cell) as nat,
            Act::Random(bytes) => earlier + Event::Random(bytes).adds(cell) as nat,
            Act::Reset => 0,
        }
    }
}

/// What `acts` bring a bucket to that stood at `start`, where the call at position
/// `i` took `times[i]`.
pub open spec fn time_tally(start: nat, acts: Seq<Act>, times: Seq<u64>, bucket: Bucket) -> nat
    decreases acts.len(),
{
    if acts.len() == 0 {
        start
    } else {
        let earlier = time_tally(start, acts.drop_last(), times.drop_last(), bucket);
        match acts.last() {
            Act::Call(primitive) if primitive.bucket() == bucket => earlier + times.last() as nat,
            Act::Reset => 0,
            _ => earlier,
        }
    }
}

/// `times` has a time read off the clock for each call among `acts`.
pub open spec fn timed_acts(acts: Seq<Act>, times: Seq<u64>) -> bool {
    &&& times.len() == acts.len()
    &&& forall|i: int|
        0 <= i < acts.len() && acts[i] is Call ==> crate::clock::measured(#[trigger] times[i])
}

/// Buckets that a snapshot showed as `start` are shown as `end` after `acts`, of which
/// the call at position `i` was charged `times[i]`, read off the clock.
pub open spec fn buckets_show(
    start: PrimitiveCounters,
    end: PrimitiveCounters,
    acts: Seq<Act>,
    times: Seq<u64>,
) -> bool {
    &&& timed_acts(acts, times)
    &&& forall|bucket: Bucket| #[trigger]
        end.value(Cell::Time(bucket)) == time_tally(
            start.value(Cell::Time(bucket)) as nat,
            acts,
            times,
            bucket,
        ) % ((u64::MAX + 1) as nat)
}

/// The time of all calls among `acts` since the last reset, where the call at position
/// `i` was charged `times[i]`.
pub open spec fn call_time(acts: Seq<Act>, times: Seq<u64>) -> nat
    decreases acts.len(),
{
    if acts.len() == 0 {
        0
    } else {
        let earlier = call_time(acts.drop_last(), times.drop_last());
        match acts.last() {
            Act::Call(_) => earlier + times.last() as nat,
            Act::Random(_) => earlier,
            Act::Reset => 0,
        }
    }
}

/// The calls among `acts` come one after the other between `from` and `to`: the call
/// at position `i` lasts from `begins[i]` to `ends[i]` and is charged no more than
/// that, and none begins before an earlier one has ended.
pub open spec fn one_after_another(
    acts: Seq<Act>,
    times: Seq<u64>,
    begins: Seq<int>,
    ends: Seq<int>,
    from: int,
    to: int,
) -> bool {
    &&& times.len() == acts.len()
    &&& begins.len() == acts.len()
    &&& ends.len() == acts.len()
    &&& from <= to
    &&& forall|i: int|
        #![trigger acts[i]]
        0 <= i < acts.len() && acts[i] is Call ==> {
            &&& from <= begins[i]
            &&& times[i] <= ends[i] - begins[i]
            &&& ends[i] <= to
        }
    &&& forall|i: int, j: int|
        #![trigger acts[i], acts[j]]
        0 <= i < j < acts.len() && acts[i] is Call && acts[j] is Call ==> ends[i] <= begins[j]
}

/// A snapshot that directly follows a reset shows every counter at zero, whatever
/// was counted before.
pub proof fn law_reset_shows_zero(before: CounterTable, after: CounterTable, handle: CounterHandle)
    requires
        before.holds(handle),
        after@ == before.with(handle, CounterInner::zero()),
    ensures
        after.at(handle).reading() == PrimitiveCounters::zero(),
{
}

/// Each event moves each cell on by what it adds to it, so after any events a cell
/// has moved on by what they add to it in all.
#[verifier::spinoff_prover]
pub proof fn law_cells_accumulate(counters: CounterInner, events: Seq<Event>, cell: Cell)
    ensures
        counters.replayed(events).value(cell) == crate::cell::sum_u64(
            counters.value(cell),
            total(events, cell),
        ),
    decreases events.len(),
{
    if events.len() > 0 {
        let earlier = events.drop_last();
        law_cells_accumulate(counters, earlier, cell);
        lemma_after_value(counters.replayed(earlier), events.last(), cell);
        crate::cell::lemma_sum_u64(
            counters.value(cell),
            total(earlier, cell),
            events.last().adds(cell),
        );
    }
}

/// A snapshot shows in each counter exactly what the events since the last reset
/// add to it, whatever came before that reset. A count that outgrows its cell
/// starts again from zero.
#[verifier::spinoff_prover]
pub proof fn law_snapshot_totals_since_reset(events: Seq<Event>, cell: Cell)
    ensures
        CounterInner::zero().replayed(events).reading().value(cell) == total(events, cell) % ((
        u64::MAX + 1) as nat),
{
    law_cells_accumulate(CounterInner::zero(), events, cell);
    let end = CounterInner::zero().replayed(events);
    lemma_reading_value(end, cell);
    assert(CounterInner::zero().value(cell) == 0);
}

/// Two events leave the same counters in either order.
#[verifier::spinoff_prover]
pub proof fn law_events_commute(counters: CounterInner, first: Event, second: Event)
    ensures
        counters.after(first).after(second) == counters.after(second).after(first),
{
    let one = counters.after(first).after(second);
    let other = counters.after(second).after(first);
    assert forall|cell: Cell| one.value(cell) == #[trigger] other.value(cell) by {
        lemma_after_value(counters, first, cell);
        lemma_after_value(counters.after(first), second, cell);
        lemma_after_value(counters, second, cell);
        lemma_after_value(counters.after(second), first, cell);
    }
    lemma_same_cells(one, other);
}

/// However the events of several threads interleave, a peer's counters end up the
/// same: only which events happened matters, not their order.
pub proof fn law_order_is_irrelevant(counters: CounterInner, one: Seq<Event>, other: Seq<Event>)
    requires
        one.to_multiset() == other.to_multiset(),
    ensures
        counters.replayed(one) == counters.replayed(other),
{
    let step = |counters: CounterInner, event: Event| counters.after(event);
    assert forall|x: Event, y: Event, v: CounterInner| #[trigger]
        step(step(v, x), y) == step(step(v, y), x) by {
        law_events_commute(v, x, y);
    }
    vstd::seq_lib::lemma_fold_left_permutation(one, other, step, counters);
}

/// Every handle that a table holds stays good, whatever is done to the table.
pub proof fn law_handles_stay_good(
    before: CounterTable,
    after: CounterTable,
    operation: Operation,
    handle: CounterHandle,
)
    requires
        performed(before, after, operation),
        before.holds(handle),
    ensures
        after.holds(handle),
{
}

/// A new peer's counters show zero and are no other peer's: its handle is none that
/// the table held before, and the counters of those are as they were.
pub proof fn law_new_peers_start_fresh(
    before: CounterTable,
    after: CounterTable,
    handle: CounterHandle,
    other: CounterHandle,
)
    requires
        handle.index() == before@.len(),
        after@ == before@.push(CounterInner::zero()),
        before.holds(other),
    ensures
        after.holds(handle),
        after.at(handle).reading() == PrimitiveCounters::zero(),
        other.index() != handle.index(),
        after.holds(other),
        after.at(other) == before.at(other),
{
}

/// The time that a recorded call was charged for.
proof fn lemma_recorded_time(
    before: CounterTable,
    after: CounterTable,
    handle: CounterHandle,
    primitive: Primitive,
) -> (nanos: u64)
    requires
        before.holds(handle),
        recorded(before, after, handle, primitive),
    ensures
        crate::clock::measured(nanos),
        after.at(handle) == before.at(handle).after(Event::Count(primitive)).after(
            Event::Charge(primitive.bucket(), nanos),
        ),
{
    choose|nanos: u64|
        {
            &&& #[trigger] crate::clock::measured(nanos)
            &&& recorded_as(before, after, handle, primitive, nanos)
        }
}

/// A count and a charge move each cell on by what they add to it.
#[verifier::spinoff_prover]
proof fn lemma_recorded_value(
    start: CounterInner,
    end: CounterInner,
    primitive: Primitive,
    nanos: u64,
    cell: Cell,
)
    requires
        end == start.after(Event::Count(primitive)).after(
            Event::Charge(primitive.bucket(), nanos),
        ),
    ensures
        end.value(cell) == start.value(cell).wrapping_add(
            Event::Count(primitive).adds(cell),
        ).wrapping_add(Event::Charge(primitive.bucket(), nanos).adds(cell)),
{
    let counted = start.after(Event::Count(primitive));
    lemma_after_value(start, Event::Count(primitive), cell);
    lemma_after_value(counted, Event::Charge(primitive.bucket(), nanos), cell);
}

/// The peer whose call is recorded sees it: the counter of that primitive has moved
/// on by one, and every other counter but the primitive's bucket is as it was.
#[verifier::spinoff_prover]
pub proof fn law_call_is_counted_once(
    before: CounterTable,
    after: CounterTable,
    handle: CounterHandle,
    primitive: Primitive,
    cell: Cell,
)
    requires
        before.holds(handle),
        recorded(before, after, handle, primitive),
        cell != Cell::Time(primitive.bucket()),
    ensures
        after.at(handle).reading().value(cell) == if cell == Cell::Calls(primitive) {
            before.at(handle).reading().value(cell).wrapping_add(1)
        } else {
            before.at(handle).reading().value(cell)
        },
{
    lemma_reading_value(before.at(handle), cell);
    lemma_reading_value(after.at(handle), cell);
    let nanos = lemma_recorded_time(before, after, handle, primitive);
    lemma_recorded_value(before.at(handle), after.at(handle), primitive, nanos, cell);
}

/// The time of a recorded call goes to the bucket of its primitive alone: that
/// bucket has moved on by a time read off the clock, the other is as it was.
#[verifier::spinoff_prover]
pub proof fn law_call_is_charged_once(
    before: CounterTable,
    after: CounterTable,
    handle: CounterHandle,
    primitive: Primitive,
    bucket: Bucket,
)
    requires
        before.holds(handle),
        recorded(before, after, handle, primitive),
    ensures
        if bucket == primitive.bucket() {
            exists|nanos: u64|
                {
                    &&& #[trigger] crate::clock::measured(nanos)
                    &&& after.at(handle).reading().value(Cell::Time(bucket)) == before.at(
                        handle,
                    ).reading().value(Cell::Time(bucket)).wrapping_add(nanos)
                }
        } else {
            after.at(handle).reading().value(Cell::Time(bucket)) == before.at(
                handle,
            ).reading().value(Cell::Time(bucket))
        },
{
    let cell = Cell::Time(bucket);
    lemma_reading_value(before.at(handle), cell);
    lemma_reading_value(after.at(handle), cell);
    let nanos = lemma_recorded_time(before, after, handle, primitive);
    lemma_recorded_value(before.at(handle), after.at(handle), primitive, nanos, cell);
    assert(crate::clock::measured(nanos));
}

/// A peer does not see what another does: neither its calls, nor its requests for
/// random bytes, nor its resets.
pub proof fn law_peers_are_independent(
    before: CounterTable,
    after: CounterTable,
    handle: CounterHandle,
    act: Act,
    other: CounterHandle,
)
    requires
        performed(before, after, Operation::Peer(handle, act)),
        before.holds(other),
        other.index() != handle.index(),
    ensures
        after.at(other) == before.at(other),
{
}

/// The run without its last operation.
proof fn lemma_run_without_last(tables: Seq<CounterTable>, operations: Seq<Operation>)
    requires
        run(tables, operations),
        operations.len() > 0,
    ensures
        run(tables.drop_last(), operations.drop_last()),
        tables.drop_last().first() == tables.first(),
        performed(tables.drop_last().last(), tables.last(), operations.last()),
{
    let states = tables.drop_last();
    let earlier = operations.drop_last();
    assert forall|i: int| 0 <= i < earlier.len() implies performed(
        states[i],
        #[trigger] states[i + 1],
        earlier[i],
    ) by {
        assert(performed(tables[i], tables[i + 1], operations[i]));
    }
    let n = operations.len() - 1;
    assert(performed(tables[n], tables[n + 1], operations[n]));
}

/// Whatever is done to a table, and in whatever order several peers do it, each
/// counter of a peer shows what that peer's own acts bring it to. How long calls
/// take and what they return plays no part. A count that outgrows its cell starts
/// again from zero.
#[verifier::spinoff_prover]
pub proof fn law_run_is_counted(
    tables: Seq<CounterTable>,
    operations: Seq<Operation>,
    handle: CounterHandle,
    cell: Cell,
)
    requires
        run(tables, operations),
        tables.first().holds(handle),
        cell !is Time,
    ensures
        tables.last().holds(handle),
        tables.last().at(handle).reading().value(cell) == tally(
            tables.first().at(handle).reading().value(cell) as nat,
            acts_of(operations, handle),
            cell,
        ) % ((u64::MAX + 1) as nat),
    decreases operations.len(),
{
    let start = tables.first().at(handle).reading().value(cell);
    if operations.len() == 0 {
        assert(tables.last() == tables.first());
    } else {
        lemma_run_without_last(tables, operations);
        let states = tables.drop_last();
        let earlier = operations.drop_last();
        law_run_is_counted(states, earlier, handle, cell);
        let before = states.last();
        let after = tables.last();
        let acts = acts_of(earlier, handle);
        let so_far = tally(start as nat, acts, cell);
        lemma_reading_value(before.at(handle), cell);
        lemma_reading_value(after.at(handle), cell);
        if let Operation::Peer(peer, act) = operations.last() {
            if peer.index() == handle.index() {
                assert(acts.push(act).drop_last() == acts);
                match act {
                    Act::Call(primitive) => {
                        law_call_is_counted_once(before, after, peer, primitive, cell);
                        crate::cell::lemma_sum_u64(0, so_far, Event::Count(primitive).adds(cell));
                    },
                    Act::Random(bytes) => {
                        lemma_after_value(before.at(handle), Event::Random(bytes), cell);
                        crate::cell::lemma_sum_u64(0, so_far, Event::Random(bytes).adds(cell));
                    },
                    Act::Reset => {},
                }
            } else {
                law_peers_are_independent(before, after, peer, act, handle);
            }
        }
    }
}

/// One more act, which is charged `nanos` if it is a call, moves a bucket on by that
/// time if the call belongs to it, and back to zero if it is a reset.
#[verifier::spinoff_prover]
proof fn lemma_bucket_after_act(
    start: u64,
    acts: Seq<Act>,
    times: Seq<u64>,
    bucket: Bucket,
    act: Act,
    nanos: u64,
)
    requires
        times.len() == acts.len(),
    ensures
        ({
            let modulus = (u64::MAX + 1) as nat;
            let before = time_tally(start as nat, acts, times, bucket) % modulus;
            let after = time_tally(start as nat, acts.push(act), times.push(nanos), bucket)
                % modulus;
            after == match act {
                Act::Call(called) if called.bucket() == bucket => (before as u64).wrapping_add(
                    nanos,
                ) as nat,
                Act::Reset => 0,
                _ => before,
            }
        }),
{
    let so_far = time_tally(start as nat, acts, times, bucket);
    crate::cell::lemma_sum_u64(0, so_far, nanos);
    assert(acts.push(act).drop_last() == acts);
    assert(times.push(nanos).drop_last() == times);
}

/// What a peer's act does to its buckets: a call that is charged `nanos` moves its own
/// bucket on, and a reset takes both back to zero.
#[verifier::spinoff_prover]
proof fn lemma_act_time(
    start: CounterInner,
    end: CounterInner,
    act: Act,
    nanos: u64,
    bucket: Bucket,
)
    requires
        end == match act {
            Act::Call(called) => start.after(Event::Count(called)).after(
                Event::Charge(called.bucket(), nanos),
            ),
            Act::Random(bytes) => start.after(Event::Random(bytes)),
            Act::Reset => CounterInner::zero(),
        },
    ensures
        end.reading().value(Cell::Time(bucket)) == match act {
            Act::Call(called) if called.bucket() == bucket => start.reading().value(
                Cell::Time(bucket),
            ).wrapping_add(nanos),
            Act::Reset => 0,
            _ => start.reading().value(Cell::Time(bucket)),
        },
{
    let cell = Cell::Time(bucket);
    lemma_reading_value(start, cell);
    lemma_reading_value(end, cell);
    match act {
        Act::Call(called) => lemma_recorded_value(start, end, called, nanos, cell),
        Act::Random(bytes) => lemma_after_value(start, Event::Random(bytes), cell),
        Act::Reset => {},
    }
}

/// One more act of a peer adds its time to what its buckets show.
#[verifier::spinoff_prover]
proof fn lemma_buckets_after_act(
    first: PrimitiveCounters,
    start: CounterInner,
    end: CounterInner,
    acts: Seq<Act>,
    times: Seq<u64>,
    act: Act,
    nanos: u64,
)
    requires
        buckets_show(first, start.reading(), acts, times),
        act is Call ==> crate::clock::measured(nanos),
        end == match act {
            Act::Call(called) => start.after(Event::Count(called)).after(
                Event::Charge(called.bucket(), nanos),
            ),
            Act::Random(bytes) => start.after(Event::Random(bytes)),
            Act::Reset => CounterInner::zero(),
        },
    ensures
        buckets_show(first, end.reading(), acts.push(act), times.push(nanos)),
{
    assert forall|bucket: Bucket| #[trigger]
        end.reading().value(Cell::Time(bucket)) == time_tally(
            first.value(Cell::Time(bucket)) as nat,
            acts.push(act),
            times.push(nanos),
            bucket,
        ) % ((u64::MAX + 1) as nat) by {
        assert(start.reading().value(Cell::Time(bucket)) == time_tally(
            first.value(Cell::Time(bucket)) as nat,
            acts,
            times,
            bucket,
        ) % ((u64::MAX + 1) as nat));
        lemma_act_time(start, end, act, nanos, bucket);
        lemma_bucket_after_act(
            first.value(Cell::Time(bucket)),
            acts,
            times,
            bucket,
            act,
            nanos,
        );
    }
    assert(timed_acts(acts.push(act), times.push(nanos)));
}

/// Whatever is done to a table, and in whatever order several peers do it, each
/// bucket of a peer shows the sum of times read off the clock, one for each of that
/// peer's own calls that belong to the bucket, modulo the size of its cell.
#[verifier::spinoff_prover]
pub proof fn law_run_is_timed(
    tables: Seq<CounterTable>,
    operations: Seq<Operation>,
    handle: CounterHandle,
)
    requires
        run(tables, operations),
        tables.first().holds(handle),
    ensures
        tables.last().holds(handle),
        exists|times: Seq<u64>| #[trigger]
            buckets_show(
                tables.first().at(handle).reading(),
                tables.last().at(handle).reading(),
                acts_of(operations, handle),
                times,
            ),
    decreases operations.len(),
{
    let first = tables.first().at(handle).reading();
    let last = tables.last().at(handle).reading();
    let all = acts_of(operations, handle);
    if operations.len() == 0 {
        let times = Seq::<u64>::empty();
        assert(tables.last() == tables.first());
        assert forall|bucket: Bucket| #[trigger]
            last.value(Cell::Time(bucket)) == time_tally(
                first.value(Cell::Time(bucket)) as nat,
                all,
                times,
                bucket,
            ) % ((u64::MAX + 1) as nat) by {
            vstd::arithmetic::div_mod::lemma_small_mod(
                first.value(Cell::Time(bucket)) as nat,
                (u64::MAX + 1) as nat,
            );
        }
        assert(buckets_show(first, last, all, times));
    } else {
        lemma_run_without_last(tables, operations);
        let earlier = operations.drop_last();
        law_run_is_timed(tables.drop_last(), earlier, handle);
        let before = tables.drop_last().last();
        let after = tables.last();
        let acts = acts_of(earlier, handle);
        let times = choose|times: Seq<u64>| #[trigger]
            buckets_show(first, before.at(handle).reading(), acts, times);
        match operations.last() {
            Operation::Peer(peer, act) if peer.index() == handle.index() => {
                let nanos = match act {
                    Act::Call(called) => lemma_recorded_time(before, after, peer, called),
                    _ => 0u64,
                };
                lemma_buckets_after_act(
                    first,
                    before.at(handle),
                    after.at(handle),
                    acts,
                    times,
                    act,
                    nanos,
                );
                assert(all == acts.push(act));
                assert(buckets_show(first, last, all, times.push(nanos)));
            },
            Operation::Peer(peer, act) => {
                law_peers_are_independent(before, after, peer, act, handle);
                assert(all == acts);
                assert(buckets_show(first, last, all, times));
            },
            Operation::Create => {
                assert(after.at(handle) == before.at(handle));
                assert(all == acts);
                assert(buckets_show(first, last, all, times));
            },
        }
    }
}

/// From a reset on, the two buckets divide the time of the calls between them.
proof fn lemma_buckets_divide(acts: Seq<Act>, times: Seq<u64>)
    requires
        times.len() == acts.len(),
    ensures
        time_tally(0, acts, times, Bucket::PublicKey) + time_tally(
            0,
            acts,
            times,
            Bucket::Symmetric,
        ) == call_time(acts, times),
    decreases acts.len(),
{
    if acts.len() > 0 {
        lemma_buckets_divide(acts.drop_last(), times.drop_last());
    }
}

/// The buckets never double-count: from zero on, as long as the time of all calls fits
/// a cell, both buckets together show just that time.
pub proof fn law_buckets_never_double_count(
    start: PrimitiveCounters,
    end: PrimitiveCounters,
    acts: Seq<Act>,
    times: Seq<u64>,
)
    requires
        buckets_show(start, end, acts, times),
        start.pubkey_ns == 0,
        start.sym_ns == 0,
        call_time(acts, times) <= u64::MAX,
    ensures
        end.pubkey_ns + end.sym_ns == call_time(acts, times),
{
    let modulus = (u64::MAX + 1) as nat;
    let pubkey = time_tally(0, acts, times, Bucket::PublicKey);
    let sym = time_tally(0, acts, times, Bucket::Symmetric);
    lemma_buckets_divide(acts, times);
    vstd::arithmetic::div_mod::lemma_small_mod(pubkey, modulus);
    vstd::arithmetic::div_mod::lemma_small_mod(sym, modulus);
    assert(start.value(Cell::Time(Bucket::PublicKey)) == 0);
    assert(start.value(Cell::Time(Bucket::Symmetric)) == 0);
    assert(end.value(Cell::Time(Bucket::PublicKey)) == pubkey);
    assert(end.value(Cell::Time(Bucket::Symmetric)) == sym);
}

/// Calls that come one after the other take no longer than there is time for them.
proof fn lemma_call_time_fits(
    acts: Seq<Act>,
    times: Seq<u64>,
    begins: Seq<int>,
    ends: Seq<int>,
    from: int,
    to: int,
)
    requires
        one_after_another(acts, times, begins, ends, from, to),
    ensures
        call_time(acts, times) <= to - from,
    decreases acts.len(),
{
    if acts.len() > 0 {
        let n = acts.len() - 1;
        let earlier = acts.drop_last();
        let until = if acts[n] is Call {
            begins[n]
        } else {
            to
        };
        assert forall|i: int|
            #![trigger earlier[i]]
            0 <= i < earlier.len() && earlier[i] is Call implies {
            &&& from <= begins.drop_last()[i]
            &&& times.drop_last()[i] <= ends.drop_last()[i] - begins.drop_last()[i]
            &&& ends.drop_last()[i] <= until
        } by {
            assert(acts[i] is Call);
        }
        assert forall|i: int, j: int|
            #![trigger earlier[i], earlier[j]]
            0 <= i < j < earlier.len() && earlier[i] is Call && earlier[j] is Call implies
            ends.drop_last()[i] <= begins.drop_last()[j] by {
            assert(acts[i] is Call && acts[j] is Call);
        }
        assert(from <= until) by {
            assert(acts[n] is Call ==> from <= begins[n]);
        }
        lemma_call_time_fits(
            earlier,
            times.drop_last(),
            begins.drop_last(),
            ends.drop_last(),
            from,
            until,
        );
    }
}

/// Where a peer's calls come one after the other and none is charged more than it
/// lasts, both buckets together show no more than the time that went by since they
/// were at zero. That readings of the clock are of this kind is up to the clock.
pub proof fn law_buckets_stay_below_elapsed(
    start: PrimitiveCounters,
    end: PrimitiveCounters,
    acts: Seq<Act>,
    times: Seq<u64>,
    begins: Seq<int>,
    ends: Seq<int>,
    from: int,
    to: int,
)
    requires
        buckets_show(start, end, acts, times),
        start.pubkey_ns == 0,
        start.sym_ns == 0,
        one_after_another(acts, times, begins, ends, from, to),
        to - from <= u64::MAX,
    ensures
        end.pubkey_ns + end.sym_ns <= to - from,
{
    lemma_call_time_fits(acts, times, begins, ends, from, to);
    law_buckets_never_double_count(start, end, acts, times);
}

/// What two runs of events add to a cell adds up.
proof fn lemma_total_concat(one: Seq<Event>, other: Seq<Event>, cell: Cell)
    ensures
        total(one + other, cell) == total(one, cell) + total(other, cell),
    decreases other.len(),
{
    if other.len() == 0 {
        assert(one + other == one);
    } else {
        lemma_total_concat(one, other.drop_last(), cell);
        assert((one + other).drop_last() == one + other.drop_last());
    }
}

/// What all events one by one add to a cell is what those of each thread add.
proof fn lemma_total_one_by_one(threads: Seq<Seq<Event>>, cell: Cell)
    ensures
        total(one_by_one(threads), cell) == total_in(threads, cell),
    decreases threads.len(),
{
    if threads.len() > 0 {
        lemma_total_one_by_one(threads.drop_last(), cell);
        lemma_total_concat(one_by_one(threads.drop_last()), threads.last(), cell);
    }
}

/// Nothing is lost, however many threads use a peer and in whatever order their events
/// take effect: each counter goes up by what the events of all threads add to it.
pub proof fn law_no_event_is_lost(
    counters: CounterInner,
    threads: Seq<Seq<Event>>,
    events: Seq<Event>,
    cell: Cell,
)
    requires
        interleaves(threads, events),
    ensures
        counters.replayed(events).reading().value(cell) == (counters.reading().value(cell)
            + total_in(threads, cell)) % (u64::MAX + 1),
{
    law_order_is_irrelevant(counters, events, one_by_one(threads));
    law_cells_accumulate(counters, one_by_one(threads), cell);
    lemma_total_one_by_one(threads, cell);
    lemma_reading_value(counters, cell);
    lemma_reading_value(counters.replayed(events), cell);
}

/// Events that are recorded apart, from zero, and absorbed afterwards leave the
/// counters as if they had been recorded there.
#[verifier::spinoff_prover]
pub proof fn law_absorbing_is_recording(counters: CounterInner, events: Seq<Event>)
    ensures
        counters.absorbed(CounterInner::zero().replayed(events).reading()) == counters.replayed(
            events,
        ),
{
    let apart = CounterInner::zero().replayed(events);
    let one = counters.absorbed(apart.reading());
    let other = counters.replayed(events);
    assert forall|cell: Cell| one.value(cell) == #[trigger] other.value(cell) by {
        law_cells_accumulate(counters, events, cell);
        law_cells_accumulate(CounterInner::zero(), events, cell);
        lemma_reading_value(apart, cell);
        lemma_absorbed_value(counters, apart.reading(), cell);
        assert(CounterInner::zero().value(cell) == 0);
        crate::cell::lemma_sum_of_sum_u64(counters.value(cell), total(events, cell));
    }
    lemma_same_cells(one, other);
}

/// What came before a reset leaves no trace: from there on a counter goes up from
/// zero.
pub proof fn law_reset_forgets(start: nat, earlier: Seq<Act>, since: Seq<Act>, cell: Cell)
    ensures
        tally(start, earlier.push(Act::Reset) + since, cell) == tally(0, since, cell),
    decreases since.len(),
{
    let acts = earlier.push(Act::Reset) + since;
    if since.len() == 0 {
        assert(acts == earlier.push(Act::Reset));
    } else {
        law_reset_forgets(start, earlier, since.drop_last(), cell);
        assert(acts.drop_last() == earlier.push(Act::Reset) + since.drop_last());
    }
}

/// The same of a bucket: it goes up from zero by the times of the calls since.
pub proof fn law_reset_forgets_time(
    start: nat,
    earlier: Seq<Act>,
    earlier_times: Seq<u64>,
    since: Seq<Act>,
    since_times: Seq<u64>,
    bucket: Bucket,
)
    requires
        earlier_times.len() == earlier.len() + 1,
        since_times.len() == since.len(),
    ensures
        time_tally(
            start,
            earlier.push(Act::Reset) + since,
            earlier_times + since_times,
            bucket,
        ) == time_tally(0, since, since_times, bucket),
    decreases since.len(),
{
    let acts = earlier.push(Act::Reset) + since;
    let times = earlier_times + since_times;
    if since.len() == 0 {
        assert(acts == earlier.push(Act::Reset));
    } else {
        law_reset_forgets_time(
            start,
            earlier,
            earlier_times,
            since.drop_last(),
            since_times.drop_last(),
            bucket,
        );
        assert(acts.drop_last() == earlier.push(Act::Reset) + since.drop_last());
        assert(times.drop_last() == earlier_times + since_times.drop_last());
    }
}

/// The counts are deterministic: two peers that do the same, in runs of any kind,
/// show the same counts if they started from the same.
pub proof fn law_counts_are_deterministic(
    one: Seq<CounterTable>,
    one_operations: Seq<Operation>,
    one_handle: CounterHandle,
    other: Seq<CounterTable>,
    other_operations: Seq<Operation>,
    other_handle: CounterHandle,
    cell: Cell,
)
    requires
        run(one, one_operations),
        one.first().holds(one_handle),
        run(other, other_operations),
        other.first().holds(other_handle),
        acts_of(one_operations, one_handle) == acts_of(other_operations, other_handle),
        one.first().at(one_handle) == other.first().at(other_handle),
        cell !is Time,
    ensures
        one.last().at(one_handle).reading().value(cell) == other.last().at(
            other_handle,
        ).reading().value(cell),
{
    law_run_is_counted(one, one_operations, one_handle, cell);
    law_run_is_counted(other, other_operations, other_handle, cell);
}

/// The count after `count`: the next number, or zero where a cell can hold no more.
pub open spec fn one_more(count: u64) -> int {
    if count == u64::MAX {
        0
    } else {
        count + 1
    }
}

/// Zero is zero in every field.
pub proof fn law_zero_is_zero()
    ensures
        PrimitiveCounters::zero().hkdf_extract == 0,
        PrimitiveCounters::zero().hmac == 0,
        PrimitiveCounters::zero().hkdf_expand == 0,
        PrimitiveCounters::zero().hash == 0,
        PrimitiveCounters::zero().aead_encrypt == 0,
        PrimitiveCounters::zero().aead_decrypt == 0,
        PrimitiveCounters::zero().signature_key_gen == 0,
        PrimitiveCounters::zero().verify_signature == 0,
        PrimitiveCounters::zero().sign == 0,
        PrimitiveCounters::zero().hpke_seal == 0,
        PrimitiveCounters::zero().hpke_open == 0,
        PrimitiveCounters::zero().hpke_setup_sender_and_export == 0,
        PrimitiveCounters::zero().hpke_setup_receiver_and_export == 0,
        PrimitiveCounters::zero().derive_hpke_keypair == 0,
        PrimitiveCounters::zero().random_calls == 0,
        PrimitiveCounters::zero().random_bytes == 0,
        PrimitiveCounters::zero().pubkey_ns == 0,
        PrimitiveCounters::zero().sym_ns == 0,
        CounterInner::zero().hkdf_extract == 0,
        CounterInner::zero().hmac == 0,
        CounterInner::zero().hkdf_expand == 0,
        CounterInner::zero().hash == 0,
        CounterInner::zero().aead_encrypt == 0,
        CounterInner::zero().aead_decrypt == 0,
        CounterInner::zero().signature_key_gen == 0,
        CounterInner::zero().verify_signature == 0,
        CounterInner::zero().sign == 0,
        CounterInner::zero().hpke_seal == 0,
        CounterInner::zero().hpke_open == 0,
        CounterInner::zero().hpke_setup_sender_and_export == 0,
        CounterInner::zero().hpke_setup_receiver_and_export == 0,
        CounterInner::zero().derive_hpke_keypair == 0,
        CounterInner::zero().random_calls == 0,
        CounterInner::zero().random_bytes == 0,
        CounterInner::zero().pubkey_ns == 0,
        CounterInner::zero().sym_ns == 0,
{
}

/// A snapshot shows in each field the number that the cell of that name holds.
pub proof fn law_snapshot_shows_each_cell(counters: CounterInner)
    ensures
        counters.reading().hkdf_extract == counters.hkdf_extract,
        counters.reading().hmac == counters.hmac,
        counters.reading().hkdf_expand == counters.hkdf_expand,
        counters.reading().hash == counters.hash,
        counters.reading().aead_encrypt == counters.aead_encrypt,
        counters.reading().aead_decrypt == counters.aead_decrypt,
        counters.reading().signature_key_gen == counters.signature_key_gen,
        counters.reading().verify_signature == counters.verify_signature,
        counters.reading().sign == counters.sign,
        counters.reading().hpke_seal == counters.hpke_seal,
        counters.reading().hpke_open == counters.hpke_open,
        counters.reading().hpke_setup_sender_and_export == counters.hpke_setup_sender_and_export,
        counters.reading().hpke_setup_receiver_and_export
            == counters.hpke_setup_receiver_and_export,
        counters.reading().derive_hpke_keypair == counters.derive_hpke_keypair,
        counters.reading().random_calls == counters.random_calls,
        counters.reading().random_bytes == counters.random_bytes,
        counters.reading().pubkey_ns == counters.pubkey_ns,
        counters.reading().sym_ns == counters.sym_ns,
{
}

/// What a recorded call does to the counters of its peer, field by field: the count of
/// that name goes to the next number. The nanoseconds charged go to `sym_ns` for hashing,
/// key derivation and authenticated encryption, and to `pubkey_ns` for signatures and
/// HPKE, modulo the size of the cell. Every other field is as it was.
#[verifier::spinoff_prover]
#[verifier::rlimit(50)]
pub proof fn law_recorded_call_by_field(
    before: CounterTable,
    after: CounterTable,
    handle: CounterHandle,
    primitive: Primitive,
    nanos: u64,
)
    requires
        before.holds(handle),
        recorded_as(before, after, handle, primitive, nanos),
    ensures
        ({
            let start = before.at(handle).reading();
            let end = after.at(handle).reading();
            match primitive {
                Primitive::HkdfExtract => {
                    &&& end.hkdf_extract == one_more(start.hkdf_extract)
                    &&& (end.sym_ns - start.sym_ns - nanos) % 0x1_0000_0000_0000_0000 == 0
                    &&& end == (PrimitiveCounters {
                        hkdf_extract: end.hkdf_extract,
                        sym_ns: end.sym_ns,
                        ..start
                    })
                },
                Primitive::Hmac => {
                    &&& end.hmac == one_more(start.hmac)
                    &&& (end.sym_ns - start.sym_ns - nanos) % 0x1_0000_0000_0000_0000 == 0
                    &&& end == (PrimitiveCounters {
                        hmac: end.hmac,
                        sym_ns: end.sym_ns,
                        ..start
                    })
                },
                Primitive::HkdfExpand => {
                    &&& end.hkdf_expand == one_more(start.hkdf_expand)
                    &&& (end.sym_ns - start.sym_ns - nanos) % 0x1_0000_0000_0000_0000 == 0
                    &&& end == (PrimitiveCounters {
                        hkdf_expand: end.hkdf_expand,
                        sym_ns: end.sym_ns,
                        ..start
                    })
                },
                Primitive::Hash => {
                    &&& end.hash == one_more(start.hash)
                    &&& (end.sym_ns - start.sym_ns - nanos) % 0x1_0000_0000_0000_0000 == 0
                    &&& end == (PrimitiveCounters {
                        hash: end.hash,
                        sym_ns: end.sym_ns,
                        ..start
                    })
                },
                Primitive::AeadEncrypt => {
                    &&& end.aead_encrypt == one_more(start.aead_encrypt)
                    &&& (end.sym_ns - start.sym_ns - nanos) % 0x1_0000_0000_0000_0000 == 0
                    &&& end == (PrimitiveCounters {
                        aead_encrypt: end.aead_encrypt,
                        sym_ns: end.sym_ns,
                        ..start
                    })
                },
                Primitive::AeadDecrypt => {
                    &&& end.aead_decrypt == one_more(start.aead_decrypt)
                    &&& (end.sym_ns - start.sym_ns - nanos) % 0x1_0000_0000_0000_0000 == 0
                    &&& end == (PrimitiveCounters {
                        aead_decrypt: end.aead_decrypt,
                        sym_ns: end.sym_ns,
                        ..start
                    })
                },
                Primitive::SignatureKeyGen => {
                    &&& end.signature_key_gen == one_more(start.signature_key_gen)
                    &&& (end.pubkey_ns - start.pubkey_ns - nanos) % 0x1_0000_0000_0000_0000 == 0
                    &&& end == (PrimitiveCounters {
                        signature_key_gen: end.signature_key_gen,
                        pubkey_ns: end.pubkey_ns,
                        ..start
                    })
                },
                Primitive::VerifySignature => {
                    &&& end.verify_signature == one_more(start.verify_signature)
                    &&& (end.pubkey_ns - start.pubkey_ns - nanos) % 0x1_0000_0000_0000_0000 == 0
                    &&& end == (PrimitiveCounters {
                        verify_signature: end.verify_signature,
                        pubkey_ns: end.pubkey_ns,
                        ..start
                    })
                },
                Primitive::Sign => {
                    &&& end.sign == one_more(start.sign)
                    &&& (end.pubkey_ns - start.pubkey_ns - nanos) % 0x1_0000_0000_0000_0000 == 0
                    &&& end == (PrimitiveCounters {
                        sign: end.sign,
                        pubkey_ns: end.pubkey_ns,
                        ..start
                    })
                },
                Primitive::HpkeSeal => {
                    &&& end.hpke_seal == one_more(start.hpke_seal)
                    &&& (end.pubkey_ns - start.pubkey_ns - nanos) % 0x1_0000_0000_0000_0000 == 0
                    &&& end == (PrimitiveCounters {
                        hpke_seal: end.hpke_seal,
                        pubkey_ns: end.pubkey_ns,
                        ..start
                    })
                },
                Primitive::HpkeOpen => {
                    &&& end.hpke_open == one_more(start.hpke_open)
                    &&& (end.pubkey_ns - start.pubkey_ns - nanos) % 0x1_0000_0000_0000_0000 == 0
                    &&& end == (PrimitiveCounters {
                        hpke_open: end.hpke_open,
                        pubkey_ns: end.pubkey_ns,
                        ..start
                    })
                },
                Primitive::HpkeSetupSenderAndExport => {
                    &&& end.hpke_setup_sender_and_export == one_more(
                        start.hpke_setup_sender_and_export,
                    )
                    &&& (end.pubkey_ns - start.pubkey_ns - nanos) % 0x1_0000_0000_0000_0000 == 0
                    &&& end == (PrimitiveCounters {
                        hpke_setup_sender_and_export: end.hpke_setup_sender_and_export,
                        pubkey_ns: end.pubkey_ns,
                        ..start
                    })
                },
                Primitive::HpkeSetupReceiverAndExport => {
                    &&& end.hpke_setup_receiver_and_export == one_more(
                        start.hpke_setup_receiver_and_export,
                    )
                    &&& (end.pubkey_ns - start.pubkey_ns - nanos) % 0x1_0000_0000_0000_0000 == 0
                    &&& end == (PrimitiveCounters {
                        hpke_setup_receiver_and_export: end.hpke_setup_receiver_and_export,
                        pubkey_ns: end.pubkey_ns,
                        ..start
                    })
                },
                Primitive::DeriveHpkeKeypair => {
                    &&& end.derive_hpke_keypair == one_more(start.derive_hpke_keypair)
                    &&& (end.pubkey_ns - start.pubkey_ns - nanos) % 0x1_0000_0000_0000_0000 == 0
                    &&& end == (PrimitiveCounters {
                        derive_hpke_keypair: end.derive_hpke_keypair,
                        pubkey_ns: end.pubkey_ns,
                        ..start
                    })
                },
            }
        }),
{
}

/// Signatures and HPKE leave the symmetric time as it was; hashing, key derivation and
/// authenticated encryption leave the public-key time as it was.
pub proof fn law_times_are_kept_apart(
    before: CounterTable,
    after: CounterTable,
    handle: CounterHandle,
    primitive: Primitive,
)
    requires
        before.holds(handle),
        recorded(before, after, handle, primitive),
    ensures
        ({
            ||| primitive is SignatureKeyGen
            ||| primitive is VerifySignature
            ||| primitive is Sign
            ||| primitive is HpkeSeal
            ||| primitive is HpkeOpen
            ||| primitive is HpkeSetupSenderAndExport
            ||| primitive is HpkeSetupReceiverAndExport
            ||| primitive is DeriveHpkeKeypair
        }) ==> after.at(handle).reading().sym_ns == before.at(handle).reading().sym_ns,
        ({
            ||| primitive is HkdfExtract
            ||| primitive is Hmac
            ||| primitive is HkdfExpand
            ||| primitive is Hash
            ||| primitive is AeadEncrypt
            ||| primitive is AeadDecrypt
        }) ==> after.at(handle).reading().pubkey_ns == before.at(handle).reading().pubkey_ns,
{
    let nanos = choose|nanos: u64| #[trigger]
        crate::clock::measured(nanos) && recorded_as(before, after, handle, primitive, nanos);
    law_recorded_call_by_field(before, after, handle, primitive, nanos);
}

/// A recorded call was charged nanoseconds that the clock gave: some number that
/// `Duration::as_nanos` returned, modulo the size of the cell.
pub proof fn law_recorded_charge_is_nanoseconds(
    before: CounterTable,
    after: CounterTable,
    handle: CounterHandle,
    primitive: Primitive,
)
    requires
        before.holds(handle),
        recorded(before, after, handle, primitive),
    ensures
        exists|charge: u64, span: std::time::Duration, nanos: u128|
            {
                &&& #[trigger] recorded_as(before, after, handle, primitive, charge)
                &&& #[trigger] call_ensures(std::time::Duration::as_nanos, (&span,), nanos)
                &&& (nanos - charge) % 0x1_0000_0000_0000_0000 == 0
                &&& nanos <= u64::MAX ==> charge == nanos
            },
{
    let charge = choose|charge: u64| #[trigger]
        crate::clock::measured(charge) && recorded_as(before, after, handle, primitive, charge);
    crate::timing::law_measured_is_nanoseconds(charge);
    assert(recorded_as(before, after, handle, primitive, charge));
}

/// A recorded call touches no other peer's counters and makes or loses none.
pub proof fn law_recorded_call_is_local(
    before: CounterTable,
    after: CounterTable,
    handle: CounterHandle,
    primitive: Primitive,
    nanos: u64,
)
    requires
        before.holds(handle),
        recorded_as(before, after, handle, primitive, nanos),
    ensures
        after@.len() == before@.len(),
        forall|i: int| 0 <= i < before@.len() && i != handle.index() ==> after@[i] == before@[i],
{
}

/// A request for random bytes takes `random_calls` to the next number and adds the number
/// of bytes to `random_bytes`, modulo the size of the cell. Every other field is as it
/// was, both times among it.
#[verifier::spinoff_prover]
pub proof fn law_random_request_by_field(counters: CounterInner, bytes: u64)
    ensures
        ({
            let start = counters.reading();
            let end = counters.after(Event::Random(bytes)).reading();
            &&& end.random_calls == one_more(start.random_calls)
            &&& (end.random_bytes - start.random_bytes - bytes) % 0x1_0000_0000_0000_0000 == 0
            &&& end == (PrimitiveCounters {
                random_calls: end.random_calls,
                random_bytes: end.random_bytes,
                ..start
            })
        }),
{
}

/// A table holds a handle just where it has a block in that place. To put counters in the
/// place of a peer's is to leave those of all others as they were.
pub proof fn law_tables_keep_places(
    table: CounterTable,
    handle: CounterHandle,
    counters: CounterInner,
)
    ensures
        table.holds(handle) <==> handle.index() < table@.len(),
        table.holds(handle) ==> {
            &&& table.at(handle) == table@[handle.index() as int]
            &&& table.with(handle, counters).len() == table@.len()
            &&& table.with(handle, counters)[handle.index() as int] == counters
            &&& forall|i: int|
                0 <= i < table@.len() && i != handle.index() ==> #[trigger] table.with(
                    handle,
                    counters,
                )[i] == table@[i]
        },
{
}

/// `operation` leads from `before` to `after`, and is charged `nanos` if it is a call.
pub open spec fn performed_as(
    before: CounterTable,
    after: CounterTable,
    operation: Operation,
    nanos: u64,
) -> bool {
    match operation {
        Operation::Peer(handle, Act::Call(primitive)) => {
            &&& before.holds(handle)
            &&& recorded_as(before, after, handle, primitive, nanos)
        },
        _ => performed(before, after, operation),
    }
}

/// `tables` are the states that a table goes through as `operations` are performed on
/// it, where the call at position `i` is charged `times[i]`.
pub open spec fn charged_run(
    tables: Seq<CounterTable>,
    operations: Seq<Operation>,
    times: Seq<u64>,
) -> bool {
    &&& tables.len() == operations.len() + 1
    &&& times.len() == operations.len()
    &&& forall|i: int|
        0 <= i < operations.len() ==> performed_as(
            tables[i],
            #[trigger] tables[i + 1],
            operations[i],
            times[i],
        )
}

/// Those of `times` that belong to what the peer with `handle` does in `operations`.
pub open spec fn times_of(
    operations: Seq<Operation>,
    times: Seq<u64>,
    handle: CounterHandle,
) -> Seq<u64>
    decreases operations.len(),
{
    if operations.len() == 0 {
        Seq::empty()
    } else {
        let earlier = times_of(operations.drop_last(), times.drop_last(), handle);
        match operations.last() {
            Operation::Peer(peer, _) if peer.index() == handle.index() => earlier.push(
                times.last(),
            ),
            _ => earlier,
        }
    }
}

/// A peer has as many times as acts.
proof fn lemma_times_of(operations: Seq<Operation>, times: Seq<u64>, handle: CounterHandle)
    ensures
        times_of(operations, times, handle).len() == acts_of(operations, handle).len(),
    decreases operations.len(),
{
    if operations.len() > 0 {
        lemma_times_of(operations.drop_last(), times.drop_last(), handle);
    }
}

/// The counters of `handle` after an operation that is charged `nanos` if it is a call:
/// only the peer's own acts change them.
proof fn lemma_own_counters(
    before: CounterTable,
    after: CounterTable,
    operation: Operation,
    nanos: u64,
    handle: CounterHandle,
)
    requires
        performed_as(before, after, operation, nanos),
        before.holds(handle),
    ensures
        after.holds(handle),
        match operation {
            Operation::Peer(peer, act) if peer.index() == handle.index() => after.at(handle)
                == match act {
                Act::Call(called) => before.at(handle).after(Event::Count(called)).after(
                    Event::Charge(called.bucket(), nanos),
                ),
                Act::Random(bytes) => before.at(handle).after(Event::Random(bytes)),
                Act::Reset => CounterInner::zero(),
            },
            _ => after.at(handle) == before.at(handle),
        },
{
}

/// Over any run, each bucket of a peer shows the sum of just the times that the peer's own
/// calls of its kind were charged since the last reset, modulo the size of its cell.
#[verifier::spinoff_prover]
pub proof fn law_run_is_charged(
    tables: Seq<CounterTable>,
    operations: Seq<Operation>,
    times: Seq<u64>,
    handle: CounterHandle,
    bucket: Bucket,
)
    requires
        charged_run(tables, operations, times),
        tables.first().holds(handle),
    ensures
        tables.last().holds(handle),
        tables.last().at(handle).reading().value(Cell::Time(bucket)) == time_tally(
            tables.first().at(handle).reading().value(Cell::Time(bucket)) as nat,
            acts_of(operations, handle),
            times_of(operations, times, handle),
            bucket,
        ) % ((u64::MAX + 1) as nat),
    decreases operations.len(),
{
    let first = tables.first().at(handle).reading().value(Cell::Time(bucket));
    if operations.len() == 0 {
        assert(tables.last() == tables.first());
        vstd::arithmetic::div_mod::lemma_small_mod(first as nat, (u64::MAX + 1) as nat);
    } else {
        let n = operations.len() - 1;
        let earlier = operations.drop_last();
        let taken = times.drop_last();
        let states = tables.drop_last();
        assert forall|i: int| 0 <= i < earlier.len() implies performed_as(
            states[i],
            #[trigger] states[i + 1],
            earlier[i],
            taken[i],
        ) by {
            assert(performed_as(tables[i], tables[i + 1], operations[i], times[i]));
        }
        law_run_is_charged(states, earlier, taken, handle, bucket);
        let before = states.last();
        let after = tables.last();
        assert(performed_as(tables[n], tables[n + 1], operations[n], times[n]));
        lemma_own_counters(before, after, operations.last(), times[n], handle);
        lemma_times_of(earlier, taken, handle);
        let acts = acts_of(earlier, handle);
        let own = times_of(earlier, taken, handle);
        match operations.last() {
            Operation::Peer(peer, act) if peer.index() == handle.index() => {
                assert(acts_of(operations, handle) == acts.push(act));
                assert(times_of(operations, times, handle) == own.push(times[n]));
                lemma_act_time(before.at(handle), after.at(handle), act, times[n], bucket);
                lemma_bucket_after_act(first, acts, own, bucket, act, times[n]);
            },
            _ => {
                assert(acts_of(operations, handle) == acts);
                assert(times_of(operations, times, handle) == own);
            },
        }
    }
}

/// Times that are no less for the calls of a peer come to no less for that peer.
proof fn lemma_tally_is_monotonic(
    operations: Seq<Operation>,
    less: Seq<u64>,
    more: Seq<u64>,
    handle: CounterHandle,
    bucket: Bucket,
)
    requires
        less.len() == operations.len(),
        more.len() == operations.len(),
        forall|i: int| 0 <= i < operations.len() ==> #[trigger] less[i] <= more[i],
    ensures
        time_tally(
            0,
            acts_of(operations, handle),
            times_of(operations, less, handle),
            bucket,
        ) <= time_tally(
            0,
            acts_of(operations, handle),
            times_of(operations, more, handle),
            bucket,
        ),
    decreases operations.len(),
{
    if operations.len() > 0 {
        let n = operations.len() - 1;
        let earlier = operations.drop_last();
        assert forall|i: int| 0 <= i < earlier.len() implies #[trigger] less.drop_last()[i]
            <= more.drop_last()[i] by {
            assert(less[i] <= more[i]);
        }
        lemma_tally_is_monotonic(earlier, less.drop_last(), more.drop_last(), handle, bucket);
        assert(less[n] <= more[n]);
        let acts = acts_of(earlier, handle);
        let short = times_of(earlier, less.drop_last(), handle);
        let long = times_of(earlier, more.drop_last(), handle);
        if let Operation::Peer(peer, act) = operations.last() {
            if peer.index() == handle.index() {
                assert(acts.push(act).drop_last() == acts);
                assert(short.push(less[n]).drop_last() == short);
                assert(long.push(more[n]).drop_last() == long);
            }
        }
    }
}

/// Over any run from zero, each time that a peer's snapshot shows is no less than the sum
/// of the spans of the peer's own calls of that kind since the last reset, where no call
/// was charged less than its span, as long as the cell can hold what was charged.
pub proof fn law_buckets_cover_spans(
    tables: Seq<CounterTable>,
    operations: Seq<Operation>,
    times: Seq<u64>,
    spans: Seq<u64>,
    handle: CounterHandle,
    bucket: Bucket,
)
    requires
        charged_run(tables, operations, times),
        tables.first().holds(handle),
        tables.first().at(handle).reading().value(Cell::Time(bucket)) == 0,
        spans.len() == operations.len(),
        forall|i: int| 0 <= i < operations.len() ==> #[trigger] spans[i] <= times[i],
        time_tally(
            0,
            acts_of(operations, handle),
            times_of(operations, times, handle),
            bucket,
        ) <= u64::MAX,
    ensures
        tables.last().at(handle).reading().value(Cell::Time(bucket)) >= time_tally(
            0,
            acts_of(operations, handle),
            times_of(operations, spans, handle),
            bucket,
        ),
{
    law_run_is_charged(tables, operations, times, handle, bucket);
    lemma_tally_is_monotonic(operations, spans, times, handle, bucket);
    vstd::arithmetic::div_mod::lemma_small_mod(
        time_tally(
            0,
            acts_of(operations, handle),
            times_of(operations, times, handle),
            bucket,
        ),
        (u64::MAX + 1) as nat,
    );
}

/// Which time the calls of a primitive belong to, by name: signatures and HPKE to
/// `pubkey_ns`, hashing, key derivation and authenticated encryption to `sym_ns`.
pub proof fn law_buckets_by_name(primitive: Primitive, counters: PrimitiveCounters)
    ensures
        ({
            ||| primitive is SignatureKeyGen
            ||| primitive is VerifySignature
            ||| primitive is Sign
            ||| primitive is HpkeSeal
            ||| primitive is HpkeOpen
            ||| primitive is HpkeSetupSenderAndExport
            ||| primitive is HpkeSetupReceiverAndExport
            ||| primitive is DeriveHpkeKeypair
        }) <==> primitive.bucket() is PublicKey,
        ({
            ||| primitive is HkdfExtract
            ||| primitive is Hmac
            ||| primitive is HkdfExpand
            ||| primitive is Hash
            ||| primitive is AeadEncrypt
            ||| primitive is AeadDecrypt
        }) <==> primitive.bucket() is Symmetric,
        counters.value(Cell::Time(Bucket::PublicKey)) == counters.pubkey_ns,
        counters.value(Cell::Time(Bucket::Symmetric)) == counters.sym_ns,
{
}

} // verus!
