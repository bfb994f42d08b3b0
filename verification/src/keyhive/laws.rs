//! What holds of the registers over whole runs, whatever happens in them.

use crate::keyhive::{Bucket, Event, Primitive, PrimitiveCounters, Registers};
use crate::threads::{interleaves, lemma_interleaved, one_by_one};
use vstd::prelude::*;

verus! {

impl Registers {
    /// The cell that counts `primitive`.
    pub open spec fn count(self, primitive: Primitive) -> usize {
        match primitive {
            Primitive::Hash => self.hash,
            Primitive::Kdf => self.kdf,
            Primitive::Prf => self.prf,
            Primitive::Keygen => self.keygen,
            Primitive::Dh => self.dh,
            Primitive::AeadEncrypt => self.aead_encrypt,
            Primitive::AeadDecrypt => self.aead_decrypt,
            Primitive::Sign => self.sign,
            Primitive::Verify => self.verify,
        }
    }

    /// The registers with `count` in the cell that counts `primitive`, and all else
    /// as it is.
    pub open spec fn with_count(self, primitive: Primitive, count: usize) -> Registers {
        match primitive {
            Primitive::Hash => Registers { hash: count, ..self },
            Primitive::Kdf => Registers { kdf: count, ..self },
            Primitive::Prf => Registers { prf: count, ..self },
            Primitive::Keygen => Registers { keygen: count, ..self },
            Primitive::Dh => Registers { dh: count, ..self },
            Primitive::AeadEncrypt => Registers { aead_encrypt: count, ..self },
            Primitive::AeadDecrypt => Registers { aead_decrypt: count, ..self },
            Primitive::Sign => Registers { sign: count, ..self },
            Primitive::Verify => Registers { verify: count, ..self },
        }
    }

    /// The cell that holds the time of `bucket`.
    pub open spec fn time(self, bucket: Bucket) -> u64 {
        match bucket {
            Bucket::PublicKey => self.pubkey_ns,
            Bucket::Symmetric => self.sym_ns,
        }
    }
}

/// How often `primitive` was executed in `events`.
pub open spec fn executions(events: Seq<Event>, primitive: Primitive) -> nat
    decreases events.len(),
{
    if events.len() == 0 {
        0
    } else {
        executions(events.drop_last(), primitive) + if events.last() == Event::Count(primitive) {
            1nat
        } else {
            0nat
        }
    }
}

/// How many nanoseconds were charged to `bucket` in `events`.
pub open spec fn charges(events: Seq<Event>, bucket: Bucket) -> nat
    decreases events.len(),
{
    if events.len() == 0 {
        0
    } else {
        charges(events.drop_last(), bucket) + match events.last() {
            Event::Charge(b, nanos) if b == bucket => nanos as nat,
            _ => 0nat,
        }
    }
}

/// How often `primitive` was executed in all of `threads`.
pub open spec fn executions_in(threads: Seq<Seq<Event>>, primitive: Primitive) -> nat
    decreases threads.len(),
{
    if threads.len() == 0 {
        0
    } else {
        executions_in(threads.drop_last(), primitive) + executions(threads.last(), primitive)
    }
}

/// What can be done to the registers.
pub enum Operation {
    /// Count an execution of a primitive.
    Count(Primitive),
    /// Finish a timed call of this kind. What the call itself does to the registers
    /// are operations before this one.
    Timed(Bucket),
    /// Reset the registers.
    Reset,
}

/// `operation` leads from `before` to `after`.
pub open spec fn performed(before: Registers, after: Registers, operation: Operation) -> bool {
    match operation {
        Operation::Count(primitive) => after == before.after(Event::Count(primitive)),
        Operation::Timed(bucket) => exists|nanos: u64| #[trigger]
            before.clock.gives(nanos) && after == before.charged(bucket, nanos),
        Operation::Reset => after == before.cleared(),
    }
}

/// `states` are what the registers go through as `operations` are performed on them,
/// one after the other.
pub open spec fn run(states: Seq<Registers>, operations: Seq<Operation>) -> bool {
    &&& states.len() == operations.len() + 1
    &&& forall|i: int|
        0 <= i < operations.len() ==> performed(states[i], #[trigger] states[i + 1], operations[i])
}

/// What `operations` bring the count of `primitive` to that stood at `start`.
pub open spec fn tally(start: nat, operations: Seq<Operation>, primitive: Primitive) -> nat
    decreases operations.len(),
{
    if operations.len() == 0 {
        start
    } else {
        let earlier = tally(start, operations.drop_last(), primitive);
        match operations.last() {
            Operation::Count(counted) if counted == primitive => earlier + 1,
            Operation::Reset => 0,
            _ => earlier,
        }
    }
}

/// What `operations` bring a bucket to that stood at `start`, where the timed call at
/// position `i` was charged `times[i]`.
pub open spec fn time_tally(
    start: nat,
    operations: Seq<Operation>,
    times: Seq<u64>,
    bucket: Bucket,
) -> nat
    decreases operations.len(),
{
    if operations.len() == 0 {
        start
    } else {
        let earlier = time_tally(start, operations.drop_last(), times.drop_last(), bucket);
        match operations.last() {
            Operation::Timed(timed) if timed == bucket => earlier + times.last() as nat,
            Operation::Reset => 0,
            _ => earlier,
        }
    }
}

/// `times` has a time read off the clock for each timed call among `operations`.
pub open spec fn timed_operations(operations: Seq<Operation>, times: Seq<u64>) -> bool {
    &&& times.len() == operations.len()
    &&& forall|i: int|
        0 <= i < operations.len() && operations[i] is Timed ==> crate::clock::measured(
            #[trigger] times[i],
        )
}

/// Buckets that a snapshot showed as `start` are shown as `end` after `operations`, of
/// which the timed call at position `i` was charged `times[i]`, read off the clock.
pub open spec fn buckets_show(
    start: PrimitiveCounters,
    end: PrimitiveCounters,
    operations: Seq<Operation>,
    times: Seq<u64>,
) -> bool {
    &&& timed_operations(operations, times)
    &&& forall|bucket: Bucket| #[trigger]
        end.time(bucket) == time_tally(
            start.time(bucket) as nat,
            operations,
            times,
            bucket,
        ) % ((u64::MAX + 1) as nat)
}

/// A snapshot that directly follows a reset shows every counter at zero, whatever
/// the registers held before.
pub proof fn law_reset_shows_zero(registers: Registers)
    ensures
        registers.cleared().reading() == PrimitiveCounters::zero(),
{
}

/// Registers are the same where the clock and each cell are.
proof fn lemma_same_cells(one: Registers, other: Registers)
    requires
        one.clock == other.clock,
        forall|primitive: Primitive| one.count(primitive) == #[trigger] other.count(primitive),
        forall|bucket: Bucket| one.time(bucket) == #[trigger] other.time(bucket),
    ensures
        one == other,
{
    assert(one.count(Primitive::Hash) == other.count(Primitive::Hash));
    assert(one.count(Primitive::Kdf) == other.count(Primitive::Kdf));
    assert(one.count(Primitive::Prf) == other.count(Primitive::Prf));
    assert(one.count(Primitive::Keygen) == other.count(Primitive::Keygen));
    assert(one.count(Primitive::Dh) == other.count(Primitive::Dh));
    assert(one.count(Primitive::AeadEncrypt) == other.count(Primitive::AeadEncrypt));
    assert(one.count(Primitive::AeadDecrypt) == other.count(Primitive::AeadDecrypt));
    assert(one.count(Primitive::Sign) == other.count(Primitive::Sign));
    assert(one.count(Primitive::Verify) == other.count(Primitive::Verify));
    assert(one.time(Bucket::PublicKey) == other.time(Bucket::PublicKey));
    assert(one.time(Bucket::Symmetric) == other.time(Bucket::Symmetric));
}

/// One event moves a primitive's cell on by the number of its executions.
proof fn lemma_after_count(registers: Registers, event: Event, primitive: Primitive)
    ensures
        registers.after(event).clock == registers.clock,
        registers.after(event).count(primitive) == if event == Event::Count(primitive) {
            registers.count(primitive).wrapping_add(1)
        } else {
            registers.count(primitive)
        },
{
}

/// One event moves a bucket on by the time charged to it, where there is a clock.
proof fn lemma_after_time(registers: Registers, event: Event, bucket: Bucket)
    ensures
        registers.after(event).clock == registers.clock,
        registers.after(event).time(bucket) == match event {
            Event::Charge(b, nanos) if b == bucket && registers.clock
                is Monotonic => registers.time(bucket).wrapping_add(nanos),
            _ => registers.time(bucket),
        },
{
}

/// Events move a primitive's cell on by the number of its executions.
proof fn lemma_replayed_count(registers: Registers, events: Seq<Event>, primitive: Primitive)
    ensures
        registers.replayed(events).count(primitive) == crate::cell::sum_usize(
            registers.count(primitive),
            executions(events, primitive),
        ),
    decreases events.len(),
{
    let cell = registers.count(primitive);
    crate::cell::lemma_sum_usize(cell, 0, 0);
    if events.len() > 0 {
        let earlier = events.drop_last();
        lemma_replayed_count(registers, earlier, primitive);
        lemma_after_count(registers.replayed(earlier), events.last(), primitive);
        crate::cell::lemma_sum_usize(cell, executions(earlier, primitive), 1);
    }
}

/// Events move a bucket on by the time charged to it, where there is a clock.
proof fn lemma_replayed_time(registers: Registers, events: Seq<Event>, bucket: Bucket)
    ensures
        registers.replayed(events).clock == registers.clock,
        registers.replayed(events).time(bucket) == if registers.clock is Monotonic {
            crate::cell::sum_u64(registers.time(bucket), charges(events, bucket))
        } else {
            registers.time(bucket)
        },
    decreases events.len(),
{
    if events.len() > 0 {
        let earlier = events.drop_last();
        lemma_replayed_time(registers, earlier, bucket);
        lemma_after_time(registers.replayed(earlier), events.last(), bucket);
        if let Event::Charge(_, nanos) = events.last() {
            crate::cell::lemma_sum_u64(registers.time(bucket), charges(earlier, bucket), nanos);
        }
    }
}

/// A snapshot shows, for each primitive, exactly how often it was executed since
/// the last reset, whatever came before that reset. A count that outgrows its
/// cell starts again from zero.
pub proof fn law_snapshot_counts_since_reset(
    registers: Registers,
    events: Seq<Event>,
    primitive: Primitive,
)
    ensures
        registers.cleared().replayed(events).reading().count(primitive) == executions(
            events,
            primitive,
        ) % ((usize::MAX + 1) as nat),
{
    lemma_replayed_count(registers.cleared(), events, primitive);
    let end = registers.cleared().replayed(events);
    assert(end.reading().count(primitive) == end.count(primitive));
    assert(registers.cleared().count(primitive) == 0);
}

/// With a clock, a snapshot shows in each bucket exactly the time charged to it
/// since the last reset, modulo the size of its cell.
pub proof fn law_snapshot_times_since_reset(
    registers: Registers,
    events: Seq<Event>,
    bucket: Bucket,
)
    requires
        registers.clock is Monotonic,
    ensures
        registers.cleared().replayed(events).reading().time(bucket) == charges(events, bucket) % ((
        u64::MAX + 1) as nat),
{
    lemma_replayed_time(registers.cleared(), events, bucket);
    let end = registers.cleared().replayed(events);
    assert(end.reading().time(bucket) == end.time(bucket));
    assert(registers.cleared().time(bucket) == 0);
}

/// Without a clock both buckets stay at zero from one reset to the next.
pub proof fn law_no_clock_no_time(registers: Registers, events: Seq<Event>, bucket: Bucket)
    requires
        registers.clock is Absent,
    ensures
        registers.cleared().replayed(events).reading().time(bucket) == 0,
{
    lemma_replayed_time(registers.cleared(), events, bucket);
    let end = registers.cleared().replayed(events);
    assert(end.reading().time(bucket) == end.time(bucket));
    assert(registers.cleared().time(bucket) == 0);
}

/// Two events leave the same registers in either order.
pub proof fn law_events_commute(registers: Registers, first: Event, second: Event)
    ensures
        registers.after(first).after(second) == registers.after(second).after(first),
{
    let one = registers.after(first).after(second);
    let other = registers.after(second).after(first);
    assert forall|primitive: Primitive| one.count(primitive) == #[trigger] other.count(
        primitive,
    ) by {
        lemma_after_count(registers, first, primitive);
        lemma_after_count(registers.after(first), second, primitive);
        lemma_after_count(registers, second, primitive);
        lemma_after_count(registers.after(second), first, primitive);
    }
    assert forall|bucket: Bucket| one.time(bucket) == #[trigger] other.time(bucket) by {
        lemma_after_time(registers, first, bucket);
        lemma_after_time(registers.after(first), second, bucket);
        lemma_after_time(registers, second, bucket);
        lemma_after_time(registers.after(second), first, bucket);
    }
    lemma_same_cells(one, other);
}

/// However the events of several parties interleave, the registers end up the
/// same: only which events happened matters, not their order.
pub proof fn law_order_is_irrelevant(registers: Registers, one: Seq<Event>, other: Seq<Event>)
    requires
        one.to_multiset() == other.to_multiset(),
    ensures
        registers.replayed(one) == registers.replayed(other),
{
    let step = |registers: Registers, event: Event| registers.after(event);
    assert forall|x: Event, y: Event, v: Registers| #[trigger]
        step(step(v, x), y) == step(step(v, y), x) by {
        law_events_commute(v, x, y);
    }
    vstd::seq_lib::lemma_fold_left_permutation(one, other, step, registers);
}

/// The counts do not depend on timing: two runs that execute the same primitives
/// show the same counts, whatever time either was charged.
pub proof fn law_counts_ignore_time(
    registers: Registers,
    one: Seq<Event>,
    other: Seq<Event>,
    primitive: Primitive,
)
    requires
        one.filter(|event: Event| event is Count) == other.filter(|event: Event| event is Count),
    ensures
        registers.replayed(one).reading().count(primitive) == registers.replayed(
            other,
        ).reading().count(primitive),
{
    lemma_replayed_count(registers, one, primitive);
    lemma_replayed_count(registers, other, primitive);
    lemma_executions_of_counts(one, primitive);
    lemma_executions_of_counts(other, primitive);
    let end_one = registers.replayed(one);
    let end_other = registers.replayed(other);
    assert(end_one.count(primitive) == end_other.count(primitive));
    assert(end_one.reading().count(primitive) == end_one.count(primitive));
    assert(end_other.reading().count(primitive) == end_other.count(primitive));
}

/// Leaving out the charges leaves out no execution.
proof fn lemma_executions_of_counts(events: Seq<Event>, primitive: Primitive)
    ensures
        executions(events.filter(|event: Event| event is Count), primitive) == executions(
            events,
            primitive,
        ),
    decreases events.len(),
{
    reveal(Seq::filter);
    let is_count = |event: Event| event is Count;
    if events.len() > 0 {
        lemma_executions_of_counts(events.drop_last(), primitive);
        let kept = events.drop_last().filter(is_count);
        if is_count(events.last()) {
            assert(events.filter(is_count) == kept.push(events.last()));
            assert(kept.push(events.last()).drop_last() == kept);
        }
    }
}

/// The run without its last operation.
proof fn lemma_run_without_last(states: Seq<Registers>, operations: Seq<Operation>)
    requires
        run(states, operations),
        operations.len() > 0,
    ensures
        run(states.drop_last(), operations.drop_last()),
        states.drop_last().first() == states.first(),
        performed(states.drop_last().last(), states.last(), operations.last()),
{
    let before = states.drop_last();
    let earlier = operations.drop_last();
    assert forall|i: int| 0 <= i < earlier.len() implies performed(
        before[i],
        #[trigger] before[i + 1],
        earlier[i],
    ) by {
        assert(performed(states[i], states[i + 1], operations[i]));
    }
    let n = operations.len() - 1;
    assert(performed(states[n], states[n + 1], operations[n]));
}

/// A snapshot shows each cell as it is.
proof fn lemma_reading(registers: Registers, primitive: Primitive, bucket: Bucket)
    ensures
        registers.reading().count(primitive) == registers.count(primitive),
        registers.reading().time(bucket) == registers.time(bucket),
{
}

/// Over a run of counts, timed calls and resets, a snapshot shows each count as the
/// operations bring it to, whatever the timed calls were charged. A count that
/// outgrows its cell starts again from zero.
#[verifier::spinoff_prover]
pub proof fn law_run_is_counted(
    states: Seq<Registers>,
    operations: Seq<Operation>,
    primitive: Primitive,
)
    requires
        run(states, operations),
    ensures
        states.last().reading().count(primitive) == tally(
            states.first().reading().count(primitive) as nat,
            operations,
            primitive,
        ) % ((usize::MAX + 1) as nat),
    decreases operations.len(),
{
    let modulus = (usize::MAX + 1) as nat;
    let start = states.first().count(primitive);
    lemma_reading(states.first(), primitive, Bucket::PublicKey);
    lemma_reading(states.last(), primitive, Bucket::PublicKey);
    if operations.len() == 0 {
        assert(states.last() == states.first());
        vstd::arithmetic::div_mod::lemma_small_mod(start as nat, modulus);
    } else {
        lemma_run_without_last(states, operations);
        let before = states.drop_last();
        let earlier = operations.drop_last();
        law_run_is_counted(before, earlier, primitive);
        lemma_reading(before.last(), primitive, Bucket::PublicKey);
        let so_far = tally(start as nat, earlier, primitive);
        match operations.last() {
            Operation::Count(counted) => {
                lemma_after_count(before.last(), Event::Count(counted), primitive);
                crate::cell::lemma_sum_usize(0, so_far, 1);
            },
            Operation::Timed(bucket) => {
                let nanos = choose|nanos: u64| #[trigger]
                    before.last().clock.gives(nanos) && states.last() == before.last().charged(
                        bucket,
                        nanos,
                    );
                lemma_after_count(before.last(), Event::Charge(bucket, nanos), primitive);
            },
            Operation::Reset => {
                assert(states.last().count(primitive) == 0);
                vstd::arithmetic::div_mod::lemma_small_mod(0, modulus);
            },
        }
    }
}

/// One more operation, which is charged `nanos` if it is a timed call, moves a bucket
/// on by that time if the call belongs to it, and back to zero if it is a reset.
#[verifier::spinoff_prover]
proof fn lemma_bucket_after_operation(
    start: u64,
    operations: Seq<Operation>,
    times: Seq<u64>,
    bucket: Bucket,
    nanos: u64,
)
    requires
        operations.len() > 0,
        times.len() == operations.len() - 1,
    ensures
        ({
            let modulus = (u64::MAX + 1) as nat;
            let before = time_tally(start as nat, operations.drop_last(), times, bucket) % modulus;
            let after = time_tally(start as nat, operations, times.push(nanos), bucket) % modulus;
            after == match operations.last() {
                Operation::Timed(timed) if timed == bucket => (before as u64).wrapping_add(
                    nanos,
                ) as nat,
                Operation::Reset => 0,
                _ => before,
            }
        }),
{
    let so_far = time_tally(start as nat, operations.drop_last(), times, bucket);
    crate::cell::lemma_sum_u64(0, so_far, nanos);
    assert(times.push(nanos).drop_last() == times);
}

/// Over a run of counts, timed calls and resets with a clock, each bucket shows the
/// sum of times read off the clock, one for each timed call that belongs to the
/// bucket, modulo the size of its cell. A timed call is charged once, to one bucket.
#[verifier::spinoff_prover]
pub proof fn law_run_is_timed(states: Seq<Registers>, operations: Seq<Operation>)
    requires
        run(states, operations),
        states.first().clock is Monotonic,
    ensures
        states.last().clock is Monotonic,
        exists|times: Seq<u64>| #[trigger]
            buckets_show(states.first().reading(), states.last().reading(), operations, times),
    decreases operations.len(),
{
    let start = states.first().reading();
    let end = states.last().reading();
    if operations.len() == 0 {
        let times = Seq::<u64>::empty();
        assert(states.last() == states.first());
        assert forall|bucket: Bucket| #[trigger]
            end.time(bucket) == time_tally(
                start.time(bucket) as nat,
                operations,
                times,
                bucket,
            ) % ((u64::MAX + 1) as nat) by {
            vstd::arithmetic::div_mod::lemma_small_mod(
                start.time(bucket) as nat,
                (u64::MAX + 1) as nat,
            );
        }
        assert(buckets_show(start, end, operations, times));
    } else {
        lemma_run_without_last(states, operations);
        let earlier = operations.drop_last();
        law_run_is_timed(states.drop_last(), earlier);
        let before = states.drop_last().last();
        let after = states.last();
        let times = choose|times: Seq<u64>| #[trigger]
            buckets_show(start, before.reading(), earlier, times);
        let nanos = match operations.last() {
            Operation::Timed(timed) => choose|nanos: u64| #[trigger]
                before.clock.gives(nanos) && after == before.charged(timed, nanos),
            _ => 0u64,
        };
        let longer = times.push(nanos);
        assert(timed_operations(operations, longer)) by {
            assert forall|i: int|
                0 <= i < operations.len() && operations[i] is Timed implies crate::clock::measured(
                #[trigger] longer[i],
            ) by {
                if i < earlier.len() {
                    assert(earlier[i] is Timed);
                    assert(crate::clock::measured(times[i]));
                } else {
                    assert(before.clock.gives(nanos));
                }
            }
        }
        assert forall|bucket: Bucket| #[trigger]
            end.time(bucket) == time_tally(
                start.time(bucket) as nat,
                operations,
                longer,
                bucket,
            ) % ((u64::MAX + 1) as nat) by {
            lemma_reading(before, Primitive::Hash, bucket);
            lemma_reading(after, Primitive::Hash, bucket);
            assert(before.reading().time(bucket) == time_tally(
                start.time(bucket) as nat,
                earlier,
                times,
                bucket,
            ) % ((u64::MAX + 1) as nat));
            lemma_bucket_after_operation(start.time(bucket), operations, times, bucket, nanos);
            match operations.last() {
                Operation::Count(counted) => {
                    lemma_after_time(before, Event::Count(counted), bucket);
                },
                Operation::Timed(timed) => {
                    lemma_after_time(before, Event::Charge(timed, nanos), bucket);
                },
                Operation::Reset => {
                    assert(after.time(bucket) == 0);
                },
            }
        }
        assert(buckets_show(start, end, operations, longer));
    }
}

/// Executions in two runs of events add up.
proof fn lemma_executions_concat(one: Seq<Event>, other: Seq<Event>, primitive: Primitive)
    ensures
        executions(one + other, primitive) == executions(one, primitive) + executions(
            other,
            primitive,
        ),
    decreases other.len(),
{
    if other.len() == 0 {
        assert(one + other == one);
    } else {
        lemma_executions_concat(one, other.drop_last(), primitive);
        assert((one + other).drop_last() == one + other.drop_last());
    }
}

/// All executions one by one are those of each thread.
proof fn lemma_executions_one_by_one(threads: Seq<Seq<Event>>, primitive: Primitive)
    ensures
        executions(one_by_one(threads), primitive) == executions_in(threads, primitive),
    decreases threads.len(),
{
    if threads.len() > 0 {
        lemma_executions_one_by_one(threads.drop_last(), primitive);
        lemma_executions_concat(one_by_one(threads.drop_last()), threads.last(), primitive);
    }
}

/// No execution is lost, however many threads count and in whatever order their
/// events take effect: each count goes up by the executions in all threads.
pub proof fn law_no_execution_is_lost(
    registers: Registers,
    threads: Seq<Seq<Event>>,
    events: Seq<Event>,
    primitive: Primitive,
)
    requires
        interleaves(threads, events),
    ensures
        registers.replayed(events).reading().count(primitive) == (registers.reading().count(
            primitive,
        ) + executions_in(threads, primitive)) % (usize::MAX + 1),
{
    law_order_is_irrelevant(registers, events, one_by_one(threads));
    lemma_replayed_count(registers, one_by_one(threads), primitive);
    lemma_executions_one_by_one(threads, primitive);
    lemma_reading(registers, primitive, Bucket::PublicKey);
    lemma_reading(registers.replayed(events), primitive, Bucket::PublicKey);
}

/// Events that all execute one primitive move its count on by their number, and
/// change nothing else.
#[verifier::spinoff_prover]
proof fn lemma_only_executions(registers: Registers, events: Seq<Event>, primitive: Primitive)
    requires
        forall|i: int| 0 <= i < events.len() ==> #[trigger] events[i] == Event::Count(primitive),
        registers.count(primitive) + events.len() <= usize::MAX,
    ensures
        registers.replayed(events) == registers.with_count(
            primitive,
            (registers.count(primitive) + events.len()) as usize,
        ),
    decreases events.len(),
{
    if events.len() > 0 {
        let earlier = events.drop_last();
        assert forall|i: int| 0 <= i < earlier.len() implies #[trigger] earlier[i] == Event::Count(
            primitive,
        ) by {
            assert(events[i] == Event::Count(primitive));
        }
        lemma_only_executions(registers, earlier, primitive);
        assert(events.last() == events[events.len() - 1]);
        assert(registers.replayed(events) == registers.replayed(earlier).after(events.last()));
    }
}

/// Where several threads execute one primitive and nothing else happens, its count
/// goes up by exactly the number of executions, as long as its cell can hold that,
/// and nothing else changes.
pub proof fn law_threads_add_up(
    registers: Registers,
    threads: Seq<Seq<Event>>,
    events: Seq<Event>,
    primitive: Primitive,
)
    requires
        interleaves(threads, events),
        forall|t: int, i: int|
            0 <= t < threads.len() && 0 <= i < threads[t].len() ==> #[trigger] threads[t][i]
                == Event::Count(primitive),
        registers.count(primitive) + one_by_one(threads).len() <= usize::MAX,
    ensures
        registers.replayed(events) == registers.with_count(
            primitive,
            (registers.count(primitive) + one_by_one(threads).len()) as usize,
        ),
{
    lemma_interleaved(threads, events, |event: Event| event == Event::Count(primitive));
    lemma_only_executions(registers, events, primitive);
}

/// The count after `count`: the next number, or zero where a cell can hold no more.
pub open spec fn one_more(count: usize) -> int {
    if count == usize::MAX {
        0
    } else {
        count + 1
    }
}

/// Zero is zero in every field.
pub proof fn law_zero_is_zero()
    ensures
        PrimitiveCounters::zero().hash == 0,
        PrimitiveCounters::zero().kdf == 0,
        PrimitiveCounters::zero().prf == 0,
        PrimitiveCounters::zero().keygen == 0,
        PrimitiveCounters::zero().dh == 0,
        PrimitiveCounters::zero().aead_encrypt == 0,
        PrimitiveCounters::zero().aead_decrypt == 0,
        PrimitiveCounters::zero().sign == 0,
        PrimitiveCounters::zero().verify == 0,
        PrimitiveCounters::zero().pubkey_ns == 0,
        PrimitiveCounters::zero().sym_ns == 0,
{
}

/// A snapshot shows in each field the number that the register of that name holds.
pub proof fn law_snapshot_shows_each_register(registers: Registers)
    ensures
        registers.reading().hash == registers.hash,
        registers.reading().kdf == registers.kdf,
        registers.reading().prf == registers.prf,
        registers.reading().keygen == registers.keygen,
        registers.reading().dh == registers.dh,
        registers.reading().aead_encrypt == registers.aead_encrypt,
        registers.reading().aead_decrypt == registers.aead_decrypt,
        registers.reading().sign == registers.sign,
        registers.reading().verify == registers.verify,
        registers.reading().pubkey_ns == registers.pubkey_ns,
        registers.reading().sym_ns == registers.sym_ns,
{
}

/// A reset leaves zero in every register, and the clock as it was.
pub proof fn law_reset_clears_each_register(registers: Registers)
    ensures
        registers.cleared().hash == 0,
        registers.cleared().kdf == 0,
        registers.cleared().prf == 0,
        registers.cleared().keygen == 0,
        registers.cleared().dh == 0,
        registers.cleared().aead_encrypt == 0,
        registers.cleared().aead_decrypt == 0,
        registers.cleared().sign == 0,
        registers.cleared().verify == 0,
        registers.cleared().pubkey_ns == 0,
        registers.cleared().sym_ns == 0,
        registers.cleared().clock == registers.clock,
{
}

/// Counting a primitive takes the register of its name to the next number, and leaves
/// everything else as it was, both buckets among it.
#[verifier::spinoff_prover]
pub proof fn law_count_moves_one_register(registers: Registers, primitive: Primitive)
    ensures
        ({
            let next = registers.after(Event::Count(primitive));
            match primitive {
                Primitive::Hash => {
                    &&& next.hash == one_more(registers.hash)
                    &&& next == (Registers { hash: next.hash, ..registers })
                },
                Primitive::Kdf => {
                    &&& next.kdf == one_more(registers.kdf)
                    &&& next == (Registers { kdf: next.kdf, ..registers })
                },
                Primitive::Prf => {
                    &&& next.prf == one_more(registers.prf)
                    &&& next == (Registers { prf: next.prf, ..registers })
                },
                Primitive::Keygen => {
                    &&& next.keygen == one_more(registers.keygen)
                    &&& next == (Registers { keygen: next.keygen, ..registers })
                },
                Primitive::Dh => {
                    &&& next.dh == one_more(registers.dh)
                    &&& next == (Registers { dh: next.dh, ..registers })
                },
                Primitive::AeadEncrypt => {
                    &&& next.aead_encrypt == one_more(registers.aead_encrypt)
                    &&& next == (Registers { aead_encrypt: next.aead_encrypt, ..registers })
                },
                Primitive::AeadDecrypt => {
                    &&& next.aead_decrypt == one_more(registers.aead_decrypt)
                    &&& next == (Registers { aead_decrypt: next.aead_decrypt, ..registers })
                },
                Primitive::Sign => {
                    &&& next.sign == one_more(registers.sign)
                    &&& next == (Registers { sign: next.sign, ..registers })
                },
                Primitive::Verify => {
                    &&& next.verify == one_more(registers.verify)
                    &&& next == (Registers { verify: next.verify, ..registers })
                },
            }
        }),
{
}

/// With a clock, a charge adds its nanoseconds to the bucket that it is for, modulo the
/// size of the cell, and leaves everything else as it was.
pub proof fn law_charge_moves_one_bucket(registers: Registers, nanos: u64)
    requires
        registers.clock is Monotonic,
    ensures
        ({
            let next = registers.after(Event::Charge(Bucket::PublicKey, nanos));
            &&& (next.pubkey_ns - registers.pubkey_ns - nanos) % 0x1_0000_0000_0000_0000 == 0
            &&& next == (Registers { pubkey_ns: next.pubkey_ns, ..registers })
        }),
        ({
            let next = registers.after(Event::Charge(Bucket::Symmetric, nanos));
            &&& (next.sym_ns - registers.sym_ns - nanos) % 0x1_0000_0000_0000_0000 == 0
            &&& next == (Registers { sym_ns: next.sym_ns, ..registers })
        }),
{
}

/// Without a clock a charge changes nothing.
pub proof fn law_charge_needs_a_clock(registers: Registers, bucket: Bucket, nanos: u64)
    requires
        registers.clock is Absent,
    ensures
        registers.after(Event::Charge(bucket, nanos)) == registers,
        registers.charged(bucket, nanos) == registers,
{
}

/// A charge of a timed call is a charge as any other.
pub proof fn law_timed_call_is_a_charge(registers: Registers, bucket: Bucket, nanos: u64)
    ensures
        registers.charged(bucket, nanos) == registers.after(Event::Charge(bucket, nanos)),
{
}

/// `operation` leads from `before` to `after`, and is charged `nanos` if it is a timed
/// call.
pub open spec fn performed_as(
    before: Registers,
    after: Registers,
    operation: Operation,
    nanos: u64,
) -> bool {
    match operation {
        Operation::Timed(bucket) => after == before.charged(bucket, nanos),
        _ => performed(before, after, operation),
    }
}

/// `states` are what the registers go through as `operations` are performed on them,
/// where the timed call at position `i` is charged `times[i]`.
pub open spec fn charged_run(
    states: Seq<Registers>,
    operations: Seq<Operation>,
    times: Seq<u64>,
) -> bool {
    &&& states.len() == operations.len() + 1
    &&& times.len() == operations.len()
    &&& forall|i: int|
        0 <= i < operations.len() ==> performed_as(
            states[i],
            #[trigger] states[i + 1],
            operations[i],
            times[i],
        )
}

/// Over a run with a clock, each bucket shows the sum of just the times that the timed
/// calls of its kind were charged since the last reset, modulo the size of its cell.
#[verifier::spinoff_prover]
pub proof fn law_run_is_charged(
    states: Seq<Registers>,
    operations: Seq<Operation>,
    times: Seq<u64>,
    bucket: Bucket,
)
    requires
        charged_run(states, operations, times),
        states.first().clock is Monotonic,
    ensures
        states.last().clock is Monotonic,
        states.last().reading().time(bucket) == time_tally(
            states.first().reading().time(bucket) as nat,
            operations,
            times,
            bucket,
        ) % ((u64::MAX + 1) as nat),
    decreases operations.len(),
{
    let start = states.first().reading().time(bucket);
    lemma_reading(states.last(), Primitive::Hash, bucket);
    if operations.len() == 0 {
        assert(states.last() == states.first());
        vstd::arithmetic::div_mod::lemma_small_mod(start as nat, (u64::MAX + 1) as nat);
    } else {
        let n = operations.len() - 1;
        let earlier = operations.drop_last();
        let taken = times.drop_last();
        let passed = states.drop_last();
        assert forall|i: int| 0 <= i < earlier.len() implies performed_as(
            passed[i],
            #[trigger] passed[i + 1],
            earlier[i],
            taken[i],
        ) by {
            assert(performed_as(states[i], states[i + 1], operations[i], times[i]));
        }
        law_run_is_charged(passed, earlier, taken, bucket);
        let before = passed.last();
        let after = states.last();
        assert(performed_as(states[n], states[n + 1], operations[n], times[n]));
        lemma_reading(before, Primitive::Hash, bucket);
        lemma_bucket_after_operation(start, operations, taken, bucket, times[n]);
        assert(taken.push(times[n]) == times);
        match operations.last() {
            Operation::Count(counted) => {
                lemma_after_time(before, Event::Count(counted), bucket);
            },
            Operation::Timed(timed) => {
                lemma_after_time(before, Event::Charge(timed, times[n]), bucket);
            },
            Operation::Reset => {
                assert(after.time(bucket) == 0);
            },
        }
    }
}

/// Times that are no less come to no less.
proof fn lemma_tally_is_monotonic(
    operations: Seq<Operation>,
    less: Seq<u64>,
    more: Seq<u64>,
    bucket: Bucket,
)
    requires
        less.len() == operations.len(),
        more.len() == operations.len(),
        forall|i: int|
            0 <= i < operations.len() && operations[i] is Timed ==> #[trigger] less[i] <= more[i],
    ensures
        time_tally(0, operations, less, bucket) <= time_tally(0, operations, more, bucket),
    decreases operations.len(),
{
    if operations.len() > 0 {
        let n = operations.len() - 1;
        let earlier = operations.drop_last();
        assert forall|i: int|
            0 <= i < earlier.len() && earlier[i] is Timed implies #[trigger] less.drop_last()[i]
            <= more.drop_last()[i] by {
            assert(operations[i] is Timed);
            assert(less[i] <= more[i]);
        }
        lemma_tally_is_monotonic(earlier, less.drop_last(), more.drop_last(), bucket);
        assert(operations[n] is Timed ==> less[n] <= more[n]);
    }
}

/// After any number of timed calls since a reset, a bucket shows no less than the sum of
/// the spans of those that belong to it, where no call was charged less than its span,
/// as long as the cell can hold what was charged. So every call adds its own duration,
/// whatever the bucket already holds.
pub proof fn law_buckets_cover_spans(
    states: Seq<Registers>,
    operations: Seq<Operation>,
    times: Seq<u64>,
    spans: Seq<u64>,
    bucket: Bucket,
)
    requires
        charged_run(states, operations, times),
        states.first().clock is Monotonic,
        states.first().reading().time(bucket) == 0,
        spans.len() == operations.len(),
        forall|i: int|
            0 <= i < operations.len() && operations[i] is Timed ==> #[trigger] spans[i] <= times[i],
        time_tally(0, operations, times, bucket) <= u64::MAX,
    ensures
        states.last().reading().time(bucket) >= time_tally(0, operations, spans, bucket),
{
    law_run_is_charged(states, operations, times, bucket);
    lemma_tally_is_monotonic(operations, spans, times, bucket);
    vstd::arithmetic::div_mod::lemma_small_mod(
        time_tally(0, operations, times, bucket),
        (u64::MAX + 1) as nat,
    );
}

/// The public-key bucket is the field `pubkey_ns` of a snapshot, the symmetric one
/// `sym_ns`.
pub proof fn law_buckets_by_name(counters: PrimitiveCounters)
    ensures
        counters.time(Bucket::PublicKey) == counters.pubkey_ns,
        counters.time(Bucket::Symmetric) == counters.sym_ns,
{
}

} // verus!
