//! Five amplifiers that run one program, wired in a row and in a ring.

use itertools::Itertools;
use std::collections::VecDeque;
use vstd::prelude::*;

use crate::failure::{Cause, Failure};
use crate::intcode::cpu::Machine;
use crate::intcode::error::Fault;
use crate::intcode::run::{
    buffered_run, lemma_buffered_run_keeps_image, lemma_output_run_keeps_image, output_run,
    to_completion, until_output,
    STEP_BUDGET,
};
use crate::intcode::Intcode;
use crate::text::int_list;

verus! {

/// What `Itertools::permutations` gives for the integers from `lo` up to, not
/// including, `hi`, taken `k` at a time: the arrangements in the order in
/// which they come.
pub uninterp spec fn permutations_in_order(lo: i64, hi: i64, k: usize) -> Seq<Seq<i64>>;

/// The texts of the vectors in `items`.
pub open spec fn views_of(items: Seq<Vec<i64>>) -> Seq<Seq<i64>> {
    items.map_values(|item: Vec<i64>| item@)
}

/// Calls `permutations` of the crate itertools on the range `lo..hi` and
/// collects what it gives. The contract only names the result: the same
/// arguments give the same arrangements in the same order. Ranges of more
/// than eight integers are left out, as the number of arrangements grows
/// with the factorial of the length.
#[verifier::external_body]
fn permutations(lo: i64, hi: i64, k: usize) -> (perms: Vec<Vec<i64>>)
    requires
        lo <= hi <= lo + 8,
    ensures
        views_of(perms@) == permutations_in_order(lo, hi, k),
{
    (lo..hi).permutations(k).collect()
}

/// The signal that one amplifier gives: the one value that the program
/// `image` writes when it is run from its start with the inputs `phase` and
/// `signal`. It is a failure if the run fails, or writes nothing, or leaves
/// an input unread, or writes more than one value.
#[verifier::opaque]
pub open spec fn amplify(image: Seq<i64>, phase: i64, signal: i64) -> Result<i64, Cause> {
    let run = buffered_run(
        Machine::initial(image),
        seq![phase, signal],
        Seq::empty(),
        STEP_BUDGET as nat,
    );
    match run.fault {
        Some(fault) => Err(Cause::Machine(fault)),
        None => if run.outputs.len() == 0 {
            Err(Cause::MissingOutput)
        } else if run.pending.len() > 0 {
            Err(Cause::UnreadInput)
        } else if run.outputs.len() > 1 {
            Err(Cause::ExtraOutput)
        } else {
            Ok(run.outputs[0])
        },
    }
}

/// The signal at the end of a row of amplifiers, one for each of `phases`,
/// when `signal` goes into the first.
pub open spec fn chain(image: Seq<i64>, phases: Seq<i64>, signal: i64) -> Result<i64, Cause>
    decreases phases.len(),
{
    if phases.len() == 0 {
        Ok(signal)
    } else {
        match amplify(image, phases[0], signal) {
            Err(cause) => Err(cause),
            Ok(next) => chain(image, phases.drop_first(), next),
        }
    }
}

/// Amplifiers in a ring, between two turns.
pub struct Ring {
    /// Each amplifier's machine and the inputs that wait for it.
    pub amps: Seq<(Machine, Seq<i64>)>,
    /// The last signal that any amplifier gave.
    pub signal: i64,
    /// The number of amplifiers, less the number of times that one was
    /// found to have halted.
    pub running: int,
}

/// `queue` without its last item, if it has one.
pub open spec fn without_last(queue: Seq<i64>) -> Seq<i64> {
    if queue.len() > 0 {
        queue.drop_last()
    } else {
        queue
    }
}

/// The ring after amplifier `k` had its turn: it gets the last signal and
/// runs up to its next output, which is the new signal. If it halts instead,
/// the signal stays, what was put in its queue is taken out again, and one
/// amplifier fewer counts as running.
#[verifier::opaque]
pub open spec fn turn(ring: Ring, k: int) -> Result<Ring, Cause> {
    let run = output_run(ring.amps[k].0, ring.amps[k].1.push(ring.signal), STEP_BUDGET as nat);
    match run.outcome {
        Err(fault) => Err(Cause::Machine(fault)),
        Ok(Some(signal)) => Ok(
            Ring { amps: ring.amps.update(k, (run.machine, run.pending)), signal, ..ring },
        ),
        Ok(None) => Ok(
            Ring {
                amps: ring.amps.update(k, (run.machine, without_last(run.pending))),
                running: ring.running - 1,
                ..ring
            },
        ),
    }
}

/// The ring after the amplifiers from `k` up to, not including, `n` had one
/// turn each, in order.
pub open spec fn turns(ring: Ring, k: int, n: int) -> Result<Ring, Cause>
    decreases n - k,
{
    if 0 <= k < n {
        match turn(ring, k) {
            Err(cause) => Err(cause),
            Ok(next) => turns(next, k + 1, n),
        }
    } else {
        Ok(ring)
    }
}

/// The ring after each amplifier had one turn, in order.
pub open spec fn round(ring: Ring) -> Result<Ring, Cause> {
    turns(ring, 0, ring.amps.len() as int)
}

/// The ring after as many whole rounds as it takes until, at the end of a
/// round, no amplifier counts as running; a failure if a turn fails or
/// `fuel` rounds do not get there.
pub open spec fn feedback(ring: Ring, fuel: nat) -> Result<Ring, Cause>
    decreases fuel,
{
    if fuel == 0 {
        Err(Cause::Machine(Fault::StepLimit))
    } else {
        match round(ring) {
            Err(cause) => Err(cause),
            Ok(after) => if after.running == 0 {
                Ok(after)
            } else {
                feedback(after, (fuel - 1) as nat)
            },
        }
    }
}

/// Five amplifiers at the start of the program `image`, the first
/// `phases.len()` of them with their phase waiting as input.
pub open spec fn seeded(image: Seq<i64>, phases: Seq<i64>) -> Seq<(Machine, Seq<i64>)> {
    Seq::new(
        5,
        |k: int|
            (
                Machine::initial(image),
                if k < phases.len() {
                    seq![phases[k]]
                } else {
                    Seq::empty()
                },
            ),
    )
}

/// Whether no amplifier has input waiting.
pub open spec fn all_read(amps: Seq<(Machine, Seq<i64>)>) -> bool {
    forall|k: int| 0 <= k < amps.len() ==> (#[trigger] amps[k]).1.len() == 0
}

/// The last signal of a ring of five amplifiers with the phase settings
/// `phases`, once all have halted; a failure if the run fails or an
/// amplifier is left with input that it did not read.
pub open spec fn ring_signal(image: Seq<i64>, phases: Seq<i64>) -> Result<i64, Cause> {
    match feedback(
        Ring { amps: seeded(image, phases), signal: 0, running: 5 },
        STEP_BUDGET as nat,
    ) {
        Err(cause) => Err(cause),
        Ok(ring) => if all_read(ring.amps) {
            Ok(ring.signal)
        } else {
            Err(Cause::UnreadInput)
        },
    }
}

/// How the amplifiers are wired.
pub enum Wiring {
    /// In a row: each gets its phase and the signal of the one before it.
    Row,
    /// In a ring: the last feeds the first, until all have halted.
    Ring,
}

/// The signal that amplifiers with the phase settings `phases` give for the
/// program `image`, wired as `wiring` says, with the signal 0 going in.
pub open spec fn signal_of(wiring: Wiring, image: Seq<i64>, phases: Seq<i64>) -> Result<i64, Cause> {
    match wiring {
        Wiring::Row => chain(image, phases, 0),
        Wiring::Ring => ring_signal(image, phases),
    }
}

/// The strongest signal among `candidates` and the first candidate that
/// gives it, where `best` is the strongest seen before. The first candidate
/// that fails decides the result.
pub open spec fn strongest(
    wiring: Wiring,
    image: Seq<i64>,
    candidates: Seq<Seq<i64>>,
    best: (i64, Seq<i64>),
) -> Result<(i64, Seq<i64>), Cause>
    decreases candidates.len(),
{
    if candidates.len() == 0 {
        Ok(best)
    } else {
        match signal_of(wiring, image, candidates[0]) {
            Err(cause) => Err(cause),
            Ok(signal) => strongest(
                wiring,
                image,
                candidates.drop_first(),
                if best.0 < signal {
                    (signal, candidates[0])
                } else {
                    best
                },
            ),
        }
    }
}

/// The answer for amplifiers wired as `wiring` says: the strongest signal
/// that any of `candidates` gives as phase settings for the program `text`.
pub open spec fn answer(wiring: Wiring, text: Seq<char>, candidates: Seq<Seq<i64>>) -> Result<
    (i64, Seq<i64>),
    Cause,
> {
    match int_list(text) {
        None => Err(Cause::Machine(Fault::ParseMem)),
        Some(image) => strongest(wiring, image, candidates, (i64::MIN, Seq::empty())),
    }
}

/// What `strongest` does with the candidate at `i` when it has come that far.
pub proof fn lemma_strongest_step(
    wiring: Wiring,
    image: Seq<i64>,
    candidates: Seq<Seq<i64>>,
    i: int,
    best: (i64, Seq<i64>),
)
    requires
        0 <= i < candidates.len(),
    ensures
        strongest(wiring, image, candidates.skip(i), best) == match signal_of(
            wiring,
            image,
            candidates[i],
        ) {
            Err(cause) => Err(cause),
            Ok(signal) => strongest(
                wiring,
                image,
                candidates.skip(i + 1),
                if best.0 < signal {
                    (signal, candidates[i])
                } else {
                    best
                },
            ),
        },
{
    assert(candidates.skip(i).drop_first() =~= candidates.skip(i + 1));
}

/// Whether `r` is the answer `answer`.
pub open spec fn gives(r: Result<(i64, Vec<i64>), Failure>, answer: Result<(i64, Seq<i64>), Cause>)
    -> bool {
    match answer {
        Ok((signal, phases)) => r matches Ok(found) && found.0 == signal && found.1@ == phases,
        Err(cause) => r matches Err(e) && e@ == cause,
    }
}

/// Runs one amplifier: the machine, which is at its start, with the inputs
/// `phase` and `signal`. Gives the one value it writes and puts the machine
/// back to its start.
fn amplifier(
    intcode: &mut Intcode,
    feed: &mut Vec<i64>,
    output: &mut Vec<i64>,
    phase: i64,
    signal: i64,
) -> (r: Result<i64, Failure>)
    requires
        old(intcode)@ == old(intcode)@.reset(),
        old(feed)@.len() == 0,
        old(output)@.len() == 0,
    ensures
        match amplify(old(intcode)@.mem.image, phase, signal) {
            Ok(next) => {
                &&& r == Ok::<i64, Failure>(next)
                &&& final(intcode)@ == old(intcode)@
                &&& final(feed)@.len() == 0
                &&& final(output)@.len() == 0
            },
            Err(cause) => r matches Err(e) && e@ == cause,
        },
{
    feed.push(phase);
    feed.push(signal);
    assert(feed@ =~= seq![phase, signal]);
    assert(output@ =~= Seq::<i64>::empty());
    proof {
        reveal(amplify);
        lemma_buffered_run_keeps_image(intcode@, feed@, output@, STEP_BUDGET as nat);
    }
    match to_completion(intcode, feed, output) {
        Ok(()) => {},
        Err(e) => {
            return Err(Failure::Machine(e));
        },
    }
    let next = match output.pop() {
        Some(val) => val,
        None => {
            return Err(Failure::MissingOutput);
        },
    };
    if feed.len() > 0 {
        return Err(Failure::UnreadInput);
    }
    if output.len() > 0 {
        return Err(Failure::ExtraOutput);
    }
    intcode.reset();
    Ok(next)
}

/// Runs a row of amplifiers, one for each of `phases`, with the signal 0
/// going into the first.
fn run_chain(
    intcode: &mut Intcode,
    feed: &mut Vec<i64>,
    output: &mut Vec<i64>,
    phases: &Vec<i64>,
) -> (r: Result<i64, Failure>)
    requires
        old(intcode)@ == old(intcode)@.reset(),
        old(feed)@.len() == 0,
        old(output)@.len() == 0,
    ensures
        match chain(old(intcode)@.mem.image, phases@, 0) {
            Ok(last) => {
                &&& r == Ok::<i64, Failure>(last)
                &&& final(intcode)@ == old(intcode)@
                &&& final(feed)@.len() == 0
                &&& final(output)@.len() == 0
            },
            Err(cause) => r matches Err(e) && e@ == cause,
        },
{
    let ghost image = intcode@.mem.image;
    let mut signal: i64 = 0;
    let mut j: usize = 0;
    assert(phases@.skip(0) =~= phases@);
    while j < phases.len()
        invariant
            j <= phases.len(),
            intcode@ == old(intcode)@,
            intcode@ == intcode@.reset(),
            image == intcode@.mem.image,
            feed@.len() == 0,
            output@.len() == 0,
            chain(image, phases@.skip(j as int), signal) == chain(image, phases@, 0),
        decreases phases.len() - j,
    {
        assert(phases@.skip(j as int).drop_first() =~= phases@.skip(j + 1));
        signal = match amplifier(intcode, feed, output, phases[j], signal) {
            Ok(next) => next,
            Err(e) => {
                return Err(e);
            },
        };
        j = j + 1;
    }
    Ok(signal)
}

/// Tries each of `candidates` as the phase settings of a row of amplifiers
/// that run the program in `input`, and gives the strongest signal with the
/// first candidate that reached it.
pub fn strongest_chain(input: &str, candidates: &Vec<Vec<i64>>) -> (r: Result<
    (i64, Vec<i64>),
    Failure,
>)
    ensures
        gives(r, answer(Wiring::Row, input@, views_of(candidates@))),
{
    let mut intcode = match Intcode::new(input) {
        Ok(intcode) => intcode,
        Err(e) => {
            return Err(Failure::Machine(e));
        },
    };
    let ghost image = int_list(input@).unwrap();
    let ghost all = views_of(candidates@);
    let mut feed: Vec<i64> = Vec::new();
    let mut output: Vec<i64> = Vec::new();
    let mut best: (i64, Vec<i64>) = (i64::MIN, Vec::new());
    let mut i: usize = 0;
    assert(all.skip(0) =~= all);
    while i < candidates.len()
        invariant
            i <= candidates.len(),
            all == views_of(candidates@),
            int_list(input@) == Some(image),
            intcode@ == Machine::initial(image),
            feed@.len() == 0,
            output@.len() == 0,
            strongest(Wiring::Row, image, all.skip(i as int), (best.0, best.1@)) == strongest(
                Wiring::Row,
                image,
                all,
                (i64::MIN, Seq::empty()),
            ),
        decreases candidates.len() - i,
    {
        let phases = &candidates[i];
        proof {
            lemma_strongest_step(Wiring::Row, image, all, i as int, (best.0, best.1@));
        }
        let signal = match run_chain(&mut intcode, &mut feed, &mut output, phases) {
            Ok(signal) => signal,
            Err(e) => {
                return Err(e);
            },
        };
        if best.0 < signal {
            best = (signal, phases.clone());
        }
        i = i + 1;
    }
    Ok(best)
}

/// The ring that the amplifiers `cpus` with the inputs `queues` make up.
pub open spec fn ring_of(
    cpus: Seq<Intcode>,
    queues: Seq<VecDeque<i64>>,
    signal: i64,
    running: int,
) -> Ring {
    Ring { amps: Seq::new(cpus.len(), |k: int| (cpus[k]@, queues[k]@)), signal, running }
}

/// Gives one amplifier its turn: puts `signal` in its queue and runs it up
/// to its next output. If it halts instead, takes back what is last in the
/// queue.
fn take_turn(cpu: &mut Intcode, queue: &mut VecDeque<i64>, signal: i64) -> (r: Result<
    Option<i64>,
    Failure,
>)
    ensures
        ({
            let run = output_run(old(cpu)@, old(queue)@.push(signal), STEP_BUDGET as nat);
            match run.outcome {
                Err(fault) => r matches Err(e) && e@ == Cause::Machine(fault),
                Ok(Some(next)) => {
                    &&& r == Ok::<Option<i64>, Failure>(Some(next))
                    &&& final(cpu)@ == run.machine
                    &&& final(queue)@ == run.pending
                },
                Ok(None) => {
                    &&& r == Ok::<Option<i64>, Failure>(None)
                    &&& final(cpu)@ == run.machine
                    &&& final(queue)@ == without_last(run.pending)
                },
            }
        }),
        r is Ok ==> final(cpu)@.mem.image == old(cpu)@.mem.image,
{
    proof {
        lemma_output_run_keeps_image(cpu@, queue@.push(signal), STEP_BUDGET as nat);
    }
    queue.push_back(signal);
    match until_output(cpu, queue) {
        Err(e) => Err(Failure::Machine(e)),
        Ok(Some(next)) => Ok(Some(next)),
        Ok(None) => {
            let _ = queue.pop_back();
            Ok(None)
        },
    }
}

/// Gives each amplifier one turn, in order.
fn run_round(
    cpus: &mut Vec<Intcode>,
    queues: &mut Vec<VecDeque<i64>>,
    signal: i64,
    running: i128,
) -> (r: Result<(i64, i128), Failure>)
    requires
        old(cpus).len() == old(queues).len(),
        running - old(cpus).len() >= i128::MIN,
    ensures
        match round(ring_of(old(cpus)@, old(queues)@, signal, running as int)) {
            Err(cause) => r matches Err(e) && e@ == cause,
            Ok(after) => {
                &&& r == Ok::<(i64, i128), Failure>((after.signal, after.running as i128))
                &&& running - old(cpus).len() <= after.running <= running
                &&& ring_of(final(cpus)@, final(queues)@, after.signal, after.running) == after
                &&& final(cpus).len() == old(cpus).len()
                &&& final(queues).len() == old(queues).len()
                &&& forall|k: int|
                    0 <= k < old(cpus).len() ==> (#[trigger] final(cpus)[k])@.mem.image == old(
                        cpus,
                    )[k]@.mem.image
            },
        },
{
    let n = cpus.len();
    let mut last = signal;
    let mut left = running;
    let mut k: usize = 0;
    while k < n
        invariant
            k <= n == cpus.len() == queues.len(),
            n == old(cpus).len(),
            running - k <= left <= running,
            running - n >= i128::MIN,
            forall|j: int|
                0 <= j < n ==> (#[trigger] cpus[j])@.mem.image == old(cpus)[j]@.mem.image,
            turns(ring_of(cpus@, queues@, last, left as int), k as int, n as int) == turns(
                ring_of(old(cpus)@, old(queues)@, signal, running as int),
                0,
                n as int,
            ),
        decreases n - k,
    {
        let ghost ring = ring_of(cpus@, queues@, last, left as int);
        proof {
            reveal(turn);
        }
        match take_turn(&mut cpus[k], &mut queues[k], last) {
            Err(e) => {
                return Err(e);
            },
            Ok(Some(next)) => {
                last = next;
            },
            Ok(None) => {
                left = left - 1;
            },
        }
        assert(turn(ring, k as int) matches Ok(next) && next.amps =~= ring_of(
            cpus@,
            queues@,
            last,
            left as int,
        ).amps);
        k = k + 1;
    }
    Ok((last, left))
}

/// Whether `cpus` are five machines at the start of the program `image`,
/// each with an empty queue in `queues`.
pub open spec fn at_start(cpus: Seq<Intcode>, queues: Seq<VecDeque<i64>>, image: Seq<i64>) -> bool {
    &&& cpus.len() == 5
    &&& queues.len() == 5
    &&& forall|k: int| 0 <= k < 5 ==> (#[trigger] cpus[k])@ == Machine::initial(image)
    &&& forall|k: int| 0 <= k < 5 ==> (#[trigger] queues[k])@.len() == 0
}

/// The amplifiers of the ring that `cpus` and `queues` make up.
pub open spec fn amps_of(cpus: Seq<Intcode>, queues: Seq<VecDeque<i64>>) -> Seq<
    (Machine, Seq<i64>),
> {
    ring_of(cpus, queues, 0, 0).amps
}

/// Puts each phase setting in the queue of its amplifier.
fn seed(queues: &mut Vec<VecDeque<i64>>, phases: &Vec<i64>)
    requires
        old(queues).len() == 5,
        forall|k: int| 0 <= k < 5 ==> (#[trigger] old(queues)[k])@.len() == 0,
    ensures
        final(queues).len() == 5,
        forall|k: int|
            0 <= k < 5 ==> (#[trigger] final(queues)[k])@ == if k < phases.len() {
                seq![phases@[k]]
            } else {
                Seq::empty()
            },
{
    let mut k: usize = 0;
    while k < 5 && k < phases.len()
        invariant
            k <= 5,
            k <= phases.len(),
            queues.len() == 5,
            forall|j: int| 0 <= j < k ==> (#[trigger] queues[j])@ == seq![phases@[j]],
            forall|j: int| k <= j < 5 ==> (#[trigger] queues[j])@.len() == 0,
        decreases 5 - k,
    {
        queues[k].push_back(phases[k]);
        k = k + 1;
    }
    assert forall|j: int| 0 <= j < 5 implies (#[trigger] queues[j])@ == if j < phases.len() {
        seq![phases@[j]]
    } else {
        Seq::empty()
    } by {
        if j >= k {
            assert(queues[j]@ =~= Seq::<i64>::empty());
        }
    }
}

/// Sees that no amplifier has input left, and puts the machines back to
/// their start.
fn settle(cpus: &mut Vec<Intcode>, queues: &Vec<VecDeque<i64>>, Ghost(image): Ghost<Seq<i64>>) -> (r:
    Result<(), Failure>)
    requires
        old(cpus).len() == 5,
        queues.len() == 5,
        forall|k: int| 0 <= k < 5 ==> (#[trigger] old(cpus)[k])@.mem.image == image,
    ensures
        all_read(amps_of(old(cpus)@, queues@)) ==> r is Ok && at_start(final(cpus)@, queues@, image),
        !all_read(amps_of(old(cpus)@, queues@)) ==> (r matches Err(e) && e@ == Cause::UnreadInput),
{
    let ghost amps = amps_of(cpus@, queues@);
    let mut k: usize = 0;
    while k < 5
        invariant
            k <= 5,
            cpus.len() == 5,
            queues.len() == 5,
            amps.len() == 5,
            amps == amps_of(old(cpus)@, queues@),
            forall|j: int| 0 <= j < 5 ==> (#[trigger] queues[j])@ == amps[j].1,
            forall|j: int| 0 <= j < 5 ==> (#[trigger] cpus[j])@.mem.image == image,
            forall|j: int| 0 <= j < k ==> (#[trigger] cpus[j])@ == Machine::initial(image),
            forall|j: int| 0 <= j < k ==> (#[trigger] amps[j]).1.len() == 0,
        decreases 5 - k,
    {
        if queues[k].len() > 0 {
            return Err(Failure::UnreadInput);
        }
        cpus[k].reset();
        k = k + 1;
    }
    Ok(())
}

/// Runs a ring of five amplifiers with the phase settings `phases` until all
/// have halted, and puts the machines back to their start.
fn run_ring(
    cpus: &mut Vec<Intcode>,
    queues: &mut Vec<VecDeque<i64>>,
    phases: &Vec<i64>,
    Ghost(image): Ghost<Seq<i64>>,
) -> (r: Result<i64, Failure>)
    requires
        at_start(old(cpus)@, old(queues)@, image),
    ensures
        match ring_signal(image, phases@) {
            Err(cause) => r matches Err(e) && e@ == cause,
            Ok(signal) => r == Ok::<i64, Failure>(signal) && at_start(
                final(cpus)@,
                final(queues)@,
                image,
            ),
        },
{
    seed(queues, phases);
    assert(amps_of(cpus@, queues@) =~= seeded(image, phases@));
    let ghost start = Ring { amps: seeded(image, phases@), signal: 0, running: 5 };
    let mut signal: i64 = 0;
    let mut running: i128 = 5;
    let mut fuel: u64 = STEP_BUDGET;
    while fuel > 0
        invariant
            cpus.len() == 5,
            queues.len() == 5,
            running >= 5 - 5 * (STEP_BUDGET - fuel),
            forall|j: int| 0 <= j < 5 ==> (#[trigger] cpus[j])@.mem.image == image,
            start == (Ring { amps: seeded(image, phases@), signal: 0, running: 5 }),
            feedback(ring_of(cpus@, queues@, signal, running as int), fuel as nat) == feedback(
                start,
                STEP_BUDGET as nat,
            ),
        decreases fuel,
    {
        match run_round(cpus, queues, signal, running) {
            Err(e) => {
                return Err(e);
            },
            Ok((last, left)) => {
                signal = last;
                running = left;
            },
        }
        if running == 0 {
            return match settle(cpus, queues, Ghost(image)) {
                Ok(()) => Ok(signal),
                Err(e) => Err(e),
            };
        }
        fuel = fuel - 1;
    }
    Err(Failure::Machine(crate::intcode::Error::StepLimit))
}

/// Tries each of `candidates` as the phase settings of a ring of five
/// amplifiers that run the program in `input`, and gives the strongest
/// signal with the first candidate that reached it.
pub fn strongest_ring(input: &str, candidates: &Vec<Vec<i64>>) -> (r: Result<
    (i64, Vec<i64>),
    Failure,
>)
    ensures
        gives(r, answer(Wiring::Ring, input@, views_of(candidates@))),
{
    let base = match Intcode::new(input) {
        Ok(intcode) => intcode,
        Err(e) => {
            return Err(Failure::Machine(e));
        },
    };
    let ghost image = int_list(input@).unwrap();
    let ghost all = views_of(candidates@);
    let mut cpus: Vec<Intcode> = Vec::new();
    let mut queues: Vec<VecDeque<i64>> = Vec::new();
    let mut k: usize = 0;
    while k < 5
        invariant
            k <= 5,
            cpus.len() == k,
            queues.len() == k,
            base@ == Machine::initial(image),
            forall|j: int| 0 <= j < k ==> (#[trigger] cpus[j])@ == Machine::initial(image),
            forall|j: int| 0 <= j < k ==> (#[trigger] queues[j])@.len() == 0,
        decreases 5 - k,
    {
        cpus.push(base.clone());
        queues.push(VecDeque::new());
        k = k + 1;
    }
    let mut best: (i64, Vec<i64>) = (i64::MIN, Vec::new());
    let mut i: usize = 0;
    assert(all.skip(0) =~= all);
    while i < candidates.len()
        invariant
            i <= candidates.len(),
            all == views_of(candidates@),
            int_list(input@) == Some(image),
            at_start(cpus@, queues@, image),
            strongest(Wiring::Ring, image, all.skip(i as int), (best.0, best.1@)) == strongest(
                Wiring::Ring,
                image,
                all,
                (i64::MIN, Seq::empty()),
            ),
        decreases candidates.len() - i,
    {
        let phases = &candidates[i];
        proof {
            lemma_strongest_step(Wiring::Ring, image, all, i as int, (best.0, best.1@));
        }
        let signal = match run_ring(&mut cpus, &mut queues, phases, Ghost(image)) {
            Ok(signal) => signal,
            Err(e) => {
                return Err(e);
            },
        };
        if best.0 < signal {
            best = (signal, phases.clone());
        }
        i = i + 1;
    }
    Ok(best)
}

/// The strongest signal that five amplifiers in a ring can give for the
/// program in `input`, and the phase settings, an arrangement of 5 to 9,
/// that give it. Takes no argument: any is `Failure::BadArgument`.
pub fn q2(input: String, args: &[String]) -> (r: Result<(i64, Vec<i64>), Failure>)
    ensures
        args@.len() > 0 ==> r matches Err(Failure::BadArgument),
        args@.len() == 0 ==> gives(
            r,
            answer(Wiring::Ring, input@, permutations_in_order(5, 10, 5)),
        ),
{
    if args.len() > 0 {
        return Err(Failure::BadArgument);
    }
    let candidates = permutations(5, 10, 5);
    strongest_ring(input.as_str(), &candidates)
}

/// The strongest signal that five amplifiers in a row can give for the
/// program in `input`, and the phase settings, an arrangement of 0 to 4,
/// that give it.
pub fn q1(input: String, _args: &[String]) -> (r: Result<(i64, Vec<i64>), Failure>)
    ensures
        gives(r, answer(Wiring::Row, input@, permutations_in_order(0, 5, 5))),
{
    let candidates = permutations(0, 5, 5);
    strongest_chain(input.as_str(), &candidates)
}

} // verus!
