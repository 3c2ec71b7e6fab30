//! Whole runs of the runner, and what holds of them.

use crate::data::{lemma_advance_within, LogView};
use crate::fuzz_input::FuzzInput;
use crate::runner::{
    lemma_run_length, spec_at_least_one, spec_first_refused, spec_run_length, FuzzRunner,
    HostChannels, RunnerState, RunnerView,
};
use vstd::prelude::*;

verus! {

impl RunnerView {
    /// The number of events that are still to be consumed.
    pub open spec fn remaining(self) -> nat {
        if self.log.consumed() < self.log.inputs.len() {
            (self.log.inputs.len() - self.log.consumed()) as nat
        } else {
            0
        }
    }

    /// A bound on the number of steps that a runner can still take before it
    /// is finished: three for every event that is still to be consumed, and
    /// what is left of the round under way.
    pub open spec fn budget(self) -> nat {
        match self.state {
            RunnerState::Resetting => 3 * self.log.inputs.len() + 4,
            RunnerState::AwaitingEvents => 3 * self.remaining() + 3,
            RunnerState::SteppingHost => 3 * self.remaining() + 2,
            RunnerState::CheckingExit => 3 * self.remaining() + 1,
            RunnerState::Finished => 0,
        }
    }
}

/// The runner after one step for each of `exits`, each step given the exit
/// signal of that turn.
pub open spec fn spec_run(v: RunnerView, exits: Seq<bool>) -> RunnerView
    decreases exits.len(),
{
    if exits.len() == 0 {
        v
    } else {
        spec_run(v.step(exits[0]), exits.skip(1))
    }
}

/// The batches handed out in the course of those steps, in order.
pub open spec fn spec_delivered(v: RunnerView, exits: Seq<bool>) -> Seq<Seq<FuzzInput>>
    decreases exits.len(),
{
    if exits.len() == 0 {
        Seq::empty()
    } else {
        let next = v.step(exits[0]);
        let here = if next.state is AwaitingEvents {
            seq![next.batch]
        } else {
            Seq::empty()
        };
        here + spec_delivered(next, exits.skip(1))
    }
}

/// A step keeps a runner well formed.
pub proof fn lemma_step_keeps_wf(v: RunnerView, exit_signalled: bool)
    requires
        v.wf(),
    ensures
        v.step(exit_signalled).wf(),
{
    lemma_run_length(v.log.pending());
    if let Some(i) = v.log.boundary() {
        lemma_advance_within(v.log, i);
    }
}

/// Every step of a runner that is not finished brings it nearer to the end:
/// the bound on the steps left goes down, and it starts at no more than
/// three steps for each event, and four.
pub proof fn lemma_step_uses_budget(v: RunnerView, exit_signalled: bool)
    requires
        v.wf(),
        !(v.state is Finished),
    ensures
        v.step(exit_signalled).budget() < v.budget(),
        v.budget() <= 3 * v.log.inputs.len() + 4,
{
    lemma_run_length(v.log.pending());
    if let Some(i) = v.log.boundary() {
        lemma_advance_within(v.log, i);
    }
}

/// A runner asks for no more ticks than its log has events, and for one tick
/// where the log has none.
pub proof fn lemma_ticks_bounded(v: RunnerView, exits: Seq<bool>)
    requires
        v.wf(),
    ensures
        spec_run(v, exits).wf(),
        spec_run(v, exits).ticks <= spec_at_least_one(v.log.inputs.len()),
        spec_run(v, exits).log.inputs == v.log.inputs,
    decreases exits.len(),
{
    if exits.len() > 0 {
        lemma_step_keeps_wf(v, exits[0]);
        lemma_ticks_bounded(v.step(exits[0]), exits.skip(1));
    }
}

/// Two runners over the same events, for hosts with the same channels, that
/// are given the same exit signals hand out the same batches and ask for the
/// same number of ticks.
pub proof fn lemma_replay_deterministic(a: FuzzRunner, b: FuzzRunner, exits: Seq<bool>)
    requires
        a@.state is Resetting,
        b@.state is Resetting,
        a@.log == b@.log,
        a@.channels == b@.channels,
        a@.wf(),
        b@.wf(),
    ensures
        spec_delivered(a@, exits) == spec_delivered(b@, exits),
        spec_run(a@, exits).ticks == spec_run(b@, exits).ticks,
        spec_run(a@, exits).state == spec_run(b@, exits).state,
{
    lemma_runs_agree(a@, b@, exits);
}

/// Runners that differ only in the batch they handed out last behave alike
/// from a state in which a batch is due or the run is over.
proof fn lemma_runs_agree(a: RunnerView, b: RunnerView, exits: Seq<bool>)
    requires
        a.state == b.state,
        a.log == b.log,
        a.channels == b.channels,
        a.ticks == b.ticks,
        a.state is AwaitingEvents ==> a.batch == b.batch,
    ensures
        spec_delivered(a, exits) == spec_delivered(b, exits),
        spec_run(a, exits).ticks == spec_run(b, exits).ticks,
        spec_run(a, exits).state == spec_run(b, exits).state,
    decreases exits.len(),
{
    if exits.len() > 0 {
        lemma_runs_agree(a.step(exits[0]), b.step(exits[0]), exits.skip(1));
    }
}

/// The frames of a run of events: the events between one mark that ends a
/// frame and the next, marks left out. Events after the last mark make a
/// frame of their own.
pub open spec fn spec_frames_of(events: Seq<FuzzInput>) -> Seq<Seq<FuzzInput>>
    decreases events.len(),
{
    if events.len() == 0 {
        Seq::empty()
    } else {
        let n = spec_run_length(events);
        if n < events.len() {
            seq![events.take(n as int)] + spec_frames_of(events.skip(n as int + 1))
        } else {
            seq![events]
        }
    }
}

/// The batches that a run over `inputs` hands out when nothing cuts it
/// short: the frames of the events, and one empty batch where there are no
/// events.
pub open spec fn spec_expected_batches(inputs: Seq<FuzzInput>) -> Seq<Seq<FuzzInput>> {
    if inputs.len() == 0 {
        seq![Seq::empty()]
    } else {
        spec_frames_of(inputs)
    }
}

/// `n` turns without an exit signal.
pub open spec fn spec_quiet(n: nat) -> Seq<bool> {
    Seq::new(n, |i: int| false)
}

/// Steps taken one run after another are the steps of one run.
pub proof fn lemma_run_split(v: RunnerView, first: Seq<bool>, then: Seq<bool>)
    ensures
        spec_run(v, first + then) == spec_run(spec_run(v, first), then),
        spec_delivered(v, first + then) == spec_delivered(v, first) + spec_delivered(
            spec_run(v, first),
            then,
        ),
    decreases first.len(),
{
    if first.len() == 0 {
        assert(first + then =~= then);
        assert(Seq::<Seq<FuzzInput>>::empty() + spec_delivered(v, then) =~= spec_delivered(
            v,
            then,
        ));
    } else {
        let all = first + then;
        assert(all[0] == first[0]);
        assert(all.skip(1) =~= first.skip(1) + then);
        let next = v.step(first[0]);
        lemma_run_split(next, first.skip(1), then);
        let here = if next.state is AwaitingEvents {
            seq![next.batch]
        } else {
            Seq::empty()
        };
        assert(here + (spec_delivered(next, first.skip(1)) + spec_delivered(
            spec_run(next, first.skip(1)),
            then,
        )) =~= (here + spec_delivered(next, first.skip(1))) + spec_delivered(
            spec_run(next, first.skip(1)),
            then,
        ));
    }
}

/// Where the host takes every event, no batch is refused.
proof fn lemma_no_refusal(events: Seq<FuzzInput>, channels: HostChannels)
    requires
        forall|i: int| 0 <= i < events.len() ==> channels.accepts(#[trigger] events[i]),
    ensures
        spec_first_refused(events, channels) is None,
    decreases events.len(),
{
    if events.len() > 0 {
        let tail = events.skip(1);
        assert(channels.accepts(events[0]));
        assert forall|i: int| 0 <= i < tail.len() implies channels.accepts(#[trigger] tail[i]) by {
            assert(tail[i] == events[i + 1]);
        }
        lemma_no_refusal(tail, channels);
    }
}

/// Where the host takes every event of the log, it takes the next batch.
proof fn lemma_batch_accepted(v: RunnerView)
    requires
        forall|i: int| 0 <= i < v.log.inputs.len() ==> v.channels.accepts(#[trigger] v.log.inputs[i]),
    ensures
        v.refusal() is None,
{
    let pending = v.log.pending();
    let batch = v.log.batch();
    lemma_run_length(pending);
    assert forall|i: int| 0 <= i < batch.len() implies v.channels.accepts(#[trigger] batch[i]) by {
        assert(batch[i] == pending[i]);
        assert(pending[i] == v.log.inputs[v.log.consumed() + i]);
    }
    lemma_no_refusal(batch, v.channels);
}

/// One round without an exit signal, from the delivery of a batch: a tick, an
/// exit check, and then either the end or the next batch.
proof fn lemma_quiet_round(v: RunnerView)
    requires
        v.state is AwaitingEvents,
    ensures
        spec_run(v, spec_quiet(3)) == v.step(false).step(false).step(false),
        spec_delivered(v, spec_quiet(3)) == if v.step(false).step(false).step(
            false,
        ).state is AwaitingEvents {
            seq![v.step(false).step(false).step(false).batch]
        } else {
            Seq::<Seq<FuzzInput>>::empty()
        },
{
    let q3 = spec_quiet(3);
    let q2 = spec_quiet(2);
    let q1 = spec_quiet(1);
    let q0 = spec_quiet(0);
    assert(q3.skip(1) =~= q2);
    assert(q2.skip(1) =~= q1);
    assert(q1.skip(1) =~= q0);
    let v1 = v.step(false);
    let v2 = v1.step(false);
    let v3 = v2.step(false);
    assert(spec_run(v3, q0) == v3);
    assert(spec_run(v2, q1) == v3);
    assert(spec_run(v1, q2) == v3);
    assert(spec_delivered(v3, q0) =~= Seq::empty());
    assert(spec_delivered(v2, q1) =~= if v3.state is AwaitingEvents {
        seq![v3.batch]
    } else {
        Seq::<Seq<FuzzInput>>::empty()
    });
    assert(spec_delivered(v1, q2) =~= spec_delivered(v2, q1));
    assert(spec_delivered(v, q3) =~= spec_delivered(v1, q2));
}

/// From the delivery of a batch, a run that nothing cuts short hands out the
/// frames of the pending events, asks for one tick for the batch under way
/// and one for each of those frames, and is then finished.
proof fn lemma_quiet_from_awaiting(v: RunnerView)
    requires
        v.wf(),
        v.state is AwaitingEvents,
        forall|i: int| 0 <= i < v.log.inputs.len() ==> v.channels.accepts(#[trigger] v.log.inputs[i]),
    ensures
        ({
            let rest = spec_frames_of(v.log.pending());
            let exits = spec_quiet(3 * (rest.len() + 1));
            &&& spec_run(v, exits).state is Finished
            &&& spec_run(v, exits).ticks == v.ticks + 1 + rest.len()
            &&& spec_delivered(v, exits) == rest
        }),
    decreases v.remaining(),
{
    let pending = v.log.pending();
    let rest = spec_frames_of(pending);
    let exits = spec_quiet(3 * (rest.len() + 1));
    let v1 = v.step(false);
    let v2 = v1.step(false);
    let v3 = v2.step(false);
    lemma_quiet_round(v);
    lemma_step_keeps_wf(v, false);
    lemma_step_keeps_wf(v1, false);
    lemma_step_keeps_wf(v2, false);
    if v.log.consumed() >= v.log.inputs.len() {
        assert(pending.len() == 0);
        assert(exits =~= spec_quiet(3));
    } else {
        lemma_batch_accepted(v2);
        lemma_run_length(pending);
        let n = spec_run_length(pending);
        if let Some(i) = v.log.boundary() {
            lemma_advance_within(v.log, i);
            assert(v3.log.pending() == pending.skip(n as int + 1));
        } else {
            assert(v3.log.pending().len() == 0);
            assert(pending.take(n as int) =~= pending);
        }
        let later = spec_frames_of(v3.log.pending());
        assert(rest =~= seq![v3.batch] + later);
        lemma_quiet_from_awaiting(v3);
        let more = spec_quiet(3 * (later.len() + 1));
        assert(exits =~= spec_quiet(3) + more);
        lemma_run_split(v, spec_quiet(3), more);
    }
}

/// A run that nothing cuts short, over events that the host can all take:
/// it hands out the frames of the events one by one in order, asks for one
/// tick after each, and is finished after the last.
pub proof fn lemma_quiet_run(inputs: Seq<FuzzInput>, channels: HostChannels)
    requires
        inputs.len() <= usize::MAX,
        forall|i: int| 0 <= i < inputs.len() ==> channels.accepts(#[trigger] inputs[i]),
    ensures
        ({
            let v = RunnerView::fresh(LogView { inputs, cursor: None }, channels);
            let expected = spec_expected_batches(inputs);
            let exits = spec_quiet(3 * expected.len() + 1);
            &&& spec_run(v, exits).state is Finished
            &&& spec_run(v, exits).ticks == expected.len()
            &&& spec_delivered(v, exits) == expected
        }),
{
    let log = LogView { inputs, cursor: None };
    let v = RunnerView::fresh(log, channels);
    let expected = spec_expected_batches(inputs);
    let exits = spec_quiet(3 * expected.len() + 1);
    let v1 = v.step(false);
    lemma_batch_accepted(v);
    lemma_step_keeps_wf(v, false);
    assert(log.pending() =~= inputs);
    lemma_run_length(inputs);
    let n = spec_run_length(inputs);
    if let Some(i) = log.boundary() {
        lemma_advance_within(log, i);
        assert(v1.log.pending() == inputs.skip(n as int + 1));
    } else {
        assert(v1.log.pending().len() == 0);
        assert(inputs.take(n as int) =~= inputs);
    }
    let later = spec_frames_of(v1.log.pending());
    assert(v1.batch == inputs.take(n as int));
    if inputs.len() == 0 {
        assert(v1.batch =~= Seq::<FuzzInput>::empty());
    }
    if n >= inputs.len() {
        assert(later =~= Seq::<Seq<FuzzInput>>::empty());
    }
    assert(expected =~= seq![v1.batch] + later);
    lemma_quiet_from_awaiting(v1);
    let more = spec_quiet(3 * (later.len() + 1));
    assert(exits =~= spec_quiet(1) + more);
    lemma_run_split(v, spec_quiet(1), more);
    assert(spec_quiet(1).skip(1) =~= spec_quiet(0));
    assert(spec_run(v1, spec_quiet(0)) == v1);
    assert(spec_run(v, spec_quiet(1)) == v1);
    assert(spec_delivered(v1, spec_quiet(0)) =~= Seq::empty());
    assert(spec_delivered(v, spec_quiet(1)) =~= seq![v1.batch]);
}

} // verus!
