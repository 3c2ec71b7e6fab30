//! The tick-driving state machine.
//!
//! The runner decides; the host acts. After every act of the host the runner
//! is stepped once, and its new state says what the host does next.

use crate::data::{lemma_advance_within, FuzzData, LogView};
use crate::fuzz_input::FuzzInput;
use vstd::prelude::*;

verus! {

/// The kinds of event for which a host has a channel each.
#[derive(Debug, Clone, Copy, PartialEq, Eq)]
pub enum EventCategory {
    MouseButton,
    Keyboard,
    MouseWheel,
    MouseMotion,
    CursorMoved,
    WindowResized,
}

/// Which channels a host has.
#[derive(Debug, Clone, Copy, PartialEq, Eq)]
pub struct HostChannels {
    pub mouse_button: bool,
    pub keyboard: bool,
    pub mouse_wheel: bool,
    pub mouse_motion: bool,
    pub cursor_moved: bool,
    pub window_resized: bool,
}

/// The host has no channel for an event that was to be delivered.
#[derive(Debug, Clone, Copy, PartialEq, Eq)]
pub struct MissingCapabilityError {
    pub category: EventCategory,
}

/// The category of an event; the mark that ends a frame has none.
pub open spec fn spec_category(ev: FuzzInput) -> Option<EventCategory> {
    match ev {
        FuzzInput::MouseButton(_) => Some(EventCategory::MouseButton),
        FuzzInput::KeyboardInput(_) => Some(EventCategory::Keyboard),
        FuzzInput::MouseWheel(_) => Some(EventCategory::MouseWheel),
        FuzzInput::MouseMotion(_) => Some(EventCategory::MouseMotion),
        FuzzInput::CursorMoved(_) => Some(EventCategory::CursorMoved),
        FuzzInput::WindowResized(_) => Some(EventCategory::WindowResized),
        FuzzInput::RunFrame => None,
    }
}

impl HostChannels {
    /// A host with every channel.
    pub fn all() -> (r: Self)
        ensures
            forall|c: EventCategory| r.has(c),
    {
        HostChannels {
            mouse_button: true,
            keyboard: true,
            mouse_wheel: true,
            mouse_motion: true,
            cursor_moved: true,
            window_resized: true,
        }
    }

    /// Whether the host has the channel of a category.
    pub open spec fn has(self, c: EventCategory) -> bool {
        match c {
            EventCategory::MouseButton => self.mouse_button,
            EventCategory::Keyboard => self.keyboard,
            EventCategory::MouseWheel => self.mouse_wheel,
            EventCategory::MouseMotion => self.mouse_motion,
            EventCategory::CursorMoved => self.cursor_moved,
            EventCategory::WindowResized => self.window_resized,
        }
    }

    /// Whether the host can take an event.
    pub open spec fn accepts(self, ev: FuzzInput) -> bool {
        match spec_category(ev) {
            Some(c) => self.has(c),
            None => true,
        }
    }

    /// The category of `ev` where the host has no channel for it.
    pub fn refused(&self, ev: &FuzzInput) -> (r: Option<EventCategory>)
        ensures
            r == if self.accepts(*ev) {
                None
            } else {
                spec_category(*ev)
            },
    {
        match ev {
            FuzzInput::MouseButton(_) => if self.mouse_button {
                None
            } else {
                Some(EventCategory::MouseButton)
            },
            FuzzInput::KeyboardInput(_) => if self.keyboard {
                None
            } else {
                Some(EventCategory::Keyboard)
            },
            FuzzInput::MouseWheel(_) => if self.mouse_wheel {
                None
            } else {
                Some(EventCategory::MouseWheel)
            },
            FuzzInput::MouseMotion(_) => if self.mouse_motion {
                None
            } else {
                Some(EventCategory::MouseMotion)
            },
            FuzzInput::CursorMoved(_) => if self.cursor_moved {
                None
            } else {
                Some(EventCategory::CursorMoved)
            },
            FuzzInput::WindowResized(_) => if self.window_resized {
                None
            } else {
                Some(EventCategory::WindowResized)
            },
            FuzzInput::RunFrame => None,
        }
    }
}

/// The number of events before the first mark that ends a frame; all of
/// them, where there is no such mark.
pub open spec fn spec_run_length(events: Seq<FuzzInput>) -> nat
    decreases events.len(),
{
    if events.len() == 0 || events[0] is RunFrame {
        0
    } else {
        1 + spec_run_length(events.skip(1))
    }
}

/// The category of the first event for which the host has no channel.
pub open spec fn spec_first_refused(events: Seq<FuzzInput>, channels: HostChannels) -> Option<
    EventCategory,
>
    decreases events.len(),
{
    if events.len() == 0 {
        None
    } else if !channels.accepts(events[0]) {
        spec_category(events[0])
    } else {
        spec_first_refused(events.skip(1), channels)
    }
}

impl LogView {
    /// The next batch: the pending events before the first mark that ends a
    /// frame.
    pub open spec fn batch(self) -> Seq<FuzzInput> {
        self.pending().take(spec_run_length(self.pending()) as int)
    }

    /// The index, among the pending events, of the mark that ends the next
    /// batch; `None` where the batch runs to the end of the log.
    pub open spec fn boundary(self) -> Option<usize> {
        if spec_run_length(self.pending()) < self.pending().len() {
            Some(spec_run_length(self.pending()) as usize)
        } else {
            None
        }
    }

    /// The log after its next batch was consumed, the mark included.
    pub open spec fn after_batch(self) -> LogView {
        self.advance(self.boundary())
    }
}

/// The run of events before the first mark is no longer than the events, holds no
/// mark, and is followed by a mark unless it is all of them.
pub proof fn lemma_run_length(events: Seq<FuzzInput>)
    ensures
        spec_run_length(events) <= events.len(),
        forall|j: int| 0 <= j < spec_run_length(events) ==> !(#[trigger] events[j] is RunFrame),
        spec_run_length(events) < events.len() ==> events[spec_run_length(events) as int] is RunFrame,
    decreases events.len(),
{
    if events.len() == 0 || events[0] is RunFrame {
    } else {
        let tail = events.skip(1);
        lemma_run_length(tail);
        assert forall|j: int| 0 <= j < spec_run_length(events) implies !(
        #[trigger] events[j] is RunFrame) by {
            if j > 0 {
                assert(events[j] == tail[j - 1]);
            }
        }
        if spec_run_length(events) < events.len() {
            assert(events[spec_run_length(events) as int] == tail[spec_run_length(tail) as int]);
        }
    }
}

/// A run of `n` events without a mark puts off the first mark by `n`.
proof fn lemma_run_length_skip(events: Seq<FuzzInput>, n: nat)
    requires
        n <= events.len(),
        forall|j: int| 0 <= j < n ==> !(#[trigger] events[j] is RunFrame),
    ensures
        spec_run_length(events) == n + spec_run_length(events.skip(n as int)),
    decreases n,
{
    if n == 0 {
        assert(events.skip(0) =~= events);
    } else {
        let tail = events.skip(1);
        assert(!(events[0] is RunFrame));
        assert forall|j: int| 0 <= j < n - 1 implies !(#[trigger] tail[j] is RunFrame) by {
            assert(tail[j] == events[j + 1]);
        }
        lemma_run_length_skip(tail, (n - 1) as nat);
        assert(tail.skip(n - 1) =~= events.skip(n as int));
    }
}

/// Among accepted events, the first refused one is found after them.
proof fn lemma_first_refused_skip(events: Seq<FuzzInput>, channels: HostChannels, n: nat)
    requires
        n <= events.len(),
        forall|j: int| 0 <= j < n ==> channels.accepts(#[trigger] events[j]),
    ensures
        spec_first_refused(events, channels) == spec_first_refused(
            events.skip(n as int),
            channels,
        ),
    decreases n,
{
    if n == 0 {
        assert(events.skip(0) =~= events);
    } else {
        let tail = events.skip(1);
        assert(channels.accepts(events[0]));
        assert forall|j: int| 0 <= j < n - 1 implies channels.accepts(#[trigger] tail[j]) by {
            assert(tail[j] == events[j + 1]);
        }
        lemma_first_refused_skip(tail, channels, (n - 1) as nat);
        assert(tail.skip(n - 1) =~= events.skip(n as int));
    }
}

/// Takes the next batch from the log for delivery to the host: the pending
/// events up to the first mark that ends a frame, which is consumed with
/// them. Where the host has no channel for one of these events, nothing is
/// consumed and the error names the category of the first such event.
pub fn feed_fuzz_events(data: &mut FuzzData, channels: &HostChannels) -> (r: Result<
    Vec<FuzzInput>,
    MissingCapabilityError,
>)
    ensures
        match spec_first_refused(old(data)@.batch(), *channels) {
            Some(category) => r == Err::<Vec<FuzzInput>, MissingCapabilityError>(
                MissingCapabilityError { category },
            ) && final(data)@ == old(data)@,
            None => r is Ok && r->Ok_0@ == old(data)@.batch() && final(data)@ == old(
                data,
            )@.after_batch(),
        },
{
    let pending = data.iter_next();
    let ghost log = data@;
    proof {
        data.lemma_len_fits();
    }
    let mut batch: Vec<FuzzInput> = Vec::new();
    let mut idx: usize = 0;
    while idx < pending.len() && !pending[idx].is_run_frame()
        invariant
            idx <= pending.len(),
            log == old(data)@,
            log.inputs.len() <= usize::MAX,
            pending@ == log.pending(),
            batch@ == pending@.take(idx as int),
            forall|j: int| 0 <= j < idx ==> !(#[trigger] pending@[j] is RunFrame),
            forall|j: int| 0 <= j < idx ==> channels.accepts(#[trigger] pending@[j]),
        decreases pending.len() - idx,
    {
        let event = pending[idx];
        if let Some(category) = channels.refused(&event) {
            proof {
                let rest = pending@.skip(idx as int);
                assert(rest[0] == event);
                assert(spec_run_length(rest) >= 1);
                lemma_run_length_skip(pending@, idx as nat);
                lemma_run_length(pending@);
                assert forall|j: int| 0 <= j < idx implies channels.accepts(
                    #[trigger] log.batch()[j],
                ) by {
                    assert(log.batch()[j] == pending@[j]);
                }
                lemma_first_refused_skip(log.batch(), *channels, idx as nat);
                assert(log.batch().skip(idx as int)[0] == event);
            }
            return Err(MissingCapabilityError { category });
        }
        batch.push(event);
        proof {
            assert(batch@ =~= pending@.take(idx + 1));
        }
        idx += 1;
    }
    let break_at_idx: Option<usize> = if idx < pending.len() {
        Some(idx)
    } else {
        None
    };
    proof {
        lemma_run_length_skip(pending@, idx as nat);
        let rest = pending@.skip(idx as int);
        if idx < pending.len() {
            assert(rest[0] == pending@[idx as int]);
            lemma_advance_within(log, idx);
        } else {
            assert(rest.len() == 0);
        }
        assert(spec_run_length(pending@) == idx);
        assert(log.batch() =~= batch@);
        assert forall|j: int| 0 <= j < idx implies channels.accepts(#[trigger] log.batch()[j]) by {
            assert(log.batch()[j] == pending@[j]);
        }
        lemma_first_refused_skip(log.batch(), *channels, idx as nat);
        assert(log.batch().skip(idx as int).len() == 0);
    }
    data.set_last_idx(break_at_idx);
    Ok(batch)
}

/// The stages of one tick of the host.
#[derive(Debug, Clone, Copy, PartialEq, Eq)]
pub enum HostStage {
    First,
    PreUpdate,
    Update,
    PostUpdate,
    Last,
}

/// One thing that the host does while it is reset.
#[derive(Debug, Clone, Copy, PartialEq, Eq)]
pub enum ResetStep {
    /// Clear the dynamic state.
    ClearEntities,
    /// Run one stage once.
    RunStage(HostStage),
    /// Run the startup pipeline, which runs this one time only.
    RunStartup,
    /// Run one tick, stage by stage.
    RunTick,
}

/// The stages of one tick, in the order in which they run. The startup
/// pipeline is not among them.
pub fn tick_stages() -> (r: [HostStage; 5])
    ensures
        r@ == seq![
            HostStage::First,
            HostStage::PreUpdate,
            HostStage::Update,
            HostStage::PostUpdate,
            HostStage::Last,
        ],
{
    let r = [
        HostStage::First,
        HostStage::PreUpdate,
        HostStage::Update,
        HostStage::PostUpdate,
        HostStage::Last,
    ];
    assert(r@ =~= seq![
        HostStage::First,
        HostStage::PreUpdate,
        HostStage::Update,
        HostStage::PostUpdate,
        HostStage::Last,
    ]);
    r
}

/// What the host does in `Resetting`, in order: clear its dynamic state, run
/// the first stage of a tick once, run the startup pipeline, run one full
/// tick. After that, what a tick does depends on the delivered events alone.
pub fn reset_steps() -> (r: [ResetStep; 4])
    ensures
        r@ == seq![
            ResetStep::ClearEntities,
            ResetStep::RunStage(HostStage::First),
            ResetStep::RunStartup,
            ResetStep::RunTick,
        ],
{
    let r = [
        ResetStep::ClearEntities,
        ResetStep::RunStage(HostStage::First),
        ResetStep::RunStartup,
        ResetStep::RunTick,
    ];
    assert(r@ =~= seq![
        ResetStep::ClearEntities,
        ResetStep::RunStage(HostStage::First),
        ResetStep::RunStartup,
        ResetStep::RunTick,
    ]);
    r
}

/// What the host is doing, or has been told to do.
#[derive(Debug, Clone, Copy, PartialEq, Eq)]
pub enum RunnerState {
    /// The host is being brought to its baseline: dynamic state cleared, one
    /// pass of the pre-tick pipeline, the startup pipeline, one full tick.
    Resetting,
    /// The host takes the events of the current batch into its channels.
    AwaitingEvents,
    /// The host runs one tick of its update pipeline.
    SteppingHost,
    /// The host reads whether an exit was signalled since the last check.
    CheckingExit,
    /// The run is over.
    Finished,
}

/// What a runner is: its state, its log, the channels of its host, the batch
/// it handed out last, and the number of ticks it has asked for.
pub struct RunnerView {
    pub state: RunnerState,
    pub log: LogView,
    pub channels: HostChannels,
    pub batch: Seq<FuzzInput>,
    pub ticks: nat,
}

/// The larger of one and `n`.
pub open spec fn spec_at_least_one(n: nat) -> nat {
    if n < 1 {
        1
    } else {
        n
    }
}

impl RunnerView {
    /// A runner that has yet to start, over a log and the channels of a host.
    pub open spec fn fresh(log: LogView, channels: HostChannels) -> RunnerView {
        RunnerView { state: RunnerState::Resetting, log, channels, batch: Seq::empty(), ticks: 0 }
    }

    /// The number of batches handed out: a tick is asked for after each.
    pub open spec fn deliveries(self) -> nat {
        if self.state is AwaitingEvents {
            self.ticks + 1
        } else {
            self.ticks
        }
    }

    /// What holds of a runner at every step: it has asked for no more ticks
    /// than the log has events (one tick at the least), and while events are
    /// pending, for no more than it has consumed.
    pub open spec fn wf(self) -> bool {
        &&& self.log.inputs.len() <= usize::MAX
        &&& self.deliveries() <= spec_at_least_one(self.log.inputs.len())
        &&& match self.state {
            RunnerState::Resetting => self.ticks == 0,
            RunnerState::Finished => true,
            _ => {
                &&& self.log.cursor is Some
                &&& self.log.consumed() <= self.log.inputs.len()
                &&& self.log.consumed() < self.log.inputs.len() ==> self.deliveries()
                    <= self.log.consumed()
            },
        }
    }

    /// The category for which the next batch cannot be delivered, if any.
    pub open spec fn refusal(self) -> Option<EventCategory> {
        spec_first_refused(self.log.batch(), self.channels)
    }

    /// Hands out the next batch, or ends the run where the host cannot take
    /// it.
    pub open spec fn deliver(self) -> RunnerView {
        if self.refusal() is Some {
            RunnerView { state: RunnerState::Finished, ..self }
        } else {
            RunnerView {
                state: RunnerState::AwaitingEvents,
                log: self.log.after_batch(),
                batch: self.log.batch(),
                ..self
            }
        }
    }

    /// Whether the run ends at the exit check: the log is finished, or the
    /// cursor has reached the number of events, or the host signalled an
    /// exit.
    pub open spec fn ends(self, exit_signalled: bool) -> bool {
        self.log.finished() || self.log.consumed() >= self.log.inputs.len() || exit_signalled
    }

    /// The runner after the host has done what the state asked of it.
    /// `exit_signalled` is what the host read in the exit check, and counts
    /// in that state only.
    pub open spec fn step(self, exit_signalled: bool) -> RunnerView {
        match self.state {
            RunnerState::Resetting => self.deliver(),
            RunnerState::AwaitingEvents => RunnerView {
                state: RunnerState::SteppingHost,
                ticks: self.ticks + 1,
                ..self
            },
            RunnerState::SteppingHost => RunnerView { state: RunnerState::CheckingExit, ..self },
            RunnerState::CheckingExit => if self.ends(exit_signalled) {
                RunnerView { state: RunnerState::Finished, ..self }
            } else {
                self.deliver()
            },
            RunnerState::Finished => self,
        }
    }

    /// The error that a step raises: a batch was due and the host cannot take
    /// it.
    pub open spec fn step_error(self, exit_signalled: bool) -> Option<MissingCapabilityError> {
        let due = self.state is Resetting || (self.state is CheckingExit && !self.ends(
            exit_signalled,
        ));
        match self.refusal() {
            Some(category) if due => Some(MissingCapabilityError { category }),
            _ => None,
        }
    }
}

/// Drives a host through a log, tick by tick.
pub struct FuzzRunner {
    state: RunnerState,
    data: FuzzData,
    channels: HostChannels,
    batch: Vec<FuzzInput>,
    ticks: usize,
}

impl View for FuzzRunner {
    type V = RunnerView;

    closed spec fn view(&self) -> RunnerView {
        RunnerView {
            state: self.state,
            log: self.data@,
            channels: self.channels,
            batch: self.batch@,
            ticks: self.ticks as nat,
        }
    }
}

impl FuzzRunner {
    /// A runner over `data` for a host with `channels`. It starts in
    /// `Resetting`: the host is to be reset before the first step.
    pub fn new(data: FuzzData, channels: HostChannels) -> (r: Self)
        ensures
            r@ == RunnerView::fresh(data@, channels),
            r@.wf(),
    {
        proof {
            data.lemma_len_fits();
        }
        FuzzRunner { state: RunnerState::Resetting, data, channels, batch: Vec::new(), ticks: 0 }
    }

    /// The state the runner is in.
    pub fn state(&self) -> (r: RunnerState)
        ensures
            r == self@.state,
    {
        self.state
    }

    /// The batch handed out last: in `AwaitingEvents`, the events that the
    /// host is to take, in this order.
    pub fn batch(&self) -> (r: &[FuzzInput])
        ensures
            r@ == self@.batch,
    {
        self.batch.as_slice()
    }

    /// The number of ticks that the host was asked to run.
    pub fn ticks(&self) -> (r: usize)
        ensures
            r == self@.ticks,
    {
        self.ticks
    }

    /// Whether the runner is well formed. It is when `new` has made it, and
    /// stays so under `step`.
    pub fn is_well_formed(&self) -> (r: bool)
        ensures
            r == self@.wf(),
    {
        proof {
            self.data.lemma_len_fits();
        }
        let len: usize = self.data.len();
        let most: usize = if len < 1 {
            1
        } else {
            len
        };
        let consumed: usize = match self.data.last_index_id() {
            Some(c) => c,
            None => 0,
        };
        let awaiting = match self.state {
            RunnerState::AwaitingEvents => true,
            _ => false,
        };
        // The batches handed out are the ticks, and one more while a batch
        // is under way.
        let counted = if awaiting {
            self.ticks < most
        } else {
            self.ticks <= most
        };
        let behind = if awaiting {
            self.ticks < consumed
        } else {
            self.ticks <= consumed
        };
        match self.state {
            RunnerState::Resetting => counted && self.ticks == 0,
            RunnerState::Finished => counted,
            _ => counted && self.data.last_index_id().is_some() && consumed <= len && (consumed
                >= len || behind),
        }
    }

    /// The log that the runner reads.
    pub fn data(&self) -> (r: &FuzzData)
        ensures
            r@ == self@.log,
    {
        &self.data
    }

    fn deliver(&mut self) -> (r: Result<RunnerState, MissingCapabilityError>)
        requires
            old(self)@.wf(),
            old(self)@.state is Resetting || (old(self)@.state is CheckingExit && !old(
                self,
            )@.ends(false)),
        ensures
            final(self)@ == old(self)@.deliver(),
            final(self)@.wf(),
            match old(self)@.refusal() {
                Some(category) => r == Err::<RunnerState, MissingCapabilityError>(
                    MissingCapabilityError { category },
                ),
                None => r == Ok::<RunnerState, MissingCapabilityError>(RunnerState::AwaitingEvents),
            },
    {
        proof {
            let log = self.data@;
            lemma_run_length(log.pending());
            if let Some(i) = log.boundary() {
                lemma_advance_within(log, i);
            }
        }
        match feed_fuzz_events(&mut self.data, &self.channels) {
            Ok(batch) => {
                self.batch = batch;
                self.state = RunnerState::AwaitingEvents;
                Ok(RunnerState::AwaitingEvents)
            },
            Err(e) => {
                self.state = RunnerState::Finished;
                Err(e)
            },
        }
    }

    /// Tells the runner that the host has done what the state asked of it,
    /// and gives the state that says what the host does next.
    /// `exit_signalled` is what the host read in the exit check; in any other
    /// state it is not looked at. Where a batch is due and the host has no
    /// channel for one of its events, the run ends with that error.
    ///
    /// A runner is well formed when `new` has made it, and stays so under
    /// `step`.
    pub fn step(&mut self, exit_signalled: bool) -> (r: Result<
        RunnerState,
        MissingCapabilityError,
    >)
        requires
            old(self)@.wf(),
        ensures
            final(self)@ == old(self)@.step(exit_signalled),
            final(self)@.wf(),
            match old(self)@.step_error(exit_signalled) {
                Some(e) => r == Err::<RunnerState, MissingCapabilityError>(e),
                None => r == Ok::<RunnerState, MissingCapabilityError>(final(self)@.state),
            },
    {
        match self.state {
            RunnerState::Resetting => self.deliver(),
            RunnerState::AwaitingEvents => {
                self.state = RunnerState::SteppingHost;
                self.ticks = self.ticks + 1;
                Ok(RunnerState::SteppingHost)
            },
            RunnerState::SteppingHost => {
                self.state = RunnerState::CheckingExit;
                Ok(RunnerState::CheckingExit)
            },
            RunnerState::CheckingExit => {
                let position: usize = match self.data.last_index_id() {
                    Some(c) => c,
                    None => 0,
                };
                if self.data.is_finished() || position >= self.data.len() || exit_signalled {
                    self.state = RunnerState::Finished;
                    Ok(RunnerState::Finished)
                } else {
                    self.deliver()
                }
            },
            RunnerState::Finished => Ok(RunnerState::Finished),
        }
    }
}

} // verus!
