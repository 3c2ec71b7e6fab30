use bevy_fuzz::data::FuzzData;
use bevy_fuzz::fuzz_input::FuzzInput;
use bevy_fuzz::input::keyboard::WrapKeyboardInput;
use bevy_fuzz::input::WrapElementState;
use bevy_fuzz::math::WrapVec2;
use bevy_fuzz::runner::{
    feed_fuzz_events, reset_steps, tick_stages, EventCategory, FuzzRunner,
    HostChannels, HostStage, MissingCapabilityError, ResetStep, RunnerState,
};

const A: FuzzInput = FuzzInput::MouseMotion(WrapVec2 { x: 1, y: 1 });
const B: FuzzInput = FuzzInput::MouseMotion(WrapVec2 { x: 2, y: 2 });
const F: FuzzInput = FuzzInput::RunFrame;

fn key() -> FuzzInput {
    FuzzInput::KeyboardInput(WrapKeyboardInput {
        scan_code: 0,
        key_code: None,
        state: WrapElementState::Pressed,
    })
}

/// Steps a runner to the end as a host would, with an exit signal at the
/// exit check of the given tick, if any. Gives the batches and the states.
fn run(
    events: Vec<FuzzInput>,
    channels: HostChannels,
    exit_at_tick: Option<usize>,
) -> (Vec<Vec<FuzzInput>>, Vec<RunnerState>, usize, Option<MissingCapabilityError>) {
    let mut runner = FuzzRunner::new(FuzzData::new(events), channels);
    assert_eq!(runner.state(), RunnerState::Resetting);
    let mut batches = Vec::new();
    let mut states = Vec::new();
    let mut signal = false;
    loop {
        assert!(runner.is_well_formed());
        match runner.step(signal) {
            Err(e) => {
                assert_eq!(runner.state(), RunnerState::Finished);
                return (batches, states, runner.ticks(), Some(e));
            }
            Ok(state) => {
                assert_eq!(state, runner.state());
                states.push(state);
                signal = false;
                match state {
                    RunnerState::AwaitingEvents => batches.push(runner.batch().to_vec()),
                    RunnerState::CheckingExit => signal = exit_at_tick == Some(runner.ticks()),
                    RunnerState::Finished => return (batches, states, runner.ticks(), None),
                    RunnerState::SteppingHost | RunnerState::Resetting => {}
                }
            }
        }
        assert!(states.len() < 1000);
    }
}

#[test]
fn three_frames_take_three_ticks() {
    let (batches, states, ticks, error) = run(vec![A, F, B, F, F], HostChannels::all(), None);
    assert_eq!(error, None);
    assert_eq!(ticks, 3);
    assert_eq!(batches, vec![vec![A], vec![B], vec![]]);
    assert_eq!(states.iter().filter(|s| **s == RunnerState::SteppingHost).count(), 3);
    assert_eq!(
        states,
        vec![
            RunnerState::AwaitingEvents,
            RunnerState::SteppingHost,
            RunnerState::CheckingExit,
            RunnerState::AwaitingEvents,
            RunnerState::SteppingHost,
            RunnerState::CheckingExit,
            RunnerState::AwaitingEvents,
            RunnerState::SteppingHost,
            RunnerState::CheckingExit,
            RunnerState::Finished,
        ]
    );
}

#[test]
fn events_after_the_last_mark_make_a_tick_of_their_own() {
    let (batches, _, ticks, _) = run(vec![A, F, B], HostChannels::all(), None);
    assert_eq!(ticks, 2);
    assert_eq!(batches, vec![vec![A], vec![B]]);
    let (batches, _, ticks, _) = run(vec![A, B], HostChannels::all(), None);
    assert_eq!(ticks, 1);
    assert_eq!(batches, vec![vec![A, B]]);
}

#[test]
fn an_empty_log_takes_one_tick() {
    let (batches, states, ticks, error) = run(Vec::new(), HostChannels::all(), None);
    assert_eq!(error, None);
    assert_eq!(ticks, 1);
    assert_eq!(batches, vec![Vec::<FuzzInput>::new()]);
    assert_eq!(states.last(), Some(&RunnerState::Finished));
}

#[test]
fn two_runs_over_the_same_events_agree() {
    let events = vec![A, B, F, F, key(), A, F, B];
    let first = run(events.clone(), HostChannels::all(), None);
    let second = run(events.clone(), HostChannels::all(), None);
    assert_eq!(first, second);
    assert_eq!(first.2, 4);
    assert_eq!(first.0, vec![vec![A, B], vec![], vec![key(), A], vec![B]]);
    let first = run(events.clone(), HostChannels::all(), Some(2));
    let second = run(events, HostChannels::all(), Some(2));
    assert_eq!(first, second);
}

#[test]
fn an_exit_signal_ends_the_run_at_the_check() {
    let (batches, states, ticks, error) = run(vec![A, F, B, F, F], HostChannels::all(), Some(1));
    assert_eq!(error, None);
    assert_eq!(ticks, 1);
    assert_eq!(batches, vec![vec![A]]);
    assert_eq!(
        states,
        vec![
            RunnerState::AwaitingEvents,
            RunnerState::SteppingHost,
            RunnerState::CheckingExit,
            RunnerState::Finished,
        ]
    );
}

#[test]
fn an_exit_signal_counts_at_the_check_only() {
    let mut runner = FuzzRunner::new(FuzzData::new(vec![A, F, B, F]), HostChannels::all());
    assert_eq!(runner.step(true), Ok(RunnerState::AwaitingEvents));
    assert_eq!(runner.step(true), Ok(RunnerState::SteppingHost));
    assert_eq!(runner.step(true), Ok(RunnerState::CheckingExit));
    assert_eq!(runner.step(false), Ok(RunnerState::AwaitingEvents));
    assert_eq!(runner.batch(), &[B]);
    assert_eq!(runner.step(false), Ok(RunnerState::SteppingHost));
    assert_eq!(runner.step(false), Ok(RunnerState::CheckingExit));
    assert_eq!(runner.step(false), Ok(RunnerState::Finished));
    assert_eq!(runner.step(false), Ok(RunnerState::Finished));
    assert_eq!(runner.ticks(), 2);
    assert!(runner.data().is_finished());
}

#[test]
fn ticks_are_no_more_than_events() {
    for events in [vec![F; 7], vec![A; 7], vec![A, F, A, F, A, F, A], vec![F, A, A, A, A, A, F]] {
        let len = events.len();
        let (_, states, ticks, _) = run(events, HostChannels::all(), None);
        assert!(ticks <= len);
        assert!(states.len() <= 3 * len + 4);
    }
}

#[test]
fn a_missing_channel_ends_the_run_with_an_error() {
    let mut channels = HostChannels::all();
    channels.keyboard = false;
    let (batches, states, ticks, error) = run(vec![A, F, B, key(), F, A], channels, None);
    assert_eq!(error, Some(MissingCapabilityError { category: EventCategory::Keyboard }));
    assert_eq!(batches, vec![vec![A]]);
    assert_eq!(ticks, 1);
    assert_eq!(states.last(), Some(&RunnerState::CheckingExit));

    let (batches, _, ticks, error) = run(vec![key()], channels, None);
    assert_eq!(error, Some(MissingCapabilityError { category: EventCategory::Keyboard }));
    assert!(batches.is_empty());
    assert_eq!(ticks, 0);

    let (_, _, ticks, error) = run(vec![A, F, B, F], channels, None);
    assert_eq!(error, None);
    assert_eq!(ticks, 2);
}

#[test]
fn the_first_missing_channel_is_named() {
    let none = HostChannels {
        mouse_button: false,
        keyboard: false,
        mouse_wheel: false,
        mouse_motion: false,
        cursor_moved: false,
        window_resized: false,
    };
    let mut data = FuzzData::new(vec![key(), A, F]);
    assert_eq!(
        feed_fuzz_events(&mut data, &none),
        Err(MissingCapabilityError { category: EventCategory::Keyboard })
    );
    assert_eq!(data.last_index_id(), None);
    let mut data = FuzzData::new(vec![A, key(), F]);
    assert_eq!(
        feed_fuzz_events(&mut data, &none),
        Err(MissingCapabilityError { category: EventCategory::MouseMotion })
    );
    // An event behind the mark is not looked at yet.
    let mut data = FuzzData::new(vec![F, key()]);
    assert_eq!(feed_fuzz_events(&mut data, &none), Ok(vec![]));
    assert_eq!(data.last_index_id(), Some(1));
    assert_eq!(
        feed_fuzz_events(&mut data, &none),
        Err(MissingCapabilityError { category: EventCategory::Keyboard })
    );
    assert_eq!(data.last_index_id(), Some(1));
}

#[test]
fn feeding_consumes_the_batch_and_its_mark() {
    let all = HostChannels::all();
    let mut data = FuzzData::new(vec![A, B, F, B, F, A]);
    assert_eq!(feed_fuzz_events(&mut data, &all), Ok(vec![A, B]));
    assert_eq!(data.last_index_id(), Some(3));
    assert_eq!(feed_fuzz_events(&mut data, &all), Ok(vec![B]));
    assert_eq!(data.last_index_id(), Some(5));
    assert!(!data.is_finished());
    assert_eq!(feed_fuzz_events(&mut data, &all), Ok(vec![A]));
    assert_eq!(data.last_index_id(), Some(6));
    assert!(data.is_finished());
    assert_eq!(feed_fuzz_events(&mut data, &all), Ok(vec![]));
    assert_eq!(data.last_index_id(), Some(6));
}

#[test]
fn the_mark_is_told_from_events() {
    assert!(F.is_run_frame());
    assert!(!A.is_run_frame());
    assert_eq!(HostChannels::all().refused(&key()), None);
    let mut channels = HostChannels::all();
    channels.mouse_motion = false;
    assert_eq!(channels.refused(&A), Some(EventCategory::MouseMotion));
    assert_eq!(channels.refused(&F), None);
}

#[test]
fn a_tick_runs_the_five_stages_in_order() {
    assert_eq!(
        tick_stages(),
        [
            HostStage::First,
            HostStage::PreUpdate,
            HostStage::Update,
            HostStage::PostUpdate,
            HostStage::Last
        ]
    );
    assert_eq!(
        reset_steps(),
        [
            ResetStep::ClearEntities,
            ResetStep::RunStage(HostStage::First),
            ResetStep::RunStartup,
            ResetStep::RunTick
        ]
    );
}
