use bevy_fuzz::bootstrap::bin::{bin_bootstrap, mode_of, BinCommand};
use bevy_fuzz::bootstrap::fuzz::{fuzz_bootstrap, FuzzSession};
use bevy_fuzz::bootstrap::{mode_setup, BootMode, CapabilitySet, LoopDriver, ModeSetup};
use bevy_fuzz::fuzz_input::FuzzInput;
use bevy_fuzz::output::encode_frame;

fn args(words: &[&str]) -> Vec<String> {
    words.iter().map(|w| w.to_string()).collect()
}

#[test]
fn modes_are_read_from_the_arguments() {
    assert_eq!(
        bin_bootstrap(&args(&["app", "record"])),
        BinCommand::Run { mode: BootMode::Record, path: None }
    );
    assert_eq!(
        bin_bootstrap(&args(&["app", "gui", "extra"])),
        BinCommand::Run { mode: BootMode::Gui, path: None }
    );
    assert_eq!(
        bin_bootstrap(&args(&["app", "view", "events.bin"])),
        BinCommand::Run { mode: BootMode::View, path: Some("events.bin".to_string()) }
    );
    assert_eq!(
        bin_bootstrap(&args(&["app", "apply", "events.bin", "more"])),
        BinCommand::Run { mode: BootMode::Apply, path: Some("events.bin".to_string()) }
    );
}

#[test]
fn a_missing_path_runs_nothing() {
    assert_eq!(
        bin_bootstrap(&args(&["app", "view"])),
        BinCommand::MissingPath { mode: BootMode::View }
    );
    assert_eq!(
        bin_bootstrap(&args(&["app", "apply"])),
        BinCommand::MissingPath { mode: BootMode::Apply }
    );
}

#[test]
fn an_unknown_mode_asks_for_the_usage() {
    assert_eq!(bin_bootstrap(&args(&[])), BinCommand::Usage);
    assert_eq!(bin_bootstrap(&args(&["app"])), BinCommand::Usage);
    assert_eq!(bin_bootstrap(&args(&["app", "fuzz"])), BinCommand::Usage);
    assert_eq!(bin_bootstrap(&args(&["app", "Record"])), BinCommand::Usage);
    assert_eq!(bin_bootstrap(&args(&["app", ""])), BinCommand::Usage);
    assert_eq!(mode_of(&"apply".to_string()), Some(BootMode::Apply));
    assert_eq!(mode_of(&"applyx".to_string()), None);
}

#[test]
fn each_mode_has_its_setup() {
    assert_eq!(
        mode_setup(BootMode::Record),
        ModeSetup {
            capabilities: Some(CapabilitySet::Interactive),
            recorder: true,
            driver: Some(LoopDriver::Native),
        }
    );
    assert_eq!(
        mode_setup(BootMode::Gui),
        ModeSetup {
            capabilities: Some(CapabilitySet::Interactive),
            recorder: false,
            driver: Some(LoopDriver::Native),
        }
    );
    assert_eq!(
        mode_setup(BootMode::View),
        ModeSetup { capabilities: None, recorder: false, driver: None }
    );
    let headless = ModeSetup {
        capabilities: Some(CapabilitySet::Headless),
        recorder: false,
        driver: Some(LoopDriver::Deterministic),
    };
    assert_eq!(mode_setup(BootMode::Apply), headless);
    assert_eq!(mode_setup(BootMode::Fuzz), headless);
}

#[test]
fn empty_fuzz_input_builds_no_host() {
    let mut session = FuzzSession::new();
    assert!(fuzz_bootstrap(&mut session, &[]).is_none());
    // Rejected bytes and bytes without a whole frame are skipped as well.
    assert!(fuzz_bootstrap(&mut session, &[2, 7, 0]).is_none());
    assert!(fuzz_bootstrap(&mut session, &[3, 6, 0]).is_none());
    assert!(fuzz_bootstrap(&mut session, &[9, 9, 9]).is_none());
    // None of them has built the host: the next one that runs has to.
    let first = fuzz_bootstrap(&mut session, &encode_frame(&FuzzInput::RunFrame)).unwrap();
    assert!(first.build_host);
}

#[test]
fn the_host_is_built_by_the_first_iteration_that_runs() {
    let mut session = FuzzSession::new();
    let bytes = [encode_frame(&FuzzInput::RunFrame), encode_frame(&FuzzInput::RunFrame)].concat();
    let first = fuzz_bootstrap(&mut session, &bytes).unwrap();
    assert!(first.build_host);
    assert_eq!(first.data.len(), 2);
    assert_eq!(first.data.last_index_id(), None);
    assert!(fuzz_bootstrap(&mut session, &[]).is_none());
    let second = fuzz_bootstrap(&mut session, &bytes[..3]).unwrap();
    assert!(!second.build_host);
    assert_eq!(second.data.iter_next(), &[FuzzInput::RunFrame]);
    assert_eq!(second.data.last_index_id(), None);
}
