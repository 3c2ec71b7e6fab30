use bevy_fuzz::data::FuzzData;
use bevy_fuzz::fuzz_input::FuzzInput;
use bevy_fuzz::math::WrapVec2;

#[test]
fn test() {
    let mut data = FuzzData::new(vec![FuzzInput::RunFrame]);
    assert_eq!(data.is_finished(), false);
    assert_eq!(data.iter_next().iter().count(), 1);
    data.set_last_idx(None);
    assert_eq!(data.is_finished(), true);
    assert_eq!(data.iter_next().iter().count(), 0);

    let mut data = FuzzData::new(vec![FuzzInput::RunFrame, FuzzInput::RunFrame]);
    assert_eq!(data.is_finished(), false);
    assert_eq!(data.iter_next().iter().count(), 2);
    assert_eq!(data.last_index_id(), None);
    data.set_last_idx(Some(0));
    assert_eq!(data.last_index_id(), Some(1));
    assert_eq!(data.is_finished(), false);
    assert_eq!(data.iter_next().iter().count(), 1);
    data.set_last_idx(Some(0));
    assert_eq!(data.last_index_id(), Some(2));
    assert_eq!(data.is_finished(), true);
    assert_eq!(data.iter_next().iter().count(), 0);
}

#[test]
fn empty_log_is_not_finished_before_any_batch() {
    let mut data = FuzzData::new(Vec::new());
    assert_eq!(data.len(), 0);
    assert_eq!(data.last_index_id(), None);
    assert!(!data.is_finished());
    assert!(data.iter_next().is_empty());
    data.set_last_idx(None);
    assert_eq!(data.last_index_id(), Some(0));
    assert!(data.is_finished());
}

#[test]
fn batch_to_the_end_puts_the_cursor_at_the_length() {
    let motion = FuzzInput::MouseMotion(WrapVec2 { x: 1, y: 2 });
    let mut data = FuzzData::new(vec![motion, FuzzInput::RunFrame, motion]);
    data.set_last_idx(Some(1));
    assert_eq!(data.last_index_id(), Some(2));
    assert!(!data.is_finished());
    assert_eq!(data.iter_next(), &[motion]);
    data.set_last_idx(None);
    assert_eq!(data.last_index_id(), Some(3));
    assert!(data.is_finished());
    assert!(data.iter_next().is_empty());
}

#[test]
fn boundary_index_is_counted_from_the_cursor() {
    let a = FuzzInput::MouseMotion(WrapVec2 { x: 1, y: 1 });
    let b = FuzzInput::MouseMotion(WrapVec2 { x: 2, y: 2 });
    let f = FuzzInput::RunFrame;
    let mut data = FuzzData::new(vec![a, f, b, b, f, f]);
    assert_eq!(data.iter_next(), &[a, f, b, b, f, f]);
    data.set_last_idx(Some(1));
    assert_eq!(data.last_index_id(), Some(2));
    assert_eq!(data.iter_next(), &[b, b, f, f]);
    data.set_last_idx(Some(2));
    assert_eq!(data.last_index_id(), Some(5));
    assert_eq!(data.iter_next(), &[f]);
    assert!(!data.is_finished());
    data.set_last_idx(Some(0));
    assert_eq!(data.last_index_id(), Some(6));
    assert!(data.is_finished());
}

#[test]
fn cursor_grows_with_every_batch_and_finishes_at_the_length() {
    let f = FuzzInput::RunFrame;
    let mut data = FuzzData::new(vec![f, f, f, f]);
    let mut before = 0;
    for round in 1..=4 {
        assert!(!data.is_finished());
        data.set_last_idx(Some(0));
        let now = data.last_index_id().unwrap();
        assert!(now > before);
        assert_eq!(now, round);
        assert_eq!(data.is_finished(), now >= data.len());
        before = now;
    }
    assert!(data.is_finished());
}

#[test]
fn iter_next_gives_the_same_events_until_the_cursor_moves() {
    let a = FuzzInput::MouseMotion(WrapVec2 { x: 7, y: 9 });
    let data = FuzzData::new(vec![a, FuzzInput::RunFrame]);
    let first: Vec<FuzzInput> = data.iter_next().to_vec();
    let second: Vec<FuzzInput> = data.iter_next().to_vec();
    assert_eq!(first, second);
    assert_eq!(first, vec![a, FuzzInput::RunFrame]);
}
