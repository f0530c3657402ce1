use rann::{mini_batches, Batch, NetError, TrainSchedule, TrainStep};

fn batch(start: usize, end: usize) -> Batch {
    Batch { start, end }
}

#[test]
fn batches_drop_the_remainder() {
    assert_eq!(
        mini_batches(10, 3),
        Ok(vec![batch(0, 3), batch(3, 6), batch(6, 9)])
    );
    assert_eq!(mini_batches(6, 2), Ok(vec![batch(0, 2), batch(2, 4), batch(4, 6)]));
    assert_eq!(mini_batches(7, 7), Ok(vec![batch(0, 7)]));
}

#[test]
fn batches_of_a_small_data_set() {
    assert_eq!(mini_batches(2, 5), Ok(vec![]));
    assert_eq!(mini_batches(0, 1), Ok(vec![]));
    assert_eq!(mini_batches(3, 1), Ok(vec![batch(0, 1), batch(1, 2), batch(2, 3)]));
}

#[test]
fn batches_need_a_positive_size() {
    assert_eq!(mini_batches(4, 0), Err(NetError::ZeroBatchSize));
    assert_eq!(TrainSchedule::new(4, 1, 0).err(), Some(NetError::ZeroBatchSize));
}

fn drain(mut s: TrainSchedule) -> Vec<TrainStep> {
    let mut steps = vec![];
    while let Some(step) = s.next() {
        steps.push(step);
    }
    assert_eq!(s.next(), None);
    steps
}

#[test]
fn schedule_examples_then_one_commit_per_batch() {
    let steps = drain(TrainSchedule::new(5, 2, 2).unwrap());
    let one_epoch = vec![
        TrainStep::Example { index: 0 },
        TrainStep::Example { index: 1 },
        TrainStep::Commit { batch_len: 2 },
        TrainStep::Example { index: 2 },
        TrainStep::Example { index: 3 },
        TrainStep::Commit { batch_len: 2 },
    ];
    let mut expected = one_epoch.clone();
    expected.extend(one_epoch);
    assert_eq!(steps, expected);
}

#[test]
fn schedule_of_xor_in_one_batch() {
    let steps = drain(TrainSchedule::new(4, 1, 4).unwrap());
    assert_eq!(
        steps,
        vec![
            TrainStep::Example { index: 0 },
            TrainStep::Example { index: 1 },
            TrainStep::Example { index: 2 },
            TrainStep::Example { index: 3 },
            TrainStep::Commit { batch_len: 4 },
        ]
    );
}

#[test]
fn schedule_without_work_is_empty() {
    assert_eq!(drain(TrainSchedule::new(1, 3, 2).unwrap()), vec![]);
    assert_eq!(drain(TrainSchedule::new(8, 0, 2).unwrap()), vec![]);
}

#[test]
fn schedule_length() {
    // 3 epochs of 3 batches of 3 examples, each batch followed by a commit
    assert_eq!(drain(TrainSchedule::new(11, 3, 3).unwrap()).len(), 3 * 3 * 4);
}
