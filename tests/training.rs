use nnawaw::training::{count_correct, reports_accuracy, Phase, Step, TrainingRun, LOG_INTERVAL};

#[test]
fn accuracy_is_measured_on_first_interval_and_last_epochs() {
    assert_eq!(LOG_INTERVAL, 100);
    assert!(reports_accuracy(0, 1000));
    assert!(!reports_accuracy(1, 1000));
    assert!(!reports_accuracy(99, 1000));
    assert!(reports_accuracy(100, 1000));
    assert!(reports_accuracy(500, 1000));
    assert!(reports_accuracy(999, 1000));
    assert!(!reports_accuracy(998, 1000));
    assert!(reports_accuracy(49, 50));
    assert!(!reports_accuracy(usize::MAX - 1, usize::MAX - 3));
}

#[test]
fn correct_predictions_are_counted() {
    let pred = vec![true, false, true, true];
    let labels = vec![Some(true), Some(false), Some(false), None];
    assert_eq!(count_correct(&pred, &labels), 2);
    assert_eq!(count_correct(&Vec::new(), &Vec::new()), 0);
}

fn run_epochs(run: &mut TrainingRun<f64>, n: usize) {
    for k in 0..n {
        match run.next_step(false) {
            Step::Train { epoch, .. } => {
                assert_eq!(epoch, k);
                run.record_epoch(1.0 / (k as f64 + 1.0));
            }
            other => panic!("unexpected step {:?}", other),
        }
    }
}

#[test]
fn uninterrupted_run_records_every_epoch() {
    let mut run: TrainingRun<f64> = TrainingRun::new(50);
    run_epochs(&mut run, 50);
    assert_eq!(run.next_step(false), Step::Complete);
    assert_eq!(run.phase(), Phase::Completed);
    assert_eq!(run.losses().len(), 50);
    assert_eq!(run.epochs_done(), run.epochs());
}

#[test]
fn stop_at_end_is_ignored_once_all_epochs_ran() {
    let mut run: TrainingRun<f64> = TrainingRun::new(3);
    run_epochs(&mut run, 3);
    assert_eq!(run.next_step(true), Step::Complete);
    assert_eq!(run.phase(), Phase::Completed);
}

#[test]
fn stop_before_first_epoch_abandons_run() {
    let mut run: TrainingRun<f64> = TrainingRun::new(1000);
    assert_eq!(run.next_step(true), Step::Abandon);
    assert_eq!(run.phase(), Phase::Abandoned);
    assert!(run.losses().is_empty());
}

#[test]
fn stop_after_ten_epochs_keeps_ten_losses() {
    let mut run: TrainingRun<f64> = TrainingRun::new(100);
    run_epochs(&mut run, 10);
    assert_eq!(run.next_step(true), Step::StopWithResult);
    assert_eq!(run.phase(), Phase::StoppedEarly);
    assert_eq!(run.losses().len(), 10);
    assert!(run.losses().len() < run.epochs());
}

#[test]
fn train_steps_flag_accuracy_epochs() {
    let mut run: TrainingRun<f64> = TrainingRun::new(2);
    assert_eq!(run.next_step(false), Step::Train { epoch: 0, report_accuracy: true });
    run.record_epoch(0.5);
    assert_eq!(run.next_step(false), Step::Train { epoch: 1, report_accuracy: true });
    run.record_epoch(0.25);
    assert_eq!(run.losses(), &vec![0.5, 0.25]);
    let mut long: TrainingRun<f64> = TrainingRun::new(300);
    long.next_step(false);
    long.record_epoch(0.7);
    assert_eq!(long.next_step(false), Step::Train { epoch: 1, report_accuracy: false });
}

#[test]
fn zero_epoch_run_completes_at_once() {
    let mut run: TrainingRun<f64> = TrainingRun::new(0);
    assert_eq!(run.next_step(true), Step::Complete);
    assert!(run.losses().is_empty());
}
