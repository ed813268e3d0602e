use ucloud_notify::run::{Action, Event, Phase, Run, Step};

fn deliver(results: &[bool]) -> (Run, Vec<Action>) {
    let (mut run, first) = Run::start(vec![true; results.len()]);
    assert_eq!(first, Action::Fetch);
    assert_eq!(run.step(Event::Fetched(true)), Action::FilterUnseen);
    let mut actions = vec![run.step(Event::Filtered(true))];
    for r in results {
        actions.push(run.step(Event::Pushed(*r)));
    }
    (run, actions)
}

#[test]
fn failing_sink_does_not_stop_the_others() {
    let (run, actions) = deliver(&[false, true, false]);
    assert_eq!(actions, vec![Action::Push(0), Action::Push(1), Action::Push(2), Action::Record]);
    assert_eq!(run.phase(), Phase::Recording);
    assert_eq!(run.failed_sinks(), vec![0, 2]);
}

#[test]
fn all_sinks_failing_records_nothing() {
    let (mut run, actions) = deliver(&[false, false]);
    assert_eq!(actions, vec![Action::Push(0), Action::Push(1), Action::Finish]);
    assert_eq!(run.phase(), Phase::Failed(Step::DeliverAll));
    assert_eq!(run.step(Event::Recorded(true)), Action::Ignore);
}

#[test]
fn successful_run_ends_after_record() {
    let (mut run, actions) = deliver(&[true]);
    assert_eq!(actions, vec![Action::Push(0), Action::Record]);
    assert_eq!(run.step(Event::Recorded(true)), Action::Finish);
    assert_eq!(run.phase(), Phase::Succeeded);
    assert!(run.failed_sinks().is_empty());
}

#[test]
fn failed_steps_end_the_run() {
    let (mut run, _) = Run::start(vec![true, true]);
    assert_eq!(run.step(Event::Fetched(false)), Action::Finish);
    assert_eq!(run.phase(), Phase::Failed(Step::Fetch));

    let (mut run, _) = Run::start(vec![true, true]);
    run.step(Event::Fetched(true));
    assert_eq!(run.step(Event::Filtered(false)), Action::Finish);
    assert_eq!(run.phase(), Phase::Failed(Step::FilterUnseen));

    let (run0, _) = deliver(&[true, true]);
    let mut run = run0;
    assert_eq!(run.step(Event::Recorded(false)), Action::Finish);
    assert_eq!(run.phase(), Phase::Failed(Step::RecordSeen));
}

#[test]
fn out_of_place_events_are_ignored() {
    let (mut run, _) = Run::start(vec![true]);
    assert_eq!(run.step(Event::Pushed(true)), Action::Ignore);
    assert_eq!(run.phase(), Phase::Fetching);
}

#[test]
fn no_sinks_finishes_after_filtering() {
    let (mut run, _) = Run::start(vec![]);
    run.step(Event::Fetched(true));
    assert_eq!(run.step(Event::Filtered(true)), Action::Finish);
    assert_eq!(run.phase(), Phase::Succeeded);
}

#[test]
fn status_only_sink_does_not_count_as_delivery() {
    let (mut run, _) = Run::start(vec![true, true, false]);
    run.step(Event::Fetched(true));
    assert_eq!(run.step(Event::Filtered(true)), Action::Push(0));
    assert_eq!(run.step(Event::Pushed(false)), Action::Push(1));
    assert_eq!(run.step(Event::Pushed(false)), Action::Push(2));
    assert_eq!(run.step(Event::Pushed(true)), Action::Finish);
    assert_eq!(run.phase(), Phase::Failed(Step::DeliverAll));
    assert_eq!(run.failed_sinks(), vec![0, 1]);
}

#[test]
fn one_announcing_sink_suffices() {
    let (mut run, _) = Run::start(vec![true, true, false]);
    run.step(Event::Fetched(true));
    run.step(Event::Filtered(true));
    run.step(Event::Pushed(false));
    run.step(Event::Pushed(true));
    assert_eq!(run.step(Event::Pushed(false)), Action::Record);
}
