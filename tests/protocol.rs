use lc_login::transaction::{begin, step, Action, Event, Outcome, Phase};

fn drive(events: &[Event]) -> Vec<Action> {
    let (mut phase, first) = begin();
    let mut actions = vec![first];
    for ev in events {
        let (p, a) = step(phase, *ev);
        phase = p;
        actions.push(a);
    }
    actions
}

#[test]
fn committed_transaction() {
    let acts = drive(&[Event::Done, Event::Prepared(true), Event::Done, Event::Done]);
    assert_eq!(
        acts,
        vec![
            Action::CreateSentinel,
            Action::Prepare,
            Action::WriteSentinel,
            Action::RenameOverLive,
            Action::Finish(Outcome::Committed)
        ]
    );
}

#[test]
fn busy_sentinel_then_retry() {
    assert_eq!(drive(&[Event::Busy]), vec![Action::CreateSentinel, Action::Finish(Outcome::Busy)]);
    assert_eq!(step(Phase::Finished(Outcome::Busy), Event::Done).1, Action::Finish(Outcome::Busy));
    let retry = drive(&[Event::Done, Event::Prepared(true), Event::Done, Event::Done]);
    assert_eq!(retry.last(), Some(&Action::Finish(Outcome::Committed)));
}

#[test]
fn failures_remove_the_sentinel() {
    let write_failed = drive(&[Event::Done, Event::Prepared(true), Event::Failed, Event::Done]);
    assert_eq!(write_failed[3], Action::RemoveSentinel);
    assert_eq!(write_failed[4], Action::Finish(Outcome::Failed));
    assert!(!write_failed.contains(&Action::RenameOverLive));
    let rename_failed = drive(&[Event::Done, Event::Prepared(true), Event::Done, Event::Failed, Event::Failed]);
    assert_eq!(rename_failed[4], Action::RemoveSentinel);
    assert_eq!(rename_failed[5], Action::Finish(Outcome::Failed));
    let read_failed = drive(&[Event::Done, Event::Failed, Event::Done]);
    assert_eq!(read_failed[2], Action::RemoveSentinel);
    assert_eq!(drive(&[Event::Failed]), vec![Action::CreateSentinel, Action::Finish(Outcome::Failed)]);
}

#[test]
fn unchanged_record_writes_nothing() {
    let acts = drive(&[Event::Done, Event::Prepared(false), Event::Done]);
    assert_eq!(
        acts,
        vec![
            Action::CreateSentinel,
            Action::Prepare,
            Action::RemoveSentinel,
            Action::Finish(Outcome::Unchanged)
        ]
    );
}
