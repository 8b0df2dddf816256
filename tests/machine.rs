use tower_retry::future::{Action, Event, Phase, ResponseFuture};

type Outcome = Result<u32, String>;
type Machine = ResponseFuture<u32, Outcome>;

fn fail(msg: &str) -> Outcome {
    Err(msg.to_string())
}

fn submits(actions: &[Action<u32, Outcome>]) -> usize {
    actions.iter().filter(|a| matches!(a, Action::Submit(_))).count()
}

#[test]
fn unclonable_request_issues_one_attempt() {
    let mut m: Machine = ResponseFuture::new(None);
    assert_eq!(m.step(Event::Pending), Action::Suspend);
    assert_eq!(m.step(Event::Resolved(fail("boom"))), Action::Finish(fail("boom")));
    assert_eq!(m.phase, Phase::Done);
    assert_eq!(m.step(Event::Verdict(true)), Action::Unexpected);
    assert_eq!(m.step(Event::Ready(Some(1))), Action::Unexpected);
}

#[test]
fn unclonable_success_is_returned_as_is() {
    let mut m: Machine = ResponseFuture::new(None);
    assert_eq!(m.step(Event::Resolved(Ok(42))), Action::Finish(Ok(42)));
}

#[test]
fn three_retries_then_the_fourth_failure() {
    let mut m: Machine = ResponseFuture::new(Some(7));
    let mut actions = Vec::new();
    for i in 0..3 {
        actions.push(m.step(Event::Resolved(fail(&format!("failure {}", i)))));
        actions.push(m.step(Event::Verdict(true)));
        actions.push(m.step(Event::Decided));
        actions.push(m.step(Event::Ready(Some(7))));
    }
    actions.push(m.step(Event::Resolved(fail("failure 3"))));
    let last = m.step(Event::Verdict(false));
    assert_eq!(last, Action::Finish(fail("failure 3")));
    assert_eq!(submits(&actions), 3);
    assert_eq!(1 + submits(&actions), 4);
    assert_eq!(m.phase, Phase::Done);
}

#[test]
fn first_success_short_circuits() {
    let mut m: Machine = ResponseFuture::new(Some(5));
    assert_eq!(m.step(Event::Resolved(Ok(9))), Action::Consult);
    assert_eq!(m.phase, Phase::Consulting(Ok(9)));
    assert_eq!(m.step(Event::Verdict(false)), Action::Finish(Ok(9)));
    assert_eq!(m.phase, Phase::Done);
}

#[test]
fn readiness_failure_ends_the_call() {
    let mut m: Machine = ResponseFuture::new(Some(5));
    assert_eq!(m.step(Event::Resolved(fail("first"))), Action::Consult);
    assert_eq!(m.step(Event::Verdict(true)), Action::Continue);
    assert_eq!(m.step(Event::Decided), Action::Continue);
    assert_eq!(m.step(Event::Pending), Action::Suspend);
    assert_eq!(m.step(Event::ReadinessFailed), Action::FailReadiness);
    assert_eq!(m.phase, Phase::Done);
    assert_eq!(m.step(Event::Ready(Some(5))), Action::Unexpected);
    assert_eq!(m.step(Event::Resolved(Ok(1))), Action::Unexpected);
}

#[test]
fn each_submission_follows_an_evaluation_and_readiness() {
    let mut m: Machine = ResponseFuture::new(Some(3));
    let events = vec![
        Event::Pending,
        Event::Resolved(fail("a")),
        Event::Verdict(true),
        Event::Pending,
        Event::Decided,
        Event::Pending,
        Event::Ready(Some(3)),
        Event::Resolved(fail("b")),
        Event::Verdict(true),
        Event::Decided,
        Event::Ready(Some(3)),
        Event::Resolved(Ok(0)),
        Event::Verdict(false),
    ];
    let mut log: Vec<(Event<u32, Outcome>, Action<u32, Outcome>)> = Vec::new();
    for e in events {
        let a = m.step(e.clone());
        log.push((e, a));
    }
    let mut consulted = 0;
    let mut submitted = 0;
    for (e, a) in &log {
        match a {
            Action::Consult => consulted += 1,
            Action::Submit(r) => {
                assert!(matches!(e, Event::Ready(_)));
                assert_eq!(*r, 3);
                assert_eq!(consulted, submitted + 1);
                submitted += 1;
            }
            _ => {}
        }
    }
    assert_eq!(submitted, 2);
    assert_eq!(consulted, 3);
    assert_eq!(log.last().unwrap().1, Action::Finish(Ok(0)));
}

#[test]
fn abandoned_call_never_submits_again() {
    let mut m: Machine = ResponseFuture::new(Some(3));
    let mut actions = vec![
        m.step(Event::Resolved(fail("a"))),
        m.step(Event::Verdict(true)),
        m.step(Event::Pending),
    ];
    assert_eq!(m.phase, Phase::Checking);
    actions.push(m.step(Event::Decided));
    actions.push(m.step(Event::Pending));
    assert_eq!(m.phase, Phase::Retrying);
    drop(m);
    assert_eq!(submits(&actions), 0);
}

#[test]
fn spurious_wakes_change_nothing() {
    let mut m: Machine = ResponseFuture::new(Some(1));
    let before = m.clone();
    assert_eq!(m.step(Event::Pending), Action::Suspend);
    assert_eq!(m, before);
    m.step(Event::Resolved(fail("x")));
    m.step(Event::Verdict(true));
    let before = m.clone();
    assert_eq!(m.step(Event::Pending), Action::Suspend);
    assert_eq!(m, before);
}

#[test]
fn lost_clone_makes_the_next_outcome_final() {
    let mut m: Machine = ResponseFuture::new(Some(4));
    m.step(Event::Resolved(fail("a")));
    m.step(Event::Verdict(true));
    m.step(Event::Decided);
    assert_eq!(m.step(Event::Ready(None)), Action::Submit(4));
    assert_eq!(m.request, None);
    assert_eq!(m.step(Event::Resolved(fail("b"))), Action::Finish(fail("b")));
}

#[test]
fn mismatched_events_are_unexpected() {
    let mut m: Machine = ResponseFuture::new(Some(2));
    assert_eq!(m.step(Event::Decided), Action::Unexpected);
    assert_eq!(m.step(Event::Verdict(true)), Action::Unexpected);
    assert_eq!(m, ResponseFuture::new(Some(2)));
    m.step(Event::Resolved(Ok(1)));
    assert_eq!(m.step(Event::Pending), Action::Unexpected);
    assert_eq!(m.phase, Phase::Consulting(Ok(1)));
}
