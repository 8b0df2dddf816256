use vstd::prelude::*;

verus! {

/// What the retry machine of one logical call is waiting on.
#[derive(Clone, Debug, PartialEq, Eq)]
pub enum Phase<O> {
    /// The current attempt is in flight.
    Called,
    /// The current attempt resolved with this outcome; the policy is being asked about it.
    Consulting(O),
    /// The policy's retry decision is in flight.
    Checking,
    /// Waiting for the service to become ready for the next attempt.
    Retrying,
    /// The final result was handed out.
    Done,
}

/// What the driver observed since the last step.
#[derive(Clone, Debug, PartialEq, Eq)]
pub enum Event<Req, O> {
    /// The operation being polled (the call, the decision or the readiness check) is not ready.
    Pending,
    /// The in-flight call resolved with this outcome.
    Resolved(O),
    /// The policy's answer for the held request and outcome: `true` when it handed back a
    /// retry decision to wait on, `false` when the outcome is final.
    Verdict(bool),
    /// The retry decision resolved and the updated policy is in place.
    Decided,
    /// The service's readiness check failed.
    ReadinessFailed,
    /// The service is ready; the payload is the policy's clone of the held request.
    Ready(Option<Req>),
}

/// What the driver must do next.
#[derive(Clone, Debug, PartialEq, Eq)]
pub enum Action<Req, O> {
    /// Return control to the scheduler; poll again once woken.
    Suspend,
    /// Ask the policy whether to retry the held request after the held outcome.
    Consult,
    /// Go on with the phase that the machine is now in.
    Continue,
    /// Invoke the service with this request; its call is the new attempt in flight.
    Submit(Req),
    /// The logical call is over with this outcome.
    Finish(O),
    /// The logical call is over with the failure of the readiness check.
    FailReadiness,
    /// The event does not fit the phase; nothing changed.
    Unexpected,
}

/// The attempt state machine of one logical call: the request held for the next attempt,
/// if the policy could clone one, and the phase.
#[derive(Clone, Debug, PartialEq, Eq)]
pub struct ResponseFuture<Req, O> {
    pub request: Option<Req>,
    pub phase: Phase<O>,
}

/// The machine after the first attempt was submitted, holding `request` for a retry.
pub open spec fn initial<Req, O>(request: Option<Req>) -> ResponseFuture<Req, O> {
    ResponseFuture { request, phase: Phase::Called }
}

/// The machine with `phase` in place of its phase.
pub open spec fn with_phase<Req, O>(m: ResponseFuture<Req, O>, phase: Phase<O>) -> ResponseFuture<
    Req,
    O,
> {
    ResponseFuture { request: m.request, phase }
}

/// One transition: the machine after `e`, and what the driver must do.
pub open spec fn next<Req, O>(m: ResponseFuture<Req, O>, e: Event<Req, O>) -> (
    ResponseFuture<Req, O>,
    Action<Req, O>,
) {
    match (m.phase, e) {
        (Phase::Called, Event::Pending) => (m, Action::Suspend),
        (Phase::Checking, Event::Pending) => (m, Action::Suspend),
        (Phase::Retrying, Event::Pending) => (m, Action::Suspend),
        (Phase::Called, Event::Resolved(o)) => if m.request is Some {
            (with_phase(m, Phase::Consulting(o)), Action::Consult)
        } else {
            (with_phase(m, Phase::Done), Action::Finish(o))
        },
        (Phase::Consulting(o), Event::Verdict(retry)) => if retry {
            (with_phase(m, Phase::Checking), Action::Continue)
        } else {
            (with_phase(m, Phase::Done), Action::Finish(o))
        },
        (Phase::Checking, Event::Decided) => (with_phase(m, Phase::Retrying), Action::Continue),
        (Phase::Retrying, Event::ReadinessFailed) => (
            with_phase(m, Phase::Done),
            Action::FailReadiness,
        ),
        (Phase::Retrying, Event::Ready(clone)) => match m.request {
            Some(req) => (
                ResponseFuture { request: clone, phase: Phase::Called },
                Action::Submit(req),
            ),
            None => (m, Action::Unexpected),
        },
        _ => (m, Action::Unexpected),
    }
}

/// A request is held whenever the machine may still retry.
pub open spec fn wf<Req, O>(m: ResponseFuture<Req, O>) -> bool {
    match m.phase {
        Phase::Consulting(_) | Phase::Checking | Phase::Retrying => m.request is Some,
        _ => true,
    }
}

impl<Req, O> ResponseFuture<Req, O> {
    /// Starts the machine once the first attempt was submitted; `request` is the policy's
    /// clone of the caller's request, or `None` when it could not be cloned.
    pub fn new(request: Option<Req>) -> (r: Self)
        ensures
            r == initial::<Req, O>(request),
            wf(r),
    {
        ResponseFuture { request, phase: Phase::Called }
    }

    /// Advances the machine by one event and says what the driver must do next.
    pub fn step(&mut self, e: Event<Req, O>) -> (a: Action<Req, O>)
        ensures
            (*final(self), a) == next(*old(self), e),
            wf(*old(self)) ==> wf(*final(self)),
    {
        let mut phase = Phase::Done;
        std::mem::swap(&mut phase, &mut self.phase);
        match (phase, e) {
            (Phase::Called, Event::Pending) => {
                self.phase = Phase::Called;
                Action::Suspend
            },
            (Phase::Checking, Event::Pending) => {
                self.phase = Phase::Checking;
                Action::Suspend
            },
            (Phase::Retrying, Event::Pending) => {
                self.phase = Phase::Retrying;
                Action::Suspend
            },
            (Phase::Called, Event::Resolved(o)) => {
                if self.request.is_some() {
                    self.phase = Phase::Consulting(o);
                    Action::Consult
                } else {
                    Action::Finish(o)
                }
            },
            (Phase::Consulting(o), Event::Verdict(retry)) => {
                if retry {
                    self.phase = Phase::Checking;
                    Action::Continue
                } else {
                    Action::Finish(o)
                }
            },
            (Phase::Checking, Event::Decided) => {
                self.phase = Phase::Retrying;
                Action::Continue
            },
            (Phase::Retrying, Event::ReadinessFailed) => Action::FailReadiness,
            (Phase::Retrying, Event::Ready(clone)) => {
                match self.request.take() {
                    Some(req) => {
                        self.request = clone;
                        self.phase = Phase::Called;
                        Action::Submit(req)
                    },
                    None => {
                        self.phase = Phase::Retrying;
                        Action::Unexpected
                    },
                }
            },
            (phase, _) => {
                self.phase = phase;
                Action::Unexpected
            },
        }
    }
}

} // verus!
