use vstd::prelude::*;

use crate::future::{initial, next, wf, Action, Event, ResponseFuture};

verus! {

/// The machine after the events `es`, taken in order, and the actions they called for.
pub open spec fn run<Req, O>(m: ResponseFuture<Req, O>, es: Seq<Event<Req, O>>) -> (
    ResponseFuture<Req, O>,
    Seq<Action<Req, O>>,
)
    decreases es.len(),
{
    if es.len() == 0 {
        (m, Seq::empty())
    } else {
        let (m1, acts) = run(m, es.drop_last());
        let (m2, a) = next(m1, es.last());
        (m2, acts.push(a))
    }
}

/// How many attempts the actions submit to the service.
pub open spec fn submits<Req, O>(acts: Seq<Action<Req, O>>) -> nat
    decreases acts.len(),
{
    if acts.len() == 0 {
        0
    } else {
        submits(acts.drop_last()) + if acts.last() is Submit {
            1nat
        } else {
            0nat
        }
    }
}

/// How many times the actions ask the policy about an outcome.
pub open spec fn consults<Req, O>(acts: Seq<Action<Req, O>>) -> nat
    decreases acts.len(),
{
    if acts.len() == 0 {
        0
    } else {
        consults(acts.drop_last()) + if acts.last() is Consult {
            1nat
        } else {
            0nat
        }
    }
}

/// Attempts issued by a logical call: the first one, made before the machine starts, and
/// those that its actions submit.
pub open spec fn attempts<Req, O>(acts: Seq<Action<Req, O>>) -> nat {
    1 + submits(acts)
}

/// Events of a call whose policy retries after every outcome but the last one: each attempt
/// resolves in turn with `outs`, the policy approves, its decision resolves, the service is
/// ready and the request clones to `clone`; the policy declines after the last outcome.
pub open spec fn retried_until_last<Req, O>(clone: Req, outs: Seq<O>) -> Seq<Event<Req, O>>
    decreases outs.len(),
{
    if outs.len() <= 1 {
        seq![Event::Resolved(outs[0]), Event::Verdict(false)]
    } else {
        seq![
            Event::Resolved(outs[0]),
            Event::Verdict(true),
            Event::Decided,
            Event::Ready(Some(clone)),
        ] + retried_until_last(clone, outs.drop_first())
    }
}

proof fn lemma_run_push<Req, O>(m: ResponseFuture<Req, O>, es: Seq<Event<Req, O>>, e: Event<Req, O>)
    ensures
        run(m, es.push(e)) == (
            next(run(m, es).0, e).0,
            run(m, es).1.push(next(run(m, es).0, e).1),
        ),
{
    assert(es.push(e).drop_last() =~= es);
}

proof fn lemma_counts_push<Req, O>(acts: Seq<Action<Req, O>>, a: Action<Req, O>)
    ensures
        submits(acts.push(a)) == submits(acts) + if a is Submit {
            1nat
        } else {
            0nat
        },
        consults(acts.push(a)) == consults(acts) + if a is Consult {
            1nat
        } else {
            0nat
        },
{
    assert(acts.push(a).drop_last() =~= acts);
}

proof fn lemma_run_len<Req, O>(m: ResponseFuture<Req, O>, es: Seq<Event<Req, O>>)
    ensures
        run(m, es).1.len() == es.len(),
    decreases es.len(),
{
    if es.len() > 0 {
        lemma_run_len(m, es.drop_last());
    }
}

proof fn lemma_run_append<Req, O>(
    m: ResponseFuture<Req, O>,
    a: Seq<Event<Req, O>>,
    b: Seq<Event<Req, O>>,
)
    ensures
        run(m, a + b) == (run(run(m, a).0, b).0, run(m, a).1 + run(run(m, a).0, b).1),
    decreases b.len(),
{
    if b.len() == 0 {
        assert(a + b =~= a);
        assert(run(m, a).1 + Seq::<Action<Req, O>>::empty() =~= run(m, a).1);
    } else {
        let e = b.last();
        let b0 = b.drop_last();
        lemma_run_append(m, a, b0);
        assert(a + b =~= (a + b0).push(e));
        assert(b =~= b0.push(e));
        lemma_run_push(m, a + b0, e);
        lemma_run_push(run(m, a).0, b0, e);
        let mid = run(run(m, a).0, b0);
        let (_, x) = next(mid.0, e);
        assert(run(m, a).1 + mid.1.push(x) =~= (run(m, a).1 + mid.1).push(x));
    }
}

/// The machine is well formed after any events from its start: it holds a request in every
/// phase from which it may still submit one.
pub proof fn lemma_wf_run<Req, O>(request: Option<Req>, es: Seq<Event<Req, O>>)
    ensures
        wf(run(initial::<Req, O>(request), es).0),
    decreases es.len(),
{
    if es.len() > 0 {
        lemma_wf_run(request, es.drop_last());
    }
}

/// Once the call is over, the machine stays as it is and every later event is unexpected.
pub proof fn lemma_done_is_final<Req, O>(m: ResponseFuture<Req, O>, es: Seq<Event<Req, O>>)
    requires
        m.phase is Done,
    ensures
        run(m, es).0 == m,
        forall|i: int| 0 <= i < es.len() ==> run(m, es).1[i] is Unexpected,
        submits(run(m, es).1) == 0,
        consults(run(m, es).1) == 0,
    decreases es.len(),
{
    if es.len() > 0 {
        let es0 = es.drop_last();
        lemma_done_is_final(m, es0);
        lemma_run_len(m, es0);
        lemma_counts_push(run(m, es0).1, Action::Unexpected);
    }
}

/// The service is only ever invoked when its readiness check succeeded: an action that
/// submits a request answers a `Ready` event. So a call abandoned, or simply no longer
/// driven, while it waits for a decision or for readiness never invokes the service again.
pub proof fn lemma_submit_needs_ready<Req, O>(m: ResponseFuture<Req, O>, es: Seq<Event<Req, O>>)
    ensures
        forall|i: int|
            0 <= i < es.len() && (#[trigger] run(m, es).1[i]) is Submit ==> es[i] is Ready,
        (forall|i: int| 0 <= i < es.len() ==> !(#[trigger] es[i] is Ready)) ==> submits(
            run(m, es).1,
        ) == 0,
    decreases es.len(),
{
    if es.len() > 0 {
        let es0 = es.drop_last();
        let e = es.last();
        lemma_submit_needs_ready(m, es0);
        lemma_run_len(m, es0);
        lemma_run_push(m, es0, e);
        assert(es =~= es0.push(e));
        let (m1, acts) = run(m, es0);
        let a = next(m1, e).1;
        lemma_counts_push(acts, a);
        assert forall|i: int|
            0 <= i < es.len() && (#[trigger] run(m, es).1[i]) is Submit implies es[i] is Ready by {
            if i < es0.len() {
                assert(run(m, es).1[i] == acts[i]);
                assert(es[i] == es0[i]);
            }
        }
        if forall|i: int| 0 <= i < es.len() ==> !(#[trigger] es[i] is Ready) {
            assert forall|i: int| 0 <= i < es0.len() implies !(#[trigger] es0[i] is Ready) by {
                assert(es0[i] == es[i]);
            }
            assert(!(es[es.len() - 1] is Ready));
        }
    }
}

/// A call whose request could not be cloned issues a single attempt, whatever the policy
/// would prefer: the policy is never consulted, nothing is submitted, the first outcome to
/// resolve ends the call, and any outcome handed out is the one that just resolved.
pub proof fn lemma_no_clone_no_retry<Req, O>(es: Seq<Event<Req, O>>)
    ensures
        ({
            let (m, acts) = run(initial::<Req, O>(None), es);
            &&& attempts(acts) == 1
            &&& consults(acts) == 0
            &&& forall|i: int|
                0 <= i < es.len() && (#[trigger] acts[i]) is Finish ==> es[i] == Event::<
                    Req,
                    O,
                >::Resolved(acts[i]->Finish_0)
            &&& forall|i: int|
                0 <= i < es.len() && (#[trigger] es[i]) is Resolved && (forall|k: int|
                    0 <= k < i ==> !(#[trigger] es[k] is Resolved)) ==> acts[i] == Action::<
                    Req,
                    O,
                >::Finish(es[i]->Resolved_0)
        }),
    decreases es.len(),
{
    if es.len() > 0 {
        let es0 = es.drop_last();
        let e = es.last();
        lemma_no_clone_no_retry(es0);
        lemma_run_len(initial::<Req, O>(None), es0);
        lemma_run_push(initial::<Req, O>(None), es0, e);
        assert(es =~= es0.push(e));
        let (m1, acts0) = run(initial::<Req, O>(None), es0);
        lemma_no_clone_phase(es0);
        let (m, acts) = run(initial::<Req, O>(None), es);
        lemma_counts_push(acts0, next(m1, e).1);
        assert forall|i: int|
            0 <= i < es.len() && (#[trigger] acts[i]) is Finish implies es[i] == Event::<
                Req,
                O,
            >::Resolved(acts[i]->Finish_0) by {
            if i < es0.len() {
                assert(acts[i] == acts0[i]);
                assert(es[i] == es0[i]);
            }
        }
        assert forall|i: int|
            0 <= i < es.len() && (#[trigger] es[i]) is Resolved && (forall|k: int|
                0 <= k < i ==> !(#[trigger] es[k] is Resolved)) implies acts[i] == Action::<
                Req,
                O,
            >::Finish(es[i]->Resolved_0) by {
            if i < es0.len() {
                assert(acts[i] == acts0[i]);
                assert(es[i] == es0[i]);
                assert forall|k: int| 0 <= k < i implies !(#[trigger] es0[k] is Resolved) by {
                    assert(es0[k] == es[k]);
                }
            } else {
                assert forall|k: int| 0 <= k < es0.len() implies !(#[trigger] es0[k] is Resolved) by {
                    assert(es0[k] == es[k]);
                }
            }
        }
    }
}

proof fn lemma_no_clone_phase<Req, O>(es: Seq<Event<Req, O>>)
    ensures
        ({
            let m = run(initial::<Req, O>(None), es).0;
            &&& m.request is None
            &&& m.phase is Called || m.phase is Done
            &&& m.phase is Called <==> forall|k: int|
                0 <= k < es.len() ==> !(#[trigger] es[k] is Resolved)
        }),
    decreases es.len(),
{
    if es.len() > 0 {
        let es0 = es.drop_last();
        lemma_no_clone_phase(es0);
        if run(initial::<Req, O>(None), es).0.phase is Called {
            assert forall|k: int| 0 <= k < es.len() implies !(#[trigger] es[k] is Resolved) by {
                if k < es0.len() {
                    assert(es0[k] == es[k]);
                }
            }
        } else {
            if run(initial::<Req, O>(None), es0).0.phase is Called {
                assert(es[es.len() - 1] is Resolved);
            } else {
                let k = choose|k: int| 0 <= k < es0.len() && (#[trigger] es0[k] is Resolved);
                assert(es[k] == es0[k]);
            }
        }
    }
}

/// When the first attempt succeeds and the policy declines to retry it, exactly one attempt
/// is issued and the call ends with that attempt's outcome.
pub proof fn lemma_immediate_success<Req, O>(request: Req, o: O)
    ensures
        ({
            let (m, acts) = run(
                initial::<Req, O>(Some(request)),
                seq![Event::Resolved(o), Event::Verdict(false)],
            );
            &&& acts == seq![Action::<Req, O>::Consult, Action::Finish(o)]
            &&& attempts(acts) == 1
            &&& m.phase is Done
        }),
{
    let m0 = initial::<Req, O>(Some(request));
    let e0 = Seq::<Event<Req, O>>::empty();
    lemma_run_push(m0, e0, Event::Resolved(o));
    assert(e0.push(Event::Resolved(o)) =~= seq![Event::<Req, O>::Resolved(o)]);
    lemma_run_push(m0, seq![Event::<Req, O>::Resolved(o)], Event::Verdict(false));
    assert(seq![Event::<Req, O>::Resolved(o)].push(Event::Verdict(false)) =~= seq![
        Event::<Req, O>::Resolved(o),
        Event::Verdict(false),
    ]);
    let acts = run(m0, seq![Event::<Req, O>::Resolved(o), Event::Verdict(false)]).1;
    assert(acts =~= seq![Action::<Req, O>::Consult, Action::Finish(o)]);
    lemma_counts_push(Seq::<Action<Req, O>>::empty(), Action::<Req, O>::Consult);
    lemma_counts_push(seq![Action::<Req, O>::Consult], Action::Finish(o));
    assert(Seq::<Action<Req, O>>::empty().push(Action::<Req, O>::Consult) =~= seq![
        Action::<Req, O>::Consult,
    ]);
}

/// A failed readiness check ends the call with that failure: nothing is submitted
/// afterwards, whatever events follow.
pub proof fn lemma_readiness_failure_is_final<Req, O>(
    m: ResponseFuture<Req, O>,
    es: Seq<Event<Req, O>>,
)
    requires
        m.phase is Retrying,
    ensures
        next(m, Event::ReadinessFailed).1 is FailReadiness,
        next(m, Event::ReadinessFailed).0.phase is Done,
        submits(run(next(m, Event::ReadinessFailed).0, es).1) == 0,
{
    lemma_done_is_final(next(m, Event::ReadinessFailed).0, es);
}

proof fn lemma_counts_append<Req, O>(a: Seq<Action<Req, O>>, b: Seq<Action<Req, O>>)
    ensures
        submits(a + b) == submits(a) + submits(b),
        consults(a + b) == consults(a) + consults(b),
    decreases b.len(),
{
    if b.len() == 0 {
        assert(a + b =~= a);
    } else {
        let x = b.last();
        let b0 = b.drop_last();
        lemma_counts_append(a, b0);
        assert(a + b =~= (a + b0).push(x));
        assert(b =~= b0.push(x));
        lemma_counts_push(a + b0, x);
        lemma_counts_push(b0, x);
    }
}

proof fn lemma_run_four<Req, O>(
    m: ResponseFuture<Req, O>,
    e0: Event<Req, O>,
    e1: Event<Req, O>,
    e2: Event<Req, O>,
    e3: Event<Req, O>,
)
    ensures
        ({
            let (m1, a0) = next(m, e0);
            let (m2, a1) = next(m1, e1);
            let (m3, a2) = next(m2, e2);
            let (m4, a3) = next(m3, e3);
            run(m, seq![e0, e1, e2, e3]) == (m4, seq![a0, a1, a2, a3])
        }),
{
    let s0 = Seq::<Event<Req, O>>::empty();
    lemma_run_push(m, s0, e0);
    assert(s0.push(e0) =~= seq![e0]);
    lemma_run_push(m, seq![e0], e1);
    assert(seq![e0].push(e1) =~= seq![e0, e1]);
    lemma_run_push(m, seq![e0, e1], e2);
    assert(seq![e0, e1].push(e2) =~= seq![e0, e1, e2]);
    lemma_run_push(m, seq![e0, e1, e2], e3);
    assert(seq![e0, e1, e2].push(e3) =~= seq![e0, e1, e2, e3]);
    let (m1, a0) = next(m, e0);
    let (m2, a1) = next(m1, e1);
    let (m3, a2) = next(m2, e2);
    let (_, a3) = next(m3, e3);
    assert(Seq::<Action<Req, O>>::empty().push(a0).push(a1).push(a2).push(a3) =~= seq![
        a0,
        a1,
        a2,
        a3,
    ]);
}

proof fn lemma_run_two<Req, O>(m: ResponseFuture<Req, O>, e0: Event<Req, O>, e1: Event<Req, O>)
    ensures
        ({
            let (m1, a0) = next(m, e0);
            let (m2, a1) = next(m1, e1);
            run(m, seq![e0, e1]) == (m2, seq![a0, a1])
        }),
{
    let s0 = Seq::<Event<Req, O>>::empty();
    lemma_run_push(m, s0, e0);
    assert(s0.push(e0) =~= seq![e0]);
    lemma_run_push(m, seq![e0], e1);
    assert(seq![e0].push(e1) =~= seq![e0, e1]);
    let (m1, a0) = next(m, e0);
    let (_, a1) = next(m1, e1);
    assert(Seq::<Action<Req, O>>::empty().push(a0).push(a1) =~= seq![a0, a1]);
}

proof fn lemma_counts_two<Req, O>(a0: Action<Req, O>, a1: Action<Req, O>)
    ensures
        submits(seq![a0, a1]) == submits(seq![a0]) + submits(seq![a1]),
        consults(seq![a0, a1]) == consults(seq![a0]) + consults(seq![a1]),
{
    assert(seq![a0] + seq![a1] =~= seq![a0, a1]);
    lemma_counts_append(seq![a0], seq![a1]);
}

proof fn lemma_counts_one<Req, O>(a: Action<Req, O>)
    ensures
        submits(seq![a]) == if a is Submit {
            1nat
        } else {
            0nat
        },
        consults(seq![a]) == if a is Consult {
            1nat
        } else {
            0nat
        },
{
    lemma_counts_push(Seq::<Action<Req, O>>::empty(), a);
    assert(Seq::<Action<Req, O>>::empty().push(a) =~= seq![a]);
}

proof fn lemma_retried_until_last<Req, O>(m: ResponseFuture<Req, O>, clone: Req, outs: Seq<O>)
    requires
        m.phase is Called,
        m.request is Some,
        outs.len() >= 1,
    ensures
        ({
            let (m2, acts) = run(m, retried_until_last(clone, outs));
            &&& submits(acts) + 1 == outs.len()
            &&& consults(acts) == outs.len()
            &&& acts.len() > 0
            &&& acts.last() == Action::<Req, O>::Finish(outs.last())
            &&& m2.phase is Done
        }),
    decreases outs.len(),
{
    let es = retried_until_last(clone, outs);
    if outs.len() <= 1 {
        lemma_run_two(m, Event::Resolved(outs[0]), Event::Verdict(false));
        lemma_counts_two(Action::<Req, O>::Consult, Action::<Req, O>::Finish(outs[0]));
        lemma_counts_one(Action::<Req, O>::Consult);
        lemma_counts_one(Action::<Req, O>::Finish(outs[0]));
    } else {
        let head = seq![
            Event::Resolved(outs[0]),
            Event::Verdict(true),
            Event::Decided,
            Event::Ready(Some(clone)),
        ];
        let rest = outs.drop_first();
        lemma_run_four(
            m,
            Event::Resolved(outs[0]),
            Event::Verdict(true),
            Event::Decided,
            Event::Ready(Some(clone)),
        );
        let (m1, a) = run(m, head);
        assert(m1.phase is Called && m1.request == Some(clone));
        lemma_retried_until_last(m1, clone, rest);
        lemma_run_append(m, head, retried_until_last(clone, rest));
        let b = run(m1, retried_until_last(clone, rest)).1;
        lemma_counts_append(a, b);
        let r = m.request->Some_0;
        assert(a =~= seq![Action::<Req, O>::Consult, Action::Continue, Action::Continue].push(
            Action::Submit(r),
        ));
        assert(seq![Action::<Req, O>::Consult, Action::Continue] =~= seq![
            Action::<Req, O>::Consult,
        ].push(Action::Continue));
        assert(seq![Action::<Req, O>::Consult, Action::Continue, Action::Continue] =~= seq![
            Action::<Req, O>::Consult,
            Action::Continue,
        ].push(Action::Continue));
        lemma_counts_one(Action::<Req, O>::Consult);
        lemma_counts_push(seq![Action::<Req, O>::Consult], Action::Continue);
        lemma_counts_push(seq![Action::<Req, O>::Consult, Action::Continue], Action::Continue);
        lemma_counts_push(
            seq![Action::<Req, O>::Consult, Action::Continue, Action::Continue],
            Action::Submit(r),
        );
        assert(rest.last() == outs.last());
        assert((a + b).last() == b.last());
    }
}

/// With a policy that permits exactly `outs.len() - 1` retries, a service whose attempts
/// resolve in turn with `outs` (all failures, say) and a request that always clones, the call
/// issues exactly `outs.len()` attempts, has the policy evaluate each outcome, and ends with
/// the last outcome.
pub proof fn lemma_bounded_attempts<Req, O>(request: Req, clone: Req, outs: Seq<O>)
    requires
        outs.len() >= 1,
    ensures
        ({
            let (m, acts) = run(
                initial::<Req, O>(Some(request)),
                retried_until_last(clone, outs),
            );
            &&& attempts(acts) == outs.len()
            &&& consults(acts) == outs.len()
            &&& acts.len() > 0
            &&& acts.last() == Action::<Req, O>::Finish(outs.last())
            &&& m.phase is Done
        }),
{
    lemma_retried_until_last(initial::<Req, O>(Some(request)), clone, outs);
}

proof fn lemma_ordering_counts<Req, O>(request: Option<Req>, es: Seq<Event<Req, O>>)
    ensures
        ({
            let (m, acts) = run(initial::<Req, O>(request), es);
            &&& m.phase is Called ==> consults(acts) == submits(acts)
            &&& (m.phase is Consulting || m.phase is Checking || m.phase is Retrying)
                ==> consults(acts) == submits(acts) + 1
            &&& consults(acts) <= submits(acts) + 1
        }),
    decreases es.len(),
{
    if es.len() > 0 {
        let es0 = es.drop_last();
        let e = es.last();
        lemma_ordering_counts(request, es0);
        let (m1, acts0) = run(initial::<Req, O>(request), es0);
        lemma_counts_push(acts0, next(m1, e).1);
    }
}

/// Attempts are strictly sequential: every submission answers a successful readiness check,
/// and before it the policy has evaluated one outcome more than there were submissions, that
/// is, the outcome of every attempt so far, the latest included.
pub proof fn lemma_ordering<Req, O>(request: Option<Req>, es: Seq<Event<Req, O>>)
    ensures
        ({
            let (m, acts) = run(initial::<Req, O>(request), es);
            forall|j: int|
                0 <= j < es.len() && (#[trigger] acts[j]) is Submit ==> es[j] is Ready
                    && consults(acts.take(j)) == submits(acts.take(j)) + 1
        }),
    decreases es.len(),
{
    let m0 = initial::<Req, O>(request);
    if es.len() > 0 {
        let es0 = es.drop_last();
        let e = es.last();
        lemma_ordering(request, es0);
        lemma_ordering_counts(request, es0);
        lemma_run_len(m0, es0);
        lemma_run_push(m0, es0, e);
        assert(es =~= es0.push(e));
        let (m1, acts0) = run(m0, es0);
        let acts = run(m0, es).1;
        assert forall|j: int|
            0 <= j < es.len() && (#[trigger] acts[j]) is Submit implies es[j] is Ready
                && consults(acts.take(j)) == submits(acts.take(j)) + 1 by {
            if j < es0.len() {
                assert(acts[j] == acts0[j]);
                assert(es[j] == es0[j]);
                assert(acts.take(j) =~= acts0.take(j));
            } else {
                assert(acts.take(j) =~= acts0);
            }
        }
    }
}

} // verus!
