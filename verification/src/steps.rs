//! Runs of step machines: work that alternates steps with their outcomes, seen
//! from its first step to its end.
use vstd::prelude::*;

verus! {

/// Where a run stands, and which steps it has taken with which outcomes.
#[verifier::reject_recursive_types(S)]
#[verifier::reject_recursive_types(R)]
pub struct Run<S, R> {
    pub step: S,
    pub seen: Set<(S, R)>,
}

impl<S, R> Run<S, R> {
    /// Whether a step was taken with this outcome.
    pub open spec fn saw(self, step: S, outcome: R) -> bool {
        self.seen.contains((step, outcome))
    }
}

impl<S> Run<S, bool> {
    /// Whether a step was taken and succeeded.
    pub open spec fn done(self, step: S) -> bool {
        self.seen.contains((step, true))
    }

    /// Whether a step was taken and failed.
    pub open spec fn failed(self, step: S) -> bool {
        self.seen.contains((step, false))
    }

    /// Whether a step was taken.
    pub open spec fn tried(self, step: S) -> bool {
        self.done(step) || self.failed(step)
    }
}

/// A run that has not taken any step.
pub open spec fn fresh<S, R>(first: S) -> Run<S, R> {
    Run { step: first, seen: Set::empty() }
}

/// A run after one more step with this outcome.
pub open spec fn advanced<S, R>(
    next: spec_fn(S, R) -> S,
    run: Run<S, R>,
    outcome: R,
) -> Run<S, R> {
    Run { step: next(run.step, outcome), seen: run.seen.insert((run.step, outcome)) }
}

/// A run after steps with these outcomes. It takes none past its end.
pub open spec fn run_on<S, R>(
    next: spec_fn(S, R) -> S,
    over: spec_fn(S) -> bool,
    run: Run<S, R>,
    outcomes: Seq<R>,
) -> Run<S, R>
    decreases outcomes.len(),
{
    if outcomes.len() == 0 || over(run.step) {
        run
    } else {
        run_on(next, over, advanced(next, run, outcomes[0]), outcomes.skip(1))
    }
}

/// What every step keeps holds at the end of a run.
pub proof fn lemma_run_keeps<S, R>(
    next: spec_fn(S, R) -> S,
    over: spec_fn(S) -> bool,
    inv: spec_fn(Run<S, R>) -> bool,
    run: Run<S, R>,
    outcomes: Seq<R>,
)
    requires
        inv(run),
        forall|r: Run<S, R>, o: R|
            inv(r) && !over(r.step) ==> inv(#[trigger] advanced(next, r, o)),
    ensures
        inv(run_on(next, over, run, outcomes)),
    decreases outcomes.len(),
{
    if outcomes.len() > 0 && !over(run.step) {
        lemma_run_keeps(
            next,
            over,
            inv,
            advanced(next, run, outcomes[0]),
            outcomes.skip(1),
        );
    }
}

/// A run whose every step leaves fewer to take ends within that many.
pub proof fn lemma_run_ends<S, R>(
    next: spec_fn(S, R) -> S,
    over: spec_fn(S) -> bool,
    rank: spec_fn(S) -> int,
    run: Run<S, R>,
    outcomes: Seq<R>,
)
    requires
        forall|s: S, o: R| !over(s) ==> 0 <= rank(#[trigger] next(s, o)) < rank(s),
        outcomes.len() >= rank(run.step),
    ensures
        over(run_on(next, over, run, outcomes).step),
    decreases outcomes.len(),
{
    if !over(run.step) {
        if outcomes.len() > 0 {
            let o = outcomes[0];
            assert(0 <= rank(next(run.step, o)) < rank(run.step));
            lemma_run_ends(next, over, rank, advanced(next, run, o), outcomes.skip(1));
        } else {
            let o = arbitrary::<R>();
            assert(0 <= rank(next(run.step, o)) < rank(run.step));
        }
    }
}

} // verus!
