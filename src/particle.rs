//! Per-particle tracing state.
//!
//! A particle is either active, holding its current position, or divergent:
//! it has left the confinement volume (or its field direction could not be
//! normalised) and is frozen for the rest of the run. Checkpoints record an
//! active particle's position and a fixed sentinel for a divergent one.

use vstd::prelude::*;

verus! {

#[derive(Clone, Copy, Debug)]
pub enum ParticleState<P> {
    /// Still traced; holds the current position.
    Active(P),
    /// Terminal; holds the last position reached before divergence.
    Divergent(P),
}

/// The state after one step, where `stepped` is the traced position, or
/// `None` when the step left the confinement volume or was degenerate.
/// A divergent particle ignores the step.
pub open spec fn next_state<P>(s: ParticleState<P>, stepped: Option<P>) -> ParticleState<P> {
    match s {
        ParticleState::Active(p) => match stepped {
            Some(q) => ParticleState::Active(q),
            None => ParticleState::Divergent(p),
        },
        ParticleState::Divergent(p) => ParticleState::Divergent(p),
    }
}

/// The state after a run of steps with the given outcomes, in order.
pub open spec fn run_steps<P>(s: ParticleState<P>, outcomes: Seq<Option<P>>) -> ParticleState<P>
    decreases outcomes.len(),
{
    if outcomes.len() == 0 {
        s
    } else {
        run_steps(next_state(s, outcomes[0]), outcomes.drop_first())
    }
}

/// What a checkpoint records for a particle.
pub open spec fn recorded<P>(s: ParticleState<P>, sentinel: P) -> P {
    match s {
        ParticleState::Active(p) => p,
        ParticleState::Divergent(_) => sentinel,
    }
}

/// The position a particle holds, active or not.
pub open spec fn held_position<P>(s: ParticleState<P>) -> P {
    match s {
        ParticleState::Active(p) => p,
        ParticleState::Divergent(p) => p,
    }
}

impl<P: Copy> ParticleState<P> {
    /// A freshly seeded particle.
    pub fn new(position: P) -> (r: Self)
        ensures
            r == ParticleState::Active(position),
    {
        ParticleState::Active(position)
    }

    pub fn is_active(&self) -> (r: bool)
        ensures
            r == (*self is Active),
    {
        match self {
            ParticleState::Active(_) => true,
            ParticleState::Divergent(_) => false,
        }
    }

    pub fn is_divergent(&self) -> (r: bool)
        ensures
            r == (*self is Divergent),
    {
        !self.is_active()
    }

    /// The current position of an active particle, or the last position of
    /// a divergent one.
    pub fn position(&self) -> (r: P)
        ensures
            r == held_position(*self),
    {
        match self {
            ParticleState::Active(p) => *p,
            ParticleState::Divergent(p) => *p,
        }
    }

    /// The value a checkpoint records: the position while active, the
    /// sentinel once divergent.
    pub fn record(&self, sentinel: P) -> (r: P)
        ensures
            r == recorded(*self, sentinel),
    {
        match self {
            ParticleState::Active(p) => *p,
            ParticleState::Divergent(_) => sentinel,
        }
    }

    /// Applies the outcome of one tracing step.
    pub fn advance(self, stepped: Option<P>) -> (r: Self)
        ensures
            r == next_state(self, stepped),
    {
        match self {
            ParticleState::Active(p) => match stepped {
                Some(q) => ParticleState::Active(q),
                None => ParticleState::Divergent(p),
            },
            ParticleState::Divergent(p) => ParticleState::Divergent(p),
        }
    }
}

/// Records every particle of a partition, in partition order, for a
/// checkpoint.
pub fn checkpoint_records<P: Copy>(states: &Vec<ParticleState<P>>, sentinel: P) -> (r: Vec<P>)
    ensures
        r.len() == states.len(),
        forall|i: int| 0 <= i < states.len() ==> #[trigger] r@[i] == recorded(states@[i], sentinel),
{
    let mut r: Vec<P> = Vec::new();
    let mut i: usize = 0;
    while i < states.len()
        invariant
            i <= states.len(),
            r.len() == i,
            forall|j: int| 0 <= j < i ==> #[trigger] r@[j] == recorded(states@[j], sentinel),
        decreases states.len() - i,
    {
        r.push(states[i].record(sentinel));
        i += 1;
    }
    r
}

/// Divergence is terminal: a divergent particle keeps its state, and so
/// records the sentinel, whatever the outcomes of any later steps.
pub proof fn lemma_divergent_is_final<P>(last: P, outcomes: Seq<Option<P>>, sentinel: P)
    ensures
        run_steps(ParticleState::Divergent(last), outcomes) == ParticleState::Divergent(last),
        recorded(run_steps(ParticleState::Divergent(last), outcomes), sentinel) == sentinel,
    decreases outcomes.len(),
{
    if outcomes.len() > 0 {
        lemma_divergent_is_final(last, outcomes.drop_first(), sentinel);
    }
}

/// Once a run reaches the divergent state, every longer run of the same
/// outcomes ends in that same state.
pub proof fn lemma_divergence_persists<P>(
    s: ParticleState<P>,
    outcomes: Seq<Option<P>>,
    k: nat,
)
    requires
        k <= outcomes.len(),
        run_steps(s, outcomes.take(k as int)) is Divergent,
    ensures
        run_steps(s, outcomes) == run_steps(s, outcomes.take(k as int)),
    decreases k,
{
    if k == 0 {
        assert(outcomes.take(0) =~= Seq::<Option<P>>::empty());
        match s {
            ParticleState::Divergent(p) => {
                lemma_divergent_is_final(p, outcomes, p);
            },
            ParticleState::Active(_) => {},
        }
    } else {
        assert(outcomes.take(k as int).drop_first() =~= outcomes.drop_first().take(k - 1));
        lemma_divergence_persists(next_state(s, outcomes[0]), outcomes.drop_first(), (k - 1) as nat);
    }
}

} // verus!
