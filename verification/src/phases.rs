//! Central, explicit startup/shutdown phase ordering.
//!
//! Ordering is defined here, not by the order in which builder methods were
//! called. Shutdown runs the completed phases in reverse.

use vstd::prelude::*;

verus! {

/// Ordered startup phases. The canonical order is [`STARTUP_PHASES`].
#[derive(Debug, Clone, Copy, PartialEq, Eq, PartialOrd, Ord, Hash)]
pub enum Phase {
    /// Validate identity, resolve paths, apply process-global policies.
    Preflight,
    /// Construct the application and apply its configuration.
    ConfigureApp,
    /// Register raw platform listeners so early events are captured.
    EarlyListeners,
    /// Initialize component library globals.
    ComponentInit,
    /// Build core services.
    CoreServices,
    /// Initialize plugins in registration order.
    PluginInit,
    /// Run the application-owned transactional startup callback.
    Start,
    /// Deliver `Started` and drain any events queued before readiness.
    DrainQueue,
    /// Apply the initial-activation policy.
    Activation,
}

/// The position of a phase in the canonical startup order.
pub open spec fn phase_rank(phase: Phase) -> int {
    match phase {
        Phase::Preflight => 0,
        Phase::ConfigureApp => 1,
        Phase::EarlyListeners => 2,
        Phase::ComponentInit => 3,
        Phase::CoreServices => 4,
        Phase::PluginInit => 5,
        Phase::Start => 6,
        Phase::DrainQueue => 7,
        Phase::Activation => 8,
    }
}

impl Phase {
    /// The position of this phase in the canonical startup order.
    pub fn rank(self) -> (rank: u8)
        ensures
            rank as int == phase_rank(self),
    {
        match self {
            Phase::Preflight => 0,
            Phase::ConfigureApp => 1,
            Phase::EarlyListeners => 2,
            Phase::ComponentInit => 3,
            Phase::CoreServices => 4,
            Phase::PluginInit => 5,
            Phase::Start => 6,
            Phase::DrainQueue => 7,
            Phase::Activation => 8,
        }
    }
}

/// The canonical startup order.
#[allow(non_snake_case)]
pub fn STARTUP_PHASES() -> (phases: [Phase; 9])
    ensures
        phases@ == spec_startup_phases(),
{
    let phases = [
        Phase::Preflight,
        Phase::ConfigureApp,
        Phase::EarlyListeners,
        Phase::ComponentInit,
        Phase::CoreServices,
        Phase::PluginInit,
        Phase::Start,
        Phase::DrainQueue,
        Phase::Activation,
    ];
    assert(phases@ =~= spec_startup_phases());
    phases
}

/// The canonical startup order, in spec form.
pub open spec fn spec_startup_phases() -> Seq<Phase> {
    seq![
        Phase::Preflight,
        Phase::ConfigureApp,
        Phase::EarlyListeners,
        Phase::ComponentInit,
        Phase::CoreServices,
        Phase::PluginInit,
        Phase::Start,
        Phase::DrainQueue,
        Phase::Activation,
    ]
}

/// Whether the phases appear in strictly increasing canonical order.
pub open spec fn strictly_increasing(phases: Seq<Phase>) -> bool {
    forall|i: int, j: int|
        0 <= i < j < phases.len() ==> phase_rank(#[trigger] phases[i]) < phase_rank(
            #[trigger] phases[j],
        )
}

/// The canonical startup order is strictly increasing and names every phase
/// exactly once, at the position of its rank.
pub proof fn lemma_startup_phases_are_strictly_increasing()
    ensures
        strictly_increasing(spec_startup_phases()),
        forall|i: int|
            0 <= i < 9 ==> phase_rank(#[trigger] spec_startup_phases()[i]) == i,
{
    let s = spec_startup_phases();
    assert forall|i: int| 0 <= i < 9 implies phase_rank(#[trigger] s[i]) == i by {
    }
}

/// Records which phases completed so shutdown can unwind them in reverse.
#[derive(Debug)]
pub struct PhaseTracker {
    completed: Vec<Phase>,
}

impl View for PhaseTracker {
    type V = Seq<Phase>;

    closed spec fn view(&self) -> Seq<Phase> {
        self.completed@
    }
}

impl Clone for PhaseTracker {
    fn clone(&self) -> (copy: Self)
        ensures
            copy@ == self@,
    {
        proof {
            use_type_invariant(self);
        }
        let mut completed: Vec<Phase> = Vec::new();
        let mut i: usize = 0;
        while i < self.completed.len()
            invariant
                i <= self.completed@.len(),
                completed@ == self.completed@.take(i as int),
            decreases self.completed@.len() - i,
        {
            completed.push(self.completed[i]);
            assert(completed@ =~= self.completed@.take(i + 1));
            i = i + 1;
        }
        assert(completed@ =~= self.completed@);
        PhaseTracker { completed }
    }
}

impl Default for PhaseTracker {
    fn default() -> (tracker: Self)
        ensures
            tracker@ == Seq::<Phase>::empty(),
    {
        PhaseTracker::new()
    }
}

impl PhaseTracker {
    #[verifier::type_invariant]
    spec fn ordered(&self) -> bool {
        strictly_increasing(self.completed@)
    }

    /// A tracker with no phases completed.
    pub fn new() -> (tracker: Self)
        ensures
            tracker@ == Seq::<Phase>::empty(),
    {
        PhaseTracker { completed: Vec::new() }
    }

    /// Mark `phase` completed. Phases complete in canonical order: `phase`
    /// must come after every phase already completed.
    pub fn complete(&mut self, phase: Phase)
        requires
            old(self)@.len() > 0 ==> phase_rank(old(self)@.last()) < phase_rank(phase),
        ensures
            final(self)@ == old(self)@.push(phase),
    {
        proof {
            use_type_invariant(&*self);
        }
        let ghost before = self.completed@;
        let mut completed: Vec<Phase> = Vec::new();
        std::mem::swap(&mut completed, &mut self.completed);
        completed.push(phase);
        assert forall|i: int, j: int|
            0 <= i < j < completed@.len() implies phase_rank(#[trigger] completed@[i])
            < phase_rank(#[trigger] completed@[j]) by {
            if j == completed@.len() - 1 && i < j {
                assert(completed@[i] == before[i]);
                if i < before.len() - 1 {
                    assert(phase_rank(before[i]) < phase_rank(before[before.len() - 1]));
                }
            }
        }
        self.completed = completed;
    }

    /// Whether `phase` has completed.
    pub fn is_complete(&self, phase: Phase) -> (done: bool)
        ensures
            done == self@.contains(phase),
    {
        let mut i: usize = 0;
        while i < self.completed.len()
            invariant
                i <= self.completed@.len(),
                forall|j: int| 0 <= j < i ==> self.completed@[j] != phase,
            decreases self.completed@.len() - i,
        {
            if self.completed[i].rank() == phase.rank() {
                assert(self.completed@[i as int] == phase);
                return true;
            }
            i = i + 1;
        }
        false
    }

    /// The furthest phase reached, if any.
    pub fn last(&self) -> (last: Option<Phase>)
        ensures
            last == (if self@.len() == 0 {
                None
            } else {
                Some(self@.last())
            }),
    {
        let n = self.completed.len();
        if n == 0 {
            None
        } else {
            Some(self.completed[n - 1])
        }
    }

    /// Completed phases in reverse order: the shutdown sequence.
    pub fn shutdown_order(&self) -> (order: Vec<Phase>)
        ensures
            order@ == self@.reverse(),
    {
        let mut order: Vec<Phase> = Vec::new();
        let n = self.completed.len();
        let mut i: usize = n;
        while i > 0
            invariant
                n == self.completed@.len(),
                i <= n,
                order@ == self.completed@.subrange(i as int, n as int).reverse(),
            decreases i,
        {
            i = i - 1;
            order.push(self.completed[i]);
            assert(order@ =~= self.completed@.subrange(i as int, n as int).reverse());
        }
        assert(self.completed@.subrange(0, n as int) =~= self.completed@);
        order
    }
}

/// Shutdown unwinds exactly the completed phases, latest first: every
/// completed phase appears in the shutdown order, and nothing else does.
pub proof fn lemma_shutdown_unwinds_exactly_the_completed_phases(completed: Seq<Phase>)
    ensures
        completed.reverse().len() == completed.len(),
        forall|i: int|
            0 <= i < completed.len() ==> #[trigger] completed.reverse()[i] == completed[completed.len()
                - 1 - i],
        forall|phase: Phase| #[trigger] completed.reverse().contains(phase) <==> completed.contains(phase),
{
    assert forall|phase: Phase| #[trigger] completed.reverse().contains(phase) <==> completed.contains(phase) by {
        if completed.contains(phase) {
            let k = choose|k: int| 0 <= k < completed.len() && completed[k] == phase;
            assert(completed.reverse()[completed.len() - 1 - k] == phase);
        }
        if completed.reverse().contains(phase) {
            let k = choose|k: int| 0 <= k < completed.len() && completed.reverse()[k] == phase;
            assert(completed[completed.len() - 1 - k] == phase);
        }
    }
}

} // verus!
