//! The discrete states of neurons and synapses, and the synapse lifecycle.
use vstd::prelude::*;

verus! {

/// Kind of an environmental growth factor.
#[derive(Debug, Clone, Copy, PartialEq, Eq, Structural)]
pub enum FactorType {
    Attractive,
    Repulsive,
    Obstacle,
}

/// Activation state of a point neuron.
#[derive(Debug, Clone, Copy, PartialEq, Eq, Structural)]
pub enum NeuronState {
    Inactive,
    Active,
    Refractory,
}

impl FactorType {
    /// The kind of factor a neuron exerts on growth: excitatory neurons
    /// attract, inhibitory ones repel.
    pub fn for_neuron(is_excitatory: bool) -> (r: FactorType)
        ensures
            r == if is_excitatory {
                FactorType::Attractive
            } else {
                FactorType::Repulsive
            },
    {
        if is_excitatory {
            FactorType::Attractive
        } else {
            FactorType::Repulsive
        }
    }
}

impl NeuronState {
    /// The display name of the state.
    pub fn to_string(&self) -> (r: String)
        ensures
            r@ == match *self {
                NeuronState::Inactive => "Inaktiv"@,
                NeuronState::Active => "Aktiv"@,
                NeuronState::Refractory => "Refrakt\u{e4}r"@,
            },
    {
        proof {
            reveal_strlit("Inaktiv");
            reveal_strlit("Aktiv");
            reveal_strlit("Refrakt\u{e4}r");
        }
        match self {
            NeuronState::Inactive => "Inaktiv".to_owned(),
            NeuronState::Active => "Aktiv".to_owned(),
            NeuronState::Refractory => "Refrakt\u{e4}r".to_owned(),
        }
    }
}

impl Default for NeuronState {
    fn default() -> (r: Self)
        ensures
            r == NeuronState::Inactive,
    {
        NeuronState::Inactive
    }
}

/// How a shared energy pool is split across dendritic trees.
#[derive(Debug, Clone, Copy, PartialEq, Eq, Structural)]
pub enum AllocationStrategy {
    Equal,
    ActivityBased,
    GrowthPotential,
}

/// Lifecycle state of a synapse on a dendritic segment.
#[derive(Debug, Clone, Copy, PartialEq, Eq, Structural)]
pub enum SynapseState {
    Active,
    Weakened,
    Ghosted,
}

impl Default for SynapseState {
    fn default() -> (r: Self)
        ensures
            r == SynapseState::Active,
    {
        SynapseState::Active
    }
}

impl SynapseState {
    /// State after an inactivity check (see `after_inactivity_check`).
    pub open spec fn on_inactivity(self, inactive: bool) -> SynapseState {
        if inactive && self != SynapseState::Ghosted {
            SynapseState::Weakened
        } else {
            self
        }
    }

    /// State after a pruning pass (see `after_pruning`).
    pub open spec fn on_pruning(self, below_half_minimum: bool) -> SynapseState {
        if below_half_minimum && self == SynapseState::Weakened {
            SynapseState::Ghosted
        } else {
            self
        }
    }

    /// Outcome of a reactivation attempt (see `after_reactivation`).
    pub open spec fn on_reactivation(self, source_seen: bool) -> Option<SynapseState> {
        if self == SynapseState::Ghosted && source_seen {
            Some(SynapseState::Active)
        } else {
            None
        }
    }

    /// The state after an inactivity check. `inactive` tells whether the
    /// synapse has been silent for longer than the inactivity threshold. A live
    /// synapse that was silent too long is weakened (the second result is then
    /// `true`); a ghost stays a ghost.
    pub fn after_inactivity_check(self, inactive: bool) -> (r: (SynapseState, bool))
        ensures
            r.1 == (inactive && self != SynapseState::Ghosted),
            r.0 == self.on_inactivity(inactive),
    {
        if inactive && self != SynapseState::Ghosted {
            (SynapseState::Weakened, true)
        } else {
            (self, false)
        }
    }

    /// The state after an activity sample. `above_minimum` tells whether the
    /// sampled activity exceeded the minimum synapse activity; a weakened
    /// synapse that sees such activity is active again.
    pub fn after_activity(self, above_minimum: bool) -> (r: SynapseState)
        ensures
            r == if above_minimum && self == SynapseState::Weakened {
                SynapseState::Active
            } else {
                self
            },
    {
        if above_minimum && self == SynapseState::Weakened {
            SynapseState::Active
        } else {
            self
        }
    }

    /// Whether a conversion to ghost applies: only a weakened synapse becomes a ghost.
    pub fn can_become_ghost(self) -> (r: bool)
        ensures
            r == (self == SynapseState::Weakened),
    {
        self == SynapseState::Weakened
    }

    /// The state after a conversion to ghost.
    pub fn after_ghost_conversion(self) -> (r: SynapseState)
        ensures
            r == if self == SynapseState::Weakened {
                SynapseState::Ghosted
            } else {
                self
            },
    {
        if self == SynapseState::Weakened {
            SynapseState::Ghosted
        } else {
            self
        }
    }

    /// The state after a pruning pass on a synapse that was already checked
    /// for inactivity. `below_half_minimum` tells whether its rolling average
    /// activity is below half the minimum synapse activity.
    pub fn after_pruning(self, below_half_minimum: bool) -> (r: SynapseState)
        ensures
            r == self.on_pruning(below_half_minimum),
    {
        if below_half_minimum {
            self.after_ghost_conversion()
        } else {
            self
        }
    }

    /// The state after a reactivation attempt, or `None` when it is refused:
    /// only a ghost whose source neuron was seen active again is reactivated.
    pub fn after_reactivation(self, source_seen: bool) -> (r: Option<SynapseState>)
        ensures
            r == self.on_reactivation(source_seen),
    {
        if self == SynapseState::Ghosted && source_seen {
            Some(SynapseState::Active)
        } else {
            None
        }
    }

    /// The state after the weight hit its floor while weakening.
    pub fn after_weight_floor(self) -> (r: SynapseState)
        ensures
            r == SynapseState::Weakened,
    {
        SynapseState::Weakened
    }

    /// Whether the synapse counts as a live connection.
    pub fn is_active(self) -> (r: bool)
        ensures
            r == (self == SynapseState::Active),
    {
        self == SynapseState::Active
    }
}

/// How many of `states` are active.
pub open spec fn active_count(states: Seq<SynapseState>) -> nat
    decreases states.len(),
{
    if states.len() == 0 {
        0
    } else {
        active_count(states.drop_last()) + if states.last() == SynapseState::Active {
            1nat
        } else {
            0nat
        }
    }
}

/// Counts the active synapses among `states`, recomputed from scratch.
pub fn count_active(states: &[SynapseState]) -> (r: usize)
    ensures
        r == active_count(states@),
{
    let mut n: usize = 0;
    let mut i: usize = 0;
    while i < states.len()
        invariant
            i <= states@.len(),
            n == active_count(states@.take(i as int)),
            n <= i,
        decreases states@.len() - i,
    {
        proof {
            assert(states@.take(i + 1).drop_last() =~= states@.take(i as int));
        }
        if states[i].is_active() {
            n += 1;
        }
        i += 1;
    }
    proof {
        assert(states@.take(i as int) =~= states@);
    }
    n
}

/// The synapse lifecycle for any state `s`: an active synapse silent for longer than the
/// inactivity threshold becomes weakened; a weakened synapse whose average
/// activity stays below half the minimum becomes a ghost in pruning; and a
/// ghost whose source neuron reappears is reactivated to active. Only a
/// ghost can be reactivated, only a weakened synapse becomes a ghost, and an
/// inactivity check neither makes nor ends a ghost.
pub proof fn lemma_synapse_lifecycle(s: SynapseState, silent: bool, low: bool, seen: bool)
    ensures
        SynapseState::Active.on_inactivity(true) == SynapseState::Weakened,
        SynapseState::Weakened.on_pruning(true) == SynapseState::Ghosted,
        SynapseState::Ghosted.on_reactivation(true) == Some(SynapseState::Active),
        s.on_reactivation(seen) is Some <==> (s == SynapseState::Ghosted && seen),
        s.on_pruning(low) == SynapseState::Ghosted ==> (s == SynapseState::Ghosted || (
        s == SynapseState::Weakened && low)),
        s.on_inactivity(silent) == SynapseState::Ghosted <==> s == SynapseState::Ghosted,
{
}

} // verus!
