use vstd::prelude::*;

verus! {

/// The five phases of a turn, in order.
#[derive(Debug, Clone, Copy, PartialEq, Eq, Structural)]
pub enum PhaseType {
    Beginning,
    /// The first main phase.
    Precombat,
    Combat,
    /// The second main phase.
    Postcombat,
    Ending,
}

/// The steps within the phases that have steps.
#[derive(Debug, Clone, Copy, PartialEq, Eq, Structural)]
pub enum StepType {
    Untap,
    Upkeep,
    Draw,
    BeginCombat,
    DeclareAttackers,
    DeclareBlockers,
    FirstStrikeDamage,
    CombatDamage,
    EndCombat,
    End,
    Cleanup,
}

/// The phase that follows `current` in the fixed cyclic turn order.
pub open spec fn spec_next_phase_type(current: PhaseType) -> PhaseType {
    match current {
        PhaseType::Beginning => PhaseType::Precombat,
        PhaseType::Precombat => PhaseType::Combat,
        PhaseType::Combat => PhaseType::Postcombat,
        PhaseType::Postcombat => PhaseType::Ending,
        PhaseType::Ending => PhaseType::Beginning,
    }
}

/// The first step of a phase; main phases have no steps.
pub open spec fn spec_first_step_of(phase_type: PhaseType) -> Option<StepType> {
    match phase_type {
        PhaseType::Beginning => Some(StepType::Untap),
        PhaseType::Combat => Some(StepType::BeginCombat),
        PhaseType::Ending => Some(StepType::End),
        _ => None,
    }
}

/// The step that follows `step` within `phase`, by the fixed step table;
/// `None` at the end of a phase or for a step foreign to the phase.
pub open spec fn spec_next_step_in(phase: PhaseType, step: StepType) -> Option<StepType> {
    match (phase, step) {
        (PhaseType::Beginning, StepType::Untap) => Some(StepType::Upkeep),
        (PhaseType::Beginning, StepType::Upkeep) => Some(StepType::Draw),
        (PhaseType::Beginning, StepType::Draw) => None,
        (PhaseType::Combat, StepType::BeginCombat) => Some(StepType::DeclareAttackers),
        (PhaseType::Combat, StepType::DeclareAttackers) => Some(StepType::DeclareBlockers),
        (PhaseType::Combat, StepType::DeclareBlockers) => Some(StepType::FirstStrikeDamage),
        (PhaseType::Combat, StepType::FirstStrikeDamage) => Some(StepType::CombatDamage),
        (PhaseType::Combat, StepType::CombatDamage) => Some(StepType::EndCombat),
        (PhaseType::Combat, StepType::EndCombat) => None,
        (PhaseType::Ending, StepType::End) => Some(StepType::Cleanup),
        (PhaseType::Ending, StepType::Cleanup) => None,
        _ => None,
    }
}

/// The phase that follows `current` in the normal turn sequence.
pub fn next_phase_type(current: &PhaseType) -> (r: PhaseType)
    ensures
        r == spec_next_phase_type(*current),
{
    match current {
        PhaseType::Beginning => PhaseType::Precombat,
        PhaseType::Precombat => PhaseType::Combat,
        PhaseType::Combat => PhaseType::Postcombat,
        PhaseType::Postcombat => PhaseType::Ending,
        PhaseType::Ending => PhaseType::Beginning,
    }
}

impl StepType {
    /// A display name for the step.
    pub fn name(&self) -> (r: &'static str)
        ensures
            r@ == self.spec_name(),
    {
        match self {
            StepType::Untap => "Untap Step",
            StepType::Upkeep => "Upkeep Step",
            StepType::Draw => "Draw Step",
            StepType::BeginCombat => "Beginning of Combat Step",
            StepType::DeclareAttackers => "Declare Attackers Step",
            StepType::DeclareBlockers => "Declare Blockers Step",
            StepType::FirstStrikeDamage => "First Strike Combat Damage Step",
            StepType::CombatDamage => "Combat Damage Step",
            StepType::EndCombat => "End of Combat Step",
            StepType::End => "End Step",
            StepType::Cleanup => "Cleanup Step",
        }
    }

    /// The display name of the step.
    pub open spec fn spec_name(self) -> Seq<char> {
        match self {
            StepType::Untap => "Untap Step"@,
            StepType::Upkeep => "Upkeep Step"@,
            StepType::Draw => "Draw Step"@,
            StepType::BeginCombat => "Beginning of Combat Step"@,
            StepType::DeclareAttackers => "Declare Attackers Step"@,
            StepType::DeclareBlockers => "Declare Blockers Step"@,
            StepType::FirstStrikeDamage => "First Strike Combat Damage Step"@,
            StepType::CombatDamage => "Combat Damage Step"@,
            StepType::EndCombat => "End of Combat Step"@,
            StepType::End => "End Step"@,
            StepType::Cleanup => "Cleanup Step"@,
        }
    }

    /// Whether players receive priority during this step. No player does
    /// during the untap step, and normally none does during cleanup.
    pub fn players_receive_priority(&self) -> (r: bool)
        ensures
            r == (*self != StepType::Untap && *self != StepType::Cleanup),
    {
        match self {
            StepType::Untap => false,
            StepType::Cleanup => false,
            _ => true,
        }
    }
}

/// A step within a phase, with a completion flag to ease transitions.
#[derive(Debug, Clone, Copy, PartialEq, Eq, Structural)]
pub struct Step {
    pub step_type: StepType,
    pub is_completed: bool,
}

impl Step {
    /// A fresh, not-yet-completed step.
    pub fn new(step_type: StepType) -> (r: Self)
        ensures
            r == (Step { step_type, is_completed: false }),
    {
        Step { step_type, is_completed: false }
    }
}

/// A phase of the turn, with its current step where the phase has steps.
#[derive(Debug, Clone, Copy)]
pub struct Phase {
    pub phase_type: PhaseType,
    /// Only Beginning, Combat and Ending phases have steps.
    pub current_step: Option<Step>,
    /// Whether the phase is ready to be transitioned away from.
    pub is_completed: bool,
}

/// The phase value `Phase::new` constructs for a phase type.
pub open spec fn spec_new_phase(phase_type: PhaseType) -> Phase {
    Phase {
        phase_type,
        current_step: match spec_first_step_of(phase_type) {
            Some(st) => Some(Step { step_type: st, is_completed: false }),
            None => None,
        },
        is_completed: false,
    }
}

impl Phase {
    /// A fresh phase, positioned at its first step if it has steps.
    pub fn new(phase_type: PhaseType) -> (r: Self)
        ensures
            r == spec_new_phase(phase_type),
    {
        let current_step = match phase_type {
            PhaseType::Beginning => Some(Step::new(StepType::Untap)),
            PhaseType::Combat => Some(Step::new(StepType::BeginCombat)),
            PhaseType::Ending => Some(Step::new(StepType::End)),
            _ => None,
        };
        Phase { phase_type, current_step, is_completed: false }
    }

    /// Advance to the next step within this phase.
    ///
    /// Returns true and installs the next fresh step when the step table
    /// has one; otherwise marks the phase completed and returns false,
    /// leaving the final step in place marked completed.
    pub fn next_step(&mut self) -> (r: bool)
        ensures
            match old(self).current_step {
                None => {
                    &&& r == false
                    &&& *final(self) == (Phase {
                        phase_type: old(self).phase_type,
                        current_step: old(self).current_step,
                        is_completed: true,
                    })
                },
                Some(st) => match spec_next_step_in(old(self).phase_type, st.step_type) {
                    Some(next) => {
                        &&& r == true
                        &&& *final(self) == (Phase {
                            phase_type: old(self).phase_type,
                            current_step: Some(Step { step_type: next, is_completed: false }),
                            is_completed: old(self).is_completed,
                        })
                    },
                    None => {
                        &&& r == false
                        &&& *final(self) == (Phase {
                            phase_type: old(self).phase_type,
                            current_step: Some(
                                Step { step_type: st.step_type, is_completed: true },
                            ),
                            is_completed: true,
                        })
                    },
                },
            },
    {
        match &mut self.current_step {
            Some(step) => {
                // The current step ends, whether or not another follows.
                step.is_completed = true;
                let next_step_type = match (self.phase_type, step.step_type) {
                    (PhaseType::Beginning, StepType::Untap) => Some(StepType::Upkeep),
                    (PhaseType::Beginning, StepType::Upkeep) => Some(StepType::Draw),
                    (PhaseType::Beginning, StepType::Draw) => None,
                    (PhaseType::Combat, StepType::BeginCombat) => Some(StepType::DeclareAttackers),
                    (PhaseType::Combat, StepType::DeclareAttackers) => Some(
                        StepType::DeclareBlockers,
                    ),
                    (PhaseType::Combat, StepType::DeclareBlockers) => Some(
                        StepType::FirstStrikeDamage,
                    ),
                    (PhaseType::Combat, StepType::FirstStrikeDamage) => Some(StepType::CombatDamage),
                    (PhaseType::Combat, StepType::CombatDamage) => Some(StepType::EndCombat),
                    (PhaseType::Combat, StepType::EndCombat) => None,
                    (PhaseType::Ending, StepType::End) => Some(StepType::Cleanup),
                    (PhaseType::Ending, StepType::Cleanup) => None,
                    _ => None,
                };
                match next_step_type {
                    Some(step_type) => {
                        self.current_step = Some(Step::new(step_type));
                        true
                    },
                    None => {
                        self.is_completed = true;
                        false
                    },
                }
            },
            None => {
                self.is_completed = true;
                false
            },
        }
    }

    /// Whether this phase still positions a current step.
    pub fn has_steps(&self) -> (r: bool)
        ensures
            r == (self.current_step is Some),
    {
        self.current_step.is_some()
    }

    /// The display name of the current step, if any.
    pub fn current_step_name(&self) -> (r: Option<&'static str>)
        ensures
            match self.current_step {
                Some(st) => r matches Some(name) && name@ == st.step_type.spec_name(),
                None => r is None,
            },
    {
        match &self.current_step {
            Some(step) => Some(step.step_type.name()),
            None => None,
        }
    }
}

} // verus!
