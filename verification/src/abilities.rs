use vstd::prelude::*;
use crate::costs::Cost;
use crate::ids::{ObjectId, PlayerId, fresh_object_id};
use crate::mana::ManaType;
use crate::targeting::{TargetingRequirement, req_eq};

verus! {

/// The kinds of abilities a card can carry.
#[derive(Debug, Clone, Copy, PartialEq, Eq, Structural)]
pub enum AbilityType {
    Mana,
    Activated,
    Triggered,
    Static,
    Spell,
}

/// Conditions for conditional effects; none are supported yet.
#[derive(Debug, Clone, Copy, PartialEq, Eq, Structural)]
pub enum Condition {
    Unsupported,
}

/// What an effect does when it resolves.
#[derive(Debug, PartialEq)]
pub enum EffectDetails {
    /// A multi-step effect, processed in order.
    Sequence(Vec<EffectDetails>),
    /// An effect that branches on a condition.
    Conditional { condition: Condition, if_true: Box<EffectDetails>, if_false: Option<
        Box<EffectDetails>,
    > },
    /// A mana ability's production, as amounts per mana type.
    ProduceMana { mana_produced: Vec<(ManaType, u64)> },
    /// Deal `amount` damage to each chosen target.
    DealDamage { amount: u64, target_requirement: Option<TargetingRequirement> },
}

/// Structural equality of effects: same shape, same leaves.
/// This is the equality that a deep copy preserves.
pub open spec fn effect_eq(a: EffectDetails, b: EffectDetails) -> bool
    decreases a,
{
    match (a, b) {
        (EffectDetails::Sequence(v1), EffectDetails::Sequence(v2)) => v1@.len() == v2@.len() && (
        forall|i: int| 0 <= i < v1@.len() ==> effect_eq(#[trigger] v1@[i], v2@[i])),
        (
            EffectDetails::Conditional { condition: c1, if_true: t1, if_false: f1 },
            EffectDetails::Conditional { condition: c2, if_true: t2, if_false: f2 },
        ) => c1 == c2 && effect_eq(*t1, *t2) && (match (f1, f2) {
            (Some(x), Some(y)) => effect_eq(*x, *y),
            (None, None) => true,
            _ => false,
        }),
        (
            EffectDetails::ProduceMana { mana_produced: m1 },
            EffectDetails::ProduceMana { mana_produced: m2 },
        ) => m1@ == m2@,
        (
            EffectDetails::DealDamage { amount: a1, target_requirement: t1 },
            EffectDetails::DealDamage { amount: a2, target_requirement: t2 },
        ) => a1 == a2 && (match (t1, t2) {
            (Some(x), Some(y)) => req_eq(x, y),
            (None, None) => true,
            _ => false,
        }),
        _ => false,
    }
}

/// Copies a list of mana amounts exactly.
pub fn copy_mana_amounts(v: &Vec<(ManaType, u64)>) -> (r: Vec<(ManaType, u64)>)
    ensures
        r@ == v@,
{
    let n = v.len();
    let mut r: Vec<(ManaType, u64)> = Vec::new();
    let mut i: usize = 0;
    while i < n
        invariant
            n == v@.len(),
            i <= n,
            r@ =~= v@.take(i as int),
        decreases n - i,
    {
        r.push(v[i]);
        i = i + 1;
    }
    proof {
        assert(v@.take(n as int) =~= v@);
    }
    r
}

/// Copies a list of costs exactly.
pub fn copy_costs(v: &Vec<Cost>) -> (r: Vec<Cost>)
    ensures
        r@ == v@,
{
    let n = v.len();
    let mut r: Vec<Cost> = Vec::new();
    let mut i: usize = 0;
    while i < n
        invariant
            n == v@.len(),
            i <= n,
            r@ =~= v@.take(i as int),
        decreases n - i,
    {
        r.push(v[i]);
        i = i + 1;
    }
    proof {
        assert(v@.take(n as int) =~= v@);
    }
    r
}

impl Clone for EffectDetails {
    /// A deep structural copy.
    #[verifier::loop_isolation(false)]
    fn clone(&self) -> (r: Self)
        ensures
            effect_eq(r, *self),
        decreases self,
    {
        broadcast use vstd::std_specs::vec::axiom_vec_index_decreases;

        match self {
            EffectDetails::Sequence(effs) => {
                let mut out: Vec<EffectDetails> = Vec::new();
                let n = effs.len();
                let mut i: usize = 0;
                while i < n
                    invariant
                        n == effs@.len(),
                        i <= n,
                        out@.len() == i,
                        forall|j: int| 0 <= j < i ==> effect_eq(#[trigger] out@[j], effs@[j]),
                        *self == EffectDetails::Sequence(*effs),
                    decreases n - i,
                {
                    proof {
                        assert(decreases_to!(*self => *effs));
                        assert(decreases_to!(*effs => effs[i as int]));
                    }
                    out.push(effs[i].clone());
                    i = i + 1;
                }
                EffectDetails::Sequence(out)
            },
            EffectDetails::Conditional { condition, if_true, if_false } => {
                let new_false = match if_false {
                    Some(b) => Some(Box::new((&**b).clone())),
                    None => None,
                };
                EffectDetails::Conditional {
                    condition: *condition,
                    if_true: Box::new((&**if_true).clone()),
                    if_false: new_false,
                }
            },
            EffectDetails::ProduceMana { mana_produced } => EffectDetails::ProduceMana {
                mana_produced: copy_mana_amounts(mana_produced),
            },
            EffectDetails::DealDamage { amount, target_requirement } => {
                let new_req = match target_requirement {
                    Some(req) => Some(req.clone()),
                    None => None,
                };
                EffectDetails::DealDamage { amount: *amount, target_requirement: new_req }
            },
        }
    }
}

/// Static, immutable per-card ability data. Not a game object; referenced
/// by a card's characteristics and instantiated on the stack only when
/// activated or triggered.
#[derive(Debug, PartialEq)]
pub struct AbilityDefinition {
    pub id: ObjectId,
    pub ability_type: AbilityType,
    pub costs: Vec<Cost>,
    pub effect_details: EffectDetails,
}

/// Structural equality of ability definitions.
pub open spec fn ability_eq(a: AbilityDefinition, b: AbilityDefinition) -> bool {
    &&& a.id == b.id
    &&& a.ability_type == b.ability_type
    &&& a.costs@ == b.costs@
    &&& effect_eq(a.effect_details, b.effect_details)
}

impl Clone for AbilityDefinition {
    /// A deep structural copy.
    fn clone(&self) -> (r: Self)
        ensures
            ability_eq(r, *self),
    {
        AbilityDefinition {
            id: self.id,
            ability_type: self.ability_type,
            costs: copy_costs(&self.costs),
            effect_details: self.effect_details.clone(),
        }
    }
}

impl AbilityDefinition {
    /// A mana ability that taps its permanent for `amount` mana of
    /// `mana_type`.
    pub fn tap_for_mana(mana_type: ManaType, amount: u64) -> (r: Self)
        ensures
            r.ability_type == AbilityType::Mana,
            r.costs@ =~= seq![Cost::Tap],
            r.effect_details matches EffectDetails::ProduceMana { mana_produced }
                && mana_produced@ =~= seq![(mana_type, amount)],
    {
        let mut mana_list: Vec<(ManaType, u64)> = Vec::new();
        mana_list.push((mana_type, amount));

        let mut cost_vec: Vec<Cost> = Vec::new();
        cost_vec.push(Cost::Tap);

        AbilityDefinition {
            id: fresh_object_id(),
            ability_type: AbilityType::Mana,
            costs: cost_vec,
            effect_details: EffectDetails::ProduceMana { mana_produced: mana_list },
        }
    }
}

/// An activated or triggered ability while it waits on the stack.
#[derive(Debug, Clone)]
pub struct AbilityOnStack {
    pub id: ObjectId,
    /// The object whose ability this is.
    pub source_id: ObjectId,
    pub controller_id: PlayerId,
    pub effect_details: EffectDetails,
}

} // verus!
