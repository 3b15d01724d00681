use vstd::prelude::*;
use crate::abilities::{AbilityDefinition, AbilityType, EffectDetails};
use crate::card_types::CardType;
use crate::errors::GameError;
use crate::events::GameEvent;
use crate::game::Game;
use crate::game_events::damage_dealt_rel;
use crate::ids::{ObjectId, PlayerId};
use crate::obj_lookup::{find_idx_by_id, first_idx_by_id};
use crate::targeting::{
    TargetCategory, TargetCriteria, TargetRef, TargetRefId, TargetingRequirement, req_eq,
};

verus! {

broadcast use vstd::seq::axiom_seq_index_decreases, vstd::std_specs::vec::axiom_vec_index_decreases,
    vstd::std_specs::vec::axiom_vec_decreases_to_view;

/// Whether a single target satisfies a criteria tree against the live
/// game state. References are resolved by lookup in the relevant zone;
/// a reference whose object is gone simply fails.
pub open spec fn criteria_sat(
    g: Game,
    criteria: TargetCriteria,
    target: TargetRef,
    controller_id: PlayerId,
) -> bool
    decreases criteria,
{
    match criteria {
        TargetCriteria::CardType(card_type, zone) => {
            match target.ref_id {
                TargetRefId::Object(oid) => {
                    match zone {
                        crate::targeting::TargetZone::Battlefield => {
                            let bi = first_idx_by_id(g.battlefield@, oid);
                            bi >= 0 && g.battlefield@[bi].spec_has_card_type(card_type)
                        },
                        crate::targeting::TargetZone::Stack => {
                            let si = first_idx_by_id(g.stack@, oid);
                            si >= 0 && g.stack@[si].spec_has_card_type(card_type)
                        },
                        crate::targeting::TargetZone::Exile => {
                            let ei = first_idx_by_id(g.exile@, oid);
                            ei >= 0 && g.exile@[ei].spec_has_card_type(card_type)
                        },
                        _ => false,
                    }
                },
                TargetRefId::Player(_) => false,
            }
        },
        TargetCriteria::Category(category) => {
            match category {
                TargetCategory::Player => target.ref_id is Player,
                TargetCategory::Opponent => {
                    match target.ref_id {
                        TargetRefId::Player(pid) => pid != controller_id,
                        TargetRefId::Object(_) => false,
                    }
                },
                TargetCategory::AnyDamageable => {
                    match target.ref_id {
                        TargetRefId::Player(_) => true,
                        TargetRefId::Object(oid) => {
                            let bi = first_idx_by_id(g.battlefield@, oid);
                            bi >= 0 && (g.battlefield@[bi].spec_has_card_type(CardType::Creature)
                                || g.battlefield@[bi].spec_has_card_type(CardType::Planeswalker)
                                || g.battlefield@[bi].spec_has_card_type(CardType::Battle))
                        },
                    }
                },
                TargetCategory::Permanent => {
                    match target.ref_id {
                        TargetRefId::Object(oid) => first_idx_by_id(g.battlefield@, oid) >= 0,
                        TargetRefId::Player(_) => false,
                    }
                },
            }
        },
        TargetCriteria::And(cs) => forall|i: int|
            0 <= i < cs@.len() ==> criteria_sat(g, #[trigger] cs@[i], target, controller_id),
        TargetCriteria::Or(cs) => exists|i: int|
            0 <= i < cs@.len() && criteria_sat(g, #[trigger] cs@[i], target, controller_id),
        TargetCriteria::Not(c) => !criteria_sat(g, *c, target, controller_id),
        // The remaining criteria kinds are placeholders and match nothing
        // yet, mirroring the scope of the rules engine.
        _ => false,
    }
}

impl TargetCriteria {
    /// Evaluate a single target against this criteria tree.
    #[verifier::loop_isolation(false)]
    pub fn is_satisfied_by(&self, game: &Game, target: &TargetRef, controller_id: PlayerId) -> (r:
        bool)
        ensures
            r == criteria_sat(*game, *self, *target, controller_id),
        decreases self,
    {
        match self {
            TargetCriteria::CardType(card_type, zone) => {
                match target.ref_id {
                    TargetRefId::Object(oid) => {
                        match zone {
                            crate::targeting::TargetZone::Battlefield => {
                                match find_idx_by_id(&game.battlefield, oid) {
                                    Some(i) => game.battlefield[i].has_card_type(card_type),
                                    None => false,
                                }
                            },
                            crate::targeting::TargetZone::Stack => {
                                match find_idx_by_id(&game.stack, oid) {
                                    Some(i) => game.stack[i].has_card_type(card_type),
                                    None => false,
                                }
                            },
                            crate::targeting::TargetZone::Exile => {
                                match find_idx_by_id(&game.exile, oid) {
                                    Some(i) => game.exile[i].has_card_type(card_type),
                                    None => false,
                                }
                            },
                            _ => false,
                        }
                    },
                    TargetRefId::Player(_) => false,
                }
            },
            TargetCriteria::Category(category) => {
                match category {
                    TargetCategory::Player => matches!(target.ref_id, TargetRefId::Player(_)),
                    TargetCategory::Opponent => {
                        match target.ref_id {
                            TargetRefId::Player(pid) => pid != controller_id,
                            TargetRefId::Object(_) => false,
                        }
                    },
                    TargetCategory::AnyDamageable => {
                        match target.ref_id {
                            TargetRefId::Player(_) => true,
                            TargetRefId::Object(oid) => {
                                match find_idx_by_id(&game.battlefield, oid) {
                                    Some(i) => {
                                        game.battlefield[i].has_card_type(&CardType::Creature)
                                            || game.battlefield[i].has_card_type(
                                            &CardType::Planeswalker,
                                        ) || game.battlefield[i].has_card_type(&CardType::Battle)
                                    },
                                    None => false,
                                }
                            },
                        }
                    },
                    TargetCategory::Permanent => {
                        match target.ref_id {
                            TargetRefId::Object(oid) => {
                                find_idx_by_id(&game.battlefield, oid).is_some()
                            },
                            TargetRefId::Player(_) => false,
                        }
                    },
                }
            },
            TargetCriteria::And(cs) => {
                let n = cs.len();
                let mut i: usize = 0;
                while i < n
                    invariant
                        n == cs@.len(),
                        i <= n,
                        forall|j: int|
                            0 <= j < i ==> criteria_sat(
                                *game,
                                #[trigger] cs@[j],
                                *target,
                                controller_id,
                            ),
                        *self == TargetCriteria::And(*cs),
                    decreases n - i,
                {
                    proof {
                        assert(decreases_to!(*self => *cs));
                        assert(decreases_to!(*cs => cs[i as int]));
                    }
                    if !cs[i].is_satisfied_by(game, target, controller_id) {
                        return false;
                    }
                    i = i + 1;
                }
                true
            },
            TargetCriteria::Or(cs) => {
                let n = cs.len();
                let mut i: usize = 0;
                while i < n
                    invariant
                        n == cs@.len(),
                        i <= n,
                        forall|j: int|
                            0 <= j < i ==> !criteria_sat(
                                *game,
                                #[trigger] cs@[j],
                                *target,
                                controller_id,
                            ),
                        *self == TargetCriteria::Or(*cs),
                    decreases n - i,
                {
                    proof {
                        assert(decreases_to!(*self => *cs));
                        assert(decreases_to!(*cs => cs[i as int]));
                    }
                    if cs[i].is_satisfied_by(game, target, controller_id) {
                        return true;
                    }
                    i = i + 1;
                }
                false
            },
            TargetCriteria::Not(c) => !(&**c).is_satisfied_by(game, target, controller_id),
            _ => false,
        }
    }
}

/// Whether a list of targets fulfils one targeting requirement: the count
/// is within bounds and every target satisfies the criteria.
pub open spec fn req_targets_ok(
    g: Game,
    req: TargetingRequirement,
    targets: Seq<TargetRef>,
    controller_id: PlayerId,
) -> bool {
    &&& req.min_targets <= targets.len()
    &&& targets.len() <= req.max_targets
    &&& forall|i: int|
        0 <= i < targets.len() ==> criteria_sat(g, req.criteria, #[trigger] targets[i], controller_id)
}

impl TargetingRequirement {
    /// Whether `targets` fulfils this requirement against the live game.
    pub fn validate_targets(&self, game: &Game, targets: &Vec<TargetRef>, controller_id: PlayerId)
        -> (r: bool)
        ensures
            r == req_targets_ok(*game, *self, targets@, controller_id),
    {
        let n = targets.len();
        if n < self.min_targets as usize || n > self.max_targets as usize {
            return false;
        }
        let mut i: usize = 0;
        while i < n
            invariant
                n == targets@.len(),
                i <= n,
                forall|j: int|
                    0 <= j < i ==> criteria_sat(
                        *game,
                        self.criteria,
                        #[trigger] targets@[j],
                        controller_id,
                    ),
            decreases n - i,
        {
            if !self.criteria.is_satisfied_by(game, &targets[i], controller_id) {
                return false;
            }
            i = i + 1;
        }
        true
    }
}

/// Validation of a spell effect's targets: a damage effect with a
/// requirement checks bounds and criteria; effects without requirements
/// accept only an empty target list. Conditional effects can carry
/// several independent target groups, which is out of scope and reported
/// as unsupported rather than guessed at.
pub open spec fn spell_targets_check(
    g: Game,
    effect: EffectDetails,
    targets: Seq<TargetRef>,
    caster: PlayerId,
) -> Result<bool, GameError> {
    match effect {
        EffectDetails::DealDamage { target_requirement, .. } => {
            match target_requirement {
                Some(req) => Ok(req_targets_ok(g, req, targets, caster)),
                None => Ok(targets.len() == 0),
            }
        },
        EffectDetails::Conditional { .. } => Err(GameError::MultipleRequirementsUnsupported),
        _ => Ok(targets.len() == 0),
    }
}

/// Validation across a card's abilities: every spell-typed ability's
/// effect must accept the targets; the first unsupported shape stops the
/// check.
pub open spec fn spell_abilities_check(
    g: Game,
    abs: Seq<AbilityDefinition>,
    targets: Seq<TargetRef>,
    caster: PlayerId,
) -> Result<bool, GameError>
    decreases abs.len(),
{
    if abs.len() == 0 {
        Ok(true)
    } else if abs[0].ability_type != AbilityType::Spell {
        spell_abilities_check(g, abs.drop_first(), targets, caster)
    } else {
        match spell_targets_check(g, abs[0].effect_details, targets, caster) {
            Err(e) => Err(e),
            Ok(false) => Ok(false),
            Ok(true) => spell_abilities_check(g, abs.drop_first(), targets, caster),
        }
    }
}

/// Whether an effect, when processed, dispatches damage (and so needs a
/// source object).
pub open spec fn effect_needs_source(effect: EffectDetails) -> bool
    decreases effect,
{
    match effect {
        EffectDetails::DealDamage { .. } => true,
        EffectDetails::Sequence(effs) => exists|i: int|
            0 <= i < effs@.len() && effect_needs_source(#[trigger] effs@[i]),
        _ => false,
    }
}

/// Damage dealt to each target in order; the first failing target stops
/// the run with the earlier damage applied.
pub open spec fn damage_targets_chain(
    pre: Game,
    post: Game,
    targets: Seq<TargetRef>,
    amount: u64,
    r: Result<(), GameError>,
) -> bool
    decreases targets.len(),
{
    if targets.len() == 0 {
        post == pre && r is Ok
    } else {
        exists|mid: Game, r0: Result<(), GameError>|
            {
                &&& #[trigger] damage_dealt_rel(pre, mid, targets[0], amount, r0)
                &&& if r0 is Err {
                    post == mid && r == r0
                } else {
                    damage_targets_chain(mid, post, targets.drop_first(), amount, r)
                }
            }
    }
}

/// What processing a single, non-sequence effect does. A damage effect
/// requires targets and deals its amount to each in order through the
/// two-stage damage protocol. Anything else is a typed unsupported result
/// rather than a guess.
pub open spec fn flat_effect_rel(
    pre: Game,
    post: Game,
    effect: EffectDetails,
    targets: Seq<TargetRef>,
    r: Result<(), GameError>,
) -> bool {
    match effect {
        EffectDetails::DealDamage { amount, .. } => {
            if targets.len() == 0 {
                r == Err::<(), GameError>(GameError::DamageNeedsTarget) && post == pre
            } else {
                damage_targets_chain(pre, post, targets, amount, r)
            }
        },
        _ => r == Err::<(), GameError>(GameError::UnsupportedEffect) && post == pre,
    }
}

/// The number of nodes in an effect tree.
pub open spec fn effect_size(e: EffectDetails) -> nat
    decreases e,
{
    match e {
        EffectDetails::Sequence(effs) => 1 + effects_size(effs@),
        _ => 1,
    }
}

/// The total number of nodes over a list of effect trees.
pub open spec fn effects_size(effs: Seq<EffectDetails>) -> nat
    decreases effs,
{
    if effs.len() == 0 {
        0
    } else {
        effect_size(effs[0]) + effects_size(effs.drop_first())
    }
}

/// Node counts add up over concatenation.
pub proof fn lemma_effects_size_concat(a: Seq<EffectDetails>, b: Seq<EffectDetails>)
    ensures
        effects_size(a + b) == effects_size(a) + effects_size(b),
    decreases a.len(),
{
    if a.len() == 0 {
        assert(a + b =~= b);
    } else {
        assert((a + b).drop_first() =~= a.drop_first() + b);
        assert((a + b)[0] == a[0]);
        assert((a + b).len() == a.len() + b.len());
        lemma_effects_size_concat(a.drop_first(), b);
    }
}

/// Sequential processing of a work list of effects: a sequence at the
/// front unfolds into its parts, a single step is processed, and the
/// first failing step stops the run with its error and state.
pub open spec fn effects_worklist_rel(
    pre: Game,
    post: Game,
    work: Seq<EffectDetails>,
    targets: Seq<TargetRef>,
    r: Result<(), GameError>,
) -> bool
    decreases effects_size(work),
    via check_worklist_decreases
{
    if work.len() == 0 {
        post == pre && r is Ok
    } else {
        match work[0] {
            EffectDetails::Sequence(inner) => effects_worklist_rel(
                pre,
                post,
                inner@ + work.drop_first(),
                targets,
                r,
            ),
            _ => exists|mid: Game, r0: Result<(), GameError>|
                {
                    &&& #[trigger] flat_effect_rel(pre, mid, work[0], targets, r0)
                    &&& if r0 is Err {
                        post == mid && r == r0
                    } else {
                        effects_worklist_rel(mid, post, work.drop_first(), targets, r)
                    }
                },
        }
    }
}

#[via_fn]
proof fn check_worklist_decreases(
    pre: Game,
    post: Game,
    work: Seq<EffectDetails>,
    targets: Seq<TargetRef>,
    r: Result<(), GameError>,
) {
    if work.len() > 0 {
        assert(effects_size(work) == effect_size(work[0]) + effects_size(work.drop_first()));
        match work[0] {
            EffectDetails::Sequence(inner) => {
                lemma_effects_size_concat(inner@, work.drop_first());
            },
            _ => {},
        }
    }
}

/// What processing an effect does: one step of damage dealing, or a
/// sequence of steps — possibly nested sequences — processed in order.
pub open spec fn effect_rel(
    pre: Game,
    post: Game,
    effect: EffectDetails,
    targets: Seq<TargetRef>,
    r: Result<(), GameError>,
) -> bool {
    match effect {
        EffectDetails::Sequence(effs) => effects_worklist_rel(pre, post, effs@, targets, r),
        _ => flat_effect_rel(pre, post, effect, targets, r),
    }
}

/// Extending an all-successful damage chain by one more target.
pub proof fn lemma_damage_chain_snoc(
    pre: Game,
    mid: Game,
    post: Game,
    targets: Seq<TargetRef>,
    x: TargetRef,
    amount: u64,
    r: Result<(), GameError>,
)
    requires
        damage_targets_chain(pre, mid, targets, amount, Ok(())),
        damage_dealt_rel(mid, post, x, amount, r),
    ensures
        damage_targets_chain(pre, post, targets.push(x), amount, if r is Err {
            r
        } else {
            Ok(())
        }),
    decreases targets.len(),
{
    let full = targets.push(x);
    assert(full.len() == targets.len() + 1);
    if targets.len() == 0 {
        assert(mid == pre);
        assert(full[0] == x);
        assert(full.drop_first() =~= Seq::<TargetRef>::empty());
        assert(damage_dealt_rel(pre, post, full[0], amount, r));
        if !(r is Err) {
            assert(damage_targets_chain(post, post, full.drop_first(), amount, Ok::<
                (),
                GameError,
            >(())));
        }
    } else {
        let (m0, r0): (Game, Result<(), GameError>) = choose|m0: Game, r0: Result<(), GameError>|
            #[trigger] damage_dealt_rel(pre, m0, targets[0], amount, r0) && if r0 is Err {
                mid == m0 && Ok::<(), GameError>(()) == r0
            } else {
                damage_targets_chain(m0, mid, targets.drop_first(), amount, Ok(()))
            };
        assert(r0 is Ok);
        assert(full[0] == targets[0]);
        assert(full.drop_first() =~= targets.drop_first().push(x));
        lemma_damage_chain_snoc(m0, mid, post, targets.drop_first(), x, amount, r);
        assert(damage_dealt_rel(pre, m0, full[0], amount, r0));
    }
}

/// A damage chain that went through `k` successful targets and then
/// failed covers the whole list.
pub proof fn lemma_damage_chain_err(
    pre: Game,
    mid: Game,
    post: Game,
    targets: Seq<TargetRef>,
    k: int,
    amount: u64,
    r: Result<(), GameError>,
)
    requires
        0 <= k < targets.len(),
        damage_targets_chain(pre, mid, targets.take(k), amount, Ok(())),
        damage_dealt_rel(mid, post, targets[k], amount, r),
        r is Err,
    ensures
        damage_targets_chain(pre, post, targets, amount, r),
    decreases k,
{
    if k == 0 {
        assert(targets.take(0) =~= Seq::<TargetRef>::empty());
        assert(mid == pre);
    } else {
        let tk = targets.take(k);
        assert(tk[0] == targets[0]);
        let (m0, r0): (Game, Result<(), GameError>) = choose|m0: Game, r0: Result<(), GameError>|
            #[trigger] damage_dealt_rel(pre, m0, tk[0], amount, r0) && if r0 is Err {
                mid == m0 && Ok::<(), GameError>(()) == r0
            } else {
                damage_targets_chain(m0, mid, tk.drop_first(), amount, Ok(()))
            };
        assert(r0 is Ok);
        assert(tk.drop_first() =~= targets.drop_first().take(k - 1));
        assert(targets.drop_first()[k - 1] == targets[k]);
        lemma_damage_chain_err(m0, mid, post, targets.drop_first(), k - 1, amount, r);
        assert(damage_dealt_rel(pre, m0, targets[0], amount, r0));
    }
}

/// Processing one effect is the one-element work list.
pub proof fn lemma_worklist_single(
    pre: Game,
    post: Game,
    e: EffectDetails,
    targets: Seq<TargetRef>,
    r: Result<(), GameError>,
)
    requires
        effect_rel(pre, post, e, targets, r),
    ensures
        effects_worklist_rel(pre, post, seq![e], targets, r),
{
    let w = seq![e];
    assert(w.len() == 1);
    assert(w[0] == e);
    assert(w.drop_first() =~= Seq::<EffectDetails>::empty());
    match e {
        EffectDetails::Sequence(inner) => {
            assert(inner@ + w.drop_first() =~= inner@);
        },
        _ => {
            assert(flat_effect_rel(pre, post, w[0], targets, r));
            if !(r is Err) {
                assert(effects_worklist_rel(post, post, w.drop_first(), targets, r));
            }
        },
    }
}

/// A successful work-list run followed by another run covers their
/// concatenation.
pub proof fn lemma_worklist_concat(
    pre: Game,
    mid: Game,
    post: Game,
    a: Seq<EffectDetails>,
    b: Seq<EffectDetails>,
    targets: Seq<TargetRef>,
    r: Result<(), GameError>,
)
    requires
        effects_worklist_rel(pre, mid, a, targets, Ok(())),
        effects_worklist_rel(mid, post, b, targets, r),
    ensures
        effects_worklist_rel(pre, post, a + b, targets, r),
    decreases effects_size(a),
{
    if a.len() == 0 {
        assert(mid == pre);
        assert(a + b =~= b);
    } else {
        assert(effects_size(a) == effect_size(a[0]) + effects_size(a.drop_first()));
        assert((a + b)[0] == a[0]);
        assert((a + b).drop_first() =~= a.drop_first() + b);
        match a[0] {
            EffectDetails::Sequence(inner) => {
                lemma_effects_size_concat(inner@, a.drop_first());
                lemma_worklist_concat(pre, mid, post, inner@ + a.drop_first(), b, targets, r);
                assert((inner@ + a.drop_first()) + b =~= inner@ + (a.drop_first() + b));
            },
            _ => {
                let (m0, r0): (Game, Result<(), GameError>) = choose|
                    m0: Game,
                    r0: Result<(), GameError>,
                |
                    #[trigger] flat_effect_rel(pre, m0, a[0], targets, r0) && if r0 is Err {
                        mid == m0 && Ok::<(), GameError>(()) == r0
                    } else {
                        effects_worklist_rel(m0, mid, a.drop_first(), targets, Ok(()))
                    };
                assert(r0 is Ok);
                lemma_worklist_concat(m0, mid, post, a.drop_first(), b, targets, r);
                assert(flat_effect_rel(pre, m0, (a + b)[0], targets, r0));
            },
        }
    }
}

/// A failed work-list run also covers the same list with more work after
/// it: the failure stops the run either way.
pub proof fn lemma_worklist_err_extend(
    pre: Game,
    post: Game,
    a: Seq<EffectDetails>,
    b: Seq<EffectDetails>,
    targets: Seq<TargetRef>,
    r: Result<(), GameError>,
)
    requires
        effects_worklist_rel(pre, post, a, targets, r),
        r is Err,
    ensures
        effects_worklist_rel(pre, post, a + b, targets, r),
    decreases effects_size(a),
{
    assert(a.len() > 0);
    assert(effects_size(a) == effect_size(a[0]) + effects_size(a.drop_first()));
    assert((a + b)[0] == a[0]);
    assert((a + b).drop_first() =~= a.drop_first() + b);
    match a[0] {
        EffectDetails::Sequence(inner) => {
            lemma_effects_size_concat(inner@, a.drop_first());
            lemma_worklist_err_extend(pre, post, inner@ + a.drop_first(), b, targets, r);
            assert((inner@ + a.drop_first()) + b =~= inner@ + (a.drop_first() + b));
        },
        _ => {
            let (m0, r0): (Game, Result<(), GameError>) = choose|
                m0: Game,
                r0: Result<(), GameError>,
            |
                #[trigger] flat_effect_rel(pre, m0, a[0], targets, r0) && if r0 is Err {
                    post == m0 && r == r0
                } else {
                    effects_worklist_rel(m0, post, a.drop_first(), targets, r)
                };
            if r0 is Err {
                assert(flat_effect_rel(pre, m0, (a + b)[0], targets, r0));
            } else {
                lemma_worklist_err_extend(m0, post, a.drop_first(), b, targets, r);
                assert(flat_effect_rel(pre, m0, (a + b)[0], targets, r0));
            }
        },
    }
}

impl Game {
    /// Process an effect: deal its damage to each target in order, or
    /// process a sequence of effects — including nested sequences — in
    /// order. Unsupported effect kinds fail with a typed error.
    #[verifier::loop_isolation(false)]
    pub fn process_effect(
        &mut self,
        effect: &EffectDetails,
        targets: &Vec<TargetRef>,
        controller_id: PlayerId,
        source_id: Option<ObjectId>,
    ) -> (r: Result<(), GameError>)
        requires
            old(self).wf(),
            effect_needs_source(*effect) ==> source_id is Some,
        ensures
            final(self).wf(),
            final(self).players@.len() == old(self).players@.len(),
            effect_rel(*old(self), *final(self), *effect, targets@, r),
        decreases effect,
    {
        match effect {
            EffectDetails::Sequence(_) => {},
            _ => {
                return self.process_flat_effect(effect, targets, controller_id, source_id);
            },
        }
        match effect {
            EffectDetails::Sequence(effs) => {
                let n = effs.len();
                let mut k: usize = 0;
                let ghost pre = *old(self);
                proof {
                    assert(effs@.take(0) =~= Seq::<EffectDetails>::empty());
                }
                while k < n
                    invariant
                        self.wf(),
                        self.players@.len() == old(self).players@.len(),
                        n == effs@.len(),
                        k <= n,
                        effects_worklist_rel(pre, *self, effs@.take(k as int), targets@, Ok(())),
                    decreases n - k,
                {
                    proof {
                        assert(decreases_to!(*effect => *effs));
                        assert(decreases_to!(*effs => effs[k as int]));
                        if effect_needs_source(effs@[k as int]) {
                            assert(effect_needs_source(*effect));
                        }
                    }
                    let ghost before = *self;
                    let res = self.process_effect(&effs[k], targets, controller_id, source_id);
                    proof {
                        lemma_worklist_single(before, *self, effs@[k as int], targets@, res);
                        assert(effs@.take(k as int).push(effs@[k as int]) =~= effs@.take(
                            k as int,
                        ) + seq![effs@[k as int]]);
                        assert(effs@.take(k as int + 1) =~= effs@.take(k as int).push(
                            effs@[k as int],
                        ));
                    }
                    match res {
                        Ok(u) => {
                            proof {
                                assert(res == Ok::<(), GameError>(u));
                                assert(res == Ok::<(), GameError>(()));
                                lemma_worklist_concat(
                                    pre,
                                    before,
                                    *self,
                                    effs@.take(k as int),
                                    seq![effs@[k as int]],
                                    targets@,
                                    res,
                                );
                            }
                        },
                        Err(e) => {
                            proof {
                                lemma_worklist_concat(
                                    pre,
                                    before,
                                    *self,
                                    effs@.take(k as int),
                                    seq![effs@[k as int]],
                                    targets@,
                                    res,
                                );
                                lemma_worklist_err_extend(
                                    pre,
                                    *self,
                                    effs@.take(k as int + 1),
                                    effs@.skip(k as int + 1),
                                    targets@,
                                    res,
                                );
                                assert(effs@.take(k as int + 1) + effs@.skip(k as int + 1)
                                    =~= effs@);
                            }
                            return Err(e);
                        },
                    }
                    k = k + 1;
                }
                proof {
                    assert(effs@.take(n as int) =~= effs@);
                }
                Ok(())
            },
            _ => vstd::pervasive::unreached(),
        }
    }

    /// Process a single, non-sequence effect.
    #[verifier::loop_isolation(false)]
    fn process_flat_effect(
        &mut self,
        effect: &EffectDetails,
        targets: &Vec<TargetRef>,
        controller_id: PlayerId,
        source_id: Option<ObjectId>,
    ) -> (r: Result<(), GameError>)
        requires
            old(self).wf(),
            effect_needs_source(*effect) ==> source_id is Some,
        ensures
            final(self).wf(),
            final(self).players@.len() == old(self).players@.len(),
            flat_effect_rel(*old(self), *final(self), *effect, targets@, r),
    {
        match effect {
            EffectDetails::DealDamage { amount, target_requirement } => {
                if targets.len() == 0 {
                    return Err(GameError::DamageNeedsTarget);
                }
                let obj_id = match source_id {
                    Some(s) => s,
                    None => vstd::pervasive::unreached(),
                };
                let n = targets.len();
                let mut j: usize = 0;
                let ghost pre = *old(self);
                proof {
                    assert(targets@.take(0) =~= Seq::<TargetRef>::empty());
                }
                while j < n
                    invariant
                        self.wf(),
                        self.players@.len() == old(self).players@.len(),
                        n == targets@.len(),
                        j <= n,
                        damage_targets_chain(pre, *self, targets@.take(j as int), *amount, Ok(())),
                    decreases n - j,
                {
                    let ghost before = *self;
                    let t = targets[j];
                    let res = self.handle_event(
                        &GameEvent::DamageAboutToBeDealt {
                            source_id: obj_id,
                            target_ref: t,
                            amount: *amount,
                        },
                    );
                    match res {
                        Ok(_) => {
                            proof {
                                lemma_damage_chain_snoc(
                                    pre,
                                    before,
                                    *self,
                                    targets@.take(j as int),
                                    t,
                                    *amount,
                                    Ok(()),
                                );
                                assert(targets@.take(j as int + 1) =~= targets@.take(
                                    j as int,
                                ).push(t));
                                assert(self.players@.len() == before.players@.len()) by {
                                    if t.ref_id is Player {
                                        let pid = t.ref_id->Player_0;
                                        crate::game::lemma_player_idx_props(before.players@, pid);
                                    }
                                }
                            }
                        },
                        Err(e) => {
                            proof {
                                lemma_damage_chain_err(
                                    pre,
                                    before,
                                    *self,
                                    targets@,
                                    j as int,
                                    *amount,
                                    Err(e),
                                );
                                assert(self.players@.len() == before.players@.len()) by {
                                    if t.ref_id is Player {
                                        let pid = t.ref_id->Player_0;
                                        crate::game::lemma_player_idx_props(before.players@, pid);
                                    }
                                }
                            }
                            return Err(e);
                        },
                    }
                    j = j + 1;
                }
                proof {
                    assert(targets@.take(n as int) =~= targets@);
                }
                Ok(())
            },
            _ => Err(GameError::UnsupportedEffect),
        }
    }

    /// Validate the given targets against every spell-typed ability of a
    /// card's characteristics.
    pub(crate) fn validate_spell_targets(
        &self,
        abilities: &Vec<AbilityDefinition>,
        targets: &Vec<TargetRef>,
        caster_id: PlayerId,
    ) -> (r: Result<bool, GameError>)
        ensures
            r == spell_abilities_check(*self, abilities@, targets@, caster_id),
    {
        let n = abilities.len();
        let mut i: usize = 0;
        proof {
            assert(abilities@.skip(0) =~= abilities@);
        }
        while i < n
            invariant
                n == abilities@.len(),
                i <= n,
                spell_abilities_check(*self, abilities@, targets@, caster_id)
                    == spell_abilities_check(
                    *self,
                    abilities@.skip(i as int),
                    targets@,
                    caster_id,
                ),
            decreases n - i,
        {
            proof {
                assert(abilities@.skip(i as int)[0] == abilities@[i as int]);
                assert(abilities@.skip(i as int).drop_first() =~= abilities@.skip(i as int + 1));
            }
            let ab = &abilities[i];
            if matches!(ab.ability_type, AbilityType::Spell) {
                match &ab.effect_details {
                    EffectDetails::DealDamage { amount, target_requirement } => {
                        match target_requirement {
                            Some(req) => {
                                if !req.validate_targets(self, targets, caster_id) {
                                    return Ok(false);
                                }
                            },
                            None => {
                                if targets.len() != 0 {
                                    return Ok(false);
                                }
                            },
                        }
                    },
                    EffectDetails::Conditional { .. } => {
                        return Err(GameError::MultipleRequirementsUnsupported);
                    },
                    _ => {
                        if targets.len() != 0 {
                            return Ok(false);
                        }
                    },
                }
            }
            i = i + 1;
        }
        proof {
            assert(abilities@.skip(n as int) =~= Seq::<AbilityDefinition>::empty());
        }
        Ok(true)
    }
}

/// The target-requirement groups an effect asks for: one singleton group
/// per damage requirement, with a conditional effect contributing the
/// groups of both branches.
pub open spec fn effect_target_req_groups(effect: EffectDetails) -> Seq<Seq<TargetingRequirement>>
    decreases effect,
{
    match effect {
        EffectDetails::DealDamage { target_requirement, .. } => {
            match target_requirement {
                Some(req) => seq![seq![req]],
                None => Seq::empty(),
            }
        },
        EffectDetails::Conditional { if_true, if_false, .. } => effect_target_req_groups(*if_true)
            + (match if_false {
            Some(f) => effect_target_req_groups(*f),
            None => Seq::empty(),
        }),
        _ => Seq::empty(),
    }
}

/// Structural equality between built requirement groups and their
/// specification: same shape, with each requirement a deep copy.
pub open spec fn groups_match(
    r: Seq<Vec<TargetingRequirement>>,
    g: Seq<Seq<TargetingRequirement>>,
) -> bool {
    &&& r.len() == g.len()
    &&& forall|i: int|
        0 <= i < r.len() ==> (#[trigger] r[i])@.len() == g[i].len() && (forall|j: int|
            0 <= j < r[i]@.len() ==> req_eq(#[trigger] r[i]@[j], g[i][j]))
}

impl Game {
    /// All targeting requirements of an effect, grouped; each group is an
    /// independent choice of targets.
    pub fn get_targeting_requirements(&self, effect: &EffectDetails) -> (r: Vec<
        Vec<TargetingRequirement>,
    >)
        ensures
            groups_match(r@, effect_target_req_groups(*effect)),
        decreases effect,
    {
        match effect {
            EffectDetails::DealDamage { amount, target_requirement } => {
                match target_requirement {
                    Some(req) => {
                        let mut group: Vec<TargetingRequirement> = Vec::new();
                        group.push(req.clone());
                        let mut all: Vec<Vec<TargetingRequirement>> = Vec::new();
                        all.push(group);
                        all
                    },
                    None => Vec::new(),
                }
            },
            EffectDetails::Conditional { condition, if_true, if_false } => {
                let mut all = self.get_targeting_requirements(&**if_true);
                let ghost true_groups = effect_target_req_groups(**if_true);
                let ghost false_groups: Seq<Seq<TargetingRequirement>> = match if_false {
                    Some(f) => effect_target_req_groups(**f),
                    None => Seq::empty(),
                };
                match if_false {
                    Some(false_effect) => {
                        let mut rest = self.get_targeting_requirements(&**false_effect);
                        let m = rest.len();
                        let ghost rest0 = rest@;
                        proof {
                            assert(rest0.skip(0) =~= rest0);
                            assert(false_groups.take(0) =~= Seq::<Seq<TargetingRequirement>>::empty());
                            assert(true_groups + false_groups.take(0) =~= true_groups);
                        }
                        let mut k: usize = 0;
                        while k < m
                            invariant
                                m == rest0.len(),
                                rest@ == rest0.skip(k as int),
                                k <= m,
                                rest0.len() == false_groups.len(),
                                groups_match(rest0, false_groups),
                                groups_match(all@, true_groups + false_groups.take(k as int)),
                            decreases m - k,
                        {
                            proof {
                                assert(rest0.skip(k as int)[0] == rest0[k as int]);
                                assert(rest0.skip(k as int).drop_first() =~= rest0.skip(
                                    k as int + 1,
                                ));
                            }
                            let ghost all_before = all@;
                            let group = rest.remove(0);
                            all.push(group);
                            proof {
                                let spec_now = true_groups + false_groups.take(k as int + 1);
                                assert(false_groups.take(k as int + 1) =~= false_groups.take(
                                    k as int,
                                ).push(false_groups[k as int]));
                                assert(spec_now =~= (true_groups + false_groups.take(
                                    k as int,
                                )).push(false_groups[k as int]));
                                assert(group == rest0[k as int]);
                                assert(groups_match(all@, spec_now)) by {
                                    assert forall|i: int|
                                        0 <= i < all@.len() implies (#[trigger] all@[i])@.len()
                                        == spec_now[i].len() && (forall|j: int|
                                        0 <= j < all@[i]@.len() ==> req_eq(
                                            #[trigger] all@[i]@[j],
                                            spec_now[i][j],
                                        )) by {
                                        if i < all@.len() - 1 {
                                            assert(all@[i] == all_before[i]);
                                            assert(spec_now[i] == (true_groups
                                                + false_groups.take(k as int))[i]);
                                        } else {
                                            assert(all@[i] == rest0[k as int]);
                                            assert(spec_now[i] == false_groups[k as int]);
                                        }
                                    }
                                }
                            }
                            k = k + 1;
                        }
                        proof {
                            assert(false_groups.take(m as int) =~= false_groups);
                        }
                    },
                    None => {
                        proof {
                            assert(true_groups + false_groups =~= true_groups);
                        }
                    },
                }
                all
            },
            _ => Vec::new(),
        }
    }
}

} // verus!
