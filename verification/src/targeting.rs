use vstd::prelude::*;
use crate::card_types::{CardType, Subtype, Supertype};
use crate::errors::GameError;
use crate::ids::{ObjectId, PlayerId};

verus! {

/// The zones in which a criteria can look a target up.
#[derive(Debug, Clone, Copy, PartialEq, Eq, Structural)]
pub enum TargetZone {
    Battlefield,
    Stack,
    Graveyard,
    Exile,
}

/// Special targeting categories that are not plain card-type tests.
#[derive(Debug, Clone, Copy, PartialEq, Eq, Structural)]
pub enum TargetCategory {
    /// Any target a damage spell can hit: players, creatures,
    /// planeswalkers and battles.
    AnyDamageable,
    /// Any player other than the spell's controller.
    Opponent,
    /// Any object on the battlefield.
    Permanent,
    /// Any player.
    Player,
}

/// What a target reference points at: a player or an object.
#[derive(Debug, Clone, Copy, PartialEq, Eq, Structural)]
pub enum TargetRefId {
    Player(PlayerId),
    Object(ObjectId),
}

/// A reference to a chosen target, always resolved by lookup against the
/// live game state; never a direct pointer.
#[derive(Debug, Clone, Copy, PartialEq, Eq, Structural)]
pub struct TargetRef {
    pub ref_id: TargetRefId,
}

impl TargetRef {
    /// A reference to a permanent by object id.
    pub fn permanent(object_id: ObjectId) -> (r: Self)
        ensures
            r.ref_id == TargetRefId::Object(object_id),
    {
        TargetRef { ref_id: TargetRefId::Object(object_id) }
    }

    /// A reference to a player by id.
    pub fn player(player_id: PlayerId) -> (r: Self)
        ensures
            r.ref_id == TargetRefId::Player(player_id),
    {
        TargetRef { ref_id: TargetRefId::Player(player_id) }
    }

    /// Whether this reference points at a player.
    pub fn is_player(&self) -> (r: bool)
        ensures
            r == (self.ref_id is Player),
    {
        matches!(self.ref_id, TargetRefId::Player(_))
    }

    /// Whether this reference points at an object.
    pub fn is_object(&self) -> (r: bool)
        ensures
            r == (self.ref_id is Object),
    {
        matches!(self.ref_id, TargetRefId::Object(_))
    }

    /// The player id referred to, if this is a player reference.
    pub fn get_player_id(&self) -> (r: Option<PlayerId>)
        ensures
            match self.ref_id {
                TargetRefId::Player(id) => r == Some(id),
                TargetRefId::Object(_) => r is None,
            },
    {
        match self.ref_id {
            TargetRefId::Player(id) => Some(id),
            _ => None,
        }
    }

    /// The object id referred to, if this is an object reference.
    pub fn get_object_id(&self) -> (r: Option<ObjectId>)
        ensures
            match self.ref_id {
                TargetRefId::Object(id) => r == Some(id),
                TargetRefId::Player(_) => r is None,
            },
    {
        match self.ref_id {
            TargetRefId::Object(id) => Some(id),
            _ => None,
        }
    }
}

/// Comparisons against a creature's printed power or toughness.
#[derive(Debug, Clone, Copy, PartialEq, Eq, Structural)]
pub enum PowerToughnessCriteria {
    PowerEqual(i32),
    PowerLessThan(i32),
    PowerGreaterThan(i32),
    ToughnessEqual(i32),
}

/// Who must control or own the target.
#[derive(Debug, Clone, Copy, PartialEq, Eq, Structural)]
pub enum ControlCriteria {
    /// `None` means the spell's own controller.
    Controller(Option<PlayerId>),
    /// `None` means the spell's own controller.
    Owner(Option<PlayerId>),
}

/// A composable tree of target legality tests.
#[derive(Debug, PartialEq)]
pub enum TargetCriteria {
    CardType(CardType, TargetZone),
    Supertype(Supertype, TargetZone),
    Subtype(Subtype, TargetZone),
    Category(TargetCategory),
    Tapped,
    Untapped,
    Attacking,
    Blocking,
    And(Vec<TargetCriteria>),
    Or(Vec<TargetCriteria>),
    Not(Box<TargetCriteria>),
    PowerToughness(PowerToughnessCriteria),
    ControlledBy(ControlCriteria),
}

/// Structural equality of criteria trees.
///
/// Two trees are equal when they have the same shape with the same leaves;
/// this is the equality that a deep copy preserves.
pub open spec fn criteria_eq(a: TargetCriteria, b: TargetCriteria) -> bool
    decreases a,
{
    match (a, b) {
        (TargetCriteria::CardType(x1, z1), TargetCriteria::CardType(x2, z2)) => x1 == x2 && z1
            == z2,
        (TargetCriteria::Supertype(x1, z1), TargetCriteria::Supertype(x2, z2)) => x1 == x2 && z1
            == z2,
        (TargetCriteria::Subtype(x1, z1), TargetCriteria::Subtype(x2, z2)) => x1 == x2 && z1 == z2,
        (TargetCriteria::Category(c1), TargetCriteria::Category(c2)) => c1 == c2,
        (TargetCriteria::Tapped, TargetCriteria::Tapped) => true,
        (TargetCriteria::Untapped, TargetCriteria::Untapped) => true,
        (TargetCriteria::Attacking, TargetCriteria::Attacking) => true,
        (TargetCriteria::Blocking, TargetCriteria::Blocking) => true,
        (TargetCriteria::And(v1), TargetCriteria::And(v2)) => v1@.len() == v2@.len()
            && (forall|i: int|
            0 <= i < v1@.len() ==> criteria_eq(#[trigger] v1@[i], v2@[i])),
        (TargetCriteria::Or(v1), TargetCriteria::Or(v2)) => v1@.len() == v2@.len() && (forall|
            i: int,
        |
            0 <= i < v1@.len() ==> criteria_eq(#[trigger] v1@[i], v2@[i])),
        (TargetCriteria::Not(b1), TargetCriteria::Not(b2)) => criteria_eq(*b1, *b2),
        (TargetCriteria::PowerToughness(p1), TargetCriteria::PowerToughness(p2)) => p1 == p2,
        (TargetCriteria::ControlledBy(c1), TargetCriteria::ControlledBy(c2)) => c1 == c2,
        _ => false,
    }
}

/// Structural equality of targeting requirements.
pub open spec fn req_eq(a: TargetingRequirement, b: TargetingRequirement) -> bool {
    &&& criteria_eq(a.criteria, b.criteria)
    &&& a.min_targets == b.min_targets
    &&& a.max_targets == b.max_targets
    &&& a.id == b.id
}

impl Clone for TargetCriteria {
    /// A deep structural copy.
    #[verifier::loop_isolation(false)]
    fn clone(&self) -> (r: Self)
        ensures
            criteria_eq(r, *self),
        decreases self,
    {
        broadcast use vstd::std_specs::vec::axiom_vec_index_decreases;

        match self {
            TargetCriteria::CardType(ct, z) => TargetCriteria::CardType(*ct, *z),
            TargetCriteria::Supertype(st, z) => TargetCriteria::Supertype(*st, *z),
            TargetCriteria::Subtype(st, z) => TargetCriteria::Subtype(*st, *z),
            TargetCriteria::Category(c) => TargetCriteria::Category(*c),
            TargetCriteria::Tapped => TargetCriteria::Tapped,
            TargetCriteria::Untapped => TargetCriteria::Untapped,
            TargetCriteria::Attacking => TargetCriteria::Attacking,
            TargetCriteria::Blocking => TargetCriteria::Blocking,
            TargetCriteria::And(cs) => {
                let mut out: Vec<TargetCriteria> = Vec::new();
                let n = cs.len();
                let mut i: usize = 0;
                while i < n
                    invariant
                        n == cs@.len(),
                        i <= n,
                        out@.len() == i,
                        forall|j: int| 0 <= j < i ==> criteria_eq(#[trigger] out@[j], cs@[j]),
                        *self == TargetCriteria::And(*cs),
                    decreases n - i,
                {
                    proof {
                        assert(decreases_to!(*self => *cs));
                        assert(decreases_to!(*cs => cs[i as int]));
                    }
                    out.push(cs[i].clone());
                    i = i + 1;
                }
                TargetCriteria::And(out)
            },
            TargetCriteria::Or(cs) => {
                let mut out: Vec<TargetCriteria> = Vec::new();
                let n = cs.len();
                let mut i: usize = 0;
                while i < n
                    invariant
                        n == cs@.len(),
                        i <= n,
                        out@.len() == i,
                        forall|j: int| 0 <= j < i ==> criteria_eq(#[trigger] out@[j], cs@[j]),
                        *self == TargetCriteria::Or(*cs),
                    decreases n - i,
                {
                    proof {
                        assert(decreases_to!(*self => *cs));
                        assert(decreases_to!(*cs => cs[i as int]));
                    }
                    out.push(cs[i].clone());
                    i = i + 1;
                }
                TargetCriteria::Or(out)
            },
            TargetCriteria::Not(b) => TargetCriteria::Not(Box::new((&**b).clone())),
            TargetCriteria::PowerToughness(p) => TargetCriteria::PowerToughness(*p),
            TargetCriteria::ControlledBy(c) => TargetCriteria::ControlledBy(*c),
        }
    }
}

/// One group of targets a spell or ability asks for: how many, and what
/// each must satisfy.
#[derive(Debug, PartialEq)]
pub struct TargetingRequirement {
    pub criteria: TargetCriteria,
    pub min_targets: u8,
    pub max_targets: u8,
    /// Links this requirement to the player's choices for it.
    pub id: u8,
}

impl Clone for TargetingRequirement {
    /// A deep structural copy.
    fn clone(&self) -> (r: Self)
        ensures
            req_eq(r, *self),
    {
        TargetingRequirement {
            criteria: self.criteria.clone(),
            min_targets: self.min_targets,
            max_targets: self.max_targets,
            id: self.id,
        }
    }
}

impl TargetingRequirement {
    /// A requirement for exactly one target satisfying `criteria`.
    pub fn single(criteria: TargetCriteria, id: u8) -> (r: Self)
        ensures
            r.criteria == criteria,
            r.min_targets == 1u8,
            r.max_targets == 1u8,
            r.id == id,
    {
        TargetingRequirement { criteria, min_targets: 1, max_targets: 1, id }
    }

    /// A requirement for one target of the "any damageable" category.
    pub fn any_target(id: u8) -> (r: Self)
        ensures
            r.criteria == TargetCriteria::Category(TargetCategory::AnyDamageable),
            r.min_targets == 1u8,
            r.max_targets == 1u8,
            r.id == id,
    {
        TargetingRequirement::single(TargetCriteria::Category(TargetCategory::AnyDamageable), id)
    }
}

/// The maximum target count of the first requirement carrying `id`.
pub open spec fn first_req_max(s: Seq<TargetingRequirement>, id: u8) -> Option<u8>
    decreases s.len(),
{
    if s.len() == 0 {
        None
    } else if s[0].id == id {
        Some(s[0].max_targets)
    } else {
        first_req_max(s.drop_first(), id)
    }
}

/// The target list of the first map entry carrying `id`, if any.
pub open spec fn map_targets(s: Seq<(u8, Vec<TargetRef>)>, id: u8) -> Option<Seq<TargetRef>>
    decreases s.len(),
{
    if s.len() == 0 {
        None
    } else if s[0].0 == id {
        Some(s[0].1@)
    } else {
        map_targets(s.drop_first(), id)
    }
}

/// The targets chosen so far for requirement `id`; empty when none chosen.
pub open spec fn targets_for(s: Seq<(u8, Vec<TargetRef>)>, id: u8) -> Seq<TargetRef> {
    match map_targets(s, id) {
        Some(t) => t,
        None => Seq::empty(),
    }
}

/// All chosen targets over all entries, in map order.
pub open spec fn flatten_targets(s: Seq<(u8, Vec<TargetRef>)>) -> Seq<TargetRef>
    decreases s.len(),
{
    if s.len() == 0 {
        Seq::empty()
    } else {
        s[0].1@ + flatten_targets(s.drop_first())
    }
}

proof fn lemma_first_req_max_at(s: Seq<TargetingRequirement>, id: u8, i: int)
    requires
        0 <= i < s.len(),
        s[i].id == id,
        forall|j: int| 0 <= j < i ==> s[j].id != id,
    ensures
        first_req_max(s, id) == Some(s[i].max_targets),
    decreases i,
{
    if i > 0 {
        assert forall|j: int| 0 <= j < i - 1 implies s.drop_first()[j].id != id by {
            assert(s.drop_first()[j] == s[j + 1]);
        }
        assert(s.drop_first()[i - 1] == s[i]);
        lemma_first_req_max_at(s.drop_first(), id, i - 1);
    }
}

proof fn lemma_first_req_max_none(s: Seq<TargetingRequirement>, id: u8)
    requires
        forall|j: int| 0 <= j < s.len() ==> s[j].id != id,
    ensures
        first_req_max(s, id) is None,
    decreases s.len(),
{
    if s.len() > 0 {
        assert forall|j: int| 0 <= j < s.drop_first().len() implies s.drop_first()[j].id != id by {
            assert(s.drop_first()[j] == s[j + 1]);
        }
        lemma_first_req_max_none(s.drop_first(), id);
    }
}

/// `map_targets` yields the entry at the first matching position.
pub proof fn lemma_map_targets_at_pub(s: Seq<(u8, Vec<TargetRef>)>, id: u8, i: int)
    requires
        0 <= i < s.len(),
        s[i].0 == id,
        forall|j: int| 0 <= j < i ==> s[j].0 != id,
    ensures
        map_targets(s, id) == Some(s[i].1@),
{
    lemma_map_targets_at(s, id, i);
}

/// `map_targets` yields nothing when no entry matches.
pub proof fn lemma_map_targets_none_pub(s: Seq<(u8, Vec<TargetRef>)>, id: u8)
    requires
        forall|j: int| 0 <= j < s.len() ==> s[j].0 != id,
    ensures
        map_targets(s, id) is None,
{
    lemma_map_targets_none(s, id);
}

proof fn lemma_map_targets_at(s: Seq<(u8, Vec<TargetRef>)>, id: u8, i: int)
    requires
        0 <= i < s.len(),
        s[i].0 == id,
        forall|j: int| 0 <= j < i ==> s[j].0 != id,
    ensures
        map_targets(s, id) == Some(s[i].1@),
    decreases i,
{
    if i > 0 {
        assert forall|j: int| 0 <= j < i - 1 implies s.drop_first()[j].0 != id by {
            assert(s.drop_first()[j] == s[j + 1]);
        }
        assert(s.drop_first()[i - 1] == s[i]);
        lemma_map_targets_at(s.drop_first(), id, i - 1);
    }
}

proof fn lemma_map_targets_none(s: Seq<(u8, Vec<TargetRef>)>, id: u8)
    requires
        forall|j: int| 0 <= j < s.len() ==> s[j].0 != id,
    ensures
        map_targets(s, id) is None,
    decreases s.len(),
{
    if s.len() > 0 {
        assert forall|j: int| 0 <= j < s.drop_first().len() implies s.drop_first()[j].0 != id by {
            assert(s.drop_first()[j] == s[j + 1]);
        }
        lemma_map_targets_none(s.drop_first(), id);
    }
}

proof fn lemma_map_targets_update(s: Seq<(u8, Vec<TargetRef>)>, i: int, v: Vec<TargetRef>, o: u8)
    requires
        0 <= i < s.len(),
        forall|j: int| 0 <= j < i ==> s[j].0 != s[i].0,
    ensures
        map_targets(s.update(i, (s[i].0, v)), o) == if o == s[i].0 {
            Some(v@)
        } else {
            map_targets(s, o)
        },
    decreases i,
{
    let s2 = s.update(i, (s[i].0, v));
    if i == 0 {
        assert(s2.drop_first() =~= s.drop_first());
        assert(s2[0] == (s[0].0, v));
    } else {
        assert(s2.drop_first() =~= s.drop_first().update(i - 1, (s[i].0, v)));
        assert(s2[0] == s[0]);
        assert(s.drop_first()[i - 1] == s[i]);
        assert forall|j: int| 0 <= j < i - 1 implies (#[trigger] s.drop_first()[j]).0
            != s.drop_first()[i - 1].0 by {
            assert(s.drop_first()[j] == s[j + 1]);
        }
        lemma_map_targets_update(s.drop_first(), i - 1, v, o);
    }
}

proof fn lemma_map_targets_push(s: Seq<(u8, Vec<TargetRef>)>, x: (u8, Vec<TargetRef>), o: u8)
    requires
        forall|j: int| 0 <= j < s.len() ==> s[j].0 != x.0,
    ensures
        map_targets(s.push(x), o) == if o == x.0 {
            Some(x.1@)
        } else {
            map_targets(s, o)
        },
    decreases s.len(),
{
    let sp = s.push(x);
    assert(sp.len() == s.len() + 1);
    if s.len() == 0 {
        assert(sp.drop_first() =~= Seq::<(u8, Vec<TargetRef>)>::empty());
        assert(sp[0] == x);
        assert(map_targets(sp.drop_first(), o) is None);
    } else {
        assert(sp.drop_first() =~= s.drop_first().push(x));
        assert(sp[0] == s[0]);
        assert forall|j: int| 0 <= j < s.drop_first().len() implies (#[trigger] s.drop_first()[j]).0
            != x.0 by {
            assert(s.drop_first()[j] == s[j + 1]);
        }
        lemma_map_targets_push(s.drop_first(), x, o);
        assert(s[0].0 != x.0);
    }
}

proof fn lemma_flatten_targets_take(s: Seq<(u8, Vec<TargetRef>)>, i: int)
    requires
        0 <= i < s.len(),
    ensures
        flatten_targets(s.take(i + 1)) =~= flatten_targets(s.take(i)) + s[i].1@,
    decreases i,
{
    if i == 0 {
        assert(s.take(1).drop_first() =~= Seq::empty());
        assert(s.take(1)[0] == s[0]);
        assert(s.take(0) =~= Seq::empty());
    } else {
        assert(s.take(i + 1).drop_first() =~= s.drop_first().take(i));
        assert(s.take(i).drop_first() =~= s.drop_first().take(i - 1));
        assert(s.take(i + 1)[0] == s[0]);
        assert(s.take(i)[0] == s[0]);
        assert(s.drop_first()[i - 1] == s[i]);
        lemma_flatten_targets_take(s.drop_first(), i - 1);
    }
}

/// The maximum target count of the first requirement carrying `id`, if any.
fn find_req_max(reqs: &Vec<TargetingRequirement>, id: u8) -> (r: Option<u8>)
    ensures
        r == first_req_max(reqs@, id),
{
    let n = reqs.len();
    let mut i: usize = 0;
    while i < n
        invariant
            n == reqs@.len(),
            i <= n,
            forall|j: int| 0 <= j < i ==> reqs@[j].id != id,
        decreases n - i,
    {
        if reqs[i].id == id {
            proof {
                lemma_first_req_max_at(reqs@, id, i as int);
            }
            return Some(reqs[i].max_targets);
        }
        i = i + 1;
    }
    proof {
        lemma_first_req_max_none(reqs@, id);
    }
    None
}

/// What casting a spell demands: its timing restriction and the targets
/// its abilities ask for.
#[derive(Debug, Clone)]
pub struct CastingRequirement {
    /// If true, castable only at sorcery speed: a main phase of the
    /// caster's turn with an empty stack.
    pub is_sorcery_speed: bool,
    pub target_requirements: Vec<TargetingRequirement>,
}

/// A set of targeting requirements together with the targets chosen so far,
/// keyed by requirement id.
#[derive(Debug, Clone)]
pub struct TargetSet {
    pub requirements: Vec<TargetingRequirement>,
    /// Chosen targets for each requirement id; at most one entry per id.
    pub target_map: Vec<(u8, Vec<TargetRef>)>,
}

impl TargetSet {
    /// At most one target-map entry per requirement id.
    pub open spec fn wf(self) -> bool {
        forall|i: int, j: int|
            0 <= i < j < self.target_map@.len() ==> self.target_map@[i].0
                != self.target_map@[j].0
    }

    /// A fresh target set for the given requirements, with no targets chosen.
    pub fn new(requirements: Vec<TargetingRequirement>) -> (r: Self)
        ensures
            r.requirements == requirements,
            r.target_map@.len() == 0,
            r.wf(),
    {
        TargetSet { requirements, target_map: Vec::new() }
    }

    /// Add one more requirement to the set.
    pub fn add_requirement(&mut self, requirement: TargetingRequirement)
        ensures
            final(self).requirements@ == old(self).requirements@.push(requirement),
            final(self).target_map == old(self).target_map,
    {
        self.requirements.push(requirement);
    }

    /// Record a chosen target for the requirement with the given id.
    ///
    /// Fails when no requirement carries that id, or the requirement
    /// already has its maximum number of targets; the set is unchanged
    /// on failure.
    pub fn add_target(&mut self, requirement_id: u8, target: TargetRef) -> (r: Result<
        (),
        GameError,
    >)
        requires
            old(self).wf(),
        ensures
            final(self).wf(),
            final(self).requirements == old(self).requirements,
            r is Err ==> *final(self) == *old(self),
            match first_req_max(old(self).requirements@, requirement_id) {
                None => r == Err::<(), GameError>(GameError::RequirementNotFound),
                Some(maxt) => {
                    if targets_for(old(self).target_map@, requirement_id).len() >= maxt {
                        r == Err::<(), GameError>(GameError::TooManyTargets)
                    } else {
                        &&& r is Ok
                        &&& targets_for(final(self).target_map@, requirement_id) =~= targets_for(
                            old(self).target_map@,
                            requirement_id,
                        ).push(target)
                        &&& forall|o: u8|
                            o != requirement_id ==> map_targets(final(self).target_map@, o)
                                == map_targets(old(self).target_map@, o)
                    }
                },
            },
    {
        let maxt = match find_req_max(&self.requirements, requirement_id) {
            None => {
                return Err(GameError::RequirementNotFound);
            },
            Some(m) => m,
        };
        // Find the entry for this id in the target map, if one exists.
        let m = self.target_map.len();
        let mut mi: usize = 0;
        while mi < m
            invariant
                *self == *old(self),
                self.wf(),
                first_req_max(old(self).requirements@, requirement_id) == Some(maxt),
                m == self.target_map@.len(),
                mi <= m,
                forall|j: int| 0 <= j < mi ==> self.target_map@[j].0 != requirement_id,
            decreases m - mi,
        {
            if self.target_map[mi].0 == requirement_id {
                proof {
                    lemma_map_targets_at(self.target_map@, requirement_id, mi as int);
                }
                if self.target_map[mi].1.len() >= maxt as usize {
                    return Err(GameError::TooManyTargets);
                }
                let mut entry = self.target_map.remove(mi);
                entry.1.push(target);
                self.target_map.insert(mi, entry);
                proof {
                    let s = old(self).target_map@;
                    let e = self.target_map@[mi as int];
                    assert(self.target_map@ =~= s.update(mi as int, (requirement_id, e.1)));
                    lemma_map_targets_update(s, mi as int, e.1, requirement_id);
                    assert forall|o: u8| o != requirement_id implies map_targets(
                        self.target_map@,
                        o,
                    ) == map_targets(s, o) by {
                        lemma_map_targets_update(s, mi as int, e.1, o);
                    }
                    assert forall|i: int, j: int|
                        0 <= i < j < self.target_map@.len() implies (#[trigger] self.target_map@[i]).0
                        != (#[trigger] self.target_map@[j]).0 by {
                        assert(s[i].0 != s[j].0);
                    }
                }
                return Ok(());
            }
            mi = mi + 1;
        }
        proof {
            lemma_map_targets_none(self.target_map@, requirement_id);
        }
        if maxt == 0 {
            return Err(GameError::TooManyTargets);
        }
        let mut chosen: Vec<TargetRef> = Vec::new();
        chosen.push(target);
        self.target_map.push((requirement_id, chosen));
        proof {
        let s = old(self).target_map@;
        let x = self.target_map@[s.len() as int];
        assert(self.target_map@ =~= s.push(x));
        lemma_map_targets_push(s, x, requirement_id);
        assert forall|o: u8| o != requirement_id implies map_targets(self.target_map@, o)
            == map_targets(s, o) by {
            lemma_map_targets_push(s, x, o);
        }
        assert forall|i: int, j: int|
            0 <= i < j < self.target_map@.len() implies (#[trigger] self.target_map@[i]).0
            != (#[trigger] self.target_map@[j]).0 by {
            if j < self.target_map@.len() - 1 {
                assert(s[i].0 != s[j].0);
            } else {
                assert(self.target_map@[j].0 == requirement_id);
                assert(self.target_map@[i] == s[i]);
            }
        }
        }
        Ok(())
    }

    /// All chosen targets, flattened into one list for effect processing.
    pub fn all_targets(&self) -> (r: Vec<TargetRef>)
        ensures
            r@ == flatten_targets(self.target_map@),
    {
        let mut r: Vec<TargetRef> = Vec::new();
        let m = self.target_map.len();
        let mut mi: usize = 0;
        proof {
            assert(self.target_map@.take(0) =~= Seq::empty());
            assert(r@ =~= flatten_targets(self.target_map@.take(0)));
        }
        while mi < m
            invariant
                m == self.target_map@.len(),
                mi <= m,
                r@ =~= flatten_targets(self.target_map@.take(mi as int)),
            decreases m - mi,
        {
            let ghost r_before = r@;
            let group = &self.target_map[mi].1;
            let glen = group.len();
            let mut gi: usize = 0;
            while gi < glen
                invariant
                    glen == group@.len(),
                    gi <= glen,
                    mi < m,
                    m == self.target_map@.len(),
                    group == &self.target_map[mi as int].1,
                    r@ =~= r_before + group@.take(gi as int),
                decreases glen - gi,
            {
                r.push(group[gi]);
                gi = gi + 1;
            }
            proof {
                assert(group@.take(glen as int) =~= group@);
                lemma_flatten_targets_take(self.target_map@, mi as int);
            }
            mi = mi + 1;
        }
        proof {
            assert(self.target_map@.take(m as int) =~= self.target_map@);
        }
        r
    }
}

} // verus!
