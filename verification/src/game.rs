use vstd::prelude::*;
use crate::combat_types::{AttackDeclaration, BlockDeclaration, CombatDamageAssignment};
use crate::effect_context::EffectContext;
use crate::errors::GameError;
use crate::game_objects::{
    BattlefieldState, CommandState, ExileState, GameObj, StackState,
};
use crate::ids::{ObjectId, PlayerId};
use crate::obj_lookup::{find_idx_by_id, first_idx_by_id, has_id, lemma_first_idx_at,
    lemma_first_idx_props};
use crate::player::Player;
use crate::turns::{Phase, PhaseType, spec_new_phase};

verus! {

/// The central orchestrator: players, shared zones, the turn structure,
/// and the role pointers for the active and priority players.
#[derive(Debug, Clone)]
pub struct Game {
    pub players: Vec<Player>,
    /// Position in `players` of the player whose turn it is. A role, not
    /// an entity id; resolved freshly on each use.
    pub active_player_id: PlayerId,
    /// Position in `players` of the player holding priority.
    pub priority_player_id: PlayerId,
    pub turn_number: u32,
    pub phase: Phase,
    /// The stack: last element is the top, resolved first.
    pub stack: Vec<GameObj<StackState>>,
    /// The battlefield, with at most one object per id.
    pub battlefield: Vec<GameObj<BattlefieldState>>,
    pub exile: Vec<GameObj<ExileState>>,
    pub command_zone: Vec<GameObj<CommandState>>,
    /// Whether attackers have been declared this combat.
    pub attacks_declared: bool,
    /// Whether blockers have been declared this combat.
    pub blockers_declared: bool,
    /// Declarations handed in by a decision provider, consumed by the
    /// declare-attackers step.
    pub pending_attack_declarations: Option<Vec<AttackDeclaration>>,
    /// Declarations handed in by a decision provider, consumed by the
    /// declare-blockers step.
    pub pending_block_declarations: Option<Vec<BlockDeclaration>>,
    /// Assignments handed in by a decision provider, consumed by the
    /// combat-damage step.
    pub pending_damage_assignments: Option<Vec<CombatDamageAssignment>>,
    /// Turn-scoped counters for conditional effects.
    pub effect_context: EffectContext,
}

/// Position in `players` of the first player whose id field is `id`,
/// or -1 when none carries it.
pub open spec fn player_idx(s: Seq<Player>, id: PlayerId) -> int
    decreases s.len(),
{
    if s.len() == 0 {
        -1
    } else if s[0].id == id {
        0
    } else {
        let rest = player_idx(s.drop_first(), id);
        if rest < 0 {
            -1
        } else {
            rest + 1
        }
    }
}

/// What `player_idx` means: the first matching position, -1 iff none.
pub proof fn lemma_player_idx_props(s: Seq<Player>, id: PlayerId)
    ensures
        player_idx(s, id) >= 0 ==> {
            &&& player_idx(s, id) < s.len()
            &&& s[player_idx(s, id)].id == id
            &&& forall|j: int| 0 <= j < player_idx(s, id) ==> (#[trigger] s[j]).id != id
        },
        player_idx(s, id) == -1 <==> (forall|j: int| 0 <= j < s.len() ==> (#[trigger] s[j]).id != id),
        player_idx(s, id) >= -1,
    decreases s.len(),
{
    if s.len() > 0 {
        lemma_player_idx_props(s.drop_first(), id);
        if s[0].id != id {
            let rest = player_idx(s.drop_first(), id);
            if rest >= 0 {
                assert(s.drop_first()[rest] == s[rest + 1]);
                assert forall|j: int| 0 <= j < rest + 1 implies (#[trigger] s[j]).id != id by {
                    if j > 0 {
                        assert(s.drop_first()[j - 1] == s[j]);
                    }
                }
            } else {
                assert forall|j: int| 0 <= j < s.len() implies (#[trigger] s[j]).id != id by {
                    if j > 0 {
                        assert(s.drop_first()[j - 1] == s[j]);
                    }
                }
            }
        }
    }
}

/// `player_idx` finds `i` when `i` is the first matching position.
pub proof fn lemma_player_idx_at(s: Seq<Player>, id: PlayerId, i: int)
    requires
        0 <= i < s.len(),
        s[i].id == id,
        forall|j: int| 0 <= j < i ==> (#[trigger] s[j]).id != id,
    ensures
        player_idx(s, id) == i,
    decreases i,
{
    if i > 0 {
        assert forall|j: int| 0 <= j < i - 1 implies (#[trigger] s.drop_first()[j]).id != id by {
            assert(s.drop_first()[j] == s[j + 1]);
        }
        assert(s.drop_first()[i - 1] == s[i]);
        lemma_player_idx_at(s.drop_first(), id, i - 1);
    }
}

/// Under a well-formed player list, the player with id `id` sits at
/// position `id` when `id` is in range, and nowhere otherwise.
pub proof fn lemma_player_idx_under_wf(s: Seq<Player>, id: PlayerId)
    requires
        forall|i: int| 0 <= i < s.len() ==> (#[trigger] s[i]).id == i,
    ensures
        id < s.len() ==> player_idx(s, id) == id,
        id >= s.len() ==> player_idx(s, id) == -1,
{
    if id < s.len() {
        lemma_player_idx_at(s, id, id as int);
    } else {
        lemma_player_idx_props(s, id);
        if player_idx(s, id) >= 0 {
            assert(s[player_idx(s, id)].id == id);
        }
    }
}

/// `b` equals `a` in every field but the player list.
pub open spec fn same_but_players(a: Game, b: Game) -> bool {
    b == (Game { players: b.players, ..a })
}

/// `b` equals `a` in every field but the battlefield.
pub open spec fn same_but_battlefield(a: Game, b: Game) -> bool {
    b == (Game { battlefield: b.battlefield, ..a })
}

/// `b` equals `a` in every field but the player list and the battlefield.
pub open spec fn same_but_players_battlefield(a: Game, b: Game) -> bool {
    b == (Game { players: b.players, battlefield: b.battlefield, ..a })
}

impl Game {
    /// The players are listed by id, each internally well-formed.
    pub open spec fn players_wf(self) -> bool {
        forall|i: int|
            0 <= i < self.players@.len() ==> (#[trigger] self.players@[i]).wf()
                && self.players@[i].id == i
    }

    /// The role pointers address real positions whenever players exist.
    pub open spec fn roles_wf(self) -> bool {
        self.players@.len() > 0 ==> self.active_player_id < self.players@.len()
            && self.priority_player_id < self.players@.len()
    }

    /// Battlefield membership is keyed by object id: at most one object
    /// per id.
    pub open spec fn bf_ids_unique(self) -> bool {
        forall|i: int, j: int|
            0 <= i < j < self.battlefield@.len() ==> (#[trigger] self.battlefield@[i]).id != (
            #[trigger] self.battlefield@[j]).id
    }

    /// Every object on the stack is creature-consistent, so that a
    /// resolving creature spell can populate its battlefield aspect.
    pub open spec fn stack_consistent(self) -> bool {
        forall|i: int|
            0 <= i < self.stack@.len() ==> (#[trigger] self.stack@[i]).creature_consistent()
    }

    /// Every object in a zone names an existing player as its owner.
    pub open spec fn zone_owners_ok(self) -> bool {
        let n = self.players@.len();
        &&& forall|i: int|
            0 <= i < self.battlefield@.len() ==> (#[trigger] self.battlefield@[i]).owner < n
        &&& forall|i: int| 0 <= i < self.stack@.len() ==> (#[trigger] self.stack@[i]).owner < n
        &&& forall|p: int, i: int|
            0 <= p < n && 0 <= i < self.players@[p].hand@.len() ==> (
            #[trigger] self.players@[p].hand@[i]).owner < n
        &&& forall|p: int, i: int|
            0 <= p < n && 0 <= i < self.players@[p].library@.len() ==> (
            #[trigger] self.players@[p].library@[i]).owner < n
    }

    /// Global well-formedness of the game state.
    pub open spec fn wf(self) -> bool {
        &&& self.players_wf()
        &&& self.roles_wf()
        &&& self.bf_ids_unique()
        &&& self.stack_consistent()
        &&& self.zone_owners_ok()
    }

    /// A fresh game: no players yet, turn 1, Beginning phase at the Untap
    /// step, all shared zones empty.
    pub fn new() -> (r: Self)
        ensures
            r.wf(),
            r.players@.len() == 0,
            r.active_player_id == 0,
            r.priority_player_id == 0,
            r.turn_number == 1,
            r.phase == spec_new_phase(PhaseType::Beginning),
            r.stack@.len() == 0,
            r.battlefield@.len() == 0,
            r.exile@.len() == 0,
            r.command_zone@.len() == 0,
            r.attacks_declared == false,
            r.blockers_declared == false,
            r.pending_attack_declarations is None,
            r.pending_block_declarations is None,
            r.pending_damage_assignments is None,
            r.effect_context == (EffectContext { cards_drawn_this_turn: 0u32 }),
    {
        Game {
            players: Vec::new(),
            active_player_id: 0,
            priority_player_id: 0,
            turn_number: 1,
            phase: Phase::new(PhaseType::Beginning),
            stack: Vec::new(),
            battlefield: Vec::new(),
            exile: Vec::new(),
            command_zone: Vec::new(),
            attacks_declared: false,
            blockers_declared: false,
            pending_attack_declarations: None,
            pending_block_declarations: None,
            pending_damage_assignments: None,
            effect_context: EffectContext::new(),
        }
    }

    /// A reference to the player whose id field is `player_id`; the first
    /// match when ids collide. Fails when no player carries the id.
    pub fn get_player_ref(&self, player_id: PlayerId) -> (r: Result<&Player, GameError>)
        ensures
            match r {
                Ok(p) => player_idx(self.players@, player_id) >= 0 && *p == self.players@[
                    player_idx(self.players@, player_id)
                ],
                Err(e) => player_idx(self.players@, player_id) == -1 && e
                    == GameError::PlayerNotFound,
            },
    {
        let n = self.players.len();
        let mut i: usize = 0;
        while i < n
            invariant
                n == self.players@.len(),
                i <= n,
                forall|j: int| 0 <= j < i ==> (#[trigger] self.players@[j]).id != player_id,
            decreases n - i,
        {
            if self.players[i].id == player_id {
                proof {
                    lemma_player_idx_at(self.players@, player_id, i as int);
                }
                return Ok(&self.players[i]);
            }
            i = i + 1;
        }
        proof {
            lemma_player_idx_props(self.players@, player_id);
        }
        Err(GameError::PlayerNotFound)
    }

    /// A mutable reference to the player whose id field is `player_id`;
    /// the first match when ids collide.
    pub fn get_player_mut(&mut self, player_id: PlayerId) -> (r: &mut Player)
        requires
            player_idx(old(self).players@, player_id) >= 0,
        ensures
            *r == old(self).players@[player_idx(old(self).players@, player_id)],
            final(self).players@ == old(self).players@.update(
                player_idx(old(self).players@, player_id),
                *final(r),
            ),
            same_but_players(*old(self), *final(self)),
    {
        proof {
            lemma_player_idx_props(old(self).players@, player_id);
        }
        let n = self.players.len();
        let mut i: usize = 0;
        while i < n
            invariant
                *self == *old(self),
                n == self.players@.len(),
                i <= n,
                forall|j: int| 0 <= j < i ==> (#[trigger] self.players@[j]).id != player_id,
                player_idx(self.players@, player_id) >= 0,
            decreases n - i,
        {
            if self.players[i].id == player_id {
                proof {
                    lemma_player_idx_at(self.players@, player_id, i as int);
                }
                return &mut self.players[i];
            }
            i = i + 1;
        }
        proof {
            lemma_player_idx_props(self.players@, player_id);
            assert(false);
        }
        vstd::pervasive::unreached()
    }

    /// Position in the battlefield of the object with the given id, if any.
    pub(crate) fn bf_find(&self, object_id: ObjectId) -> (r: Option<usize>)
        ensures
            match r {
                Some(i) => i as int == first_idx_by_id(self.battlefield@, object_id) && i
                    < self.battlefield@.len() && self.battlefield@[i as int].id == object_id,
                None => first_idx_by_id(self.battlefield@, object_id) == -1,
            },
    {
        find_idx_by_id(&self.battlefield, object_id)
    }

    /// Put an object onto the battlefield, keyed by its id: an object
    /// already carrying the id is replaced, else the object is appended.
    pub(crate) fn bf_insert(&mut self, obj: GameObj<BattlefieldState>)
        requires
            old(self).bf_ids_unique(),
        ensures
            same_but_battlefield(*old(self), *final(self)),
            final(self).bf_ids_unique(),
            has_id(old(self).battlefield@, obj.id) ==> final(self).battlefield@ == old(
                self,
            ).battlefield@.update(first_idx_by_id(old(self).battlefield@, obj.id), obj),
            !has_id(old(self).battlefield@, obj.id) ==> final(self).battlefield@ == old(
                self,
            ).battlefield@.push(obj),
    {
        proof {
            lemma_first_idx_props(self.battlefield@, obj.id);
        }
        match find_idx_by_id(&self.battlefield, obj.id) {
            Some(i) => {
                self.battlefield[i] = obj;
                proof {
                    let s = old(self).battlefield@;
                    assert(self.battlefield@ =~= s.update(i as int, obj));
                    assert forall|a: int, b: int|
                        0 <= a < b < self.battlefield@.len() implies (
                    #[trigger] self.battlefield@[a]).id != (#[trigger] self.battlefield@[b]).id by {
                        assert(s[a].id != s[b].id);
                        if a != i && b != i {
                        } else if a == i as int {
                            assert(self.battlefield@[b] == s[b]);
                            assert(s[i as int].id == obj.id);
                        } else {
                            assert(self.battlefield@[a] == s[a]);
                            assert(s[i as int].id == obj.id);
                        }
                    }
                }
            },
            None => {
                self.battlefield.push(obj);
                proof {
                    let s = old(self).battlefield@;
                    lemma_first_idx_props(s, obj.id);
                    assert forall|a: int, b: int|
                        0 <= a < b < self.battlefield@.len() implies (
                    #[trigger] self.battlefield@[a]).id != (#[trigger] self.battlefield@[b]).id by {
                        if b < self.battlefield@.len() - 1 {
                            assert(s[a].id != s[b].id);
                        } else {
                            assert(self.battlefield@[a] == s[a]);
                            assert(self.battlefield@[b] == obj);
                        }
                    }
                }
            },
        }
    }

    /// Remove and return the battlefield object with the given id, if any.
    pub(crate) fn bf_remove(&mut self, object_id: ObjectId) -> (r: Option<
        GameObj<BattlefieldState>,
    >)
        ensures
            same_but_battlefield(*old(self), *final(self)),
            match r {
                Some(obj) => {
                    &&& first_idx_by_id(old(self).battlefield@, object_id) >= 0
                    &&& obj == old(self).battlefield@[first_idx_by_id(
                        old(self).battlefield@,
                        object_id,
                    )]
                    &&& final(self).battlefield@ == old(self).battlefield@.remove(
                        first_idx_by_id(old(self).battlefield@, object_id),
                    )
                },
                None => first_idx_by_id(old(self).battlefield@, object_id) == -1 && *final(self)
                    == *old(self),
            },
    {
        match find_idx_by_id(&self.battlefield, object_id) {
            Some(i) => Some(self.battlefield.remove(i)),
            None => None,
        }
    }

    /// Empty every player's mana pool; run at phase and step boundaries.
    pub fn empty_mana_pools(&mut self)
        ensures
            same_but_players(*old(self), *final(self)),
            final(self).players@.len() == old(self).players@.len(),
            forall|i: int|
                0 <= i < old(self).players@.len() ==> (#[trigger] final(self).players@[i]) == (
                Player {
                    mana_pool: final(self).players@[i].mana_pool,
                    ..old(self).players@[i]
                }) && final(self).players@[i].mana_pool.spec_is_empty()
                    && final(self).players@[i].mana_pool.wf(),
    {
        let n = self.players.len();
        let mut i: usize = 0;
        while i < n
            invariant
                same_but_players(*old(self), *self),
                n == self.players@.len(),
                self.players@.len() == old(self).players@.len(),
                i <= n,
                forall|j: int|
                    i <= j < n ==> (#[trigger] self.players@[j]) == old(self).players@[j],
                forall|j: int|
                    0 <= j < i ==> (#[trigger] self.players@[j]) == (Player {
                        mana_pool: self.players@[j].mana_pool,
                        ..old(self).players@[j]
                    }) && self.players@[j].mana_pool.spec_is_empty()
                        && self.players@[j].mana_pool.wf(),
            decreases n - i,
        {
            let p = &mut self.players[i];
            p.mana_pool.empty();
            i = i + 1;
        }
    }
}

} // verus!
