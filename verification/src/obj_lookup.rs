use vstd::prelude::*;
use crate::game_objects::{GameObj, ZoneState};
use crate::ids::ObjectId;

verus! {

/// Index of the first object with the given id, or -1 when none has it.
pub open spec fn first_idx_by_id<S: ZoneState>(s: Seq<GameObj<S>>, id: ObjectId) -> int
    decreases s.len(),
{
    if s.len() == 0 {
        -1
    } else if s[0].id == id {
        0
    } else {
        let rest = first_idx_by_id(s.drop_first(), id);
        if rest < 0 {
            -1
        } else {
            rest + 1
        }
    }
}

/// Whether some object in the list carries the given id.
pub open spec fn has_id<S: ZoneState>(s: Seq<GameObj<S>>, id: ObjectId) -> bool {
    first_idx_by_id(s, id) >= 0
}

/// What `first_idx_by_id` means: it is the first matching position, and it
/// is -1 exactly when no position matches.
pub proof fn lemma_first_idx_props<S: ZoneState>(s: Seq<GameObj<S>>, id: ObjectId)
    ensures
        first_idx_by_id(s, id) >= 0 ==> {
            &&& first_idx_by_id(s, id) < s.len()
            &&& s[first_idx_by_id(s, id)].id == id
            &&& forall|j: int| 0 <= j < first_idx_by_id(s, id) ==> (#[trigger] s[j]).id != id
        },
        first_idx_by_id(s, id) == -1 <==> (forall|j: int|
            0 <= j < s.len() ==> (#[trigger] s[j]).id != id),
        first_idx_by_id(s, id) >= -1,
    decreases s.len(),
{
    if s.len() > 0 {
        lemma_first_idx_props(s.drop_first(), id);
        if s[0].id != id {
            assert forall|j: int|
                0 <= j < s.drop_first().len() implies (#[trigger] s.drop_first()[j]).id == s[j
                + 1].id by {
                assert(s.drop_first()[j] == s[j + 1]);
            }
            let rest = first_idx_by_id(s.drop_first(), id);
            if rest >= 0 {
                assert(s[rest + 1].id == id);
                assert forall|j: int| 0 <= j < rest + 1 implies (#[trigger] s[j]).id != id by {
                    if j > 0 {
                        assert(s.drop_first()[j - 1] == s[j]);
                    }
                }
            } else {
                assert forall|j: int| 0 <= j < s.len() implies (#[trigger] s[j]).id != id by {
                    if j > 0 {
                        assert(s.drop_first()[j - 1] == s[j]);
                    }
                }
            }
        }
    }
}

/// `first_idx_by_id` finds `i` when `i` is the first matching position.
pub proof fn lemma_first_idx_at<S: ZoneState>(s: Seq<GameObj<S>>, id: ObjectId, i: int)
    requires
        0 <= i < s.len(),
        s[i].id == id,
        forall|j: int| 0 <= j < i ==> (#[trigger] s[j]).id != id,
    ensures
        first_idx_by_id(s, id) == i,
    decreases i,
{
    if i > 0 {
        assert forall|j: int| 0 <= j < i - 1 implies (#[trigger] s.drop_first()[j]).id != id by {
            assert(s.drop_first()[j] == s[j + 1]);
        }
        assert(s.drop_first()[i - 1] == s[i]);
        lemma_first_idx_at(s.drop_first(), id, i - 1);
    }
}

/// Position of the first object with the given id, if any.
pub fn find_idx_by_id<S: ZoneState>(s: &Vec<GameObj<S>>, id: ObjectId) -> (r: Option<usize>)
    ensures
        match r {
            Some(i) => i as int == first_idx_by_id(s@, id) && i < s@.len() && s@[i as int].id
                == id,
            None => first_idx_by_id(s@, id) == -1,
        },
{
    let n = s.len();
    let mut i: usize = 0;
    while i < n
        invariant
            n == s@.len(),
            i <= n,
            forall|j: int| 0 <= j < i ==> (#[trigger] s@[j]).id != id,
        decreases n - i,
    {
        if s[i].id == id {
            proof {
                lemma_first_idx_at(s@, id, i as int);
            }
            return Some(i);
        }
        i = i + 1;
    }
    proof {
        lemma_first_idx_props(s@, id);
    }
    None
}

} // verus!
