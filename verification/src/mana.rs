use vstd::prelude::*;
use crate::errors::GameError;

verus! {

/// The six kinds of mana a pool can hold.
#[derive(Debug, Clone, Copy, PartialEq, Eq, Hash, Structural)]
pub enum ManaType {
    White,
    Blue,
    Black,
    Red,
    Green,
    Colorless,
}

/// Sum of the amounts over all entries of a pool's association list.
pub open spec fn pool_total(s: Seq<(ManaType, u64)>) -> int
    decreases s.len(),
{
    if s.len() == 0 {
        0
    } else {
        s[0].1 + pool_total(s.drop_first())
    }
}

/// Whether the association list holds an entry for `t`.
pub open spec fn pool_has_type(s: Seq<(ManaType, u64)>, t: ManaType) -> bool
    decreases s.len(),
{
    if s.len() == 0 {
        false
    } else {
        s[0].0 == t || pool_has_type(s.drop_first(), t)
    }
}

/// The amount recorded for `t`; 0 when no entry exists.
pub open spec fn pool_amount(s: Seq<(ManaType, u64)>, t: ManaType) -> u64
    decreases s.len(),
{
    if s.len() == 0 {
        0u64
    } else if s[0].0 == t {
        s[0].1
    } else {
        pool_amount(s.drop_first(), t)
    }
}

/// No two entries record the same mana type.
pub open spec fn pool_keys_unique(s: Seq<(ManaType, u64)>) -> bool {
    forall|i: int, j: int| 0 <= i < j < s.len() ==> s[i].0 != s[j].0
}

pub proof fn lemma_pool_total_nonneg(s: Seq<(ManaType, u64)>)
    ensures
        0 <= pool_total(s),
    decreases s.len(),
{
    if s.len() > 0 {
        lemma_pool_total_nonneg(s.drop_first());
    }
}

proof fn lemma_pool_amount_le_total(s: Seq<(ManaType, u64)>, t: ManaType)
    ensures
        pool_amount(s, t) <= pool_total(s),
    decreases s.len(),
{
    if s.len() > 0 {
        lemma_pool_total_nonneg(s.drop_first());
        lemma_pool_amount_le_total(s.drop_first(), t);
    }
}

proof fn lemma_pool_has_type_iff(s: Seq<(ManaType, u64)>, t: ManaType)
    ensures
        pool_has_type(s, t) <==> exists|j: int| 0 <= j < s.len() && s[j].0 == t,
    decreases s.len(),
{
    if s.len() > 0 {
        lemma_pool_has_type_iff(s.drop_first(), t);
        if s[0].0 == t {
            assert(s[0].0 == t && 0 <= 0 < s.len());
        } else if pool_has_type(s.drop_first(), t) {
            let j = choose|j: int| 0 <= j < s.drop_first().len() && s.drop_first()[j].0 == t;
            assert(s[j + 1].0 == t);
        } else {
            assert forall|j: int| 0 <= j < s.len() implies s[j].0 != t by {
                if j > 0 {
                    assert(s.drop_first()[j - 1].0 == s[j].0);
                }
            }
        }
    }
}

proof fn lemma_pool_first_match(s: Seq<(ManaType, u64)>, t: ManaType, i: int)
    requires
        0 <= i < s.len(),
        s[i].0 == t,
        forall|j: int| 0 <= j < i ==> s[j].0 != t,
    ensures
        pool_has_type(s, t),
        pool_amount(s, t) == s[i].1,
    decreases i,
{
    if i > 0 {
        assert forall|j: int| 0 <= j < i - 1 implies s.drop_first()[j].0 != t by {
            assert(s.drop_first()[j] == s[j + 1]);
        }
        assert(s.drop_first()[i - 1] == s[i]);
        lemma_pool_first_match(s.drop_first(), t, i - 1);
    }
}

proof fn lemma_pool_unique_drop_first(s: Seq<(ManaType, u64)>)
    requires
        pool_keys_unique(s),
        s.len() > 0,
    ensures
        pool_keys_unique(s.drop_first()),
{
    assert forall|a: int, b: int|
        0 <= a < b < s.drop_first().len() implies s.drop_first()[a].0 != s.drop_first()[b].0 by {
        assert(s.drop_first()[a] == s[a + 1] && s.drop_first()[b] == s[b + 1]);
    }
}

proof fn lemma_pool_update_one(s: Seq<(ManaType, u64)>, i: int, v: u64, u: ManaType)
    requires
        pool_keys_unique(s),
        0 <= i < s.len(),
    ensures
        pool_amount(s.update(i, (s[i].0, v)), u) == if u == s[i].0 {
            v
        } else {
            pool_amount(s, u)
        },
        pool_has_type(s.update(i, (s[i].0, v)), u) == pool_has_type(s, u),
    decreases i,
{
    let s2 = s.update(i, (s[i].0, v));
    if i == 0 {
        assert(s2.drop_first() =~= s.drop_first());
    } else {
        assert(s2.drop_first() =~= s.drop_first().update(i - 1, (s[i].0, v)));
        assert(s.drop_first()[i - 1] == s[i]);
        lemma_pool_unique_drop_first(s);
        lemma_pool_update_one(s.drop_first(), i - 1, v, u);
        // The head's type differs from the updated entry's type.
        assert(s[0].0 != s[i].0);
    }
}

proof fn lemma_pool_update_total(s: Seq<(ManaType, u64)>, i: int, v: u64)
    requires
        0 <= i < s.len(),
    ensures
        pool_total(s.update(i, (s[i].0, v))) == pool_total(s) - s[i].1 + v,
        pool_keys_unique(s) ==> pool_keys_unique(s.update(i, (s[i].0, v))),
    decreases i,
{
    let s2 = s.update(i, (s[i].0, v));
    assert(pool_keys_unique(s) ==> pool_keys_unique(s2)) by {
        if pool_keys_unique(s) {
            assert forall|a: int, b: int| 0 <= a < b < s2.len() implies s2[a].0 != s2[b].0 by {
                assert(s[a].0 != s[b].0);
            }
        }
    }
    if i == 0 {
        assert(s2.drop_first() =~= s.drop_first());
    } else {
        assert(s2.drop_first() =~= s.drop_first().update(i - 1, (s[i].0, v)));
        assert(s.drop_first()[i - 1] == s[i]);
        lemma_pool_update_total(s.drop_first(), i - 1, v);
    }
}

proof fn lemma_pool_push_one(s: Seq<(ManaType, u64)>, x: (ManaType, u64), u: ManaType)
    ensures
        pool_amount(s.push(x), u) == if pool_has_type(s, u) {
            pool_amount(s, u)
        } else if x.0 == u {
            x.1
        } else {
            0u64
        },
        pool_has_type(s.push(x), u) == (pool_has_type(s, u) || x.0 == u),
    decreases s.len(),
{
    let sp = s.push(x);
    assert(sp.len() == s.len() + 1);
    if s.len() == 0 {
        assert(sp.drop_first() =~= Seq::<(ManaType, u64)>::empty());
        assert(sp[0] == x);
        assert(pool_amount(sp.drop_first(), u) == 0);
        assert(!pool_has_type(sp.drop_first(), u));
        assert(!pool_has_type(s, u));
        assert(pool_amount(s, u) == 0);
    } else {
        assert(sp.drop_first() =~= s.drop_first().push(x));
        assert(sp[0] == s[0]);
        lemma_pool_push_one(s.drop_first(), x, u);
        assert(pool_has_type(sp, u) == (sp[0].0 == u || pool_has_type(sp.drop_first(), u)));
        assert(pool_has_type(s, u) == (s[0].0 == u || pool_has_type(s.drop_first(), u)));
    }
}

pub proof fn lemma_pool_push_total(s: Seq<(ManaType, u64)>, x: (ManaType, u64))
    ensures
        pool_total(s.push(x)) == pool_total(s) + x.1,
    decreases s.len(),
{
    let sp = s.push(x);
    assert(sp.len() == s.len() + 1);
    if s.len() == 0 {
        assert(sp.drop_first() =~= Seq::<(ManaType, u64)>::empty());
        assert(sp[0] == x);
        assert(pool_total(sp.drop_first()) == 0);
        assert(pool_total(sp) == sp[0].1 + pool_total(sp.drop_first()));
        assert(pool_total(s) == 0);
    } else {
        assert(sp.drop_first() =~= s.drop_first().push(x));
        assert(sp[0] == s[0]);
        lemma_pool_push_total(s.drop_first(), x);
        assert(pool_total(sp) == sp[0].1 + pool_total(sp.drop_first()));
        assert(pool_total(s) == s[0].1 + pool_total(s.drop_first()));
    }
}

/// The summed amount recorded for `t` over all entries, counting
/// duplicate entries for a type separately.
pub open spec fn pool_amount_sum(s: Seq<(ManaType, u64)>, t: ManaType) -> int
    decreases s.len(),
{
    if s.len() == 0 {
        0
    } else {
        (if s[0].0 == t {
            s[0].1 as int
        } else {
            0
        }) + pool_amount_sum(s.drop_first(), t)
    }
}

pub proof fn lemma_pool_amount_sum_push(s: Seq<(ManaType, u64)>, x: (ManaType, u64), t: ManaType)
    ensures
        pool_amount_sum(s.push(x), t) == pool_amount_sum(s, t) + (if x.0 == t {
            x.1 as int
        } else {
            0
        }),
    decreases s.len(),
{
    let sp = s.push(x);
    assert(sp.len() == s.len() + 1);
    if s.len() == 0 {
        assert(sp.drop_first() =~= Seq::<(ManaType, u64)>::empty());
        assert(sp[0] == x);
        assert(pool_amount_sum(sp.drop_first(), t) == 0);
    } else {
        assert(sp.drop_first() =~= s.drop_first().push(x));
        assert(sp[0] == s[0]);
        lemma_pool_amount_sum_push(s.drop_first(), x, t);
    }
}

pub proof fn lemma_pool_total_split(s: Seq<(ManaType, u64)>, k: int)
    requires
        0 <= k <= s.len(),
    ensures
        pool_total(s) == pool_total(s.take(k)) + pool_total(s.skip(k)),
    decreases k,
{
    if k == 0 {
        assert(s.take(0) =~= Seq::<(ManaType, u64)>::empty());
        assert(s.skip(0) =~= s);
    } else {
        lemma_pool_total_split(s, k - 1);
        assert(s.take(k) =~= s.take(k - 1).push(s[k - 1]));
        lemma_pool_push_total(s.take(k - 1), s[k - 1]);
        assert(s.skip(k - 1).drop_first() =~= s.skip(k));
        assert(s.skip(k - 1)[0] == s[k - 1]);
        assert(pool_total(s.skip(k - 1)) == s[k - 1].1 + pool_total(s.skip(k)));
    }
}

/// A per-player transient mana store: an association list from mana type to
/// amount, with at most one entry per type, cleared on phase/step boundaries.
#[derive(Debug, Clone)]
pub struct ManaPool {
    pub entries: Vec<(ManaType, u64)>,
}

impl ManaPool {
    /// Well-formedness: unique keys, and a grand total that fits in u64.
    pub open spec fn wf(self) -> bool {
        pool_keys_unique(self.entries@) && pool_total(self.entries@) <= u64::MAX
    }

    /// The amount of mana of type `t` in the pool (0 when absent).
    pub open spec fn amount_of(self, t: ManaType) -> u64 {
        pool_amount(self.entries@, t)
    }

    /// Whether the pool holds an entry for `t` (possibly of amount 0).
    pub open spec fn has_type(self, t: ManaType) -> bool {
        pool_has_type(self.entries@, t)
    }

    /// The total amount of mana in the pool, over all types.
    pub open spec fn total(self) -> int {
        pool_total(self.entries@)
    }

    /// Whether the pool holds no entries at all.
    pub open spec fn spec_is_empty(self) -> bool {
        self.entries@.len() == 0
    }

    /// A fresh, empty mana pool.
    pub fn new() -> (r: Self)
        ensures
            r.wf(),
            r.spec_is_empty(),
            forall|t: ManaType| !r.has_type(t) && r.amount_of(t) == 0,
    {
        ManaPool { entries: Vec::new() }
    }

    /// Index of the entry for `t`, if one exists.
    fn find_entry(&self, t: ManaType) -> (r: Option<usize>)
        ensures
            match r {
                Some(i) => {
                    &&& i < self.entries@.len()
                    &&& self.entries@[i as int].0 == t
                    &&& self.has_type(t)
                    &&& self.amount_of(t) == self.entries@[i as int].1
                },
                None => !self.has_type(t) && self.amount_of(t) == 0,
            },
    {
        let n = self.entries.len();
        let mut i: usize = 0;
        while i < n
            invariant
                n == self.entries@.len(),
                i <= n,
                forall|j: int| 0 <= j < i ==> self.entries@[j].0 != t,
            decreases n - i,
        {
            if self.entries[i].0 == t {
                proof {
                    lemma_pool_first_match(self.entries@, t, i as int);
                }
                return Some(i);
            }
            i = i + 1;
        }
        proof {
            lemma_pool_has_type_iff(self.entries@, t);
            assert(!pool_has_type(self.entries@, t));
            lemma_pool_amount_zero_when_absent(self.entries@, t);
        }
        None
    }

    /// All entries of the pool, for display to a caller.
    pub fn get_available_mana(&self) -> (r: Vec<(ManaType, u64)>)
        ensures
            r@ == self.entries@,
    {
        let n = self.entries.len();
        let mut r: Vec<(ManaType, u64)> = Vec::new();
        let mut i: usize = 0;
        while i < n
            invariant
                n == self.entries@.len(),
                i <= n,
                r@ =~= self.entries@.take(i as int),
            decreases n - i,
        {
            r.push(self.entries[i]);
            i = i + 1;
        }
        proof {
            assert(r@ =~= self.entries@);
        }
        r
    }

    /// Add `amount` mana of type `mana_type` to the pool.
    ///
    /// An entry for the type is created if none exists, even for amount 0.
    pub fn add_mana(&mut self, mana_type: ManaType, amount: u64)
        requires
            old(self).wf(),
            old(self).total() + amount <= u64::MAX,
        ensures
            final(self).wf(),
            final(self).amount_of(mana_type) == old(self).amount_of(mana_type) + amount,
            final(self).has_type(mana_type),
            forall|u: ManaType|
                u != mana_type ==> final(self).amount_of(u) == old(self).amount_of(u)
                    && final(self).has_type(u) == old(self).has_type(u),
            final(self).total() == old(self).total() + amount,
    {
        match self.find_entry(mana_type) {
            Some(i) => {
                proof {
                    lemma_pool_amount_le_total(self.entries@, mana_type);
                }
                let cur = self.entries[i].1;
                self.entries[i] = (mana_type, cur + amount);
                proof {
                    let s = old(self).entries@;
                    let v = (cur + amount) as u64;
                    assert(self.entries@ =~= s.update(i as int, (mana_type, v)));
                    lemma_pool_update_total(s, i as int, v);
                    lemma_pool_update_one(s, i as int, v, mana_type);
                    assert forall|u: ManaType| u != mana_type implies self.amount_of(u) == old(
                        self,
                    ).amount_of(u) && self.has_type(u) == old(self).has_type(u) by {
                        lemma_pool_update_one(s, i as int, v, u);
                    }
                }
            },
            None => {
                self.entries.push((mana_type, amount));
                proof {
                    let s = old(self).entries@;
                    lemma_pool_push_total(s, (mana_type, amount));
                    lemma_pool_amount_zero_when_absent(s, mana_type);
                    lemma_pool_push_one(s, (mana_type, amount), mana_type);
                    assert forall|u: ManaType| u != mana_type implies self.amount_of(u) == old(
                        self,
                    ).amount_of(u) && self.has_type(u) == old(self).has_type(u) by {
                        lemma_pool_push_one(s, (mana_type, amount), u);
                        if !pool_has_type(s, u) {
                            lemma_pool_amount_zero_when_absent(s, u);
                        }
                    }
                    lemma_pool_has_type_iff(s, mana_type);
                    assert forall|a: int, b: int|
                        0 <= a < b < self.entries@.len() implies self.entries@[a].0
                        != self.entries@[b].0 by {
                        if b < self.entries@.len() - 1 {
                            assert(s[a].0 != s[b].0);
                        } else {
                            assert(self.entries@[b].0 == mana_type);
                            assert(s[a].0 == self.entries@[a].0);
                        }
                    }
                }
            },
        }
    }

    /// Remove `amount` mana of type `mana_type` from the pool.
    ///
    /// Removing 0 always succeeds and changes nothing (no entry is created).
    /// Fails when no entry exists for the type, or the entry is too small;
    /// the pool is unchanged on failure.
    pub fn remove_mana(&mut self, mana_type: ManaType, amount: u64) -> (r: Result<(), GameError>)
        requires
            old(self).wf(),
        ensures
            final(self).wf(),
            amount == 0 ==> r is Ok && *final(self) == *old(self),
            amount > 0 && old(self).has_type(mana_type) && old(self).amount_of(mana_type) >= amount
                ==> {
                &&& r is Ok
                &&& final(self).amount_of(mana_type) == old(self).amount_of(mana_type) - amount
                &&& final(self).has_type(mana_type)
            },
            amount > 0 && old(self).has_type(mana_type) && old(self).amount_of(mana_type) < amount
                ==> r == Err::<(), GameError>(GameError::NotEnoughManaOfType(mana_type))
                    && *final(self) == *old(self),
            amount > 0 && !old(self).has_type(mana_type)
                ==> r == Err::<(), GameError>(GameError::NoManaOfType(mana_type))
                    && *final(self) == *old(self),
            forall|u: ManaType|
                u != mana_type ==> final(self).amount_of(u) == old(self).amount_of(u)
                    && final(self).has_type(u) == old(self).has_type(u),
            r is Ok ==> final(self).total() == old(self).total() - amount,
            r is Err ==> *final(self) == *old(self),
    {
        if amount == 0 {
            return Ok(());
        }
        match self.find_entry(mana_type) {
            Some(i) => {
                let cur = self.entries[i].1;
                if cur >= amount {
                    self.entries[i] = (mana_type, cur - amount);
                    proof {
                        let s = old(self).entries@;
                        let v = (cur - amount) as u64;
                        assert(self.entries@ =~= s.update(i as int, (mana_type, v)));
                        lemma_pool_total_nonneg(s);
                        lemma_pool_update_total(s, i as int, v);
                        lemma_pool_update_one(s, i as int, v, mana_type);
                        assert forall|u: ManaType| u != mana_type implies self.amount_of(u) == old(
                            self,
                        ).amount_of(u) && self.has_type(u) == old(self).has_type(u) by {
                            lemma_pool_update_one(s, i as int, v, u);
                        }
                    }
                    Ok(())
                } else {
                    Err(GameError::NotEnoughManaOfType(mana_type))
                }
            },
            None => Err(GameError::NoManaOfType(mana_type)),
        }
    }

    /// The total amount of mana in the pool, regardless of type.
    pub fn get_generic_mana(&self) -> (r: u64)
        requires
            self.wf(),
        ensures
            r == self.total(),
    {
        let n = self.entries.len();
        let mut acc: u64 = 0;
        let mut i: usize = 0;
        proof {
            assert(self.entries@.skip(0) =~= self.entries@);
        }
        while i < n
            invariant
                self.wf(),
                n == self.entries@.len(),
                i <= n,
                acc + pool_total(self.entries@.skip(i as int)) == pool_total(self.entries@),
            decreases n - i,
        {
            proof {
                assert(self.entries@.skip(i as int).drop_first() =~= self.entries@.skip(
                    i as int + 1,
                ));
                assert(self.entries@.skip(i as int)[0] == self.entries@[i as int]);
                lemma_pool_total_nonneg(self.entries@.skip(i as int + 1));
            }
            acc = acc + self.entries[i].1;
            i = i + 1;
        }
        proof {
            assert(self.entries@.skip(n as int) =~= Seq::<(ManaType, u64)>::empty());
        }
        acc
    }

    /// Whether the pool can cover `amount` mana of type `mana_type`.
    ///
    /// 0 mana of any type is always covered.
    pub fn has_mana(&self, mana_type: ManaType, amount: u64) -> (r: bool)
        ensures
            r == (amount == 0 || (self.has_type(mana_type) && self.amount_of(mana_type)
                >= amount)),
    {
        if amount == 0 {
            true
        } else {
            match self.find_entry(mana_type) {
                Some(i) => self.entries[i].1 >= amount,
                None => false,
            }
        }
    }

    /// Empty the pool completely.
    pub fn empty(&mut self)
        ensures
            final(self).wf(),
            final(self).spec_is_empty(),
            forall|t: ManaType| !final(self).has_type(t) && final(self).amount_of(t) == 0,
    {
        self.entries.clear();
    }
}

impl ManaPool {
    /// The amount of mana of the given type in the pool; 0 when absent.
    pub fn amount(&self, mana_type: ManaType) -> (r: u64)
        ensures
            r == self.amount_of(mana_type),
    {
        match self.find_entry(mana_type) {
            Some(i) => self.entries[i].1,
            None => 0,
        }
    }
}

/// The amounts a pool holds of each mana type, as one record. The
/// mathematical summary that cost payment is specified over.
#[derive(Debug, Clone, Copy, PartialEq, Eq, Structural)]
pub struct PoolSnapshot {
    pub white: u64,
    pub blue: u64,
    pub black: u64,
    pub red: u64,
    pub green: u64,
    pub colorless: u64,
}

/// The snapshot of a pool: its amount of each type.
pub open spec fn snapshot_of(p: ManaPool) -> PoolSnapshot {
    PoolSnapshot {
        white: p.amount_of(ManaType::White),
        blue: p.amount_of(ManaType::Blue),
        black: p.amount_of(ManaType::Black),
        red: p.amount_of(ManaType::Red),
        green: p.amount_of(ManaType::Green),
        colorless: p.amount_of(ManaType::Colorless),
    }
}

/// The total mana in a snapshot.
pub open spec fn snapshot_total(s: PoolSnapshot) -> int {
    s.white + s.blue + s.black + s.red + s.green + s.colorless
}

/// With unique keys, the pool's total is the sum of its per-type amounts.
pub proof fn lemma_pool_total_by_types(s: Seq<(ManaType, u64)>)
    requires
        pool_keys_unique(s),
    ensures
        pool_total(s) == pool_amount(s, ManaType::White) + pool_amount(s, ManaType::Blue)
            + pool_amount(s, ManaType::Black) + pool_amount(s, ManaType::Red) + pool_amount(
            s,
            ManaType::Green,
        ) + pool_amount(s, ManaType::Colorless),
    decreases s.len(),
{
    if s.len() > 0 {
        lemma_pool_unique_drop_first(s);
        lemma_pool_total_by_types(s.drop_first());
        // The head's key occurs nowhere in the tail, so the tail records
        // no amount for it.
        assert forall|j: int|
            0 <= j < s.drop_first().len() implies (#[trigger] s.drop_first()[j]).0 != s[0].0 by {
            assert(s.drop_first()[j] == s[j + 1]);
        }
        lemma_pool_has_type_iff(s.drop_first(), s[0].0);
        lemma_pool_amount_zero_when_absent(s.drop_first(), s[0].0);
    }
}

pub proof fn lemma_pool_amount_zero_when_absent(s: Seq<(ManaType, u64)>, t: ManaType)
    requires
        !pool_has_type(s, t),
    ensures
        pool_amount(s, t) == 0,
    decreases s.len(),
{
    if s.len() > 0 {
        lemma_pool_amount_zero_when_absent(s.drop_first(), t);
    }
}

} // verus!
