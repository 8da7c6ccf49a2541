//! Connection bookkeeping: two-way associations between usernames,
//! player keys, per-player map ids and unit ids. Every operation keeps
//! both directions consistent — that referential consistency is the
//! module's invariant, stated in each type's `wf`.

use crate::{PlayerKey, UnitId};
use vstd::prelude::*;

verus! {

/// The answer of a two-way deletion.
#[derive(Clone, Copy, Debug, PartialEq, Eq, Structural)]
pub enum DeletedStatus {
    AssociatedNotFound,
    Deleted,
}

/// A two-way association between usernames and player keys.
#[derive(Debug)]
pub struct UsernameKeyAssociation {
    pairs: Vec<(String, PlayerKey)>,
}

impl UsernameKeyAssociation {
    /// The association list as a sequence of pairs.
    pub closed spec fn view(self) -> Seq<(String, PlayerKey)> {
        self.pairs@
    }

    /// No username and no key appears twice: each side determines the
    /// other.
    pub open spec fn wf(self) -> bool {
        forall|i: int, j: int|
            0 <= i < j < self.view().len() ==> (#[trigger] self.view()[i]).0@ != (
            #[trigger] self.view()[j]).0@ && self.view()[i].1 != self.view()[j].1
    }

    /// Whether some pair carries this username.
    pub open spec fn spec_has_name(self, name: Seq<char>) -> bool {
        exists|i: int| 0 <= i < self.view().len() && (#[trigger] self.view()[i]).0@ == name
    }

    /// Whether some pair carries this key.
    pub open spec fn spec_has_key(self, key: PlayerKey) -> bool {
        exists|i: int| 0 <= i < self.view().len() && (#[trigger] self.view()[i]).1 == key
    }

    pub fn new() -> (assoc: UsernameKeyAssociation)
        ensures
            assoc.wf(),
            assoc.view().len() == 0,
    {
        UsernameKeyAssociation { pairs: Vec::new() }
    }

    /// Associate a fresh username with a fresh key, both directions at
    /// once.
    pub fn insert(&mut self, name: String, key: PlayerKey)
        requires
            old(self).wf(),
            !old(self).spec_has_name(name@),
            !old(self).spec_has_key(key),
        ensures
            final(self).wf(),
            final(self).view() == old(self).view().push((name, key)),
    {
        self.pairs.push((name, key));
        proof {
            assert forall|i: int, j: int| 0 <= i < j < self.view().len() implies (
            #[trigger] self.view()[i]).0@ != (#[trigger] self.view()[j]).0@ && self.view()[i].1
                != self.view()[j].1 by {
                if j == self.view().len() - 1 {
                    assert(!((#[trigger] old(self).view()[i]).0@ == name@));
                    assert(!((#[trigger] old(self).view()[i]).1 == key));
                }
            }
        }
    }

    /// The key a username maps to, when it is present.
    pub fn get_from_name(&self, name: &str) -> (found: Option<PlayerKey>)
        ensures
            match found {
                Some(key) => exists|i: int|
                    0 <= i < self.view().len() && (#[trigger] self.view()[i]).0@ == name@
                        && self.view()[i].1 == key,
                None => !self.spec_has_name(name@),
            },
    {
        let name_owned: String = name.to_string();
        let mut i: usize = 0;
        while i < self.pairs.len()
            invariant
                i <= self.view().len(),
                name_owned@ == name@,
                forall|j: int| 0 <= j < i ==> (#[trigger] self.view()[j]).0@ != name@,
            decreases self.view().len() - i,
        {
            if self.pairs[i].0 == name_owned {
                return Some(self.pairs[i].1);
            }
            i = i + 1;
        }
        None
    }

    /// The username a key maps to, when it is present.
    pub fn get_from_key(&self, key: PlayerKey) -> (found: Option<&String>)
        ensures
            match found {
                Some(name) => exists|i: int|
                    0 <= i < self.view().len() && (#[trigger] self.view()[i]).1 == key
                        && self.view()[i].0@ == name@,
                None => !self.spec_has_key(key),
            },
    {
        let mut i: usize = 0;
        while i < self.pairs.len()
            invariant
                i <= self.view().len(),
                forall|j: int| 0 <= j < i ==> (#[trigger] self.view()[j]).1 != key,
            decreases self.view().len() - i,
        {
            if self.pairs[i].1 == key {
                return Some(&self.pairs[i].0);
            }
            i = i + 1;
        }
        None
    }

    /// Drop the pair carrying this username, both directions at once.
    pub fn delete_from_name(&mut self, name: &str) -> (status: DeletedStatus)
        requires
            old(self).wf(),
        ensures
            final(self).wf(),
            !final(self).spec_has_name(name@),
            status == DeletedStatus::Deleted <==> old(self).spec_has_name(name@),
            status == DeletedStatus::Deleted ==> exists|i: int|
                0 <= i < old(self).view().len() && final(self).view() == old(self).view().remove(
                    i,
                ),
            status == DeletedStatus::AssociatedNotFound ==> final(self).view() == old(self).view(),
    {
        let name_owned: String = name.to_string();
        let mut i: usize = 0;
        while i < self.pairs.len()
            invariant
                i <= self.view().len(),
                old(self).wf(),
                *self == *old(self),
                name_owned@ == name@,
                forall|j: int| 0 <= j < i ==> (#[trigger] self.view()[j]).0@ != name@,
            decreases self.view().len() - i,
        {
            if self.pairs[i].0 == name_owned {
                self.pairs.remove(i);
                proof {
                    lemma_remove_keeps_distinct_pairs(old(self).view(), i as int);
                    assert forall|j: int| 0 <= j < self.view().len() implies (
                    #[trigger] self.view()[j]).0@ != name@ by {
                        if j < i {
                            assert(self.view()[j] == old(self).view()[j]);
                        } else {
                            assert(self.view()[j] == old(self).view()[j + 1]);
                            assert(old(self).view()[i as int].0@ == name@);
                        }
                    }
                    assert(self.view() == old(self).view().remove(i as int));
                }
                return DeletedStatus::Deleted;
            }
            i = i + 1;
        }
        DeletedStatus::AssociatedNotFound
    }

    /// Drop the pair carrying this key, both directions at once.
    pub fn delete_from_key(&mut self, key: PlayerKey) -> (status: DeletedStatus)
        requires
            old(self).wf(),
        ensures
            final(self).wf(),
            !final(self).spec_has_key(key),
            status == DeletedStatus::Deleted <==> old(self).spec_has_key(key),
            status == DeletedStatus::Deleted ==> exists|i: int|
                0 <= i < old(self).view().len() && final(self).view() == old(self).view().remove(
                    i,
                ),
            status == DeletedStatus::AssociatedNotFound ==> final(self).view() == old(self).view(),
    {
        let mut i: usize = 0;
        while i < self.pairs.len()
            invariant
                i <= self.view().len(),
                old(self).wf(),
                *self == *old(self),
                forall|j: int| 0 <= j < i ==> (#[trigger] self.view()[j]).1 != key,
            decreases self.view().len() - i,
        {
            if self.pairs[i].1 == key {
                self.pairs.remove(i);
                proof {
                    lemma_remove_keeps_distinct_pairs(old(self).view(), i as int);
                    assert forall|j: int| 0 <= j < self.view().len() implies (
                    #[trigger] self.view()[j]).1 != key by {
                        if j < i {
                            assert(self.view()[j] == old(self).view()[j]);
                        } else {
                            assert(self.view()[j] == old(self).view()[j + 1]);
                        }
                    }
                    assert(self.view() == old(self).view().remove(i as int));
                }
                return DeletedStatus::Deleted;
            }
            i = i + 1;
        }
        DeletedStatus::AssociatedNotFound
    }
}

/// Removing one pair keeps the remaining usernames and keys distinct.
proof fn lemma_remove_keeps_distinct_pairs(pairs: Seq<(String, PlayerKey)>, at: int)
    requires
        0 <= at < pairs.len(),
        forall|i: int, j: int|
            0 <= i < j < pairs.len() ==> (#[trigger] pairs[i]).0@ != (#[trigger] pairs[j]).0@
                && pairs[i].1 != pairs[j].1,
    ensures
        forall|i: int, j: int|
            0 <= i < j < pairs.remove(at).len() ==> (#[trigger] pairs.remove(at)[i]).0@ != (
            #[trigger] pairs.remove(at)[j]).0@ && pairs.remove(at)[i].1 != pairs.remove(at)[j].1,
{
    let out = pairs.remove(at);
    assert forall|i: int, j: int| 0 <= i < j < out.len() implies (#[trigger] out[i]).0@ != (
    #[trigger] out[j]).0@ && out[i].1 != out[j].1 by {
        let i0 = if i < at {
            i
        } else {
            i + 1
        };
        let j0 = if j < at {
            j
        } else {
            j + 1
        };
        assert(out[i] == pairs[i0]);
        assert(out[j] == pairs[j0]);
    }
}

/// A two-way association between player keys and the id of the entity
/// holding that player's subjective map.
#[derive(Debug)]
pub struct KeyMapAssociation {
    pairs: Vec<(PlayerKey, u64)>,
}

impl KeyMapAssociation {
    /// The association list as a sequence of pairs.
    pub closed spec fn view(self) -> Seq<(PlayerKey, u64)> {
        self.pairs@
    }

    /// No key and no map id appears twice.
    pub open spec fn wf(self) -> bool {
        forall|i: int, j: int|
            0 <= i < j < self.view().len() ==> (#[trigger] self.view()[i]).0 != (
            #[trigger] self.view()[j]).0 && self.view()[i].1 != self.view()[j].1
    }

    /// Whether some pair carries this player key.
    pub open spec fn spec_has_key(self, key: PlayerKey) -> bool {
        exists|i: int| 0 <= i < self.view().len() && (#[trigger] self.view()[i]).0 == key
    }

    /// Whether some pair carries this map id.
    pub open spec fn spec_has_entity(self, entity: u64) -> bool {
        exists|i: int| 0 <= i < self.view().len() && (#[trigger] self.view()[i]).1 == entity
    }

    pub fn new() -> (assoc: KeyMapAssociation)
        ensures
            assoc.wf(),
            assoc.view().len() == 0,
    {
        KeyMapAssociation { pairs: Vec::new() }
    }

    /// Associate a fresh key with a fresh map id, both directions at
    /// once.
    pub fn insert(&mut self, key: PlayerKey, entity: u64)
        requires
            old(self).wf(),
            !old(self).spec_has_key(key),
            !old(self).spec_has_entity(entity),
        ensures
            final(self).wf(),
            final(self).view() == old(self).view().push((key, entity)),
    {
        self.pairs.push((key, entity));
        proof {
            assert(self.view() =~= old(self).view().push((key, entity)));
            assert forall|i: int, j: int| 0 <= i < j < self.view().len() implies (
            #[trigger] self.view()[i]).0 != (#[trigger] self.view()[j]).0 && self.view()[i].1
                != self.view()[j].1 by {
                if j == self.view().len() - 1 {
                    assert(!((#[trigger] old(self).view()[i]).0 == key));
                    assert(!((#[trigger] old(self).view()[i]).1 == entity));
                }
            }
        }
    }

    /// The map id a key maps to, when it is present.
    pub fn get_from_key(&self, key: PlayerKey) -> (found: Option<u64>)
        ensures
            match found {
                Some(entity) => exists|i: int|
                    0 <= i < self.view().len() && #[trigger] self.view()[i] == (key, entity),
                None => !self.spec_has_key(key),
            },
    {
        let mut i: usize = 0;
        while i < self.pairs.len()
            invariant
                i <= self.view().len(),
                forall|j: int| 0 <= j < i ==> (#[trigger] self.view()[j]).0 != key,
            decreases self.view().len() - i,
        {
            if self.pairs[i].0 == key {
                proof {
                    assert(self.view()[i as int] == (key, self.view()[i as int].1));
                }
                return Some(self.pairs[i].1);
            }
            i = i + 1;
        }
        None
    }

    /// The key a map id maps to, when it is present.
    pub fn get_from_entity(&self, entity: u64) -> (found: Option<PlayerKey>)
        ensures
            match found {
                Some(key) => exists|i: int|
                    0 <= i < self.view().len() && #[trigger] self.view()[i] == (key, entity),
                None => !self.spec_has_entity(entity),
            },
    {
        let mut i: usize = 0;
        while i < self.pairs.len()
            invariant
                i <= self.view().len(),
                forall|j: int| 0 <= j < i ==> (#[trigger] self.view()[j]).1 != entity,
            decreases self.view().len() - i,
        {
            if self.pairs[i].1 == entity {
                proof {
                    assert(self.view()[i as int] == (self.view()[i as int].0, entity));
                }
                return Some(self.pairs[i].0);
            }
            i = i + 1;
        }
        None
    }

    /// Drop the pair carrying this key, both directions at once.
    pub fn delete_from_key(&mut self, key: PlayerKey) -> (status: DeletedStatus)
        requires
            old(self).wf(),
        ensures
            final(self).wf(),
            !final(self).spec_has_key(key),
            status == DeletedStatus::Deleted <==> old(self).spec_has_key(key),
            status == DeletedStatus::Deleted ==> exists|i: int|
                0 <= i < old(self).view().len() && final(self).view() == old(self).view().remove(
                    i,
                ),
            status == DeletedStatus::AssociatedNotFound ==> final(self).view() == old(self).view(),
    {
        let mut i: usize = 0;
        while i < self.pairs.len()
            invariant
                i <= self.view().len(),
                old(self).wf(),
                *self == *old(self),
                forall|j: int| 0 <= j < i ==> (#[trigger] self.view()[j]).0 != key,
            decreases self.view().len() - i,
        {
            if self.pairs[i].0 == key {
                self.pairs.remove(i);
                proof {
                    lemma_remove_keeps_distinct_u64_pairs(old(self).view(), i as int);
                    assert forall|j: int| 0 <= j < self.view().len() implies (
                    #[trigger] self.view()[j]).0 != key by {
                        if j < i {
                            assert(self.view()[j] == old(self).view()[j]);
                        } else {
                            assert(self.view()[j] == old(self).view()[j + 1]);
                        }
                    }
                    assert(self.view() == old(self).view().remove(i as int));
                }
                return DeletedStatus::Deleted;
            }
            i = i + 1;
        }
        DeletedStatus::AssociatedNotFound
    }

    /// Drop the pair carrying this map id, both directions at once.
    pub fn delete_from_entity(&mut self, entity: u64) -> (status: DeletedStatus)
        requires
            old(self).wf(),
        ensures
            final(self).wf(),
            !final(self).spec_has_entity(entity),
            status == DeletedStatus::Deleted <==> old(self).spec_has_entity(entity),
            status == DeletedStatus::Deleted ==> exists|i: int|
                0 <= i < old(self).view().len() && final(self).view() == old(self).view().remove(
                    i,
                ),
            status == DeletedStatus::AssociatedNotFound ==> final(self).view() == old(self).view(),
    {
        let mut i: usize = 0;
        while i < self.pairs.len()
            invariant
                i <= self.view().len(),
                old(self).wf(),
                *self == *old(self),
                forall|j: int| 0 <= j < i ==> (#[trigger] self.view()[j]).1 != entity,
            decreases self.view().len() - i,
        {
            if self.pairs[i].1 == entity {
                self.pairs.remove(i);
                proof {
                    lemma_remove_keeps_distinct_u64_pairs(old(self).view(), i as int);
                    assert forall|j: int| 0 <= j < self.view().len() implies (
                    #[trigger] self.view()[j]).1 != entity by {
                        if j < i {
                            assert(self.view()[j] == old(self).view()[j]);
                        } else {
                            assert(self.view()[j] == old(self).view()[j + 1]);
                        }
                    }
                    assert(self.view() == old(self).view().remove(i as int));
                }
                return DeletedStatus::Deleted;
            }
            i = i + 1;
        }
        DeletedStatus::AssociatedNotFound
    }
}

/// Removing one pair keeps the remaining keys and ids distinct.
proof fn lemma_remove_keeps_distinct_u64_pairs(pairs: Seq<(PlayerKey, u64)>, at: int)
    requires
        0 <= at < pairs.len(),
        forall|i: int, j: int|
            0 <= i < j < pairs.len() ==> (#[trigger] pairs[i]).0 != (#[trigger] pairs[j]).0
                && pairs[i].1 != pairs[j].1,
    ensures
        forall|i: int, j: int|
            0 <= i < j < pairs.remove(at).len() ==> (#[trigger] pairs.remove(at)[i]).0 != (
            #[trigger] pairs.remove(at)[j]).0 && pairs.remove(at)[i].1 != pairs.remove(at)[j].1,
{
    let out = pairs.remove(at);
    assert forall|i: int, j: int| 0 <= i < j < out.len() implies (#[trigger] out[i]).0 != (
    #[trigger] out[j]).0 && out[i].1 != out[j].1 by {
        let i0 = if i < at {
            i
        } else {
            i + 1
        };
        let j0 = if j < at {
            j
        } else {
            j + 1
        };
        assert(out[i] == pairs[i0]);
        assert(out[j] == pairs[j0]);
    }
}

/// A two-way association between player keys and the units they own.
#[derive(Debug)]
pub struct KeyUnitsAssociation {
    entries: Vec<(PlayerKey, Vec<UnitId>)>,
}

impl KeyUnitsAssociation {
    /// The association as a sequence of per-player unit lists.
    pub closed spec fn view(self) -> Seq<(PlayerKey, Seq<UnitId>)> {
        Seq::new(self.entries@.len(), |i: int| (self.entries@[i].0, self.entries@[i].1@))
    }

    /// Each key appears once, and no unit is owned by two entries or
    /// listed twice: the forward and reverse directions agree.
    pub open spec fn wf(self) -> bool {
        &&& forall|i: int, j: int|
            0 <= i < j < self.view().len() ==> (#[trigger] self.view()[i]).0 != (
            #[trigger] self.view()[j]).0
        &&& forall|i: int, j: int, a: int, b: int|
            0 <= i < self.view().len() && 0 <= j < self.view().len() && 0 <= a
                < self.view()[i].1.len() && 0 <= b < self.view()[j].1.len() && (i, a) != (j, b)
                ==> #[trigger] self.view()[i].1[a] != #[trigger] self.view()[j].1[b]
    }

    /// The player owning the given unit, when the unit is listed.
    pub open spec fn spec_owner_of(self, unit: UnitId) -> Option<PlayerKey> {
        if exists|i: int|
            0 <= i < self.view().len() && (#[trigger] self.view()[i]).1.contains(unit) {
            let i = choose|i: int|
                0 <= i < self.view().len() && (#[trigger] self.view()[i]).1.contains(unit);
            Some(self.view()[i].0)
        } else {
            None
        }
    }

    /// Whether some entry carries this key.
    pub open spec fn spec_has_key(self, key: PlayerKey) -> bool {
        exists|i: int| 0 <= i < self.view().len() && (#[trigger] self.view()[i]).0 == key
    }

    pub fn new() -> (assoc: KeyUnitsAssociation)
        ensures
            assoc.wf(),
            assoc.view().len() == 0,
    {
        KeyUnitsAssociation { entries: Vec::new() }
    }

    /// List a fresh unit under its owner, creating the owner's entry
    /// when it is their first unit.
    pub fn insert(&mut self, key: PlayerKey, unit: UnitId)
        requires
            old(self).wf(),
            old(self).spec_owner_of(unit) is None,
        ensures
            final(self).wf(),
            final(self).spec_owner_of(unit) == Some(key),
            forall|k2: PlayerKey, u2: UnitId|
                u2 != unit ==> #[trigger] spec_lists_unit(final(self).view(), k2, u2)
                    == spec_lists_unit(old(self).view(), k2, u2),
    {
        let ghost pre = *self;
        let mut i: usize = 0;
        while i < self.entries.len()
            invariant
                i <= self.entries@.len(),
                *self == pre,
                pre == *old(self),
                pre.wf(),
                pre.spec_owner_of(unit) is None,
                forall|j: int| 0 <= j < i ==> (#[trigger] pre.view()[j]).0 != key,
            decreases self.entries@.len() - i,
        {
            if self.entries[i].0 == key {
                let mut entry: (PlayerKey, Vec<UnitId>) = (0, Vec::new());
                vstd::pervasive::VecAdditionalExecFns::set_and_swap(
                    &mut self.entries,
                    i,
                    &mut entry,
                );
                entry.1.push(unit);
                vstd::pervasive::VecAdditionalExecFns::set_and_swap(
                    &mut self.entries,
                    i,
                    &mut entry,
                );
                proof {
                    assert(self.view() =~= pre.view().update(
                        i as int,
                        (key, pre.view()[i as int].1.push(unit)),
                    ));
                    lemma_units_insert_existing(pre, *self, key, unit, i as int);
                }
                return ;
            }
            i = i + 1;
        }
        let mut fresh: Vec<UnitId> = Vec::new();
        fresh.push(unit);
        self.entries.push((key, fresh));
        proof {
            assert(self.view().len() == pre.view().len() + 1);
            assert forall|j: int| 0 <= j < pre.view().len() implies #[trigger] self.view()[j]
                == pre.view()[j] by {}
            assert(self.view()[pre.view().len() as int].1 =~= seq![unit]);
            lemma_units_insert_fresh(pre, *self, key, unit);
        }
    }

    /// The units a player owns, when the player has an entry.
    pub fn get_from_key(&self, key: PlayerKey) -> (found: Option<&Vec<UnitId>>)
        ensures
            match found {
                Some(units) => exists|i: int|
                    0 <= i < self.view().len() && #[trigger] self.view()[i] == (key, units@),
                None => !self.spec_has_key(key),
            },
    {
        let mut i: usize = 0;
        while i < self.entries.len()
            invariant
                i <= self.entries@.len(),
                forall|j: int| 0 <= j < i ==> (#[trigger] self.view()[j]).0 != key,
            decreases self.entries@.len() - i,
        {
            if self.entries[i].0 == key {
                proof {
                    assert(self.view()[i as int] == (key, self.entries@[i as int].1@));
                }
                return Some(&self.entries[i].1);
            }
            i = i + 1;
        }
        None
    }

    /// The owner of the given unit, when the unit is listed.
    pub fn get_from_entity(&self, unit: UnitId) -> (found: Option<PlayerKey>)
        requires
            self.wf(),
        ensures
            found == self.spec_owner_of(unit),
    {
        let mut i: usize = 0;
        while i < self.entries.len()
            invariant
                self.wf(),
                i <= self.entries@.len(),
                forall|j: int| 0 <= j < i ==> !(#[trigger] self.view()[j]).1.contains(unit),
            decreases self.entries@.len() - i,
        {
            if unit_list_contains(&self.entries[i].1, unit) {
                proof {
                    assert((#[trigger] self.view()[i as int]).1.contains(unit));
                    let w = choose|w: int|
                        0 <= w < self.view().len() && (#[trigger] self.view()[w]).1.contains(unit);
                    if w != i {
                        let a = choose|a: int|
                            0 <= a < self.view()[w].1.len() && self.view()[w].1[a] == unit;
                        let b = choose|b: int|
                            0 <= b < self.view()[i as int].1.len() && self.view()[i as int].1[b]
                                == unit;
                        assert(false);
                    }
                }
                return Some(self.entries[i].0);
            }
            i = i + 1;
        }
        proof {
            if self.spec_owner_of(unit) is Some {
                let w = choose|w: int|
                    0 <= w < self.view().len() && (#[trigger] self.view()[w]).1.contains(unit);
                assert(false);
            }
        }
        None
    }
}

/// Whether the unit list holds `u`.
fn unit_list_contains(units: &Vec<UnitId>, u: UnitId) -> (found: bool)
    ensures
        found == units@.contains(u),
{
    let mut i: usize = 0;
    while i < units.len()
        invariant
            i <= units@.len(),
            forall|j: int| 0 <= j < i ==> units@[j] != u,
        decreases units@.len() - i,
    {
        if units[i] == u {
            proof {
                assert(units@[i as int] == u);
            }
            return true;
        }
        i = i + 1;
    }
    proof {
        if units@.contains(u) {
            let j = choose|j: int| 0 <= j < units@.len() && units@[j] == u;
            assert(false);
        }
    }
    false
}

/// Entry `key` lists unit `u`.
pub open spec fn spec_lists_unit(view: Seq<(PlayerKey, Seq<UnitId>)>, key: PlayerKey, u: UnitId) -> bool {
    exists|i: int|
        0 <= i < view.len() && (#[trigger] view[i]).0 == key && view[i].1.contains(u)
}

/// Appending a fresh unit to an existing entry keeps the association
/// consistent and lists the unit under that entry alone.
proof fn lemma_units_insert_existing(
    pre: KeyUnitsAssociation,
    post: KeyUnitsAssociation,
    key: PlayerKey,
    unit: UnitId,
    at: int,
)
    requires
        pre.wf(),
        pre.spec_owner_of(unit) is None,
        0 <= at < pre.view().len(),
        pre.view()[at].0 == key,
        post.view() == pre.view().update(at, (key, pre.view()[at].1.push(unit))),
    ensures
        post.wf(),
        post.spec_owner_of(unit) == Some(key),
        forall|k2: PlayerKey, u2: UnitId|
            u2 != unit ==> #[trigger] spec_lists_unit(post.view(), k2, u2) == spec_lists_unit(
                pre.view(),
                k2,
                u2,
            ),
{
    let pv = post.view();
    let ov = pre.view();
    assert forall|i: int, j: int, a: int, b: int|
        0 <= i < pv.len() && 0 <= j < pv.len() && 0 <= a < pv[i].1.len() && 0 <= b < pv[j].1.len()
            && (i, a) != (j, b) implies #[trigger] pv[i].1[a] != #[trigger] pv[j].1[b] by {
        lemma_unit_slot_source(ov, pv, at, unit, i, a);
        lemma_unit_slot_source(ov, pv, at, unit, j, b);
        if pv[i].1[a] == unit && pv[j].1[b] == unit {
            assert((i, a) == (j, b));
        }
    }
    assert(pv[at].1.contains(unit)) by {
        assert(pv[at].1[pv[at].1.len() - 1] == unit);
    }
    let w = choose|w: int| 0 <= w < pv.len() && (#[trigger] pv[w]).1.contains(unit);
    if w != at {
        let a = choose|a: int| 0 <= a < pv[w].1.len() && pv[w].1[a] == unit;
        lemma_unit_slot_source(ov, pv, at, unit, w, a);
        assert(ov[w].1.contains(unit));
        assert(false);
    }
    assert forall|k2: PlayerKey, u2: UnitId| u2 != unit implies #[trigger] spec_lists_unit(
        pv,
        k2,
        u2,
    ) == spec_lists_unit(ov, k2, u2) by {
        if spec_lists_unit(pv, k2, u2) {
            let i = choose|i: int|
                0 <= i < pv.len() && (#[trigger] pv[i]).0 == k2 && pv[i].1.contains(u2);
            let a = choose|a: int| 0 <= a < pv[i].1.len() && pv[i].1[a] == u2;
            lemma_unit_slot_source(ov, pv, at, unit, i, a);
            assert(ov[i].1.contains(u2));
            assert(spec_lists_unit(ov, k2, u2));
        }
        if spec_lists_unit(ov, k2, u2) {
            let i = choose|i: int|
                0 <= i < ov.len() && (#[trigger] ov[i]).0 == k2 && ov[i].1.contains(u2);
            let a = choose|a: int| 0 <= a < ov[i].1.len() && ov[i].1[a] == u2;
            if i == at {
                assert(pv[i].1[a] == u2);
            } else {
                assert(pv[i].1[a] == u2);
            }
            assert(pv[i].1.contains(u2));
            assert(spec_lists_unit(pv, k2, u2));
        }
    }
}

/// In the updated association, every listed unit slot either existed
/// before or is the newly pushed unit at the updated entry's end.
proof fn lemma_unit_slot_source(
    ov: Seq<(PlayerKey, Seq<UnitId>)>,
    pv: Seq<(PlayerKey, Seq<UnitId>)>,
    at: int,
    unit: UnitId,
    i: int,
    a: int,
)
    requires
        0 <= at < ov.len(),
        pv == ov.update(at, (ov[at].0, ov[at].1.push(unit))),
        0 <= i < pv.len(),
        0 <= a < pv[i].1.len(),
    ensures
        (i == at && a == ov[at].1.len()) ==> pv[i].1[a] == unit,
        !(i == at && a == ov[at].1.len()) ==> 0 <= a < ov[i].1.len() && pv[i].1[a] == ov[i].1[a],
{
    if i == at {
        assert(pv[i].1 == ov[at].1.push(unit));
    } else {
        assert(pv[i] == ov[i]);
    }
}

/// Adding a one-unit entry for a fresh key keeps the association
/// consistent and lists the unit under that entry alone.
proof fn lemma_units_insert_fresh(
    pre: KeyUnitsAssociation,
    post: KeyUnitsAssociation,
    key: PlayerKey,
    unit: UnitId,
)
    requires
        pre.wf(),
        pre.spec_owner_of(unit) is None,
        !pre.spec_has_key(key),
        post.view().len() == pre.view().len() + 1,
        forall|j: int| 0 <= j < pre.view().len() ==> #[trigger] post.view()[j] == pre.view()[j],
        post.view()[pre.view().len() as int].0 == key,
        post.view()[pre.view().len() as int].1 == seq![unit],
    ensures
        post.wf(),
        post.spec_owner_of(unit) == Some(key),
        forall|k2: PlayerKey, u2: UnitId|
            u2 != unit ==> #[trigger] spec_lists_unit(post.view(), k2, u2) == spec_lists_unit(
                pre.view(),
                k2,
                u2,
            ),
{
    let pv = post.view();
    let ov = pre.view();
    let n = ov.len() as int;
    assert forall|i: int, j: int| 0 <= i < j < pv.len() implies (#[trigger] pv[i]).0 != (
    #[trigger] pv[j]).0 by {
        if j == n {
            assert(!((#[trigger] ov[i]).0 == key));
        }
    }
    assert forall|i: int, j: int, a: int, b: int|
        0 <= i < pv.len() && 0 <= j < pv.len() && 0 <= a < pv[i].1.len() && 0 <= b < pv[j].1.len()
            && (i, a) != (j, b) implies #[trigger] pv[i].1[a] != #[trigger] pv[j].1[b] by {
        if i < n && pv[i].1[a] == unit {
            assert(ov[i].1.contains(unit));
            assert(false);
        }
        if j < n && pv[j].1[b] == unit {
            assert(ov[j].1.contains(unit));
            assert(false);
        }
    }
    assert(pv[n].1.contains(unit)) by {
        assert(pv[n].1[0] == unit);
    }
    let w = choose|w: int| 0 <= w < pv.len() && (#[trigger] pv[w]).1.contains(unit);
    if w != n {
        assert(ov[w].1.contains(unit));
        assert(false);
    }
    assert forall|k2: PlayerKey, u2: UnitId| u2 != unit implies #[trigger] spec_lists_unit(
        pv,
        k2,
        u2,
    ) == spec_lists_unit(ov, k2, u2) by {
        if spec_lists_unit(pv, k2, u2) {
            let i = choose|i: int|
                0 <= i < pv.len() && (#[trigger] pv[i]).0 == k2 && pv[i].1.contains(u2);
            if i < n {
                assert(spec_lists_unit(ov, k2, u2));
            } else {
                let a = choose|a: int| 0 <= a < pv[i].1.len() && pv[i].1[a] == u2;
                assert(u2 == unit);
            }
        }
        if spec_lists_unit(ov, k2, u2) {
            let i = choose|i: int|
                0 <= i < ov.len() && (#[trigger] ov[i]).0 == k2 && ov[i].1.contains(u2);
            let a = choose|a: int| 0 <= a < ov[i].1.len() && ov[i].1[a] == u2;
            assert(pv[i].1[a] == u2);
            assert(pv[i].1.contains(u2));
            assert(spec_lists_unit(pv, k2, u2));
        }
    }
}

impl KeyUnitsAssociation {
    /// Drop a player's whole entry: every unit associated with the key
    /// leaves the table, both directions at once.
    pub fn delete_from_key(&mut self, key: PlayerKey) -> (status: DeletedStatus)
        requires
            old(self).wf(),
        ensures
            final(self).wf(),
            !final(self).spec_has_key(key),
            status == DeletedStatus::Deleted <==> old(self).spec_has_key(key),
            forall|k2: PlayerKey, u2: UnitId|
                k2 != key ==> #[trigger] spec_lists_unit(final(self).view(), k2, u2)
                    == spec_lists_unit(old(self).view(), k2, u2),
            forall|u2: UnitId| !spec_lists_unit(final(self).view(), key, u2),
    {
        let ghost pre = *self;
        let mut i: usize = 0;
        while i < self.entries.len()
            invariant
                i <= self.entries@.len(),
                *self == pre,
                pre == *old(self),
                pre.wf(),
                forall|j: int| 0 <= j < i ==> (#[trigger] pre.view()[j]).0 != key,
            decreases self.entries@.len() - i,
        {
            if self.entries[i].0 == key {
                self.entries.remove(i);
                proof {
                    assert((#[trigger] pre.view()[i as int]).0 == key);
                    assert(self.view() =~= pre.view().remove(i as int));
                    lemma_units_delete_entry(pre, *self, key, i as int);
                }
                return DeletedStatus::Deleted;
            }
            i = i + 1;
        }
        DeletedStatus::AssociatedNotFound
    }

    /// Drop one unit from whichever entry lists it, both directions at
    /// once; the owner's entry stays, shorter by that unit.
    pub fn delete_from_entity(&mut self, unit: UnitId) -> (status: DeletedStatus)
        requires
            old(self).wf(),
        ensures
            final(self).wf(),
            final(self).spec_owner_of(unit) is None,
            status == DeletedStatus::Deleted <==> old(self).spec_owner_of(unit) is Some,
            forall|k2: PlayerKey, u2: UnitId|
                u2 != unit ==> #[trigger] spec_lists_unit(final(self).view(), k2, u2)
                    == spec_lists_unit(old(self).view(), k2, u2),
    {
        let ghost pre = *self;
        let mut i: usize = 0;
        while i < self.entries.len()
            invariant
                i <= self.entries@.len(),
                *self == pre,
                pre == *old(self),
                pre.wf(),
                forall|j: int| 0 <= j < i ==> !(#[trigger] pre.view()[j]).1.contains(unit),
            decreases self.entries@.len() - i,
        {
            if unit_list_contains(&self.entries[i].1, unit) {
                let key = self.entries[i].0;
                proof {
                    assert forall|a: int, b: int|
                        0 <= a < b < self.entries@[i as int].1@.len() implies self.entries@[i as int].1@[a]
                        != self.entries@[i as int].1@[b] by {
                        assert((#[trigger] pre.view()[i as int]).1[a] != (
                        #[trigger] pre.view()[i as int]).1[b]);
                    }
                }
                let remaining = units_without(&self.entries[i].1, unit);
                self.entries.set(i, (key, remaining));
                proof {
                    assert((#[trigger] pre.view()[i as int]).1.contains(unit));
                    lemma_units_delete_unit(pre, *self, unit, i as int);
                }
                return DeletedStatus::Deleted;
            }
            i = i + 1;
        }
        proof {
            if pre.spec_owner_of(unit) is Some {
                let w = choose|w: int|
                    0 <= w < pre.view().len() && (#[trigger] pre.view()[w]).1.contains(unit);
                assert(false);
            }
        }
        DeletedStatus::AssociatedNotFound
    }
}

/// The unit list with `u` dropped; a duplicate-free list stays so.
fn units_without(units: &Vec<UnitId>, u: UnitId) -> (out: Vec<UnitId>)
    requires
        forall|a: int, b: int| 0 <= a < b < units@.len() ==> units@[a] != units@[b],
    ensures
        forall|x: UnitId| #[trigger] out@.contains(x) <==> (units@.contains(x) && x != u),
        forall|a: int, b: int| 0 <= a < b < out@.len() ==> out@[a] != out@[b],
{
    let ghost orig = units@;
    let mut out: Vec<UnitId> = Vec::new();
    let mut i: usize = 0;
    while i < units.len()
        invariant
            i <= units@.len(),
            units@ == orig,
            forall|a: int, b: int| 0 <= a < b < orig.len() ==> orig[a] != orig[b],
            forall|a: int, b: int| 0 <= a < b < out@.len() ==> out@[a] != out@[b],
            forall|x: UnitId| #[trigger] out@.contains(x) ==> orig.subrange(0, i as int).contains(x),
            forall|x: UnitId|
                #[trigger] out@.contains(x) <==> (orig.subrange(0, i as int).contains(x) && x
                    != u),
        decreases units@.len() - i,
    {
        let k = units[i];
        let ghost prev = out@;
        if k != u {
            proof {
                if prev.contains(k) {
                    let j0 = choose|j0: int|
                        0 <= j0 < orig.subrange(0, i as int).len() && orig.subrange(0, i as int)[j0]
                            == k;
                    assert(orig[j0] == k && orig[i as int] == k);
                    assert(false);
                }
            }
            out.push(k);
            proof {
                assert forall|a: int, b: int| 0 <= a < b < out@.len() implies out@[a] != out@[b] by {
                    if b == out@.len() - 1 {
                        assert(prev[a] == out@[a]);
                        assert(prev.contains(prev[a]));
                    }
                }
            }
        }
        proof {
            let sub0 = orig.subrange(0, i as int);
            let sub1 = orig.subrange(0, i + 1);
            assert(sub1 =~= sub0.push(orig[i as int]));
            assert forall|x: UnitId| #[trigger] out@.contains(x) <==> (sub1.contains(x) && x
                != u) by {
                if out@.contains(x) {
                    let j = choose|j: int| 0 <= j < out@.len() && out@[j] == x;
                    if j < prev.len() {
                        assert(prev[j] == x);
                        assert(prev.contains(x));
                        let j0 = choose|j0: int| 0 <= j0 < sub0.len() && sub0[j0] == x;
                        assert(sub1[j0] == x);
                        assert(sub1.contains(x));
                    } else {
                        assert(x == k);
                        assert(sub1[i as int] == x);
                        assert(sub1.contains(x));
                    }
                }
                if sub1.contains(x) && x != u {
                    let j = choose|j: int| 0 <= j < sub1.len() && sub1[j] == x;
                    if j < i {
                        assert(sub0[j] == x);
                        assert(sub0.contains(x));
                        assert(prev.contains(x));
                        let jj = choose|jj: int| 0 <= jj < prev.len() && prev[jj] == x;
                        assert(out@[jj] == x);
                    } else {
                        assert(x == orig[i as int]);
                        assert(out@[prev.len() as int] == x);
                    }
                }
            }
        }
        i = i + 1;
    }
    proof {
        assert(orig.subrange(0, orig.len() as int) =~= orig);
    }
    out
}

/// Removing a whole entry keeps the association consistent and delists
/// exactly that key's units.
proof fn lemma_units_delete_entry(
    pre: KeyUnitsAssociation,
    post: KeyUnitsAssociation,
    key: PlayerKey,
    at: int,
)
    requires
        pre.wf(),
        0 <= at < pre.view().len(),
        pre.view()[at].0 == key,
        forall|j: int| 0 <= j < at ==> (#[trigger] pre.view()[j]).0 != key,
        post.view() == pre.view().remove(at),
    ensures
        post.wf(),
        !post.spec_has_key(key),
        forall|k2: PlayerKey, u2: UnitId|
            k2 != key ==> #[trigger] spec_lists_unit(post.view(), k2, u2) == spec_lists_unit(
                pre.view(),
                k2,
                u2,
            ),
        forall|u2: UnitId| !spec_lists_unit(post.view(), key, u2),
{
    let pv = post.view();
    let ov = pre.view();
    assert forall|i: int| 0 <= i < pv.len() implies #[trigger] pv[i] == ov[if i < at {
        i
    } else {
        i + 1
    }] by {}
    assert forall|i: int, j: int| 0 <= i < j < pv.len() implies (#[trigger] pv[i]).0 != (
    #[trigger] pv[j]).0 by {
        let i0 = if i < at {
            i
        } else {
            i + 1
        };
        let j0 = if j < at {
            j
        } else {
            j + 1
        };
        assert(pv[i] == ov[i0] && pv[j] == ov[j0]);
    }
    assert forall|i: int, j: int, a: int, b: int|
        0 <= i < pv.len() && 0 <= j < pv.len() && 0 <= a < pv[i].1.len() && 0 <= b < pv[j].1.len()
            && (i, a) != (j, b) implies #[trigger] pv[i].1[a] != #[trigger] pv[j].1[b] by {
        let i0 = if i < at {
            i
        } else {
            i + 1
        };
        let j0 = if j < at {
            j
        } else {
            j + 1
        };
        assert(pv[i] == ov[i0] && pv[j] == ov[j0]);
        assert(ov[i0].1[a] != ov[j0].1[b]);
    }
    if post.spec_has_key(key) {
        let w = choose|w: int| 0 <= w < pv.len() && (#[trigger] pv[w]).0 == key;
        let w0 = if w < at {
            w
        } else {
            w + 1
        };
        assert(pv[w] == ov[w0]);
        if w0 != at {
            if w0 < at {
                assert(ov[w0].0 != ov[at].0);
            } else {
                assert(ov[at].0 != ov[w0].0);
            }
        }
        assert(false);
    }
    assert forall|k2: PlayerKey, u2: UnitId| k2 != key implies #[trigger] spec_lists_unit(
        pv,
        k2,
        u2,
    ) == spec_lists_unit(ov, k2, u2) by {
        if spec_lists_unit(pv, k2, u2) {
            let i = choose|i: int|
                0 <= i < pv.len() && (#[trigger] pv[i]).0 == k2 && pv[i].1.contains(u2);
            let i0 = if i < at {
                i
            } else {
                i + 1
            };
            assert(pv[i] == ov[i0]);
            assert(spec_lists_unit(ov, k2, u2));
        }
        if spec_lists_unit(ov, k2, u2) {
            let i = choose|i: int|
                0 <= i < ov.len() && (#[trigger] ov[i]).0 == k2 && ov[i].1.contains(u2);
            let i1 = if i < at {
                i
            } else {
                i - 1
            };
            assert(i != at);
            assert(pv[i1] == ov[i]);
            assert(spec_lists_unit(pv, k2, u2));
        }
    }
    assert forall|u2: UnitId| !spec_lists_unit(pv, key, u2) by {
        if spec_lists_unit(pv, key, u2) {
            let i = choose|i: int|
                0 <= i < pv.len() && (#[trigger] pv[i]).0 == key && pv[i].1.contains(u2);
            assert(pv[i].0 == key);
            assert(post.spec_has_key(key));
        }
    }
}

/// Dropping one unit from its entry keeps the association consistent,
/// delists only that unit, and leaves every other listing alone.
proof fn lemma_units_delete_unit(
    pre: KeyUnitsAssociation,
    post: KeyUnitsAssociation,
    unit: UnitId,
    at: int,
)
    requires
        pre.wf(),
        0 <= at < pre.view().len(),
        pre.view()[at].1.contains(unit),
        post.view().len() == pre.view().len(),
        forall|j: int|
            0 <= j < pre.view().len() && j != at ==> #[trigger] post.view()[j] == pre.view()[j],
        post.view()[at].0 == pre.view()[at].0,
        forall|x: UnitId|
            #[trigger] post.view()[at].1.contains(x) <==> (pre.view()[at].1.contains(x) && x
                != unit),
        forall|a: int, b: int|
            0 <= a < b < post.view()[at].1.len() ==> post.view()[at].1[a] != post.view()[at].1[b],
    ensures
        post.wf(),
        post.spec_owner_of(unit) is None,
        forall|k2: PlayerKey, u2: UnitId|
            u2 != unit ==> #[trigger] spec_lists_unit(post.view(), k2, u2) == spec_lists_unit(
                pre.view(),
                k2,
                u2,
            ),
{
    let pv = post.view();
    let ov = pre.view();
    assert forall|i: int, j: int| 0 <= i < j < pv.len() implies (#[trigger] pv[i]).0 != (
    #[trigger] pv[j]).0 by {
        assert(pv[i].0 == ov[i].0 && pv[j].0 == ov[j].0);
    }
    assert forall|i: int, j: int, a: int, b: int|
        0 <= i < pv.len() && 0 <= j < pv.len() && 0 <= a < pv[i].1.len() && 0 <= b < pv[j].1.len()
            && (i, a) != (j, b) implies #[trigger] pv[i].1[a] != #[trigger] pv[j].1[b] by {
        if pv[i].1[a] == pv[j].1[b] {
            let x = pv[i].1[a];
            assert(pv[i].1.contains(x));
            assert(pv[j].1.contains(x));
            assert(ov[i].1.contains(x));
            assert(ov[j].1.contains(x));
            if i == j {
                if i != at {
                    assert(pv[i] == ov[i]);
                    assert(ov[i].1[a] != ov[i].1[b] || a == b);
                } else {
                    assert(pv[at].1[a] != pv[at].1[b] || a == b);
                }
            } else {
                let a0 = choose|a0: int| 0 <= a0 < ov[i].1.len() && ov[i].1[a0] == x;
                let b0 = choose|b0: int| 0 <= b0 < ov[j].1.len() && ov[j].1[b0] == x;
                assert(ov[i].1[a0] != ov[j].1[b0]);
                assert(false);
            }
        }
    }
    if post.spec_owner_of(unit) is Some {
        let w = choose|w: int| 0 <= w < pv.len() && (#[trigger] pv[w]).1.contains(unit);
        if w == at {
            assert(false);
        } else {
            assert(ov[w].1.contains(unit));
            let a0 = choose|a0: int| 0 <= a0 < ov[w].1.len() && ov[w].1[a0] == unit;
            let b0 = choose|b0: int| 0 <= b0 < ov[at].1.len() && ov[at].1[b0] == unit;
            assert(ov[w].1[a0] != ov[at].1[b0] || (w, a0) == (at, b0));
            assert(false);
        }
    }
    assert forall|k2: PlayerKey, u2: UnitId| u2 != unit implies #[trigger] spec_lists_unit(
        pv,
        k2,
        u2,
    ) == spec_lists_unit(ov, k2, u2) by {
        if spec_lists_unit(pv, k2, u2) {
            let i = choose|i: int|
                0 <= i < pv.len() && (#[trigger] pv[i]).0 == k2 && pv[i].1.contains(u2);
            if i == at {
                assert(ov[i].1.contains(u2));
            }
            assert(spec_lists_unit(ov, k2, u2));
        }
        if spec_lists_unit(ov, k2, u2) {
            let i = choose|i: int|
                0 <= i < ov.len() && (#[trigger] ov[i]).0 == k2 && ov[i].1.contains(u2);
            if i == at {
                assert(pv[i].1.contains(u2));
            } else {
                assert(pv[i] == ov[i]);
            }
            assert((#[trigger] pv[i]).0 == k2 && pv[i].1.contains(u2));
            assert(spec_lists_unit(pv, k2, u2));
        }
    }
}


} // verus!
