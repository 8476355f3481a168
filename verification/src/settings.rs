//! The sets of actions and the parameters of one craft.
use vstd::prelude::*;
use crate::actions::Action;
use crate::actions::ACTION_COUNT;

verus! {

/// Bit `index` of a mask.
pub open spec fn bit_at(mask: u64, index: u8) -> bool {
    (mask >> (index as u64)) & 1 == 1
}

proof fn lemma_bit_set(mask: u64, i: u64, j: u64)
    by (bit_vector)
    requires
        i < 64,
        j < 64,
    ensures
        (((mask | (1u64 << i)) >> j) & 1 == 1) == (i == j || (mask >> j) & 1 == 1),
{
}

proof fn lemma_bit_clear(mask: u64, i: u64, j: u64)
    by (bit_vector)
    requires
        i < 64,
        j < 64,
    ensures
        (((mask & !(1u64 << i)) >> j) & 1 == 1) == (i != j && (mask >> j) & 1 == 1),
{
}

proof fn lemma_bit_or(a: u64, b: u64, j: u64)
    by (bit_vector)
    requires
        j < 64,
    ensures
        (((a | b) >> j) & 1 == 1) == ((a >> j) & 1 == 1 || (b >> j) & 1 == 1),
{
}

proof fn lemma_bit_and(a: u64, b: u64, j: u64)
    by (bit_vector)
    requires
        j < 64,
    ensures
        (((a & b) >> j) & 1 == 1) == ((a >> j) & 1 == 1 && (b >> j) & 1 == 1),
{
}

proof fn lemma_bit_zero(j: u64)
    by (bit_vector)
    requires
        j < 64,
    ensures
        (0u64 >> j) & 1 == 0,
{
}

/// A set of actions, one bit for each.
#[derive(Clone, Copy, Debug, PartialEq, Eq, Hash, Structural)]
pub struct ActionMask {
    mask: u64,
}

impl ActionMask {
    /// The actions that the mask holds.
    pub closed spec fn view(self) -> Set<Action> {
        Set::new(|action: Action| bit_at(self.mask, action.index()))
    }

    /// The empty set.
    pub fn none() -> (r: ActionMask)
        ensures
            r@ == Set::<Action>::empty(),
    {
        let r = ActionMask { mask: 0 };
        proof {
            assert forall|action: Action| !r@.contains(action) by {
                lemma_bit_zero(action.index() as u64);
            }
            assert(r@ =~= Set::<Action>::empty());
        }
        r
    }

    /// Every action.
    pub fn all() -> (r: ActionMask)
        ensures
            forall|action: Action| r@.contains(action),
    {
        let mut r = ActionMask::none();
        let mut i: u8 = 0;
        while i < ACTION_COUNT
            invariant
                i <= ACTION_COUNT,
                forall|action: Action| action.index() < i ==> r@.contains(action),
            decreases ACTION_COUNT - i,
        {
            r = r.add(Action::from_index(i));
            i = i + 1;
        }
        r
    }

    /// The actions that a crafter of the given job level has unlocked.
    pub fn from_level(level: u8) -> (r: ActionMask)
        ensures
            forall|action: Action| r@.contains(action) <==> action.level_requirement() <= level,
    {
        let mut r = ActionMask::none();
        let mut i: u8 = 0;
        while i < ACTION_COUNT
            invariant
                i <= ACTION_COUNT,
                forall|action: Action|
                    r@.contains(action) <==> (action.index() < i && action.level_requirement()
                        <= level),
            decreases ACTION_COUNT - i,
        {
            let action = Action::from_index(i);
            if action.level_requirement() <= level {
                r = r.add(action);
            }
            i = i + 1;
        }
        r
    }

    /// Whether the action is in the set.
    pub fn has(self, action: Action) -> (r: bool)
        ensures
            r == self@.contains(action),
    {
        (self.mask >> (action.index() as u64)) & 1 == 1
    }

    /// The set with the action in it.
    pub fn add(self, action: Action) -> (r: ActionMask)
        ensures
            r@ == self@.insert(action),
    {
        let r = ActionMask { mask: self.mask | (1u64 << (action.index() as u64)) };
        proof {
            assert forall|other: Action|
                r@.contains(other) == self@.insert(action).contains(other) by {
                lemma_bit_set(self.mask, action.index() as u64, other.index() as u64);
            }
            assert(r@ =~= self@.insert(action));
        }
        r
    }

    /// The set without the action.
    pub fn remove(self, action: Action) -> (r: ActionMask)
        ensures
            r@ == self@.remove(action),
    {
        let r = ActionMask { mask: self.mask & !(1u64 << (action.index() as u64)) };
        proof {
            assert forall|other: Action|
                r@.contains(other) == self@.remove(action).contains(other) by {
                lemma_bit_clear(self.mask, action.index() as u64, other.index() as u64);
            }
            assert(r@ =~= self@.remove(action));
        }
        r
    }

    /// The actions that are in either set.
    pub fn union(self, other: ActionMask) -> (r: ActionMask)
        ensures
            r@ == self@.union(other@),
    {
        let r = ActionMask { mask: self.mask | other.mask };
        proof {
            assert forall|action: Action|
                r@.contains(action) == self@.union(other@).contains(action) by {
                lemma_bit_or(self.mask, other.mask, action.index() as u64);
            }
            assert(r@ =~= self@.union(other@));
        }
        r
    }

    /// The actions that are in both sets.
    pub fn intersection(self, other: ActionMask) -> (r: ActionMask)
        ensures
            r@ == self@.intersect(other@),
    {
        let r = ActionMask { mask: self.mask & other.mask };
        proof {
            assert forall|action: Action|
                r@.contains(action) == self@.intersect(other@).contains(action) by {
                lemma_bit_and(self.mask, other.mask, action.index() as u64);
            }
            assert(r@ =~= self@.intersect(other@));
        }
        r
    }

    /// The actions of the set, in the order of the enumeration.
    pub fn actions(self) -> (r: Vec<Action>)
        ensures
            is_listing(r@, self@),
    {
        let mut r: Vec<Action> = Vec::new();
        let mut i: u8 = 0;
        while i < ACTION_COUNT
            invariant
                i <= ACTION_COUNT,
                forall|k: int| 0 <= k < r@.len() ==> self@.contains(#[trigger] r@[k]) && r@[k].index() < i,
                forall|j: int, k: int| 0 <= j < k < r@.len() ==> r@[j].index() < r@[k].index(),
                forall|action: Action|
                    self@.contains(action) && action.index() < i ==> r@.contains(action),
            decreases ACTION_COUNT - i,
        {
            let action = Action::from_index(i);
            if self.has(action) {
                let ghost before = r@;
                r.push(action);
                proof {
                    assert(r@[before.len() as int] == action);
                    assert forall|other: Action|
                        self@.contains(other) && other.index() < i + 1 implies r@.contains(
                        other,
                    ) by {
                        if other.index() < i {
                            let k = choose|k: int| 0 <= k < before.len() && before[k] == other;
                            assert(r@[k] == other);
                        } else {
                            other.lemma_index();
                            assert(other == action);
                        }
                    }
                }
            }
            i = i + 1;
        }
        r
    }
}

/// The sequence lists the set: it holds the actions of the set and no other, each
/// once, in the order of the enumeration.
pub open spec fn is_listing(list: Seq<Action>, set: Set<Action>) -> bool {
    &&& forall|k: int| 0 <= k < list.len() ==> set.contains(#[trigger] list[k])
    &&& forall|action: Action| set.contains(action) ==> list.contains(action)
    &&& forall|j: int, k: int| 0 <= j < k < list.len() ==> list[j].index() < list[k].index()
}

/// The parameters of one craft, fixed while it is simulated or solved.
#[derive(Clone, Copy, Debug, PartialEq, Eq, Hash, Structural)]
pub struct Settings {
    pub max_cp: i16,
    pub max_durability: i8,
    pub max_progress: u16,
    pub max_quality: u16,
    pub base_progress: u16,
    pub base_quality: u16,
    pub job_level: u8,
    pub allowed_actions: ActionMask,
    pub adversarial: bool,
}

} // verus!
