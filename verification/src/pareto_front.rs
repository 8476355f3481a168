//! The states that a search has met, and which of them are worth going on from.
use vstd::prelude::*;
use crate::memo::ListTable;
use crate::pareto::ParetoValue;
use crate::state::SimulationState;
use crate::state::StateData;

verus! {

/// What two states must agree in for one of them to make the other needless:
/// everything but progress and quality, as one number.
pub open spec fn spec_pareto_key(state: StateData) -> int {
    state.effects.word() + 0x2000_0000 * (state.combo.index() + 4 * ((state.durability + 128) + 256
        * ((state.cp + 32768) + 65536 * state.unreliable_quality)))
}

/// What a state has to show for itself: its progress and its quality.
pub open spec fn spec_pareto_value(state: StateData) -> ParetoValue {
    ParetoValue { first: state.progress, second: state.quality }
}

/// The first value makes the second needless: it is higher in both progress and
/// quality, or it is the same value. A value that is higher in one and level in the
/// other does not.
pub open spec fn outdoes(p: ParetoValue, q: ParetoValue) -> bool {
    (p.first > q.first && p.second > q.second) || (p.first == q.first && p.second == q.second)
}

/// Some value of the list makes the value needless.
pub open spec fn covered_in(value: ParetoValue, list: Seq<ParetoValue>) -> bool {
    exists|i: int| 0 <= i < list.len() && outdoes(#[trigger] list[i], value)
}

/// What two states must agree in for one of them to make the other needless.
pub struct ParetoKey {
    key: u128,
}

impl ParetoKey {
    pub closed spec fn view(&self) -> u128 {
        self.key
    }

    /// The key of a state.
    pub fn new(state: &SimulationState) -> (r: ParetoKey)
        ensures
            r@ == spec_pareto_key(state@),
    {
        let word = state.effects.bits() as u128;
        let combo = state.combo.index() as u128;
        let durability = (state.durability as i16 + 128) as u128;
        let cp = (state.cp as i32 + 32768) as u128;
        let unreliable = state.unreliable_quality as u128;
        ParetoKey {
            key: word + 0x2000_0000 * (combo + 4 * (durability + 256 * (cp + 65536 * unreliable))),
        }
    }
}

/// The states that a search has met, by what they agree in: for every key the progress
/// and quality of the states of that key of which none was needless when it came.
pub struct ParetoFront {
    hash_map: ListTable<ParetoValue>,
}

impl ParetoFront {
    /// The values that are held, by their keys.
    pub closed spec fn view(&self) -> Map<u128, Seq<ParetoValue>> {
        self.hash_map@
    }

    /// The values that are held under a key; none where the key is not held.
    pub open spec fn held(&self, key: u128) -> Seq<ParetoValue> {
        if self@.contains_key(key) {
            self@[key]
        } else {
            Seq::empty()
        }
    }

    /// Nothing met yet.
    pub fn new() -> (r: ParetoFront)
        ensures
            r@ == Map::<u128, Seq<ParetoValue>>::empty(),
    {
        ParetoFront { hash_map: ListTable::new() }
    }

    /// Enters a state unless it is needless: unless a state was entered before that
    /// agrees with it in everything but progress and quality and is either further in
    /// both or as far in both. The result says whether the state was entered; values
    /// entered before stay.
    pub fn insert(&mut self, state: &SimulationState) -> (r: bool)
        ensures
            r == !covered_in(
                spec_pareto_value(state@),
                old(self).held(spec_pareto_key(state@) as u128),
            ),
            final(self)@ == (if r {
                old(self)@.insert(
                    spec_pareto_key(state@) as u128,
                    old(self).held(spec_pareto_key(state@) as u128).push(
                        spec_pareto_value(state@),
                    ),
                )
            } else {
                old(self)@
            }),
    {
        let key = ParetoKey::new(state).key;
        assert(key == spec_pareto_key(state@) as u128);
        let new_value = ParetoValue::new(state.progress, state.quality);
        assert(new_value == spec_pareto_value(state@));
        let ghost before = self.held(key);
        let mut front = self.hash_map.take(key);
        let mut i: usize = 0;
        while i < front.len()
            invariant
                i <= front.len(),
                front@ == before,
                before == old(self).held(key),
                key == spec_pareto_key(state@) as u128,
                new_value == spec_pareto_value(state@),
                self@ == old(self)@.remove(key),
                forall|j: int| 0 <= j < i ==> !outdoes(#[trigger] front@[j], new_value),
            decreases front.len() - i,
        {
            let value = front[i];
            if (value.first > new_value.first && value.second > new_value.second) || (value.first
                == new_value.first && value.second == new_value.second) {
                self.hash_map.put(key, front);
                proof {
                    assert(outdoes(before[i as int], new_value));
                    assert(covered_in(new_value, before));
                    assert(old(self)@.contains_key(key));
                    assert(self@ =~= old(self)@);
                }
                return false;
            }
            i = i + 1;
        }
        front.push(new_value);
        self.hash_map.put(key, front);
        proof {
            assert(self@ =~= old(self)@.insert(key, before.push(new_value)));
        }
        true
    }
}

} // verus!
