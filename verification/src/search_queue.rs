//! The frontier of the search and the log from which an action sequence is read back.
use std::collections::BTreeMap;
use vstd::prelude::*;
use crate::actions::Action;
use crate::combos::ActionCombo;
use crate::settings::Settings;
use crate::state::SimulationState;

verus! {

/// What a search expects of a node: the quality that it can still reach, the seconds
/// that the actions before it take, and the steps that it will need in all.
#[derive(Clone, Copy, Debug, PartialEq, Eq, Structural)]
pub struct SearchScore {
    pub quality: u16,
    pub steps: u8,
    pub duration: u8,
}

/// The rank of a score: of two scores the one with the higher quality ranks higher;
/// at the same quality, the one with the shorter duration where duration comes first,
/// else the one with fewer steps; and then the one that is lower in the other of the
/// two.
pub open spec fn rank(score: SearchScore, duration_first: bool) -> int {
    if duration_first {
        score.quality * 65536 + (255 - score.duration) * 256 + (255 - score.steps)
    } else {
        score.quality * 65536 + (255 - score.steps) * 256 + (255 - score.duration)
    }
}

impl SearchScore {
    /// The score of a node. Quality counts up to the target only.
    pub fn new(quality: u16, duration: u8, steps: u8, settings: &Settings) -> (r: SearchScore)
        ensures
            r.quality == (if quality < settings.max_quality {
                quality
            } else {
                settings.max_quality
            }),
            r.duration == duration,
            r.steps == steps,
    {
        SearchScore {
            quality: if quality < settings.max_quality {
                quality
            } else {
                settings.max_quality
            },
            steps,
            duration,
        }
    }

    /// The rank of the score as a number.
    pub fn key(&self, duration_first: bool) -> (r: u64)
        ensures
            r == rank(*self, duration_first),
    {
        let quality = self.quality as u64;
        let steps = (255 - self.steps) as u64;
        let duration = (255 - self.duration) as u64;
        if duration_first {
            quality * 65536 + duration * 256 + steps
        } else {
            quality * 65536 + steps * 256 + duration
        }
    }
}

/// A node of the frontier: a state, what the search expects of it, and how it was
/// reached.
#[derive(Clone, Copy, Debug)]
pub struct SearchNode {
    pub state: SimulationState,
    pub score: SearchScore,
    pub action: ActionCombo,
    pub parent_id: usize,
}

/// An entry of the log: the move that led to a node, the entry of the node before
/// it, and the number of actions from the root.
#[derive(Clone, Copy, Debug)]
pub struct LogEntry {
    pub parent_id: usize,
    pub action: ActionCombo,
    pub steps: u8,
}

/// `BTreeMap::pop_last` of the standard library: the entry with the greatest key
/// leaves the map and is returned; an empty map returns `None` and stays empty.
#[verifier::external_body]
fn pop_last_bucket(buckets: &mut BTreeMap<u64, Vec<SearchNode>>) -> (result: Option<
    (u64, Vec<SearchNode>),
>)
    ensures
        result is None ==> old(buckets)@.dom() =~= Set::empty(),
        result is None ==> final(buckets)@ == old(buckets)@,
        result is Some ==> old(buckets)@.contains_key(result->Some_0.0),
        result is Some ==> old(buckets)@[result->Some_0.0] == result->Some_0.1,
        result is Some ==> final(buckets)@ == old(buckets)@.remove(result->Some_0.0),
        result is Some ==> forall|key: u64| old(buckets)@.contains_key(key) ==> key <= result->Some_0.0,
{
    buckets.pop_last()
}

/// The frontier of a search, in the order of the scores, with the log of the nodes
/// that have left it.
///
/// The log starts with the root. A node that leaves the frontier gets the next entry;
/// the entry of its parent is an earlier one, so that the way back to the root ends.
pub struct SearchQueue {
    duration_first: bool,
    minimum_key: u64,
    buckets: BTreeMap<u64, Vec<SearchNode>>,
    log: Vec<LogEntry>,
}

impl SearchQueue {
    /// The nodes of the frontier by the rank of their scores; nodes of one rank in the
    /// order in which they came.
    pub closed spec fn held(&self) -> Map<u64, Seq<SearchNode>> {
        Map::new(|key: u64| self.buckets@.contains_key(key), |key: u64| self.buckets@[key]@)
    }

    /// The log of the nodes that have left the frontier, the root first.
    pub closed spec fn log(&self) -> Seq<LogEntry> {
        self.log@
    }

    /// The rank that a node must pass to enter or leave the frontier.
    pub closed spec fn minimum(&self) -> u64 {
        self.minimum_key
    }

    /// Whether duration comes before steps in the order.
    pub closed spec fn duration_first(&self) -> bool {
        self.duration_first
    }

    /// No bucket is empty, every node is held under the rank of its score and names a
    /// parent in the log, and every entry of the log but the root names an earlier one.
    pub closed spec fn wf(&self) -> bool {
        &&& self.log@.len() >= 1
        &&& forall|i: int| 0 < i < self.log@.len() ==> (#[trigger] self.log@[i]).parent_id < i
        &&& forall|key: u64| #[trigger]
            self.buckets@.contains_key(key) ==> self.buckets@[key]@.len() > 0
        &&& forall|key: u64, i: int| #[trigger]
            self.buckets@.contains_key(key) && 0 <= i < self.buckets@[key]@.len() ==> {
                &&& (#[trigger] self.buckets@[key]@[i]).parent_id < self.log@.len()
                &&& rank(self.buckets@[key]@[i].score, self.duration_first) == key
            }
    }

    /// An empty frontier with the root in its log.
    pub fn new(minimum_score: SearchScore, duration_first: bool) -> (r: SearchQueue)
        ensures
            r.wf(),
            r.held() =~= Map::<u64, Seq<SearchNode>>::empty(),
            r.log().len() == 1,
            r.minimum() == rank(minimum_score, duration_first),
            r.duration_first() == duration_first,
    {
        let mut log: Vec<LogEntry> = Vec::new();
        log.push(
            LogEntry {
                parent_id: 0,
                action: ActionCombo::Single(Action::Observe),
                steps: 0,
            },
        );
        SearchQueue {
            duration_first,
            minimum_key: minimum_score.key(duration_first),
            buckets: BTreeMap::new(),
            log,
        }
    }

    /// Raises the rank that a node must pass to that of the score, if it is higher.
    /// Nodes of the frontier that do not pass it stay until they would leave.
    pub fn update_min_score(&mut self, score: SearchScore)
        requires
            old(self).wf(),
        ensures
            final(self).wf(),
            final(self).held() == old(self).held(),
            final(self).log() == old(self).log(),
            final(self).duration_first() == old(self).duration_first(),
            final(self).minimum() == (if rank(score, old(self).duration_first()) > old(
                self,
            ).minimum() {
                rank(score, old(self).duration_first()) as u64
            } else {
                old(self).minimum()
            }),
    {
        let key = score.key(self.duration_first);
        if key > self.minimum_key {
            self.minimum_key = key;
        }
    }

    /// Puts a node on the frontier, unless its score does not pass the minimum.
    pub fn push(
        &mut self,
        state: SimulationState,
        score: SearchScore,
        action: ActionCombo,
        parent_id: usize,
    )
        requires
            old(self).wf(),
            parent_id < old(self).log().len(),
        ensures
            final(self).wf(),
            final(self).log() == old(self).log(),
            final(self).minimum() == old(self).minimum(),
            final(self).duration_first() == old(self).duration_first(),
            final(self).held() == (if rank(score, old(self).duration_first()) > old(
                self,
            ).minimum() {
                let key = rank(score, old(self).duration_first()) as u64;
                let before = if old(self).held().contains_key(key) {
                    old(self).held()[key]
                } else {
                    Seq::empty()
                };
                old(self).held().insert(
                    key,
                    before.push(SearchNode { state, score, action, parent_id }),
                )
            } else {
                old(self).held()
            }),
    {
        let key = score.key(self.duration_first);
        if key <= self.minimum_key {
            return ;
        }
        let node = SearchNode { state, score, action, parent_id };
        let mut bucket = match self.buckets.remove(&key) {
            Some(bucket) => bucket,
            None => Vec::new(),
        };
        let ghost before = bucket@;
        bucket.push(node);
        self.buckets.insert(key, bucket);
        proof {
            let expected = old(self).held().insert(key, before.push(node));
            assert(self.held() =~= expected);
            assert forall|other: u64, i: int| #[trigger]
                self.buckets@.contains_key(other) && 0 <= i < self.buckets@[other]@.len() implies {
                &&& (#[trigger] self.buckets@[other]@[i]).parent_id < self.log@.len()
                &&& rank(self.buckets@[other]@[i].score, self.duration_first) == other
            } by {
                if other == key {
                    if i < before.len() {
                        assert(old(self).buckets@.contains_key(key));
                        assert(self.buckets@[other]@[i] == old(self).buckets@[key]@[i]);
                    }
                } else {
                    assert(old(self).buckets@.contains_key(other));
                    assert(self.buckets@[other]@[i] == old(self).buckets@[other]@[i]);
                }
            }
            assert forall|other: u64| #[trigger] self.buckets@.contains_key(other) implies self.buckets@[other]@.len() > 0 by {
                if other != key {
                    assert(old(self).buckets@.contains_key(other));
                }
            }
        }
    }

    /// Takes the node of the highest rank off the frontier, the last that came among
    /// those of that rank, and enters it in the log. `None` where the frontier holds
    /// no node that passes the minimum; the frontier is then empty.
    pub fn pop(&mut self) -> (r: Option<(SimulationState, SearchScore, usize)>)
        requires
            old(self).wf(),
            old(self).log().len() < usize::MAX,
        ensures
            final(self).wf(),
            final(self).minimum() == old(self).minimum(),
            final(self).duration_first() == old(self).duration_first(),
            r is None ==> final(self).log() == old(self).log() && final(self).held() =~= Map::<
                u64,
                Seq<SearchNode>,
            >::empty() && forall|key: u64| #[trigger]
                old(self).held().contains_key(key) ==> key <= old(self).minimum(),
            r is Some ==> ({
                let (state, score, id) = r->Some_0;
                let key = rank(score, old(self).duration_first()) as u64;
                let node = old(self).held()[key].last();
                &&& key > old(self).minimum()
                &&& old(self).held().contains_key(key)
                &&& forall|other: u64| #[trigger]
                    old(self).held().contains_key(other) ==> other <= key
                &&& node.state == state && node.score == score
                &&& id == old(self).log().len()
                &&& final(self).log() == old(self).log().push(
                    LogEntry {
                        parent_id: node.parent_id,
                        action: node.action,
                        steps: next_steps(old(self).log()[node.parent_id as int].steps, node.action),
                    },
                )
                &&& final(self).held() == (if old(self).held()[key].len() > 1 {
                    old(self).held().insert(key, old(self).held()[key].drop_last())
                } else {
                    old(self).held().remove(key)
                })
            }),
    {
        match pop_last_bucket(&mut self.buckets) {
            None => {
                proof {
                    assert(self.held() =~= Map::<u64, Seq<SearchNode>>::empty());
                }
                None
            },
            Some((key, bucket)) => {
                if key <= self.minimum_key {
                    self.buckets = BTreeMap::new();
                    proof {
                        assert(self.held() =~= Map::<u64, Seq<SearchNode>>::empty());
                    }
                    return None;
                }
                let mut bucket = bucket;
                let ghost whole = bucket@;
                assert(old(self).buckets@.contains_key(key));
                assert(whole.len() > 0);
                match bucket.pop() {
                    None => None,
                    Some(node) => {
                        assert(node == whole[whole.len() - 1]);
                        if bucket.len() > 0 {
                            self.buckets.insert(key, bucket);
                        }
                        let id = self.log.len();
                        let parent = self.log[node.parent_id];
                        let combo_steps = node.action.steps();
                        let steps = if parent.steps > 255 - combo_steps {
                            255
                        } else {
                            parent.steps + combo_steps
                        };
                        self.log.push(
                            LogEntry { parent_id: node.parent_id, action: node.action, steps },
                        );
                        proof {
                            let expected = if old(self).held()[key].len() > 1 {
                                old(self).held().insert(key, old(self).held()[key].drop_last())
                            } else {
                                old(self).held().remove(key)
                            };
                            assert(self.held() =~= expected);
                            assert forall|other: u64, i: int| #[trigger]
                                self.buckets@.contains_key(other) && 0 <= i
                                    < self.buckets@[other]@.len() implies {
                                &&& (#[trigger] self.buckets@[other]@[i]).parent_id
                                    < self.log@.len()
                                &&& rank(self.buckets@[other]@[i].score, self.duration_first)
                                    == other
                            } by {
                                assert(old(self).buckets@.contains_key(other));
                                assert(self.buckets@[other]@[i] == old(self).buckets@[other]@[i]);
                            }
                            assert forall|other: u64| #[trigger]
                                self.buckets@.contains_key(other) implies self.buckets@[other]@.len()
                                > 0 by {
                                if other != key {
                                    assert(old(self).buckets@.contains_key(other));
                                }
                            }
                        }
                        Some((node.state, node.score, id))
                    },
                }
            },
        }
    }

    /// The number of actions on the way from the root to the entry.
    pub fn steps(&self, id: usize) -> (r: u8)
        requires
            self.wf(),
            id < self.log().len(),
        ensures
            r == self.log()[id as int].steps,
    {
        self.log[id].steps
    }

    /// The actions on the way from the root to the entry, in the order in which they
    /// are used.
    pub fn backtrack(&self, id: usize) -> (r: Vec<Action>)
        requires
            self.wf(),
            id < self.log().len(),
        ensures
            r@ == path(self.log(), id as int),
    {
        // the moves from the entry back to the root
        let mut moves: Vec<ActionCombo> = Vec::new();
        let mut current = id;
        while current > 0
            invariant
                self.wf(),
                current < self.log@.len(),
                path(self.log@, id as int) == path(self.log@, current as int) + flattened(
                    moves@,
                ),
            decreases current,
        {
            let entry = self.log[current];
            proof {
                assert(path(self.log@, current as int) == path(
                    self.log@,
                    entry.parent_id as int,
                ) + entry.action.spec_actions());
                assert(flattened(moves@.push(entry.action)) == entry.action.spec_actions()
                    + flattened(moves@)) by {
                    assert(moves@.push(entry.action).drop_last() =~= moves@);
                }
                assert(path(self.log@, entry.parent_id as int) + (entry.action.spec_actions()
                    + flattened(moves@)) =~= path(self.log@, entry.parent_id as int)
                    + entry.action.spec_actions() + flattened(moves@));
            }
            moves.push(entry.action);
            current = entry.parent_id;
        }
        assert(path(self.log@, 0) =~= Seq::<Action>::empty());
        // read the moves in the order of the way
        let mut actions: Vec<Action> = Vec::new();
        let mut i = moves.len();
        assert(moves@.take(moves@.len() as int) =~= moves@);
        while i > 0
            invariant
                i <= moves@.len(),
                flattened(moves@) == actions@ + flattened(moves@.take(i as int)),
            decreases i,
        {
            let combo_actions = moves[i - 1].actions();
            let ghost before = actions@;
            let mut j: usize = 0;
            while j < combo_actions.len()
                invariant
                    j <= combo_actions@.len(),
                    actions@ == before + combo_actions@.take(j as int),
                decreases combo_actions.len() - j,
            {
                actions.push(combo_actions[j]);
                j = j + 1;
                assert(actions@ =~= before + combo_actions@.take(j as int));
            }
            proof {
                assert(combo_actions@.take(combo_actions@.len() as int) =~= combo_actions@);
                let head = moves@.take(i as int);
                assert(head.drop_last() =~= moves@.take(i - 1));
                assert(head.last() == moves@[i - 1]);
                assert(before + (combo_actions@ + flattened(moves@.take(i - 1))) =~= before
                    + combo_actions@ + flattened(moves@.take(i - 1)));
            }
            i = i - 1;
        }
        assert(flattened(moves@.take(0)) =~= Seq::<Action>::empty());
        assert(actions@ + Seq::<Action>::empty() =~= actions@);
        actions
    }

    /// The number of nodes that have left the frontier.
    pub fn nodes_visited(&self) -> (r: usize)
        requires
            self.wf(),
        ensures
            r == self.log().len() - 1,
    {
        self.log.len() - 1
    }
}

/// The steps of a node whose parent is `steps` actions from the root, held at 255.
pub open spec fn next_steps(steps: u8, action: ActionCombo) -> u8 {
    if steps + action.spec_actions().len() > 255 {
        255
    } else {
        (steps + action.spec_actions().len()) as u8
    }
}

/// The actions of a run of moves read back to front: those of the last move first.
pub open spec fn flattened(moves: Seq<ActionCombo>) -> Seq<Action>
    decreases moves.len(),
{
    if moves.len() == 0 {
        Seq::empty()
    } else {
        moves.last().spec_actions() + flattened(moves.drop_last())
    }
}

/// The actions on the way from the root of a log to one of its entries.
pub open spec fn path(log: Seq<LogEntry>, id: int) -> Seq<Action>
    decreases id,
{
    if 0 < id < log.len() && log[id].parent_id < id {
        path(log, log[id].parent_id as int) + log[id].action.spec_actions()
    } else {
        Seq::empty()
    }
}

} // verus!
