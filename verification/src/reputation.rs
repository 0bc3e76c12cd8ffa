//! Per-identity trust scores with reward, punish, decay, and an admission
//! threshold.
//!
//! Scores live in thousandths of a unit: the range is 0 to 1000, unseen
//! identities default to the shared neutral 500, a reward adds 100 up to
//! the ceiling, a punishment subtracts 200 down to the floor, and decay
//! moves every tracked score below neutral a tenth of the remaining gap
//! toward neutral. Scores at or above neutral are untouched by decay: it
//! is a rehabilitation mechanism, not a regression to the mean.

use vstd::prelude::*;
use vstd::pervasive::VecAdditionalExecFns;
use crate::types::PubKey;

verus! {

/// The score floor: 0.
pub const FLOOR_SCORE: u32 = 0;

/// The score ceiling: 1 in thousandths.
pub const CEILING_SCORE: u32 = 1000;

/// The shared default for unseen identities: 0.5 in thousandths.
pub const NEUTRAL_SCORE: u32 = 500;

/// What one reward adds: 0.1 in thousandths.
pub const REWARD_STEP: u32 = 100;

/// What one punishment subtracts: 0.2 in thousandths.
pub const PUNISH_STEP: u32 = 200;

/// The admission threshold: 0.3 in thousandths.
pub const ADMIT_THRESHOLD: u32 = 300;

/// The score an identity has under a book's map: its tracked value, or
/// neutral if the book has never seen it.
pub open spec fn score_of(m: Map<Seq<char>, u32>, id: Seq<char>) -> u32 {
    if m.contains_key(id) {
        m[id]
    } else {
        NEUTRAL_SCORE
    }
}

/// A rewarded score: one step up, saturated at the ceiling.
pub open spec fn reward_val(v: u32) -> u32 {
    if v + REWARD_STEP >= CEILING_SCORE {
        CEILING_SCORE
    } else {
        (v + REWARD_STEP) as u32
    }
}

/// A punished score: one step down, saturated at the floor.
pub open spec fn punish_val(v: u32) -> u32 {
    if v <= PUNISH_STEP {
        FLOOR_SCORE
    } else {
        (v - PUNISH_STEP) as u32
    }
}

/// A decayed score: a tenth of the remaining gap toward neutral for scores
/// below neutral; scores at or above neutral are left alone.
pub open spec fn decay_val(v: u32) -> u32 {
    if v < NEUTRAL_SCORE {
        (v + (NEUTRAL_SCORE - v) / 10) as u32
    } else {
        v
    }
}

/// No identity occurs twice in the entry list.
pub closed spec fn unique_keys(s: Seq<(PubKey, u32)>) -> bool {
    forall|i: int, j: int| 0 <= i < j < s.len() ==> s[i].0@ != s[j].0@
}

/// All stored scores sit inside the bounded range.
pub closed spec fn bounded_scores(s: Seq<(PubKey, u32)>) -> bool {
    forall|i: int| 0 <= i < s.len() ==> s[i].1 <= CEILING_SCORE
}

/// The map an entry list denotes, built left to right.
pub closed spec fn map_of(s: Seq<(PubKey, u32)>) -> Map<Seq<char>, u32>
    decreases s.len(),
{
    if s.len() == 0 {
        Map::empty()
    } else {
        map_of(s.drop_last()).insert(s.last().0@, s.last().1)
    }
}

proof fn lemma_map_of_contains(s: Seq<(PubKey, u32)>, k: Seq<char>)
    ensures
        map_of(s).contains_key(k) <==> exists|i: int| 0 <= i < s.len() && s[i].0@ == k,
    decreases s.len(),
{
    if s.len() == 0 {
    } else {
        lemma_map_of_contains(s.drop_last(), k);
        if s.last().0@ == k {
            assert(s[s.len() - 1].0@ == k);
        } else {
            if map_of(s).contains_key(k) {
                let i = choose|i: int| 0 <= i < s.drop_last().len() && s.drop_last()[i].0@ == k;
                assert(s[i].0@ == k);
            }
            if exists|i: int| 0 <= i < s.len() && s[i].0@ == k {
                let i = choose|i: int| 0 <= i < s.len() && s[i].0@ == k;
                assert(i < s.len() - 1);
                assert(s.drop_last()[i].0@ == k);
            }
        }
    }
}

proof fn lemma_map_of_value(s: Seq<(PubKey, u32)>, i: int)
    requires
        unique_keys(s),
        0 <= i < s.len(),
    ensures
        map_of(s).contains_key(s[i].0@),
        map_of(s)[s[i].0@] == s[i].1,
    decreases s.len(),
{
    if i == s.len() - 1 {
    } else {
        assert(unique_keys(s.drop_last())) by {
            assert(forall|a: int, b: int|
                0 <= a < b < s.drop_last().len() ==> s.drop_last()[a].0@ != s.drop_last()[b].0@);
        }
        assert(s.drop_last()[i] == s[i]);
        lemma_map_of_value(s.drop_last(), i);
        assert(s.last().0@ != s[i].0@);
    }
}

proof fn lemma_map_of_update(s: Seq<(PubKey, u32)>, i: int, v: u32)
    requires
        unique_keys(s),
        0 <= i < s.len(),
    ensures
        map_of(s.update(i, (s[i].0, v))) == map_of(s).insert(s[i].0@, v),
        unique_keys(s.update(i, (s[i].0, v))),
    decreases s.len(),
{
    let s2 = s.update(i, (s[i].0, v));
    assert(forall|a: int| 0 <= a < s.len() && a != i ==> s2[a] == s[a]);
    assert(s2[i].0@ == s[i].0@);
    assert(unique_keys(s2));
    if i == s.len() - 1 {
        assert(s2.drop_last() =~= s.drop_last());
        assert(s2.last() == (s[i].0, v));
        assert(map_of(s2) == map_of(s.drop_last()).insert(s[i].0@, v));
        assert(map_of(s.drop_last()).insert(s[i].0@, v) =~= map_of(s).insert(s[i].0@, v));
    } else {
        assert(unique_keys(s.drop_last())) by {
            assert(forall|a: int, b: int|
                0 <= a < b < s.drop_last().len() ==> s.drop_last()[a].0@ != s.drop_last()[b].0@);
        }
        assert(s.drop_last()[i] == s[i]);
        lemma_map_of_update(s.drop_last(), i, v);
        assert(s2.drop_last() =~= s.drop_last().update(i, (s[i].0, v)));
        assert(s2.last() == s.last());
        assert(map_of(s2) == map_of(s.drop_last()).insert(s[i].0@, v).insert(s.last().0@, s.last().1));
        assert(s.last().0@ != s[i].0@);
        assert(map_of(s.drop_last()).insert(s[i].0@, v).insert(s.last().0@, s.last().1) =~= map_of(
            s,
        ).insert(s[i].0@, v));
    }
}

proof fn lemma_map_of_push(s: Seq<(PubKey, u32)>, p: (PubKey, u32))
    ensures
        map_of(s.push(p)) == map_of(s).insert(p.0@, p.1),
{
    assert(s.push(p).drop_last() =~= s);
    assert(s.push(p).last() == p);
}

proof fn lemma_map_of_decayed(s1: Seq<(PubKey, u32)>, s2: Seq<(PubKey, u32)>)
    requires
        s1.len() == s2.len(),
        unique_keys(s1),
        forall|i: int|
            0 <= i < s1.len() ==> s2[i].0@ == s1[i].0@ && s2[i].1 == decay_val(s1[i].1),
    ensures
        map_of(s2).dom() == map_of(s1).dom(),
        forall|k: Seq<char>| #[trigger]
            map_of(s1).contains_key(k) ==> map_of(s2)[k] == decay_val(map_of(s1)[k]),
    decreases s1.len(),
{
    if s1.len() == 0 {
        assert(map_of(s2).dom() =~= map_of(s1).dom());
    } else {
        assert(unique_keys(s1.drop_last())) by {
            assert(forall|a: int, b: int|
                0 <= a < b < s1.drop_last().len()
                    ==> s1.drop_last()[a].0@ != s1.drop_last()[b].0@);
        }
        assert(forall|i: int|
            0 <= i < s1.drop_last().len() ==> s2.drop_last()[i].0@ == s1.drop_last()[i].0@
                && s2.drop_last()[i].1 == decay_val(s1.drop_last()[i].1));
        lemma_map_of_decayed(s1.drop_last(), s2.drop_last());
        assert(map_of(s2) == map_of(s2.drop_last()).insert(s2.last().0@, s2.last().1));
        assert(map_of(s1) == map_of(s1.drop_last()).insert(s1.last().0@, s1.last().1));
        assert(map_of(s2).dom() =~= map_of(s1).dom());
        assert forall|k: Seq<char>| #[trigger] map_of(s1).contains_key(k) implies map_of(s2)[k]
            == decay_val(map_of(s1)[k]) by {
            if k == s1.last().0@ {
            } else {
                lemma_map_of_contains(s1, k);
                lemma_map_of_contains(s1.drop_last(), k);
                let i = choose|i: int| 0 <= i < s1.len() && s1[i].0@ == k;
                assert(i < s1.len() - 1);
                assert(s1.drop_last()[i].0@ == k);
            }
        }
    }
}

/// A per-identity trust book: created per participant at start-up, mutated
/// only through reward, punish, and decay, never persisted across
/// restarts. Its mathematical value is the map from tracked identities to
/// their scores.
pub struct ReputationBook {
    entries: Vec<(PubKey, u32)>,
}

impl View for ReputationBook {
    type V = Map<Seq<char>, u32>;

    closed spec fn view(&self) -> Map<Seq<char>, u32> {
        map_of(self.entries@)
    }
}

impl ReputationBook {
    /// Well-formed: one entry per identity, every score inside the range.
    pub closed spec fn wf(&self) -> bool {
        unique_keys(self.entries@) && bounded_scores(self.entries@)
    }

    /// An empty book: every identity scores neutral.
    pub fn new() -> (r: ReputationBook)
        ensures
            r.wf(),
            r@ == Map::<Seq<char>, u32>::empty(),
    {
        ReputationBook { entries: Vec::new() }
    }

    /// The index of the identity's entry, if the book tracks it.
    fn find(&self, who: &PubKey) -> (r: Option<usize>)
        ensures
            match r {
                Some(i) => i < self.entries@.len() && self.entries@[i as int].0@ == who@,
                None => forall|i: int| 0 <= i < self.entries@.len()
                    ==> self.entries@[i].0@ != who@,
            },
    {
        let mut i: usize = 0;
        while i < self.entries.len()
            invariant
                i <= self.entries@.len(),
                forall|j: int| 0 <= j < i ==> self.entries@[j].0@ != who@,
            decreases self.entries@.len() - i,
        {
            if self.entries[i].0 == *who {
                return Some(i);
            }
            i = i + 1;
        }
        None
    }

    /// The identity's score: its tracked value, or neutral if unseen.
    pub fn get(&self, who: &PubKey) -> (r: u32)
        requires
            self.wf(),
        ensures
            r == score_of(self@, who@),
            r <= CEILING_SCORE,
    {
        match self.find(who) {
            Some(i) => {
                proof {
                    lemma_map_of_value(self.entries@, i as int);
                }
                self.entries[i].1
            },
            None => {
                proof {
                    lemma_map_of_contains(self.entries@, who@);
                }
                NEUTRAL_SCORE
            },
        }
    }

    /// Move the identity one reward step up, saturated at the ceiling. An
    /// unseen identity starts from neutral.
    pub fn reward(&mut self, who: &PubKey)
        requires
            old(self).wf(),
        ensures
            final(self).wf(),
            final(self)@ == old(self)@.insert(who@, reward_val(score_of(old(self)@, who@))),
    {
        match self.find(who) {
            Some(i) => {
                proof {
                    lemma_map_of_value(self.entries@, i as int);
                }
                let v = self.entries[i].1;
                let nv = if v + REWARD_STEP >= CEILING_SCORE {
                    CEILING_SCORE
                } else {
                    v + REWARD_STEP
                };
                let key = self.entries[i].0.clone();
                proof {
                    lemma_map_of_update(self.entries@, i as int, nv);
                    assert((key, nv).0@ == self.entries@[i as int].0@);
                }
                self.entries.set(i, (key, nv));
                proof {
                    assert(self.entries@ =~= old(self).entries@.update(
                        i as int,
                        (old(self).entries@[i as int].0, nv),
                    ));
                }
            },
            None => {
                proof {
                    lemma_map_of_contains(self.entries@, who@);
                }
                let nv = NEUTRAL_SCORE + REWARD_STEP;
                let key = who.clone();
                proof {
                    lemma_map_of_push(self.entries@, (key, nv));
                }
                self.entries.push((key, nv));
            },
        }
    }

    /// Move the identity one punish step down, saturated at the floor. An
    /// unseen identity starts from neutral.
    pub fn punish(&mut self, who: &PubKey)
        requires
            old(self).wf(),
        ensures
            final(self).wf(),
            final(self)@ == old(self)@.insert(who@, punish_val(score_of(old(self)@, who@))),
    {
        match self.find(who) {
            Some(i) => {
                proof {
                    lemma_map_of_value(self.entries@, i as int);
                }
                let v = self.entries[i].1;
                let nv = if v <= PUNISH_STEP {
                    FLOOR_SCORE
                } else {
                    v - PUNISH_STEP
                };
                let key = self.entries[i].0.clone();
                proof {
                    lemma_map_of_update(self.entries@, i as int, nv);
                }
                self.entries.set(i, (key, nv));
                proof {
                    assert(self.entries@ =~= old(self).entries@.update(
                        i as int,
                        (old(self).entries@[i as int].0, nv),
                    ));
                }
            },
            None => {
                proof {
                    lemma_map_of_contains(self.entries@, who@);
                }
                let nv = NEUTRAL_SCORE - PUNISH_STEP;
                let key = who.clone();
                proof {
                    lemma_map_of_push(self.entries@, (key, nv));
                }
                self.entries.push((key, nv));
            },
        }
    }

    /// Decay every tracked score below neutral a tenth of the remaining
    /// gap toward neutral; leave scores at or above neutral alone. Unseen
    /// identities stay neutral, so every identity's score obeys the same
    /// equation.
    pub fn decay(&mut self)
        requires
            old(self).wf(),
        ensures
            final(self).wf(),
            final(self)@.dom() == old(self)@.dom(),
            forall|id: Seq<char>|
                score_of(final(self)@, id) == decay_val(score_of(old(self)@, id)),
    {
        let n = self.entries.len();
        let mut i: usize = 0;
        while i < n
            invariant
                i <= n,
                n == self.entries@.len(),
                self.entries@.len() == old(self).entries@.len(),
                forall|j: int| 0 <= j < i ==> self.entries@[j].0@ == old(self).entries@[j].0@
                    && self.entries@[j].1 == decay_val(old(self).entries@[j].1),
                forall|j: int| i <= j < n ==> self.entries@[j] == old(self).entries@[j],
            decreases n - i,
        {
            let v = self.entries[i].1;
            let nv = if v < NEUTRAL_SCORE {
                v + (NEUTRAL_SCORE - v) / 10
            } else {
                v
            };
            let key = self.entries[i].0.clone();
            self.entries.set(i, (key, nv));
            i = i + 1;
        }
        proof {
            lemma_map_of_decayed(old(self).entries@, self.entries@);
            assert(unique_keys(self.entries@)) by {
                assert(forall|a: int, b: int|
                    0 <= a < b < self.entries@.len() ==> self.entries@[a].0@ == old(
                        self,
                    ).entries@[a].0@ && self.entries@[b].0@ == old(self).entries@[b].0@);
            }
            assert forall|id: Seq<char>|
                score_of(self@, id) == decay_val(score_of(old(self)@, id)) by {
                lemma_map_of_contains(old(self).entries@, id);
                lemma_map_of_contains(self.entries@, id);
                if map_of(old(self).entries@).contains_key(id) {
                } else {
                    assert(!map_of(self.entries@).contains_key(id));
                }
            }
        }
    }

    /// The minimum score a sender needs for its messages to be admitted.
    pub fn admit_threshold(&self) -> (r: u32)
        ensures
            r == ADMIT_THRESHOLD,
    {
        ADMIT_THRESHOLD
    }
}

} // verus!
