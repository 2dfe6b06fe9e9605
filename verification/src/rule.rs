//! Birth and survival rules.
//!
//! A rule is a pair of sets of neighbour counts. A dead cell with a count in
//! the birth set becomes alive; a live cell with a count in the survival set
//! stays alive; every other cell is dead in the next generation.

use crate::bitset::bits;
use fixedbitset::FixedBitSet;
use vstd::prelude::*;

verus! {

/// The largest number of neighbours a cell can have.
pub const MAX_NEIGHBORS: u8 = 8;

/// The mathematical content of a rule: the two sets of neighbour counts.
#[verifier::ext_equal]
pub struct RuleSpec {
    pub born: Set<int>,
    pub survive: Set<int>,
}

impl RuleSpec {
    /// Both sets hold neighbour counts only, that is values from 0 to 8.
    pub open spec fn wf(self) -> bool {
        &&& forall|n: int| self.born.contains(n) ==> 0 <= n <= 8
        &&& forall|n: int| self.survive.contains(n) ==> 0 <= n <= 8
    }

    /// The state of a cell in the next generation, given its state now and
    /// the number of its live neighbours.
    pub open spec fn next(self, alive: bool, neighbors: int) -> bool {
        if alive {
            self.survive.contains(neighbors)
        } else {
            self.born.contains(neighbors)
        }
    }
}

/// The neighbour counts among the entries of `v`. Entries above 8 are not
/// neighbour counts and are left out.
pub open spec fn counts(v: Seq<u8>) -> Set<int> {
    Set::new(|n: int| 0 <= n <= 8 && v.contains(n as u8))
}

/// The neighbour counts whose bit is set in `b`.
pub open spec fn enabled_counts(b: Seq<bool>) -> Set<int> {
    Set::new(|n: int| 0 <= n <= 8 && n < b.len() && b[n])
}

/// Whether `x` occurs in `v`.
fn contains(v: &Vec<u8>, x: u8) -> (found: bool)
    ensures
        found == v@.contains(x),
{
    let mut i: usize = 0;
    while i < v.len()
        invariant
            i <= v.len(),
            forall|j: int| 0 <= j < i ==> v@[j] != x,
        decreases v.len() - i,
    {
        if v[i] == x {
            return true;
        }
        i += 1;
    }
    false
}

/// A rule as its author wrote it: two lists of neighbour counts.
#[derive(Debug)]
pub struct Rule {
    born: Vec<u8>,
    survive: Vec<u8>,
}

impl View for Rule {
    type V = RuleSpec;

    closed spec fn view(&self) -> RuleSpec {
        RuleSpec { born: counts(self.born@), survive: counts(self.survive@) }
    }
}

impl Rule {
    /// A rule from arbitrary lists of counts. Order and repetition do not
    /// matter, and an entry above 8 never matches.
    pub fn new(born: Vec<u8>, survive: Vec<u8>) -> (rule: Rule)
        ensures
            rule@.born == counts(born@),
            rule@.survive == counts(survive@),
            rule@.wf(),
    {
        Rule { born, survive }
    }

    /// Nothing is born and nothing dies.
    pub fn freeze() -> (rule: Rule)
        ensures
            rule@.born == Set::<int>::empty(),
            rule@.survive == set![0int, 1, 2, 3, 4, 5, 6, 7, 8],
    {
        let rule = Rule { born: vec![], survive: vec![0, 1, 2, 3, 4, 5, 6, 7, 8] };
        proof {
            lemma_every_count(rule.survive@);
            assert(rule@.born =~= Set::<int>::empty());
        }
        rule
    }

    /// Born on 3; a live cell never dies.
    pub fn life_without_death() -> (rule: Rule)
        ensures
            rule@.born == set![3int],
            rule@.survive == set![0int, 1, 2, 3, 4, 5, 6, 7, 8],
    {
        let rule = Rule { born: vec![3], survive: vec![0, 1, 2, 3, 4, 5, 6, 7, 8] };
        proof {
            assert(rule.born@[0] == 3);
            assert(rule@.born =~= set![3int]);
            lemma_every_count(rule.survive@);
        }
        rule
    }

    /// Born on 1 or 3; a live cell never dies.
    pub fn modified_life_without_death() -> (rule: Rule)
        ensures
            rule@.born == set![1int, 3],
            rule@.survive == set![0int, 1, 2, 3, 4, 5, 6, 7, 8],
    {
        let rule = Rule { born: vec![1, 3], survive: vec![0, 1, 2, 3, 4, 5, 6, 7, 8] };
        proof {
            assert(rule.born@[0] == 1 && rule.born@[1] == 3);
            assert(rule@.born =~= set![1int, 3]);
            lemma_every_count(rule.survive@);
        }
        rule
    }

    /// Conway's Game of Life: born on 3, survives on 2 or 3.
    pub fn life() -> (rule: Rule)
        ensures
            rule@.born == set![3int],
            rule@.survive == set![2int, 3],
    {
        let rule = Rule { born: vec![3], survive: vec![2, 3] };
        proof {
            assert(rule.born@[0] == 3);
            assert(rule.survive@[0] == 2 && rule.survive@[1] == 3);
            assert(rule@.born =~= set![3int]);
            assert(rule@.survive =~= set![2int, 3]);
        }
        rule
    }

    /// Maze: born on 3, survives on 1 to 5.
    pub fn maze() -> (rule: Rule)
        ensures
            rule@.born == set![3int],
            rule@.survive == set![1int, 2, 3, 4, 5],
    {
        let rule = Rule { born: vec![3], survive: vec![1, 2, 3, 4, 5] };
        proof {
            let s = rule.survive@;
            assert(rule.born@[0] == 3);
            assert(s[0] == 1 && s[1] == 2 && s[2] == 3 && s[3] == 4 && s[4] == 5);
            assert(rule@.born =~= set![3int]);
            assert(rule@.survive =~= set![1int, 2, 3, 4, 5]);
        }
        rule
    }

    /// Morley: born on 3, 6 or 8, survives on 2, 4 or 5.
    pub fn morley() -> (rule: Rule)
        ensures
            rule@.born == set![3int, 6, 8],
            rule@.survive == set![2int, 4, 5],
    {
        let rule = Rule { born: vec![3, 6, 8], survive: vec![2, 4, 5] };
        proof {
            let b = rule.born@;
            let s = rule.survive@;
            assert(b[0] == 3 && b[1] == 6 && b[2] == 8);
            assert(s[0] == 2 && s[1] == 4 && s[2] == 5);
            assert(rule@.born =~= set![3int, 6, 8]);
            assert(rule@.survive =~= set![2int, 4, 5]);
        }
        rule
    }

    /// Whether a dead cell with `count` live neighbours becomes alive.
    pub fn is_birth(&self, count: u8) -> (yes: bool)
        ensures
            yes == self@.born.contains(count as int),
    {
        count <= MAX_NEIGHBORS && contains(&self.born, count)
    }

    /// Whether a live cell with `count` live neighbours stays alive.
    pub fn is_survival(&self, count: u8) -> (yes: bool)
        ensures
            yes == self@.survive.contains(count as int),
    {
        count <= MAX_NEIGHBORS && contains(&self.survive, count)
    }

    /// The rule as two bit sets of nine bits, one bit per neighbour count.
    pub(crate) fn to_bit_set(&self) -> (packed: RuleInBitSet)
        ensures
            packed.wf(),
            packed@ == self@,
    {
        let mut born = FixedBitSet::with_capacity(9);
        let mut survive = FixedBitSet::with_capacity(9);
        let mut i: u8 = 0;
        while i < 9
            invariant
                i <= 9,
                bits(born).len() == 9,
                bits(survive).len() == 9,
                forall|n: int| 0 <= n < i ==> bits(born)[n] == self.born@.contains(n as u8),
                forall|n: int| i <= n < 9 ==> !bits(born)[n],
                forall|n: int| 0 <= n < i ==> bits(survive)[n] == self.survive@.contains(n as u8),
                forall|n: int| i <= n < 9 ==> !bits(survive)[n],
            decreases 9 - i,
        {
            if contains(&self.born, i) {
                born.set(i as usize, true);
            }
            if contains(&self.survive, i) {
                survive.set(i as usize, true);
            }
            i += 1;
        }
        let packed = RuleInBitSet { born, survive };
        assert(packed@.born =~= self@.born);
        assert(packed@.survive =~= self@.survive);
        packed
    }
}

/// A rule packed for the stepping loop: bit `n` of each set says whether the
/// count `n` is in it.
pub(crate) struct RuleInBitSet {
    born: FixedBitSet,
    survive: FixedBitSet,
}

impl View for RuleInBitSet {
    type V = RuleSpec;

    closed spec fn view(&self) -> RuleSpec {
        RuleSpec {
            born: enabled_counts(bits(self.born)),
            survive: enabled_counts(bits(self.survive)),
        }
    }
}

impl RuleInBitSet {
    /// Each set has one bit for every count from 0 to 8.
    pub(crate) closed spec fn wf(&self) -> bool {
        bits(self.born).len() == 9 && bits(self.survive).len() == 9
    }

    /// A packed rule holds neighbour counts only.
    pub(crate) proof fn lemma_counts_only(&self)
        ensures
            self@.wf(),
    {
    }

    /// Whether a dead cell with `count` live neighbours becomes alive.
    pub(crate) fn is_birth(&self, count: u8) -> (yes: bool)
        requires
            self.wf(),
        ensures
            yes == self@.born.contains(count as int),
    {
        count <= MAX_NEIGHBORS && self.born.contains(count as usize)
    }

    /// Whether a live cell with `count` live neighbours stays alive.
    pub(crate) fn is_survival(&self, count: u8) -> (yes: bool)
        requires
            self.wf(),
        ensures
            yes == self@.survive.contains(count as int),
    {
        count <= MAX_NEIGHBORS && self.survive.contains(count as usize)
    }
}

/// A list of every count from 0 to 8 holds every count.
proof fn lemma_every_count(v: Seq<u8>)
    requires
        v.len() == 9,
        forall|i: int| 0 <= i < 9 ==> v[i] == i,
    ensures
        counts(v) == set![0int, 1, 2, 3, 4, 5, 6, 7, 8],
{
    assert(v[0] == 0 && v[1] == 1 && v[2] == 2 && v[3] == 3 && v[4] == 4);
    assert(v[5] == 5 && v[6] == 6 && v[7] == 7 && v[8] == 8);
    assert(counts(v) =~= set![0int, 1, 2, 3, 4, 5, 6, 7, 8]);
}

} // verus!
