//! The orb data model: combat stats plus the optional pair of constituent
//! orbs a merged orb was fused from.

use vstd::prelude::*;

verus! {

/// Merge history of an orb: either it was never merged, or it records the
/// ordered pair of orbs consumed to create it. By construction a lineage is
/// empty or holds exactly two orbs.
pub enum Lineage {
    /// The orb was spawned directly (level roster or split output).
    Empty,
    /// The orb is the fusion of the two recorded orbs, recursively capturing
    /// merge history: each parent may itself carry a lineage.
    Pair(Box<Orb>, Box<Orb>),
}

/// A game object's combat stats. Health may go non-positive (death) or even
/// start negative: a level may spawn deliberately weak orbs. Values are
/// immutable once placed except through merging, splitting and the combat
/// resolver's damage step.
pub struct Orb {
    pub health: i8,
    pub damage: i8,
    pub lineage: Lineage,
}

impl Orb {
    /// An orb with the given stats and no merge history.
    pub fn new(health: i8, damage: i8) -> (r: Orb)
        ensures
            r == plain_orb(health, damage),
    {
        Orb { health, damage, lineage: Lineage::Empty }
    }

    /// True when this orb records the pair of orbs it was merged from.
    pub fn has_lineage(&self) -> (r: bool)
        ensures
            r == (self.lineage is Pair),
    {
        match self.lineage {
            Lineage::Empty => false,
            Lineage::Pair(_, _) => true,
        }
    }
}

/// An orb with the given stats and no merge history.
pub open spec fn plain_orb(health: i8, damage: i8) -> Orb {
    Orb { health, damage, lineage: Lineage::Empty }
}

/// First recorded constituent of a merged orb (the merge's nearest-candidate
/// side); the orb itself when it has no lineage.
pub open spec fn lineage_first(o: Orb) -> Orb {
    match o.lineage {
        Lineage::Pair(a, _) => *a,
        Lineage::Empty => o,
    }
}

/// Second recorded constituent of a merged orb; the orb itself when it has
/// no lineage.
pub open spec fn lineage_second(o: Orb) -> Orb {
    match o.lineage {
        Lineage::Pair(_, b) => *b,
        Lineage::Empty => o,
    }
}

/// The orb produced by merging `a` (the tick's nearest candidate) with `b`:
/// summed stats, lineage recording both sources in that order.
pub open spec fn merged_orb(a: Orb, b: Orb) -> Orb {
    Orb {
        health: (a.health + b.health) as i8,
        damage: (a.damage + b.damage) as i8,
        lineage: Lineage::Pair(Box::new(a), Box::new(b)),
    }
}

/// Both stat sums of a merge stay within the signed 8-bit stat range.
pub open spec fn merge_fits(a: Orb, b: Orb) -> bool {
    &&& i8::MIN <= a.health + b.health <= i8::MAX
    &&& i8::MIN <= a.damage + b.damage <= i8::MAX
}

/// Fuse two orbs: summed health, summed damage, lineage `[a, b]`.
pub fn merge_orbs(a: Orb, b: Orb) -> (r: Orb)
    requires
        merge_fits(a, b),
    ensures
        r == merged_orb(a, b),
{
    let health = a.health + b.health;
    let damage = a.damage + b.damage;
    Orb { health, damage, lineage: Lineage::Pair(Box::new(a), Box::new(b)) }
}

impl Clone for Orb {
    /// A clone is equal to the original, lineage included.
    fn clone(&self) -> (r: Self)
        ensures
            r == *self,
        decreases *self,
    {
        match &self.lineage {
            Lineage::Empty => Orb { health: self.health, damage: self.damage, lineage: Lineage::Empty },
            Lineage::Pair(a, b) => Orb {
                health: self.health,
                damage: self.damage,
                lineage: Lineage::Pair(Box::new((**a).clone()), Box::new((**b).clone())),
            },
        }
    }
}

/// The two orbs recovered by splitting a merged orb are exactly the two
/// orbs given to the merge, in order, and the merged orb carries their
/// summed stats: the merge/split round trip loses nothing.
pub proof fn lemma_merge_split_round_trip(a: Orb, b: Orb)
    requires
        merge_fits(a, b),
    ensures
        merged_orb(a, b).health == a.health + b.health,
        merged_orb(a, b).damage == a.damage + b.damage,
        lineage_first(merged_orb(a, b)) == a,
        lineage_second(merged_orb(a, b)) == b,
{
}

} // verus!
