//! Shared simulation state: placed orbs, the arena, the per-tick context
//! (phase, combat step, level counter, selection, pending level change) and
//! pointer input, together with the fixed-point geometry helpers every
//! component uses.
//!
//! All geometry is in milli-units: 1000 milli-units are one world unit.

use vstd::prelude::*;

use crate::orb::Orb;

verus! {

/// Which army a placed orb belongs to.
#[derive(PartialEq, Eq, Structural, Clone, Copy, Debug)]
pub enum Side {
    Player,
    Enemy,
}

/// Top-level mode: free placement and merging, or sequential duels.
#[derive(PartialEq, Eq, Structural, Clone, Copy, Debug)]
pub enum Phase {
    Prep,
    Combat,
}

/// Sub-state of the combat phase: queue formation, approach-and-duel, and
/// requeueing of the surviving front orbs.
#[derive(PartialEq, Eq, Structural, Clone, Copy, Debug)]
pub enum CombatStep {
    LineUp,
    Attack,
    Next,
}

/// Pointer selection radius: a player orb closer than this to the pointer
/// (strictly, in world units: 30) can be selected, merged into, or marked
/// combine-ready.
pub const SELECT_RADIUS: i64 = 30_000;

/// `SELECT_RADIUS` squared, for squared-distance comparisons.
pub const SELECT_RADIUS_SQ: i128 = 900_000_000;

/// Repulsion overlap threshold (100 world units), squared: two player orbs
/// whose centers are closer than this push each other apart.
pub const OVERLAP_DIST_SQ: i128 = 10_000_000_000;

/// Repulsion overlap threshold along one axis, in milli-units.
pub const OVERLAP_DIST: i64 = 100_000;

/// Bound on orb coordinates accepted by the tick functions; far beyond any
/// reachable position, it only keeps the fixed-point arithmetic inside i64.
pub const POS_LIMIT: i64 = 1_000_000_000_000;

/// Bound on coordinates for which the geometry helpers are overflow-free;
/// intermediate positions within a tick stay far below it.
pub const COORD_MAX: i64 = 8_000_000_000_000;

/// Bound on the arena's orb count accepted by the tick functions, forced by
/// the fixed-point overflow argument, not by the game's rules.
pub const ARENA_CAP: usize = 16384;

/// A position bound grows monotonically: what lies within a small bound
/// lies within every larger one.
pub proof fn lemma_positions_within_mono(orbs: Seq<PlacedOrb>, a: int, b: int)
    requires
        positions_within(orbs, a),
        a <= b,
    ensures
        positions_within(orbs, b),
{
}

/// An orb instance positioned in the arena, tagged with its side, plus the
/// presentation values the engine owns numerically and a renderer consumes:
/// highlight blend, outline width and a draw-order hint.
pub struct PlacedOrb {
    /// Stable spawn-sequence identity; never reused within one arena.
    pub id: u64,
    pub side: Side,
    /// Center, in milli-units.
    pub x: i64,
    pub y: i64,
    pub orb: Orb,
    /// Blend toward the highlight tint, from 0 (base color) to
    /// `HIGHLIGHT_MAX` (full highlight).
    pub highlight: i64,
    /// Visual outline width in milli-units, eased between `OUTLINE_BASE`
    /// and `OUTLINE_MAX`.
    pub outline: i64,
    /// Draw-order hint: the selected orb is raised above the others.
    pub raised: bool,
}

/// Full highlight blend (1.0 in world terms).
pub const HIGHLIGHT_MAX: i64 = 1000;

/// Divisor of the per-tick highlight easing: rate 0.05 per tick.
pub const TINT_DIV: i64 = 20;

/// Base outline width (5 world units).
pub const OUTLINE_BASE: i64 = 5_000;

/// Widest outline (10 world units), approached while combine-ready.
pub const OUTLINE_MAX: i64 = 10_000;

/// Divisor of the per-tick outline easing: rate 0.2 per tick.
pub const OUTLINE_DIV: i64 = 5;

/// A freshly spawned placed orb: base presentation values, not raised.
pub open spec fn spawned(id: u64, side: Side, x: i64, y: i64, orb: Orb) -> PlacedOrb {
    PlacedOrb { id, side, x, y, orb, highlight: 0, outline: OUTLINE_BASE, raised: false }
}

impl PlacedOrb {
    /// Place an orb in the arena with base presentation values.
    pub fn new(id: u64, side: Side, x: i64, y: i64, orb: Orb) -> (r: PlacedOrb)
        ensures
            r == spawned(id, side, x, y, orb),
    {
        PlacedOrb { id, side, x, y, orb, highlight: 0, outline: OUTLINE_BASE, raised: false }
    }
}

/// The arena owning every placed orb, with the spawn-sequence counter that
/// hands out identities.
pub struct Arena {
    pub orbs: Vec<PlacedOrb>,
    /// Next identity to hand out; every id in the arena is below it.
    pub next_id: u64,
}

/// Arena well-formedness: ids are unique and below the spawn counter.
pub open spec fn arena_inv(orbs: Seq<PlacedOrb>, next_id: u64) -> bool {
    &&& forall|i: int| 0 <= i < orbs.len() ==> orbs[i].id < next_id
    &&& forall|i: int, j: int|
        0 <= i < j < orbs.len() ==> orbs[i].id != orbs[j].id
}

/// Every orb's presentation values (highlight blend, outline width) lie
/// within `limit`.
pub open spec fn presentation_within(orbs: Seq<PlacedOrb>, limit: int) -> bool {
    forall|i: int|
        0 <= i < orbs.len() ==> -limit <= #[trigger] orbs[i].highlight <= limit && -limit
            <= orbs[i].outline <= limit
}

/// Every orb's center lies within `limit` on both axes.
pub open spec fn positions_within(orbs: Seq<PlacedOrb>, limit: int) -> bool {
    forall|i: int|
        0 <= i < orbs.len() ==> -limit <= #[trigger] orbs[i].x <= limit && -limit <= orbs[i].y
            <= limit
}

impl Arena {
    /// An empty arena whose first spawned orb will get identity 0.
    pub fn new() -> (r: Arena)
        ensures
            r.orbs@ == Seq::<PlacedOrb>::empty(),
            r.next_id == 0,
    {
        Arena { orbs: Vec::new(), next_id: 0 }
    }
}

/// The single-slot selection: the one player orb currently eligible for
/// dragging and splitting, with a snapshot of its orb value and its squared
/// distance to the pointer at selection time.
pub struct Selection {
    pub id: u64,
    pub snapshot: Orb,
    pub dist_sq: i128,
}

/// Process-wide control state, passed explicitly to each component every
/// tick: phase, combat step, level counter, selection slot and the pending
/// change-level request.
pub struct Context {
    pub phase: Phase,
    pub step: CombatStep,
    /// Level counter: always the next level to play. Decremented on a failed
    /// duel outcome before respawn, incremented after every respawn.
    pub level: i8,
    pub selection: Option<Selection>,
    /// An emitted change-level request waiting to be processed, at most one.
    pub pending: Option<ChangeLevel>,
}

/// Ephemeral request to reset the arena to the current level's roster,
/// retreating one level first when the bout was lost.
pub struct ChangeLevel {
    pub fail: bool,
}

impl Context {
    /// The state a fresh process starts in: preparation phase at level 0,
    /// nothing selected, with the initial arena population already queued.
    pub fn new() -> (r: Context)
        ensures
            r.phase == Phase::Prep,
            r.step == CombatStep::LineUp,
            r.level == 0,
            r.selection is None,
            r.pending matches Some(req) && !req.fail,
    {
        Context {
            phase: Phase::Prep,
            step: CombatStep::LineUp,
            level: 0,
            selection: None,
            pending: Some(ChangeLevel { fail: false }),
        }
    }
}

/// Pointer state for one tick, already projected into world coordinates by
/// the presentation layer.
pub struct PointerInput {
    /// Pointer world position, milli-units.
    pub x: i64,
    pub y: i64,
    /// Raw pointer motion this tick, in screen orientation: the vertical
    /// axis is inverted when applied to world positions.
    pub dx: i64,
    pub dy: i64,
    /// Primary button is held.
    pub held: bool,
    /// Primary button went from held to released this tick.
    pub released: bool,
    /// Secondary (split) action fired this tick.
    pub split: bool,
}

/// Pointer input the tick functions accept: coordinates and motion within
/// the fixed-point bounds, and a button cannot be both held and released in
/// the same tick.
pub open spec fn input_ok(inp: PointerInput) -> bool {
    &&& -POS_LIMIT <= inp.x <= POS_LIMIT
    &&& -POS_LIMIT <= inp.y <= POS_LIMIT
    &&& -POS_LIMIT <= inp.dx <= POS_LIMIT
    &&& -POS_LIMIT <= inp.dy <= POS_LIMIT
    &&& inp.released ==> !inp.held
}

/// Truncating division (toward zero) by a positive divisor, as the
/// fixed-point easing steps compute it.
pub open spec fn tdiv(a: int, b: int) -> int {
    if a >= 0 {
        a / b
    } else {
        -((-a) / b)
    }
}

/// One easing step of `p` toward `t`: move by the truncated `d`-th part of
/// the remaining distance. Never overshoots; stalls only within `d` of `t`.
pub open spec fn ease(p: int, t: int, d: int) -> int {
    p + tdiv(t - p, d)
}

/// Squared Euclidean distance between two points.
pub open spec fn dist_sq(x1: int, y1: int, x2: int, y2: int) -> int {
    (x1 - x2) * (x1 - x2) + (y1 - y2) * (y1 - y2)
}

/// One easing step toward a target: executable form of `ease`.
pub fn ease_toward(p: i64, t: i64, d: i64) -> (r: i64)
    requires
        0 < d <= 100,
        -COORD_MAX <= p <= COORD_MAX,
        -COORD_MAX <= t <= COORD_MAX,
    ensures
        r == ease(p as int, t as int, d as int),
        p <= t ==> p <= r <= t,
        t <= p ==> t <= r <= p,
{
    if t >= p {
        let diff = t - p;
        let step = diff / d;
        assert(0 <= step <= diff) by {
            vstd::arithmetic::div_mod::lemma_div_pos_is_pos(diff as int, d as int);
            vstd::arithmetic::div_mod::lemma_div_is_ordered_by_denominator(
                diff as int,
                1,
                d as int,
            );
        }
        p + step
    } else {
        let diff = p - t;
        let step = diff / d;
        assert(0 <= step <= diff) by {
            vstd::arithmetic::div_mod::lemma_div_pos_is_pos(diff as int, d as int);
            vstd::arithmetic::div_mod::lemma_div_is_ordered_by_denominator(
                diff as int,
                1,
                d as int,
            );
        }
        p - step
    }
}

/// Squared distance between two points, computed exactly in 128 bits.
pub fn dist_sq_between(x1: i64, y1: i64, x2: i64, y2: i64) -> (r: i128)
    requires
        -COORD_MAX <= x1 <= COORD_MAX,
        -COORD_MAX <= y1 <= COORD_MAX,
        -COORD_MAX <= x2 <= COORD_MAX,
        -COORD_MAX <= y2 <= COORD_MAX,
    ensures
        r == dist_sq(x1 as int, y1 as int, x2 as int, y2 as int),
        r >= 0,
{
    let dx: i128 = x1 as i128 - x2 as i128;
    let dy: i128 = y1 as i128 - y2 as i128;
    assert(0 <= dx * dx <= 0x10000000000000000000000000 && 0 <= dy * dy
        <= 0x10000000000000000000000000) by (nonlinear_arith)
        requires
            -2 * COORD_MAX <= dx <= 2 * COORD_MAX,
            -2 * COORD_MAX <= dy <= 2 * COORD_MAX,
    ;
    dx * dx + dy * dy
}

} // verus!
