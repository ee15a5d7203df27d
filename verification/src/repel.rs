//! Spatial repulsion: a pairwise soft-collision correction that keeps
//! player orbs from overlapping during free placement. Each sweep walks all
//! unordered pairs in index order and, where two player orbs overlap,
//! applies an equal-and-opposite per-axis correction that is zero at zero
//! separation and at the full threshold, peaking midway.

use vstd::prelude::*;

use crate::state::{
    dist_sq, dist_sq_between, lemma_positions_within_mono, positions_within, Arena, PlacedOrb, Side, ARENA_CAP, COORD_MAX,
    OVERLAP_DIST, OVERLAP_DIST_SQ, POS_LIMIT,
};

verus! {

/// Divisor of the per-axis correction: magnitude
/// `(threshold - |delta|) / 2 * (|delta| / 1000)` in world units.
pub const REPEL_DIV: i64 = 2_000_000;

/// Largest possible per-axis correction, reached at half the threshold.
pub const REPEL_MAX: i64 = 1_250;

/// Signed per-axis repulsion correction for a center delta along one axis:
/// `(threshold - |delta|) * |delta| / (2 * 1000 * 1000)` milli-units, with
/// the delta's sign. Zero at zero separation and at the full threshold.
pub open spec fn axis_correction(delta: int) -> int {
    if delta >= 0 {
        (OVERLAP_DIST - delta) * delta / (REPEL_DIV as int)
    } else {
        -((OVERLAP_DIST + delta) * (-delta) / (REPEL_DIV as int))
    }
}

/// Executable form of `axis_correction`, bounded by `REPEL_MAX`.
pub fn axis_push(delta: i64) -> (c: i64)
    requires
        -OVERLAP_DIST < delta < OVERLAP_DIST,
    ensures
        c == axis_correction(delta as int),
        -REPEL_MAX <= c <= REPEL_MAX,
{
    let a = if delta >= 0 {
        delta
    } else {
        -delta
    };
    assert(0 <= (OVERLAP_DIST - a) * a <= 2_500_000_000) by (nonlinear_arith)
        requires
            0 <= a < OVERLAP_DIST,
    ;
    let prod = (OVERLAP_DIST - a) * a;
    let mag = prod / REPEL_DIV;
    proof {
        vstd::arithmetic::div_mod::lemma_div_pos_is_pos(prod as int, REPEL_DIV as int);
        vstd::arithmetic::div_mod::lemma_div_is_ordered(
            prod as int,
            2_500_000_000,
            REPEL_DIV as int,
        );
    }
    if delta >= 0 {
        mag
    } else {
        -mag
    }
}

/// Whether the sweep corrects the pair `(a, b)`: both on the player side,
/// neither being dragged, centers strictly closer than the threshold.
pub open spec fn repel_applies(a: PlacedOrb, b: PlacedOrb, skip: Option<u64>) -> bool {
    &&& a.side is Player
    &&& b.side is Player
    &&& !(match skip {
        Some(id) => a.id == id || b.id == id,
        None => false,
    })
    &&& dist_sq(a.x as int, a.y as int, b.x as int, b.y as int) < OVERLAP_DIST_SQ
}

/// One pair step of the sweep: push `s[i]` and `s[j]` apart when the
/// correction applies, leave the sequence alone otherwise.
pub open spec fn sweep_pair(s: Seq<PlacedOrb>, i: int, j: int, skip: Option<u64>) -> Seq<
    PlacedOrb,
> {
    let a = s[i];
    let b = s[j];
    if repel_applies(a, b, skip) {
        let cx = axis_correction(b.x - a.x);
        let cy = axis_correction(b.y - a.y);
        s.update(i, PlacedOrb { x: (a.x - cx) as i64, y: (a.y - cy) as i64, ..a }).update(
            j,
            PlacedOrb { x: (b.x + cx) as i64, y: (b.y + cy) as i64, ..b },
        )
    } else {
        s
    }
}

/// The whole sweep from pair `(i, j)` on, in index order: all pairs
/// `(i, i+1) .. (i, n-1)`, then the pairs starting at `i+1`, and so on.
/// Corrections are applied sequentially: later pairs see earlier moves.
pub open spec fn sweep_from(s: Seq<PlacedOrb>, i: int, j: int, skip: Option<u64>) -> Seq<
    PlacedOrb,
>
    decreases s.len() - i, s.len() - j,
        when 0 <= i < j
{
    if i >= s.len() {
        s
    } else if j >= s.len() {
        sweep_from(s, i + 1, i + 2, skip)
    } else {
        sweep_from(sweep_pair(s, i, j, skip), i, j + 1, skip)
    }
}

/// The full repulsion sweep over the arena.
pub open spec fn sweep(s: Seq<PlacedOrb>, skip: Option<u64>) -> Seq<PlacedOrb> {
    sweep_from(s, 0, 1, skip)
}

/// Relax overlaps among player orbs: one sweep over every unordered pair,
/// skipping pairs that contain the currently dragged orb (`skip`). Only
/// positions change; identities, sides, stats and presentation values of
/// every orb stay, as does the arena's spawn counter.
pub fn repel_pass(arena: &mut Arena, skip: Option<u64>)
    requires
        positions_within(old(arena).orbs@, 4 * POS_LIMIT as int),
        old(arena).orbs@.len() <= ARENA_CAP,
    ensures
        final(arena).orbs@ == sweep(old(arena).orbs@, skip),
        final(arena).next_id == old(arena).next_id,
        positions_within(final(arena).orbs@, 5 * POS_LIMIT as int),
{
    let n = arena.orbs.len();
    let ghost orig = arena.orbs@;
    let mut i: usize = 0;
    proof {
        lemma_cap_bound(0, 0, n as int);
    }
    while i < n
        invariant
            n == arena.orbs@.len(),
            n == orig.len(),
            n <= ARENA_CAP,
            i <= n,
            arena.next_id == old(arena).next_id,
            sweep_from(arena.orbs@, i as int, i + 1, skip) == sweep(orig, skip),
            positions_within(arena.orbs@, 4 * POS_LIMIT + 1250 * (i * (n as int))),
        decreases n - i,
    {
        proof {
            lemma_cap_bound(i as int, i + 1, n as int);
            lemma_positions_within_mono(
                arena.orbs@,
                4 * POS_LIMIT + 1250 * (i * (n as int)),
                4 * POS_LIMIT + 1250 * (i * (n as int) + i + 1),
            );
        }
        let mut j: usize = i + 1;
        while j < n
            invariant
                n == arena.orbs@.len(),
                n == orig.len(),
                n <= ARENA_CAP,
                i < n,
                i + 1 <= j <= n,
                arena.next_id == old(arena).next_id,
                sweep_from(arena.orbs@, i as int, j as int, skip) == sweep(orig, skip),
                positions_within(arena.orbs@, 4 * POS_LIMIT + 1250 * (i * (n as int) + j)),
            decreases n - j,
        {
            let ghost pre = arena.orbs@;
            let ghost bound = 4 * POS_LIMIT + 1250 * (i * (n as int) + j);
            proof {
                lemma_cap_bound(i as int, j as int, n as int);
                lemma_positions_within_mono(pre, bound, 5 * POS_LIMIT as int);
            }
            let a_side = arena.orbs[i].side;
            let b_side = arena.orbs[j].side;
            let a_id = arena.orbs[i].id;
            let b_id = arena.orbs[j].id;
            let skipped = match skip {
                Option::Some(id) => a_id == id || b_id == id,
                Option::None => false,
            };
            if a_side == Side::Player && b_side == Side::Player && !skipped {
                let ax = arena.orbs[i].x;
                let ay = arena.orbs[i].y;
                let bx = arena.orbs[j].x;
                let by = arena.orbs[j].y;
                let d = dist_sq_between(ax, ay, bx, by);
                if d < OVERLAP_DIST_SQ {
                    assert(-OVERLAP_DIST < bx - ax < OVERLAP_DIST && -OVERLAP_DIST < by - ay
                        < OVERLAP_DIST) by (nonlinear_arith)
                        requires
                            (ax - bx) * (ax - bx) + (ay - by) * (ay - by) < OVERLAP_DIST_SQ,
                            OVERLAP_DIST_SQ == OVERLAP_DIST * OVERLAP_DIST,
                            OVERLAP_DIST > 0,
                    ;
                    let cx = axis_push(bx - ax);
                    let cy = axis_push(by - ay);
                    arena.orbs[i].x = ax - cx;
                    arena.orbs[i].y = ay - cy;
                    arena.orbs[j].x = bx + cx;
                    arena.orbs[j].y = by + cy;
                    assert(arena.orbs@ =~= sweep_pair(pre, i as int, j as int, skip));
                    assert forall|k: int| 0 <= k < arena.orbs@.len() implies -(bound + 1250)
                        <= #[trigger] arena.orbs@[k].x <= bound + 1250 && -(bound + 1250)
                        <= arena.orbs@[k].y <= bound + 1250 by {
                        if k != i as int && k != j as int {
                            assert(arena.orbs@[k] == pre[k]);
                        }
                    }
                    assert(positions_within(arena.orbs@, bound + 1250));
                } else {
                    assert(arena.orbs@ == sweep_pair(pre, i as int, j as int, skip));
                    proof {
                        lemma_positions_within_mono(arena.orbs@, bound, bound + 1250);
                    }
                }
            } else {
                assert(arena.orbs@ == sweep_pair(pre, i as int, j as int, skip));
                proof {
                    lemma_positions_within_mono(arena.orbs@, bound, bound + 1250);
                }
            }
            j = j + 1;
            assert(sweep_from(pre, i as int, j - 1, skip) == sweep_from(
                arena.orbs@,
                i as int,
                j as int,
                skip,
            ));
            assert(positions_within(arena.orbs@, 4 * POS_LIMIT + 1250 * (i * (n as int) + j)));
        }
        i = i + 1;
        assert(sweep_from(arena.orbs@, i - 1, n as int, skip) == sweep_from(
            arena.orbs@,
            i as int,
            i + 1,
            skip,
        ));
        assert((i as int) * (n as int) == (i - 1) * (n as int) + n) by (nonlinear_arith);
    }
    assert(sweep_from(arena.orbs@, n as int, n + 1, skip) == arena.orbs@);
    proof {
        lemma_cap_bound(n as int, 0, n as int);
        lemma_positions_within_mono(
            arena.orbs@,
            4 * POS_LIMIT + 1250 * ((n as int) * (n as int)),
            5 * POS_LIMIT as int,
        );
    }
}

/// Bookkeeping bound for the sweep: the pair counter stays small enough
/// that the accumulated drift fits far inside the coordinate bound.
proof fn lemma_cap_bound(i: int, j: int, n: int)
    requires
        0 <= i <= n,
        0 <= j <= n + 1,
        n <= ARENA_CAP,
    ensures
        0 <= i * n + j,
        1250 * (i * n + j) <= POS_LIMIT,
{
    assert(0 <= i * n <= ARENA_CAP * ARENA_CAP) by (nonlinear_arith)
        requires
            0 <= i <= n <= ARENA_CAP,
    ;
}

/// The sweep only moves orbs: length, identities, sides, stats and
/// presentation values are untouched.
pub proof fn lemma_sweep_frame(s: Seq<PlacedOrb>, i: int, j: int, skip: Option<u64>)
    requires
        0 <= i < j,
    ensures
        sweep_from(s, i, j, skip).len() == s.len(),
        forall|k: int|
            0 <= k < s.len() ==> {
                let o = #[trigger] sweep_from(s, i, j, skip)[k];
                o.id == s[k].id && o.side == s[k].side && o.orb == s[k].orb && o.highlight
                    == s[k].highlight && o.outline == s[k].outline && o.raised == s[k].raised
            },
    decreases s.len() - i, s.len() - j,
{
    if i >= s.len() {
    } else if j >= s.len() {
        lemma_sweep_frame(s, i + 1, i + 2, skip);
    } else {
        lemma_sweep_frame(sweep_pair(s, i, j, skip), i, j + 1, skip);
    }
}

/// Repulsion is symmetric: when a pair overlaps, the positional correction
/// applied to one orb is the exact negation of the correction applied to
/// the other, on each axis independently.
pub proof fn lemma_repulsion_symmetric(s: Seq<PlacedOrb>, i: int, j: int, skip: Option<u64>)
    requires
        0 <= i < j < s.len(),
        positions_within(s, 8 * POS_LIMIT as int),
        repel_applies(s[i], s[j], skip),
    ensures
        sweep_pair(s, i, j, skip)[i].x - s[i].x == -(sweep_pair(s, i, j, skip)[j].x - s[j].x),
        sweep_pair(s, i, j, skip)[i].y - s[i].y == -(sweep_pair(s, i, j, skip)[j].y - s[j].y),
        sweep_pair(s, i, j, skip)[i].x - s[i].x == -axis_correction(s[j].x - s[i].x),
        sweep_pair(s, i, j, skip)[j].x - s[j].x == axis_correction(s[j].x - s[i].x),
{
    assert(-OVERLAP_DIST < s[j].x - s[i].x < OVERLAP_DIST && -OVERLAP_DIST < s[j].y - s[i].y
        < OVERLAP_DIST) by (nonlinear_arith)
        requires
            dist_sq(s[i].x as int, s[i].y as int, s[j].x as int, s[j].y as int)
                < OVERLAP_DIST_SQ,
            OVERLAP_DIST_SQ == OVERLAP_DIST * OVERLAP_DIST,
            OVERLAP_DIST > 0,
    ;
    lemma_correction_bounded(s[j].x - s[i].x);
    lemma_correction_bounded(s[j].y - s[i].y);
}

/// Within the overlap threshold the signed correction never exceeds
/// `REPEL_MAX` in magnitude.
pub proof fn lemma_correction_bounded(d: int)
    requires
        -OVERLAP_DIST <= d <= OVERLAP_DIST,
    ensures
        -REPEL_MAX <= axis_correction(d) <= REPEL_MAX,
{
    let a = if d >= 0 {
        d
    } else {
        -d
    };
    let prod = (OVERLAP_DIST - a) * a;
    assert(0 <= prod <= 2_500_000_000) by (nonlinear_arith)
        requires
            0 <= a <= OVERLAP_DIST,
            prod == (OVERLAP_DIST - a) * a,
    ;
    vstd::arithmetic::div_mod::lemma_div_pos_is_pos(prod, REPEL_DIV as int);
    vstd::arithmetic::div_mod::lemma_div_is_ordered(prod, 2_500_000_000, REPEL_DIV as int);
}

/// The correction magnitude is zero at separation zero and at the full
/// threshold, and is maximal midway between them: no axis correction ever
/// exceeds the one at half the threshold.
pub proof fn lemma_correction_extremes()
    ensures
        axis_correction(0) == 0,
        axis_correction(OVERLAP_DIST as int) == 0,
        axis_correction(-(OVERLAP_DIST as int)) == 0,
        axis_correction(50_000) == REPEL_MAX,
        axis_correction(-50_000) == -REPEL_MAX,
        forall|d: int|
            -OVERLAP_DIST <= d <= OVERLAP_DIST ==> -REPEL_MAX <= #[trigger] axis_correction(d)
                <= REPEL_MAX,
{
    assert(axis_correction(0) == 0);
    assert(axis_correction(OVERLAP_DIST as int) == 0);
    assert(axis_correction(-(OVERLAP_DIST as int)) == 0);
    assert(axis_correction(50_000) == REPEL_MAX);
    assert(axis_correction(-50_000) == -REPEL_MAX);
    assert forall|d: int|
        -OVERLAP_DIST <= d <= OVERLAP_DIST implies -REPEL_MAX <= #[trigger] axis_correction(d)
        <= REPEL_MAX by {
        lemma_correction_bounded(d);
    }
}

} // verus!
