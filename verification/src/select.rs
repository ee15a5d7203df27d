//! Selection & drag controller and the merge/split engine: each
//! preparation tick finds the player orb nearest the pointer, keeps the
//! single-slot selection up to date, drags the selected orb, merges two
//! overlapping orbs on release, splits a merged orb on the secondary
//! action, updates the visual feedback values, and finally relaxes
//! overlaps through the repulsion sweep.

use vstd::prelude::*;

use crate::orb::{lineage_first, lineage_second, merge_fits, merge_orbs, merged_orb, Lineage};
use crate::repel::{lemma_sweep_frame, repel_pass, sweep};
use crate::state::{
    arena_inv, dist_sq, dist_sq_between, ease, ease_toward, input_ok, positions_within,
    presentation_within, spawned, Arena, Context, Phase, PlacedOrb, PointerInput, Selection,
    Side, ARENA_CAP, HIGHLIGHT_MAX, OUTLINE_BASE, OUTLINE_MAX, POS_LIMIT, SELECT_RADIUS_SQ,
    TINT_DIV,
};

verus! {

/// Divisor of the drag-follow easing: the selected orb moves a tenth of
/// the way to the pointer each tick.
pub const FOLLOW_DIV: i64 = 10;

/// Offset between the two orbs a split spawns (5 world units per index).
pub const SPLIT_OFFSET: i64 = 5_000;

/// Divisor of the outline easing: rate 0.2 per tick.
pub const WIDTH_DIV: i64 = 5;

/// Nearest player orb to the pointer among the first `upto`, the earlier
/// index winning ties.
pub open spec fn nearest_upto(s: Seq<PlacedOrb>, px: int, py: int, upto: int) -> Option<int>
    decreases upto,
{
    if upto <= 0 {
        Option::None
    } else {
        let rest = nearest_upto(s, px, py, upto - 1);
        if s[upto - 1].side is Player {
            match rest {
                Option::None => Option::Some(upto - 1),
                Option::Some(m) => if dist_sq(s[upto - 1].x as int, s[upto - 1].y as int, px, py)
                    < dist_sq(s[m].x as int, s[m].y as int, px, py) {
                    Option::Some(upto - 1)
                } else {
                    Option::Some(m)
                },
            }
        } else {
            rest
        }
    }
}

/// The tick's nearest candidate: the player orb with minimal Euclidean
/// distance to the pointer, the earlier index winning ties.
pub open spec fn nearest_player(s: Seq<PlacedOrb>, px: int, py: int) -> Option<int> {
    nearest_upto(s, px, py, s.len() as int)
}

/// First placed orb carrying identity `id`, among the first `upto`.
pub open spec fn find_id_upto(s: Seq<PlacedOrb>, id: u64, upto: int) -> Option<int>
    decreases upto,
{
    if upto <= 0 {
        Option::None
    } else {
        match find_id_upto(s, id, upto - 1) {
            Option::Some(m) => Option::Some(m),
            Option::None => if s[upto - 1].id == id {
                Option::Some(upto - 1)
            } else {
                Option::None
            },
        }
    }
}

/// First placed orb carrying identity `id`.
pub open spec fn find_id(s: Seq<PlacedOrb>, id: u64) -> Option<int> {
    find_id_upto(s, id, s.len() as int)
}

/// The idle selection rule, evaluated only while the button is up in the
/// preparation phase: the nearest candidate becomes the selection when it
/// is strictly inside the selection radius, otherwise the selection
/// clears. With no player orb at all the selection is left as it was.
pub open spec fn selection_update(
    s: Seq<PlacedOrb>,
    sel: Option<Selection>,
    inp: PointerInput,
    phase: Phase,
) -> Option<Selection> {
    if !inp.held && phase is Prep {
        match nearest_player(s, inp.x as int, inp.y as int) {
            Option::Some(i) => {
                let d = dist_sq(s[i].x as int, s[i].y as int, inp.x as int, inp.y as int);
                if d < SELECT_RADIUS_SQ {
                    Option::Some(Selection { id: s[i].id, snapshot: s[i].orb, dist_sq: d as i128 })
                } else {
                    Option::None
                }
            },
            Option::None => sel,
        }
    } else {
        sel
    }
}

/// First player orb other than the nearest candidate whose center is
/// strictly inside the selection radius of the pointer: the merge partner.
pub open spec fn merge_candidate_upto(
    s: Seq<PlacedOrb>,
    near: int,
    px: int,
    py: int,
    upto: int,
) -> Option<int>
    decreases upto,
{
    if upto <= 0 {
        Option::None
    } else {
        match merge_candidate_upto(s, near, px, py, upto - 1) {
            Option::Some(m) => Option::Some(m),
            Option::None => if s[upto - 1].side is Player && upto - 1 != near && dist_sq(
                s[upto - 1].x as int,
                s[upto - 1].y as int,
                px,
                py,
            ) < SELECT_RADIUS_SQ {
                Option::Some(upto - 1)
            } else {
                Option::None
            },
        }
    }
}

/// The merge partner of the nearest candidate, if any.
pub open spec fn merge_candidate(s: Seq<PlacedOrb>, near: int, px: int, py: int) -> Option<
    int,
> {
    merge_candidate_upto(s, near, px, py, s.len() as int)
}

/// Despawn the two orbs at distinct indices `a` and `b`, keeping order.
pub open spec fn remove_two(s: Seq<PlacedOrb>, a: int, b: int) -> Seq<PlacedOrb> {
    if a < b {
        s.remove(b).remove(a)
    } else {
        s.remove(a).remove(b)
    }
}

/// The arena after a merge: both sources despawned, the fused orb spawned
/// as a player orb at the pointer, with the nearest candidate's orb first
/// in the recorded lineage.
pub open spec fn merge_result(
    s: Seq<PlacedOrb>,
    near: int,
    cand: int,
    nid: u64,
    px: i64,
    py: i64,
) -> Seq<PlacedOrb> {
    remove_two(s, near, cand).push(
        spawned(nid, Side::Player, px, py, merged_orb(s[near].orb, s[cand].orb)),
    )
}

/// The arena after a split of the orb at `k`: the original despawned, its
/// two recorded constituents spawned as independent player orbs near the
/// original position, the second offset to avoid exact overlap.
pub open spec fn split_result(s: Seq<PlacedOrb>, k: int, nid: u64) -> Seq<PlacedOrb> {
    s.remove(k).push(spawned(nid, Side::Player, s[k].x, s[k].y, lineage_first(s[k].orb))).push(
        spawned(
            (nid + 1) as u64,
            Side::Player,
            (s[k].x + SPLIT_OFFSET) as i64,
            (s[k].y + SPLIT_OFFSET) as i64,
            lineage_second(s[k].orb),
        ),
    )
}

/// Drag-follow of the selected orb: a tenth of the way toward the pointer
/// on each axis, plus the tick's raw pointer motion, inverted vertically
/// to match the screen-to-world orientation.
pub open spec fn follow_moved(s: Seq<PlacedOrb>, k: int, inp: PointerInput) -> Seq<PlacedOrb> {
    s.update(
        k,
        PlacedOrb {
            x: (ease(s[k].x as int, inp.x as int, 10) + inp.dx) as i64,
            y: (ease(s[k].y as int, inp.y as int, 10) - inp.dy) as i64,
            ..s[k]
        },
    )
}

/// One tint tick for a player orb: the selected orb blends toward the
/// highlight and is raised in draw order; every other player orb blends
/// back toward its base color and is lowered. Enemy orbs are untouched.
pub open spec fn tinted(o: PlacedOrb, selected: bool) -> PlacedOrb {
    if o.side is Player {
        if selected {
            PlacedOrb {
                highlight: ease(o.highlight as int, HIGHLIGHT_MAX as int, 20) as i64,
                raised: true,
                ..o
            }
        } else {
            PlacedOrb { highlight: ease(o.highlight as int, 0, 20) as i64, raised: false, ..o }
        }
    } else {
        o
    }
}

/// The identity the selection points at, if any.
pub open spec fn sel_id_of(sel: Option<Selection>) -> Option<u64> {
    match sel {
        Option::Some(sl) => Option::Some(sl.id),
        Option::None => Option::None,
    }
}

/// The tint pass over the whole arena: an orb is tinted as selected when
/// the selection carries its identity and the game is in preparation.
pub open spec fn tint_pass(s: Seq<PlacedOrb>, sel_id: Option<u64>, prep: bool) -> Seq<
    PlacedOrb,
> {
    s.map(
        |i: int, o: PlacedOrb|
            tinted(
                o,
                prep && match sel_id {
                    Option::Some(id) => o.id == id,
                    Option::None => false,
                },
            ),
    )
}

/// While dragging, some non-selected player orb lies within the selection
/// radius of the pointer: the merge is ready.
pub open spec fn any_combine_ready(s: Seq<PlacedOrb>, sel_id: u64, px: int, py: int) -> bool {
    exists|k: int|
        0 <= k < s.len() && (#[trigger] s[k]).side is Player && s[k].id != sel_id && dist_sq(
            s[k].x as int,
            s[k].y as int,
            px,
            py,
        ) <= SELECT_RADIUS_SQ
}

/// One outline tick for a player orb during a drag: a non-selected orb
/// widens toward the maximum while combine-ready (pointer within the
/// selection radius, non-strict) and narrows toward the base otherwise;
/// the selected orb widens exactly when some orb is combine-ready.
pub open spec fn outlined(o: PlacedOrb, sel_id: u64, px: int, py: int, any: bool) -> PlacedOrb {
    if o.side is Player {
        if o.id != sel_id {
            if dist_sq(o.x as int, o.y as int, px, py) <= SELECT_RADIUS_SQ {
                PlacedOrb { outline: ease(o.outline as int, OUTLINE_MAX as int, 5) as i64, ..o }
            } else {
                PlacedOrb { outline: ease(o.outline as int, OUTLINE_BASE as int, 5) as i64, ..o }
            }
        } else if any {
            PlacedOrb { outline: ease(o.outline as int, OUTLINE_MAX as int, 5) as i64, ..o }
        } else {
            PlacedOrb { outline: ease(o.outline as int, OUTLINE_BASE as int, 5) as i64, ..o }
        }
    } else {
        o
    }
}

/// A player orb's outline relaxing toward the base width.
pub open spec fn relaxed(o: PlacedOrb) -> PlacedOrb {
    if o.side is Player {
        PlacedOrb { outline: ease(o.outline as int, OUTLINE_BASE as int, 5) as i64, ..o }
    } else {
        o
    }
}

/// The combine-readiness feedback pass: while dragging in preparation the
/// outlines follow the readiness rule; in the combat phase all player
/// outlines relax toward the base width; otherwise they are left alone.
pub open spec fn feedback_pass(
    s: Seq<PlacedOrb>,
    sel_id: Option<u64>,
    phase: Phase,
    inp: PointerInput,
) -> Seq<PlacedOrb> {
    if inp.held && phase is Prep && sel_id is Some {
        let sid = sel_id->0;
        let any = any_combine_ready(s, sid, inp.x as int, inp.y as int);
        s.map(|i: int, o: PlacedOrb| outlined(o, sid, inp.x as int, inp.y as int, any))
    } else if phase is Combat {
        s.map(|i: int, o: PlacedOrb| relaxed(o))
    } else {
        s
    }
}

/// Whether this tick merges, and which pair: the button went from held to
/// released in preparation, and a merge partner overlaps the pointer.
pub open spec fn merge_fires(s: Seq<PlacedOrb>, inp: PointerInput, phase: Phase) -> Option<
    (int, int),
> {
    if inp.released && phase is Prep {
        match nearest_player(s, inp.x as int, inp.y as int) {
            Option::Some(near) => match merge_candidate(s, near, inp.x as int, inp.y as int) {
                Option::Some(cand) => Option::Some((near, cand)),
                Option::None => Option::None,
            },
            Option::None => Option::None,
        }
    } else {
        Option::None
    }
}

/// Index of the orb a split request addresses this tick: the secondary
/// action fired in preparation and the (just updated) selection matches a
/// placed player orb.
pub open spec fn split_target(
    s: Seq<PlacedOrb>,
    sel1: Option<Selection>,
    inp: PointerInput,
    phase: Phase,
) -> Option<int> {
    if inp.split && phase is Prep {
        match sel1 {
            Option::Some(sl) => match find_id(s, sl.id) {
                Option::Some(k) => if s[k].side is Player {
                    Option::Some(k)
                } else {
                    Option::None
                },
                Option::None => Option::None,
            },
            Option::None => Option::None,
        }
    } else {
        Option::None
    }
}

/// The steady part of a preparation tick: drag-follow of the selected
/// orb, the tint pass, the outline feedback pass, and the repulsion sweep
/// skipping the dragged orb.
pub open spec fn motion_spec(
    s: Seq<PlacedOrb>,
    sid: Option<u64>,
    phase: Phase,
    inp: PointerInput,
) -> Seq<PlacedOrb> {
    let dragging = inp.held && phase is Prep && sid is Some;
    let s1 = if dragging && find_id(s, sid->0) is Some {
        follow_moved(s, find_id(s, sid->0)->0, inp)
    } else {
        s
    };
    let s2 = tint_pass(s1, sid, phase is Prep);
    let s3 = feedback_pass(s2, sid, phase, inp);
    let skip = if dragging {
        sid
    } else {
        Option::<u64>::None
    };
    sweep(s3, skip)
}

/// One full preparation-controller tick over the arena: selection update,
/// then — exclusively, each ending the tick early — a merge or a split;
/// otherwise drag-follow, the tint pass, the outline feedback pass and the
/// repulsion sweep (which skips the dragged orb). Returns the new arena,
/// the new spawn counter and the new selection.
pub open spec fn update_spec(
    s: Seq<PlacedOrb>,
    nid: u64,
    sel: Option<Selection>,
    phase: Phase,
    inp: PointerInput,
) -> (Seq<PlacedOrb>, u64, Option<Selection>) {
    let sel1 = selection_update(s, sel, inp, phase);
    match merge_fires(s, inp, phase) {
        Option::Some((near, cand)) => (
            merge_result(s, near, cand, nid, inp.x, inp.y),
            (nid + 1) as u64,
            Option::None,
        ),
        Option::None => match split_target(s, sel1, inp, phase) {
            Option::Some(k) => if s[k].orb.lineage is Empty {
                (s, nid, sel1)
            } else {
                (split_result(s, k, nid), (nid + 2) as u64, Option::None)
            },
            Option::None => (motion_spec(s, sel_id_of(sel1), phase, inp), nid, sel1),
        },
    }
}

/// The merge this tick would perform, if any, keeps both stat sums within
/// the signed 8-bit range — forced by the stat width, not a game rule.
pub open spec fn merge_would_fit(s: Seq<PlacedOrb>, inp: PointerInput, phase: Phase) -> bool {
    match merge_fires(s, inp, phase) {
        Option::Some((near, cand)) => merge_fits(s[near].orb, s[cand].orb),
        Option::None => true,
    }
}

/// Once an identity scan has found its first match, scanning further
/// never changes the result.
proof fn lemma_find_id_persists(s: Seq<PlacedOrb>, id: u64, m: int, m2: int)
    requires
        m <= m2,
        find_id_upto(s, id, m) is Some,
    ensures
        find_id_upto(s, id, m2) == find_id_upto(s, id, m),
    decreases m2 - m,
{
    if m2 > m {
        lemma_find_id_persists(s, id, m, m2 - 1);
    }
}

/// Once the merge-partner scan has found its first match, scanning
/// further never changes the result.
proof fn lemma_merge_candidate_persists(
    s: Seq<PlacedOrb>,
    near: int,
    px: int,
    py: int,
    m: int,
    m2: int,
)
    requires
        m <= m2,
        merge_candidate_upto(s, near, px, py, m) is Some,
    ensures
        merge_candidate_upto(s, near, px, py, m2) == merge_candidate_upto(s, near, px, py, m),
    decreases m2 - m,
{
    if m2 > m {
        lemma_merge_candidate_persists(s, near, px, py, m, m2 - 1);
    }
}

/// Find the player orb nearest the pointer, the earlier index on ties.
pub fn find_nearest_player(orbs: &Vec<PlacedOrb>, px: i64, py: i64) -> (r: Option<usize>)
    requires
        positions_within(orbs@, POS_LIMIT as int),
        -POS_LIMIT <= px <= POS_LIMIT,
        -POS_LIMIT <= py <= POS_LIMIT,
    ensures
        match r {
            Option::Some(i) => i < orbs@.len() && nearest_player(orbs@, px as int, py as int)
                == Option::Some(i as int),
            Option::None => nearest_player(orbs@, px as int, py as int) is None,
        },
{
    let mut best: Option<usize> = Option::None;
    let mut i: usize = 0;
    let n = orbs.len();
    while i < n
        invariant
            n == orbs@.len(),
            i <= n,
            positions_within(orbs@, POS_LIMIT as int),
            -POS_LIMIT <= px <= POS_LIMIT,
            -POS_LIMIT <= py <= POS_LIMIT,
            match best {
                Option::Some(b) => b < i && nearest_upto(orbs@, px as int, py as int, i as int)
                    == Option::Some(b as int),
                Option::None => nearest_upto(orbs@, px as int, py as int, i as int) is None,
            },
        decreases n - i,
    {
        if orbs[i].side == Side::Player {
            best = match best {
                Option::Some(b) => {
                    let di = dist_sq_between(orbs[i].x, orbs[i].y, px, py);
                    let db = dist_sq_between(orbs[b].x, orbs[b].y, px, py);
                    if di < db {
                        Option::Some(i)
                    } else {
                        Option::Some(b)
                    }
                },
                Option::None => Option::Some(i),
            };
        }
        i = i + 1;
    }
    best
}

/// Find the first placed orb with the given identity.
pub fn find_orb_by_id(orbs: &Vec<PlacedOrb>, id: u64) -> (r: Option<usize>)
    ensures
        match r {
            Option::Some(i) => i < orbs@.len() && find_id(orbs@, id) == Option::Some(i as int),
            Option::None => find_id(orbs@, id) is None,
        },
{
    let mut i: usize = 0;
    let n = orbs.len();
    while i < n
        invariant
            n == orbs@.len(),
            i <= n,
            find_id_upto(orbs@, id, i as int) is None,
        decreases n - i,
    {
        if orbs[i].id == id {
            proof {
                lemma_find_id_persists(orbs@, id, i + 1, orbs@.len() as int);
            }
            return Option::Some(i);
        }
        i = i + 1;
    }
    Option::None
}

/// Find the merge partner of the nearest candidate: the first other
/// player orb strictly inside the selection radius of the pointer.
pub fn find_merge_candidate(orbs: &Vec<PlacedOrb>, near: usize, px: i64, py: i64) -> (r: Option<
    usize,
>)
    requires
        positions_within(orbs@, POS_LIMIT as int),
        -POS_LIMIT <= px <= POS_LIMIT,
        -POS_LIMIT <= py <= POS_LIMIT,
    ensures
        match r {
            Option::Some(i) => i < orbs@.len() && merge_candidate(
                orbs@,
                near as int,
                px as int,
                py as int,
            ) == Option::Some(i as int),
            Option::None => merge_candidate(orbs@, near as int, px as int, py as int) is None,
        },
{
    let mut i: usize = 0;
    let n = orbs.len();
    while i < n
        invariant
            n == orbs@.len(),
            i <= n,
            positions_within(orbs@, POS_LIMIT as int),
            -POS_LIMIT <= px <= POS_LIMIT,
            -POS_LIMIT <= py <= POS_LIMIT,
            merge_candidate_upto(orbs@, near as int, px as int, py as int, i as int) is None,
        decreases n - i,
    {
        if orbs[i].side == Side::Player && i != near {
            let d = dist_sq_between(orbs[i].x, orbs[i].y, px, py);
            if d < SELECT_RADIUS_SQ {
                proof {
                    lemma_merge_candidate_persists(
                        orbs@,
                        near as int,
                        px as int,
                        py as int,
                        i + 1,
                        orbs@.len() as int,
                    );
                }
                return Option::Some(i);
            }
        }
        i = i + 1;
    }
    Option::None
}

/// Despawning an orb keeps bounds, identities and uniqueness intact.
proof fn lemma_remove_keeps(s: Seq<PlacedOrb>, i: int, limit: int, plimit: int, nid: u64)
    requires
        0 <= i < s.len(),
        positions_within(s, limit),
        presentation_within(s, plimit),
        arena_inv(s, nid),
    ensures
        positions_within(s.remove(i), limit),
        presentation_within(s.remove(i), plimit),
        arena_inv(s.remove(i), nid),
{
    let r = s.remove(i);
    assert forall|k: int| 0 <= k < r.len() implies r[k] == (if k < i {
        s[k]
    } else {
        s[k + 1]
    }) by {}
    assert forall|a: int, b: int| 0 <= a < b < r.len() implies r[a].id != r[b].id by {
        let a2 = if a < i {
            a
        } else {
            a + 1
        };
        let b2 = if b < i {
            b
        } else {
            b + 1
        };
        assert(r[a] == s[a2] && r[b] == s[b2] && a2 < b2);
    }
}

/// The merge partner is a placed player orb other than the nearest.
proof fn lemma_merge_candidate_props(s: Seq<PlacedOrb>, near: int, px: int, py: int, upto: int)
    ensures
        match merge_candidate_upto(s, near, px, py, upto) {
            Option::Some(i) => 0 <= i < upto && i != near && (upto <= s.len()
                ==> s[i].side is Player),
            Option::None => true,
        },
    decreases upto,
{
    if upto > 0 {
        lemma_merge_candidate_props(s, near, px, py, upto - 1);
    }
}

/// One tint pass over the arena.
fn tint_all(arena: &mut Arena, sel_id: Option<u64>, prep: bool)
    requires
        presentation_within(old(arena).orbs@, POS_LIMIT as int),
    ensures
        final(arena).orbs@ == tint_pass(old(arena).orbs@, sel_id, prep),
        final(arena).next_id == old(arena).next_id,
        presentation_within(final(arena).orbs@, POS_LIMIT as int),
{
    let ghost s0 = arena.orbs@;
    let n = arena.orbs.len();
    let mut i: usize = 0;
    while i < n
        invariant
            n == arena.orbs@.len(),
            n == s0.len(),
            i <= n,
            arena.next_id == old(arena).next_id,
            presentation_within(s0, POS_LIMIT as int),
            forall|k: int| 0 <= k < i ==> arena.orbs@[k] == tint_pass(s0, sel_id, prep)[k],
            forall|k: int| i <= k < n ==> arena.orbs@[k] == s0[k],
            presentation_within(arena.orbs@, POS_LIMIT as int),
        decreases n - i,
    {
        let ghost pre = arena.orbs@;
        if arena.orbs[i].side == Side::Player {
            let chosen = prep && match sel_id {
                Option::Some(id) => arena.orbs[i].id == id,
                Option::None => false,
            };
            let h = arena.orbs[i].highlight;
            if chosen {
                arena.orbs[i].highlight = ease_toward(h, HIGHLIGHT_MAX, TINT_DIV);
                arena.orbs[i].raised = true;
            } else {
                arena.orbs[i].highlight = ease_toward(h, 0, TINT_DIV);
                arena.orbs[i].raised = false;
            }
        }
        assert(arena.orbs@[i as int] == tint_pass(s0, sel_id, prep)[i as int]);
        assert forall|k: int|
            0 <= k < arena.orbs@.len() implies -POS_LIMIT <= #[trigger] arena.orbs@[k].highlight
            <= POS_LIMIT && -POS_LIMIT <= arena.orbs@[k].outline <= POS_LIMIT by {
            if k != i as int {
                assert(arena.orbs@[k] == pre[k]);
            }
        }
        i = i + 1;
    }
    assert(arena.orbs@ =~= tint_pass(s0, sel_id, prep));
}

/// The combine-readiness outline pass during a drag.
fn drag_feedback(arena: &mut Arena, sid: u64, px: i64, py: i64)
    requires
        presentation_within(old(arena).orbs@, POS_LIMIT as int),
        positions_within(old(arena).orbs@, 4 * POS_LIMIT as int),
        -POS_LIMIT <= px <= POS_LIMIT,
        -POS_LIMIT <= py <= POS_LIMIT,
    ensures
        final(arena).orbs@ == old(arena).orbs@.map(
            |i: int, o: PlacedOrb|
                outlined(
                    o,
                    sid,
                    px as int,
                    py as int,
                    any_combine_ready(old(arena).orbs@, sid, px as int, py as int),
                ),
        ),
        final(arena).next_id == old(arena).next_id,
        presentation_within(final(arena).orbs@, POS_LIMIT as int),
{
    let ghost s0 = arena.orbs@;
    let n = arena.orbs.len();
    let mut any: bool = false;
    let mut i: usize = 0;
    while i < n
        invariant
            n == arena.orbs@.len(),
            i <= n,
            arena.orbs@ == s0,
            positions_within(s0, 4 * POS_LIMIT as int),
            -POS_LIMIT <= px <= POS_LIMIT,
            -POS_LIMIT <= py <= POS_LIMIT,
            any == exists|k: int|
                0 <= k < i && (#[trigger] s0[k]).side is Player && s0[k].id != sid && dist_sq(
                    s0[k].x as int,
                    s0[k].y as int,
                    px as int,
                    py as int,
                ) <= SELECT_RADIUS_SQ,
        decreases n - i,
    {
        if arena.orbs[i].side == Side::Player && arena.orbs[i].id != sid {
            let d = dist_sq_between(arena.orbs[i].x, arena.orbs[i].y, px, py);
            if d <= SELECT_RADIUS_SQ {
                any = true;
            }
        }
        i = i + 1;
    }
    assert(any == any_combine_ready(s0, sid, px as int, py as int));
    let ghost anyg = any;
    let mut j: usize = 0;
    while j < n
        invariant
            n == arena.orbs@.len(),
            n == s0.len(),
            j <= n,
            any == anyg,
            arena.next_id == old(arena).next_id,
            presentation_within(s0, POS_LIMIT as int),
            positions_within(s0, 4 * POS_LIMIT as int),
            -POS_LIMIT <= px <= POS_LIMIT,
            -POS_LIMIT <= py <= POS_LIMIT,
            forall|k: int|
                0 <= k < j ==> arena.orbs@[k] == outlined(s0[k], sid, px as int, py as int, anyg),
            forall|k: int| j <= k < n ==> arena.orbs@[k] == s0[k],
            presentation_within(arena.orbs@, POS_LIMIT as int),
        decreases n - j,
    {
        let ghost pre = arena.orbs@;
        if arena.orbs[j].side == Side::Player {
            let w = arena.orbs[j].outline;
            if arena.orbs[j].id != sid {
                let d = dist_sq_between(arena.orbs[j].x, arena.orbs[j].y, px, py);
                if d <= SELECT_RADIUS_SQ {
                    arena.orbs[j].outline = ease_toward(w, OUTLINE_MAX, WIDTH_DIV);
                } else {
                    arena.orbs[j].outline = ease_toward(w, OUTLINE_BASE, WIDTH_DIV);
                }
            } else if any {
                arena.orbs[j].outline = ease_toward(w, OUTLINE_MAX, WIDTH_DIV);
            } else {
                arena.orbs[j].outline = ease_toward(w, OUTLINE_BASE, WIDTH_DIV);
            }
        }
        assert(arena.orbs@[j as int] == outlined(s0[j as int], sid, px as int, py as int, anyg));
        assert forall|k: int|
            0 <= k < arena.orbs@.len() implies -POS_LIMIT <= #[trigger] arena.orbs@[k].highlight
            <= POS_LIMIT && -POS_LIMIT <= arena.orbs@[k].outline <= POS_LIMIT by {
            if k != j as int {
                assert(arena.orbs@[k] == pre[k]);
            }
        }
        j = j + 1;
    }
    assert(arena.orbs@ =~= s0.map(
        |i: int, o: PlacedOrb| outlined(o, sid, px as int, py as int, anyg),
    ));
}

/// Relax every player orb's outline toward the base width.
fn relax_all(arena: &mut Arena)
    requires
        presentation_within(old(arena).orbs@, POS_LIMIT as int),
    ensures
        final(arena).orbs@ == old(arena).orbs@.map(|i: int, o: PlacedOrb| relaxed(o)),
        final(arena).next_id == old(arena).next_id,
        presentation_within(final(arena).orbs@, POS_LIMIT as int),
{
    let ghost s0 = arena.orbs@;
    let n = arena.orbs.len();
    let mut i: usize = 0;
    while i < n
        invariant
            n == arena.orbs@.len(),
            n == s0.len(),
            i <= n,
            arena.next_id == old(arena).next_id,
            presentation_within(s0, POS_LIMIT as int),
            forall|k: int| 0 <= k < i ==> arena.orbs@[k] == relaxed(s0[k]),
            forall|k: int| i <= k < n ==> arena.orbs@[k] == s0[k],
            presentation_within(arena.orbs@, POS_LIMIT as int),
        decreases n - i,
    {
        let ghost pre = arena.orbs@;
        if arena.orbs[i].side == Side::Player {
            let w = arena.orbs[i].outline;
            arena.orbs[i].outline = ease_toward(w, OUTLINE_BASE, WIDTH_DIV);
        }
        assert(arena.orbs@[i as int] == relaxed(s0[i as int]));
        assert forall|k: int|
            0 <= k < arena.orbs@.len() implies -POS_LIMIT <= #[trigger] arena.orbs@[k].highlight
            <= POS_LIMIT && -POS_LIMIT <= arena.orbs@[k].outline <= POS_LIMIT by {
            if k != i as int {
                assert(arena.orbs@[k] == pre[k]);
            }
        }
        i = i + 1;
    }
    assert(arena.orbs@ =~= s0.map(|i: int, o: PlacedOrb| relaxed(o)));
}

/// Fuse the orbs at `ni` (the nearest candidate) and `k`: despawn both,
/// spawn the merged orb at the pointer, clear the selection.
fn do_merge(ctx: &mut Context, arena: &mut Arena, inp: &PointerInput, ni: usize, k: usize)
    requires
        input_ok(*inp),
        positions_within(old(arena).orbs@, POS_LIMIT as int),
        presentation_within(old(arena).orbs@, POS_LIMIT as int),
        arena_inv(old(arena).orbs@, old(arena).next_id),
        old(arena).next_id <= u64::MAX - 2,
        ni < old(arena).orbs@.len(),
        k < old(arena).orbs@.len(),
        ni != k,
        merge_fits(old(arena).orbs@[ni as int].orb, old(arena).orbs@[k as int].orb),
    ensures
        final(arena).orbs@ == merge_result(
            old(arena).orbs@,
            ni as int,
            k as int,
            old(arena).next_id,
            inp.x,
            inp.y,
        ),
        final(arena).next_id == old(arena).next_id + 1,
        final(ctx).selection is None,
        final(ctx).phase == old(ctx).phase,
        final(ctx).step == old(ctx).step,
        final(ctx).level == old(ctx).level,
        final(ctx).pending == old(ctx).pending,
        arena_inv(final(arena).orbs@, final(arena).next_id),
        positions_within(final(arena).orbs@, POS_LIMIT as int),
        presentation_within(final(arena).orbs@, POS_LIMIT as int),
{
    let ghost s0 = arena.orbs@;
    let ghost nid0 = arena.next_id;
    let (near_orb, other_orb): (PlacedOrb, PlacedOrb) = if ni > k {
        let a = arena.orbs.remove(ni);
        proof {
            lemma_remove_keeps(s0, ni as int, POS_LIMIT as int, POS_LIMIT as int, nid0);
        }
        let b = arena.orbs.remove(k);
        proof {
            lemma_remove_keeps(
                s0.remove(ni as int),
                k as int,
                POS_LIMIT as int,
                POS_LIMIT as int,
                nid0,
            );
        }
        (a, b)
    } else {
        let b = arena.orbs.remove(k);
        proof {
            lemma_remove_keeps(s0, k as int, POS_LIMIT as int, POS_LIMIT as int, nid0);
        }
        let a = arena.orbs.remove(ni);
        proof {
            lemma_remove_keeps(
                s0.remove(k as int),
                ni as int,
                POS_LIMIT as int,
                POS_LIMIT as int,
                nid0,
            );
        }
        (a, b)
    };
    assert(arena.orbs@ == remove_two(s0, ni as int, k as int));
    let fused = merge_orbs(near_orb.orb, other_orb.orb);
    arena.orbs.push(PlacedOrb::new(arena.next_id, Side::Player, inp.x, inp.y, fused));
    arena.next_id = arena.next_id + 1;
    ctx.selection = Option::None;
    assert(arena.orbs@ == merge_result(s0, ni as int, k as int, nid0, inp.x, inp.y));
    proof {
        let r = arena.orbs@;
        assert forall|a: int, b: int| 0 <= a < b < r.len() implies r[a].id != r[b].id by {
            if b == r.len() - 1 {
                assert(r[a] == remove_two(s0, ni as int, k as int)[a]);
            }
        }
    }
}

/// Split the merged orb at `k` back into its two recorded constituents,
/// spawned near the original position; clear the selection.
fn do_split(ctx: &mut Context, arena: &mut Arena, k: usize)
    requires
        positions_within(old(arena).orbs@, POS_LIMIT as int),
        presentation_within(old(arena).orbs@, POS_LIMIT as int),
        arena_inv(old(arena).orbs@, old(arena).next_id),
        old(arena).next_id <= u64::MAX - 2,
        k < old(arena).orbs@.len(),
        old(arena).orbs@[k as int].orb.lineage is Pair,
    ensures
        final(arena).orbs@ == split_result(old(arena).orbs@, k as int, old(arena).next_id),
        final(arena).next_id == old(arena).next_id + 2,
        final(ctx).selection is None,
        final(ctx).phase == old(ctx).phase,
        final(ctx).step == old(ctx).step,
        final(ctx).level == old(ctx).level,
        final(ctx).pending == old(ctx).pending,
        arena_inv(final(arena).orbs@, final(arena).next_id),
        positions_within(final(arena).orbs@, 2 * POS_LIMIT as int),
        presentation_within(final(arena).orbs@, POS_LIMIT as int),
{
    let ghost s0 = arena.orbs@;
    let ghost nid0 = arena.next_id;
    let po = arena.orbs.remove(k);
    proof {
        lemma_remove_keeps(s0, k as int, POS_LIMIT as int, POS_LIMIT as int, nid0);
    }
    match po.orb.lineage {
        Lineage::Pair(a, b) => {
            arena.orbs.push(PlacedOrb::new(arena.next_id, Side::Player, po.x, po.y, *a));
            arena.orbs.push(
                PlacedOrb::new(
                    arena.next_id + 1,
                    Side::Player,
                    po.x + SPLIT_OFFSET,
                    po.y + SPLIT_OFFSET,
                    *b,
                ),
            );
            arena.next_id = arena.next_id + 2;
            ctx.selection = Option::None;
            assert(arena.orbs@ == split_result(s0, k as int, nid0));
            proof {
                let r = arena.orbs@;
                assert forall|x: int, y: int| 0 <= x < y < r.len() implies r[x].id != r[y].id by {
                    if y >= r.len() - 2 && x < r.len() - 2 {
                        assert(r[x] == s0.remove(k as int)[x]);
                    }
                }
            }
        },
        Lineage::Empty => {
            proof {
                assert(false);
            }
        },
    }
}

/// Drag-follow step: move the orb carrying the selected identity, if it
/// is still placed, a tenth of the way toward the pointer plus the raw
/// pointer motion (inverted vertically).
fn do_follow(arena: &mut Arena, sid: u64, inp: &PointerInput)
    requires
        input_ok(*inp),
        positions_within(old(arena).orbs@, POS_LIMIT as int),
        presentation_within(old(arena).orbs@, POS_LIMIT as int),
    ensures
        final(arena).orbs@ == (match find_id(old(arena).orbs@, sid) {
            Option::Some(k) => follow_moved(old(arena).orbs@, k, *inp),
            Option::None => old(arena).orbs@,
        }),
        final(arena).next_id == old(arena).next_id,
        positions_within(final(arena).orbs@, 4 * POS_LIMIT as int),
        presentation_within(final(arena).orbs@, POS_LIMIT as int),
        final(arena).orbs@.len() == old(arena).orbs@.len(),
        forall|m: int|
            0 <= m < old(arena).orbs@.len() ==> (#[trigger] final(arena).orbs@[m]).id
                == old(arena).orbs@[m].id,
{
    let ghost s0 = arena.orbs@;
    proof {
        crate::state::lemma_positions_within_mono(s0, POS_LIMIT as int, 4 * POS_LIMIT as int);
    }
    if let Option::Some(k) = find_orb_by_id(&arena.orbs, sid) {
        let x = arena.orbs[k].x;
        let y = arena.orbs[k].y;
        assert(-POS_LIMIT <= x <= POS_LIMIT && -POS_LIMIT <= y <= POS_LIMIT);
        let nx = ease_toward(x, inp.x, FOLLOW_DIV) + inp.dx;
        let ny = ease_toward(y, inp.y, FOLLOW_DIV) - inp.dy;
        assert(-2 * POS_LIMIT <= nx <= 2 * POS_LIMIT && -2 * POS_LIMIT <= ny <= 2 * POS_LIMIT);
        arena.orbs[k].x = nx;
        arena.orbs[k].y = ny;
        assert(arena.orbs@ =~= follow_moved(s0, k as int, *inp));
        assert forall|m: int|
            0 <= m < arena.orbs@.len() implies -4 * POS_LIMIT <= #[trigger] arena.orbs@[m].x
            <= 4 * POS_LIMIT && -4 * POS_LIMIT <= arena.orbs@[m].y <= 4 * POS_LIMIT
            && -POS_LIMIT <= arena.orbs@[m].highlight <= POS_LIMIT && -POS_LIMIT
            <= arena.orbs@[m].outline <= POS_LIMIT && arena.orbs@[m].id == s0[m].id by {
            if m != k as int {
                assert(arena.orbs@[m] == s0[m]);
            } else {
                assert(arena.orbs@[m].highlight == s0[m].highlight && arena.orbs@[m].outline
                    == s0[m].outline && arena.orbs@[m].id == s0[m].id);
            }
        }
        assert(positions_within(arena.orbs@, 4 * POS_LIMIT as int));
        assert(presentation_within(arena.orbs@, POS_LIMIT as int));
    }
}

/// The steady part of a preparation tick, over the arena: exactly
/// `motion_spec` of the current state.
#[verifier::rlimit(100)]
fn do_motion(arena: &mut Arena, sid_opt: Option<u64>, phase: Phase, inp: &PointerInput)
    requires
        input_ok(*inp),
        positions_within(old(arena).orbs@, POS_LIMIT as int),
        presentation_within(old(arena).orbs@, POS_LIMIT as int),
        old(arena).orbs@.len() <= ARENA_CAP,
        arena_inv(old(arena).orbs@, old(arena).next_id),
    ensures
        final(arena).orbs@ == motion_spec(old(arena).orbs@, sid_opt, phase, *inp),
        final(arena).next_id == old(arena).next_id,
        arena_inv(final(arena).orbs@, final(arena).next_id),
        positions_within(final(arena).orbs@, 5 * POS_LIMIT as int),
        presentation_within(final(arena).orbs@, POS_LIMIT as int),
{
    let ghost s0 = arena.orbs@;
    proof {
        crate::state::lemma_positions_within_mono(s0, POS_LIMIT as int, 4 * POS_LIMIT as int);
    }
    let dragging = inp.held && phase == Phase::Prep && sid_opt.is_some();
    if dragging {
        if let Option::Some(sid) = sid_opt {
            do_follow(arena, sid, inp);
        }
    }
    let ghost s1 = arena.orbs@;
    assert(positions_within(s1, 4 * POS_LIMIT as int));

    tint_all(arena, sid_opt, phase == Phase::Prep);
    let ghost s2 = arena.orbs@;
    assert(s2 == tint_pass(s1, sid_opt, phase is Prep));
    proof {
        assert forall|m: int|
            0 <= m < s2.len() implies -4 * POS_LIMIT <= #[trigger] s2[m].x <= 4 * POS_LIMIT && -4
            * POS_LIMIT <= s2[m].y <= 4 * POS_LIMIT by {
            assert(s2[m] == tint_pass(s1, sid_opt, phase is Prep)[m]);
        }
        assert(positions_within(s2, 4 * POS_LIMIT as int));
    }

    if dragging {
        if let Option::Some(sid) = sid_opt {
            drag_feedback(arena, sid, inp.x, inp.y);
        }
    } else if phase == Phase::Combat {
        relax_all(arena);
    }
    let ghost s3 = arena.orbs@;
    assert(s3 == feedback_pass(s2, sid_opt, phase, *inp));
    proof {
        assert forall|m: int|
            0 <= m < s3.len() implies -4 * POS_LIMIT <= #[trigger] s3[m].x <= 4 * POS_LIMIT && -4
            * POS_LIMIT <= s3[m].y <= 4 * POS_LIMIT by {
            if s3 != s2 {
                assert(s3[m].x == s2[m].x && s3[m].y == s2[m].y);
            }
        }
        assert(positions_within(s3, 4 * POS_LIMIT as int));
    }

    let skip: Option<u64> = if dragging {
        sid_opt
    } else {
        Option::None
    };
    repel_pass(arena, skip);
    proof {
        lemma_sweep_frame(s3, 0, 1, skip);
        let r = arena.orbs@;
        assert forall|m: int|
            0 <= m < r.len() implies -POS_LIMIT <= #[trigger] r[m].highlight <= POS_LIMIT
            && -POS_LIMIT <= r[m].outline <= POS_LIMIT && r[m].id == s0[m].id by {
            assert(r[m].highlight == s3[m].highlight && r[m].outline == s3[m].outline && r[m].id
                == s3[m].id);
            assert(s3[m].id == s2[m].id && s2[m].id == s1[m].id && s1[m].id == s0[m].id);
        }
    }
}

/// One preparation-controller tick: exactly the `update_spec` transition
/// of the current state. The phase, combat step, level counter and any
/// pending request are never touched; the arena stays well formed and
/// within bounds.
#[verifier::rlimit(100)]
pub fn update(ctx: &mut Context, arena: &mut Arena, inp: &PointerInput)
    requires
        input_ok(*inp),
        positions_within(old(arena).orbs@, POS_LIMIT as int),
        presentation_within(old(arena).orbs@, POS_LIMIT as int),
        old(arena).orbs@.len() <= ARENA_CAP,
        old(arena).next_id <= u64::MAX - 2,
        arena_inv(old(arena).orbs@, old(arena).next_id),
        merge_would_fit(old(arena).orbs@, *inp, old(ctx).phase),
    ensures
        (final(arena).orbs@, final(arena).next_id, final(ctx).selection) == update_spec(
            old(arena).orbs@,
            old(arena).next_id,
            old(ctx).selection,
            old(ctx).phase,
            *inp,
        ),
        final(ctx).phase == old(ctx).phase,
        final(ctx).step == old(ctx).step,
        final(ctx).level == old(ctx).level,
        final(ctx).pending == old(ctx).pending,
        arena_inv(final(arena).orbs@, final(arena).next_id),
        positions_within(final(arena).orbs@, 5 * POS_LIMIT as int),
        presentation_within(final(arena).orbs@, POS_LIMIT as int),
{
    let ghost s0 = arena.orbs@;
    let ghost nid0 = arena.next_id;
    let near = find_nearest_player(&arena.orbs, inp.x, inp.y);

    // Selection update: only while idle in preparation.
    if !inp.held && ctx.phase == Phase::Prep {
        if let Option::Some(ni) = near {
            let d = dist_sq_between(arena.orbs[ni].x, arena.orbs[ni].y, inp.x, inp.y);
            if d < SELECT_RADIUS_SQ {
                ctx.selection = Option::Some(
                    Selection {
                        id: arena.orbs[ni].id,
                        snapshot: arena.orbs[ni].orb.clone(),
                        dist_sq: d,
                    },
                );
            } else {
                ctx.selection = Option::None;
            }
        }
    }
    let ghost sel1 = ctx.selection;
    assert(sel1 == selection_update(s0, old(ctx).selection, *inp, old(ctx).phase));

    // Merge: on release, the first other player orb under the pointer
    // fuses with the nearest candidate; the rest of the tick is skipped.
    if inp.released && ctx.phase == Phase::Prep {
        if let Option::Some(ni) = near {
            if let Option::Some(k) = find_merge_candidate(&arena.orbs, ni, inp.x, inp.y) {
                proof {
                    lemma_merge_candidate_props(
                        s0,
                        ni as int,
                        inp.x as int,
                        inp.y as int,
                        s0.len() as int,
                    );
                    assert(merge_fires(s0, *inp, old(ctx).phase) == Option::Some(
                        (ni as int, k as int),
                    ));
                }
                do_merge(ctx, arena, inp, ni, k);
                proof {
                    crate::state::lemma_positions_within_mono(
                        arena.orbs@,
                        POS_LIMIT as int,
                        5 * POS_LIMIT as int,
                    );
                }
                return ;
            }
        }
    }
    assert(merge_fires(s0, *inp, old(ctx).phase) is None);

    // Split: on the secondary action, a selected merged orb is replaced by
    // its two recorded constituents; with no lineage the tick ends as a
    // no-op.
    if inp.split && ctx.phase == Phase::Prep {
        let sid_opt: Option<u64> = match &ctx.selection {
            Option::Some(sl) => Option::Some(sl.id),
            Option::None => Option::None,
        };
        if let Option::Some(sid) = sid_opt {
            if let Option::Some(k) = find_orb_by_id(&arena.orbs, sid) {
                if arena.orbs[k].side == Side::Player {
                    assert(split_target(s0, sel1, *inp, old(ctx).phase) == Option::Some(k as int));
                    if arena.orbs[k].orb.has_lineage() {
                        do_split(ctx, arena, k);
                        proof {
                            crate::state::lemma_positions_within_mono(
                                arena.orbs@,
                                2 * POS_LIMIT as int,
                                5 * POS_LIMIT as int,
                            );
                        }
                        return ;
                    } else {
                        proof {
                            crate::state::lemma_positions_within_mono(
                                arena.orbs@,
                                POS_LIMIT as int,
                                5 * POS_LIMIT as int,
                            );
                        }
                        return ;
                    }
                }
            }
        }
    }
    assert(split_target(s0, sel1, *inp, old(ctx).phase) is None || (split_target(
        s0,
        sel1,
        *inp,
        old(ctx).phase,
    ) matches Option::Some(k) && s0[k].orb.lineage is Empty));

    // Steady part of the tick: drag-follow, tints, feedback, repulsion.
    let sid_opt: Option<u64> = match &ctx.selection {
        Option::Some(sl) => Option::Some(sl.id),
        Option::None => Option::None,
    };
    assert(sid_opt == sel_id_of(sel1));
    do_motion(arena, sid_opt, ctx.phase, inp);
}

/// Round-trip law of the merge/split engine: fusing the orbs at `near`
/// and `cand` yields an orb carrying the summed health and summed damage,
/// and splitting that merged orb restores exactly the two original orb
/// values as two independent player orbs — at offset positions near the
/// pointer, not at the original positions.
pub proof fn lemma_merge_split_round_trip_arena(
    s: Seq<PlacedOrb>,
    near: int,
    cand: int,
    nid: u64,
    nid2: u64,
    px: i64,
    py: i64,
)
    requires
        0 <= near < s.len(),
        0 <= cand < s.len(),
        near != cand,
        merge_fits(s[near].orb, s[cand].orb),
        -POS_LIMIT <= px <= POS_LIMIT,
        -POS_LIMIT <= py <= POS_LIMIT,
        nid2 < u64::MAX,
    ensures
        merge_result(s, near, cand, nid, px, py).len() == s.len() - 1,
        merge_result(s, near, cand, nid, px, py)[s.len() - 2].orb.health == s[near].orb.health
            + s[cand].orb.health,
        merge_result(s, near, cand, nid, px, py)[s.len() - 2].orb.damage == s[near].orb.damage
            + s[cand].orb.damage,
        split_result(merge_result(s, near, cand, nid, px, py), s.len() - 2, nid2).len()
            == s.len(),
        split_result(merge_result(s, near, cand, nid, px, py), s.len() - 2, nid2)[s.len()
            - 2].orb == s[near].orb,
        split_result(merge_result(s, near, cand, nid, px, py), s.len() - 2, nid2)[s.len()
            - 1].orb == s[cand].orb,
        split_result(merge_result(s, near, cand, nid, px, py), s.len() - 2, nid2)[s.len()
            - 2].x == px,
        split_result(merge_result(s, near, cand, nid, px, py), s.len() - 2, nid2)[s.len()
            - 2].y == py,
        split_result(merge_result(s, near, cand, nid, px, py), s.len() - 2, nid2)[s.len()
            - 1].x == px + SPLIT_OFFSET,
        split_result(merge_result(s, near, cand, nid, px, py), s.len() - 2, nid2)[s.len()
            - 1].y == py + SPLIT_OFFSET,
{
    let s1 = merge_result(s, near, cand, nid, px, py);
    let m = s.len() - 2;
    assert(s1[m].orb == merged_orb(s[near].orb, s[cand].orb));
    crate::orb::lemma_merge_split_round_trip(s[near].orb, s[cand].orb);
    assert(lineage_first(s1[m].orb) == s[near].orb);
    assert(lineage_second(s1[m].orb) == s[cand].orb);
}

/// Splitting an orb with no lineage is a no-op: the arena — its orb
/// count and every value in it — and the spawn counter are unchanged,
/// and the freshly updated selection is kept.
pub proof fn lemma_split_without_lineage_is_noop(
    s: Seq<PlacedOrb>,
    nid: u64,
    sel: Option<Selection>,
    phase: Phase,
    inp: PointerInput,
)
    requires
        !inp.released,
        inp.split,
        phase is Prep,
        split_target(s, selection_update(s, sel, inp, phase), inp, phase) matches Option::Some(
            k,
        ) && s[k].orb.lineage is Empty,
    ensures
        update_spec(s, nid, sel, phase, inp).0 == s,
        update_spec(s, nid, sel, phase, inp).1 == nid,
        update_spec(s, nid, sel, phase, inp).2 == selection_update(s, sel, inp, phase),
{
}

} // verus!
