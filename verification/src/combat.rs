//! Combat resolver: the LineUp / Attack / Next step machine that runs while
//! the phase is Combat. Player orbs ease into a queue, the two front orbs
//! approach fixed engagement marks, exchange damage simultaneously, and the
//! survivors requeue — until one side is emptied, which emits a
//! change-level request and returns the game to the preparation phase.

use vstd::prelude::*;

use crate::levels::{ENEMY_SPAWN_DX, ENEMY_SPAWN_X0, PLAYER_SPAWN_DX, PLAYER_SPAWN_X0};
use crate::orb::Orb;
use crate::state::{
    ease, ease_toward, positions_within, Arena, ChangeLevel, CombatStep, Context, Phase,
    PlacedOrb, Side, ARENA_CAP, POS_LIMIT,
};

verus! {

/// Horizontal line-up slot of the player orb with the given rank.
pub const LINEUP_X0: i64 = -150_000;

/// Spacing between line-up slots.
pub const LINEUP_DX: i64 = 120_000;

/// Vertical coordinate every lining-up orb eases toward.
pub const LINEUP_Y: i64 = 0;

/// Convergence tolerance of the line-up step (0.1 world units), strict.
pub const LINEUP_EPS: i64 = 100;

/// Easing divisor of the line-up and attack approaches: rate 0.2 per tick.
pub const EASE_DIV: i64 = 5;

/// Easing divisor of the requeue step: rate 0.1 per tick.
pub const NEXT_DIV: i64 = 10;

/// Engagement mark the front player orb approaches.
pub const ATTACK_X_PLAYER: i64 = -30_000;

/// Engagement mark the front enemy orb approaches.
pub const ATTACK_X_ENEMY: i64 = 50_000;

/// A front orb has reached its mark once its signed overshoot is at most
/// this (0.5 world units).
pub const ATTACK_EPS: i64 = 500;

/// Requeue tolerance of the Next step (2 world units), non-strict.
pub const QUEUE_EPS: i64 = 2_000;

/// How many orbs of `side` stand strictly before index `upto`: the stable
/// iteration rank that assigns queue slots and line-up slots.
pub open spec fn side_count(s: Seq<PlacedOrb>, side: Side, upto: int) -> int
    decreases upto,
{
    if upto <= 0 {
        0
    } else {
        side_count(s, side, upto - 1) + if s[upto - 1].side == side {
            1int
        } else {
            0int
        }
    }
}

/// Some orb of `side` is still placed.
pub open spec fn side_present(s: Seq<PlacedOrb>, side: Side) -> bool {
    exists|k: int| 0 <= k < s.len() && (#[trigger] s[k]).side == side
}

/// Line-up slot of the player orb with rank `rank`.
pub open spec fn lineup_slot_x(rank: int) -> int {
    LINEUP_X0 - LINEUP_DX * rank
}

/// Queue slot of the player orb with rank `rank` (the spawn column).
pub open spec fn player_queue_x(rank: int) -> int {
    PLAYER_SPAWN_X0 - PLAYER_SPAWN_DX * rank
}

/// Queue slot of the enemy orb with rank `rank` (the spawn column).
pub open spec fn enemy_queue_x(rank: int) -> int {
    ENEMY_SPAWN_X0 + ENEMY_SPAWN_DX * rank
}

/// One line-up tick: every player orb eases toward its slot on both axes;
/// enemy orbs do not move.
pub open spec fn lineup_moved(s: Seq<PlacedOrb>) -> Seq<PlacedOrb> {
    s.map(
        |i: int, o: PlacedOrb|
            if o.side is Player {
                PlacedOrb {
                    x: ease(o.x as int, lineup_slot_x(side_count(s, Side::Player, i)), 5) as i64,
                    y: ease(o.y as int, LINEUP_Y as int, 5) as i64,
                    ..o
                }
            } else {
                o
            },
    )
}

/// After this tick's easing, the player orb at index `i` sits within the
/// line-up tolerance of its slot on both axes simultaneously.
pub open spec fn lineup_in_slot(s: Seq<PlacedOrb>, i: int) -> bool {
    let slot = lineup_slot_x(side_count(s, Side::Player, i));
    let nx = ease(s[i].x as int, slot, 5);
    let ny = ease(s[i].y as int, LINEUP_Y as int, 5);
    -LINEUP_EPS < ny < LINEUP_EPS && -LINEUP_EPS < nx - slot < LINEUP_EPS
}

/// The line-up step completes only when every player orb is in tolerance.
pub open spec fn lineup_complete(s: Seq<PlacedOrb>) -> bool {
    forall|i: int| 0 <= i < s.len() && s[i].side is Player ==> #[trigger] lineup_in_slot(s, i)
}

/// The LineUp stage: ease all player orbs, and advance to Attack exactly
/// when all of them converged.
pub open spec fn lineup_stage(s: Seq<PlacedOrb>, step: CombatStep) -> (Seq<PlacedOrb>, CombatStep) {
    if step is LineUp {
        (
            lineup_moved(s),
            if lineup_complete(s) {
                CombatStep::Attack
            } else {
                CombatStep::LineUp
            },
        )
    } else {
        (s, step)
    }
}

/// Front player orb among the first `upto`: the one with the maximal
/// horizontal coordinate, the later index winning ties.
pub open spec fn player_front_upto(s: Seq<PlacedOrb>, upto: int) -> Option<int>
    decreases upto,
{
    if upto <= 0 {
        Option::None
    } else {
        let rest = player_front_upto(s, upto - 1);
        if s[upto - 1].side is Player {
            match rest {
                Option::None => Option::Some(upto - 1),
                Option::Some(m) => if s[upto - 1].x >= s[m].x {
                    Option::Some(upto - 1)
                } else {
                    Option::Some(m)
                },
            }
        } else {
            rest
        }
    }
}

/// The front player orb: maximal x, later index on ties.
pub open spec fn player_front(s: Seq<PlacedOrb>) -> Option<int> {
    player_front_upto(s, s.len() as int)
}

/// Front enemy orb among the first `upto`: the one with the minimal
/// horizontal coordinate, the earlier index winning ties.
pub open spec fn enemy_front_upto(s: Seq<PlacedOrb>, upto: int) -> Option<int>
    decreases upto,
{
    if upto <= 0 {
        Option::None
    } else {
        let rest = enemy_front_upto(s, upto - 1);
        if s[upto - 1].side is Enemy {
            match rest {
                Option::None => Option::Some(upto - 1),
                Option::Some(m) => if s[upto - 1].x < s[m].x {
                    Option::Some(upto - 1)
                } else {
                    Option::Some(m)
                },
            }
        } else {
            rest
        }
    }
}

/// The front enemy orb: minimal x, earlier index on ties.
pub open spec fn enemy_front(s: Seq<PlacedOrb>) -> Option<int> {
    enemy_front_upto(s, s.len() as int)
}

/// One attack tick of movement: each existing front orb eases toward its
/// engagement mark; a front has "reached" when its signed pre-move
/// overshoot is at most the tolerance.
pub open spec fn attack_move(s: Seq<PlacedOrb>) -> (Seq<PlacedOrb>, bool, bool) {
    let moved_p = match player_front(s) {
        Option::Some(pi) => s.update(
            pi,
            PlacedOrb { x: ease(s[pi].x as int, ATTACK_X_PLAYER as int, 5) as i64, ..s[pi] },
        ),
        Option::None => s,
    };
    let pr = match player_front(s) {
        Option::Some(pi) => s[pi].x - ATTACK_X_PLAYER <= ATTACK_EPS,
        Option::None => false,
    };
    let moved = match enemy_front(s) {
        Option::Some(ei) => moved_p.update(
            ei,
            PlacedOrb { x: ease(s[ei].x as int, ATTACK_X_ENEMY as int, 5) as i64, ..s[ei] },
        ),
        Option::None => moved_p,
    };
    let er = match enemy_front(s) {
        Option::Some(ei) => s[ei].x - ATTACK_X_ENEMY <= ATTACK_EPS,
        Option::None => false,
    };
    (moved, pr, er)
}

/// Resolve one duel between the orbs at `pi` and `ei`: each loses the
/// other's pre-duel damage from its health simultaneously, then whichever
/// of the two has non-positive health is despawned.
pub open spec fn duel_resolved(s: Seq<PlacedOrb>, pi: int, ei: int) -> Seq<PlacedOrb> {
    let pd = s[pi].orb.damage as int;
    let ed = s[ei].orb.damage as int;
    let ph = s[pi].orb.health - ed;
    let eh = s[ei].orb.health - pd;
    let su = s.update(
        pi,
        PlacedOrb {
            orb: Orb { health: ph as i8, damage: s[pi].orb.damage, lineage: s[pi].orb.lineage },
            ..s[pi]
        },
    ).update(
        ei,
        PlacedOrb {
            orb: Orb { health: eh as i8, damage: s[ei].orb.damage, lineage: s[ei].orb.lineage },
            ..s[ei]
        },
    );
    if ph <= 0 && eh <= 0 {
        if pi < ei {
            su.remove(ei).remove(pi)
        } else {
            su.remove(pi).remove(ei)
        }
    } else if ph <= 0 {
        su.remove(pi)
    } else if eh <= 0 {
        su.remove(ei)
    } else {
        su
    }
}

/// The Attack stage: move the fronts; when both reach their marks in the
/// same tick, resolve the duel and go to Next. Afterwards — duel or not —
/// if either side has no living orb left, emit a change-level request that
/// fails exactly when an enemy survives (a win takes precedence when both
/// sides are wiped simultaneously), reset the step and return to Prep.
pub open spec fn attack_stage(
    s: Seq<PlacedOrb>,
    step: CombatStep,
    phase: Phase,
    pending: Option<ChangeLevel>,
) -> (Seq<PlacedOrb>, CombatStep, Phase, Option<ChangeLevel>) {
    if step is Attack {
        let (moved, pr, er) = attack_move(s);
        let dueled = pr && er && player_front(s) is Some && enemy_front(s) is Some;
        let s2 = if dueled {
            duel_resolved(moved, player_front(s)->Some_0, enemy_front(s)->Some_0)
        } else {
            moved
        };
        let step2 = if dueled {
            CombatStep::Next
        } else {
            CombatStep::Attack
        };
        let ea = side_present(s2, Side::Enemy);
        let pa = side_present(s2, Side::Player);
        if !ea || !pa {
            (s2, CombatStep::LineUp, Phase::Prep, Option::Some(ChangeLevel { fail: ea }))
        } else {
            (s2, step2, phase, pending)
        }
    } else {
        (s, step, phase, pending)
    }
}

/// The Next stage: each side's current front orb eases toward its queue
/// slot; when every moved orb is within the requeue tolerance — vacuously,
/// when a side is empty — the machine returns to Attack.
pub open spec fn next_stage(s: Seq<PlacedOrb>, step: CombatStep) -> (Seq<PlacedOrb>, CombatStep) {
    if step is Next {
        let s1 = match player_front(s) {
            Option::Some(pi) => s.update(
                pi,
                PlacedOrb {
                    x: ease(
                        s[pi].x as int,
                        player_queue_x(side_count(s, Side::Player, pi)),
                        10,
                    ) as i64,
                    ..s[pi]
                },
            ),
            Option::None => s,
        };
        let pc = match player_front(s) {
            Option::Some(pi) => {
                let t = player_queue_x(side_count(s, Side::Player, pi));
                -QUEUE_EPS <= ease(s[pi].x as int, t, 10) - t <= QUEUE_EPS
            },
            Option::None => true,
        };
        let s2 = match enemy_front(s) {
            Option::Some(ei) => s1.update(
                ei,
                PlacedOrb {
                    x: ease(s[ei].x as int, enemy_queue_x(side_count(s, Side::Enemy, ei)), 10) as i64,
                    ..s[ei]
                },
            ),
            Option::None => s1,
        };
        let ec = match enemy_front(s) {
            Option::Some(ei) => {
                let t = enemy_queue_x(side_count(s, Side::Enemy, ei));
                -QUEUE_EPS <= ease(s[ei].x as int, t, 10) - t <= QUEUE_EPS
            },
            Option::None => true,
        };
        (
            s2,
            if pc && ec {
                CombatStep::Attack
            } else {
                CombatStep::Next
            },
        )
    } else {
        (s, step)
    }
}

/// One combat tick: nothing outside the combat phase; inside it, the
/// stages run in order and cascade — a line-up that converges attacks the
/// same tick, and a resolved duel begins requeueing the same tick.
pub open spec fn combat_transition(
    s: Seq<PlacedOrb>,
    step: CombatStep,
    phase: Phase,
    pending: Option<ChangeLevel>,
) -> (Seq<PlacedOrb>, CombatStep, Phase, Option<ChangeLevel>) {
    if phase is Combat {
        let (s1, step1) = lineup_stage(s, step);
        let (s2, step2, phase2, pending2) = attack_stage(s1, step1, phase, pending);
        let (s3, step3) = next_stage(s2, step2);
        (s3, step3, phase2, pending2)
    } else {
        (s, step, phase, pending)
    }
}

/// When both fronts stand at their marks, the two health subtractions of
/// the duel they are about to fight stay within the signed 8-bit stat
/// range — forced by the stat width, not a game rule.
pub open spec fn attack_duel_fits(s: Seq<PlacedOrb>) -> bool {
    match (player_front(s), enemy_front(s)) {
        (Option::Some(pi), Option::Some(ei)) => (s[pi].x - ATTACK_X_PLAYER <= ATTACK_EPS
            && s[ei].x - ATTACK_X_ENEMY <= ATTACK_EPS) ==> {
            &&& i8::MIN <= s[pi].orb.health - s[ei].orb.damage <= i8::MAX
            &&& i8::MIN <= s[ei].orb.health - s[pi].orb.damage <= i8::MAX
        },
        _ => true,
    }
}

/// A duel resolving this tick — after the line-up stage cascades into
/// Attack — fits the stat range.
pub open spec fn duel_fits(s: Seq<PlacedOrb>, step: CombatStep) -> bool {
    lineup_stage(s, step).1 is Attack ==> attack_duel_fits(lineup_stage(s, step).0)
}

/// A front player index is a player orb inside the sequence.
pub proof fn lemma_player_front_side(s: Seq<PlacedOrb>, upto: int)
    ensures
        match player_front_upto(s, upto) {
            Option::Some(i) => 0 <= i < upto && (upto <= s.len() ==> s[i].side is Player),
            Option::None => true,
        },
    decreases upto,
{
    if upto > 0 {
        lemma_player_front_side(s, upto - 1);
    }
}

/// A front enemy index is an enemy orb inside the sequence.
pub proof fn lemma_enemy_front_side(s: Seq<PlacedOrb>, upto: int)
    ensures
        match enemy_front_upto(s, upto) {
            Option::Some(i) => 0 <= i < upto && (upto <= s.len() ==> s[i].side is Enemy),
            Option::None => true,
        },
    decreases upto,
{
    if upto > 0 {
        lemma_enemy_front_side(s, upto - 1);
    }
}

/// Find the front player orb: maximal x, the later index winning ties.
pub fn find_player_front(orbs: &Vec<PlacedOrb>) -> (r: Option<usize>)
    ensures
        match r {
            Option::Some(i) => i < orbs@.len() && player_front(orbs@) == Option::Some(i as int),
            Option::None => player_front(orbs@) is None,
        },
{
    let mut best: Option<usize> = Option::None;
    let mut i: usize = 0;
    let n = orbs.len();
    while i < n
        invariant
            n == orbs@.len(),
            i <= n,
            match best {
                Option::Some(b) => b < i && player_front_upto(orbs@, i as int) == Option::Some(
                    b as int,
                ),
                Option::None => player_front_upto(orbs@, i as int) is None,
            },
        decreases n - i,
    {
        if orbs[i].side == Side::Player {
            best = match best {
                Option::Some(b) => if orbs[i].x >= orbs[b].x {
                    Option::Some(i)
                } else {
                    Option::Some(b)
                },
                Option::None => Option::Some(i),
            };
        }
        i = i + 1;
    }
    best
}

/// Find the front enemy orb: minimal x, the earlier index winning ties.
pub fn find_enemy_front(orbs: &Vec<PlacedOrb>) -> (r: Option<usize>)
    ensures
        match r {
            Option::Some(i) => i < orbs@.len() && enemy_front(orbs@) == Option::Some(i as int),
            Option::None => enemy_front(orbs@) is None,
        },
{
    let mut best: Option<usize> = Option::None;
    let mut i: usize = 0;
    let n = orbs.len();
    while i < n
        invariant
            n == orbs@.len(),
            i <= n,
            match best {
                Option::Some(b) => b < i && enemy_front_upto(orbs@, i as int) == Option::Some(
                    b as int,
                ),
                Option::None => enemy_front_upto(orbs@, i as int) is None,
            },
        decreases n - i,
    {
        if orbs[i].side == Side::Enemy {
            best = match best {
                Option::Some(b) => if orbs[i].x < orbs[b].x {
                    Option::Some(i)
                } else {
                    Option::Some(b)
                },
                Option::None => Option::Some(i),
            };
        }
        i = i + 1;
    }
    best
}

/// The iteration rank of index `idx`: how many orbs of `side` stand before
/// it.
pub fn side_rank(orbs: &Vec<PlacedOrb>, side: Side, idx: usize) -> (r: usize)
    requires
        idx <= orbs@.len(),
    ensures
        r == side_count(orbs@, side, idx as int),
        r <= idx,
{
    let mut r: usize = 0;
    let mut i: usize = 0;
    while i < idx
        invariant
            idx <= orbs@.len(),
            i <= idx,
            r <= i,
            r == side_count(orbs@, side, i as int),
        decreases idx - i,
    {
        if orbs[i].side == side {
            r = r + 1;
        }
        i = i + 1;
    }
    r
}

/// Whether any orb of `side` is placed.
pub fn any_of_side(orbs: &Vec<PlacedOrb>, side: Side) -> (r: bool)
    ensures
        r == side_present(orbs@, side),
{
    let mut i: usize = 0;
    let n = orbs.len();
    while i < n
        invariant
            n == orbs@.len(),
            i <= n,
            !(exists|k: int| 0 <= k < i && (#[trigger] orbs@[k]).side == side),
        decreases n - i,
    {
        if orbs[i].side == side {
            return true;
        }
        i = i + 1;
    }
    false
}

/// One line-up tick over the whole arena: ease every player orb toward
/// its slot and report whether all of them are now in tolerance.
fn run_lineup(arena: &mut Arena) -> (done: bool)
    requires
        positions_within(old(arena).orbs@, POS_LIMIT as int),
        old(arena).orbs@.len() <= ARENA_CAP,
    ensures
        final(arena).orbs@ == lineup_moved(old(arena).orbs@),
        done == lineup_complete(old(arena).orbs@),
        final(arena).next_id == old(arena).next_id,
        positions_within(final(arena).orbs@, POS_LIMIT as int),
        final(arena).orbs@.len() == old(arena).orbs@.len(),
{
    let ghost s0 = arena.orbs@;
    let n = arena.orbs.len();
    let mut i: usize = 0;
    let mut rank: usize = 0;
    let mut all_in: bool = true;
    while i < n
        invariant
            n == arena.orbs@.len(),
            n == s0.len(),
            n <= ARENA_CAP,
            i <= n,
            rank <= i,
            rank == side_count(s0, Side::Player, i as int),
            forall|k: int| 0 <= k < i ==> arena.orbs@[k] == lineup_moved(s0)[k],
            forall|k: int| i <= k < n ==> arena.orbs@[k] == s0[k],
            positions_within(arena.orbs@, POS_LIMIT as int),
            arena.next_id == old(arena).next_id,
            all_in <==> (forall|k: int|
                0 <= k < i && s0[k].side is Player ==> #[trigger] lineup_in_slot(s0, k)),
        decreases n - i,
    {
        let ghost pre = arena.orbs@;
        if arena.orbs[i].side == Side::Player {
            let slot = LINEUP_X0 - LINEUP_DX * (rank as i64);
            assert(slot as int == lineup_slot_x(side_count(s0, Side::Player, i as int)));
            let x = arena.orbs[i].x;
            let y = arena.orbs[i].y;
            let nx = ease_toward(x, slot, EASE_DIV);
            let ny = ease_toward(y, LINEUP_Y, EASE_DIV);
            arena.orbs[i].x = nx;
            arena.orbs[i].y = ny;
            assert(arena.orbs@[i as int] == lineup_moved(s0)[i as int]);
            let ok = -LINEUP_EPS < ny && ny < LINEUP_EPS && -LINEUP_EPS < nx - slot && nx
                - slot < LINEUP_EPS;
            assert(ok == lineup_in_slot(s0, i as int));
            all_in = all_in && ok;
            rank = rank + 1;
            assert forall|k: int|
                0 <= k < arena.orbs@.len() implies -POS_LIMIT <= #[trigger] arena.orbs@[k].x
                <= POS_LIMIT && -POS_LIMIT <= arena.orbs@[k].y <= POS_LIMIT by {
                if k != i as int {
                    assert(arena.orbs@[k] == pre[k]);
                }
            }
        } else {
            assert(arena.orbs@[i as int] == lineup_moved(s0)[i as int]);
            assert(!(s0[i as int].side is Player));
        }
        i = i + 1;
    }
    assert(arena.orbs@ =~= lineup_moved(s0));
    assert(all_in == lineup_complete(s0));
    all_in
}

/// One Attack-stage tick: approach, possible duel, wipe-out check.
#[verifier::rlimit(60)]
fn run_attack(ctx: &mut Context, arena: &mut Arena)
    requires
        old(ctx).step is Attack,
        old(ctx).phase is Combat,
        positions_within(old(arena).orbs@, POS_LIMIT as int),
        old(arena).orbs@.len() <= ARENA_CAP,
        attack_duel_fits(old(arena).orbs@),
    ensures
        (final(arena).orbs@, final(ctx).step, final(ctx).phase, final(ctx).pending)
            == attack_stage(old(arena).orbs@, old(ctx).step, old(ctx).phase, old(ctx).pending),
        final(ctx).level == old(ctx).level,
        final(ctx).selection == old(ctx).selection,
        final(arena).next_id == old(arena).next_id,
        positions_within(final(arena).orbs@, POS_LIMIT as int),
        final(arena).orbs@.len() <= old(arena).orbs@.len(),
{
    let ghost s1 = arena.orbs@;
    let pf = find_player_front(&arena.orbs);
    let ef = find_enemy_front(&arena.orbs);
    proof {
        lemma_player_front_side(s1, s1.len() as int);
        lemma_enemy_front_side(s1, s1.len() as int);
    }
    let mut p_reached: bool = false;
    let mut e_reached: bool = false;
    if let Option::Some(pi) = pf {
        let ghost pre = arena.orbs@;
        let x = arena.orbs[pi].x;
        let nx = ease_toward(x, ATTACK_X_PLAYER, EASE_DIV);
        arena.orbs[pi].x = nx;
        p_reached = x - ATTACK_X_PLAYER <= ATTACK_EPS;
        proof {
            assert forall|k: int|
                0 <= k < arena.orbs@.len() implies -POS_LIMIT <= #[trigger] arena.orbs@[k].x
                <= POS_LIMIT && -POS_LIMIT <= arena.orbs@[k].y <= POS_LIMIT by {
                if k != pi as int {
                    assert(arena.orbs@[k] == pre[k]);
                }
            }
            assert(positions_within(arena.orbs@, POS_LIMIT as int));
        }
    }
    if let Option::Some(ei) = ef {
        let ghost pre = arena.orbs@;
        let x = arena.orbs[ei].x;
        let nx = ease_toward(x, ATTACK_X_ENEMY, EASE_DIV);
        arena.orbs[ei].x = nx;
        e_reached = x - ATTACK_X_ENEMY <= ATTACK_EPS;
        proof {
            assert forall|k: int|
                0 <= k < arena.orbs@.len() implies -POS_LIMIT <= #[trigger] arena.orbs@[k].x
                <= POS_LIMIT && -POS_LIMIT <= arena.orbs@[k].y <= POS_LIMIT by {
                if k != ei as int {
                    assert(arena.orbs@[k] == pre[k]);
                }
            }
            assert(positions_within(arena.orbs@, POS_LIMIT as int));
        }
    }
    assert(arena.orbs@ =~= attack_move(s1).0);
    assert(p_reached == attack_move(s1).1);
    assert(e_reached == attack_move(s1).2);
    assert(positions_within(arena.orbs@, POS_LIMIT as int));
    if p_reached && e_reached {
        if let (Option::Some(pi), Option::Some(ei)) = (pf, ef) {
            let ghost moved = arena.orbs@;
            proof {
                assert(s1[pi as int].side is Player);
                assert(s1[ei as int].side is Enemy);
                assert(pi != ei);
            }
            let pd = arena.orbs[pi].orb.damage;
            let ed = arena.orbs[ei].orb.damage;
            let ph = arena.orbs[pi].orb.health - ed;
            let eh = arena.orbs[ei].orb.health - pd;
            arena.orbs[pi].orb.health = ph;
            arena.orbs[ei].orb.health = eh;
            proof {
                assert forall|k: int|
                    0 <= k < arena.orbs@.len() implies -POS_LIMIT
                    <= #[trigger] arena.orbs@[k].x <= POS_LIMIT && -POS_LIMIT
                    <= arena.orbs@[k].y <= POS_LIMIT by {
                    if k != pi as int && k != ei as int {
                        assert(arena.orbs@[k] == moved[k]);
                    }
                    assert(arena.orbs@[k].x == moved[k].x && arena.orbs@[k].y == moved[k].y);
                    assert(-POS_LIMIT <= moved[k].x <= POS_LIMIT && -POS_LIMIT <= moved[k].y
                        <= POS_LIMIT);
                }
                assert(positions_within(arena.orbs@, POS_LIMIT as int));
            }
            if ph <= 0 && eh <= 0 {
                if pi < ei {
                    let ghost su = arena.orbs@;
                    arena.orbs.remove(ei);
                    proof {
                        lemma_remove_positions(su, ei as int, POS_LIMIT as int);
                    }
                    let ghost su2 = arena.orbs@;
                    arena.orbs.remove(pi);
                    proof {
                        lemma_remove_positions(su2, pi as int, POS_LIMIT as int);
                    }
                } else {
                    let ghost su = arena.orbs@;
                    arena.orbs.remove(pi);
                    proof {
                        lemma_remove_positions(su, pi as int, POS_LIMIT as int);
                    }
                    let ghost su2 = arena.orbs@;
                    arena.orbs.remove(ei);
                    proof {
                        lemma_remove_positions(su2, ei as int, POS_LIMIT as int);
                    }
                }
            } else if ph <= 0 {
                let ghost su = arena.orbs@;
                arena.orbs.remove(pi);
                proof {
                    lemma_remove_positions(su, pi as int, POS_LIMIT as int);
                }
            } else if eh <= 0 {
                let ghost su = arena.orbs@;
                arena.orbs.remove(ei);
                proof {
                    lemma_remove_positions(su, ei as int, POS_LIMIT as int);
                }
            }
            assert(arena.orbs@ == duel_resolved(moved, pi as int, ei as int));
            assert(positions_within(arena.orbs@, POS_LIMIT as int));
            ctx.step = CombatStep::Next;
        }
    }
    let pa = any_of_side(&arena.orbs, Side::Player);
    let ea = any_of_side(&arena.orbs, Side::Enemy);
    if !pa || !ea {
        ctx.pending = Option::Some(ChangeLevel { fail: ea });
        ctx.step = CombatStep::LineUp;
        ctx.phase = Phase::Prep;
    }
}

/// One Next-stage tick: each side's front orb eases toward its queue slot.
fn run_next(ctx: &mut Context, arena: &mut Arena)
    requires
        old(ctx).step is Next,
        positions_within(old(arena).orbs@, POS_LIMIT as int),
        old(arena).orbs@.len() <= ARENA_CAP,
    ensures
        (final(arena).orbs@, final(ctx).step) == next_stage(old(arena).orbs@, old(ctx).step),
        final(ctx).phase == old(ctx).phase,
        final(ctx).pending == old(ctx).pending,
        final(ctx).level == old(ctx).level,
        final(ctx).selection == old(ctx).selection,
        final(arena).next_id == old(arena).next_id,
        positions_within(final(arena).orbs@, POS_LIMIT as int),
{
    let ghost s2 = arena.orbs@;
    let pf = find_player_front(&arena.orbs);
    let ef = find_enemy_front(&arena.orbs);
    proof {
        lemma_player_front_side(s2, s2.len() as int);
        lemma_enemy_front_side(s2, s2.len() as int);
    }
    let mut done_p: bool = true;
    let mut done_e: bool = true;
    if let Option::Some(pi) = pf {
        let r = side_rank(&arena.orbs, Side::Player, pi);
        let target = PLAYER_SPAWN_X0 - PLAYER_SPAWN_DX * (r as i64);
        let x = arena.orbs[pi].x;
        let nx = ease_toward(x, target, NEXT_DIV);
        arena.orbs[pi].x = nx;
        done_p = -QUEUE_EPS <= nx - target && nx - target <= QUEUE_EPS;
        proof {
            assert forall|k: int|
                0 <= k < arena.orbs@.len() implies -POS_LIMIT <= #[trigger] arena.orbs@[k].x
                <= POS_LIMIT && -POS_LIMIT <= arena.orbs@[k].y <= POS_LIMIT by {
                if k != pi as int {
                    assert(arena.orbs@[k] == s2[k]);
                }
            }
            assert(positions_within(arena.orbs@, POS_LIMIT as int));
        }
    }
    let ghost sp = arena.orbs@;
    if let Option::Some(ei) = ef {
        let r = side_rank(&arena.orbs, Side::Enemy, ei);
        proof {
            if pf is Some {
                assert(arena.orbs@[ei as int] == s2[ei as int]);
            }
            assert(side_count(arena.orbs@, Side::Enemy, ei as int) == side_count(
                s2,
                Side::Enemy,
                ei as int,
            )) by {
                lemma_side_count_same(arena.orbs@, s2, Side::Enemy, ei as int);
            }
        }
        let target = ENEMY_SPAWN_X0 + ENEMY_SPAWN_DX * (r as i64);
        let x = arena.orbs[ei].x;
        let nx = ease_toward(x, target, NEXT_DIV);
        arena.orbs[ei].x = nx;
        done_e = -QUEUE_EPS <= nx - target && nx - target <= QUEUE_EPS;
        proof {
            assert forall|k: int|
                0 <= k < arena.orbs@.len() implies -POS_LIMIT <= #[trigger] arena.orbs@[k].x
                <= POS_LIMIT && -POS_LIMIT <= arena.orbs@[k].y <= POS_LIMIT by {
                if k != ei as int {
                    assert(arena.orbs@[k] == sp[k]);
                }
            }
            assert(positions_within(arena.orbs@, POS_LIMIT as int));
        }
    }
    if done_p && done_e {
        ctx.step = CombatStep::Attack;
    }
    assert(arena.orbs@ =~= next_stage(s2, CombatStep::Next).0);
}

/// Despawning an orb keeps every remaining orb's position in bounds.
proof fn lemma_remove_positions(s: Seq<PlacedOrb>, i: int, limit: int)
    requires
        0 <= i < s.len(),
        positions_within(s, limit),
    ensures
        positions_within(s.remove(i), limit),
{
    assert forall|k: int|
        0 <= k < s.remove(i).len() implies -limit <= #[trigger] s.remove(i)[k].x <= limit
        && -limit <= s.remove(i)[k].y <= limit by {
        if k < i {
            assert(s.remove(i)[k] == s[k]);
        } else {
            assert(s.remove(i)[k] == s[k + 1]);
        }
    }
}

/// Two sequences that agree pointwise below `upto` count a side alike.
proof fn lemma_side_count_same(a: Seq<PlacedOrb>, b: Seq<PlacedOrb>, side: Side, upto: int)
    requires
        upto <= a.len(),
        upto <= b.len(),
        forall|k: int| 0 <= k < upto ==> (#[trigger] a[k]).side == b[k].side,
    ensures
        side_count(a, side, upto) == side_count(b, side, upto),
    decreases upto,
{
    if upto > 0 {
        lemma_side_count_same(a, b, side, upto - 1);
    }
}

/// Advance the combat state machine by one tick: exactly the
/// `combat_transition` of the current state. Outside the combat phase the
/// call changes nothing. The level counter, the selection slot and the
/// spawn counter are never touched; positions stay within bounds.
pub fn combat_update(ctx: &mut Context, arena: &mut Arena)
    requires
        positions_within(old(arena).orbs@, POS_LIMIT as int),
        old(arena).orbs@.len() <= ARENA_CAP,
        old(ctx).phase is Combat ==> duel_fits(old(arena).orbs@, old(ctx).step),
    ensures
        (final(arena).orbs@, final(ctx).step, final(ctx).phase, final(ctx).pending)
            == combat_transition(
            old(arena).orbs@,
            old(ctx).step,
            old(ctx).phase,
            old(ctx).pending,
        ),
        final(ctx).level == old(ctx).level,
        final(ctx).selection == old(ctx).selection,
        final(arena).next_id == old(arena).next_id,
        positions_within(final(arena).orbs@, POS_LIMIT as int),
{
    if ctx.phase != Phase::Combat {
        return ;
    }
    let ghost s0 = arena.orbs@;
    if ctx.step == CombatStep::LineUp {
        let done = run_lineup(arena);
        if done {
            ctx.step = CombatStep::Attack;
        }
    }
    let ghost s1 = arena.orbs@;
    assert((s1, ctx.step) == lineup_stage(s0, old(ctx).step));
    let ghost phase1 = ctx.phase;
    let ghost pending1 = ctx.pending;
    if ctx.step == CombatStep::Attack {
        run_attack(ctx, arena);
    }
    let ghost s2 = arena.orbs@;
    assert((s2, ctx.step, ctx.phase, ctx.pending) == attack_stage(
        s1,
        lineup_stage(s0, old(ctx).step).1,
        phase1,
        pending1,
    ));
    if ctx.step == CombatStep::Next {
        run_next(ctx, arena);
    }
}

/// The line-up step holds until every player orb converges: if even one
/// player orb is still out of tolerance after this tick's easing, the
/// combat step stays at LineUp, the phase stays Combat and no
/// change-level request is emitted.
pub proof fn lemma_lineup_holds_until_converged(
    s: Seq<PlacedOrb>,
    phase: Phase,
    pending: Option<ChangeLevel>,
    i: int,
)
    requires
        phase is Combat,
        0 <= i < s.len(),
        s[i].side is Player,
        !lineup_in_slot(s, i),
    ensures
        combat_transition(s, CombatStep::LineUp, phase, pending).1 == CombatStep::LineUp,
        combat_transition(s, CombatStep::LineUp, phase, pending).2 == phase,
        combat_transition(s, CombatStep::LineUp, phase, pending).3 == pending,
{
    assert(!lineup_complete(s));
}

/// A resolved duel is simultaneous, computed from both orbs' pre-duel
/// stats: when neither front dies, each keeps its damage and loses exactly
/// the other's damage from its health; when both healths go non-positive,
/// both orbs despawn in the same tick.
pub proof fn lemma_duel_simultaneous(s: Seq<PlacedOrb>, pi: int, ei: int)
    requires
        0 <= pi < s.len(),
        0 <= ei < s.len(),
        pi != ei,
        i8::MIN <= s[pi].orb.health - s[ei].orb.damage <= i8::MAX,
        i8::MIN <= s[ei].orb.health - s[pi].orb.damage <= i8::MAX,
    ensures
        (s[pi].orb.health - s[ei].orb.damage > 0 && s[ei].orb.health - s[pi].orb.damage > 0)
            ==> {
            &&& duel_resolved(s, pi, ei).len() == s.len()
            &&& duel_resolved(s, pi, ei)[pi].orb.health == s[pi].orb.health
                - s[ei].orb.damage
            &&& duel_resolved(s, pi, ei)[ei].orb.health == s[ei].orb.health
                - s[pi].orb.damage
        },
        (s[pi].orb.health - s[ei].orb.damage <= 0 && s[ei].orb.health - s[pi].orb.damage <= 0)
            ==> duel_resolved(s, pi, ei).len() == s.len() - 2,
        (s[pi].orb.health - s[ei].orb.damage <= 0 && s[ei].orb.health - s[pi].orb.damage > 0)
            ==> {
            &&& duel_resolved(s, pi, ei).len() == s.len() - 1
            &&& duel_resolved(s, pi, ei)[if pi < ei {
                ei - 1
            } else {
                ei
            }].orb.health == s[ei].orb.health - s[pi].orb.damage
        },
        (s[pi].orb.health - s[ei].orb.damage > 0 && s[ei].orb.health - s[pi].orb.damage <= 0)
            ==> {
            &&& duel_resolved(s, pi, ei).len() == s.len() - 1
            &&& duel_resolved(s, pi, ei)[if ei < pi {
                pi - 1
            } else {
                pi
            }].orb.health == s[pi].orb.health - s[ei].orb.damage
        },
{
}

/// A win takes precedence when both sides are wiped simultaneously: if
/// the attack stage — duel included — leaves no living enemy, the emitted
/// change-level request does not fail, whether or not any player orb
/// survived, and the game returns to the preparation phase.
pub proof fn lemma_win_takes_precedence(
    s: Seq<PlacedOrb>,
    phase: Phase,
    pending: Option<ChangeLevel>,
)
    requires
        phase is Combat,
        !side_present(attack_stage(s, CombatStep::Attack, phase, pending).0, Side::Enemy),
    ensures
        attack_stage(s, CombatStep::Attack, phase, pending).3 matches Option::Some(r)
            && !r.fail,
        attack_stage(s, CombatStep::Attack, phase, pending).2 is Prep,
        attack_stage(s, CombatStep::Attack, phase, pending).1 is LineUp,
{
}

} // verus!
