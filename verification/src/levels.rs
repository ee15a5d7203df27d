//! Level director: the fixed per-level roster table, processing of
//! change-level requests (retreat on loss, advance after respawn, restart
//! after completing the final level) and the arena (re)population.

use vstd::prelude::*;

use crate::orb::{plain_orb, Orb};
use crate::state::{
    arena_inv, positions_within, spawned, Arena, ChangeLevel, CombatStep, Context, Phase,
    PlacedOrb, Side, POS_LIMIT,
};

verus! {

/// Horizontal slot of the `i`-th player orb at spawn: left of center at
/// fixed spacing, successive slots moving further left.
pub const PLAYER_SPAWN_X0: i64 = -150_000;

/// Spacing between player spawn slots.
pub const PLAYER_SPAWN_DX: i64 = 80_000;

/// Vertical coordinate of every player spawn slot.
pub const PLAYER_SPAWN_Y: i64 = -200_000;

/// Horizontal slot of the first enemy orb at spawn: right of center.
pub const ENEMY_SPAWN_X0: i64 = 150_000;

/// Spacing between enemy spawn slots, larger than the player spacing.
pub const ENEMY_SPAWN_DX: i64 = 120_000;

/// Vertical coordinate of every enemy spawn slot.
pub const ENEMY_SPAWN_Y: i64 = 0;

/// Value of the level counter once every defined level has been won; the
/// restart action is available exactly there.
pub const COMPLETE_LEVEL: i8 = 5;

/// Starting player orbs of each level. Levels outside the table are empty.
pub open spec fn player_roster(level: int) -> Seq<Orb> {
    if level == 0 {
        seq![plain_orb(1, 2)]
    } else if level == 1 {
        seq![plain_orb(4, 1), plain_orb(1, 4)]
    } else if level == 2 {
        seq![plain_orb(1, 1), plain_orb(1, 1), plain_orb(1, 1), plain_orb(1, 1)]
    } else if level == 3 {
        seq![plain_orb(3, 2), plain_orb(-2i8, 3)]
    } else {
        Seq::empty()
    }
}

/// Starting enemy orbs of each level. Levels outside the table are empty.
pub open spec fn enemy_roster(level: int) -> Seq<Orb> {
    if level == 0 {
        seq![plain_orb(2, 1)]
    } else if level == 1 {
        seq![plain_orb(8, 1), plain_orb(1, 3)]
    } else if level == 2 {
        seq![plain_orb(1, 3), plain_orb(3, 3)]
    } else if level == 3 {
        seq![plain_orb(5, 3)]
    } else {
        Seq::empty()
    }
}

/// The player half of a fresh arena: roster orbs in their spawn slots, with
/// identities handed out in order starting at `nid`.
pub open spec fn placed_players(level: int, nid: u64) -> Seq<PlacedOrb> {
    player_roster(level).map(
        |i: int, o: Orb|
            spawned(
                (nid + i) as u64,
                Side::Player,
                (PLAYER_SPAWN_X0 - PLAYER_SPAWN_DX * i) as i64,
                PLAYER_SPAWN_Y,
                o,
            ),
    )
}

/// The enemy half of a fresh arena, identities following the players'.
pub open spec fn placed_enemies(level: int, nid: u64) -> Seq<PlacedOrb> {
    enemy_roster(level).map(
        |i: int, o: Orb|
            spawned(
                (nid + player_roster(level).len() + i) as u64,
                Side::Enemy,
                (ENEMY_SPAWN_X0 + ENEMY_SPAWN_DX * i) as i64,
                ENEMY_SPAWN_Y,
                o,
            ),
    )
}

/// A freshly populated arena for `level`: every player orb left of center,
/// every enemy orb right of center, in roster order.
pub open spec fn roster_arena(level: int, nid: u64) -> Seq<PlacedOrb> {
    placed_players(level, nid) + placed_enemies(level, nid)
}

/// The level whose roster a change-level request spawns: one level back
/// when the request records a failure.
pub open spec fn effective_level(level: i8, fail: bool) -> int {
    if fail {
        level - 1
    } else {
        level as int
    }
}

/// Build one level's rosters as plain vectors: player orbs, then enemy orbs.
pub fn roster(level: i8) -> (r: (Vec<Orb>, Vec<Orb>))
    ensures
        r.0@ == player_roster(level as int),
        r.1@ == enemy_roster(level as int),
{
    let mut p: Vec<Orb> = Vec::new();
    let mut e: Vec<Orb> = Vec::new();
    if level == 0 {
        p.push(Orb::new(1, 2));
        e.push(Orb::new(2, 1));
    } else if level == 1 {
        p.push(Orb::new(4, 1));
        p.push(Orb::new(1, 4));
        e.push(Orb::new(8, 1));
        e.push(Orb::new(1, 3));
    } else if level == 2 {
        p.push(Orb::new(1, 1));
        p.push(Orb::new(1, 1));
        p.push(Orb::new(1, 1));
        p.push(Orb::new(1, 1));
        e.push(Orb::new(1, 3));
        e.push(Orb::new(3, 3));
    } else if level == 3 {
        p.push(Orb::new(3, 2));
        p.push(Orb::new(-2, 3));
        e.push(Orb::new(5, 3));
    }
    assert(p@ =~= player_roster(level as int));
    assert(e@ =~= enemy_roster(level as int));
    (p, e)
}

/// No roster holds more than four orbs on a side.
pub proof fn lemma_roster_small(level: int)
    ensures
        player_roster(level).len() <= 4,
        enemy_roster(level).len() <= 2,
{
}

/// Process one change-level request: retreat one level on failure, despawn
/// every placed orb, spawn the (possibly adjusted) current level's roster,
/// then advance the counter — so it always reads "next level to play", and
/// a failed attempt nets zero change. The combat step returns to its entry
/// state; phase, selection and any pending request are left alone.
pub fn change_level(ctx: &mut Context, arena: &mut Arena, fail: bool)
    requires
        fail ==> old(ctx).level > i8::MIN,
        !fail ==> old(ctx).level < i8::MAX,
        old(arena).next_id <= u64::MAX - 8,
    ensures
        final(ctx).level == effective_level(old(ctx).level, fail) + 1,
        final(ctx).phase == old(ctx).phase,
        final(ctx).step == CombatStep::LineUp,
        final(ctx).selection == old(ctx).selection,
        final(ctx).pending == old(ctx).pending,
        final(arena).orbs@ == roster_arena(
            effective_level(old(ctx).level, fail),
            old(arena).next_id,
        ),
        final(arena).next_id == old(arena).next_id + final(arena).orbs@.len(),
{
    if fail {
        ctx.level = ctx.level - 1;
    }
    let ghost eff = ctx.level as int;
    arena.orbs.clear();
    let (players, enemies) = roster(ctx.level);
    let nid = arena.next_id;
    proof {
        lemma_roster_small(eff);
    }
    let mut i: usize = 0;
    while i < players.len()
        invariant
            players@ == player_roster(eff),
            player_roster(eff).len() <= 4,
            i <= players.len(),
            arena.next_id == nid + i,
            nid <= u64::MAX - 8,
            arena.orbs@ == placed_players(eff, nid).take(i as int),
        decreases players.len() - i,
    {
        let x = PLAYER_SPAWN_X0 - PLAYER_SPAWN_DX * (i as i64);
        let orb = players[i].clone();
        arena.orbs.push(PlacedOrb::new(arena.next_id, Side::Player, x, PLAYER_SPAWN_Y, orb));
        arena.next_id = arena.next_id + 1;
        i = i + 1;
        assert(arena.orbs@ =~= placed_players(eff, nid).take(i as int));
    }
    assert(arena.orbs@ =~= placed_players(eff, nid));
    let nid2 = arena.next_id;
    let mut j: usize = 0;
    while j < enemies.len()
        invariant
            enemies@ == enemy_roster(eff),
            enemy_roster(eff).len() <= 2,
            players@.len() == player_roster(eff).len(),
            j <= enemies.len(),
            nid2 == nid + players@.len(),
            arena.next_id == nid2 + j,
            nid <= u64::MAX - 8,
            player_roster(eff).len() <= 4,
            arena.orbs@ == placed_players(eff, nid) + placed_enemies(eff, nid).take(j as int),
        decreases enemies.len() - j,
    {
        let x = ENEMY_SPAWN_X0 + ENEMY_SPAWN_DX * (j as i64);
        let orb = enemies[j].clone();
        arena.orbs.push(PlacedOrb::new(arena.next_id, Side::Enemy, x, ENEMY_SPAWN_Y, orb));
        arena.next_id = arena.next_id + 1;
        j = j + 1;
        assert(arena.orbs@ =~= placed_players(eff, nid) + placed_enemies(eff, nid).take(
            j as int,
        ));
    }
    assert(arena.orbs@ =~= roster_arena(eff, nid));
    ctx.step = CombatStep::LineUp;
    ctx.level = ctx.level + 1;
}

/// Consume the pending change-level request, if any: a queued request is
/// always fully processed before the tick's steady-state logic runs.
pub fn process_pending(ctx: &mut Context, arena: &mut Arena)
    requires
        (old(ctx).pending matches Some(r) && r.fail) ==> old(ctx).level > i8::MIN,
        (old(ctx).pending matches Some(r) && !r.fail) ==> old(ctx).level < i8::MAX,
        old(arena).next_id <= u64::MAX - 8,
    ensures
        final(ctx).pending is None,
        old(ctx).pending is None ==> *final(ctx) == *old(ctx) && *final(arena) == *old(arena),
        old(ctx).pending matches Some(r) ==> {
            &&& final(ctx).level == effective_level(old(ctx).level, r.fail) + 1
            &&& final(ctx).phase == old(ctx).phase
            &&& final(ctx).step == CombatStep::LineUp
            &&& final(ctx).selection == old(ctx).selection
            &&& final(arena).orbs@ == roster_arena(
                effective_level(old(ctx).level, r.fail),
                old(arena).next_id,
            )
            &&& final(arena).next_id == old(arena).next_id + final(arena).orbs@.len()
        },
{
    let fail = match &ctx.pending {
        Option::Some(req) => req.fail,
        Option::None => {
            return ;
        },
    };
    ctx.pending = Option::None;
    change_level(ctx, arena, fail);
}

/// The dedicated phase-toggle action. At the completion level it instead
/// resets the counter to 0 and queues a fresh, non-failing start; otherwise
/// it flips the phase and returns the combat step to its entry state.
pub fn switch_phase(ctx: &mut Context)
    ensures
        final(ctx).selection == old(ctx).selection,
        old(ctx).level == COMPLETE_LEVEL ==> {
            &&& final(ctx).level == 0
            &&& final(ctx).pending matches Some(r) && !r.fail
            &&& final(ctx).phase == old(ctx).phase
            &&& final(ctx).step == old(ctx).step
        },
        old(ctx).level != COMPLETE_LEVEL ==> {
            &&& final(ctx).level == old(ctx).level
            &&& final(ctx).pending == old(ctx).pending
            &&& final(ctx).phase == (if old(ctx).phase == Phase::Prep {
                Phase::Combat
            } else {
                Phase::Prep
            })
            &&& final(ctx).step == CombatStep::LineUp
        },
{
    if ctx.level == COMPLETE_LEVEL {
        ctx.level = 0;
        ctx.pending = Option::Some(ChangeLevel { fail: false });
    } else {
        ctx.phase = if ctx.phase == Phase::Prep {
            Phase::Combat
        } else {
            Phase::Prep
        };
        ctx.step = CombatStep::LineUp;
    }
}

/// A freshly populated arena is well formed: identities are unique, below
/// the advanced spawn counter, and every spawn slot lies far inside the
/// coordinate bound.
pub proof fn lemma_roster_arena_wf(level: int, nid: u64)
    requires
        nid <= u64::MAX - 8,
    ensures
        arena_inv(roster_arena(level, nid), (nid + roster_arena(level, nid).len()) as u64),
        positions_within(roster_arena(level, nid), POS_LIMIT as int),
{
    lemma_roster_small(level);
    let s = roster_arena(level, nid);
    assert forall|i: int| 0 <= i < s.len() implies s[i].id == nid + i by {
        if i < placed_players(level, nid).len() {
            assert(s[i] == placed_players(level, nid)[i]);
        } else {
            assert(s[i] == placed_enemies(level, nid)[i - player_roster(level).len()]);
        }
    }
    assert forall|i: int|
        0 <= i < s.len() implies -POS_LIMIT <= #[trigger] s[i].x <= POS_LIMIT && -POS_LIMIT
        <= s[i].y <= POS_LIMIT by {
        if i < placed_players(level, nid).len() {
            assert(s[i] == placed_players(level, nid)[i]);
        } else {
            assert(s[i] == placed_enemies(level, nid)[i - player_roster(level).len()]);
        }
    }
}

} // verus!
