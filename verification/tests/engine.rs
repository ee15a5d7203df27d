use orber::combat::{combat_update, ATTACK_X_ENEMY, ATTACK_X_PLAYER};
use orber::levels::{change_level, process_pending, roster, switch_phase, COMPLETE_LEVEL};
use orber::orb::{Lineage, Orb};
use orber::repel::{axis_push, repel_pass};
use orber::state::{
    Arena, ChangeLevel, CombatStep, Context, Phase, PlacedOrb, Side,
};

fn plain(health: i8, damage: i8) -> Orb {
    Orb { health, damage, lineage: Lineage::Empty }
}

fn place(id: u64, side: Side, x: i64, y: i64, orb: Orb) -> PlacedOrb {
    PlacedOrb::new(id, side, x, y, orb)
}

fn idle_ctx() -> Context {
    Context {
        phase: Phase::Prep,
        step: CombatStep::LineUp,
        level: 0,
        selection: None,
        pending: None,
    }
}

fn arena_of(orbs: Vec<PlacedOrb>) -> Arena {
    let next_id = orbs.iter().map(|o| o.id + 1).max().unwrap_or(0);
    Arena { orbs, next_id }
}

#[test]
fn roster_level_zero() {
    let (p, e) = roster(0);
    assert_eq!(p.len(), 1);
    assert_eq!((p[0].health, p[0].damage), (1, 2));
    assert_eq!(e.len(), 1);
    assert_eq!((e[0].health, e[0].damage), (2, 1));
}

#[test]
fn roster_all_levels_sizes() {
    assert_eq!(roster(1).0.len(), 2);
    assert_eq!(roster(1).1.len(), 2);
    assert_eq!(roster(2).0.len(), 4);
    assert_eq!(roster(2).1.len(), 2);
    assert_eq!(roster(3).0.len(), 2);
    assert_eq!(roster(3).1.len(), 1);
}

#[test]
fn roster_unknown_levels_are_empty() {
    assert!(roster(4).0.is_empty());
    assert!(roster(4).1.is_empty());
    assert!(roster(-1).0.is_empty());
    assert!(roster(-1).1.is_empty());
}

#[test]
fn roster_level_three_has_negative_health_orb() {
    let (p, _) = roster(3);
    assert_eq!((p[1].health, p[1].damage), (-2, 3));
}

#[test]
fn change_level_spawns_columns() {
    let mut ctx = idle_ctx();
    ctx.level = 1;
    let mut arena = Arena::new();
    change_level(&mut ctx, &mut arena, false);
    assert_eq!(ctx.level, 2);
    assert_eq!(arena.orbs.len(), 4);
    // two player orbs left of center, two enemy orbs right of center
    assert_eq!(arena.orbs[0].side, Side::Player);
    assert_eq!((arena.orbs[0].x, arena.orbs[0].y), (-150_000, -200_000));
    assert_eq!((arena.orbs[1].x, arena.orbs[1].y), (-230_000, -200_000));
    assert_eq!(arena.orbs[2].side, Side::Enemy);
    assert_eq!((arena.orbs[2].x, arena.orbs[2].y), (150_000, 0));
    assert_eq!((arena.orbs[3].x, arena.orbs[3].y), (270_000, 0));
    // fresh consecutive identities
    assert_eq!(
        arena.orbs.iter().map(|o| o.id).collect::<Vec<_>>(),
        vec![0, 1, 2, 3]
    );
    assert_eq!(arena.next_id, 4);
}

#[test]
fn failing_change_replays_same_level() {
    // Playing the level-2 roster means the counter reads 3. A loss nets
    // zero change: the next roster is drawn from level 2 again.
    let mut ctx = idle_ctx();
    ctx.level = 3;
    let mut arena = Arena::new();
    change_level(&mut ctx, &mut arena, true);
    assert_eq!(ctx.level, 3);
    let players: Vec<_> = arena.orbs.iter().filter(|o| o.side == Side::Player).collect();
    let enemies: Vec<_> = arena.orbs.iter().filter(|o| o.side == Side::Enemy).collect();
    assert_eq!(players.len(), 4);
    assert!(players.iter().all(|o| o.orb.health == 1 && o.orb.damage == 1));
    assert_eq!(enemies.len(), 2);
    assert_eq!((enemies[0].orb.health, enemies[0].orb.damage), (1, 3));
    assert_eq!((enemies[1].orb.health, enemies[1].orb.damage), (3, 3));
}

#[test]
fn winning_change_advances_to_next_level() {
    let mut ctx = idle_ctx();
    ctx.level = 3;
    let mut arena = Arena::new();
    change_level(&mut ctx, &mut arena, false);
    assert_eq!(ctx.level, 4);
    let players: Vec<_> = arena.orbs.iter().filter(|o| o.side == Side::Player).collect();
    let enemies: Vec<_> = arena.orbs.iter().filter(|o| o.side == Side::Enemy).collect();
    assert_eq!(players.len(), 2);
    assert_eq!((players[0].orb.health, players[0].orb.damage), (3, 2));
    assert_eq!((players[1].orb.health, players[1].orb.damage), (-2, 3));
    assert_eq!(enemies.len(), 1);
    assert_eq!((enemies[0].orb.health, enemies[0].orb.damage), (5, 3));
}

#[test]
fn process_pending_consumes_request() {
    let mut ctx = idle_ctx();
    ctx.pending = Some(ChangeLevel { fail: false });
    let mut arena = Arena::new();
    process_pending(&mut ctx, &mut arena);
    assert!(ctx.pending.is_none());
    assert_eq!(ctx.level, 1);
    assert_eq!(arena.orbs.len(), 2);
    // without a pending request nothing happens
    let before = arena.orbs.len();
    process_pending(&mut ctx, &mut arena);
    assert_eq!(arena.orbs.len(), before);
    assert_eq!(ctx.level, 1);
}

#[test]
fn switch_phase_toggles_and_resets_step() {
    let mut ctx = idle_ctx();
    ctx.step = CombatStep::Next;
    switch_phase(&mut ctx);
    assert_eq!(ctx.phase, Phase::Combat);
    assert_eq!(ctx.step, CombatStep::LineUp);
    ctx.step = CombatStep::Attack;
    switch_phase(&mut ctx);
    assert_eq!(ctx.phase, Phase::Prep);
    assert_eq!(ctx.step, CombatStep::LineUp);
}

#[test]
fn switch_phase_at_completion_restarts() {
    let mut ctx = idle_ctx();
    ctx.level = COMPLETE_LEVEL;
    ctx.phase = Phase::Prep;
    switch_phase(&mut ctx);
    assert_eq!(ctx.level, 0);
    assert_eq!(ctx.phase, Phase::Prep);
    let req = ctx.pending.expect("restart queues a change-level request");
    assert!(!req.fail);
}

#[test]
fn repulsion_is_symmetric_and_peaks_midway() {
    // correction magnitude: 0 at separation 0 and 100 units, maximal at 50
    assert_eq!(axis_push(0), 0);
    assert_eq!(axis_push(50_000), 1_250);
    assert_eq!(axis_push(-50_000), -1_250);
    assert_eq!(axis_push(99_999), 0); // (100000-99999)*99999 / 2_000_000 truncates to 0
    for d in [10_000i64, 25_000, 50_000, 75_000, 99_000] {
        assert_eq!(axis_push(d), -axis_push(-d));
        assert!(axis_push(d) <= 1_250);
    }
}

#[test]
fn repel_pass_pushes_pair_apart_equally() {
    let mut arena = arena_of(vec![
        place(0, Side::Player, 0, 0, plain(1, 1)),
        place(1, Side::Player, 50_000, 0, plain(1, 1)),
    ]);
    repel_pass(&mut arena, None);
    // equal and opposite corrections of 1.25 units along x, none along y
    assert_eq!((arena.orbs[0].x, arena.orbs[0].y), (-1_250, 0));
    assert_eq!((arena.orbs[1].x, arena.orbs[1].y), (51_250, 0));
}

#[test]
fn repel_pass_zero_at_zero_and_full_separation() {
    // exactly at the overlap threshold: no correction
    let mut arena = arena_of(vec![
        place(0, Side::Player, 0, 0, plain(1, 1)),
        place(1, Side::Player, 100_000, 0, plain(1, 1)),
    ]);
    repel_pass(&mut arena, None);
    assert_eq!(arena.orbs[0].x, 0);
    assert_eq!(arena.orbs[1].x, 100_000);
    // exactly coincident: zero-magnitude correction
    let mut arena = arena_of(vec![
        place(0, Side::Player, 7_000, -3_000, plain(1, 1)),
        place(1, Side::Player, 7_000, -3_000, plain(1, 1)),
    ]);
    repel_pass(&mut arena, None);
    assert_eq!((arena.orbs[0].x, arena.orbs[0].y), (7_000, -3_000));
    assert_eq!((arena.orbs[1].x, arena.orbs[1].y), (7_000, -3_000));
}

#[test]
fn repel_pass_skips_dragged_orb() {
    let mut arena = arena_of(vec![
        place(0, Side::Player, 0, 0, plain(1, 1)),
        place(1, Side::Player, 50_000, 0, plain(1, 1)),
    ]);
    repel_pass(&mut arena, Some(0));
    assert_eq!(arena.orbs[0].x, 0);
    assert_eq!(arena.orbs[1].x, 50_000);
}

#[test]
fn repel_pass_ignores_enemy_orbs() {
    let mut arena = arena_of(vec![
        place(0, Side::Player, 0, 0, plain(1, 1)),
        place(1, Side::Enemy, 50_000, 0, plain(1, 1)),
    ]);
    repel_pass(&mut arena, None);
    assert_eq!(arena.orbs[0].x, 0);
    assert_eq!(arena.orbs[1].x, 50_000);
}

#[test]
fn duel_double_knockout_wins() {
    // player {health 1, damage 2} vs enemy {health 2, damage 1}, both at
    // their engagement marks: one duel kills both, and the emitted
    // change-level request does not fail (win takes precedence).
    let mut ctx = idle_ctx();
    ctx.phase = Phase::Combat;
    ctx.step = CombatStep::Attack;
    let mut arena = arena_of(vec![
        place(0, Side::Player, ATTACK_X_PLAYER, 0, plain(1, 2)),
        place(1, Side::Enemy, ATTACK_X_ENEMY, 0, plain(2, 1)),
    ]);
    combat_update(&mut ctx, &mut arena);
    assert_eq!(arena.orbs.len(), 0, "both orbs despawn in the same duel");
    let req = ctx.pending.expect("a change-level request is emitted");
    assert!(!req.fail, "no enemy survives, so the bout is won");
    assert_eq!(ctx.phase, Phase::Prep);
    assert_eq!(ctx.step, CombatStep::LineUp);
}

#[test]
fn duel_applies_both_damages_simultaneously() {
    let mut ctx = idle_ctx();
    ctx.phase = Phase::Combat;
    ctx.step = CombatStep::Attack;
    let mut arena = arena_of(vec![
        place(0, Side::Player, ATTACK_X_PLAYER, 0, plain(10, 3)),
        place(1, Side::Enemy, ATTACK_X_ENEMY, 0, plain(9, 4)),
    ]);
    combat_update(&mut ctx, &mut arena);
    assert_eq!(arena.orbs.len(), 2);
    assert_eq!(arena.orbs[0].orb.health, 10 - 4);
    assert_eq!(arena.orbs[1].orb.health, 9 - 3);
    assert_eq!(ctx.step, CombatStep::Next);
    assert!(ctx.pending.is_none());
}

#[test]
fn player_wipe_fails_the_bout() {
    let mut ctx = idle_ctx();
    ctx.phase = Phase::Combat;
    ctx.step = CombatStep::Attack;
    let mut arena = arena_of(vec![place(0, Side::Enemy, 400_000, 0, plain(5, 1))]);
    combat_update(&mut ctx, &mut arena);
    let req = ctx.pending.expect("a wiped player side emits a request");
    assert!(req.fail, "an enemy survives, so the bout is lost");
    assert_eq!(ctx.phase, Phase::Prep);
}

#[test]
fn lineup_advances_only_when_all_in_slot() {
    // both player orbs already exactly in their slots: the step cascades
    // into Attack the same tick
    let mut ctx = idle_ctx();
    ctx.phase = Phase::Combat;
    ctx.step = CombatStep::LineUp;
    let mut arena = arena_of(vec![
        place(0, Side::Player, -150_000, 0, plain(1, 1)),
        place(1, Side::Player, -270_000, 0, plain(1, 1)),
        place(2, Side::Enemy, 400_000, 0, plain(9, 1)),
    ]);
    combat_update(&mut ctx, &mut arena);
    assert_eq!(ctx.step, CombatStep::Attack);
    assert_eq!(ctx.phase, Phase::Combat);
}

#[test]
fn lineup_holds_while_one_orb_is_out() {
    // the second orb is far from its slot: even though the first is in
    // tolerance, the step stays at LineUp
    let mut ctx = idle_ctx();
    ctx.phase = Phase::Combat;
    ctx.step = CombatStep::LineUp;
    let mut arena = arena_of(vec![
        place(0, Side::Player, -150_000, 0, plain(1, 1)),
        place(1, Side::Player, -270_000, 90_000, plain(1, 1)),
        place(2, Side::Enemy, 400_000, 0, plain(9, 1)),
    ]);
    combat_update(&mut ctx, &mut arena);
    assert_eq!(ctx.step, CombatStep::LineUp);
    // the stray orb eased a fifth of the way toward its slot
    assert_eq!(arena.orbs[1].y, 90_000 - 90_000 / 5);
}

#[test]
fn combat_update_outside_combat_is_inert() {
    let mut ctx = idle_ctx();
    let mut arena = arena_of(vec![place(0, Side::Player, -1_000, 2_000, plain(1, 1))]);
    combat_update(&mut ctx, &mut arena);
    assert_eq!((arena.orbs[0].x, arena.orbs[0].y), (-1_000, 2_000));
    assert_eq!(ctx.step, CombatStep::LineUp);
    assert!(ctx.pending.is_none());
}

#[test]
fn full_level_zero_bout() {
    // level 0: player {1,2} vs enemy {2,1}; toggle to combat; the single
    // duel double-kills, the bout is won, and the director advances to
    // the level 1 roster with the phase back at Prep.
    let mut ctx = Context::new();
    let mut arena = Arena::new();
    process_pending(&mut ctx, &mut arena);
    assert_eq!(ctx.level, 1);
    assert_eq!(arena.orbs.len(), 2);
    switch_phase(&mut ctx);
    assert_eq!(ctx.phase, Phase::Combat);
    let mut emitted = false;
    for _ in 0..1000 {
        combat_update(&mut ctx, &mut arena);
        if ctx.pending.is_some() {
            emitted = true;
            break;
        }
    }
    assert!(emitted, "the bout resolves within the tick budget");
    assert!(!ctx.pending.as_ref().unwrap().fail);
    assert_eq!(ctx.phase, Phase::Prep);
    assert_eq!(ctx.step, CombatStep::LineUp);
    assert_eq!(arena.orbs.len(), 0, "both sides were wiped simultaneously");
    process_pending(&mut ctx, &mut arena);
    assert_eq!(ctx.level, 2, "the counter points at the next level to play");
    let players = arena.orbs.iter().filter(|o| o.side == Side::Player).count();
    let enemies = arena.orbs.iter().filter(|o| o.side == Side::Enemy).count();
    assert_eq!((players, enemies), (2, 2), "the level 1 roster is spawned");
}

#[test]
fn player_front_later_index_wins_ties() {
    // two player orbs share the maximal x: the later one attacks
    let mut ctx = idle_ctx();
    ctx.phase = Phase::Combat;
    ctx.step = CombatStep::Attack;
    let mut arena = arena_of(vec![
        place(0, Side::Player, -200_000, 0, plain(9, 1)),
        place(1, Side::Player, -200_000, 0, plain(9, 1)),
        place(2, Side::Enemy, 400_000, 0, plain(9, 1)),
    ]);
    combat_update(&mut ctx, &mut arena);
    // the front eased toward the engagement mark; the other stayed
    assert_eq!(arena.orbs[0].x, -200_000);
    assert_eq!(arena.orbs[1].x, -200_000 + (-30_000 - -200_000) / 5);
}

#[test]
fn enemy_front_earlier_index_wins_ties() {
    // two enemy orbs share the minimal x: the earlier one advances
    let mut ctx = idle_ctx();
    ctx.phase = Phase::Combat;
    ctx.step = CombatStep::Attack;
    let mut arena = arena_of(vec![
        place(0, Side::Player, -400_000, 0, plain(9, 1)),
        place(1, Side::Enemy, 300_000, 0, plain(9, 1)),
        place(2, Side::Enemy, 300_000, 0, plain(9, 1)),
    ]);
    combat_update(&mut ctx, &mut arena);
    assert_eq!(arena.orbs[1].x, 300_000 - (300_000 - 50_000) / 5);
    assert_eq!(arena.orbs[2].x, 300_000);
}

#[test]
fn attack_requires_both_fronts_at_their_marks() {
    // the enemy stands just beyond the half-unit tolerance: no duel yet
    let mut ctx = idle_ctx();
    ctx.phase = Phase::Combat;
    ctx.step = CombatStep::Attack;
    let mut arena = arena_of(vec![
        place(0, Side::Player, ATTACK_X_PLAYER, 0, plain(5, 1)),
        place(1, Side::Enemy, ATTACK_X_ENEMY + 501, 0, plain(5, 1)),
    ]);
    combat_update(&mut ctx, &mut arena);
    assert_eq!(ctx.step, CombatStep::Attack);
    assert_eq!(arena.orbs[0].orb.health, 5);
    // exactly at the tolerance: the duel resolves
    let mut arena = arena_of(vec![
        place(0, Side::Player, ATTACK_X_PLAYER, 0, plain(5, 1)),
        place(1, Side::Enemy, ATTACK_X_ENEMY + 500, 0, plain(5, 1)),
    ]);
    ctx.step = CombatStep::Attack;
    ctx.phase = Phase::Combat;
    combat_update(&mut ctx, &mut arena);
    assert_eq!(arena.orbs[0].orb.health, 4);
    assert_eq!(arena.orbs[1].orb.health, 4);
}

#[test]
fn next_step_requeues_survivor_until_in_tolerance() {
    let mut ctx = idle_ctx();
    ctx.phase = Phase::Combat;
    ctx.step = CombatStep::Next;
    let mut arena = arena_of(vec![
        place(0, Side::Player, -30_000, 0, plain(5, 1)),
        place(1, Side::Enemy, 150_000, 0, plain(5, 1)),
    ]);
    combat_update(&mut ctx, &mut arena);
    // the player front eased a tenth of the way toward its queue slot
    assert_eq!(arena.orbs[0].x, -30_000 - (-30_000 - -150_000) / 10);
    // the enemy front is already in its slot, but the player is not
    assert_eq!(ctx.step, CombatStep::Next);
    let mut ticks = 0;
    while ctx.step == CombatStep::Next && ticks < 1000 {
        combat_update(&mut ctx, &mut arena);
        ticks += 1;
    }
    assert_eq!(ctx.step, CombatStep::Attack);
    assert!((arena.orbs[0].x - -150_000).abs() <= 2_000);
}

#[test]
fn restart_after_completion_replays_level_zero() {
    let mut ctx = idle_ctx();
    ctx.level = COMPLETE_LEVEL;
    let mut arena = Arena { orbs: vec![], next_id: 40 };
    switch_phase(&mut ctx);
    process_pending(&mut ctx, &mut arena);
    assert_eq!(ctx.level, 1, "the counter points past the respawned level 0");
    assert_eq!(arena.orbs.len(), 2);
    assert_eq!(arena.orbs[0].orb.health, 1);
    assert_eq!(arena.orbs[1].orb.health, 2);
    // identities keep counting up: none are ever reused
    assert_eq!(arena.orbs[0].id, 40);
    assert_eq!(arena.next_id, 42);
}

#[test]
fn vacuous_level_ends_immediately_as_won() {
    // beyond the defined table the roster is empty; one combat tick on an
    // empty arena cascades LineUp into Attack and ends the bout at once
    let mut ctx = idle_ctx();
    ctx.phase = Phase::Combat;
    ctx.step = CombatStep::LineUp;
    let mut arena = Arena::new();
    combat_update(&mut ctx, &mut arena);
    let req = ctx.pending.expect("an empty arena ends the bout");
    assert!(!req.fail);
    assert_eq!(ctx.phase, Phase::Prep);
}
