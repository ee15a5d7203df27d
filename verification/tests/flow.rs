use orber::orb::{Lineage, Orb};
use orber::select::{find_nearest_player, find_orb_by_id, update, SPLIT_OFFSET};
use orber::state::{
    Arena, CombatStep, Context, Phase, PlacedOrb, PointerInput, Selection, Side, OUTLINE_BASE,
};

fn plain(health: i8, damage: i8) -> Orb {
    Orb { health, damage, lineage: Lineage::Empty }
}

fn place(id: u64, side: Side, x: i64, y: i64, orb: Orb) -> PlacedOrb {
    PlacedOrb::new(id, side, x, y, orb)
}

fn prep_ctx() -> Context {
    Context {
        phase: Phase::Prep,
        step: CombatStep::LineUp,
        level: 0,
        selection: None,
        pending: None,
    }
}

fn arena2() -> Arena {
    Arena {
        orbs: vec![
            place(0, Side::Player, 0, 0, plain(1, 2)),
            place(1, Side::Player, 200_000, 0, plain(3, 4)),
        ],
        next_id: 2,
    }
}

fn idle_pointer(x: i64, y: i64) -> PointerInput {
    PointerInput { x, y, dx: 0, dy: 0, held: false, released: false, split: false }
}

#[test]
fn nearest_picks_minimum_distance() {
    let arena = arena2();
    assert_eq!(find_nearest_player(&arena.orbs, 10_000, 0), Some(0));
    assert_eq!(find_nearest_player(&arena.orbs, 190_000, 0), Some(1));
}

#[test]
fn nearest_ignores_enemies() {
    let orbs = vec![
        place(0, Side::Enemy, 0, 0, plain(1, 1)),
        place(1, Side::Player, 500_000, 0, plain(1, 1)),
    ];
    assert_eq!(find_nearest_player(&orbs, 0, 0), Some(1));
    let only_enemies = vec![place(0, Side::Enemy, 0, 0, plain(1, 1))];
    assert_eq!(find_nearest_player(&only_enemies, 0, 0), None);
}

#[test]
fn selection_set_inside_radius() {
    let mut ctx = prep_ctx();
    let mut arena = arena2();
    // 20 units away: inside the 30-unit selection radius
    update(&mut ctx, &mut arena, &idle_pointer(20_000, 0));
    let sel = ctx.selection.as_ref().expect("orb inside the radius is selected");
    assert_eq!(sel.id, 0);
    assert_eq!(sel.dist_sq, 20_000i128 * 20_000);
    assert_eq!(sel.snapshot.health, 1);
    assert_eq!(sel.snapshot.damage, 2);
}

#[test]
fn selection_cleared_outside_radius() {
    let mut ctx = prep_ctx();
    ctx.selection = Some(Selection { id: 0, snapshot: plain(1, 2), dist_sq: 0 });
    let mut arena = arena2();
    // 40 units away from the nearest orb: selection clears
    update(&mut ctx, &mut arena, &idle_pointer(40_000, 0));
    assert!(ctx.selection.is_none());
}

#[test]
fn drag_follows_pointer_with_motion_delta() {
    let mut ctx = prep_ctx();
    ctx.selection = Some(Selection { id: 0, snapshot: plain(1, 2), dist_sq: 0 });
    let mut arena = arena2();
    let inp = PointerInput {
        x: 100_000,
        y: 50_000,
        dx: 7_000,
        dy: 3_000,
        held: true,
        released: false,
        split: false,
    };
    update(&mut ctx, &mut arena, &inp);
    let orb = &arena.orbs[0];
    // a tenth of the way toward the pointer, plus the raw delta with the
    // vertical axis inverted
    assert_eq!(orb.x, 100_000 / 10 + 7_000);
    assert_eq!(orb.y, 50_000 / 10 - 3_000);
    assert!(orb.raised, "the dragged orb is raised in draw order");
}

#[test]
fn tint_blends_selected_toward_highlight() {
    let mut ctx = prep_ctx();
    ctx.selection = Some(Selection { id: 0, snapshot: plain(1, 2), dist_sq: 0 });
    let mut arena = arena2();
    let inp = PointerInput {
        x: 0,
        y: 0,
        dx: 0,
        dy: 0,
        held: true,
        released: false,
        split: false,
    };
    update(&mut ctx, &mut arena, &inp);
    // blend rate 0.05 per tick: 0 + (1000 - 0)/20
    assert_eq!(arena.orbs[0].highlight, 50);
    assert!(arena.orbs[0].raised);
    assert_eq!(arena.orbs[1].highlight, 0);
    assert!(!arena.orbs[1].raised);
}

#[test]
fn combine_ready_widens_outlines() {
    let mut ctx = prep_ctx();
    ctx.selection = Some(Selection { id: 0, snapshot: plain(1, 2), dist_sq: 0 });
    let mut arena = arena2();
    // drag orb 0 with the pointer directly over orb 1
    let inp = PointerInput {
        x: 200_000,
        y: 0,
        dx: 0,
        dy: 0,
        held: true,
        released: false,
        split: false,
    };
    update(&mut ctx, &mut arena, &inp);
    // rate 0.2 toward the 10-unit maximum: 5000 + (10000 - 5000)/5
    assert_eq!(arena.orbs[1].outline, 6_000);
    assert_eq!(arena.orbs[0].outline, 6_000, "the dragged orb widens too");
}

#[test]
fn outlines_relax_when_nothing_is_ready() {
    let mut ctx = prep_ctx();
    ctx.selection = Some(Selection { id: 0, snapshot: plain(1, 2), dist_sq: 0 });
    let mut arena = arena2();
    arena.orbs[1].outline = 10_000;
    // pointer far from the non-selected orb
    let inp = PointerInput {
        x: 0,
        y: 0,
        dx: 0,
        dy: 0,
        held: true,
        released: false,
        split: false,
    };
    update(&mut ctx, &mut arena, &inp);
    assert_eq!(arena.orbs[1].outline, 10_000 - (10_000 - OUTLINE_BASE) / 5);
}

#[test]
fn merge_fuses_stats_and_records_lineage() {
    let mut ctx = prep_ctx();
    let mut arena = arena2();
    arena.orbs[1].x = 10_000; // both orbs under the pointer
    let inp = PointerInput {
        x: 2_000,
        y: 0,
        dx: 0,
        dy: 0,
        held: false,
        released: true,
        split: false,
    };
    update(&mut ctx, &mut arena, &inp);
    assert_eq!(arena.orbs.len(), 1, "both sources despawn");
    let merged = &arena.orbs[0];
    assert_eq!(merged.orb.health, 1 + 3);
    assert_eq!(merged.orb.damage, 2 + 4);
    assert_eq!((merged.x, merged.y), (2_000, 0), "spawned at the pointer");
    assert_eq!(merged.id, 2, "a fresh identity");
    assert_eq!(merged.side, Side::Player);
    match &merged.orb.lineage {
        Lineage::Pair(a, b) => {
            assert_eq!((a.health, a.damage), (1, 2), "nearest candidate first");
            assert_eq!((b.health, b.damage), (3, 4));
        }
        Lineage::Empty => panic!("a merged orb records its lineage"),
    }
    assert!(ctx.selection.is_none(), "a merge clears the selection");
    assert_eq!(arena.next_id, 3);
}

#[test]
fn no_merge_without_second_orb_in_radius() {
    let mut ctx = prep_ctx();
    let mut arena = arena2(); // second orb 200 units away
    let inp = PointerInput {
        x: 0,
        y: 0,
        dx: 0,
        dy: 0,
        held: false,
        released: true,
        split: false,
    };
    update(&mut ctx, &mut arena, &inp);
    assert_eq!(arena.orbs.len(), 2);
    assert_eq!(arena.orbs[0].orb.health, 1);
}

#[test]
fn merge_then_split_restores_both_orbs() {
    // the round trip: merge two orbs, then split the result — the two
    // original orb values come back as independent orbs, at offset
    // positions rather than the originals
    let mut ctx = prep_ctx();
    let mut arena = arena2();
    arena.orbs[1].x = 10_000;
    let release = PointerInput {
        x: 2_000,
        y: 0,
        dx: 0,
        dy: 0,
        held: false,
        released: true,
        split: false,
    };
    update(&mut ctx, &mut arena, &release);
    assert_eq!(arena.orbs.len(), 1);
    // now split: the pointer is over the merged orb, so the idle rule
    // selects it in the same tick the split action fires
    let split = PointerInput {
        x: 2_000,
        y: 0,
        dx: 0,
        dy: 0,
        held: false,
        released: false,
        split: true,
    };
    update(&mut ctx, &mut arena, &split);
    assert_eq!(arena.orbs.len(), 2, "the merged orb splits into two");
    let a = &arena.orbs[0];
    let b = &arena.orbs[1];
    assert_eq!((a.orb.health, a.orb.damage), (1, 2));
    assert_eq!((b.orb.health, b.orb.damage), (3, 4));
    assert!(matches!(a.orb.lineage, Lineage::Empty));
    assert!(matches!(b.orb.lineage, Lineage::Empty));
    assert_eq!((a.x, a.y), (2_000, 0));
    assert_eq!((b.x, b.y), (2_000 + SPLIT_OFFSET, SPLIT_OFFSET));
    assert_eq!(a.side, Side::Player);
    assert_eq!(b.side, Side::Player);
    assert!(ctx.selection.is_none(), "a split clears the selection");
}

#[test]
fn split_is_shallow() {
    // a twice-merged orb splits into its two immediate parents, one of
    // which still carries lineage for a further split
    let inner = Orb {
        health: 3,
        damage: 3,
        lineage: Lineage::Pair(Box::new(plain(1, 1)), Box::new(plain(2, 2))),
    };
    let top = Orb {
        health: 8,
        damage: 8,
        lineage: Lineage::Pair(Box::new(inner), Box::new(plain(5, 5))),
    };
    let mut ctx = prep_ctx();
    let mut arena = Arena { orbs: vec![place(0, Side::Player, 0, 0, top)], next_id: 1 };
    let split = PointerInput {
        x: 0,
        y: 0,
        dx: 0,
        dy: 0,
        held: false,
        released: false,
        split: true,
    };
    update(&mut ctx, &mut arena, &split);
    assert_eq!(arena.orbs.len(), 2);
    assert_eq!(arena.orbs[0].orb.health, 3);
    assert!(matches!(arena.orbs[0].orb.lineage, Lineage::Pair(_, _)));
    assert_eq!(arena.orbs[1].orb.health, 5);
    assert!(matches!(arena.orbs[1].orb.lineage, Lineage::Empty));
}

#[test]
fn split_without_lineage_is_noop() {
    let mut ctx = prep_ctx();
    let mut arena = arena2();
    let split = PointerInput {
        x: 0,
        y: 0,
        dx: 0,
        dy: 0,
        held: false,
        released: false,
        split: true,
    };
    update(&mut ctx, &mut arena, &split);
    assert_eq!(arena.orbs.len(), 2, "the orb count is unchanged");
    assert_eq!(arena.orbs[0].orb.health, 1);
    assert_eq!((arena.orbs[0].x, arena.orbs[0].y), (0, 0));
    assert_eq!(arena.orbs[0].highlight, 0, "no tick processing ran either");
    assert_eq!(arena.next_id, 2);
    let sel = ctx.selection.expect("the freshly updated selection is kept");
    assert_eq!(sel.id, 0);
}

#[test]
fn find_orb_by_id_sees_first_match() {
    let arena = arena2();
    assert_eq!(find_orb_by_id(&arena.orbs, 1), Some(1));
    assert_eq!(find_orb_by_id(&arena.orbs, 9), None);
}

#[test]
fn update_leaves_director_state_alone() {
    let mut ctx = prep_ctx();
    ctx.level = 3;
    let mut arena = arena2();
    update(&mut ctx, &mut arena, &idle_pointer(0, 0));
    assert_eq!(ctx.level, 3);
    assert_eq!(ctx.phase, Phase::Prep);
    assert_eq!(ctx.step, CombatStep::LineUp);
    assert!(ctx.pending.is_none());
}

#[test]
fn selection_kept_when_no_player_orbs() {
    // with no player orb there is no nearest candidate and the idle rule
    // leaves the selection slot as it was
    let mut ctx = prep_ctx();
    ctx.selection = Some(Selection { id: 7, snapshot: plain(1, 1), dist_sq: 0 });
    let mut arena = Arena {
        orbs: vec![place(0, Side::Enemy, 0, 0, plain(1, 1))],
        next_id: 1,
    };
    update(&mut ctx, &mut arena, &idle_pointer(0, 0));
    assert_eq!(ctx.selection.as_ref().map(|s| s.id), Some(7));
}

#[test]
fn no_selection_updates_while_dragging() {
    // while the button is held the idle rule does not run: a stale
    // selection id that matches no orb simply means nothing is dragged
    let mut ctx = prep_ctx();
    ctx.selection = Some(Selection { id: 99, snapshot: plain(1, 1), dist_sq: 0 });
    let mut arena = arena2();
    let inp = PointerInput {
        x: 0,
        y: 0,
        dx: 1_000,
        dy: 0,
        held: true,
        released: false,
        split: false,
    };
    update(&mut ctx, &mut arena, &inp);
    assert_eq!(ctx.selection.as_ref().map(|s| s.id), Some(99));
    assert_eq!((arena.orbs[0].x, arena.orbs[0].y), (0, 0));
}

#[test]
fn selection_not_updated_in_combat() {
    let mut ctx = prep_ctx();
    ctx.phase = Phase::Combat;
    let mut arena = arena2();
    update(&mut ctx, &mut arena, &idle_pointer(0, 0));
    assert!(ctx.selection.is_none());
    // in combat all player outlines relax toward the base width
    assert_eq!(arena.orbs[0].outline, OUTLINE_BASE);
}
