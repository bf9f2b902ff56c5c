use arena_core::economy::PlayerMoney;
use arena_core::orbs::{
    affix_row, buy_orb_system, upgrade_text, orb_can_buy, orb_popup, preview_rows, Affix, AffixId, AffixRow, Affixes, OrbBehavior,
    OrbDef, OrbFlowState, OrbId, OrbPopupKind, OrbRegistry, SpellSlot,
};
use arena_core::runes::{
    finish_drop, peek_rune, place_rune, rune_name, stats_grids, tier_label, tooltip_rune, Tier, price_label, reconcile_rune_entities, rune_at, start_drag, take_rune,
    DragStart, DropOutcome, HexCoord, JokerSlots, Rune, RuneGrid, RuneKind, RuneSource, ShopOffer,
};
use arena_core::wave::{
    apply_wave_config, spawn_batch, contains_kind, enemy_toggle_label, fill_pool, EnemySpawnPool, InvulnerableStack, MobKind,
    MobUnlocks, WaveBalance, WaveDef, WaveState, WavesConfig,
};

fn rune(id: u32, cost: u32) -> Rune {
    Rune { id, cost, kind: Some(RuneKind::Spike), joker: false }
}

fn hex(q: i32, r: i32) -> HexCoord {
    HexCoord { q, r }
}

fn config(variety: u32) -> WavesConfig {
    WavesConfig {
        mob_unlocks: MobUnlocks { phantom: 1, tower: 1, slime_small: 3, spinner: 0, jumper: 2 },
        waves: vec![
            WaveDef { enemy_variety: 1, max_concurrent: 4 },
            WaveDef { enemy_variety: 2, max_concurrent: 6 },
            WaveDef { enemy_variety: variety, max_concurrent: 9 },
        ],
    }
}

#[test]
fn invulnerability_stacks() {
    let mut s = InvulnerableStack(0);
    s.increment();
    s.increment();
    assert!(!s.decrement());
    assert!(s.decrement());
    assert!(s.decrement());
    assert_eq!(s.0, 0);
}

#[test]
fn wave_settings_clamp() {
    let cfg = config(3);
    assert_eq!(cfg.for_wave(0).max_concurrent, 4);
    assert_eq!(cfg.for_wave(1).max_concurrent, 4);
    assert_eq!(cfg.for_wave(2).max_concurrent, 6);
    assert_eq!(cfg.for_wave(3).max_concurrent, 9);
    assert_eq!(cfg.for_wave(50).max_concurrent, 9);
    assert_eq!(cfg.unlock_wave(MobKind::Jumper), 2);
    assert_eq!(cfg.unlock_wave(MobKind::Spinner), 0);
}

#[test]
fn pool_candidates_split_fresh_from_rest() {
    let cfg = config(3);
    let (fresh, rest) = cfg.pool_candidates(3);
    assert_eq!(fresh, vec![MobKind::SlimeSmall, MobKind::Jumper]);
    assert_eq!(rest, vec![MobKind::Phantom, MobKind::Tower]);
    let (fresh1, rest1) = cfg.pool_candidates(1);
    assert_eq!(fresh1, vec![MobKind::Phantom, MobKind::Tower]);
    assert!(rest1.is_empty());
    let (fresh0, rest0) = cfg.pool_candidates(0);
    assert!(fresh0.is_empty() && rest0.is_empty());
}

#[test]
fn fill_pool_takes_what_variety_lacks() {
    let picked = vec![MobKind::SlimeSmall];
    let others = vec![MobKind::Tower, MobKind::Phantom, MobKind::Jumper];
    assert_eq!(fill_pool(picked.clone(), others.clone(), 3), vec![MobKind::SlimeSmall, MobKind::Tower, MobKind::Phantom]);
    assert_eq!(fill_pool(picked.clone(), others.clone(), 0), vec![MobKind::SlimeSmall]);
    assert_eq!(fill_pool(picked, others, 10).len(), 4);
}

#[test]
fn resolved_pool_keeps_fresh_kinds_and_draws_the_rest() {
    let cfg = config(3);
    let mut rng = rand::rng();
    for _ in 0..20 {
        let pool = cfg.resolve_pool(3, &mut rng);
        assert_eq!(pool.len(), 3);
        assert_eq!(pool[0], MobKind::SlimeSmall);
        assert_eq!(pool[1], MobKind::Jumper);
        assert!(pool[2] == MobKind::Phantom || pool[2] == MobKind::Tower);
    }
    let wide = config(10);
    let pool = wide.resolve_pool(3, &mut rng);
    assert_eq!(pool.len(), 4);
    for k in [MobKind::SlimeSmall, MobKind::Jumper, MobKind::Phantom, MobKind::Tower] {
        assert!(contains_kind(&pool, k));
    }
    assert!(!contains_kind(&pool, MobKind::Spinner));
}

#[test]
fn spawn_pool_switches() {
    let mut pool = EnemySpawnPool::default();
    assert_eq!(pool.active_kinds(), vec![MobKind::Phantom, MobKind::Tower, MobKind::SlimeSmall, MobKind::Spinner, MobKind::Jumper]);
    assert_eq!(pool.toggle(1), Some((MobKind::Tower, false)));
    assert_eq!(pool.toggle(9), None);
    assert!(!contains_kind(&pool.active_kinds(), MobKind::Tower));
    pool.set_all(false);
    assert!(pool.active_kinds().is_empty());
    let mut rng = rand::rng();
    assert_eq!(pool.pick_kind(&mut rng), None);
    pool.set_active(&vec![MobKind::Spinner]);
    assert_eq!(pool.enabled.len(), 5);
    assert_eq!(pool.enabled[3], (MobKind::Spinner, true));
    for _ in 0..10 {
        assert_eq!(pool.pick_kind(&mut rng), Some(MobKind::Spinner));
    }
    pool.set_active(&vec![MobKind::Phantom, MobKind::Jumper]);
    for _ in 0..10 {
        let k = pool.pick_kind(&mut rng).unwrap();
        assert!(k == MobKind::Phantom || k == MobKind::Jumper);
    }
    pool.set_all(true);
    assert_eq!(pool.active_kinds().len(), 5);
}

#[test]
fn wave_counts() {
    let mut s = WaveState::new(&WaveBalance { start_enemies: 3 });
    assert_eq!(s.spawn_deficit(), 3);
    s.record_spawn();
    s.record_spawn();
    assert_eq!(s.spawned_count, 2);
    assert_eq!(s.summoning_count, 2);
    assert_eq!(s.spawn_deficit(), 1);
    s.record_spawn();
    assert_eq!(s.spawn_deficit(), 0);
    s.track_kills(&vec![true, false, true]);
    assert_eq!(s.killed_count, 2);
    assert_eq!(s.spawn_deficit(), 2);
    s.max_concurrent = 0;
    assert_eq!(s.spawn_deficit(), 0);
}

#[test]
fn wave_config_applies_cap_and_pool() {
    let cfg = config(3);
    let mut state = WaveState::new(&WaveBalance { start_enemies: 1 });
    state.record_spawn();
    let mut pool = EnemySpawnPool::default();
    apply_wave_config(3, &cfg, &mut state, &mut pool);
    assert_eq!(state.max_concurrent, 9);
    assert_eq!(state.spawned_count, 1);
    let active = pool.active_kinds();
    assert_eq!(active.len(), 3);
    assert!(contains_kind(&active, MobKind::SlimeSmall));
    assert!(contains_kind(&active, MobKind::Jumper));
    assert!(!contains_kind(&active, MobKind::Spinner));
}

#[test]
fn enemy_toggle_labels() {
    assert_eq!(enemy_toggle_label("Tower", true), "[x] Tower");
    assert_eq!(enemy_toggle_label("Tower", false), "[  ] Tower");
}

#[test]
fn grid_holds_one_rune_per_cell() {
    let mut g = RuneGrid::new();
    assert_eq!(g.get(hex(0, 0)), None);
    g.insert(hex(0, 0), rune(1, 3));
    g.insert(hex(1, -1), rune(2, 4));
    g.insert(hex(0, 0), rune(3, 5));
    assert_eq!(g.cells().len(), 2);
    assert_eq!(g.get(hex(0, 0)), Some(rune(3, 5)));
    assert_eq!(g.remove(hex(0, 0)), Some(rune(3, 5)));
    assert_eq!(g.remove(hex(0, 0)), None);
    assert_eq!(g.get(hex(1, -1)), Some(rune(2, 4)));
}

#[test]
fn take_then_put_back_restores_the_board() {
    let mut shop = ShopOffer { stubs: vec![Some(rune(1, 3)), None] };
    let mut grid = RuneGrid::new();
    grid.insert(hex(2, 0), rune(2, 1));
    let mut jokers = JokerSlots { stubs: vec![None] };
    let src = RuneSource::Grid(hex(2, 0));
    let taken = take_rune(src, &mut shop, &mut grid, &mut jokers).unwrap();
    assert_eq!(peek_rune(src, &shop, &grid, &jokers), None);
    place_rune(src, taken, &mut shop, &mut grid, &mut jokers);
    assert_eq!(peek_rune(src, &shop, &grid, &jokers), Some(rune(2, 1)));
    assert_eq!(take_rune(RuneSource::Shop(0), &mut shop, &mut grid, &mut jokers), Some(rune(1, 3)));
    assert_eq!(shop.stubs, vec![None, None]);
    assert_eq!(rune_at(RuneSource::Joker(7), &shop, &grid, &jokers), None);
    assert_eq!(price_label(&ShopOffer { stubs: vec![Some(rune(1, 3)), None] }, 0), Some(3));
    assert_eq!(price_label(&ShopOffer { stubs: vec![Some(rune(1, 3)), None] }, 1), None);
    assert_eq!(price_label(&ShopOffer { stubs: vec![] }, 0), None);
}

#[test]
fn dragging_a_shop_rune_needs_coins() {
    let mut shop = ShopOffer { stubs: vec![Some(rune(1, 5)), None] };
    let mut grid = RuneGrid::new();
    let mut jokers = JokerSlots { stubs: vec![] };
    let poor = PlayerMoney(4);
    assert_eq!(start_drag(RuneSource::Shop(0), &poor, &mut shop, &mut grid, &mut jokers), DragStart::TooExpensive);
    assert_eq!(shop.stubs[0], Some(rune(1, 5)));
    assert_eq!(start_drag(RuneSource::Shop(1), &poor, &mut shop, &mut grid, &mut jokers), DragStart::Empty);
    let rich = PlayerMoney(5);
    assert_eq!(start_drag(RuneSource::Shop(0), &rich, &mut shop, &mut grid, &mut jokers), DragStart::Lifted(rune(1, 5)));
    assert_eq!(shop.stubs[0], None);
}

#[test]
fn dropping_buys_places_and_swaps() {
    let mut money = PlayerMoney(10);
    let mut shop = ShopOffer { stubs: vec![None] };
    let mut grid = RuneGrid::new();
    grid.insert(hex(1, 0), rune(7, 2));
    let mut jokers = JokerSlots { stubs: vec![] };
    let bought = rune(1, 4);
    let out = finish_drop(RuneSource::Shop(0), bought, Some(RuneSource::Grid(hex(0, 0))), true, &mut money, &mut shop, &mut grid, &mut jokers);
    assert_eq!(out, DropOutcome::Placed { target: RuneSource::Grid(hex(0, 0)), swapped: false });
    assert_eq!(money.get(), 6);
    assert_eq!(grid.get(hex(0, 0)), Some(bought));
    // A shop rune cannot displace a placed one: it goes back, unpaid.
    let again = rune(2, 1);
    let out = finish_drop(RuneSource::Shop(0), again, Some(RuneSource::Grid(hex(1, 0))), true, &mut money, &mut shop, &mut grid, &mut jokers);
    assert_eq!(out, DropOutcome::Returned);
    assert_eq!(money.get(), 6);
    assert_eq!(shop.stubs[0], Some(again));
    // Grid to grid: the two runes change places.
    let lifted = grid.remove(hex(0, 0)).unwrap();
    let out = finish_drop(RuneSource::Grid(hex(0, 0)), lifted, Some(RuneSource::Grid(hex(1, 0))), true, &mut money, &mut shop, &mut grid, &mut jokers);
    assert_eq!(out, DropOutcome::Placed { target: RuneSource::Grid(hex(1, 0)), swapped: true });
    assert_eq!(grid.get(hex(1, 0)), Some(bought));
    assert_eq!(grid.get(hex(0, 0)), Some(rune(7, 2)));
    // Over nothing: back to the origin.
    let lifted = grid.remove(hex(1, 0)).unwrap();
    let out = finish_drop(RuneSource::Grid(hex(1, 0)), lifted, None, true, &mut money, &mut shop, &mut grid, &mut jokers);
    assert_eq!(out, DropOutcome::Returned);
    assert_eq!(grid.get(hex(1, 0)), Some(bought));
    // A displaced rune that does not fit the origin blocks the swap.
    let lifted = grid.remove(hex(1, 0)).unwrap();
    let out = finish_drop(RuneSource::Grid(hex(1, 0)), lifted, Some(RuneSource::Grid(hex(0, 0))), false, &mut money, &mut shop, &mut grid, &mut jokers);
    assert_eq!(out, DropOutcome::Returned);
    assert_eq!(grid.get(hex(0, 0)), Some(rune(7, 2)));
}

#[test]
fn reconcile_keeps_current_views_only() {
    let shop = ShopOffer { stubs: vec![Some(rune(1, 3)), None, Some(rune(2, 3))] };
    let mut grid = RuneGrid::new();
    grid.insert(hex(0, 0), rune(3, 1));
    let jokers = JokerSlots { stubs: vec![Some(rune(4, 0))] };
    let views = vec![
        (100u64, RuneSource::Shop(0), 1u32),
        (101u64, RuneSource::Shop(1), 9u32),
        (102u64, RuneSource::Grid(hex(0, 0)), 8u32),
        (103u64, RuneSource::Grid(hex(0, 0)), 3u32),
        (104u64, RuneSource::Shop(0), 1u32),
    ];
    let plan = reconcile_rune_entities(&views, &shop, &grid, &jokers);
    assert_eq!(plan.despawn, vec![100, 101, 102]);
    assert_eq!(plan.spawn, vec![(RuneSource::Shop(2), rune(2, 3)), (RuneSource::Joker(0), rune(4, 0))]);
    let empty = reconcile_rune_entities(&vec![], &shop, &grid, &jokers);
    assert!(empty.despawn.is_empty());
    assert_eq!(empty.spawn.len(), 4);
}

fn registry() -> OrbRegistry {
    OrbRegistry {
        defs: vec![
            OrbDef { name: "Alteration".to_string(), description: String::new(), price: 3, behavior: OrbBehavior::Alteration },
            OrbDef { name: "Augment".to_string(), description: String::new(), price: 5, behavior: OrbBehavior::Augmentation },
        ],
    }
}

fn affixes(first: Option<Affix>) -> Affixes {
    Affixes { affixes: [first, None, None, None, None, None] }
}

#[test]
fn buying_orbs() {
    let reg = registry();
    assert_eq!(reg.price(OrbId(1)), Some(5));
    assert_eq!(reg.price(OrbId(2)), None);
    assert_eq!(reg.behavior(OrbId(1)), Some(OrbBehavior::Augmentation));
    let mut flow = OrbFlowState::Idle;
    assert!(orb_can_buy(5, 5, &flow));
    let mut money = PlayerMoney(6);
    buy_orb_system(&mut flow, &mut money, &reg, &vec![OrbId(1), OrbId(0), OrbId(9)]);
    assert_eq!(money.get(), 1);
    assert_eq!(flow, OrbFlowState::SelectSlot { orb_id: OrbId(1) });
    assert!(!orb_can_buy(100, 5, &flow));
    buy_orb_system(&mut flow, &mut money, &reg, &vec![OrbId(0)]);
    assert_eq!(money.get(), 1);
    let mut idle = OrbFlowState::Idle;
    let mut poor = PlayerMoney(2);
    buy_orb_system(&mut idle, &mut poor, &reg, &vec![OrbId(0)]);
    assert_eq!(idle, OrbFlowState::Idle);
    assert_eq!(poor.get(), 2);
}

#[test]
fn orb_flow_preview_accept_cancel() {
    let reg = registry();
    let a = Affix { affix_id: AffixId(4), tier: 0 };
    let up = Affix { affix_id: AffixId(4), tier: 1 };
    let mut flow = OrbFlowState::SelectSlot { orb_id: OrbId(1) };
    assert_eq!(flow.rolling_behavior(&reg), Some(OrbBehavior::Augmentation));
    assert_eq!(orb_popup(&flow, &reg), OrbPopupKind::SlotChoice);
    assert!(flow.select_slot(&reg, 77, SpellSlot(2), affixes(Some(a)), affixes(Some(up))));
    assert_eq!(orb_popup(&flow, &reg), OrbPopupKind::Preview(OrbBehavior::Augmentation));
    assert!(!flow.select_slot(&reg, 78, SpellSlot(2), affixes(None), affixes(None)));
    assert_eq!(flow.accept(), Some((77, affixes(Some(up)))));
    assert_eq!(flow, OrbFlowState::Idle);
    assert_eq!(flow.accept(), None);
    assert_eq!(orb_popup(&flow, &reg), OrbPopupKind::Hidden);
    let mut missing = OrbFlowState::SelectSlot { orb_id: OrbId(5) };
    assert_eq!(missing.rolling_behavior(&reg), None);
    assert!(!missing.select_slot(&reg, 1, SpellSlot(0), affixes(None), affixes(None)));
    missing.cancel();
    assert_eq!(missing, OrbFlowState::Idle);
}

#[test]
fn affix_rows_compare_places() {
    let a = Affix { affix_id: AffixId(4), tier: 0 };
    let up = Affix { affix_id: AffixId(4), tier: 2 };
    let other = Affix { affix_id: AffixId(9), tier: 0 };
    assert_eq!(affix_row(None, None, OrbBehavior::Chaos), AffixRow::Empty);
    assert_eq!(affix_row(None, Some(a), OrbBehavior::Chaos), AffixRow::Added(a));
    assert_eq!(affix_row(Some(a), None, OrbBehavior::Chaos), AffixRow::Removed(a));
    assert_eq!(affix_row(Some(a), Some(a), OrbBehavior::Chaos), AffixRow::Unchanged(a));
    assert_eq!(affix_row(Some(a), Some(up), OrbBehavior::Augmentation), AffixRow::Upgraded { old: a, new: up });
    assert_eq!(affix_row(Some(a), Some(up), OrbBehavior::Chaos), AffixRow::Replaced { old: a, new: up });
    assert_eq!(affix_row(Some(a), Some(other), OrbBehavior::Augmentation), AffixRow::Replaced { old: a, new: other });
    let rows = preview_rows(&affixes(Some(a)), &affixes(Some(other)), OrbBehavior::Alteration);
    assert_eq!(rows.len(), 6);
    assert_eq!(rows[0], AffixRow::Replaced { old: a, new: other });
    assert_eq!(rows[5], AffixRow::Empty);
}

#[test]
fn upgrade_texts() {
    assert_eq!(upgrade_text("+5%", "+8%", 0, 1), "+5%\u{2192}+8% [T1\u{2192}T2]");
    assert_eq!(upgrade_text("", "", 9, 10), "\u{2192} [T10\u{2192}T11]");
}

#[test]
fn stats_panel_grids() {
    let mut grid = RuneGrid::new();
    grid.insert(hex(0, 0), rune(1, 1));
    grid.insert(hex(1, 0), rune(2, 1));
    // Nothing dragged: the grid as it is, no preview.
    let (committed, preview) = stats_grids(&grid, None, Some(RuneSource::Grid(hex(0, 0))));
    assert_eq!(committed.get(hex(0, 0)), Some(rune(1, 1)));
    assert!(preview.is_none());
    // A rune lifted from (0,0) still counts there; dropping it on (1,0) swaps.
    let lifted = grid.remove(hex(0, 0)).unwrap();
    let drag = Some((RuneSource::Grid(hex(0, 0)), lifted));
    let (committed, preview) = stats_grids(&grid, drag, Some(RuneSource::Grid(hex(1, 0))));
    assert_eq!(committed.get(hex(0, 0)), Some(rune(1, 1)));
    let p = preview.unwrap();
    assert_eq!(p.get(hex(1, 0)), Some(rune(1, 1)));
    assert_eq!(p.get(hex(0, 0)), Some(rune(2, 1)));
    // Onto an empty cell: the origin is left empty.
    let (_, preview) = stats_grids(&grid, drag, Some(RuneSource::Grid(hex(5, 5))));
    let p = preview.unwrap();
    assert_eq!(p.get(hex(5, 5)), Some(rune(1, 1)));
    assert_eq!(p.get(hex(0, 0)), None);
    // Back on its own cell, or over the shop: no preview.
    assert!(stats_grids(&grid, drag, Some(RuneSource::Grid(hex(0, 0)))).1.is_none());
    assert!(stats_grids(&grid, drag, Some(RuneSource::Shop(0))).1.is_none());
    assert!(stats_grids(&grid, drag, None).1.is_none());
    // A shop rune over a filled cell: no preview; over an empty one: added.
    let bought = Some((RuneSource::Shop(1), rune(9, 4)));
    assert!(stats_grids(&grid, bought, Some(RuneSource::Grid(hex(1, 0)))).1.is_none());
    let (committed, preview) = stats_grids(&grid, bought, Some(RuneSource::Grid(hex(2, 2))));
    assert_eq!(committed.get(hex(2, 2)), None);
    assert_eq!(preview.unwrap().get(hex(2, 2)), Some(rune(9, 4)));
}

#[test]
fn shop_tooltip_subject() {
    let shop = ShopOffer { stubs: vec![None, Some(rune(2, 3)), Some(rune(3, 3))] };
    let mut grid = RuneGrid::new();
    grid.insert(hex(0, 1), rune(4, 1));
    let held = rune(9, 1);
    assert_eq!(tooltip_rune(Some((held, Some(RuneSource::Grid(hex(2, 2))))), &vec![1], None, &shop, &grid), Some((held, Some(hex(2, 2)))));
    assert_eq!(tooltip_rune(Some((held, Some(RuneSource::Shop(0)))), &vec![], None, &shop, &grid), Some((held, None)));
    assert_eq!(tooltip_rune(None, &vec![0, 7, 2, 1], Some(hex(0, 1)), &shop, &grid), Some((rune(3, 3), None)));
    assert_eq!(tooltip_rune(None, &vec![0], Some(hex(0, 1)), &shop, &grid), Some((rune(4, 1), Some(hex(0, 1)))));
    assert_eq!(tooltip_rune(None, &vec![], Some(hex(5, 5)), &shop, &grid), None);
    assert_eq!(tooltip_rune(None, &vec![], None, &shop, &grid), None);
    assert_eq!(rune_name(RuneKind::HeartStone), "HeartStone");
    assert_eq!(rune_name(RuneKind::Spike), "Spike");
    assert_eq!(tier_label(Tier::Rare), "Rare");
    assert_eq!(tier_label(Tier::Common), "Common");
}

#[test]
fn spawning_fills_the_cap() {
    let mut state = WaveState::new(&WaveBalance { start_enemies: 3 });
    let mut pool = EnemySpawnPool::default();
    pool.set_active(&vec![MobKind::Tower]);
    let mut rng = rand::rng();
    let kinds = spawn_batch(&mut state, &pool, &mut rng);
    assert_eq!(kinds, vec![MobKind::Tower, MobKind::Tower, MobKind::Tower]);
    assert_eq!(state.spawned_count, 3);
    assert_eq!(state.summoning_count, 3);
    assert_eq!(state.spawn_deficit(), 0);
    assert!(spawn_batch(&mut state, &pool, &mut rng).is_empty());
    state.track_kills(&vec![true]);
    assert_eq!(spawn_batch(&mut state, &pool, &mut rng).len(), 1);
    pool.set_all(false);
    state.track_kills(&vec![true, true]);
    assert!(spawn_batch(&mut state, &pool, &mut rng).is_empty());
    assert_eq!(state.spawned_count, 4);
}


fn all_runes(shop: &ShopOffer, grid: &RuneGrid, jokers: &JokerSlots) -> Vec<u32> {
    let mut ids: Vec<u32> = shop.stubs.iter().flatten().map(|r| r.id).collect();
    ids.extend(grid.cells().iter().map(|(_, r)| r.id));
    ids.extend(jokers.stubs.iter().flatten().map(|r| r.id));
    ids.sort();
    ids
}

#[test]
fn a_drag_keeps_every_rune() {
    let mut money = PlayerMoney(20);
    let mut shop = ShopOffer { stubs: vec![Some(rune(1, 2)), Some(rune(2, 2))] };
    let mut grid = RuneGrid::new();
    grid.insert(hex(0, 0), rune(3, 1));
    grid.insert(hex(1, 0), rune(4, 1));
    let mut jokers = JokerSlots { stubs: vec![None] };
    let start = all_runes(&shop, &grid, &jokers);
    // Swap two grid runes.
    let DragStart::Lifted(r) = start_drag(RuneSource::Grid(hex(0, 0)), &money, &mut shop, &mut grid, &mut jokers) else { panic!() };
    finish_drop(RuneSource::Grid(hex(0, 0)), r, Some(RuneSource::Grid(hex(1, 0))), true, &mut money, &mut shop, &mut grid, &mut jokers);
    assert_eq!(all_runes(&shop, &grid, &jokers), start);
    // Buy a shop rune onto an empty cell.
    let DragStart::Lifted(r) = start_drag(RuneSource::Shop(1), &money, &mut shop, &mut grid, &mut jokers) else { panic!() };
    finish_drop(RuneSource::Shop(1), r, Some(RuneSource::Grid(hex(2, 0))), true, &mut money, &mut shop, &mut grid, &mut jokers);
    assert_eq!(all_runes(&shop, &grid, &jokers), start);
    // A refused drop puts the rune back.
    let DragStart::Lifted(r) = start_drag(RuneSource::Shop(0), &money, &mut shop, &mut grid, &mut jokers) else { panic!() };
    finish_drop(RuneSource::Shop(0), r, Some(RuneSource::Grid(hex(0, 0))), true, &mut money, &mut shop, &mut grid, &mut jokers);
    assert_eq!(all_runes(&shop, &grid, &jokers), start);
}
