use arena_core::economy::{cheat_money, artifact_can_buy, artifact_rows, sell_price, ArtifactRow, PlayerMoney, RerollState, SelectedArtifactSlot};
use arena_core::names::{format_ability_name, format_stat_name, name_order};
use arena_core::phases::{
    cheat_win_wave, default_hero, dev_double_tap, dev_menu_active, game_over_button, hero_continue, menu_button, pause_button, spells_start,
    toggle_dev_menu, toggle_pause, toggle_shop_dev_menu, CombatChange, CombatPhase, DevTapAction, GameOverButton,
    GameState, MenuButton, PauseButton, TimeCommand, Transition, TransitionAction, WavePhase,
};
use arena_core::stat_text::{
    benefit_color, collect_segments, format_display_value, limit_label, pick_and_format, pick_template, tier_tag,
    DiffSide, FormatSpan, SegColor, Segment, ShownValue, SignMode, StatLineBuilder, StatRenderMode, ValueTemplate,
};
use arena_core::labels::{
    coins_label, life_label, node_header, signed_number_text, number_text, price_tag, reroll_cost_label, reroll_price_label, run_label, sell_label,
    slot_choice_label, stat_name_label, total_coins_label, tree_coins_label, wave_complete_label, wave_label,
};
use arena_core::text::chars_of;
use arena_core::widgets::{
    hover_changed, pointed_target, slider_active, button_lift, choice_look, damage_color, edge_brightness, hover_look, just_released, node_status,
    node_status_suffix, rarity_class, ButtonLift, ChoiceLook, DamageColor, EdgeBrightness, Faction, Interaction,
    NodeStatus, PlainLook, RarityClass,
};

fn template(prefix: &str, suffix: &str, sign_mode: SignMode) -> ValueTemplate {
    ValueTemplate { prefix: prefix.to_string(), suffix: suffix.to_string(), sign_mode }
}

#[test]
fn money_spend_and_earn() {
    let mut m = PlayerMoney(10);
    assert!(m.can_afford(10));
    assert!(!m.can_afford(11));
    assert!(!m.spend(11));
    assert_eq!(m.get(), 10);
    assert!(m.spend(4));
    assert_eq!(m.get(), 6);
    m.earn(5);
    assert_eq!(m.get(), 11);
    m.earn(u32::MAX);
    assert_eq!(m.get(), u32::MAX);
}

#[test]
fn reroll_pays_and_raises_price() {
    let mut money = PlayerMoney(5);
    let mut reroll = RerollState { cost: 2 };
    assert!(reroll.try_reroll(&mut money, false, 1));
    assert_eq!(money.get(), 3);
    assert_eq!(reroll.cost, 3);
    assert!(!reroll.try_reroll(&mut money, true, 1));
    assert_eq!(money.get(), 3);
    assert_eq!(reroll.cost, 3);
    assert!(reroll.try_reroll(&mut money, false, 1));
    assert_eq!(money.get(), 0);
    assert_eq!(reroll.cost, 4);
    assert!(!reroll.try_reroll(&mut money, false, 1));
    assert_eq!(reroll.cost, 4);
    reroll.reset_to(2);
    assert_eq!(reroll.cost, 2);
    let mut rich = PlayerMoney(u32::MAX);
    let mut top = RerollState { cost: u32::MAX - 1 };
    assert!(top.try_reroll(&mut rich, false, 10));
    assert_eq!(top.cost, u32::MAX);
    assert_eq!(rich.get(), 1);
}

#[test]
fn sell_price_rounds_half_up() {
    assert_eq!(sell_price(0), 0);
    assert_eq!(sell_price(1), 1);
    assert_eq!(sell_price(10), 5);
    assert_eq!(sell_price(7), 4);
    assert_eq!(sell_price(u32::MAX), 2147483648);
}

#[test]
fn artifact_buy_and_panel() {
    assert!(artifact_can_buy(5, 5, false));
    assert!(!artifact_can_buy(4, 5, false));
    assert!(!artifact_can_buy(9, 5, true));
    let mut sel = SelectedArtifactSlot(None);
    sel.click(2);
    assert_eq!(sel.0, Some(2));
    sel.click(2);
    assert_eq!(sel.0, None);
    sel.click(1);
    sel.click(3);
    assert_eq!(sel.0, Some(3));
    sel.clear();
    assert_eq!(sel.0, None);
    let equipped = vec![(0usize, 9u32), (3usize, 4u32)];
    let rows = artifact_rows(&equipped, Some(3), true);
    assert_eq!(rows, vec![
        ArtifactRow { slot: 0, selected: false, sell_offer: None },
        ArtifactRow { slot: 3, selected: true, sell_offer: Some(2) },
    ]);
    let outside = artifact_rows(&equipped, Some(3), false);
    assert_eq!(outside[1], ArtifactRow { slot: 3, selected: false, sell_offer: None });
}

#[test]
fn transition_runs_once() {
    let mut t = Transition::Idle;
    t.request(TransitionAction::Game(GameState::Playing));
    assert_eq!(t, Transition::Closing { action: TransitionAction::Game(GameState::Playing) });
    t.request(TransitionAction::Game(GameState::MainMenu));
    assert_eq!(t, Transition::Closing { action: TransitionAction::Game(GameState::Playing) });
    assert_eq!(t.advance(false), None);
    assert_eq!(t.advance(true), Some(TransitionAction::Game(GameState::Playing)));
    assert_eq!(t, Transition::Opening);
    t.request(TransitionAction::Wave(WavePhase::Shop));
    assert_eq!(t, Transition::Opening);
    assert_eq!(t.advance(true), None);
    assert_eq!(t, Transition::Idle);
    assert_eq!(t.advance(true), None);
    assert_eq!(t, Transition::Idle);
}

#[test]
fn pause_and_dev_menu_keys() {
    let pause = CombatChange { next: Some(CombatPhase::Paused), time: Some(TimeCommand::Pause) };
    assert_eq!(toggle_pause(CombatPhase::Running, true), pause);
    assert_eq!(
        toggle_pause(CombatPhase::Paused, true),
        CombatChange { next: Some(CombatPhase::Running), time: Some(TimeCommand::Unpause) }
    );
    assert_eq!(toggle_pause(CombatPhase::DevMenu, true), CombatChange { next: None, time: None });
    assert_eq!(toggle_pause(CombatPhase::Running, false), CombatChange { next: None, time: None });
    assert_eq!(
        toggle_dev_menu(CombatPhase::Running, true, false),
        CombatChange { next: Some(CombatPhase::DevMenu), time: Some(TimeCommand::Pause) }
    );
    assert_eq!(
        toggle_dev_menu(CombatPhase::Paused, true, false),
        CombatChange { next: Some(CombatPhase::DevMenu), time: None }
    );
    assert_eq!(
        toggle_dev_menu(CombatPhase::DevMenu, false, true),
        CombatChange { next: Some(CombatPhase::Running), time: Some(TimeCommand::Unpause) }
    );
    assert_eq!(toggle_dev_menu(CombatPhase::Running, false, true), CombatChange { next: None, time: None });
    assert!(toggle_shop_dev_menu(false, true, false));
    assert!(!toggle_shop_dev_menu(true, true, true));
    assert!(!toggle_shop_dev_menu(true, false, true));
    assert!(toggle_shop_dev_menu(true, false, false));
    assert!(dev_menu_active(Some(CombatPhase::DevMenu), false));
    assert!(dev_menu_active(None, true));
    assert!(!dev_menu_active(Some(CombatPhase::Paused), false));
}

#[test]
fn dev_trigger_double_tap() {
    assert_eq!(
        dev_double_tap(Some(WavePhase::Combat), Some(CombatPhase::Paused)),
        DevTapAction::Combat(CombatChange { next: Some(CombatPhase::DevMenu), time: Some(TimeCommand::Pause) })
    );
    assert_eq!(
        dev_double_tap(Some(WavePhase::Combat), Some(CombatPhase::DevMenu)),
        DevTapAction::Combat(CombatChange { next: Some(CombatPhase::Running), time: Some(TimeCommand::Unpause) })
    );
    assert_eq!(dev_double_tap(Some(WavePhase::Shop), None), DevTapAction::FlipShopMenu);
    assert_eq!(dev_double_tap(Some(WavePhase::ShopDelay), None), DevTapAction::Nothing);
    assert_eq!(dev_double_tap(None, Some(CombatPhase::Running)), DevTapAction::Nothing);
}

#[test]
fn menu_buttons() {
    assert_eq!(pause_button(PauseButton::Continue), (Some(CombatPhase::Running), None, TimeCommand::Unpause));
    assert_eq!(pause_button(PauseButton::EndRun), (None, Some(GameState::MainMenu), TimeCommand::Unpause));
    let mut t = Transition::Idle;
    game_over_button(GameOverButton::MainMenu, &mut t);
    assert_eq!(t, Transition::Closing { action: TransitionAction::Game(GameState::MainMenu) });
    let mut t2 = Transition::Idle;
    assert!(!menu_button(MenuButton::Play, &mut t2));
    assert_eq!(t2, Transition::Closing { action: TransitionAction::Game(GameState::Playing) });
    let mut t3 = Transition::Idle;
    assert!(menu_button(MenuButton::Exit, &mut t3));
    assert_eq!(t3, Transition::Idle);
    let mut busy = Transition::Opening;
    game_over_button(GameOverButton::NewRun, &mut busy);
    assert_eq!(busy, Transition::Opening);
    assert_eq!(hero_continue(Some(1)), Some(GameState::SpellSelection));
    assert_eq!(hero_continue(None), None);
    assert_eq!(spells_start(true), Some(GameState::Playing));
    assert_eq!(spells_start(false), None);
}

#[test]
fn stat_names_are_titled() {
    assert_eq!(format_stat_name("max_life_base"), "Max Life");
    assert_eq!(format_stat_name("attack_speed_more"), "Attack Speed");
    assert_eq!(format_stat_name("crit_chance"), "Crit Chance");
    assert_eq!(format_stat_name("armor__base_x"), "Armor  Base X");
    assert_eq!(format_stat_name("_base"), "");
    assert_eq!(format_ability_name("fire_ball"), "Fire Ball");
    assert_eq!(format_ability_name("nova"), "Nova");
    assert_eq!(format_ability_name(""), "");
}

#[test]
fn display_values() {
    let pct = template("", "%", SignMode::ShowSign);
    assert_eq!(format_display_value(12, &pct), "+12%");
    assert_eq!(format_display_value(0, &pct), "+0%");
    assert_eq!(format_display_value(-7, &pct), "-7%");
    let plain = template("x", "", SignMode::Default);
    assert_eq!(format_display_value(-3, &plain), "x-3");
    assert_eq!(format_display_value(3, &plain), "x3");
    let abs = template("Reduces by ", " pts", SignMode::Absolute);
    assert_eq!(format_display_value(-40, &abs), "Reduces by 40 pts");
    assert_eq!(format_display_value(i32::MIN, &plain), "x-2147483648");
    let neg = Some(template("-", "", SignMode::Absolute));
    assert_eq!(pick_template(true, &pct, &neg).prefix, "-");
    assert_eq!(pick_template(false, &pct, &neg).suffix, "%");
    assert_eq!(pick_template(true, &pct, &None).suffix, "%");
    assert_eq!(benefit_color(true, false), SegColor::Positive);
    assert_eq!(benefit_color(true, true), SegColor::Negative);
    assert_eq!(benefit_color(false, true), SegColor::Positive);
}

#[test]
fn tiers_and_limits() {
    assert_eq!(tier_tag(0), "T1");
    assert_eq!(tier_tag(9), "T10");
    assert_eq!(limit_label(Some(3)), "Max 3");
    assert_eq!(limit_label(None), "\u{221e}");
}

fn shown(plain: i32, percent: i32, negative: bool) -> ShownValue {
    ShownValue { plain, percent, negative, nonnegative: !negative }
}

fn value_span(index: usize, is_percent: bool, lower_is_better: bool) -> FormatSpan {
    FormatSpan::Value {
        index,
        is_percent,
        lower_is_better,
        template: template("", if is_percent { "%" } else { "" }, SignMode::ShowSign),
        negative_template: None,
    }
}

fn label(text: &str) -> FormatSpan {
    FormatSpan::Label(text.to_string())
}

fn pieces(segments: &[Segment]) -> Vec<(String, SegColor)> {
    segments.iter().map(|s| (s.text.clone(), s.color)).collect()
}

fn piece(text: &str, color: SegColor) -> (String, SegColor) {
    (text.to_string(), color)
}

#[test]
fn values_pick_their_template() {
    let t = template("", "", SignMode::ShowSign);
    let neg = Some(template("Reduces by ", "", SignMode::Absolute));
    assert_eq!(pick_and_format(shown(-3, -300, true), &t, &neg, false), "Reduces by 3");
    assert_eq!(pick_and_format(shown(0, -20, true), &t, &neg, true), "Reduces by 20");
    assert_eq!(pick_and_format(shown(2, 150, false), &t, &neg, true), "+150");
    assert_eq!(pick_and_format(shown(-3, -300, true), &t, &None, false), "-3");
}

#[test]
fn fixed_and_range_lines() {
    let spans = vec![value_span(0, true, false), label(" damage, "), value_span(1, false, true), label(" cost")];
    let fixed = StatRenderMode::Fixed { values: vec![shown(0, 25, false)] };
    assert_eq!(pieces(&collect_segments(&spans, &fixed)), vec![
        piece("+25%", SegColor::Positive),
        piece(" damage, ", SegColor::Text),
        piece("+0", SegColor::Negative),
        piece(" cost", SegColor::Text),
    ]);
    let range = StatRenderMode::Range { ranges: vec![(shown(0, -10, true), shown(0, 30, false))] };
    assert_eq!(pieces(&collect_segments(&vec![value_span(0, true, false)], &range)), vec![
        piece("-10%", SegColor::Negative),
        piece(" - ", SegColor::Text),
        piece("+30%", SegColor::Positive),
    ]);
    assert_eq!(StatLineBuilder::format_to_string(&spans, &vec![shown(0, 25, false), shown(-4, -400, true)]), "+25% damage, -4 cost");
    assert_eq!(StatLineBuilder::format_to_string(&vec![], &vec![]), "");
}

#[test]
fn diff_lines() {
    let spans = vec![label("Life "), value_span(0, false, false)];
    let side = |v: i32, tier: usize| DiffSide { values: vec![shown(v, v * 100, v < 0)], tier };
    let empty = StatRenderMode::Diff { old: None, new: None, rerolled: false, values_differ: false };
    assert_eq!(pieces(&collect_segments(&spans, &empty)), vec![piece("[empty]", SegColor::Gray)]);
    let added = StatRenderMode::Diff { old: None, new: Some(side(5, 0)), rerolled: false, values_differ: false };
    assert_eq!(pieces(&collect_segments(&spans, &added)), vec![
        piece("Life ", SegColor::Positive),
        piece("+5", SegColor::Positive),
        piece(" [T1]", SegColor::Positive),
    ]);
    let lost = StatRenderMode::Diff { old: Some(side(5, 2)), new: None, rerolled: false, values_differ: false };
    assert_eq!(pieces(&collect_segments(&spans, &lost))[2], piece(" [T3]", SegColor::Negative));
    let changed = StatRenderMode::Diff { old: Some(side(5, 0)), new: Some(side(8, 1)), rerolled: false, values_differ: true };
    assert_eq!(pieces(&collect_segments(&spans, &changed)), vec![
        piece("Life ", SegColor::Text),
        piece("+5", SegColor::Negative),
        piece(" -> ", SegColor::Text),
        piece("+8", SegColor::Positive),
        piece(" [", SegColor::Text),
        piece("T1", SegColor::Negative),
        piece("->", SegColor::Text),
        piece("T2", SegColor::Positive),
        piece("]", SegColor::Text),
    ]);
    let same_tier = StatRenderMode::Diff { old: Some(side(5, 1)), new: Some(side(6, 1)), rerolled: false, values_differ: true };
    assert_eq!(pieces(&collect_segments(&spans, &same_tier)).last().unwrap(), &piece(" [T2]", SegColor::Text));
    let rerolled = StatRenderMode::Diff { old: Some(side(5, 0)), new: Some(side(5, 0)), rerolled: true, values_differ: false };
    assert_eq!(pieces(&collect_segments(&spans, &rerolled)), vec![
        piece("Life ", SegColor::Gold),
        piece("+5", SegColor::Gold),
        piece(" [T1]", SegColor::Gold),
    ]);
    let kept = StatRenderMode::Diff { old: Some(side(5, 0)), new: Some(side(5, 0)), rerolled: false, values_differ: false };
    assert_eq!(pieces(&collect_segments(&spans, &kept))[1], piece("+5", SegColor::Text));
}

#[test]
fn effective_and_snapshot_lines() {
    let spans = vec![value_span(0, false, false), value_span(1, false, false)];
    let mode = StatRenderMode::Effective {
        effective: vec![shown(12, 1200, false), shown(3, 300, false)],
        raw: vec![shown(10, 1000, false), shown(3, 300, false)],
        differs: vec![true, false],
    };
    assert_eq!(pieces(&collect_segments(&spans, &mode)), vec![
        piece("+12", SegColor::Positive),
        piece(" (", SegColor::Gray),
        piece("+10", SegColor::Gray),
        piece(")", SegColor::Gray),
        piece("+3", SegColor::Text),
    ]);
    let one = vec![value_span(0, false, true)];
    let snap = StatRenderMode::Snapshot { current: shown(4, 400, false), preview: Some(shown(6, 600, false)), changed: true, rises: true };
    assert_eq!(pieces(&collect_segments(&one, &snap)), vec![
        piece("+4", SegColor::Text),
        piece(" \u{2192} ", SegColor::Text),
        piece("+6", SegColor::Negative),
    ]);
    let still = StatRenderMode::Snapshot { current: shown(4, 400, false), preview: Some(shown(4, 400, false)), changed: false, rises: false };
    assert_eq!(pieces(&collect_segments(&one, &still)), vec![piece("+4", SegColor::Text)]);
    let none = StatRenderMode::Snapshot { current: shown(4, 400, false), preview: None, changed: true, rises: true };
    assert_eq!(collect_segments(&one, &none).len(), 1);
}

#[test]
fn widget_rules() {
    assert!(just_released(Interaction::Pressed, Interaction::Hovered, false));
    assert!(!just_released(Interaction::Pressed, Interaction::Idle, false));
    assert!(just_released(Interaction::Pressed, Interaction::Idle, true));
    assert!(!just_released(Interaction::Hovered, Interaction::Hovered, true));
    assert_eq!(button_lift(Interaction::Pressed), ButtonLift::Down);
    assert_eq!(button_lift(Interaction::Hovered), ButtonLift::Up);
    assert_eq!(button_lift(Interaction::Idle), ButtonLift::Rest);
    assert_eq!(choice_look(Interaction::Hovered, true), ChoiceLook::SelectedHovered);
    assert_eq!(choice_look(Interaction::Idle, false), ChoiceLook::Normal);
    assert_eq!(choice_look(Interaction::Pressed, false), ChoiceLook::Selected);
    assert_eq!(hover_look(Interaction::Pressed), None);
    assert_eq!(hover_look(Interaction::Hovered), Some(PlainLook::Hovered));
    assert_eq!(node_status(true, false, false), NodeStatus::Start);
    assert_eq!(node_status(false, true, true), NodeStatus::Allocated);
    assert_eq!(node_status(false, false, true), NodeStatus::Available);
    assert_eq!(node_status(false, false, false), NodeStatus::Locked);
    assert_eq!(node_status_suffix(true, true), " (Learned)");
    assert_eq!(node_status_suffix(false, true), " (Available)");
    assert_eq!(node_status_suffix(false, false), "");
    assert_eq!(edge_brightness(true, true, false, false), EdgeBrightness::Bright);
    assert_eq!(edge_brightness(true, false, false, true), EdgeBrightness::Medium);
    assert_eq!(edge_brightness(false, false, true, true), EdgeBrightness::Dim);
    assert_eq!(rarity_class(0), RarityClass::Common);
    assert_eq!(rarity_class(3), RarityClass::Epic);
    assert_eq!(rarity_class(200), RarityClass::Common);
    assert_eq!(damage_color(Faction::Enemy, true), DamageColor::Yellow);
    assert_eq!(damage_color(Faction::Player, true), DamageColor::Red);
    assert_eq!(damage_color(Faction::Enemy, false), DamageColor::White);
}


#[test]
fn label_texts() {
    assert_eq!(price_tag("Iron Ring", 12), "Iron Ring - 12g");
    assert_eq!(slot_choice_label("Q", "Fire Ball"), "Q - Fire Ball");
    assert_eq!(wave_label(3), "Wave 3");
    assert_eq!(wave_complete_label(10), "Wave 10 Complete!");
    assert_eq!(total_coins_label(0), "Total: 0 coins");
    assert_eq!(coins_label(4294967295), "Coins: 4294967295");
    assert_eq!(reroll_price_label(2), "Reroll - 2g");
    assert_eq!(reroll_cost_label(5), "Reroll (5)");
    assert_eq!(sell_label(7), "Sell 7g");
    assert_eq!(run_label(1), "Run 1");
    assert_eq!(tree_coins_label(30, 5), "Coins: 30 (node: 5g)");
    assert_eq!(number_text(100), "100");
    assert_eq!(node_header(4, (-2, 13)), "Node #4 (-2, 13)");
    assert_eq!(node_header(0, (i32::MIN, 0)), "Node #0 (-2147483648, 0)");
    assert_eq!(stat_name_label(Some("life")), "life:");
    assert_eq!(stat_name_label(None), "?:");
    assert_eq!(life_label(37, 100), "Life: 37/100");
    assert_eq!(life_label(-1, 0), "Life: -1/0");
    assert_eq!(signed_number_text(-15), "-15");
    assert_eq!(signed_number_text(0), "0");
    assert_eq!(chars_of("h\u{e9}!"), vec!['h', '\u{e9}', '!']);
}

#[test]
fn tooltip_hover_tracking() {
    let targets = vec![(3usize, 30u64, Interaction::Idle), (5, 50, Interaction::Hovered), (6, 60, Interaction::Pressed)];
    assert_eq!(pointed_target(&targets), Some((5, 50)));
    assert_eq!(pointed_target(&vec![(1, 10, Interaction::Idle)]), None);
    assert_eq!(pointed_target(&vec![(1, 10, Interaction::Pressed)]), Some((1, 10)));
    let mut last = None;
    assert!(hover_changed(&mut last, Some((5, 50))));
    assert!(!hover_changed(&mut last, Some((5, 50))));
    assert!(hover_changed(&mut last, Some((5, 51))));
    assert!(hover_changed(&mut last, None));
    assert_eq!(last, None);
    assert!(!hover_changed(&mut last, None));
}


#[test]
fn dev_menu_cheats() {
    let mut money = PlayerMoney(5);
    cheat_money(&mut money, 2);
    assert_eq!(money.get(), 2005);
    cheat_money(&mut money, 0);
    assert_eq!(money.get(), 2005);
    let mut rich = PlayerMoney(u32::MAX - 10);
    cheat_money(&mut rich, 3);
    assert_eq!(rich.get(), u32::MAX);
    let mut t = Transition::Idle;
    assert_eq!(cheat_win_wave(&mut t), (CombatPhase::Running, TimeCommand::Unpause));
    assert_eq!(t, Transition::Closing { action: TransitionAction::Wave(WavePhase::Shop) });
    assert!(slider_active(Interaction::Pressed, false));
    assert!(slider_active(Interaction::Hovered, true));
    assert!(!slider_active(Interaction::Hovered, false));
    assert!(!slider_active(Interaction::Idle, true));
}


#[test]
fn hero_screen_defaults_and_order() {
    assert_eq!(default_hero(None, 3), Some(0));
    assert_eq!(default_hero(Some(2), 3), Some(0));
    assert_eq!(default_hero(Some(2), 0), Some(2));
    assert_eq!(default_hero(None, 0), None);
    let names: Vec<String> = ["speed", "armor", "life", "armor", "Zeal", "arm", ""].iter().map(|s| s.to_string()).collect();
    assert_eq!(name_order(&names), vec![6, 4, 5, 1, 3, 2, 0]);
    assert!(name_order(&vec![]).is_empty());
}
