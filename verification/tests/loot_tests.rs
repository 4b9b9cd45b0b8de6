use game_shared::loot::{
    aoe_loot, assign_loot, resolve_need_greed, sparkle_corpses, LootDrop, LootMode,
    LootRollChoice, LootRollEntry, LootSlotState, LootWindow, RollWindow,
};

/// A window holding one item (as a guaranteed single drop rolls it) and some gold.
fn make_simple_window(entity: u64, item_id: u32, gold: u32) -> LootWindow {
    LootWindow::from_drops(entity, &[LootDrop { item_id, count: 1 }], gold)
}

fn three_drops() -> Vec<LootDrop> {
    vec![
        LootDrop { item_id: 100, count: 1 },
        LootDrop { item_id: 200, count: 1 },
        LootDrop { item_id: 300, count: 1 },
    ]
}

#[test]
fn need_beats_greed() {
    let entries = vec![
        LootRollEntry {
            player_id: 1,
            choice: LootRollChoice::Greed,
            roll_value: 99,
        },
        LootRollEntry {
            player_id: 2,
            choice: LootRollChoice::Need,
            roll_value: 10,
        },
    ];
    assert_eq!(resolve_need_greed(&entries), Some(2));
}

#[test]
fn highest_need_wins() {
    let entries = vec![
        LootRollEntry {
            player_id: 1,
            choice: LootRollChoice::Need,
            roll_value: 50,
        },
        LootRollEntry {
            player_id: 2,
            choice: LootRollChoice::Need,
            roll_value: 80,
        },
    ];
    assert_eq!(resolve_need_greed(&entries), Some(2));
}

#[test]
fn greed_if_no_need() {
    let entries = vec![
        LootRollEntry {
            player_id: 1,
            choice: LootRollChoice::Greed,
            roll_value: 30,
        },
        LootRollEntry {
            player_id: 2,
            choice: LootRollChoice::Greed,
            roll_value: 70,
        },
        LootRollEntry {
            player_id: 3,
            choice: LootRollChoice::Pass,
            roll_value: 99,
        },
    ];
    assert_eq!(resolve_need_greed(&entries), Some(2));
}

#[test]
fn all_pass_returns_none() {
    let entries = vec![
        LootRollEntry {
            player_id: 1,
            choice: LootRollChoice::Pass,
            roll_value: 50,
        },
        LootRollEntry {
            player_id: 2,
            choice: LootRollChoice::Pass,
            roll_value: 80,
        },
    ];
    assert_eq!(resolve_need_greed(&entries), None);
}

#[test]
fn assign_ffa_goes_to_looter() {
    assert_eq!(assign_loot(LootMode::FreeForAll, 42, 0, &[]), Some(42));
}

#[test]
fn assign_round_robin() {
    assert_eq!(assign_loot(LootMode::RoundRobin, 42, 7, &[]), Some(7));
}

#[test]
fn assign_personal_goes_to_looter() {
    assert_eq!(assign_loot(LootMode::PersonalLoot, 42, 0, &[]), Some(42));
}

#[test]
fn assign_need_greed_uses_rolls() {
    let rolls = vec![
        LootRollEntry {
            player_id: 1,
            choice: LootRollChoice::Need,
            roll_value: 60,
        },
        LootRollEntry {
            player_id: 2,
            choice: LootRollChoice::Greed,
            roll_value: 90,
        },
    ];
    assert_eq!(
        assign_loot(LootMode::NeedBeforeGreed, 0, 0, &rolls),
        Some(1)
    );
}

#[test]
fn sparkle_on_unlooted_corpse() {
    let w = make_simple_window(1, 100, 50);
    let windows: Vec<(u64, &LootWindow)> = vec![(1, &w)];
    let sparkles = sparkle_corpses(&windows);
    assert_eq!(sparkles.len(), 1);
    assert_eq!(sparkles[0].corpse, 1);
}

#[test]
fn no_sparkle_on_fully_looted() {
    let mut w = make_simple_window(1, 100, 50);
    w.loot_item(0);
    w.loot_gold();
    let windows: Vec<(u64, &LootWindow)> = vec![(1, &w)];
    let sparkles = sparkle_corpses(&windows);
    assert!(sparkles.is_empty());
}

#[test]
fn sparkle_mixed_looted_and_not() {
    let w1 = make_simple_window(1, 100, 50);
    let mut w2 = make_simple_window(2, 200, 30);
    w2.loot_item(0);
    w2.loot_gold();
    let windows: Vec<(u64, &LootWindow)> = vec![(1, &w1), (2, &w2)];
    let sparkles = sparkle_corpses(&windows);
    assert_eq!(sparkles.len(), 1);
    assert_eq!(sparkles[0].corpse, 1);
}

#[test]
fn roll_window_auto_passes_non_equippable() {
    let item = LootDrop {
        item_id: 100,
        count: 1,
    };
    let window = RollWindow::new(item, &[1, 2, 3], &[1, 3]); // 2 can't equip
    assert_eq!(window.pending_players, vec![1, 3]);
    assert_eq!(window.responses.len(), 1); // player 2 auto-passed
    assert_eq!(window.responses[0].player_id, 2);
    assert_eq!(window.responses[0].choice, LootRollChoice::Pass);
}

#[test]
fn roll_window_respond_and_complete() {
    let item = LootDrop {
        item_id: 100,
        count: 1,
    };
    let mut window = RollWindow::new(item, &[1, 2], &[1, 2]);
    assert!(!window.is_complete());

    assert!(window.respond(1, LootRollChoice::Need, 80));
    assert!(!window.is_complete());

    assert!(window.respond(2, LootRollChoice::Greed, 90));
    assert!(window.is_complete());

    assert_eq!(window.resolve(), Some(1)); // Need beats Greed
}

#[test]
fn roll_window_reject_duplicate_response() {
    let item = LootDrop {
        item_id: 100,
        count: 1,
    };
    let mut window = RollWindow::new(item, &[1], &[1]);
    assert!(window.respond(1, LootRollChoice::Need, 50));
    assert!(!window.respond(1, LootRollChoice::Greed, 99)); // already responded
}

#[test]
fn roll_window_all_pass_returns_none() {
    let item = LootDrop {
        item_id: 100,
        count: 1,
    };
    let mut window = RollWindow::new(item, &[1, 2], &[1, 2]);
    window.respond(1, LootRollChoice::Pass, 0);
    window.respond(2, LootRollChoice::Pass, 0);
    assert_eq!(window.resolve(), None);
}

// --- Loot window ---

#[test]
fn generate_loot_window() {
    let window = LootWindow::from_drops(42, &three_drops(), 500);
    assert_eq!(window.source, 42);
    assert_eq!(window.slots.len(), 3);
    assert_eq!(window.gold, 500);
    assert!(!window.gold_looted);
    assert!(!window.is_fully_looted());
    assert!(window.slots.iter().all(|s| s.state == LootSlotState::Available));
}

#[test]
fn loot_item_from_window() {
    let mut window = LootWindow::from_drops(1, &three_drops(), 0);
    let item = window.loot_item(0).unwrap();
    assert_eq!(item.item_id, 100);
    assert_eq!(window.available_count(), 2);
    assert!(window.loot_item(0).is_none());
}

#[test]
fn loot_gold_from_window() {
    let mut window = LootWindow::from_drops(1, &[], 1000);
    assert_eq!(window.loot_gold(), Some(1000));
    assert!(window.loot_gold().is_none());
}

#[test]
fn zero_gold_cannot_be_looted() {
    let mut window = LootWindow::from_drops(1, &[], 0);
    assert!(window.loot_gold().is_none());
    assert!(!window.gold_looted);
    assert!(window.is_fully_looted());
}

#[test]
fn fully_looted_check() {
    let mut window = make_simple_window(1, 100, 50);
    assert!(!window.is_fully_looted());
    window.loot_item(0);
    assert!(!window.is_fully_looted());
    window.loot_gold();
    assert!(window.is_fully_looted());
}

#[test]
fn empty_loot_window_is_fully_looted() {
    let window = LootWindow::from_drops(1, &[], 0);
    assert!(window.is_fully_looted());
}

#[test]
fn loot_item_out_of_bounds() {
    let mut window = LootWindow::from_drops(1, &[], 0);
    assert!(window.loot_item(99).is_none());
}

#[test]
fn sparkle_gold_only_corpse() {
    let w = LootWindow::from_drops(1, &[], 100);
    let windows: Vec<(u64, &LootWindow)> = vec![(1, &w)];
    assert_eq!(sparkle_corpses(&windows).len(), 1);
}

// --- AoE loot (the caller passes the corpses within the loot radius) ---

#[test]
fn aoe_loot_collects_nearby() {
    let mut windows = vec![(1, make_simple_window(1, 100, 50)), (2, make_simple_window(2, 200, 30))];
    let result = aoe_loot(&mut windows, &[1, 2]);
    assert_eq!(result.items.len(), 2);
    assert_eq!(result.gold, 80);
    assert_eq!(result.fully_looted.len(), 2);
    assert!(windows.iter().all(|(_, w)| w.is_fully_looted()));
}

#[test]
fn aoe_loot_skips_out_of_range() {
    let mut windows = vec![(1, make_simple_window(1, 100, 50)), (2, make_simple_window(2, 200, 30))];
    let result = aoe_loot(&mut windows, &[1]);
    assert_eq!(result.items.len(), 1);
    assert_eq!(result.items[0].item_id, 100);
    assert_eq!(result.gold, 50);
    assert_eq!(result.fully_looted, vec![1]);
    assert_eq!(windows[1].1.available_count(), 1);
}

#[test]
fn aoe_loot_empty_no_corpses() {
    let mut windows: Vec<(u64, LootWindow)> = vec![];
    let result = aoe_loot(&mut windows, &[]);
    assert!(result.items.is_empty());
    assert_eq!(result.gold, 0);
}

#[test]
fn aoe_loot_already_looted_skipped() {
    let mut w1 = make_simple_window(1, 100, 50);
    w1.loot_item(0);
    w1.loot_gold();
    let mut windows = vec![(1, w1)];
    let result = aoe_loot(&mut windows, &[1]);
    assert!(result.items.is_empty());
    assert_eq!(result.gold, 0);
    assert_eq!(result.fully_looted, vec![1]);
}

// --- Roll window ---

#[test]
fn roll_window_timeout_auto_passes() {
    let item = LootDrop { item_id: 100, count: 1 };
    let mut window = RollWindow::new(item, &[1, 2, 3], &[1, 2, 3]);
    window.respond(1, LootRollChoice::Need, 50);
    window.auto_pass_remaining();
    assert!(window.is_complete());
    assert_eq!(window.responses.len(), 3);
    assert_eq!(window.resolve(), Some(1));
}

#[test]
fn roll_window_respond_moves_last_pending_into_place() {
    let item = LootDrop { item_id: 100, count: 1 };
    let mut window = RollWindow::new(item, &[1, 2, 3], &[1, 2, 3]);
    assert!(window.respond(1, LootRollChoice::Greed, 20));
    assert_eq!(window.pending_players, vec![3, 2]);
    assert!(!window.respond(9, LootRollChoice::Need, 20));
}

#[test]
fn tie_goes_to_later_roll() {
    let entries = vec![
        LootRollEntry { player_id: 1, choice: LootRollChoice::Need, roll_value: 70 },
        LootRollEntry { player_id: 2, choice: LootRollChoice::Need, roll_value: 70 },
        LootRollEntry { player_id: 3, choice: LootRollChoice::Need, roll_value: 10 },
    ];
    assert_eq!(resolve_need_greed(&entries), Some(2));
}

#[test]
fn need_before_greed_law_on_values() {
    let entries = vec![
        LootRollEntry { player_id: 7, choice: LootRollChoice::Greed, roll_value: 100 },
        LootRollEntry { player_id: 8, choice: LootRollChoice::Pass, roll_value: 100 },
        LootRollEntry { player_id: 9, choice: LootRollChoice::Need, roll_value: 1 },
    ];
    assert_eq!(assign_loot(LootMode::NeedBeforeGreed, 1, 2, &entries), Some(9));
}
