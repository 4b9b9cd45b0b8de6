use game_shared::reputation::{
    available_rewards, can_access_reward, diminished_mob_rep, resolve_champion_faction,
    standing_for_value, threshold_for_standing, tier_progress, upcoming_rewards,
    default_faction_registry, CharacterReputation, FactionData, FactionRegistry, FactionTabard, GatedReward,
    GatedRewardType, RepChangeResult, RepGainSource, SpilloverRule, Standing, RATE_MINUS_HALF_BITS,
    RATE_QUARTER_BITS, REP_MAX, REP_MIN, REP_NEUTRAL,
};

// Race IDs (matching WoW convention)
const HUMAN: u8 = 1;
const ORC: u8 = 2;
const DWARF: u8 = 3;
const NIGHT_ELF: u8 = 4;
const UNDEAD: u8 = 5;
const TAUREN: u8 = 6;

const IRONFORGE_ID: u32 = 47;

fn stormwind() -> FactionData {
    FactionData {
        id: 72,
        name: "Stormwind".to_string(),
        base_standing: vec![
            (HUMAN, 21_000),
            (DWARF, 21_000),
            (NIGHT_ELF, 12_000),
            (ORC, 0),
            (UNDEAD, 0),
            (TAUREN, 6_000),
        ],
        spillover: vec![
            SpilloverRule { faction_id: IRONFORGE_ID, rate_bits: 0.25f32.to_bits() },
            SpilloverRule { faction_id: 76, rate_bits: (-0.5f32).to_bits() },
        ],
    }
}

fn orgrimmar() -> FactionData {
    FactionData {
        id: 76,
        name: "Orgrimmar".to_string(),
        base_standing: vec![(ORC, 21_000), (TAUREN, 21_000), (UNDEAD, 12_000), (HUMAN, 0), (DWARF, 0)],
        spillover: vec![],
    }
}

fn ironforge() -> FactionData {
    FactionData {
        id: IRONFORGE_ID,
        name: "Ironforge".to_string(),
        base_standing: vec![(HUMAN, 21_000), (DWARF, 21_000), (ORC, 0)],
        spillover: vec![],
    }
}

fn sample_registry() -> FactionRegistry {
    let mut reg = FactionRegistry::new();
    reg.add(stormwind());
    reg.add(orgrimmar());
    reg.add(ironforge());
    reg
}

/// Spillover amounts for a gain with a registered faction: each rule's rate
/// times the amount, truncated toward zero.
fn spills(reg: &FactionRegistry, faction_id: u32, amount: i32) -> Vec<(u32, i32)> {
    match reg.get(faction_id) {
        None => Vec::new(),
        Some(f) => f
            .spillover
            .iter()
            .map(|rule| (rule.faction_id, (amount as f32 * f32::from_bits(rule.rate_bits)) as i32))
            .collect(),
    }
}

fn gain_dungeon_rep(
    rep: &mut CharacterReputation,
    mob_faction: Option<u32>,
    amount: i32,
    equipped_tabard: Option<&FactionTabard>,
    in_dungeon: bool,
    reg: &FactionRegistry,
) -> Vec<RepChangeResult> {
    match resolve_champion_faction(mob_faction, equipped_tabard, in_dungeon) {
        None => Vec::new(),
        Some(faction_id) => rep.gain_rep_with_spillover(
            faction_id,
            amount,
            RepGainSource::MobKill,
            &spills(reg, faction_id, amount),
        ),
    }
}

/// Starting reputation for a race over Stormwind (72), Orgrimmar (76) and Ironforge (47).
fn rep_for_race(race: u8) -> CharacterReputation {
    CharacterReputation::new_for_race(&sample_registry(), race)
}

fn sample_rewards() -> Vec<GatedReward> {
    vec![
        GatedReward {
            item_id: 5001, faction_id: 72,
            required_standing: Standing::Friendly,
            reward_type: GatedRewardType::VendorItem, cost: 10_000,
        },
        GatedReward {
            item_id: 5002, faction_id: 72,
            required_standing: Standing::Honored,
            reward_type: GatedRewardType::Recipe, cost: 50_000,
        },
        GatedReward {
            item_id: 5003, faction_id: 72,
            required_standing: Standing::Revered,
            reward_type: GatedRewardType::Tabard, cost: 100_000,
        },
        GatedReward {
            item_id: 5004, faction_id: 72,
            required_standing: Standing::Exalted,
            reward_type: GatedRewardType::Mount, cost: 500_000,
        },
        GatedReward {
            item_id: 6001, faction_id: 76,
            required_standing: Standing::Honored,
            reward_type: GatedRewardType::Enchant, cost: 30_000,
        },
    ]
}

const STORMWIND_TABARD: FactionTabard = FactionTabard { item_id: 45574, faction_id: 72 };

#[test]
fn standing_hated() {
    assert_eq!(standing_for_value(0), Standing::Hated);
    assert_eq!(standing_for_value(5_999), Standing::Hated);
}

#[test]
fn standing_hostile() {
    assert_eq!(standing_for_value(6_000), Standing::Hostile);
    assert_eq!(standing_for_value(8_999), Standing::Hostile);
}

#[test]
fn standing_unfriendly() {
    assert_eq!(standing_for_value(9_000), Standing::Unfriendly);
    assert_eq!(standing_for_value(11_999), Standing::Unfriendly);
}

#[test]
fn standing_neutral() {
    assert_eq!(standing_for_value(12_000), Standing::Neutral);
    assert_eq!(standing_for_value(20_999), Standing::Neutral);
}

#[test]
fn standing_friendly() {
    assert_eq!(standing_for_value(21_000), Standing::Friendly);
    assert_eq!(standing_for_value(29_999), Standing::Friendly);
}

#[test]
fn standing_honored() {
    assert_eq!(standing_for_value(30_000), Standing::Honored);
    assert_eq!(standing_for_value(41_999), Standing::Honored);
}

#[test]
fn standing_revered() {
    assert_eq!(standing_for_value(42_000), Standing::Revered);
    assert_eq!(standing_for_value(62_999), Standing::Revered);
}

#[test]
fn standing_exalted() {
    assert_eq!(standing_for_value(63_000), Standing::Exalted);
    assert_eq!(standing_for_value(83_999), Standing::Exalted);
}

#[test]
fn standing_clamps_to_bounds() {
    assert_eq!(standing_for_value(-100), Standing::Hated);
    assert_eq!(standing_for_value(100_000), Standing::Exalted);
}

#[test]
fn threshold_values() {
    assert_eq!(threshold_for_standing(Standing::Hated), 0);
    assert_eq!(threshold_for_standing(Standing::Neutral), 12_000);
    assert_eq!(threshold_for_standing(Standing::Exalted), 63_000);
}

#[test]
fn progress_at_tier_start() {
    let (into, size) = tier_progress(12_000);
    assert_eq!(into, 0);
    assert_eq!(size, 9_000); // Neutral: 12000–20999
}

#[test]
fn progress_midway() {
    let (into, size) = tier_progress(15_000);
    assert_eq!(into, 3_000);
    assert_eq!(size, 9_000);
}

#[test]
fn progress_exalted() {
    let (into, size) = tier_progress(70_000);
    assert_eq!(into, 7_000);
    assert_eq!(size, 21_000); // Exalted: 63000–83999
}

#[test]
fn standing_order() {
    assert!(Standing::Hated < Standing::Hostile);
    assert!(Standing::Hostile < Standing::Neutral);
    assert!(Standing::Neutral < Standing::Friendly);
    assert!(Standing::Friendly < Standing::Exalted);
}

#[test]
fn rep_clamps_at_max() {
    let mut rep = CharacterReputation::default();
    rep.set_rep(72, 80_000);
    let result = rep.gain_rep(72, 10_000, RepGainSource::Admin);
    assert_eq!(result.new_value, REP_MAX);
    assert_eq!(result.actual_change(), REP_MAX - 80_000);
}

#[test]
fn rep_clamps_at_min() {
    let mut rep = CharacterReputation::default();
    rep.set_rep(72, 1_000);
    let result = rep.lose_rep(72, 5_000, RepGainSource::MobKill);
    assert_eq!(result.new_value, REP_MIN);
}

#[test]
fn unknown_faction_defaults_neutral() {
    let rep = CharacterReputation::default();
    assert_eq!(rep.get_value(999), REP_NEUTRAL);
    assert_eq!(rep.get_standing(999), Standing::Neutral);
}

#[test]
fn set_rep_directly() {
    let mut rep = CharacterReputation::default();
    rep.set_rep(72, 42_000);
    assert_eq!(rep.get_standing(72), Standing::Revered);
}

#[test]
fn gain_rep_ensures_positive() {
    let mut rep = CharacterReputation::default();
    rep.set_rep(72, 20_000);
    // gain_rep takes abs, so negative input still gains
    let result = rep.gain_rep(72, -500, RepGainSource::QuestTurnIn);
    assert_eq!(result.new_value, 20_500);
}

#[test]
fn lose_rep_ensures_negative() {
    let mut rep = CharacterReputation::default();
    rep.set_rep(72, 20_000);
    // lose_rep takes abs, so positive input still loses
    let result = rep.lose_rep(72, 500, RepGainSource::MobKill);
    assert_eq!(result.new_value, 19_500);
}

#[test]
fn upcoming_rewards_empty_at_exalted() {
    let mut rep = CharacterReputation::default();
    rep.set_rep(72, 63_000);
    let rewards = sample_rewards();
    assert!(upcoming_rewards(&rewards, 72, &rep).is_empty());
}

#[test]
fn no_rewards_for_unknown_faction() {
    let rep = CharacterReputation::default();
    let rewards = sample_rewards();
    assert!(available_rewards(&rewards, 999, &rep).is_empty());
}

#[test]
fn champion_redirects_rep_in_dungeon() {
    assert_eq!(resolve_champion_faction(Some(999), Some(&STORMWIND_TABARD), true), Some(72));
}

#[test]
fn champion_ignored_outside_dungeon() {
    assert_eq!(resolve_champion_faction(Some(999), Some(&STORMWIND_TABARD), false), Some(999));
}

#[test]
fn no_tabard_uses_original_faction() {
    assert_eq!(resolve_champion_faction(Some(72), None, true), Some(72));
}

#[test]
fn no_tabard_no_faction() {
    assert_eq!(resolve_champion_faction(None, None, true), None);
}

#[test]
fn champion_overrides_mob_faction() {
    assert_eq!(resolve_champion_faction(Some(999), Some(&STORMWIND_TABARD), true), Some(72));
}

#[test]
fn track_and_untrack() {
    let mut rep = CharacterReputation::default();
    assert!(rep.tracked_factions().is_empty());
    rep.track(72);
    rep.track(76);
    assert_eq!(rep.tracked_factions().len(), 2);
    assert!(rep.is_tracked(72));
    rep.untrack(72);
    assert!(!rep.is_tracked(72));
    assert_eq!(rep.tracked_factions().len(), 1);
}

#[test]
fn track_duplicate_is_noop() {
    let mut rep = CharacterReputation::default();
    rep.track(72);
    rep.track(72);
    assert_eq!(rep.tracked_factions().len(), 1);
}

#[test]
fn watch_faction() {
    let mut rep = CharacterReputation::default();
    rep.watch(72);
    assert_eq!(rep.watched_faction(), Some(72));
    assert!(rep.is_tracked(72));
}

#[test]
fn watch_replaces_previous() {
    let mut rep = CharacterReputation::default();
    rep.watch(72);
    rep.watch(76);
    assert_eq!(rep.watched_faction(), Some(76));
    assert!(rep.is_tracked(72));
    assert!(rep.is_tracked(76));
}

#[test]
fn unwatch_clears() {
    let mut rep = CharacterReputation::default();
    rep.watch(72);
    rep.unwatch();
    assert_eq!(rep.watched_faction(), None);
    assert!(rep.is_tracked(72));
}

#[test]
fn untrack_watched_clears_watch() {
    let mut rep = CharacterReputation::default();
    rep.watch(72);
    rep.untrack(72);
    assert_eq!(rep.watched_faction(), None);
    assert!(!rep.is_tracked(72));
}

#[test]
fn display_tracked_empty() {
    let rep = CharacterReputation::default();
    assert!(rep.display_tracked().is_empty());
}

#[test]
fn dr_same_level_full_rep() {
    assert_eq!(diminished_mob_rep(100, 60, 60), 100);
}

#[test]
fn dr_higher_mob_full_rep() {
    assert_eq!(diminished_mob_rep(100, 60, 65), 100);
}

#[test]
fn dr_one_level_below() {
    assert_eq!(diminished_mob_rep(100, 60, 59), 87);
}

#[test]
fn dr_four_levels_below() {
    assert_eq!(diminished_mob_rep(100, 60, 56), 50);
}

#[test]
fn dr_seven_levels_below() {
    assert_eq!(diminished_mob_rep(100, 60, 53), 12);
}

#[test]
fn dr_eight_levels_below_grey() {
    assert_eq!(diminished_mob_rep(100, 60, 52), 0);
}

#[test]
fn dr_far_below_grey() {
    assert_eq!(diminished_mob_rep(100, 60, 10), 0);
}

#[test]
fn dr_small_rep_rounds_down() {
    assert_eq!(diminished_mob_rep(7, 60, 59), 6);
}

#[test]
fn dr_level_one_mob_vs_high_player() {
    assert_eq!(diminished_mob_rep(100, 70, 1), 0);
}

// --- Base values and starting reputation ---

#[test]
fn base_rep_for_known_race() {
    let sw = stormwind();
    assert_eq!(sw.base_rep_for_race(HUMAN), 21_000);
    assert_eq!(sw.base_rep_for_race(ORC), 0);
    assert_eq!(sw.base_rep_for_race(TAUREN), 6_000);
}

#[test]
fn base_rep_unknown_race_defaults_neutral() {
    let sw = stormwind();
    assert_eq!(sw.base_rep_for_race(99), REP_NEUTRAL);
}

#[test]
fn starting_standing_for_race() {
    let sw = stormwind();
    assert_eq!(sw.starting_standing(HUMAN), Standing::Friendly);
    assert_eq!(sw.starting_standing(ORC), Standing::Hated);
    assert_eq!(sw.starting_standing(TAUREN), Standing::Hostile);
    assert_eq!(sw.starting_standing(NIGHT_ELF), Standing::Neutral);
}

// --- FactionRegistry ---

#[test]
fn registry_add_and_get() {
    let mut reg = FactionRegistry::new();
    reg.add(stormwind());
    reg.add(orgrimmar());
    assert_eq!(reg.len(), 2);

    let sw = reg.get(72).unwrap();
    assert_eq!(sw.name, "Stormwind");
}

#[test]
fn registry_find_by_name() {
    let mut reg = FactionRegistry::new();
    reg.add(stormwind());
    assert_eq!(reg.find_by_name("Stormwind").unwrap().id, 72);
    assert!(reg.find_by_name("Unknown").is_none());
}

#[test]
fn registry_replace_existing() {
    let mut reg = FactionRegistry::new();
    reg.add(stormwind());
    let mut updated = stormwind();
    updated.name = "Stormwind City".to_string();
    reg.add(updated);
    assert_eq!(reg.len(), 1);
    assert_eq!(reg.get(72).unwrap().name, "Stormwind City");
}

#[test]
fn registry_unknown_id() {
    let reg = FactionRegistry::new();
    assert!(reg.get(999).is_none());
}

#[test]
fn registry_iter() {
    let mut reg = FactionRegistry::new();
    reg.add(stormwind());
    reg.add(orgrimmar());
    let ids: Vec<u32> = reg.iter().map(|f| f.id).collect();
    assert!(ids.contains(&72));
    assert!(ids.contains(&76));
}

#[test]
fn registry_replaced_faction_moves_last() {
    let mut reg = sample_registry();
    reg.add(stormwind());
    let ids: Vec<u32> = reg.iter().map(|f| f.id).collect();
    assert_eq!(ids, vec![76, IRONFORGE_ID, 72]);
    assert!(reg.get(76).is_some());
    assert!(!reg.is_empty());
    assert!(FactionRegistry::default().is_empty());
}

#[test]
fn registry_find_by_name_takes_first() {
    let mut reg = FactionRegistry::new();
    let mut a = orgrimmar();
    a.name = "Twin".to_string();
    let mut b = ironforge();
    b.name = "Twin".to_string();
    reg.add(a);
    reg.add(b);
    assert_eq!(reg.find_by_name("Twin").unwrap().id, 76);
    assert!(reg.find_by_name("twin").is_none());
}

#[test]
fn new_for_race_human() {
    let reg = sample_registry();
    let rep = CharacterReputation::new_for_race(&reg, HUMAN);
    assert_eq!(rep.get_value(72), 21_000);
    assert_eq!(rep.get_standing(72), Standing::Friendly);
    assert_eq!(rep.get_value(76), 0);
    assert_eq!(rep.get_standing(76), Standing::Hated);
    assert_eq!(rep.faction_count(), 3);
}

#[test]
fn new_for_race_orc() {
    let reg = sample_registry();
    let rep = CharacterReputation::new_for_race(&reg, ORC);
    assert_eq!(rep.get_standing(72), Standing::Hated);
    assert_eq!(rep.get_standing(76), Standing::Friendly);
}

#[test]
fn new_for_race_unlisted_race_is_neutral_everywhere() {
    let rep = rep_for_race(99);
    assert_eq!(rep.get_value(72), REP_NEUTRAL);
    assert_eq!(rep.get_value(76), REP_NEUTRAL);
    assert_eq!(rep.get_value(IRONFORGE_ID), REP_NEUTRAL);
    assert!(rep.tracked_factions().is_empty());
    assert_eq!(rep.watched_faction(), None);
}

#[test]
fn gain_rep_quest_turnin() {
    let mut rep = rep_for_race(HUMAN);
    let base = rep.get_value(72);
    let result = rep.gain_rep(72, 500, RepGainSource::QuestTurnIn);
    assert_eq!(result.old_value, base);
    assert_eq!(result.new_value, base + 500);
    assert_eq!(result.actual_change(), 500);
    assert!(!result.tier_changed());
}

#[test]
fn gain_rep_crosses_tier() {
    let mut rep = rep_for_race(HUMAN);
    let result = rep.gain_rep(72, 9_000, RepGainSource::MobKill);
    assert_eq!(result.new_value, 30_000);
    assert_eq!(result.old_standing, Standing::Friendly);
    assert_eq!(result.new_standing, Standing::Honored);
    assert!(result.tier_changed());
}

#[test]
fn lose_rep_crosses_tier_down() {
    let mut rep = rep_for_race(HUMAN);
    let result = rep.lose_rep(72, 2_000, RepGainSource::MobKill);
    assert_eq!(result.old_standing, Standing::Friendly);
    assert_eq!(result.new_standing, Standing::Neutral);
    assert!(result.tier_changed());
    assert_eq!(result.actual_change(), -2_000);
}

#[test]
fn has_standing_check() {
    let rep = rep_for_race(HUMAN);
    assert!(rep.has_standing(72, Standing::Friendly));
    assert!(rep.has_standing(72, Standing::Neutral));
    assert!(!rep.has_standing(72, Standing::Honored));
}

#[test]
fn all_factions_lists_known() {
    let rep = rep_for_race(HUMAN);
    let mut factions = rep.all_factions();
    factions.sort();
    assert_eq!(factions, vec![IRONFORGE_ID, 72, 76]);
}

#[test]
fn modify_rep_unknown_faction_starts_neutral() {
    let mut rep = CharacterReputation::default();
    let result = rep.modify_rep(500, -100, RepGainSource::Admin);
    assert_eq!(result.old_value, REP_NEUTRAL);
    assert_eq!(result.new_value, REP_NEUTRAL - 100);
    assert_eq!(rep.get_value(500), 11_900);
    assert_eq!(rep.get_standing(500), Standing::Unfriendly);
}

#[test]
fn set_rep_clamps_both_ends() {
    let mut rep = CharacterReputation::default();
    rep.set_rep(1, -5);
    rep.set_rep(2, 1_000_000);
    assert_eq!(rep.get_value(1), REP_MIN);
    assert_eq!(rep.get_value(2), REP_MAX);
}

#[test]
fn gain_then_lose_restores() {
    let mut rep = CharacterReputation::default();
    rep.set_rep(72, 20_000);
    rep.gain_rep(72, 1_234, RepGainSource::MobKill);
    rep.lose_rep(72, 1_234, RepGainSource::MobKill);
    assert_eq!(rep.get_value(72), 20_000);
}

// --- Spillover ---

#[test]
fn spillover_allied_faction() {
    let reg = sample_registry();
    let mut rep = CharacterReputation::new_for_race(&reg, HUMAN);
    let ironforge_before = rep.get_value(IRONFORGE_ID);

    let results =
        rep.gain_rep_with_spillover(72, 1000, RepGainSource::QuestTurnIn, &spills(&reg, 72, 1000));

    assert_eq!(results.len(), 3);
    assert_eq!(results[0].faction_id, 72);
    assert_eq!(results[0].actual_change(), 1000);

    let ironforge_result = results.iter().find(|r| r.faction_id == IRONFORGE_ID).unwrap();
    assert_eq!(ironforge_result.actual_change(), 250);
    assert_eq!(rep.get_value(IRONFORGE_ID), ironforge_before + 250);
}

#[test]
fn spillover_enemy_faction() {
    let reg = sample_registry();
    let mut rep = CharacterReputation::new_for_race(&reg, ORC);
    rep.set_rep(72, REP_NEUTRAL);
    let org_before = rep.get_value(76);

    let results =
        rep.gain_rep_with_spillover(72, 1000, RepGainSource::QuestTurnIn, &spills(&reg, 72, 1000));

    let org_result = results.iter().find(|r| r.faction_id == 76).unwrap();
    assert_eq!(org_result.actual_change(), -500);
    assert_eq!(rep.get_value(76), org_before - 500);
}

#[test]
fn spillover_enemy_clamps_at_zero() {
    let reg = sample_registry();
    let mut rep = CharacterReputation::new_for_race(&reg, HUMAN);
    assert_eq!(rep.get_value(76), 0);

    let results =
        rep.gain_rep_with_spillover(72, 1000, RepGainSource::MobKill, &spills(&reg, 72, 1000));
    let org_result = results.iter().find(|r| r.faction_id == 76).unwrap();
    assert_eq!(org_result.new_value, REP_MIN);
}

#[test]
fn no_spillover_rules_no_cascade() {
    let reg = sample_registry();
    let mut rep = CharacterReputation::new_for_race(&reg, ORC);

    let results =
        rep.gain_rep_with_spillover(76, 500, RepGainSource::QuestTurnIn, &spills(&reg, 76, 500));
    assert_eq!(results.len(), 1);
    assert_eq!(results[0].faction_id, 76);
}

#[test]
fn spillover_uses_spillover_source() {
    let reg = sample_registry();
    let mut rep = CharacterReputation::new_for_race(&reg, HUMAN);

    let results =
        rep.gain_rep_with_spillover(72, 1000, RepGainSource::QuestTurnIn, &spills(&reg, 72, 1000));

    assert_eq!(results[0].faction_id, 72);
    assert!(results.len() > 1);
}

#[test]
fn spillover_small_amount_rounds_down() {
    let reg = sample_registry();
    let mut rep = CharacterReputation::new_for_race(&reg, HUMAN);
    let ironforge_before = rep.get_value(IRONFORGE_ID);

    let results = rep.gain_rep_with_spillover(72, 3, RepGainSource::MobKill, &spills(&reg, 72, 3));
    let ironforge_result = results.iter().find(|r| r.faction_id == IRONFORGE_ID).unwrap();
    assert_eq!(ironforge_result.actual_change(), 0);
    assert_eq!(rep.get_value(IRONFORGE_ID), ironforge_before);
}

#[test]
fn spillover_unknown_faction_no_cascade() {
    let reg = sample_registry();
    let mut rep = CharacterReputation::default();

    let results =
        rep.gain_rep_with_spillover(999, 1000, RepGainSource::QuestTurnIn, &spills(&reg, 999, 1000));
    assert_eq!(results.len(), 1);
}

#[test]
fn gain_dungeon_rep_with_tabard() {
    let reg = sample_registry();
    let mut rep = CharacterReputation::new_for_race(&reg, HUMAN);
    let sw_before = rep.get_value(72);
    let results = gain_dungeon_rep(&mut rep, Some(999), 100, Some(&STORMWIND_TABARD), true, &reg);
    assert!(!results.is_empty());
    assert_eq!(results[0].faction_id, 72);
    assert_eq!(rep.get_value(72), sw_before + 100);
}

#[test]
fn gain_dungeon_rep_without_tabard() {
    let reg = sample_registry();
    let mut rep = CharacterReputation::new_for_race(&reg, HUMAN);
    let results = gain_dungeon_rep(&mut rep, Some(72), 100, None, true, &reg);
    assert_eq!(results[0].faction_id, 72);
}

#[test]
fn gain_dungeon_rep_no_faction_mob() {
    let reg = sample_registry();
    let mut rep = CharacterReputation::new_for_race(&reg, HUMAN);
    assert!(gain_dungeon_rep(&mut rep, None, 100, None, true, &reg).is_empty());
}

#[test]
fn gain_dungeon_rep_tabard_with_spillover() {
    let reg = sample_registry();
    let mut rep = CharacterReputation::new_for_race(&reg, HUMAN);
    let if_before = rep.get_value(IRONFORGE_ID);
    let results = gain_dungeon_rep(&mut rep, Some(999), 1000, Some(&STORMWIND_TABARD), true, &reg);
    assert!(results.len() > 1);
    let if_result = results.iter().find(|r| r.faction_id == IRONFORGE_ID).unwrap();
    assert_eq!(rep.get_value(IRONFORGE_ID), if_before + 250);
    assert_eq!(if_result.actual_change(), 250);
}

#[test]
fn gain_dungeon_rep_outside_dungeon_no_redirect() {
    let reg = sample_registry();
    let mut rep = CharacterReputation::new_for_race(&reg, HUMAN);
    let results = gain_dungeon_rep(&mut rep, Some(76), 100, Some(&STORMWIND_TABARD), false, &reg);
    assert_eq!(results[0].faction_id, 76);
}

#[test]
fn spillover_applies_in_order() {
    let mut rep = rep_for_race(HUMAN);
    let results = rep.gain_rep_with_spillover(
        72,
        1_000,
        RepGainSource::QuestTurnIn,
        &[(IRONFORGE_ID, 250), (76, -500)],
    );
    assert_eq!(results.len(), 3);
    assert_eq!(results[0].faction_id, 72);
    assert_eq!(results[0].new_value, 22_000);
    assert_eq!(results[1].faction_id, IRONFORGE_ID);
    assert_eq!(results[1].actual_change(), 250);
    assert_eq!(rep.get_value(IRONFORGE_ID), 21_250);
    assert_eq!(results[2].faction_id, 76);
    assert_eq!(results[2].new_value, REP_MIN);
    assert_eq!(rep.get_value(76), 0);
}

#[test]
fn spillover_without_rules_is_primary_only() {
    let mut rep = CharacterReputation::default();
    let results = rep.gain_rep_with_spillover(76, -100, RepGainSource::MobKill, &[]);
    assert_eq!(results.len(), 1);
    assert_eq!(results[0].new_value, REP_NEUTRAL + 100);
}

// --- Display ---

#[test]
fn display_entry_values() {
    let rep = rep_for_race(HUMAN);
    let entry = rep.display_entry(72);
    assert_eq!(entry.faction_id, 72);
    assert_eq!(entry.standing, Standing::Friendly);
    assert_eq!(entry.value, 21_000);
    assert_eq!(entry.progress, (0, 9_000));
}

#[test]
fn display_tracked_list() {
    let mut rep = rep_for_race(HUMAN);
    rep.track(72);
    rep.track(76);
    let entries = rep.display_tracked();
    assert_eq!(entries.len(), 2);
    assert_eq!(entries[0].faction_id, 72);
    assert_eq!(entries[1].standing, Standing::Hated);
}

#[test]
fn untrack_keeps_order_of_others() {
    let mut rep = CharacterReputation::default();
    rep.track(1);
    rep.track(2);
    rep.track(3);
    rep.untrack(2);
    assert_eq!(rep.tracked_factions(), &[1, 3]);
}

#[test]
fn progress_at_bounds() {
    assert_eq!(tier_progress(-50), (0, 6_000));
    assert_eq!(tier_progress(REP_MAX), (20_999, 21_000));
    assert_eq!(tier_progress(200_000), (20_999, 21_000));
}

#[test]
fn thresholds_are_in_their_tier() {
    for s in [
        Standing::Hated,
        Standing::Hostile,
        Standing::Unfriendly,
        Standing::Neutral,
        Standing::Friendly,
        Standing::Honored,
        Standing::Revered,
        Standing::Exalted,
    ] {
        assert_eq!(standing_for_value(threshold_for_standing(s)), s);
    }
}

// --- Gated rewards with standings from the race table ---

#[test]
fn can_access_at_required_standing() {
    let rep = rep_for_race(HUMAN);
    let rewards = sample_rewards();
    assert!(can_access_reward(&rewards[0], &rep));
    assert!(!can_access_reward(&rewards[1], &rep));
}

#[test]
fn available_rewards_filters_by_standing() {
    let mut rep = rep_for_race(HUMAN);
    rep.set_rep(72, 30_000);
    let rewards = sample_rewards();
    let available = available_rewards(&rewards, 72, &rep);
    assert_eq!(available.len(), 2);
    assert_eq!(available[0].item_id, 5001);
    assert_eq!(available[1].item_id, 5002);
}

#[test]
fn upcoming_rewards_shows_next_unlocks() {
    let rep = rep_for_race(HUMAN);
    let rewards = sample_rewards();
    let upcoming = upcoming_rewards(&rewards, 72, &rep);
    assert_eq!(upcoming.len(), 3);
    assert_eq!(upcoming[0].required_standing, Standing::Honored);
}

#[test]
fn each_reward_available_or_upcoming() {
    let mut rep = CharacterReputation::default();
    rep.set_rep(72, 35_000);
    let rewards = sample_rewards();
    let available = available_rewards(&rewards, 72, &rep);
    let upcoming = upcoming_rewards(&rewards, 72, &rep);
    assert_eq!(available.len() + upcoming.len(), 4);
}

#[test]
fn dr_negative_rep_truncates_toward_zero() {
    assert_eq!(diminished_mob_rep(-100, 60, 59), -87);
    assert_eq!(diminished_mob_rep(-7, 60, 59), -6);
}

#[test]
fn default_registry_contents() {
    assert_eq!(RATE_QUARTER_BITS, 0.25f32.to_bits());
    assert_eq!(RATE_MINUS_HALF_BITS, (-0.5f32).to_bits());
    let reg = default_faction_registry();
    assert_eq!(reg.len(), 3);
    let ids: Vec<u32> = reg.iter().map(|f| f.id).collect();
    assert_eq!(ids, vec![72, 76, 47]);
    assert_eq!(reg.find_by_name("Orgrimmar").unwrap().id, 76);
    let sw = reg.get(72).unwrap();
    assert_eq!(sw.spillover.len(), 2);
    assert_eq!(f32::from_bits(sw.spillover[0].rate_bits), 0.25);
    assert_eq!(f32::from_bits(sw.spillover[1].rate_bits), -0.5);
    let human = CharacterReputation::new_for_race(&reg, 1);
    assert_eq!(human.get_standing(72), Standing::Friendly);
    assert_eq!(human.get_standing(76), Standing::Hated);
    let results = CharacterReputation::new_for_race(&reg, 2).gain_rep_with_spillover(
        72,
        400,
        RepGainSource::QuestTurnIn,
        &spills(&reg, 72, 400),
    );
    assert_eq!(results.len(), 3);
    assert_eq!(results[1].faction_id, 47);
    assert_eq!(results[2].faction_id, 76);
    assert_eq!(results[2].actual_change(), -200);
}
