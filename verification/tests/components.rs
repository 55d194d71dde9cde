use allium_deck::data::{BuildParams, EventRarityBonusRate, MasterCard, MusicMeta, UserCard};
use allium_deck::event_bonus::{build_card_event_bonus, load_custom_bonus_x2, EventBonusExact, EventContext};
use allium_deck::music::build_music_params;
use allium_deck::owned::OwnedGameData;
use allium_deck::pool::{CardIntermediate, PowerResult, SkillInfo, SkillResult, SkillSlot, SupportDeck};
use allium_deck::prune::{dominance_trim, SupportBonusTable};
use allium_deck::text::{is_blank_or_none, parse_attr_code, parse_unit_code};
use allium_deck::types::{attr_to_pool_index, Attr, DefaultImage, EventType, Unit};

fn custom_context() -> EventContext {
    let mut support_units = vec![Unit::Unset; 27];
    support_units[21] = Unit::Street;
    EventContext {
        event_id: 0,
        event_type: EventType::Marathon,
        event_cards: Vec::new(),
        deck_bonuses: Vec::new(),
        rarity_bonuses: Vec::new(),
        honor_bonuses: Vec::new(),
        skill_score_up_limit: None,
        card_bonus_count_limit: 5,
        diff_attr_bonus: vec![0; 6],
        support_deck_count: 0,
        world_bloom_character_id: None,
        world_bloom_event_turn: None,
        custom_character_ids: vec![21],
        custom_attr: Some(Attr::Cute),
        custom_support_unit_by_char: support_units,
        filter_unit: None,
    }
}

fn event_master(support_unit: Option<&str>, attr: &str) -> MasterCard {
    MasterCard {
        id: 1,
        character_id: 21,
        attr: attr.to_string(),
        card_rarity_type: 4,
        rarity: "rarity_4".to_string(),
        asset_bundle_name: String::new(),
        skill_id: 1,
        special_training_skill_id: None,
        special_training_power1_bonus_fixed: 0,
        special_training_power2_bonus_fixed: 0,
        special_training_power3_bonus_fixed: 0,
        support_unit: support_unit.map(str::to_string),
        max_level: None,
        max_skill_level: None,
        max_master_rank: None,
    }
}

fn custom_bonus(master: &MasterCard, ctx: &EventContext) -> i32 {
    let support_unit = master.support_unit.as_deref().and_then(parse_unit_code);
    let unrestricted = master.support_unit.as_deref().map_or(true, is_blank_or_none);
    load_custom_bonus_x2(
        master,
        parse_attr_code(&master.attr).and_then(attr_to_pool_index).unwrap_or(u8::MAX),
        support_unit,
        unrestricted,
        ctx,
    )
}

#[test]
fn custom_support_unit_accepts_matching_or_none_and_rejects_other_unit() {
    let ctx = custom_context();
    assert_eq!(custom_bonus(&event_master(Some("street"), "cool"), &ctx), 50);
    assert_eq!(custom_bonus(&event_master(Some("none"), "cool"), &ctx), 50);
    assert_eq!(custom_bonus(&event_master(None, "cute"), &ctx), 100);
    assert_eq!(custom_bonus(&event_master(Some("none"), "cute"), &ctx), 100);
    assert_eq!(custom_bonus(&event_master(Some("idol"), "cool"), &ctx), 0);
    assert_eq!(custom_bonus(&event_master(Some("future_unknown_unit"), "cool"), &ctx), 0);
}

#[test]
fn rarity_master_rank_bonus_keeps_tenth_percent_precision() {
    let mut ctx = custom_context();
    ctx.custom_character_ids.clear();
    ctx.custom_attr = None;
    ctx.rarity_bonuses.push(EventRarityBonusRate { event_id: 0, card_rarity_type: 4, master_rank: 2, bonus_rate_x10: 2 });
    let user_card = UserCard {
        card_id: 1,
        level: 1,
        skill_level: 1,
        master_rank: 2,
        special_training_status: "none".to_string(),
        default_image: "original".to_string(),
        episodes_read: Vec::new(),
        is_virtual: false,
        has_canvas_bonus_override: None,
    };
    let (bonus, _, _) = build_card_event_bonus(&user_card, &event_master(None, "cool"), 0, None, None, true, 0, &ctx);
    assert_eq!(bonus.base_x10(), 2);
    assert_eq!(bonus.base_x10() as f64 / 10.0, 0.2);
}

fn meta(music_id: i32, difficulty: &str, base_score_micro: i64, event_rate: i32) -> MusicMeta {
    MusicMeta {
        music_id,
        difficulty: difficulty.to_string(),
        event_rate_solo: event_rate,
        event_rate_multi: event_rate,
        event_rate_auto: event_rate,
        base_score_micro,
        base_score_auto_micro: base_score_micro,
        fever_score_micro: 0,
        solo_skill_scores_micro: [0; 6],
        multi_skill_scores_micro: [0; 6],
        auto_skill_scores_micro: [0; 6],
        music_time_micro: 100_000_000,
        tap_count: 500,
    }
}

fn game_with_diffs() -> OwnedGameData {
    OwnedGameData {
        music_metas: vec![
            meta(74, "easy", 1_005_000, 100),
            meta(74, "normal", 1_034_400, 100),
            meta(74, "hard", 1_069_600, 100),
            meta(74, "expert", 1_109_900, 100),
            meta(74, "master", 1_133_100, 100),
        ],
        ..OwnedGameData::default()
    }
}

#[test]
fn build_music_params_defaults_to_expert_not_first_row() {
    let owned = game_with_diffs();
    let params = BuildParams { music_id: Some(74), music_diff: None, ..BuildParams::default() };
    let result = build_music_params(&owned.as_ref(), &params).expect("a row is found");
    assert_eq!(result.meta.difficulty, "expert");
    assert_eq!(result.meta.base_score_micro, 1_109_900);
}

#[test]
fn build_music_params_selects_explicit_difficulty() {
    let owned = game_with_diffs();
    let params = BuildParams { music_id: Some(74), music_diff: Some("master".to_string()), ..BuildParams::default() };
    let result = build_music_params(&owned.as_ref(), &params).expect("a row is found");
    assert_eq!(result.meta.difficulty, "master");
    assert_eq!(result.meta.base_score_micro, 1_133_100);
}

#[test]
fn build_music_params_falls_back_when_difficulty_missing() {
    let owned = OwnedGameData { music_metas: vec![meta(99, "easy", 1_000_000, 100)], ..OwnedGameData::default() };
    let params = BuildParams { music_id: Some(99), music_diff: None, ..BuildParams::default() };
    let result = build_music_params(&owned.as_ref(), &params).expect("falls back to the easy row");
    assert_eq!(result.meta.difficulty, "easy");
}

fn prune_card(game_card_id: i32, character_id: u8, attr: u8, power: i32, skill: u8) -> CardIntermediate {
    CardIntermediate {
        game_card_id,
        card_rarity_type: 4,
        character_id,
        attr,
        unit_mask_raw: 1,
        default_image: DefaultImage::Original,
        after_training: false,
        skill_state_controls_image: false,
        master_rank: 0,
        skill_level: 1,
        power: PowerResult {
            unit_mask: 1,
            base: power,
            character_bonus: 0,
            fixture_bonus: 0,
            gate_bonus: 0,
            area_item_bonus: vec![0; 24],
            power_min: power,
            power_max: power,
        },
        skill: SkillResult {
            slot: SkillSlot { skill_type: 0, value: skill },
            unit_count: None,
            diff: None,
            ref_skill: None,
            skill_min: skill,
            skill_max: skill,
            full: SkillInfo {
                skill_id: 0,
                is_after_training: false,
                base_score_up: 0,
                life_recovery: 0,
                has_ref: false,
                ref_rate: 0,
                ref_max: 0,
            },
        },
        event_bonus: EventBonusExact::from_x10(0, 0),
        has_char_bonus: false,
        has_attr_bonus: false,
        leader_honor_bonus: 0,
        leader_limit_bonus: 0,
        ep_sort_key: 0,
    }
}

#[test]
fn dominance_trim_only_drops_dominated_cards_down_to_capacity() {
    let mut cards = vec![
        prune_card(1, 1, 0, 100, 1),
        prune_card(2, 1, 0, 200, 2),
        prune_card(3, 1, 0, 300, 3),
        prune_card(4, 2, 0, 400, 4),
    ];
    let dropped = dominance_trim(&mut cards, &BuildParams::default(), None, 3);

    assert_eq!(dropped, 1);
    assert_eq!(cards.len(), 3);
    assert!(!cards.iter().any(|card| card.game_card_id == 1), "the weakest dominated card goes first");
}

#[test]
fn dominance_trim_keeps_every_attribute_available() {
    let mut cards = vec![
        prune_card(1, 1, 0, 100, 1),
        prune_card(2, 1, 1, 900, 9),
        prune_card(3, 1, 2, 900, 9),
        prune_card(4, 1, 0, 800, 8),
    ];
    dominance_trim(&mut cards, &BuildParams::default(), None, 1);

    for attr in [0u8, 1, 2] {
        assert!(cards.iter().any(|card| card.attr == attr), "attribute {attr} stays available");
    }
}

#[test]
fn dominance_trim_reports_nothing_when_no_card_is_dominated() {
    let mut cards = vec![prune_card(1, 1, 0, 900, 1), prune_card(2, 1, 0, 100, 9), prune_card(3, 1, 0, 500, 5)];
    let dropped = dominance_trim(&mut cards, &BuildParams::default(), None, 1);

    assert_eq!(dropped, 0, "nothing is dropped without a dominated card");
    assert_eq!(cards.len(), 3);
}

#[test]
fn support_deficit_blocks_domination_without_bonus_surplus() {
    let deck = SupportDeck { cards: vec![(2, 500), (99, 100)], count: 1 };
    let support = SupportBonusTable::build(&[], &deck).expect("support table");
    let mut cards = vec![prune_card(2, 1, 0, 200, 2), prune_card(1, 1, 0, 100, 1)];
    let dropped = dominance_trim(&mut cards, &BuildParams::default(), Some(&support), 1);

    assert_eq!(dropped, 0, "a support deficit without bonus surplus blocks domination");
}
