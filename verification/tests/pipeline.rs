use allium_deck::card_config::{apply_card_config, cultivated_user_cards, normalize_user_cards};
use allium_deck::data::{
    BuildParams, CardConfigSet, CardParameter, CardRarity, CardRarityConfig, CardEpisode, Event, EventDeckBonus,
    EventRarityBonusRate,
    EventFixtureBonusLimit, GameCharacterUnit, GameData, MasterCard, MasterLesson, MusicMeta, SingleCardConfig,
    Skill, SkillEffect, AreaItemLevel, UserCard, UserFixtureBonus, UserProfile,
};
use allium_deck::error::BuildError;
use allium_deck::event_bonus::EventBonusExact;
use allium_deck::filter::{
    collapse_non_bfes_skill_states, is_bfes_skill_pair, normalize_boost_rate_pct, skill_states_for_card,
    target_per_character_trim, validate_fixed_constraints, GENERAL_PER_CHAR_KEEP,
};
use allium_deck::gather::sort_and_gather;
use allium_deck::pipeline::{
    build_card_pool, build_card_pool_with_details, build_card_pool_with_details_fully_prepared,
    build_card_pool_with_details_prepared, PreparedGameData, PreparedGameIndexes, PreparedPoolBuild,
};
use allium_deck::pool::{
    CardIdx, CardIntermediate, PowerResult, RefSkill, SkillInfo, SkillResult, SkillSlot, SkillState,
    UnitCountSkill,
};
use allium_deck::text::is_after_training;
use allium_deck::types::{
    CustomSupportUnit, DefaultImage, LiveType, ScoreTarget, SkillReferenceStrategy, Unit, FINAL_CHAPTER_EVENT_ID,
};
use allium_deck::validate::validate_build_params;

fn sample_game<'a>(
    cards: &'a [MasterCard],
    params: &'a [CardParameter],
    rarities: &'a [CardRarity],
    episodes: &'a [CardEpisode],
    lessons: &'a [MasterLesson],
    skills: &'a [Skill],
    effects: &'a [SkillEffect],
    area_items: &'a [AreaItemLevel],
    units: &'a [GameCharacterUnit],
) -> GameData<'a> {
    GameData {
        cards,
        card_parameters: params,
        card_rarities: rarities,
        card_episodes: episodes,
        master_lessons: lessons,
        skills,
        skill_effects: effects,
        area_item_levels: area_items,
        game_character_units: units,
        character_ranks: &[],
        card_mysekai_canvas_bonuses: &[],
        mysekai_gates: &[],
        mysekai_gate_levels: &[],
        events: &[],
        event_cards: &[],
        event_deck_bonuses: &[],
        event_card_bonus_limits: &[],
        event_honor_bonuses: &[],
        world_bloom_different_attribute_bonuses: &[],
        world_blooms: &[],
        wb_support_deck_bonuses_wl1: &[],
        wb_support_deck_bonuses_wl2: &[],
        wb_support_deck_bonuses_wl3: &[],
        world_bloom_support_deck_unit_event_limited_bonuses: &[],
        event_mysekai_fixture_performance_bonus_limits: &[],
        event_skill_score_up_limits: &[],
        music_metas: &[],
        music_difficulties: &[],
        event_rarity_bonus_rates: &[],
        honors: &[],
        bonds_honors: &[],
    }
}

fn sample_user_card(card_id: i32) -> UserCard {
    UserCard {
        card_id,
        level: 1,
        skill_level: 1,
        master_rank: 0,
        special_training_status: "none".to_string(),
        default_image: "original".to_string(),
        episodes_read: Vec::new(),
        is_virtual: false,
        has_canvas_bonus_override: None,
    }
}

fn master(id: i32, character_id: i32, attr: &str, rarity: i32, skill_id: i32, trained_skill: Option<i32>) -> MasterCard {
    MasterCard {
        id,
        character_id,
        attr: attr.to_string(),
        card_rarity_type: rarity,
        rarity: "".to_string(),
        asset_bundle_name: "chara_000001".to_string(),
        skill_id,
        special_training_skill_id: trained_skill,
        special_training_power1_bonus_fixed: 0,
        special_training_power2_bonus_fixed: 0,
        special_training_power3_bonus_fixed: 0,
        support_unit: None,
        max_level: Some(60),
        max_skill_level: Some(4),
        max_master_rank: Some(5),
    }
}

fn param_row(card_id: i32, p1: i32, p2: i32, p3: i32) -> CardParameter {
    CardParameter { card_id, level: 1, param1: p1, param2: p2, param3: p3 }
}

fn score_up(skill_id: i32, value: i32) -> SkillEffect {
    SkillEffect {
        skill_id,
        skill_level: 1,
        effect_type: "score_up".to_string(),
        value,
        additional_value: None,
        unit_member_count: None,
        unit: None,
        activate_character_rank: None,
    }
}

fn unit_row(game_character_id: i32, unit: &str) -> GameCharacterUnit {
    GameCharacterUnit { game_character_id, unit: unit.to_string() }
}

fn skill_info() -> SkillInfo {
    SkillInfo {
        skill_id: 0,
        is_after_training: false,
        base_score_up: 0,
        life_recovery: 0,
        has_ref: false,
        ref_rate: 0,
        ref_max: 0,
    }
}

fn empty_skill() -> SkillResult {
    SkillResult {
        slot: SkillSlot { skill_type: 0, value: 0 },
        unit_count: None,
        diff: None,
        ref_skill: None,
        skill_min: 0,
        skill_max: 0,
        full: skill_info(),
    }
}

fn power_result(power_min: i32, power_max: i32) -> PowerResult {
    PowerResult {
        unit_mask: 0,
        base: 0,
        character_bonus: 0,
        fixture_bonus: 0,
        gate_bonus: 0,
        area_item_bonus: vec![0; 24],
        power_min,
        power_max,
    }
}

fn make_card(game_card_id: i32, character_id: u8, power_max: i32, skill_max: u8) -> CardIntermediate {
    CardIntermediate {
        game_card_id,
        card_rarity_type: 4,
        character_id,
        attr: character_id % 5,
        unit_mask_raw: 1u8 << (character_id % 6),
        default_image: DefaultImage::Original,
        after_training: false,
        skill_state_controls_image: false,
        master_rank: 0,
        skill_level: 1,
        power: power_result(power_max - 10, power_max),
        skill: SkillResult { skill_min: 1, skill_max, ..empty_skill() },
        event_bonus: EventBonusExact::from_whole(0, 0),
        has_char_bonus: false,
        has_attr_bonus: false,
        leader_honor_bonus: 0,
        leader_limit_bonus: 0,
        ep_sort_key: power_max as i64,
    }
}

fn check_bonus_target_requires_non_final_event_context() {
    let game = sample_game(&[], &[], &[], &[], &[], &[], &[], &[], &[]);
    let user = UserProfile::default();

    let no_event = BuildParams { target: ScoreTarget::Bonus, ..BuildParams::default() };
    assert!(matches!(
        build_card_pool(&user, &game, &no_event),
        Err(BuildError::InvalidConfig(reason)) if reason.contains("活动")
    ));

    let final_chapter = BuildParams {
        target: ScoreTarget::Bonus,
        event_id: Some(FINAL_CHAPTER_EVENT_ID),
        event_type: Some("world_bloom".to_string()),
        ..BuildParams::default()
    };
    assert!(matches!(
        build_card_pool(&user, &game, &final_chapter),
        Err(BuildError::InvalidConfig(reason)) if reason.contains("终章")
    ));
}

#[test]
fn mod_bonus_target_requires_non_final_event_context() {
    check_bonus_target_requires_non_final_event_context();
}

#[test]
fn tests_bonus_target_requires_non_final_event_context() {
    check_bonus_target_requires_non_final_event_context();
}

fn check_programmatic_build_params_enforce_compatibility_bounds() {
    let game = sample_game(&[], &[], &[], &[], &[], &[], &[], &[], &[]);
    let user = UserProfile::default();
    let cases = vec![
        (BuildParams { limit: 0, ..BuildParams::default() }, "limit"),
        (BuildParams { timeout_ms: 0, ..BuildParams::default() }, "timeout"),
        (BuildParams { timeout_ms: 300_001, ..BuildParams::default() }, "timeout"),
        (BuildParams { target_bonus_list: vec![100; 33], ..BuildParams::default() }, "target_bonus_list"),
        (BuildParams { custom_bonus_character_ids: vec![0], ..BuildParams::default() }, "character"),
        (BuildParams { custom_bonus_character_ids: vec![1; 27], ..BuildParams::default() }, "character"),
        (BuildParams { custom_bonus_character_ids: vec![1, 1], ..BuildParams::default() }, "重复"),
        (
            BuildParams {
                custom_bonus_character_support_units: vec![
                    CustomSupportUnit { character_id: 21, unit: Unit::Idol },
                    CustomSupportUnit { character_id: 21, unit: Unit::Street },
                ],
                ..BuildParams::default()
            },
            "重复",
        ),
    ];
    for (params, expected) in cases {
        assert!(matches!(
            build_card_pool(&user, &game, &params),
            Err(BuildError::InvalidConfig(reason)) if reason.contains(expected)
        ));
    }
}

#[test]
fn mod_programmatic_build_params_enforce_compatibility_bounds() {
    check_programmatic_build_params_enforce_compatibility_bounds();
}

#[test]
fn tests_programmatic_build_params_enforce_compatibility_bounds() {
    check_programmatic_build_params_enforce_compatibility_bounds();
}

fn check_exact_card_config_values_validate_their_public_ranges() {
    for config in [
        CardRarityConfig { level: Some(0), ..Default::default() },
        CardRarityConfig { skill_level: Some(0), ..Default::default() },
        CardRarityConfig { master_rank: Some(6), ..Default::default() },
        CardRarityConfig { episode_read_count: Some(3), ..Default::default() },
    ] {
        let mut params = BuildParams::default();
        params.card_configs.rarity_4_config = config;
        assert!(matches!(validate_build_params(&params), Err(BuildError::InvalidConfig(_))));
    }
}

#[test]
fn mod_exact_card_config_values_validate_their_public_ranges() {
    check_exact_card_config_values_validate_their_public_ranges();
}

#[test]
fn tests_exact_card_config_values_validate_their_public_ranges() {
    check_exact_card_config_values_validate_their_public_ranges();
}

fn check_boost_is_fire_count_piecewise_multiplier() {
    assert_eq!(normalize_boost_rate_pct(Some(0)), 100);
    assert_eq!(normalize_boost_rate_pct(Some(1)), 500);
    assert_eq!(normalize_boost_rate_pct(Some(5)), 2500);
    assert_eq!(normalize_boost_rate_pct(Some(10)), 3500);
    assert_eq!(normalize_boost_rate_pct(Some(11)), 100);
    assert_eq!(normalize_boost_rate_pct(None), 100);
}

#[test]
fn mod_boost_is_fire_count_piecewise_multiplier() {
    check_boost_is_fire_count_piecewise_multiplier();
}

#[test]
fn tests_boost_is_fire_count_piecewise_multiplier() {
    check_boost_is_fire_count_piecewise_multiplier();
}

fn check_hard_unit_filter_keeps_virtual_singer_support_unit_only_when_matching() {
    let cards = [MasterCard {
        rarity: "rarity_4".to_string(),
        support_unit: Some("light_sound".to_string()),
        ..master(1, 21, "cool", 4, 10, None)
    }];
    let params = [param_row(1, 100, 100, 100)];
    let units = [unit_row(21, "piapro")];
    let game = sample_game(&cards, &params, &[], &[], &[], &[], &[], &[], &units);
    let user = UserProfile { user_cards: vec![sample_user_card(1)], ..UserProfile::default() };

    let ln_params = BuildParams { unit_filter: Some("light_sound".to_string()), ..BuildParams::default() };
    let (pool, _) = build_card_pool(&user, &game, &ln_params).unwrap();
    assert_eq!(pool.count(), 1);

    let mmj_params = BuildParams { unit_filter: Some("idol".to_string()), ..BuildParams::default() };
    assert_eq!(build_card_pool(&user, &game, &mmj_params).unwrap_err(), BuildError::EmptyPool);
}

#[test]
fn mod_hard_unit_filter_keeps_virtual_singer_support_unit_only_when_matching() {
    check_hard_unit_filter_keeps_virtual_singer_support_unit_only_when_matching();
}

#[test]
fn tests_hard_unit_filter_keeps_virtual_singer_support_unit_only_when_matching() {
    check_hard_unit_filter_keeps_virtual_singer_support_unit_only_when_matching();
}

fn check_handler_build_card_pool_only_clamps_fixture_bonus_for_matching_event() {
    let cards = [master(1, 1, "cool", 4, 10, None)];
    let params = [param_row(1, 100, 100, 100)];
    let skills = [Skill { id: 10, level: 1, is_after_training: false }];
    let effects = [score_up(10, 100)];
    let units = [unit_row(1, "idol")];
    let events = [Event { id: FINAL_CHAPTER_EVENT_ID, event_type: "marathon".to_string() }];
    let fixture_limits = [EventFixtureBonusLimit { event_id: FINAL_CHAPTER_EVENT_ID, bonus_rate_limit: 20 }];
    let game = GameData {
        events: &events,
        event_mysekai_fixture_performance_bonus_limits: &fixture_limits,
        ..sample_game(&cards, &params, &[], &[], &[], &skills, &effects, &[], &units)
    };
    let user = UserProfile {
        user_cards: vec![sample_user_card(1)],
        user_mysekai_fixture_bonuses: vec![UserFixtureBonus { character_id: 1, event_id: None, total_bonus_rate: 30 }],
        ..UserProfile::default()
    };

    let (pool, _) = build_card_pool(&user, &game, &BuildParams::default()).unwrap();
    assert_eq!(pool.cards[0].power_max, 309);

    let params = BuildParams {
        event_id: Some(FINAL_CHAPTER_EVENT_ID),
        fixed_characters: vec![1],
        ..BuildParams::default()
    };
    let (pool, _) = build_card_pool(&user, &game, &params).unwrap();
    assert_eq!(pool.cards[0].power_max, 306);
}

#[test]
fn mod_handler_build_card_pool_only_clamps_fixture_bonus_for_matching_event() {
    check_handler_build_card_pool_only_clamps_fixture_bonus_for_matching_event();
}

#[test]
fn tests_handler_build_card_pool_only_clamps_fixture_bonus_for_matching_event() {
    check_handler_build_card_pool_only_clamps_fixture_bonus_for_matching_event();
}

fn check_handler_final_chapter_allows_auto_leader_without_fixed_character() {
    let cards = [master(1, 1, "cool", 4, 10, None)];
    let params = [param_row(1, 100, 100, 100)];
    let skills = [Skill { id: 10, level: 1, is_after_training: false }];
    let effects = [score_up(10, 100)];
    let units = [unit_row(1, "idol")];
    let events = [Event { id: FINAL_CHAPTER_EVENT_ID, event_type: "marathon".to_string() }];
    let game = GameData { events: &events, ..sample_game(&cards, &params, &[], &[], &[], &skills, &effects, &[], &units) };
    let user = UserProfile { user_cards: vec![sample_user_card(1)], ..UserProfile::default() };
    let params = BuildParams { event_id: Some(FINAL_CHAPTER_EVENT_ID), ..BuildParams::default() };

    let (_, ctx) = build_card_pool(&user, &game, &params).expect("a finale without a fixed leader builds");
    assert!(ctx.is_final_chapter);
    assert!(!ctx.has_fixed_leader());
}

#[test]
fn mod_handler_final_chapter_allows_auto_leader_without_fixed_character() {
    check_handler_final_chapter_allows_auto_leader_without_fixed_character();
}

#[test]
fn tests_handler_final_chapter_allows_auto_leader_without_fixed_character() {
    check_handler_final_chapter_allows_auto_leader_without_fixed_character();
}

fn check_handler_build_card_pool_splits_bfes_reference_skill_cards() {
    let cards = [master(1, 1, "cool", 4, 10, Some(11))];
    let skills = [
        Skill { id: 10, level: 1, is_after_training: false },
        Skill { id: 11, level: 1, is_after_training: true },
    ];
    let effects = [
        score_up(10, 80),
        SkillEffect {
            effect_type: "score_up_reference".to_string(),
            value: 50,
            additional_value: Some(70),
            ..score_up(10, 0)
        },
        score_up(11, 120),
    ];
    let units = [unit_row(1, "idol")];
    let game = sample_game(&cards, &[], &[], &[], &[], &skills, &effects, &[], &units);
    let user = UserProfile { user_cards: vec![sample_user_card(1)], ..UserProfile::default() };
    let params = BuildParams { target: ScoreTarget::Skill, ..BuildParams::default() };

    let (pool, _, full) = build_card_pool_with_details(&user, &game, &params).expect("dual-skill pool should build");
    assert_eq!(pool.count(), 2);
    assert!(full.iter().all(|card| card.skill_state_controls_image));
    assert_eq!(pool.cards[1].skill_max, 120);
}

#[test]
fn mod_handler_build_card_pool_splits_bfes_reference_skill_cards() {
    check_handler_build_card_pool_splits_bfes_reference_skill_cards();
}

#[test]
fn tests_handler_build_card_pool_splits_bfes_reference_skill_cards() {
    check_handler_build_card_pool_splits_bfes_reference_skill_cards();
}

fn check_specialized_unit_count_skill_pair_keeps_both_image_states() {
    let mut before = empty_skill();
    before.full.skill_id = 24;
    before.unit_count = Some(UnitCountSkill { unit: 1, score_up: [30, 60, 90, 120, 150] });
    let mut after = empty_skill();
    after.full.skill_id = 22;

    assert!(is_bfes_skill_pair(&before, &after));
}

#[test]
fn mod_specialized_unit_count_skill_pair_keeps_both_image_states() {
    check_specialized_unit_count_skill_pair_keeps_both_image_states();
}

#[test]
fn tests_specialized_unit_count_skill_pair_keeps_both_image_states() {
    check_specialized_unit_count_skill_pair_keeps_both_image_states();
}

fn check_handler_apply_card_config_supports_override_and_disable() {
    let master = master(1, 1, "cool", 4, 10, None);
    let mut user_card = sample_user_card(1);
    let mut configs = CardConfigSet::default();
    configs.rarity_4_config.level_max = true;
    configs.single_card_configs.push(SingleCardConfig {
        card_id: 1,
        config: CardRarityConfig { disable: true, ..CardRarityConfig::default() },
    });
    assert!(!apply_card_config(&mut user_card, &master, &configs, &[], &[]));

    let mut user_card = sample_user_card(1);
    let mut configs = CardConfigSet::default();
    configs.rarity_4_config.level_max = true;
    configs.rarity_4_config.skill_max = true;
    configs.rarity_4_config.master_max = true;
    assert!(apply_card_config(&mut user_card, &master, &configs, &[], &[]));
    assert_eq!(user_card.level, 60);
    assert_eq!(user_card.skill_level, 4);
    assert_eq!(user_card.master_rank, 5);
}

#[test]
fn mod_handler_apply_card_config_supports_override_and_disable() {
    check_handler_apply_card_config_supports_override_and_disable();
}

#[test]
fn tests_handler_apply_card_config_supports_override_and_disable() {
    check_handler_apply_card_config_supports_override_and_disable();
}

fn check_handler_level_max_marks_trainable_cards_after_training() {
    let master = MasterCard {
        special_training_power1_bonus_fixed: 100,
        special_training_power2_bonus_fixed: 100,
        special_training_power3_bonus_fixed: 100,
        ..master(1, 1, "cool", 4, 10, Some(11))
    };
    let mut user_card = sample_user_card(1);
    user_card.level = 1;
    user_card.special_training_status = "not_doing".to_string();
    user_card.default_image = "original".to_string();
    let mut configs = CardConfigSet::default();
    configs.rarity_4_config.level_max = true;

    assert!(apply_card_config(
        &mut user_card,
        &master,
        &configs,
        &[CardRarity { card_rarity_type: 4, max_level: 60, normal_max_level: 50, max_skill_level: 4 }],
        &[],
    ));

    assert_eq!(user_card.level, 60);
    assert_eq!(user_card.special_training_status, "done");
    assert_eq!(user_card.default_image, "special_training");
}

#[test]
fn mod_handler_level_max_marks_trainable_cards_after_training() {
    check_handler_level_max_marks_trainable_cards_after_training();
}

#[test]
fn tests_handler_level_max_marks_trainable_cards_after_training() {
    check_handler_level_max_marks_trainable_cards_after_training();
}

fn check_handler_exact_card_config_overrides_max_flags_and_uses_episode_ids() {
    let master = MasterCard {
        rarity: "rarity_4".to_string(),
        asset_bundle_name: "card_000007".to_string(),
        ..master(7, 1, "cool", 4, 10, Some(11))
    };
    let rarities = [CardRarity { card_rarity_type: 4, max_level: 60, normal_max_level: 50, max_skill_level: 4 }];
    let episodes = [
        CardEpisode { card_id: 7, episode_no: 702, power1_bonus_fixed: 0, power2_bonus_fixed: 0, power3_bonus_fixed: 0 },
        CardEpisode { card_id: 7, episode_no: 701, power1_bonus_fixed: 0, power2_bonus_fixed: 0, power3_bonus_fixed: 0 },
    ];
    let mut configs = CardConfigSet {
        rarity_4_config: CardRarityConfig {
            level_max: true,
            level: Some(51),
            skill_max: true,
            skill_level: Some(2),
            master_max: true,
            master_rank: Some(3),
            episode_read: true,
            episode_read_count: Some(1),
            ..Default::default()
        },
        ..Default::default()
    };
    let mut user_card = sample_user_card(7);

    assert!(apply_card_config(&mut user_card, &master, &configs, &rarities, &episodes));
    assert_eq!(user_card.level, 51);
    assert_eq!(user_card.skill_level, 2);
    assert_eq!(user_card.master_rank, 3);
    assert_eq!(user_card.episodes_read, vec![701]);
    assert_eq!(user_card.special_training_status, "done");
    assert_eq!(user_card.default_image, "special_training");

    configs.rarity_4_config.level = Some(50);
    let mut user_card = sample_user_card(7);
    assert!(apply_card_config(&mut user_card, &master, &configs, &rarities, &episodes));
    assert_eq!(user_card.special_training_status, "not_doing");
    assert_eq!(user_card.default_image, "original");
}

#[test]
fn mod_handler_exact_card_config_overrides_max_flags_and_uses_episode_ids() {
    check_handler_exact_card_config_overrides_max_flags_and_uses_episode_ids();
}

#[test]
fn tests_handler_exact_card_config_overrides_max_flags_and_uses_episode_ids() {
    check_handler_exact_card_config_overrides_max_flags_and_uses_episode_ids();
}

fn check_handler_cultivated_user_cards_matches_pool_cultivation() {
    let cards = [
        master(1, 1, "cool", 4, 10, None),
        MasterCard { max_level: Some(20), ..master(2, 2, "cute", 1, 11, None) },
    ];
    let game = sample_game(&cards, &[], &[], &[], &[], &[], &[], &[], &[]);
    let user = UserProfile { user_cards: vec![sample_user_card(1), sample_user_card(2)], ..UserProfile::default() };

    let mut params = BuildParams::default();
    params.card_configs.rarity_4_config.level_max = true;
    params.card_configs.rarity_1_config.disable = true;

    let cultivated = cultivated_user_cards(&user, &game, &params);
    assert_eq!(cultivated.len(), 1, "a disabled rarity is dropped");
    assert_eq!(cultivated[0].card_id, 1);
    assert_eq!(cultivated[0].level, 60, "level_max raises the level to max_level");
}

#[test]
fn mod_handler_cultivated_user_cards_matches_pool_cultivation() {
    check_handler_cultivated_user_cards_matches_pool_cultivation();
}

#[test]
fn tests_handler_cultivated_user_cards_matches_pool_cultivation() {
    check_handler_cultivated_user_cards_matches_pool_cultivation();
}

fn check_handler_cultivated_user_cards_canvas_sets_override() {
    let cards = [master(1, 1, "cool", 4, 10, None)];
    let game = sample_game(&cards, &[], &[], &[], &[], &[], &[], &[], &[]);
    let user = UserProfile { user_cards: vec![sample_user_card(1)], ..UserProfile::default() };
    let mut params = BuildParams::default();
    params.card_configs.rarity_4_config.canvas = true;

    let cultivated = cultivated_user_cards(&user, &game, &params);
    assert_eq!(cultivated.len(), 1);
    assert_eq!(cultivated[0].has_canvas_bonus_override, Some(true));
}

#[test]
fn mod_handler_cultivated_user_cards_canvas_sets_override() {
    check_handler_cultivated_user_cards_canvas_sets_override();
}

#[test]
fn tests_handler_cultivated_user_cards_canvas_sets_override() {
    check_handler_cultivated_user_cards_canvas_sets_override();
}

fn check_handler_virtual_fixed_card_training_state_follows_master() {
    let cards = [
        master(1, 1, "cool", 4, 10, Some(11)),
        MasterCard { max_level: Some(20), ..master(2, 2, "cute", 1, 20, None) },
    ];
    let game = sample_game(&cards, &[], &[], &[], &[], &[], &[], &[], &[]);
    let user = UserProfile::default();
    let params = BuildParams { fixed_cards: vec![1, 2], ..BuildParams::default() };

    let normalized = normalize_user_cards(&user, &params, &game);
    let trainable = normalized.iter().find(|card| card.card_id == 1).expect("the trainable fixed card is there");
    assert_eq!(trainable.special_training_status, "done");
    assert_eq!(trainable.default_image, "special_training");
    let untrainable = normalized.iter().find(|card| card.card_id == 2).expect("the other fixed card is there");
    assert_eq!(untrainable.special_training_status, "none");
    assert_eq!(untrainable.default_image, "original");
}

#[test]
fn mod_handler_virtual_fixed_card_training_state_follows_master() {
    check_handler_virtual_fixed_card_training_state_follows_master();
}

#[test]
fn tests_handler_virtual_fixed_card_training_state_follows_master() {
    check_handler_virtual_fixed_card_training_state_follows_master();
}

fn check_handler_sort_and_gather_reindexes_dense_order() {
    let card = |game_card_id: i32, power_max: i32| CardIntermediate {
        game_card_id,
        card_rarity_type: 4,
        character_id: game_card_id as u8,
        attr: 0,
        unit_mask_raw: 1,
        default_image: DefaultImage::Original,
        after_training: false,
        skill_state_controls_image: false,
        master_rank: 0,
        skill_level: 1,
        has_char_bonus: false,
        has_attr_bonus: false,
        power: power_result(power_max - 10, power_max),
        skill: SkillResult { skill_min: 1, skill_max: 2, ..empty_skill() },
        event_bonus: EventBonusExact::from_whole(1, 1),
        leader_honor_bonus: 0,
        leader_limit_bonus: 0,
        ep_sort_key: power_max as i64,
    };
    let (pool, _, _) = sort_and_gather(
        vec![card(1, 100), card(3, 300), card(2, 200)],
        ScoreTarget::Power,
        false,
        LiveType::Solo,
        &vec![],
        &vec![],
        false,
    );
    assert_eq!(pool.count(), 3);
    assert_eq!(pool.game_id(CardIdx::new(0)), 3);
    assert_eq!(pool.game_id(CardIdx::new(1)), 2);
    assert_eq!(pool.game_id(CardIdx::new(2)), 1);
}

#[test]
fn mod_handler_sort_and_gather_reindexes_dense_order() {
    check_handler_sort_and_gather_reindexes_dense_order();
}

#[test]
fn tests_handler_sort_and_gather_reindexes_dense_order() {
    check_handler_sort_and_gather_reindexes_dense_order();
}

fn check_handler_sort_and_gather_moves_fixed_card_states_before_members() {
    let card = |game_card_id: i32, character_id: u8, power_max: i32, skill_max: u8, default_image: DefaultImage| {
        let trained = default_image == DefaultImage::SpecialTraining;
        CardIntermediate {
            game_card_id,
            card_rarity_type: 4,
            character_id,
            attr: 0,
            unit_mask_raw: 1,
            default_image,
            after_training: trained,
            skill_state_controls_image: false,
            master_rank: 0,
            skill_level: 1,
            has_char_bonus: false,
            has_attr_bonus: false,
            power: power_result(power_max - 10, power_max),
            skill: SkillResult {
                slot: SkillSlot { skill_type: 0, value: 0 },
                unit_count: None,
                diff: None,
                ref_skill: if game_card_id == 949 && !trained { Some(RefSkill { rate: 50, max: 70 }) } else { None },
                skill_min: skill_max,
                skill_max,
                full: SkillInfo {
                    skill_id: if game_card_id == 949 { if trained { 2 } else { 1 } } else { 0 },
                    is_after_training: trained,
                    has_ref: game_card_id == 949 && !trained,
                    ..skill_info()
                },
            },
            event_bonus: EventBonusExact::from_whole(1, 1),
            leader_honor_bonus: 0,
            leader_limit_bonus: 0,
            ep_sort_key: power_max as i64,
        }
    };
    let (pool, full, _) = sort_and_gather(
        vec![
            card(121, 26, 90_000, 110, DefaultImage::Original),
            card(949, 17, 70_000, 150, DefaultImage::Original),
            card(949, 17, 70_000, 148, DefaultImage::SpecialTraining),
            card(404, 21, 80_000, 120, DefaultImage::Original),
        ],
        ScoreTarget::Score,
        true,
        LiveType::Multi,
        &vec![949],
        &vec![],
        true,
    );

    assert_eq!(pool.game_id(CardIdx::new(0)), 949);
    assert_eq!(pool.game_id(CardIdx::new(1)), 949);
    assert_eq!(full[0].game_card_id, 949);
    assert_eq!(full[1].game_card_id, 949);
    assert_eq!(full[0].default_image, DefaultImage::SpecialTraining);
    assert!(full[0].after_training);
    assert!(!full[1].after_training);
}

#[test]
fn mod_handler_sort_and_gather_moves_fixed_card_states_before_members() {
    check_handler_sort_and_gather_moves_fixed_card_states_before_members();
}

#[test]
fn tests_handler_sort_and_gather_moves_fixed_card_states_before_members() {
    check_handler_sort_and_gather_moves_fixed_card_states_before_members();
}

fn check_handler_ordinary_trained_card_without_after_skill_uses_trained_art() {
    let mut user_card = sample_user_card(1);
    user_card.special_training_status = "done".to_string();
    user_card.default_image = "original".to_string();
    let master = MasterCard {
        rarity: "rarity_4".to_string(),
        special_training_power1_bonus_fixed: 100,
        special_training_power2_bonus_fixed: 100,
        special_training_power3_bonus_fixed: 100,
        ..master(1, 1, "cool", 4, 10, None)
    };

    assert_eq!(
        skill_states_for_card(
            DefaultImage::Original,
            is_after_training(&user_card.special_training_status),
            &master,
            &BuildParams::default(),
        ),
        ([SkillState::AfterTraining, SkillState::AfterTraining], 1)
    );
}

#[test]
fn mod_handler_ordinary_trained_card_without_after_skill_uses_trained_art() {
    check_handler_ordinary_trained_card_without_after_skill_uses_trained_art();
}

#[test]
fn tests_handler_ordinary_trained_card_without_after_skill_uses_trained_art() {
    check_handler_ordinary_trained_card_without_after_skill_uses_trained_art();
}

fn check_handler_non_bfes_before_after_skill_states_collapse_to_best_skill() {
    let before = SkillResult {
        skill_min: 120,
        skill_max: 120,
        full: SkillInfo { skill_id: 10, is_after_training: false, base_score_up: 120, ..skill_info() },
        ..empty_skill()
    };
    let after = SkillResult {
        full: SkillInfo { skill_id: 11, is_after_training: true, ..before.full },
        ..before
    };

    let mut collapsed = vec![Some((SkillState::AfterTraining, after)), Some((SkillState::BeforeTraining, before))];
    assert!(!collapse_non_bfes_skill_states(&mut collapsed, 2));
    let collapsed = collapsed.into_iter().flatten().collect::<Vec<_>>();

    assert_eq!(collapsed.len(), 1);
    assert_eq!(collapsed[0].0, SkillState::BeforeTraining);
}

#[test]
fn mod_handler_non_bfes_before_after_skill_states_collapse_to_best_skill() {
    check_handler_non_bfes_before_after_skill_states_collapse_to_best_skill();
}

#[test]
fn tests_handler_non_bfes_before_after_skill_states_collapse_to_best_skill() {
    check_handler_non_bfes_before_after_skill_states_collapse_to_best_skill();
}

fn check_handler_build_card_pool_end_to_end_minimal() {
    let cards = [
        master(1, 1, "cool", 4, 10, None),
        master(2, 2, "cute", 4, 11, None),
        master(3, 3, "happy", 4, 12, None),
    ];
    let params_table = [param_row(1, 100, 100, 100), param_row(2, 110, 110, 110), param_row(3, 120, 120, 120)];
    let rarities = [CardRarity { card_rarity_type: 4, max_level: 60, normal_max_level: 50, max_skill_level: 4 }];
    let skills = [
        Skill { id: 10, level: 1, is_after_training: false },
        Skill { id: 11, level: 1, is_after_training: false },
        Skill { id: 12, level: 1, is_after_training: false },
    ];
    let effects = [score_up(10, 100), score_up(11, 110), score_up(12, 120)];
    let units = [unit_row(1, "idol"), unit_row(2, "street"), unit_row(3, "themepark")];
    let music = [MusicMeta {
        music_id: 99,
        difficulty: "master".to_string(),
        event_rate_solo: 100,
        event_rate_multi: 110,
        event_rate_auto: 90,
        base_score_micro: 1_000_000,
        base_score_auto_micro: 1_000_000,
        fever_score_micro: 0,
        solo_skill_scores_micro: [0; 6],
        multi_skill_scores_micro: [0; 6],
        auto_skill_scores_micro: [0; 6],
        music_time_micro: 100_000_000,
        tap_count: 500,
    }];
    let game = GameData {
        music_metas: &music,
        ..sample_game(&cards, &params_table, &rarities, &[], &[], &skills, &effects, &[], &units)
    };
    let user = UserProfile {
        user_cards: vec![sample_user_card(1), sample_user_card(2), sample_user_card(3)],
        ..UserProfile::default()
    };
    let params = BuildParams {
        music_id: Some(99),
        live_type: LiveType::Solo,
        target: ScoreTarget::Score,
        skill_reference_strategy: SkillReferenceStrategy::Average,
        ..BuildParams::default()
    };

    let (pool, ctx, details) = build_card_pool_with_details(&user, &game, &params).unwrap();
    let shared_indexes = PreparedGameIndexes::new(&game);
    let prepared = PreparedGameData::with_indexes(game, &shared_indexes);
    let (prepared_pool, prepared_ctx, prepared_details) =
        build_card_pool_with_details_prepared(&user, &prepared, &params).unwrap();
    let prepared_build = PreparedPoolBuild::new(&user, &prepared, &params).unwrap();
    let (fully_prepared_pool, fully_prepared_ctx, fully_prepared_details) =
        build_card_pool_with_details_fully_prepared(&prepared, &prepared_build).unwrap();
    assert_eq!(prepared_pool.count(), pool.count());
    assert_eq!(prepared_ctx, ctx);
    assert_eq!(prepared_details, details);
    assert_eq!(fully_prepared_pool.count(), pool.count());
    assert_eq!(fully_prepared_ctx, ctx);
    assert_eq!(fully_prepared_details, details);
    assert_eq!(pool.count(), 3);
    assert_eq!(details.len(), pool.count());
    assert!(details
        .iter()
        .enumerate()
        .all(|(index, detail)| detail.game_card_id == pool.game_id(CardIdx::new(index as u16))));
    assert_eq!(ctx.music_rate_pct, 100);
    assert_eq!(ctx.target, ScoreTarget::Score);
    assert_eq!(ctx.leader_honor_bonus.len(), 3);
}

#[test]
fn mod_handler_build_card_pool_end_to_end_minimal() {
    check_handler_build_card_pool_end_to_end_minimal();
}

#[test]
fn tests_handler_build_card_pool_end_to_end_minimal() {
    check_handler_build_card_pool_end_to_end_minimal();
}

fn per_character_counts(cards: &[CardIntermediate]) -> [u8; 27] {
    let mut chars_seen = [0u8; 27];
    for card in cards {
        chars_seen[card.character_id as usize] += 1;
    }
    chars_seen
}

fn check_handler_target_trim_power_keeps_top_per_character() {
    let mut cards = Vec::new();
    for ch in 0..26u8 {
        for i in 0..21i32 {
            cards.push(make_card((ch as i32) * 100 + i, ch, 30000 - i * 100, 20));
        }
    }
    assert!(cards.len() > 512);

    let params = BuildParams { target: ScoreTarget::Power, ..BuildParams::default() };
    target_per_character_trim(&mut cards, &params);

    for (ch, &count) in per_character_counts(&cards).iter().enumerate() {
        assert!(count <= GENERAL_PER_CHAR_KEEP as u8, "character {ch} keeps {count} cards");
    }
    assert!(cards.len() <= 260, "{} cards left", cards.len());
    for ch in 0..26u8 {
        let best_id = (ch as i32) * 100;
        assert!(cards.iter().any(|c| c.game_card_id == best_id), "best card {best_id} of {ch} kept");
    }
}

#[test]
fn mod_handler_target_trim_power_keeps_top_per_character() {
    check_handler_target_trim_power_keeps_top_per_character();
}

#[test]
fn tests_handler_target_trim_power_keeps_top_per_character() {
    check_handler_target_trim_power_keeps_top_per_character();
}

fn check_handler_target_trim_skill_keeps_top_per_character() {
    let mut cards = Vec::new();
    for ch in 0..26u8 {
        for i in 0..21i32 {
            cards.push(make_card((ch as i32) * 100 + i, ch, 30000, 100 - i as u8));
        }
    }
    assert!(cards.len() > 512);

    let params = BuildParams { target: ScoreTarget::Skill, ..BuildParams::default() };
    target_per_character_trim(&mut cards, &params);

    for (ch, &count) in per_character_counts(&cards).iter().enumerate() {
        assert!(count <= GENERAL_PER_CHAR_KEEP as u8, "character {ch} keeps {count} cards");
    }
    assert!(cards.len() <= 260, "{} cards left", cards.len());
    for ch in 0..26u8 {
        let best_id = (ch as i32) * 100;
        assert!(cards.iter().any(|c| c.game_card_id == best_id), "best card {best_id} of {ch} kept");
    }
}

#[test]
fn mod_handler_target_trim_skill_keeps_top_per_character() {
    check_handler_target_trim_skill_keeps_top_per_character();
}

#[test]
fn tests_handler_target_trim_skill_keeps_top_per_character() {
    check_handler_target_trim_skill_keeps_top_per_character();
}

fn check_handler_target_trim_preserves_fixed_cards_and_characters() {
    let mut cards = Vec::new();
    for ch in 0..26u8 {
        for i in 0..21i32 {
            cards.push(make_card((ch as i32) * 100 + i, ch, 30000 - i * 100, 20));
        }
    }
    let fixed_card_id: i32 = 5 * 100 + 20;
    let params = BuildParams { target: ScoreTarget::Power, fixed_cards: vec![fixed_card_id], ..BuildParams::default() };
    target_per_character_trim(&mut cards, &params);
    assert!(cards.iter().any(|c| c.game_card_id == fixed_card_id), "the fixed card is kept");

    let mut cards2 = Vec::new();
    for ch in 0..26u8 {
        for i in 0..21i32 {
            cards2.push(make_card((ch as i32) * 100 + i, ch, 30000 - i * 100, 20));
        }
    }
    let params2 = BuildParams { target: ScoreTarget::Power, fixed_characters: vec![3], ..BuildParams::default() };
    target_per_character_trim(&mut cards2, &params2);
    let role3_count = cards2.iter().filter(|c| c.character_id == 3).count();
    assert_eq!(role3_count, 21, "every card of the fixed character 3 is kept");
}

#[test]
fn mod_handler_target_trim_preserves_fixed_cards_and_characters() {
    check_handler_target_trim_preserves_fixed_cards_and_characters();
}

#[test]
fn tests_handler_target_trim_preserves_fixed_cards_and_characters() {
    check_handler_target_trim_preserves_fixed_cards_and_characters();
}

fn check_handler_build_power_large_pool_does_not_error() {
    let mut master_cards = Vec::new();
    let mut card_params = Vec::new();
    let mut skills = Vec::new();
    let mut effects = Vec::new();
    let mut units = Vec::new();
    let mut user_cards = Vec::new();
    for ch in 1i32..=26i32 {
        for i in 0i32..25i32 {
            let card_id = ch * 100 + i;
            master_cards.push(master(card_id, ch, "cool", 4, card_id * 10, None));
            card_params.push(param_row(card_id, 100 + i, 100, 100));
            skills.push(Skill { id: card_id * 10, level: 1, is_after_training: false });
            effects.push(score_up(card_id * 10, 100));
            units.push(unit_row(ch, "idol"));
            user_cards.push(sample_user_card(card_id));
        }
    }
    let rarities = [CardRarity { card_rarity_type: 4, max_level: 60, normal_max_level: 50, max_skill_level: 4 }];
    let game = sample_game(&master_cards, &card_params, &rarities, &[], &[], &skills, &effects, &[], &units);
    let user = UserProfile { user_cards, ..UserProfile::default() };
    let params = BuildParams { target: ScoreTarget::Power, ..BuildParams::default() };

    let result = build_card_pool(&user, &game, &params);
    assert!(result.is_ok(), "a large power pool builds: {result:?}");
    let (pool, _) = result.unwrap();
    assert!(pool.count() <= 512, "the pool holds at most 512 cards");
}

#[test]
fn mod_handler_build_power_large_pool_does_not_error() {
    check_handler_build_power_large_pool_does_not_error();
}

#[test]
fn tests_handler_build_power_large_pool_does_not_error() {
    check_handler_build_power_large_pool_does_not_error();
}

#[test]
fn forced_leader_character_becomes_a_fixed_character_slot() {
    let cards = vec![
        make_card(100, 1, 30000, 20),
        make_card(200, 2, 29000, 20),
        make_card(300, 3, 28000, 20),
        make_card(400, 4, 27000, 20),
        make_card(500, 5, 26000, 20),
    ];

    let params = BuildParams { fixed_cards: vec![100], forced_leader_character_id: Some(3), ..BuildParams::default() };
    let (fixed_card_ids, fixed_character_ids) = validate_fixed_constraints(&params, &cards).expect("valid constraints");
    assert_eq!(fixed_card_ids, vec![100u16]);
    assert_eq!(fixed_character_ids, vec![3u8]);

    let params = BuildParams { fixed_cards: vec![100], forced_leader_character_id: Some(1), ..BuildParams::default() };
    let (fixed_card_ids, fixed_character_ids) = validate_fixed_constraints(&params, &cards).expect("valid constraints");
    assert_eq!(fixed_card_ids, vec![100u16]);
    assert!(fixed_character_ids.is_empty());

    let params = BuildParams { fixed_characters: vec![3], forced_leader_character_id: Some(3), ..BuildParams::default() };
    let (_, fixed_character_ids) = validate_fixed_constraints(&params, &cards).expect("valid constraints");
    assert_eq!(fixed_character_ids, vec![3u8]);
}

#[test]
fn forced_leader_character_rejects_a_full_fixed_deck_and_an_absent_character() {
    let cards = vec![
        make_card(100, 1, 30000, 20),
        make_card(200, 2, 29000, 20),
        make_card(300, 3, 28000, 20),
        make_card(400, 4, 27000, 20),
        make_card(500, 5, 26000, 20),
    ];
    let params = BuildParams {
        fixed_cards: vec![100, 200, 300, 400, 500],
        forced_leader_character_id: Some(6),
        ..BuildParams::default()
    };
    assert!(validate_fixed_constraints(&params, &cards).is_err());

    let params = BuildParams { forced_leader_character_id: Some(6), ..BuildParams::default() };
    assert!(validate_fixed_constraints(&params, &cards).is_err());
}

#[test]
fn forced_leader_character_is_dropped_for_challenge_live() {
    let cards = vec![make_card(100, 1, 30000, 20), make_card(101, 1, 29000, 20)];
    let params = BuildParams {
        live_type: LiveType::Challenge,
        forced_leader_character_id: Some(3),
        ..BuildParams::default()
    };
    let (_, fixed_character_ids) = validate_fixed_constraints(&params, &cards).expect("a challenge live ignores the leader");
    assert!(fixed_character_ids.is_empty());
}

fn leader_master_cards(count: i32) -> Vec<MasterCard> {
    (1..=count)
        .map(|id| MasterCard {
            asset_bundle_name: format!("chara_{id:06}"),
            ..master(id, id, "cool", 4, 10, None)
        })
        .collect()
}

#[test]
fn handler_forced_leader_reaches_the_search_context_for_a_normal_event() {
    let cards = leader_master_cards(6);
    let card_params = (1..=6).map(|card_id| param_row(card_id, 100, 100, 100)).collect::<Vec<_>>();
    let skills = [Skill { id: 10, level: 1, is_after_training: false }];
    let effects = [score_up(10, 100)];
    let units = (1..=6).map(|id| unit_row(id, "idol")).collect::<Vec<_>>();
    let events = [Event { id: 42, event_type: "marathon".to_string() }];
    let game = GameData { events: &events, ..sample_game(&cards, &card_params, &[], &[], &[], &skills, &effects, &[], &units) };
    let user = UserProfile { user_cards: (1..=6).map(sample_user_card).collect(), ..UserProfile::default() };

    let params = BuildParams {
        event_id: Some(42),
        live_type: LiveType::Multi,
        target: ScoreTarget::Score,
        forced_leader_character_id: Some(3),
        ..BuildParams::default()
    };
    let (_, ctx) = build_card_pool(&user, &game, &params).expect("a normal event builds");
    assert!(!ctx.is_final_chapter);
    assert_eq!(ctx.forced_leader_character_id, Some(3));
    assert_eq!(ctx.fixed_character_ids, vec![3u8]);
    assert!(!ctx.effective_best_skill_as_leader(), "a named leader keeps the best skill off the leader slot");

    let params = BuildParams {
        event_id: Some(42),
        live_type: LiveType::Multi,
        target: ScoreTarget::Score,
        ..BuildParams::default()
    };
    let (_, ctx) = build_card_pool(&user, &game, &params).expect("builds");
    assert_eq!(ctx.forced_leader_character_id, None);
    assert!(ctx.fixed_character_ids.is_empty());
    assert!(ctx.effective_best_skill_as_leader());
}

struct BonusTierFixture {
    master_cards: Vec<MasterCard>,
    card_params: Vec<CardParameter>,
    skills: Vec<Skill>,
    effects: Vec<SkillEffect>,
    units: Vec<GameCharacterUnit>,
    events: Vec<Event>,
    deck_bonuses: Vec<EventDeckBonus>,
    rarity_rates: Vec<EventRarityBonusRate>,
    music_metas: Vec<MusicMeta>,
}

fn tier_master(id: i32, character_id: i32, attr: &str, rarity: i32) -> MasterCard {
    MasterCard {
        rarity: format!("rarity_{rarity}"),
        asset_bundle_name: format!("chara_{id:06}"),
        ..master(id, character_id, attr, rarity, 10, None)
    }
}

fn bonus_tier_fixture() -> BonusTierFixture {
    let mut master_cards = Vec::new();
    let mut card_params = Vec::new();
    for id in 1..=60i32 {
        master_cards.push(tier_master(id, (id - 1) % 26 + 1, "cute", 4));
        card_params.push(param_row(id, 100, 100, 100));
    }
    for (id, character_id, rarity) in [(101, 5, 4), (102, 6, 4), (103, 7, 2), (104, 8, 2), (105, 9, 2)] {
        master_cards.push(tier_master(id, character_id, "cute", rarity));
        card_params.push(param_row(id, 120, 100, 100));
    }
    let rate = |card_rarity_type: i32, master_rank: i32, bonus_rate_x10: i32| EventRarityBonusRate {
        event_id: 42,
        card_rarity_type,
        master_rank,
        bonus_rate_x10,
    };
    BonusTierFixture {
        master_cards,
        card_params,
        skills: vec![Skill { id: 10, level: 1, is_after_training: false }],
        effects: vec![score_up(10, 100)],
        units: (1..=26).map(|c| unit_row(c, "idol")).collect(),
        events: vec![Event { id: 42, event_type: "marathon".to_string() }],
        deck_bonuses: vec![EventDeckBonus {
            event_id: 42,
            character_id: None,
            unit: None,
            attr: Some("mysterious".to_string()),
            bonus_rate: 25,
        }],
        rarity_rates: vec![rate(4, 0, 100), rate(4, 4, 200), rate(2, 5, 10)],
        music_metas: vec![MusicMeta {
            music_id: 7,
            difficulty: "expert".to_string(),
            event_rate_solo: 100,
            event_rate_multi: 100,
            event_rate_auto: 100,
            base_score_micro: 100_000_000,
            base_score_auto_micro: 100_000_000,
            fever_score_micro: 0,
            solo_skill_scores_micro: [0; 6],
            multi_skill_scores_micro: [0; 6],
            auto_skill_scores_micro: [0; 6],
            music_time_micro: 100_000_000,
            tap_count: 500,
        }],
    }
}

fn bonus_tier_game(fixture: &BonusTierFixture) -> GameData<'_> {
    GameData {
        events: &fixture.events,
        event_deck_bonuses: &fixture.deck_bonuses,
        event_rarity_bonus_rates: &fixture.rarity_rates,
        music_metas: &fixture.music_metas,
        ..sample_game(
            &fixture.master_cards,
            &fixture.card_params,
            &[],
            &[],
            &[],
            &fixture.skills,
            &fixture.effects,
            &[],
            &fixture.units,
        )
    }
}

fn user_card_with_rank(card_id: i32, master_rank: i32) -> UserCard {
    UserCard { master_rank, ..sample_user_card(card_id) }
}

fn bonus_tier_params(tiers: &[i32]) -> BuildParams {
    BuildParams {
        target: ScoreTarget::Bonus,
        event_id: Some(42),
        live_type: LiveType::Multi,
        music_id: Some(7),
        music_diff: Some("expert".to_string()),
        target_bonus_list: tiers.to_vec(),
        ..BuildParams::default()
    }
}

fn tier_user(extra: &[(i32, i32)]) -> UserProfile {
    let mut user_cards: Vec<UserCard> = (1..=60).map(sample_user_card).collect();
    for &(id, rank) in extra {
        user_cards.push(user_card_with_rank(id, rank));
    }
    UserProfile { user_cards, ..UserProfile::default() }
}

#[test]
fn bonus_tier_pool_keeps_master_rank_bonus_cards_and_hits_exact_tiers() {
    let fixture = bonus_tier_fixture();
    let game = bonus_tier_game(&fixture);
    let user = tier_user(&[(101, 0), (102, 4), (103, 5), (104, 5), (105, 5)]);
    let (pool, _ctx) = build_card_pool(&user, &game, &bonus_tier_params(&[33])).expect("档位组卡应能建池");
    let bonuses: Vec<u32> = (0..pool.count())
        .map(|index| pool.event_bonus(CardIdx::new(index as u16)).total_x10())
        .collect();
    assert!(bonuses.contains(&10), "1% 突破加成卡必须进池，实际池内加成种类: {:?}", bonuses);
    assert!(bonuses.iter().all(|&b| b <= 330));
}

#[test]
fn bonus_tier_pool_drops_cards_above_the_highest_target() {
    let mut fixture = bonus_tier_fixture();
    fixture.master_cards.push(MasterCard {
        asset_bundle_name: "chara_002010".to_string(),
        ..tier_master(201, 10, "mysterious", 4)
    });
    fixture.card_params.push(param_row(201, 200, 100, 100));
    let game = bonus_tier_game(&fixture);
    let user = tier_user(&[(101, 0), (102, 4), (103, 5), (104, 5), (105, 5), (201, 5)]);
    let (pool, _) = build_card_pool(&user, &game, &bonus_tier_params(&[33])).expect("档位组卡应能建池");
    let over_target = (0..pool.count())
        .filter(|index| pool.game_id(CardIdx::new(*index as u16)) == 201)
        .count();
    assert_eq!(over_target, 0, "超过最高档位的卡不应进池");
}

#[test]
fn bonus_prefilter_still_drops_low_rarity_cards_without_targets() {
    let fixture = bonus_tier_fixture();
    let game = bonus_tier_game(&fixture);
    let user = tier_user(&[(101, 0), (102, 4), (103, 5), (104, 5), (105, 5)]);
    let (pool, _) = build_card_pool(&user, &game, &bonus_tier_params(&[])).unwrap();
    let bonuses: Vec<u32> = (0..pool.count())
        .map(|index| pool.event_bonus(CardIdx::new(index as u16)).total_x10())
        .collect();
    assert!(!bonuses.contains(&10));
}
