use allium_deck::capacity::{ensure, score};
use allium_deck::data::{
    BuildParams, CardParameter, CardRarityConfig, Event, GameCharacterUnit, GameData, Honor, HonorLevel, MasterCard,
    Skill, SkillEffect, UserCard, UserHonor, UserProfile,
};
use allium_deck::error::BuildError;
use allium_deck::event_bonus::EventBonusExact;
use allium_deck::filter::per_character_trim;
use allium_deck::gather::sort_and_gather;
use allium_deck::pipeline::{
    build_card_pool, build_card_pool_fully_prepared, build_card_pool_prepared, build_card_pool_with_details,
    build_inputs_ok, compute_honor_bonus, PreparedGameData, PreparedPoolBuild,
};
use allium_deck::pool::{CardIntermediate, PowerResult, SkillInfo, SkillResult, SkillSlot};
use allium_deck::types::{DefaultImage, LiveType, ScoreTarget};

fn game_of<'a>(
    cards: &'a [MasterCard],
    params: &'a [CardParameter],
    skills: &'a [Skill],
    effects: &'a [SkillEffect],
    units: &'a [GameCharacterUnit],
) -> GameData<'a> {
    GameData {
        cards,
        card_parameters: params,
        card_rarities: &[],
        card_episodes: &[],
        master_lessons: &[],
        skills,
        skill_effects: effects,
        area_item_levels: &[],
        game_character_units: units,
        character_ranks: &[],
        card_mysekai_canvas_bonuses: &[],
        mysekai_gates: &[],
        mysekai_gate_levels: &[],
        events: &[],
        event_cards: &[],
        event_deck_bonuses: &[],
        event_card_bonus_limits: &[],
        event_honor_bonuses: &[],
        world_bloom_different_attribute_bonuses: &[],
        world_blooms: &[],
        wb_support_deck_bonuses_wl1: &[],
        wb_support_deck_bonuses_wl2: &[],
        wb_support_deck_bonuses_wl3: &[],
        world_bloom_support_deck_unit_event_limited_bonuses: &[],
        event_mysekai_fixture_performance_bonus_limits: &[],
        event_skill_score_up_limits: &[],
        music_metas: &[],
        music_difficulties: &[],
        event_rarity_bonus_rates: &[],
        honors: &[],
        bonds_honors: &[],
    }
}

fn card(id: i32, character_id: i32) -> MasterCard {
    MasterCard {
        id,
        character_id,
        attr: "cool".to_string(),
        card_rarity_type: 4,
        rarity: String::new(),
        asset_bundle_name: String::new(),
        skill_id: 10,
        special_training_skill_id: None,
        special_training_power1_bonus_fixed: 0,
        special_training_power2_bonus_fixed: 0,
        special_training_power3_bonus_fixed: 0,
        support_unit: None,
        max_level: Some(60),
        max_skill_level: Some(4),
        max_master_rank: Some(5),
    }
}

fn owned(card_id: i32) -> UserCard {
    UserCard {
        card_id,
        level: 1,
        skill_level: 1,
        master_rank: 0,
        special_training_status: "none".to_string(),
        default_image: "original".to_string(),
        episodes_read: Vec::new(),
        is_virtual: false,
        has_canvas_bonus_override: None,
    }
}

fn effect(value: i32) -> SkillEffect {
    SkillEffect {
        skill_id: 10,
        skill_level: 1,
        effect_type: "score_up".to_string(),
        value,
        additional_value: None,
        unit_member_count: None,
        unit: None,
        activate_character_rank: None,
    }
}

struct World {
    cards: Vec<MasterCard>,
    params: Vec<CardParameter>,
    skills: Vec<Skill>,
    effects: Vec<SkillEffect>,
    units: Vec<GameCharacterUnit>,
    user: UserProfile,
}

/// `per_char` cards for each of `chars` characters, power falling with the index.
fn world(chars: i32, per_char: i32, skill_value: i32) -> World {
    let mut w = World {
        cards: Vec::new(),
        params: Vec::new(),
        skills: vec![Skill { id: 10, level: 1, is_after_training: false }],
        effects: vec![effect(skill_value)],
        units: Vec::new(),
        user: UserProfile::default(),
    };
    for ch in 1..=chars {
        w.units.push(GameCharacterUnit { game_character_id: ch, unit: "idol".to_string() });
        for i in 0..per_char {
            let id = ch * 1000 + i;
            w.cards.push(card(id, ch));
            w.params.push(CardParameter { card_id: id, level: 1, param1: 1000 - i, param2: 100, param3: 100 });
            w.user.user_cards.push(owned(id));
        }
    }
    w
}

fn simple_intermediate(id: i32, character_id: u8, power: i32) -> CardIntermediate {
    CardIntermediate {
        game_card_id: id,
        card_rarity_type: 4,
        character_id,
        attr: 0,
        unit_mask_raw: 2,
        default_image: DefaultImage::Original,
        after_training: false,
        skill_state_controls_image: false,
        master_rank: 0,
        skill_level: 1,
        power: PowerResult {
            unit_mask: 2,
            base: power,
            character_bonus: 0,
            fixture_bonus: 0,
            gate_bonus: 0,
            area_item_bonus: vec![0; 24],
            power_min: power,
            power_max: power,
        },
        skill: SkillResult {
            slot: SkillSlot { skill_type: 0, value: 100 },
            unit_count: None,
            diff: None,
            ref_skill: None,
            skill_min: 100,
            skill_max: 100,
            full: SkillInfo {
                skill_id: 10,
                is_after_training: false,
                base_score_up: 100,
                life_recovery: 0,
                has_ref: false,
                ref_rate: 0,
                ref_max: 0,
            },
        },
        event_bonus: EventBonusExact::from_x10(0, 0),
        has_char_bonus: false,
        has_attr_bonus: false,
        leader_honor_bonus: 0,
        leader_limit_bonus: 0,
        ep_sort_key: 0,
    }
}

#[test]
fn a_build_without_cards_is_an_empty_pool() {
    let game = game_of(&[], &[], &[], &[], &[]);
    let r = build_card_pool(&UserProfile::default(), &game, &BuildParams::default());
    assert_eq!(r.unwrap_err(), BuildError::EmptyPool);
}

#[test]
fn the_power_of_a_card_is_its_three_dimensions() {
    let w = world(1, 1, 100);
    let game = game_of(&w.cards, &w.params, &w.skills, &w.effects, &w.units);
    let (pool, ctx) = build_card_pool(&w.user, &game, &BuildParams::default()).unwrap();
    assert_eq!(pool.cards[0].power_max, 1000 + 100 + 100);
    assert_eq!(pool.cards[0].skill_max, 100);
    assert_eq!(ctx.skill_ub_global, 100);
    assert_eq!(ctx.life, 1000);
    assert_eq!(ctx.card_bonus_count_limit, 5);
}

#[test]
fn too_many_cards_of_fixed_characters_are_refused() {
    let w = world(2, 300, 100);
    let game = game_of(&w.cards, &w.params, &w.skills, &w.effects, &w.units);
    let params = BuildParams { target: ScoreTarget::Power, fixed_characters: vec![1, 2], ..BuildParams::default() };
    assert_eq!(build_card_pool(&w.user, &game, &params).unwrap_err(), BuildError::TooManyCards(600));
}

#[test]
fn a_skill_above_the_compact_range_is_refused() {
    let w = world(1, 1, 300);
    let game = game_of(&w.cards, &w.params, &w.skills, &w.effects, &w.units);
    assert!(matches!(
        build_card_pool(&w.user, &game, &BuildParams::default()),
        Err(BuildError::CapacityExceeded { max: 255, .. })
    ));
}

#[test]
fn a_simulated_world_bloom_without_a_turn_is_refused() {
    let w = world(1, 1, 100);
    let game = game_of(&w.cards, &w.params, &w.skills, &w.effects, &w.units);
    let params = BuildParams { event_type: Some("world_bloom".to_string()), ..BuildParams::default() };
    assert!(matches!(build_card_pool(&w.user, &game, &params), Err(BuildError::InvalidConfig(_))));
}

#[test]
fn a_fixed_card_the_pool_lacks_empties_the_pool() {
    let w = world(1, 1, 100);
    let game = game_of(&w.cards, &w.params, &w.skills, &w.effects, &w.units);
    let params = BuildParams { fixed_cards: vec![4242], ..BuildParams::default() };
    assert_eq!(build_card_pool(&w.user, &game, &params).unwrap_err(), BuildError::EmptyPool);
}

#[test]
fn a_challenge_live_refuses_fixed_characters() {
    let w = world(1, 1, 100);
    let game = game_of(&w.cards, &w.params, &w.skills, &w.effects, &w.units);
    let params = BuildParams { live_type: LiveType::Challenge, fixed_characters: vec![1], ..BuildParams::default() };
    assert!(matches!(build_card_pool(&w.user, &game, &params), Err(BuildError::InvalidConfig(_))));
}

#[test]
fn trims_keep_a_weak_fixed_card() {
    let w = world(26, 21, 100);
    let game = game_of(&w.cards, &w.params, &w.skills, &w.effects, &w.units);
    let weakest = 5 * 1000 + 20;
    let params = BuildParams { target: ScoreTarget::Power, fixed_cards: vec![weakest], ..BuildParams::default() };
    let (pool, ctx) = build_card_pool(&w.user, &game, &params).unwrap();
    assert!(pool.count() <= 512);
    assert!(pool.cards.iter().any(|c| c.game_id as i32 == weakest));
    assert_eq!(pool.cards[0].game_id as i32, weakest, "the fixed card comes first");
    assert_eq!(ctx.fixed_card_ids, vec![weakest as u16]);
}

#[test]
fn details_follow_the_dense_pool_order() {
    let w = world(3, 2, 100);
    let game = game_of(&w.cards, &w.params, &w.skills, &w.effects, &w.units);
    let (pool, ctx, full) = build_card_pool_with_details(&w.user, &game, &BuildParams::default()).unwrap();
    assert_eq!(full.len(), pool.count());
    for (k, row) in full.iter().enumerate() {
        assert_eq!(row.game_card_id, pool.cards[k].game_id);
        assert_eq!(row.power_max_exact as u32, pool.cards[k].power_max);
    }
    assert_eq!(ctx.leader_honor_bonus.len(), pool.count());
    assert_eq!(ctx.final_chapter_member_keep, vec![true; pool.count()]);
}

#[test]
fn the_pool_uses_the_cultivated_card_values() {
    let w = world(1, 1, 100);
    let game = game_of(&w.cards, &w.params, &w.skills, &w.effects, &w.units);
    let mut params = BuildParams::default();
    params.card_configs.rarity_4_config.skill_max = true;
    let effects = vec![effect(100), SkillEffect { skill_level: 4, value: 150, ..effect(0) }];
    let skills = vec![
        Skill { id: 10, level: 1, is_after_training: false },
        Skill { id: 10, level: 4, is_after_training: false },
    ];
    let game = GameData { skills: &skills, skill_effects: &effects, ..game };
    let shown = allium_deck::card_config::cultivated_user_cards(&w.user, &game, &params);
    assert_eq!(shown[0].skill_level, 4);
    let (pool, _) = build_card_pool(&w.user, &game, &params).unwrap();
    assert_eq!(pool.cards[0].skill_max, 150, "the pool scores the cultivated skill level");
}

#[test]
fn prepared_and_direct_builds_agree() {
    let w = world(4, 3, 100);
    let game = game_of(&w.cards, &w.params, &w.skills, &w.effects, &w.units);
    let params = BuildParams::default();
    let direct = build_card_pool(&w.user, &game, &params).unwrap();
    let prepared = PreparedGameData::new(game);
    let reused = build_card_pool_prepared(&w.user, &prepared, &params).unwrap();
    assert_eq!(direct, reused);
    let build = PreparedPoolBuild::new(&w.user, &prepared, &params).unwrap();
    assert_eq!(build.cards.len(), 12);
    assert!(!build.ep_prefilter_applied);
    let fully = build_card_pool_fully_prepared(&prepared, &build).unwrap();
    assert_eq!(direct, fully);
}

#[test]
fn a_clamp_with_an_empty_range_is_reported_before_the_build() {
    let w = world(1, 1, 100);
    let mut cards = w.cards.clone();
    cards[0].max_level = Some(0);
    let game = game_of(&cards, &w.params, &w.skills, &w.effects, &w.units);
    let mut params = BuildParams::default();
    params.card_configs.rarity_4_config = CardRarityConfig { level: Some(3), ..CardRarityConfig::default() };
    assert!(!build_inputs_ok(&w.user, &game, &params));
    assert!(build_inputs_ok(&w.user, &game, &BuildParams::default()));
}

#[test]
fn title_bonuses_add_up() {
    let honors = vec![
        Honor { id: 1, levels: vec![HonorLevel { level: 1, bonus: 10 }, HonorLevel { level: 2, bonus: 20 }], asset_bundle_name: None },
        Honor { id: 2, levels: vec![HonorLevel { level: 1, bonus: 5 }], asset_bundle_name: None },
    ];
    let game = GameData { honors: &honors, ..game_of(&[], &[], &[], &[], &[]) };
    let user = UserProfile {
        user_honors: vec![UserHonor { honor_id: 1, level: 2 }, UserHonor { honor_id: 2, level: 1 }, UserHonor { honor_id: 3, level: 1 }],
        ..UserProfile::default()
    };
    assert_eq!(compute_honor_bonus(&user, &game), 25);
}

#[test]
fn a_normal_event_keeps_the_event_kind_in_the_context() {
    let w = world(2, 1, 100);
    let events = [Event { id: 7, event_type: "marathon".to_string() }];
    let game = GameData { events: &events, ..game_of(&w.cards, &w.params, &w.skills, &w.effects, &w.units) };
    let params = BuildParams { event_id: Some(7), boost: Some(3), ..BuildParams::default() };
    let (_, ctx) = build_card_pool(&w.user, &game, &params).unwrap();
    assert_eq!(ctx.event_type, Some(allium_deck::types::EventType::Marathon));
    assert_eq!(ctx.boost_rate_pct, 1500);
    assert!(!ctx.is_world_bloom);
    assert_eq!(ctx.power_total_cap, None);
}

#[test]
fn the_bonus_trim_leaves_small_lists_alone() {
    let mut cards: Vec<CardIntermediate> = (0..10).map(|i| simple_intermediate(i, 1, 100 + i)).collect();
    let before = cards.clone();
    per_character_trim(&mut cards, &BuildParams::default(), 6, 0);
    assert_eq!(cards, before);
}

#[test]
fn the_bonus_trim_keeps_six_per_character_on_a_large_list() {
    let mut cards: Vec<CardIntermediate> = (0..60).map(|i| simple_intermediate(i, (i % 2 + 1) as u8, 100 + i)).collect();
    per_character_trim(&mut cards, &BuildParams { fixed_cards: vec![0], ..BuildParams::default() }, 6, 0);
    assert_eq!(cards.iter().filter(|c| c.character_id == 1).count(), 7, "six plus the fixed card");
    assert_eq!(cards.iter().filter(|c| c.character_id == 2).count(), 6);
    assert!(cards.iter().any(|c| c.game_card_id == 0));
}

#[test]
fn fixed_characters_sort_after_fixed_cards() {
    let cards = vec![simple_intermediate(1, 1, 900), simple_intermediate(2, 2, 100), simple_intermediate(3, 3, 500)];
    let (pool, _, _) = sort_and_gather(cards, ScoreTarget::Power, false, LiveType::Solo, &vec![3], &vec![2], false);
    let ids: Vec<u16> = pool.cards.iter().map(|c| c.game_id).collect();
    assert_eq!(ids, vec![3, 2, 1]);
}

#[test]
fn compact_fields_refuse_large_values() {
    assert_eq!(score(-5, None, "skill score"), Ok(0));
    assert_eq!(score(300, Some(140), "skill score"), Ok(140));
    assert_eq!(
        score(300, None, "skill score"),
        Err(BuildError::CapacityExceeded { field: "skill score", value: 300, max: 255 })
    );
    assert_eq!(ensure("x", 3, 3), Ok(()));
}

#[test]
fn whole_percent_bonuses_are_tenths() {
    let b = EventBonusExact::from_whole(25, 5);
    assert_eq!(b.base_x10(), 250);
    assert_eq!(b.total_x10(), 300);
    assert_eq!(EventBonusExact::from_x10(251, 0).total_ceil(), 26);
}


#[test]
fn excluded_cards_and_other_characters_never_reach_the_pool() {
    let w = world(3, 2, 100);
    let game = game_of(&w.cards, &w.params, &w.skills, &w.effects, &w.units);
    let mut params = BuildParams::default();
    params.excluded_cards = vec![1000, 2001];
    let (pool, _) = build_card_pool(&w.user, &game, &params).unwrap();
    let ids: Vec<u16> = pool.cards.iter().map(|c| c.game_id).collect();
    assert_eq!(pool.count(), 4);
    assert!(!ids.contains(&1000) && !ids.contains(&2001));
    params.live_type = LiveType::Challenge;
    params.challenge_live_character_id = Some(3);
    let (pool, _) = build_card_pool(&w.user, &game, &params).unwrap();
    assert!(pool.cards.iter().all(|c| c.character_id == 3));
    assert_eq!(pool.count(), 2);
}

#[test]
fn the_bonus_trim_also_keeps_the_most_powerful_cards_when_asked() {
    // Bonus falls as power rises: the best-bonus cards are the weakest.
    let mut cards: Vec<CardIntermediate> = (0..60)
        .map(|i| {
            let mut c = simple_intermediate(i, 1, 1000 + i);
            c.event_bonus = EventBonusExact::from_x10((200 - i) as u16, 0);
            c
        })
        .collect();
    per_character_trim(&mut cards, &BuildParams::default(), 2, 3);
    let ids: Vec<i32> = cards.iter().map(|c| c.game_card_id).collect();
    assert_eq!(ids, vec![0, 1, 57, 58, 59]);
    let mut cards: Vec<CardIntermediate> = (0..60)
        .map(|i| {
            let mut c = simple_intermediate(i, 1, 1000 + i);
            c.event_bonus = EventBonusExact::from_x10((200 - i) as u16, 0);
            c
        })
        .collect();
    per_character_trim(&mut cards, &BuildParams::default(), 2, 0);
    let ids: Vec<i32> = cards.iter().map(|c| c.game_card_id).collect();
    assert_eq!(ids, vec![0, 1]);
}
