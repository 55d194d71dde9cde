use allium_deck::data::{CardParameter, Event};
use allium_deck::masterdata::{
    flatten_area_item_levels, flatten_card_parameters, flatten_skills, infer_skill_units,
    normalize_target_token, normalize_unit_string, pad6, rarity_type_to_index, rows_fit, RawAreaItemLevel, RawCard,
    RawCardParameterRow, RawCardParameters, RawEventDeckBonus, RawEventRarityBonusRate, RawGameCharacterUnit,
    RawMasterdata, RawSkill, RawSkillEffect, RawSkillEffectDetail, RawSkillEnhance, RawSkillEnhanceCondition,
};
use allium_deck::owned::OwnedGameData;

fn card(id: i32, character_id: i32, rarity: &str, skill_id: i32, params: RawCardParameters) -> RawCard {
    RawCard {
        id,
        character_id,
        card_rarity_type: rarity.to_string(),
        attr: "cool".to_string(),
        support_unit: None,
        skill_id,
        special_training_skill_id: None,
        asset_bundle_name: None,
        special_training_power1_bonus_fixed: 0,
        special_training_power2_bonus_fixed: 0,
        special_training_power3_bonus_fixed: 0,
        card_parameters: params,
    }
}

fn row(level: i32, kind: &str, power: i32) -> RawCardParameterRow {
    RawCardParameterRow { card_level: level, card_parameter_type: kind.to_string(), power }
}

#[test]
fn card_parameters_accept_both_grouped_and_row_encodings() {
    let grouped = card(
        7,
        1,
        "rarity_4",
        3,
        RawCardParameters::Grouped { param1: vec![10, 11], param2: vec![20, 21], param3: vec![30, 31] },
    );
    let rows = card(
        7,
        1,
        "rarity_4",
        3,
        RawCardParameters::Rows(vec![
            row(2, "param3", 31),
            row(1, "param1", 10),
            row(1, "param2", 20),
            row(2, "param1", 11),
            row(1, "param3", 30),
            row(2, "param2", 21),
        ]),
    );
    let expected = vec![
        CardParameter { card_id: 7, level: 1, param1: 10, param2: 20, param3: 30 },
        CardParameter { card_id: 7, level: 2, param1: 11, param2: 21, param3: 31 },
    ];
    assert_eq!(flatten_card_parameters(&grouped), expected);
    assert_eq!(flatten_card_parameters(&rows), expected, "both encodings give the same rows");
}

#[test]
fn card_parameters_rows_skip_levels_missing_a_dimension() {
    let rows = card(
        9,
        2,
        "rarity_3",
        5,
        RawCardParameters::Rows(vec![
            row(1, "param1", 1),
            row(1, "param2", 2),
            row(1, "param3", 3),
            row(2, "param1", 4),
        ]),
    );
    assert_eq!(
        flatten_card_parameters(&rows),
        vec![CardParameter { card_id: 9, level: 1, param1: 1, param2: 2, param3: 3 }],
        "a level missing a parameter gives no row"
    );
}

#[test]
fn card_parameters_grouped_stop_at_the_shortest_list_and_rows_keep_the_last_value() {
    let grouped = card(
        1,
        1,
        "rarity_2",
        1,
        RawCardParameters::Grouped { param1: vec![1, 2, 3], param2: vec![4, 5], param3: vec![6, 7, 8] },
    );
    assert_eq!(flatten_card_parameters(&grouped).len(), 2);
    let rows = card(
        2,
        1,
        "rarity_2",
        1,
        RawCardParameters::Rows(vec![
            row(3, "param1", 1),
            row(3, "param2", 2),
            row(3, "param3", 3),
            row(3, "param1", 9),
            row(3, "param4", 100),
        ]),
    );
    assert_eq!(
        flatten_card_parameters(&rows),
        vec![CardParameter { card_id: 2, level: 3, param1: 9, param2: 2, param3: 3 }]
    );
}

#[test]
fn rarity_names_map_to_indexes() {
    assert_eq!(rarity_type_to_index("rarity_1"), 1);
    assert_eq!(rarity_type_to_index(" RARITY_3 "), 3);
    assert_eq!(rarity_type_to_index("rarity_birthday"), 5);
    assert_eq!(rarity_type_to_index("Birthday"), 5);
    assert_eq!(rarity_type_to_index("rarity_4"), 4);
    assert_eq!(rarity_type_to_index("something"), 4);
    assert_eq!(rarity_type_to_index("\u{3000}rarity_2"), 2);
}

#[test]
fn unit_and_target_tokens_are_normalised() {
    assert_eq!(normalize_unit_string(&Some(" light_sound ".to_string())), Some("light_sound".to_string()));
    assert_eq!(normalize_unit_string(&Some("none".to_string())), None);
    assert_eq!(normalize_unit_string(&Some("  ".to_string())), None);
    assert_eq!(normalize_unit_string(&None), None);
    assert_eq!(normalize_unit_string(&Some("any".to_string())), Some("any".to_string()));
    assert_eq!(normalize_target_token(&Some("any".to_string())), None);
    assert_eq!(normalize_target_token(&Some("cool".to_string())), Some("cool".to_string()));
}

#[test]
fn pad6_pads_with_zeros_and_counts_the_sign() {
    assert_eq!(pad6(12), "000012");
    assert_eq!(pad6(0), "000000");
    assert_eq!(pad6(1234567), "1234567");
    assert_eq!(pad6(-5), "-00005");
}

fn unit(id: i32, character_id: i32, name: &str) -> RawGameCharacterUnit {
    RawGameCharacterUnit { id, game_character_id: character_id, unit: name.to_string() }
}

#[test]
fn skill_units_come_from_the_first_card_and_virtual_singers_use_their_support_group() {
    let units = vec![unit(1, 1, "light_sound"), unit(21, 21, "piapro"), unit(2, 2, "idol")];
    let mut miku = card(10, 21, "rarity_4", 500, RawCardParameters::Rows(vec![]));
    miku.support_unit = Some("street".to_string());
    let cards = vec![
        card(1, 1, "rarity_4", 100, RawCardParameters::Rows(vec![])),
        card(2, 2, "rarity_4", 100, RawCardParameters::Rows(vec![])),
        miku,
        card(11, 21, "rarity_4", 501, RawCardParameters::Rows(vec![])),
        card(12, 99, "rarity_4", 502, RawCardParameters::Rows(vec![])),
    ];
    let table = infer_skill_units(&cards, &units);
    let lookup = |id: i32| table.iter().find(|(k, _)| *k == id).map(|(_, u)| u.clone());
    assert_eq!(lookup(100), Some("light_sound".to_string()));
    assert_eq!(lookup(500), Some("street".to_string()));
    assert_eq!(lookup(501), Some("piapro".to_string()));
    assert_eq!(lookup(502), None);
}

fn detail(level: i32, value: i32) -> RawSkillEffectDetail {
    RawSkillEffectDetail { level, activate_effect_value: value, activate_effect_value2: None }
}

fn effect(kind: &str, details: Vec<RawSkillEffectDetail>) -> RawSkillEffect {
    RawSkillEffect {
        skill_effect_type: kind.to_string(),
        activate_unit_count: None,
        activate_character_rank: None,
        skill_enhance: None,
        skill_effect_details: details,
    }
}

#[test]
fn skills_flatten_to_one_row_per_level_with_their_effects() {
    let mut enhanced = effect("score_up", vec![detail(2, 60), detail(1, 50)]);
    enhanced.skill_enhance = Some(RawSkillEnhance { activate_effect_value: 10, skill_enhance_condition: None });
    let mut rank = effect("score_up_character_rank", vec![detail(1, 5)]);
    rank.activate_character_rank = Some(30);
    let mut count = effect("score_up_unit_count", vec![detail(1, 7)]);
    count.activate_unit_count = Some(3);
    let mut count2 = effect("score_up_unit_count", vec![detail(1, 4)]);
    count2.activate_unit_count = Some(1);
    let skills = vec![RawSkill {
        id: 100,
        skill_effects: vec![
            enhanced,
            effect("life_recovery", vec![detail(1, 300), detail(1, 200)]),
            rank,
            count,
            count2,
            effect("judgment_up", vec![detail(3, 1)]),
        ],
    }];
    let table = vec![(100, "idol".to_string())];
    let (rows, effects) = flatten_skills(&skills, &table);
    assert_eq!(rows.iter().map(|r| r.level).collect::<Vec<_>>(), vec![1, 2, 3]);
    let level1: Vec<_> = effects.iter().filter(|e| e.skill_level == 1).collect();
    assert_eq!(level1[0].effect_type, "score_up");
    assert_eq!(level1[0].value, 50);
    let counts: Vec<_> = level1[1..6].iter().map(|e| (e.unit_member_count, e.value, e.unit.clone())).collect();
    assert_eq!(
        counts,
        vec![
            (Some(1), 50, Some("idol".to_string())),
            (Some(2), 60, Some("idol".to_string())),
            (Some(3), 70, Some("idol".to_string())),
            (Some(4), 80, Some("idol".to_string())),
            (Some(5), 100, Some("idol".to_string())),
        ]
    );
    assert_eq!(level1[6].effect_type, "life_recovery");
    assert_eq!(level1[6].value, 500);
    assert_eq!(level1[7].effect_type, "score_up_character_rank");
    assert_eq!(level1[7].activate_character_rank, Some(30));
    assert_eq!(level1[8].effect_type, "score_up_diff");
    assert_eq!(level1[8].additional_value, Some(4));
    assert_eq!(level1.len(), 9);
    assert!(effects.iter().all(|e| e.skill_level != 3));
}

#[test]
fn enhancement_condition_group_wins_over_the_skill_group() {
    let mut enhanced = effect("score_up_keep", vec![detail(1, 40)]);
    enhanced.skill_enhance = Some(RawSkillEnhance {
        activate_effect_value: 5,
        skill_enhance_condition: Some(RawSkillEnhanceCondition { unit: "street".to_string() }),
    });
    let skills = vec![RawSkill { id: 7, skill_effects: vec![enhanced] }];
    let (_, effects) = flatten_skills(&skills, &vec![(7, "idol".to_string())]);
    assert_eq!(effects.len(), 6);
    assert!(effects[1..].iter().all(|e| e.unit.as_deref() == Some("street")));
}

fn area(id: i32, level: i32, unit: Option<&str>, attr: Option<&str>, rate: i32) -> RawAreaItemLevel {
    RawAreaItemLevel {
        area_item_id: id,
        level,
        target_unit: unit.map(|u| u.to_string()),
        target_card_attr: attr.map(|a| a.to_string()),
        target_game_character_id: None,
        power1_bonus_rate_x100: rate,
        power1_all_match_bonus_rate_x100: rate * 2,
    }
}

#[test]
fn area_items_are_normalised_and_sorted_stably() {
    let raw = vec![
        area(2, 1, Some("idol"), None, 1),
        area(1, 2, Some("any"), None, 2),
        area(1, 1, Some("street"), None, 3),
        area(1, 1, None, Some("cute"), 4),
        area(1, 1, Some("idol"), None, 5),
        area(1, 1, Some("idol"), None, 6),
    ];
    let out = flatten_area_item_levels(&raw);
    let rates: Vec<i32> = out.iter().map(|r| r.power_rate_x100).collect();
    assert_eq!(rates, vec![2, 4, 5, 6, 3, 1]);
    assert_eq!(out[0].unit, None);
    assert_eq!(out[1].attr.as_deref(), Some("cute"));
    assert_eq!(out[1].power_all_match_rate_x100, 8);
}

fn empty_raw() -> RawMasterdata {
    RawMasterdata {
        cards: vec![],
        card_rarities: vec![],
        card_episodes: vec![],
        master_lessons: vec![],
        skills: vec![],
        area_item_levels: vec![],
        game_character_units: vec![],
        character_ranks: vec![],
        card_mysekai_canvas_bonuses: vec![],
        mysekai_gates: vec![],
        mysekai_gate_levels: vec![],
        events: vec![],
        event_cards: vec![],
        event_deck_bonuses: vec![],
        event_card_bonus_limits: vec![],
        event_honor_bonuses: vec![],
        world_bloom_different_attribute_bonuses: vec![],
        world_blooms: vec![],
        wb_support_deck_bonuses_wl1: vec![],
        wb_support_deck_bonuses_wl2: vec![],
        wb_support_deck_bonuses_wl3: vec![],
        world_bloom_support_deck_unit_event_limited_bonuses: vec![],
        event_mysekai_fixture_performance_bonus_limits: vec![],
        event_skill_score_up_limits: vec![],
        music_rows: vec![],
        event_rarity_bonus_rates: vec![],
        honors: vec![],
        bonds_honors: vec![],
    }
}

#[test]
fn assembly_fills_defaults_and_crosses_rarity_rates_with_events() {
    let mut raw = empty_raw();
    let mut trained = card(
        123,
        1,
        " rarity_4",
        9,
        RawCardParameters::Grouped { param1: vec![1], param2: vec![2], param3: vec![3] },
    );
    trained.special_training_skill_id = Some(10);
    raw.cards = vec![trained, card(45, 1, "rarity_2", 9, RawCardParameters::Rows(vec![]))];
    raw.game_character_units = vec![unit(7, 1, "light_sound")];
    raw.events = vec![Event { id: 1, event_type: "marathon".to_string() }, Event { id: 2, event_type: "marathon".to_string() }];
    raw.event_rarity_bonus_rates = vec![
        RawEventRarityBonusRate { card_rarity_type: "rarity_4".to_string(), master_rank: 0, bonus_rate_x10: 100 },
        RawEventRarityBonusRate { card_rarity_type: "rarity_3".to_string(), master_rank: 1, bonus_rate_x10: 50 },
    ];
    raw.event_deck_bonuses = vec![
        RawEventDeckBonus { event_id: 1, game_character_unit_id: Some(7), card_attr: None, bonus_rate: 25 },
        RawEventDeckBonus { event_id: 1, game_character_unit_id: Some(99), card_attr: Some("cute".to_string()), bonus_rate: 25 },
    ];
    let owned = OwnedGameData::from_rows(raw);
    assert_eq!(owned.cards[0].asset_bundle_name, "card_000123_normal");
    assert_eq!(owned.cards[1].asset_bundle_name, "chara_000045");
    assert_eq!(owned.cards[0].card_rarity_type, 4);
    assert_eq!(owned.cards[1].card_rarity_type, 2);
    assert_eq!(owned.card_parameters.len(), 1);
    let rates: Vec<(i32, i32, i32)> =
        owned.event_rarity_bonus_rates.iter().map(|r| (r.event_id, r.card_rarity_type, r.bonus_rate_x10)).collect();
    assert_eq!(rates, vec![(1, 4, 100), (2, 4, 100), (1, 3, 50), (2, 3, 50)]);
    assert_eq!(owned.event_deck_bonuses[0].character_id, Some(1));
    assert_eq!(owned.event_deck_bonuses[0].unit.as_deref(), Some("light_sound"));
    assert_eq!(owned.event_deck_bonuses[1].character_id, None);
    assert_eq!(owned.event_deck_bonuses[1].attr.as_deref(), Some("cute"));
}

#[test]
fn rows_that_overflow_the_integer_tables_are_reported() {
    let mut raw = empty_raw();
    assert!(rows_fit(&raw));
    raw.skills = vec![RawSkill {
        id: 1,
        skill_effects: vec![effect("life_recovery", vec![detail(1, i32::MAX), detail(1, 1)])],
    }];
    assert!(!rows_fit(&raw));
    let mut big = effect("score_up", vec![detail(1, 10)]);
    big.skill_enhance = Some(RawSkillEnhance { activate_effect_value: i32::MAX / 4, skill_enhance_condition: None });
    raw.skills = vec![RawSkill { id: 1, skill_effects: vec![big] }];
    assert!(!rows_fit(&raw));
    raw.skills = vec![RawSkill { id: 1, skill_effects: vec![effect("life_recovery", vec![detail(1, 5), detail(2, i32::MAX)])] }];
    assert!(rows_fit(&raw));
}
