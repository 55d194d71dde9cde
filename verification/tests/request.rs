use allium_deck::request::{parse_build_params_json, parse_user_profile_json, RequestError};
use allium_deck::types::{LiveSkillOrder, LiveType, ScoreTarget, Unit};

fn message(error: &RequestError) -> String {
    error.message()
}

#[test]
fn parse_build_params_reads_camel_case_card_configs() {
    let json = r#"{
        "region":"cn","liveType":"solo","target":"power",
        "rarity4Config":{"levelMax":true,"skillMax":true,"masterMax":true,
                         "episodeRead":true,"canvas":true,"level":51,
                         "skillLevel":2,"masterRank":3,"episodeReadCount":1},
        "rarity3Config":{"disable":true}
    }"#;
    let params = parse_build_params_json(json).expect("parse");
    let r4 = &params.card_configs.rarity_4_config;
    assert!(r4.level_max && r4.skill_max && r4.master_max && r4.episode_read && r4.canvas);
    assert_eq!(r4.level, Some(51));
    assert_eq!(r4.skill_level, Some(2));
    assert_eq!(r4.master_rank, Some(3));
    assert_eq!(r4.episode_read_count, Some(1));
    assert!(params.card_configs.rarity_3_config.disable);
    assert!(!params.card_configs.rarity_1_config.level_max);
}

#[test]
fn parse_build_params_accepts_snake_case_card_configs() {
    let json = r#"{"rarity_4_config":{"level_max":true,"master_max":true,
                 "level":52,"skill_level":3,"master_rank":2,
                 "episode_read_count":0}}"#;
    let params = parse_build_params_json(json).expect("parse");
    assert!(params.card_configs.rarity_4_config.level_max);
    assert!(params.card_configs.rarity_4_config.master_max);
    assert!(!params.card_configs.rarity_4_config.skill_max);
    assert_eq!(params.card_configs.rarity_4_config.level, Some(52));
    assert_eq!(params.card_configs.rarity_4_config.skill_level, Some(3));
    assert_eq!(params.card_configs.rarity_4_config.master_rank, Some(2));
    assert_eq!(params.card_configs.rarity_4_config.episode_read_count, Some(0));
}

#[test]
fn parse_build_params_reads_single_card_configs() {
    let json = r#"{"singleCardConfigs":[
        {"cardId":123,"config":{"levelMax":true}},
        {"cardId":456,"skillMax":true}
    ]}"#;
    let params = parse_build_params_json(json).expect("parse");
    assert_eq!(params.single_card_configs.len(), 2);
    assert_eq!(params.single_card_configs[0].card_id, 123);
    assert!(params.single_card_configs[0].config.level_max);
    assert_eq!(params.single_card_configs[1].card_id, 456);
    assert!(params.single_card_configs[1].config.skill_max);
}

#[test]
fn parse_build_params_defaults_card_configs_empty_when_absent() {
    let params = parse_build_params_json(r#"{"region":"cn"}"#).expect("parse");
    assert!(!params.card_configs.rarity_4_config.level_max);
    assert!(params.single_card_configs.is_empty());
}

#[test]
fn parse_build_params_reads_world_bloom_support_max_flags() {
    let camel = parse_build_params_json(r#"{"supportMasterMax":true,"supportSkillMax":true}"#).expect("parse camel case");
    assert!(camel.support_master_max);
    assert!(camel.support_skill_max);
    let snake =
        parse_build_params_json(r#"{"support_master_max":true,"support_skill_max":true}"#).expect("parse snake case");
    assert!(snake.support_master_max);
    assert!(snake.support_skill_max);
}

#[test]
fn parse_build_params_rejects_out_of_range_boost() {
    let err = parse_build_params_json(r#"{"boost":11}"#).expect_err("boost 11 应被拒绝");
    assert!(message(&err).contains("boost"), "{}", message(&err));
    let params = parse_build_params_json(r#"{"boost":10}"#).expect("boost 10 合法");
    assert_eq!(params.boost, Some(10));
    let params = parse_build_params_json(r#"{"boost":0}"#).expect("boost 0 合法");
    assert_eq!(params.boost, Some(0));
}

#[test]
fn parse_build_params_rejects_wrong_typed_integer_fields() {
    let err = parse_build_params_json(r#"{"event_id":"215"}"#).expect_err("字符串 event_id 应被拒绝");
    assert!(message(&err).contains("event_id"), "{}", message(&err));
    let err = parse_build_params_json(r#"{"musicId":"74"}"#).expect_err("字符串 musicId 应被拒绝");
    assert!(message(&err).contains("musicId"), "{}", message(&err));
    let params = parse_build_params_json(r#"{"event_id":215}"#).expect("数字 event_id 合法");
    assert_eq!(params.event_id, Some(215));
}

#[test]
fn parse_build_params_rejects_non_object_payload() {
    let err = parse_build_params_json("[1,2,3]").expect_err("顶层数组应被拒绝");
    assert!(message(&err).contains("JSON 对象"), "{}", message(&err));
    let err = parse_build_params_json(r#""score""#).expect_err("顶层字符串应被拒绝");
    assert!(message(&err).contains("JSON 对象"), "{}", message(&err));
}

#[test]
fn parse_specific_skill_order_rejects_duplicates_and_garbage() {
    let err = parse_build_params_json(r#"{"liveSkillOrder":"specific","specificSkillOrder":[1,2,3,4,4]}"#)
        .expect_err("重复索引应被拒绝");
    assert!(message(&err).contains("重复"), "{}", message(&err));
    let err = parse_build_params_json(r#"{"liveSkillOrder":"specific","specificSkillOrder":"1,2,3,4,x"}"#)
        .expect_err("非数字索引应被拒绝");
    assert!(message(&err).contains("非负整数"), "{}", message(&err));
    let params = parse_build_params_json(r#"{"liveSkillOrder":"specific","specificSkillOrder":[4,3,2,1,0]}"#)
        .expect("合法排列不受影响");
    assert_eq!(params.specific_skill_order, Some([4, 3, 2, 1, 0]));
}

#[test]
fn parse_event_unit_accepts_the_shared_unit_vocabulary() {
    for unit in ["light_sound", "ln", "leoneed", "mmj", "vbs", "piapro"] {
        let parsed = parse_build_params_json(&format!(r#"{{"event_unit":"{unit}"}}"#)).expect(unit);
        assert_eq!(parsed.event_unit.as_deref(), Some(unit));
    }
    let err = parse_build_params_json(r#"{"event_unit":"bogus"}"#).expect_err("非法团应被拒绝");
    assert!(message(&err).contains("event_unit"), "{}", message(&err));
}

#[test]
fn parse_build_params_reads_specific_skill_order() {
    let params = parse_build_params_json(r#"{"liveSkillOrder":"specific","specificSkillOrder":[4,3,2,1,0]}"#)
        .expect("parse");
    assert_eq!(params.live_skill_order, LiveSkillOrder::Specific);
    assert_eq!(params.specific_skill_order, Some([4, 3, 2, 1, 0]));
    let params =
        parse_build_params_json(r#"{"skill_order_choose_strategy":"specific","specific_skill_order":"0,1,2,3,4"}"#)
            .expect("parse");
    assert_eq!(params.live_skill_order, LiveSkillOrder::Specific);
    assert_eq!(params.specific_skill_order, Some([0, 1, 2, 3, 4]));
}

#[test]
fn parse_build_params_reads_bonus_and_custom_event_fields() {
    let params = parse_build_params_json(
        r#"{
            "target":"bonus",
            "limit":7,
            "member":5,
            "timeoutMs":1234,
            "targetBonusList":[225,250],
            "customBonusCharacterIds":[1,5,21],
            "customBonusAttr":"cute",
            "customBonusCharacterSupportUnits":{"21":"street"}
        }"#,
    )
    .expect("parse");
    assert_eq!(params.target, ScoreTarget::Bonus);
    assert_eq!(params.limit, 7);
    assert_eq!(params.member, Some(5));
    assert_eq!(params.timeout_ms, 1234);
    assert_eq!(params.target_bonus_list, vec![225, 250]);
    assert_eq!(params.custom_bonus_character_ids, vec![1, 5, 21]);
    assert_eq!(params.custom_bonus_attr.as_deref(), Some("cute"));
    assert_eq!(params.custom_bonus_character_support_units.len(), 1);
    assert_eq!(params.custom_bonus_character_support_units[0].character_id, 21);
    assert_eq!(params.custom_bonus_character_support_units[0].unit, Unit::Street);
}

#[test]
fn parse_build_params_reads_snake_case_bonus_and_custom_event_fields() {
    let params = parse_build_params_json(
        r#"{
            "target":"bonus",
            "target_bonus_list":[200],
            "custom_bonus_character_ids":[2,6,21],
            "custom_bonus_attr":"pure",
            "custom_bonus_character_support_units":{"21":"idol"}
        }"#,
    )
    .expect("parse");
    assert_eq!(params.target_bonus_list, vec![200]);
    assert_eq!(params.custom_bonus_character_ids, vec![2, 6, 21]);
    assert_eq!(params.custom_bonus_attr.as_deref(), Some("pure"));
    assert_eq!(params.custom_bonus_character_support_units[0].unit, Unit::Idol);
}

#[test]
fn parse_build_params_reads_deck_constraint_fields_in_both_cases() {
    let camel = parse_build_params_json(
        r#"{
            "fixedCards":[101,102],
            "fixedCharacters":[3],
            "excludedCards":[999],
            "forcedLeaderCharacterId":5
        }"#,
    )
    .expect("parse");
    assert_eq!(camel.fixed_cards, vec![101, 102]);
    assert_eq!(camel.fixed_characters, vec![3]);
    assert_eq!(camel.excluded_cards, vec![999]);
    assert_eq!(camel.forced_leader_character_id, Some(5));
    let snake = parse_build_params_json(
        r#"{
            "fixed_cards":[201],
            "fixed_characters":[7,8],
            "excluded_cards":[888],
            "forced_leader_character_id":9
        }"#,
    )
    .expect("parse");
    assert_eq!(snake.fixed_cards, vec![201]);
    assert_eq!(snake.fixed_characters, vec![7, 8]);
    assert_eq!(snake.excluded_cards, vec![888]);
    assert_eq!(snake.forced_leader_character_id, Some(9));
}

#[test]
fn parse_build_params_reads_the_full_simulated_event_option_set() {
    for json in [
        r#"{
            "event_type":"marathon",
            "event_unit":"light_sound",
            "event_attr":"cool",
            "custom_bonus_character_ids":[1,5,21],
            "custom_bonus_character_support_units":{"21":"street"},
            "world_bloom_event_turn":3,
            "world_bloom_character_id":21
        }"#,
        r#"{
            "eventType":"marathon",
            "eventUnit":"light_sound",
            "eventAttr":"cool",
            "customBonusCharacterIds":[1,5,21],
            "customBonusCharacterSupportUnits":{"21":"street"},
            "worldBloomEventTurn":3,
            "worldBloomCharacterId":21
        }"#,
    ] {
        let params = parse_build_params_json(json).expect("parse");
        assert_eq!(params.event_id, None);
        assert_eq!(params.event_type.as_deref(), Some("marathon"));
        assert_eq!(params.event_unit.as_deref(), Some("light_sound"));
        assert_eq!(params.event_attr.as_deref(), Some("cool"));
        assert_eq!(params.custom_bonus_character_ids, vec![1, 5, 21]);
        assert_eq!(params.custom_bonus_character_support_units.len(), 1);
        assert_eq!(params.world_bloom_event_turn, Some(3));
        assert_eq!(params.world_bloom_character_id, Some(21));
    }
}

#[test]
fn parse_build_params_rejects_invalid_bounded_compat_fields() {
    for (json, expected) in [
        (r#"{"limit":0}"#, "limit"),
        (r#"{"limit":101}"#, "limit"),
        (r#"{"member":4}"#, "member"),
        (r#"{"timeoutMs":-1}"#, "timeout"),
        (r#"{"timeoutMs":0}"#, "timeout"),
        (r#"{"limit":null}"#, "limit"),
        (r#"{"timeoutMs":null}"#, "timeout"),
        (r#"{"timeoutMs":1000,"timeout_ms":"bad"}"#, "冲突"),
        (r#"{"target":"unknown"}"#, "target"),
        (r#"{"liveType":"unknown"}"#, "live_type"),
        (r#"{"eventType":"unknown"}"#, "event_type"),
        (r#"{"eventAttr":"unknown"}"#, "event_attr"),
        (r#"{"eventUnit":"unknown"}"#, "event_unit"),
        (r#"{"skillReferenceChooseStrategy":"unknown"}"#, "skill_reference"),
        (r#"{"skillOrderChooseStrategy":"unknown"}"#, "skill_order"),
        (r#"{"skillOrderChooseStrategy":"specific"}"#, "specific_skill_order"),
        (r#"{"skillOrderChooseStrategy":"specific","specificSkillOrder":[0,1]}"#, "5 个索引"),
        (r#"{"targetBonusList":[100]}"#, "bonus target"),
        (r#"{"liveType":"solo","multiLiveScoreUpLowerBound":100}"#, "multi live"),
        (r#"{"targetBonusList":[100,100]}"#, "重复"),
        (r#"{"targetBonusList":[-1]}"#, "bonus"),
        (r#"{"customBonusCharacterIds":[0]}"#, "character"),
        (r#"{"customBonusAttr":"unknown"}"#, "attr"),
        (r#"{"customBonusAttr":1}"#, "attr"),
        (r#"{"customBonusCharacterSupportUnits":{"21":"unknown"}}"#, "support"),
        (r#"{"customBonusCharacterIds":[22],"customBonusCharacterSupportUnits":{"21":"idol"}}"#, "custom bonus character"),
    ] {
        let error = parse_build_params_json(json).expect_err("invalid params must fail");
        assert!(message(&error).contains(expected), "expected {expected:?} in {:?} for {json}", message(&error));
    }
}

#[test]
fn parse_build_params_preserves_null_for_optional_compat_fields() {
    let params = parse_build_params_json(r#"{"member":null,"customBonusAttr":null}"#).expect("optional null fields are None");
    assert_eq!(params.member, None);
    assert_eq!(params.custom_bonus_attr, None);
}

#[test]
fn request_text_that_is_not_json_is_a_syntax_error() {
    assert!(matches!(parse_build_params_json("{"), Err(RequestError::Syntax)));
    assert!(matches!(parse_user_profile_json("nope"), Err(RequestError::Syntax)));
}

#[test]
fn request_defaults_follow_the_build_defaults() {
    let params = parse_build_params_json("{}").unwrap();
    assert_eq!(params.live_type, LiveType::Solo);
    assert_eq!(params.target, ScoreTarget::Score);
    assert_eq!(params.limit, 10);
    assert_eq!(params.timeout_ms, 300000);
    assert!(params.best_skill_as_leader);
    assert_eq!(params.live_skill_order, LiveSkillOrder::Average);
}

#[test]
fn request_equal_aliases_do_not_conflict_and_messages_are_exact() {
    let params = parse_build_params_json(r#"{"timeoutMs":1000,"timeout_ms":1000}"#).unwrap();
    assert_eq!(params.timeout_ms, 1000);
    let err = parse_build_params_json(r#"{"targetBonusList":[1],"target_bonus_list":[2]}"#).unwrap_err();
    assert_eq!(message(&err), "targetBonusList 与 target_bonus_list 冲突");
    let err = parse_build_params_json(r#"{"eventUnit":"bogus"}"#).unwrap_err();
    assert_eq!(message(&err), "event_unit 非法: bogus");
    let err = parse_build_params_json(r#"{"limit":0}"#).unwrap_err();
    assert_eq!(message(&err), "limit 必须在 1..=100 范围内");
    let err = parse_build_params_json(r#"{"member":4}"#).unwrap_err();
    assert_eq!(message(&err), "member 必须在 5..=5 范围内");
    let err = parse_build_params_json(r#"{"specificSkillOrder":[0,1,2,3,7]}"#).unwrap_err();
    assert_eq!(message(&err), "specific_skill_order 索引必须在 0..5");
    let err = parse_build_params_json(r#"{"specificSkillOrder":{}}"#).unwrap_err();
    assert_eq!(message(&err), "specific_skill_order 非法");
    let err = parse_build_params_json(r#"{"customBonusCharacterSupportUnits":[]}"#).unwrap_err();
    assert_eq!(message(&err), "custom bonus support units 必须是对象");
    let err = parse_build_params_json(r#"{"customBonusCharacterSupportUnits":{"x":"idol"}}"#).unwrap_err();
    assert_eq!(message(&err), "custom bonus support character id 非法");
}

#[test]
fn request_support_units_are_ordered_by_character() {
    let params = parse_build_params_json(
        r#"{"customBonusCharacterIds":[21,22,3],"customBonusCharacterSupportUnits":{"3":"idol","21":"street","22":"mmj"}}"#,
    )
    .unwrap();
    let ids: Vec<i32> = params.custom_bonus_character_support_units.iter().map(|u| u.character_id).collect();
    assert_eq!(ids, vec![3, 21, 22]);
}

#[test]
fn request_lower_bound_is_read_in_millionths() {
    let params = parse_build_params_json(r#"{"liveType":"multi","multiLiveScoreUpLowerBound":150.25}"#).unwrap();
    assert_eq!(params.multi_live_score_up_lower_bound_micro, Some(150_250_000));
    let params = parse_build_params_json(r#"{"liveType":"multi","multi_live_score_up_lower_bound":120}"#).unwrap();
    assert_eq!(params.multi_live_score_up_lower_bound_micro, Some(120_000_000));
    let params = parse_build_params_json(r#"{"liveType":"multi","multiLiveScoreUpLowerBound":-0.5}"#).unwrap();
    assert_eq!(params.multi_live_score_up_lower_bound_micro, Some(-500_000));
    let params = parse_build_params_json(r#"{"liveType":"multi","multiLiveScoreUpLowerBound":"high"}"#).unwrap();
    assert_eq!(params.multi_live_score_up_lower_bound_micro, None);
}

#[test]
fn request_parameter_rules_run_after_reading() {
    let err = parse_build_params_json(r#"{"forcedLeaderCharacterId":27}"#).unwrap_err();
    assert_eq!(message(&err), "构建参数非法: forcedLeaderCharacterId must be in 1..=26");
}

#[test]
fn user_profile_reads_rows_with_defaults() {
    let profile = parse_user_profile_json(
        r#"{
            "userCards":[
                {"cardId":1,"level":60,"skillLevel":4,"masterRank":5,"specialTrainingStatus":"done",
                 "defaultImage":"special_training",
                 "episodes":[{"cardEpisodeId":11,"scenarioStatus":"already_read"},{"cardEpisodeId":12,"scenarioStatus":"unread"}]},
                {"cardId":2},
                {"level":3}
            ],
            "userCharacters":[{"characterId":1,"characterRank":30},{"characterRank":2}],
            "userAreas":[{"areaItems":[{"areaItemId":7,"level":3}]},{"areaItems":[{"areaItemId":8}]}],
            "userHonors":[{"honorId":9}],
            "userMysekaiFixtureGameCharacterPerformanceBonuses":[{"gameCharacterId":4,"totalBonusRate":15}],
            "userMysekaiGates":[{"mysekaiGateId":2,"mysekaiGateLevel":10}],
            "userMysekaiCanvases":[{"cardId":1},{"other":2}]
        }"#,
    )
    .unwrap();
    assert_eq!(profile.user_cards.len(), 2);
    let first = &profile.user_cards[0];
    assert_eq!((first.card_id, first.level, first.skill_level, first.master_rank), (1, 60, 4, 5));
    assert_eq!(first.special_training_status, "done");
    assert_eq!(first.episodes_read, vec![11]);
    let second = &profile.user_cards[1];
    assert_eq!((second.level, second.skill_level, second.master_rank), (1, 1, 0));
    assert_eq!(second.special_training_status, "none");
    assert_eq!(second.default_image, "original");
    assert_eq!(profile.user_characters.len(), 1);
    assert_eq!(profile.user_characters[0].character_rank, 30);
    let items: Vec<(i32, i32)> = profile.user_area_items.iter().map(|a| (a.area_item_id, a.level)).collect();
    assert_eq!(items, vec![(7, 3), (8, 0)]);
    assert_eq!(profile.user_honors[0].level, 1);
    assert_eq!(profile.user_mysekai_fixture_bonuses[0].total_bonus_rate, 15);
    assert_eq!(profile.user_mysekai_fixture_bonuses[0].event_id, None);
    assert_eq!(profile.user_mysekai_gate_bonuses[0].mysekai_gate_level, Some(10));
    assert_eq!(profile.user_mysekai_canvas_bonus_cards, vec![1]);
}
