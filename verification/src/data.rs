//! Masterdata rows, player data and request parameters.
//!
//! Rates that masterdata writes as decimal percentages are held here as
//! integers in hundredths of a percent (`_x100`); music constants are held
//! in millionths (`_micro`).

use vstd::prelude::*;
use crate::types::{CustomSupportUnit, LiveSkillOrder, LiveType, ScoreTarget, SkillReferenceStrategy};

verus! {

/// A card of the masterdata.
#[derive(Clone, Debug, PartialEq)]
pub struct MasterCard {
    pub id: i32,
    pub character_id: i32,
    pub attr: String,
    pub card_rarity_type: i32,
    pub rarity: String,
    pub asset_bundle_name: String,
    pub skill_id: i32,
    pub special_training_skill_id: Option<i32>,
    pub special_training_power1_bonus_fixed: i32,
    pub special_training_power2_bonus_fixed: i32,
    pub special_training_power3_bonus_fixed: i32,
    pub support_unit: Option<String>,
    pub max_level: Option<i32>,
    pub max_skill_level: Option<i32>,
    pub max_master_rank: Option<i32>,
}

/// Base power of a card at one level.
#[derive(Clone, Copy, Debug, PartialEq)]
pub struct CardParameter {
    pub card_id: i32,
    pub level: i32,
    pub param1: i32,
    pub param2: i32,
    pub param3: i32,
}

/// Level caps of a rarity.
#[derive(Clone, Copy, Debug, PartialEq)]
pub struct CardRarity {
    pub card_rarity_type: i32,
    pub max_level: i32,
    pub normal_max_level: i32,
    pub max_skill_level: i32,
}

/// A side story of a card and the power it grants once read.
#[derive(Clone, Copy, Debug, PartialEq)]
pub struct CardEpisode {
    pub card_id: i32,
    pub episode_no: i32,
    pub power1_bonus_fixed: i32,
    pub power2_bonus_fixed: i32,
    pub power3_bonus_fixed: i32,
}

/// Power granted by one master rank of a rarity.
#[derive(Clone, Copy, Debug, PartialEq)]
pub struct MasterLesson {
    pub card_rarity_type: i32,
    pub master_rank: i32,
    pub power1_bonus_fixed: i32,
    pub power2_bonus_fixed: i32,
    pub power3_bonus_fixed: i32,
}

/// A skill at one level.
#[derive(Clone, Copy, Debug, PartialEq)]
pub struct Skill {
    pub id: i32,
    pub level: i32,
    pub is_after_training: bool,
}

/// One effect of a skill at one level.
#[derive(Clone, Debug, PartialEq)]
pub struct SkillEffect {
    pub skill_id: i32,
    pub skill_level: i32,
    pub effect_type: String,
    pub value: i32,
    pub additional_value: Option<i32>,
    pub unit_member_count: Option<i32>,
    pub unit: Option<String>,
    pub activate_character_rank: Option<i32>,
}

/// Power bonus of an area item at one level (rates in hundredths of a percent).
#[derive(Clone, Debug, PartialEq)]
pub struct AreaItemLevel {
    pub area_item_id: i32,
    pub level: i32,
    pub unit: Option<String>,
    pub attr: Option<String>,
    pub character_id: Option<i32>,
    pub power_rate_x100: i32,
    pub power_all_match_rate_x100: i32,
}

/// Primary group of a character.
#[derive(Clone, Debug, PartialEq)]
pub struct GameCharacterUnit {
    pub game_character_id: i32,
    pub unit: String,
}

/// Power bonus of a character rank (hundredths of a percent).
#[derive(Clone, Copy, Debug, PartialEq)]
pub struct CharacterRank {
    pub character_rank: i32,
    pub power_bonus_rate_x100: i32,
}

/// Fixed power granted by a canvas, per rarity.
#[derive(Clone, Copy, Debug, PartialEq)]
pub struct CardMysekaiCanvasBonus {
    pub card_rarity_type: i32,
    pub power1_bonus_fixed: i32,
    pub power2_bonus_fixed: i32,
    pub power3_bonus_fixed: i32,
}

/// A gate and the group it serves.
#[derive(Clone, Debug, PartialEq)]
pub struct MysekaiGate {
    pub id: i32,
    pub unit: String,
}

/// Power bonus of a gate level (hundredths of a percent).
#[derive(Clone, Copy, Debug, PartialEq)]
pub struct MysekaiGateLevel {
    pub mysekai_gate_id: i32,
    pub level: i32,
    pub power_bonus_rate_x100: i32,
}

/// An event and its kind code.
#[derive(Clone, Debug, PartialEq)]
pub struct Event {
    pub id: i32,
    pub event_type: String,
}

/// A limited card of an event and its bonuses (percent).
#[derive(Clone, Copy, Debug, PartialEq)]
pub struct EventCard {
    pub event_id: i32,
    pub card_id: i32,
    pub bonus_rate: i32,
    pub leader_bonus_rate: i32,
}

/// A deck-bonus rule of an event (percent).
#[derive(Clone, Debug, PartialEq)]
pub struct EventDeckBonus {
    pub event_id: i32,
    pub character_id: Option<i32>,
    pub unit: Option<String>,
    pub attr: Option<String>,
    pub bonus_rate: i32,
}

/// Number of limited cards whose bonus counts in one deck.
#[derive(Clone, Copy, Debug, PartialEq)]
pub struct EventCardBonusLimit {
    pub event_id: i32,
    pub member_count_limit: i32,
}

/// A leader bonus granted by an owned honor in a final chapter.
#[derive(Clone, Copy, Debug, PartialEq)]
pub struct EventHonorBonus {
    pub event_id: i32,
    pub honor_id: i32,
    pub leader_game_character_id: i32,
    pub bonus_rate: i32,
}

/// World Bloom bonus by the number of distinct attributes in a deck.
#[derive(Clone, Copy, Debug, PartialEq)]
pub struct WorldBloomDiffAttrBonus {
    pub attr_count: i32,
    pub bonus_rate: i32,
}

/// A World Bloom chapter.
#[derive(Clone, Debug, PartialEq)]
pub struct WorldBloom {
    pub event_id: i32,
    pub game_character_id: Option<i32>,
    pub chapter_no: i32,
    pub world_bloom_chapter_type: Option<String>,
}

/// Support-deck bonus of a character kind (`specific` or `others`), hundredths of a percent.
#[derive(Clone, Debug, PartialEq)]
pub struct WBSupportDeckCharacterBonus {
    pub world_bloom_support_deck_character_type: String,
    pub bonus_rate_x100: i32,
}

/// Support-deck bonus of a master rank, hundredths of a percent.
#[derive(Clone, Copy, Debug, PartialEq)]
pub struct WBSupportDeckMasterRankBonus {
    pub master_rank: i32,
    pub bonus_rate_x100: i32,
}

/// Support-deck bonus of a skill level, hundredths of a percent.
#[derive(Clone, Copy, Debug, PartialEq)]
pub struct WBSupportDeckSkillLevelBonus {
    pub skill_level: i32,
    pub bonus_rate_x100: i32,
}

/// Support-deck bonus table of one rarity.
#[derive(Clone, Debug, PartialEq)]
pub struct WBSupportDeckBonus {
    pub card_rarity_type: String,
    pub world_bloom_support_deck_character_bonuses: Vec<WBSupportDeckCharacterBonus>,
    pub world_bloom_support_deck_master_rank_bonuses: Vec<WBSupportDeckMasterRankBonus>,
    pub world_bloom_support_deck_skill_level_bonuses: Vec<WBSupportDeckSkillLevelBonus>,
}

/// Extra support bonus of a card in one World Bloom chapter, hundredths of a percent.
#[derive(Clone, Copy, Debug, PartialEq)]
pub struct WBSupportDeckUnitEventLimitedBonus {
    pub event_id: i32,
    pub game_character_id: i32,
    pub card_id: i32,
    pub bonus_rate_x100: i32,
}

/// Cap on the fixture power bonus during an event.
#[derive(Clone, Copy, Debug, PartialEq)]
pub struct EventFixtureBonusLimit {
    pub event_id: i32,
    pub bonus_rate_limit: i32,
}

/// Cap on the skill score-up during an event (percent, base 100 included).
#[derive(Clone, Copy, Debug, PartialEq)]
pub struct EventSkillScoreUpLimit {
    pub event_id: i32,
    pub score_up_limit: i32,
}

/// One difficulty of a song (score constants in millionths).
#[derive(Clone, Debug, PartialEq)]
pub struct MusicMeta {
    pub music_id: i32,
    pub difficulty: String,
    pub event_rate_solo: i32,
    pub event_rate_multi: i32,
    pub event_rate_auto: i32,
    pub base_score_micro: i64,
    pub base_score_auto_micro: i64,
    pub fever_score_micro: i64,
    pub solo_skill_scores_micro: [i64; 6],
    pub multi_skill_scores_micro: [i64; 6],
    pub auto_skill_scores_micro: [i64; 6],
    pub music_time_micro: i64,
    pub tap_count: i32,
}

/// Event rate of one difficulty of a song.
#[derive(Clone, Debug, PartialEq)]
pub struct MusicDifficulty {
    pub music_id: i32,
    pub difficulty: String,
    pub event_rate: Option<i32>,
}

/// Event bonus of a rarity at a master rank (tenths of a percent).
#[derive(Clone, Copy, Debug, PartialEq)]
pub struct EventRarityBonusRate {
    pub event_id: i32,
    pub card_rarity_type: i32,
    pub master_rank: i32,
    pub bonus_rate_x10: i32,
}

/// Power bonus of an honor level.
#[derive(Clone, Copy, Debug, PartialEq)]
pub struct HonorLevel {
    pub level: i32,
    pub bonus: i32,
}

/// An honor and its levels.
#[derive(Clone, Debug, PartialEq)]
pub struct Honor {
    pub id: i32,
    pub levels: Vec<HonorLevel>,
    pub asset_bundle_name: Option<String>,
}

/// A bonds honor.
#[derive(Clone, Copy, Debug, PartialEq)]
pub struct BondsHonor {
    pub id: i32,
}

/// A borrowed view of the masterdata tables.
#[derive(Clone, Copy)]
pub struct GameData<'a> {
    pub cards: &'a [MasterCard],
    pub card_parameters: &'a [CardParameter],
    pub card_rarities: &'a [CardRarity],
    pub card_episodes: &'a [CardEpisode],
    pub master_lessons: &'a [MasterLesson],
    pub skills: &'a [Skill],
    pub skill_effects: &'a [SkillEffect],
    pub area_item_levels: &'a [AreaItemLevel],
    pub game_character_units: &'a [GameCharacterUnit],
    pub character_ranks: &'a [CharacterRank],
    pub card_mysekai_canvas_bonuses: &'a [CardMysekaiCanvasBonus],
    pub mysekai_gates: &'a [MysekaiGate],
    pub mysekai_gate_levels: &'a [MysekaiGateLevel],
    pub events: &'a [Event],
    pub event_cards: &'a [EventCard],
    pub event_deck_bonuses: &'a [EventDeckBonus],
    pub event_card_bonus_limits: &'a [EventCardBonusLimit],
    pub event_honor_bonuses: &'a [EventHonorBonus],
    pub world_bloom_different_attribute_bonuses: &'a [WorldBloomDiffAttrBonus],
    pub world_blooms: &'a [WorldBloom],
    pub wb_support_deck_bonuses_wl1: &'a [WBSupportDeckBonus],
    pub wb_support_deck_bonuses_wl2: &'a [WBSupportDeckBonus],
    pub wb_support_deck_bonuses_wl3: &'a [WBSupportDeckBonus],
    pub world_bloom_support_deck_unit_event_limited_bonuses: &'a [WBSupportDeckUnitEventLimitedBonus],
    pub event_mysekai_fixture_performance_bonus_limits: &'a [EventFixtureBonusLimit],
    pub event_skill_score_up_limits: &'a [EventSkillScoreUpLimit],
    pub music_metas: &'a [MusicMeta],
    pub music_difficulties: &'a [MusicDifficulty],
    pub event_rarity_bonus_rates: &'a [EventRarityBonusRate],
    pub honors: &'a [Honor],
    pub bonds_honors: &'a [BondsHonor],
}

/// A card owned by the player.
#[derive(Clone, Debug, PartialEq)]
pub struct UserCard {
    pub card_id: i32,
    pub level: i32,
    pub skill_level: i32,
    pub master_rank: i32,
    pub special_training_status: String,
    pub default_image: String,
    pub episodes_read: Vec<i32>,
    pub is_virtual: bool,
    pub has_canvas_bonus_override: Option<bool>,
}

/// Rank of a character for the player.
#[derive(Clone, Copy, Debug, PartialEq)]
pub struct UserCharacter {
    pub character_id: i32,
    pub character_rank: i32,
}

/// An area item owned by the player.
#[derive(Clone, Copy, Debug, PartialEq)]
pub struct UserAreaItem {
    pub area_item_id: i32,
    pub level: i32,
}

/// An honor owned by the player.
#[derive(Clone, Copy, Debug, PartialEq)]
pub struct UserHonor {
    pub honor_id: i32,
    pub level: i32,
}

/// Fixture power bonus of a character for the player (tenths of a percent).
#[derive(Clone, Copy, Debug, PartialEq)]
pub struct UserFixtureBonus {
    pub character_id: i32,
    pub event_id: Option<i32>,
    pub total_bonus_rate: i32,
}

/// Gate power bonus for the player: a gate and level, or a direct rate
/// (hundredths of a percent).
#[derive(Clone, Debug, PartialEq)]
pub struct UserGateBonus {
    pub mysekai_gate_id: Option<i32>,
    pub mysekai_gate_level: Option<i32>,
    pub unit: String,
    pub bonus_rate_x100: i32,
}

/// Everything the pool builder reads of a player.
#[derive(Clone, Debug, PartialEq)]
pub struct UserProfile {
    pub user_cards: Vec<UserCard>,
    pub user_characters: Vec<UserCharacter>,
    pub user_area_items: Vec<UserAreaItem>,
    pub user_honors: Vec<UserHonor>,
    pub user_mysekai_fixture_bonuses: Vec<UserFixtureBonus>,
    pub user_mysekai_gate_bonuses: Vec<UserGateBonus>,
    pub user_mysekai_canvas_bonus_cards: Vec<i32>,
}

impl Default for UserProfile {
    fn default() -> (r: Self)
        ensures
            r.user_cards@.len() == 0,
            r.user_characters@.len() == 0,
            r.user_area_items@.len() == 0,
            r.user_honors@.len() == 0,
            r.user_mysekai_fixture_bonuses@.len() == 0,
            r.user_mysekai_gate_bonuses@.len() == 0,
            r.user_mysekai_canvas_bonus_cards@.len() == 0,
    {
        UserProfile {
            user_cards: Vec::new(),
            user_characters: Vec::new(),
            user_area_items: Vec::new(),
            user_honors: Vec::new(),
            user_mysekai_fixture_bonuses: Vec::new(),
            user_mysekai_gate_bonuses: Vec::new(),
            user_mysekai_canvas_bonus_cards: Vec::new(),
        }
    }
}

/// Cultivation preset for one rarity or one card.
#[derive(Clone, Copy, Debug, PartialEq, Eq, Structural)]
pub struct CardRarityConfig {
    pub disable: bool,
    pub level_max: bool,
    pub level: Option<i32>,
    pub skill_max: bool,
    pub skill_level: Option<i32>,
    pub episode_read: bool,
    pub episode_read_count: Option<i32>,
    pub master_max: bool,
    pub master_rank: Option<i32>,
    pub canvas: bool,
}

/// The preset that changes nothing.
pub open spec fn noop_config() -> CardRarityConfig {
    CardRarityConfig {
        disable: false,
        level_max: false,
        level: None,
        skill_max: false,
        skill_level: None,
        episode_read: false,
        episode_read_count: None,
        master_max: false,
        master_rank: None,
        canvas: false,
    }
}

impl Default for CardRarityConfig {
    fn default() -> (r: Self)
        ensures
            r == noop_config(),
    {
        CardRarityConfig {
            disable: false,
            level_max: false,
            level: None,
            skill_max: false,
            skill_level: None,
            episode_read: false,
            episode_read_count: None,
            master_max: false,
            master_rank: None,
            canvas: false,
        }
    }
}

/// A per-card cultivation override.
#[derive(Clone, Copy, Debug, PartialEq, Eq, Structural)]
pub struct SingleCardConfig {
    pub card_id: i32,
    pub config: CardRarityConfig,
}

/// Cultivation presets by rarity plus per-card overrides.
#[derive(Clone, Debug, PartialEq)]
pub struct CardConfigSet {
    pub rarity_1_config: CardRarityConfig,
    pub rarity_2_config: CardRarityConfig,
    pub rarity_3_config: CardRarityConfig,
    pub rarity_4_config: CardRarityConfig,
    pub rarity_birthday_config: CardRarityConfig,
    pub single_card_configs: Vec<SingleCardConfig>,
}

impl Default for CardConfigSet {
    fn default() -> (r: Self)
        ensures
            r.rarity_1_config == noop_config(),
            r.rarity_2_config == noop_config(),
            r.rarity_3_config == noop_config(),
            r.rarity_4_config == noop_config(),
            r.rarity_birthday_config == noop_config(),
            r.single_card_configs@.len() == 0,
    {
        CardConfigSet {
            rarity_1_config: CardRarityConfig::default(),
            rarity_2_config: CardRarityConfig::default(),
            rarity_3_config: CardRarityConfig::default(),
            rarity_4_config: CardRarityConfig::default(),
            rarity_birthday_config: CardRarityConfig::default(),
            single_card_configs: Vec::new(),
        }
    }
}

/// Parameters of one pool build.
#[derive(Clone, Debug, PartialEq)]
pub struct BuildParams {
    pub region: String,
    pub event_id: Option<i32>,
    pub event_type: Option<String>,
    pub live_type: LiveType,
    pub target: ScoreTarget,
    pub limit: usize,
    pub member: Option<usize>,
    pub timeout_ms: u64,
    pub target_bonus_list: Vec<i32>,
    pub minimize: bool,
    pub music_id: Option<i32>,
    pub music_diff: Option<String>,
    pub fixed_cards: Vec<i32>,
    pub fixed_characters: Vec<i32>,
    pub forced_leader_character_id: Option<i32>,
    pub excluded_cards: Vec<i32>,
    pub world_bloom_character_id: Option<i32>,
    pub world_bloom_event_turn: Option<i32>,
    pub world_bloom_finale_turn: Option<i32>,
    pub challenge_live_character_id: Option<i32>,
    pub event_unit: Option<String>,
    pub event_attr: Option<String>,
    pub custom_bonus_character_ids: Vec<i32>,
    pub custom_bonus_attr: Option<String>,
    pub custom_bonus_character_support_units: Vec<CustomSupportUnit>,
    pub filter_other_unit: bool,
    pub support_master_max: bool,
    pub support_skill_max: bool,
    pub keep_after_training_state: bool,
    pub best_skill_as_leader: bool,
    pub skill_reference_strategy: SkillReferenceStrategy,
    pub live_skill_order: LiveSkillOrder,
    pub specific_skill_order: Option<[usize; 5]>,
    pub multi_teammate_score_up: Option<i32>,
    pub multi_teammate_power: Option<i32>,
    pub multi_live_score_up_lower_bound_micro: Option<i64>,
    pub boost: Option<i32>,
    pub other_score: Option<i32>,
    pub life: Option<i32>,
    pub unit_filter: Option<String>,
    pub attr_filter: Option<String>,
    pub card_configs: CardConfigSet,
    pub single_card_configs: Vec<SingleCardConfig>,
}

impl Default for BuildParams {
    fn default() -> (r: Self)
        ensures
            r.region@.len() == 0,
            r.event_id is None,
            r.event_type is None,
            r.live_type == LiveType::Solo,
            r.target == ScoreTarget::Score,
            r.limit == 10,
            r.member is None,
            r.timeout_ms == 300000,
            r.target_bonus_list@.len() == 0,
            !r.minimize,
            r.music_id is None,
            r.music_diff is None,
            r.fixed_cards@.len() == 0,
            r.fixed_characters@.len() == 0,
            r.forced_leader_character_id is None,
            r.excluded_cards@.len() == 0,
            r.world_bloom_character_id is None,
            r.world_bloom_event_turn is None,
            r.world_bloom_finale_turn is None,
            r.challenge_live_character_id is None,
            r.event_unit is None,
            r.event_attr is None,
            r.custom_bonus_character_ids@.len() == 0,
            r.custom_bonus_attr is None,
            r.custom_bonus_character_support_units@.len() == 0,
            !r.filter_other_unit,
            !r.support_master_max,
            !r.support_skill_max,
            !r.keep_after_training_state,
            r.best_skill_as_leader,
            r.skill_reference_strategy == SkillReferenceStrategy::Average,
            r.live_skill_order == LiveSkillOrder::Average,
            r.specific_skill_order is None,
            r.multi_teammate_score_up is None,
            r.multi_teammate_power is None,
            r.multi_live_score_up_lower_bound_micro is None,
            r.boost is None,
            r.other_score is None,
            r.life is None,
            r.unit_filter is None,
            r.attr_filter is None,
            r.card_configs.rarity_1_config == noop_config(),
            r.card_configs.rarity_2_config == noop_config(),
            r.card_configs.rarity_3_config == noop_config(),
            r.card_configs.rarity_4_config == noop_config(),
            r.card_configs.rarity_birthday_config == noop_config(),
            r.card_configs.single_card_configs@.len() == 0,
            r.single_card_configs@.len() == 0,
    {
        BuildParams {
            region: String::new(),
            event_id: None,
            event_type: None,
            live_type: LiveType::Solo,
            target: ScoreTarget::Score,
            limit: 10,
            member: None,
            timeout_ms: 300000,
            target_bonus_list: Vec::new(),
            minimize: false,
            music_id: None,
            music_diff: None,
            fixed_cards: Vec::new(),
            fixed_characters: Vec::new(),
            forced_leader_character_id: None,
            excluded_cards: Vec::new(),
            world_bloom_character_id: None,
            world_bloom_event_turn: None,
            world_bloom_finale_turn: None,
            challenge_live_character_id: None,
            event_unit: None,
            event_attr: None,
            custom_bonus_character_ids: Vec::new(),
            custom_bonus_attr: None,
            custom_bonus_character_support_units: Vec::new(),
            filter_other_unit: false,
            support_master_max: false,
            support_skill_max: false,
            keep_after_training_state: false,
            best_skill_as_leader: true,
            skill_reference_strategy: SkillReferenceStrategy::Average,
            live_skill_order: LiveSkillOrder::Average,
            specific_skill_order: None,
            multi_teammate_score_up: None,
            multi_teammate_power: None,
            multi_live_score_up_lower_bound_micro: None,
            boost: None,
            other_score: None,
            life: None,
            unit_filter: None,
            attr_filter: None,
            card_configs: CardConfigSet::default(),
            single_card_configs: Vec::new(),
        }
    }
}


/// Abstract value of a user card: its strings as character sequences.
pub struct UserCardView {
    pub card_id: i32,
    pub level: i32,
    pub skill_level: i32,
    pub master_rank: i32,
    pub special_training_status: Seq<char>,
    pub default_image: Seq<char>,
    pub episodes_read: Seq<i32>,
    pub is_virtual: bool,
    pub has_canvas_bonus_override: Option<bool>,
}

impl View for UserCard {
    type V = UserCardView;

    open spec fn view(&self) -> UserCardView {
        UserCardView {
            card_id: self.card_id,
            level: self.level,
            skill_level: self.skill_level,
            master_rank: self.master_rank,
            special_training_status: self.special_training_status@,
            default_image: self.default_image@,
            episodes_read: self.episodes_read@,
            is_virtual: self.is_virtual,
            has_canvas_bonus_override: self.has_canvas_bonus_override,
        }
    }
}

/// Abstract value of a masterdata card: its strings as character sequences.
pub struct MasterCardView {
    pub id: i32,
    pub character_id: i32,
    pub attr: Seq<char>,
    pub card_rarity_type: i32,
    pub rarity: Seq<char>,
    pub asset_bundle_name: Seq<char>,
    pub skill_id: i32,
    pub special_training_skill_id: Option<i32>,
    pub special_training_power1_bonus_fixed: i32,
    pub special_training_power2_bonus_fixed: i32,
    pub special_training_power3_bonus_fixed: i32,
    pub support_unit: Option<Seq<char>>,
    pub max_level: Option<i32>,
    pub max_skill_level: Option<i32>,
    pub max_master_rank: Option<i32>,
}

impl View for MasterCard {
    type V = MasterCardView;

    open spec fn view(&self) -> MasterCardView {
        MasterCardView {
            id: self.id,
            character_id: self.character_id,
            attr: self.attr@,
            card_rarity_type: self.card_rarity_type,
            rarity: self.rarity@,
            asset_bundle_name: self.asset_bundle_name@,
            skill_id: self.skill_id,
            special_training_skill_id: self.special_training_skill_id,
            special_training_power1_bonus_fixed: self.special_training_power1_bonus_fixed,
            special_training_power2_bonus_fixed: self.special_training_power2_bonus_fixed,
            special_training_power3_bonus_fixed: self.special_training_power3_bonus_fixed,
            support_unit: match self.support_unit {
                Some(s) => Some(s@),
                None => None,
            },
            max_level: self.max_level,
            max_skill_level: self.max_skill_level,
            max_master_rank: self.max_master_rank,
        }
    }
}

/// Copy of a list of integers.
pub fn copy_i32s(v: &Vec<i32>) -> (r: Vec<i32>)
    ensures
        r@ == v@,
{
    let mut out: Vec<i32> = Vec::new();
    let mut i: usize = 0;
    while i < v.len()
        invariant
            i <= v@.len(),
            out@ == v@.subrange(0, i as int),
        decreases v@.len() - i,
    {
        out.push(v[i]);
        i = i + 1;
        assert(out@ =~= v@.subrange(0, i as int));
    }
    assert(v@.subrange(0, v@.len() as int) =~= v@);
    out
}

/// Copy of an optional string.
pub fn copy_opt_string(s: &Option<String>) -> (r: Option<String>)
    ensures
        r == *s,
{
    match s {
        Some(value) => Some(value.clone()),
        None => None,
    }
}

impl UserCard {
    /// An exact copy of the card.
    pub fn copy(&self) -> (r: UserCard)
        ensures
            r@ == self@,
    {
        UserCard {
            card_id: self.card_id,
            level: self.level,
            skill_level: self.skill_level,
            master_rank: self.master_rank,
            special_training_status: self.special_training_status.clone(),
            default_image: self.default_image.clone(),
            episodes_read: copy_i32s(&self.episodes_read),
            is_virtual: self.is_virtual,
            has_canvas_bonus_override: self.has_canvas_bonus_override,
        }
    }
}

impl MasterCard {
    /// An exact copy of the card.
    pub fn copy(&self) -> (r: MasterCard)
        ensures
            r == *self,
            r@ == self@,
    {
        MasterCard {
            id: self.id,
            character_id: self.character_id,
            attr: self.attr.clone(),
            card_rarity_type: self.card_rarity_type,
            rarity: self.rarity.clone(),
            asset_bundle_name: self.asset_bundle_name.clone(),
            skill_id: self.skill_id,
            special_training_skill_id: self.special_training_skill_id,
            special_training_power1_bonus_fixed: self.special_training_power1_bonus_fixed,
            special_training_power2_bonus_fixed: self.special_training_power2_bonus_fixed,
            special_training_power3_bonus_fixed: self.special_training_power3_bonus_fixed,
            support_unit: copy_opt_string(&self.support_unit),
            max_level: self.max_level,
            max_skill_level: self.max_skill_level,
            max_master_rank: self.max_master_rank,
        }
    }
}

} // verus!
