//! Per-card results of the pool build and the dense pool it produces.

use vstd::prelude::*;
use crate::event_bonus::EventBonusExact;
use crate::types::{DefaultImage, LiveSkillOrder, LiveType, ScoreTarget, SkillReferenceStrategy, EventType};

verus! {

/// Number of (group × member-kind) power profiles of a card: six groups,
/// four member kinds (same group yes/no × same attribute yes/no).
pub const POWER_PROFILES: usize = 24;

/// Training state whose skill a pooled card uses.
#[derive(Clone, Copy, Debug, PartialEq, Eq, Structural)]
pub enum SkillState {
    /// The card's original skill.
    BeforeTraining,
    /// The skill after special training; the original one when it has none.
    AfterTraining,
}

/// Power of a card in one (group, member-kind) profile, by part.
#[derive(Clone, Copy, Debug, PartialEq, Eq, Structural)]
pub struct PowerDetail {
    pub base: i32,
    pub area_item_bonus: i32,
    pub character_bonus: i32,
    pub fixture_bonus: i32,
    pub gate_bonus: i32,
    pub total: i32,
}

/// Power of a card in every profile. `area_item_bonus[4 * unit + member]`
/// is the area-item bonus in that profile (zero for groups the card is not
/// in); the other parts do not depend on the profile.
#[derive(Clone, Debug, PartialEq)]
pub struct PowerResult {
    pub unit_mask: u8,
    pub base: i32,
    pub character_bonus: i32,
    pub fixture_bonus: i32,
    pub gate_bonus: i32,
    pub area_item_bonus: Vec<i32>,
    /// Smallest total over the card's profiles (0 when it has none).
    pub power_min: i32,
    /// Largest total over the card's profiles (0 when it has none).
    pub power_max: i32,
}

/// Main-table skill entry: kind (0 plain, 1 group count, 2 distinct groups,
/// 3 reference) and value (the score-up for plain skills, the side-table
/// index otherwise).
#[derive(Clone, Copy, Debug, PartialEq, Eq, Structural)]
pub struct SkillSlot {
    pub skill_type: u8,
    pub value: u8,
}

/// A skill whose score-up grows with the number of members of one group.
#[derive(Clone, Copy, Debug, PartialEq, Eq)]
pub struct UnitCountSkill {
    pub unit: u8,
    pub score_up: [u8; 5],
}

/// A skill whose score-up grows with the number of distinct groups.
#[derive(Clone, Copy, Debug, PartialEq, Eq, Structural)]
pub struct DiffSkill {
    pub base: u8,
    pub increment: u8,
}

/// A skill that adds a share of the teammates' skills.
#[derive(Clone, Copy, Debug, PartialEq, Eq, Structural)]
pub struct RefSkill {
    pub rate: u8,
    pub max: u8,
}

/// Full description of a card's skill for display.
#[derive(Clone, Copy, Debug, PartialEq, Eq, Structural)]
pub struct SkillInfo {
    pub skill_id: i32,
    pub is_after_training: bool,
    pub base_score_up: i32,
    pub life_recovery: i64,
    pub has_ref: bool,
    pub ref_rate: i32,
    pub ref_max: i32,
}

/// Skill of a card in one training state.
#[derive(Clone, Copy, Debug, PartialEq, Eq)]
pub struct SkillResult {
    pub slot: SkillSlot,
    pub unit_count: Option<UnitCountSkill>,
    pub diff: Option<DiffSkill>,
    pub ref_skill: Option<RefSkill>,
    pub skill_min: u8,
    pub skill_max: u8,
    pub full: SkillInfo,
}

/// A candidate card with everything the pool keeps of it.
#[derive(Clone, Debug, PartialEq)]
pub struct CardIntermediate {
    pub game_card_id: i32,
    pub card_rarity_type: i32,
    pub character_id: u8,
    pub attr: u8,
    pub unit_mask_raw: u8,
    pub default_image: DefaultImage,
    pub after_training: bool,
    pub skill_state_controls_image: bool,
    pub master_rank: i32,
    pub skill_level: i32,
    pub power: PowerResult,
    pub skill: SkillResult,
    pub event_bonus: EventBonusExact,
    pub has_char_bonus: bool,
    pub has_attr_bonus: bool,
    pub leader_honor_bonus: u16,
    pub leader_limit_bonus: u16,
    pub ep_sort_key: i64,
}

/// A pooled card as shown to the player, at full precision.
#[derive(Clone, Debug, PartialEq)]
pub struct FullPrecisionCard {
    pub game_card_id: u16,
    pub card_rarity_type: i32,
    pub character_id: u8,
    pub attr: u8,
    pub unit_mask_raw: u8,
    pub default_image: DefaultImage,
    /// Whether the card is trained.
    pub after_training: bool,
    /// Whether the card's skill state decides its art.
    pub skill_state_controls_image: bool,
    pub master_rank: i32,
    pub skill_level: i32,
    pub skill: SkillInfo,
    pub event_bonus: EventBonusExact,
    pub power_min_exact: i32,
    pub power_max_exact: i32,
    pub skill_min_exact: u8,
    pub skill_max_exact: u8,
    pub leader_honor_bonus: u16,
    pub leader_limit_bonus: u16,
}

/// A card of the dense pool.
#[derive(Clone, Copy, Debug, PartialEq, Eq, Structural)]
pub struct PoolCard {
    pub game_id: u16,
    pub character_id: u8,
    pub attr: u8,
    pub unit_mask: u8,
    pub power_max: u32,
    pub skill: SkillSlot,
    pub skill_min: u8,
    pub skill_max: u8,
    pub event_bonus: EventBonusExact,
}

/// Dense index of a pooled card.
#[derive(Clone, Copy, Debug, PartialEq, Eq, Structural)]
pub struct CardIdx {
    pub index: u16,
}

impl CardIdx {
    pub fn new(index: u16) -> (r: Self)
        ensures
            r.index == index,
    {
        CardIdx { index }
    }

    pub fn raw(&self) -> (r: usize)
        ensures
            r == self.index,
    {
        self.index as usize
    }
}

/// The candidate pool, best card first, with the side tables of the skills
/// that depend on the rest of the deck.
#[derive(Clone, Debug, PartialEq)]
pub struct CardPool {
    pub cards: Vec<PoolCard>,
    pub unit_count_skills: Vec<UnitCountSkill>,
    pub diff_skills: Vec<DiffSkill>,
    pub ref_skills: Vec<RefSkill>,
}

impl CardPool {
    /// Number of pooled cards.
    pub fn count(&self) -> (r: usize)
        ensures
            r == self.cards@.len(),
    {
        self.cards.len()
    }

    /// Masterdata id of a pooled card.
    pub fn game_id(&self, idx: CardIdx) -> (r: u16)
        requires
            idx.index < self.cards@.len(),
        ensures
            r == self.cards@[idx.index as int].game_id,
    {
        self.cards[idx.index as usize].game_id
    }

    /// Event bonus of a pooled card.
    pub fn event_bonus(&self, idx: CardIdx) -> (r: EventBonusExact)
        requires
            idx.index < self.cards@.len(),
        ensures
            r == self.cards@[idx.index as int].event_bonus,
    {
        self.cards[idx.index as usize].event_bonus
    }
}

/// Support deck of a World Bloom event: candidate cards with their bonus
/// (hundredths of a percent), best first, and how many of them count.
#[derive(Clone, Debug, PartialEq)]
pub struct SupportDeck {
    pub cards: Vec<(u16, u32)>,
    pub count: u8,
}

/// Per-card columns the search context takes from the sorted pool.
#[derive(Clone, Debug, PartialEq)]
pub struct GatheredContext {
    pub skill_max: Vec<u8>,
    pub leader_honor_bonus: Vec<u16>,
    pub leader_limit_bonus: Vec<u16>,
    pub skill_is_after_training: Vec<bool>,
    pub trained_to_special_image: Vec<bool>,
}

/// Everything the deck search needs besides the pool.
#[derive(Clone, Debug, PartialEq)]
pub struct SearchContext {
    pub target: ScoreTarget,
    pub fixed_card_ids: Vec<u16>,
    pub fixed_character_ids: Vec<u8>,
    pub forced_leader_character_id: Option<u8>,
    pub music_rate_pct: u32,
    pub boost_rate_pct: u32,
    pub base_score_micro: i64,
    pub base_score_auto_micro: i64,
    pub fever_score_micro: i64,
    /// Skill score constants (millionths) for solo, multi and auto play.
    pub skill_scores_micro: [[i64; 6]; 3],
    pub other_score: i32,
    pub life: i32,
    pub diff_attr_bonus: Vec<u16>,
    pub support_deck: SupportDeck,
    pub support_decks_by_character: Vec<SupportDeck>,
    pub is_world_bloom: bool,
    pub is_final_chapter: bool,
    pub enforce_char_uniqueness: bool,
    pub minimize: bool,
    pub live_type: LiveType,
    pub event_type: Option<EventType>,
    pub keep_after_training_state: bool,
    pub skill_reference_strategy: SkillReferenceStrategy,
    pub best_skill_as_leader: bool,
    pub live_skill_order: LiveSkillOrder,
    pub specific_skill_order: Option<[usize; 5]>,
    pub multi_teammate_score_up: Option<i32>,
    pub multi_teammate_power: Option<i32>,
    pub multi_live_score_up_lower_bound_micro: Option<i64>,
    pub extra_bonus_ub: u32,
    pub skill_ub_global: u32,
    pub card_bonus_count_limit: usize,
    pub honor_bonus: u32,
    pub power_total_cap: Option<u32>,
    pub leader_honor_bonus: Vec<u16>,
    pub leader_limit_bonus: Vec<u16>,
    pub final_chapter_member_keep: Vec<bool>,
    pub skill_is_after_training: Vec<bool>,
    pub trained_to_special_image: Vec<bool>,
}

impl SearchContext {
    /// Whether the request names the leader's character.
    pub fn has_fixed_leader(&self) -> (r: bool)
        ensures
            r == self.forced_leader_character_id is Some,
    {
        self.forced_leader_character_id.is_some()
    }

    /// Whether the best skill takes the leader slot: asked for, and no
    /// leader named.
    pub fn effective_best_skill_as_leader(&self) -> (r: bool)
        ensures
            r == (self.best_skill_as_leader && self.forced_leader_character_id is None),
    {
        self.best_skill_as_leader && self.forced_leader_character_id.is_none()
    }
}

} // verus!
