//! Validation of build parameters.

use vstd::prelude::*;
use crate::data::{BuildParams, CardRarityConfig, SingleCardConfig};
use crate::error::BuildError;
use crate::text::{
    parse_attr_code, parse_event_type, parse_unit_code, spec_parse_attr, spec_parse_event_type, spec_parse_unit,
};
use crate::types::{
    spec_is_real_unit, LiveSkillOrder, LiveType, ScoreTarget, Unit, DECK_SIZE, MAX_BUILD_LIMIT,
    MAX_BUILD_TIMEOUT_MS, MAX_TARGET_BONUS, MAX_TARGET_BONUS_BUCKETS,
};

verus! {

/// The first reason a parameter set is rejected.
#[derive(Clone, Copy, Debug, PartialEq, Eq, Structural)]
pub enum ParamIssue {
    LevelNotPositive,
    SkillLevelNotPositive,
    MasterRankOutOfRange,
    EpisodeCountOutOfRange,
    ForcedLeaderOutOfRange,
    LimitOutOfRange,
    TimeoutOutOfRange,
    MemberNotDeckSize,
    TooManyBonusTargets,
    BonusTargetOutOfRange,
    DuplicateBonusTarget,
    TooManyCustomCharacters,
    CustomCharacterInvalidOrDuplicate,
    CustomAttrInvalid,
    TooManySupportUnits,
    SupportUnitInvalidOrDuplicate,
    SupportUnitCharacterNotCustom,
    LowerBoundNeedsMulti,
    BonusListNeedsBonusTarget,
    SpecificOrderMissing,
}

/// Message reported for an issue.
pub open spec fn issue_message(issue: ParamIssue) -> Seq<char> {
    match issue {
        ParamIssue::LevelNotPositive => "level must be positive"@,
        ParamIssue::SkillLevelNotPositive => "skillLevel must be positive"@,
        ParamIssue::MasterRankOutOfRange => "masterRank must be in 0..=5"@,
        ParamIssue::EpisodeCountOutOfRange => "episodeReadCount must be in 0..=2"@,
        ParamIssue::ForcedLeaderOutOfRange => "forcedLeaderCharacterId must be in 1..=26"@,
        ParamIssue::LimitOutOfRange => "limit 必须在 1..=100 范围内"@,
        ParamIssue::TimeoutOutOfRange => "timeout_ms 必须在 1..=300000 范围内"@,
        ParamIssue::MemberNotDeckSize => "member 仅支持 5"@,
        ParamIssue::TooManyBonusTargets => "target_bonus_list 最多支持 32 个档位"@,
        ParamIssue::BonusTargetOutOfRange => "target bonus 必须在 0..=1000 范围内"@,
        ParamIssue::DuplicateBonusTarget => "target_bonus_list 不得包含重复档位"@,
        ParamIssue::TooManyCustomCharacters => "custom bonus character 最多支持 26 项"@,
        ParamIssue::CustomCharacterInvalidOrDuplicate => "custom bonus character id 非法或重复"@,
        ParamIssue::CustomAttrInvalid => "custom bonus attr 非法"@,
        ParamIssue::TooManySupportUnits => "custom bonus support unit 最多支持 26 项"@,
        ParamIssue::SupportUnitInvalidOrDuplicate => "custom bonus support unit 非法或重复"@,
        ParamIssue::SupportUnitCharacterNotCustom => "custom bonus support unit character 必须包含在 custom bonus character 中"@,
        ParamIssue::LowerBoundNeedsMulti => "multi_live_score_up_lower_bound 仅支持 multi live"@,
        ParamIssue::BonusListNeedsBonusTarget => "target_bonus_list 仅支持 bonus target"@,
        ParamIssue::SpecificOrderMissing => "specific_skill_order 是 specific 策略的必填项"@,
    }
}

/// The first issue of one cultivation preset.
pub open spec fn config_issue(c: CardRarityConfig) -> Option<ParamIssue> {
    if c.level matches Some(v) && v <= 0 {
        Some(ParamIssue::LevelNotPositive)
    } else if c.skill_level matches Some(v) && v <= 0 {
        Some(ParamIssue::SkillLevelNotPositive)
    } else if c.master_rank matches Some(v) && !(0 <= v <= 5) {
        Some(ParamIssue::MasterRankOutOfRange)
    } else if c.episode_read_count matches Some(v) && !(0 <= v <= 2) {
        Some(ParamIssue::EpisodeCountOutOfRange)
    } else {
        None
    }
}

/// The first issue among a sequence of presets.
pub open spec fn first_config_issue(s: Seq<CardRarityConfig>) -> Option<ParamIssue>
    decreases s.len(),
{
    if s.len() == 0 {
        None
    } else if config_issue(s[0]) is Some {
        config_issue(s[0])
    } else {
        first_config_issue(s.drop_first())
    }
}

/// The presets of single-card overrides, in order.
pub open spec fn single_configs(s: Seq<SingleCardConfig>) -> Seq<CardRarityConfig> {
    s.map_values(|e: SingleCardConfig| e.config)
}

/// Every preset a parameter set carries, in the order they are checked.
pub open spec fn all_configs(p: BuildParams) -> Seq<CardRarityConfig> {
    seq![
        p.card_configs.rarity_1_config,
        p.card_configs.rarity_2_config,
        p.card_configs.rarity_3_config,
        p.card_configs.rarity_4_config,
        p.card_configs.rarity_birthday_config,
    ] + single_configs(p.card_configs.single_card_configs@) + single_configs(p.single_card_configs@)
}

/// First problem in the bonus target list from index `i` on.
pub open spec fn bonus_list_issue_from(l: Seq<i32>, i: int) -> Option<ParamIssue>
    decreases l.len() - i,
{
    if i < 0 || i >= l.len() {
        None
    } else if !(0 <= l[i] <= MAX_TARGET_BONUS) {
        Some(ParamIssue::BonusTargetOutOfRange)
    } else if l.subrange(0, i).contains(l[i]) {
        Some(ParamIssue::DuplicateBonusTarget)
    } else {
        bonus_list_issue_from(l, i + 1)
    }
}

/// Whether a character-id list holds an id outside 1..=26 or a repeated id.
pub open spec fn bad_character_list(l: Seq<i32>) -> bool {
    exists|i: int|
        0 <= i < l.len() && (!(1 <= #[trigger] l[i] <= 26) || l.subrange(0, i).contains(l[i]))
}

/// Whether a support-unit rule list holds a bad character, a repeated
/// character or a group that is not one of the six real groups.
pub open spec fn bad_support_list(l: Seq<crate::types::CustomSupportUnit>) -> bool {
    exists|i: int|
        0 <= i < l.len() && (!(1 <= (#[trigger] l[i]).character_id <= 26)
            || exists|j: int| 0 <= j < i && l[j].character_id == l[i].character_id
            || !spec_is_real_unit(l[i].unit))
}

/// The first reason a parameter set is rejected, or `None` when it is valid.
pub open spec fn param_issue(p: BuildParams) -> Option<ParamIssue> {
    if first_config_issue(all_configs(p)) is Some {
        first_config_issue(all_configs(p))
    } else if p.forced_leader_character_id matches Some(id) && !(1 <= id <= 26) {
        Some(ParamIssue::ForcedLeaderOutOfRange)
    } else if !(1 <= p.limit <= MAX_BUILD_LIMIT) {
        Some(ParamIssue::LimitOutOfRange)
    } else if !(1 <= p.timeout_ms <= MAX_BUILD_TIMEOUT_MS) {
        Some(ParamIssue::TimeoutOutOfRange)
    } else if p.member matches Some(m) && m != DECK_SIZE {
        Some(ParamIssue::MemberNotDeckSize)
    } else if p.target_bonus_list@.len() > MAX_TARGET_BONUS_BUCKETS {
        Some(ParamIssue::TooManyBonusTargets)
    } else if bonus_list_issue_from(p.target_bonus_list@, 0) is Some {
        bonus_list_issue_from(p.target_bonus_list@, 0)
    } else if p.custom_bonus_character_ids@.len() > 26 {
        Some(ParamIssue::TooManyCustomCharacters)
    } else if bad_character_list(p.custom_bonus_character_ids@) {
        Some(ParamIssue::CustomCharacterInvalidOrDuplicate)
    } else if p.custom_bonus_attr matches Some(a) && spec_parse_attr(a@) is None {
        Some(ParamIssue::CustomAttrInvalid)
    } else if p.custom_bonus_character_support_units@.len() > 26 {
        Some(ParamIssue::TooManySupportUnits)
    } else if bad_support_list(p.custom_bonus_character_support_units@) {
        Some(ParamIssue::SupportUnitInvalidOrDuplicate)
    } else if exists|i: int|
        0 <= i < p.custom_bonus_character_support_units@.len()
            && !p.custom_bonus_character_ids@.contains(
            (#[trigger] p.custom_bonus_character_support_units@[i]).character_id,
        ) {
        Some(ParamIssue::SupportUnitCharacterNotCustom)
    } else if p.multi_live_score_up_lower_bound_micro is Some && p.live_type != LiveType::Multi {
        Some(ParamIssue::LowerBoundNeedsMulti)
    } else if p.target_bonus_list@.len() > 0 && p.target != ScoreTarget::Bonus {
        Some(ParamIssue::BonusListNeedsBonusTarget)
    } else if p.live_skill_order == LiveSkillOrder::Specific && p.specific_skill_order is None {
        Some(ParamIssue::SpecificOrderMissing)
    } else {
        None
    }
}

/// The error reported for an issue.
pub open spec fn issue_error(r: Result<(), BuildError>, issue: ParamIssue) -> bool {
    r matches Err(BuildError::InvalidConfig(reason)) && reason@ == issue_message(issue)
}

fn message(issue: ParamIssue) -> (r: String)
    ensures
        r@ == issue_message(issue),
{
    match issue {
        ParamIssue::LevelNotPositive => "level must be positive".to_owned(),
        ParamIssue::SkillLevelNotPositive => "skillLevel must be positive".to_owned(),
        ParamIssue::MasterRankOutOfRange => "masterRank must be in 0..=5".to_owned(),
        ParamIssue::EpisodeCountOutOfRange => "episodeReadCount must be in 0..=2".to_owned(),
        ParamIssue::ForcedLeaderOutOfRange => "forcedLeaderCharacterId must be in 1..=26".to_owned(),
        ParamIssue::LimitOutOfRange => "limit 必须在 1..=100 范围内".to_owned(),
        ParamIssue::TimeoutOutOfRange => "timeout_ms 必须在 1..=300000 范围内".to_owned(),
        ParamIssue::MemberNotDeckSize => "member 仅支持 5".to_owned(),
        ParamIssue::TooManyBonusTargets => "target_bonus_list 最多支持 32 个档位".to_owned(),
        ParamIssue::BonusTargetOutOfRange => "target bonus 必须在 0..=1000 范围内".to_owned(),
        ParamIssue::DuplicateBonusTarget => "target_bonus_list 不得包含重复档位".to_owned(),
        ParamIssue::TooManyCustomCharacters => "custom bonus character 最多支持 26 项".to_owned(),
        ParamIssue::CustomCharacterInvalidOrDuplicate => "custom bonus character id 非法或重复".to_owned(),
        ParamIssue::CustomAttrInvalid => "custom bonus attr 非法".to_owned(),
        ParamIssue::TooManySupportUnits => "custom bonus support unit 最多支持 26 项".to_owned(),
        ParamIssue::SupportUnitInvalidOrDuplicate => "custom bonus support unit 非法或重复".to_owned(),
        ParamIssue::SupportUnitCharacterNotCustom => "custom bonus support unit character 必须包含在 custom bonus character 中".to_owned(),
        ParamIssue::LowerBoundNeedsMulti => "multi_live_score_up_lower_bound 仅支持 multi live".to_owned(),
        ParamIssue::BonusListNeedsBonusTarget => "target_bonus_list 仅支持 bonus target".to_owned(),
        ParamIssue::SpecificOrderMissing => "specific_skill_order 是 specific 策略的必填项".to_owned(),
    }
}

fn check_config(c: &CardRarityConfig) -> (r: Option<ParamIssue>)
    ensures
        r == config_issue(*c),
{
    if let Some(v) = c.level {
        if v <= 0 {
            return Some(ParamIssue::LevelNotPositive);
        }
    }
    if let Some(v) = c.skill_level {
        if v <= 0 {
            return Some(ParamIssue::SkillLevelNotPositive);
        }
    }
    if let Some(v) = c.master_rank {
        if !(0 <= v && v <= 5) {
            return Some(ParamIssue::MasterRankOutOfRange);
        }
    }
    if let Some(v) = c.episode_read_count {
        if !(0 <= v && v <= 2) {
            return Some(ParamIssue::EpisodeCountOutOfRange);
        }
    }
    None
}

proof fn lemma_first_config_issue_append(a: Seq<CardRarityConfig>, b: Seq<CardRarityConfig>)
    ensures
        first_config_issue(a + b) == (if first_config_issue(a) is Some {
            first_config_issue(a)
        } else {
            first_config_issue(b)
        }),
    decreases a.len(),
{
    if a.len() > 0 {
        assert((a + b).drop_first() =~= a.drop_first() + b);
        lemma_first_config_issue_append(a.drop_first(), b);
    } else {
        assert(a + b =~= b);
    }
}

fn check_single_configs(s: &Vec<SingleCardConfig>) -> (r: Option<ParamIssue>)
    ensures
        r == first_config_issue(single_configs(s@)),
{
    let mut i: usize = 0;
    assert(single_configs(s@).subrange(0, s@.len() as int) =~= single_configs(s@));
    while i < s.len()
        invariant
            i <= s@.len(),
            first_config_issue(single_configs(s@)) == first_config_issue(
                single_configs(s@).subrange(i as int, s@.len() as int),
            ),
        decreases s@.len() - i,
    {
        let ghost rest = single_configs(s@).subrange(i as int, s@.len() as int);
        assert(rest[0] == s@[i as int].config);
        let issue = check_config(&s[i].config);
        if issue.is_some() {
            return issue;
        }
        assert(rest.drop_first() =~= single_configs(s@).subrange(i + 1, s@.len() as int));
        i = i + 1;
    }
    assert(single_configs(s@).subrange(i as int, s@.len() as int) =~= Seq::<CardRarityConfig>::empty());
    None
}

#[verifier::loop_isolation(false)]
fn check_bonus_list(l: &Vec<i32>) -> (r: Option<ParamIssue>)
    ensures
        r == bonus_list_issue_from(l@, 0),
{
    let mut i: usize = 0;
    while i < l.len()
        invariant
            i <= l@.len(),
            bonus_list_issue_from(l@, 0) == bonus_list_issue_from(l@, i as int),
        decreases l@.len() - i,
    {
        let value = l[i];
        if !(0 <= value && value <= MAX_TARGET_BONUS) {
            return Some(ParamIssue::BonusTargetOutOfRange);
        }
        let mut j: usize = 0;
        while j < i
            invariant
                j <= i,
                i < l@.len(),
                value == l@[i as int],
                !l@.subrange(0, j as int).contains(value),
            decreases i - j,
        {
            if l[j] == value {
                assert(l@.subrange(0, i as int)[j as int] == value);
                assert(l@.subrange(0, i as int).contains(value));
                return Some(ParamIssue::DuplicateBonusTarget);
            }
            assert(l@.subrange(0, j + 1) =~= l@.subrange(0, j as int).push(l@[j as int]));
            j = j + 1;
        }
        assert(l@.subrange(0, j as int) =~= l@.subrange(0, i as int));
        i = i + 1;
    }
    None
}

#[verifier::loop_isolation(false)]
fn check_character_list(l: &Vec<i32>) -> (r: bool)
    ensures
        r == bad_character_list(l@),
{
    let mut i: usize = 0;
    while i < l.len()
        invariant
            i <= l@.len(),
            forall|k: int|
                0 <= k < i ==> (1 <= #[trigger] l@[k] <= 26) && !l@.subrange(0, k).contains(l@[k]),
        decreases l@.len() - i,
    {
        let value = l[i];
        if !(1 <= value && value <= 26) {
            return true;
        }
        let mut j: usize = 0;
        while j < i
            invariant
                j <= i,
                i < l@.len(),
                value == l@[i as int],
                !l@.subrange(0, j as int).contains(value),
            decreases i - j,
        {
            if l[j] == value {
                assert(l@.subrange(0, i as int)[j as int] == value);
                return true;
            }
            assert(l@.subrange(0, j + 1) =~= l@.subrange(0, j as int).push(l@[j as int]));
            j = j + 1;
        }
        assert(l@.subrange(0, j as int) =~= l@.subrange(0, i as int));
        i = i + 1;
    }
    false
}

#[verifier::loop_isolation(false)]
fn check_support_list(l: &Vec<crate::types::CustomSupportUnit>) -> (r: bool)
    ensures
        r == bad_support_list(l@),
{
    let mut i: usize = 0;
    while i < l.len()
        invariant
            i <= l@.len(),
            forall|k: int|
                0 <= k < i ==> !((!(1 <= (#[trigger] l@[k]).character_id <= 26)
                    || exists|j: int| 0 <= j < k && l@[j].character_id == l@[k].character_id
                    || !spec_is_real_unit(l@[k].unit))),
        decreases l@.len() - i,
    {
        let entry = l[i];
        if !(1 <= entry.character_id && entry.character_id <= 26) {
            return true;
        }
        let is_real = match entry.unit {
            Unit::LightSound | Unit::Idol | Unit::Street | Unit::Themepark | Unit::SchoolRefusal
            | Unit::Piapro => true,
            _ => false,
        };
        let mut j: usize = 0;
        while j < i
            invariant
                j <= i,
                i < l@.len(),
                entry == l@[i as int],
                forall|m: int| 0 <= m < j ==> l@[m].character_id != entry.character_id,
            decreases i - j,
        {
            if l[j].character_id == entry.character_id {
                return true;
            }
            j = j + 1;
        }
        if !is_real {
            return true;
        }
        i = i + 1;
    }
    false
}

#[verifier::loop_isolation(false)]
fn check_support_characters(params: &BuildParams) -> (r: bool)
    ensures
        r == exists|i: int|
            0 <= i < params.custom_bonus_character_support_units@.len()
                && !params.custom_bonus_character_ids@.contains(
                (#[trigger] params.custom_bonus_character_support_units@[i]).character_id,
            ),
{
    let units = &params.custom_bonus_character_support_units;
    let ids = &params.custom_bonus_character_ids;
    let mut i: usize = 0;
    while i < units.len()
        invariant
            i <= units@.len(),
            forall|k: int| 0 <= k < i ==> ids@.contains((#[trigger] units@[k]).character_id),
        decreases units@.len() - i,
    {
        let wanted = units[i].character_id;
        let mut found = false;
        let mut j: usize = 0;
        while j < ids.len()
            invariant
                j <= ids@.len(),
                found ==> ids@.contains(wanted),
                !found ==> forall|m: int| 0 <= m < j ==> ids@[m] != wanted,
            decreases ids@.len() - j,
        {
            if ids[j] == wanted {
                found = true;
            }
            j = j + 1;
        }
        if !found {
            assert(!ids@.contains(wanted));
            assert(units@[i as int].character_id == wanted);
            return true;
        }
        i = i + 1;
    }
    false
}

/// Checks a parameter set before any pool work.
///
/// Succeeds exactly when [`param_issue`] finds nothing; otherwise reports
/// the first issue as an `InvalidConfig` error.
#[verifier::loop_isolation(false)]
pub fn validate_build_params(params: &BuildParams) -> (r: Result<(), BuildError>)
    ensures
        param_issue(*params) is None <==> r is Ok,
        param_issue(*params) matches Some(issue) ==> issue_error(r, issue),
{
    let fixed = [
        params.card_configs.rarity_1_config,
        params.card_configs.rarity_2_config,
        params.card_configs.rarity_3_config,
        params.card_configs.rarity_4_config,
        params.card_configs.rarity_birthday_config,
    ];
    let ghost head = seq![
        params.card_configs.rarity_1_config,
        params.card_configs.rarity_2_config,
        params.card_configs.rarity_3_config,
        params.card_configs.rarity_4_config,
        params.card_configs.rarity_birthday_config,
    ];
    proof {
        lemma_first_config_issue_append(
            head,
            single_configs(params.card_configs.single_card_configs@) + single_configs(params.single_card_configs@),
        );
        lemma_first_config_issue_append(
            single_configs(params.card_configs.single_card_configs@),
            single_configs(params.single_card_configs@),
        );
        assert(all_configs(*params) =~= head + (single_configs(params.card_configs.single_card_configs@) + single_configs(params.single_card_configs@)));
    }
    let mut k: usize = 0;
    assert(head.subrange(0, 5) =~= head);
    while k < 5
        invariant
            k <= 5,
            fixed@ == head,
            first_config_issue(head) == first_config_issue(head.subrange(k as int, 5)),
        decreases 5 - k,
    {
        assert(head.subrange(k as int, 5)[0] == fixed@[k as int]);
        let issue = check_config(&fixed[k]);
        if let Some(issue) = issue {
            return Err(BuildError::InvalidConfig(message(issue)));
        }
        assert(head.subrange(k as int, 5).drop_first() =~= head.subrange(k + 1, 5));
        k = k + 1;
    }
    assert(head.subrange(5, 5) =~= Seq::<CardRarityConfig>::empty());
    if let Some(issue) = check_single_configs(&params.card_configs.single_card_configs) {
        return Err(BuildError::InvalidConfig(message(issue)));
    }
    if let Some(issue) = check_single_configs(&params.single_card_configs) {
        return Err(BuildError::InvalidConfig(message(issue)));
    }
    if let Some(id) = params.forced_leader_character_id {
        if !(1 <= id && id <= 26) {
            return Err(BuildError::InvalidConfig(message(ParamIssue::ForcedLeaderOutOfRange)));
        }
    }
    if !(1 <= params.limit && params.limit <= MAX_BUILD_LIMIT) {
        return Err(BuildError::InvalidConfig(message(ParamIssue::LimitOutOfRange)));
    }
    if !(1 <= params.timeout_ms && params.timeout_ms <= MAX_BUILD_TIMEOUT_MS) {
        return Err(BuildError::InvalidConfig(message(ParamIssue::TimeoutOutOfRange)));
    }
    if let Some(member) = params.member {
        if member != DECK_SIZE {
            return Err(BuildError::InvalidConfig(message(ParamIssue::MemberNotDeckSize)));
        }
    }
    if params.target_bonus_list.len() > MAX_TARGET_BONUS_BUCKETS {
        return Err(BuildError::InvalidConfig(message(ParamIssue::TooManyBonusTargets)));
    }
    if let Some(issue) = check_bonus_list(&params.target_bonus_list) {
        return Err(BuildError::InvalidConfig(message(issue)));
    }
    if params.custom_bonus_character_ids.len() > 26 {
        return Err(BuildError::InvalidConfig(message(ParamIssue::TooManyCustomCharacters)));
    }
    if check_character_list(&params.custom_bonus_character_ids) {
        return Err(BuildError::InvalidConfig(message(ParamIssue::CustomCharacterInvalidOrDuplicate)));
    }
    if let Some(attr) = &params.custom_bonus_attr {
        if parse_attr_code(attr.as_str()).is_none() {
            return Err(BuildError::InvalidConfig(message(ParamIssue::CustomAttrInvalid)));
        }
    }
    if params.custom_bonus_character_support_units.len() > 26 {
        return Err(BuildError::InvalidConfig(message(ParamIssue::TooManySupportUnits)));
    }
    if check_support_list(&params.custom_bonus_character_support_units) {
        return Err(BuildError::InvalidConfig(message(ParamIssue::SupportUnitInvalidOrDuplicate)));
    }
    if check_support_characters(params) {
        return Err(BuildError::InvalidConfig(message(ParamIssue::SupportUnitCharacterNotCustom)));
    }
    if params.multi_live_score_up_lower_bound_micro.is_some() && params.live_type != LiveType::Multi {
        return Err(BuildError::InvalidConfig(message(ParamIssue::LowerBoundNeedsMulti)));
    }
    if params.target_bonus_list.len() > 0 && params.target != ScoreTarget::Bonus {
        return Err(BuildError::InvalidConfig(message(ParamIssue::BonusListNeedsBonusTarget)));
    }
    if params.live_skill_order == LiveSkillOrder::Specific && params.specific_skill_order.is_none() {
        return Err(BuildError::InvalidConfig(message(ParamIssue::SpecificOrderMissing)));
    }
    Ok(())
}

} // verus!
