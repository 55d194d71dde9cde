//! The skill a card brings to the pool.

use vstd::prelude::*;
use crate::capacity::{score, spec_score};
use crate::data::{GameData, MasterCard, Skill, SkillEffect, UserCard};
use crate::error::BuildError;
use crate::pool::{DiffSkill, RefSkill, SkillInfo, SkillResult, SkillSlot, SkillState, UnitCountSkill};
use crate::text::{bytes_eq, norm, norm_token, parse_unit_code, spec_parse_unit};
use crate::types::{spec_unit_pool_index, unit_to_pool_index, Unit};
use vstd::utf8::encode_utf8;

verus! {

/// Kind of a skill effect row.
#[derive(Clone, Copy, Debug, PartialEq, Eq, Structural)]
pub enum EffectKind {
    ScoreUp,
    LifeRecovery,
    CharacterRank,
    UnitCount,
    Diff,
    Reference,
    Other,
}

/// Kind named by a normalised effect code.
pub open spec fn kind_of_token(t: Seq<u8>) -> EffectKind {
    if t == seq![115u8, 99, 111, 114, 101, 95, 117, 112]
        || t == seq![115u8, 99, 111, 114, 101, 95, 117, 112, 95, 99, 111, 110, 100, 105, 116, 105, 111, 110, 95, 108, 105, 102, 101]
        || t == seq![115u8, 99, 111, 114, 101, 95, 117, 112, 95, 107, 101, 101, 112] {
        EffectKind::ScoreUp
    } else if t == seq![108u8, 105, 102, 101, 95, 114, 101, 99, 111, 118, 101, 114, 121] {
        EffectKind::LifeRecovery
    } else if t == seq![115u8, 99, 111, 114, 101, 95, 117, 112, 95, 99, 104, 97, 114, 97, 99, 116, 101, 114, 95, 114, 97, 110, 107] {
        EffectKind::CharacterRank
    } else if t == seq![115u8, 99, 111, 114, 101, 95, 117, 112, 95, 117, 110, 105, 116, 95, 99, 111, 117, 110, 116] {
        EffectKind::UnitCount
    } else if t == seq![115u8, 99, 111, 114, 101, 95, 117, 112, 95, 100, 105, 102, 102] {
        EffectKind::Diff
    } else if t == seq![115u8, 99, 111, 114, 101, 95, 117, 112, 95, 114, 101, 102, 101, 114, 101, 110, 99, 101] {
        EffectKind::Reference
    } else {
        EffectKind::Other
    }
}

/// Kind of an effect code such as `score_up` (trimmed, any ASCII case).
pub open spec fn spec_effect_kind(s: Seq<char>) -> EffectKind {
    kind_of_token(norm(encode_utf8(s)))
}

/// Kind of an effect code.
pub fn effect_kind(s: &str) -> (r: EffectKind)
    ensures
        r == spec_effect_kind(s@),
{
    let t = norm_token(s);
    let t = t.as_slice();
    if bytes_eq(t, &[115u8, 99, 111, 114, 101, 95, 117, 112])
        || bytes_eq(t, &[115u8, 99, 111, 114, 101, 95, 117, 112, 95, 99, 111, 110, 100, 105, 116, 105, 111, 110, 95, 108, 105, 102, 101])
        || bytes_eq(t, &[115u8, 99, 111, 114, 101, 95, 117, 112, 95, 107, 101, 101, 112]) {
        EffectKind::ScoreUp
    } else if bytes_eq(t, &[108u8, 105, 102, 101, 95, 114, 101, 99, 111, 118, 101, 114, 121]) {
        EffectKind::LifeRecovery
    } else if bytes_eq(t, &[115u8, 99, 111, 114, 101, 95, 117, 112, 95, 99, 104, 97, 114, 97, 99, 116, 101, 114, 95, 114, 97, 110, 107]) {
        EffectKind::CharacterRank
    } else if bytes_eq(t, &[115u8, 99, 111, 114, 101, 95, 117, 112, 95, 117, 110, 105, 116, 95, 99, 111, 117, 110, 116]) {
        EffectKind::UnitCount
    } else if bytes_eq(t, &[115u8, 99, 111, 114, 101, 95, 117, 112, 95, 100, 105, 102, 102]) {
        EffectKind::Diff
    } else if bytes_eq(t, &[115u8, 99, 111, 114, 101, 95, 117, 112, 95, 114, 101, 102, 101, 114, 101, 110, 99, 101]) {
        EffectKind::Reference
    } else {
        EffectKind::Other
    }
}

/// The first skill row with an id and a level.
pub open spec fn first_skill_row(s: Seq<Skill>, id: i32, level: i32) -> Option<Skill>
    decreases s.len(),
{
    if s.len() == 0 {
        None
    } else if s[0].id == id && s[0].level == level {
        Some(s[0])
    } else {
        first_skill_row(s.drop_first(), id, level)
    }
}

fn find_skill_row(s: &[Skill], id: i32, level: i32) -> (r: Option<Skill>)
    ensures
        r == first_skill_row(s@, id, level),
{
    let mut i: usize = 0;
    assert(s@.subrange(0, s@.len() as int) =~= s@);
    while i < s.len()
        invariant
            i <= s@.len(),
            first_skill_row(s@, id, level) == first_skill_row(s@.subrange(i as int, s@.len() as int), id, level),
        decreases s@.len() - i,
    {
        assert(s@.subrange(i as int, s@.len() as int)[0] == s@[i as int]);
        assert(s@.subrange(i as int, s@.len() as int).drop_first() =~= s@.subrange(i + 1, s@.len() as int));
        if s[i].id == id && s[i].level == level {
            return Some(s[i]);
        }
        i = i + 1;
    }
    None
}

/// What the effect rows of a skill level add up to so far.
#[derive(Clone, Copy, Debug, PartialEq, Eq)]
pub struct SkillScan {
    pub base: i64,
    pub life: i128,
    pub rank_bonus: i64,
    pub unit: Option<Unit>,
    pub unit_values: (u8, u8, u8, u8, u8),
    pub diff: Option<DiffSkill>,
    pub ref_rate: i32,
    pub ref_max: i32,
}

/// Nothing scanned yet.
pub open spec fn scan_start() -> SkillScan {
    SkillScan {
        base: 0,
        life: 0,
        rank_bonus: 0,
        unit: None,
        unit_values: (0, 0, 0, 0, 0),
        diff: None,
        ref_rate: 0,
        ref_max: 0,
    }
}

/// The five per-count values with position `k` replaced.
pub open spec fn set_value(v: (u8, u8, u8, u8, u8), k: int, x: u8) -> (u8, u8, u8, u8, u8) {
    if k == 0 {
        (x, v.1, v.2, v.3, v.4)
    } else if k == 1 {
        (v.0, x, v.2, v.3, v.4)
    } else if k == 2 {
        (v.0, v.1, x, v.3, v.4)
    } else if k == 3 {
        (v.0, v.1, v.2, x, v.4)
    } else {
        (v.0, v.1, v.2, v.3, x)
    }
}

/// Adds one effect row: score-up keeps the largest, life recovery sums,
/// the character-rank bonus keeps the largest reached one, the group-count
/// row sets the value for its member count, the distinct-groups and
/// reference rows set their figures; a value that does not fit is refused.
pub open spec fn scan_step(acc: SkillScan, e: SkillEffect, character_rank: i32, limit: Option<u32>) -> Result<SkillScan, BuildError> {
    match spec_effect_kind(e.effect_type@) {
        EffectKind::ScoreUp => Ok(SkillScan { base: if (e.value as i64) > acc.base { e.value as i64 } else { acc.base }, ..acc }),
        EffectKind::LifeRecovery => Ok(SkillScan { life: (acc.life + e.value) as i128, ..acc }),
        EffectKind::CharacterRank => if e.activate_character_rank matches Some(r) && r <= character_rank {
            Ok(SkillScan { rank_bonus: if (e.value as i64) > acc.rank_bonus { e.value as i64 } else { acc.rank_bonus }, ..acc })
        } else {
            Ok(acc)
        },
        EffectKind::UnitCount => {
            let unit = match e.unit { Some(u) => spec_parse_unit(u@), None => None };
            match e.unit_member_count {
                Some(c) => if 1 <= c <= 5 {
                    match spec_score(e.value as i64, limit, "skill score") {
                        Ok(v) => Ok(SkillScan { unit, unit_values: set_value(acc.unit_values, c - 1, v), ..acc }),
                        Err(err) => Err(err),
                    }
                } else {
                    Ok(SkillScan { unit, ..acc })
                },
                None => Ok(SkillScan { unit, ..acc }),
            }
        },
        EffectKind::Diff => match spec_score(e.value as i64, limit, "skill score") {
            Err(err) => Err(err),
            Ok(b) => match spec_score(
                (match e.additional_value { Some(a) => a, None => 0i32 }) as i64,
                limit,
                "different-unit increment",
            ) {
                Err(err) => Err(err),
                Ok(inc) => Ok(SkillScan { diff: Some(DiffSkill { base: b, increment: inc }), ..acc }),
            },
        },
        EffectKind::Reference => Ok(SkillScan {
            ref_rate: e.value,
            ref_max: match e.additional_value { Some(a) => a, None => 0i32 },
            ..acc
        }),
        EffectKind::Other => Ok(acc),
    }
}

/// The effect rows of a skill level, in masterdata order.
pub open spec fn effects_of(s: Seq<SkillEffect>, id: i32, level: i32) -> Seq<SkillEffect>
    decreases s.len(),
{
    if s.len() == 0 {
        Seq::empty()
    } else {
        let r = effects_of(s.drop_last(), id, level);
        if s.last().skill_id == id && s.last().skill_level == level { r.push(s.last()) } else { r }
    }
}

/// Scans effect rows in order, stopping at the first refused value.
pub open spec fn scan_effects(s: Seq<SkillEffect>, character_rank: i32, limit: Option<u32>) -> Result<SkillScan, BuildError>
    decreases s.len(),
{
    if s.len() == 0 {
        Ok(scan_start())
    } else {
        match scan_effects(s.drop_last(), character_rank, limit) {
            Ok(acc) => scan_step(acc, s.last(), character_rank, limit),
            Err(e) => Err(e),
        }
    }
}

/// A skill result with no skill at all.
pub open spec fn empty_skill() -> SkillResult {
    SkillResult {
        slot: SkillSlot { skill_type: 0, value: 0 },
        unit_count: None,
        diff: None,
        ref_skill: None,
        skill_min: 0,
        skill_max: 0,
        full: SkillInfo {
            skill_id: 0,
            is_after_training: false,
            base_score_up: 0,
            life_recovery: 0,
            has_ref: false,
            ref_rate: 0,
            ref_max: 0,
        },
    }
}

/// A value clamped into `i64`.
pub open spec fn clamp_i64(v: int) -> i64 {
    if v > i64::MAX { i64::MAX } else if v < i64::MIN { i64::MIN } else { v as i64 }
}

/// Smallest and largest of the five per-count values.
pub open spec fn min5(v: (u8, u8, u8, u8, u8)) -> u8 {
    let a = if v.0 < v.1 { v.0 } else { v.1 };
    let b = if a < v.2 { a } else { v.2 };
    let c = if b < v.3 { b } else { v.3 };
    if c < v.4 { c } else { v.4 }
}

pub open spec fn max5(v: (u8, u8, u8, u8, u8)) -> u8 {
    let a = if v.0 > v.1 { v.0 } else { v.1 };
    let b = if a > v.2 { a } else { v.2 };
    let c = if b > v.3 { b } else { v.3 };
    if c > v.4 { c } else { v.4 }
}

/// Per-count values with unset (zero) ones replaced by the base score-up.
pub open spec fn fill_zero(v: (u8, u8, u8, u8, u8), base: u8) -> (u8, u8, u8, u8, u8) {
    (
        if v.0 == 0 { base } else { v.0 },
        if v.1 == 0 { base } else { v.1 },
        if v.2 == 0 { base } else { v.2 },
        if v.3 == 0 { base } else { v.3 },
        if v.4 == 0 { base } else { v.4 },
    )
}

/// The skill information shared by every kind of skill.
pub open spec fn base_info(acc: SkillScan, skill_id: i32, state: SkillState, base: u8) -> SkillInfo {
    SkillInfo {
        skill_id,
        is_after_training: state == SkillState::AfterTraining,
        base_score_up: base as i32,
        life_recovery: if acc.life < 0 { 0 } else { clamp_i64(acc.life as int) },
        has_ref: acc.ref_rate > 0 && acc.ref_max > 0,
        ref_rate: if acc.ref_rate < 0 { 0 } else { acc.ref_rate },
        ref_max: 0,
    }
}

/// A plain score-up skill.
pub open spec fn plain_skill(full: SkillInfo, base: u8) -> SkillResult {
    SkillResult {
        slot: SkillSlot { skill_type: 0, value: base },
        unit_count: None,
        diff: None,
        ref_skill: None,
        skill_min: base,
        skill_max: base,
        full,
    }
}

/// A group-count skill: unset counts take the base score-up.
pub open spec fn unit_skill(full: SkillInfo, base: u8, unit: u8, values: (u8, u8, u8, u8, u8)) -> SkillResult {
    let vals = fill_zero(values, base);
    SkillResult {
        slot: SkillSlot { skill_type: 1, value: 0 },
        unit_count: Some(UnitCountSkill { unit, score_up: [vals.0, vals.1, vals.2, vals.3, vals.4] }),
        skill_min: min5(vals),
        skill_max: max5(vals),
        full: SkillInfo { base_score_up: max5(vals) as i32, ..full },
        ..plain_skill(full, base)
    }
}

/// A distinct-groups skill: at most two more groups than the base.
pub open spec fn diff_skill(full: SkillInfo, base: u8, d: DiffSkill, limit: Option<u32>) -> Result<SkillResult, BuildError> {
    match spec_score((d.base + d.increment * 2) as i64, limit, "different-unit upper bound") {
        Err(e) => Err(e),
        Ok(top) => Ok(SkillResult {
            slot: SkillSlot { skill_type: 2, value: 0 },
            diff: Some(d),
            skill_min: d.base,
            skill_max: top,
            full: SkillInfo { base_score_up: top as i32, ..full },
            ..plain_skill(full, base)
        }),
    }
}

/// A reference skill: its addition is capped by what the skill limit
/// leaves above the base.
pub open spec fn ref_skill_result(full: SkillInfo, base: u8, acc: SkillScan, limit: Option<u32>) -> Result<SkillResult, BuildError> {
    let headroom: Option<u32> = match limit {
        Some(l) => Some(if l > base { (l - base) as u32 } else { 0u32 }),
        None => None,
    };
    match spec_score(acc.ref_max as i64, headroom, "reference skill addition") {
        Err(e) => Err(e),
        Ok(rmax) => match spec_score(acc.ref_rate as i64, None, "reference skill rate") {
            Err(e) => Err(e),
            Ok(rate) => match spec_score((base + rmax) as i64, None, "reference skill upper bound") {
                Err(e) => Err(e),
                Ok(top) => Ok(SkillResult {
                    slot: SkillSlot { skill_type: 3, value: 0 },
                    ref_skill: Some(RefSkill { rate, max: rmax }),
                    skill_min: base,
                    skill_max: top,
                    full: SkillInfo { ref_max: rmax as i32, ..full },
                    ..plain_skill(full, base)
                }),
            },
        },
    }
}

/// The skill result a scan gives: a group-count skill when a group-count row
/// named a real group, else a distinct-groups skill, else a reference skill
/// when it has a rate and a maximum, else a plain score-up skill.
pub open spec fn finish_skill(acc: SkillScan, skill_id: i32, state: SkillState, limit: Option<u32>) -> Result<SkillResult, BuildError> {
    match spec_score((acc.base + acc.rank_bonus) as i64, limit, "base skill score") {
        Err(e) => Err(e),
        Ok(base) => {
            let full = base_info(acc, skill_id, state, base);
            let unit_index = match acc.unit { Some(u) => spec_unit_pool_index(u), None => None };
            if unit_index is Some {
                Ok(unit_skill(full, base, unit_index->0, acc.unit_values))
            } else if acc.diff is Some {
                diff_skill(full, base, acc.diff->0, limit)
            } else if acc.ref_rate > 0 && acc.ref_max > 0 {
                ref_skill_result(full, base, acc, limit)
            } else {
                Ok(plain_skill(full, base))
            }
        },
    }
}

/// The skill a card enters the pool with in a training state.
pub open spec fn spec_build_skill(
    user_card: UserCard,
    master: MasterCard,
    game: GameData<'_>,
    character_rank: i32,
    limit: Option<u32>,
    state: SkillState,
) -> Result<SkillResult, BuildError> {
    let skill_id = match state {
        SkillState::AfterTraining => match master.special_training_skill_id {
            Some(id) => id,
            None => master.skill_id,
        },
        SkillState::BeforeTraining => master.skill_id,
    };
    match first_skill_row(game.skills@, skill_id, user_card.skill_level) {
        None => Ok(empty_skill()),
        Some(row) => match scan_effects(effects_of(game.skill_effects@, skill_id, row.level), character_rank, limit) {
            Err(e) => Err(e),
            Ok(acc) => finish_skill(acc, skill_id, state, limit),
        },
    }
}

fn set_value_exec(v: (u8, u8, u8, u8, u8), k: usize, x: u8) -> (r: (u8, u8, u8, u8, u8))
    ensures
        r == set_value(v, k as int, x),
{
    if k == 0 {
        (x, v.1, v.2, v.3, v.4)
    } else if k == 1 {
        (v.0, x, v.2, v.3, v.4)
    } else if k == 2 {
        (v.0, v.1, x, v.3, v.4)
    } else if k == 3 {
        (v.0, v.1, v.2, x, v.4)
    } else {
        (v.0, v.1, v.2, v.3, x)
    }
}

fn scan_step_exec(acc: SkillScan, e: &SkillEffect, character_rank: i32, limit: Option<u32>, count: usize) -> (r: Result<SkillScan, BuildError>)
    requires
        -(count as int) * 0x8000_0000 <= acc.life <= (count as int) * 0x8000_0000,
        0 <= acc.base <= i32::MAX,
        0 <= acc.rank_bonus <= i32::MAX,
        count < usize::MAX,
    ensures
        r == scan_step(acc, *e, character_rank, limit),
        r matches Ok(a) ==> -(count as int + 1) * 0x8000_0000 <= a.life <= (count as int + 1) * 0x8000_0000
            && 0 <= a.base <= i32::MAX && 0 <= a.rank_bonus <= i32::MAX,
{
    match effect_kind(e.effect_type.as_str()) {
        EffectKind::ScoreUp => Ok(SkillScan { base: if (e.value as i64) > acc.base { e.value as i64 } else { acc.base }, ..acc }),
        EffectKind::LifeRecovery => Ok(SkillScan { life: acc.life + e.value as i128, ..acc }),
        EffectKind::CharacterRank => {
            match e.activate_character_rank {
                Some(r) => {
                    if r <= character_rank {
                        Ok(SkillScan { rank_bonus: if (e.value as i64) > acc.rank_bonus { e.value as i64 } else { acc.rank_bonus }, ..acc })
                    } else {
                        Ok(acc)
                    }
                },
                None => Ok(acc),
            }
        },
        EffectKind::UnitCount => {
            let unit = match &e.unit {
                Some(u) => parse_unit_code(u.as_str()),
                None => None,
            };
            match e.unit_member_count {
                Some(c) => {
                    if 1 <= c && c <= 5 {
                        match score(e.value as i64, limit, "skill score") {
                            Ok(v) => Ok(SkillScan { unit, unit_values: set_value_exec(acc.unit_values, (c - 1) as usize, v), ..acc }),
                            Err(err) => Err(err),
                        }
                    } else {
                        Ok(SkillScan { unit, ..acc })
                    }
                },
                None => Ok(SkillScan { unit, ..acc }),
            }
        },
        EffectKind::Diff => {
            match score(e.value as i64, limit, "skill score") {
                Err(err) => Err(err),
                Ok(b) => {
                    let add: i32 = match e.additional_value {
                        Some(a) => a,
                        None => 0,
                    };
                    match score(add as i64, limit, "different-unit increment") {
                        Err(err) => Err(err),
                        Ok(inc) => Ok(SkillScan { diff: Some(DiffSkill { base: b, increment: inc }), ..acc }),
                    }
                },
            }
        },
        EffectKind::Reference => {
            let add: i32 = match e.additional_value {
                Some(a) => a,
                None => 0,
            };
            Ok(SkillScan { ref_rate: e.value, ref_max: add, ..acc })
        },
        EffectKind::Other => Ok(acc),
    }
}

fn unit_skill_exec(full: SkillInfo, base: u8, unit: u8, v: (u8, u8, u8, u8, u8)) -> (r: SkillResult)
    ensures
        r == unit_skill(full, base, unit, v),
{
    let vals = (
        if v.0 == 0 { base } else { v.0 },
        if v.1 == 0 { base } else { v.1 },
        if v.2 == 0 { base } else { v.2 },
        if v.3 == 0 { base } else { v.3 },
        if v.4 == 0 { base } else { v.4 },
    );
    let a = if vals.0 < vals.1 { vals.0 } else { vals.1 };
    let b = if a < vals.2 { a } else { vals.2 };
    let c = if b < vals.3 { b } else { vals.3 };
    let lo = if c < vals.4 { c } else { vals.4 };
    let a2 = if vals.0 > vals.1 { vals.0 } else { vals.1 };
    let b2 = if a2 > vals.2 { a2 } else { vals.2 };
    let c2 = if b2 > vals.3 { b2 } else { vals.3 };
    let hi = if c2 > vals.4 { c2 } else { vals.4 };
    SkillResult {
        slot: SkillSlot { skill_type: 1, value: 0 },
        unit_count: Some(UnitCountSkill { unit, score_up: [vals.0, vals.1, vals.2, vals.3, vals.4] }),
        diff: None,
        ref_skill: None,
        skill_min: lo,
        skill_max: hi,
        full: SkillInfo { base_score_up: hi as i32, ..full },
    }
}

fn diff_skill_exec(full: SkillInfo, base: u8, d: DiffSkill, limit: Option<u32>) -> (r: Result<SkillResult, BuildError>)
    ensures
        r == diff_skill(full, base, d, limit),
{
    let top = match score(d.base as i64 + d.increment as i64 * 2, limit, "different-unit upper bound") {
        Ok(t) => t,
        Err(e) => return Err(e),
    };
    Ok(SkillResult {
        slot: SkillSlot { skill_type: 2, value: 0 },
        unit_count: None,
        diff: Some(d),
        ref_skill: None,
        skill_min: d.base,
        skill_max: top,
        full: SkillInfo { base_score_up: top as i32, ..full },
    })
}

fn ref_skill_exec(full: SkillInfo, base: u8, acc: SkillScan, limit: Option<u32>) -> (r: Result<SkillResult, BuildError>)
    ensures
        r == ref_skill_result(full, base, acc, limit),
{
    let headroom: Option<u32> = match limit {
        Some(l) => Some(if l > base as u32 { l - base as u32 } else { 0 }),
        None => None,
    };
    let rmax = match score(acc.ref_max as i64, headroom, "reference skill addition") {
        Ok(t) => t,
        Err(e) => return Err(e),
    };
    let rate = match score(acc.ref_rate as i64, None, "reference skill rate") {
        Ok(t) => t,
        Err(e) => return Err(e),
    };
    let top = match score(base as i64 + rmax as i64, None, "reference skill upper bound") {
        Ok(t) => t,
        Err(e) => return Err(e),
    };
    Ok(SkillResult {
        slot: SkillSlot { skill_type: 3, value: 0 },
        unit_count: None,
        diff: None,
        ref_skill: Some(RefSkill { rate, max: rmax }),
        skill_min: base,
        skill_max: top,
        full: SkillInfo { ref_max: rmax as i32, ..full },
    })
}

fn finish_skill_exec(acc: SkillScan, skill_id: i32, state: SkillState, limit: Option<u32>) -> (r: Result<SkillResult, BuildError>)
    requires
        0 <= acc.base <= i32::MAX,
        0 <= acc.rank_bonus <= i32::MAX,
    ensures
        r == finish_skill(acc, skill_id, state, limit),
{
    let base = match score(acc.base as i64 + acc.rank_bonus as i64, limit, "base skill score") {
        Ok(b) => b,
        Err(e) => return Err(e),
    };
    let life: i64 = if acc.life < 0 {
        0
    } else if acc.life > 9223372036854775807 {
        9223372036854775807
    } else {
        acc.life as i64
    };
    let full = SkillInfo {
        skill_id,
        is_after_training: state == SkillState::AfterTraining,
        base_score_up: base as i32,
        life_recovery: life,
        has_ref: acc.ref_rate > 0 && acc.ref_max > 0,
        ref_rate: if acc.ref_rate < 0 { 0 } else { acc.ref_rate },
        ref_max: 0,
    };
    assert(full == base_info(acc, skill_id, state, base));
    let unit_index = match acc.unit {
        Some(u) => unit_to_pool_index(u),
        None => None,
    };
    if let Some(ui) = unit_index {
        return Ok(unit_skill_exec(full, base, ui, acc.unit_values));
    }
    if let Some(d) = acc.diff {
        return diff_skill_exec(full, base, d, limit);
    }
    if acc.ref_rate > 0 && acc.ref_max > 0 {
        return ref_skill_exec(full, base, acc, limit);
    }
    Ok(SkillResult {
        slot: SkillSlot { skill_type: 0, value: base },
        unit_count: None,
        diff: None,
        ref_skill: None,
        skill_min: base,
        skill_max: base,
        full,
    })
}

/// Builds the skill a card enters the pool with in a training state: the
/// trained skill (or the original one when the card has none) after
/// training, the original one before; no skill row gives an empty skill.
#[verifier::loop_isolation(false)]
pub fn build_skill(
    user_card: &UserCard,
    master: &MasterCard,
    game: &GameData<'_>,
    character_rank: i32,
    skill_limit: Option<u32>,
    skill_state: SkillState,
) -> (r: Result<SkillResult, BuildError>)
    ensures
        r == spec_build_skill(*user_card, *master, *game, character_rank, skill_limit, skill_state),
{
    let skill_id = match skill_state {
        SkillState::AfterTraining => match master.special_training_skill_id {
            Some(id) => id,
            None => master.skill_id,
        },
        SkillState::BeforeTraining => master.skill_id,
    };
    let row = match find_skill_row(game.skills, skill_id, user_card.skill_level) {
        Some(row) => row,
        None => {
            let empty = SkillResult {
                slot: SkillSlot { skill_type: 0, value: 0 },
                unit_count: None,
                diff: None,
                ref_skill: None,
                skill_min: 0,
                skill_max: 0,
                full: SkillInfo {
                    skill_id: 0,
                    is_after_training: false,
                    base_score_up: 0,
                    life_recovery: 0,
                    has_ref: false,
                    ref_rate: 0,
                    ref_max: 0,
                },
            };
            return Ok(empty);
        },
    };
    let effects = game.skill_effects;
    let mut acc = SkillScan {
        base: 0,
        life: 0,
        rank_bonus: 0,
        unit: None,
        unit_values: (0, 0, 0, 0, 0),
        diff: None,
        ref_rate: 0,
        ref_max: 0,
    };
    let mut count: usize = 0;
    let mut i: usize = 0;
    while i < effects.len()
        invariant
            i <= effects@.len(),
            count <= i,
            effects_of(effects@.subrange(0, i as int), skill_id, row.level).len() == count,
            scan_effects(effects_of(effects@.subrange(0, i as int), skill_id, row.level), character_rank, skill_limit)
                == Ok::<SkillScan, BuildError>(acc),
            -(count as int) * 0x8000_0000 <= acc.life <= (count as int) * 0x8000_0000,
            0 <= acc.base <= i32::MAX,
            0 <= acc.rank_bonus <= i32::MAX,
        decreases effects@.len() - i,
    {
        assert(effects@.subrange(0, i + 1).drop_last() =~= effects@.subrange(0, i as int));
        let e = &effects[i];
        if e.skill_id == skill_id && e.skill_level == row.level {
            let ghost prev = effects_of(effects@.subrange(0, i as int), skill_id, row.level);
            assert(effects_of(effects@.subrange(0, i + 1), skill_id, row.level) == prev.push(*e));
            assert(prev.push(*e).drop_last() =~= prev);
            match scan_step_exec(acc, e, character_rank, skill_limit, count) {
                Ok(a) => {
                    acc = a;
                },
                Err(err) => {
                    proof {
                        assert(prev.push(*e).last() == *e);
                        assert(scan_effects(prev.push(*e), character_rank, skill_limit) == scan_step(acc, *e, character_rank, skill_limit));
                        lemma_scan_error_sticks(effects@, i + 1, skill_id, row.level, character_rank, skill_limit);
                        assert(scan_effects(effects_of(effects@, skill_id, row.level), character_rank, skill_limit)
                            == Err::<SkillScan, BuildError>(err));
                    }
                    return Err(err);
                },
            }
            count = count + 1;
        }
        i = i + 1;
    }
    assert(effects@.subrange(0, effects@.len() as int) =~= effects@);
    finish_skill_exec(acc, skill_id, skill_state, skill_limit)
}

proof fn lemma_scan_error_sticks(
    effects: Seq<SkillEffect>,
    from: int,
    id: i32,
    level: i32,
    character_rank: i32,
    limit: Option<u32>,
)
    requires
        0 <= from <= effects.len(),
        scan_effects(effects_of(effects.subrange(0, from), id, level), character_rank, limit) is Err,
    ensures
        scan_effects(effects_of(effects, id, level), character_rank, limit) == scan_effects(
            effects_of(effects.subrange(0, from), id, level),
            character_rank,
            limit,
        ),
    decreases effects.len() - from,
{
    if from < effects.len() {
        let prev = effects_of(effects.subrange(0, from), id, level);
        assert(effects.subrange(0, from + 1).drop_last() =~= effects.subrange(0, from));
        assert(effects.subrange(0, from + 1).last() == effects[from]);
        let next = effects_of(effects.subrange(0, from + 1), id, level);
        if effects[from].skill_id == id && effects[from].skill_level == level {
            assert(next == prev.push(effects[from]));
            assert(prev.push(effects[from]).drop_last() =~= prev);
        } else {
            assert(next == prev);
        }
        assert(scan_effects(next, character_rank, limit) == scan_effects(prev, character_rank, limit));
        lemma_scan_error_sticks(effects, from + 1, id, level, character_rank, limit);
    } else {
        assert(effects.subrange(0, from) =~= effects);
    }
}

} // verus!
