//! Laws of the per-card figures: power, skill, event bonus, hard filters
//! and World Bloom support bonus.

use vstd::prelude::*;
use crate::data::{BuildParams, EventRarityBonusRate, GameData, MasterCard, SkillEffect, UserCard};
use crate::event_bonus::{spec_card_event_bonus, spec_rarity_bonus_x10, best_rarity_row, EventContext};
use crate::filter::{has_unit, spec_keep_card};
use crate::pool::{CardIntermediate, PowerResult, SkillState};
use crate::power::{area_bonus, area_sum, clamp32, item_applies, power_ok, spec_base_dims, AreaItemEffect, PreparedPowerContext};
use crate::skill::{effects_of, first_skill_row, scan_effects, scan_step, spec_build_skill, spec_effect_kind, EffectKind, SkillScan};
use crate::support::{char_bonus_of, rarity_row, spec_support_bonus, turn_table, SupportSeed};
use crate::text::{spec_parse_attr, spec_parse_unit};
use crate::types::{spec_attr_pool_index, spec_unit_pool_index, Unit};
use crate::types::Attr;

verus! {

// ---------------------------------------------------------------------------
// Area items and the card's attribute.

/// The area items a card of attribute `attr` can use: those without an
/// attribute and those of its attribute, in order.
pub open spec fn attr_admitted(items: Seq<AreaItemEffect>, attr: u8) -> Seq<AreaItemEffect>
    decreases items.len(),
{
    if items.len() == 0 {
        Seq::empty()
    } else {
        let rest = attr_admitted(items.drop_last(), attr);
        let it = items.last();
        if it.attr is Some && it.attr->0 != attr { rest } else { rest.push(it) }
    }
}

proof fn lemma_area_sum_admitted(
    items: Seq<AreaItemEffect>,
    d: int,
    character_id: i32,
    mask: u8,
    attr: u8,
    p: u8,
    su: bool,
    sa: bool,
)
    ensures
        area_sum(items, d, character_id, mask, attr, p, su, sa)
            == area_sum(attr_admitted(items, attr), d, character_id, mask, attr, p, su, sa),
    decreases items.len(),
{
    if items.len() > 0 {
        lemma_area_sum_admitted(items.drop_last(), d, character_id, mask, attr, p, su, sa);
        let rest = attr_admitted(items.drop_last(), attr);
        let it = items.last();
        if !(it.attr is Some && it.attr->0 != attr) {
            assert(rest.push(it).drop_last() =~= rest);
            assert(rest.push(it).last() == it);
        } else {
            assert(!item_applies(it, character_id, mask, attr, p));
        }
    }
}

proof fn lemma_area_sum_none(items: Seq<AreaItemEffect>, d: int, character_id: i32, mask: u8, attr: u8, p: u8, su: bool, sa: bool)
    requires
        forall|i: int| 0 <= i < items.len() ==> !item_applies(#[trigger] items[i], character_id, mask, attr, p),
    ensures
        area_sum(items, d, character_id, mask, attr, p, su, sa) == 0,
    decreases items.len(),
{
    if items.len() > 0 {
        assert(!item_applies(items[items.len() - 1], character_id, mask, attr, p));
        lemma_area_sum_none(items.drop_last(), d, character_id, mask, attr, p, su, sa);
    }
}

/// An area item restricted to another attribute adds nothing to a card: in
/// every profile of its groups, the card's area-item bonus is the one over
/// only the items without an attribute or with the card's attribute.
pub proof fn area_items_follow_the_card_attribute(
    r: PowerResult,
    uc: UserCard,
    m: MasterCard,
    ctx: PreparedPowerContext,
    game: GameData<'_>,
    mask: u8,
    attr: u8,
    k: int,
)
    requires
        power_ok(r, uc, m, ctx, game, mask, attr),
        0 <= k < 24,
        has_unit(mask, (k / 4) as u8),
    ensures
        r.area_item_bonus@[k] == clamp32(area_bonus(
            attr_admitted(ctx.area_items@, attr),
            spec_base_dims(uc, m, ctx, game),
            m.character_id,
            mask,
            attr,
            (k / 4) as u8,
            k % 4,
        )),
{
    let d = spec_base_dims(uc, m, ctx, game);
    let p = (k / 4) as u8;
    let su = k % 4 >= 2;
    let sa = k % 4 % 2 == 1;
    lemma_area_sum_admitted(ctx.area_items@, d.0 as int, m.character_id, mask, attr, p, su, sa);
    lemma_area_sum_admitted(ctx.area_items@, d.1 as int, m.character_id, mask, attr, p, su, sa);
    lemma_area_sum_admitted(ctx.area_items@, d.2 as int, m.character_id, mask, attr, p, su, sa);
}

/// A player whose area items are all restricted to attributes other than
/// the card's gives the card no area-item bonus in any profile.
pub proof fn other_attribute_items_give_no_area_bonus(
    r: PowerResult,
    uc: UserCard,
    m: MasterCard,
    ctx: PreparedPowerContext,
    game: GameData<'_>,
    mask: u8,
    attr: u8,
)
    requires
        power_ok(r, uc, m, ctx, game, mask, attr),
        forall|i: int| 0 <= i < ctx.area_items@.len() ==> (#[trigger] ctx.area_items@[i]).attr is Some
            && ctx.area_items@[i].attr->0 != attr,
    ensures
        forall|k: int| 0 <= k < 24 ==> #[trigger] r.area_item_bonus@[k] == 0,
{
    assert forall|k: int| 0 <= k < 24 implies #[trigger] r.area_item_bonus@[k] == 0 by {
        if has_unit(mask, (k / 4) as u8) {
            let d = spec_base_dims(uc, m, ctx, game);
            let p = (k / 4) as u8;
            let su = k % 4 >= 2;
            let sa = k % 4 % 2 == 1;
            assert forall|i: int| 0 <= i < ctx.area_items@.len() implies !item_applies(
                #[trigger] ctx.area_items@[i], m.character_id, mask, attr, p,
            ) by {
                area_item_of_other_attribute_never_applies(ctx.area_items@[i], m.character_id, mask, attr, p);
            }
            lemma_area_sum_none(ctx.area_items@, d.0 as int, m.character_id, mask, attr, p, su, sa);
            lemma_area_sum_none(ctx.area_items@, d.1 as int, m.character_id, mask, attr, p, su, sa);
            lemma_area_sum_none(ctx.area_items@, d.2 as int, m.character_id, mask, attr, p, su, sa);
            assert(area_bonus(ctx.area_items@, d, m.character_id, mask, attr, p, k % 4) == 0);
        }
    }
}

/// An area item restricted to an attribute never applies to a card of
/// another attribute, whatever its group and character rules.
pub proof fn area_item_of_other_attribute_never_applies(it: AreaItemEffect, character_id: i32, mask: u8, attr: u8, p: u8)
    requires
        it.attr is Some,
        it.attr->0 != attr,
    ensures
        !item_applies(it, character_id, mask, attr, p),
{
}

/// An area item restricted to another character never applies to a card,
/// whatever its group and attribute rules.
pub proof fn area_item_of_other_character_never_applies(it: AreaItemEffect, character_id: i32, mask: u8, attr: u8, p: u8)
    requires
        it.character_id is Some,
        it.character_id->0 != character_id,
    ensures
        !item_applies(it, character_id, mask, attr, p),
{
}

/// An area item of a group applies only in that group's profile, and only
/// to a card of that group.
pub proof fn area_item_of_a_group_applies_only_to_its_members(it: AreaItemEffect, character_id: i32, mask: u8, attr: u8, p: u8)
    requires
        it.unit is Some,
        item_applies(it, character_id, mask, attr, p),
    ensures
        it.unit->0 == p,
        has_unit(mask, p),
{
}

/// An area item that the card cannot use in profile group `p`: restricted
/// to another attribute, to another character, or to another group (or to
/// a group the card is not in).
pub open spec fn item_shut_out(it: AreaItemEffect, character_id: i32, mask: u8, attr: u8, p: u8) -> bool {
    ||| (it.attr is Some && it.attr->0 != attr)
    ||| (it.character_id is Some && it.character_id->0 != character_id)
    ||| (it.unit is Some && (it.unit->0 != p || !has_unit(mask, p)))
}

/// When every area item the player owns is shut out for the card in a
/// profile, the card's area-item bonus in that profile is 0.
pub proof fn shut_out_items_give_no_area_bonus(
    r: PowerResult,
    uc: UserCard,
    m: MasterCard,
    ctx: PreparedPowerContext,
    game: GameData<'_>,
    mask: u8,
    attr: u8,
    k: int,
)
    requires
        power_ok(r, uc, m, ctx, game, mask, attr),
        0 <= k < 24,
        forall|i: int| 0 <= i < ctx.area_items@.len() ==> item_shut_out(#[trigger] ctx.area_items@[i], m.character_id, mask, attr, (k / 4) as u8),
    ensures
        r.area_item_bonus@[k] == 0,
{
    if has_unit(mask, (k / 4) as u8) {
        let d = spec_base_dims(uc, m, ctx, game);
        let p = (k / 4) as u8;
        let su = k % 4 >= 2;
        let sa = k % 4 % 2 == 1;
        assert forall|i: int| 0 <= i < ctx.area_items@.len() implies !item_applies(
            #[trigger] ctx.area_items@[i], m.character_id, mask, attr, p,
        ) by {
            assert(item_shut_out(ctx.area_items@[i], m.character_id, mask, attr, p));
        }
        lemma_area_sum_none(ctx.area_items@, d.0 as int, m.character_id, mask, attr, p, su, sa);
        lemma_area_sum_none(ctx.area_items@, d.1 as int, m.character_id, mask, attr, p, su, sa);
        lemma_area_sum_none(ctx.area_items@, d.2 as int, m.character_id, mask, attr, p, su, sa);
        assert(area_bonus(ctx.area_items@, d, m.character_id, mask, attr, p, k % 4) == 0);
    }
}

// ---------------------------------------------------------------------------
// Skill effect rows.

/// A character-rank row whose rank the player has reached.
pub open spec fn reached_rank_row(e: SkillEffect, character_rank: i32) -> bool {
    spec_effect_kind(e.effect_type@) == EffectKind::CharacterRank
        && e.activate_character_rank is Some && e.activate_character_rank->0 <= character_rank
}

/// A score-up row.
pub open spec fn score_up_row(e: SkillEffect) -> bool {
    spec_effect_kind(e.effect_type@) == EffectKind::ScoreUp
}

proof fn lemma_scan_step_base_and_rank(acc: SkillScan, e: SkillEffect, character_rank: i32, limit: Option<u32>)
    requires
        scan_step(acc, e, character_rank, limit) is Ok,
    ensures
        scan_step(acc, e, character_rank, limit)->Ok_0.rank_bonus == (if reached_rank_row(e, character_rank)
            && e.value as i64 > acc.rank_bonus {
            e.value as i64
        } else {
            acc.rank_bonus
        }),
        scan_step(acc, e, character_rank, limit)->Ok_0.base == (if score_up_row(e) && e.value as i64 > acc.base {
            e.value as i64
        } else {
            acc.base
        }),
{
}

/// Scanning a skill level's effect rows: the character-rank bonus is the
/// largest value among the character-rank rows whose activation rank the
/// player has reached (0 when none is larger), and rows of a rank not
/// reached add nothing; the score-up is likewise the largest score-up row.
pub proof fn skill_rank_bonus_needs_the_rank(s: Seq<SkillEffect>, character_rank: i32, limit: Option<u32>)
    requires
        scan_effects(s, character_rank, limit) is Ok,
    ensures
        ({
            let acc = scan_effects(s, character_rank, limit)->Ok_0;
            &&& acc.rank_bonus >= 0
            &&& forall|i: int| 0 <= i < s.len() && reached_rank_row(#[trigger] s[i], character_rank)
                ==> acc.rank_bonus >= s[i].value
            &&& acc.rank_bonus == 0 || exists|i: int| 0 <= i < s.len() && reached_rank_row(#[trigger] s[i], character_rank)
                && acc.rank_bonus == s[i].value
            &&& acc.base >= 0
            &&& forall|i: int| 0 <= i < s.len() && score_up_row(#[trigger] s[i]) ==> acc.base >= s[i].value
            &&& acc.base == 0 || exists|i: int| 0 <= i < s.len() && score_up_row(#[trigger] s[i]) && acc.base == s[i].value
        }),
    decreases s.len(),
{
    if s.len() > 0 {
        let prev = scan_effects(s.drop_last(), character_rank, limit);
        assert(prev is Ok);
        skill_rank_bonus_needs_the_rank(s.drop_last(), character_rank, limit);
        lemma_scan_step_base_and_rank(prev->Ok_0, s.last(), character_rank, limit);
        let acc = scan_effects(s, character_rank, limit)->Ok_0;
        let pa = prev->Ok_0;
        let n = s.len() - 1;
        assert forall|i: int| 0 <= i < s.len() && reached_rank_row(#[trigger] s[i], character_rank)
            implies acc.rank_bonus >= s[i].value by {
            if i < n {
                assert(s.drop_last()[i] == s[i]);
            }
        }
        assert forall|i: int| 0 <= i < s.len() && score_up_row(#[trigger] s[i]) implies acc.base >= s[i].value by {
            if i < n {
                assert(s.drop_last()[i] == s[i]);
            }
        }
        if acc.rank_bonus != 0 {
            if acc.rank_bonus == pa.rank_bonus {
                let i = choose|i: int| 0 <= i < s.drop_last().len() && reached_rank_row(#[trigger] s.drop_last()[i], character_rank)
                    && pa.rank_bonus == s.drop_last()[i].value;
                assert(s[i] == s.drop_last()[i]);
            } else {
                assert(reached_rank_row(s[n], character_rank) && acc.rank_bonus == s[n].value);
            }
        }
        if acc.base != 0 {
            if acc.base == pa.base {
                let i = choose|i: int| 0 <= i < s.drop_last().len() && score_up_row(#[trigger] s.drop_last()[i])
                    && pa.base == s.drop_last()[i].value;
                assert(s[i] == s.drop_last()[i]);
            } else {
                assert(score_up_row(s[n]) && acc.base == s[n].value);
            }
        }
    }
}

/// The largest score-up row value of a skill level, 0 when none is larger.
pub open spec fn top_score_up(s: Seq<SkillEffect>) -> int
    decreases s.len(),
{
    if s.len() == 0 {
        0
    } else {
        let t = top_score_up(s.drop_last());
        if score_up_row(s.last()) && s.last().value > t { s.last().value as int } else { t }
    }
}

/// The largest value among the character-rank rows whose activation rank
/// the player has reached, 0 when none is larger.
pub open spec fn top_reached_rank(s: Seq<SkillEffect>, character_rank: i32) -> int
    decreases s.len(),
{
    if s.len() == 0 {
        0
    } else {
        let t = top_reached_rank(s.drop_last(), character_rank);
        if reached_rank_row(s.last(), character_rank) && s.last().value > t { s.last().value as int } else { t }
    }
}

/// The skill id a card uses in a training state.
pub open spec fn skill_id_for(master: MasterCard, state: SkillState) -> i32 {
    match state {
        SkillState::AfterTraining => match master.special_training_skill_id {
            Some(id) => id,
            None => master.skill_id,
        },
        SkillState::BeforeTraining => master.skill_id,
    }
}

/// Scanning a skill level's rows gives the largest score-up row and the
/// largest reached character-rank row.
pub proof fn scan_keeps_the_top_rows(s: Seq<SkillEffect>, character_rank: i32, limit: Option<u32>)
    requires
        scan_effects(s, character_rank, limit) is Ok,
    ensures
        scan_effects(s, character_rank, limit)->Ok_0.base == top_score_up(s),
        scan_effects(s, character_rank, limit)->Ok_0.rank_bonus == top_reached_rank(s, character_rank),
        0 <= top_score_up(s) <= i32::MAX,
        0 <= top_reached_rank(s, character_rank) <= i32::MAX,
    decreases s.len(),
{
    if s.len() > 0 {
        let prev = scan_effects(s.drop_last(), character_rank, limit);
        assert(prev is Ok);
        scan_keeps_the_top_rows(s.drop_last(), character_rank, limit);
        lemma_scan_step_base_and_rank(prev->Ok_0, s.last(), character_rank, limit);
    }
}

/// A plain score-up skill built without a limit scores the largest
/// score-up row plus the largest character-rank row whose activation rank
/// the player has reached; a character-rank row of a rank not reached adds
/// nothing. With no skill row the skill scores 0.
pub proof fn plain_skill_adds_only_reached_rank_rows(
    uc: UserCard,
    master: MasterCard,
    game: GameData<'_>,
    character_rank: i32,
    state: SkillState,
)
    requires
        spec_build_skill(uc, master, game, character_rank, None, state) is Ok,
        spec_build_skill(uc, master, game, character_rank, None, state)->Ok_0.unit_count is None,
        spec_build_skill(uc, master, game, character_rank, None, state)->Ok_0.diff is None,
        spec_build_skill(uc, master, game, character_rank, None, state)->Ok_0.ref_skill is None,
    ensures
        ({
            let res = spec_build_skill(uc, master, game, character_rank, None, state)->Ok_0;
            let id = skill_id_for(master, state);
            &&& res.skill_min == res.skill_max
            &&& match first_skill_row(game.skills@, id, uc.skill_level) {
                None => res.skill_max == 0,
                Some(row) => {
                    let rows = effects_of(game.skill_effects@, id, row.level);
                    res.skill_max == top_score_up(rows) + top_reached_rank(rows, character_rank)
                },
            }
        }),
{
    let id = skill_id_for(master, state);
    if let Some(row) = first_skill_row(game.skills@, id, uc.skill_level) {
        let rows = effects_of(game.skill_effects@, id, row.level);
        scan_keeps_the_top_rows(rows, character_rank, None);
    }
}

// ---------------------------------------------------------------------------
// Rarity and master-rank bonus.

/// A row of the card's rarity whose master rank the card has reached.
pub open spec fn reached_rarity_row(e: EventRarityBonusRate, rarity: i32, rank: i32) -> bool {
    e.card_rarity_type == rarity && e.master_rank <= rank
}

proof fn lemma_best_rarity_row(s: Seq<EventRarityBonusRate>, rarity: i32, rank: i32)
    ensures
        best_rarity_row(s, rarity, rank) is None <==> forall|i: int| 0 <= i < s.len() ==> !reached_rarity_row(#[trigger] s[i], rarity, rank),
        best_rarity_row(s, rarity, rank) is Some ==> exists|i: int| 0 <= i < s.len() && reached_rarity_row(#[trigger] s[i], rarity, rank)
            && s[i] == best_rarity_row(s, rarity, rank)->0,
        best_rarity_row(s, rarity, rank) is Some ==> forall|j: int| 0 <= j < s.len() && reached_rarity_row(#[trigger] s[j], rarity, rank)
            ==> s[j].master_rank <= best_rarity_row(s, rarity, rank)->0.master_rank,
    decreases s.len(),
{
    if s.len() > 0 {
        let t = s.drop_last();
        lemma_best_rarity_row(t, rarity, rank);
        let n = s.len() - 1;
        assert forall|i: int| 0 <= i < n implies t[i] == s[i] by {}
        if best_rarity_row(s, rarity, rank) is Some {
            let b = best_rarity_row(s, rarity, rank)->0;
            if b == s[n] && reached_rarity_row(s[n], rarity, rank) {
            } else {
                let i = choose|i: int| 0 <= i < t.len() && reached_rarity_row(#[trigger] t[i], rarity, rank)
                    && t[i] == best_rarity_row(t, rarity, rank)->0;
                assert(s[i] == t[i]);
            }
            assert forall|j: int| 0 <= j < s.len() && reached_rarity_row(#[trigger] s[j], rarity, rank)
                implies s[j].master_rank <= b.master_rank by {
                if j < n {
                    assert(t[j] == s[j]);
                }
            }
        } else {
            assert forall|i: int| 0 <= i < s.len() implies !reached_rarity_row(#[trigger] s[i], rarity, rank) by {
                if i < n {
                    assert(t[i] == s[i]);
                }
            }
        }
        if forall|i: int| 0 <= i < s.len() ==> !reached_rarity_row(#[trigger] s[i], rarity, rank) {
            assert forall|i: int| 0 <= i < t.len() implies !reached_rarity_row(#[trigger] t[i], rarity, rank) by {
                assert(s[i] == t[i]);
            }
            assert(!reached_rarity_row(s[n], rarity, rank));
        }
    }
}

/// The rarity bonus of a card is the bonus of a row of its rarity whose
/// master rank it has reached and no other reached row has a higher master
/// rank; it is 0 when no row of its rarity is reached.
pub proof fn rarity_bonus_is_the_highest_reached_row(rows: Seq<EventRarityBonusRate>, rarity: i32, rank: i32)
    ensures
        (forall|i: int| 0 <= i < rows.len() ==> !reached_rarity_row(#[trigger] rows[i], rarity, rank))
            ==> spec_rarity_bonus_x10(rows, rarity, rank) == 0,
        (exists|i: int| 0 <= i < rows.len() && reached_rarity_row(#[trigger] rows[i], rarity, rank)) ==> exists|i: int|
            0 <= i < rows.len() && reached_rarity_row(#[trigger] rows[i], rarity, rank)
                && spec_rarity_bonus_x10(rows, rarity, rank) == rows[i].bonus_rate_x10
                && forall|j: int| 0 <= j < rows.len() && reached_rarity_row(#[trigger] rows[j], rarity, rank)
                    ==> rows[j].master_rank <= rows[i].master_rank,
{
    lemma_best_rarity_row(rows, rarity, rank);
}

/// When a rarity's bonuses grow with master rank and are not negative, a
/// card's rarity bonus grows with its master rank.
pub proof fn rarity_bonus_grows_with_master_rank(rows: Seq<EventRarityBonusRate>, rarity: i32, r1: i32, r2: i32)
    requires
        r1 <= r2,
        forall|i: int| 0 <= i < rows.len() && (#[trigger] rows[i]).card_rarity_type == rarity ==> rows[i].bonus_rate_x10 >= 0,
        forall|i: int, j: int|
            0 <= i < rows.len() && 0 <= j < rows.len() && (#[trigger] rows[i]).card_rarity_type == rarity
                && (#[trigger] rows[j]).card_rarity_type == rarity && rows[i].master_rank <= rows[j].master_rank
                ==> rows[i].bonus_rate_x10 <= rows[j].bonus_rate_x10,
    ensures
        spec_rarity_bonus_x10(rows, rarity, r1) <= spec_rarity_bonus_x10(rows, rarity, r2),
{
    rarity_bonus_is_the_highest_reached_row(rows, rarity, r1);
    rarity_bonus_is_the_highest_reached_row(rows, rarity, r2);
    if exists|i: int| 0 <= i < rows.len() && reached_rarity_row(#[trigger] rows[i], rarity, r1) {
        let i = choose|i: int| 0 <= i < rows.len() && reached_rarity_row(#[trigger] rows[i], rarity, r1)
            && spec_rarity_bonus_x10(rows, rarity, r1) == rows[i].bonus_rate_x10
            && forall|j: int| 0 <= j < rows.len() && reached_rarity_row(#[trigger] rows[j], rarity, r1)
                ==> rows[j].master_rank <= rows[i].master_rank;
        assert(reached_rarity_row(rows[i], rarity, r2));
        let k = choose|k: int| 0 <= k < rows.len() && reached_rarity_row(#[trigger] rows[k], rarity, r2)
            && spec_rarity_bonus_x10(rows, rarity, r2) == rows[k].bonus_rate_x10
            && forall|j: int| 0 <= j < rows.len() && reached_rarity_row(#[trigger] rows[j], rarity, r2)
                ==> rows[j].master_rank <= rows[k].master_rank;
        assert(rows[i].master_rank <= rows[k].master_rank);
    } else if exists|i: int| 0 <= i < rows.len() && reached_rarity_row(#[trigger] rows[i], rarity, r2) {
        let k = choose|k: int| 0 <= k < rows.len() && reached_rarity_row(#[trigger] rows[k], rarity, r2)
            && spec_rarity_bonus_x10(rows, rarity, r2) == rows[k].bonus_rate_x10
            && forall|j: int| 0 <= j < rows.len() && reached_rarity_row(#[trigger] rows[j], rarity, r2)
                ==> rows[j].master_rank <= rows[k].master_rank;
        assert(rows[k].bonus_rate_x10 >= 0);
    }
}

/// Two copies of a card that differ only in master rank: under a rarity
/// table whose bonuses grow with master rank, the higher-ranked copy's
/// event bonus is at least the other's.
pub proof fn event_bonus_grows_with_master_rank(
    uc: UserCard,
    r2: i32,
    master: MasterCard,
    card_attr: u8,
    primary_unit: Option<Unit>,
    support_unit: Option<Unit>,
    unrestricted: bool,
    limited_bonus_x10: i32,
    ctx: EventContext,
)
    requires
        uc.master_rank <= r2,
        forall|i: int| 0 <= i < ctx.rarity_bonuses@.len() && (#[trigger] ctx.rarity_bonuses@[i]).card_rarity_type
            == master.card_rarity_type ==> ctx.rarity_bonuses@[i].bonus_rate_x10 >= 0,
        forall|i: int, j: int|
            0 <= i < ctx.rarity_bonuses@.len() && 0 <= j < ctx.rarity_bonuses@.len()
                && (#[trigger] ctx.rarity_bonuses@[i]).card_rarity_type == master.card_rarity_type
                && (#[trigger] ctx.rarity_bonuses@[j]).card_rarity_type == master.card_rarity_type
                && ctx.rarity_bonuses@[i].master_rank <= ctx.rarity_bonuses@[j].master_rank
                ==> ctx.rarity_bonuses@[i].bonus_rate_x10 <= ctx.rarity_bonuses@[j].bonus_rate_x10,
    ensures
        spec_card_event_bonus(uc, master, card_attr, primary_unit, support_unit, unrestricted, limited_bonus_x10, ctx).0.base_x10
            <= spec_card_event_bonus(
            UserCard { master_rank: r2, ..uc },
            master,
            card_attr,
            primary_unit,
            support_unit,
            unrestricted,
            limited_bonus_x10,
            ctx,
        ).0.base_x10,
{
    rarity_bonus_grows_with_master_rank(ctx.rarity_bonuses@, master.card_rarity_type, uc.master_rank, r2);
}

// ---------------------------------------------------------------------------
// Hard filters.

/// A card the hard filters keep, unless it is a fixed card, has the
/// attribute the request's attribute filter names.
pub proof fn kept_cards_have_the_filtered_attribute(c: CardIntermediate, params: BuildParams, code: String, a: Attr)
    requires
        spec_keep_card(c, params),
        !params.fixed_cards@.contains(c.game_card_id),
        params.attr_filter == Some(code),
        spec_parse_attr(code@) == Some(a),
    ensures
        c.attr == spec_attr_pool_index(a),
{
}

/// A card the hard filters keep, unless it is a fixed card, belongs to the
/// group the request's group filter names.
pub proof fn kept_cards_belong_to_the_filtered_group(c: CardIntermediate, params: BuildParams, code: String, u: Unit)
    requires
        spec_keep_card(c, params),
        !params.fixed_cards@.contains(c.game_card_id),
        params.unit_filter == Some(code),
        spec_parse_unit(code@) == Some(u),
        spec_unit_pool_index(u) is Some,
    ensures
        has_unit(c.unit_mask_raw, spec_unit_pool_index(u)->0),
{
}

/// The hard filters never keep an excluded card, and in a challenge live
/// for one character keep only that character's cards.
pub proof fn kept_cards_are_not_excluded(c: CardIntermediate, params: BuildParams)
    requires
        spec_keep_card(c, params),
    ensures
        !params.excluded_cards@.contains(c.game_card_id),
        params.challenge_live_character_id is Some ==> c.character_id == params.challenge_live_character_id->0 as u8,
{
}

// ---------------------------------------------------------------------------
// World Bloom support bonus.

/// The chapter character's "specific" row key.
pub open spec fn specific_key() -> Seq<u8> {
    seq![115u8, 112, 101, 99, 105, 102, 105, 99]
}

/// The "others" row key.
pub open spec fn others_key() -> Seq<u8> {
    seq![111u8, 116, 104, 101, 114, 115]
}

/// Two seeds that differ only in character, one the chapter character's
/// and one another's: when both get a bonus within range, the chapter
/// character's exceeds the other's by the row's "specific" character rate
/// minus its "others" rate.
pub proof fn chapter_character_gets_the_specific_rate(
    a: SupportSeed,
    b: SupportSeed,
    game: GameData<'_>,
    event_id: i32,
    turn: Option<i32>,
    s: i32,
)
    requires
        b == (SupportSeed { character_id: b.character_id, ..a }),
        a.character_id as i32 == s,
        b.character_id as i32 != s,
        0 < spec_support_bonus(a, game, event_id, turn, Some(s)) < u32::MAX,
        0 < spec_support_bonus(b, game, event_id, turn, Some(s)) < u32::MAX,
    ensures
        rarity_row(turn_table(game, turn), a.rarity) is Some,
        spec_support_bonus(a, game, event_id, turn, Some(s)) - spec_support_bonus(b, game, event_id, turn, Some(s))
            == char_bonus_of(rarity_row(turn_table(game, turn), a.rarity)->0.world_bloom_support_deck_character_bonuses@, specific_key())
            - char_bonus_of(rarity_row(turn_table(game, turn), a.rarity)->0.world_bloom_support_deck_character_bonuses@, others_key()),
{
}

} // verus!
