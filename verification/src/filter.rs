//! Hard filters of candidate cards, the per-character trims applied when a
//! pool would be too large, and the fixed-slot constraints.

use vstd::prelude::*;
use vstd::string::StringExecFns;
use crate::data::{BuildParams, MasterCard};
use crate::error::BuildError;
use crate::event_bonus::EventBonusExact;
use crate::order::{is_order, keep_unmarked, permute, sorted_by_keys, stable_order, drop_marked, uniform_keys};
use crate::pool::{CardIntermediate, SkillResult, SkillState};
use crate::prune::{power_rank, power_rank_exec};
use crate::order::{key_views, key_before, lex_lt};
use crate::text::{parse_attr_code, parse_unit_code, spec_parse_attr, spec_parse_unit};
use crate::types::{
    attr_to_pool_index, contains_i32, piapro_mask, spec_attr_pool_index, spec_unit_pool_index,
    unit_to_pool_index, DefaultImage, LiveType, ScoreTarget, Unit, DECK_SIZE,
};

verus! {

/// Below this many candidates the bonus prefilter and trims do not run.
pub const EP_PREFILTER_MIN_POOL: usize = 50;
/// Cards kept per character by the bonus trim.
pub const PER_CHAR_KEEP: usize = 6;
/// Cards kept per character by the bonus trim of a World Bloom finale.
pub const FINAL_CHAPTER_PER_CHAR_KEEP: usize = 16;
/// Above this many candidates the general trim runs.
pub const GENERAL_TRIM_THRESHOLD: usize = 400;
/// Cards kept per character by the general and the power/skill trims.
pub const GENERAL_PER_CHAR_KEEP: usize = 10;
/// Cards kept per character in a challenge live.
pub const CHALLENGE_ALL_PER_CHAR_KEEP: usize = 19;

// ---------------------------------------------------------------------------
// Hard filters.

/// Pool index of the group a code names.
pub open spec fn code_unit_index(code: Option<String>) -> Option<u8> {
    match code {
        Some(s) => match spec_parse_unit(s@) {
            Some(u) => spec_unit_pool_index(u),
            None => None,
        },
        None => None,
    }
}

/// Pool index of the attribute a code names.
pub open spec fn code_attr_index(code: Option<String>) -> Option<u8> {
    match code {
        Some(s) => match spec_parse_attr(s@) {
            Some(a) => Some(spec_attr_pool_index(a)),
            None => None,
        },
        None => None,
    }
}

fn unit_index_of(code: &Option<String>) -> (r: Option<u8>)
    ensures
        r == code_unit_index(*code),
{
    match code {
        Some(s) => match parse_unit_code(s.as_str()) {
            Some(u) => unit_to_pool_index(u),
            None => None,
        },
        None => None,
    }
}

fn attr_index_of(code: &Option<String>) -> (r: Option<u8>)
    ensures
        r == code_attr_index(*code),
{
    match code {
        Some(s) => match parse_attr_code(s.as_str()) {
            Some(a) => attr_to_pool_index(a),
            None => None,
        },
        None => None,
    }
}

/// Whether a unit mask has the bit of a group index.
pub open spec fn has_unit(mask: u8, unit: u8) -> bool {
    unit < 8 && mask & (1u8 << unit) != 0
}

/// Whether a unit mask has the bit of a group index.
pub fn mask_has(mask: u8, unit: u8) -> (r: bool)
    ensures
        r == has_unit(mask, unit),
{
    unit < 8 && mask & (1u8 << unit) != 0
}

/// The request's hard filters on a card: not excluded; unless fixed, in the
/// filtered group and attribute and, with `filter_other_unit`, in the event
/// group; and of the challenge character when one is named (`challenge`
/// compares the character as the request gives it).
pub open spec fn spec_passes_filters(
    game_card_id: i32,
    character_matches_challenge: bool,
    unit_mask: u8,
    attr: u8,
    params: BuildParams,
) -> bool {
    let fixed = params.fixed_cards@.contains(game_card_id);
    &&& !params.excluded_cards@.contains(game_card_id)
    &&& (fixed || match code_unit_index(params.unit_filter) {
        Some(u) => has_unit(unit_mask, u),
        None => true,
    })
    &&& (fixed || match code_attr_index(params.attr_filter) {
        Some(a) => attr == a,
        None => true,
    })
    &&& (fixed || !params.filter_other_unit || match code_unit_index(params.event_unit) {
        Some(u) => has_unit(unit_mask, u),
        None => true,
    })
    &&& character_matches_challenge
}

fn passes_filters(
    game_card_id: i32,
    character_matches_challenge: bool,
    unit_mask: u8,
    attr: u8,
    params: &BuildParams,
) -> (r: bool)
    ensures
        r == spec_passes_filters(game_card_id, character_matches_challenge, unit_mask, attr, *params),
{
    let fixed = contains_i32(params.fixed_cards.as_slice(), game_card_id);
    if contains_i32(params.excluded_cards.as_slice(), game_card_id) {
        return false;
    }
    if !fixed {
        if let Some(u) = unit_index_of(&params.unit_filter) {
            if !mask_has(unit_mask, u) {
                return false;
            }
        }
        if let Some(a) = attr_index_of(&params.attr_filter) {
            if attr != a {
                return false;
            }
        }
        if params.filter_other_unit {
            if let Some(u) = unit_index_of(&params.event_unit) {
                if !mask_has(unit_mask, u) {
                    return false;
                }
            }
        }
    }
    character_matches_challenge
}

/// The request's hard filters, on a card whose power and skill are known
/// (the challenge character is compared in 8 bits).
pub open spec fn spec_keep_card(card: CardIntermediate, params: BuildParams) -> bool {
    spec_passes_filters(
        card.game_card_id,
        match params.challenge_live_character_id {
            Some(c) => card.character_id == c as u8,
            None => true,
        },
        card.unit_mask_raw,
        card.attr,
        params,
    )
}

/// Applies the request's hard filters to a finished candidate.
pub fn keep_card(card: &CardIntermediate, params: &BuildParams) -> (r: bool)
    ensures
        r == spec_keep_card(*card, *params),
{
    let challenge_ok = match params.challenge_live_character_id {
        Some(c) => card.character_id == c as u8,
        None => true,
    };
    passes_filters(card.game_card_id, challenge_ok, card.unit_mask_raw, card.attr, params)
}

/// The request's hard filters, on a masterdata card before power and skill
/// are computed.
pub open spec fn spec_prepared_keep_card(master: MasterCard, unit_mask: u8, attr: u8, params: BuildParams) -> bool {
    spec_passes_filters(
        master.id,
        match params.challenge_live_character_id {
            Some(c) => master.character_id == c,
            None => true,
        },
        unit_mask,
        attr,
        params,
    )
}

/// Applies the request's hard filters to a card before power and skill are
/// computed.
pub fn prepared_keep_card(master: &MasterCard, unit_mask: u8, attr: u8, params: &BuildParams) -> (r: bool)
    ensures
        r == spec_prepared_keep_card(*master, unit_mask, attr, *params),
{
    let challenge_ok = match params.challenge_live_character_id {
        Some(c) => master.character_id == c,
        None => true,
    };
    passes_filters(master.id, challenge_ok, unit_mask, attr, params)
}

/// The event-group filter: with `filter_other_unit` and an event group, a
/// card must be in that group or be a pure virtual singer.
pub open spec fn spec_event_unit_filter(unit_mask: u8, filter_other_unit: bool, filter_unit: Option<Unit>) -> bool {
    if !filter_other_unit {
        true
    } else {
        match filter_unit {
            None => true,
            Some(u) => match spec_unit_pool_index(u) {
                None => true,
                Some(i) => has_unit(unit_mask, i) || unit_mask == piapro_mask(),
            },
        }
    }
}

/// Applies the event-group filter.
pub fn event_unit_filter(unit_mask: u8, filter_other_unit: bool, filter_unit: Option<Unit>) -> (r: bool)
    ensures
        r == spec_event_unit_filter(unit_mask, filter_other_unit, filter_unit),
{
    if !filter_other_unit {
        return true;
    }
    let u = match filter_unit {
        Some(u) => u,
        None => return true,
    };
    let i = match unit_to_pool_index(u) {
        Some(i) => i,
        None => return true,
    };
    mask_has(unit_mask, i) || unit_mask == 32u8
}

/// Whether the event-point prefilter keeps a card: in World Bloom events
/// and the finale, rarity 3 and up or any bonus; otherwise rarity 4 and up,
/// or a bonus that hits both the character and the attribute axis.
pub open spec fn spec_ep_prefilter_keep(
    rarity: i32,
    bonus: EventBonusExact,
    has_char_bonus: bool,
    has_attr_bonus: bool,
    is_world_bloom: bool,
    is_final_chapter: bool,
) -> bool {
    let total = bonus.base_x10 + bonus.limited_x10;
    if is_world_bloom || is_final_chapter {
        rarity >= 3 || total > 0
    } else if rarity >= 4 {
        true
    } else {
        total > 0 && has_char_bonus && has_attr_bonus
    }
}

/// Whether the event-point prefilter keeps a card.
pub fn ep_prefilter_keep(
    rarity: i32,
    bonus: &EventBonusExact,
    has_char_bonus: bool,
    has_attr_bonus: bool,
    is_world_bloom: bool,
    is_final_chapter: bool,
) -> (r: bool)
    ensures
        r == spec_ep_prefilter_keep(rarity, *bonus, has_char_bonus, has_attr_bonus, is_world_bloom, is_final_chapter),
{
    if is_world_bloom || is_final_chapter {
        return rarity >= 3 || bonus.total_x10() > 0;
    }
    if rarity >= 4 {
        return true;
    }
    bonus.total_x10() > 0 && has_char_bonus && has_attr_bonus
}

/// The prefilter with the request's fixed cards and characters always kept.
pub open spec fn spec_ep_prefilter_keep_with_params(
    game_card_id: i32,
    character_id: i32,
    rarity: i32,
    bonus: EventBonusExact,
    has_char_bonus: bool,
    has_attr_bonus: bool,
    params: BuildParams,
    is_world_bloom: bool,
    is_final_chapter: bool,
) -> bool {
    params.fixed_cards@.contains(game_card_id) || params.fixed_characters@.contains(character_id)
        || spec_ep_prefilter_keep(rarity, bonus, has_char_bonus, has_attr_bonus, is_world_bloom, is_final_chapter)
}

/// The prefilter with the request's fixed cards and characters always kept.
pub fn ep_prefilter_keep_with_params(
    game_card_id: i32,
    character_id: i32,
    rarity: i32,
    bonus: &EventBonusExact,
    has_char_bonus: bool,
    has_attr_bonus: bool,
    params: &BuildParams,
    is_world_bloom: bool,
    is_final_chapter: bool,
) -> (r: bool)
    ensures
        r == spec_ep_prefilter_keep_with_params(
            game_card_id,
            character_id,
            rarity,
            *bonus,
            has_char_bonus,
            has_attr_bonus,
            *params,
            is_world_bloom,
            is_final_chapter,
        ),
{
    if contains_i32(params.fixed_cards.as_slice(), game_card_id)
        || contains_i32(params.fixed_characters.as_slice(), character_id) {
        return true;
    }
    ep_prefilter_keep(rarity, bonus, has_char_bonus, has_attr_bonus, is_world_bloom, is_final_chapter)
}

// ---------------------------------------------------------------------------
// Boost and skill states.

/// Event-point multiplier (percent) of a number of boost fires: 100 for
/// none, 500 per fire up to five, then 200 more per fire up to ten, and 100
/// for anything out of range.
pub open spec fn spec_boost_rate_pct(boost: Option<i32>) -> u32 {
    match boost {
        Some(v) => if v <= 0 {
            100
        } else if v <= 5 {
            (v * 500) as u32
        } else if v <= 10 {
            (2500 + (v - 5) * 200) as u32
        } else {
            100
        },
        None => 100,
    }
}

/// Event-point multiplier (percent) of a number of boost fires.
pub fn normalize_boost_rate_pct(boost: Option<i32>) -> (r: u32)
    ensures
        r == spec_boost_rate_pct(boost),
{
    match boost {
        Some(v) => {
            if v <= 0 {
                100
            } else if v <= 5 {
                (v * 500) as u32
            } else if v <= 10 {
                (2500 + (v - 5) * 200) as u32
            } else {
                100
            }
        },
        None => 100,
    }
}

/// The training states whose skill a card enters the pool with, and how
/// many of the two are used: the card's own state when the request keeps
/// it, both states for a card with a distinct trained skill, else the
/// state its art shows.
pub open spec fn spec_skill_states(
    image: DefaultImage,
    after_training: bool,
    master: MasterCard,
    params: BuildParams,
) -> ([SkillState; 2], usize) {
    if params.keep_after_training_state {
        if image == DefaultImage::SpecialTraining {
            ([SkillState::AfterTraining, SkillState::AfterTraining], 1)
        } else {
            ([SkillState::BeforeTraining, SkillState::BeforeTraining], 1)
        }
    } else if master.special_training_skill_id is Some {
        ([SkillState::AfterTraining, SkillState::BeforeTraining], 2)
    } else if image == DefaultImage::SpecialTraining || after_training {
        ([SkillState::AfterTraining, SkillState::AfterTraining], 1)
    } else {
        ([SkillState::BeforeTraining, SkillState::BeforeTraining], 1)
    }
}

/// The training states whose skill a card enters the pool with.
pub fn skill_states_for_card(
    image: DefaultImage,
    after_training: bool,
    master: &MasterCard,
    params: &BuildParams,
) -> (r: ([SkillState; 2], usize))
    ensures
        r == spec_skill_states(image, after_training, *master, *params),
{
    if params.keep_after_training_state {
        if image == DefaultImage::SpecialTraining {
            ([SkillState::AfterTraining, SkillState::AfterTraining], 1)
        } else {
            ([SkillState::BeforeTraining, SkillState::BeforeTraining], 1)
        }
    } else if master.special_training_skill_id.is_some() {
        ([SkillState::AfterTraining, SkillState::BeforeTraining], 2)
    } else if image == DefaultImage::SpecialTraining || after_training {
        ([SkillState::AfterTraining, SkillState::AfterTraining], 1)
    } else {
        ([SkillState::BeforeTraining, SkillState::BeforeTraining], 1)
    }
}

/// Whether the two training states of a card carry different skills of
/// which one depends on the rest of the deck (so both stay in the pool).
pub open spec fn spec_is_bfes_pair(left: SkillResult, right: SkillResult) -> bool {
    left.full.skill_id != right.full.skill_id && (left.ref_skill is Some || right.ref_skill is Some
        || left.full.has_ref || right.full.has_ref || left.diff is Some || right.diff is Some
        || left.unit_count is Some || right.unit_count is Some)
}

/// Whether both training states of a card stay in the pool.
pub fn is_bfes_skill_pair(left: &SkillResult, right: &SkillResult) -> (r: bool)
    ensures
        r == spec_is_bfes_pair(*left, *right),
{
    left.full.skill_id != right.full.skill_id && (left.ref_skill.is_some() || right.ref_skill.is_some()
        || left.full.has_ref || right.full.has_ref || left.diff.is_some() || right.diff.is_some()
        || left.unit_count.is_some() || right.unit_count.is_some())
}

/// Drops the weaker of a card's two skill states unless both must stay;
/// returns whether both stay (the state then decides the card's art). Of
/// two equal skills the before-training one (the second) stays.
pub fn collapse_non_bfes_skill_states(
    states: &mut Vec<Option<(SkillState, SkillResult)>>,
    state_count: usize,
) -> (both: bool)
    requires
        old(states)@.len() == 2,
    ensures
        final(states)@.len() == 2,
        both == (state_count == 2 && old(states)@[0] is Some && old(states)@[1] is Some
            && spec_is_bfes_pair(old(states)@[0].unwrap().1, old(states)@[1].unwrap().1)),
        (state_count == 2 && old(states)@[0] is Some && old(states)@[1] is Some && !both) ==> (
            if old(states)@[0].unwrap().1.skill_max > old(states)@[1].unwrap().1.skill_max {
                final(states)@ == old(states)@.update(1, None)
            } else {
                final(states)@ == old(states)@.update(0, None)
            }),
        !(state_count == 2 && old(states)@[0] is Some && old(states)@[1] is Some && !both)
            ==> final(states)@ == old(states)@,
{
    if state_count != 2 {
        return false;
    }
    let first = match states[0] {
        Some(s) => s.1,
        None => return false,
    };
    let second = match states[1] {
        Some(s) => s.1,
        None => return false,
    };
    let both = is_bfes_skill_pair(&first, &second);
    if !both {
        if first.skill_max > second.skill_max {
            states.set(1, None);
        } else {
            states.set(0, None);
        }
    }
    both
}

// ---------------------------------------------------------------------------
// Per-character trims.

/// Character bucket of a card (ids above 26 share the last bucket).
pub open spec fn bucket(c: CardIntermediate) -> int {
    if c.character_id > 26 { 26 } else { c.character_id as int }
}

fn bucket_of(c: &CardIntermediate) -> (r: usize)
    ensures
        r == bucket(*c),
        r < 27,
{
    if c.character_id > 26 { 26 } else { c.character_id as usize }
}

/// Whether a trim always keeps a card: a fixed card, or (with
/// `with_characters`) a card of a fixed character.
pub open spec fn trim_exempt(c: CardIntermediate, params: BuildParams, with_characters: bool) -> bool {
    params.fixed_cards@.contains(c.game_card_id) || (with_characters && params.fixed_characters@.contains(
        c.character_id as i32,
    ))
}

fn trim_exempt_exec(c: &CardIntermediate, params: &BuildParams, with_characters: bool) -> (r: bool)
    ensures
        r == trim_exempt(*c, *params, with_characters),
{
    contains_i32(params.fixed_cards.as_slice(), c.game_card_id) || (with_characters && contains_i32(
        params.fixed_characters.as_slice(),
        c.character_id as i32,
    ))
}

/// How many non-exempt cards of bucket `ch` come before position `upto`.
pub open spec fn bucket_count_before(
    s: Seq<CardIntermediate>,
    upto: int,
    ch: int,
    params: BuildParams,
    with_characters: bool,
) -> nat
    decreases upto,
{
    if upto <= 0 {
        0
    } else {
        bucket_count_before(s, upto - 1, ch, params, with_characters) + if !trim_exempt(
            s[upto - 1],
            params,
            with_characters,
        ) && bucket(s[upto - 1]) == ch {
            1nat
        } else {
            0nat
        }
    }
}

/// Which cards of a sorted list a keep-the-first-per-character pass drops:
/// a non-exempt card with `keep` or more earlier non-exempt cards of its
/// bucket.
pub open spec fn first_per_bucket_drops(
    s: Seq<CardIntermediate>,
    params: BuildParams,
    with_characters: bool,
    keep: int,
) -> Seq<bool> {
    Seq::new(
        s.len(),
        |k: int|
            !trim_exempt(s[k], params, with_characters) && bucket_count_before(
                s,
                k,
                bucket(s[k]),
                params,
                with_characters,
            ) >= keep,
    )
}

fn first_per_bucket(cards: &mut Vec<CardIntermediate>, params: &BuildParams, with_characters: bool, keep: usize)
    ensures
        final(cards)@ == keep_unmarked(
            old(cards)@,
            first_per_bucket_drops(old(cards)@, *params, with_characters, keep as int),
        ),
{
    let ghost s = cards@;
    let n = cards.len();
    let mut counts: Vec<usize> = Vec::new();
    let mut c: usize = 0;
    while c < 27
        invariant
            c <= 27,
            counts@.len() == c,
            forall|k: int| 0 <= k < c ==> #[trigger] counts@[k] == 0,
        decreases 27 - c,
    {
        counts.push(0);
        c = c + 1;
    }
    let mut drop: Vec<bool> = Vec::new();
    let mut k: usize = 0;
    while k < n
        invariant
            k <= n,
            n == s.len(),
            cards@ == s,
            counts@.len() == 27,
            forall|ch: int| 0 <= ch < 27 ==> #[trigger] counts@[ch] == bucket_count_before(s, k as int, ch, *params, with_characters),
            drop@ == first_per_bucket_drops(s, *params, with_characters, keep as int).subrange(0, k as int),
            forall|ch: int| 0 <= ch < 27 ==> counts@[ch] <= k,
        decreases n - k,
    {
        let ex = trim_exempt_exec(&cards[k], params, with_characters);
        let ch = bucket_of(&cards[k]);
        let d = !ex && counts[ch] >= keep;
        drop.push(d);
        if !ex {
            let v = counts[ch];
            counts.set(ch, v + 1);
        }
        proof {
            assert forall|b: int| 0 <= b < 27 implies #[trigger] counts@[b] == bucket_count_before(
                s,
                k + 1,
                b,
                *params,
                with_characters,
            ) by {
            }
            assert(drop@ =~= first_per_bucket_drops(s, *params, with_characters, keep as int).subrange(0, k + 1));
        }
        k = k + 1;
    }
    assert(drop@ =~= first_per_bucket_drops(s, *params, with_characters, keep as int));
    drop_marked(cards, &drop);
}

/// Sort keys of the general trim: strongest (power × (256 + skill)) first.
pub open spec fn general_keys(s: Seq<CardIntermediate>) -> Seq<Seq<i64>> {
    Seq::new(s.len(), |k: int| seq![(-power_rank(s[k])) as i64])
}

/// The elements of a list in a given order.
pub open spec fn in_order<T>(s: Seq<T>, ord: Seq<usize>) -> Seq<T> {
    Seq::new(ord.len(), |k: int| s[ord[k] as int])
}

fn sort_cards(cards: &mut Vec<CardIntermediate>, keys: &Vec<Vec<i64>>) -> (ord: Vec<usize>)
    requires
        keys@.len() == old(cards)@.len(),
        uniform_keys(key_views(keys@)),
    ensures
        is_order(ord@, old(cards)@.len() as int),
        sorted_by_keys(ord@, key_views(keys@)),
        final(cards)@ == in_order(old(cards)@, ord@),
{
    let ord = stable_order(keys);
    let mut taken: Vec<CardIntermediate> = Vec::new();
    std::mem::swap(cards, &mut taken);
    let sorted = permute(taken, &ord);
    *cards = sorted;
    assert(cards@ =~= in_order(old(cards)@, ord@));
    ord
}

/// Keeps, per character bucket, the `per_char_keep` strongest cards
/// (power × (256 + skill)), and every fixed card; the kept cards come out
/// strongest first (a stable order).
pub fn general_per_character_trim(cards: &mut Vec<CardIntermediate>, params: &BuildParams, per_char_keep: usize)
    ensures
        exists|ord: Seq<usize>|
            is_order(ord, old(cards)@.len() as int) && sorted_by_keys(ord, general_keys(old(cards)@))
                && final(cards)@ == keep_unmarked(
                in_order(old(cards)@, ord),
                first_per_bucket_drops(in_order(old(cards)@, ord), *params, false, per_char_keep as int),
            ),
{
    let ghost s = cards@;
    let mut keys: Vec<Vec<i64>> = Vec::new();
    let mut i: usize = 0;
    while i < cards.len()
        invariant
            i <= cards@.len(),
            cards@ == s,
            key_views(keys@) == general_keys(s).subrange(0, i as int),
        decreases cards@.len() - i,
    {
        let r = power_rank_exec(&cards[i]);
        let mut key: Vec<i64> = Vec::new();
        key.push(-r);
        assert(key@ =~= seq![(-power_rank(s[i as int])) as i64]);
        let ghost prev = keys@;
        keys.push(key);
        assert(key_views(keys@) =~= key_views(prev).push(key@));
        assert(key_views(keys@) =~= general_keys(s).subrange(0, i + 1));
        i = i + 1;
    }
    assert(key_views(keys@) =~= general_keys(s));
    assert(uniform_keys(key_views(keys@)));
    let ord = sort_cards(cards, &keys);
    first_per_bucket(cards, params, false, per_char_keep);
}

/// The primary key of the power/skill trim: power for the power target,
/// skill for the skill target, power × (256 + skill) otherwise.
pub open spec fn target_primary(c: CardIntermediate, target: ScoreTarget) -> int {
    match target {
        ScoreTarget::Power => if c.power.power_max < 0 { 0 } else { c.power.power_max as int },
        ScoreTarget::Skill => c.skill.skill_max as int,
        _ => power_rank(c),
    }
}

/// Sort keys of the power/skill trim: strongest first (weakest first when
/// minimising power), then by rarity the same way, then by card id.
pub open spec fn target_keys(s: Seq<CardIntermediate>, params: BuildParams) -> Seq<Seq<i64>> {
    let minimize = params.minimize && params.target == ScoreTarget::Power;
    Seq::new(
        s.len(),
        |k: int|
            if minimize {
                seq![target_primary(s[k], params.target) as i64, s[k].card_rarity_type as i64, s[k].game_card_id as i64]
            } else {
                seq![
                    (-target_primary(s[k], params.target)) as i64,
                    (-s[k].card_rarity_type) as i64,
                    s[k].game_card_id as i64,
                ]
            },
    )
}

/// Keeps, per character bucket, the ten best cards for the power or skill
/// target (the ten weakest when minimising power), and every card of a
/// fixed card or character; the kept cards come out in that order.
pub fn target_per_character_trim(cards: &mut Vec<CardIntermediate>, params: &BuildParams)
    ensures
        exists|ord: Seq<usize>|
            is_order(ord, old(cards)@.len() as int) && sorted_by_keys(ord, target_keys(old(cards)@, *params))
                && final(cards)@ == keep_unmarked(
                in_order(old(cards)@, ord),
                first_per_bucket_drops(in_order(old(cards)@, ord), *params, true, GENERAL_PER_CHAR_KEEP as int),
            ),
{
    let ghost s = cards@;
    let minimize = params.minimize && params.target == ScoreTarget::Power;
    let mut keys: Vec<Vec<i64>> = Vec::new();
    let mut i: usize = 0;
    while i < cards.len()
        invariant
            i <= cards@.len(),
            cards@ == s,
            minimize == (params.minimize && params.target == ScoreTarget::Power),
            key_views(keys@) == target_keys(s, *params).subrange(0, i as int),
        decreases cards@.len() - i,
    {
        let c = &cards[i];
        let primary: i64 = match params.target {
            ScoreTarget::Power => if c.power.power_max < 0 { 0 } else { c.power.power_max as i64 },
            ScoreTarget::Skill => c.skill.skill_max as i64,
            _ => power_rank_exec(c),
        };
        let mut key: Vec<i64> = Vec::new();
        if minimize {
            key.push(primary);
            key.push(c.card_rarity_type as i64);
        } else {
            key.push(-primary);
            key.push(-(c.card_rarity_type as i64));
        }
        key.push(c.game_card_id as i64);
        assert(key@ =~= target_keys(s, *params)[i as int]);
        let ghost prev = keys@;
        keys.push(key);
        assert(key_views(keys@) =~= key_views(prev).push(key@));
        assert(key_views(keys@) =~= target_keys(s, *params).subrange(0, i + 1));
        i = i + 1;
    }
    assert(key_views(keys@) =~= target_keys(s, *params));
    assert(uniform_keys(key_views(keys@)));
    let ord = sort_cards(cards, &keys);
    first_per_bucket(cards, params, true, GENERAL_PER_CHAR_KEEP);
}

/// Whether the bonus trim always keeps a card: fixed, of a fixed character,
/// or with a bonus of 30% or more.
pub open spec fn pc_exempt(c: CardIntermediate, params: BuildParams) -> bool {
    params.fixed_cards@.contains(c.game_card_id) || params.fixed_characters@.contains(c.character_id as i32)
        || c.event_bonus.base_x10 + c.event_bonus.limited_x10 >= 300
}

/// Bonus used by the bonus trim: a rarity-4 card without bonus counts as a
/// tenth of a percent, above every card without bonus of lower rarity.
pub open spec fn effective_bonus(c: CardIntermediate) -> int {
    let total = c.event_bonus.base_x10 + c.event_bonus.limited_x10;
    if total == 0 && c.card_rarity_type >= 4 { 1 } else { total }
}

/// Sort keys of the bonus trim: bonus, then rarity, then power × (256 +
/// skill), each highest first.
pub open spec fn pc_keys(s: Seq<CardIntermediate>) -> Seq<Seq<i64>> {
    Seq::new(
        s.len(),
        |k: int|
            seq![(-effective_bonus(s[k])) as i64, (-s[k].card_rarity_type) as i64, (-power_rank(s[k])) as i64],
    )
}

/// How many non-exempt cards of `i`'s bucket among the first `upto` come
/// before it in the bonus trim's order.
pub open spec fn pc_rank(s: Seq<CardIntermediate>, params: BuildParams, i: int, upto: int) -> nat
    decreases upto,
{
    if upto <= 0 {
        0
    } else {
        let j = upto - 1;
        pc_rank(s, params, i, upto - 1) + if !pc_exempt(s[j], params) && bucket(s[j]) == bucket(s[i])
            && key_before(pc_keys(s), j, i) {
            1nat
        } else {
            0nat
        }
    }
}

/// Sort keys of the power ranking: power (negative read as 0), then
/// rarity, highest first, then card id, lowest first.
pub open spec fn pw_keys(s: Seq<CardIntermediate>) -> Seq<Seq<i64>> {
    Seq::new(
        s.len(),
        |k: int|
            seq![
                (-(if s[k].power.power_max < 0 { 0int } else { s[k].power.power_max as int })) as i64,
                (-s[k].card_rarity_type) as i64,
                s[k].game_card_id as i64,
            ],
    )
}

/// How many non-exempt cards of `i`'s bucket among the first `upto` come
/// before it in the power ranking.
pub open spec fn pw_rank(s: Seq<CardIntermediate>, params: BuildParams, i: int, upto: int) -> nat
    decreases upto,
{
    if upto <= 0 {
        0
    } else {
        let j = upto - 1;
        pw_rank(s, params, i, upto - 1) + if !pc_exempt(s[j], params) && bucket(s[j]) == bucket(s[i])
            && key_before(pw_keys(s), j, i) {
            1nat
        } else {
            0nat
        }
    }
}

/// Which cards the bonus trim drops: a non-exempt card with `keep` or more
/// better non-exempt cards of its bucket, unless it is among the
/// `power_keep` most powerful non-exempt cards of its bucket.
pub open spec fn pc_drops(s: Seq<CardIntermediate>, params: BuildParams, keep: int, power_keep: int) -> Seq<bool> {
    Seq::new(
        s.len(),
        |i: int|
            !pc_exempt(s[i], params) && pc_rank(s, params, i, s.len() as int) >= keep
                && pw_rank(s, params, i, s.len() as int) >= power_keep,
    )
}

fn pc_exempt_exec(c: &CardIntermediate, params: &BuildParams) -> (r: bool)
    ensures
        r == pc_exempt(*c, *params),
{
    contains_i32(params.fixed_cards.as_slice(), c.game_card_id) || contains_i32(
        params.fixed_characters.as_slice(),
        c.character_id as i32,
    ) || c.event_bonus.total_x10() >= 300
}

/// Keeps, per character bucket, the `per_char_keep` cards with the best
/// bonus (then rarity, then power × (256 + skill); equal cards in list
/// order), besides them the `power_keep` most powerful cards (then rarity,
/// then lowest card id), and every exempt card (see [`pc_exempt`]); the
/// list keeps its order. Lists of at most fifty cards are left alone.
#[verifier::loop_isolation(false)]
pub fn per_character_trim(cards: &mut Vec<CardIntermediate>, params: &BuildParams, per_char_keep: usize, power_keep: usize)
    requires
        per_char_keep <= FINAL_CHAPTER_PER_CHAR_KEEP,
    ensures
        old(cards)@.len() <= EP_PREFILTER_MIN_POOL ==> final(cards)@ == old(cards)@,
        old(cards)@.len() > EP_PREFILTER_MIN_POOL ==> final(cards)@ == keep_unmarked(
            old(cards)@,
            pc_drops(old(cards)@, *params, per_char_keep as int, power_keep as int),
        ),
{
    let n = cards.len();
    if n <= EP_PREFILTER_MIN_POOL {
        return;
    }
    let ghost s = cards@;
    let ghost kv = pc_keys(s);
    let ghost pv = pw_keys(s);
    let mut keys: Vec<Vec<i64>> = Vec::new();
    let mut pkeys: Vec<Vec<i64>> = Vec::new();
    let mut exempt: Vec<bool> = Vec::new();
    let mut buckets: Vec<usize> = Vec::new();
    let mut i: usize = 0;
    while i < n
        invariant
            i <= n,
            n == s.len(),
            cards@ == s,
            key_views(keys@) == kv.subrange(0, i as int),
            key_views(pkeys@) == pv.subrange(0, i as int),
            exempt@.len() == i,
            buckets@.len() == i,
            forall|k: int| 0 <= k < i ==> #[trigger] exempt@[k] == pc_exempt(s[k], *params),
            forall|k: int| 0 <= k < i ==> #[trigger] buckets@[k] == bucket(s[k]),
        decreases n - i,
    {
        let c = &cards[i];
        let t = c.event_bonus.total_x10() as i64;
        let eff: i64 = if t == 0 && c.card_rarity_type >= 4 { 1 } else { t };
        let r = power_rank_exec(c);
        let mut key: Vec<i64> = Vec::new();
        key.push(-eff);
        key.push(-(c.card_rarity_type as i64));
        key.push(-r);
        assert(key@ =~= kv[i as int]);
        let ghost prev = keys@;
        keys.push(key);
        assert(key_views(keys@) =~= key_views(prev).push(key@));
        assert(key_views(keys@) =~= kv.subrange(0, i + 1));
        let pw: i64 = if c.power.power_max < 0 { 0 } else { c.power.power_max as i64 };
        let mut pkey: Vec<i64> = Vec::new();
        pkey.push(-pw);
        pkey.push(-(c.card_rarity_type as i64));
        pkey.push(c.game_card_id as i64);
        assert(pkey@ =~= pv[i as int]);
        let ghost pprev = pkeys@;
        pkeys.push(pkey);
        assert(key_views(pkeys@) =~= key_views(pprev).push(pkey@));
        assert(key_views(pkeys@) =~= pv.subrange(0, i + 1));
        exempt.push(pc_exempt_exec(c, params));
        buckets.push(bucket_of(c));
        i = i + 1;
    }
    assert(key_views(keys@) =~= kv);
    assert(key_views(pkeys@) =~= pv);
    let mut drop: Vec<bool> = Vec::new();
    let mut a: usize = 0;
    while a < n
        invariant
            a <= n,
            drop@ == pc_drops(s, *params, per_char_keep as int, power_keep as int).subrange(0, a as int),
        decreases n - a,
    {
        let mut rank: usize = 0;
        let mut prank: usize = 0;
        let mut b: usize = 0;
        while b < n
            invariant
                b <= n,
                a < n,
                rank == pc_rank(s, *params, a as int, b as int),
                prank == pw_rank(s, *params, a as int, b as int),
                rank <= b,
                prank <= b,
            decreases n - b,
        {
            if !exempt[b] && buckets[b] == buckets[a] {
                let before = lex_less_keys(&keys[b], &keys[a], b, a);
                if before {
                    rank = rank + 1;
                }
                let pbefore = lex_less_keys(&pkeys[b], &pkeys[a], b, a);
                if pbefore {
                    prank = prank + 1;
                }
            }
            b = b + 1;
        }
        drop.push(!exempt[a] && rank >= per_char_keep && prank >= power_keep);
        assert(drop@ =~= pc_drops(s, *params, per_char_keep as int, power_keep as int).subrange(0, a + 1));
        a = a + 1;
    }
    assert(drop@ =~= pc_drops(s, *params, per_char_keep as int, power_keep as int));
    drop_marked(cards, &drop);
}

fn lex_less_keys(x: &Vec<i64>, y: &Vec<i64>, ix: usize, iy: usize) -> (r: bool)
    ensures
        r == (lex_lt(x@, y@) || (x@ == y@ && ix < iy)),
{
    let n = x.len();
    if n != y.len() {
        return lex_less_generic(x, y) || false;
    }
    let mut k: usize = 0;
    while k < n
        invariant
            k <= n,
            n == x@.len(),
            n == y@.len(),
            forall|j: int| 0 <= j < k ==> x@[j] == y@[j],
        decreases n - k,
    {
        if x[k] != y[k] {
            proof {
                lemma_lex_at(x@, y@, k as int);
            }
            return x[k] < y[k];
        }
        k = k + 1;
    }
    assert(x@ =~= y@);
    proof {
        lemma_lex_irrefl_local(x@);
    }
    ix < iy
}

fn lex_less_generic(x: &Vec<i64>, y: &Vec<i64>) -> (r: bool)
    requires
        x@.len() != y@.len(),
    ensures
        r == (lex_lt(x@, y@) || (x@ == y@ && false)),
{
    let n = if x.len() < y.len() { x.len() } else { y.len() };
    let mut k: usize = 0;
    while k < n
        invariant
            k <= n,
            n <= x@.len(),
            n <= y@.len(),
            n == x@.len() || n == y@.len(),
            forall|j: int| 0 <= j < k ==> x@[j] == y@[j],
        decreases n - k,
    {
        if x[k] != y[k] {
            proof {
                lemma_lex_at(x@, y@, k as int);
            }
            return x[k] < y[k];
        }
        k = k + 1;
    }
    proof {
        lemma_lex_prefix(x@, y@, n as int);
    }
    false
}

proof fn lemma_lex_at(x: Seq<i64>, y: Seq<i64>, k: int)
    requires
        0 <= k < x.len(),
        k < y.len(),
        forall|j: int| 0 <= j < k ==> x[j] == y[j],
        x[k] != y[k],
    ensures
        lex_lt(x, y) == (x[k] < y[k]),
    decreases k,
{
    if k > 0 {
        lemma_lex_at(x.drop_first(), y.drop_first(), k - 1);
    }
}

proof fn lemma_lex_prefix(x: Seq<i64>, y: Seq<i64>, n: int)
    requires
        0 <= n <= x.len(),
        n <= y.len(),
        n == x.len() || n == y.len(),
        forall|j: int| 0 <= j < n ==> x[j] == y[j],
    ensures
        !lex_lt(x, y),
    decreases n,
{
    if n > 0 {
        lemma_lex_prefix(x.drop_first(), y.drop_first(), n - 1);
    }
}

proof fn lemma_lex_irrefl_local(a: Seq<i64>)
    ensures
        !lex_lt(a, a),
    decreases a.len(),
{
    if a.len() > 0 {
        lemma_lex_irrefl_local(a.drop_first());
    }
}

// ---------------------------------------------------------------------------
// Fixed slots.

/// Why fixed-slot constraints are refused.
#[derive(Clone, Copy, Debug, PartialEq, Eq, Structural)]
pub enum FixedIssue {
    ChallengeFixedCharacters,
    TooMany,
    CardIdInvalid,
    CardRepeated,
    CardAbsent,
    CardCharacterRepeated,
    CharacterInvalid,
    CharacterRepeated,
    CharacterAbsent,
    LeaderNoSlot,
    LeaderAbsent,
}

/// Character of the first candidate with a card id.
pub open spec fn first_char_of(full: Seq<CardIntermediate>, id: i32) -> Option<u8>
    decreases full.len(),
{
    if full.len() == 0 {
        None
    } else if full[0].game_card_id == id {
        Some(full[0].character_id)
    } else {
        first_char_of(full.drop_first(), id)
    }
}

/// Whether some candidate is of a character.
pub open spec fn has_character(full: Seq<CardIntermediate>, ch: u8) -> bool {
    exists|k: int| 0 <= k < full.len() && (#[trigger] full[k]).character_id == ch
}

/// Whether a character is the character of one of the first `upto` fixed cards.
pub open spec fn fixed_card_char_before(p: BuildParams, full: Seq<CardIntermediate>, upto: int, ch: u8) -> bool {
    exists|k: int| 0 <= k < upto && first_char_of(full, #[trigger] p.fixed_cards@[k]) == Some(ch)
}

/// The issue of the `i`-th fixed card, given that the earlier ones passed.
pub open spec fn card_issue_at(p: BuildParams, full: Seq<CardIntermediate>, i: int) -> Option<FixedIssue> {
    let id = p.fixed_cards@[i];
    if !(1 <= id <= 65535) {
        Some(FixedIssue::CardIdInvalid)
    } else if p.fixed_cards@.subrange(0, i).contains(id) {
        Some(FixedIssue::CardRepeated)
    } else {
        match first_char_of(full, id) {
            None => Some(FixedIssue::CardAbsent),
            Some(c) => if fixed_card_char_before(p, full, i, c) {
                Some(FixedIssue::CardCharacterRepeated)
            } else {
                None
            },
        }
    }
}

/// The first issue among the fixed cards from position `i` on.
pub open spec fn card_issue_from(p: BuildParams, full: Seq<CardIntermediate>, i: int) -> Option<FixedIssue>
    decreases p.fixed_cards@.len() - i,
{
    if i < 0 || i >= p.fixed_cards@.len() {
        None
    } else if card_issue_at(p, full, i) is Some {
        card_issue_at(p, full, i)
    } else {
        card_issue_from(p, full, i + 1)
    }
}

/// The issue of the `i`-th fixed character, given that everything before
/// passed.
pub open spec fn char_issue_at(p: BuildParams, full: Seq<CardIntermediate>, i: int) -> Option<FixedIssue> {
    let c = p.fixed_characters@[i];
    if !(1 <= c <= 26) {
        Some(FixedIssue::CharacterInvalid)
    } else if fixed_card_char_before(p, full, p.fixed_cards@.len() as int, c as u8)
        || p.fixed_characters@.subrange(0, i).contains(c) {
        Some(FixedIssue::CharacterRepeated)
    } else if !has_character(full, c as u8) {
        Some(FixedIssue::CharacterAbsent)
    } else {
        None
    }
}

/// The first issue among the fixed characters from position `i` on.
pub open spec fn char_issue_from(p: BuildParams, full: Seq<CardIntermediate>, i: int) -> Option<FixedIssue>
    decreases p.fixed_characters@.len() - i,
{
    if i < 0 || i >= p.fixed_characters@.len() {
        None
    } else if char_issue_at(p, full, i) is Some {
        char_issue_at(p, full, i)
    } else {
        char_issue_from(p, full, i + 1)
    }
}

/// Whether a live is a challenge live.
pub open spec fn is_challenge_live(t: LiveType) -> bool {
    t == LiveType::Challenge || t == LiveType::ChallengeAuto
}

/// The forced leader character that needs a slot of its own: one outside
/// challenge lives whose character no fixed card or character covers yet.
pub open spec fn leader_needs_slot(p: BuildParams, full: Seq<CardIntermediate>) -> Option<u8> {
    match p.forced_leader_character_id {
        Some(c) => if is_challenge_live(p.live_type) || !(1 <= c <= 26) {
            None
        } else if fixed_card_char_before(p, full, p.fixed_cards@.len() as int, c as u8)
            || p.fixed_characters@.contains(c) {
            None
        } else {
            Some(c as u8)
        },
        None => None,
    }
}

/// The first reason the fixed-slot constraints are refused.
pub open spec fn fixed_issue(p: BuildParams, full: Seq<CardIntermediate>) -> Option<FixedIssue> {
    if is_challenge_live(p.live_type) && p.fixed_characters@.len() > 0 {
        Some(FixedIssue::ChallengeFixedCharacters)
    } else if p.fixed_cards@.len() + p.fixed_characters@.len() > DECK_SIZE {
        Some(FixedIssue::TooMany)
    } else if card_issue_from(p, full, 0) is Some {
        card_issue_from(p, full, 0)
    } else if char_issue_from(p, full, 0) is Some {
        char_issue_from(p, full, 0)
    } else {
        match leader_needs_slot(p, full) {
            Some(c) => if p.fixed_cards@.len() + p.fixed_characters@.len() + 1 > DECK_SIZE {
                Some(FixedIssue::LeaderNoSlot)
            } else if !has_character(full, c) {
                Some(FixedIssue::LeaderAbsent)
            } else {
                None
            },
            None => None,
        }
    }
}

/// The error reported for an issue: absent cards and characters leave the
/// pool without a valid deck, the rest are refused parameters.
pub open spec fn fixed_issue_error(issue: FixedIssue, e: BuildError) -> bool {
    if issue == FixedIssue::CardAbsent || issue == FixedIssue::CharacterAbsent || issue == FixedIssue::LeaderAbsent {
        e == BuildError::EmptyPool
    } else {
        e is InvalidConfig
    }
}

fn first_char_of_exec(full: &[CardIntermediate], id: i32) -> (r: Option<u8>)
    ensures
        r == first_char_of(full@, id),
{
    let mut i: usize = 0;
    assert(full@.subrange(0, full@.len() as int) =~= full@);
    while i < full.len()
        invariant
            i <= full@.len(),
            first_char_of(full@, id) == first_char_of(full@.subrange(i as int, full@.len() as int), id),
        decreases full@.len() - i,
    {
        assert(full@.subrange(i as int, full@.len() as int)[0] == full@[i as int]);
        assert(full@.subrange(i as int, full@.len() as int).drop_first() =~= full@.subrange(i + 1, full@.len() as int));
        if full[i].game_card_id == id {
            return Some(full[i].character_id);
        }
        i = i + 1;
    }
    None
}

fn has_character_exec(full: &[CardIntermediate], ch: u8) -> (r: bool)
    ensures
        r == has_character(full@, ch),
{
    let mut i: usize = 0;
    while i < full.len()
        invariant
            i <= full@.len(),
            forall|k: int| 0 <= k < i ==> (#[trigger] full@[k]).character_id != ch,
        decreases full@.len() - i,
    {
        if full[i].character_id == ch {
            assert(full@[i as int].character_id == ch);
            return true;
        }
        i = i + 1;
    }
    false
}

/// An error message that ends with an id.
fn message_with_id(prefix: &str, id: i32) -> (r: String)
    ensures
        r@.subrange(0, prefix@.len() as int) == prefix@,
{
    let digits = id.to_string();
    prefix.to_owned().concat(digits.as_str())
}

/// Checks the fixed cards, fixed characters and forced leader against the
/// candidates; returns the fixed card ids and the fixed characters (the
/// forced leader's character last when it needs a slot of its own).
#[verifier::loop_isolation(false)]
pub fn validate_fixed_constraints(params: &BuildParams, full: &[CardIntermediate]) -> (r: Result<(Vec<u16>, Vec<u8>), BuildError>)
    ensures
        fixed_issue(*params, full@) matches Some(issue) ==> (r matches Err(e) && fixed_issue_error(issue, e)),
        fixed_issue(*params, full@) is None ==> (r matches Ok((cards, chars)) && cards@ == Seq::new(
            params.fixed_cards@.len(),
            |k: int| params.fixed_cards@[k] as u16,
        ) && chars@ == (match leader_needs_slot(*params, full@) {
            Some(c) => Seq::new(params.fixed_characters@.len(), |k: int| params.fixed_characters@[k] as u8).push(c),
            None => Seq::new(params.fixed_characters@.len(), |k: int| params.fixed_characters@[k] as u8),
        })),
{
    let challenge = params.live_type == LiveType::Challenge || params.live_type == LiveType::ChallengeAuto;
    if challenge && params.fixed_characters.len() > 0 {
        return Err(BuildError::InvalidConfig("challenge live 不支持 fixed_characters".to_owned()));
    }
    if params.fixed_cards.len() > DECK_SIZE || params.fixed_characters.len() > DECK_SIZE - params.fixed_cards.len() {
        return Err(BuildError::InvalidConfig("固定约束数量超过 5".to_owned()));
    }
    let fc = &params.fixed_cards;
    let mut card_ids: Vec<u16> = Vec::new();
    let mut card_chars: Vec<u8> = Vec::new();
    let mut i: usize = 0;
    while i < fc.len()
        invariant
            i <= fc@.len(),
            fc@.len() <= DECK_SIZE,
            card_issue_from(*params, full@, 0) == card_issue_from(*params, full@, i as int),
            card_ids@ == Seq::new(i as nat, |k: int| fc@[k] as u16),
            card_chars@.len() == i,
            forall|k: int| 0 <= k < i ==> first_char_of(full@, fc@[k]) == Some(#[trigger] card_chars@[k]),
        decreases fc@.len() - i,
    {
        let id = fc[i];
        if !(1 <= id && id <= 65535) {
            return Err(BuildError::InvalidConfig(message_with_id("fixed card id 非法: ", id)));
        }
        let mut j: usize = 0;
        while j < i
            invariant
                j <= i,
                forall|k: int| 0 <= k < j ==> fc@[k] != id,
            decreases i - j,
        {
            if fc[j] == id {
                assert(fc@.subrange(0, i as int)[j as int] == id);
                return Err(BuildError::InvalidConfig(message_with_id("fixed card 重复: ", id)));
            }
            j = j + 1;
        }
        assert(!fc@.subrange(0, i as int).contains(id)) by {
            if fc@.subrange(0, i as int).contains(id) {
                let k = choose|k: int| 0 <= k < i && fc@.subrange(0, i as int)[k] == id;
                assert(fc@[k] == id);
            }
        }
        let ch = match first_char_of_exec(full, id) {
            Some(c) => c,
            None => return Err(BuildError::EmptyPool),
        };
        let mut j2: usize = 0;
        while j2 < i
            invariant
                j2 <= i,
                forall|k: int| 0 <= k < j2 ==> card_chars@[k] != ch,
            decreases i - j2,
        {
            if card_chars[j2] == ch {
                assert(first_char_of(full@, fc@[j2 as int]) == Some(ch));
                assert(fixed_card_char_before(*params, full@, i as int, ch));
                return Err(BuildError::InvalidConfig(message_with_id("fixed card 角色重复: ", ch as i32)));
            }
            j2 = j2 + 1;
        }
        assert(!fixed_card_char_before(*params, full@, i as int, ch)) by {
            if fixed_card_char_before(*params, full@, i as int, ch) {
                let k = choose|k: int| 0 <= k < i && first_char_of(full@, #[trigger] params.fixed_cards@[k]) == Some(ch);
                assert(card_chars@[k] == ch);
            }
        }
        card_ids.push(id as u16);
        card_chars.push(ch);
        assert(card_ids@ =~= Seq::new((i + 1) as nat, |k: int| fc@[k] as u16));
        i = i + 1;
    }
    assert(card_issue_from(*params, full@, 0) is None);
    let fch = &params.fixed_characters;
    let mut chars: Vec<u8> = Vec::new();
    let mut i2: usize = 0;
    while i2 < fch.len()
        invariant
            i2 <= fch@.len(),
            char_issue_from(*params, full@, 0) == char_issue_from(*params, full@, i2 as int),
            chars@ == Seq::new(i2 as nat, |k: int| fch@[k] as u8),
        decreases fch@.len() - i2,
    {
        let c = fch[i2];
        if !(1 <= c && c <= 26) {
            return Err(BuildError::InvalidConfig(message_with_id("fixed character id 非法: ", c)));
        }
        let cu = c as u8;
        let mut j: usize = 0;
        while j < card_chars.len()
            invariant
                j <= card_chars@.len(),
                forall|k: int| 0 <= k < j ==> card_chars@[k] != cu,
            decreases card_chars@.len() - j,
        {
            if card_chars[j] == cu {
                assert(first_char_of(full@, fc@[j as int]) == Some(cu));
                assert(fixed_card_char_before(*params, full@, fc@.len() as int, cu));
                return Err(BuildError::InvalidConfig(message_with_id("fixed character 角色重复: ", c)));
            }
            j = j + 1;
        }
        let mut j3: usize = 0;
        while j3 < i2
            invariant
                j3 <= i2,
                forall|k: int| 0 <= k < j3 ==> fch@[k] != c,
            decreases i2 - j3,
        {
            if fch[j3] == c {
                assert(fch@.subrange(0, i2 as int)[j3 as int] == c);
                return Err(BuildError::InvalidConfig(message_with_id("fixed character 角色重复: ", c)));
            }
            j3 = j3 + 1;
        }
        assert(!fixed_card_char_before(*params, full@, fc@.len() as int, cu)) by {
            if fixed_card_char_before(*params, full@, fc@.len() as int, cu) {
                let k = choose|k: int| 0 <= k < fc@.len() && first_char_of(full@, #[trigger] params.fixed_cards@[k]) == Some(cu);
                assert(card_chars@[k] == cu);
            }
        }
        assert(!fch@.subrange(0, i2 as int).contains(c)) by {
            if fch@.subrange(0, i2 as int).contains(c) {
                let k = choose|k: int| 0 <= k < i2 && fch@.subrange(0, i2 as int)[k] == c;
                assert(fch@[k] == c);
            }
        }
        if !has_character_exec(full, cu) {
            return Err(BuildError::EmptyPool);
        }
        chars.push(cu);
        assert(chars@ =~= Seq::new((i2 + 1) as nat, |k: int| fch@[k] as u8));
        i2 = i2 + 1;
    }
    assert(char_issue_from(*params, full@, 0) is None);
    if let Some(c) = params.forced_leader_character_id {
        if !challenge && 1 <= c && c <= 26 {
            let cu = c as u8;
            let mut covered = false;
            let mut j: usize = 0;
            while j < card_chars.len()
                invariant
                    j <= card_chars@.len(),
                    covered == exists|k: int| 0 <= k < j && card_chars@[k] == cu,
                decreases card_chars@.len() - j,
            {
                if card_chars[j] == cu {
                    covered = true;
                }
                j = j + 1;
            }
            assert(covered == fixed_card_char_before(*params, full@, fc@.len() as int, cu)) by {
                if covered {
                    let k = choose|k: int| 0 <= k < card_chars@.len() && card_chars@[k] == cu;
                    assert(first_char_of(full@, params.fixed_cards@[k]) == Some(cu));
                }
                if fixed_card_char_before(*params, full@, fc@.len() as int, cu) {
                    let k = choose|k: int| 0 <= k < fc@.len() && first_char_of(full@, #[trigger] params.fixed_cards@[k]) == Some(cu);
                    assert(card_chars@[k] == cu);
                }
            }
            let in_chars = contains_i32(fch.as_slice(), c);
            if !covered && !in_chars {
                if fc.len() + fch.len() + 1 > DECK_SIZE {
                    return Err(BuildError::InvalidConfig("固定约束数量超过 5".to_owned()));
                }
                if !has_character_exec(full, cu) {
                    return Err(BuildError::EmptyPool);
                }
                chars.push(cu);
            }
        }
    }
    Ok((card_ids, chars))
}

} // verus!
