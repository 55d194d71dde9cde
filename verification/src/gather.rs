//! Sorting the candidates and packing them into the dense pool.

use vstd::prelude::*;
use crate::order::{is_order, key_views, sorted_by_keys, uniform_keys};
use crate::filter::in_order;
use crate::pool::{
    CardIntermediate, CardPool, DiffSkill, FullPrecisionCard, GatheredContext, PoolCard, RefSkill, SkillSlot,
    UnitCountSkill,
};
use crate::prune::{id_u16, power_rank, power_rank_exec};
use crate::types::{DefaultImage, LiveType, ScoreTarget};

verus! {

/// Position given to cards that fill no fixed slot.
pub const UNFIXED_RANK: i64 = 0x7fff_ffff_ffff_ffff;

/// Sort key of a card for the pool order (smaller first): skill for the
/// skill target; power for the power target and for other targets without
/// an event; with an event, bonus first; for the score target without an
/// event, power × (256 + skill) first. Ties go to the larger card id.
pub open spec fn base_key(c: CardIntermediate, target: ScoreTarget, has_event: bool) -> Seq<i64> {
    let id = (-c.game_card_id) as i64;
    let total = (-(c.event_bonus.base_x10 + c.event_bonus.limited_x10)) as i64;
    if target == ScoreTarget::Skill {
        seq![(-c.skill.skill_max) as i64, (-c.skill.skill_min) as i64, id]
    } else if target == ScoreTarget::Power {
        seq![(-c.power.power_max) as i64, (-c.power.power_min) as i64, id]
    } else if has_event {
        seq![total, (-power_rank(c)) as i64, (-c.power.power_max) as i64, (-c.skill.skill_max) as i64, id]
    } else if target == ScoreTarget::Score {
        seq![
            (-power_rank(c)) as i64,
            (-c.power.power_max) as i64,
            (-c.skill.skill_max) as i64,
            (-c.power.power_min) as i64,
            (-c.skill.skill_min) as i64,
            id,
        ]
    } else {
        seq![(-c.power.power_max) as i64, (-c.power.power_min) as i64, id]
    }
}

/// Position of the first occurrence of a value (the length when absent).
pub open spec fn first_index<T>(s: Seq<T>, x: T) -> int
    decreases s.len(),
{
    if s.len() == 0 {
        0
    } else if s[0] == x {
        0
    } else {
        1 + first_index(s.drop_first(), x)
    }
}

proof fn lemma_first_index<T>(s: Seq<T>, x: T, i: int)
    requires
        0 <= i < s.len(),
        s[i] == x,
        forall|j: int| 0 <= j < i ==> s[j] != x,
    ensures
        first_index(s, x) == i,
    decreases i,
{
    if i > 0 {
        assert forall|j: int| 0 <= j < i - 1 implies s.drop_first()[j] != x by {
            assert(s.drop_first()[j] == s[j + 1]);
        }
        lemma_first_index(s.drop_first(), x, i - 1);
    }
}

/// Fixed-slot position of a card: its fixed card's position, else its fixed
/// character's position after the fixed cards; [`UNFIXED_RANK`] otherwise.
pub open spec fn fixed_rank(c: CardIntermediate, cards: Seq<u16>, chars: Seq<u8>) -> (i64, bool) {
    if cards.contains(id_u16(c.game_card_id)) {
        (first_index(cards, id_u16(c.game_card_id)) as i64, true)
    } else if chars.contains(c.character_id) {
        ((cards.len() + first_index(chars, c.character_id)) as i64, false)
    } else {
        (UNFIXED_RANK, false)
    }
}

/// Full sort key: with fixed slots, fixed cards first by slot, the trained
/// state of a fixed card before its untrained one, then the base key.
pub open spec fn gather_key(c: CardIntermediate, target: ScoreTarget, has_event: bool, cards: Seq<u16>, chars: Seq<u8>) -> Seq<i64> {
    if cards.len() == 0 && chars.len() == 0 {
        base_key(c, target, has_event)
    } else {
        let (rank, by_card) = fixed_rank(c, cards, chars);
        let trained: i64 = if by_card && c.default_image != DefaultImage::SpecialTraining { 1 } else { 0 };
        seq![rank, trained] + base_key(c, target, has_event)
    }
}

/// Keys of a whole list.
pub open spec fn gather_keys(s: Seq<CardIntermediate>, target: ScoreTarget, has_event: bool, cards: Seq<u16>, chars: Seq<u8>) -> Seq<Seq<i64>> {
    Seq::new(s.len(), |k: int| gather_key(s[k], target, has_event, cards, chars))
}

fn position_u16(v: &Vec<u16>, x: u16) -> (r: Option<usize>)
    ensures
        match r {
            Some(k) => k < v@.len() && v@.contains(x) && k == first_index(v@, x),
            None => !v@.contains(x),
        },
{
    let mut i: usize = 0;
    while i < v.len()
        invariant
            i <= v@.len(),
            forall|k: int| 0 <= k < i ==> v@[k] != x,
        decreases v@.len() - i,
    {
        if v[i] == x {
            proof {
                assert(v@[i as int] == x);
                assert(v@.contains(x));
                lemma_first_index(v@, x, i as int);
            }
            return Some(i);
        }
        i = i + 1;
    }
    None
}

fn position_u8(v: &Vec<u8>, x: u8) -> (r: Option<usize>)
    ensures
        match r {
            Some(k) => k < v@.len() && v@.contains(x) && k == first_index(v@, x),
            None => !v@.contains(x),
        },
{
    let mut i: usize = 0;
    while i < v.len()
        invariant
            i <= v@.len(),
            forall|k: int| 0 <= k < i ==> v@[k] != x,
        decreases v@.len() - i,
    {
        if v[i] == x {
            proof {
                assert(v@[i as int] == x);
                assert(v@.contains(x));
                lemma_first_index(v@, x, i as int);
            }
            return Some(i);
        }
        i = i + 1;
    }
    None
}

fn clamp_id(id: i32) -> (r: u16)
    ensures
        r == id_u16(id),
{
    if id < 0 {
        0
    } else if id > 65535 {
        65535
    } else {
        id as u16
    }
}

fn gather_key_exec(
    c: &CardIntermediate,
    target: ScoreTarget,
    has_event: bool,
    cards: &Vec<u16>,
    chars: &Vec<u8>,
) -> (r: Vec<i64>)
    requires
        cards@.len() + chars@.len() < UNFIXED_RANK,
    ensures
        r@ == gather_key(*c, target, has_event, cards@, chars@),
{
    let id = -(c.game_card_id as i64);
    let total = -(c.event_bonus.total_x10() as i64);
    let mut key: Vec<i64> = Vec::new();
    if cards.len() > 0 || chars.len() > 0 {
        let (rank, by_card): (i64, bool) = match position_u16(cards, clamp_id(c.game_card_id)) {
            Some(k) => (k as i64, true),
            None => match position_u8(chars, c.character_id) {
                Some(k) => ((cards.len() as u64 + k as u64) as i64, false),
                None => (UNFIXED_RANK, false),
            },
        };
        key.push(rank);
        key.push(if by_card && c.default_image != DefaultImage::SpecialTraining { 1 } else { 0 });
    }
    let ghost prefix = key@;
    if target == ScoreTarget::Skill {
        key.push(-(c.skill.skill_max as i64));
        key.push(-(c.skill.skill_min as i64));
        key.push(id);
    } else if target == ScoreTarget::Power {
        key.push(-(c.power.power_max as i64));
        key.push(-(c.power.power_min as i64));
        key.push(id);
    } else if has_event {
        key.push(total);
        key.push(-power_rank_exec(c));
        key.push(-(c.power.power_max as i64));
        key.push(-(c.skill.skill_max as i64));
        key.push(id);
    } else if target == ScoreTarget::Score {
        key.push(-power_rank_exec(c));
        key.push(-(c.power.power_max as i64));
        key.push(-(c.skill.skill_max as i64));
        key.push(-(c.power.power_min as i64));
        key.push(-(c.skill.skill_min as i64));
        key.push(id);
    } else {
        key.push(-(c.power.power_max as i64));
        key.push(-(c.power.power_min as i64));
        key.push(id);
    }
    assert(key@ =~= prefix + base_key(*c, target, has_event));
    assert(key@ =~= gather_key(*c, target, has_event, cards@, chars@));
    key
}

/// The pool entry of a card with its skill slot.
pub open spec fn pool_card_of(c: CardIntermediate, slot: SkillSlot) -> PoolCard {
    PoolCard {
        game_id: id_u16(c.game_card_id),
        character_id: c.character_id,
        attr: c.attr,
        unit_mask: c.unit_mask_raw,
        power_max: if c.power.power_max < 0 { 0 } else { c.power.power_max as u32 },
        skill: slot,
        skill_min: c.skill.skill_min,
        skill_max: c.skill.skill_max,
        event_bonus: c.event_bonus,
    }
}

/// How many of the first `n` cards carry a side-table skill of a kind
/// (1 group count, 2 distinct groups, 3 reference).
pub open spec fn side_count(s: Seq<CardIntermediate>, n: int, kind: int) -> nat
    decreases n,
{
    if n <= 0 {
        0
    } else {
        side_count(s, n - 1, kind) + if side_kind(s[n - 1]) == kind { 1nat } else { 0nat }
    }
}

/// Side-table kind of a card's skill (0 for none).
pub open spec fn side_kind(c: CardIntermediate) -> int {
    if c.skill.unit_count is Some {
        1
    } else if c.skill.diff is Some {
        2
    } else if c.skill.ref_skill is Some {
        3
    } else {
        0
    }
}

/// The skill slot of the `k`-th sorted card: a side-table skill points at
/// its one-based entry (saturating at 255), a plain skill keeps its slot.
pub open spec fn slot_at(s: Seq<CardIntermediate>, k: int) -> SkillSlot {
    let kind = side_kind(s[k]);
    if kind == 0 {
        s[k].skill.slot
    } else {
        let n = side_count(s, k + 1, kind);
        SkillSlot { skill_type: kind as u8, value: if n > 255 { 255u8 } else { n as u8 } }
    }
}

/// The group-count skills of the first `n` cards, in order.
pub open spec fn unit_entries(s: Seq<CardIntermediate>, n: int) -> Seq<UnitCountSkill>
    decreases n,
{
    if n <= 0 {
        Seq::empty()
    } else {
        let prev = unit_entries(s, n - 1);
        match s[n - 1].skill.unit_count {
            Some(u) => prev.push(u),
            None => prev,
        }
    }
}

/// The distinct-group skills of the first `n` cards (those without a
/// group-count skill), in order.
pub open spec fn diff_entries(s: Seq<CardIntermediate>, n: int) -> Seq<DiffSkill>
    decreases n,
{
    if n <= 0 {
        Seq::empty()
    } else {
        let prev = diff_entries(s, n - 1);
        match (s[n - 1].skill.unit_count, s[n - 1].skill.diff) {
            (None, Some(d)) => prev.push(d),
            _ => prev,
        }
    }
}

/// The reference skills of the first `n` cards (those with neither of the
/// other side-table skills), in order.
pub open spec fn ref_entries(s: Seq<CardIntermediate>, n: int) -> Seq<RefSkill>
    decreases n,
{
    if n <= 0 {
        Seq::empty()
    } else {
        let prev = ref_entries(s, n - 1);
        match (s[n - 1].skill.unit_count, s[n - 1].skill.diff, s[n - 1].skill.ref_skill) {
            (None, None, Some(r)) => prev.push(r),
            _ => prev,
        }
    }
}

/// The dense pool of a sorted list: one entry per card, and the side-table
/// skills in card order.
pub open spec fn pool_of(s: Seq<CardIntermediate>, pool: CardPool) -> bool {
    &&& pool.cards@.len() == s.len()
    &&& forall|k: int| 0 <= k < s.len() ==> #[trigger] pool.cards@[k] == pool_card_of(s[k], slot_at(s, k))
    &&& pool.unit_count_skills@.len() == side_count(s, s.len() as int, 1)
    &&& pool.diff_skills@.len() == side_count(s, s.len() as int, 2)
    &&& pool.ref_skills@.len() == side_count(s, s.len() as int, 3)
    &&& pool.unit_count_skills@ == unit_entries(s, s.len() as int)
    &&& pool.diff_skills@ == diff_entries(s, s.len() as int)
    &&& pool.ref_skills@ == ref_entries(s, s.len() as int)
}

/// The display row of a pooled card.
pub open spec fn full_of(c: CardIntermediate) -> FullPrecisionCard {
    FullPrecisionCard {
        game_card_id: id_u16(c.game_card_id),
        card_rarity_type: c.card_rarity_type,
        character_id: c.character_id,
        attr: c.attr,
        unit_mask_raw: c.unit_mask_raw,
        default_image: c.default_image,
        after_training: c.after_training,
        skill_state_controls_image: c.skill_state_controls_image,
        master_rank: c.master_rank,
        skill_level: c.skill_level,
        skill: c.skill.full,
        event_bonus: c.event_bonus,
        power_min_exact: c.power.power_min,
        power_max_exact: c.power.power_max,
        skill_min_exact: c.skill.skill_min,
        skill_max_exact: c.skill.skill_max,
        leader_honor_bonus: c.leader_honor_bonus,
        leader_limit_bonus: c.leader_limit_bonus,
    }
}

/// The per-card columns of a sorted list.
pub open spec fn gathered_of(s: Seq<CardIntermediate>, g: GatheredContext) -> bool {
    &&& g.skill_max@ == Seq::new(s.len(), |k: int| s[k].skill.skill_max)
    &&& g.leader_honor_bonus@ == Seq::new(s.len(), |k: int| s[k].leader_honor_bonus)
    &&& g.leader_limit_bonus@ == Seq::new(s.len(), |k: int| s[k].leader_limit_bonus)
    &&& g.skill_is_after_training@ == Seq::new(s.len(), |k: int| s[k].skill.full.is_after_training)
    &&& g.trained_to_special_image@ == Seq::new(s.len(), |k: int| s[k].default_image == DefaultImage::SpecialTraining)
}

/// Sorts the candidates into pool order and packs them: the dense pool,
/// the display rows (when asked for) and the per-card search columns.
#[verifier::loop_isolation(false)]
pub fn sort_and_gather(
    cards: Vec<CardIntermediate>,
    target: ScoreTarget,
    has_event: bool,
    effective_live_type: LiveType,
    fixed_card_ids: &Vec<u16>,
    fixed_character_ids: &Vec<u8>,
    include_details: bool,
) -> (r: (CardPool, Vec<FullPrecisionCard>, GatheredContext))
    requires
        fixed_card_ids@.len() + fixed_character_ids@.len() < UNFIXED_RANK,
    ensures
        exists|ord: Seq<usize>|
            is_order(ord, cards@.len() as int) && sorted_by_keys(
                ord,
                gather_keys(cards@, target, has_event, fixed_card_ids@, fixed_character_ids@),
            ) && pool_of(in_order(cards@, ord), r.0) && gathered_of(in_order(cards@, ord), r.2)
                && r.1@ == (if include_details {
                Seq::new(cards@.len(), |k: int| full_of(in_order(cards@, ord)[k]))
            } else {
                Seq::empty()
            }),
{
    let ghost orig = cards@;
    let n = cards.len();
    let mut keys: Vec<Vec<i64>> = Vec::new();
    let mut i: usize = 0;
    while i < n
        invariant
            i <= n,
            n == orig.len(),
            key_views(keys@) == gather_keys(orig, target, has_event, fixed_card_ids@, fixed_character_ids@).subrange(0, i as int),
        decreases n - i,
    {
        let key = gather_key_exec(&cards[i], target, has_event, fixed_card_ids, fixed_character_ids);
        let ghost prev = keys@;
        keys.push(key);
        assert(key_views(keys@) =~= key_views(prev).push(key@));
        assert(key_views(keys@) =~= gather_keys(orig, target, has_event, fixed_card_ids@, fixed_character_ids@).subrange(0, i + 1));
        i = i + 1;
    }
    let ghost kv = gather_keys(orig, target, has_event, fixed_card_ids@, fixed_character_ids@);
    assert(key_views(keys@) =~= kv);
    assert(uniform_keys(kv));
    let ord = crate::order::stable_order(&keys);
    let sorted = crate::order::permute(cards, &ord);
    let ghost s = in_order(orig, ord@);
    assert(sorted@ =~= s);
    let mut pool_cards: Vec<PoolCard> = Vec::new();
    let mut unit_skills: Vec<UnitCountSkill> = Vec::new();
    let mut diff_skills: Vec<DiffSkill> = Vec::new();
    let mut ref_skills: Vec<RefSkill> = Vec::new();
    let mut full: Vec<FullPrecisionCard> = Vec::new();
    let mut skill_max: Vec<u8> = Vec::new();
    let mut honor: Vec<u16> = Vec::new();
    let mut limit: Vec<u16> = Vec::new();
    let mut after: Vec<bool> = Vec::new();
    let mut special: Vec<bool> = Vec::new();
    let mut k: usize = 0;
    while k < n
        invariant
            k <= n,
            sorted@ == s,
            s.len() == n,
            pool_cards@.len() == k,
            forall|j: int| 0 <= j < k ==> #[trigger] pool_cards@[j] == pool_card_of(s[j], slot_at(s, j)),
            unit_skills@.len() == side_count(s, k as int, 1),
            diff_skills@.len() == side_count(s, k as int, 2),
            ref_skills@.len() == side_count(s, k as int, 3),
            unit_skills@ == unit_entries(s, k as int),
            diff_skills@ == diff_entries(s, k as int),
            ref_skills@ == ref_entries(s, k as int),
            full@ == (if include_details { Seq::new(k as nat, |j: int| full_of(s[j])) } else { Seq::empty() }),
            skill_max@ == Seq::new(k as nat, |j: int| s[j].skill.skill_max),
            honor@ == Seq::new(k as nat, |j: int| s[j].leader_honor_bonus),
            limit@ == Seq::new(k as nat, |j: int| s[j].leader_limit_bonus),
            after@ == Seq::new(k as nat, |j: int| s[j].skill.full.is_after_training),
            special@ == Seq::new(k as nat, |j: int| s[j].default_image == DefaultImage::SpecialTraining),
        decreases n - k,
    {
        let c = &sorted[k];
        let mut slot = c.skill.slot;
        if let Some(u) = c.skill.unit_count {
            unit_skills.push(u);
            let cnt = unit_skills.len();
            slot = SkillSlot { skill_type: 1, value: if cnt > 255 { 255 } else { cnt as u8 } };
        } else if let Some(d) = c.skill.diff {
            diff_skills.push(d);
            let cnt = diff_skills.len();
            slot = SkillSlot { skill_type: 2, value: if cnt > 255 { 255 } else { cnt as u8 } };
        } else if let Some(rf) = c.skill.ref_skill {
            ref_skills.push(rf);
            let cnt = ref_skills.len();
            slot = SkillSlot { skill_type: 3, value: if cnt > 255 { 255 } else { cnt as u8 } };
        }
        assert(slot == slot_at(s, k as int));
        pool_cards.push(PoolCard {
            game_id: clamp_id(c.game_card_id),
            character_id: c.character_id,
            attr: c.attr,
            unit_mask: c.unit_mask_raw,
            power_max: if c.power.power_max < 0 { 0 } else { c.power.power_max as u32 },
            skill: slot,
            skill_min: c.skill.skill_min,
            skill_max: c.skill.skill_max,
            event_bonus: c.event_bonus,
        });
        if include_details {
            full.push(FullPrecisionCard {
                game_card_id: clamp_id(c.game_card_id),
                card_rarity_type: c.card_rarity_type,
                character_id: c.character_id,
                attr: c.attr,
                unit_mask_raw: c.unit_mask_raw,
                default_image: c.default_image,
                after_training: c.after_training,
                skill_state_controls_image: c.skill_state_controls_image,
                master_rank: c.master_rank,
                skill_level: c.skill_level,
                skill: c.skill.full,
                event_bonus: c.event_bonus,
                power_min_exact: c.power.power_min,
                power_max_exact: c.power.power_max,
                skill_min_exact: c.skill.skill_min,
                skill_max_exact: c.skill.skill_max,
                leader_honor_bonus: c.leader_honor_bonus,
                leader_limit_bonus: c.leader_limit_bonus,
            });
        }
        skill_max.push(c.skill.skill_max);
        honor.push(c.leader_honor_bonus);
        limit.push(c.leader_limit_bonus);
        after.push(c.skill.full.is_after_training);
        special.push(c.default_image == DefaultImage::SpecialTraining);
        proof {
            if include_details {
                assert(full@ =~= Seq::new((k + 1) as nat, |j: int| full_of(s[j])));
            }
            assert(skill_max@ =~= Seq::new((k + 1) as nat, |j: int| s[j].skill.skill_max));
            assert(honor@ =~= Seq::new((k + 1) as nat, |j: int| s[j].leader_honor_bonus));
            assert(limit@ =~= Seq::new((k + 1) as nat, |j: int| s[j].leader_limit_bonus));
            assert(after@ =~= Seq::new((k + 1) as nat, |j: int| s[j].skill.full.is_after_training));
            assert(special@ =~= Seq::new((k + 1) as nat, |j: int| s[j].default_image == DefaultImage::SpecialTraining));
        }
        k = k + 1;
    }
    let pool = CardPool { cards: pool_cards, unit_count_skills: unit_skills, diff_skills, ref_skills };
    let g = GatheredContext {
        skill_max,
        leader_honor_bonus: honor,
        leader_limit_bonus: limit,
        skill_is_after_training: after,
        trained_to_special_image: special,
    };
    assert(pool_of(s, pool));
    assert(gathered_of(s, g));
    (pool, full, g)
}

} // verus!
