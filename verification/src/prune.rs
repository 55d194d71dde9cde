//! Dominance pruning of candidates that do not fit the pool.
//!
//! A card may be dropped only when another card of the same character and
//! the same attribute dominates it: putting the dominator in its place keeps
//! the characters of the deck distinct, keeps the number of distinct
//! attributes, and makes no power, skill or bonus figure worse, so no deck
//! score goes down. Nothing else is dropped, and the weakest droppable cards
//! go first.

use vstd::prelude::*;
use crate::data::BuildParams;
use crate::pool::{CardIntermediate, PowerResult, SkillResult, SupportDeck};
use crate::order::keep_unmarked;
use crate::types::{contains_i32, DECK_SIZE};

verus! {

// ---------------------------------------------------------------------------
// Support dimension.

/// Support-deck bonuses per leader character (hundredths of a percent) and
/// the bonus of the card that at worst replaces a support card drafted into
/// the deck.
pub struct SupportBonusTable {
    /// Counted support cards, by leader character (27 rows).
    pub cards: Vec<Vec<(u16, u32)>>,
    /// Bonus of the card in position `count + 4` of each row's deck.
    pub floor_x100: Vec<i32>,
}

/// A bonus in hundredths of a percent as an `i32`, saturating.
pub open spec fn bonus_i32(v: u32) -> int {
    if v > i32::MAX {
        i32::MAX as int
    } else {
        v as int
    }
}

/// The support deck used for a leader character: its own when it counts
/// any card, else the fallback.
pub open spec fn deck_for(decks: Seq<SupportDeck>, fallback: SupportDeck, ch: int) -> SupportDeck {
    if 0 <= ch < decks.len() && decks[ch].count > 0 {
        decks[ch]
    } else {
        fallback
    }
}

/// How many of a deck's cards count.
pub open spec fn counted(d: SupportDeck) -> int {
    if (d.count as int) < d.cards@.len() {
        d.count as int
    } else {
        d.cards@.len() as int
    }
}

/// Bonus of the card in position `count + 4` of a deck (0 when absent).
pub open spec fn deck_floor(d: SupportDeck) -> int {
    if d.count == 0 {
        0
    } else if d.count + DECK_SIZE - 1 < d.cards@.len() {
        bonus_i32(d.cards@[d.count + DECK_SIZE - 1].1)
    } else {
        0
    }
}

/// Support bonus of a card among counted cards: the last nonzero entry.
pub open spec fn bonus_in(cards: Seq<(u16, u32)>, game_id: u16) -> int
    decreases cards.len(),
{
    if cards.len() == 0 {
        0
    } else if cards.last().0 == game_id && cards.last().1 != 0 {
        bonus_i32(cards.last().1)
    } else {
        bonus_in(cards.drop_last(), game_id)
    }
}

/// Whether any counted support card has a bonus.
pub open spec fn any_support(decks: Seq<SupportDeck>, fallback: SupportDeck) -> bool {
    exists|ch: int, k: int|
        0 <= ch < 27 && 0 <= k < counted(deck_for(decks, fallback, ch))
            && (#[trigger] deck_for(decks, fallback, ch).cards@[k]).1 != 0
}

/// Well-formedness of a support table.
pub open spec fn table_wf(t: SupportBonusTable) -> bool {
    t.cards@.len() == 27 && t.floor_x100@.len() == 27
}

/// Support bonus of a card when `ch` leads.
pub open spec fn table_bonus(t: SupportBonusTable, game_id: u16, ch: int) -> int {
    bonus_in(t.cards@[ch]@, game_id)
}

/// Worst loss (over leaders `0..n`) of putting `lhs` in place of `rhs`.
pub open spec fn deficit_upto(t: SupportBonusTable, lhs: u16, rhs: u16, n: int) -> int
    decreases n,
{
    if n <= 0 {
        0
    } else {
        let prev = deficit_upto(t, lhs, rhs, n - 1);
        let rb = table_bonus(t, rhs, n - 1);
        let floor = if rb > t.floor_x100@[n - 1] { rb } else { t.floor_x100@[n - 1] as int };
        let term = table_bonus(t, lhs, n - 1) - floor;
        if term > prev { term } else { prev }
    }
}

/// How much more support bonus is lost at worst when `lhs` takes the place
/// of `rhs` in a deck (non-negative).
pub open spec fn spec_deficit(t: SupportBonusTable, lhs: u16, rhs: u16) -> int {
    deficit_upto(t, lhs, rhs, 27)
}

fn bonus_of(cards: &Vec<(u16, u32)>, game_id: u16) -> (r: i64)
    ensures
        r == bonus_in(cards@, game_id),
{
    let mut i = cards.len();
    assert(cards@.subrange(0, cards@.len() as int) =~= cards@);
    while i > 0
        invariant
            i <= cards@.len(),
            bonus_in(cards@, game_id) == bonus_in(cards@.subrange(0, i as int), game_id),
        decreases i,
    {
        let ghost pre = cards@.subrange(0, i as int);
        assert(pre.drop_last() =~= cards@.subrange(0, i - 1));
        let (id, value) = cards[i - 1];
        if id == game_id && value != 0 {
            return if value > 2147483647 { 2147483647 } else { value as i64 };
        }
        i = i - 1;
    }
    0
}

impl SupportBonusTable {
    /// Builds the table from the per-leader support decks; `None` when no
    /// counted support card has a bonus.
    #[verifier::spinoff_prover]
    pub fn build(decks_by_character: &[SupportDeck], fallback: &SupportDeck) -> (r: Option<Self>)
        ensures
            r is Some <==> any_support(decks_by_character@, *fallback),
            r matches Some(t) ==> table_wf(t) && forall|ch: int|
                0 <= ch < 27 ==> (#[trigger] t.cards@[ch])@ == deck_for(decks_by_character@, *fallback, ch).cards@.subrange(
                    0,
                    counted(deck_for(decks_by_character@, *fallback, ch)),
                ) && t.floor_x100@[ch] == deck_floor(deck_for(decks_by_character@, *fallback, ch)),
    {
        let mut rows: Vec<Vec<(u16, u32)>> = Vec::new();
        let mut floors: Vec<i32> = Vec::new();
        let mut any = false;
        let mut ch: usize = 0;
        while ch < 27
            invariant
                ch <= 27,
                rows@.len() == ch,
                floors@.len() == ch,
                forall|c: int|
                    0 <= c < ch ==> (#[trigger] rows@[c])@ == deck_for(decks_by_character@, *fallback, c).cards@.subrange(
                        0,
                        counted(deck_for(decks_by_character@, *fallback, c)),
                    ) && floors@[c] == deck_floor(deck_for(decks_by_character@, *fallback, c)),
                any == exists|c: int, k: int|
                    0 <= c < ch && 0 <= k < counted(deck_for(decks_by_character@, *fallback, c))
                        && (#[trigger] deck_for(decks_by_character@, *fallback, c).cards@[k]).1 != 0,
            decreases 27 - ch,
        {
            let deck = if ch < decks_by_character.len() && decks_by_character[ch].count > 0 {
                &decks_by_character[ch]
            } else {
                fallback
            };
            assert(*deck == deck_for(decks_by_character@, *fallback, ch as int));
            let count = if (deck.count as usize) < deck.cards.len() {
                deck.count as usize
            } else {
                deck.cards.len()
            };
            let floor: i32 = if deck.count == 0 {
                0
            } else if (deck.count as usize) + DECK_SIZE - 1 < deck.cards.len() {
                let v = deck.cards[deck.count as usize + DECK_SIZE - 1].1;
                if v > 2147483647 { 2147483647 } else { v as i32 }
            } else {
                0
            };
            let mut row: Vec<(u16, u32)> = Vec::new();
            let mut k: usize = 0;
            let ghost any_before = any;
            while k < count
                invariant
                    k <= count,
                    count == counted(*deck),
                    count <= deck.cards@.len(),
                    row@ == deck.cards@.subrange(0, k as int),
                    any == (any_before || exists|j: int| 0 <= j < k && (#[trigger] deck.cards@[j]).1 != 0),
                decreases count - k,
            {
                let entry = deck.cards[k];
                row.push(entry);
                if entry.1 != 0 {
                    any = true;
                }
                k = k + 1;
            }
            proof {
                let d = deck_for(decks_by_character@, *fallback, ch as int);
                assert(d == *deck);
                if any && !any_before {
                    let j = choose|j: int| 0 <= j < count && (#[trigger] deck.cards@[j]).1 != 0;
                    assert(deck_for(decks_by_character@, *fallback, ch as int).cards@[j].1 != 0);
                }
                if any_before {
                    let (c, k0) = choose|c: int, k0: int|
                        0 <= c < ch && 0 <= k0 < counted(deck_for(decks_by_character@, *fallback, c))
                            && (#[trigger] deck_for(decks_by_character@, *fallback, c).cards@[k0]).1 != 0;
                    assert(deck_for(decks_by_character@, *fallback, c).cards@[k0].1 != 0);
                }
                if (exists|c: int, k0: int|
                    0 <= c < ch + 1 && 0 <= k0 < counted(deck_for(decks_by_character@, *fallback, c))
                        && (#[trigger] deck_for(decks_by_character@, *fallback, c).cards@[k0]).1 != 0) {
                    let (c, k0) = choose|c: int, k0: int|
                        0 <= c < ch + 1 && 0 <= k0 < counted(deck_for(decks_by_character@, *fallback, c))
                            && (#[trigger] deck_for(decks_by_character@, *fallback, c).cards@[k0]).1 != 0;
                    if c < ch {
                        assert(any_before);
                    } else {
                        assert(deck.cards@[k0].1 != 0);
                    }
                }
            }
            let ghost old_rows = rows@;
            let ghost old_floors = floors@;
            rows.push(row);
            floors.push(floor);
            proof {
                assert forall|c: int| 0 <= c < ch + 1 implies (#[trigger] rows@[c])@ == deck_for(
                    decks_by_character@,
                    *fallback,
                    c,
                ).cards@.subrange(0, counted(deck_for(decks_by_character@, *fallback, c)))
                    && floors@[c] == deck_floor(deck_for(decks_by_character@, *fallback, c)) by {
                    if c < ch {
                        assert(rows@[c] == old_rows[c]);
                        assert(floors@[c] == old_floors[c]);
                    } else {
                        assert(rows@[c] == row);
                    }
                }
            }
            ch = ch + 1;
        }
        if any {
            let t = SupportBonusTable { cards: rows, floor_x100: floors };
            assert(t.cards@ == rows@ && t.floor_x100@ == floors@);
            assert(table_wf(t));
            Some(t)
        } else {
            None
        }
    }

    /// How much more support bonus (hundredths of a percent, non-negative)
    /// is lost at worst when `lhs` takes the place of `rhs` in a deck.
    pub fn deficit_x100(&self, lhs: u16, rhs: u16) -> (r: i64)
        requires
            table_wf(*self),
        ensures
            r == spec_deficit(*self, lhs, rhs),
    {
        let mut worst: i64 = 0;
        let mut ch: usize = 0;
        while ch < 27
            invariant
                ch <= 27,
                table_wf(*self),
                worst == deficit_upto(*self, lhs, rhs, ch as int),
                0 <= worst <= i32::MAX,
            decreases 27 - ch,
        {
            let lb = bonus_of(&self.cards[ch], lhs);
            let rb = bonus_of(&self.cards[ch], rhs);
            let f = self.floor_x100[ch] as i64;
            let floor = if rb > f { rb } else { f };
            proof {
                lemma_bonus_in_range(self.cards@[ch as int]@, lhs);
                lemma_bonus_in_range(self.cards@[ch as int]@, rhs);
            }
            let term = lb - floor;
            if term > worst {
                worst = term;
            }
            ch = ch + 1;
        }
        worst
    }
}

proof fn lemma_bonus_in_range(cards: Seq<(u16, u32)>, game_id: u16)
    ensures
        0 <= bonus_in(cards, game_id) <= i32::MAX,
    decreases cards.len(),
{
    if cards.len() > 0 {
        lemma_bonus_in_range(cards.drop_last(), game_id);
    }
}

// ---------------------------------------------------------------------------
// Dominance.

/// Fixed cards and the cards of fixed characters are never dropped.
pub open spec fn spec_is_exempt(card: CardIntermediate, params: BuildParams) -> bool {
    params.fixed_cards@.contains(card.game_card_id) || params.fixed_characters@.contains(card.character_id as i32)
}

/// Whether a card is fixed by the request (never dropped).
pub fn is_exempt(card: &CardIntermediate, params: &BuildParams) -> (r: bool)
    ensures
        r == spec_is_exempt(*card, *params),
{
    contains_i32(params.fixed_cards.as_slice(), card.game_card_id)
        || contains_i32(params.fixed_characters.as_slice(), card.character_id as i32)
}

/// Whether two cards share character and attribute.
pub open spec fn same_bucket(a: CardIntermediate, b: CardIntermediate) -> bool {
    a.character_id == b.character_id && a.attr == b.attr
}

/// Area-item bonus of a power profile (0 outside the table).
pub open spec fn area_at(p: PowerResult, k: int) -> int {
    if 0 <= k < p.area_item_bonus@.len() {
        p.area_item_bonus@[k] as int
    } else {
        0
    }
}

/// Power of a card in profile `k` (group `k / 4`, member kind `k % 4`).
pub open spec fn profile_power(p: PowerResult, k: int) -> int {
    p.base + p.character_bonus + p.fixture_bonus + p.gate_bonus + area_at(p, k)
}

/// Whether one card's power is at least the other's in all 24 profiles.
pub open spec fn profiles_dominate(l: PowerResult, r: PowerResult) -> bool {
    forall|k: int| 0 <= k < 24 ==> #[trigger] profile_power(l, k) >= profile_power(r, k)
}

/// Whether one skill is of the same kind as the other and no worse in any
/// figure.
pub open spec fn spec_skill_dominates(l: SkillResult, r: SkillResult) -> bool {
    &&& l.slot.skill_type == r.slot.skill_type
    &&& l.skill_min >= r.skill_min && l.skill_max >= r.skill_max
    &&& match (l.unit_count, r.unit_count) {
        (Some(a), Some(b)) => a.unit == b.unit && forall|k: int| 0 <= k < 5 ==> #[trigger] a.score_up@[k] >= b.score_up@[k],
        (None, None) => true,
        _ => false,
    }
    &&& match (l.diff, r.diff) {
        (Some(a), Some(b)) => a.base >= b.base && a.increment >= b.increment,
        (None, None) => true,
        _ => false,
    }
    &&& match (l.ref_skill, r.ref_skill) {
        (Some(a), Some(b)) => a.rate >= b.rate && a.max >= b.max,
        (None, None) => true,
        _ => false,
    }
}

/// A card id clamped to 16 bits.
pub open spec fn id_u16(id: i32) -> u16 {
    if id < 0 {
        0
    } else if id > u16::MAX {
        u16::MAX
    } else {
        id as u16
    }
}

/// Whether `lhs` dominates `rhs`: it can play every group `rhs` can, has at
/// least its power in every profile and at least its power range, a skill of
/// the same kind that is no worse, no smaller bonuses, and, when support
/// decks count, a bonus surplus that pays for the support it may displace.
pub open spec fn spec_dominates(lhs: CardIntermediate, rhs: CardIntermediate, support: Option<&SupportBonusTable>) -> bool {
    &&& (rhs.unit_mask_raw & lhs.unit_mask_raw) == rhs.unit_mask_raw
    &&& profiles_dominate(lhs.power, rhs.power)
    &&& lhs.power.power_min >= rhs.power.power_min && lhs.power.power_max >= rhs.power.power_max
    &&& spec_skill_dominates(lhs.skill, rhs.skill)
    &&& lhs.event_bonus.base_x10 >= rhs.event_bonus.base_x10
    &&& lhs.event_bonus.limited_x10 >= rhs.event_bonus.limited_x10
    &&& lhs.leader_honor_bonus >= rhs.leader_honor_bonus
    &&& lhs.leader_limit_bonus >= rhs.leader_limit_bonus
    &&& match support {
        None => true,
        Some(t) => {
            let d = spec_deficit(*t, id_u16(lhs.game_card_id), id_u16(rhs.game_card_id));
            d <= 0 || d <= (lhs.event_bonus.base_x10 - rhs.event_bonus.base_x10) * 10
        },
    }
}

fn clamp_id(id: i32) -> (r: u16)
    ensures
        r == id_u16(id),
{
    if id < 0 {
        0
    } else if id > 65535 {
        65535
    } else {
        id as u16
    }
}

fn area_value(p: &PowerResult, k: usize) -> (r: i64)
    ensures
        r == area_at(*p, k as int),
{
    if k < p.area_item_bonus.len() {
        p.area_item_bonus[k] as i64
    } else {
        0
    }
}

fn profiles_dominate_exec(l: &PowerResult, r: &PowerResult) -> (b: bool)
    ensures
        b == profiles_dominate(*l, *r),
{
    let lc = l.base as i64 + l.character_bonus as i64 + l.fixture_bonus as i64 + l.gate_bonus as i64;
    let rc = r.base as i64 + r.character_bonus as i64 + r.fixture_bonus as i64 + r.gate_bonus as i64;
    let mut k: usize = 0;
    while k < 24
        invariant
            k <= 24,
            lc == l.base + l.character_bonus + l.fixture_bonus + l.gate_bonus,
            rc == r.base + r.character_bonus + r.fixture_bonus + r.gate_bonus,
            forall|j: int| 0 <= j < k ==> #[trigger] profile_power(*l, j) >= profile_power(*r, j),
        decreases 24 - k,
    {
        if lc + area_value(l, k) < rc + area_value(r, k) {
            assert(profile_power(*l, k as int) < profile_power(*r, k as int));
            return false;
        }
        k = k + 1;
    }
    true
}

/// Whether one skill is of the same kind as another and no worse.
#[verifier::loop_isolation(false)]
pub fn skill_dominates(lhs: &CardIntermediate, rhs: &CardIntermediate) -> (r: bool)
    ensures
        r == spec_skill_dominates(lhs.skill, rhs.skill),
{
    let l = &lhs.skill;
    let r = &rhs.skill;
    if l.slot.skill_type != r.slot.skill_type {
        return false;
    }
    if l.skill_min < r.skill_min || l.skill_max < r.skill_max {
        return false;
    }
    match (&l.unit_count, &r.unit_count) {
        (Some(a), Some(b)) => {
            if a.unit != b.unit {
                return false;
            }
            let mut k: usize = 0;
            while k < 5
                invariant
                    k <= 5,
                    forall|j: int| 0 <= j < k ==> #[trigger] a.score_up@[j] >= b.score_up@[j],
                decreases 5 - k,
            {
                if a.score_up[k] < b.score_up[k] {
                    assert(a.score_up@[k as int] < b.score_up@[k as int]);
                    return false;
                }
                k = k + 1;
            }
        },
        (None, None) => {},
        _ => {
            return false;
        },
    }
    match (&l.diff, &r.diff) {
        (Some(a), Some(b)) => {
            if a.base < b.base || a.increment < b.increment {
                return false;
            }
        },
        (None, None) => {},
        _ => {
            return false;
        },
    }
    match (&l.ref_skill, &r.ref_skill) {
        (Some(a), Some(b)) => {
            if a.rate < b.rate || a.max < b.max {
                return false;
            }
        },
        (None, None) => {},
        _ => {
            return false;
        },
    }
    true
}

/// Whether `lhs` dominates `rhs` (see [`spec_dominates`]).
pub fn dominates(lhs: &CardIntermediate, rhs: &CardIntermediate, support: Option<&SupportBonusTable>) -> (r: bool)
    requires
        support matches Some(t) ==> table_wf(*t),
    ensures
        r == spec_dominates(*lhs, *rhs, support),
{
    if (rhs.unit_mask_raw & lhs.unit_mask_raw) != rhs.unit_mask_raw {
        return false;
    }
    if !profiles_dominate_exec(&lhs.power, &rhs.power) {
        return false;
    }
    if lhs.power.power_min < rhs.power.power_min || lhs.power.power_max < rhs.power.power_max {
        return false;
    }
    if !skill_dominates(lhs, rhs) {
        return false;
    }
    if lhs.event_bonus.base_x10 < rhs.event_bonus.base_x10
        || lhs.event_bonus.limited_x10 < rhs.event_bonus.limited_x10 {
        return false;
    }
    if lhs.leader_honor_bonus < rhs.leader_honor_bonus || lhs.leader_limit_bonus < rhs.leader_limit_bonus {
        return false;
    }
    match support {
        None => true,
        Some(t) => {
            let d = t.deficit_x100(clamp_id(lhs.game_card_id), clamp_id(rhs.game_card_id));
            if d <= 0 {
                return true;
            }
            let surplus = lhs.event_bonus.base_x10 as i64 - rhs.event_bonus.base_x10 as i64;
            d <= surplus * 10
        },
    }
}

// ---------------------------------------------------------------------------
// Trimming.

/// Number of set flags.
pub open spec fn count_true(m: Seq<bool>) -> nat
    decreases m.len(),
{
    if m.len() == 0 {
        0
    } else {
        count_true(m.drop_last()) + if m.last() { 1nat } else { 0nat }
    }
}

/// Strength rank of a card: power times (256 + skill).
#[verifier::opaque]
pub open spec fn power_rank(c: CardIntermediate) -> int {
    (if c.power.power_max < 0 { 0 } else { c.power.power_max as int }) * (256 + c.skill.skill_max)
}

/// Whether card `a` (at index `ia`) goes before card `b` (at `ib`) when the
/// weakest are dropped first: smaller total bonus, then lower rarity, then
/// smaller strength rank, then larger card id, then earlier position.
pub open spec fn weaker_le(a: CardIntermediate, ia: int, b: CardIntermediate, ib: int) -> bool {
    let ta = a.event_bonus.base_x10 + a.event_bonus.limited_x10;
    let tb = b.event_bonus.base_x10 + b.event_bonus.limited_x10;
    if ta != tb {
        ta < tb
    } else if a.card_rarity_type != b.card_rarity_type {
        a.card_rarity_type < b.card_rarity_type
    } else if power_rank(a) != power_rank(b) {
        power_rank(a) < power_rank(b)
    } else if a.game_card_id != b.game_card_id {
        a.game_card_id > b.game_card_id
    } else {
        ia <= ib
    }
}

pub fn power_rank_exec(c: &CardIntermediate) -> (r: i64)
    ensures
        r == power_rank(*c),
        0 <= r <= 2147483647 * 511,
{
    reveal(power_rank);
    let p: i64 = if c.power.power_max < 0 { 0 } else { c.power.power_max as i64 };
    assert(0 <= p * (256 + c.skill.skill_max as i64) <= 2147483647 * 511) by (nonlinear_arith)
        requires
            0 <= p <= 2147483647,
            0 <= c.skill.skill_max <= 255,
    ;
    p * (256 + c.skill.skill_max as i64)
}

fn weaker_le_exec(a: &CardIntermediate, ia: usize, b: &CardIntermediate, ib: usize) -> (r: bool)
    ensures
        r == weaker_le(*a, ia as int, *b, ib as int),
{
    let ta = a.event_bonus.total_x10();
    let tb = b.event_bonus.total_x10();
    if ta != tb {
        return ta < tb;
    }
    if a.card_rarity_type != b.card_rarity_type {
        return a.card_rarity_type < b.card_rarity_type;
    }
    let pa = power_rank_exec(a);
    let pb = power_rank_exec(b);
    if pa != pb {
        return pa < pb;
    }
    if a.game_card_id != b.game_card_id {
        return a.game_card_id > b.game_card_id;
    }
    ia <= ib
}

/// Whether, in the pairwise pass, living card `a` removes card `b`: `b` is
/// another living, non-fixed card of `a`'s character and attribute that
/// `a` dominates.
pub open spec fn removes(
    c: Seq<CardIntermediate>,
    params: BuildParams,
    support: Option<&SupportBonusTable>,
    a: int,
    b: int,
    alive: Seq<bool>,
) -> bool {
    b != a && alive[b] && same_bucket(c[a], c[b]) && !spec_is_exempt(c[b], params) && spec_dominates(c[a], c[b], support)
}

/// Trim state: which cards are alive, and for each removed card the index
/// of the card that removed it.
pub open spec fn trim_start(n: nat) -> (Seq<bool>, Seq<usize>) {
    (Seq::new(n, |k: int| true), Seq::new(n, |k: int| 0usize))
}

/// Living card `a` visits the cards from index `k` on, removing those it
/// dominates.
pub open spec fn sweep(
    c: Seq<CardIntermediate>,
    params: BuildParams,
    support: Option<&SupportBonusTable>,
    a: int,
    k: int,
    st: (Seq<bool>, Seq<usize>),
) -> (Seq<bool>, Seq<usize>)
    decreases c.len() - k,
{
    if k < 0 || k >= c.len() {
        st
    } else {
        let next = if removes(c, params, support, a, k, st.0) {
            (st.0.update(k, false), st.1.update(k, a as usize))
        } else {
            st
        };
        sweep(c, params, support, a, k + 1, next)
    }
}

/// The pairwise pass from card `a` on: each card still alive at its turn
/// sweeps the list in index order.
pub open spec fn pairwise_from(
    c: Seq<CardIntermediate>,
    params: BuildParams,
    support: Option<&SupportBonusTable>,
    a: int,
    st: (Seq<bool>, Seq<usize>),
) -> (Seq<bool>, Seq<usize>)
    decreases c.len() - a,
{
    if a < 0 || a >= c.len() {
        st
    } else {
        let next = if st.0[a] { sweep(c, params, support, a, 0, st) } else { st };
        pairwise_from(c, params, support, a + 1, next)
    }
}

/// The first living card from index `o` on, other than `idx`, of `idx`'s
/// character and attribute that dominates it; the list's length if none.
pub open spec fn first_live_dominator(
    c: Seq<CardIntermediate>,
    support: Option<&SupportBonusTable>,
    idx: int,
    alive: Seq<bool>,
    o: int,
) -> int
    decreases c.len() - o,
{
    if o < 0 || o >= c.len() {
        c.len() as int
    } else if o != idx && alive[o] && same_bucket(c[o], c[idx]) && spec_dominates(c[o], c[idx], support) {
        o
    } else {
        first_live_dominator(c, support, idx, alive, o + 1)
    }
}

/// The recheck from card `idx` on, in index order: a removed card whose
/// remover was removed too takes the first living card that dominates it
/// as its remover, and is kept when there is none.
pub open spec fn recheck_from(
    c: Seq<CardIntermediate>,
    support: Option<&SupportBonusTable>,
    idx: int,
    st: (Seq<bool>, Seq<usize>),
) -> (Seq<bool>, Seq<usize>)
    decreases c.len() - idx,
{
    if idx < 0 || idx >= c.len() {
        st
    } else {
        let next = if !st.0[idx] && !st.0[st.1[idx] as int] {
            let f = first_live_dominator(c, support, idx, st.0, 0);
            if f < c.len() { (st.0, st.1.update(idx, f as usize)) } else { (st.0.update(idx, true), st.1) }
        } else {
            st
        };
        recheck_from(c, support, idx + 1, next)
    }
}

/// The cards the trim may drop: those the pairwise pass removes and the
/// recheck does not keep.
pub open spec fn removable_marks(
    c: Seq<CardIntermediate>,
    params: BuildParams,
    support: Option<&SupportBonusTable>,
) -> Seq<bool> {
    let st = recheck_from(c, support, 0, pairwise_from(c, params, support, 0, trim_start(c.len())));
    Seq::new(c.len(), |k: int| !st.0[k])
}

/// Whether some non-fixed card is dominated by another card of its
/// character and attribute.
pub open spec fn some_dominated(
    c: Seq<CardIntermediate>,
    params: BuildParams,
    support: Option<&SupportBonusTable>,
) -> bool {
    exists|a: int, b: int| 0 <= a < c.len() && 0 <= b < c.len()
        && #[trigger] removes(c, params, support, a, b, all_alive(c.len()))
}

/// Every card alive.
pub open spec fn all_alive(n: nat) -> Seq<bool> {
    Seq::new(n, |k: int| true)
}

/// What a trim did: `rem` marks the cards found droppable, `m` the cards
/// dropped. Dropped cards are droppable; the kept cards are the others in
/// their order; as many are dropped as the excess over the capacity asks,
/// as far as droppable cards go; a droppable card is never fixed and is
/// dominated by a card of its character and attribute that stays; and every
/// dropped card is weaker than every droppable card that stays.
pub open spec fn trim_outcome(
    old: Seq<CardIntermediate>,
    new: Seq<CardIntermediate>,
    rem: Seq<bool>,
    m: Seq<bool>,
    params: BuildParams,
    support: Option<&SupportBonusTable>,
    capacity: int,
    dropped: int,
) -> bool {
    let n = old.len() as int;
    &&& rem.len() == n && m.len() == n
    &&& new == keep_unmarked(old, m)
    &&& count_true(m) == dropped
    &&& dropped == (if n <= capacity {
        0
    } else if count_true(rem) < n - capacity {
        count_true(rem) as int
    } else {
        n - capacity
    })
    &&& forall|i: int| 0 <= i < n && #[trigger] m[i] ==> rem[i]
    &&& forall|i: int|
        0 <= i < n && #[trigger] rem[i] ==> !spec_is_exempt(old[i], params) && exists|j: int|
            0 <= j < n && !rem[j] && j != i && same_bucket(old[j], old[i]) && #[trigger] spec_dominates(
                old[j],
                old[i],
                support,
            )
    &&& forall|i: int, j: int|
        0 <= i < n && 0 <= j < n && #[trigger] m[i] && #[trigger] rem[j] && !m[j] ==> weaker_le(old[i], i, old[j], j)
}

proof fn lemma_weaker_total(a: CardIntermediate, ia: int, b: CardIntermediate, ib: int)
    requires
        ia != ib,
        !weaker_le(a, ia, b, ib),
    ensures
        weaker_le(b, ib, a, ia),
{
}

proof fn lemma_weaker_trans(
    a: CardIntermediate,
    ia: int,
    b: CardIntermediate,
    ib: int,
    c: CardIntermediate,
    ic: int,
)
    requires
        weaker_le(a, ia, b, ib),
        weaker_le(b, ib, c, ic),
    ensures
        weaker_le(a, ia, c, ic),
{
}

proof fn lemma_count_update(m: Seq<bool>, i: int)
    requires
        0 <= i < m.len(),
        !m[i],
    ensures
        count_true(m.update(i, true)) == count_true(m) + 1,
    decreases m.len(),
{
    if i == m.len() - 1 {
        assert(m.update(i, true).drop_last() =~= m.drop_last());
    } else {
        lemma_count_update(m.drop_last(), i);
        assert(m.update(i, true).drop_last() =~= m.drop_last().update(i, true));
    }
}

proof fn lemma_count_all_false(n: nat)
    ensures
        count_true(Seq::new(n, |k: int| false)) == 0,
    decreases n,
{
    if n > 0 {
        lemma_count_all_false((n - 1) as nat);
        assert(Seq::new(n, |k: int| false).drop_last() =~= Seq::new((n - 1) as nat, |k: int| false));
    }
}

proof fn lemma_count_positive(m: Seq<bool>, i: int)
    requires
        0 <= i < m.len(),
        m[i],
    ensures
        count_true(m) >= 1,
    decreases m.len(),
{
    if i < m.len() - 1 {
        lemma_count_positive(m.drop_last(), i);
    }
}

proof fn lemma_count_bound(m: Seq<bool>)
    ensures
        count_true(m) <= m.len(),
    decreases m.len(),
{
    if m.len() > 0 {
        lemma_count_bound(m.drop_last());
    }
}

proof fn lemma_spare_exists(rem: Seq<bool>, m: Seq<bool>)
    requires
        rem.len() == m.len(),
        forall|i: int| 0 <= i < m.len() && #[trigger] m[i] ==> rem[i],
        count_true(m) < count_true(rem),
    ensures
        exists|i: int| 0 <= i < m.len() && rem[i] && !m[i],
    decreases m.len(),
{
    let n = m.len() as int;
    if rem[n - 1] && !m[n - 1] {
    } else {
        assert forall|i: int| 0 <= i < m.drop_last().len() && #[trigger] m.drop_last()[i] implies rem.drop_last()[i] by {
            assert(m[i]);
        }
        lemma_spare_exists(rem.drop_last(), m.drop_last());
        let i = choose|i: int| 0 <= i < m.drop_last().len() && rem.drop_last()[i] && !m.drop_last()[i];
        assert(rem[i] && !m[i]);
    }
}

proof fn lemma_keep_all(s: Seq<CardIntermediate>, m: Seq<bool>)
    requires
        s.len() == m.len(),
        forall|i: int| 0 <= i < m.len() ==> !#[trigger] m[i],
    ensures
        keep_unmarked(s, m) == s,
    decreases s.len(),
{
    if s.len() > 0 {
        lemma_keep_all(s.drop_first(), m.drop_first());
        assert(seq![s[0]] + s.drop_first() =~= s);
    }
}

/// Shrinks the candidates towards `capacity` by dropping only cards that a
/// card of the same character and attribute dominates (see
/// [`spec_dominates`]), weakest first, and returns how many it dropped.
/// The droppable cards are exactly those of [`removable_marks`]: a pairwise
/// pass in index order, then a recheck that keeps a card whose dominators
/// were all removed. When even dropping all of them does not bring the list
/// within the capacity, the remaining excess stays for the caller to
/// report.
#[verifier::loop_isolation(false)]
#[verifier::rlimit(50)]
pub fn dominance_trim(
    cards: &mut Vec<CardIntermediate>,
    params: &BuildParams,
    support: Option<&SupportBonusTable>,
    capacity: usize,
) -> (dropped: usize)
    requires
        support matches Some(t) ==> table_wf(*t),
    ensures
        old(cards)@.len() <= capacity ==> dropped == 0 && final(cards)@ == old(cards)@,
        exists|rem: Seq<bool>, m: Seq<bool>|
            trim_outcome(old(cards)@, final(cards)@, rem, m, *params, support, capacity as int, dropped as int)
                && (old(cards)@.len() > capacity ==> rem == removable_marks(old(cards)@, *params, support)),
        old(cards)@.len() > capacity && some_dominated(old(cards)@, *params, support) ==> dropped >= 1,
{
    let ghost orig = cards@;
    let n = cards.len();
    if n <= capacity {
        proof {
            let z = Seq::new(n as nat, |k: int| false);
            lemma_count_all_false(n as nat);
            lemma_keep_all(orig, z);
            assert(trim_outcome(orig, cards@, z, z, *params, support, capacity as int, 0));
        }
        return 0;
    }
    let mut alive: Vec<bool> = Vec::new();
    let mut dom: Vec<usize> = Vec::new();
    let mut k: usize = 0;
    while k < n
        invariant
            k <= n,
            alive@.len() == k,
            dom@.len() == k,
            alive@ == Seq::new(k as nat, |j: int| true),
            dom@ == Seq::new(k as nat, |j: int| 0usize),
        decreases n - k,
    {
        alive.push(true);
        dom.push(0);
        k = k + 1;
        assert(alive@ =~= Seq::new(k as nat, |j: int| true));
        assert(dom@ =~= Seq::new(k as nat, |j: int| 0usize));
    }
    assert((alive@, dom@) == trim_start(n as nat));
    // Pairwise pass: a living card removes the cards it dominates.
    let mut a: usize = 0;
    let ghost st0 = (alive@, dom@);
    let ghost all = all_alive(n as nat);
    let ghost mut last: int = -1;
    while a < n
        invariant
            a <= n,
            all == all_alive(n as nat),
            last == -1 ==> alive@ == all && forall|a2: int, b2: int| 0 <= a2 < a && 0 <= b2 < n
                ==> !#[trigger] removes(orig, *params, support, a2, b2, all),
            last != -1 ==> 0 <= last < n && !alive@[last] && alive@[dom@[last] as int],
            cards@ == orig,
            orig.len() == n,
            pairwise_from(orig, *params, support, 0, st0) == pairwise_from(orig, *params, support, a as int, (alive@, dom@)),
            alive@.len() == n,
            dom@.len() == n,
            forall|j: int|
                0 <= j < n && !#[trigger] alive@[j] ==> dom@[j] < n && dom@[j] != j && same_bucket(
                    orig[dom@[j] as int],
                    orig[j],
                ) && spec_dominates(orig[dom@[j] as int], orig[j], support) && !spec_is_exempt(orig[j], *params),
        decreases n - a,
    {
        let ghost sa = (alive@, dom@);
        if alive[a] {
            let mut b: usize = 0;
            while b < n
                invariant
                    b <= n,
                    cards@ == orig,
                    orig.len() == n,
                    sa.0[a as int],
                    alive@[a as int],
                    all == all_alive(n as nat),
                    last == -1 ==> alive@ == all && (forall|a2: int, b2: int| 0 <= a2 < a && 0 <= b2 < n
                        ==> !#[trigger] removes(orig, *params, support, a2, b2, all))
                        && forall|b2: int| 0 <= b2 < b ==> !#[trigger] removes(orig, *params, support, a as int, b2, all),
                    last != -1 ==> 0 <= last < n && !alive@[last] && alive@[dom@[last] as int],
                    sweep(orig, *params, support, a as int, 0, sa) == sweep(orig, *params, support, a as int, b as int, (alive@, dom@)),
                    alive@.len() == n,
                    dom@.len() == n,
                    forall|j: int|
                        0 <= j < n && !#[trigger] alive@[j] ==> dom@[j] < n && dom@[j] != j && same_bucket(
                            orig[dom@[j] as int],
                            orig[j],
                        ) && spec_dominates(orig[dom@[j] as int], orig[j], support) && !spec_is_exempt(
                            orig[j],
                            *params,
                        ),
                decreases n - b,
            {
                let ghost cur = (alive@, dom@);
                if b != a && alive[b] && cards[b].character_id == cards[a].character_id
                    && cards[b].attr == cards[a].attr && !is_exempt(&cards[b], params)
                    && dominates(&cards[a], &cards[b], support) {
                    assert(removes(orig, *params, support, a as int, b as int, cur.0));
                    alive.set(b, false);
                    dom.set(b, a);
                    proof {
                        last = b as int;
                    }
                    assert((alive@, dom@) == (cur.0.update(b as int, false), cur.1.update(b as int, a as usize)));
                } else {
                    assert(!removes(orig, *params, support, a as int, b as int, cur.0));
                }
                b = b + 1;
            }
        }
        a = a + 1;
    }
    let ghost st1 = (alive@, dom@);
    assert(st1 == pairwise_from(orig, *params, support, 0, trim_start(n as nat)));
    assert(last == -1 ==> !some_dominated(orig, *params, support));
    // Recheck: a removed card needs a dominator that is still alive.
    let mut idx: usize = 0;
    while idx < n
        invariant
            idx <= n,
            cards@ == orig,
            orig.len() == n,
            recheck_from(orig, support, 0, st1) == recheck_from(orig, support, idx as int, (alive@, dom@)),
            last == -1 ==> !some_dominated(orig, *params, support),
            last != -1 ==> 0 <= last < n && !alive@[last] && alive@[dom@[last] as int],
            alive@.len() == n,
            dom@.len() == n,
            forall|j: int|
                0 <= j < n && !#[trigger] alive@[j] ==> dom@[j] < n && dom@[j] != j && same_bucket(
                    orig[dom@[j] as int],
                    orig[j],
                ) && spec_dominates(orig[dom@[j] as int], orig[j], support) && !spec_is_exempt(orig[j], *params),
            forall|j: int| 0 <= j < idx && !#[trigger] alive@[j] ==> alive@[dom@[j] as int],
        decreases n - idx,
    {
        let ghost cur = (alive@, dom@);
        if !alive[idx] {
            let root = dom[idx];
            if !alive[root] {
                let mut found = n;
                let mut o: usize = 0;
                while o < n
                    invariant
                        o <= n,
                        cards@ == orig,
                        orig.len() == n,
                        alive@ == cur.0,
                        found == n ==> first_live_dominator(orig, support, idx as int, cur.0, 0)
                            == first_live_dominator(orig, support, idx as int, cur.0, o as int),
                        found < n ==> found == first_live_dominator(orig, support, idx as int, cur.0, 0),
                        alive@.len() == n,
                        found == n || (found < n && found != idx && alive@[found as int] && same_bucket(
                            orig[found as int],
                            orig[idx as int],
                        ) && spec_dominates(orig[found as int], orig[idx as int], support)),
                    decreases n - o,
                {
                    if found == n && o != idx && alive[o] && cards[o].character_id == cards[idx].character_id
                        && cards[o].attr == cards[idx].attr && dominates(&cards[o], &cards[idx], support) {
                        found = o;
                    }
                    o = o + 1;
                }
                if found < n {
                    dom.set(idx, found);
                } else {
                    alive.set(idx, true);
                }
            }
        }
        idx = idx + 1;
    }
    let ghost rem = alive@.map_values(|b: bool| !b);
    assert(rem =~= removable_marks(orig, *params, support));
    assert forall|i: int| 0 <= i < n && #[trigger] rem[i] implies !spec_is_exempt(orig[i], *params) && exists|j: int|
        0 <= j < n && !rem[j] && j != i && same_bucket(orig[j], orig[i]) && #[trigger] spec_dominates(
            orig[j],
            orig[i],
            support,
        ) by {
        assert(!alive@[i]);
        let j = dom@[i] as int;
        assert(!rem[j]);
    }
    // How many are droppable.
    let mut removable: usize = 0;
    let mut c: usize = 0;
    while c < n
        invariant
            c <= n,
            alive@.len() == n,
            removable == count_true(rem.subrange(0, c as int)),
            removable <= c,
        decreases n - c,
    {
        assert(rem.subrange(0, c + 1).drop_last() =~= rem.subrange(0, c as int));
        if !alive[c] {
            removable = removable + 1;
        }
        c = c + 1;
    }
    assert(rem.subrange(0, n as int) =~= rem);
    assert(last != -1 ==> rem[last]);
    proof {
        if last != -1 {
            lemma_count_positive(rem, last);
        }
    }
    let excess = n - capacity;
    let target = if removable < excess { removable } else { excess };
    // Drop the weakest droppable cards first.
    let mut drop: Vec<bool> = Vec::new();
    let mut k2: usize = 0;
    while k2 < n
        invariant
            k2 <= n,
            drop@ == Seq::new(k2 as nat, |j: int| false),
        decreases n - k2,
    {
        drop.push(false);
        k2 = k2 + 1;
        assert(drop@ =~= Seq::new(k2 as nat, |j: int| false));
    }
    proof {
        lemma_count_all_false(n as nat);
    }
    let mut step: usize = 0;
    while step < target
        invariant
            step <= target,
            target <= removable,
            removable == count_true(rem),
            cards@ == orig,
            alive@.len() == n,
            drop@.len() == n,
            count_true(drop@) == step,
            forall|i: int| 0 <= i < n && #[trigger] drop@[i] ==> rem[i],
            forall|i: int, j: int|
                0 <= i < n && 0 <= j < n && #[trigger] drop@[i] && #[trigger] rem[j] && !drop@[j] ==> weaker_le(
                    orig[i],
                    i,
                    orig[j],
                    j,
                ),
        decreases target - step,
    {
        proof {
            lemma_spare_exists(rem, drop@);
        }
        let mut best = n;
        let mut j: usize = 0;
        while j < n
            invariant
                j <= n,
                cards@ == orig,
                alive@.len() == n,
                drop@.len() == n,
                best == n || (best < j && rem[best as int] && !drop@[best as int]),
                best == n ==> forall|k: int| 0 <= k < j ==> !(#[trigger] rem[k] && !drop@[k]),
                best < n ==> forall|k: int| 0 <= k < j && rem[k] && !drop@[k] ==> #[trigger] weaker_le(
                    orig[best as int],
                    best as int,
                    orig[k],
                    k,
                ),
            decreases n - j,
        {
            let ghost old_best = best;
            if !alive[j] && !drop[j] {
                assert(rem[j as int]);
                let replace = best == n || weaker_le_exec(&cards[j], j, &cards[best], best);
                if replace {
                    best = j;
                }
                proof {
                    if replace {
                        assert forall|k: int| 0 <= k < j + 1 && rem[k] && !drop@[k] implies #[trigger] weaker_le(
                            orig[best as int],
                            best as int,
                            orig[k],
                            k,
                        ) by {
                            if k < j {
                                assert(old_best < n);
                                assert(weaker_le(orig[old_best as int], old_best as int, orig[k], k));
                                lemma_weaker_trans(orig[j as int], j as int, orig[old_best as int], old_best as int, orig[k], k);
                            } else {
                                assert(weaker_le(orig[j as int], j as int, orig[j as int], j as int));
                            }
                        }
                    } else {
                        assert(best == old_best && best < n);
                        lemma_weaker_total(orig[j as int], j as int, orig[best as int], best as int);
                        assert forall|k: int| 0 <= k < j + 1 && rem[k] && !drop@[k] implies #[trigger] weaker_le(
                            orig[best as int],
                            best as int,
                            orig[k],
                            k,
                        ) by {
                            if k < j {
                                assert(weaker_le(orig[old_best as int], old_best as int, orig[k], k));
                            }
                        }
                    }
                }
            }
            j = j + 1;
        }
        assert(best < n) by {
            let w = choose|i: int| 0 <= i < n && rem[i] && !drop@[i];
            assert(rem[w] && !drop@[w]);
        }
        let ghost before = drop@;
        proof {
            lemma_count_update(before, best as int);
        }
        drop.set(best, true);
        assert(drop@ == before.update(best as int, true));
        step = step + 1;
    }
    // Remove the dropped cards, from the back.
    let mut i = n;
    assert(orig.subrange(n as int, n as int) =~= Seq::<CardIntermediate>::empty());
    assert(orig.subrange(0, n as int) =~= orig);
    while i > 0
        invariant
            i <= n,
            drop@.len() == n,
            cards@ == orig.subrange(0, i as int) + keep_unmarked(
                orig.subrange(i as int, n as int),
                drop@.subrange(i as int, n as int),
            ),
        decreases i,
    {
        let ghost tail = keep_unmarked(orig.subrange(i as int, n as int), drop@.subrange(i as int, n as int));
        assert(orig.subrange(i - 1, n as int).drop_first() =~= orig.subrange(i as int, n as int));
        assert(drop@.subrange(i - 1, n as int).drop_first() =~= drop@.subrange(i as int, n as int));
        assert(orig.subrange(i - 1, n as int)[0] == orig[i - 1]);
        assert(drop@.subrange(i - 1, n as int)[0] == drop@[i - 1]);
        if drop[i - 1] {
            let ghost pre = cards@;
            cards.remove(i - 1);
            assert(cards@ =~= orig.subrange(0, i - 1) + tail);
        } else {
            assert(orig.subrange(0, i as int) + tail =~= orig.subrange(0, i - 1) + (seq![orig[i - 1]] + tail));
        }
        i = i - 1;
    }
    assert(orig.subrange(0, 0) + keep_unmarked(orig.subrange(0, n as int), drop@.subrange(0, n as int))
        =~= keep_unmarked(orig, drop@)) by {
        assert(orig.subrange(0, n as int) =~= orig);
        assert(drop@.subrange(0, n as int) =~= drop@);
        assert(orig.subrange(0, 0) + keep_unmarked(orig, drop@) =~= keep_unmarked(orig, drop@));
    }
    assert(cards@ =~= keep_unmarked(orig, drop@));
    proof {
        assert(trim_outcome(orig, cards@, rem, drop@, *params, support, capacity as int, target as int));
    }
    target
}

} // verus!
