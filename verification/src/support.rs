//! World Bloom support decks: the cards outside the deck that add to its
//! bonus, and how much each adds (hundredths of a percent).

use vstd::prelude::*;
use crate::data::{
    GameData, WBSupportDeckBonus, WBSupportDeckCharacterBonus, WBSupportDeckMasterRankBonus,
    WBSupportDeckSkillLevelBonus, WBSupportDeckUnitEventLimitedBonus,
};
use crate::event_bonus::EventContext;
use crate::filter::has_unit;
use crate::index::{indexes_wf, primary_unit_of, PoolIndexes, first_card_pos};
use crate::order::{is_order, key_views, sorted_by_keys, uniform_keys};
use crate::pool::{CardIntermediate, SupportDeck};
use crate::prune::id_u16;
use crate::text::{bytes_eq, bytes_eq_ignore_case, lower, norm, norm_token};
use crate::types::{is_world_bloom_finale_event, spec_is_finale_event, spec_unit_pool_index, unit_to_pool_index};
use vstd::utf8::encode_utf8;

verus! {

/// What the support deck needs of a candidate card.
#[derive(Clone, Copy, Debug, PartialEq, Eq, Structural)]
pub struct SupportSeed {
    pub card_id: u16,
    pub rarity: i32,
    pub character_id: u8,
    pub unit_mask: u8,
    pub master_rank: i32,
    pub skill_level: i32,
}

/// The support seed of a candidate: master rank and skill level raised to
/// the card's maxima when the request asks for it.
pub open spec fn spec_seed(c: CardIntermediate, idx: PoolIndexes, game: GameData<'_>, master_max: bool, skill_max: bool) -> SupportSeed {
    let m = match first_card_pos(game.cards@, c.game_card_id) {
        Some(k) => Some(idx.cards@[k].master@),
        None => None,
    };
    SupportSeed {
        card_id: id_u16(c.game_card_id),
        rarity: c.card_rarity_type,
        character_id: c.character_id,
        unit_mask: c.unit_mask_raw,
        master_rank: if master_max && m is Some && m->0.max_master_rank is Some { m->0.max_master_rank->0 } else { c.master_rank },
        skill_level: if skill_max && m is Some && m->0.max_skill_level is Some { m->0.max_skill_level->0 } else { c.skill_level },
    }
}

/// The support seed of a candidate.
pub fn support_seed_from_intermediate(
    c: &CardIntermediate,
    idx: &PoolIndexes,
    game: &GameData<'_>,
    master_max: bool,
    skill_max: bool,
) -> (r: SupportSeed)
    requires
        indexes_wf(*idx, *game),
    ensures
        r == spec_seed(*c, *idx, *game, master_max, skill_max),
{
    let data = idx.card_data(game, c.game_card_id);
    let (mr, sl) = match data {
        Some(d) => (
            if master_max { match d.master.max_master_rank { Some(x) => x, None => c.master_rank } } else { c.master_rank },
            if skill_max { match d.master.max_skill_level { Some(x) => x, None => c.skill_level } } else { c.skill_level },
        ),
        None => (c.master_rank, c.skill_level),
    };
    SupportSeed {
        card_id: if c.game_card_id < 0 { 0 } else if c.game_card_id > 65535 { 65535 } else { c.game_card_id as u16 },
        rarity: c.card_rarity_type,
        character_id: c.character_id,
        unit_mask: c.unit_mask_raw,
        master_rank: mr,
        skill_level: sl,
    }
}

/// Whether a normalised rarity token names a card rarity: `rarity_N` or
/// `N`, and `rarity_birthday`, `birthday` or `5` for birthday cards.
pub open spec fn rarity_token_matches(t: Seq<u8>, rarity: i32) -> bool {
    if rarity == 1 {
        t == seq![114u8, 97, 114, 105, 116, 121, 95, 49] || t == seq![49u8]
    } else if rarity == 2 {
        t == seq![114u8, 97, 114, 105, 116, 121, 95, 50] || t == seq![50u8]
    } else if rarity == 3 {
        t == seq![114u8, 97, 114, 105, 116, 121, 95, 51] || t == seq![51u8]
    } else if rarity == 4 {
        t == seq![114u8, 97, 114, 105, 116, 121, 95, 52] || t == seq![52u8]
    } else if rarity == 5 {
        t == seq![114u8, 97, 114, 105, 116, 121, 95, 98, 105, 114, 116, 104, 100, 97, 121]
            || t == seq![98u8, 105, 114, 116, 104, 100, 97, 121] || t == seq![53u8]
    } else {
        false
    }
}

/// Whether a support-table rarity code names a card rarity (trimmed, any
/// ASCII case).
pub open spec fn spec_rarity_matches(code: Seq<char>, rarity: i32) -> bool {
    rarity_token_matches(norm(encode_utf8(code)), rarity)
}

/// Whether a support-table rarity code names a card rarity.
pub fn support_rarity_matches(code: &str, rarity: i32) -> (r: bool)
    ensures
        r == spec_rarity_matches(code@, rarity),
{
    let t = norm_token(code);
    let t = t.as_slice();
    let r = if rarity == 1 {
        bytes_eq(t, &[114u8, 97, 114, 105, 116, 121, 95, 49]) || (t.len() == 1 && t[0] == 49u8)
    } else if rarity == 2 {
        bytes_eq(t, &[114u8, 97, 114, 105, 116, 121, 95, 50]) || (t.len() == 1 && t[0] == 50u8)
    } else if rarity == 3 {
        bytes_eq(t, &[114u8, 97, 114, 105, 116, 121, 95, 51]) || (t.len() == 1 && t[0] == 51u8)
    } else if rarity == 4 {
        bytes_eq(t, &[114u8, 97, 114, 105, 116, 121, 95, 52]) || (t.len() == 1 && t[0] == 52u8)
    } else if rarity == 5 {
        bytes_eq(t, &[114u8, 97, 114, 105, 116, 121, 95, 98, 105, 114, 116, 104, 100, 97, 121])
            || bytes_eq(t, &[98u8, 105, 114, 116, 104, 100, 97, 121]) || (t.len() == 1 && t[0] == 53u8)
    } else {
        false
    };
    assert(t@.len() == 1 ==> t@ == seq![t@[0]]);
    r
}

/// The first support-table row of a rarity.
pub open spec fn rarity_row(rows: Seq<WBSupportDeckBonus>, rarity: i32) -> Option<WBSupportDeckBonus>
    decreases rows.len(),
{
    if rows.len() == 0 {
        None
    } else if spec_rarity_matches(rows[0].card_rarity_type@, rarity) {
        Some(rows[0])
    } else {
        rarity_row(rows.drop_first(), rarity)
    }
}

/// Character bonus of a row for a character kind (`specific` for the
/// chapter character, `others` otherwise; any ASCII case), else 0.
pub open spec fn char_bonus_of(rows: Seq<WBSupportDeckCharacterBonus>, kind: Seq<u8>) -> int
    decreases rows.len(),
{
    if rows.len() == 0 {
        0
    } else if lower(encode_utf8(rows[0].world_bloom_support_deck_character_type@)) == lower(kind) {
        rows[0].bonus_rate_x100 as int
    } else {
        char_bonus_of(rows.drop_first(), kind)
    }
}

/// Master-rank bonus of a row, else 0.
pub open spec fn mr_bonus_of(rows: Seq<WBSupportDeckMasterRankBonus>, mr: i32) -> int
    decreases rows.len(),
{
    if rows.len() == 0 {
        0
    } else if rows[0].master_rank == mr {
        rows[0].bonus_rate_x100 as int
    } else {
        mr_bonus_of(rows.drop_first(), mr)
    }
}

/// Skill-level bonus of a row, else 0.
pub open spec fn sl_bonus_of(rows: Seq<WBSupportDeckSkillLevelBonus>, sl: i32) -> int
    decreases rows.len(),
{
    if rows.len() == 0 {
        0
    } else if rows[0].skill_level == sl {
        rows[0].bonus_rate_x100 as int
    } else {
        sl_bonus_of(rows.drop_first(), sl)
    }
}

/// Sum of the limited support bonuses of a card for an event and chapter character.
pub open spec fn limited_sum(rows: Seq<WBSupportDeckUnitEventLimitedBonus>, event_id: i32, ch: i32, card_id: i32) -> int
    decreases rows.len(),
{
    if rows.len() == 0 {
        0
    } else {
        limited_sum(rows.drop_last(), event_id, ch, card_id) + if rows.last().event_id == event_id
            && rows.last().game_character_id == ch && rows.last().card_id == card_id {
            rows.last().bonus_rate_x100 as int
        } else {
            0
        }
    }
}

/// The support table of a World Bloom turn.
pub open spec fn turn_table<'a>(game: GameData<'a>, turn: Option<i32>) -> Seq<WBSupportDeckBonus> {
    match turn {
        Some(1) => game.wb_support_deck_bonuses_wl1@,
        Some(2) => game.wb_support_deck_bonuses_wl2@,
        Some(3) => game.wb_support_deck_bonuses_wl3@,
        _ => Seq::empty(),
    }
}

/// Support bonus of a card (hundredths of a percent): nothing without a
/// chapter character of a real group, for a card outside that group, or for
/// a rarity without a row; else the character, master-rank, skill-level and
/// limited bonuses together, at least 0 and at most `u32::MAX`.
pub open spec fn spec_support_bonus(seed: SupportSeed, game: GameData<'_>, event_id: i32, turn: Option<i32>, special: Option<i32>) -> u32 {
    match special {
        None => 0,
        Some(s) => if s <= 0 {
            0
        } else {
            match primary_unit_of(game.game_character_units@, s) {
                None => 0,
                Some(u) => match spec_unit_pool_index(u) {
                    None => 0,
                    Some(ui) => if !has_unit(seed.unit_mask, ui) || !(1 <= seed.rarity <= 5) {
                        0
                    } else {
                        match rarity_row(turn_table(game, turn), seed.rarity) {
                            None => 0,
                            Some(row) => {
                                let ch = if seed.character_id as i32 == s {
                                    char_bonus_of(row.world_bloom_support_deck_character_bonuses@, seq![115u8, 112, 101, 99, 105, 102, 105, 99])
                                } else {
                                    char_bonus_of(row.world_bloom_support_deck_character_bonuses@, seq![111u8, 116, 104, 101, 114, 115])
                                };
                                let mr = if 0 <= seed.master_rank < 8 { mr_bonus_of(row.world_bloom_support_deck_master_rank_bonuses@, seed.master_rank) } else { 0 };
                                let sl = if 0 <= seed.skill_level < 8 { sl_bonus_of(row.world_bloom_support_deck_skill_level_bonuses@, seed.skill_level) } else { 0 };
                                let total = ch + mr + sl + limited_sum(
                                    game.world_bloom_support_deck_unit_event_limited_bonuses@,
                                    event_id,
                                    s,
                                    seed.card_id as i32,
                                );
                                if total <= 0 { 0 } else if total > u32::MAX { u32::MAX } else { total as u32 }
                            },
                        }
                    },
                },
            }
        },
    }
}

fn rarity_row_exec<'a>(rows: &'a [WBSupportDeckBonus], rarity: i32) -> (r: Option<&'a WBSupportDeckBonus>)
    ensures
        match rarity_row(rows@, rarity) {
            Some(row) => r == Some(&row),
            None => r is None,
        },
{
    let mut i: usize = 0;
    assert(rows@.subrange(0, rows@.len() as int) =~= rows@);
    while i < rows.len()
        invariant
            i <= rows@.len(),
            rarity_row(rows@, rarity) == rarity_row(rows@.subrange(i as int, rows@.len() as int), rarity),
        decreases rows@.len() - i,
    {
        assert(rows@.subrange(i as int, rows@.len() as int)[0] == rows@[i as int]);
        assert(rows@.subrange(i as int, rows@.len() as int).drop_first() =~= rows@.subrange(i + 1, rows@.len() as int));
        if support_rarity_matches(rows[i].card_rarity_type.as_str(), rarity) {
            return Some(&rows[i]);
        }
        i = i + 1;
    }
    None
}

fn char_bonus_exec(rows: &Vec<WBSupportDeckCharacterBonus>, kind: &[u8]) -> (r: i64)
    ensures
        r == char_bonus_of(rows@, kind@),
{
    let mut i: usize = 0;
    assert(rows@.subrange(0, rows@.len() as int) =~= rows@);
    while i < rows.len()
        invariant
            i <= rows@.len(),
            char_bonus_of(rows@, kind@) == char_bonus_of(rows@.subrange(i as int, rows@.len() as int), kind@),
        decreases rows@.len() - i,
    {
        assert(rows@.subrange(i as int, rows@.len() as int)[0] == rows@[i as int]);
        assert(rows@.subrange(i as int, rows@.len() as int).drop_first() =~= rows@.subrange(i + 1, rows@.len() as int));
        if bytes_eq_ignore_case(rows[i].world_bloom_support_deck_character_type.as_str().as_bytes(), kind) {
            return rows[i].bonus_rate_x100 as i64;
        }
        i = i + 1;
    }
    0
}

fn mr_bonus_exec(rows: &Vec<WBSupportDeckMasterRankBonus>, mr: i32) -> (r: i64)
    ensures
        r == mr_bonus_of(rows@, mr),
{
    let mut i: usize = 0;
    assert(rows@.subrange(0, rows@.len() as int) =~= rows@);
    while i < rows.len()
        invariant
            i <= rows@.len(),
            mr_bonus_of(rows@, mr) == mr_bonus_of(rows@.subrange(i as int, rows@.len() as int), mr),
        decreases rows@.len() - i,
    {
        assert(rows@.subrange(i as int, rows@.len() as int)[0] == rows@[i as int]);
        assert(rows@.subrange(i as int, rows@.len() as int).drop_first() =~= rows@.subrange(i + 1, rows@.len() as int));
        if rows[i].master_rank == mr {
            return rows[i].bonus_rate_x100 as i64;
        }
        i = i + 1;
    }
    0
}

fn sl_bonus_exec(rows: &Vec<WBSupportDeckSkillLevelBonus>, sl: i32) -> (r: i64)
    ensures
        r == sl_bonus_of(rows@, sl),
{
    let mut i: usize = 0;
    assert(rows@.subrange(0, rows@.len() as int) =~= rows@);
    while i < rows.len()
        invariant
            i <= rows@.len(),
            sl_bonus_of(rows@, sl) == sl_bonus_of(rows@.subrange(i as int, rows@.len() as int), sl),
        decreases rows@.len() - i,
    {
        assert(rows@.subrange(i as int, rows@.len() as int)[0] == rows@[i as int]);
        assert(rows@.subrange(i as int, rows@.len() as int).drop_first() =~= rows@.subrange(i + 1, rows@.len() as int));
        if rows[i].skill_level == sl {
            return rows[i].bonus_rate_x100 as i64;
        }
        i = i + 1;
    }
    0
}

fn limited_sum_exec(rows: &[WBSupportDeckUnitEventLimitedBonus], event_id: i32, ch: i32, card_id: i32) -> (r: i128)
    ensures
        r == limited_sum(rows@, event_id, ch, card_id),
        -0x1_0000_0000_0000_0000_0000_0000 <= r <= 0x1_0000_0000_0000_0000_0000_0000,
{
    let mut acc: i128 = 0;
    let mut i: usize = 0;
    while i < rows.len()
        invariant
            i <= rows@.len(),
            i <= usize::MAX,
            acc == limited_sum(rows@.subrange(0, i as int), event_id, ch, card_id),
            -(i as int) * 0x8000_0000 <= acc <= (i as int) * 0x8000_0000,
        decreases rows@.len() - i,
    {
        assert(rows@.subrange(0, i + 1).drop_last() =~= rows@.subrange(0, i as int));
        let e = rows[i];
        if e.event_id == event_id && e.game_character_id == ch && e.card_id == card_id {
            acc = acc + e.bonus_rate_x100 as i128;
        }
        i = i + 1;
    }
    assert(rows@.subrange(0, rows@.len() as int) =~= rows@);
    acc
}

fn primary_unit_exec(rows: &[crate::data::GameCharacterUnit], character_id: i32) -> (r: Option<crate::types::Unit>)
    ensures
        r == primary_unit_of(rows@, character_id),
{
    let mut i: usize = 0;
    assert(rows@.subrange(0, rows@.len() as int) =~= rows@);
    while i < rows.len()
        invariant
            i <= rows@.len(),
            primary_unit_of(rows@, character_id) == primary_unit_of(rows@.subrange(i as int, rows@.len() as int), character_id),
        decreases rows@.len() - i,
    {
        assert(rows@.subrange(i as int, rows@.len() as int)[0] == rows@[i as int]);
        assert(rows@.subrange(i as int, rows@.len() as int).drop_first() =~= rows@.subrange(i + 1, rows@.len() as int));
        if rows[i].game_character_id == character_id {
            return crate::text::parse_unit_code(rows[i].unit.as_str());
        }
        i = i + 1;
    }
    None
}

/// Support bonus of a card (see [`spec_support_bonus`]).
pub fn support_bonus(seed: &SupportSeed, game: &GameData<'_>, event_id: i32, turn: Option<i32>, special: Option<i32>) -> (r: u32)
    ensures
        r == spec_support_bonus(*seed, *game, event_id, turn, special),
{
    let s = match special {
        Some(s) => s,
        None => return 0,
    };
    if s <= 0 {
        return 0;
    }
    let u = match primary_unit_exec(game.game_character_units, s) {
        Some(u) => u,
        None => return 0,
    };
    let ui = match unit_to_pool_index(u) {
        Some(ui) => ui,
        None => return 0,
    };
    if !crate::filter::mask_has(seed.unit_mask, ui) || !(1 <= seed.rarity && seed.rarity <= 5) {
        return 0;
    }
    let table: &[WBSupportDeckBonus] = match turn {
        Some(1) => game.wb_support_deck_bonuses_wl1,
        Some(2) => game.wb_support_deck_bonuses_wl2,
        Some(3) => game.wb_support_deck_bonuses_wl3,
        _ => &[],
    };
    assert(table@ == turn_table(*game, turn));
    let row = match rarity_row_exec(table, seed.rarity) {
        Some(row) => row,
        None => return 0,
    };
    let ch: i64 = if seed.character_id as i32 == s {
        char_bonus_exec(&row.world_bloom_support_deck_character_bonuses, &[115u8, 112, 101, 99, 105, 102, 105, 99])
    } else {
        char_bonus_exec(&row.world_bloom_support_deck_character_bonuses, &[111u8, 116, 104, 101, 114, 115])
    };
    let mr: i64 = if 0 <= seed.master_rank && seed.master_rank < 8 {
        mr_bonus_exec(&row.world_bloom_support_deck_master_rank_bonuses, seed.master_rank)
    } else {
        0
    };
    let sl: i64 = if 0 <= seed.skill_level && seed.skill_level < 8 {
        sl_bonus_exec(&row.world_bloom_support_deck_skill_level_bonuses, seed.skill_level)
    } else {
        0
    };
    let lim = limited_sum_exec(game.world_bloom_support_deck_unit_event_limited_bonuses, event_id, s, seed.card_id as i32);
    let total: i128 = ch as i128 + mr as i128 + sl as i128 + lim;
    if total <= 0 {
        0
    } else if total > 4294967295 {
        4294967295
    } else {
        total as u32
    }
}

/// The support deck of a build: every seed with its bonus, best first
/// (equal bonuses in seed order), and how many count; empty without an
/// event or with a support count of 0.
pub open spec fn deck_matches(deck: SupportDeck, seeds: Seq<SupportSeed>, game: GameData<'_>, ctx: Option<EventContext>, special_override: Option<i32>) -> bool {
    match ctx {
        None => deck.cards@.len() == 0 && deck.count == 0,
        Some(c) => if c.support_deck_count == 0 {
            deck.cards@.len() == 0 && deck.count == 0
        } else {
            let special = match special_override { Some(s) => Some(s), None => c.world_bloom_character_id };
            let bonuses = Seq::new(seeds.len(), |k: int| spec_support_bonus(seeds[k], game, c.event_id, c.world_bloom_event_turn, special));
            &&& deck.count == c.support_deck_count
            &&& exists|ord: Seq<usize>|
                is_order(ord, seeds.len() as int) && sorted_by_keys(ord, Seq::new(seeds.len(), |k: int| seq![(-bonuses[k]) as i64]))
                    && deck.cards@ == Seq::new(seeds.len(), |k: int| (seeds[ord[k] as int].card_id, bonuses[ord[k] as int]))
        },
    }
}

/// Builds the support deck of a build (see [`deck_matches`]).
pub fn build_support_deck(
    seeds: &Vec<SupportSeed>,
    game: &GameData<'_>,
    event_ctx: &Option<EventContext>,
    special_override: Option<i32>,
) -> (r: SupportDeck)
    ensures
        deck_matches(r, seeds@, *game, *event_ctx, special_override),
{
    let c = match event_ctx {
        Some(c) => c,
        None => return SupportDeck { cards: Vec::new(), count: 0 },
    };
    if c.support_deck_count == 0 {
        return SupportDeck { cards: Vec::new(), count: 0 };
    }
    let special = match special_override {
        Some(s) => Some(s),
        None => c.world_bloom_character_id,
    };
    let ghost bonuses = Seq::new(seeds@.len(), |k: int| spec_support_bonus(seeds@[k], *game, c.event_id, c.world_bloom_event_turn, special));
    let ghost kv = Seq::new(seeds@.len(), |k: int| seq![(-bonuses[k]) as i64]);
    let mut pairs: Vec<(u16, u32)> = Vec::new();
    let mut keys: Vec<Vec<i64>> = Vec::new();
    let mut i: usize = 0;
    while i < seeds.len()
        invariant
            i <= seeds@.len(),
            bonuses == Seq::new(seeds@.len(), |k: int| spec_support_bonus(seeds@[k], *game, c.event_id, c.world_bloom_event_turn, special)),
            kv == Seq::new(seeds@.len(), |k: int| seq![(-bonuses[k]) as i64]),
            pairs@ == Seq::new(i as nat, |k: int| (seeds@[k].card_id, bonuses[k])),
            key_views(keys@) == kv.subrange(0, i as int),
        decreases seeds@.len() - i,
    {
        let b = support_bonus(&seeds[i], game, c.event_id, c.world_bloom_event_turn, special);
        pairs.push((seeds[i].card_id, b));
        let mut key: Vec<i64> = Vec::new();
        key.push(-(b as i64));
        assert(key@ =~= kv[i as int]);
        let ghost prev = keys@;
        keys.push(key);
        assert(key_views(keys@) =~= key_views(prev).push(key@));
        assert(key_views(keys@) =~= kv.subrange(0, i + 1));
        assert(pairs@ =~= Seq::new((i + 1) as nat, |k: int| (seeds@[k].card_id, bonuses[k])));
        i = i + 1;
    }
    assert(key_views(keys@) =~= kv);
    assert(uniform_keys(kv));
    let ord = crate::order::stable_order(&keys);
    let sorted = crate::order::permute(pairs, &ord);
    assert(sorted@ =~= Seq::new(seeds@.len(), |k: int| (seeds@[ord@[k] as int].card_id, bonuses[ord@[k] as int])));
    SupportDeck { cards: sorted, count: c.support_deck_count }
}

/// Whether an event context is that of a World Bloom finale.
pub open spec fn finale_ctx(ctx: Option<EventContext>) -> bool {
    match ctx {
        Some(c) => spec_is_finale_event(c.event_id),
        None => false,
    }
}

/// The per-leader support decks of a World Bloom finale (27, by character
/// id; empty outside the finale).
pub fn build_final_chapter_support_decks(
    seeds: &Vec<SupportSeed>,
    game: &GameData<'_>,
    event_ctx: &Option<EventContext>,
) -> (r: Vec<SupportDeck>)
    ensures
        r@.len() == 27,
        forall|ch: int| 0 <= ch < 27 ==> (if 1 <= ch <= 26 && finale_ctx(*event_ctx) {
            deck_matches(#[trigger] r@[ch], seeds@, *game, *event_ctx, Some(ch as i32))
        } else {
            r@[ch].cards@.len() == 0 && r@[ch].count == 0
        }),
{
    let finale = match event_ctx {
        Some(c) => is_world_bloom_finale_event(c.event_id),
        None => false,
    };
    let mut decks: Vec<SupportDeck> = Vec::new();
    let mut ch: usize = 0;
    while ch < 27
        invariant
            ch <= 27,
            decks@.len() == ch,
            finale == finale_ctx(*event_ctx),
            forall|k: int| 0 <= k < ch ==> (if 1 <= k <= 26 && finale_ctx(*event_ctx) {
                deck_matches(#[trigger] decks@[k], seeds@, *game, *event_ctx, Some(k as i32))
            } else {
                decks@[k].cards@.len() == 0 && decks@[k].count == 0
            }),
        decreases 27 - ch,
    {
        if finale && 1 <= ch && ch <= 26 {
            decks.push(build_support_deck(seeds, game, event_ctx, Some(ch as i32)));
        } else {
            decks.push(SupportDeck { cards: Vec::new(), count: 0 });
        }
        ch = ch + 1;
    }
    decks
}

} // verus!
