//! Masterdata held by value, and the raw masterdata tables it is read from.

use vstd::prelude::*;
use crate::data::{
    AreaItemLevel, BondsHonor, CardEpisode, CardMysekaiCanvasBonus, CardParameter, CardRarity,
    CharacterRank, Event, EventCard, EventCardBonusLimit, EventDeckBonus, EventFixtureBonusLimit,
    EventHonorBonus, EventRarityBonusRate, EventSkillScoreUpLimit, GameCharacterUnit, GameData, Honor,
    MasterCard, MasterLesson, MusicDifficulty, MusicMeta, MysekaiGate, MysekaiGateLevel, Skill,
    SkillEffect, WBSupportDeckBonus, WBSupportDeckUnitEventLimitedBonus, WorldBloom,
    WorldBloomDiffAttrBonus,
};
use crate::text::bytes_eq;
use vstd::utf8::encode_utf8;

verus! {

/// Every masterdata table, owned.
pub struct OwnedGameData {
    pub cards: Vec<MasterCard>,
    pub card_parameters: Vec<CardParameter>,
    pub card_rarities: Vec<CardRarity>,
    pub card_episodes: Vec<CardEpisode>,
    pub master_lessons: Vec<MasterLesson>,
    pub skills: Vec<Skill>,
    pub skill_effects: Vec<SkillEffect>,
    pub area_item_levels: Vec<AreaItemLevel>,
    pub game_character_units: Vec<GameCharacterUnit>,
    pub character_ranks: Vec<CharacterRank>,
    pub card_mysekai_canvas_bonuses: Vec<CardMysekaiCanvasBonus>,
    pub mysekai_gates: Vec<MysekaiGate>,
    pub mysekai_gate_levels: Vec<MysekaiGateLevel>,
    pub events: Vec<Event>,
    pub event_cards: Vec<EventCard>,
    pub event_deck_bonuses: Vec<EventDeckBonus>,
    pub event_card_bonus_limits: Vec<EventCardBonusLimit>,
    pub event_honor_bonuses: Vec<EventHonorBonus>,
    pub world_bloom_different_attribute_bonuses: Vec<WorldBloomDiffAttrBonus>,
    pub world_blooms: Vec<WorldBloom>,
    pub wb_support_deck_bonuses_wl1: Vec<WBSupportDeckBonus>,
    pub wb_support_deck_bonuses_wl2: Vec<WBSupportDeckBonus>,
    pub wb_support_deck_bonuses_wl3: Vec<WBSupportDeckBonus>,
    pub world_bloom_support_deck_unit_event_limited_bonuses: Vec<WBSupportDeckUnitEventLimitedBonus>,
    pub event_mysekai_fixture_performance_bonus_limits: Vec<EventFixtureBonusLimit>,
    pub event_skill_score_up_limits: Vec<EventSkillScoreUpLimit>,
    pub music_metas: Vec<MusicMeta>,
    pub music_difficulties: Vec<MusicDifficulty>,
    pub event_rarity_bonus_rates: Vec<EventRarityBonusRate>,
    pub honors: Vec<Honor>,
    pub bonds_honors: Vec<BondsHonor>,
}

impl Default for OwnedGameData {
    fn default() -> (r: Self)
        ensures
            r.cards@.len() == 0,
            r.card_parameters@.len() == 0,
            r.card_rarities@.len() == 0,
            r.card_episodes@.len() == 0,
            r.master_lessons@.len() == 0,
            r.skills@.len() == 0,
            r.skill_effects@.len() == 0,
            r.area_item_levels@.len() == 0,
            r.game_character_units@.len() == 0,
            r.character_ranks@.len() == 0,
            r.card_mysekai_canvas_bonuses@.len() == 0,
            r.mysekai_gates@.len() == 0,
            r.mysekai_gate_levels@.len() == 0,
            r.events@.len() == 0,
            r.event_cards@.len() == 0,
            r.event_deck_bonuses@.len() == 0,
            r.event_card_bonus_limits@.len() == 0,
            r.event_honor_bonuses@.len() == 0,
            r.world_bloom_different_attribute_bonuses@.len() == 0,
            r.world_blooms@.len() == 0,
            r.wb_support_deck_bonuses_wl1@.len() == 0,
            r.wb_support_deck_bonuses_wl2@.len() == 0,
            r.wb_support_deck_bonuses_wl3@.len() == 0,
            r.world_bloom_support_deck_unit_event_limited_bonuses@.len() == 0,
            r.event_mysekai_fixture_performance_bonus_limits@.len() == 0,
            r.event_skill_score_up_limits@.len() == 0,
            r.music_metas@.len() == 0,
            r.music_difficulties@.len() == 0,
            r.event_rarity_bonus_rates@.len() == 0,
            r.honors@.len() == 0,
            r.bonds_honors@.len() == 0,
    {
        OwnedGameData {
            cards: Vec::new(),
            card_parameters: Vec::new(),
            card_rarities: Vec::new(),
            card_episodes: Vec::new(),
            master_lessons: Vec::new(),
            skills: Vec::new(),
            skill_effects: Vec::new(),
            area_item_levels: Vec::new(),
            game_character_units: Vec::new(),
            character_ranks: Vec::new(),
            card_mysekai_canvas_bonuses: Vec::new(),
            mysekai_gates: Vec::new(),
            mysekai_gate_levels: Vec::new(),
            events: Vec::new(),
            event_cards: Vec::new(),
            event_deck_bonuses: Vec::new(),
            event_card_bonus_limits: Vec::new(),
            event_honor_bonuses: Vec::new(),
            world_bloom_different_attribute_bonuses: Vec::new(),
            world_blooms: Vec::new(),
            wb_support_deck_bonuses_wl1: Vec::new(),
            wb_support_deck_bonuses_wl2: Vec::new(),
            wb_support_deck_bonuses_wl3: Vec::new(),
            world_bloom_support_deck_unit_event_limited_bonuses: Vec::new(),
            event_mysekai_fixture_performance_bonus_limits: Vec::new(),
            event_skill_score_up_limits: Vec::new(),
            music_metas: Vec::new(),
            music_difficulties: Vec::new(),
            event_rarity_bonus_rates: Vec::new(),
            honors: Vec::new(),
            bonds_honors: Vec::new(),
        }
    }
}

impl OwnedGameData {
    /// Borrows every table.
    pub fn as_ref(&self) -> (g: GameData<'_>)
        ensures
            g.cards@ == self.cards@,
            g.card_parameters@ == self.card_parameters@,
            g.card_rarities@ == self.card_rarities@,
            g.card_episodes@ == self.card_episodes@,
            g.master_lessons@ == self.master_lessons@,
            g.skills@ == self.skills@,
            g.skill_effects@ == self.skill_effects@,
            g.area_item_levels@ == self.area_item_levels@,
            g.game_character_units@ == self.game_character_units@,
            g.character_ranks@ == self.character_ranks@,
            g.card_mysekai_canvas_bonuses@ == self.card_mysekai_canvas_bonuses@,
            g.mysekai_gates@ == self.mysekai_gates@,
            g.mysekai_gate_levels@ == self.mysekai_gate_levels@,
            g.events@ == self.events@,
            g.event_cards@ == self.event_cards@,
            g.event_deck_bonuses@ == self.event_deck_bonuses@,
            g.event_card_bonus_limits@ == self.event_card_bonus_limits@,
            g.event_honor_bonuses@ == self.event_honor_bonuses@,
            g.world_bloom_different_attribute_bonuses@ == self.world_bloom_different_attribute_bonuses@,
            g.world_blooms@ == self.world_blooms@,
            g.wb_support_deck_bonuses_wl1@ == self.wb_support_deck_bonuses_wl1@,
            g.wb_support_deck_bonuses_wl2@ == self.wb_support_deck_bonuses_wl2@,
            g.wb_support_deck_bonuses_wl3@ == self.wb_support_deck_bonuses_wl3@,
            g.world_bloom_support_deck_unit_event_limited_bonuses@ == self.world_bloom_support_deck_unit_event_limited_bonuses@,
            g.event_mysekai_fixture_performance_bonus_limits@ == self.event_mysekai_fixture_performance_bonus_limits@,
            g.event_skill_score_up_limits@ == self.event_skill_score_up_limits@,
            g.music_metas@ == self.music_metas@,
            g.music_difficulties@ == self.music_difficulties@,
            g.event_rarity_bonus_rates@ == self.event_rarity_bonus_rates@,
            g.honors@ == self.honors@,
            g.bonds_honors@ == self.bonds_honors@,
    {
        GameData {
            cards: self.cards.as_slice(),
            card_parameters: self.card_parameters.as_slice(),
            card_rarities: self.card_rarities.as_slice(),
            card_episodes: self.card_episodes.as_slice(),
            master_lessons: self.master_lessons.as_slice(),
            skills: self.skills.as_slice(),
            skill_effects: self.skill_effects.as_slice(),
            area_item_levels: self.area_item_levels.as_slice(),
            game_character_units: self.game_character_units.as_slice(),
            character_ranks: self.character_ranks.as_slice(),
            card_mysekai_canvas_bonuses: self.card_mysekai_canvas_bonuses.as_slice(),
            mysekai_gates: self.mysekai_gates.as_slice(),
            mysekai_gate_levels: self.mysekai_gate_levels.as_slice(),
            events: self.events.as_slice(),
            event_cards: self.event_cards.as_slice(),
            event_deck_bonuses: self.event_deck_bonuses.as_slice(),
            event_card_bonus_limits: self.event_card_bonus_limits.as_slice(),
            event_honor_bonuses: self.event_honor_bonuses.as_slice(),
            world_bloom_different_attribute_bonuses: self.world_bloom_different_attribute_bonuses.as_slice(),
            world_blooms: self.world_blooms.as_slice(),
            wb_support_deck_bonuses_wl1: self.wb_support_deck_bonuses_wl1.as_slice(),
            wb_support_deck_bonuses_wl2: self.wb_support_deck_bonuses_wl2.as_slice(),
            wb_support_deck_bonuses_wl3: self.wb_support_deck_bonuses_wl3.as_slice(),
            world_bloom_support_deck_unit_event_limited_bonuses: self.world_bloom_support_deck_unit_event_limited_bonuses.as_slice(),
            event_mysekai_fixture_performance_bonus_limits: self.event_mysekai_fixture_performance_bonus_limits.as_slice(),
            event_skill_score_up_limits: self.event_skill_score_up_limits.as_slice(),
            music_metas: self.music_metas.as_slice(),
            music_difficulties: self.music_difficulties.as_slice(),
            event_rarity_bonus_rates: self.event_rarity_bonus_rates.as_slice(),
            honors: self.honors.as_slice(),
            bonds_honors: self.bonds_honors.as_slice(),
        }
    }
}

/// Raw masterdata tables by file name, and the song table.
pub struct MasterdataSources {
    /// (file name, text) pairs with distinct names.
    pub tables: Vec<(String, String)>,
    pub music_metas: String,
}

/// The tables given as (name, text) pairs, a later pair replacing an
/// earlier one of the same name; names compared by their UTF-8 bytes.
pub open spec fn tables_of(pairs: Seq<(String, String)>) -> Map<Seq<u8>, Seq<char>>
    decreases pairs.len(),
{
    if pairs.len() == 0 {
        Map::empty()
    } else {
        tables_of(pairs.drop_last()).insert(encode_utf8(pairs.last().0@), pairs.last().1@)
    }
}

/// Whether the names of a table list are distinct.
pub open spec fn distinct_names(pairs: Seq<(String, String)>) -> bool {
    forall|i: int, j: int|
        0 <= i < j < pairs.len() ==> encode_utf8((#[trigger] pairs[i]).0@) != encode_utf8((#[trigger] pairs[j]).0@)
}

fn position_of(pairs: &Vec<(String, String)>, name: &str) -> (r: Option<usize>)
    ensures
        match r {
            Some(k) => k < pairs@.len() && encode_utf8(pairs@[k as int].0@) == encode_utf8(name@),
            None => forall|k: int| 0 <= k < pairs@.len() ==> encode_utf8((#[trigger] pairs@[k]).0@) != encode_utf8(name@),
        },
{
    let mut i: usize = 0;
    while i < pairs.len()
        invariant
            i <= pairs@.len(),
            forall|k: int| 0 <= k < i ==> encode_utf8((#[trigger] pairs@[k]).0@) != encode_utf8(name@),
        decreases pairs@.len() - i,
    {
        if bytes_eq(pairs[i].0.as_str().as_bytes(), name.as_bytes()) {
            return Some(i);
        }
        i = i + 1;
    }
    None
}

impl MasterdataSources {
    /// Collects the tables from (file name, text) pairs; a later pair
    /// replaces an earlier one of the same name.
    pub fn from_strings(tables: Vec<(String, String)>, music_metas: String) -> (r: Self)
        ensures
            distinct_names(r.tables@),
            tables_of(r.tables@) == tables_of(tables@),
            r.music_metas@ == music_metas@,
    {
        let ghost orig = tables@;
        let mut out: Vec<(String, String)> = Vec::new();
        let mut rest = tables;
        let mut rev: Vec<(String, String)> = Vec::new();
        while rest.len() > 0
            invariant
                rest@.len() + rev@.len() == orig.len(),
                rest@ == orig.subrange(0, rest@.len() as int),
                forall|j: int| 0 <= j < rev@.len() ==> #[trigger] rev@[j] == orig[orig.len() - 1 - j],
            decreases rest@.len(),
        {
            let ghost n0 = rest@.len();
            let p = rest.pop().unwrap();
            assert(rest@ =~= orig.subrange(0, rest@.len() as int));
            rev.push(p);
        }
        let n = rev.len();
        let mut k: usize = 0;
        assert(orig.subrange(0, 0) =~= Seq::<(String, String)>::empty());
        while k < n
            invariant
                k <= n,
                n == orig.len(),
                rev@.len() == n - k,
                forall|j: int| 0 <= j < rev@.len() ==> #[trigger] rev@[j] == orig[orig.len() - 1 - j],
                distinct_names(out@),
                tables_of(out@) == tables_of(orig.subrange(0, k as int)),
            decreases n - k,
        {
            let p = rev.pop().unwrap();
            assert(p == orig[k as int]);
            assert(orig.subrange(0, k + 1).drop_last() =~= orig.subrange(0, k as int));
            let ghost key = encode_utf8(p.0@);
            match position_of(&out, p.0.as_str()) {
                Some(pos) => {
                    let ghost before = out@;
                    let mut slot = p;
                    out.set_and_swap(pos, &mut slot);
                    proof {
                        assert(out@ == before.update(pos as int, p));
                        assert forall|i: int, j: int| 0 <= i < j < out@.len() implies encode_utf8((#[trigger] out@[i]).0@)
                            != encode_utf8((#[trigger] out@[j]).0@) by {
                            assert(before[i].0@ == out@[i].0@ || i == pos);
                        }
                        lemma_tables_update(before, pos as int, p);
                    }
                },
                None => {
                    let ghost before = out@;
                    out.push(p);
                    proof {
                        assert(out@.drop_last() =~= before);
                    }
                },
            }
            k = k + 1;
        }
        assert(orig.subrange(0, n as int) =~= orig);
        MasterdataSources { tables: out, music_metas }
    }

    /// Text of a table by file name.
    pub fn table(&self, name: &str) -> (r: Option<&str>)
        requires
            distinct_names(self.tables@),
        ensures
            match r {
                Some(t) => tables_of(self.tables@).contains_key(encode_utf8(name@)) && t@ == tables_of(self.tables@)[encode_utf8(name@)],
                None => !tables_of(self.tables@).contains_key(encode_utf8(name@)),
            },
    {
        match position_of(&self.tables, name) {
            Some(k) => {
                proof {
                    lemma_tables_lookup(self.tables@, k as int);
                }
                Some(self.tables[k].1.as_str())
            },
            None => {
                proof {
                    lemma_tables_absent(self.tables@, encode_utf8(name@));
                }
                None
            },
        }
    }
}

proof fn lemma_tables_update(s: Seq<(String, String)>, pos: int, p: (String, String))
    requires
        0 <= pos < s.len(),
        distinct_names(s),
        encode_utf8(s[pos].0@) == encode_utf8(p.0@),
    ensures
        tables_of(s.update(pos, p)) == tables_of(s).insert(encode_utf8(p.0@), p.1@),
    decreases s.len(),
{
    let k = encode_utf8(p.0@);
    if pos == s.len() - 1 {
        assert(s.update(pos, p).drop_last() =~= s.drop_last());
        assert(tables_of(s.drop_last()).insert(k, s.last().1@).insert(k, p.1@) =~= tables_of(s.drop_last()).insert(k, p.1@));
    } else {
        assert(s.update(pos, p).drop_last() =~= s.drop_last().update(pos, p));
        assert forall|i: int, j: int| 0 <= i < j < s.drop_last().len() implies encode_utf8((#[trigger] s.drop_last()[i]).0@)
            != encode_utf8((#[trigger] s.drop_last()[j]).0@) by {
            assert(s.drop_last()[i] == s[i] && s.drop_last()[j] == s[j]);
        }
        lemma_tables_update(s.drop_last(), pos, p);
        let lk = encode_utf8(s.last().0@);
        assert(lk != k) by {
            assert(s[pos] == s[pos]);
            assert(encode_utf8(s[pos].0@) != encode_utf8(s[s.len() - 1].0@));
        }
        assert(tables_of(s.update(pos, p)) =~= tables_of(s).insert(k, p.1@));
    }
}

proof fn lemma_tables_lookup(s: Seq<(String, String)>, k: int)
    requires
        0 <= k < s.len(),
        distinct_names(s),
    ensures
        tables_of(s).contains_key(encode_utf8(s[k].0@)),
        tables_of(s)[encode_utf8(s[k].0@)] == s[k].1@,
    decreases s.len(),
{
    if k < s.len() - 1 {
        assert forall|i: int, j: int| 0 <= i < j < s.drop_last().len() implies encode_utf8((#[trigger] s.drop_last()[i]).0@)
            != encode_utf8((#[trigger] s.drop_last()[j]).0@) by {
            assert(s.drop_last()[i] == s[i] && s.drop_last()[j] == s[j]);
        }
        lemma_tables_lookup(s.drop_last(), k);
        assert(encode_utf8(s[k].0@) != encode_utf8(s[s.len() - 1].0@));
    }
}

proof fn lemma_tables_absent(s: Seq<(String, String)>, key: Seq<u8>)
    requires
        forall|k: int| 0 <= k < s.len() ==> encode_utf8((#[trigger] s[k]).0@) != key,
    ensures
        !tables_of(s).contains_key(key),
    decreases s.len(),
{
    if s.len() > 0 {
        assert forall|k: int| 0 <= k < s.drop_last().len() implies encode_utf8((#[trigger] s.drop_last()[k]).0@) != key by {
            assert(s.drop_last()[k] == s[k]);
        }
        lemma_tables_absent(s.drop_last(), key);
        assert(encode_utf8(s[s.len() - 1].0@) != key);
    }
}

} // verus!
