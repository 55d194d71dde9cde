//! Per-card masterdata prepared once for repeated pool builds.

use vstd::prelude::*;
use crate::card_config::{enrich_master, spec_enrich};
use crate::data::{GameCharacterUnit, GameData, Honor, MasterCard, MasterCardView};
use crate::text::{is_blank_or_none, parse_attr_code, parse_unit_code, spec_is_blank_or_none, spec_parse_attr, spec_parse_unit};
use crate::types::{attr_to_pool_index, spec_attr_pool_index, spec_unit_pool_index, unit_to_pool_index, Unit};

verus! {

/// A masterdata card with its groups and attribute resolved.
#[derive(Clone, Debug, PartialEq)]
pub struct CardData {
    /// The card with its level, skill and master-rank maxima filled in.
    pub master: MasterCard,
    /// Groups the card can play for (bit per pool index).
    pub unit_mask: u8,
    /// Pool index of the attribute, when it parses.
    pub attr: Option<u8>,
    pub primary_unit: Option<Unit>,
    pub support_unit: Option<Unit>,
    /// Whether a virtual singer may play for any group.
    pub support_unit_unrestricted: bool,
}

/// Prepared data of every masterdata card, in masterdata order.
pub struct PoolIndexes {
    pub cards: Vec<CardData>,
}

/// Group of a character: its first group row, parsed.
pub open spec fn primary_unit_of(rows: Seq<GameCharacterUnit>, character_id: i32) -> Option<Unit>
    decreases rows.len(),
{
    if rows.len() == 0 {
        None
    } else if rows[0].game_character_id == character_id {
        spec_parse_unit(rows[0].unit@)
    } else {
        primary_unit_of(rows.drop_first(), character_id)
    }
}

/// Support group of a card, parsed.
pub open spec fn support_unit_of(m: MasterCard) -> Option<Unit> {
    match m.support_unit {
        Some(s) => spec_parse_unit(s@),
        None => None,
    }
}

/// Whether a virtual singer's support group leaves it free.
pub open spec fn support_unrestricted(m: MasterCard) -> bool {
    match m.support_unit {
        Some(s) => spec_is_blank_or_none(s@),
        None => true,
    }
}

/// Groups a card can play for: its character's group and, for a virtual
/// singer, its support group.
pub open spec fn spec_unit_mask(primary: Option<Unit>, support: Option<Unit>) -> u8 {
    match primary {
        None => 0,
        Some(p) => {
            let own: u8 = match spec_unit_pool_index(p) {
                Some(i) => (1u8 << i),
                None => 0u8,
            };
            if p == Unit::Piapro {
                match support {
                    Some(s) => if s != Unit::Piapro && spec_unit_pool_index(s) is Some {
                        own | (1u8 << spec_unit_pool_index(s)->0)
                    } else {
                        own
                    },
                    None => own,
                }
            } else {
                own
            }
        },
    }
}

/// The prepared data of a masterdata card.
pub open spec fn card_data_matches(d: CardData, m: MasterCard, game: GameData<'_>) -> bool {
    let primary = primary_unit_of(game.game_character_units@, m.character_id);
    &&& d.master@ == spec_enrich(m@, game.card_rarities@, game.master_lessons@)
    &&& d.primary_unit == primary
    &&& d.support_unit == support_unit_of(m)
    &&& d.support_unit_unrestricted == support_unrestricted(m)
    &&& d.unit_mask == spec_unit_mask(primary, support_unit_of(m))
    &&& d.attr == (match spec_parse_attr(m.attr@) {
        Some(a) => Some(spec_attr_pool_index(a)),
        None => None,
    })
}

/// Whether prepared data belongs to a masterdata snapshot.
pub open spec fn indexes_wf(idx: PoolIndexes, game: GameData<'_>) -> bool {
    &&& idx.cards@.len() == game.cards@.len()
    &&& forall|k: int| 0 <= k < idx.cards@.len() ==> #[trigger] card_data_matches(idx.cards@[k], game.cards@[k], game)
}

fn primary_unit_exec(rows: &[GameCharacterUnit], character_id: i32) -> (r: Option<Unit>)
    ensures
        r == primary_unit_of(rows@, character_id),
{
    let mut i: usize = 0;
    assert(rows@.subrange(0, rows@.len() as int) =~= rows@);
    while i < rows.len()
        invariant
            i <= rows@.len(),
            primary_unit_of(rows@, character_id) == primary_unit_of(rows@.subrange(i as int, rows@.len() as int), character_id),
        decreases rows@.len() - i,
    {
        assert(rows@.subrange(i as int, rows@.len() as int)[0] == rows@[i as int]);
        assert(rows@.subrange(i as int, rows@.len() as int).drop_first() =~= rows@.subrange(i + 1, rows@.len() as int));
        if rows[i].game_character_id == character_id {
            return parse_unit_code(rows[i].unit.as_str());
        }
        i = i + 1;
    }
    None
}

fn unit_mask_exec(primary: Option<Unit>, support: Option<Unit>) -> (r: u8)
    ensures
        r == spec_unit_mask(primary, support),
{
    match primary {
        None => 0,
        Some(p) => {
            let own: u8 = match unit_to_pool_index(p) {
                Some(i) => 1u8 << i,
                None => 0,
            };
            if p == Unit::Piapro {
                match support {
                    Some(s) => {
                        if s != Unit::Piapro {
                            match unit_to_pool_index(s) {
                                Some(j) => own | (1u8 << j),
                                None => own,
                            }
                        } else {
                            own
                        }
                    },
                    None => own,
                }
            } else {
                own
            }
        },
    }
}

/// Prepares one masterdata card.
pub fn prepare_card(m: &MasterCard, game: &GameData<'_>) -> (d: CardData)
    ensures
        card_data_matches(d, *m, *game),
{
    let primary = primary_unit_exec(game.game_character_units, m.character_id);
    let support = match &m.support_unit {
        Some(s) => parse_unit_code(s.as_str()),
        None => None,
    };
    let unrestricted = match &m.support_unit {
        Some(s) => is_blank_or_none(s.as_str()),
        None => true,
    };
    let attr = match parse_attr_code(m.attr.as_str()) {
        Some(a) => attr_to_pool_index(a),
        None => None,
    };
    CardData {
        master: enrich_master(m, game),
        unit_mask: unit_mask_exec(primary, support),
        attr,
        primary_unit: primary,
        support_unit: support,
        support_unit_unrestricted: unrestricted,
    }
}

/// The first masterdata position of a card id.
pub open spec fn first_card_pos(cards: Seq<MasterCard>, id: i32) -> Option<int>
    decreases cards.len(),
{
    if cards.len() == 0 {
        None
    } else if cards.last().id == id && first_card_pos(cards.drop_last(), id) is None {
        Some(cards.len() - 1)
    } else {
        first_card_pos(cards.drop_last(), id)
    }
}

impl PoolIndexes {
    /// Prepares every masterdata card.
    pub fn build(game: &GameData<'_>) -> (r: Self)
        ensures
            indexes_wf(r, *game),
    {
        let mut cards: Vec<CardData> = Vec::new();
        let mut i: usize = 0;
        while i < game.cards.len()
            invariant
                i <= game.cards@.len(),
                cards@.len() == i,
                forall|k: int| 0 <= k < i ==> #[trigger] card_data_matches(cards@[k], game.cards@[k], *game),
            decreases game.cards@.len() - i,
        {
            cards.push(prepare_card(&game.cards[i], game));
            i = i + 1;
        }
        PoolIndexes { cards }
    }

    /// The prepared data of the first masterdata card with an id.
    pub fn card_data(&self, game: &GameData<'_>, card_id: i32) -> (r: Option<&CardData>)
        requires
            indexes_wf(*self, *game),
        ensures
            match first_card_pos(game.cards@, card_id) {
                Some(k) => r == Some(&self.cards@[k]),
                None => r is None,
            },
    {
        let mut i: usize = 0;
        while i < self.cards.len()
            invariant
                i <= self.cards@.len(),
                indexes_wf(*self, *game),
                first_card_pos(game.cards@.subrange(0, i as int), card_id) is None,
            decreases self.cards@.len() - i,
        {
            assert(game.cards@.subrange(0, i + 1).drop_last() =~= game.cards@.subrange(0, i as int));
            assert(card_data_matches(self.cards@[i as int], game.cards@[i as int], *game));
            if self.cards[i].master.id == card_id {
                assert(self.cards@[i as int].master@.id == game.cards@[i as int].id);
                assert(first_card_pos(game.cards@.subrange(0, i + 1), card_id) == Some(i as int));
                proof {
                    lemma_first_pos_extends(game.cards@, i as int + 1, card_id);
                }
                return Some(&self.cards[i]);
            }
            assert(self.cards@[i as int].master@.id == game.cards@[i as int].id);
            i = i + 1;
        }
        assert(game.cards@.subrange(0, i as int) =~= game.cards@);
        None
    }
}

impl PoolIndexes {
    /// Position of the first masterdata card with an id.
    pub fn card_index(&self, game: &GameData<'_>, card_id: i32) -> (r: Option<usize>)
        requires
            indexes_wf(*self, *game),
        ensures
            r matches Some(k) ==> k < self.cards@.len() && first_card_pos(game.cards@, card_id) == Some(k as int),
            r is None ==> first_card_pos(game.cards@, card_id) is None,
    {
        let mut i: usize = 0;
        while i < self.cards.len()
            invariant
                i <= self.cards@.len(),
                indexes_wf(*self, *game),
                first_card_pos(game.cards@.subrange(0, i as int), card_id) is None,
            decreases self.cards@.len() - i,
        {
            assert(game.cards@.subrange(0, i + 1).drop_last() =~= game.cards@.subrange(0, i as int));
            assert(card_data_matches(self.cards@[i as int], game.cards@[i as int], *game));
            assert(self.cards@[i as int].master@.id == game.cards@[i as int].id);
            if self.cards[i].master.id == card_id {
                assert(first_card_pos(game.cards@.subrange(0, i + 1), card_id) == Some(i as int));
                proof {
                    lemma_first_pos_extends(game.cards@, i as int + 1, card_id);
                }
                return Some(i);
            }
            i = i + 1;
        }
        assert(game.cards@.subrange(0, i as int) =~= game.cards@);
        None
    }
}

proof fn lemma_first_pos_extends(cards: Seq<MasterCard>, upto: int, id: i32)
    requires
        0 <= upto <= cards.len(),
        first_card_pos(cards.subrange(0, upto), id) is Some,
    ensures
        first_card_pos(cards, id) == first_card_pos(cards.subrange(0, upto), id),
    decreases cards.len() - upto,
{
    if upto < cards.len() {
        assert(cards.subrange(0, upto + 1).drop_last() =~= cards.subrange(0, upto));
        lemma_first_pos_extends(cards, upto + 1, id);
    } else {
        assert(cards.subrange(0, upto) =~= cards);
    }
}

/// Title bonus of an owned title level: the first level row of the first
/// title with the id (negatives count as 0).
pub open spec fn spec_honor_bonus(honors: Seq<Honor>, honor_id: i32, level: i32) -> u32
    decreases honors.len(),
{
    if honors.len() == 0 {
        0
    } else if honors[0].id == honor_id && level_row(honors[0].levels@, level) is Some {
        let b = level_row(honors[0].levels@, level)->0;
        if b < 0 { 0 } else { b as u32 }
    } else {
        spec_honor_bonus(honors.drop_first(), honor_id, level)
    }
}

/// Bonus of the first row of a level.
pub open spec fn level_row(levels: Seq<crate::data::HonorLevel>, level: i32) -> Option<i32>
    decreases levels.len(),
{
    if levels.len() == 0 {
        None
    } else if levels[0].level == level {
        Some(levels[0].bonus)
    } else {
        level_row(levels.drop_first(), level)
    }
}

fn level_row_exec(levels: &Vec<crate::data::HonorLevel>, level: i32) -> (r: Option<i32>)
    ensures
        r == level_row(levels@, level),
{
    let mut i: usize = 0;
    assert(levels@.subrange(0, levels@.len() as int) =~= levels@);
    while i < levels.len()
        invariant
            i <= levels@.len(),
            level_row(levels@, level) == level_row(levels@.subrange(i as int, levels@.len() as int), level),
        decreases levels@.len() - i,
    {
        assert(levels@.subrange(i as int, levels@.len() as int)[0] == levels@[i as int]);
        assert(levels@.subrange(i as int, levels@.len() as int).drop_first() =~= levels@.subrange(i + 1, levels@.len() as int));
        if levels[i].level == level {
            return Some(levels[i].bonus);
        }
        i = i + 1;
    }
    None
}

/// Title bonus of an owned title at a level.
pub fn honor_bonus(honors: &[Honor], honor_id: i32, level: i32) -> (r: u32)
    ensures
        r == spec_honor_bonus(honors@, honor_id, level),
{
    let mut i: usize = 0;
    assert(honors@.subrange(0, honors@.len() as int) =~= honors@);
    while i < honors.len()
        invariant
            i <= honors@.len(),
            spec_honor_bonus(honors@, honor_id, level) == spec_honor_bonus(
                honors@.subrange(i as int, honors@.len() as int),
                honor_id,
                level,
            ),
        decreases honors@.len() - i,
    {
        assert(honors@.subrange(i as int, honors@.len() as int)[0] == honors@[i as int]);
        assert(honors@.subrange(i as int, honors@.len() as int).drop_first() =~= honors@.subrange(i + 1, honors@.len() as int));
        if honors[i].id == honor_id {
            if let Some(b) = level_row_exec(&honors[i].levels, level) {
                return if b < 0 { 0 } else { b as u32 };
            }
        }
        i = i + 1;
    }
    0
}

} // verus!
