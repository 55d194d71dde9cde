//! Event context and the per-card event bonus.
//!
//! Bonuses are kept in tenths of a percent (`_x10`) so that the rarity and
//! master-rank bonus keeps its one-decimal precision.

use vstd::prelude::*;
use crate::data::{
    BuildParams, EventCard, EventCardBonusLimit, EventDeckBonus, EventHonorBonus,
    EventRarityBonusRate, EventSkillScoreUpLimit, GameData, GameCharacterUnit, MasterCard,
    UserCard, WorldBloomDiffAttrBonus,
};
use crate::error::BuildError;
use crate::text::{
    parse_attr_code, parse_event_type, parse_unit_code, spec_parse_attr, spec_parse_event_type,
    spec_parse_unit,
};
use crate::types::{
    attr_to_pool_index, is_world_bloom_finale_event, spec_attr_pool_index,
    spec_is_finale_event, Attr, EventType, LiveType, Unit, FINAL_CHAPTER_EVENT_ID,
};

verus! {

/// Event bonus of one card, split into the part every deck member gets and
/// the part capped by the event's limited-card count, in tenths of a percent.
#[derive(Clone, Copy, Debug, PartialEq, Eq, Structural)]
pub struct EventBonusExact {
    pub base_x10: u16,
    pub limited_x10: u16,
}

impl EventBonusExact {
    /// A bonus given in tenths of a percent.
    pub fn from_x10(base_x10: u16, limited_x10: u16) -> (r: Self)
        ensures
            r.base_x10 == base_x10,
            r.limited_x10 == limited_x10,
    {
        EventBonusExact { base_x10, limited_x10 }
    }

    /// A bonus given in whole percents.
    pub fn from_whole(base: u16, limited: u16) -> (r: Self)
        requires
            base * 10 <= u16::MAX,
            limited * 10 <= u16::MAX,
        ensures
            r.base_x10 == base * 10,
            r.limited_x10 == limited * 10,
    {
        EventBonusExact { base_x10: base * 10, limited_x10: limited * 10 }
    }

    /// No bonus at all.
    pub fn zero() -> (r: Self)
        ensures
            r.base_x10 == 0,
            r.limited_x10 == 0,
    {
        EventBonusExact { base_x10: 0, limited_x10: 0 }
    }

    pub fn base_x10(&self) -> (r: u16)
        ensures
            r == self.base_x10,
    {
        self.base_x10
    }

    pub fn limited_x10(&self) -> (r: u16)
        ensures
            r == self.limited_x10,
    {
        self.limited_x10
    }

    /// Both parts together, in tenths of a percent.
    pub fn total_x10(&self) -> (r: u32)
        ensures
            r == self.base_x10 + self.limited_x10,
    {
        self.base_x10 as u32 + self.limited_x10 as u32
    }

    /// Both parts together, in whole percents rounded up.
    pub fn total_ceil(&self) -> (r: u32)
        ensures
            r == (self.base_x10 + self.limited_x10 + 9) / 10,
    {
        (self.base_x10 as u32 + self.limited_x10 as u32 + 9) / 10
    }
}

/// A deck-bonus rule of the event with its codes parsed.
#[derive(Clone, Copy, Debug, PartialEq, Eq, Structural)]
pub struct PreparedEventDeckBonus {
    pub character_id: Option<i32>,
    pub attr: Option<u8>,
    pub unit: Option<Unit>,
    pub bonus_rate: i32,
    pub has_attr_rule: bool,
}

/// What the pool build needs to know of the event a deck is built for.
#[derive(Clone, Debug, PartialEq)]
pub struct EventContext {
    pub event_id: i32,
    pub event_type: EventType,
    /// Limited-bonus rows of the event's cards.
    pub event_cards: Vec<EventCard>,
    pub deck_bonuses: Vec<PreparedEventDeckBonus>,
    pub rarity_bonuses: Vec<EventRarityBonusRate>,
    pub honor_bonuses: Vec<EventHonorBonus>,
    /// Cap on the skill score-up points, above the 100% base.
    pub skill_score_up_limit: Option<u32>,
    /// How many deck members get their limited bonus.
    pub card_bonus_count_limit: usize,
    /// World Bloom bonus by number of distinct attributes (index 1..=5).
    pub diff_attr_bonus: Vec<u16>,
    /// Size of the World Bloom support deck.
    pub support_deck_count: u8,
    pub world_bloom_character_id: Option<i32>,
    pub world_bloom_event_turn: Option<i32>,
    /// Characters of a custom (simulated) event.
    pub custom_character_ids: Vec<i32>,
    /// Attribute of a custom (simulated) event.
    pub custom_attr: Option<Attr>,
    /// Support group a virtual singer must carry, by character id (0..27);
    /// `Unit::Unset` leaves it free.
    pub custom_support_unit_by_char: Vec<Unit>,
    /// The single group every group rule of the event names, if any.
    pub filter_unit: Option<Unit>,
}

// ---------------------------------------------------------------------------
// Group of the event.

/// Group a deck-bonus row names, if its code parses.
pub open spec fn rule_unit(e: EventDeckBonus) -> Option<Unit> {
    match e.unit {
        Some(s) => spec_parse_unit(s@),
        None => None,
    }
}

/// Groups named by the deck-bonus rows of an event, in row order.
pub open spec fn event_units(s: Seq<EventDeckBonus>, event_id: i32) -> Seq<Unit>
    decreases s.len(),
{
    if s.len() == 0 {
        Seq::empty()
    } else {
        let r = event_units(s.drop_last(), event_id);
        let e = s.last();
        if e.event_id == event_id && rule_unit(e) is Some {
            r.push(rule_unit(e)->0)
        } else {
            r
        }
    }
}

/// Whether every group of a list is its first one.
pub open spec fn all_same_unit(u: Seq<Unit>) -> bool {
    forall|i: int| 0 <= i < u.len() ==> #[trigger] u[i] == u[0]
}

/// The event's group: the one group its rules name, else the fallback code.
pub open spec fn spec_common_event_unit(u: Seq<Unit>, fallback: Option<String>) -> Option<Unit> {
    if u.len() > 0 && all_same_unit(u) {
        Some(u[0])
    } else {
        match fallback {
            Some(s) => spec_parse_unit(s@),
            None => None,
        }
    }
}

fn parse_opt_unit(s: &Option<String>) -> (r: Option<Unit>)
    ensures
        r == (match *s {
            Some(t) => spec_parse_unit(t@),
            None => None,
        }),
{
    match s {
        Some(t) => parse_unit_code(t.as_str()),
        None => None,
    }
}

/// The single group the event's deck-bonus rules name; when they name none
/// or several, the group named by `fallback`.
pub fn common_event_unit(bonuses: &[EventDeckBonus], event_id: i32, fallback: &Option<String>) -> (r:
    Option<Unit>)
    ensures
        r == spec_common_event_unit(event_units(bonuses@, event_id), *fallback),
{
    let mut first: Option<Unit> = None;
    let mut same = true;
    let mut i: usize = 0;
    while i < bonuses.len()
        invariant
            i <= bonuses@.len(),
            (first is None) == (event_units(bonuses@.subrange(0, i as int), event_id).len() == 0),
            first matches Some(u) ==> u == event_units(bonuses@.subrange(0, i as int), event_id)[0],
            same == all_same_unit(event_units(bonuses@.subrange(0, i as int), event_id)),
        decreases bonuses@.len() - i,
    {
        let ghost prev = event_units(bonuses@.subrange(0, i as int), event_id);
        assert(bonuses@.subrange(0, i + 1).drop_last() =~= bonuses@.subrange(0, i as int));
        let e = &bonuses[i];
        if e.event_id == event_id {
            let u = parse_opt_unit(&e.unit);
            if let Some(u) = u {
                match first {
                    None => {
                        first = Some(u);
                    },
                    Some(f) => {
                        if f != u {
                            same = false;
                        }
                    },
                }
                let ghost now = event_units(bonuses@.subrange(0, i + 1), event_id);
                assert(now == prev.push(u));
                assert(all_same_unit(now) == (all_same_unit(prev) && (prev.len() == 0 || u == prev[0]))) by {
                    if all_same_unit(prev) && (prev.len() == 0 || u == prev[0]) {
                        assert forall|k: int| 0 <= k < now.len() implies #[trigger] now[k] == now[0] by {
                            if k < prev.len() {
                                assert(now[k] == prev[k]);
                            }
                        }
                    }
                    if all_same_unit(now) {
                        assert forall|k: int| 0 <= k < prev.len() implies #[trigger] prev[k] == prev[0] by {
                            assert(now[k] == now[0]);
                            assert(now[k] == prev[k]);
                        }
                        if prev.len() > 0 {
                            assert(now[prev.len() as int] == now[0]);
                        }
                    }
                }
            }
        }
        i = i + 1;
    }
    assert(bonuses@.subrange(0, bonuses@.len() as int) =~= bonuses@);
    if first.is_some() && same {
        first
    } else {
        parse_opt_unit(fallback)
    }
}

// ---------------------------------------------------------------------------
// Per-event tables.

/// The attribute-count bonus row that is applied for `k` distinct attributes:
/// the last row naming `k`.
pub open spec fn last_diff_attr_row(s: Seq<WorldBloomDiffAttrBonus>, k: int) -> Option<i32>
    decreases s.len(),
{
    if s.len() == 0 {
        None
    } else if s.last().attr_count == k {
        Some(s.last().bonus_rate)
    } else {
        last_diff_attr_row(s.drop_last(), k)
    }
}

/// A bonus rate stored in 16 bits: negatives become 0, larger values wrap.
pub open spec fn rate_u16(b: i32) -> u16 {
    if b < 0 {
        0
    } else {
        (b % 65536) as u16
    }
}

/// World Bloom bonus by number of distinct attributes, as a table of six.
pub open spec fn spec_diff_attr_bonus(s: Seq<WorldBloomDiffAttrBonus>) -> Seq<u16> {
    Seq::new(
        6,
        |k: int|
            if 1 <= k <= 5 {
                match last_diff_attr_row(s, k) {
                    Some(b) => rate_u16(b),
                    None => 0u16,
                }
            } else {
                0u16
            },
    )
}

fn to_rate_u16(b: i32) -> (r: u16)
    ensures
        r == rate_u16(b),
{
    if b < 0 {
        0
    } else {
        (b % 65536) as u16
    }
}

/// Reads the World Bloom distinct-attribute bonus table.
pub fn load_diff_attr_bonus(table: &[WorldBloomDiffAttrBonus]) -> (r: Vec<u16>)
    ensures
        r@ == spec_diff_attr_bonus(table@),
{
    let mut result: Vec<u16> = vec![0u16, 0, 0, 0, 0, 0];
    let mut i: usize = 0;
    while i < table.len()
        invariant
            i <= table@.len(),
            result@.len() == 6,
            result@ == spec_diff_attr_bonus(table@.subrange(0, i as int)),
        decreases table@.len() - i,
    {
        let ghost pre = table@.subrange(0, i as int);
        let ghost post = table@.subrange(0, i + 1);
        assert(post.drop_last() =~= pre);
        let e = table[i];
        if 1 <= e.attr_count && e.attr_count <= 5 {
            let k = e.attr_count as usize;
            result.set(k, to_rate_u16(e.bonus_rate));
        }
        assert(result@ =~= spec_diff_attr_bonus(post));
        i = i + 1;
    }
    assert(table@.subrange(0, table@.len() as int) =~= table@);
    result
}

/// The first row of a table that belongs to an event.
pub open spec fn first_limit_row(s: Seq<EventCardBonusLimit>, event_id: i32) -> Option<EventCardBonusLimit>
    decreases s.len(),
{
    if s.len() == 0 {
        None
    } else if s[0].event_id == event_id {
        Some(s[0])
    } else {
        first_limit_row(s.drop_first(), event_id)
    }
}

/// How many deck members of an event get their limited bonus: the table's
/// value, else four for a World Bloom finale and five otherwise.
pub open spec fn spec_card_bonus_limit(s: Seq<EventCardBonusLimit>, event_id: i32) -> int {
    match first_limit_row(s, event_id) {
        Some(e) => if e.member_count_limit < 0 { 0 } else { e.member_count_limit as int },
        None => if spec_is_finale_event(event_id) { 4 } else { 5 },
    }
}

/// Reads how many deck members of an event get their limited bonus.
pub fn load_card_bonus_limit(table: &[EventCardBonusLimit], event_id: i32) -> (r: usize)
    ensures
        r == spec_card_bonus_limit(table@, event_id),
{
    let mut i: usize = 0;
    assert(table@.subrange(0, table@.len() as int) =~= table@);
    while i < table.len()
        invariant
            i <= table@.len(),
            first_limit_row(table@, event_id) == first_limit_row(table@.subrange(i as int, table@.len() as int), event_id),
        decreases table@.len() - i,
    {
        assert(table@.subrange(i as int, table@.len() as int).drop_first() =~= table@.subrange(i + 1, table@.len() as int));
        assert(table@.subrange(i as int, table@.len() as int)[0] == table@[i as int]);
        if table[i].event_id == event_id {
            let v = table[i].member_count_limit;
            return if v < 0 { 0 } else { v as usize };
        }
        i = i + 1;
    }
    if is_world_bloom_finale_event(event_id) {
        4
    } else {
        5
    }
}

/// The first skill-limit row of an event.
pub open spec fn first_skill_limit_row(s: Seq<EventSkillScoreUpLimit>, event_id: i32) -> Option<EventSkillScoreUpLimit>
    decreases s.len(),
{
    if s.len() == 0 {
        None
    } else if s[0].event_id == event_id {
        Some(s[0])
    } else {
        first_skill_limit_row(s.drop_first(), event_id)
    }
}

/// Score-up points above the 100% base that a stored percentage allows.
pub open spec fn points_above_base(limit: i32) -> u32 {
    if limit - 100 < 0 {
        0
    } else {
        (limit - 100) as u32
    }
}

/// Reads the skill score-up cap of an event (points above the 100% base).
pub fn load_skill_limit(table: &[EventSkillScoreUpLimit], event_id: i32) -> (r: Option<u32>)
    ensures
        r == (match first_skill_limit_row(table@, event_id) {
            Some(e) => Some(points_above_base(e.score_up_limit)),
            None => None,
        }),
{
    let mut i: usize = 0;
    assert(table@.subrange(0, table@.len() as int) =~= table@);
    while i < table.len()
        invariant
            i <= table@.len(),
            first_skill_limit_row(table@, event_id) == first_skill_limit_row(
                table@.subrange(i as int, table@.len() as int),
                event_id,
            ),
        decreases table@.len() - i,
    {
        assert(table@.subrange(i as int, table@.len() as int).drop_first() =~= table@.subrange(i + 1, table@.len() as int));
        assert(table@.subrange(i as int, table@.len() as int)[0] == table@[i as int]);
        if table[i].event_id == event_id {
            let v = table[i].score_up_limit as i64 - 100;
            return Some(if v < 0 { 0 } else { v as u32 });
        }
        i = i + 1;
    }
    None
}

/// The skill score-up cap for a build: none in challenge lives, the table's
/// value otherwise, and 140 points for a World Bloom finale the table misses.
pub open spec fn spec_skill_limit(game: GameData<'_>, params: BuildParams, event_id: i32) -> Option<u32> {
    if params.live_type == LiveType::Challenge || params.live_type == LiveType::ChallengeAuto {
        None
    } else {
        match first_skill_limit_row(game.event_skill_score_up_limits@, event_id) {
            Some(e) => Some(points_above_base(e.score_up_limit)),
            None => if spec_is_finale_event(event_id) { Some(140u32) } else { None },
        }
    }
}

/// Resolves the skill score-up cap for a build.
pub fn resolve_skill_limit(game: &GameData<'_>, params: &BuildParams, event_id: i32) -> (r: Option<u32>)
    ensures
        r == spec_skill_limit(*game, *params, event_id),
{
    if params.live_type == LiveType::Challenge || params.live_type == LiveType::ChallengeAuto {
        return None;
    }
    if let Some(limit) = load_skill_limit(game.event_skill_score_up_limits, event_id) {
        return Some(limit);
    }
    if is_world_bloom_finale_event(event_id) {
        Some(140)
    } else {
        None
    }
}

/// Size of the World Bloom support deck for a turn.
pub open spec fn spec_support_deck_count(turn: Option<i32>, event_type: EventType) -> u8 {
    if event_type != EventType::WorldBloom {
        0
    } else {
        match turn {
            Some(1) => 12,
            Some(2) => 20,
            _ => 25,
        }
    }
}

/// Size of the World Bloom support deck for a turn.
pub fn load_support_deck_count(turn: Option<i32>, event_type: EventType) -> (r: u8)
    ensures
        r == spec_support_deck_count(turn, event_type),
{
    if event_type != EventType::WorldBloom {
        return 0;
    }
    match turn {
        Some(1) => 12,
        Some(2) => 20,
        _ => 25,
    }
}

/// Whether some World Bloom row belongs to an event.
pub open spec fn has_world_bloom_row(game: GameData<'_>, event_id: i32) -> bool {
    exists|i: int| 0 <= i < game.world_blooms@.len() && (#[trigger] game.world_blooms@[i]).event_id == event_id
}

/// The World Bloom turn of a build: the request's, else derived from a
/// simulated id (above 1000), the finale, or a World Bloom event's id.
pub open spec fn spec_world_bloom_turn(game: GameData<'_>, params: BuildParams) -> Option<i32> {
    if params.world_bloom_event_turn is Some {
        params.world_bloom_event_turn
    } else {
        match params.event_id {
            None => None,
            Some(id) => if id > 1000 {
                Some(((id / 100000) % 10 + 1) as i32)
            } else if id == FINAL_CHAPTER_EVENT_ID {
                Some(2i32)
            } else if has_world_bloom_row(game, id) {
                Some(if id <= 140 { 1i32 } else { 2i32 })
            } else {
                None
            },
        }
    }
}

/// Resolves the World Bloom turn of a build.
#[verifier::loop_isolation(false)]
pub fn resolve_world_bloom_event_turn(game: &GameData<'_>, params: &BuildParams) -> (r: Option<i32>)
    ensures
        r == spec_world_bloom_turn(*game, *params),
{
    if params.world_bloom_event_turn.is_some() {
        return params.world_bloom_event_turn;
    }
    let event_id = match params.event_id {
        Some(id) => id,
        None => return None,
    };
    if event_id > 1000 {
        return Some((event_id / 100000) % 10 + 1);
    }
    if event_id == FINAL_CHAPTER_EVENT_ID {
        return Some(2);
    }
    let mut i: usize = 0;
    while i < game.world_blooms.len()
        invariant
            i <= game.world_blooms@.len(),
            forall|k: int| 0 <= k < i ==> (#[trigger] game.world_blooms@[k]).event_id != event_id,
        decreases game.world_blooms@.len() - i,
    {
        if game.world_blooms[i].event_id == event_id {
            assert(has_world_bloom_row(*game, event_id));
            return Some(if event_id <= 140 { 1 } else { 2 });
        }
        i = i + 1;
    }
    None
}

/// Chapter character of the first World Bloom row of an event.
pub open spec fn first_bloom_character(s: Seq<crate::data::WorldBloom>, event_id: i32) -> Option<i32>
    decreases s.len(),
{
    if s.len() == 0 {
        None
    } else if s[0].event_id == event_id {
        s[0].game_character_id
    } else {
        first_bloom_character(s.drop_first(), event_id)
    }
}

/// The World Bloom chapter character of a build: the request's, else the
/// event's chapter row.
pub open spec fn spec_world_bloom_character(game: GameData<'_>, params: BuildParams) -> Option<i32> {
    if params.world_bloom_character_id is Some {
        params.world_bloom_character_id
    } else {
        match params.event_id {
            None => None,
            Some(id) => first_bloom_character(game.world_blooms@, id),
        }
    }
}

/// Resolves the World Bloom chapter character of a build.
#[verifier::loop_isolation(false)]
pub fn resolve_world_bloom_character_id(game: &GameData<'_>, params: &BuildParams) -> (r: Option<i32>)
    ensures
        r == spec_world_bloom_character(*game, *params),
{
    if params.world_bloom_character_id.is_some() {
        return params.world_bloom_character_id;
    }
    let event_id = match params.event_id {
        Some(id) => id,
        None => return None,
    };
    let blooms = game.world_blooms;
    let mut i: usize = 0;
    assert(blooms@.subrange(0, blooms@.len() as int) =~= blooms@);
    while i < blooms.len()
        invariant
            i <= blooms@.len(),
            first_bloom_character(blooms@, event_id) == first_bloom_character(
                blooms@.subrange(i as int, blooms@.len() as int),
                event_id,
            ),
        decreases blooms@.len() - i,
    {
        assert(blooms@.subrange(i as int, blooms@.len() as int).drop_first() =~= blooms@.subrange(i + 1, blooms@.len() as int));
        assert(blooms@.subrange(i as int, blooms@.len() as int)[0] == blooms@[i as int]);
        if blooms[i].event_id == event_id {
            return blooms[i].game_character_id;
        }
        i = i + 1;
    }
    None
}

/// Characters of a group, in masterdata order.
pub open spec fn characters_of_unit(s: Seq<GameCharacterUnit>, unit: Unit) -> Seq<i32>
    decreases s.len(),
{
    if s.len() == 0 {
        Seq::empty()
    } else {
        let r = characters_of_unit(s.drop_last(), unit);
        if spec_parse_unit(s.last().unit@) == Some(unit) {
            r.push(s.last().game_character_id)
        } else {
            r
        }
    }
}

/// Characters of the group a code names; none when it names no group.
pub open spec fn spec_custom_character_ids(game: GameData<'_>, code: Option<String>) -> Seq<i32> {
    match code {
        Some(s) => match spec_parse_unit(s@) {
            Some(u) => characters_of_unit(game.game_character_units@, u),
            None => Seq::empty(),
        },
        None => Seq::empty(),
    }
}

/// Lists the characters of the group a code names.
pub fn custom_character_ids(game: &GameData<'_>, unit_code: &Option<String>) -> (r: Vec<i32>)
    ensures
        r@ == spec_custom_character_ids(*game, *unit_code),
{
    let unit = match parse_opt_unit(unit_code) {
        Some(u) => u,
        None => return Vec::new(),
    };
    let rows = game.game_character_units;
    let mut out: Vec<i32> = Vec::new();
    let mut i: usize = 0;
    while i < rows.len()
        invariant
            i <= rows@.len(),
            out@ == characters_of_unit(rows@.subrange(0, i as int), unit),
        decreases rows@.len() - i,
    {
        assert(rows@.subrange(0, i + 1).drop_last() =~= rows@.subrange(0, i as int));
        if parse_unit_code(rows[i].unit.as_str()) == Some(unit) {
            out.push(rows[i].game_character_id);
        }
        i = i + 1;
    }
    assert(rows@.subrange(0, rows@.len() as int) =~= rows@);
    out
}

// ---------------------------------------------------------------------------
// Rows of the event.

/// Limited-card rows of an event, in masterdata order.
pub open spec fn event_cards_of(s: Seq<EventCard>, event_id: i32) -> Seq<EventCard>
    decreases s.len(),
{
    if s.len() == 0 {
        Seq::empty()
    } else {
        let r = event_cards_of(s.drop_last(), event_id);
        if s.last().event_id == event_id { r.push(s.last()) } else { r }
    }
}

fn collect_event_cards(s: &[EventCard], event_id: i32) -> (r: Vec<EventCard>)
    ensures
        r@ == event_cards_of(s@, event_id),
{
    let mut out: Vec<EventCard> = Vec::new();
    let mut i: usize = 0;
    while i < s.len()
        invariant
            i <= s@.len(),
            out@ == event_cards_of(s@.subrange(0, i as int), event_id),
        decreases s@.len() - i,
    {
        assert(s@.subrange(0, i + 1).drop_last() =~= s@.subrange(0, i as int));
        if s[i].event_id == event_id {
            out.push(s[i]);
        }
        i = i + 1;
    }
    assert(s@.subrange(0, s@.len() as int) =~= s@);
    out
}

/// Leader honor rows of an event, in masterdata order.
pub open spec fn honor_rows_of(s: Seq<EventHonorBonus>, event_id: i32) -> Seq<EventHonorBonus>
    decreases s.len(),
{
    if s.len() == 0 {
        Seq::empty()
    } else {
        let r = honor_rows_of(s.drop_last(), event_id);
        if s.last().event_id == event_id { r.push(s.last()) } else { r }
    }
}

fn collect_honor_rows(s: &[EventHonorBonus], event_id: i32) -> (r: Vec<EventHonorBonus>)
    ensures
        r@ == honor_rows_of(s@, event_id),
{
    let mut out: Vec<EventHonorBonus> = Vec::new();
    let mut i: usize = 0;
    while i < s.len()
        invariant
            i <= s@.len(),
            out@ == honor_rows_of(s@.subrange(0, i as int), event_id),
        decreases s@.len() - i,
    {
        assert(s@.subrange(0, i + 1).drop_last() =~= s@.subrange(0, i as int));
        if s[i].event_id == event_id {
            out.push(s[i]);
        }
        i = i + 1;
    }
    assert(s@.subrange(0, s@.len() as int) =~= s@);
    out
}

/// Rarity-bonus rows of an event, in masterdata order.
pub open spec fn rarity_rows_of(s: Seq<EventRarityBonusRate>, event_id: i32) -> Seq<EventRarityBonusRate>
    decreases s.len(),
{
    if s.len() == 0 {
        Seq::empty()
    } else {
        let r = rarity_rows_of(s.drop_last(), event_id);
        if s.last().event_id == event_id { r.push(s.last()) } else { r }
    }
}

fn collect_rarity_rows(s: &[EventRarityBonusRate], event_id: i32) -> (r: Vec<EventRarityBonusRate>)
    ensures
        r@ == rarity_rows_of(s@, event_id),
{
    let mut out: Vec<EventRarityBonusRate> = Vec::new();
    let mut i: usize = 0;
    while i < s.len()
        invariant
            i <= s@.len(),
            out@ == rarity_rows_of(s@.subrange(0, i as int), event_id),
        decreases s@.len() - i,
    {
        assert(s@.subrange(0, i + 1).drop_last() =~= s@.subrange(0, i as int));
        if s[i].event_id == event_id {
            out.push(s[i]);
        }
        i = i + 1;
    }
    assert(s@.subrange(0, s@.len() as int) =~= s@);
    out
}

/// A deck-bonus row with its codes parsed.
pub open spec fn prepare_rule(e: EventDeckBonus) -> PreparedEventDeckBonus {
    PreparedEventDeckBonus {
        character_id: e.character_id,
        attr: match e.attr {
            Some(a) => match spec_parse_attr(a@) {
                Some(x) => Some(spec_attr_pool_index(x)),
                None => None,
            },
            None => None,
        },
        unit: rule_unit(e),
        bonus_rate: e.bonus_rate,
        has_attr_rule: e.attr is Some,
    }
}

/// The deck-bonus rules of an event, parsed, in masterdata order.
pub open spec fn prepared_rules_of(s: Seq<EventDeckBonus>, event_id: i32) -> Seq<PreparedEventDeckBonus>
    decreases s.len(),
{
    if s.len() == 0 {
        Seq::empty()
    } else {
        let r = prepared_rules_of(s.drop_last(), event_id);
        if s.last().event_id == event_id { r.push(prepare_rule(s.last())) } else { r }
    }
}

fn prepare_event_rule(e: &EventDeckBonus) -> (r: PreparedEventDeckBonus)
    ensures
        r == prepare_rule(*e),
{
    let attr = match &e.attr {
        Some(a) => match parse_attr_code(a.as_str()) {
            Some(x) => attr_to_pool_index(x),
            None => None,
        },
        None => None,
    };
    PreparedEventDeckBonus {
        character_id: e.character_id,
        attr,
        unit: parse_opt_unit(&e.unit),
        bonus_rate: e.bonus_rate,
        has_attr_rule: e.attr.is_some(),
    }
}

fn collect_prepared_rules(s: &[EventDeckBonus], event_id: i32) -> (r: Vec<PreparedEventDeckBonus>)
    ensures
        r@ == prepared_rules_of(s@, event_id),
{
    let mut out: Vec<PreparedEventDeckBonus> = Vec::new();
    let mut i: usize = 0;
    while i < s.len()
        invariant
            i <= s@.len(),
            out@ == prepared_rules_of(s@.subrange(0, i as int), event_id),
        decreases s@.len() - i,
    {
        assert(s@.subrange(0, i + 1).drop_last() =~= s@.subrange(0, i as int));
        if s[i].event_id == event_id {
            out.push(prepare_event_rule(&s[i]));
        }
        i = i + 1;
    }
    assert(s@.subrange(0, s@.len() as int) =~= s@);
    out
}

/// Whether a request describes a custom (simulated) event bonus.
pub open spec fn has_simulated_bonus(p: BuildParams) -> bool {
    p.event_attr is Some || p.event_unit is Some || p.custom_bonus_attr is Some
        || p.custom_bonus_character_ids@.len() > 0
}

/// Whether some rarity-bonus row belongs to an event.
pub open spec fn has_rarity_row(s: Seq<EventRarityBonusRate>, event_id: i32) -> bool {
    exists|i: int| 0 <= i < s.len() && (#[trigger] s[i]).event_id == event_id
}

/// Which event's rarity-bonus rows a build uses: its own when it has rows,
/// else those of the table's first row; none for a plain request without an
/// event id.
pub open spec fn spec_rarity_event_id(s: Seq<EventRarityBonusRate>, event_id: i32, simulated: bool) -> Option<i32> {
    if event_id == 0 && !simulated {
        None
    } else if has_rarity_row(s, event_id) {
        Some(event_id)
    } else if s.len() > 0 {
        Some(s[0].event_id)
    } else {
        None
    }
}

/// The kind of event a request names: its own code, else the kind of the
/// event row with its id.
pub open spec fn spec_resolve_event_type(game: GameData<'_>, params: BuildParams) -> Option<EventType> {
    let own = match params.event_type {
        Some(t) => spec_parse_event_type(t@),
        None => None,
    };
    if own is Some {
        own
    } else {
        match params.event_id {
            Some(id) => match first_event_row(game.events@, id) {
                Some(e) => spec_parse_event_type(e.event_type@),
                None => None,
            },
            None => None,
        }
    }
}

/// The first event row with an id.
pub open spec fn first_event_row(s: Seq<crate::data::Event>, id: i32) -> Option<crate::data::Event>
    decreases s.len(),
{
    if s.len() == 0 {
        None
    } else if s[0].id == id {
        Some(s[0])
    } else {
        first_event_row(s.drop_first(), id)
    }
}

/// Resolves the kind of event a request names.
#[verifier::loop_isolation(false)]
pub fn resolve_event_type(game: &GameData<'_>, params: &BuildParams) -> (r: Option<EventType>)
    ensures
        r == spec_resolve_event_type(*game, *params),
{
    if let Some(t) = &params.event_type {
        let own = parse_event_type(t.as_str());
        if own.is_some() {
            return own;
        }
    }
    let id = match params.event_id {
        Some(id) => id,
        None => return None,
    };
    let events = game.events;
    let mut i: usize = 0;
    assert(events@.subrange(0, events@.len() as int) =~= events@);
    while i < events.len()
        invariant
            i <= events@.len(),
            first_event_row(events@, id) == first_event_row(events@.subrange(i as int, events@.len() as int), id),
        decreases events@.len() - i,
    {
        assert(events@.subrange(i as int, events@.len() as int)[0] == events@[i as int]);
        assert(events@.subrange(i as int, events@.len() as int).drop_first() =~= events@.subrange(i + 1, events@.len() as int));
        if events[i].id == id {
            return parse_event_type(events[i].event_type.as_str());
        }
        i = i + 1;
    }
    None
}

/// The kind of event a build runs for: the named kind, else a marathon when
/// the request describes a custom event bonus.
pub open spec fn spec_build_event_type(game: GameData<'_>, params: BuildParams) -> Option<EventType> {
    match spec_resolve_event_type(game, params) {
        Some(t) => Some(t),
        None => if has_simulated_bonus(params) { Some(EventType::Marathon) } else { None },
    }
}

/// Whether a World Bloom build lacks everything its turn could come from.
pub open spec fn world_bloom_without_turn(params: BuildParams) -> bool {
    params.event_id is None && params.world_bloom_event_turn is None
        && params.world_bloom_finale_turn is None
}

/// The support group required of a virtual singer by the last rule naming
/// that character.
pub open spec fn last_support_rule(s: Seq<crate::types::CustomSupportUnit>, character: int) -> Option<Unit>
    decreases s.len(),
{
    if s.len() == 0 {
        None
    } else if s.last().character_id == character && 1 <= character <= 26 {
        Some(s.last().unit)
    } else {
        last_support_rule(s.drop_last(), character)
    }
}

/// Required support group by character id (0..27).
pub open spec fn spec_support_unit_table(s: Seq<crate::types::CustomSupportUnit>) -> Seq<Unit> {
    Seq::new(
        27,
        |k: int|
            match last_support_rule(s, k) {
                Some(u) => u,
                None => Unit::Unset,
            },
    )
}

fn support_unit_table(s: &Vec<crate::types::CustomSupportUnit>) -> (r: Vec<Unit>)
    ensures
        r@ == spec_support_unit_table(s@),
{
    let mut units: Vec<Unit> = Vec::new();
    let mut k: usize = 0;
    while k < 27
        invariant
            k <= 27,
            units@.len() == k,
            forall|j: int| 0 <= j < k ==> #[trigger] units@[j] == Unit::Unset,
        decreases 27 - k,
    {
        units.push(Unit::Unset);
        k = k + 1;
    }
    assert(units@ =~= spec_support_unit_table(s@.subrange(0, 0)));
    let mut i: usize = 0;
    while i < s.len()
        invariant
            i <= s@.len(),
            units@.len() == 27,
            units@ == spec_support_unit_table(s@.subrange(0, i as int)),
        decreases s@.len() - i,
    {
        let ghost post = s@.subrange(0, i + 1);
        assert(post.drop_last() =~= s@.subrange(0, i as int));
        let e = s[i];
        if 1 <= e.character_id && e.character_id <= 26 {
            units.set(e.character_id as usize, e.unit);
        }
        assert(units@ =~= spec_support_unit_table(post));
        i = i + 1;
    }
    assert(s@.subrange(0, s@.len() as int) =~= s@);
    units
}

/// The custom event's attribute: the custom code when given, else the
/// event attribute code.
pub open spec fn spec_custom_attr(p: BuildParams) -> Option<Attr> {
    match p.custom_bonus_attr {
        Some(a) => spec_parse_attr(a@),
        None => match p.event_attr {
            Some(a) => spec_parse_attr(a@),
            None => None,
        },
    }
}

/// Everything an event context holds, given the kind of event.
pub open spec fn context_matches(ctx: EventContext, game: GameData<'_>, params: BuildParams, t: EventType) -> bool {
    let event_id = match params.event_id { Some(id) => id, None => 0i32 };
    let turn = if t == EventType::WorldBloom {
        spec_world_bloom_turn(game, params)
    } else {
        params.world_bloom_event_turn
    };
    let rarity_id = spec_rarity_event_id(game.event_rarity_bonus_rates@, event_id, has_simulated_bonus(params));
    &&& ctx.event_id == event_id
    &&& ctx.event_type == t
    &&& ctx.event_cards@ == event_cards_of(game.event_cards@, event_id)
    &&& ctx.deck_bonuses@ == prepared_rules_of(game.event_deck_bonuses@, event_id)
    &&& ctx.rarity_bonuses@ == (match rarity_id {
        Some(id) => rarity_rows_of(game.event_rarity_bonus_rates@, id),
        None => Seq::empty(),
    })
    &&& ctx.honor_bonuses@ == honor_rows_of(game.event_honor_bonuses@, event_id)
    &&& ctx.skill_score_up_limit == spec_skill_limit(game, params, event_id)
    &&& ctx.card_bonus_count_limit == spec_card_bonus_limit(game.event_card_bonus_limits@, event_id)
    &&& ctx.diff_attr_bonus@ == (if t == EventType::WorldBloom {
        spec_diff_attr_bonus(game.world_bloom_different_attribute_bonuses@)
    } else {
        Seq::new(6, |k: int| 0u16)
    })
    &&& ctx.support_deck_count == spec_support_deck_count(turn, t)
    &&& ctx.world_bloom_character_id == spec_world_bloom_character(game, params)
    &&& ctx.world_bloom_event_turn == turn
    &&& ctx.custom_character_ids@ == (if params.custom_bonus_character_ids@.len() == 0 {
        spec_custom_character_ids(game, params.event_unit)
    } else {
        params.custom_bonus_character_ids@
    })
    &&& ctx.custom_attr == spec_custom_attr(params)
    &&& ctx.custom_support_unit_by_char@ == spec_support_unit_table(params.custom_bonus_character_support_units@)
    &&& ctx.filter_unit == spec_common_event_unit(event_units(game.event_deck_bonuses@, event_id), params.event_unit)
}

#[verifier::loop_isolation(false)]
fn rarity_event_id(s: &[EventRarityBonusRate], event_id: i32, simulated: bool) -> (r: Option<i32>)
    ensures
        r == spec_rarity_event_id(s@, event_id, simulated),
{
    if event_id == 0 && !simulated {
        return None;
    }
    let mut i: usize = 0;
    while i < s.len()
        invariant
            i <= s@.len(),
            forall|k: int| 0 <= k < i ==> (#[trigger] s@[k]).event_id != event_id,
        decreases s@.len() - i,
    {
        if s[i].event_id == event_id {
            assert(has_rarity_row(s@, event_id));
            return Some(event_id);
        }
        i = i + 1;
    }
    if s.len() > 0 {
        Some(s[0].event_id)
    } else {
        None
    }
}

/// Builds the event context of a request: `Ok(None)` when the request names
/// no event and no custom event bonus; an error for a World Bloom build
/// whose turn can come from nothing.
pub fn build_event_context(game: &GameData<'_>, params: &BuildParams) -> (r: Result<Option<EventContext>, BuildError>)
    ensures
        spec_build_event_type(*game, *params) is None ==> r matches Ok(None),
        spec_build_event_type(*game, *params) matches Some(t) ==> (
            if t == EventType::WorldBloom && world_bloom_without_turn(*params) {
                r matches Err(BuildError::InvalidConfig(_))
            } else {
                r matches Ok(Some(ctx)) && context_matches(ctx, *game, *params, t)
            }),
{
    let simulated = params.event_attr.is_some() || params.event_unit.is_some()
        || params.custom_bonus_attr.is_some() || params.custom_bonus_character_ids.len() > 0;
    let event_type = match resolve_event_type(game, params) {
        Some(t) => t,
        None => {
            if simulated {
                EventType::Marathon
            } else {
                return Ok(None);
            }
        },
    };
    if event_type == EventType::WorldBloom && params.event_id.is_none()
        && params.world_bloom_event_turn.is_none() && params.world_bloom_finale_turn.is_none() {
        return Err(
            BuildError::InvalidConfig(
                "world_bloom 模拟需要 world_bloom_event_turn（或提供真实活动 event_id）".to_owned(),
            ),
        );
    }
    let event_id = match params.event_id {
        Some(id) => id,
        None => 0,
    };
    let world_bloom_event_turn = if event_type == EventType::WorldBloom {
        resolve_world_bloom_event_turn(game, params)
    } else {
        params.world_bloom_event_turn
    };
    let filter_unit = common_event_unit(game.event_deck_bonuses, event_id, &params.event_unit);
    let deck_bonuses = collect_prepared_rules(game.event_deck_bonuses, event_id);
    let rarity_id = rarity_event_id(game.event_rarity_bonus_rates, event_id, simulated);
    let rarity_bonuses = match rarity_id {
        Some(id) => collect_rarity_rows(game.event_rarity_bonus_rates, id),
        None => Vec::new(),
    };
    let diff_attr_bonus = if event_type == EventType::WorldBloom {
        load_diff_attr_bonus(game.world_bloom_different_attribute_bonuses)
    } else {
        vec![0u16, 0, 0, 0, 0, 0]
    };
    proof {
        if event_type != EventType::WorldBloom {
            assert(diff_attr_bonus@ =~= Seq::new(6, |k: int| 0u16));
        }
    }
    let custom_ids = if params.custom_bonus_character_ids.len() == 0 {
        custom_character_ids(game, &params.event_unit)
    } else {
        crate::data::copy_i32s(&params.custom_bonus_character_ids)
    };
    let custom_attr = match &params.custom_bonus_attr {
        Some(a) => parse_attr_code(a.as_str()),
        None => match &params.event_attr {
            Some(a) => parse_attr_code(a.as_str()),
            None => None,
        },
    };
    let ctx = EventContext {
        event_id,
        event_type,
        event_cards: collect_event_cards(game.event_cards, event_id),
        deck_bonuses,
        rarity_bonuses,
        honor_bonuses: collect_honor_rows(game.event_honor_bonuses, event_id),
        skill_score_up_limit: resolve_skill_limit(game, params, event_id),
        card_bonus_count_limit: load_card_bonus_limit(game.event_card_bonus_limits, event_id),
        diff_attr_bonus,
        support_deck_count: load_support_deck_count(world_bloom_event_turn, event_type),
        world_bloom_character_id: resolve_world_bloom_character_id(game, params),
        world_bloom_event_turn,
        custom_character_ids: custom_ids,
        custom_attr,
        custom_support_unit_by_char: support_unit_table(&params.custom_bonus_character_support_units),
        filter_unit,
    };
    Ok(Some(ctx))
}

// ---------------------------------------------------------------------------
// Bonus of one card.

/// Whether a deck-bonus rule applies to a card. A virtual singer (character
/// 21 and above) matches a group rule through its support group, and matches
/// any group rule when it has none.
pub open spec fn spec_card_matches_rule(
    master: MasterCard,
    card_attr: u8,
    primary_unit: Option<Unit>,
    support_unit: Option<Unit>,
    rule: PreparedEventDeckBonus,
) -> bool {
    let character_ok = match rule.character_id {
        Some(c) => c == master.character_id,
        None => true,
    };
    let attr_ok = match rule.attr {
        Some(a) => card_attr == a,
        None => true,
    };
    let unit_ok = match rule.unit {
        Some(u) => if master.character_id >= 21 {
            match support_unit {
                Some(s) => s == u,
                None => true,
            }
        } else {
            primary_unit == Some(u)
        },
        None => true,
    };
    character_ok && attr_ok && unit_ok
}

/// Whether a deck-bonus rule applies to a card.
pub fn card_matches_rule(
    master: &MasterCard,
    card_attr: u8,
    primary_unit: Option<Unit>,
    support_unit: Option<Unit>,
    rule: &PreparedEventDeckBonus,
) -> (r: bool)
    ensures
        r == spec_card_matches_rule(*master, card_attr, primary_unit, support_unit, *rule),
{
    let character_ok = match rule.character_id {
        Some(c) => c == master.character_id,
        None => true,
    };
    let attr_ok = match rule.attr {
        Some(a) => card_attr == a,
        None => true,
    };
    let unit_ok = match rule.unit {
        Some(u) => {
            if master.character_id >= 21 {
                match support_unit {
                    Some(s) => s == u,
                    None => true,
                }
            } else {
                primary_unit == Some(u)
            }
        },
        None => true,
    };
    character_ok && attr_ok && unit_ok
}

/// The rarity-bonus row that applies to a card: among the rows of its rarity
/// whose master rank it has reached, the one with the highest rank (the last
/// of equal ranks).
pub open spec fn best_rarity_row(
    s: Seq<EventRarityBonusRate>,
    rarity: i32,
    rank: i32,
) -> Option<EventRarityBonusRate>
    decreases s.len(),
{
    if s.len() == 0 {
        None
    } else {
        let prev = best_rarity_row(s.drop_last(), rarity, rank);
        let e = s.last();
        if e.card_rarity_type == rarity && e.master_rank <= rank {
            match prev {
                Some(p) => if e.master_rank >= p.master_rank { Some(e) } else { prev },
                None => Some(e),
            }
        } else {
            prev
        }
    }
}

/// Rarity and master-rank bonus of a card, in tenths of a percent.
pub open spec fn spec_rarity_bonus_x10(rows: Seq<EventRarityBonusRate>, rarity: i32, rank: i32) -> i32 {
    match best_rarity_row(rows, rarity, rank) {
        Some(e) => e.bonus_rate_x10,
        None => 0,
    }
}

/// Rarity and master-rank bonus of a card, in tenths of a percent.
pub fn load_rarity_bonus_x10(user_card: &UserCard, master: &MasterCard, event_ctx: &EventContext) -> (r: i32)
    ensures
        r == spec_rarity_bonus_x10(event_ctx.rarity_bonuses@, master.card_rarity_type, user_card.master_rank),
{
    let rows = &event_ctx.rarity_bonuses;
    let rarity = master.card_rarity_type;
    let rank = user_card.master_rank;
    let mut best: Option<EventRarityBonusRate> = None;
    let mut i: usize = 0;
    while i < rows.len()
        invariant
            i <= rows@.len(),
            best == best_rarity_row(rows@.subrange(0, i as int), rarity, rank),
        decreases rows@.len() - i,
    {
        assert(rows@.subrange(0, i + 1).drop_last() =~= rows@.subrange(0, i as int));
        let e = rows[i];
        if e.card_rarity_type == rarity && e.master_rank <= rank {
            best = match best {
                Some(p) => if e.master_rank >= p.master_rank { Some(e) } else { Some(p) },
                None => Some(e),
            };
        }
        i = i + 1;
    }
    assert(rows@.subrange(0, rows@.len() as int) =~= rows@);
    match best {
        Some(e) => e.bonus_rate_x10,
        None => 0,
    }
}

/// Whether a card counts as a character of a custom event: its character is
/// listed and, for a character with a required support group, the card's
/// support group is that one or unrestricted.
pub open spec fn spec_custom_character_matches(
    master: MasterCard,
    support_unit: Option<Unit>,
    unrestricted: bool,
    ctx: EventContext,
) -> bool {
    let table = ctx.custom_support_unit_by_char@;
    let required = if 0 <= master.character_id < table.len() {
        table[master.character_id as int]
    } else {
        Unit::Unset
    };
    ctx.custom_character_ids@.contains(master.character_id) && (required == Unit::Unset || unrestricted
        || support_unit == Some(required))
}

/// Whether a card counts as a character of a custom event.
pub fn custom_character_matches(
    master: &MasterCard,
    support_unit: Option<Unit>,
    support_unit_unrestricted: bool,
    event_ctx: &EventContext,
) -> (r: bool)
    ensures
        r == spec_custom_character_matches(*master, support_unit, support_unit_unrestricted, *event_ctx),
{
    let ids = &event_ctx.custom_character_ids;
    let mut found = false;
    let mut i: usize = 0;
    while i < ids.len()
        invariant
            i <= ids@.len(),
            found == ids@.subrange(0, i as int).contains(master.character_id),
        decreases ids@.len() - i,
    {
        let ghost pre = ids@.subrange(0, i as int);
        assert(ids@.subrange(0, i + 1) =~= pre.push(ids@[i as int]));
        if ids[i] == master.character_id {
            found = true;
            assert(ids@.subrange(0, i + 1)[i as int] == master.character_id);
        } else {
            assert(found == ids@.subrange(0, i + 1).contains(master.character_id)) by {
                if ids@.subrange(0, i + 1).contains(master.character_id) {
                    let k = choose|k: int| 0 <= k < i + 1 && #[trigger] ids@.subrange(0, i + 1)[k] == master.character_id;
                    assert(k < i);
                    assert(pre[k] == master.character_id);
                }
            }
        }
        i = i + 1;
    }
    assert(ids@.subrange(0, ids@.len() as int) =~= ids@);
    if !found {
        return false;
    }
    let table = &event_ctx.custom_support_unit_by_char;
    let required = if 0 <= master.character_id && (master.character_id as usize) < table.len() {
        table[master.character_id as usize]
    } else {
        Unit::Unset
    };
    if required == Unit::Unset {
        return true;
    }
    support_unit_unrestricted || support_unit == Some(required)
}

/// Whether a card has the custom event's attribute.
pub open spec fn spec_custom_attr_matches(card_attr: u8, ctx: EventContext) -> bool {
    match ctx.custom_attr {
        Some(a) => card_attr == spec_attr_pool_index(a),
        None => false,
    }
}

fn custom_attr_matches(card_attr: u8, event_ctx: &EventContext) -> (r: bool)
    ensures
        r == spec_custom_attr_matches(card_attr, *event_ctx),
{
    match event_ctx.custom_attr {
        Some(a) => match attr_to_pool_index(a) {
            Some(x) => card_attr == x,
            None => false,
        },
        None => false,
    }
}

/// Custom-event bonus in half percents: 100 when both the character and the
/// attribute match, 50 when one does.
pub open spec fn custom_bonus_x2(char_match: bool, attr_match: bool) -> i32 {
    if char_match && attr_match {
        100
    } else if char_match || attr_match {
        50
    } else {
        0
    }
}

/// Custom-event bonus of a card in half percents; 0 when the event has no
/// custom characters and no custom attribute.
pub fn load_custom_bonus_x2(
    master: &MasterCard,
    card_attr: u8,
    support_unit: Option<Unit>,
    support_unit_unrestricted: bool,
    event_ctx: &EventContext,
) -> (r: i32)
    ensures
        r == (if event_ctx.custom_character_ids@.len() == 0 && event_ctx.custom_attr is None {
            0
        } else {
            custom_bonus_x2(
                spec_custom_character_matches(*master, support_unit, support_unit_unrestricted, *event_ctx),
                spec_custom_attr_matches(card_attr, *event_ctx),
            )
        }),
{
    if event_ctx.custom_character_ids.len() == 0 && event_ctx.custom_attr.is_none() {
        return 0;
    }
    let char_match = custom_character_matches(master, support_unit, support_unit_unrestricted, event_ctx);
    let attr_match = custom_attr_matches(card_attr, event_ctx);
    if char_match && attr_match {
        100
    } else if char_match || attr_match {
        50
    } else {
        0
    }
}

/// A rule's rate doubled, saturating at the bounds of `i32`.
pub open spec fn doubled_rate(rate: i32) -> int {
    if rate * 2 > i32::MAX {
        i32::MAX as int
    } else if rate * 2 < i32::MIN {
        i32::MIN as int
    } else {
        rate * 2
    }
}

/// Largest doubled rate among the rules a card matches (at least 0).
pub open spec fn deck_bonus_x2(
    rules: Seq<PreparedEventDeckBonus>,
    master: MasterCard,
    card_attr: u8,
    primary_unit: Option<Unit>,
    support_unit: Option<Unit>,
) -> int
    decreases rules.len(),
{
    if rules.len() == 0 {
        0
    } else {
        let prev = deck_bonus_x2(rules.drop_last(), master, card_attr, primary_unit, support_unit);
        if spec_card_matches_rule(master, card_attr, primary_unit, support_unit, rules.last())
            && doubled_rate(rules.last().bonus_rate) > prev {
            doubled_rate(rules.last().bonus_rate)
        } else {
            prev
        }
    }
}

/// Whether a matching rule names a character (or, with `attr`, an attribute).
pub open spec fn deck_axis_hit(
    rules: Seq<PreparedEventDeckBonus>,
    master: MasterCard,
    card_attr: u8,
    primary_unit: Option<Unit>,
    support_unit: Option<Unit>,
    attr: bool,
) -> bool {
    exists|i: int|
        0 <= i < rules.len() && spec_card_matches_rule(master, card_attr, primary_unit, support_unit, #[trigger] rules[i])
            && (if attr { rules[i].has_attr_rule } else { rules[i].character_id is Some })
}

/// A value clamped to the range of `u16`.
pub open spec fn clamp_u16(v: int) -> u16 {
    if v < 0 {
        0
    } else if v > u16::MAX {
        u16::MAX
    } else {
        v as u16
    }
}

/// The event bonus of a card: rarity bonus plus five times the half-percent
/// custom and deck bonuses, clamped to 16 bits, with the limited bonus
/// beside it; and whether the card hits the event's character axis and its
/// attribute axis.
pub open spec fn spec_card_event_bonus(
    user_card: UserCard,
    master: MasterCard,
    card_attr: u8,
    primary_unit: Option<Unit>,
    support_unit: Option<Unit>,
    unrestricted: bool,
    limited_bonus_x10: i32,
    ctx: EventContext,
) -> (EventBonusExact, bool, bool) {
    let rarity = spec_rarity_bonus_x10(ctx.rarity_bonuses@, master.card_rarity_type, user_card.master_rank);
    let cc = spec_custom_character_matches(master, support_unit, unrestricted, ctx);
    let ca = spec_custom_attr_matches(card_attr, ctx);
    let deck = deck_bonus_x2(ctx.deck_bonuses@, master, card_attr, primary_unit, support_unit);
    let base = rarity + (custom_bonus_x2(cc, ca) + deck) * 5;
    (
        EventBonusExact { base_x10: clamp_u16(base), limited_x10: clamp_u16(limited_bonus_x10 as int) },
        cc || deck_axis_hit(ctx.deck_bonuses@, master, card_attr, primary_unit, support_unit, false),
        ca || deck_axis_hit(ctx.deck_bonuses@, master, card_attr, primary_unit, support_unit, true),
    )
}

fn clamp_to_u16(v: i64) -> (r: u16)
    ensures
        r == clamp_u16(v as int),
{
    if v < 0 {
        0
    } else if v > 65535 {
        65535
    } else {
        v as u16
    }
}

/// Builds the event bonus of one card and whether it hits the event's
/// character and attribute axes.
pub fn build_card_event_bonus(
    user_card: &UserCard,
    master: &MasterCard,
    card_attr: u8,
    primary_unit: Option<Unit>,
    support_unit: Option<Unit>,
    support_unit_unrestricted: bool,
    limited_bonus_x10: i32,
    event_ctx: &EventContext,
) -> (r: (EventBonusExact, bool, bool))
    ensures
        r == spec_card_event_bonus(
            *user_card,
            *master,
            card_attr,
            primary_unit,
            support_unit,
            support_unit_unrestricted,
            limited_bonus_x10,
            *event_ctx,
        ),
{
    let rarity = load_rarity_bonus_x10(user_card, master, event_ctx);
    let cc = custom_character_matches(master, support_unit, support_unit_unrestricted, event_ctx);
    let ca = custom_attr_matches(card_attr, event_ctx);
    let custom: i32 = if cc && ca {
        100
    } else if cc || ca {
        50
    } else {
        0
    };
    let rules = &event_ctx.deck_bonuses;
    let mut deck: i64 = 0;
    let mut deck_char = false;
    let mut deck_attr = false;
    let mut i: usize = 0;
    while i < rules.len()
        invariant
            i <= rules@.len(),
            deck == deck_bonus_x2(rules@.subrange(0, i as int), *master, card_attr, primary_unit, support_unit),
            deck_char == deck_axis_hit(rules@.subrange(0, i as int), *master, card_attr, primary_unit, support_unit, false),
            deck_attr == deck_axis_hit(rules@.subrange(0, i as int), *master, card_attr, primary_unit, support_unit, true),
            0 <= deck <= i32::MAX,
        decreases rules@.len() - i,
    {
        let ghost pre = rules@.subrange(0, i as int);
        let ghost post = rules@.subrange(0, i + 1);
        assert(post.drop_last() =~= pre);
        assert(post =~= pre.push(rules@[i as int]));
        let rule = rules[i];
        let m = card_matches_rule(master, card_attr, primary_unit, support_unit, &rule);
        if m {
            let d = rule.bonus_rate as i64 * 2;
            let d = if d > 2147483647 { 2147483647 } else if d < -2147483648 { -2147483648 } else { d };
            if d > deck {
                deck = d;
            }
            if rule.character_id.is_some() {
                deck_char = true;
            }
            if rule.has_attr_rule {
                deck_attr = true;
            }
        }
        proof {
            if m && rule.character_id is Some {
                assert(post[i as int] == rule);
            }
            if m && rule.has_attr_rule {
                assert(post[i as int] == rule);
            }
            assert forall|b: bool| deck_axis_hit(post, *master, card_attr, primary_unit, support_unit, b)
                == (deck_axis_hit(pre, *master, card_attr, primary_unit, support_unit, b) || (
                    spec_card_matches_rule(*master, card_attr, primary_unit, support_unit, rule)
                        && (if b { rule.has_attr_rule } else { rule.character_id is Some }))) by {
                if deck_axis_hit(post, *master, card_attr, primary_unit, support_unit, b) {
                    let k = choose|k: int| 0 <= k < post.len() && spec_card_matches_rule(*master, card_attr, primary_unit, support_unit, #[trigger] post[k])
                        && (if b { post[k].has_attr_rule } else { post[k].character_id is Some });
                    if k < i {
                        assert(pre[k] == post[k]);
                    }
                }
                if deck_axis_hit(pre, *master, card_attr, primary_unit, support_unit, b) {
                    let k = choose|k: int| 0 <= k < pre.len() && spec_card_matches_rule(*master, card_attr, primary_unit, support_unit, #[trigger] pre[k])
                        && (if b { pre[k].has_attr_rule } else { pre[k].character_id is Some });
                    assert(pre[k] == post[k]);
                }
                if spec_card_matches_rule(*master, card_attr, primary_unit, support_unit, rule)
                    && (if b { rule.has_attr_rule } else { rule.character_id is Some }) {
                    assert(post[i as int] == rule);
                }
            }
        }
        i = i + 1;
    }
    assert(rules@.subrange(0, rules@.len() as int) =~= rules@);
    let base: i64 = rarity as i64 + (custom as i64 + deck) * 5;
    (
        EventBonusExact { base_x10: clamp_to_u16(base), limited_x10: clamp_to_u16(limited_bonus_x10 as i64) },
        cc || deck_char,
        ca || deck_attr,
    )
}

} // verus!
