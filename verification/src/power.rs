//! Power of a card, in integer arithmetic.
//!
//! Rates are in hundredths of a percent (`_x100`); the fixture rate is in
//! tenths of a percent. Every bonus is the floor of the exact product.

use vstd::prelude::*;
use crate::data::{
    CardEpisode, CardMysekaiCanvasBonus, CardParameter, MasterLesson, UserCard,
    AreaItemLevel, CharacterRank, GameData, MasterCard, MysekaiGate, MysekaiGateLevel, UserAreaItem,
    UserCharacter, UserFixtureBonus, UserGateBonus, UserProfile,
};
use crate::text::{is_after_training, spec_is_after_training, norm, norm_token, parse_attr_code, parse_unit_code, spec_parse_attr, spec_parse_unit};
use crate::filter::{has_unit};
use crate::types::{attr_to_pool_index, spec_attr_pool_index, spec_unit_pool_index, unit_to_pool_index};
use vstd::utf8::encode_utf8;
use crate::pool::PowerResult;
use vstd::arithmetic::div_mod::{lemma_fundamental_div_mod, lemma_fundamental_div_mod_converse, lemma_mod_bound};

verus! {

/// An area-item bonus row with its codes resolved (`None` matches all).
#[derive(Clone, Copy, Debug, PartialEq, Eq, Structural)]
pub struct AreaItemEffect {
    pub unit: Option<u8>,
    pub attr: Option<u8>,
    pub character_id: Option<i32>,
    pub power_rate_x100: i32,
    pub power_all_match_rate_x100: i32,
}

/// Player-dependent inputs of the power of every card.
pub struct PreparedPowerContext {
    /// Character rank by character id (27 entries).
    pub character_rank: Vec<i32>,
    /// Character-rank power rate by character id (27 entries).
    pub character_rate_x100: Vec<i32>,
    /// Fixture rate (tenths of a percent) by character id (27 entries).
    pub fixture_rate: Vec<i32>,
    /// Cards with the canvas bonus.
    pub canvas_cards: Vec<i32>,
    /// Area-item bonuses the player owns, in order.
    pub area_items: Vec<AreaItemEffect>,
    /// Best gate rate by group (6 entries).
    pub gate_rate_by_unit_x100: Vec<i32>,
    /// Best gate rate of gates without a group.
    pub gate_rate_universal_x100: i32,
    /// Best gate rate of any gate.
    pub gate_rate_all_x100: i32,
}

// ---------------------------------------------------------------------------
// Character rank and rate.

/// The player's rank of a character: the last row naming it, else 0.
pub open spec fn spec_character_rank(rows: Seq<UserCharacter>, ch: int) -> i32
    decreases rows.len(),
{
    if rows.len() == 0 {
        0
    } else if rows.last().character_id == ch {
        rows.last().character_rank
    } else {
        spec_character_rank(rows.drop_last(), ch)
    }
}

/// Power rate of a character rank: the row with the highest rank not
/// above it (the last of equal ranks), else 0.
pub open spec fn best_rank_row(rows: Seq<CharacterRank>, rank: i32) -> Option<CharacterRank>
    decreases rows.len(),
{
    if rows.len() == 0 {
        None
    } else {
        let prev = best_rank_row(rows.drop_last(), rank);
        let e = rows.last();
        if e.character_rank <= rank {
            match prev {
                Some(p) => if e.character_rank >= p.character_rank { Some(e) } else { prev },
                None => Some(e),
            }
        } else {
            prev
        }
    }
}

pub open spec fn spec_character_rate(rows: Seq<CharacterRank>, rank: i32) -> i32 {
    match best_rank_row(rows, rank) {
        Some(e) => e.power_bonus_rate_x100,
        None => 0,
    }
}

/// The fixture rate of a character: its first row, capped by the event's
/// limit when there is one; 0 without a row.
pub open spec fn spec_fixture_rate(rows: Seq<UserFixtureBonus>, ch: int, limit: Option<i32>) -> i32
    decreases rows.len(),
{
    if rows.len() == 0 {
        0
    } else if rows[0].character_id == ch {
        match limit {
            Some(l) => if rows[0].total_bonus_rate < l { rows[0].total_bonus_rate } else { l },
            None => rows[0].total_bonus_rate,
        }
    } else {
        spec_fixture_rate(rows.drop_first(), ch, limit)
    }
}

fn character_rank_of(rows: &Vec<UserCharacter>, ch: i32) -> (r: i32)
    ensures
        r == spec_character_rank(rows@, ch as int),
{
    let mut i = rows.len();
    assert(rows@.subrange(0, rows@.len() as int) =~= rows@);
    while i > 0
        invariant
            i <= rows@.len(),
            spec_character_rank(rows@, ch as int) == spec_character_rank(rows@.subrange(0, i as int), ch as int),
        decreases i,
    {
        assert(rows@.subrange(0, i as int).drop_last() =~= rows@.subrange(0, i - 1));
        if rows[i - 1].character_id == ch {
            return rows[i - 1].character_rank;
        }
        i = i - 1;
    }
    0
}

fn character_rate_of(rows: &[CharacterRank], rank: i32) -> (r: i32)
    ensures
        r == spec_character_rate(rows@, rank),
{
    let mut best: Option<CharacterRank> = None;
    let mut i: usize = 0;
    while i < rows.len()
        invariant
            i <= rows@.len(),
            best == best_rank_row(rows@.subrange(0, i as int), rank),
        decreases rows@.len() - i,
    {
        assert(rows@.subrange(0, i + 1).drop_last() =~= rows@.subrange(0, i as int));
        let e = rows[i];
        if e.character_rank <= rank {
            best = match best {
                Some(p) => if e.character_rank >= p.character_rank { Some(e) } else { Some(p) },
                None => Some(e),
            };
        }
        i = i + 1;
    }
    assert(rows@.subrange(0, rows@.len() as int) =~= rows@);
    match best {
        Some(e) => e.power_bonus_rate_x100,
        None => 0,
    }
}

fn fixture_rate_of(rows: &Vec<UserFixtureBonus>, ch: i32, limit: Option<i32>) -> (r: i32)
    ensures
        r == spec_fixture_rate(rows@, ch as int, limit),
{
    let mut i: usize = 0;
    assert(rows@.subrange(0, rows@.len() as int) =~= rows@);
    while i < rows.len()
        invariant
            i <= rows@.len(),
            spec_fixture_rate(rows@, ch as int, limit) == spec_fixture_rate(rows@.subrange(i as int, rows@.len() as int), ch as int, limit),
        decreases rows@.len() - i,
    {
        assert(rows@.subrange(i as int, rows@.len() as int)[0] == rows@[i as int]);
        assert(rows@.subrange(i as int, rows@.len() as int).drop_first() =~= rows@.subrange(i + 1, rows@.len() as int));
        if rows[i].character_id == ch {
            let t = rows[i].total_bonus_rate;
            return match limit {
                Some(l) => if t < l { t } else { l },
                None => t,
            };
        }
        i = i + 1;
    }
    0
}

// ---------------------------------------------------------------------------
// Area items.

/// An area-item row with its codes resolved.
pub open spec fn effect_of(row: AreaItemLevel) -> AreaItemEffect {
    AreaItemEffect {
        unit: match row.unit {
            Some(u) => match spec_parse_unit(u@) {
                Some(x) => spec_unit_pool_index(x),
                None => None,
            },
            None => None,
        },
        attr: match row.attr {
            Some(a) => match spec_parse_attr(a@) {
                Some(x) => Some(spec_attr_pool_index(x)),
                None => None,
            },
            None => None,
        },
        character_id: row.character_id,
        power_rate_x100: row.power_rate_x100,
        power_all_match_rate_x100: row.power_all_match_rate_x100,
    }
}

/// The bonus rows of an area item at a level, resolved, in order.
pub open spec fn item_effects(rows: Seq<AreaItemLevel>, id: i32, level: i32) -> Seq<AreaItemEffect>
    decreases rows.len(),
{
    if rows.len() == 0 {
        Seq::empty()
    } else {
        let r = item_effects(rows.drop_last(), id, level);
        if rows.last().area_item_id == id && rows.last().level == level {
            r.push(effect_of(rows.last()))
        } else {
            r
        }
    }
}

/// The bonus rows of every area item the player owns, in order.
pub open spec fn owned_effects(items: Seq<UserAreaItem>, rows: Seq<AreaItemLevel>) -> Seq<AreaItemEffect>
    decreases items.len(),
{
    if items.len() == 0 {
        Seq::empty()
    } else {
        owned_effects(items.drop_last(), rows) + item_effects(rows, items.last().area_item_id, items.last().level)
    }
}

fn resolve_effect(row: &AreaItemLevel) -> (r: AreaItemEffect)
    ensures
        r == effect_of(*row),
{
    let unit = match &row.unit {
        Some(u) => match parse_unit_code(u.as_str()) {
            Some(x) => unit_to_pool_index(x),
            None => None,
        },
        None => None,
    };
    let attr = match &row.attr {
        Some(a) => match parse_attr_code(a.as_str()) {
            Some(x) => attr_to_pool_index(x),
            None => None,
        },
        None => None,
    };
    AreaItemEffect {
        unit,
        attr,
        character_id: row.character_id,
        power_rate_x100: row.power_rate_x100,
        power_all_match_rate_x100: row.power_all_match_rate_x100,
    }
}

fn collect_owned_effects(items: &Vec<UserAreaItem>, rows: &[AreaItemLevel]) -> (r: Vec<AreaItemEffect>)
    ensures
        r@ == owned_effects(items@, rows@),
{
    let mut out: Vec<AreaItemEffect> = Vec::new();
    let mut i: usize = 0;
    while i < items.len()
        invariant
            i <= items@.len(),
            out@ == owned_effects(items@.subrange(0, i as int), rows@),
        decreases items@.len() - i,
    {
        assert(items@.subrange(0, i + 1).drop_last() =~= items@.subrange(0, i as int));
        let id = items[i].area_item_id;
        let level = items[i].level;
        let ghost base = out@;
        let mut j: usize = 0;
        while j < rows.len()
            invariant
                j <= rows@.len(),
                out@ == base + item_effects(rows@.subrange(0, j as int), id, level),
            decreases rows@.len() - j,
        {
            assert(rows@.subrange(0, j + 1).drop_last() =~= rows@.subrange(0, j as int));
            if rows[j].area_item_id == id && rows[j].level == level {
                let ghost before = out@;
                out.push(resolve_effect(&rows[j]));
                assert(out@ =~= base + item_effects(rows@.subrange(0, j + 1), id, level));
            }
            j = j + 1;
        }
        assert(rows@.subrange(0, rows@.len() as int) =~= rows@);
        i = i + 1;
    }
    assert(items@.subrange(0, items@.len() as int) =~= items@);
    out
}

// ---------------------------------------------------------------------------
// Gates.

/// The first gate row with an id.
pub open spec fn first_gate(rows: Seq<MysekaiGate>, id: i32) -> Option<MysekaiGate>
    decreases rows.len(),
{
    if rows.len() == 0 {
        None
    } else if rows[0].id == id {
        Some(rows[0])
    } else {
        first_gate(rows.drop_first(), id)
    }
}

/// The first gate-level row of a gate and level.
pub open spec fn first_gate_level(rows: Seq<MysekaiGateLevel>, id: i32, level: i32) -> Option<MysekaiGateLevel>
    decreases rows.len(),
{
    if rows.len() == 0 {
        None
    } else if rows[0].mysekai_gate_id == id && rows[0].level == level {
        Some(rows[0])
    } else {
        first_gate_level(rows.drop_first(), id, level)
    }
}

/// A gate bonus of the player as (group code, rate): from its gate and
/// level when both are given (none when either row is missing), else its
/// own rate when positive.
pub open spec fn spec_gate_bonus(e: UserGateBonus, game: GameData<'_>) -> Option<(Seq<char>, i32)> {
    match (e.mysekai_gate_id, e.mysekai_gate_level) {
        (Some(g), Some(l)) => match first_gate(game.mysekai_gates@, g) {
            None => None,
            Some(gate) => match first_gate_level(game.mysekai_gate_levels@, g, l) {
                None => None,
                Some(row) => Some((gate.unit@, row.power_bonus_rate_x100)),
            },
        },
        _ => if e.bonus_rate_x100 > 0 { Some((e.unit@, e.bonus_rate_x100)) } else { None },
    }
}

/// Best gate rate over the player's gate bonuses that pass `pick`.
pub open spec fn gate_rates(es: Seq<UserGateBonus>, game: GameData<'_>, which: int) -> i32
    decreases es.len(),
{
    if es.len() == 0 {
        0
    } else {
        let prev = gate_rates(es.drop_last(), game, which);
        match spec_gate_bonus(es.last(), game) {
            None => prev,
            Some((code, rate)) => {
                let counts = if which == -2 {
                    true
                } else if which == -1 {
                    norm(encode_utf8(code)).len() == 0
                } else {
                    norm(encode_utf8(code)).len() != 0 && (match spec_parse_unit(code) {
                        Some(u) => spec_unit_pool_index(u) == Some(which as u8),
                        None => false,
                    })
                };
                if counts && rate > prev { rate } else { prev }
            },
        }
    }
}

fn first_gate_exec(rows: &[MysekaiGate], id: i32) -> (r: Option<&MysekaiGate>)
    ensures
        match first_gate(rows@, id) {
            Some(g) => r == Some(&g),
            None => r is None,
        },
{
    let mut i: usize = 0;
    assert(rows@.subrange(0, rows@.len() as int) =~= rows@);
    while i < rows.len()
        invariant
            i <= rows@.len(),
            first_gate(rows@, id) == first_gate(rows@.subrange(i as int, rows@.len() as int), id),
        decreases rows@.len() - i,
    {
        assert(rows@.subrange(i as int, rows@.len() as int)[0] == rows@[i as int]);
        assert(rows@.subrange(i as int, rows@.len() as int).drop_first() =~= rows@.subrange(i + 1, rows@.len() as int));
        if rows[i].id == id {
            return Some(&rows[i]);
        }
        i = i + 1;
    }
    None
}

fn first_gate_level_exec(rows: &[MysekaiGateLevel], id: i32, level: i32) -> (r: Option<MysekaiGateLevel>)
    ensures
        r == first_gate_level(rows@, id, level),
{
    let mut i: usize = 0;
    assert(rows@.subrange(0, rows@.len() as int) =~= rows@);
    while i < rows.len()
        invariant
            i <= rows@.len(),
            first_gate_level(rows@, id, level) == first_gate_level(rows@.subrange(i as int, rows@.len() as int), id, level),
        decreases rows@.len() - i,
    {
        assert(rows@.subrange(i as int, rows@.len() as int)[0] == rows@[i as int]);
        assert(rows@.subrange(i as int, rows@.len() as int).drop_first() =~= rows@.subrange(i + 1, rows@.len() as int));
        if rows[i].mysekai_gate_id == id && rows[i].level == level {
            return Some(rows[i]);
        }
        i = i + 1;
    }
    None
}

/// Resolves one gate bonus of the player to (group code, rate).
pub fn resolve_user_gate_bonus<'a>(e: &'a UserGateBonus, game: &'a GameData<'_>) -> (r: Option<(&'a str, i32)>)
    ensures
        match spec_gate_bonus(*e, *game) {
            Some((code, rate)) => r matches Some((c, x)) && c@ == code && x == rate,
            None => r is None,
        },
{
    match (e.mysekai_gate_id, e.mysekai_gate_level) {
        (Some(g), Some(l)) => {
            let gate = match first_gate_exec(game.mysekai_gates, g) {
                Some(gate) => gate,
                None => return None,
            };
            match first_gate_level_exec(game.mysekai_gate_levels, g, l) {
                Some(row) => Some((gate.unit.as_str(), row.power_bonus_rate_x100)),
                None => None,
            }
        },
        _ => {
            if e.bonus_rate_x100 > 0 {
                Some((e.unit.as_str(), e.bonus_rate_x100))
            } else {
                None
            }
        },
    }
}

/// What the power context holds for a player.
pub open spec fn context_matches(ctx: PreparedPowerContext, user: UserProfile, game: GameData<'_>, fixture_limit: Option<i32>) -> bool {
    &&& ctx.character_rank@.len() == 27
    &&& ctx.character_rate_x100@.len() == 27
    &&& ctx.fixture_rate@.len() == 27
    &&& ctx.gate_rate_by_unit_x100@.len() == 6
    &&& forall|ch: int| 0 <= ch < 27 ==> #[trigger] ctx.character_rank@[ch] == spec_character_rank(user.user_characters@, ch)
    &&& forall|ch: int| 0 <= ch < 27 ==> #[trigger] ctx.character_rate_x100@[ch] == spec_character_rate(
        game.character_ranks@,
        spec_character_rank(user.user_characters@, ch),
    )
    &&& forall|ch: int| 0 <= ch < 27 ==> #[trigger] ctx.fixture_rate@[ch] == spec_fixture_rate(
        user.user_mysekai_fixture_bonuses@,
        ch,
        fixture_limit,
    )
    &&& ctx.canvas_cards@ == user.user_mysekai_canvas_bonus_cards@
    &&& ctx.area_items@ == owned_effects(user.user_area_items@, game.area_item_levels@)
    &&& forall|u: int| 0 <= u < 6 ==> #[trigger] ctx.gate_rate_by_unit_x100@[u] == gate_rates(user.user_mysekai_gate_bonuses@, game, u)
    &&& ctx.gate_rate_universal_x100 == gate_rates(user.user_mysekai_gate_bonuses@, game, -1)
    &&& ctx.gate_rate_all_x100 == gate_rates(user.user_mysekai_gate_bonuses@, game, -2)
}

fn gate_rate_exec(es: &Vec<UserGateBonus>, game: &GameData<'_>, which: i64) -> (r: i32)
    requires
        -2 <= which < 6,
    ensures
        r == gate_rates(es@, *game, which as int),
{
    let mut best: i32 = 0;
    let mut i: usize = 0;
    while i < es.len()
        invariant
            i <= es@.len(),
            -2 <= which < 6,
            best == gate_rates(es@.subrange(0, i as int), *game, which as int),
        decreases es@.len() - i,
    {
        assert(es@.subrange(0, i + 1).drop_last() =~= es@.subrange(0, i as int));
        if let Some((code, rate)) = resolve_user_gate_bonus(&es[i], game) {
            let blank = norm_token(code).len() == 0;
            let counts = if which == -2 {
                true
            } else if which == -1 {
                blank
            } else {
                !blank && match parse_unit_code(code) {
                    Some(u) => unit_to_pool_index(u) == Some(which as u8),
                    None => false,
                }
            };
            if counts && rate > best {
                best = rate;
            }
        }
        i = i + 1;
    }
    assert(es@.subrange(0, es@.len() as int) =~= es@);
    best
}

impl PreparedPowerContext {
    /// Gathers the player's power inputs; fixture rates are capped by the
    /// event's limit when there is one.
    pub fn new(user: &UserProfile, game: &GameData<'_>, fixture_bonus_limit: Option<i32>) -> (r: Self)
        ensures
            context_matches(r, *user, *game, fixture_bonus_limit),
    {
        let mut ranks: Vec<i32> = Vec::new();
        let mut rates: Vec<i32> = Vec::new();
        let mut fixtures: Vec<i32> = Vec::new();
        let mut ch: usize = 0;
        while ch < 27
            invariant
                ch <= 27,
                ranks@.len() == ch,
                rates@.len() == ch,
                fixtures@.len() == ch,
                forall|c: int| 0 <= c < ch ==> #[trigger] ranks@[c] == spec_character_rank(user.user_characters@, c),
                forall|c: int| 0 <= c < ch ==> #[trigger] rates@[c] == spec_character_rate(
                    game.character_ranks@,
                    spec_character_rank(user.user_characters@, c),
                ),
                forall|c: int| 0 <= c < ch ==> #[trigger] fixtures@[c] == spec_fixture_rate(
                    user.user_mysekai_fixture_bonuses@,
                    c,
                    fixture_bonus_limit,
                ),
            decreases 27 - ch,
        {
            let rank = character_rank_of(&user.user_characters, ch as i32);
            ranks.push(rank);
            rates.push(character_rate_of(game.character_ranks, rank));
            fixtures.push(fixture_rate_of(&user.user_mysekai_fixture_bonuses, ch as i32, fixture_bonus_limit));
            ch = ch + 1;
        }
        let mut by_unit: Vec<i32> = Vec::new();
        let mut u: usize = 0;
        while u < 6
            invariant
                u <= 6,
                by_unit@.len() == u,
                forall|k: int| 0 <= k < u ==> #[trigger] by_unit@[k] == gate_rates(user.user_mysekai_gate_bonuses@, *game, k),
            decreases 6 - u,
        {
            by_unit.push(gate_rate_exec(&user.user_mysekai_gate_bonuses, game, u as i64));
            u = u + 1;
        }
        PreparedPowerContext {
            character_rank: ranks,
            character_rate_x100: rates,
            fixture_rate: fixtures,
            canvas_cards: crate::data::copy_i32s(&user.user_mysekai_canvas_bonus_cards),
            area_items: collect_owned_effects(&user.user_area_items, game.area_item_levels),
            gate_rate_by_unit_x100: by_unit,
            gate_rate_universal_x100: gate_rate_exec(&user.user_mysekai_gate_bonuses, game, -1),
            gate_rate_all_x100: gate_rate_exec(&user.user_mysekai_gate_bonuses, game, -2),
        }
    }

    /// The player's rank of a character (0 outside 0..27).
    pub fn character_rank(&self, character_id: i32) -> (r: i32)
        requires
            self.character_rank@.len() == 27,
        ensures
            r == (if 0 <= character_id < 27 { self.character_rank@[character_id as int] } else { 0 }),
    {
        if 0 <= character_id && character_id < 27 {
            self.character_rank[character_id as usize]
        } else {
            0
        }
    }
}

// ---------------------------------------------------------------------------
// Power of a card.

/// Floor of `n / d` for a positive `d`.
pub fn floor_div(n: i128, d: i128) -> (r: i128)
    requires
        d > 0,
        -0x4000_0000_0000_0000_0000_0000_0000_0000 <= n <= 0x4000_0000_0000_0000_0000_0000_0000_0000,
        d <= 0x1_0000_0000,
    ensures
        r == n / d,
        n >= 0 ==> 0 <= r <= n,
        n < 0 ==> n <= r <= 0,
{
    if n >= 0 {
        proof {
            lemma_fundamental_div_mod(n as int, d as int);
            lemma_mod_bound(n as int, d as int);
            let q = n / d;
            let rem = n % d;
            assert(0 <= q <= n) by (nonlinear_arith)
                requires
                    n == d * q + rem,
                    0 <= rem < d,
                    d >= 1,
                    n >= 0,
            ;
        }
        n / d
    } else {
        let m = -n + d - 1;
        proof {
            let q = n / d;
            let rem = n % d;
            lemma_fundamental_div_mod(n as int, d as int);
            lemma_mod_bound(n as int, d as int);
            assert(m == (-q) * d + (d - 1 - rem)) by (nonlinear_arith)
                requires
                    n == d * q + rem,
                    m == -n + d - 1,
            ;
            lemma_fundamental_div_mod_converse(m as int, d as int, -q, d - 1 - rem);
            assert(n <= q <= 0) by (nonlinear_arith)
                requires
                    n == d * q + rem,
                    0 <= rem < d,
                    d >= 1,
                    n < 0,
            ;
        }
        -(m / d)
    }
}

/// The largest parameter level of a card (negatives as 0).
pub open spec fn max_param_level(rows: Seq<CardParameter>, id: i32) -> Option<int>
    decreases rows.len(),
{
    if rows.len() == 0 {
        None
    } else {
        let prev = max_param_level(rows.drop_last(), id);
        let e = rows.last();
        if e.card_id == id {
            let l = if e.level < 0 { 0 } else { e.level as int };
            match prev {
                Some(p) => Some(if l > p { l } else { p }),
                None => Some(l),
            }
        } else {
            prev
        }
    }
}

/// The parameter row in force at level `l`: among the card's rows with a
/// level in `0..=l`, the last one of the highest level.
pub open spec fn best_param(rows: Seq<CardParameter>, id: i32, l: int) -> Option<CardParameter>
    decreases rows.len(),
{
    if rows.len() == 0 {
        None
    } else {
        let prev = best_param(rows.drop_last(), id, l);
        let e = rows.last();
        if e.card_id == id && 0 <= e.level <= l {
            match prev {
                Some(p) => if e.level >= p.level { Some(e) } else { prev },
                None => Some(e),
            }
        } else {
            prev
        }
    }
}

/// Base parameters of a card at a level (at least 1, at most the card's
/// top level); zeros without rows.
pub open spec fn spec_base_power(rows: Seq<CardParameter>, id: i32, level: i32) -> (int, int, int) {
    match max_param_level(rows, id) {
        None => (0, 0, 0),
        Some(top) => {
            let q: int = if level < 1 { 1 } else { level as int };
            let l = if q < top { q } else { top };
            match best_param(rows, id, l) {
                Some(p) => (p.param1 as int, p.param2 as int, p.param3 as int),
                None => (0, 0, 0),
            }
        },
    }
}

fn base_power_exec(rows: &[CardParameter], id: i32, level: i32) -> (r: (i64, i64, i64))
    ensures
        (r.0 as int, r.1 as int, r.2 as int) == spec_base_power(rows@, id, level),
{
    let mut top: Option<i64> = None;
    let mut i: usize = 0;
    while i < rows.len()
        invariant
            i <= rows@.len(),
            top matches Some(t) ==> max_param_level(rows@.subrange(0, i as int), id) == Some(t as int),
            top is None ==> max_param_level(rows@.subrange(0, i as int), id) is None,
            top matches Some(t) ==> 0 <= t <= i32::MAX,
        decreases rows@.len() - i,
    {
        assert(rows@.subrange(0, i + 1).drop_last() =~= rows@.subrange(0, i as int));
        let e = rows[i];
        if e.card_id == id {
            let l: i64 = if e.level < 0 { 0 } else { e.level as i64 };
            top = match top {
                Some(p) => Some(if l > p { l } else { p }),
                None => Some(l),
            };
        }
        i = i + 1;
    }
    assert(rows@.subrange(0, rows@.len() as int) =~= rows@);
    let top = match top {
        Some(t) => t,
        None => return (0, 0, 0),
    };
    let q: i64 = if level < 1 { 1 } else { level as i64 };
    let l = if q < top { q } else { top };
    let mut best: Option<CardParameter> = None;
    let mut j: usize = 0;
    while j < rows.len()
        invariant
            j <= rows@.len(),
            best == best_param(rows@.subrange(0, j as int), id, l as int),
        decreases rows@.len() - j,
    {
        assert(rows@.subrange(0, j + 1).drop_last() =~= rows@.subrange(0, j as int));
        let e = rows[j];
        if e.card_id == id && 0 <= e.level && e.level as i64 <= l {
            best = match best {
                Some(p) => if e.level >= p.level { Some(e) } else { Some(p) },
                None => Some(e),
            };
        }
        j = j + 1;
    }
    assert(rows@.subrange(0, rows@.len() as int) =~= rows@);
    match best {
        Some(p) => (p.param1 as i64, p.param2 as i64, p.param3 as i64),
        None => (0, 0, 0),
    }
}

/// Bonus of the episodes of a card the player has read.
pub open spec fn read_bonus(rows: Seq<CardEpisode>, id: i32, read: Seq<i32>) -> (int, int, int)
    decreases rows.len(),
{
    if rows.len() == 0 {
        (0, 0, 0)
    } else {
        let p = read_bonus(rows.drop_last(), id, read);
        let e = rows.last();
        if e.card_id == id && read.contains(e.episode_no) {
            (p.0 + e.power1_bonus_fixed, p.1 + e.power2_bonus_fixed, p.2 + e.power3_bonus_fixed)
        } else {
            p
        }
    }
}

/// Bonus of the master ranks a card has reached.
pub open spec fn lesson_bonus(rows: Seq<MasterLesson>, rarity: i32, rank: i32) -> (int, int, int)
    decreases rows.len(),
{
    if rows.len() == 0 {
        (0, 0, 0)
    } else {
        let p = lesson_bonus(rows.drop_last(), rarity, rank);
        let e = rows.last();
        if e.card_rarity_type == rarity && e.master_rank <= rank {
            (p.0 + e.power1_bonus_fixed, p.1 + e.power2_bonus_fixed, p.2 + e.power3_bonus_fixed)
        } else {
            p
        }
    }
}

/// The first canvas-bonus row of a rarity.
pub open spec fn first_canvas(rows: Seq<CardMysekaiCanvasBonus>, rarity: i32) -> Option<CardMysekaiCanvasBonus>
    decreases rows.len(),
{
    if rows.len() == 0 {
        None
    } else if rows[0].card_rarity_type == rarity {
        Some(rows[0])
    } else {
        first_canvas(rows.drop_first(), rarity)
    }
}

/// The largest non-negative masterdata card id (0 when none).
pub open spec fn max_card_id(cards: Seq<MasterCard>) -> int
    decreases cards.len(),
{
    if cards.len() == 0 {
        0
    } else {
        let p = max_card_id(cards.drop_last());
        if cards.last().id >= 0 && cards.last().id > p { cards.last().id as int } else { p }
    }
}

/// Whether a card has the canvas bonus: its own override, else the
/// player's canvas list (ids between 0 and the largest card id).
pub open spec fn spec_has_canvas(uc: UserCard, m: MasterCard, ctx: PreparedPowerContext, game: GameData<'_>) -> bool {
    match uc.has_canvas_bonus_override {
        Some(b) => b,
        None => 0 <= m.id <= max_card_id(game.cards@) && ctx.canvas_cards@.contains(m.id),
    }
}

/// A value clamped into `i32`.
pub open spec fn clamp32(v: int) -> i32 {
    if v > i32::MAX { i32::MAX } else if v < i32::MIN { i32::MIN } else { v as i32 }
}

/// The three base dimensions of a card: parameters at its level, training,
/// read episodes, master ranks and canvas, each held in 32 bits.
pub open spec fn spec_base_dims(uc: UserCard, m: MasterCard, ctx: PreparedPowerContext, game: GameData<'_>) -> (i32, i32, i32) {
    let b = spec_base_power(game.card_parameters@, m.id, if uc.level < 1 { 1 } else { uc.level });
    let t: (int, int, int) = if spec_is_after_training(uc.special_training_status@) {
        (m.special_training_power1_bonus_fixed as int, m.special_training_power2_bonus_fixed as int, m.special_training_power3_bonus_fixed as int)
    } else {
        (0, 0, 0)
    };
    let e = read_bonus(game.card_episodes@, m.id, uc.episodes_read@);
    let l = lesson_bonus(game.master_lessons@, m.card_rarity_type, uc.master_rank);
    let c: (int, int, int) = if spec_has_canvas(uc, m, ctx, game) {
        match first_canvas(game.card_mysekai_canvas_bonuses@, m.card_rarity_type) {
            Some(r) => (r.power1_bonus_fixed as int, r.power2_bonus_fixed as int, r.power3_bonus_fixed as int),
            None => (0, 0, 0),
        }
    } else {
        (0, 0, 0)
    };
    (
        clamp32(b.0 + t.0 + e.0 + l.0 + c.0),
        clamp32(b.1 + t.1 + e.1 + l.1 + c.1),
        clamp32(b.2 + t.2 + e.2 + l.2 + c.2),
    )
}

fn read_bonus_exec(rows: &[CardEpisode], id: i32, read: &Vec<i32>) -> (r: (i128, i128, i128))
    ensures
        (r.0 as int, r.1 as int, r.2 as int) == read_bonus(rows@, id, read@),
        -0x1_0000_0000_0000_0000_0000_0000 <= r.0 <= 0x1_0000_0000_0000_0000_0000_0000,
        -0x1_0000_0000_0000_0000_0000_0000 <= r.1 <= 0x1_0000_0000_0000_0000_0000_0000,
        -0x1_0000_0000_0000_0000_0000_0000 <= r.2 <= 0x1_0000_0000_0000_0000_0000_0000,
{
    let mut acc: (i128, i128, i128) = (0, 0, 0);
    let mut i: usize = 0;
    while i < rows.len()
        invariant
            i <= rows@.len(),
            (acc.0 as int, acc.1 as int, acc.2 as int) == read_bonus(rows@.subrange(0, i as int), id, read@),
            -(i as int) * 0x8000_0000 <= acc.0 <= (i as int) * 0x8000_0000,
            -(i as int) * 0x8000_0000 <= acc.1 <= (i as int) * 0x8000_0000,
            -(i as int) * 0x8000_0000 <= acc.2 <= (i as int) * 0x8000_0000,
            i <= usize::MAX,
        decreases rows@.len() - i,
    {
        assert(rows@.subrange(0, i + 1).drop_last() =~= rows@.subrange(0, i as int));
        let e = rows[i];
        if e.card_id == id && crate::types::contains_i32(read.as_slice(), e.episode_no) {
            acc = (
                acc.0 + e.power1_bonus_fixed as i128,
                acc.1 + e.power2_bonus_fixed as i128,
                acc.2 + e.power3_bonus_fixed as i128,
            );
        }
        i = i + 1;
    }
    assert(rows@.subrange(0, rows@.len() as int) =~= rows@);
    acc
}

fn lesson_bonus_exec(rows: &[MasterLesson], rarity: i32, rank: i32) -> (r: (i128, i128, i128))
    ensures
        (r.0 as int, r.1 as int, r.2 as int) == lesson_bonus(rows@, rarity, rank),
        -0x1_0000_0000_0000_0000_0000_0000 <= r.0 <= 0x1_0000_0000_0000_0000_0000_0000,
        -0x1_0000_0000_0000_0000_0000_0000 <= r.1 <= 0x1_0000_0000_0000_0000_0000_0000,
        -0x1_0000_0000_0000_0000_0000_0000 <= r.2 <= 0x1_0000_0000_0000_0000_0000_0000,
{
    let mut acc: (i128, i128, i128) = (0, 0, 0);
    let mut i: usize = 0;
    while i < rows.len()
        invariant
            i <= rows@.len(),
            (acc.0 as int, acc.1 as int, acc.2 as int) == lesson_bonus(rows@.subrange(0, i as int), rarity, rank),
            -(i as int) * 0x8000_0000 <= acc.0 <= (i as int) * 0x8000_0000,
            -(i as int) * 0x8000_0000 <= acc.1 <= (i as int) * 0x8000_0000,
            -(i as int) * 0x8000_0000 <= acc.2 <= (i as int) * 0x8000_0000,
            i <= usize::MAX,
        decreases rows@.len() - i,
    {
        assert(rows@.subrange(0, i + 1).drop_last() =~= rows@.subrange(0, i as int));
        let e = rows[i];
        if e.card_rarity_type == rarity && e.master_rank <= rank {
            acc = (
                acc.0 + e.power1_bonus_fixed as i128,
                acc.1 + e.power2_bonus_fixed as i128,
                acc.2 + e.power3_bonus_fixed as i128,
            );
        }
        i = i + 1;
    }
    assert(rows@.subrange(0, rows@.len() as int) =~= rows@);
    acc
}

fn first_canvas_exec(rows: &[CardMysekaiCanvasBonus], rarity: i32) -> (r: Option<CardMysekaiCanvasBonus>)
    ensures
        r == first_canvas(rows@, rarity),
{
    let mut i: usize = 0;
    assert(rows@.subrange(0, rows@.len() as int) =~= rows@);
    while i < rows.len()
        invariant
            i <= rows@.len(),
            first_canvas(rows@, rarity) == first_canvas(rows@.subrange(i as int, rows@.len() as int), rarity),
        decreases rows@.len() - i,
    {
        assert(rows@.subrange(i as int, rows@.len() as int)[0] == rows@[i as int]);
        assert(rows@.subrange(i as int, rows@.len() as int).drop_first() =~= rows@.subrange(i + 1, rows@.len() as int));
        if rows[i].card_rarity_type == rarity {
            return Some(rows[i]);
        }
        i = i + 1;
    }
    None
}

fn max_card_id_exec(cards: &[MasterCard]) -> (r: i64)
    ensures
        r == max_card_id(cards@),
{
    let mut best: i64 = 0;
    let mut i: usize = 0;
    while i < cards.len()
        invariant
            i <= cards@.len(),
            best == max_card_id(cards@.subrange(0, i as int)),
            0 <= best <= i32::MAX,
        decreases cards@.len() - i,
    {
        assert(cards@.subrange(0, i + 1).drop_last() =~= cards@.subrange(0, i as int));
        let id = cards[i].id;
        if id >= 0 && id as i64 > best {
            best = id as i64;
        }
        i = i + 1;
    }
    assert(cards@.subrange(0, cards@.len() as int) =~= cards@);
    best
}

fn clamp32_exec(v: i128) -> (r: i32)
    ensures
        r == clamp32(v as int),
{
    if v > 2147483647 {
        2147483647
    } else if v < -2147483648 {
        -2147483648
    } else {
        v as i32
    }
}

/// The three base dimensions of a card (see [`spec_base_dims`]).
pub fn base_power_dims(uc: &UserCard, m: &MasterCard, ctx: &PreparedPowerContext, game: &GameData<'_>) -> (r: (i32, i32, i32))
    ensures
        r == spec_base_dims(*uc, *m, *ctx, *game),
{
    let level = if uc.level < 1 { 1 } else { uc.level };
    let b = base_power_exec(game.card_parameters, m.id, level);
    let t: (i128, i128, i128) = if is_after_training(uc.special_training_status.as_str()) {
        (
            m.special_training_power1_bonus_fixed as i128,
            m.special_training_power2_bonus_fixed as i128,
            m.special_training_power3_bonus_fixed as i128,
        )
    } else {
        (0, 0, 0)
    };
    let e = read_bonus_exec(game.card_episodes, m.id, &uc.episodes_read);
    let l = lesson_bonus_exec(game.master_lessons, m.card_rarity_type, uc.master_rank);
    let has_canvas = match uc.has_canvas_bonus_override {
        Some(v) => v,
        None => {
            let top = max_card_id_exec(game.cards);
            0 <= m.id && m.id as i64 <= top && crate::types::contains_i32(ctx.canvas_cards.as_slice(), m.id)
        },
    };
    let c: (i128, i128, i128) = if has_canvas {
        match first_canvas_exec(game.card_mysekai_canvas_bonuses, m.card_rarity_type) {
            Some(row) => (row.power1_bonus_fixed as i128, row.power2_bonus_fixed as i128, row.power3_bonus_fixed as i128),
            None => (0, 0, 0),
        }
    } else {
        (0, 0, 0)
    };
    (
        clamp32_exec(b.0 as i128 + t.0 + e.0 + l.0 + c.0),
        clamp32_exec(b.1 as i128 + t.1 + e.1 + l.1 + c.1),
        clamp32_exec(b.2 as i128 + t.2 + e.2 + l.2 + c.2),
    )
}

/// Gate rate of a card: the best rate of any gate for a pure virtual
/// singer, else the best of the group-less gates and its groups' gates.
pub open spec fn gate_rate_upto(ctx: PreparedPowerContext, mask: u8, n: int) -> i32
    decreases n,
{
    if n <= 0 {
        ctx.gate_rate_universal_x100
    } else {
        let prev = gate_rate_upto(ctx, mask, n - 1);
        if has_unit(mask, (n - 1) as u8) && ctx.gate_rate_by_unit_x100@[n - 1] > prev {
            ctx.gate_rate_by_unit_x100@[n - 1]
        } else {
            prev
        }
    }
}

pub open spec fn spec_gate_rate(ctx: PreparedPowerContext, mask: u8) -> i32 {
    if mask == 32 {
        ctx.gate_rate_all_x100
    } else {
        gate_rate_upto(ctx, mask, 6)
    }
}

fn gate_rate_of(ctx: &PreparedPowerContext, mask: u8) -> (r: i32)
    requires
        ctx.gate_rate_by_unit_x100@.len() == 6,
    ensures
        r == spec_gate_rate(*ctx, mask),
{
    if mask == 32 {
        return ctx.gate_rate_all_x100;
    }
    let mut rate = ctx.gate_rate_universal_x100;
    let mut u: usize = 0;
    while u < 6
        invariant
            u <= 6,
            ctx.gate_rate_by_unit_x100@.len() == 6,
            rate == gate_rate_upto(*ctx, mask, u as int),
        decreases 6 - u,
    {
        if crate::filter::mask_has(mask, u as u8) && ctx.gate_rate_by_unit_x100[u] > rate {
            rate = ctx.gate_rate_by_unit_x100[u];
        }
        u = u + 1;
    }
    rate
}

/// Whether an area item applies to a card playing for group `p`.
pub open spec fn item_applies(it: AreaItemEffect, character_id: i32, mask: u8, attr: u8, p: u8) -> bool {
    (match it.unit {
        None => true,
        Some(u) => u == p && has_unit(mask, u),
    }) && (match it.attr {
        None => true,
        Some(a) => a == attr,
    }) && (match it.character_id {
        None => true,
        Some(c) => c == character_id,
    })
}

/// Rate of an area item: its all-match rate when its group (or attribute)
/// is shared by the whole deck in this member kind.
pub open spec fn item_rate(it: AreaItemEffect, same_unit: bool, same_attr: bool) -> i32 {
    if (it.unit is Some && same_unit) || (it.attr is Some && same_attr) {
        it.power_all_match_rate_x100
    } else {
        it.power_rate_x100
    }
}

/// Sum over the applying area items of rate × dimension.
pub open spec fn area_sum(
    items: Seq<AreaItemEffect>,
    d: int,
    character_id: i32,
    mask: u8,
    attr: u8,
    p: u8,
    same_unit: bool,
    same_attr: bool,
) -> int
    decreases items.len(),
{
    if items.len() == 0 {
        0
    } else {
        let prev = area_sum(items.drop_last(), d, character_id, mask, attr, p, same_unit, same_attr);
        if item_applies(items.last(), character_id, mask, attr, p) {
            prev + item_rate(items.last(), same_unit, same_attr) * d
        } else {
            prev
        }
    }
}

/// Area-item bonus of a card in one profile: per dimension the floor of
/// the summed percentages.
pub open spec fn area_bonus(
    items: Seq<AreaItemEffect>,
    dims: (i32, i32, i32),
    character_id: i32,
    mask: u8,
    attr: u8,
    p: u8,
    member: int,
) -> int {
    let su = member >= 2;
    let sa = member % 2 == 1;
    area_sum(items, dims.0 as int, character_id, mask, attr, p, su, sa) / 10000
        + area_sum(items, dims.1 as int, character_id, mask, attr, p, su, sa) / 10000
        + area_sum(items, dims.2 as int, character_id, mask, attr, p, su, sa) / 10000
}

fn area_sum_exec(
    items: &Vec<AreaItemEffect>,
    d: i32,
    character_id: i32,
    mask: u8,
    attr: u8,
    p: u8,
    same_unit: bool,
    same_attr: bool,
) -> (r: i128)
    ensures
        r == area_sum(items@, d as int, character_id, mask, attr, p, same_unit, same_attr),
        -0x4000_0000_0000_0000_0000_0000_0000_0000 <= r <= 0x4000_0000_0000_0000_0000_0000_0000_0000,
{
    let mut acc: i128 = 0;
    let mut i: usize = 0;
    while i < items.len()
        invariant
            i <= items@.len(),
            acc == area_sum(items@.subrange(0, i as int), d as int, character_id, mask, attr, p, same_unit, same_attr),
            -(i as int) * 0x4000_0000_0000_0000 <= acc <= (i as int) * 0x4000_0000_0000_0000,
        decreases items@.len() - i,
    {
        assert(items@.subrange(0, i + 1).drop_last() =~= items@.subrange(0, i as int));
        let it = items[i];
        let unit_ok = match it.unit {
            None => true,
            Some(u) => u == p && crate::filter::mask_has(mask, u),
        };
        let attr_ok = match it.attr {
            None => true,
            Some(a) => a == attr,
        };
        let char_ok = match it.character_id {
            None => true,
            Some(c) => c == character_id,
        };
        if unit_ok && attr_ok && char_ok {
            let rate = if (it.unit.is_some() && same_unit) || (it.attr.is_some() && same_attr) {
                it.power_all_match_rate_x100
            } else {
                it.power_rate_x100
            };
            assert(-0x4000_0000_0000_0000 <= rate as int * d as int <= 0x4000_0000_0000_0000) by (nonlinear_arith)
                requires
                    i32::MIN <= rate <= i32::MAX,
                    i32::MIN <= d <= i32::MAX,
            ;
            let prod = rate as i128 * d as i128;
            acc = acc + prod;
        }
        i = i + 1;
    }
    assert(items@.subrange(0, items@.len() as int) =~= items@);
    acc
}

/// Character-rank rate of a character (0 outside 0..27).
pub open spec fn rate_of(v: Seq<i32>, ch: i32) -> int {
    if 0 <= ch < 27 && ch < v.len() { v[ch as int] as int } else { 0 }
}

/// Sum of the three base dimensions.
pub open spec fn dims_sum(d: (i32, i32, i32)) -> int {
    d.0 + d.1 + d.2
}

/// Character-rank bonus: per dimension the floor of the percentage.
pub open spec fn character_bonus(d: (i32, i32, i32), rate: int) -> int {
    (d.0 * rate) / 10000 + (d.1 * rate) / 10000 + (d.2 * rate) / 10000
}

/// The parts of a card's power that do not depend on the profile:
/// (base, character bonus, fixture bonus, gate bonus).
pub open spec fn common_parts(
    uc: UserCard,
    m: MasterCard,
    ctx: PreparedPowerContext,
    game: GameData<'_>,
    mask: u8,
) -> (int, int, int, int) {
    let d = spec_base_dims(uc, m, ctx, game);
    let sum = dims_sum(d);
    (
        sum,
        character_bonus(d, rate_of(ctx.character_rate_x100@, m.character_id)),
        (sum * rate_of(ctx.fixture_rate@, m.character_id)) / 1000,
        (sum * spec_gate_rate(ctx, mask)) / 10000,
    )
}

/// Total power of a card in profile `k` (group `k / 4`, member kind `k % 4`).
pub open spec fn profile_total(
    uc: UserCard,
    m: MasterCard,
    ctx: PreparedPowerContext,
    game: GameData<'_>,
    mask: u8,
    attr: u8,
    k: int,
) -> int {
    let c = common_parts(uc, m, ctx, game, mask);
    let d = spec_base_dims(uc, m, ctx, game);
    c.0 + c.1 + area_bonus(ctx.area_items@, d, m.character_id, mask, attr, (k / 4) as u8, k % 4) + c.2 + c.3
}

/// Smallest (`want_max` false) or largest profile total over the profiles
/// `0..n` of the card's groups; `None` when it has none.
pub open spec fn extreme_total(
    uc: UserCard,
    m: MasterCard,
    ctx: PreparedPowerContext,
    game: GameData<'_>,
    mask: u8,
    attr: u8,
    n: int,
    want_max: bool,
) -> Option<i32>
    decreases n,
{
    if n <= 0 {
        None
    } else {
        let prev = extreme_total(uc, m, ctx, game, mask, attr, n - 1, want_max);
        let k = n - 1;
        if has_unit(mask, (k / 4) as u8) {
            let t = clamp32(profile_total(uc, m, ctx, game, mask, attr, k));
            match prev {
                None => Some(t),
                Some(p) => Some(if want_max { if t > p { t } else { p } } else { if t < p { t } else { p } }),
            }
        } else {
            prev
        }
    }
}

/// Well-formedness of a power context.
pub open spec fn power_context_wf(ctx: PreparedPowerContext) -> bool {
    &&& ctx.character_rate_x100@.len() == 27
    &&& ctx.fixture_rate@.len() == 27
    &&& ctx.gate_rate_by_unit_x100@.len() == 6
}

/// The power of a card in every profile of its groups: each part as the
/// pool stores it, the area-item bonus per profile (0 outside the card's
/// groups), and the smallest and largest total over its profiles.
pub open spec fn power_ok(
    r: PowerResult,
    uc: UserCard,
    m: MasterCard,
    ctx: PreparedPowerContext,
    game: GameData<'_>,
    mask: u8,
    attr: u8,
) -> bool {
    &&& r.unit_mask == mask
    &&& r.base == clamp32(common_parts(uc, m, ctx, game, mask).0)
    &&& r.character_bonus == clamp32(common_parts(uc, m, ctx, game, mask).1)
    &&& r.fixture_bonus == clamp32(common_parts(uc, m, ctx, game, mask).2)
    &&& r.gate_bonus == clamp32(common_parts(uc, m, ctx, game, mask).3)
    &&& r.area_item_bonus@.len() == 24
    &&& forall|k: int| 0 <= k < 24 ==> #[trigger] r.area_item_bonus@[k] == (if has_unit(mask, (k / 4) as u8) {
        clamp32(area_bonus(ctx.area_items@, spec_base_dims(uc, m, ctx, game), m.character_id, mask, attr, (k / 4) as u8, k % 4))
    } else {
        0
    })
    &&& r.power_min == (match extreme_total(uc, m, ctx, game, mask, attr, 24, false) { Some(t) => t, None => 0 })
    &&& r.power_max == (match extreme_total(uc, m, ctx, game, mask, attr, 24, true) { Some(t) => t, None => 0 })
}

/// Builds the power of a card in every profile of its groups.
#[verifier::rlimit(60)]
pub fn build_power(
    uc: &UserCard,
    m: &MasterCard,
    ctx: &PreparedPowerContext,
    game: &GameData<'_>,
    mask: u8,
    attr: u8,
) -> (r: PowerResult)
    requires
        power_context_wf(*ctx),
    ensures
        power_ok(r, *uc, *m, *ctx, *game, mask, attr),
{
    let d = base_power_dims(uc, m, ctx, game);
    let sum: i128 = d.0 as i128 + d.1 as i128 + d.2 as i128;
    let rate: i128 = if 0 <= m.character_id && m.character_id < 27 { ctx.character_rate_x100[m.character_id as usize] as i128 } else { 0 };
    let fr: i128 = if 0 <= m.character_id && m.character_id < 27 { ctx.fixture_rate[m.character_id as usize] as i128 } else { 0 };
    let gr: i128 = gate_rate_of(ctx, mask) as i128;
    proof {
        assert(-0x4000_0000_0000_0000 <= d.0 as i128 * rate <= 0x4000_0000_0000_0000) by (nonlinear_arith)
            requires i32::MIN <= d.0 <= i32::MAX, i32::MIN <= rate <= i32::MAX;
        assert(-0x4000_0000_0000_0000 <= d.1 as i128 * rate <= 0x4000_0000_0000_0000) by (nonlinear_arith)
            requires i32::MIN <= d.1 <= i32::MAX, i32::MIN <= rate <= i32::MAX;
        assert(-0x4000_0000_0000_0000 <= d.2 as i128 * rate <= 0x4000_0000_0000_0000) by (nonlinear_arith)
            requires i32::MIN <= d.2 <= i32::MAX, i32::MIN <= rate <= i32::MAX;
        assert(-0x10_0000_0000_0000_0000 <= sum * fr <= 0x10_0000_0000_0000_0000) by (nonlinear_arith)
            requires -0x2_0000_0000 <= sum <= 0x2_0000_0000, i32::MIN <= fr <= i32::MAX;
        assert(-0x10_0000_0000_0000_0000 <= sum * gr <= 0x10_0000_0000_0000_0000) by (nonlinear_arith)
            requires -0x2_0000_0000 <= sum <= 0x2_0000_0000, i32::MIN <= gr <= i32::MAX;
    }
    let cb = floor_div(d.0 as i128 * rate, 10000) + floor_div(d.1 as i128 * rate, 10000) + floor_div(d.2 as i128 * rate, 10000);
    let fixture = floor_div(sum * fr, 1000);
    let gate = floor_div(sum * gr, 10000);
    assert(cb == common_parts(*uc, *m, *ctx, *game, mask).1);
    let mut area: Vec<i32> = Vec::new();
    let mut lo: Option<i32> = None;
    let mut hi: Option<i32> = None;
    let mut k: usize = 0;
    while k < 24
        invariant
            k <= 24,
            power_context_wf(*ctx),
            d == spec_base_dims(*uc, *m, *ctx, *game),
            sum == common_parts(*uc, *m, *ctx, *game, mask).0,
            cb == common_parts(*uc, *m, *ctx, *game, mask).1,
            fixture == common_parts(*uc, *m, *ctx, *game, mask).2,
            gate == common_parts(*uc, *m, *ctx, *game, mask).3,
            -0x2_0000_0000 <= sum <= 0x2_0000_0000,
            -0x1_0000_0000_0000_0000 <= cb <= 0x1_0000_0000_0000_0000,
            -0x10_0000_0000_0000_0000 <= fixture <= 0x10_0000_0000_0000_0000,
            -0x10_0000_0000_0000_0000 <= gate <= 0x10_0000_0000_0000_0000,
            area@.len() == k,
            forall|j: int| 0 <= j < k ==> #[trigger] area@[j] == (if has_unit(mask, (j / 4) as u8) {
                clamp32(area_bonus(ctx.area_items@, d, m.character_id, mask, attr, (j / 4) as u8, j % 4))
            } else {
                0
            }),
            lo == extreme_total(*uc, *m, *ctx, *game, mask, attr, k as int, false),
            hi == extreme_total(*uc, *m, *ctx, *game, mask, attr, k as int, true),
        decreases 24 - k,
    {
        let p = (k / 4) as u8;
        let member = k % 4;
        if crate::filter::mask_has(mask, p) {
            let su = member >= 2;
            let sa = member % 2 == 1;
            let a0 = area_sum_exec(&ctx.area_items, d.0, m.character_id, mask, attr, p, su, sa);
            let a1 = area_sum_exec(&ctx.area_items, d.1, m.character_id, mask, attr, p, su, sa);
            let a2 = area_sum_exec(&ctx.area_items, d.2, m.character_id, mask, attr, p, su, sa);
            let ab = floor_div(a0, 10000) + floor_div(a1, 10000) + floor_div(a2, 10000);
            assert(ab == area_bonus(ctx.area_items@, d, m.character_id, mask, attr, p, k as int % 4));
            let t = clamp32_exec(sum + cb + ab + fixture + gate);
            assert(t == clamp32(profile_total(*uc, *m, *ctx, *game, mask, attr, k as int)));
            area.push(clamp32_exec(ab));
            lo = match lo {
                None => Some(t),
                Some(x) => Some(if t < x { t } else { x }),
            };
            hi = match hi {
                None => Some(t),
                Some(x) => Some(if t > x { t } else { x }),
            };
        } else {
            area.push(0);
        }
        k = k + 1;
    }
    PowerResult {
        unit_mask: mask,
        base: clamp32_exec(sum),
        character_bonus: clamp32_exec(cb),
        fixture_bonus: clamp32_exec(fixture),
        gate_bonus: clamp32_exec(gate),
        area_item_bonus: area,
        power_min: match lo { Some(x) => x, None => 0 },
        power_max: match hi { Some(x) => x, None => 0 },
    }
}

} // verus!
