//! Raw masterdata rows as the game files hold them, and their assembly into
//! the tables the pool builder reads.
//!
//! Rates that the files write as decimals arrive here already scaled to the
//! integer units of [`crate::data`].

use vstd::prelude::*;
use vstd::string::{StrSliceExecFns, StringExecFns};
use crate::text::{lower_chars, lower_matches, str_eq, trim_str, trimmed};
use crate::data::{
    AreaItemLevel, BondsHonor, CardEpisode, CardMysekaiCanvasBonus, CardParameter, CardRarity,
    CharacterRank, Event, EventCard, EventCardBonusLimit, EventDeckBonus, EventFixtureBonusLimit,
    EventHonorBonus, EventRarityBonusRate, EventSkillScoreUpLimit, GameCharacterUnit, Honor,
    MasterCard, MasterCardView, MasterLesson, MusicDifficulty, MusicMeta, MysekaiGate, MysekaiGateLevel,
    Skill, SkillEffect, WBSupportDeckBonus, WBSupportDeckUnitEventLimitedBonus, WorldBloom,
    WorldBloomDiffAttrBonus,
};
use crate::owned::OwnedGameData;
use crate::order::{is_order, key_views, lemma_lex_irrefl, lex_lt, permute, stable_order};

verus! {

/// The characters of an optional string.
pub open spec fn opt_chars(o: Option<String>) -> Option<Seq<char>> {
    match o {
        Some(s) => Some(s@),
        None => None,
    }
}

/// The word `none`.
pub open spec fn none_word() -> Seq<char> {
    seq!['n', 'o', 'n', 'e']
}

/// The word `any`.
pub open spec fn any_word() -> Seq<char> {
    seq!['a', 'n', 'y']
}

/// A group name as masterdata writes it: trimmed, absent when blank or `none`.
pub open spec fn norm_unit(v: Option<Seq<char>>) -> Option<Seq<char>> {
    match v {
        None => None,
        Some(s) => if trimmed(s).len() == 0 || trimmed(s) == none_word() {
            None
        } else {
            Some(trimmed(s))
        },
    }
}

/// A target token of an area item: trimmed, absent when blank, `none` or `any`.
pub open spec fn norm_target(v: Option<Seq<char>>) -> Option<Seq<char>> {
    match norm_unit(v) {
        Some(t) => if t == any_word() {
            None
        } else {
            Some(t)
        },
        None => None,
    }
}

/// Normal form of a group name (see [`norm_unit`]).
pub fn normalize_unit_string(value: &Option<String>) -> (r: Option<String>)
    ensures
        opt_chars(r) == norm_unit(opt_chars(*value)),
{
    match value {
        None => None,
        Some(s) => {
            let t = trim_str(s.as_str());
            proof {
                reveal_strlit("none");
                assert("none"@ =~= none_word());
            }
            if t.unicode_len() == 0 || str_eq(t, "none") {
                None
            } else {
                Some(String::from_str(t))
            }
        },
    }
}

/// Normal form of an area-item target token (see [`norm_target`]).
pub fn normalize_target_token(value: &Option<String>) -> (r: Option<String>)
    ensures
        opt_chars(r) == norm_target(opt_chars(*value)),
{
    let u = normalize_unit_string(value);
    match u {
        Some(t) => {
            proof {
                reveal_strlit("any");
                assert("any"@ =~= any_word());
            }
            if str_eq(t.as_str(), "any") {
                None
            } else {
                Some(t)
            }
        },
        None => None,
    }
}

/// Rarity index of a rarity name: `rarity_1` to `rarity_4` give 1 to 4,
/// `rarity_birthday` or `birthday` give 5, anything else 4 (names trimmed and
/// compared without ASCII case).
pub open spec fn rarity_index(s: Seq<char>) -> i32 {
    let t = lower_chars(trimmed(s));
    if t == seq!['r', 'a', 'r', 'i', 't', 'y', '_', '1'] {
        1
    } else if t == seq!['r', 'a', 'r', 'i', 't', 'y', '_', '2'] {
        2
    } else if t == seq!['r', 'a', 'r', 'i', 't', 'y', '_', '3'] {
        3
    } else if t == seq!['r', 'a', 'r', 'i', 't', 'y', '_', 'b', 'i', 'r', 't', 'h', 'd', 'a', 'y']
        || t == seq!['b', 'i', 'r', 't', 'h', 'd', 'a', 'y'] {
        5
    } else {
        4
    }
}

/// Rarity index of a rarity name (see [`rarity_index`]).
pub fn rarity_type_to_index(value: &str) -> (r: i32)
    ensures
        r == rarity_index(value@),
{
    let t = trim_str(value);
    proof {
        reveal_strlit("rarity_1");
        reveal_strlit("rarity_2");
        reveal_strlit("rarity_3");
        reveal_strlit("rarity_birthday");
        reveal_strlit("birthday");
        assert("rarity_1"@ =~= seq!['r', 'a', 'r', 'i', 't', 'y', '_', '1']);
        assert("rarity_2"@ =~= seq!['r', 'a', 'r', 'i', 't', 'y', '_', '2']);
        assert("rarity_3"@ =~= seq!['r', 'a', 'r', 'i', 't', 'y', '_', '3']);
        assert("rarity_birthday"@ =~= seq!['r', 'a', 'r', 'i', 't', 'y', '_', 'b', 'i', 'r', 't', 'h', 'd', 'a', 'y']);
        assert("birthday"@ =~= seq!['b', 'i', 'r', 't', 'h', 'd', 'a', 'y']);
    }
    if lower_matches(t, "rarity_1") {
        1
    } else if lower_matches(t, "rarity_2") {
        2
    } else if lower_matches(t, "rarity_3") {
        3
    } else if lower_matches(t, "rarity_birthday") || lower_matches(t, "birthday") {
        5
    } else {
        4
    }
}

/// The decimal digit characters.
pub open spec fn digit_chars() -> Seq<char> {
    seq!['0', '1', '2', '3', '4', '5', '6', '7', '8', '9']
}

/// Decimal digits of a natural number, most significant first.
pub open spec fn decimal(n: nat) -> Seq<char>
    decreases n,
{
    if n < 10 {
        seq![digit_chars()[n as int]]
    } else {
        decimal(n / 10) + seq![digit_chars()[(n % 10) as int]]
    }
}

/// `k` zero characters (none when `k` is not positive).
pub open spec fn zeros(k: int) -> Seq<char> {
    Seq::new(if k > 0 { k as nat } else { 0 }, |i: int| '0')
}

/// An integer written in decimal, zero-padded to six characters with the
/// sign counted in the width.
pub open spec fn padded6(n: int) -> Seq<char> {
    if n < 0 {
        seq!['-'] + zeros(5 - decimal((-n) as nat).len()) + decimal((-n) as nat)
    } else {
        zeros(6 - decimal(n as nat).len()) + decimal(n as nat)
    }
}

fn digit_str(d: u64) -> (r: &'static str)
    requires
        d < 10,
    ensures
        r@ == seq![digit_chars()[d as int]],
{
    proof {
        reveal_strlit("0");
        reveal_strlit("1");
        reveal_strlit("2");
        reveal_strlit("3");
        reveal_strlit("4");
        reveal_strlit("5");
        reveal_strlit("6");
        reveal_strlit("7");
        reveal_strlit("8");
        reveal_strlit("9");
    }
    match d {
        0 => "0",
        1 => "1",
        2 => "2",
        3 => "3",
        4 => "4",
        5 => "5",
        6 => "6",
        7 => "7",
        8 => "8",
        _ => "9",
    }
}

proof fn lemma_decimal_len(n: nat)
    ensures
        decimal(n).len() >= 1,
        n < 10 ==> decimal(n).len() == 1,
        n >= 10 ==> decimal(n).len() == decimal(n / 10).len() + 1,
    decreases n,
{
    if n >= 10 {
        lemma_decimal_len(n / 10);
    }
}

fn decimal_string(n: u64) -> (r: String)
    ensures
        r@ == decimal(n as nat),
    decreases n,
{
    if n < 10 {
        String::from_str(digit_str(n))
    } else {
        let mut s = decimal_string(n / 10);
        s.append(digit_str(n % 10));
        s
    }
}

/// An integer zero-padded to six characters (see [`padded6`]).
pub fn pad6(n: i32) -> (r: String)
    ensures
        r@ == padded6(n as int),
{
    let neg = n < 0;
    let mag: u64 = if neg { (-(n as i64)) as u64 } else { n as u64 };
    let digits = decimal_string(mag);
    let width: usize = if neg { 5 } else { 6 };
    let mut out = if neg { String::from_str("-") } else { String::new() };
    proof {
        reveal_strlit("-");
        reveal_strlit("0");
        lemma_decimal_len(mag as nat);
    }
    let len = digits.as_str().unicode_len();
    let mut k: usize = len;
    let ghost start = out@;
    while k < width
        invariant
            len <= k <= width || (len > width && k == len),
            len == decimal(mag as nat).len(),
            out@ == start + zeros(k - len),
        decreases width - k,
    {
        proof {
            reveal_strlit("0");
        }
        out.append("0");
        assert(zeros(k + 1 - len) =~= zeros(k - len) + seq!['0']);
        k = k + 1;
    }
    assert(k - len == width - len || len >= width);
    assert(zeros(k - len) =~= zeros(width - len));
    out.append(digits.as_str());
    out
}

/// One row of a row-encoded parameter table: the power of one parameter
/// (`param1`, `param2` or `param3`) at one level.
#[derive(Clone, Debug)]
pub struct RawCardParameterRow {
    pub card_level: i32,
    pub card_parameter_type: String,
    pub power: i32,
}

/// The base powers of a card, in either of the two encodings the files use.
#[derive(Clone, Debug)]
pub enum RawCardParameters {
    /// One list per parameter, indexed by level minus one.
    Grouped { param1: Vec<i32>, param2: Vec<i32>, param3: Vec<i32> },
    /// One row per (level, parameter).
    Rows(Vec<RawCardParameterRow>),
}

/// A card as the card table holds it.
#[derive(Clone, Debug)]
pub struct RawCard {
    pub id: i32,
    pub character_id: i32,
    pub card_rarity_type: String,
    pub attr: String,
    pub support_unit: Option<String>,
    pub skill_id: i32,
    pub special_training_skill_id: Option<i32>,
    pub asset_bundle_name: Option<String>,
    pub special_training_power1_bonus_fixed: i32,
    pub special_training_power2_bonus_fixed: i32,
    pub special_training_power3_bonus_fixed: i32,
    pub card_parameters: RawCardParameters,
}

/// Parameter slot named by a row: 0, 1 or 2 for `param1`..`param3`, else -1.
pub open spec fn slot_code(t: Seq<char>) -> int {
    if t == seq!['p', 'a', 'r', 'a', 'm', '1'] {
        0
    } else if t == seq!['p', 'a', 'r', 'a', 'm', '2'] {
        1
    } else if t == seq!['p', 'a', 'r', 'a', 'm', '3'] {
        2
    } else {
        -1
    }
}

/// Power of a slot at a level: that of the last row that gives it.
pub open spec fn last_power(rows: Seq<RawCardParameterRow>, level: i32, slot: int) -> Option<i32>
    decreases rows.len(),
{
    if rows.len() == 0 {
        None
    } else if rows.last().card_level == level && slot_code(rows.last().card_parameter_type@) == slot {
        Some(rows.last().power)
    } else {
        last_power(rows.drop_last(), level, slot)
    }
}

/// Whether the rows give all three parameters at a level.
pub open spec fn level_complete(rows: Seq<RawCardParameterRow>, level: i32) -> bool {
    last_power(rows, level, 0) is Some && last_power(rows, level, 1) is Some && last_power(rows, level, 2)
        is Some
}

/// The shortest of three lengths.
pub open spec fn min3(a: int, b: int, c: int) -> int {
    if a <= b && a <= c {
        a
    } else if b <= c {
        b
    } else {
        c
    }
}

/// Whether `r` holds the base powers of `card`: for the grouped encoding one
/// row per level from 1 up to the shortest list; for rows, one row per level
/// at which all three parameters are given, levels ascending, each parameter
/// taken from its last row.
pub open spec fn parameters_of(card: RawCard, r: Seq<CardParameter>) -> bool {
    match card.card_parameters {
        RawCardParameters::Grouped { param1, param2, param3 } => {
            &&& r.len() == min3(param1@.len() as int, param2@.len() as int, param3@.len() as int)
            &&& forall|i: int|
                0 <= i < r.len() ==> #[trigger] r[i] == (CardParameter {
                    card_id: card.id,
                    level: (i + 1) as i32,
                    param1: param1@[i],
                    param2: param2@[i],
                    param3: param3@[i],
                })
        },
        RawCardParameters::Rows(rows) => {
            &&& forall|i: int, j: int| 0 <= i < j < r.len() ==> #[trigger] r[i].level < #[trigger] r[j].level
            &&& forall|i: int|
                0 <= i < r.len() ==> {
                    &&& (#[trigger] r[i]).card_id == card.id
                    &&& level_complete(rows@, r[i].level)
                    &&& Some(r[i].param1) == last_power(rows@, r[i].level, 0)
                    &&& Some(r[i].param2) == last_power(rows@, r[i].level, 1)
                    &&& Some(r[i].param3) == last_power(rows@, r[i].level, 2)
                }
            &&& forall|k: int|
                0 <= k < rows@.len() && level_complete(rows@, #[trigger] rows@[k].card_level) ==> exists|i: int|
                    0 <= i < r.len() && r[i].level == rows@[k].card_level
        },
    }
}

/// Whether the grouped lists of a card are short enough for `i32` levels.
pub open spec fn parameters_fit(card: RawCard) -> bool {
    match card.card_parameters {
        RawCardParameters::Grouped { param1, .. } => param1@.len() < i32::MAX,
        RawCardParameters::Rows(_) => true,
    }
}

fn slot_of(t: &str) -> (r: i64)
    ensures
        r == slot_code(t@),
{
    proof {
        reveal_strlit("param1");
        reveal_strlit("param2");
        reveal_strlit("param3");
        assert("param1"@ =~= seq!['p', 'a', 'r', 'a', 'm', '1']);
        assert("param2"@ =~= seq!['p', 'a', 'r', 'a', 'm', '2']);
        assert("param3"@ =~= seq!['p', 'a', 'r', 'a', 'm', '3']);
    }
    if str_eq(t, "param1") {
        0
    } else if str_eq(t, "param2") {
        1
    } else if str_eq(t, "param3") {
        2
    } else {
        -1
    }
}

fn last_power_of(rows: &Vec<RawCardParameterRow>, level: i32, slot: i64) -> (r: Option<i32>)
    ensures
        r == last_power(rows@, level, slot as int),
{
    let mut k: usize = rows.len();
    assert(rows@.subrange(0, k as int) =~= rows@);
    while k > 0
        invariant
            k <= rows@.len(),
            last_power(rows@, level, slot as int) == last_power(rows@.subrange(0, k as int), level, slot as int),
        decreases k,
    {
        let row = &rows[k - 1];
        assert(rows@.subrange(0, k as int).last() == rows@[k - 1]);
        assert(rows@.subrange(0, k as int).drop_last() =~= rows@.subrange(0, k - 1));
        if row.card_level == level && slot_of(row.card_parameter_type.as_str()) == slot {
            return Some(row.power);
        }
        k = k - 1;
    }
    None
}

/// Levels of the rows, ascending, each once.
fn row_levels(rows: &Vec<RawCardParameterRow>) -> (r: Vec<i32>)
    ensures
        forall|i: int, j: int| 0 <= i < j < r@.len() ==> r@[i] < r@[j],
        forall|k: int| 0 <= k < rows@.len() ==> r@.contains(#[trigger] rows@[k].card_level),
{
    let mut out: Vec<i32> = Vec::new();
    let mut i: usize = 0;
    while i < rows.len()
        invariant
            i <= rows@.len(),
            forall|a: int, b: int| 0 <= a < b < out@.len() ==> out@[a] < out@[b],
            forall|k: int| 0 <= k < i ==> out@.contains(#[trigger] rows@[k].card_level),
        decreases rows@.len() - i,
    {
        let level = rows[i].card_level;
        let mut pos: usize = 0;
        while pos < out.len() && out[pos] < level
            invariant
                pos <= out@.len(),
                forall|a: int| 0 <= a < pos ==> out@[a] < level,
            decreases out@.len() - pos,
        {
            pos = pos + 1;
        }
        if pos < out.len() && out[pos] == level {
            assert(out@[pos as int] == level);
        } else {
            let ghost before = out@;
            out.insert(pos, level);
            assert forall|a: int, b: int| 0 <= a < b < out@.len() implies out@[a] < out@[b] by {
                if a < pos && b > pos {
                    assert(out@[b] == before[b - 1]);
                }
                if b > pos && a > pos {
                    assert(out@[a] == before[a - 1] && out@[b] == before[b - 1]);
                }
            }
            assert forall|k: int| 0 <= k < i implies out@.contains(#[trigger] rows@[k].card_level) by {
                let w = choose|w: int| 0 <= w < before.len() && before[w] == rows@[k].card_level;
                if w < pos {
                    assert(out@[w] == before[w]);
                } else {
                    assert(out@[w + 1] == before[w]);
                }
            }
            assert(out@[pos as int] == level);
        }
        i = i + 1;
    }
    out
}

/// Base powers of a card, one row per level (see [`parameters_of`]).
pub fn flatten_card_parameters(card: &RawCard) -> (r: Vec<CardParameter>)
    requires
        parameters_fit(*card),
    ensures
        parameters_of(*card, r@),
{
    match &card.card_parameters {
        RawCardParameters::Grouped { param1, param2, param3 } => {
            let mut len = param1.len();
            if param2.len() < len {
                len = param2.len();
            }
            if param3.len() < len {
                len = param3.len();
            }
            let mut out: Vec<CardParameter> = Vec::new();
            let mut i: usize = 0;
            while i < len
                invariant
                    i <= len,
                    len <= param1@.len() && len <= param2@.len() && len <= param3@.len(),
                    len < i32::MAX,
                    out@.len() == i,
                    forall|k: int|
                        0 <= k < i ==> #[trigger] out@[k] == (CardParameter {
                            card_id: card.id,
                            level: (k + 1) as i32,
                            param1: param1@[k],
                            param2: param2@[k],
                            param3: param3@[k],
                        }),
                decreases len - i,
            {
                out.push(
                    CardParameter {
                        card_id: card.id,
                        level: i as i32 + 1,
                        param1: param1[i],
                        param2: param2[i],
                        param3: param3[i],
                    },
                );
                i = i + 1;
            }
            out
        },
        RawCardParameters::Rows(rows) => {
            let levels = row_levels(rows);
            let mut out: Vec<CardParameter> = Vec::new();
            let mut j: usize = 0;
            while j < levels.len()
                invariant
                    j <= levels@.len(),
                    forall|a: int, b: int| 0 <= a < b < levels@.len() ==> levels@[a] < levels@[b],
                    forall|a: int, b: int| 0 <= a < b < out@.len() ==> #[trigger] out@[a].level < #[trigger] out@[b].level,
                    forall|a: int| 0 <= a < out@.len() ==> j < levels@.len() ==> #[trigger] out@[a].level < levels@[j as int],
                    forall|a: int|
                        0 <= a < out@.len() ==> {
                            &&& (#[trigger] out@[a]).card_id == card.id
                            &&& level_complete(rows@, out@[a].level)
                            &&& Some(out@[a].param1) == last_power(rows@, out@[a].level, 0)
                            &&& Some(out@[a].param2) == last_power(rows@, out@[a].level, 1)
                            &&& Some(out@[a].param3) == last_power(rows@, out@[a].level, 2)
                        },
                    forall|b: int|
                        0 <= b < j && level_complete(rows@, #[trigger] levels@[b]) ==> exists|a: int|
                            0 <= a < out@.len() && out@[a].level == levels@[b],
                decreases levels@.len() - j,
            {
                let level = levels[j];
                let p1 = last_power_of(rows, level, 0);
                let p2 = last_power_of(rows, level, 1);
                let p3 = last_power_of(rows, level, 2);
                let ghost before = out@;
                if let (Some(a), Some(b), Some(c)) = (p1, p2, p3) {
                    out.push(CardParameter { card_id: card.id, level, param1: a, param2: b, param3: c });
                    assert(out@[before.len() as int].level == level);
                }
                assert forall|b: int|
                    0 <= b < j + 1 && level_complete(rows@, #[trigger] levels@[b]) implies exists|a: int|
                        0 <= a < out@.len() && out@[a].level == levels@[b] by {
                    if b < j {
                        let a = choose|a: int| 0 <= a < before.len() && before[a].level == levels@[b];
                        assert(out@[a] == before[a]);
                    } else {
                        assert(out@[before.len() as int].level == levels@[b]);
                    }
                }
                j = j + 1;
            }
            assert forall|k: int|
                0 <= k < rows@.len() && level_complete(rows@, #[trigger] rows@[k].card_level) implies exists|a: int|
                    0 <= a < out@.len() && out@[a].level == rows@[k].card_level by {
                assert(levels@.contains(rows@[k].card_level));
                let b = choose|b: int| 0 <= b < levels@.len() && levels@[b] == rows@[k].card_level;
                assert(level_complete(rows@, levels@[b]));
            }
            out
        },
    }
}

/// A character and its group, as the character-group table holds them.
#[derive(Clone, Debug)]
pub struct RawGameCharacterUnit {
    pub id: i32,
    pub game_character_id: i32,
    pub unit: String,
}

/// The word `piapro`.
pub open spec fn piapro_word() -> Seq<char> {
    seq!['p', 'i', 'a', 'p', 'r', 'o']
}

/// Group of a character: that of the last row naming it.
pub open spec fn primary_unit(units: Seq<RawGameCharacterUnit>, character_id: i32) -> Option<Seq<char>>
    decreases units.len(),
{
    if units.len() == 0 {
        None
    } else if units.last().game_character_id == character_id {
        Some(units.last().unit@)
    } else {
        primary_unit(units.drop_last(), character_id)
    }
}

/// Group the skill of a card serves: its character's group, or for a
/// virtual singer the support group it names, when it names one.
pub open spec fn card_skill_unit(card: RawCard, units: Seq<RawGameCharacterUnit>) -> Option<Seq<char>> {
    match primary_unit(units, card.character_id) {
        None => None,
        Some(p) => if p == piapro_word() {
            match norm_unit(opt_chars(card.support_unit)) {
                Some(u) => Some(u),
                None => Some(p),
            }
        } else {
            Some(p)
        },
    }
}

/// Group of a skill: that of the first card with the skill whose group is known.
pub open spec fn skill_unit_of(cards: Seq<RawCard>, units: Seq<RawGameCharacterUnit>, skill_id: i32) -> Option<
    Seq<char>,
>
    decreases cards.len(),
{
    if cards.len() == 0 {
        None
    } else {
        let prev = skill_unit_of(cards.drop_last(), units, skill_id);
        if prev is Some {
            prev
        } else if cards.last().skill_id == skill_id {
            card_skill_unit(cards.last(), units)
        } else {
            None
        }
    }
}

/// Group recorded for a skill in a (skill id, group) list: the first entry's.
pub open spec fn unit_lookup(table: Seq<(i32, String)>, skill_id: i32) -> Option<Seq<char>>
    decreases table.len(),
{
    if table.len() == 0 {
        None
    } else {
        let prev = unit_lookup(table.drop_last(), skill_id);
        if prev is Some {
            prev
        } else if table.last().0 == skill_id {
            Some(table.last().1@)
        } else {
            None
        }
    }
}

fn primary_unit_of(units: &Vec<RawGameCharacterUnit>, character_id: i32) -> (r: Option<&String>)
    ensures
        opt_chars_ref(r) == primary_unit(units@, character_id),
{
    let mut k: usize = units.len();
    assert(units@.subrange(0, k as int) =~= units@);
    while k > 0
        invariant
            k <= units@.len(),
            primary_unit(units@, character_id) == primary_unit(units@.subrange(0, k as int), character_id),
        decreases k,
    {
        assert(units@.subrange(0, k as int).last() == units@[k - 1]);
        assert(units@.subrange(0, k as int).drop_last() =~= units@.subrange(0, k - 1));
        if units[k - 1].game_character_id == character_id {
            return Some(&units[k - 1].unit);
        }
        k = k - 1;
    }
    None
}

/// The characters of an optional borrowed string.
pub open spec fn opt_chars_ref(o: Option<&String>) -> Option<Seq<char>> {
    match o {
        Some(s) => Some(s@),
        None => None,
    }
}

/// Looks a skill up in a (skill id, group) list (see [`unit_lookup`]).
pub fn find_skill_unit(table: &Vec<(i32, String)>, skill_id: i32) -> (r: Option<&String>)
    ensures
        opt_chars_ref(r) == unit_lookup(table@, skill_id),
{
    let mut i: usize = 0;
    while i < table.len()
        invariant
            i <= table@.len(),
            unit_lookup(table@.subrange(0, i as int), skill_id) is None,
        decreases table@.len() - i,
    {
        assert(table@.subrange(0, i + 1).drop_last() =~= table@.subrange(0, i as int));
        if table[i].0 == skill_id {
            proof {
                lemma_lookup_extend(table@, i as int + 1, skill_id);
            }
            return Some(&table[i].1);
        }
        i = i + 1;
    }
    assert(table@.subrange(0, i as int) =~= table@);
    None
}

proof fn lemma_lookup_extend(table: Seq<(i32, String)>, n: int, skill_id: i32)
    requires
        0 < n <= table.len(),
        unit_lookup(table.subrange(0, n), skill_id) is Some,
    ensures
        unit_lookup(table, skill_id) == unit_lookup(table.subrange(0, n), skill_id),
    decreases table.len() - n,
{
    if n < table.len() {
        assert(table.subrange(0, n + 1).drop_last() =~= table.subrange(0, n));
        lemma_lookup_extend(table, n + 1, skill_id);
    } else {
        assert(table.subrange(0, n) =~= table);
    }
}

fn card_unit(card: &RawCard, units: &Vec<RawGameCharacterUnit>) -> (r: Option<String>)
    ensures
        opt_chars(r) == card_skill_unit(*card, units@),
{
    match primary_unit_of(units, card.character_id) {
        None => None,
        Some(p) => {
            proof {
                reveal_strlit("piapro");
                assert("piapro"@ =~= piapro_word());
            }
            if str_eq(p.as_str(), "piapro") {
                match normalize_unit_string(&card.support_unit) {
                    Some(u) => Some(u),
                    None => Some(p.clone()),
                }
            } else {
                Some(p.clone())
            }
        },
    }
}

/// The group of every skill, as (skill id, group) pairs (see [`skill_unit_of`]).
pub fn infer_skill_units(cards: &Vec<RawCard>, units: &Vec<RawGameCharacterUnit>) -> (r: Vec<(i32, String)>)
    ensures
        forall|id: i32| #[trigger] unit_lookup(r@, id) == skill_unit_of(cards@, units@, id),
{
    let mut table: Vec<(i32, String)> = Vec::new();
    let mut i: usize = 0;
    while i < cards.len()
        invariant
            i <= cards@.len(),
            forall|id: i32| #[trigger] unit_lookup(table@, id) == skill_unit_of(cards@.subrange(0, i as int), units@, id),
        decreases cards@.len() - i,
    {
        let card = &cards[i];
        assert(cards@.subrange(0, i + 1).drop_last() =~= cards@.subrange(0, i as int));
        assert(cards@.subrange(0, i + 1).last() == cards@[i as int]);
        let known = find_skill_unit(&table, card.skill_id);
        let ghost before = table@;
        let ghost pre = cards@.subrange(0, i as int);
        let ghost post = cards@.subrange(0, i + 1);
        if known.is_none() {
            match card_unit(card, units) {
                Some(u) => {
                    table.push((card.skill_id, u));
                    assert(table@.drop_last() =~= before);
                    assert forall|id: i32| #[trigger] unit_lookup(table@, id) == skill_unit_of(post, units@, id) by {
                        assert(unit_lookup(before, id) == skill_unit_of(pre, units@, id));
                    }
                },
                None => {
                    assert forall|id: i32| #[trigger] unit_lookup(table@, id) == skill_unit_of(post, units@, id) by {
                        assert(unit_lookup(before, id) == skill_unit_of(pre, units@, id));
                    }
                },
            }
        } else {
            assert forall|id: i32| #[trigger] unit_lookup(table@, id) == skill_unit_of(post, units@, id) by {
                assert(unit_lookup(before, id) == skill_unit_of(pre, units@, id));
            }
        }
        i = i + 1;
    }
    assert(cards@.subrange(0, i as int) =~= cards@);
    table
}

/// One level of an effect of a skill.
#[derive(Clone, Debug)]
pub struct RawSkillEffectDetail {
    pub level: i32,
    pub activate_effect_value: i32,
    pub activate_effect_value2: Option<i32>,
}

/// Condition of an enhancement: the group the other members must belong to.
#[derive(Clone, Debug)]
pub struct RawSkillEnhanceCondition {
    pub unit: String,
}

/// Extra score-up per member of the right group.
#[derive(Clone, Debug)]
pub struct RawSkillEnhance {
    pub activate_effect_value: i32,
    pub skill_enhance_condition: Option<RawSkillEnhanceCondition>,
}

/// An effect of a skill with its levels.
#[derive(Clone, Debug)]
pub struct RawSkillEffect {
    pub skill_effect_type: String,
    pub activate_unit_count: Option<i32>,
    pub activate_character_rank: Option<i32>,
    pub skill_enhance: Option<RawSkillEnhance>,
    pub skill_effect_details: Vec<RawSkillEffectDetail>,
}

/// A skill as the skill table holds it.
#[derive(Clone, Debug)]
pub struct RawSkill {
    pub id: i32,
    pub skill_effects: Vec<RawSkillEffect>,
}

/// What an effect contributes to a level.
pub enum StepKind {
    ScoreUp,
    Life,
    Rank,
    Reference,
    UnitCount,
    Other,
}

/// Kind of an effect by its type name.
pub open spec fn kind_of(t: Seq<char>) -> StepKind {
    if t == "score_up"@ || t == "score_up_keep"@ || t == "score_up_condition_life"@ {
        StepKind::ScoreUp
    } else if t == "life_recovery"@ {
        StepKind::Life
    } else if t == "score_up_character_rank"@ {
        StepKind::Rank
    } else if t == "other_member_score_up_reference_rate"@ {
        StepKind::Reference
    } else if t == "score_up_unit_count"@ {
        StepKind::UnitCount
    } else {
        StepKind::Other
    }
}

/// What the effects of a skill add up to at one level.
pub struct LevelAcc {
    pub score_up: Option<int>,
    pub life: Option<int>,
    pub ref_rate: Option<i32>,
    pub ref_max: Option<i32>,
    pub same_unit: Option<(i32, Option<Seq<char>>)>,
    pub ranks: Seq<(i32, i32)>,
    pub diffs: Seq<(i32, i32)>,
}

/// Nothing yet.
pub open spec fn empty_acc() -> LevelAcc {
    LevelAcc {
        score_up: None,
        life: None,
        ref_rate: None,
        ref_max: None,
        same_unit: None,
        ranks: Seq::empty(),
        diffs: Seq::empty(),
    }
}

/// The enhancement of an effect, with the group of its condition.
pub open spec fn enhance_of(e: RawSkillEffect) -> Option<(i32, Option<Seq<char>>)> {
    match e.skill_enhance {
        Some(en) => Some(
            (
                en.activate_effect_value,
                match en.skill_enhance_condition {
                    Some(c) => Some(c.unit@),
                    None => None,
                },
            ),
        ),
        None => None,
    }
}

/// One level of one effect added to what a level holds: score-ups keep the
/// largest value (and the enhancement of the effect, if any), life recovery
/// adds up, rank bonuses and member-count values are listed, a reference
/// rate replaces the previous one.
pub open spec fn apply_step(acc: LevelAcc, e: RawSkillEffect, d: RawSkillEffectDetail) -> LevelAcc {
    let v = d.activate_effect_value as int;
    match kind_of(e.skill_effect_type@) {
        StepKind::ScoreUp => LevelAcc {
            score_up: Some(
                if v > (match acc.score_up {
                    Some(x) => x,
                    None => 0,
                }) {
                    v
                } else {
                    match acc.score_up {
                        Some(x) => x,
                        None => 0,
                    }
                },
            ),
            same_unit: if enhance_of(e) is Some {
                enhance_of(e)
            } else {
                acc.same_unit
            },
            ..acc
        },
        StepKind::Life => LevelAcc {
            life: Some(
                (match acc.life {
                    Some(x) => x,
                    None => 0,
                }) + v,
            ),
            ..acc
        },
        StepKind::Rank => match e.activate_character_rank {
            Some(r) => LevelAcc { ranks: acc.ranks.push((r, d.activate_effect_value)), ..acc },
            None => acc,
        },
        StepKind::Reference => LevelAcc {
            ref_rate: Some(d.activate_effect_value),
            ref_max: d.activate_effect_value2,
            ..acc
        },
        StepKind::UnitCount => match e.activate_unit_count {
            Some(c) => LevelAcc { diffs: acc.diffs.push((c, d.activate_effect_value)), ..acc },
            None => acc,
        },
        StepKind::Other => acc,
    }
}

/// The details of one effect at a level, applied in order.
pub open spec fn acc_details(acc: LevelAcc, e: RawSkillEffect, ds: Seq<RawSkillEffectDetail>, level: i32) -> LevelAcc
    decreases ds.len(),
{
    if ds.len() == 0 {
        acc
    } else {
        let prev = acc_details(acc, e, ds.drop_last(), level);
        if ds.last().level == level {
            apply_step(prev, e, ds.last())
        } else {
            prev
        }
    }
}

/// The effects of a skill at a level, applied in order.
pub open spec fn acc_effects(es: Seq<RawSkillEffect>, level: i32) -> LevelAcc
    decreases es.len(),
{
    if es.len() == 0 {
        empty_acc()
    } else {
        acc_details(acc_effects(es.drop_last(), level), es.last(), es.last().skill_effect_details@, level)
    }
}

/// Whether a value fits in `i32`.
pub open spec fn fits_i32(v: int) -> bool {
    i32::MIN <= v && v <= i32::MAX
}

/// Whether a step keeps the life total within `i32`.
pub open spec fn step_fits(acc: LevelAcc, e: RawSkillEffect, d: RawSkillEffectDetail) -> bool {
    kind_of(e.skill_effect_type@) is Life ==> fits_i32(
        (match acc.life {
            Some(x) => x,
            None => 0,
        }) + d.activate_effect_value,
    )
}

/// Whether every step of an effect at a level keeps the life total within `i32`.
pub open spec fn details_fit(acc: LevelAcc, e: RawSkillEffect, ds: Seq<RawSkillEffectDetail>, level: i32) -> bool
    decreases ds.len(),
{
    if ds.len() == 0 {
        true
    } else {
        details_fit(acc, e, ds.drop_last(), level) && (ds.last().level == level ==> step_fits(
            acc_details(acc, e, ds.drop_last(), level),
            e,
            ds.last(),
        ))
    }
}

/// Whether every step of a skill at a level keeps the life total within `i32`.
pub open spec fn effects_fit(es: Seq<RawSkillEffect>, level: i32) -> bool
    decreases es.len(),
{
    if es.len() == 0 {
        true
    } else {
        effects_fit(es.drop_last(), level) && details_fit(
            acc_effects(es.drop_last(), level),
            es.last(),
            es.last().skill_effect_details@,
            level,
        )
    }
}

/// Whether the per-member values of an enhanced score-up fit in `i32`.
pub open spec fn enhance_fits(acc: LevelAcc) -> bool {
    match (acc.score_up, acc.same_unit) {
        (Some(s), Some((inc, _))) => fits_i32(5 * inc) && fits_i32(s + 5 * inc),
        _ => true,
    }
}

/// Whether the rows of a skill can be computed in `i32` at every level.
pub open spec fn skill_fits(skill: RawSkill, level: i32) -> bool {
    effects_fit(skill.skill_effects@, level) && enhance_fits(acc_effects(skill.skill_effects@, level))
}

/// A sorted list of distinct values with one more value put in its place.
pub open spec fn insert_sorted(ls: Seq<i32>, x: i32) -> Seq<i32>
    decreases ls.len(),
{
    if ls.len() == 0 {
        seq![x]
    } else if x == ls[0] {
        ls
    } else if x < ls[0] {
        seq![x] + ls
    } else {
        seq![ls[0]] + insert_sorted(ls.drop_first(), x)
    }
}

/// The levels of a list of details, ascending and distinct, after `ls`.
pub open spec fn detail_levels(ls: Seq<i32>, ds: Seq<RawSkillEffectDetail>) -> Seq<i32>
    decreases ds.len(),
{
    if ds.len() == 0 {
        ls
    } else {
        insert_sorted(detail_levels(ls, ds.drop_last()), ds.last().level)
    }
}

/// The levels a skill has, ascending and distinct.
pub open spec fn skill_levels(es: Seq<RawSkillEffect>) -> Seq<i32>
    decreases es.len(),
{
    if es.len() == 0 {
        Seq::empty()
    } else {
        detail_levels(skill_levels(es.drop_last()), es.last().skill_effect_details@)
    }
}

/// A skill effect row, as a value.
pub struct EffectRow {
    pub skill_id: i32,
    pub skill_level: i32,
    pub effect_type: Seq<char>,
    pub value: int,
    pub additional_value: Option<i32>,
    pub unit_member_count: Option<i32>,
    pub unit: Option<Seq<char>>,
    pub activate_character_rank: Option<i32>,
}

/// The value of a skill effect row.
pub open spec fn effect_row(e: SkillEffect) -> EffectRow {
    EffectRow {
        skill_id: e.skill_id,
        skill_level: e.skill_level,
        effect_type: e.effect_type@,
        value: e.value as int,
        additional_value: e.additional_value,
        unit_member_count: e.unit_member_count,
        unit: opt_chars(e.unit),
        activate_character_rank: e.activate_character_rank,
    }
}

/// A plain row of one effect type.
pub open spec fn plain_row(id: i32, level: i32, t: Seq<char>, value: int) -> EffectRow {
    EffectRow {
        skill_id: id,
        skill_level: level,
        effect_type: t,
        value,
        additional_value: None,
        unit_member_count: None,
        unit: None,
        activate_character_rank: None,
    }
}

/// The member-count multiplier of an enhanced score-up: 0 to 3 extra members
/// for 1 to 4 matching members, 5 for a full group.
pub open spec fn enhance_multiplier(count: int) -> int {
    if count == 5 {
        5
    } else {
        count - 1
    }
}

/// The five member-count rows of an enhanced score-up.
pub open spec fn enhance_rows(id: i32, level: i32, s: int, inc: i32, unit: Option<Seq<char>>) -> Seq<EffectRow> {
    Seq::new(
        5,
        |k: int|
            EffectRow {
                skill_id: id,
                skill_level: level,
                effect_type: "score_up_unit_count"@,
                value: s + enhance_multiplier(k + 1) * inc,
                additional_value: None,
                unit_member_count: Some((k + 1) as i32),
                unit,
                activate_character_rank: None,
            },
    )
}

/// The entry with the smallest member count (the earliest of equals).
pub open spec fn min_count_entry(d: Seq<(i32, i32)>) -> (i32, i32)
    decreases d.len(),
{
    if d.len() <= 1 {
        d[0]
    } else {
        let rest = min_count_entry(d.drop_last());
        if d.last().0 < rest.0 {
            d.last()
        } else {
            rest
        }
    }
}

/// The effect rows of a skill at one level, in the order the table lists them:
/// score-up (with its member-count rows when enhanced), life recovery,
/// character-rank bonuses, reference score-up, then the distinct-group
/// score-up.
pub open spec fn level_rows(id: i32, level: i32, acc: LevelAcc, skill_unit: Option<Seq<char>>) -> Seq<EffectRow> {
    let score = match acc.score_up {
        Some(s) => seq![plain_row(id, level, "score_up"@, s)] + match acc.same_unit {
            Some((inc, unit)) => enhance_rows(
                id,
                level,
                s,
                inc,
                if unit is Some {
                    unit
                } else {
                    skill_unit
                },
            ),
            None => Seq::empty(),
        },
        None => Seq::empty(),
    };
    let life = match acc.life {
        Some(l) => seq![plain_row(id, level, "life_recovery"@, l)],
        None => Seq::empty(),
    };
    let ranks = acc.ranks.map_values(
        |p: (i32, i32)|
            EffectRow { activate_character_rank: Some(p.0), ..plain_row(id, level, "score_up_character_rank"@, p.1 as int) },
    );
    let reference = match acc.ref_rate {
        Some(r) => seq![EffectRow { additional_value: acc.ref_max, ..plain_row(id, level, "score_up_reference"@, r as int) }],
        None => Seq::empty(),
    };
    let diff = match acc.score_up {
        Some(s) => if acc.diffs.len() > 0 {
            seq![EffectRow { additional_value: Some(min_count_entry(acc.diffs).1), ..plain_row(id, level, "score_up_diff"@, s) }]
        } else {
            Seq::empty()
        },
        None => Seq::empty(),
    };
    score + life + ranks + reference + diff
}

/// The effect rows of a skill over a list of its levels.
pub open spec fn rows_over(skill: RawSkill, levels: Seq<i32>, skill_unit: Option<Seq<char>>) -> Seq<EffectRow>
    decreases levels.len(),
{
    if levels.len() == 0 {
        Seq::empty()
    } else {
        rows_over(skill, levels.drop_last(), skill_unit) + level_rows(
            skill.id,
            levels.last(),
            acc_effects(skill.skill_effects@, levels.last()),
            skill_unit,
        )
    }
}

/// The level rows of a skill, one per level it has.
pub open spec fn skill_rows(skill: RawSkill) -> Seq<Skill> {
    skill_levels(skill.skill_effects@).map_values(|l: i32| Skill { id: skill.id, level: l, is_after_training: false })
}

/// The level rows of every skill, in table order.
pub open spec fn all_skill_rows(skills: Seq<RawSkill>) -> Seq<Skill>
    decreases skills.len(),
{
    if skills.len() == 0 {
        Seq::empty()
    } else {
        all_skill_rows(skills.drop_last()) + skill_rows(skills.last())
    }
}

/// The effect rows of every skill, in table order.
pub open spec fn all_effect_rows(skills: Seq<RawSkill>, table: Seq<(i32, String)>) -> Seq<EffectRow>
    decreases skills.len(),
{
    if skills.len() == 0 {
        Seq::empty()
    } else {
        all_effect_rows(skills.drop_last(), table) + rows_over(
            skills.last(),
            skill_levels(skills.last().skill_effects@),
            unit_lookup(table, skills.last().id),
        )
    }
}

fn step_kind(t: &str) -> (r: StepKind)
    ensures
        r == kind_of(t@),
{
    if str_eq(t, "score_up") || str_eq(t, "score_up_keep") || str_eq(t, "score_up_condition_life") {
        StepKind::ScoreUp
    } else if str_eq(t, "life_recovery") {
        StepKind::Life
    } else if str_eq(t, "score_up_character_rank") {
        StepKind::Rank
    } else if str_eq(t, "other_member_score_up_reference_rate") {
        StepKind::Reference
    } else if str_eq(t, "score_up_unit_count") {
        StepKind::UnitCount
    } else {
        StepKind::Other
    }
}

/// What the effects of a skill add up to at one level, as computed.
pub struct LevelEffects {
    pub score_up: Option<i32>,
    pub life: Option<i32>,
    pub ref_rate: Option<i32>,
    pub ref_max: Option<i32>,
    pub same_unit: Option<(i32, Option<String>)>,
    pub ranks: Vec<(i32, i32)>,
    pub diffs: Vec<(i32, i32)>,
}

/// An optional `i32` as an optional integer.
pub open spec fn opt_int(o: Option<i32>) -> Option<int> {
    match o {
        Some(x) => Some(x as int),
        None => None,
    }
}

/// The value of what a level holds.
pub open spec fn acc_view(a: LevelEffects) -> LevelAcc {
    LevelAcc {
        score_up: opt_int(a.score_up),
        life: opt_int(a.life),
        ref_rate: a.ref_rate,
        ref_max: a.ref_max,
        same_unit: match a.same_unit {
            Some((inc, u)) => Some((inc, opt_chars(u))),
            None => None,
        },
        ranks: a.ranks@,
        diffs: a.diffs@,
    }
}

fn apply_detail(acc: &mut LevelEffects, e: &RawSkillEffect, d: &RawSkillEffectDetail)
    requires
        step_fits(acc_view(*old(acc)), *e, *d),
    ensures
        acc_view(*final(acc)) == apply_step(acc_view(*old(acc)), *e, *d),
{
    let v = d.activate_effect_value;
    match step_kind(e.skill_effect_type.as_str()) {
        StepKind::ScoreUp => {
            let cur = match acc.score_up {
                Some(x) => x,
                None => 0,
            };
            acc.score_up = Some(if v > cur { v } else { cur });
            match &e.skill_enhance {
                Some(en) => {
                    let unit = match &en.skill_enhance_condition {
                        Some(c) => Some(c.unit.clone()),
                        None => None,
                    };
                    acc.same_unit = Some((en.activate_effect_value, unit));
                },
                None => {},
            }
        },
        StepKind::Life => {
            let cur = match acc.life {
                Some(x) => x,
                None => 0,
            };
            acc.life = Some(cur + v);
        },
        StepKind::Rank => {
            match e.activate_character_rank {
                Some(r) => {
                    acc.ranks.push((r, v));
                },
                None => {},
            }
        },
        StepKind::Reference => {
            acc.ref_rate = Some(v);
            acc.ref_max = d.activate_effect_value2;
        },
        StepKind::UnitCount => {
            match e.activate_unit_count {
                Some(c) => {
                    acc.diffs.push((c, v));
                },
                None => {},
            }
        },
        StepKind::Other => {},
    }
}

proof fn lemma_details_fit_prefix(acc: LevelAcc, e: RawSkillEffect, ds: Seq<RawSkillEffectDetail>, level: i32, n: int)
    requires
        details_fit(acc, e, ds, level),
        0 <= n <= ds.len(),
    ensures
        details_fit(acc, e, ds.subrange(0, n), level),
    decreases ds.len() - n,
{
    if n == ds.len() {
        assert(ds.subrange(0, n) =~= ds);
    } else {
        lemma_details_fit_prefix(acc, e, ds.drop_last(), level, n);
        assert(ds.drop_last().subrange(0, n) =~= ds.subrange(0, n));
    }
}

proof fn lemma_effects_fit_prefix(es: Seq<RawSkillEffect>, level: i32, n: int)
    requires
        effects_fit(es, level),
        0 <= n <= es.len(),
    ensures
        effects_fit(es.subrange(0, n), level),
    decreases es.len() - n,
{
    if n == es.len() {
        assert(es.subrange(0, n) =~= es);
    } else {
        lemma_effects_fit_prefix(es.drop_last(), level, n);
        assert(es.drop_last().subrange(0, n) =~= es.subrange(0, n));
    }
}

/// What the effects of a skill add up to at one level (see [`acc_effects`]).
pub fn level_effects(skill: &RawSkill, level: i32) -> (r: LevelEffects)
    requires
        effects_fit(skill.skill_effects@, level),
    ensures
        acc_view(r) == acc_effects(skill.skill_effects@, level),
{
    let es = &skill.skill_effects;
    let mut acc = LevelEffects {
        score_up: None,
        life: None,
        ref_rate: None,
        ref_max: None,
        same_unit: None,
        ranks: Vec::new(),
        diffs: Vec::new(),
    };
    assert(acc_view(acc) =~= empty_acc());
    assert(es@.subrange(0, 0) =~= Seq::<RawSkillEffect>::empty());
    let mut i: usize = 0;
    while i < es.len()
        invariant
            i <= es@.len(),
            effects_fit(es@, level),
            acc_view(acc) == acc_effects(es@.subrange(0, i as int), level),
        decreases es@.len() - i,
    {
        let e = &es[i];
        let ds = &e.skill_effect_details;
        proof {
            lemma_effects_fit_prefix(es@, level, i + 1);
            assert(es@.subrange(0, i + 1).drop_last() =~= es@.subrange(0, i as int));
            assert(es@.subrange(0, i + 1).last() == es@[i as int]);
        }
        let ghost acc0 = acc_view(acc);
        assert(details_fit(acc0, *e, ds@, level));
        assert(ds@.subrange(0, 0) =~= Seq::<RawSkillEffectDetail>::empty());
        let mut j: usize = 0;
        while j < ds.len()
            invariant
                j <= ds@.len(),
                details_fit(acc0, *e, ds@, level),
                acc_view(acc) == acc_details(acc0, *e, ds@.subrange(0, j as int), level),
            decreases ds@.len() - j,
        {
            proof {
                lemma_details_fit_prefix(acc0, *e, ds@, level, j + 1);
                assert(ds@.subrange(0, j + 1).drop_last() =~= ds@.subrange(0, j as int));
                assert(ds@.subrange(0, j + 1).last() == ds@[j as int]);
            }
            if ds[j].level == level {
                apply_detail(&mut acc, e, &ds[j]);
            }
            j = j + 1;
        }
        assert(ds@.subrange(0, j as int) =~= ds@);
        i = i + 1;
    }
    assert(es@.subrange(0, i as int) =~= es@);
    acc
}

/// Whether a list is strictly increasing.
pub open spec fn increasing(ls: Seq<i32>) -> bool {
    forall|a: int, b: int| 0 <= a < b < ls.len() ==> ls[a] < ls[b]
}

proof fn lemma_insert_sorted(ls: Seq<i32>, x: i32, pos: int)
    requires
        increasing(ls),
        0 <= pos <= ls.len(),
        forall|a: int| 0 <= a < pos ==> ls[a] < x,
        pos < ls.len() ==> ls[pos] >= x,
    ensures
        insert_sorted(ls, x) == (if pos < ls.len() && ls[pos] == x {
            ls
        } else {
            ls.insert(pos, x)
        }),
        increasing(insert_sorted(ls, x)),
    decreases ls.len(),
{
    if ls.len() == 0 {
        assert(ls.insert(0, x) =~= seq![x]);
    } else if pos == 0 {
        if x == ls[0] {
        } else {
            assert(ls.insert(0, x) =~= seq![x] + ls);
        }
    } else {
        let rest = ls.drop_first();
        assert forall|a: int| 0 <= a < pos - 1 implies rest[a] < x by {
            assert(rest[a] == ls[a + 1]);
        }
        lemma_insert_sorted(rest, x, pos - 1);
        if pos < ls.len() && ls[pos] == x {
            assert(seq![ls[0]] + rest =~= ls);
        } else {
            assert(seq![ls[0]] + rest.insert(pos - 1, x) =~= ls.insert(pos, x));
        }
        let r = insert_sorted(ls, x);
        assert(r =~= seq![ls[0]] + insert_sorted(rest, x));
        assert forall|a: int, b: int| 0 <= a < b < r.len() implies r[a] < r[b] by {
            if a == 0 {
                let t = insert_sorted(rest, x);
                if pos < ls.len() && ls[pos] == x {
                    assert(t =~= rest);
                    assert(r[b] == rest[b - 1]);
                    assert(rest[b - 1] == ls[b]);
                } else {
                    assert(t =~= rest.insert(pos - 1, x));
                    if b - 1 == pos - 1 {
                        assert(r[b] == x);
                    } else if b - 1 < pos - 1 {
                        assert(r[b] == ls[b]);
                    } else {
                        assert(r[b] == ls[b - 1]);
                    }
                }
            }
        }
    }
}

fn insert_level(ls: &mut Vec<i32>, x: i32)
    requires
        increasing(old(ls)@),
    ensures
        final(ls)@ == insert_sorted(old(ls)@, x),
        increasing(final(ls)@),
{
    let mut pos: usize = 0;
    while pos < ls.len() && ls[pos] < x
        invariant
            pos <= ls@.len(),
            forall|a: int| 0 <= a < pos ==> ls@[a] < x,
        decreases ls@.len() - pos,
    {
        pos = pos + 1;
    }
    proof {
        lemma_insert_sorted(ls@, x, pos as int);
    }
    if pos < ls.len() && ls[pos] == x {
    } else {
        ls.insert(pos, x);
    }
}

proof fn lemma_levels_increasing(ls: Seq<i32>, ds: Seq<RawSkillEffectDetail>)
    requires
        increasing(ls),
    ensures
        increasing(detail_levels(ls, ds)),
    decreases ds.len(),
{
    if ds.len() > 0 {
        lemma_levels_increasing(ls, ds.drop_last());
        let prev = detail_levels(ls, ds.drop_last());
        let x = ds.last().level;
        let pos = lemma_first_not_below(prev, x);
        lemma_insert_sorted(prev, x, pos);
    }
}

proof fn lemma_first_not_below(ls: Seq<i32>, x: i32) -> (p: int)
    ensures
        0 <= p <= ls.len(),
        forall|a: int| 0 <= a < p ==> ls[a] < x,
        p < ls.len() ==> ls[p] >= x,
    decreases ls.len(),
{
    if ls.len() == 0 || ls[0] >= x {
        0
    } else {
        let rest = ls.drop_first();
        let q = lemma_first_not_below(rest, x);
        assert forall|a: int| 0 <= a < q + 1 implies ls[a] < x by {
            if a > 0 {
                assert(ls[a] == rest[a - 1]);
            }
        }
        assert(q + 1 < ls.len() ==> ls[q + 1] == rest[q]);
        q + 1
    }
}

proof fn lemma_skill_levels_increasing(es: Seq<RawSkillEffect>)
    ensures
        increasing(skill_levels(es)),
    decreases es.len(),
{
    if es.len() > 0 {
        lemma_skill_levels_increasing(es.drop_last());
        lemma_levels_increasing(skill_levels(es.drop_last()), es.last().skill_effect_details@);
    }
}

/// The levels of a skill, ascending and distinct (see [`skill_levels`]).
pub fn levels_of(skill: &RawSkill) -> (r: Vec<i32>)
    ensures
        r@ == skill_levels(skill.skill_effects@),
        increasing(r@),
{
    let es = &skill.skill_effects;
    let mut out: Vec<i32> = Vec::new();
    let mut i: usize = 0;
    assert(es@.subrange(0, 0) =~= Seq::<RawSkillEffect>::empty());
    while i < es.len()
        invariant
            i <= es@.len(),
            out@ == skill_levels(es@.subrange(0, i as int)),
            increasing(out@),
        decreases es@.len() - i,
    {
        let ds = &es[i].skill_effect_details;
        assert(es@.subrange(0, i + 1).drop_last() =~= es@.subrange(0, i as int));
        assert(es@.subrange(0, i + 1).last() == es@[i as int]);
        let ghost base = out@;
        let mut j: usize = 0;
        assert(ds@.subrange(0, 0) =~= Seq::<RawSkillEffectDetail>::empty());
        while j < ds.len()
            invariant
                j <= ds@.len(),
                out@ == detail_levels(base, ds@.subrange(0, j as int)),
                increasing(out@),
            decreases ds@.len() - j,
        {
            assert(ds@.subrange(0, j + 1).drop_last() =~= ds@.subrange(0, j as int));
            assert(ds@.subrange(0, j + 1).last() == ds@[j as int]);
            insert_level(&mut out, ds[j].level);
            j = j + 1;
        }
        assert(ds@.subrange(0, j as int) =~= ds@);
        i = i + 1;
    }
    assert(es@.subrange(0, i as int) =~= es@);
    out
}

/// The values of a list of skill effect rows.
pub open spec fn effect_rows(v: Seq<SkillEffect>) -> Seq<EffectRow> {
    v.map_values(|e: SkillEffect| effect_row(e))
}

fn push_row(out: &mut Vec<SkillEffect>, e: SkillEffect)
    ensures
        effect_rows(final(out)@) == effect_rows(old(out)@).push(effect_row(e)),
{
    out.push(e);
    assert(effect_rows(out@) =~= effect_rows(old(out)@).push(effect_row(e)));
}

fn min_count(d: &Vec<(i32, i32)>) -> (r: (i32, i32))
    requires
        d@.len() > 0,
    ensures
        r == min_count_entry(d@),
{
    let mut best = d[0];
    let mut i: usize = 1;
    assert(d@.subrange(0, 1) =~= seq![d@[0]]);
    while i < d.len()
        invariant
            1 <= i <= d@.len(),
            best == min_count_entry(d@.subrange(0, i as int)),
        decreases d@.len() - i,
    {
        assert(d@.subrange(0, i + 1).drop_last() =~= d@.subrange(0, i as int));
        assert(d@.subrange(0, i + 1).last() == d@[i as int]);
        if d[i].0 < best.0 {
            best = d[i];
        }
        i = i + 1;
    }
    assert(d@.subrange(0, i as int) =~= d@);
    best
}

fn opt_clone(o: Option<&String>) -> (r: Option<String>)
    ensures
        opt_chars(r) == opt_chars_ref(o),
{
    match o {
        Some(s) => Some(s.clone()),
        None => None,
    }
}

fn push_enhance_rows(out: &mut Vec<SkillEffect>, id: i32, level: i32, s: i32, inc: i32, unit: Option<String>)
    requires
        fits_i32(5 * inc),
        fits_i32(s + 5 * inc),
    ensures
        effect_rows(final(out)@) == effect_rows(old(out)@) + enhance_rows(id, level, s as int, inc, opt_chars(unit)),
{
    let ghost start = effect_rows(out@);
    proof {
        reveal_strlit("score_up_unit_count");
    }
    let mut count: i32 = 1;
    while count <= 5
        invariant
            1 <= count <= 6,
            fits_i32(5 * inc),
            fits_i32(s + 5 * inc),
            effect_rows(out@) == start + enhance_rows(id, level, s as int, inc, opt_chars(unit)).subrange(0, count - 1),
        decreases 6 - count,
    {
        let multiplier: i32 = if count == 5 { 5 } else { count - 1 };
        assert(0 <= multiplier <= 5);
        assert(fits_i32(multiplier * inc) && fits_i32(s + multiplier * inc)) by (nonlinear_arith)
            requires
                0 <= multiplier <= 5,
                fits_i32(5 * inc as int),
                fits_i32(s + 5 * inc as int),
                fits_i32(s as int),
        {
        }
        let row = SkillEffect {
            skill_id: id,
            skill_level: level,
            effect_type: String::from_str("score_up_unit_count"),
            value: s + multiplier * inc,
            additional_value: None,
            unit_member_count: Some(count),
            unit: opt_clone(unit.as_ref()),
            activate_character_rank: None,
        };
        push_row(out, row);
        assert(enhance_rows(id, level, s as int, inc, opt_chars(unit)).subrange(0, count as int) =~= enhance_rows(
            id,
            level,
            s as int,
            inc,
            opt_chars(unit),
        ).subrange(0, count - 1).push(effect_row(row)));
        count = count + 1;
    }
    assert(enhance_rows(id, level, s as int, inc, opt_chars(unit)).subrange(0, 5) =~= enhance_rows(
        id,
        level,
        s as int,
        inc,
        opt_chars(unit),
    ));
}

/// Appends the effect rows of a skill at one level (see [`level_rows`]).
#[verifier::rlimit(60)]
pub fn push_level_rows(
    out: &mut Vec<SkillEffect>,
    id: i32,
    level: i32,
    acc: &LevelEffects,
    skill_unit: Option<&String>,
)
    requires
        enhance_fits(acc_view(*acc)),
    ensures
        effect_rows(final(out)@) == effect_rows(old(out)@) + level_rows(id, level, acc_view(*acc), opt_chars_ref(skill_unit)),
{
    proof {
        reveal_strlit("score_up");
        reveal_strlit("life_recovery");
        reveal_strlit("score_up_character_rank");
        reveal_strlit("score_up_reference");
        reveal_strlit("score_up_diff");
    }
    let ghost a = acc_view(*acc);
    let ghost start = effect_rows(out@);
    match acc.score_up {
        Some(s) => {
            push_row(
                out,
                SkillEffect {
                    skill_id: id,
                    skill_level: level,
                    effect_type: String::from_str("score_up"),
                    value: s,
                    additional_value: None,
                    unit_member_count: None,
                    unit: None,
                    activate_character_rank: None,
                },
            );
            match &acc.same_unit {
                Some((inc, unit)) => {
                    let u = match unit {
                        Some(x) => Some(x.clone()),
                        None => opt_clone(skill_unit),
                    };
                    push_enhance_rows(out, id, level, s, *inc, u);
                },
                None => {},
            }
        },
        None => {},
    }
    let ghost score = match a.score_up {
        Some(s) => seq![plain_row(id, level, "score_up"@, s)] + match a.same_unit {
            Some((inc, unit)) => enhance_rows(
                id,
                level,
                s,
                inc,
                if unit is Some {
                    unit
                } else {
                    opt_chars_ref(skill_unit)
                },
            ),
            None => Seq::empty(),
        },
        None => Seq::empty(),
    };
    assert(effect_rows(out@) =~= start + score);
    match acc.life {
        Some(l) => {
            push_row(
                out,
                SkillEffect {
                    skill_id: id,
                    skill_level: level,
                    effect_type: String::from_str("life_recovery"),
                    value: l,
                    additional_value: None,
                    unit_member_count: None,
                    unit: None,
                    activate_character_rank: None,
                },
            );
        },
        None => {},
    }
    let ghost life = match a.life {
        Some(l) => seq![plain_row(id, level, "life_recovery"@, l)],
        None => Seq::empty(),
    };
    assert(effect_rows(out@) =~= start + score + life);
    let ghost mid = effect_rows(out@);
    let ghost ranks = a.ranks.map_values(
        |p: (i32, i32)|
            EffectRow { activate_character_rank: Some(p.0), ..plain_row(id, level, "score_up_character_rank"@, p.1 as int) },
    );
    let mut k: usize = 0;
    while k < acc.ranks.len()
        invariant
            k <= acc.ranks@.len(),
            a == acc_view(*acc),
            effect_rows(out@) == mid + ranks.subrange(0, k as int),
            ranks.len() == acc.ranks@.len(),
            forall|q: int| 0 <= q < ranks.len() ==> #[trigger] ranks[q] == (EffectRow {
                activate_character_rank: Some(acc.ranks@[q].0),
                ..plain_row(id, level, "score_up_character_rank"@, acc.ranks@[q].1 as int)
            }),
        decreases acc.ranks@.len() - k,
    {
        proof {
            reveal_strlit("score_up_character_rank");
        }
        let (rank, value) = acc.ranks[k];
        let row = SkillEffect {
            skill_id: id,
            skill_level: level,
            effect_type: String::from_str("score_up_character_rank"),
            value,
            additional_value: None,
            unit_member_count: None,
            unit: None,
            activate_character_rank: Some(rank),
        };
        push_row(out, row);
        assert(ranks.subrange(0, k + 1) =~= ranks.subrange(0, k as int).push(effect_row(row)));
        k = k + 1;
    }
    assert(ranks.subrange(0, k as int) =~= ranks);
    match acc.ref_rate {
        Some(r) => {
            push_row(
                out,
                SkillEffect {
                    skill_id: id,
                    skill_level: level,
                    effect_type: String::from_str("score_up_reference"),
                    value: r,
                    additional_value: acc.ref_max,
                    unit_member_count: None,
                    unit: None,
                    activate_character_rank: None,
                },
            );
        },
        None => {},
    }
    let ghost reference = match a.ref_rate {
        Some(r) => seq![EffectRow { additional_value: a.ref_max, ..plain_row(id, level, "score_up_reference"@, r as int) }],
        None => Seq::empty(),
    };
    assert(effect_rows(out@) =~= start + score + life + ranks + reference);
    match acc.score_up {
        Some(s) => {
            if acc.diffs.len() > 0 {
                let m = min_count(&acc.diffs);
                push_row(
                    out,
                    SkillEffect {
                        skill_id: id,
                        skill_level: level,
                        effect_type: String::from_str("score_up_diff"),
                        value: s,
                        additional_value: Some(m.1),
                        unit_member_count: None,
                        unit: None,
                        activate_character_rank: None,
                    },
                );
            }
        },
        None => {},
    }
    let ghost diff = match a.score_up {
        Some(s) => if a.diffs.len() > 0 {
            seq![EffectRow { additional_value: Some(min_count_entry(a.diffs).1), ..plain_row(id, level, "score_up_diff"@, s) }]
        } else {
            Seq::empty()
        },
        None => Seq::empty(),
    };
    assert(effect_rows(out@) =~= start + (score + life + ranks + reference + diff));
}

/// Whether every skill's rows can be computed in `i32` (see [`skill_fits`]).
pub open spec fn skills_fit(skills: Seq<RawSkill>) -> bool {
    forall|k: int, level: i32| 0 <= k < skills.len() ==> #[trigger] skill_fits(skills[k], level)
}

/// The level rows and effect rows of every skill: one level row per level a
/// skill has, ascending, and the effect rows of each level (see
/// [`all_skill_rows`], [`all_effect_rows`]); member-count rows without a
/// group of their own take the skill's group from `skill_units`.
pub fn flatten_skills(skills: &Vec<RawSkill>, skill_units: &Vec<(i32, String)>) -> (r: (Vec<Skill>, Vec<SkillEffect>))
    requires
        skills_fit(skills@),
    ensures
        r.0@ == all_skill_rows(skills@),
        effect_rows(r.1@) == all_effect_rows(skills@, skill_units@),
{
    let mut skill_out: Vec<Skill> = Vec::new();
    let mut effect_out: Vec<SkillEffect> = Vec::new();
    let mut i: usize = 0;
    assert(skills@.subrange(0, 0) =~= Seq::<RawSkill>::empty());
    assert(effect_rows(effect_out@) =~= Seq::<EffectRow>::empty());
    while i < skills.len()
        invariant
            i <= skills@.len(),
            skills_fit(skills@),
            skill_out@ == all_skill_rows(skills@.subrange(0, i as int)),
            effect_rows(effect_out@) == all_effect_rows(skills@.subrange(0, i as int), skill_units@),
        decreases skills@.len() - i,
    {
        let skill = &skills[i];
        assert(skills@.subrange(0, i + 1).drop_last() =~= skills@.subrange(0, i as int));
        assert(skills@.subrange(0, i + 1).last() == skills@[i as int]);
        let levels = levels_of(skill);
        let unit = find_skill_unit(skill_units, skill.id);
        let ghost skill_base = skill_out@;
        let ghost effect_base = effect_rows(effect_out@);
        let ghost su = opt_chars_ref(unit);
        let mut j: usize = 0;
        assert(levels@.subrange(0, 0) =~= Seq::<i32>::empty());
        while j < levels.len()
            invariant
                j <= levels@.len(),
                levels@ == skill_levels(skill.skill_effects@),
                forall|level: i32| #[trigger] skill_fits(*skill, level),
                su == opt_chars_ref(unit),
                skill_out@ == skill_base + levels@.subrange(0, j as int).map_values(
                    |l: i32| Skill { id: skill.id, level: l, is_after_training: false },
                ),
                effect_rows(effect_out@) == effect_base + rows_over(*skill, levels@.subrange(0, j as int), su),
            decreases levels@.len() - j,
        {
            let level = levels[j];
            assert(levels@.subrange(0, j + 1).drop_last() =~= levels@.subrange(0, j as int));
            assert(levels@.subrange(0, j + 1).last() == level);
            skill_out.push(Skill { id: skill.id, level, is_after_training: false });
            assert(levels@.subrange(0, j + 1).map_values(|l: i32| Skill { id: skill.id, level: l, is_after_training: false })
                =~= levels@.subrange(0, j as int).map_values(|l: i32| Skill { id: skill.id, level: l, is_after_training: false }).push(
                Skill { id: skill.id, level, is_after_training: false },
            ));
            assert(skill_fits(*skill, level));
            let acc = level_effects(skill, level);
            push_level_rows(&mut effect_out, skill.id, level, &acc, unit);
            j = j + 1;
        }
        assert(levels@.subrange(0, j as int) =~= levels@);
        i = i + 1;
    }
    assert(skills@.subrange(0, i as int) =~= skills@);
    (skill_out, effect_out)
}

/// An area item at one level as the file holds it (rates in hundredths of a percent).
#[derive(Clone, Debug)]
pub struct RawAreaItemLevel {
    pub area_item_id: i32,
    pub level: i32,
    pub target_unit: Option<String>,
    pub target_card_attr: Option<String>,
    pub target_game_character_id: Option<i32>,
    pub power1_bonus_rate_x100: i32,
    pub power1_all_match_bonus_rate_x100: i32,
}

/// Whether a table row is the normalised form of a raw row.
pub open spec fn area_row_of(row: AreaItemLevel, raw: RawAreaItemLevel) -> bool {
    &&& row.area_item_id == raw.area_item_id
    &&& row.level == raw.level
    &&& opt_chars(row.unit) == norm_target(opt_chars(raw.target_unit))
    &&& opt_chars(row.attr) == norm_target(opt_chars(raw.target_card_attr))
    &&& row.character_id == raw.target_game_character_id
    &&& row.power_rate_x100 == raw.power1_bonus_rate_x100
    &&& row.power_all_match_rate_x100 == raw.power1_all_match_bonus_rate_x100
}

/// Character order on strings (a proper prefix first).
pub open spec fn chars_lt(a: Seq<char>, b: Seq<char>) -> bool
    decreases a.len(),
{
    if a.len() == 0 {
        b.len() > 0
    } else if b.len() == 0 {
        false
    } else if a[0] != b[0] {
        (a[0] as u32) < (b[0] as u32)
    } else {
        chars_lt(a.drop_first(), b.drop_first())
    }
}

/// Order on optional names: a missing name first.
pub open spec fn opt_name_lt(a: Option<Seq<char>>, b: Option<Seq<char>>) -> bool {
    match (a, b) {
        (None, Some(_)) => true,
        (Some(x), Some(y)) => chars_lt(x, y),
        _ => false,
    }
}

/// Order on optional integers: a missing one first.
pub open spec fn opt_i32_lt(a: Option<i32>, b: Option<i32>) -> bool {
    match (a, b) {
        (None, Some(_)) => true,
        (Some(x), Some(y)) => x < y,
        _ => false,
    }
}

/// Order of area-item rows by (item, group, attribute, character, level).
pub open spec fn area_lt(a: AreaItemLevel, b: AreaItemLevel) -> bool {
    ||| a.area_item_id < b.area_item_id
    ||| a.area_item_id == b.area_item_id && opt_name_lt(opt_chars(a.unit), opt_chars(b.unit))
    ||| a.area_item_id == b.area_item_id && opt_chars(a.unit) == opt_chars(b.unit) && opt_name_lt(
        opt_chars(a.attr),
        opt_chars(b.attr),
    )
    ||| a.area_item_id == b.area_item_id && opt_chars(a.unit) == opt_chars(b.unit) && opt_chars(a.attr)
        == opt_chars(b.attr) && opt_i32_lt(a.character_id, b.character_id)
    ||| a.area_item_id == b.area_item_id && opt_chars(a.unit) == opt_chars(b.unit) && opt_chars(a.attr)
        == opt_chars(b.attr) && a.character_id == b.character_id && a.level < b.level
}

/// Whether two area-item rows have the same (item, group, attribute, character, level).
pub open spec fn same_area_key(a: AreaItemLevel, b: AreaItemLevel) -> bool {
    &&& a.area_item_id == b.area_item_id
    &&& opt_chars(a.unit) == opt_chars(b.unit)
    &&& opt_chars(a.attr) == opt_chars(b.attr)
    &&& a.character_id == b.character_id
    &&& a.level == b.level
}

/// Sort key of one character: its code point plus one.
pub open spec fn char_key(c: char) -> i64 {
    ((c as u32) + 1) as i64
}

/// `n` zero keys.
pub open spec fn zero_keys(n: int) -> Seq<i64> {
    Seq::new(if n > 0 { n as nat } else { 0 }, |i: int| 0i64)
}

/// Sort key of a name padded to width `w`: a missing name as zeros, a name
/// as 1 followed by its characters shifted up by one and zero padding.
pub open spec fn name_key(o: Option<Seq<char>>, w: int) -> Seq<i64> {
    match o {
        None => zero_keys(w + 1),
        Some(s) => seq![1i64] + s.map_values(|c: char| char_key(c)) + zero_keys(w - s.len()),
    }
}

/// Sort key of an optional integer.
pub open spec fn opt_key(o: Option<i32>) -> Seq<i64> {
    match o {
        None => seq![0i64, 0i64],
        Some(x) => seq![1i64, x as i64],
    }
}

/// Sort key of an area-item row with names padded to widths `wu` and `wa`.
pub open spec fn area_key(r: AreaItemLevel, wu: int, wa: int) -> Seq<i64> {
    seq![r.area_item_id as i64] + name_key(opt_chars(r.unit), wu) + name_key(opt_chars(r.attr), wa) + opt_key(
        r.character_id,
    ) + seq![r.level as i64]
}

/// Length of an optional name (0 when missing).
pub open spec fn name_len(o: Option<Seq<char>>) -> int {
    match o {
        Some(s) => s.len() as int,
        None => 0,
    }
}

proof fn lemma_lex_concat(a1: Seq<i64>, a2: Seq<i64>, b1: Seq<i64>, b2: Seq<i64>)
    requires
        a1.len() == b1.len(),
        lex_lt(a1 + a2, b1 + b2),
    ensures
        lex_lt(a1, b1) || (a1 == b1 && lex_lt(a2, b2)),
    decreases a1.len(),
{
    if a1.len() == 0 {
        assert(a1 + a2 =~= a2);
        assert(b1 + b2 =~= b2);
        assert(a1 =~= b1);
    } else {
        assert((a1 + a2)[0] == a1[0]);
        assert((b1 + b2)[0] == b1[0]);
        if a1[0] == b1[0] {
            assert((a1 + a2).drop_first() =~= a1.drop_first() + a2);
            assert((b1 + b2).drop_first() =~= b1.drop_first() + b2);
            lemma_lex_concat(a1.drop_first(), a2, b1.drop_first(), b2);
            if a1.drop_first() == b1.drop_first() {
                assert(a1 =~= seq![a1[0]] + a1.drop_first());
                assert(b1 =~= seq![b1[0]] + b1.drop_first());
            }
        }
    }
}

proof fn lemma_shifted_lt(x: Seq<char>, y: Seq<char>, w: int)
    requires
        x.len() <= w,
        y.len() <= w,
        lex_lt(
            x.map_values(|c: char| char_key(c)) + zero_keys(w - x.len()),
            y.map_values(|c: char| char_key(c)) + zero_keys(w - y.len()),
        ),
    ensures
        chars_lt(x, y),
    decreases x.len(),
{
    let sx = x.map_values(|c: char| char_key(c)) + zero_keys(w - x.len());
    let sy = y.map_values(|c: char| char_key(c)) + zero_keys(w - y.len());
    if x.len() == 0 {
        if y.len() == 0 {
            assert(sx =~= sy);
            lemma_lex_irrefl(sx);
        }
    } else if y.len() == 0 {
        assert(sx[0] == char_key(x[0]));
        assert(sy[0] == 0);
    } else {
        assert(sx[0] == char_key(x[0]));
        assert(sy[0] == char_key(y[0]));
        if x[0] == y[0] {
            assert(sx.drop_first() =~= x.drop_first().map_values(|c: char| char_key(c)) + zero_keys(
                (w - 1) - x.drop_first().len(),
            ));
            assert(sy.drop_first() =~= y.drop_first().map_values(|c: char| char_key(c)) + zero_keys(
                (w - 1) - y.drop_first().len(),
            ));
            lemma_shifted_lt(x.drop_first(), y.drop_first(), w - 1);
        } else {
            vstd::utf8::char_u32_cast(x[0], x[0] as u32);
            vstd::utf8::char_u32_cast(y[0], y[0] as u32);
        }
    }
}

proof fn lemma_shifted_eq(x: Seq<char>, y: Seq<char>, w: int)
    requires
        x.len() <= w,
        y.len() <= w,
        x.map_values(|c: char| char_key(c)) + zero_keys(w - x.len()) == y.map_values(
            |c: char| char_key(c),
        ) + zero_keys(w - y.len()),
    ensures
        x == y,
    decreases x.len(),
{
    let sx = x.map_values(|c: char| char_key(c)) + zero_keys(w - x.len());
    let sy = y.map_values(|c: char| char_key(c)) + zero_keys(w - y.len());
    if x.len() == 0 {
        if y.len() > 0 {
            assert(sx[0] == 0);
            assert(sy[0] == char_key(y[0]));
        } else {
            assert(x =~= y);
        }
    } else if y.len() == 0 {
        assert(sx[0] == char_key(x[0]));
        assert(sy[0] == 0);
    } else {
        assert(sx[0] == char_key(x[0]));
        assert(sy[0] == char_key(y[0]));
        vstd::utf8::char_u32_cast(x[0], x[0] as u32);
        vstd::utf8::char_u32_cast(y[0], y[0] as u32);
        assert(x[0] == y[0]);
        assert(sx.drop_first() =~= x.drop_first().map_values(|c: char| char_key(c)) + zero_keys(
            (w - 1) - x.drop_first().len(),
        ));
        assert(sy.drop_first() =~= y.drop_first().map_values(|c: char| char_key(c)) + zero_keys(
            (w - 1) - y.drop_first().len(),
        ));
        lemma_shifted_eq(x.drop_first(), y.drop_first(), w - 1);
        assert(x =~= seq![x[0]] + x.drop_first());
        assert(y =~= seq![y[0]] + y.drop_first());
    }
}

proof fn lemma_name_key(a: Option<Seq<char>>, b: Option<Seq<char>>, w: int)
    requires
        name_len(a) <= w,
        name_len(b) <= w,
        w >= 0,
    ensures
        name_key(a, w).len() == w + 1,
        name_key(b, w).len() == w + 1,
        lex_lt(name_key(a, w), name_key(b, w)) ==> opt_name_lt(a, b),
        name_key(a, w) == name_key(b, w) ==> a == b,
{
    let ka = name_key(a, w);
    let kb = name_key(b, w);
    match (a, b) {
        (None, None) => {
            lemma_lex_irrefl(ka);
        },
        (None, Some(y)) => {
            assert(ka[0] == 0);
            assert(kb[0] == 1);
        },
        (Some(x), None) => {
            assert(ka[0] == 1);
            assert(kb[0] == 0);
        },
        (Some(x), Some(y)) => {
            let sx = x.map_values(|c: char| char_key(c)) + zero_keys(w - x.len());
            let sy = y.map_values(|c: char| char_key(c)) + zero_keys(w - y.len());
            assert(ka =~= seq![1i64] + sx);
            assert(kb =~= seq![1i64] + sy);
            if lex_lt(ka, kb) {
                assert(ka.drop_first() =~= sx);
                assert(kb.drop_first() =~= sy);
                lemma_shifted_lt(x, y, w);
            }
            if ka == kb {
                assert(sx =~= ka.drop_first());
                assert(sy =~= kb.drop_first());
                lemma_shifted_eq(x, y, w);
            }
        },
    }
}

proof fn lemma_opt_key(a: Option<i32>, b: Option<i32>)
    ensures
        opt_key(a).len() == 2,
        lex_lt(opt_key(a), opt_key(b)) ==> opt_i32_lt(a, b),
        opt_key(a) == opt_key(b) ==> a == b,
{
    reveal_with_fuel(lex_lt, 3);
    let ka = opt_key(a);
    let kb = opt_key(b);
    assert(ka.drop_first().drop_first() =~= Seq::<i64>::empty());
    assert(kb.drop_first().drop_first() =~= Seq::<i64>::empty());
    assert(ka.drop_first()[0] == ka[1]);
    assert(kb.drop_first()[0] == kb[1]);
    if ka == kb {
        assert(ka[0] == kb[0] && ka[1] == kb[1]);
    }
}

proof fn lemma_level_key(x: i32, y: i32)
    ensures
        lex_lt(seq![x as i64], seq![y as i64]) ==> x < y,
{
    reveal_with_fuel(lex_lt, 2);
    let kx = seq![x as i64];
    let ky = seq![y as i64];
    assert(kx.drop_first() =~= Seq::<i64>::empty());
    assert(ky.drop_first() =~= Seq::<i64>::empty());
}

proof fn lemma_area_key_lt(a: AreaItemLevel, b: AreaItemLevel, wu: int, wa: int)
    requires
        0 <= wu,
        0 <= wa,
        name_len(opt_chars(a.unit)) <= wu,
        name_len(opt_chars(b.unit)) <= wu,
        name_len(opt_chars(a.attr)) <= wa,
        name_len(opt_chars(b.attr)) <= wa,
        lex_lt(area_key(a, wu, wa), area_key(b, wu, wa)),
    ensures
        area_lt(a, b),
{
    let ua = name_key(opt_chars(a.unit), wu);
    let ub = name_key(opt_chars(b.unit), wu);
    let ta = name_key(opt_chars(a.attr), wa);
    let tb = name_key(opt_chars(b.attr), wa);
    lemma_name_key(opt_chars(a.unit), opt_chars(b.unit), wu);
    lemma_name_key(opt_chars(a.attr), opt_chars(b.attr), wa);
    lemma_opt_key(a.character_id, b.character_id);
    lemma_level_key(a.level, b.level);
    let ia = seq![a.area_item_id as i64];
    let ib = seq![b.area_item_id as i64];
    let ca = opt_key(a.character_id);
    let cb = opt_key(b.character_id);
    let la = seq![a.level as i64];
    let lb = seq![b.level as i64];
    assert(area_key(a, wu, wa) =~= ia + (ua + (ta + (ca + la))));
    assert(area_key(b, wu, wa) =~= ib + (ub + (tb + (cb + lb))));
    lemma_lex_irrefl(ia);
    lemma_lex_irrefl(ua);
    lemma_lex_irrefl(ta);
    lemma_lex_irrefl(ca);
    lemma_lex_concat(ia, ua + (ta + (ca + la)), ib, ub + (tb + (cb + lb)));
    if ia == ib {
        assert(ia[0] == ib[0]);
        lemma_lex_concat(ua, ta + (ca + la), ub, tb + (cb + lb));
        if ua == ub {
            lemma_lex_concat(ta, ca + la, tb, cb + lb);
            if ta == tb {
                lemma_lex_concat(ca, la, cb, lb);
            }
        }
    } else {
        assert(lex_lt(ia, ib));
        assert(ia.drop_first() =~= Seq::<i64>::empty());
        assert(ib.drop_first() =~= Seq::<i64>::empty());
        assert(ia[0] < ib[0]);
    }
}

proof fn lemma_area_key_eq(a: AreaItemLevel, b: AreaItemLevel, wu: int, wa: int)
    requires
        0 <= wu,
        0 <= wa,
        name_len(opt_chars(a.unit)) <= wu,
        name_len(opt_chars(b.unit)) <= wu,
        name_len(opt_chars(a.attr)) <= wa,
        name_len(opt_chars(b.attr)) <= wa,
        area_key(a, wu, wa) == area_key(b, wu, wa),
    ensures
        same_area_key(a, b),
{
    let ka = area_key(a, wu, wa);
    let kb = area_key(b, wu, wa);
    let ua = name_key(opt_chars(a.unit), wu);
    let ub = name_key(opt_chars(b.unit), wu);
    let ta = name_key(opt_chars(a.attr), wa);
    let tb = name_key(opt_chars(b.attr), wa);
    lemma_name_key(opt_chars(a.unit), opt_chars(b.unit), wu);
    lemma_name_key(opt_chars(a.attr), opt_chars(b.attr), wa);
    lemma_opt_key(a.character_id, b.character_id);
    assert(ua =~= ka.subrange(1, wu + 2));
    assert(ub =~= kb.subrange(1, wu + 2));
    assert(ta =~= ka.subrange(wu + 2, wu + wa + 3));
    assert(tb =~= kb.subrange(wu + 2, wu + wa + 3));
    assert(opt_key(a.character_id) =~= ka.subrange(wu + wa + 3, wu + wa + 5));
    assert(opt_key(b.character_id) =~= kb.subrange(wu + wa + 3, wu + wa + 5));
    assert(ka[0] == a.area_item_id as i64);
    assert(kb[0] == b.area_item_id as i64);
    assert(ka[wu + wa + 5] == a.level as i64);
    assert(kb[wu + wa + 5] == b.level as i64);
}

fn push_zeros(out: &mut Vec<i64>, n: usize)
    ensures
        final(out)@ == old(out)@ + zero_keys(n as int),
{
    let mut k: usize = 0;
    while k < n
        invariant
            k <= n,
            out@ == old(out)@ + zero_keys(k as int),
        decreases n - k,
    {
        out.push(0);
        assert(zero_keys(k + 1) =~= zero_keys(k as int).push(0i64));
        k = k + 1;
    }
}

fn push_name_key(out: &mut Vec<i64>, name: &Option<String>, w: usize)
    requires
        name_len(opt_chars(*name)) <= w,
    ensures
        final(out)@ == old(out)@ + name_key(opt_chars(*name), w as int),
{
    match name {
        None => {
            out.push(0);
            push_zeros(out, w);
            assert(out@ =~= old(out)@ + name_key(opt_chars(*name), w as int));
        },
        Some(s) => {
            let t = s.as_str();
            let n = t.unicode_len();
            out.push(1);
            let ghost start = out@;
            let mut i: usize = 0;
            while i < n
                invariant
                    i <= n,
                    n == t@.len(),
                    out@ == start + t@.subrange(0, i as int).map_values(|c: char| char_key(c)),
                decreases n - i,
            {
                let c = t.get_char(i);
                out.push((c as u32) as i64 + 1);
                assert(t@.subrange(0, i + 1).map_values(|c: char| char_key(c)) =~= t@.subrange(0, i as int).map_values(
                    |c: char| char_key(c),
                ).push(char_key(c)));
                i = i + 1;
            }
            assert(t@.subrange(0, n as int) =~= t@);
            push_zeros(out, w - n);
            assert(out@ =~= old(out)@ + name_key(opt_chars(*name), w as int));
        },
    }
}

fn name_width(o: &Option<String>) -> (r: usize)
    ensures
        r == name_len(opt_chars(*o)),
{
    match o {
        Some(s) => s.as_str().unicode_len(),
        None => 0,
    }
}

/// Normalised area-item rows, sorted stably by (item, group, attribute,
/// character, level): each output row is the normalised form of the raw row
/// `ord[k]` for an order `ord` that lists rows by that key and, among equal
/// keys, in file order.
pub fn flatten_area_item_levels(raw: &Vec<RawAreaItemLevel>) -> (r: Vec<AreaItemLevel>)
    ensures
        r@.len() == raw@.len(),
        exists|ord: Seq<usize>|
            is_order(ord, raw@.len() as int) && (forall|k: int| 0 <= k < r@.len() ==> area_row_of(#[trigger] r@[k], raw@[ord[k] as int]))
                && (forall|a: int, b: int|
                0 <= a < b < r@.len() ==> area_lt(#[trigger] r@[a], #[trigger] r@[b]) || (same_area_key(r@[a], r@[b])
                    && ord[a] < ord[b])),
{
    let n = raw.len();
    let mut rows: Vec<AreaItemLevel> = Vec::new();
    let mut wu: usize = 0;
    let mut wa: usize = 0;
    let mut i: usize = 0;
    while i < n
        invariant
            i <= n,
            n == raw@.len(),
            rows@.len() == i,
            forall|k: int| 0 <= k < i ==> area_row_of(#[trigger] rows@[k], raw@[k]),
            forall|k: int| 0 <= k < i ==> name_len(opt_chars(#[trigger] rows@[k].unit)) <= wu,
            forall|k: int| 0 <= k < i ==> name_len(opt_chars(#[trigger] rows@[k].attr)) <= wa,
        decreases n - i,
    {
        let item = &raw[i];
        let row = AreaItemLevel {
            area_item_id: item.area_item_id,
            level: item.level,
            unit: normalize_target_token(&item.target_unit),
            attr: normalize_target_token(&item.target_card_attr),
            character_id: item.target_game_character_id,
            power_rate_x100: item.power1_bonus_rate_x100,
            power_all_match_rate_x100: item.power1_all_match_bonus_rate_x100,
        };
        let lu = name_width(&row.unit);
        let la = name_width(&row.attr);
        if lu > wu {
            wu = lu;
        }
        if la > wa {
            wa = la;
        }
        rows.push(row);
        i = i + 1;
    }
    let mut keys: Vec<Vec<i64>> = Vec::new();
    let mut j: usize = 0;
    while j < n
        invariant
            j <= n,
            rows@.len() == n,
            forall|k: int| 0 <= k < n ==> name_len(opt_chars(#[trigger] rows@[k].unit)) <= wu,
            forall|k: int| 0 <= k < n ==> name_len(opt_chars(#[trigger] rows@[k].attr)) <= wa,
            keys@.len() == j,
            forall|k: int| 0 <= k < j ==> (#[trigger] keys@[k])@ == area_key(rows@[k], wu as int, wa as int),
        decreases n - j,
    {
        let row = &rows[j];
        let mut key: Vec<i64> = Vec::new();
        key.push(row.area_item_id as i64);
        push_name_key(&mut key, &row.unit, wu);
        push_name_key(&mut key, &row.attr, wa);
        match row.character_id {
            None => {
                key.push(0);
                key.push(0);
            },
            Some(c) => {
                key.push(1);
                key.push(c as i64);
            },
        }
        key.push(row.level as i64);
        assert(key@ =~= area_key(*row, wu as int, wa as int));
        keys.push(key);
        j = j + 1;
    }
    proof {
        assert forall|a: int, b: int| 0 <= a < keys@.len() && 0 <= b < keys@.len() implies #[trigger] key_views(keys@)[a].len()
            == #[trigger] key_views(keys@)[b].len() by {
            lemma_name_key(opt_chars(rows@[a].unit), opt_chars(rows@[b].unit), wu as int);
            lemma_name_key(opt_chars(rows@[a].attr), opt_chars(rows@[b].attr), wa as int);
            lemma_opt_key(rows@[a].character_id, rows@[b].character_id);
            lemma_opt_key(rows@[b].character_id, rows@[a].character_id);
        }
    }
    let ord = stable_order(&keys);
    let ghost rv = rows@;
    let out = permute(rows, &ord);
    proof {
        let kv = key_views(keys@);
        assert forall|a: int, b: int| 0 <= a < b < out@.len() implies area_lt(#[trigger] out@[a], #[trigger] out@[b]) || (
        same_area_key(out@[a], out@[b]) && ord@[a] < ord@[b]) by {
            let oa = ord@[a] as int;
            let ob = ord@[b] as int;
            assert(kv[oa] == area_key(rv[oa], wu as int, wa as int));
            assert(kv[ob] == area_key(rv[ob], wu as int, wa as int));
            if lex_lt(kv[oa], kv[ob]) {
                lemma_area_key_lt(rv[oa], rv[ob], wu as int, wa as int);
            } else {
                lemma_area_key_eq(rv[oa], rv[ob], wu as int, wa as int);
            }
        }
        assert(forall|k: int| 0 <= k < out@.len() ==> area_row_of(#[trigger] out@[k], raw@[ord@[k] as int]));
    }
    out
}

/// Asset name of a card that the file leaves out: `card_NNNNNN_normal` for a
/// card that can be trained, `chara_NNNNNN` otherwise.
pub open spec fn default_asset_name(card: RawCard) -> Seq<char> {
    if card.special_training_skill_id is Some {
        "card_"@ + padded6(card.id as int) + "_normal"@
    } else {
        "chara_"@ + padded6(card.id as int)
    }
}

/// The masterdata card of a raw card.
pub open spec fn master_card_view(c: RawCard) -> MasterCardView {
    MasterCardView {
        id: c.id,
        character_id: c.character_id,
        attr: c.attr@,
        card_rarity_type: rarity_index(c.card_rarity_type@),
        rarity: c.card_rarity_type@,
        asset_bundle_name: match c.asset_bundle_name {
            Some(a) => a@,
            None => default_asset_name(c),
        },
        skill_id: c.skill_id,
        special_training_skill_id: c.special_training_skill_id,
        special_training_power1_bonus_fixed: c.special_training_power1_bonus_fixed,
        special_training_power2_bonus_fixed: c.special_training_power2_bonus_fixed,
        special_training_power3_bonus_fixed: c.special_training_power3_bonus_fixed,
        support_unit: norm_unit(opt_chars(c.support_unit)),
        max_level: None,
        max_skill_level: None,
        max_master_rank: None,
    }
}

/// The masterdata card of a raw card (see [`master_card_view`]).
pub fn master_card(c: &RawCard) -> (r: MasterCard)
    ensures
        r@ == master_card_view(*c),
{
    let asset_bundle_name = match &c.asset_bundle_name {
        Some(a) => a.clone(),
        None => {
            proof {
                reveal_strlit("card_");
                reveal_strlit("_normal");
                reveal_strlit("chara_");
            }
            if c.special_training_skill_id.is_some() {
                let mut name = String::from_str("card_");
                name.append(pad6(c.id).as_str());
                name.append("_normal");
                name
            } else {
                let mut name = String::from_str("chara_");
                name.append(pad6(c.id).as_str());
                name
            }
        },
    };
    MasterCard {
        id: c.id,
        character_id: c.character_id,
        attr: c.attr.clone(),
        card_rarity_type: rarity_type_to_index(c.card_rarity_type.as_str()),
        rarity: c.card_rarity_type.clone(),
        asset_bundle_name,
        skill_id: c.skill_id,
        special_training_skill_id: c.special_training_skill_id,
        special_training_power1_bonus_fixed: c.special_training_power1_bonus_fixed,
        special_training_power2_bonus_fixed: c.special_training_power2_bonus_fixed,
        special_training_power3_bonus_fixed: c.special_training_power3_bonus_fixed,
        support_unit: normalize_unit_string(&c.support_unit),
        max_level: None,
        max_skill_level: None,
        max_master_rank: None,
    }
}

/// Level caps of a rarity as the file holds them.
#[derive(Clone, Debug)]
pub struct RawCardRarity {
    pub card_rarity_type: String,
    pub max_level: i32,
    pub training_max_level: Option<i32>,
    pub max_skill_level: i32,
}

/// A side story as the file holds it.
#[derive(Clone, Copy, Debug)]
pub struct RawCardEpisode {
    pub id: i32,
    pub card_id: i32,
    pub power1_bonus_fixed: i32,
    pub power2_bonus_fixed: i32,
    pub power3_bonus_fixed: i32,
}

/// A master-rank lesson as the file holds it.
#[derive(Clone, Debug)]
pub struct RawMasterLesson {
    pub card_rarity_type: String,
    pub master_rank: i32,
    pub power1_bonus_fixed: i32,
    pub power2_bonus_fixed: i32,
    pub power3_bonus_fixed: i32,
}

/// A canvas bonus as the file holds it.
#[derive(Clone, Debug)]
pub struct RawCardMysekaiCanvasBonus {
    pub card_rarity_type: String,
    pub power1_bonus_fixed: i32,
    pub power2_bonus_fixed: i32,
    pub power3_bonus_fixed: i32,
}

/// A deck-bonus rule as the file holds it: a character-group row id instead
/// of the character (bonus in percent).
#[derive(Clone, Debug)]
pub struct RawEventDeckBonus {
    pub event_id: i32,
    pub game_character_unit_id: Option<i32>,
    pub card_attr: Option<String>,
    pub bonus_rate: i32,
}

/// One difficulty of a song as the song table holds it (constants in millionths).
#[derive(Clone, Debug)]
pub struct RawMusicRow {
    pub music_id: i32,
    pub difficulty: String,
    pub event_rate: i32,
    pub base_score_micro: i64,
    pub base_score_auto_micro: i64,
    pub fever_score_micro: i64,
    pub skill_score_solo_micro: [i64; 6],
    pub skill_score_multi_micro: [i64; 6],
    pub skill_score_auto_micro: [i64; 6],
    pub music_time_micro: i64,
    pub tap_count: i32,
}

/// Event bonus of a rarity at a master rank, for every event (tenths of a percent).
#[derive(Clone, Debug)]
pub struct RawEventRarityBonusRate {
    pub card_rarity_type: String,
    pub master_rank: i32,
    pub bonus_rate_x10: i32,
}

/// The masterdata tables as read from the files, before assembly.
pub struct RawMasterdata {
    pub cards: Vec<RawCard>,
    pub card_rarities: Vec<RawCardRarity>,
    pub card_episodes: Vec<RawCardEpisode>,
    pub master_lessons: Vec<RawMasterLesson>,
    pub skills: Vec<RawSkill>,
    pub area_item_levels: Vec<RawAreaItemLevel>,
    pub game_character_units: Vec<RawGameCharacterUnit>,
    pub character_ranks: Vec<CharacterRank>,
    pub card_mysekai_canvas_bonuses: Vec<RawCardMysekaiCanvasBonus>,
    pub mysekai_gates: Vec<MysekaiGate>,
    pub mysekai_gate_levels: Vec<MysekaiGateLevel>,
    pub events: Vec<Event>,
    pub event_cards: Vec<EventCard>,
    pub event_deck_bonuses: Vec<RawEventDeckBonus>,
    pub event_card_bonus_limits: Vec<EventCardBonusLimit>,
    pub event_honor_bonuses: Vec<EventHonorBonus>,
    pub world_bloom_different_attribute_bonuses: Vec<WorldBloomDiffAttrBonus>,
    pub world_blooms: Vec<WorldBloom>,
    pub wb_support_deck_bonuses_wl1: Vec<WBSupportDeckBonus>,
    pub wb_support_deck_bonuses_wl2: Vec<WBSupportDeckBonus>,
    pub wb_support_deck_bonuses_wl3: Vec<WBSupportDeckBonus>,
    pub world_bloom_support_deck_unit_event_limited_bonuses: Vec<WBSupportDeckUnitEventLimitedBonus>,
    pub event_mysekai_fixture_performance_bonus_limits: Vec<EventFixtureBonusLimit>,
    pub event_skill_score_up_limits: Vec<EventSkillScoreUpLimit>,
    pub music_rows: Vec<RawMusicRow>,
    pub event_rarity_bonus_rates: Vec<RawEventRarityBonusRate>,
    pub honors: Vec<Honor>,
    pub bonds_honors: Vec<BondsHonor>,
}

/// A rarity's caps: the trained cap when the file gives one, else the normal cap.
pub open spec fn rarity_of(r: RawCardRarity) -> CardRarity {
    CardRarity {
        card_rarity_type: rarity_index(r.card_rarity_type@),
        max_level: match r.training_max_level {
            Some(t) => t,
            None => r.max_level,
        },
        normal_max_level: r.max_level,
        max_skill_level: r.max_skill_level,
    }
}

/// A side story of the table.
pub open spec fn episode_of(e: RawCardEpisode) -> CardEpisode {
    CardEpisode {
        card_id: e.card_id,
        episode_no: e.id,
        power1_bonus_fixed: e.power1_bonus_fixed,
        power2_bonus_fixed: e.power2_bonus_fixed,
        power3_bonus_fixed: e.power3_bonus_fixed,
    }
}

/// A master-rank lesson of the table.
pub open spec fn lesson_of(l: RawMasterLesson) -> MasterLesson {
    MasterLesson {
        card_rarity_type: rarity_index(l.card_rarity_type@),
        master_rank: l.master_rank,
        power1_bonus_fixed: l.power1_bonus_fixed,
        power2_bonus_fixed: l.power2_bonus_fixed,
        power3_bonus_fixed: l.power3_bonus_fixed,
    }
}

/// A canvas bonus of the table.
pub open spec fn canvas_of(c: RawCardMysekaiCanvasBonus) -> CardMysekaiCanvasBonus {
    CardMysekaiCanvasBonus {
        card_rarity_type: rarity_index(c.card_rarity_type@),
        power1_bonus_fixed: c.power1_bonus_fixed,
        power2_bonus_fixed: c.power2_bonus_fixed,
        power3_bonus_fixed: c.power3_bonus_fixed,
    }
}

/// The first character-group row with an id.
pub open spec fn unit_row(units: Seq<RawGameCharacterUnit>, id: i32) -> Option<RawGameCharacterUnit>
    decreases units.len(),
{
    if units.len() == 0 {
        None
    } else {
        let prev = unit_row(units.drop_last(), id);
        if prev is Some {
            prev
        } else if units.last().id == id {
            Some(units.last())
        } else {
            None
        }
    }
}

/// The character-group row a deck bonus names.
pub open spec fn bonus_unit_row(b: RawEventDeckBonus, units: Seq<RawGameCharacterUnit>) -> Option<RawGameCharacterUnit> {
    match b.game_character_unit_id {
        Some(id) => unit_row(units, id),
        None => None,
    }
}

/// Whether a deck-bonus rule is that of a raw rule: its character and group
/// those of the named character-group row.
pub open spec fn deck_bonus_of(d: EventDeckBonus, b: RawEventDeckBonus, units: Seq<RawGameCharacterUnit>) -> bool {
    &&& d.event_id == b.event_id
    &&& d.character_id == (match bonus_unit_row(b, units) {
        Some(u) => Some(u.game_character_id),
        None => None,
    })
    &&& opt_chars(d.unit) == (match bonus_unit_row(b, units) {
        Some(u) => Some(u.unit@),
        None => None,
    })
    &&& opt_chars(d.attr) == opt_chars(b.card_attr)
    &&& d.bonus_rate == b.bonus_rate
}

/// Whether a song difficulty row is that of a song-table row (one event
/// rate for every kind of play).
pub open spec fn music_meta_of(m: MusicMeta, r: RawMusicRow) -> bool {
    &&& m.music_id == r.music_id
    &&& m.difficulty@ == r.difficulty@
    &&& m.event_rate_solo == r.event_rate
    &&& m.event_rate_multi == r.event_rate
    &&& m.event_rate_auto == r.event_rate
    &&& m.base_score_micro == r.base_score_micro
    &&& m.base_score_auto_micro == r.base_score_auto_micro
    &&& m.fever_score_micro == r.fever_score_micro
    &&& m.solo_skill_scores_micro == r.skill_score_solo_micro
    &&& m.multi_skill_scores_micro == r.skill_score_multi_micro
    &&& m.auto_skill_scores_micro == r.skill_score_auto_micro
    &&& m.music_time_micro == r.music_time_micro
    &&& m.tap_count == r.tap_count
}

/// Whether an event-rate row is that of a song-table row.
pub open spec fn music_difficulty_of(d: MusicDifficulty, r: RawMusicRow) -> bool {
    d.music_id == r.music_id && d.difficulty@ == r.difficulty@ && d.event_rate == Some(r.event_rate)
}

/// The rarity bonus rows of one rate, one per event in table order.
pub open spec fn rarity_rows(rate: RawEventRarityBonusRate, events: Seq<Event>) -> Seq<EventRarityBonusRate> {
    Seq::new(
        events.len(),
        |j: int|
            EventRarityBonusRate {
                event_id: events[j].id,
                card_rarity_type: rarity_index(rate.card_rarity_type@),
                master_rank: rate.master_rank,
                bonus_rate_x10: rate.bonus_rate_x10,
            },
    )
}

/// Whether every card's grouped parameter lists are short enough for `i32` levels.
pub open spec fn cards_fit(cards: Seq<RawCard>) -> bool {
    forall|k: int| 0 <= k < cards.len() ==> parameters_fit(#[trigger] cards[k])
}

fn collect_cards(cards: &Vec<RawCard>) -> (r: Vec<MasterCard>)
    ensures
        r@.len() == cards@.len(),
        forall|k: int| 0 <= k < cards@.len() ==> (#[trigger] r@[k])@ == master_card_view(cards@[k]),
{
    let mut out: Vec<MasterCard> = Vec::new();
    let mut i: usize = 0;
    while i < cards.len()
        invariant
            i <= cards@.len(),
            out@.len() == i,
            forall|k: int| 0 <= k < i ==> (#[trigger] out@[k])@ == master_card_view(cards@[k]),
        decreases cards@.len() - i,
    {
        out.push(master_card(&cards[i]));
        i = i + 1;
    }
    out
}

fn collect_parameters(cards: &Vec<RawCard>) -> (r: Vec<CardParameter>)
    requires
        cards_fit(cards@),
    ensures
        exists|parts: Seq<Seq<CardParameter>>|
            parts.len() == cards@.len() && (forall|k: int| 0 <= k < cards@.len() ==> parameters_of(cards@[k], #[trigger] parts[k]))
                && r@ == parts.flatten(),
{
    broadcast use Seq::lemma_flatten_push;

    let mut out: Vec<CardParameter> = Vec::new();
    let ghost mut parts: Seq<Seq<CardParameter>> = Seq::empty();
    let mut i: usize = 0;
    while i < cards.len()
        invariant
            i <= cards@.len(),
            cards_fit(cards@),
            parts.len() == i,
            forall|k: int| 0 <= k < i ==> parameters_of(cards@[k], #[trigger] parts[k]),
            out@ == parts.flatten(),
        decreases cards@.len() - i,
    {
        assert(parameters_fit(cards@[i as int]));
        let mut part = flatten_card_parameters(&cards[i]);
        proof {
            parts.lemma_flatten_push(part@);
            parts = parts.push(part@);
        }
        out.append(&mut part);
        i = i + 1;
    }
    out
}

fn collect_rarities(v: &Vec<RawCardRarity>) -> (r: Vec<CardRarity>)
    ensures
        r@ == v@.map_values(|x: RawCardRarity| rarity_of(x)),
{
    let mut out: Vec<CardRarity> = Vec::new();
    let mut i: usize = 0;
    while i < v.len()
        invariant
            i <= v@.len(),
            out@ == v@.subrange(0, i as int).map_values(|x: RawCardRarity| rarity_of(x)),
        decreases v@.len() - i,
    {
        let x = &v[i];
        out.push(
            CardRarity {
                card_rarity_type: rarity_type_to_index(x.card_rarity_type.as_str()),
                max_level: match x.training_max_level {
                    Some(t) => t,
                    None => x.max_level,
                },
                normal_max_level: x.max_level,
                max_skill_level: x.max_skill_level,
            },
        );
        assert(v@.subrange(0, i + 1).map_values(|x: RawCardRarity| rarity_of(x)) =~= v@.subrange(0, i as int).map_values(
            |x: RawCardRarity| rarity_of(x),
        ).push(rarity_of(v@[i as int])));
        i = i + 1;
    }
    assert(v@.subrange(0, i as int) =~= v@);
    out
}

fn collect_episodes(v: &Vec<RawCardEpisode>) -> (r: Vec<CardEpisode>)
    ensures
        r@ == v@.map_values(|x: RawCardEpisode| episode_of(x)),
{
    let mut out: Vec<CardEpisode> = Vec::new();
    let mut i: usize = 0;
    while i < v.len()
        invariant
            i <= v@.len(),
            out@ == v@.subrange(0, i as int).map_values(|x: RawCardEpisode| episode_of(x)),
        decreases v@.len() - i,
    {
        let x = v[i];
        out.push(
            CardEpisode {
                card_id: x.card_id,
                episode_no: x.id,
                power1_bonus_fixed: x.power1_bonus_fixed,
                power2_bonus_fixed: x.power2_bonus_fixed,
                power3_bonus_fixed: x.power3_bonus_fixed,
            },
        );
        assert(v@.subrange(0, i + 1).map_values(|x: RawCardEpisode| episode_of(x)) =~= v@.subrange(0, i as int).map_values(
            |x: RawCardEpisode| episode_of(x),
        ).push(episode_of(v@[i as int])));
        i = i + 1;
    }
    assert(v@.subrange(0, i as int) =~= v@);
    out
}

fn collect_lessons(v: &Vec<RawMasterLesson>) -> (r: Vec<MasterLesson>)
    ensures
        r@ == v@.map_values(|x: RawMasterLesson| lesson_of(x)),
{
    let mut out: Vec<MasterLesson> = Vec::new();
    let mut i: usize = 0;
    while i < v.len()
        invariant
            i <= v@.len(),
            out@ == v@.subrange(0, i as int).map_values(|x: RawMasterLesson| lesson_of(x)),
        decreases v@.len() - i,
    {
        let x = &v[i];
        out.push(
            MasterLesson {
                card_rarity_type: rarity_type_to_index(x.card_rarity_type.as_str()),
                master_rank: x.master_rank,
                power1_bonus_fixed: x.power1_bonus_fixed,
                power2_bonus_fixed: x.power2_bonus_fixed,
                power3_bonus_fixed: x.power3_bonus_fixed,
            },
        );
        assert(v@.subrange(0, i + 1).map_values(|x: RawMasterLesson| lesson_of(x)) =~= v@.subrange(0, i as int).map_values(
            |x: RawMasterLesson| lesson_of(x),
        ).push(lesson_of(v@[i as int])));
        i = i + 1;
    }
    assert(v@.subrange(0, i as int) =~= v@);
    out
}

fn collect_canvas(v: &Vec<RawCardMysekaiCanvasBonus>) -> (r: Vec<CardMysekaiCanvasBonus>)
    ensures
        r@ == v@.map_values(|x: RawCardMysekaiCanvasBonus| canvas_of(x)),
{
    let mut out: Vec<CardMysekaiCanvasBonus> = Vec::new();
    let mut i: usize = 0;
    while i < v.len()
        invariant
            i <= v@.len(),
            out@ == v@.subrange(0, i as int).map_values(|x: RawCardMysekaiCanvasBonus| canvas_of(x)),
        decreases v@.len() - i,
    {
        let x = &v[i];
        out.push(
            CardMysekaiCanvasBonus {
                card_rarity_type: rarity_type_to_index(x.card_rarity_type.as_str()),
                power1_bonus_fixed: x.power1_bonus_fixed,
                power2_bonus_fixed: x.power2_bonus_fixed,
                power3_bonus_fixed: x.power3_bonus_fixed,
            },
        );
        assert(v@.subrange(0, i + 1).map_values(|x: RawCardMysekaiCanvasBonus| canvas_of(x)) =~= v@.subrange(
            0,
            i as int,
        ).map_values(|x: RawCardMysekaiCanvasBonus| canvas_of(x)).push(canvas_of(v@[i as int])));
        i = i + 1;
    }
    assert(v@.subrange(0, i as int) =~= v@);
    out
}

fn collect_units(v: &Vec<RawGameCharacterUnit>) -> (r: Vec<GameCharacterUnit>)
    ensures
        r@.len() == v@.len(),
        forall|k: int|
            0 <= k < v@.len() ==> (#[trigger] r@[k]).game_character_id == v@[k].game_character_id && r@[k].unit@
                == v@[k].unit@,
{
    let mut out: Vec<GameCharacterUnit> = Vec::new();
    let mut i: usize = 0;
    while i < v.len()
        invariant
            i <= v@.len(),
            out@.len() == i,
            forall|k: int|
                0 <= k < i ==> (#[trigger] out@[k]).game_character_id == v@[k].game_character_id && out@[k].unit@
                    == v@[k].unit@,
        decreases v@.len() - i,
    {
        out.push(GameCharacterUnit { game_character_id: v[i].game_character_id, unit: v[i].unit.clone() });
        i = i + 1;
    }
    out
}

fn find_unit_row(units: &Vec<RawGameCharacterUnit>, id: i32) -> (r: Option<&RawGameCharacterUnit>)
    ensures
        match r {
            Some(u) => unit_row(units@, id) == Some(*u),
            None => unit_row(units@, id) is None,
        },
{
    let mut i: usize = 0;
    while i < units.len()
        invariant
            i <= units@.len(),
            unit_row(units@.subrange(0, i as int), id) is None,
        decreases units@.len() - i,
    {
        assert(units@.subrange(0, i + 1).drop_last() =~= units@.subrange(0, i as int));
        if units[i].id == id {
            proof {
                lemma_unit_row_extend(units@, i + 1, id);
            }
            return Some(&units[i]);
        }
        i = i + 1;
    }
    assert(units@.subrange(0, i as int) =~= units@);
    None
}

proof fn lemma_unit_row_extend(units: Seq<RawGameCharacterUnit>, n: int, id: i32)
    requires
        0 < n <= units.len(),
        unit_row(units.subrange(0, n), id) is Some,
    ensures
        unit_row(units, id) == unit_row(units.subrange(0, n), id),
    decreases units.len() - n,
{
    if n < units.len() {
        assert(units.subrange(0, n + 1).drop_last() =~= units.subrange(0, n));
        lemma_unit_row_extend(units, n + 1, id);
    } else {
        assert(units.subrange(0, n) =~= units);
    }
}

fn clone_opt(o: &Option<String>) -> (r: Option<String>)
    ensures
        opt_chars(r) == opt_chars(*o),
{
    match o {
        Some(s) => Some(s.clone()),
        None => None,
    }
}

fn collect_deck_bonuses(v: &Vec<RawEventDeckBonus>, units: &Vec<RawGameCharacterUnit>) -> (r: Vec<EventDeckBonus>)
    ensures
        r@.len() == v@.len(),
        forall|k: int| 0 <= k < v@.len() ==> deck_bonus_of(#[trigger] r@[k], v@[k], units@),
{
    let mut out: Vec<EventDeckBonus> = Vec::new();
    let mut i: usize = 0;
    while i < v.len()
        invariant
            i <= v@.len(),
            out@.len() == i,
            forall|k: int| 0 <= k < i ==> deck_bonus_of(#[trigger] out@[k], v@[k], units@),
        decreases v@.len() - i,
    {
        let b = &v[i];
        let row = match b.game_character_unit_id {
            Some(id) => find_unit_row(units, id),
            None => None,
        };
        let (character_id, unit) = match row {
            Some(u) => (Some(u.game_character_id), Some(u.unit.clone())),
            None => (None, None),
        };
        out.push(
            EventDeckBonus {
                event_id: b.event_id,
                character_id,
                unit,
                attr: clone_opt(&b.card_attr),
                bonus_rate: b.bonus_rate,
            },
        );
        i = i + 1;
    }
    out
}

fn collect_music(v: &Vec<RawMusicRow>) -> (r: (Vec<MusicMeta>, Vec<MusicDifficulty>))
    ensures
        r.0@.len() == v@.len(),
        r.1@.len() == v@.len(),
        forall|k: int| 0 <= k < v@.len() ==> music_meta_of(#[trigger] r.0@[k], v@[k]),
        forall|k: int| 0 <= k < v@.len() ==> music_difficulty_of(#[trigger] r.1@[k], v@[k]),
{
    let mut metas: Vec<MusicMeta> = Vec::new();
    let mut diffs: Vec<MusicDifficulty> = Vec::new();
    let mut i: usize = 0;
    while i < v.len()
        invariant
            i <= v@.len(),
            metas@.len() == i,
            diffs@.len() == i,
            forall|k: int| 0 <= k < i ==> music_meta_of(#[trigger] metas@[k], v@[k]),
            forall|k: int| 0 <= k < i ==> music_difficulty_of(#[trigger] diffs@[k], v@[k]),
        decreases v@.len() - i,
    {
        let row = &v[i];
        metas.push(
            MusicMeta {
                music_id: row.music_id,
                difficulty: row.difficulty.clone(),
                event_rate_solo: row.event_rate,
                event_rate_multi: row.event_rate,
                event_rate_auto: row.event_rate,
                base_score_micro: row.base_score_micro,
                base_score_auto_micro: row.base_score_auto_micro,
                fever_score_micro: row.fever_score_micro,
                solo_skill_scores_micro: row.skill_score_solo_micro,
                multi_skill_scores_micro: row.skill_score_multi_micro,
                auto_skill_scores_micro: row.skill_score_auto_micro,
                music_time_micro: row.music_time_micro,
                tap_count: row.tap_count,
            },
        );
        diffs.push(
            MusicDifficulty { music_id: row.music_id, difficulty: row.difficulty.clone(), event_rate: Some(row.event_rate) },
        );
        i = i + 1;
    }
    (metas, diffs)
}

fn collect_rarity_rates(v: &Vec<RawEventRarityBonusRate>, events: &Vec<Event>) -> (r: Vec<EventRarityBonusRate>)
    ensures
        r@ == Seq::new(v@.len(), |i: int| rarity_rows(v@[i], events@)).flatten(),
{
    broadcast use Seq::lemma_flatten_push;

    let mut out: Vec<EventRarityBonusRate> = Vec::new();
    let mut i: usize = 0;
    assert(Seq::new(0, |i: int| rarity_rows(v@[i], events@)) =~= Seq::<Seq<EventRarityBonusRate>>::empty());
    while i < v.len()
        invariant
            i <= v@.len(),
            out@ == Seq::new(i as nat, |i: int| rarity_rows(v@[i], events@)).flatten(),
        decreases v@.len() - i,
    {
        let rate = &v[i];
        let rarity = rarity_type_to_index(rate.card_rarity_type.as_str());
        let ghost base = out@;
        let mut j: usize = 0;
        while j < events.len()
            invariant
                j <= events@.len(),
                rarity == rarity_index(rate.card_rarity_type@),
                out@ == base + rarity_rows(*rate, events@).subrange(0, j as int),
            decreases events@.len() - j,
        {
            out.push(
                EventRarityBonusRate {
                    event_id: events[j].id,
                    card_rarity_type: rarity,
                    master_rank: rate.master_rank,
                    bonus_rate_x10: rate.bonus_rate_x10,
                },
            );
            assert(rarity_rows(*rate, events@).subrange(0, j + 1) =~= rarity_rows(*rate, events@).subrange(0, j as int).push(
                rarity_rows(*rate, events@)[j as int],
            ));
            j = j + 1;
        }
        assert(rarity_rows(*rate, events@).subrange(0, j as int) =~= rarity_rows(*rate, events@));
        assert(Seq::new((i + 1) as nat, |i: int| rarity_rows(v@[i], events@)) =~= Seq::new(
            i as nat,
            |i: int| rarity_rows(v@[i], events@),
        ).push(rarity_rows(*rate, events@)));
        proof {
            Seq::new(i as nat, |i: int| rarity_rows(v@[i], events@)).lemma_flatten_push(rarity_rows(*rate, events@));
        }
        i = i + 1;
    }
    out
}

/// Whether every table of `r` is assembled from the raw tables (see the
/// per-table predicates of this module).
pub open spec fn assembled_from(r: OwnedGameData, raw: RawMasterdata) -> bool {
    &&& r.cards@.len() == raw.cards@.len()
    &&& forall|k: int| 0 <= k < raw.cards@.len() ==> (#[trigger] r.cards@[k])@ == master_card_view(raw.cards@[k])
    &&& exists|parts: Seq<Seq<CardParameter>>|
        parts.len() == raw.cards@.len() && (forall|k: int|
            0 <= k < raw.cards@.len() ==> parameters_of(raw.cards@[k], #[trigger] parts[k])) && r.card_parameters@
            == parts.flatten()
    &&& r.card_rarities@ == raw.card_rarities@.map_values(|x: RawCardRarity| rarity_of(x))
    &&& r.card_episodes@ == raw.card_episodes@.map_values(|x: RawCardEpisode| episode_of(x))
    &&& r.master_lessons@ == raw.master_lessons@.map_values(|x: RawMasterLesson| lesson_of(x))
    &&& r.skills@ == all_skill_rows(raw.skills@)
    &&& exists|units: Seq<(i32, String)>|
        (forall|id: i32| #[trigger] unit_lookup(units, id) == skill_unit_of(raw.cards@, raw.game_character_units@, id))
            && effect_rows(r.skill_effects@) == all_effect_rows(raw.skills@, units)
    &&& r.area_item_levels@.len() == raw.area_item_levels@.len()
    &&& exists|ord: Seq<usize>|
        is_order(ord, raw.area_item_levels@.len() as int) && (forall|k: int|
            0 <= k < r.area_item_levels@.len() ==> area_row_of(
                #[trigger] r.area_item_levels@[k],
                raw.area_item_levels@[ord[k] as int],
            )) && (forall|a: int, b: int|
            0 <= a < b < r.area_item_levels@.len() ==> area_lt(#[trigger] r.area_item_levels@[a], #[trigger] r.area_item_levels@[b])
                || (same_area_key(r.area_item_levels@[a], r.area_item_levels@[b]) && ord[a] < ord[b]))
    &&& r.game_character_units@.len() == raw.game_character_units@.len()
    &&& forall|k: int|
        0 <= k < raw.game_character_units@.len() ==> (#[trigger] r.game_character_units@[k]).game_character_id
            == raw.game_character_units@[k].game_character_id && r.game_character_units@[k].unit@
            == raw.game_character_units@[k].unit@
    &&& r.character_ranks@ == raw.character_ranks@
    &&& r.card_mysekai_canvas_bonuses@ == raw.card_mysekai_canvas_bonuses@.map_values(
        |x: RawCardMysekaiCanvasBonus| canvas_of(x),
    )
    &&& r.mysekai_gates@ == raw.mysekai_gates@
    &&& r.mysekai_gate_levels@ == raw.mysekai_gate_levels@
    &&& r.events@ == raw.events@
    &&& r.event_cards@ == raw.event_cards@
    &&& r.event_deck_bonuses@.len() == raw.event_deck_bonuses@.len()
    &&& forall|k: int|
        0 <= k < raw.event_deck_bonuses@.len() ==> deck_bonus_of(
            #[trigger] r.event_deck_bonuses@[k],
            raw.event_deck_bonuses@[k],
            raw.game_character_units@,
        )
    &&& r.event_card_bonus_limits@ == raw.event_card_bonus_limits@
    &&& r.event_honor_bonuses@ == raw.event_honor_bonuses@
    &&& r.world_bloom_different_attribute_bonuses@ == raw.world_bloom_different_attribute_bonuses@
    &&& r.world_blooms@ == raw.world_blooms@
    &&& r.wb_support_deck_bonuses_wl1@ == raw.wb_support_deck_bonuses_wl1@
    &&& r.wb_support_deck_bonuses_wl2@ == raw.wb_support_deck_bonuses_wl2@
    &&& r.wb_support_deck_bonuses_wl3@ == raw.wb_support_deck_bonuses_wl3@
    &&& r.world_bloom_support_deck_unit_event_limited_bonuses@ == raw.world_bloom_support_deck_unit_event_limited_bonuses@
    &&& r.event_mysekai_fixture_performance_bonus_limits@ == raw.event_mysekai_fixture_performance_bonus_limits@
    &&& r.event_skill_score_up_limits@ == raw.event_skill_score_up_limits@
    &&& r.music_metas@.len() == raw.music_rows@.len()
    &&& r.music_difficulties@.len() == raw.music_rows@.len()
    &&& forall|k: int| 0 <= k < raw.music_rows@.len() ==> music_meta_of(#[trigger] r.music_metas@[k], raw.music_rows@[k])
    &&& forall|k: int|
        0 <= k < raw.music_rows@.len() ==> music_difficulty_of(#[trigger] r.music_difficulties@[k], raw.music_rows@[k])
    &&& r.event_rarity_bonus_rates@ == Seq::new(
        raw.event_rarity_bonus_rates@.len(),
        |i: int| rarity_rows(raw.event_rarity_bonus_rates@[i], raw.events@),
    ).flatten()
    &&& r.honors@ == raw.honors@
    &&& r.bonds_honors@ == raw.bonds_honors@
}

impl OwnedGameData {
    /// Assembles the tables from the raw rows of the masterdata files: cards
    /// with their rarity index, normalised support group and default asset
    /// name; base powers one row per level; skills one row per level with
    /// their effect rows; area items normalised and sorted; deck bonuses with
    /// the character and group of the row they name; song rows for every
    /// kind of play; rarity bonuses repeated for every event (see
    /// [`assembled_from`]).
    pub fn from_rows(raw: RawMasterdata) -> (r: OwnedGameData)
        requires
            cards_fit(raw.cards@),
            skills_fit(raw.skills@),
        ensures
            assembled_from(r, raw),
    {
        let ghost g = raw;
        let cards = collect_cards(&raw.cards);
        let card_parameters = collect_parameters(&raw.cards);
        let card_rarities = collect_rarities(&raw.card_rarities);
        let card_episodes = collect_episodes(&raw.card_episodes);
        let master_lessons = collect_lessons(&raw.master_lessons);
        let units = infer_skill_units(&raw.cards, &raw.game_character_units);
        let (skills, skill_effects) = flatten_skills(&raw.skills, &units);
        let area_item_levels = flatten_area_item_levels(&raw.area_item_levels);
        let game_character_units = collect_units(&raw.game_character_units);
        let card_mysekai_canvas_bonuses = collect_canvas(&raw.card_mysekai_canvas_bonuses);
        let event_deck_bonuses = collect_deck_bonuses(&raw.event_deck_bonuses, &raw.game_character_units);
        let (music_metas, music_difficulties) = collect_music(&raw.music_rows);
        let event_rarity_bonus_rates = collect_rarity_rates(&raw.event_rarity_bonus_rates, &raw.events);
        let r = OwnedGameData {
            cards,
            card_parameters,
            card_rarities,
            card_episodes,
            master_lessons,
            skills,
            skill_effects,
            area_item_levels,
            game_character_units,
            character_ranks: raw.character_ranks,
            card_mysekai_canvas_bonuses,
            mysekai_gates: raw.mysekai_gates,
            mysekai_gate_levels: raw.mysekai_gate_levels,
            events: raw.events,
            event_cards: raw.event_cards,
            event_deck_bonuses,
            event_card_bonus_limits: raw.event_card_bonus_limits,
            event_honor_bonuses: raw.event_honor_bonuses,
            world_bloom_different_attribute_bonuses: raw.world_bloom_different_attribute_bonuses,
            world_blooms: raw.world_blooms,
            wb_support_deck_bonuses_wl1: raw.wb_support_deck_bonuses_wl1,
            wb_support_deck_bonuses_wl2: raw.wb_support_deck_bonuses_wl2,
            wb_support_deck_bonuses_wl3: raw.wb_support_deck_bonuses_wl3,
            world_bloom_support_deck_unit_event_limited_bonuses: raw.world_bloom_support_deck_unit_event_limited_bonuses,
            event_mysekai_fixture_performance_bonus_limits: raw.event_mysekai_fixture_performance_bonus_limits,
            event_skill_score_up_limits: raw.event_skill_score_up_limits,
            music_metas,
            music_difficulties,
            event_rarity_bonus_rates,
            honors: raw.honors,
            bonds_honors: raw.bonds_honors,
        };
        assert(assembled_from(r, g));
        r
    }
}

proof fn lemma_insert_sorted_contains(ls: Seq<i32>, x: i32, y: i32)
    ensures
        insert_sorted(ls, x).contains(y) <==> (ls.contains(y) || y == x),
    decreases ls.len(),
{
    if ls.len() == 0 {
        assert(insert_sorted(ls, x)[0] == x);
    } else if x == ls[0] {
    } else if x < ls[0] {
        let r = seq![x] + ls;
        if ls.contains(y) {
            let i = choose|i: int| 0 <= i < ls.len() && ls[i] == y;
            assert(r[i + 1] == y);
        }
        if r.contains(y) && y != x {
            let i = choose|i: int| 0 <= i < r.len() && r[i] == y;
            assert(ls[i - 1] == y);
        }
        assert(r[0] == x);
    } else {
        let rest = ls.drop_first();
        lemma_insert_sorted_contains(rest, x, y);
        let t = insert_sorted(rest, x);
        let r = seq![ls[0]] + t;
        assert(insert_sorted(ls, x) == r);
        if ls.contains(y) {
            let i = choose|i: int| 0 <= i < ls.len() && ls[i] == y;
            if i == 0 {
                assert(r[0] == y);
            } else {
                assert(rest[i - 1] == y);
                let k = choose|k: int| 0 <= k < t.len() && t[k] == y;
                assert(r[k + 1] == y);
            }
        }
        if y == x {
            let k = choose|k: int| 0 <= k < t.len() && t[k] == y;
            assert(r[k + 1] == y);
        }
        if r.contains(y) {
            let i = choose|i: int| 0 <= i < r.len() && r[i] == y;
            if i == 0 {
                assert(ls[0] == y);
            } else {
                assert(t[i - 1] == y);
                if rest.contains(y) {
                    let k = choose|k: int| 0 <= k < rest.len() && rest[k] == y;
                    assert(ls[k + 1] == y);
                }
            }
        }
    }
}

proof fn lemma_detail_levels_keep(ls: Seq<i32>, ds: Seq<RawSkillEffectDetail>, level: i32)
    ensures
        ls.contains(level) ==> detail_levels(ls, ds).contains(level),
        !detail_levels(ls, ds).contains(level) ==> forall|j: int| 0 <= j < ds.len() ==> (#[trigger] ds[j]).level != level,
    decreases ds.len(),
{
    if ds.len() > 0 {
        lemma_detail_levels_keep(ls, ds.drop_last(), level);
        lemma_insert_sorted_contains(detail_levels(ls, ds.drop_last()), ds.last().level, level);
        assert forall|j: int| 0 <= j < ds.len() && !detail_levels(ls, ds).contains(level) implies (#[trigger] ds[j]).level
            != level by {
            if j < ds.len() - 1 {
                assert(ds.drop_last()[j] == ds[j]);
            }
        }
    }
}

proof fn lemma_absent_level_details(acc: LevelAcc, e: RawSkillEffect, ds: Seq<RawSkillEffectDetail>, level: i32)
    requires
        forall|j: int| 0 <= j < ds.len() ==> (#[trigger] ds[j]).level != level,
    ensures
        acc_details(acc, e, ds, level) == acc,
        details_fit(acc, e, ds, level),
    decreases ds.len(),
{
    if ds.len() > 0 {
        assert forall|j: int| 0 <= j < ds.drop_last().len() implies (#[trigger] ds.drop_last()[j]).level != level by {
            assert(ds.drop_last()[j] == ds[j]);
        }
        lemma_absent_level_details(acc, e, ds.drop_last(), level);
        assert(ds.last() == ds[ds.len() - 1]);
    }
}

proof fn lemma_absent_level(es: Seq<RawSkillEffect>, level: i32)
    requires
        !skill_levels(es).contains(level),
    ensures
        acc_effects(es, level) == empty_acc(),
        effects_fit(es, level),
    decreases es.len(),
{
    if es.len() > 0 {
        let prev = skill_levels(es.drop_last());
        lemma_detail_levels_keep(prev, es.last().skill_effect_details@, level);
        lemma_absent_level(es.drop_last(), level);
        lemma_absent_level_details(empty_acc(), es.last(), es.last().skill_effect_details@, level);
    }
}

/// What a skill adds up to at a level, when every step keeps the life
/// total within `i32`; `None` when one does not.
fn checked_level_effects(skill: &RawSkill, level: i32) -> (r: Option<LevelEffects>)
    ensures
        r is Some <==> effects_fit(skill.skill_effects@, level),
        r matches Some(a) ==> acc_view(a) == acc_effects(skill.skill_effects@, level),
{
    let es = &skill.skill_effects;
    let mut acc = LevelEffects {
        score_up: None,
        life: None,
        ref_rate: None,
        ref_max: None,
        same_unit: None,
        ranks: Vec::new(),
        diffs: Vec::new(),
    };
    assert(acc_view(acc) =~= empty_acc());
    assert(es@.subrange(0, 0) =~= Seq::<RawSkillEffect>::empty());
    let mut i: usize = 0;
    while i < es.len()
        invariant
            i <= es@.len(),
            es@ == skill.skill_effects@,
            effects_fit(es@.subrange(0, i as int), level),
            acc_view(acc) == acc_effects(es@.subrange(0, i as int), level),
        decreases es@.len() - i,
    {
        let e = &es[i];
        let ds = &e.skill_effect_details;
        proof {
            assert(es@.subrange(0, i + 1).drop_last() =~= es@.subrange(0, i as int));
            assert(es@.subrange(0, i + 1).last() == es@[i as int]);
        }
        let ghost acc0 = acc_view(acc);
        assert(ds@.subrange(0, 0) =~= Seq::<RawSkillEffectDetail>::empty());
        let mut j: usize = 0;
        while j < ds.len()
            invariant
                j <= ds@.len(),
                i < es@.len(),
                es@ == skill.skill_effects@,
                *e == es@[i as int],
                *ds == e.skill_effect_details,
                acc0 == acc_effects(es@.subrange(0, i as int), level),
                details_fit(acc0, *e, ds@.subrange(0, j as int), level),
                acc_view(acc) == acc_details(acc0, *e, ds@.subrange(0, j as int), level),
            decreases ds@.len() - j,
        {
            proof {
                assert(ds@.subrange(0, j + 1).drop_last() =~= ds@.subrange(0, j as int));
                assert(ds@.subrange(0, j + 1).last() == ds@[j as int]);
            }
            let d = &ds[j];
            if d.level == level {
                let is_life = match step_kind(e.skill_effect_type.as_str()) {
                    StepKind::Life => true,
                    _ => false,
                };
                if is_life {
                    let cur: i64 = match acc.life {
                        Some(x) => x as i64,
                        None => 0,
                    };
                    let next = cur + d.activate_effect_value as i64;
                    if next < i32::MIN as i64 || next > i32::MAX as i64 {
                        proof {
                            assert(kind_of(e.skill_effect_type@) is Life);
                            assert(!step_fits(acc_view(acc), *e, *d));
                            if effects_fit(es@, level) {
                                lemma_effects_fit_prefix(es@, level, i + 1);
                                assert(es@.subrange(0, i + 1).drop_last() =~= es@.subrange(0, i as int));
                                assert(es@.subrange(0, i + 1).last() == es@[i as int]);
                                assert(details_fit(acc0, *e, ds@, level));
                                lemma_details_fit_prefix(acc0, *e, ds@, level, j + 1);
                                let pre = ds@.subrange(0, j + 1);
                                assert(pre.drop_last() =~= ds@.subrange(0, j as int));
                                assert(pre.last() == ds@[j as int]);
                                assert(pre.last() == *d);
                                assert(details_fit(acc0, *e, pre, level));
                                assert(step_fits(acc_details(acc0, *e, pre.drop_last(), level), *e, pre.last()));
                                assert(false);
                            }
                        }
                        return None;
                    }
                }
                apply_detail(&mut acc, e, d);
            }
            j = j + 1;
        }
        assert(ds@.subrange(0, j as int) =~= ds@);
        i = i + 1;
    }
    assert(es@.subrange(0, i as int) =~= es@);
    Some(acc)
}

/// Whether a skill's rows can be computed in `i32` at a level (see [`skill_fits`]).
pub fn level_fits(skill: &RawSkill, level: i32) -> (r: bool)
    ensures
        r == skill_fits(*skill, level),
{
    match checked_level_effects(skill, level) {
        None => false,
        Some(acc) => match (acc.score_up, &acc.same_unit) {
            (Some(s), Some((inc, _))) => {
                let five = 5 * (*inc as i64);
                let top = s as i64 + five;
                five >= i32::MIN as i64 && five <= i32::MAX as i64 && top >= i32::MIN as i64 && top <= i32::MAX as i64
            },
            _ => true,
        },
    }
}

/// Whether the raw tables can be assembled (see [`cards_fit`], [`skills_fit`]).
pub fn rows_fit(raw: &RawMasterdata) -> (r: bool)
    ensures
        r == (cards_fit(raw.cards@) && skills_fit(raw.skills@)),
{
    let mut i: usize = 0;
    while i < raw.cards.len()
        invariant
            i <= raw.cards@.len(),
            forall|k: int| 0 <= k < i ==> parameters_fit(#[trigger] raw.cards@[k]),
        decreases raw.cards@.len() - i,
    {
        match &raw.cards[i].card_parameters {
            RawCardParameters::Grouped { param1, .. } => {
                if param1.len() >= 2147483647 {
                    assert(!parameters_fit(raw.cards@[i as int]));
                    return false;
                }
            },
            RawCardParameters::Rows(_) => {},
        }
        i = i + 1;
    }
    let mut k: usize = 0;
    while k < raw.skills.len()
        invariant
            k <= raw.skills@.len(),
            cards_fit(raw.cards@),
            forall|a: int, level: i32| 0 <= a < k ==> #[trigger] skill_fits(raw.skills@[a], level),
        decreases raw.skills@.len() - k,
    {
        let skill = &raw.skills[k];
        let levels = levels_of(skill);
        let mut j: usize = 0;
        while j < levels.len()
            invariant
                j <= levels@.len(),
                k < raw.skills@.len(),
                *skill == raw.skills@[k as int],
                levels@ == skill_levels(skill.skill_effects@),
                forall|b: int| 0 <= b < j ==> #[trigger] skill_fits(*skill, levels@[b]),
            decreases levels@.len() - j,
        {
            if !level_fits(skill, levels[j]) {
                assert(!skill_fits(raw.skills@[k as int], levels@[j as int]));
                return false;
            }
            j = j + 1;
        }
        assert forall|level: i32| #[trigger] skill_fits(*skill, level) by {
            if levels@.contains(level) {
                let b = choose|b: int| 0 <= b < levels@.len() && levels@[b] == level;
                assert(skill_fits(*skill, levels@[b]));
            } else {
                lemma_absent_level(skill.skill_effects@, level);
            }
        }
        k = k + 1;
    }
    true
}

} // verus!
