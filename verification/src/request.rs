//! Readers of the request documents: the build parameters (camelCase keys,
//! snake_case aliases) and the player data.

use vstd::prelude::*;
use vstd::string::StringExecFns;
use crate::json::{
    parse_json, spec_parse_json,
    as_text, as_u64, bool_field, get_bool, get_i32, get_items, get_string, i32_field, items_field, jget, json_as_u64,
    json_eq, json_get, json_same, text_field, JsonValue,
};
use crate::text::{lower_chars, lower_matches, trim_str, trimmed};
use crate::text::{parse_unit_code, spec_parse_unit};
use crate::data::{
    noop_config, UserAreaItem, UserCard, UserCardView, UserCharacter, UserFixtureBonus, UserGateBonus, UserHonor,
    UserProfile, BuildParams, CardConfigSet, CardRarityConfig, SingleCardConfig};
use crate::text::{parse_attr_code, parse_event_type, spec_parse_attr, spec_parse_event_type};
use crate::validate::{issue_message, param_issue, validate_build_params};
use crate::types::{spec_is_real_unit, unit_to_pool_index, CustomSupportUnit, LiveSkillOrder, LiveType, ScoreTarget, SkillReferenceStrategy};

verus! {

/// Why a request document was refused.
#[derive(Debug)]
pub enum RequestError {
    /// The text is not JSON.
    Syntax,
    /// The document breaks a rule; the message names it.
    Invalid(String),
}

impl RequestError {
    /// Human-readable description.
    pub fn message(&self) -> (r: String)
        ensures
            self matches RequestError::Invalid(m) ==> r@ == m@,
    {
        match self {
            RequestError::Syntax => "JSON 语法错误".to_owned(),
            RequestError::Invalid(m) => m.clone(),
        }
    }
}

// ---------------------------------------------------------------------------
// Checked integer members.

/// A strict integer member: absent or null gives `None`, an integer of 32
/// bits its value, anything else the error `<key> 必须是整数`.
pub open spec fn checked_i32(v: JsonValue, key: Seq<char>) -> Result<Option<i32>, Seq<char>> {
    match jget(v, key) {
        None => Ok(None),
        Some(JsonValue::Null) => Ok(None),
        Some(JsonValue::Int(n)) => if i32::MIN <= n <= i32::MAX {
            Ok(Some(n as i32))
        } else {
            Err(key + " 必须是整数"@)
        },
        Some(_) => Err(key + " 必须是整数"@),
    }
}

fn get_checked_i32(v: &JsonValue, key: &str) -> (r: Result<Option<i32>, String>)
    ensures
        match checked_i32(*v, key@) {
            Ok(x) => r == Ok::<Option<i32>, String>(x),
            Err(m) => r matches Err(s) && s@ == m,
        },
{
    match json_get(v, key) {
        None => Ok(None),
        Some(JsonValue::Null) => Ok(None),
        Some(JsonValue::Int(n)) => if i32::MIN as i64 <= *n && *n <= i32::MAX as i64 {
            Ok(Some(*n as i32))
        } else {
            Err(crate::json::keyed(key, " 必须是整数"))
        },
        Some(_) => Err(crate::json::keyed(key, " 必须是整数")),
    }
}

/// A checked integer under its camelCase key, else under its snake_case
/// key; both keys are checked, the camelCase one first.
pub open spec fn checked_pair(v: JsonValue, camel: Seq<char>, snake: Seq<char>) -> Result<Option<i32>, Seq<char>> {
    match checked_i32(v, camel) {
        Err(m) => Err(m),
        Ok(a) => match checked_i32(v, snake) {
            Err(m) => Err(m),
            Ok(b) => Ok(if a is Some { a } else { b }),
        },
    }
}

fn get_checked_pair(v: &JsonValue, camel: &str, snake: &str) -> (r: Result<Option<i32>, String>)
    ensures
        match checked_pair(*v, camel@, snake@) {
            Ok(x) => r == Ok::<Option<i32>, String>(x),
            Err(m) => r matches Err(s) && s@ == m,
        },
{
    let a = get_checked_i32(v, camel)?;
    let b = get_checked_i32(v, snake)?;
    Ok(if a.is_some() { a } else { b })
}

/// A string member under one key, else under another.
pub open spec fn text_pair(v: JsonValue, first: Seq<char>, second: Seq<char>) -> Option<Seq<char>> {
    if text_field(v, first) is Some { text_field(v, first) } else { text_field(v, second) }
}

fn get_string_pair(v: &JsonValue, first: &str, second: &str) -> (r: Option<String>)
    ensures
        r matches Some(s) ==> text_pair(*v, first@, second@) == Some(s@),
        r is None ==> text_pair(*v, first@, second@) is None,
{
    match get_string(v, first) {
        Some(s) => Some(s),
        None => get_string(v, second),
    }
}

/// A boolean member under one key, else under another, else `false`.
pub open spec fn flag_pair(v: JsonValue, first: Seq<char>, second: Seq<char>) -> bool {
    match bool_field(v, first) {
        Some(b) => b,
        None => match bool_field(v, second) {
            Some(b) => b,
            None => false,
        },
    }
}

fn get_flag_pair(v: &JsonValue, first: &str, second: &str) -> (r: bool)
    ensures
        r == flag_pair(*v, first@, second@),
{
    match get_bool(v, first) {
        Some(b) => b,
        None => match get_bool(v, second) {
            Some(b) => b,
            None => false,
        },
    }
}

/// An integer member (cast as `as` casts) under one key, else another.
pub open spec fn int_pair(v: JsonValue, first: Seq<char>, second: Seq<char>) -> Option<i32> {
    if i32_field(v, first) is Some { i32_field(v, first) } else { i32_field(v, second) }
}

fn get_int_pair(v: &JsonValue, first: &str, second: &str) -> (r: Option<i32>)
    ensures
        r == int_pair(*v, first@, second@),
{
    match get_i32(v, first) {
        Some(n) => Some(n),
        None => get_i32(v, second),
    }
}

// ---------------------------------------------------------------------------
// Aliased members.

/// The member under a camelCase key or its snake_case alias; `None` when
/// both are present with different values.
pub open spec fn alias(v: JsonValue, camel: Seq<char>, snake: Seq<char>) -> Option<Option<JsonValue>> {
    match (jget(v, camel), jget(v, snake)) {
        (Some(a), Some(b)) => if json_same(a, b) { Some(Some(a)) } else { None },
        (Some(a), None) => Some(Some(a)),
        (None, Some(b)) => Some(Some(b)),
        (None, None) => Some(None),
    }
}

fn get_alias<'a>(v: &'a JsonValue, camel: &str, snake: &str) -> (r: Option<Option<&'a JsonValue>>)
    ensures
        match alias(*v, camel@, snake@) {
            None => r is None,
            Some(None) => r == Some(None::<&JsonValue>),
            Some(Some(x)) => r matches Some(Some(y)) && *y == x,
        },
{
    match (json_get(v, camel), json_get(v, snake)) {
        (Some(a), Some(b)) => if json_eq(a, b) { Some(Some(a)) } else { None },
        (Some(a), None) => Some(Some(a)),
        (None, Some(b)) => Some(Some(b)),
        (None, None) => Some(None),
    }
}

// ---------------------------------------------------------------------------
// Vocabularies.

/// The live kind named by a text (surrounding whitespace and ASCII case
/// ignored).
pub open spec fn live_type_of(t: Seq<char>) -> Option<LiveType> {
    let k = lower_chars(trimmed(t));
    if k == "solo"@ {
        Some(LiveType::Solo)
    } else if k == "auto"@ {
        Some(LiveType::Auto)
    } else if k == "multi"@ {
        Some(LiveType::Multi)
    } else if k == "cheerful"@ {
        Some(LiveType::Cheerful)
    } else if k == "challenge"@ {
        Some(LiveType::Challenge)
    } else if k == "challenge_auto"@ || k == "challengeauto"@ {
        Some(LiveType::ChallengeAuto)
    } else if k == "mysekai"@ {
        Some(LiveType::Mysekai)
    } else {
        None
    }
}

fn parse_live_type(s: &str) -> (r: Option<LiveType>)
    ensures
        r == live_type_of(s@),
{
    let k = trim_str(s);
    if lower_matches(k, "solo") {
        Some(LiveType::Solo)
    } else if lower_matches(k, "auto") {
        Some(LiveType::Auto)
    } else if lower_matches(k, "multi") {
        Some(LiveType::Multi)
    } else if lower_matches(k, "cheerful") {
        Some(LiveType::Cheerful)
    } else if lower_matches(k, "challenge") {
        Some(LiveType::Challenge)
    } else if lower_matches(k, "challenge_auto") || lower_matches(k, "challengeauto") {
        Some(LiveType::ChallengeAuto)
    } else if lower_matches(k, "mysekai") {
        Some(LiveType::Mysekai)
    } else {
        None
    }
}

/// The target named by a text.
pub open spec fn target_of(t: Seq<char>) -> Option<ScoreTarget> {
    let k = lower_chars(trimmed(t));
    if k == "score"@ {
        Some(ScoreTarget::Score)
    } else if k == "power"@ {
        Some(ScoreTarget::Power)
    } else if k == "skill"@ {
        Some(ScoreTarget::Skill)
    } else if k == "bonus"@ {
        Some(ScoreTarget::Bonus)
    } else if k == "mysekai"@ {
        Some(ScoreTarget::Mysekai)
    } else {
        None
    }
}

fn parse_target(s: &str) -> (r: Option<ScoreTarget>)
    ensures
        r == target_of(s@),
{
    let k = trim_str(s);
    if lower_matches(k, "score") {
        Some(ScoreTarget::Score)
    } else if lower_matches(k, "power") {
        Some(ScoreTarget::Power)
    } else if lower_matches(k, "skill") {
        Some(ScoreTarget::Skill)
    } else if lower_matches(k, "bonus") {
        Some(ScoreTarget::Bonus)
    } else if lower_matches(k, "mysekai") {
        Some(ScoreTarget::Mysekai)
    } else {
        None
    }
}

/// The skill-reference strategy named by a text.
pub open spec fn reference_of(t: Seq<char>) -> Option<SkillReferenceStrategy> {
    let k = lower_chars(trimmed(t));
    if k == "max"@ {
        Some(SkillReferenceStrategy::Max)
    } else if k == "min"@ {
        Some(SkillReferenceStrategy::Min)
    } else if k == "average"@ {
        Some(SkillReferenceStrategy::Average)
    } else {
        None
    }
}

fn parse_reference(s: &str) -> (r: Option<SkillReferenceStrategy>)
    ensures
        r == reference_of(s@),
{
    let k = trim_str(s);
    if lower_matches(k, "max") {
        Some(SkillReferenceStrategy::Max)
    } else if lower_matches(k, "min") {
        Some(SkillReferenceStrategy::Min)
    } else if lower_matches(k, "average") {
        Some(SkillReferenceStrategy::Average)
    } else {
        None
    }
}

/// The skill order named by a text.
pub open spec fn skill_order_of(t: Seq<char>) -> Option<LiveSkillOrder> {
    let k = lower_chars(trimmed(t));
    if k == "min"@ || k == "worst"@ {
        Some(LiveSkillOrder::Worst)
    } else if k == "average"@ {
        Some(LiveSkillOrder::Average)
    } else if k == "specific"@ {
        Some(LiveSkillOrder::Specific)
    } else if k == "max"@ || k == "best"@ {
        Some(LiveSkillOrder::Best)
    } else {
        None
    }
}

fn parse_skill_order(s: &str) -> (r: Option<LiveSkillOrder>)
    ensures
        r == skill_order_of(s@),
{
    let k = trim_str(s);
    if lower_matches(k, "min") || lower_matches(k, "worst") {
        Some(LiveSkillOrder::Worst)
    } else if lower_matches(k, "average") {
        Some(LiveSkillOrder::Average)
    } else if lower_matches(k, "specific") {
        Some(LiveSkillOrder::Specific)
    } else if lower_matches(k, "max") || lower_matches(k, "best") {
        Some(LiveSkillOrder::Best)
    } else {
        None
    }
}

// ---------------------------------------------------------------------------
// Bounded members.

/// `limit`: absent gives 10; otherwise an integer in 1..=100.
pub open spec fn limit_step(v: JsonValue) -> Result<usize, Seq<char>> {
    match jget(v, "limit"@) {
        None => Ok(10),
        Some(x) => match as_u64(x) {
            Some(n) => if 1 <= n <= 100 { Ok(n as usize) } else { Err("limit 必须在 1..=100 范围内"@) },
            None => Err("limit 必须在 1..=100 范围内"@),
        },
    }
}

fn read_limit(v: &JsonValue) -> (r: Result<usize, String>)
    ensures
        match limit_step(*v) {
            Ok(x) => r == Ok::<usize, String>(x),
            Err(m) => r matches Err(s) && s@ == m,
        },
{
    match json_get(v, "limit") {
        None => Ok(10),
        Some(x) => match json_as_u64(x) {
            Some(n) => if 1 <= n && n <= 100 { Ok(n as usize) } else { Err("limit 必须在 1..=100 范围内".to_owned()) },
            None => Err("limit 必须在 1..=100 范围内".to_owned()),
        },
    }
}

/// `member`: absent or null gives none; otherwise it must be 5.
pub open spec fn member_step(v: JsonValue) -> Result<Option<usize>, Seq<char>> {
    match jget(v, "member"@) {
        None => Ok(None),
        Some(JsonValue::Null) => Ok(None),
        Some(x) => if as_u64(x) == Some(5u64) { Ok(Some(5usize)) } else { Err("member 必须在 5..=5 范围内"@) },
    }
}

fn read_member(v: &JsonValue) -> (r: Result<Option<usize>, String>)
    ensures
        match member_step(*v) {
            Ok(x) => r == Ok::<Option<usize>, String>(x),
            Err(m) => r matches Err(s) && s@ == m,
        },
{
    match json_get(v, "member") {
        None => Ok(None),
        Some(JsonValue::Null) => Ok(None),
        Some(x) => if json_as_u64(x) == Some(5u64) { Ok(Some(5usize)) } else { Err("member 必须在 5..=5 范围内".to_owned()) },
    }
}

/// `timeoutMs` / `timeout_ms`: absent gives 300000; otherwise an integer in
/// 1..=300000.
pub open spec fn timeout_step(v: JsonValue) -> Result<u64, Seq<char>> {
    match alias(v, "timeoutMs"@, "timeout_ms"@) {
        None => Err("timeoutMs 与 timeout_ms 冲突"@),
        Some(None) => Ok(300000),
        Some(Some(x)) => match as_u64(x) {
            Some(n) => if 1 <= n <= 300000 { Ok(n) } else { Err("timeout_ms 必须在 1..=300000 范围内"@) },
            None => Err("timeout_ms 必须在 1..=300000 范围内"@),
        },
    }
}

fn read_timeout(v: &JsonValue) -> (r: Result<u64, String>)
    ensures
        match timeout_step(*v) {
            Ok(x) => r == Ok::<u64, String>(x),
            Err(m) => r matches Err(s) && s@ == m,
        },
{
    match get_alias(v, "timeoutMs", "timeout_ms") {
        None => Err("timeoutMs 与 timeout_ms 冲突".to_owned()),
        Some(None) => Ok(300000),
        Some(Some(x)) => match json_as_u64(x) {
            Some(n) => if 1 <= n && n <= 300000 { Ok(n) } else { Err("timeout_ms 必须在 1..=300000 范围内".to_owned()) },
            None => Err("timeout_ms 必须在 1..=300000 范围内".to_owned()),
        },
    }
}

/// An item read as a 32-bit integer.
pub open spec fn item_i32(x: JsonValue) -> Option<i32> {
    match x {
        JsonValue::Int(n) => if i32::MIN <= n <= i32::MAX { Some(n as i32) } else { None },
        _ => None,
    }
}

/// The first problem of a bounded integer list from item `k` on: an item
/// that is no integer in `min..=max`, or one that repeats an earlier one.
pub open spec fn bounded_issue(
    items: Seq<JsonValue>,
    min: i32,
    max: i32,
    k: int,
    range_msg: Seq<char>,
    dup_msg: Seq<char>,
) -> Option<Seq<char>>
    decreases items.len() - k,
{
    if k < 0 || k >= items.len() {
        None
    } else if !(item_i32(items[k]) matches Some(n) && min <= n <= max) {
        Some(range_msg)
    } else if exists|j: int| 0 <= j < k && item_i32(items[j]) == item_i32(items[k]) {
        Some(dup_msg)
    } else {
        bounded_issue(items, min, max, k + 1, range_msg, dup_msg)
    }
}

/// A bounded integer list member (aliased): absent gives the empty list.
pub open spec fn bounded_list(
    raw: Option<Option<JsonValue>>,
    min: i32,
    max: i32,
    max_len: int,
    msgs: Seq<Seq<char>>,
) -> Result<Seq<i32>, Seq<char>> {
    match raw {
        None => Err(msgs[0]),
        Some(None) => Ok(Seq::empty()),
        Some(Some(JsonValue::Array(items))) => if items@.len() > max_len {
            Err(msgs[2])
        } else {
            match bounded_issue(items@, min, max, 0, msgs[3], msgs[4]) {
                Some(m) => Err(m),
                None => Ok(Seq::new(items@.len(), |j: int| item_i32(items@[j])->0)),
            }
        },
        Some(Some(_)) => Err(msgs[1]),
    }
}

#[verifier::loop_isolation(false)]
fn read_bounded_list(
    raw: Option<Option<&JsonValue>>,
    min: i32,
    max: i32,
    max_len: usize,
    conflict_msg: &str,
    array_msg: &str,
    len_msg: &str,
    range_msg: &str,
    dup_msg: &str,
) -> (r: Result<Vec<i32>, String>)
    ensures
        match bounded_list(
            match raw { None => None, Some(None) => Some(None), Some(Some(x)) => Some(Some(*x)) },
            min, max, max_len as int, seq![conflict_msg@, array_msg@, len_msg@, range_msg@, dup_msg@],
        ) {
            Ok(l) => r matches Ok(out) && out@ == l,
            Err(m) => r matches Err(s) && s@ == m,
        },
{
    let ghost msgs = seq![conflict_msg@, array_msg@, len_msg@, range_msg@, dup_msg@];
    let items = match raw {
        None => return Err(conflict_msg.to_owned()),
        Some(None) => return Ok(Vec::new()),
        Some(Some(JsonValue::Array(items))) => items,
        Some(Some(_)) => return Err(array_msg.to_owned()),
    };
    if items.len() > max_len {
        return Err(len_msg.to_owned());
    }
    let mut out: Vec<i32> = Vec::new();
    let mut i: usize = 0;
    while i < items.len()
        invariant
            i <= items@.len(),
            bounded_issue(items@, min, max, 0, msgs[3], msgs[4]) == bounded_issue(items@, min, max, i as int, msgs[3], msgs[4]),
            out@ == Seq::new(i as nat, |j: int| item_i32(items@[j])->0),
            forall|j: int| 0 <= j < i ==> #[trigger] item_i32(items@[j]) is Some,
        decreases items@.len() - i,
    {
        let n = match &items[i] {
            JsonValue::Int(n) => if i32::MIN as i64 <= *n && *n <= i32::MAX as i64 { Some(*n as i32) } else { None },
            _ => None,
        };
        assert(n == item_i32(items@[i as int]));
        let n = match n {
            Some(n) => if min <= n && n <= max { n } else { return Err(range_msg.to_owned()) },
            None => return Err(range_msg.to_owned()),
        };
        let mut j: usize = 0;
        while j < i
            invariant
                j <= i,
                out@ == Seq::new(i as nat, |k: int| item_i32(items@[k])->0),
                forall|k: int| 0 <= k < i ==> #[trigger] item_i32(items@[k]) is Some,
                forall|k: int| 0 <= k < j ==> item_i32(#[trigger] items@[k]) != item_i32(items@[i as int]),
                item_i32(items@[i as int]) == Some(n),
            decreases i - j,
        {
            if out[j] == n {
                assert(item_i32(items@[j as int]) == item_i32(items@[i as int]));
                return Err(dup_msg.to_owned());
            }
            j = j + 1;
        }
        out.push(n);
        assert(out@ =~= Seq::new((i + 1) as nat, |j: int| item_i32(items@[j])->0));
        i = i + 1;
    }
    Ok(out)
}

/// The integer items of a list (each cast as `as` casts), others skipped.
pub open spec fn int_items(items: Seq<JsonValue>) -> Seq<i32>
    decreases items.len(),
{
    if items.len() == 0 {
        Seq::empty()
    } else {
        let rest = int_items(items.drop_last());
        match items.last() {
            JsonValue::Int(n) => rest.push(n as i32),
            _ => rest,
        }
    }
}

fn read_int_items(items: &[JsonValue]) -> (r: Vec<i32>)
    ensures
        r@ == int_items(items@),
{
    let mut out: Vec<i32> = Vec::new();
    let mut i: usize = 0;
    while i < items.len()
        invariant
            i <= items@.len(),
            out@ == int_items(items@.subrange(0, i as int)),
        decreases items@.len() - i,
    {
        assert(items@.subrange(0, i + 1).drop_last() =~= items@.subrange(0, i as int));
        match &items[i] {
            JsonValue::Int(n) => out.push(*n as i32),
            _ => {},
        }
        i = i + 1;
    }
    assert(items@.subrange(0, i as int) =~= items@);
    out
}

/// An integer list under its camelCase key, else (when that gives none)
/// under its snake_case key.
pub open spec fn int_list_pair(v: JsonValue, camel: Seq<char>, snake: Seq<char>) -> Seq<i32> {
    let a = int_items(items_field(v, camel));
    if a.len() == 0 { int_items(items_field(v, snake)) } else { a }
}

fn read_int_list_pair(v: &JsonValue, camel: &str, snake: &str) -> (r: Vec<i32>)
    ensures
        r@ == int_list_pair(*v, camel@, snake@),
{
    let a = read_int_items(get_items(v, camel));
    if a.len() == 0 { read_int_items(get_items(v, snake)) } else { a }
}

/// `customBonusAttr` / `custom_bonus_attr`: absent or null gives none,
/// otherwise a string.
pub open spec fn custom_attr_step(v: JsonValue) -> Result<Option<Seq<char>>, Seq<char>> {
    match alias(v, "customBonusAttr"@, "custom_bonus_attr"@) {
        None => Err("customBonusAttr 与 custom_bonus_attr 冲突"@),
        Some(None) => Ok(None),
        Some(Some(JsonValue::Null)) => Ok(None),
        Some(Some(x)) => match as_text(x) {
            Some(t) => Ok(Some(t)),
            None => Err("custom_bonus_attr / attr 必须是字符串"@),
        },
    }
}

fn read_custom_attr(v: &JsonValue) -> (r: Result<Option<String>, String>)
    ensures
        match custom_attr_step(*v) {
            Ok(None) => r matches Ok(None),
            Ok(Some(t)) => r matches Ok(Some(s)) && s@ == t,
            Err(m) => r matches Err(s) && s@ == m,
        },
{
    match get_alias(v, "customBonusAttr", "custom_bonus_attr") {
        None => Err("customBonusAttr 与 custom_bonus_attr 冲突".to_owned()),
        Some(None) => Ok(None),
        Some(Some(JsonValue::Null)) => Ok(None),
        Some(Some(JsonValue::Str(t))) => Ok(Some(t.clone())),
        Some(Some(_)) => Err("custom_bonus_attr / attr 必须是字符串".to_owned()),
    }
}

// ---------------------------------------------------------------------------
// Decimal texts.

pub open spec fn is_digit(c: char) -> bool {
    '0' <= c && c <= '9'
}

pub open spec fn all_digits(s: Seq<char>) -> bool {
    forall|i: int| 0 <= i < s.len() ==> #[trigger] is_digit(s[i])
}

/// The value of a string of decimal digits.
pub open spec fn digits_value(s: Seq<char>) -> int
    decreases s.len(),
{
    if s.len() == 0 {
        0
    } else {
        digits_value(s.drop_last()) * 10 + (s.last() as int - '0' as int)
    }
}

/// An unsigned decimal as `str::parse` reads it: an optional `+`, then one
/// or more digits.
pub open spec fn unsigned_text(s: Seq<char>) -> Option<int> {
    let body = if s.len() > 0 && s[0] == '+' { s.drop_first() } else { s };
    if body.len() > 0 && all_digits(body) { Some(digits_value(body)) } else { None }
}

/// `s.parse::<usize>()`.
pub open spec fn usize_text(s: Seq<char>) -> Option<usize> {
    match unsigned_text(s) {
        Some(n) => if n <= usize::MAX { Some(n as usize) } else { None },
        None => None,
    }
}

/// `s.parse::<i32>()`.
pub open spec fn i32_text(s: Seq<char>) -> Option<i32> {
    if s.len() > 0 && s[0] == '-' {
        let body = s.drop_first();
        if body.len() > 0 && all_digits(body) && digits_value(body) <= 0x8000_0000 {
            Some((-digits_value(body)) as i32)
        } else {
            None
        }
    } else {
        match unsigned_text(s) {
            Some(n) => if n <= i32::MAX { Some(n as i32) } else { None },
            None => None,
        }
    }
}

proof fn lemma_digits_nonneg(s: Seq<char>)
    requires
        all_digits(s),
    ensures
        digits_value(s) >= 0,
    decreases s.len(),
{
    if s.len() > 0 {
        assert(is_digit(s[s.len() - 1]));
        lemma_digits_nonneg(s.drop_last());
    }
}

/// The digits of `s` from `start` on, their value capped at 2^64; `None`
/// when there are none or one is not a digit.
fn capped_digits(s: &str, start: usize) -> (r: Option<u128>)
    requires
        start <= s@.len(),
    ensures
        match r {
            Some(n) => s@.skip(start as int).len() > 0 && all_digits(s@.skip(start as int))
                && n == (if digits_value(s@.skip(start as int)) < 0x1_0000_0000_0000_0000 {
                    digits_value(s@.skip(start as int))
                } else {
                    0x1_0000_0000_0000_0000
                }),
            None => !(s@.skip(start as int).len() > 0 && all_digits(s@.skip(start as int))),
        },
{
    let n = s.unicode_len();
    if start >= n {
        assert(s@.skip(start as int).len() == 0);
        return None;
    }
    let cap: u128 = 0x1_0000_0000_0000_0000;
    let mut acc: u128 = 0;
    let mut i: usize = start;
    while i < n
        invariant
            start <= i <= n,
            n == s@.len(),
            all_digits(s@.subrange(start as int, i as int)),
            acc <= cap,
            cap == 0x1_0000_0000_0000_0000,
            acc < cap ==> acc == digits_value(s@.subrange(start as int, i as int)),
            acc == cap ==> digits_value(s@.subrange(start as int, i as int)) >= cap,
        decreases n - i,
    {
        let c = s.get_char(i);
        if !('0' <= c && c <= '9') {
            assert(s@.skip(start as int)[i - start] == c);
            assert(!is_digit(s@.skip(start as int)[i - start]));
            return None;
        }
        let d = (c as u32 - '0' as u32) as u128;
        let ghost pre = s@.subrange(start as int, i as int);
        assert(s@.subrange(start as int, i + 1).drop_last() =~= pre);
        assert(digits_value(s@.subrange(start as int, i + 1)) == digits_value(pre) * 10 + d);
        proof {
            lemma_digits_nonneg(pre);
        }
        if acc < cap {
            let next = acc * 10 + d;
            acc = if next < cap { next } else { cap };
        }
        assert(all_digits(s@.subrange(start as int, i + 1))) by {
            assert forall|k: int| 0 <= k < i + 1 - start implies #[trigger] is_digit(s@.subrange(start as int, i + 1)[k]) by {
                if k < i - start {
                    assert(s@.subrange(start as int, i + 1)[k] == pre[k]);
                }
            }
        }
        i = i + 1;
    }
    assert(s@.subrange(start as int, n as int) =~= s@.skip(start as int));
    Some(acc)
}

/// `s.parse::<usize>()`.
fn parse_usize_text(s: &str) -> (r: Option<usize>)
    ensures
        r == usize_text(s@),
{
    let n = s.unicode_len();
    let start: usize = if n > 0 && s.get_char(0) == '+' { 1 } else { 0 };
    assert(s@.skip(start as int) =~= (if s@.len() > 0 && s@[0] == '+' { s@.drop_first() } else { s@ }));
    match capped_digits(s, start) {
        Some(v) => if v <= usize::MAX as u128 { Some(v as usize) } else { None },
        None => None,
    }
}

/// `s.parse::<i32>()`.
fn parse_i32_text(s: &str) -> (r: Option<i32>)
    ensures
        r == i32_text(s@),
{
    let n = s.unicode_len();
    if n > 0 && s.get_char(0) == '-' {
        assert(s@.skip(1) =~= s@.drop_first());
        match capped_digits(s, 1) {
            Some(v) => if v <= 0x8000_0000 { Some((0 - v as i64) as i32) } else { None },
            None => None,
        }
    } else {
        let start: usize = if n > 0 && s.get_char(0) == '+' { 1 } else { 0 };
        assert(s@.skip(start as int) =~= (if s@.len() > 0 && s@[0] == '+' { s@.drop_first() } else { s@ }));
        match capped_digits(s, start) {
            Some(v) => if v <= i32::MAX as u128 { Some(v as i32) } else { None },
            None => None,
        }
    }
}

// ---------------------------------------------------------------------------
// The specific skill order.

/// `str::split(',')`.
pub open spec fn split_commas(s: Seq<char>) -> Seq<Seq<char>>
    decreases s.len(),
{
    if s.len() == 0 {
        seq![Seq::empty()]
    } else {
        let rest = split_commas(s.drop_last());
        if s.last() == ',' {
            rest.push(Seq::empty())
        } else {
            rest.update(rest.len() - 1, rest.last().push(s.last()))
        }
    }
}

proof fn lemma_split_nonempty(s: Seq<char>)
    ensures
        split_commas(s).len() >= 1,
    decreases s.len(),
{
    if s.len() > 0 {
        lemma_split_nonempty(s.drop_last());
    }
}

/// The (start, end) character ranges of the comma-separated parts.
fn comma_parts(t: &str) -> (r: Vec<(usize, usize)>)
    ensures
        r@.len() == split_commas(t@).len(),
        forall|j: int| 0 <= j < r@.len() ==> (#[trigger] r@[j]).0 <= r@[j].1 <= t@.len()
            && t@.subrange(r@[j].0 as int, r@[j].1 as int) == split_commas(t@)[j],
{
    let n = t.unicode_len();
    let mut bounds: Vec<(usize, usize)> = Vec::new();
    let mut lo: usize = 0;
    let mut i: usize = 0;
    let ghost mut cur = split_commas(t@.subrange(0, 0));
    proof {
        assert(t@.subrange(0, 0) =~= Seq::<char>::empty());
    }
    while i < n
        invariant
            lo <= i <= n,
            n == t@.len(),
            cur == split_commas(t@.subrange(0, i as int)),
            bounds@.len() + 1 == cur.len(),
            forall|j: int| 0 <= j < bounds@.len() ==> (#[trigger] bounds@[j]).0 <= bounds@[j].1 <= i
                && t@.subrange(bounds@[j].0 as int, bounds@[j].1 as int) == cur[j],
            t@.subrange(lo as int, i as int) == cur[cur.len() - 1],
        decreases n - i,
    {
        let ghost pre = t@.subrange(0, i as int);
        let ghost next = t@.subrange(0, i + 1);
        assert(next.drop_last() =~= pre);
        assert(next.last() == t@[i as int]);
        proof {
            lemma_split_nonempty(pre);
        }
        let c = t.get_char(i);
        let ghost old_bounds = bounds@;
        let ghost lo_old = lo;
        let ghost sp = cur;
        let ghost sn = split_commas(next);
        if c == ',' {
            bounds.push((lo, i));
            lo = i + 1;
            assert(t@.subrange(lo as int, i + 1) =~= Seq::<char>::empty());
            assert(sn == sp.push(Seq::<char>::empty()));
        } else {
            assert(t@.subrange(lo as int, i + 1) =~= t@.subrange(lo as int, i as int).push(c));
            assert(sn == sp.update(sp.len() - 1, sp.last().push(c)));
        }
        assert forall|j: int| 0 <= j < bounds@.len() implies (#[trigger] bounds@[j]).0 <= bounds@[j].1 <= i + 1
            && t@.subrange(bounds@[j].0 as int, bounds@[j].1 as int) == sn[j] by {
            if j < old_bounds.len() {
                assert(bounds@[j] == old_bounds[j]);
                assert(t@.subrange(old_bounds[j].0 as int, old_bounds[j].1 as int) == sp[j]);
                assert(sn[j] == sp[j]);
            } else {
                assert(bounds@[j] == (lo_old, i));
                assert(sn[j] == sp[sp.len() - 1]);
            }
        }
        proof {
            cur = sn;
        }
        i = i + 1;
        assert(t@.subrange(0, i as int) =~= next);
    }
    assert(t@.subrange(0, i as int) =~= t@);
    let ghost old_bounds = bounds@;
    bounds.push((lo, n));
    assert forall|j: int| 0 <= j < bounds@.len() implies (#[trigger] bounds@[j]).0 <= bounds@[j].1 <= t@.len()
        && t@.subrange(bounds@[j].0 as int, bounds@[j].1 as int) == cur[j] by {
        if j < old_bounds.len() {
            assert(bounds@[j] == old_bounds[j]);
        }
    }
    assert(cur == split_commas(t@));
    bounds
}

/// One part of a string order: surrounding whitespace ignored.
pub open spec fn part_value(p: Seq<char>) -> Option<usize> {
    usize_text(trimmed(p))
}

/// The indexes an order member lists, `None` when one is not a
/// non-negative integer; only arrays and strings are orders.
pub open spec fn order_values(x: JsonValue) -> Option<Seq<usize>> {
    match x {
        JsonValue::Array(items) => if forall|i: int| 0 <= i < items@.len() ==> #[trigger] as_u64(items@[i]) is Some {
            Some(Seq::new(items@.len(), |i: int| as_u64(items@[i])->0 as usize))
        } else {
            None
        },
        JsonValue::Str(t) => {
            let parts = split_commas(t@);
            if forall|i: int| 0 <= i < parts.len() ==> #[trigger] part_value(parts[i]) is Some {
                Some(Seq::new(parts.len(), |i: int| part_value(parts[i])->0))
            } else {
                None
            }
        },
        _ => None,
    }
}

/// `specificSkillOrder` (else `specific_skill_order`): five distinct
/// indexes below 5.
pub open spec fn order_step(v: JsonValue) -> Result<Option<Seq<usize>>, Seq<char>> {
    let raw = if jget(v, "specificSkillOrder"@) is Some { jget(v, "specificSkillOrder"@) } else { jget(v, "specific_skill_order"@) };
    match raw {
        None => Ok(None),
        Some(x) => if !(x is Array || x is Str) {
            Err("specific_skill_order 非法"@)
        } else {
            match order_values(x) {
                None => Err("specific_skill_order 必须是非负整数"@),
                Some(vals) => order_check(vals),
            }
        },
    }
}

/// The checks on the indexes of an order.
pub open spec fn order_check(vals: Seq<usize>) -> Result<Option<Seq<usize>>, Seq<char>> {
    if vals.len() != 5 {
        Err("specific_skill_order 必须包含 5 个索引"@)
    } else if exists|i: int| 0 <= i < 5 && #[trigger] vals[i] >= 5 {
        Err("specific_skill_order 索引必须在 0..5"@)
    } else if exists|i: int, j: int| 0 <= i < j < 5 && #[trigger] vals[i] == #[trigger] vals[j] {
        Err("specific_skill_order 索引不得重复"@)
    } else {
        Ok(Some(vals))
    }
}

#[verifier::loop_isolation(false)]
fn read_order_values(x: &JsonValue) -> (r: Option<Vec<usize>>)
    requires
        x is Array || x is Str,
    ensures
        match order_values(*x) {
            Some(vals) => r matches Some(out) && out@ == vals,
            None => r is None,
        },
{
    let mut out: Vec<usize> = Vec::new();
    match x {
        JsonValue::Array(items) => {
            let mut i: usize = 0;
            while i < items.len()
                invariant
                    i <= items@.len(),
                    forall|k: int| 0 <= k < i ==> #[trigger] as_u64(items@[k]) is Some,
                    out@ == Seq::new(i as nat, |k: int| as_u64(items@[k])->0 as usize),
                decreases items@.len() - i,
            {
                match json_as_u64(&items[i]) {
                    Some(n) => out.push(n as usize),
                    None => {
                        assert(!(as_u64(items@[i as int]) is Some));
                        return None;
                    },
                }
                assert(out@ =~= Seq::new((i + 1) as nat, |k: int| as_u64(items@[k])->0 as usize));
                i = i + 1;
            }
            Some(out)
        },
        JsonValue::Str(t) => {
            let ts = t.as_str();
            let parts = comma_parts(ts);
            let ghost sp = split_commas(ts@);
            let mut i: usize = 0;
            while i < parts.len()
                invariant
                    i <= parts@.len(),
                    parts@.len() == sp.len(),
                    ts@ == t@,
                    forall|j: int| 0 <= j < parts@.len() ==> (#[trigger] parts@[j]).0 <= parts@[j].1 <= ts@.len()
                        && ts@.subrange(parts@[j].0 as int, parts@[j].1 as int) == sp[j],
                    forall|k: int| 0 <= k < i ==> #[trigger] part_value(sp[k]) is Some,
                    out@ == Seq::new(i as nat, |k: int| part_value(sp[k])->0),
                decreases parts@.len() - i,
            {
                let (lo, hi) = parts[i];
                assert(ts@.subrange(lo as int, hi as int) == sp[i as int]);
                let piece = ts.substring_char(lo, hi);
                match parse_usize_text(trim_str(piece)) {
                    Some(n) => out.push(n),
                    None => {
                        assert(!(part_value(sp[i as int]) is Some));
                        return None;
                    },
                }
                assert(out@ =~= Seq::new((i + 1) as nat, |k: int| part_value(sp[k])->0));
                i = i + 1;
            }
            Some(out)
        },
        _ => None,
    }
}

#[verifier::loop_isolation(false)]
fn read_order(v: &JsonValue) -> (r: Result<Option<[usize; 5]>, String>)
    ensures
        match order_step(*v) {
            Ok(None) => r matches Ok(None),
            Ok(Some(vals)) => r matches Ok(Some(o)) && o@ == vals,
            Err(m) => r matches Err(s) && s@ == m,
        },
{
    let raw = match json_get(v, "specificSkillOrder") {
        Some(x) => Some(x),
        None => json_get(v, "specific_skill_order"),
    };
    let x = match raw {
        None => return Ok(None),
        Some(x) => x,
    };
    let shape = match x {
        JsonValue::Array(_) => true,
        JsonValue::Str(_) => true,
        _ => false,
    };
    if !shape {
        return Err("specific_skill_order 非法".to_owned());
    }
    let vals = match read_order_values(x) {
        None => return Err("specific_skill_order 必须是非负整数".to_owned()),
        Some(vals) => vals,
    };
    assert(order_values(*x) == Some(vals@));
    assert(order_step(*v) == order_check(vals@));
    if vals.len() != 5 {
        return Err("specific_skill_order 必须包含 5 个索引".to_owned());
    }
    let mut i: usize = 0;
    while i < 5
        invariant
            i <= 5,
            vals@.len() == 5,
            forall|k: int| 0 <= k < i ==> #[trigger] vals@[k] < 5,
        decreases 5 - i,
    {
        if vals[i] >= 5 {
            assert(vals@[i as int] >= 5);
            assert(vals@[i as int] >= 5);
            return Err("specific_skill_order 索引必须在 0..5".to_owned());
        }
        i = i + 1;
    }
    let mut a: usize = 0;
    while a < 5
        invariant
            a <= 5,
            vals@.len() == 5,
            forall|k: int| 0 <= k < 5 ==> #[trigger] vals@[k] < 5,
            forall|p: int, q: int| 0 <= p < q < 5 && p < a ==> #[trigger] vals@[p] != #[trigger] vals@[q],
        decreases 5 - a,
    {
        let mut b: usize = a + 1;
        while b < 5
            invariant
                a < 5,
                a < b <= 5,
                vals@.len() == 5,
                forall|p: int, q: int| 0 <= p < q < 5 && p < a ==> #[trigger] vals@[p] != #[trigger] vals@[q],
                forall|q: int| a < q < b ==> vals@[a as int] != #[trigger] vals@[q],
            decreases 5 - b,
        {
            if vals[a] == vals[b] {
                assert(vals@[a as int] == vals@[b as int]);
                assert(!exists|k: int| 0 <= k < 5 && #[trigger] vals@[k] >= 5);
                return Err("specific_skill_order 索引不得重复".to_owned());
            }
            b = b + 1;
        }
        a = a + 1;
    }
    let o: [usize; 5] = [vals[0], vals[1], vals[2], vals[3], vals[4]];
    assert(o@ =~= vals@);
    Ok(Some(o))
}

// ---------------------------------------------------------------------------
// Support groups of a custom event.

/// One `"<character id>": "<group>"` member, read.
pub open spec fn unit_entry(e: (String, JsonValue)) -> Result<CustomSupportUnit, Seq<char>> {
    match i32_text(e.0@) {
        None => Err("custom bonus support character id 非法"@),
        Some(id) => match as_text(e.1) {
            Some(t) => match spec_parse_unit(t) {
                Some(u) => if spec_is_real_unit(u) {
                    Ok(CustomSupportUnit { character_id: id, unit: u })
                } else {
                    Err("custom bonus support unit 非法"@)
                },
                None => Err("custom bonus support unit 非法"@),
            },
            None => Err("custom bonus support unit 非法"@),
        },
    }
}

/// The first bad member from member `k` on.
pub open spec fn units_issue(es: Seq<(String, JsonValue)>, k: int) -> Option<Seq<char>>
    decreases es.len() - k,
{
    if k < 0 || k >= es.len() {
        None
    } else {
        match unit_entry(es[k]) {
            Err(m) => Some(m),
            Ok(_) => units_issue(es, k + 1),
        }
    }
}

/// Inserts after every entry whose character id is not larger.
pub open spec fn insert_by_id(s: Seq<CustomSupportUnit>, e: CustomSupportUnit) -> Seq<CustomSupportUnit>
    decreases s.len(),
{
    if s.len() == 0 {
        seq![e]
    } else if e.character_id < s[0].character_id {
        seq![e] + s
    } else {
        seq![s[0]] + insert_by_id(s.drop_first(), e)
    }
}

/// The entries ordered by character id (entries with one id keep their
/// order).
pub open spec fn sort_by_id(s: Seq<CustomSupportUnit>) -> Seq<CustomSupportUnit>
    decreases s.len(),
{
    if s.len() == 0 {
        Seq::empty()
    } else {
        insert_by_id(sort_by_id(s.drop_last()), s.last())
    }
}

/// The aliased support-group member: an object of character ids to groups,
/// read in key order and then ordered by character id.
pub open spec fn units_step(v: JsonValue) -> Result<Seq<CustomSupportUnit>, Seq<char>> {
    match alias(v, "customBonusCharacterSupportUnits"@, "custom_bonus_character_support_units"@) {
        None => Err("customBonusCharacterSupportUnits 与 custom_bonus_character_support_units 冲突"@),
        Some(None) => Ok(Seq::empty()),
        Some(Some(JsonValue::Object(es))) => match units_issue(es@, 0) {
            Some(m) => Err(m),
            None => Ok(sort_by_id(Seq::new(es@.len(), |j: int| unit_entry(es@[j])->Ok_0))),
        },
        Some(Some(_)) => Err("custom bonus support units 必须是对象"@),
    }
}

proof fn lemma_insert_at(s: Seq<CustomSupportUnit>, e: CustomSupportUnit, p: int)
    requires
        0 <= p <= s.len(),
        forall|k: int| 0 <= k < p ==> #[trigger] s[k].character_id <= e.character_id,
        p < s.len() ==> e.character_id < s[p].character_id,
    ensures
        insert_by_id(s, e) == s.take(p).push(e) + s.skip(p),
    decreases s.len(),
{
    if s.len() == 0 {
        assert(s.take(p).push(e) + s.skip(p) =~= seq![e]);
    } else if p == 0 {
        assert(s.take(p).push(e) + s.skip(p) =~= seq![e] + s);
    } else {
        assert forall|k: int| 0 <= k < p - 1 implies #[trigger] s.drop_first()[k].character_id <= e.character_id by {
            assert(s.drop_first()[k] == s[k + 1]);
        }
        lemma_insert_at(s.drop_first(), e, p - 1);
        assert(s.take(p).push(e) + s.skip(p) =~= seq![s[0]] + (s.drop_first().take(p - 1).push(e) + s.drop_first().skip(p - 1)));
    }
}

#[verifier::loop_isolation(false)]
fn read_units(v: &JsonValue) -> (r: Result<Vec<CustomSupportUnit>, String>)
    ensures
        match units_step(*v) {
            Ok(l) => r matches Ok(out) && out@ == l,
            Err(m) => r matches Err(s) && s@ == m,
        },
{
    let es = match get_alias(v, "customBonusCharacterSupportUnits", "custom_bonus_character_support_units") {
        None => return Err("customBonusCharacterSupportUnits 与 custom_bonus_character_support_units 冲突".to_owned()),
        Some(None) => return Ok(Vec::new()),
        Some(Some(JsonValue::Object(es))) => es,
        Some(Some(_)) => return Err("custom bonus support units 必须是对象".to_owned()),
    };
    let ghost read = Seq::new(es@.len(), |j: int| unit_entry(es@[j])->Ok_0);
    let mut out: Vec<CustomSupportUnit> = Vec::new();
    let mut i: usize = 0;
    while i < es.len()
        invariant
            i <= es@.len(),
            read == Seq::new(es@.len(), |j: int| unit_entry(es@[j])->Ok_0),
            units_issue(es@, 0) == units_issue(es@, i as int),
            out@ == sort_by_id(read.take(i as int)),
        decreases es@.len() - i,
    {
        let (key, value) = (&es[i].0, &es[i].1);
        let id = match parse_i32_text(key.as_str()) {
            Some(id) => id,
            None => {
                assert(units_issue(es@, i as int) == Some("custom bonus support character id 非法"@));
                return Err("custom bonus support character id 非法".to_owned());
            },
        };
        let unit = match value {
            JsonValue::Str(t) => match parse_unit_code(t.as_str()) {
                Some(u) => if unit_to_pool_index(u).is_some() { u } else { return Err("custom bonus support unit 非法".to_owned()) },
                None => return Err("custom bonus support unit 非法".to_owned()),
            },
            _ => {
                assert(as_text(es@[i as int].1) is None);
                assert(units_issue(es@, i as int) == Some("custom bonus support unit 非法"@));
                return Err("custom bonus support unit 非法".to_owned());
            },
        };
        let e = CustomSupportUnit { character_id: id, unit };
        assert(unit_entry(es@[i as int]) == Ok::<CustomSupportUnit, Seq<char>>(e));
        let mut p: usize = 0;
        while p < out.len() && out[p].character_id <= id
            invariant
                p <= out@.len(),
                forall|k: int| 0 <= k < p ==> #[trigger] out@[k].character_id <= id,
            decreases out@.len() - p,
        {
            p = p + 1;
        }
        proof {
            lemma_insert_at(out@, e, p as int);
            assert(read.take(i + 1).drop_last() =~= read.take(i as int));
            assert(read.take(i + 1).last() == e);
        }
        out.insert(p, e);
        assert(out@ =~= sort_by_id(read.take(i + 1)));
        i = i + 1;
    }
    assert(read.take(i as int) =~= read);
    Ok(out)
}

// ---------------------------------------------------------------------------
// Decimal numbers, in millionths.

/// 10 to the `k`.
pub open spec fn pow10(k: nat) -> int
    decreases k,
{
    if k == 0 { 1 } else { 10 * pow10((k - 1) as nat) }
}

/// The index of the first `c` in `s`, or its length.
pub open spec fn find_char(s: Seq<char>, c: char) -> int
    decreases s.len(),
{
    if s.len() == 0 {
        0
    } else if s[0] == c {
        0
    } else {
        1 + find_char(s.drop_first(), c)
    }
}

/// `v` rounded to the nearest integer, halves away from zero, after
/// shifting its decimal point `shift` places to the right.
pub open spec fn shifted_round(v: nat, shift: int) -> int {
    if shift >= 0 {
        v * pow10(shift as nat)
    } else {
        let d = pow10((-shift) as nat);
        (v as int) / d + (if ((v as int) % d) * 2 >= d { 1int } else { 0int })
    }
}

/// A value clamped to 64 bits.
pub open spec fn clamp_i64(x: int) -> i64 {
    if x > i64::MAX { i64::MAX } else if x < i64::MIN { i64::MIN } else { x as i64 }
}

/// The millionths of a decimal number text `[-]digits[.digits][e[-]digits]`
/// (at most 36 digits, exponent within ±400), rounded halves away from
/// zero and clamped to 64 bits; `None` for another text.
pub open spec fn decimal_micro(t: Seq<char>) -> Option<i64> {
    let e = find_char(t, 'e');
    let mant = t.take(e);
    let exp = if e < t.len() { i32_text(t.skip(e + 1)) } else { Some(0i32) };
    let neg = mant.len() > 0 && mant[0] == '-';
    let m = if neg { mant.drop_first() } else { mant };
    let dot = find_char(m, '.');
    let int_part = m.take(dot);
    let frac = if dot < m.len() { m.skip(dot + 1) } else { Seq::empty() };
    let digits = int_part + frac;
    if int_part.len() == 0 || !all_digits(digits) || digits.len() > 36 || exp is None
        || !(-400 <= exp->0 <= 400) {
        None
    } else {
        let mag = shifted_round(digits_value(digits) as nat, exp->0 - frac.len() + 6);
        Some(clamp_i64(if neg { -mag } else { mag }))
    }
}

proof fn lemma_pow10_pos(k: nat)
    ensures
        pow10(k) >= 1,
    decreases k,
{
    if k > 0 {
        lemma_pow10_pos((k - 1) as nat);
    }
}

proof fn lemma_pow10_big(k: nat)
    requires
        k >= 39,
    ensures
        pow10(k) > 0x1_0000_0000_0000_0000_0000_0000_0000_0000,
    decreases k,
{
    if k == 39 {
        reveal_with_fuel(pow10, 40);
    } else {
        lemma_pow10_big((k - 1) as nat);
    }
}

proof fn lemma_digits_bound(s: Seq<char>)
    requires
        all_digits(s),
    ensures
        0 <= digits_value(s) < pow10(s.len()),
    decreases s.len(),
{
    if s.len() > 0 {
        assert(is_digit(s[s.len() - 1]));
        assert(all_digits(s.drop_last())) by {
            assert forall|i: int| 0 <= i < s.drop_last().len() implies #[trigger] is_digit(s.drop_last()[i]) by {
                assert(s.drop_last()[i] == s[i]);
            }
        }
        lemma_digits_bound(s.drop_last());
    }
}

fn find_char_exec(s: &str, c: char) -> (r: usize)
    ensures
        r == find_char(s@, c),
        r <= s@.len(),
        r < s@.len() ==> s@[r as int] == c,
{
    let n = s.unicode_len();
    let mut i: usize = 0;
    assert(s@.skip(0) =~= s@);
    while i < n
        invariant
            i <= n,
            n == s@.len(),
            find_char(s@, c) == i + find_char(s@.skip(i as int), c),
        decreases n - i,
    {
        assert(s@.skip(i as int)[0] == s@[i as int]);
        if s.get_char(i) == c {
            return i;
        }
        assert(s@.skip(i as int).drop_first() =~= s@.skip(i + 1));
        i = i + 1;
    }
    i
}

/// The value of the digits of `s` in `lo..hi` followed by those in
/// `lo2..hi2`, as one digit string (at most 36 digits).
fn digits_two(s: &str, lo: usize, hi: usize, lo2: usize, hi2: usize) -> (r: Option<u128>)
    requires
        lo <= hi <= s@.len(),
        lo2 <= hi2 <= s@.len(),
    ensures
        match r {
            Some(v) => all_digits(s@.subrange(lo as int, hi as int) + s@.subrange(lo2 as int, hi2 as int))
                && (hi - lo) + (hi2 - lo2) <= 36
                && v == digits_value(s@.subrange(lo as int, hi as int) + s@.subrange(lo2 as int, hi2 as int)),
            None => !all_digits(s@.subrange(lo as int, hi as int) + s@.subrange(lo2 as int, hi2 as int))
                || (hi - lo) + (hi2 - lo2) > 36,
        },
{
    let ghost whole = s@.subrange(lo as int, hi as int) + s@.subrange(lo2 as int, hi2 as int);
    if hi - lo > 36 || hi2 - lo2 > 36 || (hi - lo) + (hi2 - lo2) > 36 {
        return None;
    }
    let total: usize = (hi - lo) + (hi2 - lo2);
    let mut acc: u128 = 0;
    let mut k: usize = 0;
    while k < total
        invariant
            k <= total,
            total == whole.len(),
            total <= 36,
            lo <= hi <= s@.len(),
            lo2 <= hi2 <= s@.len(),
            whole == s@.subrange(lo as int, hi as int) + s@.subrange(lo2 as int, hi2 as int),
            all_digits(whole.take(k as int)),
            acc == digits_value(whole.take(k as int)),
            acc < pow10(k as nat),
        decreases total - k,
    {
        let c = if k < hi - lo { s.get_char(lo + k) } else { s.get_char(lo2 + (k - (hi - lo))) };
        assert(c == whole[k as int]);
        if !('0' <= c && c <= '9') {
            assert(!is_digit(whole[k as int]));
            return None;
        }
        assert(whole.take(k + 1).drop_last() =~= whole.take(k as int));
        assert(all_digits(whole.take(k + 1))) by {
            assert forall|i: int| 0 <= i < k + 1 implies #[trigger] is_digit(whole.take(k + 1)[i]) by {
                if i < k {
                    assert(whole.take(k + 1)[i] == whole.take(k as int)[i]);
                }
            }
        }
        assert(pow10((k + 1) as nat) == 10 * pow10(k as nat));
        assert(pow10(36) < 0x1_0000_0000_0000_0000_0000_0000_0000_0000) by {
            reveal_with_fuel(pow10, 37);
        }
        assert(pow10(k as nat) <= pow10(35)) by {
            lemma_pow10_mono(k as nat, 35);
        }
        acc = acc * 10 + (c as u32 - '0' as u32) as u128;
        k = k + 1;
    }
    assert(whole.take(total as int) =~= whole);
    Some(acc)
}

proof fn lemma_pow10_mono(a: nat, b: nat)
    requires
        a <= b,
    ensures
        pow10(a) <= pow10(b),
    decreases b,
{
    if a < b {
        lemma_pow10_mono(a, (b - 1) as nat);
        lemma_pow10_pos((b - 1) as nat);
    }
}

fn clamp_to_i64(neg: bool, mag: u128) -> (r: i64)
    ensures
        r == clamp_i64(if neg { -(mag as int) } else { mag as int }),
{
    if neg {
        if mag > 0x8000_0000_0000_0000 { i64::MIN } else { (0i128 - mag as i128) as i64 }
    } else {
        if mag > i64::MAX as u128 { i64::MAX } else { mag as i64 }
    }
}

/// `v * 10^shift`, or 2^64 when that is 2^64 or more.
fn scale_up(v: u128, shift: i64) -> (r: u128)
    requires
        v < pow10(36),
        shift >= 0,
    ensures
        r < 0x1_0000_0000_0000_0000 ==> r == v * pow10(shift as nat),
        r >= 0x1_0000_0000_0000_0000 ==> v * pow10(shift as nat) >= 0x1_0000_0000_0000_0000,
{
    let cap: u128 = 0x1_0000_0000_0000_0000;
    let mut acc: u128 = v;
    let mut k: i64 = 0;
    assert(pow10(0) == 1);
    proof {
        assert(pow10(36) < 0x1_0000_0000_0000_0000_0000_0000_0000_0000) by {
            reveal_with_fuel(pow10, 37);
        }
    }
    while k < shift
        invariant
            0 <= k <= shift,
            v < pow10(36),
            pow10(36) < 0x1_0000_0000_0000_0000_0000_0000_0000_0000,
            cap == 0x1_0000_0000_0000_0000,
            acc < cap ==> acc == v * pow10(k as nat),
            acc >= cap ==> v * pow10(k as nat) >= cap,
        decreases shift - k,
    {
        assert(pow10((k + 1) as nat) == 10 * pow10(k as nat));
        proof {
            lemma_pow10_pos(k as nat);
        }
        assert(v * pow10((k + 1) as nat) == (v * pow10(k as nat)) * 10) by (nonlinear_arith)
            requires pow10((k + 1) as nat) == 10 * pow10(k as nat);
        if acc < cap {
            acc = acc * 10;
        } else {
            acc = cap;
        }
        k = k + 1;
    }
    acc
}

/// `v / 10^back` rounded halves up.
fn scale_down(v: u128, back: i64) -> (r: u128)
    requires
        v < pow10(36),
        back > 0,
    ensures
        r == shifted_round(v as nat, -back),
{
    proof {
        assert(pow10(36) < 0x1_0000_0000_0000_0000_0000_0000_0000_0000) by {
            reveal_with_fuel(pow10, 37);
        }
        lemma_pow10_pos(back as nat);
    }
    if back > 38 {
        proof {
            lemma_pow10_big(back as nat);
        }
        let ghost d = pow10(back as nat);
        assert((v as int) / d == 0 && (v as int) % d == v as int) by (nonlinear_arith)
            requires 0 <= v < d;
        assert(pow10(36) == 1_000_000_000_000_000_000_000_000_000_000_000_000) by {
            reveal_with_fuel(pow10, 37);
        }
        assert(((v as int) % d) * 2 < d);
        assert(pow10((-(-back as int)) as nat) == d);
        return 0;
    }
    let mut d: u128 = 1;
    let mut k: i64 = 0;
    assert(pow10(0) == 1);
    while k < back
        invariant
            0 <= k <= back <= 38,
            d == pow10(k as nat),
        decreases back - k,
    {
        assert(pow10((k + 1) as nat) == 10 * pow10(k as nat));
        proof {
            lemma_pow10_mono((k + 1) as nat, 38);
            assert(pow10(38) < 0x1_0000_0000_0000_0000_0000_0000_0000_0000) by {
                reveal_with_fuel(pow10, 39);
            }
        }
        d = d * 10;
        k = k + 1;
    }
    let q = v / d;
    let rem = v % d;
    if rem >= d - rem { q + 1 } else { q }
}

/// Millionths of a decimal number text; see `decimal_micro`.
#[verifier::rlimit(60)]
#[verifier::spinoff_prover]
fn read_decimal_micro(t: &str) -> (r: Option<i64>)
    ensures
        r == decimal_micro(t@),
{
    let n = t.unicode_len();
    let e = find_char_exec(t, 'e');
    let exp: Option<i32> = if e < n {
        let rest = t.substring_char(e + 1, n);
        assert(rest@ =~= t@.skip(e + 1));
        parse_i32_text(rest)
    } else {
        Some(0i32)
    };
    let ghost mant = t@.take(e as int);
    let neg = e > 0 && t.get_char(0) == '-';
    let start: usize = if neg { 1 } else { 0 };
    let ghost m = if neg { mant.drop_first() } else { mant };
    let mview = t.substring_char(start, e);
    assert(mview@ =~= m);
    let dot_rel = find_char_exec(mview, '.');
    let dot = start + dot_rel;
    let ghost int_part = m.take(dot_rel as int);
    let ghost frac = if dot_rel < m.len() { m.skip(dot_rel + 1) } else { Seq::<char>::empty() };
    assert(int_part =~= t@.subrange(start as int, dot as int));
    let (f_lo, f_hi): (usize, usize) = if dot < e { (dot + 1, e) } else { (e, e) };
    assert(frac =~= t@.subrange(f_lo as int, f_hi as int));
    if dot_rel == 0 {
        return None;
    }
    let x = match exp {
        Some(x) => x,
        None => return None,
    };
    if !(-400 <= x && x <= 400) {
        return None;
    }
    let v = match digits_two(t, start, dot, f_lo, f_hi) {
        Some(v) => v,
        None => return None,
    };
    let flen: usize = f_hi - f_lo;
    let shift: i64 = x as i64 - flen as i64 + 6;
    let ghost digits = int_part + frac;
    proof {
        lemma_digits_bound(digits);
        assert(pow10(36) < 0x1_0000_0000_0000_0000_0000_0000_0000_0000) by {
            reveal_with_fuel(pow10, 37);
        }
        lemma_pow10_mono(digits.len(), 36);
    }
    let mag: u128 = if shift >= 0 { scale_up(v, shift) } else { scale_down(v, 0 - shift) };
    proof {
        let exact = shifted_round(v as nat, shift as int);
        if shift >= 0 {
            lemma_pow10_pos(shift as nat);
            assert(exact >= 0) by (nonlinear_arith)
                requires exact == v * pow10(shift as nat), v >= 0, pow10(shift as nat) >= 1;
        }
        assert(mag < 0x1_0000_0000_0000_0000 ==> mag == exact);
        assert(mag >= 0x1_0000_0000_0000_0000 ==> exact >= 0x1_0000_0000_0000_0000);
    }
    let r = clamp_to_i64(neg, mag);
    Some(r)
}

/// The score-up lower bound of the other players, in millionths: the
/// number under `multiLiveScoreUpLowerBound`, else under
/// `multi_live_score_up_lower_bound`; none for another kind.
pub open spec fn lower_bound_step(v: JsonValue) -> Option<i64> {
    let raw = if jget(v, "multiLiveScoreUpLowerBound"@) is Some {
        jget(v, "multiLiveScoreUpLowerBound"@)
    } else {
        jget(v, "multi_live_score_up_lower_bound"@)
    };
    match raw {
        Some(JsonValue::Int(n)) => Some(clamp_i64(n * 1_000_000)),
        Some(JsonValue::UInt(n)) => Some(clamp_i64(n * 1_000_000)),
        Some(JsonValue::Num(t)) => decimal_micro(t@),
        _ => None,
    }
}

fn read_lower_bound(v: &JsonValue) -> (r: Option<i64>)
    ensures
        r == lower_bound_step(*v),
{
    let raw = match json_get(v, "multiLiveScoreUpLowerBound") {
        Some(x) => Some(x),
        None => json_get(v, "multi_live_score_up_lower_bound"),
    };
    match raw {
        Some(JsonValue::Int(n)) => {
            let m = (*n as i128) * 1_000_000;
            Some(if m > i64::MAX as i128 { i64::MAX } else if m < i64::MIN as i128 { i64::MIN } else { m as i64 })
        },
        Some(JsonValue::UInt(n)) => {
            let m = (*n as u128) * 1_000_000;
            Some(if m > i64::MAX as u128 { i64::MAX } else { m as i64 })
        },
        Some(JsonValue::Num(t)) => read_decimal_micro(t.as_str()),
        _ => None,
    }
}

/// `boost`: a checked integer in 0..=10.
pub open spec fn boost_step(v: JsonValue) -> Result<Option<i32>, Seq<char>> {
    match checked_i32(v, "boost"@) {
        Err(m) => Err(m),
        Ok(Some(b)) => if 0 <= b <= 10 { Ok(Some(b)) } else { Err("boost 必须在 0..=10 范围内"@) },
        Ok(None) => Ok(None),
    }
}

fn read_boost(v: &JsonValue) -> (r: Result<Option<i32>, String>)
    ensures
        match boost_step(*v) {
            Ok(x) => r == Ok::<Option<i32>, String>(x),
            Err(m) => r matches Err(s) && s@ == m,
        },
{
    match get_checked_i32(v, "boost")? {
        Some(b) => if 0 <= b && b <= 10 { Ok(Some(b)) } else { Err("boost 必须在 0..=10 范围内".to_owned()) },
        None => Ok(None),
    }
}

// ---------------------------------------------------------------------------
// Cultivation presets.

/// A preset object: flags under their camelCase or snake_case keys.
pub open spec fn config_of(x: JsonValue) -> CardRarityConfig {
    CardRarityConfig {
        disable: flag_pair(x, "disable"@, "disable"@),
        level_max: flag_pair(x, "levelMax"@, "level_max"@),
        level: i32_field(x, "level"@),
        skill_max: flag_pair(x, "skillMax"@, "skill_max"@),
        skill_level: int_pair(x, "skillLevel"@, "skill_level"@),
        episode_read: flag_pair(x, "episodeRead"@, "episode_read"@),
        episode_read_count: int_pair(x, "episodeReadCount"@, "episode_read_count"@),
        master_max: flag_pair(x, "masterMax"@, "master_max"@),
        master_rank: int_pair(x, "masterRank"@, "master_rank"@),
        canvas: flag_pair(x, "canvas"@, "canvas"@),
    }
}

fn read_config(x: &JsonValue) -> (r: CardRarityConfig)
    ensures
        r == config_of(*x),
{
    CardRarityConfig {
        disable: get_flag_pair(x, "disable", "disable"),
        level_max: get_flag_pair(x, "levelMax", "level_max"),
        level: get_i32(x, "level"),
        skill_max: get_flag_pair(x, "skillMax", "skill_max"),
        skill_level: get_int_pair(x, "skillLevel", "skill_level"),
        episode_read: get_flag_pair(x, "episodeRead", "episode_read"),
        episode_read_count: get_int_pair(x, "episodeReadCount", "episode_read_count"),
        master_max: get_flag_pair(x, "masterMax", "master_max"),
        master_rank: get_int_pair(x, "masterRank", "master_rank"),
        canvas: get_flag_pair(x, "canvas", "canvas"),
    }
}

/// The member under one key, else under another.
pub open spec fn member_pair(v: JsonValue, first: Seq<char>, second: Seq<char>) -> Option<JsonValue> {
    if jget(v, first) is Some { jget(v, first) } else { jget(v, second) }
}

fn get_member_pair<'a>(v: &'a JsonValue, first: &str, second: &str) -> (r: Option<&'a JsonValue>)
    ensures
        match member_pair(*v, first@, second@) {
            Some(x) => r matches Some(y) && *y == x,
            None => r is None,
        },
{
    match json_get(v, first) {
        Some(x) => Some(x),
        None => json_get(v, second),
    }
}

/// A rarity preset: the object under its key, else the preset that
/// changes nothing.
pub open spec fn rarity_config(v: JsonValue, camel: Seq<char>, snake: Seq<char>) -> CardRarityConfig {
    match member_pair(v, camel, snake) {
        Some(x) => config_of(x),
        None => noop_config(),
    }
}

fn read_rarity_config(v: &JsonValue, camel: &str, snake: &str) -> (r: CardRarityConfig)
    ensures
        r == rarity_config(*v, camel@, snake@),
{
    match get_member_pair(v, camel, snake) {
        Some(x) => read_config(x),
        None => CardRarityConfig::default(),
    }
}

/// One per-card override, when it names its card.
pub open spec fn single_of(e: JsonValue) -> Option<SingleCardConfig> {
    match int_pair(e, "cardId"@, "card_id"@) {
        None => None,
        Some(id) => Some(SingleCardConfig {
            card_id: id,
            config: match jget(e, "config"@) {
                Some(c) => config_of(c),
                None => config_of(e),
            },
        }),
    }
}

/// The overrides of a list, those without a card skipped.
pub open spec fn singles_of(items: Seq<JsonValue>) -> Seq<SingleCardConfig>
    decreases items.len(),
{
    if items.len() == 0 {
        Seq::empty()
    } else {
        let rest = singles_of(items.drop_last());
        match single_of(items.last()) {
            Some(c) => rest.push(c),
            None => rest,
        }
    }
}

/// The items of the override list (`singleCardConfigs`, else
/// `single_card_configs`).
pub open spec fn single_items(v: JsonValue) -> Seq<JsonValue> {
    match member_pair(v, "singleCardConfigs"@, "single_card_configs"@) {
        Some(JsonValue::Array(items)) => items@,
        _ => Seq::empty(),
    }
}

fn read_singles(v: &JsonValue) -> (r: Vec<SingleCardConfig>)
    ensures
        r@ == singles_of(single_items(*v)),
{
    let items: &[JsonValue] = match get_member_pair(v, "singleCardConfigs", "single_card_configs") {
        Some(JsonValue::Array(items)) => items.as_slice(),
        _ => &[],
    };
    let mut out: Vec<SingleCardConfig> = Vec::new();
    let mut i: usize = 0;
    while i < items.len()
        invariant
            i <= items@.len(),
            out@ == singles_of(items@.subrange(0, i as int)),
        decreases items@.len() - i,
    {
        assert(items@.subrange(0, i + 1).drop_last() =~= items@.subrange(0, i as int));
        let e = &items[i];
        match get_int_pair(e, "cardId", "card_id") {
            Some(id) => {
                let config = match json_get(e, "config") {
                    Some(c) => read_config(c),
                    None => read_config(e),
                };
                out.push(SingleCardConfig { card_id: id, config });
            },
            None => {},
        }
        i = i + 1;
    }
    assert(items@.subrange(0, i as int) =~= items@);
    out
}

// ---------------------------------------------------------------------------
// The build parameters.

pub open spec fn err_of<T>(r: Result<T, Seq<char>>) -> Option<Seq<char>> {
    match r {
        Ok(_) => None,
        Err(m) => Some(m),
    }
}

/// The first of two problems.
pub open spec fn first_of(a: Option<Seq<char>>, b: Option<Seq<char>>) -> Option<Seq<char>> {
    if a is Some { a } else { b }
}

pub open spec fn opt_text(o: Option<String>) -> Option<Seq<char>> {
    match o {
        Some(s) => Some(s@),
        None => None,
    }
}

/// A string member under one of three keys, else a default.
pub open spec fn text_or(v: JsonValue, keys: Seq<Seq<char>>, default: Seq<char>) -> Seq<char>
    decreases keys.len(),
{
    if keys.len() == 0 {
        default
    } else {
        match text_field(v, keys[0]) {
            Some(t) => t,
            None => text_or(v, keys.drop_first(), default),
        }
    }
}

pub open spec fn live_step(v: JsonValue) -> Result<LiveType, Seq<char>> {
    match live_type_of(text_or(v, seq!["liveType"@, "live_type"@], "solo"@)) {
        Some(l) => Ok(l),
        None => Err("live_type 非法"@),
    }
}

pub open spec fn target_step(v: JsonValue) -> Result<ScoreTarget, Seq<char>> {
    match jget(v, "target"@) {
        None => Ok(ScoreTarget::Score),
        Some(x) => match as_text(x) {
            None => Err("target 必须是字符串"@),
            Some(t) => match target_of(t) {
                Some(g) => Ok(g),
                None => Err("target 非法"@),
            },
        },
    }
}

pub open spec fn bonus_list_step(v: JsonValue) -> Result<Seq<i32>, Seq<char>> {
    bounded_list(alias(v, "targetBonusList"@, "target_bonus_list"@), 0, 1000, 32, seq![
        "targetBonusList 与 target_bonus_list 冲突"@,
        "target_bonus_list 必须是数组"@,
        "target_bonus_list 最多支持 32 项"@,
        "target_bonus_list value 必须在 0..=1000 范围内"@,
        "target_bonus_list 不得包含重复值"@,
    ])
}

pub open spec fn custom_ids_step(v: JsonValue) -> Result<Seq<i32>, Seq<char>> {
    bounded_list(alias(v, "customBonusCharacterIds"@, "custom_bonus_character_ids"@), 1, 26, 26, seq![
        "customBonusCharacterIds 与 custom_bonus_character_ids 冲突"@,
        "custom_bonus_character_ids 必须是数组"@,
        "custom_bonus_character_ids 最多支持 26 项"@,
        "custom_bonus_character_ids value 必须在 1..=26 范围内"@,
        "custom_bonus_character_ids 不得包含重复值"@,
    ])
}

/// The event-kind, attribute and group names, checked against their
/// vocabularies.
pub open spec fn vocabulary_issue(v: JsonValue) -> Option<Seq<char>> {
    if text_pair(v, "eventType"@, "event_type"@) matches Some(t) && spec_parse_event_type(t) is None {
        Some("event_type 非法"@)
    } else if text_pair(v, "eventAttr"@, "event_attr"@) matches Some(t) && spec_parse_attr(t) is None {
        Some("event_attr 非法"@)
    } else {
        match text_pair(v, "eventUnit"@, "event_unit"@) {
            Some(t) => if spec_parse_unit(t) is None { Some("event_unit 非法: "@ + t) } else { None },
            None => None,
        }
    }
}

pub open spec fn reference_step(v: JsonValue) -> Result<SkillReferenceStrategy, Seq<char>> {
    match reference_of(text_or(v, seq!["skillReferenceChooseStrategy"@, "skillReferenceStrategy"@], "average"@)) {
        Some(x) => Ok(x),
        None => Err("skill_reference_choose_strategy 非法"@),
    }
}

pub open spec fn skill_order_step(v: JsonValue) -> Result<LiveSkillOrder, Seq<char>> {
    match skill_order_of(text_or(
        v,
        seq!["liveSkillOrder"@, "skillOrderChooseStrategy"@, "skill_order_choose_strategy"@],
        "average"@,
    )) {
        Some(x) => Ok(x),
        None => Err("skill_order_choose_strategy 非法"@),
    }
}

/// The problems of the first members, in the order they are read.
pub open spec fn issue_head(v: JsonValue) -> Option<Seq<char>> {
    first_of(err_of(checked_pair(v, "eventId"@, "event_id"@)),
    first_of(err_of(live_step(v)),
    first_of(err_of(target_step(v)),
    first_of(err_of(limit_step(v)),
    first_of(err_of(member_step(v)),
    first_of(err_of(timeout_step(v)),
    err_of(bonus_list_step(v))))))))
}

pub open spec fn issue_middle(v: JsonValue) -> Option<Seq<char>> {
    first_of(err_of(checked_pair(v, "musicId"@, "music_id"@)),
    first_of(err_of(checked_pair(v, "forcedLeaderCharacterId"@, "forced_leader_character_id"@)),
    first_of(err_of(checked_pair(v, "worldBloomCharacterId"@, "world_bloom_character_id"@)),
    first_of(err_of(checked_pair(v, "worldBloomEventTurn"@, "world_bloom_event_turn"@)),
    first_of(err_of(checked_pair(v, "worldBloomFinaleTurn"@, "world_bloom_finale_turn"@)),
    first_of(err_of(checked_pair(v, "challengeLiveCharacterId"@, "challenge_live_character_id"@)),
    first_of(vocabulary_issue(v),
    first_of(err_of(custom_ids_step(v)),
    first_of(err_of(custom_attr_step(v)),
    err_of(units_step(v)))))))))))
}

pub open spec fn issue_tail(v: JsonValue) -> Option<Seq<char>> {
    first_of(err_of(reference_step(v)),
    first_of(err_of(skill_order_step(v)),
    first_of(err_of(order_step(v)),
    first_of(err_of(checked_pair(v, "multiLiveTeammateScoreUp"@, "multi_teammate_score_up"@)),
    first_of(err_of(checked_pair(v, "multiLiveTeammatePower"@, "multi_teammate_power"@)),
    first_of(err_of(boost_step(v)),
    first_of(err_of(checked_pair(v, "otherScore"@, "other_score"@)),
    err_of(checked_i32(v, "life"@)))))))))
}

/// The first problem of a parameter document, before the parameters'
/// own rules are checked.
pub open spec fn params_json_issue(v: JsonValue) -> Option<Seq<char>> {
    if !(v is Object) {
        Some("参数必须是 JSON 对象"@)
    } else {
        first_of(issue_head(v), first_of(issue_middle(v), issue_tail(v)))
    }
}

/// The parameters a document without problems gives.
pub open spec fn params_from(v: JsonValue, p: BuildParams) -> bool {
    &&& p.region@ == (match text_field(v, "region"@) { Some(t) => t, None => Seq::empty() })
    &&& p.event_id == checked_pair(v, "eventId"@, "event_id"@)->Ok_0
    &&& opt_text(p.event_type) == text_pair(v, "eventType"@, "event_type"@)
    &&& p.live_type == live_step(v)->Ok_0
    &&& p.target == target_step(v)->Ok_0
    &&& p.limit == limit_step(v)->Ok_0
    &&& p.member == member_step(v)->Ok_0
    &&& p.timeout_ms == timeout_step(v)->Ok_0
    &&& p.target_bonus_list@ == bonus_list_step(v)->Ok_0
    &&& p.minimize == flag_pair(v, "minimize"@, "minimize"@)
    &&& p.music_id == checked_pair(v, "musicId"@, "music_id"@)->Ok_0
    &&& opt_text(p.music_diff) == text_pair(v, "musicDiff"@, "music_diff"@)
    &&& p.fixed_cards@ == int_list_pair(v, "fixedCards"@, "fixed_cards"@)
    &&& p.fixed_characters@ == int_list_pair(v, "fixedCharacters"@, "fixed_characters"@)
    &&& p.forced_leader_character_id == checked_pair(v, "forcedLeaderCharacterId"@, "forced_leader_character_id"@)->Ok_0
    &&& p.excluded_cards@ == int_list_pair(v, "excludedCards"@, "excluded_cards"@)
    &&& p.world_bloom_character_id == checked_pair(v, "worldBloomCharacterId"@, "world_bloom_character_id"@)->Ok_0
    &&& p.world_bloom_event_turn == checked_pair(v, "worldBloomEventTurn"@, "world_bloom_event_turn"@)->Ok_0
    &&& p.world_bloom_finale_turn == checked_pair(v, "worldBloomFinaleTurn"@, "world_bloom_finale_turn"@)->Ok_0
    &&& p.challenge_live_character_id == checked_pair(v, "challengeLiveCharacterId"@, "challenge_live_character_id"@)->Ok_0
    &&& opt_text(p.event_unit) == text_pair(v, "eventUnit"@, "event_unit"@)
    &&& opt_text(p.event_attr) == text_pair(v, "eventAttr"@, "event_attr"@)
    &&& p.custom_bonus_character_ids@ == custom_ids_step(v)->Ok_0
    &&& opt_text(p.custom_bonus_attr) == custom_attr_step(v)->Ok_0
    &&& p.custom_bonus_character_support_units@ == units_step(v)->Ok_0
    &&& p.filter_other_unit == flag_pair(v, "filterOtherUnit"@, "filterOtherUnit"@)
    &&& p.support_master_max == flag_pair(v, "supportMasterMax"@, "support_master_max"@)
    &&& p.support_skill_max == flag_pair(v, "supportSkillMax"@, "support_skill_max"@)
    &&& p.keep_after_training_state == flag_pair(v, "keepAfterTrainingState"@, "keepAfterTrainingState"@)
    &&& p.best_skill_as_leader == (match bool_field(v, "bestSkillAsLeader"@) { Some(b) => b, None => true })
    &&& p.skill_reference_strategy == reference_step(v)->Ok_0
    &&& p.live_skill_order == skill_order_step(v)->Ok_0
    &&& (match order_step(v)->Ok_0 {
        Some(vals) => p.specific_skill_order matches Some(o) && o@ == vals,
        None => p.specific_skill_order is None,
    })
    &&& p.multi_teammate_score_up == checked_pair(v, "multiLiveTeammateScoreUp"@, "multi_teammate_score_up"@)->Ok_0
    &&& p.multi_teammate_power == checked_pair(v, "multiLiveTeammatePower"@, "multi_teammate_power"@)->Ok_0
    &&& p.multi_live_score_up_lower_bound_micro == lower_bound_step(v)
    &&& p.boost == boost_step(v)->Ok_0
    &&& p.other_score == checked_pair(v, "otherScore"@, "other_score"@)->Ok_0
    &&& p.life == checked_i32(v, "life"@)->Ok_0
    &&& opt_text(p.unit_filter) == text_pair(v, "unitFilter"@, "unit_filter"@)
    &&& opt_text(p.attr_filter) == text_pair(v, "attrFilter"@, "attr_filter"@)
    &&& p.card_configs.rarity_1_config == rarity_config(v, "rarity1Config"@, "rarity_1_config"@)
    &&& p.card_configs.rarity_2_config == rarity_config(v, "rarity2Config"@, "rarity_2_config"@)
    &&& p.card_configs.rarity_3_config == rarity_config(v, "rarity3Config"@, "rarity_3_config"@)
    &&& p.card_configs.rarity_4_config == rarity_config(v, "rarity4Config"@, "rarity_4_config"@)
    &&& p.card_configs.rarity_birthday_config == rarity_config(v, "rarityBirthdayConfig"@, "rarity_birthday_config"@)
    &&& p.card_configs.single_card_configs@.len() == 0
    &&& p.single_card_configs@ == singles_of(single_items(v))
}

/// What reading a parameter document gives: its first problem, else the
/// parameters it names when they keep the parameters' rules, else the
/// first rule they break.
pub open spec fn params_outcome(v: JsonValue, r: Result<BuildParams, RequestError>) -> bool {
    match params_json_issue(v) {
        Some(m) => r matches Err(RequestError::Invalid(s)) && s@ == m,
        None => match r {
            Ok(p) => params_from(v, p) && param_issue(p) is None,
            Err(RequestError::Invalid(s)) => exists|p: BuildParams| #[trigger] params_from(v, p)
                && (param_issue(p) matches Some(i) && s@ == "构建参数非法: "@ + issue_message(i)),
            Err(RequestError::Syntax) => false,
        },
    }
}

fn text_or2(v: &JsonValue, k1: &str, k2: &str, default: &str) -> (r: String)
    ensures
        r@ == text_or(*v, seq![k1@, k2@], default@),
{
    let ghost keys = seq![k1@, k2@];
    reveal_with_fuel(text_or, 3);
    assert(keys.drop_first() =~= seq![k2@]);
    assert(keys.drop_first().drop_first() =~= Seq::<Seq<char>>::empty());
    match get_string(v, k1) {
        Some(t) => t,
        None => match get_string(v, k2) {
            Some(t) => t,
            None => default.to_owned(),
        },
    }
}

fn text_or3(v: &JsonValue, k1: &str, k2: &str, k3: &str, default: &str) -> (r: String)
    ensures
        r@ == text_or(*v, seq![k1@, k2@, k3@], default@),
{
    let ghost keys = seq![k1@, k2@, k3@];
    reveal_with_fuel(text_or, 4);
    assert(keys.drop_first() =~= seq![k2@, k3@]);
    assert(keys.drop_first().drop_first() =~= seq![k3@]);
    assert(keys.drop_first().drop_first().drop_first() =~= Seq::<Seq<char>>::empty());
    match get_string(v, k1) {
        Some(t) => t,
        None => match get_string(v, k2) {
            Some(t) => t,
            None => match get_string(v, k3) {
                Some(t) => t,
                None => default.to_owned(),
            },
        },
    }
}

fn read_target(v: &JsonValue) -> (r: Result<ScoreTarget, String>)
    ensures
        match target_step(*v) {
            Ok(x) => r == Ok::<ScoreTarget, String>(x),
            Err(m) => r matches Err(s) && s@ == m,
        },
{
    match json_get(v, "target") {
        None => Ok(ScoreTarget::Score),
        Some(JsonValue::Str(t)) => match parse_target(t.as_str()) {
            Some(g) => Ok(g),
            None => Err("target 非法".to_owned()),
        },
        Some(_) => Err("target 必须是字符串".to_owned()),
    }
}

fn check_vocabulary(v: &JsonValue) -> (r: Result<(), String>)
    ensures
        match vocabulary_issue(*v) {
            None => r is Ok,
            Some(m) => r matches Err(s) && s@ == m,
        },
{
    match get_string_pair(v, "eventType", "event_type") {
        Some(t) => if parse_event_type(t.as_str()).is_none() {
            return Err("event_type 非法".to_owned());
        },
        None => {},
    }
    match get_string_pair(v, "eventAttr", "event_attr") {
        Some(t) => if parse_attr_code(t.as_str()).is_none() {
            return Err("event_attr 非法".to_owned());
        },
        None => {},
    }
    match get_string_pair(v, "eventUnit", "event_unit") {
        Some(t) => if parse_unit_code(t.as_str()).is_none() {
            return Err("event_unit 非法: ".to_owned().concat(t.as_str()));
        },
        None => {},
    }
    Ok(())
}

/// Reads the build parameters from a parsed document: camelCase keys with
/// snake_case aliases, range and vocabulary checks, the specific skill
/// order as a list or as comma-separated text, and then the parameters'
/// own rules.
#[verifier::rlimit(80)]
#[verifier::spinoff_prover]
pub fn build_params_from_json(v: &JsonValue) -> (r: Result<BuildParams, RequestError>)
    ensures
        params_outcome(*v, r),
{
    let is_object = match v {
        JsonValue::Object(_) => true,
        _ => false,
    };
    if !is_object {
        return Err(RequestError::Invalid("参数必须是 JSON 对象".to_owned()));
    }
    let region = match get_string(v, "region") {
        Some(t) => t,
        None => String::new(),
    };
    let event_id = match get_checked_pair(v, "eventId", "event_id") {
        Ok(x) => x,
        Err(m) => return Err(RequestError::Invalid(m)),
    };
    let event_type = get_string_pair(v, "eventType", "event_type");
    let live_text = text_or2(v, "liveType", "live_type", "solo");
    let live_type = match parse_live_type(live_text.as_str()) {
        Some(l) => l,
        None => return Err(RequestError::Invalid("live_type 非法".to_owned())),
    };
    let target = match read_target(v) {
        Ok(x) => x,
        Err(m) => return Err(RequestError::Invalid(m)),
    };
    let limit = match read_limit(v) {
        Ok(x) => x,
        Err(m) => return Err(RequestError::Invalid(m)),
    };
    let member = match read_member(v) {
        Ok(x) => x,
        Err(m) => return Err(RequestError::Invalid(m)),
    };
    let timeout_ms = match read_timeout(v) {
        Ok(x) => x,
        Err(m) => return Err(RequestError::Invalid(m)),
    };
    let target_bonus_list = match read_bounded_list(
        get_alias(v, "targetBonusList", "target_bonus_list"),
        0,
        1000,
        32,
        "targetBonusList 与 target_bonus_list 冲突",
        "target_bonus_list 必须是数组",
        "target_bonus_list 最多支持 32 项",
        "target_bonus_list value 必须在 0..=1000 范围内",
        "target_bonus_list 不得包含重复值",
    ) {
        Ok(x) => x,
        Err(m) => return Err(RequestError::Invalid(m)),
    };
    assert(issue_head(*v) is None);
    let minimize = get_flag_pair(v, "minimize", "minimize");
    let music_id = match get_checked_pair(v, "musicId", "music_id") {
        Ok(x) => x,
        Err(m) => return Err(RequestError::Invalid(m)),
    };
    let music_diff = get_string_pair(v, "musicDiff", "music_diff");
    let fixed_cards = read_int_list_pair(v, "fixedCards", "fixed_cards");
    let fixed_characters = read_int_list_pair(v, "fixedCharacters", "fixed_characters");
    let forced_leader_character_id = match get_checked_pair(v, "forcedLeaderCharacterId", "forced_leader_character_id") {
        Ok(x) => x,
        Err(m) => return Err(RequestError::Invalid(m)),
    };
    let excluded_cards = read_int_list_pair(v, "excludedCards", "excluded_cards");
    let world_bloom_character_id = match get_checked_pair(v, "worldBloomCharacterId", "world_bloom_character_id") {
        Ok(x) => x,
        Err(m) => return Err(RequestError::Invalid(m)),
    };
    let world_bloom_event_turn = match get_checked_pair(v, "worldBloomEventTurn", "world_bloom_event_turn") {
        Ok(x) => x,
        Err(m) => return Err(RequestError::Invalid(m)),
    };
    let world_bloom_finale_turn = match get_checked_pair(v, "worldBloomFinaleTurn", "world_bloom_finale_turn") {
        Ok(x) => x,
        Err(m) => return Err(RequestError::Invalid(m)),
    };
    let challenge_live_character_id = match get_checked_pair(v, "challengeLiveCharacterId", "challenge_live_character_id") {
        Ok(x) => x,
        Err(m) => return Err(RequestError::Invalid(m)),
    };
    let event_unit = get_string_pair(v, "eventUnit", "event_unit");
    let event_attr = get_string_pair(v, "eventAttr", "event_attr");
    match check_vocabulary(v) {
        Ok(()) => {},
        Err(m) => return Err(RequestError::Invalid(m)),
    }
    let custom_bonus_character_ids = match read_bounded_list(
        get_alias(v, "customBonusCharacterIds", "custom_bonus_character_ids"),
        1,
        26,
        26,
        "customBonusCharacterIds 与 custom_bonus_character_ids 冲突",
        "custom_bonus_character_ids 必须是数组",
        "custom_bonus_character_ids 最多支持 26 项",
        "custom_bonus_character_ids value 必须在 1..=26 范围内",
        "custom_bonus_character_ids 不得包含重复值",
    ) {
        Ok(x) => x,
        Err(m) => return Err(RequestError::Invalid(m)),
    };
    let custom_bonus_attr = match read_custom_attr(v) {
        Ok(x) => x,
        Err(m) => return Err(RequestError::Invalid(m)),
    };
    let custom_bonus_character_support_units = match read_units(v) {
        Ok(x) => x,
        Err(m) => return Err(RequestError::Invalid(m)),
    };
    assert(issue_middle(*v) is None);
    let filter_other_unit = get_flag_pair(v, "filterOtherUnit", "filterOtherUnit");
    let support_master_max = get_flag_pair(v, "supportMasterMax", "support_master_max");
    let support_skill_max = get_flag_pair(v, "supportSkillMax", "support_skill_max");
    let keep_after_training_state = get_flag_pair(v, "keepAfterTrainingState", "keepAfterTrainingState");
    let best_skill_as_leader = match get_bool(v, "bestSkillAsLeader") {
        Some(b) => b,
        None => true,
    };
    let reference_text = text_or2(v, "skillReferenceChooseStrategy", "skillReferenceStrategy", "average");
    let skill_reference_strategy = match parse_reference(reference_text.as_str()) {
        Some(x) => x,
        None => return Err(RequestError::Invalid("skill_reference_choose_strategy 非法".to_owned())),
    };
    let order_text = text_or3(v, "liveSkillOrder", "skillOrderChooseStrategy", "skill_order_choose_strategy", "average");
    let live_skill_order = match parse_skill_order(order_text.as_str()) {
        Some(x) => x,
        None => return Err(RequestError::Invalid("skill_order_choose_strategy 非法".to_owned())),
    };
    let specific_skill_order = match read_order(v) {
        Ok(x) => x,
        Err(m) => return Err(RequestError::Invalid(m)),
    };
    let multi_teammate_score_up = match get_checked_pair(v, "multiLiveTeammateScoreUp", "multi_teammate_score_up") {
        Ok(x) => x,
        Err(m) => return Err(RequestError::Invalid(m)),
    };
    let multi_teammate_power = match get_checked_pair(v, "multiLiveTeammatePower", "multi_teammate_power") {
        Ok(x) => x,
        Err(m) => return Err(RequestError::Invalid(m)),
    };
    let multi_live_score_up_lower_bound_micro = read_lower_bound(v);
    let boost = match read_boost(v) {
        Ok(x) => x,
        Err(m) => return Err(RequestError::Invalid(m)),
    };
    let other_score = match get_checked_pair(v, "otherScore", "other_score") {
        Ok(x) => x,
        Err(m) => return Err(RequestError::Invalid(m)),
    };
    let life = match get_checked_i32(v, "life") {
        Ok(x) => x,
        Err(m) => return Err(RequestError::Invalid(m)),
    };
    assert(issue_tail(*v) is None);
    let unit_filter = get_string_pair(v, "unitFilter", "unit_filter");
    let attr_filter = get_string_pair(v, "attrFilter", "attr_filter");
    let card_configs = CardConfigSet {
        rarity_1_config: read_rarity_config(v, "rarity1Config", "rarity_1_config"),
        rarity_2_config: read_rarity_config(v, "rarity2Config", "rarity_2_config"),
        rarity_3_config: read_rarity_config(v, "rarity3Config", "rarity_3_config"),
        rarity_4_config: read_rarity_config(v, "rarity4Config", "rarity_4_config"),
        rarity_birthday_config: read_rarity_config(v, "rarityBirthdayConfig", "rarity_birthday_config"),
        single_card_configs: Vec::new(),
    };
    let single_card_configs = read_singles(v);
    let params = BuildParams {
        region,
        event_id,
        event_type,
        live_type,
        target,
        limit,
        member,
        timeout_ms,
        target_bonus_list,
        minimize,
        music_id,
        music_diff,
        fixed_cards,
        fixed_characters,
        forced_leader_character_id,
        excluded_cards,
        world_bloom_character_id,
        world_bloom_event_turn,
        world_bloom_finale_turn,
        challenge_live_character_id,
        event_unit,
        event_attr,
        custom_bonus_character_ids,
        custom_bonus_attr,
        custom_bonus_character_support_units,
        filter_other_unit,
        support_master_max,
        support_skill_max,
        keep_after_training_state,
        best_skill_as_leader,
        skill_reference_strategy,
        live_skill_order,
        specific_skill_order,
        multi_teammate_score_up,
        multi_teammate_power,
        multi_live_score_up_lower_bound_micro,
        boost,
        other_score,
        life,
        unit_filter,
        attr_filter,
        card_configs,
        single_card_configs,
    };
    assert(params_from(*v, params));
    match validate_build_params(&params) {
        Ok(()) => Ok(params),
        Err(e) => Err(RequestError::Invalid(e.message())),
    }
}

/// Reads the build parameters from a JSON text.
pub fn parse_build_params_json(input: &str) -> (r: Result<BuildParams, RequestError>)
    ensures
        match spec_parse_json(input@) {
            None => r matches Err(RequestError::Syntax),
            Some(v) => params_outcome(v, r),
        },
        r matches Ok(p) ==> param_issue(p) is None,
{
    match parse_json(input) {
        None => Err(RequestError::Syntax),
        Some(v) => build_params_from_json(&v),
    }
}

// ---------------------------------------------------------------------------
// The player data.

pub open spec fn int_or(v: JsonValue, key: Seq<char>, default: i32) -> i32 {
    match i32_field(v, key) {
        Some(n) => n,
        None => default,
    }
}

fn get_i32_or(v: &JsonValue, key: &str, default: i32) -> (r: i32)
    ensures
        r == int_or(*v, key@, default),
{
    match get_i32(v, key) {
        Some(n) => n,
        None => default,
    }
}

/// The episodes a card lists as read.
pub open spec fn episodes_of(items: Seq<JsonValue>) -> Seq<i32>
    decreases items.len(),
{
    if items.len() == 0 {
        Seq::empty()
    } else {
        let rest = episodes_of(items.drop_last());
        let e = items.last();
        if text_field(e, "scenarioStatus"@) == Some("already_read"@) && i32_field(e, "cardEpisodeId"@) is Some {
            rest.push(i32_field(e, "cardEpisodeId"@)->0)
        } else {
            rest
        }
    }
}

fn read_episodes(items: &[JsonValue]) -> (r: Vec<i32>)
    ensures
        r@ == episodes_of(items@),
{
    let mut out: Vec<i32> = Vec::new();
    let mut i: usize = 0;
    while i < items.len()
        invariant
            i <= items@.len(),
            out@ == episodes_of(items@.subrange(0, i as int)),
        decreases items@.len() - i,
    {
        assert(items@.subrange(0, i + 1).drop_last() =~= items@.subrange(0, i as int));
        let e = &items[i];
        let read = match get_string(e, "scenarioStatus") {
            Some(t) => crate::text::str_eq(t.as_str(), "already_read"),
            None => false,
        };
        if read {
            match get_i32(e, "cardEpisodeId") {
                Some(id) => out.push(id),
                None => {},
            }
        }
        i = i + 1;
    }
    assert(items@.subrange(0, i as int) =~= items@);
    out
}

/// One card of the player, when it names its card.
pub open spec fn user_card_of(x: JsonValue) -> Option<UserCardView> {
    match i32_field(x, "cardId"@) {
        None => None,
        Some(id) => Some(UserCardView {
            card_id: id,
            level: int_or(x, "level"@, 1),
            skill_level: int_or(x, "skillLevel"@, 1),
            master_rank: int_or(x, "masterRank"@, 0),
            special_training_status: match text_field(x, "specialTrainingStatus"@) { Some(t) => t, None => "none"@ },
            default_image: match text_field(x, "defaultImage"@) { Some(t) => t, None => "original"@ },
            episodes_read: episodes_of(items_field(x, "episodes"@)),
            is_virtual: false,
            has_canvas_bonus_override: None,
        }),
    }
}

pub open spec fn user_cards_of(items: Seq<JsonValue>) -> Seq<UserCardView>
    decreases items.len(),
{
    if items.len() == 0 {
        Seq::empty()
    } else {
        let rest = user_cards_of(items.drop_last());
        match user_card_of(items.last()) {
            Some(c) => rest.push(c),
            None => rest,
        }
    }
}

fn read_user_cards(items: &[JsonValue]) -> (r: Vec<UserCard>)
    ensures
        r@.map_values(|c: UserCard| c@) == user_cards_of(items@),
{
    let mut out: Vec<UserCard> = Vec::new();
    let mut i: usize = 0;
    while i < items.len()
        invariant
            i <= items@.len(),
            out@.map_values(|c: UserCard| c@) == user_cards_of(items@.subrange(0, i as int)),
        decreases items@.len() - i,
    {
        assert(items@.subrange(0, i + 1).drop_last() =~= items@.subrange(0, i as int));
        let x = &items[i];
        match get_i32(x, "cardId") {
            Some(card_id) => {
                let card = UserCard {
                    card_id,
                    level: get_i32_or(x, "level", 1),
                    skill_level: get_i32_or(x, "skillLevel", 1),
                    master_rank: get_i32_or(x, "masterRank", 0),
                    special_training_status: match get_string(x, "specialTrainingStatus") {
                        Some(t) => t,
                        None => "none".to_owned(),
                    },
                    default_image: match get_string(x, "defaultImage") {
                        Some(t) => t,
                        None => "original".to_owned(),
                    },
                    episodes_read: read_episodes(get_items(x, "episodes")),
                    is_virtual: false,
                    has_canvas_bonus_override: None,
                };
                assert(user_card_of(items@[i as int]) == Some(card@));
                let ghost before = out@;
                out.push(card);
                assert(out@.map_values(|c: UserCard| c@) =~= before.map_values(|c: UserCard| c@).push(card@));
            },
            None => {},
        }
        i = i + 1;
    }
    assert(items@.subrange(0, i as int) =~= items@);
    out
}

/// A list of the player's rows, each read by `f` when it has its key.
pub open spec fn rows_of<T>(items: Seq<JsonValue>, f: spec_fn(JsonValue) -> Option<T>) -> Seq<T>
    decreases items.len(),
{
    if items.len() == 0 {
        Seq::empty()
    } else {
        let rest = rows_of(items.drop_last(), f);
        match f(items.last()) {
            Some(c) => rest.push(c),
            None => rest,
        }
    }
}

pub open spec fn character_of(x: JsonValue) -> Option<UserCharacter> {
    match i32_field(x, "characterId"@) {
        Some(id) => Some(UserCharacter { character_id: id, character_rank: int_or(x, "characterRank"@, 0) }),
        None => None,
    }
}

pub open spec fn area_item_of(x: JsonValue) -> Option<UserAreaItem> {
    match i32_field(x, "areaItemId"@) {
        Some(id) => Some(UserAreaItem { area_item_id: id, level: int_or(x, "level"@, 0) }),
        None => None,
    }
}

pub open spec fn honor_of(x: JsonValue) -> Option<UserHonor> {
    match i32_field(x, "honorId"@) {
        Some(id) => Some(UserHonor { honor_id: id, level: int_or(x, "level"@, 1) }),
        None => None,
    }
}

pub open spec fn fixture_of(x: JsonValue) -> Option<UserFixtureBonus> {
    match i32_field(x, "gameCharacterId"@) {
        Some(id) => Some(UserFixtureBonus {
            character_id: id,
            event_id: i32_field(x, "eventId"@),
            total_bonus_rate: int_or(x, "totalBonusRate"@, 0),
        }),
        None => None,
    }
}

/// A gate row: its gate and level.
pub open spec fn gate_of(x: JsonValue) -> Option<(i32, i32)> {
    match i32_field(x, "mysekaiGateId"@) {
        Some(id) => Some((id, int_or(x, "mysekaiGateLevel"@, 0))),
        None => None,
    }
}

pub open spec fn canvas_of(x: JsonValue) -> Option<i32> {
    i32_field(x, "cardId"@)
}

/// The area items of every area, area by area.
pub open spec fn area_items_of(areas: Seq<JsonValue>) -> Seq<UserAreaItem>
    decreases areas.len(),
{
    if areas.len() == 0 {
        Seq::empty()
    } else {
        area_items_of(areas.drop_last()) + rows_of(items_field(areas.last(), "areaItems"@), |x: JsonValue| area_item_of(x))
    }
}

fn read_characters(items: &[JsonValue]) -> (r: Vec<UserCharacter>)
    ensures
        r@ == rows_of(items@, |x: JsonValue| character_of(x)),
{
    let mut out: Vec<UserCharacter> = Vec::new();
    let mut i: usize = 0;
    while i < items.len()
        invariant
            i <= items@.len(),
            out@ == rows_of(items@.subrange(0, i as int), |x: JsonValue| character_of(x)),
        decreases items@.len() - i,
    {
        assert(items@.subrange(0, i + 1).drop_last() =~= items@.subrange(0, i as int));
        let x = &items[i];
        match get_i32(x, "characterId") {
            Some(id) => out.push(UserCharacter { character_id: id, character_rank: get_i32_or(x, "characterRank", 0) }),
            None => {},
        }
        i = i + 1;
    }
    assert(items@.subrange(0, i as int) =~= items@);
    out
}

fn read_area_items(items: &[JsonValue]) -> (r: Vec<UserAreaItem>)
    ensures
        r@ == rows_of(items@, |x: JsonValue| area_item_of(x)),
{
    let mut out: Vec<UserAreaItem> = Vec::new();
    let mut i: usize = 0;
    while i < items.len()
        invariant
            i <= items@.len(),
            out@ == rows_of(items@.subrange(0, i as int), |x: JsonValue| area_item_of(x)),
        decreases items@.len() - i,
    {
        assert(items@.subrange(0, i + 1).drop_last() =~= items@.subrange(0, i as int));
        let x = &items[i];
        match get_i32(x, "areaItemId") {
            Some(id) => out.push(UserAreaItem { area_item_id: id, level: get_i32_or(x, "level", 0) }),
            None => {},
        }
        i = i + 1;
    }
    assert(items@.subrange(0, i as int) =~= items@);
    out
}

fn read_all_area_items(areas: &[JsonValue]) -> (r: Vec<UserAreaItem>)
    ensures
        r@ == area_items_of(areas@),
{
    let mut out: Vec<UserAreaItem> = Vec::new();
    let mut i: usize = 0;
    while i < areas.len()
        invariant
            i <= areas@.len(),
            out@ == area_items_of(areas@.subrange(0, i as int)),
        decreases areas@.len() - i,
    {
        assert(areas@.subrange(0, i + 1).drop_last() =~= areas@.subrange(0, i as int));
        let mut more = read_area_items(get_items(&areas[i], "areaItems"));
        out.append(&mut more);
        i = i + 1;
    }
    assert(areas@.subrange(0, i as int) =~= areas@);
    out
}

fn read_honors(items: &[JsonValue]) -> (r: Vec<UserHonor>)
    ensures
        r@ == rows_of(items@, |x: JsonValue| honor_of(x)),
{
    let mut out: Vec<UserHonor> = Vec::new();
    let mut i: usize = 0;
    while i < items.len()
        invariant
            i <= items@.len(),
            out@ == rows_of(items@.subrange(0, i as int), |x: JsonValue| honor_of(x)),
        decreases items@.len() - i,
    {
        assert(items@.subrange(0, i + 1).drop_last() =~= items@.subrange(0, i as int));
        let x = &items[i];
        match get_i32(x, "honorId") {
            Some(id) => out.push(UserHonor { honor_id: id, level: get_i32_or(x, "level", 1) }),
            None => {},
        }
        i = i + 1;
    }
    assert(items@.subrange(0, i as int) =~= items@);
    out
}

fn read_fixtures(items: &[JsonValue]) -> (r: Vec<UserFixtureBonus>)
    ensures
        r@ == rows_of(items@, |x: JsonValue| fixture_of(x)),
{
    let mut out: Vec<UserFixtureBonus> = Vec::new();
    let mut i: usize = 0;
    while i < items.len()
        invariant
            i <= items@.len(),
            out@ == rows_of(items@.subrange(0, i as int), |x: JsonValue| fixture_of(x)),
        decreases items@.len() - i,
    {
        assert(items@.subrange(0, i + 1).drop_last() =~= items@.subrange(0, i as int));
        let x = &items[i];
        match get_i32(x, "gameCharacterId") {
            Some(id) => out.push(UserFixtureBonus {
                character_id: id,
                event_id: get_i32(x, "eventId"),
                total_bonus_rate: get_i32_or(x, "totalBonusRate", 0),
            }),
            None => {},
        }
        i = i + 1;
    }
    assert(items@.subrange(0, i as int) =~= items@);
    out
}

/// Gate rows: each names its gate and level, with an empty group and a
/// zero direct rate.
pub open spec fn gates_match(r: Seq<UserGateBonus>, g: Seq<(i32, i32)>) -> bool {
    &&& r.len() == g.len()
    &&& forall|k: int| 0 <= k < r.len() ==> (#[trigger] r[k]).mysekai_gate_id == Some(g[k].0)
        && r[k].mysekai_gate_level == Some(g[k].1) && r[k].unit@.len() == 0 && r[k].bonus_rate_x100 == 0
}

fn read_gates(items: &[JsonValue]) -> (r: Vec<UserGateBonus>)
    ensures
        gates_match(r@, rows_of(items@, |x: JsonValue| gate_of(x))),
{
    let mut out: Vec<UserGateBonus> = Vec::new();
    let mut i: usize = 0;
    while i < items.len()
        invariant
            i <= items@.len(),
            gates_match(out@, rows_of(items@.subrange(0, i as int), |x: JsonValue| gate_of(x))),
        decreases items@.len() - i,
    {
        assert(items@.subrange(0, i + 1).drop_last() =~= items@.subrange(0, i as int));
        let x = &items[i];
        match get_i32(x, "mysekaiGateId") {
            Some(id) => {
                let level = get_i32_or(x, "mysekaiGateLevel", 0);
                out.push(UserGateBonus {
                    mysekai_gate_id: Some(id),
                    mysekai_gate_level: Some(level),
                    unit: String::new(),
                    bonus_rate_x100: 0,
                });
            },
            None => {},
        }
        i = i + 1;
    }
    assert(items@.subrange(0, i as int) =~= items@);
    out
}

fn read_canvases(items: &[JsonValue]) -> (r: Vec<i32>)
    ensures
        r@ == rows_of(items@, |x: JsonValue| canvas_of(x)),
{
    let mut out: Vec<i32> = Vec::new();
    let mut i: usize = 0;
    while i < items.len()
        invariant
            i <= items@.len(),
            out@ == rows_of(items@.subrange(0, i as int), |x: JsonValue| canvas_of(x)),
        decreases items@.len() - i,
    {
        assert(items@.subrange(0, i + 1).drop_last() =~= items@.subrange(0, i as int));
        match get_i32(&items[i], "cardId") {
            Some(id) => out.push(id),
            None => {},
        }
        i = i + 1;
    }
    assert(items@.subrange(0, i as int) =~= items@);
    out
}

/// The player data a parsed document gives: each list read row by row,
/// rows without their key skipped, missing values defaulted.
pub open spec fn profile_from(v: JsonValue, p: UserProfile) -> bool {
    &&& p.user_cards@.map_values(|c: UserCard| c@) == user_cards_of(items_field(v, "userCards"@))
    &&& p.user_characters@ == rows_of(items_field(v, "userCharacters"@), |x: JsonValue| character_of(x))
    &&& p.user_area_items@ == area_items_of(items_field(v, "userAreas"@))
    &&& p.user_honors@ == rows_of(items_field(v, "userHonors"@), |x: JsonValue| honor_of(x))
    &&& p.user_mysekai_fixture_bonuses@ == rows_of(
        items_field(v, "userMysekaiFixtureGameCharacterPerformanceBonuses"@),
        |x: JsonValue| fixture_of(x),
    )
    &&& gates_match(p.user_mysekai_gate_bonuses@, rows_of(items_field(v, "userMysekaiGates"@), |x: JsonValue| gate_of(x)))
    &&& p.user_mysekai_canvas_bonus_cards@ == rows_of(items_field(v, "userMysekaiCanvases"@), |x: JsonValue| canvas_of(x))
}

/// Reads the player data from a parsed document.
pub fn user_profile_from_json(v: &JsonValue) -> (r: UserProfile)
    ensures
        profile_from(*v, r),
{
    UserProfile {
        user_cards: read_user_cards(get_items(v, "userCards")),
        user_characters: read_characters(get_items(v, "userCharacters")),
        user_area_items: read_all_area_items(get_items(v, "userAreas")),
        user_honors: read_honors(get_items(v, "userHonors")),
        user_mysekai_fixture_bonuses: read_fixtures(get_items(v, "userMysekaiFixtureGameCharacterPerformanceBonuses")),
        user_mysekai_gate_bonuses: read_gates(get_items(v, "userMysekaiGates")),
        user_mysekai_canvas_bonus_cards: read_canvases(get_items(v, "userMysekaiCanvases")),
    }
}

/// Reads the player data from a JSON text.
pub fn parse_user_profile_json(input: &str) -> (r: Result<UserProfile, RequestError>)
    ensures
        match spec_parse_json(input@) {
            None => r matches Err(RequestError::Syntax),
            Some(v) => r matches Ok(p) && profile_from(v, p),
        },
{
    match parse_json(input) {
        None => Err(RequestError::Syntax),
        Some(v) => Ok(user_profile_from_json(&v)),
    }
}

} // verus!
