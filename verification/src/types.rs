//! Core vocabulary shared by the pool builder: units, attributes, live and
//! event kinds, and the fixed sizes of a deck.

use vstd::prelude::*;

verus! {

/// Number of cards in a deck.
pub const DECK_SIZE: usize = 5;

/// Event id of the World Bloom final chapter.
pub const FINAL_CHAPTER_EVENT_ID: i32 = 180;

/// Largest number of decks a request may ask for.
pub const MAX_BUILD_LIMIT: usize = 100;

/// Largest search timeout a request may ask for, in milliseconds.
pub const MAX_BUILD_TIMEOUT_MS: u64 = 300000;

/// Largest number of exact bonus targets in one request.
pub const MAX_TARGET_BONUS_BUCKETS: usize = 32;

/// Largest exact bonus target, in percent.
pub const MAX_TARGET_BONUS: i32 = 1000;

/// Number of candidate slots of a pool (the width of its card bitmaps).
pub const POOL_CAPACITY: usize = 512;

/// Highest game character id.
pub const MAX_CHARACTER_ID: i32 = 26;

/// Group (unit) of a card. The six real groups have a pool index; the other
/// variants are markers used by skill and bonus tables.
#[derive(Clone, Copy, Debug, PartialEq, Eq, Structural)]
pub enum Unit {
    Unset,
    LightSound,
    Idol,
    Street,
    Themepark,
    SchoolRefusal,
    Piapro,
    Any,
    Ref,
    Diff,
}

/// Card attribute.
#[derive(Clone, Copy, Debug, PartialEq, Eq, Structural)]
pub enum Attr {
    Cute,
    Cool,
    Pure,
    Happy,
    Mysterious,
}

/// Kind of event.
#[derive(Clone, Copy, Debug, PartialEq, Eq, Structural)]
pub enum EventType {
    Marathon,
    CheerfulCarnival,
    WorldBloom,
}

/// Kind of live show.
#[derive(Clone, Copy, Debug, PartialEq, Eq, Structural)]
pub enum LiveType {
    Solo,
    Auto,
    Multi,
    Cheerful,
    Challenge,
    ChallengeAuto,
    Mysekai,
}

/// What the deck search optimises.
#[derive(Clone, Copy, Debug, PartialEq, Eq, Structural)]
pub enum ScoreTarget {
    Score,
    Power,
    Skill,
    Bonus,
    Mysekai,
}

/// Card art state.
#[derive(Clone, Copy, Debug, PartialEq, Eq, Structural)]
pub enum DefaultImage {
    Original,
    SpecialTraining,
}

/// How a reference ("absorb") skill picks the teammate it copies.
#[derive(Clone, Copy, Debug, PartialEq, Eq, Structural)]
pub enum SkillReferenceStrategy {
    Max,
    Min,
    Average,
}

/// Order in which the deck's skills fire during a live.
#[derive(Clone, Copy, Debug, PartialEq, Eq, Structural)]
pub enum LiveSkillOrder {
    Best,
    Worst,
    Average,
    Specific,
}

/// A custom-event rule: the support group a virtual singer must carry.
#[derive(Clone, Copy, Debug, PartialEq, Eq, Structural)]
pub struct CustomSupportUnit {
    pub character_id: i32,
    pub unit: Unit,
}

/// Pool index (0..6) of a real group, as a spec value.
pub open spec fn spec_unit_pool_index(unit: Unit) -> Option<u8> {
    match unit {
        Unit::LightSound => Some(0u8),
        Unit::Idol => Some(1u8),
        Unit::Street => Some(2u8),
        Unit::Themepark => Some(3u8),
        Unit::SchoolRefusal => Some(4u8),
        Unit::Piapro => Some(5u8),
        _ => None,
    }
}

/// Pool index of a real group; `None` for the marker variants.
pub fn unit_to_pool_index(unit: Unit) -> (r: Option<u8>)
    ensures
        r == spec_unit_pool_index(unit),
        r matches Some(i) ==> i < 6,
{
    match unit {
        Unit::LightSound => Some(0),
        Unit::Idol => Some(1),
        Unit::Street => Some(2),
        Unit::Themepark => Some(3),
        Unit::SchoolRefusal => Some(4),
        Unit::Piapro => Some(5),
        _ => None,
    }
}

/// Pool index (0..5) of an attribute, as a spec value.
pub open spec fn spec_attr_pool_index(attr: Attr) -> u8 {
    match attr {
        Attr::Cute => 0u8,
        Attr::Cool => 1u8,
        Attr::Pure => 2u8,
        Attr::Happy => 3u8,
        Attr::Mysterious => 4u8,
    }
}

/// Pool index of an attribute.
pub fn attr_to_pool_index(attr: Attr) -> (r: Option<u8>)
    ensures
        r == Some(spec_attr_pool_index(attr)),
{
    match attr {
        Attr::Cute => Some(0),
        Attr::Cool => Some(1),
        Attr::Pure => Some(2),
        Attr::Happy => Some(3),
        Attr::Mysterious => Some(4),
    }
}

/// Bit of the virtual-singer group in a unit mask.
pub open spec fn piapro_mask() -> u8 {
    32u8
}

/// Whether an event id is a World Bloom final chapter.
pub open spec fn spec_is_finale_event(event_id: i32) -> bool {
    event_id == FINAL_CHAPTER_EVENT_ID
}

/// Whether an event id is a World Bloom final chapter.
pub fn is_world_bloom_finale_event(event_id: i32) -> (r: bool)
    ensures
        r == spec_is_finale_event(event_id),
{
    event_id == FINAL_CHAPTER_EVENT_ID
}

/// Whether a live type is a challenge live.
pub open spec fn spec_is_challenge(live_type: LiveType) -> bool {
    live_type == LiveType::Challenge || live_type == LiveType::ChallengeAuto
}

/// Whether a live type is a challenge live.
pub fn is_challenge(live_type: LiveType) -> (r: bool)
    ensures
        r == spec_is_challenge(live_type),
{
    match live_type {
        LiveType::Challenge | LiveType::ChallengeAuto => true,
        _ => false,
    }
}

/// Whether a target ranks cards by power or skill alone.
pub open spec fn spec_is_power_or_skill(target: ScoreTarget) -> bool {
    target == ScoreTarget::Power || target == ScoreTarget::Skill
}

/// Whether a target ranks cards by power or skill alone.
pub fn is_power_or_skill(target: ScoreTarget) -> (r: bool)
    ensures
        r == spec_is_power_or_skill(target),
{
    match target {
        ScoreTarget::Power | ScoreTarget::Skill => true,
        _ => false,
    }
}

/// Whether a group is one of the six real groups.
pub open spec fn spec_is_real_unit(unit: Unit) -> bool {
    spec_unit_pool_index(unit) is Some
}

/// Whether a list of integers holds a value.
pub fn contains_i32(v: &[i32], x: i32) -> (r: bool)
    ensures
        r == v@.contains(x),
{
    let mut i: usize = 0;
    while i < v.len()
        invariant
            i <= v@.len(),
            forall|k: int| 0 <= k < i ==> v@[k] != x,
        decreases v@.len() - i,
    {
        if v[i] == x {
            assert(v@[i as int] == x);
            return true;
        }
        i = i + 1;
    }
    false
}

} // verus!
