//! The pool-build pipeline: per-player preparation of every owned card
//! (event bonus, skill states, power), then the candidate pool and the
//! search context of one request.

use vstd::prelude::*;
use crate::card_config::{
    add_fixed, apply_card_config, card_views, config_clamps_ok, config_for_rarity, configs_are_noop, copy_user_cards,
    resolve_single_config,
    find_single, merged_configs, normalize_user_cards, spec_apply_config, spec_card_config,
    spec_config_for_rarity, spec_enrich,
};
use crate::data::{
    noop_config, BuildParams, CardRarityConfig, EventCard, EventFixtureBonusLimit, EventHonorBonus,
    GameData, Honor, MasterCard, MasterCardView, UserCard, UserCardView, UserHonor, UserProfile,
};
use crate::event_bonus::{build_card_event_bonus, spec_card_event_bonus, EventBonusExact, EventContext};
use crate::index::{
    card_data_matches, first_card_pos, honor_bonus, indexes_wf, primary_unit_of, spec_honor_bonus,
    spec_unit_mask, support_unit_of, support_unrestricted, CardData, PoolIndexes,
};
use crate::text::{default_image_kind, is_after_training, spec_default_image_kind, spec_is_after_training, spec_parse_attr};
use crate::filter::{
    ep_prefilter_keep, ep_prefilter_keep_with_params, event_unit_filter, keep_card, prepared_keep_card, spec_keep_card,
    spec_ep_prefilter_keep, spec_ep_prefilter_keep_with_params, spec_event_unit_filter,
    spec_prepared_keep_card, EP_PREFILTER_MIN_POOL, first_per_bucket_drops, general_keys, general_per_character_trim,
    in_order, pc_drops, per_character_trim, target_keys, target_per_character_trim, CHALLENGE_ALL_PER_CHAR_KEEP,
    FINAL_CHAPTER_PER_CHAR_KEEP, GENERAL_PER_CHAR_KEEP, GENERAL_TRIM_THRESHOLD, PER_CHAR_KEEP,
};
use crate::order::{is_order, sorted_by_keys};
use crate::order::{drop_marked, keep_unmarked};
use crate::error::BuildError;
use crate::filter::{collapse_non_bfes_skill_states, skill_states_for_card, spec_is_bfes_pair, spec_skill_states};
use crate::pool::{CardIntermediate, GatheredContext, PowerResult, SearchContext, SkillResult, SkillState, SupportDeck};
use crate::gather::{full_of, gather_keys, gathered_of, pool_of, sort_and_gather};
use crate::filter::{fixed_issue, fixed_issue_error, leader_needs_slot, validate_fixed_constraints};
use crate::pool::{CardPool, FullPrecisionCard};
use crate::support::{build_final_chapter_support_decks, build_support_deck, deck_matches, finale_ctx};
use crate::filter::{normalize_boost_rate_pct, spec_boost_rate_pct};
use crate::support::{spec_seed, support_seed_from_intermediate, SupportSeed};
use crate::power::{build_power, power_context_wf, power_ok, spec_character_rank, PreparedPowerContext};
use crate::skill::{build_skill, spec_build_skill};
use crate::event_bonus::{build_event_context, spec_build_event_type, world_bloom_without_turn};
use crate::music::{build_music_params, event_rate_for, spec_music, MusicParams};
use crate::validate::{issue_message, param_issue, validate_build_params, ParamIssue};
use crate::types::{
    is_challenge, is_power_or_skill, is_world_bloom_finale_event, spec_attr_pool_index, spec_is_challenge, spec_is_finale_event, POOL_CAPACITY,
    spec_is_power_or_skill, DefaultImage, EventType, LiveType, ScoreTarget, Unit, FINAL_CHAPTER_EVENT_ID,
};

verus! {

// ---------------------------------------------------------------------------
// Prepared masterdata.

/// Masterdata indexes, built once per masterdata snapshot and reused across
/// players and requests.
pub struct PreparedGameIndexes {
    pub indexes: PoolIndexes,
}

impl PreparedGameIndexes {
    /// Prepares every masterdata card of a snapshot.
    pub fn new(game: &GameData<'_>) -> (r: Self)
        ensures
            indexes_wf(r.indexes, *game),
    {
        PreparedGameIndexes { indexes: PoolIndexes::build(game) }
    }
}

/// A masterdata snapshot bound to its indexes.
pub struct PreparedGameData<'a> {
    pub game: GameData<'a>,
    pub indexes: PoolIndexes,
}

fn copy_card_data(d: &CardData) -> (r: CardData)
    ensures
        r.master@ == d.master@,
        r.unit_mask == d.unit_mask,
        r.attr == d.attr,
        r.primary_unit == d.primary_unit,
        r.support_unit == d.support_unit,
        r.support_unit_unrestricted == d.support_unit_unrestricted,
{
    CardData {
        master: d.master.copy(),
        unit_mask: d.unit_mask,
        attr: d.attr,
        primary_unit: d.primary_unit,
        support_unit: d.support_unit,
        support_unit_unrestricted: d.support_unit_unrestricted,
    }
}

fn copy_indexes(idx: &PoolIndexes, game: &GameData<'_>) -> (r: PoolIndexes)
    requires
        indexes_wf(*idx, *game),
    ensures
        indexes_wf(r, *game),
{
    let mut cards: Vec<CardData> = Vec::new();
    let mut i: usize = 0;
    while i < idx.cards.len()
        invariant
            i <= idx.cards@.len(),
            indexes_wf(*idx, *game),
            cards@.len() == i,
            forall|k: int| 0 <= k < i ==> #[trigger] crate::index::card_data_matches(cards@[k], game.cards@[k], *game),
        decreases idx.cards@.len() - i,
    {
        assert(crate::index::card_data_matches(idx.cards@[i as int], game.cards@[i as int], *game));
        cards.push(copy_card_data(&idx.cards[i]));
        i = i + 1;
    }
    PoolIndexes { cards }
}

impl<'a> PreparedGameData<'a> {
    /// Builds the indexes of a snapshot and binds them to it.
    pub fn new(game: GameData<'a>) -> (r: Self)
        ensures
            r.game == game,
            indexes_wf(r.indexes, game),
    {
        let indexes = PreparedGameIndexes::new(&game);
        Self::with_indexes(game, &indexes)
    }

    /// Binds a snapshot to indexes built for it.
    pub fn with_indexes(game: GameData<'a>, indexes: &PreparedGameIndexes) -> (r: Self)
        requires
            indexes_wf(indexes.indexes, game),
        ensures
            r.game == game,
            indexes_wf(r.indexes, game),
    {
        let copy = copy_indexes(&indexes.indexes, &game);
        PreparedGameData { game, indexes: copy }
    }

    /// The bound snapshot.
    pub fn game(&self) -> (r: &GameData<'a>)
        ensures
            *r == self.game,
    {
        &self.game
    }
}

// ---------------------------------------------------------------------------
// Request-wide values.

/// Power bonus of the player's titles: the sum over owned titles of the
/// bonus of their level.
pub open spec fn honor_total(owned: Seq<UserHonor>, honors: Seq<Honor>) -> int
    decreases owned.len(),
{
    if owned.len() == 0 {
        0
    } else {
        honor_total(owned.drop_last(), honors) + spec_honor_bonus(honors, owned.last().honor_id, owned.last().level)
    }
}

proof fn lemma_honor_total_prefix(owned: Seq<UserHonor>, honors: Seq<Honor>, i: int)
    requires
        0 <= i <= owned.len(),
    ensures
        honor_total(owned.subrange(0, i), honors) <= honor_total(owned, honors),
    decreases owned.len() - i,
{
    if i < owned.len() {
        lemma_honor_total_prefix(owned, honors, i + 1);
        assert(owned.subrange(0, i + 1).drop_last() =~= owned.subrange(0, i));
    } else {
        assert(owned.subrange(0, i) =~= owned);
    }
}

/// Power bonus of the player's titles.
pub fn compute_honor_bonus(user: &UserProfile, game: &GameData<'_>) -> (r: u32)
    requires
        honor_total(user.user_honors@, game.honors@) <= u32::MAX,
    ensures
        r == honor_total(user.user_honors@, game.honors@),
{
    let owned = &user.user_honors;
    let mut total: u32 = 0;
    let mut i: usize = 0;
    while i < owned.len()
        invariant
            i <= owned@.len(),
            honor_total(owned@, game.honors@) <= u32::MAX,
            total == honor_total(owned@.subrange(0, i as int), game.honors@),
        decreases owned@.len() - i,
    {
        proof {
            assert(owned@.subrange(0, i + 1).drop_last() =~= owned@.subrange(0, i as int));
            lemma_honor_total_prefix(owned@, game.honors@, i + 1);
        }
        let b = honor_bonus(game.honors, owned[i].honor_id, owned[i].level);
        total = total + b;
        i = i + 1;
    }
    assert(owned@.subrange(0, owned@.len() as int) =~= owned@);
    total
}

/// The first fixture-limit row of an event.
pub open spec fn fixture_row(rows: Seq<EventFixtureBonusLimit>, event_id: i32) -> Option<i32>
    decreases rows.len(),
{
    if rows.len() == 0 {
        None
    } else if rows[0].event_id == event_id {
        Some(rows[0].bonus_rate_limit)
    } else {
        fixture_row(rows.drop_first(), event_id)
    }
}

/// Cap on the fixture power bonus of a build: the event's row, else 20 in
/// a World Bloom finale; none without an event.
pub open spec fn spec_fixture_limit(game: GameData<'_>, ctx: Option<EventContext>) -> Option<i32> {
    match ctx {
        None => None,
        Some(c) => match fixture_row(game.event_mysekai_fixture_performance_bonus_limits@, c.event_id) {
            Some(l) => Some(l),
            None => if spec_is_finale_event(c.event_id) { Some(20) } else { None },
        },
    }
}

/// Cap on the fixture power bonus of a build.
#[verifier::loop_isolation(false)]
pub fn resolve_fixture_bonus_limit(game: &GameData<'_>, event_ctx: &Option<EventContext>) -> (r: Option<i32>)
    ensures
        r == spec_fixture_limit(*game, *event_ctx),
{
    let event_id = match event_ctx {
        Some(c) => c.event_id,
        None => return None,
    };
    let rows = game.event_mysekai_fixture_performance_bonus_limits;
    let mut i: usize = 0;
    assert(rows@.subrange(0, rows@.len() as int) =~= rows@);
    while i < rows.len()
        invariant
            i <= rows@.len(),
            fixture_row(rows@, event_id) == fixture_row(rows@.subrange(i as int, rows@.len() as int), event_id),
        decreases rows@.len() - i,
    {
        assert(rows@.subrange(i as int, rows@.len() as int)[0] == rows@[i as int]);
        assert(rows@.subrange(i as int, rows@.len() as int).drop_first() =~= rows@.subrange(i + 1, rows@.len() as int));
        if rows[i].event_id == event_id {
            return Some(rows[i].bonus_rate_limit);
        }
        i = i + 1;
    }
    if is_world_bloom_finale_event(event_id) {
        Some(20)
    } else {
        None
    }
}


// ---------------------------------------------------------------------------
// Cards entering the build.

/// The preset of a card under a request: its first per-card override (the
/// preset set's, then the request's), else its rarity preset.
pub open spec fn request_card_config(p: BuildParams, card_id: i32, rarity: i32) -> CardRarityConfig {
    match find_single(p.card_configs.single_card_configs@ + p.single_card_configs@, card_id) {
        Some(c) => c,
        None => spec_config_for_rarity(p.card_configs, rarity),
    }
}

/// Whether a request's presets change nothing.
pub open spec fn request_noop(p: BuildParams) -> bool {
    &&& p.card_configs.rarity_1_config == noop_config()
    &&& p.card_configs.rarity_2_config == noop_config()
    &&& p.card_configs.rarity_3_config == noop_config()
    &&& p.card_configs.rarity_4_config == noop_config()
    &&& p.card_configs.rarity_birthday_config == noop_config()
    &&& p.card_configs.single_card_configs@.len() + p.single_card_configs@.len() == 0
}

/// The player's cards plus a stand-in for each fixed card not owned.
pub open spec fn cards_in(user: UserProfile, params: BuildParams, game: GameData<'_>) -> Seq<UserCardView> {
    add_fixed(card_views(user.user_cards@), params.fixed_cards@, game.cards@)
}

/// A masterdata card with its missing caps filled in.
pub open spec fn enriched_at(game: GameData<'_>, k: int) -> MasterCardView {
    spec_enrich(game.cards@[k]@, game.card_rarities@, game.master_lessons@)
}

/// Groups a masterdata card can play for.
pub open spec fn mask_at(game: GameData<'_>, k: int) -> u8 {
    spec_unit_mask(
        primary_unit_of(game.game_character_units@, game.cards@[k].character_id),
        support_unit_of(game.cards@[k]),
    )
}

/// Pool index of a masterdata card's attribute, when it parses.
pub open spec fn attr_at(game: GameData<'_>, k: int) -> Option<u8> {
    match spec_parse_attr(game.cards@[k].attr@) {
        Some(a) => Some(spec_attr_pool_index(a)),
        None => None,
    }
}

/// Whether every preset that the build applies has well-defined clamps.
pub open spec fn build_defined(cards: Seq<UserCardView>, game: GameData<'_>, p: BuildParams) -> bool {
    forall|i: int|
        0 <= i < cards.len() ==> match first_card_pos(game.cards@, (#[trigger] cards[i]).card_id) {
            None => true,
            Some(k) => config_clamps_ok(
                enriched_at(game, k),
                request_card_config(p, game.cards@[k].id, game.cards@[k].card_rarity_type),
            ),
        }
}

/// The cards the build prepares, in order, with their masterdata position:
/// cards without a masterdata row, disabled by their preset, in no group or
/// of an unknown attribute are dropped; the others are cultivated by their
/// preset (left as they are when the request has none).
pub open spec fn candidates(cards: Seq<UserCardView>, game: GameData<'_>, p: BuildParams) -> Seq<(UserCardView, int)>
    decreases cards.len(),
{
    if cards.len() == 0 {
        Seq::empty()
    } else {
        let rest = candidates(cards.drop_last(), game, p);
        let u = cards.last();
        match first_card_pos(game.cards@, u.card_id) {
            None => rest,
            Some(k) => {
                let em = enriched_at(game, k);
                let c = request_card_config(p, game.cards@[k].id, game.cards@[k].card_rarity_type);
                if !request_noop(p) && c.disable {
                    rest
                } else if mask_at(game, k) == 0 || attr_at(game, k) is None {
                    rest
                } else if request_noop(p) {
                    rest.push((u, k))
                } else {
                    rest.push((spec_apply_config(u, em, c, game.card_rarities@, game.card_episodes@), k))
                }
            },
        }
    }
}

// ---------------------------------------------------------------------------
// Per-card event values.

/// The first limited-card row of a card.
pub open spec fn limited_row(rows: Seq<EventCard>, card_id: i32) -> Option<EventCard>
    decreases rows.len(),
{
    if rows.len() == 0 {
        None
    } else if rows[0].card_id == card_id {
        Some(rows[0])
    } else {
        limited_row(rows.drop_first(), card_id)
    }
}

/// Limited bonus of a card (tenths of a percent, saturating).
pub open spec fn limited_x10(rows: Seq<EventCard>, card_id: i32) -> i32 {
    match limited_row(rows, card_id) {
        Some(e) => {
            let v = e.bonus_rate * 10;
            if v > i32::MAX { i32::MAX } else if v < i32::MIN { i32::MIN } else { v as i32 }
        },
        None => 0,
    }
}

/// Leader bonus of a limited card (negatives as 0, kept to 16 bits).
pub open spec fn limited_leader(rows: Seq<EventCard>, card_id: i32) -> u16 {
    match limited_row(rows, card_id) {
        Some(e) => if e.leader_bonus_rate <= 0 { 0 } else { (e.leader_bonus_rate % 65536) as u16 },
        None => 0,
    }
}

/// Whether the player owns a title.
pub open spec fn owns_honor(owned: Seq<UserHonor>, honor_id: i32) -> bool {
    exists|i: int| 0 <= i < owned.len() && (#[trigger] owned[i]).honor_id == honor_id
}

/// Leader bonus of a character from the player's titles: the 16-bit
/// wrapping sum of the (non-negative) rates of the rows naming it whose
/// title the player owns.
pub open spec fn honor_fold(rows: Seq<EventHonorBonus>, owned: Seq<UserHonor>, ch: int) -> int
    decreases rows.len(),
{
    if rows.len() == 0 {
        0
    } else {
        let prev = honor_fold(rows.drop_last(), owned, ch);
        let e = rows.last();
        if e.leader_game_character_id == ch && owns_honor(owned, e.honor_id) {
            (prev + (if e.bonus_rate <= 0 { 0 } else { e.bonus_rate % 65536 })) % 65536
        } else {
            prev
        }
    }
}

/// Title leader bonus of a character in a build: only in a World Bloom
/// finale.
pub open spec fn leader_honor(c: EventContext, owned: Seq<UserHonor>, ch: int) -> u16 {
    if spec_is_finale_event(c.event_id) && 0 <= ch < 27 {
        honor_fold(c.honor_bonuses@, owned, ch) as u16
    } else {
        0
    }
}

/// Art a card is shown with: trained when its art or its training says so.
pub open spec fn shown_image(u: UserCardView) -> DefaultImage {
    if spec_default_image_kind(u.default_image) == DefaultImage::SpecialTraining
        || spec_is_after_training(u.special_training_status) {
        DefaultImage::SpecialTraining
    } else {
        DefaultImage::Original
    }
}

/// A card prepared for the build, before its skills and power.
pub struct CardSeed {
    pub pos: usize,
    pub master: MasterCard,
    pub user_card: UserCard,
    pub unit_mask: u8,
    pub attr: u8,
    pub primary_unit: Option<Unit>,
    pub support_unit: Option<Unit>,
    pub support_unit_unrestricted: bool,
    pub image_kind: DefaultImage,
    pub default_image: DefaultImage,
    pub after_training: bool,
    pub event_bonus: EventBonusExact,
    pub has_char_bonus: bool,
    pub has_attr_bonus: bool,
    pub leader_honor_bonus: u16,
    pub leader_limit_bonus: u16,
}

/// Event values of a seed: its bonus and which event axes it hits.
pub open spec fn seed_bonus(s: CardSeed, ctx: Option<EventContext>) -> (EventBonusExact, bool, bool) {
    match ctx {
        None => (EventBonusExact { base_x10: 0, limited_x10: 0 }, false, false),
        Some(c) => spec_card_event_bonus(
            s.user_card,
            s.master,
            s.attr,
            s.primary_unit,
            s.support_unit,
            s.support_unit_unrestricted,
            limited_x10(c.event_cards@, s.master.id),
            c,
        ),
    }
}

/// The seed of a candidate card.
pub open spec fn seed_ok(s: CardSeed, u: UserCardView, k: int, game: GameData<'_>, user: UserProfile, ctx: Option<EventContext>) -> bool {
    &&& s.pos == k
    &&& s.user_card@ == u
    &&& s.master@ == enriched_at(game, k)
    &&& s.unit_mask == mask_at(game, k)
    &&& attr_at(game, k) == Some(s.attr)
    &&& s.primary_unit == primary_unit_of(game.game_character_units@, game.cards@[k].character_id)
    &&& s.support_unit == support_unit_of(game.cards@[k])
    &&& s.support_unit_unrestricted == support_unrestricted(game.cards@[k])
    &&& s.image_kind == spec_default_image_kind(u.default_image)
    &&& s.after_training == spec_is_after_training(u.special_training_status)
    &&& s.default_image == shown_image(u)
    &&& (s.event_bonus, s.has_char_bonus, s.has_attr_bonus) == seed_bonus(s, ctx)
    &&& s.leader_honor_bonus == (match ctx { Some(c) => leader_honor(c, user.user_honors@, s.master.character_id as int), None => 0 })
    &&& s.leader_limit_bonus == (match ctx { Some(c) => limited_leader(c.event_cards@, s.master.id), None => 0 })
}

/// The seeds of a build, aligned with its candidates.
pub open spec fn seeds_ok(seeds: Seq<CardSeed>, cands: Seq<(UserCardView, int)>, game: GameData<'_>, user: UserProfile, ctx: Option<EventContext>) -> bool {
    &&& seeds.len() == cands.len()
    &&& forall|j: int| 0 <= j < seeds.len() ==> #[trigger] seed_ok(seeds[j], cands[j].0, cands[j].1, game, user, ctx)
}

fn limited_row_exec(rows: &Vec<EventCard>, card_id: i32) -> (r: Option<EventCard>)
    ensures
        r == limited_row(rows@, card_id),
{
    let mut i: usize = 0;
    assert(rows@.subrange(0, rows@.len() as int) =~= rows@);
    while i < rows.len()
        invariant
            i <= rows@.len(),
            limited_row(rows@, card_id) == limited_row(rows@.subrange(i as int, rows@.len() as int), card_id),
        decreases rows@.len() - i,
    {
        assert(rows@.subrange(i as int, rows@.len() as int)[0] == rows@[i as int]);
        assert(rows@.subrange(i as int, rows@.len() as int).drop_first() =~= rows@.subrange(i + 1, rows@.len() as int));
        if rows[i].card_id == card_id {
            return Some(rows[i]);
        }
        i = i + 1;
    }
    None
}

fn owns_honor_exec(owned: &Vec<UserHonor>, honor_id: i32) -> (r: bool)
    ensures
        r == owns_honor(owned@, honor_id),
{
    let mut i: usize = 0;
    while i < owned.len()
        invariant
            i <= owned@.len(),
            forall|k: int| 0 <= k < i ==> owned@[k].honor_id != honor_id,
        decreases owned@.len() - i,
    {
        if owned[i].honor_id == honor_id {
            assert(owned@[i as int].honor_id == honor_id);
            return true;
        }
        i = i + 1;
    }
    false
}

fn honor_fold_exec(rows: &Vec<EventHonorBonus>, owned: &Vec<UserHonor>, ch: i32) -> (r: u16)
    ensures
        r == honor_fold(rows@, owned@, ch as int),
{
    let mut acc: u32 = 0;
    let mut i: usize = 0;
    while i < rows.len()
        invariant
            i <= rows@.len(),
            acc < 65536,
            acc == honor_fold(rows@.subrange(0, i as int), owned@, ch as int),
        decreases rows@.len() - i,
    {
        assert(rows@.subrange(0, i + 1).drop_last() =~= rows@.subrange(0, i as int));
        let e = rows[i];
        if e.leader_game_character_id == ch && owns_honor_exec(owned, e.honor_id) {
            let add: u32 = if e.bonus_rate <= 0 { 0 } else { (e.bonus_rate % 65536) as u32 };
            acc = (acc + add) % 65536;
        }
        i = i + 1;
    }
    assert(rows@.subrange(0, rows@.len() as int) =~= rows@);
    acc as u16
}

/// Title leader bonus of every character id 0..27 in a build.
fn leader_honor_table(c: &EventContext, owned: &Vec<UserHonor>) -> (r: Vec<u16>)
    ensures
        r@.len() == 27,
        forall|ch: int| 0 <= ch < 27 ==> #[trigger] r@[ch] == leader_honor(*c, owned@, ch),
{
    let finale = is_world_bloom_finale_event(c.event_id);
    let mut out: Vec<u16> = Vec::new();
    let mut ch: i32 = 0;
    while ch < 27
        invariant
            0 <= ch <= 27,
            out@.len() == ch,
            finale == spec_is_finale_event(c.event_id),
            forall|k: int| 0 <= k < ch ==> #[trigger] out@[k] == leader_honor(*c, owned@, k),
        decreases 27 - ch,
    {
        if finale {
            out.push(honor_fold_exec(&c.honor_bonuses, owned, ch));
        } else {
            out.push(0);
        }
        ch = ch + 1;
    }
    out
}

/// Event values of one card: bonus, axes hit, leader bonuses.
fn card_event_values(
    uc: &UserCard,
    master: &MasterCard,
    d: &CardData,
    attr: u8,
    ctx: &Option<EventContext>,
    honor_table: &Vec<u16>,
) -> (r: (EventBonusExact, bool, bool, u16, u16))
    requires
        honor_table@.len() == 27,
    ensures
        (r.0, r.1, r.2) == (match *ctx {
            None => (EventBonusExact { base_x10: 0, limited_x10: 0 }, false, false),
            Some(c) => spec_card_event_bonus(
                *uc, *master, attr, d.primary_unit, d.support_unit, d.support_unit_unrestricted,
                limited_x10(c.event_cards@, master.id), c,
            ),
        }),
        r.3 == (match *ctx {
            Some(c) => if 0 <= master.character_id < 27 { honor_table@[master.character_id as int] } else { 0 },
            None => 0,
        }),
        r.4 == (match *ctx { Some(c) => limited_leader(c.event_cards@, master.id), None => 0 }),
{
    match ctx {
        None => (EventBonusExact { base_x10: 0, limited_x10: 0 }, false, false, 0, 0),
        Some(c) => {
            let row = limited_row_exec(&c.event_cards, master.id);
            let lim: i32 = match row {
                Some(e) => {
                    let v = e.bonus_rate as i64 * 10;
                    if v > 2147483647 { 2147483647 } else if v < -2147483648 { -2147483648 } else { v as i32 }
                },
                None => 0,
            };
            let (b, hc, ha) = build_card_event_bonus(
                uc, master, attr, d.primary_unit, d.support_unit, d.support_unit_unrestricted, lim, c,
            );
            let honor: u16 = if 0 <= master.character_id && master.character_id < 27 {
                honor_table[master.character_id as usize]
            } else {
                0
            };
            let leader: u16 = match row {
                Some(e) => if e.leader_bonus_rate <= 0 { 0 } else { (e.leader_bonus_rate % 65536) as u16 },
                None => 0,
            };
            (b, hc, ha, honor, leader)
        },
    }
}


fn zero_table() -> (r: Vec<u16>)
    ensures
        r@.len() == 27,
        forall|k: int| 0 <= k < 27 ==> #[trigger] r@[k] == 0,
{
    let mut out: Vec<u16> = Vec::new();
    let mut k: usize = 0;
    while k < 27
        invariant
            k <= 27,
            out@.len() == k,
            forall|j: int| 0 <= j < k ==> #[trigger] out@[j] == 0,
        decreases 27 - k,
    {
        out.push(0);
        k = k + 1;
    }
    out
}

/// The cards entering a build, as exec values.
fn input_cards(user: &UserProfile, params: &BuildParams, game: &GameData<'_>) -> (r: Vec<UserCard>)
    ensures
        card_views(r@) == cards_in(*user, *params, *game),
{
    if params.fixed_cards.len() > 0 {
        normalize_user_cards(user, params, game)
    } else {
        copy_user_cards(&user.user_cards)
    }
}

/// Prepares the seed of every candidate card (see [`candidates`] and
/// [`seed_ok`]).
#[verifier::loop_isolation(false)]
#[verifier::rlimit(40)]
pub fn prepare_seeds(
    user: &UserProfile,
    game: &GameData<'_>,
    idx: &PoolIndexes,
    params: &BuildParams,
    ctx: &Option<EventContext>,
) -> (r: Vec<CardSeed>)
    requires
        indexes_wf(*idx, *game),
        build_defined(cards_in(*user, *params, *game), *game, *params),
    ensures
        seeds_ok(r@, candidates(cards_in(*user, *params, *game), *game, *params), *game, *user, *ctx),
{
    let configs = merged_configs(params);
    let noop = configs_are_noop(&configs);
    assert(noop == request_noop(*params));
    let input = input_cards(user, params, game);
    let ghost views = cards_in(*user, *params, *game);
    let honor_table = match ctx {
        Some(c) => leader_honor_table(c, &user.user_honors),
        None => zero_table(),
    };
    let mut out: Vec<CardSeed> = Vec::new();
    let mut i: usize = 0;
    while i < input.len()
        invariant
            i <= input@.len(),
            views.len() == input@.len(),
            seeds_ok(out@, candidates(views.subrange(0, i as int), *game, *params), *game, *user, *ctx),
        decreases input@.len() - i,
    {
        let ghost prev = out@;
        assert(views.subrange(0, i + 1).drop_last() =~= views.subrange(0, i as int));
        assert(views.subrange(0, i + 1).last() == views[i as int]);
        assert(views[i as int] == input@[i as int]@);
        let u = &input[i];
        match idx.card_index(game, u.card_id) {
            None => {},
            Some(k) => {
                let d = &idx.cards[k];
                assert(card_data_matches(idx.cards@[k as int], game.cards@[k as int], *game));
                assert(d.master@.id == game.cards@[k as int].id);
                assert(d.master@.card_rarity_type == game.cards@[k as int].card_rarity_type);
                assert(spec_card_config(configs, d.master.id, d.master.card_rarity_type)
                    == request_card_config(*params, game.cards@[k as int].id, game.cards@[k as int].card_rarity_type));
                let mut uc = u.copy();
                let kept = if noop {
                    true
                } else {
                    assert(build_defined(views, *game, *params));
                    assert(views[i as int].card_id == u.card_id);
                    apply_card_config(&mut uc, &d.master, &configs, game.card_rarities, game.card_episodes)
                };
                if kept && d.unit_mask != 0 {
                    if let Some(attr) = d.attr {
                        let master = d.master.copy();
                        let image_kind = default_image_kind(uc.default_image.as_str());
                        let after = is_after_training(uc.special_training_status.as_str());
                        let image = if image_kind == DefaultImage::SpecialTraining || after {
                            DefaultImage::SpecialTraining
                        } else {
                            DefaultImage::Original
                        };
                        let ev = card_event_values(&uc, &master, d, attr, ctx, &honor_table);
                        let seed = CardSeed {
                            pos: k,
                            master,
                            user_card: uc,
                            unit_mask: d.unit_mask,
                            attr,
                            primary_unit: d.primary_unit,
                            support_unit: d.support_unit,
                            support_unit_unrestricted: d.support_unit_unrestricted,
                            image_kind,
                            default_image: image,
                            after_training: after,
                            event_bonus: ev.0,
                            has_char_bonus: ev.1,
                            has_attr_bonus: ev.2,
                            leader_honor_bonus: ev.3,
                            leader_limit_bonus: ev.4,
                        };
                        out.push(seed);
                        proof {
                            let cands = candidates(views.subrange(0, i + 1), *game, *params);
                            assert(cands == candidates(views.subrange(0, i as int), *game, *params).push(
                                (out@[prev.len() as int].user_card@, k as int),
                            ));
                            assert forall|j: int| 0 <= j < out@.len() implies #[trigger] seed_ok(
                                out@[j], cands[j].0, cands[j].1, *game, *user, *ctx,
                            ) by {
                                if j < prev.len() {
                                    assert(out@[j] == prev[j]);
                                }
                            }
                        }
                    }
                }
            },
        }
        i = i + 1;
    }
    assert(views.subrange(0, input@.len() as int) =~= views);
    out
}


// ---------------------------------------------------------------------------
// Prefilter of the seeds.

/// Whether the cheap filters run before skills and power are computed:
/// with an event that has no support deck and is no finale, for targets
/// other than power and skill.
pub open spec fn can_prefilter(ctx: Option<EventContext>, params: BuildParams) -> bool {
    match ctx {
        Some(c) => c.support_deck_count == 0 && !spec_is_finale_event(c.event_id) && !spec_is_power_or_skill(params.target),
        None => false,
    }
}

/// Whether the ctx's event is a World Bloom finale.
pub open spec fn is_finale_ctx(ctx: Option<EventContext>) -> bool {
    match ctx {
        Some(c) => spec_is_finale_event(c.event_id),
        None => false,
    }
}

/// Group the event restricts to, if any.
pub open spec fn ctx_filter_unit(ctx: Option<EventContext>) -> Option<Unit> {
    match ctx {
        Some(c) => c.filter_unit,
        None => None,
    }
}

/// The hard filters and the event-group filter on a seed.
pub open spec fn seed_keep(s: CardSeed, params: BuildParams, ctx: Option<EventContext>) -> bool {
    spec_prepared_keep_card(s.master, s.unit_mask, s.attr, params)
        && spec_event_unit_filter(s.unit_mask, params.filter_other_unit, ctx_filter_unit(ctx))
}

/// The bonus prefilter on a seed (not a World Bloom build).
pub open spec fn seed_ep(s: CardSeed, is_final: bool) -> bool {
    spec_ep_prefilter_keep(s.master.card_rarity_type, s.event_bonus, s.has_char_bonus, s.has_attr_bonus, false, is_final)
}

/// The bonus prefilter on a seed, fixed cards and characters kept.
pub open spec fn seed_ep_with_params(s: CardSeed, params: BuildParams, is_final: bool) -> bool {
    spec_ep_prefilter_keep_with_params(
        s.master.id, s.master.character_id, s.master.card_rarity_type, s.event_bonus,
        s.has_char_bonus, s.has_attr_bonus, params, false, is_final,
    )
}

/// Seeds after the hard filters (when they run early).
pub open spec fn first_filtered(s: Seq<CardSeed>, params: BuildParams, ctx: Option<EventContext>) -> Seq<CardSeed> {
    if can_prefilter(ctx, params) {
        keep_unmarked(s, Seq::new(s.len(), |j: int| !seed_keep(s[j], params, ctx)))
    } else {
        s
    }
}

/// Whether the request asks for exact bonus targets.
pub open spec fn bonus_tiers(params: BuildParams) -> bool {
    params.target_bonus_list@.len() > 0
}

/// The largest of a list of bonus targets (0 for none).
pub open spec fn max_target(l: Seq<i32>) -> int
    decreases l.len(),
{
    if l.len() == 0 {
        0
    } else if l.last() as int > max_target(l.drop_last()) {
        l.last() as int
    } else {
        max_target(l.drop_last())
    }
}

/// Whether a card's event bonus (master-rank bonus included, tenths of a
/// percent) is above the largest bonus target.
pub open spec fn above_target(bonus: EventBonusExact, params: BuildParams) -> bool {
    bonus.base_x10 + bonus.limited_x10 > 10 * max_target(params.target_bonus_list@)
}

/// Whether the bonus prefilter runs: early filtering is on, the request
/// names no bonus target, more than 50 seeds are left and at least one
/// passes it.
pub open spec fn ep_applies(s: Seq<CardSeed>, params: BuildParams, ctx: Option<EventContext>) -> bool {
    can_prefilter(ctx, params) && !bonus_tiers(params) && s.len() > EP_PREFILTER_MIN_POOL
        && exists|j: int| 0 <= j < s.len() && #[trigger] seed_ep(s[j], is_finale_ctx(ctx))
}

/// Seeds after the bonus stage: with bonus targets, the seeds whose bonus
/// is not above the largest target; otherwise the bonus prefilter.
pub open spec fn ep_filtered(s: Seq<CardSeed>, params: BuildParams, ctx: Option<EventContext>) -> Seq<CardSeed> {
    if bonus_tiers(params) {
        keep_unmarked(s, Seq::new(s.len(), |j: int| above_target(s[j].event_bonus, params)))
    } else if ep_applies(s, params, ctx) {
        keep_unmarked(s, Seq::new(s.len(), |j: int| !seed_ep_with_params(s[j], params, is_finale_ctx(ctx))))
    } else {
        s
    }
}

fn max_target_exec(l: &Vec<i32>) -> (r: i64)
    ensures
        r == max_target(l@),
        0 <= r <= i32::MAX,
{
    let mut m: i64 = 0;
    let mut i: usize = 0;
    while i < l.len()
        invariant
            i <= l@.len(),
            m == max_target(l@.subrange(0, i as int)),
            0 <= m <= i32::MAX,
        decreases l@.len() - i,
    {
        assert(l@.subrange(0, i + 1).drop_last() =~= l@.subrange(0, i as int));
        if l[i] as i64 > m {
            m = l[i] as i64;
        }
        i = i + 1;
    }
    assert(l@.subrange(0, i as int) =~= l@);
    m
}

/// Runs the early filters on the seeds; returns whether the bonus
/// prefilter ran.
#[verifier::loop_isolation(false)]
pub fn prefilter_seeds(seeds: &mut Vec<CardSeed>, params: &BuildParams, ctx: &Option<EventContext>) -> (applied: bool)
    ensures
        applied == ep_applies(first_filtered(old(seeds)@, *params, *ctx), *params, *ctx),
        final(seeds)@ == ep_filtered(first_filtered(old(seeds)@, *params, *ctx), *params, *ctx),
{
    let can = match ctx {
        Some(c) => c.support_deck_count == 0 && !is_world_bloom_finale_event(c.event_id) && !is_power_or_skill(params.target),
        None => false,
    };
    let finale = match ctx {
        Some(c) => is_world_bloom_finale_event(c.event_id),
        None => false,
    };
    let filter_unit = match ctx {
        Some(c) => c.filter_unit,
        None => None,
    };
    assert(can == can_prefilter(*ctx, *params));
    assert(finale == is_finale_ctx(*ctx));
    let ghost s0 = seeds@;
    if can {
        let mut marks: Vec<bool> = Vec::new();
        let mut i: usize = 0;
        while i < seeds.len()
            invariant
                i <= seeds@.len(),
                seeds@ == s0,
                marks@ == Seq::new(i as nat, |j: int| !seed_keep(s0[j], *params, *ctx)),
            decreases seeds@.len() - i,
        {
            let s = &seeds[i];
            let keep = prepared_keep_card(&s.master, s.unit_mask, s.attr, params)
                && event_unit_filter(s.unit_mask, params.filter_other_unit, filter_unit);
            marks.push(!keep);
            assert(marks@ =~= Seq::new((i + 1) as nat, |j: int| !seed_keep(s0[j], *params, *ctx)));
            i = i + 1;
        }
        drop_marked(seeds, &marks);
    }
    let ghost s1 = seeds@;
    assert(s1 == first_filtered(s0, *params, *ctx));
    if params.target_bonus_list.len() > 0 {
        let top = max_target_exec(&params.target_bonus_list);
        let mut marks3: Vec<bool> = Vec::new();
        let mut t: usize = 0;
        while t < seeds.len()
            invariant
                t <= seeds@.len(),
                seeds@ == s1,
                top == max_target(params.target_bonus_list@),
                0 <= top <= i32::MAX,
                marks3@ == Seq::new(t as nat, |j: int| above_target(s1[j].event_bonus, *params)),
            decreases seeds@.len() - t,
        {
            let b = seeds[t].event_bonus;
            marks3.push(b.base_x10 as i64 + b.limited_x10 as i64 > 10 * top);
            assert(marks3@ =~= Seq::new((t + 1) as nat, |j: int| above_target(s1[j].event_bonus, *params)));
            t = t + 1;
        }
        drop_marked(seeds, &marks3);
        return false;
    }
    if !can {
        return false;
    }
    if seeds.len() <= EP_PREFILTER_MIN_POOL {
        return false;
    }
    let mut any = false;
    let mut j: usize = 0;
    while j < seeds.len()
        invariant
            j <= seeds@.len(),
            seeds@ == s1,
            any == exists|k: int| 0 <= k < j && #[trigger] seed_ep(s1[k], finale),
        decreases seeds@.len() - j,
    {
        let s = &seeds[j];
        if ep_prefilter_keep(s.master.card_rarity_type, &s.event_bonus, s.has_char_bonus, s.has_attr_bonus, false, finale) {
            assert(seed_ep(s1[j as int], finale));
            any = true;
        }
        j = j + 1;
    }
    if !any {
        return false;
    }
    let mut marks2: Vec<bool> = Vec::new();
    let mut k: usize = 0;
    while k < seeds.len()
        invariant
            k <= seeds@.len(),
            seeds@ == s1,
            marks2@ == Seq::new(k as nat, |j: int| !seed_ep_with_params(s1[j], *params, finale)),
        decreases seeds@.len() - k,
    {
        let s = &seeds[k];
        let keep = ep_prefilter_keep_with_params(
            s.master.id, s.master.character_id, s.master.card_rarity_type, &s.event_bonus,
            s.has_char_bonus, s.has_attr_bonus, params, false, finale,
        );
        marks2.push(!keep);
        assert(marks2@ =~= Seq::new((k + 1) as nat, |j: int| !seed_ep_with_params(s1[j], *params, finale)));
        k = k + 1;
    }
    drop_marked(seeds, &marks2);
    true
}


// ---------------------------------------------------------------------------
// Skills and power of the kept seeds.

/// The player's rank of a card's character (0 outside 0..27).
pub open spec fn rank_of(user: UserProfile, character_id: i32) -> i32 {
    if 0 <= character_id < 27 { spec_character_rank(user.user_characters@, character_id as int) } else { 0 }
}

/// Cap on the skill score-up of a build.
pub open spec fn ctx_skill_limit(ctx: Option<EventContext>) -> Option<u32> {
    match ctx {
        Some(c) => c.skill_score_up_limit,
        None => None,
    }
}

/// The skill of a card in a training state (see [`spec_build_skill`]).
#[verifier::opaque]
pub open spec fn skill_in_state(
    uc: UserCard,
    m: MasterCard,
    game: GameData<'_>,
    rank: i32,
    lim: Option<u32>,
    state: SkillState,
) -> Result<SkillResult, BuildError> {
    spec_build_skill(uc, m, game, rank, lim, state)
}

fn skill_in_state_exec(
    uc: &UserCard,
    m: &MasterCard,
    game: &GameData<'_>,
    rank: i32,
    lim: Option<u32>,
    state: SkillState,
) -> (r: Result<SkillResult, BuildError>)
    ensures
        r == skill_in_state(*uc, *m, *game, rank, lim, state),
{
    let r = build_skill(uc, m, game, rank, lim, state);
    proof {
        reveal(skill_in_state);
    }
    r
}

/// The skill states a seed enters the pool with, each with its skill: the
/// first state always, the second only when the card has two; of two
/// states whose skills do not depend on the deck only the stronger stays
/// (the untrained one on a tie). The flag says whether both stay (the state
/// then decides the card's art). The first error of a skill build wins.
pub open spec fn seed_skills(
    s: CardSeed,
    game: GameData<'_>,
    user: UserProfile,
    params: BuildParams,
    ctx: Option<EventContext>,
) -> Result<(Seq<Option<(SkillState, SkillResult)>>, bool), BuildError> {
    let (states, count) = spec_skill_states(s.image_kind, s.after_training, s.master, params);
    let rank = rank_of(user, s.master.character_id);
    let lim = ctx_skill_limit(ctx);
    match skill_in_state(s.user_card, s.master, game, rank, lim, states[0]) {
        Err(e) => Err(e),
        Ok(k0) => if count == 2 {
            match skill_in_state(s.user_card, s.master, game, rank, lim, states[1]) {
                Err(e) => Err(e),
                Ok(k1) => if spec_is_bfes_pair(k0, k1) {
                    Ok((seq![Some((states[0], k0)), Some((states[1], k1))], true))
                } else if k0.skill_max > k1.skill_max {
                    Ok((seq![Some((states[0], k0)), None], false))
                } else {
                    Ok((seq![None, Some((states[1], k1))], false))
                },
            }
        } else {
            Ok((seq![Some((states[0], k0)), None], false))
        },
    }
}

/// A card ready for repeated pool builds.
pub struct PreparedCardBuild {
    pub seed: CardSeed,
    pub skill_options: Vec<Option<(SkillState, SkillResult)>>,
    pub skill_state_controls_image: bool,
}

/// Whether a seed is a copy of another (strings and lists by value).
pub open spec fn seed_copy(a: CardSeed, b: CardSeed) -> bool {
    &&& a.pos == b.pos
    &&& a.master == b.master
    &&& a.user_card@ == b.user_card@
    &&& a.unit_mask == b.unit_mask
    &&& a.attr == b.attr
    &&& a.primary_unit == b.primary_unit
    &&& a.support_unit == b.support_unit
    &&& a.support_unit_unrestricted == b.support_unit_unrestricted
    &&& a.image_kind == b.image_kind
    &&& a.default_image == b.default_image
    &&& a.after_training == b.after_training
    &&& a.event_bonus == b.event_bonus
    &&& a.has_char_bonus == b.has_char_bonus
    &&& a.has_attr_bonus == b.has_attr_bonus
    &&& a.leader_honor_bonus == b.leader_honor_bonus
    &&& a.leader_limit_bonus == b.leader_limit_bonus
}

fn copy_seed(s: &CardSeed) -> (r: CardSeed)
    ensures
        seed_copy(r, *s),
{
    CardSeed {
        pos: s.pos,
        master: s.master.copy(),
        user_card: s.user_card.copy(),
        unit_mask: s.unit_mask,
        attr: s.attr,
        primary_unit: s.primary_unit,
        support_unit: s.support_unit,
        support_unit_unrestricted: s.support_unit_unrestricted,
        image_kind: s.image_kind,
        default_image: s.default_image,
        after_training: s.after_training,
        event_bonus: s.event_bonus,
        has_char_bonus: s.has_char_bonus,
        has_attr_bonus: s.has_attr_bonus,
        leader_honor_bonus: s.leader_honor_bonus,
        leader_limit_bonus: s.leader_limit_bonus,
    }
}

/// A prepared card and its power, from its seed.
pub open spec fn card_built(
    c: PreparedCardBuild,
    p: PowerResult,
    s: CardSeed,
    game: GameData<'_>,
    user: UserProfile,
    params: BuildParams,
    ctx: Option<EventContext>,
    pctx: PreparedPowerContext,
) -> bool {
    &&& seed_copy(c.seed, s)
    &&& seed_skills(s, game, user, params, ctx) == Ok::<_, BuildError>((c.skill_options@, c.skill_state_controls_image))
    &&& power_ok(p, s.user_card, s.master, pctx, game, s.unit_mask, s.attr)
}

/// The first skill error among the seeds, in order.
pub open spec fn first_skill_error(
    s: Seq<CardSeed>,
    game: GameData<'_>,
    user: UserProfile,
    params: BuildParams,
    ctx: Option<EventContext>,
) -> Option<BuildError>
    decreases s.len(),
{
    if s.len() == 0 {
        None
    } else {
        match seed_skills(s[0], game, user, params, ctx) {
            Err(e) => Some(e),
            Ok(_) => first_skill_error(s.drop_first(), game, user, params, ctx),
        }
    }
}

/// The skills of a seed.
fn build_seed_skills(
    s: &CardSeed,
    game: &GameData<'_>,
    user: &UserProfile,
    params: &BuildParams,
    ctx: &Option<EventContext>,
    pctx: &PreparedPowerContext,
) -> (r: Result<(Vec<Option<(SkillState, SkillResult)>>, bool), BuildError>)
    requires
        context_rank_ok(*pctx, *user),
    ensures
        match r {
            Ok((v, b)) => seed_skills(*s, *game, *user, *params, *ctx) == Ok::<_, BuildError>((v@, b)),
            Err(e) => seed_skills(*s, *game, *user, *params, *ctx) == Err::<(Seq<Option<(SkillState, SkillResult)>>, bool), BuildError>(e),
        },
{
    let (states, count) = skill_states_for_card(s.image_kind, s.after_training, &s.master, params);
    let rank = pctx.character_rank(s.master.character_id);
    let lim = match ctx {
        Some(c) => c.skill_score_up_limit,
        None => None,
    };
    let k0 = match skill_in_state_exec(&s.user_card, &s.master, game, rank, lim, states[0]) {
        Ok(k) => k,
        Err(e) => return Err(e),
    };
    let mut opts: Vec<Option<(SkillState, SkillResult)>> = Vec::new();
    opts.push(Some((states[0], k0)));
    if count == 2 {
        let k1 = match skill_in_state_exec(&s.user_card, &s.master, game, rank, lim, states[1]) {
            Ok(k) => k,
            Err(e) => return Err(e),
        };
        opts.push(Some((states[1], k1)));
        assert(opts@ =~= seq![Some((states[0], k0)), Some((states[1], k1))]);
        let both = collapse_non_bfes_skill_states(&mut opts, count);
        assert(both ==> opts@ =~= seq![Some((states[0], k0)), Some((states[1], k1))]);
        assert(!both && k0.skill_max > k1.skill_max ==> opts@ =~= seq![Some((states[0], k0)), None]);
        assert(!both && k0.skill_max <= k1.skill_max ==> opts@ =~= seq![None, Some((states[1], k1))]);
        Ok((opts, both))
    } else {
        opts.push(None);
        assert(opts@ =~= seq![Some((states[0], k0)), None]);
        Ok((opts, false))
    }
}

/// Whether a power context holds the player's character ranks.
pub open spec fn context_rank_ok(pctx: PreparedPowerContext, user: UserProfile) -> bool {
    &&& pctx.character_rank@.len() == 27
    &&& forall|ch: int| 0 <= ch < 27 ==> #[trigger] pctx.character_rank@[ch] == spec_character_rank(user.user_characters@, ch)
}

/// Skills and power of every kept seed, in order; the first skill error
/// stops the build.
#[verifier::loop_isolation(false)]
#[verifier::rlimit(50)]
pub fn build_cards(
    seeds: &Vec<CardSeed>,
    game: &GameData<'_>,
    user: &UserProfile,
    params: &BuildParams,
    ctx: &Option<EventContext>,
    pctx: &PreparedPowerContext,
) -> (r: Result<(Vec<PreparedCardBuild>, Vec<PowerResult>), BuildError>)
    requires
        context_rank_ok(*pctx, *user),
        power_context_wf(*pctx),
    ensures
        match r {
            Err(e) => first_skill_error(seeds@, *game, *user, *params, *ctx) == Some(e),
            Ok((cards, powers)) => {
                &&& first_skill_error(seeds@, *game, *user, *params, *ctx) is None
                &&& cards@.len() == seeds@.len()
                &&& powers@.len() == seeds@.len()
                &&& forall|j: int| 0 <= j < seeds@.len() ==> #[trigger] card_built(
                    cards@[j], powers@[j], seeds@[j], *game, *user, *params, *ctx, *pctx,
                )
            },
        },
{
    let mut cards: Vec<PreparedCardBuild> = Vec::new();
    let mut powers: Vec<PowerResult> = Vec::new();
    let mut i: usize = 0;
    assert(seeds@.subrange(0, seeds@.len() as int) =~= seeds@);
    while i < seeds.len()
        invariant
            i <= seeds@.len(),
            cards@.len() == i,
            powers@.len() == i,
            first_skill_error(seeds@, *game, *user, *params, *ctx) == first_skill_error(
                seeds@.subrange(i as int, seeds@.len() as int), *game, *user, *params, *ctx,
            ),
            forall|j: int| 0 <= j < i ==> #[trigger] card_built(
                cards@[j], powers@[j], seeds@[j], *game, *user, *params, *ctx, *pctx,
            ),
        decreases seeds@.len() - i,
    {
        let ghost rest = seeds@.subrange(i as int, seeds@.len() as int);
        assert(rest[0] == seeds@[i as int]);
        assert(rest.drop_first() =~= seeds@.subrange(i + 1, seeds@.len() as int));
        let s = &seeds[i];
        let (opts, both) = match build_seed_skills(s, game, user, params, ctx, pctx) {
            Ok(x) => x,
            Err(e) => return Err(e),
        };
        let power = build_power(&s.user_card, &s.master, pctx, game, s.unit_mask, s.attr);
        cards.push(PreparedCardBuild { seed: copy_seed(s), skill_options: opts, skill_state_controls_image: both });
        powers.push(power);
        i = i + 1;
    }
    assert(seeds@.subrange(seeds@.len() as int, seeds@.len() as int) =~= Seq::<CardSeed>::empty());
    Ok((cards, powers))
}


// ---------------------------------------------------------------------------
// Per-player preparation.

/// A request-level problem found before any card is prepared.
pub enum RequestIssue {
    /// A parameter is out of range (see [`param_issue`]).
    Param(ParamIssue),
    /// A simulated World Bloom build names no turn.
    WorldBloomTurn,
    /// The bonus target needs an event.
    BonusNeedsEvent,
    /// The bonus target is not supported in a World Bloom finale.
    BonusInFinale,
}

/// The first request-level problem of a build, in the order the checks run.
pub open spec fn request_issue(game: GameData<'_>, p: BuildParams) -> Option<RequestIssue> {
    if param_issue(p) is Some {
        Some(RequestIssue::Param(param_issue(p)->0))
    } else if spec_build_event_type(game, p) == Some(EventType::WorldBloom) && world_bloom_without_turn(p) {
        Some(RequestIssue::WorldBloomTurn)
    } else if p.target == ScoreTarget::Bonus && spec_build_event_type(game, p) is None {
        Some(RequestIssue::BonusNeedsEvent)
    } else if p.target == ScoreTarget::Bonus && (p.event_id == Some(FINAL_CHAPTER_EVENT_ID) || p.world_bloom_finale_turn is Some) {
        Some(RequestIssue::BonusInFinale)
    } else {
        None
    }
}

/// Message of a bonus target without an event.
pub open spec fn bonus_needs_event_message() -> Seq<char> {
    "bonus target 需要活动上下文"@
}

/// Message of a bonus target in a World Bloom finale.
pub open spec fn bonus_in_finale_message() -> Seq<char> {
    "终章不支持 bonus target"@
}

/// The event context of a request.
pub open spec fn ctx_ok(ctx: Option<EventContext>, game: GameData<'_>, p: BuildParams) -> bool {
    match spec_build_event_type(game, p) {
        None => ctx is None,
        Some(t) => ctx matches Some(c) && crate::event_bonus::context_matches(c, game, p, t),
    }
}

/// The song parameters of a request.
pub open spec fn music_ok(m: Option<MusicParams>, game: GameData<'_>, p: BuildParams) -> bool {
    match spec_music(game, p) {
        Some(mm) => m matches Some(mp) && mp.meta == mm && mp.event_rate_pct == event_rate_for(mm, p.live_type),
        None => m is None,
    }
}

/// Reusable per-player preparation of one request: the event context, the
/// song, and every kept card with its skill states and power.
pub struct PreparedPoolBuild<'a> {
    pub params: &'a BuildParams,
    pub event_ctx: Option<EventContext>,
    pub music: Option<MusicParams>,
    pub powers: Vec<PowerResult>,
    pub cards: Vec<PreparedCardBuild>,
    pub ep_prefilter_applied: bool,
    pub honor_bonus: u32,
}

/// The kept cards of a preparation, from its seeds.
pub open spec fn kept_ok(
    b: PreparedPoolBuild,
    seeds: Seq<CardSeed>,
    game: GameData<'_>,
    user: UserProfile,
    p: BuildParams,
    pctx: PreparedPowerContext,
) -> bool {
    let s1 = first_filtered(seeds, p, b.event_ctx);
    let s2 = ep_filtered(s1, p, b.event_ctx);
    &&& b.ep_prefilter_applied == ep_applies(s1, p, b.event_ctx)
    &&& first_skill_error(s2, game, user, p, b.event_ctx) is None
    &&& b.cards@.len() == s2.len()
    &&& b.powers@.len() == s2.len()
    &&& forall|j: int| 0 <= j < s2.len() ==> #[trigger] card_built(b.cards@[j], b.powers@[j], s2[j], game, user, p, b.event_ctx, pctx)
}

/// A successful preparation of a request.
pub open spec fn prepared_ok(b: PreparedPoolBuild, user: UserProfile, game: GameData<'_>, p: BuildParams) -> bool {
    &&& *b.params == p
    &&& ctx_ok(b.event_ctx, game, p)
    &&& music_ok(b.music, game, p)
    &&& b.honor_bonus == honor_total(user.user_honors@, game.honors@)
    &&& exists|seeds: Seq<CardSeed>, pctx: PreparedPowerContext|
        seeds_ok(seeds, candidates(cards_in(user, p, game), game, p), game, user, b.event_ctx)
            && crate::power::context_matches(pctx, user, game, spec_fixture_limit(game, b.event_ctx))
            && kept_ok(b, seeds, game, user, p, pctx)
}

/// A preparation that stops on a skill that does not fit the pool.
pub open spec fn prepare_skill_failure(e: BuildError, user: UserProfile, game: GameData<'_>, p: BuildParams) -> bool {
    exists|seeds: Seq<CardSeed>, ctx: Option<EventContext>|
        ctx_ok(ctx, game, p) && seeds_ok(seeds, candidates(cards_in(user, p, game), game, p), game, user, ctx)
            && first_skill_error(ep_filtered(first_filtered(seeds, p, ctx), p, ctx), game, user, p, ctx) == Some(e)
}

/// The outcome of a preparation.
pub open spec fn prepare_outcome(
    r: Result<PreparedPoolBuild, BuildError>,
    user: UserProfile,
    game: GameData<'_>,
    p: BuildParams,
) -> bool {
    match request_issue(game, p) {
        Some(RequestIssue::Param(i)) => r matches Err(BuildError::InvalidConfig(m)) && m@ == issue_message(i),
        Some(RequestIssue::WorldBloomTurn) => r matches Err(BuildError::InvalidConfig(_)),
        Some(RequestIssue::BonusNeedsEvent) => r matches Err(BuildError::InvalidConfig(m)) && m@ == bonus_needs_event_message(),
        Some(RequestIssue::BonusInFinale) => r matches Err(BuildError::InvalidConfig(m)) && m@ == bonus_in_finale_message(),
        None => match r {
            Ok(b) => prepared_ok(b, user, game, p),
            Err(e) => prepare_skill_failure(e, user, game, p),
        },
    }
}

/// What a build asks of its inputs: indexes built for the snapshot, presets
/// with well-defined clamps for every card they apply to, and a title bonus
/// total that fits 32 bits.
pub open spec fn prepare_defined(user: UserProfile, prepared: PreparedGameData<'_>, p: BuildParams) -> bool {
    &&& indexes_wf(prepared.indexes, prepared.game)
    &&& build_defined(cards_in(user, p, prepared.game), prepared.game, p)
    &&& honor_total(user.user_honors@, prepared.game.honors@) <= u32::MAX
}

impl<'a> PreparedPoolBuild<'a> {
    /// Prepares a request for one player: checks the request, resolves its
    /// event and song, and prepares every owned card (see [`prepare_outcome`]).
    pub fn new(user: &UserProfile, prepared: &PreparedGameData<'_>, params: &'a BuildParams) -> (r: Result<Self, BuildError>)
        requires
            prepare_defined(*user, *prepared, *params),
        ensures
            prepare_outcome(r, *user, prepared.game, *params),
    {
        let game = prepared.game();
        let idx = &prepared.indexes;
        match validate_build_params(params) {
            Ok(()) => {},
            Err(e) => return Err(e),
        }
        let event_ctx = match build_event_context(game, params) {
            Ok(c) => c,
            Err(e) => return Err(e),
        };
        if params.target == ScoreTarget::Bonus {
            if event_ctx.is_none() {
                return Err(BuildError::InvalidConfig("bonus target 需要活动上下文".to_owned()));
            }
            if params.event_id == Some(FINAL_CHAPTER_EVENT_ID) || params.world_bloom_finale_turn.is_some() {
                return Err(BuildError::InvalidConfig("终章不支持 bonus target".to_owned()));
            }
        }
        assert(request_issue(*game, *params) is None);
        let fixture = resolve_fixture_bonus_limit(game, &event_ctx);
        let music = build_music_params(game, params);
        let pctx = PreparedPowerContext::new(user, game, fixture);
        let mut seeds = prepare_seeds(user, game, idx, params, &event_ctx);
        let ghost seeds0 = seeds@;
        let applied = prefilter_seeds(&mut seeds, params, &event_ctx);
        let (cards, powers) = match build_cards(&seeds, game, user, params, &event_ctx, &pctx) {
            Ok(x) => x,
            Err(e) => {
                assert(ctx_ok(event_ctx, *game, *params));
                return Err(e);
            },
        };
        let honor = compute_honor_bonus(user, game);
        let b = PreparedPoolBuild {
            params,
            event_ctx,
            music,
            powers,
            cards,
            ep_prefilter_applied: applied,
            honor_bonus: honor,
        };
        assert(kept_ok(b, seeds0, *game, *user, *params, pctx));
        Ok(b)
    }
}


// ---------------------------------------------------------------------------
// The pool of one build.

/// Every skill state of the prepared cards, in order, with the index of
/// its card (cards past the last power are not used).
pub open spec fn option_list(cards: Seq<PreparedCardBuild>) -> Seq<(int, (SkillState, SkillResult))>
    decreases cards.len(),
{
    if cards.len() == 0 {
        Seq::empty()
    } else {
        let rest = option_list(cards.drop_last());
        let j = cards.len() - 1;
        let opts = cards.last().skill_options@;
        let with0 = if opts.len() > 0 && opts[0] is Some { rest.push((j, opts[0]->0)) } else { rest };
        if opts.len() > 1 && opts[1] is Some { with0.push((j, opts[1]->0)) } else { with0 }
    }
}

/// Whether two power results are equal (the area bonuses by value).
pub open spec fn same_power(a: PowerResult, b: PowerResult) -> bool {
    &&& a.unit_mask == b.unit_mask
    &&& a.base == b.base
    &&& a.character_bonus == b.character_bonus
    &&& a.fixture_bonus == b.fixture_bonus
    &&& a.gate_bonus == b.gate_bonus
    &&& a.area_item_bonus@ == b.area_item_bonus@
    &&& a.power_min == b.power_min
    &&& a.power_max == b.power_max
}

/// The candidate of one skill state of a prepared card.
pub open spec fn candidate_ok(ci: CardIntermediate, c: PreparedCardBuild, p: PowerResult, opt: (SkillState, SkillResult)) -> bool {
    let s = c.seed;
    &&& ci.game_card_id == s.master.id
    &&& ci.card_rarity_type == s.master.card_rarity_type
    &&& ci.character_id == (if s.master.character_id < 0 { 0 } else if s.master.character_id > 255 { 255 } else { s.master.character_id }) as u8
    &&& ci.attr == s.attr
    &&& ci.unit_mask_raw == s.unit_mask
    &&& ci.default_image == (if c.skill_state_controls_image {
        if opt.0 == SkillState::BeforeTraining { DefaultImage::Original } else { DefaultImage::SpecialTraining }
    } else {
        s.default_image
    })
    &&& ci.after_training == s.after_training
    &&& ci.skill_state_controls_image == c.skill_state_controls_image
    &&& ci.master_rank == s.user_card.master_rank
    &&& ci.skill_level == s.user_card.skill_level
    &&& same_power(ci.power, p)
    &&& ci.skill == opt.1
    &&& ci.event_bonus == s.event_bonus
    &&& ci.has_char_bonus == s.has_char_bonus
    &&& ci.has_attr_bonus == s.has_attr_bonus
    &&& ci.leader_honor_bonus == s.leader_honor_bonus
    &&& ci.leader_limit_bonus == s.leader_limit_bonus
    &&& ci.ep_sort_key == p.power_max + ((s.event_bonus.base_x10 + s.event_bonus.limited_x10 + 9) / 10) * 1000
}

/// The candidates of a preparation: one per skill state of each card that
/// has a power.
pub open spec fn expanded_ok(s: Seq<CardIntermediate>, cards: Seq<PreparedCardBuild>, powers: Seq<PowerResult>) -> bool {
    let n = if cards.len() <= powers.len() { cards.len() } else { powers.len() };
    let l = option_list(cards.subrange(0, n as int));
    &&& s.len() == l.len()
    &&& forall|i: int| 0 <= i < s.len() ==> #[trigger] candidate_ok(s[i], cards[l[i].0], powers[l[i].0], l[i].1)
}

/// Whether a build needs support-deck seeds: an event with a support deck,
/// or a World Bloom finale.
pub open spec fn needs_support(ctx: Option<EventContext>) -> bool {
    match ctx {
        Some(c) => c.support_deck_count > 0 || spec_is_finale_event(c.event_id),
        None => false,
    }
}

/// The seeds of a list, each card id once (its first occurrence).
pub open spec fn dedup_seeds(s: Seq<SupportSeed>) -> Seq<SupportSeed>
    decreases s.len(),
{
    if s.len() == 0 {
        Seq::empty()
    } else {
        let rest = dedup_seeds(s.drop_last());
        if exists|i: int| 0 <= i < rest.len() && (#[trigger] rest[i]).card_id == s.last().card_id {
            rest
        } else {
            rest.push(s.last())
        }
    }
}

/// The support seeds of a build's candidates.
pub open spec fn support_list(
    s: Seq<CardIntermediate>,
    idx: PoolIndexes,
    game: GameData<'_>,
    p: BuildParams,
    ctx: Option<EventContext>,
) -> Seq<SupportSeed> {
    if needs_support(ctx) {
        dedup_seeds(Seq::new(s.len(), |i: int| spec_seed(s[i], idx, game, p.support_master_max, p.support_skill_max)))
    } else {
        Seq::empty()
    }
}

fn copy_power(p: &PowerResult) -> (r: PowerResult)
    ensures
        same_power(r, *p),
{
    PowerResult {
        unit_mask: p.unit_mask,
        base: p.base,
        character_bonus: p.character_bonus,
        fixture_bonus: p.fixture_bonus,
        gate_bonus: p.gate_bonus,
        area_item_bonus: crate::data::copy_i32s(&p.area_item_bonus),
        power_min: p.power_min,
        power_max: p.power_max,
    }
}

fn make_candidate(c: &PreparedCardBuild, p: &PowerResult, opt: (SkillState, SkillResult)) -> (r: CardIntermediate)
    ensures
        candidate_ok(r, *c, *p, opt),
{
    let s = &c.seed;
    let image = if c.skill_state_controls_image {
        match opt.0 {
            SkillState::BeforeTraining => DefaultImage::Original,
            SkillState::AfterTraining => DefaultImage::SpecialTraining,
        }
    } else {
        s.default_image
    };
    let ch = s.master.character_id;
    let character_id: u8 = if ch < 0 { 0 } else if ch > 255 { 255 } else { ch as u8 };
    let ceil = s.event_bonus.total_ceil();
    CardIntermediate {
        game_card_id: s.master.id,
        card_rarity_type: s.master.card_rarity_type,
        character_id,
        attr: s.attr,
        unit_mask_raw: s.unit_mask,
        default_image: image,
        after_training: s.after_training,
        skill_state_controls_image: c.skill_state_controls_image,
        master_rank: s.user_card.master_rank,
        skill_level: s.user_card.skill_level,
        power: copy_power(p),
        skill: opt.1,
        event_bonus: s.event_bonus,
        has_char_bonus: s.has_char_bonus,
        has_attr_bonus: s.has_attr_bonus,
        leader_honor_bonus: s.leader_honor_bonus,
        leader_limit_bonus: s.leader_limit_bonus,
        ep_sort_key: p.power_max as i64 + ceil as i64 * 1000,
    }
}

proof fn lemma_option_list_prefix(cards: Seq<PreparedCardBuild>, n: int)
    requires
        0 <= n < cards.len(),
    ensures
        option_list(cards.subrange(0, n + 1)) == ({
            let rest = option_list(cards.subrange(0, n));
            let opts = cards[n].skill_options@;
            let with0 = if opts.len() > 0 && opts[0] is Some { rest.push((n, opts[0]->0)) } else { rest };
            if opts.len() > 1 && opts[1] is Some { with0.push((n, opts[1]->0)) } else { with0 }
        }),
{
    assert(cards.subrange(0, n + 1).drop_last() =~= cards.subrange(0, n));
}

/// Expands the prepared cards into candidates, one per skill state.
#[verifier::loop_isolation(false)]
pub fn expand_candidates(cards: &Vec<PreparedCardBuild>, powers: &Vec<PowerResult>) -> (r: Vec<CardIntermediate>)
    ensures
        expanded_ok(r@, cards@, powers@),
{
    let n = if cards.len() <= powers.len() { cards.len() } else { powers.len() };
    let mut out: Vec<CardIntermediate> = Vec::new();
    let mut j: usize = 0;
    while j < n
        invariant
            j <= n,
            n <= cards@.len(),
            n <= powers@.len(),
            out@.len() == option_list(cards@.subrange(0, j as int)).len(),
            forall|i: int| 0 <= i < out@.len() ==> #[trigger] candidate_ok(
                out@[i],
                cards@[option_list(cards@.subrange(0, j as int))[i].0],
                powers@[option_list(cards@.subrange(0, j as int))[i].0],
                option_list(cards@.subrange(0, j as int))[i].1,
            ),
            forall|i: int| 0 <= i < option_list(cards@.subrange(0, j as int)).len() ==> 0 <= #[trigger] option_list(cards@.subrange(0, j as int))[i].0 < j,
        decreases n - j,
    {
        proof { lemma_option_list_prefix(cards@, j as int); }
        let ghost prev_list = option_list(cards@.subrange(0, j as int));
        let ghost prev_out = out@;
        let c = &cards[j];
        let p = &powers[j];
        let opts = &c.skill_options;
        if opts.len() > 0 {
            if let Some(o) = opts[0] {
                out.push(make_candidate(c, p, o));
            }
        }
        let ghost mid_out = out@;
        let ghost mid_list = if opts@.len() > 0 && opts@[0] is Some { prev_list.push((j as int, opts@[0]->0)) } else { prev_list };
        assert(mid_out.len() == mid_list.len());
        assert forall|i: int| 0 <= i < mid_out.len() implies #[trigger] candidate_ok(
            mid_out[i], cards@[mid_list[i].0], powers@[mid_list[i].0], mid_list[i].1,
        ) by {
            if i < prev_out.len() {
                assert(mid_out[i] == prev_out[i]);
                assert(mid_list[i] == prev_list[i]);
            }
        }
        if opts.len() > 1 {
            if let Some(o) = opts[1] {
                out.push(make_candidate(c, p, o));
            }
        }
        proof {
            let new_list = option_list(cards@.subrange(0, j + 1));
            assert(out@.len() == new_list.len());
            assert forall|i: int| 0 <= i < out@.len() implies #[trigger] candidate_ok(
                out@[i], cards@[new_list[i].0], powers@[new_list[i].0], new_list[i].1,
            ) by {
                if i < mid_out.len() {
                    assert(out@[i] == mid_out[i]);
                    assert(new_list[i] == mid_list[i]);
                }
            }
            assert forall|i: int| 0 <= i < new_list.len() implies 0 <= #[trigger] new_list[i].0 < j + 1 by {
                if i < prev_list.len() {
                    assert(new_list[i] == prev_list[i]);
                }
            }
        }
        j = j + 1;
    }
    out
}


/// The support seeds of a build's candidates (see [`support_list`]).
#[verifier::loop_isolation(false)]
pub fn collect_support_seeds(
    cands: &Vec<CardIntermediate>,
    idx: &PoolIndexes,
    game: &GameData<'_>,
    params: &BuildParams,
    ctx: &Option<EventContext>,
) -> (r: Vec<SupportSeed>)
    requires
        indexes_wf(*idx, *game),
    ensures
        r@ == support_list(cands@, *idx, *game, *params, *ctx),
{
    let needs = match ctx {
        Some(c) => c.support_deck_count > 0 || is_world_bloom_finale_event(c.event_id),
        None => false,
    };
    let mut out: Vec<SupportSeed> = Vec::new();
    if !needs {
        return out;
    }
    let ghost all = Seq::new(cands@.len(), |i: int| spec_seed(cands@[i], *idx, *game, params.support_master_max, params.support_skill_max));
    let mut i: usize = 0;
    while i < cands.len()
        invariant
            i <= cands@.len(),
            out@ == dedup_seeds(all.subrange(0, i as int)),
        decreases cands@.len() - i,
    {
        let seed = support_seed_from_intermediate(&cands[i], idx, game, params.support_master_max, params.support_skill_max);
        assert(all.subrange(0, i + 1).drop_last() =~= all.subrange(0, i as int));
        assert(all.subrange(0, i + 1).last() == seed);
        let mut seen = false;
        let mut k: usize = 0;
        while k < out.len()
            invariant
                k <= out@.len(),
                seen == exists|t: int| 0 <= t < k && (#[trigger] out@[t]).card_id == seed.card_id,
            decreases out@.len() - k,
        {
            if out[k].card_id == seed.card_id {
                seen = true;
            }
            k = k + 1;
        }
        if !seen {
            out.push(seed);
        }
        i = i + 1;
    }
    assert(all.subrange(0, cands@.len() as int) =~= all);
    out
}

/// Candidates that pass the hard filters, then the event-group filter.
pub open spec fn filtered_candidates(s: Seq<CardIntermediate>, p: BuildParams, ctx: Option<EventContext>) -> Seq<CardIntermediate> {
    let s1 = keep_unmarked(s, Seq::new(s.len(), |i: int| !spec_keep_card(s[i], p)));
    keep_unmarked(s1, Seq::new(s1.len(), |i: int| !spec_event_unit_filter(s1[i].unit_mask_raw, p.filter_other_unit, ctx_filter_unit(ctx))))
}

/// Applies the hard filters and the event-group filter.
#[verifier::loop_isolation(false)]
pub fn filter_candidates(cards: &mut Vec<CardIntermediate>, params: &BuildParams, ctx: &Option<EventContext>)
    ensures
        final(cards)@ == filtered_candidates(old(cards)@, *params, *ctx),
{
    let filter_unit = match ctx {
        Some(c) => c.filter_unit,
        None => None,
    };
    let ghost s0 = cards@;
    let mut marks: Vec<bool> = Vec::new();
    let mut i: usize = 0;
    while i < cards.len()
        invariant
            i <= cards@.len(),
            cards@ == s0,
            marks@ == Seq::new(i as nat, |j: int| !spec_keep_card(s0[j], *params)),
        decreases cards@.len() - i,
    {
        let keep = keep_card(&cards[i], params);
        marks.push(!keep);
        assert(marks@ =~= Seq::new((i + 1) as nat, |j: int| !spec_keep_card(s0[j], *params)));
        i = i + 1;
    }
    drop_marked(cards, &marks);
    let ghost s1 = cards@;
    let mut marks2: Vec<bool> = Vec::new();
    let mut k: usize = 0;
    while k < cards.len()
        invariant
            k <= cards@.len(),
            cards@ == s1,
            filter_unit == ctx_filter_unit(*ctx),
            marks2@ == Seq::new(k as nat, |j: int| !spec_event_unit_filter(s1[j].unit_mask_raw, params.filter_other_unit, ctx_filter_unit(*ctx))),
        decreases cards@.len() - k,
    {
        let keep = event_unit_filter(cards[k].unit_mask_raw, params.filter_other_unit, filter_unit);
        marks2.push(!keep);
        assert(marks2@ =~= Seq::new((k + 1) as nat, |j: int| !spec_event_unit_filter(s1[j].unit_mask_raw, params.filter_other_unit, ctx_filter_unit(*ctx))));
        k = k + 1;
    }
    drop_marked(cards, &marks2);
}


/// The per-character bonus trim of a list (left alone up to 50 cards).
pub open spec fn pc_result(s: Seq<CardIntermediate>, p: BuildParams, keep: int, power_keep: int) -> Seq<CardIntermediate> {
    if s.len() <= EP_PREFILTER_MIN_POOL {
        s
    } else {
        keep_unmarked(s, pc_drops(s, p, keep, power_keep))
    }
}

/// Cards the bonus trim keeps per character after the late prefilter: 8 in
/// a finale, 6 otherwise.
pub open spec fn late_keep(ctx: Option<EventContext>) -> int {
    if is_finale_ctx(ctx) { (FINAL_CHAPTER_PER_CHAR_KEEP - 8) as int } else { PER_CHAR_KEEP as int }
}

/// The most powerful cards kept besides them: 8 in a World Bloom event or a
/// finale, none otherwise.
pub open spec fn late_power_keep(ctx: Option<EventContext>) -> int {
    if is_wb_ctx(ctx) || is_finale_ctx(ctx) { 8 } else { 0 }
}

/// Whether the ctx's event is a World Bloom event.
pub open spec fn is_wb_ctx(ctx: Option<EventContext>) -> bool {
    ctx matches Some(c) && c.event_type == EventType::WorldBloom
}

/// Whether the late bonus prefilter runs: with an event and no bonus target, for targets other
/// than power and skill, on more than 50 candidates of which one passes.
pub open spec fn late_ep_applies(s: Seq<CardIntermediate>, p: BuildParams, ctx: Option<EventContext>) -> bool {
    &&& ctx is Some
    &&& !bonus_tiers(p)
    &&& !spec_is_power_or_skill(p.target)
    &&& s.len() > EP_PREFILTER_MIN_POOL
    &&& exists|i: int| 0 <= i < s.len() && #[trigger] spec_ep_prefilter_keep(
        s[i].card_rarity_type, s[i].event_bonus, s[i].has_char_bonus, s[i].has_attr_bonus, is_wb_ctx(ctx), is_finale_ctx(ctx),
    )
}

/// Candidates that pass the late bonus prefilter.
pub open spec fn late_ep_kept(s: Seq<CardIntermediate>, p: BuildParams, ctx: Option<EventContext>) -> Seq<CardIntermediate> {
    keep_unmarked(s, Seq::new(s.len(), |i: int| !spec_ep_prefilter_keep_with_params(
        s[i].game_card_id, s[i].character_id as i32, s[i].card_rarity_type, s[i].event_bonus,
        s[i].has_char_bonus, s[i].has_attr_bonus, p, is_wb_ctx(ctx), is_finale_ctx(ctx),
    )))
}

/// The bonus stage: the per-character trim after an early prefilter; else,
/// when the late prefilter runs, that prefilter then the per-character trim
/// (see [`late_keep`] and [`late_power_keep`]).
pub open spec fn bonus_trimmed(s: Seq<CardIntermediate>, p: BuildParams, ctx: Option<EventContext>, applied: bool) -> Seq<CardIntermediate> {
    if applied {
        pc_result(s, p, PER_CHAR_KEEP as int, 0)
    } else if late_ep_applies(s, p, ctx) {
        pc_result(late_ep_kept(s, p, ctx), p, late_keep(ctx), late_power_keep(ctx))
    } else {
        s
    }
}

/// The general per-character trim of a list.
pub open spec fn general_trim_ok(before: Seq<CardIntermediate>, after: Seq<CardIntermediate>, p: BuildParams, keep: int) -> bool {
    exists|ord: Seq<usize>|
        is_order(ord, before.len() as int) && sorted_by_keys(ord, general_keys(before)) && after == keep_unmarked(
            in_order(before, ord),
            first_per_bucket_drops(in_order(before, ord), p, false, keep),
        )
}

/// The size stage: in a challenge live more than 19 candidates are trimmed
/// to 19 per character; otherwise, outside World Bloom, for targets other
/// than power and skill and not for an all-character challenge, more than
/// 400 candidates are trimmed to 10 per character.
pub open spec fn general_stage_ok(before: Seq<CardIntermediate>, after: Seq<CardIntermediate>, p: BuildParams, ctx: Option<EventContext>) -> bool {
    let challenge = spec_is_challenge(p.live_type);
    if challenge && before.len() > CHALLENGE_ALL_PER_CHAR_KEEP {
        general_trim_ok(before, after, p, CHALLENGE_ALL_PER_CHAR_KEEP as int)
    } else if !spec_is_power_or_skill(p.target) && !(challenge && p.challenge_live_character_id is None)
        && !is_finale_ctx(ctx) && !is_wb_ctx(ctx) && before.len() > GENERAL_TRIM_THRESHOLD {
        general_trim_ok(before, after, p, GENERAL_PER_CHAR_KEEP as int)
    } else {
        after == before
    }
}

/// The power/skill stage: more candidates than the pool holds are trimmed
/// to 10 per character by the target's own value.
pub open spec fn target_stage_ok(before: Seq<CardIntermediate>, after: Seq<CardIntermediate>, p: BuildParams) -> bool {
    if spec_is_power_or_skill(p.target) && before.len() > POOL_CAPACITY {
        exists|ord: Seq<usize>|
            is_order(ord, before.len() as int) && sorted_by_keys(ord, target_keys(before, p)) && after == keep_unmarked(
                in_order(before, ord),
                first_per_bucket_drops(in_order(before, ord), p, true, GENERAL_PER_CHAR_KEEP as int),
            )
    } else {
        after == before
    }
}

/// The three trims of a build's candidates.
pub open spec fn trims_ok(before: Seq<CardIntermediate>, after: Seq<CardIntermediate>, p: BuildParams, ctx: Option<EventContext>, applied: bool) -> bool {
    exists|mid: Seq<CardIntermediate>, mid2: Seq<CardIntermediate>|
        mid == bonus_trimmed(before, p, ctx, applied) && general_stage_ok(mid, mid2, p, ctx) && target_stage_ok(mid2, after, p)
}

/// Runs the three trims on a build's candidates.
#[verifier::loop_isolation(false)]
#[verifier::rlimit(80)]
pub fn trim_candidates(cards: &mut Vec<CardIntermediate>, params: &BuildParams, ctx: &Option<EventContext>, applied: bool)
    ensures
        trims_ok(old(cards)@, final(cards)@, *params, *ctx, applied),
{
    let is_wb = match ctx {
        Some(c) => c.event_type == EventType::WorldBloom,
        None => false,
    };
    let is_final = match ctx {
        Some(c) => is_world_bloom_finale_event(c.event_id),
        None => false,
    };
    assert(is_wb == is_wb_ctx(*ctx));
    assert(is_final == is_finale_ctx(*ctx));
    let ghost s0 = cards@;
    let pos = is_power_or_skill(params.target);
    if applied {
        per_character_trim(cards, params, PER_CHAR_KEEP, 0);
    } else if ctx.is_some() && !pos && params.target_bonus_list.len() == 0 && cards.len() > EP_PREFILTER_MIN_POOL {
        let mut any = false;
        let mut i: usize = 0;
        while i < cards.len()
            invariant
                i <= cards@.len(),
                cards@ == s0,
                any == exists|k: int| 0 <= k < i && #[trigger] spec_ep_prefilter_keep(
                    s0[k].card_rarity_type, s0[k].event_bonus, s0[k].has_char_bonus, s0[k].has_attr_bonus, is_wb, is_final,
                ),
            decreases cards@.len() - i,
        {
            let c = &cards[i];
            let hit = ep_prefilter_keep(c.card_rarity_type, &c.event_bonus, c.has_char_bonus, c.has_attr_bonus, is_wb, is_final);
            assert(hit == spec_ep_prefilter_keep(
                s0[i as int].card_rarity_type, s0[i as int].event_bonus, s0[i as int].has_char_bonus, s0[i as int].has_attr_bonus, is_wb, is_final,
            ));
            if hit {
                any = true;
            }
            i = i + 1;
        }
        if any {
            let mut marks: Vec<bool> = Vec::new();
            let mut k: usize = 0;
            while k < cards.len()
                invariant
                    k <= cards@.len(),
                    cards@ == s0,
                    marks@ == Seq::new(k as nat, |j: int| !spec_ep_prefilter_keep_with_params(
                        s0[j].game_card_id, s0[j].character_id as i32, s0[j].card_rarity_type, s0[j].event_bonus,
                        s0[j].has_char_bonus, s0[j].has_attr_bonus, *params, is_wb, is_final,
                    )),
                decreases cards@.len() - k,
            {
                let c = &cards[k];
                let keep = ep_prefilter_keep_with_params(
                    c.game_card_id, c.character_id as i32, c.card_rarity_type, &c.event_bonus,
                    c.has_char_bonus, c.has_attr_bonus, params, is_wb, is_final,
                );
                marks.push(!keep);
                assert(marks@ =~= Seq::new((k + 1) as nat, |j: int| !spec_ep_prefilter_keep_with_params(
                    s0[j].game_card_id, s0[j].character_id as i32, s0[j].card_rarity_type, s0[j].event_bonus,
                    s0[j].has_char_bonus, s0[j].has_attr_bonus, *params, is_wb, is_final,
                )));
                k = k + 1;
            }
            drop_marked(cards, &marks);
            let keep = if is_final { FINAL_CHAPTER_PER_CHAR_KEEP - 8 } else { PER_CHAR_KEEP };
            let power_keep: usize = if is_wb || is_final { 8 } else { 0 };
            per_character_trim(cards, params, keep, power_keep);
        }
    }
    let ghost mid = cards@;
    assert(mid == bonus_trimmed(s0, *params, *ctx, applied));
    let challenge = is_challenge(params.live_type);
    if challenge && cards.len() > CHALLENGE_ALL_PER_CHAR_KEEP {
        general_per_character_trim(cards, params, CHALLENGE_ALL_PER_CHAR_KEEP);
    } else if !pos && !(challenge && params.challenge_live_character_id.is_none()) && !is_final && !is_wb
        && cards.len() > GENERAL_TRIM_THRESHOLD {
        general_per_character_trim(cards, params, GENERAL_PER_CHAR_KEEP);
    }
    let ghost mid2 = cards@;
    assert(general_stage_ok(mid, mid2, *params, *ctx));
    if pos && cards.len() > POOL_CAPACITY {
        target_per_character_trim(cards, params);
    }
    assert(target_stage_ok(mid2, cards@, *params));
}


// ---------------------------------------------------------------------------
// The search context.

/// The five largest values seen, largest first, after one more value.
pub open spec fn first_below(t: Seq<u8>, v: u8, i: int) -> int
    decreases 5 - i,
{
    if i >= 4 || t[i] < v { i } else { first_below(t, v, i + 1) }
}

/// Inserts a value into a descending top-five list.
pub open spec fn insert_top(t: Seq<u8>, v: u8) -> Seq<u8> {
    if v <= t[4] {
        t
    } else {
        let i = first_below(t, v, 0);
        t.subrange(0, i) + seq![v] + t.subrange(i, 4)
    }
}

/// The five largest values of a list, largest first (zeros fill up).
pub open spec fn top_five(s: Seq<u8>) -> Seq<u8>
    decreases s.len(),
{
    if s.len() == 0 {
        seq![0u8, 0, 0, 0, 0]
    } else {
        insert_top(top_five(s.drop_last()), s.last())
    }
}

/// Sum of a list of small values.
pub open spec fn sum_u8(s: Seq<u8>) -> int
    decreases s.len(),
{
    if s.len() == 0 { 0 } else { sum_u8(s.drop_last()) + s.last() }
}

/// Sum of the bonuses of support cards.
pub open spec fn bonus_sum(s: Seq<(u16, u32)>) -> int
    decreases s.len(),
{
    if s.len() == 0 { 0 } else { bonus_sum(s.drop_last()) + s.last().1 }
}

/// Sum of the bonuses of the cards of a support deck that count.
pub open spec fn deck_top_sum(d: SupportDeck) -> int {
    let n = if (d.count as int) < d.cards@.len() { d.count as int } else { d.cards@.len() as int };
    bonus_sum(d.cards@.subrange(0, n))
}

/// Largest top sum over a list of support decks (0 for none).
pub open spec fn max_deck_sum(decks: Seq<SupportDeck>) -> int
    decreases decks.len(),
{
    if decks.len() == 0 {
        0
    } else {
        let m = max_deck_sum(decks.drop_last());
        let t = deck_top_sum(decks.last());
        if t > m { t } else { m }
    }
}

/// Largest value of a list (0 for none).
pub open spec fn max_u16(s: Seq<u16>) -> int
    decreases s.len(),
{
    if s.len() == 0 {
        0
    } else {
        let m = max_u16(s.drop_last());
        if s.last() > m { s.last() as int } else { m }
    }
}

/// Whole percents, rounded up, of hundredths of a percent.
pub open spec fn ceil_pct(x100: int) -> int {
    (x100 + 99) / 100
}

/// Leader the request names, kept outside a challenge live when it is a
/// real character.
pub open spec fn forced_leader(p: BuildParams) -> Option<u8> {
    if spec_is_challenge(p.live_type) {
        None
    } else {
        match p.forced_leader_character_id {
            Some(id) => if 1 <= id <= 26 { Some(id as u8) } else { None },
            None => None,
        }
    }
}

/// The search context of a build (everything but its title bonus).
pub open spec fn search_ctx_ok(
    sc: SearchContext,
    sorted: Seq<CardIntermediate>,
    seeds: Seq<SupportSeed>,
    game: GameData<'_>,
    p: BuildParams,
    ctx: Option<EventContext>,
    music: Option<MusicParams>,
    fixed_cards: Seq<u16>,
    fixed_chars: Seq<u8>,
) -> bool {
    let diff: Seq<u16> = match ctx { Some(c) => c.diff_attr_bonus@, None => Seq::new(6, |k: int| 0u16) };
    let extra = max_u16(diff) + ceil_pct(deck_top_sum(sc.support_deck)) + ceil_pct(max_deck_sum(sc.support_decks_by_character@));
    &&& sc.target == p.target
    &&& sc.fixed_card_ids@ == fixed_cards
    &&& sc.fixed_character_ids@ == fixed_chars
    &&& sc.forced_leader_character_id == forced_leader(p)
    &&& sc.music_rate_pct == (match music { Some(m) => m.event_rate_pct, None => 100 })
    &&& sc.boost_rate_pct == spec_boost_rate_pct(p.boost)
    &&& sc.base_score_micro == (match music { Some(m) => m.meta.base_score_micro, None => 1_000_000 })
    &&& sc.base_score_auto_micro == (match music { Some(m) => m.meta.base_score_auto_micro, None => 1_000_000 })
    &&& sc.fever_score_micro == (match music { Some(m) => m.meta.fever_score_micro, None => 0 })
    &&& sc.skill_scores_micro == (match music {
        Some(m) => [m.meta.solo_skill_scores_micro, m.meta.multi_skill_scores_micro, m.meta.auto_skill_scores_micro],
        None => [[0i64, 0, 0, 0, 0, 0], [0i64, 0, 0, 0, 0, 0], [0i64, 0, 0, 0, 0, 0]],
    })
    &&& sc.other_score == (match p.other_score { Some(s) => s, None => 0 })
    &&& sc.life == (match p.life { Some(l) => l, None => 1000 })
    &&& sc.diff_attr_bonus@ == diff
    &&& deck_matches(sc.support_deck, seeds, game, ctx, None)
    &&& sc.support_decks_by_character@.len() == 27
    &&& forall|ch: int| 0 <= ch < 27 ==> (if 1 <= ch <= 26 && finale_ctx(ctx) {
        deck_matches(#[trigger] sc.support_decks_by_character@[ch], seeds, game, ctx, Some(ch as i32))
    } else {
        sc.support_decks_by_character@[ch].cards@.len() == 0 && sc.support_decks_by_character@[ch].count == 0
    })
    &&& sc.is_world_bloom == is_wb_ctx(ctx)
    &&& sc.is_final_chapter == is_finale_ctx(ctx)
    &&& sc.enforce_char_uniqueness == !spec_is_challenge(p.live_type)
    &&& sc.minimize == p.minimize
    &&& sc.live_type == p.live_type
    &&& sc.event_type == (match ctx { Some(c) => Some(c.event_type), None => None })
    &&& sc.keep_after_training_state == p.keep_after_training_state
    &&& sc.skill_reference_strategy == p.skill_reference_strategy
    &&& sc.best_skill_as_leader == p.best_skill_as_leader
    &&& sc.live_skill_order == p.live_skill_order
    &&& sc.specific_skill_order == p.specific_skill_order
    &&& sc.multi_teammate_score_up == p.multi_teammate_score_up
    &&& sc.multi_teammate_power == p.multi_teammate_power
    &&& sc.multi_live_score_up_lower_bound_micro == p.multi_live_score_up_lower_bound_micro
    &&& sc.extra_bonus_ub == (if extra > u32::MAX { u32::MAX as int } else { extra })
    &&& sc.skill_ub_global == sum_u8(top_five(Seq::new(sorted.len(), |k: int| sorted[k].skill.skill_max)))
    &&& sc.card_bonus_count_limit == (match ctx { Some(c) => c.card_bonus_count_limit, None => 5 })
    &&& sc.power_total_cap == (if is_wb_ctx(ctx) && ctx->0.world_bloom_event_turn == Some(3i32) { Some(336000u32) } else { None })
    &&& sc.leader_honor_bonus@ == Seq::new(sorted.len(), |k: int| sorted[k].leader_honor_bonus)
    &&& sc.leader_limit_bonus@ == Seq::new(sorted.len(), |k: int| sorted[k].leader_limit_bonus)
    &&& sc.skill_is_after_training@ == Seq::new(sorted.len(), |k: int| sorted[k].skill.full.is_after_training)
    &&& sc.trained_to_special_image@ == Seq::new(sorted.len(), |k: int| sorted[k].default_image == DefaultImage::SpecialTraining)
    &&& sc.final_chapter_member_keep@ == Seq::new(sorted.len(), |k: int| true)
}

proof fn lemma_first_below(t: Seq<u8>, v: u8, i: int)
    requires
        0 <= i <= 4,
        t.len() == 5,
    ensures
        i <= first_below(t, v, i) <= 4,
    decreases 5 - i,
{
    if i < 4 && !(t[i] < v) {
        lemma_first_below(t, v, i + 1);
    }
}

proof fn lemma_top_five_len(s: Seq<u8>)
    ensures
        top_five(s).len() == 5,
    decreases s.len(),
{
    if s.len() > 0 {
        lemma_top_five_len(s.drop_last());
        let t = top_five(s.drop_last());
        if !(s.last() <= t[4]) {
            lemma_first_below(t, s.last(), 0);
        }
    }
}

fn insert_top_exec(t: &Vec<u8>, x: u8) -> (r: Vec<u8>)
    requires
        t@.len() == 5,
    ensures
        r@ == insert_top(t@, x),
{
    let mut r: Vec<u8> = Vec::new();
    if x <= t[4] {
        let mut k: usize = 0;
        while k < 5
            invariant
                k <= 5,
                t@.len() == 5,
                r@ == t@.subrange(0, k as int),
            decreases 5 - k,
        {
            r.push(t[k]);
            assert(r@ =~= t@.subrange(0, k + 1));
            k = k + 1;
        }
        assert(t@.subrange(0, 5) =~= t@);
        return r;
    }
    let mut i: usize = 0;
    while i < 4 && !(t[i] < x)
        invariant
            i <= 4,
            t@.len() == 5,
            first_below(t@, x, 0) == first_below(t@, x, i as int),
        decreases 4 - i,
    {
        i = i + 1;
    }
    assert(first_below(t@, x, i as int) == i);
    let ghost want = t@.subrange(0, i as int) + seq![x] + t@.subrange(i as int, 4);
    let mut k: usize = 0;
    while k < 5
        invariant
            k <= 5,
            i <= 4,
            t@.len() == 5,
            want.len() == 5,
            want == t@.subrange(0, i as int) + seq![x] + t@.subrange(i as int, 4),
            r@ == want.subrange(0, k as int),
        decreases 5 - k,
    {
        let v = if k < i { t[k] } else if k == i { x } else { t[k - 1] };
        assert(v == want[k as int]);
        r.push(v);
        assert(r@ =~= want.subrange(0, k + 1));
        k = k + 1;
    }
    assert(want.subrange(0, 5) =~= want);
    r
}

fn top_five_exec(v: &Vec<u8>) -> (r: Vec<u8>)
    ensures
        r@ == top_five(v@),
        r@.len() == 5,
{
    let mut t: Vec<u8> = Vec::new();
    t.push(0);
    t.push(0);
    t.push(0);
    t.push(0);
    t.push(0);
    assert(t@ =~= top_five(v@.subrange(0, 0)));
    let mut i: usize = 0;
    while i < v.len()
        invariant
            i <= v@.len(),
            t@ == top_five(v@.subrange(0, i as int)),
            t@.len() == 5,
        decreases v@.len() - i,
    {
        assert(v@.subrange(0, i + 1).drop_last() =~= v@.subrange(0, i as int));
        t = insert_top_exec(&t, v[i]);
        proof { lemma_top_five_len(v@.subrange(0, i + 1)); }
        i = i + 1;
    }
    assert(v@.subrange(0, v@.len() as int) =~= v@);
    t
}

fn sum_five(t: &Vec<u8>) -> (r: u32)
    requires
        t@.len() == 5,
    ensures
        r == sum_u8(t@),
{
    let mut acc: u32 = 0;
    let mut k: usize = 0;
    while k < 5
        invariant
            k <= 5,
            t@.len() == 5,
            acc == sum_u8(t@.subrange(0, k as int)),
            acc <= 255 * k,
        decreases 5 - k,
    {
        assert(t@.subrange(0, k + 1).drop_last() =~= t@.subrange(0, k as int));
        acc = acc + t[k] as u32;
        k = k + 1;
    }
    assert(t@.subrange(0, 5) =~= t@);
    acc
}

fn deck_top_sum_exec(d: &SupportDeck) -> (r: u64)
    ensures
        r == deck_top_sum(*d),
        r <= 255 * 0xffff_ffff,
{
    let n: usize = if (d.count as usize) < d.cards.len() { d.count as usize } else { d.cards.len() };
    let mut acc: u64 = 0;
    let mut k: usize = 0;
    while k < n
        invariant
            k <= n,
            n <= d.cards@.len(),
            n <= 255,
            n == (if (d.count as int) < d.cards@.len() { d.count as int } else { d.cards@.len() as int }),
            acc == bonus_sum(d.cards@.subrange(0, k as int)),
            acc <= k * 0xffff_ffff,
        decreases n - k,
    {
        assert(d.cards@.subrange(0, k + 1).drop_last() =~= d.cards@.subrange(0, k as int));
        acc = acc + d.cards[k].1 as u64;
        k = k + 1;
    }
    acc
}

fn max_deck_sum_exec(decks: &Vec<SupportDeck>) -> (r: u64)
    ensures
        r == max_deck_sum(decks@),
        r <= 255 * 0xffff_ffff,
{
    let mut m: u64 = 0;
    let mut i: usize = 0;
    while i < decks.len()
        invariant
            i <= decks@.len(),
            m == max_deck_sum(decks@.subrange(0, i as int)),
            m <= 255 * 0xffff_ffff,
        decreases decks@.len() - i,
    {
        assert(decks@.subrange(0, i + 1).drop_last() =~= decks@.subrange(0, i as int));
        let t = deck_top_sum_exec(&decks[i]);
        if t > m {
            m = t;
        }
        i = i + 1;
    }
    assert(decks@.subrange(0, decks@.len() as int) =~= decks@);
    m
}

fn copy_diff(ctx: &Option<EventContext>) -> (r: Vec<u16>)
    ensures
        r@ == (match *ctx { Some(c) => c.diff_attr_bonus@, None => Seq::new(6, |k: int| 0u16) }),
{
    let mut out: Vec<u16> = Vec::new();
    match ctx {
        Some(c) => {
            let mut i: usize = 0;
            while i < c.diff_attr_bonus.len()
                invariant
                    i <= c.diff_attr_bonus@.len(),
                    out@ == c.diff_attr_bonus@.subrange(0, i as int),
                decreases c.diff_attr_bonus@.len() - i,
            {
                out.push(c.diff_attr_bonus[i]);
                assert(out@ =~= c.diff_attr_bonus@.subrange(0, i + 1));
                i = i + 1;
            }
            assert(c.diff_attr_bonus@.subrange(0, c.diff_attr_bonus@.len() as int) =~= c.diff_attr_bonus@);
        },
        None => {
            let mut k: usize = 0;
            while k < 6
                invariant
                    k <= 6,
                    out@ == Seq::new(k as nat, |j: int| 0u16),
                decreases 6 - k,
            {
                out.push(0);
                assert(out@ =~= Seq::new((k + 1) as nat, |j: int| 0u16));
                k = k + 1;
            }
        },
    }
    out
}

fn max_u16_exec(v: &Vec<u16>) -> (r: u16)
    ensures
        r == max_u16(v@),
{
    let mut m: u16 = 0;
    let mut i: usize = 0;
    while i < v.len()
        invariant
            i <= v@.len(),
            m == max_u16(v@.subrange(0, i as int)),
        decreases v@.len() - i,
    {
        assert(v@.subrange(0, i + 1).drop_last() =~= v@.subrange(0, i as int));
        if v[i] > m {
            m = v[i];
        }
        i = i + 1;
    }
    assert(v@.subrange(0, v@.len() as int) =~= v@);
    m
}

fn all_true(n: usize) -> (r: Vec<bool>)
    ensures
        r@ == Seq::new(n as nat, |k: int| true),
{
    let mut out: Vec<bool> = Vec::new();
    let mut k: usize = 0;
    while k < n
        invariant
            k <= n,
            out@ == Seq::new(k as nat, |j: int| true),
        decreases n - k,
    {
        out.push(true);
        assert(out@ =~= Seq::new((k + 1) as nat, |j: int| true));
        k = k + 1;
    }
    out
}

/// Assembles the search context of a build from its sorted candidates.
#[verifier::rlimit(40)]
fn build_search_context(
    gathered: GatheredContext,
    Ghost(sorted): Ghost<Seq<CardIntermediate>>,
    seeds: &Vec<SupportSeed>,
    game: &GameData<'_>,
    params: &BuildParams,
    ctx: &Option<EventContext>,
    music: &Option<MusicParams>,
    fixed_cards: Vec<u16>,
    fixed_chars: Vec<u8>,
) -> (r: SearchContext)
    requires
        gathered_of(sorted, gathered),
    ensures
        search_ctx_ok(r, sorted, seeds@, *game, *params, *ctx, *music, fixed_cards@, fixed_chars@),
        r.honor_bonus == 0,
{
    let n = gathered.skill_max.len();
    let support_deck = build_support_deck(seeds, game, ctx, None);
    let by_char = build_final_chapter_support_decks(seeds, game, ctx);
    let diff = copy_diff(ctx);
    let top = deck_top_sum_exec(&support_deck);
    let best = max_deck_sum_exec(&by_char);
    let md = max_u16_exec(&diff);
    let extra: u64 = md as u64 + (top + 99) / 100 + (best + 99) / 100;
    let extra_bonus_ub: u32 = if extra > 4294967295 { 4294967295 } else { extra as u32 };
    let t5 = top_five_exec(&gathered.skill_max);
    assert(gathered.skill_max@ =~= Seq::new(sorted.len(), |k: int| sorted[k].skill.skill_max));
    let skill_ub = sum_five(&t5);
    let finale = match ctx {
        Some(c) => is_world_bloom_finale_event(c.event_id),
        None => false,
    };
    let is_wb = match ctx {
        Some(c) => c.event_type == EventType::WorldBloom,
        None => false,
    };
    let challenge = is_challenge(params.live_type);
    let forced = if challenge {
        None
    } else {
        match params.forced_leader_character_id {
            Some(id) => if 1 <= id && id <= 26 { Some(id as u8) } else { None },
            None => None,
        }
    };
    let (rate, base, base_auto, fever, scores) = match music {
        Some(m) => (
            m.event_rate_pct,
            m.meta.base_score_micro,
            m.meta.base_score_auto_micro,
            m.meta.fever_score_micro,
            [m.meta.solo_skill_scores_micro, m.meta.multi_skill_scores_micro, m.meta.auto_skill_scores_micro],
        ),
        None => (100, 1_000_000, 1_000_000, 0, [[0i64, 0, 0, 0, 0, 0], [0i64, 0, 0, 0, 0, 0], [0i64, 0, 0, 0, 0, 0]]),
    };
    let cap = match ctx {
        Some(c) => if c.event_type == EventType::WorldBloom && c.world_bloom_event_turn == Some(3) { Some(336000u32) } else { None },
        None => None,
    };
    SearchContext {
        target: params.target,
        fixed_card_ids: fixed_cards,
        fixed_character_ids: fixed_chars,
        forced_leader_character_id: forced,
        music_rate_pct: rate,
        boost_rate_pct: normalize_boost_rate_pct(params.boost),
        base_score_micro: base,
        base_score_auto_micro: base_auto,
        fever_score_micro: fever,
        skill_scores_micro: scores,
        other_score: match params.other_score { Some(s) => s, None => 0 },
        life: match params.life { Some(l) => l, None => 1000 },
        diff_attr_bonus: diff,
        support_deck,
        support_decks_by_character: by_char,
        is_world_bloom: is_wb,
        is_final_chapter: finale,
        enforce_char_uniqueness: !challenge,
        minimize: params.minimize,
        live_type: params.live_type,
        event_type: match ctx { Some(c) => Some(c.event_type), None => None },
        keep_after_training_state: params.keep_after_training_state,
        skill_reference_strategy: params.skill_reference_strategy,
        best_skill_as_leader: params.best_skill_as_leader,
        live_skill_order: params.live_skill_order,
        specific_skill_order: params.specific_skill_order,
        multi_teammate_score_up: params.multi_teammate_score_up,
        multi_teammate_power: params.multi_teammate_power,
        multi_live_score_up_lower_bound_micro: params.multi_live_score_up_lower_bound_micro,
        extra_bonus_ub,
        skill_ub_global: skill_ub,
        card_bonus_count_limit: match ctx { Some(c) => c.card_bonus_count_limit, None => 5 },
        honor_bonus: 0,
        power_total_cap: cap,
        leader_honor_bonus: gathered.leader_honor_bonus,
        leader_limit_bonus: gathered.leader_limit_bonus,
        final_chapter_member_keep: all_true(n),
        skill_is_after_training: gathered.skill_is_after_training,
        trained_to_special_image: gathered.trained_to_special_image,
    }
}


// ---------------------------------------------------------------------------
// Pool builds.

/// Fixed character slots of a build: the request's fixed characters, then
/// the named leader's character when no fixed card or character covers it.
pub open spec fn fixed_chars_of(p: BuildParams, cands: Seq<CardIntermediate>) -> Seq<u8> {
    match leader_needs_slot(p, cands) {
        Some(c) => Seq::new(p.fixed_characters@.len(), |k: int| p.fixed_characters@[k] as u8).push(c),
        None => Seq::new(p.fixed_characters@.len(), |k: int| p.fixed_characters@[k] as u8),
    }
}

/// Fixed card slots of a build.
pub open spec fn fixed_cards_of(p: BuildParams) -> Seq<u16> {
    Seq::new(p.fixed_cards@.len(), |k: int| p.fixed_cards@[k] as u16)
}

/// The end of a build from its trimmed candidates: no candidate is an
/// empty pool; a fixed-slot problem its error; more candidates than the
/// pool holds too many; otherwise the sorted pool, its display rows (when
/// asked for) and its search context.
pub open spec fn pool_result_ok(
    r: Result<(CardPool, SearchContext, Vec<FullPrecisionCard>), BuildError>,
    cands: Seq<CardIntermediate>,
    seeds: Seq<SupportSeed>,
    game: GameData<'_>,
    b: PreparedPoolBuild,
    include_details: bool,
) -> bool {
    let p = *b.params;
    if cands.len() == 0 {
        r matches Err(BuildError::EmptyPool)
    } else if fixed_issue(p, cands) is Some {
        r matches Err(e) && fixed_issue_error(fixed_issue(p, cands)->0, e)
    } else if cands.len() > POOL_CAPACITY {
        r matches Err(BuildError::TooManyCards(n)) && n == cands.len()
    } else {
        r matches Ok((pool, sc, full)) && exists|ord: Seq<usize>|
            #![trigger is_order(ord, cands.len() as int)]
            is_order(ord, cands.len() as int)
                && sorted_by_keys(ord, gather_keys(cands, p.target, b.event_ctx is Some, fixed_cards_of(p), fixed_chars_of(p, cands)))
                && pool_of(in_order(cands, ord), pool)
                && full@ == (if include_details { Seq::new(cands.len(), |k: int| full_of(in_order(cands, ord)[k])) } else { Seq::empty() })
                && search_ctx_ok(sc, in_order(cands, ord), seeds, game, p, b.event_ctx, b.music, fixed_cards_of(p), fixed_chars_of(p, cands))
                && sc.honor_bonus == b.honor_bonus
    }
}

/// A pool build from a preparation: the candidates of every prepared card,
/// filtered and trimmed, then packed (see [`pool_result_ok`]).
pub open spec fn pool_outcome(
    r: Result<(CardPool, SearchContext, Vec<FullPrecisionCard>), BuildError>,
    prepared: PreparedGameData<'_>,
    b: PreparedPoolBuild,
    include_details: bool,
) -> bool {
    exists|s: Seq<CardIntermediate>, after: Seq<CardIntermediate>|
        expanded_ok(s, b.cards@, b.powers@) && trims_ok(
            filtered_candidates(s, *b.params, b.event_ctx),
            after,
            *b.params,
            b.event_ctx,
            b.ep_prefilter_applied,
        ) && pool_result_ok(r, after, support_list(s, prepared.indexes, prepared.game, *b.params, b.event_ctx), prepared.game, b, include_details)
}

/// Builds the pool of a preparation (see [`pool_outcome`]).
#[verifier::loop_isolation(false)]
#[verifier::rlimit(60)]
#[verifier::spinoff_prover]
pub fn build_card_pool_fully_prepared_internal(
    prepared: &PreparedGameData<'_>,
    build: &PreparedPoolBuild<'_>,
    include_details: bool,
) -> (r: Result<(CardPool, SearchContext, Vec<FullPrecisionCard>), BuildError>)
    requires
        indexes_wf(prepared.indexes, prepared.game),
    ensures
        pool_outcome(r, *prepared, *build, include_details),
{
    let game = prepared.game();
    let params = build.params;
    let ctx = &build.event_ctx;
    let mut cards = expand_candidates(&build.cards, &build.powers);
    let ghost s = cards@;
    let seeds = collect_support_seeds(&cards, &prepared.indexes, game, params, ctx);
    filter_candidates(&mut cards, params, ctx);
    let ghost filtered = cards@;
    trim_candidates(&mut cards, params, ctx, build.ep_prefilter_applied);
    let ghost after = cards@;
    assert(trims_ok(filtered, after, *params, *ctx, build.ep_prefilter_applied));
    if cards.len() == 0 {
        let r = Err(BuildError::EmptyPool);
        assert(pool_result_ok(r, after, seeds@, *game, *build, include_details));
        return r;
    }
    let (fc, fch) = match validate_fixed_constraints(params, cards.as_slice()) {
        Ok(x) => x,
        Err(e) => {
            let r = Err(e);
            assert(pool_result_ok(r, after, seeds@, *game, *build, include_details));
            return r;
        },
    };
    if cards.len() > POOL_CAPACITY {
        let r = Err(BuildError::TooManyCards(cards.len()));
        assert(pool_result_ok(r, after, seeds@, *game, *build, include_details));
        return r;
    }
    let effective = if params.live_type == LiveType::Multi && match ctx {
        Some(c) => c.event_type == EventType::CheerfulCarnival,
        None => false,
    } {
        LiveType::Cheerful
    } else {
        params.live_type
    };
    let (pool, full, g) = sort_and_gather(cards, params.target, ctx.is_some(), effective, &fc, &fch, include_details);
    let ghost ord = choose|ord: Seq<usize>|
        is_order(ord, after.len() as int) && sorted_by_keys(ord, gather_keys(after, params.target, ctx is Some, fc@, fch@))
            && pool_of(in_order(after, ord), pool) && gathered_of(in_order(after, ord), g) && full@ == (if include_details {
            Seq::new(after.len(), |k: int| full_of(in_order(after, ord)[k]))
        } else {
            Seq::empty()
        });
    let ghost fc_v = fc@;
    let ghost fch_v = fch@;
    let mut sc = build_search_context(g, Ghost(in_order(after, ord)), &seeds, game, params, ctx, &build.music, fc, fch);
    sc.honor_bonus = build.honor_bonus;
    let r = Ok((pool, sc, full));
    assert(fc_v == fixed_cards_of(*params));
    assert(fch_v == fixed_chars_of(*params, after));
    assert(pool_result_ok(r, after, seeds@, *game, *build, include_details));
    r
}


/// The error a request-level problem is reported with.
pub open spec fn request_error_ok<T>(r: Result<T, BuildError>, issue: RequestIssue) -> bool {
    match issue {
        RequestIssue::Param(i) => r matches Err(BuildError::InvalidConfig(m)) && m@ == issue_message(i),
        RequestIssue::WorldBloomTurn => r matches Err(BuildError::InvalidConfig(_)),
        RequestIssue::BonusNeedsEvent => r matches Err(BuildError::InvalidConfig(m)) && m@ == bonus_needs_event_message(),
        RequestIssue::BonusInFinale => r matches Err(BuildError::InvalidConfig(m)) && m@ == bonus_in_finale_message(),
    }
}

/// A whole build for one player: the request's problem if it has one, else
/// a preparation (see [`prepared_ok`]) and its pool (see [`pool_outcome`]),
/// or the skill error that stopped the preparation.
pub open spec fn build_outcome(
    r: Result<(CardPool, SearchContext, Vec<FullPrecisionCard>), BuildError>,
    user: UserProfile,
    prepared: PreparedGameData<'_>,
    p: BuildParams,
    include_details: bool,
) -> bool {
    match request_issue(prepared.game, p) {
        Some(issue) => request_error_ok(r, issue),
        None => (exists|b: PreparedPoolBuild| prepared_ok(b, user, prepared.game, p) && pool_outcome(r, prepared, b, include_details))
            || (r matches Err(e) && prepare_skill_failure(e, user, prepared.game, p)),
    }
}

/// A pool and search context without the display rows.
pub open spec fn without_details(
    r: Result<(CardPool, SearchContext, Vec<FullPrecisionCard>), BuildError>,
) -> Result<(CardPool, SearchContext), BuildError> {
    match r {
        Ok((pool, sc, _)) => Ok((pool, sc)),
        Err(e) => Err(e),
    }
}

fn drop_details(r: Result<(CardPool, SearchContext, Vec<FullPrecisionCard>), BuildError>) -> (out: Result<(CardPool, SearchContext), BuildError>)
    ensures
        out == without_details(r),
{
    match r {
        Ok((pool, sc, _)) => Ok((pool, sc)),
        Err(e) => Err(e),
    }
}

/// Builds the pool of a preparation (see [`pool_outcome`]).
pub fn build_card_pool_fully_prepared(
    prepared: &PreparedGameData<'_>,
    build: &PreparedPoolBuild<'_>,
) -> (r: Result<(CardPool, SearchContext), BuildError>)
    requires
        indexes_wf(prepared.indexes, prepared.game),
    ensures
        exists|full: Result<(CardPool, SearchContext, Vec<FullPrecisionCard>), BuildError>|
            pool_outcome(full, *prepared, *build, false) && r == without_details(full),
{
    let full = build_card_pool_fully_prepared_internal(prepared, build, false);
    drop_details(full)
}

/// Builds the pool of a preparation with the display row of every pooled
/// card (see [`pool_outcome`]).
pub fn build_card_pool_with_details_fully_prepared(
    prepared: &PreparedGameData<'_>,
    build: &PreparedPoolBuild<'_>,
) -> (r: Result<(CardPool, SearchContext, Vec<FullPrecisionCard>), BuildError>)
    requires
        indexes_wf(prepared.indexes, prepared.game),
    ensures
        pool_outcome(r, *prepared, *build, true),
{
    build_card_pool_fully_prepared_internal(prepared, build, true)
}

fn build_prepared_internal(
    user: &UserProfile,
    prepared: &PreparedGameData<'_>,
    params: &BuildParams,
    include_details: bool,
) -> (r: Result<(CardPool, SearchContext, Vec<FullPrecisionCard>), BuildError>)
    requires
        prepare_defined(*user, *prepared, *params),
    ensures
        build_outcome(r, *user, *prepared, *params, include_details),
{
    let build = match PreparedPoolBuild::new(user, prepared, params) {
        Ok(b) => b,
        Err(e) => {
            let r = Err(e);
            assert(build_outcome(r, *user, *prepared, *params, include_details));
            return r;
        },
    };
    let r = build_card_pool_fully_prepared_internal(prepared, &build, include_details);
    assert(prepared_ok(build, *user, prepared.game, *params));
    r
}

/// Builds the pool of one request for one player, reusing prepared
/// masterdata (see [`build_outcome`]).
pub fn build_card_pool_prepared(
    user: &UserProfile,
    prepared: &PreparedGameData<'_>,
    params: &BuildParams,
) -> (r: Result<(CardPool, SearchContext), BuildError>)
    requires
        prepare_defined(*user, *prepared, *params),
    ensures
        exists|full: Result<(CardPool, SearchContext, Vec<FullPrecisionCard>), BuildError>|
            build_outcome(full, *user, *prepared, *params, false) && r == without_details(full),
{
    drop_details(build_prepared_internal(user, prepared, params, false))
}

/// Builds the pool of one request for one player with the display rows,
/// reusing prepared masterdata (see [`build_outcome`]).
pub fn build_card_pool_with_details_prepared(
    user: &UserProfile,
    prepared: &PreparedGameData<'_>,
    params: &BuildParams,
) -> (r: Result<(CardPool, SearchContext, Vec<FullPrecisionCard>), BuildError>)
    requires
        prepare_defined(*user, *prepared, *params),
    ensures
        build_outcome(r, *user, *prepared, *params, true),
{
    build_prepared_internal(user, prepared, params, true)
}

/// What a build from a bare snapshot asks of its inputs (see
/// [`prepare_defined`]).
pub open spec fn build_inputs_defined(user: UserProfile, game: GameData<'_>, p: BuildParams) -> bool {
    &&& build_defined(cards_in(user, p, game), game, p)
    &&& honor_total(user.user_honors@, game.honors@) <= u32::MAX
}

/// Builds the pool of one request for one player (see [`build_outcome`]).
pub fn build_card_pool(
    user: &UserProfile,
    game: &GameData<'_>,
    params: &BuildParams,
) -> (r: Result<(CardPool, SearchContext), BuildError>)
    requires
        build_inputs_defined(*user, *game, *params),
    ensures
        exists|prepared: PreparedGameData, full: Result<(CardPool, SearchContext, Vec<FullPrecisionCard>), BuildError>|
            prepared.game == *game && indexes_wf(prepared.indexes, *game)
                && build_outcome(full, *user, prepared, *params, false) && r == without_details(full),
{
    let prepared = PreparedGameData::new(*game);
    build_card_pool_prepared(user, &prepared, params)
}

/// Builds the pool of one request for one player with the display rows
/// (see [`build_outcome`]).
pub fn build_card_pool_with_details(
    user: &UserProfile,
    game: &GameData<'_>,
    params: &BuildParams,
) -> (r: Result<(CardPool, SearchContext, Vec<FullPrecisionCard>), BuildError>)
    requires
        build_inputs_defined(*user, *game, *params),
    ensures
        exists|prepared: PreparedGameData|
            prepared.game == *game && indexes_wf(prepared.indexes, *game)
                && build_outcome(r, *user, prepared, *params, true),
{
    let prepared = PreparedGameData::new(*game);
    build_card_pool_with_details_prepared(user, &prepared, params)
}


fn clamps_ok_exec(m: &MasterCard, c: &CardRarityConfig) -> (r: bool)
    ensures
        r == config_clamps_ok(m@, *c),
{
    let level_ok = match c.level {
        Some(l) => (match m.max_level { Some(x) => x, None => l }) >= 1,
        None => true,
    };
    let skill_ok = match c.skill_level {
        Some(s) => (match m.max_skill_level { Some(x) => x, None => s }) >= 1,
        None => true,
    };
    let rank_ok = match c.master_rank {
        Some(r) => (match m.max_master_rank { Some(x) => x, None => r }) >= 0,
        None => true,
    };
    level_ok && skill_ok && rank_ok
}

/// Whether a build from a bare snapshot can run (see
/// [`build_inputs_defined`]).
#[verifier::loop_isolation(false)]
pub fn build_inputs_ok(user: &UserProfile, game: &GameData<'_>, params: &BuildParams) -> (r: bool)
    ensures
        r == build_inputs_defined(*user, *game, *params),
{
    let idx = PoolIndexes::build(game);
    let configs = merged_configs(params);
    let input = input_cards(user, params, game);
    let ghost views = cards_in(*user, *params, *game);
    let mut i: usize = 0;
    while i < input.len()
        invariant
            i <= input@.len(),
            views.len() == input@.len(),
            indexes_wf(idx, *game),
            forall|j: int| 0 <= j < i ==> match first_card_pos(game.cards@, (#[trigger] views[j]).card_id) {
                None => true,
                Some(k) => config_clamps_ok(
                    enriched_at(*game, k),
                    request_card_config(*params, game.cards@[k].id, game.cards@[k].card_rarity_type),
                ),
            },
        decreases input@.len() - i,
    {
        assert(views[i as int] == input@[i as int]@);
        if let Some(k) = idx.card_index(game, input[i].card_id) {
            let m = &idx.cards[k].master;
            assert(card_data_matches(idx.cards@[k as int], game.cards@[k as int], *game));
            let c = match resolve_single_config(&configs, m.id) {
                Some(c) => c,
                None => config_for_rarity(&configs, m.card_rarity_type),
            };
            assert(c == request_card_config(*params, game.cards@[k as int].id, game.cards@[k as int].card_rarity_type));
            if !clamps_ok_exec(m, &c) {
                return false;
            }
        }
        i = i + 1;
    }
    assert(build_defined(views, *game, *params));
    let owned = &user.user_honors;
    let mut total: u64 = 0;
    let mut j: usize = 0;
    while j < owned.len()
        invariant
            j <= owned@.len(),
            total == honor_total(owned@.subrange(0, j as int), game.honors@),
            total <= u32::MAX,
        decreases owned@.len() - j,
    {
        assert(owned@.subrange(0, j + 1).drop_last() =~= owned@.subrange(0, j as int));
        total = total + honor_bonus(game.honors, owned[j].honor_id, owned[j].level) as u64;
        if total > 4294967295 {
            proof {
                lemma_honor_total_prefix(owned@, game.honors@, j + 1);
            }
            return false;
        }
        j = j + 1;
    }
    assert(owned@.subrange(0, owned@.len() as int) =~= owned@);
    true
}

} // verus!
