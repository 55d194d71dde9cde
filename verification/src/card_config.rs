//! Cultivation presets: which preset applies to a card and what it does to
//! the player's copy of that card.

use vstd::prelude::*;
use vstd::relations::{sorted_by, total_ordering};
use crate::data::{
    BuildParams, GameData, MasterLesson, UserProfile, CardConfigSet, CardEpisode, CardRarity, CardRarityConfig, MasterCard, MasterCardView,
    SingleCardConfig, UserCard, UserCardView,
};

verus! {

broadcast use vstd::seq_lib::group_to_multiset_ensures;

/// Ascending order on integers.
pub open spec fn le_i32() -> spec_fn(i32, i32) -> bool {
    |a: i32, b: i32| a <= b
}

/// The preset of a rarity: rarities 1 to 3 have their own, birthday cards
/// (rarity 5) the birthday preset, every other rarity the 4-star preset.
pub open spec fn spec_config_for_rarity(configs: CardConfigSet, rarity: i32) -> CardRarityConfig {
    if rarity == 1 {
        configs.rarity_1_config
    } else if rarity == 2 {
        configs.rarity_2_config
    } else if rarity == 3 {
        configs.rarity_3_config
    } else if rarity == 5 {
        configs.rarity_birthday_config
    } else {
        configs.rarity_4_config
    }
}

/// The preset of a rarity.
pub fn config_for_rarity(configs: &CardConfigSet, rarity: i32) -> (r: CardRarityConfig)
    ensures
        r == spec_config_for_rarity(*configs, rarity),
{
    if rarity == 1 {
        configs.rarity_1_config
    } else if rarity == 2 {
        configs.rarity_2_config
    } else if rarity == 3 {
        configs.rarity_3_config
    } else if rarity == 5 {
        configs.rarity_birthday_config
    } else {
        configs.rarity_4_config
    }
}

/// The first per-card override for a card id.
pub open spec fn find_single(s: Seq<SingleCardConfig>, card_id: i32) -> Option<CardRarityConfig>
    decreases s.len(),
{
    if s.len() == 0 {
        None
    } else if s[0].card_id == card_id {
        Some(s[0].config)
    } else {
        find_single(s.drop_first(), card_id)
    }
}

/// The first per-card override for a card id.
#[verifier::loop_isolation(false)]
pub fn resolve_single_config(configs: &CardConfigSet, card_id: i32) -> (r: Option<CardRarityConfig>)
    ensures
        r == find_single(configs.single_card_configs@, card_id),
{
    let s = &configs.single_card_configs;
    let mut i: usize = 0;
    assert(s@.subrange(0, s@.len() as int) =~= s@);
    while i < s.len()
        invariant
            i <= s@.len(),
            find_single(s@, card_id) == find_single(s@.subrange(i as int, s@.len() as int), card_id),
        decreases s@.len() - i,
    {
        assert(s@.subrange(i as int, s@.len() as int).len() > 0);
        assert(s@.subrange(i as int, s@.len() as int)[0] == s@[i as int]);
        if s[i].card_id == card_id {
            let found = s[i].config;
            assert(found == s@[i as int].config);
            assert(find_single(s@.subrange(i as int, s@.len() as int), card_id) == Some(found));
            return Some(found);
        }
        assert(s@.subrange(i as int, s@.len() as int).drop_first() =~= s@.subrange(i + 1, s@.len() as int));
        i = i + 1;
    }
    None
}

/// The preset that applies to a card: its per-card override, else its rarity's preset.
pub open spec fn spec_card_config(configs: CardConfigSet, card_id: i32, rarity: i32) -> CardRarityConfig {
    match find_single(configs.single_card_configs@, card_id) {
        Some(c) => c,
        None => spec_config_for_rarity(configs, rarity),
    }
}

/// Whether a card has a trained state: a trained skill, fixed trained power,
/// or rarity 3 or 4.
pub open spec fn spec_can_special_train(m: MasterCardView) -> bool {
    m.special_training_skill_id is Some || m.special_training_power1_bonus_fixed > 0
        || m.special_training_power2_bonus_fixed > 0 || m.special_training_power3_bonus_fixed > 0
        || m.card_rarity_type == 3 || m.card_rarity_type == 4
}

/// Whether a card has a trained state.
pub fn card_can_special_train(master: &MasterCard) -> (r: bool)
    ensures
        r == spec_can_special_train(master@),
{
    master.special_training_skill_id.is_some() || master.special_training_power1_bonus_fixed > 0
        || master.special_training_power2_bonus_fixed > 0
        || master.special_training_power3_bonus_fixed > 0 || master.card_rarity_type == 3
        || master.card_rarity_type == 4
}

/// `normal_max_level` of the first rarity row of a rarity type.
pub open spec fn find_normal_max(rarities: Seq<CardRarity>, rarity: i32) -> Option<i32>
    decreases rarities.len(),
{
    if rarities.len() == 0 {
        None
    } else if rarities[0].card_rarity_type == rarity {
        Some(rarities[0].normal_max_level)
    } else {
        find_normal_max(rarities.drop_first(), rarity)
    }
}

fn normal_max_level(rarities: &[CardRarity], rarity: i32) -> (r: Option<i32>)
    ensures
        r == find_normal_max(rarities@, rarity),
{
    let mut i: usize = 0;
    assert(rarities@.subrange(0, rarities@.len() as int) =~= rarities@);
    while i < rarities.len()
        invariant
            i <= rarities@.len(),
            find_normal_max(rarities@, rarity) == find_normal_max(
                rarities@.subrange(i as int, rarities@.len() as int),
                rarity,
            ),
        decreases rarities@.len() - i,
    {
        assert(rarities@.subrange(i as int, rarities@.len() as int)[0] == rarities@[i as int]);
        if rarities[i].card_rarity_type == rarity {
            return Some(rarities[i].normal_max_level);
        }
        assert(rarities@.subrange(i as int, rarities@.len() as int).drop_first()
            =~= rarities@.subrange(i + 1, rarities@.len() as int));
        i = i + 1;
    }
    None
}

/// Episode numbers of a card's side stories, in table order.
pub open spec fn card_episode_nos(episodes: Seq<CardEpisode>, card_id: i32) -> Seq<i32>
    decreases episodes.len(),
{
    if episodes.len() == 0 {
        Seq::empty()
    } else {
        let rest = card_episode_nos(episodes.drop_last(), card_id);
        if episodes.last().card_id == card_id {
            rest.push(episodes.last().episode_no)
        } else {
            rest
        }
    }
}

/// How many side stories a preset marks as read (`None`: no limit).
pub open spec fn episode_limit(c: CardRarityConfig) -> Option<nat> {
    match c.episode_read_count {
        Some(n) => if n >= 0 { Some(n as nat) } else { None },
        None => Some(2nat),
    }
}

/// The side stories a preset marks as read: the card's episode numbers in
/// ascending order, at most the preset's count of them.
pub open spec fn read_episodes(episodes: Seq<CardEpisode>, card_id: i32, c: CardRarityConfig) -> Seq<i32> {
    let sorted = card_episode_nos(episodes, card_id).sort_by(le_i32());
    match episode_limit(c) {
        Some(n) => if n < sorted.len() { sorted.take(n as int) } else { sorted },
        None => sorted,
    }
}

/// Whether the clamps of a preset are well defined for a card (their lower
/// bound does not exceed their upper bound).
pub open spec fn config_clamps_ok(m: MasterCardView, c: CardRarityConfig) -> bool {
    &&& (c.level matches Some(l) ==> (match m.max_level { Some(x) => x, None => l }) >= 1)
    &&& (c.skill_level matches Some(s) ==> (match m.max_skill_level { Some(x) => x, None => s }) >= 1)
    &&& (c.master_rank matches Some(r) ==> (match m.max_master_rank { Some(x) => x, None => r }) >= 0)
}

pub open spec fn clamp(v: i32, lo: i32, hi: i32) -> i32 {
    if v < lo { lo } else if v > hi { hi } else { v }
}

pub open spec fn max_i32(a: i32, b: i32) -> i32 {
    if a >= b { a } else { b }
}

/// Effect of the `level_max` flag.
pub open spec fn after_level_max(u: UserCardView, m: MasterCardView, c: CardRarityConfig) -> UserCardView {
    if c.level_max {
        let level = match m.max_level { Some(x) => max_i32(x, u.level), None => u.level };
        if spec_can_special_train(m) {
            UserCardView {
                level,
                special_training_status: "done"@,
                default_image: "special_training"@,
                ..u
            }
        } else {
            UserCardView { level, ..u }
        }
    } else {
        u
    }
}

/// Effect of an exact `level`: clamped to the card's cap, and trained exactly
/// when a trainable card goes past its rarity's untrained cap.
pub open spec fn after_level(
    u: UserCardView,
    m: MasterCardView,
    c: CardRarityConfig,
    rarities: Seq<CardRarity>,
) -> UserCardView {
    match c.level {
        Some(l) => {
            let max_level = match m.max_level { Some(x) => x, None => l };
            let level = clamp(l, 1, max_level);
            let normal_max = match find_normal_max(rarities, m.card_rarity_type) {
                Some(x) => x,
                None => max_level,
            };
            if spec_can_special_train(m) && level > normal_max {
                UserCardView {
                    level,
                    special_training_status: "done"@,
                    default_image: "special_training"@,
                    ..u
                }
            } else {
                UserCardView {
                    level,
                    special_training_status: "not_doing"@,
                    default_image: "original"@,
                    ..u
                }
            }
        },
        None => u,
    }
}

/// Effect of the skill-level and master-rank settings.
pub open spec fn after_skill_and_rank(u: UserCardView, m: MasterCardView, c: CardRarityConfig) -> UserCardView {
    let s1 = if c.skill_max {
        match m.max_skill_level { Some(x) => max_i32(x, u.skill_level), None => u.skill_level }
    } else {
        u.skill_level
    };
    let s2 = match c.skill_level {
        Some(s) => clamp(s, 1, match m.max_skill_level { Some(x) => x, None => s }),
        None => s1,
    };
    let r1 = if c.master_max {
        match m.max_master_rank { Some(x) => max_i32(x, u.master_rank), None => u.master_rank }
    } else {
        u.master_rank
    };
    let r2 = match c.master_rank {
        Some(r) => clamp(r, 0, match m.max_master_rank { Some(x) => x, None => r }),
        None => r1,
    };
    UserCardView { skill_level: s2, master_rank: r2, ..u }
}

/// Effect of the side-story and canvas settings.
pub open spec fn after_episodes_and_canvas(
    u: UserCardView,
    m: MasterCardView,
    c: CardRarityConfig,
    episodes: Seq<CardEpisode>,
) -> UserCardView {
    let u1 = if c.episode_read || c.episode_read_count is Some {
        UserCardView { episodes_read: read_episodes(episodes, m.id, c), ..u }
    } else {
        u
    };
    if c.canvas {
        UserCardView { has_canvas_bonus_override: Some(true), ..u1 }
    } else {
        u1
    }
}

/// The player's card after a (not disabled) preset.
pub open spec fn spec_apply_config(
    u: UserCardView,
    m: MasterCardView,
    c: CardRarityConfig,
    rarities: Seq<CardRarity>,
    episodes: Seq<CardEpisode>,
) -> UserCardView {
    after_episodes_and_canvas(
        after_skill_and_rank(after_level(after_level_max(u, m, c), m, c, rarities), m, c),
        m,
        c,
        episodes,
    )
}

/// Sorts integers into ascending order.
#[verifier::loop_isolation(false)]
pub fn sort_i32s(v: Vec<i32>) -> (r: Vec<i32>)
    ensures
        r@ == v@.sort_by(le_i32()),
{
    let mut out: Vec<i32> = Vec::new();
    let mut i: usize = 0;
    while i < v.len()
        invariant
            i <= v@.len(),
            sorted_by(out@, le_i32()),
            out@.to_multiset() == v@.subrange(0, i as int).to_multiset(),
        decreases v@.len() - i,
    {
        let x = v[i];
        let mut pos: usize = 0;
        while pos < out.len() && out[pos] <= x
            invariant
                pos <= out@.len(),
                forall|k: int| 0 <= k < pos ==> out@[k] <= x,
            decreases out@.len() - pos,
        {
            pos = pos + 1;
        }
        let ghost before = out@;
        out.insert(pos, x);
        proof {
            assert(out@ == before.insert(pos as int, x));
            assert forall|a: int, b: int| 0 <= a < b < out@.len() implies #[trigger] le_i32()(out@[a], out@[b]) by {
                let oa = if a < pos { before[a] } else if a == pos { x } else { before[a - 1] };
                let ob = if b < pos { before[b] } else if b == pos { x } else { before[b - 1] };
                assert(out@[a] == oa);
                assert(out@[b] == ob);
                if a < pos && b < pos {
                    assert(le_i32()(before[a], before[b]));
                } else if a < pos && b == pos {
                } else if a < pos {
                    assert(le_i32()(before[a], before[b - 1]));
                } else if a == pos {
                    assert(x < before[pos as int]);
                    if b - 1 > pos {
                        assert(le_i32()(before[pos as int], before[b - 1]));
                    }
                } else {
                    assert(le_i32()(before[a - 1], before[b - 1]));
                }
            }
        }
        assert(v@.subrange(0, i + 1) =~= v@.subrange(0, i as int).push(x));
        i = i + 1;
    }
    assert(v@.subrange(0, v@.len() as int) =~= v@);
    proof {
        let leq = le_i32();
        assert(total_ordering(leq));
        v@.lemma_sort_by_ensures(leq);
        vstd::seq_lib::lemma_sorted_unique(out@, v@.sort_by(leq), leq);
    }
    out
}

fn collect_episode_nos(episodes: &[CardEpisode], card_id: i32) -> (r: Vec<i32>)
    ensures
        r@ == card_episode_nos(episodes@, card_id),
{
    let mut out: Vec<i32> = Vec::new();
    let mut i: usize = 0;
    while i < episodes.len()
        invariant
            i <= episodes@.len(),
            out@ == card_episode_nos(episodes@.subrange(0, i as int), card_id),
        decreases episodes@.len() - i,
    {
        assert(episodes@.subrange(0, i + 1).drop_last() =~= episodes@.subrange(0, i as int));
        if episodes[i].card_id == card_id {
            out.push(episodes[i].episode_no);
        }
        i = i + 1;
    }
    assert(episodes@.subrange(0, episodes@.len() as int) =~= episodes@);
    out
}

fn apply_level_max(user_card: &mut UserCard, master: &MasterCard, config: &CardRarityConfig)
    ensures
        final(user_card)@ == after_level_max(old(user_card)@, master@, *config),
{
    if config.level_max {
        if let Some(max_level) = master.max_level {
            if max_level > user_card.level {
                user_card.level = max_level;
            }
        }
        if card_can_special_train(master) {
            user_card.special_training_status = "done".to_owned();
            user_card.default_image = "special_training".to_owned();
        }
    }
}

fn apply_level(
    user_card: &mut UserCard,
    master: &MasterCard,
    config: &CardRarityConfig,
    rarities: &[CardRarity],
)
    requires
        config_clamps_ok(master@, *config),
    ensures
        final(user_card)@ == after_level(old(user_card)@, master@, *config, rarities@),
{
    if let Some(level) = config.level {
        let max_level = match master.max_level {
            Some(x) => x,
            None => level,
        };
        let clamped = if level < 1 {
            1
        } else if level > max_level {
            max_level
        } else {
            level
        };
        user_card.level = clamped;
        let normal_max = match normal_max_level(rarities, master.card_rarity_type) {
            Some(x) => x,
            None => max_level,
        };
        if card_can_special_train(master) && clamped > normal_max {
            user_card.special_training_status = "done".to_owned();
            user_card.default_image = "special_training".to_owned();
        } else {
            user_card.special_training_status = "not_doing".to_owned();
            user_card.default_image = "original".to_owned();
        }
    }
}

fn apply_skill_and_rank(user_card: &mut UserCard, master: &MasterCard, config: &CardRarityConfig)
    requires
        config_clamps_ok(master@, *config),
    ensures
        final(user_card)@ == after_skill_and_rank(old(user_card)@, master@, *config),
{
    if config.skill_max {
        if let Some(max_skill) = master.max_skill_level {
            if max_skill > user_card.skill_level {
                user_card.skill_level = max_skill;
            }
        }
    }
    if let Some(skill_level) = config.skill_level {
        let hi = match master.max_skill_level {
            Some(x) => x,
            None => skill_level,
        };
        user_card.skill_level = if skill_level < 1 {
            1
        } else if skill_level > hi {
            hi
        } else {
            skill_level
        };
    }
    if config.master_max {
        if let Some(max_rank) = master.max_master_rank {
            if max_rank > user_card.master_rank {
                user_card.master_rank = max_rank;
            }
        }
    }
    if let Some(rank) = config.master_rank {
        let hi = match master.max_master_rank {
            Some(x) => x,
            None => rank,
        };
        user_card.master_rank = if rank < 0 {
            0
        } else if rank > hi {
            hi
        } else {
            rank
        };
    }
}

fn apply_episodes_and_canvas(
    user_card: &mut UserCard,
    master: &MasterCard,
    config: &CardRarityConfig,
    episodes: &[CardEpisode],
)
    ensures
        final(user_card)@ == after_episodes_and_canvas(old(user_card)@, master@, *config, episodes@),
{
    if config.episode_read || config.episode_read_count.is_some() {
        let mut read = sort_i32s(collect_episode_nos(episodes, master.id));
        let ghost sorted = read@;
        match config.episode_read_count {
            Some(n) => {
                if n >= 0 && (n as usize) < read.len() {
                    read.truncate(n as usize);
                }
            },
            None => {
                if 2 < read.len() {
                    read.truncate(2);
                }
            },
        }
        proof {
            if let Some(n) = config.episode_read_count {
                if n >= 0 && (n as nat) < sorted.len() {
                    assert(sorted.take(n as int) =~= sorted.subrange(0, n as int));
                }
            } else if 2 < sorted.len() {
                assert(sorted.take(2) =~= sorted.subrange(0, 2));
            }
            assert(read@ =~= read_episodes(episodes@, master.id, *config));
        }
        user_card.episodes_read = read;
    }
    if config.canvas {
        user_card.has_canvas_bonus_override = Some(true);
    }
}

/// Applies the preset that governs `master` to the player's card.
///
/// Returns `false`, leaving the card unchanged, when the preset disables the
/// card; otherwise the card becomes [`spec_apply_config`] of its old value.
pub fn apply_card_config(
    user_card: &mut UserCard,
    master: &MasterCard,
    configs: &CardConfigSet,
    rarities: &[CardRarity],
    episodes: &[CardEpisode],
) -> (kept: bool)
    requires
        config_clamps_ok(
            master@,
            spec_card_config(*configs, master.id, master.card_rarity_type),
        ),
    ensures
        kept == !spec_card_config(*configs, master.id, master.card_rarity_type).disable,
        kept ==> final(user_card)@ == spec_apply_config(
            old(user_card)@,
            master@,
            spec_card_config(*configs, master.id, master.card_rarity_type),
            rarities@,
            episodes@,
        ),
        !kept ==> final(user_card)@ == old(user_card)@,
{
    let config = match resolve_single_config(configs, master.id) {
        Some(c) => c,
        None => config_for_rarity(configs, master.card_rarity_type),
    };
    if config.disable {
        return false;
    }
    apply_level_max(user_card, master, &config);
    apply_level(user_card, master, &config, rarities);
    apply_skill_and_rank(user_card, master, &config);
    apply_episodes_and_canvas(user_card, master, &config, episodes);
    true
}


/// Level caps of the first rarity row of a rarity type.
pub open spec fn find_rarity(rarities: Seq<CardRarity>, rarity: i32) -> Option<CardRarity>
    decreases rarities.len(),
{
    if rarities.len() == 0 {
        None
    } else if rarities[0].card_rarity_type == rarity {
        Some(rarities[0])
    } else {
        find_rarity(rarities.drop_first(), rarity)
    }
}

/// Highest master rank that the lessons of a rarity reach.
pub open spec fn lesson_max_rank(lessons: Seq<MasterLesson>, rarity: i32) -> Option<i32>
    decreases lessons.len(),
{
    if lessons.len() == 0 {
        None
    } else {
        let rest = lesson_max_rank(lessons.drop_last(), rarity);
        if lessons.last().card_rarity_type == rarity {
            match rest {
                Some(r) => Some(max_i32(r, lessons.last().master_rank)),
                None => Some(lessons.last().master_rank),
            }
        } else {
            rest
        }
    }
}

/// A masterdata card with its missing caps filled from the rarity table and
/// the master lessons.
pub open spec fn spec_enrich(m: MasterCardView, rarities: Seq<CardRarity>, lessons: Seq<MasterLesson>) -> MasterCardView {
    let m1 = if m.max_level is None || m.max_skill_level is None {
        match find_rarity(rarities, m.card_rarity_type) {
            Some(r) => MasterCardView {
                max_level: match m.max_level { Some(x) => Some(x), None => Some(r.max_level) },
                max_skill_level: match m.max_skill_level {
                    Some(x) => Some(x),
                    None => Some(r.max_skill_level),
                },
                ..m
            },
            None => m,
        }
    } else {
        m
    };
    if m1.max_master_rank is None {
        MasterCardView {
            max_master_rank: Some(
                match lesson_max_rank(lessons, m.card_rarity_type) { Some(x) => x, None => 0 },
            ),
            ..m1
        }
    } else {
        m1
    }
}

fn find_rarity_row(rarities: &[CardRarity], rarity: i32) -> (r: Option<&CardRarity>)
    ensures
        match r {
            Some(row) => find_rarity(rarities@, rarity) == Some(*row),
            None => find_rarity(rarities@, rarity) is None,
        },
{
    let mut i: usize = 0;
    assert(rarities@.subrange(0, rarities@.len() as int) =~= rarities@);
    while i < rarities.len()
        invariant
            i <= rarities@.len(),
            find_rarity(rarities@, rarity) == find_rarity(
                rarities@.subrange(i as int, rarities@.len() as int),
                rarity,
            ),
        decreases rarities@.len() - i,
    {
        assert(rarities@.subrange(i as int, rarities@.len() as int)[0] == rarities@[i as int]);
        if rarities[i].card_rarity_type == rarity {
            return Some(&rarities[i]);
        }
        assert(rarities@.subrange(i as int, rarities@.len() as int).drop_first()
            =~= rarities@.subrange(i + 1, rarities@.len() as int));
        i = i + 1;
    }
    None
}

fn max_lesson_rank(lessons: &[MasterLesson], rarity: i32) -> (r: Option<i32>)
    ensures
        r == lesson_max_rank(lessons@, rarity),
{
    let mut best: Option<i32> = None;
    let mut i: usize = 0;
    while i < lessons.len()
        invariant
            i <= lessons@.len(),
            best == lesson_max_rank(lessons@.subrange(0, i as int), rarity),
        decreases lessons@.len() - i,
    {
        assert(lessons@.subrange(0, i + 1).drop_last() =~= lessons@.subrange(0, i as int));
        if lessons[i].card_rarity_type == rarity {
            let rank = lessons[i].master_rank;
            best = match best {
                Some(b) => Some(if b >= rank { b } else { rank }),
                None => Some(rank),
            };
        }
        i = i + 1;
    }
    assert(lessons@.subrange(0, lessons@.len() as int) =~= lessons@);
    best
}

/// A masterdata card with its missing level, skill-level and master-rank
/// caps filled in (see [`spec_enrich`]).
pub fn enrich_master(master: &MasterCard, game: &GameData<'_>) -> (r: MasterCard)
    ensures
        r@ == spec_enrich(master@, game.card_rarities@, game.master_lessons@),
{
    let mut m = master.copy();
    if m.max_level.is_none() || m.max_skill_level.is_none() {
        if let Some(row) = find_rarity_row(game.card_rarities, m.card_rarity_type) {
            if m.max_level.is_none() {
                m.max_level = Some(row.max_level);
            }
            if m.max_skill_level.is_none() {
                m.max_skill_level = Some(row.max_skill_level);
            }
        }
    }
    if m.max_master_rank.is_none() {
        let best = max_lesson_rank(game.master_lessons, m.card_rarity_type);
        m.max_master_rank = Some(
            match best {
                Some(x) => x,
                None => 0,
            },
        );
    }
    m
}

fn copy_single_configs(v: &Vec<SingleCardConfig>) -> (r: Vec<SingleCardConfig>)
    ensures
        r@ == v@,
{
    let mut out: Vec<SingleCardConfig> = Vec::new();
    let mut i: usize = 0;
    while i < v.len()
        invariant
            i <= v@.len(),
            out@ == v@.subrange(0, i as int),
        decreases v@.len() - i,
    {
        out.push(v[i]);
        i = i + 1;
        assert(out@ =~= v@.subrange(0, i as int));
    }
    assert(v@.subrange(0, v@.len() as int) =~= v@);
    out
}

/// Merges the request's per-card overrides into its preset set.
pub fn merged_configs(params: &BuildParams) -> (r: CardConfigSet)
    ensures
        r.rarity_1_config == params.card_configs.rarity_1_config,
        r.rarity_2_config == params.card_configs.rarity_2_config,
        r.rarity_3_config == params.card_configs.rarity_3_config,
        r.rarity_4_config == params.card_configs.rarity_4_config,
        r.rarity_birthday_config == params.card_configs.rarity_birthday_config,
        r.single_card_configs@ == params.card_configs.single_card_configs@ + params.single_card_configs@,
{
    let mut singles = copy_single_configs(&params.card_configs.single_card_configs);
    let mut extra = copy_single_configs(&params.single_card_configs);
    singles.append(&mut extra);
    CardConfigSet {
        rarity_1_config: params.card_configs.rarity_1_config,
        rarity_2_config: params.card_configs.rarity_2_config,
        rarity_3_config: params.card_configs.rarity_3_config,
        rarity_4_config: params.card_configs.rarity_4_config,
        rarity_birthday_config: params.card_configs.rarity_birthday_config,
        single_card_configs: singles,
    }
}

/// Whether a preset set changes nothing at all.
pub open spec fn spec_configs_noop(c: CardConfigSet) -> bool {
    &&& c.rarity_1_config == crate::data::noop_config()
    &&& c.rarity_2_config == crate::data::noop_config()
    &&& c.rarity_3_config == crate::data::noop_config()
    &&& c.rarity_4_config == crate::data::noop_config()
    &&& c.rarity_birthday_config == crate::data::noop_config()
    &&& c.single_card_configs@.len() == 0
}

fn is_noop(c: &CardRarityConfig) -> (r: bool)
    ensures
        r == (*c == crate::data::noop_config()),
{
    !c.disable && !c.level_max && c.level.is_none() && !c.skill_max && c.skill_level.is_none()
        && !c.episode_read && c.episode_read_count.is_none() && !c.master_max
        && c.master_rank.is_none() && !c.canvas
}

/// Whether a preset set changes nothing at all.
pub fn configs_are_noop(c: &CardConfigSet) -> (r: bool)
    ensures
        r == spec_configs_noop(*c),
{
    is_noop(&c.rarity_1_config) && is_noop(&c.rarity_2_config) && is_noop(&c.rarity_3_config)
        && is_noop(&c.rarity_4_config) && is_noop(&c.rarity_birthday_config)
        && c.single_card_configs.len() == 0
}

/// The first masterdata card with an id.
pub open spec fn find_master(cards: Seq<MasterCard>, id: i32) -> Option<MasterCard>
    decreases cards.len(),
{
    if cards.len() == 0 {
        None
    } else if cards[0].id == id {
        Some(cards[0])
    } else {
        find_master(cards.drop_first(), id)
    }
}

/// The first masterdata card with an id.
#[verifier::loop_isolation(false)]
pub fn find_master_card<'a>(cards: &'a [MasterCard], id: i32) -> (r: Option<&'a MasterCard>)
    ensures
        match r {
            Some(m) => find_master(cards@, id) == Some(*m),
            None => find_master(cards@, id) is None,
        },
{
    let mut i: usize = 0;
    assert(cards@.subrange(0, cards@.len() as int) =~= cards@);
    while i < cards.len()
        invariant
            i <= cards@.len(),
            find_master(cards@, id) == find_master(cards@.subrange(i as int, cards@.len() as int), id),
        decreases cards@.len() - i,
    {
        assert(cards@.subrange(i as int, cards@.len() as int)[0] == cards@[i as int]);
        if cards[i].id == id {
            return Some(&cards[i]);
        }
        assert(cards@.subrange(i as int, cards@.len() as int).drop_first()
            =~= cards@.subrange(i + 1, cards@.len() as int));
        i = i + 1;
    }
    None
}

/// Whether some card of a list has an id.
pub open spec fn holds_card(cards: Seq<UserCardView>, id: i32) -> bool {
    exists|i: int| 0 <= i < cards.len() && (#[trigger] cards[i]).card_id == id
}

/// The stand-in for a fixed card the player does not own: level 1, skill
/// level 1, master rank 0, trained exactly when the card can be trained.
pub open spec fn virtual_card(id: i32, cards: Seq<MasterCard>) -> UserCardView {
    let can_train = match find_master(cards, id) {
        Some(m) => spec_can_special_train(m@),
        None => false,
    };
    UserCardView {
        card_id: id,
        level: 1,
        skill_level: 1,
        master_rank: 0,
        special_training_status: if can_train { "done"@ } else { "none"@ },
        default_image: if can_train { "special_training"@ } else { "original"@ },
        episodes_read: Seq::empty(),
        is_virtual: true,
        has_canvas_bonus_override: None,
    }
}

/// The player's cards with a stand-in appended, in order, for each fixed
/// card id that no card of the list has yet.
pub open spec fn add_fixed(cards: Seq<UserCardView>, fixed: Seq<i32>, masters: Seq<MasterCard>) -> Seq<UserCardView>
    decreases fixed.len(),
{
    if fixed.len() == 0 {
        cards
    } else {
        let next = if holds_card(cards, fixed[0]) {
            cards
        } else {
            cards.push(virtual_card(fixed[0], masters))
        };
        add_fixed(next, fixed.drop_first(), masters)
    }
}

/// Views of a list of user cards.
pub open spec fn card_views(cards: Seq<UserCard>) -> Seq<UserCardView> {
    cards.map_values(|c: UserCard| c@)
}

pub fn copy_user_cards(cards: &Vec<UserCard>) -> (r: Vec<UserCard>)
    ensures
        card_views(r@) == card_views(cards@),
        r@.len() == cards@.len(),
{
    let mut out: Vec<UserCard> = Vec::new();
    let mut i: usize = 0;
    while i < cards.len()
        invariant
            i <= cards@.len(),
            forall|k: int| 0 <= k < i ==> (#[trigger] out@[k])@ == cards@[k]@,
            out@.len() == i,
        decreases cards@.len() - i,
    {
        out.push(cards[i].copy());
        i = i + 1;
    }
    assert(card_views(out@) =~= card_views(cards@));
    out
}

fn make_virtual_card(id: i32, masters: &[MasterCard]) -> (r: UserCard)
    ensures
        r@ == virtual_card(id, masters@),
{
    let can_train = match find_master_card(masters, id) {
        Some(m) => card_can_special_train(m),
        None => false,
    };
    let (status, image) = if can_train {
        ("done".to_owned(), "special_training".to_owned())
    } else {
        ("none".to_owned(), "original".to_owned())
    };
    let r = UserCard {
        card_id: id,
        level: 1,
        skill_level: 1,
        master_rank: 0,
        special_training_status: status,
        default_image: image,
        episodes_read: Vec::new(),
        is_virtual: true,
        has_canvas_bonus_override: None,
    };
    assert(r@.episodes_read =~= Seq::<i32>::empty());
    r
}

/// The player's cards plus a stand-in for each fixed card not owned.
#[verifier::loop_isolation(false)]
pub fn normalize_user_cards(user: &UserProfile, params: &BuildParams, game: &GameData<'_>) -> (r: Vec<UserCard>)
    ensures
        card_views(r@) == add_fixed(card_views(user.user_cards@), params.fixed_cards@, game.cards@),
{
    let mut cards = copy_user_cards(&user.user_cards);
    let fixed = &params.fixed_cards;
    let mut i: usize = 0;
    assert(fixed@.subrange(0, fixed@.len() as int) =~= fixed@);
    while i < fixed.len()
        invariant
            i <= fixed@.len(),
            add_fixed(card_views(user.user_cards@), fixed@, game.cards@) == add_fixed(
                card_views(cards@),
                fixed@.subrange(i as int, fixed@.len() as int),
                game.cards@,
            ),
        decreases fixed@.len() - i,
    {
        let id = fixed[i];
        let ghost rest = fixed@.subrange(i as int, fixed@.len() as int);
        assert(rest[0] == id);
        assert(rest.drop_first() =~= fixed@.subrange(i + 1, fixed@.len() as int));
        let mut present = false;
        let mut j: usize = 0;
        while j < cards.len()
            invariant
                j <= cards@.len(),
                present == exists|k: int| 0 <= k < j && (#[trigger] card_views(cards@)[k]).card_id == id,
            decreases cards@.len() - j,
        {
            assert(card_views(cards@)[j as int] == cards@[j as int]@);
            if cards[j].card_id == id {
                present = true;
            }
            j = j + 1;
        }
        assert(present == holds_card(card_views(cards@), id));
        if !present {
            let v = make_virtual_card(id, game.cards);
            let ghost old_views = card_views(cards@);
            cards.push(v);
            assert(card_views(cards@) =~= old_views.push(virtual_card(id, game.cards@)));
        }
        i = i + 1;
    }
    assert(fixed@.subrange(fixed@.len() as int, fixed@.len() as int) =~= Seq::<i32>::empty());
    cards
}

/// The player's cards as the pool scores them: stand-ins added, each card
/// with a masterdata row cultivated by its preset, disabled cards dropped,
/// cards without a masterdata row dropped.
pub open spec fn cultivate(
    cards: Seq<UserCardView>,
    game: GameData<'_>,
    configs: CardConfigSet,
) -> Seq<UserCardView>
    decreases cards.len(),
{
    if cards.len() == 0 {
        Seq::empty()
    } else {
        let rest = cultivate(cards.drop_last(), game, configs);
        let u = cards.last();
        match find_master(game.cards@, u.card_id) {
            None => rest,
            Some(m) => {
                let em = spec_enrich(m@, game.card_rarities@, game.master_lessons@);
                let c = spec_card_config(configs, em.id, em.card_rarity_type);
                if c.disable {
                    rest
                } else {
                    rest.push(spec_apply_config(u, em, c, game.card_rarities@, game.card_episodes@))
                }
            },
        }
    }
}

/// Whether every owned card's preset has well-defined clamps (see
/// [`config_clamps_ok`]); the cultivation panics otherwise.
pub open spec fn cultivation_defined(cards: Seq<UserCardView>, game: GameData<'_>, configs: CardConfigSet) -> bool {
    forall|i: int|
        0 <= i < cards.len() ==> match find_master(game.cards@, (#[trigger] cards[i]).card_id) {
            None => true,
            Some(m) => {
                let em = spec_enrich(m@, game.card_rarities@, game.master_lessons@);
                config_clamps_ok(em, spec_card_config(configs, em.id, em.card_rarity_type))
            },
        }
}

/// Whether two preset sets select the same preset for every card.
pub open spec fn same_presets(a: CardConfigSet, b: CardConfigSet) -> bool {
    &&& a.rarity_1_config == b.rarity_1_config
    &&& a.rarity_2_config == b.rarity_2_config
    &&& a.rarity_3_config == b.rarity_3_config
    &&& a.rarity_4_config == b.rarity_4_config
    &&& a.rarity_birthday_config == b.rarity_birthday_config
    &&& a.single_card_configs@ == b.single_card_configs@
}

/// The merged presets of a request, as a spec value.
pub open spec fn merged_presets(p: BuildParams, c: CardConfigSet) -> bool {
    &&& c.rarity_1_config == p.card_configs.rarity_1_config
    &&& c.rarity_2_config == p.card_configs.rarity_2_config
    &&& c.rarity_3_config == p.card_configs.rarity_3_config
    &&& c.rarity_4_config == p.card_configs.rarity_4_config
    &&& c.rarity_birthday_config == p.card_configs.rarity_birthday_config
    &&& c.single_card_configs@ == p.card_configs.single_card_configs@ + p.single_card_configs@
}

proof fn lemma_card_config_same(a: CardConfigSet, b: CardConfigSet, id: i32, rarity: i32)
    requires
        same_presets(a, b),
    ensures
        spec_card_config(a, id, rarity) == spec_card_config(b, id, rarity),
{
}

/// Returns the player's cards as the pool scores them (see [`cultivate`]),
/// for display next to the recommended decks.
#[verifier::loop_isolation(false)]
pub fn cultivated_user_cards(user: &UserProfile, game: &GameData<'_>, params: &BuildParams) -> (r: Vec<UserCard>)
    requires
        forall|c: CardConfigSet| merged_presets(*params, c) ==> cultivation_defined(
            add_fixed(card_views(user.user_cards@), params.fixed_cards@, game.cards@),
            *game,
            c,
        ),
    ensures
        forall|c: CardConfigSet| merged_presets(*params, c) ==> card_views(r@) == cultivate(
            add_fixed(card_views(user.user_cards@), params.fixed_cards@, game.cards@),
            *game,
            c,
        ),
{
    let configs = merged_configs(params);
    let normalized = normalize_user_cards(user, params, game);
    let ghost all = card_views(normalized@);
    proof {
        assert(merged_presets(*params, configs));
    }
    assert(cultivation_defined(all, *game, configs));
    let mut out: Vec<UserCard> = Vec::new();
    let mut i: usize = 0;
    while i < normalized.len()
        invariant
            i <= normalized@.len(),
            all == card_views(normalized@),
            cultivation_defined(all, *game, configs),
            card_views(out@) == cultivate(all.subrange(0, i as int), *game, configs),
        decreases normalized@.len() - i,
    {
        assert(all.subrange(0, i + 1).drop_last() =~= all.subrange(0, i as int));
        assert(all.subrange(0, i + 1).last() == normalized@[i as int]@);
        assert(all[i as int] == normalized@[i as int]@);
        if let Some(master) = find_master_card(game.cards, normalized[i].card_id) {
            let em = enrich_master(master, game);
            let mut card = normalized[i].copy();
            assert(all[i as int].card_id == normalized@[i as int].card_id);
            let ghost before = card_views(out@);
            if apply_card_config(&mut card, &em, &configs, game.card_rarities, game.card_episodes) {
                out.push(card);
                assert(card_views(out@) =~= before.push(card@));
            }
        }
        i = i + 1;
    }
    assert(all.subrange(0, normalized@.len() as int) =~= all);
    proof {
        assert forall|c: CardConfigSet| merged_presets(*params, c) implies card_views(out@) == cultivate(all, *game, c) by {
            assert(same_presets(c, configs));
            lemma_cultivate_same(all, *game, c, configs);
        }
    }
    out
}

proof fn lemma_cultivate_same(cards: Seq<UserCardView>, game: GameData<'_>, a: CardConfigSet, b: CardConfigSet)
    requires
        same_presets(a, b),
    ensures
        cultivate(cards, game, a) == cultivate(cards, game, b),
    decreases cards.len(),
{
    if cards.len() > 0 {
        lemma_cultivate_same(cards.drop_last(), game, a, b);
        assert forall|id: i32, rarity: i32| spec_card_config(a, id, rarity) == spec_card_config(b, id, rarity) by {
            lemma_card_config_same(a, b, id, rarity);
        }
    }
}

} // verus!
