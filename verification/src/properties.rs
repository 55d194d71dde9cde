//! Properties of the pool build that span its steps.

use vstd::prelude::*;
use vstd::set_lib::{lemma_int_range, lemma_subset_equality, set_int_range};
use crate::card_config::{cultivate, cultivation_defined, find_master, merged_presets, spec_apply_config, spec_card_config};
use crate::data::{
    noop_config, BuildParams, CardConfigSet, CardEpisode, CardRarity, GameData, MasterCard, MasterCardView,
    UserCardView, UserProfile,
};
use crate::index::first_card_pos;
use crate::event_bonus::EventContext;
use crate::filter::{
    first_per_bucket_drops, in_order, pc_drops, pc_exempt, spec_ep_prefilter_keep_with_params, spec_keep_card, trim_exempt,
};
use crate::gather::{fixed_rank, full_of, gather_keys, pool_card_of};
use crate::order::{key_before, sorted_by_keys};
use crate::types::ScoreTarget;
use crate::order::{is_order, keep_unmarked};
use crate::pipeline::{
    above_target, bonus_tiers, card_built, ep_filtered, first_filtered, kept_ok, prepare_outcome, prepared_ok,
    request_issue, seeds_ok, spec_fixture_limit, CardSeed,
    bonus_trimmed, build_defined, candidates, cards_in, enriched_at, general_stage_ok, late_ep_kept, pc_result, pool_outcome,
    request_card_config, request_noop, target_stage_ok, trims_ok, PreparedGameData, PreparedPoolBuild,
};
use crate::pool::{CardIntermediate, CardPool, FullPrecisionCard, SearchContext};
use crate::power::PreparedPowerContext;
use crate::error::BuildError;

verus! {

proof fn lemma_keep_unmarked_keeps<T>(s: Seq<T>, m: Seq<bool>, i: int)
    requires
        s.len() == m.len(),
        0 <= i < s.len(),
        !m[i],
    ensures
        keep_unmarked(s, m).contains(s[i]),
    decreases s.len(),
{
    let rest = keep_unmarked(s.drop_first(), m.drop_first());
    if i == 0 {
        assert(keep_unmarked(s, m) == seq![s[0]] + rest);
        assert(keep_unmarked(s, m)[0] == s[0]);
    } else {
        lemma_keep_unmarked_keeps(s.drop_first(), m.drop_first(), i - 1);
        assert(s.drop_first()[i - 1] == s[i]);
        let k = choose|k: int| 0 <= k < rest.len() && rest[k] == s[i];
        if m[0] {
            assert(keep_unmarked(s, m)[k] == s[i]);
        } else {
            assert((seq![s[0]] + rest)[k + 1] == rest[k]);
            assert(keep_unmarked(s, m)[k + 1] == s[i]);
        }
    }
}

proof fn lemma_order_onto(ord: Seq<usize>, n: int, i: int)
    requires
        is_order(ord, n),
        0 <= i < n,
    ensures
        exists|k: int| 0 <= k < n && ord[k] as int == i,
{
    broadcast use vstd::set::group_set_axioms, vstd::seq_lib::seq_to_set_is_finite;
    let s = Seq::new(n as nat, |k: int| ord[k] as int);
    assert forall|a: int, b: int| 0 <= a < s.len() && 0 <= b < s.len() && a != b implies s[a] != s[b] by {
        if a < b {
            assert(ord[a] != ord[b]);
        } else {
            assert(ord[b] != ord[a]);
        }
    }
    assert(s.no_duplicates());
    s.unique_seq_to_set();
    lemma_int_range(0, n);
    assert forall|x: int| s.to_set().contains(x) implies set_int_range(0, n).contains(x) by {
        let k = choose|k: int| 0 <= k < s.len() && s[k] == x;
        assert(ord[k] < n);
    }
    assert(s.to_set().subset_of(set_int_range(0, n)));
    lemma_subset_equality(s.to_set(), set_int_range(0, n));
    assert(set_int_range(0, n).contains(i));
    assert(s.to_set().contains(i));
    let k = choose|k: int| 0 <= k < s.len() && s[k] == i;
    assert(ord[k] as int == i);
}

/// The bonus trim keeps every fixed card, every card of a fixed character
/// and every card with a bonus of 30% or more.
pub proof fn bonus_trim_keeps_exempt_cards(s: Seq<CardIntermediate>, params: BuildParams, keep: int, power_keep: int, i: int)
    requires
        0 <= i < s.len(),
        pc_exempt(s[i], params),
    ensures
        keep_unmarked(s, pc_drops(s, params, keep, power_keep)).contains(s[i]),
{
    lemma_keep_unmarked_keeps(s, pc_drops(s, params, keep, power_keep), i);
}

/// A keep-the-best-per-character trim keeps every exempt card (fixed cards,
/// and with `with_characters` every card of a fixed character), whatever
/// order it sorts the cards in.
pub proof fn per_bucket_trim_keeps_exempt_cards(
    before: Seq<CardIntermediate>,
    ord: Seq<usize>,
    params: BuildParams,
    with_characters: bool,
    keep: int,
    i: int,
)
    requires
        is_order(ord, before.len() as int),
        0 <= i < before.len(),
        trim_exempt(before[i], params, with_characters),
    ensures
        keep_unmarked(
            in_order(before, ord),
            first_per_bucket_drops(in_order(before, ord), params, with_characters, keep),
        ).contains(before[i]),
{
    lemma_order_onto(ord, before.len() as int, i);
    let k = choose|k: int| 0 <= k < before.len() && ord[k] as int == i;
    let sorted = in_order(before, ord);
    assert(sorted[k] == before[i]);
    lemma_keep_unmarked_keeps(sorted, first_per_bucket_drops(sorted, params, with_characters, keep), k);
}

/// The trims of a build keep every candidate that is a fixed card.
pub proof fn pool_trims_keep_fixed_cards(
    before: Seq<CardIntermediate>,
    after: Seq<CardIntermediate>,
    params: BuildParams,
    ctx: Option<EventContext>,
    applied: bool,
    i: int,
)
    requires
        trims_ok(before, after, params, ctx, applied),
        0 <= i < before.len(),
        params.fixed_cards@.contains(before[i].game_card_id),
    ensures
        after.contains(before[i]),
{
    let c = before[i];
    let mid = bonus_trimmed(before, params, ctx, applied);
    let (m1, m2) = choose|m1: Seq<CardIntermediate>, m2: Seq<CardIntermediate>|
        m1 == bonus_trimmed(before, params, ctx, applied) && general_stage_ok(m1, m2, params, ctx)
            && target_stage_ok(m2, after, params);
    assert(pc_exempt(c, params));
    assert(mid.contains(c)) by {
        if applied || crate::pipeline::late_ep_applies(before, params, ctx) {
            let base = if applied { before } else { late_ep_kept(before, params, ctx) };
            if !applied {
                let marks = Seq::new(before.len(), |j: int| !spec_ep_prefilter_keep_with_params(
                    before[j].game_card_id, before[j].character_id as i32, before[j].card_rarity_type, before[j].event_bonus,
                    before[j].has_char_bonus, before[j].has_attr_bonus, params,
                    crate::pipeline::is_wb_ctx(ctx), crate::pipeline::is_finale_ctx(ctx),
                ));
                lemma_keep_unmarked_keeps(before, marks, i);
            }
            assert(base.contains(c));
            let j = choose|j: int| 0 <= j < base.len() && base[j] == c;
            let keep = if applied { crate::filter::PER_CHAR_KEEP as int } else { crate::pipeline::late_keep(ctx) };
            let power_keep = if applied { 0 } else { crate::pipeline::late_power_keep(ctx) };
            if base.len() > crate::filter::EP_PREFILTER_MIN_POOL {
                bonus_trim_keeps_exempt_cards(base, params, keep, power_keep, j);
            }
            assert(pc_result(base, params, keep, power_keep).contains(c));
        } else {
            assert(mid[i] == c);
        }
    }
    assert(m2.contains(c)) by {
        let j = choose|j: int| 0 <= j < mid.len() && mid[j] == c;
        assert(trim_exempt(mid[j], params, false));
        if m2 != mid {
            let ord = choose|ord: Seq<usize>|
                is_order(ord, mid.len() as int) && crate::order::sorted_by_keys(ord, crate::filter::general_keys(mid))
                    && m2 == keep_unmarked(
                    in_order(mid, ord),
                    first_per_bucket_drops(in_order(mid, ord), params, false, if crate::types::spec_is_challenge(params.live_type) && mid.len() > crate::filter::CHALLENGE_ALL_PER_CHAR_KEEP {
                        crate::filter::CHALLENGE_ALL_PER_CHAR_KEEP as int
                    } else {
                        crate::filter::GENERAL_PER_CHAR_KEEP as int
                    }),
                );
            per_bucket_trim_keeps_exempt_cards(mid, ord, params, false, if crate::types::spec_is_challenge(params.live_type) && mid.len() > crate::filter::CHALLENGE_ALL_PER_CHAR_KEEP {
                crate::filter::CHALLENGE_ALL_PER_CHAR_KEEP as int
            } else {
                crate::filter::GENERAL_PER_CHAR_KEEP as int
            }, j);
        }
    }
    let j = choose|j: int| 0 <= j < m2.len() && m2[j] == c;
    assert(trim_exempt(m2[j], params, true));
    if after != m2 {
        let ord = choose|ord: Seq<usize>|
            is_order(ord, m2.len() as int) && crate::order::sorted_by_keys(ord, crate::filter::target_keys(m2, params))
                && after == keep_unmarked(
                in_order(m2, ord),
                first_per_bucket_drops(in_order(m2, ord), params, true, crate::filter::GENERAL_PER_CHAR_KEEP as int),
            );
        per_bucket_trim_keeps_exempt_cards(m2, ord, params, true, crate::filter::GENERAL_PER_CHAR_KEEP as int, j);
    }
}

/// With display rows asked for, a successful pool build returns one row per
/// pooled card, in the pool's dense order.
pub proof fn details_align_with_pool(
    r: Result<(CardPool, SearchContext, Vec<FullPrecisionCard>), BuildError>,
    prepared: PreparedGameData<'_>,
    b: PreparedPoolBuild,
)
    requires
        pool_outcome(r, prepared, b, true),
        r is Ok,
    ensures
        r->Ok_0.2@.len() == r->Ok_0.0.cards@.len(),
        forall|k: int| 0 <= k < r->Ok_0.2@.len() ==> #[trigger] r->Ok_0.2@[k].game_card_id == r->Ok_0.0.cards@[k].game_id,
{
    let (s, after) = choose|s: Seq<CardIntermediate>, after: Seq<CardIntermediate>|
        crate::pipeline::expanded_ok(s, b.cards@, b.powers@) && trims_ok(
            crate::pipeline::filtered_candidates(s, *b.params, b.event_ctx),
            after,
            *b.params,
            b.event_ctx,
            b.ep_prefilter_applied,
        ) && crate::pipeline::pool_result_ok(
            r,
            after,
            crate::pipeline::support_list(s, prepared.indexes, prepared.game, *b.params, b.event_ctx),
            prepared.game,
            b,
            true,
        );
    let (pool, sc, full) = r->Ok_0;
    let ord = choose|ord: Seq<usize>|
        #![trigger is_order(ord, after.len() as int)]
        is_order(ord, after.len() as int)
            && crate::order::sorted_by_keys(ord, crate::gather::gather_keys(after, b.params.target, b.event_ctx is Some, crate::pipeline::fixed_cards_of(*b.params), crate::pipeline::fixed_chars_of(*b.params, after)))
            && crate::gather::pool_of(in_order(after, ord), pool)
            && full@ == Seq::new(after.len(), |k: int| full_of(in_order(after, ord)[k]))
            && crate::pipeline::search_ctx_ok(sc, in_order(after, ord), crate::pipeline::support_list(s, prepared.indexes, prepared.game, *b.params, b.event_ctx), prepared.game, *b.params, b.event_ctx, b.music, crate::pipeline::fixed_cards_of(*b.params), crate::pipeline::fixed_chars_of(*b.params, after))
            && sc.honor_bonus == b.honor_bonus;
    assert forall|k: int| 0 <= k < full@.len() implies #[trigger] full@[k].game_card_id == pool.cards@[k].game_id by {
        let c = in_order(after, ord)[k];
        assert(full@[k] == full_of(c));
    }
}


proof fn lemma_first_pos_spec(cards: Seq<MasterCard>, id: i32)
    ensures
        match first_card_pos(cards, id) {
            Some(k) => 0 <= k < cards.len() && cards[k].id == id && forall|j: int| 0 <= j < k ==> cards[j].id != id,
            None => forall|j: int| 0 <= j < cards.len() ==> cards[j].id != id,
        },
    decreases cards.len(),
{
    if cards.len() > 0 {
        lemma_first_pos_spec(cards.drop_last(), id);
        assert forall|j: int| 0 <= j < cards.len() - 1 implies cards.drop_last()[j] == cards[j] by {}
    }
}

proof fn lemma_find_master_spec(cards: Seq<MasterCard>, id: i32)
    ensures
        match first_card_pos(cards, id) {
            Some(k) => find_master(cards, id) == Some(cards[k]),
            None => find_master(cards, id) is None,
        },
    decreases cards.len(),
{
    lemma_first_pos_spec(cards, id);
    if cards.len() > 0 {
        lemma_find_master_spec(cards.drop_first(), id);
        lemma_first_pos_spec(cards.drop_first(), id);
        if cards[0].id != id {
            match first_card_pos(cards, id) {
                Some(k) => {
                    assert(cards.drop_first()[k - 1] == cards[k]);
                    assert forall|j: int| 0 <= j < k - 1 implies cards.drop_first()[j].id != id by {
                        assert(cards.drop_first()[j] == cards[j + 1]);
                    }
                    match first_card_pos(cards.drop_first(), id) {
                        Some(k2) => {
                            assert(cards.drop_first()[k2] == cards[k2 + 1]);
                            if k2 + 1 < k {
                                assert(cards[k2 + 1].id != id);
                            }
                            if k2 + 1 > k {
                                assert(cards.drop_first()[k - 1].id != id);
                            }
                        },
                        None => {
                            assert(cards.drop_first()[k - 1].id != id);
                        },
                    }
                },
                None => {
                    assert forall|j: int| 0 <= j < cards.len() - 1 implies cards.drop_first()[j].id != id by {
                        assert(cards.drop_first()[j] == cards[j + 1]);
                    }
                },
            }
        }
    }
}

proof fn lemma_noop_config_keeps_card(u: UserCardView, m: MasterCardView, rarities: Seq<CardRarity>, episodes: Seq<CardEpisode>)
    ensures
        spec_apply_config(u, m, noop_config(), rarities, episodes) == u,
{
    assert(spec_apply_config(u, m, noop_config(), rarities, episodes) =~= u);
}

/// The cards a build prepares are cultivated exactly as
/// `cultivated_user_cards` shows them: each prepared card's values are
/// those of one card of that list.
pub proof fn prepared_cards_follow_cultivation(user: UserProfile, game: GameData<'_>, p: BuildParams, c: CardConfigSet)
    requires
        merged_presets(p, c),
    ensures
        forall|j: int| 0 <= j < candidates(cards_in(user, p, game), game, p).len() ==> cultivate(
            cards_in(user, p, game),
            game,
            c,
        ).contains(#[trigger] candidates(cards_in(user, p, game), game, p)[j].0),
{
    lemma_candidates_in_cultivation(cards_in(user, p, game), game, p, c);
}

proof fn lemma_candidates_in_cultivation(cards: Seq<UserCardView>, game: GameData<'_>, p: BuildParams, c: CardConfigSet)
    requires
        merged_presets(p, c),
    ensures
        forall|j: int| 0 <= j < candidates(cards, game, p).len() ==> cultivate(cards, game, c).contains(
            #[trigger] candidates(cards, game, p)[j].0,
        ),
    decreases cards.len(),
{
    if cards.len() > 0 {
        let rest_c = candidates(cards.drop_last(), game, p);
        let rest_k = cultivate(cards.drop_last(), game, c);
        lemma_candidates_in_cultivation(cards.drop_last(), game, p, c);
        let u = cards.last();
        lemma_find_master_spec(game.cards@, u.card_id);
        let cands = candidates(cards, game, p);
        let cult = cultivate(cards, game, c);
        assert forall|j: int| 0 <= j < cands.len() implies cult.contains(#[trigger] cands[j].0) by {
            if j < rest_c.len() {
                assert(cands[j] == rest_c[j]);
                let t = choose|t: int| 0 <= t < rest_k.len() && rest_k[t] == rest_c[j].0;
                if cult.len() > rest_k.len() {
                    assert(cult[t] == rest_k[t]);
                } else {
                    assert(cult == rest_k);
                }
            } else {
                let k = first_card_pos(game.cards@, u.card_id)->0;
                let em = enriched_at(game, k);
                assert(em.id == game.cards@[k].id);
                assert(em.card_rarity_type == game.cards@[k].card_rarity_type);
                let cfg = spec_card_config(c, em.id, em.card_rarity_type);
                assert(cfg == request_card_config(p, game.cards@[k].id, game.cards@[k].card_rarity_type));
                if request_noop(p) {
                    assert(cfg == noop_config());
                    lemma_noop_config_keeps_card(u, em, game.card_rarities@, game.card_episodes@);
                }
                assert(cult.last() == cands[j].0);
                assert(cult[cult.len() - 1] == cands[j].0);
            }
        }
    }
}


/// In the pool order, cards come by fixed slot: the fixed cards in the
/// order the request lists them, then the cards of the fixed characters,
/// then every other card.
pub proof fn pool_order_puts_fixed_slots_first(
    cards: Seq<CardIntermediate>,
    ord: Seq<usize>,
    target: ScoreTarget,
    has_event: bool,
    fixed_cards: Seq<u16>,
    fixed_chars: Seq<u8>,
    a: int,
    b: int,
)
    requires
        is_order(ord, cards.len() as int),
        sorted_by_keys(ord, gather_keys(cards, target, has_event, fixed_cards, fixed_chars)),
        fixed_cards.len() + fixed_chars.len() > 0,
        0 <= a < b < cards.len(),
    ensures
        fixed_rank(in_order(cards, ord)[a], fixed_cards, fixed_chars).0 <= fixed_rank(
            in_order(cards, ord)[b],
            fixed_cards,
            fixed_chars,
        ).0,
{
    let keys = gather_keys(cards, target, has_event, fixed_cards, fixed_chars);
    let ia = ord[a] as int;
    let ib = ord[b] as int;
    assert(key_before(keys, ia, ib));
    assert(keys[ia][0] == fixed_rank(cards[ia], fixed_cards, fixed_chars).0);
    assert(keys[ib][0] == fixed_rank(cards[ib], fixed_cards, fixed_chars).0);
    assert(keys[ia].len() > 0 && keys[ib].len() > 0);
}

proof fn lemma_kept_from<T>(s: Seq<T>, m: Seq<bool>, x: T)
    requires
        s.len() == m.len(),
        keep_unmarked(s, m).contains(x),
    ensures
        exists|i: int| 0 <= i < s.len() && s[i] == x && !m[i],
    decreases s.len(),
{
    let rest = keep_unmarked(s.drop_first(), m.drop_first());
    if m[0] {
        assert(keep_unmarked(s, m) == rest);
        lemma_kept_from(s.drop_first(), m.drop_first(), x);
        let i = choose|i: int| 0 <= i < s.drop_first().len() && s.drop_first()[i] == x && !m.drop_first()[i];
        assert(s[i + 1] == x && !m[i + 1]);
    } else {
        let t = seq![s[0]] + rest;
        assert(keep_unmarked(s, m) == t);
        let j = choose|j: int| 0 <= j < t.len() && t[j] == x;
        if j == 0 {
            assert(s[0] == x);
        } else {
            assert(rest[j - 1] == x);
            lemma_kept_from(s.drop_first(), m.drop_first(), x);
            let i = choose|i: int| 0 <= i < s.drop_first().len() && s.drop_first()[i] == x && !m.drop_first()[i];
            assert(s[i + 1] == x && !m[i + 1]);
        }
    }
}

proof fn lemma_in_order_from<T>(s: Seq<T>, ord: Seq<usize>, x: T)
    requires
        is_order(ord, s.len() as int),
        in_order(s, ord).contains(x),
    ensures
        s.contains(x),
{
    let k = choose|k: int| 0 <= k < in_order(s, ord).len() && in_order(s, ord)[k] == x;
    assert(s[ord[k] as int] == x);
}

proof fn lemma_sorted_trim_from(before: Seq<CardIntermediate>, ord: Seq<usize>, drops: Seq<bool>, x: CardIntermediate)
    requires
        is_order(ord, before.len() as int),
        drops.len() == before.len(),
        keep_unmarked(in_order(before, ord), drops).contains(x),
    ensures
        before.contains(x),
{
    lemma_kept_from(in_order(before, ord), drops, x);
    lemma_in_order_from(before, ord, x);
}

proof fn lemma_pc_result_from(s: Seq<CardIntermediate>, p: BuildParams, keep: int, power_keep: int, x: CardIntermediate)
    requires
        crate::pipeline::pc_result(s, p, keep, power_keep).contains(x),
    ensures
        s.contains(x),
{
    if s.len() > crate::filter::EP_PREFILTER_MIN_POOL {
        lemma_kept_from(s, pc_drops(s, p, keep, power_keep), x);
    }
}

proof fn lemma_trims_from(
    before: Seq<CardIntermediate>,
    after: Seq<CardIntermediate>,
    params: BuildParams,
    ctx: Option<EventContext>,
    applied: bool,
    x: CardIntermediate,
)
    requires
        trims_ok(before, after, params, ctx, applied),
        after.contains(x),
    ensures
        before.contains(x),
{
    let (m1, m2) = choose|m1: Seq<CardIntermediate>, m2: Seq<CardIntermediate>|
        m1 == bonus_trimmed(before, params, ctx, applied) && general_stage_ok(m1, m2, params, ctx)
            && target_stage_ok(m2, after, params);
    if after != m2 {
        let ord = choose|ord: Seq<usize>|
            is_order(ord, m2.len() as int) && crate::order::sorted_by_keys(ord, crate::filter::target_keys(m2, params))
                && after == keep_unmarked(
                in_order(m2, ord),
                first_per_bucket_drops(in_order(m2, ord), params, true, crate::filter::GENERAL_PER_CHAR_KEEP as int),
            );
        lemma_sorted_trim_from(
            m2,
            ord,
            first_per_bucket_drops(in_order(m2, ord), params, true, crate::filter::GENERAL_PER_CHAR_KEEP as int),
            x,
        );
    }
    assert(m2.contains(x));
    if m2 != m1 {
        let keep = if crate::types::spec_is_challenge(params.live_type) && m1.len() > crate::filter::CHALLENGE_ALL_PER_CHAR_KEEP {
            crate::filter::CHALLENGE_ALL_PER_CHAR_KEEP as int
        } else {
            crate::filter::GENERAL_PER_CHAR_KEEP as int
        };
        assert(crate::pipeline::general_trim_ok(m1, m2, params, keep));
        let ord = choose|ord: Seq<usize>|
            is_order(ord, m1.len() as int) && crate::order::sorted_by_keys(ord, crate::filter::general_keys(m1))
                && m2 == keep_unmarked(in_order(m1, ord), first_per_bucket_drops(in_order(m1, ord), params, false, keep));
        lemma_sorted_trim_from(m1, ord, first_per_bucket_drops(in_order(m1, ord), params, false, keep), x);
    }
    assert(m1.contains(x));
    if applied {
        lemma_pc_result_from(before, params, crate::filter::PER_CHAR_KEEP as int, 0, x);
    } else if crate::pipeline::late_ep_applies(before, params, ctx) {
        let kept = late_ep_kept(before, params, ctx);
        lemma_pc_result_from(kept, params, crate::pipeline::late_keep(ctx), crate::pipeline::late_power_keep(ctx), x);
        let marks = Seq::new(before.len(), |j: int| !spec_ep_prefilter_keep_with_params(
            before[j].game_card_id, before[j].character_id as i32, before[j].card_rarity_type, before[j].event_bonus,
            before[j].has_char_bonus, before[j].has_attr_bonus, params,
            crate::pipeline::is_wb_ctx(ctx), crate::pipeline::is_finale_ctx(ctx),
        ));
        lemma_kept_from(before, marks, x);
    }
}

/// Every card a successful build pools passes the request's hard filters:
/// it is not an excluded card, it belongs to the challenge character when
/// the request names one, and unless it is fixed it matches the group,
/// attribute and event-group filters. The pooled card is the compact form
/// of such a candidate.
pub proof fn pooled_cards_pass_hard_filters(
    r: Result<(CardPool, SearchContext, Vec<FullPrecisionCard>), BuildError>,
    prepared: PreparedGameData<'_>,
    b: PreparedPoolBuild,
    include_details: bool,
    k: int,
)
    requires
        pool_outcome(r, prepared, b, include_details),
        r is Ok,
        0 <= k < r->Ok_0.0.cards@.len(),
    ensures
        exists|c: CardIntermediate|
            #[trigger] spec_keep_card(c, *b.params) && !b.params.excluded_cards@.contains(c.game_card_id)
                && r->Ok_0.0.cards@[k].game_id == crate::prune::id_u16(c.game_card_id)
                && r->Ok_0.0.cards@[k].character_id == c.character_id && r->Ok_0.0.cards@[k].attr == c.attr
                && r->Ok_0.0.cards@[k].unit_mask == c.unit_mask_raw,
{
    let (s, after) = choose|s: Seq<CardIntermediate>, after: Seq<CardIntermediate>|
        crate::pipeline::expanded_ok(s, b.cards@, b.powers@) && trims_ok(
            crate::pipeline::filtered_candidates(s, *b.params, b.event_ctx),
            after,
            *b.params,
            b.event_ctx,
            b.ep_prefilter_applied,
        ) && crate::pipeline::pool_result_ok(
            r,
            after,
            crate::pipeline::support_list(s, prepared.indexes, prepared.game, *b.params, b.event_ctx),
            prepared.game,
            b,
            include_details,
        );
    let (pool, sc, full) = r->Ok_0;
    let ord = choose|ord: Seq<usize>|
        #![trigger is_order(ord, after.len() as int)]
        is_order(ord, after.len() as int)
            && crate::order::sorted_by_keys(ord, crate::gather::gather_keys(after, b.params.target, b.event_ctx is Some, crate::pipeline::fixed_cards_of(*b.params), crate::pipeline::fixed_chars_of(*b.params, after)))
            && crate::gather::pool_of(in_order(after, ord), pool)
            && full@ == (if include_details { Seq::new(after.len(), |k: int| full_of(in_order(after, ord)[k])) } else { Seq::empty() })
            && crate::pipeline::search_ctx_ok(sc, in_order(after, ord), crate::pipeline::support_list(s, prepared.indexes, prepared.game, *b.params, b.event_ctx), prepared.game, *b.params, b.event_ctx, b.music, crate::pipeline::fixed_cards_of(*b.params), crate::pipeline::fixed_chars_of(*b.params, after))
            && sc.honor_bonus == b.honor_bonus;
    let c = in_order(after, ord)[k];
    assert(pool.cards@[k] == pool_card_of(c, crate::gather::slot_at(in_order(after, ord), k)));
    assert(in_order(after, ord).contains(c));
    lemma_in_order_from(after, ord, c);
    let filtered = crate::pipeline::filtered_candidates(s, *b.params, b.event_ctx);
    lemma_trims_from(filtered, after, *b.params, b.event_ctx, b.ep_prefilter_applied, c);
    let p = *b.params;
    let s1 = keep_unmarked(s, Seq::new(s.len(), |i: int| !spec_keep_card(s[i], p)));
    let m2 = Seq::new(s1.len(), |i: int| !crate::filter::spec_event_unit_filter(s1[i].unit_mask_raw, p.filter_other_unit, crate::pipeline::ctx_filter_unit(b.event_ctx)));
    lemma_kept_from(s1, m2, c);
    assert(s1.contains(c));
    lemma_kept_from(s, Seq::new(s.len(), |i: int| !spec_keep_card(s[i], p)), c);
    assert(spec_keep_card(c, p));
}

/// A request whose pool build is defined can also be shown: every preset
/// the build applies has well-defined clamps exactly when the one
/// `cultivated_user_cards` applies does, so the same check admits both.
pub proof fn build_inputs_allow_cultivation(user: UserProfile, game: GameData<'_>, p: BuildParams, c: CardConfigSet)
    requires
        build_defined(cards_in(user, p, game), game, p),
        merged_presets(p, c),
    ensures
        cultivation_defined(cards_in(user, p, game), game, c),
{
    let cards = cards_in(user, p, game);
    assert forall|i: int| 0 <= i < cards.len() implies match find_master(game.cards@, (#[trigger] cards[i]).card_id) {
        None => true,
        Some(m) => {
            let em = crate::card_config::spec_enrich(m@, game.card_rarities@, game.master_lessons@);
            crate::card_config::config_clamps_ok(em, spec_card_config(c, em.id, em.card_rarity_type))
        },
    } by {
        lemma_find_master_spec(game.cards@, cards[i].card_id);
        match first_card_pos(game.cards@, cards[i].card_id) {
            None => {},
            Some(k) => {
                let em = enriched_at(game, k);
                assert(em.id == game.cards@[k].id);
                assert(em.card_rarity_type == game.cards@[k].card_rarity_type);
                assert(spec_card_config(c, em.id, em.card_rarity_type) == request_card_config(
                    p,
                    game.cards@[k].id,
                    game.cards@[k].card_rarity_type,
                ));
            },
        }
    }
}


/// With bonus targets, a successful preparation runs no bonus prefilter and
/// keeps only cards whose event bonus, master-rank bonus included, is not
/// above the largest target.
pub proof fn bonus_tiers_keep_cards_within_target(
    r: Result<PreparedPoolBuild, BuildError>,
    user: UserProfile,
    game: GameData<'_>,
    p: BuildParams,
    j: int,
)
    requires
        prepare_outcome(r, user, game, p),
        r is Ok,
        bonus_tiers(p),
        0 <= j < r->Ok_0.cards@.len(),
    ensures
        !r->Ok_0.ep_prefilter_applied,
        !above_target(r->Ok_0.cards@[j].seed.event_bonus, p),
{
    let b = r->Ok_0;
    assert(request_issue(game, p) is None);
    assert(prepared_ok(b, user, game, p));
    let (seeds, pctx) = choose|seeds: Seq<CardSeed>, pctx: PreparedPowerContext|
        seeds_ok(seeds, candidates(cards_in(user, p, game), game, p), game, user, b.event_ctx)
            && crate::power::context_matches(pctx, user, game, spec_fixture_limit(game, b.event_ctx))
            && kept_ok(b, seeds, game, user, p, pctx);
    let s1 = first_filtered(seeds, p, b.event_ctx);
    let s2 = ep_filtered(s1, p, b.event_ctx);
    let marks = Seq::new(s1.len(), |k: int| above_target(s1[k].event_bonus, p));
    assert(s2 == keep_unmarked(s1, marks));
    assert(card_built(b.cards@[j], b.powers@[j], s2[j], game, user, p, b.event_ctx, pctx));
    assert(s2.contains(s2[j]));
    lemma_kept_from(s1, marks, s2[j]);
}

} // verus!
