//! The song a deck is built for.

use vstd::prelude::*;
use crate::data::{BuildParams, GameData, MusicMeta};
use crate::text::{eq_ignore_ascii_case, lower};
use crate::types::LiveType;
use vstd::utf8::encode_utf8;

verus! {

/// The song row and event rate of a build.
#[derive(Clone, Debug, PartialEq)]
pub struct MusicParams {
    /// Event rate in percent.
    pub event_rate_pct: u32,
    pub meta: MusicMeta,
}

/// Difficulty used when the request names none.
pub open spec fn default_difficulty() -> Seq<char> {
    "expert"@
}

/// The first row of a song whose difficulty equals `diff` up to ASCII
/// case (or the first row of the song at all, when `diff` is `None`).
pub open spec fn first_meta(rows: Seq<MusicMeta>, music_id: i32, diff: Option<Seq<char>>) -> Option<MusicMeta>
    decreases rows.len(),
{
    if rows.len() == 0 {
        None
    } else if rows[0].music_id == music_id && (match diff {
        Some(d) => lower(encode_utf8(rows[0].difficulty@)) == lower(encode_utf8(d)),
        None => true,
    }) {
        Some(rows[0])
    } else {
        first_meta(rows.drop_first(), music_id, diff)
    }
}

/// The song parameters of a request: the row of the requested difficulty
/// (expert by default), else any row of the song; none without a song or
/// a row. The event rate is the solo, multi or auto rate by live kind,
/// negatives as 0.
pub open spec fn spec_music(game: GameData<'_>, params: BuildParams) -> Option<MusicMeta> {
    match params.music_id {
        None => None,
        Some(id) => {
            let diff = match params.music_diff { Some(d) => d@, None => default_difficulty() };
            match first_meta(game.music_metas@, id, Some(diff)) {
                Some(m) => Some(m),
                None => first_meta(game.music_metas@, id, None),
            }
        },
    }
}

/// Event rate of a song row for a live kind.
pub open spec fn event_rate_for(meta: MusicMeta, live: LiveType) -> u32 {
    let r = if live == LiveType::Multi || live == LiveType::Cheerful {
        meta.event_rate_multi
    } else if live == LiveType::Auto || live == LiveType::ChallengeAuto {
        meta.event_rate_auto
    } else {
        meta.event_rate_solo
    };
    if r < 0 { 0 } else { r as u32 }
}

impl MusicMeta {
    /// An exact copy of the row.
    pub fn copy(&self) -> (r: MusicMeta)
        ensures
            r == *self,
    {
        MusicMeta {
            music_id: self.music_id,
            difficulty: self.difficulty.clone(),
            event_rate_solo: self.event_rate_solo,
            event_rate_multi: self.event_rate_multi,
            event_rate_auto: self.event_rate_auto,
            base_score_micro: self.base_score_micro,
            base_score_auto_micro: self.base_score_auto_micro,
            fever_score_micro: self.fever_score_micro,
            solo_skill_scores_micro: self.solo_skill_scores_micro,
            multi_skill_scores_micro: self.multi_skill_scores_micro,
            auto_skill_scores_micro: self.auto_skill_scores_micro,
            music_time_micro: self.music_time_micro,
            tap_count: self.tap_count,
        }
    }
}

fn find_meta<'a>(rows: &'a [MusicMeta], music_id: i32, diff: Option<&str>) -> (r: Option<&'a MusicMeta>)
    ensures
        match first_meta(rows@, music_id, match diff { Some(d) => Some(d@), None => None }) {
            Some(m) => r == Some(&m),
            None => r is None,
        },
{
    let ghost gd = match diff { Some(d) => Some(d@), None => None::<Seq<char>> };
    let mut i: usize = 0;
    assert(rows@.subrange(0, rows@.len() as int) =~= rows@);
    while i < rows.len()
        invariant
            i <= rows@.len(),
            gd == (match diff { Some(d) => Some(d@), None => None::<Seq<char>> }),
            first_meta(rows@, music_id, gd) == first_meta(rows@.subrange(i as int, rows@.len() as int), music_id, gd),
        decreases rows@.len() - i,
    {
        assert(rows@.subrange(i as int, rows@.len() as int)[0] == rows@[i as int]);
        assert(rows@.subrange(i as int, rows@.len() as int).drop_first() =~= rows@.subrange(i + 1, rows@.len() as int));
        if rows[i].music_id == music_id {
            let ok = match diff {
                Some(d) => eq_ignore_ascii_case(rows[i].difficulty.as_str(), d),
                None => true,
            };
            if ok {
                return Some(&rows[i]);
            }
        }
        i = i + 1;
    }
    None
}

/// Resolves the song parameters of a request.
pub fn build_music_params(game: &GameData<'_>, params: &BuildParams) -> (r: Option<MusicParams>)
    ensures
        match spec_music(*game, *params) {
            Some(m) => r matches Some(mp) && mp.meta == m && mp.event_rate_pct == event_rate_for(m, params.live_type),
            None => r is None,
        },
{
    let id = match params.music_id {
        Some(id) => id,
        None => return None,
    };
    let diff: &str = match &params.music_diff {
        Some(d) => d.as_str(),
        None => "expert",
    };
    proof {
        reveal_strlit("expert");
    }
    let meta = match find_meta(game.music_metas, id, Some(diff)) {
        Some(m) => m,
        None => match find_meta(game.music_metas, id, None) {
            Some(m) => m,
            None => return None,
        },
    };
    let meta = meta.copy();
    let r = if params.live_type == LiveType::Multi || params.live_type == LiveType::Cheerful {
        meta.event_rate_multi
    } else if params.live_type == LiveType::Auto || params.live_type == LiveType::ChallengeAuto {
        meta.event_rate_auto
    } else {
        meta.event_rate_solo
    };
    Some(MusicParams { event_rate_pct: if r < 0 { 0 } else { r as u32 }, meta })
}

} // verus!
