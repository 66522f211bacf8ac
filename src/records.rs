//! The records that the service stores for a series, and what is computed
//! from them.
use vstd::prelude::*;
use crate::series::{SeriesType, VoteType};
use crate::series::TeamSlot;
use crate::session::{
    contains_id, find_map, first_index, push_step_line, step_line, MapPoolEntry, MatchConfig,
    ResolvedMap, Side, Team,
};

verus! {

/// A map of a series as it is about to be stored.
#[derive(Debug, Clone)]
pub struct NewMatch {
    pub map_id: i32,
    pub picked_by_role: i64,
    pub start_ct_team_role: Option<i64>,
    pub start_t_team_role: Option<i64>,
}

/// A stored map of a series. Times are seconds since the Unix epoch.
#[derive(Debug, Clone)]
pub struct Match {
    pub id: i32,
    pub match_series: i32,
    pub map: i32,
    pub picked_by: i32,
    pub start_ct_team: i32,
    pub start_t_team: i32,
    pub completed_at: Option<i64>,
}

/// A game server running a series.
#[derive(Debug, Clone)]
pub struct Server {
    pub id: i32,
    pub match_series: i32,
    pub server_id: String,
    pub hostname: String,
    pub game_port: i32,
    pub gotv_port: i32,
}

/// A stored series between two teams. Times are seconds since the Unix epoch.
#[derive(Debug, Clone)]
pub struct MatchSeries {
    pub id: i32,
    pub team_one: i32,
    pub team_two: i32,
    pub series_type: SeriesType,
    pub dathost_match: Option<String>,
    pub created_at: i64,
    pub completed_at: Option<i64>,
}

/// One stored veto or pick.
#[derive(Debug, Clone)]
pub struct VoteInfo {
    pub id: i32,
    pub match_series: i32,
    pub map: i32,
    pub vote_type: VoteType,
    pub team: i32,
}

/// The score of one map of a series.
#[derive(Debug, Clone, Copy, PartialEq, Eq, Structural)]
pub struct MatchScore {
    pub id: i32,
    pub match_id: i32,
    pub team_one_score: i32,
    pub team_two_score: i32,
}

/// The maps in `s` that team one won.
pub open spec fn maps_won_by_one(s: Seq<MatchScore>) -> nat
    decreases s.len(),
{
    if s.len() == 0 {
        0
    } else {
        maps_won_by_one(s.drop_last()) + if s.last().team_one_score > s.last().team_two_score {
            1nat
        } else {
            0nat
        }
    }
}

/// The maps in `s` that team two won.
pub open spec fn maps_won_by_two(s: Seq<MatchScore>) -> nat
    decreases s.len(),
{
    if s.len() == 0 {
        0
    } else {
        maps_won_by_two(s.drop_last()) + if s.last().team_one_score < s.last().team_two_score {
            1nat
        } else {
            0nat
        }
    }
}

proof fn lemma_wins_bounded(s: Seq<MatchScore>)
    ensures
        maps_won_by_one(s) <= s.len(),
        maps_won_by_two(s) <= s.len(),
    decreases s.len(),
{
    if s.len() > 0 {
        lemma_wins_bounded(s.drop_last());
    }
}

/// The series score. In a best of one both numbers are the first map's
/// team-one round count; otherwise each team's number of maps won.
pub fn get_series_score(scores: &Vec<MatchScore>, series_type: SeriesType) -> (r: (i32, i32))
    requires
        series_type == SeriesType::Bo1 ==> scores@.len() > 0,
        scores@.len() <= i32::MAX,
    ensures
        series_type == SeriesType::Bo1 ==> r == (scores@[0].team_one_score, scores@[0].team_one_score),
        series_type != SeriesType::Bo1 ==> r.0 == maps_won_by_one(scores@) && r.1 == maps_won_by_two(
            scores@,
        ),
{
    if series_type == SeriesType::Bo1 {
        return (scores[0].team_one_score, scores[0].team_one_score);
    }
    let mut one: i32 = 0;
    let mut two: i32 = 0;
    let mut i: usize = 0;
    while i < scores.len()
        invariant
            i <= scores@.len(),
            scores@.len() <= i32::MAX,
            one == maps_won_by_one(scores@.subrange(0, i as int)),
            two == maps_won_by_two(scores@.subrange(0, i as int)),
        decreases scores@.len() - i,
    {
        proof {
            let p = scores@.subrange(0, i + 1);
            assert(p.drop_last() =~= scores@.subrange(0, i as int));
            lemma_wins_bounded(scores@.subrange(0, i as int));
        }
        let s = scores[i];
        if s.team_one_score > s.team_two_score {
            one = one + 1;
        }
        if s.team_one_score < s.team_two_score {
            two = two + 1;
        }
        i = i + 1;
    }
    assert(scores@.subrange(0, i as int) =~= scores@);
    (one, two)
}

/// The name of the first map with this id, if any.
pub open spec fn map_name(maps: Seq<MapPoolEntry>, id: u64) -> Option<Seq<char>> {
    if contains_id(maps, id) {
        Some(maps[first_index(maps, id)].name@)
    } else {
        None
    }
}

/// The rows for the first `n` votes: a vote naming no map (id 0 or below) is
/// skipped; a vote by `team_one` is credited to it and any other to
/// `team_two`; `None` when a named map is not among `maps`.
pub open spec fn vote_rows(
    votes: Seq<VoteInfo>,
    n: nat,
    team_one: Team,
    team_two: Team,
    maps: Seq<MapPoolEntry>,
) -> Option<Seq<char>>
    decreases n,
{
    if n == 0 || n > votes.len() {
        Some(Seq::empty())
    } else {
        let v = votes[n - 1];
        match vote_rows(votes, (n - 1) as nat, team_one, team_two, maps) {
            None => None,
            Some(prev) => if v.map <= 0 {
                Some(prev)
            } else {
                match map_name(maps, v.map as u64) {
                    None => None,
                    Some(name) => Some(
                        prev + step_line(
                            v.vote_type,
                            if v.team == team_one.id {
                                team_one.name@
                            } else {
                                team_two.name@
                            },
                            name,
                        ),
                    ),
                }
            },
        }
    }
}

/// Once a row cannot be rendered, no longer prefix can be either.
proof fn lemma_rows_none_stays(
    votes: Seq<VoteInfo>,
    k: nat,
    n: nat,
    team_one: Team,
    team_two: Team,
    maps: Seq<MapPoolEntry>,
)
    requires
        0 < k <= n <= votes.len(),
        vote_rows(votes, k, team_one, team_two, maps) is None,
    ensures
        vote_rows(votes, n, team_one, team_two, maps) is None,
    decreases n - k,
{
    if n > k {
        lemma_rows_none_stays(votes, k, (n - 1) as nat, team_one, team_two, maps);
    }
}

/// The veto record text of a series.
pub open spec fn veto_text(
    votes: Seq<VoteInfo>,
    team_one: Team,
    team_two: Team,
    maps: Seq<MapPoolEntry>,
) -> Option<Seq<char>> {
    if votes.len() == 0 {
        Some("This match has no veto info yet"@)
    } else {
        match vote_rows(votes, votes.len(), team_one, team_two, maps) {
            None => None,
            Some(rows) => Some("```diff\n"@ + rows + "```"@),
        }
    }
}

impl MatchSeries {
    /// Renders the series' vetoes and picks as a diff block, one line each:
    /// "- {team} banned {map}" or "+ {team} picked {map}". `None` when a
    /// vote names a map that `maps` lacks.
    pub fn veto_info(
        &self,
        vote_info: &Vec<VoteInfo>,
        team_one: &Team,
        team_two: &Team,
        maps: &Vec<MapPoolEntry>,
    ) -> (r: Option<String>)
        ensures
            r matches Some(s) ==> veto_text(vote_info@, *team_one, *team_two, maps@) == Some(s@),
            r is None ==> veto_text(vote_info@, *team_one, *team_two, maps@) is None,
    {
        if vote_info.len() == 0 {
            return Some(String::from_str("This match has no veto info yet"));
        }
        let mut out = String::from_str("```diff\n");
        let mut rows = String::new();
        let mut i: usize = 0;
        while i < vote_info.len()
            invariant
                i <= vote_info@.len(),
                vote_rows(vote_info@, i as nat, *team_one, *team_two, maps@) == Some(rows@),
            decreases vote_info@.len() - i,
        {
            let v = &vote_info[i];
            if v.map > 0 {
                let idx = match find_map(maps, v.map as u64) {
                    None => {
                        proof {
                            lemma_rows_none_stays(
                                vote_info@,
                                (i + 1) as nat,
                                vote_info@.len(),
                                *team_one,
                                *team_two,
                                maps@,
                            );
                        }
                        return None;
                    },
                    Some(k) => k,
                };
                let team = if v.team >= 0 && v.team as u64 == team_one.id {
                    team_one.name.as_str()
                } else {
                    team_two.name.as_str()
                };
                push_step_line(&mut rows, v.vote_type, team, maps[idx].name.as_str());
            }
            i = i + 1;
        }
        out.append(rows.as_str());
        out.append("```");
        Some(out)
    }
}

/// The role of the team that starts `m` on `side`, once chosen.
pub open spec fn starting_role(m: ResolvedMap, side: Side, team_one: Team, team_two: Team) -> Option<i64> {
    if m.start_side_team_one == Some(side) {
        Some(team_one.role as i64)
    } else if m.start_side_team_two == Some(side) {
        Some(team_two.role as i64)
    } else {
        None
    }
}

/// The row stored for a resolved map.
pub open spec fn new_match_of(m: ResolvedMap, team_one: Team, team_two: Team) -> NewMatch {
    NewMatch {
        map_id: m.map.id as i32,
        picked_by_role: match m.picked_by {
            TeamSlot::TeamOne => team_one.role as i64,
            TeamSlot::TeamTwo => team_two.role as i64,
        },
        start_ct_team_role: starting_role(m, Side::CounterTerrorist, team_one, team_two),
        start_t_team_role: starting_role(m, Side::Terrorist, team_one, team_two),
    }
}

/// The ids and roles fit the stored columns.
pub open spec fn storable(maps: Seq<ResolvedMap>, team_one: Team, team_two: Team) -> bool {
    &&& team_one.role <= i64::MAX
    &&& team_two.role <= i64::MAX
    &&& forall|i: int| 0 <= i < maps.len() ==> (#[trigger] maps[i]).map.id <= i32::MAX
}

fn starting_role_of(m: &ResolvedMap, side: Side, team_one: &Team, team_two: &Team) -> (r: Option<i64>)
    requires
        team_one.role <= i64::MAX,
        team_two.role <= i64::MAX,
    ensures
        r == starting_role(*m, side, *team_one, *team_two),
{
    if m.start_side_team_one == Some(side) {
        Some(team_one.role as i64)
    } else if m.start_side_team_two == Some(side) {
        Some(team_two.role as i64)
    } else {
        None
    }
}

/// The rows to store for the maps of a finalized series, in order; `None`
/// when a map id does not fit an `i32` or a role does not fit an `i64`.
pub fn new_matches(config: &MatchConfig, team_one: &Team, team_two: &Team) -> (r: Option<Vec<NewMatch>>)
    ensures
        r is Some <==> storable(config.maps@, *team_one, *team_two),
        r matches Some(v) ==> v@.len() == config.maps@.len() && forall|i: int|
            0 <= i < v@.len() ==> #[trigger] v@[i] == new_match_of(config.maps@[i], *team_one, *team_two),
{
    if team_one.role > i64::MAX as u64 || team_two.role > i64::MAX as u64 {
        return None;
    }
    let mut out: Vec<NewMatch> = Vec::new();
    let mut i: usize = 0;
    while i < config.maps.len()
        invariant
            i <= config.maps@.len(),
            team_one.role <= i64::MAX,
            team_two.role <= i64::MAX,
            out@.len() == i,
            forall|k: int| 0 <= k < i ==> (#[trigger] config.maps@[k]).map.id <= i32::MAX,
            forall|k: int|
                0 <= k < i ==> #[trigger] out@[k] == new_match_of(config.maps@[k], *team_one, *team_two),
        decreases config.maps@.len() - i,
    {
        let m = &config.maps[i];
        if m.map.id > i32::MAX as u64 {
            return None;
        }
        let picked = match m.picked_by {
            TeamSlot::TeamOne => team_one.role as i64,
            TeamSlot::TeamTwo => team_two.role as i64,
        };
        out.push(
            NewMatch {
                map_id: m.map.id as i32,
                picked_by_role: picked,
                start_ct_team_role: starting_role_of(m, Side::CounterTerrorist, team_one, team_two),
                start_t_team_role: starting_role_of(m, Side::Terrorist, team_one, team_two),
            },
        );
        i = i + 1;
    }
    Some(out)
}

} // verus!
