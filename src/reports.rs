//! The text of the series reports: scheduled, completed and in-progress
//! series, and one series in detail. Lookups that miss give `None`.
use vstd::prelude::*;
use crate::records::{
    get_series_score, map_name, maps_won_by_one, maps_won_by_two, veto_text, Match, MatchScore,
    MatchSeries, Server, VoteInfo,
};
use crate::render::{decimal, push_decimal};
use crate::series::SeriesType;
use crate::session::{find_map, MapPoolEntry, Team};

verus! {

/// The decimal notation of a signed integer.
pub open spec fn int_text(n: int) -> Seq<char> {
    if n < 0 {
        "-"@ + decimal((-n) as nat)
    } else {
        decimal(n as nat)
    }
}

/// Appends the decimal notation of `n`.
pub fn push_int(out: &mut String, n: i64)
    ensures
        final(out)@ == old(out)@ + int_text(n as int),
{
    if n < 0 {
        out.append("-");
        let m: u64 = (-(n as i128)) as u64;
        push_decimal(out, m);
    } else {
        push_decimal(out, n as u64);
    }
    assert(out@ =~= old(out)@ + int_text(n as int));
}

/// The position of the first team with this id, if any.
#[verifier::opaque]
pub open spec fn team_pos(teams: Seq<Team>, id: int) -> Option<int> {
    if exists|k: int| 0 <= k < teams.len() && teams[k].id == id {
        Some(
            choose|k: int|
                0 <= k < teams.len() && teams[k].id == id && forall|j: int|
                    0 <= j < k ==> teams[j].id != id,
        )
    } else {
        None
    }
}

/// The team with this id, if any.
pub open spec fn team_with(teams: Seq<Team>, id: int) -> Option<Team> {
    match team_pos(teams, id) {
        Some(k) => Some(teams[k]),
        None => None,
    }
}

/// The position of the first team with this id, if any.
fn find_team(teams: &Vec<Team>, id: i32) -> (r: Option<usize>)
    ensures
        r matches Some(k) ==> k < teams@.len() && team_with(teams@, id as int) == Some(teams@[k as int]),
        r is None ==> team_with(teams@, id as int) is None,
{
    reveal(team_pos);
    let mut i: usize = 0;
    while i < teams.len()
        invariant
            i <= teams@.len(),
            forall|j: int| 0 <= j < i ==> teams@[j].id != id,
        decreases teams@.len() - i,
    {
        if id >= 0 && teams[i].id == id as u64 {
            proof {
                reveal(team_pos);
                let w = i as int;
                assert(0 <= w < teams@.len() && teams@[w].id == id);
                assert(0 <= w < teams@.len() && teams@[w].id == id && forall|j: int|
                    0 <= j < w ==> teams@[j].id != id);
                let k = choose|k: int|
                    0 <= k < teams@.len() && teams@[k].id == id && forall|j: int|
                        0 <= j < k ==> teams@[j].id != id;
                if k < w {
                    assert(teams@[k].id != id);
                } else if k > w {
                    assert(teams@[w].id != id);
                }
                assert(team_pos(teams@, id as int) == Some(w));
            }
            return Some(i);
        }
        i = i + 1;
    }
    None
}

/// The text of a scheduled series' line.
pub open spec fn scheduled_row(id: int, a: Seq<char>, b: Seq<char>) -> Seq<char> {
    "`id: "@ + int_text(id) + "` "@ + a + " vs "@ + b + "\n"@
}

/// The line of a scheduled series.
pub open spec fn scheduled_line(m: MatchSeries, teams: Seq<Team>) -> Option<Seq<char>> {
    match (team_with(teams, m.team_one as int), team_with(teams, m.team_two as int)) {
        (Some(a), Some(b)) => Some(scheduled_row(m.id as int, a.name@, b.name@)),
        _ => None,
    }
}

fn push_scheduled_row(out: &mut String, id: i32, a: &str, b: &str)
    ensures
        final(out)@ == old(out)@ + scheduled_row(id as int, a@, b@),
{
    out.append("`id: ");
    push_int(out, id as i64);
    out.append("` ");
    out.append(a);
    out.append(" vs ");
    out.append(b);
    out.append("\n");
    assert(out@ =~= old(out)@ + scheduled_row(id as int, a@, b@));
}

/// The lines of the first `n` scheduled series.
pub open spec fn scheduled_lines(ms: Seq<MatchSeries>, teams: Seq<Team>, n: nat) -> Option<Seq<char>>
    decreases n,
{
    if n == 0 || n > ms.len() {
        Some(Seq::empty())
    } else {
        match (scheduled_lines(ms, teams, (n - 1) as nat), scheduled_line(ms[n - 1], teams)) {
            (Some(a), Some(b)) => Some(a + b),
            _ => None,
        }
    }
}

proof fn lemma_scheduled_none(ms: Seq<MatchSeries>, teams: Seq<Team>, k: nat, n: nat)
    requires
        0 < k <= n <= ms.len(),
        scheduled_lines(ms, teams, k) is None,
    ensures
        scheduled_lines(ms, teams, n) is None,
    decreases n - k,
{
    if n > k {
        lemma_scheduled_none(ms, teams, k, (n - 1) as nat);
    }
}

/// The list of scheduled series: one line each with its id and the names of
/// its two teams; a fixed message when there are none.
pub fn scheduled_text(matches: &Vec<MatchSeries>, teams: &Vec<Team>) -> (r: Option<String>)
    ensures
        matches@.len() == 0 ==> r is Some && r->Some_0@ == "No matches were found"@,
        matches@.len() > 0 ==> match scheduled_lines(matches@, teams@, matches@.len()) {
            Some(t) => r is Some && r->Some_0@ == t,
            None => r is None,
        },
{
    if matches.len() == 0 {
        return Some(String::from_str("No matches were found"));
    }
    let mut out = String::new();
    let mut i: usize = 0;
    while i < matches.len()
        invariant
            i <= matches@.len(),
            scheduled_lines(matches@, teams@, i as nat) == Some(out@),
        decreases matches@.len() - i,
    {
        let m = &matches[i];
        let (a, b) = match (find_team(teams, m.team_one), find_team(teams, m.team_two)) {
            (Some(a), Some(b)) => (a, b),
            _ => {
                proof {
                    lemma_scheduled_none(matches@, teams@, (i + 1) as nat, matches@.len());
                }
                return None;
            },
        };
        push_scheduled_row(&mut out, m.id, teams[a].name.as_str(), teams[b].name.as_str());
        i = i + 1;
    }
    Some(out)
}

/// The score of a series as `get_series_score` gives it, when it is defined.
pub open spec fn series_score(scores: Seq<MatchScore>, st: SeriesType) -> Option<(int, int)> {
    if scores.len() > i32::MAX {
        None
    } else if st == SeriesType::Bo1 {
        if scores.len() == 0 {
            None
        } else {
            Some((scores[0].team_one_score as int, scores[0].team_one_score as int))
        }
    } else {
        Some((maps_won_by_one(scores) as int, maps_won_by_two(scores) as int))
    }
}

/// `get_series_score` where it is defined.
fn score_of(scores: &Vec<MatchScore>, st: SeriesType) -> (r: Option<(i32, i32)>)
    ensures
        r matches Some(p) ==> series_score(scores@, st) == Some((p.0 as int, p.1 as int)),
        r is None ==> series_score(scores@, st) is None,
{
    if scores.len() > i32::MAX as usize || (st == SeriesType::Bo1 && scores.len() == 0) {
        return None;
    }
    Some(get_series_score(scores, st))
}

/// The text of a completed series' line.
pub open spec fn completed_row(id: int, a: Seq<char>, s1: int, s2: int, b: Seq<char>) -> Seq<char> {
    "`#"@ + int_text(id) + "` "@ + a + " **`"@ + int_text(s1) + "`**"@ + " - "@ + "**`"@ + int_text(s2)
        + "`** "@ + b + "\n"@
}

/// The line of a completed series.
pub open spec fn completed_line(m: MatchSeries, scores: Seq<MatchScore>, teams: Seq<Team>) -> Option<
    Seq<char>,
> {
    match (
        series_score(scores, m.series_type),
        team_with(teams, m.team_one as int),
        team_with(teams, m.team_two as int),
    ) {
        (Some(p), Some(a), Some(b)) => Some(completed_row(m.id as int, a.name@, p.0, p.1, b.name@)),
        _ => None,
    }
}

fn push_completed_row(out: &mut String, id: i32, a: &str, s1: i32, s2: i32, b: &str)
    ensures
        final(out)@ == old(out)@ + completed_row(id as int, a@, s1 as int, s2 as int, b@),
{
    out.append("`#");
    push_int(out, id as i64);
    out.append("` ");
    out.append(a);
    out.append(" **`");
    push_int(out, s1 as i64);
    out.append("`**");
    out.append(" - ");
    out.append("**`");
    push_int(out, s2 as i64);
    out.append("`** ");
    out.append(b);
    out.append("\n");
    assert(out@ =~= old(out)@ + completed_row(id as int, a@, s1 as int, s2 as int, b@));
}

/// The lines of the first `n` completed series.
pub open spec fn completed_lines(
    ms: Seq<MatchSeries>,
    scores: Seq<Vec<MatchScore>>,
    teams: Seq<Team>,
    n: nat,
) -> Option<Seq<char>>
    decreases n,
{
    if n == 0 || n > ms.len() || n > scores.len() {
        Some(Seq::empty())
    } else {
        match (
            completed_lines(ms, scores, teams, (n - 1) as nat),
            completed_line(ms[n - 1], scores[n - 1]@, teams),
        ) {
            (Some(a), Some(b)) => Some(a + b),
            _ => None,
        }
    }
}

proof fn lemma_completed_none(
    ms: Seq<MatchSeries>,
    scores: Seq<Vec<MatchScore>>,
    teams: Seq<Team>,
    k: nat,
    n: nat,
)
    requires
        0 < k <= n <= ms.len(),
        n <= scores.len(),
        completed_lines(ms, scores, teams, k) is None,
    ensures
        completed_lines(ms, scores, teams, n) is None,
    decreases n - k,
{
    if n > k {
        lemma_completed_none(ms, scores, teams, k, (n - 1) as nat);
    }
}

/// The list of completed series: one line each with its id, the names of
/// its teams and its score; `scores[i]` holds the map scores of
/// `matches[i]`. A fixed message when there are none.
pub fn completed_text(matches: &Vec<MatchSeries>, scores: &Vec<Vec<MatchScore>>, teams: &Vec<Team>) -> (r:
    Option<String>)
    requires
        scores@.len() == matches@.len(),
    ensures
        matches@.len() == 0 ==> r is Some && r->Some_0@ == "No matches were found"@,
        matches@.len() > 0 ==> match completed_lines(matches@, scores@, teams@, matches@.len()) {
            Some(t) => r is Some && r->Some_0@ == t,
            None => r is None,
        },
{
    if matches.len() == 0 {
        return Some(String::from_str("No matches were found"));
    }
    let mut out = String::new();
    let mut i: usize = 0;
    while i < matches.len()
        invariant
            i <= matches@.len(),
            scores@.len() == matches@.len(),
            completed_lines(matches@, scores@, teams@, i as nat) == Some(out@),
        decreases matches@.len() - i,
    {
        let m = &matches[i];
        let found = (score_of(&scores[i], m.series_type), find_team(teams, m.team_one), find_team(teams, m.team_two));
        let (p, a, b) = match found {
            (Some(p), Some(a), Some(b)) => (p, a, b),
            _ => {
                proof {
                    lemma_completed_none(matches@, scores@, teams@, (i + 1) as nat, matches@.len());
                }
                return None;
            },
        };
        push_completed_row(&mut out, m.id, teams[a].name.as_str(), p.0, p.1, teams[b].name.as_str());
        i = i + 1;
    }
    Some(out)
}

/// The position of the first key equal to `id`, if any.
#[verifier::opaque]
pub open spec fn first_with(keys: Seq<int>, id: int) -> Option<int> {
    if exists|k: int| 0 <= k < keys.len() && keys[k] == id {
        Some(
            choose|k: int|
                0 <= k < keys.len() && keys[k] == id && forall|j: int| 0 <= j < k ==> keys[j] != id,
        )
    } else {
        None
    }
}

proof fn lemma_first_with(keys: Seq<int>, id: int, w: int)
    requires
        0 <= w < keys.len(),
        keys[w] == id,
        forall|j: int| 0 <= j < w ==> keys[j] != id,
    ensures
        first_with(keys, id) == Some(w),
{
    reveal(first_with);
    assert(0 <= w < keys.len() && keys[w] == id && forall|j: int| 0 <= j < w ==> keys[j] != id);
    let k = choose|k: int|
        0 <= k < keys.len() && keys[k] == id && forall|j: int| 0 <= j < k ==> keys[j] != id;
    if k < w {
        assert(keys[k] != id);
    } else if k > w {
        assert(keys[w] != id);
    }
}

proof fn lemma_first_none(keys: Seq<int>, id: int)
    requires
        forall|j: int| 0 <= j < keys.len() ==> keys[j] != id,
    ensures
        first_with(keys, id) is None,
{
    reveal(first_with);
}

/// The map ids of the scores.
pub open spec fn score_keys(s: Seq<MatchScore>) -> Seq<int> {
    s.map_values(|x: MatchScore| x.match_id as int)
}

/// The ids of the series.
pub open spec fn series_keys(s: Seq<MatchSeries>) -> Seq<int> {
    s.map_values(|x: MatchSeries| x.id as int)
}

/// The series ids of the servers.
pub open spec fn server_keys(s: Seq<Server>) -> Seq<int> {
    s.map_values(|x: Server| x.match_series as int)
}

/// The score of the map with this id, if any.
pub open spec fn score_for(s: Seq<MatchScore>, match_id: int) -> Option<MatchScore> {
    match first_with(score_keys(s), match_id) {
        Some(k) => Some(s[k]),
        None => None,
    }
}

/// The series with this id, if any.
pub open spec fn series_for(s: Seq<MatchSeries>, id: int) -> Option<MatchSeries> {
    match first_with(series_keys(s), id) {
        Some(k) => Some(s[k]),
        None => None,
    }
}

/// The server of the series with this id, if any.
pub open spec fn server_for(s: Seq<Server>, series_id: int) -> Option<Server> {
    match first_with(server_keys(s), series_id) {
        Some(k) => Some(s[k]),
        None => None,
    }
}

fn find_score(s: &Vec<MatchScore>, match_id: i32) -> (r: Option<usize>)
    ensures
        r matches Some(k) ==> k < s@.len() && score_for(s@, match_id as int) == Some(s@[k as int]),
        r is None ==> score_for(s@, match_id as int) is None,
{
    let ghost keys = score_keys(s@);
    let mut i: usize = 0;
    while i < s.len()
        invariant
            i <= s@.len(),
            keys == score_keys(s@),
            forall|j: int| 0 <= j < i ==> keys[j] != match_id,
        decreases s@.len() - i,
    {
        if s[i].match_id == match_id {
            proof {
                lemma_first_with(keys, match_id as int, i as int);
            }
            return Some(i);
        }
        i = i + 1;
    }
    proof {
        lemma_first_none(keys, match_id as int);
    }
    None
}

fn find_series(s: &Vec<MatchSeries>, id: i32) -> (r: Option<usize>)
    ensures
        r matches Some(k) ==> k < s@.len() && series_for(s@, id as int) == Some(s@[k as int]),
        r is None ==> series_for(s@, id as int) is None,
{
    let ghost keys = series_keys(s@);
    let mut i: usize = 0;
    while i < s.len()
        invariant
            i <= s@.len(),
            keys == series_keys(s@),
            forall|j: int| 0 <= j < i ==> keys[j] != id,
        decreases s@.len() - i,
    {
        if s[i].id == id {
            proof {
                lemma_first_with(keys, id as int, i as int);
            }
            return Some(i);
        }
        i = i + 1;
    }
    proof {
        lemma_first_none(keys, id as int);
    }
    None
}

fn find_server(s: &Vec<Server>, series_id: i32) -> (r: Option<usize>)
    ensures
        r matches Some(k) ==> k < s@.len() && server_for(s@, series_id as int) == Some(s@[k as int]),
        r is None ==> server_for(s@, series_id as int) is None,
{
    let ghost keys = server_keys(s@);
    let mut i: usize = 0;
    while i < s.len()
        invariant
            i <= s@.len(),
            keys == server_keys(s@),
            forall|j: int| 0 <= j < i ==> keys[j] != series_id,
        decreases s@.len() - i,
    {
        if s[i].match_series == series_id {
            proof {
                lemma_first_with(keys, series_id as int, i as int);
            }
            return Some(i);
        }
        i = i + 1;
    }
    proof {
        lemma_first_none(keys, series_id as int);
    }
    None
}

/// The text of an in-progress map's line.
pub open spec fn live_row(
    id: int,
    r1: u64,
    s1: int,
    s2: int,
    r2: u64,
    host: Seq<char>,
    gotv: int,
) -> Seq<char> {
    "`#"@ + int_text(id) + "` "@ + "<@&"@ + decimal(r1 as nat) + "> **`"@ + int_text(s1) + "`**"@
        + " - "@ + "**`"@ + int_text(s2) + "`** <@&"@ + decimal(r2 as nat) + ">"@ + "\n - "@
        + "GOTV: ||`connect "@ + host + ":"@ + int_text(gotv) + "`||\n"@
}

/// The line of a map in progress: its score, the roles of the two teams of
/// its series and the spectator address of the series' server.
pub open spec fn live_line(
    m: Match,
    info: Seq<MatchScore>,
    series: Seq<MatchSeries>,
    servers: Seq<Server>,
    teams: Seq<Team>,
) -> Option<Seq<char>> {
    match (score_for(info, m.id as int), series_for(series, m.match_series as int)) {
        (Some(sc), Some(se)) => match (
            team_with(teams, se.team_one as int),
            team_with(teams, se.team_two as int),
            server_for(servers, se.id as int),
        ) {
            (Some(a), Some(b), Some(sv)) => Some(
                live_row(
                    m.id as int,
                    a.role,
                    sc.team_one_score as int,
                    sc.team_two_score as int,
                    b.role,
                    sv.hostname@,
                    sv.gotv_port as int,
                ),
            ),
            _ => None,
        },
        _ => None,
    }
}

/// The lines of the first `n` maps in progress.
pub open spec fn live_lines(
    ms: Seq<Match>,
    info: Seq<MatchScore>,
    series: Seq<MatchSeries>,
    servers: Seq<Server>,
    teams: Seq<Team>,
    n: nat,
) -> Option<Seq<char>>
    decreases n,
{
    if n == 0 || n > ms.len() {
        Some(Seq::empty())
    } else {
        match (
            live_lines(ms, info, series, servers, teams, (n - 1) as nat),
            live_line(ms[n - 1], info, series, servers, teams),
        ) {
            (Some(a), Some(b)) => Some(a + b),
            _ => None,
        }
    }
}

proof fn lemma_live_none(
    ms: Seq<Match>,
    info: Seq<MatchScore>,
    series: Seq<MatchSeries>,
    servers: Seq<Server>,
    teams: Seq<Team>,
    k: nat,
    n: nat,
)
    requires
        0 < k <= n <= ms.len(),
        live_lines(ms, info, series, servers, teams, k) is None,
    ensures
        live_lines(ms, info, series, servers, teams, n) is None,
    decreases n - k,
{
    if n > k {
        lemma_live_none(ms, info, series, servers, teams, k, (n - 1) as nat);
    }
}

fn push_live_row(
    out: &mut String,
    id: i32,
    r1: u64,
    s1: i32,
    s2: i32,
    r2: u64,
    host: &str,
    gotv: i32,
)
    ensures
        final(out)@ == old(out)@ + live_row(
            id as int,
            r1,
            s1 as int,
            s2 as int,
            r2,
            host@,
            gotv as int,
        ),
{
    out.append("`#");
    push_int(out, id as i64);
    out.append("` ");
    out.append("<@&");
    push_decimal(out, r1);
    out.append("> **`");
    push_int(out, s1 as i64);
    out.append("`**");
    out.append(" - ");
    out.append("**`");
    push_int(out, s2 as i64);
    out.append("`** <@&");
    push_decimal(out, r2);
    out.append(">");
    out.append("\n - ");
    out.append("GOTV: ||`connect ");
    out.append(host);
    out.append(":");
    push_int(out, gotv as i64);
    out.append("`||\n");
    assert(out@ =~= old(out)@ + live_row(
        id as int,
        r1,
        s1 as int,
        s2 as int,
        r2,
        host@,
        gotv as int,
    ));
}

/// The list of maps in progress, one entry each (see `live_line`); a fixed
/// message when no series or no score is in progress.
pub fn inprogress_text(
    info: &Vec<MatchScore>,
    match_series: &Vec<MatchSeries>,
    matches: &Vec<Match>,
    servers: &Vec<Server>,
    teams: &Vec<Team>,
) -> (r: Option<String>)
    ensures
        (match_series@.len() == 0 || info@.len() == 0) ==> r is Some && r->Some_0@
            == "No matches in progress were found"@,
        (match_series@.len() > 0 && info@.len() > 0) ==> match live_lines(
            matches@,
            info@,
            match_series@,
            servers@,
            teams@,
            matches@.len(),
        ) {
            Some(t) => r is Some && r->Some_0@ == t,
            None => r is None,
        },
{
    if match_series.len() == 0 || info.len() == 0 {
        return Some(String::from_str("No matches in progress were found"));
    }
    let mut out = String::new();
    let mut i: usize = 0;
    while i < matches.len()
        invariant
            i <= matches@.len(),
            match_series@.len() > 0 && info@.len() > 0,
            live_lines(matches@, info@, match_series@, servers@, teams@, i as nat) == Some(out@),
        decreases matches@.len() - i,
    {
        let m = &matches[i];
        let (sc, se) = match (find_score(info, m.id), find_series(match_series, m.match_series)) {
            (Some(sc), Some(se)) => (sc, se),
            _ => {
                proof {
                    lemma_live_none(matches@, info@, match_series@, servers@, teams@, (i + 1) as nat, matches@.len());
                }
                return None;
            },
        };
        let series = &match_series[se];
        let found = (
            find_team(teams, series.team_one),
            find_team(teams, series.team_two),
            find_server(servers, series.id),
        );
        let (a, b, sv) = match found {
            (Some(a), Some(b), Some(sv)) => (a, b, sv),
            _ => {
                proof {
                    lemma_live_none(matches@, info@, match_series@, servers@, teams@, (i + 1) as nat, matches@.len());
                }
                return None;
            },
        };
        push_live_row(
            &mut out,
            m.id,
            teams[a].role,
            info[sc].team_one_score,
            info[sc].team_two_score,
            teams[b].role,
            servers[sv].hostname.as_str(),
            servers[sv].gotv_port,
        );
        i = i + 1;
    }
    Some(out)
}

/// The name of the first map with this id, if any.
pub open spec fn map_name_of(maps: Seq<MapPoolEntry>, id: int) -> Option<Seq<char>> {
    if id < 0 {
        None
    } else {
        map_name(maps, id as u64)
    }
}

/// The text of one map's line in a series' details.
pub open spec fn detail_row(
    pos: nat,
    map: Seq<char>,
    st: SeriesType,
    sc: MatchScore,
    picker: Seq<char>,
) -> Seq<char> {
    "**"@ + decimal(pos) + ". `"@ + map + "` "@ + (if st != SeriesType::Bo1 {
        "**`"@ + int_text(sc.team_one_score as int) + "`**"@ + " - "@ + "**`"@ + int_text(
            sc.team_two_score as int,
        ) + "`**"@
    } else {
        Seq::empty()
    }) + " - picked by: "@ + picker + "\n"@
}

/// The line of the map at 0-based position `i` of a series.
pub open spec fn detail_line(
    i: nat,
    m: Match,
    st: SeriesType,
    teams: Seq<Team>,
    scores: Seq<MatchScore>,
    maps: Seq<MapPoolEntry>,
) -> Option<Seq<char>> {
    match (
        team_with(teams, m.picked_by as int),
        score_for(scores, m.id as int),
        map_name_of(maps, m.map as int),
    ) {
        (Some(t), Some(sc), Some(name)) => Some(detail_row(i + 1, name, st, sc, t.name@)),
        _ => None,
    }
}

/// The lines of the first `n` maps of a series.
pub open spec fn detail_lines(
    ms: Seq<Match>,
    st: SeriesType,
    teams: Seq<Team>,
    scores: Seq<MatchScore>,
    maps: Seq<MapPoolEntry>,
    n: nat,
) -> Option<Seq<char>>
    decreases n,
{
    if n == 0 || n > ms.len() {
        Some(Seq::empty())
    } else {
        match (
            detail_lines(ms, st, teams, scores, maps, (n - 1) as nat),
            detail_line((n - 1) as nat, ms[n - 1], st, teams, scores, maps),
        ) {
            (Some(a), Some(b)) => Some(a + b),
            _ => None,
        }
    }
}

proof fn lemma_detail_none(
    ms: Seq<Match>,
    st: SeriesType,
    teams: Seq<Team>,
    scores: Seq<MatchScore>,
    maps: Seq<MapPoolEntry>,
    k: nat,
    n: nat,
)
    requires
        0 < k <= n <= ms.len(),
        detail_lines(ms, st, teams, scores, maps, k) is None,
    ensures
        detail_lines(ms, st, teams, scores, maps, n) is None,
    decreases n - k,
{
    if n > k {
        lemma_detail_none(ms, st, teams, scores, maps, k, (n - 1) as nat);
    }
}

/// The first line of a series' details: both team names and the score.
pub open spec fn detail_header(a: Seq<char>, s1: int, s2: int, b: Seq<char>) -> Seq<char> {
    a + " **`"@ + int_text(s1) + "`**"@ + " - "@ + "**`"@ + int_text(s2) + "`** "@ + b + "\n"@
}

/// The details of a series: the header, one line per map, a blank line and
/// the veto record.
pub open spec fn details_of(
    series: MatchSeries,
    team_one: Team,
    team_two: Team,
    ms: Seq<Match>,
    teams: Seq<Team>,
    maps: Seq<MapPoolEntry>,
    scores: Seq<MatchScore>,
    votes: Seq<VoteInfo>,
) -> Option<Seq<char>> {
    match (
        series_score(scores, series.series_type),
        detail_lines(ms, series.series_type, teams, scores, maps, ms.len()),
        veto_text(votes, team_one, team_two, maps),
    ) {
        (Some(p), Some(lines), Some(veto)) => Some(
            detail_header(team_one.name@, p.0, p.1, team_two.name@) + lines + "\n"@ + veto,
        ),
        _ => None,
    }
}

fn push_detail_row(out: &mut String, pos: u64, map: &str, st: SeriesType, sc: MatchScore, picker: &str)
    ensures
        final(out)@ == old(out)@ + detail_row(pos as nat, map@, st, sc, picker@),
{
    out.append("**");
    push_decimal(out, pos);
    out.append(". `");
    out.append(map);
    out.append("` ");
    if st != SeriesType::Bo1 {
        out.append("**`");
        push_int(out, sc.team_one_score as i64);
        out.append("`**");
        out.append(" - ");
        out.append("**`");
        push_int(out, sc.team_two_score as i64);
        out.append("`**");
    }
    out.append(" - picked by: ");
    out.append(picker);
    out.append("\n");
    assert(out@ =~= old(out)@ + detail_row(pos as nat, map@, st, sc, picker@));
}

fn push_detail_header(out: &mut String, a: &str, s1: i32, s2: i32, b: &str)
    ensures
        final(out)@ == old(out)@ + detail_header(a@, s1 as int, s2 as int, b@),
{
    out.append(a);
    out.append(" **`");
    push_int(out, s1 as i64);
    out.append("`**");
    out.append(" - ");
    out.append("**`");
    push_int(out, s2 as i64);
    out.append("`** ");
    out.append(b);
    out.append("\n");
    assert(out@ =~= old(out)@ + detail_header(a@, s1 as int, s2 as int, b@));
}

/// The details of one series (see `details_of`); `None` when a lookup
/// misses.
pub fn find_text(
    series: &MatchSeries,
    team_one: &Team,
    team_two: &Team,
    matches: &Vec<Match>,
    teams: &Vec<Team>,
    maps: &Vec<MapPoolEntry>,
    scores: &Vec<MatchScore>,
    votes: &Vec<VoteInfo>,
) -> (r: Option<String>)
    ensures
        match details_of(*series, *team_one, *team_two, matches@, teams@, maps@, scores@, votes@) {
            Some(t) => r is Some && r->Some_0@ == t,
            None => r is None,
        },
{
    let p = match score_of(scores, series.series_type) {
        Some(p) => p,
        None => {
            return None;
        },
    };
    let st = series.series_type;
    let mut out = String::new();
    push_detail_header(&mut out, team_one.name.as_str(), p.0, p.1, team_two.name.as_str());
    let ghost head = out@;
    let mut i: usize = 0;
    while i < matches.len()
        invariant
            i <= matches@.len(),
            st == series.series_type,
            series_score(scores@, st) == Some((p.0 as int, p.1 as int)),
            head == detail_header(team_one.name@, p.0 as int, p.1 as int, team_two.name@),
            detail_lines(matches@, st, teams@, scores@, maps@, i as nat) matches Some(l) && out@
                == head + l,
        decreases matches@.len() - i,
    {
        let m = &matches[i];
        let found = (find_team(teams, m.picked_by), find_score(scores, m.id));
        let (t, sc) = match found {
            (Some(t), Some(sc)) => (t, sc),
            _ => {
                proof {
                    lemma_detail_none(matches@, st, teams@, scores@, maps@, (i + 1) as nat, matches@.len());
                }
                return None;
            },
        };
        if m.map < 0 {
            proof {
                lemma_detail_none(matches@, st, teams@, scores@, maps@, (i + 1) as nat, matches@.len());
            }
            return None;
        }
        let k = match find_map(maps, m.map as u64) {
            Some(k) => k,
            None => {
                proof {
                    lemma_detail_none(matches@, st, teams@, scores@, maps@, (i + 1) as nat, matches@.len());
                }
                return None;
            },
        };
        let ghost before = out@;
        push_detail_row(&mut out, (i + 1) as u64, maps[k].name.as_str(), st, scores[sc], teams[t].name.as_str());
        assert(out@ =~= head + detail_lines(matches@, st, teams@, scores@, maps@, (i + 1) as nat)->Some_0);
        i = i + 1;
    }
    let veto = match series.veto_info(votes, team_one, team_two, maps) {
        Some(v) => v,
        None => {
            return None;
        },
    };
    out.append("\n");
    out.append(veto.as_str());
    proof {
        let l = detail_lines(matches@, st, teams@, scores@, maps@, matches@.len())->Some_0;
        assert(out@ =~= detail_header(team_one.name@, p.0 as int, p.1 as int, team_two.name@) + l + "\n"@
            + veto@);
    }
    Some(out)
}

} // verus!
