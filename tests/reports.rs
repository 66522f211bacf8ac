use match_setup::records::{new_matches, Match, MatchScore, MatchSeries, Server, VoteInfo};
use match_setup::reports::{completed_text, find_text, inprogress_text, scheduled_text};
use match_setup::series::{SeriesType, TeamSlot, VoteType};
use match_setup::session::{MapPoolEntry, MatchConfig, ResolvedMap, Side, Team};

fn teams() -> Vec<Team> {
    vec![
        Team { id: 1, name: "Alpha".to_string(), role: 11 },
        Team { id: 2, name: "Bravo".to_string(), role: 22 },
    ]
}

fn series(id: i32, series_type: SeriesType) -> MatchSeries {
    MatchSeries {
        id,
        team_one: 1,
        team_two: 2,
        series_type,
        dathost_match: None,
        created_at: 0,
        completed_at: None,
    }
}

fn score(match_id: i32, one: i32, two: i32) -> MatchScore {
    MatchScore { id: match_id, match_id, team_one_score: one, team_two_score: two }
}

fn played(id: i32, map: i32, picked_by: i32) -> Match {
    Match {
        id,
        match_series: 4,
        map,
        picked_by,
        start_ct_team: 1,
        start_t_team: 2,
        completed_at: None,
    }
}

fn maps() -> Vec<MapPoolEntry> {
    vec![
        MapPoolEntry { id: 1, name: "Mirage".to_string() },
        MapPoolEntry { id: 2, name: "Nuke".to_string() },
    ]
}

#[test]
fn scheduled_lists_series() {
    let text = scheduled_text(&vec![series(4, SeriesType::Bo3), series(-2, SeriesType::Bo1)], &teams());
    assert_eq!(text.unwrap(), "`id: 4` Alpha vs Bravo\n`id: -2` Alpha vs Bravo\n");
    assert_eq!(scheduled_text(&vec![], &teams()).unwrap(), "No matches were found");
    let mut odd = series(5, SeriesType::Bo1);
    odd.team_two = 9;
    assert!(scheduled_text(&vec![odd], &teams()).is_none());
}

#[test]
fn completed_lists_scores() {
    let scores = vec![vec![score(1, 16, 4), score(2, 16, 9)]];
    let text = completed_text(&vec![series(4, SeriesType::Bo3)], &scores, &teams());
    assert_eq!(text.unwrap(), "`#4` Alpha **`2`** - **`0`** Bravo\n");
    assert!(completed_text(&vec![series(4, SeriesType::Bo1)], &vec![vec![]], &teams()).is_none());
}

#[test]
fn inprogress_lists_live_maps() {
    let server = Server {
        id: 1,
        match_series: 4,
        server_id: "abc".to_string(),
        hostname: "eu.example.org".to_string(),
        game_port: 27015,
        gotv_port: 27020,
    };
    let text = inprogress_text(
        &vec![score(10, 7, 3)],
        &vec![series(4, SeriesType::Bo3)],
        &vec![played(10, 1, 1)],
        &vec![server],
        &teams(),
    );
    assert_eq!(
        text.unwrap(),
        "`#10` <@&11> **`7`** - **`3`** <@&22>\n - GOTV: ||`connect eu.example.org:27020`||\n"
    );
    let none = inprogress_text(&vec![], &vec![series(4, SeriesType::Bo3)], &vec![], &vec![], &teams());
    assert_eq!(none.unwrap(), "No matches in progress were found");
    let missing = inprogress_text(
        &vec![score(10, 7, 3)],
        &vec![series(4, SeriesType::Bo3)],
        &vec![played(10, 1, 1)],
        &vec![],
        &teams(),
    );
    assert!(missing.is_none());
}

#[test]
fn find_shows_series_details() {
    let t = teams();
    let votes = vec![
        VoteInfo { id: 1, match_series: 4, map: 2, vote_type: VoteType::Veto, team: 2 },
        VoteInfo { id: 2, match_series: 4, map: 1, vote_type: VoteType::Pick, team: 1 },
    ];
    let text = find_text(
        &series(4, SeriesType::Bo3),
        &t[0],
        &t[1],
        &vec![played(10, 1, 1)],
        &t,
        &maps(),
        &vec![score(10, 16, 12)],
        &votes,
    );
    assert_eq!(
        text.unwrap(),
        "Alpha **`1`** - **`0`** Bravo\n**1. `Mirage` **`16`** - **`12`** - picked by: Alpha\n\n\
         ```diff\n- Bravo banned Nuke\n+ Alpha picked Mirage\n```"
    );
    let bo1 = find_text(
        &series(4, SeriesType::Bo1),
        &t[0],
        &t[1],
        &vec![played(10, 2, 2)],
        &t,
        &maps(),
        &vec![score(10, 16, 12)],
        &vec![],
    );
    assert_eq!(
        bo1.unwrap(),
        "Alpha **`16`** - **`16`** Bravo\n**1. `Nuke`  - picked by: Bravo\n\nThis match has no veto info yet"
    );
}

#[test]
fn stored_rows_of_a_config() {
    let t = teams();
    let config = MatchConfig {
        series_id: 4,
        maps: vec![ResolvedMap {
            sequence_position: 0,
            map: MapPoolEntry { id: 2, name: "Nuke".to_string() },
            picked_by: TeamSlot::TeamTwo,
            start_side_team_one: Some(Side::CounterTerrorist),
            start_side_team_two: Some(Side::Terrorist),
        }],
        completed_at: 1,
    };
    let rows = new_matches(&config, &t[0], &t[1]).unwrap();
    assert_eq!(rows.len(), 1);
    assert_eq!(rows[0].map_id, 2);
    assert_eq!(rows[0].picked_by_role, 22);
    assert_eq!(rows[0].start_ct_team_role, Some(11));
    assert_eq!(rows[0].start_t_team_role, Some(22));
    let big = Team { id: 1, name: "Alpha".to_string(), role: u64::MAX };
    assert!(new_matches(&config, &big, &t[1]).is_none());
}
