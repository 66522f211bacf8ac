use match_setup::records::{get_series_score, MatchScore, MatchSeries, VoteInfo};
use match_setup::render::{eos_printout, print_match_info, print_veto_info, MatchSetupStep, ScheduledMatch};
use match_setup::series::{SeriesType, TeamSlot, VoteType};
use match_setup::session::{MapPoolEntry, MatchConfig, ResolvedMap, Side, Team};
use match_setup::steamid::convert_steamid_to_64;

fn score(match_id: i32, one: i32, two: i32) -> MatchScore {
    MatchScore { id: match_id, match_id, team_one_score: one, team_two_score: two }
}

#[test]
fn series_score_counts_maps_won() {
    let scores = vec![score(1, 16, 10), score(2, 8, 16), score(3, 16, 14)];
    assert_eq!(get_series_score(&scores, SeriesType::Bo3), (2, 1));
    let tied = vec![score(1, 15, 15)];
    assert_eq!(get_series_score(&tied, SeriesType::Bo5), (0, 0));
    assert_eq!(get_series_score(&vec![], SeriesType::Bo3), (0, 0));
}

#[test]
fn series_score_bo1_reads_first_map() {
    let scores = vec![score(1, 16, 12)];
    assert_eq!(get_series_score(&scores, SeriesType::Bo1), (16, 16));
}

fn series() -> MatchSeries {
    MatchSeries {
        id: 3,
        team_one: 1,
        team_two: 2,
        series_type: SeriesType::Bo1,
        dathost_match: None,
        created_at: 0,
        completed_at: None,
    }
}

fn maps() -> Vec<MapPoolEntry> {
    vec![
        MapPoolEntry { id: 1, name: "Mirage".to_string() },
        MapPoolEntry { id: 2, name: "Nuke".to_string() },
    ]
}

fn vote(map: i32, vote_type: VoteType, team: i32) -> VoteInfo {
    VoteInfo { id: 0, match_series: 3, map, vote_type, team }
}

#[test]
fn veto_info_renders_votes() {
    let one = Team { id: 1, name: "Alpha".to_string(), role: 11 };
    let two = Team { id: 2, name: "Bravo".to_string(), role: 22 };
    let votes = vec![vote(2, VoteType::Veto, 2), vote(0, VoteType::Veto, 1), vote(1, VoteType::Pick, 1)];
    assert_eq!(
        series().veto_info(&votes, &one, &two, &maps()).unwrap(),
        "```diff\n- Bravo banned Nuke\n+ Alpha picked Mirage\n```"
    );
    assert_eq!(
        series().veto_info(&vec![], &one, &two, &maps()).unwrap(),
        "This match has no veto info yet"
    );
    assert!(series().veto_info(&vec![vote(9, VoteType::Veto, 1)], &one, &two, &maps()).is_none());
}

#[test]
fn steamid_conversion() {
    assert_eq!(convert_steamid_to_64(&"STEAM_0:1:12345".to_string()), Some(76561197960290419));
    assert_eq!(convert_steamid_to_64(&"STEAM_1:0:0".to_string()), Some(76561197960265728));
    assert_eq!(convert_steamid_to_64(&"STEAM_0:+1:-1".to_string()), Some(76561197960265727));
    assert_eq!(convert_steamid_to_64(&"STEAM_0:1".to_string()), None);
    assert_eq!(convert_steamid_to_64(&"STEAM_0:x:5".to_string()), None);
    assert_eq!(convert_steamid_to_64(&"STEAM_0:1:".to_string()), None);
    assert_eq!(convert_steamid_to_64(&"STEAM_0:0:9999999999999999999".to_string()), None);
    assert_eq!(convert_steamid_to_64(&"STEAM_0:0:4611686018427387903".to_string()), None);
}

#[test]
fn closing_message_lists_maps() {
    let one = Team { id: 1, name: "Alpha".to_string(), role: 11 };
    let two = Team { id: 2, name: "Bravo".to_string(), role: 22 };
    let config = MatchConfig {
        series_id: 3,
        maps: vec![ResolvedMap {
            sequence_position: 0,
            map: MapPoolEntry { id: 1, name: "Mirage".to_string() },
            picked_by: TeamSlot::TeamOne,
            start_side_team_one: Some(Side::Terrorist),
            start_side_team_two: Some(Side::CounterTerrorist),
        }],
        completed_at: 10,
    };
    assert_eq!(
        eos_printout(&config, &one, &two),
        "\n\nSetup is completed. GLHF!\n\n**1. mirage** - picked by: <@&11>\n    \
         _Defense start:_ <@&22>\n    _Attack start:_ <@&11>\n\n"
    );
}

fn listing(note: Option<&str>, schedule: Option<&str>) -> ScheduledMatch {
    ScheduledMatch {
        id: 12,
        team_one_role_id: 11,
        team_two_role_id: 22,
        team_one_name: "Alpha".to_string(),
        team_two_name: "Bravo".to_string(),
        scheduled_time_str: schedule.map(|s| s.to_string()),
        note: note.map(|s| s.to_string()),
    }
}

fn step(step_type: VoteType, team_role_id: i64, map: Option<&str>) -> MatchSetupStep {
    MatchSetupStep { match_id: 12, step_type, team_role_id, map: map.map(|s| s.to_string()) }
}

#[test]
fn setup_veto_record() {
    let m = listing(None, None);
    let steps = vec![step(VoteType::Veto, 22, Some("Nuke")), step(VoteType::Pick, 11, Some("DE_Mirage"))];
    assert_eq!(
        print_veto_info(&steps, &m).unwrap(),
        "```diff\n- Bravo banned nuke\n+ Alpha picked de_mirage\n```"
    );
    assert_eq!(print_veto_info(&vec![], &m).unwrap(), "_This match has no veto info yet_");
    assert!(print_veto_info(&vec![step(VoteType::Veto, 22, None)], &m).is_none());
}

#[test]
fn match_listing_line() {
    assert_eq!(print_match_info(&listing(None, None), false), "- Alpha vs Bravo\n");
    assert_eq!(
        print_match_info(&listing(Some("finals"), Some("Fri 20:00")), true),
        "- Alpha vs Bravo > Scheduled: `Fri 20:00` `finals`\n    _Match ID:_ `12\n`"
    );
}
