use match_setup::registry::SessionRegistry;
use match_setup::series::{generate, SeriesType, StepTemplateEntry, TeamSlot, VoteType};
use match_setup::session::{
    MapPoolEntry, ResolvedMap, SessionState, SetupError, SetupSession, Side, Team,
};

const ONE: u64 = 100;
const TWO: u64 = 200;

fn team(id: u64, name: &str, role: u64) -> Team {
    Team { id, name: name.to_string(), role }
}

fn pool() -> Vec<MapPoolEntry> {
    let names = ["Mirage", "Inferno", "Nuke", "Overpass", "Ancient", "Anubis", "Vertigo"];
    names
        .iter()
        .enumerate()
        .map(|(i, n)| MapPoolEntry { id: i as u64 + 1, name: n.to_string() })
        .collect()
}

fn id_of(name: &str) -> u64 {
    pool().into_iter().find(|m| m.name == name).unwrap().id
}

fn session(series_type: SeriesType) -> SetupSession {
    SetupSession::start_setup(
        7,
        team(ONE, "Alpha", 11),
        team(TWO, "Bravo", 22),
        series_type,
        pool(),
        1000,
        Some(2000),
    )
    .unwrap()
}

fn actor_of(slot: TeamSlot) -> u64 {
    match slot {
        TeamSlot::TeamOne => ONE,
        TeamSlot::TeamTwo => TWO,
    }
}

/// Runs the whole template, taking the first remaining map each time, and
/// lets the non-picking team choose CT on every map.
fn run_to_completion(s: &mut SetupSession) {
    while let Some(slot) = s.current_actor() {
        let entry = generate(s.series_type())[s.cursor()];
        let map = s.remaining_maps()[0].id;
        s.submit_step(actor_of(slot), entry.kind, map).unwrap();
    }
    let picks: Vec<ResolvedMap> = s.resolved_maps().clone();
    for m in picks {
        let chooser = actor_of(match m.picked_by {
            TeamSlot::TeamOne => TeamSlot::TeamTwo,
            TeamSlot::TeamTwo => TeamSlot::TeamOne,
        });
        s.submit_side_choice(chooser, m.map.id, Side::CounterTerrorist).unwrap();
    }
}

fn e(kind: VoteType, actor: TeamSlot) -> StepTemplateEntry {
    StepTemplateEntry { kind, actor }
}

#[test]
fn templates_match_table() {
    let (o, t) = (TeamSlot::TeamOne, TeamSlot::TeamTwo);
    let (p, v) = (VoteType::Pick, VoteType::Veto);
    assert_eq!(
        generate(SeriesType::Bo1),
        vec![e(v, t), e(v, o), e(v, t), e(v, o), e(v, t), e(p, o)]
    );
    assert_eq!(
        generate(SeriesType::Bo3),
        vec![e(v, o), e(v, t), e(p, o), e(p, t), e(v, t), e(p, o)]
    );
    assert_eq!(
        generate(SeriesType::Bo5),
        vec![e(v, o), e(v, t), e(p, o), e(p, t), e(p, o), e(p, t), e(p, o)]
    );
    assert_eq!(generate(SeriesType::Bo3), generate(SeriesType::Bo3));
    assert_eq!(generate(SeriesType::Bo1).len(), 6);
    assert_eq!(generate(SeriesType::Bo3).len(), 6);
    assert_eq!(generate(SeriesType::Bo5).len(), 7);
}

#[test]
fn series_type_names() {
    assert_eq!(SeriesType::Bo1.name(), "bo1");
    assert_eq!(SeriesType::Bo5.name(), "bo5");
    assert_eq!(SeriesType::parse("bo3"), Some(SeriesType::Bo3));
    assert_eq!(SeriesType::parse("bo1"), Some(SeriesType::Bo1));
    assert_eq!(SeriesType::parse("Bo3"), None);
    assert_eq!(SeriesType::parse(""), None);
    assert_eq!("bo5".parse::<SeriesType>(), Ok(SeriesType::Bo5));
    assert_eq!("best of five".parse::<SeriesType>(), Err(()));
    assert_eq!(VoteType::Veto.label(), "Veto");
    assert_eq!(VoteType::Pick.label(), "Pick");
}

#[test]
fn bo1_end_to_end() {
    let mut s = session(SeriesType::Bo1);
    assert_eq!(s.state(), SessionState::Pending);
    s.submit_step(TWO, VoteType::Veto, id_of("Nuke")).unwrap();
    assert_eq!(s.state(), SessionState::InProgress);
    s.submit_step(ONE, VoteType::Veto, id_of("Anubis")).unwrap();
    s.submit_step(TWO, VoteType::Veto, id_of("Vertigo")).unwrap();
    s.submit_step(ONE, VoteType::Veto, id_of("Overpass")).unwrap();
    s.submit_step(TWO, VoteType::Veto, id_of("Ancient")).unwrap();
    let left: Vec<String> = s.remaining_maps().iter().map(|m| m.name.clone()).collect();
    assert_eq!(left, vec!["Mirage".to_string(), "Inferno".to_string()]);
    s.submit_step(ONE, VoteType::Pick, id_of("Mirage")).unwrap();
    assert_eq!(s.state(), SessionState::AwaitingSides);
    assert_eq!(s.resolved_maps().len(), 1);
    assert_eq!(s.resolved_maps()[0].map.name, "Mirage");
    assert_eq!(s.resolved_maps()[0].picked_by, TeamSlot::TeamOne);
    assert_eq!(s.pending_side_choices(), vec![id_of("Mirage")]);
    s.submit_side_choice(TWO, id_of("Mirage"), Side::CounterTerrorist).unwrap();
    assert_eq!(s.state(), SessionState::Completed);
    let m = &s.resolved_maps()[0];
    assert_eq!(m.map.name, "Mirage");
    assert_eq!(m.picked_by, TeamSlot::TeamOne);
    assert_eq!(m.start_side_team_two, Some(Side::CounterTerrorist));
    assert_eq!(m.start_side_team_one, Some(Side::Terrorist));
    assert!(s.pending_side_choices().is_empty());
    assert_eq!(
        s.transcript(),
        "- Bravo banned Nuke\n- Alpha banned Anubis\n- Bravo banned Vertigo\n\
         - Alpha banned Overpass\n- Bravo banned Ancient\n+ Alpha picked Mirage\n"
    );
}

#[test]
fn cursor_and_pool_stay_in_step() {
    let mut s = session(SeriesType::Bo5);
    let total = pool().len();
    let mut last = s.cursor();
    while let Some(slot) = s.current_actor() {
        let entry = generate(SeriesType::Bo5)[s.cursor()];
        let map = s.remaining_maps()[0].id;
        s.submit_step(actor_of(slot), entry.kind, map).unwrap();
        assert!(s.cursor() > last);
        assert!(s.cursor() <= 7);
        assert_eq!(s.remaining_maps().len(), total - s.cursor());
        last = s.cursor();
    }
    assert_eq!(s.cursor(), 7);
}

#[test]
fn wrong_team_is_not_your_turn() {
    let mut s = session(SeriesType::Bo1);
    assert_eq!(s.submit_step(ONE, VoteType::Veto, 1), Err(SetupError::NotYourTurn));
    assert_eq!(s.cursor(), 0);
    s.submit_step(TWO, VoteType::Veto, 1).unwrap();
    assert_eq!(s.submit_step(TWO, VoteType::Veto, 2), Err(SetupError::NotYourTurn));
    assert_eq!(s.cursor(), 1);
    assert_eq!(s.remaining_maps().len(), 6);
}

#[test]
fn map_consumed_only_once() {
    let mut s = session(SeriesType::Bo1);
    s.submit_step(TWO, VoteType::Veto, 3).unwrap();
    assert_eq!(s.submit_step(ONE, VoteType::Veto, 3), Err(SetupError::MapAlreadyConsumed));
    assert_eq!(s.cursor(), 1);
    s.submit_step(ONE, VoteType::Veto, 4).unwrap();
    assert_eq!(s.submit_step(TWO, VoteType::Veto, 3), Err(SetupError::MapAlreadyConsumed));
}

#[test]
fn other_step_errors() {
    let mut s = session(SeriesType::Bo1);
    assert_eq!(s.submit_step(999, VoteType::Veto, 1), Err(SetupError::InvalidActor));
    assert_eq!(s.submit_step(TWO, VoteType::Pick, 1), Err(SetupError::WrongStepType));
    assert_eq!(s.submit_step(TWO, VoteType::Veto, 42), Err(SetupError::UnknownMap));
    assert_eq!(s.cursor(), 0);
    assert_eq!(s.state(), SessionState::Pending);
}

#[test]
fn too_small_pool_is_refused() {
    let small: Vec<MapPoolEntry> = pool().into_iter().take(6).collect();
    let r = SetupSession::start_setup(
        1,
        team(ONE, "Alpha", 11),
        team(TWO, "Bravo", 22),
        SeriesType::Bo5,
        small.clone(),
        0,
        None,
    );
    assert_eq!(r.err(), Some(SetupError::InsufficientMapPool));
    let ok = SetupSession::start_setup(
        1,
        team(ONE, "Alpha", 11),
        team(TWO, "Bravo", 22),
        SeriesType::Bo3,
        small,
        0,
        None,
    );
    assert!(ok.is_ok());
}

#[test]
fn picks_match_series_length() {
    for (st, n) in [(SeriesType::Bo1, 1), (SeriesType::Bo3, 3), (SeriesType::Bo5, 5)] {
        let mut s = session(st);
        run_to_completion(&mut s);
        assert_eq!(s.state(), SessionState::Completed);
        assert_eq!(s.resolved_maps().len(), n);
        for (i, m) in s.resolved_maps().iter().enumerate() {
            assert_eq!(m.sequence_position, i);
        }
    }
}

#[test]
fn completed_sides_are_complementary() {
    let mut s = session(SeriesType::Bo3);
    run_to_completion(&mut s);
    for m in s.resolved_maps() {
        let one = m.start_side_team_one.unwrap();
        let two = m.start_side_team_two.unwrap();
        assert_ne!(one, two);
    }
}

#[test]
fn side_choice_errors() {
    let mut s = session(SeriesType::Bo3);
    s.submit_step(ONE, VoteType::Veto, 1).unwrap();
    s.submit_step(TWO, VoteType::Veto, 2).unwrap();
    assert_eq!(s.submit_side_choice(ONE, 3, Side::Terrorist), Err(SetupError::UnknownMap));
    s.submit_step(ONE, VoteType::Pick, 3).unwrap();
    assert_eq!(s.submit_side_choice(ONE, 3, Side::Terrorist), Err(SetupError::NotYourTurn));
    assert_eq!(s.submit_side_choice(5, 3, Side::Terrorist), Err(SetupError::InvalidActor));
    s.submit_side_choice(TWO, 3, Side::Terrorist).unwrap();
    assert_eq!(s.state(), SessionState::InProgress);
    assert_eq!(s.submit_side_choice(TWO, 3, Side::CounterTerrorist), Err(SetupError::SideAlreadyChosen));
    let m = &s.resolved_maps()[0];
    assert_eq!(m.start_side_team_two, Some(Side::Terrorist));
    assert_eq!(m.start_side_team_one, Some(Side::CounterTerrorist));
}

#[test]
fn finalize_is_idempotent() {
    let mut s = session(SeriesType::Bo3);
    assert_eq!(s.finalize(5).err(), Some(SetupError::IncompleteSetup));
    run_to_completion(&mut s);
    let a = s.finalize(5000).unwrap();
    let b = s.finalize(9000).unwrap();
    assert_eq!(a.series_id, 7);
    assert_eq!(a.completed_at, 5000);
    assert_eq!(b.completed_at, 5000);
    assert_eq!(format!("{:?}", a), format!("{:?}", b));
    assert_eq!(a.maps.len(), 3);
}

#[test]
fn completed_session_refuses_steps() {
    let mut s = session(SeriesType::Bo1);
    run_to_completion(&mut s);
    let before = format!("{:?}", s.resolved_maps());
    assert_eq!(s.submit_step(ONE, VoteType::Pick, 1), Err(SetupError::SeriesAlreadyCompleted));
    assert_eq!(s.submit_step(TWO, VoteType::Veto, 2), Err(SetupError::SeriesAlreadyCompleted));
    assert_eq!(format!("{:?}", s.resolved_maps()), before);
}

#[test]
fn awaiting_sides_refuses_steps() {
    let mut s = session(SeriesType::Bo1);
    for (actor, map) in [(TWO, 1), (ONE, 2), (TWO, 3), (ONE, 4), (TWO, 5)] {
        s.submit_step(actor, VoteType::Veto, map).unwrap();
    }
    s.submit_step(ONE, VoteType::Pick, 6).unwrap();
    assert_eq!(s.submit_step(TWO, VoteType::Veto, 7), Err(SetupError::WrongStepType));
    assert_eq!(s.current_actor(), None);
}

#[test]
fn expiry() {
    let mut s = session(SeriesType::Bo1);
    assert!(!s.expire_if_due(1999));
    assert!(s.expire_if_due(2000));
    assert_eq!(s.state(), SessionState::Expired);
    assert_eq!(s.submit_step(TWO, VoteType::Veto, 1), Err(SetupError::SeriesExpired));
    assert_eq!(s.submit_side_choice(TWO, 1, Side::Terrorist), Err(SetupError::SeriesExpired));
    assert!(!s.expire());
    assert_eq!(s.finalize(1).err(), Some(SetupError::IncompleteSetup));
}

#[test]
fn registry_flow() {
    let mut r = SessionRegistry::new();
    assert_eq!(r.submit_step(7, TWO, VoteType::Veto, 1), Err(SetupError::UnknownSeries));
    r.start_setup(7, team(ONE, "Alpha", 11), team(TWO, "Bravo", 22), SeriesType::Bo1, pool(), 0, Some(50))
        .unwrap();
    assert_eq!(
        r.start_setup(7, team(ONE, "Alpha", 11), team(TWO, "Bravo", 22), SeriesType::Bo1, pool(), 0, None),
        Err(SetupError::DuplicateSeries)
    );
    r.start_setup(8, team(ONE, "Alpha", 11), team(TWO, "Bravo", 22), SeriesType::Bo1, pool(), 0, Some(10))
        .unwrap();
    for (actor, map) in [(TWO, 1), (ONE, 2), (TWO, 3), (ONE, 4), (TWO, 5)] {
        r.submit_step(7, actor, VoteType::Veto, map).unwrap();
    }
    assert_eq!(r.submit_step(7, TWO, VoteType::Pick, 6), Err(SetupError::NotYourTurn));
    r.submit_step(7, ONE, VoteType::Pick, 6).unwrap();
    assert_eq!(r.finalize(7, 1).err(), Some(SetupError::IncompleteSetup));
    assert!(r.evict(7).is_none());
    r.submit_side_choice(7, TWO, 6, Side::Terrorist).unwrap();
    let c = r.finalize(7, 99).unwrap();
    assert_eq!(c.maps[0].map.name, "Anubis");
    assert_eq!(c.maps[0].start_side_team_one, Some(Side::CounterTerrorist));
    assert!(r.expire_if_due(8, 10));
    assert_eq!(r.get(8).unwrap().state(), SessionState::Expired);
    assert_eq!(r.get(8).unwrap().cursor(), 0);
    assert!(!r.expire_if_due(7, 1000));
    assert!(r.evict(7).is_some());
    assert!(r.get(7).is_none());
    assert_eq!(r.finalize(7, 1).err(), Some(SetupError::UnknownSeries));
}
