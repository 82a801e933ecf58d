use roster::error::ServiceError;
use roster::player::{Player, PlayerRef, PlayerService, PlayerServiceImpl};
use roster::team::{Team, TeamService, TeamServiceImpl};

fn person(id: u32, name: &str, last_name: &str) -> Player {
    Player::new(id, String::from(name), String::from(last_name))
}

fn service_with_players(ids: &[u32]) -> TeamServiceImpl<PlayerServiceImpl> {
    let mut service = TeamServiceImpl::new(PlayerServiceImpl::new());
    for id in ids {
        service.player_service_mut().create_player(person(*id, "Name", "Last")).unwrap();
    }
    service
}

fn member_ids(service: &TeamServiceImpl<PlayerServiceImpl>, team_id: u32) -> Vec<u32> {
    service.get_team(team_id).unwrap().players().iter().map(|r| r.id).collect()
}

#[test]
fn new_team_has_no_players() {
    let team = Team::new(4, String::from("Reds"));
    assert_eq!(team.id(), 4);
    assert_eq!(team.name(), "Reds");
    assert_eq!(team.player_count(), 0);
    assert!(team.players().is_empty());
}

#[test]
fn add_player_appends_in_order() {
    let mut team = Team::new(1, String::from("Team A"));
    let a = PlayerRef { slot: 0, id: 11 };
    let b = PlayerRef { slot: 1, id: 7 };
    assert!(team.add_player(a).is_ok());
    assert!(team.add_player(b).is_ok());
    assert_eq!(team.player_count(), 2);
    assert_eq!(team.players().as_slice(), &[a, b]);
}

#[test]
fn add_player_refuses_an_identifier_that_the_team_has() {
    let mut team = Team::new(3, String::from("Team C"));
    team.add_player(PlayerRef { slot: 0, id: 11 }).unwrap();
    match team.add_player(PlayerRef { slot: 9, id: 11 }) {
        Err(ServiceError::AlreadyExists(msg)) => assert_eq!(msg, "Player 11 is already in team 3"),
        other => panic!("expected AlreadyExists, got {:?}", other),
    }
    assert_eq!(team.player_count(), 1);
    assert_eq!(team.players()[0], PlayerRef { slot: 0, id: 11 });
}

#[test]
fn clone_of_a_team_does_not_follow_its_source() {
    let mut team = Team::new(1, String::from("Team A"));
    team.add_player(PlayerRef { slot: 0, id: 1 }).unwrap();
    let copy = team.clone();
    team.add_player(PlayerRef { slot: 1, id: 2 }).unwrap();
    assert_eq!(copy.id(), 1);
    assert_eq!(copy.name(), "Team A");
    assert_eq!(copy.player_count(), 1);
    assert_eq!(team.player_count(), 2);
}

#[test]
fn new_team_registry_is_empty() {
    let service = TeamServiceImpl::new(PlayerServiceImpl::new());
    assert!(service.find_team_by_id(1).is_none());
    assert!(matches!(service.get_team(1), Err(ServiceError::NotFound(_))));
    assert_eq!(service.player_service().count(), 0);
}

#[test]
fn team_registry_keeps_the_player_registry_it_was_given() {
    let mut players = PlayerServiceImpl::new();
    let r = players.create_player(person(1, "John", "Doe")).unwrap();
    let service = TeamServiceImpl::new(players);
    assert_eq!(service.player_service().count(), 1);
    assert_eq!(service.player_service().get_player(1).unwrap(), r);
}

#[test]
fn create_team_returns_the_team() {
    let mut service = service_with_players(&[]);
    let created = service.create_team(Team::new(1, String::from("Team A"))).unwrap();
    assert_eq!(created.id(), 1);
    assert_eq!(created.name(), "Team A");
    assert_eq!(created.player_count(), 0);
    let stored = service.get_team(1).unwrap();
    assert_eq!(stored.id(), 1);
    assert_eq!(stored.name(), "Team A");
}

#[test]
fn create_team_keeps_the_players_that_the_team_came_with() {
    let mut service = service_with_players(&[1, 2]);
    let mut team = Team::new(1, String::from("Team A"));
    team.add_player(service.player_service().get_player(2).unwrap()).unwrap();
    service.create_team(team).unwrap();
    assert_eq!(member_ids(&service, 1), vec![2]);
    assert!(matches!(
        service.insert_player_to_team(1, 2),
        Err(ServiceError::AlreadyExists(_))
    ));
    service.insert_player_to_team(1, 1).unwrap();
    assert_eq!(member_ids(&service, 1), vec![2, 1]);
}

#[test]
fn create_team_with_a_taken_id_fails_and_changes_nothing() {
    let mut service = service_with_players(&[]);
    service.create_team(Team::new(1, String::from("Team A"))).unwrap();
    match service.create_team(Team::new(1, String::from("Team B"))) {
        Err(ServiceError::AlreadyExists(msg)) => assert_eq!(msg, "Team with id 1 already exists"),
        other => panic!("expected AlreadyExists, got {:?}", other.map(|t| t.id())),
    }
    assert_eq!(service.get_team(1).unwrap().name(), "Team A");
    assert!(service.find_team_by_id(1).is_some());
}

#[test]
fn created_team_is_a_snapshot() {
    let mut service = service_with_players(&[1]);
    let snapshot = service.create_team(Team::new(1, String::from("Team A"))).unwrap();
    service.insert_player_to_team(1, 1).unwrap();
    assert_eq!(snapshot.player_count(), 0);
    assert_eq!(service.get_team(1).unwrap().player_count(), 1);
}

#[test]
fn get_team_of_a_missing_team_is_not_found() {
    let mut service = service_with_players(&[]);
    service.create_team(Team::new(1, String::from("Team A"))).unwrap();
    match service.get_team(9) {
        Err(ServiceError::NotFound(msg)) => assert_eq!(msg, "Team with id 9 not found"),
        other => panic!("expected NotFound, got {:?}", other.map(|t| t.id())),
    }
}

#[test]
fn find_team_by_id_gives_the_position() {
    let mut service = service_with_players(&[]);
    service.create_team(Team::new(5, String::from("Five"))).unwrap();
    service.create_team(Team::new(2, String::from("Two"))).unwrap();
    let (at, team) = service.find_team_by_id(2).unwrap();
    assert_eq!(at, 1);
    assert_eq!(team.name(), "Two");
    let (at, team) = service.find_team_by_id(5).unwrap();
    assert_eq!(at, 0);
    assert_eq!(team.name(), "Five");
    assert!(service.find_team_by_id(1).is_none());
}

#[test]
fn insert_puts_the_registry_handle_last() {
    let mut service = service_with_players(&[1, 2, 3]);
    service.create_team(Team::new(1, String::from("Team A"))).unwrap();
    service.insert_player_to_team(1, 3).unwrap();
    service.insert_player_to_team(1, 1).unwrap();
    service.insert_player_to_team(1, 2).unwrap();
    assert_eq!(member_ids(&service, 1), vec![3, 1, 2]);
    let team = service.get_team(1).unwrap();
    for r in team.players().iter() {
        assert_eq!(service.player_service().get_player(r.id).unwrap(), *r);
    }
}

#[test]
fn insert_of_a_missing_player_is_not_found() {
    let mut service = service_with_players(&[1]);
    service.create_team(Team::new(1, String::from("Team A"))).unwrap();
    match service.insert_player_to_team(1, 7) {
        Err(ServiceError::NotFound(msg)) => assert_eq!(msg, "Player with id 7 not found"),
        other => panic!("expected NotFound, got {:?}", other),
    }
    assert_eq!(member_ids(&service, 1), Vec::<u32>::new());
}

#[test]
fn insert_into_a_missing_team_is_not_found() {
    let mut service = service_with_players(&[1]);
    service.create_team(Team::new(1, String::from("Team A"))).unwrap();
    match service.insert_player_to_team(8, 1) {
        Err(ServiceError::NotFound(msg)) => assert_eq!(msg, "Team with id 8 not found"),
        other => panic!("expected NotFound, got {:?}", other),
    }
    assert_eq!(member_ids(&service, 1), Vec::<u32>::new());
}

#[test]
fn insert_looks_for_the_player_before_the_team() {
    let mut service = service_with_players(&[1]);
    match service.insert_player_to_team(8, 7) {
        Err(ServiceError::NotFound(msg)) => assert_eq!(msg, "Player with id 7 not found"),
        other => panic!("expected NotFound, got {:?}", other),
    }
}

#[test]
fn insert_twice_succeeds_then_fails_and_leaves_one_entry() {
    let mut service = service_with_players(&[1, 2]);
    service.create_team(Team::new(4, String::from("Team D"))).unwrap();
    assert!(service.insert_player_to_team(4, 2).is_ok());
    match service.insert_player_to_team(4, 2) {
        Err(ServiceError::AlreadyExists(msg)) => assert_eq!(msg, "Player 2 is already in team 4"),
        other => panic!("expected AlreadyExists, got {:?}", other),
    }
    assert_eq!(member_ids(&service, 4), vec![2]);
}

#[test]
fn one_player_can_be_in_several_teams() {
    let mut service = service_with_players(&[1]);
    service.create_team(Team::new(1, String::from("Team A"))).unwrap();
    service.create_team(Team::new(2, String::from("Team B"))).unwrap();
    service.insert_player_to_team(1, 1).unwrap();
    service.insert_player_to_team(2, 1).unwrap();
    assert_eq!(member_ids(&service, 1), vec![1]);
    assert_eq!(member_ids(&service, 2), vec![1]);
    assert_eq!(
        service.get_team(1).unwrap().players()[0],
        service.get_team(2).unwrap().players()[0]
    );
}

#[test]
fn remove_twice_succeeds_then_fails() {
    let mut service = service_with_players(&[1, 2]);
    service.create_team(Team::new(3, String::from("Team C"))).unwrap();
    service.insert_player_to_team(3, 1).unwrap();
    service.insert_player_to_team(3, 2).unwrap();
    assert!(service.remove_player_from_team(3, 1).is_ok());
    match service.remove_player_from_team(3, 1) {
        Err(ServiceError::NotFound(msg)) => assert_eq!(msg, "Player 1 not found in team 3"),
        other => panic!("expected NotFound, got {:?}", other),
    }
    assert_eq!(member_ids(&service, 3), vec![2]);
}

#[test]
fn remove_keeps_the_order_of_the_others() {
    let mut service = service_with_players(&[1, 2, 3, 4]);
    service.create_team(Team::new(1, String::from("Team A"))).unwrap();
    for id in [1, 2, 3, 4] {
        service.insert_player_to_team(1, id).unwrap();
    }
    service.remove_player_from_team(1, 2).unwrap();
    assert_eq!(member_ids(&service, 1), vec![1, 3, 4]);
    service.remove_player_from_team(1, 4).unwrap();
    assert_eq!(member_ids(&service, 1), vec![1, 3]);
    service.remove_player_from_team(1, 1).unwrap();
    assert_eq!(member_ids(&service, 1), vec![3]);
    service.insert_player_to_team(1, 1).unwrap();
    assert_eq!(member_ids(&service, 1), vec![3, 1]);
}

#[test]
fn remove_from_a_missing_team_is_not_found() {
    let mut service = service_with_players(&[1]);
    match service.remove_player_from_team(6, 1) {
        Err(ServiceError::NotFound(msg)) => assert_eq!(msg, "Team with id 6 not found"),
        other => panic!("expected NotFound, got {:?}", other),
    }
}

#[test]
fn remove_of_a_player_that_the_team_lacks_is_not_found() {
    let mut service = service_with_players(&[1]);
    service.create_team(Team::new(6, String::from("Team F"))).unwrap();
    match service.remove_player_from_team(6, 1) {
        Err(ServiceError::NotFound(msg)) => assert_eq!(msg, "Player 1 not found in team 6"),
        other => panic!("expected NotFound, got {:?}", other),
    }
    match service.remove_player_from_team(6, 99) {
        Err(ServiceError::NotFound(msg)) => assert_eq!(msg, "Player 99 not found in team 6"),
        other => panic!("expected NotFound, got {:?}", other),
    }
}

#[test]
fn remove_touches_only_the_named_team() {
    let mut service = service_with_players(&[1, 2]);
    service.create_team(Team::new(1, String::from("Team A"))).unwrap();
    service.create_team(Team::new(2, String::from("Team B"))).unwrap();
    for team in [1, 2] {
        service.insert_player_to_team(team, 1).unwrap();
        service.insert_player_to_team(team, 2).unwrap();
    }
    service.remove_player_from_team(2, 1).unwrap();
    assert_eq!(member_ids(&service, 1), vec![1, 2]);
    assert_eq!(member_ids(&service, 2), vec![2]);
}

#[test]
fn update_is_seen_through_the_teams_that_have_the_player() {
    let mut service = service_with_players(&[1, 2]);
    service.create_team(Team::new(1, String::from("Team A"))).unwrap();
    service.create_team(Team::new(2, String::from("Team B"))).unwrap();
    service.insert_player_to_team(1, 1).unwrap();
    service.insert_player_to_team(2, 2).unwrap();
    service.insert_player_to_team(2, 1).unwrap();
    service.player_service_mut().update_player(person(1, "New", "Names")).unwrap();
    let in_a = service.get_team(1).unwrap().players()[0];
    let in_b = service.get_team(2).unwrap().players()[1];
    for r in [in_a, in_b] {
        let p = service.player_service().resolve(r).unwrap();
        assert_eq!((p.id, p.name.as_str(), p.last_name.as_str()), (1, "New", "Names"));
    }
    let other = service.get_team(2).unwrap().players()[0];
    let p = service.player_service().resolve(other).unwrap();
    assert_eq!((p.id, p.name.as_str(), p.last_name.as_str()), (2, "Name", "Last"));
}

#[test]
fn delete_of_a_player_leaves_the_teams_as_they_are() {
    let mut service = service_with_players(&[1, 2]);
    service.create_team(Team::new(1, String::from("Team A"))).unwrap();
    service.insert_player_to_team(1, 1).unwrap();
    service.insert_player_to_team(1, 2).unwrap();
    service.player_service_mut().update_player(person(1, "John", "Doe")).unwrap();
    service.player_service_mut().delete_player(1).unwrap();
    assert!(matches!(
        service.player_service().get_player(1),
        Err(ServiceError::NotFound(_))
    ));
    assert_eq!(member_ids(&service, 1), vec![1, 2]);
    let held = service.get_team(1).unwrap().players()[0];
    let p = service.player_service().resolve(held).unwrap();
    assert_eq!((p.id, p.name.as_str(), p.last_name.as_str()), (1, "John", "Doe"));
    assert!(matches!(
        service.insert_player_to_team(1, 1),
        Err(ServiceError::NotFound(_))
    ));
    assert!(service.remove_player_from_team(1, 1).is_ok());
    assert_eq!(member_ids(&service, 1), vec![2]);
}

#[test]
fn team_keeps_the_old_record_when_the_identifier_is_used_again() {
    let mut service = service_with_players(&[1]);
    service.create_team(Team::new(1, String::from("Team A"))).unwrap();
    service.insert_player_to_team(1, 1).unwrap();
    service.player_service_mut().delete_player(1).unwrap();
    let new = service.player_service_mut().create_player(person(1, "Jane", "Roe")).unwrap();
    match service.insert_player_to_team(1, 1) {
        Err(ServiceError::AlreadyExists(msg)) => assert_eq!(msg, "Player 1 is already in team 1"),
        other => panic!("expected AlreadyExists, got {:?}", other),
    }
    let held = service.get_team(1).unwrap().players()[0];
    assert_ne!(held, new);
    let p = service.player_service().resolve(held).unwrap();
    assert_eq!((p.name.as_str(), p.last_name.as_str()), ("Name", "Last"));
}
