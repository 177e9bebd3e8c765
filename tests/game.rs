use verplant::{
    create_subway_map, Card, City, CompletionStatus, Delivery, GameError, GameMessage, GameState,
    LineId, PlayerAction, SessionRegistry, StationMark,
};

fn lid(s: &str) -> LineId {
    LineId(s.to_string())
}

fn game_with_players(card: Option<Card>) -> GameState {
    let map = create_subway_map(City::Amsterdam);
    let mut g = GameState::create(100, City::Amsterdam, 1, 9);
    g.add_player(1, &map);
    g.add_player(2, &map);
    g.current_card = card;
    g
}

fn pick_line(line: &str) -> PlayerAction {
    PlayerAction::ChooseLine { line_id: lid(line), car_window_index: 0 }
}

fn result_text(m: &GameMessage) -> String {
    match m {
        GameMessage::PlayerActionResult { success, message } => {
            assert!(*success);
            message.clone()
        }
        other => panic!("unexpected message {:?}", other),
    }
}

#[test]
fn add_player_replaces_an_existing_sheet() {
    let map = create_subway_map(City::Amsterdam);
    let mut g = game_with_players(Some(Card::Number(1)));
    assert_eq!(g.players.len(), 2);
    g.process_player_action(1, pick_line("red"), &map).unwrap();
    assert_eq!(g.players[0].marked_stations.len(), 1);
    g.add_player(1, &map);
    assert_eq!(g.players.len(), 2);
    assert!(g.players[0].marked_stations.is_empty());
}

#[test]
fn action_without_a_card_is_refused() {
    let map = create_subway_map(City::Amsterdam);
    let mut g = game_with_players(None);
    assert_eq!(g.process_player_action(1, pick_line("red"), &map).unwrap_err(), GameError::NoCardRevealed);
}

#[test]
fn unknown_player_is_refused() {
    let map = create_subway_map(City::Amsterdam);
    let mut g = game_with_players(Some(Card::Number(2)));
    assert_eq!(g.process_player_action(9, pick_line("red"), &map).unwrap_err(), GameError::PlayerNotFound);
}

#[test]
fn choose_line_marks_and_reports() {
    let map = create_subway_map(City::Amsterdam);
    let mut g = game_with_players(Some(Card::Number(2)));
    let msgs = g.process_player_action(1, pick_line("red"), &map).unwrap();
    assert_eq!(msgs.len(), 1);
    assert_eq!(result_text(&msgs[0]), "Marked 2 stations");
    assert_eq!(g.players[0].marked_stations.len(), 2);
    assert_eq!(g.players[0].train_cars[0].windows[0], Some("2".to_string()));
    assert!(g.players[1].marked_stations.is_empty());
    assert_eq!(g.deck.len(), 16);
}

#[test]
fn first_and_later_completions_score_differently() {
    let map = create_subway_map(City::Amsterdam);
    let mut g = game_with_players(Some(Card::Number(3)));
    let msgs = g.process_player_action(1, pick_line("red"), &map).unwrap();
    assert_eq!(msgs.len(), 2);
    match &msgs[0] {
        GameMessage::LineCompleted { player_id, line_id } => {
            assert_eq!(*player_id, 1);
            assert_eq!(line_id.0, "red");
        }
        other => panic!("unexpected message {:?}", other),
    }
    assert_eq!(result_text(&msgs[1]), "Marked 3 stations");
    let red = g.players[0].line_completion_status.iter().find(|s| s.line_id.0 == "red").unwrap();
    assert_eq!(red.status, CompletionStatus::FirstToComplete(6));
    let msgs = g.process_player_action(2, pick_line("red"), &map).unwrap();
    assert_eq!(msgs.len(), 2);
    let red = g.players[1].line_completion_status.iter().find(|s| s.line_id.0 == "red").unwrap();
    assert_eq!(red.status, CompletionStatus::LaterCompletion(3));
}

#[test]
fn full_line_is_refused_without_change() {
    let map = create_subway_map(City::Amsterdam);
    let mut g = game_with_players(Some(Card::Number(1)));
    for _ in 0..4 {
        g.process_player_action(1, pick_line("blue"), &map).unwrap();
    }
    let marks = g.players[0].marked_stations.len();
    assert_eq!(g.process_player_action(1, pick_line("blue"), &map).unwrap_err(), GameError::LineFull);
    assert_eq!(g.players[0].marked_stations.len(), marks);
}

#[test]
fn failed_marking_leaves_the_window_empty() {
    let mut map = create_subway_map(City::Amsterdam);
    map.stations.clear();
    let mut g = game_with_players(Some(Card::Transfer));
    assert_eq!(g.process_player_action(1, pick_line("red"), &map).unwrap_err(), GameError::StationNotFound);
    assert!(g.players[0].train_cars.iter().all(|c| c.windows.iter().all(|w| w.is_none())));
}

#[test]
fn transfer_station_action() {
    let map = create_subway_map(City::Amsterdam);
    let mut g = game_with_players(Some(Card::Number(1)));
    let action = PlayerAction::MarkTransferStation { station_id: "central".to_string() };
    assert_eq!(g.process_player_action(1, action.clone(), &map).unwrap_err(), GameError::NotTransferCard);
    g.current_card = Some(Card::Transfer);
    let unknown = PlayerAction::MarkTransferStation { station_id: "nowhere".to_string() };
    assert_eq!(g.process_player_action(1, unknown, &map).unwrap_err(), GameError::StationNotFound);
    assert_eq!(g.process_player_action(7, action.clone(), &map).unwrap_err(), GameError::PlayerNotFound);
    let msgs = g.process_player_action(1, action.clone(), &map).unwrap();
    assert_eq!(result_text(&msgs[0]), "Marked transfer station with 2 connections");
    assert_eq!(g.players[0].marked_stations[0].mark, StationMark::TransferNumber(2));
    assert_eq!(g.process_player_action(1, action, &map).unwrap_err(), GameError::StationAlreadyMarked);
}

#[test]
fn free_ride_station_action() {
    let map = create_subway_map(City::Amsterdam);
    let mut g = game_with_players(Some(Card::Six));
    let action = PlayerAction::MarkFreeRideStation { station_id: "dam".to_string() };
    assert_eq!(g.process_player_action(1, action.clone(), &map).unwrap_err(), GameError::NotFreeRideCard);
    g.current_card = Some(Card::FreeRide);
    assert_eq!(g.process_player_action(5, action.clone(), &map).unwrap_err(), GameError::PlayerNotFound);
    let msgs = g.process_player_action(1, action.clone(), &map).unwrap();
    assert_eq!(result_text(&msgs[0]), "Marked free ride station");
    assert_eq!(g.players[0].marked_stations[0].mark, StationMark::Cross);
    assert_eq!(g.process_player_action(1, action, &map).unwrap_err(), GameError::StationAlreadyMarked);
}

#[test]
fn announcement_is_echoed() {
    let map = create_subway_map(City::Amsterdam);
    let mut g = game_with_players(Some(Card::Six));
    let msgs = g.process_player_action(1, PlayerAction::CompleteLineAnnouncement { line_id: lid("red") }, &map).unwrap();
    assert_eq!(msgs.len(), 1);
    assert!(matches!(&msgs[0], GameMessage::LineCompleted { player_id: 1, .. }));
    assert!(g.players[0].marked_stations.is_empty());
}

#[test]
fn error_messages() {
    assert_eq!(GameError::LineFull.message(), "No empty windows available for this line");
    assert_eq!(GameError::NoCardRevealed.message(), "No card revealed");
    assert_eq!(GameError::StationAlreadyMarked.message(), "Station already marked");
}

#[test]
fn game_ends_when_all_windows_are_filled() {
    let map = create_subway_map(City::Amsterdam);
    let mut g = GameState::create(100, City::Amsterdam, 1, 9);
    g.add_player(1, &map);
    assert!(!g.check_game_end());
    g.current_card = Some(Card::Number(1));
    let mut last = Vec::new();
    for _ in 0..4 {
        last = g.handle_player_action(1, pick_line("red"), &map);
    }
    assert!(!g.check_game_end());
    for _ in 0..4 {
        last = g.handle_player_action(1, pick_line("blue"), &map);
    }
    assert!(g.check_game_end());
    match last.last().unwrap() {
        Delivery::Broadcast(GameMessage::GameEnded { scores }) => {
            assert_eq!(scores.len(), 1);
            assert_eq!(scores[0].0, 1);
            // Each one only marks the first red station: later ones stop at it. Blue (4)
            // is completed first; three of four slots stay empty, a penalty of 1.
            assert_eq!(scores[0].1, 3);
        }
        other => panic!("unexpected delivery {:?}", other),
    }
    let scores = g.calculate_final_scores(&map);
    assert_eq!(scores, vec![(1, 3)]);
    assert_eq!(g.players[0].marked_stations.len(), 1);
    g.next_round_seeded(0);
    assert!(g.game_ended);
}

#[test]
fn routing_of_results() {
    let map = create_subway_map(City::Amsterdam);
    let mut g = game_with_players(Some(Card::Number(3)));
    let out = g.handle_player_action(2, pick_line("red"), &map);
    assert_eq!(out.len(), 2);
    assert!(matches!(&out[0], Delivery::Broadcast(GameMessage::LineCompleted { player_id: 2, .. })));
    assert!(matches!(&out[1], Delivery::ToPlayer(2, GameMessage::PlayerActionResult { .. })));
    let out = g.handle_player_action(2, pick_line("green"), &map);
    assert_eq!(out.len(), 1);
    match &out[0] {
        Delivery::ToPlayer(2, GameMessage::Error(text)) => {
            assert_eq!(text, "No empty windows available for this line")
        }
        other => panic!("unexpected delivery {:?}", other),
    }
}

#[test]
fn starting_a_round_reveals_and_snapshots() {
    let mut g = game_with_players(None);
    let top = *g.deck.last().unwrap();
    let out = g.start_new_round();
    assert_eq!(out.len(), 2);
    assert!(matches!(&out[0], Delivery::Broadcast(GameMessage::CardRevealed(c)) if *c == top));
    assert!(matches!(&out[1], Delivery::Broadcast(GameMessage::GameState(_))));
    assert_eq!(g.current_card, Some(top));
    let mut empty = game_with_players(None);
    empty.deck.clear();
    assert!(empty.start_new_round().is_empty());
}

#[test]
fn matchmaking_caps_sessions_at_six() {
    let mut reg = SessionRegistry::new();
    let mut ids = Vec::new();
    for player in 0..7u128 {
        ids.push(reg.join_or_create(City::Paris, player, 1000 + player));
    }
    assert_eq!(reg.sessions.len(), 2);
    assert!(ids[..6].iter().all(|id| *id == 1000));
    assert_eq!(ids[6], 1006);
    assert_eq!(reg.sessions[0].players.len(), 6);
    assert_eq!(reg.sessions[1].players, vec![6]);
    assert_ne!(reg.sessions[0].id, reg.sessions[1].id);
}

#[test]
fn matchmaking_keeps_cities_apart() {
    let mut reg = SessionRegistry::new();
    let a = reg.join_or_create(City::Paris, 1, 10);
    let b = reg.join_or_create(City::Berlin, 2, 20);
    let c = reg.join_or_create(City::Paris, 3, 30);
    assert_eq!((a, b, c), (10, 20, 10));
    assert_eq!(reg.find_open_session(City::Berlin), Some(1));
    assert_eq!(reg.find_open_session(City::Madrid), None);
}
