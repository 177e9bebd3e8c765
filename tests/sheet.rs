use verplant::{
    create_subway_map, Card, City, CompletionStatus, GameError, LineId, LineStatus, MarkedStation,
    PlayerSheet, Station, StationMark, SubwayLine, SubwayMap,
};

fn line(id: &str, stations: &[&str], points: (u8, u8)) -> SubwayLine {
    SubwayLine {
        id: LineId(id.to_string()),
        color: "#000000".to_string(),
        stations: stations.iter().map(|s| s.to_string()).collect(),
        is_ring: false,
        completion_points: points,
    }
}

fn station(id: &str, lines: &[&str]) -> Station {
    Station {
        id: id.to_string(),
        lines: lines.iter().map(|l| LineId(l.to_string())).collect(),
        is_transfer_hub: lines.len() > 1,
    }
}

fn five_station_map() -> SubwayMap {
    SubwayMap {
        city: City::Paris,
        stations: vec![
            station("s1", &["l"]),
            station("s2", &["l"]),
            station("s3", &["l"]),
            station("s4", &["l"]),
            station("s5", &["l"]),
        ],
        lines: vec![line("l", &["s1", "s2", "s3", "s4", "s5"], (5, 2))],
        special_stations: vec![],
    }
}

fn mark(sheet: &mut PlayerSheet, id: &str, m: StationMark) {
    sheet.marked_stations.push(MarkedStation { station_id: id.to_string(), mark: m });
}

fn lid(s: &str) -> LineId {
    LineId(s.to_string())
}

#[test]
fn new_sheet_has_four_empty_windows_per_line() {
    let map = create_subway_map(City::Amsterdam);
    let sheet = PlayerSheet::new(7, City::Amsterdam, &map);
    assert_eq!(sheet.player_id, 7);
    assert_eq!(sheet.train_cars.len(), 2);
    for car in sheet.train_cars.iter() {
        assert_eq!(car.windows, vec![None, None, None, None]);
    }
    assert!(sheet.marked_stations.is_empty());
    assert!(sheet.completed_lines.is_empty());
    assert_eq!(sheet.line_completion_status.len(), 2);
    assert!(sheet
        .line_completion_status
        .iter()
        .all(|s| s.status == CompletionStatus::NotCompleted));
}

#[test]
fn windows_fill_left_to_right_then_refuse() {
    let map = create_subway_map(City::Amsterdam);
    let mut sheet = PlayerSheet::new(1, City::Amsterdam, &map);
    assert!(sheet.can_use_line(&lid("red")));
    assert_eq!(sheet.add_card_to_line(&lid("red"), &Card::Number(3)), Ok(()));
    assert_eq!(sheet.add_card_to_line(&lid("red"), &Card::Transfer), Ok(()));
    assert_eq!(sheet.add_card_to_line(&lid("red"), &Card::Express(4)), Ok(()));
    assert_eq!(sheet.add_card_to_line(&lid("red"), &Card::FreeRide), Ok(()));
    let red = sheet.train_cars.iter().find(|c| c.line_id.0 == "red").unwrap();
    assert_eq!(
        red.windows,
        vec![Some("3".to_string()), Some("+".to_string()), Some("4".to_string()), Some("0".to_string())]
    );
    assert!(!sheet.can_use_line(&lid("red")));
    assert_eq!(sheet.add_card_to_line(&lid("red"), &Card::Six), Err(GameError::LineFull));
    assert!(sheet.can_use_line(&lid("blue")));
    assert!(!sheet.can_use_line(&lid("green")));
    assert_eq!(sheet.add_card_to_line(&lid("green"), &Card::Six), Err(GameError::LineFull));
}

#[test]
fn six_writes_its_numeral() {
    let map = create_subway_map(City::Amsterdam);
    let mut sheet = PlayerSheet::new(1, City::Amsterdam, &map);
    assert_eq!(sheet.add_card_to_line(&lid("blue"), &Card::Six), Ok(()));
    let blue = sheet.train_cars.iter().find(|c| c.line_id.0 == "blue").unwrap();
    assert_eq!(blue.windows[0], Some("6".to_string()));
}

#[test]
fn express_skips_marked_stations_number_stops() {
    let map = five_station_map();
    let mut sheet = PlayerSheet::new(1, City::Paris, &map);
    for s in ["s1", "s2", "s3"] {
        mark(&mut sheet, s, StationMark::Cross);
    }
    let mut plain = sheet.clone();
    let marked = sheet.mark_stations_from_line(&lid("l"), &Card::Express(2), &map).unwrap();
    assert_eq!(marked, vec!["s4".to_string(), "s5".to_string()]);
    assert_eq!(sheet.marked_stations.len(), 5);
    let marked = plain.mark_stations_from_line(&lid("l"), &Card::Number(2), &map).unwrap();
    assert!(marked.is_empty());
    assert_eq!(plain.marked_stations.len(), 3);
}

#[test]
fn number_marks_from_the_start_of_the_line() {
    let map = five_station_map();
    let mut sheet = PlayerSheet::new(1, City::Paris, &map);
    let marked = sheet.mark_stations_from_line(&lid("l"), &Card::Number(3), &map).unwrap();
    assert_eq!(marked, vec!["s1".to_string(), "s2".to_string(), "s3".to_string()]);
    // An express of four marks the remaining two and runs out of stations.
    let marked = sheet.mark_stations_from_line(&lid("l"), &Card::Express(4), &map).unwrap();
    assert_eq!(marked, vec!["s4".to_string(), "s5".to_string()]);
    assert!(sheet.marked_stations.iter().all(|m| m.mark == StationMark::Cross));
}

#[test]
fn transfer_marks_first_empty_station_with_its_connections() {
    let map = create_subway_map(City::Amsterdam);
    let mut sheet = PlayerSheet::new(1, City::Amsterdam, &map);
    let marked = sheet.mark_stations_from_line(&lid("red"), &Card::Transfer, &map).unwrap();
    assert_eq!(marked, vec!["central".to_string()]);
    assert_eq!(sheet.marked_stations[0].mark, StationMark::TransferNumber(2));
    let marked = sheet.mark_stations_from_line(&lid("red"), &Card::Transfer, &map).unwrap();
    assert_eq!(marked, vec!["dam".to_string()]);
    assert_eq!(sheet.marked_stations[1].mark, StationMark::TransferNumber(1));
}

#[test]
fn transfer_on_unknown_station_is_refused() {
    let map = SubwayMap {
        city: City::Madrid,
        stations: vec![],
        lines: vec![line("l", &["ghost"], (1, 1))],
        special_stations: vec![],
    };
    let mut sheet = PlayerSheet::new(1, City::Madrid, &map);
    assert_eq!(
        sheet.mark_stations_from_line(&lid("l"), &Card::Transfer, &map),
        Err(GameError::StationNotFound)
    );
    assert!(sheet.marked_stations.is_empty());
}

#[test]
fn free_ride_marks_nothing_and_unknown_line_is_refused() {
    let map = create_subway_map(City::Amsterdam);
    let mut sheet = PlayerSheet::new(1, City::Amsterdam, &map);
    assert_eq!(sheet.mark_stations_from_line(&lid("red"), &Card::FreeRide, &map), Ok(vec![]));
    assert_eq!(
        sheet.mark_stations_from_line(&lid("green"), &Card::Number(1), &map),
        Err(GameError::LineNotFound)
    );
    assert!(sheet.marked_stations.is_empty());
}

#[test]
fn marks_are_never_changed() {
    let map = five_station_map();
    let mut sheet = PlayerSheet::new(1, City::Paris, &map);
    sheet.mark_stations_from_line(&lid("l"), &Card::Transfer, &map).unwrap();
    sheet.mark_stations_from_line(&lid("l"), &Card::Express(4), &map).unwrap();
    sheet.mark_stations_from_line(&lid("l"), &Card::Number(2), &map).unwrap();
    assert_eq!(sheet.marked_stations[0].station_id, "s1");
    assert_eq!(sheet.marked_stations[0].mark, StationMark::TransferNumber(1));
    assert_eq!(sheet.marked_stations.len(), 5);
}

#[test]
fn line_completes_once() {
    let map = create_subway_map(City::Amsterdam);
    let mut sheet = PlayerSheet::new(1, City::Amsterdam, &map);
    assert!(!sheet.check_line_completion(&lid("red"), &map));
    sheet.mark_stations_from_line(&lid("red"), &Card::Number(3), &map).unwrap();
    assert!(sheet.check_line_completion(&lid("red"), &map));
    assert!(!sheet.check_line_completion(&lid("red"), &map));
    assert!(!sheet.check_line_completion(&lid("red"), &map));
    assert_eq!(sheet.completed_lines.len(), 1);
    assert!(sheet.has_completed(&lid("red")));
    // The blue line's only station is marked too.
    assert!(sheet.check_line_completion(&lid("blue"), &map));
    assert_eq!(sheet.completed_lines.len(), 2);
}

#[test]
fn scoring_example() {
    // Seven station slots over two lines; three stations marked, four empty.
    let map = SubwayMap {
        city: City::Berlin,
        stations: vec![
            station("a1", &["a", "b"]),
            station("a2", &["a", "b", "c"]),
            station("a3", &["a"]),
        ],
        lines: vec![
            line("a", &["a1", "a2", "a3"], (6, 3)),
            line("b", &["b1", "b2", "b3", "b4"], (4, 2)),
        ],
        special_stations: vec![],
    };
    let mut sheet = PlayerSheet::new(1, City::Berlin, &map);
    mark(&mut sheet, "a1", StationMark::TransferNumber(2));
    mark(&mut sheet, "a2", StationMark::TransferNumber(3));
    mark(&mut sheet, "a3", StationMark::Cross);
    assert!(sheet.check_line_completion(&lid("a"), &map));
    sheet.set_completion_status(&lid("a"), CompletionStatus::FirstToComplete(6));
    assert!(sheet.score_fits(&map));
    assert_eq!(sheet.calculate_score(&map), 14);
}

#[test]
fn empty_sheet_scores_minus_half_the_stations() {
    let map = create_subway_map(City::Amsterdam);
    let sheet = PlayerSheet::new(1, City::Amsterdam, &map);
    // Four station slots, none marked.
    assert_eq!(sheet.calculate_score(&map), -2);
}

#[test]
fn more_marks_than_slots_gives_no_penalty() {
    let map = create_subway_map(City::Paris);
    let mut sheet = PlayerSheet::new(1, City::Paris, &map);
    mark(&mut sheet, "x", StationMark::Cross);
    mark(&mut sheet, "y", StationMark::Cross);
    mark(&mut sheet, "z", StationMark::TransferNumber(4));
    assert_eq!(sheet.calculate_score(&map), 8);
}

#[test]
fn status_replaces_earlier_status() {
    let map = create_subway_map(City::Amsterdam);
    let mut sheet = PlayerSheet::new(1, City::Amsterdam, &map);
    sheet.set_completion_status(&lid("red"), CompletionStatus::LaterCompletion(3));
    assert_eq!(sheet.line_completion_status.len(), 2);
    let red: Vec<&LineStatus> = sheet.line_completion_status.iter().filter(|s| s.line_id.0 == "red").collect();
    assert_eq!(red.len(), 1);
    assert_eq!(red[0].status, CompletionStatus::LaterCompletion(3));
    sheet.set_completion_status(&lid("green"), CompletionStatus::FirstToComplete(1));
    assert_eq!(sheet.line_completion_status.len(), 3);
}

#[test]
fn window_text_of_cards() {
    assert_eq!(verplant::sheet::card_window_text(&Card::Number(5)), "5");
    assert_eq!(verplant::sheet::card_window_text(&Card::Express(2)), "2");
    assert_eq!(verplant::sheet::card_window_text(&Card::Six), "6");
    assert_eq!(verplant::sheet::card_window_text(&Card::Number(12)), "12");
    assert_eq!(verplant::sheet::card_window_text(&Card::Transfer), "+");
    assert_eq!(verplant::sheet::card_window_text(&Card::FreeRide), "0");
}

#[test]
fn map_lookup_and_station_count() {
    let map = create_subway_map(City::Amsterdam);
    assert_eq!(map.find_line(&lid("blue")), Some(1));
    assert_eq!(map.find_line(&lid("green")), None);
    assert_eq!(map.find_station(&"museum".to_string()), Some(2));
    assert!(map.station_count_fits());
    let other = create_subway_map(City::Madrid);
    assert_eq!(other.city, City::Madrid);
    assert_eq!(other.lines.len(), 1);
}
