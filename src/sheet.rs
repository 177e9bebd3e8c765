//! A player's sheet: train-car windows, marked stations, completed lines, score.
use vstd::prelude::*;
use vstd::string::StringExecFns;
use vstd::math::min;
use crate::board::{City, LineId, SubwayMap, SubwayLine, station_names, sum_line_lengths, lemma_line_lengths_prefix};
use crate::card::{Card, card_value};
use crate::error::GameError;
use crate::keyed::{has_key, is_key_pos, key_pos, key_set, lemma_key_pos_found, lemma_key_pos_is, lemma_push_keys, lemma_unique_pos, unique_keys, value_of};

verus! {

/// How a station was marked.
#[derive(Clone, Copy, Debug, PartialEq, Eq, Structural)]
pub enum StationMark {
    Cross,
    /// Marked by a transfer card; holds the station's connection count.
    TransferNumber(u8),
}

/// Whether a player completed a line, and for how many points.
#[derive(Clone, Copy, Debug, PartialEq, Eq, Structural)]
pub enum CompletionStatus {
    FirstToComplete(u8),
    LaterCompletion(u8),
    NotCompleted,
}

/// The windows of the train car of one line.
#[derive(Clone, Debug)]
pub struct TrainCar {
    pub line_id: LineId,
    pub windows: Vec<Option<String>>,
}

/// A station marked on a sheet.
#[derive(Clone, Debug)]
pub struct MarkedStation {
    pub station_id: String,
    pub mark: StationMark,
}

/// The completion status recorded for one line.
#[derive(Clone, Debug)]
pub struct LineStatus {
    pub line_id: LineId,
    pub status: CompletionStatus,
}

/// One player's sheet.
#[derive(Clone, Debug)]
pub struct PlayerSheet {
    pub player_id: u128,
    pub city: City,
    pub train_cars: Vec<TrainCar>,
    pub marked_stations: Vec<MarkedStation>,
    pub completed_lines: Vec<LineId>,
    pub line_completion_status: Vec<LineStatus>,
}

/// The windows of a car: `None` while empty, else the text written in it.
pub type Windows = Seq<Option<Seq<char>>>;

/// The abstract content of a sheet.
pub struct SheetView {
    pub player_id: u128,
    pub city: City,
    pub cars: Seq<(Seq<char>, Windows)>,
    pub marks: Seq<(Seq<char>, StationMark)>,
    pub completed: Seq<Seq<char>>,
    pub statuses: Seq<(Seq<char>, CompletionStatus)>,
}

pub open spec fn window_view(w: Option<String>) -> Option<Seq<char>> {
    match w {
        Some(s) => Some(s@),
        None => None,
    }
}

pub open spec fn windows_view(w: Seq<Option<String>>) -> Windows {
    w.map_values(|x: Option<String>| window_view(x))
}

pub open spec fn car_view(c: TrainCar) -> (Seq<char>, Windows) {
    (c.line_id@, windows_view(c.windows@))
}

impl View for PlayerSheet {
    type V = SheetView;

    open spec fn view(&self) -> SheetView {
        SheetView {
            player_id: self.player_id,
            city: self.city,
            cars: self.train_cars@.map_values(|c: TrainCar| car_view(c)),
            marks: self.marked_stations@.map_values(|m: MarkedStation| (m.station_id@, m.mark)),
            completed: self.completed_lines@.map_values(|l: LineId| l@),
            statuses: self.line_completion_status@.map_values(
                |s: LineStatus| (s.line_id@, s.status),
            ),
        }
    }
}

/// The text names of a sequence of strings.
pub open spec fn names(l: Seq<String>) -> Seq<Seq<char>> {
    l.map_values(|s: String| s@)
}

/// Four empty windows.
pub open spec fn empty_windows() -> Windows {
    seq![None, None, None, None]
}

/// A new sheet: four empty windows and no completion for each line of the map.
pub open spec fn fresh_sheet(player_id: u128, city: City, map: SubwayMap) -> SheetView {
    SheetView {
        player_id,
        city,
        cars: map.lines@.map_values(|l: SubwayLine| (l.id@, empty_windows())),
        marks: seq![],
        completed: seq![],
        statuses: map.lines@.map_values(|l: SubwayLine| (l.id@, CompletionStatus::NotCompleted)),
    }
}

/// Each table of the sheet holds a key at most once.
pub open spec fn sheet_wf(v: SheetView) -> bool {
    &&& unique_keys(v.cars)
    &&& unique_keys(v.marks)
    &&& unique_keys(v.statuses)
    &&& forall|i: int, j: int| 0 <= i < j < v.completed.len() ==> v.completed[i] != v.completed[j]
}

/// `i` is the first empty window.
pub open spec fn is_first_empty(w: Windows, i: int) -> bool {
    &&& 0 <= i < w.len()
    &&& w[i] is None
    &&& forall|j: int| 0 <= j < i ==> w[j] is Some
}

/// The first empty window, if any (else -1).
pub open spec fn first_empty(w: Windows) -> int {
    if exists|i: int| is_first_empty(w, i) {
        choose|i: int| is_first_empty(w, i)
    } else {
        -1
    }
}

/// The decimal digits of `n`.
pub open spec fn decimal(n: nat) -> Seq<char>
    decreases n,
{
    if n < 10 {
        seq![('0' as u8 + n) as char]
    } else {
        decimal(n / 10) + seq![('0' as u8 + (n % 10)) as char]
    }
}

/// What a card writes into a window: "+" for a transfer, else its numeral ("0" if none).
pub open spec fn card_text(c: Card) -> Seq<char> {
    match c {
        Card::Transfer => seq!['+'],
        _ => match card_value(c) {
            Some(n) => decimal(n as nat),
            None => seq!['0'],
        },
    }
}

/// The line has a car with an empty window.
pub open spec fn can_use(v: SheetView, line: Seq<char>) -> bool {
    has_key(v.cars, line) && first_empty(value_of(v.cars, line)) >= 0
}

/// The sheet after writing `card` into the first empty window of `line`.
pub open spec fn with_card(v: SheetView, line: Seq<char>, card: Card) -> SheetView {
    let p = key_pos(v.cars, line);
    let w = v.cars[p].1;
    SheetView { cars: v.cars.update(p, (v.cars[p].0, w.update(first_empty(w), Some(card_text(card))))), ..v }
}

/// The stations a numbered or express card marks on a line: left to right, `remaining`
/// of them; a marked station stops the scan, or is skipped by an express card.
pub open spec fn scan_line(
    stations: Seq<Seq<char>>,
    marked: Set<Seq<char>>,
    remaining: nat,
    express: bool,
) -> Seq<Seq<char>>
    decreases stations.len(),
{
    if remaining == 0 || stations.len() == 0 {
        seq![]
    } else if marked.contains(stations[0]) {
        if express {
            scan_line(stations.drop_first(), marked, remaining, express)
        } else {
            seq![]
        }
    } else {
        seq![stations[0]] + scan_line(
            stations.drop_first(),
            marked.insert(stations[0]),
            (remaining - 1) as nat,
            express,
        )
    }
}

/// `i` is the first station of the line that the sheet has not marked.
pub open spec fn is_first_unmarked(
    marks: Seq<(Seq<char>, StationMark)>,
    stations: Seq<Seq<char>>,
    i: int,
) -> bool {
    &&& 0 <= i < stations.len()
    &&& !has_key(marks, stations[i])
    &&& forall|j: int| 0 <= j < i ==> has_key(marks, stations[j])
}

/// The first unmarked station of the line, or -1 where all are marked.
pub open spec fn first_unmarked(marks: Seq<(Seq<char>, StationMark)>, stations: Seq<Seq<char>>) -> int {
    if exists|i: int| is_first_unmarked(marks, stations, i) {
        choose|i: int| is_first_unmarked(marks, stations, i)
    } else {
        -1
    }
}

/// The stations that `card` marks on `line`, or the error it meets.
pub open spec fn mark_outcome(v: SheetView, line: Seq<char>, card: Card, map: SubwayMap) -> Result<
    Seq<Seq<char>>,
    GameError,
> {
    if !map.has_line(line) {
        Err(GameError::LineNotFound)
    } else {
        let st = station_names(map.line(line));
        match card {
            Card::FreeRide => Ok(seq![]),
            Card::Transfer => {
                let i = first_unmarked(v.marks, st);
                if i < 0 {
                    Ok(seq![])
                } else if !map.has_station(st[i]) {
                    Err(GameError::StationNotFound)
                } else {
                    Ok(seq![st[i]])
                }
            },
            _ => Ok(
                scan_line(
                    st,
                    key_set(v.marks),
                    card_value(card).unwrap() as nat,
                    card is Express,
                ),
            ),
        }
    }
}

pub open spec fn cross_marks(l: Seq<Seq<char>>) -> Seq<(Seq<char>, StationMark)> {
    l.map_values(|s: Seq<char>| (s, StationMark::Cross))
}

/// The sheet after `card` marked its stations on `line`.
pub open spec fn marks_after(v: SheetView, line: Seq<char>, card: Card, map: SubwayMap) -> SheetView {
    match mark_outcome(v, line, card, map) {
        Ok(l) => match card {
            Card::FreeRide => v,
            Card::Transfer => if l.len() == 1 {
                SheetView {
                    marks: v.marks.push((l[0], StationMark::TransferNumber(map.connections(l[0])))),
                    ..v
                }
            } else {
                v
            },
            _ => SheetView { marks: v.marks + cross_marks(l), ..v },
        },
        Err(_) => v,
    }
}

/// Every station of the line is marked on the sheet.
pub open spec fn line_complete(v: SheetView, stations: Seq<Seq<char>>) -> bool {
    forall|j: int| 0 <= j < stations.len() ==> has_key(v.marks, stations[j])
}

/// The line is completed now, and was not before.
pub open spec fn newly_complete(v: SheetView, line: Seq<char>, map: SubwayMap) -> bool {
    line_complete(v, station_names(map.line(line))) && !v.completed.contains(line)
}

/// The sheet after a completion check of `line`.
pub open spec fn after_completion_check(v: SheetView, line: Seq<char>, map: SubwayMap) -> SheetView {
    if newly_complete(v, line, map) {
        SheetView { completed: v.completed.push(line), ..v }
    } else {
        v
    }
}

/// The sheet with `status` recorded for `line`, replacing any earlier one.
pub open spec fn with_status(v: SheetView, line: Seq<char>, status: CompletionStatus) -> SheetView {
    if has_key(v.statuses, line) {
        SheetView { statuses: v.statuses.update(key_pos(v.statuses, line), (line, status)), ..v }
    } else {
        SheetView { statuses: v.statuses.push((line, status)), ..v }
    }
}

/// The marks of `b` extend those of `a`: each mark of `a` stays, in its place.
pub open spec fn marks_extend(a: SheetView, b: SheetView) -> bool {
    a.marks.len() <= b.marks.len() && forall|i: int| 0 <= i < a.marks.len() ==> b.marks[i] == a.marks[i]
}

pub open spec fn status_points(s: CompletionStatus) -> int {
    match s {
        CompletionStatus::FirstToComplete(p) => p as int,
        CompletionStatus::LaterCompletion(p) => p as int,
        CompletionStatus::NotCompleted => 0,
    }
}

/// The points recorded for the completed lines.
pub open spec fn completion_total(
    completed: Seq<Seq<char>>,
    statuses: Seq<(Seq<char>, CompletionStatus)>,
) -> int
    decreases completed.len(),
{
    if completed.len() == 0 {
        0
    } else {
        completion_total(completed.drop_last(), statuses) + if has_key(statuses, completed.last()) {
            status_points(value_of(statuses, completed.last()))
        } else {
            0
        }
    }
}

/// Twice the connection count of every transfer mark.
pub open spec fn transfer_total(marks: Seq<(Seq<char>, StationMark)>) -> int
    decreases marks.len(),
{
    if marks.len() == 0 {
        0
    } else {
        transfer_total(marks.drop_last()) + match marks.last().1 {
            StationMark::TransferNumber(c) => 2 * c,
            StationMark::Cross => 0,
        }
    }
}

/// Station slots of the map not covered by the sheet's marks (never below zero).
pub open spec fn empty_stations(v: SheetView, map: SubwayMap) -> int {
    if map.total_stations() >= v.marks.len() {
        map.total_stations() - v.marks.len()
    } else {
        0
    }
}

/// The score of a sheet: completion points, plus transfer points, minus half the
/// empty stations rounded down.
pub open spec fn score(v: SheetView, map: SubwayMap) -> int {
    completion_total(v.completed, v.statuses) + transfer_total(v.marks) - empty_stations(v, map) / 2
}

proof fn lemma_completion_total_prefix(
    completed: Seq<Seq<char>>,
    statuses: Seq<(Seq<char>, CompletionStatus)>,
    i: int,
)
    requires
        0 <= i <= completed.len(),
    ensures
        0 <= completion_total(completed.take(i), statuses) <= completion_total(completed, statuses),
    decreases completed.len(),
{
    if completed.len() > 0 {
        if i == completed.len() {
            assert(completed.take(i) =~= completed);
            lemma_completion_total_prefix(completed.drop_last(), statuses, i - 1);
            assert(completed.drop_last().take(i - 1) =~= completed.take(i - 1));
            lemma_completion_total_nonneg(completed.drop_last(), statuses);
        } else {
            lemma_completion_total_prefix(completed.drop_last(), statuses, i);
            assert(completed.drop_last().take(i) =~= completed.take(i));
        }
    }
}

proof fn lemma_completion_total_nonneg(
    completed: Seq<Seq<char>>,
    statuses: Seq<(Seq<char>, CompletionStatus)>,
)
    ensures
        completion_total(completed, statuses) >= 0,
    decreases completed.len(),
{
    if completed.len() > 0 {
        lemma_completion_total_nonneg(completed.drop_last(), statuses);
    }
}

proof fn lemma_transfer_total_prefix(marks: Seq<(Seq<char>, StationMark)>, i: int)
    requires
        0 <= i <= marks.len(),
    ensures
        0 <= transfer_total(marks.take(i)) <= transfer_total(marks),
    decreases marks.len(),
{
    if marks.len() > 0 {
        if i == marks.len() {
            assert(marks.take(i) =~= marks);
            lemma_transfer_total_prefix(marks.drop_last(), i - 1);
            assert(marks.drop_last().take(i - 1) =~= marks.take(i - 1));
        } else {
            lemma_transfer_total_prefix(marks.drop_last(), i);
            assert(marks.drop_last().take(i) =~= marks.take(i));
        }
    }
}

/// A station marked on a sheet stays marked, with the same mark, on every later
/// sheet whose marks extend it.
pub proof fn lemma_marks_persist(a: SheetView, b: SheetView, station: Seq<char>)
    requires
        sheet_wf(a),
        sheet_wf(b),
        marks_extend(a, b),
        has_key(a.marks, station),
    ensures
        has_key(b.marks, station),
        value_of(b.marks, station) == value_of(a.marks, station),
{
    lemma_key_pos_found(a.marks, station);
    let p = key_pos(a.marks, station);
    assert(b.marks[p] == a.marks[p]);
    lemma_unique_pos(b.marks, p);
}

/// Extending marks is transitive, so it holds across any run of steps that each extend.
pub proof fn lemma_marks_extend_trans(a: SheetView, b: SheetView, c: SheetView)
    requires
        marks_extend(a, b),
        marks_extend(b, c),
    ensures
        marks_extend(a, c),
{
    assert forall|i: int| 0 <= i < a.marks.len() implies c.marks[i] == a.marks[i] by {
        assert(c.marks[i] == b.marks[i]);
    }
}

/// A line is recorded as completed at most once: after one completion check, another
/// check of the same line reports nothing new and changes nothing, and the completed
/// lines stay free of repeats.
pub proof fn lemma_completion_once(v: SheetView, line: Seq<char>, map: SubwayMap)
    requires
        sheet_wf(v),
    ensures
        sheet_wf(after_completion_check(v, line, map)),
        !newly_complete(after_completion_check(v, line, map), line, map),
        after_completion_check(after_completion_check(v, line, map), line, map) == after_completion_check(
            v,
            line,
            map,
        ),
{
    let w = after_completion_check(v, line, map);
    if newly_complete(v, line, map) {
        assert(w.completed.last() == line);
        assert(w.completed.contains(line));
        assert forall|i: int, j: int| 0 <= i < j < w.completed.len() implies w.completed[i] != w.completed[j] by {
            if j == w.completed.len() - 1 {
                assert(v.completed[i] != line);
            } else {
                assert(w.completed[i] == v.completed[i]);
            }
        }
    }
}

/// Relies on `u64::to_string` (through `Display`): the decimal form of the number.
#[verifier::external_body]
pub(crate) fn decimal_string(n: u64) -> (r: String)
    ensures
        r@ == decimal(n as nat),
{
    n.to_string()
}

/// The text a card writes into a window.
pub fn card_window_text(card: &Card) -> (r: String)
    ensures
        r@ == card_text(*card),
{
    match card {
        Card::Transfer => {
            proof {
                reveal_strlit("+");
            }
            String::from_str("+")
        },
        _ => match card.get_value() {
            Some(n) => decimal_string(n as u64),
            None => {
                proof {
                    reveal_strlit("0");
                }
                String::from_str("0")
            },
        },
    }
}

proof fn lemma_first_empty_is(w: Windows, i: int)
    requires
        is_first_empty(w, i),
    ensures
        first_empty(w) == i,
{
    let c = choose|m: int| is_first_empty(w, m);
    if c < i {
        assert(w[c] is Some);
    } else if c > i {
        assert(w[i] is Some);
    }
}

/// Finds the first empty window.
fn first_empty_window(windows: &Vec<Option<String>>) -> (r: Option<usize>)
    ensures
        match r {
            Some(i) => first_empty(windows_view(windows@)) == i && i < windows@.len(),
            None => first_empty(windows_view(windows@)) == -1,
        },
{
    let ghost w = windows_view(windows@);
    let mut i: usize = 0;
    while i < windows.len()
        invariant
            i <= windows@.len(),
            w == windows_view(windows@),
            forall|j: int| 0 <= j < i ==> w[j] is Some,
        decreases windows@.len() - i,
    {
        if windows[i].is_none() {
            proof {
                lemma_first_empty_is(w, i as int);
            }
            return Some(i);
        }
        i = i + 1;
    }
    proof {
        if exists|m: int| is_first_empty(w, m) {
            let m = choose|m: int| is_first_empty(w, m);
            assert(w[m] is Some);
        }
    }
    None
}

impl PlayerSheet {
    pub open spec fn wf(&self) -> bool {
        sheet_wf(self@)
    }

    /// A sheet for `player_id` with four empty windows per line of `map`.
    pub fn new(player_id: u128, city: City, map: &SubwayMap) -> (r: PlayerSheet)
        requires
            map.wf(),
        ensures
            r@ == fresh_sheet(player_id, city, *map),
            r.wf(),
    {
        let mut train_cars: Vec<TrainCar> = Vec::new();
        let mut statuses: Vec<LineStatus> = Vec::new();
        let mut i: usize = 0;
        while i < map.lines.len()
            invariant
                i <= map.lines@.len(),
                train_cars@.len() == i,
                statuses@.len() == i,
                forall|j: int| 0 <= j < i ==> car_view(#[trigger] train_cars@[j]) == (map.lines@[j].id@, empty_windows()),
                forall|j: int| 0 <= j < i ==> (#[trigger] statuses@[j]).line_id@ == map.lines@[j].id@
                    && statuses@[j].status == CompletionStatus::NotCompleted,
            decreases map.lines@.len() - i,
        {
            let mut windows: Vec<Option<String>> = Vec::new();
            windows.push(None);
            windows.push(None);
            windows.push(None);
            windows.push(None);
            assert(windows_view(windows@) =~= empty_windows());
            train_cars.push(TrainCar { line_id: map.lines[i].id.duplicate(), windows });
            statuses.push(LineStatus { line_id: map.lines[i].id.duplicate(), status: CompletionStatus::NotCompleted });
            i = i + 1;
        }
        let r = PlayerSheet {
            player_id,
            city,
            train_cars,
            marked_stations: Vec::new(),
            completed_lines: Vec::new(),
            line_completion_status: statuses,
        };
        assert(r@.marks =~= seq![]);
        assert(r@.completed =~= seq![]);
        assert(r@.cars =~= fresh_sheet(player_id, city, *map).cars);
        assert(r@.statuses =~= fresh_sheet(player_id, city, *map).statuses);
        assert(r@ == fresh_sheet(player_id, city, *map));
        r
    }

    /// Finds the car of `line`.
    fn car_position(&self, line: &LineId) -> (r: Option<usize>)
        ensures
            match r {
                Some(i) => is_key_pos(self@.cars, line@, i as int),
                None => !has_key(self@.cars, line@),
            },
    {
        let mut i: usize = 0;
        while i < self.train_cars.len()
            invariant
                i <= self.train_cars@.len(),
                forall|j: int| 0 <= j < i ==> self@.cars[j].0 != line@,
            decreases self.train_cars@.len() - i,
        {
            if self.train_cars[i].line_id.same(line) {
                return Some(i);
            }
            i = i + 1;
        }
        None
    }

    /// Whether the car of `line` still has an empty window.
    pub fn can_use_line(&self, line_id: &LineId) -> (r: bool)
        ensures
            r == can_use(self@, line_id@),
    {
        match self.car_position(line_id) {
            Some(p) => {
                proof {
                    lemma_key_pos_is(self@.cars, line_id@, p as int);
                }
                first_empty_window(&self.train_cars[p].windows).is_some()
            },
            None => false,
        }
    }

    /// Writes the card's text into the first empty window of `line_id`.
    pub fn add_card_to_line(&mut self, line_id: &LineId, card: &Card) -> (r: Result<(), GameError>)
        requires
            old(self).wf(),
        ensures
            final(self).wf(),
            can_use(old(self)@, line_id@) ==> r is Ok && final(self)@ == with_card(
                old(self)@,
                line_id@,
                *card,
            ),
            !can_use(old(self)@, line_id@) ==> r == Err::<(), GameError>(GameError::LineFull)
                && *final(self) == *old(self),
    {
        let p = match self.car_position(line_id) {
            Some(p) => p,
            None => return Err(GameError::LineFull),
        };
        proof {
            lemma_key_pos_is(self@.cars, line_id@, p as int);
        }
        let k = match first_empty_window(&self.train_cars[p].windows) {
            Some(k) => k,
            None => return Err(GameError::LineFull),
        };
        let text = card_window_text(card);
        let ghost old_view = self@;
        let mut car = self.train_cars.remove(p);
        car.windows.set(k, Some(text));
        self.train_cars.insert(p, car);
        proof {
            let w = old_view.cars[p as int].1;
            assert(windows_view(car.windows@) =~= w.update(k as int, Some(card_text(*card))));
            assert(self@.cars =~= with_card(old_view, line_id@, *card).cars);
            assert(forall|i: int| 0 <= i < self@.cars.len() ==> self@.cars[i].0 == old_view.cars[i].0);
        }
        Ok(())
    }

    /// Finds the mark of station `id`.
    fn marked_position(&self, id: &String) -> (r: Option<usize>)
        ensures
            match r {
                Some(i) => is_key_pos(self@.marks, id@, i as int),
                None => !has_key(self@.marks, id@),
            },
    {
        let mut i: usize = 0;
        while i < self.marked_stations.len()
            invariant
                i <= self.marked_stations@.len(),
                forall|j: int| 0 <= j < i ==> self@.marks[j].0 != id@,
            decreases self.marked_stations@.len() - i,
        {
            if self.marked_stations[i].station_id == *id {
                return Some(i);
            }
            i = i + 1;
        }
        None
    }

    /// Whether `card` can mark its stations on `line_id`, without marking them.
    pub fn check_marking(&self, line_id: &LineId, card: &Card, map: &SubwayMap) -> (r: Result<(), GameError>)
        requires
            map.wf(),
        ensures
            match mark_outcome(self@, line_id@, *card, *map) {
                Ok(_) => r is Ok,
                Err(e) => r == Err::<(), GameError>(e),
            },
    {
        let li = match map.find_line(line_id) {
            Some(li) => li,
            None => return Err(GameError::LineNotFound),
        };
        let stations = &map.lines[li].stations;
        assert(names(stations@) == station_names(map.line(line_id@)));
        match card {
            Card::Transfer => match self.find_next_empty_station(stations) {
                Some(i) => match map.find_station(&stations[i]) {
                    Some(_) => Ok(()),
                    None => Err(GameError::StationNotFound),
                },
                None => Ok(()),
            },
            _ => Ok(()),
        }
    }


    /// Marks station `station_id`, which the sheet has not marked yet.
    pub fn add_mark(&mut self, station_id: String, mark: StationMark)
        requires
            old(self).wf(),
            !has_key(old(self)@.marks, station_id@),
        ensures
            final(self)@ == (SheetView { marks: old(self)@.marks.push((station_id@, mark)), ..old(self)@ }),
            final(self).wf(),
    {
        let ghost v0 = self@;
        proof {
            lemma_push_keys(v0.marks, (station_id@, mark));
            assert(forall|k: int| 0 <= k < v0.marks.len() ==> v0.marks[k].0 != station_id@);
        }
        self.marked_stations.push(MarkedStation { station_id, mark });
        assert(self@.marks =~= v0.marks.push((station_id@, mark)));
    }

    /// Whether `line_id` is among the sheet's completed lines.
    pub fn has_completed(&self, line_id: &LineId) -> (r: bool)
        ensures
            r == self@.completed.contains(line_id@),
    {
        let mut k: usize = 0;
        while k < self.completed_lines.len()
            invariant
                k <= self.completed_lines@.len(),
                forall|j: int| 0 <= j < k ==> self@.completed[j] != line_id@,
            decreases self.completed_lines@.len() - k,
        {
            if self.completed_lines[k].same(line_id) {
                assert(self@.completed[k as int] == line_id@);
                return true;
            }
            k = k + 1;
        }
        false
    }

    /// Whether station `id` is marked on the sheet.
    pub fn is_marked(&self, id: &String) -> (r: bool)
        ensures
            r == has_key(self@.marks, id@),
    {
        self.marked_position(id).is_some()
    }

    /// Finds the first station of `stations` that is not marked.
    pub fn find_next_empty_station(&self, stations: &Vec<String>) -> (r: Option<usize>)
        ensures
            match r {
                Some(i) => first_unmarked(self@.marks, names(stations@)) == i && i < stations@.len(),
                None => first_unmarked(self@.marks, names(stations@)) == -1,
            },
    {
        let ghost st = names(stations@);
        let mut i: usize = 0;
        while i < stations.len()
            invariant
                i <= stations@.len(),
                st == names(stations@),
                forall|j: int| 0 <= j < i ==> has_key(self@.marks, st[j]),
            decreases stations@.len() - i,
        {
            if !self.is_marked(&stations[i]) {
                proof {
                    let c = choose|m: int| is_first_unmarked(self@.marks, st, m);
                    assert(is_first_unmarked(self@.marks, st, i as int));
                    if c < i {
                    } else if c > i {
                        assert(has_key(self@.marks, st[i as int]));
                    }
                }
                return Some(i);
            }
            i = i + 1;
        }
        proof {
            if exists|m: int| is_first_unmarked(self@.marks, st, m) {
                let m = choose|m: int| is_first_unmarked(self@.marks, st, m);
                assert(has_key(self@.marks, st[m]));
            }
        }
        None
    }

    /// Marks the stations that `card` reaches on `line_id`, and returns them in order.
    pub fn mark_stations_from_line(
        &mut self,
        line_id: &LineId,
        card: &Card,
        map: &SubwayMap,
    ) -> (r: Result<Vec<String>, GameError>)
        requires
            map.wf(),
            old(self).wf(),
        ensures
            final(self).wf(),
            marks_extend(old(self)@, final(self)@),
            match r {
                Ok(l) => mark_outcome(old(self)@, line_id@, *card, *map) == Ok::<Seq<Seq<char>>, GameError>(names(l@))
                    && final(self)@ == marks_after(old(self)@, line_id@, *card, *map),
                Err(e) => mark_outcome(old(self)@, line_id@, *card, *map) == Err::<Seq<Seq<char>>, GameError>(e)
                    && *final(self) == *old(self),
            },
    {
        let li = match map.find_line(line_id) {
            Some(li) => li,
            None => return Err(GameError::LineNotFound),
        };
        let stations = &map.lines[li].stations;
        let ghost st = names(stations@);
        let ghost v0 = self@;
        assert(st == station_names(map.line(line_id@)));
        match card {
            Card::FreeRide => {
                let r: Vec<String> = Vec::new();
                assert(names(r@) =~= seq![]);
                return Ok(r);
            },
            Card::Transfer => {
                let i = match self.find_next_empty_station(stations) {
                    Some(i) => i,
                    None => {
                        let r: Vec<String> = Vec::new();
                        assert(names(r@) =~= seq![]);
                        return Ok(r);
                    },
                };
                let si = match map.find_station(&stations[i]) {
                    Some(si) => si,
                    None => return Err(GameError::StationNotFound),
                };
                let count = map.stations[si].lines.len() as u8;
                let id = stations[i].clone();
                proof {
                    lemma_push_keys(self@.marks, (id@, StationMark::TransferNumber(count)));
                    assert(is_first_unmarked(v0.marks, st, i as int));
                    assert(forall|k: int| 0 <= k < v0.marks.len() ==> v0.marks[k].0 != id@);
                }
                self.marked_stations.push(MarkedStation { station_id: id.clone(), mark: StationMark::TransferNumber(count) });
                let mut r: Vec<String> = Vec::new();
                r.push(id);
                proof {
                    assert(names(r@) =~= seq![st[i as int]]);
                    assert(self@.marks =~= v0.marks.push((st[i as int], StationMark::TransferNumber(count))));
                }
                return Ok(r);
            },
            _ => {},
        }
        let value: u8 = match card.get_value() {
            Some(v) => v,
            None => 0,
        };
        let express = match card {
            Card::Express(_) => true,
            _ => false,
        };
        let mut result: Vec<String> = Vec::new();
        let mut remaining: u8 = value;
        let mut stopped = false;
        let mut i: usize = 0;
        assert(st.skip(0) =~= st);
        assert(v0.marks + cross_marks(names(result@)) =~= v0.marks);
        while i < stations.len() && remaining > 0 && !stopped
            invariant
                i <= stations@.len(),
                st == names(stations@),
                self@ == (SheetView { marks: v0.marks + cross_marks(names(result@)), ..v0 }),
                unique_keys(self@.marks),
                scan_line(st, key_set(v0.marks), value as nat, express) == names(result@) + scan_line(
                    st.skip(i as int),
                    key_set(self@.marks),
                    remaining as nat,
                    express,
                ),
                stopped ==> scan_line(st.skip(i as int), key_set(self@.marks), remaining as nat, express)
                    == Seq::<Seq<char>>::empty(),
            decreases stations@.len() - i, if stopped { 0int } else { 1int },
        {
            let ghost rest = st.skip(i as int);
            assert(rest.drop_first() =~= st.skip(i + 1));
            assert(rest[0] == st[i as int]);
            if self.is_marked(&stations[i]) {
                if express {
                    i = i + 1;
                } else {
                    stopped = true;
                }
            } else {
                let ghost before = self@;
                let ghost done = names(result@);
                let id = stations[i].clone();
                proof {
                    lemma_push_keys(self@.marks, (id@, StationMark::Cross));
                }
                self.marked_stations.push(MarkedStation { station_id: id.clone(), mark: StationMark::Cross });
                result.push(id);
                remaining = remaining - 1;
                i = i + 1;
                proof {
                    assert(names(result@) =~= done.push(st[i - 1]));
                    assert(cross_marks(names(result@)) =~= cross_marks(done).push((st[i - 1], StationMark::Cross)));
                    assert(self@.marks =~= v0.marks + cross_marks(names(result@)));
                    assert(forall|k: int| 0 <= k < before.marks.len() ==> before.marks[k].0 != st[i - 1]);
                    assert(names(result@) + scan_line(st.skip(i as int), key_set(self@.marks), remaining as nat, express)
                        =~= done + scan_line(rest, key_set(before.marks), (remaining + 1) as nat, express));
                }
            }
        }
        proof {
            if i == stations.len() {
                assert(st.skip(i as int).len() == 0);
            }
            assert(names(result@) + Seq::<Seq<char>>::empty() =~= names(result@));
            assert(marks_after(v0, line_id@, *card, *map).marks =~= self@.marks);
        }
        Ok(result)
    }

    /// Records `line_id` as completed if all its stations are marked and it was not yet.
    pub fn check_line_completion(&mut self, line_id: &LineId, map: &SubwayMap) -> (r: bool)
        requires
            map.wf(),
            map.has_line(line_id@),
            old(self).wf(),
        ensures
            r == newly_complete(old(self)@, line_id@, *map),
            final(self)@ == after_completion_check(old(self)@, line_id@, *map),
            final(self).wf(),
    {
        let li = match map.find_line(line_id) {
            Some(li) => li,
            None => return false,
        };
        let stations = &map.lines[li].stations;
        let ghost st = names(stations@);
        assert(st == station_names(map.line(line_id@)));
        let mut i: usize = 0;
        while i < stations.len()
            invariant
                i <= stations@.len(),
                st == names(stations@),
                st == station_names(map.line(line_id@)),
                self.wf(),
                *self == *old(self),
                forall|j: int| 0 <= j < i ==> has_key(self@.marks, st[j]),
            decreases stations@.len() - i,
        {
            if !self.is_marked(&stations[i]) {
                assert(st[i as int] == stations@[i as int]@);
                assert(!line_complete(self@, st));
                return false;
            }
            i = i + 1;
        }
        let mut k: usize = 0;
        while k < self.completed_lines.len()
            invariant
                k <= self.completed_lines@.len(),
                self.wf(),
                *self == *old(self),
                line_complete(self@, st),
                st == station_names(map.line(line_id@)),
                forall|j: int| 0 <= j < k ==> self@.completed[j] != line_id@,
            decreases self.completed_lines@.len() - k,
        {
            if self.completed_lines[k].same(line_id) {
                assert(self@.completed[k as int] == line_id@);
                return false;
            }
            k = k + 1;
        }
        let ghost v0 = self@;
        self.completed_lines.push(line_id.duplicate());
        assert(self@.completed =~= v0.completed.push(line_id@));
        true
    }

    /// Records `status` for `line_id`, replacing an earlier status.
    pub fn set_completion_status(&mut self, line_id: &LineId, status: CompletionStatus)
        requires
            old(self).wf(),
        ensures
            final(self)@ == with_status(old(self)@, line_id@, status),
            final(self).wf(),
    {
        let ghost v0 = self@;
        let mut i: usize = 0;
        while i < self.line_completion_status.len()
            invariant
                i <= self.line_completion_status@.len(),
                self@ == v0,
                *self == *old(self),
                sheet_wf(v0),
                forall|j: int| 0 <= j < i ==> self@.statuses[j].0 != line_id@,
            decreases self.line_completion_status@.len() - i,
        {
            if self.line_completion_status[i].line_id.same(line_id) {
                proof {
                    lemma_key_pos_is(v0.statuses, line_id@, i as int);
                }
                let old_entry = self.line_completion_status.remove(i);
                self.line_completion_status.insert(i, LineStatus { line_id: old_entry.line_id, status });
                assert(self@.statuses =~= v0.statuses.update(i as int, (line_id@, status)));
                assert(forall|j: int| 0 <= j < v0.statuses.len() ==> self@.statuses[j].0 == v0.statuses[j].0);
                return;
            }
            i = i + 1;
        }
        self.line_completion_status.push(LineStatus { line_id: line_id.duplicate(), status });
        assert(self@.statuses =~= v0.statuses.push((line_id@, status)));
    }

    /// Whether the score of the sheet on `map` can be computed within `i32`.
    pub fn score_fits(&self, map: &SubwayMap) -> (r: bool)
        ensures
            r == (completion_total(self@.completed, self@.statuses) + transfer_total(self@.marks) <= i32::MAX
                && map.total_stations() <= u32::MAX),
    {
        let ghost v = self@;
        let cap: u64 = 0x8000_0000;
        let mut total: u64 = 0;
        let mut i: usize = 0;
        while i < self.completed_lines.len()
            invariant
                i <= self.completed_lines@.len(),
                v == self@,
                cap == 0x8000_0000,
                total == min(completion_total(v.completed.take(i as int), v.statuses), cap as int),
            decreases self.completed_lines@.len() - i,
        {
            proof {
                assert(v.completed.take(i + 1).drop_last() =~= v.completed.take(i as int));
                lemma_completion_total_nonneg(v.completed.take(i as int), v.statuses);
            }
            let mut k: usize = 0;
            let mut points: u8 = 0;
            let mut found = false;
            while k < self.line_completion_status.len() && !found
                invariant
                    k <= self.line_completion_status@.len(),
                    v == self@,
                    i < v.completed.len(),
                    found ==> has_key(v.statuses, v.completed[i as int]) && points as int == status_points(
                        value_of(v.statuses, v.completed[i as int]),
                    ),
                    !found ==> points == 0 && forall|j: int| 0 <= j < k ==> v.statuses[j].0 != v.completed[i as int],
                decreases self.line_completion_status@.len() - k, if found { 0int } else { 1int },
            {
                if self.line_completion_status[k].line_id.same(&self.completed_lines[i]) {
                    proof {
                        lemma_key_pos_is(v.statuses, v.completed[i as int], k as int);
                    }
                    points = match self.line_completion_status[k].status {
                        CompletionStatus::FirstToComplete(p) => p,
                        CompletionStatus::LaterCompletion(p) => p,
                        CompletionStatus::NotCompleted => 0,
                    };
                    found = true;
                } else {
                    k = k + 1;
                }
            }
            total = if total + points as u64 >= cap { cap } else { total + points as u64 };
            i = i + 1;
        }
        assert(v.completed.take(i as int) =~= v.completed);
        let mut t: usize = 0;
        assert(v.marks.take(0) =~= seq![]);
        while t < self.marked_stations.len()
            invariant
                t <= self.marked_stations@.len(),
                v == self@,
                cap == 0x8000_0000,
                total == min(
                    completion_total(v.completed, v.statuses) + transfer_total(v.marks.take(t as int)),
                    cap as int,
                ),
            decreases self.marked_stations@.len() - t,
        {
            proof {
                assert(v.marks.take(t + 1).drop_last() =~= v.marks.take(t as int));
                lemma_completion_total_nonneg(v.completed, v.statuses);
                lemma_transfer_total_prefix(v.marks, t as int);
            }
            let term: u64 = match self.marked_stations[t].mark {
                StationMark::TransferNumber(c) => 2 * (c as u64),
                StationMark::Cross => 0,
            };
            total = if total + term >= cap { cap } else { total + term };
            t = t + 1;
        }
        assert(v.marks.take(t as int) =~= v.marks);
        let scap: u64 = 0x1_0000_0000;
        let mut stations: u64 = 0;
        let mut l: usize = 0;
        assert(map.lines@.take(0) =~= seq![]);
        while l < map.lines.len()
            invariant
                l <= map.lines@.len(),
                scap == 0x1_0000_0000,
                stations == min(sum_line_lengths(map.lines@.take(l as int)), scap as int),
            decreases map.lines@.len() - l,
        {
            proof {
                assert(map.lines@.take(l + 1).drop_last() =~= map.lines@.take(l as int));
                lemma_line_lengths_prefix(map.lines@, l as int);
            }
            let len = map.lines[l].stations.len();
            stations = if len as u64 >= scap - stations { scap } else { stations + len as u64 };
            l = l + 1;
        }
        assert(map.lines@.take(l as int) =~= map.lines@);
        total < cap && stations < scap
    }

    /// The sheet's score on `map`.
    pub fn calculate_score(&self, map: &SubwayMap) -> (r: i32)
        requires
            completion_total(self@.completed, self@.statuses) + transfer_total(self@.marks) <= i32::MAX,
            map.total_stations() <= u32::MAX,
        ensures
            r == score(self@, *map),
    {
        let ghost v = self@;
        let mut total: i64 = 0;
        let mut i: usize = 0;
        while i < self.completed_lines.len()
            invariant
                i <= self.completed_lines@.len(),
                v == self@,
                completion_total(v.completed, v.statuses) + transfer_total(v.marks) <= i32::MAX,
                total == completion_total(v.completed.take(i as int), v.statuses),
            decreases self.completed_lines@.len() - i,
        {
            proof {
                assert(v.completed.take(i + 1).drop_last() =~= v.completed.take(i as int));
                lemma_completion_total_prefix(v.completed, v.statuses, i + 1);
                lemma_transfer_total_prefix(v.marks, 0);
            }
            let mut k: usize = 0;
            let mut points: u8 = 0;
            let mut found = false;
            while k < self.line_completion_status.len() && !found
                invariant
                    k <= self.line_completion_status@.len(),
                    v == self@,
                    i < v.completed.len(),
                    found ==> has_key(v.statuses, v.completed[i as int]) && points as int == status_points(
                        value_of(v.statuses, v.completed[i as int]),
                    ),
                    !found ==> points == 0 && forall|j: int| 0 <= j < k ==> v.statuses[j].0 != v.completed[i as int],
                decreases self.line_completion_status@.len() - k, if found { 0int } else { 1int },
            {
                if self.line_completion_status[k].line_id.same(&self.completed_lines[i]) {
                    proof {
                        lemma_key_pos_is(v.statuses, v.completed[i as int], k as int);
                    }
                    points = match self.line_completion_status[k].status {
                        CompletionStatus::FirstToComplete(p) => p,
                        CompletionStatus::LaterCompletion(p) => p,
                        CompletionStatus::NotCompleted => 0,
                    };
                    found = true;
                } else {
                    k = k + 1;
                }
            }
            total = total + points as i64;
            i = i + 1;
        }
        assert(v.completed.take(i as int) =~= v.completed);
        let mut t: usize = 0;
        while t < self.marked_stations.len()
            invariant
                t <= self.marked_stations@.len(),
                v == self@,
                completion_total(v.completed, v.statuses) + transfer_total(v.marks) <= i32::MAX,
                total == completion_total(v.completed, v.statuses) + transfer_total(v.marks.take(t as int)),
            decreases self.marked_stations@.len() - t,
        {
            proof {
                assert(v.marks.take(t + 1).drop_last() =~= v.marks.take(t as int));
                lemma_transfer_total_prefix(v.marks, t + 1);
            }
            match self.marked_stations[t].mark {
                StationMark::TransferNumber(c) => {
                    total = total + 2 * (c as i64);
                },
                StationMark::Cross => {},
            }
            t = t + 1;
        }
        assert(v.marks.take(t as int) =~= v.marks);
        let mut stations: u64 = 0;
        let mut l: usize = 0;
        while l < map.lines.len()
            invariant
                l <= map.lines@.len(),
                map.total_stations() <= u32::MAX,
                stations == sum_line_lengths(map.lines@.take(l as int)),
            decreases map.lines@.len() - l,
        {
            proof {
                assert(map.lines@.take(l + 1).drop_last() =~= map.lines@.take(l as int));
                lemma_line_lengths_prefix(map.lines@, l + 1);
            }
            stations = stations + map.lines[l].stations.len() as u64;
            l = l + 1;
        }
        assert(map.lines@.take(l as int) =~= map.lines@);
        let marked = self.marked_stations.len() as u64;
        let empty: u64 = if stations >= marked {
            stations - marked
        } else {
            0
        };
        proof {
            lemma_completion_total_nonneg(v.completed, v.statuses);
            lemma_transfer_total_prefix(v.marks, 0);
            assert(v.marks.take(0) =~= seq![]);
        }
        (total - (empty / 2) as i64) as i32
    }
}

} // verus!
