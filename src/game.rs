//! One game's authoritative state: deck, discard pile, revealed card, player sheets.
use vstd::prelude::*;
use vstd::string::StringExecFns;
use crate::board::{City, LineId, SubwayMap};
use crate::card::{Card, lcg_step, shuffle_from, shuffled, standard_deck, lemma_shuffle_permutes};
use crate::error::GameError;
use crate::keyed::{has_key, value_of};
use crate::sheet::{lemma_marks_persist, PlayerSheet, SheetView, CompletionStatus, StationMark, fresh_sheet, sheet_wf, marks_extend, can_use, with_card, mark_outcome, marks_after, newly_complete, after_completion_check, with_status, decimal, decimal_string};
use crate::message::{PlayerAction, GameMessage, is_action_result, is_line_completed};

verus! {

/// One game.
#[derive(Clone, Debug)]
pub struct GameState {
    pub id: u128,
    pub city: City,
    pub players: Vec<PlayerSheet>,
    pub current_card: Option<Card>,
    pub deck: Vec<Card>,
    pub discard_pile: Vec<Card>,
    pub round: u32,
    pub game_ended: bool,
    /// The player credited with revealing cards.
    pub conductor: u128,
}

/// Relies on `uuid::Uuid::new_v4`: a random identifier, as its 128-bit value.
#[verifier::external_body]
fn fresh_id() -> (r: u128) {
    uuid::Uuid::new_v4().as_u128()
}

/// Relies on `std::time::SystemTime::now`: the nanoseconds since the Unix epoch (zero
/// for a clock set before it). Nothing is known of the value.
#[verifier::external_body]
fn clock_nanos() -> (r: u128) {
    std::time::SystemTime::now()
        .duration_since(std::time::UNIX_EPOCH)
        .map(|d| d.as_nanos())
        .unwrap_or(0)
}

/// A fresh shuffle seed: the low 64 bits of the clock's nanoseconds.
fn clock_seed() -> (r: u64) {
    (clock_nanos() % 0x1_0000_0000_0000_0000) as u64
}

/// The position of the first sheet of player `id`.
pub open spec fn is_player_pos(players: Seq<PlayerSheet>, id: u128, i: int) -> bool {
    &&& 0 <= i < players.len()
    &&& players[i].player_id == id
    &&& forall|j: int| 0 <= j < i ==> players[j].player_id != id
}

/// The position of player `id`, or -1 where the player has no sheet.
pub open spec fn player_pos(players: Seq<PlayerSheet>, id: u128) -> int {
    if exists|i: int| is_player_pos(players, id, i) {
        choose|i: int| is_player_pos(players, id, i)
    } else {
        -1
    }
}

proof fn lemma_player_pos_is(players: Seq<PlayerSheet>, id: u128, i: int)
    requires
        is_player_pos(players, id, i),
    ensures
        player_pos(players, id) == i,
{
    let c = choose|m: int| is_player_pos(players, id, m);
    if c < i {
        assert(players[c].player_id != id);
    } else if c > i {
        assert(players[i].player_id != id);
    }
}

/// Every window of every line of every sheet is filled.
pub open spec fn all_windows_filled(players: Seq<PlayerSheet>) -> bool {
    forall|p: int, c: int, w: int|
        0 <= p < players.len() && 0 <= c < players[p]@.cars.len() && 0 <= w
            < players[p]@.cars[c].1.len() ==> (#[trigger] players[p]@.cars[c].1[w]) is Some
}

/// The deck that reshuffling after a six starts from: deck, then discard, then the card.
pub open spec fn six_pool(s: GameState) -> Seq<Card> {
    match s.current_card {
        Some(c) => s.deck@ + s.discard_pile@ + seq![c],
        None => s.deck@ + s.discard_pile@,
    }
}

/// Some player other than `pid` has completed `line`.
pub open spec fn others_completed(players: Seq<PlayerSheet>, pid: u128, line: Seq<char>) -> bool {
    exists|i: int|
        0 <= i < players.len() && players[i].player_id != pid && (#[trigger] players[i]@).completed.contains(line)
}

/// Why choosing `line` with `card` is refused, if it is.
pub open spec fn choose_line_error(v: SheetView, line: Seq<char>, card: Card, map: SubwayMap) -> Option<GameError> {
    if !can_use(v, line) {
        Some(GameError::LineFull)
    } else {
        match mark_outcome(v, line, card, map) {
            Ok(_) => None,
            Err(e) => Some(e),
        }
    }
}

/// The status a completion earns: first-completer points, or later-completer points.
pub open spec fn earned_status(line: Seq<char>, others: bool, map: SubwayMap) -> CompletionStatus {
    if others {
        CompletionStatus::LaterCompletion(map.line(line).completion_points.1)
    } else {
        CompletionStatus::FirstToComplete(map.line(line).completion_points.0)
    }
}

/// The sheet after choosing `line` with `card`: window filled, stations marked,
/// completion checked and, on completion, its status recorded.
pub open spec fn choose_line_sheet(
    v: SheetView,
    line: Seq<char>,
    card: Card,
    others: bool,
    map: SubwayMap,
) -> SheetView {
    let v2 = marks_after(with_card(v, line, card), line, card, map);
    let v3 = after_completion_check(v2, line, map);
    if newly_complete(v2, line, map) {
        with_status(v3, line, earned_status(line, others, map))
    } else {
        v3
    }
}

/// Why `action` by player `pid` is refused, if it is.
pub open spec fn action_error(s: GameState, pid: u128, action: PlayerAction, map: SubwayMap) -> Option<GameError> {
    match s.current_card {
        None => Some(GameError::NoCardRevealed),
        Some(card) => {
            let p = player_pos(s.players@, pid);
            match action {
                PlayerAction::ChooseLine { line_id, car_window_index: _ } => if p < 0 {
                    Some(GameError::PlayerNotFound)
                } else {
                    choose_line_error(s.players@[p]@, line_id@, card, map)
                },
                PlayerAction::MarkTransferStation { station_id } => if card != Card::Transfer {
                    Some(GameError::NotTransferCard)
                } else if !map.has_station(station_id@) {
                    Some(GameError::StationNotFound)
                } else if p < 0 {
                    Some(GameError::PlayerNotFound)
                } else if has_key(s.players@[p]@.marks, station_id@) {
                    Some(GameError::StationAlreadyMarked)
                } else {
                    None
                },
                PlayerAction::MarkFreeRideStation { station_id } => if card != Card::FreeRide {
                    Some(GameError::NotFreeRideCard)
                } else if p < 0 {
                    Some(GameError::PlayerNotFound)
                } else if has_key(s.players@[p]@.marks, station_id@) {
                    Some(GameError::StationAlreadyMarked)
                } else {
                    None
                },
                PlayerAction::CompleteLineAnnouncement { line_id: _ } => None,
            }
        },
    }
}

/// The acting player's sheet after an accepted `action`.
pub open spec fn action_sheet(s: GameState, pid: u128, action: PlayerAction, map: SubwayMap) -> SheetView {
    let v = s.players@[player_pos(s.players@, pid)]@;
    let card = s.current_card.unwrap();
    match action {
        PlayerAction::ChooseLine { line_id, car_window_index: _ } => choose_line_sheet(
            v,
            line_id@,
            card,
            others_completed(s.players@, pid, line_id@),
            map,
        ),
        PlayerAction::MarkTransferStation { station_id } => SheetView {
            marks: v.marks.push((station_id@, StationMark::TransferNumber(map.connections(station_id@)))),
            ..v
        },
        PlayerAction::MarkFreeRideStation { station_id } => SheetView {
            marks: v.marks.push((station_id@, StationMark::Cross)),
            ..v
        },
        PlayerAction::CompleteLineAnnouncement { line_id: _ } => v,
    }
}

pub open spec fn marked_text(n: nat) -> Seq<char> {
    "Marked "@ + decimal(n) + " stations"@
}

pub open spec fn transfer_text(n: nat) -> Seq<char> {
    "Marked transfer station with "@ + decimal(n) + " connections"@
}

/// The messages an accepted `action` produces, in order.
pub open spec fn action_messages(
    msgs: Seq<GameMessage>,
    s: GameState,
    pid: u128,
    action: PlayerAction,
    map: SubwayMap,
) -> bool {
    let card = s.current_card.unwrap();
    match action {
        PlayerAction::ChooseLine { line_id, car_window_index: _ } => {
            let v1 = with_card(s.players@[player_pos(s.players@, pid)]@, line_id@, card);
            let n = match mark_outcome(v1, line_id@, card, map) {
                Ok(l) => l.len(),
                Err(_) => 0,
            };
            if newly_complete(marks_after(v1, line_id@, card, map), line_id@, map) {
                &&& msgs.len() == 2
                &&& is_line_completed(msgs[0], pid, line_id@)
                &&& is_action_result(msgs[1], marked_text(n))
            } else {
                msgs.len() == 1 && is_action_result(msgs[0], marked_text(n))
            }
        },
        PlayerAction::MarkTransferStation { station_id } => msgs.len() == 1 && is_action_result(
            msgs[0],
            transfer_text(map.connections(station_id@) as nat),
        ),
        PlayerAction::MarkFreeRideStation { station_id: _ } => msgs.len() == 1 && is_action_result(
            msgs[0],
            "Marked free ride station"@,
        ),
        PlayerAction::CompleteLineAnnouncement { line_id } => msgs.len() == 1 && is_line_completed(
            msgs[0],
            pid,
            line_id@,
        ),
    }
}

/// The text reporting how many stations were marked.
fn marked_message(n: usize) -> (r: String)
    ensures
        r@ == marked_text(n as nat),
{
    let mut text = String::from_str("Marked ");
    let digits = decimal_string(n as u64);
    text.append(digits.as_str());
    text.append(" stations");
    text
}

/// The text reporting a transfer station's connection count.
fn transfer_message(n: u8) -> (r: String)
    ensures
        r@ == transfer_text(n as nat),
{
    let mut text = String::from_str("Marked transfer station with ");
    let digits = decimal_string(n as u64);
    text.append(digits.as_str());
    text.append(" connections");
    text
}

/// A station marked for a player stays marked, with the same mark, in every later
/// state whose sheets keep the earlier marks.
pub proof fn lemma_player_marks_persist(a: GameState, b: GameState, i: int, station: Seq<char>)
    requires
        a.wf(),
        b.wf(),
        a.marks_kept(b),
        0 <= i < a.players@.len(),
        has_key(a.players@[i]@.marks, station),
    ensures
        b.players@[i].player_id == a.players@[i].player_id,
        has_key(b.players@[i]@.marks, station),
        value_of(b.players@[i]@.marks, station) == value_of(a.players@[i]@.marks, station),
{
    assert(sheet_wf(a.players@[i]@));
    assert(sheet_wf(b.players@[i]@));
    lemma_marks_persist(a.players@[i]@, b.players@[i]@, station);
}

impl GameState {
    /// The cards held by the game: deck, discard pile, and the revealed card.
    pub open spec fn card_count(&self) -> int {
        self.deck@.len() + self.discard_pile@.len() + if self.current_card is Some { 1int } else { 0int }
    }

    /// The player's sheets are well formed, one per player.
    pub open spec fn wf(&self) -> bool {
        &&& forall|i: int| 0 <= i < self.players@.len() ==> sheet_wf(#[trigger] self.players@[i]@)
        &&& forall|i: int, j: int|
            0 <= i < j < self.players@.len() ==> self.players@[i].player_id != self.players@[j].player_id
    }

    /// Every sheet's marks in `self` are kept, in place, in `other`.
    pub open spec fn marks_kept(&self, other: GameState) -> bool {
        &&& self.players@.len() <= other.players@.len()
        &&& forall|i: int|
            0 <= i < self.players@.len() ==> other.players@[i].player_id == self.players@[i].player_id
                && marks_extend(self.players@[i]@, #[trigger] other.players@[i]@)
    }

    /// A new game in `city`, with a fresh identifier and a deck shuffled by the clock.
    pub fn new(city: City, conductor: u128) -> (r: GameState)
        ensures
            r.city == city,
            r.conductor == conductor,
            r.players@.len() == 0,
            r.current_card is None,
            r.discard_pile@.len() == 0,
            r.deck@.to_multiset() == standard_deck().to_multiset(),
            r.card_count() == 16,
            r.round == 0,
            !r.game_ended,
            r.wf(),
    {
        let id = fresh_id();
        let seed = clock_seed();
        GameState::create(id, city, conductor, seed)
    }

    /// A new game with the given identifier, its deck shuffled with `seed`.
    pub fn create(id: u128, city: City, conductor: u128, seed: u64) -> (r: GameState)
        ensures
            r.id == id,
            r.city == city,
            r.conductor == conductor,
            r.players@.len() == 0,
            r.current_card is None,
            r.discard_pile@.len() == 0,
            r.deck@ == shuffled(standard_deck(), seed),
            r.deck@.to_multiset() == standard_deck().to_multiset(),
            r.card_count() == 16,
            r.round == 0,
            !r.game_ended,
            r.wf(),
    {
        let mut deck = Card::create_deck();
        GameState::shuffle_deck(&mut deck, seed);
        GameState {
            id,
            city,
            players: Vec::new(),
            current_card: None,
            deck,
            discard_pile: Vec::new(),
            round: 0,
            game_ended: false,
            conductor,
        }
    }

    /// Shuffles `deck` in place, Fisher-Yates driven by a linear-congruential generator.
    pub fn shuffle_deck(deck: &mut Vec<Card>, seed: u64)
        ensures
            final(deck)@ == shuffled(old(deck)@, seed),
            final(deck)@.to_multiset() == old(deck)@.to_multiset(),
            final(deck)@.len() == old(deck)@.len(),
    {
        proof {
            lemma_shuffle_permutes(deck@, seed);
        }
        let ghost target = shuffled(deck@, seed);
        let n = deck.len();
        if n <= 1 {
            return;
        }
        let mut state: u64 = seed;
        let mut i: usize = n - 1;
        while i >= 1
            invariant
                deck@.len() == n,
                i < n,
                shuffle_from(deck@, state, i as nat) == target,
            decreases i,
        {
            let ghost before = deck@;
            let ghost prev = state;
            state = state.wrapping_mul(1103515245).wrapping_add(12345);
            assert(state == lcg_step(prev));
            let j = (state % (i as u64 + 1)) as usize;
            let a = deck[i];
            let b = deck[j];
            deck.set(i, b);
            deck.set(j, a);
            assert(deck@ =~= before.update(i as int, before[j as int]).update(j as int, before[i as int]));
            i = i - 1;
        }
    }

    /// Finds the sheet of player `id`.
    pub fn player_position(&self, id: u128) -> (r: Option<usize>)
        ensures
            match r {
                Some(i) => is_player_pos(self.players@, id, i as int) && player_pos(self.players@, id) == i,
                None => player_pos(self.players@, id) == -1 && forall|j: int|
                    0 <= j < self.players@.len() ==> self.players@[j].player_id != id,
            },
    {
        let mut i: usize = 0;
        while i < self.players.len()
            invariant
                i <= self.players@.len(),
                forall|j: int| 0 <= j < i ==> self.players@[j].player_id != id,
            decreases self.players@.len() - i,
        {
            if self.players[i].player_id == id {
                proof {
                    lemma_player_pos_is(self.players@, id, i as int);
                }
                return Some(i);
            }
            i = i + 1;
        }
        proof {
            if exists|m: int| is_player_pos(self.players@, id, m) {
                let m = choose|m: int| is_player_pos(self.players@, id, m);
                assert(self.players@[m].player_id != id);
            }
        }
        None
    }

    /// Gives player `player_id` a new sheet for `map`, replacing any earlier one.
    pub fn add_player(&mut self, player_id: u128, map: &SubwayMap)
        requires
            map.wf(),
            old(self).wf(),
        ensures
            final(self).wf(),
            player_pos(old(self).players@, player_id) >= 0 ==> {
                let p = player_pos(old(self).players@, player_id);
                &&& final(self).players@.len() == old(self).players@.len()
                &&& final(self).players@[p]@ == fresh_sheet(player_id, old(self).city, *map)
                &&& forall|j: int| 0 <= j < old(self).players@.len() && j != p
                    ==> final(self).players@[j] == old(self).players@[j]
            },
            player_pos(old(self).players@, player_id) < 0 ==> {
                &&& final(self).players@.len() == old(self).players@.len() + 1
                &&& final(self).players@.last()@ == fresh_sheet(player_id, old(self).city, *map)
                &&& final(self).players@.last().player_id == player_id
                &&& forall|j: int| 0 <= j < old(self).players@.len()
                    ==> final(self).players@[j] == old(self).players@[j]
            },
            final(self).deck == old(self).deck,
            final(self).discard_pile == old(self).discard_pile,
            final(self).current_card == old(self).current_card,
            final(self).id == old(self).id,
            final(self).city == old(self).city,
            final(self).round == old(self).round,
            final(self).game_ended == old(self).game_ended,
            final(self).conductor == old(self).conductor,
    {
        let sheet = PlayerSheet::new(player_id, self.city, map);
        match self.player_position(player_id) {
            Some(p) => {
                let _ = self.players.remove(p);
                self.players.insert(p, sheet);
            },
            None => {
                self.players.push(sheet);
            },
        }
    }

    /// Draws the top card; an empty deck is first refilled from the discard pile,
    /// reshuffled with a fresh seed.
    pub fn draw_card(&mut self) -> (r: Option<Card>)
        ensures
            old(self).deck@.len() > 0 ==> r == Some(old(self).deck@.last()) && final(self).deck@
                == old(self).deck@.drop_last() && final(self).discard_pile == old(self).discard_pile,
            old(self).deck@.len() == 0 && old(self).discard_pile@.len() > 0 ==> r is Some
                && final(self).discard_pile@.len() == 0
                && final(self).deck@.push(r.unwrap()).to_multiset() == old(self).discard_pile@.to_multiset(),
            old(self).deck@.len() == 0 && old(self).discard_pile@.len() == 0 ==> r is None
                && *final(self) == *old(self),
            r is Some ==> final(self).card_count() + 1 == old(self).card_count(),
            final(self).current_card == old(self).current_card,
            final(self).players == old(self).players,
            final(self).round == old(self).round,
            final(self).game_ended == old(self).game_ended,
    {
        let seed = clock_seed();
        self.draw_card_seeded(seed)
    }

    /// Draws as `draw_card` does, reshuffling with `seed` where the discard pile is used.
    pub fn draw_card_seeded(&mut self, seed: u64) -> (r: Option<Card>)
        ensures
            old(self).deck@.len() > 0 ==> r == Some(old(self).deck@.last()) && final(self).deck@
                == old(self).deck@.drop_last() && final(self).discard_pile == old(self).discard_pile,
            old(self).deck@.len() == 0 && old(self).discard_pile@.len() > 0 ==> {
                let d = shuffled(old(self).discard_pile@, seed);
                &&& r == Some(d.last())
                &&& final(self).deck@ == d.drop_last()
                &&& final(self).discard_pile@.len() == 0
                &&& final(self).deck@.push(r.unwrap()).to_multiset() == old(self).discard_pile@.to_multiset()
            },
            old(self).deck@.len() == 0 && old(self).discard_pile@.len() == 0 ==> r is None
                && *final(self) == *old(self),
            r is Some ==> final(self).card_count() + 1 == old(self).card_count(),
            final(self).current_card == old(self).current_card,
            final(self).players == old(self).players,
            final(self).round == old(self).round,
            final(self).game_ended == old(self).game_ended,
    {
        if self.deck.len() > 0 {
            return self.deck.pop();
        }
        if self.discard_pile.len() == 0 {
            return None;
        }
        let ghost pile = self.discard_pile@;
        self.deck.append(&mut self.discard_pile);
        assert(self.deck@ =~= pile);
        GameState::shuffle_deck(&mut self.deck, seed);
        proof {
            lemma_shuffle_permutes(pile, seed);
        }
        let ghost d = self.deck@;
        let r = self.deck.pop();
        assert(self.deck@.push(r.unwrap()) =~= d);
        r
    }

    /// Reveals the next card and makes it the current one.
    pub fn reveal_card(&mut self) -> (r: Option<Card>)
        ensures
            old(self).deck@.len() > 0 ==> r == Some(old(self).deck@.last()) && final(self).deck@
                == old(self).deck@.drop_last() && final(self).discard_pile == old(self).discard_pile,
            old(self).deck@.len() == 0 && old(self).discard_pile@.len() > 0 ==> final(self).discard_pile@.len() == 0
                && final(self).deck@.push(r.unwrap()).to_multiset() == old(self).discard_pile@.to_multiset(),
            r is Some ==> final(self).current_card == r,
            r is None ==> *final(self) == *old(self),
            old(self).current_card is None ==> final(self).card_count() == old(self).card_count(),
            r is None <==> old(self).deck@.len() == 0 && old(self).discard_pile@.len() == 0,
            final(self).players == old(self).players,
            final(self).round == old(self).round,
            final(self).game_ended == old(self).game_ended,
    {
        let seed = clock_seed();
        self.reveal_card_seeded(seed)
    }

    /// Reveals as `reveal_card` does, any reshuffle seeded with `seed`.
    pub fn reveal_card_seeded(&mut self, seed: u64) -> (r: Option<Card>)
        ensures
            old(self).deck@.len() > 0 ==> r == Some(old(self).deck@.last()) && final(self).deck@
                == old(self).deck@.drop_last() && final(self).discard_pile == old(self).discard_pile,
            old(self).deck@.len() == 0 && old(self).discard_pile@.len() > 0 ==> {
                let d = shuffled(old(self).discard_pile@, seed);
                &&& r == Some(d.last())
                &&& final(self).deck@ == d.drop_last()
                &&& final(self).discard_pile@.len() == 0
                &&& final(self).deck@.push(r.unwrap()).to_multiset() == old(self).discard_pile@.to_multiset()
            },
            r is Some ==> final(self).current_card == r,
            r is None ==> *final(self) == *old(self),
            r is None <==> old(self).deck@.len() == 0 && old(self).discard_pile@.len() == 0,
            old(self).current_card is None ==> final(self).card_count() == old(self).card_count(),
            final(self).players == old(self).players,
            final(self).round == old(self).round,
            final(self).game_ended == old(self).game_ended,
    {
        match self.draw_card_seeded(seed) {
            Some(card) => {
                self.current_card = Some(card);
                Some(card)
            },
            None => None,
        }
    }

    /// After a six: deck, discard pile and the six go back into the deck, reshuffled.
    pub fn handle_card_six(&mut self)
        ensures
            final(self).discard_pile@.len() == 0,
            final(self).current_card is None,
            final(self).deck@.to_multiset() == six_pool(*old(self)).to_multiset(),
            final(self).card_count() == old(self).card_count(),
            final(self).players == old(self).players,
            final(self).round == old(self).round,
            final(self).game_ended == old(self).game_ended,
    {
        let seed = clock_seed();
        self.handle_card_six_seeded(seed)
    }

    /// As `handle_card_six`, the reshuffle seeded with `seed`.
    pub fn handle_card_six_seeded(&mut self, seed: u64)
        ensures
            final(self).deck@ == shuffled(six_pool(*old(self)), seed),
            final(self).deck@.to_multiset() == six_pool(*old(self)).to_multiset(),
            final(self).discard_pile@.len() == 0,
            final(self).current_card is None,
            final(self).card_count() == old(self).card_count(),
            final(self).players == old(self).players,
            final(self).round == old(self).round,
            final(self).game_ended == old(self).game_ended,
    {
        let ghost pool = six_pool(*self);
        self.deck.append(&mut self.discard_pile);
        match self.current_card.take() {
            Some(c) => self.deck.push(c),
            None => {},
        }
        assert(self.deck@ =~= pool);
        GameState::shuffle_deck(&mut self.deck, seed);
    }

    /// Whether every window of every player's sheet is filled.
    pub fn check_game_end(&self) -> (r: bool)
        ensures
            r == all_windows_filled(self.players@),
    {
        let mut p: usize = 0;
        while p < self.players.len()
            invariant
                p <= self.players@.len(),
                forall|q: int, c: int, w: int|
                    0 <= q < p && 0 <= c < self.players@[q]@.cars.len() && 0 <= w
                        < self.players@[q]@.cars[c].1.len() ==> (#[trigger] self.players@[q]@.cars[c].1[w]) is Some,
            decreases self.players@.len() - p,
        {
            let cars = &self.players[p].train_cars;
            let mut c: usize = 0;
            while c < cars.len()
                invariant
                    p < self.players@.len(),
                    cars == self.players@[p as int].train_cars,
                    c <= cars@.len(),
                    forall|q: int, c2: int, w: int|
                        0 <= q < p && 0 <= c2 < self.players@[q]@.cars.len() && 0 <= w
                            < self.players@[q]@.cars[c2].1.len() ==> (#[trigger] self.players@[q]@.cars[c2].1[w]) is Some,
                    forall|c2: int, w: int|
                        0 <= c2 < c && 0 <= w < self.players@[p as int]@.cars[c2].1.len()
                            ==> (#[trigger] self.players@[p as int]@.cars[c2].1[w]) is Some,
                decreases cars@.len() - c,
            {
                let windows = &cars[c].windows;
                let mut w: usize = 0;
                while w < windows.len()
                    invariant
                        p < self.players@.len(),
                        cars == self.players@[p as int].train_cars,
                        c < cars@.len(),
                        windows == cars@[c as int].windows,
                        w <= windows@.len(),
                        forall|w2: int| 0 <= w2 < w ==> (#[trigger] self.players@[p as int]@.cars[c as int].1[w2]) is Some,
                    decreases windows@.len() - w,
                {
                    if windows[w].is_none() {
                        assert(self.players@[p as int]@.cars[c as int].1[w as int] is None);
                        return false;
                    }
                    w = w + 1;
                }
                c = c + 1;
            }
            p = p + 1;
        }
        true
    }

    /// Ends the round: the revealed card goes to the discard pile (a six reshuffles
    /// everything instead), and the game ends once every window is filled.
    pub fn next_round(&mut self)
        requires
            old(self).round < u32::MAX,
        ensures
            final(self).round == old(self).round + 1,
            final(self).current_card is None,
            final(self).card_count() == old(self).card_count(),
            final(self).players == old(self).players,
            final(self).game_ended == (old(self).game_ended || all_windows_filled(old(self).players@)),
    {
        let seed = clock_seed();
        self.next_round_seeded(seed)
    }

    /// As `next_round`, a reshuffle after a six seeded with `seed`.
    pub fn next_round_seeded(&mut self, seed: u64)
        requires
            old(self).round < u32::MAX,
        ensures
            final(self).round == old(self).round + 1,
            final(self).current_card is None,
            final(self).card_count() == old(self).card_count(),
            final(self).players == old(self).players,
            final(self).game_ended == (old(self).game_ended || all_windows_filled(old(self).players@)),
            old(self).current_card == Some(Card::Six) ==> final(self).deck@ == shuffled(six_pool(*old(self)), seed)
                && final(self).discard_pile@.len() == 0,
            old(self).current_card is Some && old(self).current_card != Some(Card::Six) ==> final(self).deck
                == old(self).deck && final(self).discard_pile@ == old(self).discard_pile@.push(
                old(self).current_card.unwrap(),
            ),
            old(self).current_card is None ==> final(self).deck == old(self).deck
                && final(self).discard_pile == old(self).discard_pile,
    {
        self.round = self.round + 1;
        match self.current_card {
            Some(Card::Six) => {
                self.handle_card_six_seeded(seed);
            },
            Some(card) => {
                self.current_card = None;
                self.discard_pile.push(card);
            },
            None => {},
        }
        if self.check_game_end() {
            self.game_ended = true;
        }
    }

    /// Whether a player other than `pid` has completed `line_id`.
    fn others_completed_line(&self, pid: u128, line_id: &LineId) -> (r: bool)
        ensures
            r == others_completed(self.players@, pid, line_id@),
    {
        let mut i: usize = 0;
        while i < self.players.len()
            invariant
                i <= self.players@.len(),
                forall|j: int|
                    0 <= j < i && self.players@[j].player_id != pid ==> !(#[trigger] self.players@[j]@).completed.contains(
                        line_id@,
                    ),
            decreases self.players@.len() - i,
        {
            if self.players[i].player_id != pid && self.players[i].has_completed(line_id) {
                return true;
            }
            i = i + 1;
        }
        false
    }

    /// Applies `action` of player `player_id` to the game. A refused action changes nothing.
    pub fn process_player_action(
        &mut self,
        player_id: u128,
        action: PlayerAction,
        map: &SubwayMap,
    ) -> (r: Result<Vec<GameMessage>, GameError>)
        requires
            map.wf(),
            old(self).wf(),
        ensures
            final(self).wf(),
            old(self).marks_kept(*final(self)),
            final(self).players@.len() == old(self).players@.len(),
            final(self).deck == old(self).deck,
            final(self).discard_pile == old(self).discard_pile,
            final(self).current_card == old(self).current_card,
            final(self).round == old(self).round,
            final(self).game_ended == old(self).game_ended,
            final(self).id == old(self).id,
            final(self).city == old(self).city,
            final(self).conductor == old(self).conductor,
            action_error(*old(self), player_id, action, *map) matches Some(e) ==> r == Err::<Vec<GameMessage>, GameError>(e)
                && *final(self) == *old(self),
            action_error(*old(self), player_id, action, *map) is None ==> r is Ok && action_messages(
                r.unwrap()@,
                *old(self),
                player_id,
                action,
                *map,
            ),
            action_error(*old(self), player_id, action, *map) is None && !(action is CompleteLineAnnouncement) ==> {
                let p = player_pos(old(self).players@, player_id);
                &&& 0 <= p
                &&& final(self).players@[p]@ == action_sheet(*old(self), player_id, action, *map)
                &&& forall|j: int| 0 <= j < old(self).players@.len() && j != p ==> final(self).players@[j]
                    == old(self).players@[j]
            },
            action is CompleteLineAnnouncement ==> *final(self) == *old(self),
    {
        let card = match self.current_card {
            Some(c) => c,
            None => return Err(GameError::NoCardRevealed),
        };
        let ghost old_self = *self;
        match action {
            PlayerAction::ChooseLine { line_id, car_window_index: _ } => {
                let others = self.others_completed_line(player_id, &line_id);
                let p = match self.player_position(player_id) {
                    Some(p) => p,
                    None => return Err(GameError::PlayerNotFound),
                };
                if !self.players[p].can_use_line(&line_id) {
                    return Err(GameError::LineFull);
                }
                match self.players[p].check_marking(&line_id, &card, map) {
                    Ok(()) => {},
                    Err(e) => return Err(e),
                }
                let mut sheet = self.players.remove(p);
                let ghost v = sheet@;
                assert(sheet_wf(v));
                let _ = sheet.add_card_to_line(&line_id, &card);
                let ghost v1 = sheet@;
                assert(v1.marks == v.marks);
                assert(mark_outcome(v1, line_id@, card, *map) == mark_outcome(v, line_id@, card, *map));
                let marked = match sheet.mark_stations_from_line(&line_id, &card, map) {
                    Ok(l) => l,
                    Err(e) => {
                        assert(false);
                        self.players.insert(p, sheet);
                        return Err(e);
                    },
                };
                let ghost v2 = sheet@;
                let completed = sheet.check_line_completion(&line_id, map);
                let mut msgs: Vec<GameMessage> = Vec::new();
                if completed {
                    let li = match map.find_line(&line_id) {
                        Some(li) => li,
                        None => {
                            assert(false);
                            0
                        },
                    };
                    let status = if others {
                        CompletionStatus::LaterCompletion(map.lines[li].completion_points.1)
                    } else {
                        CompletionStatus::FirstToComplete(map.lines[li].completion_points.0)
                    };
                    sheet.set_completion_status(&line_id, status);
                    msgs.push(GameMessage::LineCompleted { player_id, line_id: line_id.duplicate() });
                }
                msgs.push(
                    GameMessage::PlayerActionResult { success: true, message: marked_message(marked.len()) },
                );
                self.players.insert(p, sheet);
                proof {
                    assert(self.players@ =~= old_self.players@.update(p as int, sheet));
                    assert(sheet@.player_id == player_id);
                    assert(sheet@.marks.len() >= v.marks.len());
                }
                Ok(msgs)
            },
            PlayerAction::MarkTransferStation { station_id } => {
                if card != Card::Transfer {
                    return Err(GameError::NotTransferCard);
                }
                let si = match map.find_station(&station_id) {
                    Some(si) => si,
                    None => return Err(GameError::StationNotFound),
                };
                let count = map.stations[si].lines.len() as u8;
                let p = match self.player_position(player_id) {
                    Some(p) => p,
                    None => return Err(GameError::PlayerNotFound),
                };
                if self.players[p].is_marked(&station_id) {
                    return Err(GameError::StationAlreadyMarked);
                }
                let mut sheet = self.players.remove(p);
                sheet.add_mark(station_id, StationMark::TransferNumber(count));
                self.players.insert(p, sheet);
                let mut msgs: Vec<GameMessage> = Vec::new();
                msgs.push(GameMessage::PlayerActionResult { success: true, message: transfer_message(count) });
                proof {
                    assert(self.players@ =~= old_self.players@.update(p as int, sheet));
                }
                Ok(msgs)
            },
            PlayerAction::MarkFreeRideStation { station_id } => {
                if card != Card::FreeRide {
                    return Err(GameError::NotFreeRideCard);
                }
                let p = match self.player_position(player_id) {
                    Some(p) => p,
                    None => return Err(GameError::PlayerNotFound),
                };
                if self.players[p].is_marked(&station_id) {
                    return Err(GameError::StationAlreadyMarked);
                }
                let mut sheet = self.players.remove(p);
                sheet.add_mark(station_id, StationMark::Cross);
                self.players.insert(p, sheet);
                let mut msgs: Vec<GameMessage> = Vec::new();
                msgs.push(
                    GameMessage::PlayerActionResult {
                        success: true,
                        message: String::from_str("Marked free ride station"),
                    },
                );
                proof {
                    assert(self.players@ =~= old_self.players@.update(p as int, sheet));
                }
                Ok(msgs)
            },
            PlayerAction::CompleteLineAnnouncement { line_id } => {
                let mut msgs: Vec<GameMessage> = Vec::new();
                msgs.push(GameMessage::LineCompleted { player_id, line_id });
                Ok(msgs)
            },
        }
    }
}

} // verus!
