//! The session layer's decisions: which messages go to whom after an action or a reveal.
use vstd::prelude::*;
use crate::board::SubwayMap;
use crate::error::error_text;
use crate::game::{GameState, action_error, action_messages, action_sheet, all_windows_filled, player_pos};
use crate::message::{GameMessage, PlayerAction};
use crate::sheet::{PlayerSheet, completion_total, score, transfer_total};

verus! {

/// Where an outbound message goes.
#[derive(Clone, Debug)]
pub enum Delivery {
    /// To every connected player.
    Broadcast(GameMessage),
    /// To one player only.
    ToPlayer(u128, GameMessage),
}

/// Line completions are announced to everyone; other results go to the acting player.
pub open spec fn route(m: GameMessage, pid: u128) -> Delivery {
    match m {
        GameMessage::LineCompleted { .. } => Delivery::Broadcast(m),
        _ => Delivery::ToPlayer(pid, m),
    }
}

/// Every player's score on `map` can be computed within `i32`.
pub open spec fn scores_fit(players: Seq<PlayerSheet>, map: SubwayMap) -> bool {
    &&& map.total_stations() <= u32::MAX
    &&& forall|i: int|
        0 <= i < players.len() ==> completion_total((#[trigger] players[i]@).completed, players[i]@.statuses)
            + transfer_total(players[i]@.marks) <= i32::MAX
}

/// Each player's identifier with their score.
pub open spec fn score_entries(players: Seq<PlayerSheet>, map: SubwayMap) -> Seq<(u128, i32)> {
    players.map_values(|p: PlayerSheet| (p.player_id, score(p@, map) as i32))
}

impl GameState {
    /// Whether every player's score fits in `i32`.
    pub fn scores_in_range(&self, map: &SubwayMap) -> (r: bool)
        ensures
            r == scores_fit(self.players@, *map),
    {
        if !map.station_count_fits() {
            return false;
        }
        let mut i: usize = 0;
        while i < self.players.len()
            invariant
                i <= self.players@.len(),
                map.total_stations() <= u32::MAX,
                forall|j: int|
                    0 <= j < i ==> completion_total((#[trigger] self.players@[j]@).completed, self.players@[j]@.statuses)
                        + transfer_total(self.players@[j]@.marks) <= i32::MAX,
            decreases self.players@.len() - i,
        {
            if !self.players[i].score_fits(map) {
                return false;
            }
            i = i + 1;
        }
        true
    }

    /// Every player's identifier with their score on `map`.
    pub fn calculate_final_scores(&self, map: &SubwayMap) -> (r: Vec<(u128, i32)>)
        requires
            scores_fit(self.players@, *map),
        ensures
            r@ == score_entries(self.players@, *map),
    {
        let mut r: Vec<(u128, i32)> = Vec::new();
        let mut i: usize = 0;
        while i < self.players.len()
            invariant
                i <= self.players@.len(),
                scores_fit(self.players@, *map),
                r@ == score_entries(self.players@.take(i as int), *map),
            decreases self.players@.len() - i,
        {
            let s = self.players[i].calculate_score(map);
            r.push((self.players[i].player_id, s));
            assert(self.players@.take(i + 1) =~= self.players@.take(i as int).push(self.players@[i as int]));
            assert(r@ =~= score_entries(self.players@.take(i + 1), *map));
            i = i + 1;
        }
        assert(self.players@.take(i as int) =~= self.players@);
        r
    }

    /// Applies a player's action and says where each resulting message goes: a refusal
    /// to the player alone, completions to all, other results to the player, and the
    /// final scores to all once every window is filled.
    pub fn handle_player_action(&mut self, player_id: u128, action: PlayerAction, map: &SubwayMap) -> (r: Vec<
        Delivery,
    >)
        requires
            map.wf(),
            old(self).wf(),
        ensures
            final(self).wf(),
            old(self).marks_kept(*final(self)),
            final(self).players@.len() == old(self).players@.len(),
            final(self).deck == old(self).deck,
            final(self).discard_pile == old(self).discard_pile,
            final(self).current_card == old(self).current_card,
            final(self).round == old(self).round,
            action_error(*old(self), player_id, action, *map) matches Some(e) ==> {
                &&& *final(self) == *old(self)
                &&& r@.len() == 1
                &&& r@[0] matches Delivery::ToPlayer(p, GameMessage::Error(t)) && p == player_id && t@
                    == error_text(e)
            },
            action_error(*old(self), player_id, action, *map) is None && !(action is CompleteLineAnnouncement) ==> {
                let p = player_pos(old(self).players@, player_id);
                &&& 0 <= p
                &&& final(self).players@[p]@ == action_sheet(*old(self), player_id, action, *map)
                &&& forall|j: int| 0 <= j < old(self).players@.len() && j != p ==> final(self).players@[j]
                    == old(self).players@[j]
            },
            action_error(*old(self), player_id, action, *map) is None ==> exists|msgs: Seq<GameMessage>|
                {
                    &&& action_messages(msgs, *old(self), player_id, action, *map)
                    &&& msgs.len() <= r@.len()
                    &&& forall|k: int| 0 <= k < msgs.len() ==> r@[k] == route(#[trigger] msgs[k], player_id)
                    &&& (r@.len() > msgs.len()) == (all_windows_filled(final(self).players@) && scores_fit(
                        final(self).players@,
                        *map,
                    ))
                    &&& r@.len() > msgs.len() ==> (r@.len() == msgs.len() + 1 && (r@.last() matches Delivery::Broadcast(
                        GameMessage::GameEnded { scores },
                    ) && scores@ == score_entries(final(self).players@, *map)))
                },
            action is CompleteLineAnnouncement ==> *final(self) == *old(self),
    {
        let mut out: Vec<Delivery> = Vec::new();
        let ghost old_self = *self;
        match self.process_player_action(player_id, action, map) {
            Ok(messages) => {
                let ghost msgs = messages@;
                let mut rest = messages;
                while rest.len() > 0
                    invariant
                        out@.len() + rest@.len() == msgs.len(),
                        rest@ == msgs.skip(out@.len() as int),
                        forall|k: int| 0 <= k < out@.len() ==> out@[k] == route(#[trigger] msgs[k], player_id),
                    decreases rest@.len(),
                {
                    let ghost k = out@.len() as int;
                    assert(rest@[0] == msgs[k]);
                    let m = rest.remove(0);
                    let completion = match &m {
                        GameMessage::LineCompleted { .. } => true,
                        _ => false,
                    };
                    if completion {
                        out.push(Delivery::Broadcast(m));
                    } else {
                        out.push(Delivery::ToPlayer(player_id, m));
                    }
                    assert(rest@ =~= msgs.skip(out@.len() as int));
                }
                if self.check_game_end() && self.scores_in_range(map) {
                    let scores = self.calculate_final_scores(map);
                    out.push(Delivery::Broadcast(GameMessage::GameEnded { scores }));
                }
                assert(action_messages(msgs, old_self, player_id, action, *map));
            },
            Err(e) => {
                out.push(Delivery::ToPlayer(player_id, GameMessage::Error(e.message())));
            },
        }
        out
    }
    /// Starts a round: reveals a card and, if one came, announces it to everyone,
    /// followed by a snapshot of the game.
    pub fn start_new_round(&mut self) -> (r: Vec<Delivery>)
        ensures
            old(self).deck@.len() == 0 && old(self).discard_pile@.len() == 0 ==> r@.len() == 0
                && *final(self) == *old(self),
            old(self).deck@.len() > 0 || old(self).discard_pile@.len() > 0 ==> {
                &&& final(self).current_card is Some
                &&& r@.len() == 2
                &&& r@[0] == Delivery::Broadcast(GameMessage::CardRevealed(final(self).current_card.unwrap()))
                &&& r@[1] is Broadcast
            },
            old(self).deck@.len() > 0 ==> final(self).current_card == Some(old(self).deck@.last())
                && final(self).deck@ == old(self).deck@.drop_last(),
            old(self).current_card is None ==> final(self).card_count() == old(self).card_count(),
            final(self).players == old(self).players,
            final(self).round == old(self).round,
    {
        let mut out: Vec<Delivery> = Vec::new();
        match self.reveal_card() {
            Some(card) => {
                out.push(Delivery::Broadcast(GameMessage::CardRevealed(card)));
                let snapshot = self.clone();
                out.push(Delivery::Broadcast(GameMessage::GameState(snapshot)));
            },
            None => {},
        }
        out
    }
}

} // verus!
