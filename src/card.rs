//! The card catalog, the standard deck and its seeded shuffle.
use vstd::prelude::*;

verus! {

/// One card of the shared deck.
#[derive(Clone, Copy, Debug, PartialEq, Eq, Structural)]
pub enum Card {
    /// A numbered card (1 to 5 in the standard deck).
    Number(u8),
    /// The six: the deck is reshuffled at the end of its round.
    Six,
    /// An express card (2, 3 or 4): marked stations are skipped, not stopped at.
    Express(u8),
    /// A transfer card: marks a station with its connection count.
    Transfer,
    /// A free ride: the station is chosen by the player.
    FreeRide,
}

/// The number of cards in the standard deck.
pub const DECK_SIZE: usize = 16;

/// The numeral a card carries, if any.
pub open spec fn card_value(c: Card) -> Option<u8> {
    match c {
        Card::Number(n) => Some(n),
        Card::Express(n) => Some(n),
        Card::Six => Some(6),
        Card::Transfer => None,
        Card::FreeRide => None,
    }
}

/// The standard deck in its order before any shuffle.
pub open spec fn standard_deck() -> Seq<Card> {
    seq![
        Card::Number(1), Card::Number(1), Card::Number(2), Card::Number(2),
        Card::Number(3), Card::Number(3), Card::Number(4), Card::Number(4),
        Card::Number(5), Card::Number(5), Card::Six, Card::Express(2),
        Card::Express(3), Card::Express(4), Card::Transfer, Card::FreeRide,
    ]
}

/// One step of the linear-congruential generator that drives the shuffle.
pub open spec fn lcg_step(state: u64) -> u64 {
    ((state as int * 1103515245 + 12345) % 0x1_0000_0000_0000_0000) as u64
}

/// Fisher-Yates from position `i` down to 1, the generator being at `state`.
pub open spec fn shuffle_from(d: Seq<Card>, state: u64, i: nat) -> Seq<Card>
    decreases i,
{
    if i == 0 || i >= d.len() {
        d
    } else {
        let s = lcg_step(state);
        let j = (s as int) % (i as int + 1);
        shuffle_from(d.update(i as int, d[j]).update(j, d[i as int]), s, (i - 1) as nat)
    }
}

/// The deck `d` after a shuffle seeded with `seed`.
pub open spec fn shuffled(d: Seq<Card>, seed: u64) -> Seq<Card> {
    if d.len() == 0 {
        d
    } else {
        shuffle_from(d, seed, (d.len() - 1) as nat)
    }
}

/// Shuffling only reorders: the cards, counted with multiplicity, stay the same.
proof fn lemma_shuffle_from_permutes(d: Seq<Card>, state: u64, i: nat)
    ensures
        shuffle_from(d, state, i).to_multiset() == d.to_multiset(),
        shuffle_from(d, state, i).len() == d.len(),
    decreases i,
{
    if i == 0 || i >= d.len() {
    } else {
        let s = lcg_step(state);
        let j = (s as int) % (i as int + 1);
        let d1 = d.update(i as int, d[j]);
        let d2 = d1.update(j, d[i as int]);
        lemma_swap_permutes(d, i as int, j);
        lemma_shuffle_from_permutes(d2, s, (i - 1) as nat);
    }
}

/// Exchanging two positions keeps the multiset of a sequence.
proof fn lemma_swap_permutes(d: Seq<Card>, i: int, j: int)
    requires
        0 <= i < d.len(),
        0 <= j < d.len(),
    ensures
        d.update(i, d[j]).update(j, d[i]).to_multiset() == d.to_multiset(),
{
    broadcast use vstd::seq_lib::group_to_multiset_ensures;
    let d1 = d.update(i, d[j]);
    vstd::seq_lib::to_multiset_update(d, i, d[j]);
    vstd::seq_lib::to_multiset_update(d1, j, d[i]);
    assert(d1[j] == d[j]);
    assert(d1.update(j, d[i]).to_multiset() =~= d.to_multiset());
}

/// Equal decks shuffled with equal seeds come out identical.
pub proof fn lemma_shuffle_deterministic(a: Seq<Card>, b: Seq<Card>, seed: u64)
    requires
        a == b,
    ensures
        shuffled(a, seed) == shuffled(b, seed),
{
}

/// A shuffle is a permutation of the deck it started from.
pub proof fn lemma_shuffle_permutes(d: Seq<Card>, seed: u64)
    ensures
        shuffled(d, seed).to_multiset() == d.to_multiset(),
        shuffled(d, seed).len() == d.len(),
{
    if d.len() > 0 {
        lemma_shuffle_from_permutes(d, seed, (d.len() - 1) as nat);
    }
}

impl Card {
    /// The sixteen cards of the standard deck, unshuffled.
    pub fn create_deck() -> (r: Vec<Card>)
        ensures
            r@ == standard_deck(),
    {
        let mut deck: Vec<Card> = Vec::new();
        let mut num: u8 = 1;
        while num <= 5
            invariant
                1 <= num <= 6,
                deck@ == standard_deck().take(2 * (num - 1)),
            decreases 6 - num,
        {
            deck.push(Card::Number(num));
            deck.push(Card::Number(num));
            assert(deck@ =~= standard_deck().take(2 * num));
            num = num + 1;
        }
        deck.push(Card::Six);
        deck.push(Card::Express(2));
        deck.push(Card::Express(3));
        deck.push(Card::Express(4));
        deck.push(Card::Transfer);
        deck.push(Card::FreeRide);
        assert(deck@ =~= standard_deck());
        deck
    }

    /// The numeral on the card: Number and Express give theirs, Six gives 6.
    pub fn get_value(&self) -> (r: Option<u8>)
        ensures
            r == card_value(*self),
    {
        match self {
            Card::Number(n) => Some(*n),
            Card::Express(n) => Some(*n),
            Card::Six => Some(6),
            Card::Transfer => None,
            Card::FreeRide => None,
        }
    }
}

} // verus!
