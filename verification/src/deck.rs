//! Decks, and what is measured of the cards of one deck.

use crate::card::{in_deck, throughput_by_deck, finished_after, Card};
use crate::time::{toward_zero, window_start, Date};
use vstd::prelude::*;

verus! {

/// A board whose cards are tracked.
#[derive(Clone, Debug, PartialEq, Eq)]
pub struct Deck {
    pub id: i32,
    pub title: String,
    pub created_by: i32,
    /// The board of the service that this deck mirrors.
    pub pipe_id: i32,
    /// The phase of that board in which work on a card starts.
    pub starting_phase_id: i32,
}

/// Which cards are finished.
pub open spec fn is_finished() -> spec_fn(Card) -> bool {
    |card: Card| card.finished_at is Some
}

/// The days that a card has been open: from the day it was created to the
/// day it was finished, or to `today` where it is not finished.
pub open spec fn open_days(card: Card, today: Date) -> int {
    (match card.finished_at {
        Some(finished_at) => finished_at.day(),
        None => today.day as int,
    }) - card.created_at.day()
}

/// The days that the cards have been open, taken together.
pub open spec fn total_open_days(cards: Seq<Card>, today: Date) -> int
    decreases cards.len(),
{
    if cards.len() == 0 {
        0
    } else {
        total_open_days(cards.drop_last(), today) + open_days(cards.last(), today)
    }
}

/// The lead time of a set of cards, in days: the days that all of them have
/// been open, divided by the number of those that are finished, and rounded
/// toward zero. Zero where none is finished.
pub open spec fn lead_days(cards: Seq<Card>, today: Date) -> int {
    let finished = cards.filter(is_finished()).len();
    if finished == 0 {
        0
    } else {
        toward_zero(total_open_days(cards, today), finished as int)
    }
}

impl Deck {
    /// How many cards of this deck were finished in the `n_weeks` weeks
    /// that end with the day `today`.
    pub fn throughput(&self, cards: &Vec<Card>, today: Date, n_weeks: u32) -> (count: usize)
        ensures
            count == cards@.filter(finished_after(self.id, window_start(today, n_weeks))).len(),
    {
        throughput_by_deck(cards, self.id, today, n_weeks)
    }

    /// The lead time of this deck in days, over those of `cards` that
    /// belong to it; `None` where the number of days is too large for the
    /// result.
    pub fn lead_time(&self, cards: &Vec<Card>, today: Date) -> (r: Option<i64>)
        ensures
            match r {
                Some(days) => days == lead_days(cards@.filter(in_deck(self.id)), today),
                None => {
                    let days = lead_days(cards@.filter(in_deck(self.id)), today);
                    days < i64::MIN || days > i64::MAX
                },
            },
            cards@.filter(in_deck(self.id)).filter(is_finished()).len() == 0 ==> r == Some(0i64),
    {
        let ghost mine = in_deck(self.id);
        let mut total: i128 = 0;
        let mut finished: usize = 0;
        let mut i: usize = 0;
        proof {
            reveal(Seq::filter);
            assert(cards@.take(0).filter(mine) =~= Seq::empty());
            assert(Seq::<Card>::empty().filter(is_finished()) =~= Seq::empty());
        }
        while i < cards.len()
            invariant
                i <= cards.len(),
                mine == in_deck(self.id),
                finished <= i,
                finished == cards@.take(i as int).filter(mine).filter(is_finished()).len(),
                total == total_open_days(cards@.take(i as int).filter(mine), today),
                -i * 0x1_0000_0000_0000 <= total <= i * 0x1_0000_0000_0000,
            decreases cards.len() - i,
        {
            let card = &cards[i];
            proof {
                let before = cards@.take(i as int);
                assert(cards@.take(i + 1) =~= before.push(*card));
                before.lemma_filter_push(*card, mine);
                before.filter(mine).lemma_filter_push(*card, is_finished());
                assert(before.filter(mine).push(*card).drop_last() =~= before.filter(mine));
            }
            if card.deck_id == self.id {
                let last_day = match card.finished_at {
                    Some(finished_at) => {
                        finished = finished + 1;
                        finished_at.day_number()
                    },
                    None => today.day as i64,
                };
                total = total + (last_day as i128 - card.created_at.day_number() as i128);
            }
            i = i + 1;
        }
        assert(cards@.take(i as int) =~= cards@);
        if finished == 0 {
            return Some(0);
        }
        let days = total / (finished as i128);
        if days < i64::MIN as i128 || days > i64::MAX as i128 {
            None
        } else {
            Some(days as i64)
        }
    }
}

} // verus!
