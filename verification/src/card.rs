//! Cards of a deck: what is measured of one card and of the cards of a
//! deck, and how a card of the board service becomes a card of a deck.

use crate::card::pipefy::{
    card_from_body, card_in_body, FetchError, PhaseHistory, PhaseHistoryView, PipefyCard,
    PipefyCardView,
};
use crate::decimal::{number_i32, parse_i32};
use crate::deck::Deck;
use crate::time::{toward_zero, window_start, Date, Timestamp, NANOS_PER_DAY};
use vstd::prelude::*;

pub mod pipefy;

verus! {

/// A card of a deck, as it is stored.
#[derive(Clone, Debug, PartialEq, Eq)]
pub struct Card {
    pub id: i32,
    pub title: String,
    pub deck_id: i32,
    pub finished_at: Option<Timestamp>,
    pub created_at: Timestamp,
    pub updated_at: Timestamp,
    pub started_at: Option<Timestamp>,
}

/// A card that is to be stored: a card without the id that the store gives
/// it.
#[derive(Clone, Debug, PartialEq, Eq)]
pub struct InsertableCard {
    pub title: String,
    pub deck_id: i32,
    pub finished_at: Option<Timestamp>,
    pub created_at: Timestamp,
    pub updated_at: Timestamp,
    pub started_at: Option<Timestamp>,
}

/// A number of whole days.
#[derive(Clone, Copy, Debug, PartialEq, Eq, Structural)]
pub struct Days(pub i64);

/// What is measured of one card.
#[derive(Clone, Copy, Debug, PartialEq, Eq, Structural)]
pub struct Metrics {
    pub lead_time: Option<Days>,
    pub cycle_time: Option<Days>,
}

impl Card {
    /// The whole days from the end of the card to its creation, rounded
    /// toward zero: creation minus end, so not above zero for a card that
    /// was finished after it was created. None for a card that is not
    /// finished.
    pub open spec fn cycle_days(self) -> Option<int> {
        match self.finished_at {
            Some(finished_at) => Some(
                toward_zero(self.created_at@ - finished_at@, NANOS_PER_DAY as int),
            ),
            None => None,
        }
    }

    /// The whole days from the end of the card to the start of work on it,
    /// rounded toward zero: start minus end. None for a card that is not
    /// finished or was never started.
    pub open spec fn lead_days(self) -> Option<int> {
        match (self.finished_at, self.started_at) {
            (Some(finished_at), Some(started_at)) => Some(
                toward_zero(started_at@ - finished_at@, NANOS_PER_DAY as int),
            ),
            _ => None,
        }
    }

    /// The lead time and the cycle time of the card.
    pub fn metrics(&self) -> (r: Metrics)
        ensures
            days_of(r.lead_time) == self.lead_days(),
            days_of(r.cycle_time) == self.cycle_days(),
    {
        let lead_time = self.lead_time();
        let cycle_time = self.cycle_time();
        Metrics { lead_time, cycle_time }
    }

    /// The cycle time of the card: the whole days from its end to its
    /// creation, so not above zero for a card that was finished after it
    /// was created. None for a card that is not finished.
    pub fn cycle_time(&self) -> (r: Option<Days>)
        ensures
            days_of(r) == self.cycle_days(),
    {
        match self.finished_at {
            Some(finished_at) => Some(Days(self.created_at.days_since(&finished_at))),
            None => None,
        }
    }

    /// The lead time of the card: the whole days from its end to the start
    /// of work on it, so not above zero for a card that was finished after
    /// it was started. None for a card that is not finished or was never
    /// started.
    pub fn lead_time(&self) -> (r: Option<Days>)
        ensures
            days_of(r) == self.lead_days(),
    {
        let finished_at = match self.finished_at {
            Some(finished_at) => finished_at,
            None => { return None; },
        };
        match self.started_at {
            Some(started_at) => Some(Days(started_at.days_since(&finished_at))),
            None => None,
        }
    }
}

/// The number that a count of days holds.
pub open spec fn days_of(days: Option<Days>) -> Option<int> {
    match days {
        Some(days) => Some(days.0 as int),
        None => None,
    }
}

/// A card that is not finished has no cycle time and no lead time.
pub proof fn lemma_open_card_has_no_times(card: Card)
    requires
        card.finished_at is None,
    ensures
        card.cycle_days() is None,
        card.lead_days() is None,
{
}

/// Whether the entry is one of coming into the phase `phase_id`: whether
/// the id of its phase is a number, and that one.
pub open spec fn enters(entry: PhaseHistoryView, phase_id: i32) -> bool {
    number_i32(entry.phase.id) == Some(phase_id)
}

/// When work on a card started: when it first came into the phase
/// `phase_id`, by the first entry of its history that says so. An entry
/// whose phase has no number for its id is passed over.
pub open spec fn start_of(history: Seq<PhaseHistoryView>, phase_id: i32) -> Option<int>
    decreases history.len(),
{
    if history.len() == 0 {
        None
    } else if enters(history[0], phase_id) {
        Some(history[0].first_time_in)
    } else {
        start_of(history.skip(1), phase_id)
    }
}

/// What `start_of` finds in a history: the entry before which none is of
/// the phase, or nothing where no entry is.
pub proof fn lemma_start_is_first_entry(history: Seq<PhaseHistoryView>, phase_id: i32)
    ensures
        match start_of(history, phase_id) {
            Some(at) => exists|i: int|
                0 <= i < history.len() && #[trigger] enters(history[i], phase_id)
                    && history[i].first_time_in == at && forall|k: int|
                    0 <= k < i ==> !#[trigger] enters(history[k], phase_id),
            None => forall|i: int|
                0 <= i < history.len() ==> !#[trigger] enters(history[i], phase_id),
        },
    decreases history.len(),
{
    if history.len() > 0 && !enters(history[0], phase_id) {
        let rest = history.skip(1);
        lemma_start_is_first_entry(rest, phase_id);
        assert(forall|i: int| 0 <= i < rest.len() ==> rest[i] == history[i + 1]);
        match start_of(rest, phase_id) {
            Some(at) => {
                let i = choose|i: int|
                    0 <= i < rest.len() && #[trigger] enters(rest[i], phase_id)
                        && rest[i].first_time_in == at && forall|k: int|
                        0 <= k < i ==> !#[trigger] enters(rest[k], phase_id);
                assert(enters(history[i + 1], phase_id));
                assert forall|k: int| 0 <= k < i + 1 implies !#[trigger] enters(
                    history[k],
                    phase_id,
                ) by {
                    if k > 0 {
                        assert(!enters(rest[k - 1], phase_id));
                    }
                }
            },
            None => {
                assert forall|i: int| 0 <= i < history.len() implies !#[trigger] enters(
                    history[i],
                    phase_id,
                ) by {
                    if i > 0 {
                        assert(!enters(rest[i - 1], phase_id));
                    }
                }
            },
        }
    } else if history.len() > 0 {
        assert(enters(history[0], phase_id));
    }
}

/// A history without an entry of the phase has no start.
pub proof fn lemma_no_entry_no_start(history: Seq<PhaseHistoryView>, phase_id: i32)
    requires
        forall|i: int| 0 <= i < history.len() ==> !#[trigger] enters(history[i], phase_id),
    ensures
        start_of(history, phase_id) is None,
{
    lemma_start_is_first_entry(history, phase_id);
}

/// A history with exactly one entry of the phase starts with that entry,
/// wherever it stands: and so does every other order of the same entries.
pub proof fn lemma_single_entry_is_start(
    history: Seq<PhaseHistoryView>,
    reordered: Seq<PhaseHistoryView>,
    phase_id: i32,
    i: int,
)
    requires
        0 <= i < history.len(),
        enters(history[i], phase_id),
        forall|k: int|
            0 <= k < history.len() && k != i ==> !#[trigger] enters(history[k], phase_id),
        reordered.to_multiset() == history.to_multiset(),
    ensures
        start_of(history, phase_id) == Some(history[i].first_time_in),
        start_of(reordered, phase_id) == Some(history[i].first_time_in),
{
    lemma_start_is_first_entry(history, phase_id);
    lemma_start_is_first_entry(reordered, phase_id);
    history.to_multiset_ensures();
    reordered.to_multiset_ensures();
    assert(history.contains(history[i]));
    assert(history.to_multiset().count(history[i]) > 0);
    assert(reordered.to_multiset().count(history[i]) > 0);
    assert(reordered.contains(history[i]));
    let j = choose|j: int| 0 <= j < reordered.len() && reordered[j] == history[i];
    assert(enters(reordered[j], phase_id));
    let found = choose|f: int|
        0 <= f < reordered.len() && #[trigger] enters(reordered[f], phase_id)
            && reordered[f].first_time_in == start_of(reordered, phase_id)->Some_0;
    assert(reordered.contains(reordered[found]));
    assert(reordered.to_multiset().count(reordered[found]) > 0);
    assert(history.to_multiset().count(reordered[found]) > 0);
    assert(history.contains(reordered[found]));
    let back = choose|b: int| 0 <= b < history.len() && history[b] == reordered[found];
    assert(enters(history[back], phase_id));
}

/// When work on a card started: when it first came into the phase
/// `starting_phase_id`.
pub fn resolve_start(history: &Vec<PhaseHistory>, starting_phase_id: i32) -> (r: Option<
    Timestamp,
>)
    ensures
        match r {
            Some(at) => start_of(history_view(history@), starting_phase_id) == Some(at@),
            None => start_of(history_view(history@), starting_phase_id) is None,
        },
        (forall|i: int|
            0 <= i < history.len() ==> !#[trigger] enters(history[i]@, starting_phase_id))
            ==> r is None,
{
    let ghost all = history_view(history@);
    assert(all.skip(0) =~= all);
    proof {
        lemma_start_is_first_entry(all, starting_phase_id);
    }
    let mut i: usize = 0;
    while i < history.len()
        invariant
            i <= history.len(),
            all == history_view(history@),
            start_of(all, starting_phase_id) == start_of(all.skip(i as int), starting_phase_id),
        decreases history.len() - i,
    {
        let ghost rest = all.skip(i as int);
        assert(rest[0] == history[i as int]@);
        assert(rest.skip(1) =~= all.skip(i + 1));
        let entry = &history[i];
        match parse_i32(entry.phase.id.as_str()) {
            Some(id) => {
                if id == starting_phase_id {
                    return Some(entry.first_time_in);
                }
            },
            None => {},
        }
        i = i + 1;
    }
    None
}

/// What a phase history holds, entry by entry.
pub open spec fn history_view(history: Seq<PhaseHistory>) -> Seq<PhaseHistoryView> {
    Seq::new(history.len(), |i: int| history[i]@)
}

/// What a card to be stored holds.
pub ghost struct InsertableCardView {
    pub title: Seq<char>,
    pub deck_id: i32,
    /// Nanoseconds from the epoch, as the instants below.
    pub finished_at: Option<int>,
    pub created_at: int,
    pub updated_at: int,
    pub started_at: Option<int>,
}

impl View for InsertableCard {
    type V = InsertableCardView;

    open spec fn view(&self) -> InsertableCardView {
        InsertableCardView {
            title: self.title@,
            deck_id: self.deck_id,
            finished_at: match self.finished_at {
                Some(at) => Some(at@),
                None => None,
            },
            created_at: self.created_at@,
            updated_at: self.updated_at@,
            started_at: match self.started_at {
                Some(at) => Some(at@),
                None => None,
            },
        }
    }
}

/// The card of the deck that a card of the service becomes: its title and
/// its instants of creation, update and end, in the deck `deck_id`, started
/// when it first came into the phase `starting_phase_id`.
pub open spec fn record_of(card: PipefyCardView, deck_id: i32, starting_phase_id: i32)
    -> InsertableCardView {
    InsertableCardView {
        title: card.title,
        deck_id,
        finished_at: card.finished_at,
        created_at: card.created_at,
        updated_at: card.updated_at,
        started_at: start_of(card.phases_history, starting_phase_id),
    }
}

/// A card that the service reports as not finished is stored as not
/// finished, and so has no cycle time and no lead time.
pub proof fn lemma_open_card_is_stored_open(
    card: PipefyCardView,
    deck_id: i32,
    starting_phase_id: i32,
)
    requires
        card.finished_at is None,
    ensures
        record_of(card, deck_id, starting_phase_id).finished_at is None,
{
}

/// Makes of a card of the service the card to store in `deck`.
pub fn from_pipefy_to_deck(pipefy_card: PipefyCard, deck: &Deck) -> (card: InsertableCard)
    ensures
        card@ == record_of(pipefy_card@, deck.id, deck.starting_phase_id),
{
    assert(pipefy_card@.phases_history == history_view(pipefy_card.phases_history@));
    let started_at = resolve_start(&pipefy_card.phases_history, deck.starting_phase_id);
    InsertableCard {
        title: pipefy_card.title,
        deck_id: deck.id,
        finished_at: pipefy_card.finished_at,
        created_at: pipefy_card.created_at,
        updated_at: pipefy_card.updated_at,
        started_at,
    }
}

/// What the store said when it did not take a card.
#[derive(Clone, Debug, PartialEq, Eq)]
pub struct StorageError {
    pub message: String,
}

/// Why a card was not imported.
#[derive(Clone, Debug, PartialEq, Eq)]
pub enum ImportError {
    /// No card was had from the service.
    Fetch(FetchError),
    /// The store did not take the card.
    Storage(StorageError),
}

/// What the reply of the service leads to: the card to store, or the reason
/// why there is none. `None` stands for a reply that never came.
pub open spec fn import_of(reply: Option<Seq<char>>, deck_id: i32, starting_phase_id: i32)
    -> Result<InsertableCardView, FetchError> {
    match reply {
        Some(body) => match card_in_body(body) {
            Ok(card) => Ok(record_of(card, deck_id, starting_phase_id)),
            Err(e) => Err(e),
        },
        None => Err(FetchError::Transport),
    }
}

/// The first step of an import, once the service has replied to the query
/// for the card or has failed to: the card to store in `deck`, or the reason
/// why nothing is to be stored. `reply` is the body of the reply, `None`
/// where none came.
pub fn import_record(reply: Option<&str>, deck: &Deck) -> (r: Result<InsertableCard, ImportError>)
    ensures
        match r {
            Ok(card) => import_of(text_of(reply), deck.id, deck.starting_phase_id) == Ok::<
                InsertableCardView,
                FetchError,
            >(card@),
            Err(e) => e matches ImportError::Fetch(cause) && import_of(
                text_of(reply),
                deck.id,
                deck.starting_phase_id,
            ) == Err::<InsertableCardView, FetchError>(cause),
        },
{
    let body = match reply {
        Some(body) => body,
        None => { return Err(ImportError::Fetch(FetchError::Transport)); },
    };
    match card_from_body(body) {
        Ok(pipefy_card) => Ok(from_pipefy_to_deck(pipefy_card, deck)),
        Err(cause) => Err(ImportError::Fetch(cause)),
    }
}

/// The characters of a text that may be missing.
pub open spec fn text_of(text: Option<&str>) -> Option<Seq<char>> {
    match text {
        Some(text) => Some(text@),
        None => None,
    }
}

/// The last step of an import, once the store has answered: the card as it
/// was stored, or the store's refusal.
pub fn import_outcome(stored: Result<Card, StorageError>) -> (r: Result<Card, ImportError>)
    ensures
        r == match stored {
            Ok(card) => Ok::<Card, ImportError>(card),
            Err(e) => Err::<Card, ImportError>(ImportError::Storage(e)),
        },
{
    match stored {
        Ok(card) => Ok(card),
        Err(e) => Err(ImportError::Storage(e)),
    }
}

/// Which cards belong to the deck `deck_id`.
pub open spec fn in_deck(deck_id: i32) -> spec_fn(Card) -> bool {
    |card: Card| card.deck_id == deck_id
}

/// Which cards belong to the deck `deck_id` and were finished later than
/// the instant `start`.
pub open spec fn finished_after(deck_id: i32, start: int) -> spec_fn(Card) -> bool {
    |card: Card|
        card.deck_id == deck_id && match card.finished_at {
            Some(finished_at) => finished_at@ > start,
            None => false,
        }
}

fn duplicate(card: &Card) -> (r: Card)
    ensures
        r == *card,
{
    Card {
        id: card.id,
        title: card.title.clone(),
        deck_id: card.deck_id,
        finished_at: card.finished_at,
        created_at: card.created_at,
        updated_at: card.updated_at,
        started_at: card.started_at,
    }
}

/// The cards of the deck `deck_id` among `cards`, in their order.
pub fn by_deck(cards: &Vec<Card>, deck_id: i32) -> (r: Vec<Card>)
    ensures
        r@ == cards@.filter(in_deck(deck_id)),
{
    let mut found: Vec<Card> = Vec::new();
    let mut i: usize = 0;
    assert(cards@.take(0).filter(in_deck(deck_id)) =~= Seq::empty()) by {
        reveal(Seq::filter);
    }
    while i < cards.len()
        invariant
            i <= cards.len(),
            found@ == cards@.take(i as int).filter(in_deck(deck_id)),
        decreases cards.len() - i,
    {
        proof {
            assert(cards@.take(i + 1) =~= cards@.take(i as int).push(cards@[i as int]));
            cards@.take(i as int).lemma_filter_push(cards@[i as int], in_deck(deck_id));
        }
        if cards[i].deck_id == deck_id {
            found.push(duplicate(&cards[i]));
        }
        i = i + 1;
    }
    assert(cards@.take(i as int) =~= cards@);
    found
}

/// How many of `cards` belong to the deck `deck_id`.
pub fn count_by_deck(cards: &Vec<Card>, deck_id: i32) -> (count: usize)
    ensures
        count == cards@.filter(in_deck(deck_id)).len(),
{
    let mut count: usize = 0;
    let mut i: usize = 0;
    assert(cards@.take(0).filter(in_deck(deck_id)) =~= Seq::empty()) by {
        reveal(Seq::filter);
    }
    while i < cards.len()
        invariant
            i <= cards.len(),
            count <= i,
            count == cards@.take(i as int).filter(in_deck(deck_id)).len(),
        decreases cards.len() - i,
    {
        proof {
            assert(cards@.take(i + 1) =~= cards@.take(i as int).push(cards@[i as int]));
            cards@.take(i as int).lemma_filter_push(cards@[i as int], in_deck(deck_id));
        }
        if cards[i].deck_id == deck_id {
            count = count + 1;
        }
        i = i + 1;
    }
    assert(cards@.take(i as int) =~= cards@);
    count
}

/// How many cards of the deck `deck_id` were finished in the `n_weeks`
/// weeks that end with the day `today`: later than midnight, seven days
/// times `n_weeks` before `today`. A card that is not finished does not
/// count.
pub fn throughput_by_deck(cards: &Vec<Card>, deck_id: i32, today: Date, n_weeks: u32) -> (count:
    usize)
    ensures
        count == cards@.filter(finished_after(deck_id, window_start(today, n_weeks))).len(),
{
    let ghost counted = finished_after(deck_id, window_start(today, n_weeks));
    let mut count: usize = 0;
    let mut i: usize = 0;
    assert(cards@.take(0).filter(counted) =~= Seq::empty()) by {
        reveal(Seq::filter);
    }
    while i < cards.len()
        invariant
            i <= cards.len(),
            count <= i,
            counted == finished_after(deck_id, window_start(today, n_weeks)),
            count == cards@.take(i as int).filter(counted).len(),
        decreases cards.len() - i,
    {
        proof {
            assert(cards@.take(i + 1) =~= cards@.take(i as int).push(cards@[i as int]));
            cards@.take(i as int).lemma_filter_push(cards@[i as int], counted);
        }
        let card = &cards[i];
        let finished_in_window = match card.finished_at {
            Some(finished_at) => finished_at.after_window_start(today, n_weeks),
            None => false,
        };
        if card.deck_id == deck_id && finished_in_window {
            count = count + 1;
        }
        i = i + 1;
    }
    assert(cards@.take(i as int) =~= cards@);
    count
}

/// With a window of no weeks, a card counts only where it was finished
/// later than midnight of `today`: a deck whose cards were all finished at
/// that midnight or before it has a throughput of zero.
pub proof fn lemma_no_window_counts_after_midnight(cards: Seq<Card>, deck_id: i32, today: Date)
    requires
        forall|i: int|
            0 <= i < cards.len() && cards[i].deck_id == deck_id ==> match (
                #[trigger] cards[i]).finished_at {
                Some(finished_at) => finished_at@ <= today.midnight(),
                None => true,
            },
    ensures
        window_start(today, 0) == today.midnight(),
        cards.filter(finished_after(deck_id, window_start(today, 0))).len() == 0,
{
    let counted = finished_after(deck_id, window_start(today, 0));
    let kept = cards.filter(counted);
    if kept.len() > 0 {
        cards.lemma_filter_pred(counted, 0);
        cards.lemma_filter_contains_rev(counted, kept[0]);
        assert(kept.contains(kept[0]));
        let i = choose|i: int| 0 <= i < cards.len() && cards[i] == kept[0];
        assert(cards[i].deck_id == deck_id);
    }
}

} // verus!
