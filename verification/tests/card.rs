use chrono::{DateTime, Utc};
use deck_metrics::card::pipefy::{card_from_body, Phase, PhaseHistory, PipefyCard};
use deck_metrics::card::{
    by_deck, count_by_deck, from_pipefy_to_deck, resolve_start, throughput_by_deck, Card, Days,
    InsertableCard, Metrics,
};
use deck_metrics::deck::Deck;
use deck_metrics::time::{Date, Timestamp};

fn at(text: &str) -> Timestamp {
    Timestamp::parse(text).unwrap()
}

fn card(id: i32, deck_id: i32, created: &str, started: Option<&str>, finished: Option<&str>) -> Card {
    Card {
        id,
        title: format!("card {}", id),
        deck_id,
        finished_at: finished.map(at),
        created_at: at(created),
        updated_at: at(created),
        started_at: started.map(at),
    }
}

fn entry(id: &str, first_time_in: &str) -> PhaseHistory {
    PhaseHistory {
        first_time_in: at(first_time_in),
        phase: Phase { name: format!("phase {}", id), id: id.to_string() },
    }
}

fn deck(id: i32, starting_phase_id: i32) -> Deck {
    Deck { id, title: "Team".to_string(), created_by: 1, pipe_id: 900, starting_phase_id }
}

const T0: &str = "2020-03-01T10:00:00Z";
const T1: &str = "2020-03-03T09:00:00Z";
const T2: &str = "2020-03-10T17:45:00Z";
const T3: &str = "2020-03-12T08:00:00Z";

#[test]
fn open_card_has_no_times() {
    let never_started = card(1, 1, T0, None, None);
    assert_eq!(never_started.cycle_time(), None);
    assert_eq!(never_started.lead_time(), None);
    let started = card(2, 1, T0, Some(T1), None);
    assert_eq!(started.cycle_time(), None);
    assert_eq!(started.lead_time(), None);
    assert_eq!(started.metrics(), Metrics { lead_time: None, cycle_time: None });
}

#[test]
fn cycle_time_is_creation_minus_end() {
    // eleven days less two hours from creation to the end
    let finished = card(1, 1, T0, None, Some(T3));
    assert_eq!(finished.cycle_time(), Some(Days(-10)));
    // ends before it was created
    let backwards = card(2, 1, T3, None, Some(T0));
    assert_eq!(backwards.cycle_time(), Some(Days(10)));
    let same_day = card(3, 1, T0, None, Some("2020-03-02T09:59:59Z"));
    assert_eq!(same_day.cycle_time(), Some(Days(0)));
    let one_day = card(4, 1, T0, None, Some("2020-03-02T10:00:00Z"));
    assert_eq!(one_day.cycle_time(), Some(Days(-1)));
}

#[test]
fn lead_time_is_start_minus_end() {
    let finished = card(1, 1, T0, Some(T1), Some(T3));
    // eight days and twenty-three hours from the start to the end
    assert_eq!(finished.lead_time(), Some(Days(-8)));
    let never_started = card(2, 1, T0, None, Some(T3));
    assert_eq!(never_started.lead_time(), None);
    let backwards = card(3, 1, T0, Some(T3), Some(T1));
    assert_eq!(backwards.lead_time(), Some(Days(8)));
}

#[test]
fn metrics_hold_both_times() {
    let finished = card(1, 1, T0, Some(T1), Some(T3));
    assert_eq!(
        finished.metrics(),
        Metrics { lead_time: Some(Days(-8)), cycle_time: Some(Days(-10)) }
    );
    let never_started = card(2, 1, T0, None, Some(T3));
    assert_eq!(
        never_started.metrics(),
        Metrics { lead_time: None, cycle_time: Some(Days(-10)) }
    );
}

#[test]
fn times_agree_with_chrono() {
    let naive = |text: &str| text.parse::<DateTime<Utc>>().unwrap().naive_utc();
    for (created, started, finished) in [(T0, T1, T3), (T3, T1, T0), (T1, T0, T2), (T2, T3, T2)] {
        let c = card(1, 1, created, Some(started), Some(finished));
        assert_eq!(c.cycle_time(), Some(Days((naive(created) - naive(finished)).num_days())));
        assert_eq!(c.lead_time(), Some(Days((naive(started) - naive(finished)).num_days())));
    }
}

#[test]
fn start_is_none_without_an_entry_of_the_phase() {
    assert_eq!(resolve_start(&vec![], 10), None);
    let history = vec![entry("5", T0), entry("20", T2)];
    assert_eq!(resolve_start(&history, 10), None);
    assert_eq!(resolve_start(&history, 0), None);
    assert_eq!(resolve_start(&history, -5), None);
}

#[test]
fn start_is_the_entry_of_the_phase_wherever_it_stands() {
    let orders = [
        vec![entry("10", T1), entry("5", T0), entry("20", T2)],
        vec![entry("5", T0), entry("10", T1), entry("20", T2)],
        vec![entry("20", T2), entry("5", T0), entry("10", T1)],
    ];
    for history in orders.iter() {
        assert_eq!(resolve_start(history, 10), Some(at(T1)));
    }
}

#[test]
fn start_is_the_first_of_several_entries_of_the_phase() {
    let history = vec![entry("5", T0), entry("10", T2), entry("10", T1)];
    assert_eq!(resolve_start(&history, 10), Some(at(T2)));
}

#[test]
fn start_passes_over_ids_that_are_no_numbers() {
    let history = vec![
        entry("", T0),
        entry("ten", T0),
        entry("10.0", T0),
        entry(" 10", T0),
        entry("99999999999", T0),
        entry("10", T1),
    ];
    assert_eq!(resolve_start(&history, 10), Some(at(T1)));
    assert_eq!(resolve_start(&history[..5].to_vec(), 10), None);
}

#[test]
fn start_compares_numbers_not_texts() {
    assert_eq!(resolve_start(&vec![entry("+10", T1)], 10), Some(at(T1)));
    assert_eq!(resolve_start(&vec![entry("0010", T1)], 10), Some(at(T1)));
    assert_eq!(resolve_start(&vec![entry("-10", T1)], -10), Some(at(T1)));
    assert_eq!(resolve_start(&vec![entry("-10", T1)], 10), None);
}

#[test]
fn record_copies_the_card_of_the_service() {
    let pipefy_card = PipefyCard {
        title: "Fix the login page".to_string(),
        created_at: at(T0),
        updated_at: at(T2),
        finished_at: Some(at(T3)),
        phases_history: vec![entry("5", T0), entry("10", T1), entry("20", T2)],
    };
    let record = from_pipefy_to_deck(pipefy_card, &deck(7, 10));
    assert_eq!(
        record,
        InsertableCard {
            title: "Fix the login page".to_string(),
            deck_id: 7,
            finished_at: Some(at(T3)),
            created_at: at(T0),
            updated_at: at(T2),
            started_at: Some(at(T1)),
        }
    );
}

#[test]
fn record_of_a_card_that_never_started() {
    let pipefy_card = PipefyCard {
        title: "T".to_string(),
        created_at: at(T0),
        updated_at: at(T0),
        finished_at: None,
        phases_history: vec![entry("5", T0)],
    };
    let record = from_pipefy_to_deck(pipefy_card, &deck(7, 10));
    assert_eq!(record.started_at, None);
    assert_eq!(record.finished_at, None);
    assert_eq!(record.deck_id, 7);
}

#[test]
fn imported_card_starts_with_the_phase_of_the_deck() {
    let body = format!(
        "{{\"data\": {{\"card\": {{\"title\": \"A\", \"createdAt\": \"{t0}\", \"updated_at\": \"{t2}\", \"finished_at\": \"{t3}\", \"phases_history\": [{{\"firstTimeIn\": \"{t0}\", \"phase\": {{\"name\": \"Backlog\", \"id\": \"5\"}}}}, {{\"firstTimeIn\": \"{t1}\", \"phase\": {{\"name\": \"Doing\", \"id\": \"10\"}}}}, {{\"firstTimeIn\": \"{t2}\", \"phase\": {{\"name\": \"Done\", \"id\": \"20\"}}}}]}}}}}}",
        t0 = T0,
        t1 = T1,
        t2 = T2,
        t3 = T3
    );
    let record = from_pipefy_to_deck(card_from_body(&body).unwrap(), &deck(3, 10));
    assert_eq!(record.started_at, Some(at(T1)));
    let stored = Card {
        id: 1,
        title: record.title,
        deck_id: record.deck_id,
        finished_at: record.finished_at,
        created_at: record.created_at,
        updated_at: record.updated_at,
        started_at: record.started_at,
    };
    let t1 = T1.parse::<DateTime<Utc>>().unwrap();
    let t3 = T3.parse::<DateTime<Utc>>().unwrap();
    assert_eq!(stored.lead_time(), Some(Days((t1 - t3).num_days())));
    assert_eq!(stored.lead_time(), Some(Days(-8)));
}

#[test]
fn cards_are_picked_by_deck() {
    let cards = vec![
        card(1, 1, T0, None, None),
        card(2, 2, T0, None, None),
        card(3, 1, T1, None, Some(T2)),
        card(4, 3, T0, None, None),
    ];
    let mine = by_deck(&cards, 1);
    assert_eq!(mine, vec![cards[0].clone(), cards[2].clone()]);
    assert_eq!(by_deck(&cards, 2), vec![cards[1].clone()]);
    assert!(by_deck(&cards, 9).is_empty());
    assert!(by_deck(&vec![], 1).is_empty());
}

#[test]
fn cards_are_counted_by_deck() {
    let cards = vec![
        card(1, 1, T0, None, None),
        card(2, 2, T0, None, None),
        card(3, 1, T1, None, Some(T2)),
    ];
    assert_eq!(count_by_deck(&cards, 1), 2);
    assert_eq!(count_by_deck(&cards, 2), 1);
    assert_eq!(count_by_deck(&cards, 3), 0);
    assert_eq!(count_by_deck(&vec![], 1), 0);
}

#[test]
fn throughput_counts_what_was_finished_in_the_window() {
    let today = Date { day: 18_293 }; // 2020-02-01
    let cards = vec![
        card(1, 1, "2020-01-01T00:00:00Z", None, Some("2020-01-31T12:00:00Z")),
        card(2, 1, "2020-01-01T00:00:00Z", None, Some("2020-01-25T00:00:01Z")),
        card(3, 1, "2020-01-01T00:00:00Z", None, Some("2020-01-25T00:00:00Z")),
        card(4, 1, "2020-01-01T00:00:00Z", None, Some("2020-01-10T00:00:00Z")),
        card(5, 1, "2020-01-01T00:00:00Z", None, None),
        card(6, 2, "2020-01-01T00:00:00Z", None, Some("2020-01-31T12:00:00Z")),
    ];
    assert_eq!(throughput_by_deck(&cards, 1, today, 1), 2);
    assert_eq!(throughput_by_deck(&cards, 1, today, 2), 3);
    assert_eq!(throughput_by_deck(&cards, 1, today, 4), 4);
    assert_eq!(throughput_by_deck(&cards, 2, today, 1), 1);
    assert_eq!(throughput_by_deck(&cards, 3, today, 1), 0);
    assert_eq!(throughput_by_deck(&vec![], 1, today, 1), 0);
}

#[test]
fn throughput_of_no_weeks_counts_after_midnight_today() {
    let today = Date { day: 18_293 }; // 2020-02-01
    let cards = vec![
        card(1, 1, "2020-01-01T00:00:00Z", None, Some("2020-01-31T23:59:59.999999999Z")),
        card(2, 1, "2020-01-01T00:00:00Z", None, Some("2020-02-01T00:00:00Z")),
        card(3, 1, "2020-01-01T00:00:00Z", None, None),
    ];
    assert_eq!(throughput_by_deck(&cards, 1, today, 0), 0);
    let mut later = cards.clone();
    later.push(card(4, 1, "2020-01-01T00:00:00Z", None, Some("2020-02-01T00:00:00.000000001Z")));
    later.push(card(5, 1, "2020-01-01T00:00:00Z", None, Some("2020-02-01T09:00:00Z")));
    assert_eq!(throughput_by_deck(&later, 1, today, 0), 2);
}
