//! Cards as the board service reports them: the query that asks for one
//! card, and the reading of the reply.

use crate::decimal::{append_decimal, decimal_text};
use crate::json::{document, parse, Json, JsonView};
use crate::time::{instant, Timestamp};
use vstd::prelude::*;
use vstd::string::*;

verus! {

/// The reply was a JSON document, but held no card of the shape that the
/// query asks for: the service answers so to a credential that it refuses
/// and to an id that it does not know.
#[derive(Clone, Copy, Debug, PartialEq, Eq, Structural)]
pub struct Unauthorized;

impl Unauthorized {
    /// The refusal: there is one only.
    pub fn new() -> (r: Unauthorized)
        ensures
            r == Unauthorized,
    {
        Unauthorized
    }

    /// The words for this failure.
    pub fn message(&self) -> (r: String)
        ensures
            r@ == "Unauthorized access"@,
    {
        String::from_str("Unauthorized access")
    }
}

/// Why no card was had from the service.
#[derive(Clone, Copy, Debug, PartialEq, Eq, Structural)]
pub enum FetchError {
    /// The service was not reached, or its reply was no JSON document.
    Transport,
    /// The reply held no card of the expected shape.
    Unauthorized(Unauthorized),
}

/// A phase of the board.
#[derive(Clone, Debug)]
pub struct Phase {
    pub name: String,
    pub id: String,
}

/// That a card came into a phase, and when it first did.
#[derive(Clone, Debug)]
pub struct PhaseHistory {
    pub first_time_in: Timestamp,
    pub phase: Phase,
}

/// A card as the service reports it.
#[derive(Clone, Debug)]
pub struct PipefyCard {
    pub title: String,
    pub created_at: Timestamp,
    pub updated_at: Timestamp,
    pub finished_at: Option<Timestamp>,
    pub phases_history: Vec<PhaseHistory>,
}

/// What a phase holds.
pub ghost struct PhaseView {
    pub name: Seq<char>,
    pub id: Seq<char>,
}

/// What an entry of a phase history holds.
pub ghost struct PhaseHistoryView {
    /// Nanoseconds from the epoch.
    pub first_time_in: int,
    pub phase: PhaseView,
}

/// What a card of the service holds.
pub ghost struct PipefyCardView {
    pub title: Seq<char>,
    /// Nanoseconds from the epoch, as the two instants below.
    pub created_at: int,
    pub updated_at: int,
    pub finished_at: Option<int>,
    pub phases_history: Seq<PhaseHistoryView>,
}

impl View for Phase {
    type V = PhaseView;

    open spec fn view(&self) -> PhaseView {
        PhaseView { name: self.name@, id: self.id@ }
    }
}

impl View for PhaseHistory {
    type V = PhaseHistoryView;

    open spec fn view(&self) -> PhaseHistoryView {
        PhaseHistoryView { first_time_in: self.first_time_in@, phase: self.phase@ }
    }
}

impl View for PipefyCard {
    type V = PipefyCardView;

    open spec fn view(&self) -> PipefyCardView {
        PipefyCardView {
            title: self.title@,
            created_at: self.created_at@,
            updated_at: self.updated_at@,
            finished_at: match self.finished_at {
                Some(at) => Some(at@),
                None => None,
            },
            phases_history: Seq::new(
                self.phases_history.len() as nat,
                |i: int| self.phases_history[i]@,
            ),
        }
    }
}

/// What stands before the card's id in the query.
pub open spec fn query_head() -> Seq<char> {
    "query {\n        card(id: "@
}

/// What stands behind the card's id in the query.
pub open spec fn query_tail() -> Seq<char> {
    ") {\n            title\n            createdAt\n            updated_at\n            finished_at\n            phases_history {\n                firstTimeIn\n                phase {\n                    name\n                    id\n                }\n            }\n        } }"@
}

/// The query that asks the service for the card `card_id`: its title, when
/// it was created, last updated and finished, and each phase it came into,
/// with the phase's name and id and the time of the first entry.
pub fn card_query(card_id: i32) -> (query: String)
    ensures
        query@ == query_head() + decimal_text(card_id as int) + query_tail(),
{
    let mut query = String::from_str("query {\n        card(id: ");
    append_decimal(&mut query, card_id);
    query.append(
        ") {\n            title\n            createdAt\n            updated_at\n            finished_at\n            phases_history {\n                firstTimeIn\n                phase {\n                    name\n                    id\n                }\n            }\n        } }",
    );
    query
}

/// The text of the member `key` of `object`, where it has one that is a
/// string.
pub open spec fn text_member(object: JsonView, key: Seq<char>) -> Option<Seq<char>> {
    match object.member(key) {
        Some(value) => value.text(),
        None => None,
    }
}

/// The instant that the member `key` of `object` names, where it has one
/// that is a string and names one.
pub open spec fn instant_member(object: JsonView, key: Seq<char>) -> Option<int> {
    match text_member(object, key) {
        Some(text) => instant(text),
        None => None,
    }
}

/// The instant that the member `key` of `object` may name. No instant where
/// there is no such member or it is `null`; `None` where the member is
/// anything else than a string that names an instant.
pub open spec fn optional_instant_member(object: JsonView, key: Seq<char>) -> Option<
    Option<int>,
> {
    match object.member(key) {
        None => Some(None),
        Some(JsonView::Null) => Some(None),
        Some(JsonView::Text(text)) => match instant(text) {
            Some(at) => Some(Some(at)),
            None => None,
        },
        Some(_) => None,
    }
}

/// The phase that `value` describes: an object with the strings `name` and
/// `id`.
pub open spec fn phase_in(value: JsonView) -> Option<PhaseView> {
    match (text_member(value, "name"@), text_member(value, "id"@)) {
        (Some(name), Some(id)) => Some(PhaseView { name, id }),
        _ => None,
    }
}

/// The entry of a phase history that `value` describes: an object with the
/// instant `firstTimeIn` and the phase `phase`.
pub open spec fn entry_in(value: JsonView) -> Option<PhaseHistoryView> {
    match (instant_member(value, "firstTimeIn"@), value.member("phase"@)) {
        (Some(first_time_in), Some(described)) => match phase_in(described) {
            Some(phase) => Some(PhaseHistoryView { first_time_in, phase }),
            None => None,
        },
        _ => None,
    }
}

/// The phase history that `items` describe, entry by entry and in their
/// order. `None` where one of them describes no entry.
pub open spec fn history_in(items: Seq<JsonView>) -> Option<Seq<PhaseHistoryView>> {
    if forall|i: int| 0 <= i < items.len() ==> (#[trigger] entry_in(items[i])) is Some {
        Some(Seq::new(items.len(), |i: int| entry_in(items[i])->Some_0))
    } else {
        None
    }
}

/// The card that `value` describes: an object with the string `title`, the
/// instants `createdAt` and `updated_at`, the instant `finished_at` or none,
/// and the array `phases_history` of entries. Other members are passed
/// over.
pub open spec fn card_in(value: JsonView) -> Option<PipefyCardView> {
    match (
        text_member(value, "title"@),
        instant_member(value, "createdAt"@),
        instant_member(value, "updated_at"@),
        optional_instant_member(value, "finished_at"@),
        value.member("phases_history"@),
    ) {
        (Some(title), Some(created_at), Some(updated_at), Some(finished_at), Some(listed)) => {
            match listed.items() {
                Some(items) => match history_in(items) {
                    Some(phases_history) => Some(
                        PipefyCardView {
                            title,
                            created_at,
                            updated_at,
                            finished_at,
                            phases_history,
                        },
                    ),
                    None => None,
                },
                None => None,
            }
        },
        _ => None,
    }
}

/// The card that a reply holds: the one that its member `data` holds as
/// `card`.
pub open spec fn card_in_reply(reply: JsonView) -> Option<PipefyCardView> {
    match reply.member("data"@) {
        Some(data) => match data.member("card"@) {
            Some(described) => card_in(described),
            None => None,
        },
        None => None,
    }
}

/// What the body of a reply is read as: the card that it holds, no card,
/// or no document at all.
pub open spec fn card_in_body(body: Seq<char>) -> Result<PipefyCardView, FetchError> {
    match document(body) {
        Some(reply) => match card_in_reply(reply) {
            Some(card) => Ok(card),
            None => Err(FetchError::Unauthorized(Unauthorized)),
        },
        None => Err(FetchError::Transport),
    }
}

fn text_member_of(object: &Json, key: &str) -> (r: Option<String>)
    ensures
        match r {
            Some(text) => text_member(object@, key@) == Some(text@),
            None => text_member(object@, key@) is None,
        },
{
    match object.member(key) {
        Some(value) => match value.text() {
            Some(text) => Some(text.clone()),
            None => None,
        },
        None => None,
    }
}

fn instant_member_of(object: &Json, key: &str) -> (r: Option<Timestamp>)
    ensures
        match r {
            Some(at) => instant_member(object@, key@) == Some(at@),
            None => instant_member(object@, key@) is None,
        },
{
    match object.member(key) {
        Some(value) => match value.text() {
            Some(text) => Timestamp::parse(text.as_str()),
            None => None,
        },
        None => None,
    }
}

fn optional_instant_member_of(object: &Json, key: &str) -> (r: Option<Option<Timestamp>>)
    ensures
        match r {
            Some(Some(at)) => optional_instant_member(object@, key@) == Some(Some(at@)),
            Some(None) => optional_instant_member(object@, key@) == Some(None::<int>),
            None => optional_instant_member(object@, key@) is None,
        },
{
    match object.member(key) {
        None => Some(None),
        Some(value) => {
            if value.is_null() {
                Some(None)
            } else {
                match value.text() {
                    Some(text) => match Timestamp::parse(text.as_str()) {
                        Some(at) => Some(Some(at)),
                        None => None,
                    },
                    None => None,
                }
            }
        },
    }
}

/// The phase that `value` describes.
pub fn phase_from_json(value: &Json) -> (r: Option<Phase>)
    ensures
        match r {
            Some(phase) => phase_in(value@) == Some(phase@),
            None => phase_in(value@) is None,
        },
{
    let name = match text_member_of(value, "name") {
        Some(name) => name,
        None => { return None; },
    };
    let id = match text_member_of(value, "id") {
        Some(id) => id,
        None => { return None; },
    };
    Some(Phase { name, id })
}

/// The entry of a phase history that `value` describes.
pub fn entry_from_json(value: &Json) -> (r: Option<PhaseHistory>)
    ensures
        match r {
            Some(entry) => entry_in(value@) == Some(entry@),
            None => entry_in(value@) is None,
        },
{
    let first_time_in = match instant_member_of(value, "firstTimeIn") {
        Some(at) => at,
        None => { return None; },
    };
    let described = match value.member("phase") {
        Some(described) => described,
        None => { return None; },
    };
    match phase_from_json(described) {
        Some(phase) => Some(PhaseHistory { first_time_in, phase }),
        None => None,
    }
}

/// The phase history that `items` describe.
pub fn history_from_json(items: &Vec<Json>) -> (r: Option<Vec<PhaseHistory>>)
    ensures
        match r {
            Some(history) => history_in(Seq::new(items.len() as nat, |i: int| items[i]@)) == Some(
                Seq::new(history.len() as nat, |i: int| history[i]@),
            ),
            None => history_in(Seq::new(items.len() as nat, |i: int| items[i]@)) is None,
        },
{
    let ghost described = Seq::new(items.len() as nat, |i: int| items[i]@);
    let mut history: Vec<PhaseHistory> = Vec::new();
    let mut i: usize = 0;
    while i < items.len()
        invariant
            i <= items.len(),
            history.len() == i,
            described == Seq::new(items.len() as nat, |i: int| items[i]@),
            forall|k: int| 0 <= k < i ==> (#[trigger] entry_in(described[k])) == Some(history[k]@),
        decreases items.len() - i,
    {
        match entry_from_json(&items[i]) {
            Some(entry) => {
                history.push(entry);
            },
            None => {
                assert(entry_in(described[i as int]) is None);
                return None;
            },
        }
        i = i + 1;
    }
    assert(history_in(described)->Some_0 =~= Seq::new(history.len() as nat, |i: int| history[i]@));
    Some(history)
}

/// The card that `value` describes.
pub fn card_from_json(value: &Json) -> (r: Option<PipefyCard>)
    ensures
        match r {
            Some(card) => card_in(value@) == Some(card@),
            None => card_in(value@) is None,
        },
{
    let title = match text_member_of(value, "title") {
        Some(title) => title,
        None => { return None; },
    };
    let created_at = match instant_member_of(value, "createdAt") {
        Some(at) => at,
        None => { return None; },
    };
    let updated_at = match instant_member_of(value, "updated_at") {
        Some(at) => at,
        None => { return None; },
    };
    let finished_at = match optional_instant_member_of(value, "finished_at") {
        Some(at) => at,
        None => { return None; },
    };
    let listed = match value.member("phases_history") {
        Some(listed) => listed,
        None => { return None; },
    };
    let items = match listed.items() {
        Some(items) => items,
        None => { return None; },
    };
    match history_from_json(items) {
        Some(phases_history) => Some(
            PipefyCard { title, created_at, updated_at, finished_at, phases_history },
        ),
        None => None,
    }
}

/// The card that a reply of the service holds.
pub fn card_from_reply(reply: &Json) -> (r: Result<PipefyCard, FetchError>)
    ensures
        match r {
            Ok(card) => card_in_reply(reply@) == Some(card@),
            Err(e) => card_in_reply(reply@) is None && e == FetchError::Unauthorized(Unauthorized),
        },
{
    let found = match reply.member("data") {
        Some(data) => match data.member("card") {
            Some(described) => card_from_json(described),
            None => None,
        },
        None => None,
    };
    match found {
        Some(card) => Ok(card),
        None => Err(FetchError::Unauthorized(Unauthorized::new())),
    }
}

/// Reads the body of the service's reply to a card query. A body that is no
/// JSON document counts as a failed transport; a document that holds no
/// card of the expected shape is the service's refusal.
pub fn card_from_body(body: &str) -> (r: Result<PipefyCard, FetchError>)
    ensures
        match r {
            Ok(card) => card_in_body(body@) == Ok::<PipefyCardView, FetchError>(card@),
            Err(e) => card_in_body(body@) == Err::<PipefyCardView, FetchError>(e),
        },
{
    match parse(body) {
        Some(reply) => card_from_reply(&reply),
        None => Err(FetchError::Transport),
    }
}

} // verus!
