//! The event model: the closed set of event variants, their payloads, and
//! the validating constructor that keeps malformed payloads out of the
//! queue.

use vstd::prelude::*;
use crate::model::{EventKindModel, EventModel};

verus! {

/// An event's variant tag together with its payload.
#[derive(Debug)]
pub enum EventKind {
    GameCreated { game_id: String, name: String, description: String },
    GameUpdated { game_id: String, name: Option<String>, description: Option<String> },
    PlayerJoined { game_id: String, player_id: String },
    PlayerLeft { game_id: String, player_id: String },
    ScoreUpdated { player_id: String, score: u32 },
}

/// One requested state change: a tracing identifier and the tagged payload.
/// Immutable once constructed.
#[derive(Debug)]
pub struct Event {
    pub id: String,
    pub kind: EventKind,
}

/// A payload failed schema validation at the ingestion boundary; the event
/// was rejected before it could be enqueued.
#[derive(Clone, Copy, Debug, PartialEq, Eq, Structural)]
pub enum MalformedEventError {
    /// The variant tag names no known event variant.
    UnknownTag,
    /// A field the variant requires is absent or has the wrong type.
    MissingField,
    /// A score does not fit the score type.
    ScoreOutOfRange,
}

/// The view of an optional string field.
pub open spec fn opt_view(o: Option<String>) -> Option<Seq<char>> {
    match o {
        Option::Some(s) => Option::Some(s@),
        Option::None => Option::None,
    }
}

impl View for EventKind {
    type V = EventKindModel;

    open spec fn view(&self) -> EventKindModel {
        match self {
            EventKind::GameCreated { game_id, name, description } => EventKindModel::GameCreated {
                game_id: game_id@,
                name: name@,
                description: description@,
            },
            EventKind::GameUpdated { game_id, name, description } => EventKindModel::GameUpdated {
                game_id: game_id@,
                name: opt_view(*name),
                description: opt_view(*description),
            },
            EventKind::PlayerJoined { game_id, player_id } => EventKindModel::PlayerJoined {
                game_id: game_id@,
                player_id: player_id@,
            },
            EventKind::PlayerLeft { game_id, player_id } => EventKindModel::PlayerLeft {
                game_id: game_id@,
                player_id: player_id@,
            },
            EventKind::ScoreUpdated { player_id, score } => EventKindModel::ScoreUpdated {
                player_id: player_id@,
                score: *score,
            },
        }
    }
}

impl View for Event {
    type V = EventModel;

    open spec fn view(&self) -> EventModel {
        EventModel { id: self.id@, kind: self.kind@ }
    }
}

/// What the validating constructor returns for given field values: the
/// event for a known tag with its required fields present, and the exact
/// error otherwise.
pub open spec fn spec_build_event(
    id: Seq<char>,
    tag: Seq<char>,
    game_id: Option<Seq<char>>,
    player_id: Option<Seq<char>>,
    name: Option<Seq<char>>,
    description: Option<Seq<char>>,
    score: Option<u64>,
) -> Result<EventModel, MalformedEventError> {
    if tag == "GameCreated"@ {
        if game_id is Some && name is Some && description is Some {
            Result::Ok(
                EventModel {
                    id,
                    kind: EventKindModel::GameCreated {
                        game_id: game_id->0,
                        name: name->0,
                        description: description->0,
                    },
                },
            )
        } else {
            Result::Err(MalformedEventError::MissingField)
        }
    } else if tag == "GameUpdated"@ {
        if game_id is Some {
            Result::Ok(
                EventModel {
                    id,
                    kind: EventKindModel::GameUpdated { game_id: game_id->0, name, description },
                },
            )
        } else {
            Result::Err(MalformedEventError::MissingField)
        }
    } else if tag == "PlayerJoined"@ {
        if game_id is Some && player_id is Some {
            Result::Ok(
                EventModel {
                    id,
                    kind: EventKindModel::PlayerJoined {
                        game_id: game_id->0,
                        player_id: player_id->0,
                    },
                },
            )
        } else {
            Result::Err(MalformedEventError::MissingField)
        }
    } else if tag == "PlayerLeft"@ {
        if game_id is Some && player_id is Some {
            Result::Ok(
                EventModel {
                    id,
                    kind: EventKindModel::PlayerLeft {
                        game_id: game_id->0,
                        player_id: player_id->0,
                    },
                },
            )
        } else {
            Result::Err(MalformedEventError::MissingField)
        }
    } else if tag == "ScoreUpdated"@ {
        if player_id is Some && score is Some {
            if score->0 <= u32::MAX {
                Result::Ok(
                    EventModel {
                        id,
                        kind: EventKindModel::ScoreUpdated {
                            player_id: player_id->0,
                            score: score->0 as u32,
                        },
                    },
                )
            } else {
                Result::Err(MalformedEventError::ScoreOutOfRange)
            }
        } else {
            Result::Err(MalformedEventError::MissingField)
        }
    } else {
        Result::Err(MalformedEventError::UnknownTag)
    }
}

/// Whether two string slices hold the same characters.
fn str_eq(a: &str, b: &str) -> (r: bool)
    ensures
        r == (a@ == b@),
{
    let a_owned: String = a.to_owned();
    let b_owned: String = b.to_owned();
    a_owned == b_owned
}

/// The validating constructor of the ingestion boundary: builds the event
/// named by `tag` from the fields that are present, or reports exactly why
/// the payload is malformed. The only path by which untyped field data
/// becomes an [`Event`].
pub fn build_event(
    id: String,
    tag: &str,
    game_id: Option<String>,
    player_id: Option<String>,
    name: Option<String>,
    description: Option<String>,
    score: Option<u64>,
) -> (r: Result<Event, MalformedEventError>)
    ensures
        (match r {
            Result::Ok(e) => spec_build_event(
                id@,
                tag@,
                opt_view(game_id),
                opt_view(player_id),
                opt_view(name),
                opt_view(description),
                score,
            ) == Result::<EventModel, MalformedEventError>::Ok(e@),
            Result::Err(err) => spec_build_event(
                id@,
                tag@,
                opt_view(game_id),
                opt_view(player_id),
                opt_view(name),
                opt_view(description),
                score,
            ) == Result::<EventModel, MalformedEventError>::Err(err),
        }),
{
    if str_eq(tag, "GameCreated") {
        match (game_id, name, description) {
            (Option::Some(g), Option::Some(n), Option::Some(d)) => Result::Ok(
                Event { id, kind: EventKind::GameCreated { game_id: g, name: n, description: d } },
            ),
            _ => Result::Err(MalformedEventError::MissingField),
        }
    } else if str_eq(tag, "GameUpdated") {
        match game_id {
            Option::Some(g) => Result::Ok(
                Event { id, kind: EventKind::GameUpdated { game_id: g, name, description } },
            ),
            Option::None => Result::Err(MalformedEventError::MissingField),
        }
    } else if str_eq(tag, "PlayerJoined") {
        match (game_id, player_id) {
            (Option::Some(g), Option::Some(p)) => Result::Ok(
                Event { id, kind: EventKind::PlayerJoined { game_id: g, player_id: p } },
            ),
            _ => Result::Err(MalformedEventError::MissingField),
        }
    } else if str_eq(tag, "PlayerLeft") {
        match (game_id, player_id) {
            (Option::Some(g), Option::Some(p)) => Result::Ok(
                Event { id, kind: EventKind::PlayerLeft { game_id: g, player_id: p } },
            ),
            _ => Result::Err(MalformedEventError::MissingField),
        }
    } else if str_eq(tag, "ScoreUpdated") {
        match (player_id, score) {
            (Option::Some(p), Option::Some(s)) => {
                if s <= u32::MAX as u64 {
                    Result::Ok(
                        Event {
                            id,
                            kind: EventKind::ScoreUpdated { player_id: p, score: s as u32 },
                        },
                    )
                } else {
                    Result::Err(MalformedEventError::ScoreOutOfRange)
                }
            },
            _ => Result::Err(MalformedEventError::MissingField),
        }
    } else {
        Result::Err(MalformedEventError::UnknownTag)
    }
}

} // verus!
