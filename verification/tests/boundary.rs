//! Tests of the boundary pieces: the FIFO queue, the validating event
//! constructor, the JSON ingestion path, and game creation.

use game_events::event::{Event, EventKind, MalformedEventError, build_event};
use game_events::ingest::event_from_json;
use game_events::queue::EventQueue;
use game_events::store::{create_game, game_from_draw};

fn some(s: &str) -> Option<String> {
    Some(s.to_string())
}

#[test]
fn queue_dequeues_oldest_first() {
    let mut queue = EventQueue::new();
    queue.enqueue(Event {
        id: "first".to_string(),
        kind: EventKind::ScoreUpdated { player_id: "p".to_string(), score: 1 },
    });
    queue.enqueue(Event {
        id: "second".to_string(),
        kind: EventKind::ScoreUpdated { player_id: "p".to_string(), score: 2 },
    });
    assert_eq!(queue.len(), 2);
    assert_eq!(queue.dequeue_oldest().unwrap().id, "first");
    assert_eq!(queue.dequeue_oldest().unwrap().id, "second");
    assert!(queue.dequeue_oldest().is_none());
}

#[test]
fn build_event_accepts_complete_game_created() {
    let e = build_event(
        "e1".to_string(),
        "GameCreated",
        some("g1"),
        None,
        some("Chess"),
        some("desc"),
        None,
    )
    .unwrap();
    assert_eq!(e.id, "e1");
    match e.kind {
        EventKind::GameCreated { game_id, name, description } => {
            assert_eq!(game_id, "g1");
            assert_eq!(name, "Chess");
            assert_eq!(description, "desc");
        }
        _ => panic!("wrong variant"),
    }
}

#[test]
fn build_event_rejects_unknown_tag() {
    let r = build_event("e1".to_string(), "GameDeleted", some("g1"), None, None, None, None);
    assert_eq!(r.unwrap_err(), MalformedEventError::UnknownTag);
}

#[test]
fn build_event_rejects_missing_field() {
    let r = build_event("e1".to_string(), "PlayerJoined", some("g1"), None, None, None, None);
    assert_eq!(r.unwrap_err(), MalformedEventError::MissingField);
    let r = build_event("e2".to_string(), "GameCreated", some("g1"), None, some("n"), None, None);
    assert_eq!(r.unwrap_err(), MalformedEventError::MissingField);
}

#[test]
fn build_event_rejects_oversized_score() {
    let r = build_event(
        "e1".to_string(),
        "ScoreUpdated",
        None,
        some("p1"),
        None,
        None,
        Some(u64::from(u32::MAX) + 1),
    );
    assert_eq!(r.unwrap_err(), MalformedEventError::ScoreOutOfRange);
}

#[test]
fn build_event_game_updated_fields_stay_optional() {
    let e = build_event("e1".to_string(), "GameUpdated", some("g1"), None, None, None, None)
        .unwrap();
    match e.kind {
        EventKind::GameUpdated { game_id, name, description } => {
            assert_eq!(game_id, "g1");
            assert!(name.is_none());
            assert!(description.is_none());
        }
        _ => panic!("wrong variant"),
    }
}

#[test]
fn json_event_is_extracted_and_validated() {
    let v: serde_json::Value = serde_json::from_str(
        "{\"id\":\"e1\",\"event_type\":\"PlayerJoined\",\"data\":{\"game_id\":\"g1\",\"player_id\":\"p1\"}}",
    )
    .unwrap();
    let e = event_from_json(&v).unwrap();
    assert_eq!(e.id, "e1");
    match e.kind {
        EventKind::PlayerJoined { game_id, player_id } => {
            assert_eq!(game_id, "g1");
            assert_eq!(player_id, "p1");
        }
        _ => panic!("wrong variant"),
    }
}

#[test]
fn json_score_event_carries_number() {
    let v: serde_json::Value = serde_json::from_str(
        "{\"id\":\"e2\",\"event_type\":\"ScoreUpdated\",\"data\":{\"player_id\":\"p1\",\"score\":50}}",
    )
    .unwrap();
    let e = event_from_json(&v).unwrap();
    match e.kind {
        EventKind::ScoreUpdated { player_id, score } => {
            assert_eq!(player_id, "p1");
            assert_eq!(score, 50);
        }
        _ => panic!("wrong variant"),
    }
}

#[test]
fn json_with_unknown_tag_is_rejected() {
    let v: serde_json::Value = serde_json::from_str(
        "{\"id\":\"e1\",\"event_type\":\"Nonsense\",\"data\":{}}",
    )
    .unwrap();
    assert_eq!(event_from_json(&v).unwrap_err(), MalformedEventError::UnknownTag);
}

#[test]
fn json_with_missing_field_is_rejected() {
    let v: serde_json::Value = serde_json::from_str(
        "{\"id\":\"e1\",\"event_type\":\"PlayerLeft\",\"data\":{\"game_id\":\"g1\"}}",
    )
    .unwrap();
    assert_eq!(event_from_json(&v).unwrap_err(), MalformedEventError::MissingField);
}

#[test]
fn json_with_wrong_field_type_is_rejected() {
    let v: serde_json::Value = serde_json::from_str(
        "{\"id\":\"e1\",\"event_type\":\"PlayerJoined\",\"data\":{\"game_id\":7,\"player_id\":\"p1\"}}",
    )
    .unwrap();
    assert_eq!(event_from_json(&v).unwrap_err(), MalformedEventError::MissingField);
}

#[test]
fn json_without_id_is_rejected() {
    let v: serde_json::Value =
        serde_json::from_str("{\"event_type\":\"GameCreated\",\"data\":{}}").unwrap();
    assert_eq!(event_from_json(&v).unwrap_err(), MalformedEventError::MissingField);
}

#[test]
fn game_from_draw_formats_identifier() {
    let g = game_from_draw(123, "N".to_string(), "D".to_string());
    assert_eq!(g.id, "game_123");
    assert_eq!(g.name, "N");
    assert_eq!(g.description, "D");
    assert!(g.players.is_empty());
    assert_eq!(game_from_draw(0, String::new(), String::new()).id, "game_0");
    assert_eq!(
        game_from_draw(u32::MAX, String::new(), String::new()).id,
        "game_4294967295"
    );
}

#[test]
fn created_game_carries_fields_and_fresh_id() {
    let g = create_game("My Game".to_string(), "About something".to_string());
    assert_eq!(g.name, "My Game");
    assert_eq!(g.description, "About something");
    assert!(g.players.is_empty());
    assert!(g.id.starts_with("game_"));
}
