//! End-to-end tests of the event-sourced tracker: enqueue events, drain,
//! and check the resulting entity store and outcome report.

use game_events::apply::{apply_event, drain};
use game_events::event::{Event, EventKind};
use game_events::model::OutcomeKind;
use game_events::queue::EventQueue;
use game_events::store::EntityStore;

fn ev(id: &str, kind: EventKind) -> Event {
    Event { id: id.to_string(), kind }
}

fn created(id: &str, game_id: &str, name: &str, description: &str) -> Event {
    ev(
        id,
        EventKind::GameCreated {
            game_id: game_id.to_string(),
            name: name.to_string(),
            description: description.to_string(),
        },
    )
}

fn joined(id: &str, game_id: &str, player_id: &str) -> Event {
    ev(
        id,
        EventKind::PlayerJoined {
            game_id: game_id.to_string(),
            player_id: player_id.to_string(),
        },
    )
}

fn left(id: &str, game_id: &str, player_id: &str) -> Event {
    ev(
        id,
        EventKind::PlayerLeft {
            game_id: game_id.to_string(),
            player_id: player_id.to_string(),
        },
    )
}

fn scored(id: &str, player_id: &str, score: u32) -> Event {
    ev(
        id,
        EventKind::ScoreUpdated {
            player_id: player_id.to_string(),
            score,
        },
    )
}

#[test]
fn create_join_score_scenario() {
    let mut store = EntityStore::new();
    let mut queue = EventQueue::new();
    queue.enqueue(created("e1", "g1", "Chess", "A game of chess"));
    queue.enqueue(joined("e2", "g1", "p1"));
    queue.enqueue(scored("e3", "p1", 50));
    let report = drain(&mut store, &mut queue);

    assert_eq!(queue.len(), 0);
    assert_eq!(report.len(), 3);
    assert!(report.iter().all(|o| o.kind == OutcomeKind::Applied));

    assert_eq!(store.game_count(), 1);
    let gi = store.find_game_index(&"g1".to_string()).unwrap();
    let game = store.game_at(gi);
    assert_eq!(game.name, "Chess");
    assert_eq!(game.description, "A game of chess");
    assert_eq!(game.players, vec!["p1".to_string()]);

    let pi = store.find_player_index(&"p1".to_string()).unwrap();
    assert_eq!(store.player_at(pi).score, 50);
}

#[test]
fn join_unknown_game_is_reported_skip() {
    let mut store = EntityStore::new();
    let mut queue = EventQueue::new();
    queue.enqueue(joined("e1", "ghost", "p1"));
    let report = drain(&mut store, &mut queue);

    assert_eq!(report.len(), 1);
    assert_eq!(report[0].event_id, "e1");
    assert_eq!(report[0].kind, OutcomeKind::GameNotFound);
    assert_eq!(store.game_count(), 0);
    assert_eq!(store.player_count(), 0);
}

#[test]
fn duplicate_game_kept_once() {
    let mut store = EntityStore::new();
    let mut queue = EventQueue::new();
    queue.enqueue(created("e1", "g1", "First", "first"));
    queue.enqueue(created("e2", "g1", "Second", "second"));
    let report = drain(&mut store, &mut queue);

    assert_eq!(store.game_count(), 1);
    let gi = store.find_game_index(&"g1".to_string()).unwrap();
    assert_eq!(store.game_at(gi).name, "First");
    assert_eq!(report.len(), 2);
    assert_eq!(report[0].kind, OutcomeKind::Applied);
    assert_eq!(report[1].kind, OutcomeKind::DuplicateGame);
}

#[test]
fn score_update_is_absolute_and_idempotent() {
    let mut store = EntityStore::new();
    let mut queue = EventQueue::new();
    queue.enqueue(created("e1", "g1", "Chess", ""));
    queue.enqueue(joined("e2", "g1", "p1"));
    queue.enqueue(scored("e3", "p1", 30));
    queue.enqueue(scored("e4", "p1", 30));
    drain(&mut store, &mut queue);
    let pi = store.find_player_index(&"p1".to_string()).unwrap();
    assert_eq!(store.player_at(pi).score, 30);

    // a later update overwrites, it does not add
    queue.enqueue(scored("e5", "p1", 7));
    drain(&mut store, &mut queue);
    let pi = store.find_player_index(&"p1".to_string()).unwrap();
    assert_eq!(store.player_at(pi).score, 7);
}

#[test]
fn score_update_creates_missing_player() {
    let mut store = EntityStore::new();
    let mut queue = EventQueue::new();
    queue.enqueue(scored("e1", "p9", 12));
    let report = drain(&mut store, &mut queue);
    assert_eq!(report[0].kind, OutcomeKind::Applied);
    let pi = store.find_player_index(&"p9".to_string()).unwrap();
    assert_eq!(store.player_at(pi).score, 12);
    assert_eq!(store.player_at(pi).username, "");
}

#[test]
fn double_join_keeps_player_once() {
    let mut store = EntityStore::new();
    let mut queue = EventQueue::new();
    queue.enqueue(created("e1", "g1", "Chess", ""));
    queue.enqueue(joined("e2", "g1", "p1"));
    queue.enqueue(joined("e3", "g1", "p1"));
    let report = drain(&mut store, &mut queue);

    assert!(report.iter().all(|o| o.kind == OutcomeKind::Applied));
    let gi = store.find_game_index(&"g1".to_string()).unwrap();
    assert_eq!(store.game_at(gi).players, vec!["p1".to_string()]);
    assert_eq!(store.player_count(), 1);
}

#[test]
fn leave_of_absent_player_is_reported_skip() {
    let mut store = EntityStore::new();
    let mut queue = EventQueue::new();
    queue.enqueue(created("e1", "g1", "Chess", ""));
    queue.enqueue(left("e2", "g1", "p1"));
    let report = drain(&mut store, &mut queue);

    assert_eq!(report[1].kind, OutcomeKind::PlayerNotFound);
    let gi = store.find_game_index(&"g1".to_string()).unwrap();
    assert!(store.game_at(gi).players.is_empty());
}

#[test]
fn leave_removes_membership_but_keeps_player() {
    let mut store = EntityStore::new();
    let mut queue = EventQueue::new();
    queue.enqueue(created("e1", "g1", "Chess", ""));
    queue.enqueue(joined("e2", "g1", "p1"));
    queue.enqueue(joined("e3", "g1", "p2"));
    queue.enqueue(left("e4", "g1", "p1"));
    let report = drain(&mut store, &mut queue);

    assert!(report.iter().all(|o| o.kind == OutcomeKind::Applied));
    let gi = store.find_game_index(&"g1".to_string()).unwrap();
    assert_eq!(store.game_at(gi).players, vec!["p2".to_string()]);
    // the player stays known to the store
    assert!(store.find_player_index(&"p1".to_string()).is_some());
}

#[test]
fn drain_applies_in_fifo_order() {
    // a join enqueued after the game's creation must see the game:
    // LIFO draining would reorder them and report GameNotFound
    let mut store = EntityStore::new();
    let mut queue = EventQueue::new();
    queue.enqueue(created("e1", "g1", "Chess", ""));
    queue.enqueue(joined("e2", "g1", "p1"));
    let report = drain(&mut store, &mut queue);
    assert_eq!(report[0].event_id, "e1");
    assert_eq!(report[1].event_id, "e2");
    assert_eq!(report[1].kind, OutcomeKind::Applied);
    let gi = store.find_game_index(&"g1".to_string()).unwrap();
    assert_eq!(store.game_at(gi).players.len(), 1);
}

#[test]
fn game_update_changes_only_provided_fields() {
    let mut store = EntityStore::new();
    let mut queue = EventQueue::new();
    queue.enqueue(created("e1", "g1", "Chess", "old description"));
    queue.enqueue(ev(
        "e2",
        EventKind::GameUpdated {
            game_id: "g1".to_string(),
            name: Some("Speed Chess".to_string()),
            description: None,
        },
    ));
    let report = drain(&mut store, &mut queue);
    assert!(report.iter().all(|o| o.kind == OutcomeKind::Applied));
    let gi = store.find_game_index(&"g1".to_string()).unwrap();
    assert_eq!(store.game_at(gi).name, "Speed Chess");
    assert_eq!(store.game_at(gi).description, "old description");
}

#[test]
fn game_update_of_unknown_game_is_reported() {
    let mut store = EntityStore::new();
    let mut queue = EventQueue::new();
    queue.enqueue(ev(
        "e1",
        EventKind::GameUpdated {
            game_id: "nope".to_string(),
            name: Some("x".to_string()),
            description: None,
        },
    ));
    let report = drain(&mut store, &mut queue);
    assert_eq!(report[0].kind, OutcomeKind::GameNotFound);
    assert_eq!(store.game_count(), 0);
}

#[test]
fn apply_event_reports_single_outcome() {
    let mut store = EntityStore::new();
    let outcome = apply_event(&mut store, created("e1", "g1", "Chess", ""));
    assert_eq!(outcome.event_id, "e1");
    assert_eq!(outcome.kind, OutcomeKind::Applied);
    assert_eq!(store.game_count(), 1);
}

#[test]
fn drain_of_empty_queue_is_empty_report() {
    let mut store = EntityStore::new();
    let mut queue = EventQueue::new();
    let report = drain(&mut store, &mut queue);
    assert!(report.is_empty());
    assert_eq!(store.game_count(), 0);
}
