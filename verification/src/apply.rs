//! The state applier: consumes events from the queue one at a time,
//! synchronously and in dequeue order, and mutates the entity store
//! according to each event's variant. Per-event failures are reported in
//! the drain outcome and never halt the drain.

use vstd::prelude::*;
use crate::event::{Event, EventKind};
use crate::model::{
    OutcomeKind, OutcomeModel, StoreModel, run_report, run_store, step_outcome, step_store,
};
use crate::queue::EventQueue;
use crate::store::{EntityStore, Game};

verus! {

/// One entry of a drain's outcome report: which event was applied, and
/// how it went.
pub struct Outcome {
    pub event_id: String,
    pub kind: OutcomeKind,
}

impl View for Outcome {
    type V = OutcomeModel;

    open spec fn view(&self) -> OutcomeModel {
        OutcomeModel { event_id: self.event_id@, kind: self.kind }
    }
}

/// The view of a drain's outcome report.
pub open spec fn outcomes_view(os: Seq<Outcome>) -> Seq<OutcomeModel> {
    os.map_values(|o: Outcome| o@)
}

/// Applies one event to the store, dispatching on its variant, and
/// reports the outcome. A duplicate or unknown identifier makes the event
/// a reported skip that leaves the store unchanged.
pub fn apply_event(store: &mut EntityStore, event: Event) -> (o: Outcome)
    ensures
        final(store)@ == step_store(old(store)@, event@),
        o@ == (OutcomeModel { event_id: event@.id, kind: step_outcome(old(store)@, event@) }),
{
    let Event { id, kind } = event;
    match kind {
        EventKind::GameCreated { game_id, name, description } => {
            let game = Game { id: game_id, name, description, players: Vec::new() };
            let ghost gv = game@;
            match store.add_game(game) {
                Ok(()) => {
                    proof {
                        assert(gv.players =~= Seq::<Seq<char>>::empty());
                        assert(store@ =~~= step_store(old(store)@, event@));
                    }
                    Outcome { event_id: id, kind: OutcomeKind::Applied }
                },
                Err(_) => Outcome { event_id: id, kind: OutcomeKind::DuplicateGame },
            }
        },
        EventKind::GameUpdated { game_id, name, description } => {
            let found = store.update_game(&game_id, name, description);
            if found {
                Outcome { event_id: id, kind: OutcomeKind::Applied }
            } else {
                Outcome { event_id: id, kind: OutcomeKind::GameNotFound }
            }
        },
        EventKind::PlayerJoined { game_id, player_id } => {
            let found = store.join_game(&game_id, &player_id);
            if found {
                Outcome { event_id: id, kind: OutcomeKind::Applied }
            } else {
                Outcome { event_id: id, kind: OutcomeKind::GameNotFound }
            }
        },
        EventKind::PlayerLeft { game_id, player_id } => {
            let r = store.leave_game(&game_id, &player_id);
            if !r.0 {
                Outcome { event_id: id, kind: OutcomeKind::GameNotFound }
            } else if r.1 {
                Outcome { event_id: id, kind: OutcomeKind::Applied }
            } else {
                Outcome { event_id: id, kind: OutcomeKind::PlayerNotFound }
            }
        },
        EventKind::ScoreUpdated { player_id, score } => {
            store.set_score(&player_id, score);
            Outcome { event_id: id, kind: OutcomeKind::Applied }
        },
    }
}

/// Drains the queue: dequeues and applies every pending event, one at a
/// time, in enqueue (FIFO) order, and returns the per-event outcome
/// report. The resulting store is exactly the replay of the pending
/// events, oldest first, over the store as it stood before the drain.
pub fn drain(store: &mut EntityStore, queue: &mut EventQueue) -> (report: Vec<Outcome>)
    ensures
        final(queue)@.len() == 0,
        final(store)@ == run_store(old(store)@, old(queue)@),
        outcomes_view(report@) == run_report(old(store)@, old(queue)@),
{
    let mut report: Vec<Outcome> = Vec::new();
    proof {
        assert(outcomes_view(report@) =~= Seq::<OutcomeModel>::empty());
        assert(run_report(old(store)@, old(queue)@) =~= outcomes_view(report@) + run_report(
            old(store)@,
            old(queue)@,
        ));
    }
    while queue.len() > 0
        invariant
            run_store(old(store)@, old(queue)@) == run_store(store@, queue@),
            run_report(old(store)@, old(queue)@) == outcomes_view(report@) + run_report(
                store@,
                queue@,
            ),
        decreases queue@.len(),
    {
        let ghost pre_store = store@;
        let ghost pre_queue = queue@;
        let ghost pre_report = report@;
        match queue.dequeue_oldest() {
            Some(ev) => {
                let ghost ev_model = ev@;
                let oc = apply_event(store, ev);
                report.push(oc);
                proof {
                    assert(run_store(pre_store, pre_queue) == run_store(store@, queue@));
                    assert(outcomes_view(report@) =~= outcomes_view(pre_report).push(oc@));
                    assert(run_report(pre_store, pre_queue) == seq![oc@] + run_report(
                        store@,
                        queue@,
                    ));
                    assert(outcomes_view(pre_report) + run_report(pre_store, pre_queue)
                        =~= outcomes_view(report@) + run_report(store@, queue@));
                }
            },
            None => {
                proof {
                    assert(false);
                }
            },
        }
    }
    proof {
        assert(queue@.len() == 0);
        assert(run_store(store@, queue@) == store@);
        assert(run_report(store@, queue@) =~= Seq::<OutcomeModel>::empty());
        assert(outcomes_view(report@) + run_report(store@, queue@) =~= outcomes_view(report@));
    }
    report
}

} // verus!
