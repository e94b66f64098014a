//! The ordering and consistency guarantees of event application, stated
//! and proved over the model: absolute score assignment, duplicate-free
//! membership, skips that leave the store unchanged, and preservation of
//! the store's well-formedness by every event.

use vstd::prelude::*;
use crate::model::{
    EventKindModel, EventModel, OutcomeKind, StoreModel, assign_score, has_game, has_player,
    join_list, joined_games, leave_list, left_games, member, no_duplicates, run_store,
    step_outcome, step_store, unique_game_ids, unique_player_ids, upsert_player, wf_store,
};

verus! {

/// Removing `pid` from a list it is not in changes nothing.
proof fn lemma_leave_list_absent(ps: Seq<Seq<char>>, pid: Seq<char>)
    requires
        !member(ps, pid),
    ensures
        leave_list(ps, pid) == ps,
    decreases ps.len(),
{
    reveal_with_fuel(Seq::<Seq<char>>::filter, 2);
    if ps.len() == 0 {
        assert(leave_list(ps, pid) =~= ps);
    } else {
        assert(!member(ps.drop_last(), pid)) by {
            if member(ps.drop_last(), pid) {
                let i = choose|i: int|
                    0 <= i < ps.drop_last().len() && ps.drop_last()[i] == pid;
                assert(ps[i] == pid);
            }
        }
        lemma_leave_list_absent(ps.drop_last(), pid);
        assert(ps.last() != pid) by {
            assert(ps[ps.len() - 1] == ps.last());
        }
        assert(leave_list(ps, pid) =~= ps);
    }
}

/// A `ScoreUpdated` is an absolute assignment: after it, every player
/// carrying the identifier has exactly the given score; and it is
/// idempotent: applying the same event twice yields the same store.
pub proof fn lemma_score_update_absolute(s: StoreModel, e: EventModel, pid: Seq<char>, score: u32)
    requires
        e.kind == (EventKindModel::ScoreUpdated { player_id: pid, score: score }),
    ensures
        has_player(step_store(s, e).players, pid),
        forall|i: int|
            0 <= i < step_store(s, e).players.len() && (#[trigger] step_store(
                s,
                e,
            ).players[i]).id == pid ==> step_store(s, e).players[i].score == score,
        step_store(step_store(s, e), e) == step_store(s, e),
{
    let p1 = step_store(s, e).players;
    assert(p1 == assign_score(s.players, pid, score));
    if has_player(s.players, pid) {
        let i = choose|i: int| 0 <= i < s.players.len() && s.players[i].id == pid;
        assert(p1[i].id == pid);
        assert(has_player(p1, pid));
    } else {
        assert(p1[s.players.len() as int].id == pid);
        assert(has_player(p1, pid));
    }
    assert(step_store(step_store(s, e), e) == step_store(s, e)) by {
        assert(assign_score(p1, pid, score) =~= p1) by {
            assert forall|i: int| 0 <= i < p1.len() implies assign_score(p1, pid, score)[i]
                == p1[i] by {
                if p1[i].id == pid {
                    assert(assign_score(p1, pid, score)[i] =~~= p1[i]);
                }
            }
        }
        assert(step_store(step_store(s, e), e) =~~= step_store(s, e));
    }
}

/// A `PlayerJoined` repeated for the same pair is idempotent, and in a
/// well-formed store the joined player appears exactly once in the
/// game's list: it is a member, and the list holds no identifier twice.
pub proof fn lemma_player_joined_once(s: StoreModel, e: EventModel, gid: Seq<char>, pid: Seq<char>)
    requires
        wf_store(s),
        e.kind == (EventKindModel::PlayerJoined { game_id: gid, player_id: pid }),
    ensures
        step_store(step_store(s, e), e) == step_store(s, e),
        has_game(s.games, gid) ==> forall|i: int|
            0 <= i < step_store(s, e).games.len() && (#[trigger] step_store(s, e).games[i]).id
                == gid ==> member(step_store(s, e).games[i].players, pid) && no_duplicates(
                step_store(s, e).games[i].players,
            ),
{
    if !has_game(s.games, gid) {
        assert(step_store(s, e) == s);
    } else {
        let s1 = step_store(s, e);
        assert(s1.games == joined_games(s.games, gid, pid));
        assert(s1.players == upsert_player(s.players, pid));
        // membership and freedom from duplicates in every matching game
        assert forall|i: int|
            0 <= i < s1.games.len() && (#[trigger] s1.games[i]).id == gid implies member(
            s1.games[i].players,
            pid,
        ) && no_duplicates(s1.games[i].players) by {
            assert(s1.games[i] == joined_games(s.games, gid, pid)[i]);
            assert(s.games[i].id == gid);
            let ps = s.games[i].players;
            assert(no_duplicates(ps));
            assert(s1.games[i].players == join_list(ps, pid));
            if member(ps, pid) {
                assert(join_list(ps, pid) == ps);
            } else {
                assert(join_list(ps, pid) == ps.push(pid));
                assert(ps.push(pid)[ps.len() as int] == pid);
                assert(member(ps.push(pid), pid));
                assert(no_duplicates(ps.push(pid))) by {
                    assert forall|a: int, b: int|
                        0 <= a < ps.push(pid).len() && 0 <= b < ps.push(pid).len() && ps.push(
                            pid,
                        )[a] == ps.push(pid)[b] implies a == b by {
                        if a < ps.len() && b == ps.len() {
                            assert(ps[a] == pid);
                        }
                        if b < ps.len() && a == ps.len() {
                            assert(ps[b] == pid);
                        }
                    }
                }
            }
        }
        // idempotence: the second application changes nothing
        assert(has_game(s1.games, gid)) by {
            let i = choose|i: int| 0 <= i < s.games.len() && s.games[i].id == gid;
            assert(s1.games[i].id == gid);
        }
        assert(upsert_player(s1.players, pid) == s1.players) by {
            if has_player(s.players, pid) {
                let i = choose|i: int| 0 <= i < s.players.len() && s.players[i].id == pid;
                assert(s1.players[i].id == pid);
            } else {
                assert(s1.players[s.players.len() as int].id == pid);
            }
            assert(has_player(s1.players, pid));
        }
        assert(joined_games(s1.games, gid, pid) =~= s1.games) by {
            assert forall|i: int| 0 <= i < s1.games.len() implies joined_games(
                s1.games,
                gid,
                pid,
            )[i] == s1.games[i] by {
                if s1.games[i].id == gid {
                    assert(member(s1.games[i].players, pid));
                    assert(join_list(s1.games[i].players, pid) == s1.games[i].players);
                    assert(joined_games(s1.games, gid, pid)[i] =~~= s1.games[i]);
                }
            }
        }
        assert(step_store(s1, e) =~~= s1);
    }
}

/// A `PlayerLeft` for a player not in the game's list is a no-op on the
/// store, reported as a skip: `PlayerNotFound` when the game exists, and
/// `GameNotFound` when it does not.
pub proof fn lemma_player_left_absent_is_skip(
    s: StoreModel,
    e: EventModel,
    gid: Seq<char>,
    pid: Seq<char>,
)
    requires
        e.kind == (EventKindModel::PlayerLeft { game_id: gid, player_id: pid }),
        forall|i: int|
            0 <= i < s.games.len() && (#[trigger] s.games[i]).id == gid ==> !member(
                s.games[i].players,
                pid,
            ),
    ensures
        step_store(s, e) == s,
        has_game(s.games, gid) ==> step_outcome(s, e) == OutcomeKind::PlayerNotFound,
        !has_game(s.games, gid) ==> step_outcome(s, e) == OutcomeKind::GameNotFound,
{
    if has_game(s.games, gid) {
        assert(left_games(s.games, gid, pid) =~= s.games) by {
            assert forall|i: int| 0 <= i < s.games.len() implies left_games(
                s.games,
                gid,
                pid,
            )[i] == s.games[i] by {
                if s.games[i].id == gid {
                    assert(!member(s.games[i].players, pid));
                    lemma_leave_list_absent(s.games[i].players, pid);
                    assert(left_games(s.games, gid, pid)[i] =~~= s.games[i]);
                }
            }
        }
        assert(step_store(s, e) =~~= s);
    }
}

/// An element of a list with the last entry dropped is an element of the
/// list.
proof fn lemma_member_drop_last(ps: Seq<Seq<char>>, q: Seq<char>)
    requires
        ps.len() > 0,
        member(ps.drop_last(), q),
    ensures
        member(ps, q),
{
    let i = choose|i: int| 0 <= i < ps.drop_last().len() && ps.drop_last()[i] == q;
    assert(ps[i] == q);
}

/// Every member of a list after a removal was a member before it, and is
/// not the removed identifier.
proof fn lemma_leave_list_member(ps: Seq<Seq<char>>, pid: Seq<char>, q: Seq<char>)
    ensures
        member(leave_list(ps, pid), q) ==> member(ps, q) && q != pid,
    decreases ps.len(),
{
    reveal_with_fuel(Seq::<Seq<char>>::filter, 2);
    if ps.len() == 0 {
        assert(leave_list(ps, pid) =~= Seq::<Seq<char>>::empty());
        assert(!member(leave_list(ps, pid), q));
    } else {
        lemma_leave_list_member(ps.drop_last(), pid, q);
        let sub = leave_list(ps.drop_last(), pid);
        if member(leave_list(ps, pid), q) {
            if ps.last() != pid {
                assert(leave_list(ps, pid) == sub.push(ps.last()));
                let i = choose|i: int|
                    0 <= i < leave_list(ps, pid).len() && leave_list(ps, pid)[i] == q;
                if i < sub.len() {
                    assert(member(sub, q));
                    lemma_member_drop_last(ps, q);
                } else {
                    assert(q == ps.last());
                    assert(ps[ps.len() - 1] == q);
                }
            } else {
                assert(leave_list(ps, pid) == sub);
                lemma_member_drop_last(ps, q);
            }
        }
    }
}

/// Removal keeps a membership list free of duplicates.
proof fn lemma_leave_list_no_duplicates(ps: Seq<Seq<char>>, pid: Seq<char>)
    requires
        no_duplicates(ps),
    ensures
        no_duplicates(leave_list(ps, pid)),
    decreases ps.len(),
{
    reveal_with_fuel(Seq::<Seq<char>>::filter, 2);
    if ps.len() == 0 {
        assert(leave_list(ps, pid) =~= Seq::<Seq<char>>::empty());
    } else {
        assert(no_duplicates(ps.drop_last())) by {
            assert(forall|a: int|
                0 <= a < ps.drop_last().len() ==> ps.drop_last()[a] == ps[a]);
        }
        lemma_leave_list_no_duplicates(ps.drop_last(), pid);
        let sub = leave_list(ps.drop_last(), pid);
        if ps.last() == pid {
            assert(leave_list(ps, pid) == sub);
        } else {
            assert(leave_list(ps, pid) == sub.push(ps.last()));
            assert(!member(sub, ps.last())) by {
                if member(sub, ps.last()) {
                    lemma_leave_list_member(ps.drop_last(), pid, ps.last());
                    let i = choose|i: int|
                        0 <= i < ps.drop_last().len() && ps.drop_last()[i] == ps.last();
                    assert(ps[i] == ps[ps.len() - 1]);
                }
            }
            assert(no_duplicates(sub.push(ps.last()))) by {
                assert forall|a: int, b: int|
                    0 <= a < sub.push(ps.last()).len() && 0 <= b < sub.push(ps.last()).len()
                        && sub.push(ps.last())[a] == sub.push(ps.last())[b] implies a == b by {
                    if a < sub.len() && b == sub.len() {
                        assert(member(sub, ps.last()));
                    }
                    if b < sub.len() && a == sub.len() {
                        assert(member(sub, ps.last()));
                    }
                }
            }
        }
    }
}

/// A player known to a list is still known after an upsert of any
/// identifier, and the upserted identifier is known.
proof fn lemma_upsert_keeps_players(players: Seq<crate::model::PlayerModel>, pid: Seq<char>, q: Seq<char>)
    requires
        has_player(players, q) || q == pid,
    ensures
        has_player(upsert_player(players, pid), q),
{
    if has_player(players, q) {
        let i = choose|i: int| 0 <= i < players.len() && players[i].id == q;
        assert(upsert_player(players, pid)[i].id == q);
    } else {
        if has_player(players, pid) {
            let i = choose|i: int| 0 <= i < players.len() && players[i].id == pid;
            assert(upsert_player(players, pid)[i].id == q);
        } else {
            assert(upsert_player(players, pid)[players.len() as int].id == q);
        }
    }
}

/// Every event application preserves the store's well-formedness: unique
/// identifiers, duplicate-free membership lists, and referential
/// integrity of memberships.
pub proof fn lemma_step_preserves_wf(s: StoreModel, e: EventModel)
    requires
        wf_store(s),
    ensures
        wf_store(step_store(s, e)),
{
    let s1 = step_store(s, e);
    match e.kind {
        EventKindModel::GameCreated { game_id, name, description } => {
            if !has_game(s.games, game_id) {
                let g = s1.games[s.games.len() as int];
                assert(g.players =~= Seq::<Seq<char>>::empty());
                assert(unique_game_ids(s1.games)) by {
                    assert(forall|i: int|
                        0 <= i < s.games.len() ==> (#[trigger] s.games[i]).id != game_id);
                }
                assert(forall|i: int|
                    0 <= i < s1.games.len() ==> no_duplicates(#[trigger] s1.games[i].players));
                assert forall|i: int, p: Seq<char>|
                    0 <= i < s1.games.len() && #[trigger] member(s1.games[i].players, p)
                        implies has_player(s1.players, p) by {
                    if i < s.games.len() {
                        assert(member(s.games[i].players, p));
                    } else {
                        assert(!member(g.players, p));
                    }
                }
            }
        },
        EventKindModel::GameUpdated { game_id, name, description } => {
            if has_game(s.games, game_id) {
                assert(forall|i: int|
                    0 <= i < s1.games.len() ==> (#[trigger] s1.games[i]).id == s.games[i].id
                        && s1.games[i].players == s.games[i].players);
                assert forall|i: int, p: Seq<char>|
                    0 <= i < s1.games.len() && #[trigger] member(s1.games[i].players, p)
                        implies has_player(s1.players, p) by {
                    assert(member(s.games[i].players, p));
                }
            }
        },
        EventKindModel::PlayerJoined { game_id, player_id } => {
            if has_game(s.games, game_id) {
                assert(forall|i: int|
                    0 <= i < s1.games.len() ==> (#[trigger] s1.games[i]).id == s.games[i].id);
                assert(unique_player_ids(s1.players)) by {
                    if !has_player(s.players, player_id) {
                        assert(forall|i: int|
                            0 <= i < s.players.len() ==> (#[trigger] s.players[i]).id
                                != player_id);
                        assert(forall|i: int|
                            0 <= i < s.players.len() ==> #[trigger] upsert_player(
                                s.players,
                                player_id,
                            )[i] == s.players[i]);
                    }
                }
                assert forall|i: int|
                    0 <= i < s1.games.len() implies no_duplicates(
                    #[trigger] s1.games[i].players,
                ) by {
                    if s.games[i].id == game_id {
                        let ps = s.games[i].players;
                        assert(s1.games[i].players == join_list(ps, player_id));
                        if !member(ps, player_id) {
                            assert forall|a: int, b: int|
                                0 <= a < ps.push(player_id).len() && 0 <= b < ps.push(
                                    player_id,
                                ).len() && ps.push(player_id)[a] == ps.push(player_id)[b]
                                implies a == b by {
                                if a < ps.len() && b == ps.len() {
                                    assert(ps[a] == player_id);
                                }
                                if b < ps.len() && a == ps.len() {
                                    assert(ps[b] == player_id);
                                }
                            }
                        }
                    } else {
                        assert(s1.games[i].players == s.games[i].players);
                    }
                }
                assert forall|i: int, p: Seq<char>|
                    0 <= i < s1.games.len() && #[trigger] member(s1.games[i].players, p)
                        implies has_player(s1.players, p) by {
                    if s.games[i].id == game_id {
                        let ps = s.games[i].players;
                        if member(ps, p) {
                            lemma_upsert_keeps_players(s.players, player_id, p);
                        } else {
                            assert(member(join_list(ps, player_id), p));
                            if !member(ps, player_id) {
                                let k = choose|k: int|
                                    0 <= k < ps.push(player_id).len() && ps.push(
                                        player_id,
                                    )[k] == p;
                                assert(p == player_id);
                            }
                            lemma_upsert_keeps_players(s.players, player_id, p);
                        }
                    } else {
                        assert(member(s.games[i].players, p));
                        lemma_upsert_keeps_players(s.players, player_id, p);
                    }
                }
            }
        },
        EventKindModel::PlayerLeft { game_id, player_id } => {
            if has_game(s.games, game_id) {
                assert(forall|i: int|
                    0 <= i < s1.games.len() ==> (#[trigger] s1.games[i]).id == s.games[i].id);
                assert forall|i: int|
                    0 <= i < s1.games.len() implies no_duplicates(
                    #[trigger] s1.games[i].players,
                ) by {
                    if s.games[i].id == game_id {
                        lemma_leave_list_no_duplicates(s.games[i].players, player_id);
                    } else {
                        assert(s1.games[i].players == s.games[i].players);
                    }
                }
                assert forall|i: int, p: Seq<char>|
                    0 <= i < s1.games.len() && #[trigger] member(s1.games[i].players, p)
                        implies has_player(s1.players, p) by {
                    if s.games[i].id == game_id {
                        lemma_leave_list_member(s.games[i].players, player_id, p);
                        assert(member(s.games[i].players, p));
                    } else {
                        assert(member(s.games[i].players, p));
                    }
                }
            }
        },
        EventKindModel::ScoreUpdated { player_id, score } => {
            assert(s1.games == s.games);
            assert(unique_player_ids(s1.players)) by {
                if has_player(s.players, player_id) {
                    assert(forall|i: int|
                        0 <= i < s.players.len() ==> (#[trigger] s1.players[i]).id
                            == s.players[i].id);
                } else {
                    assert(forall|i: int|
                        0 <= i < s.players.len() ==> (#[trigger] s.players[i]).id != player_id);
                    assert(forall|i: int|
                        0 <= i < s.players.len() ==> #[trigger] s1.players[i] == s.players[i]);
                }
            }
            assert forall|i: int, p: Seq<char>|
                0 <= i < s1.games.len() && #[trigger] member(s1.games[i].players, p)
                    implies has_player(s1.players, p) by {
                assert(member(s.games[i].players, p));
                assert(has_player(s.players, p));
                let k = choose|k: int| 0 <= k < s.players.len() && s.players[k].id == p;
                assert(s1.players[k].id == p);
            }
        },
    }
}

/// Replaying any sequence of events preserves well-formedness; with the
/// empty store well-formed, every state the drain can produce is
/// well-formed.
pub proof fn lemma_run_preserves_wf(s: StoreModel, es: Seq<EventModel>)
    requires
        wf_store(s),
    ensures
        wf_store(run_store(s, es)),
    decreases es.len(),
{
    if es.len() > 0 {
        lemma_step_preserves_wf(s, es[0]);
        lemma_run_preserves_wf(step_store(s, es[0]), es.drop_first());
    }
}

/// The empty store is well-formed.
pub proof fn lemma_empty_store_wf()
    ensures
        wf_store(crate::model::empty_store()),
{
}

} // verus!
