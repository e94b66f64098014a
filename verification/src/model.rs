//! The mathematical model of the tracker: spec-level images of games,
//! players, the store and events, and the state-transition functions that
//! the executable code is proved against.

use vstd::prelude::*;

verus! {

/// How applying one event went, as reported in a drain outcome.
#[derive(Clone, Copy, Debug, PartialEq, Eq, Structural)]
pub enum OutcomeKind {
    /// The event's effect was applied to the store.
    Applied,
    /// A `GameCreated` named an identifier that already exists; skipped.
    DuplicateGame,
    /// The referenced game is not in the store; skipped.
    GameNotFound,
    /// A `PlayerLeft` named a player not in that game's list; skipped.
    PlayerNotFound,
}

/// Spec-level image of one game record.
#[verifier::ext_equal]
pub struct GameModel {
    pub id: Seq<char>,
    pub name: Seq<char>,
    pub description: Seq<char>,
    pub players: Seq<Seq<char>>,
}

/// Spec-level image of one player record.
#[verifier::ext_equal]
pub struct PlayerModel {
    pub id: Seq<char>,
    pub username: Seq<char>,
    pub score: u32,
}

/// Spec-level image of the whole entity store.
#[verifier::ext_equal]
pub struct StoreModel {
    pub games: Seq<GameModel>,
    pub players: Seq<PlayerModel>,
}

/// Spec-level image of an event's variant and payload.
pub enum EventKindModel {
    GameCreated { game_id: Seq<char>, name: Seq<char>, description: Seq<char> },
    GameUpdated { game_id: Seq<char>, name: Option<Seq<char>>, description: Option<Seq<char>> },
    PlayerJoined { game_id: Seq<char>, player_id: Seq<char> },
    PlayerLeft { game_id: Seq<char>, player_id: Seq<char> },
    ScoreUpdated { player_id: Seq<char>, score: u32 },
}

/// Spec-level image of one event, with its tracing identifier.
#[verifier::ext_equal]
pub struct EventModel {
    pub id: Seq<char>,
    pub kind: EventKindModel,
}

/// Spec-level image of one entry of a drain's outcome report.
#[verifier::ext_equal]
pub struct OutcomeModel {
    pub event_id: Seq<char>,
    pub kind: OutcomeKind,
}

/// Some game in `games` carries the identifier `id`.
pub open spec fn has_game(games: Seq<GameModel>, id: Seq<char>) -> bool {
    exists|i: int| 0 <= i < games.len() && games[i].id == id
}

/// Some player in `players` carries the identifier `id`.
pub open spec fn has_player(players: Seq<PlayerModel>, id: Seq<char>) -> bool {
    exists|i: int| 0 <= i < players.len() && players[i].id == id
}

/// The identifier `pid` occurs in the membership list `ps`.
pub open spec fn member(ps: Seq<Seq<char>>, pid: Seq<char>) -> bool {
    exists|i: int| 0 <= i < ps.len() && ps[i] == pid
}

/// Create-if-absent: the player list after making sure `pid` is known,
/// with score 0 and an empty username on first reference.
pub open spec fn upsert_player(players: Seq<PlayerModel>, pid: Seq<char>) -> Seq<PlayerModel> {
    if has_player(players, pid) {
        players
    } else {
        players.push(PlayerModel { id: pid, username: Seq::empty(), score: 0 })
    }
}

/// The player list after an absolute score assignment to `pid`,
/// creating the player if absent.
pub open spec fn assign_score(players: Seq<PlayerModel>, pid: Seq<char>, score: u32) -> Seq<
    PlayerModel,
> {
    if has_player(players, pid) {
        Seq::new(
            players.len(),
            |i: int|
                if players[i].id == pid {
                    PlayerModel { id: players[i].id, username: players[i].username, score: score }
                } else {
                    players[i]
                },
        )
    } else {
        players.push(PlayerModel { id: pid, username: Seq::empty(), score: score })
    }
}

/// The membership list after a join: appended only if not yet a member.
pub open spec fn join_list(ps: Seq<Seq<char>>, pid: Seq<char>) -> Seq<Seq<char>> {
    if member(ps, pid) {
        ps
    } else {
        ps.push(pid)
    }
}

/// The membership list after a leave: every occurrence of `pid` removed.
pub open spec fn leave_list(ps: Seq<Seq<char>>, pid: Seq<char>) -> Seq<Seq<char>> {
    ps.filter(|p: Seq<char>| p != pid)
}

/// A game's fields after a `GameUpdated`: each provided field replaced,
/// each absent field kept.
pub open spec fn update_game_fields(
    g: GameModel,
    name: Option<Seq<char>>,
    description: Option<Seq<char>>,
) -> GameModel {
    GameModel {
        id: g.id,
        name: if name is Some {
            name->0
        } else {
            g.name
        },
        description: if description is Some {
            description->0
        } else {
            g.description
        },
        players: g.players,
    }
}

/// The games after a `GameUpdated` of `gid`: each matching game's provided
/// fields replaced; the rest kept. Under `wf_store` at most one game
/// matches.
pub open spec fn updated_games(
    games: Seq<GameModel>,
    gid: Seq<char>,
    name: Option<Seq<char>>,
    description: Option<Seq<char>>,
) -> Seq<GameModel> {
    Seq::new(
        games.len(),
        |i: int|
            if games[i].id == gid {
                update_game_fields(games[i], name, description)
            } else {
                games[i]
            },
    )
}

/// The games after a `PlayerJoined` of `pid` to `gid`: each matching
/// game's membership list extended if `pid` was not yet a member.
pub open spec fn joined_games(games: Seq<GameModel>, gid: Seq<char>, pid: Seq<char>) -> Seq<
    GameModel,
> {
    Seq::new(
        games.len(),
        |i: int|
            if games[i].id == gid {
                GameModel {
                    id: games[i].id,
                    name: games[i].name,
                    description: games[i].description,
                    players: join_list(games[i].players, pid),
                }
            } else {
                games[i]
            },
    )
}

/// The games after a `PlayerLeft` of `pid` from `gid`: every occurrence of
/// `pid` removed from each matching game's membership list.
pub open spec fn left_games(games: Seq<GameModel>, gid: Seq<char>, pid: Seq<char>) -> Seq<
    GameModel,
> {
    Seq::new(
        games.len(),
        |i: int|
            if games[i].id == gid {
                GameModel {
                    id: games[i].id,
                    name: games[i].name,
                    description: games[i].description,
                    players: leave_list(games[i].players, pid),
                }
            } else {
                games[i]
            },
    )
}

/// The store after applying one event, per the state-application rules:
/// unknown or duplicate identifiers make the event a skip that leaves the
/// store unchanged.
pub open spec fn step_store(s: StoreModel, e: EventModel) -> StoreModel {
    match e.kind {
        EventKindModel::GameCreated { game_id, name, description } => {
            if has_game(s.games, game_id) {
                s
            } else {
                StoreModel {
                    games: s.games.push(
                        GameModel { id: game_id, name, description, players: Seq::empty() },
                    ),
                    players: s.players,
                }
            }
        },
        EventKindModel::GameUpdated { game_id, name, description } => {
            if has_game(s.games, game_id) {
                StoreModel {
                    games: updated_games(s.games, game_id, name, description),
                    players: s.players,
                }
            } else {
                s
            }
        },
        EventKindModel::PlayerJoined { game_id, player_id } => {
            if has_game(s.games, game_id) {
                StoreModel {
                    games: joined_games(s.games, game_id, player_id),
                    players: upsert_player(s.players, player_id),
                }
            } else {
                s
            }
        },
        EventKindModel::PlayerLeft { game_id, player_id } => {
            if has_game(s.games, game_id) {
                StoreModel {
                    games: left_games(s.games, game_id, player_id),
                    players: s.players,
                }
            } else {
                s
            }
        },
        EventKindModel::ScoreUpdated { player_id, score } => {
            StoreModel { games: s.games, players: assign_score(s.players, player_id, score) }
        },
    }
}

/// The outcome reported for applying one event to store `s`.
pub open spec fn step_outcome(s: StoreModel, e: EventModel) -> OutcomeKind {
    match e.kind {
        EventKindModel::GameCreated { game_id, .. } => {
            if has_game(s.games, game_id) {
                OutcomeKind::DuplicateGame
            } else {
                OutcomeKind::Applied
            }
        },
        EventKindModel::GameUpdated { game_id, .. } => {
            if has_game(s.games, game_id) {
                OutcomeKind::Applied
            } else {
                OutcomeKind::GameNotFound
            }
        },
        EventKindModel::PlayerJoined { game_id, .. } => {
            if has_game(s.games, game_id) {
                OutcomeKind::Applied
            } else {
                OutcomeKind::GameNotFound
            }
        },
        EventKindModel::PlayerLeft { game_id, player_id } => {
            if !has_game(s.games, game_id) {
                OutcomeKind::GameNotFound
            } else if exists|i: int|
                0 <= i < s.games.len() && s.games[i].id == game_id && member(
                    s.games[i].players,
                    player_id,
                ) {
                OutcomeKind::Applied
            } else {
                OutcomeKind::PlayerNotFound
            }
        },
        EventKindModel::ScoreUpdated { .. } => OutcomeKind::Applied,
    }
}

/// The store after replaying a sequence of events in order, oldest first.
pub open spec fn run_store(s: StoreModel, es: Seq<EventModel>) -> StoreModel
    decreases es.len(),
{
    if es.len() == 0 {
        s
    } else {
        run_store(step_store(s, es[0]), es.drop_first())
    }
}

/// The outcome report of replaying a sequence of events in order.
pub open spec fn run_report(s: StoreModel, es: Seq<EventModel>) -> Seq<OutcomeModel>
    decreases es.len(),
{
    if es.len() == 0 {
        Seq::empty()
    } else {
        seq![OutcomeModel { event_id: es[0].id, kind: step_outcome(s, es[0]) }] + run_report(
            step_store(s, es[0]),
            es.drop_first(),
        )
    }
}

/// Game identifiers are unique within the store.
pub open spec fn unique_game_ids(games: Seq<GameModel>) -> bool {
    forall|i: int, j: int|
        0 <= i < games.len() && 0 <= j < games.len() && games[i].id == games[j].id ==> i == j
}

/// Player identifiers are unique within the store.
pub open spec fn unique_player_ids(players: Seq<PlayerModel>) -> bool {
    forall|i: int, j: int|
        0 <= i < players.len() && 0 <= j < players.len() && players[i].id == players[j].id ==> i
            == j
}

/// A membership list holds no identifier twice.
pub open spec fn no_duplicates(ps: Seq<Seq<char>>) -> bool {
    forall|i: int, j: int| 0 <= i < ps.len() && 0 <= j < ps.len() && ps[i] == ps[j] ==> i == j
}

/// Every identifier in a game's membership list names a player known to
/// the store (referential integrity).
pub open spec fn members_known(s: StoreModel) -> bool {
    forall|i: int, p: Seq<char>|
        0 <= i < s.games.len() && #[trigger] member(s.games[i].players, p) ==> has_player(
            s.players,
            p,
        )
}

/// Well-formedness of the store: unique identifiers, duplicate-free
/// membership lists, and referential integrity of memberships.
pub open spec fn wf_store(s: StoreModel) -> bool {
    &&& unique_game_ids(s.games)
    &&& unique_player_ids(s.players)
    &&& forall|i: int| 0 <= i < s.games.len() ==> no_duplicates(#[trigger] s.games[i].players)
    &&& members_known(s)
}

/// The empty store, the state before any event has been applied.
pub open spec fn empty_store() -> StoreModel {
    StoreModel { games: Seq::empty(), players: Seq::empty() }
}

} // verus!
