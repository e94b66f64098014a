//! The entity store: the canonical in-memory collections of games and
//! players, with lookup and mutation primitives keyed by identifier. Only
//! the state applier mutates it; readers query it between drains.

use vstd::prelude::*;
use crate::model::{
    GameModel, PlayerModel, StoreModel, assign_score, empty_store, has_game, has_player,
    join_list, joined_games, leave_list, left_games, member, update_game_fields, updated_games,
    upsert_player,
};

verus! {

/// One game record: identity, descriptive fields, and the ordered list of
/// identifiers of the players currently joined.
pub struct Game {
    pub id: String,
    pub name: String,
    pub description: String,
    pub players: Vec<String>,
}

/// One player record: identity, display name, and current score.
pub struct Player {
    pub id: String,
    pub username: String,
    pub score: u32,
}

/// A game with the given identifier already exists in the store.
#[derive(Clone, Copy, Debug, PartialEq, Eq, Structural)]
pub struct DuplicateIdError;

/// The view of a list of player identifiers.
pub open spec fn strs_view(ss: Seq<String>) -> Seq<Seq<char>> {
    ss.map_values(|s: String| s@)
}

impl View for Game {
    type V = GameModel;

    open spec fn view(&self) -> GameModel {
        GameModel {
            id: self.id@,
            name: self.name@,
            description: self.description@,
            players: strs_view(self.players@),
        }
    }
}

impl View for Player {
    type V = PlayerModel;

    open spec fn view(&self) -> PlayerModel {
        PlayerModel { id: self.id@, username: self.username@, score: self.score }
    }
}

/// The view of the store's game collection.
pub open spec fn games_view(gs: Seq<Game>) -> Seq<GameModel> {
    gs.map_values(|g: Game| g@)
}

/// The view of the store's player collection.
pub open spec fn players_view(ps: Seq<Player>) -> Seq<PlayerModel> {
    ps.map_values(|p: Player| p@)
}

/// The aggregate of all games and players.
pub struct EntityStore {
    games: Vec<Game>,
    players: Vec<Player>,
}

impl View for EntityStore {
    type V = StoreModel;

    closed spec fn view(&self) -> StoreModel {
        StoreModel { games: games_view(self.games@), players: players_view(self.players@) }
    }
}

/// The player list after the first `k` entries have been scanned for an
/// absolute score assignment to `pid`.
spec fn score_prefix(players: Seq<PlayerModel>, pid: Seq<char>, score: u32, k: int) -> Seq<
    PlayerModel,
> {
    Seq::new(
        players.len(),
        |j: int|
            if j < k && players[j].id == pid {
                PlayerModel { id: players[j].id, username: players[j].username, score: score }
            } else {
                players[j]
            },
    )
}

/// The game list after the first `k` entries have been scanned for a
/// `GameUpdated` of `gid`.
spec fn upd_prefix(
    games: Seq<GameModel>,
    gid: Seq<char>,
    name: Option<Seq<char>>,
    description: Option<Seq<char>>,
    k: int,
) -> Seq<GameModel> {
    Seq::new(
        games.len(),
        |j: int|
            if j < k && games[j].id == gid {
                update_game_fields(games[j], name, description)
            } else {
                games[j]
            },
    )
}

/// The game list after the first `k` entries have been scanned for a
/// `PlayerJoined` of `pid` to `gid`.
spec fn join_prefix(games: Seq<GameModel>, gid: Seq<char>, pid: Seq<char>, k: int) -> Seq<
    GameModel,
> {
    Seq::new(
        games.len(),
        |j: int|
            if j < k && games[j].id == gid {
                GameModel {
                    id: games[j].id,
                    name: games[j].name,
                    description: games[j].description,
                    players: join_list(games[j].players, pid),
                }
            } else {
                games[j]
            },
    )
}

/// The game list after the first `k` entries have been scanned for a
/// `PlayerLeft` of `pid` from `gid`.
spec fn leave_prefix(games: Seq<GameModel>, gid: Seq<char>, pid: Seq<char>, k: int) -> Seq<
    GameModel,
> {
    Seq::new(
        games.len(),
        |j: int|
            if j < k && games[j].id == gid {
                GameModel {
                    id: games[j].id,
                    name: games[j].name,
                    description: games[j].description,
                    players: leave_list(games[j].players, pid),
                }
            } else {
                games[j]
            },
    )
}

/// The character of one decimal digit.
pub open spec fn digit_char(d: nat) -> char {
    if d == 0 {
        '0'
    } else if d == 1 {
        '1'
    } else if d == 2 {
        '2'
    } else if d == 3 {
        '3'
    } else if d == 4 {
        '4'
    } else if d == 5 {
        '5'
    } else if d == 6 {
        '6'
    } else if d == 7 {
        '7'
    } else if d == 8 {
        '8'
    } else {
        '9'
    }
}

/// The decimal digits of `n`, most significant first, without leading
/// zeroes (a single '0' for zero).
pub open spec fn decimal_digits(n: nat) -> Seq<char>
    decreases n,
{
    if n < 10 {
        seq![digit_char(n)]
    } else {
        decimal_digits(n / 10).push(digit_char(n % 10))
    }
}

/// Relies on rand::random: a fresh 32-bit draw. Nothing is promised of a
/// random value.
#[verifier::external_body]
fn random_u32() -> (r: u32) {
    rand::random()
}

/// Relies on u32's `Display` (through `format!`): "game_" followed by the
/// decimal digits of `n`, most significant first, no leading zeroes.
#[verifier::external_body]
fn format_game_id(n: u32) -> (r: String)
    ensures
        r@ == "game_"@ + decimal_digits(n as nat),
{
    format!("game_{}", n)
}

/// A new game record built from the draw `n`: its identifier is "game_"
/// followed by the decimal digits of `n`; it carries the given name and
/// description and no players yet.
pub fn game_from_draw(n: u32, name: String, description: String) -> (g: Game)
    ensures
        g@.id == "game_"@ + decimal_digits(n as nat),
        g@.name == name@,
        g@.description == description@,
        g@.players == Seq::<Seq<char>>::empty(),
{
    let id = format_game_id(n);
    let g = Game { id, name, description, players: Vec::new() };
    proof {
        assert(g@.players =~= Seq::<Seq<char>>::empty());
    }
    g
}

/// A new game record with a freshly drawn identifier, the given name and
/// description, and no players yet. The identifier is "game_" followed by
/// the decimal digits of a random 32-bit draw; which draw is not promised.
pub fn create_game(name: String, description: String) -> (g: Game)
    ensures
        g@.name == name@,
        g@.description == description@,
        g@.players == Seq::<Seq<char>>::empty(),
        exists|n: u32| g@.id == "game_"@ + decimal_digits(n as nat),
{
    let n = random_u32();
    game_from_draw(n, name, description)
}

/// Whether the identifier `pid` occurs in the list `ps`.
fn contains_str(ps: &Vec<String>, pid: &String) -> (r: bool)
    ensures
        r == member(strs_view(ps@), pid@),
{
    let mut i: usize = 0;
    while i < ps.len()
        invariant
            i <= ps.len(),
            forall|j: int| 0 <= j < i ==> strs_view(ps@)[j] != pid@,
        decreases ps.len() - i,
    {
        if ps[i] == *pid {
            assert(strs_view(ps@)[i as int] == pid@);
            return true;
        }
        i += 1;
    }
    false
}

/// The list `ps` with `pid` appended, unless it is already a member.
fn add_member(ps: Vec<String>, pid: &String) -> (r: Vec<String>)
    ensures
        strs_view(r@) == join_list(strs_view(ps@), pid@),
{
    let ghost orig = ps@;
    if contains_str(&ps, pid) {
        ps
    } else {
        let mut ps2 = ps;
        ps2.push(pid.clone());
        proof {
            assert(strs_view(ps2@) =~= strs_view(orig).push(pid@));
        }
        ps2
    }
}

/// The list `ps` with every occurrence of `pid` removed, and whether any
/// occurrence was there to remove.
fn remove_member(ps: Vec<String>, pid: &String) -> (r: (Vec<String>, bool))
    ensures
        strs_view(r.0@) == leave_list(strs_view(ps@), pid@),
        r.1 == member(strs_view(ps@), pid@),
{
    let mut out: Vec<String> = Vec::new();
    let mut was = false;
    let mut i: usize = 0;
    proof {
        assert(strs_view(ps@).take(0) =~= Seq::<Seq<char>>::empty());
        assert(strs_view(out@) =~= leave_list(strs_view(ps@).take(0), pid@));
    }
    while i < ps.len()
        invariant
            i <= ps.len(),
            strs_view(out@) == leave_list(strs_view(ps@).take(i as int), pid@),
            was == (exists|j: int| 0 <= j < i && strs_view(ps@)[j] == pid@),
        decreases ps.len() - i,
    {
        let ghost t = strs_view(ps@).take(i + 1);
        proof {
            reveal_with_fuel(Seq::<Seq<char>>::filter, 2);
            assert(t.drop_last() =~= strs_view(ps@).take(i as int));
            assert(t.last() == strs_view(ps@)[i as int]);
        }
        if ps[i] == *pid {
            proof {
                reveal_with_fuel(Seq::<Seq<char>>::filter, 2);
                assert(strs_view(ps@)[i as int] == pid@);
                assert(leave_list(t, pid@) == leave_list(t.drop_last(), pid@));
            }
            was = true;
        } else {
            let ghost outprev = strs_view(out@);
            out.push(ps[i].clone());
            proof {
                reveal_with_fuel(Seq::<Seq<char>>::filter, 2);
                assert(strs_view(ps@)[i as int] != pid@);
                assert(leave_list(t, pid@) == leave_list(t.drop_last(), pid@).push(t.last()));
                assert(strs_view(out@) =~= outprev.push(strs_view(ps@)[i as int]));
            }
        }
        i += 1;
    }
    proof {
        assert(strs_view(ps@).take(ps@.len() as int) =~= strs_view(ps@));
    }
    (out, was)
}

impl EntityStore {
    /// An empty store, the state before any event has been applied.
    pub fn new() -> (s: Self)
        ensures
            s@ == empty_store(),
    {
        let s = EntityStore { games: Vec::new(), players: Vec::new() };
        proof {
            assert(s@ =~~= empty_store());
        }
        s
    }

    /// The position of the game with identifier `id`, if one exists.
    pub fn find_game_index(&self, id: &String) -> (r: Option<usize>)
        ensures
            (r is Some) == has_game(self@.games, id@),
            r matches Some(i) ==> i < self@.games.len() && self@.games[i as int].id == id@,
    {
        let mut i: usize = 0;
        while i < self.games.len()
            invariant
                i <= self.games.len(),
                forall|j: int| 0 <= j < i ==> self@.games[j].id != id@,
            decreases self.games.len() - i,
        {
            if self.games[i].id == *id {
                assert(self@.games[i as int].id == id@);
                return Some(i);
            }
            i += 1;
        }
        None
    }

    /// The position of the player with identifier `id`, if one exists.
    pub fn find_player_index(&self, id: &String) -> (r: Option<usize>)
        ensures
            (r is Some) == has_player(self@.players, id@),
            r matches Some(i) ==> i < self@.players.len() && self@.players[i as int].id == id@,
    {
        let mut i: usize = 0;
        while i < self.players.len()
            invariant
                i <= self.players.len(),
                forall|j: int| 0 <= j < i ==> self@.players[j].id != id@,
            decreases self.players.len() - i,
        {
            if self.players[i].id == *id {
                assert(self@.players[i as int].id == id@);
                return Some(i);
            }
            i += 1;
        }
        None
    }

    /// How many games the store holds.
    pub fn game_count(&self) -> (n: usize)
        ensures
            n == self@.games.len(),
    {
        self.games.len()
    }

    /// How many players the store holds.
    pub fn player_count(&self) -> (n: usize)
        ensures
            n == self@.players.len(),
    {
        self.players.len()
    }

    /// The game at position `i` of the store.
    pub fn game_at(&self, i: usize) -> (g: &Game)
        requires
            i < self@.games.len(),
        ensures
            g@ == self@.games[i as int],
    {
        &self.games[i]
    }

    /// The player at position `i` of the store.
    pub fn player_at(&self, i: usize) -> (p: &Player)
        requires
            i < self@.players.len(),
        ensures
            p@ == self@.players[i as int],
    {
        &self.players[i]
    }

    /// Adds `game` to the store, or reports a duplicate identifier and
    /// leaves the store unchanged.
    pub fn add_game(&mut self, game: Game) -> (r: Result<(), DuplicateIdError>)
        ensures
            (r is Ok) == !has_game(old(self)@.games, game@.id),
            r is Ok ==> final(self)@ == (StoreModel {
                games: old(self)@.games.push(game@),
                players: old(self)@.players,
            }),
            r is Err ==> final(self)@ == old(self)@,
    {
        match self.find_game_index(&game.id) {
            Some(_) => Err(DuplicateIdError),
            None => {
                self.games.push(game);
                proof {
                    assert(self@.games =~= old(self)@.games.push(self.games@.last()@));
                    assert(self@ =~~= (StoreModel {
                        games: old(self)@.games.push(self.games@.last()@),
                        players: old(self)@.players,
                    }));
                }
                Ok(())
            },
        }
    }

    /// Create-if-absent ("upsert") access to a player: returns the
    /// position of the player with identifier `player_id`, creating a
    /// zero-scored player with an empty username first if none exists.
    pub fn add_or_get_player(&mut self, player_id: &String) -> (i: usize)
        ensures
            final(self)@ == (StoreModel {
                games: old(self)@.games,
                players: upsert_player(old(self)@.players, player_id@),
            }),
            i < final(self)@.players.len() && final(self)@.players[i as int].id == player_id@,
    {
        match self.find_player_index(player_id) {
            Some(i) => {
                proof {
                    assert(self@ =~~= (StoreModel {
                        games: old(self)@.games,
                        players: upsert_player(old(self)@.players, player_id@),
                    }));
                }
                i
            },
            None => {
                let p = Player { id: player_id.clone(), username: String::new(), score: 0 };
                self.players.push(p);
                proof {
                    assert(self@.players =~= old(self)@.players.push(
                        self.players@.last()@,
                    ));
                    assert(self.players@.last()@ == (PlayerModel {
                        id: player_id@,
                        username: Seq::<char>::empty(),
                        score: 0,
                    }));
                    assert(self@ =~~= (StoreModel {
                        games: old(self)@.games,
                        players: upsert_player(old(self)@.players, player_id@),
                    }));
                }
                self.players.len() - 1
            },
        }
    }

    /// Absolute score assignment: sets the score of the player with
    /// identifier `player_id` to exactly `score`, creating the player
    /// first if absent.
    pub fn set_score(&mut self, player_id: &String, score: u32)
        ensures
            final(self)@ == (StoreModel {
                games: old(self)@.games,
                players: assign_score(old(self)@.players, player_id@, score),
            }),
    {
        let mut i: usize = 0;
        let mut found = false;
        while i < self.players.len()
            invariant
                i <= self.players.len(),
                self.games@ == old(self).games@,
                self.players@.len() == old(self).players@.len(),
                found == (exists|j: int|
                    0 <= j < i && old(self)@.players[j].id == player_id@),
                forall|j: int|
                    0 <= j < self.players@.len() ==> (#[trigger] self.players@[j])@
                        == score_prefix(old(self)@.players, player_id@, score, i as int)[j],
            decreases self.players.len() - i,
        {
            let ghost prev = self.players@;
            proof {
                assert(prev[i as int]@ == score_prefix(
                    old(self)@.players,
                    player_id@,
                    score,
                    i as int,
                )[i as int]);
                assert(old(self)@.players[i as int] == prev[i as int]@);
            }
            if self.players[i].id == *player_id {
                let p = self.players.remove(i);
                let p2 = Player { id: p.id, username: p.username, score: score };
                self.players.insert(i, p2);
                proof {
                    assert(self.players@ =~= prev.update(i as int, self.players@[i as int]));
                    assert(old(self)@.players[i as int].id == player_id@);
                    assert forall|j: int| 0 <= j < self.players@.len() implies (
                    #[trigger] self.players@[j])@ == score_prefix(
                        old(self)@.players,
                        player_id@,
                        score,
                        i + 1,
                    )[j] by {
                        assert(prev[j]@ == score_prefix(
                            old(self)@.players,
                            player_id@,
                            score,
                            i as int,
                        )[j]);
                    }
                }
                found = true;
            } else {
                proof {
                    assert(old(self)@.players[i as int].id != player_id@);
                    assert forall|j: int| 0 <= j < self.players@.len() implies (
                    #[trigger] self.players@[j])@ == score_prefix(
                        old(self)@.players,
                        player_id@,
                        score,
                        i + 1,
                    )[j] by {
                        assert(prev[j]@ == score_prefix(
                            old(self)@.players,
                            player_id@,
                            score,
                            i as int,
                        )[j]);
                    }
                }
            }
            i += 1;
        }
        if found {
            proof {
                assert(has_player(old(self)@.players, player_id@));
                assert(self@.players =~= assign_score(old(self)@.players, player_id@, score));
                assert(self@ =~~= (StoreModel {
                    games: old(self)@.games,
                    players: assign_score(old(self)@.players, player_id@, score),
                }));
            }
        } else {
            assert(!has_player(old(self)@.players, player_id@));
            let ghost prevplayers = self@.players;
            let p = Player { id: player_id.clone(), username: String::new(), score: score };
            self.players.push(p);
            proof {
                assert(prevplayers =~= old(self)@.players);
                assert(self@.players =~= prevplayers.push(
                    PlayerModel { id: player_id@, username: Seq::<char>::empty(), score: score },
                ));
                assert(self@ =~~= (StoreModel {
                    games: old(self)@.games,
                    players: assign_score(old(self)@.players, player_id@, score),
                }));
            }
        }
    }

    /// Applies a `GameUpdated`: replaces the provided fields of the game
    /// with identifier `game_id`, or reports that no such game exists.
    pub fn update_game(
        &mut self,
        game_id: &String,
        name: Option<String>,
        description: Option<String>,
    ) -> (found: bool)
        ensures
            found == has_game(old(self)@.games, game_id@),
            found ==> final(self)@ == (StoreModel {
                games: updated_games(
                    old(self)@.games,
                    game_id@,
                    crate::event::opt_view(name),
                    crate::event::opt_view(description),
                ),
                players: old(self)@.players,
            }),
            !found ==> final(self)@ == old(self)@,
    {
        let ghost nv = crate::event::opt_view(name);
        let ghost dv = crate::event::opt_view(description);
        let mut i: usize = 0;
        let mut found = false;
        while i < self.games.len()
            invariant
                i <= self.games.len(),
                nv == crate::event::opt_view(name),
                dv == crate::event::opt_view(description),
                self.players@ == old(self).players@,
                self.games@.len() == old(self).games@.len(),
                found == (exists|j: int| 0 <= j < i && old(self)@.games[j].id == game_id@),
                forall|j: int|
                    0 <= j < self.games@.len() ==> (#[trigger] self.games@[j])@ == upd_prefix(
                        old(self)@.games,
                        game_id@,
                        nv,
                        dv,
                        i as int,
                    )[j],
            decreases self.games.len() - i,
        {
            let ghost prev = self.games@;
            proof {
                assert(prev[i as int]@ == upd_prefix(
                    old(self)@.games,
                    game_id@,
                    nv,
                    dv,
                    i as int,
                )[i as int]);
                assert(old(self)@.games[i as int] == prev[i as int]@);
            }
            if self.games[i].id == *game_id {
                let g = self.games.remove(i);
                let new_name: String = match &name {
                    Some(n) => n.clone(),
                    None => g.name,
                };
                let new_description: String = match &description {
                    Some(d) => d.clone(),
                    None => g.description,
                };
                let g2 = Game {
                    id: g.id,
                    name: new_name,
                    description: new_description,
                    players: g.players,
                };
                let ghost g2v = g2@;
                self.games.insert(i, g2);
                proof {
                    assert(self.games@ =~= prev.update(i as int, self.games@[i as int]));
                    assert(old(self)@.games[i as int].id == game_id@);
                    assert(g2v =~~= update_game_fields(old(self)@.games[i as int], nv, dv));
                    assert forall|j: int| 0 <= j < self.games@.len() implies (
                    #[trigger] self.games@[j])@ == upd_prefix(
                        old(self)@.games,
                        game_id@,
                        nv,
                        dv,
                        i + 1,
                    )[j] by {
                        assert(prev[j]@ == upd_prefix(
                            old(self)@.games,
                            game_id@,
                            nv,
                            dv,
                            i as int,
                        )[j]);
                    }
                }
                found = true;
            } else {
                proof {
                    assert(old(self)@.games[i as int].id != game_id@);
                    assert forall|j: int| 0 <= j < self.games@.len() implies (
                    #[trigger] self.games@[j])@ == upd_prefix(
                        old(self)@.games,
                        game_id@,
                        nv,
                        dv,
                        i + 1,
                    )[j] by {
                        assert(prev[j]@ == upd_prefix(
                            old(self)@.games,
                            game_id@,
                            nv,
                            dv,
                            i as int,
                        )[j]);
                    }
                }
            }
            i += 1;
        }
        proof {
            if found {
                assert(self@.games =~= updated_games(old(self)@.games, game_id@, nv, dv));
                assert(self@ =~~= (StoreModel {
                    games: updated_games(old(self)@.games, game_id@, nv, dv),
                    players: old(self)@.players,
                }));
            } else {
                assert(self@.games =~= old(self)@.games);
                assert(self@ =~~= old(self)@);
            }
        }
        found
    }

    /// Applies a `PlayerJoined`: makes sure the player is known to the
    /// store and appends it to the game's membership list unless already
    /// a member, or reports that no such game exists.
    pub fn join_game(&mut self, game_id: &String, player_id: &String) -> (found: bool)
        ensures
            found == has_game(old(self)@.games, game_id@),
            found ==> final(self)@ == (StoreModel {
                games: joined_games(old(self)@.games, game_id@, player_id@),
                players: upsert_player(old(self)@.players, player_id@),
            }),
            !found ==> final(self)@ == old(self)@,
    {
        if self.find_game_index(game_id).is_none() {
            proof {
                assert(self@ =~~= old(self)@);
            }
            return false;
        }
        let _ = self.add_or_get_player(player_id);
        let ghost mid_players = self.players@;
        let mut i: usize = 0;
        while i < self.games.len()
            invariant
                i <= self.games.len(),
                self.players@ == mid_players,
                players_view(mid_players) == upsert_player(old(self)@.players, player_id@),
                self.games@.len() == old(self).games@.len(),
                forall|j: int|
                    0 <= j < self.games@.len() ==> (#[trigger] self.games@[j])@ == join_prefix(
                        old(self)@.games,
                        game_id@,
                        player_id@,
                        i as int,
                    )[j],
            decreases self.games.len() - i,
        {
            let ghost prev = self.games@;
            proof {
                assert(prev[i as int]@ == join_prefix(
                    old(self)@.games,
                    game_id@,
                    player_id@,
                    i as int,
                )[i as int]);
                assert(old(self)@.games[i as int] == prev[i as int]@);
            }
            if self.games[i].id == *game_id {
                let g = self.games.remove(i);
                let new_players = add_member(g.players, player_id);
                let g2 = Game {
                    id: g.id,
                    name: g.name,
                    description: g.description,
                    players: new_players,
                };
                let ghost g2v = g2@;
                self.games.insert(i, g2);
                proof {
                    assert(self.games@ =~= prev.update(i as int, self.games@[i as int]));
                    assert(old(self)@.games[i as int].id == game_id@);
                    assert(g2v =~~= (GameModel {
                        id: old(self)@.games[i as int].id,
                        name: old(self)@.games[i as int].name,
                        description: old(self)@.games[i as int].description,
                        players: join_list(old(self)@.games[i as int].players, player_id@),
                    }));
                    assert forall|j: int| 0 <= j < self.games@.len() implies (
                    #[trigger] self.games@[j])@ == join_prefix(
                        old(self)@.games,
                        game_id@,
                        player_id@,
                        i + 1,
                    )[j] by {
                        assert(prev[j]@ == join_prefix(
                            old(self)@.games,
                            game_id@,
                            player_id@,
                            i as int,
                        )[j]);
                    }
                }
            } else {
                proof {
                    assert(old(self)@.games[i as int].id != game_id@);
                    assert forall|j: int| 0 <= j < self.games@.len() implies (
                    #[trigger] self.games@[j])@ == join_prefix(
                        old(self)@.games,
                        game_id@,
                        player_id@,
                        i + 1,
                    )[j] by {
                        assert(prev[j]@ == join_prefix(
                            old(self)@.games,
                            game_id@,
                            player_id@,
                            i as int,
                        )[j]);
                    }
                }
            }
            i += 1;
        }
        proof {
            assert(self@.games =~= joined_games(old(self)@.games, game_id@, player_id@));
            assert(self@ =~~= (StoreModel {
                games: joined_games(old(self)@.games, game_id@, player_id@),
                players: upsert_player(old(self)@.players, player_id@),
            }));
        }
        true
    }

    /// Applies a `PlayerLeft`: removes the player from the membership list
    /// of the game with identifier `game_id`. Reports whether the game
    /// exists and whether the player was a member of it.
    pub fn leave_game(&mut self, game_id: &String, player_id: &String) -> (r: (bool, bool))
        ensures
            r.0 == has_game(old(self)@.games, game_id@),
            r.1 == (exists|j: int|
                0 <= j < old(self)@.games.len() && old(self)@.games[j].id == game_id@ && member(
                    old(self)@.games[j].players,
                    player_id@,
                )),
            r.0 ==> final(self)@ == (StoreModel {
                games: left_games(old(self)@.games, game_id@, player_id@),
                players: old(self)@.players,
            }),
            !r.0 ==> final(self)@ == old(self)@,
    {
        if self.find_game_index(game_id).is_none() {
            proof {
                assert(self@ =~~= old(self)@);
                assert(forall|j: int|
                    0 <= j < old(self)@.games.len() ==> old(self)@.games[j].id != game_id@);
            }
            return (false, false);
        }
        let mut i: usize = 0;
        let mut was_member = false;
        while i < self.games.len()
            invariant
                i <= self.games.len(),
                self.players@ == old(self).players@,
                self.games@.len() == old(self).games@.len(),
                was_member == (exists|j: int|
                    0 <= j < i && old(self)@.games[j].id == game_id@ && member(
                        old(self)@.games[j].players,
                        player_id@,
                    )),
                forall|j: int|
                    0 <= j < self.games@.len() ==> (#[trigger] self.games@[j])@ == leave_prefix(
                        old(self)@.games,
                        game_id@,
                        player_id@,
                        i as int,
                    )[j],
            decreases self.games.len() - i,
        {
            let ghost prev = self.games@;
            proof {
                assert(prev[i as int]@ == leave_prefix(
                    old(self)@.games,
                    game_id@,
                    player_id@,
                    i as int,
                )[i as int]);
                assert(old(self)@.games[i as int] == prev[i as int]@);
            }
            if self.games[i].id == *game_id {
                let g = self.games.remove(i);
                let (new_players, was) = remove_member(g.players, player_id);
                let g2 = Game {
                    id: g.id,
                    name: g.name,
                    description: g.description,
                    players: new_players,
                };
                let ghost g2v = g2@;
                self.games.insert(i, g2);
                if was {
                    was_member = true;
                }
                proof {
                    assert(self.games@ =~= prev.update(i as int, self.games@[i as int]));
                    assert(old(self)@.games[i as int].id == game_id@);
                    assert(was == member(old(self)@.games[i as int].players, player_id@));
                    assert(g2v =~~= (GameModel {
                        id: old(self)@.games[i as int].id,
                        name: old(self)@.games[i as int].name,
                        description: old(self)@.games[i as int].description,
                        players: leave_list(old(self)@.games[i as int].players, player_id@),
                    }));
                    assert forall|j: int| 0 <= j < self.games@.len() implies (
                    #[trigger] self.games@[j])@ == leave_prefix(
                        old(self)@.games,
                        game_id@,
                        player_id@,
                        i + 1,
                    )[j] by {
                        assert(prev[j]@ == leave_prefix(
                            old(self)@.games,
                            game_id@,
                            player_id@,
                            i as int,
                        )[j]);
                    }
                }
            } else {
                proof {
                    assert(old(self)@.games[i as int].id != game_id@);
                    assert forall|j: int| 0 <= j < self.games@.len() implies (
                    #[trigger] self.games@[j])@ == leave_prefix(
                        old(self)@.games,
                        game_id@,
                        player_id@,
                        i + 1,
                    )[j] by {
                        assert(prev[j]@ == leave_prefix(
                            old(self)@.games,
                            game_id@,
                            player_id@,
                            i as int,
                        )[j]);
                    }
                }
            }
            i += 1;
        }
        proof {
            assert(self@.games =~= left_games(old(self)@.games, game_id@, player_id@));
            assert(self@ =~~= (StoreModel {
                games: left_games(old(self)@.games, game_id@, player_id@),
                players: old(self)@.players,
            }));
        }
        (true, was_member)
    }
}

} // verus!
