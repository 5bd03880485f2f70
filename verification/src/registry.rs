//! The process-wide game registry: the mapping from game code to game, and
//! the host-entry resolution that decides how a `CreateGame` request is
//! served.
//!
//! The registry itself is a list of games with distinct codes; the lock that
//! guards it belongs to the surrounding process.

use vstd::prelude::*;

use crate::game::Game;
use vstd::string::StringExecFns;

verus! {

/// The index of the first game with the given code, or `-1` when no game
/// has it. Codes are compared exactly.
pub open spec fn game_index(games: Seq<Game>, code: Seq<char>) -> int
    decreases games.len(),
{
    if games.len() == 0 {
        -1
    } else if games[0].game_code@ == code {
        0
    } else {
        let rest = game_index(games.drop_first(), code);
        if rest == -1 {
            -1
        } else {
            1 + rest
        }
    }
}

/// When some game matches, `game_index` returns the first match.
pub proof fn lemma_game_index_found(games: Seq<Game>, code: Seq<char>, k: int)
    requires
        0 <= k < games.len(),
        games[k].game_code@ == code,
        forall|j: int| 0 <= j < k ==> games[j].game_code@ != code,
    ensures
        game_index(games, code) == k,
    decreases games.len(),
{
    if k > 0 {
        lemma_game_index_found(games.drop_first(), code, k - 1);
    }
}

/// When no game matches, `game_index` returns `-1`.
pub proof fn lemma_game_index_none(games: Seq<Game>, code: Seq<char>)
    requires
        forall|j: int| 0 <= j < games.len() ==> games[j].game_code@ != code,
    ensures
        game_index(games, code) == -1,
    decreases games.len(),
{
    if games.len() > 0 {
        lemma_game_index_none(games.drop_first(), code);
    }
}

/// What `game_index` returns always points at the first match.
pub proof fn lemma_game_index_props(games: Seq<Game>, code: Seq<char>)
    ensures
        game_index(games, code) == -1 ==> forall|j: int|
            0 <= j < games.len() ==> games[j].game_code@ != code,
        game_index(games, code) != -1 ==> {
            let k = game_index(games, code);
            &&& 0 <= k < games.len()
            &&& games[k].game_code@ == code
            &&& forall|j: int| 0 <= j < k ==> games[j].game_code@ != code
        },
    decreases games.len(),
{
    if games.len() == 0 {
    } else if games[0].game_code@ == code {
    } else {
        let rest = games.drop_first();
        lemma_game_index_props(rest, code);
        assert(forall|j: int| 0 <= j < rest.len() ==> rest[j] == games[j + 1]);
        if game_index(rest, code) == -1 {
            assert forall|j: int| 0 <= j < games.len() implies games[j].game_code@ != code by {
                if j > 0 {
                    assert(games[j] == rest[j - 1]);
                }
            }
        } else {
            let k = game_index(rest, code);
            assert(games[k + 1] == rest[k]);
            assert forall|j: int| 0 <= j < k + 1 implies games[j].game_code@ != code by {
                if j > 0 {
                    assert(games[j] == rest[j - 1]);
                }
            }
        }
    }
}

/// The key a game's snapshot is stored under in the persistence adapter's
/// blob store: `user_id/game_code.json`.
pub fn persistence_key(user_id: &str, game_code: &str) -> (r: String)
    ensures
        r@ == user_id@ + "/"@ + game_code@ + ".json"@,
{
    let mut s = user_id.to_owned();
    s.append("/");
    s.append(game_code);
    s.append(".json");
    s
}

/// All games in the process, looked up by their codes.
pub struct Registry {
    pub games: Vec<Game>,
}

/// How a host's `CreateGame` request was resolved against the registry.
#[derive(Debug, Clone, Copy, PartialEq, Eq, Structural)]
pub enum HostEntryOutcome {
    /// A game with this code exists and already has a host attached.
    ActiveHostExists,
    /// A game with this code exists but belongs to another host.
    OwnedByOther,
    /// A game with this code exists, belongs to this host, and had no host
    /// attached: the host is now attached to the game at this index.
    Reclaimed(usize),
    /// No game with this code exists; the caller decides between loading a
    /// saved game and creating a fresh one.
    NotFound,
}

impl Registry {
    /// Every game is well-formed and no two games share a code.
    pub open spec fn wf(&self) -> bool {
        &&& forall|i: int, j: int|
            0 <= i < j < self.games@.len() ==> self.games@[i].game_code@
                != self.games@[j].game_code@
        &&& forall|i: int| 0 <= i < self.games@.len() ==> (#[trigger] self.games@[i]).wf()
    }

    /// An empty registry.
    pub fn new() -> (r: Registry)
        ensures
            r.wf(),
            r.games@.len() == 0,
    {
        Registry { games: Vec::new() }
    }

    /// The index of the game with the given code, if any.
    pub fn find(&self, game_code: &str) -> (r: Option<usize>)
        ensures
            match r {
                Some(k) => k as int == game_index(self.games@, game_code@) && k
                    < self.games@.len(),
                None => game_index(self.games@, game_code@) == -1,
            },
    {
        let mut i: usize = 0;
        while i < self.games.len()
            invariant
                i <= self.games@.len(),
                forall|j: int| 0 <= j < i ==> self.games@[j].game_code@ != game_code@,
            decreases self.games@.len() - i,
        {
            if crate::norm::str_eq(self.games[i].game_code.as_str(), game_code) {
                proof {
                    lemma_game_index_found(self.games@, game_code@, i as int);
                }
                return Some(i);
            }
            i = i + 1;
        }
        proof {
            lemma_game_index_none(self.games@, game_code@);
        }
        None
    }

    /// Add a game under its code. Fails, changing nothing, when a game with
    /// that code is already present.
    pub fn insert(&mut self, game: Game) -> (r: bool)
        requires
            old(self).wf(),
            game.wf(),
        ensures
            final(self).wf(),
            r == (game_index(old(self).games@, game.game_code@) == -1),
            r ==> final(self).games@ == old(self).games@.push(game),
            !r ==> *final(self) == *old(self),
    {
        let existing = self.find(game.game_code.as_str());
        if existing.is_some() {
            return false;
        }
        proof {
            lemma_game_index_props(self.games@, game.game_code@);
        }
        self.games.push(game);
        proof {
            assert forall|i: int, j: int|
                0 <= i < j < self.games@.len() implies self.games@[i].game_code@
                != self.games@[j].game_code@ by {
                if j == self.games@.len() - 1 {
                    assert(old(self).games@[i].game_code@ != game.game_code@);
                }
            }
        }
        true
    }

    /// Whether any game currently has a host attached; while one does, the
    /// idle-shutdown supervisor must stay cancelled.
    pub fn any_host_attached(&self) -> (r: bool)
        ensures
            r == exists|i: int| 0 <= i < self.games@.len() && (#[trigger] self.games@[i]).host_attached,
    {
        let mut i: usize = 0;
        while i < self.games.len()
            invariant
                i <= self.games@.len(),
                forall|j: int| 0 <= j < i ==> !(#[trigger] self.games@[j]).host_attached,
            decreases self.games@.len() - i,
        {
            if self.games[i].host_attached {
                return true;
            }
            i = i + 1;
        }
        false
    }

    /// Resolve a host's `CreateGame` request for `game_code`: an existing
    /// game with a live host is a conflict; one owned by another user is
    /// refused; one owned by this user with no host attached is reclaimed,
    /// attaching the host. When the code is unknown the caller proceeds to
    /// persistence.
    pub fn host_entry(&mut self, game_code: &str, user_id: &str) -> (r: HostEntryOutcome)
        requires
            old(self).wf(),
        ensures
            final(self).wf(),
            ({
                let k = game_index(old(self).games@, game_code@);
                if k == -1 {
                    r == HostEntryOutcome::NotFound && *final(self) == *old(self)
                } else {
                    let g = old(self).games@[k];
                    if g.host_attached {
                        r == HostEntryOutcome::ActiveHostExists && *final(self) == *old(self)
                    } else if g.host_user_id@ != user_id@ {
                        r == HostEntryOutcome::OwnedByOther && *final(self) == *old(self)
                    } else {
                        &&& r == HostEntryOutcome::Reclaimed(k as usize)
                        &&& final(self).games@ == old(self).games@.update(
                            k,
                            Game { host_attached: true, ..g },
                        )
                    }
                }
            }),
    {
        let k = match self.find(game_code) {
            Some(k) => k,
            None => {
                return HostEntryOutcome::NotFound;
            },
        };
        proof {
            lemma_game_index_props(self.games@, game_code@);
        }
        if self.games[k].host_attached {
            return HostEntryOutcome::ActiveHostExists;
        }
        if !crate::norm::str_eq(self.games[k].host_user_id.as_str(), user_id) {
            return HostEntryOutcome::OwnedByOther;
        }
        self.games[k].host_attached = true;
        proof {
            assert(final(self).games@ =~= old(self).games@.update(
                k as int,
                Game { host_attached: true, ..old(self).games@[k as int] },
            ));
            assert forall|i: int|
                0 <= i < self.games@.len() implies (#[trigger] self.games@[i]).wf() by {
                if i != k {
                    assert(self.games@[i] == old(self).games@[i]);
                }
            }
        }
        HostEntryOutcome::Reclaimed(k)
    }
}

} // verus!
