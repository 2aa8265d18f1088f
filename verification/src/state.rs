//! The launcher's state: the device token, the paired wallet, and what is
//! installed.

use std::collections::HashMap;

use vstd::prelude::*;

use crate::gate;
use crate::number;
use crate::text;

verus! {

broadcast use vstd::std_specs::hash::group_hash_axioms;

// ---------------------------------------------------------------------------
// The clock
// ---------------------------------------------------------------------------

/// Calls `std::time::SystemTime::elapsed` on the Unix epoch: the whole seconds
/// since then, or `None` where the clock stands before it. Nothing is claimed of
/// the answer, which depends on the time.
#[verifier::external_body]
fn clock() -> (since_epoch: Option<u64>) {
    match std::time::UNIX_EPOCH.elapsed() {
        Ok(elapsed) => Some(elapsed.as_secs()),
        Err(_) => None,
    }
}

/// Seconds since the epoch as a time stamp: a clock before the epoch reads as 0,
/// and a count beyond the largest time stamp goes on from the smallest one.
pub open spec fn timestamp_of(since_epoch: Option<u64>) -> int {
    match since_epoch {
        Some(secs) => if secs <= i64::MAX {
            secs as int
        } else {
            secs - 0x1_0000_0000_0000_0000
        },
        None => 0,
    }
}

/// The time stamp for a reading of the clock.
pub fn timestamp(since_epoch: Option<u64>) -> (at: i64)
    ensures
        at == timestamp_of(since_epoch),
{
    match since_epoch {
        Some(secs) => {
            let at = secs as i64;
            assert(secs <= 0x7fff_ffff_ffff_ffff ==> at == secs as int) by (bit_vector)
                requires
                    at == secs as i64,
            ;
            assert(secs > 0x7fff_ffff_ffff_ffff ==> at == secs - 0x1_0000_0000_0000_0000int)
                by (bit_vector)
                requires
                    at == secs as i64,
            ;
            at
        },
        None => 0,
    }
}

/// The current time in seconds since the epoch. What the clock reads decides the
/// result; [`timestamp`] says how.
pub fn now_secs() -> (now: i64) {
    timestamp(clock())
}

// ---------------------------------------------------------------------------
// What is kept
// ---------------------------------------------------------------------------

/// One game on disk.
#[derive(Debug, PartialEq, Eq)]
pub struct InstalledGame {
    pub product_id: i64,
    pub title: String,
    /// Which build is on disk. Compared with the library's build version to decide
    /// whether to offer an update.
    pub build_version: i64,
    pub install_dir: String,
    /// Relative to `install_dir`. `None` when the archive had nothing runnable.
    pub exe_path: Option<String>,
    pub installed_at: i64,
    /// Last time the server confirmed that this wallet owns a copy. Feeds the
    /// offline grace.
    pub last_verified_at: i64,
    /// What the last refresh of the library said of this game's ownership. A build is
    /// only handed to an owner, so it begins as owned; signing out leaves the answer.
    pub owned: bool,
    pub bytes: u64,
}

impl Clone for InstalledGame {
    fn clone(&self) -> (copy: Self)
        ensures
            copy == *self,
    {
        InstalledGame {
            product_id: self.product_id,
            title: self.title.clone(),
            build_version: self.build_version,
            install_dir: self.install_dir.clone(),
            exe_path: text::copy_of(&self.exe_path),
            installed_at: self.installed_at,
            last_verified_at: self.last_verified_at,
            owned: self.owned,
            bytes: self.bytes,
        }
    }
}

/// Everything that outlives a run of the launcher.
#[derive(Debug)]
pub struct LauncherState {
    /// `None` until paired. Present means signed in.
    pub device_token: Option<String>,
    pub wallet: Option<String>,
    pub device_name: Option<String>,
    /// The installed games by product id.
    pub games: HashMap<i64, InstalledGame>,
    /// Records that the file keeps under a name that is no product id. Nothing asks
    /// for them by name, but they are shown and kept.
    pub strays: Vec<(String, InstalledGame)>,
}

impl Default for LauncherState {
    fn default() -> (state: Self)
        ensures
            state.device_token is None,
            state.wallet is None,
            state.device_name is None,
            state.games@ == Map::<i64, InstalledGame>::empty(),
            state.strays@ == Seq::<(String, InstalledGame)>::empty(),
    {
        LauncherState {
            device_token: None,
            wallet: None,
            device_name: None,
            games: HashMap::new(),
            strays: Vec::new(),
        }
    }
}

fn copy_of_entries(entries: &Vec<(String, InstalledGame)>) -> (copy: Vec<(String, InstalledGame)>)
    ensures
        copy@ == entries@,
{
    let mut copy: Vec<(String, InstalledGame)> = Vec::new();
    for i in 0..entries.len()
        invariant
            copy@ == entries@.take(i as int),
    {
        let (name, game) = &entries[i];
        copy.push((name.clone(), game.clone()));
        assert(copy@ =~= entries@.take(i + 1));
    }
    assert(entries@.take(entries.len() as int) =~= entries@);
    copy
}

impl Clone for LauncherState {
    fn clone(&self) -> (copy: Self)
        ensures
            copy.device_token == self.device_token,
            copy.wallet == self.wallet,
            copy.device_name == self.device_name,
            copy.games@ == self.games@,
            copy.strays@ == self.strays@,
    {
        LauncherState {
            device_token: text::copy_of(&self.device_token),
            wallet: text::copy_of(&self.wallet),
            device_name: text::copy_of(&self.device_name),
            games: self.games.clone(),
            strays: copy_of_entries(&self.strays),
        }
    }
}

/// A game's record with another time of its last check.
pub open spec fn checked_at(game: InstalledGame, at: i64) -> InstalledGame {
    InstalledGame { last_verified_at: at, ..game }
}

/// A game's record with an answer on its ownership, and with another time of its last
/// check.
pub open spec fn answered(game: InstalledGame, owned: bool, at: i64) -> InstalledGame {
    InstalledGame { owned, last_verified_at: at, ..game }
}

/// Being one of the given product ids.
pub open spec fn among(ids: Seq<i64>) -> spec_fn(i64) -> bool {
    |id: i64| ids.contains(id)
}

/// Being the given product id.
pub open spec fn only(product_id: i64) -> spec_fn(i64) -> bool {
    |id: i64| id == product_id
}

/// Being any product id.
pub open spec fn every() -> spec_fn(i64) -> bool {
    |id: i64| true
}

/// The games with the last check of those that `which` picks set to `at`.
pub open spec fn stamped(
    games: Map<i64, InstalledGame>,
    which: spec_fn(i64) -> bool,
    at: i64,
) -> Map<i64, InstalledGame> {
    games.map_entries(
        |id: i64, game: InstalledGame|
            if which(id) {
                checked_at(game, at)
            } else {
                game
            },
    )
}

/// The entries with no check of any game that counts.
pub open spec fn without_grace(entries: Seq<(String, InstalledGame)>) -> Seq<
    (String, InstalledGame),
> {
    entries.map_values(|entry: (String, InstalledGame)| (entry.0, checked_at(entry.1, 0)))
}

/// No entry stands under the decimal form of a product id.
pub open spec fn all_stray(entries: Seq<(String, InstalledGame)>) -> bool {
    forall|i: int| 0 <= i < entries.len() ==> id_named((#[trigger] entries[i]).0@) is None
}

impl LauncherState {
    /// Each game is filed under its own product id.
    pub open spec fn wf(&self) -> bool {
        forall|id: i64| #[trigger] self.games@.contains_key(id) ==> self.games@[id].product_id == id
    }

    /// The token, the wallet and the device's name are those of `other`.
    pub open spec fn same_sign_in(&self, other: Self) -> bool {
        &&& self.device_token == other.device_token
        &&& self.wallet == other.wallet
        &&& self.device_name == other.device_name
    }

    /// Everything but the games filed by product id is as in `other`.
    pub open spec fn same_beside_games(&self, other: Self) -> bool {
        self.same_sign_in(other) && self.strays@ == other.strays@
    }

    /// Whether this computer is signed in.
    pub fn is_paired(&self) -> (yes: bool)
        ensures
            yes == self.device_token is Some,
    {
        self.device_token.is_some()
    }

    /// The device token, in whose name the server is asked.
    pub fn token(&self) -> (token: Result<String, String>)
        ensures
            match token {
                Ok(token) => self.device_token == Some(token),
                Err(message) => self.device_token is None && message@
                    == "This computer isn't paired yet."@,
            },
    {
        match &self.device_token {
            Some(token) => Ok(token.clone()),
            None => Err("This computer isn't paired yet.".to_owned()),
        }
    }

    /// The record of an installed game.
    pub fn get(&self, product_id: i64) -> (game: Option<&InstalledGame>)
        ensures
            match game {
                Some(game) => self.games@.contains_key(product_id) && *game
                    == self.games@[product_id],
                None => !self.games@.contains_key(product_id),
            },
    {
        self.games.get(&product_id)
    }

    /// Files a game's record, in place of an earlier one of the same product.
    pub fn upsert(&mut self, game: InstalledGame)
        ensures
            final(self).games@ == old(self).games@.insert(game.product_id, game),
            final(self).same_beside_games(*old(self)),
            old(self).wf() ==> final(self).wf(),
    {
        self.games.insert(game.product_id, game);
    }

    /// Drops a game's record and hands it out.
    pub fn remove(&mut self, product_id: i64) -> (game: Option<InstalledGame>)
        ensures
            final(self).games@ == old(self).games@.remove(product_id),
            match game {
                Some(game) => old(self).games@.contains_key(product_id) && game
                    == old(self).games@[product_id],
                None => !old(self).games@.contains_key(product_id),
            },
            final(self).same_beside_games(*old(self)),
            old(self).wf() ==> final(self).wf(),
    {
        self.games.remove(&product_id)
    }

    fn stamp_one(&mut self, product_id: i64, at: i64)
        ensures
            final(self).games@ == stamped(old(self).games@, only(product_id), at),
            final(self).same_beside_games(*old(self)),
    {
        if let Some(mut game) = self.games.remove(&product_id) {
            game.last_verified_at = at;
            self.games.insert(product_id, game);
        }
        assert(self.games@ =~= stamped(old(self).games@, only(product_id), at));
    }

    /// Records an answer on one game's ownership.
    pub(crate) fn answer_one(&mut self, product_id: i64, owned: bool, at: i64)
        requires
            old(self).games@.contains_key(product_id),
        ensures
            final(self).games@ == old(self).games@.insert(
                product_id,
                answered(old(self).games@[product_id], owned, at),
            ),
            final(self).same_beside_games(*old(self)),
    {
        if let Some(mut game) = self.games.remove(&product_id) {
            game.owned = owned;
            game.last_verified_at = at;
            self.games.insert(product_id, game);
        }
        assert(self.games@ =~= old(self).games@.insert(
            product_id,
            answered(old(self).games@[product_id], owned, at),
        ));
    }

    /// Records a fresh confirmation of ownership for every game that the library
    /// says is owned, so that the offline grace is measured from the last time we
    /// actually knew.
    pub fn stamp_verified(&mut self, owned_product_ids: &[i64], at: i64)
        ensures
            final(self).games@ == stamped(old(self).games@, among(owned_product_ids@), at),
            final(self).same_beside_games(*old(self)),
            old(self).wf() ==> final(self).wf(),
    {
        let ghost before = self.games@;
        for i in 0..owned_product_ids.len()
            invariant
                before == old(self).games@,
                self.games@ =~= stamped(
                    before,
                    among(owned_product_ids@.take(i as int)),
                    at,
                ),
                self.same_beside_games(*old(self)),
        {
            self.stamp_one(owned_product_ids[i], at);
            proof {
                let ids = owned_product_ids@.take(i + 1);
                assert(ids =~= owned_product_ids@.take(i as int).push(owned_product_ids@[i as int]));
                assert forall|id: i64| #[trigger] ids.contains(id) <==> owned_product_ids@.take(
                    i as int,
                ).contains(id) || id == owned_product_ids@[i as int] by {
                    if id == owned_product_ids@[i as int] {
                        assert(ids[i as int] == id);
                    }
                    if owned_product_ids@.take(i as int).contains(id) {
                        let k = owned_product_ids@.take(i as int).index_of(id);
                        assert(ids[k] == id);
                    }
                }
            }
        }
        assert(owned_product_ids@.take(owned_product_ids.len() as int) =~= owned_product_ids@);
    }

    /// The product ids of the installed games, each once, in the order in which the
    /// map is walked.
    pub fn game_ids(&self) -> (ids: Vec<i64>)
        ensures
            ids@.no_duplicates(),
            ids@.to_set() == self.games@.dom(),
    {
        let mut ids: Vec<i64> = Vec::new();
        for id in it: self.games.keys()
            invariant
                it.seq().unref().to_set() == self.games@.dom(),
                it.seq().no_duplicates(),
                ids@ == it.seq().unref().take(it.index()),
                it.index() == it.seq().len() ==> ids@.to_set() == self.games@.dom(),
        {
            ids.push(*id);
            assert(ids@ =~= it.seq().unref().take(it.index() + 1));
            assert(it.seq().unref().take(it.seq().len() as int) =~= it.seq().unref());
        }
        ids
    }

    /// Takes back the grace of every stray record.
    fn revoke_strays(&mut self)
        ensures
            final(self).strays@ == without_grace(old(self).strays@),
            final(self).games@ == old(self).games@,
            final(self).same_sign_in(*old(self)),
    {
        let mut revoked: Vec<(String, InstalledGame)> = Vec::new();
        for i in 0..self.strays.len()
            invariant
                *self == *old(self),
                revoked@ == without_grace(self.strays@).take(i as int),
        {
            let (name, game) = &self.strays[i];
            let mut game = game.clone();
            game.last_verified_at = 0;
            revoked.push((name.clone(), game));
            assert(revoked@ =~= without_grace(self.strays@).take(i + 1));
        }
        assert(revoked@ =~= without_grace(self.strays@));
        self.strays = revoked;
    }

    /// Signs this computer out. The token, the wallet and the device's name go; the
    /// records of the installed games stay, since their files are still on disk,
    /// but ownership must be proved again after the next pairing.
    pub fn sign_out(&mut self)
        ensures
            final(self).device_token is None,
            final(self).wallet is None,
            final(self).device_name is None,
            final(self).games@ == stamped(old(self).games@, every(), 0),
            final(self).strays@ == without_grace(old(self).strays@),
            old(self).wf() ==> final(self).wf(),
    {
        self.device_token = None;
        self.wallet = None;
        self.device_name = None;
        let ids = self.game_ids();
        self.stamp_verified(ids.as_slice(), 0);
        self.revoke_strays();
        assert(self.games@ =~= stamped(old(self).games@, every(), 0)) by {
            assert forall|id: i64| old(self).games@.contains_key(id) implies ids@.contains(id) by {
                assert(ids@.to_set().contains(id));
            }
        }
    }

    /// Takes back the grace of one game, so that it does not launch again before
    /// the server says that it is owned.
    pub fn revoke_grace(&mut self, product_id: i64)
        ensures
            final(self).games@ == stamped(old(self).games@, only(product_id), 0),
            final(self).same_beside_games(*old(self)),
            old(self).wf() ==> final(self).wf(),
    {
        self.stamp_one(product_id, 0);
    }
}

// ---------------------------------------------------------------------------
// Saving and loading
// ---------------------------------------------------------------------------

/// The state as its file keeps it.
#[derive(Debug, PartialEq, Eq)]
pub struct SavedState {
    pub device_token: Option<String>,
    pub wallet: Option<String>,
    pub device_name: Option<String>,
    /// The installed games, each under its product id in decimal: the names in a JSON
    /// object are strings.
    pub games: Vec<(String, InstalledGame)>,
}

/// The entries of a file with their names as text.
pub open spec fn keyed(entries: Seq<(String, InstalledGame)>) -> Seq<(Seq<char>, InstalledGame)> {
    entries.map_values(|entry: (String, InstalledGame)| (entry.0@, entry.1))
}

/// The product id that a name is the decimal form of, if it is that of one.
pub open spec fn id_named(name: Seq<char>) -> Option<i64> {
    if exists|id: i64| #[trigger] number::decimal_of(id as int) == name {
        Some(choose|id: i64| #[trigger] number::decimal_of(id as int) == name)
    } else {
        None
    }
}

/// The games that the entries of a file hold under product ids. Of two under one name
/// the later counts.
pub open spec fn games_in(entries: Seq<(Seq<char>, InstalledGame)>) -> Map<i64, InstalledGame>
    decreases entries.len(),
{
    if entries.len() == 0 {
        Map::empty()
    } else {
        let before = games_in(entries.drop_last());
        match id_named(entries.last().0) {
            Some(id) => before.insert(id, entries.last().1),
            None => before,
        }
    }
}

/// The entries of a file whose names are no product ids, in their order.
pub open spec fn strays_in(entries: Seq<(Seq<char>, InstalledGame)>) -> Seq<
    (Seq<char>, InstalledGame),
>
    decreases entries.len(),
{
    if entries.len() == 0 {
        Seq::empty()
    } else {
        let before = strays_in(entries.drop_last());
        match id_named(entries.last().0) {
            Some(_) => before,
            None => before.push(entries.last()),
        }
    }
}

/// The entries hold each of the games once, under its product id, in the order `ids`.
pub open spec fn holds_games(
    entries: Seq<(Seq<char>, InstalledGame)>,
    games: Map<i64, InstalledGame>,
    ids: Seq<i64>,
) -> bool {
    &&& ids.no_duplicates()
    &&& ids.to_set() == games.dom()
    &&& entries.len() == ids.len()
    &&& forall|i: int|
        0 <= i < entries.len() ==> (#[trigger] entries[i]) == (
            number::decimal_of(ids[i] as int),
            games[ids[i]],
        )
}

/// The entries hold each of the games once, in the order `ids`, and then the strays.
pub open spec fn holds_all(
    entries: Seq<(Seq<char>, InstalledGame)>,
    games: Map<i64, InstalledGame>,
    strays: Seq<(Seq<char>, InstalledGame)>,
    ids: Seq<i64>,
) -> bool {
    exists|filed: Seq<(Seq<char>, InstalledGame)>| #[trigger]
        holds_games(filed, games, ids) && entries == filed + strays
}

impl SavedState {
    /// The file keeps everything of `state`.
    pub open spec fn keeps(&self, state: LauncherState) -> bool {
        &&& self.device_token == state.device_token
        &&& self.wallet == state.wallet
        &&& self.device_name == state.device_name
        &&& exists|ids: Seq<i64>| #[trigger]
            holds_all(keyed(self.games@), state.games@, keyed(state.strays@), ids)
    }

    /// `state` holds everything that the file keeps.
    pub open spec fn gives(&self, state: LauncherState) -> bool {
        &&& state.device_token == self.device_token
        &&& state.wallet == self.wallet
        &&& state.device_name == self.device_name
        &&& state.games@ == games_in(keyed(self.games@))
        &&& keyed(state.strays@) == strays_in(keyed(self.games@))
    }
}

/// What to write to the state's file. The games come in no particular order.
pub fn save(state: &LauncherState) -> (saved: SavedState)
    ensures
        saved.keeps(*state),
{
    let ids = state.game_ids();
    let mut games: Vec<(String, InstalledGame)> = Vec::new();
    for i in 0..ids.len()
        invariant
            ids@.to_set() == state.games@.dom(),
            games.len() == i,
            forall|j: int|
                0 <= j < i ==> (#[trigger] keyed(games@)[j]) == (
                    number::decimal_of(ids@[j] as int),
                    state.games@[ids@[j]],
                ),
    {
        assert(ids@.to_set().contains(ids@[i as int]));
        let ghost before = keyed(games@);
        if let Some(game) = state.get(ids[i]) {
            games.push((number::decimal(ids[i]), game.clone()));
        }
        assert(keyed(games@) =~= before.push(
            (number::decimal_of(ids@[i as int] as int), state.games@[ids@[i as int]]),
        ));
    }
    let ghost filed = keyed(games@);
    let mut strays = copy_of_entries(&state.strays);
    games.append(&mut strays);
    let saved = SavedState {
        device_token: text::copy_of(&state.device_token),
        wallet: text::copy_of(&state.wallet),
        device_name: text::copy_of(&state.device_name),
        games,
    };
    assert(holds_games(filed, state.games@, ids@));
    assert(keyed(saved.games@) =~= filed + keyed(state.strays@));
    assert(holds_all(keyed(saved.games@), state.games@, keyed(state.strays@), ids@));
    saved
}

fn records_from(entries: &Vec<(String, InstalledGame)>) -> (records: (
    HashMap<i64, InstalledGame>,
    Vec<(String, InstalledGame)>,
))
    ensures
        records.0@ == games_in(keyed(entries@)),
        keyed(records.1@) == strays_in(keyed(entries@)),
        all_stray(records.1@),
{
    let mut games: HashMap<i64, InstalledGame> = HashMap::new();
    let mut strays: Vec<(String, InstalledGame)> = Vec::new();
    assert(keyed(strays@) =~= Seq::empty());
    for i in 0..entries.len()
        invariant
            games@ == games_in(keyed(entries@).take(i as int)),
            keyed(strays@) == strays_in(keyed(entries@).take(i as int)),
            all_stray(strays@),
    {
        let (name, game) = &entries[i];
        let ghost upto = keyed(entries@).take(i + 1);
        let ghost before = keyed(strays@);
        assert(upto.drop_last() =~= keyed(entries@).take(i as int));
        assert(upto.last() == (name@, *game));
        match number::read_decimal(name.as_str()) {
            Some(id) => {
                proof {
                    let named = id_named(name@)->0;
                    assert(number::decimal_of(id as int) == name@);
                    number::law_decimal_tells_numbers_apart(id as int, named as int);
                }
                games.insert(id, game.clone());
            },
            None => {
                strays.push((name.clone(), game.clone()));
                assert(keyed(strays@) =~= before.push((name@, *game)));
            },
        }
    }
    assert(keyed(entries@).take(entries.len() as int) =~= keyed(entries@));
    (games, strays)
}

/// What was found in place of the state's file.
#[derive(Debug, PartialEq, Eq)]
pub enum StateFile {
    /// No file, or none that could be read.
    Missing,
    /// A file whose contents are no state.
    Corrupt,
    /// A state.
    Parsed(SavedState),
}

/// The state to start with, and whether the file is to be set aside. A corrupt
/// file must not brick the launcher: it is kept for diagnosis, and the launcher
/// starts clean; the worst case is pairing again.
pub fn load(file: StateFile) -> (loaded: (LauncherState, bool))
    ensures
        match file {
            StateFile::Parsed(saved) => saved.gives(loaded.0) && all_stray(loaded.0.strays@),
            _ => {
                &&& loaded.0.device_token is None
                &&& loaded.0.wallet is None
                &&& loaded.0.device_name is None
                &&& loaded.0.games@ == Map::<i64, InstalledGame>::empty()
                &&& loaded.0.strays@ == Seq::<(String, InstalledGame)>::empty()
            },
        },
        loaded.1 == (file is Corrupt),
{
    match file {
        StateFile::Missing => (LauncherState::default(), false),
        StateFile::Corrupt => (LauncherState::default(), true),
        StateFile::Parsed(saved) => {
            let (games, strays) = records_from(&saved.games);
            let state = LauncherState {
                device_token: saved.device_token,
                wallet: saved.wallet,
                device_name: saved.device_name,
                games,
                strays,
            };
            (state, false)
        },
    }
}

// ---------------------------------------------------------------------------
// Laws
// ---------------------------------------------------------------------------

proof fn lemma_entries_give_the_games(
    entries: Seq<(Seq<char>, InstalledGame)>,
    games: Map<i64, InstalledGame>,
    ids: Seq<i64>,
)
    requires
        entries.len() == ids.len(),
        forall|i: int|
            0 <= i < entries.len() ==> (#[trigger] entries[i]) == (
                number::decimal_of(ids[i] as int),
                games[ids[i]],
            ),
    ensures
        games_in(entries).dom() == ids.to_set(),
        forall|id: i64| #[trigger] ids.contains(id) ==> games_in(entries)[id] == games[id],
    decreases entries.len(),
{
    if entries.len() == 0 {
        assert(games_in(entries).dom() =~= ids.to_set());
    } else {
        let shorter = ids.drop_last();
        let last = ids.last();
        assert forall|i: int| 0 <= i < entries.len() - 1 implies (
        #[trigger] entries.drop_last()[i]) == (
            number::decimal_of(shorter[i] as int),
            games[shorter[i]],
        ) by {
            assert(entries.drop_last()[i] == entries[i]);
        }
        lemma_entries_give_the_games(entries.drop_last(), games, shorter);
        assert(entries[entries.len() - 1] == (number::decimal_of(last as int), games[last]));
        let named = id_named(entries.last().0)->0;
        number::law_decimal_tells_numbers_apart(last as int, named as int);
        assert(ids =~= shorter.push(last));
        assert forall|id: i64| #[trigger] ids.contains(id) <==> shorter.contains(id) || id
            == last by {
            if shorter.contains(id) {
                assert(ids[shorter.index_of(id)] == id);
            }
            if id == last {
                assert(ids[ids.len() - 1] == id);
            }
        }
        assert(games_in(entries).dom() =~= ids.to_set());
    }
}

proof fn lemma_strays_come_after(
    filed: Seq<(Seq<char>, InstalledGame)>,
    strays: Seq<(String, InstalledGame)>,
)
    requires
        all_stray(strays),
        forall|i: int| 0 <= i < filed.len() ==> id_named((#[trigger] filed[i]).0) is Some,
    ensures
        games_in(filed + keyed(strays)) == games_in(filed),
        strays_in(filed + keyed(strays)) == keyed(strays),
    decreases filed.len() + strays.len(),
{
    let all = filed + keyed(strays);
    if strays.len() > 0 {
        lemma_strays_come_after(filed, strays.drop_last());
        assert(all.drop_last() =~= filed + keyed(strays.drop_last()));
        assert(all.last() == keyed(strays)[strays.len() - 1]);
        assert(id_named(strays[strays.len() - 1].0@) is None);
        assert(keyed(strays) =~= keyed(strays.drop_last()).push(all.last()));
    } else {
        assert(all =~= filed);
        assert(keyed(strays) =~= Seq::empty());
        if filed.len() > 0 {
            lemma_strays_come_after(filed.drop_last(), strays);
            assert(filed.drop_last() + keyed(strays) =~= filed.drop_last());
            assert(id_named(filed[filed.len() - 1].0) is Some);
        }
    }
}

/// What is loaded is what was saved: the token, the wallet, the device's name, and
/// every record with everything in it.
pub proof fn law_what_is_saved_is_loaded(
    state: LauncherState,
    saved: SavedState,
    loaded: LauncherState,
)
    requires
        saved.keeps(state),
        all_stray(state.strays@),
        saved.gives(loaded),
    ensures
        loaded.same_sign_in(state),
        loaded.games@ == state.games@,
        keyed(loaded.strays@) == keyed(state.strays@),
{
    let ids = choose|ids: Seq<i64>| #[trigger]
        holds_all(keyed(saved.games@), state.games@, keyed(state.strays@), ids);
    let filed = choose|filed: Seq<(Seq<char>, InstalledGame)>| #[trigger]
        holds_games(filed, state.games@, ids) && keyed(saved.games@) == filed + keyed(
            state.strays@,
        );
    assert forall|i: int| 0 <= i < filed.len() implies id_named((#[trigger] filed[i]).0) is Some by {
        assert(number::decimal_of(ids[i] as int) == filed[i].0);
    }
    lemma_strays_come_after(filed, state.strays@);
    lemma_entries_give_the_games(filed, state.games@, ids);
    assert forall|id: i64| #[trigger] state.games@.contains_key(id) implies loaded.games@[id]
        == state.games@[id] by {
        assert(ids.to_set().contains(id));
        assert(ids.contains(id));
    }
    assert(loaded.games@ =~= state.games@);
}

/// Taking back the grace of the stray records keeps each of them, and keeps it stray.
pub proof fn law_strays_stay_stray(strays: Seq<(String, InstalledGame)>)
    requires
        all_stray(strays),
    ensures
        all_stray(without_grace(strays)),
        without_grace(strays).len() == strays.len(),
{
}

/// Stamping drops no record, adds none, and changes nothing of a record but the
/// time of its last check, and that only where it is meant to.
pub proof fn law_stamping_changes_only_the_check(
    games: Map<i64, InstalledGame>,
    which: spec_fn(i64) -> bool,
    at: i64,
)
    ensures
        stamped(games, which, at).dom() == games.dom(),
        forall|id: i64| #[trigger]
            games.contains_key(id) ==> stamped(games, which, at)[id] == checked_at(
                games[id],
                if which(id) {
                    at
                } else {
                    games[id].last_verified_at
                },
            ),
{
    assert(stamped(games, which, at).dom() =~= games.dom());
}

/// A record that is filed is found again under its product id, and no other record
/// is touched.
pub proof fn law_what_is_filed_is_found(
    games: Map<i64, InstalledGame>,
    game: InstalledGame,
    other: i64,
)
    ensures
        games.insert(game.product_id, game).contains_key(game.product_id),
        games.insert(game.product_id, game)[game.product_id] == game,
        other != game.product_id ==> {
            &&& games.insert(game.product_id, game).contains_key(other) == games.contains_key(other)
            &&& games.insert(game.product_id, game)[other] == games[other]
        },
{
}

/// A record that is removed is not found again, filing it again brings everything
/// back, and removing it touches no other record.
pub proof fn law_what_is_removed_is_gone(
    games: Map<i64, InstalledGame>,
    product_id: i64,
    other: i64,
)
    ensures
        !games.remove(product_id).contains_key(product_id),
        games.contains_key(product_id) ==> games.remove(product_id).insert(
            product_id,
            games[product_id],
        ) == games,
        other != product_id ==> {
            &&& games.remove(product_id).contains_key(other) == games.contains_key(other)
            &&& games.contains_key(other) ==> games.remove(product_id)[other] == games[other]
        },
{
    if games.contains_key(product_id) {
        assert(games.remove(product_id).insert(product_id, games[product_id]) =~= games);
    }
}

/// Signing out keeps every record of an installed game, and after it none of them
/// launches before the server is asked again, at any time.
pub proof fn law_signing_out_keeps_records_and_ends_grace(
    games: Map<i64, InstalledGame>,
    product_id: i64,
    now: int,
)
    requires
        games.contains_key(product_id),
    ensures
        stamped(games, every(), 0).dom() == games.dom(),
        stamped(games, every(), 0)[product_id] == checked_at(games[product_id], 0),
        gate::ruling(
            None,
            stamped(games, every(), 0)[product_id].last_verified_at as int,
            now,
            gate::OWNERSHIP_GRACE_SECS as int,
        ) == gate::Ruling::NeedsVerification(gate::unverified_message()),
{
    law_stamping_changes_only_the_check(games, every(), 0);
}

/// A clock after the epoch reads as the seconds it counts, one before it as 0.
pub proof fn law_the_clock_reads_in_seconds(secs: u64)
    ensures
        secs <= i64::MAX ==> timestamp_of(Some(secs)) == secs,
        secs > i64::MAX ==> timestamp_of(Some(secs)) == secs - u64::MAX - 1,
        timestamp_of(None) == 0,
{
}

/// Confirming some products sets the last check of exactly those that are installed, and
/// leaves everything else of every record as it is.
pub proof fn law_exactly_the_named_games_are_confirmed(
    games: Map<i64, InstalledGame>,
    ids: Seq<i64>,
    at: i64,
    id: i64,
)
    requires
        games.contains_key(id),
    ensures
        stamped(games, among(ids), at).dom() == games.dom(),
        (exists|i: int| 0 <= i < ids.len() && #[trigger] ids[i] == id) ==> stamped(
            games,
            among(ids),
            at,
        )[id] == (InstalledGame { last_verified_at: at, ..games[id] }),
        (forall|i: int| 0 <= i < ids.len() ==> #[trigger] ids[i] != id) ==> stamped(
            games,
            among(ids),
            at,
        )[id] == games[id],
{
    assert(stamped(games, among(ids), at).dom() =~= games.dom());
    assert(ids.contains(id) <==> exists|i: int| 0 <= i < ids.len() && #[trigger] ids[i] == id);
}

/// Signing out takes the last check of every game, and stamping one game takes that of
/// that game alone; nothing else of any record changes.
pub proof fn law_every_game_and_one_game(
    games: Map<i64, InstalledGame>,
    product_id: i64,
    at: i64,
    id: i64,
)
    requires
        games.contains_key(id),
    ensures
        stamped(games, every(), 0).dom() == games.dom(),
        stamped(games, every(), 0)[id] == (InstalledGame { last_verified_at: 0, ..games[id] }),
        stamped(games, only(product_id), at).dom() == games.dom(),
        stamped(games, only(product_id), at)[id] == (if id == product_id {
            InstalledGame { last_verified_at: at, ..games[id] }
        } else {
            games[id]
        }),
{
    assert(stamped(games, every(), 0).dom() =~= games.dom());
    assert(stamped(games, only(product_id), at).dom() =~= games.dom());
}

/// Of a stray record signing out changes nothing but the time of the last check.
pub proof fn law_strays_lose_only_their_check(strays: Seq<(String, InstalledGame)>, i: int)
    requires
        0 <= i < strays.len(),
    ensures
        without_grace(strays).len() == strays.len(),
        without_grace(strays)[i].0 == strays[i].0,
        without_grace(strays)[i].1 == (InstalledGame { last_verified_at: 0, ..strays[i].1 }),
{
}

proof fn lemma_later_names_do_not_matter(
    entries: Seq<(Seq<char>, InstalledGame)>,
    i: int,
    id: i64,
)
    requires
        0 <= i < entries.len(),
        entries[i].0 == number::decimal_of(id as int),
        forall|j: int| i < j < entries.len() ==> (#[trigger] entries[j]).0 != entries[i].0,
    ensures
        games_in(entries).contains_key(id),
        games_in(entries)[id] == entries[i].1,
    decreases entries.len(),
{
    let last = entries.last();
    if i == entries.len() - 1 {
        let named = id_named(last.0)->0;
        assert(number::decimal_of(id as int) == last.0);
        number::law_decimal_tells_numbers_apart(id as int, named as int);
    } else {
        let shorter = entries.drop_last();
        assert forall|j: int| i < j < shorter.len() implies (#[trigger] shorter[j]).0
            != shorter[i].0 by {
            assert(entries[j].0 != entries[i].0);
        }
        lemma_later_names_do_not_matter(shorter, i, id);
        assert(entries[entries.len() - 1].0 != entries[i].0);
        if id_named(last.0) is Some {
            assert(number::decimal_of(id_named(last.0)->0 as int) == last.0);
        }
    }
}

/// A record that the file holds under a product id in decimal is the record of that
/// product, the last of them where there are several; without one the product is not
/// installed.
pub proof fn law_a_record_is_found_under_its_name(
    entries: Seq<(Seq<char>, InstalledGame)>,
    id: i64,
)
    ensures
        forall|i: int|
            #![trigger entries[i]]
            0 <= i < entries.len() && entries[i].0 == number::decimal_of(id as int) && (forall|j: int|
                i < j < entries.len() ==> (#[trigger] entries[j]).0 != entries[i].0)
                ==> games_in(entries).contains_key(id) && games_in(entries)[id] == entries[i].1,
        (forall|i: int|
            0 <= i < entries.len() ==> (#[trigger] entries[i]).0 != number::decimal_of(id as int))
            ==> !games_in(entries).contains_key(id),
    decreases entries.len(),
{
    assert forall|i: int|
        #![trigger entries[i]]
        0 <= i < entries.len() && entries[i].0 == number::decimal_of(id as int) && (forall|j: int|
            i < j < entries.len() ==> (#[trigger] entries[j]).0 != entries[i].0) implies games_in(
        entries,
    ).contains_key(id) && games_in(entries)[id] == entries[i].1 by {
        lemma_later_names_do_not_matter(entries, i, id);
    }
    if entries.len() > 0 && forall|i: int|
        0 <= i < entries.len() ==> (#[trigger] entries[i]).0 != number::decimal_of(id as int) {
        let shorter = entries.drop_last();
        assert forall|i: int| 0 <= i < shorter.len() implies (#[trigger] shorter[i]).0
            != number::decimal_of(id as int) by {
            assert(entries[i].0 != number::decimal_of(id as int));
        }
        law_a_record_is_found_under_its_name(shorter, id);
        assert(entries[entries.len() - 1].0 != number::decimal_of(id as int));
    }
}

/// A record that the file holds under any other name is kept as a stray one, and no other
/// is.
pub proof fn law_a_record_under_another_name_is_kept(
    entries: Seq<(Seq<char>, InstalledGame)>,
    entry: (Seq<char>, InstalledGame),
)
    ensures
        strays_in(entries).contains(entry) <==> entries.contains(entry) && forall|id: i64|
            #[trigger] number::decimal_of(id as int) != entry.0,
    decreases entries.len(),
{
    if entries.len() > 0 {
        let shorter = entries.drop_last();
        let last = entries.last();
        law_a_record_under_another_name_is_kept(shorter, entry);
        assert(entries =~= shorter.push(last));
        assert(entries.contains(entry) <==> shorter.contains(entry) || entry == last) by {
            if shorter.contains(entry) {
                assert(entries[shorter.index_of(entry)] == entry);
            }
            if entry == last {
                assert(entries[entries.len() - 1] == entry);
            }
        }
        let before = strays_in(shorter);
        if id_named(last.0) is None {
            assert(before.push(last).contains(entry) <==> before.contains(entry) || entry
                == last) by {
                if before.contains(entry) {
                    assert(before.push(last)[before.index_of(entry)] == entry);
                }
                if entry == last {
                    assert(before.push(last)[before.len() as int] == entry);
                }
            }
        }
    }
}

/// The file holds the record of each installed game under its product id in decimal, and
/// each stray record under its name; nothing is left out and nothing is added.
pub proof fn law_the_file_holds_every_record(saved: SavedState, state: LauncherState, id: i64)
    requires
        saved.keeps(state),
    ensures
        state.games@.contains_key(id) ==> keyed(saved.games@).contains(
            (number::decimal_of(id as int), state.games@[id]),
        ),
        saved.games@.len() == state.games@.dom().len() + state.strays@.len(),
        saved.device_token == state.device_token,
        saved.wallet == state.wallet,
        saved.device_name == state.device_name,
{
    let ids = choose|ids: Seq<i64>| #[trigger]
        holds_all(keyed(saved.games@), state.games@, keyed(state.strays@), ids);
    let filed = choose|filed: Seq<(Seq<char>, InstalledGame)>| #[trigger]
        holds_games(filed, state.games@, ids) && keyed(saved.games@) == filed + keyed(
            state.strays@,
        );
    ids.unique_seq_to_set();
    assert(keyed(saved.games@).len() == saved.games@.len());
    assert(keyed(state.strays@).len() == state.strays@.len());
    if state.games@.contains_key(id) {
        assert(ids.to_set().contains(id));
        let k = ids.index_of(id);
        assert(ids[k] == id);
        assert(filed[k] == (number::decimal_of(id as int), state.games@[id]));
        assert(keyed(saved.games@)[k] == filed[k]);
    }
}

/// States that agree beside their games agree in the token, the wallet, the device's name
/// and the stray records.
pub proof fn law_agreeing_beside_the_games(state: LauncherState, other: LauncherState)
    ensures
        state.same_beside_games(other) <==> state.device_token == other.device_token
            && state.wallet == other.wallet && state.device_name == other.device_name
            && state.strays@ == other.strays@,
        state.same_sign_in(other) <==> state.device_token == other.device_token && state.wallet
            == other.wallet && state.device_name == other.device_name,
{
}

/// An entry of the file reads as the text of its name, with its record.
pub proof fn law_an_entry_reads_as_its_name_and_record(
    entries: Seq<(String, InstalledGame)>,
    i: int,
)
    requires
        0 <= i < entries.len(),
    ensures
        keyed(entries).len() == entries.len(),
        keyed(entries)[i].0 == entries[i].0@,
        keyed(entries)[i].1 == entries[i].1,
{
}

} // verus!
