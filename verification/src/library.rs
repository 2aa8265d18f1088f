//! The library: what a refresh does to the launcher's state, and what the player
//! is shown of each game.

use std::collections::HashSet;

use vstd::prelude::*;
use vstd::string::*;

use crate::api::{LibraryGame, LibraryResponse};
use crate::gate;
use crate::gate::{launch_decision, LaunchDecision, OWNERSHIP_GRACE_SECS};
use crate::state;
use crate::state::{InstalledGame, LauncherState};
use crate::text;

verus! {

broadcast use vstd::std_specs::hash::group_hash_axioms;

// ---------------------------------------------------------------------------
// What a library says
// ---------------------------------------------------------------------------

/// Being a product that a copy in the library is owned of, or is no longer owned
/// of.
pub open spec fn listed(games: Seq<LibraryGame>, owned: bool) -> spec_fn(i64) -> bool {
    |id: i64|
        exists|i: int|
            0 <= i < games.len() && (#[trigger] games[i]).product_id == id && games[i].owned == owned
}

/// Whether the library answers that a product is owned: the first copy listed of
/// it decides, and a product that is not listed is not owned.
pub open spec fn says_owned(games: Seq<LibraryGame>, product_id: i64) -> bool {
    exists|i: int|
        {
            &&& 0 <= i < games.len()
            &&& (#[trigger] games[i]).product_id == product_id
            &&& games[i].owned
            &&& forall|j: int| 0 <= j < i ==> (#[trigger] games[j]).product_id != product_id
        }
}

/// The set of the products of the copies that are owned, or that are no longer.
pub(crate) fn products_listed(games: &Vec<LibraryGame>, owned: bool) -> (ids: HashSet<i64>)
    ensures
        forall|id: i64| #[trigger] ids@.contains(id) <==> listed(games@, owned)(id),
{
    let mut ids: HashSet<i64> = HashSet::new();
    for i in 0..games.len()
        invariant
            forall|id: i64| #[trigger]
                ids@.contains(id) <==> listed(games@.take(i as int), owned)(id),
    {
        let ghost seen = games@.take(i as int);
        let ghost more = games@.take(i + 1);
        let ghost before = ids@;
        if games[i].owned == owned {
            ids.insert(games[i].product_id);
        }
        proof {
            assert(more =~= seen.push(games@[i as int]));
            assert forall|id: i64| #[trigger] ids@.contains(id) <==> listed(more, owned)(id) by {
                if before.contains(id) {
                    let j = choose|j: int|
                        0 <= j < seen.len() && (#[trigger] seen[j]).product_id == id
                            && seen[j].owned == owned;
                    assert(more[j] == seen[j]);
                }
                if listed(more, owned)(id) {
                    let j = choose|j: int|
                        0 <= j < more.len() && (#[trigger] more[j]).product_id == id
                            && more[j].owned == owned;
                    if j < i {
                        assert(seen[j] == more[j]);
                        assert(listed(seen, owned)(id));
                    }
                }
                if ids@.contains(id) && !before.contains(id) {
                    assert(more[i as int].product_id == id);
                }
            }
        }
    }
    assert(games@.take(games.len() as int) =~= games@);
    ids
}

/// Whether the library says that a product is owned.
pub fn owns(library: &LibraryResponse, product_id: i64) -> (yes: bool)
    ensures
        yes == says_owned(library.games@, product_id),
{
    let games = &library.games;
    for i in 0..games.len()
        invariant
            games == library.games,
            forall|j: int| 0 <= j < i ==> (#[trigger] games@[j]).product_id != product_id,
    {
        if games[i].product_id == product_id {
            assert(games@[i as int].product_id == product_id);
            return games[i].owned;
        }
    }
    false
}

/// Being a product that the library does not confirm: a copy of it is no longer
/// owned, or no copy of it is listed at all.
pub open spec fn not_confirmed(games: Seq<LibraryGame>) -> spec_fn(i64) -> bool {
    |id: i64| listed(games, false)(id) || !listed(games, true)(id)
}

/// The record of an installed game after a refresh: where the library confirms the
/// product it is confirmed at the time of the refresh, and otherwise it loses its grace.
pub open spec fn refreshed_record(
    game: InstalledGame,
    product_id: i64,
    library: Seq<LibraryGame>,
    at: i64,
) -> InstalledGame {
    if not_confirmed(library)(product_id) {
        state::answered(game, false, 0)
    } else {
        state::answered(game, true, at)
    }
}

/// The installed games after a refresh.
pub open spec fn refreshed(
    games: Map<i64, InstalledGame>,
    library: Seq<LibraryGame>,
    at: i64,
) -> Map<i64, InstalledGame> {
    games.map_entries(|id: i64, game: InstalledGame| refreshed_record(game, id, library, at))
}

/// A stray record after a refresh. It is under no product's id, so a library that
/// confirms its product does not renew its check; one that does not ends its grace.
pub open spec fn refreshed_stray(
    entry: (String, InstalledGame),
    library: Seq<LibraryGame>,
) -> (String, InstalledGame) {
    let (name, game) = entry;
    (name, refreshed_record(game, game.product_id, library, game.last_verified_at))
}

/// The stray records after a refresh.
pub open spec fn refreshed_strays(
    strays: Seq<(String, InstalledGame)>,
    library: Seq<LibraryGame>,
) -> Seq<(String, InstalledGame)> {
    strays.map_values(|entry: (String, InstalledGame)| refreshed_stray(entry, library))
}

fn refresh_strays(
    strays: &Vec<(String, InstalledGame)>,
    confirmed: &HashSet<i64>,
    sold: &HashSet<i64>,
    library: &LibraryResponse,
) -> (after: Vec<(String, InstalledGame)>)
    requires
        forall|id: i64| #[trigger] confirmed@.contains(id) <==> listed(library.games@, true)(id),
        forall|id: i64| #[trigger] sold@.contains(id) <==> listed(library.games@, false)(id),
    ensures
        after@ == refreshed_strays(strays@, library.games@),
{
    let mut after: Vec<(String, InstalledGame)> = Vec::new();
    for i in 0..strays.len()
        invariant
            forall|id: i64| #[trigger] confirmed@.contains(id) <==> listed(library.games@, true)(id),
            forall|id: i64| #[trigger] sold@.contains(id) <==> listed(library.games@, false)(id),
            after@ == refreshed_strays(strays@, library.games@).take(i as int),
    {
        let (name, game) = &strays[i];
        let mut game = game.clone();
        if sold.contains(&game.product_id) || !confirmed.contains(&game.product_id) {
            game.owned = false;
            game.last_verified_at = 0;
        } else {
            game.owned = true;
        }
        after.push((name.clone(), game));
        assert(after@ =~= refreshed_strays(strays@, library.games@).take(i + 1));
    }
    assert(after@ =~= refreshed_strays(strays@, library.games@));
    after
}

impl LauncherState {
    /// Takes over what the server's library says. Each owned game is confirmed as of
    /// now, and a game whose copy is gone, listed as sold or not listed any more, loses
    /// its grace at once, or a seller could keep playing by staying offline.
    pub fn absorb_library(&mut self, library: &LibraryResponse, at: i64)
        ensures
            final(self).wallet == Some(library.wallet),
            final(self).device_token == old(self).device_token,
            final(self).device_name == old(self).device_name,
            final(self).games@ == refreshed(old(self).games@, library.games@, at),
            final(self).strays@ == refreshed_strays(old(self).strays@, library.games@),
            old(self).wf() ==> final(self).wf(),
    {
        let confirmed = products_listed(&library.games, true);
        let sold = products_listed(&library.games, false);
        let installed = self.game_ids();
        let ghost before = self.games@;
        let ghost after = refreshed(before, library.games@, at);
        for i in 0..installed.len()
            invariant
                before == old(self).games@,
                after == refreshed(before, library.games@, at),
                forall|id: i64| #[trigger]
                    confirmed@.contains(id) <==> listed(library.games@, true)(id),
                forall|id: i64| #[trigger]
                    sold@.contains(id) <==> listed(library.games@, false)(id),
                installed@.no_duplicates(),
                installed@.to_set() == before.dom(),
                self.games@.dom() == before.dom(),
                forall|j: int|
                    0 <= j < installed@.len() ==> self.games@[#[trigger] installed@[j]] == (if j
                        < i {
                        after[installed@[j]]
                    } else {
                        before[installed@[j]]
                    }),
                self.same_beside_games(*old(self)),
        {
            let id = installed[i];
            assert(installed@.to_set().contains(id));
            if sold.contains(&id) || !confirmed.contains(&id) {
                self.answer_one(id, false, 0);
            } else {
                self.answer_one(id, true, at);
            }
            assert(self.games@.dom() =~= before.dom());
            assert(self.games@[id] == after[id]);
        }
        assert(self.games@ =~= after) by {
            assert forall|id: i64| #[trigger] before.contains_key(id) implies self.games@[id]
                == after[id] by {
                assert(installed@.to_set().contains(id));
                assert(installed@[installed@.index_of(id)] == id);
            }
        }
        self.strays = refresh_strays(&self.strays, &confirmed, &sold, library);
        self.wallet = Some(library.wallet.clone());
    }
}

// ---------------------------------------------------------------------------
// What the player is shown
// ---------------------------------------------------------------------------

/// One game as the player sees it.
#[derive(Debug, Clone, PartialEq, Eq)]
pub struct GameView {
    pub product_id: i64,
    pub title: String,
    pub tagline: Option<String>,
    pub image: Option<String>,
    pub copy_number: Option<i64>,
    /// As of the last refresh of the library.
    pub owned: bool,
    pub available_platforms: Vec<String>,
    /// Is there a build for this machine?
    pub installable: bool,
    pub installed: bool,
    pub installed_version: i64,
    pub latest_version: i64,
    pub update_available: bool,
    pub playable: bool,
    /// Why the game cannot be played, in words meant for a person.
    pub blocked_reason: Option<String>,
    pub install_dir: Option<String>,
}

/// The launcher as the player sees it without asking the server.
#[derive(Debug, PartialEq, Eq)]
pub struct Status {
    pub paired: bool,
    pub wallet: Option<String>,
    pub device_name: Option<String>,
    pub platform: String,
    pub games: Vec<GameView>,
}

/// What a player is told of a build with nothing runnable in it.
pub open spec fn nothing_runnable_message() -> Seq<char> {
    "No runnable file was found in this build."@
}

/// What a player is told of a game without a build for their platform.
pub open spec fn no_build_message(platform: Seq<char>) -> Seq<char> {
    "No "@ + platform + " build has been uploaded for this game yet."@
}

/// Why a game cannot be played, if there is a reason: what the resale gate says comes
/// first, then that nothing in the installed build runs, then that there is no
/// build for the platform.
pub open spec fn reason(
    ruling: gate::Ruling,
    installed: bool,
    has_exe: bool,
    installable: bool,
    platform: Seq<char>,
) -> Option<Seq<char>> {
    match ruling {
        gate::Ruling::Blocked(message) => Some(message),
        gate::Ruling::NeedsVerification(message) => Some(message),
        gate::Ruling::Allow => if installed && !has_exe {
            Some(nothing_runnable_message())
        } else if !installable {
            Some(no_build_message(platform))
        } else {
            None
        },
    }
}

fn reason_for(
    decision: &LaunchDecision,
    installed: bool,
    has_exe: bool,
    installable: bool,
    platform: &str,
) -> (why: Option<String>)
    ensures
        text::text_in(why) == reason(decision@, installed, has_exe, installable, platform@),
{
    match decision {
        LaunchDecision::Blocked(message) => Some((*message).to_owned()),
        LaunchDecision::NeedsVerification(message) => Some((*message).to_owned()),
        LaunchDecision::Allow => {
            if installed && !has_exe {
                Some("No runnable file was found in this build.".to_owned())
            } else if !installable {
                Some(
                    "No ".to_owned().concat(platform).concat(
                        " build has been uploaded for this game yet.",
                    ),
                )
            } else {
                None
            }
        },
    }
}

fn is_allowed(decision: &LaunchDecision) -> (yes: bool)
    ensures
        yes == (decision@ == gate::Ruling::Allow),
{
    match decision {
        LaunchDecision::Allow => true,
        _ => false,
    }
}

/// `view` shows an installed game from what is on disk alone.
pub open spec fn shows_offline(
    view: GameView,
    game: InstalledGame,
    platform: Seq<char>,
    now: i64,
) -> bool {
    let ruling = gate::ruling(
        None,
        game.last_verified_at as int,
        now as int,
        OWNERSHIP_GRACE_SECS as int,
    );
    &&& view.product_id == game.product_id
    &&& view.title@ == game.title@
    &&& view.tagline is None
    &&& view.image is None
    &&& view.copy_number is None
    &&& view.owned == game.owned
    &&& text::texts(view.available_platforms@) == seq![platform]
    &&& view.installable
    &&& view.installed
    &&& view.installed_version == game.build_version
    &&& view.latest_version == game.build_version
    &&& !view.update_available
    &&& view.playable == (ruling == gate::Ruling::Allow && game.exe_path is Some)
    &&& text::text_in(view.blocked_reason) == reason(
        ruling,
        true,
        game.exe_path is Some,
        true,
        platform,
    )
    &&& text::text_in(view.install_dir) == Some(game.install_dir@)
}

/// One installed game from what is on disk alone, with no live answer on its
/// ownership.
pub fn offline_view(game: &InstalledGame, platform: &str, now: i64) -> (view: GameView)
    ensures
        shows_offline(view, *game, platform@, now),
{
    let decision = launch_decision(None, game.last_verified_at, now, OWNERSHIP_GRACE_SECS);
    let has_exe = game.exe_path.is_some();
    let mut platforms: Vec<String> = Vec::new();
    platforms.push(platform.to_owned());
    let view = GameView {
        product_id: game.product_id,
        title: game.title.clone(),
        tagline: None,
        image: None,
        copy_number: None,
        owned: game.owned,
        available_platforms: platforms,
        installable: true,
        installed: true,
        installed_version: game.build_version,
        latest_version: game.build_version,
        update_available: false,
        playable: is_allowed(&decision) && has_exe,
        blocked_reason: reason_for(&decision, true, has_exe, true, platform),
        install_dir: Some(game.install_dir.clone()),
    };
    assert(text::texts(view.available_platforms@) =~= seq![platform@]);
    view
}

/// `views` shows each of the installed games once, in the order `ids`, and then the
/// stray records.
pub open spec fn shows_all_offline(
    views: Seq<GameView>,
    games: Map<i64, InstalledGame>,
    strays: Seq<(String, InstalledGame)>,
    ids: Seq<i64>,
    platform: Seq<char>,
    now: i64,
) -> bool {
    &&& ids.no_duplicates()
    &&& ids.to_set() == games.dom()
    &&& views.len() == ids.len() + strays.len()
    &&& forall|i: int|
        0 <= i < ids.len() ==> shows_offline(#[trigger] views[i], games[ids[i]], platform, now)
    &&& forall|i: int|
        ids.len() <= i < views.len() ==> shows_offline(
            #[trigger] views[i],
            strays[i - ids.len()].1,
            platform,
            now,
        )
}

/// `status` shows what the launcher knows without asking the server.
pub open spec fn shows_status(
    status: Status,
    state: LauncherState,
    platform: Seq<char>,
    now: i64,
) -> bool {
    &&& status.paired == state.device_token is Some
    &&& status.wallet == state.wallet
    &&& status.device_name == state.device_name
    &&& status.platform@ == platform
    &&& exists|ids: Seq<i64>| #[trigger]
        shows_all_offline(status.games@, state.games@, state.strays@, ids, platform, now)
}

/// What the launcher knows without asking the server. The games come in no
/// particular order.
pub fn offline_status(state: &LauncherState, platform: &str, now: i64) -> (status: Status)
    ensures
        shows_status(status, *state, platform@, now),
{
    let ids = state.game_ids();
    let mut views: Vec<GameView> = Vec::new();
    for i in 0..ids.len()
        invariant
            ids@.to_set() == state.games@.dom(),
            views.len() == i,
            forall|j: int|
                0 <= j < i ==> shows_offline(
                    #[trigger] views@[j],
                    state.games@[ids@[j]],
                    platform@,
                    now,
                ),
    {
        assert(ids@.to_set().contains(ids@[i as int]));
        if let Some(game) = state.get(ids[i]) {
            views.push(offline_view(game, platform, now));
        }
    }
    for i in 0..state.strays.len()
        invariant
            views.len() == ids.len() + i,
            forall|j: int|
                0 <= j < ids.len() ==> shows_offline(
                    #[trigger] views@[j],
                    state.games@[ids@[j]],
                    platform@,
                    now,
                ),
            forall|j: int|
                ids.len() <= j < views.len() ==> shows_offline(
                    #[trigger] views@[j],
                    state.strays@[j - ids.len()].1,
                    platform@,
                    now,
                ),
    {
        let (_, game) = &state.strays[i];
        views.push(offline_view(game, platform, now));
    }
    let status = Status {
        paired: state.is_paired(),
        wallet: text::copy_of(&state.wallet),
        device_name: text::copy_of(&state.device_name),
        platform: platform.to_owned(),
        games: views,
    };
    assert(shows_all_offline(
        status.games@,
        state.games@,
        state.strays@,
        ids@,
        platform@,
        now,
    ));
    status
}

/// The record of a product among the installed games.
pub open spec fn record_of(games: Map<i64, InstalledGame>, product_id: i64) -> Option<
    InstalledGame,
> {
    if games.contains_key(product_id) {
        Some(games[product_id])
    } else {
        None
    }
}

/// `view` shows a game of the library, of which `local` is the record on disk.
pub open spec fn shows(
    view: GameView,
    game: LibraryGame,
    local: Option<InstalledGame>,
    platform: Seq<char>,
    at: i64,
) -> bool {
    let installed = local is Some;
    let has_exe = local is Some && local->0.exe_path is Some;
    let installed_version: i64 = if local is Some {
        local->0.build_version
    } else {
        0
    };
    let last_verified_at: int = if local is Some {
        local->0.last_verified_at as int
    } else {
        0
    };
    let installable = text::texts(game.platforms@).contains(platform);
    let ruling = gate::ruling(
        Some(game.owned),
        last_verified_at,
        at as int,
        OWNERSHIP_GRACE_SECS as int,
    );
    &&& view.product_id == game.product_id
    &&& view.title@ == game.title@
    &&& view.tagline == game.tagline
    &&& view.image == game.image
    &&& view.copy_number == game.copy_number
    &&& view.owned == game.owned
    &&& text::texts(view.available_platforms@) == text::texts(game.platforms@)
    &&& view.installable == installable
    &&& view.installed == installed
    &&& view.installed_version == installed_version
    &&& view.latest_version == game.build_version
    &&& view.update_available == (installed && game.build_version > installed_version)
    &&& view.playable == (installed && has_exe && ruling == gate::Ruling::Allow)
    &&& text::text_in(view.blocked_reason) == reason(
        ruling,
        installed,
        has_exe,
        installable,
        platform,
    )
    &&& text::text_in(view.install_dir) == (if local is Some {
        Some(local->0.install_dir@)
    } else {
        None
    })
}

/// One game of the library, beside its record on disk.
pub fn library_view(
    game: &LibraryGame,
    local: Option<&InstalledGame>,
    platform: &str,
    at: i64,
) -> (view: GameView)
    ensures
        shows(
            view,
            *game,
            (match local {
                Some(record) => Some(*record),
                None => None,
            }),
            platform@,
            at,
        ),
{
    let installable = text::one_is(&game.platforms, platform);
    let installed = local.is_some();
    let (installed_version, has_exe, last_verified_at, install_dir): (
        i64,
        bool,
        i64,
        Option<String>,
    ) = match local {
        Some(record) => (
            record.build_version,
            record.exe_path.is_some(),
            record.last_verified_at,
            Some(record.install_dir.clone()),
        ),
        None => (0, false, 0, None),
    };
    let decision = launch_decision(Some(game.owned), last_verified_at, at, OWNERSHIP_GRACE_SECS);
    GameView {
        product_id: game.product_id,
        title: game.title.clone(),
        tagline: text::copy_of(&game.tagline),
        image: text::copy_of(&game.image),
        copy_number: game.copy_number,
        owned: game.owned,
        available_platforms: text::copy_of_all(&game.platforms),
        installable,
        installed,
        installed_version,
        latest_version: game.build_version,
        update_available: installed && game.build_version > installed_version,
        playable: installed && has_exe && is_allowed(&decision),
        blocked_reason: reason_for(&decision, installed, has_exe, installable, platform),
        install_dir,
    }
}

/// The games of the library, in its order, each beside its record on disk.
pub fn library_views(
    library: &LibraryResponse,
    state: &LauncherState,
    platform: &str,
    at: i64,
) -> (views: Vec<GameView>)
    ensures
        views@.len() == library.games@.len(),
        forall|i: int|
            0 <= i < views@.len() ==> shows(
                #[trigger] views@[i],
                library.games@[i],
                record_of(state.games@, library.games@[i].product_id),
                platform@,
                at,
            ),
{
    let games = &library.games;
    let mut views: Vec<GameView> = Vec::new();
    for i in 0..games.len()
        invariant
            games == library.games,
            views.len() == i,
            forall|j: int|
                0 <= j < i ==> shows(
                    #[trigger] views@[j],
                    library.games@[j],
                    record_of(state.games@, library.games@[j].product_id),
                    platform@,
                    at,
                ),
    {
        let local = state.get(games[i].product_id);
        views.push(library_view(&games[i], local, platform, at));
    }
    views
}

// ---------------------------------------------------------------------------
// Laws
// ---------------------------------------------------------------------------

/// A refresh drops no record, adds none, and of a record changes nothing but the answer
/// and the time of the last check; a game that the library does not list is not owned
/// and has no check that counts.
pub proof fn law_a_refresh_keeps_the_records(
    games: Map<i64, InstalledGame>,
    library: Seq<LibraryGame>,
    at: i64,
    product_id: i64,
)
    requires
        games.contains_key(product_id),
    ensures
        refreshed(games, library, at).dom() == games.dom(),
        refreshed(games, library, at)[product_id] == refreshed_record(
            games[product_id],
            product_id,
            library,
            at,
        ),
        !listed(library, true)(product_id) && !listed(library, false)(product_id) ==> refreshed(
            games,
            library,
            at,
        )[product_id] == state::answered(games[product_id], false, 0),
{
    assert(refreshed(games, library, at).dom() =~= games.dom());
}

/// A refresh keeps the stray records in their places, under their names.
pub proof fn law_a_refresh_keeps_the_strays(
    strays: Seq<(String, InstalledGame)>,
    library: Seq<LibraryGame>,
)
    ensures
        refreshed_strays(strays, library).len() == strays.len(),
        forall|i: int|
            0 <= i < strays.len() ==> (#[trigger] refreshed_strays(strays, library)[i]).0
                == strays[i].0,
        state::all_stray(strays) ==> state::all_stray(refreshed_strays(strays, library)),
{
    let after = refreshed_strays(strays, library);
    if state::all_stray(strays) {
        assert forall|i: int| 0 <= i < after.len() implies state::id_named(
            (#[trigger] after[i]).0@,
        ) is None by {
            assert(state::id_named(strays[i].0@) is None);
        }
    }
}

/// A copy that was sold has no grace left after the next refresh, whether the library
/// lists it as sold or lists it no more: the game does not launch offline, at any time,
/// so a seller wins nothing by pulling the cable.
pub proof fn law_a_sold_copy_loses_its_grace(
    games: Map<i64, InstalledGame>,
    library: Seq<LibraryGame>,
    at: i64,
    product_id: i64,
    now: int,
)
    requires
        games.contains_key(product_id),
        not_confirmed(library)(product_id),
    ensures
        gate::ruling(
            None,
            refreshed(games, library, at)[product_id].last_verified_at as int,
            now,
            OWNERSHIP_GRACE_SECS as int,
        ) == gate::Ruling::NeedsVerification(gate::unverified_message()),
{
}

/// What is shown from disk says of each game whether the last refresh confirmed it,
/// whatever time of its last check a launch or signing out has recorded since.
pub proof fn law_the_offline_view_tells_the_last_answer(
    view: GameView,
    games: Map<i64, InstalledGame>,
    library: Seq<LibraryGame>,
    at: i64,
    product_id: i64,
    since: i64,
    platform: Seq<char>,
    now: i64,
)
    requires
        games.contains_key(product_id),
        shows_offline(
            view,
            state::checked_at(refreshed(games, library, at)[product_id], since),
            platform,
            now,
        ),
    ensures
        view.owned == !not_confirmed(library)(product_id),
{
}

/// A game that is owned launches offline from the refresh until the grace is over,
/// and no longer.
pub proof fn law_an_owned_game_plays_offline_for_the_grace(
    games: Map<i64, InstalledGame>,
    library: Seq<LibraryGame>,
    at: i64,
    product_id: i64,
    now: int,
)
    requires
        games.contains_key(product_id),
        !not_confirmed(library)(product_id),
        at > 0,
    ensures
        gate::ruling(
            None,
            refreshed(games, library, at)[product_id].last_verified_at as int,
            now,
            OWNERSHIP_GRACE_SECS as int,
        ) == gate::Ruling::Allow <==> at <= now <= at + OWNERSHIP_GRACE_SECS,
{
}

/// What is shown without asking the server does not depend on the device token, but
/// for whether there is one: it cannot be read off what is shown.
pub proof fn law_the_status_does_not_tell_the_token(
    status: Status,
    state: LauncherState,
    other: LauncherState,
    platform: Seq<char>,
    now: i64,
)
    requires
        shows_status(status, state, platform, now),
        other.device_token is Some == state.device_token is Some,
        other.wallet == state.wallet,
        other.device_name == state.device_name,
        other.games@ == state.games@,
        other.strays@ == state.strays@,
    ensures
        shows_status(status, other, platform, now),
{
}

/// A game that is not owned is shown with the resale gate's words and cannot be played,
/// whatever is on disk.
pub proof fn law_a_sold_game_is_never_shown_as_playable(
    view: GameView,
    game: LibraryGame,
    local: Option<InstalledGame>,
    platform: Seq<char>,
    at: i64,
)
    requires
        shows(view, game, local, platform, at),
        !game.owned,
    ensures
        !view.playable,
        text::text_in(view.blocked_reason) == Some(gate::sold_message()),
{
}

/// Where the player is shown that a game can be played, no reason against it is
/// shown, unless there is no build of it for this machine.
pub proof fn law_a_playable_game_has_no_reason_against_it(
    view: GameView,
    game: LibraryGame,
    local: Option<InstalledGame>,
    platform: Seq<char>,
    at: i64,
)
    requires
        shows(view, game, local, platform, at),
        view.playable,
    ensures
        view.installed,
        view.owned,
        view.installable ==> view.blocked_reason is None,
{
}

/// The first entry of a product answers for it, and no entry is as good as a "no".
pub proof fn law_the_first_entry_answers(games: Seq<LibraryGame>, product_id: i64, i: int)
    ensures
        0 <= i < games.len() && games[i].product_id == product_id && (forall|j: int|
            0 <= j < i ==> (#[trigger] games[j]).product_id != product_id) ==> says_owned(
            games,
            product_id,
        ) == games[i].owned,
        (forall|j: int| 0 <= j < games.len() ==> (#[trigger] games[j]).product_id != product_id)
            ==> !says_owned(games, product_id),
{
}

/// What the library says of a product does not depend on the entries of other products,
/// wherever they stand.
pub proof fn law_other_products_do_not_answer(
    before: Seq<LibraryGame>,
    games: Seq<LibraryGame>,
    after: Seq<LibraryGame>,
    product_id: i64,
)
    requires
        forall|j: int| 0 <= j < before.len() ==> (#[trigger] before[j]).product_id != product_id,
        forall|j: int| 0 <= j < after.len() ==> (#[trigger] after[j]).product_id != product_id,
    ensures
        says_owned(before + games + after, product_id) == says_owned(games, product_id),
        listed(before + games + after, true)(product_id) == listed(games, true)(product_id),
        listed(before + games + after, false)(product_id) == listed(games, false)(product_id),
        not_confirmed(before + games + after)(product_id) == not_confirmed(games)(product_id),
{
    let all = before + games + after;
    let shift = before.len() as int;
    assert forall|i: int| 0 <= i < games.len() implies #[trigger] all[shift + i] == games[i] by {}
    assert forall|i: int|
        0 <= i < all.len() && (#[trigger] all[i]).product_id == product_id implies shift <= i
        < shift + games.len() && all[i] == games[i - shift] by {
        if i < shift {
            assert(all[i] == before[i]);
        } else if i >= shift + games.len() {
            assert(all[i] == after[i - shift - games.len()]);
        }
    }
    if says_owned(games, product_id) {
        let i = choose|i: int|
            {
                &&& 0 <= i < games.len()
                &&& (#[trigger] games[i]).product_id == product_id
                &&& games[i].owned
                &&& forall|j: int| 0 <= j < i ==> (#[trigger] games[j]).product_id != product_id
            };
        assert(all[shift + i].product_id == product_id);
        assert forall|j: int| 0 <= j < shift + i implies (#[trigger] all[j]).product_id
            != product_id by {
            if all[j].product_id == product_id {
                assert(games[j - shift].product_id == product_id);
            }
        }
    }
    if says_owned(all, product_id) {
        let i = choose|i: int|
            {
                &&& 0 <= i < all.len()
                &&& (#[trigger] all[i]).product_id == product_id
                &&& all[i].owned
                &&& forall|j: int| 0 <= j < i ==> (#[trigger] all[j]).product_id != product_id
            };
        assert(games[i - shift].product_id == product_id);
        assert forall|j: int| 0 <= j < i - shift implies (#[trigger] games[j]).product_id
            != product_id by {
            assert(all[shift + j].product_id != product_id);
        }
    }
    assert forall|owned: bool|
        #[trigger] listed(all, owned)(product_id) == listed(games, owned)(product_id) by {
        if listed(games, owned)(product_id) {
            let i = choose|i: int|
                0 <= i < games.len() && (#[trigger] games[i]).product_id == product_id
                    && games[i].owned == owned;
            assert(all[shift + i].product_id == product_id);
        }
        if listed(all, owned)(product_id) {
            let i = choose|i: int|
                0 <= i < all.len() && (#[trigger] all[i]).product_id == product_id && all[i].owned
                    == owned;
            assert(games[i - shift].product_id == product_id);
        }
    }
}

/// A refresh confirms an installed product that has an entry and none that is not owned,
/// whatever else the library lists before or after: it is recorded as owned, and as
/// verified at the time of the refresh. Every other product is recorded as not owned,
/// with no check that counts. Nothing else of a record changes.
pub proof fn law_a_refresh_records_the_answer(
    games: Map<i64, InstalledGame>,
    library: Seq<LibraryGame>,
    at: i64,
    product_id: i64,
)
    requires
        games.contains_key(product_id),
    ensures
        ({
            let entry = |i: int| 0 <= i < library.len() && library[i].product_id == product_id;
            let after = refreshed(games, library, at);
            &&& after.dom() == games.dom()
            &&& (exists|i: int| #[trigger] entry(i)) && (forall|i: int| #[trigger]
                entry(i) ==> library[i].owned) ==> after[product_id] == (InstalledGame {
                owned: true,
                last_verified_at: at,
                ..games[product_id]
            })
            &&& !(exists|i: int| #[trigger] entry(i)) || (exists|i: int| #[trigger]
                entry(i) && !library[i].owned) ==> after[product_id] == (InstalledGame {
                owned: false,
                last_verified_at: 0,
                ..games[product_id]
            })
        }),
{
    let entry = |i: int| 0 <= i < library.len() && library[i].product_id == product_id;
    assert(refreshed(games, library, at).dom() =~= games.dom());
    if exists|i: int| #[trigger] entry(i) {
        let i = choose|i: int| #[trigger] entry(i);
        assert(library[i].product_id == product_id);
        if exists|i: int| #[trigger] entry(i) && !library[i].owned {
            let k = choose|k: int| #[trigger] entry(k) && !library[k].owned;
            assert(library[k].product_id == product_id);
            assert(listed(library, false)(product_id));
        }
        if forall|i: int| #[trigger] entry(i) ==> library[i].owned {
            assert(library[i].owned);
            assert(listed(library, true)(product_id));
            if listed(library, false)(product_id) {
                let k = choose|k: int|
                    0 <= k < library.len() && (#[trigger] library[k]).product_id == product_id
                        && library[k].owned == false;
                assert(entry(k));
            }
        }
    } else {
        if listed(library, true)(product_id) {
            let k = choose|k: int|
                0 <= k < library.len() && (#[trigger] library[k]).product_id == product_id
                    && library[k].owned == true;
            assert(entry(k));
        }
    }
}

/// A refresh records the answer on a stray record's product too, but renews no check of it:
/// the check stays where the product is confirmed, and is taken where it is not.
pub proof fn law_a_refresh_records_the_answer_on_strays(
    strays: Seq<(String, InstalledGame)>,
    library: Seq<LibraryGame>,
    k: int,
)
    requires
        0 <= k < strays.len(),
    ensures
        ({
            let entry = |i: int|
                0 <= i < library.len() && library[i].product_id == strays[k].1.product_id;
            let after = refreshed_strays(strays, library)[k];
            &&& after.0 == strays[k].0
            &&& (exists|i: int| #[trigger] entry(i)) && (forall|i: int| #[trigger]
                entry(i) ==> library[i].owned) ==> after.1 == (InstalledGame {
                owned: true,
                ..strays[k].1
            })
            &&& !(exists|i: int| #[trigger] entry(i)) || (exists|i: int| #[trigger]
                entry(i) && !library[i].owned) ==> after.1 == (InstalledGame {
                owned: false,
                last_verified_at: 0,
                ..strays[k].1
            })
        }),
{
    let game = strays[k].1;
    let games = Map::<i64, InstalledGame>::empty().insert(game.product_id, game);
    law_a_refresh_records_the_answer(games, library, game.last_verified_at, game.product_id);
    let entry = |i: int| 0 <= i < library.len() && library[i].product_id == game.product_id;
    let other = |i: int| 0 <= i < library.len() && library[i].product_id == strays[k].1.product_id;
    assert forall|i: int| #[trigger] other(i) == entry(i) by {}
    assert forall|i: int| #[trigger] entry(i) == other(i) by {}
    assert(refreshed(games, library, game.last_verified_at)[game.product_id] == refreshed_strays(
        strays,
        library,
    )[k].1);
}

/// A game of the library is shown as the library gives it: its name, its pictures, its
/// copy, its ownership, its platforms and its newest build.
pub proof fn law_a_game_is_shown_as_it_is(
    view: GameView,
    game: LibraryGame,
    local: Option<InstalledGame>,
    platform: Seq<char>,
    at: i64,
)
    requires
        shows(view, game, local, platform, at),
    ensures
        view.product_id == game.product_id,
        view.title@ == game.title@,
        view.tagline == game.tagline,
        view.image == game.image,
        view.copy_number == game.copy_number,
        view.owned == game.owned,
        view.latest_version == game.build_version,
        view.available_platforms@.len() == game.platforms@.len(),
        forall|i: int|
            0 <= i < game.platforms@.len() ==> (#[trigger] view.available_platforms@[i])@
                == game.platforms@[i]@,
        view.installable <==> exists|i: int|
            0 <= i < game.platforms@.len() && (#[trigger] game.platforms@[i])@ == platform,
{
    let ours = text::texts(view.available_platforms@);
    let theirs = text::texts(game.platforms@);
    assert(ours.len() == view.available_platforms@.len());
    assert(theirs.len() == game.platforms@.len());
    assert forall|i: int| 0 <= i < game.platforms@.len() implies (
    #[trigger] view.available_platforms@[i])@ == game.platforms@[i]@ by {
        assert(ours[i] == theirs[i]);
    }
    if theirs.contains(platform) {
        let i = choose|i: int| 0 <= i < theirs.len() && theirs[i] == platform;
        assert(game.platforms@[i]@ == platform);
    }
    if exists|i: int| 0 <= i < game.platforms@.len() && (#[trigger] game.platforms@[i])@
        == platform {
        let i = choose|i: int|
            0 <= i < game.platforms@.len() && (#[trigger] game.platforms@[i])@ == platform;
        assert(theirs[i] == platform);
    }
}

/// What is shown of the disk: a game is installed where there is a record of it, an update
/// is offered exactly where the library has a newer build than the record, and the game is
/// playable exactly where it is owned and its build has something to run.
pub proof fn law_a_game_is_shown_beside_its_record(
    view: GameView,
    game: LibraryGame,
    local: Option<InstalledGame>,
    platform: Seq<char>,
    at: i64,
)
    requires
        shows(view, game, local, platform, at),
    ensures
        local is None ==> !view.installed && view.installed_version == 0 && !view.update_available
            && !view.playable && view.install_dir is None,
        local matches Some(record) ==> {
            &&& view.installed
            &&& view.installed_version == record.build_version
            &&& view.update_available <==> game.build_version > record.build_version
            &&& view.playable <==> game.owned && record.exe_path is Some
            &&& view.install_dir matches Some(dir) && dir@ == record.install_dir@
        },
{
}

/// The reason shown: a copy that is not owned comes first, then a build with nothing to
/// run, then that there is no build for the platform; otherwise there is none.
pub proof fn law_the_first_reason_is_shown(
    view: GameView,
    game: LibraryGame,
    local: Option<InstalledGame>,
    platform: Seq<char>,
    at: i64,
)
    requires
        shows(view, game, local, platform, at),
    ensures
        ({
            let bare = local is Some && local->0.exe_path is None;
            let why = text::text_in(view.blocked_reason);
            &&& !game.owned ==> why == Some(
                "This copy is no longer owned by the paired wallet. It can't be launched."@,
            )
            &&& game.owned && bare ==> why == Some("No runnable file was found in this build."@)
            &&& game.owned && !bare && !view.installable ==> why == Some(
                "No "@ + platform + " build has been uploaded for this game yet."@,
            )
            &&& game.owned && !bare && view.installable ==> why is None
        }),
{
}

/// A game that is known from disk alone is shown with what its record says, as playable
/// exactly within the grace and with something to run, and with the reason where it is not.
pub proof fn law_an_installed_game_is_shown_from_its_record(
    view: GameView,
    game: InstalledGame,
    platform: Seq<char>,
    now: i64,
)
    requires
        shows_offline(view, game, platform, now),
    ensures
        view.product_id == game.product_id,
        view.title@ == game.title@,
        view.owned == game.owned,
        view.installed && view.installable && !view.update_available,
        view.installed_version == game.build_version,
        view.latest_version == game.build_version,
        view.tagline is None && view.image is None && view.copy_number is None,
        view.available_platforms@.len() == 1 && view.available_platforms@[0]@ == platform,
        view.install_dir matches Some(dir) && dir@ == game.install_dir@,
        ({
            let within = 0 < game.last_verified_at <= now <= game.last_verified_at + 72 * 3600;
            let why = text::text_in(view.blocked_reason);
            &&& view.playable <==> within && game.exe_path is Some
            &&& within && game.exe_path is Some ==> why is None
            &&& within && game.exe_path is None ==> why == Some(
                "No runnable file was found in this build."@,
            )
            &&& !within && 0 < game.last_verified_at <= now ==> why == Some(
                "It's been a while since we could check this game. Reconnect to keep playing."@,
            )
            &&& !(0 < game.last_verified_at <= now) ==> why == Some(
                "Connect to the internet once to confirm you own this game."@,
            )
        }),
{
    let shown = text::texts(view.available_platforms@);
    assert(shown.len() == view.available_platforms@.len());
    assert(shown[0] == view.available_platforms@[0]@);
}

/// The status without asking the server shows every installed game exactly once, and every
/// stray record once behind them.
pub proof fn law_the_status_shows_every_game_once(
    status: Status,
    state: LauncherState,
    platform: Seq<char>,
    now: i64,
    id: i64,
)
    requires
        shows_status(status, state, platform, now),
    ensures
        status.paired == state.device_token is Some,
        status.wallet == state.wallet,
        status.device_name == state.device_name,
        status.platform@ == platform,
        status.games@.len() == state.games@.dom().len() + state.strays@.len(),
        state.games@.contains_key(id) ==> exists|i: int|
            0 <= i < status.games@.len() && shows_offline(
                #[trigger] status.games@[i],
                state.games@[id],
                platform,
                now,
            ),
{
    let ids = choose|ids: Seq<i64>| #[trigger]
        shows_all_offline(status.games@, state.games@, state.strays@, ids, platform, now);
    ids.unique_seq_to_set();
    if state.games@.contains_key(id) {
        assert(ids.to_set().contains(id));
        let k = ids.index_of(id);
        assert(ids[k] == id);
        assert(shows_offline(status.games@[k], state.games@[id], platform, now));
    }
}

/// A product's record is the one filed under its id, if there is one.
pub proof fn law_a_product_has_the_record_under_its_id(
    games: Map<i64, InstalledGame>,
    product_id: i64,
)
    ensures
        games.contains_key(product_id) ==> record_of(games, product_id) == Some(games[product_id]),
        !games.contains_key(product_id) ==> record_of(games, product_id) is None,
{
}

} // verus!
