//! Starting a game: the server is asked first, the resale gate decides, and the game is
//! handed what it needs for its session.

use vstd::prelude::*;
use vstd::string::*;

use crate::api::{ApiError, ApiResult, LibraryGame, LibraryResponse, Ticket};
use crate::archive;
use crate::executable;
use crate::gate;
use crate::gate::{launch_decision, LaunchDecision, OWNERSHIP_GRACE_SECS};
use crate::install::{Extraction, InstallError};
use crate::library;
use crate::number;
use crate::paths;
use crate::paths::Location;
use crate::state;
use crate::state::{InstalledGame, LauncherState};
use crate::text;

verus! {

// ---------------------------------------------------------------------------
// Errors that end a pairing
// ---------------------------------------------------------------------------

/// A device token that the server no longer recognises is dropped, rather than
/// leaving the launcher insisting that it is signed in. Any other error changes
/// nothing. Tells whether the state changed.
pub fn handle_auth_failure(state: &mut LauncherState, error: &ApiError) -> (signed_out: bool)
    ensures
        signed_out == error.revokes_pairing(),
        signed_out ==> {
            &&& final(state).device_token is None
            &&& final(state).wallet is None
            &&& final(state).device_name is None
            &&& final(state).games@ == state::stamped(old(state).games@, state::every(), 0)
            &&& final(state).strays@ == state::without_grace(old(state).strays@)
        },
        !signed_out ==> *final(state) == *old(state),
        old(state).wf() ==> final(state).wf(),
{
    if error.is_auth_failure() {
        state.sign_out();
        return true;
    }
    false
}

// ---------------------------------------------------------------------------
// The resale gate, with the server's answer
// ---------------------------------------------------------------------------

/// What the server's reply says of a product's ownership. Without a reply, because
/// this computer is not paired, or with an error in place of one, nothing is known.
pub open spec fn answer_of(reply: Option<ApiResult<LibraryResponse>>, product_id: i64) -> Option<
    bool,
> {
    match reply {
        Some(Ok(library)) => Some(library::says_owned(library.games@, product_id)),
        _ => None,
    }
}

/// What the server's reply says of a product's ownership.
pub fn ownership_answer(reply: &Option<ApiResult<LibraryResponse>>, product_id: i64) -> (answer:
    Option<bool>)
    ensures
        answer == answer_of(*reply, product_id),
{
    match reply {
        Some(Ok(library)) => Some(library::owns(library, product_id)),
        _ => None,
    }
}

/// What the resale gate decides of an installed game.
pub open spec fn ruling_on(local: InstalledGame, owned_now: Option<bool>, now: i64) -> gate::Ruling {
    gate::ruling(
        owned_now,
        local.last_verified_at as int,
        now as int,
        OWNERSHIP_GRACE_SECS as int,
    )
}

/// What the installed games become when the resale gate is asked: a blocked game loses its
/// grace, a game that the server confirms is confirmed as of now, and otherwise
/// nothing changes.
pub open spec fn after_gate(
    games: Map<i64, InstalledGame>,
    product_id: i64,
    ruling: gate::Ruling,
    owned_now: Option<bool>,
    now: i64,
) -> Map<i64, InstalledGame> {
    if ruling is Blocked {
        state::stamped(games, state::only(product_id), 0)
    } else if ruling is Allow && owned_now == Some(true) {
        state::stamped(games, state::only(product_id), now)
    } else {
        games
    }
}

/// What a launch comes to at the resale gate: the path of the executable to start, or the
/// words for the player.
pub open spec fn gate_outcome(local: InstalledGame, ruling: gate::Ruling) -> Result<
    Seq<char>,
    Seq<char>,
> {
    match ruling {
        gate::Ruling::Blocked(message) => Err(message),
        gate::Ruling::NeedsVerification(message) => Err(message),
        gate::Ruling::Allow => match local.exe_path {
            Some(exe) => Ok(exe@),
            None => Err(library::nothing_runnable_message()),
        },
    }
}

/// A reply that says that the server no longer recognises the device token.
pub open spec fn ends_pairing(reply: Option<ApiResult<LibraryResponse>>) -> bool {
    reply matches Some(Err(error)) && error.revokes_pairing()
}

/// A reply of a server that was reached but gave no answer.
pub open spec fn withholds_answer(reply: Option<ApiResult<LibraryResponse>>) -> bool {
    reply matches Some(Err(error)) && !error.means_out_of_reach()
}

/// The record that decides on a launch. The grace is for a server that cannot be asked:
/// where it was reached and gave no answer, no check from before counts.
pub open spec fn heard_record(
    local: InstalledGame,
    reply: Option<ApiResult<LibraryResponse>>,
) -> InstalledGame {
    if withholds_answer(reply) {
        state::checked_at(local, 0)
    } else {
        local
    }
}

/// What the resale gate decides on a launch once the server was asked.
pub open spec fn launch_ruling(
    product_id: i64,
    local: InstalledGame,
    reply: Option<ApiResult<LibraryResponse>>,
    now: i64,
) -> gate::Ruling {
    ruling_on(heard_record(local, reply), answer_of(reply, product_id), now)
}

/// What the installed games become when a launch is decided on: a reply that ends the
/// pairing takes every game's grace, and then the resale gate is asked.
pub open spec fn after_launch(
    games: Map<i64, InstalledGame>,
    product_id: i64,
    local: InstalledGame,
    reply: Option<ApiResult<LibraryResponse>>,
    now: i64,
) -> Map<i64, InstalledGame> {
    let answer = answer_of(reply, product_id);
    let heard = if ends_pairing(reply) {
        state::stamped(games, state::every(), 0)
    } else {
        games
    };
    after_gate(heard, product_id, launch_ruling(product_id, local, reply, now), answer, now)
}

/// What a launch comes to once the server was asked.
#[derive(Debug, PartialEq, Eq)]
pub struct Verdict {
    /// The path of the executable to start, or the words for the player.
    pub exe: Result<String, String>,
    /// Whether the launcher's state is another one now.
    pub changed: bool,
}

/// The texts that a result of strings holds.
pub open spec fn texts_in(result: Result<String, String>) -> Result<Seq<char>, Seq<char>> {
    match result {
        Ok(text) => Ok(text@),
        Err(text) => Err(text@),
    }
}

impl LauncherState {
    /// The record of the game to launch.
    pub fn game_to_launch(&self, product_id: i64) -> (local: Result<InstalledGame, String>)
        ensures
            match local {
                Ok(game) => self.games@.contains_key(product_id) && game == self.games@[product_id],
                Err(message) => !self.games@.contains_key(product_id) && message@
                    == "That game isn't installed."@,
            },
    {
        match self.get(product_id) {
            Some(game) => Ok(game.clone()),
            None => Err("That game isn't installed.".to_owned()),
        }
    }

    /// Takes a game through the resale gate. `local` is the game's record from before the
    /// server was asked.
    ///
    /// A blocked game also loses its grace, so that a later attempt offline can't
    /// sneak through.
    pub fn pass_gate(
        &mut self,
        product_id: i64,
        local: &InstalledGame,
        owned_now: Option<bool>,
        now: i64,
    ) -> (exe: Result<String, String>)
        ensures
            texts_in(exe) == gate_outcome(*local, ruling_on(*local, owned_now, now)),
            final(self).games@ == after_gate(
                old(self).games@,
                product_id,
                ruling_on(*local, owned_now, now),
                owned_now,
                now,
            ),
            final(self).same_beside_games(*old(self)),
            old(self).wf() ==> final(self).wf(),
    {
        match launch_decision(owned_now, local.last_verified_at, now, OWNERSHIP_GRACE_SECS) {
            LaunchDecision::Blocked(message) => {
                self.revoke_grace(product_id);
                Err(message.to_owned())
            },
            LaunchDecision::NeedsVerification(message) => Err(message.to_owned()),
            LaunchDecision::Allow => {
                if let Some(true) = owned_now {
                    let confirmed: Vec<i64> = vec![product_id];
                    self.stamp_verified(confirmed.as_slice(), now);
                    assert(confirmed@ =~= seq![product_id]);
                    assert(confirmed@.contains(product_id)) by {
                        assert(confirmed@[0] == product_id);
                    }
                    assert(self.games@ =~= state::stamped(
                        old(self).games@,
                        state::only(product_id),
                        now,
                    ));
                }
                match &local.exe_path {
                    Some(exe) => Ok(exe.clone()),
                    None => Err("No runnable file was found in this build.".to_owned()),
                }
            },
        }
    }

    /// Decides on a launch once the server was asked for the library. `reply` is what
    /// came of it, `None` where this computer is not paired and nobody was asked;
    /// `local` is the game's record from before.
    ///
    /// The record from before decides only where the server could not be asked. A server
    /// that was reached and gives no answer confirms nothing, and its reply that it no
    /// longer recognises the device token signs this computer out.
    pub fn decide_launch(
        &mut self,
        product_id: i64,
        local: &InstalledGame,
        reply: &Option<ApiResult<LibraryResponse>>,
        now: i64,
    ) -> (verdict: Verdict)
        ensures
            texts_in(verdict.exe) == gate_outcome(
                *local,
                launch_ruling(product_id, *local, *reply, now),
            ),
            withholds_answer(*reply) ==> texts_in(verdict.exe) == Err::<Seq<char>, Seq<char>>(
                gate::unverified_message(),
            ),
            final(self).games@ == after_launch(old(self).games@, product_id, *local, *reply, now),
            if ends_pairing(*reply) {
                &&& final(self).device_token is None
                &&& final(self).wallet is None
                &&& final(self).device_name is None
                &&& final(self).strays@ == state::without_grace(old(self).strays@)
            } else {
                final(self).same_beside_games(*old(self))
            },
            verdict.changed == (ends_pairing(*reply) || answer_of(*reply, product_id) is Some),
            !verdict.changed ==> final(self).games@ == old(self).games@,
            old(self).wf() ==> final(self).wf(),
    {
        let mut changed = false;
        let mut heard = local.clone();
        if let Some(Err(error)) = reply {
            changed = handle_auth_failure(self, error);
            if !error.is_out_of_reach() {
                heard.last_verified_at = 0;
            }
        }
        let owned_now = ownership_answer(reply, product_id);
        let exe = self.pass_gate(product_id, &heard, owned_now, now);
        Verdict { exe, changed: changed || owned_now.is_some() }
    }
}

// ---------------------------------------------------------------------------
// The game's session
// ---------------------------------------------------------------------------

/// What becomes of a launch with the server's reply to the request for a ticket:
/// the ticket, a launch as a guest, or, on a 403, the server's words.
pub open spec fn session_of(reply: Option<ApiResult<Ticket>>) -> Result<Option<Ticket>, Seq<char>> {
    match reply {
        Some(Ok(ticket)) => Ok(Some(ticket)),
        Some(Err(ApiError::Server { status, message })) => if status == 403 {
            Err(message@)
        } else {
            Ok(None)
        },
        _ => Ok(None),
    }
}

/// What becomes of a launch with the server's reply to the request for a ticket.
///
/// Offline, or when the server has a hiccup, the game still launches and runs as a
/// guest, without achievements or saves for this session. A 403 is different: the
/// copy was sold, so the launch stops.
pub fn session(reply: Option<ApiResult<Ticket>>) -> (session: Result<Option<Ticket>, String>)
    ensures
        match session {
            Ok(ticket) => session_of(reply) == Ok::<Option<Ticket>, Seq<char>>(ticket),
            Err(message) => session_of(reply) == Err::<Option<Ticket>, Seq<char>>(message@),
        },
{
    match reply {
        Some(Ok(ticket)) => Ok(Some(ticket)),
        Some(Err(ApiError::Server { status, message })) => {
            if status == 403 {
                Err(message)
            } else {
                Ok(None)
            }
        },
        _ => Ok(None),
    }
}

/// The texts of a row of environment variables.
pub open spec fn variables(env: Seq<(String, String)>) -> Seq<(Seq<char>, Seq<char>)> {
    env.map_values(|pair: (String, String)| (pair.0@, pair.1@))
}

/// The environment of a game's session.
pub open spec fn session_variables(product_id: i64, ticket: Option<Ticket>) -> Seq<
    (Seq<char>, Seq<char>),
> {
    let always = seq![
        ("DROPRATE_API"@, "https://droprate.xyz/sdk/v1"@),
        ("DROPRATE_PRODUCT"@, number::decimal_of(product_id as int)),
    ];
    match ticket {
        Some(ticket) => always.push(("DROPRATE_TICKET"@, ticket.ticket@)).push(
            ("DROPRATE_WALLET"@, ticket.wallet@),
        ),
        None => always,
    }
}

/// The environment of a game's session. A guest is told neither ticket nor wallet.
pub fn session_env(product_id: i64, ticket: Option<Ticket>) -> (env: Vec<(String, String)>)
    ensures
        variables(env@) == session_variables(product_id, ticket),
{
    let mut env: Vec<(String, String)> = Vec::new();
    env.push(("DROPRATE_API".to_owned(), "https://droprate.xyz/sdk/v1".to_owned()));
    env.push(("DROPRATE_PRODUCT".to_owned(), number::decimal(product_id)));
    let ghost given = ticket;
    if let Some(ticket) = ticket {
        env.push(("DROPRATE_TICKET".to_owned(), ticket.ticket));
        env.push(("DROPRATE_WALLET".to_owned(), ticket.wallet));
    }
    assert(variables(env@) =~= session_variables(product_id, given));
    env
}

// ---------------------------------------------------------------------------
// The executable
// ---------------------------------------------------------------------------

/// `target` is where a recorded executable lies below the install directory, or the
/// refusal of a path that leads elsewhere.
pub open spec fn is_launch_target(
    target: Result<Location, InstallError>,
    drives: bool,
    install_dir: paths::Place,
    exe_rel: Seq<char>,
) -> bool {
    match archive::entry_target(drives, install_dir, exe_rel) {
        Some(path) => target matches Ok(file) && file@ == path,
        None => target matches Err(InstallError::Io(detail)) && detail@
            == "recorded executable path is invalid"@,
    }
}

/// The file to start, on a machine that knows drives or does not.
pub fn launch_on(drives: bool, install_dir: &Location, exe_rel: &str) -> (target: Result<
    Location,
    InstallError,
>)
    ensures
        is_launch_target(target, drives, install_dir@, exe_rel@),
{
    match archive::safe_join_on(drives, install_dir, exe_rel) {
        Some(target) => Ok(target),
        None => Err(InstallError::Io("recorded executable path is invalid".to_owned())),
    }
}

/// The file to start on this machine.
pub fn launch(install_dir: &Location, exe_rel: &str) -> (target: Result<Location, InstallError>)
    ensures
        is_launch_target(target, true, install_dir@, exe_rel@) || is_launch_target(
            target,
            false,
            install_dir@,
            exe_rel@,
        ),
{
    launch_on(archive::knows_drives(), install_dir, exe_rel)
}

/// The file to start, if it is there. `present` tells whether a file exists at
/// `target`.
pub fn start_target(target: Location, present: bool) -> (start: Result<Location, InstallError>)
    ensures
        present ==> (start matches Ok(path) && path == target),
        !present ==> (start matches Err(InstallError::Io(detail)) && detail@
            == "the game's files are missing — reinstall it"@),
{
    if present {
        Ok(target)
    } else {
        Err(InstallError::Io("the game's files are missing — reinstall it".to_owned()))
    }
}

// ---------------------------------------------------------------------------
// Laws
// ---------------------------------------------------------------------------

/// A game whose copy the server says is gone does not start, however recently it
/// was verified, and whatever is on disk.
pub proof fn law_a_sold_game_does_not_start(local: InstalledGame, now: i64)
    ensures
        gate_outcome(local, ruling_on(local, Some(false), now)) == Err::<Seq<char>, Seq<char>>(
            gate::sold_message(),
        ),
{
}

/// A game that the server's library does not list does not start.
pub proof fn law_an_unlisted_game_does_not_start(
    library: LibraryResponse,
    product_id: i64,
    local: InstalledGame,
    now: i64,
)
    requires
        forall|i: int| 0 <= i < library.games@.len() ==> (#[trigger] library.games@[i]).product_id
            != product_id,
    ensures
        gate_outcome(local, launch_ruling(product_id, local, Some(Ok(library)), now)) == Err::<Seq<char>, Seq<char>>(gate::sold_message()),
{
}

/// After a launch was blocked, the game does not launch offline either, at any
/// time.
pub proof fn law_a_blocked_launch_ends_the_grace(
    games: Map<i64, InstalledGame>,
    product_id: i64,
    local: InstalledGame,
    now: i64,
    later: i64,
)
    requires
        games.contains_key(product_id),
    ensures
        ruling_on(
            after_gate(
                games,
                product_id,
                ruling_on(local, Some(false), now),
                Some(false),
                now,
            )[product_id],
            None,
            later,
        ) == gate::Ruling::NeedsVerification(gate::unverified_message()),
{
}

/// After a launch that the server confirmed, the game launches offline until the
/// grace is over.
pub proof fn law_a_confirmed_launch_renews_the_grace(
    games: Map<i64, InstalledGame>,
    product_id: i64,
    local: InstalledGame,
    now: i64,
    later: i64,
)
    requires
        games.contains_key(product_id),
        now > 0,
    ensures
        ruling_on(
            after_gate(
                games,
                product_id,
                ruling_on(local, Some(true), now),
                Some(true),
                now,
            )[product_id],
            None,
            later,
        ) == gate::Ruling::Allow <==> now <= later <= now + OWNERSHIP_GRACE_SECS,
{
}

/// Where the server answers, its answer alone decides, whatever was verified before:
/// a game with a copy that it says is owned passes, and no other one does.
pub proof fn law_a_live_answer_decides(
    library: LibraryResponse,
    product_id: i64,
    local: InstalledGame,
    now: i64,
)
    ensures
        launch_ruling(product_id, local, Some(Ok(library)), now) == (if library::says_owned(
            library.games@,
            product_id,
        ) {
            gate::Ruling::Allow
        } else {
            gate::Ruling::Blocked(gate::sold_message())
        }),
{
}

/// Where the server was reached and gave no answer, the game does not start, however
/// recently it was verified: the grace is only for a server that cannot be asked. A
/// revoked pairing is such a case.
pub proof fn law_a_reached_server_leaves_no_grace(
    product_id: i64,
    local: InstalledGame,
    reply: Option<ApiResult<LibraryResponse>>,
    now: i64,
)
    requires
        withholds_answer(reply) || ends_pairing(reply),
    ensures
        gate_outcome(local, launch_ruling(product_id, local, reply, now)) == Err::<
            Seq<char>,
            Seq<char>,
        >(gate::unverified_message()),
{
}

/// Where the server could not be asked, the grace decides: the game passes exactly from
/// the moment of its last check until the grace is over.
pub proof fn law_an_unreachable_server_leaves_the_grace(
    product_id: i64,
    local: InstalledGame,
    error: ApiError,
    now: i64,
)
    requires
        error.means_out_of_reach(),
    ensures
        launch_ruling(product_id, local, Some(Err(error)), now) == gate::Ruling::Allow <==> 0
            < local.last_verified_at <= now <= local.last_verified_at + OWNERSHIP_GRACE_SECS,
{
}

/// After a launch on which the server ended the pairing, no game launches offline, at
/// any time.
pub proof fn law_an_ended_pairing_leaves_no_grace(
    games: Map<i64, InstalledGame>,
    product_id: i64,
    local: InstalledGame,
    reply: Option<ApiResult<LibraryResponse>>,
    now: i64,
    any: i64,
    later: i64,
)
    requires
        ends_pairing(reply),
        games.contains_key(any),
    ensures
        ruling_on(after_launch(games, product_id, local, reply, now)[any], None, later)
            == gate::Ruling::NeedsVerification(gate::unverified_message()),
{
}

/// A launch without an answer from the server changes no record.
pub proof fn law_an_unanswered_launch_changes_nothing(
    games: Map<i64, InstalledGame>,
    product_id: i64,
    local: InstalledGame,
    now: i64,
)
    ensures
        after_gate(games, product_id, ruling_on(local, None, now), None, now) == games,
{
}

/// The resale gate touches no game but the one that is launched, and no record's existence.
pub proof fn law_the_gate_touches_one_game(
    games: Map<i64, InstalledGame>,
    product_id: i64,
    local: InstalledGame,
    owned_now: Option<bool>,
    now: i64,
    other: i64,
)
    requires
        other != product_id,
    ensures
        ({
            let after = after_gate(
                games,
                product_id,
                ruling_on(local, owned_now, now),
                owned_now,
                now,
            );
            &&& after.dom() == games.dom()
            &&& games.contains_key(other) ==> after[other] == games[other]
        }),
{
    state::law_stamping_changes_only_the_check(games, state::only(product_id), 0);
    state::law_stamping_changes_only_the_check(games, state::only(product_id), now);
}

/// What the player is shown of an installed game without asking the server is what a
/// launch at that moment, without an answer, comes to: it is shown as playable exactly
/// where it starts, and the reason shown is the one that the launch gives.
pub proof fn law_what_is_shown_offline_is_what_a_launch_does(
    view: library::GameView,
    game: InstalledGame,
    platform: Seq<char>,
    now: i64,
)
    requires
        library::shows_offline(view, game, platform, now),
    ensures
        match gate_outcome(game, ruling_on(game, None, now)) {
            Ok(_) => view.playable && view.blocked_reason is None,
            Err(message) => !view.playable && text::text_in(view.blocked_reason) == Some(message),
        },
{
}

/// What the player is shown of an installed game of the library is what a launch with
/// the same answer comes to.
pub proof fn law_what_is_shown_is_what_a_launch_does(
    view: library::GameView,
    game: LibraryGame,
    local: InstalledGame,
    platform: Seq<char>,
    at: i64,
)
    requires
        library::shows(view, game, Some(local), platform, at),
    ensures
        match gate_outcome(local, ruling_on(local, Some(game.owned), at)) {
            Ok(_) => view.playable,
            Err(message) => !view.playable && text::text_in(view.blocked_reason) == Some(message),
        },
{
}

/// Only a 403 stops a launch at the request for a ticket; with any other reply, or
/// none, the game starts.
pub proof fn law_only_a_403_stops_a_session(reply: Option<ApiResult<Ticket>>)
    ensures
        session_of(reply) is Err <==> (reply matches Some(Err(ApiError::Server { status, .. }))
            && status == 403),
{
}

/// The executable that an installation found can be started: its path leads to a file
/// below the install directory.
pub proof fn law_an_installed_executable_can_be_started(
    extraction: Extraction,
    platform: Seq<char>,
    exe: Seq<char>,
    install_dir: paths::Place,
    target: Result<Location, InstallError>,
)
    requires
        extraction.wf(),
        executable::is_pick(Some(exe), text::texts(extraction.written@), platform),
        is_launch_target(target, extraction.drives, install_dir, exe),
    ensures
        target is Ok,
{
    let files = text::texts(extraction.written@);
    executable::law_the_pick_may_be_the_game(files, platform, exe);
    let i = choose|i: int| 0 <= i < files.len() && files[i] == exe;
    assert(extraction.written@[i]@ == exe);
}

/// Where the server's library lists the product, its first entry for it decides the launch,
/// wherever it stands: an owned copy starts what its build has to run and is confirmed as of
/// now, a copy that is not owned is refused and loses its grace. So is a product that is
/// not listed.
pub proof fn law_the_librarys_entry_decides_the_launch(
    games: Map<i64, InstalledGame>,
    product_id: i64,
    local: InstalledGame,
    library: LibraryResponse,
    now: i64,
    i: int,
)
    requires
        games.contains_key(product_id),
    ensures
        ({
            let listed = library.games@;
            let reply = Some(Ok::<LibraryResponse, ApiError>(library));
            let outcome = gate_outcome(local, launch_ruling(product_id, local, reply, now));
            let after = after_launch(games, product_id, local, reply, now);
            let first = 0 <= i < listed.len() && listed[i].product_id == product_id && forall|j: int|
                0 <= j < i ==> (#[trigger] listed[j]).product_id != product_id;
            let absent = forall|j: int|
                0 <= j < listed.len() ==> (#[trigger] listed[j]).product_id != product_id;
            &&& first && listed[i].owned ==> {
                &&& outcome == (match local.exe_path {
                    Some(exe) => Ok::<Seq<char>, Seq<char>>(exe@),
                    None => Err("No runnable file was found in this build."@),
                })
                &&& after[product_id] == (InstalledGame {
                    last_verified_at: now,
                    ..games[product_id]
                })
            }
            &&& (first && !listed[i].owned) || absent ==> {
                &&& outcome == Err::<Seq<char>, Seq<char>>(
                    "This copy is no longer owned by the paired wallet. It can't be launched."@,
                )
                &&& after[product_id] == (InstalledGame {
                    last_verified_at: 0,
                    ..games[product_id]
                })
            }
        }),
{
    library::law_the_first_entry_answers(library.games@, product_id, i);
    state::law_every_game_and_one_game(games, product_id, now, product_id);
    state::law_every_game_and_one_game(games, product_id, 0, product_id);
}

/// Where the server could not be asked, because nobody was asked, the network failed, or
/// the server is down, the last check decides for 72 hours, and no record changes.
pub proof fn law_the_last_check_decides_while_nobody_answers(
    games: Map<i64, InstalledGame>,
    product_id: i64,
    local: InstalledGame,
    detail: String,
    status: u16,
    now: i64,
)
    requires
        status >= 500,
    ensures
        forall|reply: Option<ApiResult<LibraryResponse>>|
            (reply is None || reply == Some(
                Err::<LibraryResponse, ApiError>(ApiError::Network(detail)),
            ) || reply == Some(
                Err::<LibraryResponse, ApiError>(ApiError::Server { status, message: detail }),
            )) ==> {
                let outcome = #[trigger] gate_outcome(
                    local,
                    launch_ruling(product_id, local, reply, now),
                );
                let checked = local.last_verified_at;
                &&& 0 < checked <= now <= checked + 72 * 3600 ==> outcome == (match local.exe_path {
                    Some(exe) => Ok::<Seq<char>, Seq<char>>(exe@),
                    None => Err("No runnable file was found in this build."@),
                })
                &&& 0 < checked <= now && now > checked + 72 * 3600 ==> outcome == Err::<
                    Seq<char>,
                    Seq<char>,
                >("It's been a while since we could check this game. Reconnect to keep playing."@)
                &&& checked <= 0 || now < checked ==> outcome == Err::<Seq<char>, Seq<char>>(
                    "Connect to the internet once to confirm you own this game."@,
                )
                &&& after_launch(games, product_id, local, reply, now) == games
            },
{
}

/// Where the server was reached and refused to answer, the launch is refused however recent
/// the last check is. A refusal with 401 also takes the check of every game; any other one
/// changes no record.
pub proof fn law_a_refusal_is_no_reason_for_grace(
    games: Map<i64, InstalledGame>,
    product_id: i64,
    local: InstalledGame,
    message: String,
    status: u16,
    now: i64,
    id: i64,
)
    requires
        status < 500,
        games.contains_key(id),
    ensures
        ({
            let refused = Some(
                Err::<LibraryResponse, ApiError>(ApiError::Server { status, message }),
            );
            let garbled = Some(Err::<LibraryResponse, ApiError>(ApiError::Shape(message)));
            let words = Err::<Seq<char>, Seq<char>>(
                "Connect to the internet once to confirm you own this game."@,
            );
            &&& gate_outcome(local, launch_ruling(product_id, local, refused, now)) == words
            &&& gate_outcome(local, launch_ruling(product_id, local, garbled, now)) == words
            &&& after_launch(games, product_id, local, garbled, now) == games
            &&& status != 401 ==> after_launch(games, product_id, local, refused, now) == games
            &&& status == 401 ==> after_launch(games, product_id, local, refused, now)[id] == (
            InstalledGame { last_verified_at: 0, ..games[id] })
        }),
{
    state::law_every_game_and_one_game(games, product_id, now, id);
}

/// A ticket that the server gives is the session's; a 403 is told in the server's words.
pub proof fn law_a_ticket_is_handed_on(ticket: Ticket, message: String, status: u16)
    ensures
        session_of(Some(Ok(ticket))) == Ok::<Option<Ticket>, Seq<char>>(Some(ticket)),
        session_of(None) == Ok::<Option<Ticket>, Seq<char>>(None),
        session_of(Some(Err(ApiError::Server { status, message }))) == (if status == 403 {
            Err::<Option<Ticket>, Seq<char>>(message@)
        } else {
            Ok(None)
        }),
        session_of(Some(Err(ApiError::Network(message)))) == Ok::<Option<Ticket>, Seq<char>>(None),
        session_of(Some(Err(ApiError::Shape(message)))) == Ok::<Option<Ticket>, Seq<char>>(None),
{
}

/// Every session is told where the API is and which game it is, in decimal; a ticket adds
/// itself and its wallet behind that, and a guest is told nothing more.
pub proof fn law_a_session_is_told_who_plays(product_id: i64, ticket: Ticket)
    ensures
        ({
            let guest = session_variables(product_id, None);
            let player = session_variables(product_id, Some(ticket));
            &&& guest.len() == 2
            &&& guest[0] == ("DROPRATE_API"@, "https://droprate.xyz/sdk/v1"@)
            &&& guest[1] == ("DROPRATE_PRODUCT"@, number::decimal_of(product_id as int))
            &&& player.len() == 4
            &&& player.take(2) == guest
            &&& player[2] == ("DROPRATE_TICKET"@, ticket.ticket@)
            &&& player[3] == ("DROPRATE_WALLET"@, ticket.wallet@)
        }),
{
    let guest = session_variables(product_id, None);
    let player = session_variables(product_id, Some(ticket));
    assert(player.take(2) =~= guest);
}

/// The file that is started is the one that the recorded path leads to below the install
/// directory; a path that leads elsewhere is refused.
pub proof fn law_the_recorded_file_is_started(
    target: Result<Location, InstallError>,
    drives: bool,
    install_dir: paths::Place,
    exe_rel: Seq<char>,
)
    requires
        is_launch_target(target, drives, install_dir, exe_rel),
    ensures
        archive::entry_names(drives, exe_rel) matches Some(names) ==> (target matches Ok(file)
            && file@.base == install_dir.base && file@.names == install_dir.names + names),
        archive::entry_names(drives, exe_rel) is None ==> (target matches Err(InstallError::Io(
            detail,
        )) && detail@ == "recorded executable path is invalid"@),
{
}

/// A launch that the server answers leaves every other game's record as it is.
pub proof fn law_an_answered_launch_leaves_the_others(
    games: Map<i64, InstalledGame>,
    product_id: i64,
    local: InstalledGame,
    library: LibraryResponse,
    now: i64,
    other: i64,
)
    requires
        games.contains_key(other),
        other != product_id,
    ensures
        after_launch(games, product_id, local, Some(Ok(library)), now).dom() == games.dom(),
        after_launch(games, product_id, local, Some(Ok(library)), now)[other] == games[other],
{
    state::law_every_game_and_one_game(games, product_id, now, other);
    state::law_every_game_and_one_game(games, product_id, 0, other);
}

/// An environment variable reads as the text of its name and the text of its value, and a
/// result of strings as its text on the same side.
pub proof fn law_variables_read_as_name_and_value(
    env: Seq<(String, String)>,
    i: int,
    text: String,
)
    requires
        0 <= i < env.len(),
    ensures
        variables(env).len() == env.len(),
        variables(env)[i] == (env[i].0@, env[i].1@),
        texts_in(Ok(text)) == Ok::<Seq<char>, Seq<char>>(text@),
        texts_in(Err(text)) == Err::<Seq<char>, Seq<char>>(text@),
{
}

} // verus!
