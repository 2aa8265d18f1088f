//! The launcher's state, the library, the resale gate with the server's answer.

use droprate_launcher::api::{ApiError, LibraryGame, LibraryResponse, PairPoll, PairStart, Ticket};
use droprate_launcher::gate::OWNERSHIP_GRACE_SECS;
use droprate_launcher::install::InstallError;
use droprate_launcher::library::{library_views, offline_status, owns};
use droprate_launcher::pairing::{device_name, idle, Pairing};
use droprate_launcher::paths::Location;
use droprate_launcher::play::{
    handle_auth_failure, launch, launch_on, ownership_answer, session, session_env, start_target,
};
use droprate_launcher::state::{
    load, now_secs, save, timestamp, InstalledGame, LauncherState, SavedState, StateFile,
};

const NOW: i64 = 1_800_000_000;

fn game(product_id: i64, last_verified_at: i64) -> InstalledGame {
    InstalledGame {
        product_id,
        title: format!("Game {product_id}"),
        build_version: 3,
        install_dir: format!("/games/{product_id}"),
        exe_path: Some("bin/Game".to_string()),
        installed_at: 5,
        last_verified_at,
        owned: true,
        bytes: 9,
    }
}

/// A game that the last refresh did not confirm.
fn lost(product_id: i64) -> InstalledGame {
    let mut record = game(product_id, 0);
    record.owned = false;
    record
}

fn listed(product_id: i64, owned: bool) -> LibraryGame {
    LibraryGame {
        product_id,
        title: format!("Game {product_id}"),
        slug: None,
        tagline: Some("tag".to_string()),
        image: None,
        runtime: None,
        copy_number: Some(4),
        asset_address: None,
        owned,
        build_version: 4,
        platforms: vec!["win".to_string(), "linux".to_string()],
    }
}

fn paired() -> LauncherState {
    let mut state = LauncherState::default();
    state.device_token = Some("token".to_string());
    state.wallet = Some("wallet".to_string());
    state.device_name = Some("desk".to_string());
    state.upsert(game(7, NOW));
    state.upsert(game(8, NOW));
    state.upsert(game(9, NOW));
    state
}

fn verified(state: &LauncherState, product_id: i64) -> i64 {
    state.get(product_id).unwrap().last_verified_at
}

#[test]
fn records_are_filed_found_and_removed() {
    let mut state = LauncherState::default();
    assert!(!state.is_paired());
    assert_eq!(state.token(), Err("This computer isn't paired yet.".to_string()));
    assert_eq!(state.get(7), None);
    state.upsert(game(7, 1));
    state.upsert(game(-7, 2));
    state.upsert(game(7, 3));
    assert_eq!(state.get(7), Some(&game(7, 3)));
    assert_eq!(state.get(-7), Some(&game(-7, 2)));
    assert_eq!(state.remove(7), Some(game(7, 3)));
    assert_eq!(state.remove(7), None);
    assert_eq!(state.get(-7), Some(&game(-7, 2)));
    let mut ids = paired().game_ids();
    ids.sort();
    assert_eq!(ids, vec![7, 8, 9]);
}

#[test]
fn stamping_touches_only_the_named_games() {
    let mut state = paired();
    state.stamp_verified(&[8, 100, 8], 42);
    assert_eq!(verified(&state, 7), NOW);
    assert_eq!(state.get(8), Some(&game(8, 42)));
    assert_eq!(verified(&state, 9), NOW);
    assert_eq!(state.get(100), None);
    state.revoke_grace(9);
    assert_eq!(verified(&state, 9), 0);
    assert_eq!(state.token(), Ok("token".to_string()));
}

#[test]
fn signing_out_keeps_the_records_and_ends_the_grace() {
    let mut state = paired();
    state.sign_out();
    assert!(!state.is_paired());
    assert_eq!(state.wallet, None);
    assert_eq!(state.device_name, None);
    for id in [7, 8, 9] {
        assert_eq!(state.get(id), Some(&game(id, 0)));
        let local = state.game_to_launch(id).unwrap();
        assert!(state.pass_gate(id, &local, None, NOW).is_err());
    }
}

#[test]
fn a_copied_state_is_the_same() {
    let state = paired();
    let copy = state.clone();
    assert_eq!(copy.device_token, state.device_token);
    assert_eq!(copy.wallet, state.wallet);
    assert_eq!(copy.device_name, state.device_name);
    assert_eq!(copy.games, state.games);
}

#[test]
fn a_refresh_confirms_what_is_owned_and_ends_what_is_sold() {
    let mut state = paired();
    let library = LibraryResponse {
        wallet: "other".to_string(),
        games: vec![listed(7, true), listed(8, false), listed(100, true)],
    };
    state.absorb_library(&library, NOW + 10);
    assert_eq!(state.wallet, Some("other".to_string()));
    assert_eq!(state.device_token, Some("token".to_string()));
    assert_eq!(verified(&state, 7), NOW + 10);
    assert_eq!(verified(&state, 8), 0);
    assert_eq!(state.get(7), Some(&game(7, NOW + 10)));
    assert_eq!(state.get(8), Some(&lost(8)));
    assert_eq!(state.get(9), Some(&lost(9)));
    assert_eq!(state.get(100), None);

    // Pulling the cable afterwards wins nothing for one that was sold, whether it is
    // listed as sold or not at all.
    for later in [NOW + 10, NOW + 11, i64::MAX] {
        for sold in [8, 9] {
            let local = state.game_to_launch(sold).unwrap();
            assert_eq!(
                state.pass_gate(sold, &local, None, later),
                Err("Connect to the internet once to confirm you own this game.".to_string())
            );
        }
    }

    // What is shown from disk tells the last answer.
    for view in offline_status(&state, "linux", NOW + 11).games {
        assert_eq!(view.owned, view.product_id == 7);
        assert_eq!(view.playable, view.product_id == 7);
    }

    // Signing out is no answer: what the last refresh said is still shown.
    let mut gone = state.clone();
    gone.sign_out();
    for view in offline_status(&gone, "linux", NOW + 11).games {
        assert_eq!(view.owned, view.product_id == 7);
        assert!(!view.playable);
    }

    // A later refresh has the last word.
    let mut back = state.clone();
    let games = vec![listed(8, true)];
    back.absorb_library(&LibraryResponse { wallet: "w".to_string(), games }, NOW + 20);
    assert_eq!(back.get(7), Some(&lost(7)));
    assert_eq!(back.get(8), Some(&game(8, NOW + 20)));
    let local = state.game_to_launch(7).unwrap();
    assert_eq!(
        state.pass_gate(7, &local, None, NOW + 10 + OWNERSHIP_GRACE_SECS),
        Ok("bin/Game".to_string())
    );
    assert!(state.pass_gate(7, &local, None, NOW + 11 + OWNERSHIP_GRACE_SECS).is_err());
}

#[test]
fn one_sold_copy_of_two_ends_the_grace() {
    let mut state = paired();
    let library = LibraryResponse {
        wallet: "w".to_string(),
        games: vec![listed(7, false), listed(7, true)],
    };
    state.absorb_library(&library, NOW + 1);
    assert_eq!(verified(&state, 7), 0);
    assert!(!owns(&library, 7));
    assert!(!owns(&library, 8));
}

#[test]
fn the_library_is_shown_beside_the_disk() {
    let mut state = LauncherState::default();
    state.upsert(game(7, NOW));
    let mut bare = game(8, NOW);
    bare.exe_path = None;
    bare.build_version = 4;
    state.upsert(bare);
    let library = LibraryResponse {
        wallet: "w".to_string(),
        games: vec![listed(7, true), listed(8, true), listed(9, true), listed(7, false)],
    };

    let views = library_views(&library, &state, "linux", NOW);
    assert_eq!(views.len(), 4);
    assert!(views[0].playable && views[0].update_available && views[0].installable);
    assert_eq!(views[0].installed_version, 3);
    assert_eq!(views[0].latest_version, 4);
    assert_eq!(views[0].blocked_reason, None);
    assert_eq!(views[0].install_dir, Some("/games/7".to_string()));
    assert_eq!(views[0].tagline, Some("tag".to_string()));
    assert_eq!(views[0].copy_number, Some(4));
    assert_eq!(views[0].available_platforms, vec!["win".to_string(), "linux".to_string()]);
    assert!(!views[1].playable && !views[1].update_available && views[1].installed);
    assert_eq!(
        views[1].blocked_reason,
        Some("No runnable file was found in this build.".to_string())
    );
    assert!(!views[2].installed && !views[2].playable && !views[2].update_available);
    assert_eq!(views[2].installed_version, 0);
    assert_eq!(views[2].install_dir, None);
    assert_eq!(views[2].blocked_reason, None);
    assert!(!views[3].playable && !views[3].owned);
    assert_eq!(
        views[3].blocked_reason,
        Some("This copy is no longer owned by the paired wallet. It can't be launched.".to_string())
    );

    let on_mac = library_views(&library, &state, "mac", NOW);
    assert!(!on_mac[2].installable);
    assert_eq!(
        on_mac[2].blocked_reason,
        Some("No mac build has been uploaded for this game yet.".to_string())
    );
}

#[test]
fn the_disk_alone_shows_what_it_knows() {
    let mut state = paired();
    let mut bare = game(8, NOW);
    bare.exe_path = None;
    state.upsert(bare);
    state.revoke_grace(9);
    let status = offline_status(&state, "linux", NOW + 5);
    assert!(status.paired);
    assert_eq!(status.wallet, Some("wallet".to_string()));
    assert_eq!(status.device_name, Some("desk".to_string()));
    assert_eq!(status.platform, "linux");
    assert_eq!(status.games.len(), 3);
    for view in &status.games {
        assert!(view.installed && view.installable && !view.update_available);
        assert!(view.owned);
        assert_eq!(view.available_platforms, vec!["linux".to_string()]);
        assert_eq!(view.installed_version, 3);
        assert_eq!(view.latest_version, 3);
        assert_eq!(view.install_dir, Some(format!("/games/{}", view.product_id)));
        let why = match view.product_id {
            7 => None,
            8 => Some("No runnable file was found in this build.".to_string()),
            _ => Some("Connect to the internet once to confirm you own this game.".to_string()),
        };
        assert_eq!(view.blocked_reason, why);
        assert_eq!(view.playable, view.product_id == 7);
    }
}

#[test]
fn the_server_is_believed_before_the_grace() {
    let yes = LibraryResponse { wallet: "w".to_string(), games: vec![listed(7, true)] };
    let no = LibraryResponse { wallet: "w".to_string(), games: vec![listed(7, false)] };
    assert_eq!(ownership_answer(&Some(Ok(yes)), 7), Some(true));
    assert_eq!(ownership_answer(&Some(Ok(no)), 7), Some(false));
    let empty = LibraryResponse { wallet: "w".to_string(), games: vec![] };
    assert_eq!(ownership_answer(&Some(Ok(empty)), 7), Some(false));
    assert_eq!(ownership_answer(&Some(Err(ApiError::Network("off".to_string()))), 7), None);
    assert_eq!(ownership_answer(&None, 7), None);
}

#[test]
fn a_blocked_launch_takes_the_grace_away() {
    let mut state = paired();
    let local = state.game_to_launch(7).unwrap();
    assert_eq!(
        state.pass_gate(7, &local, Some(false), NOW + 1),
        Err("This copy is no longer owned by the paired wallet. It can't be launched.".to_string())
    );
    assert_eq!(verified(&state, 7), 0);
    assert_eq!(verified(&state, 8), NOW);
    let local = state.game_to_launch(7).unwrap();
    assert!(state.pass_gate(7, &local, None, NOW + 2).is_err());

    // A live yes brings it back, and renews the grace.
    assert_eq!(state.pass_gate(7, &local, Some(true), NOW + 3), Ok("bin/Game".to_string()));
    assert_eq!(verified(&state, 7), NOW + 3);
}

#[test]
fn a_launch_needs_a_record_and_something_to_run() {
    let mut state = paired();
    assert_eq!(state.game_to_launch(1), Err("That game isn't installed.".to_string()));
    let mut bare = game(7, NOW);
    bare.exe_path = None;
    assert_eq!(
        state.pass_gate(7, &bare, Some(true), NOW + 9),
        Err("No runnable file was found in this build.".to_string())
    );
    assert_eq!(verified(&state, 7), NOW + 9);
    // With no answer nothing changes.
    assert_eq!(state.pass_gate(7, &game(7, NOW), None, NOW), Ok("bin/Game".to_string()));
    assert_eq!(verified(&state, 7), NOW + 9);
    assert!(state.pass_gate(7, &game(7, 0), None, NOW).is_err());
    assert_eq!(verified(&state, 7), NOW + 9);
}

#[test]
fn a_launch_goes_by_the_servers_reply() {
    let library = |games: Vec<LibraryGame>| LibraryResponse { wallet: "w".to_string(), games };
    let server = |status: u16| ApiError::Server { status, message: "m".to_string() };
    let sold = "This copy is no longer owned by the paired wallet. It can't be launched.";

    let mut state = paired();
    let local = state.game_to_launch(7).unwrap();
    let verdict = state.decide_launch(7, &local, &Some(Ok(library(vec![listed(7, true)]))), NOW + 1);
    assert_eq!(verdict.exe, Ok("bin/Game".to_string()));
    assert!(verdict.changed);
    assert_eq!(verified(&state, 7), NOW + 1);
    assert_eq!(verified(&state, 8), NOW);

    let reply = Some(Ok(library(vec![listed(8, true), listed(7, false)])));
    let verdict = state.decide_launch(7, &local, &reply, NOW + 2);
    assert_eq!(verdict.exe, Err(sold.to_string()));
    assert!(verdict.changed && state.is_paired());
    assert_eq!(verified(&state, 7), 0);

    let verdict = state.decide_launch(7, &local, &Some(Ok(library(vec![]))), NOW + 2);
    assert_eq!(verdict.exe, Err(sold.to_string()));

    // Without an answer the record from before decides, and nothing changes.
    let mut state = paired();
    for reply in [
        None,
        Some(Err(ApiError::Network("off".to_string()))),
        Some(Err(server(500))),
        Some(Err(server(503))),
    ] {
        let verdict = state.decide_launch(7, &local, &reply, NOW + 3);
        assert_eq!(verdict.exe, Ok("bin/Game".to_string()));
        assert!(!verdict.changed && state.is_paired());
        assert_eq!(verified(&state, 7), NOW);
    }

    // The grace is not for a server that was reached and gives no answer. It stays for
    // the next time that the server is out of reach.
    let unconfirmed = "Connect to the internet once to confirm you own this game.";
    for error in [server(403), server(404), server(429), ApiError::Shape("eof".to_string())] {
        let verdict = state.decide_launch(7, &local, &Some(Err(error)), NOW + 3);
        assert_eq!(verdict.exe, Err(unconfirmed.to_string()));
        assert!(!verdict.changed && state.is_paired());
        assert_eq!(verified(&state, 7), NOW);
    }

    // A pairing that was revoked is over, and so is every grace.
    let verdict = state.decide_launch(7, &local, &Some(Err(server(401))), NOW + 3600);
    assert_eq!(verdict.exe, Err(unconfirmed.to_string()));
    assert!(verdict.changed && !state.is_paired());
    for id in [7, 8, 9] {
        assert_eq!(verified(&state, id), 0);
        let local = state.game_to_launch(id).unwrap();
        assert!(state.decide_launch(id, &local, &None, NOW + 4).exe.is_err());
    }
}

#[test]
fn what_is_shown_is_what_a_launch_does() {
    let mut state = paired();
    let mut bare = game(8, NOW);
    bare.exe_path = None;
    state.upsert(bare);
    state.revoke_grace(9);
    for now in [NOW - 1, NOW, NOW + OWNERSHIP_GRACE_SECS, NOW + OWNERSHIP_GRACE_SECS + 1] {
        for view in offline_status(&state, "linux", now).games {
            let local = state.game_to_launch(view.product_id).unwrap();
            let verdict = state.decide_launch(view.product_id, &local, &None, now);
            assert_eq!(view.playable, verdict.exe.is_ok());
            assert_eq!(view.blocked_reason, verdict.exe.err());
        }
    }
}

#[test]
fn what_is_shown_does_not_tell_the_token() {
    let mut state = LauncherState::default();
    state.device_token = Some("token".to_string());
    state.upsert(game(7, NOW));
    let status = offline_status(&state, "linux", NOW);
    state.device_token = Some("another".to_string());
    assert_eq!(offline_status(&state, "linux", NOW), status);
    state.device_token = None;
    assert!(!offline_status(&state, "linux", NOW).paired);
    assert_eq!(poll("paired", Some("token")).shown(), poll("paired", Some("another")).shown());
}

#[test]
fn only_a_401_ends_the_pairing() {
    let mut state = paired();
    let server = |status: u16| ApiError::Server { status, message: "m".to_string() };
    for error in [ApiError::Network("n".to_string()), ApiError::Shape("s".to_string()), server(403), server(500)] {
        assert!(!handle_auth_failure(&mut state, &error));
        assert!(state.is_paired());
        assert_eq!(verified(&state, 7), NOW);
    }
    assert!(handle_auth_failure(&mut state, &server(401)));
    assert!(!state.is_paired());
    assert_eq!(state.get(7), Some(&game(7, 0)));
}

fn ticket() -> Ticket {
    Ticket { ticket: "t".to_string(), wallet: "w".to_string(), product_id: 7, expires_at: 1 }
}

#[test]
fn a_session_without_a_ticket_is_a_guests() {
    assert_eq!(session(None), Ok(None));
    assert_eq!(session(Some(Ok(ticket()))), Ok(Some(ticket())));
    assert_eq!(session(Some(Err(ApiError::Network("n".to_string())))), Ok(None));
    let sold = ApiError::Server { status: 403, message: "sold".to_string() };
    assert_eq!(session(Some(Err(sold))), Err("sold".to_string()));
    let hiccup = ApiError::Server { status: 500, message: "oops".to_string() };
    assert_eq!(session(Some(Err(hiccup))), Ok(None));

    let pair = |a: &str, b: &str| (a.to_string(), b.to_string());
    let guest = vec![
        pair("DROPRATE_API", "https://droprate.xyz/sdk/v1"),
        pair("DROPRATE_PRODUCT", "-7"),
    ];
    assert_eq!(session_env(-7, None), guest);
    let mut known = guest;
    known.push(pair("DROPRATE_TICKET", "t"));
    known.push(pair("DROPRATE_WALLET", "w"));
    assert_eq!(session_env(-7, Some(ticket())), known);
}

#[test]
fn only_files_below_the_install_dir_are_started() {
    let dir = Location::at("/games").join("7");
    let target = dir.join("bin").join("Game");
    assert_eq!(launch(&dir, "bin/Game"), Ok(target.clone()));
    let invalid = InstallError::Io("recorded executable path is invalid".to_string());
    assert_eq!(launch(&dir, "../8/Game"), Err(invalid));
    assert!(launch_on(true, &dir, "x/C:/Game").is_err());
    assert!(launch_on(false, &dir, "x/C:/Game").is_ok());
    assert_eq!(start_target(target.clone(), true), Ok(target.clone()));
    assert_eq!(
        start_target(target, false),
        Err(InstallError::Io("the game's files are missing — reinstall it".to_string()))
    );
}

#[test]
fn the_state_survives_a_bad_file() {
    let (fresh, aside) = load(StateFile::Missing);
    assert!(!aside && !fresh.is_paired() && fresh.games.is_empty());
    let (clean, aside) = load(StateFile::Corrupt);
    assert!(aside && !clean.is_paired() && clean.games.is_empty());
    let (kept, aside) = load(StateFile::Parsed(save(&paired())));
    assert!(!aside && kept.is_paired());
}

#[test]
fn what_is_saved_is_loaded() {
    let mut state = paired();
    state.upsert(game(i64::MIN, 1));
    state.upsert(game(i64::MAX, 2));
    state.upsert(game(0, 3));
    let saved = save(&state);
    let mut names: Vec<String> = saved.games.iter().map(|(name, _)| name.clone()).collect();
    names.sort();
    assert_eq!(
        names,
        vec!["-9223372036854775808", "0", "7", "8", "9", "9223372036854775807"]
    );
    let (loaded, _) = load(StateFile::Parsed(saved));
    assert_eq!(loaded.device_token, state.device_token);
    assert_eq!(loaded.wallet, state.wallet);
    assert_eq!(loaded.device_name, state.device_name);
    assert_eq!(loaded.games, state.games);
}

#[test]
fn records_under_other_names_are_kept() {
    let entry = |name: &str, id: i64| (name.to_string(), game(id, NOW));
    let saved = SavedState {
        device_token: None,
        wallet: None,
        device_name: Some("desk".to_string()),
        games: vec![entry("7", 7), entry("x", 2), entry("8", 9), entry("07", 1)],
    };
    let (mut loaded, _) = load(StateFile::Parsed(saved));
    assert!(!loaded.is_paired());
    assert_eq!(loaded.device_name, Some("desk".to_string()));
    assert_eq!(loaded.games.len(), 2);
    assert_eq!(loaded.get(7), Some(&game(7, NOW)));
    assert_eq!(loaded.get(8), Some(&game(9, NOW)));
    assert_eq!(loaded.strays, vec![entry("x", 2), entry("07", 1)]);
    assert_eq!(loaded.clone().strays, loaded.strays);

    // They are shown, and saved again.
    let mut shown: Vec<i64> =
        offline_status(&loaded, "linux", NOW).games.iter().map(|view| view.product_id).collect();
    shown.sort();
    assert_eq!(shown, vec![1, 2, 7, 9]);
    let (again, _) = load(StateFile::Parsed(save(&loaded)));
    assert_eq!(again.games, loaded.games);
    assert_eq!(again.strays, loaded.strays);

    // No command reaches them, and they need a new proof of ownership like all others.
    loaded.upsert(game(2, 1));
    loaded.remove(1);
    loaded.stamp_verified(&[1, 2], 5);
    assert_eq!(loaded.strays, vec![entry("x", 2), entry("07", 1)]);
    let mut refreshed = loaded.clone();
    let library = |games: Vec<LibraryGame>| LibraryResponse { wallet: "w".to_string(), games };
    refreshed.absorb_library(&library(vec![listed(2, true)]), NOW + 1);
    assert_eq!(refreshed.strays, vec![entry("x", 2), ("07".to_string(), lost(1))]);
    refreshed.absorb_library(&library(vec![listed(1, true)]), NOW + 2);
    assert_eq!(
        refreshed.strays,
        vec![("x".to_string(), lost(2)), ("07".to_string(), game(1, 0))]
    );
    loaded.sign_out();
    assert_eq!(
        loaded.strays,
        vec![("x".to_string(), game(2, 0)), ("07".to_string(), game(1, 0))]
    );
}

#[test]
fn the_clock_is_read_in_seconds() {
    assert_eq!(timestamp(None), 0);
    assert_eq!(timestamp(Some(0)), 0);
    assert_eq!(timestamp(Some(1_800_000_000)), NOW);
    assert_eq!(timestamp(Some(i64::MAX as u64)), i64::MAX);
    assert_eq!(timestamp(Some(i64::MAX as u64 + 1)), i64::MIN);
    assert_eq!(timestamp(Some(u64::MAX)), -1);
    let before = std::time::UNIX_EPOCH.elapsed().unwrap().as_secs() as i64;
    let now = now_secs();
    let after = std::time::UNIX_EPOCH.elapsed().unwrap().as_secs() as i64;
    assert!(before <= now && now <= after);
}

// ---- pairing --------------------------------------------------------------

fn poll(state: &str, token: Option<&str>) -> PairPoll {
    PairPoll {
        state: state.to_string(),
        device_token: token.map(|t| t.to_string()),
        wallet: Some("w".to_string()),
        name: Some("desk".to_string()),
    }
}

#[test]
fn pairing_signs_in_once_it_is_granted() {
    let mut pairing = Pairing::default();
    assert_eq!(
        pairing.open_pair_page("linux").unwrap_err(),
        "No pairing in progress.".to_string()
    );
    let shown = pairing.begin(PairStart {
        code: "ABC".to_string(),
        poll_token: "poll".to_string(),
        pair_url: "https://droprate.xyz/pair?c=ABC".to_string(),
        expires_in: 600,
    });
    assert_eq!(shown.code, "ABC");
    assert_eq!(shown.expires_in, 600);
    assert_eq!(pairing.poll_token, Some("poll".to_string()));
    let opened = pairing.open_pair_page("linux").unwrap();
    assert_eq!(opened.args, vec!["https://droprate.xyz/pair?c=ABC".to_string()]);

    let mut state = LauncherState::default();
    state.upsert(game(7, 1));
    for waiting in [poll("pending", None), poll("paired", None), poll("collected", Some("t"))] {
        assert!(!waiting.is_grant());
        state.adopt_pairing(&waiting);
        let word = waiting.state.clone();
        assert_eq!(state.absorb_poll(&mut pairing, waiting).state, word);
        assert!(!state.is_paired());
        assert_eq!(state.wallet, None);
        assert_eq!(pairing.poll_token, Some("poll".to_string()));
    }
    let granted = poll("paired", Some("t"));
    assert!(granted.is_grant());
    assert_eq!(state.absorb_poll(&mut pairing, granted.clone()), granted.clone().shown());
    assert_eq!(state.device_token, Some("t".to_string()));
    assert_eq!(state.wallet, Some("w".to_string()));
    assert_eq!(state.device_name, Some("desk".to_string()));
    assert_eq!(state.get(7), Some(&game(7, 1)));
    assert_eq!(pairing.poll_token, None);
    assert!(pairing.pair_url.is_some());
    let shown = granted.shown();
    assert_eq!(shown.state, "paired");
    assert_eq!(shown.wallet, Some("w".to_string()));
    assert_eq!(idle().state, "idle");
    assert_eq!(idle().wallet, None);
}

#[test]
fn a_page_elsewhere_is_not_opened_for_pairing() {
    let mut pairing = Pairing::default();
    pairing.begin(PairStart {
        code: "A".to_string(),
        poll_token: "p".to_string(),
        pair_url: "https://droprate.xyz.evil.example/".to_string(),
        expires_in: 1,
    });
    assert!(pairing.open_pair_page("windows").is_err());
}

#[test]
fn a_computer_has_a_name() {
    let some = |s: &str| Some(s.to_string());
    assert_eq!(device_name(some("DESK"), some("host")), "DESK");
    assert_eq!(device_name(None, some("host")), "host");
    assert_eq!(device_name(None, None), "My PC");
    assert_eq!(device_name(some(" \t\u{2003}\u{3000}\n"), some("host")), "My PC");
    assert_eq!(device_name(some(" x "), None), " x ");
}
