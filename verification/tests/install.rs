//! Requests, downloads, archives, the store and the pages outside.

use droprate_launcher::api::{
    current_platform, refusal, ApiError, Call, DownloadTicket, LibraryGame, LibraryResponse,
    MarketResponse, StoreDev, StoreGame, API_URL,
};
use droprate_launcher::install::{
    checksum_matches, installed_game, report_is_due, storage_refusal, Download, EntryAction,
    Extraction, InstallError, Installed,
};
use droprate_launcher::links::{
    open_dev_portal, open_external, open_install_folder, open_store_page,
};
use droprate_launcher::number::{decimal, read_decimal};
use droprate_launcher::paths::{
    archive_path, downloads_dir, games_dir, install_dir, state_corrupt_path, state_draft_path,
    state_path, Location,
};
use droprate_launcher::play::launch_on;
use droprate_launcher::state::{InstalledGame, LauncherState};
use droprate_launcher::store::{store_views, supply};
use droprate_launcher::text::{
    begins_with, chars_of, count_char, finishes_with, holds_char, holds_piece, one_is, same_text,
    same_text_ignoring_case, string_of, trim,
};
use std::path::{Path, PathBuf};

// ---- requests -------------------------------------------------------------

fn object(pairs: &[(&str, serde_json::Value)]) -> serde_json::Map<String, serde_json::Value> {
    pairs.iter().map(|(k, v)| (k.to_string(), v.clone())).collect()
}

#[test]
fn requests_hold_what_the_server_needs() {
    let text = |s: &str| serde_json::Value::String(s.to_string());
    assert_eq!(API_URL, "https://droprate.xyz/api/crate");
    assert_eq!(
        Call::Market.body(),
        object(&[("ns", text("devmarket")), ("action", text("native-market"))])
    );
    assert_eq!(
        Call::DeviceStart { name: "desk", platform: "win" }.body(),
        object(&[
            ("ns", text("devmarket")),
            ("action", text("native-device-start")),
            ("name", text("desk")),
            ("platform", text("win")),
        ])
    );
    assert_eq!(
        Call::DevicePoll { poll_token: "p" }.body(),
        object(&[
            ("ns", text("devmarket")),
            ("action", text("native-device-poll")),
            ("poll_token", text("p")),
        ])
    );
    assert_eq!(
        Call::Download { device_token: "t", product_id: -3, platform: "mac" }.body(),
        object(&[
            ("ns", text("devmarket")),
            ("action", text("native-device-download")),
            ("device_token", text("t")),
            ("product_id", serde_json::Value::from(-3)),
            ("platform", text("mac")),
        ])
    );
    assert_eq!(
        Call::Ticket { device_token: "t", product_id: 9 }.body(),
        object(&[
            ("ns", text("devmarket")),
            ("action", text("native-device-ticket")),
            ("device_token", text("t")),
            ("product_id", serde_json::Value::from(9)),
        ])
    );
    for (call, action) in [
        (Call::DeviceMe { device_token: "t" }, "native-device-me"),
        (Call::Library { device_token: "t" }, "native-device-library"),
        (Call::Forget { device_token: "t" }, "native-device-forget"),
    ] {
        assert_eq!(
            call.body(),
            object(&[
                ("ns", text("devmarket")),
                ("action", text(action)),
                ("device_token", text("t")),
            ])
        );
    }
}

#[test]
fn refusals_keep_the_servers_wording() {
    assert_eq!(refusal(200, None), None);
    assert_eq!(refusal(299, Some("x".to_string())), None);
    let sold = refusal(403, Some("This wallet doesn't own a copy.".to_string())).unwrap();
    assert_eq!(
        sold,
        ApiError::Server { status: 403, message: "This wallet doesn't own a copy.".to_string() }
    );
    assert_eq!(sold.describe(), "This wallet doesn't own a copy.");
    assert_eq!(refusal(300, None).unwrap().describe(), "server error (300)");
    assert_eq!(refusal(199, None).unwrap().describe(), "server error (199)");
    assert!(!sold.is_auth_failure());
    assert!(refusal(401, None).unwrap().is_auth_failure());
    assert_eq!(ApiError::Network("no route".to_string()).describe(), "network error: no route");
    assert_eq!(ApiError::Shape("eof".to_string()).describe(), "unexpected response: eof");
    assert!(!ApiError::Network("401".to_string()).is_auth_failure());
}

#[test]
fn platforms_have_names() {
    assert_eq!(current_platform("windows"), "win");
    assert_eq!(current_platform("macos"), "mac");
    assert_eq!(current_platform("linux"), "linux");
    assert_eq!(current_platform("freebsd"), "linux");
}

// ---- downloads ------------------------------------------------------------

const ABC: &str = "ba7816bf8f01cfea414140de5dae2223b00361a396177a9cb410ff61f20015ad";
const EMPTY: &str = "e3b0c44298fc1c149afbf4c8996fb92427ae41e4649b934ca495991b7852b855";

/// How many bytes a download ends with, and whether they were checked.
fn ended(download: Download, expected: Option<&str>) -> Result<(u64, bool), InstallError> {
    download.finish(expected).map(|finished| (finished.received(), finished.is_checked()))
}

/// A build of five bytes on disk.
fn build(install_dir: &str, files: &[&str], platform: &str, expected: Option<&str>) -> Installed {
    let mut download = Download::new(None);
    download.absorb(b"hello");
    let Ok(finished) = download.finish(expected) else {
        panic!("the download has its checksum");
    };
    let mut extraction = Extraction::new();
    for file in files {
        extraction.take_entry(&Location::at(install_dir), file, false);
    }
    extraction.finish(install_dir.to_string(), platform, finished)
}

const HELLO: &str = "2cf24dba5fb0a30e26e83b2ac5b9e29e1b161e5c1fa7425e73043362938b9824";

#[test]
fn a_build_without_a_checksum_is_told_of() {
    assert_eq!(
        build("/g", &[], "win", None).notice(),
        Some(
            "This build came without a checksum, so it was installed without checking it."
                .to_string()
        )
    );
    assert_eq!(build("/g", &[], "win", Some(HELLO)).notice(), None);
}

#[test]
fn a_download_is_checked_against_its_checksum() {
    for chunks in [vec!["abc"], vec!["a", "", "bc"], vec!["a", "b", "c"]] {
        let mut download = Download::new(Some(3));
        for chunk in &chunks {
            download.absorb(chunk.as_bytes());
        }
        assert_eq!(download.received(), 3);
        assert_eq!(download.total(), 3);
        assert_eq!(ended(download, Some(ABC)), Ok((3, true)));
    }
    let mut other = Download::new(None);
    other.absorb(b"acb");
    assert_eq!(other.total(), 0);
    assert_eq!(ended(other, Some(ABC)), Err(InstallError::Checksum));
    let mut unknown = Download::new(None);
    unknown.absorb(b"acb");
    assert_eq!(ended(unknown, None), Ok((3, false)));
    assert_eq!(ended(Download::new(None), Some(EMPTY)), Ok((0, true)));
    assert_eq!(ended(Download::new(None), Some("")), Err(InstallError::Checksum));
}

#[test]
fn checksums_are_read_leniently() {
    let upper = format!(" \n{}\t", ABC.to_uppercase());
    let mut download = Download::new(None);
    download.absorb(b"abc");
    assert_eq!(ended(download, Some(&upper)), Ok((3, true)));
    assert!(checksum_matches(&[0x01, 0xab, 0xff], "01abff"));
    assert!(checksum_matches(&[0x01, 0xab, 0xff], "\u{3000}01ABfF "));
    assert!(!checksum_matches(&[0x01, 0xab, 0xff], "01abfe"));
    assert!(!checksum_matches(&[0x01, 0xab, 0xff], "1abff"));
    assert!(!checksum_matches(&[0x01, 0xab], "01 ab"));
    assert!(checksum_matches(&[], "  "));
}

#[test]
fn the_storage_may_refuse() {
    assert_eq!(storage_refusal(206), None);
    let error = storage_refusal(403).unwrap();
    assert_eq!(error.describe(), "download failed: storage returned 403");
    assert_eq!(
        InstallError::Checksum.describe(),
        "this build didn't match its checksum and was not installed"
    );
    assert_eq!(InstallError::Archive("x".to_string()).describe(), "the build archive is damaged: x");
    assert_eq!(InstallError::Io("disk full".to_string()).describe(), "disk full");
    assert!(!report_is_due(249));
    assert!(report_is_due(250));
}

// ---- extraction -----------------------------------------------------------

#[test]
fn extraction_writes_below_and_records_files() {
    let mut extraction = Extraction::new();
    let dir = Location::at("/games/7");
    let entries = [
        ("bin/", true, EntryAction::MakeDir(dir.join("bin"))),
        ("bin\\Game.exe", false, EntryAction::WriteFile(dir.join("bin").join("Game.exe"))),
        ("../evil", false, EntryAction::Skip),
        ("/etc", true, EntryAction::Skip),
        ("./", true, EntryAction::Skip),
        (".//readme.txt", false, EntryAction::WriteFile(dir.join("readme.txt"))),
    ];
    for (name, is_dir, action) in entries {
        assert_eq!(extraction.take_entry(&dir, name, is_dir), action);
    }
    assert_eq!(
        extraction.written,
        vec!["bin/Game.exe".to_string(), ".//readme.txt".to_string()]
    );

    // What was recorded can be started.
    let drives = extraction.drives;
    let Ok(finished) = Download::new(None).finish(None) else {
        panic!("nothing is expected of the bytes");
    };
    let installed = extraction.finish("/games/7".to_string(), "win", finished);
    assert_eq!(installed.install_dir, "/games/7");
    assert_eq!(installed.exe_path, Some("bin/Game.exe".to_string()));
    assert_eq!(installed.bytes, 0);
    assert_eq!(
        launch_on(drives, &dir, &installed.exe_path.unwrap()),
        Ok(dir.join("bin").join("Game.exe"))
    );
    let mut windows = Extraction::on(true);
    assert_eq!(windows.take_entry(&dir, "a/C:b", false), EntryAction::Skip);
    let mut unix = Extraction::on(false);
    assert_eq!(
        unix.take_entry(&dir, "a/C:b", false),
        EntryAction::WriteFile(dir.join("a").join("C:b"))
    );
}

#[test]
fn a_fresh_install_counts_as_a_check() {
    let ticket = DownloadTicket {
        url: "u".to_string(),
        expires_in: 1,
        bytes: None,
        build_version: 12,
        sha256: None,
    };
    let installed = build("/games/7", &["data/pack.bin", "Game"], "linux", Some(HELLO));
    let record = installed_game(7, "Title".to_string(), &ticket, installed, 1_800_000_000);
    assert_eq!(
        record,
        InstalledGame {
            product_id: 7,
            title: "Title".to_string(),
            build_version: 12,
            install_dir: "/games/7".to_string(),
            exe_path: Some("Game".to_string()),
            installed_at: 1_800_000_000,
            last_verified_at: 1_800_000_000,
            owned: true,
            bytes: 5,
        }
    );
    let mut state = LauncherState::default();
    state.upsert(record);
    let local = state.game_to_launch(7).unwrap();
    assert!(state.pass_gate(7, &local, None, 1_800_000_000 + 259_200).is_ok());
    assert!(state.pass_gate(7, &local, None, 1_800_000_000 + 259_201).is_err());
}

// ---- paths ----------------------------------------------------------------

#[test]
fn everything_has_its_place() {
    for data in ["/home/x/data", "/home/x/data/", "data"] {
        let base = Path::new(data);
        let at = Location::at(data);
        let same = |ours: Location, theirs: PathBuf| {
            let mut path = PathBuf::from(ours.base);
            path.extend(ours.names);
            assert_eq!(path.as_os_str(), theirs.as_os_str());
        };
        same(state_path(&at), base.join("state.json"));
        same(state_draft_path(&at), base.join("state.json").with_extension("json.tmp"));
        same(state_corrupt_path(&at), base.join("state.json").with_extension("json.corrupt"));
        same(games_dir(&at), base.join("games"));
        same(install_dir(&at, 42), base.join("games").join("42"));
        same(install_dir(&at, -1), base.join("games").join("-1"));
        same(downloads_dir(&at), base.join("downloads"));
        same(archive_path(&at, 42), base.join("42.download"));
    }
    let data = Location::at("d");
    assert!(install_dir(&data, 1) != install_dir(&data, 11));
}

#[test]
fn numbers_are_written_in_decimal() {
    for n in [0, 1, 9, 10, -1, -10, 12345, i64::MAX, i64::MIN] {
        assert_eq!(decimal(n), n.to_string());
        assert_eq!(read_decimal(&n.to_string()), Some(n));
    }
    for text in [
        "", "-", "-0", "00", "01", "+1", " 1", "1 ", "1a", "a", "--1", "1-", "١",
        "9223372036854775808", "-9223372036854775809", "92233720368547758070",
        "99999999999999999999999999999999999999999999",
    ] {
        assert_eq!(read_decimal(text), None, "{text}");
    }
}

// ---- the store ------------------------------------------------------------

fn store_game(id: i64) -> StoreGame {
    StoreGame {
        id,
        title: "T".to_string(),
        tagline: None,
        image: Some("i".to_string()),
        price_cents: Some(999),
        runtime: Some("native".to_string()),
        genres: vec!["rpg".to_string()],
        supply_model: Some("finite".to_string()),
        available: Some(3),
        minted_count: Some(8),
        sold_out: true,
        dev: Some(StoreDev { studio: Some("S".to_string()), trusted: true }),
    }
}

#[test]
fn supply_is_phrased_for_display() {
    let finite = Some("finite".to_string());
    let open = Some("open".to_string());
    assert_eq!(supply(&finite, Some(3), Some(8)), "3 left");
    assert_eq!(supply(&finite, Some(0), Some(8)), "Limited run");
    assert_eq!(supply(&finite, None, None), "Limited run");
    assert_eq!(supply(&open, Some(3), Some(8)), "Open edition · 8 sold");
    assert_eq!(supply(&None, None, Some(0)), "Open edition");
    assert_eq!(supply(&None, None, None), "Open edition");
}

#[test]
fn the_store_is_shown_with_and_without_a_library() {
    let mut state = LauncherState::default();
    state.upsert(InstalledGame {
        product_id: 2,
        title: "T".to_string(),
        build_version: 1,
        install_dir: "d".to_string(),
        exe_path: None,
        installed_at: 0,
        last_verified_at: 0,
        owned: true,
        bytes: 0,
    });
    let mut plain = store_game(2);
    plain.dev = None;
    let market = MarketResponse { games: vec![store_game(1), plain] };
    let copy = |owned: bool| LibraryGame {
        product_id: 1,
        title: "T".to_string(),
        slug: None,
        tagline: None,
        image: None,
        runtime: None,
        copy_number: None,
        asset_address: None,
        owned,
        build_version: 0,
        platforms: vec![],
    };
    let library = LibraryResponse { wallet: "w".to_string(), games: vec![copy(false), copy(true)] };

    let views = store_views(&market, &Some(library), &state);
    assert_eq!(views.len(), 2);
    assert!(views[0].owned && !views[0].installed && views[0].trusted && views[0].sold_out);
    assert_eq!(views[0].product_id, 1);
    assert_eq!(views[0].studio, Some("S".to_string()));
    assert_eq!(views[0].supply, "3 left");
    assert_eq!(views[0].price_cents, Some(999));
    assert_eq!(views[0].genres, vec!["rpg".to_string()]);
    assert!(!views[1].owned && views[1].installed && !views[1].trusted);
    assert_eq!(views[1].studio, None);

    let views = store_views(&market, &None, &state);
    assert_eq!(views.len(), 2);
    assert!(!views[0].owned && !views[1].owned && views[1].installed);
}

// ---- links ----------------------------------------------------------------

#[test]
fn only_droprate_is_opened() {
    let page = "https://droprate.xyz/x?a=1&b=2";
    let opened = open_external("windows", page).unwrap();
    assert_eq!(opened.program, "rundll32");
    assert_eq!(
        opened.args,
        vec!["url.dll,FileProtocolHandler".to_string(), page.to_string()]
    );
    let opened = open_external("macos", page).unwrap();
    assert_eq!(opened.program, "open");
    assert_eq!(opened.args, vec![page.to_string()]);
    assert_eq!(open_external("linux", page).unwrap().program, "xdg-open");
    for elsewhere in ["http://droprate.xyz/", "https://droprate.xyz", "https://droprate.xyz.evil/", ""] {
        assert_eq!(
            open_external("linux", elsewhere).unwrap_err(),
            "Refusing to open a link outside droprate.xyz.".to_string()
        );
    }
    assert_eq!(
        open_store_page("linux", 42).unwrap().args,
        vec!["https://droprate.xyz/?game=42".to_string()]
    );
    for id in [0, -1, i64::MIN] {
        assert_eq!(
            open_store_page("linux", id).unwrap_err(),
            "That game id isn't valid.".to_string()
        );
    }
    assert_eq!(
        open_dev_portal("linux").unwrap().args,
        vec!["https://droprate.xyz/devportal.html".to_string()]
    );
}

#[test]
fn folders_are_opened_where_they_are() {
    for (os, program) in [("windows", "explorer"), ("macos", "open"), ("linux", "xdg-open")] {
        assert_eq!(open_install_folder(os, true), Ok(program));
    }
    assert_eq!(
        open_install_folder("linux", false),
        Err("That folder no longer exists.".to_string())
    );
}

// ---- text -----------------------------------------------------------------

#[test]
fn texts_are_compared_by_their_characters() {
    assert!(same_text("é", "é") && !same_text("e", "é") && same_text("", ""));
    assert!(same_text_ignoring_case("aBÉ", "AbÉ") && !same_text_ignoring_case("é", "É"));
    let white = "\t\n\u{b}\u{c}\r \u{85}\u{a0}\u{1680}\u{2000}\u{200a}\u{2028}\u{2029}\u{202f}\u{205f}\u{3000}";
    for text in ["", "a", " a b ", "\u{200b}a\u{200b}", "\u{180e}", "\u{feff} \u{1c}"] {
        let framed = format!("{white}{text}{white}");
        assert_eq!(trim(&framed), framed.trim());
        assert_eq!(trim(text), text.trim());
    }
    assert!(begins_with("abc", "ab") && !begins_with("abc", "b") && begins_with("abc", ""));
    assert!(finishes_with("abc", "bc") && !finishes_with("abc", "b") && !finishes_with("c", "bc"));
    assert!(holds_piece("abcd", "bc") && !holds_piece("abcd", "bd") && holds_piece("", ""));
    assert!(holds_piece("aab", "ab") && holds_piece("ab", "ab"));
    assert!(holds_char("aéb", 'é') && !holds_char("ab", 'é'));
    assert_eq!(count_char("a/b//c", '/'), 3);
    assert!(one_is(&vec!["a".to_string(), "b".to_string()], "b"));
    assert!(!one_is(&vec!["a".to_string()], "b"));
    assert_eq!(string_of(&chars_of("añ\u{1f600}")), "añ\u{1f600}");
}
