//! The two decisions that must not be wrong, and the executable that is picked.

use droprate_launcher::archive;
use droprate_launcher::executable::pick_executable;
use droprate_launcher::gate::{launch_decision, LaunchDecision, OWNERSHIP_GRACE_SECS};
use droprate_launcher::paths::Location;
use std::path::{Path, PathBuf};

const HOUR: i64 = 3600;
const NOW: i64 = 1_800_000_000;

// ---- the resale gate ------------------------------------------------------

#[test]
fn owned_right_now_always_launches() {
    assert_eq!(
        launch_decision(Some(true), 0, NOW, OWNERSHIP_GRACE_SECS),
        LaunchDecision::Allow,
        "a live yes should not depend on any local state"
    );
}

#[test]
fn sold_copy_is_blocked_even_though_it_was_verified_seconds_ago() {
    // The player owned it a moment ago, sold it, and is still holding the files.
    let d = launch_decision(Some(false), NOW - 5, NOW, OWNERSHIP_GRACE_SECS);
    assert!(matches!(d, LaunchDecision::Blocked(_)));
}

#[test]
fn grace_never_rescues_a_definite_no() {
    for last in [NOW, NOW - HOUR, NOW - 1000 * HOUR, 0] {
        assert!(
            matches!(
                launch_decision(Some(false), last, NOW, OWNERSHIP_GRACE_SECS),
                LaunchDecision::Blocked(_)
            ),
            "a chain-verified 'not owned' must block regardless of local history"
        );
    }
}

#[test]
fn offline_within_grace_still_plays() {
    assert_eq!(
        launch_decision(None, NOW - 71 * HOUR, NOW, OWNERSHIP_GRACE_SECS),
        LaunchDecision::Allow,
        "a weekend without internet should not take someone's game away"
    );
}

#[test]
fn offline_past_grace_asks_for_a_check() {
    assert!(matches!(
        launch_decision(None, NOW - 73 * HOUR, NOW, OWNERSHIP_GRACE_SECS),
        LaunchDecision::NeedsVerification(_)
    ));
}

#[test]
fn grace_boundary_is_inclusive_and_does_not_overflow() {
    assert_eq!(
        launch_decision(None, NOW - OWNERSHIP_GRACE_SECS, NOW, OWNERSHIP_GRACE_SECS),
        LaunchDecision::Allow
    );
    assert!(matches!(
        launch_decision(None, NOW - OWNERSHIP_GRACE_SECS - 1, NOW, OWNERSHIP_GRACE_SECS),
        LaunchDecision::NeedsVerification(_)
    ));
    // i64::MIN would panic on a plain subtraction.
    assert!(matches!(
        launch_decision(None, i64::MIN, NOW, OWNERSHIP_GRACE_SECS),
        LaunchDecision::NeedsVerification(_)
    ));
}

#[test]
fn never_verified_offline_cannot_play() {
    assert!(
        matches!(
            launch_decision(None, 0, NOW, OWNERSHIP_GRACE_SECS),
            LaunchDecision::NeedsVerification(_)
        ),
        "a fresh install must prove ownership once before it runs anything"
    );
}

#[test]
fn a_clock_rolled_forward_does_not_buy_infinite_grace() {
    // Set the system clock back a year and last_verified_at is now "in the future".
    assert!(matches!(
        launch_decision(None, NOW + 365 * 24 * HOUR, NOW, OWNERSHIP_GRACE_SECS),
        LaunchDecision::NeedsVerification(_)
    ));
}

#[test]
fn each_ruling_has_its_words() {
    assert_eq!(OWNERSHIP_GRACE_SECS, 259_200);
    assert_eq!(
        launch_decision(Some(false), NOW, NOW, OWNERSHIP_GRACE_SECS),
        LaunchDecision::Blocked(
            "This copy is no longer owned by the paired wallet. It can't be launched."
        )
    );
    assert_eq!(
        launch_decision(None, 0, NOW, OWNERSHIP_GRACE_SECS),
        LaunchDecision::NeedsVerification(
            "Connect to the internet once to confirm you own this game."
        )
    );
    assert_eq!(
        launch_decision(None, 1, NOW, OWNERSHIP_GRACE_SECS),
        LaunchDecision::NeedsVerification(
            "It's been a while since we could check this game. Reconnect to keep playing."
        )
    );
}

#[test]
fn grace_stays_over_once_it_is_over() {
    let last = NOW - 73 * HOUR;
    for later in [NOW, NOW + 1, NOW + 1000 * HOUR, i64::MAX] {
        assert!(launch_decision(None, last, later, OWNERSHIP_GRACE_SECS) != LaunchDecision::Allow);
    }
    assert_eq!(launch_decision(None, 1, i64::MAX, i64::MAX), LaunchDecision::Allow);
}

#[test]
fn a_decision_is_copied_as_it_is() {
    for owned in [Some(true), Some(false), None] {
        let d = launch_decision(owned, 0, NOW, OWNERSHIP_GRACE_SECS);
        assert_eq!(d.clone(), d);
    }
}

// ---- archive path safety --------------------------------------------------

fn dir() -> PathBuf {
    PathBuf::from("/games/7")
}

/// The path that a location stands for.
fn path_of(location: Location) -> PathBuf {
    let mut path = PathBuf::from(location.base);
    for name in location.names {
        path.push(name);
    }
    path
}

fn safe_join(install_dir: &Path, entry: &str) -> Option<PathBuf> {
    archive::safe_join(&Location::at(install_dir.to_str().unwrap()), entry).map(path_of)
}

fn safe_join_on(drives: bool, install_dir: &str, entry: &str) -> Option<PathBuf> {
    archive::safe_join_on(drives, &Location::at(install_dir), entry).map(path_of)
}

#[test]
fn ordinary_entries_land_inside_the_install_folder() {
    assert_eq!(
        safe_join(&dir(), "Game.exe"),
        Some(PathBuf::from("/games/7/Game.exe"))
    );
    assert_eq!(
        safe_join(&dir(), "data/assets/pack.bin"),
        Some(PathBuf::from("/games/7/data/assets/pack.bin"))
    );
}

#[test]
fn parent_traversal_is_refused() {
    for evil in [
        "../evil.exe",
        "../../../../etc/passwd",
        "data/../../escape.txt",
        "a/b/../../../c",
    ] {
        assert_eq!(safe_join(&dir(), evil), None, "must refuse {evil}");
    }
}

#[test]
fn backslash_traversal_is_refused() {
    // A Windows-built zip can carry backslashes; splitting only on '/' would treat
    // this as one harmless filename.
    for evil in ["..\\evil.exe", "data\\..\\..\\escape.txt", "..\\..\\a\\b"] {
        assert_eq!(safe_join(&dir(), evil), None, "must refuse {evil}");
    }
}

#[test]
fn absolute_and_drive_paths_are_refused() {
    for evil in [
        "/etc/passwd",
        "//server/share/x",
        "C:/Windows/System32/evil.dll",
        "c:\\Windows\\evil.dll",
        "Z:/anything",
    ] {
        assert_eq!(safe_join(&dir(), evil), None, "must refuse {evil}");
    }
}

#[test]
fn nul_byte_is_refused() {
    assert_eq!(safe_join(&dir(), "Game.exe\0.txt"), None);
}

#[test]
fn empty_and_dot_entries_are_skipped() {
    assert_eq!(safe_join(&dir(), ""), None);
    assert_eq!(safe_join(&dir(), "."), None);
    assert_eq!(safe_join(&dir(), "./"), None);
    assert_eq!(safe_join(&dir(), "//"), None);
}

#[test]
fn redundant_separators_are_tolerated_not_rejected() {
    // Real archives do contain "data//file"; it isn't an attack.
    assert_eq!(
        safe_join(&dir(), "data//file.bin"),
        Some(PathBuf::from("/games/7/data/file.bin"))
    );
    assert_eq!(
        safe_join(&dir(), "./data/file.bin"),
        Some(PathBuf::from("/games/7/data/file.bin"))
    );
}

#[test]
fn every_output_stays_under_the_install_dir() {
    // Property-ish sweep: whatever we accept must be a descendant.
    let candidates = [
        "a", "a/b", "a/b/c.exe", "./a", "a//b", "Game.exe", "x/y/z/w/v.dat",
        "../a", "..", "a/../b", "/a", "C:/a", "a\\..\\b", "\0",
    ];
    for c in candidates {
        if let Some(p) = safe_join(&dir(), c) {
            assert!(
                p.starts_with(dir()),
                "{c} resolved to {p:?}, which escapes the install dir"
            );
        }
    }
}

#[test]
fn joining_agrees_with_the_standard_paths() {
    for base in ["/games/7", "/games/7/", "games", "", "/", "a b/é"] {
        for entry in ["x", "x/y", "./x//y/", "x\\y.exe", "...", "é/ü", "a:b/c"] {
            let ours = safe_join(Path::new(base), entry);
            let mut theirs = PathBuf::from(base);
            for part in entry.replace('\\', "/").split('/') {
                if part != "" && part != "." {
                    theirs.push(part);
                }
            }
            if entry == "a:b/c" {
                assert_eq!(ours, None);
            } else {
                assert_eq!(ours.unwrap().as_os_str(), theirs.as_os_str());
            }
        }
    }
}

#[test]
fn drives_inside_an_entry_matter_only_where_drives_are_known() {
    assert_eq!(safe_join_on(true, "/g", "data/C:/x"), None);
    assert_eq!(safe_join_on(true, "/g", "data/C:x"), None);
    assert_eq!(safe_join_on(false, "/g", "data/C:/x"), Some(PathBuf::from("/g/data/C:/x")));
    assert_eq!(safe_join_on(false, "/g", "C:/x"), None);
    assert_eq!(safe_join_on(true, "/g", "./C:/x"), None);
    assert_eq!(
        safe_join_on(true, "/g", "data/CC:/é:x"),
        Some(PathBuf::from("/g/data/CC:/é:x"))
    );
    assert_eq!(
        safe_join(Path::new("/g"), "data/C:/x"),
        safe_join_on(archive::knows_drives(), "/g", "data/C:/x")
    );
    // This machine's own reading of paths decides.
    let has_prefix = matches!(
        Path::new("C:").components().next(),
        Some(std::path::Component::Prefix(_))
    );
    assert_eq!(archive::knows_drives(), has_prefix);
}

#[test]
fn names_of_an_entry_are_its_plain_names() {
    assert_eq!(
        archive::names_of_entry(false, "./a\\\\b//c/."),
        Some(vec!["a".to_string(), "b".to_string(), "c".to_string()])
    );
    assert_eq!(archive::names_of_entry(false, "a/./.."), None);
    assert_eq!(archive::with_slashes("a\\b/c"), "a/b/c");
    assert_eq!(
        safe_join(Path::new("/g"), "a\\b"),
        safe_join(Path::new("/g"), &archive::with_slashes("a\\b"))
    );
}

#[test]
fn an_entry_only_adds_names_to_its_directory() {
    let dir = Location::at("C:").join("games").join("7");
    let target = archive::safe_join_on(true, &dir, "./data\\pack.bin").unwrap();
    assert_eq!(target.base, "C:");
    assert_eq!(target.names, vec!["games", "7", "data", "pack.bin"]);
    assert_eq!(dir.clone(), dir);
}

// ---- executable picking ---------------------------------------------------

#[test]
fn picks_the_shallowest_exe_on_windows() {
    let files = vec![
        "tools/editor.exe".to_string(),
        "NeonDrift.exe".to_string(),
        "data/pack.bin".to_string(),
    ];
    assert_eq!(pick_executable(&files, "win"), Some("NeonDrift.exe".into()));
}

#[test]
fn skips_installers_and_redistributables() {
    let files = vec![
        "vcredist_x64.exe".to_string(),
        "unins000.exe".to_string(),
        "bin/Game.exe".to_string(),
    ];
    assert_eq!(pick_executable(&files, "win"), Some("bin/Game.exe".into()));
}

#[test]
fn no_executable_is_not_a_crash() {
    let files = vec!["readme.txt".to_string(), "data/pack.bin".to_string()];
    assert_eq!(pick_executable(&files, "win"), None);
}
