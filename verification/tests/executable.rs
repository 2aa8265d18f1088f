//! Which of a build's files is the game.

use droprate_launcher::executable::{
    can_run_on, comes_along, is_candidate, pick_executable, shallowest,
};

fn files(names: &[&str]) -> Vec<String> {
    names.iter().map(|n| n.to_string()).collect()
}

#[test]
fn platforms_run_their_own_files() {
    assert!(can_run_on("game.exe", "win"));
    assert!(!can_run_on("game", "win"));
    assert!(can_run_on("game.app", "mac"));
    assert!(can_run_on("game", "mac"));
    assert!(!can_run_on("game.exe", "mac"));
    assert!(can_run_on("bin/game", "linux"));
    assert!(!can_run_on("game.x86_64", "linux"));
    assert!(!can_run_on(".exe.txt", "win"));
    assert!(can_run_on(".exe", "win"));
}

#[test]
fn incidentals_are_told_by_their_names() {
    for name in ["unins000.exe", "x/vcredist.exe", "dxsetup.exe", "crashpad", "setup.exe", "mysetup.exe"] {
        assert!(comes_along(name), "{name}");
        assert!(!is_candidate(name, "win"), "{name}");
    }
    assert!(!comes_along("setup"));
    assert!(!comes_along(""));
    assert!(is_candidate("game.exe", "win"));
}

#[test]
fn case_is_set_aside() {
    assert_eq!(pick_executable(&files(&["GAME.EXE"]), "win"), Some("GAME.EXE".to_string()));
    assert_eq!(pick_executable(&files(&["SETUP.EXE", "UNINS.exe"]), "win"), None);
    // The Kelvin sign lowers to a plain k, which a byte-wise mapping would miss.
    assert_eq!(
        pick_executable(&files(&["CrAsHpAd.exe", "\u{212a}.exe"]), "win"),
        Some("\u{212a}.exe".to_string())
    );
}

#[test]
fn the_first_of_the_shallowest_is_taken() {
    assert_eq!(
        pick_executable(&files(&["a/b/c", "a/x", "b/y", "z/z/z"]), "linux"),
        Some("a/x".to_string())
    );
    assert_eq!(pick_executable(&files(&["Game.app", "run"]), "mac"), Some("Game.app".to_string()));
    assert_eq!(pick_executable(&[], "linux"), None);
}

#[test]
fn marks_decide_what_is_looked_at() {
    let names = files(&["a", "b/b", "c"]);
    assert_eq!(shallowest(&names, &vec![false, true, true]), Some(2));
    assert_eq!(shallowest(&names, &vec![true, true, true]), Some(0));
    assert_eq!(shallowest(&names, &vec![false, true, false]), Some(1));
    assert_eq!(shallowest(&names, &vec![false, false, false]), None);
}
