use redumper_gui::cleanup::{
    delete_suffixes, is_spillover_track, keep_after_zip, zip_includes, zstd_extensions, SPILLOVER_MAX_BYTES,
};

#[test]
fn suffixes_to_delete() {
    assert_eq!(delete_suffixes(false, false), vec![".cache"]);
    assert_eq!(delete_suffixes(true, false), vec![".cache", ".scram"]);
    assert_eq!(delete_suffixes(false, true), vec![".cache", ".sdram", ".sbram"]);
    assert_eq!(delete_suffixes(true, true), vec![".cache", ".scram", ".sdram", ".sbram"]);
}

#[test]
fn compressed_extensions() {
    assert_eq!(zstd_extensions(), vec!["state", "skeleton", "subcode"]);
    assert_eq!(SPILLOVER_MAX_BYTES, 150 * 2352);
}

#[test]
fn spillover_tracks() {
    assert!(is_spillover_track("Game (Track 0).bin"));
    assert!(is_spillover_track("Game (Track 00).bin"));
    assert!(is_spillover_track("Game (Track A).bin"));
    assert!(is_spillover_track("Game (Track AA).bin"));
    assert!(is_spillover_track("Game (Track 0.1).bin"));
    assert!(is_spillover_track("Game (Track AA.2).bin"));
    assert!(!is_spillover_track("Game (Track 1).bin"));
    assert!(!is_spillover_track("Game (Track 01).bin"));
    assert!(!is_spillover_track("Game (Track 0).cue"));
    assert!(!is_spillover_track("Game.bin"));
    assert!(is_spillover_track("Game (Track 3) (Track A).bin"));
}

#[test]
fn zip_selection() {
    assert!(zip_includes("game.log", "game", false));
    assert!(zip_includes("game.state.zst", "game", false));
    assert!(!zip_includes("game.bin", "game", false));
    assert!(!zip_includes("game (Track 1).BIN", "game", false));
    assert!(!zip_includes("game.Cue", "game", false));
    assert!(!zip_includes("game.iso", "game", false));
    assert!(!zip_includes("other.log", "game", false));
    assert!(!zip_includes("game_logs.zip", "game", true));
    assert!(zip_includes("game", "game", false));
}

#[test]
fn log_survives_zipping() {
    assert!(keep_after_zip("game.log"));
    assert!(keep_after_zip("game.LOG"));
    assert!(!keep_after_zip("game.state.zst"));
    assert!(!keep_after_zip(".log"));
    assert!(!keep_after_zip("log"));
}
