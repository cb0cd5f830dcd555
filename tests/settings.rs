use bimgo::settings::{default_cmd_file, default_processing_directory, default_trash_directory, AppSettings, DisplayMode, FitMode, MoveMode, SourcePosition};

fn sample() -> AppSettings {
    AppSettings {
        processing_directory: default_processing_directory(),
        trash_directory: default_trash_directory(),
        cmds_file: default_cmd_file(),
        ..AppSettings::default()
    }
}

#[test]
fn settings_defaults() {
    let s = AppSettings::default();
    assert_eq!(s.padding, 0);
    assert_eq!(s.fit_mode, FitMode::FitBest);
    assert_eq!(s.display_mode, DisplayMode::Continuous);
    assert_eq!(s.source_position, SourcePosition::Left);
    assert_eq!(s.move_mode, MoveMode::Image);
    assert_eq!(FitMode::default(), FitMode::FitBest);
}

#[test]
fn expand_home_with_known_home() {
    let mut s = sample();
    s.expand_home_with(Some(String::from("/home/u"))).unwrap();
    assert_eq!(s.processing_directory, "/tmp/");
    assert_eq!(s.trash_directory, "/home/u/.local/share/bimgo/trash");
    assert_eq!(s.cmds_file, "/home/u/.config/bimgo/cmds");
}

#[test]
fn expand_home_without_home_changes_nothing() {
    let mut s = sample();
    assert!(s.expand_home_with(None).is_err());
    assert_eq!(s.trash_directory, "~/.local/share/bimgo/trash");
    let mut plain = AppSettings::default();
    assert!(plain.expand_home_with(None).is_ok());
}
