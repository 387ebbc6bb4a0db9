use celeste::gameplay::{
    advance_death_sequence, crystal_refills, death_frame_index, gameplay_active,
    next_looping_frame, DeathSequence, DeathSequencePhase, DEATH_ANIMATION_FRAMES,
};
use celeste::geometry::Coord;
use celeste::menu::{
    chapter_order, main_menu_command, GameState, MainMenuCommand, MainMenuPage, MenuAction,
};
use celeste::paths::{
    backup_extension, is_chapter_02_map_path, CHAPTER_02_MAP_PATH, DEFAULT_MAP_PATH,
};

#[test]
fn death_sequence_runs_through_its_stages() {
    let mut seq = DeathSequence::new();
    assert_eq!(seq, DeathSequence::default());
    assert!(!seq.active());
    advance_death_sequence(&mut seq, true);
    assert_eq!(seq.phase, DeathSequencePhase::Inactive);
    seq.start();
    assert_eq!(seq.phase, DeathSequencePhase::PlayerDeathAnimation);
    assert!(seq.active());
    seq.frame_index = 7;
    seq.timer = Coord { bits: 0.25f32.to_bits() };
    seq.start();
    assert_eq!(seq.frame_index, 7);
    advance_death_sequence(&mut seq, false);
    assert_eq!(seq.phase, DeathSequencePhase::PlayerDeathAnimation);
    assert_eq!(seq.timer, Coord { bits: 0.25f32.to_bits() });
    advance_death_sequence(&mut seq, true);
    assert_eq!(seq.phase, DeathSequencePhase::ClosingWipe);
    assert_eq!(seq.timer, Coord { bits: 0 });
    assert_eq!(seq.frame_index, 7);
    advance_death_sequence(&mut seq, true);
    assert_eq!(seq.phase, DeathSequencePhase::RespawnReset);
    advance_death_sequence(&mut seq, false);
    assert_eq!(seq.phase, DeathSequencePhase::OpeningWipe);
    advance_death_sequence(&mut seq, true);
    assert_eq!(seq.phase, DeathSequencePhase::Inactive);
    assert_eq!(seq.frame_index, 0);
    assert!(!seq.active());
}

#[test]
fn death_animation_frames_hold_on_the_last() {
    assert_eq!(DEATH_ANIMATION_FRAMES, 13);
    assert_eq!(death_frame_index(0), 0);
    assert_eq!(death_frame_index(11), 11);
    assert_eq!(death_frame_index(12), 12);
    assert_eq!(death_frame_index(500), 12);
}

#[test]
fn crystals_refill_only_an_empty_dash() {
    assert!(crystal_refills(0, false, false, true));
    assert!(crystal_refills(0, true, false, true));
    assert!(!crystal_refills(0, true, true, true));
    assert!(!crystal_refills(1, false, false, true));
    assert!(!crystal_refills(0, false, false, false));
}

#[test]
fn looping_frames_and_activity() {
    assert_eq!(next_looping_frame(0, 4), 1);
    assert_eq!(next_looping_frame(3, 4), 0);
    assert_eq!(next_looping_frame(0, 1), 0);
    assert!(gameplay_active(true, false));
    assert!(!gameplay_active(false, false));
    assert!(!gameplay_active(true, true));
}

#[test]
fn main_menu_buttons() {
    assert_eq!(GameState::default(), GameState::MainMenu);
    assert_eq!(MainMenuPage::default(), MainMenuPage::Root);
    assert_eq!(main_menu_command(MenuAction::StartGame), MainMenuCommand::StartDefaultMap);
    assert_eq!(
        main_menu_command(MenuAction::SelectChapter),
        MainMenuCommand::ShowPage { page: MainMenuPage::ChapterSelect }
    );
    assert_eq!(
        main_menu_command(MenuAction::ReturnToRoot),
        MainMenuCommand::ShowPage { page: MainMenuPage::Root }
    );
    assert_eq!(main_menu_command(MenuAction::ExitGame), MainMenuCommand::Quit);
}

#[test]
fn chapters_are_listed_by_label() {
    let labels: Vec<String> =
        ["chapter_02", "Chapter_10", "chapter_01", "ab", "a", "é", "chapter_01"]
            .iter()
            .map(|s| s.to_string())
            .collect();
    let order = chapter_order(&labels);
    let sorted: Vec<&str> = order.iter().map(|&i| labels[i].as_str()).collect();
    assert_eq!(sorted, vec!["Chapter_10", "a", "ab", "chapter_01", "chapter_01", "chapter_02", "é"]);
    assert_eq!(order, vec![1, 4, 3, 2, 6, 0, 5]);
    let mut expected = labels.clone();
    expected.sort();
    assert_eq!(sorted, expected.iter().map(|s| s.as_str()).collect::<Vec<_>>());
    assert_eq!(chapter_order(&Vec::new()), Vec::<usize>::new());
}

#[test]
fn chapter_two_paths() {
    assert!(is_chapter_02_map_path(CHAPTER_02_MAP_PATH));
    assert!(is_chapter_02_map_path("/home/me/game/assets/maps/chapter_02.json"));
    assert!(is_chapter_02_map_path("C:\\game\\assets\\maps\\chapter_02.json"));
    assert!(!is_chapter_02_map_path(DEFAULT_MAP_PATH));
    assert!(!is_chapter_02_map_path("maps/chapter_02.json"));
    assert!(!is_chapter_02_map_path("assets/maps/chapter_02.json.bak"));
    assert!(!is_chapter_02_map_path(""));
}

#[test]
fn backup_extensions() {
    assert_eq!(backup_extension("json"), "json.bak");
    assert_eq!(backup_extension(""), "bak");
    assert_eq!(backup_extension("tar.gz"), "tar.gz.bak");
}
