use game_of_life::controller::{
    Action, Controller, CurrentState, Event, Key, CLEAR_FPS, COOLDOWN_TIMER, EDIT_FPS, RUN_FPS,
};
use game_of_life::grid::Grid;
use game_of_life::import_modal::{FileBox, ImportModal};
use game_of_life::text::{gol_files, is_gol_file, split_lines};

fn names(v: &[&str]) -> Vec<String> {
    v.iter().map(|s| s.to_string()).collect()
}

#[test]
fn split_lines_like_split() {
    assert_eq!(split_lines("a\nb\n"), names(&["a", "b", ""]));
    assert_eq!(split_lines(""), names(&[""]));
    assert_eq!(split_lines("\n"), names(&["", ""]));
    assert_eq!(split_lines("0101"), names(&["0101"]));
    assert_eq!(split_lines("é\r\nx"), names(&["é\r", "x"]));
}

#[test]
fn txt_files_are_kept_in_order() {
    assert!(is_gol_file("gun_and_eater@20.txt"));
    assert!(is_gol_file(".txt"));
    assert!(!is_gol_file("txt"));
    assert!(!is_gol_file("notes.txt.bak"));
    assert!(!is_gol_file("a.TXT"));
    let files = gol_files(names(&["b.txt", "main.rs", "a.txt", "export.txt", "x.tx"]));
    assert_eq!(files, names(&["b.txt", "a.txt", "export.txt"]));
}

#[test]
fn file_box_is_stacked_by_index() {
    let b = FileBox::build("f.txt".to_string(), 576, 108, 172, 768, false, 2);
    assert_eq!(b.file, "f.txt");
    assert_eq!((b.x, b.y, b.height, b.width, b.index), (576, 452, 172, 768, 2));
}

#[test]
fn modal_layout() {
    let m = ImportModal::build(1080, 1920, 768, 864, names(&["a.txt", "b.txt", "c.txt"]));
    let r = m.rect();
    assert_eq!((r.x, r.y, r.w, r.h), (576, 108, 768, 864));
    assert!(!m.get_visible());
    assert_eq!(m.cur_sel(), 0);
    let files = m.files();
    assert_eq!(files.len(), 3);
    for (i, f) in files.iter().enumerate() {
        assert_eq!(f.height, 172);
        assert_eq!(f.y, 108 + 172 * i as i32);
        assert_eq!(f.x, 576);
        assert_eq!(f.width, 768);
        assert_eq!(f.index, i as i32);
    }
    let m = ImportModal::build(1080, 1920, 768, 864, names(&["1", "2", "3", "4", "5", "6", "7", "8"]));
    assert_eq!(m.files()[1].height, 108);
}

#[test]
fn modal_selection_is_clamped() {
    let mut m = ImportModal::build(1080, 1920, 768, 864, names(&["a.txt", "b.txt"]));
    m.up();
    assert_eq!(m.cur_sel(), 0);
    m.down();
    assert_eq!(m.get_chosen_file(), "b.txt");
    m.down();
    assert_eq!(m.cur_sel(), 1);
    m.up();
    assert_eq!(m.get_chosen_file(), "a.txt");
    m.toggle();
    assert!(m.get_visible());
    m.toggle();
    assert!(!m.get_visible());
}

#[test]
fn empty_modal_selection() {
    let m = ImportModal::build(1080, 1920, 768, 864, Vec::new());
    assert!(m.files().is_empty());
    assert_eq!(m.cur_sel(), 0);
}

#[test]
fn downs_then_chosen_file() {
    let files = names(&["a.txt", "b.txt", "c.txt"]);
    for d in 0..6 {
        let mut m = ImportModal::build(1080, 1920, 768, 864, files.clone());
        for _ in 0..d {
            m.down();
        }
        assert_eq!(m.get_chosen_file(), files[std::cmp::min(d, 2)]);
    }
}

#[test]
fn toggles_give_visibility() {
    for k in 0..5 {
        let mut m = ImportModal::build(1080, 1920, 768, 864, names(&["a.txt", "b.txt"]));
        for i in 0..k {
            m.toggle();
            if i % 2 == 0 {
                m.down();
            } else {
                m.up();
            }
        }
        assert_eq!(m.get_visible(), k % 2 == 1);
    }
}

#[test]
fn text_target_of_entry() {
    let b = FileBox::build("ab.txt".to_string(), 576, 108, 172, 768, true, 0);
    let r = b.text_target(20, 24).unwrap();
    assert_eq!((r.x, r.y, r.w, r.h), (596, 163, 120, 40));
    let b = FileBox::build("é.txt".to_string(), 0, 0, 10, 10, false, 0);
    let r = b.text_target(3, 5).unwrap();
    assert_eq!((r.x, r.y, r.w, r.h), (3, 4, 18, 6));
    assert_eq!(b.text_target(i32::MAX, 0), None);
    let b = FileBox::build("x".to_string(), i32::MAX, 0, 10, 10, false, 0);
    assert_eq!(b.text_target(1, 0), None);
}

fn key(k: Key) -> Event {
    Event::KeyDown(k)
}

fn modal() -> ImportModal {
    ImportModal::build(1080, 1920, 768, 864, names(&["a.txt", "b.txt"]))
}

#[test]
fn controller_starts_in_setup() {
    let c = Controller::new();
    assert_eq!(c.state, CurrentState::Setup);
    assert_eq!((c.fps, c.stored_fps), (EDIT_FPS, RUN_FPS));
    assert_eq!(c.frame_nanos(), 1_000_000_000 / 24);
}

#[test]
fn setup_keys() {
    let mut m = modal();
    let mut c = Controller::new();
    assert_eq!(c.handle_event(CurrentState::Setup, key(Key::R), &mut m), Action::RandomGrid);
    assert_eq!(c.handle_event(CurrentState::Setup, key(Key::E), &mut m), Action::Export);
    assert_eq!(c.handle_event(CurrentState::Setup, key(Key::Q), &mut m), Action::EmptyGrid);
    assert_eq!((c.fps, c.state), (CLEAR_FPS, CurrentState::Setup));
    assert_eq!(c.handle_event(CurrentState::Setup, key(Key::I), &mut m), Action::ImportDefault);
    assert_eq!((c.fps, c.state), (EDIT_FPS, CurrentState::Setup));
    assert_eq!(c.handle_event(CurrentState::Setup, key(Key::Plus), &mut m), Action::Nothing);
    assert_eq!(c.fps, EDIT_FPS);
    assert_eq!(c.handle_event(CurrentState::Setup, key(Key::M), &mut m), Action::Nothing);
    assert!(!m.get_visible());
    assert_eq!(c.handle_event(CurrentState::Setup, key(Key::Return), &mut m), Action::Nothing);
    assert_eq!((c.fps, c.state), (RUN_FPS, CurrentState::Running));
}

#[test]
fn quit_in_every_state() {
    let mut m = modal();
    for s in [CurrentState::Setup, CurrentState::Paused, CurrentState::Running, CurrentState::Import] {
        let mut c = Controller::new();
        let before = c;
        assert_eq!(c.handle_event(s, Event::Quit, &mut m), Action::Quit);
        assert_eq!(c.handle_event(s, key(Key::Escape), &mut m), Action::Quit);
        assert_eq!(c, before);
        assert_eq!(c.handle_event(s, Event::Other, &mut m), Action::Nothing);
    }
}

#[test]
fn pause_and_resume_keeps_speed() {
    let mut m = modal();
    let mut c = Controller::new();
    c.handle_event(CurrentState::Setup, key(Key::Return), &mut m);
    c.handle_event(CurrentState::Running, key(Key::Plus), &mut m);
    c.handle_event(CurrentState::Running, key(Key::Plus), &mut m);
    assert_eq!(c.fps, 12);
    c.handle_event(CurrentState::Running, key(Key::Return), &mut m);
    assert_eq!((c.state, c.fps, c.stored_fps), (CurrentState::Paused, EDIT_FPS, 12));
    c.handle_event(CurrentState::Paused, key(Key::Minus), &mut m);
    assert_eq!(c.fps, EDIT_FPS - 1);
    c.handle_event(CurrentState::Paused, key(Key::Return), &mut m);
    assert_eq!((c.state, c.fps), (CurrentState::Running, 12));
}

#[test]
fn speed_never_drops_below_one() {
    let mut m = modal();
    let mut c = Controller::new();
    for _ in 0..40 {
        c.handle_event(CurrentState::Running, key(Key::Minus), &mut m);
    }
    assert_eq!(c.fps, 1);
    assert_eq!(c.frame_nanos(), 1_000_000_000);
    c.handle_event(CurrentState::Running, key(Key::Plus), &mut m);
    c.handle_event(CurrentState::Running, key(Key::Minus), &mut m);
    assert_eq!(c.fps, 1);
}

#[test]
fn frame_state_governs_all_its_events() {
    let mut m = modal();
    let mut c = Controller::new();
    c.handle_event(CurrentState::Setup, key(Key::Return), &mut m);
    assert_eq!(c.state, CurrentState::Running);
    assert_eq!(c.handle_event(CurrentState::Setup, key(Key::R), &mut m), Action::RandomGrid);
}

#[test]
fn chooser_keys() {
    let mut m = modal();
    let mut c = Controller::new();
    c.state = CurrentState::Paused;
    assert_eq!(c.handle_event(CurrentState::Paused, key(Key::M), &mut m), Action::Nothing);
    assert_eq!(c.state, CurrentState::Import);
    assert!(m.get_visible());
    assert_eq!(c.handle_event(CurrentState::Import, key(Key::Down), &mut m), Action::ShowSelection);
    assert_eq!(m.get_chosen_file(), "b.txt");
    assert_eq!(c.handle_event(CurrentState::Import, key(Key::Up), &mut m), Action::ShowSelection);
    assert_eq!(m.cur_sel(), 0);
    assert_eq!(c.handle_event(CurrentState::Import, key(Key::R), &mut m), Action::Nothing);
    assert_eq!(c.handle_event(CurrentState::Import, key(Key::M), &mut m), Action::Nothing);
    assert_eq!(c.state, CurrentState::Paused);
    assert!(!m.get_visible());
    c.handle_event(CurrentState::Paused, key(Key::M), &mut m);
    c.fps = 3;
    assert_eq!(c.handle_event(CurrentState::Import, key(Key::Return), &mut m), Action::ImportChosen);
    assert_eq!((c.state, c.fps), (CurrentState::Setup, EDIT_FPS));
    assert!(!m.get_visible());
}

#[test]
fn paused_keys() {
    let mut m = modal();
    let mut c = Controller::new();
    c.state = CurrentState::Paused;
    assert_eq!(c.handle_event(CurrentState::Paused, key(Key::R), &mut m), Action::RandomGrid);
    assert_eq!(c.handle_event(CurrentState::Paused, key(Key::E), &mut m), Action::Export);
    assert_eq!(c.handle_event(CurrentState::Paused, key(Key::Q), &mut m), Action::EmptyGrid);
    assert_eq!((c.state, c.fps), (CurrentState::Setup, EDIT_FPS));
    c.state = CurrentState::Paused;
    assert_eq!(c.handle_event(CurrentState::Paused, key(Key::I), &mut m), Action::ImportDefault);
    assert_eq!(c.state, CurrentState::Setup);
}

#[test]
fn click_cooldown_lasts_the_timer() {
    let mut c = Controller::new();
    let mut g = Grid::build_empty(60, 60, 20);
    c.end_of_frame(CurrentState::Setup, &mut g, true, 5, 5);
    assert_eq!(g.export_text(), "100\n000\n000");
    assert!(c.on_cooldown);
    for _ in 0..COOLDOWN_TIMER {
        assert!(c.on_cooldown);
        c.end_of_frame(CurrentState::Paused, &mut g, true, 25, 25);
        assert_eq!(g.export_text(), "100\n000\n000");
    }
    assert!(!c.on_cooldown);
    assert_eq!(c.cooldown_counter, 0);
    c.end_of_frame(CurrentState::Paused, &mut g, true, 25, 25);
    assert_eq!(g.export_text(), "100\n010\n000");
}

#[test]
fn no_click_no_cooldown() {
    let mut c = Controller::new();
    let mut g = Grid::build_empty(60, 60, 20);
    c.end_of_frame(CurrentState::Setup, &mut g, false, 5, 5);
    assert!(!c.on_cooldown);
    assert_eq!(g.export_text(), "000\n000\n000");
}

#[test]
fn running_frame_ticks_and_import_frame_waits() {
    let mut c = Controller::new();
    let lines = split_lines("00000\n00100\n00100\n00100\n00000");
    let mut g = Grid::try_build_from_lines(50, 50, 10, &lines).unwrap();
    c.end_of_frame(CurrentState::Import, &mut g, true, 0, 0);
    assert_eq!(g.export_text(), "00000\n00100\n00100\n00100\n00000");
    c.end_of_frame(CurrentState::Running, &mut g, true, 0, 0);
    assert_eq!(g.export_text(), "00000\n00000\n01110\n00000\n00000");
    assert!(!c.on_cooldown);
}

#[test]
fn layout_checks() {
    assert!(ImportModal::fits_layout(1080, 1920, 768, 864, 3));
    assert!(ImportModal::fits_layout(1080, 1920, 768, 864, 0));
    assert!(ImportModal::fits_layout(i32::MAX, i32::MIN, i32::MAX, i32::MIN, 2));
    assert!(ImportModal::fits_layout(-1250, 1920, 768, -1000, 10_000_000));
    assert!(!ImportModal::fits_layout(-1250, 1920, 768, -1000, 20_000_000));
    let m = ImportModal::build(-1250, 1920, 768, -1000, names(&["1", "2", "3", "4", "5", "6"]));
    assert_eq!(m.files()[5].y, -125 - 200 * 5);
}

#[test]
fn split_then_join_gives_the_text_back() {
    for text in ["", "\n", "ab\ncd", "010\n001\n", "\n\nx\n"] {
        let lines = split_lines(text);
        assert!(!lines.is_empty());
        assert!(lines.iter().all(|l| !l.contains('\n')));
        assert_eq!(lines.join("\n"), text);
    }
}
