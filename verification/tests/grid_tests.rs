use game_of_life::cell::{alive_odds, Cell, Rect, P, P_SCALE};
use game_of_life::format::ImportError;
use game_of_life::grid::Grid;
use game_of_life::text::split_lines;

fn grid_from(text: &str, scale: i32) -> Grid {
    let lines = split_lines(text);
    let rows = lines.len() as i32;
    let cols = lines[0].len() as i32;
    Grid::try_build_from_lines(rows * scale, cols * scale, scale, &lines).unwrap()
}

fn pattern(g: &Grid) -> String {
    g.export_text()
}

#[test]
fn cell_new_places_its_square() {
    let c = Cell::new(3, 2, 20, true);
    assert_eq!(c.x, 3);
    assert_eq!(c.y, 2);
    assert_eq!(c.rect, Rect { x: 60, y: 40, w: 20, h: 20 });
    assert!(c.alive);
}

#[test]
fn cell_build_extreme_probabilities() {
    for _ in 0..50 {
        assert!(Cell::build(1, 1, 10, 0).alive);
        assert!(!Cell::build(1, 1, 10, P_SCALE).alive);
    }
    let c = Cell::build(4, 5, 10, 0);
    assert_eq!(c.rect, Rect { x: 40, y: 50, w: 10, h: 10 });
}

#[test]
fn cell_tick_follows_the_rule() {
    let live = Cell::new(0, 0, 1, true);
    let dead = Cell::new(0, 0, 1, false);
    let expect_live = [false, false, true, true, false, false, false, false, false];
    let expect_dead = [false, false, false, true, false, false, false, false, false];
    for n in 0..9 {
        assert_eq!(live.tick(n).alive, expect_live[n as usize]);
        assert_eq!(dead.tick(n).alive, expect_dead[n as usize]);
    }
    assert_eq!(live.tick(2).rect, live.rect);
}

#[test]
fn cell_update_flips_and_twice_restores() {
    let c = Cell::new(1, 2, 5, false);
    assert!(c.update().alive);
    assert_eq!(c.update().update(), c);
    assert_eq!(c.copy(), c);
}

#[test]
fn build_has_screen_dimensions() {
    let g = Grid::build(1080, 1920, 20);
    assert_eq!(g.max_y(), 54);
    assert_eq!(g.max_x(), 96);
    assert_eq!(g.scale(), 20);
    let cells = g.cells();
    assert_eq!(cells.len(), 54);
    for (i, row) in cells.iter().enumerate() {
        assert_eq!(row.len(), 96);
        for (j, c) in row.iter().enumerate() {
            assert_eq!(c.x, j as i32);
            assert_eq!(c.y, i as i32);
            assert_eq!(c.rect, Rect { x: j as i32 * 20, y: i as i32 * 20, w: 20, h: 20 });
        }
    }
}

#[test]
fn build_rounds_toward_zero_and_negative_is_empty() {
    let g = Grid::build(59, 45, 20);
    assert_eq!((g.max_y(), g.max_x()), (2, 2));
    let g = Grid::build(-30, 50, 20);
    assert_eq!(g.max_y(), -1);
    assert_eq!(g.max_x(), 2);
    assert!(g.cells().is_empty());
}

#[test]
fn build_empty_is_all_dead() {
    let g = Grid::build_empty(100, 60, 10);
    assert_eq!((g.max_y(), g.max_x()), (10, 6));
    assert!(g.cells().iter().all(|r| r.iter().all(|c| !c.alive)));
}

#[test]
fn neighbours_at_corner_count_the_cell_itself() {
    let g = grid_from("100\n000\n000", 10);
    let corner = g.cells()[0][0];
    assert_eq!(g.get_alive_neighbours(&corner), 3);
    let centre = g.cells()[1][1];
    assert_eq!(g.get_alive_neighbours(&centre), 1);
}

#[test]
fn neighbours_full_interior() {
    let g = grid_from("111\n111\n111", 10);
    let centre = g.cells()[1][1];
    assert_eq!(g.get_alive_neighbours(&centre), 8);
}

#[test]
fn blinker_turns() {
    let mut g = grid_from("00000\n00100\n00100\n00100\n00000", 20);
    g.tick();
    assert_eq!(pattern(&g), "00000\n00000\n01110\n00000\n00000");
    g.tick();
    assert_eq!(pattern(&g), "00000\n00100\n00100\n00100\n00000");
}

#[test]
fn block_is_still() {
    let mut g = grid_from("0000\n0110\n0110\n0000", 20);
    g.tick();
    assert_eq!(pattern(&g), "0000\n0110\n0110\n0000");
}

#[test]
fn edge_quirks() {
    let mut g = grid_from("100\n000\n000", 20);
    g.tick();
    assert_eq!(pattern(&g), "100\n000\n000");
    let mut g = grid_from("11\n11", 20);
    g.tick();
    assert_eq!(pattern(&g), "00\n00");
}

#[test]
fn dead_grid_stays_dead() {
    let mut g = Grid::build_empty(50, 70, 10);
    let before = pattern(&g);
    g.tick();
    assert_eq!(pattern(&g), before);
}

#[test]
fn click_toggles_cell_under_mouse() {
    let mut g = grid_from("000\n000\n000", 20);
    assert!(g.update(true, 25, 45));
    assert_eq!(pattern(&g), "000\n000\n010");
    assert!(g.update(true, 39, 59));
    assert_eq!(pattern(&g), "000\n000\n000");
    assert!(!g.update(false, 5, 5));
    assert_eq!(pattern(&g), "000\n000\n000");
}

#[test]
fn click_outside_changes_nothing() {
    let mut g = grid_from("010\n000\n000", 20);
    assert!(g.update(true, 500, 5));
    assert!(g.update(true, -30, 5));
    assert_eq!(pattern(&g), "010\n000\n000");
}

#[test]
fn click_near_zero_rounds_toward_zero() {
    let mut g = grid_from("000\n000", 20);
    assert!(g.update(true, -5, -5));
    assert_eq!(pattern(&g), "100\n000");
}

#[test]
fn export_text_format() {
    let g = grid_from("010\n001", 10);
    assert_eq!(g.export_text(), "010\n001");
    let g = Grid::build_empty(20, 30, 10);
    assert_eq!(g.export_text(), "000\n000");
}

#[test]
fn export_then_import_round_trip() {
    let g = Grid::build(80, 120, 10);
    let text = g.export_text();
    let lines = split_lines(&text);
    let back = Grid::try_build_from_lines(80, 120, 10, &lines).unwrap();
    assert_eq!(back.export_text(), text);
    for (r1, r2) in g.cells().iter().zip(back.cells().iter()) {
        assert_eq!(r1, r2);
    }
}

#[test]
fn import_reads_ones_as_alive() {
    let lines = split_lines("1x0\n011");
    let g = Grid::try_build_from_lines(20, 30, 10, &lines).unwrap();
    assert_eq!(g.export_text(), "100\n011");
    assert_eq!(Grid::unrecognized_cells(&lines, 2, 3), 1);
    assert_eq!(Grid::unrecognized_cells(&lines, 1, 1), 0);
}

#[test]
fn import_reads_only_the_expected_size() {
    let lines = split_lines("0110\n1001111");
    let g = Grid::try_build_from_lines(20, 40, 10, &lines).unwrap();
    assert_eq!(g.export_text(), "0110\n1001");
}

#[test]
fn import_errors() {
    let lines = split_lines("010\n001\n");
    assert_eq!(Grid::try_build_from_lines(20, 30, 10, &lines).err(), Some(ImportError::LineCount));
    let lines = split_lines("0100\n0010");
    assert_eq!(Grid::try_build_from_lines(20, 30, 10, &lines).err(), Some(ImportError::LineLength));
    let lines = split_lines("010\n00");
    assert_eq!(Grid::try_build_from_lines(20, 30, 10, &lines).err(), Some(ImportError::ShortLine));
    let lines: Vec<String> = Vec::new();
    assert_eq!(Grid::try_build_from_lines(5, 30, 10, &lines).err(), Some(ImportError::NoLines));
}

#[test]
fn import_first_line_length_is_in_bytes() {
    let lines = split_lines("é0\n010");
    assert_eq!(Grid::try_build_from_lines(20, 30, 10, &lines).err(), Some(ImportError::ShortLine));
    let lines = split_lines("é00\n010");
    assert_eq!(Grid::try_build_from_lines(20, 30, 10, &lines).err(), Some(ImportError::LineLength));
}

#[test]
fn negative_cell_size() {
    let g = Grid::build(-40, -60, -20);
    assert_eq!((g.max_y(), g.max_x(), g.scale()), (2, 3, -20));
    let c = g.cells()[1][2];
    assert_eq!((c.x, c.y), (2, 1));
    assert_eq!(c.rect, Rect { x: -40, y: -20, w: (-20i32) as u32, h: (-20i32) as u32 });
    let lines = split_lines("100\n001");
    let mut g = Grid::try_build_from_lines(-40, -60, -20, &lines).unwrap();
    assert_eq!(g.export_text(), "100\n001");
    assert!(g.update(true, -25, -5));
    assert_eq!(g.export_text(), "110\n001");
    g.tick();
    assert_eq!(g.max_x(), 3);
}

#[test]
fn negative_cell_size_on_a_screen_is_empty() {
    let mut g = Grid::build(1080, 1920, -20);
    assert_eq!((g.max_y(), g.max_x()), (-54, -96));
    assert!(g.cells().is_empty());
    g.tick();
    assert!(g.update(true, 100, 100));
    assert_eq!(g.export_text(), "");
}

#[test]
fn cell_build_above_scale_is_dead() {
    for p in [P_SCALE, P_SCALE + 1, u32::MAX] {
        assert!(!Cell::build(0, 0, 1, p).alive);
    }
}

#[test]
fn odds_of_life() {
    assert_eq!(alive_odds(0), P_SCALE);
    assert_eq!(alive_odds(P), 25);
    assert_eq!(alive_odds(1), 99);
    assert_eq!(alive_odds(P_SCALE), 0);
    assert_eq!(alive_odds(u32::MAX), 0);
}

#[test]
fn build_with_extreme_probabilities() {
    let g = Grid::build_with(60, 80, 20, 0);
    assert_eq!(g.export_text(), "1111\n1111\n1111");
    let g = Grid::build_with(60, 80, 20, P_SCALE + 5);
    assert_eq!(g.export_text(), "0000\n0000\n0000");
}

#[test]
fn random_grid_is_mixed() {
    let g = Grid::build(1080, 1920, 20);
    let text = g.export_text();
    let alive = text.chars().filter(|c| *c == '1').count();
    assert!(alive > 0 && alive < 54 * 96);
}
