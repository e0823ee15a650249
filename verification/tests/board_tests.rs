use mine_rpg::board::{Board, Difficulty, Window};
use mine_rpg::cell::Cell;
use mine_rpg::coords::pos;

fn empty_board(width: u16, height: u16) -> Board {
    Board {
        width,
        height,
        grid: vec![Cell::new(); width as usize * height as usize],
        difficulty: Difficulty::EASY,
        seed: 0,
    }
}

#[test]
fn new_board_has_difficulty_dimensions() {
    let cases = [
        (Difficulty::EASY, 16, 16),
        (Difficulty::HUGE, 50, 25),
        (Difficulty::EXTREME, 30, 16),
        (Difficulty::BLIND, 30, 16),
    ];
    for (d, w, h) in cases {
        let b = Board::new(d, 1);
        assert_eq!(b.width, w);
        assert_eq!(b.height, h);
        assert_eq!(b.grid.len(), w as usize * h as usize);
    }
}

#[test]
fn new_board_cells_are_baseline_with_monsters_in_range() {
    let b = Board::new(Difficulty::EASY, 99);
    for c in b.grid.iter() {
        assert!(!c.revealed);
        assert_eq!(c.flag, None);
        if let Some(l) = c.level {
            assert!((1..=9).contains(&l));
        }
    }
    // the first cell is always left empty, so a free reveal target exists
    assert_eq!(b.grid[0].level, None);
    // a fresh board holds at least one monster
    assert!(b.grid.iter().any(|c| c.level.is_some()));
}

#[test]
fn placement_is_deterministic_for_a_seed() {
    let a = Board::new(Difficulty::EXTREME, 424242);
    let b = Board::new(Difficulty::EXTREME, 424242);
    assert_eq!(a.grid, b.grid);
    let c = Board::new(Difficulty::EXTREME, 424243);
    assert_ne!(a.grid, c.grid);
}

#[test]
fn reset_restores_baseline_and_regenerates() {
    let mut b = Board::new(Difficulty::EASY, 7);
    let first = b.grid.clone();
    b.reveal_at(0, 0);
    b.grid[5].flag = Some(3);
    b.reset();
    assert_eq!(b.grid.len(), first.len());
    for c in b.grid.iter() {
        assert!(!c.revealed);
        assert_eq!(c.flag, None);
        if let Some(l) = c.level {
            assert!((1..=9).contains(&l));
        }
    }
    // the generator stream advanced, so the next game differs
    assert_ne!(b.grid, first);
}

#[test]
fn val_sums_adjacent_monster_levels() {
    let mut b = empty_board(4, 4);
    let w = b.width;
    b.grid[pos(1, 1, w)].level = Some(5);
    b.grid[pos(2, 1, w)].level = Some(2);
    // (0, 0) borders (1, 1) but not (2, 1)
    assert_eq!(b.val(0, 0), 5);
    // (2, 0) borders both
    assert_eq!(b.val(2, 0), 7);
    // a cell's own monster does not count toward its value
    assert_eq!(b.val(1, 1), 2);
    // far corner reaches (1, 1) only through no neighbor
    assert_eq!(b.val(3, 3), 0);
}

#[test]
fn val_wraps_around_the_edges() {
    let mut b = empty_board(4, 4);
    let w = b.width;
    b.grid[pos(0, 0, w)].level = Some(9);
    // (3, 3) is a toroidal neighbor of (0, 0)
    assert_eq!(b.val(3, 3), 9);
    assert_eq!(b.val(3, 0), 9);
    assert_eq!(b.val(0, 3), 9);
    // the interior does not see it
    assert_eq!(b.val(2, 2), 0);
}

#[test]
fn reveal_on_valued_cell_stops_there() {
    let mut b = empty_board(4, 4);
    let w = b.width;
    b.grid[pos(1, 1, w)].level = Some(5);
    // (0, 0) has value 5, so revealing it reveals nothing else
    b.reveal_at(0, 0);
    let revealed: Vec<usize> =
        (0..16).filter(|&i| b.grid[i].revealed).collect();
    assert_eq!(revealed, vec![pos(0, 0, w)]);
}

#[test]
fn reveal_is_a_no_op_on_revealed_cells() {
    let mut b = empty_board(4, 4);
    let w = b.width;
    b.grid[pos(1, 1, w)].level = Some(5);
    b.reveal_at(0, 0);
    let snapshot = b.grid.clone();
    b.reveal_at(0, 0);
    assert_eq!(b.grid, snapshot);
}

#[test]
fn window_symbols() {
    assert_eq!(Window::Concealed.symbol(), '\u{2592}');
    assert_eq!(Window::HorzBoundary.symbol(), '\u{2500}');
    assert_eq!(Window::VertBoundary.symbol(), '\u{2502}');
    assert_eq!(Window::TopLeftCorner.symbol(), '\u{250C}');
    assert_eq!(Window::TopRightCorner.symbol(), '\u{2510}');
    assert_eq!(Window::BottomLeftCorner.symbol(), '\u{2514}');
    assert_eq!(Window::BottomRightCorner.symbol(), '\u{2518}');
}
