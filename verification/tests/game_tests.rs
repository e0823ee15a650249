use mine_rpg::battle::Player;
use mine_rpg::board::{Board, Difficulty};
use mine_rpg::cell::Cell;
use mine_rpg::coords::pos;
use mine_rpg::game::{Command, Game, GameError, GameState};

fn empty_game(width: u16, height: u16) -> Game {
    Game {
        board: Board {
            width,
            height,
            grid: vec![Cell::new(); width as usize * height as usize],
            difficulty: Difficulty::EASY,
            seed: 0,
        },
        player: Player { level: 1, hp: 10, exp: 0, exp_to_next: 10 },
        x: 0,
        y: 0,
        state: GameState::Playing,
    }
}

#[test]
fn new_game_starts_playing_at_baseline() {
    let g = Game::new(Difficulty::EASY, 11);
    assert!(matches!(g.state, GameState::Playing));
    assert_eq!(g.player.level, 1);
    assert_eq!(g.player.hp, 10);
    assert_eq!(g.player.exp, 0);
    assert_eq!(g.player.exp_to_next, 10);
    assert_eq!((g.x, g.y), (2, 2));
}

#[test]
fn movement_wraps_around_the_board() {
    let mut g = Game::new(Difficulty::EASY, 1);
    g.move_left();
    g.move_left();
    g.move_left();
    assert_eq!(g.x, 15);
    g.move_right();
    assert_eq!(g.x, 0);
    g.move_up();
    g.move_up();
    g.move_up();
    assert_eq!(g.y, 15);
    g.move_down();
    assert_eq!(g.y, 0);
}

#[test]
fn step_dispatches_movement() {
    let mut g = Game::new(Difficulty::EASY, 1);
    assert_eq!(g.step(Command::MoveRight), Ok(()));
    assert_eq!(g.x, 3);
    assert_eq!(g.step(Command::MoveDown), Ok(()));
    assert_eq!(g.y, 3);
}

#[test]
fn set_flag_rejects_levels_out_of_range() {
    let mut g = empty_game(4, 4);
    let before = g.board.grid.clone();
    assert_eq!(g.set_flag(0), Err(GameError::InvalidFlagLevel));
    assert_eq!(g.set_flag(10), Err(GameError::InvalidFlagLevel));
    assert_eq!(g.board.grid, before);
}

#[test]
fn set_flag_marks_a_concealed_cell() {
    let mut g = empty_game(4, 4);
    assert_eq!(g.set_flag(7), Ok(()));
    assert_eq!(g.board.grid[pos(0, 0, 4)].flag, Some(7));
}

#[test]
fn set_flag_is_ignored_on_a_revealed_cell() {
    let mut g = empty_game(4, 4);
    g.board.grid[pos(0, 0, 4)].revealed = true;
    assert_eq!(g.set_flag(7), Ok(()));
    assert_eq!(g.board.grid[pos(0, 0, 4)].flag, None);
}

#[test]
fn clear_flag_removes_the_mark() {
    let mut g = empty_game(4, 4);
    assert_eq!(g.set_flag(4), Ok(()));
    g.clear_flag();
    assert_eq!(g.board.grid[pos(0, 0, 4)].flag, None);
}

#[test]
fn select_equal_level_monster_wins_without_damage() {
    let mut g = empty_game(4, 4);
    g.board.grid[pos(0, 0, 4)].level = Some(1);
    g.select();
    let c = g.board.grid[pos(0, 0, 4)];
    assert_eq!(c.level, None);
    assert!(c.revealed);
    assert_eq!(g.player.hp, 10);
    assert_eq!(g.player.exp, 1);
    assert!(matches!(g.state, GameState::Playing));
}

#[test]
fn select_stronger_monster_can_win_at_a_price() {
    let mut g = empty_game(4, 4);
    g.board.grid[pos(0, 0, 4)].level = Some(3);
    g.select();
    let c = g.board.grid[pos(0, 0, 4)];
    assert_eq!(c.level, None);
    assert!(c.revealed);
    assert_eq!(g.player.hp, 4);
    assert_eq!(g.player.exp, 3);
    assert!(matches!(g.state, GameState::Playing));
}

#[test]
fn select_overwhelming_monster_ends_the_game() {
    let mut g = empty_game(4, 4);
    g.player.hp = 2;
    g.board.grid[pos(0, 0, 4)].level = Some(9);
    g.select();
    assert!(matches!(g.state, GameState::GameOver));
    assert_eq!(g.player.hp, -7);
    // the monster stays on the board
    assert_eq!(g.board.grid[pos(0, 0, 4)].level, Some(9));
    assert!(!g.board.grid[pos(0, 0, 4)].revealed);
}

#[test]
fn game_over_ignores_everything_but_restart_and_quit() {
    let mut g = empty_game(4, 4);
    g.player.hp = 1;
    g.board.grid[pos(0, 0, 4)].level = Some(9);
    g.select();
    assert!(matches!(g.state, GameState::GameOver));
    let snapshot = g.board.grid.clone();
    assert_eq!(g.step(Command::MoveLeft), Ok(()));
    assert_eq!(g.step(Command::Select), Ok(()));
    assert_eq!(g.step(Command::SetFlag(3)), Ok(()));
    assert_eq!(g.board.grid, snapshot);
    assert!(matches!(g.state, GameState::GameOver));
    assert_eq!(g.step(Command::Restart), Ok(()));
    assert!(matches!(g.state, GameState::Playing));
    assert_eq!(g.player.hp, 10);
    assert_eq!(g.player.level, 1);
}

#[test]
fn quit_ends_the_session() {
    let mut g = Game::new(Difficulty::EASY, 5);
    assert_eq!(g.step(Command::Quit), Ok(()));
    assert!(matches!(g.state, GameState::Quit));
}

#[test]
fn restart_keeps_the_cursor_and_resets_the_rest() {
    let mut g = Game::new(Difficulty::EASY, 5);
    g.move_right();
    g.player.exp = 3;
    g.restart();
    assert_eq!((g.x, g.y), (3, 2));
    assert_eq!(g.player.exp, 0);
    for c in g.board.grid.iter() {
        assert!(!c.revealed);
        assert_eq!(c.flag, None);
    }
}

#[test]
fn corner_reveal_cascades_through_the_free_region() {
    // A 16x16 board with level-1 monsters down the whole of column 8:
    // every cell off columns 7..=9 is free, and the free region is
    // connected through the toroidal wrap. Selecting the free corner
    // (0, 0) must reveal everything except the monster column itself,
    // stopping exactly at the cells bordering a monster.
    let mut g = empty_game(16, 16);
    for y in 0..16 {
        g.board.grid[pos(8, y, 16)].level = Some(1);
    }
    assert_eq!(g.board.val(0, 0), 0);
    g.select();
    for y in 0..16u16 {
        for x in 0..16u16 {
            let c = g.board.grid[pos(x, y, 16)];
            if x == 8 {
                assert!(!c.revealed, "monster cell ({x}, {y}) must stay concealed");
            } else {
                assert!(c.revealed, "cell ({x}, {y}) must be revealed");
            }
        }
    }
    // the boundary columns carry the monster sums and stop the flood
    assert_eq!(g.board.val(7, 3), 3);
    assert_eq!(g.board.val(9, 3), 3);
}

#[test]
fn reveal_leaves_player_untouched() {
    let mut g = empty_game(4, 4);
    g.board.grid[pos(2, 2, 4)].level = Some(4);
    g.select();
    assert_eq!(g.player.hp, 10);
    assert_eq!(g.player.exp, 0);
    assert!(matches!(g.state, GameState::Playing));
}
