//! The game controller: the board, the player, the cursor, and command
//! dispatch. Selecting an empty cell delegates to the flood reveal;
//! selecting a monster cell routes to the battle machine. Defeat is a
//! terminal presentation state from which only restart and quit act.

use vstd::prelude::*;
use crate::cell::Cell;
use crate::coords::{wrap_dec, wrap_inc, pos_spec, pos, left, right, up, down, lemma_pos_in_bounds};
use crate::board::{Board, Difficulty, reveal_rel};
use crate::battle::{Player, BattleOutcome, battle_spec, gain_spec, threshold, battle, award_exp};

verus! {

/// Whether the session is live, lost, or ended by the player.
#[derive(Clone, Copy, PartialEq, Eq, Structural, Debug)]
pub enum GameState {
    Playing,
    GameOver,
    Quit,
}

/// One decoded player command, as the input layer hands it over.
#[derive(Clone, Copy, PartialEq, Eq, Structural, Debug)]
pub enum Command {
    MoveLeft,
    MoveRight,
    MoveUp,
    MoveDown,
    Select,
    SetFlag(u8),
    ClearFlag,
    Restart,
    Quit,
}

/// A gameplay error; all are local and non-fatal.
#[derive(Clone, Copy, PartialEq, Eq, Structural, Debug)]
pub enum GameError {
    /// A flag level outside `1..=9`, rejected with no state change.
    InvalidFlagLevel,
}

pub struct Game {
    /// The grid of cells.
    pub board: Board,
    /// The player's progression state.
    pub player: Player,
    /// x position of the cursor.
    pub x: u16,
    /// y position of the cursor.
    pub y: u16,
    /// Whether the session is live, lost, or ended.
    pub state: GameState,
}

impl Game {
    /// Board and player well-formed, cursor in bounds, and a live session
    /// always has a living player.
    pub open spec fn wf(self) -> bool {
        &&& self.board.wf()
        &&& self.player.wf()
        &&& self.x < self.board.width
        &&& self.y < self.board.height
        &&& (self.state == GameState::Playing ==> self.player.hp >= 1)
    }

    /// The cell under the cursor.
    pub open spec fn cursor_cell(self) -> Cell {
        self.board.grid@[pos_spec(self.x as int, self.y as int, self.board.width as int)]
    }

    /// Board, player, state and cursor all kept; only a helper for the
    /// movement contracts.
    pub open spec fn moved_to(pre: Game, post: Game, nx: int, ny: int) -> bool {
        &&& post.x == nx
        &&& post.y == ny
        &&& post.board == pre.board
        &&& post.player == pre.player
        &&& post.state == pre.state
    }

    /// What setting a flag does: an estimate outside `1..=9` is rejected
    /// with no state change; a revealed cell silently ignores the flag;
    /// otherwise the cursor cell carries the estimate.
    pub open spec fn set_flag_rel(pre: Game, post: Game, level: u8, r: Result<
        (),
        GameError,
    >) -> bool {
        if !(1 <= level <= 9) {
            r == Err::<(), GameError>(GameError::InvalidFlagLevel) && post == pre
        } else if pre.cursor_cell().revealed {
            r == Ok::<(), GameError>(()) && post == pre
        } else {
            let p = pos_spec(pre.x as int, pre.y as int, pre.board.width as int);
            &&& r == Ok::<(), GameError>(())
            &&& post.board.grid@ == pre.board.grid@.update(
                p,
                (Cell { flag: Some(level), ..pre.cursor_cell() }),
            )
            &&& post.board.width == pre.board.width
            &&& post.board.height == pre.board.height
            &&& post.board.difficulty == pre.board.difficulty
            &&& post.board.seed == pre.board.seed
            &&& post.player == pre.player
            &&& post.x == pre.x
            &&& post.y == pre.y
            &&& post.state == pre.state
        }
    }

    /// What clearing a flag does: the cursor cell's flag is removed,
    /// nothing else moves.
    pub open spec fn clear_flag_rel(pre: Game, post: Game) -> bool {
        let p = pos_spec(pre.x as int, pre.y as int, pre.board.width as int);
        &&& post.board.grid@ == pre.board.grid@.update(
            p,
            (Cell { flag: None, ..pre.cursor_cell() }),
        )
        &&& post.board.width == pre.board.width
        &&& post.board.height == pre.board.height
        &&& post.board.difficulty == pre.board.difficulty
        &&& post.board.seed == pre.board.seed
        &&& post.player == pre.player
        &&& post.x == pre.x
        &&& post.y == pre.y
        &&& post.state == pre.state
    }

    /// What a victory at the cursor does: the defeated cell loses its
    /// monster and stands revealed, and the reward is exactly the
    /// monster's level in experience, then the level-up loop.
    pub open spec fn victory_post(pre: Game, post: Game, l: u8) -> bool {
        let p = pos_spec(pre.x as int, pre.y as int, pre.board.width as int);
        &&& post.board.grid@ == pre.board.grid@.update(
            p,
            (Cell { revealed: true, level: None, ..pre.cursor_cell() }),
        )
        &&& post.board.width == pre.board.width
        &&& post.board.height == pre.board.height
        &&& post.board.difficulty == pre.board.difficulty
        &&& post.board.seed == pre.board.seed
        &&& post.state == GameState::Playing
        &&& (post.player.level as int, post.player.exp as int) == gain_spec(
            pre.player.level as int,
            pre.player.exp as int,
            l as int,
        )
        &&& post.player.exp_to_next as int == threshold(post.player.level as int)
        &&& post.x == pre.x
        &&& post.y == pre.y
    }

    /// What selecting the cursor cell does: an empty cell flood-reveals;
    /// a monster cell fights. A monster of equal level dies instantly with
    /// zero hit-point loss; otherwise the rounds of `battle_spec` decide,
    /// ending in a victory that clears the cell or in the terminal
    /// game-over state with the board untouched.
    pub open spec fn select_rel(pre: Game, post: Game) -> bool {
        match pre.cursor_cell().level {
            None => {
                &&& reveal_rel(pre.board, post.board, pre.x as int, pre.y as int)
                &&& post.player == pre.player
                &&& post.state == pre.state
                &&& post.x == pre.x
                &&& post.y == pre.y
            },
            Some(l) => {
                if l == pre.player.level {
                    Game::victory_post(pre, post, l) && post.player.hp == pre.player.hp
                } else {
                    let r = battle_spec(
                        pre.player.level as int,
                        pre.player.hp as int,
                        l as int,
                        l as int,
                    );
                    if r.0 {
                        Game::victory_post(pre, post, l) && post.player.hp == r.1
                    } else {
                        &&& post.board == pre.board
                        &&& post.state == GameState::GameOver
                        &&& post.player.hp == r.1
                        &&& post.player.level == pre.player.level
                        &&& post.player.exp == pre.player.exp
                        &&& post.player.exp_to_next == pre.player.exp_to_next
                        &&& post.x == pre.x
                        &&& post.y == pre.y
                    }
                }
            },
        }
    }

    /// What a restart does: the board regenerates from its next seed, the
    /// player returns to baseline, play resumes; the cursor stays put.
    pub open spec fn restart_rel(pre: Game, post: Game) -> bool {
        &&& post.board.placed_from(pre.board)
        &&& post.player == Player::baseline()
        &&& post.state == GameState::Playing
        &&& post.x == pre.x
        &&& post.y == pre.y
    }

    /// What one dispatched command does. During play every command acts;
    /// from the game-over (or ended) state only restart and quit are
    /// honored and everything else is ignored.
    pub open spec fn step_rel(pre: Game, post: Game, cmd: Command, r: Result<
        (),
        GameError,
    >) -> bool {
        let ok = Ok::<(), GameError>(());
        if pre.state == GameState::Playing {
            match cmd {
                Command::MoveLeft => r == ok && Game::moved_to(
                    pre,
                    post,
                    wrap_dec(pre.x as int, pre.board.width as int),
                    pre.y as int,
                ),
                Command::MoveRight => r == ok && Game::moved_to(
                    pre,
                    post,
                    wrap_inc(pre.x as int, pre.board.width as int),
                    pre.y as int,
                ),
                Command::MoveUp => r == ok && Game::moved_to(
                    pre,
                    post,
                    pre.x as int,
                    wrap_dec(pre.y as int, pre.board.height as int),
                ),
                Command::MoveDown => r == ok && Game::moved_to(
                    pre,
                    post,
                    pre.x as int,
                    wrap_inc(pre.y as int, pre.board.height as int),
                ),
                Command::Select => r == ok && Game::select_rel(pre, post),
                Command::SetFlag(level) => Game::set_flag_rel(pre, post, level, r),
                Command::ClearFlag => r == ok && Game::clear_flag_rel(pre, post),
                Command::Restart => r == ok && Game::restart_rel(pre, post),
                Command::Quit => r == ok && post == (Game { state: GameState::Quit, ..pre }),
            }
        } else {
            match cmd {
                Command::Restart => r == ok && Game::restart_rel(pre, post),
                Command::Quit => r == ok && post == (Game { state: GameState::Quit, ..pre }),
                _ => r == ok && post == pre,
            }
        }
    }

    /// Start a session on a fresh board of the given difficulty, with
    /// monster placement drawn from the seed.
    pub fn new(difficulty: Difficulty, seed: u64) -> (g: Game)
        ensures
            g.wf(),
            g.state == GameState::Playing,
            g.player == Player::baseline(),
            g.board.difficulty == difficulty,
            g.board.placed_from(
                Board {
                    width: g.board.width,
                    height: g.board.height,
                    grid: g.board.grid,
                    difficulty,
                    seed,
                },
            ),
            g.x == 2 && g.y == 2,
    {
        let board = Board::new(difficulty, seed);
        Game { board, player: Player::new(), x: 2, y: 2, state: GameState::Playing }
    }

    /// Move the cursor one cell left, wrapping toroidally.
    pub fn move_left(&mut self)
        requires
            old(self).wf(),
        ensures
            final(self).wf(),
            Game::moved_to(
                *old(self),
                *final(self),
                wrap_dec(old(self).x as int, old(self).board.width as int),
                old(self).y as int,
            ),
    {
        self.x = left(self.x, self.board.width);
    }

    /// Move the cursor one cell right, wrapping toroidally.
    pub fn move_right(&mut self)
        requires
            old(self).wf(),
        ensures
            final(self).wf(),
            Game::moved_to(
                *old(self),
                *final(self),
                wrap_inc(old(self).x as int, old(self).board.width as int),
                old(self).y as int,
            ),
    {
        self.x = right(self.x, self.board.width);
    }

    /// Move the cursor one cell up, wrapping toroidally.
    pub fn move_up(&mut self)
        requires
            old(self).wf(),
        ensures
            final(self).wf(),
            Game::moved_to(
                *old(self),
                *final(self),
                old(self).x as int,
                wrap_dec(old(self).y as int, old(self).board.height as int),
            ),
    {
        self.y = up(self.y, self.board.height);
    }

    /// Move the cursor one cell down, wrapping toroidally.
    pub fn move_down(&mut self)
        requires
            old(self).wf(),
        ensures
            final(self).wf(),
            Game::moved_to(
                *old(self),
                *final(self),
                old(self).x as int,
                wrap_inc(old(self).y as int, old(self).board.height as int),
            ),
    {
        self.y = down(self.y, self.board.height);
    }

    /// Set a flag with the player's estimate of the cursor cell's level.
    pub fn set_flag(&mut self, level: u8) -> (r: Result<(), GameError>)
        requires
            old(self).wf(),
            old(self).state == GameState::Playing,
        ensures
            final(self).wf(),
            Game::set_flag_rel(*old(self), *final(self), level, r),
    {
        if level < 1 || level > 9 {
            return Err(GameError::InvalidFlagLevel);
        }
        let p = pos(self.x, self.y, self.board.width);
        proof {
            lemma_pos_in_bounds(
                self.x as int,
                self.y as int,
                self.board.width as int,
                self.board.height as int,
            );
        }
        if !self.board.grid[p].revealed {
            let mut c = self.board.grid[p];
            c.set_flag(level);
            self.board.grid.set(p, c);
        }
        Ok(())
    }

    /// Remove the flag on the cursor cell.
    pub fn clear_flag(&mut self)
        requires
            old(self).wf(),
            old(self).state == GameState::Playing,
        ensures
            final(self).wf(),
            Game::clear_flag_rel(*old(self), *final(self)),
    {
        let p = pos(self.x, self.y, self.board.width);
        proof {
            lemma_pos_in_bounds(
                self.x as int,
                self.y as int,
                self.board.width as int,
                self.board.height as int,
            );
        }
        let mut c = self.board.grid[p];
        c.remove_flag();
        self.board.grid.set(p, c);
    }

    /// Open the cursor cell: flood-reveal empty terrain, or fight the
    /// monster standing on it.
    pub fn select(&mut self)
        requires
            old(self).wf(),
            old(self).state == GameState::Playing,
        ensures
            final(self).wf(),
            Game::select_rel(*old(self), *final(self)),
    {
        let p = pos(self.x, self.y, self.board.width);
        proof {
            lemma_pos_in_bounds(
                self.x as int,
                self.y as int,
                self.board.width as int,
                self.board.height as int,
            );
        }
        let cell = self.board.grid[p];
        match cell.level {
            None => {
                self.board.reveal_at(self.x, self.y);
            },
            Some(l) => {
                let outcome = if l == self.player.level {
                    BattleOutcome::Victory
                } else {
                    battle(&mut self.player, l)
                };
                match outcome {
                    BattleOutcome::Victory => {
                        let mut c = cell;
                        c.level = None;
                        c.revealed = true;
                        self.board.grid.set(p, c);
                        award_exp(&mut self.player, l);
                    },
                    BattleOutcome::Defeat => {
                        self.state = GameState::GameOver;
                    },
                }
            },
        }
    }

    /// Restart (replay) the game.
    pub fn restart(&mut self)
        requires
            old(self).wf(),
        ensures
            final(self).wf(),
            Game::restart_rel(*old(self), *final(self)),
    {
        self.board.reset();
        self.player = Player::new();
        self.state = GameState::Playing;
    }

    /// Dispatch one decoded command.
    pub fn step(&mut self, cmd: Command) -> (r: Result<(), GameError>)
        requires
            old(self).wf(),
        ensures
            final(self).wf(),
            Game::step_rel(*old(self), *final(self), cmd, r),
    {
        if matches!(self.state, GameState::Playing) {
            match cmd {
                Command::MoveLeft => {
                    self.move_left();
                    Ok(())
                },
                Command::MoveRight => {
                    self.move_right();
                    Ok(())
                },
                Command::MoveUp => {
                    self.move_up();
                    Ok(())
                },
                Command::MoveDown => {
                    self.move_down();
                    Ok(())
                },
                Command::Select => {
                    self.select();
                    Ok(())
                },
                Command::SetFlag(level) => self.set_flag(level),
                Command::ClearFlag => {
                    self.clear_flag();
                    Ok(())
                },
                Command::Restart => {
                    self.restart();
                    Ok(())
                },
                Command::Quit => {
                    self.state = GameState::Quit;
                    Ok(())
                },
            }
        } else {
            match cmd {
                Command::Restart => {
                    self.restart();
                    Ok(())
                },
                Command::Quit => {
                    self.state = GameState::Quit;
                    Ok(())
                },
                _ => Ok(()),
            }
        }
    }
}

} // verus!
