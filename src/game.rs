//! The interaction state machine: splash, editing, running and paused phases,
//! cursor movement, cell toggling and speed control.
use vstd::prelude::*;
use crate::world::{
    build_empty_world, empty_grid, in_bounds, next_grid, pos, rows, cols, toggled, wrap_index,
    wrap_step, Direction, Pos, World,
};

verus! {

/// The interaction mode, which decides how an input byte is read.
#[derive(Debug, Clone, Copy, PartialEq, Eq, Structural)]
pub enum Phase {
    Splash,
    Editing,
    Running,
    Paused,
    Finished,
}

/// What the driver of the loop should do after a transition.
#[derive(Debug, Clone, Copy, PartialEq, Eq, Structural)]
pub enum Action {
    /// Nothing to show; read the next byte.
    Wait,
    /// Redraw the grid, the editing help bar and the cursor marker, then pause briefly.
    DrawEditor,
    /// Clear the screen before the first generation is shown.
    StartRun,
    /// Redraw the grid and the status bar, then sleep for the current delay.
    DrawRunning,
    /// Show the paused notice.
    DrawPaused,
    /// Restore the terminal and end the program.
    Exit,
}

/// A key read while editing.
#[derive(Debug, Clone, Copy, PartialEq, Eq, Structural)]
pub enum EditCommand {
    Move(Direction),
    Toggle,
    Start,
    Ignore,
}

/// A key read while running; `Continue` stands for no key at all, or an unbound one.
#[derive(Debug, Clone, Copy, PartialEq, Eq, Structural)]
pub enum RunCommand {
    Quit,
    SpeedUp,
    SpeedDown,
    Pause,
    Continue,
}

/// The key that starts the game, toggles a cell and resumes from a pause.
pub const SPACE: u8 = 32;
/// `w` and `k` move the cursor up.
pub const KEY_W: u8 = 119;
pub const KEY_K: u8 = 107;
/// `d` and `l` move the cursor right.
pub const KEY_D: u8 = 100;
pub const KEY_L: u8 = 108;
/// `s` and `j` move the cursor down.
pub const KEY_S: u8 = 115;
pub const KEY_J: u8 = 106;
/// `a` and `h` move the cursor left.
pub const KEY_A: u8 = 97;
pub const KEY_H: u8 = 104;
/// `p` starts the run from the editor, and pauses it.
pub const KEY_P: u8 = 112;
/// `q` quits.
pub const KEY_Q: u8 = 113;
/// `+` shortens the delay.
pub const KEY_PLUS: u8 = 43;
/// `-` lengthens the delay.
pub const KEY_MINUS: u8 = 45;

/// Editing bindings: wasd or kjhl move, space toggles, `p` starts.
pub open spec fn edit_binding(b: u8) -> EditCommand {
    if b == KEY_W || b == KEY_K {
        EditCommand::Move(Direction::N)
    } else if b == KEY_D || b == KEY_L {
        EditCommand::Move(Direction::E)
    } else if b == KEY_S || b == KEY_J {
        EditCommand::Move(Direction::S)
    } else if b == KEY_A || b == KEY_H {
        EditCommand::Move(Direction::W)
    } else if b == SPACE {
        EditCommand::Toggle
    } else if b == KEY_P {
        EditCommand::Start
    } else {
        EditCommand::Ignore
    }
}

/// Running bindings: `q` quits, `+` and `-` change the speed, `p` pauses.
pub open spec fn run_binding(input: Option<u8>) -> RunCommand {
    match input {
        Some(b) => if b == KEY_Q {
            RunCommand::Quit
        } else if b == KEY_PLUS {
            RunCommand::SpeedUp
        } else if b == KEY_MINUS {
            RunCommand::SpeedDown
        } else if b == KEY_P {
            RunCommand::Pause
        } else {
            RunCommand::Continue
        },
        None => RunCommand::Continue,
    }
}

/// Reads a key pressed while editing.
pub fn edit_command(b: u8) -> (r: EditCommand)
    ensures
        r == edit_binding(b),
{
    if b == KEY_W || b == KEY_K {
        EditCommand::Move(Direction::N)
    } else if b == KEY_D || b == KEY_L {
        EditCommand::Move(Direction::E)
    } else if b == KEY_S || b == KEY_J {
        EditCommand::Move(Direction::S)
    } else if b == KEY_A || b == KEY_H {
        EditCommand::Move(Direction::W)
    } else if b == SPACE {
        EditCommand::Toggle
    } else if b == KEY_P {
        EditCommand::Start
    } else {
        EditCommand::Ignore
    }
}

/// Reads what was typed, if anything, while running.
pub fn run_command(input: Option<u8>) -> (r: RunCommand)
    ensures
        r == run_binding(input),
{
    match input {
        Some(b) => if b == KEY_Q {
            RunCommand::Quit
        } else if b == KEY_PLUS {
            RunCommand::SpeedUp
        } else if b == KEY_MINUS {
            RunCommand::SpeedDown
        } else if b == KEY_P {
            RunCommand::Pause
        } else {
            RunCommand::Continue
        },
        None => RunCommand::Continue,
    }
}

/// The delay after one speed-up: lowered by `step` unless that would pass below `floor`.
pub open spec fn sped_up(delay: int, floor: int, step: int) -> int {
    if delay >= floor + step {
        delay - step
    } else {
        delay
    }
}

/// The delay after one slow-down: raised by `step` while it fits in a machine word.
pub open spec fn slowed_down(delay: int, step: int) -> int {
    if delay + step <= usize::MAX {
        delay + step
    } else {
        delay
    }
}

/// The delay after `n` speed-ups in a row.
pub open spec fn sped_up_times(delay: int, floor: int, step: int, n: nat) -> int
    decreases n,
{
    if n == 0 {
        delay
    } else {
        sped_up(sped_up_times(delay, floor, step, (n - 1) as nat), floor, step)
    }
}

/// The delay after `n` slow-downs in a row.
pub open spec fn slowed_down_times(delay: int, step: int, n: nat) -> int
    decreases n,
{
    if n == 0 {
        delay
    } else {
        slowed_down(slowed_down_times(delay, step, (n - 1) as nat), step)
    }
}

/// The command of an editing key; no key at all is ignored.
pub open spec fn edit_key(input: Option<u8>) -> EditCommand {
    match input {
        Some(b) => edit_binding(b),
        None => EditCommand::Ignore,
    }
}

/// The world, the generation counter, the pacing delay and the editing cursor.
pub struct Game {
    pub world: World,
    pub generation: usize,
    /// Milliseconds between generations.
    pub delay: usize,
    /// The smallest delay that speeding up may reach.
    pub min_delay: usize,
    /// How much one speed command changes the delay.
    pub delay_step: usize,
    pub cursor: Pos,
}

impl Game {
    /// The world is well formed, the cursor is on it, the floor of the delay
    /// is positive and the delay respects it.
    pub open spec fn wf(&self) -> bool {
        &&& self.world.wf()
        &&& in_bounds(self.world@, self.cursor)
        &&& self.min_delay > 0
        &&& self.delay >= self.min_delay
    }

    /// Every part of the state is the same in `a` and `b`.
    pub open spec fn same_state(a: Game, b: Game) -> bool {
        &&& a.world@ == b.world@
        &&& a.generation == b.generation
        &&& a.delay == b.delay
        &&& a.min_delay == b.min_delay
        &&& a.delay_step == b.delay_step
        &&& a.cursor == b.cursor
    }

    /// A game on an empty `width` by `height` world at generation 0, with the
    /// cursor at row 1, column 1 (or on the first row or column of a world
    /// one cell thin).
    pub fn new(width: usize, height: usize, delay: usize, min_delay: usize, delay_step: usize) -> (r: Game)
        requires
            width > 0,
            height > 0,
            min_delay > 0,
            delay >= min_delay,
        ensures
            r.wf(),
            r.world@ == empty_grid(height as int, width as int),
            r.generation == 0,
            r.delay == delay,
            r.min_delay == min_delay,
            r.delay_step == delay_step,
            r.cursor == (Pos { x: if height > 1 { 1 } else { 0 }, y: if width > 1 { 1 } else { 0 } }),
    {
        let world = build_empty_world(width, height);
        let x: usize = if height > 1 { 1 } else { 0 };
        let y: usize = if width > 1 { 1 } else { 0 };
        Game { world, generation: 0, delay, min_delay, delay_step, cursor: pos(x, y) }
    }

    /// Replaces the world by its next generation and counts it.
    pub fn advance_world(&mut self)
        requires
            old(self).wf(),
            old(self).generation < usize::MAX,
        ensures
            final(self).wf(),
            final(self).world@ == next_grid(old(self).world@),
            final(self).generation == old(self).generation + 1,
            final(self).cursor == old(self).cursor,
            final(self).delay == old(self).delay,
            final(self).min_delay == old(self).min_delay,
            final(self).delay_step == old(self).delay_step,
    {
        let next = self.world.next_generation();
        proof {
            self.world.lemma_wf();
            next.lemma_wf();
        }
        self.world = next;
        self.generation = self.generation + 1;
    }

    /// Flips the cell under the cursor.
    pub fn flip_cell(&mut self)
        requires
            old(self).wf(),
        ensures
            final(self).wf(),
            final(self).world@ == toggled(old(self).world@, old(self).cursor),
            final(self).generation == old(self).generation,
            final(self).cursor == old(self).cursor,
            final(self).delay == old(self).delay,
            final(self).min_delay == old(self).min_delay,
            final(self).delay_step == old(self).delay_step,
    {
        proof {
            self.world.lemma_wf();
        }
        self.world.toggle(self.cursor);
        proof {
            self.world.lemma_wf();
        }
    }

    /// Moves the cursor one step in `dir`, wrapping around the edges.
    pub fn move_cursor(&mut self, dir: Direction)
        requires
            old(self).wf(),
        ensures
            final(self).wf(),
            final(self).cursor == wrap_step(rows(old(self).world@), cols(old(self).world@), old(self).cursor, dir),
            final(self).world@ == old(self).world@,
            final(self).generation == old(self).generation,
            final(self).delay == old(self).delay,
            final(self).min_delay == old(self).min_delay,
            final(self).delay_step == old(self).delay_step,
    {
        self.cursor = wrap_index(&self.world, self.cursor, dir);
    }

    /// Shortens the delay by one step, never below the floor.
    pub fn speed_up(&mut self)
        requires
            old(self).wf(),
        ensures
            final(self).wf(),
            final(self).delay == sped_up(old(self).delay as int, old(self).min_delay as int, old(self).delay_step as int),
            final(self).world@ == old(self).world@,
            final(self).generation == old(self).generation,
            final(self).cursor == old(self).cursor,
            final(self).min_delay == old(self).min_delay,
            final(self).delay_step == old(self).delay_step,
    {
        if self.delay - self.min_delay >= self.delay_step {
            self.delay = self.delay - self.delay_step;
        }
    }

    /// Lengthens the delay by one step; at the top of the machine range it stays put.
    pub fn speed_down(&mut self)
        requires
            old(self).wf(),
        ensures
            final(self).wf(),
            final(self).delay == slowed_down(old(self).delay as int, old(self).delay_step as int),
            final(self).world@ == old(self).world@,
            final(self).generation == old(self).generation,
            final(self).cursor == old(self).cursor,
            final(self).min_delay == old(self).min_delay,
            final(self).delay_step == old(self).delay_step,
    {
        if self.delay <= usize::MAX - self.delay_step {
            self.delay = self.delay + self.delay_step;
        }
    }
}

impl Game {
    /// Handles one poll of the input in `phase`: `None` when no byte was ready.
    /// Returns the next phase and what the driver should show.
    ///
    /// On the splash screen only space matters, and leads to editing. While
    /// editing, movement keys move the cursor, space toggles the cell under it,
    /// and `p` starts the run. While running, `q` quits, `+` and `-` change the
    /// delay, `p` pauses; apart from quitting every poll, with or without a
    /// key, advances the world by one generation, the one that pauses too.
    /// While paused only space matters, and resumes without advancing.
    pub fn handle(&mut self, phase: Phase, input: Option<u8>) -> (r: (Phase, Action))
        requires
            old(self).wf(),
            phase == Phase::Running && run_binding(input) != RunCommand::Quit ==> old(self).generation
                < usize::MAX,
        ensures
            final(self).wf(),
            phase == Phase::Splash ==> Game::same_state(*final(self), *old(self)) && r == (
            if input == Some(SPACE) {
                (Phase::Editing, Action::Wait)
            } else {
                (Phase::Splash, Action::Wait)
            }),
            phase == Phase::Editing ==> final(self).generation == old(self).generation
                && final(self).delay == old(self).delay
                && final(self).min_delay == old(self).min_delay
                && final(self).delay_step == old(self).delay_step,
            phase == Phase::Editing && edit_key(input) == EditCommand::Toggle ==>
                final(self).world@ == toggled(old(self).world@, old(self).cursor)
                && final(self).cursor == old(self).cursor
                && r == (Phase::Editing, Action::DrawEditor),
            phase == Phase::Editing && edit_key(input) == EditCommand::Start ==>
                Game::same_state(*final(self), *old(self)) && r == (Phase::Running, Action::StartRun),
            phase == Phase::Editing && edit_key(input) == EditCommand::Ignore ==>
                Game::same_state(*final(self), *old(self)) && r == (Phase::Editing, Action::DrawEditor),
            phase == Phase::Editing ==> (edit_key(input) matches EditCommand::Move(d) ==>
                final(self).world@ == old(self).world@
                && final(self).cursor == wrap_step(rows(old(self).world@), cols(old(self).world@), old(self).cursor, d)
                && r == (Phase::Editing, Action::DrawEditor)),
            phase == Phase::Running && run_binding(input) == RunCommand::Quit ==>
                Game::same_state(*final(self), *old(self)) && r == (Phase::Finished, Action::Exit),
            phase == Phase::Running && run_binding(input) == RunCommand::Pause ==> r == (
            Phase::Paused,
            Action::DrawPaused,
            ),
            phase == Phase::Running && run_binding(input) != RunCommand::Quit
                && run_binding(input) != RunCommand::Pause ==> r == (Phase::Running, Action::DrawRunning),
            phase == Phase::Running && run_binding(input) != RunCommand::Quit ==>
                final(self).world@ == next_grid(old(self).world@)
                && final(self).generation == old(self).generation + 1
                && final(self).cursor == old(self).cursor
                && final(self).min_delay == old(self).min_delay
                && final(self).delay_step == old(self).delay_step
                && final(self).delay == (
                if run_binding(input) == RunCommand::SpeedUp {
                    sped_up(old(self).delay as int, old(self).min_delay as int, old(self).delay_step as int)
                } else if run_binding(input) == RunCommand::SpeedDown {
                    slowed_down(old(self).delay as int, old(self).delay_step as int)
                } else {
                    old(self).delay as int
                }),
            phase == Phase::Paused ==> Game::same_state(*final(self), *old(self)) && r == (
            if input == Some(SPACE) {
                (Phase::Running, Action::Wait)
            } else {
                (Phase::Paused, Action::Wait)
            }),
            phase == Phase::Finished ==> Game::same_state(*final(self), *old(self)) && r == (
            Phase::Finished,
            Action::Exit,
            ),
    {
        match phase {
            Phase::Splash => {
                if input == Some(SPACE) {
                    (Phase::Editing, Action::Wait)
                } else {
                    (Phase::Splash, Action::Wait)
                }
            },
            Phase::Editing => {
                let cmd = match input {
                    Some(b) => edit_command(b),
                    None => EditCommand::Ignore,
                };
                match cmd {
                    EditCommand::Move(d) => {
                        self.move_cursor(d);
                        (Phase::Editing, Action::DrawEditor)
                    },
                    EditCommand::Toggle => {
                        self.flip_cell();
                        (Phase::Editing, Action::DrawEditor)
                    },
                    EditCommand::Start => (Phase::Running, Action::StartRun),
                    EditCommand::Ignore => (Phase::Editing, Action::DrawEditor),
                }
            },
            Phase::Running => {
                match run_command(input) {
                    RunCommand::Quit => (Phase::Finished, Action::Exit),
                    RunCommand::Pause => {
                        self.advance_world();
                        (Phase::Paused, Action::DrawPaused)
                    },
                    RunCommand::SpeedUp => {
                        self.speed_up();
                        self.advance_world();
                        (Phase::Running, Action::DrawRunning)
                    },
                    RunCommand::SpeedDown => {
                        self.speed_down();
                        self.advance_world();
                        (Phase::Running, Action::DrawRunning)
                    },
                    RunCommand::Continue => {
                        self.advance_world();
                        (Phase::Running, Action::DrawRunning)
                    },
                }
            },
            Phase::Paused => {
                if input == Some(SPACE) {
                    (Phase::Running, Action::Wait)
                } else {
                    (Phase::Paused, Action::Wait)
                }
            },
            Phase::Finished => (Phase::Finished, Action::Exit),
        }
    }
}

/// However many speed-ups come in a row, the delay never drops below its floor.
pub proof fn lemma_speed_up_floor(delay: int, floor: int, step: int, n: nat)
    requires
        delay >= floor,
    ensures
        sped_up_times(delay, floor, step, n) >= floor,
    decreases n,
{
    if n > 0 {
        lemma_speed_up_floor(delay, floor, step, (n - 1) as nat);
    }
}

/// Slowing down has no ceiling of its own: `n` slow-downs add `n` steps for
/// as long as the sum fits in a machine word.
pub proof fn lemma_slow_down_unbounded(delay: int, step: int, n: nat)
    requires
        delay >= 0,
        step >= 0,
        delay + n * step <= usize::MAX,
    ensures
        slowed_down_times(delay, step, n) == delay + n * step,
    decreases n,
{
    if n > 0 {
        let m = (n - 1) as nat;
        assert(m * step <= n * step) by (nonlinear_arith)
            requires
                m + 1 == n,
                step >= 0,
        ;
        assert(m * step + step == n * step) by (nonlinear_arith)
            requires
                m + 1 == n,
        ;
        lemma_slow_down_unbounded(delay, step, m);
        assert(slowed_down_times(delay, step, n) == slowed_down(delay + m * step, step));
    } else {
        assert(n * step == 0) by (nonlinear_arith)
            requires
                n == 0,
        ;
    }
}

} // verus!
