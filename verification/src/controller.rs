use vstd::prelude::*;

use crate::grid::{next_generation, toggled, Grid};
use crate::import_modal::{selection_down, selection_up, ImportModal};
use crate::{divides, trunc_div};

verus! {

/// Frames per second while the grid is edited.
pub const EDIT_FPS: i32 = 24;

/// Frames per second when the game is first started.
pub const RUN_FPS: i32 = 10;

/// Frames per second after the grid is cleared during setup.
pub const CLEAR_FPS: i32 = 30;

/// The number of frames after a click during which clicks are ignored.
pub const COOLDOWN_TIMER: i32 = 8;

/// What the game is doing.
#[derive(Clone, Copy, Debug, PartialEq, Eq, Structural)]
pub enum CurrentState {
    /// Before the first start, or after the grid was cleared or imported: cells can be edited.
    Setup,
    /// Stopped: cells can be edited and the speed changed.
    Paused,
    /// Generations follow each other.
    Running,
    /// The file chooser is open.
    Import,
}

/// The keys the game answers to; every other key is `Other`.
#[derive(Clone, Copy, Debug, PartialEq, Eq, Structural)]
pub enum Key {
    Escape,
    R,
    Q,
    Return,
    I,
    E,
    M,
    Plus,
    Minus,
    Up,
    Down,
    Other,
}

/// An event of the window.
#[derive(Clone, Copy, Debug, PartialEq, Eq, Structural)]
pub enum Event {
    /// The window is closed.
    Quit,
    /// A key is pressed.
    KeyDown(Key),
    /// Anything else.
    Other,
}

/// What the caller has to do after an event.
#[derive(Clone, Copy, Debug, PartialEq, Eq, Structural)]
pub enum Action {
    /// Nothing more.
    Nothing,
    /// Stop the game, ignoring the events that follow.
    Quit,
    /// Replace the grid by a random one.
    RandomGrid,
    /// Replace the grid by an empty one.
    EmptyGrid,
    /// Replace the grid by the one in the default file.
    ImportDefault,
    /// Save the grid to the export file.
    Export,
    /// Show the name of the file now selected in the chooser.
    ShowSelection,
    /// Replace the grid by the one in the file selected in the chooser.
    ImportChosen,
}

/// What an event does to the file chooser.
#[derive(Clone, Copy, Debug, PartialEq, Eq, Structural)]
pub enum ModalChange {
    Keep,
    Toggle,
    Up,
    Down,
}

/// The game's state between frames: what it is doing, its speed, the speed
/// to resume at, and the click cooldown.
#[derive(Clone, Copy, Debug, PartialEq, Eq, Structural)]
pub struct Controller {
    pub state: CurrentState,
    pub fps: i32,
    pub stored_fps: i32,
    pub cooldown_counter: i32,
    pub on_cooldown: bool,
}

/// The controller's invariant: positive speeds, and a cooldown counter
/// that runs from 0 up to `COOLDOWN_TIMER` while on cooldown and is 0 otherwise.
pub open spec fn controller_wf(c: Controller) -> bool {
    &&& c.fps >= 1
    &&& c.stored_fps >= 1
    &&& 0 <= c.cooldown_counter < COOLDOWN_TIMER
    &&& !c.on_cooldown ==> c.cooldown_counter == 0
}

/// Whether the event quits the game.
pub open spec fn is_quit(event: Event) -> bool {
    event == Event::Quit || event == Event::KeyDown(Key::Escape)
}

/// Whether the event raises the speed in a frame that began in `frame`.
pub open spec fn speeds_up(frame: CurrentState, event: Event) -> bool {
    (frame == CurrentState::Paused || frame == CurrentState::Running) && event == Event::KeyDown(
        Key::Plus,
    )
}

/// The speed one step lower, never below 1.
pub open spec fn slower(fps: int) -> int {
    if fps == 1 {
        1
    } else {
        fps - 1
    }
}

/// What an event does, in a frame that began in `frame`: the new controller
/// and what the caller has to do.
pub open spec fn transition(c: Controller, frame: CurrentState, event: Event) -> (Controller, Action) {
    if is_quit(event) {
        (c, Action::Quit)
    } else {
        match frame {
            CurrentState::Setup => match event {
                Event::KeyDown(Key::R) => (c, Action::RandomGrid),
                Event::KeyDown(Key::Q) => (
                    Controller { fps: CLEAR_FPS, state: CurrentState::Setup, ..c },
                    Action::EmptyGrid,
                ),
                Event::KeyDown(Key::Return) => (
                    Controller { fps: RUN_FPS, state: CurrentState::Running, ..c },
                    Action::Nothing,
                ),
                Event::KeyDown(Key::I) => (
                    Controller { fps: EDIT_FPS, state: CurrentState::Setup, ..c },
                    Action::ImportDefault,
                ),
                Event::KeyDown(Key::E) => (c, Action::Export),
                _ => (c, Action::Nothing),
            },
            CurrentState::Paused => match event {
                Event::KeyDown(Key::R) => (c, Action::RandomGrid),
                Event::KeyDown(Key::Q) => (
                    Controller { fps: EDIT_FPS, state: CurrentState::Setup, ..c },
                    Action::EmptyGrid,
                ),
                Event::KeyDown(Key::I) => (
                    Controller { fps: EDIT_FPS, state: CurrentState::Setup, ..c },
                    Action::ImportDefault,
                ),
                Event::KeyDown(Key::E) => (c, Action::Export),
                Event::KeyDown(Key::M) => (
                    Controller { state: CurrentState::Import, ..c },
                    Action::Nothing,
                ),
                Event::KeyDown(Key::Return) => (
                    Controller { fps: c.stored_fps, state: CurrentState::Running, ..c },
                    Action::Nothing,
                ),
                Event::KeyDown(Key::Plus) => (
                    Controller { fps: (c.fps + 1) as i32, ..c },
                    Action::Nothing,
                ),
                Event::KeyDown(Key::Minus) => (
                    Controller { fps: slower(c.fps as int) as i32, ..c },
                    Action::Nothing,
                ),
                _ => (c, Action::Nothing),
            },
            CurrentState::Running => match event {
                Event::KeyDown(Key::Return) => (
                    Controller {
                        stored_fps: c.fps,
                        fps: EDIT_FPS,
                        state: CurrentState::Paused,
                        ..c
                    },
                    Action::Nothing,
                ),
                Event::KeyDown(Key::Plus) => (
                    Controller { fps: (c.fps + 1) as i32, ..c },
                    Action::Nothing,
                ),
                Event::KeyDown(Key::Minus) => (
                    Controller { fps: slower(c.fps as int) as i32, ..c },
                    Action::Nothing,
                ),
                _ => (c, Action::Nothing),
            },
            CurrentState::Import => match event {
                Event::KeyDown(Key::M) => (
                    Controller { state: CurrentState::Paused, ..c },
                    Action::Nothing,
                ),
                Event::KeyDown(Key::Up) => (c, Action::ShowSelection),
                Event::KeyDown(Key::Down) => (c, Action::ShowSelection),
                Event::KeyDown(Key::Return) => (
                    Controller { fps: EDIT_FPS, state: CurrentState::Setup, ..c },
                    Action::ImportChosen,
                ),
                _ => (c, Action::Nothing),
            },
        }
    }
}

/// What an event does to the file chooser, in a frame that began in `frame`.
pub open spec fn modal_change(frame: CurrentState, event: Event) -> ModalChange {
    if is_quit(event) {
        ModalChange::Keep
    } else {
        match (frame, event) {
            (CurrentState::Paused, Event::KeyDown(Key::M)) => ModalChange::Toggle,
            (CurrentState::Import, Event::KeyDown(Key::M)) => ModalChange::Toggle,
            (CurrentState::Import, Event::KeyDown(Key::Return)) => ModalChange::Toggle,
            (CurrentState::Import, Event::KeyDown(Key::Up)) => ModalChange::Up,
            (CurrentState::Import, Event::KeyDown(Key::Down)) => ModalChange::Down,
            _ => ModalChange::Keep,
        }
    }
}

/// The cooldown after one more frame spent on cooldown: the counter goes up
/// by one and the cooldown ends when it reaches `COOLDOWN_TIMER`.
pub open spec fn cooldown_tick(counter: int) -> (bool, int) {
    if counter + 1 == COOLDOWN_TIMER {
        (false, 0)
    } else {
        (true, counter + 1)
    }
}

/// The cooldown after `k` more frames on cooldown, from counter `counter`.
pub open spec fn cooldown_after(counter: int, k: nat) -> (bool, int)
    decreases k,
{
    if k == 0 {
        (true, counter)
    } else {
        let (on, next) = cooldown_after(counter, (k - 1) as nat);
        if on {
            cooldown_tick(next)
        } else {
            (on, next)
        }
    }
}

/// A click taken blocks the clicks of exactly the `COOLDOWN_TIMER` frames
/// that follow: the cooldown starts at 0, lasts through the first
/// `COOLDOWN_TIMER - 1` of those frames and ends at the last of them.
pub proof fn lemma_cooldown_length(k: nat)
    requires
        1 <= k <= COOLDOWN_TIMER,
    ensures
        k < COOLDOWN_TIMER ==> cooldown_after(0, k) == (true, k as int),
        k == COOLDOWN_TIMER ==> cooldown_after(0, k) == (false, 0int),
    decreases k,
{
    if k > 1 {
        lemma_cooldown_length((k - 1) as nat);
    } else {
        assert(cooldown_after(0, 0) == (true, 0int));
    }
}

/// Closing the window or pressing Escape quits in every state, and changes nothing else.
pub proof fn lemma_quit_always(c: Controller, frame: CurrentState, event: Event)
    requires
        is_quit(event),
    ensures
        transition(c, frame, event) == (c, Action::Quit),
        modal_change(frame, event) == ModalChange::Keep,
{
}

/// Pausing a running game and resuming it gives back the speed it ran at.
pub proof fn lemma_pause_resume(c: Controller)
    requires
        controller_wf(c),
    ensures
        ({
            let (paused, a1) = transition(c, CurrentState::Running, Event::KeyDown(Key::Return));
            let (resumed, a2) = transition(
                paused,
                CurrentState::Paused,
                Event::KeyDown(Key::Return),
            );
            &&& paused.state == CurrentState::Paused
            &&& paused.fps == EDIT_FPS
            &&& resumed.state == CurrentState::Running
            &&& resumed.fps == c.fps
            &&& a1 == Action::Nothing
            &&& a2 == Action::Nothing
        }),
{
}

/// Speeding up and then slowing down, while paused or running, gives back the
/// speed; slowing down never takes the speed below 1.
pub proof fn lemma_speed_up_then_down(c: Controller, frame: CurrentState)
    requires
        controller_wf(c),
        frame == CurrentState::Paused || frame == CurrentState::Running,
        c.fps < i32::MAX,
    ensures
        ({
            let (faster, _) = transition(c, frame, Event::KeyDown(Key::Plus));
            let (back, _) = transition(faster, frame, Event::KeyDown(Key::Minus));
            back == c
        }),
        transition(c, frame, Event::KeyDown(Key::Minus)).0.fps >= 1,
{
}

/// Opening the chooser from the paused game and closing it again shows and
/// hides it, and comes back to the paused game.
pub proof fn lemma_open_close_chooser(c: Controller)
    ensures
        ({
            let (open, _) = transition(c, CurrentState::Paused, Event::KeyDown(Key::M));
            let (closed, _) = transition(open, CurrentState::Import, Event::KeyDown(Key::M));
            &&& open.state == CurrentState::Import
            &&& closed == Controller { state: CurrentState::Paused, ..c }
            &&& modal_change(CurrentState::Paused, Event::KeyDown(Key::M)) == ModalChange::Toggle
            &&& modal_change(CurrentState::Import, Event::KeyDown(Key::M)) == ModalChange::Toggle
        }),
{
}

/// While running, only Escape, Return, Plus and Minus do anything: every
/// other key leaves the game as it is and asks for nothing (R, for one, does
/// not reload the grid).
pub proof fn lemma_running_ignores_other_keys(c: Controller, k: Key)
    requires
        k != Key::Escape,
        k != Key::Return,
        k != Key::Plus,
        k != Key::Minus,
    ensures
        transition(c, CurrentState::Running, Event::KeyDown(k)) == (c, Action::Nothing),
        modal_change(CurrentState::Running, Event::KeyDown(k)) == ModalChange::Keep,
{
}

/// In setup only Escape, R, Q, Return, I and E do anything.
pub proof fn lemma_setup_ignores_other_keys(c: Controller, k: Key)
    requires
        k != Key::Escape,
        k != Key::R,
        k != Key::Q,
        k != Key::Return,
        k != Key::I,
        k != Key::E,
    ensures
        transition(c, CurrentState::Setup, Event::KeyDown(k)) == (c, Action::Nothing),
        modal_change(CurrentState::Setup, Event::KeyDown(k)) == ModalChange::Keep,
{
}

/// While paused only Escape, R, Q, I, E, M, Return, Plus and Minus do anything.
pub proof fn lemma_paused_ignores_other_keys(c: Controller, k: Key)
    requires
        k != Key::Escape,
        k != Key::R,
        k != Key::Q,
        k != Key::I,
        k != Key::E,
        k != Key::M,
        k != Key::Return,
        k != Key::Plus,
        k != Key::Minus,
    ensures
        transition(c, CurrentState::Paused, Event::KeyDown(k)) == (c, Action::Nothing),
        modal_change(CurrentState::Paused, Event::KeyDown(k)) == ModalChange::Keep,
{
}

/// With the chooser open only Escape, M, Up, Down and Return do anything.
pub proof fn lemma_import_ignores_other_keys(c: Controller, k: Key)
    requires
        k != Key::Escape,
        k != Key::M,
        k != Key::Up,
        k != Key::Down,
        k != Key::Return,
    ensures
        transition(c, CurrentState::Import, Event::KeyDown(k)) == (c, Action::Nothing),
        modal_change(CurrentState::Import, Event::KeyDown(k)) == ModalChange::Keep,
{
}

/// Events other than closing the window and key presses do nothing in any state.
pub proof fn lemma_other_events_ignored(c: Controller, frame: CurrentState)
    ensures
        transition(c, frame, Event::Other) == (c, Action::Nothing),
        modal_change(frame, Event::Other) == ModalChange::Keep,
{
}

/// Which key in which state asks for each action: the grid is reloaded at
/// random (R), emptied (Q), imported from the default file (I) or saved (E)
/// only while setting up or paused; the selection is shown after Up or Down
/// and the chosen file imported after Return only with the chooser open; the
/// game quits on closing the window or Escape, in any state.
pub proof fn lemma_actions(c: Controller, frame: CurrentState, event: Event)
    ensures
        ({
            let action = transition(c, frame, event).1;
            let editing = frame == CurrentState::Setup || frame == CurrentState::Paused;
            &&& (action == Action::Quit) == (event == Event::Quit || event == Event::KeyDown(
                Key::Escape,
            ))
            &&& (action == Action::RandomGrid) == (editing && event == Event::KeyDown(Key::R))
            &&& (action == Action::EmptyGrid) == (editing && event == Event::KeyDown(Key::Q))
            &&& (action == Action::ImportDefault) == (editing && event == Event::KeyDown(Key::I))
            &&& (action == Action::Export) == (editing && event == Event::KeyDown(Key::E))
            &&& (action == Action::ShowSelection) == (frame == CurrentState::Import && (event
                == Event::KeyDown(Key::Up) || event == Event::KeyDown(Key::Down)))
            &&& (action == Action::ImportChosen) == (frame == CurrentState::Import && event
                == Event::KeyDown(Key::Return))
        }),
{
}

/// How the keys move between states: Return starts the game from setup or
/// pause and pauses a running one, M opens the chooser from the pause and
/// closes it back to the pause, Q and I go back to setup from setup or
/// pause, and Return in the chooser imports and goes back to setup.
pub proof fn lemma_state_changes(c: Controller, frame: CurrentState, event: Event)
    requires
        event != Event::Quit,
        event != Event::KeyDown(Key::Escape),
    ensures
        ({
            let next = transition(c, frame, event).0.state;
            let editing = frame == CurrentState::Setup || frame == CurrentState::Paused;
            &&& editing && event == Event::KeyDown(Key::Return) ==> next == CurrentState::Running
            &&& frame == CurrentState::Running && event == Event::KeyDown(Key::Return) ==> next
                == CurrentState::Paused
            &&& frame == CurrentState::Paused && event == Event::KeyDown(Key::M) ==> next
                == CurrentState::Import
            &&& frame == CurrentState::Import && event == Event::KeyDown(Key::M) ==> next
                == CurrentState::Paused
            &&& editing && (event == Event::KeyDown(Key::Q) || event == Event::KeyDown(Key::I))
                ==> next == CurrentState::Setup
            &&& frame == CurrentState::Import && event == Event::KeyDown(Key::Return) ==> next
                == CurrentState::Setup
        }),
{
}

/// Plus raises the speed by one and Minus lowers it by one, down to 1, while
/// paused or running; in setup and in the chooser they leave it alone.
pub proof fn lemma_speed_keys(c: Controller, frame: CurrentState)
    requires
        controller_wf(c),
        c.fps < i32::MAX,
    ensures
        frame == CurrentState::Paused || frame == CurrentState::Running ==> {
            &&& transition(c, frame, Event::KeyDown(Key::Plus)).0.fps == c.fps + 1
            &&& transition(c, frame, Event::KeyDown(Key::Minus)).0.fps == (if c.fps > 1 {
                c.fps - 1
            } else {
                1
            })
        },
        frame == CurrentState::Setup || frame == CurrentState::Import ==> {
            &&& transition(c, frame, Event::KeyDown(Key::Plus)).0.fps == c.fps
            &&& transition(c, frame, Event::KeyDown(Key::Minus)).0.fps == c.fps
        },
{
}

/// What the keys do to the chooser: M opens it from the pause and closes
/// it again, Return closes it while importing, Up and Down move the
/// selection while it is open; nothing else touches it.
pub proof fn lemma_chooser_keys(frame: CurrentState, event: Event)
    ensures
        (modal_change(frame, event) == ModalChange::Toggle) == ((frame == CurrentState::Paused
            && event == Event::KeyDown(Key::M)) || (frame == CurrentState::Import && (event
            == Event::KeyDown(Key::M) || event == Event::KeyDown(Key::Return)))),
        (modal_change(frame, event) == ModalChange::Up) == (frame == CurrentState::Import && event
            == Event::KeyDown(Key::Up)),
        (modal_change(frame, event) == ModalChange::Down) == (frame == CurrentState::Import
            && event == Event::KeyDown(Key::Down)),
{
}

impl Controller {
    /// The state the game starts in: setting up, at editing speed, to run at
    /// `RUN_FPS` when started, with no cooldown.
    pub fn new() -> (c: Controller)
        ensures
            controller_wf(c),
            c.state == CurrentState::Setup,
            c.fps == EDIT_FPS,
            c.stored_fps == RUN_FPS,
            c.cooldown_counter == 0,
            !c.on_cooldown,
    {
        Controller {
            state: CurrentState::Setup,
            fps: EDIT_FPS,
            stored_fps: RUN_FPS,
            cooldown_counter: 0,
            on_cooldown: false,
        }
    }

    /// Handles one event of a frame that began in `frame` (every event of a
    /// frame is handled as that state says, even after one changes the state),
    /// opening, closing or moving through the file chooser as the event says.
    pub fn handle_event(&mut self, frame: CurrentState, event: Event, modal: &mut ImportModal) -> (action: Action)
        requires
            controller_wf(*old(self)),
            modal_change(frame, event) == ModalChange::Up || modal_change(frame, event)
                == ModalChange::Down ==> old(modal).entries().len() > 0,
            speeds_up(frame, event) ==> old(self).fps < i32::MAX,
        ensures
            controller_wf(*final(self)),
            (*final(self), action) == transition(*old(self), frame, event),
            final(modal).entries() == old(modal).entries(),
            final(modal).frame() == old(modal).frame(),
            final(modal).shown() == (if modal_change(frame, event) == ModalChange::Toggle {
                !old(modal).shown()
            } else {
                old(modal).shown()
            }),
            final(modal).selection() == (match modal_change(frame, event) {
                ModalChange::Up => selection_up(old(modal).selection()),
                ModalChange::Down => selection_down(
                    old(modal).selection(),
                    old(modal).entries().len() as int,
                ),
                _ => old(modal).selection(),
            }),
    {
        match event {
            Event::Quit | Event::KeyDown(Key::Escape) => {
                return Action::Quit;
            },
            _ => {},
        }
        match frame {
            CurrentState::Setup => match event {
                Event::KeyDown(Key::R) => Action::RandomGrid,
                Event::KeyDown(Key::Q) => {
                    self.fps = CLEAR_FPS;
                    self.state = CurrentState::Setup;
                    Action::EmptyGrid
                },
                Event::KeyDown(Key::Return) => {
                    self.fps = RUN_FPS;
                    self.state = CurrentState::Running;
                    Action::Nothing
                },
                Event::KeyDown(Key::I) => {
                    self.fps = EDIT_FPS;
                    self.state = CurrentState::Setup;
                    Action::ImportDefault
                },
                Event::KeyDown(Key::E) => Action::Export,
                _ => Action::Nothing,
            },
            CurrentState::Paused => match event {
                Event::KeyDown(Key::R) => Action::RandomGrid,
                Event::KeyDown(Key::Q) => {
                    self.fps = EDIT_FPS;
                    self.state = CurrentState::Setup;
                    Action::EmptyGrid
                },
                Event::KeyDown(Key::I) => {
                    self.fps = EDIT_FPS;
                    self.state = CurrentState::Setup;
                    Action::ImportDefault
                },
                Event::KeyDown(Key::E) => Action::Export,
                Event::KeyDown(Key::M) => {
                    modal.toggle();
                    self.state = CurrentState::Import;
                    Action::Nothing
                },
                Event::KeyDown(Key::Return) => {
                    self.fps = self.stored_fps;
                    self.state = CurrentState::Running;
                    Action::Nothing
                },
                Event::KeyDown(Key::Plus) => {
                    self.fps = self.fps + 1;
                    Action::Nothing
                },
                Event::KeyDown(Key::Minus) => {
                    self.fps = if self.fps == 1 {
                        1
                    } else {
                        self.fps - 1
                    };
                    Action::Nothing
                },
                _ => Action::Nothing,
            },
            CurrentState::Running => match event {
                Event::KeyDown(Key::Return) => {
                    self.stored_fps = self.fps;
                    self.fps = EDIT_FPS;
                    self.state = CurrentState::Paused;
                    Action::Nothing
                },
                Event::KeyDown(Key::Plus) => {
                    self.fps = self.fps + 1;
                    Action::Nothing
                },
                Event::KeyDown(Key::Minus) => {
                    self.fps = if self.fps == 1 {
                        1
                    } else {
                        self.fps - 1
                    };
                    Action::Nothing
                },
                _ => Action::Nothing,
            },
            CurrentState::Import => match event {
                Event::KeyDown(Key::M) => {
                    modal.toggle();
                    self.state = CurrentState::Paused;
                    Action::Nothing
                },
                Event::KeyDown(Key::Up) => {
                    modal.up();
                    Action::ShowSelection
                },
                Event::KeyDown(Key::Down) => {
                    modal.down();
                    Action::ShowSelection
                },
                Event::KeyDown(Key::Return) => {
                    self.fps = EDIT_FPS;
                    modal.toggle();
                    self.state = CurrentState::Setup;
                    Action::ImportChosen
                },
                _ => Action::Nothing,
            },
        }
    }

    /// The work at the end of a frame that began in `frame`. While setting up
    /// or paused, a left click at pixel (`mouse_x`, `mouse_y`) flips the cell
    /// under it unless a click was taken less than `COOLDOWN_TIMER` frames
    /// ago; a click taken starts the cooldown, and each frame on cooldown
    /// counts towards its end. While running, the grid advances one
    /// generation. The file chooser changes nothing.
    pub fn end_of_frame(
        &mut self,
        frame: CurrentState,
        grid: &mut Grid,
        left: bool,
        mouse_x: i32,
        mouse_y: i32,
    )
        requires
            controller_wf(*old(self)),
            (frame == CurrentState::Setup || frame == CurrentState::Paused) && !old(self).on_cooldown
                && left ==> divides(mouse_x as int, old(grid).cell_size()) && divides(
                mouse_y as int,
                old(grid).cell_size(),
            ),
        ensures
            controller_wf(*final(self)),
            final(self).state == old(self).state,
            final(self).fps == old(self).fps,
            final(self).stored_fps == old(self).stored_fps,
            final(grid).rows() == old(grid).rows(),
            final(grid).columns() == old(grid).columns(),
            final(grid).cell_size() == old(grid).cell_size(),
            frame == CurrentState::Setup || frame == CurrentState::Paused ==> {
                if !old(self).on_cooldown {
                    &&& final(grid)@ == (if left {
                        toggled(
                            old(grid)@,
                            trunc_div(mouse_x as int, old(grid).cell_size()),
                            trunc_div(mouse_y as int, old(grid).cell_size()),
                        )
                    } else {
                        old(grid)@
                    })
                    &&& final(self).on_cooldown == left
                    &&& final(self).cooldown_counter == 0
                } else {
                    &&& final(grid)@ == old(grid)@
                    &&& (final(self).on_cooldown, final(self).cooldown_counter as int)
                        == cooldown_tick(old(self).cooldown_counter as int)
                }
            },
            frame == CurrentState::Running ==> {
                &&& final(grid)@ == next_generation(old(grid)@, old(grid).columns(), old(grid).rows())
                &&& final(self).on_cooldown == old(self).on_cooldown
                &&& final(self).cooldown_counter == old(self).cooldown_counter
            },
            frame == CurrentState::Import ==> {
                &&& final(grid)@ == old(grid)@
                &&& final(self).on_cooldown == old(self).on_cooldown
                &&& final(self).cooldown_counter == old(self).cooldown_counter
            },
    {
        match frame {
            CurrentState::Setup | CurrentState::Paused => {
                if !self.on_cooldown {
                    if grid.update(left, mouse_x, mouse_y) {
                        self.on_cooldown = true;
                    }
                } else {
                    self.cooldown_counter = self.cooldown_counter + 1;
                    if self.cooldown_counter == COOLDOWN_TIMER {
                        self.on_cooldown = false;
                        self.cooldown_counter = 0;
                    }
                }
            },
            CurrentState::Running => {
                grid.tick();
            },
            CurrentState::Import => {},
        }
    }

    /// How long a frame lasts, in nanoseconds, at the current speed.
    pub fn frame_nanos(&self) -> (n: u32)
        requires
            controller_wf(*self),
        ensures
            n == 1_000_000_000int / (self.fps as int),
    {
        1_000_000_000u32 / (self.fps as u32)
    }
}

} // verus!
