use vstd::prelude::*;

use crate::battlefield::Battlefield;
use crate::gui::{Gui, Popup};
use crate::input::{InputEvent, InputState};
use crate::camera::Rect;
use crate::scene::{Scene, camera_after_event, max_camera_pos, scene_commands};
use crate::screen::{EventStatus, ScreenCommand, ScreenType};
use crate::types::Size2;

verus! {

/// The game state the top-level loop is in.
#[derive(Debug)]
pub enum GameState {
    Menu,
    Battle(Battlefield),
}

/// A request to the top-level loop.
#[derive(Debug)]
pub enum GameCommand {
    ChangeState(GameState),
}

impl GameCommand {
    /// The screen that the command asks for.
    pub open spec fn target(self) -> ScreenType {
        match self {
            GameCommand::ChangeState(GameState::Menu) => ScreenType::Menu,
            GameCommand::ChangeState(GameState::Battle(_)) => ScreenType::Battle,
        }
    }
}

/// The index of the topmost popup among the first `n` that claims `event`.
pub open spec fn first_claimer(popups: Seq<Popup>, input: InputState, event: InputEvent, n: int) -> Option<int>
    decreases n,
{
    if n <= 0 {
        None
    } else if popups[n - 1].claims(input, event) {
        Some(n - 1)
    } else {
        first_claimer(popups, input, event, n - 1)
    }
}

/// Whether the world view gets to see `event`: no popup and not the overlay claimed it.
pub open spec fn scene_sees(popups: Seq<Popup>, gui: Gui, input: InputState, event: InputEvent) -> bool {
    first_claimer(popups, input, event, popups.len() as int) is None && !gui.claims(input, event)
}

/// The requests issued while `event` runs down the chain: only the consumer
/// that claims it issues any.
pub open spec fn dispatch_commands(
    popups: Seq<Popup>,
    gui: Gui,
    has_scene: bool,
    input: InputState,
    event: InputEvent,
) -> Seq<ScreenCommand> {
    match first_claimer(popups, input, event, popups.len() as int) {
        Some(k) => popups[k].commands_for(input, event),
        None => if gui.claims(input, event) {
            gui.commands_for(input, event)
        } else if has_scene {
            scene_commands(event)
        } else {
            Seq::empty()
        },
    }
}

/// The popups and closing flag after carrying out `cmd`.
pub open spec fn apply_command(popups: Seq<Popup>, closing: bool, cmd: ScreenCommand) -> (Seq<Popup>, bool) {
    match cmd {
        ScreenCommand::ChangeScreen(ScreenType::ShuttingDown) => (Seq::empty(), true),
        ScreenCommand::ChangeScreen(_) => (popups, closing),
        ScreenCommand::PushPopup(p) => (popups.push(p), closing),
        ScreenCommand::PopPopup => if popups.len() > 0 {
            (popups.drop_last(), closing)
        } else {
            (popups, closing)
        },
    }
}

/// The popups and closing flag after carrying out `cmds` in order.
pub open spec fn apply_commands(popups: Seq<Popup>, closing: bool, cmds: Seq<ScreenCommand>) -> (Seq<Popup>, bool)
    decreases cmds.len(),
{
    if cmds.len() == 0 {
        (popups, closing)
    } else {
        let (p, c) = apply_command(popups, closing, cmds[0]);
        apply_commands(p, c, cmds.drop_first())
    }
}

/// The screen changes that `cmds` ask of the top-level loop, in order.
pub open spec fn requested_screens(cmds: Seq<ScreenCommand>) -> Seq<ScreenType>
    decreases cmds.len(),
{
    if cmds.len() == 0 {
        Seq::empty()
    } else {
        let first = match cmds[0] {
            ScreenCommand::ChangeScreen(ScreenType::Menu) => seq![ScreenType::Menu],
            ScreenCommand::ChangeScreen(ScreenType::Battle) => seq![ScreenType::Battle],
            _ => Seq::empty(),
        };
        first + requested_screens(cmds.drop_first())
    }
}

/// The screens of the program and the chain that input runs down: popups from the
/// topmost down, then the overlay, then the world view (when a battle is shown).
pub struct Visualizer {
    pub scene: Option<Scene>,
    pub gui: Gui,
    pub popups: Vec<Popup>,
    pub should_close: bool,
    pub input: InputState,
    pub commands: Vec<ScreenCommand>,
}

impl Visualizer {
    pub open spec fn wf(&self) -> bool {
        self.scene is Some ==> self.scene->Some_0.wf()
    }

    /// The menu screen, without a scene, in a window of `win_size`.
    pub fn new(win_size: Size2, gui: Gui) -> (v: Visualizer)
        ensures
            v.wf(),
            v.scene is None,
            v.gui == gui,
            v.popups@.len() == 0,
            !v.should_close,
            v.input == InputState::new_spec(win_size),
            v.commands@.len() == 0,
    {
        Visualizer {
            scene: None,
            gui,
            popups: Vec::new(),
            should_close: false,
            input: InputState::new(win_size),
            commands: Vec::new(),
        }
    }

    /// Replaces the overlay.
    pub fn new_gui(&mut self, gui: Gui)
        ensures
            *final(self) == (Visualizer { gui, ..*old(self) }),
    {
        self.gui = gui;
    }

    /// Starts showing `battlefield` with a fresh scene.
    pub fn new_scene(&mut self, battlefield: &Battlefield)
        requires
            old(self).wf(),
        ensures
            final(self).wf(),
            final(self).scene is Some,
            final(self).scene->Some_0.store()@.len() == 0,
            final(self).scene->Some_0.index()@.len() == 0,
            final(self).scene->Some_0.bindings()@.len() == 0,
            final(self).scene->Some_0.cam().bounds == Rect::spec_spanning_origin(
                max_camera_pos(battlefield.size()),
            ),
            final(self).scene->Some_0.cam().viewport == old(self).input.win_size,
            final(self).gui == old(self).gui,
            final(self).popups == old(self).popups,
            final(self).input == old(self).input,
    {
        self.scene = Some(Scene::new(battlefield.map_size(), self.input.win_size));
    }

    /// Runs `event` down the chain. The input state takes in the event's button
    /// and window changes first; each popup, from the topmost down, then the
    /// overlay, then the scene, is offered the event until one claims it. A
    /// consumer below the one that claimed it does not see it. The requests
    /// issued are queued for `handle_commands`.
    pub fn handle_event(&mut self, event: &InputEvent) -> (r: EventStatus)
        requires
            old(self).wf(),
        ensures
            final(self).wf(),
            ({
                let input = old(self).input.before_event(*event);
                let popups = old(self).popups@;
                let first = first_claimer(popups, input, *event, popups.len() as int);
                &&& final(self).input == input.after_event(*event)
                &&& final(self).popups == old(self).popups
                &&& final(self).gui == old(self).gui
                &&& final(self).should_close == old(self).should_close
                &&& final(self).commands@ == old(self).commands@ + dispatch_commands(
                    popups,
                    old(self).gui,
                    old(self).scene is Some,
                    input,
                    *event,
                )
                &&& r == (if first is Some || old(self).gui.claims(input, *event) || old(self).scene is Some {
                    EventStatus::Handled
                } else {
                    EventStatus::NotHandled
                })
                &&& if old(self).scene is Some && scene_sees(popups, old(self).gui, input, *event) {
                    let s0 = old(self).scene->Some_0;
                    let s1 = final(self).scene->Some_0;
                    &&& final(self).scene is Some
                    &&& s1.cam() == camera_after_event(s0.cam(), input, *event)
                    &&& s1.store() == s0.store()
                    &&& s1.index() == s0.index()
                    &&& s1.bindings() == s0.bindings()
                } else {
                    final(self).scene == old(self).scene
                }
            }),
    {
        self.input.handle_event_pre(event);
        let input = self.input;
        let ghost popups = self.popups@;
        let ghost cmds0 = self.commands@;
        let mut status = EventStatus::NotHandled;
        let mut i: usize = self.popups.len();
        while i > 0 && status == EventStatus::NotHandled
            invariant
                i <= popups.len(),
                self.popups@ == popups,
                self.popups == old(self).popups,
                self.scene == old(self).scene,
                self.gui == old(self).gui,
                self.should_close == old(self).should_close,
                self.input == input,
                input == old(self).input.before_event(*event),
                self.wf(),
                status == EventStatus::NotHandled ==> first_claimer(popups, input, *event, popups.len() as int)
                    == first_claimer(popups, input, *event, i as int) && self.commands@ == cmds0,
                status == EventStatus::Handled ==> first_claimer(popups, input, *event, popups.len() as int)
                    == Some(i as int) && self.commands@ == cmds0 + popups[i as int].commands_for(input, *event),
            decreases i,
        {
            i = i - 1;
            status = self.popups[i].handle_event(&input, event, &mut self.commands);
            if status == EventStatus::NotHandled {
                assert(self.commands@ == cmds0);
            }
        }
        if status == EventStatus::NotHandled {
            assert(first_claimer(popups, input, *event, i as int) is None);
            status = self.gui.handle_event(&input, event, &mut self.commands);
            if status == EventStatus::NotHandled {
                assert(self.commands@ == cmds0);
                let taken = self.scene.take();
                match taken {
                    Some(mut s) => {
                        status = s.handle_event(&input, event, &mut self.commands);
                        self.scene = Some(s);
                    },
                    None => {},
                }
            }
        }
        self.input.handle_event_post(event);
        status
    }

    /// Carries out the queued requests in order: a popup push or pop changes the
    /// popup stack (a pop on an empty stack does nothing), a request to shut down
    /// closes every popup and stops the program, and a request for the menu or a
    /// battle is handed to the top-level loop, a battle with a new battlefield.
    pub fn handle_commands(&mut self) -> (r: Vec<GameCommand>)
        requires
            old(self).wf(),
        ensures
            final(self).wf(),
            (final(self).popups@, final(self).should_close) == apply_commands(
                old(self).popups@,
                old(self).should_close,
                old(self).commands@,
            ),
            final(self).commands@.len() == 0,
            r@.map_values(|c: GameCommand| c.target()) == requested_screens(old(self).commands@),
            forall|k: int| 0 <= k < r@.len() ==> match #[trigger] r@[k] {
                GameCommand::ChangeState(GameState::Battle(b)) => b.is_initial(),
                _ => true,
            },
            final(self).scene == old(self).scene,
            final(self).gui == old(self).gui,
            final(self).input == old(self).input,
    {
        let mut pending: Vec<ScreenCommand> = Vec::new();
        std::mem::swap(&mut pending, &mut self.commands);
        let ghost all = pending@;
        let mut out: Vec<GameCommand> = Vec::new();
        while pending.len() > 0
            invariant
                self.commands@.len() == 0,
                apply_commands(self.popups@, self.should_close, pending@) == apply_commands(
                    old(self).popups@,
                    old(self).should_close,
                    all,
                ),
                out@.map_values(|c: GameCommand| c.target()) + requested_screens(pending@) == requested_screens(all),
                forall|k: int| 0 <= k < out@.len() ==> match #[trigger] out@[k] {
                    GameCommand::ChangeState(GameState::Battle(b)) => b.is_initial(),
                    _ => true,
                },
                self.scene == old(self).scene,
                self.gui == old(self).gui,
                self.input == old(self).input,
                all == old(self).commands@,
                self.wf(),
            decreases pending@.len(),
        {
            let ghost rest = pending@;
            let command = pending.remove(0);
            assert(pending@ == rest.drop_first());
            let ghost out0 = out@;
            match command {
                ScreenCommand::ChangeScreen(screen) => match screen {
                    ScreenType::ShuttingDown => {
                        self.should_close = true;
                        self.popups.clear();
                    },
                    ScreenType::Menu => {
                        out.push(GameCommand::ChangeState(GameState::Menu));
                    },
                    ScreenType::Battle => {
                        out.push(GameCommand::ChangeState(GameState::Battle(Battlefield::new())));
                    },
                },
                ScreenCommand::PushPopup(popup) => {
                    self.popups.push(popup);
                },
                ScreenCommand::PopPopup => {
                    if self.popups.len() > 0 {
                        let _ = self.popups.pop();
                    }
                },
            }
            assert(out@.map_values(|c: GameCommand| c.target()) =~= out0.map_values(|c: GameCommand| c.target())
                + match rest[0] {
                ScreenCommand::ChangeScreen(ScreenType::Menu) => seq![ScreenType::Menu],
                ScreenCommand::ChangeScreen(ScreenType::Battle) => seq![ScreenType::Battle],
                _ => Seq::<ScreenType>::empty(),
            });
        }
        assert(out@.map_values(|c: GameCommand| c.target()) =~= requested_screens(all));
        out
    }

    /// Whether the program should keep running: nobody asked to shut down and the
    /// window was not closed.
    pub fn is_running(&self) -> (r: bool)
        ensures
            r == (!self.should_close && !self.input.should_close),
    {
        !self.should_close && !self.input.should_close
    }
}

/// Carries out a state change for the top-level loop. Asking for the state the
/// game is already in does nothing; entering a battle gives the visualizer a
/// new scene for it. Returns whether the state changed, in which case the
/// caller builds the overlay of the new state.
pub fn process_command(game_state: &mut GameState, command: GameCommand, visualizer: &mut Visualizer) -> (changed: bool)
    requires
        old(visualizer).wf(),
    ensures
        final(visualizer).wf(),
        match command {
            GameCommand::ChangeState(GameState::Menu) => {
                &&& changed == !(*old(game_state) is Menu)
                &&& *final(game_state) is Menu
                &&& *final(visualizer) == *old(visualizer)
            },
            GameCommand::ChangeState(GameState::Battle(b)) => {
                &&& changed == !(*old(game_state) is Battle)
                &&& *final(game_state) is Battle
                &&& changed ==> {
                    let s = final(visualizer).scene->Some_0;
                    &&& *final(game_state) == GameState::Battle(b)
                    &&& final(visualizer).scene is Some
                    &&& s.store()@.len() == 0
                    &&& s.index()@.len() == 0
                    &&& s.bindings()@.len() == 0
                    &&& s.cam().bounds == Rect::spec_spanning_origin(max_camera_pos(b.size()))
                    &&& s.cam().viewport == old(visualizer).input.win_size
                    &&& final(visualizer).popups == old(visualizer).popups
                    &&& final(visualizer).gui == old(visualizer).gui
                    &&& final(visualizer).input == old(visualizer).input
                }
                &&& !changed ==> *final(game_state) == *old(game_state) && *final(visualizer) == *old(visualizer)
            },
        },
{
    match command {
        GameCommand::ChangeState(state) => match state {
            GameState::Menu => {
                match game_state {
                    GameState::Menu => false,
                    GameState::Battle(_) => {
                        *game_state = GameState::Menu;
                        true
                    },
                }
            },
            GameState::Battle(battlefield) => {
                match game_state {
                    GameState::Battle(_) => false,
                    GameState::Menu => {
                        visualizer.new_scene(&battlefield);
                        *game_state = GameState::Battle(battlefield);
                        true
                    },
                }
            },
        },
    }
}

/// When the topmost popup claims an event, it alone reacts: the popups below it,
/// the overlay and the scene do not see the event, and the only requests issued
/// are the topmost popup's.
pub proof fn lemma_top_popup_claims(popups: Seq<Popup>, gui: Gui, has_scene: bool, input: InputState, event: InputEvent)
    requires
        popups.len() > 0,
        popups.last().claims(input, event),
    ensures
        first_claimer(popups, input, event, popups.len() as int) == Some(popups.len() - 1),
        !scene_sees(popups, gui, input, event),
        dispatch_commands(popups, gui, has_scene, input, event) == popups.last().commands_for(input, event),
{
}

} // verus!
