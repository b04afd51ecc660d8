use vstd::prelude::*;

use crate::button::{Button, ButtonManager};
use crate::input::{InputEvent, InputState};
use crate::screen::{EventStatus, ScreenCommand, ScreenType};
use crate::types::{ButtonId, ScreenPos, Size2};

verus! {

/// The screen that a button leads to.
#[derive(Clone, Copy, Debug, PartialEq, Eq, Structural)]
pub struct ButtonAction {
    pub id: ButtonId,
    pub target: ScreenType,
}

/// The target of the first action for button `id`, from position `i` on.
pub open spec fn action_from(s: Seq<ButtonAction>, id: ButtonId, i: int) -> Option<ScreenType>
    decreases s.len() - i,
{
    if i < 0 || i >= s.len() {
        None
    } else if s[i].id == id {
        Some(s[i].target)
    } else {
        action_from(s, id, i + 1)
    }
}

/// The target of the first action registered for `id`.
fn find_action(actions: &Vec<ButtonAction>, id: ButtonId) -> (r: Option<ScreenType>)
    ensures
        r == action_from(actions@, id, 0),
{
    let mut k: usize = 0;
    while k < actions.len()
        invariant
            k <= actions@.len(),
            action_from(actions@, id, 0) == action_from(actions@, id, k as int),
        decreases actions@.len() - k,
    {
        if actions[k].id == id {
            return Some(actions[k].target);
        }
        k = k + 1;
    }
    None
}

/// The persistent overlay of a screen: buttons, each of which may lead to a screen.
pub struct Gui {
    pub button_manager: ButtonManager,
    pub callbacks: Vec<ButtonAction>,
}

impl Gui {
    pub fn new_from_buttons(button_manager: ButtonManager, callbacks: Vec<ButtonAction>) -> (g: Gui)
        ensures
            g.button_manager == button_manager,
            g.callbacks == callbacks,
    {
        Gui { button_manager, callbacks }
    }

    /// Whether the overlay claims `event` (seen with `input`): a left click on one
    /// of its buttons, or the release of a quit key.
    pub open spec fn claims(&self, input: InputState, event: InputEvent) -> bool {
        if event.is_lmb_release() {
            self.button_manager.clicked(input) is Some
        } else {
            event.is_quit_key()
        }
    }

    /// The requests that the overlay issues for `event`.
    pub open spec fn commands_for(&self, input: InputState, event: InputEvent) -> Seq<ScreenCommand> {
        if event.is_lmb_release() {
            match self.button_manager.clicked(input) {
                Some(id) => match action_from(self.callbacks@, id, 0) {
                    Some(t) => seq![ScreenCommand::ChangeScreen(t)],
                    None => Seq::empty(),
                },
                None => Seq::empty(),
            }
        } else if event.is_quit_key() {
            seq![ScreenCommand::ChangeScreen(ScreenType::ShuttingDown)]
        } else {
            Seq::empty()
        }
    }

    /// Handles `event`: a left click on a button issues the button's screen change
    /// (a button without one does nothing) and is claimed; the release of `Q` or
    /// `Escape` asks to shut down and is claimed; everything else is passed on.
    pub fn handle_event(&self, input: &InputState, event: &InputEvent, commands: &mut Vec<ScreenCommand>) -> (r: EventStatus)
        ensures
            r == (if self.claims(*input, *event) { EventStatus::Handled } else { EventStatus::NotHandled }),
            final(commands)@ == old(commands)@ + self.commands_for(*input, *event),
    {
        if is_lmb_release(event) {
            match self.button_manager.get_clicked_button_id(input) {
                Some(id) => {
                    match find_action(&self.callbacks, id) {
                        Some(t) => {
                            commands.push(ScreenCommand::ChangeScreen(t));
                        },
                        None => {},
                    }
                    EventStatus::Handled
                },
                None => EventStatus::NotHandled,
            }
        } else if is_quit_key(event) {
            commands.push(ScreenCommand::ChangeScreen(ScreenType::ShuttingDown));
            EventStatus::Handled
        } else {
            EventStatus::NotHandled
        }
    }
}

/// Whether `event` releases the left mouse button.
pub fn is_lmb_release(event: &InputEvent) -> (r: bool)
    ensures
        r == event.is_lmb_release(),
{
    match *event {
        InputEvent::MouseInput { state: crate::input::ElementState::Released, button: crate::input::MouseButton::Left } => true,
        _ => false,
    }
}

/// Whether `event` releases `Q` or `Escape`.
pub fn is_quit_key(event: &InputEvent) -> (r: bool)
    ensures
        r == event.is_quit_key(),
{
    match *event {
        InputEvent::KeyboardInput { state: crate::input::ElementState::Released, key: crate::input::Key::Q } => true,
        InputEvent::KeyboardInput { state: crate::input::ElementState::Released, key: crate::input::Key::Escape } => true,
        _ => false,
    }
}

/// A modal popup: buttons, each of which may lead to a screen. Any left click
/// closes it; `Escape` closes it too.
#[derive(Debug)]
pub struct Popup {
    pub button_manager: ButtonManager,
    pub actions: Vec<ButtonAction>,
}

impl Popup {
    pub fn new(button_manager: ButtonManager, actions: Vec<ButtonAction>) -> (p: Popup)
        ensures
            p.button_manager == button_manager,
            p.actions == actions,
    {
        Popup { button_manager, actions }
    }

    /// Whether the popup claims `event`: any left click, and the release of `Escape`.
    pub open spec fn claims(&self, input: InputState, event: InputEvent) -> bool {
        event.is_lmb_release() || event == (InputEvent::KeyboardInput {
            state: crate::input::ElementState::Released,
            key: crate::input::Key::Escape,
        })
    }

    /// The requests that the popup issues for `event`.
    pub open spec fn commands_for(&self, input: InputState, event: InputEvent) -> Seq<ScreenCommand> {
        if event.is_lmb_release() {
            match self.button_manager.clicked(input) {
                Some(id) => match action_from(self.actions@, id, 0) {
                    Some(t) => seq![ScreenCommand::ChangeScreen(t), ScreenCommand::PopPopup],
                    None => seq![ScreenCommand::PopPopup],
                },
                None => seq![ScreenCommand::PopPopup],
            }
        } else if self.claims(input, event) {
            seq![ScreenCommand::PopPopup]
        } else {
            Seq::empty()
        }
    }

    /// Handles `event`: a left click on a button issues the button's screen change;
    /// any left click, and the release of `Escape`, closes the popup and is claimed.
    /// Everything else is passed on.
    pub fn handle_event(&self, input: &InputState, event: &InputEvent, commands: &mut Vec<ScreenCommand>) -> (r: EventStatus)
        ensures
            r == (if self.claims(*input, *event) { EventStatus::Handled } else { EventStatus::NotHandled }),
            final(commands)@ == old(commands)@ + self.commands_for(*input, *event),
    {
        if is_lmb_release(event) {
            match self.button_manager.get_clicked_button_id(input) {
                Some(id) => match find_action(&self.actions, id) {
                    Some(t) => {
                        commands.push(ScreenCommand::ChangeScreen(t));
                    },
                    None => {},
                },
                None => {},
            }
            commands.push(ScreenCommand::PopPopup);
            EventStatus::Handled
        } else {
            match *event {
                InputEvent::KeyboardInput { state: crate::input::ElementState::Released, key: crate::input::Key::Escape } => {
                    commands.push(ScreenCommand::PopPopup);
                    EventStatus::Handled
                },
                _ => EventStatus::NotHandled,
            }
        }
    }
}

/// Position of the first main menu button.
pub const MENU_MARGIN: i32 = 10;

/// The main menu: a "start" button at the margin, leading to a battle, and below
/// it, one and a half button heights further up, a button without an action.
/// The sizes are those of the rendered labels.
pub fn main_menu(start_size: Size2, nothing_size: Size2) -> (g: Gui)
    requires
        0 <= start_size.h <= 1_431_655_758,
    ensures
        g.button_manager.wf(),
        g.button_manager@ == seq![
            crate::button::ButtonEntry {
                id: ButtonId { id: 0 },
                button: Button { pos: ScreenPos { x: MENU_MARGIN, y: MENU_MARGIN }, size: start_size },
            },
            crate::button::ButtonEntry {
                id: ButtonId { id: 1 },
                button: Button {
                    pos: ScreenPos { x: MENU_MARGIN, y: (MENU_MARGIN + start_size.h * 3 / 2) as i32 },
                    size: nothing_size,
                },
            },
        ],
        g.callbacks@ == seq![ButtonAction { id: ButtonId { id: 0 }, target: ScreenType::Battle }],
{
    let mut button_manager = ButtonManager::new();
    let mut button_pos = ScreenPos { x: MENU_MARGIN, y: MENU_MARGIN };
    let start_id = button_manager.add_button(Button::new(button_pos, start_size));
    let mut callbacks: Vec<ButtonAction> = Vec::new();
    callbacks.push(ButtonAction { id: start_id, target: ScreenType::Battle });
    let vstep = (start_size.h as i64 * 3 / 2) as i32;
    button_pos.y = button_pos.y + vstep;
    let _nothing_id = button_manager.add_button(Button::new(button_pos, nothing_size));
    assert(button_manager@ =~= seq![
        crate::button::ButtonEntry {
            id: ButtonId { id: 0 },
            button: Button { pos: ScreenPos { x: MENU_MARGIN, y: MENU_MARGIN }, size: start_size },
        },
        crate::button::ButtonEntry {
            id: ButtonId { id: 1 },
            button: Button {
                pos: ScreenPos { x: MENU_MARGIN, y: (MENU_MARGIN + start_size.h * 3 / 2) as i32 },
                size: nothing_size,
            },
        },
    ]);
    assert(callbacks@ =~= seq![ButtonAction { id: ButtonId { id: 0 }, target: ScreenType::Battle }]);
    Gui::new_from_buttons(button_manager, callbacks)
}

/// The overlay of a battle: no buttons.
pub fn tactical_screen() -> (g: Gui)
    ensures
        g.button_manager.wf(),
        g.button_manager@.len() == 0,
        g.callbacks@.len() == 0,
{
    Gui::new_from_buttons(ButtonManager::new(), Vec::new())
}

} // verus!
