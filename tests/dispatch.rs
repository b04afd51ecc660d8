use battle_view::battlefield::Battlefield;
use battle_view::button::{Button, ButtonManager};
use battle_view::fs::{load_as_string, load_unit_data};
use battle_view::gui::{main_menu, tactical_screen, ButtonAction, Gui, Popup};
use battle_view::input::{is_tap, ElementState, InputEvent, InputState, Key, MouseButton, TouchPhase};
use battle_view::screen::{EventStatus, ScreenCommand, ScreenType};
use battle_view::visualizer::{process_command, GameCommand, GameState, Visualizer};
use battle_view::types::{ButtonId, ScreenPos, Size2};

const WIN: Size2 = Size2 { w: 800, h: 600 };

fn lmb_release() -> InputEvent {
    InputEvent::MouseInput { state: ElementState::Released, button: MouseButton::Left }
}

fn key_release(key: Key) -> InputEvent {
    InputEvent::KeyboardInput { state: ElementState::Released, key }
}

fn battle() -> Visualizer {
    let mut v = Visualizer::new(WIN, tactical_screen());
    v.new_scene(&Battlefield::new());
    v
}

fn plain_popup() -> Popup {
    Popup::new(ButtonManager::new(), Vec::new())
}

/// A popup with one button covering the whole window, leading to the menu.
fn menu_popup() -> Popup {
    let mut buttons = ButtonManager::new();
    let id = buttons.add_button(Button::new(ScreenPos { x: 0, y: 0 }, WIN));
    Popup::new(buttons, vec![ButtonAction { id, target: ScreenType::Menu }])
}

#[test]
fn top_popup_claim_hides_the_event_from_everything_below() {
    let mut v = battle();
    let gui = main_menu(Size2 { w: 800, h: 600 }, Size2 { w: 10, h: 10 });
    v.new_gui(gui);
    v.popups.push(plain_popup());
    v.popups.push(menu_popup());
    let cam = v.scene.as_ref().unwrap().camera();
    let status = v.handle_event(&lmb_release());
    assert_eq!(status, EventStatus::Handled);
    assert_eq!(v.commands.len(), 2);
    assert!(matches!(v.commands[0], ScreenCommand::ChangeScreen(ScreenType::Menu)));
    assert!(matches!(v.commands[1], ScreenCommand::PopPopup));
    assert_eq!(v.scene.as_ref().unwrap().camera(), cam);
    assert_eq!(v.popups.len(), 2);
}

#[test]
fn popup_claiming_a_click_leaves_the_scene_camera_unchanged() {
    let mut v = battle();
    v.popups.push(plain_popup());
    v.handle_event(&InputEvent::MouseInput { state: ElementState::Pressed, button: MouseButton::Left });
    let cam = v.scene.as_ref().unwrap().camera();
    let status = v.handle_event(&lmb_release());
    assert_eq!(status, EventStatus::Handled);
    assert_eq!(v.scene.as_ref().unwrap().camera(), cam);
    assert_eq!(v.commands.len(), 1);
    assert!(matches!(v.commands[0], ScreenCommand::PopPopup));
    let out = v.handle_commands();
    assert!(out.is_empty());
    assert_eq!(v.popups.len(), 0);
}

#[test]
fn unclaimed_events_reach_the_scene() {
    let mut v = battle();
    let before = v.scene.as_ref().unwrap().camera();
    assert_eq!(v.handle_event(&key_release(Key::D)), EventStatus::Handled);
    let after = v.scene.as_ref().unwrap().camera();
    assert_eq!(after.x, before.x + 2000);
    assert_eq!(after.y, before.y);
    v.handle_event(&InputEvent::MouseWheel { delta_y: 100 });
    assert_eq!(v.scene.as_ref().unwrap().camera().zoom, 700);
    v.handle_event(&InputEvent::MouseWheel { delta_y: 5 });
    assert_eq!(v.scene.as_ref().unwrap().camera().zoom, 700);
    v.handle_event(&key_release(Key::Key1));
    assert_eq!(v.scene.as_ref().unwrap().camera().zoom, 910);
}

#[test]
fn dragging_with_left_button_pans_the_camera() {
    let mut v = battle();
    v.handle_event(&InputEvent::MouseMoved(ScreenPos { x: 100, y: 100 }));
    v.handle_event(&InputEvent::MouseInput { state: ElementState::Pressed, button: MouseButton::Left });
    let before = v.scene.as_ref().unwrap().camera();
    v.handle_event(&InputEvent::MouseMoved(ScreenPos { x: 150, y: 100 }));
    let after = v.scene.as_ref().unwrap().camera();
    assert_eq!(after.x, before.x - 1500);
    assert_eq!(after.y, before.y);
    assert_eq!(v.input.mouse.pos, ScreenPos { x: 150, y: 100 });
}

#[test]
fn dragging_with_right_button_turns_the_camera() {
    let mut v = battle();
    v.handle_event(&InputEvent::MouseInput { state: ElementState::Pressed, button: MouseButton::Right });
    v.handle_event(&InputEvent::MouseMoved(ScreenPos { x: 400, y: 0 }));
    let c = v.scene.as_ref().unwrap().camera();
    assert_eq!(c.yaw, 90_000);
    assert_eq!(c.pitch, 45_000);
}

#[test]
fn quit_key_on_the_overlay_shuts_down() {
    let mut v = Visualizer::new(WIN, tactical_screen());
    v.popups.push(plain_popup());
    assert_eq!(v.handle_event(&key_release(Key::Q)), EventStatus::Handled);
    assert!(matches!(v.commands[0], ScreenCommand::ChangeScreen(ScreenType::ShuttingDown)));
    assert!(v.is_running());
    let out = v.handle_commands();
    assert!(out.is_empty());
    assert!(!v.is_running());
    assert_eq!(v.popups.len(), 0);
}

#[test]
fn unclaimed_event_without_scene_is_not_handled() {
    let mut v = Visualizer::new(WIN, tactical_screen());
    assert_eq!(v.handle_event(&lmb_release()), EventStatus::NotHandled);
    assert!(v.commands.is_empty());
}

#[test]
fn closing_the_window_stops_the_program() {
    let mut v = Visualizer::new(WIN, tactical_screen());
    v.handle_event(&InputEvent::Closed);
    assert!(!v.is_running());
}

#[test]
fn commands_are_carried_out_in_order() {
    let mut v = Visualizer::new(WIN, tactical_screen());
    v.commands.push(ScreenCommand::PushPopup(plain_popup()));
    v.commands.push(ScreenCommand::PushPopup(plain_popup()));
    v.commands.push(ScreenCommand::PopPopup);
    v.commands.push(ScreenCommand::ChangeScreen(ScreenType::Battle));
    v.commands.push(ScreenCommand::ChangeScreen(ScreenType::Menu));
    v.commands.push(ScreenCommand::PopPopup);
    v.commands.push(ScreenCommand::PopPopup);
    let out = v.handle_commands();
    assert_eq!(v.popups.len(), 0);
    assert!(v.commands.is_empty());
    assert_eq!(out.len(), 2);
    assert!(matches!(out[0], GameCommand::ChangeState(GameState::Battle(_))));
    assert!(matches!(out[1], GameCommand::ChangeState(GameState::Menu)));
}

#[test]
fn main_menu_start_button_starts_a_battle() {
    let gui = main_menu(Size2 { w: 100, h: 20 }, Size2 { w: 120, h: 20 });
    let entries = gui.button_manager.buttons();
    assert_eq!(entries.len(), 2);
    assert_eq!(entries[0].button.pos, ScreenPos { x: 10, y: 10 });
    assert_eq!(entries[1].button.pos, ScreenPos { x: 10, y: 40 });
    let mut v = Visualizer::new(WIN, gui);
    v.handle_event(&InputEvent::MouseMoved(ScreenPos { x: 50, y: 580 }));
    assert_eq!(v.handle_event(&lmb_release()), EventStatus::Handled);
    assert!(matches!(v.commands[0], ScreenCommand::ChangeScreen(ScreenType::Battle)));
    let out = v.handle_commands();
    let mut state = GameState::Menu;
    let mut iter = out.into_iter();
    let command = iter.next().unwrap();
    assert!(process_command(&mut state, command, &mut v));
    assert!(matches!(state, GameState::Battle(_)));
    assert!(v.scene.is_some());
    assert!(!process_command(&mut state, GameCommand::ChangeState(GameState::Battle(Battlefield::new())), &mut v));
    assert!(process_command(&mut state, GameCommand::ChangeState(GameState::Menu), &mut v));
    assert!(matches!(state, GameState::Menu));
    assert!(!process_command(&mut state, GameCommand::ChangeState(GameState::Menu), &mut v));
}

#[test]
fn click_on_button_without_action_is_claimed_but_does_nothing() {
    let gui = main_menu(Size2 { w: 100, h: 20 }, Size2 { w: 120, h: 20 });
    let mut v = Visualizer::new(WIN, gui);
    v.handle_event(&InputEvent::MouseMoved(ScreenPos { x: 50, y: 550 }));
    assert_eq!(v.handle_event(&lmb_release()), EventStatus::Handled);
    assert!(v.commands.is_empty());
    v.handle_event(&InputEvent::MouseMoved(ScreenPos { x: 700, y: 100 }));
    assert_eq!(v.handle_event(&lmb_release()), EventStatus::NotHandled);
}

#[test]
fn gui_reports_clicked_button() {
    let mut buttons = ButtonManager::new();
    let a = buttons.add_button(Button::new(ScreenPos { x: 0, y: 0 }, Size2 { w: 50, h: 50 }));
    let b = buttons.add_button(Button::new(ScreenPos { x: 40, y: 40 }, Size2 { w: 50, h: 50 }));
    let mut input = InputState::new(Size2 { w: 100, h: 100 });
    input.mouse.pos = ScreenPos { x: 45, y: 55 };
    assert_eq!(buttons.get_clicked_button_id(&input), Some(a));
    input.mouse.pos = ScreenPos { x: 80, y: 20 };
    assert_eq!(buttons.get_clicked_button_id(&input), Some(b));
    input.mouse.pos = ScreenPos { x: 99, y: 99 };
    assert_eq!(buttons.get_clicked_button_id(&input), None);
    assert!(buttons.remove_button(a));
    assert!(!buttons.remove_button(ButtonId { id: 5 }));
    input.mouse.pos = ScreenPos { x: 45, y: 55 };
    assert_eq!(buttons.get_clicked_button_id(&input), Some(b));
    let gui = Gui::new_from_buttons(buttons, vec![ButtonAction { id: b, target: ScreenType::Menu }]);
    let mut commands = Vec::new();
    assert_eq!(gui.handle_event(&input, &lmb_release(), &mut commands), EventStatus::Handled);
    assert!(matches!(commands[0], ScreenCommand::ChangeScreen(ScreenType::Menu)));
}

#[test]
fn tap_tolerance_is_twenty_pixels() {
    let mut input = InputState::new(WIN);
    input.mouse.last_press_pos = ScreenPos { x: 100, y: 100 };
    input.mouse.pos = ScreenPos { x: 119, y: 81 };
    assert!(is_tap(&input));
    input.mouse.pos = ScreenPos { x: 120, y: 100 };
    assert!(!is_tap(&input));
}

#[test]
fn touch_end_moves_pointer_and_releases() {
    let mut v = battle();
    v.handle_event(&InputEvent::Touch { pos: ScreenPos { x: 10, y: 10 }, phase: TouchPhase::Started });
    assert!(v.input.mouse.is_left_button_pressed);
    v.handle_event(&InputEvent::Touch { pos: ScreenPos { x: 20, y: 10 }, phase: TouchPhase::Ended });
    assert!(!v.input.mouse.is_left_button_pressed);
    assert_eq!(v.input.mouse.pos, ScreenPos { x: 20, y: 10 });
}

#[test]
fn resize_reaches_the_scene_camera() {
    let mut v = battle();
    v.handle_event(&InputEvent::Resized(Size2 { w: 1024, h: 768 }));
    assert_eq!(v.input.win_size, Size2 { w: 1024, h: 768 });
    assert_eq!(v.scene.as_ref().unwrap().camera().viewport, Size2 { w: 1024, h: 768 });
}

#[test]
fn text_files_decode_as_utf8() {
    assert_eq!(load_as_string(b"units".to_vec()), Some(String::from("units")));
    assert_eq!(load_as_string("épée".as_bytes().to_vec()), Some(String::from("épée")));
    assert_eq!(load_as_string(vec![0xff, 0xfe]), None);
}

#[test]
fn unit_data_has_standard_statistics() {
    let u = load_unit_data(String::from("swordsmen")).unwrap();
    assert_eq!(u.name, "swordsmen");
    assert_eq!((u.count, u.size, u.hp, u.speed), (120, 2, 3, 8));
    assert_eq!((u.cost_recruit, u.cost_upkeep), (240, 50));
}

#[test]
fn zoom_at_a_tenth_still_scales_by_seven_tenths() {
    let mut v = battle();
    for _ in 0..9 {
        v.handle_event(&key_release(Key::Key2));
    }
    let z = v.scene.as_ref().unwrap().camera().zoom;
    assert_eq!(z, 39);
    v.handle_event(&InputEvent::MouseWheel { delta_y: 100 });
    assert_eq!(v.scene.as_ref().unwrap().camera().zoom, 27);
    v.handle_event(&key_release(Key::Add));
    assert_eq!(v.scene.as_ref().unwrap().camera().zoom, 18);
    v.handle_event(&InputEvent::MouseWheel { delta_y: -100 });
    assert_eq!(v.scene.as_ref().unwrap().camera().zoom, 23);
}
