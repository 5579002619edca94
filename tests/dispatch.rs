use perlin_vis::input::{Button, ButtonState, ControllerButton, Data, Event, Hook};

fn key(k: u32) -> Button {
    Button::Keyboard(k)
}

fn press(d: &mut Data<f64>, b: Button) -> Vec<Hook<f64>> {
    d.dispatch(Event::Button(b, ButtonState::Press))
}

fn release(d: &mut Data<f64>, b: Button) -> Vec<Hook<f64>> {
    d.dispatch(Event::Button(b, ButtonState::Release))
}

#[test]
fn new_data_is_empty() {
    let d: Data<f64> = Data::new(600, 400, 0.0);
    assert!(!d.is_cursor_on);
    assert!(!d.is_window_focus);
    assert_eq!(d.screen_width, 600);
    assert_eq!(d.screen_height, 400);
    assert_eq!(d.mouse_x, 0.0);
    assert_eq!(d.mouse_y, 0.0);
    assert!(d.button_held.is_empty());
}

#[test]
fn held_follows_presses_and_releases_in_press_order() {
    let mut d: Data<f64> = Data::new(10, 10, 0.0);
    press(&mut d, key(1));
    press(&mut d, Button::Mouse(0));
    press(&mut d, key(2));
    assert_eq!(d.button_held, vec![key(1), Button::Mouse(0), key(2)]);
    release(&mut d, Button::Mouse(0));
    assert_eq!(d.button_held, vec![key(1), key(2)]);
    press(&mut d, Button::Mouse(0));
    assert_eq!(d.button_held, vec![key(1), key(2), Button::Mouse(0)]);
    release(&mut d, key(1));
    release(&mut d, key(2));
    assert_eq!(d.button_held, vec![Button::Mouse(0)]);
}

#[test]
fn release_of_unheld_button_changes_nothing() {
    let mut d: Data<f64> = Data::new(10, 10, 0.0);
    press(&mut d, key(7));
    release(&mut d, key(8));
    assert_eq!(d.button_held, vec![key(7)]);
    release(&mut d, key(7));
    release(&mut d, key(7));
    assert!(d.button_held.is_empty());
}

#[test]
fn edge_hook_fires_once_per_press() {
    let mut d: Data<f64> = Data::new(10, 10, 0.0);
    assert_eq!(press(&mut d, key(3)), vec![Hook::Key(3)]);
    assert_eq!(press(&mut d, key(3)), Vec::<Hook<f64>>::new());
    assert_eq!(d.button_held, vec![key(3)]);
    assert_eq!(release(&mut d, key(3)), Vec::<Hook<f64>>::new());
    assert_eq!(press(&mut d, key(3)), vec![Hook::Key(3)]);
}

#[test]
fn release_of_unheld_button_fires_edge_hook() {
    let mut d: Data<f64> = Data::new(10, 10, 0.0);
    assert_eq!(release(&mut d, key(4)), vec![Hook::Key(4)]);
    assert!(d.button_held.is_empty());
}

#[test]
fn mouse_edge_hook_gets_position() {
    let mut d: Data<f64> = Data::new(10, 10, 0.0);
    assert!(d.dispatch(Event::CursorMoved(3.5, 7.25)).is_empty());
    assert_eq!(d.mouse_x, 3.5);
    assert_eq!(d.mouse_y, 7.25);
    assert_eq!(press(&mut d, Button::Mouse(1)), vec![Hook::Mouse(1, 3.5, 7.25)]);
    d.dispatch(Event::OtherMotion);
    assert_eq!(d.mouse_x, 3.5);
}

#[test]
fn update_replays_held_buttons_before_update() {
    let mut d: Data<f64> = Data::new(10, 10, 0.0);
    let c = ControllerButton { id: 2, button: 5 };
    press(&mut d, Button::Controller(c));
    press(&mut d, key(9));
    press(&mut d, Button::Mouse(2));
    assert_eq!(press(&mut d, Button::Controller(c)), Vec::<Hook<f64>>::new());
    assert_eq!(
        d.dispatch(Event::Update),
        vec![Hook::ControllerHeld(c), Hook::KeyHeld(9), Hook::MouseHeld(2), Hook::Update]
    );
    release(&mut d, key(9));
    assert_eq!(
        d.dispatch(Event::Update),
        vec![Hook::ControllerHeld(c), Hook::MouseHeld(2), Hook::Update]
    );
}

#[test]
fn loop_ticks_map_to_their_hooks() {
    let mut d: Data<f64> = Data::new(10, 10, 0.0);
    assert_eq!(d.dispatch(Event::Render), vec![Hook::Render]);
    assert_eq!(d.dispatch(Event::Update), vec![Hook::Update]);
    assert_eq!(d.dispatch(Event::AfterRender), vec![Hook::PostRender]);
    assert_eq!(d.dispatch(Event::Idle), vec![Hook::Idle]);
    assert!(d.dispatch(Event::Custom).is_empty());
}

#[test]
fn window_events_update_state() {
    let mut d: Data<f64> = Data::new(10, 10, 0.0);
    assert!(d.dispatch(Event::Resize(800, 600)).is_empty());
    assert_eq!((d.screen_width, d.screen_height), (800, 600));
    assert_eq!(d.dispatch(Event::Cursor(true)), vec![Hook::Cursor(true)]);
    assert!(d.is_cursor_on);
    assert_eq!(d.dispatch(Event::Focus(true)), vec![Hook::Focus(true)]);
    assert!(d.is_window_focus);
    assert_eq!(d.dispatch(Event::Focus(false)), vec![Hook::Focus(false)]);
    assert!(!d.is_window_focus);
    assert!(d.dispatch(Event::Text).is_empty());
    assert_eq!(d.dispatch(Event::Close), vec![Hook::Close]);
}
