use blackhole::controls::{
    is_reset_key, lower_steps, raise_steps, Action, Button, InputEvent, Key, ViewerControls,
    STEPS_DEFAULT, STEPS_MAX, STEPS_MIN,
};

fn key(k: Key) -> InputEvent {
    InputEvent::KeyboardInput { pressed: true, key: k }
}

fn text(s: &str) -> InputEvent {
    key(Key::Character(s.to_string()))
}

fn redraw(c: &mut ViewerControls) -> Action {
    c.handle(InputEvent::RedrawRequested)
}

#[test]
fn starts_running_with_default_steps() {
    let c = ViewerControls::new();
    assert!(!c.paused());
    assert!(!c.dragging());
    assert_eq!(c.steps(), 400);
    assert_eq!(STEPS_DEFAULT, 400);
}

#[test]
fn space_pauses_and_resumes_the_clock() {
    let mut c = ViewerControls::new();
    assert_eq!(redraw(&mut c), Action::Draw { advance_time: true, steps: 400 });
    assert_eq!(c.handle(key(Key::Space)), Action::Nothing);
    assert!(c.paused());
    assert_eq!(redraw(&mut c), Action::Draw { advance_time: false, steps: 400 });
    c.handle(key(Key::Space));
    assert!(!c.paused());
    assert_eq!(redraw(&mut c), Action::Draw { advance_time: true, steps: 400 });
}

#[test]
fn up_and_down_change_steps_by_fifty() {
    let mut c = ViewerControls::new();
    for _ in 0..3 {
        assert_eq!(c.handle(key(Key::ArrowUp)), Action::Nothing);
    }
    assert_eq!(c.steps(), 550);
    c.handle(key(Key::ArrowDown));
    assert_eq!(c.steps(), 500);
    assert_eq!(redraw(&mut c), Action::Draw { advance_time: true, steps: 500 });
}

#[test]
fn steps_are_capped_at_nine_hundred() {
    let mut c = ViewerControls::new();
    for _ in 0..20 {
        c.handle(key(Key::ArrowUp));
    }
    assert_eq!(c.steps(), 900);
    assert_eq!(STEPS_MAX, 900);
    c.handle(key(Key::ArrowDown));
    assert_eq!(c.steps(), 850);
}

#[test]
fn steps_are_floored_at_one_hundred() {
    let mut c = ViewerControls::new();
    for _ in 0..20 {
        c.handle(key(Key::ArrowDown));
    }
    assert_eq!(c.steps(), 100);
    assert_eq!(STEPS_MIN, 100);
    c.handle(key(Key::ArrowUp));
    assert_eq!(c.steps(), 150);
}

#[test]
fn raise_and_lower_formulas() {
    assert_eq!(raise_steps(400), 450);
    assert_eq!(raise_steps(880), 900);
    assert_eq!(raise_steps(900), 900);
    assert_eq!(raise_steps(-1000), -950);
    assert_eq!(lower_steps(400), 350);
    assert_eq!(lower_steps(120), 100);
    assert_eq!(lower_steps(100), 100);
    assert_eq!(lower_steps(5000), 4950);
}

#[test]
fn key_releases_are_ignored() {
    let mut c = ViewerControls::new();
    for k in [Key::Space, Key::ArrowUp, Key::ArrowDown, Key::Escape] {
        assert_eq!(c.handle(InputEvent::KeyboardInput { pressed: false, key: k }), Action::Nothing);
    }
    let released_r = InputEvent::KeyboardInput { pressed: false, key: Key::Character("r".to_string()) };
    assert_eq!(c.handle(released_r), Action::Nothing);
    assert!(!c.paused());
    assert_eq!(c.steps(), 400);
}

#[test]
fn r_resets_the_view() {
    let mut c = ViewerControls::new();
    assert_eq!(c.handle(text("r")), Action::ResetCamera);
    assert_eq!(c.handle(text("R")), Action::ResetCamera);
    assert_eq!(c.handle(text("x")), Action::Nothing);
    assert_eq!(c.handle(text("rr")), Action::Nothing);
    assert_eq!(c.handle(text("")), Action::Nothing);
    assert_eq!(c.handle(key(Key::Other)), Action::Nothing);
}

#[test]
fn reset_key_text() {
    assert!(is_reset_key("r"));
    assert!(is_reset_key("R"));
    assert!(!is_reset_key("q"));
    assert!(!is_reset_key("Rr"));
    assert!(!is_reset_key(""));
    assert!(!is_reset_key("é"));
}

#[test]
fn escape_and_close_quit() {
    let mut c = ViewerControls::new();
    assert_eq!(c.handle(key(Key::Escape)), Action::Exit);
    assert_eq!(c.handle(InputEvent::CloseRequested), Action::Exit);
}

#[test]
fn left_drag_orbits_the_camera() {
    let mut c = ViewerControls::new();
    assert_eq!(c.handle(InputEvent::CursorMoved), Action::Nothing);
    c.handle(InputEvent::MouseInput { pressed: true, button: Button::Left });
    assert!(c.dragging());
    assert_eq!(c.handle(InputEvent::CursorMoved), Action::RotateCamera);
    c.handle(InputEvent::MouseInput { pressed: false, button: Button::Left });
    assert!(!c.dragging());
    assert_eq!(c.handle(InputEvent::CursorMoved), Action::Nothing);
}

#[test]
fn other_buttons_do_not_drag() {
    let mut c = ViewerControls::new();
    assert_eq!(c.handle(InputEvent::MouseInput { pressed: true, button: Button::Other }), Action::Nothing);
    assert!(!c.dragging());
    assert_eq!(c.handle(InputEvent::CursorMoved), Action::Nothing);
}

#[test]
fn wheel_zooms_and_idle_requests_redraw() {
    let mut c = ViewerControls::new();
    assert_eq!(c.handle(InputEvent::MouseWheel), Action::ZoomCamera);
    assert_eq!(c.handle(InputEvent::AboutToWait), Action::RequestRedraw);
    assert_eq!(c.handle(InputEvent::Other), Action::Nothing);
}

#[test]
fn resize_to_a_nonempty_window() {
    let mut c = ViewerControls::new();
    assert_eq!(
        c.handle(InputEvent::Resized { width: 1280, height: 800 }),
        Action::Resize { width: 1280, height: 800, viewport_width: 1280, viewport_height: 800 }
    );
}

#[test]
fn resize_to_an_empty_window_is_ignored() {
    let mut c = ViewerControls::new();
    assert_eq!(c.handle(InputEvent::Resized { width: 0, height: 800 }), Action::Nothing);
    assert_eq!(c.handle(InputEvent::Resized { width: 640, height: 0 }), Action::Nothing);
}

#[test]
fn resize_viewport_is_the_wrapping_signed_size() {
    let mut c = ViewerControls::new();
    assert_eq!(
        c.handle(InputEvent::Resized { width: 3_000_000_000, height: 1 }),
        Action::Resize { width: 3_000_000_000, height: 1, viewport_width: -1_294_967_296, viewport_height: 1 }
    );
}
