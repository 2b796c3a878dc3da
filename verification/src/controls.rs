//! Decisions of the interactive viewer's event loop.
//!
//! The window loop hands each input event to [`ViewerControls::handle`],
//! which updates the pause / drag / ray-march-step state and answers with
//! the [`Action`] the loop must perform (the camera maths, the clock and
//! the GL calls stay with the caller).
//!
//! Controls:
//!   left-drag    orbit camera
//!   wheel        zoom
//!   Space        pause / resume disk rotation
//!   Up / Down    ray-march steps (quality vs. speed)
//!   R            reset view
//!   Esc          quit

use vstd::prelude::*;
use vstd::string::*;

verus! {

/// Ray-march step count the renderer starts with.
pub const STEPS_DEFAULT: i32 = 400;

/// Fewest ray-march steps the viewer lets the user select.
pub const STEPS_MIN: i32 = 100;

/// Most ray-march steps the viewer lets the user select.
pub const STEPS_MAX: i32 = 900;

/// How much one Up / Down key press changes the step count.
pub const STEPS_DELTA: i32 = 50;

/// A keyboard key, as far as the viewer tells keys apart.
pub enum Key {
    Space,
    ArrowUp,
    ArrowDown,
    Escape,
    /// A key that produces text; the string is the text it produces.
    Character(String),
    Other,
}

/// A mouse button, as far as the viewer tells buttons apart.
pub enum Button {
    Left,
    Other,
}

/// An input event delivered by the window system.
pub enum InputEvent {
    CloseRequested,
    /// The window's inner size changed to `width` x `height` physical pixels.
    Resized { width: u32, height: u32 },
    MouseInput { pressed: bool, button: Button },
    CursorMoved,
    MouseWheel,
    KeyboardInput { pressed: bool, key: Key },
    RedrawRequested,
    /// The event queue has been drained for this iteration of the loop.
    AboutToWait,
    Other,
}

/// What the event loop must do in answer to one event.
#[derive(PartialEq, Eq, Structural, Clone, Copy, Debug)]
pub enum Action {
    Nothing,
    /// Leave the event loop.
    Exit,
    /// Resize the GL surface to `width` x `height`, set the GL viewport to
    /// `viewport_width` x `viewport_height` and give the camera the new
    /// aspect ratio `width / height`.
    Resize { width: u32, height: u32, viewport_width: i32, viewport_height: i32 },
    /// Orbit the camera by the cursor's movement since the last cursor event.
    RotateCamera,
    /// Zoom the camera by the wheel's movement.
    ZoomCamera,
    /// Put the camera back to its initial placement, keeping its aspect ratio.
    ResetCamera,
    /// Draw a frame with `steps` ray-march steps; advance the simulation
    /// clock by the elapsed wall time first when `advance_time` holds.
    Draw { advance_time: bool, steps: i32 },
    /// Ask the window for a redraw.
    RequestRedraw,
}

/// The viewer's input state, as a mathematical value.
pub struct ControlsView {
    pub paused: bool,
    pub dragging: bool,
    pub steps: i32,
}

/// Whether a step count is one the viewer can reach from [`STEPS_DEFAULT`]:
/// inside [`STEPS_MIN`, `STEPS_MAX`] and on the [`STEPS_DELTA`] grid.
pub open spec fn valid_steps(steps: int) -> bool {
    &&& STEPS_MIN <= steps <= STEPS_MAX
    &&& steps % (STEPS_DELTA as int) == 0
}

/// Step count after one Up key press.
pub open spec fn raised_steps(steps: int) -> int {
    if steps + STEPS_DELTA <= STEPS_MAX {
        steps + STEPS_DELTA
    } else {
        STEPS_MAX as int
    }
}

/// Step count after one Down key press.
pub open spec fn lowered_steps(steps: int) -> int {
    if steps - STEPS_DELTA >= STEPS_MIN {
        steps - STEPS_DELTA
    } else {
        STEPS_MIN as int
    }
}

/// Whether a text key is the reset key: "r" or "R".
pub open spec fn is_reset_text(text: Seq<char>) -> bool {
    text == seq!['r'] || text == seq!['R']
}

/// The state after `event` arrives in state `s`.
pub open spec fn next_state(s: ControlsView, event: InputEvent) -> ControlsView {
    match event {
        InputEvent::MouseInput { pressed, button: Button::Left } => ControlsView {
            dragging: pressed,
            ..s
        },
        InputEvent::KeyboardInput { pressed: true, key: Key::Space } => ControlsView {
            paused: !s.paused,
            ..s
        },
        InputEvent::KeyboardInput { pressed: true, key: Key::ArrowUp } => ControlsView {
            steps: raised_steps(s.steps as int) as i32,
            ..s
        },
        InputEvent::KeyboardInput { pressed: true, key: Key::ArrowDown } => ControlsView {
            steps: lowered_steps(s.steps as int) as i32,
            ..s
        },
        _ => s,
    }
}

/// The action that answers `event` in state `s`.
pub open spec fn action_for(s: ControlsView, event: InputEvent) -> Action {
    match event {
        InputEvent::CloseRequested => Action::Exit,
        InputEvent::Resized { width, height } => if width != 0 && height != 0 {
            Action::Resize {
                width,
                height,
                viewport_width: width as i32,
                viewport_height: height as i32,
            }
        } else {
            Action::Nothing
        },
        InputEvent::CursorMoved => if s.dragging {
            Action::RotateCamera
        } else {
            Action::Nothing
        },
        InputEvent::MouseWheel => Action::ZoomCamera,
        InputEvent::KeyboardInput { pressed: true, key: Key::Escape } => Action::Exit,
        InputEvent::KeyboardInput { pressed: true, key: Key::Character(text) } => if is_reset_text(
            text@,
        ) {
            Action::ResetCamera
        } else {
            Action::Nothing
        },
        InputEvent::RedrawRequested => Action::Draw { advance_time: !s.paused, steps: s.steps },
        InputEvent::AboutToWait => Action::RequestRedraw,
        _ => Action::Nothing,
    }
}

/// The state after a whole sequence of events, in order.
pub open spec fn state_after(s: ControlsView, events: Seq<InputEvent>) -> ControlsView
    decreases events.len(),
{
    if events.len() == 0 {
        s
    } else {
        state_after(next_state(s, events[0]), events.drop_first())
    }
}

/// The step count stays selectable: every event maps a state with a valid
/// step count to one with a valid step count.
pub proof fn lemma_event_keeps_steps_valid(s: ControlsView, event: InputEvent)
    requires
        valid_steps(s.steps as int),
    ensures
        valid_steps(next_state(s, event).steps as int),
{
}

/// Whatever events arrive, the step count never leaves
/// [`STEPS_MIN`, `STEPS_MAX`] (nor the [`STEPS_DELTA`] grid).
pub proof fn lemma_steps_always_valid(s: ControlsView, events: Seq<InputEvent>)
    requires
        valid_steps(s.steps as int),
    ensures
        valid_steps(state_after(s, events).steps as int),
    decreases events.len(),
{
    if events.len() > 0 {
        lemma_event_keeps_steps_valid(s, events[0]);
        lemma_steps_always_valid(next_state(s, events[0]), events.drop_first());
    }
}

/// Pressing Space twice gives back the state it started from.
pub proof fn lemma_space_twice_restores(s: ControlsView)
    ensures
        ({
            let space = InputEvent::KeyboardInput { pressed: true, key: Key::Space };
            next_state(next_state(s, space), space) == s
        }),
{
}

/// Below the cap, Down undoes Up; above the floor, Up undoes Down.
pub proof fn lemma_up_down_undo(s: ControlsView)
    requires
        valid_steps(s.steps as int),
    ensures
        ({
            let up = InputEvent::KeyboardInput { pressed: true, key: Key::ArrowUp };
            let down = InputEvent::KeyboardInput { pressed: true, key: Key::ArrowDown };
            &&& s.steps < STEPS_MAX ==> next_state(next_state(s, up), down) == s
            &&& s.steps > STEPS_MIN ==> next_state(next_state(s, down), up) == s
        }),
{
}

/// A key release changes nothing and asks for nothing.
pub proof fn lemma_key_release_is_ignored(s: ControlsView, key: Key)
    ensures
        next_state(s, InputEvent::KeyboardInput { pressed: false, key }) == s,
        action_for(s, InputEvent::KeyboardInput { pressed: false, key }) == Action::Nothing,
{
}

/// Cursor motion orbits the camera exactly while the left button is held:
/// after a left press it rotates, after a left release it does not.
pub proof fn lemma_drag_orbits(s: ControlsView, pressed: bool)
    ensures
        action_for(
            next_state(s, InputEvent::MouseInput { pressed, button: Button::Left }),
            InputEvent::CursorMoved,
        ) == (if pressed {
            Action::RotateCamera
        } else {
            Action::Nothing
        }),
{
}

/// Pausing stops the simulation clock and resuming restarts it: after Space,
/// a redraw advances the clock exactly when it did not before.
pub proof fn lemma_pause_freezes_clock(s: ControlsView)
    ensures
        ({
            let space = InputEvent::KeyboardInput { pressed: true, key: Key::Space };
            let t = next_state(s, space);
            &&& action_for(s, InputEvent::RedrawRequested) == (Action::Draw {
                advance_time: !s.paused,
                steps: s.steps,
            })
            &&& action_for(t, InputEvent::RedrawRequested) == (Action::Draw {
                advance_time: s.paused,
                steps: s.steps,
            })
        }),
{
}

/// Up and Down move the step count by 50 within 100..=900 in every state,
/// paused or running, dragging or not; nothing else changes and the loop
/// has nothing to do.
pub proof fn lemma_up_down_in_every_state(s: ControlsView)
    ensures
        ({
            let up = InputEvent::KeyboardInput { pressed: true, key: Key::ArrowUp };
            let t = next_state(s, up);
            &&& t.steps == (if s.steps + 50 <= 900 {
                s.steps + 50
            } else {
                900
            })
            &&& t.paused == s.paused
            &&& t.dragging == s.dragging
            &&& action_for(s, up) == Action::Nothing
        }),
        ({
            let down = InputEvent::KeyboardInput { pressed: true, key: Key::ArrowDown };
            let t = next_state(s, down);
            &&& t.steps == (if s.steps - 50 >= 100 {
                s.steps - 50
            } else {
                100
            })
            &&& t.paused == s.paused
            &&& t.dragging == s.dragging
            &&& action_for(s, down) == Action::Nothing
        }),
{
}

/// A mouse button event only moves the drag flag: the left button's state
/// becomes the drag flag, other buttons change nothing, and the loop never
/// has anything to do.
pub proof fn lemma_mouse_button_only_drags(s: ControlsView, pressed: bool, button: Button)
    ensures
        ({
            let e = InputEvent::MouseInput { pressed, button };
            let t = next_state(s, e);
            &&& action_for(s, e) == Action::Nothing
            &&& t.paused == s.paused
            &&& t.steps == s.steps
            &&& t.dragging == (if button is Left {
                pressed
            } else {
                s.dragging
            })
        }),
{
}

/// Only the texts "r" and "R" are the reset key: a single character resets
/// exactly when it is `r` or `R`, and no text of another length resets.
pub proof fn lemma_reset_text_exactly_r(c: char, text: Seq<char>)
    ensures
        is_reset_text(seq![c]) <==> (c == 'r' || c == 'R'),
        text.len() != 1 ==> !is_reset_text(text),
{
    if is_reset_text(seq![c]) {
        if seq![c] == seq!['r'] {
            assert(seq![c][0] == seq!['r'][0]);
        } else {
            assert(seq![c][0] == seq!['R'][0]);
        }
    }
    if text.len() != 1 {
        assert(seq!['r'].len() == 1 && seq!['R'].len() == 1);
    }
}

/// A pressed text key resets the camera exactly for "r" and "R" and is
/// otherwise ignored; it never changes the state.
pub proof fn lemma_text_key_answer(s: ControlsView, text: String)
    ensures
        ({
            let e = InputEvent::KeyboardInput { pressed: true, key: Key::Character(text) };
            &&& action_for(s, e) == (if text@ == seq!['r'] || text@ == seq!['R'] {
                Action::ResetCamera
            } else {
                Action::Nothing
            })
            &&& next_state(s, e) == s
        }),
{
}

/// Any non-empty window size resizes the surface and viewport to exactly
/// that size (viewport as the signed casts); only an empty size is ignored;
/// the state never changes.
pub proof fn lemma_resize_answer(s: ControlsView, width: u32, height: u32)
    ensures
        ({
            let e = InputEvent::Resized { width, height };
            &&& action_for(s, e) == (if width != 0 && height != 0 {
                Action::Resize {
                    width,
                    height,
                    viewport_width: width as i32,
                    viewport_height: height as i32,
                }
            } else {
                Action::Nothing
            })
            &&& next_state(s, e) == s
        }),
{
}

/// Raises the ray-march step count by one notch, capped at [`STEPS_MAX`].
pub fn raise_steps(steps: i32) -> (r: i32)
    requires
        steps <= i32::MAX - STEPS_DELTA,
    ensures
        r == raised_steps(steps as int),
{
    let up = steps + STEPS_DELTA;
    if up < STEPS_MAX {
        up
    } else {
        STEPS_MAX
    }
}

/// Lowers the ray-march step count by one notch, floored at [`STEPS_MIN`].
pub fn lower_steps(steps: i32) -> (r: i32)
    requires
        steps >= i32::MIN + STEPS_DELTA,
    ensures
        r == lowered_steps(steps as int),
{
    let down = steps - STEPS_DELTA;
    if down > STEPS_MIN {
        down
    } else {
        STEPS_MIN
    }
}

/// Whether `text` is the text of the reset key ("r" or "R").
pub fn is_reset_key(text: &str) -> (r: bool)
    ensures
        r == is_reset_text(text@),
{
    if text.unicode_len() != 1 {
        return false;
    }
    let c = text.get_char(0);
    let r = c == 'r' || c == 'R';
    proof {
        if r {
            assert(text@ =~= seq![c]);
        }
    }
    r
}

/// Input state of the interactive viewer.
pub struct ViewerControls {
    paused: bool,
    dragging: bool,
    steps: i32,
}

impl View for ViewerControls {
    type V = ControlsView;

    closed spec fn view(&self) -> ControlsView {
        ControlsView { paused: self.paused, dragging: self.dragging, steps: self.steps }
    }
}

impl ViewerControls {
    #[verifier::type_invariant]
    closed spec fn inv(self) -> bool {
        valid_steps(self.steps as int)
    }

    /// The state the viewer starts in: running, not dragging, default steps.
    pub fn new() -> (c: ViewerControls)
        ensures
            c@ == (ControlsView { paused: false, dragging: false, steps: STEPS_DEFAULT }),
    {
        ViewerControls { paused: false, dragging: false, steps: STEPS_DEFAULT }
    }

    /// Whether the disk animation is paused.
    pub fn paused(&self) -> (r: bool)
        ensures
            r == self@.paused,
    {
        self.paused
    }

    /// Whether the left mouse button is held (the camera follows the cursor).
    pub fn dragging(&self) -> (r: bool)
        ensures
            r == self@.dragging,
    {
        self.dragging
    }

    /// The current ray-march step count.
    pub fn steps(&self) -> (r: i32)
        ensures
            r == self@.steps,
            valid_steps(r as int),
    {
        proof {
            use_type_invariant(self);
        }
        self.steps
    }

    /// Takes one input event: updates the state and returns what the event
    /// loop must do.
    pub fn handle(&mut self, event: InputEvent) -> (a: Action)
        ensures
            final(self)@ == next_state(old(self)@, event),
            a == action_for(old(self)@, event),
            valid_steps(final(self)@.steps as int),
    {
        proof {
            use_type_invariant(&*self);
        }
        match event {
            InputEvent::CloseRequested => Action::Exit,
            InputEvent::Resized { width, height } => {
                if width != 0 && height != 0 {
                    Action::Resize {
                        width,
                        height,
                        viewport_width: width as i32,
                        viewport_height: height as i32,
                    }
                } else {
                    Action::Nothing
                }
            },
            InputEvent::MouseInput { pressed, button } => {
                match button {
                    Button::Left => {
                        self.dragging = pressed;
                    },
                    Button::Other => {},
                }
                Action::Nothing
            },
            InputEvent::CursorMoved => {
                if self.dragging {
                    Action::RotateCamera
                } else {
                    Action::Nothing
                }
            },
            InputEvent::MouseWheel => Action::ZoomCamera,
            InputEvent::KeyboardInput { pressed, key } => {
                if !pressed {
                    return Action::Nothing;
                }
                match key {
                    Key::Space => {
                        self.paused = !self.paused;
                        Action::Nothing
                    },
                    Key::ArrowUp => {
                        self.steps = raise_steps(self.steps);
                        Action::Nothing
                    },
                    Key::ArrowDown => {
                        self.steps = lower_steps(self.steps);
                        Action::Nothing
                    },
                    Key::Character(text) => {
                        if is_reset_key(text.as_str()) {
                            Action::ResetCamera
                        } else {
                            Action::Nothing
                        }
                    },
                    Key::Escape => Action::Exit,
                    Key::Other => Action::Nothing,
                }
            },
            InputEvent::RedrawRequested => Action::Draw { advance_time: !self.paused, steps: self.steps },
            InputEvent::AboutToWait => Action::RequestRedraw,
            InputEvent::Other => Action::Nothing,
        }
    }
}

} // verus!
