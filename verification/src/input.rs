//! Mouse and keyboard state, updated once a frame from the window's events.
//!
//! A button that goes down in a frame reads "just pressed" for that frame and
//! "pressed" from the next frame on; one that goes up reads "just released",
//! then "released". Keys and mouse buttons are identified by their codes.
use vstd::prelude::*;

use crate::table::{lemma_push_contains, Table};

verus! {

/// A keyboard key, by its code.
pub type KeyCode = u32;

/// A mouse button, by its code.
pub type MouseButton = u32;

/// The state of a key or mouse button.
#[derive(Debug, Clone, Copy, PartialEq, Eq, Structural)]
pub enum ButtonState {
    Pressed,
    Released,
    JustPressed,
    JustReleased,
}

/// Where the cursor is relative to the window.
#[derive(Debug, Clone, Copy, PartialEq, Eq, Structural)]
pub enum CursorState {
    Left,
    Entered,
    JustLeft,
    JustEntered,
}

/// Whether a button went down or up.
#[derive(Debug, Clone, Copy, PartialEq, Eq, Structural)]
pub enum ElementState {
    Pressed,
    Released,
}

/// The events the input state reacts to.
#[derive(Debug, Clone, Copy, PartialEq, Eq)]
pub enum InputEvent {
    MouseInput { button: MouseButton, state: ElementState },
    CursorLeft,
    CursorEntered,
    KeyboardInput { keycode: KeyCode, state: ElementState },
}

impl Table<ButtonState> {
    /// Every button that went down or up in the previous frame is now
    /// simply down or up.
    pub fn settle_all(&mut self)
        ensures
            final(self)@ == old(self)@.map_values(|b: ButtonState| settle(b)),
    {
        let codes = self.codes();
        let ghost before = self@;
        let mut i: usize = 0;
        while i < codes.len()
            invariant
                codes@.no_duplicates(),
                forall|k: u32| #[trigger] before.dom().contains(k) <==> codes@.contains(k),
                i <= codes@.len(),
                self@.dom() == before.dom(),
                forall|k: u32|
                    #[trigger] self@.dom().contains(k) ==> self@[k] == if codes@.take(
                        i as int,
                    ).contains(k) {
                        settle(before[k])
                    } else {
                        before[k]
                    },
            decreases codes@.len() - i,
        {
            let k = codes[i];
            assert(codes@.contains(k));
            assert(!codes@.take(i as int).contains(k));
            if let Some(state) = self.get(k) {
                let next = match state {
                    ButtonState::JustPressed => ButtonState::Pressed,
                    ButtonState::JustReleased => ButtonState::Released,
                    _ => state,
                };
                self.set(k, next);
            }
            proof {
                assert(codes@.take(i as int + 1) =~= codes@.take(i as int).push(k));
                lemma_push_contains(codes@.take(i as int), k);
                assert(self@.dom() =~= before.dom());
            }
            i = i + 1;
        }
        proof {
            assert(codes@.take(i as int) =~= codes@);
            assert(self@ =~= before.map_values(|b: ButtonState| settle(b)));
        }
    }

    /// Every known button is released.
    pub fn release_all(&mut self)
        ensures
            final(self)@ == old(self)@.map_values(|b: ButtonState| ButtonState::Released),
    {
        let codes = self.codes();
        let ghost before = self@;
        let mut i: usize = 0;
        while i < codes.len()
            invariant
                codes@.no_duplicates(),
                forall|k: u32| #[trigger] before.dom().contains(k) <==> codes@.contains(k),
                i <= codes@.len(),
                self@.dom() == before.dom(),
                forall|k: u32|
                    #[trigger] self@.dom().contains(k) ==> self@[k] == if codes@.take(
                        i as int,
                    ).contains(k) {
                        ButtonState::Released
                    } else {
                        before[k]
                    },
            decreases codes@.len() - i,
        {
            let k = codes[i];
            assert(codes@.contains(k));
            assert(!codes@.take(i as int).contains(k));
            self.set(k, ButtonState::Released);
            proof {
                assert(codes@.take(i as int + 1) =~= codes@.take(i as int).push(k));
                lemma_push_contains(codes@.take(i as int), k);
                assert(self@.dom() =~= before.dom());
            }
            i = i + 1;
        }
        proof {
            assert(codes@.take(i as int) =~= codes@);
            assert(self@ =~= before.map_values(|b: ButtonState| ButtonState::Released));
        }
    }
}

/// A button that went down or up in the previous frame is simply down or up
/// in this one.
pub open spec fn settle(b: ButtonState) -> ButtonState {
    match b {
        ButtonState::JustPressed => ButtonState::Pressed,
        ButtonState::JustReleased => ButtonState::Released,
        _ => b,
    }
}

/// The state of a button as a table knows it, if it knows the button.
pub open spec fn lookup(m: Map<u32, ButtonState>, code: u32) -> Option<ButtonState> {
    if m.dom().contains(code) {
        Some(m[code])
    } else {
        None
    }
}

/// A button reads as released when its state is released or it was never
/// seen.
pub open spec fn reads_released(m: Map<u32, ButtonState>, code: u32) -> bool {
    lookup(m, code) == Some(ButtonState::Released) || lookup(m, code) is None
}

/// The state of a key after a keyboard event: going down makes it "just
/// pressed" unless it is held already (a repeat), going up makes it "just
/// released".
pub open spec fn key_next(cur: Option<ButtonState>, state: ElementState) -> ButtonState {
    match state {
        ElementState::Pressed => if cur == Some(ButtonState::Pressed) {
            ButtonState::Pressed
        } else {
            ButtonState::JustPressed
        },
        ElementState::Released => ButtonState::JustReleased,
    }
}

/// The state of a mouse button after a mouse event.
pub open spec fn mouse_next(state: ElementState) -> ButtonState {
    match state {
        ElementState::Pressed => ButtonState::JustPressed,
        ElementState::Released => ButtonState::JustReleased,
    }
}

/// A cursor that left or entered in the previous frame is simply out or in.
pub open spec fn settle_cursor(c: CursorState) -> CursorState {
    match c {
        CursorState::JustLeft => CursorState::Left,
        CursorState::JustEntered => CursorState::Entered,
        _ => c,
    }
}

/// The state of the keyboard.
pub struct KeyboardModel {
    pub keys: Map<u32, ButtonState>,
}

/// The state of the mouse's buttons and cursor.
pub struct MouseModel {
    pub buttons: Map<u32, ButtonState>,
    pub cursor: CursorState,
}

/// The state of the whole input.
pub struct InputModel {
    pub mouse: MouseModel,
    pub keyboard: KeyboardModel,
}

/// The start of a frame: every transition of the previous frame settles.
pub open spec fn settle_input(m: InputModel) -> InputModel {
    InputModel {
        mouse: MouseModel {
            buttons: m.mouse.buttons.map_values(|b: ButtonState| settle(b)),
            cursor: settle_cursor(m.mouse.cursor),
        },
        keyboard: KeyboardModel { keys: m.keyboard.keys.map_values(|b: ButtonState| settle(b)) },
    }
}

/// The effect of one event.
pub open spec fn apply_event(m: InputModel, e: InputEvent) -> InputModel {
    match e {
        InputEvent::MouseInput { button, state } => InputModel {
            mouse: MouseModel { buttons: m.mouse.buttons.insert(button, mouse_next(state)), ..m.mouse },
            ..m
        },
        InputEvent::CursorLeft => InputModel {
            mouse: MouseModel { cursor: CursorState::JustLeft, ..m.mouse },
            ..m
        },
        InputEvent::CursorEntered => InputModel {
            mouse: MouseModel { cursor: CursorState::JustEntered, ..m.mouse },
            ..m
        },
        InputEvent::KeyboardInput { keycode, state } => InputModel {
            keyboard: KeyboardModel {
                keys: m.keyboard.keys.insert(
                    keycode,
                    key_next(lookup(m.keyboard.keys, keycode), state),
                ),
            },
            ..m
        },
    }
}

/// The effect of a sequence of events, in order.
pub open spec fn apply_events(m: InputModel, events: Seq<InputEvent>) -> InputModel
    decreases events.len(),
{
    if events.len() == 0 {
        m
    } else {
        apply_event(apply_events(m, events.drop_last()), events.last())
    }
}

/// A frame with a single event settles, then applies that event.
pub proof fn lemma_frame_of_one_event(m: InputModel, e: InputEvent)
    ensures
        input_frame(m, seq![e]) == apply_event(settle_input(m), e),
{
    assert(seq![e].drop_last() =~= Seq::<InputEvent>::empty());
    assert(apply_events(settle_input(m), Seq::<InputEvent>::empty()) == settle_input(m));
}

/// A frame: settle, then apply the frame's events in order.
pub open spec fn input_frame(m: InputModel, events: Seq<InputEvent>) -> InputModel {
    apply_events(settle_input(m), events)
}

/// The keyboard's keys.
#[derive(Debug)]
pub struct Keyboard {
    key_button_state: Table<ButtonState>,
}

impl View for Keyboard {
    type V = KeyboardModel;

    closed spec fn view(&self) -> KeyboardModel {
        KeyboardModel { keys: self.key_button_state@ }
    }
}

impl Keyboard {
    fn new() -> (k: Keyboard)
        ensures
            k@.keys == Map::<u32, ButtonState>::empty(),
    {
        Keyboard { key_button_state: Table::with_capacity(16) }
    }

    /// Whether the key went down this frame.
    pub fn just_pressed(&self, keycode: KeyCode) -> (b: bool)
        ensures
            b == (lookup(self@.keys, keycode) == Some(ButtonState::JustPressed)),
    {
        match self.key_button_state.get(keycode) {
            Some(state) => state == ButtonState::JustPressed,
            None => false,
        }
    }

    /// Whether the key went up this frame.
    pub fn just_released(&self, keycode: KeyCode) -> (b: bool)
        ensures
            b == (lookup(self@.keys, keycode) == Some(ButtonState::JustReleased)),
    {
        match self.key_button_state.get(keycode) {
            Some(state) => state == ButtonState::JustReleased,
            None => false,
        }
    }

    /// Whether the key is held down since before this frame. A key that
    /// went down in this frame reads `just_pressed`, not `pressed`; it reads
    /// `pressed` from the next frame on.
    pub fn pressed(&self, keycode: KeyCode) -> (b: bool)
        ensures
            b == (lookup(self@.keys, keycode) == Some(ButtonState::Pressed)),
    {
        match self.key_button_state.get(keycode) {
            Some(state) => state == ButtonState::Pressed,
            None => false,
        }
    }

    /// Whether the key is up (since before this frame, or never seen).
    pub fn released(&self, keycode: KeyCode) -> (b: bool)
        ensures
            b == reads_released(self@.keys, keycode),
    {
        match self.key_button_state.get(keycode) {
            Some(state) => state == ButtonState::Released,
            None => true,
        }
    }

    fn before_apply(&mut self)
        ensures
            final(self)@.keys == old(self)@.keys.map_values(|b: ButtonState| settle(b)),
    {
        self.key_button_state.settle_all();
    }

    fn apply_key(&mut self, keycode: KeyCode, state: ElementState)
        ensures
            final(self)@.keys == old(self)@.keys.insert(
                keycode,
                key_next(lookup(old(self)@.keys, keycode), state),
            ),
    {
        let cur = self.key_button_state.get(keycode);
        let next = match state {
            ElementState::Pressed => {
                if cur == Some(ButtonState::Pressed) {
                    ButtonState::Pressed
                } else {
                    ButtonState::JustPressed
                }
            },
            ElementState::Released => ButtonState::JustReleased,
        };
        self.key_button_state.set(keycode, next);
    }

    fn release_all(&mut self)
        ensures
            final(self)@.keys == old(self)@.keys.map_values(|b: ButtonState| ButtonState::Released),
    {
        self.key_button_state.release_all();
    }
}

/// The mouse's buttons and the cursor's presence in the window.
#[derive(Debug)]
pub struct Mouse {
    mouse_button_state: Table<ButtonState>,
    cursor_state: CursorState,
}

impl View for Mouse {
    type V = MouseModel;

    closed spec fn view(&self) -> MouseModel {
        MouseModel { buttons: self.mouse_button_state@, cursor: self.cursor_state }
    }
}

impl Mouse {
    fn new() -> (m: Mouse)
        ensures
            m@ == (MouseModel {
                buttons: Map::<u32, ButtonState>::empty(),
                cursor: CursorState::Left,
            }),
    {
        Mouse { mouse_button_state: Table::with_capacity(4), cursor_state: CursorState::Left }
    }

    /// Whether the button is held down (since before this frame).
    pub fn pressed(&self, button: MouseButton) -> (b: bool)
        ensures
            b == (lookup(self@.buttons, button) == Some(ButtonState::Pressed)),
    {
        match self.mouse_button_state.get(button) {
            Some(state) => state == ButtonState::Pressed,
            None => false,
        }
    }

    /// Whether the button is up (since before this frame, or never seen).
    pub fn released(&self, button: MouseButton) -> (b: bool)
        ensures
            b == reads_released(self@.buttons, button),
    {
        match self.mouse_button_state.get(button) {
            Some(state) => state == ButtonState::Released,
            None => true,
        }
    }

    /// Whether the button went down this frame.
    pub fn just_pressed(&self, button: MouseButton) -> (b: bool)
        ensures
            b == (lookup(self@.buttons, button) == Some(ButtonState::JustPressed)),
    {
        match self.mouse_button_state.get(button) {
            Some(state) => state == ButtonState::JustPressed,
            None => false,
        }
    }

    /// Whether the button went up this frame.
    pub fn just_released(&self, button: MouseButton) -> (b: bool)
        ensures
            b == (lookup(self@.buttons, button) == Some(ButtonState::JustReleased)),
    {
        match self.mouse_button_state.get(button) {
            Some(state) => state == ButtonState::JustReleased,
            None => false,
        }
    }

    /// Whether the cursor is outside the window (since before this frame).
    pub fn cursor_left(&self) -> (b: bool)
        ensures
            b == (self@.cursor == CursorState::Left),
    {
        self.cursor_state == CursorState::Left
    }

    /// Whether the cursor is inside the window (since before this frame).
    pub fn cursor_entered(&self) -> (b: bool)
        ensures
            b == (self@.cursor == CursorState::Entered),
    {
        self.cursor_state == CursorState::Entered
    }

    /// Whether the cursor left the window this frame.
    pub fn cursor_just_left(&self) -> (b: bool)
        ensures
            b == (self@.cursor == CursorState::JustLeft),
    {
        self.cursor_state == CursorState::JustLeft
    }

    /// Whether the cursor entered the window this frame.
    pub fn cursor_just_entered(&self) -> (b: bool)
        ensures
            b == (self@.cursor == CursorState::JustEntered),
    {
        self.cursor_state == CursorState::JustEntered
    }

    fn before_apply(&mut self)
        ensures
            final(self)@ == (MouseModel {
                buttons: old(self)@.buttons.map_values(|b: ButtonState| settle(b)),
                cursor: settle_cursor(old(self)@.cursor),
            }),
    {
        self.cursor_state = match self.cursor_state {
            CursorState::JustLeft => CursorState::Left,
            CursorState::JustEntered => CursorState::Entered,
            _ => self.cursor_state,
        };
        self.mouse_button_state.settle_all();
    }

    fn release_all(&mut self)
        ensures
            final(self)@ == (MouseModel {
                buttons: old(self)@.buttons.map_values(|b: ButtonState| ButtonState::Released),
                ..old(self)@
            }),
    {
        self.mouse_button_state.release_all();
    }
}

/// The mouse and the keyboard.
#[derive(Debug)]
pub struct Input {
    pub mouse: Mouse,
    pub keyboard: Keyboard,
}

impl View for Input {
    type V = InputModel;

    /// The views of the two public fields.
    open spec fn view(&self) -> InputModel {
        InputModel { mouse: self.mouse@, keyboard: self.keyboard@ }
    }
}

impl Input {
    /// No button seen, the cursor outside the window.
    pub fn new() -> (i: Input)
        ensures
            i@ == (InputModel {
                mouse: MouseModel {
                    buttons: Map::<u32, ButtonState>::empty(),
                    cursor: CursorState::Left,
                },
                keyboard: KeyboardModel { keys: Map::<u32, ButtonState>::empty() },
            }),
    {
        Input { mouse: Mouse::new(), keyboard: Keyboard::new() }
    }

    /// Starts a frame: the previous frame's transitions settle, then the
    /// frame's events are applied in order.
    pub fn apply(&mut self, events: &Vec<InputEvent>)
        ensures
            final(self)@ == input_frame(old(self)@, events@),
            final(self).keyboard@ == input_frame(old(self)@, events@).keyboard,
            final(self).mouse@ == input_frame(old(self)@, events@).mouse,
    {
        self.mouse.before_apply();
        self.keyboard.before_apply();
        let ghost start = self@;
        assert(start == settle_input(old(self)@));
        let mut i: usize = 0;
        while i < events.len()
            invariant
                i <= events@.len(),
                self@ == apply_events(start, events@.take(i as int)),
            decreases events@.len() - i,
        {
            let ghost before = self@;
            match events[i] {
                InputEvent::MouseInput { button, state } => {
                    let next = match state {
                        ElementState::Pressed => ButtonState::JustPressed,
                        ElementState::Released => ButtonState::JustReleased,
                    };
                    self.mouse.mouse_button_state.set(button, next);
                },
                InputEvent::CursorLeft => {
                    self.mouse.cursor_state = CursorState::JustLeft;
                },
                InputEvent::CursorEntered => {
                    self.mouse.cursor_state = CursorState::JustEntered;
                },
                InputEvent::KeyboardInput { keycode, state } => {
                    self.keyboard.apply_key(keycode, state);
                },
            }
            proof {
                assert(events@.take(i + 1).drop_last() =~= events@.take(i as int));
                assert(events@.take(i + 1).last() == events@[i as int]);
                assert(self@ == apply_event(before, events@[i as int]));
            }
            i = i + 1;
        }
        proof {
            assert(events@.take(events@.len() as int) =~= events@);
        }
    }

    /// Every known button and key is released.
    pub fn release_all(&mut self)
        ensures
            final(self)@ == (InputModel {
                mouse: MouseModel {
                    buttons: old(self)@.mouse.buttons.map_values(
                        |b: ButtonState| ButtonState::Released,
                    ),
                    ..old(self)@.mouse
                },
                keyboard: KeyboardModel {
                    keys: old(self)@.keyboard.keys.map_values(|b: ButtonState| ButtonState::Released),
                },
            }),
    {
        self.mouse.release_all();
        self.keyboard.release_all();
    }
}

// ---------------------------------------------------------------------------
// Laws
// ---------------------------------------------------------------------------

proof fn lemma_single_event(m: InputModel, e: InputEvent)
    ensures
        apply_events(m, seq![e]) == apply_event(m, e),
        apply_events(m, Seq::<InputEvent>::empty()) == m,
{
    assert(seq![e].drop_last() =~= Seq::<InputEvent>::empty());
    reveal_with_fuel(apply_events, 2);
}

/// A frame without events leaves no transition pending: every key and
/// button reads pressed or released, and the cursor is in or out.
pub proof fn lemma_quiet_frame_settles(m: InputModel)
    ensures
        forall|k: u32| #[trigger]
            input_frame(m, Seq::empty()).keyboard.keys.dom().contains(k) ==> {
                let b = input_frame(m, Seq::empty()).keyboard.keys[k];
                b == ButtonState::Pressed || b == ButtonState::Released
            },
        forall|k: u32| #[trigger]
            input_frame(m, Seq::empty()).mouse.buttons.dom().contains(k) ==> {
                let b = input_frame(m, Seq::empty()).mouse.buttons[k];
                b == ButtonState::Pressed || b == ButtonState::Released
            },
        input_frame(m, Seq::empty()).mouse.cursor == CursorState::Left || input_frame(
            m,
            Seq::empty(),
        ).mouse.cursor == CursorState::Entered,
{
    lemma_single_event(settle_input(m), InputEvent::CursorLeft);
}

/// A key pressed in a frame reads "just pressed" in that frame, unless it
/// was held already, and "pressed" in the next frame if nothing happens to
/// it.
pub proof fn lemma_key_press_then_hold(m: InputModel, k: KeyCode)
    ensures
        ({
            let f1 = input_frame(
                m,
                seq![InputEvent::KeyboardInput { keycode: k, state: ElementState::Pressed }],
            );
            let f2 = input_frame(f1, Seq::empty());
            &&& lookup(f1.keyboard.keys, k) == Some(
                if lookup(m.keyboard.keys, k) == Some(ButtonState::Pressed) || lookup(
                    m.keyboard.keys,
                    k,
                ) == Some(ButtonState::JustPressed) {
                    ButtonState::Pressed
                } else {
                    ButtonState::JustPressed
                },
            )
            &&& lookup(f2.keyboard.keys, k) == Some(ButtonState::Pressed)
        }),
{
    let e = InputEvent::KeyboardInput { keycode: k, state: ElementState::Pressed };
    lemma_single_event(settle_input(m), e);
    let f1 = input_frame(m, seq![e]);
    lemma_single_event(settle_input(f1), e);
}

/// A key let go in a frame reads "just released" in that frame and
/// "released" in the next frame if nothing happens to it.
pub proof fn lemma_key_release_then_up(m: InputModel, k: KeyCode)
    ensures
        ({
            let f1 = input_frame(
                m,
                seq![InputEvent::KeyboardInput { keycode: k, state: ElementState::Released }],
            );
            let f2 = input_frame(f1, Seq::empty());
            &&& lookup(f1.keyboard.keys, k) == Some(ButtonState::JustReleased)
            &&& lookup(f2.keyboard.keys, k) == Some(ButtonState::Released)
            &&& reads_released(f2.keyboard.keys, k)
        }),
{
    let e = InputEvent::KeyboardInput { keycode: k, state: ElementState::Released };
    lemma_single_event(settle_input(m), e);
    let f1 = input_frame(m, seq![e]);
    lemma_single_event(settle_input(f1), e);
}

/// A mouse button pressed in a frame reads "just pressed" in that frame,
/// whatever it was before, and "pressed" in the next frame if nothing
/// happens to it.
pub proof fn lemma_mouse_press_then_hold(m: InputModel, b: MouseButton)
    ensures
        ({
            let f1 = input_frame(
                m,
                seq![InputEvent::MouseInput { button: b, state: ElementState::Pressed }],
            );
            let f2 = input_frame(f1, Seq::empty());
            &&& lookup(f1.mouse.buttons, b) == Some(ButtonState::JustPressed)
            &&& lookup(f2.mouse.buttons, b) == Some(ButtonState::Pressed)
        }),
{
    let e = InputEvent::MouseInput { button: b, state: ElementState::Pressed };
    lemma_single_event(settle_input(m), e);
    let f1 = input_frame(m, seq![e]);
    lemma_single_event(settle_input(f1), e);
}

/// A key no event of the frame names only settles.
pub proof fn lemma_untouched_key_settles(m: InputModel, events: Seq<InputEvent>, k: KeyCode)
    requires
        forall|i: int|
            0 <= i < events.len() ==> !(#[trigger] events[i] matches InputEvent::KeyboardInput {
                keycode,
                ..
            } && keycode == k),
    ensures
        lookup(input_frame(m, events).keyboard.keys, k) == match lookup(m.keyboard.keys, k) {
            Some(b) => Some(settle(b)),
            None => None,
        },
    decreases events.len(),
{
    if events.len() > 0 {
        let rest = events.drop_last();
        assert forall|i: int|
            0 <= i < rest.len() implies !(#[trigger] rest[i] matches InputEvent::KeyboardInput {
            keycode,
            ..
        } && keycode == k) by {
            assert(rest[i] == events[i]);
        }
        lemma_untouched_key_settles(m, rest, k);
        assert(events.last() == events[events.len() - 1]);
    }
}

/// After releasing everything, every key and mouse button reads released.
pub proof fn lemma_release_all_releases(m: InputModel, k: KeyCode, b: MouseButton)
    ensures
        reads_released(m.keyboard.keys.map_values(|s: ButtonState| ButtonState::Released), k),
        reads_released(m.mouse.buttons.map_values(|s: ButtonState| ButtonState::Released), b),
{
}

/// The keyboard events for the key `k` among `events`, in order.
pub open spec fn key_events(events: Seq<InputEvent>, k: KeyCode) -> Seq<ElementState>
    decreases events.len(),
{
    if events.len() == 0 {
        Seq::empty()
    } else {
        let before = key_events(events.drop_last(), k);
        match events.last() {
            InputEvent::KeyboardInput { keycode, state } => if keycode == k {
                before.push(state)
            } else {
                before
            },
            _ => before,
        }
    }
}

/// The mouse events for the button `b` among `events`, in order.
pub open spec fn button_events(events: Seq<InputEvent>, b: MouseButton) -> Seq<ElementState>
    decreases events.len(),
{
    if events.len() == 0 {
        Seq::empty()
    } else {
        let before = button_events(events.drop_last(), b);
        match events.last() {
            InputEvent::MouseInput { button, state } => if button == b {
                before.push(state)
            } else {
                before
            },
            _ => before,
        }
    }
}

/// The cursor's moves among `events`, in order, each as the state it leads
/// to.
pub open spec fn cursor_events(events: Seq<InputEvent>) -> Seq<CursorState>
    decreases events.len(),
{
    if events.len() == 0 {
        Seq::empty()
    } else {
        let before = cursor_events(events.drop_last());
        match events.last() {
            InputEvent::CursorLeft => before.push(CursorState::JustLeft),
            InputEvent::CursorEntered => before.push(CursorState::JustEntered),
            _ => before,
        }
    }
}

/// Whether every one of `states` is a press.
pub open spec fn all_presses(states: Seq<ElementState>) -> bool {
    forall|i: int| 0 <= i < states.len() ==> #[trigger] states[i] == ElementState::Pressed
}

/// The state of a key that was `s0` after its events `states`: unchanged
/// without any; otherwise the last one decides — a release makes it "just
/// released", a press "just pressed", except that presses of a key held
/// all along (repeats) keep it "pressed".
pub open spec fn key_after(s0: Option<ButtonState>, states: Seq<ElementState>) -> Option<
    ButtonState,
> {
    if states.len() == 0 {
        s0
    } else if states.last() == ElementState::Released {
        Some(ButtonState::JustReleased)
    } else if s0 == Some(ButtonState::Pressed) && all_presses(states) {
        Some(ButtonState::Pressed)
    } else {
        Some(ButtonState::JustPressed)
    }
}

/// Within a frame the last event for a key, a button or the cursor decides
/// its state: a key follows `key_after` from its settled state, a mouse
/// button that has events reads "just pressed" or "just released" after the
/// last of them and otherwise keeps its settled state, and the cursor reads
/// "just left" or "just entered" after its last move and otherwise keeps its
/// settled state.
pub proof fn lemma_last_event_decides(m: InputModel, events: Seq<InputEvent>, k: KeyCode, b: MouseButton)
    ensures
        lookup(input_frame(m, events).keyboard.keys, k) == key_after(
            lookup(settle_input(m).keyboard.keys, k),
            key_events(events, k),
        ),
        lookup(input_frame(m, events).mouse.buttons, b) == if button_events(events, b).len()
            == 0 {
            lookup(settle_input(m).mouse.buttons, b)
        } else {
            Some(mouse_next(button_events(events, b).last()))
        },
        input_frame(m, events).mouse.cursor == if cursor_events(events).len() == 0 {
            settle_cursor(m.mouse.cursor)
        } else {
            cursor_events(events).last()
        },
{
    lemma_events_decide(settle_input(m), events, k, b);
}

/// The same law over any starting state.
proof fn lemma_events_decide(m: InputModel, events: Seq<InputEvent>, k: KeyCode, b: MouseButton)
    ensures
        lookup(apply_events(m, events).keyboard.keys, k) == key_after(
            lookup(m.keyboard.keys, k),
            key_events(events, k),
        ),
        lookup(apply_events(m, events).mouse.buttons, b) == if button_events(events, b).len()
            == 0 {
            lookup(m.mouse.buttons, b)
        } else {
            Some(mouse_next(button_events(events, b).last()))
        },
        apply_events(m, events).mouse.cursor == if cursor_events(events).len() == 0 {
            m.mouse.cursor
        } else {
            cursor_events(events).last()
        },
    decreases events.len(),
{
    if events.len() > 0 {
        let rest = events.drop_last();
        lemma_events_decide(m, rest, k, b);
        let before = apply_events(m, rest);
        let ks = key_events(rest, k);
        let s0 = lookup(m.keyboard.keys, k);
        match events.last() {
            InputEvent::KeyboardInput { keycode, state } => {
                if keycode == k {
                    let ks2 = ks.push(state);
                    assert(key_events(events, k) == ks2);
                    assert(ks2.last() == state);
                    if state == ElementState::Pressed {
                        assert(all_presses(ks2) <==> all_presses(ks)) by {
                            if all_presses(ks) {
                                assert forall|i: int| 0 <= i < ks2.len() implies #[trigger] ks2[i]
                                    == ElementState::Pressed by {
                                    if i < ks.len() {
                                        assert(ks2[i] == ks[i]);
                                    }
                                }
                            }
                            if all_presses(ks2) {
                                assert forall|i: int| 0 <= i < ks.len() implies #[trigger] ks[i]
                                    == ElementState::Pressed by {
                                    assert(ks2[i] == ks[i]);
                                }
                            }
                        }
                        if ks.len() > 0 && ks.last() == ElementState::Released {
                            assert(ks2[ks.len() - 1] == ElementState::Released);
                        }
                        if ks.len() > 0 && all_presses(ks) {
                            assert(ks[ks.len() - 1] == ElementState::Pressed);
                        }
                    }
                }
            },
            _ => {},
        }
    }
}

/// A button reads as released exactly when it is up: it was never seen or
/// its last transition settled to up. A button that is down, or that went
/// down or up in this frame, does not read as released; so of "pressed",
/// "just pressed", "just released" and "released" exactly one holds.
pub proof fn lemma_released_means_up(m: Map<u32, ButtonState>, code: u32)
    ensures
        reads_released(m, code) <==> (!m.dom().contains(code) || m[code]
            == ButtonState::Released),
        !m.dom().contains(code) ==> lookup(m, code) is None,
        m.dom().contains(code) ==> lookup(m, code) == Some(m[code]),
        lookup(m, code) == Some(ButtonState::Pressed) ==> !reads_released(m, code),
        lookup(m, code) == Some(ButtonState::JustPressed) ==> !reads_released(m, code),
        lookup(m, code) == Some(ButtonState::JustReleased) ==> !reads_released(m, code),
        reads_released(m, code) || lookup(m, code) == Some(ButtonState::Pressed) || lookup(
            m,
            code,
        ) == Some(ButtonState::JustPressed) || lookup(m, code) == Some(ButtonState::JustReleased),
{
}

/// Settling keeps a button where it is: a button that is down, or went down
/// in the previous frame, is down; one that is up, or went up, is up.
pub proof fn lemma_settle_keeps_position(b: ButtonState)
    ensures
        settle(b) == ButtonState::Pressed <==> (b == ButtonState::Pressed || b
            == ButtonState::JustPressed),
        settle(b) == ButtonState::Released <==> (b == ButtonState::Released || b
            == ButtonState::JustReleased),
{
}

/// Settling keeps the cursor where it is: a cursor in the window, or that
/// entered it in the previous frame, is in; one outside, or that left, is
/// out.
pub proof fn lemma_settle_cursor_keeps_position(c: CursorState)
    ensures
        settle_cursor(c) == CursorState::Entered <==> (c == CursorState::Entered || c
            == CursorState::JustEntered),
        settle_cursor(c) == CursorState::Left <==> (c == CursorState::Left || c
            == CursorState::JustLeft),
{
}

/// A frame in which nothing happens to a key, a mouse button or the cursor
/// leaves each where it was: down stays down, up stays up, never seen stays
/// never seen, and a cursor in the window (or that just entered) reads in
/// the window, one outside (or that just left) reads outside.
pub proof fn lemma_untouched_stays(m: InputModel, events: Seq<InputEvent>, k: KeyCode, b: MouseButton)
    ensures
        key_events(events, k).len() == 0 ==> {
            let after = lookup(input_frame(m, events).keyboard.keys, k);
            let before = lookup(m.keyboard.keys, k);
            &&& after is None <==> before is None
            &&& after == Some(ButtonState::Pressed) <==> (before == Some(ButtonState::Pressed)
                || before == Some(ButtonState::JustPressed))
            &&& after == Some(ButtonState::Released) <==> (before == Some(ButtonState::Released)
                || before == Some(ButtonState::JustReleased))
        },
        button_events(events, b).len() == 0 ==> {
            let after = lookup(input_frame(m, events).mouse.buttons, b);
            let before = lookup(m.mouse.buttons, b);
            &&& after is None <==> before is None
            &&& after == Some(ButtonState::Pressed) <==> (before == Some(ButtonState::Pressed)
                || before == Some(ButtonState::JustPressed))
            &&& after == Some(ButtonState::Released) <==> (before == Some(ButtonState::Released)
                || before == Some(ButtonState::JustReleased))
        },
        cursor_events(events).len() == 0 ==> {
            &&& input_frame(m, events).mouse.cursor == CursorState::Entered <==> (m.mouse.cursor
                == CursorState::Entered || m.mouse.cursor == CursorState::JustEntered)
            &&& input_frame(m, events).mouse.cursor == CursorState::Left <==> (m.mouse.cursor
                == CursorState::Left || m.mouse.cursor == CursorState::JustLeft)
        },
{
    lemma_last_event_decides(m, events, k, b);
    let s = settle_input(m);
    if m.keyboard.keys.dom().contains(k) {
        assert(s.keyboard.keys.dom().contains(k));
        lemma_settle_keeps_position(m.keyboard.keys[k]);
    }
    if m.mouse.buttons.dom().contains(b) {
        assert(s.mouse.buttons.dom().contains(b));
        lemma_settle_keeps_position(m.mouse.buttons[b]);
    }
    lemma_settle_cursor_keeps_position(m.mouse.cursor);
}

/// What one event does: a mouse press or release makes the button "just
/// pressed" or "just released"; a key release makes the key "just
/// released"; a key press makes it "just pressed", unless it is held down
/// already, when it stays "pressed"; the cursor "just left" or "just
/// entered"; nothing else changes.
pub proof fn lemma_event_effects(m: InputModel, e: InputEvent, k: KeyCode, b: MouseButton)
    ensures
        e == (InputEvent::MouseInput { button: b, state: ElementState::Pressed }) ==> lookup(
            apply_event(m, e).mouse.buttons,
            b,
        ) == Some(ButtonState::JustPressed),
        e == (InputEvent::MouseInput { button: b, state: ElementState::Released }) ==> lookup(
            apply_event(m, e).mouse.buttons,
            b,
        ) == Some(ButtonState::JustReleased),
        e == (InputEvent::KeyboardInput { keycode: k, state: ElementState::Released }) ==> lookup(
            apply_event(m, e).keyboard.keys,
            k,
        ) == Some(ButtonState::JustReleased),
        e == (InputEvent::KeyboardInput { keycode: k, state: ElementState::Pressed }) ==> lookup(
            apply_event(m, e).keyboard.keys,
            k,
        ) == if lookup(m.keyboard.keys, k) == Some(ButtonState::Pressed) {
            Some(ButtonState::Pressed)
        } else {
            Some(ButtonState::JustPressed)
        },
        e == InputEvent::CursorLeft ==> apply_event(m, e).mouse.cursor == CursorState::JustLeft,
        e == InputEvent::CursorEntered ==> apply_event(m, e).mouse.cursor
            == CursorState::JustEntered,
        !(e is KeyboardInput && e->keycode == k) ==> lookup(apply_event(m, e).keyboard.keys, k)
            == lookup(m.keyboard.keys, k),
        !(e is MouseInput && e->button == b) ==> lookup(apply_event(m, e).mouse.buttons, b)
            == lookup(m.mouse.buttons, b),
        !(e is CursorLeft || e is CursorEntered) ==> apply_event(m, e).mouse.cursor
            == m.mouse.cursor,
{
}

} // verus!
