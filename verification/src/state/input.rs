//! # Input state
//!
//! Keyboard intent: held direction keys, confirm and backpack presses kept until consumed, a
//! pending backpack hotkey digit (1–9), a pending weapon-cycle step (Tab / Shift+Tab), and
//! pending save (F5) and load (F9) requests. The
//! binary turns each window key event into a [`KeyInput`]; the movement vector (floating
//! point) is computed there from the four direction flags.

use vstd::prelude::*;

verus! {

/// The keys the game reacts to.
#[derive(PartialEq, Eq, Structural, Clone, Copy, Debug)]
pub enum KeyCode {
    ArrowUp,
    ArrowDown,
    ArrowLeft,
    ArrowRight,
    KeyW,
    KeyA,
    KeyS,
    KeyD,
    Space,
    Enter,
    KeyB,
    Digit1,
    Digit2,
    Digit3,
    Digit4,
    Digit5,
    Digit6,
    Digit7,
    Digit8,
    Digit9,
    Tab,
    F5,
    F9,
}

/// One key event: the physical key (`None` for a key the game ignores), whether it went
/// down (else up), and whether it is an auto-repeat.
#[derive(Clone, Copy, Debug)]
pub struct KeyInput {
    pub code: Option<KeyCode>,
    pub pressed: bool,
    pub repeat: bool,
}

/// Movement and action intent from the keyboard. `confirm_pressed` (Space / Enter) and
/// `backpack_pressed` (B) stay set until the consumer clears them.
pub struct InputState {
    pub up: bool,
    pub down: bool,
    pub left: bool,
    pub right: bool,
    pub confirm_pressed: bool,
    pub backpack_pressed: bool,
    /// Digit 1–9 pressed, for the backpack skill hotkeys.
    skill_hotkey_digit: Option<u8>,
    /// +1 (Tab) or -1 (Shift+Tab) while the backpack is open.
    weapon_cycle_step: Option<i32>,
    /// F5 pressed: save the game (honoured with the backpack open).
    save_game_requested: bool,
    /// F9 pressed: load the saved game (honoured with the backpack open).
    load_game_requested: bool,
}

/// What an input state holds.
pub struct InputView {
    pub up: bool,
    pub down: bool,
    pub left: bool,
    pub right: bool,
    pub confirm_pressed: bool,
    pub backpack_pressed: bool,
    pub digit: Option<u8>,
    pub cycle: Option<i32>,
    pub save: bool,
    pub load: bool,
}

impl View for InputState {
    type V = InputView;

    closed spec fn view(&self) -> InputView {
        InputView {
            up: self.up,
            down: self.down,
            left: self.left,
            right: self.right,
            confirm_pressed: self.confirm_pressed,
            backpack_pressed: self.backpack_pressed,
            digit: self.skill_hotkey_digit,
            cycle: self.weapon_cycle_step,
            save: self.save_game_requested,
            load: self.load_game_requested,
        }
    }
}

/// A pending digit is one of 1–9 and a pending step is ±1.
pub open spec fn input_wf(v: InputView) -> bool {
    &&& (v.digit matches Some(d) ==> 1 <= d <= 9)
    &&& (v.cycle matches Some(s) ==> s == 1 || s == -1)
}

/// The digit of a number key.
pub open spec fn digit_of(code: KeyCode) -> Option<u8> {
    match code {
        KeyCode::Digit1 => Some(1u8),
        KeyCode::Digit2 => Some(2u8),
        KeyCode::Digit3 => Some(3u8),
        KeyCode::Digit4 => Some(4u8),
        KeyCode::Digit5 => Some(5u8),
        KeyCode::Digit6 => Some(6u8),
        KeyCode::Digit7 => Some(7u8),
        KeyCode::Digit8 => Some(8u8),
        KeyCode::Digit9 => Some(9u8),
        _ => None,
    }
}

impl InputState {
    /// No key held, nothing pending.
    pub fn new() -> (r: Self)
        ensures
            r@ == (InputView {
                up: false,
                down: false,
                left: false,
                right: false,
                confirm_pressed: false,
                backpack_pressed: false,
                digit: None,
                cycle: None,
                save: false,
                load: false,
            }),
    {
        InputState {
            up: false,
            down: false,
            left: false,
            right: false,
            confirm_pressed: false,
            backpack_pressed: false,
            skill_hotkey_digit: None,
            weapon_cycle_step: None,
            save_game_requested: false,
            load_game_requested: false,
        }
    }

    /// Take the pending backpack number key (1–9), if any, and clear it.
    pub fn take_skill_hotkey_digit(&mut self) -> (r: Option<u8>)
        ensures
            r == old(self)@.digit,
            final(self)@ == (InputView { digit: None, ..old(self)@ }),
    {
        let r = self.skill_hotkey_digit;
        self.skill_hotkey_digit = None;
        r
    }

    /// Take the pending weapon-cycle step (+1 Tab, -1 Shift+Tab), if any, and clear it.
    pub fn take_weapon_cycle_step(&mut self) -> (r: Option<i32>)
        ensures
            r == old(self)@.cycle,
            final(self)@ == (InputView { cycle: None, ..old(self)@ }),
    {
        let r = self.weapon_cycle_step;
        self.weapon_cycle_step = None;
        r
    }

    /// Take a pending save request (F5), clearing it.
    pub fn take_save_game_request(&mut self) -> (r: bool)
        ensures
            r == old(self)@.save,
            final(self)@ == (InputView { save: false, ..old(self)@ }),
    {
        let r = self.save_game_requested;
        self.save_game_requested = false;
        r
    }

    /// Take a pending load request (F9), clearing it.
    pub fn take_load_game_request(&mut self) -> (r: bool)
        ensures
            r == old(self)@.load,
            final(self)@ == (InputView { load: false, ..old(self)@ }),
    {
        let r = self.load_game_requested;
        self.load_game_requested = false;
        r
    }

    /// The held movement keys as an unnormalised step: right minus left, down minus up, each
    /// key counting 1. The binary scales it to unit length for diagonal movement.
    pub fn direction_axes(&self) -> (r: (i32, i32))
        ensures
            r.0 == (if self@.right { 1int } else { 0 }) - (if self@.left { 1int } else { 0 }),
            r.1 == (if self@.down { 1int } else { 0 }) - (if self@.up { 1int } else { 0 }),
    {
        let x: i32 = (if self.right { 1 } else { 0 }) - (if self.left { 1 } else { 0 });
        let y: i32 = (if self.down { 1 } else { 0 }) - (if self.up { 1 } else { 0 });
        (x, y)
    }

    /// The pending hotkey digit, left pending.
    pub fn peek_skill_hotkey_digit(&self) -> (r: Option<u8>)
        ensures
            r == self@.digit,
    {
        self.skill_hotkey_digit
    }

    /// The pending weapon-cycle step, left pending.
    pub fn peek_weapon_cycle_step(&self) -> (r: Option<i32>)
        ensures
            r == self@.cycle,
    {
        self.weapon_cycle_step
    }

    /// Whether a confirm press is latched.
    pub fn is_confirm_pressed(&self) -> (r: bool)
        ensures
            r == self@.confirm_pressed,
    {
        self.confirm_pressed
    }

    /// Whether a backpack press is latched.
    pub fn is_backpack_pressed(&self) -> (r: bool)
        ensures
            r == self@.backpack_pressed,
    {
        self.backpack_pressed
    }

    /// Clear a latched confirm press.
    pub fn clear_confirm(&mut self)
        ensures
            final(self)@ == (InputView { confirm_pressed: false, ..old(self)@ }),
    {
        self.confirm_pressed = false;
    }

    /// Clear a latched backpack press.
    pub fn clear_backpack(&mut self)
        ensures
            final(self)@ == (InputView { backpack_pressed: false, ..old(self)@ }),
    {
        self.backpack_pressed = false;
    }

    /// Update from one key event without modifiers held.
    pub fn apply_key(&mut self, event: &KeyInput)
        ensures
            final(self)@ == key_applied(old(self)@, *event, false),
    {
        self.apply_key_with_modifiers(event, false);
    }

    /// Update from one key event; `shift` tells whether Shift is held (Shift+Tab cycles back).
    /// Direction keys (arrows and WASD) follow the key state; Space / Enter and B latch their
    /// press; a digit press (not a repeat) sets the pending hotkey; a Tab press (not a repeat)
    /// sets the pending cycle step; an F5 / F9 press (not a repeat) requests a save / load.
    pub fn apply_key_with_modifiers(&mut self, event: &KeyInput, shift: bool)
        ensures
            final(self)@ == key_applied(old(self)@, *event, shift),
    {
        let pressed = event.pressed;
        let code = match event.code {
            Some(c) => c,
            None => return,
        };
        match code {
            KeyCode::ArrowUp | KeyCode::KeyW => self.up = pressed,
            KeyCode::ArrowDown | KeyCode::KeyS => self.down = pressed,
            KeyCode::ArrowLeft | KeyCode::KeyA => self.left = pressed,
            KeyCode::ArrowRight | KeyCode::KeyD => self.right = pressed,
            KeyCode::Space | KeyCode::Enter => self.confirm_pressed = self.confirm_pressed || pressed,
            KeyCode::KeyB => self.backpack_pressed = self.backpack_pressed || pressed,
            KeyCode::Digit1
            | KeyCode::Digit2
            | KeyCode::Digit3
            | KeyCode::Digit4
            | KeyCode::Digit5
            | KeyCode::Digit6
            | KeyCode::Digit7
            | KeyCode::Digit8
            | KeyCode::Digit9 => {
                if pressed && !event.repeat {
                    self.skill_hotkey_digit = Some(
                        match code {
                            KeyCode::Digit1 => 1,
                            KeyCode::Digit2 => 2,
                            KeyCode::Digit3 => 3,
                            KeyCode::Digit4 => 4,
                            KeyCode::Digit5 => 5,
                            KeyCode::Digit6 => 6,
                            KeyCode::Digit7 => 7,
                            KeyCode::Digit8 => 8,
                            _ => 9,
                        },
                    );
                }
            },
            KeyCode::Tab => {
                if pressed && !event.repeat {
                    let delta = if shift {
                        -1
                    } else {
                        1
                    };
                    self.weapon_cycle_step = Some(delta);
                }
            },
            KeyCode::F5 => {
                if pressed && !event.repeat {
                    self.save_game_requested = true;
                }
            },
            KeyCode::F9 => {
                if pressed && !event.repeat {
                    self.load_game_requested = true;
                }
            },
        }
    }
}

impl Default for InputState {
    fn default() -> (r: Self)
        ensures
            r@ == (InputView {
                up: false,
                down: false,
                left: false,
                right: false,
                confirm_pressed: false,
                backpack_pressed: false,
                digit: None,
                cycle: None,
                save: false,
                load: false,
            }),
    {
        InputState::new()
    }
}

/// Whether `c` is one of the two keys `a`, `b`.
pub open spec fn key_is(code: Option<KeyCode>, a: KeyCode, b: KeyCode) -> bool {
    code == Some(a) || code == Some(b)
}

/// Input `v` updated by key event `e`, with Shift held when `shift`.
pub open spec fn key_applied(v: InputView, e: KeyInput, shift: bool) -> InputView {
    let code = e.code;
    InputView {
        up: if key_is(code, KeyCode::ArrowUp, KeyCode::KeyW) {
            e.pressed
        } else {
            v.up
        },
        down: if key_is(code, KeyCode::ArrowDown, KeyCode::KeyS) {
            e.pressed
        } else {
            v.down
        },
        left: if key_is(code, KeyCode::ArrowLeft, KeyCode::KeyA) {
            e.pressed
        } else {
            v.left
        },
        right: if key_is(code, KeyCode::ArrowRight, KeyCode::KeyD) {
            e.pressed
        } else {
            v.right
        },
        confirm_pressed: v.confirm_pressed || (key_is(code, KeyCode::Space, KeyCode::Enter)
            && e.pressed),
        backpack_pressed: v.backpack_pressed || (code == Some(KeyCode::KeyB) && e.pressed),
        digit: match code {
            Some(c) => if digit_of(c) is Some && e.pressed && !e.repeat {
                digit_of(c)
            } else {
                v.digit
            },
            None => v.digit,
        },
        cycle: if code == Some(KeyCode::Tab) && e.pressed && !e.repeat {
            Some(
                if shift {
                    -1i32
                } else {
                    1i32
                },
            )
        } else {
            v.cycle
        },
        save: v.save || (code == Some(KeyCode::F5) && e.pressed && !e.repeat),
        load: v.load || (code == Some(KeyCode::F9) && e.pressed && !e.repeat),
    }
}

/// How a key event moves the player. ArrowUp / W drive only `up`, ArrowDown / S only `down`,
/// ArrowLeft / A only `left`, ArrowRight / D only `right`: the flag the key drives takes the
/// key's state (held while pressed, released on key-up) and the other three are unchanged.
/// Any other key, or an ignored one, leaves all four as they were. In particular a held S
/// (or ArrowDown) alone moves down: the vertical axis (down minus up) is +1.
pub proof fn law_movement_keys(v: InputView, e: KeyInput, shift: bool)
    ensures
        ({
            let r = key_applied(v, e, shift);
            let dirs = (r.up, r.down, r.left, r.right);
            let p = e.pressed;
            &&& (e.code == Some(KeyCode::ArrowUp) || e.code == Some(KeyCode::KeyW)) ==> dirs == (p, v.down, v.left, v.right)
            &&& (e.code == Some(KeyCode::ArrowDown) || e.code == Some(KeyCode::KeyS)) ==> dirs == (v.up, p, v.left, v.right)
            &&& (e.code == Some(KeyCode::ArrowLeft) || e.code == Some(KeyCode::KeyA)) ==> dirs == (v.up, v.down, p, v.right)
            &&& (e.code == Some(KeyCode::ArrowRight) || e.code == Some(KeyCode::KeyD)) ==> dirs == (v.up, v.down, v.left, p)
            &&& !(e.code == Some(KeyCode::ArrowUp) || e.code == Some(KeyCode::KeyW) || e.code == Some(KeyCode::ArrowDown)
                || e.code == Some(KeyCode::KeyS) || e.code == Some(KeyCode::ArrowLeft) || e.code == Some(KeyCode::KeyA)
                || e.code == Some(KeyCode::ArrowRight) || e.code == Some(KeyCode::KeyD)) ==> dirs == (v.up, v.down, v.left, v.right)
        }),
{
}

/// The letter keys W, A, S, D act exactly as the arrow keys Up, Left, Down, Right: the same
/// event with the letter or with the arrow gives the same input state.
pub proof fn law_wasd_mirrors_arrows(v: InputView, pressed: bool, repeat: bool, shift: bool)
    ensures
        key_applied(v, KeyInput { code: Some(KeyCode::KeyW), pressed, repeat }, shift)
            == key_applied(v, KeyInput { code: Some(KeyCode::ArrowUp), pressed, repeat }, shift),
        key_applied(v, KeyInput { code: Some(KeyCode::KeyA), pressed, repeat }, shift)
            == key_applied(v, KeyInput { code: Some(KeyCode::ArrowLeft), pressed, repeat }, shift),
        key_applied(v, KeyInput { code: Some(KeyCode::KeyS), pressed, repeat }, shift)
            == key_applied(v, KeyInput { code: Some(KeyCode::ArrowDown), pressed, repeat }, shift),
        key_applied(v, KeyInput { code: Some(KeyCode::KeyD), pressed, repeat }, shift)
            == key_applied(v, KeyInput { code: Some(KeyCode::ArrowRight), pressed, repeat }, shift),
{
}

/// How a key event sets the pending actions. Space or Enter going down latches confirm and B
/// latches the backpack press (a key-up never clears them); a fresh press (not an
/// auto-repeat) of a digit key 1..9 makes that number the pending hotkey, of Tab makes -1
/// (with Shift) or +1 the pending cycle step, and of F5 / F9 requests a save / load. Other
/// keys leave each of these as it was.
pub proof fn law_action_keys(v: InputView, e: KeyInput, shift: bool)
    ensures
        ({
            let r = key_applied(v, e, shift);
            let fresh = e.pressed && !e.repeat;
            &&& r.confirm_pressed == (v.confirm_pressed || (e.pressed && (e.code == Some(KeyCode::Space)
                || e.code == Some(KeyCode::Enter))))
            &&& r.backpack_pressed == (v.backpack_pressed || (e.pressed && e.code == Some(KeyCode::KeyB)))
            &&& r.digit == if fresh && e.code == Some(KeyCode::Digit1) { Some(1u8) }
                else if fresh && e.code == Some(KeyCode::Digit2) { Some(2u8) }
                else if fresh && e.code == Some(KeyCode::Digit3) { Some(3u8) }
                else if fresh && e.code == Some(KeyCode::Digit4) { Some(4u8) }
                else if fresh && e.code == Some(KeyCode::Digit5) { Some(5u8) }
                else if fresh && e.code == Some(KeyCode::Digit6) { Some(6u8) }
                else if fresh && e.code == Some(KeyCode::Digit7) { Some(7u8) }
                else if fresh && e.code == Some(KeyCode::Digit8) { Some(8u8) }
                else if fresh && e.code == Some(KeyCode::Digit9) { Some(9u8) }
                else { v.digit }
            &&& r.cycle == if fresh && e.code == Some(KeyCode::Tab) {
                Some(if shift { -1i32 } else { 1i32 })
            } else {
                v.cycle
            }
            &&& r.save == (v.save || (fresh && e.code == Some(KeyCode::F5)))
            &&& r.load == (v.load || (fresh && e.code == Some(KeyCode::F9)))
        }),
{
}

/// Key events keep pending values well-formed.
pub proof fn law_key_applied_wf(v: InputView, e: KeyInput, shift: bool)
    requires
        input_wf(v),
    ensures
        input_wf(key_applied(v, e, shift)),
{
}

} // verus!
