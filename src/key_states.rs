//! Keyboard state: which keys were just pressed, are held, or were released.
use vstd::prelude::*;

verus! {

/// Number of key codes tracked: GLFW's printable and function keys run from
/// 0 to 348. Other codes (such as the unknown key, -1) are not tracked.
pub const KEY_CODES: usize = 349;

/// The state of one key.
#[derive(Clone, Copy, Debug, PartialEq, Eq, Structural)]
pub enum KeyState {
    /// Went down since the last frame.
    Pressed,
    /// Down for more than one frame.
    Held,
    Released,
}

/// What a key event reports.
#[derive(Clone, Copy, Debug, PartialEq, Eq, Structural)]
pub enum KeyAction {
    Press,
    Release,
    Repeat,
}

/// The state recorded for `key` in `table`.
pub open spec fn state_at(table: Seq<Option<KeyState>>, key: i32) -> Option<KeyState> {
    if 0 <= key < table.len() {
        table[key as int]
    } else {
        None
    }
}

/// The recorded state of every key code.
pub struct KeyStates {
    keys: Vec<Option<KeyState>>,
}

impl KeyStates {
    /// The state recorded for `key`; `None` for a key never seen.
    pub closed spec fn state(&self, key: i32) -> Option<KeyState> {
        state_at(self.keys@, key)
    }

    /// The table covers every tracked key code.
    pub closed spec fn wf(&self) -> bool {
        self.keys@.len() == KEY_CODES
    }

    /// No key seen yet.
    pub fn new() -> (r: Self)
        ensures
            r.wf(),
            forall|k: i32| r.state(k) is None,
    {
        let mut keys: Vec<Option<KeyState>> = Vec::new();
        let mut i: usize = 0;
        while i < KEY_CODES
            invariant
                i <= KEY_CODES,
                keys@.len() == i,
                forall|j: int| 0 <= j < i ==> keys@[j] is None,
            decreases KEY_CODES - i,
        {
            keys.push(None);
            i += 1;
        }
        KeyStates { keys }
    }

    /// Turns every key that was just pressed into a held key; call once per
    /// frame before the frame's key events.
    pub fn update_pressed_to_held(&mut self)
        requires
            old(self).wf(),
        ensures
            final(self).wf(),
            forall|k: i32| #[trigger]
                final(self).state(k) == (if old(self).state(k) == Some(KeyState::Pressed) {
                    Some(KeyState::Held)
                } else {
                    old(self).state(k)
                }),
    {
        let ghost before = self.keys@;
        let mut i: usize = 0;
        while i < self.keys.len()
            invariant
                i <= self.keys@.len(),
                self.keys@.len() == before.len(),
                forall|j: int| 0 <= j < i ==> #[trigger] self.keys@[j] == (if before[j] == Some(KeyState::Pressed) {
                    Some(KeyState::Held)
                } else {
                    before[j]
                }),
                forall|j: int| i <= j < self.keys@.len() ==> #[trigger] self.keys@[j] == before[j],
            decreases self.keys@.len() - i,
        {
            if self.keys[i] == Some(KeyState::Pressed) {
                self.keys[i] = Some(KeyState::Held);
            }
            i += 1;
        }
    }

    /// Records a key event: a press marks the key pressed, a release marks
    /// it released, and a repeat changes nothing.
    pub fn handle_key_event(&mut self, key: i32, action: KeyAction)
        requires
            old(self).wf(),
        ensures
            final(self).wf(),
            forall|k: i32| #[trigger]
                final(self).state(k) == (if k == key && 0 <= key < KEY_CODES && action != KeyAction::Repeat {
                    Some(if action == KeyAction::Press { KeyState::Pressed } else { KeyState::Released })
                } else {
                    old(self).state(k)
                }),
    {
        if key < 0 || key as usize >= self.keys.len() {
            return;
        }
        match action {
            KeyAction::Press => {
                self.keys[key as usize] = Some(KeyState::Pressed);
            },
            KeyAction::Release => {
                self.keys[key as usize] = Some(KeyState::Released);
            },
            KeyAction::Repeat => {},
        }
    }

    /// Whether `key` went down since the last frame.
    pub fn is_key_pressed(&self, key: i32) -> (r: bool)
        requires
            self.wf(),
        ensures
            r == (self.state(key) == Some(KeyState::Pressed)),
    {
        if key < 0 || key as usize >= self.keys.len() {
            return false;
        }
        self.keys[key as usize] == Some(KeyState::Pressed)
    }

    /// Whether `key` is down, newly or held.
    pub fn is_key_pressed_raw(&self, key: i32) -> (r: bool)
        requires
            self.wf(),
        ensures
            r == (self.state(key) == Some(KeyState::Pressed) || self.state(key) == Some(KeyState::Held)),
    {
        if key < 0 || key as usize >= self.keys.len() {
            return false;
        }
        match self.keys[key as usize] {
            Some(KeyState::Pressed) | Some(KeyState::Held) => true,
            _ => false,
        }
    }
}

} // verus!
