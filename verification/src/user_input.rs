use vstd::prelude::*;
use crate::scalar::Vec2;

verus! {

/// A key of the keyboard: one of those that the game reacts to, or another
/// one by its code.
#[derive(Clone, Copy, Debug, PartialEq, Eq, Structural)]
pub enum Key {
    A,
    B,
    D,
    E,
    G,
    S,
    W,
    LControl,
    Other(u32),
}

/// What the window reports, as far as the game reads it.
#[derive(Clone, Copy, Debug, PartialEq, Eq, Structural)]
pub enum InputEvent {
    CloseRequested,
    /// A key went down or up.
    Keyboard { pressed: bool, key: Key },
    /// The cursor moved to a place in the window.
    CursorMoved { position: Vec2 },
    /// A mouse button went down or up.
    MouseInput { pressed: bool, left: bool },
    MouseWheel,
    /// The window gained or lost the focus.
    Focused(bool),
    /// Anything else.
    Other,
}

/// Whether the list holds the key.
pub fn holds(keys: &Vec<Key>, key: Key) -> (r: bool)
    ensures
        r == keys@.contains(key),
{
    let mut i: usize = 0;
    while i < keys.len()
        invariant
            i <= keys.len(),
            forall|j: int| 0 <= j < i ==> keys[j] != key,
        decreases keys.len() - i,
    {
        if keys[i] == key {
            return true;
        }
        i += 1;
    }
    false
}

/// The keys of the first `n` of the list other than `key`, in order.
pub open spec fn without_key(keys: Seq<Key>, key: Key, n: int) -> Seq<Key>
    decreases n,
{
    if n <= 0 {
        Seq::empty()
    } else if keys[n - 1] == key {
        without_key(keys, key, n - 1)
    } else {
        without_key(keys, key, n - 1).push(keys[n - 1])
    }
}

/// The keys that are held after `key` went down: those held before, and
/// `key` behind them where it was not among them.
pub open spec fn pressed(keys: Seq<Key>, key: Key) -> Seq<Key> {
    if keys.contains(key) {
        keys
    } else {
        keys.push(key)
    }
}

/// The keys that are held after `key` went up: those held before other than
/// `key`.
pub open spec fn released(keys: Seq<Key>, key: Key) -> Seq<Key> {
    without_key(keys, key, keys.len() as int)
}

/// Enters `key` among the keys that are held.
pub fn press(keys: &mut Vec<Key>, key: Key)
    ensures
        final(keys)@ == pressed(old(keys)@, key),
{
    if !holds(keys, key) {
        keys.push(key);
    }
}

/// Takes `key` from the keys that are held.
pub fn release(keys: &mut Vec<Key>, key: Key)
    ensures
        final(keys)@ == released(old(keys)@, key),
        !final(keys)@.contains(key),
{
    let mut out: Vec<Key> = Vec::new();
    let mut i: usize = 0;
    while i < keys.len()
        invariant
            i <= keys.len(),
            keys@ == old(keys)@,
            out@ == without_key(keys@, key, i as int),
            !out@.contains(key),
        decreases keys.len() - i,
    {
        if keys[i] != key {
            let ghost before = out@;
            out.push(keys[i]);
            assert forall|j: int| 0 <= j < out@.len() implies out@[j] != key by {
                if j < before.len() {
                    assert(before[j] == out@[j]);
                    assert(before.contains(out@[j]));
                }
            }
        }
        i += 1;
    }
    *keys = out;
}

/// What the window reported during one frame.
#[derive(Clone, Debug, PartialEq, Eq)]
pub struct UserInput {
    pub end_requested: bool,
    /// The keys that are held at the end of the frame.
    pub keys_held: Vec<Key>,
    /// Where the cursor moved to, if it moved.
    pub mouse_pos: Option<Vec2>,
    /// Whether the left mouse button went down or up, if it did either.
    pub mouse_state: Option<bool>,
    /// Whether the window gained or lost the focus, if it did either.
    pub focus: Option<bool>,
}

/// The mathematical value of a [`UserInput`].
pub struct UserInputView {
    pub end_requested: bool,
    pub keys_held: Seq<Key>,
    pub mouse_pos: Option<Vec2>,
    pub mouse_state: Option<bool>,
    pub focus: Option<bool>,
}

impl View for UserInput {
    type V = UserInputView;

    open spec fn view(&self) -> UserInputView {
        UserInputView {
            end_requested: self.end_requested,
            keys_held: self.keys_held@,
            mouse_pos: self.mouse_pos,
            mouse_state: self.mouse_state,
            focus: self.focus,
        }
    }
}

impl Default for UserInput {
    fn default() -> (r: Self)
        ensures
            r@ == (UserInputView {
                end_requested: false,
                keys_held: Seq::empty(),
                mouse_pos: None,
                mouse_state: None,
                focus: None,
            }),
    {
        UserInput {
            end_requested: false,
            keys_held: Vec::new(),
            mouse_pos: None,
            mouse_state: None,
            focus: None,
        }
    }
}

impl UserInputView {
    /// This record after one more event of the window.
    pub open spec fn after(self, event: InputEvent) -> UserInputView {
        match event {
            InputEvent::CloseRequested => UserInputView { end_requested: true, ..self },
            InputEvent::CursorMoved { position } => UserInputView {
                mouse_pos: Some(position),
                ..self
            },
            InputEvent::MouseInput { pressed, left } => if left {
                UserInputView { mouse_state: Some(pressed), ..self }
            } else {
                self
            },
            InputEvent::Focused(state) => UserInputView { focus: Some(state), ..self },
            _ => self,
        }
    }
}

/// The keys that are held after one more event of the window.
pub open spec fn keys_after(keys: Seq<Key>, event: InputEvent) -> Seq<Key> {
    match event {
        InputEvent::Keyboard { pressed: down, key } => if down {
            pressed(keys, key)
        } else {
            released(keys, key)
        },
        _ => keys,
    }
}

impl UserInput {
    /// Takes note of one event of the window: a request to close, a move of
    /// the cursor, the left mouse button, and the focus are entered in this
    /// record; a key that went down or up is entered in or taken from
    /// `keys_held`, the keys that are held from frame to frame.
    pub fn process_event(&mut self, event: &InputEvent, keys_held: &mut Vec<Key>)
        ensures
            final(self)@ == old(self)@.after(*event),
            final(keys_held)@ == keys_after(old(keys_held)@, *event),
    {
        match event {
            InputEvent::CloseRequested => {
                self.end_requested = true;
            },
            InputEvent::Keyboard { pressed, key } => {
                if *pressed {
                    press(keys_held, *key);
                } else {
                    release(keys_held, *key);
                }
            },
            InputEvent::CursorMoved { position } => {
                self.mouse_pos = Some(*position);
            },
            InputEvent::MouseInput { pressed, left } => {
                if *left {
                    self.mouse_state = Some(*pressed);
                }
            },
            InputEvent::Focused(state) => {
                self.focus = Some(*state);
            },
            _ => {},
        }
    }
}

} // verus!
