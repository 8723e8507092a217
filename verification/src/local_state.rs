use vstd::prelude::*;
use crate::scalar::{Scalar, Vec2, ZERO_BITS};
use crate::user_input::{holds, Key, UserInput, UserInputView};

verus! {

/// The bits of a real other than its sign.
pub const MAGNITUDE_MASK: u32 = 0x7FFF_FFFF;

/// Whether a real is zero, of either sign.
pub open spec fn is_zero(s: Scalar) -> bool {
    s.bits & MAGNITUDE_MASK == 0
}

impl Scalar {
    /// Whether this real is zero, of either sign.
    pub fn is_zero(&self) -> (r: bool)
        ensures
            r == is_zero(*self),
    {
        self.bits & MAGNITUDE_MASK == 0
    }
}

/// What the game knows of the window and the input, from frame to frame.
#[derive(Clone, Debug, PartialEq, Eq)]
pub struct LocalState {
    /// Where the cursor was last seen, away from the window's corner.
    pub mouse_pos: Vec2,
    pub mouse_down: bool,
    pub quit: bool,
    /// The record of the last frame.
    pub last_input: UserInput,
    /// The keys that went down in the last frame: held in it and not in the
    /// frame before.
    pub tapped_keys: Vec<Key>,
    pub focused: bool,
}

/// The mathematical value of a [`LocalState`].
pub struct LocalStateView {
    pub mouse_pos: Vec2,
    pub mouse_down: bool,
    pub quit: bool,
    pub last_input: UserInputView,
    pub tapped_keys: Seq<Key>,
    pub focused: bool,
}

impl View for LocalState {
    type V = LocalStateView;

    open spec fn view(&self) -> LocalStateView {
        LocalStateView {
            mouse_pos: self.mouse_pos,
            mouse_down: self.mouse_down,
            quit: self.quit,
            last_input: self.last_input@,
            tapped_keys: self.tapped_keys@,
            focused: self.focused,
        }
    }
}

/// The keys among the first `n` of `held` that are not in `before`, in
/// order.
pub open spec fn tapped(held: Seq<Key>, before: Seq<Key>, n: int) -> Seq<Key>
    decreases n,
{
    if n <= 0 {
        Seq::empty()
    } else if before.contains(held[n - 1]) {
        tapped(held, before, n - 1)
    } else {
        tapped(held, before, n - 1).push(held[n - 1])
    }
}

impl LocalStateView {
    /// This state after the record `input` of a frame was taken in. While
    /// the window has the focus, a move of the cursor to a place with both
    /// coordinates other than zero and a change of the mouse button are taken
    /// over. A request to end sets `quit`. A change of focus is taken over
    /// after that. The tapped keys are the keys that are held now and were
    /// not held in the record before.
    pub open spec fn updated(self, input: UserInputView) -> LocalStateView {
        LocalStateView {
            mouse_pos: match input.mouse_pos {
                Some(p) => if self.focused && !is_zero(p.x) && !is_zero(p.y) {
                    p
                } else {
                    self.mouse_pos
                },
                None => self.mouse_pos,
            },
            mouse_down: match input.mouse_state {
                Some(down) => if self.focused {
                    down
                } else {
                    self.mouse_down
                },
                None => self.mouse_down,
            },
            quit: self.quit || input.end_requested,
            last_input: input,
            tapped_keys: tapped(
                input.keys_held,
                self.last_input.keys_held,
                input.keys_held.len() as int,
            ),
            focused: match input.focus {
                Some(state) => state,
                None => self.focused,
            },
        }
    }
}

impl LocalState {
    /// The state at the start: the window has the focus, nothing is held,
    /// nothing was tapped.
    pub fn new() -> (r: LocalState)
        ensures
            r@ == (LocalStateView {
                mouse_pos: Vec2 { x: Scalar { bits: ZERO_BITS }, y: Scalar { bits: ZERO_BITS } },
                mouse_down: false,
                quit: false,
                last_input: UserInputView {
                    end_requested: false,
                    keys_held: Seq::empty(),
                    mouse_pos: None,
                    mouse_state: None,
                    focus: None,
                },
                tapped_keys: Seq::empty(),
                focused: true,
            }),
    {
        LocalState {
            mouse_pos: Vec2::zero(),
            mouse_down: false,
            quit: false,
            last_input: UserInput::default(),
            tapped_keys: Vec::new(),
            focused: true,
        }
    }

    /// Takes in the record of a frame.
    pub fn update_from_input(&mut self, input: UserInput)
        ensures
            final(self)@ == old(self)@.updated(input@),
    {
        if self.focused {
            match input.mouse_pos {
                Some(p) => {
                    if !p.x.is_zero() && !p.y.is_zero() {
                        self.mouse_pos = p;
                    }
                },
                None => {},
            }
            match input.mouse_state {
                Some(down) => {
                    self.mouse_down = down;
                },
                None => {},
            }
        }
        if input.end_requested {
            self.quit = true;
        }
        match input.focus {
            Some(state) => {
                self.focused = state;
            },
            None => {},
        }
        let mut fresh: Vec<Key> = Vec::new();
        let mut i: usize = 0;
        while i < input.keys_held.len()
            invariant
                i <= input.keys_held.len(),
                self.last_input == old(self).last_input,
                fresh@ == tapped(input.keys_held@, self.last_input.keys_held@, i as int),
            decreases input.keys_held.len() - i,
        {
            if !holds(&self.last_input.keys_held, input.keys_held[i]) {
                fresh.push(input.keys_held[i]);
            }
            i += 1;
        }
        self.tapped_keys = fresh;
        self.last_input = input;
    }

    /// Whether `key` went down in the last frame.
    pub fn tapped(&self, key: Key) -> (r: bool)
        ensures
            r == self@.tapped_keys.contains(key),
    {
        holds(&self.tapped_keys, key)
    }

    /// Whether `key` was held at the end of the last frame.
    pub fn held(&self, key: Key) -> (r: bool)
        ensures
            r == self@.last_input.keys_held.contains(key),
    {
        holds(&self.last_input.keys_held, key)
    }

    /// Whether the last frame asks for the world to be saved: whether the
    /// left control key was held and `S` went down.
    pub fn save_requested(&self) -> (r: bool)
        ensures
            r == (self@.last_input.keys_held.contains(Key::LControl)
                && self@.tapped_keys.contains(Key::S)),
    {
        self.held(Key::LControl) && self.tapped(Key::S)
    }

    /// The direction in which the keys that are held move the player, along
    /// each axis -1, 0 or 1: `A` and `D` pull along the first axis, `W` and
    /// `S` along the second. `None` while the left control key is held, and
    /// where the keys cancel out.
    pub fn movement(&self) -> (r: Option<(i8, i8)>)
        ensures
            r == movement(self@.last_input.keys_held),
    {
        if self.held(Key::LControl) {
            return None;
        }
        let mut x: i8 = 0;
        let mut y: i8 = 0;
        if self.held(Key::A) {
            x = x - 1;
        }
        if self.held(Key::D) {
            x = x + 1;
        }
        if self.held(Key::S) {
            y = y + 1;
        }
        if self.held(Key::W) {
            y = y - 1;
        }
        if x == 0 && y == 0 {
            None
        } else {
            Some((x, y))
        }
    }
}

/// One where the key is held, else zero.
pub open spec fn pull(keys: Seq<Key>, key: Key) -> int {
    if keys.contains(key) {
        1
    } else {
        0
    }
}

/// The direction in which held keys move the player.
pub open spec fn movement(keys: Seq<Key>) -> Option<(i8, i8)> {
    let x = pull(keys, Key::D) - pull(keys, Key::A);
    let y = pull(keys, Key::S) - pull(keys, Key::W);
    if keys.contains(Key::LControl) || (x == 0 && y == 0) {
        None
    } else {
        Some((x as i8, y as i8))
    }
}

} // verus!
