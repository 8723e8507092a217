use vstd::prelude::*;
use crate::local_state::LocalState;
use crate::user_input::{keys_after, InputEvent, Key, UserInput, UserInputView};

verus! {

/// The state of the input from frame to frame: the keys that are held.
#[derive(Debug)]
pub struct GlutinState {
    pub keys_held: Vec<Key>,
}

/// Whether the developer interface keeps an event to itself: an event of
/// the keyboard while it captures the keyboard, an event of a mouse button
/// or of the wheel while it captures the mouse.
pub open spec fn captured(event: InputEvent, capture_keyboard: bool, capture_mouse: bool) -> bool {
    match event {
        InputEvent::Keyboard { pressed, key } => capture_keyboard,
        InputEvent::MouseInput { pressed, left } => capture_mouse,
        InputEvent::MouseWheel => capture_mouse,
        _ => false,
    }
}

/// The record of a frame and the keys that are held, after the first `n`
/// events of the frame.
pub open spec fn polled(
    keys: Seq<Key>,
    events: Seq<InputEvent>,
    capture_keyboard: bool,
    capture_mouse: bool,
    n: int,
) -> (UserInputView, Seq<Key>)
    decreases n,
{
    if n <= 0 {
        (
            UserInputView {
                end_requested: false,
                keys_held: Seq::empty(),
                mouse_pos: None,
                mouse_state: None,
                focus: None,
            },
            keys,
        )
    } else {
        let (input, held) = polled(keys, events, capture_keyboard, capture_mouse, n - 1);
        if captured(events[n - 1], capture_keyboard, capture_mouse) {
            (input, held)
        } else {
            (input.after(events[n - 1]), keys_after(held, events[n - 1]))
        }
    }
}

/// A copy of a list of keys.
pub fn copy_keys(keys: &Vec<Key>) -> (r: Vec<Key>)
    ensures
        r@ == keys@,
{
    let mut out: Vec<Key> = Vec::new();
    let mut i: usize = 0;
    while i < keys.len()
        invariant
            i <= keys.len(),
            out@ == keys@.take(i as int),
        decreases keys.len() - i,
    {
        out.push(keys[i]);
        assert(out@ =~= keys@.take(i as int + 1));
        i += 1;
    }
    assert(keys@.take(keys.len() as int) =~= keys@);
    out
}

impl GlutinState {
    /// The state with no key held.
    pub fn new() -> (r: GlutinState)
        ensures
            r.keys_held@ == Seq::<Key>::empty(),
    {
        GlutinState { keys_held: Vec::new() }
    }

    /// Takes in the events of one frame: every event that the developer
    /// interface does not keep to itself is entered in the record of the
    /// frame, in order; the record then gets the keys that are held, and the
    /// local state is brought up to date from it.
    pub fn input(
        &mut self,
        events: &Vec<InputEvent>,
        capture_keyboard: bool,
        capture_mouse: bool,
        local_state: &mut LocalState,
    )
        ensures
            ({
                let (input, held) = polled(
                    old(self).keys_held@,
                    events@,
                    capture_keyboard,
                    capture_mouse,
                    events@.len() as int,
                );
                &&& final(self).keys_held@ == held
                &&& final(local_state)@ == old(local_state)@.updated(
                    UserInputView { keys_held: held, ..input },
                )
            }),
    {
        let mut input_frame = UserInput::default();
        let mut i: usize = 0;
        while i < events.len()
            invariant
                i <= events.len(),
                (input_frame@, self.keys_held@) == polled(
                    old(self).keys_held@,
                    events@,
                    capture_keyboard,
                    capture_mouse,
                    i as int,
                ),
            decreases events.len() - i,
        {
            let skip = match events[i] {
                InputEvent::Keyboard { .. } => capture_keyboard,
                InputEvent::MouseInput { .. } => capture_mouse,
                InputEvent::MouseWheel => capture_mouse,
                _ => false,
            };
            if !skip {
                input_frame.process_event(&events[i], &mut self.keys_held);
            }
            i += 1;
        }
        input_frame.keys_held = copy_keys(&self.keys_held);
        local_state.update_from_input(input_frame);
    }
}

} // verus!
